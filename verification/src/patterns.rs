//! Searching text with the `regex` crate: the matches of a pattern and the
//! text between them, and replacement built from the two.
use vstd::prelude::*;
use crate::text;
use crate::text::{chars_of, push_all};

verus! {

/// For each leftmost-first, non-overlapping match of `pattern` in `text`
/// (`Regex::captures_iter`), the text of every capture group, group 0 being
/// the whole match and `None` a group that took no part; `None` when the
/// pattern does not compile.
pub uninterp spec fn regex_captures(pattern: Seq<char>, text: Seq<char>) -> Option<
    Seq<Seq<Option<Seq<char>>>>,
>;

/// The pieces of `text` between the matches of `pattern` (`Regex::split`),
/// in order, empty ones included; `None` when the pattern does not compile.
pub uninterp spec fn regex_split(pattern: Seq<char>, text: Seq<char>) -> Option<Seq<Seq<char>>>;

pub open spec fn groups_view(g: Seq<Option<String>>) -> Seq<Option<Seq<char>>> {
    Seq::new(g.len(), |k: int| match g[k] {
        Some(s) => Some(s@),
        None => None,
    })
}

pub open spec fn captures_view(c: Seq<Vec<Option<String>>>) -> Seq<Seq<Option<Seq<char>>>> {
    Seq::new(c.len(), |k: int| groups_view(c[k]@))
}

pub open spec fn strings_view(v: Seq<String>) -> Seq<Seq<char>> {
    Seq::new(v.len(), |k: int| v[k]@)
}

/// `regex::Regex::new(pattern)` and then `Regex::captures_iter(text)`: the
/// groups of every match, as `regex_captures` names them. `None` exactly
/// when `Regex::new` returns an error.
#[verifier::external_body]
pub(crate) fn captures_all(pattern: &str, text: &str) -> (res: Option<Vec<Vec<Option<String>>>>)
    ensures
        match res {
            Some(c) => regex_captures(pattern@, text@) == Some(captures_view(c@)),
            None => regex_captures(pattern@, text@) is None,
        },
{
    let re = regex::Regex::new(pattern).ok()?;
    Some(
        re.captures_iter(text).map(
            |caps| caps.iter().map(|g| g.map(|m| m.as_str().to_owned())).collect(),
        ).collect(),
    )
}

/// The pieces are the text around the matches: one more piece than
/// matches, and the pieces with each match's text between them give the
/// text back.
pub open spec fn split_fits(pieces: Seq<Seq<char>>, caps: Seq<Seq<Option<Seq<char>>>>, text: Seq<char>) -> bool {
    &&& pieces.len() == caps.len() + 1
    &&& interleave(pieces, Seq::new(caps.len(), |k: int| group(caps[k], 0))) == text
}

/// `split_fits` for pieces and matches that are both there.
pub open spec fn split_agrees(
    pieces: Option<Seq<Seq<char>>>,
    caps: Option<Seq<Seq<Option<Seq<char>>>>>,
    text: Seq<char>,
) -> bool {
    match (pieces, caps) {
        (Some(p), Some(c)) => split_fits(p, c, text),
        _ => true,
    }
}

pub open spec fn opt_strings_view(o: Option<Vec<String>>) -> Option<Seq<Seq<char>>> {
    match o {
        Some(p) => Some(strings_view(p@)),
        None => None,
    }
}

/// `regex::Regex::new(pattern)` and then `Regex::split(text)`: the text
/// between matches, as `regex_split` names it: the pieces before, between
/// and after the matches that `Regex::captures_iter` finds (the same
/// leftmost-first, non-overlapping matches), so that the pieces with the
/// matches between them give the text back. `None` exactly when
/// `Regex::new` returns an error.
#[verifier::external_body]
pub(crate) fn split_all(pattern: &str, text: &str) -> (res: Option<Vec<String>>)
    ensures
        match res {
            Some(p) => regex_split(pattern@, text@) == Some(strings_view(p@)),
            None => regex_split(pattern@, text@) is None,
        },
        split_agrees(opt_strings_view(res), regex_captures(pattern@, text@), text@),
{
    let re = regex::Regex::new(pattern).ok()?;
    Some(re.split(text).map(|piece| piece.to_owned()).collect())
}

/// Capture group `i` of a match, empty when it took no part.
pub open spec fn group(caps: Seq<Option<Seq<char>>>, i: int) -> Seq<char> {
    if 0 <= i < caps.len() {
        match caps[i] {
            Some(g) => g,
            None => Seq::empty(),
        }
    } else {
        Seq::empty()
    }
}

pub fn group_of(caps: &Vec<Option<String>>, i: usize) -> (res: Vec<char>)
    ensures
        res@ == group(groups_view(caps@), i as int),
{
    if i < caps.len() {
        match &caps[i] {
            Some(g) => chars_of(g.as_str()),
            None => Vec::new(),
        }
    } else {
        Vec::new()
    }
}

/// The text between matches with the replacement of each match in its
/// place: piece, replacement, piece, ..., and the pieces left over.
pub open spec fn interleave(pieces: Seq<Seq<char>>, reps: Seq<Seq<char>>) -> Seq<char>
    decreases reps.len(),
{
    if reps.len() == 0 {
        text::concat_all(pieces)
    } else {
        let head = if pieces.len() > 0 {
            pieces[0]
        } else {
            Seq::empty()
        };
        let rest = if pieces.len() > 0 {
            pieces.drop_first()
        } else {
            pieces
        };
        head + reps[0] + interleave(rest, reps.drop_first())
    }
}

proof fn lemma_concat_all_cons(a: Seq<char>, rest: Seq<Seq<char>>)
    ensures
        text::concat_all(seq![a] + rest) == a + text::concat_all(rest),
    decreases rest.len(),
{
    let all = seq![a] + rest;
    if rest.len() == 0 {
        assert(all.drop_last() == Seq::<Seq<char>>::empty());
        assert(text::concat_all(all) == text::concat_all(all.drop_last()) + all.last());
        assert(a + Seq::<char>::empty() == a);
    } else {
        assert(all.drop_last() == seq![a] + rest.drop_last());
        lemma_concat_all_cons(a, rest.drop_last());
        assert(text::concat_all(all) =~= a + text::concat_all(rest));
    }
}

pub(crate) proof fn lemma_concat_all_drop_first(pieces: Seq<Seq<char>>)
    requires
        pieces.len() > 0,
    ensures
        text::concat_all(pieces) == pieces[0] + text::concat_all(pieces.drop_first()),
{
    lemma_concat_all_cons(pieces[0], pieces.drop_first());
    assert(seq![pieces[0]] + pieces.drop_first() == pieces);
}

/// Interleaves `pieces` with the replacements `reps` (see `interleave`).
pub fn interleave_of(pieces: &Vec<String>, reps: &Vec<Vec<char>>) -> (res: Vec<char>)
    ensures
        res@ == interleave(strings_view(pieces@), text::vecs_view(reps@)),
{
    let ghost ps = strings_view(pieces@);
    let ghost rs = text::vecs_view(reps@);
    let mut out: Vec<char> = Vec::new();
    let mut i: usize = 0;
    assert(ps.skip(0) == ps);
    assert(rs.skip(0) == rs);
    assert(out@ + interleave(ps, rs) == interleave(ps, rs));
    while i < reps.len()
        invariant
            ps == strings_view(pieces@),
            rs == text::vecs_view(reps@),
            i <= reps.len(),
            out@ + interleave(
                if i <= ps.len() {
                    ps.skip(i as int)
                } else {
                    Seq::empty()
                },
                rs.skip(i as int),
            ) == interleave(ps, rs),
        decreases reps.len() - i,
    {
        let ghost pr = if i <= ps.len() {
            ps.skip(i as int)
        } else {
            Seq::empty()
        };
        let ghost rr = rs.skip(i as int);
        assert(rr[0] == reps[i as int]@);
        assert(rr.drop_first() == rs.skip(i + 1));
        let ghost before = out@;
        let ghost head = if pr.len() > 0 {
            pr[0]
        } else {
            Seq::empty()
        };
        let ghost next_pr = if i + 1 <= ps.len() {
            ps.skip(i + 1)
        } else {
            Seq::empty()
        };
        proof {
            if i < ps.len() {
                assert(pr.drop_first() == next_pr);
            } else {
                assert(pr.len() == 0);
                assert(next_pr.len() == 0);
                assert(pr == next_pr);
            }
        }
        assert(interleave(pr, rr) == head + rr[0] + interleave(next_pr, rr.drop_first()));
        if i < pieces.len() {
            assert(pr[0] == pieces[i as int]@);
            assert(pr.drop_first() == ps.skip(i + 1));
            push_all(&mut out, &chars_of(pieces[i].as_str()));
        } else {
            assert(pr.len() == 0);
        }
        push_all(&mut out, &reps[i]);
        assert(out@ == before + head + rr[0]);
        assert(out@ + interleave(next_pr, rr.drop_first()) =~= before + interleave(pr, rr));
        i += 1;
    }
    let ghost pr = if i <= ps.len() {
        ps.skip(i as int)
    } else {
        Seq::empty()
    };
    let mut j = i;
    assert(out@ + text::concat_all(pr) == interleave(ps, rs));
    while j < pieces.len()
        invariant
            ps == strings_view(pieces@),
            i <= j,
            i <= ps.len() ==> j <= ps.len(),
            out@ + text::concat_all(
                if j <= ps.len() {
                    ps.skip(j as int)
                } else {
                    Seq::empty()
                },
            ) == interleave(ps, rs),
        decreases pieces.len() - j,
    {
        let ghost pr = ps.skip(j as int);
        proof {
            lemma_concat_all_drop_first(pr);
        }
        assert(pr[0] == pieces[j as int]@);
        assert(pr.drop_first() == ps.skip(j + 1));
        push_all(&mut out, &chars_of(pieces[j].as_str()));
        j += 1;
    }
    proof {
        if j <= ps.len() {
            assert(ps.skip(j as int).len() == 0);
        }
        assert(out@ + text::concat_all(Seq::<Seq<char>>::empty()) == out@);
    }
    out
}

} // verus!

verus! {

/// The replacements that change only the first match: `first` for it and
/// each later match's own text.
pub open spec fn first_replaced(caps: Seq<Seq<Option<Seq<char>>>>, first: Seq<char>) -> Seq<Seq<char>> {
    Seq::new(caps.len(), |k: int| if k == 0 { first } else { group(caps[k], 0) })
}

pub fn first_replaced_of(caps: &Vec<Vec<Option<String>>>, first: Vec<char>) -> (res: Vec<Vec<char>>)
    ensures
        text::vecs_view(res@) == first_replaced(captures_view(caps@), first@),
{
    let ghost cv = captures_view(caps@);
    let mut out: Vec<Vec<char>> = Vec::new();
    let mut k: usize = 0;
    let mut first_opt = Some(first);
    let ghost fv = first@;
    while k < caps.len()
        invariant
            cv == captures_view(caps@),
            k <= caps.len(),
            k == 0 ==> first_opt == Some(first) && first@ == fv,
            text::vecs_view(out@) =~= first_replaced(cv, fv).take(k as int),
        decreases caps.len() - k,
    {
        let r = if k == 0 {
            match first_opt.take() {
                Some(f) => f,
                None => Vec::new(),
            }
        } else {
            assert(cv[k as int] == groups_view(caps@[k as int]@));
            group_of(&caps[k], 0)
        };
        let ghost before = text::vecs_view(out@);
        out.push(r);
        assert(text::vecs_view(out@) =~= before.push(r@));
        k += 1;
    }
    out
}

} // verus!

verus! {

/// Every match of `p` in `s` replaced by `r`; `s` unchanged when the pattern
/// does not compile.
pub open spec fn replace_all_with(p: Seq<char>, s: Seq<char>, r: Seq<char>) -> Seq<char> {
    match (regex_split(p, s), regex_captures(p, s)) {
        (Some(pieces), Some(caps)) => interleave(pieces, Seq::new(caps.len(), |k: int| r)),
        _ => s,
    }
}

pub fn replace_all_with_of(p: &str, s: &Vec<char>, r: &Vec<char>) -> (res: Vec<char>)
    ensures
        res@ == replace_all_with(p@, s@, r@),
{
    let text = text::string_of(s);
    let pieces = split_all(p, text.as_str());
    let caps = captures_all(p, text.as_str());
    if let (Some(pieces), Some(caps)) = (pieces, caps) {
        let mut reps: Vec<Vec<char>> = Vec::new();
        let mut k: usize = 0;
        while k < caps.len()
            invariant
                k <= caps.len(),
                text::vecs_view(reps@) =~= Seq::new(k as nat, |j: int| r@),
            decreases caps.len() - k,
        {
            let ghost before = text::vecs_view(reps@);
            reps.push(r.clone());
            assert(text::vecs_view(reps@) =~= before.push(r@));
            k += 1;
        }
        assert(text::vecs_view(reps@) =~= Seq::new(captures_view(caps@).len(), |j: int| r@));
        interleave_of(&pieces, &reps)
    } else {
        s.clone()
    }
}

/// Group `g` of the first match of `p` in `s`, if there is a match and the
/// group took part in it.
pub open spec fn first_group(p: Seq<char>, s: Seq<char>, g: int) -> Option<Seq<char>> {
    match regex_captures(p, s) {
        Some(caps) => if caps.len() > 0 && 0 <= g < caps[0].len() {
            caps[0][g]
        } else {
            None
        },
        None => None,
    }
}

/// Whether `p` matches somewhere in `s`.
pub open spec fn is_match(p: Seq<char>, s: Seq<char>) -> bool {
    match regex_captures(p, s) {
        Some(caps) => caps.len() > 0,
        None => false,
    }
}

pub fn first_group_of(p: &str, s: &Vec<char>, g: usize) -> (res: Option<Vec<char>>)
    ensures
        match res {
            Some(v) => first_group(p@, s@, g as int) == Some(v@),
            None => first_group(p@, s@, g as int) is None,
        },
{
    let text = text::string_of(s);
    match captures_all(p, text.as_str()) {
        Some(caps) => if caps.len() > 0 && g < caps[0].len() {
            assert(captures_view(caps@)[0] == groups_view(caps@[0]@));
            match &caps[0][g] {
                Some(v) => Some(chars_of(v.as_str())),
                None => None,
            }
        } else {
            None
        },
        None => None,
    }
}

pub fn is_match_of(p: &str, s: &Vec<char>) -> (res: bool)
    ensures
        res == is_match(p@, s@),
{
    let text = text::string_of(s);
    match captures_all(p, text.as_str()) {
        Some(caps) => caps.len() > 0,
        None => false,
    }
}

/// The text with each match of `p` replaced: the replacements are computed
/// from the groups of all matches by `reps`, in match order; the text unchanged
/// when the pattern does not compile.
pub open spec fn rewritten(
    p: Seq<char>,
    s: Seq<char>,
    reps: spec_fn(Seq<Seq<Option<Seq<char>>>>) -> Seq<Seq<char>>,
) -> Seq<char> {
    match (regex_split(p, s), regex_captures(p, s)) {
        (Some(pieces), Some(caps)) => interleave(pieces, reps(caps)),
        _ => s,
    }
}

/// The pieces between the matches of `p` in `text` and the groups of the
/// matches; `None` when the pattern does not compile.
pub fn matches_of(p: &str, text: &str) -> (res: Option<(Vec<String>, Vec<Vec<Option<String>>>)>)
    ensures
        match res {
            Some((pieces, caps)) => regex_split(p@, text@) == Some(strings_view(pieces@))
                && regex_captures(p@, text@) == Some(captures_view(caps@)),
            None => regex_split(p@, text@) is None || regex_captures(p@, text@) is None,
        },
{
    let pieces = split_all(p, text);
    let caps = captures_all(p, text);
    match (pieces, caps) {
        (Some(pieces), Some(caps)) => Some((pieces, caps)),
        _ => None,
    }
}

/// Replacements computed match by match from the match's index and groups.
pub open spec fn each_match(g: spec_fn(int, Seq<Option<Seq<char>>>) -> Seq<char>) -> spec_fn(
    Seq<Seq<Option<Seq<char>>>>,
) -> Seq<Seq<char>> {
    |caps: Seq<Seq<Option<Seq<char>>>>| Seq::new(caps.len(), |k: int| g(k, caps[k]))
}

/// Replaces each match of `p` in `s` by what `f` computes from the match's
/// index and groups (`g` saying what that is).
pub(crate) fn rewrite_each<F: Fn(usize, &Vec<Option<String>>) -> Vec<char>>(
    p: &str,
    s: &Vec<char>,
    f: F,
    Ghost(g): Ghost<spec_fn(int, Seq<Option<Seq<char>>>) -> Seq<char>>,
) -> (res: Vec<char>)
    requires
        forall|k: usize, c: &Vec<Option<String>>| f.requires((k, c)),
        forall|k: usize, c: &Vec<Option<String>>, r: Vec<char>|
            f.ensures((k, c), r) ==> r@ == g(k as int, groups_view(c@)),
    ensures
        res@ == rewritten(p@, s@, each_match(g)),
{
    let t = text::string_of(s);
    match matches_of(p, t.as_str()) {
        Some((pieces, caps)) => {
            let ghost cv = captures_view(caps@);
            let mut reps: Vec<Vec<char>> = Vec::new();
            let mut k: usize = 0;
            while k < caps.len()
                invariant
                    cv == captures_view(caps@),
                    k <= caps.len(),
                    forall|k: usize, c: &Vec<Option<String>>| f.requires((k, c)),
                    forall|k: usize, c: &Vec<Option<String>>, r: Vec<char>|
                        f.ensures((k, c), r) ==> r@ == g(k as int, groups_view(c@)),
                    text::vecs_view(reps@) =~= Seq::new(k as nat, |j: int| g(j, cv[j])),
                decreases caps.len() - k,
            {
                assert(cv[k as int] == groups_view(caps@[k as int]@));
                let r = f(k, &caps[k]);
                let ghost before = text::vecs_view(reps@);
                reps.push(r);
                assert(text::vecs_view(reps@) =~= before.push(r@));
                k += 1;
            }
            assert(text::vecs_view(reps@) =~= each_match(g)(cv));
            interleave_of(&pieces, &reps)
        },
        None => s.clone(),
    }
}

/// `text` with the first match of `pattern` replaced by the template `rep`,
/// in which `$name`, `${name}` and `$n` stand for capture groups and `$$`
/// for a dollar sign (`Regex::replace` with a string); `None` when the
/// pattern does not compile.
pub uninterp spec fn regex_replaced(pattern: Seq<char>, text: Seq<char>, rep: Seq<char>) -> Option<Seq<char>>;

/// `regex::Regex::new(pattern)` and then `Regex::replace(text, rep)`, as
/// `regex_replaced` names it. `None` exactly when `Regex::new` returns an
/// error.
#[verifier::external_body]
pub(crate) fn replace_first_template(pattern: &str, text: &str, rep: &str) -> (res: Option<String>)
    ensures
        match res {
            Some(r) => regex_replaced(pattern@, text@, rep@) == Some(r@),
            None => regex_replaced(pattern@, text@, rep@) is None,
        },
{
    let re = regex::Regex::new(pattern).ok()?;
    Some(re.replace(text, rep).into_owned())
}

/// The first match of `p` removed.
pub open spec fn first_removed(p: Seq<char>, s: Seq<char>) -> Seq<char> {
    rewritten(p, s, |caps: Seq<Seq<Option<Seq<char>>>>| first_replaced(caps, Seq::empty()))
}

pub fn first_removed_of(p: &str, s: &Vec<char>) -> (res: Vec<char>)
    ensures
        res@ == first_removed(p@, s@),
{
    let t = text::string_of(s);
    match matches_of(p, t.as_str()) {
        Some((pieces, caps)) => {
            let reps = first_replaced_of(&caps, Vec::new());
            assert(text::vecs_view(reps@) == first_replaced(captures_view(caps@), Seq::<char>::empty()));
            interleave_of(&pieces, &reps)
        },
        None => s.clone(),
    }
}

} // verus!
