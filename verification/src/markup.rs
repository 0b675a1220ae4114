//! HTML text: escaping, entity decoding, class lists and attribute lookup.
use vstd::prelude::*;
use crate::text;
use crate::patterns;
use crate::text::{chars_of, push_all, push_str, string_of, replace_str, char_is_ws, seq_eq};
use crate::patterns::{captures_all, split_all, group_of, interleave_of, groups_view, captures_view, strings_view};

verus! {

/// One character of HTML text: `&`, `<`, `>` and `"` become entities.
pub open spec fn html_char(c: char) -> Seq<char> {
    if c == '&' {
        "&amp;"@
    } else if c == '<' {
        "&lt;"@
    } else if c == '>' {
        "&gt;"@
    } else if c == '"' {
        "&quot;"@
    } else {
        seq![c]
    }
}

/// One character of an attribute value: as in text, and `'` becomes `&#39;`.
pub open spec fn attr_char(c: char) -> Seq<char> {
    if c == '\'' {
        "&#39;"@
    } else {
        html_char(c)
    }
}

pub open spec fn escape_html(s: Seq<char>) -> Seq<char>
    decreases s.len(),
{
    if s.len() == 0 {
        Seq::empty()
    } else {
        escape_html(s.drop_last()) + html_char(s.last())
    }
}

pub open spec fn escape_attr(s: Seq<char>) -> Seq<char>
    decreases s.len(),
{
    if s.len() == 0 {
        Seq::empty()
    } else {
        escape_attr(s.drop_last()) + attr_char(s.last())
    }
}

fn push_html_char(out: &mut Vec<char>, c: char, attr: bool)
    ensures
        final(out)@ == old(out)@ + if attr {
            attr_char(c)
        } else {
            html_char(c)
        },
{
    if attr && c == '\'' {
        push_str(out, "&#39;");
    } else if c == '&' {
        push_str(out, "&amp;");
    } else if c == '<' {
        push_str(out, "&lt;");
    } else if c == '>' {
        push_str(out, "&gt;");
    } else if c == '"' {
        push_str(out, "&quot;");
    } else {
        let ghost before = out@;
        out.push(c);
        assert(out@ =~= before + seq![c]);
    }
}

pub fn escape_html_of(s: &Vec<char>) -> (res: Vec<char>)
    ensures
        res@ == escape_html(s@),
{
    let mut out: Vec<char> = Vec::new();
    let mut i: usize = 0;
    while i < s.len()
        invariant
            i <= s.len(),
            out@ == escape_html(s@.take(i as int)),
        decreases s.len() - i,
    {
        push_html_char(&mut out, s[i], false);
        assert(s@.take(i + 1).drop_last() == s@.take(i as int));
        i += 1;
    }
    assert(s@.take(s.len() as int) == s@);
    out
}

pub fn escape_attr_of(s: &Vec<char>) -> (res: Vec<char>)
    ensures
        res@ == escape_attr(s@),
{
    let mut out: Vec<char> = Vec::new();
    let mut i: usize = 0;
    while i < s.len()
        invariant
            i <= s.len(),
            out@ == escape_attr(s@.take(i as int)),
        decreases s.len() - i,
    {
        push_html_char(&mut out, s[i], true);
        assert(s@.take(i + 1).drop_last() == s@.take(i as int));
        i += 1;
    }
    assert(s@.take(s.len() as int) == s@);
    out
}

/// Escaped text holds no raw markup: no `<`, `>` or `"`.
pub proof fn law_escape_html_has_no_markup(s: Seq<char>)
    ensures
        forall|k: int|
            0 <= k < escape_html(s).len() ==> #[trigger] escape_html(s)[k] != '<' && escape_html(
                s,
            )[k] != '>' && escape_html(s)[k] != '"',
    decreases s.len(),
{
    if s.len() > 0 {
        law_escape_html_has_no_markup(s.drop_last());
        reveal_strlit("&amp;");
        reveal_strlit("&lt;");
        reveal_strlit("&gt;");
        reveal_strlit("&quot;");
        let pre = escape_html(s.drop_last());
        let tail = html_char(s.last());
        assert forall|k: int| 0 <= k < escape_html(s).len() implies #[trigger] escape_html(s)[k]
            != '<' && escape_html(s)[k] != '>' && escape_html(s)[k] != '"' by {
            if k < pre.len() {
                assert(escape_html(s)[k] == pre[k]);
            } else {
                assert(escape_html(s)[k] == tail[k - pre.len()]);
            }
        }
    }
}

/// An escaped attribute value cannot end its attribute or open a tag: it
/// holds no `"`, `'`, `<` or `>`.
pub proof fn law_escape_attr_stays_in_quotes(s: Seq<char>)
    ensures
        forall|k: int|
            0 <= k < escape_attr(s).len() ==> #[trigger] escape_attr(s)[k] != '"' && escape_attr(s)[k]
                != '\'' && escape_attr(s)[k] != '<' && escape_attr(s)[k] != '>',
    decreases s.len(),
{
    if s.len() > 0 {
        law_escape_attr_stays_in_quotes(s.drop_last());
        reveal_strlit("&amp;");
        reveal_strlit("&lt;");
        reveal_strlit("&gt;");
        reveal_strlit("&quot;");
        reveal_strlit("&#39;");
        let pre = escape_attr(s.drop_last());
        let tail = attr_char(s.last());
        assert forall|k: int| 0 <= k < escape_attr(s).len() implies #[trigger] escape_attr(s)[k]
            != '"' && escape_attr(s)[k] != '\'' && escape_attr(s)[k] != '<' && escape_attr(s)[k] != '>' by {
            if k < pre.len() {
                assert(escape_attr(s)[k] == pre[k]);
            } else {
                assert(escape_attr(s)[k] == tail[k - pre.len()]);
            }
        }
    }
}

/// Entities decoded in a fixed order: `&quot;`, `&#39;`, `&lt;`, `&gt;`, then
/// `&amp;`, each everywhere.
pub open spec fn decode_attr(s: Seq<char>) -> Seq<char> {
    text::replace(
        text::replace(
            text::replace(text::replace(text::replace(s, "&quot;"@, "\""@), "&#39;"@, "'"@), "&lt;"@, "<"@),
            "&gt;"@,
            ">"@,
        ),
        "&amp;"@,
        "&"@,
    )
}

pub fn decode_attr_of(s: &Vec<char>) -> (res: Vec<char>)
    ensures
        res@ == decode_attr(s@),
{
    proof {
        reveal_strlit("&quot;");
        reveal_strlit("&#39;");
        reveal_strlit("&lt;");
        reveal_strlit("&gt;");
        reveal_strlit("&amp;");
    }
    let a = replace_str(s, "&quot;", "\"");
    let b = replace_str(&a, "&#39;", "'");
    let c = replace_str(&b, "&lt;", "<");
    let d = replace_str(&c, "&gt;", ">");
    replace_str(&d, "&amp;", "&")
}

/// An escaped character part way through decoding: after `k` of the five
/// replacements, the characters they restore stand for themselves (text
/// escaping, `attr` false, leaves `'` as it is).
pub open spec fn stage_char(c: char, k: int, attr: bool) -> Seq<char> {
    if !attr && c == '\'' {
        seq![c]
    } else if (c == '"' && k >= 1) || (c == '\'' && k >= 2) || (c == '<' && k >= 3) || (c == '>' && k
        >= 4) || (c == '&' && k >= 5) {
        seq![c]
    } else {
        attr_char(c)
    }
}

pub open spec fn staged(s: Seq<char>, k: int, attr: bool) -> Seq<char>
    decreases s.len(),
{
    if s.len() == 0 {
        Seq::empty()
    } else {
        stage_char(s[0], k, attr) + staged(s.drop_first(), k, attr)
    }
}

/// The entity that replacement `k` decodes, and the character it restores.
pub open spec fn stage_entity(k: int) -> Seq<char> {
    if k == 0 {
        "&quot;"@
    } else if k == 1 {
        "&#39;"@
    } else if k == 2 {
        "&lt;"@
    } else if k == 3 {
        "&gt;"@
    } else {
        "&amp;"@
    }
}

pub open spec fn stage_restored(k: int) -> char {
    if k == 0 {
        '"'
    } else if k == 1 {
        '\''
    } else if k == 2 {
        '<'
    } else if k == 3 {
        '>'
    } else {
        '&'
    }
}

proof fn lemma_staged_push(a: Seq<char>, c: char, k: int, attr: bool)
    ensures
        staged(a.push(c), k, attr) == staged(a, k, attr) + stage_char(c, k, attr),
    decreases a.len(),
{
    if a.len() == 0 {
        assert(a.push(c).drop_first() =~= Seq::<char>::empty());
        assert(staged(a.push(c), k, attr) == stage_char(c, k, attr) + staged(Seq::<char>::empty(), k, attr));
    } else {
        lemma_staged_push(a.drop_first(), c, k, attr);
        assert(a.push(c).drop_first() == a.drop_first().push(c));
        assert(a.push(c)[0] == a[0]);
    }
}

proof fn lemma_escape_attr_staged(s: Seq<char>)
    ensures
        escape_attr(s) == staged(s, 0, true),
    decreases s.len(),
{
    if s.len() > 0 {
        lemma_escape_attr_staged(s.drop_last());
        lemma_staged_push(s.drop_last(), s.last(), 0, true);
        assert(s.drop_last().push(s.last()) == s);
    }
}

proof fn lemma_escape_html_staged(s: Seq<char>)
    ensures
        escape_html(s) == staged(s, 0, false),
    decreases s.len(),
{
    if s.len() > 0 {
        lemma_escape_html_staged(s.drop_last());
        lemma_staged_push(s.drop_last(), s.last(), 0, false);
        assert(s.drop_last().push(s.last()) == s);
    }
}

proof fn lemma_staged_done(s: Seq<char>, attr: bool)
    ensures
        staged(s, 5, attr) == s,
    decreases s.len(),
{
    if s.len() > 0 {
        lemma_staged_done(s.drop_first(), attr);
        assert(stage_char(s[0], 5, attr) == seq![s[0]]);
        assert(seq![s[0]] + s.drop_first() == s);
    }
}

proof fn lemma_replace_skip_group(g: Seq<char>, r: Seq<char>, f: Seq<char>, t: Seq<char>)
    requires
        f.len() > 0,
        forall|j: int| 0 <= j < g.len() ==> !text::starts_with(#[trigger] (g + r).skip(j), f),
    ensures
        text::replace(g + r, f, t) == g + text::replace(r, f, t),
    decreases g.len(),
{
    if g.len() > 0 {
        let gr = g + r;
        assert(!text::starts_with(gr.skip(0), f));
        assert(gr.skip(0) == gr);
        assert(gr.drop_first() == g.drop_first() + r);
        assert forall|j: int| 0 <= j < g.drop_first().len() implies !text::starts_with(
            #[trigger] (g.drop_first() + r).skip(j),
            f,
        ) by {
            assert((g.drop_first() + r).skip(j) == gr.skip(j + 1));
        }
        lemma_replace_skip_group(g.drop_first(), r, f, t);
        assert(seq![g[0]] + (g.drop_first() + text::replace(r, f, t)) == g + text::replace(r, f, t));
    }
}

proof fn lemma_stage_group(c: char, k: int, attr: bool, r: Seq<char>)
    requires
        0 <= k < 5,
        c != stage_restored(k) || stage_char(c, k, attr) != stage_entity(k),
    ensures
        forall|j: int|
            0 <= j < stage_char(c, k, attr).len() ==> !text::starts_with(
                #[trigger] (stage_char(c, k, attr) + r).skip(j),
                stage_entity(k),
            ),
{
    reveal_strlit("&quot;");
    reveal_strlit("&#39;");
    reveal_strlit("&lt;");
    reveal_strlit("&gt;");
    reveal_strlit("&amp;");
    let g = stage_char(c, k, attr);
    let f = stage_entity(k);
    assert forall|j: int| 0 <= j < g.len() implies !text::starts_with(#[trigger] (g + r).skip(j), f) by {
        let w = (g + r).skip(j);
        assert(w[0] == g[j]);
        if j == 0 && g[0] == '&' {
            assert(w[1] == g[1]);
            assert(g[1] != f[1]);
        }
        if text::starts_with(w, f) {
            assert(w[0] == f[0]);
        }
    }
}

proof fn lemma_decode_stage(s: Seq<char>, k: int, attr: bool)
    requires
        0 <= k < 5,
    ensures
        text::replace(staged(s, k, attr), stage_entity(k), seq![stage_restored(k)]) == staged(s, k + 1, attr),
    decreases s.len(),
{
    reveal_strlit("&quot;");
    reveal_strlit("&#39;");
    reveal_strlit("&lt;");
    reveal_strlit("&gt;");
    reveal_strlit("&amp;");
    let f = stage_entity(k);
    let t = seq![stage_restored(k)];
    if s.len() > 0 {
        let c = s[0];
        let r = staged(s.drop_first(), k, attr);
        lemma_decode_stage(s.drop_first(), k, attr);
        let g = stage_char(c, k, attr);
        assert(staged(s, k, attr) == g + r);
        if c == stage_restored(k) && g == f {
            assert(text::starts_with(g + r, f)) by {
                assert((g + r).take(f.len() as int) == g);
            }
            assert((g + r).skip(f.len() as int) == r);
            assert(stage_char(c, k + 1, attr) == t);
        } else {
            lemma_stage_group(c, k, attr, r);
            lemma_replace_skip_group(g, r, f, t);
            assert(stage_char(c, k + 1, attr) == g);
        }
    }
}

/// Decoding an escaped attribute value gives the value back.
pub proof fn law_decode_undoes_escape(s: Seq<char>)
    ensures
        decode_attr(escape_attr(s)) == s,
{
    reveal_strlit("\"");
    reveal_strlit("'");
    reveal_strlit("<");
    reveal_strlit(">");
    reveal_strlit("&");
    lemma_escape_attr_staged(s);
    lemma_decode_stage(s, 0, true);
    lemma_decode_stage(s, 1, true);
    lemma_decode_stage(s, 2, true);
    lemma_decode_stage(s, 3, true);
    lemma_decode_stage(s, 4, true);
    lemma_staged_done(s, true);
    assert("\""@ == seq!['"']);
    assert("'"@ == seq!['\'']);
    assert("<"@ == seq!['<']);
    assert(">"@ == seq!['>']);
    assert("&"@ == seq!['&']);
}

/// Decoding escaped text gives the text back.
pub proof fn law_decode_undoes_html_escape(s: Seq<char>)
    ensures
        decode_attr(escape_html(s)) == s,
{
    reveal_strlit("\"");
    reveal_strlit("'");
    reveal_strlit("<");
    reveal_strlit(">");
    reveal_strlit("&");
    lemma_escape_html_staged(s);
    lemma_decode_stage(s, 0, false);
    lemma_decode_stage(s, 1, false);
    lemma_decode_stage(s, 2, false);
    lemma_decode_stage(s, 3, false);
    lemma_decode_stage(s, 4, false);
    lemma_staged_done(s, false);
    assert("\""@ == seq!['"']);
    assert("'"@ == seq!['\'']);
    assert("<"@ == seq!['<']);
    assert(">"@ == seq!['>']);
    assert("&"@ == seq!['&']);
}

// ---------------------------------------------------------------------------
// Whitespace-separated words
// ---------------------------------------------------------------------------

/// The whitespace-separated words of `s[i..]`, `cur` being the part of a
/// word already read.
pub open spec fn words_from(s: Seq<char>, i: int, cur: Seq<char>) -> Seq<Seq<char>>
    decreases s.len() - i,
{
    if i < 0 || i >= s.len() {
        if cur.len() > 0 {
            seq![cur]
        } else {
            Seq::empty()
        }
    } else if text::is_ws(s[i]) {
        (if cur.len() > 0 {
            seq![cur]
        } else {
            Seq::empty()
        }) + words_from(s, i + 1, Seq::empty())
    } else {
        words_from(s, i + 1, cur.push(s[i]))
    }
}

/// `str::split_whitespace`.
pub open spec fn words(s: Seq<char>) -> Seq<Seq<char>> {
    words_from(s, 0, Seq::empty())
}

pub fn words_of(s: &Vec<char>) -> (res: Vec<Vec<char>>)
    ensures
        text::vecs_view(res@) == words(s@),
{
    let mut out: Vec<Vec<char>> = Vec::new();
    let mut cur: Vec<char> = Vec::new();
    let mut i: usize = 0;
    while i < s.len()
        invariant
            i <= s.len(),
            text::vecs_view(out@) + words_from(s@, i as int, cur@) == words(s@),
        decreases s.len() - i,
    {
        let ghost before = text::vecs_view(out@);
        let ghost c0 = cur@;
        if char_is_ws(s[i]) {
            if cur.len() > 0 {
                out.push(cur);
                assert(text::vecs_view(out@) =~= before + seq![c0]);
            } else {
                assert(text::vecs_view(out@) =~= before + Seq::<Seq<char>>::empty());
            }
            cur = Vec::new();
            assert(text::vecs_view(out@) + words_from(s@, i + 1, cur@) =~= before + words_from(
                s@,
                i as int,
                c0,
            ));
        } else {
            cur.push(s[i]);
        }
        i += 1;
    }
    if cur.len() > 0 {
        let ghost before = text::vecs_view(out@);
        let ghost c0 = cur@;
        out.push(cur);
        assert(text::vecs_view(out@) =~= before + seq![c0]);
    } else {
        assert(text::vecs_view(out@) + Seq::<Seq<char>>::empty() == text::vecs_view(out@));
    }
    out
}

/// Whether `w` is one of the whitespace-separated words of `s`.
pub open spec fn has_word(s: Seq<char>, w: Seq<char>) -> bool {
    words(s).contains(w)
}

pub fn has_word_of(s: &Vec<char>, w: &str) -> (res: bool)
    ensures
        res == has_word(s@, w@),
{
    let ws = words_of(s);
    let wv = chars_of(w);
    let ghost all = text::vecs_view(ws@);
    let mut i: usize = 0;
    while i < ws.len()
        invariant
            all == text::vecs_view(ws@),
            all == words(s@),
            wv@ == w@,
            i <= ws.len(),
            forall|k: int| 0 <= k < i ==> all[k] != w@,
        decreases ws.len() - i,
    {
        if seq_eq(&ws[i], &wv) {
            assert(all[i as int] == w@);
            assert(all.contains(w@));
            return true;
        }
        i += 1;
    }
    false
}

// ---------------------------------------------------------------------------
// Attribute values
// ---------------------------------------------------------------------------

/// The pattern `name="([^"]*)"` for an attribute.
pub open spec fn attr_pattern(name: Seq<char>) -> Seq<char> {
    name + "=\"([^\"]*)\""@
}

/// The value of the first `name="..."` in `attrs` (first capture of the
/// attribute pattern), entities decoded; none when there is no such match or
/// the pattern does not compile.
pub open spec fn attr_value(attrs: Seq<char>, name: Seq<char>) -> Option<Seq<char>> {
    match patterns::regex_captures(attr_pattern(name), attrs) {
        Some(c) => if c.len() > 0 && c[0].len() > 1 {
            match c[0][1] {
                Some(g) => Some(decode_attr(g)),
                None => None,
            }
        } else {
            None
        },
        None => None,
    }
}

pub fn attr_value_of(attrs: &Vec<char>, name: &str) -> (res: Option<Vec<char>>)
    ensures
        match res {
            Some(v) => attr_value(attrs@, name@) == Some(v@),
            None => attr_value(attrs@, name@) is None,
        },
{
    let mut p = chars_of(name);
    push_str(&mut p, "=\"([^\"]*)\"");
    let pattern = string_of(&p);
    let text = string_of(attrs);
    match captures_all(pattern.as_str(), text.as_str()) {
        Some(caps) => {
            if caps.len() > 0 && caps[0].len() > 1 {
                let ghost cv = captures_view(caps@);
                assert(cv[0] == groups_view(caps@[0]@));
                match &caps[0][1] {
                    Some(g) => Some(decode_attr_of(&chars_of(g.as_str()))),
                    None => None,
                }
            } else {
                None
            }
        },
        None => None,
    }
}

} // verus!
