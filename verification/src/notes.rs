//! Small pieces of the page build: source rewriting for the HTML style,
//! anchors, bibliography keys, and text escapes.
use vstd::prelude::*;
use crate::text;
use crate::paths;
use crate::text::{
    chars_of, push_all, push_str, string_of, replace_str, replace_first_in, strip_prefix_of,
    strip_suffix_of, find_str, find_char_in, slice_of, skip_of, char_is_ascii_alnum,
};

verus! {

// ---------------------------------------------------------------------------
// Sources
// ---------------------------------------------------------------------------

pub open spec fn notes_import() -> Seq<char> {
    "#import \"meta/gabri_notes.typ\": *"@
}

pub open spec fn relative_notes_import() -> Seq<char> {
    "#import \"../meta/gabri_notes.typ\": *"@
}

/// A Typst source with the notes style import (direct or from a
/// subdirectory) switched to the HTML style.
pub open spec fn html_notes_style(source: Seq<char>) -> Seq<char> {
    text::replace(
        text::replace(source, notes_import(), "#import \"meta/gabri_notes_html.typ\": *"@),
        relative_notes_import(),
        "#import \"../meta/gabri_notes_html.typ\": *"@,
    )
}

pub fn use_html_notes_style(source: &str) -> (res: String)
    ensures
        res@ == html_notes_style(source@),
{
    proof {
        reveal_strlit("#import \"meta/gabri_notes.typ\": *");
        reveal_strlit("#import \"../meta/gabri_notes.typ\": *");
    }
    let s = chars_of(source);
    let a = replace_str(&s, "#import \"meta/gabri_notes.typ\": *", "#import \"meta/gabri_notes_html.typ\": *");
    let b = replace_str(
        &a,
        "#import \"../meta/gabri_notes.typ\": *",
        "#import \"../meta/gabri_notes_html.typ\": *",
    );
    string_of(&b)
}

// ---------------------------------------------------------------------------
// Anchors
// ---------------------------------------------------------------------------

/// The lowercase mapping of a character (`char::to_lowercase`), one or more
/// characters, as Unicode defines it.
pub uninterp spec fn char_lowercase(c: char) -> Seq<char>;

pub open spec fn is_ascii_upper(c: char) -> bool {
    'A' <= c <= 'Z'
}

pub open spec fn is_ascii_char(c: char) -> bool {
    (c as u32) < 128
}

/// An ASCII character lowercased: `A`..`Z` become `a`..`z`, the rest stay.
pub open spec fn ascii_lower(c: char) -> char {
    if is_ascii_upper(c) {
        ((c as u32) + 32) as char
    } else {
        c
    }
}

/// `char::to_lowercase`: the characters of `c`'s lowercase mapping, as
/// `char_lowercase` names them. Unicode maps an ASCII character to one
/// character: `A`..`Z` to `a`..`z`, every other ASCII character to itself.
#[verifier::external_body]
pub(crate) fn lowercase_chars(c: char) -> (res: Vec<char>)
    ensures
        res@ == char_lowercase(c),
        is_ascii_char(c) ==> res@ == seq![ascii_lower(c)],
{
    c.to_lowercase().collect()
}

/// The lowercase mapping of one character: stated outright for ASCII, by
/// name for the rest.
pub open spec fn char_lower(c: char) -> Seq<char> {
    if is_ascii_char(c) {
        seq![ascii_lower(c)]
    } else {
        char_lowercase(c)
    }
}

/// The text lowercased character by character.
pub open spec fn lowercased(s: Seq<char>) -> Seq<char>
    decreases s.len(),
{
    if s.len() == 0 {
        Seq::empty()
    } else {
        lowercased(s.drop_last()) + char_lower(s.last())
    }
}

/// ASCII letters and digits kept, every run of other characters one `-`;
/// `dash` says whether the text before ended in such a dash.
pub open spec fn dashed(s: Seq<char>, dash: bool) -> Seq<char>
    decreases s.len(),
{
    if s.len() == 0 {
        s
    } else if text::is_ascii_alnum(s[0]) {
        seq![s[0]] + dashed(s.drop_first(), false)
    } else if dash {
        dashed(s.drop_first(), true)
    } else {
        seq!['-'] + dashed(s.drop_first(), true)
    }
}

/// Leading and trailing `-` removed (`trim_matches('-')`).
pub open spec fn trim_dashes(s: Seq<char>) -> Seq<char>
    decreases s.len(),
{
    if s.len() > 0 && s[0] == '-' {
        trim_dashes(s.drop_first())
    } else if s.len() > 0 && s.last() == '-' {
        trim_dashes(s.drop_last())
    } else {
        s
    }
}

/// An anchor from text: lowercased, runs of anything but ASCII letters and
/// digits as single dashes, no dash at either end; `section` when nothing
/// is left.
pub open spec fn slug(s: Seq<char>) -> Seq<char> {
    let t = trim_dashes(dashed(lowercased(s), false));
    if t.len() == 0 {
        "section"@
    } else {
        t
    }
}

pub open spec fn is_slug_char(c: char) -> bool {
    text::is_ascii_alnum(c) || c == '-'
}

proof fn lemma_dashed_chars(s: Seq<char>, dash: bool)
    ensures
        forall|k: int| 0 <= k < dashed(s, dash).len() ==> is_slug_char(#[trigger] dashed(s, dash)[k]),
        forall|k: int|
            0 <= k < dashed(s, dash).len() - 1 ==> !(#[trigger] dashed(s, dash)[k] == '-' && dashed(
                s,
                dash,
            )[k + 1] == '-'),
        dash ==> (dashed(s, dash).len() > 0 ==> dashed(s, dash)[0] != '-'),
    decreases s.len(),
{
    if s.len() > 0 {
        let rest_dash = !text::is_ascii_alnum(s[0]);
        lemma_dashed_chars(s.drop_first(), rest_dash);
        let d = dashed(s, dash);
        let r = dashed(s.drop_first(), rest_dash);
        if text::is_ascii_alnum(s[0]) {
            assert(d == seq![s[0]] + r);
            assert forall|k: int| 0 <= k < d.len() implies is_slug_char(#[trigger] d[k]) by {
                if k > 0 {
                    assert(d[k] == r[k - 1]);
                }
            }
            assert forall|k: int| 0 <= k < d.len() - 1 implies !(#[trigger] d[k] == '-' && d[k + 1]
                == '-') by {
                if k > 0 {
                    assert(d[k] == r[k - 1]);
                    assert(d[k + 1] == r[k]);
                }
            }
        } else if dash {
            assert(d == r);
        } else {
            assert(d == seq!['-'] + r);
            assert forall|k: int| 0 <= k < d.len() implies is_slug_char(#[trigger] d[k]) by {
                if k > 0 {
                    assert(d[k] == r[k - 1]);
                }
            }
            assert forall|k: int| 0 <= k < d.len() - 1 implies !(#[trigger] d[k] == '-' && d[k + 1]
                == '-') by {
                if k > 0 {
                    assert(d[k] == r[k - 1]);
                    assert(d[k + 1] == r[k]);
                } else {
                    assert(d[1] == r[0]);
                }
            }
        }
    }
}

proof fn lemma_trim_dashes(s: Seq<char>)
    ensures
        exists|a: int, b: int| 0 <= a <= b <= s.len() && trim_dashes(s) == s.subrange(a, b),
        trim_dashes(s).len() > 0 ==> trim_dashes(s)[0] != '-' && trim_dashes(s).last() != '-',
    decreases s.len(),
{
    if s.len() > 0 && s[0] == '-' {
        lemma_trim_dashes(s.drop_first());
        let (a, b) = choose|a: int, b: int|
            0 <= a <= b <= s.drop_first().len() && trim_dashes(s.drop_first())
                == s.drop_first().subrange(a, b);
        assert(s.drop_first().subrange(a, b) == s.subrange(a + 1, b + 1));
    } else if s.len() > 0 && s.last() == '-' {
        lemma_trim_dashes(s.drop_last());
        let (a, b) = choose|a: int, b: int|
            0 <= a <= b <= s.drop_last().len() && trim_dashes(s.drop_last())
                == s.drop_last().subrange(a, b);
        assert(s.drop_last().subrange(a, b) == s.subrange(a, b));
    } else {
        assert(s.subrange(0, s.len() as int) == s);
    }
}

/// Every anchor is a non-empty run of ASCII letters, digits and single
/// dashes, with no dash at either end.
pub proof fn law_slug_shape(s: Seq<char>)
    ensures
        slug(s).len() > 0,
        forall|k: int| 0 <= k < slug(s).len() ==> is_slug_char(#[trigger] slug(s)[k]),
        forall|k: int| 0 <= k < slug(s).len() - 1 ==> !(#[trigger] slug(s)[k] == '-' && slug(s)[k + 1] == '-'),
        slug(s)[0] != '-',
        slug(s).last() != '-',
{
    let d = dashed(lowercased(s), false);
    lemma_dashed_chars(lowercased(s), false);
    lemma_trim_dashes(d);
    let t = trim_dashes(d);
    if t.len() == 0 {
        reveal_strlit("section");
        assert("section"@.len() == 7);
        assert(forall|k: int| 0 <= k < 7 ==> is_slug_char(#[trigger] "section"@[k]));
    } else {
        let (a, b) = choose|a: int, b: int| 0 <= a <= b <= d.len() && t == d.subrange(a, b);
        assert forall|k: int| 0 <= k < t.len() implies is_slug_char(#[trigger] t[k]) by {
            assert(t[k] == d[a + k]);
        }
        assert forall|k: int| 0 <= k < t.len() - 1 implies !(#[trigger] t[k] == '-' && t[k + 1] == '-') by {
            assert(t[k] == d[a + k]);
            assert(t[k + 1] == d[a + k + 1]);
        }
    }
}

pub open spec fn has_no_upper(s: Seq<char>) -> bool {
    forall|k: int| 0 <= k < s.len() ==> !is_ascii_upper(#[trigger] s[k])
}

pub open spec fn all_ascii(s: Seq<char>) -> bool {
    forall|k: int| 0 <= k < s.len() ==> is_ascii_char(#[trigger] s[k])
}

proof fn lemma_lowercased_ascii(s: Seq<char>)
    requires
        all_ascii(s),
    ensures
        lowercased(s).len() == s.len(),
        has_no_upper(lowercased(s)),
    decreases s.len(),
{
    if s.len() > 0 {
        lemma_lowercased_ascii(s.drop_last());
        let p = lowercased(s.drop_last());
        let c = s.last();
        assert(is_ascii_char(c));
        assert(lowercased(s) == p + seq![ascii_lower(c)]);
        if is_ascii_upper(c) {
            assert((c as u32) + 32 <= 'z' as u32);
            assert(!is_ascii_upper(ascii_lower(c)));
        }
        assert forall|k: int| 0 <= k < lowercased(s).len() implies !is_ascii_upper(
            #[trigger] lowercased(s)[k],
        ) by {
            if k < p.len() {
                assert(lowercased(s)[k] == p[k]);
            }
        }
    }
}

proof fn lemma_dashed_no_upper(s: Seq<char>, dash: bool)
    requires
        has_no_upper(s),
    ensures
        has_no_upper(dashed(s, dash)),
    decreases s.len(),
{
    if s.len() > 0 {
        let rest_dash = !text::is_ascii_alnum(s[0]);
        assert(has_no_upper(s.drop_first())) by {
            assert forall|k: int| 0 <= k < s.drop_first().len() implies !is_ascii_upper(
                #[trigger] s.drop_first()[k],
            ) by {
                assert(s.drop_first()[k] == s[k + 1]);
            }
        }
        lemma_dashed_no_upper(s.drop_first(), rest_dash);
        let d = dashed(s, dash);
        let r = dashed(s.drop_first(), rest_dash);
        assert forall|k: int| 0 <= k < d.len() implies !is_ascii_upper(#[trigger] d[k]) by {
            if text::is_ascii_alnum(s[0]) {
                assert(d == seq![s[0]] + r);
                if k > 0 {
                    assert(d[k] == r[k - 1]);
                }
            } else if dash {
                assert(d == r);
            } else {
                assert(d == seq!['-'] + r);
                if k > 0 {
                    assert(d[k] == r[k - 1]);
                }
            }
        }
    }
}

/// Text in ASCII gives an anchor without uppercase letters.
pub proof fn law_slug_lowercase(s: Seq<char>)
    requires
        all_ascii(s),
    ensures
        has_no_upper(slug(s)),
{
    lemma_lowercased_ascii(s);
    let d = dashed(lowercased(s), false);
    lemma_dashed_no_upper(lowercased(s), false);
    lemma_trim_dashes(d);
    let t = trim_dashes(d);
    if t.len() == 0 {
        reveal_strlit("section");
    } else {
        let (a, b) = choose|a: int, b: int| 0 <= a <= b <= d.len() && t == d.subrange(a, b);
        assert forall|k: int| 0 <= k < t.len() implies !is_ascii_upper(#[trigger] t[k]) by {
            assert(t[k] == d[a + k]);
        }
    }
}

/// The shape of an anchor: non-empty, ASCII letters, digits and single
/// dashes, no dash at either end.
pub open spec fn is_slug(t: Seq<char>) -> bool {
    &&& t.len() > 0
    &&& forall|k: int| 0 <= k < t.len() ==> is_slug_char(#[trigger] t[k])
    &&& forall|k: int| 0 <= k < t.len() - 1 ==> !(#[trigger] t[k] == '-' && t[k + 1] == '-')
    &&& t[0] != '-'
    &&& t.last() != '-'
}

proof fn lemma_lowercased_fixed(t: Seq<char>)
    requires
        forall|k: int| 0 <= k < t.len() ==> is_slug_char(#[trigger] t[k]),
        has_no_upper(t),
    ensures
        lowercased(t) == t,
    decreases t.len(),
{
    if t.len() > 0 {
        let p = t.drop_last();
        assert forall|k: int| 0 <= k < p.len() implies is_slug_char(#[trigger] p[k]) by {
            assert(p[k] == t[k]);
        }
        assert forall|k: int| 0 <= k < p.len() implies !is_ascii_upper(#[trigger] p[k]) by {
            assert(p[k] == t[k]);
        }
        lemma_lowercased_fixed(p);
        let c = t.last();
        assert(is_slug_char(t[t.len() - 1]));
        assert(!is_ascii_upper(t[t.len() - 1]));
        assert(is_ascii_char(c));
        assert(char_lower(c) == seq![c]);
        assert(p + seq![c] == t);
    }
}

proof fn lemma_dashed_fixed(t: Seq<char>, dash: bool)
    requires
        forall|k: int| 0 <= k < t.len() ==> is_slug_char(#[trigger] t[k]),
        forall|k: int| 0 <= k < t.len() - 1 ==> !(#[trigger] t[k] == '-' && t[k + 1] == '-'),
        dash && t.len() > 0 ==> t[0] != '-',
    ensures
        dashed(t, dash) == t,
    decreases t.len(),
{
    if t.len() > 0 {
        let r = t.drop_first();
        assert forall|k: int| 0 <= k < r.len() implies is_slug_char(#[trigger] r[k]) by {
            assert(r[k] == t[k + 1]);
        }
        assert forall|k: int| 0 <= k < r.len() - 1 implies !(#[trigger] r[k] == '-' && r[k + 1]
            == '-') by {
            assert(r[k] == t[k + 1]);
            assert(r[k + 1] == t[k + 2]);
        }
        assert(is_slug_char(t[0]));
        if text::is_ascii_alnum(t[0]) {
            lemma_dashed_fixed(r, false);
            assert(seq![t[0]] + r == t);
        } else {
            assert(t[0] == '-');
            assert(!dash);
            if r.len() > 0 {
                assert(r[0] == t[1]);
            }
            lemma_dashed_fixed(r, true);
            assert(seq!['-'] + r == t);
        }
    }
}

/// An anchor without uppercase letters is its own anchor.
pub proof fn law_slug_fixed_point(t: Seq<char>)
    requires
        is_slug(t),
        has_no_upper(t),
    ensures
        slug(t) == t,
{
    lemma_lowercased_fixed(t);
    lemma_dashed_fixed(t, false);
}

/// Making an anchor of an ASCII text's anchor changes nothing.
pub proof fn law_slug_idempotent(s: Seq<char>)
    requires
        all_ascii(s),
    ensures
        slug(slug(s)) == slug(s),
{
    law_slug_shape(s);
    law_slug_lowercase(s);
    law_slug_fixed_point(slug(s));
}

pub fn slugify(input: &str) -> (res: String)
    ensures
        res@ == slug(input@),
{
    let s = chars_of(input);
    let mut lower: Vec<char> = Vec::new();
    let mut i: usize = 0;
    while i < s.len()
        invariant
            i <= s.len(),
            lower@ == lowercased(s@.take(i as int)),
        decreases s.len() - i,
    {
        let l = lowercase_chars(s[i]);
        push_all(&mut lower, &l);
        assert(s@.take(i + 1).drop_last() == s@.take(i as int));
        i += 1;
    }
    assert(s@.take(s.len() as int) == s@);
    let mut out: Vec<char> = Vec::new();
    let mut dash = false;
    let mut j: usize = 0;
    assert(lower@.skip(0) == lower@);
    while j < lower.len()
        invariant
            j <= lower.len(),
            out@ + dashed(lower@.skip(j as int), dash) == dashed(lower@, false),
        decreases lower.len() - j,
    {
        let ghost rest = lower@.skip(j as int);
        assert(rest[0] == lower@[j as int]);
        assert(rest.drop_first() == lower@.skip(j + 1));
        let c = lower[j];
        if char_is_ascii_alnum(c) {
            out.push(c);
            dash = false;
        } else if !dash {
            out.push('-');
            dash = true;
        }
        j += 1;
    }
    assert(out@ + Seq::<char>::empty() == out@);
    let mut a: usize = 0;
    let mut b: usize = out.len();
    assert(out@.subrange(0, out.len() as int) == out@);
    while a < b && (out[a] == '-' || out[b - 1] == '-')
        invariant
            a <= b <= out.len(),
            trim_dashes(out@.subrange(a as int, b as int)) == trim_dashes(out@),
        decreases b - a,
    {
        let ghost cur = out@.subrange(a as int, b as int);
        if out[a] == '-' {
            assert(cur.drop_first() == out@.subrange(a + 1, b as int));
            a += 1;
        } else {
            assert(cur.drop_last() == out@.subrange(a as int, b - 1));
            b -= 1;
        }
    }
    let t = slice_of(&out, a, b);
    if t.len() == 0 {
        string_of(&chars_of("section"))
    } else {
        string_of(&t)
    }
}

// ---------------------------------------------------------------------------
// Bibliography keys
// ---------------------------------------------------------------------------

/// A key in brackets, `[..]`: the text inside.
pub open spec fn bracketed(key: Seq<char>) -> Option<Seq<char>> {
    match text::strip_prefix(key, "["@) {
        Some(r) => text::strip_suffix(r, "]"@),
        None => None,
    }
}

/// A key without its brackets (when it has both).
pub open spec fn strip_bib_key_brackets(key: Seq<char>) -> Seq<char> {
    match bracketed(key) {
        Some(i) => i,
        None => key,
    }
}

/// A key with a suffix: inside the brackets when the key has them.
pub open spec fn append_suffix_to_bib_key(key: Seq<char>, suffix: Seq<char>) -> Seq<char> {
    match bracketed(key) {
        Some(i) => "["@ + i + suffix + "]"@,
        None => key + suffix,
    }
}

pub fn bracketed_of(key: &Vec<char>) -> (res: Option<Vec<char>>)
    ensures
        match res {
            Some(i) => bracketed(key@) == Some(i@),
            None => bracketed(key@) is None,
        },
{
    match strip_prefix_of(key, "[") {
        Some(r) => strip_suffix_of(&r, "]"),
        None => None,
    }
}

pub fn strip_bib_key_brackets_of(key: &Vec<char>) -> (res: Vec<char>)
    ensures
        res@ == strip_bib_key_brackets(key@),
{
    match bracketed_of(key) {
        Some(i) => i,
        None => key.clone(),
    }
}

pub fn append_suffix_to_bib_key_of(key: &Vec<char>, suffix: &Vec<char>) -> (res: Vec<char>)
    ensures
        res@ == append_suffix_to_bib_key(key@, suffix@),
{
    match bracketed_of(key) {
        Some(i) => {
            let mut out = chars_of("[");
            push_all(&mut out, &i);
            push_all(&mut out, suffix);
            push_str(&mut out, "]");
            out
        },
        None => {
            let mut out = key.clone();
            push_all(&mut out, suffix);
            out
        },
    }
}

/// The letter for `d` in `a..z`.
pub open spec fn letter(d: nat) -> char {
    (('a' as nat) + d) as char
}

/// The `n`-th (from zero) of `a, b, ..., z, aa, ab, ...`: bijective base 26
/// in lowercase letters.
pub open spec fn alphabetic_suffix(n: nat) -> Seq<char>
    decreases n,
{
    if n < 26 {
        seq![letter(n)]
    } else {
        alphabetic_suffix((n / 26 - 1) as nat) + seq![letter(n % 26)]
    }
}

fn letter_of(d: usize) -> (c: char)
    requires
        d < 26,
    ensures
        c == letter(d as nat),
{
    ((97u8 + d as u8) as char)
}

pub fn alphabetic_suffix_of(n: usize) -> (res: Vec<char>)
    ensures
        res@ == alphabetic_suffix(n as nat),
    decreases n,
{
    if n < 26 {
        let mut v: Vec<char> = Vec::new();
        v.push(letter_of(n));
        assert(v@ =~= seq![letter(n as nat)]);
        v
    } else {
        let mut v = alphabetic_suffix_of(n / 26 - 1);
        let ghost before = v@;
        v.push(letter_of(n % 26));
        assert(v@ =~= before + seq![letter((n % 26) as nat)]);
        v
    }
}

proof fn lemma_alphabetic_suffix_len(n: nat)
    ensures
        alphabetic_suffix(n).len() >= 1,
        n >= 26 ==> alphabetic_suffix(n).len() >= 2,
    decreases n,
{
    if n >= 26 {
        lemma_alphabetic_suffix_len((n / 26 - 1) as nat);
    }
}

/// Different positions get different suffixes, so suffixed keys stay apart.
pub proof fn law_alphabetic_suffix_injective(a: nat, b: nat)
    requires
        alphabetic_suffix(a) == alphabetic_suffix(b),
    ensures
        a == b,
    decreases a,
{
    lemma_alphabetic_suffix_len(a);
    lemma_alphabetic_suffix_len(b);
    let sa = alphabetic_suffix(a);
    let sb = alphabetic_suffix(b);
    if a < 26 && b < 26 {
        assert(sa[0] == letter(a));
        assert(sb[0] == letter(b));
    } else if a >= 26 && b >= 26 {
        assert(sa.last() == letter(a % 26));
        assert(sb.last() == letter(b % 26));
        assert(sa.drop_last() == alphabetic_suffix((a / 26 - 1) as nat));
        assert(sb.drop_last() == alphabetic_suffix((b / 26 - 1) as nat));
        law_alphabetic_suffix_injective((a / 26 - 1) as nat, (b / 26 - 1) as nat);
    } else {
        assert(sa.len() != sb.len());
    }
}

/// The key text with its bracket content only (see `strip_bib_key_brackets`),
/// as the label to find and the label to put in a citation.
pub struct CitationLabelRewrite {
    pub from_label: String,
    pub to_label: String,
    pub to_key_text: String,
}

/// What a label rewrite holds: the label to find, the label to put in its
/// place, and the new key text.
pub struct LabelRewrite {
    pub from_label: Seq<char>,
    pub to_label: Seq<char>,
    pub to_key_text: Seq<char>,
}

/// The rewrite from one key text to another.
pub open spec fn label_rewrite(from_key_text: Seq<char>, to_key_text: Seq<char>) -> LabelRewrite {
    LabelRewrite {
        from_label: strip_bib_key_brackets(from_key_text),
        to_label: strip_bib_key_brackets(to_key_text),
        to_key_text,
    }
}

impl View for CitationLabelRewrite {
    type V = LabelRewrite;

    open spec fn view(&self) -> LabelRewrite {
        LabelRewrite {
            from_label: self.from_label@,
            to_label: self.to_label@,
            to_key_text: self.to_key_text@,
        }
    }
}

impl CitationLabelRewrite {
    /// A rewrite from one key to another: the labels are the keys without
    /// brackets.
    pub fn new(from_key_text: &str, to_key_text: &str) -> (res: Self)
        ensures
            res@ == label_rewrite(from_key_text@, to_key_text@),
    {
        CitationLabelRewrite {
            from_label: string_of(&strip_bib_key_brackets_of(&chars_of(from_key_text))),
            to_label: string_of(&strip_bib_key_brackets_of(&chars_of(to_key_text))),
            to_key_text: string_of(&chars_of(to_key_text)),
        }
    }

    /// A citation label with the first occurrence of the old label replaced
    /// by the new one.
    pub fn apply(&self, label_html: &str) -> (res: String)
        ensures
            res@ == text::replace_first(label_html@, self.from_label@, self.to_label@),
    {
        string_of(
            &replace_first_in(
                &chars_of(label_html),
                &chars_of(self.from_label.as_str()),
                &chars_of(self.to_label.as_str()),
            ),
        )
    }
}

// ---------------------------------------------------------------------------
// Attributes, titles, escapes
// ---------------------------------------------------------------------------

/// The value of `data-name="..."` in attribute text: from after the first
/// occurrence up to the next quote.
pub open spec fn data_attr(attrs: Seq<char>, name: Seq<char>) -> Option<Seq<char>> {
    let needle = "data-"@ + name + "=\""@;
    match text::find(attrs, needle) {
        Some(k) => {
            let rest = attrs.skip(k + needle.len());
            match text::find_char(rest, '"') {
                Some(e) => Some(rest.take(e)),
                None => None,
            }
        },
        None => None,
    }
}

pub fn data_attr_of(attrs: &Vec<char>, name: &str) -> (res: Option<Vec<char>>)
    ensures
        match res {
            Some(v) => data_attr(attrs@, name@) == Some(v@),
            None => data_attr(attrs@, name@) is None,
        },
{
    let mut needle = chars_of("data-");
    push_str(&mut needle, name);
    push_str(&mut needle, "=\"");
    let k = match text::find_in(attrs, &needle) {
        Some(k) => k,
        None => return None,
    };
    proof {
        text::lemma_find_from(attrs@, needle@, 0);
    }
    assert(text::find(attrs@, needle@) == Some(k as int));
    assert(k + needle@.len() <= attrs@.len());
    assert(attrs@.len() == attrs.len());
    assert(needle@.len() == needle.len());
    let rest = skip_of(attrs, k + needle.len());
    proof {
        text::lemma_find_char(rest@, '"');
    }
    match find_char_in(&rest, '"') {
        Some(e) => {
            let v = slice_of(&rest, 0, e);
            assert(v@ == rest@.take(e as int));
            Some(v)
        },
        None => None,
    }
}

/// A page title from a file stem: dashes and underscores as spaces; `Notes`
/// when there is no stem.
pub open spec fn title_from_stem(stem: Option<Seq<char>>) -> Seq<char> {
    let s = match stem {
        Some(s) => s,
        None => "Notes"@,
    };
    Seq::new(s.len(), |k: int| if s[k] == '-' || s[k] == '_' { ' ' } else { s[k] })
}

pub fn title_for_stem(stem: Option<String>) -> (res: String)
    ensures
        res@ == title_from_stem(match stem {
            Some(s) => Some(s@),
            None => None,
        }),
{
    let s = match stem {
        Some(s) => chars_of(s.as_str()),
        None => chars_of("Notes"),
    };
    let mut out: Vec<char> = Vec::new();
    let mut i: usize = 0;
    while i < s.len()
        invariant
            i <= s.len(),
            out@ =~= Seq::new(i as nat, |k: int| if s@[k] == '-' || s@[k] == '_' { ' ' } else { s@[k] }),
        decreases s.len() - i,
    {
        let c = s[i];
        out.push(if c == '-' || c == '_' { ' ' } else { c });
        i += 1;
    }
    string_of(&out)
}

/// The page title taken from the input path: its file stem with dashes and
/// underscores as spaces.
pub fn title_from_path(path: &str) -> (res: String)
    ensures
        exists|stem: Option<Seq<char>>| #[trigger] title_from_stem(stem) == res@,
        paths::portable(path@) ==> res@ == title_from_stem(paths::plain_stem(path@)),
{
    title_for_stem(paths::file_stem_of(path))
}

/// The project root for an input path: its directory, or `.` when it has
/// none.
pub open spec fn root_for_parent(parent: Option<Seq<char>>) -> Seq<char> {
    match parent {
        Some(p) => if p.len() > 0 {
            p
        } else {
            "."@
        },
        None => "."@,
    }
}

pub fn root_for_parent_of(parent: Option<String>) -> (res: String)
    ensures
        res@ == root_for_parent(match parent {
            Some(s) => Some(s@),
            None => None,
        }),
{
    match parent {
        Some(p) => if p.as_str().is_empty() {
            string_of(&chars_of("."))
        } else {
            p
        },
        None => string_of(&chars_of(".")),
    }
}

/// The project root for an input path: its parent directory, or `.`.
pub fn default_root_for_input(input: &str) -> (res: String)
    ensures
        exists|parent: Option<Seq<char>>| #[trigger] root_for_parent(parent) == res@,
        paths::plain_parent(input@) is Some ==> res@ == root_for_parent(paths::plain_parent(input@)),
{
    root_for_parent_of(paths::parent_of(input))
}

/// `&` escaped for BibTeX.
pub open spec fn bibtex_escape(s: Seq<char>) -> Seq<char> {
    text::replace(s, "&"@, "\\&"@)
}

pub fn bibtex_escape_of(s: &Vec<char>) -> (res: Vec<char>)
    ensures
        res@ == bibtex_escape(s@),
{
    proof {
        reveal_strlit("&");
    }
    replace_str(s, "&", "\\&")
}

} // verus!
