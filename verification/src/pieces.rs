//! The TeX each Typst math construct becomes once its parts are converted:
//! scripts, operators, styled letters, matrix delimiters, case rows, spaces,
//! roots and accents.
use vstd::prelude::*;
use crate::text;
use crate::text::{
    chars_of, push_all, push_str, trim_of, trim_end_of, is_blank_of, strip_prefix_of,
    strip_suffix_of, eq_str, char_is_ascii_alpha, replace_str, find_char_in, slice_of, skip_of,
    char_is_ascii_digit,
};

verus! {

/// `\mathrm{..}` or `\text{..}`: the content of the wrapper.
pub open spec fn wrapper_inner(s: Seq<char>) -> Option<Seq<char>> {
    let after = match text::strip_prefix(s, "\\mathrm{"@) {
        Some(r) => Some(r),
        None => text::strip_prefix(s, "\\text{"@),
    };
    match after {
        Some(r) => text::strip_suffix(r, "}"@),
        None => None,
    }
}

/// The content of a `\mathrm{..}` or `\text{..}` wrapper, or the text itself.
pub open spec fn strip_wrappers(s: Seq<char>) -> Seq<char> {
    match wrapper_inner(s) {
        Some(i) => i,
        None => s,
    }
}

pub fn wrapper_inner_of(s: &Vec<char>) -> (res: Option<Vec<char>>)
    ensures
        match res {
            Some(r) => wrapper_inner(s@) == Some(r@),
            None => wrapper_inner(s@) is None,
        },
{
    let after = match strip_prefix_of(s, "\\mathrm{") {
        Some(r) => Some(r),
        None => strip_prefix_of(s, "\\text{"),
    };
    match after {
        Some(r) => strip_suffix_of(&r, "}"),
        None => None,
    }
}

pub fn strip_wrappers_of(s: &Vec<char>) -> (res: Vec<char>)
    ensures
        res@ == strip_wrappers(s@),
{
    match wrapper_inner_of(s) {
        Some(i) => i,
        None => s.clone(),
    }
}

/// A script `\{..\}` whose content is a text wrapper loses the literal braces.
pub open spec fn simplify_script(s: Seq<char>) -> Seq<char> {
    match text::strip_prefix(s, "\\{"@) {
        Some(r) => match text::strip_suffix(r, "\\}"@) {
            Some(inner) => if wrapper_inner(text::trim(inner)) is Some {
                text::trim(inner)
            } else {
                s
            },
            None => s,
        },
        None => s,
    }
}

pub fn simplify_script_of(s: &Vec<char>) -> (res: Vec<char>)
    ensures
        res@ == simplify_script(s@),
{
    if let Some(r) = strip_prefix_of(s, "\\{") {
        if let Some(inner) = strip_suffix_of(&r, "\\}") {
            let t = trim_of(&inner);
            if wrapper_inner_of(&t).is_some() {
                return t;
            }
        }
    }
    s.clone()
}

/// One attached script: `marker{..}` when the simplified, trimmed script is
/// non-empty, nothing otherwise.
pub open spec fn script_tex(marker: Seq<char>, script: Option<Seq<char>>) -> Seq<char> {
    match script {
        Some(x) => {
            let s = simplify_script(text::trim(x));
            if s.len() > 0 {
                marker + "{"@ + s + "}"@
            } else {
                Seq::empty()
            }
        },
        None => Seq::empty(),
    }
}

/// A base with a bottom script, a top script and top-right primes. When a
/// script is really attached, trailing space of the base goes.
pub open spec fn attach_tex(
    base: Seq<char>,
    sub: Option<Seq<char>>,
    sup: Option<Seq<char>>,
    tr: Option<Seq<char>>,
) -> Seq<char> {
    let attached = (sub matches Some(x) && !text::is_blank(x)) || (sup matches Some(x)
        && !text::is_blank(x)) || tr is Some;
    let start = if attached && !text::is_blank(base) {
        text::trim_end(base)
    } else {
        base
    };
    let primes = match tr {
        Some(x) => if !text::is_blank(x) {
            text::trim(x)
        } else {
            Seq::empty()
        },
        None => Seq::empty(),
    };
    start + script_tex("_"@, sub) + script_tex("^"@, sup) + primes
}

fn push_script(out: &mut Vec<char>, marker: &str, script: &Option<Vec<char>>)
    ensures
        final(out)@ == old(out)@ + script_tex(
            marker@,
            match script {
                Some(x) => Some(x@),
                None => None,
            },
        ),
{
    if let Some(x) = script {
        let s = simplify_script_of(&trim_of(x));
        if s.len() > 0 {
            push_str(out, marker);
            push_str(out, "{");
            push_all(out, &s);
            push_str(out, "}");
        }
    }
}

pub open spec fn opt_view(o: Option<Vec<char>>) -> Option<Seq<char>> {
    match o {
        Some(x) => Some(x@),
        None => None,
    }
}

pub fn attach_to_tex(
    base: Vec<char>,
    sub: Option<Vec<char>>,
    sup: Option<Vec<char>>,
    tr: Option<Vec<char>>,
) -> (res: Vec<char>)
    ensures
        res@ == attach_tex(base@, opt_view(sub), opt_view(sup), opt_view(tr)),
{
    let sub_attached = match &sub {
        Some(x) => !is_blank_of(x),
        None => false,
    };
    let sup_attached = match &sup {
        Some(x) => !is_blank_of(x),
        None => false,
    };
    let attached = sub_attached || sup_attached || tr.is_some();
    let mut out = if attached && !is_blank_of(&base) {
        trim_end_of(&base)
    } else {
        base
    };
    push_script(&mut out, "_", &sub);
    push_script(&mut out, "^", &sup);
    if let Some(x) = &tr {
        if !is_blank_of(x) {
            let t = trim_of(x);
            push_all(&mut out, &t);
        }
    }
    out
}

pub open spec fn is_op_char(c: char) -> bool {
    text::is_ascii_alpha(c) || c == '-'
}

pub open spec fn all_op_chars(s: Seq<char>) -> bool {
    forall|k: int| 0 <= k < s.len() ==> is_op_char(#[trigger] s[k])
}

/// An operator: the expectation `E` becomes blackboard bold; a word becomes
/// `\operatorname` (starred, with limits below and above, when `limits` is
/// set), its hyphens kept upright; anything else stays, as `\mathop{..}\limits`
/// when it takes limits.
pub open spec fn op_tex(text: Seq<char>, limits: bool) -> Seq<char> {
    let stripped = strip_wrappers(text::trim(text));
    if stripped == "E"@ {
        if limits {
            "\\mathop{\\mathbb{E}}\\limits"@
        } else {
            "\\mathbb{E}"@
        }
    } else if all_op_chars(stripped) {
        let op = text::replace(stripped, "-"@, "\\text{-}"@);
        if limits {
            "\\operatorname*{"@ + op + "}"@
        } else {
            "\\operatorname{"@ + op + "}"@
        }
    } else if limits {
        "\\mathop{"@ + text + "}\\limits"@
    } else {
        text
    }
}

fn all_op_chars_of(s: &Vec<char>) -> (b: bool)
    ensures
        b == all_op_chars(s@),
{
    let mut i: usize = 0;
    while i < s.len()
        invariant
            i <= s.len(),
            forall|k: int| 0 <= k < i ==> is_op_char(#[trigger] s@[k]),
        decreases s.len() - i,
    {
        if !(char_is_ascii_alpha(s[i]) || s[i] == '-') {
            return false;
        }
        i += 1;
    }
    true
}

pub fn op_to_tex(text: Vec<char>, limits: bool) -> (res: Vec<char>)
    ensures
        res@ == op_tex(text@, limits),
{
    proof {
        reveal_strlit("-");
    }
    let stripped = strip_wrappers_of(&trim_of(&text));
    if eq_str(&stripped, "E") {
        if limits {
            chars_of("\\mathop{\\mathbb{E}}\\limits")
        } else {
            chars_of("\\mathbb{E}")
        }
    } else if all_op_chars_of(&stripped) {
        let op = replace_str(&stripped, "-", "\\text{-}");
        let mut out = if limits {
            chars_of("\\operatorname*{")
        } else {
            chars_of("\\operatorname{")
        };
        push_all(&mut out, &op);
        push_str(&mut out, "}");
        out
    } else if limits {
        let mut out = chars_of("\\mathop{");
        push_all(&mut out, &text);
        push_str(&mut out, "}\\limits");
        out
    } else {
        text
    }
}

/// The single letters that Typst's `cal`, `bb`, bold and upright bold styles
/// produce in these notes, with the TeX command for each.
pub open spec fn styled_symbol(s: Seq<char>) -> Option<Seq<char>> {
    if s.len() != 1 {
        None
    } else {
        let c = s[0];
        if c == 'A' || c == 'C' || c == 'H' || c == 'K' || c == 'S' || c == 'U' || c == 'X' || c
            == 'Y' {
            Some("\\mathcal{"@ + s + "}"@)
        } else if c == 'R' || c == 'N' || c == 'Q' || c == 'B' {
            Some("\\mathbb{"@ + s + "}"@)
        } else if c == 'a' || c == 'b' || c == 'c' || c == 'p' || c == 'q' || c == 's' || c == 'u'
            || c == 'x' || c == 'y' || c == 'z' {
            Some("\\boldsymbol{"@ + s + "}"@)
        } else if c == 'I' || c == 'M' {
            Some("\\mathbf{"@ + s + "}"@)
        } else {
            None
        }
    }
}

pub fn styled_symbol_of(s: &Vec<char>) -> (res: Option<Vec<char>>)
    ensures
        match res {
            Some(r) => styled_symbol(s@) == Some(r@),
            None => styled_symbol(s@) is None,
        },
{
    if s.len() != 1 {
        return None;
    }
    let c = s[0];
    let mut out = if c == 'A' || c == 'C' || c == 'H' || c == 'K' || c == 'S' || c == 'U' || c
        == 'X' || c == 'Y' {
        chars_of("\\mathcal{")
    } else if c == 'R' || c == 'N' || c == 'Q' || c == 'B' {
        chars_of("\\mathbb{")
    } else if c == 'a' || c == 'b' || c == 'c' || c == 'p' || c == 'q' || c == 's' || c == 'u'
        || c == 'x' || c == 'y' || c == 'z' {
        chars_of("\\boldsymbol{")
    } else if c == 'I' || c == 'M' {
        chars_of("\\mathbf{")
    } else {
        return None;
    };
    push_all(&mut out, s);
    push_str(&mut out, "}");
    Some(out)
}

/// An ASCII letter followed by a script or prime: the letter and the rest.
pub open spec fn styled_with_suffix(s: Seq<char>) -> Option<(Seq<char>, Seq<char>)> {
    if s.len() >= 2 && text::is_ascii_alpha(s[0]) && (s[1] == '_' || s[1] == '^' || s[1]
        == '\'') {
        Some((s.take(1), s.skip(1)))
    } else {
        None
    }
}

/// A styled child once converted: a styled letter (possibly with scripts)
/// takes its style's command; anything else stays.
pub open spec fn styled_post(converted: Seq<char>) -> Seq<char> {
    let stripped = strip_wrappers(text::trim(converted));
    match styled_symbol(stripped) {
        Some(st) => st,
        None => match styled_with_suffix(stripped) {
            Some((base, suffix)) => match styled_symbol(base) {
                Some(st) => st + suffix,
                None => converted,
            },
            None => converted,
        },
    }
}

pub fn styled_post_of(converted: Vec<char>) -> (res: Vec<char>)
    ensures
        res@ == styled_post(converted@),
{
    let stripped = strip_wrappers_of(&trim_of(&converted));
    if let Some(st) = styled_symbol_of(&stripped) {
        return st;
    }
    if stripped.len() >= 2 && char_is_ascii_alpha(stripped[0]) && (stripped[1] == '_'
        || stripped[1] == '^' || stripped[1] == '\'') {
        let base = slice_of(&stripped, 0, 1);
        assert(base@ == stripped@.take(1));
        if let Some(st) = styled_symbol_of(&base) {
            let suffix = skip_of(&stripped, 1);
            let mut out = st;
            push_all(&mut out, &suffix);
            return out;
        }
    }
    converted
}

/// A row of `cases` once converted: the value and the condition on either
/// side of the first `&`, trimmed, with `\text{if}` spaced.
pub open spec fn case_row_post(converted: Seq<char>) -> Seq<char> {
    match text::find_char(converted, '&') {
        Some(idx) => {
            let left = text::trim(converted.take(idx));
            let right = text::replace(
                text::trim(converted.skip(idx + 1)),
                "\\text{if} "@,
                "\\text{if } "@,
            );
            if right.len() == 0 {
                left
            } else {
                left + " & "@ + right
            }
        },
        None => text::trim(converted),
    }
}

pub fn case_row_post_of(converted: &Vec<char>) -> (res: Vec<char>)
    ensures
        res@ == case_row_post(converted@),
{
    proof {
        text::lemma_find_char(converted@, '&');
        reveal_strlit("\\text{if} ");
    }
    match find_char_in(converted, '&') {
        Some(idx) => {
            assert(idx < converted.len());
            let left = trim_of(&slice_of(converted, 0, idx));
            assert(converted@.subrange(0, idx as int) == converted@.take(idx as int));
            let right = replace_str(
                &trim_of(&skip_of(converted, idx + 1)),
                "\\text{if} ",
                "\\text{if } ",
            );
            if right.len() == 0 {
                left
            } else {
                let mut out = left;
                push_str(&mut out, " & ");
                push_all(&mut out, &right);
                out
            }
        },
        None => trim_of(converted),
    }
}

/// The matrix environment for a `delim` argument (trimmed).
pub open spec fn matrix_env(delim: Option<Seq<char>>) -> Seq<char> {
    match delim {
        Some(d) => {
            let t = text::trim(d);
            if t == "none"@ {
                "matrix"@
            } else if t == "["@ || t == "bracket"@ {
                "bmatrix"@
            } else if t == "{"@ || t == "brace"@ {
                "Bmatrix"@
            } else if t == "|"@ || t == "bar"@ {
                "vmatrix"@
            } else if t == "‖"@ || t == "double-bar"@ {
                "Vmatrix"@
            } else {
                "pmatrix"@
            }
        },
        None => "pmatrix"@,
    }
}

pub fn matrix_env_of(delim: Option<&Vec<char>>) -> (res: Vec<char>)
    ensures
        res@ == matrix_env(
            match delim {
                Some(d) => Some(d@),
                None => None,
            },
        ),
{
    match delim {
        Some(d) => {
            let t = trim_of(d);
            if eq_str(&t, "none") {
                chars_of("matrix")
            } else if eq_str(&t, "[") || eq_str(&t, "bracket") {
                chars_of("bmatrix")
            } else if eq_str(&t, "{") || eq_str(&t, "brace") {
                chars_of("Bmatrix")
            } else if eq_str(&t, "|") || eq_str(&t, "bar") {
                chars_of("vmatrix")
            } else if eq_str(&t, "‖") || eq_str(&t, "double-bar") {
                chars_of("Vmatrix")
            } else {
                chars_of("pmatrix")
            }
        },
        None => chars_of("pmatrix"),
    }
}

/// Horizontal space: one and two em are `\quad` and `\qquad`, no amount is
/// nothing, any other amount is `\hspace{..}`.
pub open spec fn hspace_tex(amount: Seq<char>) -> Seq<char> {
    let a = text::trim(amount);
    if a == "1em"@ {
        "\\quad "@
    } else if a == "2em"@ {
        "\\qquad "@
    } else if a.len() == 0 {
        Seq::empty()
    } else {
        "\\hspace{"@ + a + "}"@
    }
}

pub fn hspace_to_tex(amount: &Vec<char>) -> (res: Vec<char>)
    ensures
        res@ == hspace_tex(amount@),
{
    let a = trim_of(amount);
    if eq_str(&a, "1em") {
        chars_of("\\quad ")
    } else if eq_str(&a, "2em") {
        chars_of("\\qquad ")
    } else if a.len() == 0 {
        Vec::new()
    } else {
        let mut out = chars_of("\\hspace{");
        push_all(&mut out, &a);
        push_str(&mut out, "}");
        out
    }
}

/// The value of a decimal numeral as `str::parse::<usize>` reads it: an
/// optional `+`, then at least one digit, and the value must fit in `usize`.
pub open spec fn digits_value(s: Seq<char>) -> nat
    decreases s.len(),
{
    if s.len() == 0 {
        0
    } else {
        digits_value(s.drop_last()) * 10 + (s.last() as nat - '0' as nat) as nat
    }
}

pub open spec fn all_digits(s: Seq<char>) -> bool {
    forall|k: int| 0 <= k < s.len() ==> text::is_ascii_digit(#[trigger] s[k])
}

pub open spec fn parse_usize(s: Seq<char>) -> Option<nat> {
    let digits = if s.len() > 0 && s[0] == '+' {
        s.drop_first()
    } else {
        s
    };
    if digits.len() > 0 && all_digits(digits) && digits_value(digits) <= usize::MAX {
        Some(digits_value(digits))
    } else {
        None
    }
}

pub fn parse_usize_of(s: &Vec<char>) -> (res: Option<usize>)
    ensures
        match res {
            Some(n) => parse_usize(s@) == Some(n as nat),
            None => parse_usize(s@) is None,
        },
{
    let digits = if s.len() > 0 && s[0] == '+' {
        skip_of(s, 1)
    } else {
        s.clone()
    };
    assert(s@.len() > 0 ==> s@.skip(1) == s@.drop_first());
    assert(digits@ == (if s@.len() > 0 && s@[0] == '+' {
        s@.drop_first()
    } else {
        s@
    }));
    if digits.len() == 0 {
        return None;
    }
    let mut value: usize = 0;
    let mut i: usize = 0;
    while i < digits.len()
        invariant
            i <= digits.len(),
            digits@ == (if s@.len() > 0 && s@[0] == '+' {
                s@.drop_first()
            } else {
                s@
            }),
            all_digits(digits@.take(i as int)),
            value as nat == digits_value(digits@.take(i as int)),
        decreases digits.len() - i,
    {
        let c = digits[i];
        assert(digits@.take(i + 1).drop_last() == digits@.take(i as int));
        assert(digits@.take(i + 1).last() == c);
        if !char_is_ascii_digit(c) {
            assert(!all_digits(digits@)) by {
                assert(!text::is_ascii_digit(digits@[i as int]));
            }
            return None;
        }
        let d = (c as u32 - '0' as u32) as usize;
        assert(d == (c as nat - '0' as nat));
        if value > (usize::MAX - d) / 10 {
            proof {
                assert(value * 10 + d > usize::MAX) by (nonlinear_arith)
                    requires
                        value > (usize::MAX - d) / 10,
                        d <= 9,
                ;
                if all_digits(digits@) {
                    lemma_digits_value_prefix(digits@, i as int + 1);
                }
            }
            return None;
        }
        value = value * 10 + d;
        i += 1;
    }
    assert(digits@.take(digits.len() as int) == digits@);
    Some(value)
}

/// A prefix of a digit string is worth no more than the whole.
proof fn lemma_digits_value_prefix(s: Seq<char>, n: int)
    requires
        0 <= n <= s.len(),
        all_digits(s),
    ensures
        digits_value(s.take(n)) <= digits_value(s),
    decreases s.len() - n,
{
    if n < s.len() {
        lemma_digits_value_prefix(s.drop_last(), n);
        assert(s.drop_last().take(n) == s.take(n));
        assert(text::is_ascii_digit(s[s.len() - 1]));
    } else {
        assert(s.take(n) == s);
    }
}

/// `count` primes.
pub open spec fn primes_tex(count: nat) -> Seq<char> {
    Seq::new(count, |i: int| '\'')
}

pub fn primes_to_tex(count: usize) -> (res: Vec<char>)
    ensures
        res@ == primes_tex(count as nat),
{
    let mut out: Vec<char> = Vec::new();
    let mut i: usize = 0;
    while i < count
        invariant
            i <= count,
            out@ == primes_tex(i as nat),
        decreases count - i,
    {
        out.push('\'');
        i += 1;
        assert(out@ =~= primes_tex(i as nat));
    }
    out
}

/// `\frac{num}{denom}` from the converted parts, trimmed.
pub open spec fn frac_tex(num: Seq<char>, denom: Seq<char>) -> Seq<char> {
    "\\frac{"@ + text::trim(num) + "}{"@ + text::trim(denom) + "}"@
}

/// A root: `\sqrt{..}`, with `[index]` when the index is not empty.
pub open spec fn root_tex(index: Seq<char>, body: Seq<char>) -> Seq<char> {
    let i = text::trim(index);
    let b = text::trim(body);
    if i.len() == 0 {
        "\\sqrt{"@ + b + "}"@
    } else {
        "\\sqrt["@ + i + "]{"@ + b + "}"@
    }
}

/// An accent command applied to the converted body, trimmed.
pub open spec fn accent_tex(name: Seq<char>, body: Seq<char>) -> Seq<char> {
    "\\"@ + name + "{"@ + text::trim(body) + "}"@
}

pub fn frac_to_tex(num: &Vec<char>, denom: &Vec<char>) -> (res: Vec<char>)
    ensures
        res@ == frac_tex(num@, denom@),
{
    let mut out = chars_of("\\frac{");
    push_all(&mut out, &trim_of(num));
    push_str(&mut out, "}{");
    push_all(&mut out, &trim_of(denom));
    push_str(&mut out, "}");
    out
}

pub fn root_to_tex(index: &Vec<char>, body: &Vec<char>) -> (res: Vec<char>)
    ensures
        res@ == root_tex(index@, body@),
{
    let i = trim_of(index);
    let b = trim_of(body);
    if i.len() == 0 {
        let mut out = chars_of("\\sqrt{");
        push_all(&mut out, &b);
        push_str(&mut out, "}");
        out
    } else {
        let mut out = chars_of("\\sqrt[");
        push_all(&mut out, &i);
        push_str(&mut out, "]{");
        push_all(&mut out, &b);
        push_str(&mut out, "}");
        out
    }
}

pub fn accent_to_tex(name: &str, body: &Vec<char>) -> (res: Vec<char>)
    ensures
        res@ == accent_tex(name@, body@),
{
    let mut out = chars_of("\\");
    push_str(&mut out, name);
    push_str(&mut out, "{");
    push_all(&mut out, &trim_of(body));
    push_str(&mut out, "}");
    out
}

} // verus!
