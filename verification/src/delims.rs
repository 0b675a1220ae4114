//! Display math: TeX split into tokens, and matching delimiters sized with
//! `\left` and `\right`.
use vstd::prelude::*;
use crate::text;
use crate::text::{chars_of, push_all, push_str, slice_of, eq_str, char_is_ascii_alpha, char_is_ws, trim_of, trim_start_of, has_prefix, is_blank_of};

verus! {

#[derive(Clone, Copy, PartialEq, Eq, Structural)]
pub enum DelimKind {
    Paren,
    Bracket,
    Brace,
    Angle,
    Ceil,
    Floor,
    Vert,
}

#[derive(Clone, Copy, PartialEq, Eq, Structural)]
pub enum DelimRole {
    Open(DelimKind),
    Close(DelimKind),
    Symmetric(DelimKind),
}

/// What a control sequence is as a delimiter.
pub open spec fn command_role(cmd: Seq<char>) -> Option<DelimRole> {
    if cmd == "\\{"@ { Some(DelimRole::Open(DelimKind::Brace)) }
    else if cmd == "\\}"@ { Some(DelimRole::Close(DelimKind::Brace)) }
    else if cmd == "\\langle"@ { Some(DelimRole::Open(DelimKind::Angle)) }
    else if cmd == "\\rangle"@ { Some(DelimRole::Close(DelimKind::Angle)) }
    else if cmd == "\\lceil"@ { Some(DelimRole::Open(DelimKind::Ceil)) }
    else if cmd == "\\rceil"@ { Some(DelimRole::Close(DelimKind::Ceil)) }
    else if cmd == "\\lfloor"@ { Some(DelimRole::Open(DelimKind::Floor)) }
    else if cmd == "\\rfloor"@ { Some(DelimRole::Close(DelimKind::Floor)) }
    else if cmd == "\\lVert"@ { Some(DelimRole::Open(DelimKind::Vert)) }
    else if cmd == "\\rVert"@ { Some(DelimRole::Close(DelimKind::Vert)) }
    else if cmd == "\\Vert"@ || cmd == "\\|"@ { Some(DelimRole::Symmetric(DelimKind::Vert)) }
    else { None }
}

/// What a single character is as a delimiter.
pub open spec fn char_role(c: char) -> Option<DelimRole> {
    if c == '(' { Some(DelimRole::Open(DelimKind::Paren)) }
    else if c == ')' { Some(DelimRole::Close(DelimKind::Paren)) }
    else if c == '[' { Some(DelimRole::Open(DelimKind::Bracket)) }
    else if c == ']' { Some(DelimRole::Close(DelimKind::Bracket)) }
    else if c == '|' { Some(DelimRole::Symmetric(DelimKind::Vert)) }
    else { None }
}

pub fn command_delim_role(cmd: &Vec<char>) -> (res: Option<DelimRole>)
    ensures
        res == command_role(cmd@),
{
    if eq_str(cmd, "\\{") { Some(DelimRole::Open(DelimKind::Brace)) }
    else if eq_str(cmd, "\\}") { Some(DelimRole::Close(DelimKind::Brace)) }
    else if eq_str(cmd, "\\langle") { Some(DelimRole::Open(DelimKind::Angle)) }
    else if eq_str(cmd, "\\rangle") { Some(DelimRole::Close(DelimKind::Angle)) }
    else if eq_str(cmd, "\\lceil") { Some(DelimRole::Open(DelimKind::Ceil)) }
    else if eq_str(cmd, "\\rceil") { Some(DelimRole::Close(DelimKind::Ceil)) }
    else if eq_str(cmd, "\\lfloor") { Some(DelimRole::Open(DelimKind::Floor)) }
    else if eq_str(cmd, "\\rfloor") { Some(DelimRole::Close(DelimKind::Floor)) }
    else if eq_str(cmd, "\\lVert") { Some(DelimRole::Open(DelimKind::Vert)) }
    else if eq_str(cmd, "\\rVert") { Some(DelimRole::Close(DelimKind::Vert)) }
    else if eq_str(cmd, "\\Vert") || eq_str(cmd, "\\|") { Some(DelimRole::Symmetric(DelimKind::Vert)) }
    else { None }
}

pub fn char_delim_role(c: char) -> (res: Option<DelimRole>)
    ensures
        res == char_role(c),
{
    if c == '(' { Some(DelimRole::Open(DelimKind::Paren)) }
    else if c == ')' { Some(DelimRole::Close(DelimKind::Paren)) }
    else if c == '[' { Some(DelimRole::Open(DelimKind::Bracket)) }
    else if c == ']' { Some(DelimRole::Close(DelimKind::Bracket)) }
    else if c == '|' { Some(DelimRole::Symmetric(DelimKind::Vert)) }
    else { None }
}

// ---------------------------------------------------------------------------
// Tokens
// ---------------------------------------------------------------------------

pub struct TokenSpec {
    pub text: Seq<char>,
    pub role: Option<DelimRole>,
    pub protected: bool,
}

pub struct TexToken {
    pub text: Vec<char>,
    pub role: Option<DelimRole>,
    pub protected: bool,
}

impl TexToken {
    pub open spec fn view(&self) -> TokenSpec {
        TokenSpec { text: self.text@, role: self.role, protected: self.protected }
    }
}

pub open spec fn tokens_view(v: Seq<TexToken>) -> Seq<TokenSpec> {
    Seq::new(v.len(), |k: int| v[k].view())
}

/// The end of the run of ASCII letters starting at `j`.
pub open spec fn letters_end(s: Seq<char>, j: int) -> int
    decreases s.len() - j,
{
    if 0 <= j < s.len() && text::is_ascii_alpha(s[j]) {
        letters_end(s, j + 1)
    } else {
        j
    }
}

/// The end of the control sequence whose backslash is at `start`: a control
/// word runs over ASCII letters; otherwise one character follows (if any).
pub open spec fn command_end(s: Seq<char>, start: int) -> int {
    let e = letters_end(s, start + 1);
    if e == start + 1 {
        if start + 1 < s.len() {
            start + 2
        } else {
            start + 1
        }
    } else {
        e
    }
}

pub proof fn lemma_letters_end(s: Seq<char>, j: int)
    requires
        0 <= j,
    ensures
        j <= letters_end(s, j),
        j <= s.len() ==> letters_end(s, j) <= s.len(),
    decreases s.len() - j,
{
    if 0 <= j < s.len() && text::is_ascii_alpha(s[j]) {
        lemma_letters_end(s, j + 1);
    }
}

pub proof fn lemma_command_end(s: Seq<char>, start: int)
    requires
        0 <= start < s.len(),
    ensures
        start < command_end(s, start) <= s.len(),
{
    lemma_letters_end(s, start + 1);
}

/// What the tokenizer remembers between tokens: a delimiter right after
/// `\left`/`\right` is already sized; the optional `[..]` argument of `\sqrt`
/// is not a bracket pair.
pub struct TokState {
    pub after_sizing: bool,
    pub optional_depth: int,
    pub expect_optional: bool,
}

pub open spec fn tok_init() -> TokState {
    TokState { after_sizing: false, optional_depth: 0, expect_optional: false }
}

/// The tokens of `s` from index `i` on, in state `st`: a control sequence is
/// one token, any other character is one token.
pub open spec fn tokens_from(s: Seq<char>, i: int, st: TokState) -> Seq<TokenSpec>
    decreases s.len() - i,
{
    if i < 0 || i >= s.len() {
        Seq::empty()
    } else if s[i] == '\\' {
        let e = command_end(s, i);
        proof {
            lemma_command_end(s, i);
        }
        let cmd = s.subrange(i, e);
        let role = command_role(cmd);
        let sizing = cmd == "\\left"@ || cmd == "\\right"@;
        let protected = st.after_sizing || st.optional_depth > 0 || (role is Some && sizing);
        let next = TokState {
            after_sizing: sizing,
            optional_depth: st.optional_depth,
            expect_optional: if cmd == "\\sqrt"@ {
                true
            } else {
                st.expect_optional
            },
        };
        seq![TokenSpec { text: cmd, role, protected }] + tokens_from(s, e, next)
    } else {
        let ch = s[i];
        let base = st.after_sizing || st.optional_depth > 0;
        let (protected, depth, expect) = if st.expect_optional && !text::is_ws(ch) {
            if ch == '[' {
                (true, 1int, false)
            } else {
                (base, st.optional_depth, false)
            }
        } else if st.optional_depth > 0 {
            if ch == '[' {
                (base, st.optional_depth + 1, st.expect_optional)
            } else if ch == ']' {
                (base, st.optional_depth - 1, st.expect_optional)
            } else {
                (base, st.optional_depth, st.expect_optional)
            }
        } else {
            (base, st.optional_depth, st.expect_optional)
        };
        seq![TokenSpec { text: seq![ch], role: char_role(ch), protected }] + tokens_from(
            s,
            i + 1,
            TokState { after_sizing: false, optional_depth: depth, expect_optional: expect },
        )
    }
}

pub open spec fn tokenize(s: Seq<char>) -> Seq<TokenSpec> {
    tokens_from(s, 0, tok_init())
}

/// The texts of the tokens, run together.
pub open spec fn token_texts(toks: Seq<TokenSpec>) -> Seq<char>
    decreases toks.len(),
{
    if toks.len() == 0 {
        Seq::empty()
    } else {
        toks[0].text + token_texts(toks.drop_first())
    }
}

proof fn lemma_tokens_from_texts(s: Seq<char>, i: int, st: TokState)
    requires
        0 <= i <= s.len(),
    ensures
        token_texts(tokens_from(s, i, st)) == s.skip(i),
    decreases s.len() - i,
{
    if i < s.len() {
        let toks = tokens_from(s, i, st);
        if s[i] == '\\' {
            let e = command_end(s, i);
            lemma_command_end(s, i);
            let cmd = s.subrange(i, e);
            let role = command_role(cmd);
            let sizing = cmd == "\\left"@ || cmd == "\\right"@;
            let next = TokState {
                after_sizing: sizing,
                optional_depth: st.optional_depth,
                expect_optional: if cmd == "\\sqrt"@ {
                    true
                } else {
                    st.expect_optional
                },
            };
            lemma_tokens_from_texts(s, e, next);
            assert(toks.drop_first() == tokens_from(s, e, next));
            assert(cmd + s.skip(e) =~= s.skip(i));
        } else {
            let ch = s[i];
            let base = st.after_sizing || st.optional_depth > 0;
            let (protected, depth, expect) = if st.expect_optional && !text::is_ws(ch) {
                if ch == '[' {
                    (true, 1int, false)
                } else {
                    (base, st.optional_depth, false)
                }
            } else if st.optional_depth > 0 {
                if ch == '[' {
                    (base, st.optional_depth + 1, st.expect_optional)
                } else if ch == ']' {
                    (base, st.optional_depth - 1, st.expect_optional)
                } else {
                    (base, st.optional_depth, st.expect_optional)
                }
            } else {
                (base, st.optional_depth, st.expect_optional)
            };
            let st2 = TokState { after_sizing: false, optional_depth: depth, expect_optional: expect };
            assert(toks.drop_first() == tokens_from(s, i + 1, st2));
            lemma_tokens_from_texts(s, i + 1, st2);
            assert(seq![s[i]] + s.skip(i + 1) =~= s.skip(i));
        }
    } else {
        assert(s.skip(i).len() == 0);
    }
}

/// Tokenizing loses nothing: the tokens' texts spell out the input.
pub proof fn law_tokenize_lossless(s: Seq<char>)
    ensures
        token_texts(tokenize(s)) == s,
{
    lemma_tokens_from_texts(s, 0, tok_init());
    assert(s.skip(0) == s);
}

/// A token's text: one character other than `\`, or `\` followed by a run
/// of ASCII letters, by one other character, or by nothing.
pub open spec fn token_shaped(t: Seq<char>) -> bool {
    ||| t.len() == 1 && t[0] != '\\'
    ||| t.len() >= 1 && t[0] == '\\' && (t.len() == 1 || (t.len() == 2 && !text::is_ascii_alpha(
        t[1],
    )) || (forall|m: int| 1 <= m < t.len() ==> text::is_ascii_alpha(#[trigger] t[m])))
}

/// A control word: `\` and ASCII letters.
pub open spec fn is_control_word(t: Seq<char>) -> bool {
    t.len() >= 2 && t[0] == '\\' && text::is_ascii_alpha(t[1])
}

/// Every token is shaped as above; a control word takes all the letters
/// that follow it; a lone `\` only ends the text.
pub open spec fn tokens_well_shaped(toks: Seq<TokenSpec>) -> bool {
    &&& forall|k: int| 0 <= k < toks.len() ==> token_shaped(#[trigger] toks[k].text)
    &&& forall|k: int|
        0 <= k < toks.len() - 1 && #[trigger] is_control_word(toks[k].text) ==> !text::is_ascii_alpha(
            toks[k + 1].text[0],
        )
    &&& forall|k: int| 0 <= k < toks.len() && #[trigger] toks[k].text == seq!['\\'] ==> k == toks.len() - 1
}

proof fn lemma_letters_run(s: Seq<char>, j: int)
    requires
        0 <= j <= s.len(),
    ensures
        forall|m: int| j <= m < letters_end(s, j) ==> text::is_ascii_alpha(#[trigger] s[m]),
        letters_end(s, j) < s.len() ==> !text::is_ascii_alpha(s[letters_end(s, j)]),
        j <= letters_end(s, j) <= s.len(),
    decreases s.len() - j,
{
    lemma_letters_end(s, j);
    if j < s.len() && text::is_ascii_alpha(s[j]) {
        lemma_letters_run(s, j + 1);
    }
}

proof fn lemma_tokens_first_char(s: Seq<char>, i: int, st: TokState)
    requires
        0 <= i < s.len(),
    ensures
        tokens_from(s, i, st).len() > 0,
        tokens_from(s, i, st)[0].text.len() > 0,
        tokens_from(s, i, st)[0].text[0] == s[i],
{
    if s[i] == '\\' {
        lemma_command_end(s, i);
    }
}

proof fn lemma_tokens_shape(s: Seq<char>, i: int, st: TokState)
    requires
        0 <= i <= s.len(),
    ensures
        tokens_well_shaped(tokens_from(s, i, st)),
    decreases s.len() - i,
{
    if i < s.len() {
        let toks = tokens_from(s, i, st);
        let (e, next) = if s[i] == '\\' {
            let e = command_end(s, i);
            let cmd = s.subrange(i, e);
            let sizing = cmd == "\\left"@ || cmd == "\\right"@;
            (e, TokState {
                after_sizing: sizing,
                optional_depth: st.optional_depth,
                expect_optional: if cmd == "\\sqrt"@ {
                    true
                } else {
                    st.expect_optional
                },
            })
        } else {
            let ch = s[i];
            let base = st.after_sizing || st.optional_depth > 0;
            let (protected, depth, expect) = if st.expect_optional && !text::is_ws(ch) {
                if ch == '[' {
                    (true, 1int, false)
                } else {
                    (base, st.optional_depth, false)
                }
            } else if st.optional_depth > 0 {
                if ch == '[' {
                    (base, st.optional_depth + 1, st.expect_optional)
                } else if ch == ']' {
                    (base, st.optional_depth - 1, st.expect_optional)
                } else {
                    (base, st.optional_depth, st.expect_optional)
                }
            } else {
                (base, st.optional_depth, st.expect_optional)
            };
            (i + 1, TokState { after_sizing: false, optional_depth: depth, expect_optional: expect })
        };
        if s[i] == '\\' {
            lemma_command_end(s, i);
            lemma_letters_run(s, i + 1);
        }
        let rest = tokens_from(s, e, next);
        assert(toks.drop_first() == rest);
        lemma_tokens_shape(s, e, next);
        if e < s.len() {
            lemma_tokens_first_char(s, e, next);
        } else {
            assert(rest.len() == 0);
        }
        let t0 = toks[0].text;
        assert(t0 == s.subrange(i, e));
        if s[i] == '\\' {
            let le = letters_end(s, i + 1);
            if le == i + 1 {
                if i + 1 < s.len() {
                    assert(t0.len() == 2 && t0[1] == s[i + 1]);
                } else {
                    assert(t0 =~= seq!['\\']);
                }
            } else {
                assert forall|m: int| 1 <= m < t0.len() implies text::is_ascii_alpha(#[trigger] t0[m]) by {
                    assert(t0[m] == s[i + m]);
                }
            }
            assert(token_shaped(t0));
        } else {
            assert(t0.len() == 1 && t0[0] == s[i]);
        }
        assert forall|k: int| 0 <= k < toks.len() implies token_shaped(#[trigger] toks[k].text) by {
            if k > 0 {
                assert(toks[k] == rest[k - 1]);
            }
        }
        assert forall|k: int|
            0 <= k < toks.len() - 1 && #[trigger] is_control_word(toks[k].text) implies !text::is_ascii_alpha(
            toks[k + 1].text[0],
        ) by {
            assert(toks[k + 1] == rest[k]);
            if k > 0 {
                assert(toks[k] == rest[k - 1]);
            } else {
                assert(s[i] == '\\');
                assert(letters_end(s, i + 1) != i + 1);
                assert(e == letters_end(s, i + 1));
            }
        }
        assert forall|k: int| 0 <= k < toks.len() && #[trigger] toks[k].text == seq!['\\'] implies k
            == toks.len() - 1 by {
            if k > 0 {
                assert(toks[k] == rest[k - 1]);
            } else {
                assert(t0.len() == 1);
                assert(e == i + 1);
                assert(s[i] == '\\');
                assert(!(i + 1 < s.len()));
            }
        }
    }
}

/// Every token of a TeX text is one character other than `\`, a control
/// word taking all the letters after its `\`, `\` and one other character,
/// or a lone `\` at the very end.
pub proof fn law_tokens_shaped(s: Seq<char>)
    ensures
        tokens_well_shaped(tokenize(s)),
{
    lemma_tokens_shape(s, 0, tok_init());
}

/// The matching delimiter pairs, by number: parentheses, brackets, braces,
/// angle brackets, ceilings, floors and double bars.
pub open spec fn delim_pair(p: int) -> (Seq<char>, Seq<char>) {
    if p == 0 {
        ("("@, ")"@)
    } else if p == 1 {
        ("["@, "]"@)
    } else if p == 2 {
        ("\\{"@, "\\}"@)
    } else if p == 3 {
        ("\\langle"@, "\\rangle"@)
    } else if p == 4 {
        ("\\lceil"@, "\\rceil"@)
    } else if p == 5 {
        ("\\lfloor"@, "\\rfloor"@)
    } else if p == 6 {
        ("\\lVert"@, "\\rVert"@)
    } else if p == 7 {
        ("|"@, "|"@)
    } else if p == 8 {
        ("\\Vert"@, "\\Vert"@)
    } else {
        ("\\|"@, "\\|"@)
    }
}

/// Pairs written with one character, with a backslash and one symbol, and
/// as control words.
pub open spec fn is_char_pair(p: int) -> bool {
    p == 0 || p == 1 || p == 7
}

pub open spec fn is_symbol_pair(p: int) -> bool {
    p == 2 || p == 9
}

pub open spec fn pair_kind(p: int) -> DelimKind {
    if p == 0 {
        DelimKind::Paren
    } else if p == 1 {
        DelimKind::Bracket
    } else if p == 2 {
        DelimKind::Brace
    } else if p == 3 {
        DelimKind::Angle
    } else if p == 4 {
        DelimKind::Ceil
    } else if p == 5 {
        DelimKind::Floor
    } else {
        DelimKind::Vert
    }
}

pub open spec fn pair_text(p: int, closing: bool) -> Seq<char> {
    if closing {
        delim_pair(p).1
    } else {
        delim_pair(p).0
    }
}

pub open spec fn pair_role(p: int, closing: bool) -> DelimRole {
    if p >= 7 {
        DelimRole::Symmetric(DelimKind::Vert)
    } else if closing {
        DelimRole::Close(pair_kind(p))
    } else {
        DelimRole::Open(pair_kind(p))
    }
}

/// Text with no backslash and no delimiter character.
pub open spec fn is_plain_tex(t: Seq<char>) -> bool {
    forall|m: int| 0 <= m < t.len() ==> #[trigger] t[m] != '\\' && char_role(t[m]) is None
}

proof fn lemma_letters_end_at(s: Seq<char>, j: int, e: int)
    requires
        0 <= j <= e <= s.len(),
        forall|m: int| j <= m < e ==> text::is_ascii_alpha(#[trigger] s[m]),
        e == s.len() || !text::is_ascii_alpha(s[e]),
    ensures
        letters_end(s, j) == e,
    decreases e - j,
{
    if j < e {
        lemma_letters_end_at(s, j + 1, e);
    }
}

proof fn lemma_pair_text_facts(p: int, closing: bool)
    requires
        0 <= p < 10,
    ensures
        is_char_pair(p) ==> pair_text(p, closing).len() == 1 && pair_text(p, closing)[0] != '\\' && char_role(
            pair_text(p, closing)[0],
        ) == Some(pair_role(p, closing)),
        !is_char_pair(p) ==> pair_text(p, closing).len() >= 2 && pair_text(p, closing)[0] == '\\'
            && command_role(pair_text(p, closing)) == Some(pair_role(p, closing)) && pair_text(
            p,
            closing,
        ) != "\\left"@ && pair_text(p, closing) != "\\right"@ && pair_text(p, closing) != "\\sqrt"@,
        is_symbol_pair(p) ==> pair_text(p, closing).len() == 2 && !text::is_ascii_alpha(pair_text(p, closing)[1]),
        !is_char_pair(p) && !is_symbol_pair(p) ==> forall|m: int|
            1 <= m < pair_text(p, closing).len() ==> text::is_ascii_alpha(#[trigger] pair_text(p, closing)[m]),
{
    reveal_strlit("(");
    reveal_strlit(")");
    reveal_strlit("[");
    reveal_strlit("]");
    reveal_strlit("|");
    assert("("@[0] == '(' && ")"@[0] == ')' && "["@[0] == '[' && "]"@[0] == ']' && "|"@[0] == '|');
    reveal_strlit("\\{");
    reveal_strlit("\\}");
    reveal_strlit("\\langle");
    reveal_strlit("\\rangle");
    reveal_strlit("\\lceil");
    reveal_strlit("\\rceil");
    reveal_strlit("\\lfloor");
    reveal_strlit("\\rfloor");
    reveal_strlit("\\lVert");
    reveal_strlit("\\rVert");
    reveal_strlit("\\Vert");
    reveal_strlit("\\|");
    reveal_strlit("\\left");
    reveal_strlit("\\right");
    reveal_strlit("\\sqrt");
    assert("\\{"@.len() == 2 && "\\{"@[0] == '\\' && "\\{"@[1] == '{');
    assert("\\}"@.len() == 2 && "\\}"@[0] == '\\' && "\\}"@[1] == '}');
    assert("\\langle"@.len() == 7 && "\\langle"@[0] == '\\' && "\\langle"@[1] == 'l' && "\\langle"@[2] == 'a');
    assert(forall|m: int| 1 <= m < 7 ==> text::is_ascii_alpha(#[trigger] "\\langle"@[m]));
    assert("\\rangle"@.len() == 7 && "\\rangle"@[0] == '\\' && "\\rangle"@[1] == 'r' && "\\rangle"@[2] == 'a');
    assert(forall|m: int| 1 <= m < 7 ==> text::is_ascii_alpha(#[trigger] "\\rangle"@[m]));
    assert("\\lceil"@.len() == 6 && "\\lceil"@[0] == '\\' && "\\lceil"@[1] == 'l' && "\\lceil"@[2] == 'c');
    assert(forall|m: int| 1 <= m < 6 ==> text::is_ascii_alpha(#[trigger] "\\lceil"@[m]));
    assert("\\rceil"@.len() == 6 && "\\rceil"@[0] == '\\' && "\\rceil"@[1] == 'r' && "\\rceil"@[2] == 'c');
    assert(forall|m: int| 1 <= m < 6 ==> text::is_ascii_alpha(#[trigger] "\\rceil"@[m]));
    assert("\\lfloor"@.len() == 7 && "\\lfloor"@[0] == '\\' && "\\lfloor"@[1] == 'l' && "\\lfloor"@[2] == 'f');
    assert(forall|m: int| 1 <= m < 7 ==> text::is_ascii_alpha(#[trigger] "\\lfloor"@[m]));
    assert("\\rfloor"@.len() == 7 && "\\rfloor"@[0] == '\\' && "\\rfloor"@[1] == 'r' && "\\rfloor"@[2] == 'f');
    assert(forall|m: int| 1 <= m < 7 ==> text::is_ascii_alpha(#[trigger] "\\rfloor"@[m]));
    assert("\\lVert"@.len() == 6 && "\\lVert"@[0] == '\\' && "\\lVert"@[1] == 'l' && "\\lVert"@[2] == 'V');
    assert(forall|m: int| 1 <= m < 6 ==> text::is_ascii_alpha(#[trigger] "\\lVert"@[m]));
    assert("\\rVert"@.len() == 6 && "\\rVert"@[0] == '\\' && "\\rVert"@[1] == 'r' && "\\rVert"@[2] == 'V');
    assert(forall|m: int| 1 <= m < 6 ==> text::is_ascii_alpha(#[trigger] "\\rVert"@[m]));
    assert("\\Vert"@.len() == 5 && "\\Vert"@[0] == '\\' && "\\Vert"@[1] == 'V' && "\\Vert"@[2] == 'e');
    assert(forall|m: int| 1 <= m < 5 ==> text::is_ascii_alpha(#[trigger] "\\Vert"@[m]));
    assert("\\|"@.len() == 2 && "\\|"@[0] == '\\' && "\\|"@[1] == '|');
    assert("\\left"@.len() == 5 && "\\left"@[0] == '\\' && "\\left"@[1] == 'l' && "\\left"@[2] == 'e');
    assert(forall|m: int| 1 <= m < 5 ==> text::is_ascii_alpha(#[trigger] "\\left"@[m]));
    assert("\\right"@.len() == 6 && "\\right"@[0] == '\\' && "\\right"@[1] == 'r' && "\\right"@[2] == 'i');
    assert(forall|m: int| 1 <= m < 6 ==> text::is_ascii_alpha(#[trigger] "\\right"@[m]));
    assert("\\sqrt"@.len() == 5 && "\\sqrt"@[0] == '\\' && "\\sqrt"@[1] == 's' && "\\sqrt"@[2] == 'q');
    assert(forall|m: int| 1 <= m < 5 ==> text::is_ascii_alpha(#[trigger] "\\sqrt"@[m]));
}

/// The state right after `\\left` or `\\right` (`after` true), or the
/// starting state.
pub open spec fn tok_after(after: bool) -> TokState {
    TokState { after_sizing: after, optional_depth: 0, expect_optional: false }
}

proof fn lemma_pair_token(s: Seq<char>, i: int, p: int, closing: bool, after: bool)
    requires
        0 <= p < 10,
        0 <= i,
        i + pair_text(p, closing).len() <= s.len(),
        s.subrange(i, i + pair_text(p, closing).len()) == pair_text(p, closing),
        !is_char_pair(p) && !is_symbol_pair(p) ==> i + pair_text(p, closing).len() == s.len()
            || !text::is_ascii_alpha(s[i + pair_text(p, closing).len()]),
    ensures
        tokens_from(s, i, tok_after(after)) == seq![
            TokenSpec { text: pair_text(p, closing), role: Some(pair_role(p, closing)), protected: after },
        ] + tokens_from(s, i + pair_text(p, closing).len(), tok_init()),
{
    let w = pair_text(p, closing);
    lemma_pair_text_facts(p, closing);
    assert(s[i] == w[0]) by {
        assert(s.subrange(i, i + w.len())[0] == s[i]);
    }
    if is_char_pair(p) {
        assert(seq![s[i]] == w);
    } else {
        let e = command_end(s, i);
        if is_symbol_pair(p) {
            assert(s[i + 1] == w[1]) by {
                assert(s.subrange(i, i + w.len())[1] == s[i + 1]);
            }
            lemma_letters_end_at(s, i + 1, i + 1);
            assert(e == i + 2);
        } else {
            assert forall|m: int| i + 1 <= m < i + w.len() implies text::is_ascii_alpha(#[trigger] s[m]) by {
                assert(s.subrange(i, i + w.len())[m - i] == s[m]);
                assert(text::is_ascii_alpha(w[m - i]));
            }
            lemma_letters_end_at(s, i + 1, i + w.len());
            assert(e == i + w.len());
        }
        assert(s.subrange(i, e) == w);
    }
}

pub open spec fn plain_tokens(u: Seq<char>) -> Seq<TokenSpec> {
    Seq::new(u.len(), |k: int| TokenSpec { text: seq![u[k]], role: None, protected: false })
}

proof fn lemma_plain_tokens(s: Seq<char>, i: int, j: int)
    requires
        0 <= i <= j <= s.len(),
        forall|m: int| i <= m < j ==> #[trigger] s[m] != '\\' && char_role(s[m]) is None,
    ensures
        tokens_from(s, i, tok_init()) == plain_tokens(s.subrange(i, j)) + tokens_from(s, j, tok_init()),
    decreases j - i,
{
    if i < j {
        assert(s[i] != '\\' && char_role(s[i]) is None);
        lemma_plain_tokens(s, i + 1, j);
        let tok = TokenSpec { text: seq![s[i]], role: None, protected: false };
        assert(tokens_from(s, i, tok_init()) == seq![tok] + tokens_from(s, i + 1, tok_init()));
        assert(plain_tokens(s.subrange(i, j)) =~= seq![tok] + plain_tokens(s.subrange(i + 1, j)));
    } else {
        assert(plain_tokens(s.subrange(i, j)) =~= Seq::<TokenSpec>::empty());
    }
}

proof fn lemma_pair_waits(toks: Seq<TokenSpec>, kind: DelimKind, j: int)
    requires
        toks.len() >= 2,
        1 <= j <= toks.len() - 1,
        toks[0].role == Some(DelimRole::Open(kind)) || toks[0].role == Some(DelimRole::Symmetric(kind)),
        !toks[0].protected,
        forall|k: int| 1 <= k < toks.len() - 1 ==> (#[trigger] toks[k]).role is None,
    ensures
        pair_state(toks, j) == (PairState {
            stack: seq![(kind, 0int)],
            marks: Seq::new(toks.len(), |i: int| 0int),
        }),
    decreases j,
{
    if j > 1 {
        lemma_pair_waits(toks, kind, j - 1);
        assert(toks[j - 1].role is None);
    } else {
        let st0 = pair_state(toks, 0);
        assert(st0.stack.push((kind, 0int)) =~= seq![(kind, 0int)]);
        assert(st0.marks =~= Seq::new(toks.len(), |i: int| 0int));
        assert(pair_state(toks, 1) == pair_step(st0, toks[0], 0));
    }
}

proof fn lemma_sized_pair(toks: Seq<TokenSpec>, marks: Seq<int>, o: Seq<char>, t: Seq<char>, j: int)
    requires
        toks.len() == t.len() + 2,
        marks.len() == toks.len(),
        toks[0].text == o,
        marks[0] == 1,
        forall|k: int| 1 <= k < toks.len() - 1 ==> (#[trigger] toks[k]).text == seq![t[k - 1]]
            && marks[k] == 0,
        1 <= j <= toks.len() - 1,
    ensures
        sized_text(toks, marks, j) == "\\left"@ + o + t.take(j - 1),
    decreases j,
{
    if j > 1 {
        lemma_sized_pair(toks, marks, o, t, j - 1);
        assert(toks[j - 1].text == seq![t[j - 2]] && marks[j - 1] == 0);
        assert(t.take(j - 2).push(t[j - 2]) == t.take(j - 1));
        assert(Seq::<char>::empty() + seq![t[j - 2]] == seq![t[j - 2]]);
    } else {
        assert(t.take(0) == Seq::<char>::empty());
        assert(sized_text(toks, marks, 0) == Seq::<char>::empty());
    }
}

/// Matching delimiters around plain text get sized: for each pair
/// (parentheses, brackets, `\{`/`\}`, `\langle`/`\rangle`, `\lceil`/`\rceil`,
/// `\lfloor`/`\rfloor`, `\lVert`/`\rVert`, and two bars `|`, `\Vert` or `\|`)
/// and text with no backslash and no delimiter, the opening one gets
/// `\left` and the closing one `\right` (a control word's letters may not
/// run on into the text).
#[verifier::rlimit(60)]
pub proof fn law_autosize_sizes_pairs(p: int, t: Seq<char>)
    requires
        0 <= p < 10,
        is_plain_tex(t),
        !is_char_pair(p) && !is_symbol_pair(p) && t.len() > 0 ==> !text::is_ascii_alpha(t[0]),
    ensures
        autosize(delim_pair(p).0 + t + delim_pair(p).1) == "\\left"@ + delim_pair(p).0 + t + "\\right"@
            + delim_pair(p).1,
{
    let o = pair_text(p, false);
    let c = pair_text(p, true);
    let s = o + t + c;
    let q: int = (o.len() + t.len()) as int;
    lemma_pair_text_facts(p, false);
    lemma_pair_text_facts(p, true);
    assert(s.subrange(0, o.len() as int) == o);
    if !is_char_pair(p) && !is_symbol_pair(p) {
        if t.len() > 0 {
            assert(s[o.len() as int] == t[0]);
        } else {
            assert(s[o.len() as int] == c[0]);
        }
    }
    assert(tok_after(false) == tok_init());
    lemma_pair_token(s, 0, p, false, false);
    assert forall|m: int| o.len() <= m < q implies #[trigger] s[m] != '\\' && char_role(s[m]) is None by {
        assert(s[m] == t[m - o.len()]);
    }
    lemma_plain_tokens(s, o.len() as int, q);
    assert(s.subrange(o.len() as int, q) == t);
    assert(s.subrange(q, q + c.len() as int) == c);
    lemma_pair_token(s, q, p, true, false);
    assert(tokens_from(s, s.len() as int, tok_init()) == Seq::<TokenSpec>::empty());
    let ot = TokenSpec { text: o, role: Some(pair_role(p, false)), protected: false };
    let ct = TokenSpec { text: c, role: Some(pair_role(p, true)), protected: false };
    let toks = tokenize(s);
    assert(toks == seq![ot] + plain_tokens(t) + seq![ct]);
    let n = toks.len() as int;
    assert(n == t.len() + 2);
    assert forall|k: int| 1 <= k < n - 1 implies (#[trigger] toks[k]).role is None && toks[k].text
        == seq![t[k - 1]] by {
        assert(toks[k] == plain_tokens(t)[k - 1]);
    }
    assert(toks[0] == ot);
    assert(toks[n - 1] == ct);
    lemma_pair_waits(toks, pair_kind(p), n - 1);
    let st = pair_state(toks, n - 1);
    assert(last_of_kind(st.stack, pair_kind(p)) == Some(0int));
    let marks = pair_state(toks, n).marks;
    assert(marks == Seq::new(toks.len(), |i: int| 0int).update(0, 1).update(n - 1, 2));
    lemma_sized_pair(toks, marks, o, t, n - 1);
    assert(t.take(n - 2) == t);
    assert(marks[n - 1] == 2);
}

/// `\\left` or `\\right`.
pub open spec fn sizing_word(right: bool) -> Seq<char> {
    if right {
        "\\right"@
    } else {
        "\\left"@
    }
}

proof fn lemma_sizing_word_facts(right: bool)
    ensures
        command_role(sizing_word(right)) is None,
        sizing_word(right) != "\\sqrt"@,
        sizing_word(right).len() >= 5,
        sizing_word(right)[0] == '\\',
        forall|m: int| 1 <= m < sizing_word(right).len() ==> text::is_ascii_alpha(#[trigger] sizing_word(right)[m]),
{
    reveal_strlit("\\{");
    reveal_strlit("\\}");
    reveal_strlit("\\langle");
    reveal_strlit("\\rangle");
    reveal_strlit("\\lceil");
    reveal_strlit("\\rceil");
    reveal_strlit("\\lfloor");
    reveal_strlit("\\rfloor");
    reveal_strlit("\\lVert");
    reveal_strlit("\\rVert");
    reveal_strlit("\\Vert");
    reveal_strlit("\\|");
    reveal_strlit("\\left");
    reveal_strlit("\\right");
    reveal_strlit("\\sqrt");
    assert("\\{"@.len() == 2 && "\\{"@[1] == '{');
    assert("\\}"@.len() == 2 && "\\}"@[1] == '}');
    assert("\\langle"@.len() == 7 && "\\langle"@[1] == 'l' && "\\langle"@[2] == 'a');
    assert("\\rangle"@.len() == 7 && "\\rangle"@[1] == 'r' && "\\rangle"@[2] == 'a');
    assert("\\lceil"@.len() == 6 && "\\lceil"@[1] == 'l' && "\\lceil"@[2] == 'c');
    assert("\\rceil"@.len() == 6 && "\\rceil"@[1] == 'r' && "\\rceil"@[2] == 'c');
    assert("\\lfloor"@.len() == 7 && "\\lfloor"@[1] == 'l' && "\\lfloor"@[2] == 'f');
    assert("\\rfloor"@.len() == 7 && "\\rfloor"@[1] == 'r' && "\\rfloor"@[2] == 'f');
    assert("\\lVert"@.len() == 6 && "\\lVert"@[1] == 'l' && "\\lVert"@[2] == 'V');
    assert("\\rVert"@.len() == 6 && "\\rVert"@[1] == 'r' && "\\rVert"@[2] == 'V');
    assert("\\Vert"@.len() == 5 && "\\Vert"@[1] == 'V' && "\\Vert"@[2] == 'e');
    assert("\\|"@.len() == 2 && "\\|"@[1] == '|');
    assert("\\left"@.len() == 5 && "\\left"@[1] == 'l' && "\\left"@[2] == 'e');
    assert("\\right"@.len() == 6 && "\\right"@[1] == 'r' && "\\right"@[2] == 'i');
    assert("\\sqrt"@.len() == 5 && "\\sqrt"@[1] == 's' && "\\sqrt"@[2] == 'q');
    assert("\\left"@[0] == '\\' && "\\left"@[3] == 'f' && "\\left"@[4] == 't');
    assert("\\right"@[0] == '\\' && "\\right"@[3] == 'g' && "\\right"@[4] == 'h' && "\\right"@[5] == 't');
}

proof fn lemma_sizing_token(s: Seq<char>, i: int, right: bool)
    requires
        0 <= i,
        i + sizing_word(right).len() < s.len(),
        s.subrange(i, i + sizing_word(right).len()) == sizing_word(right),
        !text::is_ascii_alpha(s[i + sizing_word(right).len()]),
    ensures
        tokens_from(s, i, tok_init()) == seq![
            TokenSpec { text: sizing_word(right), role: None, protected: false },
        ] + tokens_from(s, i + sizing_word(right).len(), tok_after(true)),
{
    let w = sizing_word(right);
    lemma_sizing_word_facts(right);
    assert(s[i] == w[0]) by {
        assert(s.subrange(i, i + w.len())[0] == s[i]);
    }
    assert forall|m: int| i + 1 <= m < i + w.len() implies text::is_ascii_alpha(#[trigger] s[m]) by {
        assert(s.subrange(i, i + w.len())[m - i] == s[m]);
        assert(text::is_ascii_alpha(w[m - i]));
    }
    lemma_letters_end_at(s, i + 1, i + w.len());
    assert(command_end(s, i) == i + w.len());
    assert(s.subrange(i, i + w.len()) == w);
    assert(w == "\\left"@ || w == "\\right"@);
}

proof fn lemma_token_texts_push(a: Seq<TokenSpec>, x: TokenSpec)
    ensures
        token_texts(a.push(x)) == token_texts(a) + x.text,
    decreases a.len(),
{
    let ax = a.push(x);
    assert(token_texts(ax) == ax[0].text + token_texts(ax.drop_first()));
    if a.len() == 0 {
        assert(ax.drop_first() =~= Seq::<TokenSpec>::empty());
        assert(ax[0] == x);
        assert(x.text + Seq::<char>::empty() == x.text);
        assert(Seq::<char>::empty() + x.text == x.text);
    } else {
        lemma_token_texts_push(a.drop_first(), x);
        assert(ax.drop_first() == a.drop_first().push(x));
        assert(ax[0] == a[0]);
        assert(token_texts(a) == a[0].text + token_texts(a.drop_first()));
        assert(a[0].text + (token_texts(a.drop_first()) + x.text) == (a[0].text + token_texts(
            a.drop_first(),
        )) + x.text);
    }
}

proof fn lemma_sized_unmarked(toks: Seq<TokenSpec>, marks: Seq<int>, k: int)
    requires
        0 <= k <= toks.len(),
        marks.len() == toks.len(),
        forall|j: int| 0 <= j < marks.len() ==> #[trigger] marks[j] == 0,
    ensures
        sized_text(toks, marks, k) == token_texts(toks.take(k)),
    decreases k,
{
    if k > 0 {
        lemma_sized_unmarked(toks, marks, k - 1);
        assert(toks.take(k) == toks.take(k - 1).push(toks[k - 1]));
        lemma_token_texts_push(toks.take(k - 1), toks[k - 1]);
        assert(marks[k - 1] == 0);
        assert(token_texts(toks.take(k - 1)) + Seq::<char>::empty() == token_texts(toks.take(k - 1)));
    } else {
        assert(toks.take(0) =~= Seq::<TokenSpec>::empty());
    }
}

proof fn lemma_pair_state_still(toks: Seq<TokenSpec>, k: int)
    requires
        0 <= k <= toks.len(),
        forall|j: int| 0 <= j < toks.len() ==> (#[trigger] toks[j]).protected || toks[j].role is None,
    ensures
        pair_state(toks, k) == pair_state(toks, 0),
    decreases k,
{
    if k > 0 {
        lemma_pair_state_still(toks, k - 1);
        assert(toks[k - 1].protected || toks[k - 1].role is None);
    }
}

/// The tokens of a sized pair: `\\left`, the protected opening delimiter,
/// the text's characters, `\\right`, the protected closing delimiter.
proof fn lemma_sized_pair_tokens(p: int, t: Seq<char>)
    requires
        0 <= p < 10,
        is_plain_tex(t),
        !is_char_pair(p) && !is_symbol_pair(p) && t.len() > 0 ==> !text::is_ascii_alpha(t[0]),
    ensures
        tokenize(sizing_word(false) + pair_text(p, false) + t + sizing_word(true) + pair_text(p, true))
            == seq![
            TokenSpec { text: sizing_word(false), role: None, protected: false },
            TokenSpec { text: pair_text(p, false), role: Some(pair_role(p, false)), protected: true },
        ] + plain_tokens(t) + seq![
            TokenSpec { text: sizing_word(true), role: None, protected: false },
            TokenSpec { text: pair_text(p, true), role: Some(pair_role(p, true)), protected: true },
        ],
{
    let o = pair_text(p, false);
    let c = pair_text(p, true);
    let l = sizing_word(false);
    let r = sizing_word(true);
    let s = l + o + t + r + c;
    lemma_pair_text_facts(p, false);
    lemma_pair_text_facts(p, true);
    lemma_sizing_word_facts(false);
    lemma_sizing_word_facts(true);
    let a: int = l.len() as int;
    let b: int = a + o.len();
    let q: int = b + t.len();
    let e: int = q + r.len();
    assert(s.subrange(0, a) == l);
    assert(s[a] == o[0]);
    assert(!text::is_ascii_alpha(o[0]));
    lemma_sizing_token(s, 0, false);
    assert(s.subrange(a, b) == o);
    if !is_char_pair(p) && !is_symbol_pair(p) {
        if t.len() > 0 {
            assert(s[b] == t[0]);
        } else {
            assert(s[b] == r[0]);
        }
    }
    lemma_pair_token(s, a, p, false, true);
    assert forall|m: int| b <= m < q implies #[trigger] s[m] != '\\' && char_role(s[m]) is None by {
        assert(s[m] == t[m - b]);
    }
    lemma_plain_tokens(s, b, q);
    assert(s.subrange(b, q) == t);
    assert(s.subrange(q, e) == r);
    assert(s[e] == c[0]);
    assert(!text::is_ascii_alpha(c[0]));
    lemma_sizing_token(s, q, true);
    assert(s.subrange(e, e + c.len()) == c);
    lemma_pair_token(s, e, p, true, true);
    assert(tokens_from(s, s.len() as int, tok_init()) == Seq::<TokenSpec>::empty());
}

/// Sizing what is already sized changes nothing: a pair of matching
/// delimiters around plain text, once sized, is sized again to itself.
pub proof fn law_autosize_idempotent_on_pairs(p: int, t: Seq<char>)
    requires
        0 <= p < 10,
        is_plain_tex(t),
        !is_char_pair(p) && !is_symbol_pair(p) && t.len() > 0 ==> !text::is_ascii_alpha(t[0]),
    ensures
        autosize(autosize(delim_pair(p).0 + t + delim_pair(p).1)) == autosize(
            delim_pair(p).0 + t + delim_pair(p).1,
        ),
{
    law_autosize_sizes_pairs(p, t);
    let s = sizing_word(false) + pair_text(p, false) + t + sizing_word(true) + pair_text(p, true);
    assert(autosize(pair_text(p, false) + t + pair_text(p, true)) == s);
    lemma_sized_pair_tokens(p, t);
    let toks = tokenize(s);
    assert forall|j: int| 0 <= j < toks.len() implies (#[trigger] toks[j]).protected || toks[j].role is None by {
        if 2 <= j < 2 + t.len() {
            assert(toks[j] == plain_tokens(t)[j - 2]);
        }
    }
    lemma_pair_state_still(toks, toks.len() as int);
    let marks = pair_state(toks, toks.len() as int).marks;
    lemma_sized_unmarked(toks, marks, toks.len() as int);
    assert(toks.take(toks.len() as int) == toks);
    law_tokenize_lossless(s);
}

struct TokStateExec {
    after_sizing: bool,
    optional_depth: usize,
    expect_optional: bool,
}

impl TokStateExec {
    spec fn view(&self) -> TokState {
        TokState {
            after_sizing: self.after_sizing,
            optional_depth: self.optional_depth as int,
            expect_optional: self.expect_optional,
        }
    }
}

fn read_tex_command(s: &Vec<char>, start: usize) -> (end: usize)
    requires
        start < s.len(),
    ensures
        end == command_end(s@, start as int),
{
    let mut end = start + 1;
    while end < s.len() && char_is_ascii_alpha(s[end])
        invariant
            start < end <= s.len(),
            letters_end(s@, start + 1) == letters_end(s@, end as int),
        decreases s.len() - end,
    {
        end += 1;
    }
    if end == start + 1 {
        if start + 1 < s.len() {
            end = start + 2;
        }
    }
    end
}

/// The TeX tokens of `s` (see `tokenize`).
pub fn tokenize_tex(s: &Vec<char>) -> (res: Vec<TexToken>)
    ensures
        tokens_view(res@) == tokenize(s@),
{
    let mut tokens: Vec<TexToken> = Vec::new();
    let mut st = TokStateExec { after_sizing: false, optional_depth: 0, expect_optional: false };
    let mut i: usize = 0;
    while i < s.len()
        invariant
            i <= s.len(),
            st.optional_depth <= i,
            tokens_view(tokens@) + tokens_from(s@, i as int, st.view()) == tokenize(s@),
        decreases s.len() - i,
    {
        let ghost before = tokens_view(tokens@);
        let ghost rest = tokens_from(s@, i as int, st.view());
        if s[i] == '\\' {
            let e = read_tex_command(s, i);
            proof {
                lemma_command_end(s@, i as int);
            }
            let cmd = slice_of(s, i, e);
            let role = command_delim_role(&cmd);
            let sizing = eq_str(&cmd, "\\left") || eq_str(&cmd, "\\right");
            let protected = st.after_sizing || st.optional_depth > 0 || (role.is_some() && sizing);
            let expect = if eq_str(&cmd, "\\sqrt") {
                true
            } else {
                st.expect_optional
            };
            let tok = TexToken { text: cmd, role, protected };
            tokens.push(tok);
            let ghost old_st = st.view();
            st = TokStateExec {
                after_sizing: sizing,
                optional_depth: st.optional_depth,
                expect_optional: expect,
            };
            assert(rest == seq![tok.view()] + tokens_from(s@, e as int, st.view()));
            assert(tokens_view(tokens@) =~= before.push(tok.view()));
            assert(tokens_view(tokens@) + tokens_from(s@, e as int, st.view()) =~= before + rest);
            i = e;
        } else {
            let ch = s[i];
            let base = st.after_sizing || st.optional_depth > 0;
            let mut protected = base;
            let mut depth = st.optional_depth;
            let mut expect = st.expect_optional;
            if st.expect_optional && !char_is_ws(ch) {
                if ch == '[' {
                    protected = true;
                    depth = 1;
                }
                expect = false;
            } else if st.optional_depth > 0 {
                if ch == '[' {
                    depth = depth + 1;
                } else if ch == ']' {
                    depth = depth - 1;
                }
            }
            let mut text: Vec<char> = Vec::new();
            text.push(ch);
            assert(text@ =~= seq![ch]);
            let tok = TexToken { text, role: char_delim_role(ch), protected };
            tokens.push(tok);
            st = TokStateExec { after_sizing: false, optional_depth: depth, expect_optional: expect };
            assert(rest == seq![tok.view()] + tokens_from(s@, i + 1, st.view()));
            assert(tokens_view(tokens@) =~= before.push(tok.view()));
            assert(tokens_view(tokens@) + tokens_from(s@, i + 1, st.view()) =~= before + rest);
            i = i + 1;
        }
    }
    assert(tokens_view(tokens@) + Seq::<TokenSpec>::empty() == tokens_view(tokens@));
    tokens
}

// ---------------------------------------------------------------------------
// Pairing delimiters
// ---------------------------------------------------------------------------

/// The pairing state after some tokens: the open delimiters still waiting
/// (kind and token index), and for each token whether it gets `\left` (1),
/// `\right` (2) or nothing (0).
pub struct PairState {
    pub stack: Seq<(DelimKind, int)>,
    pub marks: Seq<int>,
}

/// The last waiting delimiter of the given kind.
pub open spec fn last_of_kind(stack: Seq<(DelimKind, int)>, kind: DelimKind) -> Option<int>
    decreases stack.len(),
{
    if stack.len() == 0 {
        None
    } else if stack.last().0 == kind {
        Some(stack.len() - 1)
    } else {
        last_of_kind(stack.drop_last(), kind)
    }
}

/// A closing delimiter pairs with the last waiting opener of its kind: both
/// get sized and the opener stops waiting.
pub open spec fn close_pair(st: PairState, k: int, pos: int) -> PairState {
    PairState {
        stack: st.stack.remove(pos),
        marks: st.marks.update(st.stack[pos].1, 1).update(k, 2),
    }
}

pub open spec fn pair_step(st: PairState, tok: TokenSpec, k: int) -> PairState {
    if tok.protected {
        st
    } else {
        match tok.role {
            Some(DelimRole::Open(kind)) => PairState { stack: st.stack.push((kind, k)), marks: st.marks },
            Some(DelimRole::Close(kind)) => match last_of_kind(st.stack, kind) {
                Some(pos) => close_pair(st, k, pos),
                None => st,
            },
            Some(DelimRole::Symmetric(kind)) => match last_of_kind(st.stack, kind) {
                Some(pos) => close_pair(st, k, pos),
                None => PairState { stack: st.stack.push((kind, k)), marks: st.marks },
            },
            None => st,
        }
    }
}

/// The pairing state after the first `k` tokens.
pub open spec fn pair_state(toks: Seq<TokenSpec>, k: int) -> PairState
    decreases k,
{
    if k <= 0 {
        PairState { stack: Seq::empty(), marks: Seq::new(toks.len(), |i: int| 0int) }
    } else {
        pair_step(pair_state(toks, k - 1), toks[k - 1], k - 1)
    }
}

pub open spec fn mark_text(m: int) -> Seq<char> {
    if m == 1 {
        "\\left"@
    } else if m == 2 {
        "\\right"@
    } else {
        Seq::empty()
    }
}

/// The first `k` tokens written out, each with its sizing command in front.
pub open spec fn sized_text(toks: Seq<TokenSpec>, marks: Seq<int>, k: int) -> Seq<char>
    decreases k,
{
    if k <= 0 {
        Seq::empty()
    } else {
        sized_text(toks, marks, k - 1) + mark_text(marks[k - 1]) + toks[k - 1].text
    }
}

/// Display TeX with matching delimiters sized: each pair of an opening and
/// closing (or two symmetric) delimiters outside `\left`/`\right` and outside
/// `\sqrt`'s optional argument gets `\left` and `\right`.
pub open spec fn autosize(s: Seq<char>) -> Seq<char> {
    let toks = tokenize(s);
    sized_text(toks, pair_state(toks, toks.len() as int).marks, toks.len() as int)
}

pub proof fn lemma_pair_state_shape(toks: Seq<TokenSpec>, k: int)
    requires
        0 <= k <= toks.len(),
    ensures
        pair_state(toks, k).marks.len() == toks.len(),
        forall|j: int|
            0 <= j < pair_state(toks, k).stack.len() ==> 0 <= #[trigger] pair_state(
                toks,
                k,
            ).stack[j].1 < k,
    decreases k,
{
    if k > 0 {
        lemma_pair_state_shape(toks, k - 1);
        let st = pair_state(toks, k - 1);
        let tok = toks[k - 1];
        if !tok.protected {
            match tok.role {
                Some(DelimRole::Close(kind)) => {
                    lemma_last_of_kind(st.stack, kind);
                },
                Some(DelimRole::Symmetric(kind)) => {
                    lemma_last_of_kind(st.stack, kind);
                },
                _ => {},
            }
        }
        let nx = pair_state(toks, k);
        assert forall|j: int| 0 <= j < nx.stack.len() implies 0 <= #[trigger] nx.stack[j].1 < k by {
            if !tok.protected {
                match tok.role {
                    Some(DelimRole::Close(kind)) => {
                        match last_of_kind(st.stack, kind) {
                            Some(pos) => {
                                if j < pos {
                                    assert(nx.stack[j] == st.stack[j]);
                                } else {
                                    assert(nx.stack[j] == st.stack[j + 1]);
                                }
                            },
                            None => {},
                        }
                    },
                    Some(DelimRole::Symmetric(kind)) => {
                        match last_of_kind(st.stack, kind) {
                            Some(pos) => {
                                if j < pos {
                                    assert(nx.stack[j] == st.stack[j]);
                                } else {
                                    assert(nx.stack[j] == st.stack[j + 1]);
                                }
                            },
                            None => {
                                if j < st.stack.len() {
                                    assert(nx.stack[j] == st.stack[j]);
                                }
                            },
                        }
                    },
                    Some(DelimRole::Open(kind)) => {
                        if j < st.stack.len() {
                            assert(nx.stack[j] == st.stack[j]);
                        }
                    },
                    None => {},
                }
            }
        }
    }
}

pub proof fn lemma_last_of_kind(stack: Seq<(DelimKind, int)>, kind: DelimKind)
    ensures
        last_of_kind(stack, kind) matches Some(p) ==> 0 <= p < stack.len() && stack[p].0 == kind,
    decreases stack.len(),
{
    if stack.len() > 0 && stack.last().0 != kind {
        lemma_last_of_kind(stack.drop_last(), kind);
    }
}

/// How many of the marks are `v`.
pub open spec fn count_marks(m: Seq<int>, v: int) -> nat
    decreases m.len(),
{
    if m.len() == 0 {
        0
    } else {
        count_marks(m.drop_last(), v) + if m.last() == v {
            1nat
        } else {
            0nat
        }
    }
}

proof fn lemma_count_none(m: Seq<int>, v: int)
    requires
        forall|j: int| 0 <= j < m.len() ==> #[trigger] m[j] != v,
    ensures
        count_marks(m, v) == 0,
    decreases m.len(),
{
    if m.len() > 0 {
        assert forall|j: int| 0 <= j < m.drop_last().len() implies #[trigger] m.drop_last()[j] != v by {
            assert(m.drop_last()[j] == m[j]);
        }
        lemma_count_none(m.drop_last(), v);
    }
}

proof fn lemma_count_update(m: Seq<int>, i: int, x: int, v: int)
    requires
        0 <= i < m.len(),
    ensures
        count_marks(m.update(i, x), v) + (if m[i] == v {
            1int
        } else {
            0int
        }) == count_marks(m, v) + (if x == v {
            1int
        } else {
            0int
        }),
    decreases m.len(),
{
    let u = m.update(i, x);
    if i == m.len() - 1 {
        assert(u.drop_last() == m.drop_last());
    } else {
        lemma_count_update(m.drop_last(), i, x, v);
        assert(u.drop_last() == m.drop_last().update(i, x));
    }
}

/// What holds of the pairing after `k` tokens: marks are 0, 1 or 2; only
/// unprotected delimiters before `k` are marked; the waiting openers are
/// unprotected delimiters before `k`, unmarked, in increasing order; and
/// there are as many `\left` marks as `\right` marks.
pub open spec fn pair_inv(toks: Seq<TokenSpec>, st: PairState, k: int) -> bool {
    &&& st.marks.len() == toks.len()
    &&& forall|j: int|
        0 <= j < st.marks.len() ==> (#[trigger] st.marks[j] == 0 || st.marks[j] == 1 || st.marks[j]
            == 2)
    &&& forall|j: int|
        0 <= j < st.marks.len() && #[trigger] st.marks[j] != 0 ==> j < k && !toks[j].protected
            && toks[j].role is Some
    &&& forall|p: int|
        0 <= p < st.stack.len() ==> 0 <= (#[trigger] st.stack[p]).1 < k && st.marks[st.stack[p].1]
            == 0 && !toks[st.stack[p].1].protected && toks[st.stack[p].1].role is Some
    &&& forall|p: int, q: int|
        0 <= p < q < st.stack.len() ==> (#[trigger] st.stack[p]).1 < (#[trigger] st.stack[q]).1
    &&& count_marks(st.marks, 1) == count_marks(st.marks, 2)
}

proof fn lemma_close_pair_inv(toks: Seq<TokenSpec>, st: PairState, k: int, pos: int)
    requires
        pair_inv(toks, st, k),
        0 <= k < toks.len(),
        0 <= pos < st.stack.len(),
        !toks[k].protected,
        toks[k].role is Some,
    ensures
        pair_inv(toks, close_pair(st, k, pos), k + 1),
{
    let o = st.stack[pos].1;
    let m1 = st.marks.update(o, 1);
    let m2 = m1.update(k, 2);
    let nx = close_pair(st, k, pos);
    assert(st.marks[o] == 0);
    assert(st.marks[k] == 0) by {
        if st.marks[k] != 0 {
            assert(k < k);
        }
    }
    lemma_count_update(st.marks, o, 1, 1);
    lemma_count_update(st.marks, o, 1, 2);
    lemma_count_update(m1, k, 2, 1);
    lemma_count_update(m1, k, 2, 2);
    assert(m1[k] == 0);
    assert(nx.marks == m2);
    assert forall|j: int| 0 <= j < m2.len() && #[trigger] m2[j] != 0 implies j < k + 1
        && !toks[j].protected && toks[j].role is Some by {
        if j != k && j != o {
            assert(m2[j] == st.marks[j]);
        }
    }
    assert forall|j: int| 0 <= j < m2.len() implies (#[trigger] m2[j] == 0 || m2[j] == 1 || m2[j]
        == 2) by {
        if j != k && j != o {
            assert(m2[j] == st.marks[j]);
        }
    }
    let ns = st.stack.remove(pos);
    assert(nx.stack == ns);
    assert forall|p: int| 0 <= p < ns.len() implies 0 <= (#[trigger] ns[p]).1 < k + 1 && m2[ns[p].1]
        == 0 && !toks[ns[p].1].protected && toks[ns[p].1].role is Some by {
        if p < pos {
            assert(ns[p] == st.stack[p]);
            assert(st.stack[p].1 < st.stack[pos].1);
        } else {
            assert(ns[p] == st.stack[p + 1]);
            assert(st.stack[pos].1 < st.stack[p + 1].1);
        }
    }
    assert forall|p: int, q: int| 0 <= p < q < ns.len() implies (#[trigger] ns[p]).1 < (
    #[trigger] ns[q]).1 by {
        let pp = if p < pos {
            p
        } else {
            p + 1
        };
        let qq = if q < pos {
            q
        } else {
            q + 1
        };
        assert(ns[p] == st.stack[pp]);
        assert(ns[q] == st.stack[qq]);
        assert(st.stack[pp].1 < st.stack[qq].1);
    }
}

proof fn lemma_pair_inv(toks: Seq<TokenSpec>, k: int)
    requires
        0 <= k <= toks.len(),
    ensures
        pair_inv(toks, pair_state(toks, k), k),
    decreases k,
{
    if k == 0 {
        let m = pair_state(toks, 0).marks;
        lemma_count_none(m, 1);
        lemma_count_none(m, 2);
    } else {
        lemma_pair_inv(toks, k - 1);
        let st = pair_state(toks, k - 1);
        let tok = toks[k - 1];
        let i = k - 1;
        if !tok.protected {
            match tok.role {
                Some(DelimRole::Open(kind)) => {
                    let ns = st.stack.push((kind, i));
                    assert(st.marks[i] == 0) by {
                        if st.marks[i] != 0 {
                            assert(i < i);
                        }
                    }
                    assert forall|p: int| 0 <= p < ns.len() implies 0 <= (#[trigger] ns[p]).1 < k
                        && st.marks[ns[p].1] == 0 && !toks[ns[p].1].protected && toks[ns[p].1].role is Some by {
                        if p < st.stack.len() {
                            assert(ns[p] == st.stack[p]);
                        }
                    }
                    assert forall|p: int, q: int| 0 <= p < q < ns.len() implies (#[trigger] ns[p]).1 < (
                    #[trigger] ns[q]).1 by {
                        assert(ns[p] == st.stack[p]);
                        if q < st.stack.len() {
                            assert(ns[q] == st.stack[q]);
                        }
                    }
                },
                Some(DelimRole::Close(kind)) => {
                    lemma_last_of_kind(st.stack, kind);
                    match last_of_kind(st.stack, kind) {
                        Some(pos) => {
                            lemma_close_pair_inv(toks, st, i, pos);
                        },
                        None => {},
                    }
                },
                Some(DelimRole::Symmetric(kind)) => {
                    lemma_last_of_kind(st.stack, kind);
                    match last_of_kind(st.stack, kind) {
                        Some(pos) => {
                            lemma_close_pair_inv(toks, st, i, pos);
                        },
                        None => {
                            let ns = st.stack.push((kind, i));
                            assert(st.marks[i] == 0) by {
                                if st.marks[i] != 0 {
                                    assert(i < i);
                                }
                            }
                            assert forall|p: int| 0 <= p < ns.len() implies 0 <= (#[trigger] ns[p]).1
                                < k && st.marks[ns[p].1] == 0 && !toks[ns[p].1].protected
                                && toks[ns[p].1].role is Some by {
                                if p < st.stack.len() {
                                    assert(ns[p] == st.stack[p]);
                                }
                            }
                            assert forall|p: int, q: int| 0 <= p < q < ns.len() implies (
                            #[trigger] ns[p]).1 < (#[trigger] ns[q]).1 by {
                                assert(ns[p] == st.stack[p]);
                                if q < st.stack.len() {
                                    assert(ns[q] == st.stack[q]);
                                }
                            }
                        },
                    }
                },
                None => {},
            }
        }
    }
}

/// The sizing marks of a TeX text's tokens.
pub open spec fn final_marks(s: Seq<char>) -> Seq<int> {
    pair_state(tokenize(s), tokenize(s).len() as int).marks
}

/// Sizing writes each token with nothing, `\left` or `\right` in front;
/// only delimiters outside `\left`/`\right` and outside `\sqrt`'s optional
/// argument get one; and `\left` and `\right` are added equally often.
pub proof fn law_autosize_balanced(s: Seq<char>)
    ensures
        final_marks(s).len() == tokenize(s).len(),
        autosize(s) == sized_text(tokenize(s), final_marks(s), tokenize(s).len() as int),
        forall|j: int|
            0 <= j < final_marks(s).len() ==> (#[trigger] final_marks(s)[j] == 0 || final_marks(s)[j]
                == 1 || final_marks(s)[j] == 2),
        forall|j: int|
            0 <= j < final_marks(s).len() && #[trigger] final_marks(s)[j] != 0 ==> !tokenize(
                s,
            )[j].protected && tokenize(s)[j].role is Some,
        count_marks(final_marks(s), 1) == count_marks(final_marks(s), 2),
{
    lemma_pair_inv(tokenize(s), tokenize(s).len() as int);
}

fn last_of_kind_of(stack: &Vec<(DelimKind, usize)>, kind: DelimKind) -> (res: Option<usize>)
    ensures
        match res {
            Some(p) => last_of_kind(stack_view(stack@), kind) == Some(p as int),
            None => last_of_kind(stack_view(stack@), kind) is None,
        },
{
    let ghost sv = stack_view(stack@);
    let mut n = stack.len();
    assert(sv.take(n as int) == sv);
    while n > 0
        invariant
            sv == stack_view(stack@),
            n <= stack.len(),
            last_of_kind(sv.take(n as int), kind) == last_of_kind(sv, kind),
        decreases n,
    {
        let ghost pre = sv.take(n as int);
        assert(pre.last() == sv[n - 1]);
        assert(pre.drop_last() == sv.take(n - 1));
        if stack[n - 1].0 == kind {
            return Some(n - 1);
        }
        n -= 1;
    }
    None
}

pub open spec fn stack_view(v: Seq<(DelimKind, usize)>) -> Seq<(DelimKind, int)> {
    Seq::new(v.len(), |k: int| (v[k].0, v[k].1 as int))
}

pub open spec fn marks_view(v: Seq<u8>) -> Seq<int> {
    Seq::new(v.len(), |k: int| v[k] as int)
}

fn mark_text_of(m: u8) -> (res: Vec<char>)
    ensures
        res@ == mark_text(m as int),
{
    if m == 1 {
        chars_of("\\left")
    } else if m == 2 {
        chars_of("\\right")
    } else {
        Vec::new()
    }
}

/// Display TeX with matching delimiters sized (see `autosize`).
pub fn autosize_display_delimiters(s: &Vec<char>) -> (res: Vec<char>)
    ensures
        res@ == autosize(s@),
{
    let tokens = tokenize_tex(s);
    let ghost toks = tokens_view(tokens@);
    let n = tokens.len();
    let mut stack: Vec<(DelimKind, usize)> = Vec::new();
    let mut marks: Vec<u8> = Vec::new();
    let mut z: usize = 0;
    while z < n
        invariant
            n == tokens.len(),
            z <= n,
            marks@.len() == z,
            forall|j: int| 0 <= j < z ==> marks@[j] == 0,
        decreases n - z,
    {
        marks.push(0);
        z += 1;
    }
    assert(marks_view(marks@) =~= pair_state(toks, 0).marks);
    let mut i: usize = 0;
    while i < n
        invariant
            n == tokens.len(),
            toks == tokens_view(tokens@),
            i <= n,
            stack_view(stack@) == pair_state(toks, i as int).stack,
            marks_view(marks@) == pair_state(toks, i as int).marks,
        decreases n - i,
    {
        proof {
            lemma_pair_state_shape(toks, i as int);
        }
        let ghost st = pair_state(toks, i as int);
        assert(toks[i as int] == tokens[i as int].view());
        let tok = &tokens[i];
        if !tok.protected {
            match tok.role {
                Some(DelimRole::Open(kind)) => {
                    stack.push((kind, i));
                    assert(stack_view(stack@) =~= st.stack.push((kind, i as int)));
                },
                Some(DelimRole::Close(kind)) => {
                    if let Some(pos) = last_of_kind_of(&stack, kind) {
                        proof {
                            lemma_last_of_kind(st.stack, kind);
                        }
                        let (_, open_index) = stack.remove(pos);
                        assert(0 <= open_index < i);
                        marks.set(open_index, 1);
                        marks.set(i, 2);
                        assert(stack_view(stack@) =~= st.stack.remove(pos as int));
                        assert(marks_view(marks@) =~= st.marks.update(open_index as int, 1).update(
                            i as int,
                            2,
                        ));
                    }
                },
                Some(DelimRole::Symmetric(kind)) => {
                    if let Some(pos) = last_of_kind_of(&stack, kind) {
                        proof {
                            lemma_last_of_kind(st.stack, kind);
                        }
                        let (_, open_index) = stack.remove(pos);
                        assert(0 <= open_index < i);
                        marks.set(open_index, 1);
                        marks.set(i, 2);
                        assert(stack_view(stack@) =~= st.stack.remove(pos as int));
                        assert(marks_view(marks@) =~= st.marks.update(open_index as int, 1).update(
                            i as int,
                            2,
                        ));
                    } else {
                        stack.push((kind, i));
                        assert(stack_view(stack@) =~= st.stack.push((kind, i as int)));
                    }
                },
                None => {},
            }
        }
        i += 1;
    }
    let ghost final_marks = pair_state(toks, n as int).marks;
    proof {
        lemma_pair_state_shape(toks, n as int);
    }
    let mut out: Vec<char> = Vec::new();
    let mut k: usize = 0;
    while k < n
        invariant
            n == tokens.len(),
            toks == tokens_view(tokens@),
            final_marks == marks_view(marks@),
            marks@.len() == n,
            k <= n,
            out@ == sized_text(toks, final_marks, k as int),
        decreases n - k,
    {
        let m = mark_text_of(marks[k]);
        push_all(&mut out, &m);
        assert(toks[k as int] == tokens[k as int].view());
        push_all(&mut out, &tokens[k].text);
        k += 1;
    }
    out
}

/// Display TeX: delimiters sized and `\displaystyle` in front, unless the
/// text is blank or already starts with `\displaystyle`.
pub open spec fn display_tex(input: Seq<char>) -> Seq<char> {
    let sized = autosize(text::trim(input));
    if text::is_blank(sized) || text::starts_with(text::trim_start(sized), "\\displaystyle"@) {
        sized
    } else {
        "\\displaystyle "@ + sized
    }
}

pub fn display_tex_of(input: &Vec<char>) -> (res: Vec<char>)
    ensures
        res@ == display_tex(input@),
{
    let sized = autosize_display_delimiters(&trim_of(input));
    if is_blank_of(&sized) || has_prefix(&trim_start_of(&sized), "\\displaystyle") {
        sized
    } else {
        let mut out = chars_of("\\displaystyle ");
        push_all(&mut out, &sized);
        out
    }
}

} // verus!
