//! Math rendering modes and the assets each mode needs in the page.
use vstd::prelude::*;
use crate::text;
use crate::scan;
use crate::convert;
use crate::delims;
use crate::markup;
use crate::patterns;
use crate::text::{chars_of, eq_str, push_all, push_str, string_of, trim_of, is_blank_of, replace_str, collapse_ws_of};
use crate::patterns::{captures_all, split_all, group_of, interleave_of, first_replaced_of, captures_view, groups_view, strings_view};
use crate::markup::{attr_value_of, has_word_of, escape_html_of};
use crate::convert::convert_expr;
use crate::delims::display_tex_of;
use crate::scan::first_call_name_of;

verus! {

/// How math reaches the page: Typst's own SVG, or KaTeX source that the
/// browser typesets.
#[derive(Clone, Copy, Debug, PartialEq, Eq, Structural)]
pub enum MathMode {
    Svg,
    Katex,
}

/// The KaTeX stylesheet link placed in the page head.
pub const KATEX_HEAD: &'static str = r#"  <link rel="stylesheet" href="https://cdn.jsdelivr.net/npm/katex@0.16.22/dist/katex.min.css">
"#;

/// The KaTeX scripts placed at the end of the page head.
pub const KATEX_SCRIPTS: &'static str = r#"  <script defer src="https://cdn.jsdelivr.net/npm/katex@0.16.22/dist/katex.min.js"></script>
  <script defer src="https://cdn.jsdelivr.net/npm/katex@0.16.22/dist/contrib/auto-render.min.js" onload="renderMathInElement(document.body,{delimiters:[{left:'\\[',right:'\\]',display:true},{left:'\\(',right:'\\)',display:false}],throwOnError:false,strict:'warn'});requestAnimationFrame(window.markOverwideEquations || function(){});"></script>
"#;

/// The name by which a mode is selected and handed to Typst.
pub open spec fn mode_name(mode: MathMode) -> Seq<char> {
    match mode {
        MathMode::Svg => "svg"@,
        MathMode::Katex => "katex"@,
    }
}

/// The message for a mode name that is neither `svg` nor `katex`.
pub open spec fn unknown_mode_message(value: Seq<char>) -> Seq<char> {
    "unknown math mode `"@ + value + "`; expected `svg` or `katex`"@
}

impl MathMode {
    /// Reads a mode name: `svg` or `katex`, nothing else.
    pub fn parse(value: &str) -> (res: Result<Self, String>)
        ensures
            value@ == "svg"@ ==> res == Ok::<MathMode, String>(MathMode::Svg),
            value@ == "katex"@ ==> res == Ok::<MathMode, String>(MathMode::Katex),
            value@ != "svg"@ && value@ != "katex"@ ==> (res matches Err(e) && e@
                == unknown_mode_message(value@)),
    {
        proof {
            law_mode_name_round_trip(MathMode::Svg);
        }
        let v = chars_of(value);
        if eq_str(&v, "svg") {
            Ok(MathMode::Svg)
        } else if eq_str(&v, "katex") {
            Ok(MathMode::Katex)
        } else {
            let mut msg: Vec<char> = Vec::new();
            push_str(&mut msg, "unknown math mode `");
            push_str(&mut msg, value);
            push_str(&mut msg, "`; expected `svg` or `katex`");
            Err(string_of(&msg))
        }
    }

    /// The mode's name, as Typst receives it in the `html-math` input.
    pub fn as_typst_input(self) -> (res: &'static str)
        ensures
            res@ == mode_name(self),
    {
        match self {
            MathMode::Svg => "svg",
            MathMode::Katex => "katex",
        }
    }
}

/// Reading back the name of a mode gives the mode.
pub proof fn law_mode_name_round_trip(mode: MathMode)
    ensures
        mode_name(mode) == "svg"@ ==> mode == MathMode::Svg,
        mode_name(mode) == "katex"@ ==> mode == MathMode::Katex,
        mode_name(MathMode::Svg) != mode_name(MathMode::Katex),
{
    reveal_strlit("svg");
    reveal_strlit("katex");
    assert("svg"@.len() == 3);
    assert("katex"@.len() == 5);
}

/// What the page head needs for the mode: nothing for SVG, the KaTeX
/// stylesheet for KaTeX.
pub fn katex_head_assets(mode: MathMode) -> (res: &'static str)
    ensures
        mode == MathMode::Svg ==> res@ == ""@,
        mode == MathMode::Katex ==> res@ == KATEX_HEAD@,
{
    match mode {
        MathMode::Svg => "",
        MathMode::Katex => KATEX_HEAD,
    }
}

/// The scripts the mode needs: nothing for SVG, KaTeX and its auto-render
/// extension for KaTeX.
pub fn katex_script_assets(mode: MathMode) -> (res: &'static str)
    ensures
        mode == MathMode::Svg ==> res@ == ""@,
        mode == MathMode::Katex ==> res@ == KATEX_SCRIPTS@,
{
    match mode {
        MathMode::Svg => "",
        MathMode::Katex => KATEX_SCRIPTS,
    }
}


// ---------------------------------------------------------------------------
// Typst repr to KaTeX
// ---------------------------------------------------------------------------

/// KaTeX for Typst's repr of a math element: converted, whitespace collapsed
/// to single spaces and trimmed, and a split `arg max`/`arg min` joined into
/// one operator.
pub fn typst_repr_to_katex(input: &str) -> (res: String)
    ensures
        res@ == convert::repr_to_katex(input@),
{
    proof {
        reveal_strlit("\\operatorname{arg} \\operatorname*{max}");
        reveal_strlit("\\operatorname{arg} \\operatorname*{min}");
    }
    let v = chars_of(input);
    let converted = convert_expr(&trim_of(&v));
    let spaced = collapse_ws_of(&converted);
    let a = replace_str(
        &spaced,
        "\\operatorname{arg} \\operatorname*{max}",
        "\\operatorname*{arg\\,max}",
    );
    let b = replace_str(&a, "\\operatorname{arg} \\operatorname*{min}", "\\operatorname*{arg\\,min}");
    string_of(&b)
}

// ---------------------------------------------------------------------------
// Math spans in the exported HTML
// ---------------------------------------------------------------------------

/// A `<span>` carrying a `data-typst-math` attribute, with its content; the
/// first group is the span's attributes.
pub const MATH_SPAN_PATTERN: &'static str = r#"(?s)<span(?P<attrs>[^>]*\bdata-typst-math="[^"]*"[^>]*)>.*?</span>"#;

/// A `class` attribute after whitespace; the first group is its value.
pub const SPACED_CLASS_PATTERN: &'static str = r#"\sclass="([^"]*)""#;

/// Attributes with one more class: added to an existing `class` attribute,
/// or a new `class` attribute in front. When the class pattern does not
/// compile, the attributes are treated as having no class attribute.
pub open spec fn add_class_spaced(attrs: Seq<char>, class: Seq<char>) -> Seq<char> {
    let p = SPACED_CLASS_PATTERN@;
    match (patterns::regex_split(p, attrs), patterns::regex_captures(p, attrs)) {
        (Some(pieces), Some(caps)) => if caps.len() > 0 {
            patterns::interleave(
                pieces,
                patterns::first_replaced(
                    caps,
                    " class=\""@ + patterns::group(caps[0], 1) + " "@ + class + "\""@,
                ),
            )
        } else {
            " class=\""@ + class + "\""@ + attrs
        },
        _ => " class=\""@ + class + "\""@ + attrs,
    }
}

pub fn add_class_spaced_of(attrs: &Vec<char>, class: &str) -> (res: Vec<char>)
    ensures
        res@ == add_class_spaced(attrs@, class@),
{
    let text = string_of(attrs);
    let pieces = split_all(SPACED_CLASS_PATTERN, text.as_str());
    let caps = captures_all(SPACED_CLASS_PATTERN, text.as_str());
    if let (Some(pieces), Some(caps)) = (pieces, caps) {
        if caps.len() > 0 {
            assert(captures_view(caps@)[0] == groups_view(caps@[0]@));
            let mut first = chars_of(" class=\"");
            push_all(&mut first, &group_of(&caps[0], 1));
            push_str(&mut first, " ");
            push_str(&mut first, class);
            push_str(&mut first, "\"");
            let reps = first_replaced_of(&caps, first);
            return interleave_of(&pieces, &reps);
        }
    }
    let mut out = chars_of(" class=\"");
    push_str(&mut out, class);
    push_str(&mut out, "\"");
    push_all(&mut out, attrs);
    out
}

/// Whether the attributes' class list marks a piece of a display equation.
pub open spec fn is_equation_math_attrs(attrs: Seq<char>) -> bool {
    match markup::attr_value(attrs, "class"@) {
        Some(classes) => markup::has_word(classes, "equation-math"@) || markup::has_word(
            classes,
            "equation-align-left"@,
        ) || markup::has_word(classes, "equation-align-right"@) || markup::has_word(
            classes,
            "equation-align-full"@,
        ),
        None => false,
    }
}

pub fn is_equation_math_attrs_of(attrs: &Vec<char>) -> (res: bool)
    ensures
        res == is_equation_math_attrs(attrs@),
{
    match attr_value_of(attrs, "class") {
        Some(classes) => has_word_of(&classes, "equation-math") || has_word_of(
            &classes,
            "equation-align-left",
        ) || has_word_of(&classes, "equation-align-right") || has_word_of(
            &classes,
            "equation-align-full",
        ),
        None => false,
    }
}

/// Math that is empty on purpose: nothing, `none`, `..` or `[]`.
pub open spec fn is_intentionally_empty_math_repr(repr: Seq<char>) -> bool {
    let t = text::trim(repr);
    t.len() == 0 || t == "none"@ || t == ".."@ || t == "[]"@
}

pub fn is_intentionally_empty_math_repr_of(repr: &Vec<char>) -> (res: bool)
    ensures
        res == is_intentionally_empty_math_repr(repr@),
{
    let t = trim_of(repr);
    t.len() == 0 || eq_str(&t, "none") || eq_str(&t, "..") || eq_str(&t, "[]")
}

/// The KaTeX for a math span, before delimiters: the span's own
/// `data-katex`, or its Typst repr converted; a visible placeholder naming
/// the construct when non-empty math converts to nothing.
pub open spec fn span_tex(attrs: Seq<char>) -> Seq<char> {
    let repr = match markup::attr_value(attrs, "data-typst-math"@) {
        Some(r) => r,
        None => Seq::empty(),
    };
    let tex = match markup::attr_value(attrs, "data-katex"@) {
        Some(e) => e,
        None => convert::repr_to_katex(repr),
    };
    if text::is_blank(tex) && !is_intentionally_empty_math_repr(repr) {
        let label = match scan::first_call_name(repr) {
            Some(n) => n,
            None => "unknown"@,
        };
        "\\text{[unsupported math: "@ + label + "]}"@
    } else {
        tex
    }
}

pub open spec fn is_display(attrs: Seq<char>) -> bool {
    markup::attr_value(attrs, "data-math-display"@) == Some("block"@)
}

/// The KaTeX source a math span shows: display math (and pieces of display
/// equations) sized and in display style; display math in `\[..\]`, inline
/// math in `\(..\)`, nothing for empty math.
pub open spec fn span_source(attrs: Seq<char>) -> Seq<char> {
    let display = is_display(attrs);
    let tex = if display || is_equation_math_attrs(attrs) {
        delims::display_tex(span_tex(attrs))
    } else {
        span_tex(attrs)
    };
    let trimmed = text::trim(tex);
    if trimmed.len() == 0 {
        Seq::empty()
    } else if display {
        "\\["@ + trimmed + "\\]"@
    } else {
        "\\("@ + trimmed + "\\)"@
    }
}

/// A math span rewritten to carry its KaTeX source, escaped, in place of
/// Typst's rendering, marked with the `math-katex-source` class.
pub open spec fn katex_span(attrs: Seq<char>) -> Seq<char> {
    "<span"@ + add_class_spaced(attrs, "math-katex-source"@) + ">"@ + markup::escape_html(
        span_source(attrs),
    ) + "</span>"@
}

/// A rewritten math span holds its KaTeX source as HTML text: between the
/// opening tag (its attributes with the source class) and the closing tag
/// stands text with no `<` or `>`, which decodes to the source.
pub proof fn law_katex_span_holds_source(attrs: Seq<char>)
    ensures
        exists|body: Seq<char>|
            katex_span(attrs) == "<span"@ + add_class_spaced(attrs, "math-katex-source"@) + ">"@ + body
                + "</span>"@ && #[trigger] markup::decode_attr(body) == span_source(attrs) && forall|k: int|
                0 <= k < body.len() ==> body[k] != '<' && body[k] != '>',
{
    let body = markup::escape_html(span_source(attrs));
    markup::law_decode_undoes_html_escape(span_source(attrs));
    markup::law_escape_html_has_no_markup(span_source(attrs));
    assert(markup::decode_attr(body) == span_source(attrs));
}

/// The construct a math span names when its non-empty math converts to
/// nothing (the label of its placeholder, see `span_tex`).
pub open spec fn unsupported_label(attrs: Seq<char>) -> Option<Seq<char>> {
    let repr = match markup::attr_value(attrs, "data-typst-math"@) {
        Some(r) => r,
        None => Seq::empty(),
    };
    let tex = match markup::attr_value(attrs, "data-katex"@) {
        Some(e) => e,
        None => convert::repr_to_katex(repr),
    };
    if text::is_blank(tex) && !is_intentionally_empty_math_repr(repr) {
        Some(
            match scan::first_call_name(repr) {
                Some(n) => n,
                None => "unknown"@,
            },
        )
    } else {
        None
    }
}

/// The labels of the first `n` math spans that get a placeholder.
pub open spec fn labels_of(caps: Seq<Seq<Option<Seq<char>>>>, n: nat) -> Seq<Seq<char>>
    decreases n,
{
    if n == 0 || n > caps.len() {
        Seq::empty()
    } else {
        labels_of(caps, (n - 1) as nat) + match unsupported_label(patterns::group(caps[n - 1], 1)) {
            Some(l) => seq![l],
            None => Seq::empty(),
        }
    }
}

/// The constructs that the mode leaves unconverted in the HTML, in order:
/// none for SVG; for KaTeX the label of each math span that gets a
/// placeholder (when the span pattern does not compile, none).
pub open spec fn unsupported_labels(mode: MathMode, html: Seq<char>) -> Seq<Seq<char>> {
    let p = MATH_SPAN_PATTERN@;
    match mode {
        MathMode::Svg => Seq::empty(),
        MathMode::Katex => match (patterns::regex_split(p, html), patterns::regex_captures(p, html)) {
            (Some(pieces), Some(caps)) => labels_of(caps, caps.len()),
            _ => Seq::empty(),
        },
    }
}

fn unsupported_label_of(attrs: &Vec<char>) -> (res: Option<Vec<char>>)
    ensures
        match res {
            Some(l) => unsupported_label(attrs@) == Some(l@),
            None => unsupported_label(attrs@) is None,
        },
{
    let repr = match attr_value_of(attrs, "data-typst-math") {
        Some(r) => r,
        None => Vec::new(),
    };
    let tex = match attr_value_of(attrs, "data-katex") {
        Some(e) => e,
        None => {
            let r = string_of(&repr);
            chars_of(typst_repr_to_katex(r.as_str()).as_str())
        },
    };
    if is_blank_of(&tex) && !is_intentionally_empty_math_repr_of(&repr) {
        Some(
            match first_call_name_of(&repr) {
                Some(n) => n,
                None => chars_of("unknown"),
            },
        )
    } else {
        None
    }
}

/// The constructs that `postprocess_html_math` leaves unconverted in the
/// HTML, each named once per span, in order, for a warning.
pub fn unsupported_math_labels(html: &str, mode: MathMode) -> (res: Vec<String>)
    ensures
        patterns::strings_view(res@) == unsupported_labels(mode, html@),
{
    let mut out: Vec<String> = Vec::new();
    if mode == MathMode::Svg {
        return out;
    }
    match patterns::matches_of(MATH_SPAN_PATTERN, html) {
        Some((_pieces, caps)) => {
            let ghost cv = captures_view(caps@);
            let mut k: usize = 0;
            while k < caps.len()
                invariant
                    cv == captures_view(caps@),
                    k <= caps.len(),
                    patterns::strings_view(out@) == labels_of(cv, k as nat),
                decreases caps.len() - k,
            {
                assert(cv[k as int] == groups_view(caps@[k as int]@));
                let ghost before = patterns::strings_view(out@);
                match unsupported_label_of(&group_of(&caps[k], 1)) {
                    Some(l) => {
                        out.push(string_of(&l));
                        assert(patterns::strings_view(out@) =~= before + seq![l@]);
                    },
                    None => {
                        assert(patterns::strings_view(out@) =~= before + Seq::<Seq<char>>::empty());
                    },
                }
                k += 1;
            }
        },
        None => {},
    }
    out
}

/// Every math span of the HTML rewritten as `katex_span`; the HTML unchanged
/// when the span pattern does not compile.
pub open spec fn render_katex(html: Seq<char>) -> Seq<char> {
    let p = MATH_SPAN_PATTERN@;
    match (patterns::regex_split(p, html), patterns::regex_captures(p, html)) {
        (Some(pieces), Some(caps)) => patterns::interleave(
            pieces,
            Seq::new(caps.len(), |k: int| katex_span(patterns::group(caps[k], 1))),
        ),
        _ => html,
    }
}

fn span_tex_of(attrs: &Vec<char>) -> (res: Vec<char>)
    ensures
        res@ == span_tex(attrs@),
{
    let repr = match attr_value_of(attrs, "data-typst-math") {
        Some(r) => r,
        None => Vec::new(),
    };
    let tex = match attr_value_of(attrs, "data-katex") {
        Some(e) => e,
        None => {
            let r = string_of(&repr);
            chars_of(typst_repr_to_katex(r.as_str()).as_str())
        },
    };
    if is_blank_of(&tex) && !is_intentionally_empty_math_repr_of(&repr) {
        let label = match first_call_name_of(&repr) {
            Some(n) => n,
            None => chars_of("unknown"),
        };
        let mut out = chars_of("\\text{[unsupported math: ");
        push_all(&mut out, &label);
        push_str(&mut out, "]}");
        out
    } else {
        tex
    }
}

fn katex_span_of(attrs: &Vec<char>) -> (res: Vec<char>)
    ensures
        res@ == katex_span(attrs@),
{
    let display = match attr_value_of(attrs, "data-math-display") {
        Some(v) => eq_str(&v, "block"),
        None => false,
    };
    let base = span_tex_of(attrs);
    let tex = if display || is_equation_math_attrs_of(attrs) {
        display_tex_of(&base)
    } else {
        base
    };
    let trimmed = trim_of(&tex);
    let source = if trimmed.len() == 0 {
        Vec::new()
    } else if display {
        let mut s = chars_of("\\[");
        push_all(&mut s, &trimmed);
        push_str(&mut s, "\\]");
        s
    } else {
        let mut s = chars_of("\\(");
        push_all(&mut s, &trimmed);
        push_str(&mut s, "\\)");
        s
    };
    let mut out = chars_of("<span");
    push_all(&mut out, &add_class_spaced_of(attrs, "math-katex-source"));
    push_str(&mut out, ">");
    push_all(&mut out, &escape_html_of(&source));
    push_str(&mut out, "</span>");
    out
}

fn render_katex_sources(html: &str) -> (res: String)
    ensures
        res@ == render_katex(html@),
        patterns::regex_captures(MATH_SPAN_PATTERN@, html@) == Some(Seq::<Seq<Option<Seq<char>>>>::empty())
            ==> res@ == html@,
{
    let pieces = split_all(MATH_SPAN_PATTERN, html);
    let caps = captures_all(MATH_SPAN_PATTERN, html);
    if let (Some(pieces), Some(caps)) = (pieces, caps) {
        let ghost cv = captures_view(caps@);
        let mut reps: Vec<Vec<char>> = Vec::new();
        let mut k: usize = 0;
        while k < caps.len()
            invariant
                cv == captures_view(caps@),
                k <= caps.len(),
                text::vecs_view(reps@) =~= Seq::new(
                    k as nat,
                    |j: int| katex_span(patterns::group(cv[j], 1)),
                ),
            decreases caps.len() - k,
        {
            assert(cv[k as int] == groups_view(caps@[k as int]@));
            let r = katex_span_of(&group_of(&caps[k], 1));
            let ghost before = text::vecs_view(reps@);
            reps.push(r);
            assert(text::vecs_view(reps@) =~= before.push(r@));
            k += 1;
        }
        proof {
            if cv.len() == 0 {
                assert(text::vecs_view(reps@) =~= Seq::new(0nat, |j: int| patterns::group(cv[j], 0)));
            }
        }
        let out = interleave_of(&pieces, &reps);
        string_of(&out)
    } else {
        html.to_owned()
    }
}

/// The HTML's math for the mode: as Typst rendered it for SVG; each math
/// span rewritten to its KaTeX source for KaTeX.
pub fn postprocess_html_math(body: String, mode: MathMode) -> (res: String)
    ensures
        mode == MathMode::Svg ==> res@ == body@,
        mode == MathMode::Katex ==> res@ == render_katex(body@),
        patterns::regex_captures(MATH_SPAN_PATTERN@, body@) == Some(Seq::<Seq<Option<Seq<char>>>>::empty())
            ==> res@ == body@,
{
    match mode {
        MathMode::Svg => body,
        MathMode::Katex => render_katex_sources(body.as_str()),
    }
}


/// Display TeX: matching delimiters sized with `\left`/`\right`, and
/// `\displaystyle` in front unless the text is blank or already has it.
pub fn prepare_display_tex(input: &str) -> (res: String)
    ensures
        res@ == delims::display_tex(input@),
{
    string_of(&display_tex_of(&chars_of(input)))
}

// ---------------------------------------------------------------------------
// Math in bibliography entries
// ---------------------------------------------------------------------------

/// `$..$` TeX math in bibliography text; the first group is the TeX.
pub const TEX_MATH_PATTERN: &'static str = r#"\$([^$<>]+)\$"#;

/// The TeX macros that bibliography entries use, with the character each
/// stands for.
pub open spec fn tex_macros() -> Seq<(Seq<char>, Seq<char>)> {
    seq![
        ("\\Phi"@, "Φ"@),
        ("\\phi"@, "φ"@),
        ("\\epsilon"@, "ε"@),
        ("\\varepsilon"@, "ε"@),
        ("\\Delta"@, "Δ"@),
        ("\\Gamma"@, "Γ"@),
        ("\\Omega"@, "Ω"@),
        ("\\Theta"@, "Θ"@),
        ("\\alpha"@, "α"@),
        ("\\beta"@, "β"@),
        ("\\lambda"@, "λ"@),
        ("\\mu"@, "μ"@),
    ]
}

fn tex_macro_table() -> (res: Vec<(Vec<char>, Vec<char>)>)
    ensures
        res@.len() == tex_macros().len(),
        forall|k: int|
            0 <= k < res@.len() ==> (#[trigger] res@[k]).0@ == tex_macros()[k].0 && res@[k].1@
                == tex_macros()[k].1 && res@[k].0@.len() > 0,
{
    proof {
        reveal_strlit("\\Phi");
        reveal_strlit("\\phi");
        reveal_strlit("\\epsilon");
        reveal_strlit("\\varepsilon");
        reveal_strlit("\\Delta");
        reveal_strlit("\\Gamma");
        reveal_strlit("\\Omega");
        reveal_strlit("\\Theta");
        reveal_strlit("\\alpha");
        reveal_strlit("\\beta");
        reveal_strlit("\\lambda");
        reveal_strlit("\\mu");
    }
    let mut t: Vec<(Vec<char>, Vec<char>)> = Vec::new();
    t.push((chars_of("\\Phi"), chars_of("Φ")));
    t.push((chars_of("\\phi"), chars_of("φ")));
    t.push((chars_of("\\epsilon"), chars_of("ε")));
    t.push((chars_of("\\varepsilon"), chars_of("ε")));
    t.push((chars_of("\\Delta"), chars_of("Δ")));
    t.push((chars_of("\\Gamma"), chars_of("Γ")));
    t.push((chars_of("\\Omega"), chars_of("Ω")));
    t.push((chars_of("\\Theta"), chars_of("Θ")));
    t.push((chars_of("\\alpha"), chars_of("α")));
    t.push((chars_of("\\beta"), chars_of("β")));
    t.push((chars_of("\\lambda"), chars_of("λ")));
    t.push((chars_of("\\mu"), chars_of("μ")));
    t
}

/// The bibliography-math wrapper around a piece of text.
pub open spec fn bib_math_span(inner: Seq<char>) -> Seq<char> {
    "<span class=\"bib-math\">"@ + inner + "</span>"@
}

/// The first `k` macros of the table replaced in order, each by its
/// character, or by its character in a bibliography-math span.
pub open spec fn macros_replaced(s: Seq<char>, k: int, wrap: bool) -> Seq<char>
    decreases k,
{
    if k <= 0 {
        s
    } else {
        let m = tex_macros()[k - 1];
        text::replace(
            macros_replaced(s, k - 1, wrap),
            m.0,
            if wrap {
                bib_math_span(markup::escape_html(m.1))
            } else {
                m.1
            },
        )
    }
}

fn macros_replaced_of(s: &Vec<char>, wrap: bool) -> (res: Vec<char>)
    ensures
        res@ == macros_replaced(s@, tex_macros().len() as int, wrap),
{
    let table = tex_macro_table();
    let mut out = s.clone();
    let mut k: usize = 0;
    while k < table.len()
        invariant
            table@.len() == tex_macros().len(),
            forall|j: int|
                0 <= j < table@.len() ==> (#[trigger] table@[j]).0@ == tex_macros()[j].0
                    && table@[j].1@ == tex_macros()[j].1 && table@[j].0@.len() > 0,
            k <= table.len(),
            out@ == macros_replaced(s@, k as int, wrap),
        decreases table.len() - k,
    {
        let entry = &table[k];
        assert(table@[k as int] == *entry);
        let to = if wrap {
            let mut w = chars_of("<span class=\"bib-math\">");
            push_all(&mut w, &escape_html_of(&entry.1));
            push_str(&mut w, "</span>");
            w
        } else {
            entry.1.clone()
        };
        out = text::replace_in(&out, &entry.0, &to);
        k += 1;
    }
    out
}

/// TeX math of a bibliography entry as text: `Phi` alone is the letter,
/// known macros become their characters, `\/` becomes `/`.
pub open spec fn normalize_tex_math_fragment(raw: Seq<char>) -> Seq<char> {
    let t = text::trim(raw);
    let n = if t == "Phi"@ {
        "Φ"@
    } else {
        macros_replaced(t, tex_macros().len() as int, false)
    };
    text::replace(n, "\\/"@, "/"@)
}

fn normalize_tex_math_fragment_of(raw: &Vec<char>) -> (res: Vec<char>)
    ensures
        res@ == normalize_tex_math_fragment(raw@),
{
    proof {
        reveal_strlit("\\/");
    }
    let t = trim_of(raw);
    let n = if eq_str(&t, "Phi") {
        chars_of("Φ")
    } else {
        macros_replaced_of(&t, false)
    };
    replace_str(&n, "\\/", "/")
}

/// A `$..$` match rewritten as a bibliography-math span.
pub open spec fn bib_math_match(caps: Seq<Option<Seq<char>>>) -> Seq<char> {
    bib_math_span(markup::escape_html(normalize_tex_math_fragment(patterns::group(caps, 1))))
}

/// Bibliography HTML with its TeX math made readable: each `$..$` becomes a
/// bibliography-math span of the normalized text, then the remaining known
/// macros become such spans. When the `$..$` pattern does not compile, only
/// the macros are replaced.
pub open spec fn bibliography_math(html: Seq<char>) -> Seq<char> {
    let p = TEX_MATH_PATTERN@;
    let spans = match (patterns::regex_split(p, html), patterns::regex_captures(p, html)) {
        (Some(pieces), Some(caps)) => patterns::interleave(
            pieces,
            Seq::new(caps.len(), |k: int| bib_math_match(caps[k])),
        ),
        _ => html,
    };
    macros_replaced(spans, tex_macros().len() as int, true)
}

pub fn normalize_bibliography_math(input: &str) -> (res: String)
    ensures
        res@ == bibliography_math(input@),
{
    let pieces = split_all(TEX_MATH_PATTERN, input);
    let caps = captures_all(TEX_MATH_PATTERN, input);
    let spans = if let (Some(pieces), Some(caps)) = (pieces, caps) {
        let ghost cv = captures_view(caps@);
        let mut reps: Vec<Vec<char>> = Vec::new();
        let mut k: usize = 0;
        while k < caps.len()
            invariant
                cv == captures_view(caps@),
                k <= caps.len(),
                text::vecs_view(reps@) =~= Seq::new(k as nat, |j: int| bib_math_match(cv[j])),
            decreases caps.len() - k,
        {
            assert(cv[k as int] == groups_view(caps@[k as int]@));
            let norm = normalize_tex_math_fragment_of(&group_of(&caps[k], 1));
            let mut r = chars_of("<span class=\"bib-math\">");
            push_all(&mut r, &escape_html_of(&norm));
            push_str(&mut r, "</span>");
            let ghost before = text::vecs_view(reps@);
            reps.push(r);
            assert(text::vecs_view(reps@) =~= before.push(r@));
            k += 1;
        }
        interleave_of(&pieces, &reps)
    } else {
        chars_of(input)
    };
    string_of(&macros_replaced_of(&spans, true))
}

} // verus!
