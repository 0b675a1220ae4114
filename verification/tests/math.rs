use html_exporter::math::{postprocess_html_math, prepare_display_tex, typst_repr_to_katex, MathMode};

#[test]
fn converts_simple_sequence_repr_to_katex() {
    let input = "sequence([x], [ ], [+], [ ], [y], [ ], [≤], [ ], [z])";
    assert_eq!(typst_repr_to_katex(input), "x + y \\le z");
}

#[test]
fn converts_attach_repr_to_katex() {
    let input = "attach(base: [h], b: [φ], t: lr(body: sequence([(], [T], [)])))";
    assert_eq!(typst_repr_to_katex(input), "h_{\\phi}^{(T)}");
}

#[test]
fn keeps_parentheses_inside_bracket_literals() {
    let input = "sequence([(], [t], [)])";
    assert_eq!(typst_repr_to_katex(input), "(t)");
}

#[test]
fn keeps_square_brackets_inside_bracket_literals() {
    let input = "sequence([[], [x], []])";
    assert_eq!(typst_repr_to_katex(input), "[x]");
}

#[test]
fn treats_typst_none_as_empty_math() {
    assert_eq!(typst_repr_to_katex("none"), "");
}

#[test]
fn converts_typst_horizontal_space_to_katex_space() {
    let input = "sequence([a], h(amount: 1em), h(amount: 1em), h(amount: 1em), [b], h(amount: .5em), [c])";
    assert_eq!(
        typst_repr_to_katex(input),
        "a\\quad \\quad \\quad b\\hspace{.5em}c"
    );
}

#[test]
fn custom_operator_limits_use_katex_limits_form() {
    let input = "attach(base: op(text: styled(child: equation(block: false, body: [E]), ..), limits: true), b: sequence([x], [ ], [∼], [ ], [D]))";
    assert_eq!(
        typst_repr_to_katex(input),
        "\\mathop{\\mathbb{E}}\\limits_{x \\sim D}"
    );
}

#[test]
fn split_argmax_operator_uses_single_limits_operator() {
    let input = "sequence(op(text: [arg], limits: false), [ ], attach(base: op(text: [max], limits: true), b: sequence([x], [ ], [∈], [ ], equation(block: false, body: styled(child: [X], ..)))))";
    assert_eq!(
        typst_repr_to_katex(input),
        "\\operatorname*{arg\\,max}_{x \\in \\mathcal{X}}"
    );
}

#[test]
fn converts_typst_matrix_rows_to_katex_matrix() {
    let input =
        "mat(rows: ((frac(num: [1], denom: [2]), [0]), ([0], frac(num: [1], denom: [2]))))";
    assert_eq!(
        typst_repr_to_katex(input),
        r"\begin{pmatrix}\frac{1}{2} & 0 \\ 0 & \frac{1}{2}\end{pmatrix}"
    );
}

#[test]
fn converts_typst_cases_to_katex_cases() {
    let input = "sequence([φ], [:], [ ], [a], [ ], [↦], [ ], cases(children: (sequence([2], [ ], align-point(), [ ], [if], [ ], [a], [ ], [=], [ ], [1,]), sequence([1], [ ], align-point(), [ ], [if], [ ], [a], [ ], [=], [ ], [2,]))))";
    assert_eq!(
        typst_repr_to_katex(input),
        r"\phi : a \mapsto \begin{cases}2 & \text{if } a = 1, \\ 1 & \text{if } a = 2,\end{cases}"
    );
}

#[test]
fn text_literals_use_text_mode_to_preserve_phrase_spacing() {
    let input = "sequence([∃], [ ], [ such that ], [ ], [x])";
    assert_eq!(typst_repr_to_katex(input), r"\exists \text{ such that } x");
}

#[test]
fn text_subscripts_drop_literal_group_braces() {
    let input = "attach(base: [Φ], b: lr(body: sequence([{], [const], [}])))";
    assert_eq!(typst_repr_to_katex(input), r"\Phi_{\text{const}}");
}

#[test]
fn preserves_trailing_prime_attachments() {
    let input = "attach(base: [μ], tr: primes(count: 1))";
    assert_eq!(typst_repr_to_katex(input), "\\mu'");
}

#[test]
fn converts_typst_split_superscript_repr() {
    let input = "sequence(equation(block: false, body: styled(child: [c], ..)), attach(base: [ ], t: lr(body: sequence([(], [t], [)]))), [ ], [∈], [ ], equation(block: false, body: styled(child: [C], ..)))";
    assert_eq!(
        typst_repr_to_katex(input),
        "\\boldsymbol{c} ^{(t)} \\in \\mathcal{C}"
    );
}

#[test]
fn direct_calligraphic_s_fallback_is_preserved() {
    assert_eq!(
        typst_repr_to_katex("styled(child: [S], ..)"),
        "\\mathcal{S}"
    );
}

#[test]
fn styled_symbols_with_subscripts_keep_their_style() {
    assert_eq!(
        typst_repr_to_katex("styled(child: attach(base: [X], b: [i]), ..)"),
        "\\mathcal{X}_{i}"
    );
    assert_eq!(
        typst_repr_to_katex("styled(child: attach(base: [x], b: [i]), ..)"),
        "\\boldsymbol{x}_{i}"
    );
}

#[test]
fn unicode_math_alphabet_notation_is_unambiguous() {
    let input = "sequence([𝓢], [ ], [⊂], [ ], [𝓧], [ ], [×], [ ], [𝐱], [ ], [∈], [ ], [ℝ])";
    assert_eq!(
        typst_repr_to_katex(input),
        "\\mathcal{S} \\subset \\mathcal{X} \\times \\boldsymbol{x} \\in \\mathbb{R}"
    );
}

#[test]
fn upright_bold_matrix_notation_stays_mathbf() {
    let input = "sequence([𝐀], [ ], [𝐱], [ ], [≤], [ ], [𝐛])";
    assert_eq!(
        typst_repr_to_katex(input),
        "\\mathbf{A} \\boldsymbol{x} \\le \\boldsymbol{b}"
    );
}

#[test]
fn root_preserves_nonempty_optional_argument() {
    assert_eq!(
        typst_repr_to_katex("root(index: [n], radicand: [d])"),
        r"\sqrt[n]{d}"
    );
}

#[test]
fn display_math_uses_displaystyle_and_sized_delimiters() {
    let input = r#"<p><span class="equation-math" data-typst-math="sequence([E], [ ], [[], [x], []], [ ], [(], [y], [)])" data-math-display="block"><svg></svg></span></p>"#;
    let out = postprocess_html_math(input.to_owned(), MathMode::Katex);
    assert!(out.contains(r#"\[\displaystyle E \left[x\right] \left(y\right)\]"#));
    assert!(!out.contains("<svg>"));
}

#[test]
fn aligned_equation_pieces_use_displaystyle_without_display_delimiters() {
    let input = r#"<p><span class="equation-align-right" data-typst-math="sequence([=], [ ], [[], [x], []])" data-math-display="inline"><svg></svg></span></p>"#;
    let out = postprocess_html_math(input.to_owned(), MathMode::Katex);
    assert!(out.contains(r#"\(\displaystyle = \left[x\right]\)"#));
}

#[test]
fn display_delimiter_sizing_preserves_sqrt_optional_argument() {
    assert_eq!(
        prepare_display_tex(r#"\sqrt[n]{(x)}"#),
        r#"\displaystyle \sqrt[n]{\left(x\right)}"#
    );
}

#[test]
fn display_delimiter_sizing_pairs_symmetric_delimiters() {
    assert_eq!(
        prepare_display_tex(r#"\Vert A\Vert _F"#),
        r#"\displaystyle \left\Vert A\right\Vert _F"#
    );
}

#[test]
fn replaces_svg_span_with_katex_source() {
    let input = r#"<p><span role="math" data-typst-math="sequence([x], [≤], [y])" data-math-display="inline"><svg></svg></span></p>"#;
    let out = postprocess_html_math(input.to_owned(), MathMode::Katex);
    assert!(out.contains(r#"\(x\le y\)"#));
    assert!(out.contains("math-katex-source"));
    assert!(!out.contains("<svg>"));
}

#[test]
fn root_omits_empty_optional_argument() {
    let input = r#"<p>on the order of <span role="math" data-typst-math="root(radicand: [d])" data-math-display="inline"><svg></svg></span>. Then</p>"#;
    let out = postprocess_html_math(input.to_owned(), MathMode::Katex);
    assert!(out.contains(r#"\(\sqrt{d}\)"#), "{out}");
    assert!(!out.contains(r#"\sqrt[]{d}"#), "{out}");
}

#[test]
fn unsupported_nonempty_math_gets_visible_placeholder() {
    let input = r#"<p><span role="math" data-typst-math="mystery(value: [x])" data-math-display="inline"><svg></svg></span></p>"#;
    let out = postprocess_html_math(input.to_owned(), MathMode::Katex);
    assert!(
        out.contains(r#"\(\text{[unsupported math: mystery]}\)"#),
        "{out}"
    );
}
