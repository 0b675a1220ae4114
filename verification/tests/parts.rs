use html_exporter::math::MathMode;
use html_exporter::notes::use_html_notes_style;
use html_exporter::parts::{DocumentMeta, Heading, HtmlParts};
use html_exporter::render::render_toc;

#[test]
fn main_source_import_is_swapped_to_html_style() {
    let source = r#"#import "meta/gabri_notes.typ": *

#show: gabri_notes.with(lec_num: 1, title: "Intro")
"#;

    let rewritten = use_html_notes_style(source);

    assert!(rewritten.contains(r#"#import "meta/gabri_notes_html.typ": *"#));
    assert!(!rewritten.contains(r#"#import "meta/gabri_notes.typ": *"#));
}

#[test]
fn relative_notes_import_is_swapped_to_html_style() {
    let source = r#"#import "../meta/gabri_notes.typ": *

#let body() = [Figure body]
"#;

    let rewritten = use_html_notes_style(source);

    assert!(rewritten.contains(r#"#import "../meta/gabri_notes_html.typ": *"#));
    assert!(!rewritten.contains(r#"#import "../meta/gabri_notes.typ": *"#));
}

#[test]
fn extracts_metadata_and_headings_from_html_attributes() {
    let raw = r#"
<!doctype html>
<html><body>
<div class="notes-meta" hidden="" data-lecture-number="4" data-title="Phi-Regret"></div>
<h1 id="loc-4" class="notes-heading" data-level="1" data-number="4.1"><span class="secno">4.1</span> First section</h1>
<h2 class="notes-heading" data-level="2" data-number="4.1.1"><span class="secno">4.1.1</span> Real subsection</h2>
<h1 class="notes-heading notes-heading-unnumbered" data-level="1">Bibliography for this chapter</h1>
</body></html>
"#;

    let parts = HtmlParts::parse(raw);

    assert_eq!(parts.meta.lecture_number.as_deref(), Some("4"));
    assert_eq!(parts.meta.title.as_deref(), Some("Phi-Regret"));
    assert_eq!(parts.headings.len(), 2);
    assert_eq!(parts.headings[0].id, "loc-4");
    assert_eq!(parts.headings[0].number, "4.1");
    assert_eq!(parts.headings[0].text, "First section");
    assert_eq!(parts.headings[1].id, "4-1-1-real-subsection");
    assert_eq!(parts.headings[1].number, "4.1.1");
    assert_eq!(parts.headings[1].text, "Real subsection");
}

#[test]
fn heading_math_is_preserved_in_rendered_toc() {
    let raw = r#"
<!doctype html>
<html><body>
<h1 id="sec-gordon" class="notes-heading" data-level="1" data-number="1.3"><span class="secno">1.3</span> A framework for minimizing <span class="math" data-math-display="inline" data-typst-math="[Φ]" role="math"><svg></svg></span>-regret</h1>
</body></html>
"#;

    let parts = HtmlParts::parse(raw);
    let toc = render_toc(&parts.headings, MathMode::Katex);

    assert!(toc.contains("A framework for minimizing"));
    assert!(toc.contains("math-katex-source"));
    assert!(toc.contains(r"\(\Phi\)"));
    assert!(toc.contains("-regret"));
    assert!(!toc.contains("<svg>"));
}

#[test]
fn heading_rewrite_adds_missing_ids() {
    let mut parts = HtmlParts {
        meta: DocumentMeta { lecture_number: None, title: None },
        body_html: r#"<h2 class="notes-heading"><span class="secno">4.2.1</span> Real subsection</h2>"#
            .to_owned(),
        headings: vec![Heading {
            level: 2,
            raw_id: None,
            text: "Real subsection".to_owned(),
            title_html: "Real subsection".to_owned(),
            id: "4-2-1-real-subsection".to_owned(),
            number: "4.2.1".to_owned(),
        }],
        bibliography: Vec::new(),
        endnotes: Vec::new(),
        rendered_endnotes: Vec::new(),
    };

    parts.rewrite_heading_ids();

    assert!(parts
        .body_html
        .contains(r#"<h2 id="4-2-1-real-subsection" class="notes-heading">"#));
}
