use html_exporter::bibliography::BibliographyItem;
use html_exporter::body::postprocess_body;
use html_exporter::citations::rewrite_citations;
use html_exporter::footnotes::Endnote;
use html_exporter::math::MathMode;

fn item(id: &str, key_text: &str, entry_html: &str) -> BibliographyItem {
    BibliographyItem {
        id: id.to_owned(),
        key_text: key_text.to_owned(),
        entry_html: entry_html.to_owned(),
    }
}

#[test]
fn postprocess_keeps_visible_bibliography_and_removes_hidden_data() {
    let body = r##"
<p>Body</p>
<div class="notes-meta" hidden="" data-lecture-number="4" data-title="Phi-Regret"></div>
<section class="bibliography" id="bibliography"><table class="bibliography-table"><tr class="bibliography-row"><td class="bib-key">[<a class="citation" href="#loc-1" role="doc-biblioref">A</a>]</td><td class="bib-entry"><a class="citation" href="#loc-1" role="doc-biblioref">Entry</a></td></tr></table></section>
<div hidden=""><section role="doc-bibliography"><ol><li id="loc-1"><span class="prefix">[A]</span> Entry</li></ol></section></div>
<section role="doc-endnotes"><ol><li id="fn-1"><sup>1</sup> Note</li></ol></section>
"##
    .to_owned();

    let bibliography = vec![item("loc-1", "[A]", "Entry")];

    let (body, _) = postprocess_body(body, &bibliography, &Vec::new(), MathMode::Svg).unwrap();

    assert!(!body.contains("hidden"));
    assert!(!body.contains("notes-meta"));
    assert!(body.contains("id=\"bibliography\""));
    assert!(body.contains("bibliography-table"));
    assert!(body.contains("<tr id=\"loc-1\" class=\"bibliography-row\">"));
    assert!(body.contains("<td class=\"bib-key\">[A]</td>"));
    assert!(body.contains("<td class=\"bib-entry\">Entry</td>"));
    assert!(!body.contains("citation-note"));
    assert!(!body.contains("role=\"doc-biblioref\""));
    assert!(!body.contains("role=\"doc-bibliography\""));
    assert!(!body.contains("doc-endnotes"));
}

#[test]
fn repeated_citations_only_get_one_side_note() {
    let body = r##"
<p><a href="#loc-1" role="doc-biblioref">A</a></p>
<p><a href="#loc-1" role="doc-biblioref">A again</a></p>
<p><a href="#loc-2" role="doc-biblioref">B</a></p>
"##
    .to_owned();
    let bibliography = vec![item("loc-1", "[A]", "Entry A"), item("loc-2", "[B]", "Entry B")];

    let body = rewrite_citations(body, &bibliography, &Vec::new());

    assert_eq!(body.matches("class=\"citation-note\"").count(), 2);
    assert!(body.contains("<span class=\"citation-note-key\">[A]</span> Entry A"));
    assert!(body.contains(">A again</a></span>"));
    assert_eq!(body.matches("Entry A").count(), 1);
    assert_eq!(body.matches("Entry B").count(), 1);
}

#[test]
fn citation_notes_prefer_visible_bibliography_entries() {
    let body = r##"
<p><a href="#loc-1" role="doc-biblioref">A</a></p>
<section class="bibliography"><table class="bibliography-table"><tr class="bibliography-row"><td class="bib-key">[<a href="#loc-1" role="doc-biblioref">A</a>]</td><td class="bib-entry">Visible Entry</td></tr></table></section>
"##
    .to_owned();
    let bibliography = vec![item("loc-1", "[A]", "Hidden Entry")];

    let (body, _) = postprocess_body(body, &bibliography, &Vec::new(), MathMode::Svg).unwrap();

    assert!(body.contains("<span class=\"citation-note-key\">[A]</span> Visible Entry"));
    assert!(!body.contains("Hidden Entry"));
}

#[test]
fn duplicate_bibliography_labels_get_letter_suffixes() {
    let body = r##"
<p><a href="#loc-1" role="doc-biblioref">Zha+25</a></p>
<p><a href="#loc-2" role="doc-biblioref">Zhang et al. [Zha+25]</a></p>
<section class="bibliography" id="bibliography"><table class="bibliography-table">
<tr class="bibliography-row"><td class="bib-key">[<a href="#loc-1" role="doc-biblioref">Zha+25</a>]</td><td class="bib-entry">First Entry</td></tr>
<tr class="bibliography-row"><td class="bib-key">[<a href="#loc-2" role="doc-biblioref">Zha+25</a>]</td><td class="bib-entry">Second Entry</td></tr>
</table></section>
"##
    .to_owned();
    let bibliography = vec![
        item("loc-1", "[Zha+25]", "Hidden First"),
        item("loc-2", "[Zha+25]", "Hidden Second"),
    ];

    let (body, _) = postprocess_body(body, &bibliography, &Vec::new(), MathMode::Svg).unwrap();

    assert!(body.contains(">Zha+25a</a>"));
    assert!(body.contains(">Zhang et al. [Zha+25b]</a>"));
    assert!(body.contains("<td class=\"bib-key\">[Zha+25a]</td>"));
    assert!(body.contains("<td class=\"bib-key\">[Zha+25b]</td>"));
    assert!(body.contains("<span class=\"citation-note-key\">[Zha+25a]</span> First Entry"));
    assert!(body.contains("<span class=\"citation-note-key\">[Zha+25b]</span> Second Entry"));
}

#[test]
fn missing_visible_bibliography_row_is_an_error() {
    let body = r##"
<p><a href="#loc-1" role="doc-biblioref">A</a></p>
<section class="bibliography"><table class="bibliography-table"></table></section>
"##
    .to_owned();
    let bibliography = vec![item("loc-1", "[A]", "Hidden Entry")];

    let err = match postprocess_body(body, &bibliography, &Vec::new(), MathMode::Svg) {
        Ok(_) => panic!("postprocess_body unexpectedly succeeded"),
        Err(err) => err,
    };

    assert!(
        err.contains("visible lec_bibliography is missing row"),
        "{err}"
    );
    assert!(err.contains("[A] loc-1"), "{err}");
}

#[test]
fn footnotes_are_numbered_and_listed_in_order() {
    let body = r##"<p>x<a href="#fn-2" role="doc-noteref"><sup>9</sup></a> y<a href="#fn-1" role="doc-noteref"><sup>8</sup></a> z<a href="#nowhere" role="doc-noteref"><sup>7</sup></a></p>"##
        .to_owned();
    let notes = vec![
        Endnote { id: "fn-1".to_owned(), label: String::new(), body_html: "One".to_owned() },
        Endnote { id: "fn-2".to_owned(), label: "ii".to_owned(), body_html: "Two".to_owned() },
    ];

    let (body, rendered) = postprocess_body(body, &Vec::new(), &notes, MathMode::Svg).unwrap();

    assert_eq!(rendered.len(), 2);
    assert_eq!(rendered[0].number, "ii");
    assert_eq!(rendered[0].body_html, "Two");
    assert_eq!(rendered[1].number, "2");
    assert_eq!(rendered[1].body_html, "One");
    assert!(body.contains(
        "<sup class=\"footnote-ref\" id=\"fnref-1\"><a href=\"#fn-end-1\">ii</a></sup><span class=\"footnote\" id=\"fn-side-1\"><span class=\"footnote-num\">ii</span>Two</span>"
    ));
    assert!(body.contains("id=\"fnref-2\"><a href=\"#fn-end-2\">2</a>"));
    assert!(body.contains("<a href=\"#nowhere\" role=\"doc-noteref\"><sup>7</sup></a>"));
}
