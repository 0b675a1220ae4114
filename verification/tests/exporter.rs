use html_exporter::anchors::{attrs_has_class, remove_crossrefs_and_collect_targets, rewrite_crossref_links_and_remove, rewrite_href_targets, set_id_attr};
use html_exporter::bibliography::{check_visible_bibliography, disambiguate_bibliography_labels, extract_visible_bibliography_items, BibliographyItem};
use html_exporter::body::{add_class_to_attrs, clean_visible_bibliography, extract_href, normalize_typst_classes, protect_visible_bibliographies, restore_visible_bibliographies, visible_bibliography_ref_ids};
use html_exporter::chapters::{ChapterNav, CitationConfig, ExportConfig, SiteConfig};
use html_exporter::citations::rewrite_citations;
use html_exporter::config::Config;
use html_exporter::footnotes::RenderedEndnote;
use html_exporter::math::MathMode;
use html_exporter::notes::{alphabetic_suffix_of, slugify, title_from_path, CitationLabelRewrite};
use html_exporter::parts::{DocumentMeta, HtmlParts};
use html_exporter::render::{page_title_for, render_chapter_citation_sidenote, render_chapter_citation_sidenote_with, render_chapter_rail, render_chapter_rail_with, render_document, render_document_with, render_endnotes, render_masthead};

fn item(id: &str, key_text: &str, entry_html: &str) -> BibliographyItem {
    BibliographyItem { id: id.to_owned(), key_text: key_text.to_owned(), entry_html: entry_html.to_owned() }
}

fn config(index: Option<&str>, pdf: Option<&str>) -> Config {
    Config::from_options(
        None,
        None,
        Some("Site".to_owned()),
        Some("Ann & Bo".to_owned()),
        index.map(str::to_owned),
        index.is_none(),
        pdf.map(str::to_owned),
        Some("svg".to_owned()),
        "notes/P1.typ".to_owned(),
        Some("out/P1.html".to_owned()),
        None,
    )
    .unwrap()
}

fn book() -> ExportConfig {
    ExportConfig {
        site: SiteConfig::default(),
        how_to_cite: CitationConfig {
            authors: "A. Author".to_owned(),
            key_prefix: "notes".to_owned(),
            booktitle: "Tutorial".to_owned(),
            title_template: "Chapter {number}: {title}".to_owned(),
            note_template: None,
            year: 2026,
            url_prefix: "https://example.com/".to_owned(),
        },
        chapters: vec![
            ChapterNav { number: 1, source: "P1.typ".to_owned(), short_title: "One & Only".to_owned() },
            ChapterNav { number: 2, source: "P2.typ".to_owned(), short_title: "Two".to_owned() },
        ],
    }
}

#[test]
fn options_fill_in_defaults() {
    let c = Config::from_options(None, None, None, None, None, false, None, None, "notes/P1.typ".to_owned(), None, None).unwrap();
    assert_eq!(c.math_mode, MathMode::Katex);
    assert_eq!(c.output, "notes/P1.html");
    assert_eq!(c.root, "notes");
    assert_eq!(c.index_href.as_deref(), Some("index.html"));
    assert_eq!(c.site_title, "Learning and Computation of Phi-Equilibria");
    assert_eq!(c.authors, "Ioannis Anagnostides, Gabriele Farina, and Brian Hu Zhang");
    assert!(c.pdf_href.is_none());

    let c = Config::from_options(None, None, None, None, Some("home.html".to_owned()), true, None, Some("svg".to_owned()), "P1.typ".to_owned(), None, None).unwrap();
    assert_eq!(c.math_mode, MathMode::Svg);
    assert_eq!(c.root, ".");
    assert!(c.index_href.is_none());
}

#[test]
fn options_reject_unknown_math_mode() {
    let err = match Config::from_options(None, None, None, None, None, false, None, Some("mathml".to_owned()), "P1.typ".to_owned(), None, None) {
        Ok(_) => panic!("accepted an unknown math mode"),
        Err(err) => err,
    };
    assert_eq!(err, "unknown math mode `mathml`; expected `svg` or `katex`");
}

#[test]
fn id_attributes_are_replaced_or_added() {
    assert_eq!(set_id_attr(" id=\"old\" class=\"x\"", "new"), " id=\"new\" class=\"x\"");
    assert_eq!(set_id_attr(" class=\"x\"", "a\"b"), " id=\"a&quot;b\" class=\"x\"");
}

#[test]
fn classes_are_appended_or_added() {
    assert_eq!(add_class_to_attrs("href=\"#a\" class=\"x\"", "citation"), "href=\"#a\" class=\"x citation\"");
    assert_eq!(add_class_to_attrs(" href=\"#a\" ", "citation"), "class=\"citation\" href=\"#a\"");
    assert!(attrs_has_class(" class=\"env statement\"", "statement"));
    assert!(!attrs_has_class(" class=\"envelope\"", "env"));
    assert_eq!(extract_href("class=\"c\" href=\"#loc-2\"").as_deref(), Some("loc-2"));
    assert_eq!(extract_href("href=\"page.html\""), None);
}

#[test]
fn typst_figure_classes_are_renamed() {
    let body = "<figure role=\"math\"><figure class=\"typst\" id=\"f\"></figure>".to_owned();
    assert_eq!(
        normalize_typst_classes(body),
        "<figure class=\"equation\" role=\"math\"><figure class=\"rendered-figure typst\" id=\"f\"></figure>"
    );
}

#[test]
fn visible_bibliographies_are_set_aside_and_restored() {
    let body = "a<section class=\"bibliography\"><tr><td><a href=\"#loc-1\" role=\"doc-biblioref\">A</a></td></tr></section>b".to_owned();
    let (rest, blocks) = protect_visible_bibliographies(body);
    assert_eq!(rest, "a<!--NOTES_HTML_BIBLIOGRAPHY_0-->b");
    assert_eq!(blocks.len(), 1);
    assert_eq!(blocks[0], "<section class=\"bibliography\"><tr id=\"loc-1\"><td>A</td></tr></section>");
    let restored = restore_visible_bibliographies(rest, blocks);
    assert_eq!(restored, "a<section class=\"bibliography\"><tr id=\"loc-1\"><td>A</td></tr></section>b");
}

#[test]
fn cleaning_keeps_existing_row_ids_and_other_links() {
    let block = "<tr id=\"x\"><td><a href=\"#loc-1\" role=\"doc-biblioref\">A</a></td></tr><a href=\"https://e.org\">link</a>";
    assert_eq!(
        clean_visible_bibliography(block),
        "<tr id=\"x\"><td>A</td></tr><a href=\"https://e.org\">link</a>"
    );
}

#[test]
fn visible_rows_are_read_and_checked() {
    let blocks = vec!["<table><tr class=\"bibliography-row\" id=\" loc-1 \"><td class=\"bib-key\"> [A] </td><td class=\"bib-entry\"> Entry </td></tr><tr class=\"bibliography-row\"><td class=\"bib-entry\">No id</td></tr></table>".to_owned()];
    let items = extract_visible_bibliography_items(&blocks);
    assert_eq!(items.len(), 1);
    assert_eq!(items[0].id, "loc-1");
    assert_eq!(items[0].key_text, "[A]");
    assert_eq!(items[0].entry_html, "Entry");

    let expected = vec![item("loc-1", "[A]", "x"), item("loc-2", "[B]", "y"), item("loc-3", "", "z")];
    let err = match check_visible_bibliography(items, &expected) {
        Ok(_) => panic!("missing rows accepted"),
        Err(err) => err,
    };
    assert_eq!(err, "visible lec_bibliography is missing row(s) for cited item(s): [B] loc-2, loc-3");

    let ok = check_visible_bibliography(vec![item("loc-1", "[A]", "x")], &vec![item("loc-1", "[A]", "y")]).unwrap();
    assert_eq!(ok.len(), 1);
    assert_eq!(ok[0].entry_html, "x");
}

#[test]
fn shared_keys_get_letters_in_entry_order() {
    let bib = vec![item("l1", "[K]", "1"), item("l2", "K2", "2"), item("l3", "[K]", "3"), item("l4", "[K]", "4"), item("l5", "", "5"), item("l6", "", "6")];
    let blocks = vec!["<tr id=\"l3\"><td class=\"bib-key\">[K]</td></tr>".to_owned()];
    let (blocks, bib, rewrites) = disambiguate_bibliography_labels(blocks, bib);
    let keys: Vec<&str> = bib.iter().map(|i| i.key_text.as_str()).collect();
    assert_eq!(keys, vec!["[Ka]", "K2", "[Kb]", "[Kc]", "", ""]);
    assert_eq!(rewrites.len(), 3);
    assert_eq!(rewrites[1].0, "l3");
    assert_eq!(rewrites[1].1.from_label, "K");
    assert_eq!(rewrites[1].1.to_label, "Kb");
    assert_eq!(blocks[0], "<tr id=\"l3\"><td class=\"bib-key\">[Kb]</td></tr>");
    assert_eq!(String::from_iter(alphabetic_suffix_of(25)), "z");
    assert_eq!(String::from_iter(alphabetic_suffix_of(26)), "aa");
}

#[test]
fn citations_without_an_entry_get_no_note() {
    let body = "<a href=\"#loc-9\" class=\"c\" role=\"doc-biblioref\">Zed</a>".to_owned();
    let rewrites = vec![("loc-9".to_owned(), CitationLabelRewrite::new("[Zed]", "[Zeda]"))];
    let out = rewrite_citations(body, &vec![], &rewrites);
    assert_eq!(
        out,
        "<span class=\"citation-wrap\"><a href=\"#loc-9\" class=\"c citation\" role=\"doc-biblioref\">Zeda</a></span>"
    );
}

#[test]
fn cross_reference_blocks_are_removed_and_links_retargeted() {
    let body = "a<span class=\"crossrefs-start\" data-href=\"P2.html\"></span><h2 id=\"loc-9\" class=\"notes-heading\" data-number=\"2.1\">Intro</h2><span class=\"crossrefs-end\"></span>b <a href=\"#loc-9\">x</a><span class=\"crossrefs-end\"></span>";
    let (cleaned, targets) = remove_crossrefs_and_collect_targets(body);
    assert_eq!(cleaned, "ab <a href=\"#loc-9\">x</a><span class=\"crossrefs-end\"></span>");
    assert_eq!(targets, vec![("loc-9".to_owned(), "P2.html#2-1-intro".to_owned())]);
    assert_eq!(
        rewrite_crossref_links_and_remove(body.to_owned()),
        "ab <a href=\"P2.html#2-1-intro\">x</a><span class=\"crossrefs-end\"></span>"
    );
    assert_eq!(rewrite_href_targets("<a href=\"#q\">".to_owned(), &vec![]), "<a href=\"#q\">");
}

#[test]
fn statements_get_stable_ids() {
    let mut parts = HtmlParts {
        meta: DocumentMeta { lecture_number: None, title: None },
        body_html: "<section class=\"env statement\" id=\"loc-3\"><span class=\"env-kind\">Theorem</span> <span class=\"env-number\">2.4</span></section><a href=\"#loc-3\">t</a>".to_owned(),
        headings: vec![],
        bibliography: vec![],
        endnotes: vec![],
        rendered_endnotes: vec![],
    };
    parts.rewrite_statement_ids();
    assert_eq!(
        parts.body_html,
        "<section class=\"env statement\" id=\"theorem-2-4\"><span class=\"env-kind\">Theorem</span> <span class=\"env-number\">2.4</span></section><a href=\"#theorem-2-4\">t</a>"
    );
}

#[test]
fn parse_keeps_cited_entries_and_numbers_notes() {
    let raw = "<html><body><p><a href=\"#loc-2\" role=\"doc-biblioref\">B</a><a href=\"#fn-1\" role=\"doc-noteref\"><sup>1</sup></a></p><div hidden=\"\"><section role=\"doc-bibliography\"><ol><li id=\"loc-1\"><span class=\"prefix\">[A]</span> Entry A</li><li id=\"loc-2\"><span class=\"prefix\">[B]</span> Entry $x$</li></ol></section></div><section role=\"doc-endnotes\"><ol><li id=\"fn-1\">Note one <a href=\"#r\" role=\"doc-backlink\">back</a></li></ol></section></body></html>";
    let parts = HtmlParts::parse(raw);
    assert_eq!(parts.bibliography.len(), 1);
    assert_eq!(parts.bibliography[0].id, "loc-2");
    assert_eq!(parts.bibliography[0].key_text, "[B]");
    assert_eq!(parts.bibliography[0].entry_html, "Entry <span class=\"bib-math\">x</span>");
    assert_eq!(parts.endnotes.len(), 1);
    assert_eq!(parts.endnotes[0].label, "1");
    assert_eq!(parts.endnotes[0].body_html, "Note one");
    assert_eq!(visible_bibliography_ref_ids(&parts.body_html), vec!["loc-2".to_owned(), "fn-1".to_owned()]);
}

#[test]
fn masthead_and_notes_render_exactly() {
    assert_eq!(
        render_masthead(&config(Some("index.html"), Some("p.pdf"))),
        "<header class=\"site-masthead\">\n<a class=\"course-title course-title-link\" href=\"index.html\">Site</a>\n<div class=\"course-authors\">Ann &amp; Bo</div>\n<div class=\"top-links\"><a href=\"index.html\">Index</a><a href=\"p.pdf\">PDF</a></div></header>\n"
    );
    assert_eq!(
        render_masthead(&config(None, None)),
        "<header class=\"site-masthead\">\n<div class=\"course-title\">Site</div>\n<div class=\"course-authors\">Ann &amp; Bo</div>\n</header>\n"
    );
    assert_eq!(render_endnotes(&vec![]), "");
    let notes = vec![RenderedEndnote { number: "<1>".to_owned(), body_html: "<b>x</b>".to_owned() }];
    assert_eq!(
        render_endnotes(&notes),
        "<section class=\"endnotes\" id=\"endnotes\">\n<h1>Notes</h1>\n<p id=\"fn-end-1\"><a class=\"footnote-backref\" href=\"#fnref-1\">&lt;1&gt;</a><span class=\"footnote-body\"><b>x</b></span></p>\n</section>\n"
    );
    assert_eq!(title_from_path("notes/P4-multi_cal.typ"), "P4 multi cal");
    assert_eq!(slugify("Hello, World!"), "hello-world");
    assert_eq!(slugify("!!!"), "section");
}

#[test]
fn chapter_rail_and_citation_render() {
    let c = config(None, Some("p1.pdf"));
    let b = book();
    let hrefs = vec!["P1.html".to_owned(), "P2.html".to_owned()];
    let rail = render_chapter_rail_with(&b, 0, &vec![], &c, &hrefs);
    assert!(rail.contains("<a class=\"chapter-rail-link is-current\" href=\"P1.html\" aria-current=\"page\"><span>1</span>One &amp; Only</a>\n"));
    assert!(rail.contains("<a class=\"chapter-rail-link\" href=\"P2.html\"><span>2</span>Two</a>\n"));
    assert!(!rail.contains("This Chapter"));
    let side = render_chapter_citation_sidenote_with(&b, &b.chapters[1], "P2.html", "A & B", "Site", Some("p1.pdf"));
    assert_eq!(
        side,
        "<aside class=\"chapter-citation-sidenote\" aria-label=\"Chapter links and citation\"><a class=\"chapter-citation-pdf\" href=\"p1.pdf\">Download as PDF</a><details class=\"chapter-citation-details\"><summary class=\"chapter-citation-title\">How to cite</summary><pre><code>@misc{notes-chapter-2,\n  author = {A. Author},\n  title = {Chapter 2: A \\&amp; B},\n  booktitle = {Site},\n  year = {2026},\n  url = {P2.html}\n}</code></pre></details></aside>\n"
    );
    let doc = HtmlParts {
        meta: DocumentMeta { lecture_number: Some("2".to_owned()), title: None },
        body_html: "<p>Body</p>".to_owned(),
        headings: vec![],
        bibliography: vec![],
        endnotes: vec![],
        rendered_endnotes: vec![],
    };
    let page = render_document_with(&c, "T", &doc, Some(&b), Some(1), &hrefs, "body{}");
    assert!(page.starts_with("<!doctype html>\n<html lang=\"en\">\n<head>\n"));
    assert!(page.contains("  <title>T</title>\n  <style>\nbody{}\n  </style>\n</head>\n<body>\n<nav class=\"chapter-rail\""));
    assert!(page.contains("<article class=\"lecture-content\" data-lecture-number=\"2\">\n<aside"));
    assert!(page.contains("<p class=\"chapter-kicker\">Chapter 2</p>\n<h1 class=\"lecture-title\">T</h1>\n<p>Body</p></article>\n</main>\n<script>"));
    assert!(page.ends_with("</script>\n</body>\n</html>\n"));
    let plain = render_document_with(&c, "T", &doc, None, None, &vec![], "");
    assert!(plain.contains("<header class=\"site-masthead\">"));
    assert!(!plain.contains("chapter-kicker"));
    assert!(!plain.contains("data-section-link"));
}

#[test]
fn chapter_pages_come_from_sources() {
    let c = config(None, None);
    let b = book();
    let rail = render_chapter_rail(&b, 1, &vec![], &c).unwrap();
    assert!(rail.contains("href=\"P1.html\"><span>1</span>"));
    assert!(rail.contains("<a class=\"chapter-rail-link is-current\" href=\"P2.html\" aria-current=\"page\">"));
    let side = render_chapter_citation_sidenote(&b, &b.chapters[0], "T", "S", None).unwrap();
    assert!(side.contains("url = {P1.html}"));
    assert!(!side.contains("chapter-citation-pdf"));
    let doc = HtmlParts {
        meta: DocumentMeta { lecture_number: None, title: Some("From notes".to_owned()) },
        body_html: String::new(),
        headings: vec![],
        bibliography: vec![],
        endnotes: vec![],
        rendered_endnotes: vec![],
    };
    let page = render_document(&c, "T", &doc, Some(&b), "").unwrap();
    assert!(page.contains("<p class=\"chapter-kicker\">Chapter 1</p>"));
    assert_eq!(page_title_for(&c, &doc.meta), "From notes");
    let untitled = DocumentMeta { lecture_number: None, title: None };
    assert_eq!(page_title_for(&c, &untitled), "P1");
}

#[test]
fn portable_paths_give_names_stems_parents_and_outputs() {
    let c = Config::from_options(None, None, None, None, None, false, None, None, "notes/ch.1.typ".to_owned(), None, None).unwrap();
    assert_eq!(c.output, "notes/ch.1.html");
    assert_eq!(c.root, "notes");
    let c = Config::from_options(None, None, None, None, None, false, None, None, ".notes".to_owned(), None, None).unwrap();
    assert_eq!(c.output, ".notes.html");
    assert_eq!(c.root, ".");
    assert_eq!(title_from_path("x.typ/."), "x");
    assert_eq!(title_from_path(".."), "Notes");
    assert_eq!(html_exporter::notes::default_root_for_input("a/../b.typ"), "a/..");
}

#[test]
fn chapter_hrefs_follow_sources() {
    let nav = |number: u8, source: &str| ChapterNav { number, source: source.to_owned(), short_title: "T".to_owned() };
    assert_eq!(nav(1, "..").href(), Err("chapter source .. has no file stem".to_owned()));
    assert_eq!(nav(1, "notes/").href(), Ok("notes.html".to_owned()));
    let mut b = book();
    b.chapters = vec![nav(1, "a/P1.typ"), nav(2, "b/P1.typ")];
    assert_eq!(b.validate("cfg.yaml"), Err("export config cfg.yaml repeats derived href P1.html".to_owned()));
    assert_eq!(b.current_index_for_input("x/P1.typ/"), Some(0));
    assert_eq!(b.current_index_for_input(".."), None);
}

#[test]
fn unsupported_math_is_named_for_a_warning() {
    let body = r#"<p><span role="math" data-typst-math="mystery(value: [x])" data-math-display="inline"><svg></svg></span><span data-typst-math="none"></span></p>"#;
    assert_eq!(html_exporter::body::body_math_warnings(body, MathMode::Katex), vec!["mystery".to_owned()]);
    assert!(html_exporter::body::body_math_warnings(body, MathMode::Svg).is_empty());
    assert_eq!(
        html_exporter::math::unsupported_math_labels(r#"<span data-typst-math="[x]"></span>"#, MathMode::Katex),
        Vec::<String>::new()
    );
}

#[test]
fn top_level_split_treats_brackets_as_literals() {
    let parts = html_exporter::scan::split_top_level_of(&"[[], [x], []]".chars().collect(), ',');
    let parts: Vec<String> = parts.into_iter().map(String::from_iter).collect();
    assert_eq!(parts, vec!["[[]", " [x]", " []]"]);
}

#[test]
fn slugs_are_lowercase_and_stable() {
    let once = slugify("Hello, World! Ünïcode");
    assert_eq!(once, "hello-world-n-code");
    assert_eq!(slugify(&once), once);
    assert_eq!(slugify("ABC-Def"), "abc-def");
}

#[test]
fn unknown_calls_convert_their_content() {
    let name: Vec<char> = "mystery".chars().collect();
    let none = html_exporter::convert::convert_call(&name, &"value: [x]".chars().collect());
    assert_eq!(String::from_iter(none), "");
    let child = html_exporter::convert::convert_call(&name, &"child: [x]".chars().collect());
    assert_eq!(String::from_iter(child), "x");
}

#[test]
fn tokens_are_single_chars_or_control_sequences() {
    let toks = html_exporter::delims::tokenize_tex(&"\\alpha1\\|x\\".chars().collect());
    let texts: Vec<String> = toks.iter().map(|t| String::from_iter(t.text.iter())).collect();
    assert_eq!(texts, vec!["\\alpha", "1", "\\|", "x", "\\"]);
}

#[test]
fn sizing_adds_left_and_right_in_pairs() {
    let out = html_exporter::delims::autosize_display_delimiters(&"(a[b)".chars().collect());
    assert_eq!(String::from_iter(out), "\\left(a[b\\right)");
    let out = html_exporter::delims::autosize_display_delimiters(&"\\sqrt[3]{x}|y|".chars().collect());
    assert_eq!(String::from_iter(out), "\\sqrt[3]{x}\\left|y\\right|");
}

#[test]
fn a_valid_book_passes_validation() {
    assert_eq!(book().validate("cfg.yaml"), Ok(()));
    let mut b = book();
    b.chapters[1].number = 1;
    assert_eq!(b.validate("cfg.yaml"), Err("export config cfg.yaml repeats chapter number 1".to_owned()));
}

#[test]
fn chapter_pages_open_with_the_head_and_carry_the_nav_script() {
    let mut c = config(Some("index.html"), None);
    c.input = "P2.typ".to_owned();
    let doc = HtmlParts {
        meta: DocumentMeta { lecture_number: None, title: None },
        body_html: "<p>Body</p>".to_owned(),
        headings: vec![],
        bibliography: vec![],
        endnotes: vec![],
        rendered_endnotes: vec![],
    };
    let page = render_document(&c, "Two", &doc, Some(&book()), "").unwrap();
    assert!(page.starts_with("<!doctype html>\n<html lang=\"en\">\n<head>\n"));
    assert!(page.ends_with("</body>\n</html>\n"));
    assert!(page.contains(html_exporter::scripts::CHAPTER_NAV_SCRIPT));
    let head_end = page.find("</head>\n<body>\n").unwrap() + "</head>\n<body>\n".len();
    let rail = render_chapter_rail(&book(), 1, &doc.headings, &c).unwrap();
    assert!(page[head_end..].starts_with(&rail));
}

#[test]
fn decoding_undoes_attribute_escaping() {
    let raw: Vec<char> = "a&b<'\">&amp;&quot;".chars().collect();
    let escaped = html_exporter::markup::escape_attr_of(&raw);
    assert_eq!(String::from_iter(escaped.iter()), "a&amp;b&lt;&#39;&quot;&gt;&amp;amp;&amp;quot;");
    let back = html_exporter::markup::decode_attr_of(&escaped);
    assert_eq!(back, raw);
}
