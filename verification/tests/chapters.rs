use html_exporter::chapters::{ChapterNav, CitationConfig, ExportConfig, SiteConfig};

fn citation_config() -> CitationConfig {
    CitationConfig {
        authors: "A. Author".to_owned(),
        key_prefix: "notes".to_owned(),
        booktitle: "Example Tutorial".to_owned(),
        title_template: "Chapter {number}: {title}".to_owned(),
        note_template: Some("Chapter {number} of the ACM EC 2026 tutorial notes".to_owned()),
        year: 2026,
        url_prefix: "https://example.com/notes/".to_owned(),
    }
}

#[test]
fn finds_current_chapter_by_input_file_name() {
    let book = ExportConfig {
        site: SiteConfig::default(),
        how_to_cite: citation_config(),
        chapters: vec![ChapterNav {
            number: 4,
            source: "notes/P4-multicalibration.typ".to_owned(),
            short_title: "Multicalibration".to_owned(),
        }],
    };

    assert_eq!(
        book.current_index_for_input("P4-multicalibration.typ"),
        Some(0)
    );
}

#[test]
fn derives_href_from_source_file() {
    let chapter = ChapterNav {
        number: 4,
        source: "notes/P4-multicalibration.typ".to_owned(),
        short_title: "Multicalibration".to_owned(),
    };

    assert_eq!(chapter.href().as_deref(), Ok("P4-multicalibration.html"));
}

#[test]
fn applies_citation_templates() {
    let config = citation_config();

    assert_eq!(
        config.citation_title(2, "Beyond Normal Form"),
        "Chapter 2: Beyond Normal Form"
    );
    assert_eq!(
        config.citation_note(2, "Beyond Normal Form"),
        Some("Chapter 2 of the ACM EC 2026 tutorial notes".to_owned())
    );
}

#[test]
fn omits_citation_note_when_template_is_absent() {
    let mut config = citation_config();
    config.note_template = None;

    assert_eq!(config.citation_note(2, "Beyond Normal Form"), None);
}

#[test]
fn prefixes_citation_urls() {
    let config = citation_config();
    assert_eq!(
        config.citation_url("P2.html"),
        "https://example.com/notes/P2.html"
    );
}
