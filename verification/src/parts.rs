//! The parts of Typst's HTML that the page is built from: the body, the
//! notes metadata, the numbered headings, the bibliography entries that the
//! body cites, the endnotes; and the body's headings and statements given
//! their stable ids.
use vstd::prelude::*;
use crate::text;
use crate::text::{chars_of, string_of, push_all, push_str, trim_of, seq_eq};
use crate::patterns;
use crate::patterns::{group, group_of, groups_view};
use crate::markup;
use crate::dom;
use crate::notes;
use crate::pieces;
use crate::math;
use crate::anchors;
use crate::anchors::{attr_at, attr_at_of, first_text, first_text_of, firsts_of, pairs_view, retargeted, with_id};
use crate::bibliography::{BibliographyItem, BibEntry, entries};
use crate::footnotes::{Endnote, NoteEntry, RenderedEndnote, notes_view};
use crate::body;

verus! {

// ---------------------------------------------------------------------------
// Types
// ---------------------------------------------------------------------------

/// The notes metadata: the lecture number and title, when given.
pub struct DocumentMeta {
    pub lecture_number: Option<String>,
    pub title: Option<String>,
}

pub struct MetaView {
    pub lecture_number: Option<Seq<char>>,
    pub title: Option<Seq<char>>,
}

pub open spec fn opt_seq(o: Option<String>) -> Option<Seq<char>> {
    match o {
        Some(s) => Some(s@),
        None => None,
    }
}

impl View for DocumentMeta {
    type V = MetaView;

    open spec fn view(&self) -> MetaView {
        MetaView { lecture_number: opt_seq(self.lecture_number), title: opt_seq(self.title) }
    }
}

/// A numbered heading: its level, Typst's id if it had one, its title as
/// text and as HTML, the id the page gives it, its number.
pub struct Heading {
    pub level: u8,
    pub raw_id: Option<String>,
    pub text: String,
    pub title_html: String,
    pub id: String,
    pub number: String,
}

pub struct HeadingView {
    pub level: u8,
    pub raw_id: Option<Seq<char>>,
    pub text: Seq<char>,
    pub title_html: Seq<char>,
    pub id: Seq<char>,
    pub number: Seq<char>,
}

impl View for Heading {
    type V = HeadingView;

    open spec fn view(&self) -> HeadingView {
        HeadingView {
            level: self.level,
            raw_id: opt_seq(self.raw_id),
            text: self.text@,
            title_html: self.title_html@,
            id: self.id@,
            number: self.number@,
        }
    }
}

pub open spec fn headings_view(v: Seq<Heading>) -> Seq<HeadingView> {
    Seq::new(v.len(), |k: int| v[k]@)
}

/// A statement's anchor: Typst's id if it had one, and its stable id.
pub struct StatementAnchor {
    pub raw_id: Option<String>,
    pub id: String,
}

pub struct AnchorView {
    pub raw_id: Option<Seq<char>>,
    pub id: Seq<char>,
}

impl View for StatementAnchor {
    type V = AnchorView;

    open spec fn view(&self) -> AnchorView {
        AnchorView { raw_id: opt_seq(self.raw_id), id: self.id@ }
    }
}

pub open spec fn anchors_view(v: Seq<StatementAnchor>) -> Seq<AnchorView> {
    Seq::new(v.len(), |k: int| v[k]@)
}

/// Everything the page is built from.
pub struct HtmlParts {
    pub meta: DocumentMeta,
    pub body_html: String,
    pub headings: Vec<Heading>,
    pub bibliography: Vec<BibliographyItem>,
    pub endnotes: Vec<Endnote>,
    pub rendered_endnotes: Vec<RenderedEndnote>,
}

fn opt_chars(o: Option<Vec<char>>) -> (res: Option<String>)
    ensures
        opt_seq(res) == match o {
            Some(v) => Some(v@),
            None => None::<Seq<char>>,
        },
{
    match o {
        Some(v) => Some(string_of(&v)),
        None => None,
    }
}

// ---------------------------------------------------------------------------
// Metadata
// ---------------------------------------------------------------------------

/// The selector of the notes metadata element.
pub const META_SELECTOR: &'static str = ".notes-meta";

/// An attribute's value, trimmed, when that is not empty.
pub open spec fn non_empty(v: Option<Seq<char>>) -> Option<Seq<char>> {
    match v {
        Some(x) => if text::trim(x).len() > 0 {
            Some(text::trim(x))
        } else {
            None
        },
        None => None,
    }
}

fn non_empty_of(v: Option<Vec<char>>) -> (res: Option<Vec<char>>)
    ensures
        match res {
            Some(r) => non_empty(
                match v {
                    Some(x) => Some(x@),
                    None => None,
                },
            ) == Some(r@),
            None => non_empty(
                match v {
                    Some(x) => Some(x@),
                    None => None,
                },
            ) is None,
        },
{
    match v {
        Some(x) => {
            let t = trim_of(&x);
            if t.len() > 0 {
                Some(t)
            } else {
                None
            }
        },
        None => None,
    }
}

/// The metadata of the first notes metadata element, as `scraper` reads the
/// document.
pub open spec fn meta_of(html: Seq<char>) -> MetaView {
    match dom::html_select(html, true, META_SELECTOR@, seq!["data-lecture-number"@, "data-title"@], Seq::empty()) {
        Some(s) => if s.len() > 0 {
            let el = dom::els_of(s)[0];
            MetaView { lecture_number: non_empty(attr_at(el, 0)), title: non_empty(attr_at(el, 1)) }
        } else {
            MetaView { lecture_number: None, title: None }
        },
        None => MetaView { lecture_number: None, title: None },
    }
}

pub fn extract_document_meta(html: &str) -> (res: DocumentMeta)
    ensures
        res@ == meta_of(html@),
{
    proof {
        reveal_strlit("data-lecture-number");
        reveal_strlit("data-title");
    }
    let names = dom::strings(&vec!["data-lecture-number", "data-title"]);
    assert(patterns::strings_view(names@) =~= seq!["data-lecture-number"@, "data-title"@]);
    let none: Vec<String> = Vec::new();
    assert(patterns::strings_view(none@) =~= Seq::<Seq<char>>::empty());
    match dom::select_html(html, true, META_SELECTOR, &names, &none) {
        Some(els) => if els.len() > 0 {
            assert(dom::els_of(dom::selected_view(els@))[0] == dom::picked_view(els@[0]));
            DocumentMeta {
                lecture_number: opt_chars(non_empty_of(attr_at_of(&els[0], 0))),
                title: opt_chars(non_empty_of(attr_at_of(&els[0], 1))),
            }
        } else {
            DocumentMeta { lecture_number: None, title: None }
        },
        None => DocumentMeta { lecture_number: None, title: None },
    }
}

// ---------------------------------------------------------------------------
// Headings
// ---------------------------------------------------------------------------

/// The selector of the headings of the body.
pub const HEADING_SELECTOR: &'static str = "body h1, body h2, body h3, body h4, body h5, body h6";

/// `str::parse::<u8>`: an optional `+`, then decimal digits of a value
/// below 256.
pub open spec fn parse_u8(s: Seq<char>) -> Option<u8> {
    match pieces::parse_usize(s) {
        Some(n) => if n <= 255 {
            Some(n as u8)
        } else {
            None
        },
        None => None,
    }
}

pub fn parse_u8_of(s: &Vec<char>) -> (res: Option<u8>)
    ensures
        res == parse_u8(s@),
{
    match pieces::parse_usize_of(s) {
        Some(n) => if n <= 255 {
            Some(n as u8)
        } else {
            None
        },
        None => None,
    }
}

/// A heading's level: its `data-level`, else the digit of its tag name,
/// else 1.
pub open spec fn heading_level(data_level: Option<Seq<char>>, name: Seq<char>) -> u8 {
    let from_attr = match data_level {
        Some(l) => parse_u8(l),
        None => None,
    };
    match from_attr {
        Some(l) => l,
        None => match text::strip_prefix(name, "h"@) {
            Some(d) => match parse_u8(d) {
                Some(l) => l,
                None => 1,
            },
            None => 1,
        },
    }
}

/// The heading an element gives: only numbered notes headings count; its id
/// is Typst's, else the slug of its number and title.
pub open spec fn heading_of(
    el: (Seq<char>, Seq<Option<Seq<char>>>, Seq<char>),
    fs: Seq<Option<(Seq<Seq<char>>, Seq<char>)>>,
) -> Option<HeadingView> {
    let class = match attr_at(el, 0) {
        Some(c) => c,
        None => Seq::empty(),
    };
    if !markup::has_word(class, "notes-heading"@) || markup::has_word(class, "notes-heading-unnumbered"@) {
        None
    } else {
        let raw_id = attr_at(el, 1);
        let number = match anchors::section_number(attr_at(el, 3), first_text(fs, 0)) {
            Some(n) => n,
            None => Seq::empty(),
        };
        let title = anchors::title_html(el.2);
        let text = dom::fragment_plain_text(title);
        Some(
            HeadingView {
                level: heading_level(attr_at(el, 2), el.0),
                raw_id,
                text,
                title_html: title,
                id: match raw_id {
                    Some(r) => r,
                    None => notes::slug(number + "-"@ + text),
                },
                number,
            },
        )
    }
}

pub open spec fn opt_heading(o: Option<HeadingView>) -> Seq<HeadingView> {
    match o {
        Some(h) => seq![h],
        None => Seq::empty(),
    }
}

/// The headings of the first `n` elements.
pub open spec fn headings_from(
    els: Seq<(Seq<char>, Seq<Option<Seq<char>>>, Seq<char>)>,
    fs: Seq<Seq<Option<(Seq<Seq<char>>, Seq<char>)>>>,
    n: nat,
) -> Seq<HeadingView>
    decreases n,
{
    if n == 0 || n > els.len() {
        Seq::empty()
    } else {
        headings_from(els, fs, (n - 1) as nat) + opt_heading(
            heading_of(
                els[n - 1],
                if n - 1 < fs.len() {
                    fs[n - 1]
                } else {
                    Seq::empty()
                },
            ),
        )
    }
}

/// The numbered headings of a document, in order.
pub open spec fn headings_of(html: Seq<char>) -> Seq<HeadingView> {
    match dom::html_select(html, true, HEADING_SELECTOR@, seq!["class"@, "id"@, "data-level"@, "data-number"@], seq![".secno"@]) {
        Some(s) => headings_from(dom::els_of(s), dom::fs_of(s), s.len()),
        _ => Seq::empty(),
    }
}

fn heading_of_exec(el: &dom::Selected, fs: &Vec<dom::FirstMatch>) -> (res: Option<Heading>)
    ensures
        match res {
            Some(h) => heading_of(dom::picked_view(*el), firsts_of(fs@)) == Some(h@),
            None => heading_of(dom::picked_view(*el), firsts_of(fs@)) is None,
        },
{
    let class = match attr_at_of(el, 0) {
        Some(c) => c,
        None => Vec::new(),
    };
    if !markup::has_word_of(&class, "notes-heading") || markup::has_word_of(&class, "notes-heading-unnumbered") {
        return None;
    }
    let raw_id = attr_at_of(el, 1);
    let number = match anchors::section_number_of(attr_at_of(el, 3), first_text_of(fs, 0)) {
        Some(n) => n,
        None => Vec::new(),
    };
    let title = anchors::heading_title_html(el.2.as_str());
    let text = dom::fragment_plain_text_of(title.as_str());
    let from_attr = match attr_at_of(el, 2) {
        Some(l) => parse_u8_of(&l),
        None => None,
    };
    let level = match from_attr {
        Some(l) => l,
        None => match text::strip_prefix_of(&chars_of(el.0.as_str()), "h") {
            Some(d) => match parse_u8_of(&d) {
                Some(l) => l,
                None => 1,
            },
            None => 1,
        },
    };
    let id = match &raw_id {
        Some(r) => r.clone(),
        None => {
            let mut s = number.clone();
            push_str(&mut s, "-");
            push_all(&mut s, &text);
            let st = string_of(&s);
            chars_of(notes::slugify(st.as_str()).as_str())
        },
    };
    Some(
        Heading {
            level,
            raw_id: opt_chars(raw_id),
            text: string_of(&text),
            title_html: title,
            id: string_of(&id),
            number: string_of(&number),
        },
    )
}

pub fn extract_headings(html: &str) -> (res: Vec<Heading>)
    ensures
        headings_view(res@) == headings_of(html@),
{
    proof {
        reveal_strlit("class");
        reveal_strlit("id");
        reveal_strlit("data-level");
        reveal_strlit("data-number");
        reveal_strlit(".secno");
    }
    let names = dom::strings(&vec!["class", "id", "data-level", "data-number"]);
    let subs = dom::strings(&vec![".secno"]);
    assert(patterns::strings_view(names@) =~= seq!["class"@, "id"@, "data-level"@, "data-number"@]);
    assert(patterns::strings_view(subs@) =~= seq![".secno"@]);
    let sel = dom::select_html(html, true, HEADING_SELECTOR, &names, &subs);
    let mut out: Vec<Heading> = Vec::new();
    match sel {
        Some(els) => {
            let ghost ev = dom::els_of(dom::selected_view(els@));
            let ghost fsv = dom::fs_of(dom::selected_view(els@));
            let mut k: usize = 0;
            while k < els.len()
                invariant
                    ev == dom::els_of(dom::selected_view(els@)),
                    fsv == dom::fs_of(dom::selected_view(els@)),
                    k <= els.len(),
                    headings_view(out@) == headings_from(ev, fsv, k as nat),
                decreases els.len() - k,
            {
                let f = &els[k].3;
                let ghost fk = fsv[k as int];
                assert(firsts_of(f@) =~= fk);
                assert(ev[k as int] == dom::picked_view(els@[k as int]));
                let ghost before = headings_view(out@);
                match heading_of_exec(&els[k], f) {
                    Some(h) => {
                        let ghost hv = h@;
                        out.push(h);
                        assert(headings_view(out@) =~= before + seq![hv]);
                    },
                    None => {
                        assert(headings_view(out@) =~= before + Seq::<HeadingView>::empty());
                    },
                }
                k += 1;
            }
        },
        _ => {},
    }
    out
}

// ---------------------------------------------------------------------------
// Hidden bibliography and endnotes
// ---------------------------------------------------------------------------

/// The selector of the entries of Typst's bibliography.
pub const BIBLIOGRAPHY_ITEM_SELECTOR: &'static str = "section[role=\"doc-bibliography\"] li";

/// The selector of the entries of Typst's endnotes.
pub const ENDNOTE_ITEM_SELECTOR: &'static str = "section[role=\"doc-endnotes\"] li";

/// The key `span` at the start of a bibliography entry.
pub const BIB_PREFIX_PATTERN: &'static str = r#"(?s)^\s*<span class="prefix">.*?</span>\s*"#;

/// The link back to the reference, at the end of an endnote.
pub const ENDNOTE_BACKLINK_PATTERN: &'static str = r#"(?s)\s*<a[^>]*role="doc-backlink"[^>]*>.*?</a>\s*"#;

/// The entry a list item of Typst's bibliography gives: its id, the text of
/// its key, its HTML without the key, trimmed, TeX math made readable.
pub open spec fn bib_item_of(
    el: (Seq<char>, Seq<Option<Seq<char>>>, Seq<char>),
    fs: Seq<Option<(Seq<Seq<char>>, Seq<char>)>>,
) -> Option<BibEntry> {
    match attr_at(el, 0) {
        Some(id) => Some(
            BibEntry {
                id,
                key_text: match first_text(fs, 0) {
                    Some(t) => t,
                    None => Seq::empty(),
                },
                entry_html: math::bibliography_math(text::trim(patterns::first_removed(BIB_PREFIX_PATTERN@, el.2))),
            },
        ),
        None => None,
    }
}

/// The entries of the first `n` list items.
pub open spec fn bib_items_from(
    els: Seq<(Seq<char>, Seq<Option<Seq<char>>>, Seq<char>)>,
    fs: Seq<Seq<Option<(Seq<Seq<char>>, Seq<char>)>>>,
    n: nat,
) -> Seq<BibEntry>
    decreases n,
{
    if n == 0 || n > els.len() {
        Seq::empty()
    } else {
        bib_items_from(els, fs, (n - 1) as nat) + crate::bibliography::opt_seq(
            bib_item_of(
                els[n - 1],
                if n - 1 < fs.len() {
                    fs[n - 1]
                } else {
                    Seq::empty()
                },
            ),
        )
    }
}

/// The entries of Typst's bibliography in a document.
pub open spec fn bib_items_of(html: Seq<char>) -> Seq<BibEntry> {
    match dom::html_select(html, true, BIBLIOGRAPHY_ITEM_SELECTOR@, seq!["id"@], seq!["span.prefix"@]) {
        Some(s) => bib_items_from(dom::els_of(s), dom::fs_of(s), s.len()),
        _ => Seq::empty(),
    }
}

pub fn extract_bibliography(html: &str) -> (res: Vec<BibliographyItem>)
    ensures
        entries(res@) == bib_items_of(html@),
{
    proof {
        reveal_strlit("id");
        reveal_strlit("span.prefix");
    }
    let names = dom::strings(&vec!["id"]);
    let subs = dom::strings(&vec!["span.prefix"]);
    assert(patterns::strings_view(names@) =~= seq!["id"@]);
    assert(patterns::strings_view(subs@) =~= seq!["span.prefix"@]);
    let sel = dom::select_html(html, true, BIBLIOGRAPHY_ITEM_SELECTOR, &names, &subs);
    let mut out: Vec<BibliographyItem> = Vec::new();
    match sel {
        Some(els) => {
            let ghost ev = dom::els_of(dom::selected_view(els@));
            let ghost fsv = dom::fs_of(dom::selected_view(els@));
            let mut k: usize = 0;
            while k < els.len()
                invariant
                    ev == dom::els_of(dom::selected_view(els@)),
                    fsv == dom::fs_of(dom::selected_view(els@)),
                    k <= els.len(),
                    entries(out@) == bib_items_from(ev, fsv, k as nat),
                decreases els.len() - k,
            {
                let f = &els[k].3;
                let ghost fk = fsv[k as int];
                assert(firsts_of(f@) =~= fk);
                assert(ev[k as int] == dom::picked_view(els@[k as int]));
                let ghost before = entries(out@);
                match attr_at_of(&els[k], 0) {
                    Some(id) => {
                        let key = match first_text_of(f, 0) {
                            Some(t) => t,
                            None => Vec::new(),
                        };
                        let entry = trim_of(&patterns::first_removed_of(BIB_PREFIX_PATTERN, &chars_of(els[k].2.as_str())));
                        let entry = string_of(&entry);
                        let item = BibliographyItem {
                            id: string_of(&id),
                            key_text: string_of(&key),
                            entry_html: math::normalize_bibliography_math(entry.as_str()),
                        };
                        let ghost iv = item@;
                        out.push(item);
                        assert(entries(out@) =~= before + seq![iv]);
                    },
                    None => {
                        assert(entries(out@) =~= before + Seq::<BibEntry>::empty());
                    },
                }
                k += 1;
            }
        },
        _ => {},
    }
    out
}

/// The notes of the first `n` list items of Typst's endnotes: each with its
/// id, the text of its `sup` (or its place in the list), and its HTML
/// without the back link, trimmed.
pub open spec fn notes_from(
    els: Seq<(Seq<char>, Seq<Option<Seq<char>>>, Seq<char>)>,
    fs: Seq<Seq<Option<(Seq<Seq<char>>, Seq<char>)>>>,
    n: nat,
) -> Seq<NoteEntry>
    decreases n,
{
    if n == 0 || n > els.len() {
        Seq::empty()
    } else {
        let prev = notes_from(els, fs, (n - 1) as nat);
        let el = els[n - 1];
        let f = if n - 1 < fs.len() {
            fs[n - 1]
        } else {
            Seq::empty()
        };
        match attr_at(el, 0) {
            Some(id) => prev.push(
                NoteEntry {
                    id,
                    label: match first_text(f, 0) {
                        Some(t) => t,
                        None => text::decimal(prev.len() + 1),
                    },
                    body_html: text::trim(patterns::first_removed(ENDNOTE_BACKLINK_PATTERN@, el.2)),
                },
            ),
            None => prev,
        }
    }
}

/// The notes of Typst's endnotes in a document.
pub open spec fn notes_of(html: Seq<char>) -> Seq<NoteEntry> {
    match dom::html_select(html, true, ENDNOTE_ITEM_SELECTOR@, seq!["id"@], seq!["sup"@]) {
        Some(s) => notes_from(dom::els_of(s), dom::fs_of(s), s.len()),
        _ => Seq::empty(),
    }
}

pub fn extract_endnotes(html: &str) -> (res: Vec<Endnote>)
    ensures
        notes_view(res@) == notes_of(html@),
{
    proof {
        reveal_strlit("id");
        reveal_strlit("sup");
    }
    let names = dom::strings(&vec!["id"]);
    let subs = dom::strings(&vec!["sup"]);
    assert(patterns::strings_view(names@) =~= seq!["id"@]);
    assert(patterns::strings_view(subs@) =~= seq!["sup"@]);
    let sel = dom::select_html(html, true, ENDNOTE_ITEM_SELECTOR, &names, &subs);
    let mut out: Vec<Endnote> = Vec::new();
    match sel {
        Some(els) => {
            let ghost ev = dom::els_of(dom::selected_view(els@));
            let ghost fsv = dom::fs_of(dom::selected_view(els@));
            let mut k: usize = 0;
            while k < els.len()
                invariant
                    ev == dom::els_of(dom::selected_view(els@)),
                    fsv == dom::fs_of(dom::selected_view(els@)),
                    k <= els.len(),
                    out.len() <= k,
                    notes_view(out@) == notes_from(ev, fsv, k as nat),
                decreases els.len() - k,
            {
                let f = &els[k].3;
                let ghost fk = fsv[k as int];
                assert(firsts_of(f@) =~= fk);
                assert(ev[k as int] == dom::picked_view(els@[k as int]));
                let ghost before = notes_view(out@);
                match attr_at_of(&els[k], 0) {
                    Some(id) => {
                        let label = match first_text_of(f, 0) {
                            Some(t) => t,
                            None => text::decimal_of((out.len() + 1) as u64),
                        };
                        let body = trim_of(&patterns::first_removed_of(ENDNOTE_BACKLINK_PATTERN, &chars_of(els[k].2.as_str())));
                        let note = Endnote { id: string_of(&id), label: string_of(&label), body_html: string_of(&body) };
                        let ghost nv = note@;
                        out.push(note);
                        assert(notes_view(out@) =~= before.push(nv));
                    },
                    None => {},
                }
                k += 1;
            }
        },
        _ => {},
    }
    out
}

// ---------------------------------------------------------------------------
// Reading the parts
// ---------------------------------------------------------------------------

/// The inner HTML of the document's `body`, or the whole text when there is
/// none.
pub open spec fn body_of(raw: Seq<char>) -> Seq<char> {
    match dom::html_select(raw, true, "body"@, Seq::empty(), Seq::empty()) {
        Some(els) => if els.len() > 0 {
            els[0].2
        } else {
            raw
        },
        None => raw,
    }
}

/// The body wrapped as a document again, for reading its parts.
pub open spec fn wrapped(body: Seq<char>) -> Seq<char> {
    "<html><body>"@ + body + "</body></html>"@
}

/// What the parts hold.
pub struct PartsView {
    pub meta: MetaView,
    pub body_html: Seq<char>,
    pub headings: Seq<HeadingView>,
    pub bibliography: Seq<BibEntry>,
    pub endnotes: Seq<NoteEntry>,
}

/// The parts of Typst's HTML: the body without its cross-reference blocks
/// (links retargeted), and, read from it, the metadata, the headings, the
/// bibliography entries the visible body cites, the endnotes.
pub open spec fn parts_of(raw: Seq<char>) -> PartsView {
    let body = anchors::crossrefs_resolved(body_of(raw));
    let doc = wrapped(body);
    let bib = bib_items_of(doc);
    PartsView {
        meta: meta_of(doc),
        body_html: body,
        headings: headings_of(doc),
        bibliography: body::kept_entries(bib, body::visible_ref_ids(body), bib.len()),
        endnotes: notes_of(doc),
    }
}

impl HtmlParts {
    pub open spec fn parts_view(&self) -> PartsView {
        PartsView {
            meta: self.meta@,
            body_html: self.body_html@,
            headings: headings_view(self.headings@),
            bibliography: entries(self.bibliography@),
            endnotes: notes_view(self.endnotes@),
        }
    }

    /// Reads the parts of Typst's HTML; no note is rendered yet.
    pub fn parse(raw_html: &str) -> (res: Self)
        ensures
            res.parts_view() == parts_of(raw_html@),
            res.rendered_endnotes@.len() == 0,
    {
        proof {
            reveal_strlit("body");
        }
        let none: Vec<String> = Vec::new();
        assert(patterns::strings_view(none@) =~= Seq::<Seq<char>>::empty());
        let body = match dom::select_html(raw_html, true, "body", &none, &none) {
            Some(els) => if els.len() > 0 {
                assert(dom::selected_view(els@)[0].2 == els@[0].2@);
                string_of(&chars_of(els[0].2.as_str()))
            } else {
                raw_html.to_owned()
            },
            None => raw_html.to_owned(),
        };
        let body_html = anchors::rewrite_crossref_links_and_remove(body);
        let mut doc = chars_of("<html><body>");
        push_str(&mut doc, body_html.as_str());
        push_str(&mut doc, "</body></html>");
        let doc = string_of(&doc);
        let meta = extract_document_meta(doc.as_str());
        let headings = extract_headings(doc.as_str());
        let bibliography = body::filter_bibliography_to_visible_refs(extract_bibliography(doc.as_str()), body_html.as_str());
        let endnotes = extract_endnotes(doc.as_str());
        HtmlParts { meta, body_html, headings, bibliography, endnotes, rendered_endnotes: Vec::new() }
    }
}

// ---------------------------------------------------------------------------
// Stable ids in the body
// ---------------------------------------------------------------------------

/// A heading tag: its level digit (1), attributes (2) and content (3).
pub const HTML_HEADING_PATTERN: &'static str = r#"(?s)<h(?P<level>[1-6])(?P<attrs>[^>]*)>(?P<inner>.*?)</h[1-6]>"#;

/// A `section` start tag: its attributes (1).
pub const HTML_SECTION_PATTERN: &'static str = r#"<section(?P<attrs>[^>]*)>"#;

/// Whether a heading tag is one of the numbered headings: a notes heading,
/// not the chapter's bibliography heading.
pub open spec fn numbered_heading_tag(c: Seq<Option<Seq<char>>>) -> bool {
    body::contains(group(c, 2), "notes-heading"@) && !body::contains(
        group(c, 3),
        "Bibliography for this chapter"@,
    )
}

/// How many headings the first `n` tags took, in order, while headings are
/// left.
pub open spec fn taken(caps: Seq<Seq<Option<Seq<char>>>>, count: nat, is_tag: spec_fn(Seq<Option<Seq<char>>>) -> bool, n: nat) -> nat
    decreases n,
{
    if n == 0 || n > caps.len() {
        0
    } else {
        let prev = taken(caps, count, is_tag, (n - 1) as nat);
        if is_tag(caps[n - 1]) && prev < count {
            prev + 1
        } else {
            prev
        }
    }
}

/// Whether tag `k` takes the next item.
pub open spec fn takes(caps: Seq<Seq<Option<Seq<char>>>>, count: nat, is_tag: spec_fn(Seq<Option<Seq<char>>>) -> bool, k: int) -> bool {
    is_tag(caps[k]) && taken(caps, count, is_tag, k as nat) < count
}

/// A heading tag that takes a heading, given that heading's id.
pub open spec fn heading_tag(c: Seq<Option<Seq<char>>>, id: Seq<char>) -> Seq<char> {
    "<h"@ + group(c, 1) + with_id(group(c, 2), id) + ">"@ + group(c, 3) + "</h"@ + group(c, 1) + ">"@
}

/// The link target from an item's old id to its new one, when it had an old
/// id that differs.
pub open spec fn moved(raw_id: Option<Seq<char>>, id: Seq<char>) -> Seq<(Seq<char>, Seq<char>)> {
    match raw_id {
        Some(r) => if r != id {
            seq![(r, "#"@ + id)]
        } else {
            Seq::empty()
        },
        None => Seq::empty(),
    }
}

/// `numbered_heading_tag` as a function value.
pub open spec fn is_heading_tag() -> spec_fn(Seq<Option<Seq<char>>>) -> bool {
    |c: Seq<Option<Seq<char>>>| numbered_heading_tag(c)
}

/// The link targets of the first `n` heading tags.
pub open spec fn heading_moves(caps: Seq<Seq<Option<Seq<char>>>>, hs: Seq<HeadingView>, n: nat) -> Seq<(Seq<char>, Seq<char>)>
    decreases n,
{
    if n == 0 || n > caps.len() {
        Seq::empty()
    } else {
        let i = taken(caps, hs.len(), is_heading_tag(), (n - 1) as nat);
        heading_moves(caps, hs, (n - 1) as nat) + if takes(caps, hs.len(), is_heading_tag(), n - 1) {
            moved(hs[i as int].raw_id, hs[i as int].id)
        } else {
            Seq::empty()
        }
    }
}

/// The body whose numbered headings, in order, carry the ids of `hs`, and
/// whose links to their old ids point at the new ones.
pub open spec fn headings_identified(body: Seq<char>, hs: Seq<HeadingView>) -> Seq<char> {
    let p = HTML_HEADING_PATTERN@;
    match (patterns::regex_split(p, body), patterns::regex_captures(p, body)) {
        (Some(pieces), Some(caps)) => retargeted(
            patterns::interleave(
                pieces,
                Seq::new(
                    caps.len(),
                    |k: int|
                        if takes(caps, hs.len(), is_heading_tag(), k) {
                            heading_tag(caps[k], hs[taken(caps, hs.len(), is_heading_tag(), k as nat) as int].id)
                        } else {
                            group(caps[k], 0)
                        },
                ),
            ),
            heading_moves(caps, hs, caps.len()),
        ),
        _ => body,
    }
}

fn moved_of(raw_id: &Option<String>, id: &String, targets: &mut Vec<(String, String)>)
    ensures
        pairs_view(final(targets)@) == pairs_view(old(targets)@) + moved(opt_seq(*raw_id), id@),
{
    let ghost before = pairs_view(targets@);
    match raw_id {
        Some(r) => {
            let rv = chars_of(r.as_str());
            let iv = chars_of(id.as_str());
            if !seq_eq(&rv, &iv) {
                let mut t = chars_of("#");
                push_all(&mut t, &iv);
                targets.push((string_of(&rv), string_of(&t)));
                assert(pairs_view(targets@) =~= before + seq![(r@, "#"@ + id@)]);
            } else {
                assert(pairs_view(targets@) =~= before + Seq::<(Seq<char>, Seq<char>)>::empty());
            }
        },
        None => {
            assert(pairs_view(targets@) =~= before + Seq::<(Seq<char>, Seq<char>)>::empty());
        },
    }
}

/// Whether a section tag is a statement's: its classes hold `env` and
/// `statement`.
pub open spec fn is_statement_tag() -> spec_fn(Seq<Option<Seq<char>>>) -> bool {
    |c: Seq<Option<Seq<char>>>| anchors::has_class_attr(group(c, 1), "env"@) && anchors::has_class_attr(
        group(c, 1),
        "statement"@,
    )
}

/// The link targets of the first `n` section tags.
pub open spec fn statement_moves(caps: Seq<Seq<Option<Seq<char>>>>, ans: Seq<AnchorView>, n: nat) -> Seq<(Seq<char>, Seq<char>)>
    decreases n,
{
    if n == 0 || n > caps.len() {
        Seq::empty()
    } else {
        let i = taken(caps, ans.len(), is_statement_tag(), (n - 1) as nat);
        statement_moves(caps, ans, (n - 1) as nat) + if takes(caps, ans.len(), is_statement_tag(), n - 1) {
            moved(ans[i as int].raw_id, ans[i as int].id)
        } else {
            Seq::empty()
        }
    }
}

/// The body whose statement sections, in order, carry the ids of `ans`, and
/// whose links to their old ids point at the new ones.
pub open spec fn statements_identified(body: Seq<char>, ans: Seq<AnchorView>) -> Seq<char> {
    let p = HTML_SECTION_PATTERN@;
    match (patterns::regex_split(p, body), patterns::regex_captures(p, body)) {
        (Some(pieces), Some(caps)) => retargeted(
            patterns::interleave(
                pieces,
                Seq::new(
                    caps.len(),
                    |k: int|
                        if takes(caps, ans.len(), is_statement_tag(), k) {
                            "<section"@ + with_id(
                                group(caps[k], 1),
                                ans[taken(caps, ans.len(), is_statement_tag(), k as nat) as int].id,
                            ) + ">"@
                        } else {
                            group(caps[k], 0)
                        },
                ),
            ),
            statement_moves(caps, ans, caps.len()),
        ),
        _ => body,
    }
}

/// The selector of the statement sections.
pub const STATEMENT_SELECTOR: &'static str = "section.env.statement";

/// The anchors of the first `n` statement sections that have a stable id.
pub open spec fn anchors_from(
    els: Seq<(Seq<char>, Seq<Option<Seq<char>>>, Seq<char>)>,
    fs: Seq<Seq<Option<(Seq<Seq<char>>, Seq<char>)>>>,
    n: nat,
) -> Seq<AnchorView>
    decreases n,
{
    if n == 0 || n > els.len() {
        Seq::empty()
    } else {
        let f = if n - 1 < fs.len() {
            fs[n - 1]
        } else {
            Seq::empty()
        };
        anchors_from(els, fs, (n - 1) as nat) + match anchors::statement_slug(first_text(f, 0), first_text(f, 1)) {
            Some(id) => seq![AnchorView { raw_id: attr_at(els[n - 1], 0), id }],
            None => Seq::empty(),
        }
    }
}

/// The anchors of the statement sections of the body, as `scraper` reads
/// it.
pub open spec fn statement_anchors(body: Seq<char>) -> Seq<AnchorView> {
    match dom::html_select(body, false, STATEMENT_SELECTOR@, seq!["id"@], seq![".env-kind"@, ".env-number"@]) {
        Some(s) => anchors_from(dom::els_of(s), dom::fs_of(s), s.len()),
        _ => Seq::empty(),
    }
}

pub fn collect_statement_anchors(body: &str) -> (res: Vec<StatementAnchor>)
    ensures
        anchors_view(res@) == statement_anchors(body@),
{
    proof {
        reveal_strlit("id");
        reveal_strlit(".env-kind");
        reveal_strlit(".env-number");
    }
    let names = dom::strings(&vec!["id"]);
    let subs = dom::strings(&vec![".env-kind", ".env-number"]);
    assert(patterns::strings_view(names@) =~= seq!["id"@]);
    assert(patterns::strings_view(subs@) =~= seq![".env-kind"@, ".env-number"@]);
    let sel = dom::select_html(body, false, STATEMENT_SELECTOR, &names, &subs);
    let mut out: Vec<StatementAnchor> = Vec::new();
    match sel {
        Some(els) => {
            let ghost ev = dom::els_of(dom::selected_view(els@));
            let ghost fsv = dom::fs_of(dom::selected_view(els@));
            let mut k: usize = 0;
            while k < els.len()
                invariant
                    ev == dom::els_of(dom::selected_view(els@)),
                    fsv == dom::fs_of(dom::selected_view(els@)),
                    k <= els.len(),
                    anchors_view(out@) == anchors_from(ev, fsv, k as nat),
                decreases els.len() - k,
            {
                let f = &els[k].3;
                let ghost fk = fsv[k as int];
                assert(firsts_of(f@) =~= fk);
                assert(ev[k as int] == dom::picked_view(els@[k as int]));
                let ghost before = anchors_view(out@);
                match anchors::statement_slug_of(first_text_of(f, 0), first_text_of(f, 1)) {
                    Some(id) => {
                        let a = StatementAnchor { raw_id: opt_chars(attr_at_of(&els[k], 0)), id: string_of(&id) };
                        let ghost av = a@;
                        out.push(a);
                        assert(anchors_view(out@) =~= before + seq![av]);
                    },
                    None => {
                        assert(anchors_view(out@) =~= before + Seq::<AnchorView>::empty());
                    },
                }
                k += 1;
            }
        },
        _ => {},
    }
    out
}

impl HtmlParts {
    /// Gives the numbered headings of the body, in order, the ids of the
    /// extracted headings, and points links to their old ids at the new
    /// ones.
    pub fn rewrite_heading_ids(&mut self)
        ensures
            final(self).body_html@ == headings_identified(
                old(self).body_html@,
                headings_view(old(self).headings@),
            ),
            final(self).meta == old(self).meta,
            final(self).headings == old(self).headings,
            final(self).bibliography == old(self).bibliography,
            final(self).endnotes == old(self).endnotes,
            final(self).rendered_endnotes == old(self).rendered_endnotes,
    {
        let ghost hv = headings_view(self.headings@);
        let ghost is_tag = is_heading_tag();
        let new_body = match patterns::matches_of(HTML_HEADING_PATTERN, self.body_html.as_str()) {
            Some((pieces, caps)) => {
                let ghost cv = patterns::captures_view(caps@);
                let mut reps: Vec<Vec<char>> = Vec::new();
                let mut targets: Vec<(String, String)> = Vec::new();
                let mut idx: usize = 0;
                let mut k: usize = 0;
                while k < caps.len()
                    invariant
                        cv == patterns::captures_view(caps@),
                        hv == headings_view(self.headings@),
                        is_tag == is_heading_tag(),
                        k <= caps.len(),
                        idx == taken(cv, hv.len(), is_tag, k as nat),
                        idx <= self.headings.len(),
                        pairs_view(targets@) == heading_moves(cv, hv, k as nat),
                        text::vecs_view(reps@) =~= Seq::new(
                            k as nat,
                            |j: int|
                                if takes(cv, hv.len(), is_tag, j) {
                                    heading_tag(cv[j], hv[taken(cv, hv.len(), is_tag, j as nat) as int].id)
                                } else {
                                    group(cv[j], 0)
                                },
                        ),
                    decreases caps.len() - k,
                {
                    let ghost c = cv[k as int];
                    assert(c == groups_view(caps@[k as int]@));
                    let attrs = group_of(&caps[k], 2);
                    let inner = group_of(&caps[k], 3);
                    let is_heading = crate::text::find_str(&attrs, "notes-heading").is_some()
                        && !crate::text::find_str(&inner, "Bibliography for this chapter").is_some();
                    assert(is_heading == is_tag(c));
                    let ghost rb = text::vecs_view(reps@);
                    let ghost tb = pairs_view(targets@);
                    if is_heading && idx < self.headings.len() {
                        let h = &self.headings[idx];
                        assert(hv[idx as int] == h@);
                        moved_of(&h.raw_id, &h.id, &mut targets);
                        let level = group_of(&caps[k], 1);
                        let attrs_s = string_of(&attrs);
                        let mut out = chars_of("<h");
                        push_all(&mut out, &level);
                        push_str(&mut out, anchors::set_id_attr(attrs_s.as_str(), h.id.as_str()).as_str());
                        push_str(&mut out, ">");
                        push_all(&mut out, &inner);
                        push_str(&mut out, "</h");
                        push_all(&mut out, &level);
                        push_str(&mut out, ">");
                        assert(out@ =~= heading_tag(c, hv[idx as int].id));
                        reps.push(out);
                        idx += 1;
                    } else {
                        reps.push(group_of(&caps[k], 0));
                        assert(pairs_view(targets@) =~= tb + Seq::<(Seq<char>, Seq<char>)>::empty());
                    }
                    assert(text::vecs_view(reps@) =~= rb.push(
                        if takes(cv, hv.len(), is_tag, k as int) {
                            heading_tag(c, hv[taken(cv, hv.len(), is_tag, k as nat) as int].id)
                        } else {
                            group(c, 0)
                        },
                    ));
                    k += 1;
                }
                let b = string_of(&patterns::interleave_of(&pieces, &reps));
                anchors::rewrite_href_targets(b, &targets)
            },
            None => string_of(&chars_of(self.body_html.as_str())),
        };
        self.body_html = new_body;
    }

    /// Gives the statement sections of the body, in order, their stable ids,
    /// and points links to their old ids at the new ones.
    pub fn rewrite_statement_ids(&mut self)
        ensures
            final(self).body_html@ == statements_identified(
                old(self).body_html@,
                statement_anchors(old(self).body_html@),
            ),
            final(self).meta == old(self).meta,
            final(self).headings == old(self).headings,
            final(self).bibliography == old(self).bibliography,
            final(self).endnotes == old(self).endnotes,
            final(self).rendered_endnotes == old(self).rendered_endnotes,
    {
        let anchors = collect_statement_anchors(self.body_html.as_str());
        let ghost av = anchors_view(anchors@);
        let ghost is_tag = is_statement_tag();
        let new_body = match patterns::matches_of(HTML_SECTION_PATTERN, self.body_html.as_str()) {
            Some((pieces, caps)) => {
                let ghost cv = patterns::captures_view(caps@);
                let mut reps: Vec<Vec<char>> = Vec::new();
                let mut targets: Vec<(String, String)> = Vec::new();
                let mut idx: usize = 0;
                let mut k: usize = 0;
                while k < caps.len()
                    invariant
                        cv == patterns::captures_view(caps@),
                        av == anchors_view(anchors@),
                        is_tag == is_statement_tag(),
                        k <= caps.len(),
                        idx == taken(cv, av.len(), is_tag, k as nat),
                        idx <= anchors.len(),
                        pairs_view(targets@) == statement_moves(cv, av, k as nat),
                        text::vecs_view(reps@) =~= Seq::new(
                            k as nat,
                            |j: int|
                                if takes(cv, av.len(), is_tag, j) {
                                    "<section"@ + with_id(
                                        group(cv[j], 1),
                                        av[taken(cv, av.len(), is_tag, j as nat) as int].id,
                                    ) + ">"@
                                } else {
                                    group(cv[j], 0)
                                },
                        ),
                    decreases caps.len() - k,
                {
                    let ghost c = cv[k as int];
                    assert(c == groups_view(caps@[k as int]@));
                    let attrs = string_of(&group_of(&caps[k], 1));
                    let is_statement = anchors::attrs_has_class(attrs.as_str(), "env")
                        && anchors::attrs_has_class(attrs.as_str(), "statement");
                    assert(is_statement == is_tag(c));
                    let ghost rb = text::vecs_view(reps@);
                    let ghost tb = pairs_view(targets@);
                    if is_statement && idx < anchors.len() {
                        let a = &anchors[idx];
                        assert(av[idx as int] == a@);
                        moved_of(&a.raw_id, &a.id, &mut targets);
                        let mut out = chars_of("<section");
                        push_str(&mut out, anchors::set_id_attr(attrs.as_str(), a.id.as_str()).as_str());
                        push_str(&mut out, ">");
                        reps.push(out);
                        idx += 1;
                    } else {
                        reps.push(group_of(&caps[k], 0));
                        assert(pairs_view(targets@) =~= tb + Seq::<(Seq<char>, Seq<char>)>::empty());
                    }
                    assert(text::vecs_view(reps@) =~= rb.push(
                        if takes(cv, av.len(), is_tag, k as int) {
                            "<section"@ + with_id(
                                group(c, 1),
                                av[taken(cv, av.len(), is_tag, k as nat) as int].id,
                            ) + ">"@
                        } else {
                            group(c, 0)
                        },
                    ));
                    k += 1;
                }
                let b = string_of(&patterns::interleave_of(&pieces, &reps));
                anchors::rewrite_href_targets(b, &targets)
            },
            None => string_of(&chars_of(self.body_html.as_str())),
        };
        self.body_html = new_body;
    }
}

} // verus!
