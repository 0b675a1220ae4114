//! The page around the body: the masthead or chapter rail, the chapter's
//! citation panel, the table of contents, the list of notes, the document
//! shell with its styles and scripts.
use vstd::prelude::*;
use crate::text;
use crate::text::{chars_of, string_of, push_all, push_str, decimal_of};
use crate::markup;
use crate::markup::{escape_html_of, escape_attr_of};
use crate::math;
use crate::math::MathMode;
use crate::body::math_for;
use crate::parts::{Heading, HeadingView, headings_view};
use crate::footnotes::{RenderedEndnote, ShownNote, shown_view};
use crate::config::Config;
use crate::chapters::{ExportConfig, ChapterNav, CitationConfig, all_plain, all_portable, plain_href, chapter_for};
use crate::paths::{plain_file_name, portable};
use crate::config::opt_view;
use crate::notes;
use crate::parts::HtmlParts;
use crate::scripts;

verus! {

pub open spec fn str_opt(o: Option<&str>) -> Option<Seq<char>> {
    match o {
        Some(p) => Some(p@),
        None => None,
    }
}

fn push_html(out: &mut Vec<char>, s: &str)
    ensures
        final(out)@ == old(out)@ + markup::escape_html(s@),
{
    push_all(out, &escape_html_of(&chars_of(s)));
}

fn push_attr(out: &mut Vec<char>, s: &str)
    ensures
        final(out)@ == old(out)@ + markup::escape_attr(s@),
{
    push_all(out, &escape_attr_of(&chars_of(s)));
}

fn push_number(out: &mut Vec<char>, n: u64)
    ensures
        final(out)@ == old(out)@ + text::decimal(n as nat),
{
    push_all(out, &decimal_of(n));
}

// ---------------------------------------------------------------------------
// Table of contents
// ---------------------------------------------------------------------------

/// A heading's title HTML with its math rendered for the mode.
pub fn render_heading_title(heading: &Heading, math_mode: MathMode) -> (res: String)
    ensures
        res@ == math_for(math_mode, heading.title_html@),
{
    math::postprocess_html_math(string_of(&chars_of(heading.title_html.as_str())), math_mode)
}

/// The entry of a heading in the table of contents.
pub open spec fn toc_line(h: HeadingView, mode: MathMode) -> Seq<char> {
    "<li class=\"toc-l"@ + text::decimal(h.level as nat) + "\"><a href=\"#"@ + markup::escape_attr(h.id)
        + "\"><span class=\"toc-no\">"@ + markup::escape_html(h.number)
        + "</span><span class=\"toc-title\">"@ + math_for(mode, h.title_html) + "</span></a></li>\n"@
}

/// The entries of the first `n` headings.
pub open spec fn toc_lines(hs: Seq<HeadingView>, mode: MathMode, n: nat) -> Seq<char>
    decreases n,
{
    if n == 0 || n > hs.len() {
        Seq::empty()
    } else {
        toc_lines(hs, mode, (n - 1) as nat) + toc_line(hs[n - 1], mode)
    }
}

/// The table of contents: one entry per heading, in order.
pub open spec fn toc(hs: Seq<HeadingView>, mode: MathMode) -> Seq<char> {
    "<nav class=\"toc\" aria-label=\"Contents\"><ol>\n"@ + toc_lines(hs, mode, hs.len()) + "</ol></nav>\n"@
}

pub fn render_toc(headings: &Vec<Heading>, math_mode: MathMode) -> (res: String)
    ensures
        res@ == toc(headings_view(headings@), math_mode),
{
    let ghost hv = headings_view(headings@);
    let mut out = chars_of("<nav class=\"toc\" aria-label=\"Contents\"><ol>\n");
    let ghost start = out@;
    let mut k: usize = 0;
    while k < headings.len()
        invariant
            hv == headings_view(headings@),
            k <= headings.len(),
            out@ == start + toc_lines(hv, math_mode, k as nat),
        decreases headings.len() - k,
    {
        let h = &headings[k];
        assert(hv[k as int] == h@);
        let ghost before = out@;
        push_str(&mut out, "<li class=\"toc-l");
        push_number(&mut out, h.level as u64);
        push_str(&mut out, "\"><a href=\"#");
        push_attr(&mut out, h.id.as_str());
        push_str(&mut out, "\"><span class=\"toc-no\">");
        push_html(&mut out, h.number.as_str());
        push_str(&mut out, "</span><span class=\"toc-title\">");
        push_str(&mut out, render_heading_title(h, math_mode).as_str());
        push_str(&mut out, "</span></a></li>\n");
        assert(out@ =~= before + toc_line(hv[k as int], math_mode));
        k += 1;
    }
    push_str(&mut out, "</ol></nav>\n");
    string_of(&out)
}

// ---------------------------------------------------------------------------
// Notes at the end
// ---------------------------------------------------------------------------

/// The `k`-th note of the list (from 0), linking back to its reference.
pub open spec fn endnote_line(k: nat, note: ShownNote) -> Seq<char> {
    let seq = text::decimal(k + 1);
    "<p id=\"fn-end-"@ + seq + "\"><a class=\"footnote-backref\" href=\"#fnref-"@ + seq + "\">"@
        + markup::escape_html(note.number) + "</a><span class=\"footnote-body\">"@ + note.body_html
        + "</span></p>\n"@
}

/// The lines of the first `n` notes.
pub open spec fn endnote_lines(notes: Seq<ShownNote>, n: nat) -> Seq<char>
    decreases n,
{
    if n == 0 || n > notes.len() {
        Seq::empty()
    } else {
        endnote_lines(notes, (n - 1) as nat) + endnote_line((n - 1) as nat, notes[n - 1])
    }
}

/// The list of notes, or nothing when there is no note.
pub open spec fn endnotes_section(notes: Seq<ShownNote>) -> Seq<char> {
    if notes.len() == 0 {
        Seq::empty()
    } else {
        "<section class=\"endnotes\" id=\"endnotes\">\n<h1>Notes</h1>\n"@ + endnote_lines(notes, notes.len())
            + "</section>\n"@
    }
}

pub fn render_endnotes(notes: &Vec<RenderedEndnote>) -> (res: String)
    ensures
        res@ == endnotes_section(shown_view(notes@)),
{
    if notes.len() == 0 {
        return String::new();
    }
    let ghost nv = shown_view(notes@);
    let mut out = chars_of("<section class=\"endnotes\" id=\"endnotes\">\n<h1>Notes</h1>\n");
    let ghost start = out@;
    let mut k: usize = 0;
    while k < notes.len()
        invariant
            nv == shown_view(notes@),
            k <= notes.len(),
            out@ == start + endnote_lines(nv, k as nat),
        decreases notes.len() - k,
    {
        let note = &notes[k];
        assert(nv[k as int] == note@);
        let ghost before = out@;
        push_str(&mut out, "<p id=\"fn-end-");
        push_number(&mut out, (k + 1) as u64);
        push_str(&mut out, "\"><a class=\"footnote-backref\" href=\"#fnref-");
        push_number(&mut out, (k + 1) as u64);
        push_str(&mut out, "\">");
        push_html(&mut out, note.number.as_str());
        push_str(&mut out, "</a><span class=\"footnote-body\">");
        push_str(&mut out, note.body_html.as_str());
        push_str(&mut out, "</span></p>\n");
        assert(out@ =~= before + endnote_line(k as nat, nv[k as int]));
        k += 1;
    }
    push_str(&mut out, "</section>\n");
    string_of(&out)
}

// ---------------------------------------------------------------------------
// Masthead
// ---------------------------------------------------------------------------

/// The site title, as a link to the index when there is one.
pub open spec fn course_title(index: Option<Seq<char>>, site_title: Seq<char>) -> Seq<char> {
    match index {
        Some(i) => "<a class=\"course-title course-title-link\" href=\""@ + markup::escape_attr(i) + "\">"@
            + markup::escape_html(site_title) + "</a>"@,
        None => "<div class=\"course-title\">"@ + markup::escape_html(site_title) + "</div>"@,
    }
}

/// The header links: to the index and to the PDF, when there are any.
pub open spec fn top_links(index: Option<Seq<char>>, pdf: Option<Seq<char>>) -> Seq<char> {
    if index is Some || pdf is Some {
        "<div class=\"top-links\">"@ + match index {
            Some(i) => "<a href=\""@ + markup::escape_attr(i) + "\">Index</a>"@,
            None => Seq::empty(),
        } + match pdf {
            Some(p) => "<a href=\""@ + markup::escape_attr(p) + "\">PDF</a>"@,
            None => Seq::empty(),
        } + "</div>"@
    } else {
        Seq::empty()
    }
}

/// The header of a page outside the chapters: site title, authors, links.
pub open spec fn masthead(c: &Config) -> Seq<char> {
    let index = crate::config::opt_view(c.index_href);
    "<header class=\"site-masthead\">\n"@ + course_title(index, c.site_title@) + "\n"@
        + "<div class=\"course-authors\">"@ + markup::escape_html(c.authors@) + "</div>\n"@ + top_links(
        index,
        crate::config::opt_view(c.pdf_href),
    ) + "</header>\n"@
}

fn push_course_title(out: &mut Vec<char>, index: &Option<String>, site_title: &str)
    ensures
        final(out)@ == old(out)@ + course_title(crate::config::opt_view(*index), site_title@),
{
    match index {
        Some(i) => {
            push_str(out, "<a class=\"course-title course-title-link\" href=\"");
            push_attr(out, i.as_str());
            push_str(out, "\">");
            push_html(out, site_title);
            push_str(out, "</a>");
        },
        None => {
            push_str(out, "<div class=\"course-title\">");
            push_html(out, site_title);
            push_str(out, "</div>");
        },
    }
}

pub fn render_masthead(config: &Config) -> (res: String)
    ensures
        res@ == masthead(config),
{
    let mut out = chars_of("<header class=\"site-masthead\">\n");
    push_course_title(&mut out, &config.index_href, config.site_title.as_str());
    push_str(&mut out, "\n");
    push_str(&mut out, "<div class=\"course-authors\">");
    push_html(&mut out, config.authors.as_str());
    push_str(&mut out, "</div>\n");
    if config.index_href.is_some() || config.pdf_href.is_some() {
        push_str(&mut out, "<div class=\"top-links\">");
        match &config.index_href {
            Some(i) => {
                push_str(&mut out, "<a href=\"");
                push_attr(&mut out, i.as_str());
                push_str(&mut out, "\">Index</a>");
            },
            None => {},
        }
        match &config.pdf_href {
            Some(p) => {
                push_str(&mut out, "<a href=\"");
                push_attr(&mut out, p.as_str());
                push_str(&mut out, "\">PDF</a>");
            },
            None => {},
        }
        push_str(&mut out, "</div>");
    }
    push_str(&mut out, "</header>\n");
    assert(out@ =~= masthead(config));
    string_of(&out)
}

// ---------------------------------------------------------------------------
// Chapter rail
// ---------------------------------------------------------------------------

/// A chapter's link in the rail, marked when it is the current chapter.
pub open spec fn chapter_link(idx: int, ch: &ChapterNav, href: Seq<char>, current: int) -> Seq<char> {
    "<a class=\""@ + (if idx == current {
        "chapter-rail-link is-current"@
    } else {
        "chapter-rail-link"@
    }) + "\" href=\""@ + markup::escape_attr(href) + "\""@ + (if idx == current {
        " aria-current=\"page\""@
    } else {
        Seq::empty()
    }) + "><span>"@ + text::decimal(ch.number as nat) + "</span>"@ + markup::escape_html(ch.short_title@)
        + "</a>\n"@
}

/// The links of the first `n` chapters.
pub open spec fn chapter_links(chs: Seq<ChapterNav>, hrefs: Seq<Seq<char>>, current: int, n: nat) -> Seq<char>
    decreases n,
{
    if n == 0 || n > chs.len() {
        Seq::empty()
    } else {
        chapter_links(chs, hrefs, current, (n - 1) as nat) + chapter_link(
            n - 1,
            &chs[n - 1],
            hrefs[n - 1],
            current,
        )
    }
}

/// A section's link in the rail.
pub open spec fn section_link(h: HeadingView, mode: MathMode) -> Seq<char> {
    "<a class=\"chapter-section-link chapter-section-l"@ + text::decimal(h.level as nat) + "\" href=\"#"@
        + markup::escape_attr(h.id) + "\" data-section-link=\""@ + markup::escape_attr(h.id)
        + "\"><span class=\"chapter-section-no\">"@ + markup::escape_html(h.number)
        + "</span><span class=\"chapter-section-title\">"@ + math_for(mode, h.title_html) + "</span></a>\n"@
}

/// The links of the first `n` sections.
pub open spec fn section_links(hs: Seq<HeadingView>, mode: MathMode, n: nat) -> Seq<char>
    decreases n,
{
    if n == 0 || n > hs.len() {
        Seq::empty()
    } else {
        section_links(hs, mode, (n - 1) as nat) + section_link(hs[n - 1], mode)
    }
}

/// The chapter rail: the course, the links to the chapters (`hrefs` being
/// their pages), and the links to this chapter's sections.
pub open spec fn chapter_rail(
    chapters: Seq<ChapterNav>,
    hrefs: Seq<Seq<char>>,
    current: int,
    hs: Seq<HeadingView>,
    c: &Config,
) -> Seq<char> {
    "<nav class=\"chapter-rail\" aria-label=\"Chapters\">\n"@
        + "<div class=\"chapter-rail-course\"><div class=\"course-event\">ACM EC&rsquo;26 Tutorial</div>"@
        + course_title(crate::config::opt_view(c.index_href), c.site_title@)
        + "<div class=\"course-authors\">"@ + markup::escape_html(c.authors@) + "</div></div>\n"@
        + "<div class=\"chapter-rail-heading\">Chapters</div>\n"@ + chapter_links(
        chapters,
        hrefs,
        current,
        chapters.len(),
    ) + (if hs.len() > 0 {
        "<div class=\"chapter-rail-heading chapter-rail-section-heading\">This Chapter</div>\n"@
            + section_links(hs, c.math_mode, hs.len())
    } else {
        Seq::empty()
    }) + "</nav>\n"@
}

fn push_section_links(out: &mut Vec<char>, headings: &Vec<Heading>, mode: MathMode)
    ensures
        final(out)@ == old(out)@ + section_links(headings_view(headings@), mode, headings@.len()),
{
    let ghost heads = headings_view(headings@);
    let ghost start = out@;
    let mut j: usize = 0;
    while j < headings.len()
        invariant
            heads == headings_view(headings@),
            j <= headings.len(),
            out@ == start + section_links(heads, mode, j as nat),
        decreases headings.len() - j,
    {
        let h = &headings[j];
        assert(heads[j as int] == h@);
        let ghost before = out@;
        push_str(out, "<a class=\"chapter-section-link chapter-section-l");
        push_number(out, h.level as u64);
        push_str(out, "\" href=\"#");
        push_attr(out, h.id.as_str());
        push_str(out, "\" data-section-link=\"");
        push_attr(out, h.id.as_str());
        push_str(out, "\"><span class=\"chapter-section-no\">");
        push_html(out, h.number.as_str());
        push_str(out, "</span><span class=\"chapter-section-title\">");
        push_str(out, render_heading_title(h, mode).as_str());
        push_str(out, "</span></a>\n");
        assert(out@ =~= before + section_link(heads[j as int], mode));
        j += 1;
    }
}

fn push_chapter_link(out: &mut Vec<char>, k: usize, ch: &ChapterNav, href: &str, current: usize)
    ensures
        final(out)@ == old(out)@ + chapter_link(k as int, ch, href@, current as int),
{
    let ghost before = out@;
    push_str(out, "<a class=\"");
    if k == current {
        push_str(out, "chapter-rail-link is-current");
    } else {
        push_str(out, "chapter-rail-link");
    }
    push_str(out, "\" href=\"");
    push_attr(out, href);
    push_str(out, "\"");
    if k == current {
        push_str(out, " aria-current=\"page\"");
    }
    push_str(out, "><span>");
    push_number(out, ch.number as u64);
    push_str(out, "</span>");
    push_html(out, ch.short_title.as_str());
    push_str(out, "</a>\n");
    assert(out@ =~= before + chapter_link(k as int, ch, href@, current as int));
}

fn push_chapter_links(out: &mut Vec<char>, export_config: &ExportConfig, current: usize, hrefs: &Vec<String>)
    requires
        hrefs.len() == export_config.chapters.len(),
    ensures
        final(out)@ == old(out)@ + chapter_links(
            export_config.chapters@,
            crate::patterns::strings_view(hrefs@),
            current as int,
            export_config.chapters@.len(),
        ),
{
    let ghost chs = export_config.chapters@;
    let ghost hv = crate::patterns::strings_view(hrefs@);
    let ghost start = out@;
    let mut k: usize = 0;
    while k < export_config.chapters.len()
        invariant
            chs == export_config.chapters@,
            hv == crate::patterns::strings_view(hrefs@),
            hrefs.len() == chs.len(),
            k <= chs.len(),
            out@ == start + chapter_links(chs, hv, current as int, k as nat),
        decreases chs.len() - k,
    {
        let ghost before = out@;
        push_chapter_link(out, k, &export_config.chapters[k], hrefs[k].as_str(), current);
        assert(out@ =~= before + chapter_link(k as int, &chs[k as int], hv[k as int], current as int));
        k += 1;
    }
}

/// The chapter rail, given the page of each chapter.
pub fn render_chapter_rail_with(
    export_config: &ExportConfig,
    current: usize,
    headings: &Vec<Heading>,
    config: &Config,
    hrefs: &Vec<String>,
) -> (res: String)
    requires
        hrefs.len() == export_config.chapters.len(),
    ensures
        res@ == chapter_rail(
            export_config.chapters@,
            crate::patterns::strings_view(hrefs@),
            current as int,
            headings_view(headings@),
            config,
        ),
{
    let ghost chs = export_config.chapters@;
    let ghost hv = crate::patterns::strings_view(hrefs@);
    let ghost heads = headings_view(headings@);
    let mut out = chars_of("<nav class=\"chapter-rail\" aria-label=\"Chapters\">\n");
    push_str(&mut out, "<div class=\"chapter-rail-course\"><div class=\"course-event\">ACM EC&rsquo;26 Tutorial</div>");
    push_course_title(&mut out, &config.index_href, config.site_title.as_str());
    push_str(&mut out, "<div class=\"course-authors\">");
    push_html(&mut out, config.authors.as_str());
    push_str(&mut out, "</div></div>\n");
    push_str(&mut out, "<div class=\"chapter-rail-heading\">Chapters</div>\n");
    push_chapter_links(&mut out, export_config, current, hrefs);
    if headings.len() > 0 {
        push_str(&mut out, "<div class=\"chapter-rail-heading chapter-rail-section-heading\">This Chapter</div>\n");
        push_section_links(&mut out, headings, config.math_mode);
    }
    push_str(&mut out, "</nav>\n");
    assert(out@ =~= chapter_rail(chs, hv, current as int, heads, config));
    string_of(&out)
}

/// The pages of chapters whose sources are all plain paths.
pub open spec fn plain_hrefs(chapters: Seq<ChapterNav>) -> Seq<Seq<char>> {
    Seq::new(chapters.len(), |k: int| plain_href(chapters[k].source@)->0)
}

/// Optional pages as characters.
pub open spec fn pages_view(o: Option<Vec<String>>) -> Option<Seq<Seq<char>>> {
    match o {
        Some(v) => Some(crate::patterns::strings_view(v@)),
        None => None,
    }
}

/// The pages of all chapters, in order, when each chapter's source gives
/// one: each the href of its chapter; for plain sources, their stems with
/// `.html`.
pub fn chapter_pages(export_config: &ExportConfig) -> (res: Option<Vec<String>>)
    ensures
        res matches Some(v) ==> v.len() == export_config.chapters.len(),
        res matches Some(v) ==> forall|k: int|
            0 <= k < v.len() ==> crate::chapters::is_href_of(
                export_config.chapters@[k].source@,
                Ok(#[trigger] v@[k]@),
            ),
        all_plain(export_config.chapters@) ==> pages_view(res) == Some(plain_hrefs(export_config.chapters@)),
        all_portable(export_config.chapters@) && !all_plain(export_config.chapters@) ==> res is None,
{
    let ghost chs = export_config.chapters@;
    let mut out: Vec<String> = Vec::new();
    let mut k: usize = 0;
    while k < export_config.chapters.len()
        invariant
            chs == export_config.chapters@,
            k <= chs.len(),
            out.len() == k,
            forall|j: int|
                0 <= j < k ==> crate::chapters::is_href_of(chs[j].source@, Ok(#[trigger] out@[j]@)),
            all_plain(chs) ==> crate::patterns::strings_view(out@) =~= plain_hrefs(chs).take(k as int),
            forall|j: int| 0 <= j < k ==> (#[trigger] portable(chs[j].source@)) ==> plain_file_name(chs[j].source@) is Some,
        decreases export_config.chapters.len() - k,
    {
        let r = export_config.chapters[k].href();
        assert(all_plain(chs) ==> plain_file_name(chs[k as int].source@) is Some);
        match r {
            Ok(h) => {
                let ghost before = out@;
                out.push(h);
                assert(out@[k as int] == h);
                assert forall|j: int|
                    0 <= j < k + 1 implies crate::chapters::is_href_of(chs[j].source@, Ok(#[trigger] out@[j]@)) by {
                    if j < k {
                        assert(out@[j] == before[j]);
                    }
                }
            },
            Err(_) => {
                proof {
                    if all_portable(chs) {
                        assert(portable(chs[k as int].source@));
                        assert(plain_file_name(chs[k as int].source@) is None);
                        assert(!all_plain(chs));
                    }
                }
                return None;
            },
        }
        k += 1;
    }
    proof {
        if all_portable(chs) {
            assert forall|j: int| 0 <= j < chs.len() implies (#[trigger] plain_file_name(chs[j].source@)) is Some by {
                assert(portable(chs[j].source@));
            }
        }
    }
    assert(plain_hrefs(chs).take(k as int) =~= plain_hrefs(chs));
    Some(out)
}

/// The chapter rail, when every chapter's page can be derived from its
/// source; none otherwise.
pub fn render_chapter_rail(
    export_config: &ExportConfig,
    current: usize,
    headings: &Vec<Heading>,
    config: &Config,
) -> (res: Option<String>)
    ensures
        res matches Some(r) ==> exists|hrefs: Seq<Seq<char>>|
            hrefs.len() == export_config.chapters@.len() && r@ == #[trigger] chapter_rail(
                export_config.chapters@,
                hrefs,
                current as int,
                headings_view(headings@),
                config,
            ),
        all_portable(export_config.chapters@) && !all_plain(export_config.chapters@) ==> res is None,
        all_plain(export_config.chapters@) ==> opt_view(res) == Some(
            chapter_rail(
                export_config.chapters@,
                plain_hrefs(export_config.chapters@),
                current as int,
                headings_view(headings@),
                config,
            ),
        ),
{
    match chapter_pages(export_config) {
        Some(hrefs) => Some(render_chapter_rail_with(export_config, current, headings, config, &hrefs)),
        None => None,
    }
}

// ---------------------------------------------------------------------------
// Chapter citation
// ---------------------------------------------------------------------------

/// The BibTeX entry of a chapter whose page is `href`.
pub open spec fn chapter_bibtex(
    citation: &CitationConfig,
    number: u8,
    href: Seq<char>,
    title: Seq<char>,
    site_title: Seq<char>,
) -> Seq<char> {
    "@misc{"@ + citation.key_prefix@ + "-chapter-"@ + text::decimal(number as nat) + ",\n  author = {"@
        + citation.authors@ + "},\n  title = {"@ + notes::bibtex_escape(
        crate::chapters::chapter_template(citation.title_template@, number, title),
    ) + "},\n  booktitle = {"@ + notes::bibtex_escape(site_title) + "},\n"@ + match citation.note_template {
        Some(t) => "  note = {"@ + notes::bibtex_escape(crate::chapters::chapter_template(t@, number, title))
            + "},\n"@,
        None => Seq::empty(),
    } + "  year = {"@ + text::decimal(citation.year as nat) + "},\n  url = {"@ + href + "}\n}"@
}

/// The chapter's citation panel: a link to the PDF when there is one, and
/// the BibTeX entry to copy.
pub open spec fn citation_sidenote(
    citation: &CitationConfig,
    number: u8,
    href: Seq<char>,
    title: Seq<char>,
    site_title: Seq<char>,
    pdf: Option<Seq<char>>,
) -> Seq<char> {
    "<aside class=\"chapter-citation-sidenote\" aria-label=\"Chapter links and citation\">"@ + match pdf {
        Some(p) => "<a class=\"chapter-citation-pdf\" href=\""@ + markup::escape_attr(p)
            + "\">Download as PDF</a>"@,
        None => Seq::empty(),
    } + "<details class=\"chapter-citation-details\"><summary class=\"chapter-citation-title\">How to cite</summary><pre><code>"@
        + markup::escape_html(chapter_bibtex(citation, number, href, title, site_title))
        + "</code></pre></details></aside>\n"@
}

/// The citation panel of a chapter whose page is `href`.
pub fn render_chapter_citation_sidenote_with(
    export_config: &ExportConfig,
    chapter: &ChapterNav,
    href: &str,
    title: &str,
    site_title: &str,
    pdf_href: Option<&str>,
) -> (res: String)
    ensures
        res@ == citation_sidenote(
            &export_config.how_to_cite,
            chapter.number,
            href@,
            title@,
            site_title@,
            str_opt(pdf_href),
        ),
{
    let citation = &export_config.how_to_cite;
    let mut bib = chars_of("@misc{");
    push_str(&mut bib, citation.key_prefix.as_str());
    push_str(&mut bib, "-chapter-");
    push_number(&mut bib, chapter.number as u64);
    push_str(&mut bib, ",\n  author = {");
    push_str(&mut bib, citation.authors.as_str());
    push_str(&mut bib, "},\n  title = {");
    let ctitle = citation.citation_title(chapter.number, title);
    push_all(&mut bib, &notes::bibtex_escape_of(&chars_of(ctitle.as_str())));
    push_str(&mut bib, "},\n  booktitle = {");
    push_all(&mut bib, &notes::bibtex_escape_of(&chars_of(site_title)));
    push_str(&mut bib, "},\n");
    match citation.citation_note(chapter.number, title) {
        Some(note) => {
            push_str(&mut bib, "  note = {");
            push_all(&mut bib, &notes::bibtex_escape_of(&chars_of(note.as_str())));
            push_str(&mut bib, "},\n");
        },
        None => {},
    }
    push_str(&mut bib, "  year = {");
    push_number(&mut bib, citation.year as u64);
    push_str(&mut bib, "},\n  url = {");
    push_str(&mut bib, href);
    push_str(&mut bib, "}\n}");
    assert(bib@ =~= chapter_bibtex(citation, chapter.number, href@, title@, site_title@));
    let mut out = chars_of("<aside class=\"chapter-citation-sidenote\" aria-label=\"Chapter links and citation\">");
    match pdf_href {
        Some(p) => {
            push_str(&mut out, "<a class=\"chapter-citation-pdf\" href=\"");
            push_attr(&mut out, p);
            push_str(&mut out, "\">Download as PDF</a>");
        },
        None => {},
    }
    push_str(&mut out, "<details class=\"chapter-citation-details\"><summary class=\"chapter-citation-title\">How to cite</summary><pre><code>");
    push_all(&mut out, &escape_html_of(&bib));
    push_str(&mut out, "</code></pre></details></aside>\n");
    string_of(&out)
}

/// The citation panel of a chapter, when its page can be derived from its
/// source; none otherwise.
pub fn render_chapter_citation_sidenote(
    export_config: &ExportConfig,
    chapter: &ChapterNav,
    title: &str,
    site_title: &str,
    pdf_href: Option<&str>,
) -> (res: Option<String>)
    ensures
        res matches Some(r) ==> exists|href: Seq<char>|
            crate::chapters::is_href_of(chapter.source@, Ok(href)) && r@ == #[trigger] citation_sidenote(
                &export_config.how_to_cite,
                chapter.number,
                href,
                title@,
                site_title@,
                str_opt(pdf_href),
            ),
        portable(chapter.source@) && plain_file_name(chapter.source@) is None ==> res is None,
        plain_file_name(chapter.source@) is Some ==> opt_view(res) == Some(
            citation_sidenote(
                &export_config.how_to_cite,
                chapter.number,
                plain_href(chapter.source@)->0,
                title@,
                site_title@,
                str_opt(pdf_href),
            ),
        ),
{
    match chapter.href() {
        Ok(h) => Some(render_chapter_citation_sidenote_with(export_config, chapter, h.as_str(), title, site_title, pdf_href)),
        Err(_) => None,
    }
}

// ---------------------------------------------------------------------------
// The page
// ---------------------------------------------------------------------------

/// The chapter that the input is, by its file name.
pub fn current_chapter(config: &Config, chapters: &ExportConfig) -> (res: Option<usize>)
    ensures
        res matches Some(k) ==> k < chapters.chapters.len(),
        portable(config.input@) && all_portable(chapters.chapters@) ==> crate::chapters::index_view(res)
            == chapter_for(config.input@, chapters.chapters@),
{
    chapters.current_index_for_input(config.input.as_str())
}

/// The page head: metadata, title, styles, the math mode's assets.
#[verifier::opaque]
pub open spec fn page_head(c: &Config, title: Seq<char>, css: Seq<char>) -> Seq<char> {
    "<!doctype html>\n<html lang=\"en\">\n<head>\n"@ + "  <meta charset=\"utf-8\">\n"@
        + "  <meta name=\"viewport\" content=\"width=device-width, initial-scale=1\">\n"@ + (if c.math_mode
        == MathMode::Katex {
        math::KATEX_HEAD@
    } else {
        Seq::empty()
    }) + "  <title>"@ + markup::escape_html(title) + "</title>\n"@ + "  <style>\n"@ + css
        + "\n  </style>\n"@ + (if c.math_mode == MathMode::Katex {
        math::KATEX_SCRIPTS@
    } else {
        Seq::empty()
    }) + "</head>\n<body>\n"@
}

/// For a chapter, the current chapter is one of the export configuration's
/// and every chapter has its page.
pub open spec fn chapter_ready(export: Option<&ExportConfig>, current: Option<usize>, pages: nat) -> bool {
    match (export, current) {
        (Some(e), Some(k)) => k < e.chapters.len() && pages == e.chapters.len(),
        _ => true,
    }
}

/// Whether the page is a chapter's: there is an export configuration and
/// the input is one of its chapters.
pub open spec fn is_chapter(export: Option<&ExportConfig>, current: Option<usize>) -> bool {
    export is Some && current is Some
}

/// The chapter rail for a chapter, else the masthead.
#[verifier::opaque]
pub open spec fn page_nav(
    c: &Config,
    doc: &HtmlParts,
    export: Option<&ExportConfig>,
    current: Option<usize>,
    hrefs: Seq<Seq<char>>,
) -> Seq<char> {
    if is_chapter(export, current) {
        chapter_rail(export->0.chapters@, hrefs, current->0 as int, headings_view(doc.headings@), c)
    } else {
        masthead(c)
    }
}

/// The opening of the article, with the lecture number when there is one.
#[verifier::opaque]
pub open spec fn article_open(doc: &HtmlParts) -> Seq<char> {
    "<main class=\"page-shell\">\n<article class=\"lecture-content\""@ + match doc.meta.lecture_number {
        Some(n) => " data-lecture-number=\""@ + markup::escape_attr(n@) + "\""@,
        None => Seq::empty(),
    } + ">\n"@
}

/// For a chapter, its citation panel and its kicker.
#[verifier::opaque]
pub open spec fn chapter_intro(
    c: &Config,
    title: Seq<char>,
    export: Option<&ExportConfig>,
    current: Option<usize>,
    hrefs: Seq<Seq<char>>,
) -> Seq<char> {
    if is_chapter(export, current) {
        let ch = export->0.chapters@[current->0 as int];
        citation_sidenote(
            &export->0.how_to_cite,
            ch.number,
            hrefs[current->0 as int],
            title,
            c.site_title@,
            crate::config::opt_view(c.pdf_href),
        ) + "<p class=\"chapter-kicker\">Chapter "@ + text::decimal(ch.number as nat) + "</p>\n"@
    } else {
        Seq::empty()
    }
}

/// The title, and the table of contents when there are headings.
#[verifier::opaque]
pub open spec fn page_title(c: &Config, title: Seq<char>, doc: &HtmlParts) -> Seq<char> {
    let hs = headings_view(doc.headings@);
    "<h1 class=\"lecture-title\">"@ + markup::escape_html(title) + "</h1>\n"@ + (if hs.len() > 0 {
        toc(hs, c.math_mode)
    } else {
        Seq::empty()
    })
}

/// The body, the notes, the end of the article, the scripts (the chapter
/// ones for a chapter), the end of the page.
#[verifier::opaque]
pub open spec fn page_tail(doc: &HtmlParts, current: Option<usize>) -> Seq<char> {
    doc.body_html@ + endnotes_section(shown_view(doc.rendered_endnotes@)) + "</article>\n</main>\n"@
        + (if current is Some {
        scripts::CHAPTER_NAV_SCRIPT@ + scripts::CHAPTER_CITATION_SCRIPT@
    } else {
        Seq::empty()
    }) + scripts::EQUATION_WIDTH_SCRIPT@ + scripts::SETTLED_HASH_SCROLL_SCRIPT@ + "</body>\n</html>\n"@
}

/// The page: head; the chapter rail for a chapter, else the masthead; the
/// article with the lecture number, for a chapter its citation panel and
/// kicker, the title, the table of contents when there are headings, the
/// body and the notes; the scripts (the chapter ones for a chapter).
pub open spec fn page(
    c: &Config,
    title: Seq<char>,
    doc: &HtmlParts,
    export: Option<&ExportConfig>,
    current: Option<usize>,
    hrefs: Seq<Seq<char>>,
    css: Seq<char>,
) -> Seq<char> {
    page_head(c, title, css) + page_nav(c, doc, export, current, hrefs) + article_open(doc) + chapter_intro(
        c,
        title,
        export,
        current,
        hrefs,
    ) + page_title(c, title, doc) + page_tail(doc, current)
}

/// Whether `part` stands in `s` somewhere.
pub open spec fn holds_text(s: Seq<char>, part: Seq<char>) -> bool {
    exists|i: int| 0 <= i <= s.len() - part.len() && #[trigger] s.subrange(i, i + part.len()) == part
}

proof fn lemma_starts_concat(a: Seq<char>, b: Seq<char>, pre: Seq<char>)
    requires
        text::starts_with(a, pre),
    ensures
        text::starts_with(a + b, pre),
{
    assert((a + b).take(pre.len() as int) == a.take(pre.len() as int));
}

proof fn lemma_ends_concat(a: Seq<char>, b: Seq<char>, suf: Seq<char>)
    requires
        text::ends_with(b, suf),
    ensures
        text::ends_with(a + b, suf),
{
    assert((a + b).skip((a + b).len() - suf.len()) == b.skip(b.len() - suf.len()));
}

proof fn lemma_holds_concat(a: Seq<char>, b: Seq<char>, part: Seq<char>)
    requires
        holds_text(b, part),
    ensures
        holds_text(a + b, part),
{
    let i = choose|i: int| 0 <= i <= b.len() - part.len() && #[trigger] b.subrange(i, i + part.len()) == part;
    assert((a + b).subrange(a.len() + i, a.len() + i + part.len()) == b.subrange(i, i + part.len()));
}

proof fn lemma_holds_prefix(a: Seq<char>, b: Seq<char>, part: Seq<char>)
    requires
        holds_text(a, part),
    ensures
        holds_text(a + b, part),
{
    let i = choose|i: int| 0 <= i <= a.len() - part.len() && #[trigger] a.subrange(i, i + part.len()) == part;
    assert((a + b).subrange(i, i + part.len()) == a.subrange(i, i + part.len()));
}

proof fn lemma_holds_around(a: Seq<char>, v: Seq<char>, b: Seq<char>, pre: Seq<char>, post: Seq<char>)
    requires
        text::ends_with(a, pre),
        text::starts_with(b, post),
    ensures
        holds_text(a + v + b, pre + v + post),
{
    let i = a.len() - pre.len();
    let part = pre + v + post;
    assert((a + v + b).subrange(i, i + part.len()) =~= part) by {
        assert forall|k: int| 0 <= k < part.len() implies (a + v + b).subrange(i, i + part.len())[k]
            == part[k] by {
            if k < pre.len() {
                assert(a.skip(a.len() - pre.len())[k] == pre[k]);
            } else if k >= pre.len() + v.len() {
                assert(b.take(post.len() as int)[k - pre.len() - v.len()] == post[k - pre.len() - v.len()]);
            }
        }
    }
}

proof fn lemma_toc_line_link(h: HeadingView, mode: MathMode)
    ensures
        holds_text(toc_line(h, mode), "<a href=\"#"@ + markup::escape_attr(h.id) + "\">"@),
{
    let l1 = "<li class=\"toc-l"@;
    let l2 = "\"><a href=\"#"@;
    let l3 = "\"><span class=\"toc-no\">"@;
    let pre = "<a href=\"#"@;
    let post = "\">"@;
    reveal_strlit("\"><a href=\"#");
    reveal_strlit("<a href=\"#");
    reveal_strlit("\"><span class=\"toc-no\">");
    reveal_strlit("\">");
    assert(l2.skip(l2.len() - pre.len()) =~= pre);
    assert(l3.take(post.len() as int) =~= post);
    let a = l1 + text::decimal(h.level as nat) + l2;
    lemma_ends_concat(l1 + text::decimal(h.level as nat), l2, pre);
    let b = l3 + markup::escape_html(h.number) + "</span><span class=\"toc-title\">"@ + math_for(
        mode,
        h.title_html,
    ) + "</span></a></li>\n"@;
    lemma_starts_concat(l3, b.skip(l3.len() as int), post);
    assert(l3 + b.skip(l3.len() as int) == b);
    lemma_holds_around(a, markup::escape_attr(h.id), b, pre, post);
    assert(toc_line(h, mode) == a + markup::escape_attr(h.id) + b);
}

proof fn lemma_toc_lines_link(hs: Seq<HeadingView>, mode: MathMode, n: nat, k: int)
    requires
        0 <= k < n <= hs.len(),
    ensures
        holds_text(toc_lines(hs, mode, n), "<a href=\"#"@ + markup::escape_attr(hs[k].id) + "\">"@),
    decreases n,
{
    let part = "<a href=\"#"@ + markup::escape_attr(hs[k].id) + "\">"@;
    if k == n - 1 {
        lemma_toc_line_link(hs[k], mode);
        lemma_holds_concat(toc_lines(hs, mode, (n - 1) as nat), toc_line(hs[k], mode), part);
    } else {
        lemma_toc_lines_link(hs, mode, (n - 1) as nat, k);
        lemma_holds_prefix(toc_lines(hs, mode, (n - 1) as nat), toc_line(hs[n - 1], mode), part);
    }
}

/// Each entry of the table of contents links to its heading: for every
/// heading, the contents hold a link to `#` and the heading's id, escaped
/// as an attribute value (which decodes back to the id).
pub proof fn law_toc_links_to_headings(hs: Seq<HeadingView>, mode: MathMode, k: int)
    requires
        0 <= k < hs.len(),
    ensures
        holds_text(toc(hs, mode), "<a href=\"#"@ + markup::escape_attr(hs[k].id) + "\">"@),
        markup::decode_attr(markup::escape_attr(hs[k].id)) == hs[k].id,
{
    let part = "<a href=\"#"@ + markup::escape_attr(hs[k].id) + "\">"@;
    let open = "<nav class=\"toc\" aria-label=\"Contents\"><ol>\n"@;
    lemma_toc_lines_link(hs, mode, hs.len() as nat, k);
    lemma_holds_concat(open, toc_lines(hs, mode, hs.len() as nat), part);
    lemma_holds_prefix(open + toc_lines(hs, mode, hs.len() as nat), "</ol></nav>\n"@, part);
    markup::law_decode_undoes_escape(hs[k].id);
}

/// The link of a section in the chapter rail: its target and its
/// `data-section-link` are the same escaped id.
pub open spec fn section_target(id: Seq<char>) -> Seq<char> {
    "href=\"#"@ + markup::escape_attr(id) + "\" data-section-link=\""@ + markup::escape_attr(id) + "\""@
}

proof fn lemma_section_link_target(h: HeadingView, mode: MathMode)
    ensures
        holds_text(section_link(h, mode), section_target(h.id)),
{
    let l1 = "<a class=\"chapter-section-link chapter-section-l"@;
    let l2 = "\" href=\"#"@;
    let l3 = "\" data-section-link=\""@;
    let l4 = "\"><span class=\"chapter-section-no\">"@;
    let pre = "href=\"#"@;
    let v = markup::escape_attr(h.id) + l3 + markup::escape_attr(h.id);
    let post = "\""@;
    reveal_strlit("\" href=\"#");
    reveal_strlit("href=\"#");
    reveal_strlit("\"><span class=\"chapter-section-no\">");
    reveal_strlit("\"");
    assert(l2.skip(l2.len() - pre.len()) =~= pre);
    assert(l4.take(post.len() as int) =~= post);
    let a = l1 + text::decimal(h.level as nat) + l2;
    lemma_ends_concat(l1 + text::decimal(h.level as nat), l2, pre);
    let b = l4 + markup::escape_html(h.number) + "</span><span class=\"chapter-section-title\">"@
        + math_for(mode, h.title_html) + "</span></a>\n"@;
    lemma_starts_concat(l4, b.skip(l4.len() as int), post);
    assert(l4 + b.skip(l4.len() as int) == b);
    lemma_holds_around(a, v, b, pre, post);
    assert(section_link(h, mode) == a + v + b);
    assert(pre + v + post == section_target(h.id));
}

proof fn lemma_section_links_target(hs: Seq<HeadingView>, mode: MathMode, n: nat, k: int)
    requires
        0 <= k < n <= hs.len(),
    ensures
        holds_text(section_links(hs, mode, n), section_target(hs[k].id)),
    decreases n,
{
    if k == n - 1 {
        lemma_section_link_target(hs[k], mode);
        lemma_holds_concat(section_links(hs, mode, (n - 1) as nat), section_link(hs[k], mode), section_target(hs[k].id));
    } else {
        lemma_section_links_target(hs, mode, (n - 1) as nat, k);
        lemma_holds_prefix(section_links(hs, mode, (n - 1) as nat), section_link(hs[n - 1], mode), section_target(hs[k].id));
    }
}

/// Each section link of the chapter rail targets its heading: for every
/// heading of the chapter, the rail holds a link to `#` and the heading's
/// escaped id, whose `data-section-link` is that same id.
pub proof fn law_rail_sections_link_to_headings(
    chapters: Seq<ChapterNav>,
    hrefs: Seq<Seq<char>>,
    current: int,
    hs: Seq<HeadingView>,
    c: &Config,
    k: int,
)
    requires
        0 <= k < hs.len(),
    ensures
        holds_text(chapter_rail(chapters, hrefs, current, hs, c), section_target(hs[k].id)),
        markup::decode_attr(markup::escape_attr(hs[k].id)) == hs[k].id,
{
    let part = section_target(hs[k].id);
    let links = section_links(hs, c.math_mode, hs.len() as nat);
    let head = "<nav class=\"chapter-rail\" aria-label=\"Chapters\">\n"@
        + "<div class=\"chapter-rail-course\"><div class=\"course-event\">ACM EC&rsquo;26 Tutorial</div>"@
        + course_title(crate::config::opt_view(c.index_href), c.site_title@)
        + "<div class=\"course-authors\">"@ + markup::escape_html(c.authors@) + "</div></div>\n"@
        + "<div class=\"chapter-rail-heading\">Chapters</div>\n"@ + chapter_links(
        chapters,
        hrefs,
        current,
        chapters.len(),
    ) + "<div class=\"chapter-rail-heading chapter-rail-section-heading\">This Chapter</div>\n"@;
    lemma_section_links_target(hs, c.math_mode, hs.len() as nat, k);
    lemma_holds_concat(head, links, part);
    lemma_holds_prefix(head + links, "</nav>\n"@, part);
    assert(chapter_rail(chapters, hrefs, current, hs, c) == head + links + "</nav>\n"@);
    markup::law_decode_undoes_escape(hs[k].id);
}

proof fn lemma_head_shape(c: &Config, title: Seq<char>, css: Seq<char>)
    ensures
        text::starts_with(page_head(c, title, css), "<!doctype html>\n<html lang=\"en\">\n<head>\n"@),
        text::ends_with(page_head(c, title, css), "</head>\n<body>\n"@),
{
    reveal(page_head);
    let open = "<!doctype html>\n<html lang=\"en\">\n<head>\n"@;
    let close = "</head>\n<body>\n"@;
    let head = page_head(c, title, css);
    let inner = head.subrange(open.len() as int, head.len() - close.len());
    assert(head == open + inner + close);
    assert(head.take(open.len() as int) == open);
    assert(head.skip(head.len() - close.len()) == close);
}

proof fn lemma_tail_shape(doc: &HtmlParts, current: Option<usize>)
    ensures
        text::ends_with(page_tail(doc, current), "</body>\n</html>\n"@),
        current is Some ==> holds_text(page_tail(doc, current), scripts::CHAPTER_NAV_SCRIPT@),
{
    reveal(page_tail);
    let tail = page_tail(doc, current);
    let end = "</body>\n</html>\n"@;
    let body = doc.body_html@ + endnotes_section(shown_view(doc.rendered_endnotes@))
        + "</article>\n</main>\n"@;
    let scripts_part = (if current is Some {
        scripts::CHAPTER_NAV_SCRIPT@ + scripts::CHAPTER_CITATION_SCRIPT@
    } else {
        Seq::empty()
    }) + scripts::EQUATION_WIDTH_SCRIPT@ + scripts::SETTLED_HASH_SCROLL_SCRIPT@;
    assert(tail == (body + scripts_part) + end);
    assert(tail.skip(tail.len() - end.len()) == end);
    if current is Some {
        let nav_script = scripts::CHAPTER_NAV_SCRIPT@;
        let after = scripts::CHAPTER_CITATION_SCRIPT@ + scripts::EQUATION_WIDTH_SCRIPT@
            + scripts::SETTLED_HASH_SCROLL_SCRIPT@ + end;
        assert(tail == body + nav_script + after);
        let i = body.len() as int;
        assert(tail.subrange(i, i + nav_script.len()) == nav_script);
    }
}

/// Every page opens with the doctype and the head, which ends by opening
/// the body, and closes the document; right after the head comes the
/// chapter rail for a chapter, else the masthead; and a page for the
/// current chapter carries the chapter navigation script.
pub proof fn law_page_layout(
    c: &Config,
    title: Seq<char>,
    doc: &HtmlParts,
    export: Option<&ExportConfig>,
    current: Option<usize>,
    hrefs: Seq<Seq<char>>,
    css: Seq<char>,
)
    ensures
        text::starts_with(
            page(c, title, doc, export, current, hrefs, css),
            "<!doctype html>\n<html lang=\"en\">\n<head>\n"@,
        ),
        text::ends_with(page_head(c, title, css), "</head>\n<body>\n"@),
        page(c, title, doc, export, current, hrefs, css).subrange(
            page_head(c, title, css).len() as int,
            (page_head(c, title, css).len() + page_nav(c, doc, export, current, hrefs).len()) as int,
        ) == (if is_chapter(export, current) {
            chapter_rail(export->0.chapters@, hrefs, current->0 as int, headings_view(doc.headings@), c)
        } else {
            masthead(c)
        }),
        text::ends_with(page(c, title, doc, export, current, hrefs, css), "</body>\n</html>\n"@),
        current is Some ==> holds_text(
            page(c, title, doc, export, current, hrefs, css),
            scripts::CHAPTER_NAV_SCRIPT@,
        ),
{
    let head = page_head(c, title, css);
    let nav = page_nav(c, doc, export, current, hrefs);
    let mid = article_open(doc) + chapter_intro(c, title, export, current, hrefs) + page_title(
        c,
        title,
        doc,
    );
    let tail = page_tail(doc, current);
    let p = page(c, title, doc, export, current, hrefs, css);
    assert(p == head + (nav + mid + tail));
    lemma_head_shape(c, title, css);
    lemma_tail_shape(doc, current);
    lemma_starts_concat(head, nav + mid + tail, "<!doctype html>\n<html lang=\"en\">\n<head>\n"@);
    assert(p.subrange(head.len() as int, (head.len() + nav.len()) as int) == nav);
    assert(nav == (if is_chapter(export, current) {
        chapter_rail(export->0.chapters@, hrefs, current->0 as int, headings_view(doc.headings@), c)
    } else {
        masthead(c)
    })) by {
        reveal(page_nav);
    }
    assert(p == (head + nav + mid) + tail);
    lemma_ends_concat(head + nav + mid, tail, "</body>\n</html>\n"@);
    if current is Some {
        lemma_holds_concat(head + nav + mid, tail, scripts::CHAPTER_NAV_SCRIPT@);
    }
}

fn head_part(config: &Config, title: &str, page_css: &str) -> (res: Vec<char>)
    ensures
        res@ == page_head(config, title@, page_css@),
{
    reveal(page_head);
    let mut html = chars_of("<!doctype html>\n<html lang=\"en\">\n<head>\n");
    push_str(&mut html, "  <meta charset=\"utf-8\">\n");
    push_str(&mut html, "  <meta name=\"viewport\" content=\"width=device-width, initial-scale=1\">\n");
    push_str(&mut html, math::katex_head_assets(config.math_mode));
    push_str(&mut html, "  <title>");
    push_html(&mut html, title);
    push_str(&mut html, "</title>\n");
    push_str(&mut html, "  <style>\n");
    push_str(&mut html, page_css);
    push_str(&mut html, "\n  </style>\n");
    push_str(&mut html, math::katex_script_assets(config.math_mode));
    push_str(&mut html, "</head>\n<body>\n");
    proof {
        reveal_strlit("");
    }
    assert(html@ =~= page_head(config, title@, page_css@));
    html
}

fn nav_part(
    config: &Config,
    document: &HtmlParts,
    export_config: Option<&ExportConfig>,
    current: Option<usize>,
    hrefs: &Vec<String>,
) -> (res: Vec<char>)
    requires
        chapter_ready(export_config, current, hrefs.len() as nat),
    ensures
        res@ == page_nav(config, document, export_config, current, crate::patterns::strings_view(hrefs@)),
{
    reveal(page_nav);
    match (export_config, current) {
        (Some(e), Some(k)) => chars_of(render_chapter_rail_with(e, k, &document.headings, config, hrefs).as_str()),
        _ => chars_of(render_masthead(config).as_str()),
    }
}

fn article_part(document: &HtmlParts) -> (res: Vec<char>)
    ensures
        res@ == article_open(document),
{
    reveal(article_open);
    let mut html = chars_of("<main class=\"page-shell\">\n<article class=\"lecture-content\"");
    match &document.meta.lecture_number {
        Some(n) => {
            push_str(&mut html, " data-lecture-number=\"");
            push_attr(&mut html, n.as_str());
            push_str(&mut html, "\"");
        },
        None => {},
    }
    push_str(&mut html, ">\n");
    html
}

fn intro_part(
    config: &Config,
    title: &str,
    export_config: Option<&ExportConfig>,
    current: Option<usize>,
    hrefs: &Vec<String>,
) -> (res: Vec<char>)
    requires
        chapter_ready(export_config, current, hrefs.len() as nat),
    ensures
        res@ == chapter_intro(config, title@, export_config, current, crate::patterns::strings_view(hrefs@)),
{
    reveal(chapter_intro);
    match (export_config, current) {
        (Some(e), Some(k)) => {
            let ch = &e.chapters[k];
            let pdf = match &config.pdf_href {
                Some(p) => Some(p.as_str()),
                None => None,
            };
            let mut html = chars_of(
                render_chapter_citation_sidenote_with(e, ch, hrefs[k].as_str(), title, config.site_title.as_str(), pdf).as_str(),
            );
            push_str(&mut html, "<p class=\"chapter-kicker\">Chapter ");
            push_number(&mut html, ch.number as u64);
            push_str(&mut html, "</p>\n");
            html
        },
        _ => Vec::new(),
    }
}

fn title_part(config: &Config, title: &str, document: &HtmlParts) -> (res: Vec<char>)
    ensures
        res@ == page_title(config, title@, document),
{
    reveal(page_title);
    let mut html = chars_of("<h1 class=\"lecture-title\">");
    push_html(&mut html, title);
    push_str(&mut html, "</h1>\n");
    if document.headings.len() > 0 {
        push_str(&mut html, render_toc(&document.headings, config.math_mode).as_str());
    }
    html
}

fn tail_part(document: &HtmlParts, current: Option<usize>) -> (res: Vec<char>)
    ensures
        res@ == page_tail(document, current),
{
    reveal(page_tail);
    let mut html = chars_of(document.body_html.as_str());
    push_str(&mut html, render_endnotes(&document.rendered_endnotes).as_str());
    push_str(&mut html, "</article>\n</main>\n");
    if current.is_some() {
        push_str(&mut html, scripts::chapter_nav_script());
        push_str(&mut html, scripts::chapter_citation_script());
    }
    push_str(&mut html, scripts::equation_width_script());
    push_str(&mut html, scripts::settled_hash_scroll_script());
    push_str(&mut html, "</body>\n</html>\n");
    html
}

/// The page, given the current chapter and the page of each chapter.
pub fn render_document_with(
    config: &Config,
    title: &str,
    document: &HtmlParts,
    export_config: Option<&ExportConfig>,
    current: Option<usize>,
    hrefs: &Vec<String>,
    page_css: &str,
) -> (res: String)
    requires
        chapter_ready(export_config, current, hrefs.len() as nat),
    ensures
        res@ == page(
            config,
            title@,
            document,
            export_config,
            current,
            crate::patterns::strings_view(hrefs@),
            page_css@,
        ),
{
    let mut html = head_part(config, title, page_css);
    push_all(&mut html, &nav_part(config, document, export_config, current, hrefs));
    push_all(&mut html, &article_part(document));
    push_all(&mut html, &intro_part(config, title, export_config, current, hrefs));
    push_all(&mut html, &title_part(config, title, document));
    push_all(&mut html, &tail_part(document, current));
    string_of(&html)
}

/// The page of an input under an export configuration whose paths are
/// plain: for the chapter that the input is, with the rail and citation
/// panel; else as outside the chapters.
pub open spec fn chapter_page(c: &Config, title: Seq<char>, doc: &HtmlParts, e: &ExportConfig, css: Seq<char>) -> Seq<char> {
    match chapter_for(c.input@, e.chapters@) {
        Some(k) => page(c, title, doc, Some(e), Some(k as usize), plain_hrefs(e.chapters@), css),
        None => page(c, title, doc, Some(e), None, Seq::empty(), css),
    }
}

/// The page: for a chapter of the export configuration (found by the
/// input's file name), the chapter rail and citation panel. None when the
/// page of a chapter cannot be derived from its source.
pub fn render_document(
    config: &Config,
    title: &str,
    document: &HtmlParts,
    export_config: Option<&ExportConfig>,
    page_css: &str,
) -> (res: Option<String>)
    ensures
        res matches Some(r) ==> exists|current: Option<usize>, hrefs: Seq<Seq<char>>|
            (export_config is None ==> current is None) && r@ == #[trigger] page(
                config,
                title@,
                document,
                export_config,
                current,
                hrefs,
                page_css@,
            ),
        export_config is None ==> opt_view(res) == Some(
            page(config, title@, document, None, None, Seq::empty(), page_css@),
        ),
        export_config is Some && portable(config.input@) && all_plain(export_config->0.chapters@)
            ==> opt_view(res) == Some(chapter_page(config, title@, document, export_config->0, page_css@)),
{
    let empty: Vec<String> = Vec::new();
    assert(crate::patterns::strings_view(empty@) =~= Seq::<Seq<char>>::empty());
    proof {
        if export_config is Some && all_plain(export_config->0.chapters@) {
            let chs = export_config->0.chapters@;
            assert forall|j: int| 0 <= j < chs.len() implies #[trigger] portable(chs[j].source@) by {
                assert(plain_file_name(chs[j].source@) is Some);
            }
        }
    }
    match export_config {
        Some(e) => {
            let current = current_chapter(config, e);
            match current {
                Some(k) => match chapter_pages(e) {
                    Some(hrefs) => Some(render_document_with(config, title, document, export_config, current, &hrefs, page_css)),
                    None => None,
                },
                None => Some(render_document_with(config, title, document, export_config, None, &empty, page_css)),
            }
        },
        None => Some(render_document_with(config, title, document, None, None, &empty, page_css)),
    }
}

/// The page title: the one given in the options, else the notes' own, else
/// the input's file stem with dashes and underscores as spaces.
pub fn page_title_for(config: &Config, meta: &crate::parts::DocumentMeta) -> (res: String)
    ensures
        config.title matches Some(t) ==> res@ == t@,
        config.title is None ==> (meta.title matches Some(t) ==> res@ == t@),
        config.title is None && meta.title is None ==> exists|stem: Option<Seq<char>>|
            #[trigger] notes::title_from_stem(stem) == res@,
        config.title is None && meta.title is None && crate::paths::portable(config.input@) ==> res@
            == notes::title_from_stem(crate::paths::plain_stem(config.input@)),
{
    match &config.title {
        Some(t) => string_of(&chars_of(t.as_str())),
        None => match &meta.title {
            Some(t) => string_of(&chars_of(t.as_str())),
            None => notes::title_from_path(config.input.as_str()),
        },
    }
}

} // verus!
