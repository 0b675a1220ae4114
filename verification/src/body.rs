//! The body of a page after Typst: the hidden data Typst leaves removed,
//! Typst's figure classes renamed, visible bibliographies set aside and
//! cleaned while citations get their side notes, footnotes numbered and shown
//! beside the text.
use vstd::prelude::*;
use crate::text;
use crate::text::{chars_of, string_of, push_all, push_str, replace_str, trim_of, decimal_of, find_str};
use crate::patterns;
use crate::patterns::{group, group_of, groups_view, rewrite_each, first_group_of, is_match_of};
use crate::markup;
use crate::markup::{escape_html_of, escape_attr_of};
use crate::math;
use crate::math::MathMode;
use crate::bibliography::{BibliographyItem, BibEntry, entries, checked_rows, visible_items, disambiguation, rewrites_view};
use crate::footnotes::{Endnote, RenderedEndnote, ShownNote, notes_view, shown_view, footnoted};
use crate::citations::cited;

verus! {

// ---------------------------------------------------------------------------
// Patterns
// ---------------------------------------------------------------------------

/// The hidden `notes-meta` element and the whitespace around it.
pub const NOTES_META_PATTERN: &'static str = r#"(?s)\s*<div\b[^>]*\bclass="[^"]*\bnotes-meta\b[^"]*"[^>]*>.*?</div>\s*"#;

/// Typst's hidden bibliography section and the whitespace around it.
pub const HIDDEN_BIBLIOGRAPHY_PATTERN: &'static str = r#"(?s)\s*<div\s+hidden(?:="")?>\s*(?P<section><section role="doc-bibliography">.*?</section>)\s*</div>\s*"#;

/// Typst's endnotes section and the whitespace around it.
pub const ENDNOTES_SECTION_PATTERN: &'static str = r#"(?s)\s*<section role="doc-endnotes">.*?</section>\s*"#;

/// An empty hidden `div`.
pub const EMPTY_HIDDEN_DIV_PATTERN: &'static str = r#"(?s)\s*<div\s+hidden(?:="")?>\s*</div>\s*"#;

/// A visible bibliography section.
pub const VISIBLE_BIBLIOGRAPHY_PATTERN: &'static str = r#"(?s)<section\b[^>]*\bclass="[^"]*\bbibliography\b[^"]*"[^>]*>.*?</section>"#;

/// A table row: its attributes (1) and content (2).
pub const BIBLIOGRAPHY_ROW_PATTERN: &'static str = r#"(?s)<tr(?P<attrs>[^>]*)>(?P<inner>.*?)</tr>"#;

/// A row with an id, up to the end of its key cell: the part before the key
/// (1), the id (2), the cell's closing tag (3).
pub const BIBLIOGRAPHY_KEY_CELL_PATTERN: &'static str = r#"(?s)(?P<prefix><tr\b[^>]*\bid="(?P<id>[^"]+)"[^>]*>.*?<td\b[^>]*\bclass="[^"]*\bbib-key\b[^"]*"[^>]*>).*?(?P<suffix></td>)"#;

/// A bibliography reference link whose `href` comes before its role: the
/// target id (1).
pub const BIBLIOREF_HREF_BEFORE_ROLE_PATTERN: &'static str = r##"<a\b[^>]*\bhref="#(?P<id>[^"]+)"[^>]*\brole="doc-biblioref""##;

/// A bibliography reference link whose `href` comes after its role: the
/// target id (1).
pub const BIBLIOREF_HREF_AFTER_ROLE_PATTERN: &'static str = r##"<a\b[^>]*\brole="doc-biblioref"[^>]*\bhref="#(?P<id>[^"]+)""##;

/// A link: its attributes (1) and content (2).
pub const LINK_PATTERN: &'static str = r#"(?s)<a\b(?P<attrs>[^>]*)>(?P<inner>.*?)</a>"#;

/// A figure whose class is exactly `typst`: what comes before (1) and after
/// (2) the class name.
pub const TYPST_FIGURE_CLASS_PATTERN: &'static str = r#"(?P<prefix><figure\b[^>]*\bclass=")typst(?P<suffix>"[^>]*>)"#;

/// A citation link: attributes (1) and label (2).
pub const BIBLIOREF_PATTERN: &'static str = r#"(?s)<a\s+([^>]*\brole="doc-biblioref"[^>]*)>(.*?)</a>"#;

/// A footnote reference: attributes (1) and the label in its `sup` (2).
pub const NOTEREF_PATTERN: &'static str = r#"(?s)<a\s+([^>]*\brole="doc-noteref"[^>]*)><sup>(.*?)</sup></a>"#;

/// A same-page `href`: the target id (1).
pub const HREF_PATTERN: &'static str = r##"href="#([^"]+)""##;

/// A `class` attribute: its value (1).
pub const CLASS_ATTR_PATTERN: &'static str = r#"class="([^"]*)""#;

/// An `id` attribute: its value (1).
pub const ID_ATTR_PATTERN: &'static str = r#"id="([^"]*)""#;

// ---------------------------------------------------------------------------
// Removing and renaming
// ---------------------------------------------------------------------------

/// Every match of `p` removed.
pub open spec fn remove_all(p: Seq<char>, s: Seq<char>) -> Seq<char> {
    patterns::replace_all_with(p, s, Seq::empty())
}

fn remove_all_of(p: &str, s: &Vec<char>) -> (res: Vec<char>)
    ensures
        res@ == remove_all(p@, s@),
{
    patterns::replace_all_with_of(p, s, &Vec::new())
}

/// The body without the notes metadata, the hidden bibliography and the
/// endnotes section.
pub open spec fn without_hidden_data(body: Seq<char>) -> Seq<char> {
    remove_all(
        ENDNOTES_SECTION_PATTERN@,
        remove_all(HIDDEN_BIBLIOGRAPHY_PATTERN@, remove_all(NOTES_META_PATTERN@, body)),
    )
}

fn without_hidden_data_of(body: &Vec<char>) -> (res: Vec<char>)
    ensures
        res@ == without_hidden_data(body@),
{
    let b = remove_all_of(NOTES_META_PATTERN, body);
    let b = remove_all_of(HIDDEN_BIBLIOGRAPHY_PATTERN, &b);
    remove_all_of(ENDNOTES_SECTION_PATTERN, &b)
}

/// A `typst` figure class renamed to `rendered-figure typst`.
pub open spec fn figure_class_rep(k: int, c: Seq<Option<Seq<char>>>) -> Seq<char> {
    group(c, 1) + "rendered-figure typst"@ + group(c, 2)
}

/// Math figures get the `equation` class, and figures of class `typst`
/// become `rendered-figure typst`.
pub open spec fn typst_classes(body: Seq<char>) -> Seq<char> {
    let b = text::replace(body, "<figure role=\"math\""@, "<figure class=\"equation\" role=\"math\""@);
    patterns::rewritten(
        TYPST_FIGURE_CLASS_PATTERN@,
        b,
        patterns::each_match(|k: int, c: Seq<Option<Seq<char>>>| figure_class_rep(k, c)),
    )
}

/// Gives math figures the `equation` class and renames the `typst` figure
/// class.
pub fn normalize_typst_classes(body: String) -> (res: String)
    ensures
        res@ == typst_classes(body@),
{
    proof {
        reveal_strlit("<figure role=\"math\"");
    }
    let b = replace_str(
        &chars_of(body.as_str()),
        "<figure role=\"math\"",
        "<figure class=\"equation\" role=\"math\"",
    );
    let out = rewrite_each(
        TYPST_FIGURE_CLASS_PATTERN,
        &b,
        (|k: usize, c: &Vec<Option<String>>| -> (r: Vec<char>)
            ensures
                r@ == figure_class_rep(k as int, groups_view(c@)),
            {
                let mut r = group_of(c, 1);
                push_str(&mut r, "rendered-figure typst");
                push_all(&mut r, &group_of(c, 2));
                r
            }),
        Ghost(|k: int, c: Seq<Option<Seq<char>>>| figure_class_rep(k, c)),
    );
    string_of(&out)
}

// ---------------------------------------------------------------------------
// Attributes
// ---------------------------------------------------------------------------

/// Whether `p` occurs in `s`.
pub open spec fn contains(s: Seq<char>, p: Seq<char>) -> bool {
    text::find(s, p) is Some
}

fn contains_of(s: &Vec<char>, p: &str) -> (res: bool)
    ensures
        res == contains(s@, p@),
{
    find_str(s, p).is_some()
}

/// The target id of the first same-page `href` in attribute text.
pub open spec fn href_target(attrs: Seq<char>) -> Option<Seq<char>> {
    patterns::first_group(HREF_PATTERN@, attrs, 1)
}

/// The target id of the first same-page `href` in attribute text.
pub fn extract_href(attrs: &str) -> (res: Option<String>)
    ensures
        match res {
            Some(v) => href_target(attrs@) == Some(v@),
            None => href_target(attrs@) is None,
        },
{
    match first_group_of(HREF_PATTERN, &chars_of(attrs), 1) {
        Some(v) => Some(string_of(&v)),
        None => None,
    }
}

/// Attribute text with a class added: appended to the first `class`
/// attribute's value, or a `class` attribute put in front of the trimmed
/// attributes when there is none.
pub open spec fn with_class(attrs: Seq<char>, class: Seq<char>) -> Seq<char> {
    if patterns::is_match(CLASS_ATTR_PATTERN@, attrs) {
        patterns::rewritten(
            CLASS_ATTR_PATTERN@,
            attrs,
            |caps: Seq<Seq<Option<Seq<char>>>>|
                patterns::first_replaced(
                    caps,
                    "class=\""@ + group(caps[0], 1) + " "@ + class + "\""@,
                ),
        )
    } else {
        "class=\""@ + class + "\" "@ + text::trim(attrs)
    }
}

/// Attribute text with a class added.
pub fn add_class_to_attrs(attrs: &str, class: &str) -> (res: String)
    ensures
        res@ == with_class(attrs@, class@),
{
    let a = chars_of(attrs);
    if is_match_of(CLASS_ATTR_PATTERN, &a) {
        match patterns::matches_of(CLASS_ATTR_PATTERN, attrs) {
            Some((pieces, caps)) => {
                let ghost cv = patterns::captures_view(caps@);
                assert(caps.len() > 0);
                assert(cv[0] == groups_view(caps@[0]@));
                let mut first = chars_of("class=\"");
                push_all(&mut first, &group_of(&caps[0], 1));
                push_str(&mut first, " ");
                push_str(&mut first, class);
                push_str(&mut first, "\"");
                let reps = patterns::first_replaced_of(&caps, first);
                string_of(&patterns::interleave_of(&pieces, &reps))
            },
            None => attrs.to_owned(),
        }
    } else {
        let mut out = chars_of("class=\"");
        push_str(&mut out, class);
        push_str(&mut out, "\" ");
        push_all(&mut out, &trim_of(&a));
        string_of(&out)
    }
}

// ---------------------------------------------------------------------------
// Visible bibliographies
// ---------------------------------------------------------------------------

/// The id that a bibliography reference link in `html` points to: a link
/// with its `href` before the role is looked for first.
pub open spec fn biblioref_target(html: Seq<char>) -> Option<Seq<char>> {
    if patterns::is_match(BIBLIOREF_HREF_BEFORE_ROLE_PATTERN@, html) {
        patterns::first_group(BIBLIOREF_HREF_BEFORE_ROLE_PATTERN@, html, 1)
    } else {
        patterns::first_group(BIBLIOREF_HREF_AFTER_ROLE_PATTERN@, html, 1)
    }
}

/// The id a bibliography reference link in the HTML points to.
pub fn doc_biblioref_target(html: &str) -> (res: Option<String>)
    ensures
        match res {
            Some(v) => biblioref_target(html@) == Some(v@),
            None => biblioref_target(html@) is None,
        },
{
    let h = chars_of(html);
    let found = if is_match_of(BIBLIOREF_HREF_BEFORE_ROLE_PATTERN, &h) {
        first_group_of(BIBLIOREF_HREF_BEFORE_ROLE_PATTERN, &h, 1)
    } else {
        first_group_of(BIBLIOREF_HREF_AFTER_ROLE_PATTERN, &h, 1)
    };
    match found {
        Some(v) => Some(string_of(&v)),
        None => None,
    }
}

/// A bibliography row given the id its reference link points to, unless it
/// has no such link or already has an id.
pub open spec fn row_rep(k: int, c: Seq<Option<Seq<char>>>) -> Seq<char> {
    let attrs = group(c, 1);
    let inner = group(c, 2);
    match biblioref_target(inner) {
        Some(id) => if contains(attrs, " id="@) || contains(attrs, " id='"@) {
            group(c, 0)
        } else {
            "<tr id=\""@ + markup::escape_attr(id) + "\""@ + attrs + ">"@ + inner + "</tr>"@
        },
        None => group(c, 0),
    }
}

/// A bibliography reference link replaced by its content; other links kept.
pub open spec fn link_rep(k: int, c: Seq<Option<Seq<char>>>) -> Seq<char> {
    if contains(group(c, 1), "role=\"doc-biblioref\""@) {
        group(c, 2)
    } else {
        group(c, 0)
    }
}

/// A visible bibliography block as the page shows it: rows carry the ids
/// their reference links point to, the links themselves are unwrapped, and
/// TeX math is made readable.
pub open spec fn cleaned_bibliography(block: Seq<char>) -> Seq<char> {
    let rows = patterns::rewritten(
        BIBLIOGRAPHY_ROW_PATTERN@,
        block,
        patterns::each_match(|k: int, c: Seq<Option<Seq<char>>>| row_rep(k, c)),
    );
    let links = patterns::rewritten(
        LINK_PATTERN@,
        rows,
        patterns::each_match(|k: int, c: Seq<Option<Seq<char>>>| link_rep(k, c)),
    );
    math::bibliography_math(links)
}

fn row_rep_of(k: usize, c: &Vec<Option<String>>) -> (res: Vec<char>)
    ensures
        res@ == row_rep(k as int, groups_view(c@)),
{
    let attrs = group_of(c, 1);
    let inner = group_of(c, 2);
    let inner_s = string_of(&inner);
    match doc_biblioref_target(inner_s.as_str()) {
        Some(id) => if contains_of(&attrs, " id=") || contains_of(&attrs, " id='") {
            group_of(c, 0)
        } else {
            let mut out = chars_of("<tr id=\"");
            push_all(&mut out, &escape_attr_of(&chars_of(id.as_str())));
            push_str(&mut out, "\"");
            push_all(&mut out, &attrs);
            push_str(&mut out, ">");
            push_all(&mut out, &inner);
            push_str(&mut out, "</tr>");
            out
        },
        None => group_of(c, 0),
    }
}

fn link_rep_of(k: usize, c: &Vec<Option<String>>) -> (res: Vec<char>)
    ensures
        res@ == link_rep(k as int, groups_view(c@)),
{
    if contains_of(&group_of(c, 1), "role=\"doc-biblioref\"") {
        group_of(c, 2)
    } else {
        group_of(c, 0)
    }
}

/// A visible bibliography block as the page shows it.
pub fn clean_visible_bibliography(block: &str) -> (res: String)
    ensures
        res@ == cleaned_bibliography(block@),
{
    let rows = rewrite_each(
        BIBLIOGRAPHY_ROW_PATTERN,
        &chars_of(block),
        (|k: usize, c: &Vec<Option<String>>| -> (r: Vec<char>)
            ensures
                r@ == row_rep(k as int, groups_view(c@)),
            { row_rep_of(k, c) }),
        Ghost(|k: int, c: Seq<Option<Seq<char>>>| row_rep(k, c)),
    );
    let links = rewrite_each(
        LINK_PATTERN,
        &rows,
        (|k: usize, c: &Vec<Option<String>>| -> (r: Vec<char>)
            ensures
                r@ == link_rep(k as int, groups_view(c@)),
            { link_rep_of(k, c) }),
        Ghost(|k: int, c: Seq<Option<Seq<char>>>| link_rep(k, c)),
    );
    let l = string_of(&links);
    math::normalize_bibliography_math(l.as_str())
}

/// The comment that holds the place of the `k`-th visible bibliography.
pub open spec fn marker(k: nat) -> Seq<char> {
    "<!--NOTES_HTML_BIBLIOGRAPHY_"@ + text::decimal(k) + "-->"@
}

fn marker_of(k: usize) -> (res: Vec<char>)
    ensures
        res@ == marker(k as nat),
{
    let mut out = chars_of("<!--NOTES_HTML_BIBLIOGRAPHY_");
    push_all(&mut out, &decimal_of(k as u64));
    push_str(&mut out, "-->");
    out
}

/// The body with each visible bibliography replaced by its marker, and the
/// cleaned bibliographies in order; the body unchanged and no bibliography
/// when the pattern does not compile.
pub open spec fn protected(body: Seq<char>) -> (Seq<char>, Seq<Seq<char>>) {
    let p = VISIBLE_BIBLIOGRAPHY_PATTERN@;
    match (patterns::regex_split(p, body), patterns::regex_captures(p, body)) {
        (Some(pieces), Some(caps)) => (
            patterns::interleave(pieces, Seq::new(caps.len(), |k: int| marker(k as nat))),
            Seq::new(caps.len(), |k: int| cleaned_bibliography(group(caps[k], 0))),
        ),
        _ => (body, Seq::empty()),
    }
}

/// Sets the visible bibliographies aside, cleaned, each replaced by its marker.
pub fn protect_visible_bibliographies(body: String) -> (res: (String, Vec<String>))
    ensures
        res.0@ == protected(body@).0,
        patterns::strings_view(res.1@) == protected(body@).1,
{
    match patterns::matches_of(VISIBLE_BIBLIOGRAPHY_PATTERN, body.as_str()) {
        Some((pieces, caps)) => {
            let ghost cv = patterns::captures_view(caps@);
            let mut reps: Vec<Vec<char>> = Vec::new();
            let mut blocks: Vec<String> = Vec::new();
            let mut k: usize = 0;
            while k < caps.len()
                invariant
                    cv == patterns::captures_view(caps@),
                    k <= caps.len(),
                    text::vecs_view(reps@) =~= Seq::new(k as nat, |j: int| marker(j as nat)),
                    patterns::strings_view(blocks@) =~= Seq::new(
                        k as nat,
                        |j: int| cleaned_bibliography(group(cv[j], 0)),
                    ),
                decreases caps.len() - k,
            {
                assert(cv[k as int] == groups_view(caps@[k as int]@));
                let whole = string_of(&group_of(&caps[k], 0));
                let cleaned = clean_visible_bibliography(whole.as_str());
                let m = marker_of(k);
                let ghost rb = text::vecs_view(reps@);
                let ghost bb = patterns::strings_view(blocks@);
                reps.push(m);
                blocks.push(cleaned);
                assert(text::vecs_view(reps@) =~= rb.push(marker(k as nat)));
                assert(patterns::strings_view(blocks@) =~= bb.push(
                    cleaned_bibliography(group(cv[k as int], 0)),
                ));
                k += 1;
            }
            (string_of(&patterns::interleave_of(&pieces, &reps)), blocks)
        },
        None => (body, Vec::new()),
    }
}

/// The markers replaced by the first `n` blocks, in order.
pub open spec fn restored(body: Seq<char>, blocks: Seq<Seq<char>>, n: nat) -> Seq<char>
    decreases n,
{
    if n == 0 || n > blocks.len() {
        body
    } else {
        text::replace(restored(body, blocks, (n - 1) as nat), marker((n - 1) as nat), blocks[n - 1])
    }
}

/// Puts the bibliographies back in place of their markers.
pub fn restore_visible_bibliographies(body: String, blocks: Vec<String>) -> (res: String)
    ensures
        res@ == restored(body@, patterns::strings_view(blocks@), blocks@.len()),
{
    let ghost bv = patterns::strings_view(blocks@);
    let mut out = chars_of(body.as_str());
    let mut k: usize = 0;
    while k < blocks.len()
        invariant
            bv == patterns::strings_view(blocks@),
            k <= blocks.len(),
            out@ == restored(body@, bv, k as nat),
        decreases blocks.len() - k,
    {
        let m = marker_of(k);
        proof {
            reveal_strlit("<!--NOTES_HTML_BIBLIOGRAPHY_");
        }
        assert(m@.len() > 0);
        out = text::replace_in(&out, &m, &chars_of(blocks[k].as_str()));
        k += 1;
    }
    string_of(&out)
}

// ---------------------------------------------------------------------------
// Which entries the body cites
// ---------------------------------------------------------------------------

/// The targets of the links of the first `n` matches, in order.
pub open spec fn link_targets(caps: Seq<Seq<Option<Seq<char>>>>, n: nat) -> Seq<Seq<char>>
    decreases n,
{
    if n == 0 || n > caps.len() {
        Seq::empty()
    } else {
        link_targets(caps, (n - 1) as nat) + match href_target(group(caps[n - 1], 1)) {
            Some(id) => seq![id],
            None => Seq::empty(),
        }
    }
}

/// The ids that the links of the body point to, outside the hidden data and
/// the visible bibliographies, in order.
pub open spec fn visible_ref_ids(body: Seq<char>) -> Seq<Seq<char>> {
    let b = protected(without_hidden_data(body)).0;
    match patterns::regex_captures(LINK_PATTERN@, b) {
        Some(caps) => link_targets(caps, caps.len()),
        None => Seq::empty(),
    }
}

/// The ids the links of the visible body point to, in order.
pub fn visible_bibliography_ref_ids(body_html: &str) -> (res: Vec<String>)
    ensures
        patterns::strings_view(res@) == visible_ref_ids(body_html@),
{
    let b = string_of(&without_hidden_data_of(&chars_of(body_html)));
    let (b, _blocks) = protect_visible_bibliographies(b);
    let mut out: Vec<String> = Vec::new();
    match patterns::captures_all(LINK_PATTERN, b.as_str()) {
        Some(caps) => {
            let ghost cv = patterns::captures_view(caps@);
            let mut k: usize = 0;
            while k < caps.len()
                invariant
                    cv == patterns::captures_view(caps@),
                    k <= caps.len(),
                    patterns::strings_view(out@) == link_targets(cv, k as nat),
                decreases caps.len() - k,
            {
                assert(cv[k as int] == groups_view(caps@[k as int]@));
                let attrs = string_of(&group_of(&caps[k], 1));
                let ghost before = patterns::strings_view(out@);
                match extract_href(attrs.as_str()) {
                    Some(id) => {
                        out.push(id);
                        assert(patterns::strings_view(out@) =~= before + seq![href_target(group(cv[k as int], 1))->0]);
                    },
                    None => {
                        assert(patterns::strings_view(out@) =~= before + Seq::<Seq<char>>::empty());
                    },
                }
                k += 1;
            }
        },
        None => {},
    }
    out
}

/// The first `n` entries whose ids are among `ids`, in order.
pub open spec fn kept_entries(bib: Seq<BibEntry>, ids: Seq<Seq<char>>, n: nat) -> Seq<BibEntry>
    decreases n,
{
    if n == 0 || n > bib.len() {
        Seq::empty()
    } else {
        kept_entries(bib, ids, (n - 1) as nat) + if ids.contains(bib[n - 1].id) {
            seq![bib[n - 1]]
        } else {
            Seq::empty()
        }
    }
}

/// The entries of the hidden bibliography that the visible body cites.
pub fn filter_bibliography_to_visible_refs(bibliography: Vec<BibliographyItem>, body_html: &str) -> (res: Vec<BibliographyItem>)
    ensures
        entries(res@) == kept_entries(entries(bibliography@), visible_ref_ids(body_html@), bibliography@.len()),
{
    let ids = visible_bibliography_ref_ids(body_html);
    let ghost iv = patterns::strings_view(ids@);
    let ghost bv = entries(bibliography@);
    let mut out: Vec<BibliographyItem> = Vec::new();
    let mut k: usize = 0;
    while k < bibliography.len()
        invariant
            iv == patterns::strings_view(ids@),
            bv == entries(bibliography@),
            k <= bibliography.len(),
            entries(out@) == kept_entries(bv, iv, k as nat),
        decreases bibliography.len() - k,
    {
        let id = chars_of(bibliography[k].id.as_str());
        let mut found = false;
        let mut j: usize = 0;
        while j < ids.len()
            invariant
                iv == patterns::strings_view(ids@),
                j <= ids.len(),
                found <==> exists|i: int| 0 <= i < j && iv[i] == id@,
            decreases ids.len() - j,
        {
            let eq = text::seq_eq(&chars_of(ids[j].as_str()), &id);
            assert(iv[j as int] == ids@[j as int]@);
            proof {
                if exists|i: int| 0 <= i < j + 1 && iv[i] == id@ {
                    let i = choose|i: int| 0 <= i < j + 1 && iv[i] == id@;
                    if i < j {
                        assert(exists|i: int| 0 <= i < j && iv[i] == id@);
                    }
                }
            }
            if eq {
                found = true;
            }
            j += 1;
        }
        assert(found <==> iv.contains(id@));
        assert(bv[k as int] == bibliography@[k as int]@);
        let ghost before = entries(out@);
        if found {
            out.push(crate::bibliography::copy_item(&bibliography[k]));
            assert(entries(out@) =~= before + seq![bv[k as int]]);
        } else {
            assert(entries(out@) =~= before + Seq::<BibEntry>::empty());
        }
        k += 1;
    }
    out
}

// ---------------------------------------------------------------------------
// The whole body
// ---------------------------------------------------------------------------

/// The body's math for the mode (see `math::postprocess_html_math`).
pub open spec fn math_for(mode: MathMode, body: Seq<char>) -> Seq<char> {
    match mode {
        MathMode::Svg => body,
        MathMode::Katex => math::render_katex(body),
    }
}

/// The body ready for the page: hidden data and empty hidden `div`s
/// removed, classes renamed, math rendered for the mode, visible
/// bibliographies set aside; every entry of `bib` must have a visible row,
/// else the error names those without one; shared keys are suffixed,
/// citations get side notes, the bibliographies come back, and the
/// footnotes are numbered, with the notes shown at the end.
pub open spec fn postprocessed(
    body: Seq<char>,
    bib: Seq<BibEntry>,
    notes: Seq<crate::footnotes::NoteEntry>,
    mode: MathMode,
) -> Result<(Seq<char>, Seq<ShownNote>), Seq<char>> {
    let cleaned = math_for(
        mode,
        typst_classes(remove_all(EMPTY_HIDDEN_DIV_PATTERN@, without_hidden_data(body))),
    );
    let aside = protected(cleaned);
    match checked_rows(visible_items(aside.1, aside.1.len()), bib) {
        Err(e) => Err(e),
        Ok(items) => {
            let d = disambiguation(aside.1, items);
            Ok(footnoted(restored(cited(aside.0, d.1, d.2), d.0, d.0.len()), notes))
        },
    }
}

/// The body ready for the page, and the notes for the list at its end (see
/// `postprocessed`).
pub fn postprocess_body(
    body_html: String,
    bibliography: &Vec<BibliographyItem>,
    endnotes: &Vec<Endnote>,
    math_mode: MathMode,
) -> (res: Result<(String, Vec<RenderedEndnote>), String>)
    ensures
        match (res, postprocessed(body_html@, entries(bibliography@), notes_view(endnotes@), math_mode)) {
            (Ok(v), Ok(w)) => v.0@ == w.0 && shown_view(v.1@) == w.1,
            (Err(e), Err(m)) => e@ == m,
            _ => false,
        },
{
    let body = without_hidden_data_of(&chars_of(body_html.as_str()));
    let body = remove_all_of(EMPTY_HIDDEN_DIV_PATTERN, &body);
    let body = normalize_typst_classes(string_of(&body));
    let body = math::postprocess_html_math(body, math_mode);
    let (rest, blocks) = protect_visible_bibliographies(body);
    let items = match crate::bibliography::citation_bibliography_from_visible_blocks(&blocks, bibliography) {
        Ok(items) => items,
        Err(e) => return Err(e),
    };
    let (blocks, items, rewrites) = crate::bibliography::disambiguate_bibliography_labels(blocks, items);
    let body = crate::citations::rewrite_citations(rest, &items, &rewrites);
    let body = restore_visible_bibliographies(body, blocks);
    Ok(crate::footnotes::rewrite_footnotes(body, endnotes))
}

/// The hidden bibliography keeps exactly the entries the visible body
/// cites, in their order: every kept entry is cited, and every cited entry
/// is kept.
pub proof fn law_kept_entries_are_the_cited_ones(bib: Seq<BibEntry>, ids: Seq<Seq<char>>, n: nat)
    requires
        n <= bib.len(),
    ensures
        forall|k: int| 0 <= k < kept_entries(bib, ids, n).len() ==> ids.contains(
            (#[trigger] kept_entries(bib, ids, n)[k]).id,
        ),
        forall|i: int| 0 <= i < n && ids.contains(bib[i].id) ==> kept_entries(bib, ids, n).contains(
            #[trigger] bib[i],
        ),
    decreases n,
{
    if n > 0 {
        law_kept_entries_are_the_cited_ones(bib, ids, (n - 1) as nat);
        let prev = kept_entries(bib, ids, (n - 1) as nat);
        let cur = kept_entries(bib, ids, n);
        assert forall|k: int| 0 <= k < cur.len() implies ids.contains((#[trigger] cur[k]).id) by {
            if k < prev.len() {
                assert(cur[k] == prev[k]);
            }
        }
        assert forall|i: int| 0 <= i < n && ids.contains(bib[i].id) implies cur.contains(#[trigger] bib[i]) by {
            if i < n - 1 {
                let j = choose|j: int| 0 <= j < prev.len() && prev[j] == bib[i];
                assert(cur[j] == bib[i]);
            } else {
                assert(cur[prev.len() as int] == bib[i]);
            }
        }
    }
}

/// A body is refused exactly when an entry of the hidden bibliography has
/// no row in the visible bibliographies, and then with the message naming
/// the entries without a row.
pub proof fn law_postprocess_refused_iff_row_missing(
    body: Seq<char>,
    bib: Seq<BibEntry>,
    notes: Seq<crate::footnotes::NoteEntry>,
    mode: MathMode,
)
    ensures
        ({
            let cleaned = math_for(
                mode,
                typst_classes(remove_all(EMPTY_HIDDEN_DIV_PATTERN@, without_hidden_data(body))),
            );
            let blocks = protected(cleaned).1;
            let rows = visible_items(blocks, blocks.len());
            &&& postprocessed(body, bib, notes, mode) is Err <==> exists|k: int|
                0 <= k < bib.len() && !crate::bibliography::has_id(rows, (#[trigger] bib[k]).id)
            &&& postprocessed(body, bib, notes, mode) is Err ==> postprocessed(body, bib, notes, mode)
                == Err::<(Seq<char>, Seq<ShownNote>), Seq<char>>(
                crate::bibliography::missing_rows_message(
                    crate::bibliography::missing_rows(rows, bib, bib.len()),
                ),
            )
        }),
{
    let cleaned = math_for(mode, typst_classes(remove_all(EMPTY_HIDDEN_DIV_PATTERN@, without_hidden_data(body))));
    let blocks = protected(cleaned).1;
    crate::bibliography::law_rows_refused_iff_entry_missing(visible_items(blocks, blocks.len()), bib);
}

/// The body as the math conversion of `postprocess_body` sees it: hidden
/// data and empty hidden `div`s removed, figure classes renamed.
pub open spec fn math_input(body: Seq<char>) -> Seq<char> {
    typst_classes(remove_all(EMPTY_HIDDEN_DIV_PATTERN@, without_hidden_data(body)))
}

/// The constructs that `postprocess_body` leaves unconverted in the body's
/// math, in order, for a warning each.
pub fn body_math_warnings(body_html: &str, math_mode: MathMode) -> (res: Vec<String>)
    ensures
        patterns::strings_view(res@) == math::unsupported_labels(math_mode, math_input(body_html@)),
{
    let body = without_hidden_data_of(&chars_of(body_html));
    let body = remove_all_of(EMPTY_HIDDEN_DIV_PATTERN, &body);
    let body = normalize_typst_classes(string_of(&body));
    math::unsupported_math_labels(body.as_str(), math_mode)
}

} // verus!
