//! Stable anchors: section and statement ids derived from their numbers and
//! titles, `id` attributes set to them, and links retargeted from Typst's
//! ids to the stable ones.
use vstd::prelude::*;
use crate::text;
use crate::text::{chars_of, string_of, push_all, push_str, trim_of, seq_eq};
use crate::patterns;
use crate::patterns::{group, group_of, groups_view, rewrite_each};
use crate::markup;
use crate::dom;
use crate::notes;
use crate::pieces;
use crate::body::{HREF_PATTERN, CLASS_ATTR_PATTERN, ID_ATTR_PATTERN};

verus! {

/// A leading section-number `span` of a heading and the whitespace around.
pub const HEADING_SECNO_SPAN_PATTERN: &'static str = r#"(?s)^\s*<span\b[^>]*\bclass="[^"]*\bsecno\b[^"]*"[^>]*>.*?</span>\s*"#;

// ---------------------------------------------------------------------------
// Pairs of ids and targets
// ---------------------------------------------------------------------------

/// Ids and targets as characters.
pub open spec fn pairs_view(v: Seq<(String, String)>) -> Seq<(Seq<char>, Seq<char>)> {
    Seq::new(v.len(), |k: int| (v[k].0@, v[k].1@))
}

/// The target of the last pair for the id (a later pair shadows an earlier
/// one).
pub open spec fn lookup_target(pairs: Seq<(Seq<char>, Seq<char>)>, id: Seq<char>) -> Option<Seq<char>>
    decreases pairs.len(),
{
    if pairs.len() == 0 {
        None
    } else if pairs.last().0 == id {
        Some(pairs.last().1)
    } else {
        lookup_target(pairs.drop_last(), id)
    }
}

/// The index of the pair `lookup_target` finds.
pub fn find_target(pairs: &Vec<(String, String)>, id: &Vec<char>) -> (res: Option<usize>)
    ensures
        match res {
            Some(k) => k < pairs.len() && lookup_target(pairs_view(pairs@), id@) == Some(pairs@[k as int].1@),
            None => lookup_target(pairs_view(pairs@), id@) is None,
        },
{
    let ghost all = pairs_view(pairs@);
    let mut n: usize = pairs.len();
    assert(all.take(n as int) =~= all);
    while n > 0
        invariant
            all == pairs_view(pairs@),
            n <= pairs.len(),
            lookup_target(all.take(n as int), id@) == lookup_target(all, id@),
        decreases n,
    {
        let ghost pre = all.take(n as int);
        assert(pre.last() == (pairs@[n - 1].0@, pairs@[n - 1].1@));
        if seq_eq(&chars_of(pairs[n - 1].0.as_str()), id) {
            return Some(n - 1);
        }
        assert(pre.drop_last() =~= all.take(n - 1));
        n -= 1;
    }
    None
}

/// A same-page link retargeted when its id has a target.
pub open spec fn href_rep(targets: Seq<(Seq<char>, Seq<char>)>, c: Seq<Option<Seq<char>>>) -> Seq<char> {
    match lookup_target(targets, group(c, 1)) {
        Some(t) => "href=\""@ + markup::escape_attr(t) + "\""@,
        None => group(c, 0),
    }
}

/// Every same-page link whose id has a target pointed at that target; the
/// body untouched when there are no targets.
pub open spec fn retargeted(body: Seq<char>, targets: Seq<(Seq<char>, Seq<char>)>) -> Seq<char> {
    if targets.len() == 0 {
        body
    } else {
        patterns::rewritten(
            HREF_PATTERN@,
            body,
            patterns::each_match(|k: int, c: Seq<Option<Seq<char>>>| href_rep(targets, c)),
        )
    }
}

fn href_rep_of(targets: &Vec<(String, String)>, c: &Vec<Option<String>>) -> (res: Vec<char>)
    ensures
        res@ == href_rep(pairs_view(targets@), groups_view(c@)),
{
    match find_target(targets, &group_of(c, 1)) {
        Some(k) => {
            let mut out = chars_of("href=\"");
            push_all(&mut out, &markup::escape_attr_of(&chars_of(targets[k].1.as_str())));
            push_str(&mut out, "\"");
            out
        },
        None => group_of(c, 0),
    }
}

/// Points the same-page links whose ids have targets at those targets.
pub fn rewrite_href_targets(body: String, targets: &Vec<(String, String)>) -> (res: String)
    ensures
        res@ == retargeted(body@, pairs_view(targets@)),
{
    if targets.len() == 0 {
        return body;
    }
    let ghost tv = pairs_view(targets@);
    let out = rewrite_each(
        HREF_PATTERN,
        &chars_of(body.as_str()),
        (|k: usize, c: &Vec<Option<String>>| -> (r: Vec<char>)
            ensures
                r@ == href_rep(pairs_view(targets@), groups_view(c@)),
            { href_rep_of(targets, c) }),
        Ghost(|k: int, c: Seq<Option<Seq<char>>>| href_rep(tv, c)),
    );
    string_of(&out)
}

// ---------------------------------------------------------------------------
// Attributes
// ---------------------------------------------------------------------------

/// Whether the first `class` attribute lists the class.
pub open spec fn has_class_attr(attrs: Seq<char>, class: Seq<char>) -> bool {
    match patterns::first_group(CLASS_ATTR_PATTERN@, attrs, 1) {
        Some(classes) => markup::has_word(classes, class),
        None => false,
    }
}

/// Whether the first `class` attribute of attribute text lists the class.
pub fn attrs_has_class(attrs: &str, class: &str) -> (res: bool)
    ensures
        res == has_class_attr(attrs@, class@),
{
    match patterns::first_group_of(CLASS_ATTR_PATTERN, &chars_of(attrs), 1) {
        Some(classes) => markup::has_word_of(&classes, class),
        None => false,
    }
}

/// The `id` attribute text for an id.
pub open spec fn id_attr(id: Seq<char>) -> Seq<char> {
    "id=\""@ + markup::escape_attr(id) + "\""@
}

/// Attribute text with its `id` set: the first `id` attribute replaced (the
/// new text taken as a `regex` replacement template), or one put in front.
pub open spec fn with_id(attrs: Seq<char>, id: Seq<char>) -> Seq<char> {
    if patterns::is_match(ID_ATTR_PATTERN@, attrs) {
        match patterns::regex_replaced(ID_ATTR_PATTERN@, attrs, id_attr(id)) {
            Some(r) => r,
            None => attrs,
        }
    } else {
        " "@ + id_attr(id) + attrs
    }
}

/// Attribute text with its `id` set to `id`, escaped.
pub fn set_id_attr(attrs: &str, id: &str) -> (res: String)
    ensures
        res@ == with_id(attrs@, id@),
{
    let mut idv = chars_of("id=\"");
    push_all(&mut idv, &markup::escape_attr_of(&chars_of(id)));
    push_str(&mut idv, "\"");
    if patterns::is_match_of(ID_ATTR_PATTERN, &chars_of(attrs)) {
        let rep = string_of(&idv);
        match patterns::replace_first_template(ID_ATTR_PATTERN, attrs, rep.as_str()) {
            Some(r) => r,
            None => attrs.to_owned(),
        }
    } else {
        let mut out = chars_of(" ");
        push_all(&mut out, &idv);
        push_str(&mut out, attrs);
        string_of(&out)
    }
}

/// The value of the `i`-th attribute asked for, if the element has it.
pub open spec fn attr_at(el: (Seq<char>, Seq<Option<Seq<char>>>, Seq<char>), i: int) -> Option<Seq<char>> {
    if 0 <= i < el.1.len() {
        el.1[i]
    } else {
        None
    }
}

/// The value of the `i`-th attribute asked for.
pub fn attr_at_of(el: &dom::Selected, i: usize) -> (res: Option<Vec<char>>)
    ensures
        match res {
            Some(v) => attr_at(dom::picked_view(*el), i as int) == Some(v@),
            None => attr_at(dom::picked_view(*el), i as int) is None,
        },
{
    if i < el.1.len() {
        assert(dom::picked_view(*el).1[i as int] == dom::opt_view(el.1@[i as int]));
        match &el.1[i] {
            Some(v) => Some(chars_of(v.as_str())),
            None => None,
        }
    } else {
        None
    }
}

/// The `i`-th first match of an element, if there is one.
pub open spec fn first_at(fs: Seq<Option<(Seq<Seq<char>>, Seq<char>)>>, i: int) -> Option<(Seq<Seq<char>>, Seq<char>)> {
    if 0 <= i < fs.len() {
        fs[i]
    } else {
        None
    }
}

/// The text of the `i`-th first match, whitespace normalized.
pub open spec fn first_text(fs: Seq<Option<(Seq<Seq<char>>, Seq<char>)>>, i: int) -> Option<Seq<char>> {
    match first_at(fs, i) {
        Some(m) => Some(dom::element_text(m.0)),
        None => None,
    }
}

/// First matches as text nodes and inner HTML.
pub open spec fn firsts_of(f: Seq<dom::FirstMatch>) -> Seq<Option<(Seq<Seq<char>>, Seq<char>)>> {
    Seq::new(f.len(), |j: int| dom::first_view(f[j]))
}

/// The text of the `i`-th first match.
pub fn first_text_of(fs: &Vec<dom::FirstMatch>, i: usize) -> (res: Option<Vec<char>>)
    ensures
        match res {
            Some(v) => first_text(firsts_of(fs@), i as int) == Some(v@),
            None => first_text(firsts_of(fs@), i as int) is None,
        },
{
    if i < fs.len() {
        assert(firsts_of(fs@)[i as int] == dom::first_view(fs@[i as int]));
        match &fs[i] {
            Some(m) => Some(dom::element_text_of(&m.0)),
            None => None,
        }
    } else {
        None
    }
}

// ---------------------------------------------------------------------------
// Section and statement anchors
// ---------------------------------------------------------------------------

/// A heading's title HTML: its inner HTML without the leading number span,
/// trimmed.
pub open spec fn title_html(inner: Seq<char>) -> Seq<char> {
    text::trim(patterns::first_removed(HEADING_SECNO_SPAN_PATTERN@, inner))
}

/// A heading's title HTML from its inner HTML.
pub fn heading_title_html(inner: &str) -> (res: String)
    ensures
        res@ == title_html(inner@),
{
    string_of(&trim_of(&patterns::first_removed_of(HEADING_SECNO_SPAN_PATTERN, &chars_of(inner))))
}

/// A section's number: its `data-number`, whitespace normalized, when that
/// is not empty, else the text of its number span.
pub open spec fn section_number(data_number: Option<Seq<char>>, secno: Option<Seq<char>>) -> Option<Seq<char>> {
    match data_number {
        Some(n) => if dom::normalize_ws(n).len() > 0 {
            Some(dom::normalize_ws(n))
        } else {
            secno
        },
        None => secno,
    }
}

/// A section's number from its `data-number` and number span.
pub fn section_number_of(data_number: Option<Vec<char>>, secno: Option<Vec<char>>) -> (res: Option<Vec<char>>)
    ensures
        match res {
            Some(v) => section_number(
                match data_number {
                    Some(d) => Some(d@),
                    None => None,
                },
                match secno {
                    Some(s) => Some(s@),
                    None => None,
                },
            ) == Some(v@),
            None => section_number(
                match data_number {
                    Some(d) => Some(d@),
                    None => None,
                },
                match secno {
                    Some(s) => Some(s@),
                    None => None,
                },
            ) is None,
        },
{
    match data_number {
        Some(n) => {
            let norm = dom::normalize_ws_of(&n);
            if norm.len() > 0 {
                Some(norm)
            } else {
                secno
            }
        },
        None => secno,
    }
}

/// A heading's stable id: the slug of its number and title text.
pub open spec fn heading_slug(number: Seq<char>, title: Seq<char>) -> Seq<char> {
    notes::slug(number + "-"@ + dom::fragment_plain_text(title))
}

/// A heading's stable id from its number and title HTML.
pub fn heading_slug_of(number: &Vec<char>, title: &str) -> (res: Vec<char>)
    ensures
        res@ == heading_slug(number@, title@),
{
    let mut s = number.clone();
    push_str(&mut s, "-");
    push_all(&mut s, &dom::fragment_plain_text_of(title));
    let st = string_of(&s);
    chars_of(notes::slugify(st.as_str()).as_str())
}

/// A statement's stable id: the slug of its kind and number, when both are
/// there and not empty.
pub open spec fn statement_slug(kind: Option<Seq<char>>, number: Option<Seq<char>>) -> Option<Seq<char>> {
    match (kind, number) {
        (Some(k), Some(n)) => if k.len() > 0 && n.len() > 0 {
            Some(notes::slug(k + " "@ + n))
        } else {
            None
        },
        _ => None,
    }
}

/// A statement's stable id from its kind and number.
pub fn statement_slug_of(kind: Option<Vec<char>>, number: Option<Vec<char>>) -> (res: Option<Vec<char>>)
    ensures
        match res {
            Some(v) => statement_slug(
                match kind {
                    Some(d) => Some(d@),
                    None => None,
                },
                match number {
                    Some(s) => Some(s@),
                    None => None,
                },
            ) == Some(v@),
            None => statement_slug(
                match kind {
                    Some(d) => Some(d@),
                    None => None,
                },
                match number {
                    Some(s) => Some(s@),
                    None => None,
                },
            ) is None,
        },
{
    match (kind, number) {
        (Some(k), Some(n)) => if k.len() > 0 && n.len() > 0 {
            let mut s = k;
            push_str(&mut s, " ");
            push_all(&mut s, &n);
            let st = string_of(&s);
            Some(chars_of(notes::slugify(st.as_str()).as_str()))
        } else {
            None
        },
        _ => None,
    }
}

// ---------------------------------------------------------------------------
// Cross-reference blocks
// ---------------------------------------------------------------------------

/// The empty `span` that opens (kind `start`) or closes (kind `end`) a
/// cross-reference block: its attributes (1) and kind (2).
pub const CROSSREFS_MARKER_PATTERN: &'static str = r#"(?s)<span\b(?P<attrs>[^>]*\bclass="[^"]*\bcrossrefs-(?P<kind>start|end)\b[^"]*"[^>]*)>\s*</span>"#;

/// The selector of elements with an id.
pub const WITH_ID_SELECTOR: &'static str = "[id]";

/// The stable anchor of an element with an id: a numbered heading's slug
/// or a statement's slug.
pub open spec fn element_anchor(
    el: (Seq<char>, Seq<Option<Seq<char>>>, Seq<char>),
    fs: Seq<Option<(Seq<Seq<char>>, Seq<char>)>>,
) -> Option<Seq<char>> {
    let class = match attr_at(el, 1) {
        Some(c) => c,
        None => Seq::empty(),
    };
    if markup::has_word(class, "notes-heading"@) {
        match section_number(attr_at(el, 2), first_text(fs, 0)) {
            Some(n) => Some(heading_slug(n, title_html(el.2))),
            None => None,
        }
    } else if markup::has_word(class, "statement"@) {
        statement_slug(first_text(fs, 1), first_text(fs, 2))
    } else {
        None
    }
}

/// The targets of the first `n` elements: each old id to the block's page
/// and the element's stable anchor.
pub open spec fn crossref_pairs(
    els: Seq<(Seq<char>, Seq<Option<Seq<char>>>, Seq<char>)>,
    fs: Seq<Seq<Option<(Seq<Seq<char>>, Seq<char>)>>>,
    href: Seq<char>,
    n: nat,
) -> Seq<(Seq<char>, Seq<char>)>
    decreases n,
{
    if n == 0 || n > els.len() {
        Seq::empty()
    } else {
        let el = els[n - 1];
        let f = if n - 1 < fs.len() {
            fs[n - 1]
        } else {
            Seq::empty()
        };
        crossref_pairs(els, fs, href, (n - 1) as nat) + match (attr_at(el, 0), element_anchor(el, f)) {
            (Some(old), Some(a)) => seq![(old, href + "#"@ + a)],
            _ => Seq::empty(),
        }
    }
}

/// The targets that a cross-reference block's HTML gives, as `scraper`
/// reads it.
pub open spec fn crossref_targets(body: Seq<char>, href: Seq<char>) -> Seq<(Seq<char>, Seq<char>)> {
    match dom::html_select(body, false, WITH_ID_SELECTOR@, seq!["id"@, "class"@, "data-number"@], seq![".secno"@, ".env-kind"@, ".env-number"@]) {
        Some(s) => crossref_pairs(dom::els_of(s), dom::fs_of(s), href, s.len()),
        _ => Seq::empty(),
    }
}

fn element_anchor_of(el: &dom::Selected, fs: &Vec<dom::FirstMatch>) -> (res: Option<Vec<char>>)
    ensures
        match res {
            Some(v) => element_anchor(dom::picked_view(*el), firsts_of(fs@)) == Some(v@),
            None => element_anchor(dom::picked_view(*el), firsts_of(fs@)) is None,
        },
{
    let class = match attr_at_of(el, 1) {
        Some(c) => c,
        None => Vec::new(),
    };
    if markup::has_word_of(&class, "notes-heading") {
        match section_number_of(attr_at_of(el, 2), first_text_of(fs, 0)) {
            Some(n) => {
                let title = heading_title_html(el.2.as_str());
                Some(heading_slug_of(&n, title.as_str()))
            },
            None => None,
        }
    } else if markup::has_word_of(&class, "statement") {
        statement_slug_of(first_text_of(fs, 1), first_text_of(fs, 2))
    } else {
        None
    }
}

/// The targets that the headings and statements of a cross-reference block
/// give, each old id to the block's page and stable anchor.
pub fn collect_crossref_targets(body: &str, href: &str) -> (res: Vec<(String, String)>)
    ensures
        pairs_view(res@) == crossref_targets(body@, href@),
{
    proof {
        reveal_strlit("id");
        reveal_strlit("class");
        reveal_strlit("data-number");
        reveal_strlit(".secno");
        reveal_strlit(".env-kind");
        reveal_strlit(".env-number");
    }
    let names = dom::strings(&vec!["id", "class", "data-number"]);
    let subs = dom::strings(&vec![".secno", ".env-kind", ".env-number"]);
    assert(patterns::strings_view(names@) =~= seq!["id"@, "class"@, "data-number"@]);
    assert(patterns::strings_view(subs@) =~= seq![".secno"@, ".env-kind"@, ".env-number"@]);
    let sel = dom::select_html(body, false, WITH_ID_SELECTOR, &names, &subs);
    let mut out: Vec<(String, String)> = Vec::new();
    match sel {
        Some(els) => {
            let ghost ev = dom::els_of(dom::selected_view(els@));
            let ghost fsv = dom::fs_of(dom::selected_view(els@));
            let mut k: usize = 0;
            while k < els.len()
                invariant
                    ev == dom::els_of(dom::selected_view(els@)),
                    fsv == dom::fs_of(dom::selected_view(els@)),
                    k <= els.len(),
                    pairs_view(out@) == crossref_pairs(ev, fsv, href@, k as nat),
                decreases els.len() - k,
            {
                let f = &els[k].3;
                let ghost fk = fsv[k as int];
                assert(firsts_of(f@) =~= fk);
                assert(ev[k as int] == dom::picked_view(els@[k as int]));
                let ghost before = pairs_view(out@);
                match (attr_at_of(&els[k], 0), element_anchor_of(&els[k], f)) {
                    (Some(old), Some(a)) => {
                        let mut t = chars_of(href);
                        push_str(&mut t, "#");
                        push_all(&mut t, &a);
                        out.push((string_of(&old), string_of(&t)));
                        assert(pairs_view(out@) =~= before + seq![(old@, href@ + "#"@ + a@)]);
                    },
                    _ => {
                        assert(pairs_view(out@) =~= before + Seq::<(Seq<char>, Seq<char>)>::empty());
                    },
                }
                k += 1;
            }
        },
        _ => {},
    }
    out
}

/// Where the removal of cross-reference blocks stands: the text kept so far,
/// the open blocks (their page and the HTML read into them), and the targets
/// collected from closed blocks.
pub struct CrossrefState {
    pub cleaned: Seq<char>,
    pub stack: Seq<(Seq<char>, Seq<char>)>,
    pub targets: Seq<(Seq<char>, Seq<char>)>,
}

/// Text read into the innermost open block, or kept when none is open.
pub open spec fn add_segment(st: CrossrefState, seg: Seq<char>) -> CrossrefState {
    if st.stack.len() > 0 {
        let top = st.stack.last();
        CrossrefState { stack: st.stack.drop_last().push((top.0, top.1 + seg)), ..st }
    } else {
        CrossrefState { cleaned: st.cleaned + seg, ..st }
    }
}

/// A marker: a start opens a block for the page in its `data-href`; an end
/// closes the innermost block and collects its targets, or is kept when no
/// block is open.
pub open spec fn marker_step(st: CrossrefState, c: Seq<Option<Seq<char>>>) -> CrossrefState {
    if group(c, 2) == "start"@ {
        let href = match notes::data_attr(group(c, 1), "href"@) {
            Some(h) => h,
            None => Seq::empty(),
        };
        CrossrefState { stack: st.stack.push((href, Seq::empty())), ..st }
    } else if st.stack.len() > 0 {
        let top = st.stack.last();
        CrossrefState {
            stack: st.stack.drop_last(),
            targets: st.targets + crossref_targets(top.1, top.0),
            ..st
        }
    } else {
        CrossrefState { cleaned: st.cleaned + group(c, 0), ..st }
    }
}

/// The `k`-th piece of text between markers, empty past the end.
pub open spec fn piece_at(pieces: Seq<Seq<char>>, k: int) -> Seq<char> {
    if 0 <= k < pieces.len() {
        pieces[k]
    } else {
        Seq::empty()
    }
}

/// The state after the first `n` markers and the text before each.
pub open spec fn crossref_run(pieces: Seq<Seq<char>>, caps: Seq<Seq<Option<Seq<char>>>>, n: nat) -> CrossrefState
    decreases n,
{
    if n == 0 || n > caps.len() {
        CrossrefState { cleaned: Seq::empty(), stack: Seq::empty(), targets: Seq::empty() }
    } else {
        marker_step(add_segment(crossref_run(pieces, caps, (n - 1) as nat), piece_at(pieces, n - 1)), caps[n - 1])
    }
}

/// Every block still open closed, innermost first.
pub open spec fn drained(st: CrossrefState) -> CrossrefState
    decreases st.stack.len(),
{
    if st.stack.len() == 0 {
        st
    } else {
        let top = st.stack.last();
        drained(
            CrossrefState {
                stack: st.stack.drop_last(),
                targets: st.targets + crossref_targets(top.1, top.0),
                ..st
            },
        )
    }
}

/// The body without its cross-reference blocks, and the targets those
/// blocks give; the body unchanged and no targets when the marker pattern
/// does not compile.
pub open spec fn crossrefs_removed(body: Seq<char>) -> (Seq<char>, Seq<(Seq<char>, Seq<char>)>) {
    let p = CROSSREFS_MARKER_PATTERN@;
    match (patterns::regex_split(p, body), patterns::regex_captures(p, body)) {
        (Some(pieces), Some(caps)) => {
            let tail = if pieces.len() > caps.len() {
                text::concat_all(pieces.skip(caps.len() as int))
            } else {
                Seq::empty()
            };
            let st = drained(add_segment(crossref_run(pieces, caps, caps.len()), tail));
            (st.cleaned, st.targets)
        },
        _ => (body, Seq::empty()),
    }
}

/// Open blocks as characters.
pub open spec fn stack_view(v: Seq<(Vec<char>, Vec<char>)>) -> Seq<(Seq<char>, Seq<char>)> {
    Seq::new(v.len(), |k: int| (v[k].0@, v[k].1@))
}

fn add_segment_of(cleaned: &mut Vec<char>, stack: &mut Vec<(Vec<char>, Vec<char>)>, seg: &Vec<char>, Ghost(targets): Ghost<Seq<(Seq<char>, Seq<char>)>>)
    ensures
        add_segment(
            CrossrefState { cleaned: old(cleaned)@, stack: stack_view(old(stack)@), targets },
            seg@,
        ) == (CrossrefState { cleaned: final(cleaned)@, stack: stack_view(final(stack)@), targets }),
{
    let ghost sv = stack_view(stack@);
    if stack.len() > 0 {
        let (h, mut b) = stack.pop().unwrap();
        let ghost top = (h@, b@);
        assert(sv.last() == top);
        assert(stack_view(stack@) =~= sv.drop_last());
        push_all(&mut b, seg);
        stack.push((h, b));
        assert(stack_view(stack@) =~= sv.drop_last().push((top.0, top.1 + seg@)));
    } else {
        push_all(cleaned, seg);
    }
}

fn close_block_of(stack: &mut Vec<(Vec<char>, Vec<char>)>, targets: &mut Vec<(String, String)>)
    requires
        old(stack).len() > 0,
    ensures
        final(stack)@.len() == old(stack)@.len() - 1,
        stack_view(final(stack)@) == stack_view(old(stack)@).drop_last(),
        pairs_view(final(targets)@) == pairs_view(old(targets)@) + crossref_targets(
            stack_view(old(stack)@).last().1,
            stack_view(old(stack)@).last().0,
        ),
{
    let ghost sv = stack_view(stack@);
    let (h, b) = stack.pop().unwrap();
    assert(sv.last() == (h@, b@));
    assert(stack_view(stack@) =~= sv.drop_last());
    let hs = string_of(&h);
    let bs = string_of(&b);
    let found = collect_crossref_targets(bs.as_str(), hs.as_str());
    let ghost before = pairs_view(targets@);
    let mut k: usize = 0;
    while k < found.len()
        invariant
            k <= found.len(),
            pairs_view(targets@) =~= before + pairs_view(found@).take(k as int),
        decreases found.len() - k,
    {
        let ghost tb = pairs_view(targets@);
        let a = text::string_of(&chars_of(found[k].0.as_str()));
        let t = text::string_of(&chars_of(found[k].1.as_str()));
        targets.push((a, t));
        assert(pairs_view(targets@) =~= tb.push((found@[k as int].0@, found@[k as int].1@)));
        k += 1;
    }
    assert(pairs_view(found@).take(found.len() as int) =~= pairs_view(found@));
}

/// Removes the cross-reference blocks from the body, collecting from each
/// block the targets of its headings and statements.
pub fn remove_crossrefs_and_collect_targets(body: &str) -> (res: (String, Vec<(String, String)>))
    ensures
        res.0@ == crossrefs_removed(body@).0,
        pairs_view(res.1@) == crossrefs_removed(body@).1,
{
    match patterns::matches_of(CROSSREFS_MARKER_PATTERN, body) {
        Some((pieces, caps)) => {
            let ghost pv = patterns::strings_view(pieces@);
            let ghost cv = patterns::captures_view(caps@);
            let mut cleaned: Vec<char> = Vec::new();
            let mut stack: Vec<(Vec<char>, Vec<char>)> = Vec::new();
            let mut targets: Vec<(String, String)> = Vec::new();
            let mut k: usize = 0;
            assert(stack_view(stack@) =~= Seq::<(Seq<char>, Seq<char>)>::empty());
            assert(pairs_view(targets@) =~= Seq::<(Seq<char>, Seq<char>)>::empty());
            assert(cleaned@ =~= Seq::<char>::empty());
            while k < caps.len()
                invariant
                    pv == patterns::strings_view(pieces@),
                    cv == patterns::captures_view(caps@),
                    k <= caps.len(),
                    crossref_run(pv, cv, k as nat) == (CrossrefState {
                        cleaned: cleaned@,
                        stack: stack_view(stack@),
                        targets: pairs_view(targets@),
                    }),
                decreases caps.len() - k,
            {
                let seg = if k < pieces.len() {
                    chars_of(pieces[k].as_str())
                } else {
                    Vec::new()
                };
                assert(seg@ == piece_at(pv, k as int));
                add_segment_of(&mut cleaned, &mut stack, &seg, Ghost(pairs_view(targets@)));
                assert(cv[k as int] == groups_view(caps@[k as int]@));
                let kind = group_of(&caps[k], 2);
                proof {
                    reveal_strlit("start");
                }
                if text::eq_str(&kind, "start") {
                    let attrs = group_of(&caps[k], 1);
                    let href = match notes::data_attr_of(&attrs, "href") {
                        Some(h) => h,
                        None => Vec::new(),
                    };
                    let ghost sb = stack_view(stack@);
                    stack.push((href, Vec::new()));
                    assert(stack_view(stack@) =~= sb.push((href@, Seq::<char>::empty())));
                } else if stack.len() > 0 {
                    close_block_of(&mut stack, &mut targets);
                } else {
                    push_all(&mut cleaned, &group_of(&caps[k], 0));
                }
                k += 1;
            }
            let mut tail: Vec<char> = Vec::new();
            if pieces.len() > caps.len() {
                let mut j = caps.len();
                assert(pv.skip(j as int).skip(0) == pv.skip(j as int));
                while j < pieces.len()
                    invariant
                        pv == patterns::strings_view(pieces@),
                        caps.len() <= j <= pieces.len(),
                        tail@ + text::concat_all(pv.skip(j as int)) == text::concat_all(
                            pv.skip(caps.len() as int),
                        ),
                    decreases pieces.len() - j,
                {
                    let ghost rest = pv.skip(j as int);
                    proof {
                        crate::patterns::lemma_concat_all_drop_first(rest);
                    }
                    assert(rest[0] == pieces@[j as int]@);
                    assert(rest.drop_first() =~= pv.skip(j + 1));
                    push_all(&mut tail, &chars_of(pieces[j].as_str()));
                    j += 1;
                }
                assert(pv.skip(j as int).len() == 0);
                assert(tail@ + text::concat_all(pv.skip(j as int)) == tail@);
            }
            add_segment_of(&mut cleaned, &mut stack, &tail, Ghost(pairs_view(targets@)));
            while stack.len() > 0
                invariant
                    drained(CrossrefState { cleaned: cleaned@, stack: stack_view(stack@), targets: pairs_view(targets@) })
                        == drained(add_segment(crossref_run(pv, cv, cv.len()), if pv.len() > cv.len() {
                        text::concat_all(pv.skip(cv.len() as int))
                    } else {
                        Seq::empty()
                    })),
                decreases stack.len(),
            {
                close_block_of(&mut stack, &mut targets);
            }
            (string_of(&cleaned), targets)
        },
        None => (body.to_owned(), Vec::new()),
    }
}

/// The body without its cross-reference blocks, each link to an element of
/// a removed block pointed at that element's page and stable anchor.
pub open spec fn crossrefs_resolved(body: Seq<char>) -> Seq<char> {
    retargeted(crossrefs_removed(body).0, crossrefs_removed(body).1)
}

/// Removes the cross-reference blocks and points links to their elements at the
/// elements' pages and stable anchors.
pub fn rewrite_crossref_links_and_remove(body: String) -> (res: String)
    ensures
        res@ == crossrefs_resolved(body@),
{
    let (cleaned, targets) = remove_crossrefs_and_collect_targets(body.as_str());
    rewrite_href_targets(cleaned, &targets)
}

} // verus!
