//! Reading elements out of HTML with the `scraper` crate: which elements a
//! CSS selector picks, some of their attributes, their inner HTML, the text
//! of their first descendant matching another selector.
use vstd::prelude::*;
use scraper::{Html, Selector};
use crate::text;
use crate::text::chars_of;
use crate::markup;

verus! {

/// The first descendant of a picked element that matches a selector: its
/// text nodes, in document order, and its inner HTML.
pub type FirstMatch = Option<(Vec<String>, String)>;

/// One element picked by a selector: its tag name, the values of the
/// attributes asked for (in the order asked), its inner HTML, and its first
/// descendant matching each of the selectors asked for.
pub type Selected = (String, Vec<Option<String>>, String, Vec<FirstMatch>);

/// The elements that `selector` picks from `html` (parsed as a document when
/// `document`, else as a fragment), in document order: tag name, the value of
/// each attribute in `names`, inner HTML, and for each selector in `subs` the
/// first matching descendant, as text nodes and inner HTML. `None` when
/// `selector` does not parse; no first match for a selector of `subs` that
/// does not parse.
pub uninterp spec fn html_select(
    html: Seq<char>,
    document: bool,
    selector: Seq<char>,
    names: Seq<Seq<char>>,
    subs: Seq<Seq<char>>,
) -> Option<Seq<(Seq<char>, Seq<Option<Seq<char>>>, Seq<char>, Seq<Option<(Seq<Seq<char>>, Seq<char>)>>)>>;

/// The text nodes of `html` parsed as a fragment, in document order.
pub uninterp spec fn html_text(html: Seq<char>) -> Seq<Seq<char>>;

/// An optional string as characters.
pub open spec fn opt_view(o: Option<String>) -> Option<Seq<char>> {
    match o {
        Some(s) => Some(s@),
        None => None,
    }
}

/// A first match as text nodes and inner HTML.
pub open spec fn first_view(f: FirstMatch) -> Option<(Seq<Seq<char>>, Seq<char>)> {
    match f {
        Some(m) => Some((crate::patterns::strings_view(m.0@), m.1@)),
        None => None,
    }
}

/// An element's name, attributes and inner HTML.
pub open spec fn picked_view(p: Selected) -> (Seq<char>, Seq<Option<Seq<char>>>, Seq<char>) {
    (p.0@, Seq::new(p.1@.len(), |k: int| opt_view(p.1@[k])), p.2@)
}

/// An element's first matches.
pub open spec fn firsts_view(f: Seq<FirstMatch>) -> Seq<Option<(Seq<Seq<char>>, Seq<char>)>> {
    Seq::new(f.len(), |j: int| first_view(f[j]))
}

/// The picked elements as `html_select` gives them.
pub open spec fn selected_view(v: Seq<Selected>) -> Seq<(Seq<char>, Seq<Option<Seq<char>>>, Seq<char>, Seq<Option<(Seq<Seq<char>>, Seq<char>)>>)> {
    Seq::new(v.len(), |k: int| (picked_view(v[k]).0, picked_view(v[k]).1, picked_view(v[k]).2, firsts_view(v[k].3@)))
}

/// The names, attributes and inner HTML of the elements.
pub open spec fn els_of(s: Seq<(Seq<char>, Seq<Option<Seq<char>>>, Seq<char>, Seq<Option<(Seq<Seq<char>>, Seq<char>)>>)>) -> Seq<(Seq<char>, Seq<Option<Seq<char>>>, Seq<char>)> {
    Seq::new(s.len(), |k: int| (s[k].0, s[k].1, s[k].2))
}

/// The first matches of the elements.
pub open spec fn fs_of(s: Seq<(Seq<char>, Seq<Option<Seq<char>>>, Seq<char>, Seq<Option<(Seq<Seq<char>>, Seq<char>)>>)>) -> Seq<Seq<Option<(Seq<Seq<char>>, Seq<char>)>>> {
    Seq::new(s.len(), |k: int| s[k].3)
}

/// `Html::parse_document` or `Html::parse_fragment`, `Selector::parse` and
/// `Html::select`; for each picked element `Element::name`, `ElementRef::attr`
/// of each name, `ElementRef::inner_html`, and for each selector of `subs`
/// `ElementRef::select(..).next()` with its `text()` and `inner_html()`; as
/// `html_select` names them. `None` exactly when `selector` does not parse;
/// no first match for a selector of `subs` that does not parse.
#[verifier::external_body]
pub(crate) fn select_html(
    html: &str,
    document: bool,
    selector: &str,
    names: &Vec<String>,
    subs: &Vec<String>,
) -> (res: Option<Vec<Selected>>)
    ensures
        match res {
            Some(v) => html_select(html@, document, selector@, crate::patterns::strings_view(names@), crate::patterns::strings_view(subs@))
                == Some(selected_view(v@)),
            None => html_select(html@, document, selector@, crate::patterns::strings_view(names@), crate::patterns::strings_view(subs@)) is None,
        },
{
    let dom = if document { Html::parse_document(html) } else { Html::parse_fragment(html) };
    let sel = Selector::parse(selector).ok()?;
    Some(dom.select(&sel).map(|e| (
        e.value().name().to_owned(),
        names.iter().map(|n| e.attr(n).map(str::to_owned)).collect(),
        e.inner_html(),
        subs.iter().map(|s| e.select(&Selector::parse(s).ok()?).next().map(|d| (
            d.text().map(str::to_owned).collect(),
            d.inner_html(),
        ))).collect(),
    )).collect())
}

/// `Html::parse_fragment(html).root_element().text()`: the text nodes, as
/// `html_text` names them.
#[verifier::external_body]
pub(crate) fn fragment_text(html: &str) -> (res: Vec<String>)
    ensures
        crate::patterns::strings_view(res@) == html_text(html@),
{
    Html::parse_fragment(html).root_element().text().map(str::to_owned).collect()
}

/// Whitespace-separated words joined by single spaces.
pub open spec fn normalize_ws(s: Seq<char>) -> Seq<char> {
    text::join(markup::words(s), " "@)
}

pub fn normalize_ws_of(s: &Vec<char>) -> (res: Vec<char>)
    ensures
        res@ == normalize_ws(s@),
{
    let ws = markup::words_of(s);
    text::join_vecs(&ws, &chars_of(" "))
}

/// Text nodes joined by spaces, whitespace normalized: the text of an
/// element as the notes show it.
pub open spec fn element_text(pieces: Seq<Seq<char>>) -> Seq<char> {
    normalize_ws(text::join(pieces, " "@))
}

pub fn element_text_of(pieces: &Vec<String>) -> (res: Vec<char>)
    ensures
        res@ == element_text(crate::patterns::strings_view(pieces@)),
{
    let mut vs: Vec<Vec<char>> = Vec::new();
    let mut k: usize = 0;
    while k < pieces.len()
        invariant
            k <= pieces.len(),
            text::vecs_view(vs@) =~= crate::patterns::strings_view(pieces@).take(k as int),
        decreases pieces.len() - k,
    {
        let ghost before = text::vecs_view(vs@);
        vs.push(chars_of(pieces[k].as_str()));
        assert(text::vecs_view(vs@) =~= before.push(pieces@[k as int]@));
        k += 1;
    }
    assert(crate::patterns::strings_view(pieces@).take(pieces.len() as int) =~= crate::patterns::strings_view(pieces@));
    normalize_ws_of(&text::join_vecs(&vs, &chars_of(" ")))
}

/// The text of an HTML fragment, whitespace normalized.
pub open spec fn fragment_plain_text(html: Seq<char>) -> Seq<char> {
    element_text(html_text(html))
}

pub fn fragment_plain_text_of(html: &str) -> (res: Vec<char>)
    ensures
        res@ == fragment_plain_text(html@),
{
    element_text_of(&fragment_text(html))
}

/// Owned strings for a list of names.
pub fn strings(names: &Vec<&str>) -> (res: Vec<String>)
    ensures
        crate::patterns::strings_view(res@) == Seq::new(names@.len(), |k: int| names@[k]@),
{
    let mut out: Vec<String> = Vec::new();
    let mut k: usize = 0;
    while k < names.len()
        invariant
            k <= names.len(),
            crate::patterns::strings_view(out@) =~= Seq::new(k as nat, |j: int| names@[j]@),
        decreases names.len() - k,
    {
        let ghost before = crate::patterns::strings_view(out@);
        let s = text::string_of(&chars_of(names[k]));
        out.push(s);
        assert(crate::patterns::strings_view(out@) =~= before.push(names@[k as int]@));
        k += 1;
    }
    out
}

} // verus!
