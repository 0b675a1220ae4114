//! Bibliography entries: the rows of the visible bibliographies, the check
//! that every cited entry has a row, and letter suffixes for keys that two
//! entries share.
use vstd::prelude::*;
use crate::text;
use crate::text::{chars_of, string_of, push_all, push_str, trim_of, is_blank_of, seq_eq};
use crate::patterns;
use crate::patterns::{group, group_of, groups_view, rewrite_each};
use crate::markup;
use crate::dom;
use crate::notes;
use crate::notes::{CitationLabelRewrite, LabelRewrite};

verus! {

/// One entry of a bibliography: the id its rows and citations use, its key
/// as shown (such as `[A]`), and its HTML.
pub struct BibliographyItem {
    pub id: String,
    pub key_text: String,
    pub entry_html: String,
}

/// What a bibliography entry holds.
pub struct BibEntry {
    pub id: Seq<char>,
    pub key_text: Seq<char>,
    pub entry_html: Seq<char>,
}

impl View for BibliographyItem {
    type V = BibEntry;

    open spec fn view(&self) -> BibEntry {
        BibEntry { id: self.id@, key_text: self.key_text@, entry_html: self.entry_html@ }
    }
}

/// Bibliography items as what they hold.
pub open spec fn entries(v: Seq<BibliographyItem>) -> Seq<BibEntry> {
    Seq::new(v.len(), |k: int| v[k]@)
}

/// A string with the same characters.
pub fn copy_string(s: &String) -> (res: String)
    ensures
        res@ == s@,
{
    string_of(&chars_of(s.as_str()))
}

/// An item with the same content.
pub fn copy_item(item: &BibliographyItem) -> (res: BibliographyItem)
    ensures
        res@ == item@,
{
    BibliographyItem {
        id: copy_string(&item.id),
        key_text: copy_string(&item.key_text),
        entry_html: copy_string(&item.entry_html),
    }
}

/// The last entry with the given id (a later entry shadows an earlier one).
pub open spec fn lookup_item(bib: Seq<BibEntry>, id: Seq<char>) -> Option<BibEntry>
    decreases bib.len(),
{
    if bib.len() == 0 {
        None
    } else if bib.last().id == id {
        Some(bib.last())
    } else {
        lookup_item(bib.drop_last(), id)
    }
}

pub proof fn lemma_lookup_item_id(bib: Seq<BibEntry>, id: Seq<char>)
    ensures
        lookup_item(bib, id) matches Some(e) ==> e.id == id,
    decreases bib.len(),
{
    if bib.len() > 0 && bib.last().id != id {
        lemma_lookup_item_id(bib.drop_last(), id);
    }
}

/// The index of the entry `lookup_item` finds.
pub fn find_item(bib: &Vec<BibliographyItem>, id: &Vec<char>) -> (res: Option<usize>)
    ensures
        match res {
            Some(k) => k < bib.len() && lookup_item(entries(bib@), id@) == Some(bib@[k as int]@),
            None => lookup_item(entries(bib@), id@) is None,
        },
{
    let ghost all = entries(bib@);
    let mut n: usize = bib.len();
    assert(all.take(n as int) =~= all);
    while n > 0
        invariant
            all == entries(bib@),
            n <= bib.len(),
            lookup_item(all.take(n as int), id@) == lookup_item(all, id@),
        decreases n,
    {
        let ghost pre = all.take(n as int);
        assert(pre.last() == bib@[n - 1]@);
        if seq_eq(&chars_of(bib[n - 1].id.as_str()), id) {
            return Some(n - 1);
        }
        assert(pre.drop_last() =~= all.take(n - 1));
        n -= 1;
    }
    None
}

// ---------------------------------------------------------------------------
// Rows of the visible bibliographies
// ---------------------------------------------------------------------------

/// The selector of a visible bibliography row.
pub const ROW_SELECTOR: &'static str = "tr.bibliography-row";

/// The selector of a row's key cell.
pub const KEY_SELECTOR: &'static str = ".bib-key";

/// The selector of a row's entry cell.
pub const ENTRY_SELECTOR: &'static str = ".bib-entry";

/// The entry a row gives: its trimmed, non-empty id, the text of its key
/// cell, the trimmed HTML of its entry cell; none without id or entry cell.
pub open spec fn row_item(
    el: (Seq<char>, Seq<Option<Seq<char>>>, Seq<char>),
    firsts: Seq<Option<(Seq<Seq<char>>, Seq<char>)>>,
) -> Option<BibEntry> {
    let id = if el.1.len() > 0 {
        match el.1[0] {
            Some(v) => text::trim(v),
            None => Seq::empty(),
        }
    } else {
        Seq::empty()
    };
    let key = if firsts.len() > 0 {
        match firsts[0] {
            Some(m) => dom::element_text(m.0),
            None => Seq::empty(),
        }
    } else {
        Seq::empty()
    };
    if id.len() == 0 || firsts.len() < 2 {
        None
    } else {
        match firsts[1] {
            Some(m) => Some(BibEntry { id, key_text: key, entry_html: text::trim(m.1) }),
            None => None,
        }
    }
}

/// An optional entry as a sequence of at most one.
pub open spec fn opt_seq(o: Option<BibEntry>) -> Seq<BibEntry> {
    match o {
        Some(e) => seq![e],
        None => Seq::empty(),
    }
}

/// The entries of the first `n` rows.
pub open spec fn rows_items(
    els: Seq<(Seq<char>, Seq<Option<Seq<char>>>, Seq<char>)>,
    fs: Seq<Seq<Option<(Seq<Seq<char>>, Seq<char>)>>>,
    n: nat,
) -> Seq<BibEntry>
    decreases n,
{
    if n == 0 || n > els.len() {
        Seq::empty()
    } else {
        rows_items(els, fs, (n - 1) as nat) + opt_seq(
            row_item(
                els[n - 1],
                if n - 1 < fs.len() {
                    fs[n - 1]
                } else {
                    Seq::empty()
                },
            ),
        )
    }
}

/// The entries of the rows of one bibliography block, as `scraper` reads
/// them.
pub open spec fn block_items(block: Seq<char>) -> Seq<BibEntry> {
    match dom::html_select(block, false, ROW_SELECTOR@, seq!["id"@], seq![KEY_SELECTOR@, ENTRY_SELECTOR@]) {
        Some(s) => rows_items(dom::els_of(s), dom::fs_of(s), s.len()),
        _ => Seq::empty(),
    }
}

/// The entries of the first `n` blocks, in order.
pub open spec fn visible_items(blocks: Seq<Seq<char>>, n: nat) -> Seq<BibEntry>
    decreases n,
{
    if n == 0 || n > blocks.len() {
        Seq::empty()
    } else {
        visible_items(blocks, (n - 1) as nat) + block_items(blocks[n - 1])
    }
}

fn row_item_of(el: &dom::Selected, firsts: &Vec<dom::FirstMatch>) -> (res: Option<BibliographyItem>)
    ensures
        match res {
            Some(e) => row_item(dom::picked_view(*el), Seq::new(firsts@.len(), |j: int| dom::first_view(firsts@[j]))) == Some(e@),
            None => row_item(dom::picked_view(*el), Seq::new(firsts@.len(), |j: int| dom::first_view(firsts@[j]))) is None,
        },
{
    let ghost fv = Seq::new(firsts@.len(), |j: int| dom::first_view(firsts@[j]));
    let ghost pv = dom::picked_view(*el);
    let id = if el.1.len() > 0 {
        assert(pv.1[0] == dom::opt_view(el.1@[0]));
        match &el.1[0] {
            Some(v) => trim_of(&chars_of(v.as_str())),
            None => Vec::new(),
        }
    } else {
        Vec::new()
    };
    let key = if firsts.len() > 0 {
        assert(fv[0] == dom::first_view(firsts@[0]));
        match &firsts[0] {
            Some(m) => dom::element_text_of(&m.0),
            None => Vec::new(),
        }
    } else {
        Vec::new()
    };
    if id.len() == 0 || firsts.len() < 2 {
        None
    } else {
        assert(fv[1] == dom::first_view(firsts@[1]));
        match &firsts[1] {
            Some(m) => Some(
                BibliographyItem {
                    id: string_of(&id),
                    key_text: string_of(&key),
                    entry_html: string_of(&trim_of(&chars_of(m.1.as_str()))),
                },
            ),
            None => None,
        }
    }
}

fn block_items_of(block: &str, out: &mut Vec<BibliographyItem>)
    ensures
        entries(final(out)@) == entries(old(out)@) + block_items(block@),
{
    proof {
        reveal_strlit("id");
        reveal_strlit(".bib-key");
        reveal_strlit(".bib-entry");
    }
    let names = dom::strings(&vec!["id"]);
    let subs = dom::strings(&vec![KEY_SELECTOR, ENTRY_SELECTOR]);
    assert(patterns::strings_view(names@) =~= seq!["id"@]);
    assert(patterns::strings_view(subs@) =~= seq![KEY_SELECTOR@, ENTRY_SELECTOR@]);
    let sel = dom::select_html(block, false, ROW_SELECTOR, &names, &subs);
    let ghost start = entries(out@);
    match sel {
        Some(els) => {
            let ghost ev = dom::els_of(dom::selected_view(els@));
            let ghost fsv = dom::fs_of(dom::selected_view(els@));
            let mut k: usize = 0;
            while k < els.len()
                invariant
                    ev == dom::els_of(dom::selected_view(els@)),
                    fsv == dom::fs_of(dom::selected_view(els@)),
                    k <= els.len(),
                    entries(out@) == start + rows_items(ev, fsv, k as nat),
                decreases els.len() - k,
            {
                let f = &els[k].3;
                let ghost fk = fsv[k as int];
                assert(Seq::new(f@.len(), |j: int| dom::first_view(f@[j])) =~= fk);
                assert(ev[k as int] == dom::picked_view(els@[k as int]));
                let r = row_item_of(&els[k], f);
                let ghost before = entries(out@);
                match r {
                    Some(e) => {
                        out.push(e);
                        assert(entries(out@) =~= before + seq![e@]);
                    },
                    None => {
                        assert(before + Seq::<BibEntry>::empty() =~= before);
                    },
                }
                assert(start + rows_items(ev, fsv, (k + 1) as nat) =~= start + rows_items(ev, fsv, k as nat) + opt_seq(row_item(ev[k as int], fk)));
                k += 1;
            }
        },
        _ => {
            assert(start + Seq::<BibEntry>::empty() =~= start);
        },
    }
}

/// The entries of the visible bibliography blocks, block by block, row by
/// row.
pub fn extract_visible_bibliography_items(blocks: &Vec<String>) -> (res: Vec<BibliographyItem>)
    ensures
        entries(res@) == visible_items(patterns::strings_view(blocks@), blocks@.len()),
{
    let ghost bv = patterns::strings_view(blocks@);
    let mut out: Vec<BibliographyItem> = Vec::new();
    let mut k: usize = 0;
    while k < blocks.len()
        invariant
            bv == patterns::strings_view(blocks@),
            k <= blocks.len(),
            entries(out@) == visible_items(bv, k as nat),
        decreases blocks.len() - k,
    {
        block_items_of(blocks[k].as_str(), &mut out);
        k += 1;
    }
    out
}

// ---------------------------------------------------------------------------
// Every cited entry has a visible row
// ---------------------------------------------------------------------------

/// Whether some entry has the id.
pub open spec fn has_id(items: Seq<BibEntry>, id: Seq<char>) -> bool {
    exists|k: int| 0 <= k < items.len() && (#[trigger] items[k]).id == id
}

/// How a missing entry is named: its key and id.
pub open spec fn missing_label(e: BibEntry) -> Seq<char> {
    text::trim(e.key_text + " "@ + e.id)
}

/// The names of the first `n` expected entries that no visible row has.
pub open spec fn missing_rows(items: Seq<BibEntry>, expected: Seq<BibEntry>, n: nat) -> Seq<Seq<char>>
    decreases n,
{
    if n == 0 || n > expected.len() {
        Seq::empty()
    } else {
        missing_rows(items, expected, (n - 1) as nat) + if has_id(items, expected[n - 1].id) {
            Seq::empty()
        } else {
            seq![missing_label(expected[n - 1])]
        }
    }
}

/// The message naming the entries without a visible row.
pub open spec fn missing_rows_message(missing: Seq<Seq<char>>) -> Seq<char> {
    "visible lec_bibliography is missing row(s) for cited item(s): "@ + text::join(missing, ", "@)
}

/// The visible rows, when every expected entry has one; else the message
/// naming those that have none.
pub open spec fn checked_rows(items: Seq<BibEntry>, expected: Seq<BibEntry>) -> Result<Seq<BibEntry>, Seq<char>> {
    let missing = missing_rows(items, expected, expected.len());
    if missing.len() > 0 {
        Err(missing_rows_message(missing))
    } else {
        Ok(items)
    }
}

fn has_id_of(items: &Vec<BibliographyItem>, id: &String) -> (res: bool)
    ensures
        res == has_id(entries(items@), id@),
{
    let ghost all = entries(items@);
    let idv = chars_of(id.as_str());
    let mut k: usize = 0;
    while k < items.len()
        invariant
            all == entries(items@),
            idv@ == id@,
            k <= items.len(),
            forall|j: int| 0 <= j < k ==> all[j].id != id@,
        decreases items.len() - k,
    {
        if seq_eq(&chars_of(items[k].id.as_str()), &idv) {
            assert(all[k as int].id == id@);
            return true;
        }
        k += 1;
    }
    false
}

/// The visible rows when every expected entry has one, else the error
/// naming those missing, in the order expected.
pub fn check_visible_bibliography(items: Vec<BibliographyItem>, expected: &Vec<BibliographyItem>) -> (res: Result<Vec<BibliographyItem>, String>)
    ensures
        match (res, checked_rows(entries(items@), entries(expected@))) {
            (Ok(v), Ok(w)) => entries(v@) == w,
            (Err(e), Err(m)) => e@ == m,
            _ => false,
        },
{
    let ghost iv = entries(items@);
    let ghost ev = entries(expected@);
    let mut missing: Vec<Vec<char>> = Vec::new();
    let mut k: usize = 0;
    while k < expected.len()
        invariant
            iv == entries(items@),
            ev == entries(expected@),
            k <= expected.len(),
            text::vecs_view(missing@) == missing_rows(iv, ev, k as nat),
        decreases expected.len() - k,
    {
        let ghost before = text::vecs_view(missing@);
        assert(ev[k as int] == expected@[k as int]@);
        if !has_id_of(&items, &expected[k].id) {
            let mut label = chars_of(expected[k].key_text.as_str());
            push_str(&mut label, " ");
            push_all(&mut label, &chars_of(expected[k].id.as_str()));
            missing.push(trim_of(&label));
            assert(text::vecs_view(missing@) =~= before + seq![missing_label(ev[k as int])]);
        } else {
            assert(text::vecs_view(missing@) =~= before + Seq::<Seq<char>>::empty());
        }
        k += 1;
    }
    if missing.len() > 0 {
        let mut msg = chars_of("visible lec_bibliography is missing row(s) for cited item(s): ");
        push_all(&mut msg, &text::join_vecs(&missing, &chars_of(", ")));
        Err(string_of(&msg))
    } else {
        Ok(items)
    }
}

/// The rows of the visible bibliographies, which must hold every entry the
/// hidden bibliography cites.
pub fn citation_bibliography_from_visible_blocks(blocks: &Vec<String>, fallback: &Vec<BibliographyItem>) -> (res: Result<Vec<BibliographyItem>, String>)
    ensures
        match (res, checked_rows(visible_items(patterns::strings_view(blocks@), blocks@.len()), entries(fallback@))) {
            (Ok(v), Ok(w)) => entries(v@) == w,
            (Err(e), Err(m)) => e@ == m,
            _ => false,
        },
{
    let items = extract_visible_bibliography_items(blocks);
    check_visible_bibliography(items, fallback)
}

// ---------------------------------------------------------------------------
// Keys shared by several entries
// ---------------------------------------------------------------------------

/// How many of the first `n` entries have the key.
pub open spec fn key_count(bib: Seq<BibEntry>, key: Seq<char>, n: int) -> nat
    decreases n,
{
    if n <= 0 || n > bib.len() {
        0
    } else {
        key_count(bib, key, n - 1) + if bib[n - 1].key_text == key {
            1nat
        } else {
            0nat
        }
    }
}

/// Whether entry `i` has a non-empty key that another entry has too.
pub open spec fn ambiguous(bib: Seq<BibEntry>, i: int) -> bool {
    bib[i].key_text.len() > 0 && key_count(bib, bib[i].key_text, bib.len() as int) > 1
}

/// Entry `i`'s key with the letter of its place among the entries sharing
/// it: `a` for the first, `b` for the second, ...
pub open spec fn suffixed_key(bib: Seq<BibEntry>, i: int) -> Seq<char> {
    notes::append_suffix_to_bib_key(
        bib[i].key_text,
        notes::alphabetic_suffix(key_count(bib, bib[i].key_text, i)),
    )
}

/// The entries with every shared key suffixed.
pub open spec fn disambiguated(bib: Seq<BibEntry>) -> Seq<BibEntry> {
    Seq::new(
        bib.len(),
        |i: int|
            if ambiguous(bib, i) {
                BibEntry { id: bib[i].id, key_text: suffixed_key(bib, i), entry_html: bib[i].entry_html }
            } else {
                bib[i]
            },
    )
}

/// The label rewrites of the first `n` entries, by id: one for each entry
/// whose key was suffixed.
pub open spec fn label_rewrites(bib: Seq<BibEntry>, n: nat) -> Seq<(Seq<char>, LabelRewrite)>
    decreases n,
{
    if n == 0 || n > bib.len() {
        Seq::empty()
    } else {
        label_rewrites(bib, (n - 1) as nat) + if ambiguous(bib, n - 1) {
            seq![(bib[n - 1].id, notes::label_rewrite(bib[n - 1].key_text, suffixed_key(bib, n - 1)))]
        } else {
            Seq::empty()
        }
    }
}

/// Label rewrites by id, as what they hold.
pub open spec fn rewrites_view(v: Seq<(String, CitationLabelRewrite)>) -> Seq<(Seq<char>, LabelRewrite)> {
    Seq::new(v.len(), |k: int| (v[k].0@, v[k].1@))
}

/// The last rewrite for the id (a later one shadows an earlier one).
pub open spec fn lookup_rewrite(rws: Seq<(Seq<char>, LabelRewrite)>, id: Seq<char>) -> Option<LabelRewrite>
    decreases rws.len(),
{
    if rws.len() == 0 {
        None
    } else if rws.last().0 == id {
        Some(rws.last().1)
    } else {
        lookup_rewrite(rws.drop_last(), id)
    }
}

/// The index of the rewrite `lookup_rewrite` finds.
pub fn find_rewrite(rws: &Vec<(String, CitationLabelRewrite)>, id: &Vec<char>) -> (res: Option<usize>)
    ensures
        match res {
            Some(k) => k < rws.len() && lookup_rewrite(rewrites_view(rws@), id@) == Some(rws@[k as int].1@),
            None => lookup_rewrite(rewrites_view(rws@), id@) is None,
        },
{
    let ghost all = rewrites_view(rws@);
    let mut n: usize = rws.len();
    assert(all.take(n as int) =~= all);
    while n > 0
        invariant
            all == rewrites_view(rws@),
            n <= rws.len(),
            lookup_rewrite(all.take(n as int), id@) == lookup_rewrite(all, id@),
        decreases n,
    {
        let ghost pre = all.take(n as int);
        assert(pre.last() == (rws@[n - 1].0@, rws@[n - 1].1@));
        if seq_eq(&chars_of(rws[n - 1].0.as_str()), id) {
            return Some(n - 1);
        }
        assert(pre.drop_last() =~= all.take(n - 1));
        n -= 1;
    }
    None
}

fn key_count_of(bib: &Vec<BibliographyItem>, key: &Vec<char>, n: usize) -> (res: usize)
    requires
        n <= bib.len(),
    ensures
        res == key_count(entries(bib@), key@, n as int),
        res <= n,
{
    let ghost all = entries(bib@);
    let mut c: usize = 0;
    let mut j: usize = 0;
    while j < n
        invariant
            all == entries(bib@),
            n <= bib.len(),
            j <= n,
            c == key_count(all, key@, j as int),
            c <= j,
        decreases n - j,
    {
        assert(all[j as int] == bib@[j as int]@);
        if seq_eq(&chars_of(bib[j].key_text.as_str()), key) {
            c += 1;
        }
        j += 1;
    }
    c
}

/// The key cell of a row whose id has a rewrite, showing the new key.
pub open spec fn key_cell_rep(rws: Seq<(Seq<char>, LabelRewrite)>, c: Seq<Option<Seq<char>>>) -> Seq<char> {
    if c.len() > 2 {
        match c[2] {
            Some(id) => match lookup_rewrite(rws, id) {
                Some(r) => group(c, 1) + markup::escape_html(r.to_key_text) + group(c, 3),
                None => group(c, 0),
            },
            None => group(c, 0),
        }
    } else {
        group(c, 0)
    }
}

/// A bibliography block whose key cells show the rewritten keys.
pub open spec fn rewritten_key_cells(block: Seq<char>, rws: Seq<(Seq<char>, LabelRewrite)>) -> Seq<char> {
    patterns::rewritten(
        crate::body::BIBLIOGRAPHY_KEY_CELL_PATTERN@,
        block,
        patterns::each_match(|k: int, c: Seq<Option<Seq<char>>>| key_cell_rep(rws, c)),
    )
}

fn key_cell_rep_of(rws: &Vec<(String, CitationLabelRewrite)>, c: &Vec<Option<String>>) -> (res: Vec<char>)
    ensures
        res@ == key_cell_rep(rewrites_view(rws@), groups_view(c@)),
{
    let ghost cv = groups_view(c@);
    if c.len() > 2 {
        assert(cv[2] == match c@[2] {
            Some(s) => Some(s@),
            None => None::<Seq<char>>,
        });
        match &c[2] {
            Some(id) => match find_rewrite(rws, &chars_of(id.as_str())) {
                Some(k) => {
                    let mut out = group_of(c, 1);
                    push_all(&mut out, &markup::escape_html_of(&chars_of(rws[k].1.to_key_text.as_str())));
                    push_all(&mut out, &group_of(c, 3));
                    out
                },
                None => group_of(c, 0),
            },
            None => group_of(c, 0),
        }
    } else {
        group_of(c, 0)
    }
}

/// Shows the rewritten keys in the key cells of a bibliography block.
pub fn rewrite_bibliography_key_cells(block: String, rewrites: &Vec<(String, CitationLabelRewrite)>) -> (res: String)
    ensures
        res@ == rewritten_key_cells(block@, rewrites_view(rewrites@)),
{
    let ghost rv = rewrites_view(rewrites@);
    let out = rewrite_each(
        crate::body::BIBLIOGRAPHY_KEY_CELL_PATTERN,
        &chars_of(block.as_str()),
        (|k: usize, c: &Vec<Option<String>>| -> (r: Vec<char>)
            ensures
                r@ == key_cell_rep(rewrites_view(rewrites@), groups_view(c@)),
            { key_cell_rep_of(rewrites, c) }),
        Ghost(|k: int, c: Seq<Option<Seq<char>>>| key_cell_rep(rv, c)),
    );
    string_of(&out)
}

/// The blocks, the entries and the rewrites after disambiguation: blocks
/// untouched when no key is shared, else their key cells rewritten.
pub open spec fn disambiguation(blocks: Seq<Seq<char>>, bib: Seq<BibEntry>) -> (
    Seq<Seq<char>>,
    Seq<BibEntry>,
    Seq<(Seq<char>, LabelRewrite)>,
) {
    let rws = label_rewrites(bib, bib.len());
    if rws.len() == 0 {
        (blocks, bib, rws)
    } else {
        (
            Seq::new(blocks.len(), |k: int| rewritten_key_cells(blocks[k], rws)),
            disambiguated(bib),
            rws,
        )
    }
}

pub proof fn lemma_no_rewrites_means_unchanged(bib: Seq<BibEntry>, n: nat)
    requires
        n <= bib.len(),
        label_rewrites(bib, n).len() == 0,
    ensures
        forall|i: int| 0 <= i < n ==> !ambiguous(bib, i),
    decreases n,
{
    if n > 0 {
        assert(label_rewrites(bib, (n - 1) as nat).len() == 0);
        lemma_no_rewrites_means_unchanged(bib, (n - 1) as nat);
    }
}

/// Suffixes the keys that several entries share (`a`, `b`, ... in entry
/// order), and rewrites the key cells of the blocks to match.
pub fn disambiguate_bibliography_labels(blocks: Vec<String>, bibliography: Vec<BibliographyItem>) -> (res: (
    Vec<String>,
    Vec<BibliographyItem>,
    Vec<(String, CitationLabelRewrite)>,
))
    ensures
        patterns::strings_view(res.0@) == disambiguation(patterns::strings_view(blocks@), entries(bibliography@)).0,
        entries(res.1@) == disambiguation(patterns::strings_view(blocks@), entries(bibliography@)).1,
        rewrites_view(res.2@) == disambiguation(patterns::strings_view(blocks@), entries(bibliography@)).2,
{
    let ghost bv = entries(bibliography@);
    let mut items: Vec<BibliographyItem> = Vec::new();
    let mut rewrites: Vec<(String, CitationLabelRewrite)> = Vec::new();
    let mut i: usize = 0;
    while i < bibliography.len()
        invariant
            bv == entries(bibliography@),
            i <= bibliography.len(),
            entries(items@) =~= disambiguated(bv).take(i as int),
            rewrites_view(rewrites@) == label_rewrites(bv, i as nat),
        decreases bibliography.len() - i,
    {
        let ghost ib = entries(items@);
        let ghost rb = rewrites_view(rewrites@);
        assert(bv[i as int] == bibliography@[i as int]@);
        let key = chars_of(bibliography[i].key_text.as_str());
        let total = if key.len() > 0 {
            key_count_of(&bibliography, &key, bibliography.len())
        } else {
            0
        };
        if key.len() > 0 && total > 1 {
            let position = key_count_of(&bibliography, &key, i);
            let suffixed = notes::append_suffix_to_bib_key_of(&key, &notes::alphabetic_suffix_of(position));
            let original = string_of(&key);
            let new_key = string_of(&suffixed);
            let rw = CitationLabelRewrite::new(original.as_str(), new_key.as_str());
            rewrites.push((copy_string(&bibliography[i].id), rw));
            assert(rewrites_view(rewrites@) =~= rb + seq![(bv[i as int].id, notes::label_rewrite(bv[i as int].key_text, suffixed_key(bv, i as int)))]);
            items.push(BibliographyItem {
                id: copy_string(&bibliography[i].id),
                key_text: new_key,
                entry_html: copy_string(&bibliography[i].entry_html),
            });
        } else {
            assert(!ambiguous(bv, i as int));
            assert(rewrites_view(rewrites@) =~= rb + Seq::<(Seq<char>, LabelRewrite)>::empty());
            items.push(copy_item(&bibliography[i]));
        }
        assert(entries(items@) =~= ib.push(disambiguated(bv)[i as int]));
        i += 1;
    }
    assert(disambiguated(bv).take(bibliography.len() as int) =~= disambiguated(bv));
    if rewrites.len() == 0 {
        proof {
            lemma_no_rewrites_means_unchanged(bv, bv.len());
            assert(disambiguated(bv) =~= bv);
        }
        return (blocks, bibliography, rewrites);
    }
    let ghost blv = patterns::strings_view(blocks@);
    let ghost rv = rewrites_view(rewrites@);
    let mut out: Vec<String> = Vec::new();
    let mut k: usize = 0;
    while k < blocks.len()
        invariant
            blv == patterns::strings_view(blocks@),
            rv == rewrites_view(rewrites@),
            k <= blocks.len(),
            patterns::strings_view(out@) =~= Seq::new(k as nat, |j: int| rewritten_key_cells(blv[j], rv)),
        decreases blocks.len() - k,
    {
        let ghost before = patterns::strings_view(out@);
        let b = rewrite_bibliography_key_cells(copy_string(&blocks[k]), &rewrites);
        out.push(b);
        assert(patterns::strings_view(out@) =~= before.push(rewritten_key_cells(blv[k as int], rv)));
        k += 1;
    }
    (out, items, rewrites)
}

// ---------------------------------------------------------------------------
// Laws
// ---------------------------------------------------------------------------

proof fn lemma_key_count_grows(bib: Seq<BibEntry>, key: Seq<char>, i: int, j: int)
    requires
        0 <= i < j <= bib.len(),
        bib[i].key_text == key,
    ensures
        key_count(bib, key, i) < key_count(bib, key, j),
    decreases j - i,
{
    if j > i + 1 {
        lemma_key_count_grows(bib, key, i, j - 1);
    }
}

proof fn lemma_append_suffix_cancels(key: Seq<char>, a: Seq<char>, b: Seq<char>)
    requires
        notes::append_suffix_to_bib_key(key, a) == notes::append_suffix_to_bib_key(key, b),
    ensures
        a == b,
{
    reveal_strlit("[");
    reveal_strlit("]");
    match notes::bracketed(key) {
        Some(i) => {
            let x = "["@ + i + a + "]"@;
            let y = "["@ + i + b + "]"@;
            assert(x.len() == y.len());
            assert(a =~= x.subrange(1 + i.len() as int, 1 + i.len() + a.len() as int));
            assert(b =~= y.subrange(1 + i.len() as int, 1 + i.len() + b.len() as int));
        },
        None => {
            let x = key + a;
            let y = key + b;
            assert(a =~= x.subrange(key.len() as int, x.len() as int));
            assert(b =~= y.subrange(key.len() as int, y.len() as int));
        },
    }
}

/// Entries that shared a key no longer do: the letter suffixes follow the
/// entries' order, so two entries with the same key get different keys.
pub proof fn law_shared_keys_become_distinct(bib: Seq<BibEntry>, i: int, j: int)
    requires
        0 <= i < j < bib.len(),
        bib[i].key_text == bib[j].key_text,
        bib[i].key_text.len() > 0,
    ensures
        ambiguous(bib, i),
        ambiguous(bib, j),
        disambiguated(bib)[i].key_text != disambiguated(bib)[j].key_text,
{
    let key = bib[i].key_text;
    lemma_key_count_grows(bib, key, i, j);
    lemma_key_count_grows(bib, key, j, bib.len() as int);
    lemma_key_count_grows(bib, key, i, j + 1);
    assert(key_count(bib, key, bib.len() as int) > 1);
    if suffixed_key(bib, i) == suffixed_key(bib, j) {
        lemma_append_suffix_cancels(
            key,
            notes::alphabetic_suffix(key_count(bib, key, i)),
            notes::alphabetic_suffix(key_count(bib, key, j)),
        );
        notes::law_alphabetic_suffix_injective(key_count(bib, key, i), key_count(bib, key, j));
    }
}

/// An entry whose key no other entry has keeps it.
pub proof fn law_unique_keys_kept(bib: Seq<BibEntry>, i: int)
    requires
        0 <= i < bib.len(),
        !ambiguous(bib, i),
    ensures
        disambiguated(bib)[i] == bib[i],
{
}

proof fn lemma_missing_rows(items: Seq<BibEntry>, expected: Seq<BibEntry>, n: nat)
    requires
        n <= expected.len(),
    ensures
        missing_rows(items, expected, n).len() > 0 <==> exists|k: int|
            0 <= k < n && !has_id(items, (#[trigger] expected[k]).id),
    decreases n,
{
    if n > 0 {
        lemma_missing_rows(items, expected, (n - 1) as nat);
        if exists|k: int| 0 <= k < n && !has_id(items, (#[trigger] expected[k]).id) {
            let k = choose|k: int| 0 <= k < n && !has_id(items, (#[trigger] expected[k]).id);
            if k < n - 1 {
                assert(exists|k: int| 0 <= k < n - 1 && !has_id(items, (#[trigger] expected[k]).id));
            }
        }
        if exists|k: int| 0 <= k < n - 1 && !has_id(items, (#[trigger] expected[k]).id) {
            let k = choose|k: int| 0 <= k < n - 1 && !has_id(items, (#[trigger] expected[k]).id);
            assert(0 <= k < n && !has_id(items, expected[k].id));
        }
    }
}

/// Every cited entry must have a visible row: the rows are refused exactly
/// when some expected entry has no row with its id, and accepted unchanged
/// otherwise.
pub proof fn law_rows_refused_iff_entry_missing(items: Seq<BibEntry>, expected: Seq<BibEntry>)
    ensures
        checked_rows(items, expected) is Err <==> exists|k: int|
            0 <= k < expected.len() && !has_id(items, (#[trigger] expected[k]).id),
        checked_rows(items, expected) is Ok ==> checked_rows(items, expected) == Ok::<Seq<BibEntry>, Seq<char>>(items),
{
    lemma_missing_rows(items, expected, expected.len());
}

} // verus!
