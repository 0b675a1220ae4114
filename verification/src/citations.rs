//! Citations as side notes: each citation link is wrapped, marked with the
//! `citation` class and relabelled where its entry's key was suffixed; the
//! first citation of an entry carries the entry's key and text beside it.
use vstd::prelude::*;
use crate::text;
use crate::text::{chars_of, string_of, push_all, push_str, seq_eq};
use crate::patterns;
use crate::patterns::{group, group_of, groups_view};
use crate::markup;
use crate::notes::CitationLabelRewrite;
use crate::bibliography::{BibliographyItem, BibEntry, entries, lookup_item, lookup_rewrite, rewrites_view, find_item, find_rewrite, lemma_lookup_item_id};
use crate::body;
use crate::body::{href_target, with_class, BIBLIOREF_PATTERN};

verus! {

/// The entry a citation points to, if its target id has one.
pub open spec fn cited_entry(c: Seq<Option<Seq<char>>>, bib: Seq<BibEntry>) -> Option<BibEntry> {
    match href_target(group(c, 1)) {
        Some(h) => lookup_item(bib, h),
        None => None,
    }
}

/// The ids of the entries cited by the first `n` citations, each once, in
/// the order of their first citation.
pub open spec fn noted(caps: Seq<Seq<Option<Seq<char>>>>, bib: Seq<BibEntry>, n: nat) -> Seq<Seq<char>>
    decreases n,
{
    if n == 0 || n > caps.len() {
        Seq::empty()
    } else {
        let prev = noted(caps, bib, (n - 1) as nat);
        match cited_entry(caps[n - 1], bib) {
            Some(e) => if prev.contains(e.id) {
                prev
            } else {
                prev.push(e.id)
            },
            None => prev,
        }
    }
}

/// The side note of an entry: its key and its text.
pub open spec fn note_html(e: BibEntry) -> Seq<char> {
    "<span class=\"citation-note\"><span class=\"citation-note-key\">"@ + markup::escape_html(
        e.key_text,
    ) + "</span> "@ + e.entry_html + "</span>"@
}

/// The citation's label, relabelled when its target has a rewrite.
pub open spec fn citation_label(
    c: Seq<Option<Seq<char>>>,
    rws: Seq<(Seq<char>, crate::notes::LabelRewrite)>,
) -> Seq<char> {
    match href_target(group(c, 1)) {
        Some(h) => match lookup_rewrite(rws, h) {
            Some(r) => text::replace_first(group(c, 2), r.from_label, r.to_label),
            None => group(c, 2),
        },
        None => group(c, 2),
    }
}

/// A citation wrapped, with the side note of its entry unless `seen` already
/// holds the entry's id.
pub open spec fn citation_rep(
    c: Seq<Option<Seq<char>>>,
    bib: Seq<BibEntry>,
    rws: Seq<(Seq<char>, crate::notes::LabelRewrite)>,
    seen: Seq<Seq<char>>,
) -> Seq<char> {
    let head = "<span class=\"citation-wrap\"><a "@ + with_class(group(c, 1), "citation"@) + ">"@
        + citation_label(c, rws) + "</a>"@;
    match cited_entry(c, bib) {
        Some(e) => if seen.contains(e.id) {
            head + "</span>"@
        } else {
            head + note_html(e) + "</span>"@
        },
        None => head + "</span>"@,
    }
}

/// Whether citation `k` carries a side note.
pub open spec fn has_note(caps: Seq<Seq<Option<Seq<char>>>>, bib: Seq<BibEntry>, k: int) -> bool {
    match cited_entry(caps[k], bib) {
        Some(e) => !noted(caps, bib, k as nat).contains(e.id),
        None => false,
    }
}

/// Every citation of the body rewritten by `citation_rep`, each seeing the
/// entries noted before it.
pub open spec fn cited(
    body: Seq<char>,
    bib: Seq<BibEntry>,
    rws: Seq<(Seq<char>, crate::notes::LabelRewrite)>,
) -> Seq<char> {
    patterns::rewritten(
        BIBLIOREF_PATTERN@,
        body,
        |caps: Seq<Seq<Option<Seq<char>>>>|
            Seq::new(caps.len(), |k: int| citation_rep(caps[k], bib, rws, noted(caps, bib, k as nat))),
    )
}

fn contains_id(seen: &Vec<Vec<char>>, id: &Vec<char>) -> (res: bool)
    ensures
        res == text::vecs_view(seen@).contains(id@),
{
    let ghost sv = text::vecs_view(seen@);
    let mut k: usize = 0;
    while k < seen.len()
        invariant
            sv == text::vecs_view(seen@),
            k <= seen.len(),
            forall|j: int| 0 <= j < k ==> sv[j] != id@,
        decreases seen.len() - k,
    {
        if seq_eq(&seen[k], id) {
            assert(sv[k as int] == id@);
            return true;
        }
        k += 1;
    }
    false
}

/// Rewrites every citation of the body: wrapped, marked `citation`,
/// relabelled by `label_rewrites`, and the first citation of each entry of
/// `bibliography` given that entry's side note.
pub fn rewrite_citations(
    body: String,
    bibliography: &Vec<BibliographyItem>,
    label_rewrites: &Vec<(String, CitationLabelRewrite)>,
) -> (res: String)
    ensures
        res@ == cited(body@, entries(bibliography@), rewrites_view(label_rewrites@)),
{
    let ghost bv = entries(bibliography@);
    let ghost rv = rewrites_view(label_rewrites@);
    match patterns::matches_of(BIBLIOREF_PATTERN, body.as_str()) {
        Some((pieces, caps)) => {
            let ghost cv = patterns::captures_view(caps@);
            let mut seen: Vec<Vec<char>> = Vec::new();
            let mut reps: Vec<Vec<char>> = Vec::new();
            let mut k: usize = 0;
            while k < caps.len()
                invariant
                    cv == patterns::captures_view(caps@),
                    bv == entries(bibliography@),
                    rv == rewrites_view(label_rewrites@),
                    k <= caps.len(),
                    text::vecs_view(seen@) == noted(cv, bv, k as nat),
                    text::vecs_view(reps@) =~= Seq::new(
                        k as nat,
                        |j: int| citation_rep(cv[j], bv, rv, noted(cv, bv, j as nat)),
                    ),
                decreases caps.len() - k,
            {
                let ghost c = cv[k as int];
                assert(c == groups_view(caps@[k as int]@));
                let attrs = group_of(&caps[k], 1);
                let label = group_of(&caps[k], 2);
                let attrs_s = string_of(&attrs);
                let href = body::extract_href(attrs_s.as_str());
                let label = match &href {
                    Some(h) => match find_rewrite(label_rewrites, &chars_of(h.as_str())) {
                        Some(r) => chars_of(label_rewrites[r].1.apply(string_of(&label).as_str()).as_str()),
                        None => label,
                    },
                    None => label,
                };
                assert(label@ == citation_label(c, rv));
                let mut out = chars_of("<span class=\"citation-wrap\"><a ");
                push_str(&mut out, body::add_class_to_attrs(attrs_s.as_str(), "citation").as_str());
                push_str(&mut out, ">");
                push_all(&mut out, &label);
                push_str(&mut out, "</a>");
                let item = match &href {
                    Some(h) => find_item(bibliography, &chars_of(h.as_str())),
                    None => None,
                };
                let ghost sb = text::vecs_view(seen@);
                match item {
                    Some(i) => {
                        let id = chars_of(bibliography[i].id.as_str());
                        proof {
                            lemma_lookup_item_id(bv, href_target(group(c, 1))->0);
                        }
                        assert(cited_entry(c, bv) == Some(bv[i as int]));
                        if contains_id(&seen, &id) {
                            push_str(&mut out, "</span>");
                            assert(noted(cv, bv, (k + 1) as nat) == sb);
                        } else {
                            seen.push(id);
                            assert(text::vecs_view(seen@) =~= sb.push(bv[i as int].id));
                            push_str(&mut out, "<span class=\"citation-note\"><span class=\"citation-note-key\">");
                            push_all(&mut out, &markup::escape_html_of(&chars_of(bibliography[i].key_text.as_str())));
                            push_str(&mut out, "</span> ");
                            push_str(&mut out, bibliography[i].entry_html.as_str());
                            push_str(&mut out, "</span>");
                            push_str(&mut out, "</span>");
                        }
                    },
                    None => {
                        assert(cited_entry(c, bv) is None);
                        push_str(&mut out, "</span>");
                    },
                }
                assert(out@ =~= citation_rep(c, bv, rv, noted(cv, bv, k as nat)));
                let ghost before = text::vecs_view(reps@);
                reps.push(out);
                assert(text::vecs_view(reps@) =~= before.push(citation_rep(c, bv, rv, noted(cv, bv, k as nat))));
                k += 1;
            }
            string_of(&patterns::interleave_of(&pieces, &reps))
        },
        None => body,
    }
}

/// Whether a citation cites the entry with the id.
pub open spec fn cites(c: Seq<Option<Seq<char>>>, bib: Seq<BibEntry>, id: Seq<char>) -> bool {
    match cited_entry(c, bib) {
        Some(e) => e.id == id,
        None => false,
    }
}

/// Whether some citation before `n` cites the entry with the id.
pub open spec fn cited_before(caps: Seq<Seq<Option<Seq<char>>>>, bib: Seq<BibEntry>, n: int, id: Seq<char>) -> bool {
    exists|j: int| 0 <= j < n && #[trigger] cites(caps[j], bib, id)
}

proof fn lemma_contains_push(s: Seq<Seq<char>>, y: Seq<char>, x: Seq<char>)
    ensures
        s.push(y).contains(x) <==> s.contains(x) || x == y,
{
    if s.contains(x) {
        let i = choose|i: int| 0 <= i < s.len() && s[i] == x;
        assert(s.push(y)[i] == x);
    }
    if x == y {
        assert(s.push(y)[s.len() as int] == y);
    }
    if s.push(y).contains(x) {
        let i = choose|i: int| 0 <= i < s.push(y).len() && s.push(y)[i] == x;
        if i < s.len() {
            assert(s[i] == x);
        }
    }
}

proof fn lemma_noted(caps: Seq<Seq<Option<Seq<char>>>>, bib: Seq<BibEntry>, n: nat, id: Seq<char>)
    requires
        n <= caps.len(),
    ensures
        noted(caps, bib, n).contains(id) <==> cited_before(caps, bib, n as int, id),
    decreases n,
{
    if n > 0 {
        lemma_noted(caps, bib, (n - 1) as nat, id);
        let prev = noted(caps, bib, (n - 1) as nat);
        assert(cited_before(caps, bib, n as int, id) <==> cited_before(caps, bib, n - 1, id) || cites(
            caps[n - 1],
            bib,
            id,
        )) by {
            if cited_before(caps, bib, n as int, id) {
                let j = choose|j: int| 0 <= j < n && #[trigger] cites(caps[j], bib, id);
                if j < n - 1 {
                    assert(cites(caps[j], bib, id));
                }
            }
            if cites(caps[n - 1], bib, id) {
                assert(cites(caps[n - 1], bib, id));
            }
            if cited_before(caps, bib, n - 1, id) {
                let j = choose|j: int| 0 <= j < n - 1 && #[trigger] cites(caps[j], bib, id);
                assert(cites(caps[j], bib, id));
            }
        }
        match cited_entry(caps[n - 1], bib) {
            Some(e) => {
                if !prev.contains(e.id) {
                    lemma_contains_push(prev, e.id, id);
                }
            },
            None => {},
        }
    } else {
        assert(!cited_before(caps, bib, 0, id));
    }
}

/// Repeated citations get one side note: a citation carries the note of
/// its entry exactly when no earlier citation cites that entry.
pub proof fn law_one_note_per_entry(caps: Seq<Seq<Option<Seq<char>>>>, bib: Seq<BibEntry>, k: int)
    requires
        0 <= k < caps.len(),
    ensures
        has_note(caps, bib, k) <==> match cited_entry(caps[k], bib) {
            Some(e) => !cited_before(caps, bib, k, e.id),
            None => false,
        },
{
    match cited_entry(caps[k], bib) {
        Some(e) => lemma_noted(caps, bib, k as nat, e.id),
        None => {},
    }
}

} // verus!
