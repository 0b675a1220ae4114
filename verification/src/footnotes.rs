//! Footnotes: each footnote reference becomes a numbered superscript with
//! the note's text beside it, and the notes, in order, are kept for the list
//! of notes at the end of the page.
use vstd::prelude::*;
use crate::text;
use crate::text::{chars_of, string_of, push_all, push_str, decimal_of, seq_eq};
use crate::patterns;
use crate::patterns::{group, group_of, groups_view};
use crate::markup;
use crate::body::{href_target, NOTEREF_PATTERN};

verus! {

/// A note of Typst's endnotes section: its id, its label, its HTML.
pub struct Endnote {
    pub id: String,
    pub label: String,
    pub body_html: String,
}

/// What an endnote holds.
pub struct NoteEntry {
    pub id: Seq<char>,
    pub label: Seq<char>,
    pub body_html: Seq<char>,
}

impl View for Endnote {
    type V = NoteEntry;

    open spec fn view(&self) -> NoteEntry {
        NoteEntry { id: self.id@, label: self.label@, body_html: self.body_html@ }
    }
}

pub open spec fn notes_view(v: Seq<Endnote>) -> Seq<NoteEntry> {
    Seq::new(v.len(), |k: int| v[k]@)
}

/// A note as the list of notes at the end of the page shows it: its number
/// and its HTML.
pub struct RenderedEndnote {
    pub number: String,
    pub body_html: String,
}

/// What a shown note holds.
pub struct ShownNote {
    pub number: Seq<char>,
    pub body_html: Seq<char>,
}

impl View for RenderedEndnote {
    type V = ShownNote;

    open spec fn view(&self) -> ShownNote {
        ShownNote { number: self.number@, body_html: self.body_html@ }
    }
}

pub open spec fn shown_view(v: Seq<RenderedEndnote>) -> Seq<ShownNote> {
    Seq::new(v.len(), |k: int| v[k]@)
}

/// The last note with the id.
pub open spec fn lookup_note(notes: Seq<NoteEntry>, id: Seq<char>) -> Option<NoteEntry>
    decreases notes.len(),
{
    if notes.len() == 0 {
        None
    } else if notes.last().id == id {
        Some(notes.last())
    } else {
        lookup_note(notes.drop_last(), id)
    }
}

fn find_note(notes: &Vec<Endnote>, id: &Vec<char>) -> (res: Option<usize>)
    ensures
        match res {
            Some(k) => k < notes.len() && lookup_note(notes_view(notes@), id@) == Some(notes@[k as int]@),
            None => lookup_note(notes_view(notes@), id@) is None,
        },
{
    let ghost all = notes_view(notes@);
    let mut n: usize = notes.len();
    assert(all.take(n as int) =~= all);
    while n > 0
        invariant
            all == notes_view(notes@),
            n <= notes.len(),
            lookup_note(all.take(n as int), id@) == lookup_note(all, id@),
        decreases n,
    {
        let ghost pre = all.take(n as int);
        assert(pre.last() == notes@[n - 1]@);
        if seq_eq(&chars_of(notes[n - 1].id.as_str()), id) {
            return Some(n - 1);
        }
        assert(pre.drop_last() =~= all.take(n - 1));
        n -= 1;
    }
    None
}

/// The note a reference points to.
pub open spec fn referenced_note(c: Seq<Option<Seq<char>>>, notes: Seq<NoteEntry>) -> Option<NoteEntry> {
    match href_target(group(c, 1)) {
        Some(h) => lookup_note(notes, h),
        None => None,
    }
}

/// How many of the first `n` references point to a note.
pub open spec fn resolved_count(caps: Seq<Seq<Option<Seq<char>>>>, notes: Seq<NoteEntry>, n: nat) -> nat
    decreases n,
{
    if n == 0 || n > caps.len() {
        0
    } else {
        resolved_count(caps, notes, (n - 1) as nat) + if referenced_note(caps[n - 1], notes) is Some {
            1nat
        } else {
            0nat
        }
    }
}

/// The number a note shows: its label, or its place when it has none.
pub open spec fn note_number(note: NoteEntry, seq: nat) -> Seq<char> {
    if note.label.len() == 0 {
        text::decimal(seq)
    } else {
        note.label
    }
}

/// A reference to a note, as the `seq`-th resolved reference: a numbered
/// superscript linking to the list of notes, and the note beside the text.
pub open spec fn footnote_rep(c: Seq<Option<Seq<char>>>, notes: Seq<NoteEntry>, seq: nat) -> Seq<char> {
    match referenced_note(c, notes) {
        Some(note) => {
            let number = note_number(note, seq);
            let n = text::decimal(seq);
            "<sup class=\"footnote-ref\" id=\"fnref-"@ + n + "\"><a href=\"#fn-end-"@ + n + "\">"@
                + markup::escape_html(
                if number.len() == 0 {
                    group(c, 2)
                } else {
                    number
                },
            ) + "</a></sup><span class=\"footnote\" id=\"fn-side-"@ + n
                + "\"><span class=\"footnote-num\">"@ + markup::escape_html(number) + "</span>"@
                + note.body_html + "</span>"@
        },
        None => group(c, 0),
    }
}

/// A note as shown at the `seq`-th place of the list.
pub open spec fn shown_note(note: NoteEntry, seq: nat) -> ShownNote {
    ShownNote { number: note_number(note, seq), body_html: note.body_html }
}

/// The notes of the first `n` references that resolve, in order.
pub open spec fn shown_notes(caps: Seq<Seq<Option<Seq<char>>>>, notes: Seq<NoteEntry>, n: nat) -> Seq<ShownNote>
    decreases n,
{
    if n == 0 || n > caps.len() {
        Seq::empty()
    } else {
        shown_notes(caps, notes, (n - 1) as nat) + match referenced_note(caps[n - 1], notes) {
            Some(note) => seq![shown_note(note, resolved_count(caps, notes, (n - 1) as nat) + 1)],
            None => Seq::empty(),
        }
    }
}

/// The body with every note reference rewritten, and the notes shown at
/// the end; the body unchanged and no notes when the pattern does not
/// compile.
pub open spec fn footnoted(body: Seq<char>, notes: Seq<NoteEntry>) -> (Seq<char>, Seq<ShownNote>) {
    let p = NOTEREF_PATTERN@;
    match (patterns::regex_split(p, body), patterns::regex_captures(p, body)) {
        (Some(pieces), Some(caps)) => (
            patterns::interleave(
                pieces,
                Seq::new(
                    caps.len(),
                    |k: int| footnote_rep(caps[k], notes, resolved_count(caps, notes, k as nat) + 1),
                ),
            ),
            shown_notes(caps, notes, caps.len()),
        ),
        _ => (body, Seq::empty()),
    }
}

proof fn lemma_resolved_count_bound(caps: Seq<Seq<Option<Seq<char>>>>, notes: Seq<NoteEntry>, n: nat)
    requires
        n <= caps.len(),
    ensures
        resolved_count(caps, notes, n) <= n,
    decreases n,
{
    if n > 0 {
        lemma_resolved_count_bound(caps, notes, (n - 1) as nat);
    }
}

/// Numbers the note references of the body in order, puts each note beside
/// its reference, and returns the notes for the list at the end.
pub fn rewrite_footnotes(body: String, endnotes: &Vec<Endnote>) -> (res: (String, Vec<RenderedEndnote>))
    ensures
        res.0@ == footnoted(body@, notes_view(endnotes@)).0,
        shown_view(res.1@) == footnoted(body@, notes_view(endnotes@)).1,
{
    let ghost nv = notes_view(endnotes@);
    match patterns::matches_of(NOTEREF_PATTERN, body.as_str()) {
        Some((pieces, caps)) => {
            let ghost cv = patterns::captures_view(caps@);
            let mut reps: Vec<Vec<char>> = Vec::new();
            let mut rendered: Vec<RenderedEndnote> = Vec::new();
            let mut count: usize = 0;
            let mut k: usize = 0;
            while k < caps.len()
                invariant
                    cv == patterns::captures_view(caps@),
                    nv == notes_view(endnotes@),
                    k <= caps.len(),
                    count == resolved_count(cv, nv, k as nat),
                    count <= k,
                    shown_view(rendered@) == shown_notes(cv, nv, k as nat),
                    text::vecs_view(reps@) =~= Seq::new(
                        k as nat,
                        |j: int| footnote_rep(cv[j], nv, resolved_count(cv, nv, j as nat) + 1),
                    ),
                decreases caps.len() - k,
            {
                let ghost c = cv[k as int];
                assert(c == groups_view(caps@[k as int]@));
                let attrs = string_of(&group_of(&caps[k], 1));
                let note = match crate::body::extract_href(attrs.as_str()) {
                    Some(h) => find_note(endnotes, &chars_of(h.as_str())),
                    None => None,
                };
                let ghost before = text::vecs_view(reps@);
                let ghost rb = shown_view(rendered@);
                match note {
                    Some(i) => {
                        assert(referenced_note(c, nv) == Some(nv[i as int]));
                        let seq = count + 1;
                        let n = decimal_of(seq as u64);
                        let label = chars_of(endnotes[i].label.as_str());
                        let number = if label.len() == 0 {
                            decimal_of(seq as u64)
                        } else {
                            label
                        };
                        let shown_number = if number.len() == 0 {
                            group_of(&caps[k], 2)
                        } else {
                            chars_of(string_of(&number).as_str())
                        };
                        let mut out = chars_of("<sup class=\"footnote-ref\" id=\"fnref-");
                        push_all(&mut out, &n);
                        push_str(&mut out, "\"><a href=\"#fn-end-");
                        push_all(&mut out, &n);
                        push_str(&mut out, "\">");
                        push_all(&mut out, &markup::escape_html_of(&shown_number));
                        push_str(&mut out, "</a></sup><span class=\"footnote\" id=\"fn-side-");
                        push_all(&mut out, &n);
                        push_str(&mut out, "\"><span class=\"footnote-num\">");
                        push_all(&mut out, &markup::escape_html_of(&number));
                        push_str(&mut out, "</span>");
                        push_str(&mut out, endnotes[i].body_html.as_str());
                        push_str(&mut out, "</span>");
                        assert(out@ =~= footnote_rep(c, nv, resolved_count(cv, nv, k as nat) + 1));
                        rendered.push(RenderedEndnote {
                            number: string_of(&number),
                            body_html: string_of(&chars_of(endnotes[i].body_html.as_str())),
                        });
                        assert(shown_view(rendered@) =~= rb + seq![
                            shown_note(nv[i as int], resolved_count(cv, nv, k as nat) + 1),
                        ]);
                        reps.push(out);
                        count = count + 1;
                    },
                    None => {
                        assert(referenced_note(c, nv) is None);
                        let out = group_of(&caps[k], 0);
                        assert(shown_view(rendered@) =~= rb + Seq::<ShownNote>::empty());
                        reps.push(out);
                    },
                }
                assert(text::vecs_view(reps@) =~= before.push(
                    footnote_rep(c, nv, resolved_count(cv, nv, k as nat) + 1),
                ));
                k += 1;
            }
            (string_of(&patterns::interleave_of(&pieces, &reps)), rendered)
        },
        None => (body, Vec::new()),
    }
}

/// Whether reference `k`, when it resolves, has its note at its place in
/// the list of the first `n` references' notes.
pub open spec fn shown_in_place(caps: Seq<Seq<Option<Seq<char>>>>, notes: Seq<NoteEntry>, n: nat, k: int) -> bool {
    match referenced_note(caps[k], notes) {
        Some(note) => shown_notes(caps, notes, n)[resolved_count(caps, notes, k as nat) as int]
            == shown_note(note, resolved_count(caps, notes, k as nat) + 1),
        None => true,
    }
}

/// Footnotes and the list of notes agree: there are as many shown notes as
/// resolved references, and the reference numbered `i + 1` is shown `i`-th
/// in the list, with its note's number and text.
pub proof fn law_footnotes_match_notes(caps: Seq<Seq<Option<Seq<char>>>>, notes: Seq<NoteEntry>, n: nat)
    requires
        n <= caps.len(),
    ensures
        shown_notes(caps, notes, n).len() == resolved_count(caps, notes, n),
        forall|k: int| 0 <= k < n ==> #[trigger] shown_in_place(caps, notes, n, k),
    decreases n,
{
    if n > 0 {
        law_footnotes_match_notes(caps, notes, (n - 1) as nat);
        let prev = shown_notes(caps, notes, (n - 1) as nat);
        let cur = shown_notes(caps, notes, n);
        assert forall|k: int| 0 <= k < n implies #[trigger] shown_in_place(caps, notes, n, k) by {
            if k < n - 1 {
                assert(shown_in_place(caps, notes, (n - 1) as nat, k));
                if referenced_note(caps[k], notes) is Some {
                    lemma_resolved_monotone(caps, notes, (k + 1) as nat, (n - 1) as nat);
                    assert(cur[resolved_count(caps, notes, k as nat) as int] == prev[resolved_count(
                        caps,
                        notes,
                        k as nat,
                    ) as int]);
                }
            }
        }
    }
}

proof fn lemma_resolved_monotone(caps: Seq<Seq<Option<Seq<char>>>>, notes: Seq<NoteEntry>, a: nat, b: nat)
    requires
        a <= b <= caps.len(),
    ensures
        resolved_count(caps, notes, a) <= resolved_count(caps, notes, b),
    decreases b - a,
{
    if a < b {
        lemma_resolved_monotone(caps, notes, a, (b - 1) as nat);
    }
}

} // verus!
