//! Reading Typst's `repr` of math content: top-level splitting of argument
//! lists, named and positional arguments, call and literal shapes.
use vstd::prelude::*;
use crate::text::{vecs_view, trim, is_ascii_alnum, starts_with, ends_with, join, lemma_join_cons, lemma_trim_len, find_char, lemma_find_char, slice_of, skip_of, trim_of, eq_str, seq_eq, chars_of, strip_prefix_of, strip_suffix_of, has_suffix, find_char_in, char_is_ascii_alnum};

verus! {

/// Where a left-to-right scan stands: how deep in parentheses and brackets,
/// and whether inside a string literal (and just past a backslash in it).
pub struct Scan {
    pub paren: int,
    pub bracket: int,
    pub in_string: bool,
    pub escaped: bool,
}

pub open spec fn scan_init() -> Scan {
    Scan { paren: 0, bracket: 0, in_string: false, escaped: false }
}

/// One character of the scan. Inside a string only escapes and the closing
/// quote matter; inside brackets only the closing bracket does.
pub open spec fn scan_step(st: Scan, ch: char) -> Scan {
    if st.in_string {
        if st.escaped {
            Scan { escaped: false, ..st }
        } else if ch == '\\' {
            Scan { escaped: true, ..st }
        } else if ch == '"' {
            Scan { in_string: false, ..st }
        } else {
            st
        }
    } else if st.bracket > 0 {
        if ch == ']' {
            Scan { bracket: st.bracket - 1, ..st }
        } else {
            st
        }
    } else if ch == '"' {
        Scan { in_string: true, ..st }
    } else if ch == '(' {
        Scan { paren: st.paren + 1, ..st }
    } else if ch == ')' {
        Scan { paren: if st.paren > 0 { st.paren - 1 } else { 0 }, ..st }
    } else if ch == '[' {
        Scan { bracket: st.bracket + 1, ..st }
    } else {
        st
    }
}

/// The scan state after the first `i` characters of `s`.
pub open spec fn scan_before(s: Seq<char>, i: int) -> Scan
    decreases i,
{
    if i <= 0 {
        scan_init()
    } else {
        scan_step(scan_before(s, i - 1), s[i - 1])
    }
}

/// Whether character `ch`, met in state `st`, is the delimiter `d` at top level.
pub open spec fn at_top_level(st: Scan, ch: char, d: char) -> bool {
    &&& !st.in_string
    &&& st.bracket == 0
    &&& ch != '"' && ch != '(' && ch != ')' && ch != '[' && ch != ']'
    &&& ch == d
    &&& st.paren == 0
}

pub open spec fn splits_at(s: Seq<char>, i: int, d: char) -> bool {
    at_top_level(scan_before(s, i), s[i], d)
}

/// The pieces of `s` from `start` on, cut at the top-level delimiters at or
/// after index `i`.
pub open spec fn split_from(s: Seq<char>, d: char, start: int, i: int) -> Seq<Seq<char>>
    decreases s.len() - i,
{
    if i >= s.len() {
        seq![s.subrange(start, s.len() as int)]
    } else if splits_at(s, i, d) {
        seq![s.subrange(start, i)] + split_from(s, d, i + 1, i + 1)
    } else {
        split_from(s, d, start, i + 1)
    }
}

/// `s` cut at every top-level occurrence of `d`: one outside all parentheses,
/// brackets and string literals.
pub open spec fn split_top_level(s: Seq<char>, d: char) -> Seq<Seq<char>> {
    split_from(s, d, 0, 0)
}

/// The first top-level occurrence of `d` at or after `i`.
pub open spec fn find_from(s: Seq<char>, d: char, i: int) -> Option<int>
    decreases s.len() - i,
{
    if i >= s.len() {
        None
    } else if splits_at(s, i, d) {
        Some(i)
    } else {
        find_from(s, d, i + 1)
    }
}

pub open spec fn find_top_level(s: Seq<char>, d: char) -> Option<int> {
    find_from(s, d, 0)
}

pub proof fn lemma_scan_bounds(s: Seq<char>, i: int)
    requires
        0 <= i,
    ensures
        0 <= scan_before(s, i).paren <= i,
        0 <= scan_before(s, i).bracket <= i,
    decreases i,
{
    if i > 0 {
        lemma_scan_bounds(s, i - 1);
    }
}

pub proof fn lemma_split_from_pieces(s: Seq<char>, d: char, start: int, i: int)
    requires
        0 <= start <= i <= s.len(),
    ensures
        split_from(s, d, start, i).len() > 0,
        forall|k: int|
            0 <= k < split_from(s, d, start, i).len() ==> #[trigger] split_from(
                s,
                d,
                start,
                i,
            )[k].len() <= s.len() - start,
        join(split_from(s, d, start, i), seq![d]) == s.subrange(start, s.len() as int),
    decreases s.len() - i,
{
    if i >= s.len() {
    } else if splits_at(s, i, d) {
        let rest = split_from(s, d, i + 1, i + 1);
        lemma_split_from_pieces(s, d, i + 1, i + 1);
        lemma_join_cons(s.subrange(start, i), rest, seq![d]);
        assert(s.subrange(start, i) + seq![d] + s.subrange(i + 1, s.len() as int) =~= s.subrange(
            start,
            s.len() as int,
        ));
        let all = seq![s.subrange(start, i)] + rest;
        assert forall|k: int| 0 <= k < all.len() implies #[trigger] all[k].len() <= s.len()
            - start by {
            if k > 0 {
                assert(all[k] == rest[k - 1]);
            }
        }
    } else {
        lemma_split_from_pieces(s, d, start, i + 1);
    }
}

/// Splitting at top-level delimiters loses nothing: joining the pieces with
/// the delimiter gives back the text.
pub proof fn lemma_split_join(s: Seq<char>, d: char)
    ensures
        join(split_top_level(s, d), seq![d]) == s,
        split_top_level(s, d).len() > 0,
        forall|k: int|
            0 <= k < split_top_level(s, d).len() ==> #[trigger] split_top_level(s, d)[k].len()
                <= s.len(),
{
    lemma_split_from_pieces(s, d, 0, 0);
    assert(s.subrange(0, s.len() as int) == s);
}

/// Where piece `k` starts, counted from the first piece: the lengths of the
/// pieces before it, each with one delimiter after it.
pub open spec fn piece_start(pieces: Seq<Seq<char>>, k: int) -> int
    decreases k,
{
    if k <= 0 {
        0
    } else {
        piece_start(pieces, k - 1) + pieces[k - 1].len() + 1
    }
}

/// No piece holds a top-level delimiter (the pieces begin at `base`).
pub open spec fn no_cut_within(s: Seq<char>, d: char, pieces: Seq<Seq<char>>, base: int) -> bool {
    forall|k: int, i: int|
        #![trigger pieces[k], splits_at(s, i, d)]
        0 <= k < pieces.len() && base + piece_start(pieces, k) <= i < base + piece_start(pieces, k)
            + pieces[k].len() ==> !splits_at(s, i, d)
}

/// Right after each piece but the last stands a top-level delimiter.
pub open spec fn cut_after_each(s: Seq<char>, d: char, pieces: Seq<Seq<char>>, base: int) -> bool {
    forall|k: int|
        0 <= k < pieces.len() - 1 ==> splits_at(
            s,
            base + piece_start(pieces, k) + (#[trigger] pieces[k]).len(),
            d,
        )
}

proof fn lemma_piece_start_cons(a: Seq<char>, rest: Seq<Seq<char>>, k: int)
    requires
        1 <= k <= rest.len() + 1,
    ensures
        piece_start(seq![a] + rest, k) == a.len() + 1 + piece_start(rest, k - 1),
    decreases k,
{
    let all = seq![a] + rest;
    assert(all[0] == a);
    assert(piece_start(all, k) == piece_start(all, k - 1) + all[k - 1].len() + 1);
    if k > 1 {
        lemma_piece_start_cons(a, rest, k - 1);
        assert(all[k - 1] == rest[k - 2]);
        assert(piece_start(rest, k - 1) == piece_start(rest, k - 2) + rest[k - 2].len() + 1);
    } else {
        assert(piece_start(all, 0) == 0);
        assert(piece_start(rest, 0) == 0);
    }
}

proof fn lemma_cuts_cons(s: Seq<char>, d: char, start: int, i: int, a: Seq<char>, rest: Seq<Seq<char>>)
    requires
        0 <= start <= i,
        a.len() == i - start,
        splits_at(s, i, d),
        forall|t: int| start <= t < i ==> !#[trigger] splits_at(s, t, d),
        no_cut_within(s, d, rest, i + 1),
        cut_after_each(s, d, rest, i + 1),
        rest.len() > 0,
    ensures
        no_cut_within(s, d, seq![a] + rest, start),
        cut_after_each(s, d, seq![a] + rest, start),
{
    let ps = seq![a] + rest;
    assert forall|k: int, t: int|
        #![trigger ps[k], splits_at(s, t, d)]
        0 <= k < ps.len() && start + piece_start(ps, k) <= t < start + piece_start(ps, k)
            + ps[k].len() implies !splits_at(s, t, d) by {
        if k > 0 {
            lemma_piece_start_cons(a, rest, k);
            assert(ps[k] == rest[k - 1]);
        } else {
            assert(ps[0] == a);
        }
    }
    assert forall|k: int| 0 <= k < ps.len() - 1 implies splits_at(
        s,
        start + piece_start(ps, k) + (#[trigger] ps[k]).len(),
        d,
    ) by {
        if k > 0 {
            lemma_piece_start_cons(a, rest, k);
            assert(ps[k] == rest[k - 1]);
        } else {
            assert(ps[0] == a);
        }
    }
}

proof fn lemma_split_from_cuts(s: Seq<char>, d: char, start: int, i: int)
    requires
        0 <= start <= i <= s.len(),
        forall|t: int| start <= t < i ==> !#[trigger] splits_at(s, t, d),
    ensures
        no_cut_within(s, d, split_from(s, d, start, i), start),
        cut_after_each(s, d, split_from(s, d, start, i), start),
    decreases s.len() - i,
{
    let ps = split_from(s, d, start, i);
    if i >= s.len() {
        assert(ps == seq![s.subrange(start, s.len() as int)]);
        assert(ps[0].len() == s.len() - start);
    } else if splits_at(s, i, d) {
        let rest = split_from(s, d, i + 1, i + 1);
        lemma_split_from_cuts(s, d, i + 1, i + 1);
        lemma_split_from_pieces(s, d, i + 1, i + 1);
        let a = s.subrange(start, i);
        assert(ps == seq![a] + rest);
        lemma_cuts_cons(s, d, start, i, a, rest);
    } else {
        lemma_split_from_cuts(s, d, start, i + 1);
    }
}

/// The pieces of a top-level split are cut exactly at the top-level
/// delimiters: no piece holds one, and one stands after each piece but
/// the last; joined with the delimiter they give back the text.
pub proof fn law_split_at_top_level(s: Seq<char>, d: char)
    ensures
        no_cut_within(s, d, split_top_level(s, d), 0),
        cut_after_each(s, d, split_top_level(s, d), 0),
        join(split_top_level(s, d), seq![d]) == s,
{
    lemma_split_from_cuts(s, d, 0, 0);
    lemma_split_join(s, d);
}

pub proof fn lemma_find_from(s: Seq<char>, d: char, i: int)
    requires
        0 <= i <= s.len(),
    ensures
        find_from(s, d, i) matches Some(k) ==> i <= k < s.len() && s[k] == d,
    decreases s.len() - i,
{
    if i < s.len() && !splits_at(s, i, d) {
        lemma_find_from(s, d, i + 1);
    }
}

/// Scanner state in executable form.
struct ScanExec {
    paren: usize,
    bracket: usize,
    in_string: bool,
    escaped: bool,
}

impl ScanExec {
    spec fn view(&self) -> Scan {
        Scan {
            paren: self.paren as int,
            bracket: self.bracket as int,
            in_string: self.in_string,
            escaped: self.escaped,
        }
    }
}

fn scan_start() -> (st: ScanExec)
    ensures
        st.view() == scan_init(),
{
    ScanExec { paren: 0, bracket: 0, in_string: false, escaped: false }
}

fn top_level_here(st: &ScanExec, ch: char, d: char) -> (b: bool)
    ensures
        b == at_top_level(st.view(), ch, d),
{
    !st.in_string && st.bracket == 0 && ch != '"' && ch != '(' && ch != ')' && ch != '[' && ch
        != ']' && ch == d && st.paren == 0
}

fn scan_advance(st: &mut ScanExec, ch: char, Ghost(s): Ghost<Seq<char>>, Ghost(i): Ghost<int>)
    requires
        s.len() <= usize::MAX,
        0 <= i < s.len(),
        s[i] == ch,
        old(st).view() == scan_before(s, i),
    ensures
        final(st).view() == scan_before(s, i + 1),
{
    proof {
        lemma_scan_bounds(s, i);
    }
    if st.in_string {
        if st.escaped {
            st.escaped = false;
        } else if ch == '\\' {
            st.escaped = true;
        } else if ch == '"' {
            st.in_string = false;
        }
    } else if st.bracket > 0 {
        if ch == ']' {
            st.bracket = st.bracket - 1;
        }
    } else if ch == '"' {
        st.in_string = true;
    } else if ch == '(' {
        assert(st.paren <= i);
        st.paren = st.paren + 1;
    } else if ch == ')' {
        if st.paren > 0 {
            st.paren = st.paren - 1;
        }
    } else if ch == '[' {
        st.bracket = st.bracket + 1;
    }
}

/// The top-level pieces of `v` (see `split_top_level`).
pub fn split_top_level_of(v: &Vec<char>, d: char) -> (res: Vec<Vec<char>>)
    ensures
        vecs_view(res@) == split_top_level(v@, d),
{
    let mut parts: Vec<Vec<char>> = Vec::new();
    let mut st = scan_start();
    let mut start: usize = 0;
    let mut i: usize = 0;
    while i < v.len()
        invariant
            start <= i <= v.len(),
            st.view() == scan_before(v@, i as int),
            vecs_view(parts@) + split_from(v@, d, start as int, i as int) == split_top_level(
                v@,
                d,
            ),
        decreases v.len() - i,
    {
        let ch = v[i];
        if top_level_here(&st, ch, d) {
            let piece = slice_of(v, start, i);
            let ghost before = vecs_view(parts@);
            parts.push(piece);
            assert(vecs_view(parts@) =~= before.push(piece@));
            assert(vecs_view(parts@) + split_from(v@, d, i + 1, i + 1) =~= before + split_from(
                v@,
                d,
                start as int,
                i as int,
            ));
            start = i + 1;
        }
        scan_advance(&mut st, ch, Ghost(v@), Ghost(i as int));
        i += 1;
    }
    let last = slice_of(v, start, v.len());
    let ghost before = vecs_view(parts@);
    parts.push(last);
    assert(vecs_view(parts@) =~= before + split_from(v@, d, start as int, i as int));
    parts
}

/// Index of the first top-level `d` in `v` (see `find_top_level`).
pub fn find_top_level_of(v: &Vec<char>, d: char) -> (res: Option<usize>)
    ensures
        match res {
            Some(k) => find_top_level(v@, d) == Some(k as int),
            None => find_top_level(v@, d) is None,
        },
{
    let mut st = scan_start();
    let mut i: usize = 0;
    while i < v.len()
        invariant
            i <= v.len(),
            st.view() == scan_before(v@, i as int),
            find_from(v@, d, i as int) == find_top_level(v@, d),
        decreases v.len() - i,
    {
        let ch = v[i];
        if top_level_here(&st, ch, d) {
            return Some(i);
        }
        scan_advance(&mut st, ch, Ghost(v@), Ghost(i as int));
        i += 1;
    }
    None
}

// ---------------------------------------------------------------------------
// Arguments
// ---------------------------------------------------------------------------

/// One argument of a call in Typst's repr: `name: value` or a bare `value`.
pub struct ArgSpec {
    pub name: Option<Seq<char>>,
    pub value: Seq<char>,
}

/// How one comma-separated piece reads as an argument; empty pieces and the
/// `..` spread marker are none.
pub open spec fn arg_of_piece(raw: Seq<char>) -> Option<ArgSpec> {
    let value = trim(raw);
    if value.len() == 0 || value == ".."@ {
        None
    } else {
        match find_top_level(value, ':') {
            Some(colon) => Some(
                ArgSpec { name: Some(trim(value.take(colon))), value: trim(value.skip(colon + 1)) },
            ),
            None => Some(ArgSpec { name: None, value }),
        }
    }
}

pub open spec fn args_of_pieces(pieces: Seq<Seq<char>>) -> Seq<ArgSpec>
    decreases pieces.len(),
{
    if pieces.len() == 0 {
        Seq::empty()
    } else {
        let before = args_of_pieces(pieces.drop_last());
        match arg_of_piece(pieces.last()) {
            Some(a) => before.push(a),
            None => before,
        }
    }
}

/// The arguments of a call whose parenthesised part is `inner`.
pub open spec fn parse_args(inner: Seq<char>) -> Seq<ArgSpec> {
    args_of_pieces(split_top_level(inner, ','))
}

pub proof fn lemma_arg_of_piece_bounded(raw: Seq<char>)
    ensures
        arg_of_piece(raw) matches Some(a) ==> a.value.len() <= raw.len() && (a.name matches Some(
            n,
        ) ==> n.len() <= raw.len()),
{
    let value = trim(raw);
    lemma_trim_len(raw);
    if value.len() > 0 && value != ".."@ {
        match find_top_level(value, ':') {
            Some(colon) => {
                lemma_find_from(value, ':', 0);
                lemma_trim_len(value.take(colon));
                lemma_trim_len(value.skip(colon + 1));
            },
            None => {},
        }
    }
}

pub proof fn lemma_args_of_pieces_bounded(pieces: Seq<Seq<char>>, bound: int)
    requires
        forall|k: int| 0 <= k < pieces.len() ==> #[trigger] pieces[k].len() <= bound,
    ensures
        forall|k: int|
            0 <= k < args_of_pieces(pieces).len() ==> #[trigger] args_of_pieces(
                pieces,
            )[k].value.len() <= bound,
    decreases pieces.len(),
{
    if pieces.len() > 0 {
        lemma_args_of_pieces_bounded(pieces.drop_last(), bound);
        lemma_arg_of_piece_bounded(pieces.last());
        let before = args_of_pieces(pieces.drop_last());
        assert forall|k: int| 0 <= k < args_of_pieces(pieces).len() implies #[trigger] args_of_pieces(
            pieces,
        )[k].value.len() <= bound by {
            if k < before.len() {
                assert(args_of_pieces(pieces)[k] == before[k]);
            }
        }
    }
}

/// Every argument value is no longer than the text it came from.
pub proof fn lemma_parse_args_bounded(inner: Seq<char>)
    ensures
        forall|k: int|
            0 <= k < parse_args(inner).len() ==> #[trigger] parse_args(inner)[k].value.len()
                <= inner.len(),
{
    lemma_split_join(inner, ',');
    lemma_args_of_pieces_bounded(split_top_level(inner, ','), inner.len() as int);
}

pub struct Arg {
    pub name: Option<Vec<char>>,
    pub value: Vec<char>,
}

impl Arg {
    pub open spec fn view(&self) -> ArgSpec {
        ArgSpec {
            name: match self.name {
                Some(n) => Some(n@),
                None => None,
            },
            value: self.value@,
        }
    }
}

pub open spec fn args_view(args: Seq<Arg>) -> Seq<ArgSpec> {
    Seq::new(args.len(), |k: int| args[k].view())
}

fn arg_of_piece_exec(raw: &Vec<char>) -> (res: Option<Arg>)
    ensures
        match res {
            Some(a) => arg_of_piece(raw@) == Some(a.view()),
            None => arg_of_piece(raw@) is None,
        },
{
    let value = trim_of(raw);
    if value.len() == 0 || eq_str(&value, "..") {
        return None;
    }
    match find_top_level_of(&value, ':') {
        Some(colon) => {
            proof {
                lemma_find_from(value@, ':', 0);
            }
            let name = trim_of(&slice_of(&value, 0, colon));
            let val = trim_of(&skip_of(&value, colon + 1));
            assert(value@.subrange(0, colon as int) == value@.take(colon as int));
            Some(Arg { name: Some(name), value: val })
        },
        None => Some(Arg { name: None, value }),
    }
}

/// The arguments of a call whose parenthesised part is `inner`.
pub fn parse_args_of(inner: &Vec<char>) -> (res: Vec<Arg>)
    ensures
        args_view(res@) == parse_args(inner@),
{
    let pieces = split_top_level_of(inner, ',');
    let ghost ps = vecs_view(pieces@);
    let mut args: Vec<Arg> = Vec::new();
    let mut i: usize = 0;
    while i < pieces.len()
        invariant
            ps == vecs_view(pieces@),
            ps == split_top_level(inner@, ','),
            i <= pieces.len(),
            args_view(args@) == args_of_pieces(ps.take(i as int)),
        decreases pieces.len() - i,
    {
        let a = arg_of_piece_exec(&pieces[i]);
        assert(ps.take(i + 1).drop_last() == ps.take(i as int));
        assert(ps.take(i + 1).last() == pieces[i as int]@);
        match a {
            Some(a) => {
                let ghost before = args@;
                args.push(a);
                assert(args_view(args@) =~= args_view(before).push(a.view()));
            },
            None => {},
        }
        i += 1;
    }
    assert(ps.take(pieces.len() as int) == ps);
    args
}

/// Index of the first argument named `name`.
pub open spec fn named_index(args: Seq<ArgSpec>, name: Seq<char>) -> Option<int>
    decreases args.len(),
{
    if args.len() == 0 {
        None
    } else if args[0].name == Some(name) {
        Some(0)
    } else {
        match named_index(args.drop_first(), name) {
            Some(k) => Some(k + 1),
            None => None,
        }
    }
}

/// Index of the `n`-th (from zero) argument without a name.
pub open spec fn positional_index(args: Seq<ArgSpec>, n: int) -> Option<int>
    decreases args.len(),
{
    if args.len() == 0 {
        None
    } else if args[0].name is None && n == 0 {
        Some(0)
    } else {
        match positional_index(args.drop_first(), if args[0].name is None { n - 1 } else { n }) {
            Some(k) => Some(k + 1),
            None => None,
        }
    }
}

/// The first of two choices that is present (`Option::or_else`).
pub open spec fn first_of(a: Option<int>, b: Option<int>) -> Option<int> {
    match a {
        Some(_) => a,
        None => b,
    }
}

pub proof fn lemma_named_index(args: Seq<ArgSpec>, name: Seq<char>)
    ensures
        named_index(args, name) matches Some(k) ==> 0 <= k < args.len() && args[k].name == Some(
            name,
        ),
    decreases args.len(),
{
    if args.len() > 0 && args[0].name != Some(name) {
        lemma_named_index(args.drop_first(), name);
    }
}

pub proof fn lemma_positional_index(args: Seq<ArgSpec>, n: int)
    ensures
        positional_index(args, n) matches Some(k) ==> 0 <= k < args.len() && args[k].name is None,
    decreases args.len(),
{
    if args.len() > 0 && !(args[0].name is None && n == 0) {
        lemma_positional_index(args.drop_first(), if args[0].name is None { n - 1 } else { n });
    }
}

fn name_is(a: &Arg, name: &Vec<char>) -> (b: bool)
    ensures
        b == (a.view().name == Some(name@)),
{
    match &a.name {
        Some(n) => seq_eq(n, name),
        None => false,
    }
}

pub fn named_index_of(args: &Vec<Arg>, name: &str) -> (res: Option<usize>)
    ensures
        match res {
            Some(k) => named_index(args_view(args@), name@) == Some(k as int),
            None => named_index(args_view(args@), name@) is None,
        },
{
    let nv = chars_of(name);
    let ghost all = args_view(args@);
    let mut i: usize = 0;
    assert(all.skip(0) == all);
    while i < args.len()
        invariant
            all == args_view(args@),
            nv@ == name@,
            i <= args.len(),
            named_index(all.skip(i as int), name@) matches Some(k) ==> named_index(all, name@)
                == Some(k + i),
            named_index(all.skip(i as int), name@) is None ==> named_index(all, name@) is None,
        decreases args.len() - i,
    {
        let ghost rest = all.skip(i as int);
        assert(rest[0] == args[i as int].view());
        if name_is(&args[i], &nv) {
            return Some(i);
        }
        assert(rest.drop_first() == all.skip(i + 1));
        i += 1;
    }
    None
}

pub fn positional_index_of(args: &Vec<Arg>, n: usize) -> (res: Option<usize>)
    ensures
        match res {
            Some(k) => positional_index(args_view(args@), n as int) == Some(k as int),
            None => positional_index(args_view(args@), n as int) is None,
        },
{
    let ghost all = args_view(args@);
    let mut i: usize = 0;
    let mut left: usize = n;
    assert(all.skip(0) == all);
    while i < args.len()
        invariant
            all == args_view(args@),
            i <= args.len(),
            left <= n,
            positional_index(all.skip(i as int), left as int) matches Some(k)
                ==> positional_index(all, n as int) == Some(k + i),
            positional_index(all.skip(i as int), left as int) is None ==> positional_index(
                all,
                n as int,
            ) is None,
        decreases args.len() - i,
    {
        let ghost rest = all.skip(i as int);
        assert(rest[0] == args[i as int].view());
        assert(rest.drop_first() == all.skip(i + 1));
        if args[i].name.is_none() {
            if left == 0 {
                return Some(i);
            }
            left = left - 1;
        }
        i += 1;
    }
    None
}

// ---------------------------------------------------------------------------
// Tuples, calls, literals
// ---------------------------------------------------------------------------

/// The items of a tuple repr `(a, b, ..)`: the outer parentheses (when both
/// are there) come off, then the top-level comma pieces, trimmed, without
/// empty ones and `..`.
pub open spec fn tuple_items(s: Seq<char>) -> Seq<Seq<char>> {
    let value = trim(s);
    let inner = if starts_with(value, "("@) && ends_with(value.skip(1), ")"@) {
        value.skip(1).take(value.len() - 2)
    } else {
        value
    };
    keep_items(split_top_level(inner, ','))
}

pub open spec fn keep_items(pieces: Seq<Seq<char>>) -> Seq<Seq<char>>
    decreases pieces.len(),
{
    if pieces.len() == 0 {
        Seq::empty()
    } else {
        let before = keep_items(pieces.drop_last());
        let item = trim(pieces.last());
        if item.len() == 0 || item == ".."@ {
            before
        } else {
            before.push(item)
        }
    }
}

pub proof fn lemma_keep_items_bounded(pieces: Seq<Seq<char>>, bound: int)
    requires
        forall|k: int| 0 <= k < pieces.len() ==> #[trigger] pieces[k].len() <= bound,
    ensures
        forall|k: int|
            0 <= k < keep_items(pieces).len() ==> #[trigger] keep_items(pieces)[k].len() <= bound,
    decreases pieces.len(),
{
    if pieces.len() > 0 {
        lemma_keep_items_bounded(pieces.drop_last(), bound);
        lemma_trim_len(pieces.last());
        let before = keep_items(pieces.drop_last());
        assert forall|k: int| 0 <= k < keep_items(pieces).len() implies #[trigger] keep_items(
            pieces,
        )[k].len() <= bound by {
            if k < before.len() {
                assert(keep_items(pieces)[k] == before[k]);
            }
        }
    }
}

/// Tuple items are no longer than the tuple.
pub proof fn lemma_tuple_items_bounded(s: Seq<char>)
    ensures
        forall|k: int|
            0 <= k < tuple_items(s).len() ==> #[trigger] tuple_items(s)[k].len() <= s.len(),
{
    let value = trim(s);
    lemma_trim_len(s);
    reveal_strlit("(");
    reveal_strlit(")");
    let inner = if starts_with(value, "("@) && ends_with(value.skip(1), ")"@) {
        value.skip(1).take(value.len() - 2)
    } else {
        value
    };
    lemma_split_join(inner, ',');
    assert(inner.len() <= s.len());
    lemma_keep_items_bounded(split_top_level(inner, ','), s.len() as int);
}

pub fn tuple_items_of(s: &Vec<char>) -> (res: Vec<Vec<char>>)
    ensures
        vecs_view(res@) == tuple_items(s@),
{
    let value = trim_of(s);
    let inner = match strip_prefix_of(&value, "(") {
        Some(rest) => match strip_suffix_of(&rest, ")") {
            Some(inner) => {
                proof {
                    reveal_strlit("(");
                    reveal_strlit(")");
                }
                assert(rest@ == value@.skip(1));
                inner
            },
            None => value,
        },
        None => value,
    };
    proof {
        reveal_strlit("(");
        reveal_strlit(")");
    }
    let pieces = split_top_level_of(&inner, ',');
    let ghost ps = vecs_view(pieces@);
    let mut items: Vec<Vec<char>> = Vec::new();
    let mut i: usize = 0;
    while i < pieces.len()
        invariant
            ps == vecs_view(pieces@),
            ps == split_top_level(inner@, ','),
            i <= pieces.len(),
            vecs_view(items@) == keep_items(ps.take(i as int)),
        decreases pieces.len() - i,
    {
        let item = trim_of(&pieces[i]);
        assert(ps.take(i + 1).drop_last() == ps.take(i as int));
        assert(ps.take(i + 1).last() == pieces[i as int]@);
        if !(item.len() == 0 || eq_str(&item, "..")) {
            let ghost before = vecs_view(items@);
            items.push(item);
            assert(vecs_view(items@) =~= before.push(item@));
        }
        i += 1;
    }
    assert(ps.take(pieces.len() as int) == ps);
    items
}

pub open spec fn is_name_char(c: char) -> bool {
    is_ascii_alnum(c) || c == '-' || c == '_'
}

pub open spec fn all_name_chars(s: Seq<char>) -> bool {
    forall|k: int| 0 <= k < s.len() ==> is_name_char(#[trigger] s[k])
}

/// `name(inner)`: the text up to the first `(` (trimmed) is a non-empty
/// identifier and the text ends with `)`.
pub open spec fn call_parts(s: Seq<char>) -> Option<(Seq<char>, Seq<char>)> {
    match find_char(s, '(') {
        Some(open) => {
            let name = trim(s.take(open));
            if ends_with(s, ")"@) && name.len() > 0 && all_name_chars(name) {
                Some((name, s.subrange(open + 1, s.len() - 1)))
            } else {
                None
            }
        },
        None => None,
    }
}

pub proof fn lemma_call_parts_shorter(s: Seq<char>)
    ensures
        call_parts(s) matches Some((name, inner)) ==> inner.len() < s.len() && name.len() < s.len(),
{
    lemma_find_char(s, '(');
    reveal_strlit(")");
    match find_char(s, '(') {
        Some(open) => {
            lemma_trim_len(s.take(open));
            if ends_with(s, ")"@) {
                assert(s.skip(s.len() - 1)[0] == s[s.len() - 1]);
            }
        },
        None => {},
    }
}

fn all_name_chars_of(v: &Vec<char>) -> (b: bool)
    ensures
        b == all_name_chars(v@),
{
    let mut i: usize = 0;
    while i < v.len()
        invariant
            i <= v.len(),
            forall|k: int| 0 <= k < i ==> is_name_char(#[trigger] v@[k]),
        decreases v.len() - i,
    {
        let c = v[i];
        if !(char_is_ascii_alnum(c) || c == '-' || c == '_') {
            return false;
        }
        i += 1;
    }
    true
}

pub fn call_parts_of(s: &Vec<char>) -> (res: Option<(Vec<char>, Vec<char>)>)
    ensures
        match res {
            Some((n, i)) => call_parts(s@) == Some((n@, i@)),
            None => call_parts(s@) is None,
        },
{
    proof {
        lemma_find_char(s@, '(');
        reveal_strlit(")");
    }
    let open = match find_char_in(s, '(') {
        Some(o) => o,
        None => return None,
    };
    if !has_suffix(s, ")") {
        return None;
    }
    let name = trim_of(&slice_of(s, 0, open));
    assert(s@.subrange(0, open as int) == s@.take(open as int));
    if name.len() == 0 || !all_name_chars_of(&name) {
        return None;
    }
    assert(open + 1 <= s.len() - 1) by {
        assert(s@.skip(s.len() - 1)[0] == s@[s.len() - 1]);
    }
    let inner = slice_of(s, open + 1, s.len() - 1);
    Some((name, inner))
}

/// The name of the call that `s` begins with, if it begins like one.
pub open spec fn first_call_name(s: Seq<char>) -> Option<Seq<char>> {
    let t = trim(s);
    match find_char(t, '(') {
        Some(open) => {
            let name = trim(t.take(open));
            if name.len() > 0 && all_name_chars(name) {
                Some(name)
            } else {
                None
            }
        },
        None => None,
    }
}

pub fn first_call_name_of(s: &Vec<char>) -> (res: Option<Vec<char>>)
    ensures
        match res {
            Some(n) => first_call_name(s@) == Some(n@),
            None => first_call_name(s@) is None,
        },
{
    let t = trim_of(s);
    let open = match find_char_in(&t, '(') {
        Some(o) => o,
        None => return None,
    };
    proof {
        lemma_find_char(t@, '(');
    }
    let name = trim_of(&slice_of(&t, 0, open));
    assert(t@.subrange(0, open as int) == t@.take(open as int));
    if name.len() == 0 || !all_name_chars_of(&name) {
        None
    } else {
        Some(name)
    }
}

/// `[content]`: the text between a leading `[` and a trailing `]`.
pub open spec fn bracket_literal(s: Seq<char>) -> Option<Seq<char>> {
    if s.len() >= 2 && s[0] == '[' && s.last() == ']' {
        Some(s.subrange(1, s.len() - 1))
    } else {
        None
    }
}

/// `"text"`: the text between a leading and a trailing double quote.
pub open spec fn quoted_literal(s: Seq<char>) -> Option<Seq<char>> {
    if s.len() >= 2 && s[0] == '"' && s.last() == '"' {
        Some(s.subrange(1, s.len() - 1))
    } else {
        None
    }
}

pub fn bracket_literal_of(s: &Vec<char>) -> (res: Option<Vec<char>>)
    ensures
        match res {
            Some(r) => bracket_literal(s@) == Some(r@),
            None => bracket_literal(s@) is None,
        },
{
    if s.len() >= 2 && s[0] == '[' && s[s.len() - 1] == ']' {
        Some(slice_of(s, 1, s.len() - 1))
    } else {
        None
    }
}

pub fn quoted_literal_of(s: &Vec<char>) -> (res: Option<Vec<char>>)
    ensures
        match res {
            Some(r) => quoted_literal(s@) == Some(r@),
            None => quoted_literal(s@) is None,
        },
{
    if s.len() >= 2 && s[0] == '"' && s[s.len() - 1] == '"' {
        Some(slice_of(s, 1, s.len() - 1))
    } else {
        None
    }
}

} // verus!
