//! Typst math (in the `repr` form the HTML export records) to KaTeX.
use vstd::prelude::*;
use crate::text;
use crate::scan;
use crate::pieces;
use crate::tex;
use crate::text::{chars_of, push_all, push_str, trim_of, eq_str, join_vecs, string_of, replace_str, collapse_ws_of};
use crate::scan::{
    Arg, args_view, parse_args_of, named_index_of, positional_index_of, tuple_items_of,
    call_parts_of, bracket_literal_of, quoted_literal_of,
};
use crate::pieces::{
    attach_to_tex, op_to_tex, styled_post_of, case_row_post_of, matrix_env_of, hspace_to_tex,
    parse_usize_of, primes_to_tex, frac_to_tex, root_to_tex, accent_to_tex,
};
use crate::tex::{literal_to_tex, text_literal_to_tex};

verus! {

// ---------------------------------------------------------------------------
// Choosing arguments
// ---------------------------------------------------------------------------

pub open spec fn opt_int(o: Option<usize>) -> Option<int> {
    match o {
        Some(k) => Some(k as int),
        None => None,
    }
}

/// The argument named `name`.
pub open spec fn named(inner: Seq<char>, name: Seq<char>) -> Option<int> {
    scan::named_index(scan::parse_args(inner), name)
}

/// The `n`-th positional argument.
pub open spec fn positional(inner: Seq<char>, n: int) -> Option<int> {
    scan::positional_index(scan::parse_args(inner), n)
}

/// The raw (unconverted) value of the chosen argument.
pub open spec fn arg_value(inner: Seq<char>, idx: Option<int>) -> Option<Seq<char>> {
    let args = scan::parse_args(inner);
    match idx {
        Some(k) => if 0 <= k < args.len() {
            Some(args[k].value)
        } else {
            None
        },
        None => None,
    }
}

/// The first argument named `body`, `child` or `text`.
pub open spec fn content_index(args: Seq<scan::ArgSpec>) -> Option<int>
    decreases args.len(),
{
    if args.len() == 0 {
        None
    } else if args[0].name == Some("body"@) || args[0].name == Some("child"@) || args[0].name
        == Some("text"@) {
        Some(0)
    } else {
        match content_index(args.drop_first()) {
            Some(k) => Some(k + 1),
            None => None,
        }
    }
}

pub proof fn lemma_content_index(args: Seq<scan::ArgSpec>)
    ensures
        content_index(args) matches Some(k) ==> 0 <= k < args.len(),
    decreases args.len(),
{
    if args.len() > 0 && !(args[0].name == Some("body"@) || args[0].name == Some("child"@)
        || args[0].name == Some("text"@)) {
        lemma_content_index(args.drop_first());
    }
}

/// The rows of a matrix: each row tuple's items, empty rows left out.
pub open spec fn nonempty_rows(items: Seq<Seq<char>>) -> Seq<Seq<Seq<char>>>
    decreases items.len(),
{
    if items.len() == 0 {
        Seq::empty()
    } else {
        let before = nonempty_rows(items.drop_last());
        let row = scan::tuple_items(items.last());
        if row.len() == 0 {
            before
        } else {
            before.push(row)
        }
    }
}

pub open spec fn parse_matrix_rows(v: Seq<char>) -> Seq<Seq<Seq<char>>> {
    nonempty_rows(scan::tuple_items(v))
}

/// The cells of the `rows` argument of `mat(..)`.
pub open spec fn matrix_rows(inner: Seq<char>) -> Seq<Seq<Seq<char>>> {
    match arg_value(inner, named(inner, "rows"@)) {
        Some(v) => parse_matrix_rows(v),
        None => Seq::empty(),
    }
}

/// The rows of the `children` argument of `cases(..)`.
pub open spec fn case_items(inner: Seq<char>) -> Seq<Seq<char>> {
    match arg_value(inner, named(inner, "children"@)) {
        Some(v) => scan::tuple_items(v),
        None => Seq::empty(),
    }
}

pub proof fn lemma_arg_value_bounded(inner: Seq<char>, idx: Option<int>)
    ensures
        arg_value(inner, idx) matches Some(v) ==> v.len() <= inner.len(),
{
    scan::lemma_parse_args_bounded(inner);
}

pub proof fn lemma_nonempty_rows_bounded(items: Seq<Seq<char>>, bound: int)
    requires
        forall|k: int| 0 <= k < items.len() ==> #[trigger] items[k].len() <= bound,
    ensures
        forall|r: int, c: int|
            0 <= r < nonempty_rows(items).len() && 0 <= c < nonempty_rows(items)[r].len()
                ==> #[trigger] nonempty_rows(items)[r][c].len() <= bound,
    decreases items.len(),
{
    if items.len() > 0 {
        lemma_nonempty_rows_bounded(items.drop_last(), bound);
        scan::lemma_tuple_items_bounded(items.last());
        let before = nonempty_rows(items.drop_last());
        assert forall|r: int, c: int|
            0 <= r < nonempty_rows(items).len() && 0 <= c < nonempty_rows(items)[r].len()
                implies #[trigger] nonempty_rows(items)[r][c].len() <= bound by {
            if r < before.len() {
                assert(nonempty_rows(items)[r] == before[r]);
            }
        }
    }
}

/// Matrix cells are no longer than the call's argument text.
pub proof fn lemma_matrix_rows_bounded(inner: Seq<char>)
    ensures
        forall|r: int, c: int|
            0 <= r < matrix_rows(inner).len() && 0 <= c < matrix_rows(inner)[r].len()
                ==> #[trigger] matrix_rows(inner)[r][c].len() <= inner.len(),
{
    lemma_arg_value_bounded(inner, named(inner, "rows"@));
    match arg_value(inner, named(inner, "rows"@)) {
        Some(v) => {
            scan::lemma_tuple_items_bounded(v);
            lemma_nonempty_rows_bounded(scan::tuple_items(v), inner.len() as int);
        },
        None => {},
    }
}

pub proof fn lemma_case_items_bounded(inner: Seq<char>)
    ensures
        forall|k: int|
            0 <= k < case_items(inner).len() ==> #[trigger] case_items(inner)[k].len()
                <= inner.len(),
{
    lemma_arg_value_bounded(inner, named(inner, "children"@));
    match arg_value(inner, named(inner, "children"@)) {
        Some(v) => {
            scan::lemma_tuple_items_bounded(v);
        },
        None => {},
    }
}

/// Whether the call's `limits` argument is `true`.
pub open spec fn limits_flag(inner: Seq<char>) -> bool {
    match arg_value(inner, named(inner, "limits"@)) {
        Some(v) => text::trim(v) == "true"@,
        None => false,
    }
}

/// The prime count of `primes(..)`: its `count` (or first positional)
/// argument read as a number, one when there is none.
pub open spec fn primes_count(inner: Seq<char>) -> nat {
    match arg_value(inner, pieces_first(named(inner, "count"@), positional(inner, 0))) {
        Some(v) => match pieces::parse_usize(text::trim(v)) {
            Some(n) => n,
            None => 1,
        },
        None => 1,
    }
}

pub open spec fn pieces_first(a: Option<int>, b: Option<int>) -> Option<int> {
    scan::first_of(a, b)
}

/// The amount of `h(..)`: its `amount` (or first positional) argument.
pub open spec fn hspace_amount(inner: Seq<char>) -> Seq<char> {
    match arg_value(inner, pieces_first(named(inner, "amount"@), positional(inner, 0))) {
        Some(v) => v,
        None => Seq::empty(),
    }
}

/// The accents Typst math writes as calls of the same name.
pub open spec fn is_accent(name: Seq<char>) -> bool {
    name == "vec"@ || name == "hat"@ || name == "tilde"@ || name == "dot"@ || name == "overline"@
        || name == "underline"@
}

// ---------------------------------------------------------------------------
// The conversion
// ---------------------------------------------------------------------------

/// KaTeX for one Typst math expression. Empty, `..` and `none` are nothing;
/// `[..]` is literal content; `".."` is text; `name(..)` is a call; anything
/// else is literal.
pub open spec fn conv_expr(s: Seq<char>) -> Seq<char>
    decreases s.len(), 0int, 0int,
{
    let t = text::trim(s);
    if t.len() == 0 || t == ".."@ || t == "none"@ {
        Seq::empty()
    } else {
        match scan::bracket_literal(t) {
            Some(l) => tex::literal_tex(l),
            None => match scan::quoted_literal(t) {
                Some(q) => tex::text_literal_tex(q),
                None => match scan::call_parts(t) {
                    Some((name, inner)) => {
                        proof {
                            text::lemma_trim_len(s);
                            scan::lemma_call_parts_shorter(t);
                        }
                        conv_call(name, inner)
                    },
                    None => tex::literal_tex(t),
                },
            },
        }
    }
}

/// The converted value of the chosen argument, nothing when there is none.
pub open spec fn conv_arg(inner: Seq<char>, idx: Option<int>) -> Seq<char>
    decreases inner.len(), 1int, 0int,
{
    match arg_value(inner, idx) {
        Some(v) => {
            proof {
                lemma_arg_value_bounded(inner, idx);
            }
            conv_expr(v)
        },
        None => Seq::empty(),
    }
}

/// The converted value of the chosen argument, if it is there.
pub open spec fn conv_opt(inner: Seq<char>, idx: Option<int>) -> Option<Seq<char>>
    decreases inner.len(), 2int, 0int,
{
    match arg_value(inner, idx) {
        Some(v) => Some(conv_arg(inner, idx)),
        None => None,
    }
}

/// The positional arguments among the first `k`, converted and run together.
pub open spec fn conv_seq(inner: Seq<char>, k: nat) -> Seq<char>
    decreases inner.len(), 1int, k,
{
    if k == 0 {
        Seq::empty()
    } else {
        let args = scan::parse_args(inner);
        let piece = if k - 1 < args.len() && args[k - 1].name is None {
            proof {
                scan::lemma_parse_args_bounded(inner);
            }
            conv_expr(args[k - 1].value)
        } else {
            Seq::empty()
        };
        conv_seq(inner, (k - 1) as nat) + piece
    }
}

/// The first `c` cells of matrix row `r`, converted.
pub open spec fn conv_cells(inner: Seq<char>, r: int, c: nat) -> Seq<Seq<char>>
    decreases inner.len(), 1int, c,
{
    if c == 0 {
        Seq::empty()
    } else {
        let rows = matrix_rows(inner);
        let cell = if 0 <= r < rows.len() && c - 1 < rows[r].len() {
            proof {
                lemma_matrix_rows_bounded(inner);
                text::lemma_trim_len(rows[r][c - 1]);
            }
            conv_expr(text::trim(rows[r][c - 1]))
        } else {
            Seq::empty()
        };
        conv_cells(inner, r, (c - 1) as nat).push(cell)
    }
}

/// The first `r` matrix rows, each its converted cells joined by ` & `.
pub open spec fn conv_rows(inner: Seq<char>, r: nat) -> Seq<Seq<char>>
    decreases inner.len(), 2int, r,
{
    if r == 0 {
        Seq::empty()
    } else {
        let rows = matrix_rows(inner);
        let n = if r - 1 < rows.len() {
            rows[r - 1].len()
        } else {
            0
        };
        conv_rows(inner, (r - 1) as nat).push(text::join(conv_cells(inner, r - 1, n), " & "@))
    }
}

/// The first `k` rows of `cases`, converted, blank ones left out.
pub open spec fn conv_cases(inner: Seq<char>, k: nat) -> Seq<Seq<char>>
    decreases inner.len(), 1int, k,
{
    if k == 0 {
        Seq::empty()
    } else {
        let items = case_items(inner);
        let before = conv_cases(inner, (k - 1) as nat);
        if k - 1 < items.len() {
            proof {
                lemma_case_items_bounded(inner);
            }
            let row = pieces::case_row_post(conv_expr(items[k - 1]));
            if text::is_blank(row) {
                before
            } else {
                before.push(row)
            }
        } else {
            before
        }
    }
}

/// KaTeX for a call `name(inner)` in Typst's math repr.
pub open spec fn conv_call(name: Seq<char>, inner: Seq<char>) -> Seq<char>
    decreases inner.len(), 3int, 0int,
{
    let args = scan::parse_args(inner);
    if name == "sequence"@ {
        conv_seq(inner, args.len())
    } else if name == "equation"@ || name == "lr"@ {
        conv_arg(inner, named(inner, "body"@))
    } else if name == "styled"@ {
        match named(inner, "child"@) {
            Some(k) => pieces::styled_post(conv_arg(inner, Some(k))),
            None => Seq::empty(),
        }
    } else if name == "attach"@ {
        pieces::attach_tex(
            conv_arg(inner, named(inner, "base"@)),
            conv_opt(inner, named(inner, "b"@)),
            conv_opt(inner, named(inner, "t"@)),
            conv_opt(inner, named(inner, "tr"@)),
        )
    } else if name == "op"@ {
        pieces::op_tex(
            conv_arg(inner, pieces_first(named(inner, "text"@), positional(inner, 0))),
            limits_flag(inner),
        )
    } else if name == "mat"@ {
        let rows = matrix_rows(inner);
        if rows.len() == 0 {
            Seq::empty()
        } else {
            let env = pieces::matrix_env(arg_value(inner, named(inner, "delim"@)));
            "\\begin{"@ + env + "}"@ + text::join(conv_rows(inner, rows.len()), " \\\\ "@)
                + "\\end{"@ + env + "}"@
        }
    } else if name == "cases"@ {
        let items = case_items(inner);
        if items.len() == 0 {
            Seq::empty()
        } else {
            let body = text::join(conv_cases(inner, items.len()), " \\\\ "@);
            if body.len() == 0 {
                Seq::empty()
            } else {
                "\\begin{cases}"@ + body + "\\end{cases}"@
            }
        }
    } else if name == "primes"@ {
        pieces::primes_tex(primes_count(inner))
    } else if name == "frac"@ {
        pieces::frac_tex(
            conv_arg(inner, pieces_first(named(inner, "num"@), positional(inner, 0))),
            conv_arg(
                inner,
                pieces_first(
                    pieces_first(named(inner, "denom"@), named(inner, "den"@)),
                    positional(inner, 1),
                ),
            ),
        )
    } else if name == "sqrt"@ {
        "\\sqrt{"@ + text::trim(
            conv_arg(inner, pieces_first(named(inner, "body"@), positional(inner, 0))),
        ) + "}"@
    } else if name == "root"@ {
        pieces::root_tex(
            conv_arg(inner, pieces_first(named(inner, "index"@), positional(inner, 0))),
            conv_arg(
                inner,
                pieces_first(
                    pieces_first(named(inner, "radicand"@), named(inner, "body"@)),
                    positional(inner, 1),
                ),
            ),
        )
    } else if is_accent(name) {
        pieces::accent_tex(
            name,
            conv_arg(
                inner,
                pieces_first(
                    pieces_first(named(inner, "body"@), named(inner, "base"@)),
                    positional(inner, 0),
                ),
            ),
        )
    } else if name == "h"@ {
        pieces::hspace_tex(hspace_amount(inner))
    } else if name == "linebreak"@ {
        "\\\\"@
    } else if name == "align-point"@ {
        "&"@
    } else {
        conv_arg(inner, content_index(args))
    }
}

/// The call names the conversion treats on their own.
pub open spec fn is_known_call(name: Seq<char>) -> bool {
    name == "sequence"@ || name == "equation"@ || name == "styled"@ || name == "lr"@ || name
        == "attach"@ || name == "op"@ || name == "mat"@ || name == "cases"@ || name == "primes"@
        || name == "frac"@ || name == "sqrt"@ || name == "root"@ || is_accent(name) || name
        == "h"@ || name == "linebreak"@ || name == "align-point"@
}

/// A call of any other name is its first `body`, `child` or `text`
/// argument converted, and nothing when it has none.
pub proof fn law_unknown_call_converts_content(name: Seq<char>, inner: Seq<char>)
    requires
        !is_known_call(name),
    ensures
        conv_call(name, inner) == (match content_index(scan::parse_args(inner)) {
            Some(k) => conv_expr(scan::parse_args(inner)[k].value),
            None => Seq::<char>::empty(),
        }),
{
    lemma_content_index(scan::parse_args(inner));
}

/// KaTeX for Typst's repr of a math element: converted, whitespace collapsed
/// to single spaces and trimmed, and a split `arg max`/`arg min` joined into
/// one operator.
pub open spec fn repr_to_katex(input: Seq<char>) -> Seq<char> {
    normalize_operator_phrases(text::collapse_ws(conv_expr(text::trim(input))))
}

pub open spec fn normalize_operator_phrases(s: Seq<char>) -> Seq<char> {
    text::replace(
        text::replace(
            s,
            "\\operatorname{arg} \\operatorname*{max}"@,
            "\\operatorname*{arg\\,max}"@,
        ),
        "\\operatorname{arg} \\operatorname*{min}"@,
        "\\operatorname*{arg\\,min}"@,
    )
}

// ---------------------------------------------------------------------------
// Executable conversion
// ---------------------------------------------------------------------------

fn arg_value_of(args: &Vec<Arg>, idx: Option<usize>, Ghost(inner): Ghost<Seq<char>>) -> (res:
    Option<Vec<char>>)
    requires
        args_view(args@) == scan::parse_args(inner),
    ensures
        match res {
            Some(v) => arg_value(inner, opt_int(idx)) == Some(v@),
            None => arg_value(inner, opt_int(idx)) is None,
        },
{
    match idx {
        Some(k) => if k < args.len() {
            assert(args_view(args@)[k as int] == args[k as int].view());
            Some(args[k].value.clone())
        } else {
            None
        },
        None => None,
    }
}

fn first_index(a: Option<usize>, b: Option<usize>) -> (res: Option<usize>)
    ensures
        opt_int(res) == scan::first_of(opt_int(a), opt_int(b)),
{
    match a {
        Some(_) => a,
        None => b,
    }
}

fn named_of(args: &Vec<Arg>, name: &str, Ghost(inner): Ghost<Seq<char>>) -> (res: Option<usize>)
    requires
        args_view(args@) == scan::parse_args(inner),
    ensures
        opt_int(res) == named(inner, name@),
{
    named_index_of(args, name)
}

fn positional_of(args: &Vec<Arg>, n: usize, Ghost(inner): Ghost<Seq<char>>) -> (res: Option<usize>)
    requires
        args_view(args@) == scan::parse_args(inner),
    ensures
        opt_int(res) == positional(inner, n as int),
{
    positional_index_of(args, n)
}

/// KaTeX for one Typst math expression (see `conv_expr`).
pub fn convert_expr(s: &Vec<char>) -> (res: Vec<char>)
    ensures
        res@ == conv_expr(s@),
    decreases s@.len(), 0int, 0int,
{
    let t = trim_of(s);
    if t.len() == 0 || eq_str(&t, "..") || eq_str(&t, "none") {
        return Vec::new();
    }
    if let Some(l) = bracket_literal_of(&t) {
        return literal_to_tex(&l);
    }
    if let Some(q) = quoted_literal_of(&t) {
        return text_literal_to_tex(&q);
    }
    match call_parts_of(&t) {
        Some((name, inner)) => {
            proof {
                text::lemma_trim_len(s@);
                scan::lemma_call_parts_shorter(t@);
            }
            convert_call(&name, &inner)
        },
        None => literal_to_tex(&t),
    }
}

fn convert_arg(inner: &Vec<char>, args: &Vec<Arg>, idx: Option<usize>) -> (res: Vec<char>)
    requires
        args_view(args@) == scan::parse_args(inner@),
    ensures
        res@ == conv_arg(inner@, opt_int(idx)),
    decreases inner@.len(), 1int, 0int,
{
    match arg_value_of(args, idx, Ghost(inner@)) {
        Some(v) => {
            proof {
                lemma_arg_value_bounded(inner@, opt_int(idx));
            }
            convert_expr(&v)
        },
        None => Vec::new(),
    }
}

fn convert_opt(inner: &Vec<char>, args: &Vec<Arg>, idx: Option<usize>) -> (res: Option<Vec<char>>)
    requires
        args_view(args@) == scan::parse_args(inner@),
    ensures
        pieces::opt_view(res) == conv_opt(inner@, opt_int(idx)),
    decreases inner@.len(), 2int, 0int,
{
    match arg_value_of(args, idx, Ghost(inner@)) {
        Some(_) => Some(convert_arg(inner, args, idx)),
        None => None,
    }
}

fn convert_sequence(inner: &Vec<char>, args: &Vec<Arg>) -> (res: Vec<char>)
    requires
        args_view(args@) == scan::parse_args(inner@),
    ensures
        res@ == conv_seq(inner@, args@.len()),
    decreases inner@.len(), 1int, 0int,
{
    let mut out: Vec<char> = Vec::new();
    let mut i: usize = 0;
    while i < args.len()
        invariant
            args_view(args@) == scan::parse_args(inner@),
            i <= args.len(),
            out@ == conv_seq(inner@, i as nat),
        decreases args.len() - i,
    {
        assert(args_view(args@)[i as int] == args[i as int].view());
        if args[i].name.is_none() {
            proof {
                scan::lemma_parse_args_bounded(inner@);
                assert(scan::parse_args(inner@)[i as int].value.len() <= inner@.len());
            }
            let piece = convert_expr(&args[i].value);
            push_all(&mut out, &piece);
        } else {
            assert(out@ + Seq::<char>::empty() == out@);
        }
        i += 1;
    }
    out
}

fn matrix_rows_of(args: &Vec<Arg>, Ghost(inner): Ghost<Seq<char>>) -> (res: Vec<Vec<Vec<char>>>)
    requires
        args_view(args@) == scan::parse_args(inner),
    ensures
        res@.len() == matrix_rows(inner).len(),
        forall|r: int|
            0 <= r < res@.len() ==> text::vecs_view(#[trigger] res@[r]@) == matrix_rows(inner)[r],
{
    let mut rows: Vec<Vec<Vec<char>>> = Vec::new();
    let idx = named_of(args, "rows", Ghost(inner));
    match arg_value_of(args, idx, Ghost(inner)) {
        Some(v) => {
            let items = tuple_items_of(&v);
            let ghost iv = text::vecs_view(items@);
            let mut i: usize = 0;
            while i < items.len()
                invariant
                    iv == text::vecs_view(items@),
                    iv == scan::tuple_items(v@),
                    i <= items.len(),
                    rows@.len() == nonempty_rows(iv.take(i as int)).len(),
                    forall|r: int|
                        0 <= r < rows@.len() ==> text::vecs_view(#[trigger] rows@[r]@)
                            == nonempty_rows(iv.take(i as int))[r],
                decreases items.len() - i,
            {
                let row = tuple_items_of(&items[i]);
                assert(iv.take(i + 1).drop_last() == iv.take(i as int));
                assert(iv.take(i + 1).last() == items[i as int]@);
                if row.len() > 0 {
                    rows.push(row);
                }
                i += 1;
            }
            assert(iv.take(items.len() as int) == iv);
        },
        None => {},
    }
    rows
}

fn convert_matrix_rows(inner: &Vec<char>, args: &Vec<Arg>) -> (res: Vec<Vec<char>>)
    requires
        args_view(args@) == scan::parse_args(inner@),
    ensures
        text::vecs_view(res@) == conv_rows(inner@, matrix_rows(inner@).len()),
    decreases inner@.len(), 1int, 0int,
{
    let rows = matrix_rows_of(args, Ghost(inner@));
    let ghost mr = matrix_rows(inner@);
    let mut out: Vec<Vec<char>> = Vec::new();
    let mut r: usize = 0;
    while r < rows.len()
        invariant
            args_view(args@) == scan::parse_args(inner@),
            mr == matrix_rows(inner@),
            rows@.len() == mr.len(),
            forall|k: int| 0 <= k < rows@.len() ==> text::vecs_view(#[trigger] rows@[k]@) == mr[k],
            r <= rows.len(),
            text::vecs_view(out@) == conv_rows(inner@, r as nat),
        decreases rows.len() - r,
    {
        let row = &rows[r];
        assert(text::vecs_view(rows@[r as int]@) == mr[r as int]);
        let mut cells: Vec<Vec<char>> = Vec::new();
        let mut c: usize = 0;
        while c < row.len()
            invariant
                args_view(args@) == scan::parse_args(inner@),
                mr == matrix_rows(inner@),
                rows@.len() == mr.len(),
                r < rows.len(),
                *row == rows@[r as int],
                text::vecs_view(row@) == mr[r as int],
                c <= row.len(),
                text::vecs_view(cells@) == conv_cells(inner@, r as int, c as nat),
            decreases row.len() - c,
        {
            proof {
                lemma_matrix_rows_bounded(inner@);
                assert(text::vecs_view(row@)[c as int] == row@[c as int]@);
                text::lemma_trim_len(mr[r as int][c as int]);
            }
            let cell = convert_expr(&trim_of(&row[c]));
            let ghost before = text::vecs_view(cells@);
            cells.push(cell);
            assert(text::vecs_view(cells@) =~= before.push(cell@));
            c += 1;
        }
        let joined = join_vecs(&cells, &chars_of(" & "));
        let ghost before = text::vecs_view(out@);
        out.push(joined);
        assert(text::vecs_view(out@) =~= before.push(joined@));
        r += 1;
    }
    out
}

fn convert_case_rows(inner: &Vec<char>, args: &Vec<Arg>) -> (res: Vec<Vec<char>>)
    requires
        args_view(args@) == scan::parse_args(inner@),
    ensures
        text::vecs_view(res@) == conv_cases(inner@, case_items(inner@).len()),
    decreases inner@.len(), 1int, 0int,
{
    let mut out: Vec<Vec<char>> = Vec::new();
    let idx = named_of(args, "children", Ghost(inner@));
    match arg_value_of(args, idx, Ghost(inner@)) {
        Some(v) => {
            let items = tuple_items_of(&v);
            let ghost iv = text::vecs_view(items@);
            assert(iv == case_items(inner@));
            let mut k: usize = 0;
            while k < items.len()
                invariant
                    args_view(args@) == scan::parse_args(inner@),
                    iv == text::vecs_view(items@),
                    iv == case_items(inner@),
                    k <= items.len(),
                    text::vecs_view(out@) == conv_cases(inner@, k as nat),
                decreases items.len() - k,
            {
                proof {
                    lemma_case_items_bounded(inner@);
                    assert(iv[k as int] == items@[k as int]@);
                }
                let row = case_row_post_of(&convert_expr(&items[k]));
                if !text::is_blank_of(&row) {
                    let ghost before = text::vecs_view(out@);
                    out.push(row);
                    assert(text::vecs_view(out@) =~= before.push(row@));
                }
                k += 1;
            }
        },
        None => {},
    }
    out
}

/// KaTeX for a call `name(inner)` (see `conv_call`).
pub fn convert_call(name: &Vec<char>, inner: &Vec<char>) -> (res: Vec<char>)
    ensures
        res@ == conv_call(name@, inner@),
    decreases inner@.len(), 3int, 0int,
{
    let args = parse_args_of(inner);
    let ghost g = inner@;
    if eq_str(name, "sequence") {
        convert_sequence(inner, &args)
    } else if eq_str(name, "equation") || eq_str(name, "lr") {
        convert_arg(inner, &args, named_of(&args, "body", Ghost(g)))
    } else if eq_str(name, "styled") {
        match named_of(&args, "child", Ghost(g)) {
            Some(k) => styled_post_of(convert_arg(inner, &args, Some(k))),
            None => Vec::new(),
        }
    } else if eq_str(name, "attach") {
        let base = convert_arg(inner, &args, named_of(&args, "base", Ghost(g)));
        let sub = convert_opt(inner, &args, named_of(&args, "b", Ghost(g)));
        let sup = convert_opt(inner, &args, named_of(&args, "t", Ghost(g)));
        let tr = convert_opt(inner, &args, named_of(&args, "tr", Ghost(g)));
        attach_to_tex(base, sub, sup, tr)
    } else if eq_str(name, "op") {
        let text = convert_arg(
            inner,
            &args,
            first_index(named_of(&args, "text", Ghost(g)), positional_of(&args, 0, Ghost(g))),
        );
        let limits = match arg_value_of(&args, named_of(&args, "limits", Ghost(g)), Ghost(g)) {
            Some(v) => eq_str(&trim_of(&v), "true"),
            None => false,
        };
        op_to_tex(text, limits)
    } else if eq_str(name, "mat") {
        let rows = matrix_rows_of(&args, Ghost(g));
        if rows.len() == 0 {
            Vec::new()
        } else {
            let delim = arg_value_of(&args, named_of(&args, "delim", Ghost(g)), Ghost(g));
            let env = match &delim {
                Some(d) => matrix_env_of(Some(d)),
                None => matrix_env_of(None),
            };
            let body_rows = convert_matrix_rows(inner, &args);
            let body = join_vecs(&body_rows, &chars_of(" \\\\ "));
            let mut out = chars_of("\\begin{");
            push_all(&mut out, &env);
            push_str(&mut out, "}");
            push_all(&mut out, &body);
            push_str(&mut out, "\\end{");
            push_all(&mut out, &env);
            push_str(&mut out, "}");
            out
        }
    } else if eq_str(name, "cases") {
        let rows = convert_case_rows(inner, &args);
        let idx = named_of(&args, "children", Ghost(g));
        let has_items = match arg_value_of(&args, idx, Ghost(g)) {
            Some(v) => tuple_items_of(&v).len() > 0,
            None => false,
        };
        if !has_items {
            Vec::new()
        } else {
            let body = join_vecs(&rows, &chars_of(" \\\\ "));
            if body.len() == 0 {
                Vec::new()
            } else {
                let mut out = chars_of("\\begin{cases}");
                push_all(&mut out, &body);
                push_str(&mut out, "\\end{cases}");
                out
            }
        }
    } else if eq_str(name, "primes") {
        let idx = first_index(named_of(&args, "count", Ghost(g)), positional_of(&args, 0, Ghost(g)));
        let count = match arg_value_of(&args, idx, Ghost(g)) {
            Some(v) => match parse_usize_of(&trim_of(&v)) {
                Some(n) => n,
                None => 1,
            },
            None => 1,
        };
        primes_to_tex(count)
    } else if eq_str(name, "frac") {
        let num = convert_arg(
            inner,
            &args,
            first_index(named_of(&args, "num", Ghost(g)), positional_of(&args, 0, Ghost(g))),
        );
        let denom = convert_arg(
            inner,
            &args,
            first_index(
                first_index(named_of(&args, "denom", Ghost(g)), named_of(&args, "den", Ghost(g))),
                positional_of(&args, 1, Ghost(g)),
            ),
        );
        frac_to_tex(&num, &denom)
    } else if eq_str(name, "sqrt") {
        let body = convert_arg(
            inner,
            &args,
            first_index(named_of(&args, "body", Ghost(g)), positional_of(&args, 0, Ghost(g))),
        );
        let mut out = chars_of("\\sqrt{");
        push_all(&mut out, &trim_of(&body));
        push_str(&mut out, "}");
        out
    } else if eq_str(name, "root") {
        let index = convert_arg(
            inner,
            &args,
            first_index(named_of(&args, "index", Ghost(g)), positional_of(&args, 0, Ghost(g))),
        );
        let body = convert_arg(
            inner,
            &args,
            first_index(
                first_index(
                    named_of(&args, "radicand", Ghost(g)),
                    named_of(&args, "body", Ghost(g)),
                ),
                positional_of(&args, 1, Ghost(g)),
            ),
        );
        root_to_tex(&index, &body)
    } else if eq_str(name, "vec") || eq_str(name, "hat") || eq_str(name, "tilde") || eq_str(
        name,
        "dot",
    ) || eq_str(name, "overline") || eq_str(name, "underline") {
        let body = convert_arg(
            inner,
            &args,
            first_index(
                first_index(named_of(&args, "body", Ghost(g)), named_of(&args, "base", Ghost(g))),
                positional_of(&args, 0, Ghost(g)),
            ),
        );
        let mut out = chars_of("\\");
        push_all(&mut out, name);
        push_str(&mut out, "{");
        push_all(&mut out, &trim_of(&body));
        push_str(&mut out, "}");
        out
    } else if eq_str(name, "h") {
        let idx = first_index(named_of(&args, "amount", Ghost(g)), positional_of(&args, 0, Ghost(g)));
        let amount = match arg_value_of(&args, idx, Ghost(g)) {
            Some(v) => v,
            None => Vec::new(),
        };
        hspace_to_tex(&amount)
    } else if eq_str(name, "linebreak") {
        chars_of("\\\\")
    } else if eq_str(name, "align-point") {
        chars_of("&")
    } else {
        let idx = content_index_of(&args);
        convert_arg(inner, &args, idx)
    }
}

fn content_index_of(args: &Vec<Arg>) -> (res: Option<usize>)
    ensures
        opt_int(res) == content_index(args_view(args@)),
{
    let ghost all = args_view(args@);
    let body = chars_of("body");
    let child = chars_of("child");
    let txt = chars_of("text");
    let mut i: usize = 0;
    assert(all.skip(0) == all);
    while i < args.len()
        invariant
            all == args_view(args@),
            body@ == "body"@,
            child@ == "child"@,
            txt@ == "text"@,
            i <= args.len(),
            content_index(all.skip(i as int)) matches Some(k) ==> content_index(all) == Some(
                k + i,
            ),
            content_index(all.skip(i as int)) is None ==> content_index(all) is None,
        decreases args.len() - i,
    {
        let ghost rest = all.skip(i as int);
        assert(rest[0] == args[i as int].view());
        assert(rest.drop_first() == all.skip(i + 1));
        let hit = match &args[i].name {
            Some(n) => text::seq_eq(n, &body) || text::seq_eq(n, &child) || text::seq_eq(n, &txt),
            None => false,
        };
        if hit {
            return Some(i);
        }
        i += 1;
    }
    None
}

} // verus!
