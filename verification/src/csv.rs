//! Turning comma-separated text into an aligned table. The input is split
//! into lines (the first is the header) and each line into cells at the
//! commas; every row must have as many cells as the header. The output
//! draws each row between separator lines, every column padded to the
//! width of its widest cell.

use vstd::prelude::*;
use vstd::string::{StrSliceExecFns, StringExecFns};

use crate::operations::OpError;
use crate::strutil::{spec_split_first, lemma_split_first_shrinks, split_first_at};

verus! {

/// A line with a trailing carriage return dropped.
pub open spec fn spec_strip_cr(s: Seq<char>) -> Seq<char> {
    if s.len() > 0 && s.last() == '\r' {
        s.drop_last()
    } else {
        s
    }
}

/// The lines of the text: split at newlines, each line without its
/// trailing carriage return, and no final empty line after a trailing
/// newline.
pub open spec fn spec_lines(s: Seq<char>) -> Seq<Seq<char>>
    decreases s.len(),
    via spec_lines_decreases
{
    if s.len() == 0 {
        Seq::empty()
    } else {
        match spec_split_first(s, '\n') {
            None => seq![spec_strip_cr(s)],
            Some((a, b)) => seq![spec_strip_cr(a)] + spec_lines(b),
        }
    }
}

#[via_fn]
proof fn spec_lines_decreases(s: Seq<char>) {
    if s.len() != 0 && spec_split_first(s, '\n') is Some {
        lemma_split_first_shrinks(s, '\n');
    }
}

/// The cells of one line: split at every comma, empty cells kept.
pub open spec fn spec_cells(s: Seq<char>) -> Seq<Seq<char>>
    decreases s.len(),
    via spec_cells_decreases
{
    match spec_split_first(s, ',') {
        None => seq![s],
        Some((a, b)) => seq![a] + spec_cells(b),
    }
}

#[via_fn]
proof fn spec_cells_decreases(s: Seq<char>) {
    if spec_split_first(s, ',') is Some {
        lemma_split_first_shrinks(s, ',');
    }
}

/// The character `c` repeated `n` times.
pub open spec fn repeat_char(c: char, n: nat) -> Seq<char> {
    Seq::new(n, |i: int| c)
}

/// Widths as mathematical numbers.
pub open spec fn nat_widths(ws: Seq<usize>) -> Seq<nat> {
    ws.map_values(|w: usize| w as nat)
}

/// The width of column `col`: the length of its longest cell over the
/// given rows.
pub open spec fn spec_col_width(rows: Seq<Seq<Seq<char>>>, col: int) -> nat
    decreases rows.len(),
{
    if rows.len() == 0 {
        0
    } else {
        let rest = spec_col_width(rows.drop_last(), col);
        let this: nat = if 0 <= col < rows.last().len() {
            rows.last()[col].len()
        } else {
            0
        };
        if this > rest {
            this
        } else {
            rest
        }
    }
}

/// A separator line: `+`, then for every column its width in dashes, one
/// more dash, and `+`.
pub open spec fn spec_sep_line(widths: Seq<nat>) -> Seq<char>
    decreases widths.len(),
{
    if widths.len() == 0 {
        seq!['+']
    } else {
        spec_sep_line(widths.drop_last()) + repeat_char('-', widths.last()) + seq!['-', '+']
    }
}

/// A table row: `|`, then every cell padded with spaces to its column's
/// width, a space, and `|`.
pub open spec fn spec_table_row(cells: Seq<Seq<char>>, widths: Seq<nat>) -> Seq<char>
    decreases cells.len(),
{
    if cells.len() == 0 {
        seq!['|']
    } else {
        spec_table_row(cells.drop_last(), widths.drop_last()) + cells.last() + repeat_char(
            ' ',
            (widths.last() - cells.last().len()) as nat,
        ) + seq![' ', '|']
    }
}

/// All data rows, each rendered and followed by a newline.
pub open spec fn spec_rows_block(rows: Seq<Seq<Seq<char>>>, widths: Seq<nat>) -> Seq<char>
    decreases rows.len(),
{
    if rows.len() == 0 {
        Seq::empty()
    } else {
        spec_rows_block(rows.drop_last(), widths) + spec_table_row(rows.last(), widths)
            + seq!['\n']
    }
}

/// The widths of the whole table: column by column, over the data rows
/// and the header.
pub open spec fn spec_table_widths(header: Seq<Seq<char>>, rows: Seq<Seq<Seq<char>>>) -> Seq<nat> {
    Seq::new(header.len(), |col: int| spec_col_width(rows.push(header), col))
}

/// The rendered table: separator, header row, separator, the data rows,
/// separator.
pub open spec fn spec_csv_table(header: Seq<Seq<char>>, rows: Seq<Seq<Seq<char>>>) -> Seq<char> {
    let widths = spec_table_widths(header, rows);
    let line = spec_sep_line(widths);
    line + seq!['\n'] + spec_table_row(header, widths) + seq!['\n'] + line + seq!['\n']
        + spec_rows_block(rows, widths) + line
}

/// The line with a trailing carriage return dropped.
fn strip_cr(s: &str) -> (r: &str)
    ensures
        r@ == spec_strip_cr(s@),
{
    let n = s.unicode_len();
    if n > 0 && s.get_char(n - 1) == '\r' {
        let r = s.substring_char(0, n - 1);
        proof {
            assert(r@ =~= spec_strip_cr(s@));
        }
        r
    } else {
        s
    }
}

/// Splits the text into its lines.
fn split_lines(s: &str) -> (r: Vec<String>)
    ensures
        r.deep_view() == spec_lines(s@),
{
    let mut out: Vec<String> = Vec::new();
    let mut remaining: String = s.to_owned();
    loop
        invariant
            spec_lines(s@) == out.deep_view() + spec_lines(remaining@),
        decreases remaining@.len() + 1,
    {
        if remaining.as_str().unicode_len() == 0 {
            proof {
                assert(out.deep_view() + spec_lines(remaining@) =~= out.deep_view());
            }
            return out;
        }
        match split_first_at(remaining.as_str(), '\n') {
            Some(p) => {
                proof {
                    lemma_split_first_shrinks(remaining@, '\n');
                }
                let piece = strip_cr(p.0.as_str()).to_owned();
                let ghost prev = out.deep_view();
                out.push(piece);
                remaining = p.1;
                proof {
                    assert(out.deep_view() =~= prev.push(spec_strip_cr(p.0@)));
                    assert(prev + (seq![spec_strip_cr(p.0@)] + spec_lines(remaining@))
                        =~= out.deep_view() + spec_lines(remaining@));
                }
            },
            None => {
                let piece = strip_cr(remaining.as_str()).to_owned();
                let ghost prev = out.deep_view();
                out.push(piece);
                proof {
                    assert(out.deep_view() =~= prev.push(spec_strip_cr(remaining@)));
                    assert(prev + seq![spec_strip_cr(remaining@)] =~= out.deep_view());
                }
                return out;
            },
        }
    }
}

/// Splits one line into its cells.
fn split_cells(s: &str) -> (r: Vec<String>)
    ensures
        r.deep_view() == spec_cells(s@),
        r@.len() > 0,
{
    let mut out: Vec<String> = Vec::new();
    let mut remaining: String = s.to_owned();
    loop
        invariant
            spec_cells(s@) == out.deep_view() + spec_cells(remaining@),
        decreases remaining@.len() + 1,
    {
        match split_first_at(remaining.as_str(), ',') {
            Some(p) => {
                proof {
                    lemma_split_first_shrinks(remaining@, ',');
                }
                let ghost prev = out.deep_view();
                let ghost av = p.0@;
                out.push(p.0);
                remaining = p.1;
                proof {
                    assert(out.deep_view() =~= prev.push(av));
                    assert(prev + (seq![av] + spec_cells(remaining@)) =~= out.deep_view()
                        + spec_cells(remaining@));
                }
            },
            None => {
                let ghost prev = out.deep_view();
                let ghost rv = remaining@;
                out.push(remaining);
                proof {
                    assert(out.deep_view() =~= prev.push(rv));
                    assert(prev + seq![rv] =~= out.deep_view());
                }
                return out;
            },
        }
    }
}

proof fn lemma_col_width_push(rows: Seq<Seq<Seq<char>>>, x: Seq<Seq<char>>, col: int)
    ensures
        spec_col_width(rows.push(x), col) == ({
            let rest = spec_col_width(rows, col);
            let this: nat = if 0 <= col < x.len() {
                x[col].len()
            } else {
                0
            };
            if this > rest {
                this
            } else {
                rest
            }
        }),
{
    assert(rows.push(x).drop_last() =~= rows);
}

/// The width of every column: the length of its longest cell over the
/// data rows and the header.
fn compute_widths(header: &Vec<String>, rows: &Vec<Vec<String>>) -> (r: Vec<usize>)
    ensures
        nat_widths(r@) == spec_table_widths(header.deep_view(), rows.deep_view()),
        r@.len() == header@.len(),
{
    let ncols = header.len();
    let mut widths: Vec<usize> = Vec::new();
    let mut col: usize = 0;
    while col < ncols
        invariant
            ncols == header@.len(),
            widths@.len() == col,
            0 <= col <= ncols,
            forall|c: int|
                0 <= c < col ==> widths@[c] as nat == spec_col_width(
                    rows.deep_view().push(header.deep_view()),
                    c,
                ),
        decreases ncols - col,
    {
        let mut w: usize = 0;
        let mut j: usize = 0;
        while j < rows.len()
            invariant
                ncols == header@.len(),
                0 <= col < ncols,
                0 <= j <= rows@.len(),
                w as nat == spec_col_width(rows.deep_view().subrange(0, j as int), col as int),
            decreases rows@.len() - j,
        {
            let row = &rows[j];
            let cw = if col < row.len() {
                row[col].as_str().unicode_len()
            } else {
                0
            };
            if cw > w {
                w = cw;
            }
            proof {
                assert(rows.deep_view().subrange(0, j + 1) =~= rows.deep_view().subrange(
                    0,
                    j as int,
                ).push(rows.deep_view()[j as int]));
                lemma_col_width_push(
                    rows.deep_view().subrange(0, j as int),
                    rows.deep_view()[j as int],
                    col as int,
                );
            }
            j = j + 1;
        }
        let hw = header[col].as_str().unicode_len();
        if hw > w {
            w = hw;
        }
        proof {
            assert(rows.deep_view().subrange(0, rows@.len() as int) =~= rows.deep_view());
            lemma_col_width_push(rows.deep_view(), header.deep_view(), col as int);
        }
        widths.push(w);
        col = col + 1;
    }
    proof {
        assert(nat_widths(widths@) =~= spec_table_widths(header.deep_view(), rows.deep_view()));
    }
    widths
}

/// Appends `n` copies of `c`'s single character to `out`.
fn append_repeat(out: &mut String, piece: &str, n: usize)
    requires
        piece@.len() == 1,
    ensures
        final(out)@ == old(out)@ + repeat_char(piece@[0], n as nat),
{
    let mut i: usize = 0;
    while i < n
        invariant
            piece@.len() == 1,
            0 <= i <= n,
            out@ == old(out)@ + repeat_char(piece@[0], i as nat),
        decreases n - i,
    {
        out.append(piece);
        proof {
            assert(piece@ =~= seq![piece@[0]]);
            assert(old(out)@ + repeat_char(piece@[0], i as nat) + piece@ =~= old(out)@
                + repeat_char(piece@[0], (i + 1) as nat));
        }
        i = i + 1;
    }
}

/// Renders one separator line for the given column widths.
fn render_sep_line(widths: &Vec<usize>) -> (r: String)
    ensures
        r@ == spec_sep_line(nat_widths(widths@)),
{
    proof {
        reveal_strlit("+");
        reveal_strlit("-");
        reveal_strlit("-+");
    }
    let mut out = String::from_str("+");
    let mut col: usize = 0;
    proof {
        assert(nat_widths(widths@.subrange(0, 0)) =~= Seq::<nat>::empty());
        assert(out@ =~= spec_sep_line(nat_widths(widths@.subrange(0, 0))));
    }
    while col < widths.len()
        invariant
            0 <= col <= widths@.len(),
            out@ == spec_sep_line(nat_widths(widths@.subrange(0, col as int))),
            "-"@ == seq!['-'],
            "-+"@ == seq!['-', '+'],
        decreases widths@.len() - col,
    {
        let ghost pre = nat_widths(widths@.subrange(0, col as int));
        append_repeat(&mut out, "-", widths[col]);
        out.append("-+");
        proof {
            let post = nat_widths(widths@.subrange(0, col + 1));
            assert(post.drop_last() =~= pre);
            assert(out@ =~= spec_sep_line(post));
        }
        col = col + 1;
    }
    proof {
        assert(widths@.subrange(0, widths@.len() as int) =~= widths@);
    }
    out
}

/// Renders one table row, each cell padded to its column's width.
fn render_row(cells: &Vec<String>, widths: &Vec<usize>) -> (r: String)
    requires
        cells@.len() == widths@.len(),
        forall|i: int| 0 <= i < cells@.len() ==> cells.deep_view()[i].len() <= widths@[i],
    ensures
        r@ == spec_table_row(cells.deep_view(), nat_widths(widths@)),
{
    proof {
        reveal_strlit("|");
        reveal_strlit(" ");
        reveal_strlit(" |");
    }
    let mut out = String::from_str("|");
    let mut col: usize = 0;
    proof {
        assert(cells.deep_view().subrange(0, 0) =~= Seq::<Seq<char>>::empty());
        assert(out@ =~= spec_table_row(
            cells.deep_view().subrange(0, 0),
            nat_widths(widths@.subrange(0, 0)),
        ));
    }
    while col < cells.len()
        invariant
            cells@.len() == widths@.len(),
            forall|i: int| 0 <= i < cells@.len() ==> cells.deep_view()[i].len() <= widths@[i],
            0 <= col <= cells@.len(),
            out@ == spec_table_row(
                cells.deep_view().subrange(0, col as int),
                nat_widths(widths@.subrange(0, col as int)),
            ),
            " "@ == seq![' '],
            " |"@ == seq![' ', '|'],
        decreases cells@.len() - col,
    {
        let ghost cpre = cells.deep_view().subrange(0, col as int);
        let ghost wpre = nat_widths(widths@.subrange(0, col as int));
        let cell = &cells[col];
        out.append(cell.as_str());
        let pad = widths[col] - cell.as_str().unicode_len();
        append_repeat(&mut out, " ", pad);
        out.append(" |");
        proof {
            let cpost = cells.deep_view().subrange(0, col + 1);
            let wpost = nat_widths(widths@.subrange(0, col + 1));
            assert(cpost.drop_last() =~= cpre);
            assert(wpost.drop_last() =~= wpre);
            assert(cpost.last() == cells.deep_view()[col as int]);
            assert(out@ =~= spec_table_row(cpost, wpost));
        }
        col = col + 1;
    }
    proof {
        assert(cells.deep_view().subrange(0, cells@.len() as int) =~= cells.deep_view());
        assert(widths@.subrange(0, widths@.len() as int) =~= widths@);
    }
    out
}

/// What a successful rendering returns: the table of the text's header
/// and rows, which all hold equally many cells.
pub open spec fn spec_csv_ok(content: Seq<char>, out: Seq<char>) -> bool {
    let ls = spec_lines(content);
    &&& ls.len() > 0
    &&& forall|i: int|
        1 <= i < ls.len() ==> #[trigger] spec_cells(ls[i]).len() == spec_cells(ls[0]).len()
    &&& out == spec_csv_table(
        spec_cells(ls[0]),
        Seq::new((ls.len() - 1) as nat, |i: int| spec_cells(ls[i + 1])),
    )
}

/// When each rendering error comes: no lines at all, or a first row whose
/// cell count differs from the header's.
pub open spec fn spec_csv_err(content: Seq<char>, e: OpError) -> bool {
    let ls = spec_lines(content);
    match e {
        OpError::MissingHeader => ls.len() == 0,
        OpError::ColumnMismatch { expected, got } => {
            &&& exists|i: int|
                1 <= i < ls.len() && #[trigger] spec_cells(ls[i]).len() == got && (forall|j: int|
                    1 <= j < i ==> #[trigger] spec_cells(ls[j]).len() == expected)
            &&& expected == spec_cells(ls[0]).len()
            &&& got != expected
        },
        _ => false,
    }
}

/// Renders the comma-separated text as an aligned table. Fails when the
/// text has no lines at all, or when some row's cell count differs from
/// the header's (the first such row decides the error).
pub fn csv(content: &str) -> (r: Result<String, OpError>)
    ensures
        match r {
            Ok(out) => spec_csv_ok(content@, out@),
            Err(e) => spec_csv_err(content@, e),
        },
{
    let lines = split_lines(content);
    if lines.len() == 0 {
        return Err(OpError::MissingHeader);
    }
    let header = split_cells(lines[0].as_str());
    let ncols = header.len();
    let mut rows: Vec<Vec<String>> = Vec::new();
    let mut i: usize = 1;
    while i < lines.len()
        invariant
            1 <= i <= lines@.len(),
            lines.deep_view() == spec_lines(content@),
            header.deep_view() == spec_cells(lines.deep_view()[0]),
            ncols == header@.len(),
            rows@.len() == i - 1,
            forall|k: int|
                0 <= k < rows@.len() ==> #[trigger] rows.deep_view()[k] == spec_cells(
                    lines.deep_view()[k + 1],
                ) && rows.deep_view()[k].len() == ncols,
        decreases lines@.len() - i,
    {
        let row = split_cells(lines[i].as_str());
        if row.len() != ncols {
            proof {
                let ls = spec_lines(content@);
                assert(spec_cells(ls[i as int]).len() == row@.len());
                assert forall|j: int| 1 <= j < i implies #[trigger] spec_cells(ls[j]).len()
                    == ncols by {
                    assert(rows.deep_view()[j - 1] == spec_cells(lines.deep_view()[j - 1 + 1]));
                }
            }
            return Err(OpError::ColumnMismatch { expected: ncols, got: row.len() });
        }
        let ghost prev = rows.deep_view();
        let ghost rv = row.deep_view();
        rows.push(row);
        proof {
            assert(rows.deep_view() =~= prev.push(rv));
        }
        i = i + 1;
    }
    let ghost ls = spec_lines(content@);
    let ghost rows_v = Seq::new((ls.len() - 1) as nat, |k: int| spec_cells(ls[k + 1]));
    proof {
        assert(rows.deep_view() =~= rows_v);
    }
    let widths = compute_widths(&header, &rows);
    proof {
        assert forall|c: int| 0 <= c < header.deep_view().len() implies #[trigger] header
            .deep_view()[c].len() <= widths@[c] by {
            let all = rows.deep_view().push(header.deep_view());
            assert(all.last() == header.deep_view());
            lemma_col_width_push(rows.deep_view(), header.deep_view(), c);
            assert(nat_widths(widths@)[c] == widths@[c] as nat);
            assert(spec_table_widths(header.deep_view(), rows.deep_view())[c] == spec_col_width(
                all,
                c,
            ));
        }
    }
    let line = render_sep_line(&widths);
    let head_row = render_row(&header, &widths);
    proof {
        reveal_strlit("\n");
    }
    let mut out = line.clone();
    out.append("\n");
    out.append(head_row.as_str());
    out.append("\n");
    out.append(line.as_str());
    out.append("\n");
    let ghost widths_v = spec_table_widths(header.deep_view(), rows.deep_view());
    let mut j: usize = 0;
    proof {
        assert(rows.deep_view().subrange(0, 0) =~= Seq::<Seq<Seq<char>>>::empty());
        assert(out@ =~= spec_sep_line(widths_v) + seq!['\n'] + spec_table_row(
            header.deep_view(),
            widths_v,
        ) + seq!['\n'] + spec_sep_line(widths_v) + seq!['\n'] + spec_rows_block(
            rows.deep_view().subrange(0, 0),
            widths_v,
        ));
    }
    while j < rows.len()
        invariant
            widths@.len() == header@.len(),
            nat_widths(widths@) == widths_v,
            widths_v == spec_table_widths(header.deep_view(), rows.deep_view()),
            forall|k: int|
                0 <= k < rows@.len() ==> #[trigger] rows.deep_view()[k].len() == header@.len(),
            forall|c: int|
                0 <= c < header.deep_view().len() ==> #[trigger] header.deep_view()[c].len()
                    <= widths@[c],
            0 <= j <= rows@.len(),
            out@ == spec_sep_line(widths_v) + seq!['\n'] + spec_table_row(
                header.deep_view(),
                widths_v,
            ) + seq!['\n'] + spec_sep_line(widths_v) + seq!['\n'] + spec_rows_block(
                rows.deep_view().subrange(0, j as int),
                widths_v,
            ),
            "\n"@ == seq!['\n'],
        decreases rows@.len() - j,
    {
        proof {
            assert forall|c: int| 0 <= c < rows.deep_view()[j as int].len() implies #[trigger] rows
                .deep_view()[j as int][c].len() <= widths@[c] by {
                let all = rows.deep_view().push(header.deep_view());
                assert(all[j as int] == rows.deep_view()[j as int]);
                lemma_col_width_in_bound(all, j as int, c);
                assert(nat_widths(widths@)[c] == widths@[c] as nat);
                assert(spec_table_widths(header.deep_view(), rows.deep_view())[c]
                    == spec_col_width(all, c));
            }
            assert(rows@[j as int].deep_view() == rows.deep_view()[j as int]);
        }
        let row_line = render_row(&rows[j], &widths);
        out.append(row_line.as_str());
        out.append("\n");
        proof {
            let rpre = rows.deep_view().subrange(0, j as int);
            let rpost = rows.deep_view().subrange(0, j + 1);
            assert(rpost.drop_last() =~= rpre);
            assert(rpost.last() == rows.deep_view()[j as int]);
            assert(out@ =~= spec_sep_line(widths_v) + seq!['\n'] + spec_table_row(
                header.deep_view(),
                widths_v,
            ) + seq!['\n'] + spec_sep_line(widths_v) + seq!['\n'] + spec_rows_block(
                rpost,
                widths_v,
            ));
        }
        j = j + 1;
    }
    out.append(line.as_str());
    proof {
        assert(rows.deep_view().subrange(0, rows@.len() as int) =~= rows.deep_view());
        assert(header.deep_view() == spec_cells(ls[0]));
        assert(widths_v == spec_table_widths(spec_cells(ls[0]), rows_v));
        assert(out@ =~= spec_csv_table(spec_cells(ls[0]), rows_v));
        assert forall|i2: int| 1 <= i2 < ls.len() implies #[trigger] spec_cells(ls[i2]).len()
            == spec_cells(ls[0]).len() by {
            assert(rows.deep_view()[i2 - 1] == spec_cells(lines.deep_view()[i2 - 1 + 1]));
        }
    }
    Ok(out)
}

/// Every cell of a row is no wider than its column's width.
proof fn lemma_col_width_in_bound(rows: Seq<Seq<Seq<char>>>, r: int, c: int)
    requires
        0 <= r < rows.len(),
        0 <= c < rows[r].len(),
    ensures
        rows[r][c].len() <= spec_col_width(rows, c),
    decreases rows.len(),
{
    if r == rows.len() - 1 {
        assert(rows.drop_last().len() == rows.len() - 1);
    } else {
        lemma_col_width_in_bound(rows.drop_last(), r, c);
    }
}

} // verus!
