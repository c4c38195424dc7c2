//! The layout of a table whose cells are rendered: column widths, borders and
//! rows padded to the widths.
use vstd::prelude::*;

use crate::spec::{
    border_text, cell_lines, cell_width, column_count, column_width, max_nat, padded_cell,
    row_height, row_line, row_text, ANSI_BOLD_OFF, ANSI_BOLD_ON,
};
use crate::text::{
    join_strings, repeat, repeat_str, split_on, split_on_char, views, visible_line_width,
    visible_width,
};

verus! {

/// The views of the rows of a table of rendered cells.
pub open spec fn rows_views(v: Seq<Vec<String>>) -> Seq<Seq<Seq<char>>> {
    v.map_values(|r: Vec<String>| views(r@))
}

/// Column widths as natural numbers.
pub open spec fn widths_view(w: Seq<usize>) -> Seq<nat> {
    w.map_values(|x: usize| x as nat)
}

proof fn lemma_max_nat_step(s: Seq<nat>, i: int)
    requires
        0 <= i < s.len(),
    ensures
        max_nat(s.take(i + 1)) == (if s[i] > max_nat(s.take(i)) {
            s[i]
        } else {
            max_nat(s.take(i))
        }),
{
    assert(s.take(i + 1).drop_last() =~= s.take(i));
}

proof fn lemma_max_nat_bound(s: Seq<nat>, b: nat)
    requires
        forall|i: int| 0 <= i < s.len() ==> #[trigger] s[i] <= b,
    ensures
        max_nat(s) <= b,
    decreases s.len(),
{
    if s.len() > 0 {
        lemma_max_nat_bound(s.drop_last(), b);
    }
}

/// The width of the widest line of a cell.
fn cell_max_width(cell: &str) -> (w: usize)
    ensures
        w == cell_width(cell@),
{
    let pieces = split_on_char(cell, '\n');
    let ghost ws = split_on(cell@, '\n').map_values(|l: Seq<char>| visible_width(l));
    let mut w: usize = 0;
    let mut i: usize = 0;
    while i < pieces.len()
        invariant
            i <= pieces.len(),
            views(pieces@) == split_on(cell@, '\n'),
            ws == split_on(cell@, '\n').map_values(|l: Seq<char>| visible_width(l)),
            w == max_nat(ws.take(i as int)),
        decreases pieces.len() - i,
    {
        let x = visible_line_width(pieces[i].as_str());
        proof {
            lemma_max_nat_step(ws, i as int);
        }
        if x > w {
            w = x;
        }
        i = i + 1;
    }
    assert(ws.take(pieces.len() as int) =~= ws);
    w
}

/// The number of columns: the length of the longest row.
fn table_column_count(rows: &Vec<Vec<String>>) -> (n: usize)
    ensures
        n == column_count(rows_views(rows@)),
{
    let ghost ls = rows_views(rows@).map_values(|r: Seq<Seq<char>>| r.len());
    let mut n: usize = 0;
    let mut i: usize = 0;
    while i < rows.len()
        invariant
            i <= rows.len(),
            ls == rows_views(rows@).map_values(|r: Seq<Seq<char>>| r.len()),
            n == max_nat(ls.take(i as int)),
        decreases rows.len() - i,
    {
        proof {
            lemma_max_nat_step(ls, i as int);
        }
        if rows[i].len() > n {
            n = rows[i].len();
        }
        i = i + 1;
    }
    assert(ls.take(rows.len() as int) =~= ls);
    n
}

/// The width of column `c`: that of its widest cell, at least 3.
fn table_column_width(rows: &Vec<Vec<String>>, c: usize) -> (w: usize)
    ensures
        w == column_width(rows_views(rows@), c as int),
{
    let ghost rv = rows_views(rows@);
    let ghost ws = Seq::new(
        rv.len(),
        |r: int|
            if (c as int) < rv[r].len() {
                cell_width(rv[r][c as int])
            } else {
                0
            },
    );
    let mut m: usize = 0;
    let mut i: usize = 0;
    while i < rows.len()
        invariant
            i <= rows.len(),
            rv == rows_views(rows@),
            ws == Seq::new(
                rv.len(),
                |r: int|
                    if (c as int) < rv[r].len() {
                        cell_width(rv[r][c as int])
                    } else {
                        0
                    },
            ),
            m == max_nat(ws.take(i as int)),
        decreases rows.len() - i,
    {
        proof {
            lemma_max_nat_step(ws, i as int);
        }
        if c < rows[i].len() {
            let x = cell_max_width(rows[i][c].as_str());
            assert(x == ws[i as int]);
            if x > m {
                m = x;
            }
        } else {
            assert(ws[i as int] == 0);
        }
        i = i + 1;
    }
    assert(ws.take(rows.len() as int) =~= ws);
    if m > 3 {
        m
    } else {
        3
    }
}

/// The width of each column.
pub fn table_column_widths(rows: &Vec<Vec<String>>) -> (widths: Vec<usize>)
    ensures
        widths_view(widths@) == crate::spec::column_widths(rows_views(rows@)),
{
    let count = table_column_count(rows);
    let mut widths: Vec<usize> = Vec::new();
    let mut c: usize = 0;
    while c < count
        invariant
            c <= count,
            count == column_count(rows_views(rows@)),
            widths.len() == c,
            forall|j: int|
                0 <= j < c ==> (#[trigger] widths@[j]) as nat == column_width(
                    rows_views(rows@),
                    j,
                ),
        decreases count - c,
    {
        widths.push(table_column_width(rows, c));
        c = c + 1;
    }
    assert(widths_view(widths@) =~= crate::spec::column_widths(rows_views(rows@)));
    widths
}

/// A rule of `w + 2` horizontal box pieces.
fn horizontal_rule(w: usize) -> (r: String)
    ensures
        r@ == repeat("─"@, w as nat + 2),
{
    let mut r = repeat_str("─", w);
    r.append("─");
    r.append("─");
    assert(repeat("─"@, w as nat + 2) == repeat("─"@, w as nat + 1) + "─"@);
    assert(repeat("─"@, w as nat + 1) == repeat("─"@, w as nat) + "─"@);
    r
}

/// A horizontal border of the table.
pub fn table_border(widths: &Vec<usize>, left: &str, junction: &str, right: &str) -> (r: String)
    ensures
        r@ == border_text(widths_view(widths@), left@, junction@, right@),
{
    let mut rules: Vec<String> = Vec::new();
    let mut i: usize = 0;
    while i < widths.len()
        invariant
            i <= widths.len(),
            rules.len() == i,
            forall|j: int|
                0 <= j < i ==> (#[trigger] rules@[j])@ == repeat("─"@, widths@[j] as nat + 2),
        decreases widths.len() - i,
    {
        rules.push(horizontal_rule(widths[i]));
        i = i + 1;
    }
    let inner = join_strings(&rules, junction);
    assert(views(rules@) =~= widths_view(widths@).map_values(|w: nat| repeat("─"@, w + 2)));
    let mut r = String::from_str(left);
    r.append(inner.as_str());
    r.append(right);
    r
}

/// One line of one cell, padded to `width`.
fn table_cell_line(line: &str, width: usize, header: bool) -> (r: String)
    ensures
        r@ == padded_cell(line@, width as nat, header),
{
    let vw = visible_line_width(line);
    let pad: usize = if vw < width {
        width - vw
    } else {
        0
    };
    let spaces = repeat_str(" ", pad);
    let mut r = String::new();
    if header {
        r.append(ANSI_BOLD_ON);
    }
    r.append(" ");
    r.append(line);
    r.append(spaces.as_str());
    r.append(" ");
    if header {
        r.append(ANSI_BOLD_OFF);
    }
    r
}

/// All lines of one row of rendered cells, each cell padded to its column.
pub fn table_row(row: &Vec<String>, widths: &Vec<usize>, header: bool) -> (r: String)
    ensures
        r@ == row_text(views(row@), widths_view(widths@), header),
{
    let ghost rv = views(row@);
    let ghost wv = widths_view(widths@);
    let count = widths.len();
    let mut cells: Vec<Vec<String>> = Vec::new();
    let mut c: usize = 0;
    while c < count
        invariant
            c <= count,
            count == widths.len(),
            rv == views(row@),
            cells.len() == c,
            forall|j: int| 0 <= j < c ==> views((#[trigger] cells@[j])@) == cell_lines(rv, j),
        decreases count - c,
    {
        let pieces = if c < row.len() {
            split_on_char(row[c].as_str(), '\n')
        } else {
            split_on_char("", '\n')
        };
        proof {
            if c < row.len() {
            } else {
                reveal_strlit("");
                assert(""@ =~= Seq::<char>::empty());
            }
        }
        cells.push(pieces);
        c = c + 1;
    }
    // the height: the most lines of any cell, 1 without columns
    let ghost hs = Seq::new(count as nat, |j: int| cell_lines(rv, j).len());
    let mut height: usize = 0;
    let mut j: usize = 0;
    while j < count
        invariant
            j <= count,
            count == widths.len(),
            cells.len() == count,
            forall|k: int| 0 <= k < count ==> views((#[trigger] cells@[k])@) == cell_lines(rv, k),
            hs == Seq::new(count as nat, |k: int| cell_lines(rv, k).len()),
            height == max_nat(hs.take(j as int)),
        decreases count - j,
    {
        proof {
            lemma_max_nat_step(hs, j as int);
        }
        assert(cells@[j as int]@.len() == hs[j as int]);
        if cells[j].len() > height {
            height = cells[j].len();
        }
        j = j + 1;
    }
    assert(hs.take(count as int) =~= hs);
    if count == 0 {
        height = 1;
    }
    assert(height == row_height(rv, wv.len()));
    let mut lines: Vec<String> = Vec::new();
    let mut k: usize = 0;
    while k < height
        invariant
            k <= height,
            height == row_height(rv, wv.len()),
            count == widths.len(),
            wv == widths_view(widths@),
            cells.len() == count,
            forall|q: int| 0 <= q < count ==> views((#[trigger] cells@[q])@) == cell_lines(rv, q),
            lines.len() == k,
            forall|q: int| 0 <= q < k ==> (#[trigger] lines@[q])@ == row_line(rv, wv, q, header),
        decreases height - k,
    {
        let mut parts: Vec<String> = Vec::new();
        let mut c2: usize = 0;
        while c2 < count
            invariant
                c2 <= count,
                count == widths.len(),
                wv == widths_view(widths@),
                cells.len() == count,
                forall|q: int|
                    0 <= q < count ==> views((#[trigger] cells@[q])@) == cell_lines(rv, q),
                parts.len() == c2,
                forall|q: int|
                    0 <= q < c2 ==> (#[trigger] parts@[q])@ == ({
                        let ls = cell_lines(rv, q);
                        padded_cell(
                            if (k as int) < ls.len() {
                                ls[k as int]
                            } else {
                                Seq::empty()
                            },
                            wv[q],
                            header,
                        )
                    }),
            decreases count - c2,
        {
            let cell_piece = if k < cells[c2].len() {
                table_cell_line(cells[c2][k].as_str(), widths[c2], header)
            } else {
                proof {
                    reveal_strlit("");
                assert(""@ =~= Seq::<char>::empty());
                }
                table_cell_line("", widths[c2], header)
            };
            parts.push(cell_piece);
            c2 = c2 + 1;
        }
        let inner = join_strings(&parts, "│");
        assert(views(parts@) =~= Seq::new(
            wv.len(),
            |q: int|
                {
                    let ls = cell_lines(rv, q);
                    padded_cell(
                        if (k as int) < ls.len() {
                            ls[k as int]
                        } else {
                            Seq::empty()
                        },
                        wv[q],
                        header,
                    )
                },
        ));
        let mut line = String::from_str("│");
        line.append(inner.as_str());
        line.append("│");
        lines.push(line);
        k = k + 1;
    }
    let r = join_strings(&lines, "\n");
    proof {
        reveal_strlit("\n");
        assert("\n"@ =~= seq!['\n']);
        assert(views(lines@) =~= Seq::new(
            row_height(rv, wv.len()),
            |q: int| row_line(rv, wv, q, header),
        ));
    }
    r
}

} // verus!
