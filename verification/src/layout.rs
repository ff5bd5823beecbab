//! Wrapping of decoded cells into visual rows.
//!
//! A row is filled greedily: it takes cells until the next cell that needs
//! a column would exceed the width. Cells that take no column stay with the
//! row of the cell before them.

use crate::overstrike::{cell_width, width_of, Cell};
use vstd::prelude::*;

verus! {

/// Offset at which the row ends that holds `cells[i]`, given that the cells
/// of the row before `i` take `used` columns.
pub open spec fn row_end(cells: Seq<Cell>, width: nat, i: int, used: nat) -> int
    decreases cells.len() - i,
{
    if i < 0 || i >= cells.len() {
        cells.len() as int
    } else if cell_width(cells[i]) == 0 {
        row_end(cells, width, i + 1, used)
    } else if used < width {
        row_end(cells, width, i + 1, used + 1)
    } else {
        i
    }
}

/// The rows into which `cells[i..]` is wrapped.
pub open spec fn rows_from(cells: Seq<Cell>, width: nat, i: int) -> Seq<Seq<Cell>>
    decreases cells.len() - i,
{
    if i < 0 || i >= cells.len() {
        Seq::empty()
    } else {
        let e = row_end(cells, width, i, 0);
        if i < e <= cells.len() {
            seq![cells.subrange(i, e)] + rows_from(cells, width, e)
        } else {
            seq![cells.subrange(i, cells.len() as int)]
        }
    }
}

/// The visual rows of a line at `width` columns.
///
/// An empty line is one empty row. At width 0 nothing can be wrapped and
/// the line is one row.
pub open spec fn wrapped(cells: Seq<Cell>, width: nat) -> Seq<Seq<Cell>> {
    if cells.len() == 0 || width == 0 {
        seq![cells]
    } else {
        rows_from(cells, width, 0)
    }
}

/// Number of columns that `cells[i..j]` take.
pub open spec fn columns_between(cells: Seq<Cell>, i: int, j: int) -> nat
    decreases j - i,
{
    if i >= j {
        0
    } else {
        cell_width(cells[i]) + columns_between(cells, i + 1, j)
    }
}

/// Number of columns that `cells` take.
pub open spec fn columns(cells: Seq<Cell>) -> nat {
    columns_between(cells, 0, cells.len() as int)
}

/// The rows of a layout as sequences.
pub open spec fn rows_view(rows: Seq<Vec<Cell>>) -> Seq<Seq<Cell>> {
    Seq::new(rows.len(), |i: int| rows[i]@)
}

/// A row ends behind its start, within the cells. It takes no more columns
/// than the width allows, and if cells follow it, it is full and the next
/// cell needs a column.
pub proof fn lemma_row_end(cells: Seq<Cell>, width: nat, i: int, used: nat)
    requires
        0 <= i <= cells.len(),
        used <= width,
    ensures
        i <= row_end(cells, width, i, used) <= cells.len(),
        used + columns_between(cells, i, row_end(cells, width, i, used)) <= width,
        row_end(cells, width, i, used) < cells.len() ==> used + columns_between(
            cells,
            i,
            row_end(cells, width, i, used),
        ) == width && cell_width(cells[row_end(cells, width, i, used)]) == 1,
        used < width && i < cells.len() ==> i < row_end(cells, width, i, used),
    decreases cells.len() - i,
{
    if i < cells.len() {
        if cell_width(cells[i]) == 0 {
            lemma_row_end(cells, width, i + 1, used);
        } else if used < width {
            lemma_row_end(cells, width, i + 1, used + 1);
        }
    }
}

/// Shifting a window of cells to offset 0 keeps its column count.
proof fn lemma_columns_subrange(cells: Seq<Cell>, i: int, j: int, k: int)
    requires
        0 <= i <= k <= j <= cells.len(),
    ensures
        columns_between(cells.subrange(i, j), k - i, j - i) == columns_between(cells, k, j),
    decreases j - k,
{
    if k < j {
        lemma_columns_subrange(cells, i, j, k + 1);
    }
}

/// Wrapping loses and reorders nothing: the rows, laid end to end, are the
/// cells.
pub proof fn lemma_rows_from_flatten(cells: Seq<Cell>, width: nat, i: int)
    requires
        0 <= i <= cells.len(),
    ensures
        rows_from(cells, width, i).flatten() == cells.subrange(i, cells.len() as int),
    decreases cells.len() - i,
{
    let rows = rows_from(cells, width, i);
    let rest = cells.subrange(i, cells.len() as int);
    if i >= cells.len() {
        assert(rows.flatten() == Seq::<Cell>::empty());
        assert(rest == Seq::<Cell>::empty());
    } else {
        let e = row_end(cells, width, i, 0);
        if i < e <= cells.len() {
            lemma_rows_from_flatten(cells, width, e);
            assert(rows.drop_first() == rows_from(cells, width, e));
            assert(rows.first() == cells.subrange(i, e));
            assert(cells.subrange(i, e) + cells.subrange(e, cells.len() as int) == rest);
        } else {
            assert(rows.drop_first() == Seq::<Seq<Cell>>::empty());
            assert(rows.drop_first().flatten() == Seq::<Cell>::empty());
            assert(rest + Seq::<Cell>::empty() == rest);
        }
    }
}

/// At a positive width every row of `rows_from` is non-empty and fits the
/// width, and every row but the last is full.
pub proof fn lemma_rows_from_fit(cells: Seq<Cell>, width: nat, i: int)
    requires
        0 <= i <= cells.len(),
        width > 0,
    ensures
        forall|r: int|
            0 <= r < rows_from(cells, width, i).len() ==> (#[trigger] rows_from(
                cells,
                width,
                i,
            )[r]).len() > 0 && columns(rows_from(cells, width, i)[r]) <= width,
        forall|r: int|
            0 <= r < rows_from(cells, width, i).len() - 1 ==> columns(
                #[trigger] rows_from(cells, width, i)[r],
            ) == width,
        i < cells.len() ==> rows_from(cells, width, i).len() > 0,
    decreases cells.len() - i,
{
    if i < cells.len() {
        let e = row_end(cells, width, i, 0);
        lemma_row_end(cells, width, i, 0);
        lemma_rows_from_fit(cells, width, e);
        lemma_columns_subrange(cells, i, e, i);
        let rows = rows_from(cells, width, i);
        let tail = rows_from(cells, width, e);
        assert(rows == seq![cells.subrange(i, e)] + tail);
        assert forall|r: int| 0 <= r < rows.len() implies (#[trigger] rows[r]).len() > 0 && columns(
            rows[r],
        ) <= width by {
            if r > 0 {
                assert(rows[r] == tail[r - 1]);
            }
        }
        assert forall|r: int| 0 <= r < rows.len() - 1 implies columns(#[trigger] rows[r])
            == width by {
            if r > 0 {
                assert(rows[r] == tail[r - 1]);
            } else {
                assert(tail.len() > 0);
                assert(e < cells.len());
            }
        }
    }
}

/// The layout of a line: at least one row; the rows, laid end to end, are
/// the cells; at a positive width every row fits the width and every row
/// but the last is full.
pub proof fn lemma_wrapped(cells: Seq<Cell>, width: nat)
    ensures
        wrapped(cells, width).len() >= 1,
        wrapped(cells, width).flatten() == cells,
        width > 0 ==> forall|r: int|
            0 <= r < wrapped(cells, width).len() ==> columns(#[trigger] wrapped(cells, width)[r])
                <= width,
        width > 0 ==> forall|r: int|
            0 <= r < wrapped(cells, width).len() - 1 ==> columns(
                #[trigger] wrapped(cells, width)[r],
            ) == width,
{
    if cells.len() == 0 || width == 0 {
        let rows = seq![cells];
        assert(rows.drop_first() == Seq::<Seq<Cell>>::empty());
        assert(rows.drop_first().flatten() == Seq::<Cell>::empty());
        assert(rows.first() + Seq::<Cell>::empty() == cells);
        assert(rows.flatten() == cells);
    } else {
        lemma_rows_from_flatten(cells, width, 0);
        lemma_rows_from_fit(cells, width, 0);
        assert(cells.subrange(0, cells.len() as int) == cells);
    }
}

/// Copies `cells[start..end]`.
pub(crate) fn copy_cells(cells: &Vec<Cell>, start: usize, end: usize) -> (out: Vec<Cell>)
    requires
        start <= end <= cells@.len(),
    ensures
        out@ == cells@.subrange(start as int, end as int),
{
    let mut out: Vec<Cell> = Vec::new();
    let mut i: usize = start;
    while i < end
        invariant
            start <= i <= end <= cells@.len(),
            out@ == cells@.subrange(start as int, i as int),
        decreases end - i,
    {
        out.push(cells[i]);
        proof {
            assert(cells@.subrange(start as int, i + 1) == cells@.subrange(
                start as int,
                i as int,
            ).push(cells@[i as int]));
        }
        i += 1;
    }
    out
}

/// Wraps the cells of one line into rows of at most `width` columns.
pub fn wrap(cells: &Vec<Cell>, width: usize) -> (rows: Vec<Vec<Cell>>)
    ensures
        rows_view(rows@) == wrapped(cells@, width as nat),
{
    let n = cells.len();
    let mut rows: Vec<Vec<Cell>> = Vec::new();
    if n == 0 || width == 0 {
        let row = copy_cells(cells, 0, n);
        rows.push(row);
        proof {
            assert(cells@.subrange(0, n as int) == cells@);
            assert(rows_view(rows@) == seq![cells@]);
        }
        return rows;
    }
    let mut start: usize = 0;
    proof {
        assert(rows_view(rows@) + rows_from(cells@, width as nat, 0) == rows_from(
            cells@,
            width as nat,
            0,
        ));
    }
    while start < n
        invariant
            n == cells@.len(),
            width > 0,
            start <= n,
            rows_view(rows@) + rows_from(cells@, width as nat, start as int) == rows_from(
                cells@,
                width as nat,
                0,
            ),
        decreases n - start,
    {
        let mut i: usize = start;
        let mut used: usize = 0;
        while i < n && (width_of(&cells[i]) == 0 || used < width)
            invariant
                n == cells@.len(),
                start <= i <= n,
                start < n,
                used <= width,
                width > 0,
                i == start ==> used == 0,
                row_end(cells@, width as nat, i as int, used as nat) == row_end(
                    cells@,
                    width as nat,
                    start as int,
                    0,
                ),
            decreases n - i,
        {
            if width_of(&cells[i]) == 1 {
                used += 1;
            }
            i += 1;
        }
        let row = copy_cells(cells, start, i);
        proof {
            let before = rows_view(rows@);
            let tail = rows_from(cells@, width as nat, i as int);
            assert(row_end(cells@, width as nat, i as int, used as nat) == i);
            assert(start < i);
            assert(rows_from(cells@, width as nat, start as int) == seq![row@] + tail);
            assert(rows_view(rows@.push(row)) == before.push(row@));
            assert(before.push(row@) + tail == before + (seq![row@] + tail));
        }
        rows.push(row);
        start = i;
    }
    proof {
        assert(rows_from(cells@, width as nat, n as int) == Seq::<Seq<Cell>>::empty());
        assert(rows_view(rows@) + Seq::<Seq<Cell>>::empty() == rows_view(rows@));
    }
    rows
}

/// Copies a layout.
pub fn copy_rows(rows: &Vec<Vec<Cell>>) -> (out: Vec<Vec<Cell>>)
    ensures
        rows_view(out@) == rows_view(rows@),
{
    let mut out: Vec<Vec<Cell>> = Vec::new();
    let mut i: usize = 0;
    while i < rows.len()
        invariant
            i <= rows.len(),
            rows_view(out@) == rows_view(rows@).take(i as int),
        decreases rows.len() - i,
    {
        let row = copy_cells(&rows[i], 0, rows[i].len());
        proof {
            assert(rows@[i as int]@.subrange(0, rows@[i as int]@.len() as int) == rows@[i as int]@);
            assert(row@ == rows@[i as int]@);
            assert(rows_view(out@.push(row)) == rows_view(out@).push(row@));
            assert(rows_view(rows@).take(i + 1) == rows_view(rows@).take(i as int).push(
                rows@[i as int]@,
            ));
        }
        out.push(row);
        i += 1;
    }
    proof {
        assert(rows_view(rows@).take(rows.len() as int) == rows_view(rows@));
    }
    out
}

/// Whether `cells[start..end]` is the character that holds `cells[index]`:
/// a cell that takes a column, or the start of the row, followed by the
/// cells without column that belong to it.
pub open spec fn is_character(cells: Seq<Cell>, index: int, start: int, end: int) -> bool {
    &&& 0 <= start <= index < end <= cells.len()
    &&& start == 0 || cell_width(cells[start]) == 1
    &&& end == cells.len() || cell_width(cells[end]) == 1
    &&& forall|j: int| start < j < end ==> cell_width(#[trigger] cells[j]) == 0
}

/// The column at which `cells[index]` stands: the number of columns that
/// the cells before it take.
pub fn column_of(cells: &[Cell], index: usize) -> (column: usize)
    ensures
        column == columns_between(cells@, 0, min_index(index as int, cells@.len() as int)),
{
    let end = if index <= cells.len() {
        index
    } else {
        cells.len()
    };
    let mut i: usize = end;
    let mut column: usize = 0;
    while i > 0
        invariant
            i <= end <= cells@.len(),
            column <= end - i,
            column == columns_between(cells@, i as int, end as int),
        decreases i,
    {
        i -= 1;
        column = column + width_of(&cells[i]);
    }
    column
}

/// The smaller of an index and a length.
pub open spec fn min_index(index: int, len: int) -> int {
    if index <= len {
        index
    } else {
        len
    }
}

/// The character that holds `cells[index]`: the offset of its first cell
/// and the offset behind its last. `None` if there is no such cell.
pub fn character_at(cells: &[Cell], index: usize) -> (range: Option<(usize, usize)>)
    ensures
        match range {
            Some((start, end)) => is_character(cells@, index as int, start as int, end as int),
            None => index >= cells@.len(),
        },
{
    let n = cells.len();
    if index >= n {
        return None;
    }
    let mut start: usize = index;
    while start > 0 && width_of(&cells[start]) == 0
        invariant
            start <= index < n,
            n == cells@.len(),
            forall|j: int| start < j <= index ==> cell_width(#[trigger] cells@[j]) == 0,
        decreases start,
    {
        start -= 1;
    }
    let mut end: usize = index + 1;
    while end < n && width_of(&cells[end]) == 0
        invariant
            index < end <= n,
            n == cells@.len(),
            forall|j: int| index < j < end ==> cell_width(#[trigger] cells@[j]) == 0,
        decreases n - end,
    {
        end += 1;
    }
    Some((start, end))
}

/// Whether two rows put their cells at the same columns as far as both
/// reach: a cell of the one takes a column exactly if the cell at the same
/// offset of the other does.
pub open spec fn rows_aligned(a: Seq<Cell>, b: Seq<Cell>) -> bool {
    forall|i: int|
        0 <= i < a.len() && i < b.len() ==> cell_width(#[trigger] a[i]) == cell_width(
            #[trigger] b[i],
        )
}

/// Whether two rows put their cells at the same columns as far as both
/// reach.
pub fn aligned(a: &[Cell], b: &[Cell]) -> (same: bool)
    ensures
        same == rows_aligned(a@, b@),
{
    let mut i: usize = 0;
    while i < a.len() && i < b.len()
        invariant
            forall|k: int| 0 <= k < i ==> cell_width(#[trigger] a@[k]) == cell_width(#[trigger] b@[k]),
        decreases a@.len() - i,
    {
        if width_of(&a[i]) != width_of(&b[i]) {
            return false;
        }
        i += 1;
    }
    true
}

} // verus!
