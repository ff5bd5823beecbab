//! Frames: what is on screen, what should be, and the difference.
//!
//! A frame holds one sequence of cells for each row of the screen. The
//! renderer keeps the frame it has drawn last; the next frame is compared
//! with it cell by cell, row by row, and only the cells that differ are
//! sent to the terminal.

use crate::file::{line_layout, saturating_plus, uncached_between, File, LineLookup};
use crate::layout::{rows_view, wrap};
use crate::viewport::min_int;
use crate::line_index::line_count;
use crate::overstrike::Cell;
use vstd::prelude::*;

verus! {

/// One change to the screen.
#[derive(Clone, Copy, Debug, PartialEq, Eq, Structural)]
pub enum Update {
    /// Put `cell` at position `index` of row `row`.
    Put { row: usize, index: usize, cell: Cell },
    /// Clear row `row` from position `index` to its end.
    ClearFrom { row: usize, index: usize },
}

/// The rows of the layouts of lines `from` to `to - 1`, one line after the
/// other.
pub open spec fn rows_of_lines(data: Seq<u8>, width: nat, from: int, to: int) -> Seq<Seq<Cell>>
    decreases to - from,
{
    if from >= to {
        Seq::empty()
    } else {
        rows_of_lines(data, width, from, to - 1) + line_layout(data, to - 1, width)
    }
}

/// `rows` cut or filled with empty rows to exactly `height` rows.
pub open spec fn fitted(rows: Seq<Seq<Cell>>, height: nat) -> Seq<Seq<Cell>> {
    Seq::new(
        height,
        |r: int|
            if r < rows.len() {
                rows[r]
            } else {
                Seq::empty()
            },
    )
}

/// The rows of a screen of `height` rows that shows `data` from line `top`
/// at `width` columns: the rows of the lines from `top` on, as many as
/// fit, and empty rows behind the last line.
pub open spec fn screen_rows(data: Seq<u8>, width: nat, height: nat, top: int) -> Seq<Seq<Cell>> {
    fitted(rows_of_lines(data, width, top, line_count(data) as int), height)
}

/// The line behind the last one that a screen of `height` rows needs when
/// lines `from` to `line - 1` are laid out already: lines are taken until
/// their rows fill the screen or the file has no further line.
pub open spec fn last_needed(data: Seq<u8>, width: nat, height: nat, from: int, line: int) -> int
    decreases line_count(data) - line,
{
    if line >= line_count(data) || rows_of_lines(data, width, from, line).len() >= height {
        line
    } else {
        last_needed(data, width, height, from, line + 1)
    }
}

/// Row `r` of `frame`, or an empty row if the frame has no such row.
pub open spec fn row_or_empty(frame: Seq<Seq<Cell>>, r: int) -> Seq<Cell> {
    if 0 <= r < frame.len() {
        frame[r]
    } else {
        Seq::empty()
    }
}

/// The changes that turn `old_row` into `new_row` from position `i` on,
/// in ascending order of position.
pub open spec fn row_updates(old_row: Seq<Cell>, new_row: Seq<Cell>, r: usize, i: int) -> Seq<
    Update,
>
    decreases new_row.len() - i,
{
    if i < 0 || i >= new_row.len() {
        if old_row.len() > new_row.len() {
            seq![Update::ClearFrom { row: r, index: new_row.len() as usize }]
        } else {
            Seq::empty()
        }
    } else if i < old_row.len() && old_row[i] == new_row[i] {
        row_updates(old_row, new_row, r, i + 1)
    } else {
        seq![Update::Put { row: r, index: i as usize, cell: new_row[i] }] + row_updates(
            old_row,
            new_row,
            r,
            i + 1,
        )
    }
}

/// The changes that turn `old` into `new` from row `r` on, in row-major
/// order. A row that `old` lacks counts as empty.
pub open spec fn frame_updates(old: Seq<Seq<Cell>>, new: Seq<Seq<Cell>>, r: int) -> Seq<Update>
    decreases new.len() - r,
{
    if r < 0 || r >= new.len() {
        Seq::empty()
    } else {
        row_updates(row_or_empty(old, r), new[r], r as usize, 0) + frame_updates(old, new, r + 1)
    }
}

/// A row equal to the one on screen needs no change.
pub proof fn lemma_equal_row_needs_no_update(row: Seq<Cell>, r: usize, i: int)
    requires
        0 <= i <= row.len(),
    ensures
        row_updates(row, row, r, i) == Seq::<Update>::empty(),
    decreases row.len() - i,
{
    if i < row.len() {
        lemma_equal_row_needs_no_update(row, r, i + 1);
    }
}

/// A frame equal to the one on screen needs no change.
pub proof fn lemma_equal_frame_needs_no_update(frame: Seq<Seq<Cell>>, r: int)
    requires
        0 <= r <= frame.len(),
    ensures
        frame_updates(frame, frame, r) == Seq::<Update>::empty(),
    decreases frame.len() - r,
{
    if r < frame.len() {
        lemma_equal_row_needs_no_update(frame[r], r as usize, 0);
        lemma_equal_frame_needs_no_update(frame, r + 1);
    }
}

/// Every change of a row is needed and right: a cell is put exactly where
/// the new row has a cell that the old row lacks or has otherwise, and it
/// is the cell of the new row; the row is cleared exactly if the new row
/// is shorter, from its end on.
pub proof fn lemma_row_updates_are_minimal(
    old_row: Seq<Cell>,
    new_row: Seq<Cell>,
    r: usize,
    i: int,
    u: Update,
)
    requires
        0 <= i <= new_row.len() <= usize::MAX,
    ensures
        row_updates(old_row, new_row, r, i).contains(u) <==> match u {
            Update::Put { row, index, cell } => row == r && i <= index < new_row.len() && cell
                == new_row[index as int] && !(index < old_row.len() && old_row[index as int]
                == cell),
            Update::ClearFrom { row, index } => row == r && index == new_row.len()
                && old_row.len() > new_row.len(),
        },
    decreases new_row.len() - i,
{
    let here = row_updates(old_row, new_row, r, i);
    if i >= new_row.len() {
        if old_row.len() > new_row.len() {
            let only = Update::ClearFrom { row: r, index: new_row.len() as usize };
            assert(here[0] == only);
        }
    } else {
        lemma_row_updates_are_minimal(old_row, new_row, r, i + 1, u);
        let rest = row_updates(old_row, new_row, r, i + 1);
        if !(i < old_row.len() && old_row[i] == new_row[i]) {
            let first = Update::Put { row: r, index: i as usize, cell: new_row[i] };
            assert(here == seq![first] + rest);
            assert(here[0] == first);
            if rest.contains(u) {
                let k = choose|k: int| 0 <= k < rest.len() && rest[k] == u;
                assert(here[k + 1] == u);
            }
            if here.contains(u) {
                let k = choose|k: int| 0 <= k < here.len() && here[k] == u;
                if k > 0 {
                    assert(rest[k - 1] == u);
                }
            }
        }
    }
}

/// `frame` after the change `u`. A change that does not fit the frame
/// leaves it as it is.
pub open spec fn apply_update(frame: Seq<Seq<Cell>>, u: Update) -> Seq<Seq<Cell>> {
    match u {
        Update::Put { row, index, cell } => if row < frame.len() && index < frame[row as int].len() {
            frame.update(row as int, frame[row as int].update(index as int, cell))
        } else if row < frame.len() && index == frame[row as int].len() {
            frame.update(row as int, frame[row as int].push(cell))
        } else {
            frame
        },
        Update::ClearFrom { row, index } => if row < frame.len() && index <= frame[row as int].len() {
            frame.update(row as int, frame[row as int].take(index as int))
        } else {
            frame
        },
    }
}

/// `frame` after the changes `updates`, made one after the other.
pub open spec fn apply_updates(frame: Seq<Seq<Cell>>, updates: Seq<Update>) -> Seq<Seq<Cell>>
    decreases updates.len(),
{
    if updates.len() == 0 {
        frame
    } else {
        apply_updates(apply_update(frame, updates.first()), updates.drop_first())
    }
}

/// A row in the middle of its change: the new cells before `i`, the old
/// ones from `i` on.
pub open spec fn row_in_progress(old_row: Seq<Cell>, new_row: Seq<Cell>, i: int) -> Seq<Cell> {
    if i <= old_row.len() {
        new_row.take(i) + old_row.skip(i)
    } else {
        new_row.take(i)
    }
}

/// Making the changes `a` and then the changes `b` is making `a + b`.
pub proof fn lemma_apply_updates_concat(frame: Seq<Seq<Cell>>, a: Seq<Update>, b: Seq<Update>)
    ensures
        apply_updates(frame, a + b) == apply_updates(apply_updates(frame, a), b),
    decreases a.len(),
{
    if a.len() == 0 {
        assert(a + b == b);
    } else {
        assert((a + b).first() == a.first());
        assert((a + b).drop_first() == a.drop_first() + b);
        lemma_apply_updates_concat(apply_update(frame, a.first()), a.drop_first(), b);
    }
}

/// The changes of a row from position `i` on complete the row.
pub proof fn lemma_row_updates_apply(
    frame: Seq<Seq<Cell>>,
    old_row: Seq<Cell>,
    new_row: Seq<Cell>,
    r: usize,
    i: int,
)
    requires
        r < frame.len(),
        0 <= i <= new_row.len() <= usize::MAX,
        old_row.len() <= usize::MAX,
        frame[r as int] == row_in_progress(old_row, new_row, i),
    ensures
        apply_updates(frame, row_updates(old_row, new_row, r, i)) == frame.update(
            r as int,
            new_row,
        ),
    decreases new_row.len() - i,
{
    let ups = row_updates(old_row, new_row, r, i);
    let n = new_row.len() as int;
    if i >= n {
        assert(new_row.take(n) == new_row);
        if old_row.len() > n {
            let clear = Update::ClearFrom { row: r, index: n as usize };
            assert(ups.first() == clear);
            assert(ups.drop_first() == Seq::<Update>::empty());
            assert((new_row + old_row.skip(n)).take(n) == new_row);
            assert(apply_update(frame, clear) == frame.update(r as int, new_row));
            assert(apply_updates(frame, ups) == apply_updates(
                apply_update(frame, clear),
                ups.drop_first(),
            ));
        } else {
            assert(row_in_progress(old_row, new_row, i) == new_row) by {
                if i <= old_row.len() {
                    assert(new_row + old_row.skip(n) == new_row);
                }
            }
            assert(frame.update(r as int, new_row) == frame);
        }
    } else if i < old_row.len() && old_row[i] == new_row[i] {
        assert(row_in_progress(old_row, new_row, i + 1) == row_in_progress(old_row, new_row, i));
        lemma_row_updates_apply(frame, old_row, new_row, r, i + 1);
    } else {
        let put = Update::Put { row: r, index: i as usize, cell: new_row[i] };
        let rest = row_updates(old_row, new_row, r, i + 1);
        assert(ups.first() == put);
        assert(ups.drop_first() == rest);
        let next = apply_update(frame, put);
        assert(next[r as int] == row_in_progress(old_row, new_row, i + 1)) by {
            if i < old_row.len() {
                assert((new_row.take(i) + old_row.skip(i)).update(i, new_row[i]) == new_row.take(
                    i + 1,
                ) + old_row.skip(i + 1));
            } else {
                assert(row_in_progress(old_row, new_row, i) == new_row.take(i)) by {
                    if i == old_row.len() {
                        assert(new_row.take(i) + old_row.skip(i) == new_row.take(i));
                    }
                }
                assert(new_row.take(i).push(new_row[i]) == new_row.take(i + 1));
                if i + 1 <= old_row.len() {
                    assert(false);
                }
            }
        }
        lemma_row_updates_apply(next, old_row, new_row, r, i + 1);
        assert(next.update(r as int, new_row) == frame.update(r as int, new_row));
        assert(apply_updates(frame, ups) == apply_updates(next, rest));
    }
}

/// The changes from row `r` on complete a frame whose rows before `r` are
/// new already and whose other rows are still the old ones.
pub proof fn lemma_frame_updates_apply(
    frame: Seq<Seq<Cell>>,
    old: Seq<Seq<Cell>>,
    new: Seq<Seq<Cell>>,
    r: int,
)
    requires
        0 <= r <= new.len() <= usize::MAX,
        frame.len() == new.len(),
        forall|k: int| 0 <= k < new.len() ==> (#[trigger] new[k]).len() <= usize::MAX,
        forall|k: int| 0 <= k < old.len() ==> (#[trigger] old[k]).len() <= usize::MAX,
        forall|k: int| 0 <= k < r ==> #[trigger] frame[k] == new[k],
        forall|k: int| r <= k < new.len() ==> #[trigger] frame[k] == row_or_empty(old, k),
    ensures
        apply_updates(frame, frame_updates(old, new, r)) == new,
    decreases new.len() - r,
{
    if r >= new.len() {
        assert(frame =~= new);
    } else {
        let old_row = row_or_empty(old, r);
        let row_part = row_updates(old_row, new[r], r as usize, 0);
        let rest = frame_updates(old, new, r + 1);
        lemma_apply_updates_concat(frame, row_part, rest);
        assert(frame[r] == row_in_progress(old_row, new[r], 0)) by {
            assert(new[r].take(0) + old_row.skip(0) == old_row);
        }
        lemma_row_updates_apply(frame, old_row, new[r], r as usize, 0);
        lemma_frame_updates_apply(frame.update(r, new[r]), old, new, r + 1);
    }
}

/// Making the changes that `diff` computes on the frame on screen, cut or
/// filled to the new height, yields the new frame.
pub proof fn lemma_diff_applies(old: Seq<Seq<Cell>>, new: Seq<Seq<Cell>>)
    requires
        new.len() <= usize::MAX,
        forall|k: int| 0 <= k < new.len() ==> (#[trigger] new[k]).len() <= usize::MAX,
        forall|k: int| 0 <= k < old.len() ==> (#[trigger] old[k]).len() <= usize::MAX,
    ensures
        apply_updates(fitted(old, new.len()), frame_updates(old, new, 0)) == new,
{
    lemma_frame_updates_apply(fitted(old, new.len()), old, new, 0);
}

/// What is, or should be, on screen.
pub struct Frame {
    rows: Vec<Vec<Cell>>,
}

impl View for Frame {
    type V = Seq<Seq<Cell>>;

    closed spec fn view(&self) -> Seq<Seq<Cell>> {
        rows_view(self.rows@)
    }
}

impl Frame {
    /// A frame of `height` empty rows.
    pub fn blank(height: usize) -> (frame: Frame)
        ensures
            frame@ == fitted(Seq::empty(), height as nat),
    {
        let mut rows: Vec<Vec<Cell>> = Vec::new();
        let mut r: usize = 0;
        while r < height
            invariant
                r <= height,
                rows_view(rows@) == fitted(Seq::empty(), r as nat),
            decreases height - r,
        {
            let row: Vec<Cell> = Vec::new();
            assert(rows_view(rows@.push(row)) == rows_view(rows@).push(row@));
            assert(fitted(Seq::empty(), r as nat).push(Seq::empty()) =~= fitted(
                Seq::empty(),
                (r + 1) as nat,
            ));
            rows.push(row);
            r += 1;
        }
        Frame { rows }
    }

    /// Number of rows.
    pub fn height(&self) -> (height: usize)
        ensures
            height == self@.len(),
    {
        self.rows.len()
    }

    /// The cells of row `r`, if the frame has such a row.
    pub fn row(&self, r: usize) -> (row: Option<&Vec<Cell>>)
        ensures
            match row {
                Some(cells) => r < self@.len() && cells@ == self@[r as int],
                None => r >= self@.len(),
            },
    {
        if r < self.rows.len() {
            Some(&self.rows[r])
        } else {
            None
        }
    }

    /// The frame of a screen of `height` rows that shows `file` from line
    /// `top` at `width` columns.
    ///
    /// Lines are laid out through the cache of the file, one after the
    /// other, until the screen is full or the file has no further line.
    /// The cache then holds, besides what it held at this width, the
    /// layouts of exactly these lines.
    pub fn render(file: &mut File, top: usize, width: usize, height: usize) -> (frame: Frame)
        requires
            old(file).wf(),
        ensures
            final(file).wf(),
            final(file).spec_info() == old(file).spec_info(),
            final(file).data() == old(file).data(),
            final(file).state() == old(file).state(),
            final(file).width() == width,
            frame@ == screen_rows(old(file).data(), width as nat, height as nat, top as int),
            forall|line: usize| #[trigger]
                final(file).cached().contains_key(line) <==> old(file).retained(width).contains_key(
                    line,
                ) || (top <= line < last_needed(
                    old(file).data(),
                    width as nat,
                    height as nat,
                    top as int,
                    top as int,
                )),
            final(file).decode_count() == saturating_plus(
                old(file).decode_count(),
                uncached_between(
                    old(file).retained(width),
                    top as int,
                    last_needed(old(file).data(), width as nat, height as nat, top as int, top as int),
                ),
            ),
    {
        file.set_width(width);
        let ghost data = file.data();
        let count = file.line_count();
        let ghost all = rows_of_lines(data, width as nat, top as int, count as int);
        let mut rows: Vec<Vec<Cell>> = Vec::new();
        let mut line: usize = top;
        proof {
            assert(rows_view(rows@) == rows_of_lines(data, width as nat, top as int, top as int));
        }
        while line < count && rows.len() < height
            invariant
                file.wf(),
                file.spec_info() == old(file).spec_info(),
                file.data() == data,
                data == old(file).data(),
                file.state() == old(file).state(),
                file.width() == width,
                count == line_count(data),
                top <= line,
                line <= count || line == top,
                rows@.len() <= height,
                forall|l: usize| #[trigger]
                    file.cached().contains_key(l) <==> old(file).retained(width).contains_key(l)
                        || (top <= l < line),
                file.decode_count() == saturating_plus(
                    old(file).decode_count(),
                    uncached_between(old(file).retained(width), top as int, line as int),
                ),
                last_needed(data, width as nat, height as nat, top as int, line as int)
                    == last_needed(data, width as nat, height as nat, top as int, top as int),
                rows@.len() <= rows_of_lines(data, width as nat, top as int, line as int).len(),
                rows_view(rows@) == rows_of_lines(data, width as nat, top as int, line as int).take(
                    rows@.len() as int,
                ),
                rows@.len() < height ==> rows@.len() == rows_of_lines(
                    data,
                    width as nat,
                    top as int,
                    line as int,
                ).len(),
            decreases count - line,
        {
            let ghost before = rows_view(rows@);
            let ghost shown = rows_of_lines(data, width as nat, top as int, line as int);
            let ghost next = rows_of_lines(data, width as nat, top as int, line + 1);
            assert(before == shown) by {
                assert(shown.take(shown.len() as int) == shown);
            }
            let ghost earlier = *file;
            if let LineLookup::Found(layout) = file.get(line, width) {
                assert(earlier.retained(width) == earlier.cached());
                assert(next == before + rows_view(layout@));
                let mut k: usize = 0;
                proof {
                    assert(before + rows_view(layout@).take(0) == before);
                }
                while k < layout.len() && rows.len() < height
                    invariant
                        k <= layout@.len(),
                        rows@.len() <= height,
                        rows@.len() == before.len() + k,
                        rows_view(rows@) == before + rows_view(layout@).take(k as int),
                    decreases layout@.len() - k,
                {
                    let row = crate::layout::copy_cells(&layout[k], 0, layout[k].len());
                    proof {
                        assert(row@ == layout@[k as int]@) by {
                            assert(layout@[k as int]@.subrange(0, layout@[k as int]@.len() as int)
                                == layout@[k as int]@);
                        }
                        assert(rows_view(rows@.push(row)) == rows_view(rows@).push(row@));
                        assert(rows_view(layout@).take(k + 1) == rows_view(layout@).take(
                            k as int,
                        ).push(layout@[k as int]@));
                    }
                    rows.push(row);
                    k += 1;
                }
                proof {
                    assert(rows_view(rows@) =~= next.take(rows@.len() as int));
                }
            }
            line += 1;
        }
        proof {
            let shown = rows_of_lines(data, width as nat, top as int, line as int);
            if line <= count {
                lemma_rows_of_lines_prefix(data, width as nat, top as int, line as int, count as int);
                assert(rows_view(rows@) =~= fitted(all, rows@.len() as nat));
            } else {
                assert(rows_view(rows@) =~= fitted(all, rows@.len() as nat));
            }
        }
        while rows.len() < height
            invariant
                rows@.len() <= height,
                rows@.len() < height ==> all.len() <= rows@.len(),
                rows_view(rows@) == fitted(all, rows@.len() as nat),
            decreases height - rows@.len(),
        {
            let row: Vec<Cell> = Vec::new();
            proof {
                assert(rows_view(rows@.push(row)) == rows_view(rows@).push(row@));
                assert(fitted(all, rows@.len() as nat).push(Seq::empty()) =~= fitted(
                    all,
                    (rows@.len() + 1) as nat,
                ));
            }
            rows.push(row);
        }
        Frame { rows }
    }

    /// The changes that turn the frame `old`, which is on screen, into
    /// `self`: in row-major order, and only where the two differ. A row
    /// that `old` lacks counts as empty.
    pub fn diff(&self, old: &Frame) -> (updates: Vec<Update>)
        ensures
            updates@ == frame_updates(old@, self@, 0),
    {
        let mut updates: Vec<Update> = Vec::new();
        let height = self.rows.len();
        let empty: Vec<Cell> = Vec::new();
        let mut r: usize = 0;
        proof {
            assert(updates@ + frame_updates(old@, self@, 0) == frame_updates(old@, self@, 0));
        }
        while r < height
            invariant
                height == self.rows@.len(),
                r <= height,
                empty@ == Seq::<Cell>::empty(),
                updates@ + frame_updates(old@, self@, r as int) == frame_updates(old@, self@, 0),
            decreases height - r,
        {
            let new_row = &self.rows[r];
            let old_row = if r < old.rows.len() {
                &old.rows[r]
            } else {
                &empty
            };
            let ghost done = updates@;
            let ghost later = frame_updates(old@, self@, r + 1);
            assert(old_row@ == row_or_empty(old@, r as int));
            assert(new_row@ == self@[r as int]);
            let n = new_row.len();
            let mut i: usize = 0;
            proof {
                assert(done + (row_updates(old_row@, new_row@, r, 0) + later) == done
                    + frame_updates(old@, self@, r as int));
            }
            while i < n
                invariant
                    n == new_row@.len(),
                    i <= n,
                    updates@ + (row_updates(old_row@, new_row@, r, i as int) + later)
                        == frame_updates(old@, self@, 0),
                decreases n - i,
            {
                if !(i < old_row.len() && old_row[i] == new_row[i]) {
                    let put = Update::Put { row: r, index: i, cell: new_row[i] };
                    proof {
                        let rest = row_updates(old_row@, new_row@, r, i + 1);
                        assert(updates@.push(put) + (rest + later) == updates@ + ((seq![put] + rest)
                            + later));
                    }
                    updates.push(put);
                }
                i += 1;
            }
            if old_row.len() > n {
                let clear = Update::ClearFrom { row: r, index: n };
                proof {
                    assert(updates@.push(clear) + later == updates@ + (seq![clear] + later));
                }
                updates.push(clear);
            } else {
                proof {
                    assert(Seq::<Update>::empty() + later == later);
                }
            }
            r += 1;
        }
        proof {
            assert(updates@ + Seq::<Update>::empty() == updates@);
        }
        updates
    }
}

/// The rows of the first lines are the first rows of more lines.
pub proof fn lemma_rows_of_lines_prefix(data: Seq<u8>, width: nat, from: int, mid: int, to: int)
    requires
        from <= mid <= to,
    ensures
        rows_of_lines(data, width, from, mid).len() <= rows_of_lines(data, width, from, to).len(),
        rows_of_lines(data, width, from, to).take(
            rows_of_lines(data, width, from, mid).len() as int,
        ) == rows_of_lines(data, width, from, mid),
    decreases to - mid,
{
    let short = rows_of_lines(data, width, from, mid);
    if mid < to {
        lemma_rows_of_lines_prefix(data, width, from, mid, to - 1);
        let less = rows_of_lines(data, width, from, to - 1);
        let full = rows_of_lines(data, width, from, to);
        assert(full == less + line_layout(data, to - 1, width));
        assert(full.take(short.len() as int) =~= less.take(short.len() as int));
    } else {
        assert(short.take(short.len() as int) == short);
    }
}

/// The least top line at or before `t` from which the lines down to the
/// end of the file fit on a screen of `height` rows, given that they fit
/// from `t`.
pub open spec fn fitting_top(data: Seq<u8>, width: nat, height: nat, t: int) -> int
    decreases t,
{
    if t > 0 && rows_of_lines(data, width, t - 1, line_count(data) as int).len() <= height {
        fitting_top(data, width, height, t - 1)
    } else {
        t
    }
}

/// The top line of the last screen of a file: the least top line from
/// which everything down to the last line fits on the screen. Where the
/// last line alone does not fit, it is the last line.
pub open spec fn bottom_top(data: Seq<u8>, width: nat, height: nat) -> int {
    if line_count(data) == 0 {
        0
    } else {
        min_int(fitting_top(data, width, height, line_count(data) as int), line_count(data) - 1)
    }
}

/// The row of the screen at which line `line` starts when `top` is the
/// top line, or `limit` if that row is not among the first `limit` rows.
pub open spec fn row_of_line(data: Seq<u8>, width: nat, top: int, line: int, limit: int) -> int {
    min_int(
        rows_of_lines(data, width, top, min_int(line, line_count(data) as int)).len() as int,
        limit,
    )
}

/// The rows of some lines are the rows of the first of them and then the
/// rows of the others.
pub proof fn lemma_rows_of_lines_front(data: Seq<u8>, width: nat, from: int, to: int)
    requires
        from < to,
    ensures
        rows_of_lines(data, width, from, to) == line_layout(data, from, width) + rows_of_lines(
            data,
            width,
            from + 1,
            to,
        ),
    decreases to - from,
{
    let first = line_layout(data, from, width);
    if from + 1 == to {
        assert(rows_of_lines(data, width, from, from) == Seq::<Seq<Cell>>::empty());
        assert(rows_of_lines(data, width, to, to) == Seq::<Seq<Cell>>::empty());
        assert(Seq::<Seq<Cell>>::empty() + first == first + Seq::<Seq<Cell>>::empty());
    } else {
        lemma_rows_of_lines_front(data, width, from, to - 1);
        let middle = rows_of_lines(data, width, from + 1, to - 1);
        let last = line_layout(data, to - 1, width);
        assert((first + middle) + last == first + (middle + last));
    }
}

/// Lines taken from further up take no fewer rows.
pub proof fn lemma_rows_grow_upward(data: Seq<u8>, width: nat, upper: int, lower: int, to: int)
    requires
        upper <= lower <= to,
    ensures
        rows_of_lines(data, width, upper, to).len() >= rows_of_lines(data, width, lower, to).len(),
    decreases lower - upper,
{
    if upper < lower {
        lemma_rows_of_lines_front(data, width, upper, to);
        lemma_rows_grow_upward(data, width, upper + 1, lower, to);
    }
}

/// From the least fitting top line everything down to the end fits, and
/// from the line before it no longer does.
pub proof fn lemma_fitting_top(data: Seq<u8>, width: nat, height: nat, t: int)
    requires
        0 <= t <= line_count(data),
        rows_of_lines(data, width, t, line_count(data) as int).len() <= height,
    ensures
        0 <= fitting_top(data, width, height, t) <= t,
        rows_of_lines(
            data,
            width,
            fitting_top(data, width, height, t),
            line_count(data) as int,
        ).len() <= height,
        fitting_top(data, width, height, t) > 0 ==> rows_of_lines(
            data,
            width,
            fitting_top(data, width, height, t) - 1,
            line_count(data) as int,
        ).len() > height,
    decreases t,
{
    if t > 0 && rows_of_lines(data, width, t - 1, line_count(data) as int).len() <= height {
        lemma_fitting_top(data, width, height, t - 1);
    }
}

/// At the top line of the last screen the last line is on screen: either
/// everything from there to the end of the file fits, or the last line is
/// the top line. From any earlier top line the lines down to the end take
/// more rows than the screen has, so that the screen is full.
pub proof fn lemma_bottom_top(data: Seq<u8>, width: nat, height: nat)
    ensures
        0 <= bottom_top(data, width, height),
        line_count(data) > 0 ==> bottom_top(data, width, height) < line_count(data),
        line_count(data) > 0 ==> rows_of_lines(
            data,
            width,
            bottom_top(data, width, height),
            line_count(data) as int,
        ).len() <= height || bottom_top(data, width, height) == line_count(data) - 1,
        forall|t: int|
            0 <= t < bottom_top(data, width, height) ==> (#[trigger] rows_of_lines(
                data,
                width,
                t,
                line_count(data) as int,
            )).len() > height,
{
    let lines = line_count(data) as int;
    if lines > 0 {
        assert(rows_of_lines(data, width, lines, lines) == Seq::<Seq<Cell>>::empty());
        lemma_fitting_top(data, width, height, lines);
        let f = fitting_top(data, width, height, lines);
        let b = bottom_top(data, width, height);
        assert forall|t: int| 0 <= t < b implies (#[trigger] rows_of_lines(
            data,
            width,
            t,
            lines,
        )).len() > height by {
            lemma_rows_grow_upward(data, width, t, f - 1, lines);
        }
    }
}

/// Number of rows that line `i` takes at `width` columns; 0 if there is no
/// such line. The layout cache is not consulted.
pub fn line_rows(file: &File, i: usize, width: usize) -> (rows: usize)
    requires
        file.wf(),
    ensures
        rows == if i < line_count(file.data()) {
            line_layout(file.data(), i as int, width as nat).len()
        } else {
            0
        },
{
    match file.cells(i) {
        LineLookup::Found(cells) => {
            let layout = wrap(&cells, width);
            assert(rows_view(layout@).len() == layout@.len());
            layout.len()
        },
        _ => 0,
    }
}

/// The top line of the last screen of `file` at `width` columns and
/// `height` rows.
pub fn last_screen_top(file: &File, width: usize, height: usize) -> (top: usize)
    requires
        file.wf(),
    ensures
        top == bottom_top(file.data(), width as nat, height as nat),
{
    let lines = file.line_count();
    if lines == 0 {
        return 0;
    }
    let ghost data = file.data();
    let mut t: usize = lines;
    let mut rows: usize = 0;
    proof {
        assert(rows_of_lines(data, width as nat, lines as int, lines as int) == Seq::<
            Seq<Cell>,
        >::empty());
    }
    while t > 0
        invariant_except_break
            rows == rows_of_lines(data, width as nat, t as int, lines as int).len(),
            rows <= height,
            fitting_top(data, width as nat, height as nat, t as int) == fitting_top(
                data,
                width as nat,
                height as nat,
                lines as int,
            ),
        invariant
            file.wf(),
            data == file.data(),
            lines == line_count(data),
            t <= lines,
        ensures
            t == fitting_top(data, width as nat, height as nat, lines as int),
        decreases t,
    {
        let n = line_rows(file, t - 1, width);
        proof {
            lemma_rows_of_lines_front(data, width as nat, t - 1, lines as int);
        }
        if n > height - rows {
            break;
        }
        rows = rows + n;
        t = t - 1;
    }
    if t == lines {
        lines - 1
    } else {
        t
    }
}

/// The row of the screen at which line `line` of `file` starts when `top`
/// is the top line, or `limit` if that row is not among the first `limit`
/// rows.
pub fn row_of(file: &File, top: usize, line: usize, width: usize, limit: usize) -> (row: usize)
    requires
        file.wf(),
    ensures
        row == row_of_line(file.data(), width as nat, top as int, line as int, limit as int),
{
    let lines = file.line_count();
    let end = if line <= lines {
        line
    } else {
        lines
    };
    let ghost data = file.data();
    if top >= end {
        return 0;
    }
    let mut i: usize = top;
    let mut rows: usize = 0;
    proof {
        assert(rows_of_lines(data, width as nat, top as int, top as int) == Seq::<
            Seq<Cell>,
        >::empty());
    }
    while i < end && rows < limit
        invariant
            file.wf(),
            data == file.data(),
            lines == line_count(data),
            top <= i <= end <= lines,
            rows == min_int(
                rows_of_lines(data, width as nat, top as int, i as int).len() as int,
                limit as int,
            ),
        decreases end - i,
    {
        let n = line_rows(file, i, width);
        rows = if n >= limit - rows {
            limit
        } else {
            rows + n
        };
        i = i + 1;
    }
    proof {
        lemma_rows_of_lines_prefix(data, width as nat, top as int, i as int, end as int);
    }
    rows
}

/// The line behind the last one of which a screen of `height` rows with
/// top line `top` shows a row.
pub fn shown_end(file: &File, top: usize, width: usize, height: usize) -> (end: usize)
    requires
        file.wf(),
    ensures
        end == last_needed(file.data(), width as nat, height as nat, top as int, top as int),
{
    let lines = file.line_count();
    let ghost data = file.data();
    let mut line: usize = top;
    let mut rows: usize = 0;
    proof {
        assert(rows_of_lines(data, width as nat, top as int, top as int) == Seq::<
            Seq<Cell>,
        >::empty());
    }
    while line < lines && rows < height
        invariant
            file.wf(),
            data == file.data(),
            lines == line_count(data),
            top <= line,
            line <= lines || line == top,
            rows == min_int(
                rows_of_lines(data, width as nat, top as int, line as int).len() as int,
                height as int,
            ),
            last_needed(data, width as nat, height as nat, top as int, line as int) == last_needed(
                data,
                width as nat,
                height as nat,
                top as int,
                top as int,
            ),
        decreases lines - line,
    {
        let n = line_rows(file, line, width);
        rows = if n >= height - rows {
            height
        } else {
            rows + n
        };
        line = line + 1;
    }
    line
}

/// Whether all lines of `file` together fit on a screen of `height` rows
/// at `width` columns.
pub fn fits_screen(file: &File, width: usize, height: usize) -> (fits: bool)
    requires
        file.wf(),
    ensures
        fits == (rows_of_lines(
            file.data(),
            width as nat,
            0,
            line_count(file.data()) as int,
        ).len() <= height),
{
    let lines = file.line_count();
    let ghost data = file.data();
    let mut i: usize = 0;
    let mut rows: usize = 0;
    proof {
        assert(rows_of_lines(data, width as nat, 0, 0) == Seq::<Seq<Cell>>::empty());
    }
    while i < lines
        invariant
            file.wf(),
            data == file.data(),
            lines == line_count(data),
            i <= lines,
            rows <= height,
            rows == rows_of_lines(data, width as nat, 0, i as int).len(),
        decreases lines - i,
    {
        let n = line_rows(file, i, width);
        if n > height - rows {
            proof {
                lemma_rows_of_lines_prefix(data, width as nat, 0, i + 1, lines as int);
            }
            return false;
        }
        rows = rows + n;
        i = i + 1;
    }
    true
}

} // verus!
