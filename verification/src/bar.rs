//! The progress bar.

use crate::overstrike::{plain_cell, Cell};
use crate::viewport::min_int;
use vstd::prelude::*;

verus! {

/// The byte that fills the done part of the bar.
pub const BAR_FILL: u8 = 61;

/// Number of columns of a bar of `width` columns that stand for `done` of
/// `total`: the share of the width, rounded down. Nothing is filled where
/// the total is zero.
pub open spec fn filled_columns(done: int, total: int, width: int) -> int {
    if total <= 0 {
        0
    } else {
        (min_int(done, total) * width) / total
    }
}

/// The cells of a bar of `width` columns with its first `filled` columns
/// filled.
pub open spec fn bar_cells(filled: int, width: nat) -> Seq<Cell> {
    Seq::new(
        width,
        |i: int|
            if i < filled {
                Cell { byte: BAR_FILL, bold: true, underline: false }
            } else {
                plain_cell(32)
            },
    )
}

/// The filled part never exceeds the bar, is empty when nothing is done
/// and is the whole bar when all is done.
pub proof fn lemma_filled_columns(done: int, total: int, width: int)
    requires
        0 <= done,
        0 <= width,
    ensures
        0 <= filled_columns(done, total, width) <= width,
        done == 0 ==> filled_columns(done, total, width) == 0,
        total > 0 && done >= total ==> filled_columns(done, total, width) == width,
{
    if total > 0 {
        let part = min_int(done, total);
        assert(0 <= (part * width) / total <= width) by (nonlinear_arith)
            requires
                0 <= part <= total,
                0 < total,
                0 <= width,
        ;
        if done >= total {
            assert((total * width) / total == width) by (nonlinear_arith)
                requires
                    0 < total,
            ;
        }
        if done == 0 {
            assert((0 * width) / total == 0) by (nonlinear_arith)
                requires
                    0 < total,
            ;
        }
    }
}

/// Number of filled columns of a bar of `width` columns for `done` of
/// `total`.
pub fn bar_fill(done: usize, total: usize, width: usize) -> (filled: usize)
    ensures
        filled == filled_columns(done as int, total as int, width as int),
{
    if total == 0 {
        return 0;
    }
    let part: u128 = if done <= total {
        done as u128
    } else {
        total as u128
    };
    proof {
        lemma_filled_columns(done as int, total as int, width as int);
        assert(part * width <= 0xffff_ffff_ffff_ffff * 0xffff_ffff_ffff_ffff) by (nonlinear_arith)
            requires
                0 <= part <= 0xffff_ffff_ffff_ffff,
                0 <= width <= 0xffff_ffff_ffff_ffff,
        ;
    }
    let filled = (part * (width as u128)) / (total as u128);
    filled as usize
}

/// The row of a bar of `width` columns for `done` of `total`.
pub fn bar_row(done: usize, total: usize, width: usize) -> (row: Vec<Cell>)
    ensures
        row@ == bar_cells(filled_columns(done as int, total as int, width as int), width as nat),
{
    let filled = bar_fill(done, total, width);
    let mut row: Vec<Cell> = Vec::new();
    let mut i: usize = 0;
    while i < width
        invariant
            i <= width,
            row@ == bar_cells(filled as int, i as nat),
        decreases width - i,
    {
        let cell = if i < filled {
            Cell { byte: BAR_FILL, bold: true, underline: false }
        } else {
            Cell { byte: 32, bold: false, underline: false }
        };
        row.push(cell);
        proof {
            assert(row@ =~= bar_cells(filled as int, (i + 1) as nat));
        }
        i += 1;
    }
    row
}

} // verus!
