//! The status line: title, position and percentage.

use crate::overstrike::{plain_cell, Cell};
use crate::parse::{digits, format_decimal};
use crate::viewport::min_int;
use vstd::prelude::*;

verus! {

/// How much of a file of `lines` lines has been seen when `last` is the
/// number of its last line on screen, in percent. An empty file counts as
/// seen.
pub open spec fn percent_seen(last: int, lines: int) -> int {
    if lines <= 0 {
        100
    } else {
        min_int(100, (min_int(last, lines) * 100) / lines)
    }
}

/// The text of the status line: the title, the numbers of the first and
/// the last line on screen, the number of lines, and the percentage seen.
/// A file that is still loading has `+` behind its number of lines.
pub open spec fn ruler_text(title: Seq<u8>, first: nat, last: nat, lines: nat, loading: bool) -> Seq<
    u8,
> {
    title + seq![32u8] + digits(first) + seq![45u8] + digits(last) + seq![47u8] + digits(lines) + (
    if loading {
        seq![43u8]
    } else {
        Seq::<u8>::empty()
    }) + seq![32u8] + digits(percent_seen(last as int, lines as int) as nat) + seq![37u8]
}

/// `text` as a row of exactly `width` plain cells: cut where it is too
/// long, filled with blanks where it is too short.
pub open spec fn status_row(text: Seq<u8>, width: nat) -> Seq<Cell> {
    Seq::new(
        width,
        |i: int|
            if i < text.len() {
                plain_cell(text[i])
            } else {
                plain_cell(32)
            },
    )
}

/// The percentage seen lies between 0 and 100, and is 100 once the last
/// line is on screen.
pub proof fn lemma_percent_seen(last: int, lines: int)
    requires
        0 <= last,
    ensures
        0 <= percent_seen(last, lines) <= 100,
        last >= lines ==> percent_seen(last, lines) == 100,
{
    if lines > 0 {
        let shown = min_int(last, lines);
        assert(0 <= (shown * 100) / lines) by (nonlinear_arith)
            requires
                0 <= shown,
                0 < lines,
        ;
        if last >= lines {
            assert((lines * 100) / lines == 100) by (nonlinear_arith)
                requires
                    0 < lines,
            ;
        }
    }
}

/// How much of the file has been seen, in percent.
pub fn percent(last: usize, lines: usize) -> (seen: usize)
    ensures
        seen == percent_seen(last as int, lines as int),
{
    if lines == 0 {
        return 100;
    }
    let shown: u128 = if last <= lines {
        last as u128
    } else {
        lines as u128
    };
    let value = (shown * 100) / (lines as u128);
    if value >= 100 {
        100
    } else {
        value as usize
    }
}

/// Appends `more` to `text`.
pub(crate) fn append(text: &mut Vec<u8>, more: &[u8])
    ensures
        final(text)@ == old(text)@ + more@,
{
    let mut i: usize = 0;
    proof {
        assert(text@ == old(text)@ + more@.take(0));
    }
    while i < more.len()
        invariant
            i <= more@.len(),
            text@ == old(text)@ + more@.take(i as int),
        decreases more@.len() - i,
    {
        proof {
            assert(more@.take(i + 1) == more@.take(i as int).push(more@[i as int]));
            assert((old(text)@ + more@.take(i as int)).push(more@[i as int]) == old(text)@
                + more@.take(i + 1));
        }
        text.push(more[i]);
        i += 1;
    }
    proof {
        assert(more@.take(more@.len() as int) == more@);
    }
}

/// The text of the status line for a file titled `title` with `lines`
/// lines, of which those numbered `first` to `last` are on screen.
pub fn ruler(title: &[u8], first: usize, last: usize, lines: usize, loading: bool) -> (text: Vec<u8>)
    ensures
        text@ == ruler_text(title@, first as nat, last as nat, lines as nat, loading),
{
    let mut text: Vec<u8> = Vec::new();
    append(&mut text, title);
    text.push(32);
    append(&mut text, format_decimal(first).as_slice());
    text.push(45);
    append(&mut text, format_decimal(last).as_slice());
    text.push(47);
    append(&mut text, format_decimal(lines).as_slice());
    if loading {
        text.push(43);
    }
    text.push(32);
    append(&mut text, format_decimal(percent(last, lines)).as_slice());
    text.push(37);
    proof {
        assert(text@ =~= ruler_text(title@, first as nat, last as nat, lines as nat, loading));
    }
    text
}

/// `text` as a row of exactly `width` plain cells.
pub fn status_cells(text: &[u8], width: usize) -> (row: Vec<Cell>)
    ensures
        row@ == status_row(text@, width as nat),
{
    let mut row: Vec<Cell> = Vec::new();
    let mut i: usize = 0;
    while i < width
        invariant
            i <= width,
            row@ == status_row(text@, i as nat),
        decreases width - i,
    {
        let byte = if i < text.len() {
            text[i]
        } else {
            32
        };
        row.push(Cell { byte, bold: false, underline: false });
        proof {
            assert(row@ =~= status_row(text@, (i + 1) as nat));
        }
        i += 1;
    }
    row
}

} // verus!
