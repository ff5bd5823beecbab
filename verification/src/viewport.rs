//! Positions of the viewport over the lines of a file.
//!
//! The viewport is given by its top line and its height in rows. How far
//! down the top line may go depends on the file and on the screen: the
//! caller hands in `bottom`, the top line of the last screen, which is the
//! least top line from which everything down to the last line is on
//! screen.

use crate::command::Action;
use vstd::prelude::*;

verus! {

/// The smaller of two numbers.
pub open spec fn min_int(a: int, b: int) -> int {
    if a <= b {
        a
    } else {
        b
    }
}

/// The greatest top line allowed for a file of `lines` lines whose last
/// screen has the top line `bottom`.
///
/// Where scrolling past the end is allowed, the last line may be the top
/// line. Where it is not, the viewport stops at the last screen: once the
/// last line is reached it stays at the bottom.
pub open spec fn max_top(lines: int, bottom: int, scroll_past_eof: bool) -> int {
    if !scroll_past_eof {
        bottom
    } else if lines > 0 {
        lines - 1
    } else {
        0
    }
}

/// `top`, or `max` if `top` lies behind it.
pub open spec fn clamped_top(top: int, max: int) -> int {
    min_int(top, max)
}

/// Number of lines that one page moves: the height, at least 1.
pub open spec fn page_size(height: int) -> int {
    if height > 0 {
        height
    } else {
        1
    }
}

/// `top` moved up by `n` lines.
pub open spec fn raised(top: int, n: int) -> int {
    if top > n {
        top - n
    } else {
        0
    }
}

/// The top line after a scrolling action, where `max` is the greatest top
/// line allowed and `bottom` the top line of the last screen; `top` for
/// any other action.
pub open spec fn scrolled_top(top: int, action: Action, max: int, bottom: int, height: int) -> int {
    match action {
        Action::ScrollUp(n) => clamped_top(raised(top, n as int), max),
        Action::ScrollDown(n) => clamped_top(top + n, max),
        Action::PageUp => clamped_top(raised(top, page_size(height)), max),
        Action::PageDown => clamped_top(top + page_size(height), max),
        Action::Top => 0,
        Action::Bottom => clamped_top(bottom, max),
        _ => top,
    }
}

/// The top line that shows `line`, where `row` is the row at which the
/// line starts on the present screen: `top` if the line is on screen
/// already, else the line itself, as far as `max` allows.
pub open spec fn revealing_top(top: int, line: int, row: int, height: int, max: int) -> int {
    if top <= line && row < height {
        top
    } else {
        clamped_top(line, max)
    }
}

/// The greatest top line allowed.
pub fn greatest_top(lines: usize, bottom: usize, scroll_past_eof: bool) -> (top: usize)
    ensures
        top == max_top(lines as int, bottom as int, scroll_past_eof),
{
    if !scroll_past_eof {
        bottom
    } else if lines > 0 {
        lines - 1
    } else {
        0
    }
}

/// Brings `top` back into the allowed range.
pub fn clamp_top(top: usize, max: usize) -> (clamped: usize)
    ensures
        clamped == clamped_top(top as int, max as int),
{
    if top <= max {
        top
    } else {
        max
    }
}

/// `top` moved down by `n` lines, within the allowed range.
fn top_moved_down(top: usize, n: usize, max: usize) -> (moved: usize)
    ensures
        moved == clamped_top(top + n, max as int),
{
    if top >= max || n >= max - top {
        max
    } else {
        top + n
    }
}

/// `top` moved up by `n` lines, within the allowed range.
fn top_moved_up(top: usize, n: usize, max: usize) -> (moved: usize)
    ensures
        moved == clamped_top(raised(top as int, n as int), max as int),
{
    let raised = if top > n {
        top - n
    } else {
        0
    };
    clamp_top(raised, max)
}

/// The top line after `action`.
pub fn scroll(top: usize, action: Action, max: usize, bottom: usize, height: usize) -> (moved: usize)
    ensures
        moved == scrolled_top(top as int, action, max as int, bottom as int, height as int),
{
    let page = if height > 0 {
        height
    } else {
        1
    };
    match action {
        Action::ScrollUp(n) => top_moved_up(top, n, max),
        Action::ScrollDown(n) => top_moved_down(top, n, max),
        Action::PageUp => top_moved_up(top, page, max),
        Action::PageDown => top_moved_down(top, page, max),
        Action::Top => 0,
        Action::Bottom => clamp_top(bottom, max),
        _ => top,
    }
}

/// The top line that shows `line`, which starts at row `row` of the
/// present screen.
pub fn reveal_line(top: usize, line: usize, row: usize, height: usize, max: usize) -> (moved: usize)
    ensures
        moved == revealing_top(top as int, line as int, row as int, height as int, max as int),
{
    if top <= line && row < height {
        top
    } else {
        clamp_top(line, max)
    }
}

/// No scrolling action leaves the allowed range, from wherever it starts,
/// and where scrolling past the end is not allowed none goes below the
/// last screen.
pub proof fn lemma_scroll_stays_in_range(
    top: int,
    action: Action,
    lines: int,
    bottom: int,
    height: int,
    scroll_past_eof: bool,
)
    requires
        0 <= top <= max_top(lines, bottom, scroll_past_eof),
        0 <= bottom,
        lines > 0 ==> bottom < lines,
    ensures
        0 <= scrolled_top(
            top,
            action,
            max_top(lines, bottom, scroll_past_eof),
            bottom,
            height,
        ) <= max_top(lines, bottom, scroll_past_eof),
        !scroll_past_eof ==> scrolled_top(top, action, max_top(lines, bottom, false), bottom, height)
            <= bottom,
{
}

} // verus!
