//! The bottom row of the screen.
//!
//! The row shows, in this order of precedence: the open prompt; the
//! progress bar, while progress is reported and not complete; the cause of
//! the failure of the file on screen; the ruler.

use crate::bar::{bar_cells, bar_row, filled_columns};
use crate::buffer::BufferState;
use crate::display::{Display, DisplayView, Mode};
use crate::file::{File, FileInfo};
use crate::line_index::line_count;
use crate::overstrike::Cell;
use crate::progress::{Progress, ProgressView};
use crate::ruler::{append, ruler, ruler_text, status_cells, status_row};
use crate::screen::{last_needed, shown_end};
use crate::viewport::min_int;
use vstd::prelude::*;
use vstd::utf8::encode_utf8;

verus! {

/// The label before the pattern of a search.
pub open spec fn search_label() -> Seq<u8> {
    encode_utf8("Search: "@)
}

/// The label before a line number.
pub open spec fn line_label() -> Seq<u8> {
    encode_utf8("Go to line: "@)
}

/// What stands between a title and the cause of a failure.
pub open spec fn cause_separator() -> Seq<u8> {
    encode_utf8(": "@)
}

/// The number of the last line on screen as the ruler shows it: the last
/// line of which the screen shows a row.
pub open spec fn last_shown(d: DisplayView, data: Seq<u8>) -> int {
    min_int(
        last_needed(data, d.width as nat, d.height as nat, d.top_line as int, d.top_line as int),
        line_count(data) as int,
    )
}

/// The number of the first line on screen as the ruler shows it: lines
/// are counted from 1, and an empty screen shows the number of the last
/// line before it.
pub open spec fn first_shown(d: DisplayView, data: Seq<u8>) -> int {
    if min_int(d.top_line as int, line_count(data) as int) < last_shown(d, data) {
        min_int(d.top_line as int, line_count(data) as int) + 1
    } else {
        min_int(d.top_line as int, line_count(data) as int)
    }
}

/// The bottom row for the state `d` with `prompt_text` in the prompt, a
/// file with identity `info`, bytes `data` and lifecycle `state` on
/// screen, and `progress` reported last.
pub open spec fn status_of(
    d: DisplayView,
    prompt_text: Seq<u8>,
    info: FileInfo,
    data: Seq<u8>,
    state: BufferState,
    progress: Option<ProgressView>,
) -> Seq<Cell> {
    let width = d.width as nat;
    let title = encode_utf8(info.title@);
    match d.mode {
        Mode::Searching => status_row(search_label() + prompt_text, width),
        Mode::Prompting => status_row(line_label() + prompt_text, width),
        _ => match (progress, state) {
            (Some(p), _) if p.done < p.total => bar_cells(
                filled_columns(p.done as int, p.total as int, d.width as int),
                width,
            ),
            (_, BufferState::Errored(cause)) => status_row(
                title + cause_separator() + encode_utf8(cause@),
                width,
            ),
            _ => status_row(
                ruler_text(
                    title,
                    first_shown(d, data) as nat,
                    last_shown(d, data) as nat,
                    line_count(data),
                    state is Loading,
                ),
                width,
            ),
        },
    }
}

/// The cells of the bottom row.
pub fn status_line(display: &Display, file: &File, progress: &Progress) -> (row: Vec<Cell>)
    requires
        display.wf(),
        file.wf(),
    ensures
        row@ == status_of(
            display@,
            display.prompt()@.text,
            file.spec_info(),
            file.data(),
            file.state(),
            progress@,
        ),
{
    let (width, height) = display.size();
    match display.mode() {
        Mode::Searching => {
            let mut text: Vec<u8> = Vec::new();
            append(&mut text, "Search: ".as_bytes());
            append(&mut text, display.prompt_text().as_slice());
            status_cells(text.as_slice(), width)
        },
        Mode::Prompting => {
            let mut text: Vec<u8> = Vec::new();
            append(&mut text, "Go to line: ".as_bytes());
            append(&mut text, display.prompt_text().as_slice());
            status_cells(text.as_slice(), width)
        },
        _ => {
            if let Some(update) = progress.latest() {
                if update.done < update.total {
                    return bar_row(update.done, update.total, width);
                }
            }
            let title = file.info().title.as_str().as_bytes();
            if let BufferState::Errored(cause) = file.buffer().state() {
                let mut text: Vec<u8> = Vec::new();
                append(&mut text, title);
                append(&mut text, ": ".as_bytes());
                append(&mut text, cause.as_str().as_bytes());
                return status_cells(text.as_slice(), width);
            }
            let lines = file.line_count();
            let top = display.state().top_line;
            let first = if top <= lines {
                top
            } else {
                lines
            };
            let needed = shown_end(file, top, width, height);
            let end = if needed <= lines {
                needed
            } else {
                lines
            };
            let shown = if first < end {
                first + 1
            } else {
                first
            };
            let text = ruler(title, shown, end, lines, file.loading());
            status_cells(text.as_slice(), width)
        },
    }
}

} // verus!
