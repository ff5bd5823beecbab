//! Searching the lines of a file for a pattern.
//!
//! The pattern is a literal byte string. It is matched against the decoded
//! text of a line, so emphasis encoded by overstriking does not hide a
//! match. An empty pattern matches nowhere.

use crate::file::{File, LineLookup};
use crate::line_index::{line_count, line_text};
use crate::overstrike::{cells_text, decoded, text_of};
use vstd::prelude::*;

verus! {

/// The direction of a search.
#[derive(Clone, Copy, Debug, PartialEq, Eq, Structural)]
pub enum Direction {
    Forward,
    Backward,
}

/// One occurrence of the pattern.
#[derive(Clone, Copy, Debug, PartialEq, Eq, Structural)]
pub struct Match {
    /// Index of the file.
    pub file: usize,
    /// Line number.
    pub line: usize,
    /// Offset of the first matching cell in the decoded line.
    pub start: usize,
    /// Offset one past the last matching cell.
    pub end: usize,
}

/// What a search found.
#[derive(Clone, Copy, Debug, PartialEq, Eq, Structural)]
pub enum SearchOutcome {
    /// The nearest occurrence in the direction of the search.
    Found(Match),
    /// No occurrence in the lines known so far; the source is still
    /// loading and lines ahead may yet hold one.
    NoMatchYet,
    /// No occurrence, and none can appear.
    NoMatch,
}

/// Whether `pattern` occurs in `text` at offset `at`.
pub open spec fn matches_at(text: Seq<u8>, pattern: Seq<u8>, at: int) -> bool {
    &&& pattern.len() > 0
    &&& 0 <= at
    &&& at + pattern.len() <= text.len()
    &&& text.subrange(at, at + pattern.len()) == pattern
}

/// The decoded text of line `line`.
pub open spec fn decoded_text(data: Seq<u8>, line: int) -> Seq<u8> {
    cells_text(decoded(line_text(data, line)))
}

/// Whether `pattern` occurs in line `line` of `data` at offset `at`.
pub open spec fn is_match(data: Seq<u8>, pattern: Seq<u8>, line: int, at: int) -> bool {
    0 <= line < line_count(data) && matches_at(decoded_text(data, line), pattern, at)
}

/// Whether position (`line`, `at`) is (`line0`, `at0`) or lies behind it.
pub open spec fn at_or_after(line: int, at: int, line0: int, at0: int) -> bool {
    line > line0 || (line == line0 && at >= at0)
}

/// Whether position (`line`, `at`) is (`line0`, `at0`) or lies before it.
pub open spec fn at_or_before(line: int, at: int, line0: int, at0: int) -> bool {
    line < line0 || (line == line0 && at <= at0)
}

/// Whether (`line`, `at`) lies on the searched side of the start position.
pub open spec fn in_scope(
    direction: Direction,
    line: int,
    at: int,
    line0: int,
    at0: int,
) -> bool {
    match direction {
        Direction::Forward => at_or_after(line, at, line0, at0),
        Direction::Backward => at_or_before(line, at, line0, at0),
    }
}

/// Whether `m` is the occurrence nearest to the start position (`line0`,
/// `at0`) in the given direction.
pub open spec fn is_nearest_match(
    data: Seq<u8>,
    pattern: Seq<u8>,
    direction: Direction,
    line0: int,
    at0: int,
    m: Match,
) -> bool {
    &&& is_match(data, pattern, m.line as int, m.start as int)
    &&& m.end == m.start + pattern.len()
    &&& in_scope(direction, m.line as int, m.start as int, line0, at0)
    &&& forall|l: int, a: int|
        #[trigger] is_match(data, pattern, l, a) && in_scope(direction, l, a, line0, at0)
            ==> in_scope(direction, l, a, m.line as int, m.start as int)
}

/// Whether no occurrence lies on the searched side of the start position.
pub open spec fn no_match_in_scope(
    data: Seq<u8>,
    pattern: Seq<u8>,
    direction: Direction,
    line0: int,
    at0: int,
) -> bool {
    forall|l: int, a: int| #[trigger]
        is_match(data, pattern, l, a) ==> !in_scope(direction, l, a, line0, at0)
}

/// Whether `found` is the answer to a search: the nearest occurrence in
/// file `file`, or nothing where there is none.
pub open spec fn found_is_nearest(
    data: Seq<u8>,
    pattern: Seq<u8>,
    direction: Direction,
    line0: int,
    at0: int,
    file: usize,
    found: Option<Match>,
) -> bool {
    match found {
        Some(m) => m.file == file && is_nearest_match(data, pattern, direction, line0, at0, m),
        None => no_match_in_scope(data, pattern, direction, line0, at0),
    }
}

/// Whether `outcome` is the answer to a search of a file with bytes
/// `data` and index `file` that starts at (`line0`, `at0`).
pub open spec fn search_answers(
    data: Seq<u8>,
    loading: bool,
    file: usize,
    pattern: Seq<u8>,
    direction: Direction,
    line0: int,
    at0: int,
    outcome: SearchOutcome,
) -> bool {
    match outcome {
        SearchOutcome::Found(m) => m.file == file && is_nearest_match(
            data,
            pattern,
            direction,
            line0,
            at0,
            m,
        ),
        SearchOutcome::NoMatchYet => direction == Direction::Forward && loading
            && no_match_in_scope(data, pattern, direction, line0, at0),
        SearchOutcome::NoMatch => !(direction == Direction::Forward && loading)
            && no_match_in_scope(data, pattern, direction, line0, at0),
    }
}

/// The occurrence that an outcome holds, if any.
pub open spec fn match_of(outcome: SearchOutcome) -> Option<Match> {
    match outcome {
        SearchOutcome::Found(m) => Some(m),
        _ => None,
    }
}

/// The opposite direction.
pub open spec fn opposite(direction: Direction) -> Direction {
    match direction {
        Direction::Forward => Direction::Backward,
        Direction::Backward => Direction::Forward,
    }
}

/// The opposite direction.
pub fn reversed(direction: Direction) -> (other: Direction)
    ensures
        other == opposite(direction),
{
    match direction {
        Direction::Forward => Direction::Backward,
        Direction::Backward => Direction::Forward,
    }
}

/// Whether `pattern` occurs in `text` at `at`.
pub fn matches_here(text: &[u8], pattern: &[u8], at: usize) -> (found: bool)
    ensures
        found == matches_at(text@, pattern@, at as int),
{
    let m = pattern.len();
    let n = text.len();
    if m == 0 || at > n || n - at < m {
        return false;
    }
    let mut k: usize = 0;
    while k < m
        invariant
            m == pattern@.len(),
            n == text@.len(),
            at + m <= n,
            k <= m,
            forall|j: int| 0 <= j < k ==> text@[at + j] == pattern@[j],
        decreases m - k,
    {
        if text[at + k] != pattern[k] {
            proof {
                assert(text@.subrange(at as int, at + m)[k as int] == text@[at + k]);
            }
            return false;
        }
        k += 1;
    }
    proof {
        assert(text@.subrange(at as int, at + m) =~= pattern@);
    }
    true
}

/// The first offset at or behind `from` at which `pattern` occurs in
/// `text`.
pub fn find_forward_in(text: &[u8], pattern: &[u8], from: usize) -> (found: Option<usize>)
    ensures
        match found {
            Some(at) => from <= at && matches_at(text@, pattern@, at as int) && forall|k: int|
                from <= k < at ==> !matches_at(text@, pattern@, k),
            None => forall|k: int| from <= k ==> !matches_at(text@, pattern@, k),
        },
{
    let n = text.len();
    let mut at: usize = from;
    while at < n
        invariant
            n == text@.len(),
            from <= at,
            forall|k: int| from <= k < at ==> !matches_at(text@, pattern@, k),
        decreases n - at,
    {
        if matches_here(text, pattern, at) {
            return Some(at);
        }
        at += 1;
    }
    None
}

/// The last offset at or before `upto` at which `pattern` occurs in
/// `text`.
pub fn find_backward_in(text: &[u8], pattern: &[u8], upto: usize) -> (found: Option<usize>)
    ensures
        match found {
            Some(at) => at <= upto && matches_at(text@, pattern@, at as int) && forall|k: int|
                at < k <= upto ==> !matches_at(text@, pattern@, k),
            None => forall|k: int| k <= upto ==> !matches_at(text@, pattern@, k),
        },
{
    let n = text.len();
    if n == 0 {
        return None;
    }
    let mut at: usize = if upto < n {
        upto
    } else {
        n - 1
    };
    loop
        invariant
            n == text@.len(),
            at < n,
            at <= upto,
            forall|k: int| at < k <= upto ==> !matches_at(text@, pattern@, k),
        decreases at,
    {
        if matches_here(text, pattern, at) {
            return Some(at);
        }
        if at == 0 {
            return None;
        }
        at -= 1;
    }
}

/// Searches the lines of `file` for `pattern`, starting at offset
/// `start_offset` of line `start_line` and moving line by line in the
/// given direction.
///
/// The result is the occurrence nearest to the start position, the start
/// position included. Without one, a forward search of a source that is
/// still loading reports `NoMatchYet`; every other search reports
/// `NoMatch`.
pub fn find(
    file: &File,
    start_line: usize,
    start_offset: usize,
    pattern: &[u8],
    direction: Direction,
) -> (outcome: SearchOutcome)
    requires
        file.wf(),
    ensures
        search_answers(
            file.data(),
            file.is_loading(),
            file.spec_info().index,
            pattern@,
            direction,
            start_line as int,
            start_offset as int,
            outcome,
        ),
        match_of(outcome) matches Some(m) ==> m.start < m.end,
{
    let n = file.line_count();
    let id = file.info().index;
    let ghost data = file.data();
    let mut found: Option<Match> = None;
    match direction {
        Direction::Forward => {
            let mut line: usize = start_line;
            let mut from: usize = start_offset;
            while line < n
                invariant_except_break
                    found is None,
                    at_or_after(line as int, from as int, start_line as int, start_offset as int),
                    forall|l: int, a: int|
                        #[trigger] is_match(data, pattern@, l, a) && at_or_after(
                            l,
                            a,
                            start_line as int,
                            start_offset as int,
                        ) ==> at_or_after(l, a, line as int, from as int),
                invariant
                    file.wf(),
                    data == file.data(),
                    n == line_count(data),
                    id == file.spec_info().index,
                    direction == Direction::Forward,
                ensures
                    found_is_nearest(
                        data,
                        pattern@,
                        direction,
                        start_line as int,
                        start_offset as int,
                        id,
                        found,
                    ),
                decreases n - line,
            {
                if let LineLookup::Found(cells) = file.cells(line) {
                    let text = text_of(&cells);
                    let len = text.len();
                    if let Some(at) = find_forward_in(text.as_slice(), pattern, from) {
                        assert(at + pattern@.len() <= len);
                        found = Some(Match { file: id, line, start: at, end: at + pattern.len() });
                        break;
                    }
                }
                line += 1;
                from = 0;
            }
        },
        Direction::Backward => {
            if n > 0 {
                let mut line: usize = if start_line < n {
                    start_line
                } else {
                    n - 1
                };
                let mut upto: usize = start_offset;
                let mut whole: bool = start_line >= n;
                loop
                    invariant_except_break
                        found is None,
                        line <= start_line,
                        whole ==> line < start_line,
                        !whole ==> line == start_line && upto == start_offset,
                        forall|l: int, a: int|
                            #[trigger] is_match(data, pattern@, l, a) && at_or_before(
                                l,
                                a,
                                start_line as int,
                                start_offset as int,
                            ) ==> l < line || (l == line && (whole || a <= upto)),
                    invariant
                        file.wf(),
                        data == file.data(),
                        n == line_count(data),
                        id == file.spec_info().index,
                        direction == Direction::Backward,
                        line < n,
                    ensures
                        found_is_nearest(
                            data,
                            pattern@,
                            direction,
                            start_line as int,
                            start_offset as int,
                            id,
                            found,
                        ),
                    decreases line,
                {
                    if let LineLookup::Found(cells) = file.cells(line) {
                        let text = text_of(&cells);
                        let len = text.len();
                        let bound = if whole {
                            len
                        } else {
                            upto
                        };
                        if let Some(at) = find_backward_in(text.as_slice(), pattern, bound) {
                            assert(at + pattern@.len() <= len);
                            found =
                            Some(Match { file: id, line, start: at, end: at + pattern.len() });
                            break;
                        }
                    }
                    if line == 0 {
                        break;
                    }
                    line -= 1;
                    whole = true;
                }
            }
        },
    }
    match found {
        Some(m) => SearchOutcome::Found(m),
        None => match direction {
            Direction::Forward => if file.loading() {
                SearchOutcome::NoMatchYet
            } else {
                SearchOutcome::NoMatch
            },
            Direction::Backward => SearchOutcome::NoMatch,
        },
    }
}

} // verus!
