//! The progress indicator and the protocol that feeds it.
//!
//! Progress arrives as lines of text. A line reads `DONE/TOTAL`, two
//! decimal numbers with `DONE` not above `TOTAL` and `TOTAL` not zero,
//! optionally followed by one space and a label that runs to the end of
//! the line. Any other line is ignored.

use crate::parse::{decimal_value, is_decimal, parse_decimal};
use vstd::prelude::*;
use vstd::slice::{slice_subrange, slice_to_vec};

verus! {

/// The byte between `DONE` and `TOTAL`.
pub const SLASH: u8 = 47;

/// The byte before the label.
pub const SPACE: u8 = 32;

/// One report of progress.
#[derive(Debug, PartialEq, Eq)]
pub struct ProgressUpdate {
    pub done: usize,
    pub total: usize,
    pub label: Vec<u8>,
}

/// One report of progress, as a mathematical value.
pub struct ProgressView {
    pub done: nat,
    pub total: nat,
    pub label: Seq<u8>,
}

impl View for ProgressUpdate {
    type V = ProgressView;

    open spec fn view(&self) -> ProgressView {
        ProgressView { done: self.done as nat, total: self.total as nat, label: self.label@ }
    }
}

/// The offset of the first `b` in `s` at or behind `i`, or the length of
/// `s` if there is none.
pub open spec fn index_of(s: Seq<u8>, b: u8, i: int) -> int
    decreases s.len() - i,
{
    if i < 0 || i >= s.len() {
        s.len() as int
    } else if s[i] == b {
        i
    } else {
        index_of(s, b, i + 1)
    }
}

/// What a line of the protocol reports, or `None` for a malformed line.
pub open spec fn parsed_progress(line: Seq<u8>) -> Option<ProgressView> {
    let slash = index_of(line, SLASH, 0);
    let space = index_of(line, SPACE, slash + 1);
    let done = line.subrange(0, slash);
    let total = line.subrange(slash + 1, space);
    if slash < line.len() && is_decimal(done) && is_decimal(total) && decimal_value(total) > 0
        && decimal_value(done) <= decimal_value(total) {
        Some(
            ProgressView {
                done: decimal_value(done),
                total: decimal_value(total),
                label: if space < line.len() {
                    line.subrange(space + 1, line.len() as int)
                } else {
                    Seq::empty()
                },
            },
        )
    } else {
        None
    }
}

/// The first `b` behind `i` lies between `i` and the end of `s`.
pub proof fn lemma_index_of_bounds(s: Seq<u8>, b: u8, i: int)
    requires
        0 <= i <= s.len(),
    ensures
        i <= index_of(s, b, i) <= s.len(),
    decreases s.len() - i,
{
    if i < s.len() && s[i] != b {
        lemma_index_of_bounds(s, b, i + 1);
    }
}

/// The offset of the first `b` in `s` at or behind `from`, or the length
/// of `s` if there is none.
pub fn find_byte(s: &[u8], b: u8, from: usize) -> (at: usize)
    ensures
        at == index_of(s@, b, from as int),
{
    let n = s.len();
    let mut i: usize = from;
    while i < n && s[i] != b
        invariant
            n == s@.len(),
            from <= i,
            index_of(s@, b, i as int) == index_of(s@, b, from as int),
        decreases n - i,
    {
        i += 1;
    }
    if i < n {
        i
    } else {
        n
    }
}

/// Reads one line of the protocol.
pub fn parse_progress(line: &[u8]) -> (update: Option<ProgressUpdate>)
    ensures
        match update {
            Some(u) => parsed_progress(line@) == Some(u@),
            None => parsed_progress(line@) is None,
        },
{
    let n = line.len();
    let slash = find_byte(line, SLASH, 0);
    if slash >= n {
        return None;
    }
    let space = find_byte(line, SPACE, slash + 1);
    proof {
        lemma_index_of_bounds(line@, SPACE, slash + 1);
    }
    let done = match parse_decimal(slice_subrange(line, 0, slash)) {
        Some(done) => done,
        None => {
            return None;
        },
    };
    let total = match parse_decimal(slice_subrange(line, slash + 1, space)) {
        Some(total) => total,
        None => {
            return None;
        },
    };
    if total == 0 || done > total {
        return None;
    }
    let label = if space < n {
        slice_to_vec(slice_subrange(line, space + 1, n))
    } else {
        Vec::new()
    };
    Some(ProgressUpdate { done, total, label })
}

/// The progress reported last.
pub struct Progress {
    latest: Option<ProgressUpdate>,
}

impl View for Progress {
    type V = Option<ProgressView>;

    closed spec fn view(&self) -> Option<ProgressView> {
        match self.latest {
            Some(u) => Some(u@),
            None => None,
        }
    }
}

impl Progress {
    /// No progress reported yet.
    pub fn new() -> (progress: Progress)
        ensures
            progress@ is None,
    {
        Progress { latest: None }
    }

    /// Takes one line of the protocol. A well-formed line replaces the
    /// progress reported last; a malformed one changes nothing. Returns
    /// whether the line was well-formed.
    pub fn feed_line(&mut self, line: &[u8]) -> (accepted: bool)
        ensures
            accepted == parsed_progress(line@) is Some,
            final(self)@ == if accepted {
                parsed_progress(line@)
            } else {
                old(self)@
            },
    {
        match parse_progress(line) {
            Some(update) => {
                self.latest = Some(update);
                true
            },
            None => false,
        }
    }

    /// The progress reported last, if any.
    pub fn latest(&self) -> (latest: Option<&ProgressUpdate>)
        ensures
            match latest {
                Some(u) => self@ == Some(u@),
                None => self@ is None,
            },
    {
        self.latest.as_ref()
    }
}

} // verus!
