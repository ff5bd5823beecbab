//! What the reader of a source does with the outcome of each read.
//!
//! The reader itself runs outside, one for each source: it reads, hands
//! the outcome to `on_read`, sends the event that `on_read` returns, and
//! reads again as long as `on_read` says so.

use crate::buffer::BufferState;
use crate::event::Event;
use crate::file::File;
use crate::line_index::terminated_lines;
use vstd::prelude::*;
use vstd::string::StringExecFns;

verus! {

/// The outcome of one read from a source.
#[derive(Debug, PartialEq, Eq)]
pub enum ReadOutcome {
    /// The bytes that were read.
    Data(Vec<u8>),
    /// The source has no more bytes.
    End,
    /// Reading failed for the given cause.
    Failed(String),
}

/// What the reader has to do after a read.
#[derive(Debug, PartialEq, Eq)]
pub struct ReaderStep {
    /// The event to send to the main loop, if any.
    pub event: Option<Event>,
    /// Whether to read again.
    pub go_on: bool,
}

/// The cause recorded for a source whose bytes no longer fit in memory.
pub open spec fn too_large() -> Seq<char> {
    "the stream is too large"@
}

/// Whether `post` is `pre` with nothing changed but, possibly, its bytes,
/// its lifecycle and its cached layouts.
pub open spec fn same_file(pre: File, post: File) -> bool {
    &&& post.spec_info() == pre.spec_info()
    &&& post.width() == pre.width()
    &&& post.decode_count() == pre.decode_count()
}

/// Whether `post` and `step` are what the outcome of a read leads to from
/// the file `pre`.
///
/// A finished file takes nothing more and the reader stops. Bytes are
/// committed and announced, and the reader goes on; a read without bytes
/// changes nothing. Bytes that no longer fit make the source fail. The
/// end of the source and a failure are recorded and announced, and the
/// reader stops. A failure is never tried again.
pub open spec fn read_step(pre: File, post: File, outcome: ReadOutcome, step: ReaderStep) -> bool {
    let index = pre.spec_info().index;
    if !pre.is_loading() {
        &&& post.data() == pre.data()
        &&& post.state() == pre.state()
        &&& post.cached() == pre.cached()
        &&& step == (ReaderStep { event: None, go_on: false })
    } else {
        match outcome {
            ReadOutcome::Data(bytes) => if bytes@.len() == 0 {
                &&& post.data() == pre.data()
                &&& post.state() == pre.state()
                &&& post.cached() == pre.cached()
                &&& step == (ReaderStep { event: None, go_on: true })
            } else if pre.data().len() + bytes@.len() <= usize::MAX {
                &&& post.data() == pre.data() + bytes@
                &&& post.state() == pre.state()
                &&& post.cached() == pre.cached().remove(terminated_lines(pre.data()) as usize)
                &&& step == (ReaderStep { event: Some(Event::DataAvailable(index)), go_on: true })
            } else {
                &&& post.data() == pre.data()
                &&& post.cached() == pre.cached()
                &&& post.state() matches BufferState::Errored(cause) && cause@ == too_large()
                &&& !step.go_on
                &&& step.event matches Some(Event::StreamErrored(i, cause)) && i == index
                    && cause@ == too_large()
            },
            ReadOutcome::End => {
                &&& post.data() == pre.data()
                &&& post.state() == BufferState::Ended
                &&& post.cached() == pre.cached()
                &&& step == (ReaderStep { event: Some(Event::StreamEnded(index)), go_on: false })
            },
            ReadOutcome::Failed(cause) => {
                &&& post.data() == pre.data()
                &&& post.state() == BufferState::Errored(cause)
                &&& post.cached() == pre.cached()
                &&& step == (ReaderStep {
                    event: Some(Event::StreamErrored(index, cause)),
                    go_on: false,
                })
            },
        }
    }
}

/// Takes the outcome of one read from the source of `file`.
pub fn on_read(file: &mut File, outcome: ReadOutcome) -> (step: ReaderStep)
    requires
        old(file).wf(),
    ensures
        final(file).wf(),
        same_file(*old(file), *final(file)),
        read_step(*old(file), *final(file), outcome, step),
{
    if !file.loading() {
        return ReaderStep { event: None, go_on: false };
    }
    let index = file.info().index;
    match outcome {
        ReadOutcome::Data(bytes) => {
            if bytes.len() == 0 {
                ReaderStep { event: None, go_on: true }
            } else if file.append(bytes.as_slice()) {
                ReaderStep { event: Some(Event::DataAvailable(index)), go_on: true }
            } else {
                file.fail(String::from_str("the stream is too large"));
                ReaderStep {
                    event: Some(
                        Event::StreamErrored(index, String::from_str("the stream is too large")),
                    ),
                    go_on: false,
                }
            }
        },
        ReadOutcome::End => {
            file.end();
            ReaderStep { event: Some(Event::StreamEnded(index)), go_on: false }
        },
        ReadOutcome::Failed(cause) => {
            let told = cause.clone();
            file.fail(cause);
            ReaderStep { event: Some(Event::StreamErrored(index, told)), go_on: false }
        },
    }
}

} // verus!
