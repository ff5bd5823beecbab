//! The events of the main loop and the queue that orders them.

use crate::command::KeyEvent;
use std::collections::VecDeque;
use vstd::prelude::*;

verus! {

/// What a mouse did.
#[derive(Clone, Copy, Debug, PartialEq, Eq, Structural)]
pub enum MouseKind {
    WheelUp,
    WheelDown,
    Press,
    Release,
}

/// Something the main loop has to react to.
#[derive(Debug, PartialEq, Eq)]
pub enum Event {
    /// A key was pressed.
    Key(KeyEvent),
    /// The terminal has a new size, in columns and rows.
    Resize(usize, usize),
    /// The mouse was used at the given row and column.
    Mouse(MouseKind, usize, usize),
    /// New bytes were committed to the buffer of the given file.
    DataAvailable(usize),
    /// The source of the given file has ended.
    StreamEnded(usize),
    /// Reading the source of the given file has failed for the given
    /// cause.
    StreamErrored(usize, String),
    /// The progress indicator has changed.
    ProgressUpdate,
}

/// The events that wait to be handled, in the order of their arrival.
///
/// Every producer pushes at the back and the main loop pops at the front.
/// Nothing is dropped and nothing is merged.
pub struct EventQueue {
    events: VecDeque<Event>,
}

impl View for EventQueue {
    type V = Seq<Event>;

    closed spec fn view(&self) -> Seq<Event> {
        self.events@
    }
}

impl EventQueue {
    /// An empty queue.
    pub fn new() -> (queue: EventQueue)
        ensures
            queue@ == Seq::<Event>::empty(),
    {
        EventQueue { events: VecDeque::new() }
    }

    /// Number of waiting events.
    pub fn len(&self) -> (n: usize)
        ensures
            n == self@.len(),
    {
        self.events.len()
    }

    /// Appends `event` behind every waiting event.
    pub fn push(&mut self, event: Event)
        ensures
            final(self)@ == old(self)@.push(event),
    {
        self.events.push_back(event);
    }

    /// Takes the event that has waited longest, if any waits.
    pub fn pop(&mut self) -> (event: Option<Event>)
        ensures
            match event {
                Some(e) => old(self)@.len() > 0 && e == old(self)@[0] && final(self)@ == old(
                    self,
                )@.drop_first(),
                None => old(self)@.len() == 0 && final(self)@ == old(self)@,
            },
    {
        let event = self.events.pop_front();
        proof {
            if old(self)@.len() > 0 {
                assert(self.events@ == old(self)@.drop_first());
            }
        }
        event
    }
}

/// Events leave the queue in the order in which they entered it: after
/// the events of `pushed` were pushed one by one onto `queue`, the first
/// `queue.len()` pops yield the events that waited before, and the next
/// pops yield those of `pushed`, in their order.
pub proof fn lemma_queue_is_fifo(queue: Seq<Event>, pushed: Seq<Event>, k: int)
    requires
        0 <= k < queue.len() + pushed.len(),
    ensures
        (queue + pushed)[k] == if k < queue.len() {
            queue[k]
        } else {
            pushed[k - queue.len()]
        },
{
}

} // verus!
