//! Append-only byte storage for one source.

use vstd::prelude::*;

verus! {

/// Lifecycle of a buffer.
#[derive(Debug, PartialEq, Eq)]
pub enum BufferState {
    /// The source may still deliver bytes.
    Loading,
    /// The source reached its end; the content is final.
    Ended,
    /// Reading failed; the content is final and the cause is kept for display.
    Errored(String),
}

/// A request for bytes outside the committed range.
#[derive(Debug, PartialEq, Eq)]
pub struct RangeError {
    pub start: usize,
    pub end: usize,
    pub len: usize,
}

/// The bytes committed so far by one source, together with its lifecycle.
///
/// The content only ever grows, and only while the buffer is `Loading`.
pub struct Buffer {
    data: Vec<u8>,
    state: BufferState,
}

impl View for Buffer {
    type V = Seq<u8>;

    closed spec fn view(&self) -> Seq<u8> {
        self.data@
    }
}

impl Buffer {
    /// The lifecycle flag as a specification value.
    pub closed spec fn spec_state(&self) -> BufferState {
        self.state
    }

    /// Whether more bytes may still arrive.
    pub open spec fn is_loading(&self) -> bool {
        self.spec_state() is Loading
    }

    /// An empty buffer whose source has not ended.
    pub fn new() -> (buffer: Buffer)
        ensures
            buffer@ == Seq::<u8>::empty(),
            buffer.spec_state() == BufferState::Loading,
    {
        Buffer { data: Vec::new(), state: BufferState::Loading }
    }

    /// Number of bytes committed so far.
    pub fn len(&self) -> (n: usize)
        ensures
            n == self@.len(),
    {
        self.data.len()
    }

    /// The lifecycle flag.
    pub fn state(&self) -> (state: &BufferState)
        ensures
            *state == self.spec_state(),
    {
        &self.state
    }

    /// Whether the source may still deliver bytes.
    pub fn loading(&self) -> (b: bool)
        ensures
            b == self.is_loading(),
    {
        match self.state {
            BufferState::Loading => true,
            _ => false,
        }
    }

    /// All committed bytes.
    pub fn as_slice(&self) -> (bytes: &[u8])
        ensures
            bytes@ == self@,
    {
        self.data.as_slice()
    }

    /// Commits `bytes` at the end of the buffer.
    ///
    /// Bytes are accepted only while the buffer is `Loading`; a finished
    /// buffer is left untouched and `false` is returned.
    pub fn append(&mut self, bytes: &[u8]) -> (accepted: bool)
        ensures
            accepted == old(self).is_loading(),
            final(self).spec_state() == old(self).spec_state(),
            accepted ==> final(self)@ == old(self)@ + bytes@,
            !accepted ==> final(self)@ == old(self)@,
    {
        if !self.loading() {
            return false;
        }
        let ghost before = self.data@;
        let mut i: usize = 0;
        while i < bytes.len()
            invariant
                i <= bytes.len(),
                self.data@ == before + bytes@.take(i as int),
                self.state == old(self).state,
            decreases bytes.len() - i,
        {
            self.data.push(bytes[i]);
            proof {
                assert(bytes@.take(i + 1) == bytes@.take(i as int).push(bytes@[i as int]));
            }
            i += 1;
        }
        proof {
            assert(bytes@.take(bytes.len() as int) == bytes@);
        }
        true
    }

    /// Marks the end of the stream. Returns whether the buffer was still loading.
    pub fn mark_ended(&mut self) -> (changed: bool)
        ensures
            changed == old(self).is_loading(),
            final(self)@ == old(self)@,
            changed ==> final(self).spec_state() == BufferState::Ended,
            !changed ==> final(self).spec_state() == old(self).spec_state(),
    {
        if self.loading() {
            self.state = BufferState::Ended;
            true
        } else {
            false
        }
    }

    /// Records a read failure. Returns whether the buffer was still loading;
    /// a finished buffer keeps its state and the new cause is dropped.
    pub fn mark_errored(&mut self, cause: String) -> (changed: bool)
        ensures
            changed == old(self).is_loading(),
            final(self)@ == old(self)@,
            changed ==> final(self).spec_state() == BufferState::Errored(cause),
            !changed ==> final(self).spec_state() == old(self).spec_state(),
    {
        if self.loading() {
            self.state = BufferState::Errored(cause);
            true
        } else {
            false
        }
    }

    /// Copies the bytes in `start..end`.
    ///
    /// The range must lie within the committed bytes; anything else is
    /// reported as an error and never truncated.
    pub fn read_range(&self, start: usize, end: usize) -> (result: Result<Vec<u8>, RangeError>)
        ensures
            match result {
                Ok(bytes) => start <= end <= self@.len() && bytes@ == self@.subrange(
                    start as int,
                    end as int,
                ),
                Err(e) => !(start <= end <= self@.len()) && e == (RangeError {
                    start,
                    end,
                    len: self@.len() as usize,
                }),
            },
    {
        let len = self.data.len();
        if start > end || end > len {
            return Err(RangeError { start, end, len });
        }
        let mut out: Vec<u8> = Vec::new();
        let mut i: usize = start;
        while i < end
            invariant
                start <= i <= end <= self.data@.len(),
                out@ == self.data@.subrange(start as int, i as int),
            decreases end - i,
        {
            out.push(self.data[i]);
            proof {
                assert(self.data@.subrange(start as int, i + 1) == self.data@.subrange(
                    start as int,
                    i as int,
                ).push(self.data@[i as int]));
            }
            i += 1;
        }
        Ok(out)
    }
}

} // verus!
