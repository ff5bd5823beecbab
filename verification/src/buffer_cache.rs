//! Accounting of the bytes held by all open buffers.
//!
//! The table records the length of each buffer as it was reported last.
//! Nothing is ever evicted: every buffer keeps all its bytes, and a
//! recorded length never goes down.

use vstd::prelude::*;

verus! {

/// The sum of `lengths`.
pub open spec fn total_of(lengths: Seq<usize>) -> nat
    decreases lengths.len(),
{
    if lengths.len() == 0 {
        0
    } else {
        total_of(lengths.drop_last()) + lengths.last() as nat
    }
}

/// `lengths` with entry `index` raised to `len`. Entries that are missing
/// up to `index` count as 0, and an entry is never lowered.
pub open spec fn with_length(lengths: Seq<usize>, index: int, len: usize) -> Seq<usize> {
    Seq::new(
        if index < lengths.len() {
            lengths.len()
        } else {
            (index + 1) as nat
        },
        |i: int|
            if i == index {
                if i < lengths.len() && lengths[i] > len {
                    lengths[i]
                } else {
                    len
                }
            } else if i < lengths.len() {
                lengths[i]
            } else {
                0usize
            },
    )
}

/// The lengths of the open buffers, by index of their file.
pub struct BufferCache {
    lengths: Vec<usize>,
}

impl View for BufferCache {
    type V = Seq<usize>;

    closed spec fn view(&self) -> Seq<usize> {
        self.lengths@
    }
}

impl BufferCache {
    /// A table without buffers.
    pub fn new() -> (cache: BufferCache)
        ensures
            cache@ == Seq::<usize>::empty(),
    {
        BufferCache { lengths: Vec::new() }
    }

    /// Records that the buffer of file `index` holds `len` bytes. A report
    /// of fewer bytes than recorded is ignored.
    pub fn record(&mut self, index: usize, len: usize)
        ensures
            final(self)@ == with_length(old(self)@, index as int, len),
    {
        while self.lengths.len() <= index
            invariant
                self.lengths@.len() <= index + 1 || self.lengths@.len() == old(self)@.len(),
                old(self)@.len() <= self.lengths@.len(),
                forall|i: int|
                    0 <= i < self.lengths@.len() ==> #[trigger] self.lengths@[i] == if i < old(
                        self,
                    )@.len() {
                        old(self)@[i]
                    } else {
                        0usize
                    },
            decreases index + 1 - self.lengths@.len(),
        {
            self.lengths.push(0);
        }
        if self.lengths[index] < len {
            self.lengths.set(index, len);
        }
        proof {
            assert(self.lengths@ =~= with_length(old(self)@, index as int, len));
        }
    }

    /// The length recorded for the buffer of file `index`; 0 if none was
    /// recorded.
    pub fn length(&self, index: usize) -> (len: usize)
        ensures
            len == if index < self@.len() {
                self@[index as int]
            } else {
                0usize
            },
    {
        if index < self.lengths.len() {
            self.lengths[index]
        } else {
            0
        }
    }

    /// The number of bytes held by all buffers together, or `None` if
    /// that number does not fit in `usize`.
    pub fn total(&self) -> (total: Option<usize>)
        ensures
            match total {
                Some(n) => n == total_of(self@),
                None => total_of(self@) > usize::MAX,
            },
    {
        let mut sum: usize = 0;
        let mut i: usize = 0;
        proof {
            assert(self.lengths@.take(0) == Seq::<usize>::empty());
        }
        while i < self.lengths.len()
            invariant
                i <= self.lengths@.len(),
                sum == total_of(self.lengths@.take(i as int)),
            decreases self.lengths@.len() - i,
        {
            let len = self.lengths[i];
            proof {
                assert(self.lengths@.take(i + 1).drop_last() == self.lengths@.take(i as int));
            }
            if len > usize::MAX - sum {
                proof {
                    lemma_total_of_prefix(self.lengths@, i + 1);
                }
                return None;
            }
            sum = sum + len;
            i += 1;
        }
        proof {
            assert(self.lengths@.take(self.lengths@.len() as int) == self.lengths@);
        }
        Some(sum)
    }
}

/// The sum of a prefix does not exceed the sum of the whole.
pub proof fn lemma_total_of_prefix(lengths: Seq<usize>, n: int)
    requires
        0 <= n <= lengths.len(),
    ensures
        total_of(lengths.take(n)) <= total_of(lengths),
    decreases lengths.len() - n,
{
    if n < lengths.len() {
        lemma_total_of_prefix(lengths, n + 1);
        assert(lengths.take(n + 1).drop_last() == lengths.take(n));
    } else {
        assert(lengths.take(n) == lengths);
    }
}

} // verus!
