//! Splitting a byte stream into logical lines.
//!
//! A logical line ends with a newline byte; bytes after the last newline
//! form one further line, which is pending while the source is loading and
//! final once it has ended. The table of line ends is extended by scanning
//! newly arrived bytes only.

use vstd::prelude::*;

verus! {

/// The byte that terminates a logical line.
pub const NEWLINE: u8 = 10;

/// Number of newline bytes in `data`.
pub open spec fn newline_count(data: Seq<u8>) -> nat
    decreases data.len(),
{
    if data.len() == 0 {
        0
    } else {
        newline_count(data.drop_last()) + if data.last() == NEWLINE {
            1nat
        } else {
            0nat
        }
    }
}

/// The offsets one past each newline byte of `data`, in ascending order.
pub open spec fn line_ends(data: Seq<u8>) -> Seq<int>
    decreases data.len(),
{
    if data.len() == 0 {
        Seq::empty()
    } else if data.last() == NEWLINE {
        line_ends(data.drop_last()).push(data.len() as int)
    } else {
        line_ends(data.drop_last())
    }
}

/// `ends` with every offset moved up by `by`.
pub open spec fn shift_ends(ends: Seq<int>, by: int) -> Seq<int> {
    Seq::new(ends.len(), |i: int| ends[i] + by)
}

/// Start of line `i` in a table of line ends.
pub open spec fn span_start(ends: Seq<int>, i: int) -> int {
    if i <= 0 {
        0
    } else {
        ends[i - 1]
    }
}

/// End of line `i`, its terminator included, in a table of line ends over
/// `total` bytes.
pub open spec fn span_end(ends: Seq<int>, total: int, i: int) -> int {
    if i < ends.len() {
        ends[i]
    } else {
        total
    }
}

/// Number of lines in a table of line ends over `total` bytes: the
/// terminated ones, and one more if bytes follow the last terminator.
pub open spec fn span_count(ends: Seq<int>, total: int) -> nat {
    if span_start(ends, ends.len() as int) < total {
        ends.len() + 1
    } else {
        ends.len()
    }
}

/// Number of newline-terminated lines in `data`.
pub open spec fn terminated_lines(data: Seq<u8>) -> nat {
    line_ends(data).len()
}

/// Number of unterminated lines at the end of `data`: 0 or 1.
pub open spec fn pending_lines(data: Seq<u8>) -> nat {
    if span_start(line_ends(data), line_ends(data).len() as int) < data.len() {
        1
    } else {
        0
    }
}

/// Number of lines in `data`, a trailing unterminated line included.
pub open spec fn line_count(data: Seq<u8>) -> nat {
    span_count(line_ends(data), data.len() as int)
}

/// Offset of the first byte of line `i`.
pub open spec fn line_start(data: Seq<u8>, i: int) -> int {
    span_start(line_ends(data), i)
}

/// Offset one past the last byte of line `i`, its newline included.
pub open spec fn line_end(data: Seq<u8>, i: int) -> int {
    span_end(line_ends(data), data.len() as int, i)
}

/// The bytes of line `i`, its newline included.
pub open spec fn line_bytes(data: Seq<u8>, i: int) -> Seq<u8> {
    data.subrange(line_start(data, i), line_end(data, i))
}

/// The bytes of line `i` without its newline.
pub open spec fn line_text(data: Seq<u8>, i: int) -> Seq<u8> {
    if i < terminated_lines(data) {
        data.subrange(line_start(data, i), line_end(data, i) - 1)
    } else {
        data.subrange(line_start(data, i), line_end(data, i))
    }
}

/// Whether line `i` can no longer change: it is terminated, or the source
/// has stopped delivering bytes.
pub open spec fn line_is_final(data: Seq<u8>, loading: bool, i: int) -> bool {
    0 <= i < terminated_lines(data) || (!loading && 0 <= i < line_count(data))
}

/// The first `n` lines of `data` laid end to end.
pub open spec fn concat_lines(data: Seq<u8>, n: nat) -> Seq<u8>
    decreases n,
{
    if n == 0 {
        Seq::empty()
    } else {
        concat_lines(data, (n - 1) as nat) + line_bytes(data, n - 1)
    }
}

/// Every line end lies just behind a newline, the ends ascend strictly, and
/// end `i` is at least `i + 1`.
pub proof fn lemma_line_ends_ordered(data: Seq<u8>)
    ensures
        line_ends(data).len() <= data.len(),
        forall|i: int|
            0 <= i < line_ends(data).len() ==> i < #[trigger] line_ends(data)[i] <= data.len()
                && data[line_ends(data)[i] - 1] == NEWLINE,
        forall|i: int, j: int|
            0 <= i < j < line_ends(data).len() ==> #[trigger] line_ends(data)[i]
                < #[trigger] line_ends(data)[j],
    decreases data.len(),
{
    if data.len() > 0 {
        lemma_line_ends_ordered(data.drop_last());
    }
}

/// There are as many terminated lines as newline bytes.
pub proof fn lemma_terminated_lines_count(data: Seq<u8>)
    ensures
        terminated_lines(data) == newline_count(data),
    decreases data.len(),
{
    if data.len() > 0 {
        lemma_terminated_lines_count(data.drop_last());
    }
}

/// Bytes follow the last terminator exactly when `data` is non-empty and
/// does not end with a newline.
pub proof fn lemma_pending_iff_unterminated(data: Seq<u8>)
    ensures
        pending_lines(data) == 1 <==> data.len() > 0 && data.last() != NEWLINE,
        line_count(data) == terminated_lines(data) + pending_lines(data),
    decreases data.len(),
{
    lemma_line_ends_ordered(data);
    if data.len() > 0 {
        lemma_line_ends_ordered(data.drop_last());
    }
}

/// The line ends of `a + b` are those of `a` followed by those of `b` moved
/// up by the length of `a`: bytes already scanned are never scanned again.
pub proof fn lemma_line_ends_concat(a: Seq<u8>, b: Seq<u8>)
    ensures
        line_ends(a + b) == line_ends(a) + shift_ends(line_ends(b), a.len() as int),
    decreases b.len(),
{
    if b.len() == 0 {
        assert(a + b == a);
        assert(line_ends(a) + shift_ends(line_ends(b), a.len() as int) == line_ends(a));
    } else {
        lemma_line_ends_concat(a, b.drop_last());
        assert((a + b).drop_last() == a + b.drop_last());
        assert((a + b).last() == b.last());
        let prev = line_ends(a) + shift_ends(line_ends(b.drop_last()), a.len() as int);
        if b.last() == NEWLINE {
            assert(prev.push((a + b).len() as int) == line_ends(a) + shift_ends(
                line_ends(b),
                a.len() as int,
            ));
        }
    }
}

/// Appending bytes leaves every terminated line where it was, with the same
/// bytes.
pub proof fn lemma_append_keeps_terminated_lines(data: Seq<u8>, more: Seq<u8>, i: int)
    requires
        0 <= i < terminated_lines(data),
    ensures
        i < terminated_lines(data + more),
        line_start(data + more, i) == line_start(data, i),
        line_end(data + more, i) == line_end(data, i),
        line_bytes(data + more, i) == line_bytes(data, i),
        line_text(data + more, i) == line_text(data, i),
{
    lemma_line_ends_concat(data, more);
    lemma_line_ends_ordered(data);
    let s = line_start(data, i);
    let e = line_end(data, i);
    assert(0 <= s <= e <= data.len());
    assert((data + more).subrange(s, e) == data.subrange(s, e));
    assert((data + more).subrange(s, e - 1) == data.subrange(s, e - 1));
}

/// The first `n` lines laid end to end are the bytes up to the end of line
/// `n - 1`.
pub proof fn lemma_concat_lines_prefix(data: Seq<u8>, n: nat)
    requires
        0 < n <= line_count(data),
    ensures
        concat_lines(data, n) == data.subrange(0, line_end(data, n - 1)),
        0 <= line_end(data, n - 1) <= data.len(),
    decreases n,
{
    lemma_line_ends_ordered(data);
    let s = line_start(data, n - 1);
    let e = line_end(data, n - 1);
    assert(0 <= s <= e <= data.len());
    if n == 1 {
        assert(concat_lines(data, 0) == Seq::<u8>::empty());
        assert(Seq::<u8>::empty() + data.subrange(0, e) == data.subrange(0, e));
    } else {
        lemma_concat_lines_prefix(data, (n - 1) as nat);
        assert(line_end(data, n - 2) == s);
        assert(data.subrange(0, s) + data.subrange(s, e) == data.subrange(0, e));
    }
}

/// The lines of a stream neither overlap nor leave a gap: each is
/// non-empty, each starts where the one before ends, the first starts at
/// offset 0, the last ends with the stream, and laid end to end they are
/// the stream.
pub proof fn lemma_lines_partition(data: Seq<u8>)
    ensures
        concat_lines(data, line_count(data)) == data,
        forall|i: int|
            0 <= i < line_count(data) ==> 0 <= line_start(data, i) < #[trigger] line_end(data, i)
                <= data.len(),
        forall|i: int|
            0 <= i < line_count(data) - 1 ==> #[trigger] line_end(data, i) == line_start(
                data,
                i + 1,
            ),
        line_count(data) > 0 ==> line_start(data, 0) == 0 && line_end(
            data,
            line_count(data) - 1,
        ) == data.len(),
        line_count(data) == 0 <==> data.len() == 0,
{
    lemma_line_ends_ordered(data);
    if line_count(data) > 0 {
        lemma_concat_lines_prefix(data, line_count(data));
        assert(data.subrange(0, data.len() as int) == data);
    } else {
        assert(data.len() == 0);
        assert(data == Seq::<u8>::empty());
    }
}

/// A stream that is empty or ends with a newline has exactly as many lines
/// as newline bytes, every one of them terminated, and its lines, laid end
/// to end, are the stream.
pub proof fn lemma_terminated_stream_partition(data: Seq<u8>)
    requires
        data.len() == 0 || data.last() == NEWLINE,
    ensures
        line_count(data) == newline_count(data),
        terminated_lines(data) == line_count(data),
        concat_lines(data, line_count(data)) == data,
{
    lemma_terminated_lines_count(data);
    lemma_pending_iff_unterminated(data);
    lemma_lines_partition(data);
}

/// Trailing bytes without a newline form one pending line that is not
/// counted as terminated. The newline that ends it raises the number of
/// terminated lines by one and leaves nothing pending. Until then the line
/// is final only if the source has ended.
pub proof fn lemma_pending_line(data: Seq<u8>)
    requires
        data.len() > 0,
        data.last() != NEWLINE,
    ensures
        pending_lines(data) == 1,
        terminated_lines(data) + 1 == terminated_lines(data.push(NEWLINE)),
        pending_lines(data.push(NEWLINE)) == 0,
        line_count(data) == line_count(data.push(NEWLINE)),
        !line_is_final(data, true, line_count(data) - 1),
        line_is_final(data, false, line_count(data) - 1),
        line_is_final(data.push(NEWLINE), true, line_count(data) - 1),
{
    lemma_pending_iff_unterminated(data);
    lemma_pending_iff_unterminated(data.push(NEWLINE));
    assert(data.push(NEWLINE).drop_last() == data);
}

/// No line of a snapshot reaches beyond the snapshot, whatever is
/// committed afterwards: a reader that works on the bytes `data` that were
/// committed when it looked sees every line end within them. Bytes
/// committed later move the start of none of these lines and the end of no
/// terminated one; a pending line can only grow.
pub proof fn lemma_snapshot_lines_stay_within(data: Seq<u8>, more: Seq<u8>, i: int)
    requires
        0 <= i < line_count(data),
    ensures
        0 <= line_start(data, i) < line_end(data, i) <= data.len() <= (data + more).len(),
        i < line_count(data + more),
        line_start(data + more, i) == line_start(data, i),
        i < terminated_lines(data) ==> line_end(data + more, i) == line_end(data, i),
        line_end(data + more, i) >= line_end(data, i),
{
    lemma_line_ends_concat(data, more);
    lemma_line_ends_ordered(data);
    lemma_line_ends_ordered(more);
    lemma_line_ends_ordered(data + more);
    lemma_lines_partition(data);
}

/// The byte range of one line.
#[derive(Clone, Copy, Debug, PartialEq, Eq)]
pub struct LineSpan {
    /// Offset of the first byte.
    pub start: usize,
    /// Offset one past the last byte of the text, the newline excluded.
    pub text_end: usize,
    /// Offset one past the last byte, the newline included.
    pub end: usize,
}

/// The table of line ends of a stream, built incrementally.
///
/// The table holds offsets only; the bytes stay where they are. It is fed
/// each newly arrived chunk once and never looks at a byte again.
pub struct LineIndex {
    ends: Vec<usize>,
    scanned: usize,
}

impl LineIndex {
    /// The recorded line ends.
    pub closed spec fn ends(&self) -> Seq<int> {
        Seq::new(self.ends@.len(), |i: int| self.ends@[i] as int)
    }

    /// Number of bytes scanned so far.
    pub closed spec fn scanned(&self) -> int {
        self.scanned as int
    }

    /// The ends ascend strictly, end `i` is greater than `i`, and none lies
    /// beyond the scanned bytes.
    pub closed spec fn wf(&self) -> bool {
        &&& self.ends@.len() <= self.scanned
        &&& forall|i: int|
            0 <= i < self.ends@.len() ==> i < #[trigger] self.ends@[i] <= self.scanned
        &&& forall|i: int, j: int|
            0 <= i < j < self.ends@.len() ==> #[trigger] self.ends@[i] < #[trigger] self.ends@[j]
    }

    /// Whether this is the table of exactly the bytes `data`.
    pub open spec fn describes(&self, data: Seq<u8>) -> bool {
        self.scanned() == data.len() && self.ends() == line_ends(data)
    }

    /// What `wf` says, over the public view of the table.
    pub proof fn lemma_wf(&self)
        requires
            self.wf(),
        ensures
            self.ends().len() <= self.scanned() <= usize::MAX,
            forall|i: int|
                0 <= i < self.ends().len() ==> i < #[trigger] self.ends()[i] <= self.scanned(),
            forall|i: int, j: int|
                0 <= i < j < self.ends().len() ==> #[trigger] self.ends()[i]
                    < #[trigger] self.ends()[j],
            span_count(self.ends(), self.scanned()) <= self.scanned(),
    {
    }

    /// The table of the empty stream.
    pub fn new() -> (index: LineIndex)
        ensures
            index.wf(),
            index.scanned() == 0,
            index.ends() == Seq::<int>::empty(),
            index.describes(Seq::empty()),
    {
        let index = LineIndex { ends: Vec::new(), scanned: 0 };
        assert(index.ends() == Seq::<int>::empty());
        index
    }

    /// Scans `chunk`, the bytes that arrived after those already scanned,
    /// and records the line ends in it.
    ///
    /// The chunk is refused, and the table left as it was, only if the
    /// total number of bytes would no longer fit in `usize`.
    pub fn feed(&mut self, chunk: &[u8]) -> (accepted: bool)
        requires
            old(self).wf(),
        ensures
            final(self).wf(),
            accepted == (old(self).scanned() + chunk@.len() <= usize::MAX),
            accepted ==> final(self).scanned() == old(self).scanned() + chunk@.len(),
            accepted ==> final(self).ends() == old(self).ends() + shift_ends(
                line_ends(chunk@),
                old(self).scanned(),
            ),
            !accepted ==> final(self).scanned() == old(self).scanned() && final(self).ends() == old(
                self,
            ).ends(),
            forall|data: Seq<u8>|
                accepted && #[trigger] old(self).describes(data) ==> final(self).describes(
                    data + chunk@,
                ),
    {
        let base = self.scanned;
        if chunk.len() > usize::MAX - base {
            return false;
        }
        let mut j: usize = 0;
        proof {
            assert(chunk@.take(0) == Seq::<u8>::empty());
            assert(self.ends() == old(self).ends() + shift_ends(
                line_ends(chunk@.take(0)),
                base as int,
            ));
        }
        while j < chunk.len()
            invariant
                j <= chunk.len(),
                base + chunk.len() <= usize::MAX,
                self.scanned == base,
                base == old(self).scanned,
                self.ends@.len() <= base + j,
                self.ends() == old(self).ends() + shift_ends(
                    line_ends(chunk@.take(j as int)),
                    base as int,
                ),
                forall|i: int| 0 <= i < self.ends@.len() ==> i < #[trigger] self.ends@[i] <= base + j,
                forall|i: int, k: int|
                    0 <= i < k < self.ends@.len() ==> #[trigger] self.ends@[i]
                        < #[trigger] self.ends@[k],
            decreases chunk.len() - j,
        {
            let ghost before = self.ends();
            let ghost seen = line_ends(chunk@.take(j as int));
            proof {
                assert(chunk@.take(j + 1).drop_last() == chunk@.take(j as int));
                assert(chunk@.take(j + 1).last() == chunk@[j as int]);
            }
            if chunk[j] == NEWLINE {
                self.ends.push(base + j + 1);
                proof {
                    assert(self.ends() == before.push(base + j + 1));
                    assert(shift_ends(seen.push(j + 1), base as int) == shift_ends(
                        seen,
                        base as int,
                    ).push(base + j + 1));
                    assert(before.push(base + j + 1) == old(self).ends() + shift_ends(
                        seen.push(j + 1),
                        base as int,
                    ));
                }
            }
            j += 1;
        }
        self.scanned = base + chunk.len();
        proof {
            assert(chunk@.take(chunk.len() as int) == chunk@);
            assert forall|data: Seq<u8>| #[trigger] old(self).describes(data) implies self.describes(
                data + chunk@,
            ) by {
                lemma_line_ends_concat(data, chunk@);
            }
        }
        true
    }

    /// Number of bytes scanned so far.
    pub fn scanned_len(&self) -> (n: usize)
        ensures
            n == self.scanned(),
    {
        self.scanned
    }

    /// Number of terminated lines.
    pub fn terminated(&self) -> (n: usize)
        ensures
            n == self.ends().len(),
    {
        self.ends.len()
    }

    /// Whether bytes follow the last terminator.
    pub fn has_pending(&self) -> (pending: bool)
        requires
            self.wf(),
        ensures
            pending == (span_start(self.ends(), self.ends().len() as int) < self.scanned()),
    {
        let n = self.ends.len();
        if n == 0 {
            self.scanned > 0
        } else {
            self.ends[n - 1] < self.scanned
        }
    }

    /// Number of lines, a trailing unterminated one included.
    pub fn line_count(&self) -> (n: usize)
        requires
            self.wf(),
        ensures
            n == span_count(self.ends(), self.scanned()),
    {
        if self.has_pending() {
            self.ends.len() + 1
        } else {
            self.ends.len()
        }
    }

    /// The byte range of line `i`, or `None` if there is no such line.
    pub fn span(&self, i: usize) -> (span: Option<LineSpan>)
        requires
            self.wf(),
        ensures
            match span {
                Some(s) => {
                    &&& i < span_count(self.ends(), self.scanned())
                    &&& s.start == span_start(self.ends(), i as int)
                    &&& s.end == span_end(self.ends(), self.scanned(), i as int)
                    &&& s.text_end == if i < self.ends().len() {
                        s.end - 1
                    } else {
                        s.end as int
                    }
                    &&& s.start <= s.text_end <= s.end <= self.scanned()
                },
                None => i >= span_count(self.ends(), self.scanned()),
            },
    {
        let n = self.ends.len();
        let start = if i == 0 {
            0
        } else if i <= n {
            self.ends[i - 1]
        } else {
            return None;
        };
        if i < n {
            let end = self.ends[i];
            Some(LineSpan { start, text_end: end - 1, end })
        } else if start < self.scanned {
            Some(LineSpan { start, text_end: self.scanned, end: self.scanned })
        } else {
            None
        }
    }
}

} // verus!
