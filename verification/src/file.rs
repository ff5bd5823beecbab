//! One paged source: its bytes, its line table and its layouts.

use crate::buffer::{Buffer, BufferState};
use crate::layout::{copy_rows, rows_view, wrap, wrapped};
use crate::line_cache::LineCache;
use crate::line_index::{
    lemma_append_keeps_terminated_lines, lemma_pending_iff_unterminated, line_count, line_end,
    line_start, line_text, terminated_lines, LineIndex, LineSpan,
};
use crate::overstrike::{decode, decoded, runs_are_maximal, runs_cells, styled_runs, Cell, Run};
use vstd::prelude::*;
use vstd::slice::slice_subrange;

verus! {

/// What a source reads from.
#[derive(Clone, Copy, Debug, PartialEq, Eq, Structural)]
pub enum FileKind {
    /// A file on disk.
    Disk,
    /// A readable stream.
    Stream,
    /// The output stream of a subprocess.
    SubprocessOut,
    /// The error stream of a subprocess.
    SubprocessErr,
}

/// Identity of a source: its position in the list of files, its title and
/// its kind.
#[derive(Clone, Debug, PartialEq, Eq)]
pub struct FileInfo {
    pub index: usize,
    pub title: String,
    pub kind: FileKind,
}

/// Answer to a request for a line.
#[derive(Debug, PartialEq, Eq)]
pub enum LineLookup<T> {
    /// The line exists.
    Found(T),
    /// There is no such line yet, but the source is still loading.
    NotYetAvailable,
    /// There is no such line and the source has finished.
    OutOfRange,
}

/// One logical line: where it lies in the bytes of its source, and its
/// text as runs of one style each.
#[derive(Debug, PartialEq, Eq)]
pub struct Line {
    pub span: LineSpan,
    pub runs: Vec<Run>,
}

/// The layout of line `i` of `data` at `width` columns.
pub open spec fn line_layout(data: Seq<u8>, i: int, width: nat) -> Seq<Seq<Cell>> {
    wrapped(decoded(line_text(data, i)), width)
}

/// `n + 1`, or `n` where that does not fit.
pub open spec fn saturating_succ(n: u64) -> u64 {
    if n < u64::MAX {
        (n + 1) as u64
    } else {
        n
    }
}

/// `n + k`, or the largest value where that does not fit.
pub open spec fn saturating_plus(n: u64, k: nat) -> u64 {
    if n + k <= u64::MAX {
        (n + k) as u64
    } else {
        u64::MAX
    }
}

/// Number of lines from `from` to `to - 1` that have no layout in
/// `cached`.
pub open spec fn uncached_between(cached: Map<usize, Seq<Seq<Cell>>>, from: int, to: int) -> nat
    decreases to - from,
{
    if from >= to {
        0
    } else {
        uncached_between(cached, from, to - 1) + if cached.contains_key((to - 1) as usize) {
            0nat
        } else {
            1nat
        }
    }
}

/// One paged source.
///
/// The reader of the source appends bytes; the renderer asks for lines and
/// layouts. Layouts are cached per line at the current width.
pub struct File {
    info: FileInfo,
    buffer: Buffer,
    index: LineIndex,
    cache: LineCache,
    decodes: u64,
}

impl File {
    /// Identity of the source.
    pub closed spec fn spec_info(&self) -> FileInfo {
        self.info
    }

    /// The bytes committed so far.
    pub closed spec fn data(&self) -> Seq<u8> {
        self.buffer@
    }

    /// The lifecycle of the source.
    pub closed spec fn state(&self) -> BufferState {
        self.buffer.spec_state()
    }

    /// Whether more bytes may arrive.
    pub open spec fn is_loading(&self) -> bool {
        self.state() is Loading
    }

    /// The width of the cached layouts.
    pub closed spec fn width(&self) -> usize {
        self.cache.width()
    }

    /// The cached layouts by line number.
    pub closed spec fn cached(&self) -> Map<usize, Seq<Seq<Cell>>> {
        self.cache.entries()
    }

    /// How often the decoder has run for this source.
    pub closed spec fn decode_count(&self) -> u64 {
        self.decodes
    }

    /// The line table is that of the committed bytes, and every cached
    /// layout is the layout of an existing line at the current width.
    pub closed spec fn wf(&self) -> bool {
        &&& self.index.wf()
        &&& self.index.describes(self.buffer@)
        &&& forall|line: usize| #[trigger]
            self.cache.entries().contains_key(line) ==> line < line_count(self.buffer@)
                && self.cache.entries()[line] == line_layout(
                self.buffer@,
                line as int,
                self.cache.width() as nat,
            )
    }

    /// The entries that a request at `width` can use: all of them at the
    /// current width, none at another.
    pub open spec fn retained(&self, width: usize) -> Map<usize, Seq<Seq<Cell>>> {
        if width == self.width() {
            self.cached()
        } else {
            Map::empty()
        }
    }

    /// Whether a request for the layout of line `i` at `width` runs the
    /// decoder.
    pub open spec fn get_decodes(&self, i: usize, width: usize) -> bool {
        i < line_count(self.data()) && !self.retained(width).contains_key(i)
    }

    /// The state `post` that a request for the layout of line `i` at
    /// `width` leaves behind.
    pub open spec fn after_get(&self, post: File, i: usize, width: usize) -> bool {
        &&& post.wf()
        &&& post.spec_info() == self.spec_info()
        &&& post.data() == self.data()
        &&& post.state() == self.state()
        &&& post.width() == width
        &&& post.cached() == if i < line_count(self.data()) {
            self.retained(width).insert(i, line_layout(self.data(), i as int, width as nat))
        } else {
            self.retained(width)
        }
        &&& post.decode_count() == if self.get_decodes(i, width) {
            saturating_succ(self.decode_count())
        } else {
            self.decode_count()
        }
    }

    /// Every cached layout is the layout of an existing line at the
    /// current width.
    pub proof fn lemma_cached_is_layout(&self, line: usize)
        requires
            self.wf(),
            self.cached().contains_key(line),
        ensures
            line < line_count(self.data()),
            self.cached()[line] == line_layout(self.data(), line as int, self.width() as nat),
    {
    }

    /// A source without bytes, still loading, with an empty cache for
    /// `width` columns.
    pub fn new(info: FileInfo, width: usize) -> (file: File)
        ensures
            file.wf(),
            file.spec_info() == info,
            file.data() == Seq::<u8>::empty(),
            file.state() == BufferState::Loading,
            file.width() == width,
            file.cached() == Map::<usize, Seq<Seq<Cell>>>::empty(),
            file.decode_count() == 0,
    {
        File {
            info,
            buffer: Buffer::new(),
            index: LineIndex::new(),
            cache: LineCache::new(width),
            decodes: 0,
        }
    }

    /// Identity of the source.
    pub fn info(&self) -> (info: &FileInfo)
        ensures
            *info == self.spec_info(),
    {
        &self.info
    }

    /// The committed bytes and the lifecycle flag.
    pub fn buffer(&self) -> (buffer: &Buffer)
        ensures
            buffer@ == self.data(),
            buffer.spec_state() == self.state(),
    {
        &self.buffer
    }

    /// Number of bytes committed so far.
    pub fn len(&self) -> (n: usize)
        ensures
            n == self.data().len(),
    {
        self.buffer.len()
    }

    /// Whether more bytes may arrive.
    pub fn loading(&self) -> (b: bool)
        ensures
            b == self.is_loading(),
    {
        self.buffer.loading()
    }

    /// How often the decoder has run for this source.
    pub fn decodes(&self) -> (n: u64)
        ensures
            n == self.decode_count(),
    {
        self.decodes
    }

    /// The width of the cached layouts.
    pub fn current_width(&self) -> (width: usize)
        ensures
            width == self.width(),
    {
        self.cache.current_width()
    }

    /// Commits `bytes` and extends the line table by scanning them.
    ///
    /// Bytes are accepted while the source is loading and the total fits in
    /// `usize`. Terminated lines keep their layouts; the layout of a
    /// pending line is dropped, since its text has grown.
    pub fn append(&mut self, bytes: &[u8]) -> (accepted: bool)
        requires
            old(self).wf(),
        ensures
            final(self).wf(),
            accepted == (old(self).is_loading() && old(self).data().len() + bytes@.len()
                <= usize::MAX),
            final(self).spec_info() == old(self).spec_info(),
            final(self).state() == old(self).state(),
            final(self).width() == old(self).width(),
            final(self).decode_count() == old(self).decode_count(),
            accepted ==> final(self).data() == old(self).data() + bytes@,
            !accepted ==> final(self).data() == old(self).data(),
            final(self).cached() == if accepted && bytes@.len() > 0 {
                old(self).cached().remove(terminated_lines(old(self).data()) as usize)
            } else {
                old(self).cached()
            },
    {
        if !self.buffer.loading() || bytes.len() > usize::MAX - self.buffer.len() {
            return false;
        }
        if bytes.len() == 0 {
            proof {
                assert(self.buffer@ + bytes@ == self.buffer@);
            }
            return true;
        }
        let pending = self.index.terminated();
        proof {
            self.index.lemma_wf();
        }
        self.cache.forget(pending);
        self.buffer.append(bytes);
        self.index.feed(bytes);
        proof {
            let before = old(self).buffer@;
            let after = self.buffer@;
            lemma_pending_iff_unterminated(before);
            lemma_pending_iff_unterminated(after);
            assert forall|line: usize| #[trigger]
                self.cache.entries().contains_key(line) implies line < line_count(after)
                && self.cache.entries()[line] == line_layout(
                after,
                line as int,
                self.cache.width() as nat,
            ) by {
                assert(old(self).cache.entries().contains_key(line));
                assert(line != pending);
                lemma_append_keeps_terminated_lines(before, bytes@, line as int);
            }
        }
        true
    }

    /// Marks the end of the stream. Returns whether the source was still
    /// loading. A pending line becomes final; nothing else changes.
    pub fn end(&mut self) -> (changed: bool)
        requires
            old(self).wf(),
        ensures
            final(self).wf(),
            changed == old(self).is_loading(),
            final(self).state() == if changed {
                BufferState::Ended
            } else {
                old(self).state()
            },
            final(self).spec_info() == old(self).spec_info(),
            final(self).data() == old(self).data(),
            final(self).width() == old(self).width(),
            final(self).cached() == old(self).cached(),
            final(self).decode_count() == old(self).decode_count(),
    {
        self.buffer.mark_ended()
    }

    /// Records a read failure. Returns whether the source was still
    /// loading; a finished source keeps its state.
    pub fn fail(&mut self, cause: String) -> (changed: bool)
        requires
            old(self).wf(),
        ensures
            final(self).wf(),
            changed == old(self).is_loading(),
            final(self).state() == if changed {
                BufferState::Errored(cause)
            } else {
                old(self).state()
            },
            final(self).spec_info() == old(self).spec_info(),
            final(self).data() == old(self).data(),
            final(self).width() == old(self).width(),
            final(self).cached() == old(self).cached(),
            final(self).decode_count() == old(self).decode_count(),
    {
        self.buffer.mark_errored(cause)
    }

    /// Number of lines, a trailing unterminated one included.
    pub fn line_count(&self) -> (n: usize)
        requires
            self.wf(),
        ensures
            n == line_count(self.data()),
    {
        self.index.line_count()
    }

    /// Number of newline-terminated lines.
    pub fn terminated_lines(&self) -> (n: usize)
        requires
            self.wf(),
        ensures
            n == terminated_lines(self.data()),
    {
        self.index.terminated()
    }

    /// The byte range of line `i`. No range reaches beyond the committed
    /// bytes.
    pub fn line(&self, i: usize) -> (found: LineLookup<LineSpan>)
        requires
            self.wf(),
        ensures
            match found {
                LineLookup::Found(span) => {
                    &&& i < line_count(self.data())
                    &&& span.start == line_start(self.data(), i as int)
                    &&& span.end == line_end(self.data(), i as int)
                    &&& span.start <= span.text_end <= span.end <= self.data().len()
                    &&& self.data().subrange(span.start as int, span.text_end as int) == line_text(
                        self.data(),
                        i as int,
                    )
                },
                LineLookup::NotYetAvailable => i >= line_count(self.data()) && self.is_loading(),
                LineLookup::OutOfRange => i >= line_count(self.data()) && !self.is_loading(),
            },
    {
        match self.index.span(i) {
            Some(span) => LineLookup::Found(span),
            None => if self.buffer.loading() {
                LineLookup::NotYetAvailable
            } else {
                LineLookup::OutOfRange
            },
        }
    }

    /// The bytes of line `i` without its newline.
    pub fn text(&self, i: usize) -> (found: LineLookup<Vec<u8>>)
        requires
            self.wf(),
        ensures
            match found {
                LineLookup::Found(text) => i < line_count(self.data()) && text@ == line_text(
                    self.data(),
                    i as int,
                ),
                LineLookup::NotYetAvailable => i >= line_count(self.data()) && self.is_loading(),
                LineLookup::OutOfRange => i >= line_count(self.data()) && !self.is_loading(),
            },
    {
        match self.line(i) {
            LineLookup::Found(span) => {
                let bytes = slice_subrange(self.buffer.as_slice(), span.start, span.text_end);
                LineLookup::Found(vstd::slice::slice_to_vec(bytes))
            },
            LineLookup::NotYetAvailable => LineLookup::NotYetAvailable,
            LineLookup::OutOfRange => LineLookup::OutOfRange,
        }
    }

    /// The decoded cells of line `i`. The layout cache is not consulted.
    pub fn cells(&self, i: usize) -> (found: LineLookup<Vec<Cell>>)
        requires
            self.wf(),
        ensures
            match found {
                LineLookup::Found(cells) => i < line_count(self.data()) && cells@ == decoded(
                    line_text(self.data(), i as int),
                ),
                LineLookup::NotYetAvailable => i >= line_count(self.data()) && self.is_loading(),
                LineLookup::OutOfRange => i >= line_count(self.data()) && !self.is_loading(),
            },
    {
        match self.line(i) {
            LineLookup::Found(span) => {
                let bytes = slice_subrange(self.buffer.as_slice(), span.start, span.text_end);
                LineLookup::Found(decode(bytes))
            },
            LineLookup::NotYetAvailable => LineLookup::NotYetAvailable,
            LineLookup::OutOfRange => LineLookup::OutOfRange,
        }
    }

    /// Line `i` as a record: its byte range and its styled runs. The
    /// layout cache is not consulted.
    pub fn styled(&self, i: usize) -> (found: LineLookup<Line>)
        requires
            self.wf(),
        ensures
            match found {
                LineLookup::Found(line) => {
                    &&& i < line_count(self.data())
                    &&& line.span.start == line_start(self.data(), i as int)
                    &&& line.span.end == line_end(self.data(), i as int)
                    &&& line.span.start <= line.span.text_end <= line.span.end <= self.data().len()
                    &&& self.data().subrange(line.span.start as int, line.span.text_end as int)
                        == line_text(self.data(), i as int)
                    &&& runs_cells(line.runs@) == decoded(line_text(self.data(), i as int))
                    &&& runs_are_maximal(line.runs@)
                },
                LineLookup::NotYetAvailable => i >= line_count(self.data()) && self.is_loading(),
                LineLookup::OutOfRange => i >= line_count(self.data()) && !self.is_loading(),
            },
    {
        match self.line(i) {
            LineLookup::Found(span) => {
                let bytes = slice_subrange(self.buffer.as_slice(), span.start, span.text_end);
                let cells = decode(bytes);
                LineLookup::Found(Line { span, runs: styled_runs(cells.as_slice()) })
            },
            LineLookup::NotYetAvailable => LineLookup::NotYetAvailable,
            LineLookup::OutOfRange => LineLookup::OutOfRange,
        }
    }

    /// Sets the width of the layouts. A new width drops every cached
    /// layout before anything is laid out at it.
    pub fn set_width(&mut self, width: usize)
        requires
            old(self).wf(),
        ensures
            final(self).wf(),
            final(self).width() == width,
            final(self).cached() == old(self).retained(width),
            final(self).spec_info() == old(self).spec_info(),
            final(self).data() == old(self).data(),
            final(self).state() == old(self).state(),
            final(self).decode_count() == old(self).decode_count(),
    {
        self.cache.resize(width);
    }

    /// The layout of line `i` at `width` columns.
    ///
    /// A layout cached at this width is returned as it is, without running
    /// the decoder. Otherwise the line is decoded and wrapped, and the
    /// layout is cached. A request at another width than the current one
    /// first drops every cached layout.
    pub fn get(&mut self, i: usize, width: usize) -> (found: LineLookup<Vec<Vec<Cell>>>)
        requires
            old(self).wf(),
        ensures
            old(self).after_get(*final(self), i, width),
            match found {
                LineLookup::Found(rows) => i < line_count(old(self).data()) && rows_view(rows@)
                    == line_layout(old(self).data(), i as int, width as nat),
                LineLookup::NotYetAvailable => i >= line_count(old(self).data()) && old(
                    self,
                ).is_loading(),
                LineLookup::OutOfRange => i >= line_count(old(self).data()) && !old(
                    self,
                ).is_loading(),
            },
    {
        self.cache.resize(width);
        let span = match self.index.span(i) {
            Some(span) => span,
            None => {
                return if self.buffer.loading() {
                    LineLookup::NotYetAvailable
                } else {
                    LineLookup::OutOfRange
                };
            },
        };
        match self.cache.lookup(i) {
            Some(rows) => {
                proof {
                    assert(self.cache.entries() =~= self.cache.entries().insert(
                        i,
                        line_layout(self.buffer@, i as int, width as nat),
                    ));
                }
                LineLookup::Found(rows)
            },
            None => {
                let bytes = slice_subrange(self.buffer.as_slice(), span.start, span.text_end);
                let cells = decode(bytes);
                if self.decodes < u64::MAX {
                    self.decodes = self.decodes + 1;
                }
                let rows = wrap(&cells, width);
                let out = copy_rows(&rows);
                self.cache.store(i, rows);
                LineLookup::Found(out)
            },
        }
    }

    /// Lays out the lines `first` to `first + count - 1`, as far as they
    /// exist, at the current width, so that a later request finds them in
    /// the cache. Returns the number of lines that exist in that range.
    ///
    /// Nothing leaves the cache, nothing outside the range enters it, and
    /// the decoder runs once for each line of the range that had no
    /// layout.
    pub fn prefetch(&mut self, first: usize, count: usize) -> (laid_out: usize)
        requires
            old(self).wf(),
        ensures
            final(self).wf(),
            final(self).spec_info() == old(self).spec_info(),
            final(self).data() == old(self).data(),
            final(self).state() == old(self).state(),
            final(self).width() == old(self).width(),
            laid_out == prefetched_end(first as int, count as int, line_count(old(self).data()) as int)
                - prefetched_start(first as int, line_count(old(self).data()) as int),
            forall|line: usize|
                final(self).cached().contains_key(line) <==> old(self).cached().contains_key(line)
                    || (first <= line < first + count && line < line_count(old(self).data())),
            final(self).decode_count() == saturating_plus(
                old(self).decode_count(),
                uncached_between(
                    old(self).cached(),
                    prefetched_start(first as int, line_count(old(self).data()) as int),
                    prefetched_end(first as int, count as int, line_count(old(self).data()) as int),
                ),
            ),
    {
        let lines = self.index.line_count();
        let width = self.cache.current_width();
        let start = if first <= lines {
            first
        } else {
            lines
        };
        let end = if count >= lines - start {
            lines
        } else {
            start + count
        };
        let mut line: usize = start;
        while line < end
            invariant
                self.wf(),
                self.spec_info() == old(self).spec_info(),
                self.data() == old(self).data(),
                self.state() == old(self).state(),
                self.width() == old(self).width(),
                width == self.width(),
                lines == line_count(self.data()),
                start <= line <= end <= lines,
                forall|l: usize|
                    self.cached().contains_key(l) <==> old(self).cached().contains_key(l) || (start
                        <= l < line),
                self.decode_count() == saturating_plus(
                    old(self).decode_count(),
                    uncached_between(old(self).cached(), start as int, line as int),
                ),
            decreases end - line,
        {
            let ghost before = *self;
            self.get(line, width);
            proof {
                assert forall|l: usize|
                    self.cached().contains_key(l) <==> old(self).cached().contains_key(l) || (start
                        <= l < line + 1) by {
                    assert(before.retained(width) == before.cached());
                }
            }
            line += 1;
        }
        end - start
    }
}

/// The first line that a read-ahead from `first` lays out in a file of
/// `lines` lines.
pub open spec fn prefetched_start(first: int, lines: int) -> int {
    if first <= lines {
        first
    } else {
        lines
    }
}

/// The line behind the last one that a read-ahead of `count` lines from
/// `first` lays out in a file of `lines` lines.
pub open spec fn prefetched_end(first: int, count: int, lines: int) -> int {
    if first + count <= lines {
        prefetched_start(first, lines) + count
    } else {
        lines
    }
}

/// A second request for the same line at the same width, with no bytes
/// appended and no resize in between, returns the same layout from the
/// cache and does not run the decoder.
pub proof fn lemma_get_is_idempotent(f0: File, f1: File, f2: File, i: usize, width: usize)
    requires
        f0.wf(),
        i < line_count(f0.data()),
        f0.after_get(f1, i, width),
        f1.after_get(f2, i, width),
    ensures
        !f1.get_decodes(i, width),
        f2.decode_count() == f1.decode_count(),
        f1.cached().contains_key(i),
        f2.cached() == f1.cached(),
        f2.cached()[i] == line_layout(f0.data(), i as int, width as nat),
        line_layout(f1.data(), i as int, width as nat) == line_layout(
            f0.data(),
            i as int,
            width as nat,
        ),
{
    assert(f1.cached().insert(i, line_layout(f1.data(), i as int, width as nat)) =~= f1.cached());
}

/// After a change of width, a line that was cached at the old width is
/// decoded and laid out again at the new one, and no layout of the old
/// width is left.
pub proof fn lemma_resize_recomputes(f0: File, f1: File, i: usize, width: usize)
    requires
        f0.wf(),
        f0.cached().contains_key(i),
        width != f0.width(),
        f0.after_get(f1, i, width),
    ensures
        f0.get_decodes(i, width),
        f1.decode_count() == saturating_succ(f0.decode_count()),
        f1.width() == width,
        f1.cached() == Map::<usize, Seq<Seq<Cell>>>::empty().insert(
            i,
            line_layout(f0.data(), i as int, width as nat),
        ),
{
    f0.lemma_cached_is_layout(i);
}

} // verus!
