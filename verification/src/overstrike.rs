//! Decoding of raw line bytes into styled cells.
//!
//! Old formatters encode emphasis by overstriking: a character, a
//! backspace, and a second character printed over the first. The decoder
//! folds such a group into one cell:
//!
//! | bytes        | cell                                   |
//! |--------------|----------------------------------------|
//! | `c BS c`     | `c`, bold                              |
//! | `_ BS c`     | `c`, underlined                        |
//! | `c BS _`     | `c`, underlined                        |
//! | `c BS d`     | `d`, plain (the later character wins)  |
//!
//! Overstrikes chain: `_ BS c BS c` is `c`, bold and underlined. Only
//! printable ASCII characters (0x20 to 0x7E) take part in an overstrike.
//!
//! Every other byte is treated by a fixed table:
//!
//! | byte                         | treatment                          |
//! |------------------------------|------------------------------------|
//! | 0x20 to 0x7E                 | one cell, one column               |
//! | 0xC0 to 0xFF                 | one cell, one column               |
//! | 0x80 to 0xBF                 | one cell, no column (continuation) |
//! | 0x09 (TAB), 0x1B (ESC)       | one cell, no column (passed on)    |
//! | other bytes below 0x20, 0x7F | stripped                           |
//!
//! A backspace that does not stand between two printable ASCII characters
//! is stripped like any other control byte.

use vstd::prelude::*;

verus! {

/// The backspace byte.
pub const BACKSPACE: u8 = 8;

/// The horizontal tab byte.
pub const TAB: u8 = 9;

/// The escape byte.
pub const ESCAPE: u8 = 27;

/// The underscore byte.
pub const UNDERSCORE: u8 = 95;

/// One decoded character position with its emphasis.
#[derive(Clone, Copy, Debug, PartialEq, Eq, Structural)]
pub struct Cell {
    pub byte: u8,
    pub bold: bool,
    pub underline: bool,
}

/// How the decoder treats a byte that stands alone.
#[derive(Clone, Copy, Debug, PartialEq, Eq, Structural)]
pub enum ByteClass {
    /// Shown in one column.
    Printable,
    /// Kept, but takes no column.
    ZeroWidth,
    /// Dropped.
    Stripped,
}

/// Whether `b` is a printable ASCII character.
pub open spec fn is_ascii_printable(b: u8) -> bool {
    0x20 <= b <= 0x7E
}

/// The treatment of byte `b` by the fixed table.
pub open spec fn class_of(b: u8) -> ByteClass {
    if is_ascii_printable(b) || b >= 0xC0 {
        ByteClass::Printable
    } else if b >= 0x80 || b == TAB || b == ESCAPE {
        ByteClass::ZeroWidth
    } else {
        ByteClass::Stripped
    }
}

/// A cell without emphasis.
pub open spec fn plain_cell(b: u8) -> Cell {
    Cell { byte: b, bold: false, underline: false }
}

/// Number of columns a cell takes: 0 or 1.
pub open spec fn cell_width(c: Cell) -> nat {
    if class_of(c.byte) == ByteClass::Printable {
        1
    } else {
        0
    }
}

/// The cell that results from printing `b` over `under`.
pub open spec fn strike_over(under: Cell, b: u8) -> Cell {
    if under.byte == b {
        Cell { byte: b, bold: true, underline: under.underline }
    } else if under.byte == UNDERSCORE {
        Cell { byte: b, bold: under.bold, underline: true }
    } else if b == UNDERSCORE {
        Cell { byte: under.byte, bold: under.bold, underline: true }
    } else {
        plain_cell(b)
    }
}

/// Whether a backspace and a printable ASCII character stand at `i`.
pub open spec fn overstrike_at(s: Seq<u8>, i: int) -> bool {
    0 <= i && i + 1 < s.len() && s[i] == BACKSPACE && is_ascii_printable(s[i + 1])
}

/// Folds the chain of overstrikes that starts at `i` into `cell`; returns
/// the cell and the offset behind the chain.
pub open spec fn fold_overstrikes(s: Seq<u8>, i: int, cell: Cell) -> (Cell, int)
    decreases s.len() - i,
{
    if overstrike_at(s, i) {
        fold_overstrikes(s, i + 2, strike_over(cell, s[i + 1]))
    } else {
        (cell, i)
    }
}

/// The cells decoded from `s[i..]`.
pub open spec fn decode_from(s: Seq<u8>, i: int) -> Seq<Cell>
    decreases s.len() - i,
{
    if i < 0 || i >= s.len() {
        Seq::empty()
    } else if is_ascii_printable(s[i]) {
        let (cell, next) = fold_overstrikes(s, i + 1, plain_cell(s[i]));
        if i < next <= s.len() {
            seq![cell] + decode_from(s, next)
        } else {
            seq![cell]
        }
    } else if class_of(s[i]) == ByteClass::Stripped {
        decode_from(s, i + 1)
    } else {
        seq![plain_cell(s[i])] + decode_from(s, i + 1)
    }
}

/// The cells decoded from `s`.
pub open spec fn decoded(s: Seq<u8>) -> Seq<Cell> {
    decode_from(s, 0)
}

/// The bytes of a sequence of cells, emphasis dropped.
pub open spec fn cells_text(cells: Seq<Cell>) -> Seq<u8> {
    Seq::new(cells.len(), |i: int| cells[i].byte)
}

/// The chain of overstrikes at `i` ends at an offset from `i` to the end of
/// `s`, and the folded cell holds a printable ASCII byte if it started with
/// one.
pub proof fn lemma_fold_overstrikes(s: Seq<u8>, i: int, cell: Cell)
    requires
        0 <= i <= s.len(),
        is_ascii_printable(cell.byte),
    ensures
        i <= fold_overstrikes(s, i, cell).1 <= s.len(),
        is_ascii_printable(fold_overstrikes(s, i, cell).0.byte),
    decreases s.len() - i,
{
    if overstrike_at(s, i) {
        lemma_fold_overstrikes(s, i + 2, strike_over(cell, s[i + 1]));
    }
}

/// Decoding yields at most one cell per byte, and no cell holds a byte that
/// the table strips.
pub proof fn lemma_decode_bounds(s: Seq<u8>, i: int)
    requires
        0 <= i <= s.len(),
    ensures
        decode_from(s, i).len() <= s.len() - i,
        forall|k: int|
            0 <= k < decode_from(s, i).len() ==> class_of(#[trigger] decode_from(s, i)[k].byte)
                != ByteClass::Stripped,
    decreases s.len() - i,
{
    if i < s.len() {
        if is_ascii_printable(s[i]) {
            lemma_fold_overstrikes(s, i + 1, plain_cell(s[i]));
            let (cell, next) = fold_overstrikes(s, i + 1, plain_cell(s[i]));
            lemma_decode_bounds(s, next);
        } else {
            lemma_decode_bounds(s, i + 1);
        }
    }
}

/// Text without control bytes decodes to itself: one plain cell per byte.
pub proof fn lemma_decode_plain_text(s: Seq<u8>, i: int)
    requires
        0 <= i <= s.len(),
        forall|k: int| 0 <= k < s.len() ==> class_of(#[trigger] s[k]) == ByteClass::Printable,
    ensures
        decode_from(s, i) == Seq::new((s.len() - i) as nat, |k: int| plain_cell(s[i + k])),
    decreases s.len() - i,
{
    let expected = Seq::new((s.len() - i) as nat, |k: int| plain_cell(s[i + k]));
    if i < s.len() {
        lemma_decode_plain_text(s, i + 1);
        if is_ascii_printable(s[i]) {
            assert(!overstrike_at(s, i + 1)) by {
                if i + 1 < s.len() {
                    assert(class_of(s[i + 1]) == ByteClass::Printable);
                }
            }
        }
        assert(seq![plain_cell(s[i])] + decode_from(s, i + 1) == expected);
    } else {
        assert(decode_from(s, i) == expected);
    }
}

/// The treatment of a byte that stands alone.
pub fn classify(b: u8) -> (class: ByteClass)
    ensures
        class == class_of(b),
{
    if (0x20 <= b && b <= 0x7E) || b >= 0xC0 {
        ByteClass::Printable
    } else if b >= 0x80 || b == TAB || b == ESCAPE {
        ByteClass::ZeroWidth
    } else {
        ByteClass::Stripped
    }
}

/// Number of columns a cell takes.
pub fn width_of(c: &Cell) -> (w: usize)
    ensures
        w == cell_width(*c),
{
    match classify(c.byte) {
        ByteClass::Printable => 1,
        _ => 0,
    }
}

/// Prints `b` over `under`.
fn strike(under: Cell, b: u8) -> (cell: Cell)
    ensures
        cell == strike_over(under, b),
{
    if under.byte == b {
        Cell { byte: b, bold: true, underline: under.underline }
    } else if under.byte == UNDERSCORE {
        Cell { byte: b, bold: under.bold, underline: true }
    } else if b == UNDERSCORE {
        Cell { byte: under.byte, bold: under.bold, underline: true }
    } else {
        Cell { byte: b, bold: false, underline: false }
    }
}

/// Decodes the bytes of one line into styled cells.
///
/// The result depends on the bytes alone.
pub fn decode(bytes: &[u8]) -> (cells: Vec<Cell>)
    ensures
        cells@ == decoded(bytes@),
{
    let n = bytes.len();
    let mut cells: Vec<Cell> = Vec::new();
    let mut i: usize = 0;
    while i < n
        invariant
            n == bytes@.len(),
            i <= n,
            cells@ + decode_from(bytes@, i as int) == decoded(bytes@),
        decreases n - i,
    {
        let b = bytes[i];
        if 0x20 <= b && b <= 0x7E {
            let mut cell = Cell { byte: b, bold: false, underline: false };
            let mut j: usize = i + 1;
            while j < n && n - j >= 2 && bytes[j] == BACKSPACE && 0x20 <= bytes[j + 1] && bytes[j + 1]
                <= 0x7E
                invariant
                    n == bytes@.len(),
                    i < j <= n,
                    fold_overstrikes(bytes@, j as int, cell) == fold_overstrikes(
                        bytes@,
                        i + 1,
                        plain_cell(b),
                    ),
                decreases n - j,
            {
                cell = strike(cell, bytes[j + 1]);
                j += 2;
            }
            proof {
                assert(!overstrike_at(bytes@, j as int));
                assert(cells@.push(cell) + decode_from(bytes@, j as int) == cells@ + (seq![cell]
                    + decode_from(bytes@, j as int)));
                if j == n {
                    assert(decode_from(bytes@, j as int) == Seq::<Cell>::empty());
                    assert(seq![cell] + decode_from(bytes@, j as int) == seq![cell]);
                }
            }
            cells.push(cell);
            i = j;
        } else {
            match classify(b) {
                ByteClass::Stripped => {},
                _ => {
                    proof {
                        assert(cells@.push(plain_cell(b)) + decode_from(bytes@, i + 1) == cells@
                            + (seq![plain_cell(b)] + decode_from(bytes@, i + 1)));
                    }
                    cells.push(Cell { byte: b, bold: false, underline: false });
                },
            }
            i += 1;
        }
    }
    proof {
        assert(decode_from(bytes@, n as int) == Seq::<Cell>::empty());
        assert(cells@ + Seq::<Cell>::empty() == cells@);
    }
    cells
}

/// The bytes of `cells`, emphasis dropped.
pub fn text_of(cells: &Vec<Cell>) -> (text: Vec<u8>)
    ensures
        text@ == cells_text(cells@),
{
    let mut text: Vec<u8> = Vec::new();
    let mut i: usize = 0;
    while i < cells.len()
        invariant
            i <= cells.len(),
            text@ == cells_text(cells@.take(i as int)),
        decreases cells.len() - i,
    {
        text.push(cells[i].byte);
        proof {
            assert(cells_text(cells@.take(i + 1)) == cells_text(cells@.take(i as int)).push(
                cells@[i as int].byte,
            ));
        }
        i += 1;
    }
    proof {
        assert(cells@.take(cells.len() as int) == cells@);
    }
    text
}

/// A stretch of text in one style.
#[derive(Debug, PartialEq, Eq)]
pub struct Run {
    pub text: Vec<u8>,
    pub bold: bool,
    pub underline: bool,
}

/// The cells of one run: its bytes, each in the style of the run.
pub open spec fn run_cells(run: Run) -> Seq<Cell> {
    Seq::new(
        run.text@.len(),
        |i: int| Cell { byte: run.text@[i], bold: run.bold, underline: run.underline },
    )
}

/// The cells of a sequence of runs.
pub open spec fn runs_cells(runs: Seq<Run>) -> Seq<Cell>
    decreases runs.len(),
{
    if runs.len() == 0 {
        Seq::empty()
    } else {
        runs_cells(runs.drop_last()) + run_cells(runs.last())
    }
}

/// Whether no run is empty and no two neighbours have the same style, so
/// that no run could be longer.
pub open spec fn runs_are_maximal(runs: Seq<Run>) -> bool {
    &&& forall|k: int| 0 <= k < runs.len() ==> (#[trigger] runs[k]).text@.len() > 0
    &&& forall|k: int|
        0 <= k < runs.len() - 1 ==> !((#[trigger] runs[k]).bold == runs[k + 1].bold
            && runs[k].underline == runs[k + 1].underline)
}

/// Groups cells into runs of one style each, as long as can be.
pub fn styled_runs(cells: &[Cell]) -> (runs: Vec<Run>)
    ensures
        runs_cells(runs@) == cells@,
        runs_are_maximal(runs@),
{
    let n = cells.len();
    let mut runs: Vec<Run> = Vec::new();
    let mut i: usize = 0;
    proof {
        assert(cells@.take(0) == Seq::<Cell>::empty());
    }
    while i < n
        invariant
            n == cells@.len(),
            i <= n,
            runs_cells(runs@) == cells@.take(i as int),
            runs_are_maximal(runs@),
            i == 0 <==> runs@.len() == 0,
            i < n && runs@.len() > 0 ==> !(runs@.last().bold == cells@[i as int].bold
                && runs@.last().underline == cells@[i as int].underline),
        decreases n - i,
    {
        let bold = cells[i].bold;
        let underline = cells[i].underline;
        let mut text: Vec<u8> = Vec::new();
        let mut j: usize = i;
        while j < n && cells[j].bold == bold && cells[j].underline == underline
            invariant
                n == cells@.len(),
                i <= j <= n,
                i < n,
                bold == cells@[i as int].bold,
                underline == cells@[i as int].underline,
                text@.len() == j - i,
                forall|k: int|
                    0 <= k < j - i ==> cells@[i + k] == (Cell {
                        byte: #[trigger] text@[k],
                        bold,
                        underline,
                    }),
            decreases n - j,
        {
            text.push(cells[j].byte);
            j += 1;
        }
        let run = Run { text, bold, underline };
        proof {
            let before = runs@;
            let after = before.push(run);
            assert(after.drop_last() == before);
            assert(run_cells(run) =~= cells@.subrange(i as int, j as int));
            assert(cells@.take(i as int) + cells@.subrange(i as int, j as int) == cells@.take(
                j as int,
            ));
            assert forall|k: int| 0 <= k < after.len() implies (#[trigger] after[k]).text@.len()
                > 0 by {
                if k < before.len() {
                    assert(after[k] == before[k]);
                }
            }
            assert forall|k: int| 0 <= k < after.len() - 1 implies !((#[trigger] after[k]).bold
                == after[k + 1].bold && after[k].underline == after[k + 1].underline) by {
                assert(after[k] == before[k]);
                if k + 1 < before.len() {
                    assert(after[k + 1] == before[k + 1]);
                }
            }
        }
        runs.push(run);
        i = j;
    }
    proof {
        assert(cells@.take(n as int) == cells@);
    }
    runs
}

} // verus!
