//! The display writer: a stateful driver over the fixed-size character grid.
//!
//! The writer owns the grid of cells, a cursor column in the bottom row, and a
//! current color attribute. Writing a printable byte places a cell at the
//! cursor and advances it; a newline byte, or writing past the last column,
//! performs a line transition that scrolls every row up by one, clears the
//! bottom row to blanks, and resets the cursor to column 0.

use crate::color::ColorCode;
use vstd::prelude::*;
use vstd::string::StringSliceAdditionalSpecFns;

verus! {

/// Number of rows in the character grid.
pub const BUFFER_HEIGHT: usize = 25;

/// Number of columns in the character grid.
pub const BUFFER_WIDTH: usize = 80;

/// The byte that triggers a line transition instead of being rendered.
pub const NEWLINE_BYTE: u8 = 0x0a;

/// The placeholder glyph rendered in place of any byte the display cannot
/// show directly.
pub const PLACEHOLDER_BYTE: u8 = 0xfe;

/// The blank (space) character that cleared cells carry.
pub const BLANK_BYTE: u8 = 0x20;

/// One character position in the grid: an 8-bit character code plus the
/// attribute it is rendered with.
#[derive(Debug, Clone, Copy, PartialEq, Eq, Structural)]
pub struct ScreenChar {
    pub ascii_character: u8,
    pub color_code: ColorCode,
}

/// The mathematical model of a writer: the grid as a sequence of rows, the
/// cursor column, and the current attribute.
#[verifier::ext_equal]
pub ghost struct WriterView {
    pub grid: Seq<Seq<ScreenChar>>,
    pub column: nat,
    pub attribute: ColorCode,
}

impl WriterView {
    /// Well-formedness: the grid has exactly `BUFFER_HEIGHT` rows of exactly
    /// `BUFFER_WIDTH` cells, and the cursor never moves past the row's end.
    pub open spec fn wf(self) -> bool {
        &&& self.grid.len() == BUFFER_HEIGHT
        &&& forall|r: int|
            0 <= r < self.grid.len() ==> (#[trigger] self.grid[r]).len() == BUFFER_WIDTH
        &&& self.column <= BUFFER_WIDTH
    }
}

/// A blank cell carrying the given attribute.
pub open spec fn blank_char(attribute: ColorCode) -> ScreenChar {
    ScreenChar { ascii_character: BLANK_BYTE, color_code: attribute }
}

/// A full row of blank cells carrying the given attribute.
pub open spec fn blank_row(attribute: ColorCode) -> Seq<ScreenChar> {
    Seq::new(BUFFER_WIDTH as nat, |c: int| blank_char(attribute))
}

/// The writer state of a freshly initialized writer: an all-blank grid, the
/// cursor at column 0, and the given attribute.
pub open spec fn initial_view(attribute: ColorCode) -> WriterView {
    WriterView {
        grid: Seq::new(BUFFER_HEIGHT as nat, |r: int| blank_row(attribute)),
        column: 0,
        attribute,
    }
}

/// The effect of a line transition: every row takes the contents of the row
/// below it (row 0's prior contents scroll off the top), the bottom row is
/// cleared to blanks carrying the current attribute, and the cursor returns
/// to column 0.
pub open spec fn scrolled(v: WriterView) -> WriterView {
    WriterView {
        grid: Seq::new(
            v.grid.len(),
            |r: int|
                if r < v.grid.len() - 1 {
                    v.grid[r + 1]
                } else {
                    blank_row(v.attribute)
                },
        ),
        column: 0,
        attribute: v.attribute,
    }
}

/// The effect of writing one byte. A newline performs a line transition and
/// renders no cell. Any other byte is placed at the cursor in the bottom row
/// (after a line transition if the cursor has reached the grid width) with
/// the current attribute, and the cursor advances by one.
pub open spec fn written(v: WriterView, byte: u8) -> WriterView {
    if byte == NEWLINE_BYTE {
        scrolled(v)
    } else {
        let base = if v.column >= BUFFER_WIDTH {
            scrolled(v)
        } else {
            v
        };
        WriterView {
            grid: base.grid.update(
                BUFFER_HEIGHT - 1,
                base.grid[BUFFER_HEIGHT - 1].update(
                    base.column as int,
                    ScreenChar { ascii_character: byte, color_code: base.attribute },
                ),
            ),
            column: base.column + 1,
            attribute: base.attribute,
        }
    }
}

/// The sanitization applied to each byte of a string before it reaches the
/// cell-writing logic: printable bytes (0x20 through 0x7e) and the newline
/// byte pass unchanged; every other byte becomes the placeholder glyph.
pub open spec fn sanitize_byte(byte: u8) -> u8 {
    if (0x20 <= byte <= 0x7e) || byte == NEWLINE_BYTE {
        byte
    } else {
        PLACEHOLDER_BYTE
    }
}

/// The effect of writing a whole byte sequence: each byte in order is
/// sanitized and then written, so every input byte produces exactly one cell,
/// one placeholder cell, or one line transition.
pub open spec fn written_string(v: WriterView, bytes: Seq<u8>) -> WriterView
    decreases bytes.len(),
{
    if bytes.len() == 0 {
        v
    } else {
        written_string(written(v, sanitize_byte(bytes[0])), bytes.subrange(1, bytes.len() as int))
    }
}

/// A line transition and a write of a non-newline byte both preserve
/// well-formedness of the writer state.
pub proof fn lemma_written_wf(v: WriterView, byte: u8)
    requires
        v.wf(),
    ensures
        scrolled(v).wf(),
        written(v, byte).wf(),
{
    assert(blank_row(v.attribute).len() == BUFFER_WIDTH);
}

/// Writing a byte sequence extended by one byte is the same as writing the
/// sequence and then writing the sanitized byte.
pub proof fn lemma_written_string_snoc(v: WriterView, bytes: Seq<u8>, b: u8)
    ensures
        written_string(v, bytes.push(b)) == written(written_string(v, bytes), sanitize_byte(b)),
    decreases bytes.len(),
{
    if bytes.len() == 0 {
        assert(bytes.push(b).subrange(1, 1) =~= Seq::<u8>::empty());
        assert(bytes.push(b)[0] == b);
        assert(written_string(written(v, sanitize_byte(b)), Seq::<u8>::empty()) == written(
            v,
            sanitize_byte(b),
        ));
        assert(written_string(v, bytes) == v);
    } else {
        assert(bytes.push(b).subrange(1, bytes.len() as int + 1) =~= bytes.subrange(
            1,
            bytes.len() as int,
        ).push(b));
        lemma_written_string_snoc(
            written(v, sanitize_byte(bytes[0])),
            bytes.subrange(1, bytes.len() as int),
            b,
        );
    }
}

/// Writing an empty sequence of bytes changes neither the cursor column nor
/// any cell: the writer state is returned exactly as it was.
pub proof fn lemma_write_nothing(v: WriterView)
    ensures
        written_string(v, Seq::<u8>::empty()) == v,
{
}

/// Writing a single non-newline byte renders exactly one cell: the byte
/// itself if it is printable (0x20 through 0x7e), the placeholder glyph
/// otherwise, placed at the cursor in the bottom row (at column 0 of the
/// freshly scrolled row if the cursor had reached the grid width), carrying
/// the writer's current attribute; the cursor ends one past that cell.
pub proof fn lemma_write_single_byte(v: WriterView, b: u8)
    requires
        v.wf(),
        b != NEWLINE_BYTE,
    ensures
        ({
            let w = written_string(v, seq![b]);
            let target: int = if v.column >= BUFFER_WIDTH {
                0
            } else {
                v.column as int
            };
            &&& w.wf()
            &&& w.grid[BUFFER_HEIGHT - 1][target].color_code == v.attribute
            &&& (0x20 <= b <= 0x7e ==> w.grid[BUFFER_HEIGHT - 1][target].ascii_character == b)
            &&& (!(0x20 <= b <= 0x7e) ==> w.grid[BUFFER_HEIGHT - 1][target].ascii_character
                == PLACEHOLDER_BYTE)
            &&& w.column == target + 1
        }),
{
    assert(seq![b].subrange(1, 1) =~= Seq::<u8>::empty());
    assert(seq![b][0] == b);
    lemma_written_wf(v, sanitize_byte(b));
    let w1 = written(v, sanitize_byte(b));
    assert(written_string(w1, Seq::<u8>::empty()) == w1);
    assert(written_string(v, seq![b]) == w1);
    let base = if v.column >= BUFFER_WIDTH {
        scrolled(v)
    } else {
        v
    };
    assert(w1.grid[BUFFER_HEIGHT - 1] == base.grid[BUFFER_HEIGHT - 1].update(
        base.column as int,
        ScreenChar { ascii_character: sanitize_byte(b), color_code: v.attribute },
    ));
}

/// Writing a run of printable bytes that fits in the remainder of the bottom
/// row fills it left-to-right in order, one cell per byte, each carrying the
/// current attribute; the cursor advances by the run's length, every other
/// cell of the bottom row keeps its contents, and no other row changes. With
/// the cursor at column 0 and a run of exactly `BUFFER_WIDTH` bytes, this is
/// the full-row fill that leaves the cursor at the grid width.
pub proof fn lemma_write_printable_run(v: WriterView, s: Seq<u8>)
    requires
        v.wf(),
        v.column + s.len() <= BUFFER_WIDTH,
        forall|i: int| 0 <= i < s.len() ==> 0x20 <= #[trigger] s[i] <= 0x7e,
    ensures
        ({
            let w = written_string(v, s);
            &&& w.wf()
            &&& w.column == v.column + s.len()
            &&& w.attribute == v.attribute
            &&& forall|r: int| 0 <= r < BUFFER_HEIGHT - 1 ==> #[trigger] w.grid[r] == v.grid[r]
            &&& forall|c: int|
                v.column <= c < v.column + s.len() ==> #[trigger] w.grid[BUFFER_HEIGHT - 1][c]
                    == (ScreenChar {
                    ascii_character: s[c - v.column],
                    color_code: v.attribute,
                })
            &&& forall|c: int|
                0 <= c < BUFFER_WIDTH && !(v.column <= c < v.column + s.len())
                    ==> #[trigger] w.grid[BUFFER_HEIGHT - 1][c] == v.grid[BUFFER_HEIGHT - 1][c]
        }),
    decreases s.len(),
{
    if s.len() > 0 {
        let v1 = written(v, sanitize_byte(s[0]));
        lemma_written_wf(v, sanitize_byte(s[0]));
        lemma_write_printable_run(v1, s.subrange(1, s.len() as int));
    }
}

/// Writing a non-newline byte with the cursor at the grid width first
/// performs a line transition, then places the byte at column 0 of the newly
/// blank bottom row — never at the last column of the old row. The rest of
/// the new bottom row is blank, every other row holds the prior contents of
/// the row below it, and the cursor ends at column 1.
pub proof fn lemma_write_wraps(v: WriterView, b: u8)
    requires
        v.wf(),
        v.column == BUFFER_WIDTH,
        b != NEWLINE_BYTE,
    ensures
        ({
            let w = written(v, b);
            &&& w.wf()
            &&& w.column == 1
            &&& w.grid[BUFFER_HEIGHT - 1][0] == (ScreenChar {
                ascii_character: b,
                color_code: v.attribute,
            })
            &&& forall|c: int|
                1 <= c < BUFFER_WIDTH ==> #[trigger] w.grid[BUFFER_HEIGHT - 1][c] == blank_char(
                    v.attribute,
                )
            &&& forall|r: int| 0 <= r < BUFFER_HEIGHT - 1 ==> #[trigger] w.grid[r] == v.grid[r + 1]
        }),
{
    lemma_written_wf(v, b);
}

/// The character grid itself: `BUFFER_HEIGHT` rows of `BUFFER_WIDTH` cells.
pub struct Buffer {
    chars: Vec<Vec<ScreenChar>>,
}

/// The display writer: owns the grid, the cursor column in the bottom row,
/// and the attribute applied to every character written next.
pub struct Writer {
    column_position: usize,
    color_code: ColorCode,
    buffer: Buffer,
}

impl View for Writer {
    type V = WriterView;

    closed spec fn view(&self) -> WriterView {
        WriterView {
            grid: self.buffer.chars@.map_values(|row: Vec<ScreenChar>| row@),
            column: self.column_position as nat,
            attribute: self.color_code,
        }
    }
}

impl Writer {
    /// Creates a writer over an all-blank grid, with the cursor at column 0
    /// and the given attribute.
    pub fn new(color_code: ColorCode) -> (w: Writer)
        ensures
            w@ == initial_view(color_code),
            w@.wf(),
    {
        let mut chars: Vec<Vec<ScreenChar>> = Vec::new();
        let mut r: usize = 0;
        while r < BUFFER_HEIGHT
            invariant
                r <= BUFFER_HEIGHT,
                chars@.len() == r,
                forall|i: int| 0 <= i < r ==> (#[trigger] chars@[i])@ == blank_row(color_code),
            decreases BUFFER_HEIGHT - r,
        {
            let mut row: Vec<ScreenChar> = Vec::new();
            let mut c: usize = 0;
            while c < BUFFER_WIDTH
                invariant
                    c <= BUFFER_WIDTH,
                    row@.len() == c,
                    forall|j: int| 0 <= j < c ==> row@[j] == blank_char(color_code),
                decreases BUFFER_WIDTH - c,
            {
                row.push(ScreenChar { ascii_character: BLANK_BYTE, color_code });
                c += 1;
            }
            proof {
                assert(row@ =~= blank_row(color_code));
            }
            chars.push(row);
            r += 1;
        }
        let w = Writer { column_position: 0, color_code, buffer: Buffer { chars } };
        proof {
            assert(w@.grid =~~= initial_view(color_code).grid);
            assert(w@ =~~= initial_view(color_code));
        }
        w
    }

    /// Stores one cell at the given grid position.
    fn set_char(&mut self, row: usize, col: usize, ch: ScreenChar)
        requires
            old(self)@.wf(),
            row < BUFFER_HEIGHT,
            col < BUFFER_WIDTH,
        ensures
            final(self)@.wf(),
            final(self)@.grid == old(self)@.grid.update(
                row as int,
                old(self)@.grid[row as int].update(col as int, ch),
            ),
            final(self)@.column == old(self)@.column,
            final(self)@.attribute == old(self)@.attribute,
    {
        proof {
            assert(self.buffer.chars@.len() == self@.grid.len());
            assert(self.buffer.chars@[row as int]@ == self@.grid[row as int]);
        }
        self.buffer.chars[row][col] = ch;
        proof {
            assert(self@.grid =~~= old(self)@.grid.update(
                row as int,
                old(self)@.grid[row as int].update(col as int, ch),
            ));
            assert(self@.wf());
        }
    }

    /// Performs a line transition: every row takes the prior contents of the
    /// row below it (row 0's prior contents are discarded off the top), the
    /// bottom row is cleared to blank cells carrying the current attribute,
    /// and the cursor returns to column 0. The copy walks the rows
    /// top-to-bottom in place, so no row is overwritten before the row above
    /// it has read it.
    pub fn new_line(&mut self)
        requires
            old(self)@.wf(),
        ensures
            final(self)@.wf(),
            final(self)@ == scrolled(old(self)@),
            final(self)@.column == 0,
            final(self)@.attribute == old(self)@.attribute,
            forall|r: int|
                0 <= r < BUFFER_HEIGHT - 1 ==> #[trigger] final(self)@.grid[r] == old(
                    self,
                )@.grid[r + 1],
            final(self)@.grid[BUFFER_HEIGHT - 1] == blank_row(old(self)@.attribute),
    {
        let ghost g0 = self@.grid;
        let ghost v0 = old(self)@;
        let mut row: usize = 1;
        while row < BUFFER_HEIGHT
            invariant
                v0.wf(),
                self@.wf(),
                1 <= row <= BUFFER_HEIGHT,
                self@.column == v0.column,
                self@.attribute == v0.attribute,
                g0 == v0.grid,
                self@.grid.len() == BUFFER_HEIGHT,
                forall|r: int| 0 <= r < row - 1 ==> #[trigger] self@.grid[r] == g0[r + 1],
                forall|r: int| row - 1 <= r < BUFFER_HEIGHT ==> #[trigger] self@.grid[r] == g0[r],
            decreases BUFFER_HEIGHT - row,
        {
            let mut col: usize = 0;
            while col < BUFFER_WIDTH
                invariant
                    v0.wf(),
                    self@.wf(),
                    1 <= row < BUFFER_HEIGHT,
                    col <= BUFFER_WIDTH,
                    self@.column == v0.column,
                    self@.attribute == v0.attribute,
                    g0 == v0.grid,
                    self@.grid.len() == BUFFER_HEIGHT,
                    forall|r: int| 0 <= r < row - 1 ==> #[trigger] self@.grid[r] == g0[r + 1],
                    forall|r: int| row <= r < BUFFER_HEIGHT ==> #[trigger] self@.grid[r] == g0[r],
                    self@.grid[row - 1].len() == BUFFER_WIDTH,
                    forall|c: int|
                        0 <= c < col ==> #[trigger] self@.grid[row - 1][c] == g0[row as int][c],
                    forall|c: int|
                        col <= c < BUFFER_WIDTH ==> #[trigger] self@.grid[row - 1][c] == g0[row
                            - 1][c],
                decreases BUFFER_WIDTH - col,
            {
                let ch = self.char_at(row, col);
                self.set_char(row - 1, col, ch);
                col += 1;
            }
            proof {
                assert(self@.grid[row - 1] =~= g0[row as int]);
            }
            row += 1;
        }
        let blank = ScreenChar { ascii_character: BLANK_BYTE, color_code: self.color_code };
        let mut col: usize = 0;
        while col < BUFFER_WIDTH
            invariant
                v0.wf(),
                self@.wf(),
                col <= BUFFER_WIDTH,
                self@.column == v0.column,
                self@.attribute == v0.attribute,
                g0 == v0.grid,
                blank == blank_char(v0.attribute),
                self@.grid.len() == BUFFER_HEIGHT,
                forall|r: int|
                    0 <= r < BUFFER_HEIGHT - 1 ==> #[trigger] self@.grid[r] == g0[r + 1],
                self@.grid[BUFFER_HEIGHT - 1].len() == BUFFER_WIDTH,
                forall|c: int|
                    0 <= c < col ==> #[trigger] self@.grid[BUFFER_HEIGHT - 1][c] == blank_char(
                        v0.attribute,
                    ),
            decreases BUFFER_WIDTH - col,
        {
            self.set_char(BUFFER_HEIGHT - 1, col, blank);
            col += 1;
        }
        self.column_position = 0;
        proof {
            assert(self@.grid[BUFFER_HEIGHT - 1] =~= blank_row(v0.attribute));
            assert(self@.grid =~~= scrolled(v0).grid);
            assert(self@ =~~= scrolled(v0));
        }
    }

    /// Renders one byte. A newline byte triggers a line transition and writes
    /// no cell; any other byte is placed at the cursor in the bottom row with
    /// the current attribute (after a line transition if the cursor has
    /// reached the grid width) and the cursor advances by one. Total over all
    /// byte values: the byte is stored as given, so callers that need the
    /// printable-only guarantee sanitize first (as `write_string` does).
    pub fn write_byte(&mut self, byte: u8)
        requires
            old(self)@.wf(),
        ensures
            final(self)@.wf(),
            final(self)@ == written(old(self)@, byte),
    {
        if byte == NEWLINE_BYTE {
            self.new_line();
        } else {
            if self.column_position >= BUFFER_WIDTH {
                self.new_line();
            }
            let row = BUFFER_HEIGHT - 1;
            let col = self.column_position;
            let color_code = self.color_code;
            self.set_char(row, col, ScreenChar { ascii_character: byte, color_code });
            self.column_position += 1;
            proof {
                assert(self@ =~~= written(old(self)@, byte));
            }
        }
    }

    /// Renders a string a raw byte at a time. Printable bytes (0x20 through
    /// 0x7e) and the newline byte are forwarded to `write_byte` unchanged;
    /// every other byte — including each byte of a multi-byte UTF-8
    /// encoding — is substituted by the placeholder glyph, so every input
    /// byte produces exactly one cell, one placeholder cell, or one line
    /// transition.
    pub fn write_string(&mut self, s: &str)
        requires
            old(self)@.wf(),
        ensures
            final(self)@.wf(),
            final(self)@ == written_string(old(self)@, s.spec_bytes()),
    {
        let ghost v0 = self@;
        let bytes = s.as_bytes();
        let n = bytes.len();
        let mut i: usize = 0;
        while i < n
            invariant
                self@.wf(),
                i <= n,
                n == bytes@.len(),
                self@ == written_string(v0, bytes@.subrange(0, i as int)),
            decreases n - i,
        {
            let byte = bytes[i];
            if (0x20 <= byte && byte <= 0x7e) || byte == NEWLINE_BYTE {
                self.write_byte(byte);
            } else {
                self.write_byte(PLACEHOLDER_BYTE);
            }
            proof {
                assert(bytes@.subrange(0, i + 1) =~= bytes@.subrange(0, i as int).push(byte));
                lemma_written_string_snoc(v0, bytes@.subrange(0, i as int), byte);
            }
            i += 1;
        }
        proof {
            assert(bytes@.subrange(0, n as int) =~= bytes@);
        }
    }

    /// Returns the cursor's current column in the bottom row.
    pub fn column_position(&self) -> (c: usize)
        ensures
            c == self@.column,
    {
        self.column_position
    }

    /// Returns the attribute currently applied to written characters.
    pub fn color_code(&self) -> (cc: ColorCode)
        ensures
            cc == self@.attribute,
    {
        self.color_code
    }

    /// Returns the cell at the given grid position.
    pub fn char_at(&self, row: usize, col: usize) -> (ch: ScreenChar)
        requires
            self@.wf(),
            row < BUFFER_HEIGHT,
            col < BUFFER_WIDTH,
        ensures
            ch == self@.grid[row as int][col as int],
    {
        proof {
            assert(self.buffer.chars@.len() == self@.grid.len());
            assert(self.buffer.chars@[row as int]@ == self@.grid[row as int]);
        }
        self.buffer.chars[row][col]
    }
}

} // verus!
