//! The console writer: a fixed-size grid of character/color cells with a
//! cursor column, scrolling, printable-byte filtering and leveled output.
//!
//! The grid is held as plain cells; mirroring it onto memory-mapped display
//! hardware is left to the surrounding program.

use vstd::prelude::*;
use vstd::string::StringSliceAdditionalSpecFns;

verus! {

/// The sixteen colors of the text-mode palette.
#[derive(Clone, Copy, PartialEq, Eq, Structural, Debug)]
pub enum Color {
    Black,
    Blue,
    Green,
    Cyan,
    Red,
    Magenta,
    Brown,
    LightGray,
    DarkGray,
    LightBlue,
    LightGreen,
    LightCyan,
    LightRed,
    Pink,
    Yellow,
    White,
}

impl Color {
    /// The palette number of this color.
    pub open spec fn spec_code(self) -> u8 {
        match self {
            Color::Black => 0,
            Color::Blue => 1,
            Color::Green => 2,
            Color::Cyan => 3,
            Color::Red => 4,
            Color::Magenta => 5,
            Color::Brown => 6,
            Color::LightGray => 7,
            Color::DarkGray => 8,
            Color::LightBlue => 9,
            Color::LightGreen => 10,
            Color::LightCyan => 11,
            Color::LightRed => 12,
            Color::Pink => 13,
            Color::Yellow => 14,
            Color::White => 15,
        }
    }

    pub fn code(self) -> (c: u8)
        ensures
            c == self.spec_code(),
            c < 16,
    {
        match self {
            Color::Black => 0,
            Color::Blue => 1,
            Color::Green => 2,
            Color::Cyan => 3,
            Color::Red => 4,
            Color::Magenta => 5,
            Color::Brown => 6,
            Color::LightGray => 7,
            Color::DarkGray => 8,
            Color::LightBlue => 9,
            Color::LightGreen => 10,
            Color::LightCyan => 11,
            Color::LightRed => 12,
            Color::Pink => 13,
            Color::Yellow => 14,
            Color::White => 15,
        }
    }
}

/// A packed foreground/background color pair: the background in the high
/// four bits, the foreground in the low four.
#[derive(Clone, Copy, PartialEq, Eq, Structural, Debug)]
pub struct ColorCode(pub u8);

impl ColorCode {
    pub fn new(foreground: Color, background: Color) -> (cc: ColorCode)
        ensures
            cc.0 == background.spec_code() * 16 + foreground.spec_code(),
    {
        let f = foreground.code();
        let b = background.code();
        proof {
            assert((b << 4u8) | f == b * 16 + f) by (bit_vector)
                requires
                    b < 16,
                    f < 16,
            ;
        }
        ColorCode((b << 4u8) | f)
    }
}

/// The color every writer starts in and returns to after leveled output:
/// light green on black.
pub open spec fn default_color_code() -> ColorCode {
    ColorCode(10)
}

/// One cell of the console grid: a character byte and its color pair.
#[derive(Clone, Copy, PartialEq, Eq, Structural, Debug)]
pub struct ScreenChar {
    pub ascii_character: u8,
    pub color_code: ColorCode,
}

/// Number of rows in the console grid.
pub const BUFFER_HEIGHT: usize = 25;

/// Number of columns in the console grid.
pub const BUFFER_WIDTH: usize = 80;

/// The glyph that stands in for any byte the console cannot render.
pub const PLACEHOLDER_GLYPH: u8 = 0xfe;

/// A byte the console renders as itself.
pub open spec fn printable_byte(b: u8) -> bool {
    0x20 <= b <= 0x7e
}

/// What a requested byte becomes on the screen: printable bytes and the
/// newline pass through, everything else is replaced by the placeholder.
pub open spec fn glyph_for(b: u8) -> u8 {
    if printable_byte(b) || b == 0x0a {
        b
    } else {
        PLACEHOLDER_GLYPH
    }
}

/// A cell cleared to a space in the given color.
pub open spec fn blank_cell(color: ColorCode) -> ScreenChar {
    ScreenChar { ascii_character: 0x20, color_code: color }
}

/// A whole row of blank cells.
pub open spec fn blank_row(color: ColorCode) -> Seq<ScreenChar> {
    Seq::new(BUFFER_WIDTH as nat, |c: int| blank_cell(color))
}

/// A whole grid of blank cells.
pub open spec fn blank_grid(color: ColorCode) -> Seq<Seq<ScreenChar>> {
    Seq::new(BUFFER_HEIGHT as nat, |r: int| blank_row(color))
}

/// A grid of the fixed height whose rows all have the fixed width.
pub open spec fn grid_wf(g: Seq<Seq<ScreenChar>>) -> bool {
    &&& g.len() == BUFFER_HEIGHT
    &&& forall|r: int| 0 <= r < BUFFER_HEIGHT ==> (#[trigger] g[r]).len() == BUFFER_WIDTH
}

/// One scroll step: every row moves up by one, the old top row is discarded,
/// and the bottom row is cleared to blanks in the given color.
pub open spec fn scroll_spec(g: Seq<Seq<ScreenChar>>, color: ColorCode) -> Seq<Seq<ScreenChar>> {
    Seq::new(
        BUFFER_HEIGHT as nat,
        |r: int|
            if r < BUFFER_HEIGHT - 1 {
                g[r + 1]
            } else {
                blank_row(color)
            },
    )
}

/// The state after one byte is written at cursor column `col` in a grid:
/// the new grid, the new cursor column, and how many scrolls occurred (0 or
/// 1).  A newline scrolls; any other byte is placed at the bottom row under
/// the cursor, and the row scrolls as soon as its last cell is filled, so
/// the cursor always stays inside the row.
pub open spec fn write_byte_spec(g: Seq<Seq<ScreenChar>>, col: int, color: ColorCode, byte: u8) -> (
    Seq<Seq<ScreenChar>>,
    int,
    int,
) {
    if byte == 0x0a {
        (scroll_spec(g, color), 0, 1)
    } else {
        let written = g.update(
            BUFFER_HEIGHT - 1,
            g[BUFFER_HEIGHT - 1].update(col, ScreenChar { ascii_character: byte, color_code: color }),
        );
        if col + 1 == BUFFER_WIDTH {
            (scroll_spec(written, color), 0, 1)
        } else {
            (written, col + 1, 0)
        }
    }
}

/// The state after a whole byte sequence is written, each byte first passed
/// through `glyph_for`: the new grid, the new cursor column, and the total
/// number of scrolls.
pub open spec fn write_seq_spec(g: Seq<Seq<ScreenChar>>, col: int, color: ColorCode, s: Seq<u8>) -> (
    Seq<Seq<ScreenChar>>,
    int,
    int,
)
    decreases s.len(),
{
    if s.len() == 0 {
        (g, col, 0)
    } else {
        let first = write_byte_spec(g, col, color, glyph_for(s[0]));
        let rest = write_seq_spec(first.0, first.1, color, s.subrange(1, s.len() as int));
        (rest.0, rest.1, first.2 + rest.2)
    }
}

/// Writing `s` and then one more byte is writing `s` with that byte appended.
pub proof fn lemma_write_seq_snoc(
    g: Seq<Seq<ScreenChar>>,
    col: int,
    color: ColorCode,
    s: Seq<u8>,
    b: u8,
)
    ensures
        ({
            let mid = write_seq_spec(g, col, color, s);
            let last = write_byte_spec(mid.0, mid.1, color, glyph_for(b));
            write_seq_spec(g, col, color, s.push(b)) == (last.0, last.1, mid.2 + last.2)
        }),
    decreases s.len(),
{
    if s.len() == 0 {
        assert(s.push(b)[0] == b);
        assert(s.push(b).subrange(1, s.push(b).len() as int) =~= Seq::<u8>::empty());
        let first = write_byte_spec(g, col, color, glyph_for(b));
        assert(write_seq_spec(first.0, first.1, color, Seq::<u8>::empty()) == (
            first.0,
            first.1,
            0int,
        ));
        assert(write_seq_spec(g, col, color, s.push(b)) == (first.0, first.1, first.2));
    } else {
        assert(s.push(b)[0] == s[0]);
        let sub = s.subrange(1, s.len() as int);
        assert(s.push(b).subrange(1, s.push(b).len() as int) =~= sub.push(b));
        let first = write_byte_spec(g, col, color, glyph_for(s[0]));
        lemma_write_seq_snoc(first.0, first.1, color, sub, b);
        let mid_rest = write_seq_spec(first.0, first.1, color, sub);
        let last = write_byte_spec(mid_rest.0, mid_rest.1, color, glyph_for(b));
        assert(write_seq_spec(first.0, first.1, color, sub.push(b)) == (
            last.0,
            last.1,
            mid_rest.2 + last.2,
        ));
        assert(write_seq_spec(g, col, color, s.push(b)) == (
            last.0,
            last.1,
            first.2 + (mid_rest.2 + last.2),
        ));
        assert(write_seq_spec(g, col, color, s) == (
            mid_rest.0,
            mid_rest.1,
            first.2 + mid_rest.2,
        ));
    }
}

/// The color of `[KERNEL]` output: magenta on black.
pub open spec fn kernel_color_code() -> ColorCode {
    ColorCode(5)
}

/// The color of `[INFO]` output: light cyan on black.
pub open spec fn info_color_code() -> ColorCode {
    ColorCode(11)
}

/// The color of `[WARN]` output: yellow on black.
pub open spec fn warn_color_code() -> ColorCode {
    ColorCode(14)
}

/// The color of `[ERROR]` output: light red on black.
pub open spec fn error_color_code() -> ColorCode {
    ColorCode(12)
}

/// The state after one leveled call: the bracketed tag and then the message
/// are written in the level's color, the color reverts to the default, and a
/// final scroll forces the output onto its own line, bottom row blank in the
/// default color and cursor at column zero.
pub open spec fn levelled_spec(
    g: Seq<Seq<ScreenChar>>,
    col: int,
    level_color: ColorCode,
    tag: Seq<u8>,
    msg: Seq<u8>,
) -> (Seq<Seq<ScreenChar>>, int) {
    let tagged = write_seq_spec(g, col, level_color, tag);
    let written = write_seq_spec(tagged.0, tagged.1, level_color, msg);
    (scroll_spec(written.0, default_color_code()), 0)
}

/// Exclusive owner of the console grid: the cells, the cursor column and the
/// current color pair.
pub struct Writer {
    pub column_position: usize,
    pub color_code: ColorCode,
    pub buffer: Vec<Vec<ScreenChar>>,
}

impl Writer {
    /// The grid as a sequence of rows of cells.
    pub open spec fn grid(self) -> Seq<Seq<ScreenChar>> {
        self.buffer@.map_values(|row: Vec<ScreenChar>| row@)
    }

    /// Well-formedness: the grid has its fixed shape and the cursor lies
    /// inside the row, in `[0, BUFFER_WIDTH)`.
    pub open spec fn wf(self) -> bool {
        &&& grid_wf(self.grid())
        &&& self.column_position < BUFFER_WIDTH
    }

    /// A fresh writer: cursor at column zero, default color, blank grid.
    pub fn new() -> (w: Writer)
        ensures
            w.wf(),
            w.column_position == 0,
            w.color_code == default_color_code(),
            w.grid() == blank_grid(default_color_code()),
    {
        let color_code = ColorCode::new(Color::LightGreen, Color::Black);
        let mut buffer: Vec<Vec<ScreenChar>> = Vec::new();
        while buffer.len() < BUFFER_HEIGHT
            invariant
                buffer@.len() <= BUFFER_HEIGHT,
                forall|r: int| 0 <= r < buffer@.len() ==> (#[trigger] buffer@[r])@ == blank_row(
                    color_code,
                ),
            decreases BUFFER_HEIGHT - buffer.len(),
        {
            let mut row: Vec<ScreenChar> = Vec::new();
            while row.len() < BUFFER_WIDTH
                invariant
                    row@.len() <= BUFFER_WIDTH,
                    forall|c: int| 0 <= c < row@.len() ==> row@[c] == blank_cell(color_code),
                decreases BUFFER_WIDTH - row.len(),
            {
                row.push(ScreenChar { ascii_character: 0x20, color_code });
            }
            proof {
                assert(row@ =~= blank_row(color_code));
            }
            buffer.push(row);
        }
        let w = Writer { column_position: 0, color_code, buffer };
        proof {
            assert(w.color_code == default_color_code());
            assert(w.grid() =~~= blank_grid(default_color_code()));
        }
        w
    }

    /// Switch the current color pair; the grid and cursor are untouched.
    pub fn change_color(&mut self, color_code: ColorCode)
        ensures
            final(self).color_code == color_code,
            final(self).column_position == old(self).column_position,
            final(self).grid() == old(self).grid(),
    {
        self.color_code = color_code;
    }

    /// Return to the default color; the grid and cursor are untouched.
    pub fn change_to_default_color(&mut self)
        ensures
            final(self).color_code == default_color_code(),
            final(self).column_position == old(self).column_position,
            final(self).grid() == old(self).grid(),
    {
        self.change_color(ColorCode::new(Color::LightGreen, Color::Black));
    }

    /// Clear one row to blanks in the current color.
    pub fn clear_row(&mut self, row: usize)
        requires
            grid_wf(old(self).grid()),
            row < BUFFER_HEIGHT,
        ensures
            grid_wf(final(self).grid()),
            final(self).color_code == old(self).color_code,
            final(self).column_position == old(self).column_position,
            final(self).grid() == old(self).grid().update(
                row as int,
                blank_row(old(self).color_code),
            ),
    {
        let blank = ScreenChar { ascii_character: 0x20, color_code: self.color_code };
        let mut col: usize = 0;
        while col < BUFFER_WIDTH
            invariant
                grid_wf(old(self).grid()),
                row < BUFFER_HEIGHT,
                col <= BUFFER_WIDTH,
                blank == blank_cell(old(self).color_code),
                self.color_code == old(self).color_code,
                self.column_position == old(self).column_position,
                grid_wf(self.grid()),
                forall|r: int|
                    0 <= r < BUFFER_HEIGHT && r != row ==> #[trigger] self.grid()[r] == old(
                        self,
                    ).grid()[r],
                forall|c: int| 0 <= c < col ==> #[trigger] self.grid()[row as int][c] == blank,
                forall|c: int|
                    col <= c < BUFFER_WIDTH ==> #[trigger] self.grid()[row as int][c] == old(
                        self,
                    ).grid()[row as int][c],
            decreases BUFFER_WIDTH - col,
        {
            let ghost prev = self.grid();
            proof {
                assert(prev[row as int] == self.buffer@[row as int]@);
            }
            self.buffer[row][col] = blank;
            proof {
                assert(self.grid() =~~= prev.update(
                    row as int,
                    prev[row as int].update(col as int, blank),
                ));
            }
            col += 1;
        }
        proof {
            assert(self.grid()[row as int] =~= blank_row(old(self).color_code));
            assert(self.grid() =~~= old(self).grid().update(
                row as int,
                blank_row(old(self).color_code),
            ));
        }
    }

    /// Scroll: copy every row one row up (discarding the top row), clear the
    /// bottom row to blanks in the current color, and reset the cursor to
    /// column zero.
    pub fn new_line(&mut self)
        requires
            grid_wf(old(self).grid()),
        ensures
            final(self).wf(),
            final(self).color_code == old(self).color_code,
            final(self).column_position == 0,
            final(self).grid() == scroll_spec(old(self).grid(), old(self).color_code),
    {
        let ghost g0 = self.grid();
        let mut row: usize = 1;
        while row < BUFFER_HEIGHT
            invariant
                1 <= row <= BUFFER_HEIGHT,
                grid_wf(g0),
                grid_wf(self.grid()),
                self.color_code == old(self).color_code,
                forall|r: int| 0 <= r < row - 1 ==> #[trigger] self.grid()[r] == g0[r + 1],
                forall|r: int| row - 1 <= r < BUFFER_HEIGHT ==> #[trigger] self.grid()[r] == g0[r],
            decreases BUFFER_HEIGHT - row,
        {
            let mut col: usize = 0;
            while col < BUFFER_WIDTH
                invariant
                    1 <= row < BUFFER_HEIGHT,
                    col <= BUFFER_WIDTH,
                    grid_wf(g0),
                    grid_wf(self.grid()),
                    self.color_code == old(self).color_code,
                    forall|r: int| 0 <= r < row - 1 ==> #[trigger] self.grid()[r] == g0[r + 1],
                    forall|r: int| row <= r < BUFFER_HEIGHT ==> #[trigger] self.grid()[r] == g0[r],
                    forall|c: int|
                        0 <= c < col ==> #[trigger] self.grid()[row - 1][c] == g0[row as int][c],
                    forall|c: int|
                        col <= c < BUFFER_WIDTH ==> #[trigger] self.grid()[row - 1][c] == g0[row
                            - 1][c],
                decreases BUFFER_WIDTH - col,
            {
                let ghost prev = self.grid();
                proof {
                    assert(prev[row as int] == self.buffer@[row as int]@);
                    assert(prev[row - 1] == self.buffer@[row - 1]@);
                }
                let character = self.buffer[row][col];
                self.buffer[row - 1][col] = character;
                proof {
                    assert(self.grid() =~~= prev.update(
                        row - 1,
                        prev[row - 1].update(col as int, character),
                    ));
                }
                col += 1;
            }
            proof {
                assert(self.grid()[row - 1] =~= g0[row as int]);
            }
            row += 1;
        }
        self.clear_row(BUFFER_HEIGHT - 1);
        self.column_position = 0;
        proof {
            assert(self.grid() =~~= scroll_spec(g0, old(self).color_code));
        }
    }

    /// Write one byte at the cursor on the bottom row in the current color.
    /// A newline scrolls instead; filling the last cell of the row scrolls
    /// immediately, so the cursor never leaves `[0, BUFFER_WIDTH)`.
    pub fn write_byte(&mut self, byte: u8)
        requires
            old(self).wf(),
        ensures
            final(self).wf(),
            final(self).color_code == old(self).color_code,
            final(self).grid() == write_byte_spec(
                old(self).grid(),
                old(self).column_position as int,
                old(self).color_code,
                byte,
            ).0,
            final(self).column_position as int == write_byte_spec(
                old(self).grid(),
                old(self).column_position as int,
                old(self).color_code,
                byte,
            ).1,
    {
        if byte == 0x0a {
            self.new_line();
        } else {
            let row = BUFFER_HEIGHT - 1;
            let col = self.column_position;
            let color_code = self.color_code;
            let ghost prev = self.grid();
            proof {
                assert(prev[row as int] == self.buffer@[row as int]@);
            }
            self.buffer[row][col] = ScreenChar { ascii_character: byte, color_code };
            proof {
                assert(self.grid() =~~= prev.update(
                    row as int,
                    prev[row as int].update(
                        col as int,
                        ScreenChar { ascii_character: byte, color_code },
                    ),
                ));
            }
            self.column_position += 1;
            if self.column_position == BUFFER_WIDTH {
                self.new_line();
            }
        }
    }

    /// Write a string byte by byte: printable bytes and newlines pass
    /// through as-is, every other byte is rendered as the placeholder glyph.
    /// The contract is stated over the string's byte encoding.
    pub fn write_string(&mut self, s: &str)
        requires
            old(self).wf(),
        ensures
            final(self).wf(),
            final(self).color_code == old(self).color_code,
            final(self).grid() == write_seq_spec(
                old(self).grid(),
                old(self).column_position as int,
                old(self).color_code,
                s.spec_bytes(),
            ).0,
            final(self).column_position as int == write_seq_spec(
                old(self).grid(),
                old(self).column_position as int,
                old(self).color_code,
                s.spec_bytes(),
            ).1,
    {
        let ghost g0 = self.grid();
        let ghost c0 = self.column_position as int;
        let ghost color = self.color_code;
        let bytes = s.as_bytes();
        let n = bytes.len();
        let mut i: usize = 0;
        while i < n
            invariant
                n == bytes@.len(),
                i <= n,
                bytes@ == s.spec_bytes(),
                self.wf(),
                self.color_code == color,
                self.grid() == write_seq_spec(g0, c0, color, bytes@.take(i as int)).0,
                self.column_position as int == write_seq_spec(g0, c0, color, bytes@.take(i as int)).1,
            decreases n - i,
        {
            let byte = bytes[i];
            proof {
                lemma_write_seq_snoc(g0, c0, color, bytes@.take(i as int), byte);
                assert(bytes@.take(i + 1) =~= bytes@.take(i as int).push(byte));
            }
            if (0x20 <= byte && byte <= 0x7e) || byte == 0x0a {
                self.write_byte(byte);
            } else {
                self.write_byte(PLACEHOLDER_GLYPH);
            }
            i += 1;
        }
        proof {
            assert(bytes@.take(n as int) =~= bytes@);
        }
    }

    /// Leveled output: `[KERNEL]` tag and message in the kernel color, then
    /// back to the default color on a fresh line.
    pub fn kernel(&mut self, s: &str)
        requires
            old(self).wf(),
        ensures
            final(self).wf(),
            final(self).color_code == default_color_code(),
            final(self).column_position == 0,
            final(self).grid() == levelled_spec(
                old(self).grid(),
                old(self).column_position as int,
                kernel_color_code(),
                ("[KERNEL] ").spec_bytes(),
                s.spec_bytes(),
            ).0,
    {
        self.change_color(ColorCode::new(Color::Magenta, Color::Black));
        self.write_string("[KERNEL] ");
        self.write_string(s);
        self.change_to_default_color();
        self.new_line();
    }

    /// Leveled output: `[INFO]` tag and message in the info color, then back
    /// to the default color on a fresh line.
    pub fn info(&mut self, s: &str)
        requires
            old(self).wf(),
        ensures
            final(self).wf(),
            final(self).color_code == default_color_code(),
            final(self).column_position == 0,
            final(self).grid() == levelled_spec(
                old(self).grid(),
                old(self).column_position as int,
                info_color_code(),
                ("[INFO] ").spec_bytes(),
                s.spec_bytes(),
            ).0,
    {
        self.change_color(ColorCode::new(Color::LightCyan, Color::Black));
        self.write_string("[INFO] ");
        self.write_string(s);
        self.change_to_default_color();
        self.new_line();
    }

    /// Leveled output: `[WARN]` tag and message in the warn color, then back
    /// to the default color on a fresh line.
    pub fn warn(&mut self, s: &str)
        requires
            old(self).wf(),
        ensures
            final(self).wf(),
            final(self).color_code == default_color_code(),
            final(self).column_position == 0,
            final(self).grid() == levelled_spec(
                old(self).grid(),
                old(self).column_position as int,
                warn_color_code(),
                ("[WARN] ").spec_bytes(),
                s.spec_bytes(),
            ).0,
    {
        self.change_color(ColorCode::new(Color::Yellow, Color::Black));
        self.write_string("[WARN] ");
        self.write_string(s);
        self.change_to_default_color();
        self.new_line();
    }

    /// Leveled output: `[ERROR]` tag and message in the error color, then
    /// back to the default color on a fresh line.
    pub fn error(&mut self, s: &str)
        requires
            old(self).wf(),
        ensures
            final(self).wf(),
            final(self).color_code == default_color_code(),
            final(self).column_position == 0,
            final(self).grid() == levelled_spec(
                old(self).grid(),
                old(self).column_position as int,
                error_color_code(),
                ("[ERROR] ").spec_bytes(),
                s.spec_bytes(),
            ).0,
    {
        self.change_color(ColorCode::new(Color::LightRed, Color::Black));
        self.write_string("[ERROR] ");
        self.write_string(s);
        self.change_to_default_color();
        self.new_line();
    }
}

/// One write keeps the grid's shape and the cursor inside `[0, BUFFER_WIDTH)`.
pub proof fn lemma_write_byte_in_range(g: Seq<Seq<ScreenChar>>, col: int, color: ColorCode, b: u8)
    requires
        grid_wf(g),
        0 <= col < BUFFER_WIDTH,
    ensures
        grid_wf(write_byte_spec(g, col, color, b).0),
        0 <= write_byte_spec(g, col, color, b).1 < BUFFER_WIDTH,
{
}

/// After any sequence of writes from a well-formed state, the grid keeps its
/// shape and the cursor stays in `[0, BUFFER_WIDTH)`.
pub proof fn lemma_write_seq_in_range(g: Seq<Seq<ScreenChar>>, col: int, color: ColorCode, s: Seq<u8>)
    requires
        grid_wf(g),
        0 <= col < BUFFER_WIDTH,
    ensures
        grid_wf(write_seq_spec(g, col, color, s).0),
        0 <= write_seq_spec(g, col, color, s).1 < BUFFER_WIDTH,
    decreases s.len(),
{
    if s.len() != 0 {
        let first = write_byte_spec(g, col, color, glyph_for(s[0]));
        lemma_write_byte_in_range(g, col, color, glyph_for(s[0]));
        lemma_write_seq_in_range(first.0, first.1, color, s.subrange(1, s.len() as int));
    }
}

/// Writing a concatenation is writing the first part and then the second;
/// the scroll counts add up.
pub proof fn lemma_write_seq_append(
    g: Seq<Seq<ScreenChar>>,
    col: int,
    color: ColorCode,
    a: Seq<u8>,
    b: Seq<u8>,
)
    ensures
        ({
            let mid = write_seq_spec(g, col, color, a);
            let end = write_seq_spec(mid.0, mid.1, color, b);
            write_seq_spec(g, col, color, a + b) == (end.0, end.1, mid.2 + end.2)
        }),
    decreases a.len(),
{
    if a.len() == 0 {
        assert(a + b =~= b);
    } else {
        assert((a + b)[0] == a[0]);
        let sub = a.subrange(1, a.len() as int);
        assert((a + b).subrange(1, (a + b).len() as int) =~= sub + b);
        let first = write_byte_spec(g, col, color, glyph_for(a[0]));
        lemma_write_seq_append(first.0, first.1, color, sub, b);
        let mid_rest = write_seq_spec(first.0, first.1, color, sub);
        let end = write_seq_spec(mid_rest.0, mid_rest.1, color, b);
        assert(write_seq_spec(g, col, color, a + b) == (
            end.0,
            end.1,
            first.2 + (mid_rest.2 + end.2),
        ));
        assert(write_seq_spec(g, col, color, a) == (
            mid_rest.0,
            mid_rest.1,
            first.2 + mid_rest.2,
        ));
    }
}

/// A run of printable bytes that fits strictly inside the row scrolls
/// nothing: the cursor moves forward by exactly the run's length, the bytes
/// land in successive cells of the bottom row in the current color, and
/// every other cell is untouched.
pub proof fn lemma_printable_run(g: Seq<Seq<ScreenChar>>, col: int, color: ColorCode, s: Seq<u8>)
    requires
        grid_wf(g),
        0 <= col,
        col + s.len() < BUFFER_WIDTH,
        forall|i: int| 0 <= i < s.len() ==> printable_byte(#[trigger] s[i]),
    ensures
        grid_wf(write_seq_spec(g, col, color, s).0),
        write_seq_spec(g, col, color, s).1 == col + s.len(),
        write_seq_spec(g, col, color, s).2 == 0,
        forall|r: int|
            0 <= r < BUFFER_HEIGHT - 1 ==> #[trigger] write_seq_spec(g, col, color, s).0[r] == g[r],
        forall|c: int|
            0 <= c < col ==> #[trigger] write_seq_spec(g, col, color, s).0[BUFFER_HEIGHT - 1][c]
                == g[BUFFER_HEIGHT - 1][c],
        forall|c: int|
            col <= c < col + s.len() ==> #[trigger] write_seq_spec(g, col, color, s).0[BUFFER_HEIGHT
                - 1][c] == (ScreenChar { ascii_character: s[c - col], color_code: color }),
        forall|c: int|
            col + s.len() <= c < BUFFER_WIDTH ==> #[trigger] write_seq_spec(g, col, color, s).0[
                BUFFER_HEIGHT - 1][c] == g[BUFFER_HEIGHT - 1][c],
    decreases s.len(),
{
    if s.len() != 0 {
        let first = write_byte_spec(g, col, color, glyph_for(s[0]));
        lemma_printable_run(first.0, col + 1, color, s.subrange(1, s.len() as int));
    }
}

/// Writing `BUFFER_WIDTH + 1` printable bytes from the start of an empty row
/// scrolls exactly once and leaves the cursor at column 1: the first
/// `BUFFER_WIDTH` bytes end up one row above the bottom, and the bottom row
/// holds only the single overflowing byte at column 0.
pub proof fn lemma_fill_row_plus_one(g: Seq<Seq<ScreenChar>>, color: ColorCode, s: Seq<u8>)
    requires
        grid_wf(g),
        s.len() == BUFFER_WIDTH + 1,
        forall|i: int| 0 <= i < s.len() ==> printable_byte(#[trigger] s[i]),
    ensures
        write_seq_spec(g, 0, color, s).1 == 1,
        write_seq_spec(g, 0, color, s).2 == 1,
        forall|c: int|
            0 <= c < BUFFER_WIDTH ==> #[trigger] write_seq_spec(g, 0, color, s).0[BUFFER_HEIGHT
                - 2][c] == (ScreenChar { ascii_character: s[c], color_code: color }),
        write_seq_spec(g, 0, color, s).0[BUFFER_HEIGHT - 1][0] == (ScreenChar {
            ascii_character: s[BUFFER_WIDTH as int],
            color_code: color,
        }),
        forall|c: int|
            1 <= c < BUFFER_WIDTH ==> #[trigger] write_seq_spec(g, 0, color, s).0[BUFFER_HEIGHT
                - 1][c] == blank_cell(color),
{
    let head = s.subrange(0, BUFFER_WIDTH - 1);
    let filled = s.subrange(0, BUFFER_WIDTH as int);
    let tail = s.subrange(BUFFER_WIDTH as int, s.len() as int);
    lemma_printable_run(g, 0, color, head);
    let mid79 = write_seq_spec(g, 0, color, head);
    lemma_write_seq_snoc(g, 0, color, head, s[BUFFER_WIDTH - 1]);
    assert(filled =~= head.push(s[BUFFER_WIDTH - 1]));
    let ch79 = ScreenChar { ascii_character: s[BUFFER_WIDTH - 1], color_code: color };
    let written = mid79.0.update(
        BUFFER_HEIGHT - 1,
        mid79.0[BUFFER_HEIGHT - 1].update(BUFFER_WIDTH - 1, ch79),
    );
    let mid = write_seq_spec(g, 0, color, filled);
    assert(mid.0 == scroll_spec(written, color));
    assert(mid.1 == 0 && mid.2 == 1);
    assert(forall|c: int|
        0 <= c < BUFFER_WIDTH ==> #[trigger] mid.0[BUFFER_HEIGHT - 2][c] == (ScreenChar {
            ascii_character: s[c],
            color_code: color,
        }));
    assert(mid.0[BUFFER_HEIGHT - 1] == blank_row(color));
    assert(grid_wf(mid.0));
    lemma_write_seq_append(g, 0, color, filled, tail);
    assert(filled + tail =~= s);
    lemma_printable_run(mid.0, 0, color, tail);
    assert(tail[0] == s[BUFFER_WIDTH as int]);
}

/// Any byte that is neither printable nor the newline is rendered exactly as
/// the placeholder glyph: writing it is writing the placeholder, and the
/// cell it lands in holds the placeholder in the current color.
pub proof fn lemma_nonprintable_placeholder(
    g: Seq<Seq<ScreenChar>>,
    col: int,
    color: ColorCode,
    b: u8,
)
    requires
        grid_wf(g),
        0 <= col < BUFFER_WIDTH,
        !printable_byte(b),
        b != 0x0a,
    ensures
        write_seq_spec(g, col, color, seq![b]) == write_byte_spec(g, col, color, PLACEHOLDER_GLYPH),
        col + 1 < BUFFER_WIDTH ==> write_seq_spec(g, col, color, seq![b]).0[BUFFER_HEIGHT - 1][col]
            == (ScreenChar { ascii_character: PLACEHOLDER_GLYPH, color_code: color }),
{
    let s = seq![b];
    assert(s[0] == b);
    assert(glyph_for(b) == PLACEHOLDER_GLYPH);
    assert(s.subrange(1, 1) =~= Seq::<u8>::empty());
    let first = write_byte_spec(g, col, color, PLACEHOLDER_GLYPH);
    let rest = write_seq_spec(first.0, first.1, color, s.subrange(1, 1));
    assert(rest == (first.0, first.1, 0int));
    assert(write_seq_spec(g, col, color, s) == (first.0, first.1, first.2 + 0));
}

/// The grid after `n` scrolls in a row, all in one color.
pub open spec fn scroll_n_spec(g: Seq<Seq<ScreenChar>>, color: ColorCode, n: nat) -> Seq<
    Seq<ScreenChar>,
>
    decreases n,
{
    if n == 0 {
        g
    } else {
        scroll_spec(scroll_n_spec(g, color, (n - 1) as nat), color)
    }
}

/// After `n` scrolls the bottom `n` rows are blank and the rest are the
/// rows that were `n` further down.
pub proof fn lemma_scroll_n_rows(g: Seq<Seq<ScreenChar>>, color: ColorCode, n: nat)
    requires
        g.len() == BUFFER_HEIGHT,
        n <= BUFFER_HEIGHT,
    ensures
        scroll_n_spec(g, color, n).len() == BUFFER_HEIGHT,
        forall|r: int|
            0 <= r < BUFFER_HEIGHT - n ==> #[trigger] scroll_n_spec(g, color, n)[r] == g[r + n],
        forall|r: int|
            BUFFER_HEIGHT - n <= r < BUFFER_HEIGHT ==> #[trigger] scroll_n_spec(g, color, n)[r]
                == blank_row(color),
    decreases n,
{
    if n != 0 {
        lemma_scroll_n_rows(g, color, (n - 1) as nat);
    }
}

/// Scrolling `BUFFER_HEIGHT` times yields the all-blank grid in the current
/// color: nothing of the discarded rows survives.
pub proof fn lemma_scroll_height_times_blank(g: Seq<Seq<ScreenChar>>, color: ColorCode)
    requires
        g.len() == BUFFER_HEIGHT,
    ensures
        scroll_n_spec(g, color, BUFFER_HEIGHT as nat) == blank_grid(color),
{
    lemma_scroll_n_rows(g, color, BUFFER_HEIGHT as nat);
    assert(scroll_n_spec(g, color, BUFFER_HEIGHT as nat) =~= blank_grid(color));
}

} // verus!
