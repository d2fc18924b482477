//! The cells of the VGA text buffer and the cursor of a writer. What is
//! computed here is put into the buffer by the caller.

use vstd::prelude::*;

verus! {

/// The number of cells in a row of the buffer.
pub const BUFFER_WIDTH: u16 = 80;

/// The number of rows of the buffer.
pub const BUFFER_HEIGHT: u16 = 25;

/// A VGA text-mode color.
#[derive(Clone, Copy, Debug, PartialEq, Eq, Structural)]
pub enum Color {
    Black,
    Blue,
    Green,
    Cyan,
    Red,
    Magenta,
    Brown,
    LightGray,
    DarkGray,
    LightBlue,
    LightGreen,
    LightCyan,
    LightRed,
    Pink,
    Yellow,
    White,
}

impl Color {
    /// The number of the color in the palette.
    pub open spec fn code_of(self) -> u8 {
        match self {
            Color::Black => 0x0,
            Color::Blue => 0x1,
            Color::Green => 0x2,
            Color::Cyan => 0x3,
            Color::Red => 0x4,
            Color::Magenta => 0x5,
            Color::Brown => 0x6,
            Color::LightGray => 0x7,
            Color::DarkGray => 0x8,
            Color::LightBlue => 0x9,
            Color::LightGreen => 0xa,
            Color::LightCyan => 0xb,
            Color::LightRed => 0xc,
            Color::Pink => 0xd,
            Color::Yellow => 0xe,
            Color::White => 0xf,
        }
    }

    /// The number of the color in the palette.
    pub fn code(&self) -> (r: u8)
        ensures
            r == self.code_of(),
    {
        match *self {
            Color::Black => 0x0,
            Color::Blue => 0x1,
            Color::Green => 0x2,
            Color::Cyan => 0x3,
            Color::Red => 0x4,
            Color::Magenta => 0x5,
            Color::Brown => 0x6,
            Color::LightGray => 0x7,
            Color::DarkGray => 0x8,
            Color::LightBlue => 0x9,
            Color::LightGreen => 0xa,
            Color::LightCyan => 0xb,
            Color::LightRed => 0xc,
            Color::Pink => 0xd,
            Color::Yellow => 0xe,
            Color::White => 0xf,
        }
    }
}

/// Color codes are made of a 4 bit background color followed by a 4 bit
/// foreground color.
#[derive(Clone, Copy, Debug, PartialEq, Eq, Structural)]
pub struct ColorCode(pub u8);

impl ColorCode {
    /// The code with the foreground color in its low four bits and the
    /// background color in its high four bits.
    pub fn new(fg: Color, bg: Color) -> (r: ColorCode)
        ensures
            r.0 == color_code_of(fg, bg),
            r.0 == fg.code_of() + 16 * bg.code_of(),
    {
        ColorCode(fg.code() + 16 * bg.code())
    }
}

/// A character is made of a char (almost ASCII) in its low byte and a color
/// code in its high byte.
#[derive(Clone, Copy, Debug, PartialEq, Eq, Structural)]
pub struct Char(pub u16);

/// The low sixteen bits of the code point of `c`.
pub open spec fn low_bits(c: char) -> u16 {
    (c as u32 % 0x1_0000) as u16
}

/// The cell for `c` with color code `col`: the color code in the high byte
/// and, for a `c` of one byte, `c` in the low byte. Of a `c` beyond one byte
/// the low sixteen bits are laid over the color code bit by bit.
pub open spec fn cell_of(c: char, col: u8) -> Char {
    Char(low_bits(c) | ((col as u16) << 8))
}

/// The color code of a foreground and a background color.
pub open spec fn color_code_of(fg: Color, bg: Color) -> u8 {
    (fg.code_of() + 16 * bg.code_of()) as u8
}

impl Char {
    /// The cell for `c` in the colors of `col`.
    pub fn new_from_color_code(c: char, col: ColorCode) -> (r: Char)
        ensures
            r == cell_of(c, col.0),
            c as u32 <= 0xff ==> r.0 == c as u32 + 0x100 * col.0,
    {
        let low: u16 = (c as u32 % 0x1_0000) as u16;
        let high: u16 = col.0 as u16;
        assert(low <= 0xff ==> low | (high << 8) == low + 0x100 * high) by (bit_vector)
            requires
                high <= 0xff,
        ;
        Char(low | (high << 8))
    }

    /// The cell for `c` in the given colors.
    pub fn new(c: char, fg: Color, bg: Color) -> (r: Char)
        ensures
            r == cell_of(c, color_code_of(fg, bg)),
            c as u32 <= 0xff ==> r.0 == c as u32 + 0x100 * fg.code_of() + 0x1000 * bg.code_of(),
    {
        Self::new_from_color_code(c, ColorCode::new(fg, bg))
    }

    /// Get the actual `char` this `Char` represents: the one whose code
    /// point is the low byte.
    pub fn char(&self) -> (r: char)
        ensures
            r as u32 == self.0 % 0x100,
    {
        let low: u8 = (self.0 % 0x100) as u8;
        low as char
    }
}

/// Get the position in the buffer of a char at coordinates (x, y): the rows
/// lie one behind the other.
pub fn get_offset(x: u16, y: u16) -> (r: u32)
    ensures
        r == x + y * 80,
{
    let width: u32 = BUFFER_WIDTH as u32;
    assert(width == 80);
    x as u32 + y as u32 * width
}

/// A cell and the coordinates (x, y) at which to put it.
#[derive(Clone, Copy, Debug, PartialEq, Eq)]
pub struct Placed {
    pub cell: Char,
    pub pos: (u16, u16),
}

/// Allows to write a whole string by keeping track of the position of
/// characters. It supports line wrapping.
#[derive(Clone, Copy, Debug)]
pub struct VgaWriter {
    pub pos: (u16, u16),
    pub fg: Color,
    pub bg: Color,
}

impl VgaWriter {
    /// A writer in the given colors with its cursor in the top left corner.
    pub fn new(fg: Color, bg: Color) -> (r: VgaWriter)
        ensures
            r.pos == (0u16, 0u16),
            r.fg == fg,
            r.bg == bg,
    {
        VgaWriter { pos: (0, 0), fg, bg }
    }

    /// A writer of white on black with its cursor in the top left corner.
    pub fn default() -> (r: VgaWriter)
        ensures
            r.pos == (0u16, 0u16),
            r.fg == Color::White,
            r.bg == Color::Black,
    {
        Self::new(Color::White, Color::Black)
    }

    /// Whether the writer can take `c`: a line feed needs a row number to go
    /// to, any other character a cell behind it that is not behind the last
    /// cell of the screen, because the screen is never scrolled.
    pub open spec fn can_take(&self, c: char) -> bool {
        if c == '\n' {
            self.pos.1 < u16::MAX
        } else {
            self.pos.0 < 79 || self.pos.1 < 24
        }
    }

    /// Tells whether the writer can take `c`.
    pub fn takes(&self, c: char) -> (r: bool)
        ensures
            r == self.can_take(c),
    {
        if c == '\n' {
            self.pos.1 < u16::MAX
        } else {
            self.pos.0 < BUFFER_WIDTH - 1 || self.pos.1 < BUFFER_HEIGHT - 1
        }
    }

    /// Moves the cursor to the start of the next row.
    fn wrap(&mut self)
        requires
            old(self).pos.1 < u16::MAX,
        ensures
            final(self).pos == (0u16, (old(self).pos.1 + 1) as u16),
            final(self).fg == old(self).fg,
            final(self).bg == old(self).bg,
    {
        self.pos.1 += 1;
        self.pos.0 = 0
    }

    /// Takes one character. A line feed moves the cursor to the start of the
    /// next row and gives nothing to put. Any other character gives its cell
    /// in the colors of the writer, to be put where the cursor was, and moves
    /// the cursor one cell on, from the last cell of a row to the start of
    /// the next row.
    pub fn put(&mut self, c: char) -> (r: Option<Placed>)
        requires
            old(self).can_take(c),
        ensures
            final(self).fg == old(self).fg,
            final(self).bg == old(self).bg,
            r == if c == '\n' {
                None
            } else {
                Some(
                    Placed {
                        cell: cell_of(c, color_code_of(old(self).fg, old(self).bg)),
                        pos: old(self).pos,
                    },
                )
            },
            final(self).pos == if c == '\n' || old(self).pos.0 >= 79 {
                (0u16, (old(self).pos.1 + 1) as u16)
            } else {
                ((old(self).pos.0 + 1) as u16, old(self).pos.1)
            },
    {
        if c == '\n' {
            self.wrap();
            None
        } else {
            let placed = Placed { cell: Char::new(c, self.fg, self.bg), pos: self.pos };
            if self.pos.0 >= BUFFER_WIDTH - 1 {
                self.wrap();
            } else {
                self.pos.0 += 1;
            }
            Some(placed)
        }
    }
}

/// A cell keeps the character and the color code apart: for a character of
/// one byte, the low byte of the cell is the character, which `char` gives
/// back, and the high byte is the color code.
pub proof fn lemma_cell_keeps_char(c: char, col: u8)
    requires
        c as u32 <= 0xff,
    ensures
        cell_of(c, col).0 % 0x100 == c as u32,
        cell_of(c, col).0 / 0x100 == col,
{
    let low = low_bits(c);
    let high = col as u16;
    assert(low <= 0xff && high <= 0xff ==> (low | (high << 8)) % 0x100 == low && (low | (high
        << 8)) / 0x100 == high) by (bit_vector);
}

} // verus!
