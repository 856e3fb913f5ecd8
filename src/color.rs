use vstd::prelude::*;

verus! {

/// The sixteen colours of the text-mode palette, in hardware order.
#[derive(Clone, Copy, PartialEq, Eq, Debug, Structural)]
pub enum Color {
    Black,
    Blue,
    Green,
    Cyan,
    Red,
    Magenta,
    Brown,
    LightGray,
    DarkGray,
    LightBlue,
    LightGreen,
    LightCyan,
    LightRed,
    Pink,
    Yellow,
    White,
}

impl Color {
    /// The hardware index of the colour, 0 to 15.
    pub open spec fn index(self) -> u8 {
        match self {
            Color::Black => 0,
            Color::Blue => 1,
            Color::Green => 2,
            Color::Cyan => 3,
            Color::Red => 4,
            Color::Magenta => 5,
            Color::Brown => 6,
            Color::LightGray => 7,
            Color::DarkGray => 8,
            Color::LightBlue => 9,
            Color::LightGreen => 10,
            Color::LightCyan => 11,
            Color::LightRed => 12,
            Color::Pink => 13,
            Color::Yellow => 14,
            Color::White => 15,
        }
    }

    /// The hardware index of the colour.
    pub fn code(self) -> (r: u8)
        ensures
            r == self.index(),
            r < 16,
    {
        match self {
            Color::Black => 0,
            Color::Blue => 1,
            Color::Green => 2,
            Color::Cyan => 3,
            Color::Red => 4,
            Color::Magenta => 5,
            Color::Brown => 6,
            Color::LightGray => 7,
            Color::DarkGray => 8,
            Color::LightBlue => 9,
            Color::LightGreen => 10,
            Color::LightCyan => 11,
            Color::LightRed => 12,
            Color::Pink => 13,
            Color::Yellow => 14,
            Color::White => 15,
        }
    }
}

/// An attribute byte: background colour in the high nibble, foreground in the low one.
#[derive(Clone, Copy, PartialEq, Eq, Debug, Structural)]
pub struct ColorCode(u8);

impl ColorCode {
    /// The attribute byte.
    pub closed spec fn byte(self) -> u8 {
        self.0
    }

    /// The attribute byte that a foreground and a background colour give.
    pub open spec fn packed(foreground: Color, background: Color) -> u8 {
        (background.index() * 16 + foreground.index()) as u8
    }

    pub fn new(foreground: Color, background: Color) -> (r: ColorCode)
        ensures
            r.byte() == ColorCode::packed(foreground, background),
            r.byte() / 16 == background.index(),
            r.byte() % 16 == foreground.index(),
    {
        let f = foreground.code();
        let b = background.code();
        let v: u8 = (b << 4u8) | f;
        assert(v == b * 16 + f && v < 256) by (bit_vector)
            requires
                f < 16u8,
                b < 16u8,
                v == (b << 4u8) | f,
        ;
        ColorCode(v)
    }

    /// The attribute byte.
    pub fn value(self) -> (r: u8)
        ensures
            r == self.byte(),
    {
        self.0
    }
}

/// One character cell: a character byte and its attribute byte.
#[derive(Clone, Copy, PartialEq, Eq, Debug, Structural)]
pub struct ScreenChar {
    pub ascii_character: u8,
    pub color_code: ColorCode,
}

impl ScreenChar {
    /// The 16-bit word that the hardware holds for the cell: the character in
    /// the low byte, the attribute in the high byte (little-endian, so the
    /// character byte comes first in memory).
    pub open spec fn word(self) -> u16 {
        (self.ascii_character + self.color_code.byte() * 256) as u16
    }

    /// The cell that a hardware word stands for.
    pub closed spec fn of_word(w: u16) -> ScreenChar {
        ScreenChar { ascii_character: (w % 256) as u8, color_code: ColorCode((w / 256) as u8) }
    }

    pub fn to_word(self) -> (r: u16)
        ensures
            r == self.word(),
        no_unwind
    {
        let a = self.ascii_character;
        let c = self.color_code.0;
        let r: u16 = (a as u16) | ((c as u16) << 8u16);
        assert(r == a + c * 256) by (bit_vector)
            requires
                r == (a as u16) | ((c as u16) << 8u16),
        ;
        r
    }

    pub fn from_word(w: u16) -> (r: ScreenChar)
        ensures
            r == ScreenChar::of_word(w),
            r.ascii_character == w % 256,
            r.color_code.byte() == w / 256,
    {
        let a: u8 = (w & 0xff) as u8;
        let c: u8 = (w >> 8u16) as u8;
        assert(a == w % 256 && c == w / 256) by (bit_vector)
            requires
                a == (w & 0xff) as u8,
                c == (w >> 8u16) as u8,
        ;
        ScreenChar { ascii_character: a, color_code: ColorCode(c) }
    }

    /// Decoding a cell's word gives the cell back.
    pub proof fn lemma_word_round_trip(self)
        ensures
            ScreenChar::of_word(self.word()) == self,
    {
    }
}

} // verus!
