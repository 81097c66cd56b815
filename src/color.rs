use vstd::prelude::*;

verus! {

/// The sixteen colours of the text console's palette.
#[derive(Debug, Clone, Copy, PartialEq, Eq, Structural)]
pub enum Color {
    Black,
    Blue,
    Green,
    Cyan,
    Red,
    Magenta,
    Brown,
    LightGray,
    DarkGray,
    LightBlue,
    LightGreen,
    LightCyan,
    LightRed,
    Pink,
    Yellow,
    White,
}

/// The four-bit number the hardware uses for each colour.
pub open spec fn color_number(c: Color) -> u8 {
    match c {
        Color::Black => 0,
        Color::Blue => 1,
        Color::Green => 2,
        Color::Cyan => 3,
        Color::Red => 4,
        Color::Magenta => 5,
        Color::Brown => 6,
        Color::LightGray => 7,
        Color::DarkGray => 8,
        Color::LightBlue => 9,
        Color::LightGreen => 10,
        Color::LightCyan => 11,
        Color::LightRed => 12,
        Color::Pink => 13,
        Color::Yellow => 14,
        Color::White => 15,
    }
}

impl Color {
    /// The colour's four-bit number.
    pub fn number(self) -> (r: u8)
        ensures
            r == color_number(self),
            r < 16,
    {
        match self {
            Color::Black => 0,
            Color::Blue => 1,
            Color::Green => 2,
            Color::Cyan => 3,
            Color::Red => 4,
            Color::Magenta => 5,
            Color::Brown => 6,
            Color::LightGray => 7,
            Color::DarkGray => 8,
            Color::LightBlue => 9,
            Color::LightGreen => 10,
            Color::LightCyan => 11,
            Color::LightRed => 12,
            Color::Pink => 13,
            Color::Yellow => 14,
            Color::White => 15,
        }
    }
}

/// A cell attribute: the foreground colour in the low nibble, the background
/// colour in the high nibble.
#[derive(Debug, Clone, Copy, PartialEq, Eq, Structural)]
pub struct ColorCode(u8);

/// The attribute byte that packs `foreground` and `background`.
pub open spec fn packed(foreground: Color, background: Color) -> u8 {
    (color_number(background) * 16 + color_number(foreground)) as u8
}

impl ColorCode {
    /// The attribute byte.
    pub closed spec fn view(self) -> u8 {
        self.0
    }

    /// Packs a foreground and a background colour into one attribute byte.
    pub fn new(foreground: Color, background: Color) -> (r: ColorCode)
        ensures
            r@ == packed(foreground, background),
    {
        let f = foreground.number();
        let b = background.number();
        assert((b << 4u8) | f == b * 16 + f) by (bit_vector)
            requires
                b < 16,
                f < 16,
        ;
        ColorCode((b << 4u8) | f)
    }

    /// The attribute that an attribute byte read back from the grid stands for.
    pub closed spec fn from_stored(b: u8) -> ColorCode {
        ColorCode(b)
    }

    /// Reading back an attribute byte gives the attribute that was stored.
    pub proof fn lemma_stored(self, b: u8)
        ensures
            Self::from_stored(self@) == self,
            Self::from_stored(b)@ == b,
    {
    }

    /// The attribute held in a byte of the grid.
    pub(crate) fn stored(b: u8) -> (r: ColorCode)
        ensures
            r == Self::from_stored(b),
    {
        ColorCode(b)
    }

    /// The attribute byte, as the hardware stores it.
    pub fn value(self) -> (r: u8)
        ensures
            r == self@,
        no_unwind
    {
        self.0
    }
}

} // verus!
