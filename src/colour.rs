use vstd::prelude::*;

verus! {

/// The sixteen colours of the text-mode palette.
#[derive(Clone, Copy, Debug, PartialEq, Eq, Structural)]
pub enum Colour {
    Black,
    Blue,
    Green,
    Cyan,
    Red,
    Magenta,
    Brown,
    LightGray,
    DarkGray,
    LightBlue,
    LightGreen,
    LightCyan,
    LightRed,
    Pink,
    Yellow,
    White,
}

impl Colour {
    /// The colour's four-bit palette index.
    pub open spec fn spec_code(self) -> u8 {
        match self {
            Colour::Black => 0,
            Colour::Blue => 1,
            Colour::Green => 2,
            Colour::Cyan => 3,
            Colour::Red => 4,
            Colour::Magenta => 5,
            Colour::Brown => 6,
            Colour::LightGray => 7,
            Colour::DarkGray => 8,
            Colour::LightBlue => 9,
            Colour::LightGreen => 10,
            Colour::LightCyan => 11,
            Colour::LightRed => 12,
            Colour::Pink => 13,
            Colour::Yellow => 14,
            Colour::White => 15,
        }
    }

    #[verifier::when_used_as_spec(spec_code)]
    pub fn code(self) -> (r: u8)
        ensures
            r == self.spec_code(),
            r < 16,
    {
        match self {
            Colour::Black => 0,
            Colour::Blue => 1,
            Colour::Green => 2,
            Colour::Cyan => 3,
            Colour::Red => 4,
            Colour::Magenta => 5,
            Colour::Brown => 6,
            Colour::LightGray => 7,
            Colour::DarkGray => 8,
            Colour::LightBlue => 9,
            Colour::LightGreen => 10,
            Colour::LightCyan => 11,
            Colour::LightRed => 12,
            Colour::Pink => 13,
            Colour::Yellow => 14,
            Colour::White => 15,
        }
    }
}

/// The attribute byte of a screen cell: background index in the high
/// nibble, foreground index in the low nibble.
pub open spec fn encode(foreground: Colour, background: Colour) -> u8 {
    (background.spec_code() * 16 + foreground.spec_code()) as u8
}

/// A foreground/background pair packed into one attribute byte.
#[derive(Clone, Copy, Debug, PartialEq, Eq, Structural)]
pub struct ColourCode(u8);

impl View for ColourCode {
    type V = u8;

    closed spec fn view(&self) -> u8 {
        self.0
    }
}

impl ColourCode {
    pub fn new(foreground: Colour, background: Colour) -> (r: ColourCode)
        ensures
            r@ == encode(foreground, background),
    {
        let f = foreground.code();
        let b = background.code();
        assert((b << 4u8) | f == (b * 16 + f) as u8) by (bit_vector)
            requires
                b < 16,
                f < 16,
        ;
        ColourCode((b << 4u8) | f)
    }

    /// The pair whose attribute byte is `b`.
    pub(crate) fn from_value(b: u8) -> (r: ColourCode)
        ensures
            r@ == b,
    {
        ColourCode(b)
    }

    /// The attribute byte as stored in a screen cell.
    pub fn value(&self) -> (r: u8)
        ensures
            r == self@,
    {
        self.0
    }
}

/// The foreground index sits in the low nibble of the attribute byte and the
/// background index in the high nibble, so both are recovered unchanged.
pub proof fn lemma_encode_round_trip(foreground: Colour, background: Colour)
    ensures
        encode(foreground, background) & 0x0f == foreground.spec_code(),
        (encode(foreground, background) >> 4u8) & 0x0f == background.spec_code(),
{
    let f = foreground.spec_code();
    let b = background.spec_code();
    assert(f < 16 && b < 16);
    assert(((b * 16 + f) as u8) & 0x0f == f && (((b * 16 + f) as u8) >> 4u8) & 0x0f == b)
        by (bit_vector)
        requires
            b < 16,
            f < 16,
    ;
}

} // verus!
