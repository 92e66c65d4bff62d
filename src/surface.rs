use vstd::prelude::*;
use volatile::Volatile;
use crate::colour::ColourCode;

verus! {

/// Number of text rows on the screen.
pub const BUFFER_HEIGHT: usize = 25;

/// Number of character columns in each row.
pub const BUFFER_WIDTH: usize = 80;

/// Declares volatile::Volatile, the wrapper whose reads and writes the
/// compiler may not reorder, merge or drop; its contents are seen only
/// through `cell_bytes`.
#[verifier::external_type_specification]
#[verifier::external_body]
#[verifier::reject_recursive_types(T)]
pub struct ExVolatile<T: Copy>(Volatile<T>);

/// One screen cell as the video hardware sees it: the character byte
/// followed by the attribute byte, accessed only through volatile reads and
/// writes so that no access is merged or dropped.
pub type Cell = Volatile<[u8; 2]>;

/// The character grid, row by row. Its layout is the hardware's: cell
/// (r, c) starts at byte offset (r * BUFFER_WIDTH + c) * 2.
pub type Buffer = [[Cell; BUFFER_WIDTH]; BUFFER_HEIGHT];

/// The two bytes that a volatile cell holds.
pub uninterp spec fn cell_bytes(v: Volatile<[u8; 2]>) -> Seq<u8>;

/// Relies on volatile::Volatile::read: a volatile load of the value held.
#[verifier::external_body]
pub(crate) fn read_cell(v: &Cell) -> (r: [u8; 2])
    ensures
        r@ == cell_bytes(*v),
{
    v.read()
}

/// Relies on volatile::Volatile::write: a volatile store that replaces the
/// value held, and cannot panic.
#[verifier::external_body]
pub(crate) fn write_cell(v: &mut Cell, b: [u8; 2])
    ensures
        cell_bytes(*final(v)) == b@,
    no_unwind
{
    v.write(b)
}

/// The bytes of cell (r, c) of a grid.
pub open spec fn cell_at(buffer: Buffer, r: int, c: int) -> Seq<u8> {
    cell_bytes(buffer@[r]@[c])
}

/// The two bytes of a cell that shows `ch` with attribute byte `colour`.
pub open spec fn cell_of(ch: u8, colour: u8) -> Seq<u8> {
    seq![ch, colour]
}

/// A character together with its colours, as read from or written to a cell.
#[derive(Clone, Copy, Debug, PartialEq, Eq, Structural)]
pub struct ScreenChar {
    pub ascii_character: u8,
    pub colour_code: ColourCode,
}

impl ScreenChar {
    /// The cell bytes that hold this character.
    pub open spec fn spec_bytes(self) -> Seq<u8> {
        cell_of(self.ascii_character, self.colour_code@)
    }

    pub fn to_bytes(self) -> (r: [u8; 2])
        ensures
            r@ == self.spec_bytes(),
    {
        let r = [self.ascii_character, self.colour_code.value()];
        assert(r@ =~= self.spec_bytes());
        r
    }

    pub fn from_bytes(b: [u8; 2]) -> (r: ScreenChar)
        ensures
            r.spec_bytes() == b@,
    {
        let r = ScreenChar { ascii_character: b[0], colour_code: ColourCode::from_value(b[1]) };
        assert(r.spec_bytes() =~= b@);
        r
    }
}

} // verus!
