use vstd::prelude::*;
use vstd::string::StringSliceAdditionalSpecFns;
use crate::colour::ColourCode;
use crate::model::{NEWLINE, PLACEHOLDER, SPACE, TextState, blank_row, displayed, screen_of};
use crate::surface::{
    BUFFER_HEIGHT, BUFFER_WIDTH, Buffer, ScreenChar, cell_at, cell_of, read_cell, write_cell,
};

verus! {

/// Writes text to the last row of the screen, wrapping and scrolling as it
/// fills. It holds the only handle to the grid.
pub struct Writer<'a> {
    column_position: usize,
    colour_code: ColourCode,
    buffer: &'a mut Buffer,
}

impl<'a> View for Writer<'a> {
    type V = TextState;

    closed spec fn view(&self) -> TextState {
        TextState {
            column: self.column_position as nat,
            colour: self.colour_code@,
            screen: screen_of(*self.buffer),
        }
    }
}

/// The character byte stored for an input byte.
fn display_byte(b: u8) -> (r: u8)
    ensures
        r == displayed(b),
{
    if 0x20 <= b && b <= 0x7e {
        b
    } else {
        PLACEHOLDER
    }
}

impl<'a> Writer<'a> {
    #[verifier::type_invariant]
    closed spec fn inv(self) -> bool {
        self.column_position <= BUFFER_WIDTH
    }

    /// A writer at column 0 with the given colours, over the given grid.
    pub fn new(colour_code: ColourCode, buffer: &'a mut Buffer) -> (r: Writer<'a>)
        ensures
            r@.column == 0,
            r@.colour == colour_code@,
            r@.screen == screen_of(*old(buffer)),
    {
        Writer { column_position: 0, colour_code, buffer }
    }

    /// Fills one row with blanks in the active colour.
    fn clear_row(&mut self, row: usize)
        requires
            row < BUFFER_HEIGHT,
        ensures
            final(self).column_position == old(self).column_position,
            final(self).colour_code == old(self).colour_code,
            forall|r: int, c: int|
                0 <= r < BUFFER_HEIGHT && r != row && 0 <= c < BUFFER_WIDTH ==> cell_at(
                    *final(self).buffer,
                    r,
                    c,
                ) == cell_at(*old(self).buffer, r, c),
            forall|c: int|
                0 <= c < BUFFER_WIDTH ==> cell_at(*final(self).buffer, row as int, c) == cell_of(
                    SPACE,
                    old(self).colour_code@,
                ),
    {
        let blank = ScreenChar { ascii_character: SPACE, colour_code: self.colour_code };
        let bytes = blank.to_bytes();
        proof {
            use_type_invariant(&*self);
        }
        let mut col: usize = 0;
        while col < BUFFER_WIDTH
            invariant
                col <= BUFFER_WIDTH,
                self.column_position <= BUFFER_WIDTH,
                row < BUFFER_HEIGHT,
                bytes@ == cell_of(SPACE, old(self).colour_code@),
                self.column_position == old(self).column_position,
                self.colour_code == old(self).colour_code,
                forall|r: int, c: int|
                    0 <= r < BUFFER_HEIGHT && r != row && 0 <= c < BUFFER_WIDTH ==> cell_at(
                        *self.buffer,
                        r,
                        c,
                    ) == cell_at(*old(self).buffer, r, c),
                forall|c: int|
                    0 <= c < col ==> cell_at(*self.buffer, row as int, c) == cell_of(
                        SPACE,
                        old(self).colour_code@,
                    ),
            decreases BUFFER_WIDTH - col,
        {
            let ghost before = *self.buffer;
            write_cell(&mut self.buffer[row][col], bytes);
            assert forall|c: int| 0 <= c <= col implies cell_at(*self.buffer, row as int, c) == cell_of(SPACE, old(self).colour_code@) by {
                if c < col {
                    assert(self.buffer@[row as int]@[c] == before@[row as int]@[c]);
                    assert(cell_at(before, row as int, c) == cell_of(SPACE, old(self).colour_code@));
                }
            }
            col += 1;
        }
    }

    /// Scrolls by one line: each row is copied, cell by cell, to the row
    /// above it, the last row is blanked in the active colour, and the column
    /// returns to 0.
    pub fn new_line(&mut self)
        ensures
            final(self)@ == old(self)@.scrolled(),
            final(self)@.column == 0,
            final(self)@.colour == old(self)@.colour,
            forall|r: int, c: int|
                1 <= r < BUFFER_HEIGHT && 0 <= c < BUFFER_WIDTH ==> #[trigger] final(self)@.screen[r
                    - 1][c] == old(self)@.screen[r][c],
            forall|c: int|
                0 <= c < BUFFER_WIDTH ==> #[trigger] final(self)@.screen[BUFFER_HEIGHT - 1][c]
                    == cell_of(SPACE, old(self)@.colour),
    {
        proof {
            use_type_invariant(&*self);
        }
        let mut row: usize = 1;
        while row < BUFFER_HEIGHT
            invariant
                1 <= row <= BUFFER_HEIGHT,
                self.column_position == old(self).column_position,
                self.column_position <= BUFFER_WIDTH,
                self.colour_code == old(self).colour_code,
                forall|r: int, c: int|
                    0 <= r < row - 1 && 0 <= c < BUFFER_WIDTH ==> cell_at(*self.buffer, r, c)
                        == cell_at(*old(self).buffer, r + 1, c),
                forall|r: int, c: int|
                    row - 1 <= r < BUFFER_HEIGHT && 0 <= c < BUFFER_WIDTH ==> cell_at(
                        *self.buffer,
                        r,
                        c,
                    ) == cell_at(*old(self).buffer, r, c),
            decreases BUFFER_HEIGHT - row,
        {
            let mut col: usize = 0;
            while col < BUFFER_WIDTH
                invariant
                    1 <= row < BUFFER_HEIGHT,
                    col <= BUFFER_WIDTH,
                    self.column_position == old(self).column_position,
                    self.column_position <= BUFFER_WIDTH,
                    self.colour_code == old(self).colour_code,
                    forall|r: int, c: int|
                        0 <= r < row - 1 && 0 <= c < BUFFER_WIDTH ==> cell_at(*self.buffer, r, c)
                            == cell_at(*old(self).buffer, r + 1, c),
                    forall|c: int|
                        0 <= c < col ==> #[trigger] cell_at(*self.buffer, row - 1, c) == cell_at(
                            *old(self).buffer,
                            row as int,
                            c,
                        ),
                    forall|c: int|
                        col <= c < BUFFER_WIDTH ==> #[trigger] cell_at(*self.buffer, row - 1, c) == cell_at(
                            *old(self).buffer,
                            row - 1,
                            c,
                        ),
                    forall|r: int, c: int|
                        row <= r < BUFFER_HEIGHT && 0 <= c < BUFFER_WIDTH ==> cell_at(
                            *self.buffer,
                            r,
                            c,
                        ) == cell_at(*old(self).buffer, r, c),
                decreases BUFFER_WIDTH - col,
            {
                let ghost before = *self.buffer;
                let character = read_cell(&self.buffer[row][col]);
                write_cell(&mut self.buffer[row - 1][col], character);
                assert forall|r: int, c: int|
                    0 <= r < BUFFER_HEIGHT && 0 <= c < BUFFER_WIDTH && (r != row - 1 || c
                        != col) implies cell_at(*self.buffer, r, c) == cell_at(before, r, c) by {
                    if r != row - 1 {
                        assert(self.buffer@[r] == before@[r]);
                    } else {
                        assert(self.buffer@[r]@[c] == before@[r]@[c]);
                    }
                }
                assert(cell_at(*self.buffer, row - 1, col as int) == cell_at(before, row as int, col as int));
                assert forall|r: int, c: int|
                    0 <= r < row - 1 && 0 <= c < BUFFER_WIDTH implies cell_at(*self.buffer, r, c)
                        == cell_at(*old(self).buffer, r + 1, c) by {
                    assert(cell_at(*self.buffer, r, c) == cell_at(before, r, c));
                }
                assert forall|c: int| 0 <= c < BUFFER_WIDTH && c != col implies #[trigger] cell_at(
                    *self.buffer,
                    row - 1,
                    c,
                ) == cell_at(before, row - 1, c) by {
                    assert(self.buffer@[row - 1]@[c] == before@[row - 1]@[c]);
                }
                col += 1;
            }
            row += 1;
        }
        self.clear_row(BUFFER_HEIGHT - 1);
        self.column_position = 0;
        proof {
            let ghost s = old(self)@.scrolled().screen;
            assert(self@.screen =~~= s) by {
                assert forall|r: int| 0 <= r < BUFFER_HEIGHT implies self@.screen[r] =~~= s[r] by {
                    if r == BUFFER_HEIGHT - 1 {
                        assert(s[r] == blank_row(old(self)@.colour));
                    }
                }
            }
        }
    }

    /// Writes one byte. A newline scrolls. Any other byte first scrolls if
    /// the last row is full, then is stored at the current column of the last
    /// row (the placeholder stands for a byte outside printable ASCII), and
    /// the column advances by one.
    pub fn write_byte(&mut self, byte: u8)
        ensures
            final(self)@ == old(self)@.write_byte(byte),
    {
        if byte == NEWLINE {
            self.new_line();
        } else {
            if self.column_position >= BUFFER_WIDTH {
                self.new_line();
            }
            proof {
                use_type_invariant(&*self);
            }
            let row = BUFFER_HEIGHT - 1;
            let col = self.column_position;
            let ghost s = self@;
            let ghost before = *self.buffer;
            let character = ScreenChar {
                ascii_character: display_byte(byte),
                colour_code: self.colour_code,
            };
            write_cell(&mut self.buffer[row][col], character.to_bytes());
            self.column_position = col + 1;
            proof {
                let ghost t = s.put(byte);
                assert(self@.screen =~~= t.screen) by {
                    assert forall|r: int, c: int|
                        0 <= r < BUFFER_HEIGHT && 0 <= c < BUFFER_WIDTH implies #[trigger] self@.screen[r][c]
                        == t.screen[r][c] by {
                        if r != row || c != col {
                            assert(self.buffer@[r]@[c] == before@[r]@[c]);
                        }
                    }
                }
            }
        }
    }

    /// Writes the bytes of `s` one after another with `write_byte`.
    pub fn write_string(&mut self, s: &str)
        ensures
            final(self)@ == old(self)@.write_bytes(s.spec_bytes()),
    {
        let bytes = s.as_bytes();
        let mut i: usize = 0;
        while i < bytes.len()
            invariant
                i <= bytes@.len(),
                self@ == old(self)@.write_bytes(bytes@.take(i as int)),
            decreases bytes@.len() - i,
        {
            self.write_byte(bytes[i]);
            proof {
                assert(bytes@.take(i + 1).drop_last() =~= bytes@.take(i as int));
            }
            i += 1;
        }
        proof {
            assert(bytes@.take(i as int) =~= bytes@);
        }
    }

    /// Every writer's state has the screen's dimensions and a column in
    /// [0, BUFFER_WIDTH].
    pub fn view_wf(&self)
        ensures
            self@.wf(),
    {
        proof {
            use_type_invariant(self);
        }
    }

    /// The column at which the next character will be stored.
    pub fn column_position(&self) -> (r: usize)
        ensures
            r == self@.column,
            r <= BUFFER_WIDTH,
    {
        proof {
            use_type_invariant(self);
        }
        self.column_position
    }

    /// The colours in which characters are stored.
    pub fn colour_code(&self) -> (r: ColourCode)
        ensures
            r@ == self@.colour,
    {
        self.colour_code
    }

    /// The character and attribute bytes of cell (row, col).
    pub fn read_char(&self, row: usize, col: usize) -> (r: ScreenChar)
        requires
            row < BUFFER_HEIGHT,
            col < BUFFER_WIDTH,
        ensures
            r.spec_bytes() == self@.screen[row as int][col as int],
    {
        ScreenChar::from_bytes(read_cell(&self.buffer[row][col]))
    }
}

/// Declares core::fmt::Error, the error type of `core::fmt::Write`, so that
/// the impl below can name it; it is carried, never inspected.
#[verifier::external_type_specification]
#[verifier::external_body]
pub struct ExFmtError(core::fmt::Error);

/// Formatted output goes through `write_string`; writing to the screen
/// cannot fail.
impl<'a> core::fmt::Write for Writer<'a> {
    fn write_str(&mut self, s: &str) -> (r: core::fmt::Result)
        ensures
            final(self)@ == old(self)@.write_bytes(s.spec_bytes()),
            r.is_ok(),
    {
        self.write_string(s);
        Ok(())
    }
}

} // verus!
