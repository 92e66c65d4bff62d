use vstd::prelude::*;
use crate::surface::{BUFFER_HEIGHT, BUFFER_WIDTH, Buffer, cell_at, cell_of};

verus! {

/// The newline byte, which ends the current line.
pub const NEWLINE: u8 = 0x0a;

/// The byte shown in place of anything outside printable ASCII.
pub const PLACEHOLDER: u8 = 0xfe;

/// The byte shown in an empty cell.
pub const SPACE: u8 = 0x20;

/// What the writer can be observed to hold: the column of the next
/// character on the last row, the active attribute byte, and the bytes of
/// every cell, indexed by row and then by column.
pub struct TextState {
    pub column: nat,
    pub colour: u8,
    pub screen: Seq<Seq<Seq<u8>>>,
}

/// The grid of cell contents of a buffer.
pub open spec fn screen_of(buffer: Buffer) -> Seq<Seq<Seq<u8>>> {
    Seq::new(
        BUFFER_HEIGHT as nat,
        |r: int| Seq::new(BUFFER_WIDTH as nat, |c: int| cell_at(buffer, r, c)),
    )
}

pub open spec fn is_printable(b: u8) -> bool {
    0x20 <= b <= 0x7e
}

/// The character byte stored for an input byte.
pub open spec fn displayed(b: u8) -> u8 {
    if is_printable(b) {
        b
    } else {
        PLACEHOLDER
    }
}

/// A row of blank cells in the given colour.
pub open spec fn blank_row(colour: u8) -> Seq<Seq<u8>> {
    Seq::new(BUFFER_WIDTH as nat, |c: int| cell_of(SPACE, colour))
}

impl TextState {
    /// The column lies in [0, BUFFER_WIDTH] and the grid has the screen's
    /// dimensions.
    pub open spec fn wf(self) -> bool {
        &&& self.column <= BUFFER_WIDTH
        &&& self.screen.len() == BUFFER_HEIGHT
        &&& forall|r: int| 0 <= r < BUFFER_HEIGHT ==> #[trigger] self.screen[r].len() == BUFFER_WIDTH
    }

    /// Every row moves up by one, the top row is lost, a blank row in the
    /// active colour appears at the bottom and the column returns to 0.
    pub open spec fn scrolled(self) -> TextState {
        TextState {
            column: 0,
            colour: self.colour,
            screen: Seq::new(
                BUFFER_HEIGHT as nat,
                |r: int|
                    if r < BUFFER_HEIGHT - 1 {
                        self.screen[r + 1]
                    } else {
                        blank_row(self.colour)
                    },
            ),
        }
    }

    /// The byte, as displayed, is stored at the current column of the last
    /// row and the column advances by one.
    pub open spec fn put(self, b: u8) -> TextState {
        let last = BUFFER_HEIGHT - 1;
        TextState {
            column: self.column + 1,
            colour: self.colour,
            screen: self.screen.update(
                last,
                self.screen[last].update(self.column as int, cell_of(displayed(b), self.colour)),
            ),
        }
    }

    /// The effect of writing one byte: a newline scrolls; any other byte
    /// scrolls first when the last row is full, then is put.
    pub open spec fn write_byte(self, b: u8) -> TextState {
        if b == NEWLINE {
            self.scrolled()
        } else if self.column >= BUFFER_WIDTH {
            self.scrolled().put(b)
        } else {
            self.put(b)
        }
    }

    /// The effect of writing the bytes one after another, in order.
    pub open spec fn write_bytes(self, bs: Seq<u8>) -> TextState
        decreases bs.len(),
    {
        if bs.len() == 0 {
            self
        } else {
            self.write_bytes(bs.drop_last()).write_byte(bs.last())
        }
    }
}

/// Writing a printable byte while the last row has room stores it as it is,
/// in the active colour, at the current column of the last row; no other cell
/// changes and the column advances by exactly one.
pub proof fn lemma_printable_byte_stored(s: TextState, b: u8)
    requires
        s.wf(),
        s.column < BUFFER_WIDTH,
        is_printable(b),
    ensures
        s.write_byte(b).screen[BUFFER_HEIGHT - 1][s.column as int] == cell_of(b, s.colour),
        s.write_byte(b).column == s.column + 1,
        s.write_byte(b).colour == s.colour,
        forall|r: int, c: int|
            0 <= r < BUFFER_HEIGHT && 0 <= c < BUFFER_WIDTH && (r != BUFFER_HEIGHT - 1 || c
                != s.column) ==> #[trigger] s.write_byte(b).screen[r][c] == s.screen[r][c],
{
}

/// A byte that is neither printable nor a newline is stored as the
/// placeholder, never as itself (unless it is the placeholder byte).
pub proof fn lemma_unprintable_byte_replaced(s: TextState, b: u8)
    requires
        s.wf(),
        !is_printable(b),
        b != NEWLINE,
    ensures
        ({
            let col = if s.column < BUFFER_WIDTH { s.column as int } else { 0 };
            let stored = s.write_byte(b).screen[BUFFER_HEIGHT - 1][col];
            &&& stored == cell_of(PLACEHOLDER, s.colour)
            &&& b != PLACEHOLDER ==> stored[0] != b
        }),
{
}

/// Writing no bytes changes nothing: neither a cell, nor the column, nor the
/// colour.
pub proof fn lemma_empty_write_unchanged(s: TextState)
    ensures
        s.write_bytes(Seq::empty()) == s,
{
}

/// After a scroll each row holds what the row below it held, the last row is
/// blank in the active colour and the column is 0.
pub proof fn lemma_scroll_shifts_rows(s: TextState)
    requires
        s.wf(),
    ensures
        s.scrolled().wf(),
        s.scrolled().column == 0,
        s.scrolled().colour == s.colour,
        forall|r: int, c: int|
            1 <= r < BUFFER_HEIGHT && 0 <= c < BUFFER_WIDTH ==> #[trigger] s.scrolled().screen[r
                - 1][c] == s.screen[r][c],
        forall|c: int|
            0 <= c < BUFFER_WIDTH ==> #[trigger] s.scrolled().screen[BUFFER_HEIGHT - 1][c]
                == cell_of(SPACE, s.colour),
{
}

/// The last row after printable bytes `bs[0..k]` were written from the
/// current column.
pub open spec fn filled_row(s: TextState, bs: Seq<u8>, k: int) -> Seq<Seq<u8>> {
    Seq::new(
        BUFFER_WIDTH as nat,
        |c: int|
            if s.column <= c < s.column + k {
                cell_of(bs[c - s.column], s.colour)
            } else {
                s.screen[BUFFER_HEIGHT - 1][c]
            },
    )
}

/// Printable bytes that fit in what is left of the last row are stored one
/// after another from the current column, with no scroll: every other cell
/// is unchanged and the column advances by their number.
pub proof fn lemma_write_within_row(s: TextState, bs: Seq<u8>, k: int)
    requires
        s.wf(),
        0 <= k <= bs.len(),
        s.column + k <= BUFFER_WIDTH,
        forall|i: int| 0 <= i < k ==> is_printable(#[trigger] bs[i]),
    ensures
        s.write_bytes(bs.take(k)).column == s.column + k,
        s.write_bytes(bs.take(k)).colour == s.colour,
        s.write_bytes(bs.take(k)).screen == s.screen.update(
            BUFFER_HEIGHT - 1,
            filled_row(s, bs, k),
        ),
    decreases k,
{
    if k == 0 {
        assert(s.screen[BUFFER_HEIGHT - 1] =~= filled_row(s, bs, 0));
        assert(s.screen.update(BUFFER_HEIGHT - 1, filled_row(s, bs, 0)) =~= s.screen);
    } else {
        lemma_write_within_row(s, bs, k - 1);
        assert(bs.take(k).drop_last() =~= bs.take(k - 1));
        let prev = s.write_bytes(bs.take(k - 1));
        assert(prev.write_byte(bs[k - 1]).screen =~~= s.screen.update(
            BUFFER_HEIGHT - 1,
            filled_row(s, bs, k),
        ));
    }
}

/// Writing one more printable byte than a row holds, from column 0, scrolls
/// exactly once: the first BUFFER_WIDTH bytes fill the last row with no
/// scroll, and the last byte scrolls before it is stored at column 0 of the
/// fresh row.
pub proof fn lemma_wrap_scrolls_once(s: TextState, bs: Seq<u8>)
    requires
        s.wf(),
        s.column == 0,
        bs.len() == BUFFER_WIDTH + 1,
        forall|i: int| 0 <= i < bs.len() ==> is_printable(#[trigger] bs[i]),
    ensures
        s.write_bytes(bs.take(BUFFER_WIDTH as int)).screen == s.screen.update(
            BUFFER_HEIGHT - 1,
            Seq::new(BUFFER_WIDTH as nat, |c: int| cell_of(bs[c], s.colour)),
        ),
        s.write_bytes(bs.take(BUFFER_WIDTH as int)).column == BUFFER_WIDTH,
        s.write_bytes(bs) == s.write_bytes(bs.take(BUFFER_WIDTH as int)).scrolled().put(
            bs[BUFFER_WIDTH as int],
        ),
{
    let w = BUFFER_WIDTH as int;
    lemma_write_within_row(s, bs, w);
    assert(filled_row(s, bs, w) =~= Seq::new(BUFFER_WIDTH as nat, |c: int| cell_of(bs[c], s.colour)));
    assert(bs.drop_last() =~= bs.take(w));
}

} // verus!
