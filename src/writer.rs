use crate::color::ColorCode;
use crate::grid::{is_grid, Buffer, ScreenChar, BUFFER_HEIGHT, BUFFER_WIDTH};
use vstd::prelude::*;
use vstd::string::StringSliceAdditionalSpecFns;

verus! {

/// The byte that ends a line.
pub const NEWLINE: u8 = 0x0a;

/// The glyph shown in place of a byte that is neither printable ASCII nor a
/// newline.
pub const PLACEHOLDER: u8 = 0xfe;

/// The cell that shows `b` in attribute `attr`.
pub open spec fn cell_of(b: u8, attr: ColorCode) -> ScreenChar {
    ScreenChar { ascii_character: b, color_code: attr }
}

/// The blank cell: a space in attribute `attr`.
pub open spec fn blank(attr: ColorCode) -> ScreenChar {
    cell_of(0x20u8, attr)
}

/// A full row of blank cells.
pub open spec fn blank_row(attr: ColorCode) -> Seq<ScreenChar> {
    Seq::new(BUFFER_WIDTH as nat, |_c: int| blank(attr))
}

/// The grid after one scroll: each row moves up by one, the top row is lost,
/// and the bottom row is blank.
pub open spec fn scrolled(g: Seq<Seq<ScreenChar>>, attr: ColorCode) -> Seq<Seq<ScreenChar>> {
    g.drop_first().push(blank_row(attr))
}

/// The grid with cell `col` of the bottom row replaced by `c`.
pub open spec fn set_bottom(g: Seq<Seq<ScreenChar>>, col: int, c: ScreenChar) -> Seq<
    Seq<ScreenChar>,
> {
    g.update(BUFFER_HEIGHT - 1, g[BUFFER_HEIGHT - 1].update(col, c))
}

/// Grid and cursor column after writing byte `b` on grid `g` with the cursor
/// at `col`: a newline scrolls; any other byte scrolls first if the bottom row
/// is full, then lands at the cursor, which moves one cell right.
pub open spec fn after_byte(g: Seq<Seq<ScreenChar>>, col: int, attr: ColorCode, b: u8) -> (
    Seq<Seq<ScreenChar>>,
    int,
) {
    if b == NEWLINE {
        (scrolled(g, attr), 0)
    } else if col >= BUFFER_WIDTH {
        (set_bottom(scrolled(g, attr), 0, cell_of(b, attr)), 1)
    } else {
        (set_bottom(g, col, cell_of(b, attr)), col + 1)
    }
}

/// Grid and cursor column after writing the bytes `bs` in order.
pub open spec fn after_bytes(g: Seq<Seq<ScreenChar>>, col: int, attr: ColorCode, bs: Seq<u8>) -> (
    Seq<Seq<ScreenChar>>,
    int,
)
    decreases bs.len(),
{
    if bs.len() == 0 {
        (g, col)
    } else {
        let prev = after_bytes(g, col, attr, bs.drop_last());
        after_byte(prev.0, prev.1, attr, bs.last())
    }
}

/// A byte that is written as it is: printable ASCII or a newline.
pub open spec fn is_shown_as_is(b: u8) -> bool {
    (0x20 <= b && b <= 0x7e) || b == NEWLINE
}

/// The byte that text byte `b` is displayed as.
pub open spec fn shown_byte(b: u8) -> u8 {
    if is_shown_as_is(b) {
        b
    } else {
        PLACEHOLDER
    }
}

/// The bytes that the text bytes `bs` are displayed as.
pub open spec fn shown(bs: Seq<u8>) -> Seq<u8> {
    bs.map_values(|b: u8| shown_byte(b))
}

/// Appends text at the bottom row of a grid, scrolling when a line ends or
/// the row is full.
pub struct Writer {
    column_position: usize,
    color_code: ColorCode,
    buffer: &'static mut Buffer,
}

impl Writer {
    /// The cells of the grid, row after row.
    pub closed spec fn grid(&self) -> Seq<Seq<ScreenChar>> {
        self.buffer@
    }

    /// The cursor column on the bottom row.
    pub closed spec fn column(&self) -> int {
        self.column_position as int
    }

    /// The attribute given to the cells written.
    pub closed spec fn attribute(&self) -> ColorCode {
        self.color_code
    }

    /// The cursor stays within one past the last column.
    #[verifier::type_invariant]
    spec fn wf(&self) -> bool {
        self.column_position <= BUFFER_WIDTH
    }

    /// The cursor is in range and the grid has its dimensions.
    spec fn sound(&self) -> bool {
        &&& self.column_position <= BUFFER_WIDTH
        &&& is_grid(self.grid())
    }

    /// A writer on `buffer`, with the cursor at the start of the bottom row.
    pub fn new(color_code: ColorCode, buffer: &'static mut Buffer) -> (w: Writer)
        ensures
            w.grid() == old(buffer)@,
            w.column() == 0,
            w.attribute() == color_code,
    {
        Writer { column_position: 0, color_code, buffer }
    }

    /// The cursor column on the bottom row.
    pub fn column_position(&self) -> (r: usize)
        ensures
            r == self.column(),
    {
        self.column_position
    }

    /// The attribute given to the cells written.
    pub fn color_code(&self) -> (r: ColorCode)
        ensures
            r == self.attribute(),
    {
        self.color_code
    }

    /// The cell at `(row, col)`.
    pub fn read_cell(&self, row: usize, col: usize) -> (r: ScreenChar)
        requires
            row < BUFFER_HEIGHT,
            col < BUFFER_WIDTH,
        ensures
            r == self.grid()[row as int][col as int],
    {
        self.buffer.read(row, col)
    }

    /// Writes one byte: a newline scrolls; any other byte is placed at the
    /// cursor on the bottom row, after a scroll if that row is full.
    pub fn write_byte(&mut self, byte: u8)
        ensures
            final(self).column() <= BUFFER_WIDTH,
            final(self).attribute() == old(self).attribute(),
            (final(self).grid(), final(self).column()) == after_byte(
                old(self).grid(),
                old(self).column(),
                old(self).attribute(),
                byte,
            ),
    {
        proof {
            use_type_invariant(&*self);
            self.buffer.lemma_shape();
        }
        if byte == NEWLINE {
            self.new_line();
        } else {
            if self.column_position >= BUFFER_WIDTH {
                self.new_line();
            }
            let row = BUFFER_HEIGHT - 1;
            let col = self.column_position;
            let character = ScreenChar { ascii_character: byte, color_code: self.color_code };
            self.buffer.write(row, col, character);
            self.column_position = self.column_position + 1;
        }
    }

    /// Moves every row up by one, blanks the bottom row and puts the cursor
    /// at its start.
    fn new_line(&mut self)
        requires
            old(self).sound(),
        ensures
            final(self).sound(),
            final(self).attribute() == old(self).attribute(),
            final(self).grid() == scrolled(old(self).grid(), old(self).attribute()),
            final(self).column() == 0,
    {
        let ghost g0 = self.grid();
        let mut row: usize = 1;
        while row < BUFFER_HEIGHT
            invariant
                1 <= row <= BUFFER_HEIGHT,
                self.sound(),
                self.attribute() == old(self).attribute(),
                self.column() == old(self).column(),
                g0 == old(self).grid(),
                is_grid(g0),
                forall|i: int| 0 <= i < row - 1 ==> #[trigger] self.grid()[i] == g0[i + 1],
                forall|i: int| row - 1 <= i < BUFFER_HEIGHT ==> #[trigger] self.grid()[i] == g0[i],
            decreases BUFFER_HEIGHT - row,
        {
            let mut col: usize = 0;
            while col < BUFFER_WIDTH
                invariant
                    1 <= row < BUFFER_HEIGHT,
                    col <= BUFFER_WIDTH,
                    is_grid(g0),
                    self.sound(),
                    self.attribute() == old(self).attribute(),
                    self.column() == old(self).column(),
                    forall|i: int| 0 <= i < row - 1 ==> #[trigger] self.grid()[i] == g0[i + 1],
                    forall|i: int| row <= i < BUFFER_HEIGHT ==> #[trigger] self.grid()[i] == g0[i],
                    forall|j: int|
                        0 <= j < col ==> #[trigger] self.grid()[row - 1][j] == g0[row as int][j],
                    forall|j: int|
                        col <= j < BUFFER_WIDTH ==> #[trigger] self.grid()[row - 1][j]
                            == g0[row - 1][j],
                decreases BUFFER_WIDTH - col,
            {
                let character = self.buffer.read(row, col);
                self.buffer.write(row - 1, col, character);
                col = col + 1;
            }
            assert(self.grid()[row - 1] =~= g0[row as int]);
            row = row + 1;
        }
        self.clear_row(BUFFER_HEIGHT - 1);
        self.column_position = 0;
        assert(self.grid() =~= scrolled(g0, self.color_code));
    }

    /// Overwrites every cell of `row` with a blank in the current attribute.
    fn clear_row(&mut self, row: usize)
        requires
            old(self).sound(),
            row < BUFFER_HEIGHT,
        ensures
            final(self).sound(),
            final(self).attribute() == old(self).attribute(),
            final(self).column() == old(self).column(),
            final(self).grid() == old(self).grid().update(row as int, blank_row(old(self).attribute())),
    {
        let space = ScreenChar { ascii_character: 0x20u8, color_code: self.color_code };
        let mut col: usize = 0;
        while col < BUFFER_WIDTH
            invariant
                row < BUFFER_HEIGHT,
                col <= BUFFER_WIDTH,
                self.sound(),
                space == blank(old(self).attribute()),
                self.attribute() == old(self).attribute(),
                self.column() == old(self).column(),
                self.grid().len() == old(self).grid().len(),
                forall|i: int| 0 <= i < BUFFER_HEIGHT && i != row ==> #[trigger] self.grid()[i] == old(self).grid()[i],
                forall|j: int| 0 <= j < col ==> #[trigger] self.grid()[row as int][j] == space,
            decreases BUFFER_WIDTH - col,
        {
            self.buffer.write(row, col, space);
            col = col + 1;
        }
        assert(self.grid()[row as int] =~= blank_row(self.color_code));
        assert(self.grid() =~= old(self).grid().update(row as int, blank_row(old(self).attribute())));
    }

    /// Writes text byte by byte: printable ASCII and newlines as they are,
    /// every other byte as the placeholder glyph.
    pub fn write_string(&mut self, s: &str)
        ensures
            final(self).column() <= BUFFER_WIDTH,
            final(self).attribute() == old(self).attribute(),
            (final(self).grid(), final(self).column()) == after_bytes(
                old(self).grid(),
                old(self).column(),
                old(self).attribute(),
                shown(s.spec_bytes()),
            ),
    {
        proof {
            use_type_invariant(&*self);
            self.buffer.lemma_shape();
        }
        let bytes = s.as_bytes();
        let ghost text = shown(bytes@);
        let mut i: usize = 0;
        while i < bytes.len()
            invariant
                i <= bytes@.len(),
                text == shown(bytes@),
                self.column() <= BUFFER_WIDTH,
                self.attribute() == old(self).attribute(),
                (self.grid(), self.column()) == after_bytes(
                    old(self).grid(),
                    old(self).column(),
                    old(self).attribute(),
                    text.subrange(0, i as int),
                ),
            decreases bytes@.len() - i,
        {
            let byte = bytes[i];
            if (0x20 <= byte && byte <= 0x7e) || byte == NEWLINE {
                self.write_byte(byte);
            } else {
                self.write_byte(PLACEHOLDER);
            }
            assert(text.subrange(0, i + 1).drop_last() =~= text.subrange(0, i as int));
            i = i + 1;
        }
        assert(text.subrange(0, i as int) =~= text);
    }
}

} // verus!
