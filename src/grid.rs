use crate::color::ColorCode;
use vstd::prelude::*;
use volatile::Volatile;

verus! {

/// Number of rows of the grid.
pub const BUFFER_HEIGHT: usize = 25;

/// Number of cells in each row of the grid.
pub const BUFFER_WIDTH: usize = 80;

/// One on-screen cell: the byte displayed, then its attribute.
#[derive(Debug, Clone, Copy, PartialEq, Eq, Structural)]
pub struct ScreenChar {
    pub ascii_character: u8,
    pub color_code: ColorCode,
}

#[verifier::external_type_specification]
#[verifier::external_body]
#[verifier::reject_recursive_types(T)]
pub struct ExVolatile<T: Copy>(Volatile<T>);

/// The two bytes, display byte then attribute, that a volatile slot holds.
pub uninterp spec fn stored_bytes(v: Volatile<[u8; 2]>) -> [u8; 2];

/// Relies on volatile::Volatile::read: one volatile load of the value held.
#[verifier::external_body]
fn load_cell(v: &Volatile<[u8; 2]>) -> (r: [u8; 2])
    ensures
        r == stored_bytes(*v),
{
    v.read()
}

/// Relies on volatile::Volatile::write: one volatile store, after which the
/// slot holds `bytes`.
#[verifier::external_body]
fn store_cell(v: &mut Volatile<[u8; 2]>, bytes: [u8; 2])
    ensures
        stored_bytes(*final(v)) == bytes,
    no_unwind
{
    v.write(bytes)
}

/// The cell that the two stored bytes stand for.
pub open spec fn decoded(bytes: [u8; 2]) -> ScreenChar {
    ScreenChar { ascii_character: bytes[0], color_code: ColorCode::from_stored(bytes[1]) }
}

/// A sequence of rows has the grid's dimensions.
pub open spec fn is_grid(g: Seq<Seq<ScreenChar>>) -> bool {
    &&& g.len() == BUFFER_HEIGHT
    &&& forall|r: int| 0 <= r < BUFFER_HEIGHT ==> #[trigger] g[r].len() == BUFFER_WIDTH
}

/// The grid of cells, row after row, each slot accessed only by volatile
/// loads and stores. A slot is a byte array, so that the display byte comes
/// first and the attribute second, as the hardware expects.
pub struct Buffer {
    chars: [[Volatile<[u8; 2]>; BUFFER_WIDTH]; BUFFER_HEIGHT],
}

impl Buffer {
    /// The rows of cells currently held.
    pub closed spec fn view(&self) -> Seq<Seq<ScreenChar>> {
        Seq::new(
            BUFFER_HEIGHT as nat,
            |r: int| Seq::new(BUFFER_WIDTH as nat, |c: int| decoded(stored_bytes(self.chars[r][c]))),
        )
    }

    /// Every buffer has the grid's dimensions.
    pub proof fn lemma_shape(&self)
        ensures
            is_grid(self@),
    {
    }

    /// A buffer made of the given slots.
    pub fn from_cells(chars: [[Volatile<[u8; 2]>; BUFFER_WIDTH]; BUFFER_HEIGHT]) -> (r: Buffer)
        ensures
            is_grid(r@),
            forall|i: int, j: int|
                0 <= i < BUFFER_HEIGHT && 0 <= j < BUFFER_WIDTH ==> #[trigger] r@[i][j]
                    == decoded(stored_bytes(chars[i][j])),
    {
        Buffer { chars }
    }

    /// Reads the cell at `(row, col)` with one ordered load.
    pub fn read(&self, row: usize, col: usize) -> (r: ScreenChar)
        requires
            row < BUFFER_HEIGHT,
            col < BUFFER_WIDTH,
        ensures
            r == self@[row as int][col as int],
    {
        let bytes = load_cell(&self.chars[row][col]);
        ScreenChar { ascii_character: bytes[0], color_code: ColorCode::stored(bytes[1]) }
    }

    /// Writes `c` at `(row, col)` with one ordered store.
    pub fn write(&mut self, row: usize, col: usize, c: ScreenChar)
        requires
            row < BUFFER_HEIGHT,
            col < BUFFER_WIDTH,
        ensures
            final(self)@ == old(self)@.update(
                row as int,
                old(self)@[row as int].update(col as int, c),
            ),
        no_unwind
    {
        let bytes = [c.ascii_character, c.color_code.value()];
        proof {
            c.color_code.lemma_stored(bytes[1]);
        }
        store_cell(&mut self.chars[row][col], bytes);
        assert(self@ =~~= old(self)@.update(
            row as int,
            old(self)@[row as int].update(col as int, c),
        ));
    }
}

} // verus!
