use vstd::prelude::*;
use volatile::Volatile;
use crate::color::ScreenChar;

verus! {

/// Columns of the text grid.
pub const WIDTH: usize = 80;

/// Rows of the text grid.
pub const HEIGHT: usize = 25;

#[verifier::external_type_specification]
#[verifier::external_body]
#[verifier::reject_recursive_types(T)]
pub struct ExVolatile<T: Copy>(Volatile<T>);

/// The word that a volatile cell holds.
pub uninterp spec fn cell_word(c: Volatile<u16>) -> u16;

/// Relies on `volatile::Volatile::read`: a volatile load of the value the cell holds.
#[verifier::external_body]
fn load(c: &Volatile<u16>) -> (r: u16)
    ensures
        r == cell_word(*c),
{
    c.read()
}

/// Relies on `volatile::Volatile::write`: a volatile store, after which the cell
/// holds the value stored.
#[verifier::external_body]
fn store(c: &mut Volatile<u16>, w: u16)
    ensures
        cell_word(*final(c)) == w,
    no_unwind
{
    c.write(w)
}

/// The text grid: `HEIGHT` rows of `WIDTH` cells, each a 16-bit word that is
/// read and written only by volatile accesses. It holds the one exclusive
/// reference to the memory it stands for.
pub struct Buffer {
    chars: &'static mut [[Volatile<u16>; WIDTH]; HEIGHT],
}

/// The cell that the word of `chars[row][col]` stands for.
pub open spec fn cell_of(chars: [[Volatile<u16>; WIDTH]; HEIGHT], row: int, col: int) -> ScreenChar {
    ScreenChar::of_word(cell_word(chars[row][col]))
}

/// A grid of `HEIGHT` rows of `WIDTH` cells each.
pub open spec fn is_grid(rows: Seq<Seq<ScreenChar>>) -> bool {
    &&& rows.len() == HEIGHT
    &&& forall|r: int| 0 <= r < HEIGHT ==> (#[trigger] rows[r]).len() == WIDTH
}

impl View for Buffer {
    type V = Seq<Seq<ScreenChar>>;

    closed spec fn view(&self) -> Seq<Seq<ScreenChar>> {
        Seq::new(HEIGHT as nat, |r: int| Seq::new(WIDTH as nat, |c: int| cell_of(*self.chars, r, c)))
    }
}

impl Buffer {
    /// Takes the one reference to the cells of the screen.
    pub fn new(chars: &'static mut [[Volatile<u16>; WIDTH]; HEIGHT]) -> (r: Buffer)
        ensures
            is_grid(r@),
            forall|row: int, col: int|
                0 <= row < HEIGHT && 0 <= col < WIDTH ==> #[trigger] r@[row][col] == cell_of(
                    *old(chars),
                    row,
                    col,
                ),
    {
        Buffer { chars }
    }

    /// Every buffer holds a full grid of cells.
    pub proof fn lemma_grid(&self)
        ensures
            is_grid(self@),
    {
    }

    /// The cell at `row`, `col`, by a volatile load.
    pub fn read(&self, row: usize, col: usize) -> (r: ScreenChar)
        requires
            row < HEIGHT,
            col < WIDTH,
        ensures
            r == self@[row as int][col as int],
    {
        ScreenChar::from_word(load(&self.chars[row][col]))
    }

    /// Stores `ch` at `row`, `col`, by a volatile store; no other cell changes.
    pub fn write(&mut self, row: usize, col: usize, ch: ScreenChar)
        requires
            row < HEIGHT,
            col < WIDTH,
        ensures
            final(self)@ == old(self)@.update(
                row as int,
                old(self)@[row as int].update(col as int, ch),
            ),
        no_unwind
    {
        store(&mut self.chars[row][col], ch.to_word());
        proof {
            ch.lemma_word_round_trip();
        }
        assert(self@ =~~= old(self)@.update(row as int, old(self)@[row as int].update(col as int, ch)));
    }
}

} // verus!
