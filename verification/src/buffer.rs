//! The grid buffer: a fixed-dimension array of cells, every one of them
//! read and written through a volatile access so the compiler can never
//! elide or reorder a store to the display.

use vstd::prelude::*;

use volatile::Volatile;

use crate::cell::ScreenCharacter;

verus! {

/// Columns on the display.
pub const BUFFER_WIDTH: usize = 80;

/// Rows on the display.
pub const BUFFER_HEIGHT: usize = 25;

#[verifier::external_type_specification]
#[verifier::external_body]
#[verifier::reject_recursive_types(T)]
pub struct ExVolatile<T: Copy>(Volatile<T>);

/// The cell a volatile wrapper currently holds.  `Volatile<T>` stores a
/// plain `T` and only routes reads and writes through volatile memory
/// operations, so its contents are a function of the writes made to it.
pub uninterp spec fn vol_cell(v: Volatile<ScreenCharacter>) -> ScreenCharacter;

/// Relies on `volatile::Volatile::new`: wraps the given value.
#[verifier::external_body]
fn vol_new(value: ScreenCharacter) -> (v: Volatile<ScreenCharacter>)
    ensures
        vol_cell(v) == value,
{
    Volatile::new(value)
}

/// Relies on `volatile::Volatile::read`: a volatile read returning a copy
/// of the wrapped value.
#[verifier::external_body]
fn vol_read(v: &Volatile<ScreenCharacter>) -> (value: ScreenCharacter)
    ensures
        value == vol_cell(*v),
{
    v.read()
}

/// Relies on `volatile::Volatile::write`: a volatile write replacing the
/// wrapped value with the given one.
#[verifier::external_body]
fn vol_write(v: &mut Volatile<ScreenCharacter>, value: ScreenCharacter)
    ensures
        vol_cell(*final(v)) == value,
{
    v.write(value)
}

/// The display surface: `BUFFER_HEIGHT` rows of `BUFFER_WIDTH` cells,
/// each behind a volatile wrapper.
pub struct Buffer {
    chars: Vec<Vec<Volatile<ScreenCharacter>>>,
}

impl View for Buffer {
    type V = Seq<Seq<ScreenCharacter>>;

    closed spec fn view(&self) -> Seq<Seq<ScreenCharacter>> {
        Seq::new(
            self.chars@.len(),
            |r: int| Seq::new(self.chars@[r]@.len(), |c: int| vol_cell(self.chars@[r]@[c])),
        )
    }
}

impl Buffer {
    /// The buffer has exactly the display's dimensions.
    pub open spec fn wf(&self) -> bool {
        &&& self@.len() == BUFFER_HEIGHT
        &&& forall|r: int| 0 <= r < BUFFER_HEIGHT ==> (#[trigger] self@[r]).len() == BUFFER_WIDTH
    }

    /// A fresh buffer with every cell holding `fill`.
    pub fn new(fill: ScreenCharacter) -> (buffer: Buffer)
        ensures
            buffer.wf(),
            forall|r: int, c: int|
                0 <= r < BUFFER_HEIGHT && 0 <= c < BUFFER_WIDTH ==> #[trigger] buffer@[r][c]
                    == fill,
    {
        let mut chars: Vec<Vec<Volatile<ScreenCharacter>>> = Vec::new();
        let mut row: usize = 0;
        while row < BUFFER_HEIGHT
            invariant
                row <= BUFFER_HEIGHT,
                chars@.len() == row,
                forall|r: int| 0 <= r < row ==> (#[trigger] chars@[r])@.len() == BUFFER_WIDTH,
                forall|r: int, c: int|
                    0 <= r < row && 0 <= c < BUFFER_WIDTH ==> vol_cell(
                        #[trigger] chars@[r]@[c],
                    ) == fill,
            decreases BUFFER_HEIGHT - row,
        {
            let mut line: Vec<Volatile<ScreenCharacter>> = Vec::new();
            let mut col: usize = 0;
            while col < BUFFER_WIDTH
                invariant
                    col <= BUFFER_WIDTH,
                    line@.len() == col,
                    forall|c: int| 0 <= c < col ==> vol_cell(#[trigger] line@[c]) == fill,
                decreases BUFFER_WIDTH - col,
            {
                line.push(vol_new(fill));
                col += 1;
            }
            chars.push(line);
            row += 1;
        }
        let buffer = Buffer { chars };
        proof {
            assert forall|r: int| 0 <= r < BUFFER_HEIGHT implies (#[trigger] buffer@[r]).len()
                == BUFFER_WIDTH by {
                assert(buffer@[r].len() == buffer.chars@[r]@.len());
            }
        }
        buffer
    }

    /// Reads the cell at `row`, `col` with a volatile read.
    pub fn read(&self, row: usize, col: usize) -> (cell: ScreenCharacter)
        requires
            self.wf(),
            row < BUFFER_HEIGHT,
            col < BUFFER_WIDTH,
        ensures
            cell == self@[row as int][col as int],
    {
        proof {
            assert(self@.len() == self.chars@.len());
            assert(self@[row as int].len() == self.chars@[row as int]@.len());
        }
        vol_read(&self.chars[row][col])
    }

    /// Writes `cell` at `row`, `col` with a volatile write.
    pub fn write(&mut self, row: usize, col: usize, cell: ScreenCharacter)
        requires
            old(self).wf(),
            row < BUFFER_HEIGHT,
            col < BUFFER_WIDTH,
        ensures
            final(self).wf(),
            final(self)@ == old(self)@.update(
                row as int,
                old(self)@[row as int].update(col as int, cell),
            ),
    {
        proof {
            assert(self@.len() == self.chars@.len());
            assert(self@[row as int].len() == self.chars@[row as int]@.len());
        }
        let line = &mut self.chars[row];
        vol_write(&mut line[col], cell);
        proof {
            let g0 = old(self)@;
            let g1 = self@;
            let target = g0.update(row as int, g0[row as int].update(col as int, cell));
            assert forall|r: int| 0 <= r < g1.len() implies g1[r] =~= target[r] by {}
            assert(g1 =~~= target);
        }
    }
}

} // verus!
