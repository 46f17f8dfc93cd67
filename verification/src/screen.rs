use vstd::prelude::*;

use crate::color::ColorCode;
use volatile::Volatile;

verus! {

/// Number of rows of the text grid.
pub const BUFFER_HEIGHT: usize = 25;

/// Number of columns of the text grid.
pub const BUFFER_WIDTH: usize = 80;

/// One cell of the grid: the glyph byte first, then the attribute byte,
/// exactly the two-byte layout the hardware reads.
#[derive(Debug, Clone, Copy, PartialEq, Eq, Structural)]
pub struct ScreenChar {
    pub ascii_character: u8,
    pub color_code: ColorCode,
}

#[verifier::external_type_specification]
#[verifier::external_body]
#[verifier::reject_recursive_types(T)]
pub struct ExVolatile<T: Copy>(Volatile<T>);

/// The cell a volatile wrapper holds.
pub uninterp spec fn vol_cell(v: Volatile<ScreenChar>) -> ScreenChar;

/// Relies on volatile::Volatile::new: wraps the given value unchanged.
#[verifier::external_body]
fn vol_new(c: ScreenChar) -> (v: Volatile<ScreenChar>)
    ensures
        vol_cell(v) == c,
{
    Volatile::new(c)
}

/// Relies on volatile::Volatile::read: a volatile load that returns a copy of
/// the wrapped value.
#[verifier::external_body]
fn vol_read(v: &Volatile<ScreenChar>) -> (c: ScreenChar)
    ensures
        c == vol_cell(*v),
{
    v.read()
}

/// Relies on volatile::Volatile::write: a volatile store that sets the wrapped
/// value of the addressed cell and touches nothing else.
#[verifier::external_body]
fn vol_write_at(rows: &mut Vec<Vec<Volatile<ScreenChar>>>, row: usize, col: usize, c: ScreenChar)
    requires
        row < old(rows)@.len(),
        col < old(rows)@[row as int]@.len(),
    ensures
        final(rows)@.len() == old(rows)@.len(),
        forall|r: int|
            0 <= r < old(rows)@.len() && r != row ==> final(rows)@[r] == old(rows)@[r],
        final(rows)@[row as int]@.len() == old(rows)@[row as int]@.len(),
        forall|j: int|
            0 <= j < old(rows)@[row as int]@.len() && j != col ==> final(rows)@[row as int]@[j]
                == old(rows)@[row as int]@[j],
        vol_cell(final(rows)@[row as int]@[col as int]) == c,
{
    rows[row][col].write(c);
}

/// The text grid itself: a full-size matrix of volatile cells.
pub struct Buffer {
    rows: Vec<Vec<Volatile<ScreenChar>>>,
}

impl View for Buffer {
    type V = Seq<Seq<ScreenChar>>;

    closed spec fn view(&self) -> Seq<Seq<ScreenChar>> {
        self.rows@.map(
            |r: int, row: Vec<Volatile<ScreenChar>>|
                row@.map(|c: int, cell: Volatile<ScreenChar>| vol_cell(cell)),
        )
    }
}

impl Buffer {
    /// Every row is present and every row spans the full width.
    pub open spec fn wf(&self) -> bool {
        &&& self@.len() == BUFFER_HEIGHT
        &&& forall|r: int| 0 <= r < BUFFER_HEIGHT ==> (#[trigger] self@[r]).len() == BUFFER_WIDTH
    }

    /// A grid with every cell holding the given cell value.
    pub fn filled(c: ScreenChar) -> (buffer: Buffer)
        ensures
            buffer.wf(),
            forall|r: int, j: int|
                0 <= r < BUFFER_HEIGHT && 0 <= j < BUFFER_WIDTH ==> buffer@[r][j] == c,
    {
        let mut rows: Vec<Vec<Volatile<ScreenChar>>> = Vec::new();
        while rows.len() < BUFFER_HEIGHT
            invariant
                rows@.len() <= BUFFER_HEIGHT,
                forall|r: int|
                    0 <= r < rows@.len() ==> (#[trigger] rows@[r])@.len() == BUFFER_WIDTH,
                forall|r: int, j: int|
                    0 <= r < rows@.len() && 0 <= j < BUFFER_WIDTH ==> vol_cell(
                        #[trigger] rows@[r]@[j],
                    ) == c,
            decreases BUFFER_HEIGHT - rows@.len(),
        {
            let mut row: Vec<Volatile<ScreenChar>> = Vec::new();
            while row.len() < BUFFER_WIDTH
                invariant
                    row@.len() <= BUFFER_WIDTH,
                    forall|j: int| 0 <= j < row@.len() ==> vol_cell(#[trigger] row@[j]) == c,
                decreases BUFFER_WIDTH - row@.len(),
            {
                row.push(vol_new(c));
            }
            rows.push(row);
        }
        let buffer = Buffer { rows };
        proof {
            assert forall|r: int| 0 <= r < BUFFER_HEIGHT implies (#[trigger] buffer@[r]).len()
                == BUFFER_WIDTH by {
                assert(buffer@[r] == buffer.rows@[r]@.map(
                    |c0: int, cell: Volatile<ScreenChar>| vol_cell(cell),
                ));
            }
        }
        buffer
    }

    /// Reads the cell at the given position with one volatile load.
    pub fn read(&self, row: usize, col: usize) -> (c: ScreenChar)
        requires
            self.wf(),
            row < BUFFER_HEIGHT,
            col < BUFFER_WIDTH,
        ensures
            c == self@[row as int][col as int],
    {
        proof {
            assert(self.rows@.len() == self@.len());
            assert(self@[row as int] == self.rows@[row as int]@.map(
                |c0: int, cell: Volatile<ScreenChar>| vol_cell(cell),
            ));
        }
        let r: &Vec<Volatile<ScreenChar>> = &self.rows[row];
        vol_read(&r[col])
    }

    /// Writes the cell at the given position with one volatile store.
    pub fn write(&mut self, row: usize, col: usize, c: ScreenChar)
        requires
            old(self).wf(),
            row < BUFFER_HEIGHT,
            col < BUFFER_WIDTH,
        ensures
            final(self).wf(),
            final(self)@ == old(self)@.update(
                row as int,
                old(self)@[row as int].update(col as int, c),
            ),
    {
        proof {
            assert(self.rows@.len() == self@.len());
            assert(self@[row as int] == self.rows@[row as int]@.map(
                |c0: int, cell: Volatile<ScreenChar>| vol_cell(cell),
            ));
        }
        vol_write_at(&mut self.rows, row, col, c);
        proof {
            let ov = old(self)@;
            let nv = self@;
            assert forall|r: int| 0 <= r < BUFFER_HEIGHT implies nv[r] == (if r == row as int {
                ov[r].update(col as int, c)
            } else {
                ov[r]
            }) by {
                assert(nv[r] == self.rows@[r]@.map(
                    |c0: int, cell: Volatile<ScreenChar>| vol_cell(cell),
                ));
                assert(ov[r] == old(self).rows@[r]@.map(
                    |c0: int, cell: Volatile<ScreenChar>| vol_cell(cell),
                ));
                if r == row as int {
                    assert(nv[r] =~= ov[r].update(col as int, c));
                } else {
                    assert(nv[r] =~= ov[r]);
                }
            }
            assert(nv =~~= ov.update(row as int, ov[row as int].update(col as int, c)));
        }
    }
}

} // verus!
