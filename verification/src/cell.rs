//! The per-cell distribution: nine populations, one per discrete velocity
//! direction, laid out as a 3x3 block. The direction with offset `(dx, dy)`,
//! each component in `{-1, 0, 1}`, lives at index `(dx + 1) + (dy + 1) * 3`.

use vstd::prelude::*;

verus! {

/// Side length of the 3x3 direction block.
pub const CELL_SIZE: usize = 3;

/// Number of discrete velocity directions.
pub const NUM_DIRECTIONS: usize = 9;

/// A fixed block of nine values, one per lattice direction.
#[derive(Clone, Copy, Debug)]
pub struct GridCell<T> {
    data: [T; 9],
}

impl<T> View for GridCell<T> {
    type V = Seq<T>;

    closed spec fn view(&self) -> Seq<T> {
        self.data@
    }
}

impl<T> GridCell<T> {
    /// All nine values, in direction-index order.
    pub fn data(&self) -> (r: &[T])
        ensures
            r@ == self@,
    {
        self.data.as_slice()
    }

    /// Mutable access to all nine values, in direction-index order.
    pub fn data_mut(&mut self) -> (r: &mut [T; 9])
        ensures
            (*r)@ == old(self)@,
            final(self)@ == (*final(r))@,
    {
        &mut self.data
    }

    /// The direction index of the offset pair at position `(x, y)` of the
    /// 3x3 block, so the offset `(x - 1, y - 1)`.
    pub fn calc_index(&self, pos: (usize, usize)) -> (r: usize)
        requires
            pos.0 < CELL_SIZE,
            pos.1 < CELL_SIZE,
        ensures
            r == pos.0 + pos.1 * CELL_SIZE,
            r < NUM_DIRECTIONS,
    {
        let (x, y) = pos;
        x + y * CELL_SIZE
    }

    pub fn width(&self) -> (r: usize)
        ensures
            r == CELL_SIZE,
    {
        CELL_SIZE
    }

    pub fn height(&self) -> (r: usize)
        ensures
            r == CELL_SIZE,
    {
        CELL_SIZE
    }

    /// Build a cell from its nine values in direction-index order.
    pub fn from_data(data: [T; 9]) -> (r: GridCell<T>)
        ensures
            r@ == data@,
    {
        GridCell { data }
    }

    /// The value at position `(x, y)` of the 3x3 block.
    pub fn at(&self, pos: (usize, usize)) -> (r: &T)
        requires
            pos.0 < CELL_SIZE,
            pos.1 < CELL_SIZE,
        ensures
            *r == self@[pos.0 + pos.1 * CELL_SIZE],
    {
        let i = self.calc_index(pos);
        &self.data[i]
    }

    /// Replace the value at position `(x, y)` of the 3x3 block.
    pub fn set_at(&mut self, pos: (usize, usize), value: T)
        requires
            pos.0 < CELL_SIZE,
            pos.1 < CELL_SIZE,
        ensures
            final(self)@ == old(self)@.update((pos.0 + pos.1 * CELL_SIZE) as int, value),
    {
        let i = self.calc_index(pos);
        self.data[i] = value;
    }

    /// The value at a direction index.
    pub fn get_idx(&self, i: usize) -> (r: &T)
        requires
            i < NUM_DIRECTIONS,
        ensures
            *r == self@[i as int],
    {
        &self.data[i]
    }

    /// Replace the value at a direction index.
    pub fn set_idx(&mut self, i: usize, value: T)
        requires
            i < NUM_DIRECTIONS,
        ensures
            final(self)@ == old(self)@.update(i as int, value),
    {
        self.data[i] = value;
    }
}

impl<T: Copy> GridCell<T> {
    /// A cell with the same value in all nine slots.
    pub fn filled(value: T) -> (r: GridCell<T>)
        ensures
            r@.len() == NUM_DIRECTIONS,
            forall|i: int| 0 <= i < NUM_DIRECTIONS ==> r@[i] == value,
    {
        GridCell { data: [value; 9] }
    }
}

} // verus!
