//! Cells of the field: integer coordinates on a grid centred at the origin.

use vstd::prelude::*;

verus! {

/// A position on the grid. The field's centre is `(0, 0)`; `x` grows to the
/// right and `y` grows upwards.
#[derive(Clone, Copy, Debug, PartialEq, Eq, Structural)]
pub struct Cell {
    pub x: i32,
    pub y: i32,
}

impl View for Cell {
    type V = (int, int);

    open spec fn view(&self) -> (int, int) {
        (self.x as int, self.y as int)
    }
}

/// The half-extent of a field of side `size`: coordinates on the field run
/// from `-half_extent(size)` to `half_extent(size)`.
pub open spec fn half_extent(size: int) -> int {
    size / 2
}

/// Both coordinates of `p` lie within the half-extent of a field of side `size`.
pub open spec fn within_extent(p: (int, int), size: int) -> bool {
    &&& -half_extent(size) <= p.0 <= half_extent(size)
    &&& -half_extent(size) <= p.1 <= half_extent(size)
}

/// `p` can be held in a `Cell`.
pub open spec fn representable(p: (int, int)) -> bool {
    &&& i32::MIN <= p.0 <= i32::MAX
    &&& i32::MIN <= p.1 <= i32::MAX
}

impl Cell {
    /// The cell at `(x, y)`.
    pub fn new(x: i32, y: i32) -> (c: Cell)
        ensures
            c@ == (x as int, y as int),
            c.x == x,
            c.y == y,
    {
        Cell { x, y }
    }

    /// The centre of the field.
    pub fn origin() -> (c: Cell)
        ensures
            c@ == (0int, 0int),
    {
        Cell { x: 0, y: 0 }
    }
}

/// Two cells with the same view are the same cell.
pub proof fn lemma_cell_view_injective(a: Cell, b: Cell)
    ensures
        a@ == b@ <==> a == b,
{
}

} // verus!
