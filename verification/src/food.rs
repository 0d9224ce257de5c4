//! The food item and its placement on the field.
//!
//! Food is placed once, uniformly at random among the cells of the field
//! other than the centre, where the snake starts.

use vstd::prelude::*;
use rand::rngs::ThreadRng;
use rand::Rng;
use crate::cell::{half_extent, within_extent, Cell};

verus! {

/// The single food item of the field.
#[derive(Clone, Copy, Debug, PartialEq, Eq, Structural)]
pub struct Food {
    pub position: Cell,
}

impl View for Food {
    type V = (int, int);

    open spec fn view(&self) -> (int, int) {
        self.position@
    }
}

/// How many centre draws in a row `spawn_food` redraws before it draws among
/// the other cells directly.
pub const REDRAW_LIMIT: u32 = 4096;

/// `rand::rngs::ThreadRng`, the generator local to the calling thread.
/// Nothing is known of its state.
#[verifier::external_type_specification]
#[verifier::external_body]
pub struct ExThreadRng(ThreadRng);

/// `rand::rng` hands out a handle to the thread's generator. Nothing is
/// claimed of it.
pub assume_specification[ rand::rng ]() -> (generator: ThreadRng);

/// `Rng::random_range` on a half-open range of `i64`: the value drawn lies in
/// `low..high`. The range must not be empty, or the call panics. Which value
/// of the range comes is not stated.
#[verifier::external_body]
fn draw_in_range(generator: &mut ThreadRng, low: i64, high: i64) -> (drawn: i64)
    requires
        low < high,
    ensures
        low <= drawn < high,
{
    generator.random_range(low..high)
}

/// What becomes of a drawn pair of coordinates: the centre is turned down,
/// any other pair is the cell.
pub open spec fn accepted(x: int, y: int) -> Option<(int, int)> {
    if x == 0 && y == 0 {
        None
    } else {
        Some((x, y))
    }
}

/// Judges one draw: the cell `(x, y)`, unless it is the centre of the field.
pub fn accept_draw(x: i32, y: i32) -> (cell: Option<Cell>)
    ensures
        cell is Some <==> (x != 0 || y != 0),
        cell is Some ==> cell->0 == (Cell { x, y }),
        match cell {
            Some(c) => accepted(x as int, y as int) == Some(c@),
            None => accepted(x as int, y as int) is None,
        },
{
    if x != 0 || y != 0 {
        Some(Cell { x, y })
    } else {
        None
    }
}

/// The number of cells of a field with half-extent `half` other than the
/// centre.
pub open spec fn off_centre_count(half: int) -> int {
    (2 * half + 1) * (2 * half + 1) - 1
}

/// The `index`-th cell of the field other than the centre, counting row by
/// row from the corner with the least coordinates and passing over the
/// centre.
pub open spec fn nth_off_centre(half: int, index: int) -> (int, int) {
    let side = 2 * half + 1;
    let slot = if index >= half * side + half {
        index + 1
    } else {
        index
    };
    (slot % side - half, slot / side - half)
}

/// Computes the `index`-th cell other than the centre of a field of side
/// `field_size`. Every such cell is reached by exactly one index.
pub fn off_centre_cell(field_size: i32, index: i64) -> (cell: Cell)
    requires
        field_size >= 2,
        0 <= index < off_centre_count(half_extent(field_size as int)),
    ensures
        cell@ == nth_off_centre(half_extent(field_size as int), index as int),
        within_extent(cell@, field_size as int),
        cell@ != (0int, 0int),
{
    let half: i64 = (field_size / 2) as i64;
    let side: i64 = 2 * half + 1;
    assert(0 <= half * side + half <= side * side - 1 < 0x4000_0000_0000_0000) by (nonlinear_arith)
        requires
            1 <= half < 0x4000_0000,
            side == 2 * half + 1,
    ;
    let centre: i64 = half * side + half;
    let slot: i64 = if index >= centre {
        index + 1
    } else {
        index
    };
    proof {
        lemma_slot_coordinates(half as int, side as int, slot as int);
    }
    let x: i64 = slot % side - half;
    let y: i64 = slot / side - half;
    Cell { x: x as i32, y: y as i32 }
}

/// A slot of a square of side `side` splits into a column and a row within
/// the square, and only the centre slot splits into the centre.
proof fn lemma_slot_coordinates(half: int, side: int, slot: int)
    requires
        half >= 0,
        side == 2 * half + 1,
        0 <= slot < side * side,
    ensures
        0 <= slot % side < side,
        0 <= slot / side < side,
        (slot % side == half && slot / side == half) ==> slot == half * side + half,
{
    vstd::arithmetic::div_mod::lemma_fundamental_div_mod(slot, side);
    vstd::arithmetic::div_mod::lemma_mod_bound(slot, side);
    let q = slot / side;
    assert(0 <= q < side) by (nonlinear_arith)
        requires
            side > 0,
            0 <= slot < side * side,
            slot == side * q + slot % side,
            0 <= slot % side < side,
    ;
    assert(side * half == half * side) by (nonlinear_arith);
}

/// Different indices give different cells.
pub proof fn lemma_off_centre_distinct(half: int, i: int, j: int)
    requires
        half >= 1,
        0 <= i < j < off_centre_count(half),
    ensures
        nth_off_centre(half, i) != nth_off_centre(half, j),
{
    let side = 2 * half + 1;
    let a = if i >= half * side + half { i + 1 } else { i };
    let b = if j >= half * side + half { j + 1 } else { j };
    assert(a < b);
    vstd::arithmetic::div_mod::lemma_fundamental_div_mod(a, side);
    vstd::arithmetic::div_mod::lemma_fundamental_div_mod(b, side);
}

/// Places the food on a field of side `field_size`: a cell within the
/// half-extent on both axes, and never the centre.
///
/// Cells are drawn at random from the whole field, and the centre is drawn
/// again. Should the centre come up `REDRAW_LIMIT` times in a row, one draw
/// is made among the other cells instead: no cell other than the centre is
/// favoured, and the placement always ends.
///
/// A field of side 1 has no cell but the centre, hence the bound.
pub fn spawn_food(field_size: i32) -> (cell: Cell)
    requires
        field_size >= 2,
    ensures
        within_extent(cell@, field_size as int),
        cell@ != (0int, 0int),
{
    let mut generator = rand::rng();
    let half_size: i64 = (field_size / 2) as i64;
    let mut redraws: u32 = 0;
    while redraws < REDRAW_LIMIT
        invariant
            field_size >= 2,
            half_size == half_extent(field_size as int),
        decreases REDRAW_LIMIT - redraws,
    {
        let random_x = draw_in_range(&mut generator, -half_size, half_size + 1);
        let random_y = draw_in_range(&mut generator, -half_size, half_size + 1);
        match accept_draw(random_x as i32, random_y as i32) {
            Some(cell) => {
                return cell;
            },
            None => {},
        }
        redraws += 1;
    }
    let side: i64 = 2 * half_size + 1;
    assert(8 <= side * side - 1 < 0x4000_0000_0000_0000) by (nonlinear_arith)
        requires
            3 <= side < 0x8000_0000,
    ;
    let index = draw_in_range(&mut generator, 0, side * side - 1);
    off_centre_cell(field_size, index)
}

} // verus!
