use vstd::prelude::*;

verus! {

/// Side length of the square playing field: coordinates run over `[0, GRID_SIZE)`.
pub const GRID_SIZE: u32 = 40;

/// One cell of the playing field.
#[derive(Clone, Copy, PartialEq, Eq, Structural, Debug)]
pub struct Cell {
    pub x: u32,
    pub y: u32,
}

/// A cell lies on the playing field.
pub open spec fn in_bounds(c: Cell) -> bool {
    c.x < GRID_SIZE && c.y < GRID_SIZE
}

} // verus!
