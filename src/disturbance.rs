use vstd::prelude::*;
use crate::grid::{Cell, GRID_SIZE};

verus! {

/// Why a disturbance was not applied.
#[derive(Clone, Copy, Debug, PartialEq, Eq, Structural)]
pub enum DisturbanceError {
    /// The requested coordinates lie outside `[0, GRID_SIZE)`.
    OutOfGrid,
}

/// Both coordinates lie inside the grid.
pub open spec fn in_grid(x: int, y: int) -> bool {
    0 <= x < GRID_SIZE && 0 <= y < GRID_SIZE
}

/// Validates requested disturbance coordinates: the cell `(x, y)` when it lies
/// inside the grid, `OutOfGrid` otherwise.
pub fn checked_cell(x: i64, y: i64) -> (r: Result<Cell, DisturbanceError>)
    ensures
        r is Ok <==> in_grid(x as int, y as int),
        r is Ok ==> r->Ok_0 == (Cell { x: x as u32, y: y as u32 }),
        r is Ok ==> r->Ok_0.wf(),
        r is Err ==> r->Err_0 == DisturbanceError::OutOfGrid,
{
    if 0 <= x && x < GRID_SIZE as i64 && 0 <= y && y < GRID_SIZE as i64 {
        Ok(Cell { x: x as u32, y: y as u32 })
    } else {
        Err(DisturbanceError::OutOfGrid)
    }
}

/// Maps two random words to a grid cell, each coordinate reduced modulo the
/// grid size, so that uniform words give a uniform cell.
pub fn cell_from_random(rx: u32, ry: u32) -> (c: Cell)
    ensures
        c == (Cell { x: rx % GRID_SIZE, y: ry % GRID_SIZE }),
        c.wf(),
{
    Cell { x: rx % GRID_SIZE, y: ry % GRID_SIZE }
}

/// Relies on rand::random::<u32>, which draws a word from the thread-local
/// generator; nothing is known of its value.
#[verifier::external_body]
fn random_word() -> u32 {
    rand::random::<u32>()
}

/// Picks a random cell of the grid for a ripple.
pub fn random_cell() -> (c: Cell)
    ensures
        c.wf(),
{
    let rx = random_word();
    let ry = random_word();
    cell_from_random(rx, ry)
}

} // verus!
