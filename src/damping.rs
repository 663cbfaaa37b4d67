use vstd::prelude::*;
use crate::grid::{Cell, GRID_SIZE, cell_at};

verus! {

/// The damping factor of a cell is its numerator over this denominator.
pub const DAMPING_DENOMINATOR: u32 = 2560;

/// Numerator of the largest damping factor, 19/20 of the denominator.
pub const DAMPING_MAX: u32 = 2432;

/// Numerator step per cell of distance to the nearest edge: the factor is
/// `0.95 * l`, where `l = cell_edge_distance(c) / 128` is the normalised
/// distance to the nearest edge, so it grows by `DAMPING_STEP` per cell.
pub const DAMPING_STEP: u32 = 19;

/// Distance of coordinate `i` to the nearer grid edge, counting the edge cell
/// itself as 1; it is 128 at the two middle coordinates.
pub open spec fn edge_distance(i: int) -> int {
    if i + 1 <= GRID_SIZE - i {
        i + 1
    } else {
        GRID_SIZE - i
    }
}

/// Distance of a cell to the nearest grid edge.
pub open spec fn cell_edge_distance(c: Cell) -> int {
    let ex = edge_distance(c.x as int);
    let ey = edge_distance(c.y as int);
    if ex <= ey {
        ex
    } else {
        ey
    }
}

/// Damping numerator of a cell: `0.95 * l` over the denominator, where
/// `l = cell_edge_distance(c) / 128` is the normalised distance to the
/// nearest edge; `0.95` at the centre, falling toward every edge.
pub open spec fn damping_spec(c: Cell) -> int {
    DAMPING_STEP * cell_edge_distance(c)
}

fn edge_distance_exec(i: u32) -> (r: u32)
    requires
        i < GRID_SIZE,
    ensures
        r == edge_distance(i as int),
        1 <= r <= 128,
{
    if i + 1 <= GRID_SIZE - i {
        i + 1
    } else {
        GRID_SIZE - i
    }
}

/// Damping numerator of cell `c`, over `DAMPING_DENOMINATOR`.
pub fn damping_numerator(c: Cell) -> (r: u32)
    requires
        c.wf(),
    ensures
        r == damping_spec(c),
        0 < r <= DAMPING_MAX,
{
    let ex = edge_distance_exec(c.x);
    let ey = edge_distance_exec(c.y);
    let e = if ex <= ey {
        ex
    } else {
        ey
    };
    DAMPING_STEP * e
}

/// Damping numerators of the whole grid, in row-major order.
pub fn damping_field() -> (r: Vec<u32>)
    ensures
        r.len() == GRID_SIZE * GRID_SIZE,
        forall|i: int| 0 <= i < r.len() ==> r[i] == damping_spec(#[trigger] cell_at(i)),
{
    let total: usize = GRID_SIZE as usize * GRID_SIZE as usize;
    let mut r: Vec<u32> = Vec::with_capacity(total);
    let mut i: usize = 0;
    while i < total
        invariant
            total == GRID_SIZE * GRID_SIZE,
            i <= total,
            r.len() == i,
            forall|j: int| 0 <= j < i ==> r[j] == damping_spec(#[trigger] cell_at(j)),
        decreases total - i,
    {
        let c = Cell { x: (i % GRID_SIZE as usize) as u32, y: (i / GRID_SIZE as usize) as u32 };
        assert(c == cell_at(i as int));
        r.push(damping_numerator(c));
        i = i + 1;
    }
    r
}

/// The damping factor lies in `(0, 0.95]`: its numerator is positive and at
/// most `DAMPING_MAX`, which is `0.95` of the denominator.
pub proof fn lemma_damping_range(c: Cell)
    requires
        c.wf(),
    ensures
        0 < damping_spec(c) <= DAMPING_MAX,
        DAMPING_MAX * 20 == DAMPING_DENOMINATOR * 19,
{
}

/// The damping factor is largest at the grid centre.
pub proof fn lemma_damping_center_max(c: Cell)
    requires
        c.wf(),
    ensures
        damping_spec(Cell { x: GRID_SIZE / 2, y: GRID_SIZE / 2 }) == DAMPING_MAX,
        damping_spec(c) <= damping_spec(Cell { x: GRID_SIZE / 2, y: GRID_SIZE / 2 }),
{
}

/// The damping factor falls toward the edges: of two cells, the one nearer
/// to its nearest edge has the strictly smaller factor, and cells equally
/// near have equal factors.
pub proof fn lemma_damping_monotone(a: Cell, b: Cell)
    requires
        a.wf(),
        b.wf(),
    ensures
        cell_edge_distance(a) < cell_edge_distance(b) ==> damping_spec(a) < damping_spec(b),
        cell_edge_distance(a) == cell_edge_distance(b) ==> damping_spec(a) == damping_spec(b),
{
}

/// Stepping one cell along `x` toward the nearer vertical edge never raises
/// the damping factor, and strictly lowers it when that edge is the nearest
/// edge of the cell.
pub proof fn lemma_damping_step_toward_edge(c: Cell)
    requires
        c.wf(),
        0 < c.x < GRID_SIZE / 2,
    ensures
        damping_spec(Cell { x: (c.x - 1) as u32, y: c.y }) <= damping_spec(c),
        edge_distance(c.x as int) <= edge_distance(c.y as int) ==> damping_spec(
            Cell { x: (c.x - 1) as u32, y: c.y },
        ) < damping_spec(c),
{
}

/// The damping field is symmetric under mirroring either axis and under
/// exchanging the axes, so what holds toward one edge holds toward every edge.
pub proof fn lemma_damping_symmetric(c: Cell)
    requires
        c.wf(),
    ensures
        damping_spec(Cell { x: (GRID_SIZE - 1 - c.x) as u32, y: c.y }) == damping_spec(c),
        damping_spec(Cell { x: c.x, y: (GRID_SIZE - 1 - c.y) as u32 }) == damping_spec(c),
        damping_spec(Cell { x: c.y, y: c.x }) == damping_spec(c),
{
}

} // verus!
