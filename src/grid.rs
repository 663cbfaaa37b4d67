use vstd::prelude::*;

verus! {

/// Number of cells along each side of the square height grid.
pub const GRID_SIZE: u32 = 256;

/// A cell of the height grid, addressed by column `x` and row `y`.
#[derive(Clone, Copy, Debug, PartialEq, Eq, Structural)]
pub struct Cell {
    pub x: u32,
    pub y: u32,
}

impl Cell {
    /// The cell lies inside the grid.
    pub open spec fn wf(self) -> bool {
        self.x < GRID_SIZE && self.y < GRID_SIZE
    }
}

/// Clamp-to-edge addressing of one coordinate.
pub open spec fn clamp_spec(i: int) -> int {
    if i < 0 {
        0
    } else if i >= GRID_SIZE {
        GRID_SIZE - 1
    } else {
        i
    }
}

/// The cell at offset `(dx, dy)` from `c`, clamped to the grid.
pub open spec fn offset_spec(c: Cell, dx: int, dy: int) -> Cell {
    Cell { x: clamp_spec(c.x + dx) as u32, y: clamp_spec(c.y + dy) as u32 }
}

/// Cells read by the wave step to update `c`: the cell itself, then the
/// neighbours above, below, right and left.
pub open spec fn stencil_spec(c: Cell) -> Seq<Cell> {
    seq![
        c,
        offset_spec(c, 0, 1),
        offset_spec(c, 0, -1),
        offset_spec(c, 1, 0),
        offset_spec(c, -1, 0),
    ]
}

/// Cells read by the normal generator at `c`, as two central-difference
/// pairs: right and left, then above and below.
pub open spec fn gradient_spec(c: Cell) -> Seq<Cell> {
    seq![offset_spec(c, 1, 0), offset_spec(c, -1, 0), offset_spec(c, 0, 1), offset_spec(c, 0, -1)]
}

/// Manhattan distance between two cells.
pub open spec fn distance(a: Cell, b: Cell) -> int {
    let dx = a.x - b.x;
    let dy = a.y - b.y;
    (if dx < 0 { -dx } else { dx }) + (if dy < 0 { -dy } else { dy })
}

/// Index of a cell in a row-major buffer of the grid.
pub open spec fn index_spec(c: Cell) -> int {
    c.y * GRID_SIZE + c.x
}

/// The cell stored at row-major index `i`.
pub open spec fn cell_at(i: int) -> Cell {
    Cell { x: (i % GRID_SIZE as int) as u32, y: (i / GRID_SIZE as int) as u32 }
}

/// Clamps a signed coordinate to the grid.
pub fn clamp_coord(i: i64) -> (r: u32)
    ensures
        r == clamp_spec(i as int),
        r < GRID_SIZE,
{
    if i < 0 {
        0
    } else if i >= GRID_SIZE as i64 {
        GRID_SIZE - 1
    } else {
        i as u32
    }
}

/// The cell at offset `(dx, dy)` from `c`, clamped to the grid.
pub fn offset_cell(c: Cell, dx: i64, dy: i64) -> (r: Cell)
    requires
        c.wf(),
        -1 <= dx <= 1,
        -1 <= dy <= 1,
    ensures
        r == offset_spec(c, dx as int, dy as int),
        r.wf(),
{
    Cell { x: clamp_coord(c.x as i64 + dx), y: clamp_coord(c.y as i64 + dy) }
}

/// The five cells the wave step reads to update `c`, with clamp-to-edge
/// addressing at the border.
pub fn stencil_cells(c: Cell) -> (r: Vec<Cell>)
    requires
        c.wf(),
    ensures
        r@ == stencil_spec(c),
{
    let r = vec![
        c,
        offset_cell(c, 0, 1),
        offset_cell(c, 0, -1),
        offset_cell(c, 1, 0),
        offset_cell(c, -1, 0),
    ];
    assert(r@ =~= stencil_spec(c));
    r
}

/// The four cells the normal generator reads at `c`: right, left, above and
/// below, each clamped to the grid.
pub fn gradient_cells(c: Cell) -> (r: Vec<Cell>)
    requires
        c.wf(),
    ensures
        r@ == gradient_spec(c),
{
    let r = vec![
        offset_cell(c, 1, 0),
        offset_cell(c, -1, 0),
        offset_cell(c, 0, 1),
        offset_cell(c, 0, -1),
    ];
    assert(r@ =~= gradient_spec(c));
    r
}

/// Row-major index of a cell.
pub fn cell_index(c: Cell) -> (r: usize)
    requires
        c.wf(),
    ensures
        r == index_spec(c),
        r < GRID_SIZE * GRID_SIZE,
{
    assert(c.y * GRID_SIZE + c.x < GRID_SIZE * GRID_SIZE) by (nonlinear_arith)
        requires
            c.y < GRID_SIZE,
            c.x < GRID_SIZE,
    ;
    c.y as usize * GRID_SIZE as usize + c.x as usize
}

/// Number of workgroups of `local` invocations that cover `extent` cells
/// along one axis: the fewest whose total reaches `extent`.
pub fn workgroups(extent: u32, local: u32) -> (r: u32)
    requires
        local > 0,
    ensures
        r * local >= extent,
        r == 0 || (r - 1) * local < extent,
{
    let q = extent / local;
    let rem = extent % local;
    proof {
        vstd::arithmetic::div_mod::lemma_fundamental_div_mod(extent as int, local as int);
        assert(q * local + rem == extent && rem < local) by (nonlinear_arith)
            requires
                extent == local * q + rem,
                rem < local,
        ;
    }
    if rem == 0 {
        proof {
            assert(q == 0 || (q - 1) * local < extent) by (nonlinear_arith)
                requires
                    q * local == extent,
                    local > 0,
            ;
        }
        q
    } else {
        proof {
            assert((q + 1) * local >= extent && q * local < extent && q < extent)
                by (nonlinear_arith)
                requires
                    q * local + rem == extent,
                    0 < rem < local,
                    q >= 0,
            ;
        }
        q + 1
    }
}

/// A clamped neighbour is never more than one cell farther from any grid cell
/// than from `c`.
proof fn lemma_offset_distance(c: Cell, origin: Cell, dx: int, dy: int)
    requires
        c.wf(),
        origin.wf(),
        -1 <= dx <= 1,
        -1 <= dy <= 1,
        dx == 0 || dy == 0,
    ensures
        distance(offset_spec(c, dx, dy), origin) >= distance(c, origin) - 1,
        distance(offset_spec(c, dx, dy), c) <= 1,
{
}

/// Locality of the wave step: every cell read to update `c` lies within one
/// cell of it. Hence if the height buffers are zero beyond distance `radius`
/// of `origin`, no cell beyond `radius + 1` reads a nonzero value in the next
/// step.
pub proof fn lemma_stencil_locality(c: Cell, origin: Cell, radius: int)
    requires
        c.wf(),
        origin.wf(),
        radius >= 0,
        distance(c, origin) > radius + 1,
    ensures
        forall|i: int| 0 <= i < 5 ==> distance(#[trigger] stencil_spec(c)[i], c) <= 1,
        forall|i: int| 0 <= i < 5 ==> distance(#[trigger] stencil_spec(c)[i], origin) > radius,
{
    lemma_offset_distance(c, origin, 0, 1);
    lemma_offset_distance(c, origin, 0, -1);
    lemma_offset_distance(c, origin, 1, 0);
    lemma_offset_distance(c, origin, -1, 0);
}

} // verus!
