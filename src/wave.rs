use vstd::prelude::*;
use crate::clock::TICK_NANOS;
use crate::damping::{DAMPING_DENOMINATOR, damping_numerator, damping_spec};
use crate::grid::{Cell, GRID_SIZE, cell_index, distance, index_spec, stencil_cells, stencil_spec};

verus! {

/// The coefficients of the explicit wave step as exact fractions over a
/// common denominator: `A = c^2 dt^2 / h^2` and `B = 2 - 4A`, with grid
/// spacing `h = 2 / (N - 1)`, wave speed `c = 1` and time step `dt = 1 / N`.
#[derive(Clone, Copy, Debug, PartialEq, Eq, Structural)]
pub struct WaveCoefficients {
    pub a_numerator: u64,
    pub b_numerator: u64,
    pub denominator: u64,
}

/// `A = dt^2 / h^2 = (N - 1)^2 / (4 N^2)`: its numerator.
pub open spec fn a_numerator_spec(n: int) -> int {
    (n - 1) * (n - 1)
}

/// The common denominator `4 N^2`.
pub open spec fn denominator_spec(n: int) -> int {
    4 * n * n
}

/// `B = 2 - 4A`: its numerator over the common denominator.
pub open spec fn b_numerator_spec(n: int) -> int {
    2 * denominator_spec(n) - 4 * a_numerator_spec(n)
}

/// The wave-step coefficients of the grid.
pub fn wave_coefficients() -> (r: WaveCoefficients)
    ensures
        r.a_numerator == a_numerator_spec(GRID_SIZE as int),
        r.b_numerator == b_numerator_spec(GRID_SIZE as int),
        r.denominator == denominator_spec(GRID_SIZE as int),
        0 < r.a_numerator,
        2 * r.a_numerator <= r.denominator,
        r.b_numerator + 4 * r.a_numerator == 2 * r.denominator,
{
    let n: u64 = GRID_SIZE as u64;
    let a = (n - 1) * (n - 1);
    let d = 4 * n * n;
    WaveCoefficients { a_numerator: a, b_numerator: 2 * d - 4 * a, denominator: d }
}

/// The coefficients meet the stability bound of the explicit five-point
/// scheme, `c dt / h <= 1 / sqrt(2)`, that is `A <= 1/2`; hence `B >= 0`.
/// The time step is `1 / N` of a second.
pub proof fn lemma_stability_bound()
    ensures
        2 * a_numerator_spec(GRID_SIZE as int) <= denominator_spec(GRID_SIZE as int),
        b_numerator_spec(GRID_SIZE as int) >= 0,
        TICK_NANOS * GRID_SIZE == 1_000_000_000,
{
}

/// The wave step at cell `c` in exact arithmetic,
/// `d * (A * (up + down + right + left) + B * center) - previous`, scaled by
/// the damping and coefficient denominators so that it is an integer when the
/// heights are. `current` and `previous` hold the two height buffers in
/// row-major order, and neighbours are addressed as `stencil_spec` says.
pub open spec fn step_spec(current: Seq<int>, previous: Seq<int>, c: Cell) -> int {
    let s = stencil_spec(c);
    let n = GRID_SIZE as int;
    let neighbours = current[index_spec(s[1])] + current[index_spec(s[2])] + current[index_spec(
        s[3],
    )] + current[index_spec(s[4])];
    damping_spec(c) * (a_numerator_spec(n) * neighbours + b_numerator_spec(n) * current[index_spec(
        c,
    )]) - DAMPING_DENOMINATOR * denominator_spec(n) * previous[index_spec(c)]
}

/// Both buffers are zero at every grid cell farther than `radius` from
/// `origin`.
pub open spec fn quiet_beyond(current: Seq<int>, previous: Seq<int>, origin: Cell, radius: int) -> bool {
    forall|d: Cell|
        d.wf() && distance(d, origin) > radius ==> current[#[trigger] index_spec(d)] == 0
            && previous[index_spec(d)] == 0
}

/// Disturbance locality: if both height buffers are zero beyond `radius` of
/// `origin` (a single bend at `origin` gives radius 0), one step leaves every
/// cell beyond `radius + 1` at zero; `step_numerator` computes that step.
pub proof fn lemma_step_locality(
    current: Seq<int>,
    previous: Seq<int>,
    origin: Cell,
    radius: int,
    c: Cell,
)
    requires
        origin.wf(),
        c.wf(),
        radius >= 0,
        current.len() == GRID_SIZE * GRID_SIZE,
        previous.len() == GRID_SIZE * GRID_SIZE,
        quiet_beyond(current, previous, origin, radius),
        distance(c, origin) > radius + 1,
    ensures
        step_spec(current, previous, c) == 0,
{
    crate::grid::lemma_stencil_locality(c, origin, radius);
    let s = stencil_spec(c);
    assert(distance(s[1], origin) > radius);
    assert(distance(s[2], origin) > radius);
    assert(distance(s[3], origin) > radius);
    assert(distance(s[4], origin) > radius);
    assert(current[index_spec(s[1])] == 0);
    assert(current[index_spec(s[2])] == 0);
    assert(current[index_spec(s[3])] == 0);
    assert(current[index_spec(s[4])] == 0);
    assert(current[index_spec(c)] == 0);
    assert(previous[index_spec(c)] == 0);
    let n = GRID_SIZE as int;
    let neighbours = current[index_spec(s[1])] + current[index_spec(s[2])] + current[index_spec(
        s[3],
    )] + current[index_spec(s[4])];
    let center = current[index_spec(c)];
    let inner = a_numerator_spec(n) * neighbours + b_numerator_spec(n) * center;
    assert(neighbours == 0);
    assert(inner == 0) by (nonlinear_arith)
        requires
            neighbours == 0,
            center == 0,
            inner == a_numerator_spec(n) * neighbours + b_numerator_spec(n) * center,
    ;
    assert(damping_spec(c) * inner == 0);
    assert(DAMPING_DENOMINATOR * denominator_spec(n) * previous[index_spec(c)] == 0);
}

/// The wave step at cell `c` in exact arithmetic, as `step_spec` states it,
/// for heights given as integers in row-major buffers.
pub fn step_numerator(current: &Vec<i64>, previous: &Vec<i64>, c: Cell) -> (r: i128)
    requires
        c.wf(),
        current.len() == GRID_SIZE * GRID_SIZE,
        previous.len() == GRID_SIZE * GRID_SIZE,
    ensures
        r == step_spec(current@.map_values(|h: i64| h as int), previous@.map_values(|h: i64| h as int), c),
{
    let s = stencil_cells(c);
    let coefficients = wave_coefficients();
    let up = current[cell_index(s[1])] as i128;
    let down = current[cell_index(s[2])] as i128;
    let right = current[cell_index(s[3])] as i128;
    let left = current[cell_index(s[4])] as i128;
    let center = current[cell_index(c)] as i128;
    let prev = previous[cell_index(c)] as i128;
    let d = damping_numerator(c) as i128;
    let neighbours = up + down + right + left;
    let a = coefficients.a_numerator as i128;
    let b = coefficients.b_numerator as i128;
    assert(a == 65025 && b == 264188);
    assert(-4835703278458516698824704 <= a * neighbours <= 4835703278458516698824704 && -4835703278458516698824704 <= b * center <= 4835703278458516698824704) by (nonlinear_arith)
        requires
            -36893488147419103232 <= neighbours <= 36893488147419103232,
            i64::MIN <= center <= i64::MAX,
            a == 65025,
            b == 264188,
    ;
    let inner = a * neighbours + b * center;
    assert(-9903520314283042199192993792 <= inner <= 9903520314283042199192993792) by (nonlinear_arith)
        requires
            -36893488147419103232 <= neighbours <= 36893488147419103232,
            i64::MIN <= center <= i64::MAX,
            inner == 65025 * neighbours + 264188 * center,
    ;
    assert(-40564819207303340847894502572032 <= d * inner <= 40564819207303340847894502572032) by (nonlinear_arith)
        requires
            -9903520314283042199192993792 <= inner <= 9903520314283042199192993792,
            0 < d <= 2432,
    ;
    let damped = d * inner;
    let scale = DAMPING_DENOMINATOR as i128 * coefficients.denominator as i128;
    assert(-9903520314283042199192993792 <= scale * prev <= 9903520314283042199192993792) by (nonlinear_arith)
        requires
            scale == 2560 * 262144,
            i64::MIN <= prev <= i64::MAX,
    ;
    let r = damped - scale * prev;
    proof {
        let cur = current@.map_values(|h: i64| h as int);
        let pre = previous@.map_values(|h: i64| h as int);
        assert(cur[index_spec(s@[1])] == up);
        assert(cur[index_spec(s@[2])] == down);
        assert(cur[index_spec(s@[3])] == right);
        assert(cur[index_spec(s@[4])] == left);
        assert(cur[index_spec(c)] == center);
        assert(pre[index_spec(c)] == prev);
    }
    r
}

} // verus!
