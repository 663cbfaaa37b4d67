use duck_water::damping::damping_numerator;
use duck_water::grid::{cell_index, Cell, GRID_SIZE};
use duck_water::wave::step_numerator;

fn grid() -> Vec<i64> {
    vec![0; (GRID_SIZE * GRID_SIZE) as usize]
}

#[test]
fn step_of_flat_zero_field_is_zero() {
    let z = grid();
    assert_eq!(step_numerator(&z, &z, Cell { x: 0, y: 0 }), 0);
    assert_eq!(step_numerator(&z, &z, Cell { x: 128, y: 128 }), 0);
}

#[test]
fn step_after_single_bend_is_local() {
    let origin = Cell { x: 128, y: 128 };
    let mut current = grid();
    current[cell_index(origin)] = -4;
    let previous = grid();
    let d = damping_numerator(origin) as i128;
    assert_eq!(step_numerator(&current, &previous, origin), d * 264188 * -4);
    let n = Cell { x: 129, y: 128 };
    assert_eq!(step_numerator(&current, &previous, n), damping_numerator(n) as i128 * 65025 * -4);
    for &(x, y) in &[(130u32, 128u32), (129, 129), (128, 126), (0, 0), (255, 255)] {
        assert_eq!(step_numerator(&current, &previous, Cell { x, y }), 0);
    }
}

#[test]
fn step_subtracts_scaled_previous() {
    let c = Cell { x: 5, y: 7 };
    let current = grid();
    let mut previous = grid();
    previous[cell_index(c)] = 3;
    assert_eq!(step_numerator(&current, &previous, c), -(2560i128 * 262144 * 3));
}

#[test]
fn step_clamps_at_the_edge() {
    let corner = Cell { x: 0, y: 0 };
    let mut current = grid();
    current[cell_index(corner)] = 1;
    let previous = grid();
    let d = damping_numerator(corner) as i128;
    assert_eq!(step_numerator(&current, &previous, corner), d * (65025 * 2 + 264188));
}

#[test]
fn step_handles_extreme_heights() {
    let c = Cell { x: 100, y: 100 };
    let current = vec![i64::MAX; (GRID_SIZE * GRID_SIZE) as usize];
    let previous = vec![i64::MIN; (GRID_SIZE * GRID_SIZE) as usize];
    let d = damping_numerator(c) as i128;
    let expected = d * (65025 * 4 + 264188) * i64::MAX as i128 - 2560i128 * 262144 * i64::MIN as i128;
    assert_eq!(step_numerator(&current, &previous, c), expected);
}
