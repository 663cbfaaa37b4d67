use duck_water::damping::{damping_field, damping_numerator, DAMPING_DENOMINATOR, DAMPING_MAX};
use duck_water::grid::{cell_index, Cell, GRID_SIZE};

#[test]
fn damping_is_max_at_center() {
    assert_eq!(DAMPING_MAX, 2432);
    assert_eq!(damping_numerator(Cell { x: 128, y: 128 }), DAMPING_MAX);
    assert_eq!(damping_numerator(Cell { x: 127, y: 127 }), DAMPING_MAX);
    assert_eq!(DAMPING_MAX as f64 / DAMPING_DENOMINATOR as f64, 0.95);
}

#[test]
fn damping_values_follow_edge_distance() {
    assert_eq!(damping_numerator(Cell { x: 0, y: 0 }), 19);
    assert_eq!(damping_numerator(Cell { x: 255, y: 128 }), 19);
    assert_eq!(damping_numerator(Cell { x: 24, y: 128 }), 475);
    assert_eq!(damping_numerator(Cell { x: 25, y: 128 }), 494);
    assert_eq!(damping_numerator(Cell { x: 128, y: 3 }), 76);
    assert!(damping_numerator(Cell { x: 60, y: 60 }) < damping_numerator(Cell { x: 70, y: 70 }));
}

#[test]
fn damping_in_range_everywhere() {
    for y in 0..GRID_SIZE {
        for x in 0..GRID_SIZE {
            let d = damping_numerator(Cell { x, y });
            assert!(d > 0 && d <= DAMPING_MAX);
        }
    }
}

#[test]
fn damping_falls_toward_every_edge() {
    let mid = GRID_SIZE / 2;
    for i in 1..mid {
        let inner = damping_numerator(Cell { x: i, y: mid });
        let outer = damping_numerator(Cell { x: i - 1, y: mid });
        assert!(outer < inner);
        let right_inner = damping_numerator(Cell { x: GRID_SIZE - 1 - i, y: mid });
        let right_outer = damping_numerator(Cell { x: GRID_SIZE - i, y: mid });
        assert!(right_outer < right_inner);
        let up_inner = damping_numerator(Cell { x: mid, y: i });
        let up_outer = damping_numerator(Cell { x: mid, y: i - 1 });
        assert!(up_outer < up_inner);
        let diag_inner = damping_numerator(Cell { x: i, y: i });
        let diag_outer = damping_numerator(Cell { x: i - 1, y: i - 1 });
        assert!(diag_outer < diag_inner);
    }
}

#[test]
fn damping_field_matches_cells() {
    let field = damping_field();
    assert_eq!(field.len(), 65536);
    for &(x, y) in &[(0u32, 0u32), (3, 2), (128, 128), (255, 17), (200, 255)] {
        let c = Cell { x, y };
        assert_eq!(field[cell_index(c)], damping_numerator(c));
    }
}
