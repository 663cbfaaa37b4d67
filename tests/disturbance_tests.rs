use duck_water::disturbance::{cell_from_random, checked_cell, random_cell, DisturbanceError};
use duck_water::grid::{Cell, GRID_SIZE};

#[test]
fn checked_cell_accepts_grid_cells() {
    assert_eq!(checked_cell(0, 0), Ok(Cell { x: 0, y: 0 }));
    assert_eq!(checked_cell(255, 255), Ok(Cell { x: 255, y: 255 }));
    assert_eq!(checked_cell(128, 7), Ok(Cell { x: 128, y: 7 }));
}

#[test]
fn checked_cell_rejects_outside() {
    assert_eq!(checked_cell(-1, 0), Err(DisturbanceError::OutOfGrid));
    assert_eq!(checked_cell(0, -1), Err(DisturbanceError::OutOfGrid));
    assert_eq!(checked_cell(256, 0), Err(DisturbanceError::OutOfGrid));
    assert_eq!(checked_cell(0, 256), Err(DisturbanceError::OutOfGrid));
    assert_eq!(checked_cell(i64::MAX, i64::MIN), Err(DisturbanceError::OutOfGrid));
}

#[test]
fn cell_from_random_reduces_modulo_grid() {
    assert_eq!(cell_from_random(257, 12 * 256 + 3), Cell { x: 1, y: 3 });
    assert_eq!(cell_from_random(u32::MAX, 0), Cell { x: 255, y: 0 });
    assert_eq!(cell_from_random(12, 100), Cell { x: 12, y: 100 });
}

#[test]
fn random_cells_lie_in_grid() {
    let mut seen_far = false;
    for _ in 0..1000 {
        let c = random_cell();
        assert!(c.x < GRID_SIZE && c.y < GRID_SIZE);
        if c.x > 1 || c.y > 1 {
            seen_far = true;
        }
    }
    assert!(seen_far);
}
