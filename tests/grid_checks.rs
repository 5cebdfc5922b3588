use learnable_lbm::grid::{check_collide, check_propagate, check_stream, Grid, LbmError};

fn g(row: usize, col: usize, margin: usize) -> Grid {
    Grid::new(row, col, margin).unwrap()
}

#[test]
fn grid_new_accepts_margin_up_to_half() {
    assert_eq!(Grid::new(3, 3, 1), Ok(Grid { row: 3, col: 3, margin: 1 }));
    assert_eq!(Grid::new(4, 6, 2), Ok(Grid { row: 4, col: 6, margin: 2 }));
    assert_eq!(Grid::new(0, 0, 0), Ok(Grid { row: 0, col: 0, margin: 0 }));
}

#[test]
fn grid_new_refuses_wide_margin() {
    assert_eq!(Grid::new(3, 3, 2), Err(LbmError::MarginMismatch));
    assert_eq!(Grid::new(10, 3, 2), Err(LbmError::MarginMismatch));
}

#[test]
fn whole_grid_has_no_halo() {
    let w = Grid::whole(2, 5);
    assert_eq!(w, Grid { row: 2, col: 5, margin: 0 });
    for r in 0..2 {
        for c in 0..5 {
            assert!(w.interior_contains(r, c));
        }
    }
}

#[test]
fn interior_of_three_by_three_is_the_centre() {
    let grid = g(3, 3, 1);
    for r in 0..3 {
        for c in 0..3 {
            assert_eq!(grid.interior_contains(r, c), r == 1 && c == 1);
        }
    }
    let wide = g(5, 4, 1);
    assert!(wide.interior_contains(3, 2));
    assert!(!wide.interior_contains(4, 2));
    assert!(!wide.interior_contains(3, 3));
}

#[test]
fn check_extent_compares_rows_and_columns() {
    let grid = g(3, 4, 1);
    assert_eq!(grid.check_extent(3, 4), Ok(()));
    assert_eq!(grid.check_extent(4, 3), Err(LbmError::ShapeMismatch));
    assert_eq!(grid.check_extent(3, 5), Err(LbmError::ShapeMismatch));
}

#[test]
fn stream_from_input_needs_a_halo() {
    let input = Grid::whole(3, 3);
    assert_eq!(check_stream(&g(3, 3, 1), &g(3, 3, 1), &input, false), Ok(()));
    assert_eq!(check_stream(&g(5, 5, 2), &g(5, 5, 2), &Grid::whole(5, 5), false), Ok(()));
    assert_eq!(check_stream(&g(3, 3, 0), &g(3, 3, 0), &input, false), Err(LbmError::MarginMismatch));
    assert_eq!(check_stream(&g(3, 3, 1), &g(3, 3, 0), &input, false), Err(LbmError::MarginMismatch));
}

#[test]
fn stream_from_collided_needs_margin_one_more() {
    assert_eq!(check_stream(&g(5, 5, 2), &g(5, 5, 2), &g(5, 5, 1), true), Ok(()));
    assert_eq!(check_stream(&g(5, 5, 2), &g(5, 5, 2), &g(5, 5, 0), true), Err(LbmError::MarginMismatch));
    assert_eq!(check_stream(&g(5, 5, 1), &g(5, 5, 1), &g(5, 5, 1), true), Err(LbmError::MarginMismatch));
}

#[test]
fn stream_shape_is_checked_before_margin() {
    assert_eq!(check_stream(&g(3, 3, 1), &g(3, 4, 1), &g(3, 3, 0), true), Err(LbmError::ShapeMismatch));
    assert_eq!(check_stream(&g(3, 3, 1), &g(3, 3, 0), &g(4, 3, 0), true), Err(LbmError::ShapeMismatch));
}

#[test]
fn collide_needs_one_margin_and_one_shape() {
    assert_eq!(check_collide(&g(3, 3, 1), &g(3, 3, 1), &g(3, 3, 1)), Ok(()));
    assert_eq!(check_collide(&g(3, 3, 1), &g(3, 3, 0), &g(3, 3, 1)), Err(LbmError::MarginMismatch));
    assert_eq!(check_collide(&g(3, 3, 1), &g(3, 3, 1), &g(3, 3, 0)), Err(LbmError::MarginMismatch));
    assert_eq!(check_collide(&g(3, 3, 1), &g(3, 3, 1), &g(4, 3, 1)), Err(LbmError::ShapeMismatch));
}

#[test]
fn propagate_checks_targets_and_margins() {
    let w = g(4, 5, 1);
    let now = g(4, 5, 1);
    let prev = g(4, 5, 0);
    assert_eq!(check_propagate(&w, &now, &prev, (4, 5), (4, 5)), Ok(()));
    assert_eq!(check_propagate(&w, &now, &prev, (5, 4), (4, 5)), Err(LbmError::ShapeMismatch));
    assert_eq!(check_propagate(&w, &now, &prev, (4, 5), (4, 4)), Err(LbmError::ShapeMismatch));
    assert_eq!(check_propagate(&w, &now, &g(5, 5, 0), (4, 5), (4, 5)), Err(LbmError::ShapeMismatch));
    assert_eq!(check_propagate(&w, &now, &g(4, 5, 1), (4, 5), (4, 5)), Err(LbmError::MarginMismatch));
    assert_eq!(check_propagate(&w, &g(4, 5, 0), &prev, (4, 5), (4, 5)), Err(LbmError::MarginMismatch));
}
