use plotkit_core::charts::contour::{case_segments, cell_case, contour_cells, Edge};

#[test]
fn cell_case_sets_one_bit_per_corner() {
    assert_eq!(cell_case(false, false, false, false), 0);
    assert_eq!(cell_case(true, false, false, false), 1);
    assert_eq!(cell_case(false, true, false, false), 2);
    assert_eq!(cell_case(false, false, true, false), 4);
    assert_eq!(cell_case(false, false, false, true), 8);
    assert_eq!(cell_case(true, true, true, true), 15);
}

#[test]
fn case_segments_table() {
    assert!(case_segments(0).is_empty());
    assert!(case_segments(15).is_empty());
    assert_eq!(case_segments(1), vec![(Edge::Bottom, Edge::Left)]);
    assert_eq!(case_segments(14), vec![(Edge::Bottom, Edge::Left)]);
    assert_eq!(case_segments(3), vec![(Edge::Left, Edge::Right)]);
    assert_eq!(case_segments(6), vec![(Edge::Bottom, Edge::Top)]);
    assert_eq!(case_segments(5), vec![(Edge::Bottom, Edge::Left), (Edge::Right, Edge::Top)]);
    assert_eq!(case_segments(10), vec![(Edge::Bottom, Edge::Left), (Edge::Right, Edge::Top)]);
}

#[test]
fn contour_cells_uniform_grid_has_no_contour() {
    let above = vec![vec![Some(false); 3]; 3];
    assert!(contour_cells(&above, 3, 3).is_empty());
    let above = vec![vec![Some(true); 3]; 3];
    assert!(contour_cells(&above, 3, 3).is_empty());
}

#[test]
fn contour_cells_walks_rows_then_columns() {
    // Only the top-right corner of the grid is above the level.
    let above = vec![
        vec![Some(false), Some(false), Some(false)],
        vec![Some(false), Some(false), Some(false)],
        vec![Some(false), Some(false), Some(true)],
    ];
    // Cell (1, 1) has its top-right corner above: case 4.
    assert_eq!(contour_cells(&above, 3, 3), vec![(1, 1, Edge::Right, Edge::Top)]);
}

#[test]
fn contour_cells_skips_cells_with_non_finite_corners() {
    let above = vec![
        vec![Some(true), Some(false), Some(false)],
        vec![None, Some(false), Some(true)],
    ];
    // Cell (0, 0) touches the missing value; cell (1, 0) is case 4.
    assert_eq!(contour_cells(&above, 3, 2), vec![(1, 0, Edge::Right, Edge::Top)]);
}

#[test]
fn contour_cells_saddle_draws_two_segments() {
    let above = vec![vec![Some(true), Some(false)], vec![Some(false), Some(true)]];
    assert_eq!(
        contour_cells(&above, 2, 2),
        vec![(0, 0, Edge::Bottom, Edge::Left), (0, 0, Edge::Right, Edge::Top)]
    );
}

#[test]
fn contour_cells_needs_two_rows_and_columns() {
    let above = vec![vec![Some(true), Some(false)], vec![Some(false), Some(true)]];
    assert!(contour_cells(&above, 1, 2).is_empty());
    assert!(contour_cells(&above, 2, 1).is_empty());
    assert!(contour_cells(&vec![vec![Some(true), Some(false)]], 2, 2).is_empty());
}

#[test]
fn contour_cells_stops_at_short_rows() {
    // The grid claims three columns but the rows hold two values.
    let above = vec![vec![Some(true), Some(false)], vec![Some(true), Some(false)]];
    assert_eq!(contour_cells(&above, 3, 2), vec![(0, 0, Edge::Bottom, Edge::Top)]);
    // An empty row leaves its cells out.
    let above = vec![vec![], vec![Some(true), Some(false)]];
    assert!(contour_cells(&above, 3, 2).is_empty());
}

#[test]
fn contour_segment_count_per_cell() {
    // A split cell draws one segment, a saddle two, a uniform cell none.
    let above = vec![
        vec![Some(true), Some(false), Some(true), Some(true)],
        vec![Some(false), Some(true), Some(true), Some(true)],
    ];
    // Cell 0 is a saddle, cell 1 is split (case 2 + 4 + 8 = 14), cell 2 is uniform.
    assert_eq!(contour_cells(&above, 4, 2).len(), 3);
}
