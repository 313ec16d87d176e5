use cell_grid::{Coord, DynamicGrid, Grid, IncompatibleRowSize, Rect};

#[test]
fn push_row_infers_width_from_the_first_row() {
    let mut grid: DynamicGrid<i32> = DynamicGrid::new();
    grid.push_row(vec![10, 20]).unwrap();
    grid.push_row(vec![30, 40]).unwrap();
    assert_eq!(grid.width(), 2);
    assert_eq!(grid.height(), 2);
    assert_eq!(grid.get(0, 0), Some(&10));
    assert_eq!(grid.get(1, 0), Some(&20));
    assert_eq!(grid.get(0, 1), Some(&30));
    assert_eq!(grid.get(1, 1), Some(&40));
}

#[test]
fn push_row_of_incompatible_width_rolls_back() {
    let mut grid: DynamicGrid<i32> = DynamicGrid::new();
    grid.push_row((0..10).collect()).unwrap();
    let before: Vec<i32> = grid.cells().to_vec();
    let _: IncompatibleRowSize = grid.push_row((0..11).collect()).unwrap_err();
    let _: IncompatibleRowSize = grid.push_row((0..9).collect()).unwrap_err();
    assert_eq!(grid.width(), 10);
    assert_eq!(grid.height(), 1);
    assert_eq!(grid.cells(), before);
}

#[test]
fn pushing_an_empty_row_on_an_empty_grid_keeps_it_empty() {
    let mut grid: DynamicGrid<i32> = DynamicGrid::new();
    grid.push_row(vec![]).unwrap();
    assert!(grid.is_empty());
    assert_eq!(grid.width(), 0);
    grid.push_row(vec![1]).unwrap();
    assert_eq!(grid.width(), 1);
}

#[test]
fn set_returns_previous_value_and_get_reads_it_back() {
    let mut grid = DynamicGrid::new_from_iter(3, vec![1, 2, 3, 4, 5, 6]).unwrap();
    assert_eq!(grid.set(2, 1, 60), Some(6));
    assert_eq!(grid.get(2, 1), Some(&60));
}

#[test]
fn get_and_set_out_of_bounds_leave_the_grid_unchanged() {
    let mut grid = DynamicGrid::new_from_iter(2, vec![1, 2, 3, 4]).unwrap();
    assert_eq!(grid.get(2, 0), None);
    assert_eq!(grid.get(0, 2), None);
    assert_eq!(grid.set(2, 0, 9), None);
    assert_eq!(grid.set(0, 2, 9), None);
    assert_eq!(grid.cells(), [1, 2, 3, 4]);
    assert_eq!(grid.width(), 2);
}

#[test]
fn negative_coordinates_address_no_cell() {
    let grid = Grid::from_row_major_iter(2, vec![1, 2, 3, 4]);
    assert_eq!(grid.get(Coord::new(-1, 0)), None);
    assert_eq!(grid.get(Coord::new(0, -1)), None);
}

#[test]
fn empty_grid_has_no_rows_and_no_cells() {
    let grid: DynamicGrid<i32> = DynamicGrid::new();
    assert_eq!(grid.width(), 0);
    assert_eq!(grid.height(), 0);
    assert!(grid.rows().is_empty());
    assert!(grid.cells().is_empty());
    assert!(grid.cells_in_rect(0, 0, 5, 5).is_empty());
}

#[test]
fn new_with_capacity_starts_empty() {
    let grid: DynamicGrid<i32> = DynamicGrid::new_with_capacity(64);
    assert!(grid.is_empty());
    assert_eq!(grid.width(), 0);
}

#[test]
fn iterating_cells_twice_yields_identical_sequences() {
    let grid = DynamicGrid::new_with(4, 3, |x, y| (x, y));
    let first: Vec<(usize, usize)> = grid.cells().to_vec();
    let second: Vec<(usize, usize)> = grid.cells().to_vec();
    assert_eq!(first, second);
}

#[test]
fn rows_yields_height_slices_of_length_width() {
    let grid = DynamicGrid::new_with(4, 3, |x, y| (x, y));
    let rows = grid.rows();
    assert_eq!(rows.len(), 3);
    for row in rows {
        assert_eq!(row.len(), 4);
    }
}

#[test]
fn rect_entirely_outside_the_grid_yields_no_cells() {
    let grid = DynamicGrid::new_with(10, 10, |x, y| (x, y));
    assert!(grid.cells_in_rect(10, 0, 3, 3).is_empty());
    assert!(grid.cells_in_rect(0, 10, 3, 3).is_empty());
    assert!(grid.cells_in_rect(25, 25, 5, 5).is_empty());
}

#[test]
fn rect_of_zero_size_yields_no_cells() {
    let grid = DynamicGrid::new_with(10, 10, |x, y| (x, y));
    assert!(grid.cells_in_rect(2, 2, 0, 3).is_empty());
    assert!(grid.cells_in_rect(2, 2, 3, 0).is_empty());
}

#[test]
fn error_message_names_the_row_size() {
    let err = DynamicGrid::new_from_iter(2, vec![1, 2, 3]).unwrap_err();
    assert_eq!(
        err.message(),
        "The row size is not compatible with the current content of the grid"
    );
}

#[test]
fn ragged_tail_cells_are_addressable_only_where_stored() {
    let grid = Grid::from_row_major_iter(2, vec![1, 2, 3]);
    assert_eq!(grid.get(Coord::new(0, 1)), Some(&3));
    assert_eq!(grid.get(Coord::new(1, 1)), None);
}

#[test]
fn rect_coords_run_column_by_column() {
    let coords = Rect::from_min_max(Coord::new(0, 0), Coord::new(1, 1)).coords();
    assert_eq!(
        coords,
        [
            Coord::new(0, 0),
            Coord::new(0, 1),
            Coord::new(1, 0),
            Coord::new(1, 1),
        ]
    );
}

#[test]
fn inverted_rect_contains_no_coords() {
    assert!(Rect::from_min_max(Coord::new(2, 0), Coord::new(1, 5)).coords().is_empty());
    assert!(Rect::from_min_max(Coord::new(0, 5), Coord::new(9, 4)).coords().is_empty());
}

#[test]
fn from_index_rejects_components_beyond_i32() {
    assert_eq!(
        Coord::from_index(3, 7),
        Some(Coord::new(1, 2)),
    );
    let big = usize::try_from(i32::MAX).unwrap() + 1;
    assert_eq!(Coord::from_index(1, big), None);
}

#[test]
fn former_module_path_still_works() {
    let mut grid: cell_grid::dynamic::Grid<i32> = cell_grid::dynamic::Grid::new();
    grid.push_row(vec![1, 2]).unwrap();
    let _: cell_grid::dynamic::IncompatibleRowSize = grid.push_row(vec![3]).unwrap_err();
    assert_eq!(grid.get(1, 0), Some(&2));
}

#[test]
fn width_set_by_an_empty_iter_still_constrains_rows() {
    let mut grid = DynamicGrid::<i32>::new_from_iter(3, vec![]).unwrap();
    assert_eq!(grid.width(), 3);
    assert!(grid.is_empty());
    grid.push_row(vec![1, 2]).unwrap_err();
    grid.push_row(vec![1, 2, 3]).unwrap();
    assert_eq!(grid.get(2, 0), Some(&3));
}

#[test]
fn default_grid_is_empty() {
    let grid: DynamicGrid<i32> = DynamicGrid::default();
    assert!(grid.is_empty());
    assert_eq!(grid.width(), 0);
}
