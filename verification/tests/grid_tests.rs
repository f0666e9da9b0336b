use grid_utils::grid::add_grids;
use grid_utils::grid::find_coords_for;
use grid_utils::grid::new_grid;
use grid_utils::grid::rotate_clockwise_90;
use grid_utils::grid::transpose;
use grid_utils::grid::GridNeighbours;

#[test]
fn new_grid_fills_with_defaults() {
    let g: Vec<Vec<i32>> = new_grid(2, 3);
    assert_eq!(g.len(), 2);
    for row in &g {
        assert_eq!(row.len(), 3);
        for &cell in row {
            assert_eq!(cell, 0);
        }
    }
}

#[test]
fn new_grid_zero_rows_is_empty() {
    let g: Vec<Vec<u8>> = new_grid(0, 5);
    assert!(g.is_empty());
}

#[test]
fn new_grid_zero_cols_gives_empty_rows() {
    let g: Vec<Vec<u8>> = new_grid(3, 0);
    assert_eq!(g.len(), 3);
    for row in &g {
        assert!(row.is_empty());
    }
}

#[test]
fn neighbours_of_top_edge_cell() {
    let grid = vec![vec![1, 2, 3], vec![4, 5, 6]];
    let ns = GridNeighbours::get_neighbours_for_coord(&grid, 0, 1);
    assert_eq!(ns.n, None);
    assert_eq!(ns.ne, None);
    assert_eq!(ns.e, Some(3));
    assert_eq!(ns.se, Some(6));
    assert_eq!(ns.s, Some(5));
    assert_eq!(ns.sw, Some(4));
    assert_eq!(ns.w, Some(1));
    assert_eq!(ns.nw, None);
}

#[test]
fn neighbours_into_vec_is_clockwise_from_north() {
    let grid = vec![vec![1, 2, 3], vec![4, 5, 6], vec![7, 8, 9]];
    let ns = GridNeighbours::get_neighbours_for_coord(&grid, 1, 1);
    let v = ns.into_vec();
    assert_eq!(
        v,
        vec![
            Some(2),
            Some(3),
            Some(6),
            Some(9),
            Some(8),
            Some(7),
            Some(4),
            Some(1)
        ]
    );
}

#[test]
fn neighbour_counts_corner_edge_interior() {
    let grid = vec![vec![1, 2, 3], vec![4, 5, 6], vec![7, 8, 9]];
    let count = |i: usize, j: usize| {
        GridNeighbours::get_neighbours_for_coord(&grid, i, j)
            .into_vec()
            .iter()
            .filter(|c| c.is_some())
            .count()
    };
    assert_eq!(count(0, 0), 3);
    assert_eq!(count(0, 2), 3);
    assert_eq!(count(2, 0), 3);
    assert_eq!(count(2, 2), 3);
    assert_eq!(count(0, 1), 5);
    assert_eq!(count(1, 0), 5);
    assert_eq!(count(1, 2), 5);
    assert_eq!(count(2, 1), 5);
    assert_eq!(count(1, 1), 8);
}

#[test]
fn neighbours_of_single_cell_grid_all_absent() {
    let grid = vec![vec![42]];
    let ns = GridNeighbours::get_neighbours_for_coord(&grid, 0, 0);
    assert_eq!(ns.into_vec(), vec![None::<i32>; 8]);
}

#[test]
fn find_coords_scenario() {
    let grid = vec![vec!["a", "b"], vec!["a", "c"]];
    assert_eq!(find_coords_for(&grid, "a"), vec![(0, 0), (1, 0)]);
}

#[test]
fn find_coords_no_match_is_empty() {
    let grid = vec![vec![1, 2], vec![3, 4]];
    assert_eq!(find_coords_for(&grid, 9), Vec::<(usize, usize)>::new());
}

#[test]
fn find_coords_adjacent_equal_values() {
    let grid = vec![vec![7, 7, 7], vec![0, 7, 0]];
    assert_eq!(
        find_coords_for(&grid, 7),
        vec![(0, 0), (0, 1), (0, 2), (1, 1)]
    );
}

#[test]
fn transpose_scenario() {
    let grid = vec![vec![1, 2], vec![3, 4]];
    assert_eq!(transpose(grid), vec![vec![1, 3], vec![2, 4]]);
}

#[test]
fn transpose_rectangular() {
    let grid = vec![vec![1, 2, 3], vec![4, 5, 6]];
    assert_eq!(transpose(grid), vec![vec![1, 4], vec![2, 5], vec![3, 6]]);
}

#[test]
fn transpose_twice_is_identity() {
    let grid = vec![vec![1, 2, 3], vec![4, 5, 6]];
    assert_eq!(transpose(transpose(grid.clone())), grid);
}

#[test]
fn rotate_scenario() {
    let grid = vec![vec![1, 2], vec![3, 4]];
    assert_eq!(rotate_clockwise_90(&grid), vec![vec![3, 1], vec![4, 2]]);
}

#[test]
fn rotate_four_times_is_identity() {
    let grid = vec![vec![1, 2, 3], vec![4, 5, 6]];
    let once = rotate_clockwise_90(&grid);
    let twice = rotate_clockwise_90(&once);
    let thrice = rotate_clockwise_90(&twice);
    let four = rotate_clockwise_90(&thrice);
    assert_eq!(four, grid);
}

#[test]
fn add_grids_elementwise() {
    let g1 = vec![vec![1, 2], vec![3, 4]];
    let g2 = vec![vec![10, 20], vec![30, 40]];
    assert_eq!(add_grids(g1, g2), vec![vec![11, 22], vec![33, 44]]);
}

#[test]
fn add_grids_single_row() {
    let g1 = vec![vec![5, -3]];
    let g2 = vec![vec![-5, 3]];
    assert_eq!(add_grids(g1, g2), vec![vec![0, 0]]);
}
