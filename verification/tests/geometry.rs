use hex_dungeon::generation_fields::dungeon::CellConnections;
use hex_dungeon::wfc::GridLocation;
use hex_dungeon::wfc::HexGrid;

#[test]
fn new_location_keeps_its_coordinates() {
    let location = GridLocation::new(3, -7);
    assert_eq!(location.row, 3);
    assert_eq!(location.col, -7);
    assert_eq!(location, GridLocation { row: 3, col: -7 });
    assert_ne!(location, GridLocation { row: -7, col: 3 });
}

#[test]
fn neighbors_of_an_even_row_shift_left() {
    let neighbors = GridLocation::new(2, 2).get_neighbors();
    assert_eq!(
        neighbors,
        vec![
            GridLocation::new(1, 1),
            GridLocation::new(1, 2),
            GridLocation::new(2, 3),
            GridLocation::new(3, 2),
            GridLocation::new(3, 1),
            GridLocation::new(2, 1),
        ]
    );
}

#[test]
fn neighbors_of_an_odd_row_keep_the_column() {
    let neighbors = GridLocation::new(1, 2).get_neighbors();
    assert_eq!(
        neighbors,
        vec![
            GridLocation::new(0, 2),
            GridLocation::new(0, 3),
            GridLocation::new(1, 3),
            GridLocation::new(2, 3),
            GridLocation::new(2, 2),
            GridLocation::new(1, 1),
        ]
    );
}

#[test]
fn neighbors_of_a_negative_odd_row_keep_the_column() {
    let neighbors = GridLocation::new(-1, 0).get_neighbors();
    assert_eq!(neighbors[0], GridLocation::new(-2, 0));
    assert_eq!(neighbors[1], GridLocation::new(-2, 1));
    assert_eq!(neighbors[3], GridLocation::new(0, 1));
    assert_eq!(neighbors[4], GridLocation::new(0, 0));
}

#[test]
fn stepping_there_and_back_leads_home() {
    for row in -3..6 {
        for col in -3..6 {
            let location = GridLocation::new(row, col);
            let neighbors = location.get_neighbors();
            assert_eq!(neighbors.len(), 6);
            for index in 0..6 {
                let back = neighbors[index].get_neighbors();
                assert_eq!(back[CellConnections::opposite_index(index)], location);
            }
        }
    }
}

#[test]
fn the_neighbors_of_a_corner_that_lie_off_the_grid_are_absent() {
    let grid = HexGrid::<u8>::new(4, 4, &vec![1, 2, 3]);
    let corner = GridLocation::new(0, 0);
    let neighbors = corner.get_neighbors();
    assert!(grid.get_cell(&corner).is_some());
    // top left, top right, bottom left and left of the first cell lie off the grid
    assert!(grid.get_cell(&neighbors[0]).is_none());
    assert!(grid.get_cell(&neighbors[1]).is_none());
    assert!(grid.get_cell(&neighbors[4]).is_none());
    assert!(grid.get_cell(&neighbors[5]).is_none());
    assert_eq!(grid.get_cell(&neighbors[2]).unwrap().location, GridLocation::new(0, 1));
    assert_eq!(grid.get_cell(&neighbors[3]).unwrap().location, GridLocation::new(1, 0));

    let last = GridLocation::new(3, 3);
    let neighbors = last.get_neighbors();
    assert!(grid.get_cell(&last).is_some());
    assert_eq!(grid.get_cell(&neighbors[0]).unwrap().location, GridLocation::new(2, 3));
    assert!(grid.get_cell(&neighbors[1]).is_none());
    assert!(grid.get_cell(&neighbors[2]).is_none());
    assert!(grid.get_cell(&neighbors[3]).is_none());
    assert!(grid.get_cell(&neighbors[4]).is_none());
    assert_eq!(grid.get_cell(&neighbors[5]).unwrap().location, GridLocation::new(3, 2));
}

#[test]
fn lookups_off_the_grid_are_absent() {
    let grid = HexGrid::<u8>::new(2, 3, &vec![9]);
    assert!(grid.get_cell(&GridLocation::new(-1, 0)).is_none());
    assert!(grid.get_cell(&GridLocation::new(0, -1)).is_none());
    assert!(grid.get_cell(&GridLocation::new(2, 0)).is_none());
    assert!(grid.get_cell(&GridLocation::new(0, 3)).is_none());
    assert!(grid.get_cell(&GridLocation::new(i64::MAX, i64::MAX)).is_none());
    assert!(grid.get_cell(&GridLocation::new(i64::MIN, i64::MIN)).is_none());
    assert!(grid.get_cell(&GridLocation::new(1, 2)).is_some());
}

#[test]
fn an_empty_grid_has_no_cells() {
    let grid = HexGrid::<u8>::new(0, 5, &vec![1]);
    assert_eq!(grid.grid.len(), 0);
    assert!(grid.get_cell(&GridLocation::new(0, 0)).is_none());
}

#[test]
fn a_new_grid_holds_the_initial_types_everywhere() {
    let grid = HexGrid::<u8>::new(3, 2, &vec![4, 5]);
    assert_eq!(grid.grid.len(), 3);
    for row in 0..3 {
        assert_eq!(grid.grid[row].len(), 2);
        for col in 0..2 {
            let cell = &grid.grid[row][col];
            assert_eq!(cell.possible_types, vec![4, 5]);
            assert_eq!(cell.location, GridLocation::new(row as i64, col as i64));
            assert_eq!(cell.max_cell_types, 2);
            assert!(cell.is_untouched());
            assert!(!cell.is_settled());
        }
    }
}

#[test]
fn a_cell_is_settled_with_one_type_or_none() {
    let mut grid = HexGrid::<u8>::new(1, 3, &vec![4, 5]);
    grid.set_possible_types(&GridLocation::new(0, 1), vec![5]);
    grid.set_possible_types(&GridLocation::new(0, 2), vec![]);
    assert!(!grid.grid[0][0].is_settled());
    assert!(grid.grid[0][1].is_settled());
    assert!(grid.grid[0][2].is_settled());
    assert!(grid.grid[0][0].is_untouched());
    assert!(!grid.grid[0][1].is_untouched());
    assert!(!grid.grid[0][2].is_untouched());
    assert_eq!(grid.cell_at(&GridLocation::new(0, 1)).possible_types, vec![5]);
    assert_eq!(grid.index_of(&GridLocation::new(0, 2)), (0, 2));
}

#[test]
fn setting_types_off_the_grid_changes_nothing() {
    let mut grid = HexGrid::<u8>::new(2, 2, &vec![4, 5]);
    let before = grid.clone();
    grid.set_possible_types(&GridLocation::new(2, 0), vec![1]);
    grid.set_possible_types(&GridLocation::new(0, -1), vec![1]);
    assert_eq!(grid, before);
}
