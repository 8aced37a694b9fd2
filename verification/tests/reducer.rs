use hex_dungeon::generation_fields::dungeon::reducer::RequirementStatus;
use hex_dungeon::generation_fields::dungeon::CellConnections;
use hex_dungeon::generation_fields::dungeon::DungeonCellType;
use hex_dungeon::generation_fields::dungeon::DungeonReducer;
use hex_dungeon::wfc::GridLocation;
use hex_dungeon::wfc::HexGrid;
use hex_dungeon::wfc::WafeFunctionReducer;
use hex_dungeon::wfc::WaveFunctionCollapseContext;

fn fresh(rows: usize, cols: usize) -> HexGrid<DungeonCellType> {
    HexGrid::new(rows, cols, &DungeonCellType::all())
}

fn only(index: usize) -> CellConnections {
    CellConnections::all_possible()[1 << index]
}

#[test]
fn undecided_neighbors_leave_a_cell_alone() {
    let grid = fresh(3, 3);
    let location = GridLocation::new(1, 1);
    assert_eq!(DungeonReducer::collapse_cell(&location, &grid), DungeonCellType::all());
    assert_eq!(DungeonReducer.reduce(&location, &grid), None);
    assert_eq!(
        DungeonReducer::required_connections(&location, &grid),
        vec![RequirementStatus::Neutral; 6]
    );
}

#[test]
fn the_edge_of_the_grid_bans_connections() {
    let grid = fresh(3, 3);
    let corner = GridLocation::new(0, 0);
    assert_eq!(
        DungeonReducer::required_connections(&corner, &grid),
        vec![
            RequirementStatus::Banned,
            RequirementStatus::Banned,
            RequirementStatus::Neutral,
            RequirementStatus::Neutral,
            RequirementStatus::Banned,
            RequirementStatus::Banned,
        ]
    );
    let left = DungeonReducer::collapse_cell(&corner, &grid);
    // blocked, and the halls and rooms that connect to the right and bottom right at most
    assert_eq!(left.len(), 9);
    assert_eq!(left[0], DungeonCellType::Blocked);
    for cell_type in &left {
        let connections = cell_type.get_connections();
        assert!(!connections.top_left);
        assert!(!connections.top_right);
        assert!(!connections.bottom_left);
        assert!(!connections.left);
    }
    assert_eq!(DungeonReducer.reduce(&corner, &grid), Some(left));
}

#[test]
fn a_cell_that_is_down_to_one_type_is_not_reduced() {
    let mut grid = fresh(1, 1);
    let location = GridLocation::new(0, 0);
    let hall = DungeonCellType::Hall(CellConnections::all());
    grid.set_possible_types(&location, vec![hall]);
    assert_eq!(DungeonReducer::collapse_cell(&location, &grid), vec![hall]);
    assert_eq!(DungeonReducer.reduce(&location, &grid), None);
    grid.set_possible_types(&location, vec![]);
    assert_eq!(DungeonReducer::collapse_cell(&location, &grid), vec![]);
    assert_eq!(DungeonReducer.reduce(&location, &grid), None);
}

#[test]
fn a_cell_banned_on_every_side_is_blocked() {
    let mut grid = fresh(1, 1);
    let location = GridLocation::new(0, 0);
    assert_eq!(
        DungeonReducer.reduce(&location, &grid),
        Some(vec![DungeonCellType::Blocked])
    );
    // even where the blocked cell was not among its types
    grid.set_possible_types(
        &location,
        vec![DungeonCellType::Hall(only(2)), DungeonCellType::Room(only(4))],
    );
    assert_eq!(
        DungeonReducer.reduce(&location, &grid),
        Some(vec![DungeonCellType::Blocked])
    );
}

#[test]
fn a_neighbor_that_opens_towards_the_cell_requires_the_connection() {
    let mut grid = fresh(3, 3);
    let location = GridLocation::new(1, 1);
    // the right neighbour is a hall that opens to its left
    grid.set_possible_types(&GridLocation::new(1, 2), vec![DungeonCellType::Hall(only(5))]);
    let asked = DungeonReducer::required_connections(&location, &grid);
    assert_eq!(asked[2], RequirementStatus::Required);
    assert!(DungeonReducer::must_connect(&asked));
    assert!(!DungeonReducer::nothing_may_connect(&asked));
    let left = DungeonReducer::collapse_cell(&location, &grid);
    assert_eq!(left.len(), 64);
    for cell_type in &left {
        assert_ne!(*cell_type, DungeonCellType::Blocked);
        assert!(cell_type.get_connections().right);
    }
}

#[test]
fn a_neighbor_with_a_wall_towards_the_cell_bans_the_connection() {
    let mut grid = fresh(3, 3);
    let location = GridLocation::new(1, 1);
    // the right neighbour is a room that opens to its right only
    grid.set_possible_types(&GridLocation::new(1, 2), vec![DungeonCellType::Room(only(2))]);
    let asked = DungeonReducer::required_connections(&location, &grid);
    assert_eq!(asked[2], RequirementStatus::Banned);
    assert!(!DungeonReducer::must_connect(&asked));
    let left = DungeonReducer::collapse_cell(&location, &grid);
    assert_eq!(left.len(), 1 + 32 + 32);
    assert_eq!(left[0], DungeonCellType::Blocked);
    for cell_type in &left {
        assert!(!cell_type.get_connections().right);
    }
}

#[test]
fn blocked_and_empty_neighbors_ban_the_connection() {
    let mut grid = fresh(3, 3);
    let location = GridLocation::new(1, 1);
    grid.set_possible_types(&GridLocation::new(0, 1), vec![DungeonCellType::Blocked]);
    grid.set_possible_types(&GridLocation::new(2, 1), vec![]);
    let asked = DungeonReducer::required_connections(&location, &grid);
    assert_eq!(asked[0], RequirementStatus::Banned);
    assert_eq!(asked[4], RequirementStatus::Banned);
    assert_eq!(asked[1], RequirementStatus::Neutral);
    let left = DungeonReducer::collapse_cell(&location, &grid);
    assert_eq!(left.len(), 1 + 16 + 16);
    for cell_type in &left {
        assert!(!cell_type.get_connections().top_left);
        assert!(!cell_type.get_connections().bottom_left);
    }
}

#[test]
fn requirements_that_no_type_meets_leave_nothing() {
    let mut grid = fresh(3, 3);
    let location = GridLocation::new(1, 1);
    grid.set_possible_types(&GridLocation::new(1, 2), vec![DungeonCellType::Hall(only(5))]);
    grid.set_possible_types(
        &location,
        vec![DungeonCellType::Blocked, DungeonCellType::Hall(only(0)), DungeonCellType::Room(only(1))],
    );
    assert_eq!(DungeonReducer.reduce(&location, &grid), Some(vec![]));
}

#[test]
fn require_connections_checks_every_side() {
    let asked = vec![
        RequirementStatus::Required,
        RequirementStatus::Banned,
        RequirementStatus::Neutral,
        RequirementStatus::Neutral,
        RequirementStatus::Neutral,
        RequirementStatus::Neutral,
    ];
    assert!(DungeonReducer::require_connections(&asked, &only(0)));
    assert!(DungeonReducer::require_connections(
        &asked,
        &CellConnections::new(true, false, true, true, true, true)
    ));
    assert!(!DungeonReducer::require_connections(&asked, &CellConnections::none()));
    assert!(!DungeonReducer::require_connections(&asked, &CellConnections::all()));
}

#[test]
fn what_the_reducer_leaves_agrees_with_the_decided_neighbors() {
    let mut context: WaveFunctionCollapseContext<DungeonCellType> =
        WaveFunctionCollapseContext::new(6, 6, &DungeonCellType::all());
    context.apply_types(vec![
        (GridLocation::new(2, 2), vec![DungeonCellType::Hall(only(2))]),
        (GridLocation::new(3, 3), vec![DungeonCellType::Blocked]),
    ]);
    context.iterate_queue_complete(&DungeonReducer);
    let right = &context.get_grid().grid[2][3].possible_types;
    assert!(!right.is_empty());
    for cell_type in right {
        // the hall to the left asks for a connection, the blocked cell to
        // the bottom right bans one
        assert!(cell_type.get_connections().left);
        assert!(!cell_type.get_connections().bottom_right);
    }
    for cell_type in &context.get_grid().grid[1][2].possible_types {
        assert!(!cell_type.get_connections().bottom_left);
    }
}
