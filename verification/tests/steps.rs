use hex_dungeon::generation_fields::dungeon::weighted_pick;
use hex_dungeon::generation_fields::dungeon::CellConnections;
use hex_dungeon::generation_fields::dungeon::DungeonCellType;
use hex_dungeon::generation_fields::dungeon::DungeonGenerator;
use hex_dungeon::generation_fields::dungeon::DungeonGeneratorState;
use hex_dungeon::wfc::GridLocation;

fn only(index: usize) -> CellConnections {
    CellConnections::all_possible()[1 << index]
}

fn types_at(generator: &DungeonGenerator, row: i64, col: i64) -> Vec<DungeonCellType> {
    generator
        .wfc()
        .get_grid()
        .get_cell(&GridLocation::new(row, col))
        .unwrap()
        .possible_types
        .clone()
}

/// A generator on a grid of eight by eight with a large goal room at (2,2)
/// and a hall at (4,4) that opens to the right as the start.
fn placed() -> DungeonGenerator {
    let mut generator = DungeonGenerator::new(8, 8);
    generator.place_rooms(
        GridLocation::new(2, 2),
        false,
        GridLocation::new(4, 4),
        true,
        only(2),
        0,
    );
    generator
}

/// The same generator with the rooms propagated and the walker about to set
/// out.
fn ready_to_forge() -> DungeonGenerator {
    let mut generator = placed();
    let mut steps = 0;
    while generator.state() != DungeonGeneratorState::ForgingPath {
        generator.step();
        steps += 1;
        assert!(steps < 10_000);
    }
    generator
}

#[test]
fn placing_the_rooms_stamps_the_goal_and_the_start() {
    let generator = placed();
    assert_eq!(generator.state(), DungeonGeneratorState::PlacedRooms);
    assert_eq!(generator.iteration_count(), 1);
    assert_eq!(generator.goal_location(), GridLocation::new(2, 2));
    assert_eq!(generator.goal_entrance_location(), GridLocation::new(1, 1));
    assert_eq!(
        generator.goal_locations(),
        &vec![GridLocation::new(2, 2), GridLocation::new(3, 1), GridLocation::new(3, 2)]
    );
    assert_eq!(generator.start_location(), GridLocation::new(4, 4));
    assert_eq!(
        types_at(&generator, 2, 2),
        vec![DungeonCellType::Room(CellConnections::new(true, false, false, true, true, false))]
    );
    assert_eq!(
        types_at(&generator, 3, 1),
        vec![DungeonCellType::Room(CellConnections::new(false, true, true, false, false, false))]
    );
    assert_eq!(
        types_at(&generator, 3, 2),
        vec![DungeonCellType::Room(CellConnections::new(true, false, false, false, false, true))]
    );
    assert_eq!(types_at(&generator, 4, 4), vec![DungeonCellType::Hall(only(2))]);
    assert_eq!(types_at(&generator, 1, 1), DungeonCellType::all());

    let mut expected: Vec<GridLocation> = Vec::new();
    for cell in [(2, 2), (3, 1), (3, 2), (4, 4)] {
        for neighbor in GridLocation::new(cell.0, cell.1).get_neighbors() {
            if !expected.contains(&neighbor) {
                expected.push(neighbor);
            }
        }
    }
    let queued: Vec<GridLocation> = generator.wfc().get_queue().iter().copied().collect();
    assert_eq!(queued, expected);
}

#[test]
fn placing_a_room_as_the_start_connects_it_on_one_side() {
    let mut generator = DungeonGenerator::new(8, 8);
    generator.place_rooms(GridLocation::new(5, 3), true, GridLocation::new(1, 5), false, only(1), 4);
    assert_eq!(generator.goal_locations(), &vec![GridLocation::new(5, 3)]);
    assert_eq!(generator.goal_entrance_location(), GridLocation::new(4, 3));
    assert_eq!(types_at(&generator, 5, 3), vec![DungeonCellType::Room(only(0))]);
    assert_eq!(types_at(&generator, 1, 5), vec![DungeonCellType::Room(only(4))]);
    assert_eq!(generator.state(), DungeonGeneratorState::PlacedRooms);
}

#[test]
fn the_rooms_propagate_to_their_neighbors() {
    let generator = ready_to_forge();
    // the entrance has to connect to the goal at its bottom right
    let entrance = types_at(&generator, 1, 1);
    assert!(!entrance.is_empty());
    for cell_type in &entrance {
        assert!(cell_type.get_connections().bottom_right);
        assert_ne!(*cell_type, DungeonCellType::Blocked);
    }
    // the cell to the right of the start has to connect to its left
    for cell_type in types_at(&generator, 4, 5) {
        assert!(cell_type.get_connections().left);
    }
    // the cell to the left of the start must not connect to its right
    for cell_type in types_at(&generator, 4, 3) {
        assert!(!cell_type.get_connections().right);
    }
    // the cell to the right of the goal must not connect to its left
    for cell_type in types_at(&generator, 2, 3) {
        assert!(!cell_type.get_connections().left);
    }
    assert_eq!(generator.cursor_location(), GridLocation::new(4, 4));
}

#[test]
fn the_walker_leaves_the_start_whatever_the_draws() {
    for (closest, direction) in [(true, 0), (false, 4), (false, 5)] {
        let mut generator = ready_to_forge();
        let count = generator.iteration_count();
        generator.forge_with(closest, direction);
        assert_eq!(generator.valid_path_cells(), &vec![GridLocation::new(4, 5)]);
        assert_eq!(generator.cursor_location(), GridLocation::new(4, 5));
        assert_eq!(generator.state(), DungeonGeneratorState::ForgingPath);
        assert_eq!(generator.iteration_count(), count + 1);
        let entered = types_at(&generator, 4, 5);
        assert_eq!(entered.len(), 32);
        for cell_type in entered {
            match cell_type {
                DungeonCellType::Hall(connections) => assert!(connections.left),
                _ => panic!("a path cell may only be a hall"),
            }
        }
        let queued: Vec<GridLocation> = generator.wfc().get_queue().iter().copied().collect();
        assert_eq!(queued, GridLocation::new(4, 5).get_neighbors());
    }
}

#[test]
fn the_walker_heads_for_the_entrance_or_where_the_draw_says() {
    let mut generator = ready_to_forge();
    generator.forge_with(true, 0);
    // from (4,5) the top left neighbour is closest to the entrance at (1,1)
    generator.forge_with(true, 3);
    assert_eq!(
        generator.valid_path_cells(),
        &vec![GridLocation::new(4, 5), GridLocation::new(3, 4)]
    );
    // the cell that was left has to connect onwards as well as back
    for cell_type in types_at(&generator, 4, 5) {
        let connections = cell_type.get_connections();
        assert!(connections.left && connections.top_left);
    }
    assert_eq!(types_at(&generator, 4, 5).len(), 16);
    for cell_type in types_at(&generator, 3, 4) {
        assert!(cell_type.get_connections().bottom_right);
    }
    // a random step to the right
    generator.forge_with(false, 2);
    assert_eq!(generator.cursor_location(), GridLocation::new(3, 5));
    for cell_type in types_at(&generator, 3, 4) {
        let connections = cell_type.get_connections();
        assert!(connections.bottom_right && connections.right);
    }
    for cell_type in types_at(&generator, 3, 5) {
        assert!(cell_type.get_connections().left);
    }
    assert_eq!(generator.valid_path_cells().len(), 3);
}

#[test]
fn the_walker_stays_where_it_may_not_enter() {
    let mut generator = ready_to_forge();
    generator.forge_with(true, 0);
    let grid = generator.wfc().get_grid().clone();
    let queue = generator.wfc().get_queue().clone();
    let count = generator.iteration_count();
    // back to the start
    generator.forge_with(false, 5);
    assert_eq!(generator.cursor_location(), GridLocation::new(4, 5));
    assert_eq!(generator.valid_path_cells().len(), 1);
    assert_eq!(generator.wfc().get_grid(), &grid);
    assert_eq!(generator.wfc().get_queue(), &queue);
    assert_eq!(generator.iteration_count(), count + 1);
    assert_eq!(generator.state(), DungeonGeneratorState::ForgingPath);

    // to the right until the border, and then off the grid
    generator.forge_with(false, 2);
    generator.forge_with(false, 2);
    assert_eq!(generator.cursor_location(), GridLocation::new(4, 7));
    generator.forge_with(false, 2);
    assert_eq!(generator.cursor_location(), GridLocation::new(4, 7));
    assert_eq!(generator.valid_path_cells().len(), 3);
    assert_eq!(generator.iteration_count(), count + 4);
}

#[test]
fn the_walker_does_not_enter_the_goal_room() {
    let mut generator = ready_to_forge();
    generator.forge_with(true, 0);
    generator.forge_with(true, 0);
    // from (3,4) to (3,3), whose left neighbour (3,2) belongs to the goal room
    generator.forge_with(false, 5);
    assert_eq!(generator.cursor_location(), GridLocation::new(3, 3));
    let path = generator.valid_path_cells().clone();
    generator.forge_with(false, 5);
    assert_eq!(generator.cursor_location(), GridLocation::new(3, 3));
    assert_eq!(generator.valid_path_cells(), &path);
    // nor, from the cell above, the goal itself to the left
    generator.forge_with(false, 0);
    assert_eq!(generator.cursor_location(), GridLocation::new(2, 3));
    let path = generator.valid_path_cells().clone();
    generator.forge_with(false, 5);
    assert_eq!(generator.cursor_location(), GridLocation::new(2, 3));
    assert_eq!(generator.valid_path_cells(), &path);
}

#[test]
fn the_path_is_done_at_the_entrance_of_the_goal() {
    let mut generator = ready_to_forge();
    let mut steps = 0;
    while generator.state() == DungeonGeneratorState::ForgingPath {
        generator.forge_with(true, 0);
        steps += 1;
        assert!(steps < 20);
    }
    assert_eq!(generator.state(), DungeonGeneratorState::Wfc);
    assert_eq!(generator.cursor_location(), GridLocation::new(1, 1));
    let path = generator.valid_path_cells();
    assert_eq!(*path.last().unwrap(), GridLocation::new(1, 1));
    assert_eq!(path.len(), steps);
    // the entrance connects to the goal at its bottom right and back along the path
    let before = path[path.len() - 2];
    let back = GridLocation::new(1, 1).get_neighbors().iter().position(|n| *n == before).unwrap();
    let entrance = types_at(&generator, 1, 1);
    assert!(!entrance.is_empty());
    for cell_type in entrance {
        match cell_type {
            DungeonCellType::Hall(connections) => {
                assert!(connections.bottom_right);
                assert!(connections.connects(back));
            }
            _ => panic!("a path cell may only be a hall"),
        }
    }
}

#[test]
fn filling_sets_the_listed_cell_to_the_type_that_the_draw_picks() {
    let mut generator = ready_to_forge();
    while generator.state() == DungeonGeneratorState::ForgingPath {
        generator.forge_with(true, 0);
    }
    let mut steps = 0;
    while generator.state() != DungeonGeneratorState::Fill {
        generator.step();
        steps += 1;
        assert!(steps < 10_000);
    }
    let unfilled = generator.unfilled_cells().clone();
    assert!(unfilled.len() > 3);
    let location = unfilled[3];
    let possible = types_at(&generator, location.row, location.col);
    assert!(possible.len() > 1);
    let expected = weighted_pick(&possible, 7);
    let count = generator.iteration_count();
    generator.fill_with(3, 7);
    assert_eq!(types_at(&generator, location.row, location.col), vec![expected]);
    assert!(possible.contains(&expected));
    assert_eq!(generator.state(), DungeonGeneratorState::Wfc);
    assert_eq!(generator.iteration_count(), count + 1);
    assert_eq!(generator.unfilled_cells(), &unfilled);
    let queued: Vec<GridLocation> = generator.wfc().get_queue().iter().copied().collect();
    assert_eq!(queued, location.get_neighbors());
}

#[test]
fn filling_with_nothing_listed_goes_back_to_propagation() {
    let mut generator = placed();
    assert!(generator.unfilled_cells().is_empty());
    let grid = generator.wfc().get_grid().clone();
    generator.fill_with(0, 0);
    assert_eq!(generator.state(), DungeonGeneratorState::Wfc);
    assert_eq!(generator.iteration_count(), 2);
    assert_eq!(generator.wfc().get_grid(), &grid);
}

#[test]
fn a_run_with_given_choices_ends_settled_and_connected() {
    let mut generator = ready_to_forge();
    let mut steps = 0;
    while generator.can_do_more_work() {
        match generator.state() {
            DungeonGeneratorState::ForgingPath => generator.forge_with(true, 0),
            DungeonGeneratorState::Fill => generator.fill_with(0, 0),
            _ => generator.step(),
        }
        steps += 1;
        assert!(steps < 100_000);
    }
    assert_eq!(generator.state(), DungeonGeneratorState::Idle);
    assert!(generator.wfc().is_settled());
    // the path cells survive the cleaning: they can be walked to from the start
    for location in generator.valid_path_cells() {
        let types = types_at(&generator, location.row, location.col);
        assert_eq!(types.len(), 1);
        assert!(matches!(types[0], DungeonCellType::Hall(_)));
    }
    // and so does the goal room, which the entrance connects to
    assert_eq!(types_at(&generator, 2, 2).len(), 1);
    assert_eq!(types_at(&generator, 3, 1).len(), 1);
    assert_eq!(types_at(&generator, 3, 2).len(), 1);
}
