use hex_dungeon::generation_fields::dungeon::generator::clean::connected_cells;
use hex_dungeon::generation_fields::dungeon::CellConnections;
use hex_dungeon::generation_fields::dungeon::DungeonCellType;
use hex_dungeon::generation_fields::dungeon::DungeonGenerator;
use hex_dungeon::generation_fields::dungeon::DungeonGeneratorState;
use hex_dungeon::generation_fields::dungeon::DungeonRoom;
use hex_dungeon::generation_fields::dungeon::DungeonRoomShape;
use hex_dungeon::wfc::GridLocation;
use hex_dungeon::wfc::HexGrid;

fn seeded(rows: usize, cols: usize, seed: u64) -> DungeonGenerator {
    let mut generator = DungeonGenerator::new(rows, cols);
    generator.set_seed(seed);
    generator
}

fn types_at(generator: &DungeonGenerator, location: GridLocation) -> Vec<DungeonCellType> {
    generator.wfc().get_grid().get_cell(&location).unwrap().possible_types.clone()
}

fn total_possibilities(grid: &HexGrid<DungeonCellType>) -> usize {
    grid.grid.iter().flatten().map(|cell| cell.possible_types.len()).sum()
}

fn only(index: usize) -> CellConnections {
    CellConnections::all_possible()[1 << index]
}

#[test]
fn a_new_generator_has_placed_nothing() {
    let generator = DungeonGenerator::new(15, 15);
    assert_eq!(generator.seed(), 1);
    assert_eq!(generator.meander_percent(), 70);
    assert_eq!(generator.rows(), 15);
    assert_eq!(generator.cols(), 15);
    assert_eq!(generator.state(), DungeonGeneratorState::Init);
    assert_eq!(generator.debug_state(), "Init");
    assert_eq!(generator.iteration_count(), 0);
    assert_eq!(generator.start_location(), GridLocation::new(-1, -1));
    assert_eq!(generator.goal_location(), GridLocation::new(-1, -1));
    assert_eq!(generator.goal_entrance_location(), GridLocation::new(-1, -1));
    assert_eq!(generator.cursor_location(), GridLocation::new(-1, -1));
    assert!(generator.goal_locations().is_empty());
    assert!(generator.valid_path_cells().is_empty());
    assert!(generator.unfilled_cells().is_empty());
    assert!(generator.wfc().get_queue().is_empty());
    assert!(generator.can_do_more_work());
    let grid = generator.wfc().get_grid();
    assert_eq!(grid.grid.len(), 15);
    for row in &grid.grid {
        assert_eq!(row.len(), 15);
        for cell in row {
            assert_eq!(cell.possible_types, DungeonCellType::all());
            assert!(cell.is_untouched());
        }
    }
}

#[test]
fn seed_and_meander_can_be_set() {
    let mut generator = DungeonGenerator::new(5, 6);
    generator.set_seed(77);
    generator.set_meander_percent(15);
    assert_eq!(generator.seed(), 77);
    assert_eq!(generator.meander_percent(), 15);
    assert_eq!(generator.rows(), 5);
    assert_eq!(generator.cols(), 6);
    assert_eq!(generator.state(), DungeonGeneratorState::Init);
}

#[test]
fn random_locations_stay_off_the_last_row_and_column() {
    let mut generator = DungeonGenerator::new(6, 9);
    generator.set_seed(31);
    hex_dungeon::random::seed_generator(31);
    let mut rows = [false; 6];
    let mut cols = [false; 9];
    for _ in 0..500 {
        let anywhere = generator.random_location();
        assert!(0 <= anywhere.row && anywhere.row < 5);
        assert!(0 <= anywhere.col && anywhere.col < 8);
        rows[anywhere.row as usize] = true;
        cols[anywhere.col as usize] = true;
        let inside = generator.random_interior_location();
        assert!(1 <= inside.row && inside.row < 4);
        assert!(1 <= inside.col && inside.col < 7);
    }
    assert_eq!(rows, [true, true, true, true, true, false]);
    assert_eq!(cols, [true, true, true, true, true, true, true, true, false]);
}

#[test]
fn add_room_stamps_a_single_cell() {
    let mut generator = DungeonGenerator::new(6, 6);
    let location = GridLocation::new(2, 3);
    let connections = CellConnections::new(false, true, false, false, false, true);
    let cells =
        generator.add_room(&DungeonRoom { shape: DungeonRoomShape::Single(connections), location });
    assert_eq!(cells, vec![location]);
    assert_eq!(types_at(&generator, location), vec![DungeonCellType::Room(connections)]);
    let queued: Vec<GridLocation> = generator.wfc().get_queue().iter().copied().collect();
    assert_eq!(queued, location.get_neighbors());
    assert_eq!(generator.state(), DungeonGeneratorState::Init);
    assert_eq!(generator.iteration_count(), 0);
}

#[test]
fn add_room_stamps_a_cluster_below_its_peak() {
    let mut generator = DungeonGenerator::new(6, 6);
    let location = GridLocation::new(2, 3);
    let cells = generator.add_room(&DungeonRoom {
        shape: DungeonRoomShape::Cluster3(only(0), only(1), only(5)),
        location,
    });
    assert_eq!(cells, vec![location, GridLocation::new(3, 2), GridLocation::new(3, 3)]);
    assert_eq!(types_at(&generator, location), vec![DungeonCellType::Room(only(0))]);
    assert_eq!(types_at(&generator, GridLocation::new(3, 2)), vec![DungeonCellType::Room(only(1))]);
    assert_eq!(types_at(&generator, GridLocation::new(3, 3)), vec![DungeonCellType::Room(only(5))]);
    let queued: Vec<GridLocation> = generator.wfc().get_queue().iter().copied().collect();
    assert_eq!(queued.len(), 12);
    assert_eq!(queued[..6].to_vec(), location.get_neighbors());
    for cell in &cells {
        assert!(queued.contains(cell));
    }
}

#[test]
fn add_room_off_the_grid_stamps_nothing() {
    let mut generator = DungeonGenerator::new(5, 5);
    let location = GridLocation::new(7, 7);
    let cells =
        generator.add_room(&DungeonRoom { shape: DungeonRoomShape::Single(only(0)), location });
    assert_eq!(cells, vec![location]);
    assert!(generator.wfc().get_queue().is_empty());
    assert_eq!(total_possibilities(generator.wfc().get_grid()), 25 * 129);
}

#[test]
fn the_first_step_places_the_goal_room_and_the_start() {
    for seed in 1..60 {
        let mut generator = seeded(9, 8, seed);
        generator.step();
        assert_eq!(generator.state(), DungeonGeneratorState::PlacedRooms);
        assert_eq!(generator.debug_state(), "Placed Rooms");
        assert_eq!(generator.iteration_count(), 1);
        let goal = generator.goal_location();
        assert!(1 <= goal.row && goal.row <= 6);
        assert!(1 <= goal.col && goal.col <= 5);
        assert_eq!(generator.goal_entrance_location(), goal.get_neighbors()[0]);
        let goal_cells = generator.goal_locations().clone();
        let neighbors = goal.get_neighbors();
        if goal_cells.len() == 1 {
            assert_eq!(goal_cells, vec![goal]);
            assert_eq!(types_at(&generator, goal), vec![DungeonCellType::Room(only(0))]);
        } else {
            assert_eq!(goal_cells, vec![goal, neighbors[4], neighbors[3]]);
            assert_eq!(
                types_at(&generator, goal),
                vec![DungeonCellType::Room(CellConnections::new(
                    true, false, false, true, true, false
                ))]
            );
            assert_eq!(
                types_at(&generator, neighbors[4]),
                vec![DungeonCellType::Room(CellConnections::new(
                    false, true, true, false, false, false
                ))]
            );
            assert_eq!(
                types_at(&generator, neighbors[3]),
                vec![DungeonCellType::Room(CellConnections::new(
                    true, false, false, false, false, true
                ))]
            );
        }
        let start = generator.start_location();
        assert!(1 <= start.row && start.row <= 6);
        assert!(1 <= start.col && start.col <= 5);
        assert!(!goal_cells.contains(&start));
        let start_types = types_at(&generator, start);
        assert_eq!(start_types.len(), 1);
        match start_types[0] {
            DungeonCellType::Hall(_) => {}
            DungeonCellType::Room(connections) => {
                assert_eq!(connections.count(), 1);
                assert!(!connections.left);
            }
            DungeonCellType::Blocked => panic!("the start is blocked"),
        }
        assert!(generator.valid_path_cells().is_empty());
        assert_eq!(generator.cursor_location(), GridLocation::new(-1, -1));
        assert!(!generator.wfc().get_queue().is_empty());
    }
}

#[test]
fn the_start_never_lies_in_the_goal_room_on_the_smallest_grid() {
    let mut seen_small = false;
    let mut seen_large = false;
    for seed in 1..300 {
        let mut generator = seeded(5, 5, seed);
        generator.step();
        let goal_cells = generator.goal_locations();
        let start = generator.start_location();
        assert!(!goal_cells.contains(&start));
        assert!(1 <= start.row && start.row <= 2 && 1 <= start.col && start.col <= 2);
        let goal = generator.goal_location();
        assert!(1 <= goal.row && goal.row <= 2 && 1 <= goal.col && goal.col <= 2);
        seen_small = seen_small || goal_cells.len() == 1;
        seen_large = seen_large || goal_cells.len() == 3;
    }
    assert!(seen_small && seen_large);
}

#[test]
fn the_second_step_puts_the_walker_on_the_start() {
    let mut generator = seeded(10, 10, 3);
    generator.step();
    let grid = generator.wfc().get_grid().clone();
    let queue = generator.wfc().get_queue().clone();
    generator.step();
    assert_eq!(generator.state(), DungeonGeneratorState::Wfc);
    assert_eq!(generator.debug_state(), "Wfc");
    assert_eq!(generator.cursor_location(), generator.start_location());
    assert_eq!(generator.iteration_count(), 2);
    assert_eq!(generator.wfc().get_grid(), &grid);
    assert_eq!(generator.wfc().get_queue(), &queue);
}

#[test]
fn propagation_takes_one_cell_from_the_queue_at_a_time() {
    let mut generator = seeded(10, 10, 3);
    generator.step();
    generator.step();
    let mut steps = 0;
    while generator.state() == DungeonGeneratorState::Wfc {
        let queued = generator.wfc().get_queue().len();
        let front = generator.wfc().get_queue().front().copied();
        generator.step();
        assert!(generator.wfc().get_queue().len() + 1 >= queued);
        assert!(generator.wfc().get_queue().len() <= queued + 5);
        if let Some(location) = front {
            assert_ne!(generator.wfc().get_queue().front(), Some(&location));
        }
        steps += 1;
        assert!(steps < 10_000);
    }
    // with no path yet the walker sets out once the queue is empty
    assert_eq!(generator.state(), DungeonGeneratorState::ForgingPath);
    assert_eq!(generator.debug_state(), "Forging Path");
    assert!(generator.wfc().get_queue().is_empty());
    assert!(generator.valid_path_cells().is_empty());
}

#[test]
fn the_walker_leaves_the_start_by_its_first_connection() {
    let mut found = 0;
    for seed in 1..40 {
        let mut generator = seeded(12, 12, seed);
        let mut steps = 0;
        while generator.state() != DungeonGeneratorState::ForgingPath && steps < 10_000 {
            generator.step();
            steps += 1;
        }
        assert_eq!(generator.state(), DungeonGeneratorState::ForgingPath);
        let start = generator.start_location();
        let connections = types_at(&generator, start)[0].get_connections();
        let first = (0..6).find(|index| connections.connects(*index));
        let count = generator.iteration_count();
        generator.step();
        assert_eq!(generator.iteration_count(), count + 1);
        match first {
            None => {
                // a start without a connection leaves the walker where it is
                assert!(generator.valid_path_cells().is_empty());
                assert_eq!(generator.cursor_location(), start);
            }
            Some(direction) => {
                let next = start.get_neighbors()[direction];
                if generator.goal_locations().contains(&next) {
                    assert!(generator.valid_path_cells().is_empty());
                    assert_eq!(generator.cursor_location(), start);
                } else {
                    assert_eq!(generator.valid_path_cells(), &vec![next]);
                    assert_eq!(generator.cursor_location(), next);
                    let back = CellConnections::opposite_index(direction);
                    for cell_type in types_at(&generator, next) {
                        match cell_type {
                            DungeonCellType::Hall(sides) => assert!(sides.connects(back)),
                            _ => panic!("a path cell may only be a hall"),
                        }
                    }
                    found += 1;
                }
            }
        }
    }
    assert!(found > 10);
}

#[test]
fn a_generated_dungeon_is_settled_and_at_rest() {
    let mut generator = DungeonGenerator::new(15, 15);
    generator.set_seed(1);
    generator.set_meander_percent(70);
    generator.generate();
    assert_eq!(generator.state(), DungeonGeneratorState::Idle);
    assert_eq!(generator.debug_state(), "Idle");
    assert!(generator.wfc().get_queue().is_empty());
    assert!(generator.wfc().is_settled());
    assert!(!generator.can_do_more_work());
    let goal_cells = generator.goal_locations().len();
    assert!(goal_cells == 1 || goal_cells == 3);

    // the path leads from the start to the entrance of the goal
    let path = generator.valid_path_cells();
    assert!(!path.is_empty());
    assert!(generator.start_location().get_neighbors().contains(&path[0]));
    for index in 1..path.len() {
        assert!(path[index - 1].get_neighbors().contains(&path[index]));
    }
    assert_eq!(*path.last().unwrap(), generator.goal_entrance_location());
    assert_eq!(generator.cursor_location(), generator.goal_entrance_location());
    assert_eq!(
        generator.goal_entrance_location().get_neighbors()[3],
        generator.goal_location()
    );
    for location in path {
        assert_ne!(*location, generator.start_location());
        assert!(!generator.goal_locations().contains(location));
    }
}

#[test]
fn every_cell_left_in_a_generated_dungeon_can_be_walked_to() {
    for seed in [1u64, 2, 3, 42] {
        let mut generator = seeded(15, 15, seed);
        generator.generate();
        assert_eq!(generator.state(), DungeonGeneratorState::Idle);
        let grid = generator.wfc().get_grid();
        let start = generator.start_location();
        let connected = connected_cells(grid, &start);
        // walk the grid by hand as well
        let mut reached = vec![start];
        let mut next = 0;
        while next < reached.len() {
            let location = reached[next];
            next += 1;
            let cell = grid.get_cell(&location).unwrap();
            if cell.possible_types.is_empty() {
                continue;
            }
            let connections = cell.possible_types[0].get_connections();
            let neighbors = location.get_neighbors();
            for index in 0..6 {
                if connections.connects(index)
                    && grid.get_cell(&neighbors[index]).is_some()
                    && !reached.contains(&neighbors[index])
                {
                    reached.push(neighbors[index]);
                }
            }
        }
        let mut left = 0;
        for row in &grid.grid {
            for cell in row {
                let (r, c) = (cell.location.row as usize, cell.location.col as usize);
                assert_eq!(connected[r][c], reached.contains(&cell.location));
                if !cell.possible_types.is_empty() {
                    assert!(connected[r][c]);
                    left += 1;
                }
            }
        }
        assert!(left > 1);
        assert!(!types_at(&generator, start).is_empty());
    }
}

#[test]
fn connections_in_a_generated_dungeon_are_answered() {
    let mut generator = seeded(15, 15, 1);
    generator.generate();
    let grid = generator.wfc().get_grid();
    for row in &grid.grid {
        for cell in row {
            if cell.possible_types.len() != 1 {
                continue;
            }
            let connections = cell.possible_types[0].get_connections();
            let neighbors = cell.location.get_neighbors();
            for index in 0..6 {
                if !connections.connects(index) {
                    continue;
                }
                let other = grid.get_cell(&neighbors[index]).unwrap();
                if other.possible_types.is_empty() {
                    continue;
                }
                assert!(other.possible_types[0]
                    .get_connections()
                    .connects(CellConnections::opposite_index(index)));
            }
        }
    }
}

#[test]
fn the_same_seed_gives_the_same_dungeon() {
    for (rows, cols, seed, meander) in [(15, 15, 1, 70), (10, 12, 42, 70), (8, 8, 5, 30)] {
        let mut first = seeded(rows, cols, seed);
        first.set_meander_percent(meander);
        first.generate();
        let mut second = seeded(rows, cols, seed);
        second.set_meander_percent(meander);
        second.generate();
        assert_eq!(first.wfc().get_grid(), second.wfc().get_grid());
        assert_eq!(first.iteration_count(), second.iteration_count());
        assert_eq!(first.start_location(), second.start_location());
        assert_eq!(first.goal_location(), second.goal_location());
        assert_eq!(first.goal_locations(), second.goal_locations());
        assert_eq!(first.state(), DungeonGeneratorState::Idle);
    }
}

#[test]
fn different_seeds_give_different_dungeons() {
    let mut first = seeded(15, 15, 1);
    first.generate();
    let mut second = seeded(15, 15, 2);
    second.generate();
    assert_ne!(first.wfc().get_grid(), second.wfc().get_grid());
}

#[test]
fn two_generators_with_one_seed_forge_the_same_path() {
    let mut first = seeded(15, 15, 7);
    let mut second = seeded(15, 15, 7);
    first.generate();
    second.generate();
    assert!(!first.valid_path_cells().is_empty());
    assert_eq!(first.valid_path_cells(), second.valid_path_cells());
}

#[test]
fn a_step_at_rest_is_counted_and_changes_nothing_else() {
    let mut generator = seeded(10, 10, 1);
    generator.generate();
    assert_eq!(generator.state(), DungeonGeneratorState::Idle);
    let grid = generator.wfc().get_grid().clone();
    let count = generator.iteration_count();
    let path = generator.valid_path_cells().clone();
    let unfilled = generator.unfilled_cells().clone();
    for extra in 1..4 {
        generator.step();
        assert_eq!(generator.iteration_count(), count + extra);
        assert_eq!(generator.state(), DungeonGeneratorState::Idle);
        assert_eq!(generator.wfc().get_grid(), &grid);
        assert!(generator.wfc().get_queue().is_empty());
        assert_eq!(generator.valid_path_cells(), &path);
        assert_eq!(generator.unfilled_cells(), &unfilled);
        assert!(!generator.can_do_more_work());
    }
    generator.generate();
    assert_eq!(generator.iteration_count(), count + 3);
}

#[test]
fn an_edit_from_outside_wakes_a_generator_at_rest() {
    let mut generator = seeded(10, 10, 1);
    generator.generate();
    let start = generator.start_location();
    let painted = start.get_neighbors()[0];
    generator.apply_types(vec![(painted, vec![DungeonCellType::Blocked])]);
    assert!(generator.can_do_more_work());
    assert_eq!(generator.state(), DungeonGeneratorState::Idle);
    assert_eq!(types_at(&generator, painted), vec![DungeonCellType::Blocked]);
    assert_eq!(generator.wfc().get_queue().len(), 6);
    generator.step();
    assert_eq!(generator.state(), DungeonGeneratorState::Wfc);
    generator.generate();
    assert_eq!(generator.state(), DungeonGeneratorState::Idle);
    assert!(generator.wfc().get_queue().is_empty());
    assert!(generator.wfc().is_settled());
}

#[test]
fn a_blocked_cell_painted_after_the_first_step_bans_connections_into_it() {
    let mut generator = seeded(10, 10, 42);
    generator.step();
    let location = GridLocation { row: 2, col: 2 };
    let neighbors = location.get_neighbors();
    let stamped: Vec<GridLocation> = neighbors
        .iter()
        .copied()
        .filter(|neighbor| types_at(&generator, *neighbor).len() <= 1)
        .collect();
    generator.apply_types(vec![(location, vec![DungeonCellType::Blocked])]);
    assert_eq!(types_at(&generator, location), vec![DungeonCellType::Blocked]);
    for neighbor in &neighbors {
        assert!(generator.wfc().get_queue().contains(neighbor));
    }
    // let the edit propagate until the queue is empty
    generator.step();
    let mut steps = 0;
    while !generator.wfc().get_queue().is_empty() {
        assert_eq!(generator.state(), DungeonGeneratorState::Wfc);
        generator.step();
        steps += 1;
        assert!(steps < 10_000);
    }
    assert_eq!(types_at(&generator, location), vec![DungeonCellType::Blocked]);
    for (index, neighbor) in neighbors.iter().enumerate() {
        let towards = CellConnections::opposite_index(index);
        if stamped.contains(neighbor) {
            // a cell of the goal room or the start: it was decided before
            // the edit and is never reduced
            assert!(
                generator.goal_locations().contains(neighbor)
                    || *neighbor == generator.start_location()
            );
            continue;
        }
        let left = types_at(&generator, *neighbor);
        assert!(!left.is_empty());
        for cell_type in left {
            assert!(!cell_type.get_connections().connects(towards));
        }
    }
}

#[test]
fn the_possible_types_only_grow_where_the_generator_sets_them() {
    let mut generator = seeded(12, 12, 4);
    let mut total = total_possibilities(generator.wfc().get_grid());
    let mut steps = 0;
    while generator.can_do_more_work() {
        let state = generator.state();
        let before = generator.wfc().get_grid().clone();
        generator.step();
        let now = total_possibilities(generator.wfc().get_grid());
        if state != DungeonGeneratorState::Init && state != DungeonGeneratorState::Fill {
            assert!(now <= total);
            for (row, cells) in generator.wfc().get_grid().grid.iter().enumerate() {
                for (col, cell) in cells.iter().enumerate() {
                    assert!(
                        cell.possible_types.len() <= before.grid[row][col].possible_types.len()
                    );
                }
            }
        }
        total = now;
        steps += 1;
        assert!(steps < 100_000);
    }
    assert!(total <= 144);
}

#[test]
fn filling_lists_the_undecided_cells_and_decides_one_of_them() {
    let mut generator = seeded(10, 10, 9);
    let mut steps = 0;
    while generator.state() != DungeonGeneratorState::Fill {
        generator.step();
        steps += 1;
        assert!(steps < 100_000);
    }
    assert_eq!(generator.debug_state(), "Fill");
    assert!(generator.wfc().get_queue().is_empty());
    assert!(!generator.valid_path_cells().is_empty());
    let grid = generator.wfc().get_grid().clone();
    let unsettled: Vec<GridLocation> = grid
        .grid
        .iter()
        .flatten()
        .filter(|cell| !cell.is_settled())
        .map(|cell| cell.location)
        .collect();
    assert_eq!(generator.unfilled_cells(), &unsettled);
    assert!(unsettled.len() > 1);
    generator.step();
    assert_eq!(generator.state(), DungeonGeneratorState::Wfc);
    let changed: Vec<GridLocation> = grid
        .grid
        .iter()
        .flatten()
        .filter(|cell| types_at(&generator, cell.location) != cell.possible_types)
        .map(|cell| cell.location)
        .collect();
    assert_eq!(changed.len(), 1);
    assert!(unsettled.contains(&changed[0]));
    assert_ne!(changed[0], *unsettled.last().unwrap());
    let picked = types_at(&generator, changed[0]);
    assert_eq!(picked.len(), 1);
    assert!(grid.get_cell(&changed[0]).unwrap().possible_types.contains(&picked[0]));
    assert_eq!(generator.wfc().get_queue().len(), 6);
}

#[test]
fn cleaning_follows_filling_once_everything_is_settled() {
    let mut generator = seeded(10, 10, 9);
    let mut steps = 0;
    while generator.state() != DungeonGeneratorState::Clean {
        generator.step();
        steps += 1;
        assert!(steps < 100_000);
    }
    assert_eq!(generator.debug_state(), "Clean");
    assert!(generator.wfc().is_settled());
    let before = generator.wfc().get_grid().clone();
    let connected = connected_cells(&before, &generator.start_location());
    generator.step();
    assert_eq!(generator.state(), DungeonGeneratorState::Idle);
    for (row, cells) in generator.wfc().get_grid().grid.iter().enumerate() {
        for (col, cell) in cells.iter().enumerate() {
            if connected[row][col] {
                assert_eq!(cell.possible_types, before.grid[row][col].possible_types);
            } else {
                assert!(cell.possible_types.is_empty());
            }
        }
    }
}
