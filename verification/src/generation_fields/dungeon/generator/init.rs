//! The first step of the generator: the goal room and the start.
use vstd::prelude::*;
use crate::generation_fields::dungeon::cell_type::DungeonCellType;
use crate::generation_fields::dungeon::connections::CellConnections;
use crate::generation_fields::dungeon::generator::lemma_place_room;
use crate::generation_fields::dungeon::generator::lemma_wfc_replaced;
use crate::generation_fields::dungeon::generator::steps::contains_location;
use crate::generation_fields::dungeon::generator::view::place_room;
use crate::generation_fields::dungeon::generator::view::DungeonGeneratorState;
use crate::generation_fields::dungeon::generator::view::InitDraws;
use crate::generation_fields::dungeon::generator::DungeonGenerator;
use crate::generation_fields::dungeon::room::connect_sides;
use crate::generation_fields::dungeon::room::goal_room;
use crate::generation_fields::dungeon::room::single_side;
use crate::generation_fields::dungeon::room::DungeonRoom;
use crate::generation_fields::dungeon::room::DungeonRoomShape;
use crate::random::random_bool_default;
use crate::random::random_in_range;
use crate::random::seed_generator;
use crate::wfc::location::GridLocation;
use crate::wfc::propagation::lemma_apply;
use crate::wfc::propagation::lemma_same_shape;

verus! {

/// How often a start is drawn at most before the first free cell is taken.
pub const START_DRAW_LIMIT: usize = 1000;

/// The room in which the goal lies, small or large.
pub fn make_goal_room(location: GridLocation, small: bool) -> (room: DungeonRoom)
    ensures
        room == goal_room(location, small),
{
    let mut goal_connections = CellConnections::new(true, false, false, false, false, false);
    if small {
        DungeonRoom { shape: DungeonRoomShape::Single(goal_connections), location }
    } else {
        goal_connections.bottom_left = true;
        goal_connections.bottom_right = true;
        DungeonRoom {
            shape: DungeonRoomShape::Cluster3(
                goal_connections,
                CellConnections::new(false, true, true, false, false, false),
                CellConnections::new(true, false, false, false, false, true),
            ),
            location,
        }
    }
}

/// The cells that a room takes up.
pub fn room_cells(room: &DungeonRoom) -> (cells: Vec<GridLocation>)
    requires
        room.location.has_neighbors(),
    ensures
        cells@ == room.cells(),
{
    match room.shape {
        DungeonRoomShape::Single(_) => {
            let cells = vec![room.location];
            assert(cells@ =~= room.cells());
            cells
        },
        DungeonRoomShape::Cluster3(_, _, _) => {
            let neighbor_locations = room.location.get_neighbors();
            let cells = vec![
                room.location,
                neighbor_locations[CellConnections::BOTTOM_LEFT],
                neighbor_locations[CellConnections::BOTTOM_RIGHT],
            ];
            assert(cells@ =~= room.cells());
            cells
        },
    }
}

/// A connection set in which each side is connected or not with equal
/// likelihood.
pub fn random_connections() -> CellConnections {
    let top_left = random_bool_default();
    let top_right = random_bool_default();
    let right = random_bool_default();
    let bottom_right = random_bool_default();
    let bottom_left = random_bool_default();
    let left = random_bool_default();
    CellConnections::new(top_left, top_right, right, bottom_right, bottom_left, left)
}

/// Of the first two cells that can be drawn in the first row that can be
/// drawn from, at most one belongs to the goal's room, whose other cells lie
/// a row below the goal.
pub proof fn lemma_free_start(goal: GridLocation, small: bool)
    requires
        1 <= goal.row < i64::MAX,
        i64::MIN < goal.col < i64::MAX,
    ensures
        goal_room(goal, small).cells().contains(GridLocation { row: 1, col: 1 }) ==> !goal_room(
            goal,
            small,
        ).cells().contains(GridLocation { row: 1, col: 2 }),
{
    let cells = goal_room(goal, small).cells();
    let first = GridLocation { row: 1, col: 1 };
    let second = GridLocation { row: 1, col: 2 };
    if cells.contains(first) && cells.contains(second) {
        let i = choose|i: int| 0 <= i < cells.len() && cells[i] == first;
        let j = choose|j: int| 0 <= j < cells.len() && cells[j] == second;
        assert(i == 0);
        assert(j == 0);
    }
}

impl DungeonGenerator {
    /// A random location of the grid, off the last row and column.
    pub fn random_location(&self) -> (location: GridLocation)
        requires
            self.wf(),
        ensures
            0 <= location.row < self@.rows - 1,
            0 <= location.col < self@.cols - 1,
    {
        let row = random_in_range(0, (self.rows as u64) - 1);
        let col = random_in_range(0, (self.cols as u64) - 1);
        GridLocation::new(row as i64, col as i64)
    }

    /// A random location off the border, and off the last row and column
    /// before the border.
    pub fn random_interior_location(&self) -> (location: GridLocation)
        requires
            self.wf(),
        ensures
            self@.can_draw(location),
    {
        let row = random_in_range(1, (self.rows as u64) - 2);
        let col = random_in_range(1, (self.cols as u64) - 2);
        GridLocation::new(row as i64, col as i64)
    }

    /// A random location off the border that does not belong to the room.
    /// Locations are drawn until one is free; after a thousand draws the
    /// first free cell of the first row is taken instead.
    pub(crate) fn random_start_location(&self, goal: GridLocation, small: bool) -> (start:
        GridLocation)
        requires
            self.wf(),
            self@.can_draw(goal),
        ensures
            self@.can_draw(start),
            !goal_room(goal, small).cells().contains(start),
    {
        let room = make_goal_room(goal, small);
        let goal_locations = room_cells(&room);
        let mut start = self.random_interior_location();
        let mut draws: usize = 1;
        while draws < START_DRAW_LIMIT && contains_location(&goal_locations, &start)
            invariant
                self.wf(),
                self@.can_draw(start),
                draws <= START_DRAW_LIMIT,
            decreases START_DRAW_LIMIT - draws,
        {
            start = self.random_interior_location();
            draws += 1;
        }
        if contains_location(&goal_locations, &start) {
            proof {
                lemma_free_start(goal, small);
            }
            start = GridLocation::new(1, 1);
            if contains_location(&goal_locations, &start) {
                start = GridLocation::new(1, 2);
            }
        }
        start
    }

    /// The first step with its random choices made: stamps the goal room and
    /// the start on the grid.
    pub fn place_rooms(
        &mut self,
        goal: GridLocation,
        goal_in_small_room: bool,
        start: GridLocation,
        start_in_hall: bool,
        hall_connections: CellConnections,
        room_side: usize,
    )
        requires
            old(self).wf(),
            old(self)@.iteration_count < i32::MAX,
            old(self)@.admits(
                InitDraws {
                    goal,
                    goal_in_small_room,
                    start,
                    start_in_hall,
                    hall_connections,
                    room_side: room_side as int,
                },
            ),
        ensures
            final(self).wf(),
            final(self)@ == old(self)@.after_init(
                InitDraws {
                    goal,
                    goal_in_small_room,
                    start,
                    start_in_hall,
                    hall_connections,
                    room_side: room_side as int,
                },
            ),
    {
        let room = make_goal_room(goal, goal_in_small_room);
        self.goal_location = goal;
        self.goal_entrance_location = goal.get_neighbors()[0];
        proof {
            lemma_place_room(self@.wfc, room);
            lemma_same_shape(place_room(self@.wfc, room).grid, self@.wfc.grid);
            assert(self@.wfc.grid.cells[goal.row + 1].len() == self@.cols);
        }
        let goal_locations = self.add_room(&room);
        self.goal_locations = goal_locations;
        self.start_location = start;
        let ghost with_goal = self@.wfc;
        if start_in_hall {
            let types = vec![DungeonCellType::Hall(hall_connections)];
            proof {
                assert(types@ =~= seq![DungeonCellType::Hall(hall_connections)]);
                lemma_apply(with_goal, start, types@);
                lemma_wfc_replaced(self@, with_goal.apply(start, types@));
            }
            self.wfc.apply_type(start, types);
        } else {
            let start_connections = connect_sides(room_side, room_side);
            assert(start_connections == single_side(room_side as int));
            self.add_room(
                &DungeonRoom {
                    shape: DungeonRoomShape::Single(start_connections),
                    location: start,
                },
            );
        }
        self.state = DungeonGeneratorState::PlacedRooms;
        self.iteration_count += 1;
    }

    /// The first step: starts the random sequence of the seed, draws the
    /// goal, its room and the start, and stamps them on the grid.
    pub(crate) fn init(&mut self)
        requires
            old(self).wf(),
            old(self)@.iteration_count < i32::MAX,
            old(self)@.state == DungeonGeneratorState::Init,
        ensures
            final(self).wf(),
            old(self)@.steps_to(final(self)@),
    {
        seed_generator(self.seed);
        let goal = self.random_interior_location();
        let goal_in_small_room = random_bool_default();
        let start = self.random_start_location(goal, goal_in_small_room);
        let start_in_hall = random_bool_default();
        let mut hall_connections = CellConnections::none();
        let mut room_side: usize = 0;
        if start_in_hall {
            hall_connections = random_connections();
        } else {
            room_side = random_in_range(0, 5) as usize;
        }
        let ghost draws = InitDraws {
            goal,
            goal_in_small_room,
            start,
            start_in_hall,
            hall_connections,
            room_side: room_side as int,
        };
        self.place_rooms(
            goal,
            goal_in_small_room,
            start,
            start_in_hall,
            hall_connections,
            room_side,
        );
        assert(old(self)@.admits(draws) && self@ == old(self)@.after_init(draws));
    }
}

} // verus!
