//! The dungeon generator: a seeded state machine that places a goal room and
//! a start, forges a path between them, lets the wave function collapse
//! propagate, fills what is left undecided, and removes what cannot be
//! reached.
pub mod clean;
pub mod fill;
pub mod init;
pub mod laws;
pub mod path;
pub mod steps;
pub mod view;

use vstd::prelude::*;
use crate::generation_fields::dungeon::cell_type::DungeonCellType;
use crate::generation_fields::dungeon::cell_type::NUM_POSSIBLE_DUNGEON_CELLS;
use crate::generation_fields::dungeon::connections::CellConnections;
use crate::generation_fields::dungeon::generator::laws::lemma_clean_connects;
use crate::generation_fields::dungeon::generator::laws::lemma_step_counts;
use crate::generation_fields::dungeon::generator::laws::lemma_step_narrows;
use crate::generation_fields::dungeon::generator::view::is_run;
use crate::generation_fields::dungeon::generator::view::place_room;
use crate::generation_fields::dungeon::generator::view::DungeonGeneratorState;
use crate::generation_fields::dungeon::generator::view::GeneratorView;
use crate::generation_fields::dungeon::room::room_types;
use crate::generation_fields::dungeon::room::DungeonRoom;
use crate::generation_fields::dungeon::room::DungeonRoomShape;
use crate::wfc::context::WaveFunctionCollapseContext;
use crate::wfc::location::GridLocation;
use crate::wfc::propagation::lemma_apply;
use crate::wfc::propagation::lemma_same_shape;
use crate::wfc::propagation::WfcView;

verus! {

/// Generates dungeons leveraging Wave Function Collapse
pub struct DungeonGenerator {
    /// The wave function collapse context
    wfc: WaveFunctionCollapseContext<DungeonCellType>,
    seed: u64,
    start_location: GridLocation,
    goal_location: GridLocation,
    goal_locations: Vec<GridLocation>,
    goal_entrance_location: GridLocation,
    rows: usize,
    cols: usize,
    meander_percent: u64,
    state: DungeonGeneratorState,
    cursor_location: GridLocation,
    iteration_count: i32,
    valid_path_cells: Vec<GridLocation>,
    unfilled_cells: Vec<GridLocation>,
}

impl View for DungeonGenerator {
    type V = GeneratorView;

    closed spec fn view(&self) -> GeneratorView {
        GeneratorView {
            wfc: self.wfc@,
            seed: self.seed,
            start_location: self.start_location,
            goal_location: self.goal_location,
            goal_locations: self.goal_locations@,
            goal_entrance_location: self.goal_entrance_location,
            rows: self.rows as nat,
            cols: self.cols as nat,
            meander_percent: self.meander_percent as nat,
            state: self.state,
            cursor_location: self.cursor_location,
            iteration_count: self.iteration_count as int,
            valid_path_cells: self.valid_path_cells@,
            unfilled_cells: self.unfilled_cells@,
        }
    }
}

/// The limits of a grid whose cells could each become every type when they
/// were created.
pub open spec fn all_types_limits(rows: nat, cols: nat) -> Seq<Seq<usize>> {
    Seq::new(rows, |row: int| Seq::new(cols, |col: int| NUM_POSSIBLE_DUNGEON_CELLS))
}

/// Replacing the engine's state by a well-formed one of the same shape
/// keeps the generator well formed.
pub proof fn lemma_wfc_replaced(before: GeneratorView, wfc: WfcView<DungeonCellType>)
    requires
        before.wf(),
        wfc.wf(),
        wfc.grid.same_shape(before.wfc.grid),
    ensures
        (GeneratorView { wfc, ..before }).wf(),
{
    lemma_same_shape(wfc.grid, before.wfc.grid);
    let after = GeneratorView { wfc, ..before };
    assert forall|index: int| 0 <= index < after.valid_path_cells.len() implies wfc.grid.contains(
        #[trigger] after.valid_path_cells[index],
    ) by {
        assert(before.wfc.grid.contains(before.valid_path_cells[index]));
    }
    assert forall|index: int| 0 <= index < after.unfilled_cells.len() implies wfc.grid.contains(
        #[trigger] after.unfilled_cells[index],
    ) by {
        assert(before.wfc.grid.contains(before.unfilled_cells[index]));
    }
}

/// Stamping a room keeps the engine well formed and the grid in shape.
pub proof fn lemma_place_room(wfc: WfcView<DungeonCellType>, room: DungeonRoom)
    requires
        wfc.wf(),
    ensures
        place_room(wfc, room).wf(),
        place_room(wfc, room).grid.same_shape(wfc.grid),
{
    let cells = room.cells();
    let connections = room.cell_connections();
    let first = wfc.apply(cells[0], seq![DungeonCellType::Room(connections[0])]);
    lemma_apply(wfc, cells[0], seq![DungeonCellType::Room(connections[0])]);
    if cells.len() != 1 {
        let second = first.apply(cells[1], seq![DungeonCellType::Room(connections[1])]);
        lemma_apply(first, cells[1], seq![DungeonCellType::Room(connections[1])]);
        lemma_apply(second, cells[2], seq![DungeonCellType::Room(connections[2])]);
        let third = second.apply(cells[2], seq![DungeonCellType::Room(connections[2])]);
        assert forall|row: int| 0 <= row < third.grid.cells.len() implies (
        #[trigger] third.grid.cells[row]).len() == wfc.grid.cells[row].len() by {
            assert(third.grid.cells[row].len() == second.grid.cells[row].len());
            assert(second.grid.cells[row].len() == first.grid.cells[row].len());
            assert(first.grid.cells[row].len() == wfc.grid.cells[row].len());
        }
    }
}

impl DungeonGenerator {
    /// The engine and the generator's own state are well formed.
    pub closed spec fn wf(&self) -> bool {
        &&& self.wfc.wf()
        &&& self@.wf()
        &&& self.wfc.limits() == all_types_limits(self.rows as nat, self.cols as nat)
    }

    /// A well-formed generator has a well-formed view.
    pub proof fn lemma_wf(&self)
        requires
            self.wf(),
        ensures
            self@.wf(),
    {
    }

    /// Creates a generator for a grid of the given size, in which every cell
    /// may still become any type. The seed is 1 and the walker heads for the
    /// goal in 70 steps of 100.
    pub fn new(rows: usize, cols: usize) -> (generator: DungeonGenerator)
        requires
            5 <= rows <= i64::MAX,
            5 <= cols <= i64::MAX,
        ensures
            generator.wf(),
            generator@.rows == rows,
            generator@.cols == cols,
            generator@.seed == 1,
            generator@.meander_percent == 70,
            generator@.state == DungeonGeneratorState::Init,
            generator@.iteration_count == 0,
            generator@.wfc.queue.len() == 0,
            generator@.valid_path_cells.len() == 0,
            generator@.unfilled_cells.len() == 0,
            generator@.goal_locations.len() == 0,
            generator@.start_location == (GridLocation { row: -1i64, col: -1i64 }),
            generator@.goal_location == (GridLocation { row: -1i64, col: -1i64 }),
            generator@.goal_entrance_location == (GridLocation { row: -1i64, col: -1i64 }),
            generator@.cursor_location == (GridLocation { row: -1i64, col: -1i64 }),
            forall|row: int, col: int|
                0 <= row < rows && 0 <= col < cols ==> #[trigger] generator@.wfc.grid.cells[row][col]
                    == DungeonCellType::all_spec(),
    {
        let wfc = WaveFunctionCollapseContext::<DungeonCellType>::new(
            rows,
            cols,
            &DungeonCellType::all(),
        );
        proof {
            wfc.lemma_wf();
            assert(wfc@.grid.cells[0].len() == cols);
            assert(wfc.grid().limits().len() == rows);
            assert forall|row: int| 0 <= row < rows implies (
            #[trigger] wfc.grid().limits()[row]).len() == cols by {
                assert(wfc@.grid.cells[row].len() == cols);
            }
            assert(wfc.limits() =~~= all_types_limits(rows as nat, cols as nat));
        }
        DungeonGenerator {
            wfc,
            seed: 1u64,
            start_location: GridLocation::new(-1, -1),
            goal_location: GridLocation::new(-1, -1),
            goal_locations: Vec::new(),
            goal_entrance_location: GridLocation::new(-1, -1),
            rows,
            cols,
            meander_percent: 70,
            state: DungeonGeneratorState::Init,
            cursor_location: GridLocation::new(-1, -1),
            iteration_count: 0,
            valid_path_cells: Vec::new(),
            unfilled_cells: Vec::new(),
        }
    }

    /// The wave function collapse context
    pub fn wfc(&self) -> (wfc: &WaveFunctionCollapseContext<DungeonCellType>)
        ensures
            wfc@ == self@.wfc,
            self.wf() ==> wfc.wf(),
            self.wf() ==> wfc.limits() == all_types_limits(self@.rows, self@.cols),
    {
        &self.wfc
    }

    /// The seed from which the first step starts the random sequence.
    pub fn seed(&self) -> (seed: u64)
        ensures
            seed == self@.seed,
    {
        self.seed
    }

    /// Sets the seed from which the first step starts the random sequence.
    pub fn set_seed(&mut self, seed: u64)
        ensures
            final(self)@ == (GeneratorView { seed, ..old(self)@ }),
            old(self).wf() ==> final(self).wf(),
    {
        self.seed = seed;
    }

    /// Where the path starts.
    pub fn start_location(&self) -> (location: GridLocation)
        ensures
            location == self@.start_location,
    {
        self.start_location
    }

    /// Where the goal lies.
    pub fn goal_location(&self) -> (location: GridLocation)
        ensures
            location == self@.goal_location,
    {
        self.goal_location
    }

    /// All cells of the goal's room.
    pub fn goal_locations(&self) -> (locations: &Vec<GridLocation>)
        ensures
            locations@ == self@.goal_locations,
    {
        &self.goal_locations
    }

    /// Where the path enters the goal's room.
    pub fn goal_entrance_location(&self) -> (location: GridLocation)
        ensures
            location == self@.goal_entrance_location,
    {
        self.goal_entrance_location
    }

    /// The number of rows of the grid.
    pub fn rows(&self) -> (rows: usize)
        ensures
            rows == self@.rows,
    {
        self.rows
    }

    /// The number of columns of the grid.
    pub fn cols(&self) -> (cols: usize)
        ensures
            cols == self@.cols,
    {
        self.cols
    }

    /// In how many steps of a hundred the walker heads for the goal rather
    /// than in a random direction.
    pub fn meander_percent(&self) -> (percent: u64)
        ensures
            percent == self@.meander_percent,
    {
        self.meander_percent
    }

    /// Sets in how many steps of a hundred the walker heads for the goal
    /// rather than in a random direction.
    pub fn set_meander_percent(&mut self, percent: u64)
        ensures
            final(self)@ == (GeneratorView { meander_percent: percent as nat, ..old(self)@ }),
            old(self).wf() ==> final(self).wf(),
    {
        self.meander_percent = percent;
    }

    /// The phase that the next step goes through.
    pub fn state(&self) -> (state: DungeonGeneratorState)
        ensures
            state == self@.state,
    {
        self.state
    }

    /// Where the walker stands.
    pub fn cursor_location(&self) -> (location: GridLocation)
        ensures
            location == self@.cursor_location,
    {
        self.cursor_location
    }

    /// The number of steps taken.
    pub fn iteration_count(&self) -> (count: i32)
        ensures
            count == self@.iteration_count,
    {
        self.iteration_count
    }

    /// The cells of the path, in the order in which the walker entered them.
    pub fn valid_path_cells(&self) -> (cells: &Vec<GridLocation>)
        ensures
            cells@ == self@.valid_path_cells,
    {
        &self.valid_path_cells
    }

    /// The cells that were undecided when filling last began.
    pub fn unfilled_cells(&self) -> (cells: &Vec<GridLocation>)
        ensures
            cells@ == self@.unfilled_cells,
    {
        &self.unfilled_cells
    }

    /// Steps forward one step through generation state.
    ///
    /// Each phase takes its own step. The first stamps the goal room and the
    /// start; then the walker is put on the start; propagation takes one cell
    /// from the queue at a time; the walker forges the path; filling decides
    /// one undecided cell at random; cleaning removes what cannot be walked
    /// to; and at rest nothing happens until cells wait in the queue again.
    pub fn step(&mut self)
        requires
            old(self).wf(),
            old(self)@.iteration_count < i32::MAX,
        ensures
            final(self).wf(),
            old(self)@.steps_to(final(self)@),
            final(self)@.iteration_count == old(self)@.iteration_count + 1,
            old(self)@.state != DungeonGeneratorState::Init && old(self)@.state
                != DungeonGeneratorState::Fill ==> final(self)@.wfc.narrows(old(self)@.wfc),
            old(self)@.state == DungeonGeneratorState::Clean ==> final(self)@.is_connected(),
    {
        match self.state {
            DungeonGeneratorState::Init => self.init(),
            DungeonGeneratorState::PlacedRooms => self.place_walker(),
            DungeonGeneratorState::ForgingPath => self.forge_path(),
            DungeonGeneratorState::Wfc => self.propagate(),
            DungeonGeneratorState::Fill => self.fill(),
            DungeonGeneratorState::Clean => self.clean(),
            DungeonGeneratorState::Idle => self.rest(),
        }
        proof {
            lemma_step_counts(old(self)@, self@);
            if old(self)@.state != DungeonGeneratorState::Init && old(self)@.state
                != DungeonGeneratorState::Fill {
                lemma_step_narrows(old(self)@, self@);
            }
            if old(self)@.state == DungeonGeneratorState::Clean {
                lemma_clean_connects(old(self)@, self@);
            }
        }
    }

    /// Run through the complete generation process: steps are taken while
    /// more work can be done. The run also ends when the count of steps
    /// cannot go any higher.
    pub fn generate(&mut self)
        requires
            old(self).wf(),
        ensures
            final(self).wf(),
            !final(self)@.can_do_more_work() || final(self)@.iteration_count == i32::MAX,
            exists|states: Seq<GeneratorView>|
                #[trigger] is_run(states) && states[0] == old(self)@ && states.last()
                    == final(self)@,
    {
        let ghost mut states = seq![self@];
        while self.can_do_more_work() && self.iteration_count < i32::MAX
            invariant
                self.wf(),
                is_run(states),
                states[0] == old(self)@,
                states.last() == self@,
            decreases i32::MAX - self.iteration_count,
        {
            let ghost before = states;
            self.step();
            proof {
                states = before.push(self@);
                assert forall|index: int| 0 <= index < states.len() - 1 implies (
                #[trigger] states[index]).can_do_more_work() && states[index].steps_to(
                    states[index + 1],
                ) by {
                    if index < before.len() - 1 {
                        assert(before[index].can_do_more_work() && before[index].steps_to(
                            before[index + 1],
                        ));
                    }
                }
            }
        }
    }

    /// The name of the phase that the next step goes through.
    pub fn debug_state(&self) -> (name: &'static str)
        ensures
            name@ == self@.state.name(),
    {
        match self.state {
            DungeonGeneratorState::Init => "Init",
            DungeonGeneratorState::PlacedRooms => "Placed Rooms",
            DungeonGeneratorState::ForgingPath => "Forging Path",
            DungeonGeneratorState::Wfc => "Wfc",
            DungeonGeneratorState::Fill => "Fill",
            DungeonGeneratorState::Clean => "Clean",
            DungeonGeneratorState::Idle => "Idle",
        }
    }

    /// More generation can be done, whether it's dungeon steps or wfc
    pub fn can_do_more_work(&self) -> (more: bool)
        ensures
            more == self@.can_do_more_work(),
    {
        self.state != DungeonGeneratorState::Idle || self.wfc.get_queue().len() > 0
    }

    /// Sets the type of each cell at each location, as the engine does, from
    /// outside the generation. The neighbours of the cells wait in the queue
    /// afterwards, so there is work to do again.
    pub fn apply_types(&mut self, types: Vec<(GridLocation, Vec<DungeonCellType>)>)
        requires
            old(self).wf(),
        ensures
            final(self).wf(),
            final(self)@ == (GeneratorView {
                wfc: old(self)@.wfc.apply_all(types@),
                ..old(self)@
            }),
    {
        proof {
            lemma_apply_all(self@.wfc, types@);
            lemma_wfc_replaced(self@, self@.wfc.apply_all(types@));
        }
        self.wfc.apply_types(types);
    }

    /// Adds a room to the dungeon
    /// Returns all locations of the room.
    pub fn add_room(&mut self, room: &DungeonRoom) -> (cells: Vec<GridLocation>)
        requires
            old(self).wf(),
            room.location.has_neighbors(),
            room.shape is Cluster3 ==> old(self)@.wfc.grid.contains(room.location.neighbor(4))
                && old(self)@.wfc.grid.contains(room.location.neighbor(3)),
        ensures
            final(self).wf(),
            final(self)@ == (GeneratorView {
                wfc: place_room(old(self)@.wfc, *room),
                ..old(self)@
            }),
            cells@ == room.cells(),
    {
        let neighbor_locations = room.location.get_neighbors();
        proof {
            lemma_place_room(self@.wfc, *room);
            lemma_wfc_replaced(self@, place_room(self@.wfc, *room));
        }
        let ghost before = self@.wfc;
        match room.shape {
            DungeonRoomShape::Single(connections) => {
                let updates = vec![(room.location, room_types(connections))];
                proof {
                    assert(updates@.drop_last() =~= Seq::empty());
                    assert(before.apply_all(updates@.drop_last()) == before);
                }
                self.wfc.apply_types(updates);
                let cells = vec![room.location];
                assert(cells@ =~= room.cells());
                cells
            },
            DungeonRoomShape::Cluster3(cons1, cons2, cons3) => {
                let updates = vec![
                    (room.location, room_types(cons1)),
                    (neighbor_locations[CellConnections::BOTTOM_LEFT], room_types(cons2)),
                    (neighbor_locations[CellConnections::BOTTOM_RIGHT], room_types(cons3)),
                ];
                proof {
                    let two = updates@.drop_last();
                    let one = two.drop_last();
                    assert(one.drop_last() =~= Seq::empty());
                    assert(before.apply_all(one.drop_last()) == before);
                    assert(before.apply_all(one) == before.apply(
                        room.location,
                        seq![DungeonCellType::Room(cons1)],
                    ));
                    assert(before.apply_all(two) == before.apply_all(one).apply(
                        room.location.neighbor(4),
                        seq![DungeonCellType::Room(cons2)],
                    ));
                }
                self.wfc.apply_types(updates);
                let cells = vec![
                    room.location,
                    neighbor_locations[CellConnections::BOTTOM_LEFT],
                    neighbor_locations[CellConnections::BOTTOM_RIGHT],
                ];
                assert(cells@ =~= room.cells());
                cells
            },
        }
    }
}

/// A run of edits keeps the engine well formed and the grid in shape.
pub proof fn lemma_apply_all(
    wfc: WfcView<DungeonCellType>,
    updates: Seq<(GridLocation, Vec<DungeonCellType>)>,
)
    requires
        wfc.wf(),
    ensures
        wfc.apply_all(updates).wf(),
        wfc.apply_all(updates).grid.same_shape(wfc.grid),
    decreases updates.len(),
{
    if updates.len() > 0 {
        lemma_apply_all(wfc, updates.drop_last());
        let before = wfc.apply_all(updates.drop_last());
        lemma_apply(before, updates.last().0, updates.last().1@);
        let after = wfc.apply_all(updates);
        assert forall|row: int| 0 <= row < after.grid.cells.len() implies (
        #[trigger] after.grid.cells[row]).len() == wfc.grid.cells[row].len() by {
            assert(after.grid.cells[row].len() == before.grid.cells[row].len());
            assert(before.grid.cells[row].len() == wfc.grid.cells[row].len());
        }
    }
}

} // verus!
