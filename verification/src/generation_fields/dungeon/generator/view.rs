//! What the generator does, as mathematics: its state and the step that
//! each phase takes.
use vstd::prelude::*;
use crate::generation_fields::dungeon::cell_type::DungeonCellType;
use crate::generation_fields::dungeon::connections::CellConnections;
use crate::generation_fields::dungeon::generator::clean::cleaned;
use crate::generation_fields::dungeon::generator::fill::unsettled_cells;
use crate::generation_fields::dungeon::generator::path::closest_direction;
use crate::generation_fields::dungeon::generator::path::halls_with;
use crate::generation_fields::dungeon::generator::path::leaving_direction;
use crate::generation_fields::dungeon::reducer::DungeonReducer;
use crate::generation_fields::dungeon::room::goal_room;
use crate::generation_fields::dungeon::room::single_side;
use crate::generation_fields::dungeon::room::two_sides;
use crate::generation_fields::dungeon::room::DungeonRoom;
use crate::generation_fields::dungeon::weighted::total_weight;
use crate::generation_fields::dungeon::weighted::weighted_choice;
use crate::wfc::grid::GridView;
use crate::wfc::location::opposite_direction;
use crate::wfc::location::GridLocation;
use crate::wfc::propagation::WfcView;

verus! {

/// The phases of generation.
#[derive(Debug, Eq, Copy, Clone, PartialEq, Structural)]
pub enum DungeonGeneratorState {
    /// Nothing has been placed yet.
    Init,
    /// The goal room and the start have been placed.
    PlacedRooms,
    /// The walker forges the path from the start to the goal's entrance.
    ForgingPath,
    /// Edits propagate, one queued cell per step.
    Wfc,
    /// An undecided cell is decided at random.
    Fill,
    /// The cells that cannot be walked to from the start are removed.
    Clean,
    /// Nothing is left to do.
    Idle,
}

impl DungeonGeneratorState {
    /// The name of the phase.
    pub open spec fn name(self) -> Seq<char> {
        match self {
            DungeonGeneratorState::Init => "Init"@,
            DungeonGeneratorState::PlacedRooms => "Placed Rooms"@,
            DungeonGeneratorState::ForgingPath => "Forging Path"@,
            DungeonGeneratorState::Wfc => "Wfc"@,
            DungeonGeneratorState::Fill => "Fill"@,
            DungeonGeneratorState::Clean => "Clean"@,
            DungeonGeneratorState::Idle => "Idle"@,
        }
    }
}

/// The state of the engine after a room was stamped on the grid: each cell
/// of the room is set to the room type with its connections, peak first.
pub open spec fn place_room(wfc: WfcView<DungeonCellType>, room: DungeonRoom) -> WfcView<
    DungeonCellType,
> {
    let cells = room.cells();
    let connections = room.cell_connections();
    let first = wfc.apply(cells[0], seq![DungeonCellType::Room(connections[0])]);
    if cells.len() == 1 {
        first
    } else {
        first.apply(cells[1], seq![DungeonCellType::Room(connections[1])]).apply(
            cells[2],
            seq![DungeonCellType::Room(connections[2])],
        )
    }
}

/// The random choices of the first step.
pub struct InitDraws {
    /// Where the goal lies.
    pub goal: GridLocation,
    /// Whether the goal lies in a single-cell room rather than a cluster.
    pub goal_in_small_room: bool,
    /// Where the start lies.
    pub start: GridLocation,
    /// Whether the start is a hall rather than a single-cell room.
    pub start_in_hall: bool,
    /// The connections of the start where it is a hall.
    pub hall_connections: CellConnections,
    /// The one connected side of the start where it is a room.
    pub room_side: int,
}

/// The state of the generator, as mathematics.
pub struct GeneratorView {
    pub wfc: WfcView<DungeonCellType>,
    pub seed: u64,
    pub start_location: GridLocation,
    pub goal_location: GridLocation,
    pub goal_locations: Seq<GridLocation>,
    pub goal_entrance_location: GridLocation,
    pub rows: nat,
    pub cols: nat,
    pub meander_percent: nat,
    pub state: DungeonGeneratorState,
    pub cursor_location: GridLocation,
    pub iteration_count: int,
    pub valid_path_cells: Seq<GridLocation>,
    pub unfilled_cells: Seq<GridLocation>,
}

impl GeneratorView {
    /// The grid of the engine.
    pub open spec fn grid(self) -> GridView<DungeonCellType> {
        self.wfc.grid
    }

    /// The engine is well formed, the grid has the generator's dimensions,
    /// which leave room for the rooms, and the cells of the path and the
    /// undecided cells lie on the grid.
    pub open spec fn wf(self) -> bool {
        &&& self.wfc.wf()
        &&& 5 <= self.rows <= i64::MAX
        &&& 5 <= self.cols <= i64::MAX
        &&& self.wfc.grid.cells.len() == self.rows
        &&& self.wfc.grid.cols() == self.cols
        &&& self.start_location.has_neighbors()
        &&& self.cursor_location.has_neighbors()
        &&& forall|index: int|
            0 <= index < self.valid_path_cells.len() ==> self.wfc.grid.contains(
                #[trigger] self.valid_path_cells[index],
            )
        &&& forall|index: int|
            0 <= index < self.unfilled_cells.len() ==> self.wfc.grid.contains(
                #[trigger] self.unfilled_cells[index],
            )
    }

    /// More generation can be done: a phase is left to go through, or cells
    /// wait in the queue.
    pub open spec fn can_do_more_work(self) -> bool {
        self.state != DungeonGeneratorState::Idle || self.wfc.queue.len() > 0
    }

    /// The state with one more step counted and nothing else changed.
    pub open spec fn counted(self) -> GeneratorView {
        GeneratorView { iteration_count: self.iteration_count + 1, ..self }
    }

    /// A location from which the goal and the start are drawn: off the
    /// border, and off the last row and column before the border.
    pub open spec fn can_draw(self, location: GridLocation) -> bool {
        &&& 1 <= location.row < self.rows - 2
        &&& 1 <= location.col < self.cols - 2
    }

    /// The draws that the first step can make: the goal and the start are
    /// drawn off the border, the start lies outside the goal's room, and
    /// the side on which a start room connects is one of the first five.
    pub open spec fn admits(self, draws: InitDraws) -> bool {
        &&& self.can_draw(draws.goal)
        &&& self.can_draw(draws.start)
        &&& !goal_room(draws.goal, draws.goal_in_small_room).cells().contains(draws.start)
        &&& 0 <= draws.room_side < 5
    }

    /// The first step: the goal room is stamped on the grid with its
    /// entrance to the top left of the goal, then the start is stamped
    /// as a hall or as a room that connects on one side.
    pub open spec fn after_init(self, draws: InitDraws) -> GeneratorView {
        let room = goal_room(draws.goal, draws.goal_in_small_room);
        let with_goal = place_room(self.wfc, room);
        let with_start = if draws.start_in_hall {
            with_goal.apply(draws.start, seq![DungeonCellType::Hall(draws.hall_connections)])
        } else {
            place_room(with_goal, DungeonRoom::single(draws.start, single_side(draws.room_side)))
        };
        GeneratorView {
            wfc: with_start,
            goal_location: draws.goal,
            goal_entrance_location: draws.goal.neighbor(0),
            goal_locations: room.cells(),
            start_location: draws.start,
            state: DungeonGeneratorState::PlacedRooms,
            iteration_count: self.iteration_count + 1,
            ..self
        }
    }

    /// The step after the rooms were placed: the walker is put on the start
    /// and the first edits are left to propagate.
    pub open spec fn after_placed_rooms(self) -> GeneratorView {
        GeneratorView {
            cursor_location: self.start_location,
            state: DungeonGeneratorState::Wfc,
            iteration_count: self.iteration_count + 1,
            ..self
        }
    }

    /// The direction that the walker takes. From the start it leaves by the
    /// first connection of the start cell, if there is one. From anywhere
    /// else it heads for the neighbour closest to the goal's entrance or in
    /// the random direction.
    pub open spec fn forging_direction(self, closest: bool, random_direction: int) -> Option<int> {
        if self.cursor_location == self.start_location {
            if self.wfc.grid.contains(self.start_location) {
                leaving_direction(self.wfc.grid.types_at(self.start_location))
            } else {
                None
            }
        } else if closest {
            Some(closest_direction(self.cursor_location, self.goal_entrance_location))
        } else {
            Some(random_direction)
        }
    }

    /// The walker may step on a cell of the grid that is neither the start
    /// nor part of the goal's room.
    pub open spec fn can_enter(self, next: GridLocation) -> bool {
        &&& next != self.start_location
        &&& !self.goal_locations.contains(next)
        &&& self.wfc.grid.contains(next)
    }

    /// The sides on which a cell that the walker enters in direction
    /// `direction` has to connect: back to where the walker came from and,
    /// at the goal's entrance, to the goal at the bottom right.
    pub open spec fn entering_connections(self, next: GridLocation, direction: int) -> CellConnections {
        if next == self.goal_entrance_location {
            two_sides(opposite_direction(direction), 3)
        } else {
            single_side(opposite_direction(direction))
        }
    }

    /// A step of the walker. Where the walker has no direction or may not
    /// enter the cell in its direction, the step is counted and nothing else
    /// happens. Otherwise the cell is narrowed to the halls that connect as
    /// they have to, the last cell of the path is narrowed to the halls that
    /// connect in the walker's direction, and the walker moves on. At the
    /// goal's entrance the path is done and its edits are left to propagate.
    pub open spec fn after_forging(self, closest: bool, random_direction: int) -> GeneratorView {
        match self.forging_direction(closest, random_direction) {
            None => self.counted(),
            Some(direction) => {
                let next = self.cursor_location.neighbor(direction);
                if self.can_enter(next) {
                    let entered = self.wfc.apply(
                        next,
                        halls_with(
                            self.wfc.grid.types_at(next),
                            self.entering_connections(next, direction),
                        ),
                    );
                    let left = if self.valid_path_cells.len() > 0 {
                        entered.apply(
                            self.valid_path_cells.last(),
                            halls_with(
                                entered.grid.types_at(self.valid_path_cells.last()),
                                single_side(direction),
                            ),
                        )
                    } else {
                        entered
                    };
                    GeneratorView {
                        wfc: left,
                        valid_path_cells: self.valid_path_cells.push(next),
                        cursor_location: next,
                        state: if next == self.goal_entrance_location {
                            DungeonGeneratorState::Wfc
                        } else {
                            DungeonGeneratorState::ForgingPath
                        },
                        iteration_count: self.iteration_count + 1,
                        ..self
                    }
                } else {
                    self.counted()
                }
            },
        }
    }

    /// A step of propagation: one cell is taken from the queue and reduced.
    /// When that leaves the queue empty, the walker sets out if there is no
    /// path yet; otherwise the undecided cells are listed for filling.
    pub open spec fn after_wfc(self) -> GeneratorView {
        let wfc = self.wfc.iterate(&DungeonReducer);
        if wfc.queue.len() > 0 {
            GeneratorView { wfc, iteration_count: self.iteration_count + 1, ..self }
        } else if self.valid_path_cells.len() == 0 {
            GeneratorView {
                wfc,
                state: DungeonGeneratorState::ForgingPath,
                iteration_count: self.iteration_count + 1,
                ..self
            }
        } else {
            GeneratorView {
                wfc,
                unfilled_cells: unsettled_cells(wfc.grid),
                state: DungeonGeneratorState::Fill,
                iteration_count: self.iteration_count + 1,
                ..self
            }
        }
    }

    /// The draws that a step of filling can make: any listed cell but the
    /// last, or the only one, and a number below the summed weight of the
    /// cell's possible types.
    pub open spec fn admits_fill(self, index: int, draw: nat) -> bool {
        &&& 0 <= index < self.unfilled_cells.len()
        &&& self.unfilled_cells.len() > 1 ==> index < self.unfilled_cells.len() - 1
        &&& draw == 0 || draw < total_weight(
            self.wfc.grid.types_at(self.unfilled_cells[index]),
        )
    }

    /// A step of filling. Where every cell is settled, cleaning is next.
    /// Otherwise one of the listed cells is set to one of its possible types,
    /// picked by weight, and the edit is left to propagate; with no cell
    /// listed the step goes back to propagation to have the cells listed
    /// anew.
    pub open spec fn after_fill(self, index: int, draw: nat) -> GeneratorView {
        if self.wfc.grid.is_settled() {
            GeneratorView {
                state: DungeonGeneratorState::Clean,
                iteration_count: self.iteration_count + 1,
                ..self
            }
        } else if self.unfilled_cells.len() == 0 {
            GeneratorView {
                state: DungeonGeneratorState::Wfc,
                iteration_count: self.iteration_count + 1,
                ..self
            }
        } else {
            let location = self.unfilled_cells[index];
            GeneratorView {
                wfc: self.wfc.apply(
                    location,
                    seq![weighted_choice(self.wfc.grid.types_at(location), draw)],
                ),
                state: DungeonGeneratorState::Wfc,
                iteration_count: self.iteration_count + 1,
                ..self
            }
        }
    }

    /// The step of cleaning: every cell that cannot be walked to from the
    /// start loses its possible types.
    pub open spec fn after_clean(self) -> GeneratorView {
        GeneratorView {
            wfc: WfcView {
                grid: cleaned(self.wfc.grid, self.start_location),
                queue: self.wfc.queue,
            },
            state: DungeonGeneratorState::Idle,
            iteration_count: self.iteration_count + 1,
            ..self
        }
    }

    /// A step at rest: the step is counted, and where cells wait in the
    /// queue propagation takes up again.
    pub open spec fn after_idle(self) -> GeneratorView {
        GeneratorView {
            state: if self.wfc.queue.len() > 0 {
                DungeonGeneratorState::Wfc
            } else {
                DungeonGeneratorState::Idle
            },
            iteration_count: self.iteration_count + 1,
            ..self
        }
    }

    /// One step leads from this state to `next`. Where a step draws random
    /// numbers, it leads to `next` for some draws that the step can make.
    pub open spec fn steps_to(self, next: GeneratorView) -> bool {
        match self.state {
            DungeonGeneratorState::Init => exists|draws: InitDraws|
                self.admits(draws) && next == #[trigger] self.after_init(draws),
            DungeonGeneratorState::PlacedRooms => next == self.after_placed_rooms(),
            DungeonGeneratorState::ForgingPath => exists|closest: bool, random_direction: int|
                0 <= random_direction < 5 && (self.meander_percent == 0 ==> !closest) && (
                self.meander_percent >= 100 ==> closest) && next == #[trigger] self.after_forging(
                    closest,
                    random_direction,
                ),
            DungeonGeneratorState::Wfc => next == self.after_wfc(),
            DungeonGeneratorState::Fill => exists|index: int, draw: nat|
                (self.unfilled_cells.len() > 0 ==> self.admits_fill(index, draw)) && next
                    == #[trigger] self.after_fill(index, draw),
            DungeonGeneratorState::Clean => next == self.after_clean(),
            DungeonGeneratorState::Idle => next == self.after_idle(),
        }
    }
}

/// A run of the generator: from each state but the last more work can be
/// done, and one step leads to the next state.
pub open spec fn is_run(states: Seq<GeneratorView>) -> bool {
    &&& states.len() > 0
    &&& forall|index: int|
        0 <= index < states.len() - 1 ==> (#[trigger] states[index]).can_do_more_work()
            && states[index].steps_to(states[index + 1])
}

} // verus!
