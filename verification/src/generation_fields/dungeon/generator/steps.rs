//! The steps of the generator, one for each phase.
use vstd::prelude::*;
use crate::generation_fields::dungeon::connections::CellConnections;
use crate::generation_fields::dungeon::generator::clean::cleaned;
use crate::generation_fields::dungeon::generator::clean::connected_cells;
use crate::generation_fields::dungeon::generator::clean::lemma_cleaned_shape;
use crate::generation_fields::dungeon::generator::clean::lemma_masked_is_cleaned;
use crate::generation_fields::dungeon::generator::clean::marks_of;
use crate::generation_fields::dungeon::generator::clean::remove_unmarked;
use crate::generation_fields::dungeon::generator::fill::list_unsettled;
use crate::generation_fields::dungeon::generator::lemma_wfc_replaced;
use crate::generation_fields::dungeon::generator::path::closest_neighbor;
use crate::generation_fields::dungeon::generator::path::leaving_side;
use crate::generation_fields::dungeon::generator::path::restrict_to_halls;
use crate::generation_fields::dungeon::generator::view::DungeonGeneratorState;
use crate::generation_fields::dungeon::generator::DungeonGenerator;
use crate::generation_fields::dungeon::reducer::DungeonReducer;
use crate::generation_fields::dungeon::room::connect_sides;
use crate::generation_fields::dungeon::weighted::random_weight_draw;
use crate::generation_fields::dungeon::weighted::weighted_pick;
use crate::random::random_bool;
use crate::random::random_in_range;
use crate::wfc::location::GridLocation;
use crate::wfc::propagation::lemma_apply;
use crate::wfc::propagation::lemma_iterate;
use crate::wfc::propagation::lemma_same_shape;
use crate::wfc::propagation::WfcView;

verus! {

impl DungeonGenerator {
    /// The step after the rooms were placed.
    pub(crate) fn place_walker(&mut self)
        requires
            old(self).wf(),
            old(self)@.iteration_count < i32::MAX,
        ensures
            final(self).wf(),
            final(self)@ == old(self)@.after_placed_rooms(),
    {
        self.cursor_location = self.start_location;
        self.state = DungeonGeneratorState::Wfc;
        self.iteration_count += 1;
    }

    /// A step at rest.
    pub(crate) fn rest(&mut self)
        requires
            old(self).wf(),
            old(self)@.iteration_count < i32::MAX,
        ensures
            final(self).wf(),
            final(self)@ == old(self)@.after_idle(),
    {
        if self.wfc.get_queue().len() > 0 {
            self.state = DungeonGeneratorState::Wfc;
        } else {
            self.state = DungeonGeneratorState::Idle;
        }
        self.iteration_count += 1;
    }

    /// A step of propagation.
    pub(crate) fn propagate(&mut self)
        requires
            old(self).wf(),
            old(self)@.iteration_count < i32::MAX,
        ensures
            final(self).wf(),
            final(self)@ == old(self)@.after_wfc(),
    {
        proof {
            lemma_iterate(self@.wfc, &DungeonReducer);
            lemma_wfc_replaced(self@, self@.wfc.iterate(&DungeonReducer));
        }
        self.wfc.iterate_queue(&DungeonReducer);
        if self.wfc.get_queue().len() == 0 {
            if self.valid_path_cells.len() == 0 {
                self.state = DungeonGeneratorState::ForgingPath;
            } else {
                self.unfilled_cells = list_unsettled(self.wfc.get_grid());
                self.state = DungeonGeneratorState::Fill;
            }
        }
        self.iteration_count += 1;
    }

    /// The step of cleaning.
    pub(crate) fn clean(&mut self)
        requires
            old(self).wf(),
            old(self)@.iteration_count < i32::MAX,
        ensures
            final(self).wf(),
            final(self)@ == old(self)@.after_clean(),
    {
        let connected = connected_cells(self.wfc.get_grid(), &self.start_location);
        proof {
            let grid = self@.wfc.grid;
            lemma_masked_is_cleaned(grid, marks_of(connected), self.start_location);
            lemma_cleaned_shape(grid, self.start_location);
            lemma_wfc_replaced(
                self@,
                WfcView { grid: cleaned(grid, self.start_location), queue: self@.wfc.queue },
            );
        }
        remove_unmarked(&mut self.wfc, &connected);
        self.state = DungeonGeneratorState::Idle;
        self.iteration_count += 1;
    }

    /// A step of the walker with its random choices made: away from the
    /// start the walker heads for the goal's entrance where `closest` says
    /// so and in the direction `random_direction` otherwise.
    pub fn forge_with(&mut self, closest: bool, random_direction: usize)
        requires
            old(self).wf(),
            old(self)@.iteration_count < i32::MAX,
            old(self)@.state == DungeonGeneratorState::ForgingPath,
            random_direction < 6,
        ensures
            final(self).wf(),
            final(self)@ == old(self)@.after_forging(closest, random_direction as int),
    {
        let direction = if self.cursor_location == self.start_location {
            match self.wfc.get_grid().get_cell(&self.start_location) {
                Some(start_cell) => leaving_side(&start_cell.possible_types),
                None => None,
            }
        } else if closest {
            Some(closest_neighbor(&self.cursor_location, &self.goal_entrance_location))
        } else {
            Some(random_direction)
        };
        let next_location_index = match direction {
            Some(index) => index,
            None => {
                self.iteration_count += 1;
                return ;
            },
        };
        let neighbor_locations = self.cursor_location.get_neighbors();
        let next_location = neighbor_locations[next_location_index];
        if next_location == self.start_location || contains_location(
            &self.goal_locations,
            &next_location,
        ) || self.wfc.get_grid().get_cell(&next_location).is_none() {
            self.iteration_count += 1;
            return ;
        }
        let opposite = CellConnections::opposite_index(next_location_index);
        let next_required_connections = if next_location == self.goal_entrance_location {
            // Force connection to goal. The goal entrance is always top left
            connect_sides(opposite, CellConnections::BOTTOM_RIGHT)
        } else {
            connect_sides(opposite, opposite)
        };
        assert(next_required_connections == self@.entering_connections(
            next_location,
            next_location_index as int,
        ));
        let next_cell_types = restrict_to_halls(
            &self.wfc.get_grid().cell_at(&next_location).possible_types,
            &next_required_connections,
        );
        let ghost entered = self@.wfc.apply(next_location, next_cell_types@);
        proof {
            lemma_apply(self@.wfc, next_location, next_cell_types@);
            lemma_same_shape(entered.grid, self@.wfc.grid);
        }
        self.wfc.apply_type(next_location, next_cell_types);
        if self.valid_path_cells.len() > 0 {
            // make sure the previous cell connects here
            let previous_location = self.valid_path_cells[self.valid_path_cells.len() - 1];
            assert(old(self)@.wfc.grid.contains(previous_location));
            let previous_cell_types = restrict_to_halls(
                &self.wfc.get_grid().cell_at(&previous_location).possible_types,
                &connect_sides(next_location_index, next_location_index),
            );
            proof {
                lemma_apply(entered, previous_location, previous_cell_types@);
                let left = entered.apply(previous_location, previous_cell_types@);
                assert forall|row: int| 0 <= row < left.grid.cells.len() implies (
                #[trigger] left.grid.cells[row]).len() == old(self)@.wfc.grid.cells[row].len() by {
                    assert(left.grid.cells[row].len() == entered.grid.cells[row].len());
                    assert(entered.grid.cells[row].len() == old(self)@.wfc.grid.cells[row].len());
                }
            }
            self.wfc.apply_type(previous_location, previous_cell_types);
        }
        proof {
            lemma_wfc_replaced(old(self)@, self.wfc@);
            lemma_same_shape(self.wfc@.grid, old(self)@.wfc.grid);
        }
        self.valid_path_cells.push(next_location);
        self.cursor_location = next_location;
        if self.cursor_location == self.goal_entrance_location {
            self.state = DungeonGeneratorState::Wfc;
        }
        self.iteration_count += 1;
        proof {
            assert(self@.valid_path_cells =~= old(self)@.valid_path_cells.push(next_location));
            assert forall|index: int|
                0 <= index < self@.valid_path_cells.len() implies self@.wfc.grid.contains(
                #[trigger] self@.valid_path_cells[index],
            ) by {
                if index < old(self)@.valid_path_cells.len() {
                    assert(old(self)@.wfc.grid.contains(old(self)@.valid_path_cells[index]));
                }
            }
        }
    }

    /// A step of the walker.
    pub(crate) fn forge_path(&mut self)
        requires
            old(self).wf(),
            old(self)@.iteration_count < i32::MAX,
            old(self)@.state == DungeonGeneratorState::ForgingPath,
        ensures
            final(self).wf(),
            old(self)@.steps_to(final(self)@),
    {
        let mut choose_closest = false;
        let mut random_direction: usize = 0;
        if self.cursor_location != self.start_location {
            // Random selection is how the walker gets away from cells that it may not enter
            choose_closest = random_bool(self.meander_percent);
            if !choose_closest {
                random_direction = random_in_range(0, 5) as usize;
            }
        }
        self.forge_with(choose_closest, random_direction);
        proof {
            let before = old(self)@;
            if before.cursor_location == before.start_location {
                let closest = before.meander_percent >= 100;
                assert(self@ == before.after_forging(closest, 0));
            } else {
                assert(self@ == before.after_forging(choose_closest, random_direction as int));
            }
        }
    }

    /// A step of filling with its random choices made: unless every cell is
    /// settled or no cell is listed, the listed cell at `index` is set to
    /// the one of its possible types that `draw` picks by weight.
    pub fn fill_with(&mut self, index: usize, draw: u64)
        requires
            old(self).wf(),
            old(self)@.iteration_count < i32::MAX,
            index < old(self)@.unfilled_cells.len() || old(self)@.unfilled_cells.len() == 0
                || old(self)@.wfc.grid.is_settled(),
        ensures
            final(self).wf(),
            final(self)@ == old(self)@.after_fill(index as int, draw as nat),
    {
        if self.wfc.is_settled() {
            self.state = DungeonGeneratorState::Clean;
            self.iteration_count += 1;
            return ;
        }
        if self.unfilled_cells.len() == 0 {
            self.state = DungeonGeneratorState::Wfc;
            self.iteration_count += 1;
            return ;
        }
        let location = self.unfilled_cells[index];
        assert(self@.wfc.grid.contains(self@.unfilled_cells[index as int]));
        let picked = weighted_pick(
            &self.wfc.get_grid().cell_at(&location).possible_types,
            draw,
        );
        let types = vec![picked];
        proof {
            assert(types@ =~= seq![picked]);
            lemma_apply(self@.wfc, location, types@);
            lemma_wfc_replaced(self@, self@.wfc.apply(location, types@));
        }
        self.wfc.apply_type(location, types);
        self.state = DungeonGeneratorState::Wfc;
        self.iteration_count += 1;
    }

    /// A step of filling. A cell is drawn from the listed cells, but never
    /// the last of several, and then a number below the summed weight of the
    /// cell's possible types, unless the cell has fewer than two.
    pub(crate) fn fill(&mut self)
        requires
            old(self).wf(),
            old(self)@.iteration_count < i32::MAX,
            old(self)@.state == DungeonGeneratorState::Fill,
        ensures
            final(self).wf(),
            old(self)@.steps_to(final(self)@),
    {
        let mut cell_index: usize = 0;
        let mut draw: u64 = 0;
        if !self.wfc.is_settled() && self.unfilled_cells.len() > 0 {
            cell_index = random_in_range(0, (self.unfilled_cells.len() - 1) as u64) as usize;
            let location = self.unfilled_cells[cell_index];
            assert(self@.wfc.grid.contains(self@.unfilled_cells[cell_index as int]));
            draw = random_weight_draw(&self.wfc.get_grid().cell_at(&location).possible_types);
        }
        self.fill_with(cell_index, draw);
        assert(self@ == old(self)@.after_fill(cell_index as int, draw as nat));
    }
}

/// Whether `location` is one of `locations`.
pub fn contains_location(locations: &Vec<GridLocation>, location: &GridLocation) -> (found: bool)
    ensures
        found == locations@.contains(*location),
{
    let mut index: usize = 0;
    while index < locations.len()
        invariant
            index <= locations@.len(),
            forall|k: int| 0 <= k < index ==> locations@[k] != *location,
        decreases locations@.len() - index,
    {
        if locations[index] == *location {
            return true;
        }
        index += 1;
    }
    false
}

} // verus!
