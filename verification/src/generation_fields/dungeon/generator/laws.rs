//! What holds of every step of the generator.
use vstd::prelude::*;
use crate::generation_fields::dungeon::cell_type::DungeonCellType;
use crate::generation_fields::dungeon::generator::clean::cleaned;
use crate::generation_fields::dungeon::generator::clean::lemma_cleaned_is_connected;
use crate::generation_fields::dungeon::generator::clean::lemma_cleaned_shape;
use crate::generation_fields::dungeon::generator::clean::reachable;
use crate::generation_fields::dungeon::generator::path::halls_with;
use crate::generation_fields::dungeon::generator::path::is_hall_with;
use crate::generation_fields::dungeon::generator::view::DungeonGeneratorState;
use crate::generation_fields::dungeon::generator::view::GeneratorView;
use crate::generation_fields::dungeon::reducer::DungeonReducer;
use crate::generation_fields::dungeon::room::single_side;
use crate::sequences::lemma_filter_all;
use crate::wfc::location::GridLocation;
use crate::wfc::propagation::lemma_apply;
use crate::wfc::propagation::lemma_apply_narrows;
use crate::wfc::propagation::lemma_iterate;
use crate::wfc::propagation::lemma_narrows_twice;
use crate::wfc::propagation::lemma_same_shape;
use crate::wfc::totals::lemma_grid_total_pointwise;

verus! {

impl GeneratorView {
    /// Every cell that has a possible type left can be walked to from the
    /// start by following the connections of the cells on the way.
    pub open spec fn is_connected(self) -> bool {
        forall|location: GridLocation|
            self.wfc.grid.contains(location) && (#[trigger] self.wfc.grid.types_at(
                location,
            )).len() > 0 ==> reachable(self.wfc.grid, self.start_location, location)
    }
}

/// Every step is counted, and no step changes the seed, the size of the
/// grid or how the walker meanders.
pub proof fn lemma_step_counts(before: GeneratorView, after: GeneratorView)
    requires
        before.steps_to(after),
    ensures
        after.iteration_count == before.iteration_count + 1,
        after.seed == before.seed,
        after.rows == before.rows,
        after.cols == before.cols,
        after.meander_percent == before.meander_percent,
{
}

/// A step at rest, with nothing in the queue, is counted and changes nothing
/// else.
pub proof fn lemma_step_at_rest(before: GeneratorView, after: GeneratorView)
    requires
        before.state == DungeonGeneratorState::Idle,
        before.wfc.queue.len() == 0,
        before.steps_to(after),
    ensures
        after == before.counted(),
        !after.can_do_more_work(),
{
}

/// No step but the first, which stamps the rooms, and the filling, which
/// may give a cell without a possible type the blocked one, lengthens the
/// list of any cell: between such steps the number of possible types,
/// summed over all cells, never grows.
pub proof fn lemma_step_narrows(before: GeneratorView, after: GeneratorView)
    requires
        before.wf(),
        before.steps_to(after),
        before.state != DungeonGeneratorState::Init,
        before.state != DungeonGeneratorState::Fill,
    ensures
        after.wfc.narrows(before.wfc),
        after.wfc.grid.total_possibilities() <= before.wfc.grid.total_possibilities(),
{
    match before.state {
        DungeonGeneratorState::ForgingPath => {
            let (closest, random_direction) = choose|closest: bool, random_direction: int|
                0 <= random_direction < 5 && (before.meander_percent == 0 ==> !closest) && (
                before.meander_percent >= 100 ==> closest) && after
                    == #[trigger] before.after_forging(closest, random_direction);
            lemma_forging_narrows(before, closest, random_direction);
        },
        DungeonGeneratorState::Wfc => {
            lemma_iterate(before.wfc, &DungeonReducer);
        },
        DungeonGeneratorState::Clean => {
            let grid = before.wfc.grid;
            lemma_cleaned_shape(grid, before.start_location);
            lemma_grid_total_pointwise(
                cleaned(grid, before.start_location).cells,
                grid.cells,
                |types: Seq<DungeonCellType>| types.len(),
            );
        },
        _ => {},
    }
}

/// A step of the walker never lengthens the list of any cell.
pub proof fn lemma_forging_narrows(before: GeneratorView, closest: bool, random_direction: int)
    requires
        before.wf(),
    ensures
        before.after_forging(closest, random_direction).wfc.narrows(before.wfc),
{
    match before.forging_direction(closest, random_direction) {
        None => {},
        Some(direction) => {
            let next = before.cursor_location.neighbor(direction);
            if before.can_enter(next) {
                let required = before.entering_connections(next, direction);
                let entering = halls_with(before.wfc.grid.types_at(next), required);
                lemma_filter_all(
                    before.wfc.grid.types_at(next),
                    |cell_type: DungeonCellType| is_hall_with(cell_type, required),
                );
                lemma_apply(before.wfc, next, entering);
                lemma_apply_narrows(before.wfc, next, entering);
                let entered = before.wfc.apply(next, entering);
                if before.valid_path_cells.len() > 0 {
                    let previous = before.valid_path_cells.last();
                    let leaving = halls_with(
                        entered.grid.types_at(previous),
                        single_side(direction),
                    );
                    lemma_filter_all(
                        entered.grid.types_at(previous),
                        |cell_type: DungeonCellType|
                            is_hall_with(
                                cell_type,
                                single_side(direction),
                            ),
                    );
                    lemma_apply_narrows(entered, previous, leaving);
                    lemma_narrows_twice(entered.apply(previous, leaving), entered, before.wfc);
                }
            }
        },
    }
}

/// After the step of cleaning every cell that has a possible type left can
/// be walked to from the start.
pub proof fn lemma_clean_connects(before: GeneratorView, after: GeneratorView)
    requires
        before.wf(),
        before.state == DungeonGeneratorState::Clean,
        before.steps_to(after),
    ensures
        after.state == DungeonGeneratorState::Idle,
        after.is_connected(),
{
    let grid = before.wfc.grid;
    lemma_cleaned_shape(grid, before.start_location);
    lemma_same_shape(after.wfc.grid, grid);
    assert forall|location: GridLocation|
        after.wfc.grid.contains(location) && (#[trigger] after.wfc.grid.types_at(
            location,
        )).len() > 0 implies reachable(after.wfc.grid, after.start_location, location) by {
        lemma_cleaned_is_connected(grid, before.start_location, location);
    }
}

} // verus!
