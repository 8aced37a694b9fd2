//! What the engine does, as mathematics: the queue discipline, the effect of
//! an edit, and one step of propagation under a reducer.
use vstd::prelude::*;
use crate::wfc::grid::GridView;
use crate::wfc::grid::HexGrid;
use crate::wfc::location::GridLocation;
use crate::wfc::totals::grid_total;
use crate::wfc::totals::lemma_grid_total_update;

verus! {

/// The queue with `location` at its end, unless the queue holds it already.
pub open spec fn enqueue(queue: Seq<GridLocation>, location: GridLocation) -> Seq<GridLocation> {
    if queue.contains(location) {
        queue
    } else {
        queue.push(location)
    }
}

/// The queue after the first `count` neighbours of `location` were enqueued
/// in direction order, whether they lie on the grid or not.
pub open spec fn enqueue_neighbors(
    queue: Seq<GridLocation>,
    location: GridLocation,
    count: nat,
) -> Seq<GridLocation>
    decreases count,
{
    if count == 0 {
        queue
    } else {
        enqueue(
            enqueue_neighbors(queue, location, (count - 1) as nat),
            location.neighbor(count - 1),
        )
    }
}

/// The queue after those of the first `count` neighbours of `location` were
/// enqueued, in direction order, that lie on the grid and are not settled.
pub open spec fn enqueue_unsettled_neighbors<T>(
    queue: Seq<GridLocation>,
    grid: GridView<T>,
    location: GridLocation,
    count: nat,
) -> Seq<GridLocation>
    decreases count,
{
    if count == 0 {
        queue
    } else {
        let before = enqueue_unsettled_neighbors(queue, grid, location, (count - 1) as nat);
        let neighbor = location.neighbor(count - 1);
        if grid.contains(neighbor) && !grid.settled_at(neighbor) {
            enqueue(before, neighbor)
        } else {
            before
        }
    }
}

/// The rule that narrows one cell by looking at its neighbourhood.
///
/// A reducer says what the cell at a location may still become, given the
/// whole grid. It may never lengthen the list. So that propagation comes to
/// an end, each reducer names a rank for lists of types, and every change it
/// makes lowers the rank of the cell's list.
pub trait WafeFunctionReducer<TCellType: Copy> {
    /// The types that the cell at `location` may still become.
    spec fn reduced(&self, location: GridLocation, grid: GridView<TCellType>) -> Seq<TCellType>;

    /// The rank of a list of types.
    spec fn rank(&self, types: Seq<TCellType>) -> nat;

    /// A reducer never lengthens a cell's list, and what it changes it ranks
    /// lower.
    proof fn lemma_reduced_narrows(&self, location: GridLocation, grid: GridView<TCellType>)
        requires
            grid.wf(),
            grid.contains(location),
        ensures
            self.reduced(location, grid).len() <= grid.types_at(location).len(),
            self.reduced(location, grid) != grid.types_at(location) ==> self.rank(
                self.reduced(location, grid),
            ) < self.rank(grid.types_at(location)),
    ;

    /// Reduces the cell at `loc`: the narrowed list of types where the cell
    /// changes, nothing where it stays as it is.
    fn reduce(&self, loc: &GridLocation, grid: &HexGrid<TCellType>) -> (narrowed: Option<
        Vec<TCellType>,
    >)
        requires
            grid.wf(),
            grid@.contains(*loc),
        ensures
            match narrowed {
                Some(types) => types@ == self.reduced(*loc, grid@) && types@ != grid@.types_at(
                    *loc,
                ),
                None => self.reduced(*loc, grid@) == grid@.types_at(*loc),
            },
    ;
}

/// The state of a wave function collapse, as mathematics: the grid and the
/// queue of locations that wait for the reducer.
pub struct WfcView<T> {
    pub grid: GridView<T>,
    pub queue: Seq<GridLocation>,
}

impl<T: Copy> WfcView<T> {
    /// The grid is rectangular and no location waits twice in the queue.
    pub open spec fn wf(self) -> bool {
        &&& self.grid.wf()
        &&& self.queue.no_duplicates()
    }

    /// The state after the cell at `location` was set to `types`. On the grid
    /// the cell is overwritten and its six neighbours are enqueued; off the
    /// grid nothing happens.
    pub open spec fn apply(self, location: GridLocation, types: Seq<T>) -> WfcView<T> {
        if self.grid.contains(location) {
            WfcView {
                grid: self.grid.with_types(location, types),
                queue: enqueue_neighbors(self.queue, location, 6),
            }
        } else {
            self
        }
    }

    /// The state after each of `updates` was applied in turn.
    pub open spec fn apply_all(self, updates: Seq<(GridLocation, Vec<T>)>) -> WfcView<T>
        decreases updates.len(),
    {
        if updates.len() == 0 {
            self
        } else {
            self.apply_all(updates.drop_last()).apply(updates.last().0, updates.last().1@)
        }
    }

    /// The state after one location was taken from the front of the queue.
    /// Where the location lies on the grid and the reducer changes the cell
    /// there, the cell is narrowed and its unsettled neighbours are enqueued.
    pub open spec fn iterate<R: WafeFunctionReducer<T>>(self, reducer: &R) -> WfcView<T> {
        if self.queue.len() == 0 {
            self
        } else {
            let location = self.queue[0];
            let rest = self.queue.subrange(1, self.queue.len() as int);
            if !self.grid.contains(location) {
                WfcView { grid: self.grid, queue: rest }
            } else {
                let narrowed = reducer.reduced(location, self.grid);
                if narrowed == self.grid.types_at(location) {
                    WfcView { grid: self.grid, queue: rest }
                } else {
                    let grid = self.grid.with_types(location, narrowed);
                    WfcView {
                        grid,
                        queue: enqueue_unsettled_neighbors(rest, grid, location, 6),
                    }
                }
            }
        }
    }

    /// The state after `count` locations were taken from the queue.
    pub open spec fn iterate_times<R: WafeFunctionReducer<T>>(
        self,
        reducer: &R,
        count: nat,
    ) -> WfcView<T>
        decreases count,
    {
        if count == 0 {
            self
        } else {
            self.iterate_times(reducer, (count - 1) as nat).iterate(reducer)
        }
    }

    /// The state in which propagation has come to rest: the state after as
    /// many steps as it takes to empty the queue.
    pub open spec fn settle<R: WafeFunctionReducer<T>>(self, reducer: &R) -> WfcView<T> {
        self.iterate_times(
            reducer,
            choose|count: nat| self.iterate_times(reducer, count).queue.len() == 0,
        )
    }

    /// The sum of the reducer's ranks over all cells.
    pub open spec fn total_rank<R: WafeFunctionReducer<T>>(self, reducer: &R) -> nat {
        grid_total(self.grid.cells, |types: Seq<T>| reducer.rank(types))
    }

    /// The reducer would change none of the cells that wait in the queue.
    pub open spec fn is_quiet<R: WafeFunctionReducer<T>>(self, reducer: &R) -> bool {
        forall|index: int|
            0 <= index < self.queue.len() && self.grid.contains(#[trigger] self.queue[index])
                ==> reducer.reduced(self.queue[index], self.grid) == self.grid.types_at(
                self.queue[index],
            )
    }

    /// No cell has more possible types than it has in `before`, and the grid
    /// as a whole has no more either.
    pub open spec fn narrows(self, before: WfcView<T>) -> bool {
        &&& self.grid.same_shape(before.grid)
        &&& forall|row: int, col: int|
            0 <= row < self.grid.cells.len() && 0 <= col < self.grid.cells[row].len() ==> (
            #[trigger] self.grid.cells[row][col]).len() <= before.grid.cells[row][col].len()
        &&& self.grid.total_possibilities() <= before.grid.total_possibilities()
    }
}

/// Enqueueing keeps a queue free of duplicates.
pub proof fn lemma_enqueue_no_duplicates(queue: Seq<GridLocation>, location: GridLocation)
    requires
        queue.no_duplicates(),
    ensures
        enqueue(queue, location).no_duplicates(),
        enqueue(queue, location).contains(location),
        queue.len() <= enqueue(queue, location).len() <= queue.len() + 1,
{
    if !queue.contains(location) {
        let longer = queue.push(location);
        assert(longer[queue.len() as int] == location);
        assert forall|i: int, j: int| 0 <= i < longer.len() && 0 <= j < longer.len() && i
            != j implies longer[i] != longer[j] by {
            if i < queue.len() && j < queue.len() {
            } else if i < queue.len() {
                assert(queue.contains(queue[i]));
            } else {
                assert(queue.contains(queue[j]));
            }
        }
    }
}

/// Enqueueing neighbours keeps a queue free of duplicates.
pub proof fn lemma_enqueue_neighbors_no_duplicates(
    queue: Seq<GridLocation>,
    location: GridLocation,
    count: nat,
)
    requires
        queue.no_duplicates(),
    ensures
        enqueue_neighbors(queue, location, count).no_duplicates(),
        queue.len() <= enqueue_neighbors(queue, location, count).len() <= queue.len() + count,
    decreases count,
{
    if count > 0 {
        lemma_enqueue_neighbors_no_duplicates(queue, location, (count - 1) as nat);
        lemma_enqueue_no_duplicates(
            enqueue_neighbors(queue, location, (count - 1) as nat),
            location.neighbor(count - 1),
        );
    }
}

/// Enqueueing unsettled neighbours keeps a queue free of duplicates.
pub proof fn lemma_enqueue_unsettled_no_duplicates<T>(
    queue: Seq<GridLocation>,
    grid: GridView<T>,
    location: GridLocation,
    count: nat,
)
    requires
        queue.no_duplicates(),
    ensures
        enqueue_unsettled_neighbors(queue, grid, location, count).no_duplicates(),
        queue.len() <= enqueue_unsettled_neighbors(queue, grid, location, count).len()
            <= queue.len() + count,
    decreases count,
{
    if count > 0 {
        lemma_enqueue_unsettled_no_duplicates(queue, grid, location, (count - 1) as nat);
        lemma_enqueue_no_duplicates(
            enqueue_unsettled_neighbors(queue, grid, location, (count - 1) as nat),
            location.neighbor(count - 1),
        );
    }
}

/// Overwriting a cell of a rectangular grid leaves it rectangular, changes
/// that cell alone, and moves any total by the difference of the two
/// weights.
pub proof fn lemma_with_types<T>(
    grid: GridView<T>,
    location: GridLocation,
    types: Seq<T>,
    weight: spec_fn(Seq<T>) -> nat,
)
    requires
        grid.contains(location),
    ensures
        grid.with_types(location, types).same_shape(grid),
        grid.wf() ==> grid.with_types(location, types).wf(),
        grid.with_types(location, types).types_at(location) == types,
        forall|other: GridLocation|
            grid.contains(other) <==> #[trigger] grid.with_types(location, types).contains(other),
        forall|other: GridLocation|
            grid.contains(other) && other != location ==> #[trigger] grid.with_types(
                location,
                types,
            ).types_at(other) == grid.types_at(other),
        grid_total(grid.with_types(location, types).cells, weight) + weight(
            grid.types_at(location),
        ) == grid_total(grid.cells, weight) + weight(types),
{
    lemma_grid_total_update(grid.cells, weight, location.row as int, location.col as int, types);
    let after = grid.with_types(location, types);
    assert forall|other: GridLocation|
        grid.contains(other) && other != location implies #[trigger] after.types_at(other)
        == grid.types_at(other) by {
        if other.row == location.row {
            assert(other.col != location.col);
        }
    }
}

/// One step of propagation keeps the state well formed, never lengthens a
/// cell's list, and lowers the pair of the total rank and the queue's
/// length.
pub proof fn lemma_iterate<T: Copy, R: WafeFunctionReducer<T>>(state: WfcView<T>, reducer: &R)
    requires
        state.wf(),
    ensures
        state.iterate(reducer).wf(),
        state.iterate(reducer).narrows(state),
        state.queue.len() == 0 ==> state.iterate(reducer) == state,
        state.queue.len() > 0 ==> {
            ||| state.iterate(reducer).total_rank(reducer) < state.total_rank(reducer)
            ||| (state.iterate(reducer).total_rank(reducer) == state.total_rank(reducer)
                && state.iterate(reducer).queue.len() < state.queue.len())
        },
{
    let after = state.iterate(reducer);
    if state.queue.len() > 0 {
        let location = state.queue[0];
        let rest = state.queue.subrange(1, state.queue.len() as int);
        assert(rest.no_duplicates());
        if state.grid.contains(location) {
            let narrowed = reducer.reduced(location, state.grid);
            reducer.lemma_reduced_narrows(location, state.grid);
            if narrowed != state.grid.types_at(location) {
                let grid = state.grid.with_types(location, narrowed);
                lemma_with_types(state.grid, location, narrowed, |types: Seq<T>| types.len());
                lemma_with_types(
                    state.grid,
                    location,
                    narrowed,
                    |types: Seq<T>| reducer.rank(types),
                );
                lemma_enqueue_unsettled_no_duplicates(rest, grid, location, 6);
                assert forall|row: int, col: int|
                    0 <= row < grid.cells.len() && 0 <= col < grid.cells[row].len() implies (
                #[trigger] grid.cells[row][col]).len() <= state.grid.cells[row][col].len() by {
                    let other = GridLocation { row: row as i64, col: col as i64 };
                    assert(state.grid.contains(other));
                    if other != location {
                        assert(grid.types_at(other) == state.grid.types_at(other));
                    }
                }
            }
        }
    }
}

/// Any number of steps of propagation keeps the state well formed and never
/// lengthens a cell's list.
pub proof fn lemma_iterate_times<T: Copy, R: WafeFunctionReducer<T>>(
    state: WfcView<T>,
    reducer: &R,
    count: nat,
)
    requires
        state.wf(),
    ensures
        state.iterate_times(reducer, count).wf(),
        state.iterate_times(reducer, count).narrows(state),
        state.queue.len() == 0 ==> state.iterate_times(reducer, count) == state,
    decreases count,
{
    if count > 0 {
        lemma_iterate_times(state, reducer, (count - 1) as nat);
        lemma_iterate(state.iterate_times(reducer, (count - 1) as nat), reducer);
    }
}

/// Taking `first` steps and then `second` more is taking them all at once.
pub proof fn lemma_iterate_times_add<T: Copy, R: WafeFunctionReducer<T>>(
    state: WfcView<T>,
    reducer: &R,
    first: nat,
    second: nat,
)
    ensures
        state.iterate_times(reducer, first).iterate_times(reducer, second)
            == state.iterate_times(reducer, first + second),
    decreases second,
{
    if second > 0 {
        lemma_iterate_times_add(state, reducer, first, (second - 1) as nat);
        assert((first + second - 1) as nat == first + (second - 1) as nat);
    }
}

/// However many steps it took to empty the queue, the state at rest is the
/// same.
pub proof fn lemma_settle_unique<T: Copy, R: WafeFunctionReducer<T>>(
    state: WfcView<T>,
    reducer: &R,
    count: nat,
)
    requires
        state.wf(),
        state.iterate_times(reducer, count).queue.len() == 0,
    ensures
        state.settle(reducer) == state.iterate_times(reducer, count),
        state.settle(reducer).queue.len() == 0,
        state.settle(reducer).wf(),
        state.settle(reducer).narrows(state),
{
    let chosen = choose|n: nat| state.iterate_times(reducer, n).queue.len() == 0;
    lemma_iterate_times(state, reducer, count);
    lemma_iterate_times(state, reducer, chosen);
    if chosen <= count {
        lemma_iterate_times_add(state, reducer, chosen, (count - chosen) as nat);
        lemma_iterate_times(
            state.iterate_times(reducer, chosen),
            reducer,
            (count - chosen) as nat,
        );
    } else {
        lemma_iterate_times_add(state, reducer, count, (chosen - count) as nat);
        lemma_iterate_times(
            state.iterate_times(reducer, count),
            reducer,
            (chosen - count) as nat,
        );
    }
}

/// Every location in a queue that was filled with neighbours of `location`
/// was in the queue before or is one of those neighbours.
pub proof fn lemma_enqueue_neighbors_members(
    queue: Seq<GridLocation>,
    location: GridLocation,
    count: nat,
)
    ensures
        forall|index: int|
            0 <= index < enqueue_neighbors(queue, location, count).len() ==> {
                ||| queue.contains(#[trigger] enqueue_neighbors(queue, location, count)[index])
                ||| exists|direction: int|
                    0 <= direction < count && enqueue_neighbors(queue, location, count)[index]
                        == location.neighbor(direction)
            },
    decreases count,
{
    if count > 0 {
        let before = enqueue_neighbors(queue, location, (count - 1) as nat);
        let after = enqueue_neighbors(queue, location, count);
        lemma_enqueue_neighbors_members(queue, location, (count - 1) as nat);
        assert forall|index: int| 0 <= index < after.len() implies {
            ||| queue.contains(#[trigger] after[index])
            ||| exists|direction: int|
                0 <= direction < count && after[index] == location.neighbor(direction)
        } by {
            if index < before.len() {
                assert(after[index] == before[index]);
                if !queue.contains(before[index]) {
                    let direction = choose|direction: int|
                        0 <= direction < count - 1 && before[index] == location.neighbor(
                            direction,
                        );
                    assert(0 <= direction < count && after[index] == location.neighbor(
                        direction,
                    ));
                }
            } else {
                assert(after[index] == location.neighbor(count - 1));
            }
        }
    }
}

/// Where the reducer would change none of the queued cells, propagation
/// empties the queue and leaves every cell as it is.
pub proof fn lemma_quiet_settles<T: Copy, R: WafeFunctionReducer<T>>(
    state: WfcView<T>,
    reducer: &R,
)
    requires
        state.wf(),
        state.is_quiet(reducer),
    ensures
        state.settle(reducer).grid == state.grid,
        state.settle(reducer).queue.len() == 0,
        state.iterate_times(reducer, state.queue.len()).grid == state.grid,
        state.iterate_times(reducer, state.queue.len()).queue.len() == 0,
    decreases state.queue.len(),
{
    if state.queue.len() == 0 {
        lemma_settle_unique(state, reducer, 0);
    } else {
        let next = state.iterate(reducer);
        let rest = state.queue.subrange(1, state.queue.len() as int);
        assert(state.grid.contains(state.queue[0]) ==> reducer.reduced(
            state.queue[0],
            state.grid,
        ) == state.grid.types_at(state.queue[0]));
        assert(next == WfcView { grid: state.grid, queue: rest });
        lemma_iterate(state, reducer);
        assert forall|index: int|
            0 <= index < next.queue.len() && next.grid.contains(
                #[trigger] next.queue[index],
            ) implies reducer.reduced(next.queue[index], next.grid) == next.grid.types_at(
            next.queue[index],
        ) by {
            assert(next.queue[index] == state.queue[index + 1]);
        }
        lemma_quiet_settles(next, reducer);
        let count = next.queue.len();
        lemma_iterate_times_add(state, reducer, 1, count);
        assert(state.iterate_times(reducer, 1) == next) by {
            assert(state.iterate_times(reducer, 0) == state);
        }
        lemma_settle_unique(state, reducer, 1 + count);
    }
}

/// Setting a cell to the types it already has, on a grid at rest whose
/// reducer would change none of the cell's neighbours, and letting the edit
/// propagate, leaves every cell as it was. Only the queue was disturbed
/// meanwhile: the six neighbours were enqueued and taken off again.
pub proof fn lemma_reapply_changes_nothing<T: Copy, R: WafeFunctionReducer<T>>(
    state: WfcView<T>,
    reducer: &R,
    location: GridLocation,
)
    requires
        state.wf(),
        state.queue.len() == 0,
        state.grid.contains(location),
        forall|direction: int|
            0 <= direction < 6 && state.grid.contains(#[trigger] location.neighbor(direction))
                ==> reducer.reduced(location.neighbor(direction), state.grid)
                == state.grid.types_at(location.neighbor(direction)),
    ensures
        state.apply(location, state.grid.types_at(location)).settle(reducer) == state,
{
    let applied = state.apply(location, state.grid.types_at(location));
    assert(applied.grid.cells =~~= state.grid.cells);
    lemma_enqueue_neighbors_no_duplicates(state.queue, location, 6);
    lemma_enqueue_neighbors_members(state.queue, location, 6);
    assert forall|index: int|
        0 <= index < applied.queue.len() && applied.grid.contains(
            #[trigger] applied.queue[index],
        ) implies reducer.reduced(applied.queue[index], applied.grid) == applied.grid.types_at(
        applied.queue[index],
    ) by {
        assert(!state.queue.contains(applied.queue[index]));
        let direction = choose|direction: int|
            0 <= direction < 6 && applied.queue[index] == location.neighbor(direction);
        assert(state.grid.contains(location.neighbor(direction)));
    }
    lemma_quiet_settles(applied, reducer);
    assert(applied.settle(reducer).queue =~= state.queue);
}

/// Grids of the same shape have the same dimensions and the same
/// locations, and where one is rectangular so is the other.
pub proof fn lemma_same_shape<T>(grid: GridView<T>, other: GridView<T>)
    requires
        grid.same_shape(other),
    ensures
        grid.rows() == other.rows(),
        grid.cols() == other.cols(),
        other.wf() ==> grid.wf(),
        forall|location: GridLocation| grid.contains(location) == other.contains(location),
{
    if grid.cells.len() > 0 {
        assert(grid.cells[0].len() == other.cells[0].len());
    }
    if other.wf() {
        assert forall|row: int| 0 <= row < grid.cells.len() implies (
        #[trigger] grid.cells[row]).len() == grid.cols() by {
            assert(other.cells[row].len() == other.cols());
        }
    }
    assert forall|location: GridLocation| grid.contains(location) == other.contains(
        location,
    ) by {
        if 0 <= location.row < grid.cells.len() {
            assert(grid.cells[location.row as int].len() == other.cells[location.row as int].len());
        }
    }
}

/// An edit keeps the state well formed and the grid in shape.
pub proof fn lemma_apply<T: Copy>(state: WfcView<T>, location: GridLocation, types: Seq<T>)
    requires
        state.wf(),
    ensures
        state.apply(location, types).wf(),
        state.apply(location, types).grid.same_shape(state.grid),
        state.grid.contains(location) ==> state.apply(location, types).grid.types_at(location)
            == types,
        forall|other: GridLocation|
            state.grid.contains(other) && other != location ==> #[trigger] state.apply(
                location,
                types,
            ).grid.types_at(other) == state.grid.types_at(other),
{
    if state.grid.contains(location) {
        lemma_with_types(state.grid, location, types, |types: Seq<T>| types.len());
        lemma_enqueue_neighbors_no_duplicates(state.queue, location, 6);
    }
}

/// An edit that gives a cell no more types than it has never lengthens a
/// cell's list.
pub proof fn lemma_apply_narrows<T: Copy>(
    state: WfcView<T>,
    location: GridLocation,
    types: Seq<T>,
)
    requires
        state.wf(),
        state.grid.contains(location) ==> types.len() <= state.grid.types_at(location).len(),
    ensures
        state.apply(location, types).narrows(state),
{
    if state.grid.contains(location) {
        let after = state.apply(location, types);
        lemma_with_types(state.grid, location, types, |types: Seq<T>| types.len());
        assert forall|row: int, col: int|
            0 <= row < after.grid.cells.len() && 0 <= col < after.grid.cells[row].len() implies (
        #[trigger] after.grid.cells[row][col]).len() <= state.grid.cells[row][col].len() by {
            let other = GridLocation { row: row as i64, col: col as i64 };
            lemma_same_shape(after.grid, state.grid);
            assert(state.grid.contains(other));
            if other != location {
                assert(after.grid.types_at(other) == state.grid.types_at(other));
            }
        }
    }
}

/// Narrowing twice is narrowing.
pub proof fn lemma_narrows_twice<T: Copy>(last: WfcView<T>, middle: WfcView<T>, first: WfcView<T>)
    requires
        last.narrows(middle),
        middle.narrows(first),
    ensures
        last.narrows(first),
{
    assert forall|row: int, col: int|
        0 <= row < last.grid.cells.len() && 0 <= col < last.grid.cells[row].len() implies (
    #[trigger] last.grid.cells[row][col]).len() <= first.grid.cells[row][col].len() by {
        assert(last.grid.cells[row].len() == middle.grid.cells[row].len());
        assert(middle.grid.cells[row][col].len() <= first.grid.cells[row][col].len());
    }
    assert forall|row: int| 0 <= row < last.grid.cells.len() implies (
    #[trigger] last.grid.cells[row]).len() == first.grid.cells[row].len() by {
        assert(last.grid.cells[row].len() == middle.grid.cells[row].len());
        assert(middle.grid.cells[row].len() == first.grid.cells[row].len());
    }
}

} // verus!
