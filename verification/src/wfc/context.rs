//! The engine: a grid, a queue, and the operations that edit and propagate.
use std::collections::VecDeque;
use vstd::prelude::*;
use crate::wfc::grid::copy_types;
use crate::wfc::grid::HexGrid;
use crate::wfc::location::GridLocation;
use crate::wfc::propagation::enqueue;
use crate::wfc::propagation::enqueue_neighbors;
use crate::wfc::propagation::enqueue_unsettled_neighbors;
use crate::wfc::propagation::lemma_enqueue_no_duplicates;
use crate::wfc::propagation::lemma_iterate;
use crate::wfc::propagation::lemma_settle_unique;
use crate::wfc::propagation::lemma_with_types;
use crate::wfc::propagation::WafeFunctionReducer;
use crate::wfc::propagation::WfcView;

verus! {

/// Holds the context of an in-progress Wave Function Collapse resolution.
#[derive(Debug, PartialEq, Eq, Clone)]
pub struct WaveFunctionCollapseContext<TCellType: Copy> {
    /// The grid of cells in progress
    grid: HexGrid<TCellType>,
    /// The queue of cells to collapse
    queue: VecDeque<GridLocation>,
}

impl<TCellType: Copy> View for WaveFunctionCollapseContext<TCellType> {
    type V = WfcView<TCellType>;

    closed spec fn view(&self) -> WfcView<TCellType> {
        WfcView { grid: self.grid@, queue: self.queue@ }
    }
}

impl<TCellType: Copy> WaveFunctionCollapseContext<TCellType> {
    /// The grid is well formed and no location waits twice in the queue.
    pub closed spec fn wf(&self) -> bool {
        &&& self.grid.wf()
        &&& self.queue@.no_duplicates()
    }

    /// The grid that the context holds.
    pub closed spec fn grid(&self) -> HexGrid<TCellType> {
        self.grid
    }

    /// For each cell the number of types it could become when it was
    /// created. No operation changes it.
    pub closed spec fn limits(&self) -> Seq<Seq<usize>> {
        self.grid.limits()
    }

    /// A well-formed context has a well-formed view.
    pub proof fn lemma_wf(&self)
        requires
            self.wf(),
        ensures
            self@.wf(),
            self.grid().wf(),
            self.grid()@ == self@.grid,
            self.grid().limits() == self.limits(),
    {
    }

    /// Creates a context in which every cell may become any of `init_types`
    /// and nothing waits in the queue.
    pub fn new(rows: usize, cols: usize, init_types: &Vec<TCellType>) -> (context:
        WaveFunctionCollapseContext<TCellType>)
        requires
            rows <= i64::MAX,
            cols <= i64::MAX,
        ensures
            context.wf(),
            context@.queue.len() == 0,
            context@.grid.cells.len() == rows,
            forall|row: int|
                0 <= row < rows ==> (#[trigger] context@.grid.cells[row]).len() == cols,
            forall|row: int, col: int|
                0 <= row < rows && 0 <= col < cols ==> #[trigger] context@.grid.cells[row][col]
                    == init_types@,
            forall|row: int, col: int|
                0 <= row < rows && 0 <= col < cols ==> #[trigger] context.limits()[row][col]
                    == init_types@.len(),
    {
        WaveFunctionCollapseContext {
            grid: HexGrid::new(rows, cols, init_types),
            queue: VecDeque::new(),
        }
    }

    /// Sets the type of each cell at each location, in turn: a cell on the
    /// grid may afterwards become exactly the types given for it, and its six
    /// neighbours wait in the queue.
    pub fn apply_types(&mut self, types: Vec<(GridLocation, Vec<TCellType>)>)
        requires
            old(self).wf(),
        ensures
            final(self).wf(),
            final(self).limits() == old(self).limits(),
            final(self)@ == old(self)@.apply_all(types@),
    {
        let mut index: usize = 0;
        while index < types.len()
            invariant
                index <= types@.len(),
                self.wf(),
                self.limits() == old(self).limits(),
                self@ == old(self)@.apply_all(types@.take(index as int)),
            decreases types@.len() - index,
        {
            let location = types[index].0;
            let ghost before = self@;
            proof {
                assert(types@.take(index + 1).drop_last() =~= types@.take(index as int));
                assert(types@.take(index + 1).last() == types@[index as int]);
            }
            if self.grid.get_cell(&location).is_some() {
                self.grid.set_possible_types(&location, copy_types(&types[index].1));
                let neighbors = location.get_neighbors();
                let mut direction: usize = 0;
                while direction < 6
                    invariant
                        direction <= 6,
                        self.wf(),
                        self.limits() == old(self).limits(),
                        neighbors@ == location.neighbors(),
                        self@.grid == before.grid.with_types(location, types@[index as int].1@),
                        self@.queue == enqueue_neighbors(
                            before.queue,
                            location,
                            direction as nat,
                        ),
                    decreases 6 - direction,
                {
                    self.queue_cell(&neighbors[direction]);
                    direction += 1;
                }
            }
            index += 1;
        }
        assert(types@.take(types@.len() as int) =~= types@);
    }

    /// Sets the type of the cell at one location: on the grid the cell may
    /// afterwards become exactly `types` and its six neighbours wait in the
    /// queue; off the grid nothing happens.
    pub fn apply_type(&mut self, location: GridLocation, types: Vec<TCellType>)
        requires
            old(self).wf(),
        ensures
            final(self).wf(),
            final(self).limits() == old(self).limits(),
            final(self)@ == old(self)@.apply(location, types@),
    {
        let ghost before = self@;
        let single = vec![(location, types)];
        proof {
            assert(single@.drop_last() =~= Seq::empty());
            assert(before.apply_all(single@.drop_last()) == before);
        }
        self.apply_types(single);
    }

    /// Sets the type of each cell in turn and lets each edit propagate until
    /// the queue is empty before the next is made.
    pub fn apply_types_and_process_immediately<R: WafeFunctionReducer<TCellType>>(
        &mut self,
        types: Vec<(GridLocation, Vec<TCellType>)>,
        reduce_types: &R,
    )
        requires
            old(self).wf(),
        ensures
            final(self).wf(),
            final(self).limits() == old(self).limits(),
            final(self)@ == old(self)@.apply_and_settle_all(types@, reduce_types),
    {
        let mut index: usize = 0;
        while index < types.len()
            invariant
                index <= types@.len(),
                self.wf(),
                self.limits() == old(self).limits(),
                self@ == old(self)@.apply_and_settle_all(
                    types@.take(index as int),
                    reduce_types,
                ),
            decreases types@.len() - index,
        {
            proof {
                assert(types@.take(index + 1).drop_last() =~= types@.take(index as int));
                assert(types@.take(index + 1).last() == types@[index as int]);
            }
            self.apply_type(types[index].0, copy_types(&types[index].1));
            self.iterate_queue_complete(reduce_types);
            index += 1;
        }
        assert(types@.take(types@.len() as int) =~= types@);
    }

    /// Processes a single cell queued to be collapsed: takes the location at
    /// the front of the queue, lets the reducer narrow the cell there, and
    /// where the cell changed enqueues its unsettled neighbours.
    pub fn iterate_queue<R: WafeFunctionReducer<TCellType>>(&mut self, reduce_types: &R)
        requires
            old(self).wf(),
        ensures
            final(self).wf(),
            final(self).limits() == old(self).limits(),
            final(self)@ == old(self)@.iterate(reduce_types),
            final(self)@.narrows(old(self)@),
    {
        proof {
            lemma_iterate(self@, reduce_types);
        }
        let coord = match self.queue.pop_front() {
            None => {
                return ;
            },
            Some(coord) => coord,
        };
        if self.grid.get_cell(&coord).is_none() {
            return ;
        }
        let narrowed = match reduce_types.reduce(&coord, &self.grid) {
            None => {
                return ;
            },
            Some(narrowed) => narrowed,
        };
        let ghost rest = self.queue@;
        proof {
            lemma_with_types(
                self.grid@,
                coord,
                narrowed@,
                |types: Seq<TCellType>| types.len(),
            );
        }
        self.grid.set_possible_types(&coord, narrowed);
        let neighbors = coord.get_neighbors();
        let mut direction: usize = 0;
        while direction < 6
            invariant
                direction <= 6,
                self.wf(),
                self.limits() == old(self).limits(),
                neighbors@ == coord.neighbors(),
                self@.grid == old(self)@.grid.with_types(coord, narrowed@),
                self@.queue == enqueue_unsettled_neighbors(
                    rest,
                    self@.grid,
                    coord,
                    direction as nat,
                ),
            decreases 6 - direction,
        {
            let unsettled = match self.grid.get_cell(&neighbors[direction]) {
                None => false,
                Some(neighbor_cell) => !neighbor_cell.is_settled(),
            };
            if unsettled {
                self.queue_cell(&neighbors[direction]);
            }
            direction += 1;
        }
    }

    /// Collapse all queued cells
    pub fn iterate_queue_complete<R: WafeFunctionReducer<TCellType>>(&mut self, reduce_types: &R)
        requires
            old(self).wf(),
        ensures
            final(self).wf(),
            final(self).limits() == old(self).limits(),
            final(self)@ == old(self)@.settle(reduce_types),
            final(self)@.queue.len() == 0,
            final(self)@.narrows(old(self)@),
    {
        let ghost mut steps: nat = 0;
        while self.queue.len() > 0
            invariant
                self.wf(),
                self.limits() == old(self).limits(),
                self@ == old(self)@.iterate_times(reduce_types, steps),
            decreases self@.total_rank(reduce_types), self@.queue.len(),
        {
            proof {
                lemma_iterate(self@, reduce_types);
                steps = steps + 1;
            }
            self.iterate_queue(reduce_types);
        }
        proof {
            lemma_settle_unique(old(self)@, reduce_types, steps);
        }
    }

    /// Get an immutable reference to the grid
    pub fn get_grid(&self) -> (grid: &HexGrid<TCellType>)
        ensures
            *grid == self.grid(),
            grid@ == self@.grid,
            grid.limits() == self.limits(),
            self.wf() ==> grid.wf(),
    {
        &self.grid
    }

    /// Get an immutable reference to the queue.
    /// This is mainly for the UI.
    pub fn get_queue(&self) -> (queue: &VecDeque<GridLocation>)
        ensures
            queue@ == self@.queue,
    {
        &self.queue
    }

    /// All cells have settled.
    pub fn is_settled(&self) -> (settled: bool)
        ensures
            settled == self@.grid.is_settled(),
    {
        let mut row: usize = 0;
        while row < self.grid.grid.len()
            invariant
                row <= self.grid.grid@.len(),
                forall|r: int, c: int|
                    0 <= r < row && 0 <= c < self@.grid.cells[r].len() ==> (
                    #[trigger] self@.grid.cells[r][c]).len() <= 1,
            decreases self.grid.grid@.len() - row,
        {
            let cells = &self.grid.grid[row];
            let mut col: usize = 0;
            while col < cells.len()
                invariant
                    row < self.grid.grid@.len(),
                    cells == &self.grid.grid@[row as int],
                    col <= cells@.len(),
                    forall|c: int|
                        0 <= c < col ==> (#[trigger] self@.grid.cells[row as int][c]).len() <= 1,
                decreases cells@.len() - col,
            {
                if !cells[col].is_settled() {
                    assert(self@.grid.cells[row as int][col as int].len() > 1);
                    return false;
                }
                col += 1;
            }
            row += 1;
        }
        true
    }

    /// Replaces the types that the cell at `loc` may become, without
    /// enqueueing anything. A location off the grid changes nothing.
    pub fn set_possible_types(&mut self, loc: &GridLocation, types: Vec<TCellType>)
        requires
            old(self).wf(),
        ensures
            final(self).wf(),
            final(self).limits() == old(self).limits(),
            final(self)@.queue == old(self)@.queue,
            old(self)@.grid.contains(*loc) ==> final(self)@.grid == old(self)@.grid.with_types(
                *loc,
                types@,
            ),
            !old(self)@.grid.contains(*loc) ==> final(self)@ == old(self)@,
    {
        self.grid.set_possible_types(loc, types);
    }

    /// Puts the location at the end of the queue, unless it waits there
    /// already.
    fn queue_cell(&mut self, loc: &GridLocation)
        requires
            old(self).wf(),
        ensures
            final(self).wf(),
            final(self).limits() == old(self).limits(),
            final(self)@.grid == old(self)@.grid,
            final(self).grid == old(self).grid,
            final(self)@.queue == enqueue(old(self)@.queue, *loc),
    {
        let mut index: usize = 0;
        while index < self.queue.len()
            invariant
                *self == *old(self),
                self.wf(),
                index <= self.queue@.len(),
                forall|k: int| 0 <= k < index ==> self.queue@[k] != *loc,
            decreases self.queue@.len() - index,
        {
            if self.queue[index] == *loc {
                assert(self.queue@.contains(*loc));
                return ;
            }
            index += 1;
        }
        proof {
            lemma_enqueue_no_duplicates(self.queue@, *loc);
        }
        self.queue.push_back(*loc);
    }
}

impl<T: Copy> WfcView<T> {
    /// The state after each of `updates` was applied in turn and left to
    /// propagate until the queue was empty.
    pub open spec fn apply_and_settle_all<R: WafeFunctionReducer<T>>(
        self,
        updates: Seq<(GridLocation, Vec<T>)>,
        reducer: &R,
    ) -> WfcView<T>
        decreases updates.len(),
    {
        if updates.len() == 0 {
            self
        } else {
            self.apply_and_settle_all(updates.drop_last(), reducer).apply(
                updates.last().0,
                updates.last().1@,
            ).settle(reducer)
        }
    }
}

} // verus!
