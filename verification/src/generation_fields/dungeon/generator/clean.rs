//! Finding the cells that can be walked to from the start, and removing the
//! rest.
use vstd::prelude::*;
use crate::generation_fields::dungeon::cell_type::DungeonCellType;
use crate::generation_fields::dungeon::connections::CellConnections;
use crate::wfc::context::WaveFunctionCollapseContext;
use crate::wfc::grid::GridView;
use crate::wfc::grid::HexGrid;
use crate::wfc::location::GridLocation;
use crate::wfc::totals::grid_total;
use crate::wfc::totals::lemma_grid_total_update;

verus! {

/// The sides on which the cell at `location` lets a walker out: the
/// connections of the first of its possible types. A cell off the grid or
/// without a possible type lets nobody out.
pub open spec fn exits(grid: GridView<DungeonCellType>, location: GridLocation) -> CellConnections {
    if grid.contains(location) && grid.types_at(location).len() > 0 {
        grid.types_at(location)[0].connections()
    } else {
        CellConnections::from_code(0)
    }
}

/// One step of a walk: both cells lie on the grid, and `to` is the neighbour
/// of `from` on a side on which `from` lets a walker out.
pub open spec fn leads_to(
    grid: GridView<DungeonCellType>,
    from: GridLocation,
    to: GridLocation,
) -> bool {
    &&& grid.contains(from)
    &&& grid.contains(to)
    &&& exists|direction: int|
        0 <= direction < 6 && exits(grid, from).side(direction) && #[trigger] from.neighbor(
            direction,
        ) == to
}

/// A walk over the grid: a cell of the grid, and from each cell one step to
/// the next.
pub open spec fn is_walk(grid: GridView<DungeonCellType>, walk: Seq<GridLocation>) -> bool {
    &&& walk.len() > 0
    &&& grid.contains(walk[0])
    &&& forall|index: int|
        0 <= index < walk.len() - 1 ==> leads_to(grid, #[trigger] walk[index], walk[index + 1])
}

/// A walk leads from `start` to `target`.
pub open spec fn reachable(
    grid: GridView<DungeonCellType>,
    start: GridLocation,
    target: GridLocation,
) -> bool {
    exists|walk: Seq<GridLocation>|
        #[trigger] is_walk(grid, walk) && walk[0] == start && walk.last() == target
}

/// The grid in which every cell with a mark is as in `grid` and every cell
/// without one has no possible type left.
pub open spec fn masked(grid: GridView<DungeonCellType>, marks: Seq<Seq<bool>>) -> GridView<
    DungeonCellType,
> {
    GridView {
        cells: Seq::new(
            grid.cells.len(),
            |row: int|
                Seq::new(
                    grid.cells[row].len(),
                    |col: int|
                        if marks[row][col] {
                            grid.cells[row][col]
                        } else {
                            Seq::empty()
                        },
                ),
        ),
    }
}

/// The grid in which every cell that can be walked to from `start` is as in
/// `grid` and every other cell has no possible type left.
pub open spec fn cleaned(grid: GridView<DungeonCellType>, start: GridLocation) -> GridView<
    DungeonCellType,
> {
    GridView {
        cells: Seq::new(
            grid.cells.len(),
            |row: int|
                Seq::new(
                    grid.cells[row].len(),
                    |col: int|
                        if reachable(grid, start, GridLocation { row: row as i64, col: col as i64 }) {
                            grid.cells[row][col]
                        } else {
                            Seq::empty()
                        },
                ),
        ),
    }
}

/// The marks of a matrix of flags.
pub open spec fn marks_of(flags: Vec<Vec<bool>>) -> Seq<Seq<bool>> {
    Seq::new(flags@.len(), |row: int| flags@[row]@)
}

/// The marks have the shape of the grid.
pub open spec fn marks_fit(marks: Seq<Seq<bool>>, grid: GridView<DungeonCellType>) -> bool {
    &&& marks.len() == grid.cells.len()
    &&& forall|row: int| 0 <= row < marks.len() ==> (#[trigger] marks[row]).len() == grid.cells[row].len()
}

/// Whether the cell at `location` bears a mark.
pub open spec fn marked(marks: Seq<Seq<bool>>, location: GridLocation) -> bool {
    marks[location.row as int][location.col as int]
}

/// The number of cells without a mark.
pub open spec fn unmarked(marks: Seq<Seq<bool>>) -> nat {
    grid_total(
        marks,
        |mark: bool|
            if mark {
                0nat
            } else {
                1nat
            },
    )
}

/// Wherever a marked cell lets a walker out towards a cell of the grid, that
/// cell is marked too.
pub open spec fn marks_closed(grid: GridView<DungeonCellType>, marks: Seq<Seq<bool>>) -> bool {
    forall|location: GridLocation, direction: int|
        grid.contains(location) && marked(marks, location) && 0 <= direction < 6 && exits(
            grid,
            location,
        ).side(direction) && grid.contains(#[trigger] location.neighbor(direction)) ==> marked(
            marks,
            location.neighbor(direction),
        )
}

/// A walk that ends in a step to one more cell is a walk.
pub proof fn lemma_walk_extends(
    grid: GridView<DungeonCellType>,
    walk: Seq<GridLocation>,
    direction: int,
)
    requires
        is_walk(grid, walk),
        0 <= direction < 6,
        exits(grid, walk.last()).side(direction),
        grid.contains(walk.last().neighbor(direction)),
    ensures
        is_walk(grid, walk.push(walk.last().neighbor(direction))),
        reachable(grid, walk[0], walk.last().neighbor(direction)),
{
    let target = walk.last().neighbor(direction);
    let longer = walk.push(target);
    assert forall|index: int| 0 <= index < longer.len() - 1 implies leads_to(
        grid,
        #[trigger] longer[index],
        longer[index + 1],
    ) by {
        if index < walk.len() - 1 {
            assert(leads_to(grid, walk[index], walk[index + 1]));
        } else {
            assert(longer[index] == walk.last());
            assert(grid.contains(walk.last())) by {
                if walk.len() > 1 {
                    assert(leads_to(grid, walk[walk.len() - 2], walk[walk.len() - 2 + 1]));
                }
            }
        }
    }
    assert(is_walk(grid, longer));
    assert(longer[0] == walk[0]);
    assert(longer.last() == target);
}

/// Every cell of a walk that starts on a marked cell is marked, where the
/// marks are closed.
pub proof fn lemma_closed_marks_hold_walk(
    grid: GridView<DungeonCellType>,
    marks: Seq<Seq<bool>>,
    walk: Seq<GridLocation>,
    index: int,
)
    requires
        marks_closed(grid, marks),
        is_walk(grid, walk),
        marked(marks, walk[0]),
        0 <= index < walk.len(),
    ensures
        grid.contains(walk[index]),
        marked(marks, walk[index]),
    decreases index,
{
    if index > 0 {
        lemma_closed_marks_hold_walk(grid, marks, walk, index - 1);
        assert(leads_to(grid, walk[index - 1], walk[index - 1 + 1]));
        let direction = choose|direction: int|
            0 <= direction < 6 && exits(grid, walk[index - 1]).side(direction)
                && #[trigger] walk[index - 1].neighbor(direction) == walk[index];
        assert(grid.contains(walk[index - 1].neighbor(direction)));
    }
}

/// Marks the cell at the given row and column.
fn set_mark(flags: &mut Vec<Vec<bool>>, row: usize, col: usize)
    requires
        row < old(flags)@.len(),
        col < old(flags)@[row as int]@.len(),
    ensures
        marks_of(*final(flags)) == marks_of(*old(flags)).update(
            row as int,
            marks_of(*old(flags))[row as int].update(col as int, true),
        ),
{
    flags[row][col] = true;
    assert(marks_of(*flags) =~~= marks_of(*old(flags)).update(
        row as int,
        marks_of(*old(flags))[row as int].update(col as int, true),
    ));
}

/// A matrix of flags in the shape of the grid, none of them set.
fn no_marks(grid: &HexGrid<DungeonCellType>) -> (flags: Vec<Vec<bool>>)
    ensures
        marks_fit(marks_of(flags), grid@),
        forall|row: int, col: int|
            0 <= row < grid@.cells.len() && 0 <= col < grid@.cells[row].len() ==> !(
            #[trigger] marks_of(flags)[row][col]),
{
    let mut flags: Vec<Vec<bool>> = Vec::new();
    let mut row: usize = 0;
    while row < grid.grid.len()
        invariant
            row <= grid.grid@.len(),
            flags@.len() == row,
            forall|r: int| 0 <= r < row ==> (#[trigger] flags@[r])@.len() == grid.grid@[r]@.len(),
            forall|r: int, c: int|
                0 <= r < row && 0 <= c < grid.grid@[r]@.len() ==> !(#[trigger] flags@[r]@[c]),
        decreases grid.grid@.len() - row,
    {
        let mut flag_row: Vec<bool> = Vec::new();
        let mut col: usize = 0;
        while col < grid.grid[row].len()
            invariant
                row < grid.grid@.len(),
                col <= grid.grid@[row as int]@.len(),
                flag_row@.len() == col,
                forall|c: int| 0 <= c < col ==> !(#[trigger] flag_row@[c]),
            decreases grid.grid@[row as int]@.len() - col,
        {
            flag_row.push(false);
            col += 1;
        }
        flags.push(flag_row);
        row += 1;
    }
    flags
}

/// For each cell of the grid, whether it can be walked to from `start`.
pub fn connected_cells(grid: &HexGrid<DungeonCellType>, start: &GridLocation) -> (connected:
    Vec<Vec<bool>>)
    requires
        grid.wf(),
    ensures
        marks_fit(marks_of(connected), grid@),
        forall|location: GridLocation|
            grid@.contains(location) ==> #[trigger] marked(marks_of(connected), location)
                == reachable(grid@, *start, location),
{
    let mut connected = no_marks(grid);
    let mut frontier: Vec<GridLocation> = Vec::new();
    if grid.get_cell(start).is_some() {
        let (row, col) = grid.index_of(start);
        assert(marks_of(connected)[row as int].len() == connected@[row as int]@.len());
        let ghost marks_before = marks_of(connected);
        set_mark(&mut connected, row, col);
        frontier.push(*start);
        proof {
            let marks = marks_of(connected);
            assert forall|other: GridLocation| grid@.contains(other) implies (#[trigger] marked(
                marks,
                other,
            ) == (other == *start)) by {
                assert(!marks_before[other.row as int][other.col as int]);
            }
            let walk = seq![*start];
            assert(is_walk(grid@, walk));
            assert(walk[0] == *start && walk.last() == *start);
            assert(frontier@[0] == *start);
        }
    }
    let mut next: usize = 0;
    while next < frontier.len()
        invariant
            grid.wf(),
            marks_fit(marks_of(connected), grid@),
            next <= frontier@.len(),
            grid@.contains(*start) ==> marked(marks_of(connected), *start),
            forall|k: int|
                0 <= k < frontier@.len() ==> grid@.contains(#[trigger] frontier@[k]) && marked(
                    marks_of(connected),
                    frontier@[k],
                ),
            forall|location: GridLocation|
                grid@.contains(location) && #[trigger] marked(marks_of(connected), location)
                    ==> reachable(grid@, *start, location) && frontier@.contains(location),
            forall|k: int, direction: int|
                0 <= k < next && 0 <= direction < 6 && exits(grid@, frontier@[k]).side(direction)
                    && grid@.contains(#[trigger] frontier@[k].neighbor(direction)) ==> marked(
                    marks_of(connected),
                    frontier@[k].neighbor(direction),
                ),
        decreases unmarked(marks_of(connected)), frontier@.len() - next,
    {
        let location = frontier[next];
        let cell = grid.cell_at(&location);
        let connections = if cell.possible_types.len() > 0 {
            cell.possible_types[0].get_connections()
        } else {
            CellConnections::none()
        };
        assert(connections == exits(grid@, location));
        let neighbors = location.get_neighbors();
        let ghost unmarked_before = unmarked(marks_of(connected));
        let ghost length_before = frontier@.len();
        let mut direction: usize = 0;
        while direction < 6
            invariant
                grid.wf(),
                marks_fit(marks_of(connected), grid@),
                direction <= 6,
                next < frontier@.len(),
                location == frontier@[next as int],
                connections == exits(grid@, location),
                neighbors@ == location.neighbors(),
                grid@.contains(*start) ==> marked(marks_of(connected), *start),
                forall|k: int|
                    0 <= k < frontier@.len() ==> grid@.contains(#[trigger] frontier@[k])
                        && marked(marks_of(connected), frontier@[k]),
                forall|other: GridLocation|
                    grid@.contains(other) && #[trigger] marked(marks_of(connected), other)
                        ==> reachable(grid@, *start, other) && frontier@.contains(other),
                forall|k: int, side: int|
                    0 <= k < next && 0 <= side < 6 && exits(grid@, frontier@[k]).side(side)
                        && grid@.contains(#[trigger] frontier@[k].neighbor(side)) ==> marked(
                        marks_of(connected),
                        frontier@[k].neighbor(side),
                    ),
                forall|side: int|
                    0 <= side < direction && connections.side(side) && grid@.contains(
                        #[trigger] location.neighbor(side),
                    ) ==> marked(marks_of(connected), location.neighbor(side)),
                length_before <= frontier@.len(),
                unmarked(marks_of(connected)) + (frontier@.len() - length_before)
                    == unmarked_before,
            decreases 6 - direction,
        {
            if connections.connects(direction) {
                let neighbor = neighbors[direction];
                if grid.get_cell(&neighbor).is_some() {
                    let (row, col) = grid.index_of(&neighbor);
                    assert(marks_of(connected)[row as int].len() == connected@[row as int]@.len());
                    assert(connected@[row as int]@[col as int] == marked(
                        marks_of(connected),
                        neighbor,
                    ));
                    if !connected[row][col] {
                        let ghost marks_before = marks_of(connected);
                        let ghost frontier_before = frontier@;
                        set_mark(&mut connected, row, col);
                        frontier.push(neighbor);
                        proof {
                            let marks = marks_of(connected);
                            lemma_grid_total_update(
                                marks_before,
                                |mark: bool|
                                    if mark {
                                        0nat
                                    } else {
                                        1nat
                                    },
                                row as int,
                                col as int,
                                true,
                            );
                            assert forall|other: GridLocation|
                                grid@.contains(other) implies (#[trigger] marked(marks, other)
                                == (marked(marks_before, other) || other == neighbor)) by {}
                            assert(frontier@[frontier_before.len() as int] == neighbor);
                            assert forall|other: GridLocation|
                                grid@.contains(other) && #[trigger] marked(
                                    marks,
                                    other,
                                ) implies reachable(grid@, *start, other) && frontier@.contains(
                                other,
                            ) by {
                                if other == neighbor {
                                    assert(reachable(grid@, *start, location));
                                    let walk = choose|walk: Seq<GridLocation>|
                                        #[trigger] is_walk(grid@, walk) && walk[0] == *start
                                            && walk.last() == location;
                                    lemma_walk_extends(grid@, walk, direction as int);
                                } else {
                                    assert(marked(marks_before, other));
                                    assert(frontier_before.contains(other));
                                    let k = choose|k: int|
                                        0 <= k < frontier_before.len() && frontier_before[k]
                                            == other;
                                    assert(frontier@[k] == other);
                                }
                            }
                            assert forall|k: int|
                                0 <= k < frontier@.len() implies grid@.contains(
                                #[trigger] frontier@[k],
                            ) && marked(marks, frontier@[k]) by {
                                if k < frontier_before.len() {
                                    assert(frontier@[k] == frontier_before[k]);
                                }
                            }
                            assert forall|k: int, side: int|
                                0 <= k < next && 0 <= side < 6 && exits(grid@, frontier@[k]).side(
                                    side,
                                ) && grid@.contains(
                                    #[trigger] frontier@[k].neighbor(side),
                                ) implies marked(marks, frontier@[k].neighbor(side)) by {
                                assert(frontier@[k] == frontier_before[k]);
                                assert(marked(marks_before, frontier_before[k].neighbor(side)));
                            }
                            assert forall|side: int|
                                0 <= side < direction + 1 && connections.side(side)
                                    && grid@.contains(
                                    #[trigger] location.neighbor(side),
                                ) implies marked(marks, location.neighbor(side)) by {
                                if side < direction {
                                    assert(marked(marks_before, location.neighbor(side)));
                                }
                            }
                        }
                    }
                }
            }
            direction += 1;
        }
        proof {
            assert forall|k: int, side: int|
                0 <= k < next + 1 && 0 <= side < 6 && exits(grid@, frontier@[k]).side(side)
                    && grid@.contains(#[trigger] frontier@[k].neighbor(side)) implies marked(
                marks_of(connected),
                frontier@[k].neighbor(side),
            ) by {
                if k == next {
                    assert(frontier@[k] == location);
                }
            }
        }
        next += 1;
    }
    proof {
        let marks = marks_of(connected);
        assert(marks_closed(grid@, marks)) by {
            assert forall|location: GridLocation, direction: int|
                grid@.contains(location) && marked(marks, location) && 0 <= direction < 6
                    && exits(grid@, location).side(direction) && grid@.contains(
                    #[trigger] location.neighbor(direction),
                ) implies marked(marks, location.neighbor(direction)) by {
                assert(frontier@.contains(location));
                let k = choose|k: int| 0 <= k < frontier@.len() && frontier@[k] == location;
                assert(marked(marks, frontier@[k].neighbor(direction)));
            }
        }
        assert forall|location: GridLocation| grid@.contains(location) implies #[trigger] marked(
            marks,
            location,
        ) == reachable(grid@, *start, location) by {
            if reachable(grid@, *start, location) {
                let walk = choose|walk: Seq<GridLocation>|
                    #[trigger] is_walk(grid@, walk) && walk[0] == *start && walk.last()
                        == location;
                lemma_closed_marks_hold_walk(grid@, marks, walk, walk.len() - 1);
            }
        }
    }
    connected
}

/// The grid in which every cell without a mark that comes before the given
/// row and column in reading order has no possible type left, and every
/// other cell is as in `grid`.
pub open spec fn masked_before(
    grid: GridView<DungeonCellType>,
    marks: Seq<Seq<bool>>,
    row: int,
    col: int,
) -> GridView<DungeonCellType> {
    GridView {
        cells: Seq::new(
            grid.cells.len(),
            |r: int|
                Seq::new(
                    grid.cells[r].len(),
                    |c: int|
                        if (r < row || (r == row && c < col)) && !marks[r][c] {
                            Seq::empty()
                        } else {
                            grid.cells[r][c]
                        },
                ),
        ),
    }
}

/// Removes every possible type from the cells without a mark. The queue is
/// left alone.
pub fn remove_unmarked(
    wfc: &mut WaveFunctionCollapseContext<DungeonCellType>,
    connected: &Vec<Vec<bool>>,
)
    requires
        old(wfc).wf(),
        marks_fit(marks_of(*connected), old(wfc)@.grid),
    ensures
        final(wfc).wf(),
        final(wfc).limits() == old(wfc).limits(),
        final(wfc)@.queue == old(wfc)@.queue,
        final(wfc)@.grid == masked(old(wfc)@.grid, marks_of(*connected)),
{
    let ghost before = wfc@.grid;
    let ghost marks = marks_of(*connected);
    proof {
        wfc.lemma_wf();
        assert(wfc@.grid.cells =~~= masked_before(before, marks, 0, 0).cells);
    }
    let mut row: usize = 0;
    while row < connected.len()
        invariant
            wfc.wf(),
            wfc.limits() == old(wfc).limits(),
            before.wf(),
            marks == marks_of(*connected),
            marks_fit(marks, before),
            row <= connected@.len(),
            wfc@.queue == old(wfc)@.queue,
            wfc@.grid == masked_before(before, marks, row as int, 0),
        decreases connected@.len() - row,
    {
        let mut col: usize = 0;
        while col < connected[row].len()
            invariant
                wfc.wf(),
                wfc.limits() == old(wfc).limits(),
                before.wf(),
                marks == marks_of(*connected),
                marks_fit(marks, before),
                row < connected@.len(),
                col <= connected@[row as int]@.len(),
                wfc@.queue == old(wfc)@.queue,
                wfc@.grid == masked_before(before, marks, row as int, col as int),
            decreases connected@[row as int]@.len() - col,
        {
            assert(marks[row as int].len() == connected@[row as int]@.len());
            if !connected[row][col] {
                let location = GridLocation { row: row as i64, col: col as i64 };
                assert(wfc@.grid.contains(location));
                wfc.set_possible_types(&location, Vec::new());
                assert(wfc@.grid.cells =~~= masked_before(
                    before,
                    marks,
                    row as int,
                    col + 1,
                ).cells);
            } else {
                assert(wfc@.grid.cells =~~= masked_before(
                    before,
                    marks,
                    row as int,
                    col + 1,
                ).cells);
            }
            col += 1;
        }
        assert(marks[row as int].len() == connected@[row as int]@.len());
        assert(wfc@.grid.cells =~~= masked_before(before, marks, row + 1, 0).cells);
        row += 1;
    }
    assert(wfc@.grid.cells =~~= masked(before, marks).cells);
}

/// Marks that tell for every cell whether it can be walked to mask the grid
/// to the cleaned grid.
pub proof fn lemma_masked_is_cleaned(
    grid: GridView<DungeonCellType>,
    marks: Seq<Seq<bool>>,
    start: GridLocation,
)
    requires
        grid.wf(),
        marks_fit(marks, grid),
        forall|location: GridLocation|
            grid.contains(location) ==> #[trigger] marked(marks, location) == reachable(
                grid,
                start,
                location,
            ),
    ensures
        masked(grid, marks) == cleaned(grid, start),
{
    assert forall|row: int, col: int|
        0 <= row < grid.cells.len() && 0 <= col < grid.cells[row].len() implies marks[row][col]
        == reachable(grid, start, GridLocation { row: row as i64, col: col as i64 }) by {
        let location = GridLocation { row: row as i64, col: col as i64 };
        assert(grid.contains(location));
        assert(marked(marks, location) == reachable(grid, start, location));
    }
    assert(masked(grid, marks).cells =~~= cleaned(grid, start).cells);
}

/// The start of a walk up to any of its cells is a walk.
pub proof fn lemma_walk_prefix(grid: GridView<DungeonCellType>, walk: Seq<GridLocation>, index: int)
    requires
        is_walk(grid, walk),
        0 <= index < walk.len(),
    ensures
        is_walk(grid, walk.take(index + 1)),
        reachable(grid, walk[0], walk[index]),
        grid.contains(walk[index]),
{
    let prefix = walk.take(index + 1);
    assert forall|k: int| 0 <= k < prefix.len() - 1 implies leads_to(
        grid,
        #[trigger] prefix[k],
        prefix[k + 1],
    ) by {
        assert(leads_to(grid, walk[k], walk[k + 1]));
    }
    assert(is_walk(grid, prefix));
    assert(prefix[0] == walk[0] && prefix.last() == walk[index]);
    if index > 0 {
        assert(leads_to(grid, walk[index - 1], walk[index - 1 + 1]));
    }
}

/// Cleaning keeps the grid in shape and never lengthens a cell's list.
pub proof fn lemma_cleaned_shape(grid: GridView<DungeonCellType>, start: GridLocation)
    requires
        grid.wf(),
    ensures
        cleaned(grid, start).same_shape(grid),
        cleaned(grid, start).wf(),
        forall|row: int, col: int|
            0 <= row < grid.cells.len() && 0 <= col < grid.cells[row].len() ==> (
            #[trigger] cleaned(grid, start).cells[row][col]).len() <= grid.cells[row][col].len(),
{
    let after = cleaned(grid, start);
    if grid.cells.len() > 0 {
        assert(after.cells[0].len() == grid.cells[0].len());
    }
    assert forall|row: int| 0 <= row < after.cells.len() implies (
    #[trigger] after.cells[row]).len() == after.cols() by {
        assert(grid.cells[row].len() == grid.cols());
    }
}

/// In the cleaned grid every cell that has a possible type left can be
/// walked to from the start, over cells of the cleaned grid, and the cells
/// that could be walked to before are as they were.
pub proof fn lemma_cleaned_is_connected(
    grid: GridView<DungeonCellType>,
    start: GridLocation,
    location: GridLocation,
)
    requires
        grid.wf(),
        grid.contains(location),
    ensures
        cleaned(grid, start).same_shape(grid),
        cleaned(grid, start).wf(),
        reachable(grid, start, location) ==> cleaned(grid, start).types_at(location)
            == grid.types_at(location),
        !reachable(grid, start, location) ==> cleaned(grid, start).types_at(location).len() == 0,
        cleaned(grid, start).types_at(location).len() <= grid.types_at(location).len(),
        cleaned(grid, start).types_at(location).len() > 0 ==> reachable(
            cleaned(grid, start),
            start,
            location,
        ),
{
    let after = cleaned(grid, start);
    assert(after.wf()) by {
        if grid.cells.len() > 0 {
            assert(after.cells[0].len() == grid.cells[0].len());
        }
        assert forall|row: int| 0 <= row < after.cells.len() implies (
        #[trigger] after.cells[row]).len() == after.cols() by {
            assert(grid.cells[row].len() == grid.cols());
        }
    }
    if after.types_at(location).len() > 0 {
        assert(reachable(grid, start, location));
        let walk = choose|walk: Seq<GridLocation>|
            #[trigger] is_walk(grid, walk) && walk[0] == start && walk.last() == location;
        assert forall|index: int| 0 <= index < walk.len() implies after.contains(
            #[trigger] walk[index],
        ) && exits(after, walk[index]) == exits(grid, walk[index]) by {
            lemma_walk_prefix(grid, walk, index);
        }
        assert forall|index: int| 0 <= index < walk.len() - 1 implies leads_to(
            after,
            #[trigger] walk[index],
            walk[index + 1],
        ) by {
            assert(leads_to(grid, walk[index], walk[index + 1]));
            assert(after.contains(walk[index + 1]));
            let direction = choose|direction: int|
                0 <= direction < 6 && exits(grid, walk[index]).side(direction)
                    && #[trigger] walk[index].neighbor(direction) == walk[index + 1];
            assert(exits(after, walk[index]).side(direction) && walk[index].neighbor(direction)
                == walk[index + 1]);
        }
        assert(is_walk(after, walk));
    }
}

} // verus!
