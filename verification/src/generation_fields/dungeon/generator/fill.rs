//! Listing the cells that are still undecided.
use vstd::prelude::*;
use crate::wfc::grid::GridView;
use crate::wfc::grid::HexGrid;
use crate::wfc::location::GridLocation;

verus! {

/// The locations among the first `cols` cells of a row that may still become
/// more than one type, from left to right.
pub open spec fn unsettled_in_row<T>(grid: GridView<T>, row: int, cols: nat) -> Seq<GridLocation>
    decreases cols,
{
    if cols == 0 {
        Seq::empty()
    } else {
        let before = unsettled_in_row(grid, row, (cols - 1) as nat);
        if grid.cells[row][cols - 1].len() > 1 {
            before.push(GridLocation { row: row as i64, col: (cols - 1) as i64 })
        } else {
            before
        }
    }
}

/// The locations in the first `rows` rows that may still become more than
/// one type, in reading order.
pub open spec fn unsettled_in_rows<T>(grid: GridView<T>, rows: nat) -> Seq<GridLocation>
    decreases rows,
{
    if rows == 0 {
        Seq::empty()
    } else {
        unsettled_in_rows(grid, (rows - 1) as nat) + unsettled_in_row(
            grid,
            rows - 1,
            grid.cells[rows - 1].len(),
        )
    }
}

/// The locations of the grid that may still become more than one type, in
/// reading order.
pub open spec fn unsettled_cells<T>(grid: GridView<T>) -> Seq<GridLocation> {
    unsettled_in_rows(grid, grid.cells.len())
}

/// Every location listed for a row lies in that row of the grid and is
/// unsettled.
pub proof fn lemma_unsettled_in_row<T>(grid: GridView<T>, row: int, cols: nat)
    requires
        grid.wf(),
        0 <= row < grid.cells.len(),
        cols <= grid.cells[row].len(),
    ensures
        forall|index: int|
            0 <= index < unsettled_in_row(grid, row, cols).len() ==> grid.contains(
                #[trigger] unsettled_in_row(grid, row, cols)[index],
            ) && !grid.settled_at(unsettled_in_row(grid, row, cols)[index]),
    decreases cols,
{
    if cols > 0 {
        lemma_unsettled_in_row(grid, row, (cols - 1) as nat);
        let before = unsettled_in_row(grid, row, (cols - 1) as nat);
        let listed = unsettled_in_row(grid, row, cols);
        let location = GridLocation { row: row as i64, col: (cols - 1) as i64 };
        assert(grid.cells[row].len() == grid.cols());
        assert forall|index: int| 0 <= index < listed.len() implies grid.contains(
            #[trigger] listed[index],
        ) && !grid.settled_at(listed[index]) by {
            if index < before.len() {
                assert(listed[index] == before[index]);
            } else {
                assert(listed[index] == location);
            }
        }
    }
}

/// Every location listed lies on the grid and is unsettled.
pub proof fn lemma_unsettled_in_rows<T>(grid: GridView<T>, rows: nat)
    requires
        grid.wf(),
        rows <= grid.cells.len(),
    ensures
        forall|index: int|
            0 <= index < unsettled_in_rows(grid, rows).len() ==> grid.contains(
                #[trigger] unsettled_in_rows(grid, rows)[index],
            ) && !grid.settled_at(unsettled_in_rows(grid, rows)[index]),
    decreases rows,
{
    if rows > 0 {
        lemma_unsettled_in_rows(grid, (rows - 1) as nat);
        lemma_unsettled_in_row(grid, rows - 1, grid.cells[rows - 1].len());
        let before = unsettled_in_rows(grid, (rows - 1) as nat);
        let row = unsettled_in_row(grid, rows - 1, grid.cells[rows - 1].len());
        let listed = unsettled_in_rows(grid, rows);
        assert forall|index: int| 0 <= index < listed.len() implies grid.contains(
            #[trigger] listed[index],
        ) && !grid.settled_at(listed[index]) by {
            if index < before.len() {
                assert(listed[index] == before[index]);
            } else {
                assert(listed[index] == row[index - before.len()]);
            }
        }
    }
}

/// The locations of the grid that may still become more than one type, in
/// reading order.
pub fn list_unsettled<T: Copy>(grid: &HexGrid<T>) -> (unsettled: Vec<GridLocation>)
    requires
        grid.wf(),
    ensures
        unsettled@ == unsettled_cells(grid@),
        forall|index: int|
            0 <= index < unsettled@.len() ==> grid@.contains(#[trigger] unsettled@[index])
                && !grid@.settled_at(unsettled@[index]),
{
    let mut unsettled: Vec<GridLocation> = Vec::new();
    let mut row: usize = 0;
    while row < grid.grid.len()
        invariant
            grid.wf(),
            row <= grid.grid@.len(),
            unsettled@ == unsettled_in_rows(grid@, row as nat),
        decreases grid.grid@.len() - row,
    {
        let ghost listed = unsettled@;
        let mut col: usize = 0;
        while col < grid.grid[row].len()
            invariant
                grid.wf(),
                row < grid.grid@.len(),
                col <= grid.grid@[row as int]@.len(),
                unsettled@ == listed + unsettled_in_row(grid@, row as int, col as nat),
            decreases grid.grid@[row as int]@.len() - col,
        {
            if !grid.grid[row][col].is_settled() {
                unsettled.push(GridLocation { row: row as i64, col: col as i64 });
            }
            assert(unsettled@ =~= listed + unsettled_in_row(grid@, row as int, (col + 1) as nat));
            col += 1;
        }
        row += 1;
    }
    proof {
        lemma_unsettled_in_rows(grid@, grid@.cells.len());
    }
    unsettled
}

} // verus!
