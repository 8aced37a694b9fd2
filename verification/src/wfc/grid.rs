//! The grid of cells in superposition.
use vstd::prelude::*;
use crate::wfc::location::GridLocation;
use crate::wfc::totals::grid_total;

verus! {

/// What a grid holds, as mathematics: for each row and column the list of
/// types that the cell there may still become.
pub struct GridView<T> {
    pub cells: Seq<Seq<Seq<T>>>,
}

impl<T> GridView<T> {
    /// The number of rows.
    pub open spec fn rows(self) -> nat {
        self.cells.len()
    }

    /// The number of columns, taken from the first row.
    pub open spec fn cols(self) -> nat {
        if self.cells.len() > 0 {
            self.cells[0].len()
        } else {
            0
        }
    }

    /// Every row has the same number of columns, and both dimensions can be
    /// written as a coordinate.
    pub open spec fn wf(self) -> bool {
        &&& self.rows() <= i64::MAX
        &&& self.cols() <= i64::MAX
        &&& forall|row: int|
            0 <= row < self.cells.len() ==> (#[trigger] self.cells[row]).len() == self.cols()
    }

    /// The location names a cell of the grid.
    pub open spec fn contains(self, location: GridLocation) -> bool {
        &&& 0 <= location.row < self.cells.len()
        &&& 0 <= location.col < self.cells[location.row as int].len()
    }

    /// The types that the cell at `location` may still become.
    pub open spec fn types_at(self, location: GridLocation) -> Seq<T> {
        self.cells[location.row as int][location.col as int]
    }

    /// The grid in which the cell at `location` may become exactly `types`
    /// and every other cell is as before.
    pub open spec fn with_types(self, location: GridLocation, types: Seq<T>) -> GridView<T> {
        GridView {
            cells: self.cells.update(
                location.row as int,
                self.cells[location.row as int].update(location.col as int, types),
            ),
        }
    }

    /// The two grids have the same rows and columns.
    pub open spec fn same_shape(self, other: GridView<T>) -> bool {
        &&& self.cells.len() == other.cells.len()
        &&& forall|row: int|
            0 <= row < self.cells.len() ==> (#[trigger] self.cells[row]).len()
                == other.cells[row].len()
    }

    /// The cell at `location` has been narrowed down to one or no type.
    pub open spec fn settled_at(self, location: GridLocation) -> bool {
        self.types_at(location).len() <= 1
    }

    /// Every cell has been narrowed down to one or no type.
    pub open spec fn is_settled(self) -> bool {
        forall|row: int, col: int|
            0 <= row < self.cells.len() && 0 <= col < self.cells[row].len() ==> (
            #[trigger] self.cells[row][col]).len() <= 1
    }

    /// The number of possible types, summed over all cells.
    pub open spec fn total_possibilities(self) -> nat {
        grid_total(self.cells, |types: Seq<T>| types.len())
    }
}

/// A cell in the process of being generated.
#[derive(Debug, PartialEq, Eq, Clone)]
pub struct PendingCell<TCellType: Copy> {
    /// The remaining possible cell types this could be
    pub possible_types: Vec<TCellType>,
    pub location: GridLocation,
    /// The number of types the cell could become when it was created
    pub max_cell_types: usize,
}

impl<TCellType: Copy> PendingCell<TCellType> {
    /// The cell has been narrowed down to 1 or 0 options
    pub fn is_settled(&self) -> (settled: bool)
        ensures
            settled == (self.possible_types@.len() <= 1),
    {
        self.possible_types.len() <= 1
    }

    /// The cell still has as many options as it was created with
    pub fn is_untouched(&self) -> (untouched: bool)
        ensures
            untouched == (self.possible_types@.len() == self.max_cell_types),
    {
        self.possible_types.len() == self.max_cell_types
    }
}

/// A grid of hexagonal cells
#[derive(Debug, PartialEq, Eq, Clone)]
pub struct HexGrid<TCellType: Copy> {
    pub grid: Vec<Vec<PendingCell<TCellType>>>,
}

/// A cell, or not
pub type MaybeCell<'a, TCellType> = Option<&'a PendingCell<TCellType>>;

impl<TCellType: Copy> View for HexGrid<TCellType> {
    type V = GridView<TCellType>;

    open spec fn view(&self) -> GridView<TCellType> {
        GridView {
            cells: Seq::new(
                self.grid@.len(),
                |row: int|
                    Seq::new(
                        self.grid@[row]@.len(),
                        |col: int| self.grid@[row]@[col].possible_types@,
                    ),
            ),
        }
    }
}

/// A copy of `types`.
pub fn copy_types<TCellType: Copy>(types: &Vec<TCellType>) -> (copy: Vec<TCellType>)
    ensures
        copy@ == types@,
{
    let mut copy: Vec<TCellType> = Vec::new();
    let mut index: usize = 0;
    while index < types.len()
        invariant
            index <= types@.len(),
            copy@ == types@.take(index as int),
        decreases types@.len() - index,
    {
        copy.push(types[index]);
        assert(copy@ =~= types@.take(index + 1));
        index += 1;
    }
    assert(types@.take(types@.len() as int) =~= types@);
    copy
}

impl<TCellType: Copy> HexGrid<TCellType> {
    /// The grid is rectangular and every cell knows where it is.
    pub open spec fn wf(&self) -> bool {
        &&& self@.wf()
        &&& forall|row: int, col: int|
            0 <= row < self.grid@.len() && 0 <= col < self.grid@[row]@.len() ==> (
            #[trigger] self.grid@[row]@[col]).location == (GridLocation {
                row: row as i64,
                col: col as i64,
            })
    }

    /// For each cell the number of types it could become when it was
    /// created.
    pub open spec fn limits(&self) -> Seq<Seq<usize>> {
        Seq::new(
            self.grid@.len(),
            |row: int|
                Seq::new(self.grid@[row]@.len(), |col: int| self.grid@[row]@[col].max_cell_types),
        )
    }

    /// The cell at `location`, which has to lie on the grid.
    pub open spec fn cell(&self, location: GridLocation) -> PendingCell<TCellType> {
        self.grid@[location.row as int]@[location.col as int]
    }

    /// Creates a new HexGrid in which every cell may become any of
    /// `init_types`.
    pub fn new(rows: usize, cols: usize, init_types: &Vec<TCellType>) -> (grid: HexGrid<
        TCellType,
    >)
        requires
            rows <= i64::MAX,
            cols <= i64::MAX,
        ensures
            grid.wf(),
            grid@.cells.len() == rows,
            forall|row: int| 0 <= row < rows ==> (#[trigger] grid@.cells[row]).len() == cols,
            forall|row: int, col: int|
                0 <= row < rows && 0 <= col < cols ==> #[trigger] grid@.cells[row][col]
                    == init_types@,
            forall|row: int, col: int|
                0 <= row < rows && 0 <= col < cols ==> #[trigger] grid.limits()[row][col]
                    == init_types@.len(),
    {
        let mut grid: Vec<Vec<PendingCell<TCellType>>> = Vec::new();
        let mut row: usize = 0;
        while row < rows
            invariant
                row <= rows <= i64::MAX,
                cols <= i64::MAX,
                grid@.len() == row,
                forall|r: int| 0 <= r < row ==> (#[trigger] grid@[r])@.len() == cols,
                forall|r: int, c: int|
                    0 <= r < row && 0 <= c < cols ==> {
                        &&& (#[trigger] grid@[r]@[c]).possible_types@ == init_types@
                        &&& grid@[r]@[c].max_cell_types == init_types@.len()
                        &&& grid@[r]@[c].location == (GridLocation {
                            row: r as i64,
                            col: c as i64,
                        })
                    },
            decreases rows - row,
        {
            let mut cell_row: Vec<PendingCell<TCellType>> = Vec::new();
            let mut col: usize = 0;
            while col < cols
                invariant
                    row < rows <= i64::MAX,
                    col <= cols <= i64::MAX,
                    cell_row@.len() == col,
                    forall|c: int|
                        0 <= c < col ==> {
                            &&& (#[trigger] cell_row@[c]).possible_types@ == init_types@
                            &&& cell_row@[c].max_cell_types == init_types@.len()
                            &&& cell_row@[c].location == (GridLocation {
                                row: row as i64,
                                col: c as i64,
                            })
                        },
                decreases cols - col,
            {
                cell_row.push(
                    PendingCell {
                        possible_types: copy_types(init_types),
                        max_cell_types: init_types.len(),
                        location: GridLocation { row: row as i64, col: col as i64 },
                    },
                );
                col += 1;
            }
            grid.push(cell_row);
            row += 1;
        }
        let grid = HexGrid { grid };
        assert(grid@.wf());
        grid
    }

    /// The row and column of a location on the grid, as indices.
    pub fn index_of(&self, loc: &GridLocation) -> (index: (usize, usize))
        requires
            self@.contains(*loc),
        ensures
            index.0 == loc.row,
            index.1 == loc.col,
            index.0 < self.grid@.len(),
            index.1 < self.grid@[index.0 as int]@.len(),
    {
        assert(self@.cells.len() == self.grid@.len());
        assert(self@.cells[loc.row as int].len() == self.grid@[loc.row as int]@.len());
        let row = loc.row as u64;
        let col = loc.col as u64;
        assert(row < self.grid.len());
        assert(col < self.grid[row as int].len());
        (row as usize, col as usize)
    }

    /// The cell at a location on the grid.
    pub fn cell_at(&self, loc: &GridLocation) -> (cell: &PendingCell<TCellType>)
        requires
            self@.contains(*loc),
        ensures
            *cell == self.cell(*loc),
            cell.possible_types@ == self@.types_at(*loc),
    {
        assert(self@.cells.len() == self.grid@.len());
        assert(self@.cells[loc.row as int].len() == self.grid@[loc.row as int]@.len());
        let row = loc.row as u64;
        let col = loc.col as u64;
        assert(row < self.grid.len());
        assert(col < self.grid[row as int].len());
        &self.grid[row as usize][col as usize]
    }

    /// Replaces the types that the cell at `loc` may become. A location off
    /// the grid changes nothing.
    pub fn set_possible_types(&mut self, loc: &GridLocation, types: Vec<TCellType>)
        ensures
            old(self)@.contains(*loc) ==> final(self)@ == old(self)@.with_types(*loc, types@),
            !old(self)@.contains(*loc) ==> *final(self) == *old(self),
            old(self).wf() ==> final(self).wf(),
            final(self)@.same_shape(old(self)@),
            final(self).limits() == old(self).limits(),
    {
        if loc.row < 0 || loc.col < 0 {
            return ;
        }
        let row = loc.row as u64;
        let col = loc.col as u64;
        if row >= self.grid.len() as u64 {
            return ;
        }
        if col >= self.grid[row as usize].len() as u64 {
            return ;
        }
        self.grid[row as usize][col as usize].possible_types = types;
        assert(self@.cells =~~= old(self)@.with_types(*loc, types@).cells);
        assert(self.limits() =~~= old(self).limits());
    }

    /// Gets a reference to the cell at the given location, or nothing where
    /// the location lies off the grid.
    pub fn get_cell(&self, loc: &GridLocation) -> (cell: MaybeCell<'_, TCellType>)
        ensures
            self@.contains(*loc) ==> cell == Some(&self.cell(*loc)),
            self@.contains(*loc) ==> self.cell(*loc).possible_types@ == self@.types_at(*loc),
            !self@.contains(*loc) ==> cell.is_none(),
    {
        if loc.row < 0 || loc.col < 0 {
            return None;
        }
        let row = loc.row as u64;
        let col = loc.col as u64;
        if row >= self.grid.len() as u64 {
            return None;
        }
        let cells = &self.grid[row as usize];
        if col >= cells.len() as u64 {
            return None;
        }
        Some(&cells[col as usize])
    }
}

} // verus!
