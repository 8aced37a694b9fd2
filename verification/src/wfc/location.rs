//! Grid locations and the six-neighbour adjacency of a hexagonal grid.
//!
//! Rows are laid out so that row 0 sits flush left and every odd-indexed row
//! is shifted half a cell to the right:
//!
//! ```text
//!           / \ / \ / \ / \
//!  Row 0    |0| |1| |2| |3|
//!           \ / \ / \ / \ / \
//!  Row 1     | 0 | 1 | 2 | 3 |
//!           / \ / \ / \ / \ /
//!  Row 2    |0| |1| |2| |3|
//!           \ / \ / \ / \ /
//! ```
//!
//! Directions are numbered clockwise from the upper left: top left (0),
//! top right (1), right (2), bottom right (3), bottom left (4), left (5).
use vstd::prelude::*;

verus! {

/// The number of sides of a cell.
pub const DIRECTIONS: usize = 6;

/// The direction that points back from the neighbour reached in direction
/// `index`.
pub open spec fn opposite_direction(index: int) -> int {
    (index + 3) % 6
}

/// A location on the grid (not a game world coordinate). Coordinates are
/// signed so that the neighbours of border cells, which lie off the grid, can
/// be named.
#[derive(Debug, PartialEq, Eq, Clone, Copy, Structural)]
pub struct GridLocation {
    pub row: i64,
    pub col: i64,
}

impl GridLocation {
    /// Both coordinates leave room for a step of one in either direction.
    pub open spec fn has_neighbors(self) -> bool {
        &&& i64::MIN < self.row < i64::MAX
        &&& i64::MIN < self.col < i64::MAX
    }

    /// The column of the upper-left and lower-left neighbours: one to the
    /// left on even-indexed rows, the same column on odd-indexed rows.
    pub open spec fn left_anchor(self) -> int {
        if self.row % 2 == 0 {
            self.col - 1
        } else {
            self.col as int
        }
    }

    /// The row of the neighbour in direction `index`.
    pub open spec fn neighbor_row(self, index: int) -> int {
        if index == 0 || index == 1 {
            self.row - 1
        } else if index == 3 || index == 4 {
            self.row + 1
        } else {
            self.row as int
        }
    }

    /// The column of the neighbour in direction `index`.
    pub open spec fn neighbor_col(self, index: int) -> int {
        if index == 0 || index == 4 {
            self.left_anchor()
        } else if index == 1 || index == 3 {
            self.left_anchor() + 1
        } else if index == 2 {
            self.col + 1
        } else {
            self.col - 1
        }
    }

    /// The location that touches this one in direction `index`. It may lie
    /// off the grid.
    pub open spec fn neighbor(self, index: int) -> GridLocation {
        GridLocation {
            row: self.neighbor_row(index) as i64,
            col: self.neighbor_col(index) as i64,
        }
    }

    /// The six neighbours in direction order.
    pub open spec fn neighbors(self) -> Seq<GridLocation> {
        Seq::new(6, |index: int| self.neighbor(index))
    }

    /// Creates a new GridLocation
    pub fn new(row: i64, col: i64) -> (location: GridLocation)
        ensures
            location == (GridLocation { row, col }),
    {
        GridLocation { row, col }
    }

    /// Gets the coordinates of all cells that touch this one, in direction
    /// order. These may include coordinates off the map.
    pub fn get_neighbors(&self) -> (neighbors: Vec<GridLocation>)
        requires
            self.has_neighbors(),
        ensures
            neighbors@ == self.neighbors(),
    {
        let left_index: i64 = if self.row % 2 == 0 {
            self.col - 1
        } else {
            self.col
        };
        let neighbors = vec![
            GridLocation::new(self.row - 1, left_index),
            GridLocation::new(self.row - 1, left_index + 1),
            GridLocation::new(self.row, self.col + 1),
            GridLocation::new(self.row + 1, left_index + 1),
            GridLocation::new(self.row + 1, left_index),
            GridLocation::new(self.row, self.col - 1),
        ];
        assert(neighbors@ =~= self.neighbors());
        neighbors
    }
}

/// Adjacency is reciprocal: stepping from a location in some direction and
/// then in the opposite direction leads back to the location.
pub proof fn lemma_neighbor_of_neighbor(location: GridLocation, index: int)
    requires
        0 <= index < 6,
        location.has_neighbors(),
        location.neighbor(index).has_neighbors(),
    ensures
        location.neighbor(index).neighbor(opposite_direction(index)) == location,
{
}

/// The opposite of the opposite direction is the direction itself, and a
/// direction is never its own opposite.
pub proof fn lemma_opposite_direction(index: int)
    requires
        0 <= index < 6,
    ensures
        0 <= opposite_direction(index) < 6,
        opposite_direction(opposite_direction(index)) == index,
        opposite_direction(index) != index,
{
}

} // verus!
