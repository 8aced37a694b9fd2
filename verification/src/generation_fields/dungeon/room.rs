//! Rooms that the generator stamps on the grid.
use vstd::prelude::*;
use crate::generation_fields::dungeon::cell_type::DungeonCellType;
use crate::generation_fields::dungeon::connections::CellConnections;
use crate::wfc::location::GridLocation;

verus! {

/// The different ways rooms can be shaped
#[derive(Debug, Eq, Copy, Clone, PartialEq, Structural)]
pub enum DungeonRoomShape {
    /// A single-cell room
    Single(CellConnections),
    /// A cluster of three cells. Order is peak, bottom left, bottom right
    Cluster3(CellConnections, CellConnections, CellConnections),
}

/// A descriptor for generating a room in the dungeon
#[derive(Debug, Eq, Copy, Clone, PartialEq, Structural)]
pub struct DungeonRoom {
    pub shape: DungeonRoomShape,
    pub location: GridLocation,
}

impl DungeonRoom {
    /// The cells that the room takes up: its own location and, for a cluster,
    /// the neighbours to the bottom left and bottom right.
    pub open spec fn cells(self) -> Seq<GridLocation> {
        match self.shape {
            DungeonRoomShape::Single(_) => seq![self.location],
            DungeonRoomShape::Cluster3(_, _, _) => seq![
                self.location,
                self.location.neighbor(4),
                self.location.neighbor(3),
            ],
        }
    }

    /// The connections of the room's cells, in the order of [`Self::cells`].
    pub open spec fn cell_connections(self) -> Seq<CellConnections> {
        match self.shape {
            DungeonRoomShape::Single(connections) => seq![connections],
            DungeonRoomShape::Cluster3(peak, bottom_left, bottom_right) => seq![
                peak,
                bottom_left,
                bottom_right,
            ],
        }
    }

    /// The single-cell room at `location` with the given connections.
    pub open spec fn single(location: GridLocation, connections: CellConnections) -> DungeonRoom {
        DungeonRoom { shape: DungeonRoomShape::Single(connections), location }
    }
}

/// The room in which the goal lies, small or large. The small one is a
/// single cell that opens to the top left. The large one is a cluster whose
/// peak opens to the top left and to the two cells below it, which in turn
/// open to the peak and to each other.
pub open spec fn goal_room(location: GridLocation, small: bool) -> DungeonRoom {
    if small {
        DungeonRoom::single(
            location,
            CellConnections {
                top_left: true,
                top_right: false,
                right: false,
                bottom_right: false,
                bottom_left: false,
                left: false,
            },
        )
    } else {
        DungeonRoom {
            shape: DungeonRoomShape::Cluster3(
                CellConnections {
                    top_left: true,
                    top_right: false,
                    right: false,
                    bottom_right: true,
                    bottom_left: true,
                    left: false,
                },
                CellConnections {
                    top_left: false,
                    top_right: true,
                    right: true,
                    bottom_right: false,
                    bottom_left: false,
                    left: false,
                },
                CellConnections {
                    top_left: true,
                    top_right: false,
                    right: false,
                    bottom_right: false,
                    bottom_left: false,
                    left: true,
                },
            ),
            location,
        }
    }
}

/// The connection set in which the side in direction `index` is connected
/// and no other.
pub open spec fn single_side(index: int) -> CellConnections {
    CellConnections {
        top_left: index == 0,
        top_right: index == 1,
        right: index == 2,
        bottom_right: index == 3,
        bottom_left: index == 4,
        left: index == 5,
    }
}

/// The connection set in which the sides in directions `first` and `second`
/// are connected and no other.
pub open spec fn two_sides(first: int, second: int) -> CellConnections {
    CellConnections {
        top_left: first == 0 || second == 0,
        top_right: first == 1 || second == 1,
        right: first == 2 || second == 2,
        bottom_right: first == 3 || second == 3,
        bottom_left: first == 4 || second == 4,
        left: first == 5 || second == 5,
    }
}

/// The connection set in which the sides in directions `first` and `second`
/// are connected and no other.
pub fn connect_sides(first: usize, second: usize) -> (connections: CellConnections)
    ensures
        connections == two_sides(first as int, second as int),
{
    CellConnections {
        top_left: first == 0 || second == 0,
        top_right: first == 1 || second == 1,
        right: first == 2 || second == 2,
        bottom_right: first == 3 || second == 3,
        bottom_left: first == 4 || second == 4,
        left: first == 5 || second == 5,
    }
}

/// The types of a cell that is known to be the room with these connections.
pub fn room_types(connections: CellConnections) -> (types: Vec<DungeonCellType>)
    ensures
        types@ == seq![DungeonCellType::Room(connections)],
{
    let types = vec![DungeonCellType::Room(connections)];
    assert(types@ =~= seq![DungeonCellType::Room(connections)]);
    types
}

} // verus!
