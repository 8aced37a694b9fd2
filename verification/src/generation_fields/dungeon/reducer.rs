//! The rule of the dungeon: cells connect to each other or to nothing.
//!
//! A cell that is down to one type tells its neighbours what they have to
//! do: a hall or room that opens towards a neighbour requires the neighbour
//! to open towards it, and everything else (a blocked cell, a cell without
//! any possible type, the edge of the grid, a hall or room with a wall on
//! that side) bans the connection. A neighbour that is still undecided asks
//! for nothing.
use vstd::prelude::*;
use crate::generation_fields::dungeon::cell_type::DungeonCellType;
use crate::generation_fields::dungeon::connections::CellConnections;
use crate::sequences::lemma_filter_all;
use crate::sequences::lemma_filter_take_next;
use crate::wfc::grid::copy_types;
use crate::wfc::grid::GridView;
use crate::wfc::grid::HexGrid;
use crate::wfc::location::opposite_direction;
use crate::wfc::location::GridLocation;
use crate::wfc::propagation::WafeFunctionReducer;

verus! {

/// What a neighbour asks of the side that faces it.
#[derive(Debug, PartialEq, Eq, Clone, Copy, Structural)]
pub enum RequirementStatus {
    /// The side has to connect.
    Required,
    /// The side must not connect.
    Banned,
    /// The side may do either.
    Neutral,
}

/// What the possible types of a neighbour ask of the side that faces the
/// neighbour in direction `direction`; `None` stands for a neighbour off the
/// grid.
pub open spec fn requirement_of(
    neighbor_types: Option<Seq<DungeonCellType>>,
    direction: int,
) -> RequirementStatus {
    match neighbor_types {
        None => RequirementStatus::Banned,
        Some(types) => if types.len() > 1 {
            RequirementStatus::Neutral
        } else if types.len() == 0 {
            RequirementStatus::Banned
        } else {
            match types[0] {
                DungeonCellType::Blocked => RequirementStatus::Banned,
                DungeonCellType::Hall(connections) | DungeonCellType::Room(connections) => if connections.side(
                    opposite_direction(direction),
                ) {
                    RequirementStatus::Required
                } else {
                    RequirementStatus::Banned
                },
            }
        },
    }
}

/// What the neighbour in direction `direction` asks of the cell at
/// `location`.
pub open spec fn requirement(
    grid: GridView<DungeonCellType>,
    location: GridLocation,
    direction: int,
) -> RequirementStatus {
    let neighbor = location.neighbor(direction);
    if grid.contains(neighbor) {
        requirement_of(Some(grid.types_at(neighbor)), direction)
    } else {
        requirement_of(None, direction)
    }
}

/// What the six neighbours ask of the cell at `location`, in direction
/// order.
pub open spec fn requirements(grid: GridView<DungeonCellType>, location: GridLocation) -> Seq<
    RequirementStatus,
> {
    Seq::new(6, |direction: int| requirement(grid, location, direction))
}

/// The connections meet what is asked of each side.
pub open spec fn permits(asked: Seq<RequirementStatus>, connections: CellConnections) -> bool {
    forall|direction: int|
        0 <= direction < 6 ==> match #[trigger] asked[direction] {
            RequirementStatus::Required => connections.side(direction),
            RequirementStatus::Banned => !connections.side(direction),
            RequirementStatus::Neutral => true,
        }
}

/// A connection is required on some side.
pub open spec fn any_required(asked: Seq<RequirementStatus>) -> bool {
    exists|direction: int|
        0 <= direction < 6 && #[trigger] asked[direction] == RequirementStatus::Required
}

/// A connection is banned on every side.
pub open spec fn all_banned(asked: Seq<RequirementStatus>) -> bool {
    forall|direction: int|
        0 <= direction < 6 ==> #[trigger] asked[direction] == RequirementStatus::Banned
}

/// Whether a type survives what is asked: the blocked cell where nothing is
/// required, a hall or room where its connections meet what is asked.
pub open spec fn survives(asked: Seq<RequirementStatus>, cell_type: DungeonCellType) -> bool {
    match cell_type {
        DungeonCellType::Blocked => !any_required(asked),
        DungeonCellType::Hall(connections) | DungeonCellType::Room(connections) => permits(
            asked,
            connections,
        ),
    }
}

/// What is left of `types` under what is asked. A list of one or no type
/// stays as it is. Where every side is banned, the blocked cell is all that
/// is left. Otherwise the types that survive are left, in their order.
pub open spec fn narrowed(types: Seq<DungeonCellType>, asked: Seq<RequirementStatus>) -> Seq<
    DungeonCellType,
> {
    if types.len() <= 1 {
        types
    } else if all_banned(asked) {
        seq![DungeonCellType::Blocked]
    } else {
        types.filter(|cell_type: DungeonCellType| survives(asked, cell_type))
    }
}

/// The reducer of the dungeon.
#[derive(Debug, PartialEq, Eq, Clone, Copy, Structural)]
pub struct DungeonReducer;

impl DungeonReducer {
    /// What the neighbour in direction `direction` asks of the cell at `loc`.
    pub fn requirement_status(
        loc: &GridLocation,
        grid: &HexGrid<DungeonCellType>,
        neighbor: &GridLocation,
        direction: usize,
    ) -> (status: RequirementStatus)
        requires
            direction < 6,
            *neighbor == loc.neighbor(direction as int),
        ensures
            status == requirement(grid@, *loc, direction as int),
    {
        match grid.get_cell(neighbor) {
            None => RequirementStatus::Banned,
            Some(cell) => {
                let other_types = &cell.possible_types;
                if other_types.len() > 1 {
                    RequirementStatus::Neutral
                } else if other_types.len() == 0 {
                    RequirementStatus::Banned
                } else {
                    match other_types[0] {
                        DungeonCellType::Blocked => RequirementStatus::Banned,
                        DungeonCellType::Hall(connections)
                        | DungeonCellType::Room(connections) => {
                            if connections.connects(CellConnections::opposite_index(direction)) {
                                RequirementStatus::Required
                            } else {
                                RequirementStatus::Banned
                            }
                        },
                    }
                }
            },
        }
    }

    /// What the six neighbours ask of the cell at `loc`, in direction order.
    pub fn required_connections(loc: &GridLocation, grid: &HexGrid<DungeonCellType>) -> (asked:
        Vec<RequirementStatus>)
        requires
            loc.has_neighbors(),
        ensures
            asked@ == requirements(grid@, *loc),
    {
        let neighbor_locations = loc.get_neighbors();
        let mut asked: Vec<RequirementStatus> = Vec::new();
        let mut direction: usize = 0;
        while direction < 6
            invariant
                direction <= 6,
                neighbor_locations@ == loc.neighbors(),
                asked@.len() == direction,
                forall|k: int|
                    0 <= k < direction ==> #[trigger] asked@[k] == requirement(grid@, *loc, k),
            decreases 6 - direction,
        {
            let status = DungeonReducer::requirement_status(
                loc,
                grid,
                &neighbor_locations[direction],
                direction,
            );
            asked.push(status);
            direction += 1;
        }
        assert(asked@ =~= requirements(grid@, *loc));
        asked
    }

    /// Whether a connection is required on some side.
    pub fn must_connect(asked: &Vec<RequirementStatus>) -> (required: bool)
        requires
            asked@.len() == 6,
        ensures
            required == any_required(asked@),
    {
        let mut direction: usize = 0;
        while direction < 6
            invariant
                direction <= 6,
                asked@.len() == 6,
                forall|k: int|
                    0 <= k < direction ==> #[trigger] asked@[k] != RequirementStatus::Required,
            decreases 6 - direction,
        {
            if asked[direction] == RequirementStatus::Required {
                return true;
            }
            direction += 1;
        }
        false
    }

    /// Whether a connection is banned on every side.
    pub fn nothing_may_connect(asked: &Vec<RequirementStatus>) -> (banned: bool)
        requires
            asked@.len() == 6,
        ensures
            banned == all_banned(asked@),
    {
        let mut direction: usize = 0;
        while direction < 6
            invariant
                direction <= 6,
                asked@.len() == 6,
                forall|k: int|
                    0 <= k < direction ==> #[trigger] asked@[k] == RequirementStatus::Banned,
            decreases 6 - direction,
        {
            if asked[direction] != RequirementStatus::Banned {
                return false;
            }
            direction += 1;
        }
        true
    }

    /// Whether the connections meet what is asked of each side.
    pub fn require_connections(asked: &Vec<RequirementStatus>, connections: &CellConnections) -> (
        permitted: bool
    )
        requires
            asked@.len() == 6,
        ensures
            permitted == permits(asked@, *connections),
    {
        let mut direction: usize = 0;
        while direction < 6
            invariant
                direction <= 6,
                asked@.len() == 6,
                forall|k: int|
                    0 <= k < direction ==> match #[trigger] asked@[k] {
                        RequirementStatus::Required => connections.side(k),
                        RequirementStatus::Banned => !connections.side(k),
                        RequirementStatus::Neutral => true,
                    },
            decreases 6 - direction,
        {
            let connected = connections.connects(direction);
            let met = match asked[direction] {
                RequirementStatus::Required => connected,
                RequirementStatus::Banned => !connected,
                RequirementStatus::Neutral => true,
            };
            if !met {
                return false;
            }
            direction += 1;
        }
        true
    }

    /// The rules passed to the WFC solver: what is left of the possible types
    /// of the cell at `loc` under what its neighbours ask.
    pub fn collapse_cell(loc: &GridLocation, grid: &HexGrid<DungeonCellType>) -> (left: Vec<
        DungeonCellType,
    >)
        requires
            grid.wf(),
            grid@.contains(*loc),
        ensures
            left@ == narrowed(grid@.types_at(*loc), requirements(grid@, *loc)),
    {
        let cell = grid.cell_at(loc);
        let initial_option_count = cell.possible_types.len();
        if initial_option_count <= 1 {
            return copy_types(&cell.possible_types);
        }
        let required_connections = DungeonReducer::required_connections(loc, grid);
        let ghost asked = requirements(grid@, *loc);
        let must_connect_to_something = DungeonReducer::must_connect(&required_connections);
        if DungeonReducer::nothing_may_connect(&required_connections) {
            let left = vec![DungeonCellType::Blocked];
            assert(left@ =~= seq![DungeonCellType::Blocked]);
            return left;
        }
        let ghost survivor = |cell_type: DungeonCellType| survives(asked, cell_type);
        let mut left: Vec<DungeonCellType> = Vec::new();
        let mut index: usize = 0;
        proof {
            assert(cell.possible_types@.take(0) =~= Seq::<DungeonCellType>::empty());
        }
        while index < cell.possible_types.len()
            invariant
                index <= cell.possible_types@.len(),
                required_connections@ == asked,
                asked.len() == 6,
                must_connect_to_something == any_required(asked),
                survivor == |cell_type: DungeonCellType| survives(asked, cell_type),
                left@ == cell.possible_types@.take(index as int).filter(survivor),
            decreases cell.possible_types@.len() - index,
        {
            let cell_type = cell.possible_types[index];
            let keep = match cell_type {
                DungeonCellType::Blocked => !must_connect_to_something,
                DungeonCellType::Hall(connections) => DungeonReducer::require_connections(
                    &required_connections,
                    &connections,
                ),
                DungeonCellType::Room(connections) => DungeonReducer::require_connections(
                    &required_connections,
                    &connections,
                ),
            };
            proof {
                lemma_filter_take_next(cell.possible_types@, survivor, index as int);
            }
            if keep {
                left.push(cell_type);
            }
            index += 1;
        }
        assert(cell.possible_types@.take(cell.possible_types@.len() as int)
            =~= cell.possible_types@);
        left
    }
}

impl WafeFunctionReducer<DungeonCellType> for DungeonReducer {
    open spec fn reduced(
        &self,
        location: GridLocation,
        grid: GridView<DungeonCellType>,
    ) -> Seq<DungeonCellType> {
        narrowed(grid.types_at(location), requirements(grid, location))
    }

    /// A list ranks by its length: the reducer changes a cell only by
    /// shortening its list.
    open spec fn rank(&self, types: Seq<DungeonCellType>) -> nat {
        types.len()
    }

    proof fn lemma_reduced_narrows(&self, location: GridLocation, grid: GridView<DungeonCellType>) {
        let asked = requirements(grid, location);
        lemma_filter_all(
            grid.types_at(location),
            |cell_type: DungeonCellType| survives(asked, cell_type),
        );
    }

    fn reduce(&self, loc: &GridLocation, grid: &HexGrid<DungeonCellType>) -> (narrowed: Option<
        Vec<DungeonCellType>,
    >) {
        let left = DungeonReducer::collapse_cell(loc, grid);
        proof {
            self.lemma_reduced_narrows(*loc, grid@);
        }
        if left.len() < grid.cell_at(loc).possible_types.len() {
            Some(left)
        } else {
            None
        }
    }
}

/// What the reducer leaves of an undecided cell agrees with each decided
/// neighbour: a type that is left connects towards a neighbour exactly
/// where that neighbour, down to one hall or room, connects back, and
/// connects towards nothing that is blocked, without a possible type, or
/// off the grid.
pub proof fn lemma_narrowed_agrees_with_neighbors(
    grid: GridView<DungeonCellType>,
    location: GridLocation,
    index: int,
    direction: int,
)
    requires
        grid.contains(location),
        grid.types_at(location).len() >= 2,
        0 <= direction < 6,
        0 <= index < narrowed(grid.types_at(location), requirements(grid, location)).len(),
    ensures
        ({
            let left = narrowed(grid.types_at(location), requirements(grid, location))[index];
            let neighbor = location.neighbor(direction);
            &&& !grid.contains(neighbor) ==> !left.connections().side(direction)
            &&& grid.contains(neighbor) && grid.types_at(neighbor).len() == 0
                ==> !left.connections().side(direction)
            &&& grid.contains(neighbor) && grid.types_at(neighbor).len() == 1
                ==> left.connections().side(direction) == grid.types_at(
                neighbor,
            )[0].connections().side(opposite_direction(direction))
        }),
{
    let asked = requirements(grid, location);
    let types = grid.types_at(location);
    assert(asked[direction] == requirement(grid, location, direction));
    if !all_banned(asked) {
        lemma_filter_all(types, |cell_type: DungeonCellType| survives(asked, cell_type));
        let left = narrowed(types, asked)[index];
        assert(survives(asked, left));
    }
}

} // verus!
