//! Land, sea and the beach between them.
//!
//! Land touches land and beach, sea touches sea and beach, and a beach
//! touches anything unless land surrounds it, which makes it land.
use vstd::prelude::*;
use crate::sequences::lemma_filter_all;
use crate::sequences::lemma_filter_members;
use crate::sequences::lemma_filter_take_next;
use crate::wfc::grid::copy_types;
use crate::wfc::grid::GridView;
use crate::wfc::grid::HexGrid;
use crate::wfc::location::GridLocation;
use crate::wfc::propagation::WafeFunctionReducer;

verus! {

/// The kinds of terrain.
#[derive(Debug, Eq, Copy, Clone, PartialEq, Structural)]
pub enum CellType {
    Beach,
    Sea,
    Land,
}

/// The neighbour in direction `direction` lies on the grid and is down to
/// `terrain` alone.
pub open spec fn neighbor_is(
    grid: GridView<CellType>,
    location: GridLocation,
    direction: int,
    terrain: CellType,
) -> bool {
    let neighbor = location.neighbor(direction);
    &&& grid.contains(neighbor)
    &&& grid.types_at(neighbor).len() == 1
    &&& grid.types_at(neighbor)[0] == terrain
}

/// Some neighbour is down to `terrain` alone.
pub open spec fn has_neighbor(
    grid: GridView<CellType>,
    location: GridLocation,
    terrain: CellType,
) -> bool {
    exists|direction: int|
        0 <= direction < 6 && #[trigger] neighbor_is(grid, location, direction, terrain)
}

/// All six neighbours lie on the grid and are down to `terrain` alone.
pub open spec fn all_neighbors_are(
    grid: GridView<CellType>,
    location: GridLocation,
    terrain: CellType,
) -> bool {
    forall|direction: int|
        0 <= direction < 6 ==> #[trigger] neighbor_is(grid, location, direction, terrain)
}

/// The two kinds of terrain differ.
pub open spec fn differs(kind: CellType, terrain: CellType) -> bool {
    kind != terrain
}

/// The list without `terrain`.
pub open spec fn without(types: Seq<CellType>, terrain: CellType) -> Seq<CellType> {
    types.filter(|kind: CellType| differs(kind, terrain))
}

/// What the neighbours of a cell are like, as far as the rule asks.
pub struct Surroundings {
    /// Some neighbour is sea alone.
    pub sea_near: bool,
    /// Some neighbour is land alone.
    pub land_near: bool,
    /// Every neighbour is land alone.
    pub land_around: bool,
}

/// The surroundings of the cell at `location`.
pub open spec fn surroundings(grid: GridView<CellType>, location: GridLocation) -> Surroundings {
    Surroundings {
        sea_near: has_neighbor(grid, location, CellType::Sea),
        land_near: has_neighbor(grid, location, CellType::Land),
        land_around: all_neighbors_are(grid, location, CellType::Land),
    }
}

/// Whether the rule changes a cell with these possible types in these
/// surroundings: land next to sea goes, sea next to land goes, and a beach
/// surrounded by land turns into land.
pub open spec fn changes(types: Seq<CellType>, around: Surroundings) -> bool {
    ||| types.contains(CellType::Land) && around.sea_near
    ||| types.contains(CellType::Sea) && around.land_near
    ||| types.contains(CellType::Beach) && around.land_around
}

/// The list after land next to sea and sea next to land have gone and a
/// beach surrounded by land has turned into land.
pub open spec fn ruled(types: Seq<CellType>, around: Surroundings) -> Seq<CellType> {
    let dry = if types.contains(CellType::Land) && around.sea_near {
        without(types, CellType::Land)
    } else {
        types
    };
    let firm = if types.contains(CellType::Sea) && around.land_near {
        without(dry, CellType::Sea)
    } else {
        dry
    };
    if types.contains(CellType::Beach) && around.land_around {
        seq![CellType::Land]
    } else {
        firm
    }
}

/// What the rule leaves of a cell. A cell that the rule has just narrowed
/// to two types follows its neighbours: it becomes land where land was
/// possible and is near, and else sea where sea was possible and is near.
pub open spec fn settled_by_rule(types: Seq<CellType>, around: Surroundings) -> Seq<CellType> {
    let left = ruled(types, around);
    if changes(types, around) && left.len() == 2 {
        if types.contains(CellType::Land) && around.land_near {
            seq![CellType::Land]
        } else if types.contains(CellType::Sea) && around.sea_near {
            seq![CellType::Sea]
        } else {
            left
        }
    } else {
        left
    }
}

/// Twice the length of the list, and one more where a beach is possible.
pub open spec fn terrain_rank(types: Seq<CellType>) -> nat {
    2 * types.len() + if types.contains(CellType::Beach) {
        1nat
    } else {
        0nat
    }
}

/// Where the rule changes a cell, the cell's list gets no longer and ranks
/// lower; where it does not, the list stays as it is.
pub proof fn lemma_rule_narrows(types: Seq<CellType>, around: Surroundings)
    ensures
        settled_by_rule(types, around).len() <= types.len(),
        !changes(types, around) ==> settled_by_rule(types, around) == types,
        changes(types, around) ==> settled_by_rule(types, around) != types && terrain_rank(
            settled_by_rule(types, around),
        ) < terrain_rank(types),
{
    let not_land = |kind: CellType| differs(kind, CellType::Land);
    let not_sea = |kind: CellType| differs(kind, CellType::Sea);
    let dry = if types.contains(CellType::Land) && around.sea_near {
        without(types, CellType::Land)
    } else {
        types
    };
    let firm = if types.contains(CellType::Sea) && around.land_near {
        without(dry, CellType::Sea)
    } else {
        dry
    };
    lemma_filter_all(types, not_land);
    lemma_filter_all(dry, not_sea);
    if types.contains(CellType::Land) && around.sea_near {
        lemma_filter_members(types, not_land, CellType::Land);
        if types.contains(CellType::Sea) {
            lemma_filter_members(types, not_land, CellType::Sea);
        }
    }
    if types.contains(CellType::Sea) && around.land_near {
        lemma_filter_members(dry, not_sea, CellType::Sea);
    }
    let single = seq![CellType::Land];
    assert(single.len() == 1);
    assert(seq![CellType::Sea].len() == 1);
    if types.contains(CellType::Beach) {
        assert(types.len() >= 1);
    }
    if changes(types, around) {
        let after = settled_by_rule(types, around);
        if types.contains(CellType::Beach) && around.land_around {
            assert(after == single);
            assert(!single.contains(CellType::Beach)) by {
                if single.contains(CellType::Beach) {
                    let index = choose|index: int|
                        0 <= index < single.len() && single[index] == CellType::Beach;
                    assert(single[0] == CellType::Land);
                }
            }
        } else {
            assert(firm.len() < types.len());
            assert(after.len() <= firm.len());
        }
    }
}

/// The reducer of the terrain.
#[derive(Debug, PartialEq, Eq, Clone, Copy, Structural)]
pub struct TerrainReducer;

/// Whether `terrain` is one of `types`.
pub fn can_be(types: &Vec<CellType>, terrain: CellType) -> (found: bool)
    ensures
        found == types@.contains(terrain),
{
    let mut index: usize = 0;
    while index < types.len()
        invariant
            index <= types@.len(),
            forall|k: int| 0 <= k < index ==> types@[k] != terrain,
        decreases types@.len() - index,
    {
        if types[index] == terrain {
            return true;
        }
        index += 1;
    }
    false
}

/// The list without `terrain`.
pub fn remove_type(types: &Vec<CellType>, terrain: CellType) -> (left: Vec<CellType>)
    ensures
        left@ == without(types@, terrain),
{
    let ghost keep = |kind: CellType| differs(kind, terrain);
    let mut left: Vec<CellType> = Vec::new();
    let mut index: usize = 0;
    proof {
        assert(types@.take(0) =~= Seq::<CellType>::empty());
    }
    while index < types.len()
        invariant
            index <= types@.len(),
            keep == |kind: CellType| differs(kind, terrain),
            left@ == types@.take(index as int).filter(keep),
        decreases types@.len() - index,
    {
        proof {
            lemma_filter_take_next(types@, keep, index as int);
        }
        if types[index] != terrain {
            left.push(types[index]);
        }
        index += 1;
    }
    assert(types@.take(types@.len() as int) =~= types@);
    left
}

impl TerrainReducer {
    /// For each direction, whether the neighbour of `loc` there is down to
    /// `terrain` alone.
    pub fn neighbors_of_type(loc: &GridLocation, grid: &HexGrid<CellType>, terrain: CellType) -> (
        found: Vec<bool>
    )
        requires
            loc.has_neighbors(),
        ensures
            found@.len() == 6,
            forall|direction: int|
                0 <= direction < 6 ==> #[trigger] found@[direction] == neighbor_is(
                    grid@,
                    *loc,
                    direction,
                    terrain,
                ),
    {
        let neighbors = loc.get_neighbors();
        let mut found: Vec<bool> = Vec::new();
        let mut direction: usize = 0;
        while direction < 6
            invariant
                direction <= 6,
                neighbors@ == loc.neighbors(),
                found@.len() == direction,
                forall|k: int|
                    0 <= k < direction ==> #[trigger] found@[k] == neighbor_is(
                        grid@,
                        *loc,
                        k,
                        terrain,
                    ),
            decreases 6 - direction,
        {
            let is_terrain = match grid.get_cell(&neighbors[direction]) {
                None => false,
                Some(neighbor) => neighbor.possible_types.len() == 1 && neighbor.possible_types[0]
                    == terrain,
            };
            found.push(is_terrain);
            direction += 1;
        }
        found
    }

    /// What the neighbours of the cell at `loc` are like.
    pub fn look_around(loc: &GridLocation, grid: &HexGrid<CellType>) -> (around: (
        bool,
        bool,
        bool,
    ))
        requires
            loc.has_neighbors(),
        ensures
            around.0 == surroundings(grid@, *loc).sea_near,
            around.1 == surroundings(grid@, *loc).land_near,
            around.2 == surroundings(grid@, *loc).land_around,
    {
        let sea = TerrainReducer::neighbors_of_type(loc, grid, CellType::Sea);
        let land = TerrainReducer::neighbors_of_type(loc, grid, CellType::Land);
        let sea_near = sea[0] || sea[1] || sea[2] || sea[3] || sea[4] || sea[5];
        let land_near = land[0] || land[1] || land[2] || land[3] || land[4] || land[5];
        let land_around = land[0] && land[1] && land[2] && land[3] && land[4] && land[5];
        proof {
            assert(sea_near == has_neighbor(grid@, *loc, CellType::Sea)) by {
                if sea_near {
                    let direction: int = if sea@[0] {
                        0
                    } else if sea@[1] {
                        1
                    } else if sea@[2] {
                        2
                    } else if sea@[3] {
                        3
                    } else if sea@[4] {
                        4
                    } else {
                        5
                    };
                    assert(neighbor_is(grid@, *loc, direction, CellType::Sea));
                }
            }
            assert(land_near == has_neighbor(grid@, *loc, CellType::Land)) by {
                if land_near {
                    let direction: int = if land@[0] {
                        0
                    } else if land@[1] {
                        1
                    } else if land@[2] {
                        2
                    } else if land@[3] {
                        3
                    } else if land@[4] {
                        4
                    } else {
                        5
                    };
                    assert(neighbor_is(grid@, *loc, direction, CellType::Land));
                }
            }
            assert(land_around == all_neighbors_are(grid@, *loc, CellType::Land)) by {
                if all_neighbors_are(grid@, *loc, CellType::Land) {
                    assert(neighbor_is(grid@, *loc, 0, CellType::Land));
                    assert(neighbor_is(grid@, *loc, 1, CellType::Land));
                    assert(neighbor_is(grid@, *loc, 2, CellType::Land));
                    assert(neighbor_is(grid@, *loc, 3, CellType::Land));
                    assert(neighbor_is(grid@, *loc, 4, CellType::Land));
                    assert(neighbor_is(grid@, *loc, 5, CellType::Land));
                }
            }
        }
        (sea_near, land_near, land_around)
    }
}

impl WafeFunctionReducer<CellType> for TerrainReducer {
    open spec fn reduced(&self, location: GridLocation, grid: GridView<CellType>) -> Seq<CellType> {
        settled_by_rule(grid.types_at(location), surroundings(grid, location))
    }

    /// The rule shortens a cell's list, or turns a last beach into land.
    open spec fn rank(&self, types: Seq<CellType>) -> nat {
        terrain_rank(types)
    }

    proof fn lemma_reduced_narrows(&self, location: GridLocation, grid: GridView<CellType>) {
        lemma_rule_narrows(grid.types_at(location), surroundings(grid, location));
    }

    fn reduce(&self, loc: &GridLocation, grid: &HexGrid<CellType>) -> (narrowed: Option<
        Vec<CellType>,
    >) {
        let cell = grid.cell_at(loc);
        let (sea_near, land_near, land_around) = TerrainReducer::look_around(loc, grid);
        let could_be_land = can_be(&cell.possible_types, CellType::Land);
        let could_be_sea = can_be(&cell.possible_types, CellType::Sea);
        let could_be_beach = can_be(&cell.possible_types, CellType::Beach);
        let mut possible_types = copy_types(&cell.possible_types);
        let mut changed = false;
        if could_be_land && sea_near {
            possible_types = remove_type(&possible_types, CellType::Land);
            changed = true;
        }
        if could_be_sea && land_near {
            possible_types = remove_type(&possible_types, CellType::Sea);
            changed = true;
        }
        if could_be_beach && land_around {
            possible_types = vec![CellType::Land];
            assert(possible_types@ =~= seq![CellType::Land]);
            changed = true;
        }
        // Land tends to grow more land and sea more sea: a cell that was just
        // narrowed to two types follows its neighbours.
        if changed && possible_types.len() == 2 {
            if could_be_land && land_near {
                possible_types = vec![CellType::Land];
                assert(possible_types@ =~= seq![CellType::Land]);
            } else if could_be_sea && sea_near {
                possible_types = vec![CellType::Sea];
                assert(possible_types@ =~= seq![CellType::Sea]);
            }
        }
        proof {
            lemma_rule_narrows(grid@.types_at(*loc), surroundings(grid@, *loc));
        }
        if changed {
            Some(possible_types)
        } else {
            None
        }
    }
}

} // verus!
