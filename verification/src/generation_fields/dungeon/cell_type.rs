//! The tiles of a dungeon and how likely each is to be picked.
use vstd::prelude::*;
use crate::generation_fields::dungeon::connections::lemma_sides_round_trip;
use crate::generation_fields::dungeon::connections::CellConnections;

verus! {

/// The total number of possible dungeon cell types
pub const NUM_POSSIBLE_DUNGEON_CELLS: usize = 129;

/// The unit in which weights are counted: a weight of `w` stands for the
/// probability weight `w / 60`.
pub const WEIGHT_SCALE: u64 = 60;

/// The potential Dungeon cells
#[derive(Debug, Eq, Copy, Clone, PartialEq, Structural)]
pub enum DungeonCellType {
    /// Nothing. Block it off
    Blocked,
    /// A hallway
    Hall(CellConnections),
    /// A room
    Room(CellConnections),
}

impl DungeonCellType {
    /// The sides on which a cell of this type connects; none for a blocked
    /// cell.
    pub open spec fn connections(self) -> CellConnections {
        match self {
            DungeonCellType::Blocked => CellConnections::from_code(0),
            DungeonCellType::Hall(connections) => connections,
            DungeonCellType::Room(connections) => connections,
        }
    }

    /// The place of this type in the list of all types.
    pub open spec fn index(self) -> int {
        match self {
            DungeonCellType::Blocked => 0,
            DungeonCellType::Hall(connections) => 1 + connections.code(),
            DungeonCellType::Room(connections) => 65 + connections.code(),
        }
    }

    /// All types: the blocked cell, then the 64 halls, then the 64 rooms,
    /// halls and rooms ordered by the code of their connections.
    pub open spec fn all_spec() -> Seq<DungeonCellType> {
        Seq::new(
            129,
            |index: int|
                if index == 0 {
                    DungeonCellType::Blocked
                } else if index <= 64 {
                    DungeonCellType::Hall(CellConnections::from_code(index - 1))
                } else {
                    DungeonCellType::Room(CellConnections::from_code(index - 65))
                },
        )
    }

    /// The weight with which this type is picked, in sixtieths. The blocked
    /// cell weighs a tenth. A hall with `k` connections weighs
    /// `(4 - k) / 6 * 7 / 10` and a room `(4 - k) / 6 * 1 / 10`, but with
    /// more than two connections both weigh nothing.
    pub open spec fn weight(self) -> nat {
        match self {
            DungeonCellType::Blocked => 6,
            DungeonCellType::Hall(connections) => if connections.connected_sides() <= 2 {
                (7 * (4 - connections.connected_sides())) as nat
            } else {
                0
            },
            DungeonCellType::Room(connections) => if connections.connected_sides() <= 2 {
                (4 - connections.connected_sides()) as nat
            } else {
                0
            },
        }
    }

    /// The sides on which a cell of this type connects; none for a blocked
    /// cell.
    pub fn get_connections(&self) -> (connections: CellConnections)
        ensures
            connections == self.connections(),
    {
        match self {
            DungeonCellType::Blocked => CellConnections::none(),
            DungeonCellType::Hall(connections) => *connections,
            DungeonCellType::Room(connections) => *connections,
        }
    }

    /// The weight with which this type is picked, in sixtieths.
    pub fn probability_weight(&self) -> (weight: u64)
        ensures
            weight == self.weight(),
            weight <= 28,
    {
        match self {
            DungeonCellType::Blocked => 6,
            DungeonCellType::Hall(connections) => {
                let count = connections.count();
                if count <= 2 {
                    7 * (4 - count as u64)
                } else {
                    0
                }
            },
            DungeonCellType::Room(connections) => {
                let count = connections.count();
                if count <= 2 {
                    4 - count as u64
                } else {
                    0
                }
            },
        }
    }

    /// All possible DungeonCellType variants (including all possible connection directions)
    pub fn all() -> (types: Vec<DungeonCellType>)
        ensures
            types@ == DungeonCellType::all_spec(),
            types@.len() == NUM_POSSIBLE_DUNGEON_CELLS,
    {
        let mut types = vec![DungeonCellType::Blocked];
        let mut halls = all_halls();
        let mut rooms = all_rooms();
        types.append(&mut halls);
        types.append(&mut rooms);
        assert(types@ =~= DungeonCellType::all_spec());
        types
    }
}

/// The 64 halls, ordered by the code of their connections.
pub fn all_halls() -> (halls: Vec<DungeonCellType>)
    ensures
        halls@.len() == 64,
        forall|code: int|
            0 <= code < 64 ==> #[trigger] halls@[code] == DungeonCellType::Hall(
                CellConnections::from_code(code),
            ),
{
    let connections = CellConnections::all_possible();
    let mut halls: Vec<DungeonCellType> = Vec::new();
    let mut code: usize = 0;
    while code < connections.len()
        invariant
            connections@ == CellConnections::all_possible_spec(),
            code <= 64,
            halls@.len() == code,
            forall|k: int|
                0 <= k < code ==> #[trigger] halls@[k] == DungeonCellType::Hall(
                    CellConnections::from_code(k),
                ),
        decreases 64 - code,
    {
        halls.push(DungeonCellType::Hall(connections[code]));
        code += 1;
    }
    halls
}

/// The 64 rooms, ordered by the code of their connections.
pub fn all_rooms() -> (rooms: Vec<DungeonCellType>)
    ensures
        rooms@.len() == 64,
        forall|code: int|
            0 <= code < 64 ==> #[trigger] rooms@[code] == DungeonCellType::Room(
                CellConnections::from_code(code),
            ),
{
    let connections = CellConnections::all_possible();
    let mut rooms: Vec<DungeonCellType> = Vec::new();
    let mut code: usize = 0;
    while code < connections.len()
        invariant
            connections@ == CellConnections::all_possible_spec(),
            code <= 64,
            rooms@.len() == code,
            forall|k: int|
                0 <= k < code ==> #[trigger] rooms@[k] == DungeonCellType::Room(
                    CellConnections::from_code(k),
                ),
        decreases 64 - code,
    {
        rooms.push(DungeonCellType::Room(connections[code]));
        code += 1;
    }
    rooms
}

/// The table of all types with their weights, in the order of
/// [`DungeonCellType::all`].
pub fn cell_probabilities() -> (table: Vec<(DungeonCellType, u64)>)
    ensures
        table@.len() == 129,
        forall|index: int|
            0 <= index < 129 ==> (#[trigger] table@[index]).0 == DungeonCellType::all_spec()[index]
                && table@[index].1 == DungeonCellType::all_spec()[index].weight(),
{
    let types = DungeonCellType::all();
    let mut table: Vec<(DungeonCellType, u64)> = Vec::new();
    let mut index: usize = 0;
    while index < types.len()
        invariant
            types@ == DungeonCellType::all_spec(),
            index <= 129,
            table@.len() == index,
            forall|k: int|
                0 <= k < index ==> (#[trigger] table@[k]).0 == DungeonCellType::all_spec()[k]
                    && table@[k].1 == DungeonCellType::all_spec()[k].weight(),
        decreases 129 - index,
    {
        let cell_type = types[index];
        table.push((cell_type, cell_type.probability_weight()));
        index += 1;
    }
    table
}

/// The sides on which some hall or room among the first `count` of `types`
/// connects.
pub open spec fn connections_among(types: Seq<DungeonCellType>, count: nat) -> CellConnections
    decreases count,
{
    if count == 0 {
        CellConnections::from_code(0)
    } else {
        let before = connections_among(types, (count - 1) as nat);
        let next = types[count - 1].connections();
        CellConnections {
            top_left: before.top_left || next.top_left,
            top_right: before.top_right || next.top_right,
            right: before.right || next.right,
            bottom_right: before.bottom_right || next.bottom_right,
            bottom_left: before.bottom_left || next.bottom_left,
            left: before.left || next.left,
        }
    }
}

/// A side is connected in the union of the first `count` types exactly
/// where one of them connects there.
pub proof fn lemma_connections_among(types: Seq<DungeonCellType>, count: nat, side: int)
    requires
        count <= types.len(),
        0 <= side < 6,
    ensures
        connections_among(types, count).side(side) <==> exists|index: int|
            0 <= index < count && (#[trigger] types[index]).connections().side(side),
    decreases count,
{
    if count > 0 {
        lemma_connections_among(types, (count - 1) as nat, side);
        if connections_among(types, (count - 1) as nat).side(side) {
            let index = choose|index: int|
                0 <= index < count - 1 && (#[trigger] types[index]).connections().side(side);
            assert(0 <= index < count && types[index].connections().side(side));
        }
        if types[count - 1].connections().side(side) {
            assert(0 <= count - 1 < count && types[count - 1].connections().side(side));
        }
    }
}

/// The sides on which a cell with these possible types may still connect:
/// a side is connected where some hall or room among the types connects
/// there.
pub fn possible_connections(types: &Vec<DungeonCellType>) -> (connections: CellConnections)
    ensures
        connections == connections_among(types@, types@.len()),
        forall|side: int|
            0 <= side < 6 ==> (connections.side(side) <==> exists|index: int|
                0 <= index < types@.len() && (#[trigger] types@[index]).connections().side(side)),
{
    let mut total = CellConnections::none().to_vec();
    let mut index: usize = 0;
    while index < types.len()
        invariant
            index <= types@.len(),
            total@ == connections_among(types@, index as nat)@,
        decreases types@.len() - index,
    {
        let sides = types[index].get_connections().to_vec();
        total = CellConnections::or(&total, &sides);
        assert(total@ =~= connections_among(types@, (index + 1) as nat)@);
        index += 1;
    }
    let connections = CellConnections::from_vec(total);
    proof {
        lemma_sides_round_trip(connections_among(types@, types@.len()));
        assert forall|side: int| 0 <= side < 6 implies (connections.side(side) <==> exists|
            index: int,
        |
            0 <= index < types@.len() && (#[trigger] types@[index]).connections().side(side)) by {
            lemma_connections_among(types@, types@.len(), side);
        }
    }
    connections
}

/// Every type stands in the list of all types, at its index.
pub proof fn lemma_all_types_listed(cell_type: DungeonCellType)
    ensures
        0 <= cell_type.index() < 129,
        DungeonCellType::all_spec()[cell_type.index()] == cell_type,
{
}

/// The weights of the table: a type with more than two connections weighs
/// nothing, the blocked cell weighs a tenth, and no weight is above 28
/// sixtieths.
pub proof fn lemma_weights(cell_type: DungeonCellType)
    ensures
        cell_type.connections().connected_sides() > 2 ==> cell_type.weight() == 0,
        DungeonCellType::Blocked.weight() * 10 == WEIGHT_SCALE,
        0 <= cell_type.weight() <= 28,
{
}

} // verus!
