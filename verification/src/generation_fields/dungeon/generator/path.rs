//! The decisions of the walker that forges the path from the start to the
//! entrance of the goal.
use vstd::prelude::*;
use crate::generation_fields::dungeon::cell_type::DungeonCellType;
use crate::generation_fields::dungeon::connections::CellConnections;
use crate::sequences::lemma_filter_take_next;
use crate::wfc::location::GridLocation;

verus! {

/// The distance between two locations: the row distance plus the column
/// distance.
pub open spec fn distance(from: GridLocation, to: GridLocation) -> int {
    (if from.row >= to.row {
        from.row - to.row
    } else {
        to.row - from.row
    }) + (if from.col >= to.col {
        from.col - to.col
    } else {
        to.col - from.col
    })
}

/// The first among the first `count` directions in which the neighbour of
/// `from` is as close to `target` as any of them.
pub open spec fn closest_among(from: GridLocation, target: GridLocation, count: nat) -> int
    decreases count,
{
    if count <= 1 {
        0
    } else {
        let best = closest_among(from, target, (count - 1) as nat);
        if distance(from.neighbor(count - 1), target) < distance(from.neighbor(best), target) {
            count - 1
        } else {
            best
        }
    }
}

/// The first direction in which the neighbour of `from` is as close to
/// `target` as any neighbour.
pub open spec fn closest_direction(from: GridLocation, target: GridLocation) -> int {
    closest_among(from, target, 6)
}

/// The first side on which the connections connect, if any.
pub open spec fn first_side(connections: CellConnections) -> Option<int> {
    if connections.top_left {
        Some(0)
    } else if connections.top_right {
        Some(1)
    } else if connections.right {
        Some(2)
    } else if connections.bottom_right {
        Some(3)
    } else if connections.bottom_left {
        Some(4)
    } else if connections.left {
        Some(5)
    } else {
        None
    }
}

/// The direction in which the path leaves a cell with these possible types:
/// the first side on which the first type, a hall or a room, connects.
/// There is none for a cell without a type, a blocked cell, or a hall or
/// room without a connection.
pub open spec fn leaving_direction(types: Seq<DungeonCellType>) -> Option<int> {
    if types.len() == 0 {
        None
    } else {
        match types[0] {
            DungeonCellType::Blocked => None,
            DungeonCellType::Hall(connections) | DungeonCellType::Room(connections) => first_side(
                connections,
            ),
        }
    }
}

/// Whether a type is a hall that connects on every side of `required`.
pub open spec fn is_hall_with(cell_type: DungeonCellType, required: CellConnections) -> bool {
    match cell_type {
        DungeonCellType::Hall(connections) => required.within(connections),
        _ => false,
    }
}

/// The halls among `types` that connect on every side of `required`, in
/// their order.
pub open spec fn halls_with(types: Seq<DungeonCellType>, required: CellConnections) -> Seq<
    DungeonCellType,
> {
    types.filter(|cell_type: DungeonCellType| is_hall_with(cell_type, required))
}

/// The distance between two locations: the row distance plus the column
/// distance.
pub fn grid_distance(from: &GridLocation, to: &GridLocation) -> (steps: u128)
    ensures
        steps == distance(*from, *to),
{
    let rows: u128 = if from.row >= to.row {
        (from.row as i128 - to.row as i128) as u128
    } else {
        (to.row as i128 - from.row as i128) as u128
    };
    let cols: u128 = if from.col >= to.col {
        (from.col as i128 - to.col as i128) as u128
    } else {
        (to.col as i128 - from.col as i128) as u128
    };
    rows + cols
}

/// The first direction in which the neighbour of `from` is as close to
/// `target` as any neighbour.
pub fn closest_neighbor(from: &GridLocation, target: &GridLocation) -> (direction: usize)
    requires
        from.has_neighbors(),
    ensures
        direction == closest_direction(*from, *target),
        direction < 6,
{
    let neighbors = from.get_neighbors();
    let mut best: usize = 0;
    let mut best_distance = grid_distance(&neighbors[0], target);
    let mut direction: usize = 1;
    while direction < 6
        invariant
            1 <= direction <= 6,
            neighbors@ == from.neighbors(),
            best < direction,
            best == closest_among(*from, *target, direction as nat),
            best_distance == distance(from.neighbor(best as int), *target),
        decreases 6 - direction,
    {
        let here = grid_distance(&neighbors[direction], target);
        if here < best_distance {
            best = direction;
            best_distance = here;
        }
        direction += 1;
    }
    best
}

/// The first side on which the connections connect, if any.
pub fn first_connection(connections: &CellConnections) -> (side: Option<usize>)
    ensures
        match side {
            Some(index) => first_side(*connections) == Some(index as int) && index < 6,
            None => first_side(*connections).is_none(),
        },
{
    if connections.top_left {
        Some(0)
    } else if connections.top_right {
        Some(1)
    } else if connections.right {
        Some(2)
    } else if connections.bottom_right {
        Some(3)
    } else if connections.bottom_left {
        Some(4)
    } else if connections.left {
        Some(5)
    } else {
        None
    }
}

/// The direction in which the path leaves a cell with these possible types,
/// if there is one.
pub fn leaving_side(types: &Vec<DungeonCellType>) -> (side: Option<usize>)
    ensures
        match side {
            Some(index) => leaving_direction(types@) == Some(index as int) && index < 6,
            None => leaving_direction(types@).is_none(),
        },
{
    if types.len() == 0 {
        return None;
    }
    match types[0] {
        DungeonCellType::Blocked => None,
        DungeonCellType::Hall(connections) => first_connection(&connections),
        DungeonCellType::Room(connections) => first_connection(&connections),
    }
}

/// The halls among `types` that connect on every side of `required`, in
/// their order.
pub fn restrict_to_halls(types: &Vec<DungeonCellType>, required: &CellConnections) -> (halls:
    Vec<DungeonCellType>)
    ensures
        halls@ == halls_with(types@, *required),
{
    let ghost keep = |cell_type: DungeonCellType| is_hall_with(cell_type, *required);
    let mut halls: Vec<DungeonCellType> = Vec::new();
    let mut index: usize = 0;
    proof {
        assert(types@.take(0) =~= Seq::<DungeonCellType>::empty());
    }
    while index < types.len()
        invariant
            index <= types@.len(),
            keep == |cell_type: DungeonCellType| is_hall_with(cell_type, *required),
            halls@ == types@.take(index as int).filter(keep),
        decreases types@.len() - index,
    {
        let cell_type = types[index];
        let kept = match cell_type {
            DungeonCellType::Hall(connections) => {
                (!required.top_left || connections.top_left) && (!required.top_right
                    || connections.top_right) && (!required.right || connections.right) && (
                !required.bottom_right || connections.bottom_right) && (!required.bottom_left
                    || connections.bottom_left) && (!required.left || connections.left)
            },
            _ => false,
        };
        proof {
            lemma_filter_take_next(types@, keep, index as int);
        }
        if kept {
            halls.push(cell_type);
        }
        index += 1;
    }
    assert(types@.take(types@.len() as int) =~= types@);
    halls
}

} // verus!
