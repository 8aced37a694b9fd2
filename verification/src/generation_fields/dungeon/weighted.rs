//! Picking a type by weight.
//!
//! The candidates are laid side by side in the order of the table of all
//! types, each as wide as its weight, and a number picks the candidate on
//! whose stretch it falls.
use vstd::prelude::*;
use crate::generation_fields::dungeon::cell_type::lemma_all_types_listed;
use crate::generation_fields::dungeon::cell_type::DungeonCellType;
use crate::random::random_in_range;

verus! {

/// The summed weight of those among the first `count` types of the table
/// that are candidates.
pub open spec fn running_total(candidates: Seq<DungeonCellType>, count: nat) -> nat
    decreases count,
{
    if count == 0 {
        0
    } else {
        let entry = DungeonCellType::all_spec()[count - 1];
        running_total(candidates, (count - 1) as nat) + if candidates.contains(entry) {
            entry.weight()
        } else {
            0
        }
    }
}

/// The last candidate among the first `count` types of the table whose
/// stretch starts at or before `draw`; the blocked cell where there is none.
pub open spec fn pick_among(
    candidates: Seq<DungeonCellType>,
    draw: nat,
    count: nat,
) -> DungeonCellType
    decreases count,
{
    if count == 0 {
        DungeonCellType::Blocked
    } else {
        let entry = DungeonCellType::all_spec()[count - 1];
        if candidates.contains(entry) && running_total(candidates, (count - 1) as nat) <= draw {
            entry
        } else {
            pick_among(candidates, draw, (count - 1) as nat)
        }
    }
}

/// The summed weight of all candidates, each counted once.
pub open spec fn total_weight(candidates: Seq<DungeonCellType>) -> nat {
    running_total(candidates, 129)
}

/// The candidate that `draw` picks: the last one in table order whose
/// stretch starts at or before `draw`.
pub open spec fn weighted_choice(candidates: Seq<DungeonCellType>, draw: nat) -> DungeonCellType {
    pick_among(candidates, draw, 129)
}

/// Among the first `count` types of the table either there is no candidate,
/// and then nothing has been summed and the pick is the blocked cell, or the
/// pick is a candidate.
pub proof fn lemma_pick_among_is_candidate(
    candidates: Seq<DungeonCellType>,
    draw: nat,
    count: nat,
)
    requires
        count <= 129,
    ensures
        ({
            &&& running_total(candidates, count) == 0
            &&& pick_among(candidates, draw, count) == DungeonCellType::Blocked
            &&& forall|index: int|
                0 <= index < count ==> !candidates.contains(
                    #[trigger] DungeonCellType::all_spec()[index],
                )
        }) || candidates.contains(pick_among(candidates, draw, count)),
    decreases count,
{
    if count > 0 {
        lemma_pick_among_is_candidate(candidates, draw, (count - 1) as nat);
    }
}

/// Where there is a candidate at all, the pick is one of the candidates.
pub proof fn lemma_weighted_choice_is_candidate(candidates: Seq<DungeonCellType>, draw: nat)
    requires
        candidates.len() > 0,
    ensures
        candidates.contains(weighted_choice(candidates, draw)),
{
    lemma_pick_among_is_candidate(candidates, draw, 129);
    lemma_all_types_listed(candidates[0]);
    assert(candidates.contains(candidates[0]));
}

/// Whether `cell_type` is one of `candidates`.
pub fn is_candidate(candidates: &Vec<DungeonCellType>, cell_type: &DungeonCellType) -> (found:
    bool)
    ensures
        found == candidates@.contains(*cell_type),
{
    let mut index: usize = 0;
    while index < candidates.len()
        invariant
            index <= candidates@.len(),
            forall|k: int| 0 <= k < index ==> candidates@[k] != *cell_type,
        decreases candidates@.len() - index,
    {
        if candidates[index] == *cell_type {
            return true;
        }
        index += 1;
    }
    false
}

/// The summed weight of the candidates, each counted once.
pub fn total_weight_of(candidates: &Vec<DungeonCellType>) -> (total: u64)
    ensures
        total == total_weight(candidates@),
        total <= 3612,
{
    let table = DungeonCellType::all();
    let mut total: u64 = 0;
    let mut index: usize = 0;
    while index < table.len()
        invariant
            table@ == DungeonCellType::all_spec(),
            index <= 129,
            total == running_total(candidates@, index as nat),
            total <= 28 * index,
        decreases 129 - index,
    {
        let entry = table[index];
        if is_candidate(candidates, &entry) {
            total += entry.probability_weight();
        }
        index += 1;
    }
    total
}

/// The candidate that `draw` picks: the last one in table order whose
/// stretch starts at or before `draw`. Without candidates the pick is the
/// blocked cell.
pub fn weighted_pick(candidates: &Vec<DungeonCellType>, draw: u64) -> (picked: DungeonCellType)
    ensures
        picked == weighted_choice(candidates@, draw as nat),
        candidates@.len() > 0 ==> candidates@.contains(picked),
{
    let table = DungeonCellType::all();
    let mut picked = DungeonCellType::Blocked;
    let mut start: u64 = 0;
    let mut index: usize = 0;
    while index < table.len()
        invariant
            table@ == DungeonCellType::all_spec(),
            index <= 129,
            start == running_total(candidates@, index as nat),
            start <= 28 * index,
            picked == pick_among(candidates@, draw as nat, index as nat),
        decreases 129 - index,
    {
        let entry = table[index];
        if is_candidate(candidates, &entry) {
            if start <= draw {
                picked = entry;
            }
            start += entry.probability_weight();
        }
        index += 1;
    }
    proof {
        if candidates@.len() > 0 {
            lemma_weighted_choice_is_candidate(candidates@, draw as nat);
        }
    }
    picked
}

/// A random number that picks one of the possible types by weight: a number
/// below the summed weight of the types. Where there are fewer than two
/// types nothing is drawn and the number is zero.
pub fn random_weight_draw(possible_types: &Vec<DungeonCellType>) -> (draw: u64)
    ensures
        draw == 0 || draw < total_weight(possible_types@),
        possible_types@.len() < 2 ==> draw == 0,
{
    if possible_types.len() > 1 {
        random_in_range(0, total_weight_of(possible_types))
    } else {
        0
    }
}

/// Picks one of the possible types at random, by weight. Without a possible
/// type the pick is the blocked cell, and a single possible type is picked
/// without a draw.
pub fn get_random_cell_type(possible_types: &Vec<DungeonCellType>) -> (picked:
    DungeonCellType)
    ensures
        possible_types@.len() == 0 ==> picked == DungeonCellType::Blocked,
        possible_types@.len() > 0 ==> possible_types@.contains(picked),
        exists|draw: nat|
            picked == weighted_choice(possible_types@, draw) && (draw < total_weight(
                possible_types@,
            ) || draw == 0),
{
    let draw = random_weight_draw(possible_types);
    let picked = weighted_pick(possible_types, draw);
    proof {
        if possible_types@.len() == 0 {
            lemma_pick_among_is_candidate(possible_types@, draw as nat, 129);
        }
        assert(picked == weighted_choice(possible_types@, draw as nat) && (draw < total_weight(
            possible_types@,
        ) || draw == 0));
    }
    picked
}

} // verus!
