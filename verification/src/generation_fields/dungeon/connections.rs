//! The six-sided connection set of a dungeon cell.
use vstd::prelude::*;
use crate::sequences::lemma_filter_take_next;
use crate::wfc::location::opposite_direction;

verus! {

/// Whether the cells at each of the six neighbors connect
#[derive(Debug, Eq, Copy, Clone, PartialEq, Structural)]
pub struct CellConnections {
    pub top_left: bool,
    pub top_right: bool,
    pub right: bool,
    pub bottom_right: bool,
    pub bottom_left: bool,
    pub left: bool,
}

/// One if the side is connected, zero otherwise.
pub open spec fn side_count(connected: bool) -> nat {
    if connected {
        1
    } else {
        0
    }
}

impl View for CellConnections {
    type V = Seq<bool>;

    /// The six sides in direction order.
    open spec fn view(&self) -> Seq<bool> {
        seq![
            self.top_left,
            self.top_right,
            self.right,
            self.bottom_right,
            self.bottom_left,
            self.left,
        ]
    }
}

impl CellConnections {
    pub const TOP_LEFT: usize = 0;

    pub const TOP_RIGHT: usize = 1;

    pub const RIGHT: usize = 2;

    pub const BOTTOM_RIGHT: usize = 3;

    pub const BOTTOM_LEFT: usize = 4;

    pub const LEFT: usize = 5;

    /// Whether the side in direction `index` is connected.
    pub open spec fn side(self, index: int) -> bool {
        if index == 0 {
            self.top_left
        } else if index == 1 {
            self.top_right
        } else if index == 2 {
            self.right
        } else if index == 3 {
            self.bottom_right
        } else if index == 4 {
            self.bottom_left
        } else {
            index == 5 && self.left
        }
    }

    /// The number of connected sides.
    pub open spec fn connected_sides(self) -> nat {
        side_count(self.top_left) + side_count(self.top_right) + side_count(self.right)
            + side_count(self.bottom_right) + side_count(self.bottom_left) + side_count(
            self.left,
        )
    }

    /// The connection set whose sides are the first six entries of `sides`.
    pub open spec fn from_seq(sides: Seq<bool>) -> CellConnections {
        CellConnections {
            top_left: sides[0],
            top_right: sides[1],
            right: sides[2],
            bottom_right: sides[3],
            bottom_left: sides[4],
            left: sides[5],
        }
    }

    /// The connection set whose side `i` is bit `i` of `code`.
    pub open spec fn from_code(code: int) -> CellConnections {
        CellConnections {
            top_left: code % 2 == 1,
            top_right: (code / 2) % 2 == 1,
            right: (code / 4) % 2 == 1,
            bottom_right: (code / 8) % 2 == 1,
            bottom_left: (code / 16) % 2 == 1,
            left: (code / 32) % 2 == 1,
        }
    }

    /// The six-bit number whose bit `i` is side `i`.
    pub open spec fn code(self) -> int {
        (side_count(self.top_left) + 2 * side_count(self.top_right) + 4 * side_count(self.right)
            + 8 * side_count(self.bottom_right) + 16 * side_count(self.bottom_left) + 32
            * side_count(self.left)) as int
    }

    /// All 64 connection sets, ordered by their code.
    pub open spec fn all_possible_spec() -> Seq<CellConnections> {
        Seq::new(64, |code: int| CellConnections::from_code(code))
    }

    /// Every side that `self` connects is also connected in `other`.
    pub open spec fn within(self, other: CellConnections) -> bool {
        &&& self.top_left ==> other.top_left
        &&& self.top_right ==> other.top_right
        &&& self.right ==> other.right
        &&& self.bottom_right ==> other.bottom_right
        &&& self.bottom_left ==> other.bottom_left
        &&& self.left ==> other.left
    }

    /// No side is connected in both `self` and `other`.
    pub open spec fn avoids(self, other: CellConnections) -> bool {
        &&& !(self.top_left && other.top_left)
        &&& !(self.top_right && other.top_right)
        &&& !(self.right && other.right)
        &&& !(self.bottom_right && other.bottom_right)
        &&& !(self.bottom_left && other.bottom_left)
        &&& !(self.left && other.left)
    }

    pub fn new(
        top_left: bool,
        top_right: bool,
        right: bool,
        bottom_right: bool,
        bottom_left: bool,
        left: bool,
    ) -> (connections: CellConnections)
        ensures
            connections == (CellConnections {
                top_left,
                top_right,
                right,
                bottom_right,
                bottom_left,
                left,
            }),
    {
        CellConnections { top_left, top_right, right, bottom_right, bottom_left, left }
    }

    /// The number of connections
    pub fn count(&self) -> (count: usize)
        ensures
            count == self.connected_sides(),
            count <= 6,
    {
        let mut count: usize = 0;
        if self.top_left {
            count += 1;
        }
        if self.top_right {
            count += 1;
        }
        if self.right {
            count += 1;
        }
        if self.bottom_right {
            count += 1;
        }
        if self.bottom_left {
            count += 1;
        }
        if self.left {
            count += 1;
        }
        count
    }

    /// Switch from the standard vector representation to the struct version
    pub fn from_vec(vec: Vec<bool>) -> (connections: CellConnections)
        requires
            vec@.len() >= 6,
        ensures
            connections == CellConnections::from_seq(vec@),
    {
        CellConnections {
            top_left: vec[CellConnections::TOP_LEFT],
            top_right: vec[CellConnections::TOP_RIGHT],
            right: vec[CellConnections::RIGHT],
            bottom_right: vec[CellConnections::BOTTOM_RIGHT],
            bottom_left: vec[CellConnections::BOTTOM_LEFT],
            left: vec[CellConnections::LEFT],
        }
    }

    /// Initialize connected to everything
    pub fn all() -> (connections: CellConnections)
        ensures
            forall|index: int| 0 <= index < 6 ==> connections.side(index),
            connections == CellConnections::from_code(63),
    {
        CellConnections {
            top_left: true,
            top_right: true,
            right: true,
            bottom_right: true,
            bottom_left: true,
            left: true,
        }
    }

    /// Initialize connected to nothing
    pub fn none() -> (connections: CellConnections)
        ensures
            forall|index: int| !connections.side(index),
            connections == CellConnections::from_code(0),
    {
        CellConnections {
            top_left: false,
            top_right: false,
            right: false,
            bottom_right: false,
            bottom_left: false,
            left: false,
        }
    }

    /// Convert to a vector
    pub fn to_vec(&self) -> (sides: Vec<bool>)
        ensures
            sides@ == self@,
    {
        let sides = vec![
            self.top_left,
            self.top_right,
            self.right,
            self.bottom_right,
            self.bottom_left,
            self.left,
        ];
        assert(sides@ =~= self@);
        sides
    }

    /// Whether the side in direction `index` is connected; no side lies in a
    /// direction past the sixth.
    pub fn connects(&self, index: usize) -> (connected: bool)
        ensures
            connected == self.side(index as int),
    {
        if index == 0 {
            self.top_left
        } else if index == 1 {
            self.top_right
        } else if index == 2 {
            self.right
        } else if index == 3 {
            self.bottom_right
        } else if index == 4 {
            self.bottom_left
        } else {
            index == 5 && self.left
        }
    }

    /// Generates all possible combinations of cell connections
    pub fn all_possible() -> (all: Vec<CellConnections>)
        ensures
            all@ == CellConnections::all_possible_spec(),
    {
        let mut all: Vec<CellConnections> = Vec::new();
        let mut num: u8 = 0;
        while num < 64
            invariant
                num <= 64,
                all@.len() == num,
                forall|code: int|
                    0 <= code < num ==> all@[code] == #[trigger] CellConnections::from_code(code),
            decreases 64 - num,
        {
            assert((num & 0b00000001) != 0 <==> num % 2 == 1) by (bit_vector);
            assert((num & 0b00000010) != 0 <==> (num / 2) % 2 == 1) by (bit_vector);
            assert((num & 0b00000100) != 0 <==> (num / 4) % 2 == 1) by (bit_vector);
            assert((num & 0b00001000) != 0 <==> (num / 8) % 2 == 1) by (bit_vector);
            assert((num & 0b00010000) != 0 <==> (num / 16) % 2 == 1) by (bit_vector);
            assert((num & 0b00100000) != 0 <==> (num / 32) % 2 == 1) by (bit_vector);
            all.push(
                CellConnections {
                    top_left: (num & 0b00000001) != 0,
                    top_right: (num & 0b00000010) != 0,
                    right: (num & 0b00000100) != 0,
                    bottom_right: (num & 0b00001000) != 0,
                    bottom_left: (num & 0b00010000) != 0,
                    left: (num & 0b00100000) != 0,
                },
            );
            num += 1;
        }
        assert(all@ =~= CellConnections::all_possible_spec());
        all
    }

    /// All combinations of cell connections that leave every side of
    /// `except` unconnected.
    pub fn all_except(except: &CellConnections) -> (kept: Vec<CellConnections>)
        ensures
            kept@ == CellConnections::all_possible_spec().filter(
                |connections: CellConnections| connections.avoids(*except),
            ),
    {
        let all = CellConnections::all_possible();
        let ghost keep = |connections: CellConnections| connections.avoids(*except);
        let mut kept: Vec<CellConnections> = Vec::new();
        let mut i: usize = 0;
        proof {
            assert(all@.take(0) =~= Seq::<CellConnections>::empty());
        }
        while i < all.len()
            invariant
                i <= all@.len(),
                keep == |connections: CellConnections| connections.avoids(*except),
                kept@ == all@.take(i as int).filter(keep),
            decreases all@.len() - i,
        {
            let connections = all[i];
            let avoids = !(connections.top_left && except.top_left) && !(connections.top_right
                && except.top_right) && !(connections.right && except.right) && !(
            connections.bottom_right && except.bottom_right) && !(connections.bottom_left
                && except.bottom_left) && !(connections.left && except.left);
            proof {
                lemma_filter_take_next(all@, keep, i as int);
            }
            if avoids {
                kept.push(connections);
            }
            i += 1;
        }
        assert(all@.take(all@.len() as int) =~= all@);
        kept
    }

    /// Each element of cons_a or'd with the matching element of cons_b
    pub fn or(cons_a: &Vec<bool>, cons_b: &Vec<bool>) -> (joined: Vec<bool>)
        requires
            cons_a@.len() <= cons_b@.len(),
        ensures
            joined@.len() == cons_a@.len(),
            forall|index: int|
                0 <= index < cons_a@.len() ==> joined@[index] == (cons_a@[index]
                    || cons_b@[index]),
    {
        let mut joined: Vec<bool> = Vec::new();
        let mut index: usize = 0;
        while index < cons_a.len()
            invariant
                index <= cons_a@.len() <= cons_b@.len(),
                joined@.len() == index,
                forall|k: int| 0 <= k < index ==> joined@[k] == (cons_a@[k] || cons_b@[k]),
            decreases cons_a@.len() - index,
        {
            joined.push(cons_a[index] || cons_b[index]);
            index += 1;
        }
        joined
    }

    /// Gets the index of the opposite side (e.g BOTTOM_RIGHT would return TOP_LEFT)
    pub fn opposite_index(index: usize) -> (opposite: usize)
        requires
            index + 3 <= usize::MAX,
        ensures
            opposite == opposite_direction(index as int),
    {
        (index + 3) % 6
    }
}

/// A connection set is the one that its code stands for, and every set has
/// a code below 64: the 64 combinations hold every connection set once.
pub proof fn lemma_code_round_trip(connections: CellConnections)
    ensures
        0 <= connections.code() < 64,
        CellConnections::from_code(connections.code()) == connections,
        CellConnections::all_possible_spec()[connections.code()] == connections,
{
}

/// Projecting a connection set to its six sides and back gives the same set.
pub proof fn lemma_sides_round_trip(connections: CellConnections)
    ensures
        CellConnections::from_seq(connections@) == connections,
        connections@.len() == 6,
        forall|index: int| 0 <= index < 6 ==> connections@[index] == connections.side(index),
{
}

} // verus!
