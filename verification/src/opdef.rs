//! The operator registry: a mapping from operator symbol to a named
//! behavior, built once at startup from the fixed built-in set.

use vstd::prelude::*;
use vstd::map::*;

verus! {

/// The closed set of behaviors an operator can have. The four moves
/// attempt to shift the operator one cell in the named direction
/// (east = +x, west = -x, north = -y, south = +y).
#[derive(Copy, Clone, PartialEq, Eq, Structural, Debug)]
pub enum OpBehavior {
    /// Clears the current slot and locks it.
    Bang,
    MoveEast,
    MoveWest,
    MoveNorth,
    MoveSouth,
    /// Locks the cell immediately south of the current one, if in bounds,
    /// without altering it.
    Halt,
}

impl OpBehavior {
    /// True of the four movement behaviors.
    pub open spec fn is_move(self) -> bool {
        self == OpBehavior::MoveEast || self == OpBehavior::MoveWest || self
            == OpBehavior::MoveNorth || self == OpBehavior::MoveSouth
    }

    /// The translation vector of a movement behavior; `(0, 0)` for the
    /// behaviors that do not move.
    pub open spec fn delta(self) -> (int, int) {
        match self {
            OpBehavior::MoveEast => (1, 0),
            OpBehavior::MoveWest => (-1, 0),
            OpBehavior::MoveNorth => (0, -1),
            OpBehavior::MoveSouth => (0, 1),
            _ => (0, 0),
        }
    }
}

/// One registry entry: a human-readable name, the symbol it is keyed by,
/// and the behavior dispatched for that symbol.
pub struct Opdef {
    pub long_name: String,
    pub operator: char,
    pub callback: OpBehavior,
}

/// The registry. Its view is the map from symbol to the entry most
/// recently added for it.
pub struct OpdefTable {
    defs: Vec<Opdef>,
}

/// The map described by a sequence of entries: each entry inserts itself
/// under its symbol, later entries overwriting earlier ones.
pub open spec fn defs_to_map(s: Seq<Opdef>) -> Map<char, Opdef>
    decreases s.len(),
{
    if s.len() == 0 {
        Map::empty()
    } else {
        defs_to_map(s.drop_last()).insert(s.last().operator, s.last())
    }
}

/// Entries at or beyond position `i` that never mention `ch` do not
/// affect the map at `ch`.
proof fn lemma_defs_to_map_skip(s: Seq<Opdef>, ch: char, i: int)
    requires
        0 <= i <= s.len(),
        forall|j: int| i <= j < s.len() ==> (#[trigger] s[j]).operator != ch,
    ensures
        defs_to_map(s).contains_key(ch) == defs_to_map(s.take(i)).contains_key(ch),
        defs_to_map(s).contains_key(ch) ==> defs_to_map(s)[ch] == defs_to_map(s.take(i))[ch],
    decreases s.len() - i,
{
    if i < s.len() {
        let s2 = s.drop_last();
        assert(s2 =~= s.take(s.len() - 1));
        lemma_defs_to_map_skip(s2, ch, i);
        assert(s2.take(i) =~= s.take(i));
    } else {
        assert(s.take(i) =~= s);
    }
}

impl View for OpdefTable {
    type V = Map<char, Opdef>;

    closed spec fn view(&self) -> Map<char, Opdef> {
        defs_to_map(self.defs@)
    }
}

impl OpdefTable {
    /// The symbol-to-behavior mapping the registry describes.
    pub open spec fn behaviors(self) -> Map<char, OpBehavior> {
        self@.map_values(|d: Opdef| d.callback)
    }

    /// An empty registry.
    pub fn new() -> (t: OpdefTable)
        ensures
            t@ == Map::<char, Opdef>::empty(),
    {
        OpdefTable { defs: Vec::new() }
    }

    /// Inserts `opd` under its symbol, overwriting any earlier entry for
    /// that symbol.
    pub fn add(&mut self, opd: Opdef)
        ensures
            final(self)@ == old(self)@.insert(opd.operator, opd),
    {
        let ghost s0 = self.defs@;
        self.defs.push(opd);
        proof {
            assert(self.defs@.drop_last() =~= s0);
        }
    }

    /// The entry registered for `ch`, if any.
    pub fn find(&self, ch: char) -> (r: Option<&Opdef>)
        ensures
            match r {
                Some(opd) => self@.contains_key(ch) && *opd == self@[ch] && opd.operator == ch,
                None => !self@.contains_key(ch),
            },
    {
        let mut i: usize = self.defs.len();
        while i > 0
            invariant
                i <= self.defs@.len(),
                forall|j: int| i <= j < self.defs@.len() ==> (#[trigger] self.defs@[j]).operator
                    != ch,
            decreases i,
        {
            i = i - 1;
            if self.defs[i].operator == ch {
                proof {
                    lemma_defs_to_map_skip(self.defs@, ch, i as int + 1);
                    let t = self.defs@.take(i as int + 1);
                    assert(t.drop_last() =~= self.defs@.take(i as int));
                    assert(t.last() == self.defs@[i as int]);
                }
                return Some(&self.defs[i]);
            }
        }
        proof {
            lemma_defs_to_map_skip(self.defs@, ch, 0);
            assert(self.defs@.take(0) =~= Seq::<Opdef>::empty());
        }
        None
    }
}

/// The built-in operator set: `*` erases in place, `E`/`W`/`N`/`S` move,
/// `H` halts the cell to its south for the tick.
pub open spec fn default_behaviors() -> Map<char, OpBehavior> {
    map![
        '*' => OpBehavior::Bang,
        'E' => OpBehavior::MoveEast,
        'W' => OpBehavior::MoveWest,
        'N' => OpBehavior::MoveNorth,
        'S' => OpBehavior::MoveSouth,
        'H' => OpBehavior::Halt,
    ]
}

impl Default for OpdefTable {
    /// A registry holding exactly the built-in operator set.
    fn default() -> (t: OpdefTable)
        ensures
            t.behaviors() == default_behaviors(),
    {
        let mut t = OpdefTable::new();
        t.add(Opdef { long_name: "bang".to_owned(), operator: '*', callback: OpBehavior::Bang });
        t.add(
            Opdef { long_name: "east".to_owned(), operator: 'E', callback: OpBehavior::MoveEast },
        );
        t.add(
            Opdef { long_name: "west".to_owned(), operator: 'W', callback: OpBehavior::MoveWest },
        );
        t.add(
            Opdef {
                long_name: "north".to_owned(),
                operator: 'N',
                callback: OpBehavior::MoveNorth,
            },
        );
        t.add(
            Opdef {
                long_name: "south".to_owned(),
                operator: 'S',
                callback: OpBehavior::MoveSouth,
            },
        );
        t.add(Opdef { long_name: "halt".to_owned(), operator: 'H', callback: OpBehavior::Halt });
        proof {
            assert_maps_equal!(t.behaviors(), default_behaviors());
        }
        t
    }
}

} // verus!
