//! The combat capability table: for each unit type and terrain, the
//! pre-battle maneuvers on offer and the die roll each one needs.

use vstd::prelude::*;
use crate::catalog::{
    class_of, home_of, Terrain, Unit, UnitClass, TERRAIN_KINDS, UNIT_KINDS, terrain_index,
    unit_index,
};

verus! {

/// A pre-battle maneuver with its threshold: a die roll at or above the
/// threshold succeeds.
#[derive(Clone, Copy, Debug, PartialEq, Eq, Structural)]
pub enum PreBattleTactic {
    Ambush(u8),
    Evade(u8),
}

/// The evade threshold of a raider outside its home terrain.
pub open spec fn away_evade_threshold(t: Terrain) -> u8 {
    match t {
        Terrain::Hills | Terrain::Fens => 5,
        Terrain::Clear | Terrain::City => 6,
    }
}

/// The canonical rule set: the maneuvers a unit type may attempt in a
/// terrain, evade before ambush.
pub open spec fn rule_tactics(u: Unit, t: Terrain) -> Seq<PreBattleTactic> {
    let home = home_of(u) == Some(t);
    match class_of(u) {
        UnitClass::Cavalry => seq![],
        UnitClass::Raider => if home {
            seq![PreBattleTactic::Evade(4), PreBattleTactic::Ambush(5)]
        } else {
            seq![PreBattleTactic::Evade(away_evade_threshold(t))]
        },
        UnitClass::Comitates | UnitClass::Warband => if home {
            seq![PreBattleTactic::Evade(5), PreBattleTactic::Ambush(3)]
        } else {
            seq![]
        },
    }
}

/// The threshold of the first evade in a list of maneuvers, if any.
pub open spec fn evade_in(s: Seq<PreBattleTactic>) -> Option<u8>
    decreases s.len(),
{
    if s.len() == 0 {
        None
    } else {
        match s[0] {
            PreBattleTactic::Evade(x) => Some(x),
            PreBattleTactic::Ambush(_) => evade_in(s.skip(1)),
        }
    }
}

/// The threshold of the first ambush in a list of maneuvers, if any.
pub open spec fn ambush_in(s: Seq<PreBattleTactic>) -> Option<u8>
    decreases s.len(),
{
    if s.len() == 0 {
        None
    } else {
        match s[0] {
            PreBattleTactic::Ambush(x) => Some(x),
            PreBattleTactic::Evade(_) => ambush_in(s.skip(1)),
        }
    }
}

/// The canonical maneuvers of a unit type in a terrain.
fn canonical_tactics(u: Unit, t: Terrain) -> (r: Vec<PreBattleTactic>)
    ensures
        r@ == rule_tactics(u, t),
{
    let mut r: Vec<PreBattleTactic> = Vec::new();
    let home = match u.home() {
        Some(h) => h == t,
        None => false,
    };
    match u.class() {
        UnitClass::Cavalry => {},
        UnitClass::Raider => {
            if home {
                r.push(PreBattleTactic::Evade(4));
                r.push(PreBattleTactic::Ambush(5));
            } else {
                let away: u8 = match t {
                    Terrain::Hills | Terrain::Fens => 5,
                    Terrain::Clear | Terrain::City => 6,
                };
                r.push(PreBattleTactic::Evade(away));
            }
        },
        UnitClass::Comitates | UnitClass::Warband => {
            if home {
                r.push(PreBattleTactic::Evade(5));
                r.push(PreBattleTactic::Ambush(3));
            }
        },
    }
    proof {
        assert(r@ =~= rule_tactics(u, t));
    }
    r
}

/// Copies a list of maneuvers.
fn copy_tactics(s: &Vec<PreBattleTactic>) -> (r: Vec<PreBattleTactic>)
    ensures
        r@ == s@,
{
    let mut r: Vec<PreBattleTactic> = Vec::new();
    let mut i: usize = 0;
    while i < s.len()
        invariant
            i <= s@.len(),
            r@ == s@.take(i as int),
        decreases s@.len() - i,
    {
        r.push(s[i]);
        proof {
            assert(s@.take(i + 1) =~= s@.take(i as int).push(s@[i as int]));
        }
        i = i + 1;
    }
    proof {
        assert(s@.take(i as int) =~= s@);
    }
    r
}

/// An immutable table from (unit type, terrain) to the maneuvers on offer,
/// built once and then only read.
pub struct CapabilityTable {
    rows: Vec<Vec<Vec<PreBattleTactic>>>,
}

impl CapabilityTable {
    /// One row per unit type, one entry per terrain.
    pub closed spec fn wf(&self) -> bool {
        &&& self.rows@.len() == UNIT_KINDS
        &&& forall|i: int| 0 <= i < UNIT_KINDS ==> #[trigger] self.rows@[i]@.len() == TERRAIN_KINDS
    }

    /// The maneuvers the table offers a unit type in a terrain.
    pub closed spec fn tactics(&self, u: Unit, t: Terrain) -> Seq<PreBattleTactic> {
        self.rows@[unit_index(u)]@[terrain_index(t)]@
    }

    /// The table loaded with the canonical rule set.
    pub fn new() -> (r: CapabilityTable)
        ensures
            r.wf(),
            forall|u: Unit, t: Terrain| #[trigger] r.tactics(u, t) == rule_tactics(u, t),
    {
        let mut rows: Vec<Vec<Vec<PreBattleTactic>>> = Vec::new();
        let mut i: usize = 0;
        while i < UNIT_KINDS
            invariant
                i <= UNIT_KINDS,
                rows@.len() == i,
                forall|a: int| 0 <= a < i ==> #[trigger] rows@[a]@.len() == TERRAIN_KINDS,
                forall|u: Unit, t: Terrain|
                    unit_index(u) < i ==> rows@[unit_index(u)]@[terrain_index(t)]@
                        == rule_tactics(u, t),
            decreases UNIT_KINDS - i,
        {
            let u = Unit::at_index(i);
            let mut row: Vec<Vec<PreBattleTactic>> = Vec::new();
            let mut j: usize = 0;
            while j < TERRAIN_KINDS
                invariant
                    j <= TERRAIN_KINDS,
                    row@.len() == j,
                    unit_index(u) == i,
                    forall|t: Terrain|
                        terrain_index(t) < j ==> row@[terrain_index(t)]@ == rule_tactics(u, t),
                decreases TERRAIN_KINDS - j,
            {
                let t = Terrain::at_index(j);
                row.push(canonical_tactics(u, t));
                proof {
                    assert forall|t2: Terrain| terrain_index(t2) < j + 1 implies row@[terrain_index(
                        t2,
                    )]@ == rule_tactics(u, t2) by {
                        if terrain_index(t2) == j {
                            assert(t2 == t);
                        }
                    }
                }
                j = j + 1;
            }
            rows.push(row);
            proof {
                assert forall|u2: Unit, t2: Terrain| unit_index(u2) < i + 1 implies rows@[unit_index(
                    u2,
                )]@[terrain_index(t2)]@ == rule_tactics(u2, t2) by {
                    if unit_index(u2) == i {
                        assert(u2 == u);
                    }
                }
            }
            i = i + 1;
        }
        CapabilityTable { rows }
    }

    /// The maneuvers on offer to a unit type in a terrain, possibly none.
    pub fn tactics_for(&self, u: Unit, t: Terrain) -> (r: Vec<PreBattleTactic>)
        requires
            self.wf(),
        ensures
            r@ == self.tactics(u, t),
    {
        let row = &self.rows[u.index()];
        copy_tactics(&row[t.index()])
    }

    /// The evade threshold of a unit type in a terrain, if evading is on offer.
    pub fn get_evade(&self, u: Unit, t: Terrain) -> (r: Option<u8>)
        requires
            self.wf(),
        ensures
            r == evade_in(self.tactics(u, t)),
    {
        let row = &self.rows[u.index()];
        let s = &row[t.index()];
        let mut i: usize = 0;
        proof {
            assert(s@.skip(0) =~= s@);
        }
        while i < s.len()
            invariant
                i <= s@.len(),
                s@ == self.tactics(u, t),
                evade_in(s@) == evade_in(s@.skip(i as int)),
            decreases s@.len() - i,
        {
            proof {
                assert(s@.skip(i as int).skip(1) =~= s@.skip(i + 1));
            }
            match s[i] {
                PreBattleTactic::Evade(x) => {
                    return Some(x);
                },
                PreBattleTactic::Ambush(_) => {},
            }
            i = i + 1;
        }
        None
    }

    /// The ambush threshold of a unit type in a terrain, if ambushing is on offer.
    pub fn get_ambush(&self, u: Unit, t: Terrain) -> (r: Option<u8>)
        requires
            self.wf(),
        ensures
            r == ambush_in(self.tactics(u, t)),
    {
        let row = &self.rows[u.index()];
        let s = &row[t.index()];
        let mut i: usize = 0;
        proof {
            assert(s@.skip(0) =~= s@);
        }
        while i < s.len()
            invariant
                i <= s@.len(),
                s@ == self.tactics(u, t),
                ambush_in(s@) == ambush_in(s@.skip(i as int)),
            decreases s@.len() - i,
        {
            proof {
                assert(s@.skip(i as int).skip(1) =~= s@.skip(i + 1));
            }
            match s[i] {
                PreBattleTactic::Ambush(x) => {
                    return Some(x);
                },
                PreBattleTactic::Evade(_) => {},
            }
            i = i + 1;
        }
        None
    }
}

/// Raiders never lose every maneuver: at home they may evade and ambush,
/// anywhere else they may still evade. Every other unit type has no
/// maneuver at all outside its single home terrain.
pub proof fn lemma_raider_fallback(u: Unit, t: Terrain)
    ensures
        class_of(u) == UnitClass::Raider ==> evade_in(rule_tactics(u, t)) is Some,
        class_of(u) == UnitClass::Raider && home_of(u) == Some(t) ==> ambush_in(
            rule_tactics(u, t),
        ) is Some,
        class_of(u) != UnitClass::Raider && home_of(u) != Some(t) ==> rule_tactics(u, t).len() == 0,
{
    let s = rule_tactics(u, t);
    if class_of(u) == UnitClass::Raider && home_of(u) == Some(t) {
        assert(s.skip(1) =~= seq![PreBattleTactic::Ambush(5)]);
        assert(ambush_in(s.skip(1)) == Some(5u8));
    }
}

} // verus!
