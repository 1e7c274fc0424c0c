//! Closed enumerations of the game: factions, terrain, unit types, and the
//! plain data that describes spaces and cards.

use vstd::prelude::*;

verus! {

/// One of the four contesting powers.
#[derive(Clone, Copy, Debug, PartialEq, Eq, Structural, Hash)]
pub enum Faction {
    Civitates,
    Dux,
    Saxons,
    Scotti,
}

/// The terrain of a land space.
#[derive(Clone, Copy, Debug, PartialEq, Eq, Structural, Hash)]
pub enum Terrain {
    Clear,
    Fens,
    Hills,
    City,
}

/// A kind of piece. Each belongs to exactly one faction's roster.
#[derive(Clone, Copy, Debug, PartialEq, Eq, Structural, Hash)]
pub enum Unit {
    Comitates,
    CivitatesSaxonFoederati,
    CivitatesScottiFoederati,
    Militia,
    Cavalry,
    DuxSaxonFoederati,
    DuxScottiFoederati,
    SaxonRaider,
    SaxonWarband,
    ScottiRaider,
    ScottiWarband,
}

/// The maneuver profile that a unit type follows.
#[derive(Clone, Copy, Debug, PartialEq, Eq, Structural, Hash)]
pub enum UnitClass {
    /// Comitates, Militia and the foederati: ambush and evade at home only.
    Comitates,
    /// Mounted troops: never maneuver, always ready to charge.
    Cavalry,
    /// Raiders: full options at home, evade anywhere else.
    Raider,
    /// Warbands: ambush and evade at home only.
    Warband,
}

/// All four factions.
pub open spec fn all_factions() -> Set<Faction> {
    set![Faction::Civitates, Faction::Dux, Faction::Saxons, Faction::Scotti]
}

/// The maneuver class of a unit type.
pub open spec fn class_of(u: Unit) -> UnitClass {
    match u {
        Unit::Cavalry => UnitClass::Cavalry,
        Unit::SaxonRaider | Unit::ScottiRaider => UnitClass::Raider,
        Unit::SaxonWarband | Unit::ScottiWarband => UnitClass::Warband,
        _ => UnitClass::Comitates,
    }
}

/// The terrain in which a unit type has its full maneuver options.
pub open spec fn home_of(u: Unit) -> Option<Terrain> {
    match u {
        Unit::Cavalry => None,
        Unit::CivitatesSaxonFoederati | Unit::DuxSaxonFoederati | Unit::SaxonRaider
        | Unit::SaxonWarband => Some(Terrain::Fens),
        _ => Some(Terrain::Hills),
    }
}

/// The faction that fields a unit type.
pub open spec fn owner_of(u: Unit) -> Faction {
    match u {
        Unit::Comitates | Unit::CivitatesSaxonFoederati | Unit::CivitatesScottiFoederati
        | Unit::Militia => Faction::Civitates,
        Unit::Cavalry | Unit::DuxSaxonFoederati | Unit::DuxScottiFoederati => Faction::Dux,
        Unit::SaxonRaider | Unit::SaxonWarband => Faction::Saxons,
        Unit::ScottiRaider | Unit::ScottiWarband => Faction::Scotti,
    }
}

/// The unit types a faction fields, in the order in which they are asked
/// for their pre-battle choice.
pub open spec fn roster_of(f: Faction) -> Seq<Unit> {
    match f {
        Faction::Civitates => seq![
            Unit::Militia,
            Unit::Comitates,
            Unit::CivitatesSaxonFoederati,
            Unit::CivitatesScottiFoederati,
        ],
        Faction::Dux => seq![Unit::Cavalry, Unit::DuxSaxonFoederati, Unit::DuxScottiFoederati],
        Faction::Saxons => seq![Unit::SaxonRaider, Unit::SaxonWarband],
        Faction::Scotti => seq![Unit::ScottiRaider, Unit::ScottiWarband],
    }
}

/// Position of a unit type in the catalog, used as a table index.
pub open spec fn unit_index(u: Unit) -> int {
    match u {
        Unit::Comitates => 0,
        Unit::CivitatesSaxonFoederati => 1,
        Unit::CivitatesScottiFoederati => 2,
        Unit::Militia => 3,
        Unit::Cavalry => 4,
        Unit::DuxSaxonFoederati => 5,
        Unit::DuxScottiFoederati => 6,
        Unit::SaxonRaider => 7,
        Unit::SaxonWarband => 8,
        Unit::ScottiRaider => 9,
        Unit::ScottiWarband => 10,
    }
}

/// Position of a terrain in the catalog, used as a table index.
pub open spec fn terrain_index(t: Terrain) -> int {
    match t {
        Terrain::Clear => 0,
        Terrain::Fens => 1,
        Terrain::Hills => 2,
        Terrain::City => 3,
    }
}

/// Number of unit types.
pub const UNIT_KINDS: usize = 11;

/// Number of terrain kinds.
pub const TERRAIN_KINDS: usize = 4;

impl Faction {
    /// The faction's name as shown to players.
    pub fn label(&self) -> (r: &'static str)
        ensures
            r@ == faction_label(*self),
    {
        match self {
            Faction::Civitates => "Civitates",
            Faction::Dux => "Dux",
            Faction::Saxons => "Saxons",
            Faction::Scotti => "Scotti",
        }
    }

    /// The unit types this faction fields.
    pub fn roster(&self) -> (r: Vec<Unit>)
        ensures
            r@ == roster_of(*self),
    {
        let mut r: Vec<Unit> = Vec::new();
        match self {
            Faction::Civitates => {
                r.push(Unit::Militia);
                r.push(Unit::Comitates);
                r.push(Unit::CivitatesSaxonFoederati);
                r.push(Unit::CivitatesScottiFoederati);
            },
            Faction::Dux => {
                r.push(Unit::Cavalry);
                r.push(Unit::DuxSaxonFoederati);
                r.push(Unit::DuxScottiFoederati);
            },
            Faction::Saxons => {
                r.push(Unit::SaxonRaider);
                r.push(Unit::SaxonWarband);
            },
            Faction::Scotti => {
                r.push(Unit::ScottiRaider);
                r.push(Unit::ScottiWarband);
            },
        }
        proof {
            assert(r@ =~= roster_of(*self));
        }
        r
    }
}

/// The display name of a faction.
pub open spec fn faction_label(f: Faction) -> Seq<char> {
    match f {
        Faction::Civitates => "Civitates"@,
        Faction::Dux => "Dux"@,
        Faction::Saxons => "Saxons"@,
        Faction::Scotti => "Scotti"@,
    }
}

impl Terrain {
    /// Table index of this terrain.
    pub fn index(&self) -> (r: usize)
        ensures
            r as int == terrain_index(*self),
            r < TERRAIN_KINDS,
    {
        match self {
            Terrain::Clear => 0,
            Terrain::Fens => 1,
            Terrain::Hills => 2,
            Terrain::City => 3,
        }
    }

    /// The terrain at a table index.
    pub fn at_index(i: usize) -> (r: Terrain)
        requires
            i < TERRAIN_KINDS,
        ensures
            terrain_index(r) == i as int,
    {
        if i == 0 {
            Terrain::Clear
        } else if i == 1 {
            Terrain::Fens
        } else if i == 2 {
            Terrain::Hills
        } else {
            Terrain::City
        }
    }
}

impl Unit {
    /// The maneuver class of this unit type.
    pub fn class(&self) -> (r: UnitClass)
        ensures
            r == class_of(*self),
    {
        match self {
            Unit::Cavalry => UnitClass::Cavalry,
            Unit::SaxonRaider | Unit::ScottiRaider => UnitClass::Raider,
            Unit::SaxonWarband | Unit::ScottiWarband => UnitClass::Warband,
            _ => UnitClass::Comitates,
        }
    }

    /// Whether this unit type is raider-class.
    pub fn is_raider(&self) -> (r: bool)
        ensures
            r == (class_of(*self) == UnitClass::Raider),
    {
        matches!(self, Unit::SaxonRaider | Unit::ScottiRaider)
    }

    /// The terrain in which this unit type has its full maneuver options.
    pub fn home(&self) -> (r: Option<Terrain>)
        ensures
            r == home_of(*self),
    {
        match self {
            Unit::Cavalry => None,
            Unit::CivitatesSaxonFoederati | Unit::DuxSaxonFoederati | Unit::SaxonRaider
            | Unit::SaxonWarband => Some(Terrain::Fens),
            _ => Some(Terrain::Hills),
        }
    }

    /// The faction that fields this unit type.
    pub fn owner(&self) -> (r: Faction)
        ensures
            r == owner_of(*self),
    {
        match self {
            Unit::Comitates | Unit::CivitatesSaxonFoederati | Unit::CivitatesScottiFoederati
            | Unit::Militia => Faction::Civitates,
            Unit::Cavalry | Unit::DuxSaxonFoederati | Unit::DuxScottiFoederati => Faction::Dux,
            Unit::SaxonRaider | Unit::SaxonWarband => Faction::Saxons,
            Unit::ScottiRaider | Unit::ScottiWarband => Faction::Scotti,
        }
    }

    /// Table index of this unit type.
    pub fn index(&self) -> (r: usize)
        ensures
            r as int == unit_index(*self),
            r < UNIT_KINDS,
    {
        match self {
            Unit::Comitates => 0,
            Unit::CivitatesSaxonFoederati => 1,
            Unit::CivitatesScottiFoederati => 2,
            Unit::Militia => 3,
            Unit::Cavalry => 4,
            Unit::DuxSaxonFoederati => 5,
            Unit::DuxScottiFoederati => 6,
            Unit::SaxonRaider => 7,
            Unit::SaxonWarband => 8,
            Unit::ScottiRaider => 9,
            Unit::ScottiWarband => 10,
        }
    }

    /// The unit type at a table index.
    pub fn at_index(i: usize) -> (r: Unit)
        requires
            i < UNIT_KINDS,
        ensures
            unit_index(r) == i as int,
    {
        if i == 0 {
            Unit::Comitates
        } else if i == 1 {
            Unit::CivitatesSaxonFoederati
        } else if i == 2 {
            Unit::CivitatesScottiFoederati
        } else if i == 3 {
            Unit::Militia
        } else if i == 4 {
            Unit::Cavalry
        } else if i == 5 {
            Unit::DuxSaxonFoederati
        } else if i == 6 {
            Unit::DuxScottiFoederati
        } else if i == 7 {
            Unit::SaxonRaider
        } else if i == 8 {
            Unit::SaxonWarband
        } else if i == 9 {
            Unit::ScottiRaider
        } else {
            Unit::ScottiWarband
        }
    }

    /// The unit type's name as shown to players.
    pub fn label(&self) -> (r: &'static str)
        ensures
            r@ == unit_label(*self),
    {
        match self {
            Unit::Comitates => "Comitates",
            Unit::CivitatesSaxonFoederati => "Civitates Saxon Foederati",
            Unit::CivitatesScottiFoederati => "Civitates Scotti Foederati",
            Unit::Militia => "Militia",
            Unit::Cavalry => "Cavalry",
            Unit::DuxSaxonFoederati => "Dux Saxon Foederati",
            Unit::DuxScottiFoederati => "Dux Scotti Foederati",
            Unit::SaxonRaider => "Saxon Raider",
            Unit::SaxonWarband => "Saxon Warband",
            Unit::ScottiRaider => "Scotti Raider",
            Unit::ScottiWarband => "Scotti Warband",
        }
    }
}

/// The display name of a unit type.
pub open spec fn unit_label(u: Unit) -> Seq<char> {
    match u {
        Unit::Comitates => "Comitates"@,
        Unit::CivitatesSaxonFoederati => "Civitates Saxon Foederati"@,
        Unit::CivitatesScottiFoederati => "Civitates Scotti Foederati"@,
        Unit::Militia => "Militia"@,
        Unit::Cavalry => "Cavalry"@,
        Unit::DuxSaxonFoederati => "Dux Saxon Foederati"@,
        Unit::DuxScottiFoederati => "Dux Scotti Foederati"@,
        Unit::SaxonRaider => "Saxon Raider"@,
        Unit::SaxonWarband => "Saxon Warband"@,
        Unit::ScottiRaider => "Scotti Raider"@,
        Unit::ScottiWarband => "Scotti Warband"@,
    }
}

/// A fortification that can stand on a stronghold site.
#[derive(Clone, Copy, Debug, PartialEq, Eq, Structural)]
pub enum Stronghold {
    Hillfort,
    Town,
    Fort,
    SaxonSettlement,
    ScottiSettlement,
}

/// A named place in a space where a stronghold may stand.
#[derive(Clone, Debug)]
pub struct StrongholdSite {
    pub name: String,
    pub stronghold: Option<Stronghold>,
    pub town_allowed: bool,
}

/// A land space: its terrain, who controls it, its economy, and how many
/// pieces of each unit type stand in it.
#[derive(Clone, Debug)]
pub struct Space {
    pub terrain: Terrain,
    pub control: Option<Faction>,
    pub population: u8,
    pub prosperity: Vec<u8>,
    pub comitates: u8,
    pub civitates_saxon_foederati: u8,
    pub civitates_scotti_foederati: u8,
    pub militia: u8,
    pub cavalry: u8,
    pub dux_saxon_foederati: u8,
    pub dux_scotti_foederati: u8,
    pub saxon_raider: u8,
    pub saxon_warband: u8,
    pub scotti_raider: u8,
    pub scotti_warband: u8,
    pub stronghold_sites: Vec<StrongholdSite>,
}

/// How many pieces of a unit type stand in a space.
pub open spec fn count_in(s: Space, u: Unit) -> u8 {
    match u {
        Unit::Comitates => s.comitates,
        Unit::CivitatesSaxonFoederati => s.civitates_saxon_foederati,
        Unit::CivitatesScottiFoederati => s.civitates_scotti_foederati,
        Unit::Militia => s.militia,
        Unit::Cavalry => s.cavalry,
        Unit::DuxSaxonFoederati => s.dux_saxon_foederati,
        Unit::DuxScottiFoederati => s.dux_scotti_foederati,
        Unit::SaxonRaider => s.saxon_raider,
        Unit::SaxonWarband => s.saxon_warband,
        Unit::ScottiRaider => s.scotti_raider,
        Unit::ScottiWarband => s.scotti_warband,
    }
}

/// The unit types of a roster that have at least one piece in a space, in
/// roster order.
pub open spec fn present_in(s: Space, roster: Seq<Unit>) -> Seq<Unit>
    decreases roster.len(),
{
    if roster.len() == 0 {
        Seq::empty()
    } else {
        let rest = present_in(s, roster.drop_last());
        if count_in(s, roster.last()) > 0 {
            rest.push(roster.last())
        } else {
            rest
        }
    }
}

impl Space {
    /// How many pieces of a unit type stand here.
    pub fn count(&self, u: Unit) -> (r: u8)
        ensures
            r == count_in(*self, u),
    {
        match u {
            Unit::Comitates => self.comitates,
            Unit::CivitatesSaxonFoederati => self.civitates_saxon_foederati,
            Unit::CivitatesScottiFoederati => self.civitates_scotti_foederati,
            Unit::Militia => self.militia,
            Unit::Cavalry => self.cavalry,
            Unit::DuxSaxonFoederati => self.dux_saxon_foederati,
            Unit::DuxScottiFoederati => self.dux_scotti_foederati,
            Unit::SaxonRaider => self.saxon_raider,
            Unit::SaxonWarband => self.saxon_warband,
            Unit::ScottiRaider => self.scotti_raider,
            Unit::ScottiWarband => self.scotti_warband,
        }
    }

    /// The unit types of a faction that have pieces here, in roster order.
    pub fn forces(&self, faction: Faction) -> (r: Vec<Unit>)
        ensures
            r@ == present_in(*self, roster_of(faction)),
    {
        let roster = faction.roster();
        let mut r: Vec<Unit> = Vec::new();
        let mut i: usize = 0;
        while i < roster.len()
            invariant
                i <= roster@.len(),
                roster@ == roster_of(faction),
                r@ == present_in(*self, roster@.take(i as int)),
            decreases roster@.len() - i,
        {
            let u = roster[i];
            proof {
                assert(roster@.take(i + 1).drop_last() =~= roster@.take(i as int));
            }
            if self.count(u) > 0 {
                r.push(u);
            }
            i = i + 1;
        }
        proof {
            assert(roster@.take(i as int) =~= roster@);
        }
        r
    }
}

impl Default for Space {
    /// An empty clear space with no controller, no pieces and no sites.
    fn default() -> (r: Space)
        ensures
            r.terrain == Terrain::Clear,
            r.control == None::<Faction>,
            r.population == 0,
            r.prosperity@ == seq![0u8, 0u8],
            forall|u: Unit| count_in(r, u) == 0,
            r.stronghold_sites@.len() == 0,
    {
        let mut prosperity: Vec<u8> = Vec::new();
        prosperity.push(0);
        prosperity.push(0);
        proof {
            assert(prosperity@ =~= seq![0u8, 0u8]);
        }
        Space {
            terrain: Terrain::Clear,
            control: None,
            population: 0,
            prosperity,
            comitates: 0,
            civitates_saxon_foederati: 0,
            civitates_scotti_foederati: 0,
            militia: 0,
            cavalry: 0,
            dux_saxon_foederati: 0,
            dux_scotti_foederati: 0,
            saxon_raider: 0,
            saxon_warband: 0,
            scotti_raider: 0,
            scotti_warband: 0,
            stronghold_sites: Vec::new(),
        }
    }
}

/// A place on the map: open sea, or a land space.
#[derive(Clone, Debug)]
pub enum Location {
    Sea,
    Land(Space),
}

/// The kind of a card.
#[derive(Clone, Copy, Debug, PartialEq, Eq, Structural)]
pub enum CardCategory {
    Event,
    Epoch,
    Pivotal,
}

/// A card of the deck: its number, its name, the order in which factions
/// are offered actions while it is in play, and its kind.
#[derive(Clone, Debug)]
pub struct Card {
    pub number: u8,
    pub name: String,
    pub eligibility_order: Vec<Faction>,
    pub category: CardCategory,
}

} // verus!
