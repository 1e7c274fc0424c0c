//! The pre-battle maneuver phase: each side's units are sorted into groups
//! by the maneuver chosen for them, then ambushes and evasions are rolled.

use vstd::prelude::*;
use rand::Rng;
use crate::capability::{ambush_in, evade_in, CapabilityTable, PreBattleTactic};
use crate::catalog::{class_of, present_in, roster_of, Faction, Location, Space, Terrain, Unit, UnitClass};

verus! {

/// What a unit may be told to do before battle.
#[derive(Clone, Copy, Debug, PartialEq, Eq, Structural)]
pub enum PreBattle {
    Evade,
    Ambush,
    /// No maneuver: stand and fight.
    Fight,
}

impl PreBattle {
    /// The option's name as shown to players.
    pub fn label(&self) -> (r: &'static str)
        ensures
            r@ == prebattle_label(*self),
    {
        match self {
            PreBattle::Evade => "Evade",
            PreBattle::Ambush => "Ambush",
            PreBattle::Fight => "None",
        }
    }
}

/// The display name of a pre-battle option.
pub open spec fn prebattle_label(p: PreBattle) -> Seq<char> {
    match p {
        PreBattle::Evade => "Evade"@,
        PreBattle::Ambush => "Ambush"@,
        PreBattle::Fight => "None"@,
    }
}

/// The option that a table entry stands for.
pub open spec fn option_of(t: PreBattleTactic) -> PreBattle {
    match t {
        PreBattleTactic::Evade(_) => PreBattle::Evade,
        PreBattleTactic::Ambush(_) => PreBattle::Ambush,
    }
}

/// The options put to a unit with the given maneuvers: each maneuver in
/// table order, then fighting. A unit with no maneuver is asked nothing.
pub open spec fn options_of(tactics: Seq<PreBattleTactic>) -> Seq<PreBattle> {
    if tactics.len() == 0 {
        Seq::empty()
    } else {
        tactics.map_values(|t: PreBattleTactic| option_of(t)).push(PreBattle::Fight)
    }
}

/// The group a unit enters before any die is rolled.
#[derive(Clone, Copy, Debug, PartialEq, Eq, Structural)]
pub enum Group {
    RollAmbush,
    RollEvade,
    ChargeOrAmbush,
    Melee,
    Harass,
}

/// Whether a choice index is acceptable for a unit with these maneuvers.
/// A unit with no maneuver is asked nothing, so any value stands for it.
pub open spec fn choice_valid(tactics: Seq<PreBattleTactic>, choice: usize) -> bool {
    tactics.len() == 0 || choice <= tactics.len()
}

/// The group of a unit with these maneuvers that made this choice: a unit
/// with no maneuver goes straight to charge (cavalry) or melee; a chosen
/// maneuver queues the unit for its roll; fighting is harass for raiders
/// and warbands, which skirmish without closing, and melee for all others.
pub open spec fn group_of(tactics: Seq<PreBattleTactic>, u: Unit, choice: usize) -> Group {
    if tactics.len() == 0 {
        if class_of(u) == UnitClass::Cavalry {
            Group::ChargeOrAmbush
        } else {
            Group::Melee
        }
    } else if choice < tactics.len() {
        match tactics[choice as int] {
            PreBattleTactic::Ambush(_) => Group::RollAmbush,
            PreBattleTactic::Evade(_) => Group::RollEvade,
        }
    } else if class_of(u) == UnitClass::Raider || class_of(u) == UnitClass::Warband {
        Group::Harass
    } else {
        Group::Melee
    }
}

/// The five groups of one side after assignment.
pub struct Assignment {
    pub roll_ambush: Vec<Unit>,
    pub roll_evade: Vec<Unit>,
    pub charge_or_ambush: Vec<Unit>,
    pub melee: Vec<Unit>,
    pub harass: Vec<Unit>,
}

/// The model of an [`Assignment`].
pub struct AssignmentView {
    pub roll_ambush: Seq<Unit>,
    pub roll_evade: Seq<Unit>,
    pub charge_or_ambush: Seq<Unit>,
    pub melee: Seq<Unit>,
    pub harass: Seq<Unit>,
}

impl View for Assignment {
    type V = AssignmentView;

    open spec fn view(&self) -> AssignmentView {
        AssignmentView {
            roll_ambush: self.roll_ambush@,
            roll_evade: self.roll_evade@,
            charge_or_ambush: self.charge_or_ambush@,
            melee: self.melee@,
            harass: self.harass@,
        }
    }
}

/// An assignment with every group empty.
pub open spec fn empty_assignment() -> AssignmentView {
    AssignmentView {
        roll_ambush: Seq::empty(),
        roll_evade: Seq::empty(),
        charge_or_ambush: Seq::empty(),
        melee: Seq::empty(),
        harass: Seq::empty(),
    }
}

/// An assignment with one more unit at the end of a group.
pub open spec fn add_to_group(a: AssignmentView, g: Group, u: Unit) -> AssignmentView {
    match g {
        Group::RollAmbush => AssignmentView { roll_ambush: a.roll_ambush.push(u), ..a },
        Group::RollEvade => AssignmentView { roll_evade: a.roll_evade.push(u), ..a },
        Group::ChargeOrAmbush => AssignmentView { charge_or_ambush: a.charge_or_ambush.push(u), ..a },
        Group::Melee => AssignmentView { melee: a.melee.push(u), ..a },
        Group::Harass => AssignmentView { harass: a.harass.push(u), ..a },
    }
}

/// The groups that units enter, in order, each with the choice at its own
/// position.
pub open spec fn assign_groups(
    table: CapabilityTable,
    units: Seq<Unit>,
    t: Terrain,
    choices: Seq<usize>,
) -> AssignmentView
    decreases units.len(),
{
    if units.len() == 0 {
        empty_assignment()
    } else {
        let n = units.len() - 1;
        add_to_group(
            assign_groups(table, units.drop_last(), t, choices),
            group_of(table.tactics(units[n], t), units[n], choices[n]),
            units[n],
        )
    }
}

/// Whether every unit's choice is acceptable.
pub open spec fn choices_valid(
    table: CapabilityTable,
    units: Seq<Unit>,
    t: Terrain,
    choices: Seq<usize>,
) -> bool {
    &&& choices.len() == units.len()
    &&& forall|i: int| 0 <= i < units.len() ==> choice_valid(table.tactics(units[i], t), #[trigger] choices[i])
}

/// Why a side's pre-battle choices were refused.
#[derive(Clone, Copy, Debug, PartialEq, Eq, Structural)]
pub enum PreBattleError {
    /// The number of choices differs from the number of unit types present.
    ChoiceCountMismatch,
    /// A choice lies outside the options put to its unit.
    ChoiceOutOfRange,
}

/// The options put to a unit type in a terrain.
pub fn offered(table: &CapabilityTable, u: Unit, t: Terrain) -> (r: Vec<PreBattle>)
    requires
        table.wf(),
    ensures
        r@ == options_of(table.tactics(u, t)),
{
    let tactics = table.tactics_for(u, t);
    let mut r: Vec<PreBattle> = Vec::new();
    if tactics.len() == 0 {
        proof {
            assert(r@ =~= options_of(table.tactics(u, t)));
        }
        return r;
    }
    let mut i: usize = 0;
    while i < tactics.len()
        invariant
            i <= tactics@.len(),
            r@ == tactics@.take(i as int).map_values(|t: PreBattleTactic| option_of(t)),
        decreases tactics@.len() - i,
    {
        let o = match tactics[i] {
            PreBattleTactic::Evade(_) => PreBattle::Evade,
            PreBattleTactic::Ambush(_) => PreBattle::Ambush,
        };
        r.push(o);
        proof {
            assert(tactics@.take(i + 1).map_values(|t: PreBattleTactic| option_of(t)) =~= tactics@.take(
                i as int,
            ).map_values(|t: PreBattleTactic| option_of(t)).push(o));
        }
        i = i + 1;
    }
    r.push(PreBattle::Fight);
    proof {
        assert(tactics@.take(i as int) =~= tactics@);
    }
    r
}

/// The group for a unit with these maneuvers and this choice, or `None`
/// when the choice is out of range.
fn group_for(tactics: &Vec<PreBattleTactic>, u: Unit, choice: usize) -> (r: Option<Group>)
    ensures
        r == (if choice_valid(tactics@, choice) {
            Some(group_of(tactics@, u, choice))
        } else {
            None
        }),
{
    let n = tactics.len();
    if n == 0 {
        if u.class() == UnitClass::Cavalry {
            Some(Group::ChargeOrAmbush)
        } else {
            Some(Group::Melee)
        }
    } else if choice < n {
        match tactics[choice] {
            PreBattleTactic::Ambush(_) => Some(Group::RollAmbush),
            PreBattleTactic::Evade(_) => Some(Group::RollEvade),
        }
    } else if choice == n {
        match u.class() {
            UnitClass::Raider | UnitClass::Warband => Some(Group::Harass),
            UnitClass::Comitates | UnitClass::Cavalry => Some(Group::Melee),
        }
    } else {
        None
    }
}

/// Sorts a faction's units in a space into pre-battle groups. `choices`
/// holds one option index for each unit type of the faction present in the
/// space, in roster order (see [`Space::forces`] and [`offered`]); the value
/// given for a unit that is offered nothing is not read.
pub fn prebattle_assign(
    table: &CapabilityTable,
    player: Faction,
    space: &Space,
    choices: &Vec<usize>,
) -> (r: Result<Assignment, PreBattleError>)
    requires
        table.wf(),
    ensures
        ({
            let units = present_in(*space, roster_of(player));
            &&& r == Err::<Assignment, PreBattleError>(PreBattleError::ChoiceCountMismatch)
                <==> choices@.len() != units.len()
            &&& r == Err::<Assignment, PreBattleError>(PreBattleError::ChoiceOutOfRange)
                <==> (choices@.len() == units.len() && !choices_valid(*table, units, space.terrain, choices@))
            &&& r is Ok <==> choices_valid(*table, units, space.terrain, choices@)
            &&& r matches Ok(a) ==> a@ == assign_groups(*table, units, space.terrain, choices@)
        }),
{
    let units = space.forces(player);
    let t = space.terrain;
    if choices.len() != units.len() {
        return Err(PreBattleError::ChoiceCountMismatch);
    }
    let mut a = Assignment {
        roll_ambush: Vec::new(),
        roll_evade: Vec::new(),
        charge_or_ambush: Vec::new(),
        melee: Vec::new(),
        harass: Vec::new(),
    };
    let mut i: usize = 0;
    while i < units.len()
        invariant
            table.wf(),
            i <= units@.len(),
            units@ == present_in(*space, roster_of(player)),
            t == space.terrain,
            choices@.len() == units@.len(),
            a@ == assign_groups(*table, units@.take(i as int), t, choices@),
            forall|j: int| 0 <= j < i ==> choice_valid(table.tactics(units@[j], t), #[trigger] choices@[j]),
        decreases units@.len() - i,
    {
        let u = units[i];
        let tactics = table.tactics_for(u, t);
        proof {
            assert(units@.take(i + 1).drop_last() =~= units@.take(i as int));
        }
        match group_for(&tactics, u, choices[i]) {
            None => {
                proof {
                    assert(!choice_valid(table.tactics(units@[i as int], t), choices@[i as int]));
                }
                return Err(PreBattleError::ChoiceOutOfRange);
            },
            Some(g) => {
                match g {
                    Group::RollAmbush => a.roll_ambush.push(u),
                    Group::RollEvade => a.roll_evade.push(u),
                    Group::ChargeOrAmbush => a.charge_or_ambush.push(u),
                    Group::Melee => a.melee.push(u),
                    Group::Harass => a.harass.push(u),
                }
            },
        }
        i = i + 1;
    }
    proof {
        assert(units@.take(i as int) =~= units@);
    }
    Ok(a)
}

/// Where a unit ends up once its die is rolled.
#[derive(Clone, Copy, Debug, PartialEq, Eq, Structural)]
pub enum Outcome {
    ChargeOrAmbush,
    Melee,
    Harass,
    /// Withdrawn from the battle.
    Evaded,
}

/// Where a unit goes when its maneuver fails: raiders harass, all others
/// enter melee.
pub open spec fn failed_outcome(u: Unit) -> Outcome {
    if class_of(u) == UnitClass::Raider {
        Outcome::Harass
    } else {
        Outcome::Melee
    }
}

/// A die roll meets a threshold when it is at least the threshold; with no
/// threshold the maneuver cannot succeed.
pub open spec fn meets(threshold: Option<u8>, roll: u8) -> bool {
    threshold matches Some(x) && roll >= x
}

/// The result of an ambush roll by a unit with these maneuvers.
pub open spec fn ambush_outcome(tactics: Seq<PreBattleTactic>, u: Unit, roll: u8) -> Outcome {
    if meets(ambush_in(tactics), roll) {
        Outcome::ChargeOrAmbush
    } else {
        failed_outcome(u)
    }
}

/// The result of an evade roll by a unit with these maneuvers.
pub open spec fn evade_outcome(tactics: Seq<PreBattleTactic>, u: Unit, roll: u8) -> Outcome {
    if meets(evade_in(tactics), roll) {
        Outcome::Evaded
    } else {
        failed_outcome(u)
    }
}

/// A side's combat groups after the pre-battle phase, with the units that
/// evaded the battle.
pub struct CombatGroups {
    pub charge_or_ambush: Vec<Unit>,
    pub melee: Vec<Unit>,
    pub harass: Vec<Unit>,
    pub evaded: Vec<Unit>,
}

/// The model of [`CombatGroups`].
pub struct CombatGroupsView {
    pub charge_or_ambush: Seq<Unit>,
    pub melee: Seq<Unit>,
    pub harass: Seq<Unit>,
    pub evaded: Seq<Unit>,
}

impl View for CombatGroups {
    type V = CombatGroupsView;

    open spec fn view(&self) -> CombatGroupsView {
        CombatGroupsView {
            charge_or_ambush: self.charge_or_ambush@,
            melee: self.melee@,
            harass: self.harass@,
            evaded: self.evaded@,
        }
    }
}

/// Combat groups with every list empty.
pub open spec fn empty_groups() -> CombatGroupsView {
    CombatGroupsView {
        charge_or_ambush: Seq::empty(),
        melee: Seq::empty(),
        harass: Seq::empty(),
        evaded: Seq::empty(),
    }
}

/// Combat groups with one more unit at the end of the list for an outcome.
pub open spec fn add_outcome(g: CombatGroupsView, o: Outcome, u: Unit) -> CombatGroupsView {
    match o {
        Outcome::ChargeOrAmbush => CombatGroupsView { charge_or_ambush: g.charge_or_ambush.push(u), ..g },
        Outcome::Melee => CombatGroupsView { melee: g.melee.push(u), ..g },
        Outcome::Harass => CombatGroupsView { harass: g.harass.push(u), ..g },
        Outcome::Evaded => CombatGroupsView { evaded: g.evaded.push(u), ..g },
    }
}

/// Adds to `base` the outcome of each unit's roll, in order, the i-th unit
/// using the i-th roll; `ambush` tells which maneuver the units attempt.
pub open spec fn roll_units(
    table: CapabilityTable,
    base: CombatGroupsView,
    units: Seq<Unit>,
    t: Terrain,
    rolls: Seq<u8>,
    ambush: bool,
) -> CombatGroupsView
    decreases units.len(),
{
    if units.len() == 0 {
        base
    } else {
        let n = units.len() - 1;
        let u = units[n];
        let o = if ambush {
            ambush_outcome(table.tactics(u, t), u, rolls[n])
        } else {
            evade_outcome(table.tactics(u, t), u, rolls[n])
        };
        add_outcome(roll_units(table, base, units.drop_last(), t, rolls, ambush), o, u)
    }
}

/// The combat groups that the pending units reach: the ambushers roll
/// first, each with the next die, then the evaders.
pub open spec fn resolve_groups(
    table: CapabilityTable,
    ambush: Seq<Unit>,
    evade: Seq<Unit>,
    t: Terrain,
    rolls: Seq<u8>,
) -> CombatGroupsView {
    roll_units(
        table,
        roll_units(table, empty_groups(), ambush, t, rolls, true),
        evade,
        t,
        rolls.skip(ambush.len() as int),
        false,
    )
}

/// Whether a sequence holds `n` die rolls, each from 1 to 6.
pub open spec fn die_rolls(rolls: Seq<u8>, n: nat) -> bool {
    &&& rolls.len() == n
    &&& forall|i: int| 0 <= i < n ==> 1 <= #[trigger] rolls[i] <= 6
}

/// Puts a unit at the end of the list for its outcome.
fn place(g: &mut CombatGroups, o: Outcome, u: Unit)
    ensures
        final(g)@ == add_outcome(old(g)@, o, u),
{
    match o {
        Outcome::ChargeOrAmbush => g.charge_or_ambush.push(u),
        Outcome::Melee => g.melee.push(u),
        Outcome::Harass => g.harass.push(u),
        Outcome::Evaded => g.evaded.push(u),
    }
}

/// The result of one unit's ambush or evade roll.
fn roll_outcome(table: &CapabilityTable, u: Unit, t: Terrain, roll: u8, ambush: bool) -> (r: Outcome)
    requires
        table.wf(),
    ensures
        r == (if ambush {
            ambush_outcome(table.tactics(u, t), u, roll)
        } else {
            evade_outcome(table.tactics(u, t), u, roll)
        }),
{
    let threshold = if ambush {
        table.get_ambush(u, t)
    } else {
        table.get_evade(u, t)
    };
    let success = match threshold {
        Some(x) => roll >= x,
        None => false,
    };
    if success {
        if ambush {
            Outcome::ChargeOrAmbush
        } else {
            Outcome::Evaded
        }
    } else if u.is_raider() {
        Outcome::Harass
    } else {
        Outcome::Melee
    }
}

/// Adds the outcome of each unit's roll to `g`, the i-th unit using
/// `rolls[from + i]`.
fn roll_all(
    table: &CapabilityTable,
    g: &mut CombatGroups,
    units: &Vec<Unit>,
    t: Terrain,
    rolls: &Vec<u8>,
    from: usize,
    ambush: bool,
)
    requires
        table.wf(),
        from + units@.len() <= rolls@.len(),
    ensures
        final(g)@ == roll_units(*table, old(g)@, units@, t, rolls@.skip(from as int), ambush),
{
    let ghost base = g@;
    let total: usize = rolls.len();
    let mut i: usize = 0;
    while i < units.len()
        invariant
            table.wf(),
            total == rolls@.len(),
            i <= units@.len(),
            from + units@.len() <= rolls@.len(),
            g@ == roll_units(*table, base, units@.take(i as int), t, rolls@.skip(from as int), ambush),
        decreases units@.len() - i,
    {
        let u = units[i];
        let o = roll_outcome(table, u, t, rolls[from + i], ambush);
        proof {
            assert(units@.take(i + 1).drop_last() =~= units@.take(i as int));
        }
        place(g, o, u);
        i = i + 1;
    }
    proof {
        assert(units@.take(i as int) =~= units@);
    }
}

/// Rolls the pending maneuvers with the given dice: `rolls` holds one die
/// per pending unit, the ambushers' first. A successful ambush joins
/// charge/ambush and a successful evade leaves the battle; a failed one
/// sends raiders to harass and all others to melee.
pub fn resolve(
    table: &CapabilityTable,
    ambush: &Vec<Unit>,
    evade: &Vec<Unit>,
    t: Terrain,
    rolls: &Vec<u8>,
) -> (r: CombatGroups)
    requires
        table.wf(),
        rolls@.len() == ambush@.len() + evade@.len(),
    ensures
        r@ == resolve_groups(*table, ambush@, evade@, t, rolls@),
{
    let mut g = CombatGroups {
        charge_or_ambush: Vec::new(),
        melee: Vec::new(),
        harass: Vec::new(),
        evaded: Vec::new(),
    };
    proof {
        assert(g@ == empty_groups());
        assert(rolls@.skip(0) =~= rolls@);
    }
    roll_all(table, &mut g, ambush, t, rolls, 0, true);
    roll_all(table, &mut g, evade, t, rolls, ambush.len(), false);
    g
}

/// Relies on rand's `rng()`, the thread-local generator (it panics only if
/// the operating system's entropy source cannot seed it), and on
/// `Rng::random_range`, which draws a value from the given range: here the
/// inclusive range 1 to 6, drawn afresh at each call.
#[verifier::external_body]
fn roll_die() -> (r: u8)
    ensures
        1 <= r <= 6,
{
    rand::rng().random_range(1..=6u8)
}

/// Rolls one fresh die for each pending unit, the ambushers first, and
/// resolves the maneuvers with them.
pub fn prebattle_roll(
    table: &CapabilityTable,
    ambush: &Vec<Unit>,
    evade: &Vec<Unit>,
    t: Terrain,
) -> (r: CombatGroups)
    requires
        table.wf(),
    ensures
        exists|rolls: Seq<u8>|
            #[trigger] die_rolls(rolls, ambush@.len() + evade@.len())
                && r@ == resolve_groups(*table, ambush@, evade@, t, rolls),
{
    let mut rolls: Vec<u8> = Vec::new();
    let mut i: usize = 0;
    while i < ambush.len()
        invariant
            i <= ambush@.len(),
            die_rolls(rolls@, i as nat),
        decreases ambush@.len() - i,
    {
        let d = roll_die();
        rolls.push(d);
        i = i + 1;
    }
    let mut j: usize = 0;
    while j < evade.len()
        invariant
            i == ambush@.len(),
            j <= evade@.len(),
            die_rolls(rolls@, (i + j) as nat),
        decreases evade@.len() - j,
    {
        let d = roll_die();
        rolls.push(d);
        j = j + 1;
    }
    let r = resolve(table, ambush, evade, t, &rolls);
    proof {
        assert(die_rolls(rolls@, ambush@.len() + evade@.len()));
    }
    r
}

/// A side's final groups: those placed at assignment, followed in each list
/// by the units that reached it by their roll.
pub open spec fn merge_groups(a: AssignmentView, rolled: CombatGroupsView) -> CombatGroupsView {
    CombatGroupsView {
        charge_or_ambush: a.charge_or_ambush + rolled.charge_or_ambush,
        melee: a.melee + rolled.melee,
        harass: a.harass + rolled.harass,
        evaded: rolled.evaded,
    }
}

/// The final groups of a side assigned as `a` whose dice came up `rolls`.
pub open spec fn side_groups(
    table: CapabilityTable,
    a: AssignmentView,
    t: Terrain,
    rolls: Seq<u8>,
) -> CombatGroupsView {
    merge_groups(a, resolve_groups(table, a.roll_ambush, a.roll_evade, t, rolls))
}

/// The assignment of a side, or the reason its choices are refused.
pub open spec fn assign_result(
    table: CapabilityTable,
    player: Faction,
    space: Space,
    choices: Seq<usize>,
) -> Result<AssignmentView, PreBattleError> {
    let units = present_in(space, roster_of(player));
    if choices.len() != units.len() {
        Err(PreBattleError::ChoiceCountMismatch)
    } else if !choices_valid(table, units, space.terrain, choices) {
        Err(PreBattleError::ChoiceOutOfRange)
    } else {
        Ok(assign_groups(table, units, space.terrain, choices))
    }
}

/// Why a battle's pre-battle phase could not be run.
#[derive(Clone, Copy, Debug, PartialEq, Eq, Structural)]
pub enum BattleError {
    /// Battles are fought on land only.
    NotLand,
    /// The attacker's choices were refused.
    Attacker(PreBattleError),
    /// The defender's choices were refused.
    Defender(PreBattleError),
}

/// Whether `g` is what a side assigned as `a` can reach with some fair dice.
pub open spec fn reachable(table: CapabilityTable, a: AssignmentView, t: Terrain, g: CombatGroupsView) -> bool {
    exists|rolls: Seq<u8>|
        #[trigger] die_rolls(rolls, a.roll_ambush.len() + a.roll_evade.len())
            && g == side_groups(table, a, t, rolls)
}

/// Appends the units of `b` to `a`.
fn append_units(a: &mut Vec<Unit>, b: &Vec<Unit>)
    ensures
        final(a)@ == old(a)@ + b@,
{
    let mut i: usize = 0;
    let ghost start = a@;
    while i < b.len()
        invariant
            i <= b@.len(),
            a@ == start + b@.take(i as int),
        decreases b@.len() - i,
    {
        a.push(b[i]);
        proof {
            assert(b@.take(i + 1) =~= b@.take(i as int).push(b@[i as int]));
        }
        i = i + 1;
    }
    proof {
        assert(b@.take(i as int) =~= b@);
    }
}

/// Rolls one side's pending maneuvers and merges the outcome into the
/// groups placed at assignment.
fn finish_side(table: &CapabilityTable, a: Assignment, t: Terrain) -> (r: CombatGroups)
    requires
        table.wf(),
    ensures
        reachable(*table, a@, t, r@),
{
    let rolled = prebattle_roll(table, &a.roll_ambush, &a.roll_evade, t);
    let mut charge_or_ambush = a.charge_or_ambush;
    let mut melee = a.melee;
    let mut harass = a.harass;
    append_units(&mut charge_or_ambush, &rolled.charge_or_ambush);
    append_units(&mut melee, &rolled.melee);
    append_units(&mut harass, &rolled.harass);
    let r = CombatGroups { charge_or_ambush, melee, harass, evaded: rolled.evaded };
    proof {
        let rolls = choose|rolls: Seq<u8>|
            #[trigger] die_rolls(rolls, a@.roll_ambush.len() + a@.roll_evade.len())
                && rolled@ == resolve_groups(*table, a@.roll_ambush, a@.roll_evade, t, rolls);
        assert(r@ == side_groups(*table, a@, t, rolls));
    }
    r
}

/// Runs the pre-battle phase of a battle in a location: both sides are
/// assigned from their choices (see [`prebattle_assign`]) before any die is
/// rolled, then each side rolls its own dice. Returns the attacker's and the
/// defender's final groups.
pub fn battle(
    table: &CapabilityTable,
    attacker: Faction,
    defender: Faction,
    location: &Location,
    attacker_choices: &Vec<usize>,
    defender_choices: &Vec<usize>,
) -> (r: Result<(CombatGroups, CombatGroups), BattleError>)
    requires
        table.wf(),
    ensures
        match location {
            Location::Sea => r == Err::<(CombatGroups, CombatGroups), BattleError>(BattleError::NotLand),
            Location::Land(space) => match (
                assign_result(*table, attacker, *space, attacker_choices@),
                assign_result(*table, defender, *space, defender_choices@),
            ) {
                (Err(e), _) => r == Err::<(CombatGroups, CombatGroups), BattleError>(BattleError::Attacker(e)),
                (Ok(_), Err(e)) => r == Err::<(CombatGroups, CombatGroups), BattleError>(BattleError::Defender(e)),
                (Ok(aa), Ok(da)) => r matches Ok((ag, dg)) && reachable(*table, aa, space.terrain, ag@)
                    && reachable(*table, da, space.terrain, dg@),
            },
        },
{
    match location {
        Location::Sea => Err(BattleError::NotLand),
        Location::Land(space) => {
            let att = match prebattle_assign(table, attacker, space, attacker_choices) {
                Ok(a) => a,
                Err(e) => {
                    return Err(BattleError::Attacker(e));
                },
            };
            let def = match prebattle_assign(table, defender, space, defender_choices) {
                Ok(a) => a,
                Err(e) => {
                    return Err(BattleError::Defender(e));
                },
            };
            let ag = finish_side(table, att, space.terrain);
            let dg = finish_side(table, def, space.terrain);
            Ok((ag, dg))
        },
    }
}

/// Resolution is a function of the pending units, the terrain and the dice
/// alone: the same inputs with the same die sequence give the same groups.
pub proof fn lemma_resolve_deterministic(
    table: CapabilityTable,
    ambush1: Seq<Unit>,
    evade1: Seq<Unit>,
    rolls1: Seq<u8>,
    ambush2: Seq<Unit>,
    evade2: Seq<Unit>,
    rolls2: Seq<u8>,
    t: Terrain,
)
    requires
        ambush1 == ambush2,
        evade1 == evade2,
        rolls1 == rolls2,
    ensures
        resolve_groups(table, ambush1, evade1, t, rolls1) == resolve_groups(
            table,
            ambush2,
            evade2,
            t,
            rolls2,
        ),
{
}

/// The threshold is inclusive on the success side: a unit whose ambush
/// threshold is `threshold` gets through with a roll of `threshold` or more
/// and fails with anything less; the same holds of evading.
pub proof fn lemma_threshold(table: CapabilityTable, u: Unit, t: Terrain, roll: u8, threshold: u8)
    ensures
        ambush_in(table.tactics(u, t)) == Some(threshold) ==> (ambush_outcome(
            table.tactics(u, t),
            u,
            roll,
        ) == Outcome::ChargeOrAmbush <==> roll >= threshold),
        evade_in(table.tactics(u, t)) == Some(threshold) ==> (evade_outcome(
            table.tactics(u, t),
            u,
            roll,
        ) == Outcome::Evaded <==> roll >= threshold),
        ambush_in(table.tactics(u, t)) == Some(threshold) ==> resolve_groups(
            table,
            seq![u],
            Seq::empty(),
            t,
            seq![roll],
        ) == (if roll >= threshold {
            add_outcome(empty_groups(), Outcome::ChargeOrAmbush, u)
        } else {
            add_outcome(empty_groups(), failed_outcome(u), u)
        }),
        evade_in(table.tactics(u, t)) == Some(threshold) ==> resolve_groups(
            table,
            Seq::empty(),
            seq![u],
            t,
            seq![roll],
        ) == (if roll >= threshold {
            add_outcome(empty_groups(), Outcome::Evaded, u)
        } else {
            add_outcome(empty_groups(), failed_outcome(u), u)
        }),
{
    let one = seq![u];
    let none = Seq::<Unit>::empty();
    let dice = seq![roll];
    let tac = table.tactics(u, t);
    assert(one.drop_last() =~= none);
    assert(dice.skip(0) =~= dice);
    assert(roll_units(table, empty_groups(), none, t, dice, true) == empty_groups());
    assert(roll_units(table, empty_groups(), one, t, dice, true) == add_outcome(
        empty_groups(),
        ambush_outcome(tac, u, roll),
        u,
    ));
    let after = roll_units(table, empty_groups(), one, t, dice, true);
    assert(roll_units(table, after, none, t, dice.skip(1), false) == after);
    assert(roll_units(table, empty_groups(), none, t, dice.skip(0), false) == empty_groups());
    assert(dice.skip(0)[0] == roll);
    assert(roll_units(table, empty_groups(), one, t, dice.skip(0), false) == add_outcome(
        empty_groups(),
        evade_outcome(tac, u, roll),
        u,
    ));
}

} // verus!
