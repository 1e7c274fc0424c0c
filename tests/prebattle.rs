use dux_engine::capability::{CapabilityTable, PreBattleTactic};
use dux_engine::catalog::{Faction, Location, Space, Terrain, Unit, UnitClass};
use dux_engine::prebattle::{
    battle, offered, prebattle_assign, prebattle_roll, resolve, BattleError, PreBattle,
    PreBattleError,
};

const UNITS: [Unit; 11] = [
    Unit::Comitates,
    Unit::CivitatesSaxonFoederati,
    Unit::CivitatesScottiFoederati,
    Unit::Militia,
    Unit::Cavalry,
    Unit::DuxSaxonFoederati,
    Unit::DuxScottiFoederati,
    Unit::SaxonRaider,
    Unit::SaxonWarband,
    Unit::ScottiRaider,
    Unit::ScottiWarband,
];

const TERRAINS: [Terrain; 4] = [Terrain::Clear, Terrain::Fens, Terrain::Hills, Terrain::City];

#[test]
fn table_home_terrain_entries() {
    let t = CapabilityTable::new();
    let full = vec![PreBattleTactic::Evade(5), PreBattleTactic::Ambush(3)];
    assert_eq!(t.tactics_for(Unit::Comitates, Terrain::Hills), full);
    assert_eq!(t.tactics_for(Unit::Militia, Terrain::Hills), full);
    assert_eq!(t.tactics_for(Unit::CivitatesSaxonFoederati, Terrain::Fens), full);
    assert_eq!(t.tactics_for(Unit::DuxScottiFoederati, Terrain::Hills), full);
    assert_eq!(t.tactics_for(Unit::SaxonWarband, Terrain::Fens), full);
    assert_eq!(t.tactics_for(Unit::ScottiWarband, Terrain::Hills), full);
    assert_eq!(
        t.tactics_for(Unit::SaxonRaider, Terrain::Fens),
        vec![PreBattleTactic::Evade(4), PreBattleTactic::Ambush(5)]
    );
    assert_eq!(
        t.tactics_for(Unit::ScottiRaider, Terrain::Hills),
        vec![PreBattleTactic::Evade(4), PreBattleTactic::Ambush(5)]
    );
}

#[test]
fn table_away_entries() {
    let t = CapabilityTable::new();
    assert!(t.tactics_for(Unit::Comitates, Terrain::Clear).is_empty());
    assert!(t.tactics_for(Unit::Comitates, Terrain::Fens).is_empty());
    assert!(t.tactics_for(Unit::SaxonWarband, Terrain::Hills).is_empty());
    assert_eq!(t.tactics_for(Unit::SaxonRaider, Terrain::Hills), vec![PreBattleTactic::Evade(5)]);
    assert_eq!(t.tactics_for(Unit::ScottiRaider, Terrain::Fens), vec![PreBattleTactic::Evade(5)]);
    assert_eq!(t.tactics_for(Unit::SaxonRaider, Terrain::Clear), vec![PreBattleTactic::Evade(6)]);
    assert_eq!(t.tactics_for(Unit::ScottiRaider, Terrain::City), vec![PreBattleTactic::Evade(6)]);
    for terrain in TERRAINS {
        assert!(t.tactics_for(Unit::Cavalry, terrain).is_empty());
    }
}

#[test]
fn thresholds_by_lookup() {
    let t = CapabilityTable::new();
    assert_eq!(t.get_evade(Unit::Comitates, Terrain::Hills), Some(5));
    assert_eq!(t.get_ambush(Unit::Comitates, Terrain::Hills), Some(3));
    assert_eq!(t.get_evade(Unit::SaxonRaider, Terrain::Fens), Some(4));
    assert_eq!(t.get_ambush(Unit::SaxonRaider, Terrain::Fens), Some(5));
    assert_eq!(t.get_evade(Unit::SaxonRaider, Terrain::Clear), Some(6));
    assert_eq!(t.get_ambush(Unit::SaxonRaider, Terrain::Clear), None);
    assert_eq!(t.get_evade(Unit::Cavalry, Terrain::Hills), None);
    assert_eq!(t.get_ambush(Unit::Militia, Terrain::City), None);
}

#[test]
fn raiders_always_keep_an_evade_option() {
    let t = CapabilityTable::new();
    for u in UNITS {
        for terrain in TERRAINS {
            let home = u.home() == Some(terrain);
            let tactics = t.tactics_for(u, terrain);
            if u.class() == UnitClass::Raider {
                assert!(t.get_evade(u, terrain).is_some());
                if home {
                    assert!(t.get_ambush(u, terrain).is_some());
                }
            } else if !home {
                assert!(tactics.is_empty(), "{:?} in {:?}", u, terrain);
            }
        }
    }
}

#[test]
fn raider_ambush_at_home_threshold_five() {
    let t = CapabilityTable::new();
    let hit = resolve(&t, &vec![Unit::SaxonRaider], &vec![], Terrain::Fens, &vec![5]);
    assert_eq!(hit.charge_or_ambush, vec![Unit::SaxonRaider]);
    assert!(hit.melee.is_empty() && hit.harass.is_empty() && hit.evaded.is_empty());
    let miss = resolve(&t, &vec![Unit::SaxonRaider], &vec![], Terrain::Fens, &vec![4]);
    assert_eq!(miss.harass, vec![Unit::SaxonRaider]);
    assert!(miss.charge_or_ambush.is_empty() && miss.melee.is_empty());
}

#[test]
fn comitates_evade_in_hills_threshold_five() {
    let t = CapabilityTable::new();
    let away = resolve(&t, &vec![], &vec![Unit::Comitates], Terrain::Hills, &vec![5]);
    assert!(away.charge_or_ambush.is_empty());
    assert!(away.melee.is_empty());
    assert!(away.harass.is_empty());
    assert_eq!(away.evaded, vec![Unit::Comitates]);
    let stuck = resolve(&t, &vec![], &vec![Unit::Comitates], Terrain::Hills, &vec![4]);
    assert_eq!(stuck.melee, vec![Unit::Comitates]);
    assert!(stuck.evaded.is_empty());
}

#[test]
fn threshold_is_inclusive() {
    let t = CapabilityTable::new();
    let at = resolve(&t, &vec![Unit::Militia], &vec![], Terrain::Hills, &vec![3]);
    assert_eq!(at.charge_or_ambush, vec![Unit::Militia]);
    let below = resolve(&t, &vec![Unit::Militia], &vec![], Terrain::Hills, &vec![2]);
    assert_eq!(below.melee, vec![Unit::Militia]);
    let six = resolve(&t, &vec![], &vec![Unit::ScottiRaider], Terrain::Clear, &vec![6]);
    assert_eq!(six.evaded, vec![Unit::ScottiRaider]);
    let five = resolve(&t, &vec![], &vec![Unit::ScottiRaider], Terrain::Clear, &vec![5]);
    assert_eq!(five.harass, vec![Unit::ScottiRaider]);
}

#[test]
fn resolve_uses_dice_in_order() {
    let t = CapabilityTable::new();
    let ambush = vec![Unit::ScottiRaider, Unit::ScottiWarband];
    let evade = vec![Unit::ScottiWarband];
    let g = resolve(&t, &ambush, &evade, Terrain::Hills, &vec![6, 1, 5]);
    assert_eq!(g.charge_or_ambush, vec![Unit::ScottiRaider]);
    assert_eq!(g.melee, vec![Unit::ScottiWarband]);
    assert!(g.harass.is_empty());
    assert_eq!(g.evaded, vec![Unit::ScottiWarband]);
}

#[test]
fn resolve_is_deterministic_for_fixed_dice() {
    let t = CapabilityTable::new();
    let ambush = vec![Unit::SaxonRaider, Unit::SaxonWarband];
    let evade = vec![Unit::SaxonWarband];
    let dice = vec![2, 3, 5];
    let a = resolve(&t, &ambush, &evade, Terrain::Fens, &dice);
    let b = resolve(&t, &ambush, &evade, Terrain::Fens, &dice);
    assert_eq!(a.charge_or_ambush, b.charge_or_ambush);
    assert_eq!(a.melee, b.melee);
    assert_eq!(a.harass, b.harass);
    assert_eq!(a.evaded, b.evaded);
    assert_eq!(a.harass, vec![Unit::SaxonRaider]);
    assert_eq!(a.charge_or_ambush, vec![Unit::SaxonWarband]);
    assert_eq!(a.evaded, vec![Unit::SaxonWarband]);
}

#[test]
fn unit_without_threshold_fails_its_maneuver() {
    let t = CapabilityTable::new();
    let g = resolve(&t, &vec![Unit::SaxonRaider, Unit::Comitates], &vec![], Terrain::Clear, &vec![6, 6]);
    assert_eq!(g.harass, vec![Unit::SaxonRaider]);
    assert_eq!(g.melee, vec![Unit::Comitates]);
    assert!(g.charge_or_ambush.is_empty());
}

#[test]
fn offered_options() {
    let t = CapabilityTable::new();
    assert_eq!(
        offered(&t, Unit::Militia, Terrain::Hills),
        vec![PreBattle::Evade, PreBattle::Ambush, PreBattle::Fight]
    );
    assert_eq!(offered(&t, Unit::SaxonRaider, Terrain::Clear), vec![PreBattle::Evade, PreBattle::Fight]);
    assert!(offered(&t, Unit::Cavalry, Terrain::Hills).is_empty());
    assert!(offered(&t, Unit::Militia, Terrain::Fens).is_empty());
    assert_eq!(PreBattle::Evade.label(), "Evade");
    assert_eq!(PreBattle::Ambush.label(), "Ambush");
    assert_eq!(PreBattle::Fight.label(), "None");
}

fn hills_space() -> Space {
    Space {
        terrain: Terrain::Hills,
        militia: 2,
        comitates: 1,
        civitates_saxon_foederati: 1,
        cavalry: 3,
        dux_scotti_foederati: 1,
        scotti_raider: 2,
        ..Default::default()
    }
}

#[test]
fn forces_in_roster_order() {
    let s = hills_space();
    assert_eq!(
        s.forces(Faction::Civitates),
        vec![Unit::Militia, Unit::Comitates, Unit::CivitatesSaxonFoederati]
    );
    assert_eq!(s.forces(Faction::Dux), vec![Unit::Cavalry, Unit::DuxScottiFoederati]);
    assert_eq!(s.forces(Faction::Scotti), vec![Unit::ScottiRaider]);
    assert!(s.forces(Faction::Saxons).is_empty());
    assert_eq!(s.count(Unit::Cavalry), 3);
}

#[test]
fn assign_sorts_by_choice() {
    let t = CapabilityTable::new();
    let s = hills_space();
    // Militia ambush, Comitates evade, Saxon foederati out of home (not asked).
    let a = prebattle_assign(&t, Faction::Civitates, &s, &vec![1, 0, 0]).unwrap();
    assert_eq!(a.roll_ambush, vec![Unit::Militia]);
    assert_eq!(a.roll_evade, vec![Unit::Comitates]);
    assert_eq!(a.melee, vec![Unit::CivitatesSaxonFoederati]);
    assert!(a.charge_or_ambush.is_empty() && a.harass.is_empty());
    // Militia fight.
    let b = prebattle_assign(&t, Faction::Civitates, &s, &vec![2, 2, 9]).unwrap();
    assert_eq!(b.melee, vec![Unit::Militia, Unit::Comitates, Unit::CivitatesSaxonFoederati]);
}

#[test]
fn cavalry_always_charges() {
    let t = CapabilityTable::new();
    let s = hills_space();
    let a = prebattle_assign(&t, Faction::Dux, &s, &vec![0, 2]).unwrap();
    assert_eq!(a.charge_or_ambush, vec![Unit::Cavalry]);
    assert_eq!(a.melee, vec![Unit::DuxScottiFoederati]);
}

#[test]
fn raider_fight_means_harass() {
    let t = CapabilityTable::new();
    let s = hills_space();
    let a = prebattle_assign(&t, Faction::Scotti, &s, &vec![2]).unwrap();
    assert_eq!(a.harass, vec![Unit::ScottiRaider]);
    let away = Space { terrain: Terrain::Clear, saxon_raider: 1, ..Default::default() };
    let b = prebattle_assign(&t, Faction::Saxons, &away, &vec![1]).unwrap();
    assert_eq!(b.harass, vec![Unit::SaxonRaider]);
    let c = prebattle_assign(&t, Faction::Saxons, &away, &vec![0]).unwrap();
    assert_eq!(c.roll_evade, vec![Unit::SaxonRaider]);
}

#[test]
fn warband_fight_means_harass_at_home_only() {
    let t = CapabilityTable::new();
    let fens = Space { terrain: Terrain::Fens, saxon_warband: 3, ..Default::default() };
    let a = prebattle_assign(&t, Faction::Saxons, &fens, &vec![2]).unwrap();
    assert_eq!(a.harass, vec![Unit::SaxonWarband]);
    assert!(a.melee.is_empty());
    // Away from home a warband is offered nothing and goes to melee.
    let hills = Space { terrain: Terrain::Hills, saxon_warband: 3, ..Default::default() };
    let b = prebattle_assign(&t, Faction::Saxons, &hills, &vec![0]).unwrap();
    assert_eq!(b.melee, vec![Unit::SaxonWarband]);
    // A failed warband ambush ends in melee.
    let g = resolve(&t, &vec![Unit::SaxonWarband], &vec![], Terrain::Fens, &vec![2]);
    assert_eq!(g.melee, vec![Unit::SaxonWarband]);
}

#[test]
fn assign_refuses_bad_choices() {
    let t = CapabilityTable::new();
    let s = hills_space();
    assert!(matches!(
        prebattle_assign(&t, Faction::Civitates, &s, &vec![1, 0]),
        Err(PreBattleError::ChoiceCountMismatch)
    ));
    assert!(matches!(
        prebattle_assign(&t, Faction::Civitates, &s, &vec![3, 0, 0]),
        Err(PreBattleError::ChoiceOutOfRange)
    ));
    let away = Space { terrain: Terrain::Clear, saxon_raider: 1, ..Default::default() };
    assert!(matches!(
        prebattle_assign(&t, Faction::Saxons, &away, &vec![2]),
        Err(PreBattleError::ChoiceOutOfRange)
    ));
    let empty = prebattle_assign(&t, Faction::Saxons, &s, &vec![]).unwrap();
    assert!(empty.melee.is_empty() && empty.roll_evade.is_empty());
}

#[test]
fn random_rolls_reach_both_outcomes() {
    let t = CapabilityTable::new();
    let mut evaded = 0;
    let mut melee = 0;
    for _ in 0..300 {
        let g = prebattle_roll(&t, &vec![], &vec![Unit::Comitates], Terrain::Hills);
        assert_eq!(g.evaded.len() + g.melee.len(), 1);
        assert!(g.charge_or_ambush.is_empty() && g.harass.is_empty());
        evaded += g.evaded.len();
        melee += g.melee.len();
    }
    assert!(evaded > 0);
    assert!(melee > 0);
}

#[test]
fn battle_at_sea_is_refused() {
    let t = CapabilityTable::new();
    let r = battle(&t, Faction::Saxons, Faction::Dux, &Location::Sea, &vec![], &vec![]);
    assert!(matches!(r, Err(BattleError::NotLand)));
}

#[test]
fn battle_merges_assignment_and_rolls() {
    let t = CapabilityTable::new();
    let s = hills_space();
    let land = Location::Land(s);
    let r = battle(&t, Faction::Scotti, Faction::Dux, &land, &vec![1], &vec![0, 2]);
    let (att, def) = r.unwrap();
    // The raider ambushed: it either got through or fell back to harass.
    assert_eq!(att.charge_or_ambush.len() + att.harass.len(), 1);
    assert!(att.melee.is_empty() && att.evaded.is_empty());
    assert_eq!(def.charge_or_ambush, vec![Unit::Cavalry]);
    assert_eq!(def.melee, vec![Unit::DuxScottiFoederati]);
    let bad = battle(&t, Faction::Scotti, Faction::Dux, &land, &vec![1], &vec![0]);
    assert!(matches!(bad, Err(BattleError::Defender(PreBattleError::ChoiceCountMismatch))));
    let bad = battle(&t, Faction::Scotti, Faction::Dux, &land, &vec![7], &vec![0, 2]);
    assert!(matches!(bad, Err(BattleError::Attacker(PreBattleError::ChoiceOutOfRange))));
}

#[test]
fn default_space_is_empty() {
    let s = Space::default();
    assert_eq!(s.terrain, Terrain::Clear);
    assert_eq!(s.control, None);
    assert_eq!(s.prosperity, vec![0, 0]);
    for u in UNITS {
        assert_eq!(s.count(u), 0);
    }
    assert!(s.forces(Faction::Dux).is_empty());
}

#[test]
fn unit_catalog() {
    assert_eq!(Unit::ScottiRaider.owner(), Faction::Scotti);
    assert_eq!(Unit::Militia.owner(), Faction::Civitates);
    assert_eq!(Unit::Cavalry.class(), UnitClass::Cavalry);
    assert_eq!(Unit::DuxSaxonFoederati.class(), UnitClass::Comitates);
    assert_eq!(Unit::SaxonWarband.home(), Some(Terrain::Fens));
    assert_eq!(Unit::Cavalry.home(), None);
    assert_eq!(Unit::CivitatesScottiFoederati.label(), "Civitates Scotti Foederati");
    assert_eq!(Faction::Dux.roster(), vec![Unit::Cavalry, Unit::DuxSaxonFoederati, Unit::DuxScottiFoederati]);
    for (i, u) in UNITS.iter().enumerate() {
        assert_eq!(u.index(), i);
        assert_eq!(Unit::at_index(i), *u);
    }
}
