use dux_engine::catalog::{Card, CardCategory, Faction};
use dux_engine::sequence::{Action, Menu, SequenceOfPlay, TurnError};

fn card(number: u8, name: &str) -> Card {
    Card {
        number,
        name: String::from(name),
        eligibility_order: vec![Faction::Saxons, Faction::Civitates, Faction::Dux, Faction::Scotti],
        category: CardCategory::Event,
    }
}

fn assert_partition(s: &SequenceOfPlay) {
    let all = [Faction::Civitates, Faction::Dux, Faction::Saxons, Faction::Scotti];
    for f in all {
        let n = [
            s.eligible_factions(),
            s.passed_factions(),
            s.acting_factions(),
            s.ineligible_factions(),
        ]
        .iter()
        .map(|l| l.iter().filter(|g| **g == f).count())
        .sum::<usize>();
        assert_eq!(n, 1, "{:?} must stand in exactly one list", f);
    }
}

#[test]
fn new_session_has_every_faction_eligible() {
    let s = SequenceOfPlay::new();
    assert_eq!(
        s.eligible_factions(),
        &vec![Faction::Civitates, Faction::Dux, Faction::Saxons, Faction::Scotti]
    );
    assert!(s.passed_factions().is_empty());
    assert!(s.acting_factions().is_empty());
    assert!(s.ineligible_factions().is_empty());
    assert_eq!(s.pending(), None);
    let d = SequenceOfPlay::default();
    assert_eq!(d.eligible_factions(), s.eligible_factions());
}

#[test]
fn first_eligible_menu_is_offered_first() {
    let mut s = SequenceOfPlay::new();
    assert_eq!(s.round_runner(&card(43, "Omens")), Ok(()));
    assert_eq!(s.pending(), Some(Faction::Saxons));
    assert_eq!(s.menu(), Menu::FirstEligible);
    assert_eq!(
        s.offered(),
        vec![
            Action::Pass,
            Action::FirstFactionCommandOnly,
            Action::FirstFactionCommandPlusFeat,
            Action::FirstFactionEvent,
        ]
    );
}

#[test]
fn pass_then_command_plus_feat_leaves_reduced_menu() {
    let mut s = SequenceOfPlay::new();
    s.round_runner(&card(43, "Omens")).unwrap();
    // Saxons pass.
    assert_eq!(s.take_turn(0), Ok(()));
    assert_eq!(s.pending(), Some(Faction::Civitates));
    assert_eq!(s.menu(), Menu::FirstEligible);
    // Civitates take Command + Feat.
    assert_eq!(s.take_turn(2), Ok(()));
    assert_eq!(s.pending(), Some(Faction::Dux));
    assert_eq!(s.offered(), vec![Action::Pass, Action::SecondFactionEventOrLimitedCommand]);
    // Dux pass: Scotti get the same reduced menu.
    assert_eq!(s.take_turn(0), Ok(()));
    assert_eq!(s.pending(), Some(Faction::Scotti));
    assert_eq!(s.offered(), vec![Action::Pass, Action::SecondFactionEventOrLimitedCommand]);
    assert_partition(&s);
}

#[test]
fn acted_faction_is_ineligible_on_next_card() {
    let mut s = SequenceOfPlay::new();
    s.round_runner(&card(43, "Omens")).unwrap();
    s.take_turn(0).unwrap(); // Saxons pass
    s.take_turn(2).unwrap(); // Civitates Command + Feat
    s.take_turn(0).unwrap(); // Dux pass
    s.take_turn(0).unwrap(); // Scotti pass: the order runs out
    assert_eq!(s.pending(), None);
    assert_eq!(s.ineligible_factions(), &vec![Faction::Civitates]);
    assert!(!s.eligible_factions().contains(&Faction::Civitates));
    assert_eq!(s.round_runner(&card(44, "Lindsey")), Ok(()));
    assert!(s.ineligible_factions().contains(&Faction::Civitates));
    assert!(!s.eligible_factions().contains(&Faction::Civitates));
    assert_partition(&s);
}

#[test]
fn second_faction_action_ends_the_card() {
    let mut s = SequenceOfPlay::new();
    s.round_runner(&card(43, "Omens")).unwrap();
    s.take_turn(3).unwrap(); // Saxons: Event
    assert_eq!(s.pending(), Some(Faction::Civitates));
    assert_eq!(s.offered(), vec![Action::Pass, Action::SecondFactionCommandPlusFeat]);
    assert_eq!(s.acting_factions(), &vec![Faction::Saxons]);
    s.take_turn(1).unwrap(); // Civitates: Command + Feat as second faction
    assert_eq!(s.pending(), None);
    assert!(s.acting_factions().is_empty());
    assert_eq!(s.ineligible_factions(), &vec![Faction::Saxons, Faction::Civitates]);
    assert_eq!(s.eligible_factions(), &vec![Faction::Dux, Faction::Scotti]);
    assert_partition(&s);
}

#[test]
fn barred_factions_are_skipped_and_then_restored() {
    let mut s = SequenceOfPlay::new();
    s.round_runner(&card(43, "Omens")).unwrap();
    s.take_turn(1).unwrap(); // Saxons: Command Only
    assert_eq!(s.offered(), vec![Action::Pass, Action::SecondFactionLimitedCommand]);
    s.take_turn(1).unwrap(); // Civitates: Limited Command
    assert_eq!(s.ineligible_factions().len(), 2);
    // Next card: Saxons and Civitates are skipped, Dux is first eligible.
    s.round_runner(&card(44, "Lindsey")).unwrap();
    assert_eq!(s.pending(), Some(Faction::Dux));
    assert_eq!(s.menu(), Menu::FirstEligible);
    s.take_turn(0).unwrap(); // Dux pass
    s.take_turn(0).unwrap(); // Scotti pass
    assert_eq!(s.pending(), None);
    // Nobody acted: all four are eligible again.
    assert!(s.ineligible_factions().is_empty());
    assert_eq!(s.eligible_factions().len(), 4);
    assert_partition(&s);
}

#[test]
fn at_most_two_factions_act_per_card() {
    let mut s = SequenceOfPlay::new();
    for (n, choices) in [(1u8, [1usize, 1]), (2, [2, 1]), (3, [3, 1])] {
        s.round_runner(&card(n, "Card")).unwrap();
        for c in choices {
            if s.pending().is_some() {
                s.take_turn(c).unwrap();
                assert!(s.acting_factions().len() <= 1);
            }
        }
        while s.pending().is_some() {
            s.take_turn(0).unwrap();
        }
        assert!(s.ineligible_factions().len() <= 2);
        assert_partition(&s);
    }
}

#[test]
fn choice_outside_menu_is_refused() {
    let mut s = SequenceOfPlay::new();
    s.round_runner(&card(43, "Omens")).unwrap();
    assert_eq!(s.take_turn(4), Err(TurnError::ChoiceOutOfRange));
    assert_eq!(s.pending(), Some(Faction::Saxons));
    s.take_turn(2).unwrap();
    assert_eq!(s.take_turn(2), Err(TurnError::ChoiceOutOfRange));
    assert_eq!(s.pending(), Some(Faction::Civitates));
    assert_partition(&s);
}

#[test]
fn turn_without_card_is_refused() {
    let mut s = SequenceOfPlay::new();
    assert_eq!(s.take_turn(0), Err(TurnError::NoCardInPlay));
    assert_eq!(s.eligible_factions().len(), 4);
}

#[test]
fn second_card_while_one_is_in_play_is_refused() {
    let mut s = SequenceOfPlay::new();
    s.round_runner(&card(43, "Omens")).unwrap();
    assert_eq!(s.round_runner(&card(44, "Lindsey")), Err(TurnError::CardInProgress));
    assert_eq!(s.pending(), Some(Faction::Saxons));
}

#[test]
fn empty_order_ends_card_at_once() {
    let mut s = SequenceOfPlay::new();
    s.round_runner(&card(43, "Omens")).unwrap();
    s.take_turn(1).unwrap();
    s.take_turn(0).unwrap();
    s.take_turn(0).unwrap();
    s.take_turn(0).unwrap();
    assert_eq!(s.ineligible_factions(), &vec![Faction::Saxons]);
    let blank = Card {
        number: 1,
        name: String::from("Blank"),
        eligibility_order: vec![],
        category: CardCategory::Epoch,
    };
    s.round_runner(&blank).unwrap();
    assert_eq!(s.pending(), None);
    assert!(s.ineligible_factions().is_empty());
    assert_eq!(s.eligible_factions().len(), 4);
}

#[test]
fn action_and_faction_labels() {
    assert_eq!(Action::Pass.label(), "Pass");
    assert_eq!(Action::FirstFactionCommandOnly.label(), "Command Only");
    assert_eq!(Action::FirstFactionCommandPlusFeat.label(), "Command + Feat");
    assert_eq!(Action::FirstFactionEvent.label(), "Event");
    assert_eq!(Action::SecondFactionLimitedCommand.label(), "Limited Command");
    assert_eq!(Action::SecondFactionEventOrLimitedCommand.label(), "Event or Limited Command");
    assert_eq!(Action::SecondFactionCommandPlusFeat.label(), "Command + Feat");
    assert_eq!(Faction::Civitates.label(), "Civitates");
    assert_eq!(Faction::Dux.label(), "Dux");
    assert_eq!(Faction::Saxons.label(), "Saxons");
    assert_eq!(Faction::Scotti.label(), "Scotti");
}
