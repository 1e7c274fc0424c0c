//! The sequence of play: which factions may act on each card, in which
//! order, and with which menu of actions.

use vstd::prelude::*;
use crate::catalog::{all_factions, Card, Faction};

verus! {

/// An action a faction may take on its turn.
#[derive(Clone, Copy, Debug, PartialEq, Eq, Structural)]
pub enum Action {
    Pass,
    FirstFactionCommandOnly,
    FirstFactionCommandPlusFeat,
    FirstFactionEvent,
    SecondFactionLimitedCommand,
    SecondFactionEventOrLimitedCommand,
    SecondFactionCommandPlusFeat,
}

/// The display name of an action.
pub open spec fn action_label(a: Action) -> Seq<char> {
    match a {
        Action::Pass => "Pass"@,
        Action::FirstFactionCommandOnly => "Command Only"@,
        Action::FirstFactionCommandPlusFeat => "Command + Feat"@,
        Action::FirstFactionEvent => "Event"@,
        Action::SecondFactionLimitedCommand => "Limited Command"@,
        Action::SecondFactionEventOrLimitedCommand => "Event or Limited Command"@,
        Action::SecondFactionCommandPlusFeat => "Command + Feat"@,
    }
}

impl Action {
    /// The action's name as shown to players.
    pub fn label(&self) -> (r: &'static str)
        ensures
            r@ == action_label(*self),
    {
        match self {
            Action::Pass => "Pass",
            Action::FirstFactionCommandOnly => "Command Only",
            Action::FirstFactionCommandPlusFeat => "Command + Feat",
            Action::FirstFactionEvent => "Event",
            Action::SecondFactionLimitedCommand => "Limited Command",
            Action::SecondFactionEventOrLimitedCommand => "Event or Limited Command",
            Action::SecondFactionCommandPlusFeat => "Command + Feat",
        }
    }
}

/// The menu of actions offered to the next eligible faction: the full menu
/// of the first eligible faction, or the reduced menu left to the second
/// after the first faction's action.
#[derive(Clone, Copy, Debug, PartialEq, Eq, Structural)]
pub enum Menu {
    FirstEligible,
    AfterCommandOnly,
    AfterCommandPlusFeat,
    AfterEvent,
}

/// The actions of a menu, in the order offered.
pub open spec fn menu_actions(m: Menu) -> Seq<Action> {
    match m {
        Menu::FirstEligible => seq![
            Action::Pass,
            Action::FirstFactionCommandOnly,
            Action::FirstFactionCommandPlusFeat,
            Action::FirstFactionEvent,
        ],
        Menu::AfterCommandOnly => seq![Action::Pass, Action::SecondFactionLimitedCommand],
        Menu::AfterCommandPlusFeat => seq![Action::Pass, Action::SecondFactionEventOrLimitedCommand],
        Menu::AfterEvent => seq![Action::Pass, Action::SecondFactionCommandPlusFeat],
    }
}

impl Menu {
    /// The actions of this menu, in the order offered.
    pub fn actions(&self) -> (r: Vec<Action>)
        ensures
            r@ == menu_actions(*self),
    {
        let mut r: Vec<Action> = Vec::new();
        r.push(Action::Pass);
        match self {
            Menu::FirstEligible => {
                r.push(Action::FirstFactionCommandOnly);
                r.push(Action::FirstFactionCommandPlusFeat);
                r.push(Action::FirstFactionEvent);
            },
            Menu::AfterCommandOnly => r.push(Action::SecondFactionLimitedCommand),
            Menu::AfterCommandPlusFeat => r.push(Action::SecondFactionEventOrLimitedCommand),
            Menu::AfterEvent => r.push(Action::SecondFactionCommandPlusFeat),
        }
        proof {
            assert(r@ =~= menu_actions(*self));
        }
        r
    }
}

/// A sequence with every occurrence of `f` taken out.
pub open spec fn without(s: Seq<Faction>, f: Faction) -> Seq<Faction>
    decreases s.len(),
{
    if s.len() == 0 {
        s
    } else {
        let rest = without(s.drop_last(), f);
        if s.last() == f {
            rest
        } else {
            rest.push(s.last())
        }
    }
}

/// The model of a [`SequenceOfPlay`]: the four standings, each in the order
/// in which factions joined it, and the card in play.
pub struct SopView {
    pub eligible: Seq<Faction>,
    pub passed: Seq<Faction>,
    pub acting: Seq<Faction>,
    pub ineligible: Seq<Faction>,
    /// The card's faction order; empty when no card is in play.
    pub order: Seq<Faction>,
    /// Position in `order` of the faction whose decision is awaited.
    pub next: nat,
    /// The menu that faction is offered.
    pub menu: Menu,
}

/// Every faction stands in exactly one of the four lists, once.
pub open spec fn partitioned(v: SopView) -> bool {
    &&& v.eligible.no_duplicates()
    &&& v.passed.no_duplicates()
    &&& v.acting.no_duplicates()
    &&& v.ineligible.no_duplicates()
    &&& forall|f: Faction| #[trigger]
        v.eligible.contains(f) ==> !v.passed.contains(f) && !v.acting.contains(f)
            && !v.ineligible.contains(f)
    &&& forall|f: Faction| #[trigger]
        v.passed.contains(f) ==> !v.acting.contains(f) && !v.ineligible.contains(f)
    &&& forall|f: Faction| #[trigger] v.acting.contains(f) ==> !v.ineligible.contains(f)
    &&& forall|f: Faction|
        #![trigger v.eligible.contains(f)]
        #![trigger v.passed.contains(f)]
        #![trigger v.acting.contains(f)]
        #![trigger v.ineligible.contains(f)]
        v.eligible.contains(f) || v.passed.contains(f) || v.acting.contains(f)
            || v.ineligible.contains(f)
}

/// Whether a card is in play, waiting for a faction's decision.
pub open spec fn in_play(v: SopView) -> bool {
    v.next < v.order.len()
}

/// The standing lists hold together with the card in play: the awaited
/// faction is eligible, the first menu stands exactly while no faction has
/// acted on the card, at most one faction is acting between turns, and at
/// most two were barred by the last card.
pub open spec fn consistent(v: SopView) -> bool {
    &&& partitioned(v)
    &&& v.next <= v.order.len()
    &&& in_play(v) ==> v.eligible.contains(v.order[v.next as int])
    &&& !in_play(v) ==> v.order.len() == 0 && v.menu == Menu::FirstEligible
    &&& (v.menu == Menu::FirstEligible <==> v.acting.len() == 0)
    &&& v.acting.len() <= 1
    &&& v.ineligible.len() <= 2
}

/// The end of a card: passed and barred factions become eligible again,
/// those that acted are barred from the next card, and the card leaves play.
pub open spec fn reset_view(v: SopView) -> SopView {
    SopView {
        eligible: v.eligible + v.passed + v.ineligible,
        passed: Seq::empty(),
        acting: Seq::empty(),
        ineligible: v.acting,
        order: Seq::empty(),
        next: 0,
        menu: Menu::FirstEligible,
    }
}

/// Skips the factions of the order that are not eligible; when the order
/// runs out, the card ends.
pub open spec fn advance_view(v: SopView) -> SopView
    decreases v.order.len() - v.next,
{
    if v.next >= v.order.len() {
        reset_view(v)
    } else if v.eligible.contains(v.order[v.next as int]) {
        v
    } else {
        advance_view(SopView { next: v.next + 1, ..v })
    }
}

/// The state after the awaited faction takes the action at `choice` of its
/// menu. It leaves the eligible list. A pass moves on with the same menu; a
/// first faction's action makes it acting and moves on with the reduced
/// menu that action leaves; a second faction's action makes it acting and
/// ends the card.
pub open spec fn turn_view(v: SopView, choice: int) -> SopView {
    let f = v.order[v.next as int];
    let e = without(v.eligible, f);
    match menu_actions(v.menu)[choice] {
        Action::Pass => advance_view(
            SopView { eligible: e, passed: v.passed.push(f), next: v.next + 1, ..v },
        ),
        Action::FirstFactionCommandOnly => advance_view(
            SopView {
                eligible: e,
                acting: v.acting.push(f),
                next: v.next + 1,
                menu: Menu::AfterCommandOnly,
                ..v
            },
        ),
        Action::FirstFactionCommandPlusFeat => advance_view(
            SopView {
                eligible: e,
                acting: v.acting.push(f),
                next: v.next + 1,
                menu: Menu::AfterCommandPlusFeat,
                ..v
            },
        ),
        Action::FirstFactionEvent => advance_view(
            SopView {
                eligible: e,
                acting: v.acting.push(f),
                next: v.next + 1,
                menu: Menu::AfterEvent,
                ..v
            },
        ),
        _ => reset_view(SopView { eligible: e, acting: v.acting.push(f), ..v }),
    }
}

/// The state once a card with this faction order comes into play.
pub open spec fn start_view(v: SopView, order: Seq<Faction>) -> SopView {
    advance_view(SopView { order, next: 0, menu: Menu::FirstEligible, ..v })
}

proof fn lemma_push_contains(s: Seq<Faction>, x: Faction)
    ensures
        forall|g: Faction| #[trigger] s.push(x).contains(g) <==> s.contains(g) || g == x,
{
    assert forall|g: Faction| #[trigger] s.push(x).contains(g) <==> s.contains(g) || g == x by {
        if s.contains(g) {
            let i = choose|i: int| 0 <= i < s.len() && s[i] == g;
            assert(s.push(x)[i] == g);
        }
        if g == x {
            assert(s.push(x)[s.len() as int] == g);
        }
        if s.push(x).contains(g) && g != x {
            let i = choose|i: int| 0 <= i < s.len() + 1 && s.push(x)[i] == g;
            assert(s[i] == g);
        }
    }
}

proof fn lemma_push_no_duplicates(s: Seq<Faction>, x: Faction)
    requires
        s.no_duplicates(),
        !s.contains(x),
    ensures
        s.push(x).no_duplicates(),
{
    assert forall|i: int, j: int| 0 <= i < j < s.len() + 1 implies s.push(x)[i] != s.push(x)[j] by {
        if j == s.len() {
            assert(s.contains(s[i]));
        }
    }
}

proof fn lemma_concat(a: Seq<Faction>, b: Seq<Faction>)
    ensures
        forall|g: Faction| #[trigger] (a + b).contains(g) <==> a.contains(g) || b.contains(g),
        a.no_duplicates() && b.no_duplicates() && (forall|g: Faction| a.contains(g) ==> !b.contains(g))
            ==> (a + b).no_duplicates(),
{
    assert forall|g: Faction| #[trigger] (a + b).contains(g) <==> a.contains(g) || b.contains(g) by {
        if a.contains(g) {
            let i = choose|i: int| 0 <= i < a.len() && a[i] == g;
            assert((a + b)[i] == g);
        }
        if b.contains(g) {
            let i = choose|i: int| 0 <= i < b.len() && b[i] == g;
            assert((a + b)[a.len() + i] == g);
        }
        if (a + b).contains(g) {
            let i = choose|i: int| 0 <= i < a.len() + b.len() && (a + b)[i] == g;
            if i < a.len() {
                assert(a[i] == g);
            } else {
                assert(b[i - a.len()] == g);
            }
        }
    }
    if a.no_duplicates() && b.no_duplicates() && (forall|g: Faction| a.contains(g) ==> !b.contains(g)) {
        assert forall|i: int, j: int| 0 <= i < j < a.len() + b.len() implies (a + b)[i] != (a
            + b)[j] by {
            if i < a.len() && j >= a.len() {
                assert(a.contains(a[i]));
                assert(b.contains(b[j - a.len()]));
            }
        }
    }
}

proof fn lemma_without(s: Seq<Faction>, f: Faction)
    ensures
        forall|g: Faction| #[trigger] without(s, f).contains(g) <==> s.contains(g) && g != f,
        s.no_duplicates() ==> without(s, f).no_duplicates(),
    decreases s.len(),
{
    if s.len() > 0 {
        let d = s.drop_last();
        lemma_without(d, f);
        lemma_push_contains(d, s.last());
        assert(d.push(s.last()) =~= s);
        lemma_push_contains(without(d, f), s.last());
        if s.no_duplicates() {
            assert(!d.contains(s.last())) by {
                if d.contains(s.last()) {
                    let i = choose|i: int| 0 <= i < d.len() && d[i] == s.last();
                    assert(s[i] == s[s.len() - 1]);
                }
            }
            if s.last() != f {
                lemma_push_no_duplicates(without(d, f), s.last());
            }
        }
    } else {
        assert forall|g: Faction| #[trigger] without(s, f).contains(g) <==> s.contains(g) && g != f by {
        }
    }
}

/// A lasting sequence-of-play state: where each faction stands, and the
/// card in play if any.
pub struct SequenceOfPlay {
    eligible_factions: Vec<Faction>,
    passed_factions: Vec<Faction>,
    acting_factions: Vec<Faction>,
    ineligible_factions: Vec<Faction>,
    order: Vec<Faction>,
    next: usize,
    menu: Menu,
}

impl View for SequenceOfPlay {
    type V = SopView;

    closed spec fn view(&self) -> SopView {
        SopView {
            eligible: self.eligible_factions@,
            passed: self.passed_factions@,
            acting: self.acting_factions@,
            ineligible: self.ineligible_factions@,
            order: self.order@,
            next: self.next as nat,
            menu: self.menu,
        }
    }
}

/// Why a turn could not be taken.
#[derive(Clone, Copy, Debug, PartialEq, Eq, Structural)]
pub enum TurnError {
    /// No card is in play, so no decision is awaited.
    NoCardInPlay,
    /// A card is already in play.
    CardInProgress,
    /// The choice is not an index of the offered menu.
    ChoiceOutOfRange,
}

/// Whether a list holds a faction.
fn holds(v: &Vec<Faction>, f: Faction) -> (r: bool)
    ensures
        r == v@.contains(f),
{
    let mut i: usize = 0;
    while i < v.len()
        invariant
            i <= v@.len(),
            forall|j: int| 0 <= j < i ==> v@[j] != f,
        decreases v@.len() - i,
    {
        if v[i] == f {
            return true;
        }
        i = i + 1;
    }
    false
}

/// Takes a faction out of a list.
fn take_out(v: &mut Vec<Faction>, f: Faction)
    ensures
        final(v)@ == without(old(v)@, f),
{
    let mut kept: Vec<Faction> = Vec::new();
    let mut i: usize = 0;
    while i < v.len()
        invariant
            i <= v@.len(),
            v@ == old(v)@,
            kept@ == without(v@.take(i as int), f),
        decreases v@.len() - i,
    {
        proof {
            assert(v@.take(i + 1).drop_last() =~= v@.take(i as int));
        }
        if v[i] != f {
            kept.push(v[i]);
        }
        i = i + 1;
    }
    proof {
        assert(v@.take(i as int) =~= v@);
    }
    *v = kept;
}

impl SequenceOfPlay {
    /// The well-formedness of the state.
    pub open spec fn wf(&self) -> bool {
        consistent(self@)
    }

    /// A new session: every faction eligible, no card in play.
    pub fn new() -> (r: SequenceOfPlay)
        ensures
            r.wf(),
            r@.eligible == seq![Faction::Civitates, Faction::Dux, Faction::Saxons, Faction::Scotti],
            r@.passed.len() == 0,
            r@.acting.len() == 0,
            r@.ineligible.len() == 0,
            !in_play(r@),
    {
        let mut eligible_factions: Vec<Faction> = Vec::new();
        eligible_factions.push(Faction::Civitates);
        eligible_factions.push(Faction::Dux);
        eligible_factions.push(Faction::Saxons);
        eligible_factions.push(Faction::Scotti);
        let r = SequenceOfPlay {
            eligible_factions,
            passed_factions: Vec::new(),
            acting_factions: Vec::new(),
            ineligible_factions: Vec::new(),
            order: Vec::new(),
            next: 0,
            menu: Menu::FirstEligible,
        };
        proof {
            let e = r@.eligible;
            assert(e =~= seq![Faction::Civitates, Faction::Dux, Faction::Saxons, Faction::Scotti]);
            assert(e[0] == Faction::Civitates && e[1] == Faction::Dux && e[2] == Faction::Saxons
                && e[3] == Faction::Scotti);
            assert forall|f: Faction| e.contains(f) by {
                match f {
                    Faction::Civitates => assert(e[0] == f),
                    Faction::Dux => assert(e[1] == f),
                    Faction::Saxons => assert(e[2] == f),
                    Faction::Scotti => assert(e[3] == f),
                }
            }
        }
        r
    }

    /// Brings a card into play: its faction order is walked from the start
    /// with the first eligible faction's menu, skipping factions that are
    /// not eligible. Refused while another card is in play.
    pub fn round_runner(&mut self, card: &Card) -> (r: Result<(), TurnError>)
        requires
            old(self).wf(),
        ensures
            final(self).wf(),
            in_play(old(self)@) ==> r == Err::<(), TurnError>(TurnError::CardInProgress)
                && final(self)@ == old(self)@,
            !in_play(old(self)@) ==> r == Ok::<(), TurnError>(())
                && final(self)@ == start_view(old(self)@, card.eligibility_order@),
    {
        if self.next < self.order.len() {
            return Err(TurnError::CardInProgress);
        }
        let mut order: Vec<Faction> = Vec::new();
        let mut i: usize = 0;
        while i < card.eligibility_order.len()
            invariant
                i <= card.eligibility_order@.len(),
                order@ == card.eligibility_order@.take(i as int),
            decreases card.eligibility_order@.len() - i,
        {
            order.push(card.eligibility_order[i]);
            proof {
                assert(card.eligibility_order@.take(i + 1) =~= card.eligibility_order@.take(
                    i as int,
                ).push(card.eligibility_order@[i as int]));
            }
            i = i + 1;
        }
        proof {
            assert(order@ =~= card.eligibility_order@);
        }
        self.order = order;
        self.next = 0;
        self.menu = Menu::FirstEligible;
        self.advance();
        Ok(())
    }

    /// The awaited faction takes the action at index `choice` of the menu it
    /// is offered (see [`SequenceOfPlay::offered`]).
    pub fn take_turn(&mut self, choice: usize) -> (r: Result<(), TurnError>)
        requires
            old(self).wf(),
        ensures
            final(self).wf(),
            !in_play(old(self)@) ==> r == Err::<(), TurnError>(TurnError::NoCardInPlay)
                && final(self)@ == old(self)@,
            in_play(old(self)@) && choice >= menu_actions(old(self)@.menu).len() ==> r == Err::<
                (),
                TurnError,
            >(TurnError::ChoiceOutOfRange) && final(self)@ == old(self)@,
            in_play(old(self)@) && choice < menu_actions(old(self)@.menu).len() ==> r == Ok::<
                (),
                TurnError,
            >(()) && final(self)@ == turn_view(old(self)@, choice as int),
    {
        if self.next >= self.order.len() {
            return Err(TurnError::NoCardInPlay);
        }
        let actions = self.menu.actions();
        if choice >= actions.len() {
            return Err(TurnError::ChoiceOutOfRange);
        }
        let ghost v = self@;
        let f = self.order[self.next];
        proof {
            lemma_without(v.eligible, f);
            lemma_push_contains(v.passed, f);
            lemma_push_contains(v.acting, f);
        }
        take_out(&mut self.eligible_factions, f);
        match actions[choice] {
            Action::Pass => {
                proof {
                    lemma_push_no_duplicates(v.passed, f);
                }
                self.passed_factions.push(f);
                self.next = self.next + 1;
                self.advance();
            },
            Action::FirstFactionCommandOnly => {
                proof {
                    lemma_push_no_duplicates(v.acting, f);
                }
                self.acting_factions.push(f);
                self.next = self.next + 1;
                self.menu = Menu::AfterCommandOnly;
                self.advance();
            },
            Action::FirstFactionCommandPlusFeat => {
                proof {
                    lemma_push_no_duplicates(v.acting, f);
                }
                self.acting_factions.push(f);
                self.next = self.next + 1;
                self.menu = Menu::AfterCommandPlusFeat;
                self.advance();
            },
            Action::FirstFactionEvent => {
                proof {
                    lemma_push_no_duplicates(v.acting, f);
                }
                self.acting_factions.push(f);
                self.next = self.next + 1;
                self.menu = Menu::AfterEvent;
                self.advance();
            },
            Action::SecondFactionLimitedCommand
            | Action::SecondFactionEventOrLimitedCommand
            | Action::SecondFactionCommandPlusFeat => {
                proof {
                    lemma_push_no_duplicates(v.acting, f);
                }
                self.acting_factions.push(f);
                self.reset();
            },
        }
        Ok(())
    }

    /// The faction whose decision is awaited, if a card is in play.
    pub fn pending(&self) -> (r: Option<Faction>)
        ensures
            r == (if in_play(self@) {
                Some(self@.order[self@.next as int])
            } else {
                None
            }),
    {
        if self.next < self.order.len() {
            Some(self.order[self.next])
        } else {
            None
        }
    }

    /// The menu offered to the awaited faction.
    pub fn menu(&self) -> (r: Menu)
        ensures
            r == self@.menu,
    {
        self.menu
    }

    /// The actions offered to the awaited faction, in order.
    pub fn offered(&self) -> (r: Vec<Action>)
        ensures
            r@ == menu_actions(self@.menu),
    {
        self.menu.actions()
    }

    /// The eligible factions.
    pub fn eligible_factions(&self) -> (r: &Vec<Faction>)
        ensures
            r@ == self@.eligible,
    {
        &self.eligible_factions
    }

    /// The factions that passed on the card in play.
    pub fn passed_factions(&self) -> (r: &Vec<Faction>)
        ensures
            r@ == self@.passed,
    {
        &self.passed_factions
    }

    /// The factions that acted on the card in play.
    pub fn acting_factions(&self) -> (r: &Vec<Faction>)
        ensures
            r@ == self@.acting,
    {
        &self.acting_factions
    }

    /// The factions that acted on the last card and may not be first
    /// eligible on this one.
    pub fn ineligible_factions(&self) -> (r: &Vec<Faction>)
        ensures
            r@ == self@.ineligible,
    {
        &self.ineligible_factions
    }

    /// Ends the card: the passed and barred factions rejoin the eligible
    /// list, the acting factions become barred, and the card leaves play.
    fn reset(&mut self)
        requires
            partitioned(old(self)@),
            old(self)@.acting.len() <= 2,
        ensures
            final(self)@ == reset_view(old(self)@),
            consistent(final(self)@),
    {
        proof {
            lemma_reset(old(self)@);
        }
        self.eligible_factions.append(&mut self.passed_factions);
        self.eligible_factions.append(&mut self.ineligible_factions);
        std::mem::swap(&mut self.ineligible_factions, &mut self.acting_factions);
        self.order = Vec::new();
        self.next = 0;
        self.menu = Menu::FirstEligible;
        proof {
            assert(self@ =~= reset_view(old(self)@));
        }
    }

    /// Moves past the factions of the order that are not eligible; ends the
    /// card when the order runs out.
    fn advance(&mut self)
        requires
            partitioned(old(self)@),
            old(self)@.next <= old(self)@.order.len(),
            old(self)@.menu == Menu::FirstEligible <==> old(self)@.acting.len() == 0,
            old(self)@.acting.len() <= 1,
            old(self)@.ineligible.len() <= 2,
        ensures
            final(self)@ == advance_view(old(self)@),
            consistent(final(self)@),
    {
        while self.next < self.order.len() && !holds(&self.eligible_factions, self.order[self.next])
            invariant
                partitioned(self@),
                self@.next <= self@.order.len(),
                self@.menu == Menu::FirstEligible <==> self@.acting.len() == 0,
                self@.acting.len() <= 1,
                self@.ineligible.len() <= 2,
                advance_view(self@) == advance_view(old(self)@),
            decreases self@.order.len() - self@.next,
        {
            proof {
                assert(advance_view(self@) == advance_view(SopView { next: self@.next + 1, ..self@ }));
            }
            self.next = self.next + 1;
        }
        if self.next >= self.order.len() {
            self.reset();
        }
    }
}

proof fn lemma_reset(v: SopView)
    requires
        partitioned(v),
        v.acting.len() <= 2,
    ensures
        consistent(reset_view(v)),
{
    let r = reset_view(v);
    lemma_concat(v.eligible, v.passed);
    lemma_concat(v.eligible + v.passed, v.ineligible);
    assert(r.passed.len() == 0 && r.acting.len() == 0);
    assert forall|f: Faction| !r.passed.contains(f) && !r.acting.contains(f) by {}
}

impl Default for SequenceOfPlay {
    /// A new session: every faction eligible, no card in play.
    fn default() -> (r: SequenceOfPlay)
        ensures
            r.wf(),
            r@.eligible == seq![Faction::Civitates, Faction::Dux, Faction::Saxons, Faction::Scotti],
            r@.passed.len() == 0,
            r@.acting.len() == 0,
            r@.ineligible.len() == 0,
            !in_play(r@),
    {
        SequenceOfPlay::new()
    }
}

/// Between turns the four standings (eligible, passed, acting, ineligible)
/// are pairwise disjoint, and together they hold exactly the four factions.
pub proof fn lemma_standings_partition(s: &SequenceOfPlay)
    requires
        s.wf(),
    ensures
        ({
            let e = s@.eligible.to_set();
            let p = s@.passed.to_set();
            let a = s@.acting.to_set();
            let i = s@.ineligible.to_set();
            &&& e.disjoint(p) && e.disjoint(a) && e.disjoint(i)
            &&& p.disjoint(a) && p.disjoint(i)
            &&& a.disjoint(i)
            &&& e.union(p).union(a).union(i) == all_factions()
        }),
{
    let v = s@;
    let e = v.eligible.to_set();
    let p = v.passed.to_set();
    let a = v.acting.to_set();
    let i = v.ineligible.to_set();
    assert forall|f: Faction| e.contains(f) <==> v.eligible.contains(f) by {}
    assert forall|f: Faction| p.contains(f) <==> v.passed.contains(f) by {}
    assert forall|f: Faction| a.contains(f) <==> v.acting.contains(f) by {}
    assert forall|f: Faction| i.contains(f) <==> v.ineligible.contains(f) by {}
    assert(e.union(p).union(a).union(i) =~= all_factions()) by {
        assert forall|f: Faction| #[trigger] all_factions().contains(f) by {
            match f {
                Faction::Civitates => {},
                Faction::Dux => {},
                Faction::Saxons => {},
                Faction::Scotti => {},
            }
        }
    }
}

/// Skipping ineligible factions keeps the state consistent; while the card
/// stays in play nobody's standing changes, and when it ends the factions
/// that acted on it become the barred ones.
proof fn lemma_advance(v: SopView)
    requires
        partitioned(v),
        v.next <= v.order.len(),
        v.menu == Menu::FirstEligible <==> v.acting.len() == 0,
        v.acting.len() <= 1,
        v.ineligible.len() <= 2,
    ensures
        consistent(advance_view(v)),
        in_play(advance_view(v)) ==> advance_view(v).acting == v.acting
            && advance_view(v).ineligible == v.ineligible,
        !in_play(advance_view(v)) ==> advance_view(v).ineligible == v.acting,
    decreases v.order.len() - v.next,
{
    if v.next >= v.order.len() {
        lemma_reset(v);
    } else if !v.eligible.contains(v.order[v.next as int]) {
        lemma_advance(SopView { next: v.next + 1, ..v });
    }
}

/// At most two factions act on any card. Any turn keeps the state
/// consistent, so at most one faction has acted while the card is in play;
/// and when a turn ends the card, the factions barred from the next card are
/// exactly those that acted on this one: the faction that acted before, if
/// any, and the faction that just chose, unless it passed.
pub proof fn lemma_at_most_two_act(v: SopView, choice: int)
    requires
        consistent(v),
        in_play(v),
        0 <= choice < menu_actions(v.menu).len(),
    ensures
        consistent(turn_view(v, choice)),
        turn_view(v, choice).acting.len() <= 1,
        turn_view(v, choice).ineligible.len() <= 2,
        !in_play(turn_view(v, choice)) ==> turn_view(v, choice).ineligible == (if menu_actions(
            v.menu,
        )[choice] == Action::Pass {
            v.acting
        } else {
            v.acting.push(v.order[v.next as int])
        }),
{
    let f = v.order[v.next as int];
    let e = without(v.eligible, f);
    lemma_without(v.eligible, f);
    lemma_push_contains(v.passed, f);
    lemma_push_contains(v.acting, f);
    let a = menu_actions(v.menu)[choice];
    if a == Action::Pass {
        lemma_push_no_duplicates(v.passed, f);
        lemma_advance(SopView { eligible: e, passed: v.passed.push(f), next: v.next + 1, ..v });
    } else {
        lemma_push_no_duplicates(v.acting, f);
        match a {
            Action::FirstFactionCommandOnly => lemma_advance(
                SopView {
                    eligible: e,
                    acting: v.acting.push(f),
                    next: v.next + 1,
                    menu: Menu::AfterCommandOnly,
                    ..v
                },
            ),
            Action::FirstFactionCommandPlusFeat => lemma_advance(
                SopView {
                    eligible: e,
                    acting: v.acting.push(f),
                    next: v.next + 1,
                    menu: Menu::AfterCommandPlusFeat,
                    ..v
                },
            ),
            Action::FirstFactionEvent => lemma_advance(
                SopView {
                    eligible: e,
                    acting: v.acting.push(f),
                    next: v.next + 1,
                    menu: Menu::AfterEvent,
                    ..v
                },
            ),
            _ => lemma_reset(SopView { eligible: e, acting: v.acting.push(f), ..v }),
        }
    }
}

} // verus!
