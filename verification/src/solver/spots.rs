use vstd::prelude::*;

use crate::cards::{Card, CardMask, HoleCards};
use crate::range::{avoids, Range};
use crate::phase_text::{push_phase_text, spec_phase_text};
use crate::rules_text::state_error_text;
use crate::text::{decimal, push_decimal, push_str};
use crate::holdem::{
    shared_hole_card, Chips, spec_new_hand, HandModel, HandPhase, HoldemConfig, HoldemHandState,
    HoldemStateError, PlayerAction, Street, MAX_CHIPS,
};

verus! {

// ---------------------------------------------------------------------------
// Playing a public script.
// ---------------------------------------------------------------------------

/// The hand after taking `actions` in order, or the first refusal.
pub open spec fn spec_run_actions(m: HandModel, actions: Seq<PlayerAction>) -> Result<
    HandModel,
    HoldemStateError,
>
    decreases actions.len(),
{
    if actions.len() == 0 {
        Ok(m)
    } else {
        match spec_run_actions(m, actions.drop_last()) {
            Err(e) => Err(e),
            Ok(m1) => {
                let (m2, r) = m1.apply(actions.last());
                match r {
                    Ok(()) => Ok(m2),
                    Err(e) => Err(e),
                }
            },
        }
    }
}

/// A fresh hand at the given stacks, or why it cannot start.
pub open spec fn spec_start(
    config: HoldemConfig,
    button: HoleCards,
    big_blind: HoleCards,
    button_stack: Chips,
    big_blind_stack: Chips,
) -> Result<HandModel, HoldemStateError> {
    match config.spec_validate() {
        Err(e) => Err(HoldemStateError::InvalidConfig(e)),
        Ok(()) => match shared_hole_card(button, big_blind) {
            Some(card) => Err(HoldemStateError::DuplicateHoleCard { card }),
            None => Ok(spec_new_hand(config, button, big_blind, button_stack, big_blind_stack)),
        },
    }
}

/// The stack a seat of a script starts with: its own, or the configured one.
pub open spec fn stack_or_default(stack: Option<Chips>, config: HoldemConfig) -> Chips {
    match stack {
        Some(s) => s,
        None => config.starting_stack,
    }
}

/// The stacks of a script fit the chip limit.
pub open spec fn stacks_fit(config: HoldemConfig, button: Option<Chips>, big_blind: Option<Chips>) -> bool {
    &&& config.starting_stack <= MAX_CHIPS
    &&& stack_or_default(button, config) <= MAX_CHIPS
    &&& stack_or_default(big_blind, config) <= MAX_CHIPS
}

/// Whether the stacks of a script fit the chip limit.
pub fn check_stacks_fit(config: HoldemConfig, button: Option<Chips>, big_blind: Option<Chips>) -> (r: bool)
    ensures
        r == stacks_fit(config, button, big_blind),
{
    let button_stack = match button {
        Some(s) => s,
        None => config.starting_stack,
    };
    let big_blind_stack = match big_blind {
        Some(s) => s,
        None => config.starting_stack,
    };
    config.starting_stack <= MAX_CHIPS && button_stack <= MAX_CHIPS && big_blind_stack <= MAX_CHIPS
}

/// Starts the hand of a script, each seat at its own stack where it has one.
pub fn start_scripted_hand(
    config: HoldemConfig,
    button_hole_cards: HoleCards,
    big_blind_hole_cards: HoleCards,
    button_starting_stack: Option<Chips>,
    big_blind_starting_stack: Option<Chips>,
) -> (r: Result<HoldemHandState, HoldemStateError>)
    requires
        stacks_fit(config, button_starting_stack, big_blind_starting_stack),
    ensures
        match spec_start(
            config,
            button_hole_cards,
            big_blind_hole_cards,
            stack_or_default(button_starting_stack, config),
            stack_or_default(big_blind_starting_stack, config),
        ) {
            Ok(m) => r matches Ok(s) && s@ == m && s.wf(),
            Err(e) => r == Err::<HoldemHandState, HoldemStateError>(e),
        },
{
    let button_stack = match button_starting_stack {
        Some(s) => s,
        None => config.starting_stack,
    };
    let big_blind_stack = match big_blind_starting_stack {
        Some(s) => s,
        None => config.starting_stack,
    };
    HoldemHandState::new_with_starting_stacks(
        config,
        button_hole_cards,
        big_blind_hole_cards,
        button_stack,
        big_blind_stack,
    )
}

/// Continues a script with actions.
pub open spec fn then_actions(
    start: Result<HandModel, HoldemStateError>,
    actions: Seq<PlayerAction>,
) -> Result<HandModel, HoldemStateError> {
    match start {
        Err(e) => Err(e),
        Ok(m) => spec_run_actions(m, actions),
    }
}

/// Continues a script by dealing a street.
pub open spec fn then_deal(
    start: Result<HandModel, HoldemStateError>,
    street: Street,
    cards: Seq<Card>,
) -> Result<HandModel, HoldemStateError> {
    match start {
        Err(e) => Err(e),
        Ok(m) => {
            let (m2, r) = m.deal(street, cards);
            match r {
                Ok(()) => Ok(m2),
                Err(e) => Err(e),
            }
        },
    }
}

/// Takes `actions` in order, stopping at the first refusal.
fn run_actions(state: &mut HoldemHandState, actions: &Vec<PlayerAction>) -> (r: Result<
    (),
    HoldemStateError,
>)
    requires
        old(state).wf(),
    ensures
        final(state).wf(),
        match spec_run_actions(old(state)@, actions@) {
            Ok(m) => r is Ok && final(state)@ == m,
            Err(e) => r == Err::<(), HoldemStateError>(e),
        },
{
    let mut i: usize = 0;
    while i < actions.len()
        invariant
            state.wf(),
            i <= actions@.len(),
            spec_run_actions(old(state)@, actions@.take(i as int)) == Ok::<
                HandModel,
                HoldemStateError,
            >(state@),
        decreases actions@.len() - i,
    {
        proof {
            assert(actions@.take(i + 1).drop_last() =~= actions@.take(i as int));
        }
        match state.apply_action(actions[i]) {
            Ok(()) => {},
            Err(e) => {
                proof {
                    lemma_run_error_persists(old(state)@, actions@, i + 1, e);
                }
                return Err(e);
            },
        }
        i = i + 1;
    }
    proof {
        assert(actions@.take(i as int) =~= actions@);
    }
    Ok(())
}

proof fn lemma_run_error_persists(m: HandModel, actions: Seq<PlayerAction>, k: int, e: HoldemStateError)
    requires
        0 <= k <= actions.len(),
        spec_run_actions(m, actions.take(k)) == Err::<HandModel, HoldemStateError>(e),
    ensures
        spec_run_actions(m, actions) == Err::<HandModel, HoldemStateError>(e),
    decreases actions.len() - k,
{
    if k == actions.len() {
        assert(actions.take(k) =~= actions);
    } else {
        assert(actions.take(k + 1).drop_last() =~= actions.take(k));
        lemma_run_error_persists(m, actions, k + 1, e);
    }
}

// ---------------------------------------------------------------------------
// Scripted spots.
// ---------------------------------------------------------------------------

/// Why a scripted spot could not be set up.
#[derive(Debug)]
pub enum RiverSolveError {
    NoValidDeals,
    SpotAlreadyTerminal,
    UnexpectedPhase(HandPhase),
    State(HoldemStateError),
}

#[derive(Debug)]
pub enum TurnSolveError {
    NoValidDeals,
    SpotAlreadyTerminal,
    UnexpectedPhase(HandPhase),
    State(HoldemStateError),
}

#[derive(Debug)]
pub enum FlopSolveError {
    NoValidDeals,
    SpotAlreadyTerminal,
    UnexpectedPhase(HandPhase),
    State(HoldemStateError),
}

/// Why a stored strategy could not be used.
#[derive(Debug, Clone, PartialEq, Eq)]
pub enum TurnArtifactError {
    UnsupportedFormatVersion { expected: u32, actual: u32 },
    Encode(String),
    Decode(String),
}

#[derive(Debug, Clone, PartialEq, Eq)]
pub enum TurnCheckpointError {
    UnsupportedFormatVersion { expected: u32, actual: u32 },
    Encode(String),
    Decode(String),
}

#[derive(Debug, Clone, PartialEq, Eq)]
pub enum FlopArtifactError {
    UnsupportedFormatVersion { expected: u32, actual: u32 },
    Encode(String),
    Decode(String),
}

#[derive(Debug, Clone, PartialEq, Eq)]
pub enum FlopCheckpointError {
    UnsupportedFormatVersion { expected: u32, actual: u32 },
    Encode(String),
    Decode(String),
}

/// A public line of play that ends with a river decision.
#[derive(Debug, Clone, PartialEq, Eq)]
pub struct ScriptedRiverSpot {
    pub config: HoldemConfig,
    /// The button's stack when it is not the configured one.
    pub button_starting_stack: Option<Chips>,
    /// The big blind's stack when it is not the configured one.
    pub big_blind_starting_stack: Option<Chips>,
    pub preflop_actions: Vec<PlayerAction>,
    pub flop: [Card; 3],
    pub flop_actions: Vec<PlayerAction>,
    pub turn: Card,
    pub turn_actions: Vec<PlayerAction>,
    pub river: Card,
    pub river_prefix_actions: Vec<PlayerAction>,
}

/// A public line of play that ends with a turn decision.
#[derive(Debug, Clone, PartialEq, Eq)]
pub struct ScriptedTurnSpot {
    pub config: HoldemConfig,
    /// The button's stack when it is not the configured one.
    pub button_starting_stack: Option<Chips>,
    /// The big blind's stack when it is not the configured one.
    pub big_blind_starting_stack: Option<Chips>,
    pub preflop_actions: Vec<PlayerAction>,
    pub flop: [Card; 3],
    pub flop_actions: Vec<PlayerAction>,
    pub turn: Card,
    pub turn_prefix_actions: Vec<PlayerAction>,
}

/// A public line of play that ends with a flop decision.
#[derive(Debug, Clone, PartialEq, Eq)]
pub struct ScriptedFlopSpot {
    pub config: HoldemConfig,
    /// The button's stack when it is not the configured one.
    pub button_starting_stack: Option<Chips>,
    /// The big blind's stack when it is not the configured one.
    pub big_blind_starting_stack: Option<Chips>,
    pub preflop_actions: Vec<PlayerAction>,
    pub flop: [Card; 3],
    pub flop_prefix_actions: Vec<PlayerAction>,
}

impl ScriptedRiverSpot {
    /// Whether the script's stacks fit the chip limit.
    pub fn fits_chip_limit(&self) -> (r: bool)
        ensures
            r == self.stacks_fit(),
    {
        check_stacks_fit(self.config, self.button_starting_stack, self.big_blind_starting_stack)
    }

    /// The script's stacks fit the chip limit.
    pub open spec fn stacks_fit(&self) -> bool {
        stacks_fit(self.config, self.button_starting_stack, self.big_blind_starting_stack)
    }

    /// The hand when the last board card of the script is dealt, or the first error.
    pub open spec fn spec_street_start(&self, button: HoleCards, big_blind: HoleCards) -> Result<
        HandModel,
        HoldemStateError,
    > {
        let start = spec_start(
            self.config,
            button,
            big_blind,
            stack_or_default(self.button_starting_stack, self.config),
            stack_or_default(self.big_blind_starting_stack, self.config),
        );
        let pre = then_actions(start, self.preflop_actions@);
        let flop = then_actions(then_deal(pre, Street::Flop, self.flop@), self.flop_actions@);
        let turn = then_actions(then_deal(flop, Street::Turn, seq![self.turn]), self.turn_actions@);
        then_deal(turn, Street::River, seq![self.river])
    }

    /// The hand after the whole script, or its first error.
    pub open spec fn spec_script(&self, button: HoleCards, big_blind: HoleCards) -> Result<
        HandModel,
        HoldemStateError,
    > {
        then_actions(self.spec_street_start(button, big_blind), self.river_prefix_actions@)
    }

    /// Plays the script up to the deal of its last board card.
    pub fn street_start_state(&self, button_hole_cards: HoleCards, big_blind_hole_cards: HoleCards) -> (r:
        Result<HoldemHandState, HoldemStateError>)
        requires
            self.stacks_fit(),
        ensures
            match self.spec_street_start(button_hole_cards, big_blind_hole_cards) {
                Ok(m) => r matches Ok(s) && s@ == m && s.wf(),
                Err(e) => r == Err::<HoldemHandState, HoldemStateError>(e),
            },
    {
        let mut state = match start_scripted_hand(
            self.config,
            button_hole_cards,
            big_blind_hole_cards,
            self.button_starting_stack,
            self.big_blind_starting_stack,
        ) {
            Ok(state) => state,
            Err(e) => {
                return Err(e);
            },
        };
        if let Err(e) = run_actions(&mut state, &self.preflop_actions) {
            return Err(e);
        }
        if let Err(e) = state.deal_flop(self.flop) {
            return Err(e);
        }
        if let Err(e) = run_actions(&mut state, &self.flop_actions) {
            return Err(e);
        }
        if let Err(e) = state.deal_turn(self.turn) {
            return Err(e);
        }
        if let Err(e) = run_actions(&mut state, &self.turn_actions) {
            return Err(e);
        }
        if let Err(e) = state.deal_river(self.river) {
            return Err(e);
        }

        Ok(state)
    }

    /// Plays the script with the given hands; succeeds when it stops at a river
    /// decision.
    pub fn build_state(&self, button_hole_cards: HoleCards, big_blind_hole_cards: HoleCards) -> (r:
        Result<HoldemHandState, RiverSolveError>)
        requires
            self.stacks_fit(),
        ensures
            match self.spec_script(button_hole_cards, big_blind_hole_cards) {
                Err(e) => r matches Err(RiverSolveError::State(f)) && f == e,
                Ok(m) => match m.phase {
                    HandPhase::BettingRound { street, .. } => if street == Street::River {
                        r matches Ok(s) && s@ == m && s.wf()
                    } else {
                        r matches Err(RiverSolveError::UnexpectedPhase(p)) && p == m.phase
                    },
                    HandPhase::Terminal { .. } => r matches Err(RiverSolveError::SpotAlreadyTerminal),
                    _ => r matches Err(RiverSolveError::UnexpectedPhase(p)) && p == m.phase,
                },
            },
    {
        let mut state = match self.street_start_state(button_hole_cards, big_blind_hole_cards) {
            Ok(state) => state,
            Err(e) => {
                return Err(RiverSolveError::State(e));
            },
        };
        if let Err(e) = run_actions(&mut state, &self.river_prefix_actions) {
            return Err(RiverSolveError::State(e));
        }
        match state.phase() {
            HandPhase::BettingRound { street, .. } => {
                if street == Street::River {
                    Ok(state)
                } else {
                    Err(RiverSolveError::UnexpectedPhase(state.phase()))
                }
            },
            HandPhase::Terminal { .. } => Err(RiverSolveError::SpotAlreadyTerminal),
            phase => Err(RiverSolveError::UnexpectedPhase(phase)),
        }
    }

    /// The five board cards of the script.
    pub fn board_cards(&self) -> (r: [Card; 5])
        ensures
            r@ == self.flop@.push(self.turn).push(self.river),
    {
        let r = [self.flop[0], self.flop[1], self.flop[2], self.turn, self.river];
        proof {
            assert(r@ =~= self.flop@.push(self.turn).push(self.river));
        }
        r
    }
}

/// Whether two hands share a card.
pub open spec fn hands_overlap(a: HoleCards, b: HoleCards) -> bool {
    exists|i: int| #[trigger] a.card_set().contains(i) && b.card_set().contains(i)
}

/// The pairs of `b` with each hand of `ds` that shares no card with it, in order.
pub open spec fn pairs_with(b: HoleCards, ds: Seq<HoleCards>) -> Seq<(HoleCards, HoleCards)>
    decreases ds.len(),
{
    if ds.len() == 0 {
        Seq::empty()
    } else {
        let rest = pairs_with(b, ds.drop_last());
        if hands_overlap(b, ds.last()) {
            rest
        } else {
            rest.push((b, ds.last()))
        }
    }
}

/// Every pair of a hand of `bs` with a hand of `ds` that shares no card with it: the
/// hands of `bs` in order, each with the hands of `ds` in order.
pub open spec fn deal_pairs(bs: Seq<HoleCards>, ds: Seq<HoleCards>) -> Seq<(HoleCards, HoleCards)>
    decreases bs.len(),
{
    if bs.len() == 0 {
        Seq::empty()
    } else {
        deal_pairs(bs.drop_last(), ds) + pairs_with(bs.last(), ds)
    }
}

/// One deal of a scripted spot: the two hands and the hand at the spot's decision.
#[derive(Debug, Clone)]
pub struct SpotDeal {
    pub button_hole_cards: HoleCards,
    pub big_blind_hole_cards: HoleCards,
    pub state: HoldemHandState,
}

impl ScriptedRiverSpot {
    /// The positions of the five board cards.
    pub open spec fn board_set(&self) -> Set<int> {
        Set::new(
            |i: int|
                exists|k: int|
                    0 <= k < 5 && (#[trigger] self.flop@.push(self.turn).push(self.river)[k]).code()
                        == i,
        )
    }

    /// The pairs of hands the spot can be dealt from two ranges: the hands of each
    /// range that avoid the board, paired when they share no card.
    pub open spec fn spec_deal_pairs(&self, button_range: Seq<HoleCards>, big_blind_range: Seq<HoleCards>) -> Seq<
        (HoleCards, HoleCards),
    > {
        deal_pairs(
            button_range.filter(|h: HoleCards| avoids(h, self.board_set())),
            big_blind_range.filter(|h: HoleCards| avoids(h, self.board_set())),
        )
    }

    /// What setting the spot up with two hands gives: the hand at the river decision,
    /// or why there is none.
    pub open spec fn spec_river_state(&self, button: HoleCards, big_blind: HoleCards) -> Result<
        HandModel,
        RiverSolveError,
    > {
        match self.spec_script(button, big_blind) {
            Err(e) => Err(RiverSolveError::State(e)),
            Ok(m) => match m.phase {
                HandPhase::BettingRound { street, .. } => if street == Street::River {
                    Ok(m)
                } else {
                    Err(RiverSolveError::UnexpectedPhase(m.phase))
                },
                HandPhase::Terminal { .. } => Err(RiverSolveError::SpotAlreadyTerminal),
                _ => Err(RiverSolveError::UnexpectedPhase(m.phase)),
            },
        }
    }

    /// The error of the first pair of `pairs` that cannot be set up, if any.
    pub open spec fn first_failure(&self, pairs: Seq<(HoleCards, HoleCards)>) -> Option<RiverSolveError>
        decreases pairs.len(),
    {
        if pairs.len() == 0 {
            None
        } else {
            match self.first_failure(pairs.drop_last()) {
                Some(e) => Some(e),
                None => match self.spec_river_state(pairs.last().0, pairs.last().1) {
                    Err(e) => Some(e),
                    Ok(_) => None,
                },
            }
        }
    }

    /// The deals the spot can be played with from two ranges, in order: each pair of
    /// hands from the ranges that avoid the board and share no card, with its hand at
    /// the river decision. The first pair that cannot be set up gives its error; no
    /// pair at all is refused.
    pub fn river_deals(&self, button_range: &Range, big_blind_range: &Range) -> (r: Result<
        Vec<SpotDeal>,
        RiverSolveError,
    >)
        requires
            self.stacks_fit(),
            button_range.wf(),
            big_blind_range.wf(),
        ensures
            ({
                let pairs = self.spec_deal_pairs(button_range@, big_blind_range@);
                match self.first_failure(pairs) {
                    Some(e) => r matches Err(f) && f == e,
                    None => if pairs.len() == 0 {
                        r matches Err(RiverSolveError::NoValidDeals)
                    } else {
                        r matches Ok(v) && v@.len() == pairs.len() && forall|k: int|
                            0 <= k < pairs.len() ==> {
                                &&& (#[trigger] v@[k]).button_hole_cards == pairs[k].0
                                &&& v@[k].big_blind_hole_cards == pairs[k].1
                                &&& v@[k].state.wf()
                                &&& self.spec_river_state(pairs[k].0, pairs[k].1) == Ok::<
                                    HandModel,
                                    RiverSolveError,
                                >(v@[k].state@)
                            }
                    },
                }
            }),
    {
        let board_cards = self.board_cards();
        let board_mask = CardMask::from_cards(board_cards.as_slice());
        proof {
            assert(board_mask@ =~= self.board_set());
        }
        let buttons = button_range.without_dead_cards(board_mask);
        let big_blinds = big_blind_range.without_dead_cards(board_mask);
        let pairs = deal_pair_list(buttons.combos(), big_blinds.combos());
        let deals = self.deals_for_pairs(&pairs)?;
        if deals.len() == 0 {
            return Err(RiverSolveError::NoValidDeals);
        }
        Ok(deals)
    }

    /// Sets the spot up with each pair of hands in turn, stopping at the first that
    /// cannot be set up.
    fn deals_for_pairs(&self, pairs: &Vec<(HoleCards, HoleCards)>) -> (r: Result<
        Vec<SpotDeal>,
        RiverSolveError,
    >)
        requires
            self.stacks_fit(),
        ensures
            match self.first_failure(pairs@) {
                Some(e) => r matches Err(f) && f == e,
                None => r matches Ok(v) && v@.len() == pairs@.len() && forall|k: int|
                    0 <= k < pairs@.len() ==> {
                        &&& (#[trigger] v@[k]).button_hole_cards == pairs@[k].0
                        &&& v@[k].big_blind_hole_cards == pairs@[k].1
                        &&& v@[k].state.wf()
                        &&& self.spec_river_state(pairs@[k].0, pairs@[k].1) == Ok::<
                            HandModel,
                            RiverSolveError,
                        >(v@[k].state@)
                    },
            },
    {
        let ghost all = pairs@;
        let mut deals: Vec<SpotDeal> = Vec::new();
        let mut k: usize = 0;
        while k < pairs.len()
            invariant
                pairs@ == all,
                k <= all.len(),
                self.stacks_fit(),
                self.first_failure(all.take(k as int)) is None,
                deals@.len() == k,
                forall|n: int|
                    0 <= n < k ==> {
                        &&& (#[trigger] deals@[n]).button_hole_cards == all[n].0
                        &&& deals@[n].big_blind_hole_cards == all[n].1
                        &&& deals@[n].state.wf()
                        &&& self.spec_river_state(all[n].0, all[n].1) == Ok::<
                            HandModel,
                            RiverSolveError,
                        >(deals@[n].state@)
                    },
            decreases all.len() - k,
        {
            let (b, d) = pairs[k];
            proof {
                assert(all.take(k + 1).drop_last() =~= all.take(k as int));
            }
            match self.build_state(b, d) {
                Ok(state) => {
                    deals.push(SpotDeal { button_hole_cards: b, big_blind_hole_cards: d, state });
                },
                Err(e) => {
                    proof {
                        lemma_first_failure_persists(*self, all, k + 1);
                    }
                    return Err(e);
                },
            }
            k = k + 1;
        }
        proof {
            assert(all.take(k as int) =~= all);
        }
        Ok(deals)
    }
}

impl ScriptedTurnSpot {
    /// The positions of the four board cards.
    pub open spec fn board_set(&self) -> Set<int> {
        Set::new(
            |i: int|
                exists|k: int|
                    0 <= k < 4 && (#[trigger] self.flop@.push(self.turn)[k]).code()
                        == i,
        )
    }

    /// The pairs of hands the spot can be dealt from two ranges: the hands of each
    /// range that avoid the board, paired when they share no card.
    pub open spec fn spec_deal_pairs(&self, button_range: Seq<HoleCards>, big_blind_range: Seq<HoleCards>) -> Seq<
        (HoleCards, HoleCards),
    > {
        deal_pairs(
            button_range.filter(|h: HoleCards| avoids(h, self.board_set())),
            big_blind_range.filter(|h: HoleCards| avoids(h, self.board_set())),
        )
    }

    /// What setting the spot up with two hands gives: the hand at the turn decision,
    /// or why there is none.
    pub open spec fn spec_river_state(&self, button: HoleCards, big_blind: HoleCards) -> Result<
        HandModel,
        TurnSolveError,
    > {
        match self.spec_script(button, big_blind) {
            Err(e) => Err(TurnSolveError::State(e)),
            Ok(m) => match m.phase {
                HandPhase::BettingRound { street, .. } => if street == Street::Turn {
                    Ok(m)
                } else {
                    Err(TurnSolveError::UnexpectedPhase(m.phase))
                },
                HandPhase::Terminal { .. } => Err(TurnSolveError::SpotAlreadyTerminal),
                _ => Err(TurnSolveError::UnexpectedPhase(m.phase)),
            },
        }
    }

    /// The error of the first pair of `pairs` that cannot be set up, if any.
    pub open spec fn first_failure(&self, pairs: Seq<(HoleCards, HoleCards)>) -> Option<TurnSolveError>
        decreases pairs.len(),
    {
        if pairs.len() == 0 {
            None
        } else {
            match self.first_failure(pairs.drop_last()) {
                Some(e) => Some(e),
                None => match self.spec_river_state(pairs.last().0, pairs.last().1) {
                    Err(e) => Some(e),
                    Ok(_) => None,
                },
            }
        }
    }

    /// The deals the spot can be played with from two ranges, in order: each pair of
    /// hands from the ranges that avoid the board and share no card, with its hand at
    /// the turn decision. The first pair that cannot be set up gives its error; no
    /// pair at all is refused.
    pub fn turn_deals(&self, button_range: &Range, big_blind_range: &Range) -> (r: Result<
        Vec<SpotDeal>,
        TurnSolveError,
    >)
        requires
            self.stacks_fit(),
            button_range.wf(),
            big_blind_range.wf(),
        ensures
            ({
                let pairs = self.spec_deal_pairs(button_range@, big_blind_range@);
                match self.first_failure(pairs) {
                    Some(e) => r matches Err(f) && f == e,
                    None => if pairs.len() == 0 {
                        r matches Err(TurnSolveError::NoValidDeals)
                    } else {
                        r matches Ok(v) && v@.len() == pairs.len() && forall|k: int|
                            0 <= k < pairs.len() ==> {
                                &&& (#[trigger] v@[k]).button_hole_cards == pairs[k].0
                                &&& v@[k].big_blind_hole_cards == pairs[k].1
                                &&& v@[k].state.wf()
                                &&& self.spec_river_state(pairs[k].0, pairs[k].1) == Ok::<
                                    HandModel,
                                    TurnSolveError,
                                >(v@[k].state@)
                            }
                    },
                }
            }),
    {
        let board_cards = self.board_cards();
        let board_mask = CardMask::from_cards(board_cards.as_slice());
        proof {
            assert(board_mask@ =~= self.board_set());
        }
        let buttons = button_range.without_dead_cards(board_mask);
        let big_blinds = big_blind_range.without_dead_cards(board_mask);
        let pairs = deal_pair_list(buttons.combos(), big_blinds.combos());
        let deals = self.deals_for_pairs(&pairs)?;
        if deals.len() == 0 {
            return Err(TurnSolveError::NoValidDeals);
        }
        Ok(deals)
    }

    /// Sets the spot up with each pair of hands in turn, stopping at the first that
    /// cannot be set up.
    fn deals_for_pairs(&self, pairs: &Vec<(HoleCards, HoleCards)>) -> (r: Result<
        Vec<SpotDeal>,
        TurnSolveError,
    >)
        requires
            self.stacks_fit(),
        ensures
            match self.first_failure(pairs@) {
                Some(e) => r matches Err(f) && f == e,
                None => r matches Ok(v) && v@.len() == pairs@.len() && forall|k: int|
                    0 <= k < pairs@.len() ==> {
                        &&& (#[trigger] v@[k]).button_hole_cards == pairs@[k].0
                        &&& v@[k].big_blind_hole_cards == pairs@[k].1
                        &&& v@[k].state.wf()
                        &&& self.spec_river_state(pairs@[k].0, pairs@[k].1) == Ok::<
                            HandModel,
                            TurnSolveError,
                        >(v@[k].state@)
                    },
            },
    {
        let ghost all = pairs@;
        let mut deals: Vec<SpotDeal> = Vec::new();
        let mut k: usize = 0;
        while k < pairs.len()
            invariant
                pairs@ == all,
                k <= all.len(),
                self.stacks_fit(),
                self.first_failure(all.take(k as int)) is None,
                deals@.len() == k,
                forall|n: int|
                    0 <= n < k ==> {
                        &&& (#[trigger] deals@[n]).button_hole_cards == all[n].0
                        &&& deals@[n].big_blind_hole_cards == all[n].1
                        &&& deals@[n].state.wf()
                        &&& self.spec_river_state(all[n].0, all[n].1) == Ok::<
                            HandModel,
                            TurnSolveError,
                        >(deals@[n].state@)
                    },
            decreases all.len() - k,
        {
            let (b, d) = pairs[k];
            proof {
                assert(all.take(k + 1).drop_last() =~= all.take(k as int));
            }
            match self.build_state(b, d) {
                Ok(state) => {
                    deals.push(SpotDeal { button_hole_cards: b, big_blind_hole_cards: d, state });
                },
                Err(e) => {
                    proof {
                        lemma_turn_failure_persists(*self, all, k + 1);
                    }
                    return Err(e);
                },
            }
            k = k + 1;
        }
        proof {
            assert(all.take(k as int) =~= all);
        }
        Ok(deals)
    }
}

impl ScriptedFlopSpot {
    /// The positions of the three board cards.
    pub open spec fn board_set(&self) -> Set<int> {
        Set::new(
            |i: int|
                exists|k: int|
                    0 <= k < 3 && (#[trigger] self.flop@[k]).code()
                        == i,
        )
    }

    /// The pairs of hands the spot can be dealt from two ranges: the hands of each
    /// range that avoid the board, paired when they share no card.
    pub open spec fn spec_deal_pairs(&self, button_range: Seq<HoleCards>, big_blind_range: Seq<HoleCards>) -> Seq<
        (HoleCards, HoleCards),
    > {
        deal_pairs(
            button_range.filter(|h: HoleCards| avoids(h, self.board_set())),
            big_blind_range.filter(|h: HoleCards| avoids(h, self.board_set())),
        )
    }

    /// What setting the spot up with two hands gives: the hand at the flop decision,
    /// or why there is none.
    pub open spec fn spec_river_state(&self, button: HoleCards, big_blind: HoleCards) -> Result<
        HandModel,
        FlopSolveError,
    > {
        match self.spec_script(button, big_blind) {
            Err(e) => Err(FlopSolveError::State(e)),
            Ok(m) => match m.phase {
                HandPhase::BettingRound { street, .. } => if street == Street::Flop {
                    Ok(m)
                } else {
                    Err(FlopSolveError::UnexpectedPhase(m.phase))
                },
                HandPhase::Terminal { .. } => Err(FlopSolveError::SpotAlreadyTerminal),
                _ => Err(FlopSolveError::UnexpectedPhase(m.phase)),
            },
        }
    }

    /// The error of the first pair of `pairs` that cannot be set up, if any.
    pub open spec fn first_failure(&self, pairs: Seq<(HoleCards, HoleCards)>) -> Option<FlopSolveError>
        decreases pairs.len(),
    {
        if pairs.len() == 0 {
            None
        } else {
            match self.first_failure(pairs.drop_last()) {
                Some(e) => Some(e),
                None => match self.spec_river_state(pairs.last().0, pairs.last().1) {
                    Err(e) => Some(e),
                    Ok(_) => None,
                },
            }
        }
    }

    /// The deals the spot can be played with from two ranges, in order: each pair of
    /// hands from the ranges that avoid the board and share no card, with its hand at
    /// the flop decision. The first pair that cannot be set up gives its error; no
    /// pair at all is refused.
    pub fn flop_deals(&self, button_range: &Range, big_blind_range: &Range) -> (r: Result<
        Vec<SpotDeal>,
        FlopSolveError,
    >)
        requires
            self.stacks_fit(),
            button_range.wf(),
            big_blind_range.wf(),
        ensures
            ({
                let pairs = self.spec_deal_pairs(button_range@, big_blind_range@);
                match self.first_failure(pairs) {
                    Some(e) => r matches Err(f) && f == e,
                    None => if pairs.len() == 0 {
                        r matches Err(FlopSolveError::NoValidDeals)
                    } else {
                        r matches Ok(v) && v@.len() == pairs.len() && forall|k: int|
                            0 <= k < pairs.len() ==> {
                                &&& (#[trigger] v@[k]).button_hole_cards == pairs[k].0
                                &&& v@[k].big_blind_hole_cards == pairs[k].1
                                &&& v@[k].state.wf()
                                &&& self.spec_river_state(pairs[k].0, pairs[k].1) == Ok::<
                                    HandModel,
                                    FlopSolveError,
                                >(v@[k].state@)
                            }
                    },
                }
            }),
    {
        let board_cards = self.board_cards();
        let board_mask = CardMask::from_cards(board_cards.as_slice());
        proof {
            assert(board_mask@ =~= self.board_set());
        }
        let buttons = button_range.without_dead_cards(board_mask);
        let big_blinds = big_blind_range.without_dead_cards(board_mask);
        let pairs = deal_pair_list(buttons.combos(), big_blinds.combos());
        let deals = self.deals_for_pairs(&pairs)?;
        if deals.len() == 0 {
            return Err(FlopSolveError::NoValidDeals);
        }
        Ok(deals)
    }

    /// Sets the spot up with each pair of hands in turn, stopping at the first that
    /// cannot be set up.
    fn deals_for_pairs(&self, pairs: &Vec<(HoleCards, HoleCards)>) -> (r: Result<
        Vec<SpotDeal>,
        FlopSolveError,
    >)
        requires
            self.stacks_fit(),
        ensures
            match self.first_failure(pairs@) {
                Some(e) => r matches Err(f) && f == e,
                None => r matches Ok(v) && v@.len() == pairs@.len() && forall|k: int|
                    0 <= k < pairs@.len() ==> {
                        &&& (#[trigger] v@[k]).button_hole_cards == pairs@[k].0
                        &&& v@[k].big_blind_hole_cards == pairs@[k].1
                        &&& v@[k].state.wf()
                        &&& self.spec_river_state(pairs@[k].0, pairs@[k].1) == Ok::<
                            HandModel,
                            FlopSolveError,
                        >(v@[k].state@)
                    },
            },
    {
        let ghost all = pairs@;
        let mut deals: Vec<SpotDeal> = Vec::new();
        let mut k: usize = 0;
        while k < pairs.len()
            invariant
                pairs@ == all,
                k <= all.len(),
                self.stacks_fit(),
                self.first_failure(all.take(k as int)) is None,
                deals@.len() == k,
                forall|n: int|
                    0 <= n < k ==> {
                        &&& (#[trigger] deals@[n]).button_hole_cards == all[n].0
                        &&& deals@[n].big_blind_hole_cards == all[n].1
                        &&& deals@[n].state.wf()
                        &&& self.spec_river_state(all[n].0, all[n].1) == Ok::<
                            HandModel,
                            FlopSolveError,
                        >(deals@[n].state@)
                    },
            decreases all.len() - k,
        {
            let (b, d) = pairs[k];
            proof {
                assert(all.take(k + 1).drop_last() =~= all.take(k as int));
            }
            match self.build_state(b, d) {
                Ok(state) => {
                    deals.push(SpotDeal { button_hole_cards: b, big_blind_hole_cards: d, state });
                },
                Err(e) => {
                    proof {
                        lemma_flop_failure_persists(*self, all, k + 1);
                    }
                    return Err(e);
                },
            }
            k = k + 1;
        }
        proof {
            assert(all.take(k as int) =~= all);
        }
        Ok(deals)
    }
}

/// The pairs of hands of `bs` and `ds` that share no card, in order.
fn deal_pair_list(bs: &[HoleCards], ds: &[HoleCards]) -> (r: Vec<(HoleCards, HoleCards)>)
    ensures
        r@ == deal_pairs(bs@, ds@),
{
    let mut pairs: Vec<(HoleCards, HoleCards)> = Vec::new();
    let mut i: usize = 0;
    while i < bs.len()
        invariant
            i <= bs@.len(),
            pairs@ == deal_pairs(bs@.take(i as int), ds@),
        decreases bs@.len() - i,
    {
        let b = bs[i];
        let mut j: usize = 0;
        while j < ds.len()
            invariant
                i < bs@.len(),
                b == bs@[i as int],
                j <= ds@.len(),
                pairs@ == deal_pairs(bs@.take(i as int), ds@) + pairs_with(b, ds@.take(j as int)),
            decreases ds@.len() - j,
        {
            let d = ds[j];
            let overlap = b.mask().intersects(d.mask());
            proof {
                assert(ds@.take(j + 1).drop_last() =~= ds@.take(j as int));
            }
            if !overlap {
                pairs.push((b, d));
            }
            j = j + 1;
        }
        proof {
            assert(ds@.take(j as int) =~= ds@);
            assert(bs@.take(i + 1).drop_last() =~= bs@.take(i as int));
        }
        i = i + 1;
    }
    proof {
        assert(bs@.take(i as int) =~= bs@);
    }
    pairs
}

proof fn lemma_first_failure_persists(spot: ScriptedRiverSpot, pairs: Seq<(HoleCards, HoleCards)>, n: int)
    requires
        0 <= n <= pairs.len(),
        spot.first_failure(pairs.take(n)) is Some,
    ensures
        spot.first_failure(pairs) == spot.first_failure(pairs.take(n)),
    decreases pairs.len() - n,
{
    if n == pairs.len() {
        assert(pairs.take(n) =~= pairs);
    } else {
        assert(pairs.take(n + 1).drop_last() =~= pairs.take(n));
        lemma_first_failure_persists(spot, pairs, n + 1);
    }
}

proof fn lemma_turn_failure_persists(spot: ScriptedTurnSpot, pairs: Seq<(HoleCards, HoleCards)>, n: int)
    requires
        0 <= n <= pairs.len(),
        spot.first_failure(pairs.take(n)) is Some,
    ensures
        spot.first_failure(pairs) == spot.first_failure(pairs.take(n)),
    decreases pairs.len() - n,
{
    if n == pairs.len() {
        assert(pairs.take(n) =~= pairs);
    } else {
        assert(pairs.take(n + 1).drop_last() =~= pairs.take(n));
        lemma_turn_failure_persists(spot, pairs, n + 1);
    }
}

proof fn lemma_flop_failure_persists(spot: ScriptedFlopSpot, pairs: Seq<(HoleCards, HoleCards)>, n: int)
    requires
        0 <= n <= pairs.len(),
        spot.first_failure(pairs.take(n)) is Some,
    ensures
        spot.first_failure(pairs) == spot.first_failure(pairs.take(n)),
    decreases pairs.len() - n,
{
    if n == pairs.len() {
        assert(pairs.take(n) =~= pairs);
    } else {
        assert(pairs.take(n + 1).drop_last() =~= pairs.take(n));
        lemma_flop_failure_persists(spot, pairs, n + 1);
    }
}

impl ScriptedTurnSpot {
    /// Whether the script's stacks fit the chip limit.
    pub fn fits_chip_limit(&self) -> (r: bool)
        ensures
            r == self.stacks_fit(),
    {
        check_stacks_fit(self.config, self.button_starting_stack, self.big_blind_starting_stack)
    }

    /// The script's stacks fit the chip limit.
    pub open spec fn stacks_fit(&self) -> bool {
        stacks_fit(self.config, self.button_starting_stack, self.big_blind_starting_stack)
    }

    /// The hand when the last board card of the script is dealt, or the first error.
    pub open spec fn spec_street_start(&self, button: HoleCards, big_blind: HoleCards) -> Result<
        HandModel,
        HoldemStateError,
    > {
        let start = spec_start(
            self.config,
            button,
            big_blind,
            stack_or_default(self.button_starting_stack, self.config),
            stack_or_default(self.big_blind_starting_stack, self.config),
        );
        let pre = then_actions(start, self.preflop_actions@);
        let flop = then_actions(then_deal(pre, Street::Flop, self.flop@), self.flop_actions@);
        then_deal(flop, Street::Turn, seq![self.turn])
    }

    /// The hand after the whole script, or its first error.
    pub open spec fn spec_script(&self, button: HoleCards, big_blind: HoleCards) -> Result<
        HandModel,
        HoldemStateError,
    > {
        then_actions(self.spec_street_start(button, big_blind), self.turn_prefix_actions@)
    }

    /// Plays the script up to the deal of its last board card.
    pub fn street_start_state(&self, button_hole_cards: HoleCards, big_blind_hole_cards: HoleCards) -> (r:
        Result<HoldemHandState, HoldemStateError>)
        requires
            self.stacks_fit(),
        ensures
            match self.spec_street_start(button_hole_cards, big_blind_hole_cards) {
                Ok(m) => r matches Ok(s) && s@ == m && s.wf(),
                Err(e) => r == Err::<HoldemHandState, HoldemStateError>(e),
            },
    {
        let mut state = match start_scripted_hand(
            self.config,
            button_hole_cards,
            big_blind_hole_cards,
            self.button_starting_stack,
            self.big_blind_starting_stack,
        ) {
            Ok(state) => state,
            Err(e) => {
                return Err(e);
            },
        };
        if let Err(e) = run_actions(&mut state, &self.preflop_actions) {
            return Err(e);
        }
        if let Err(e) = state.deal_flop(self.flop) {
            return Err(e);
        }
        if let Err(e) = run_actions(&mut state, &self.flop_actions) {
            return Err(e);
        }
        if let Err(e) = state.deal_turn(self.turn) {
            return Err(e);
        }

        Ok(state)
    }

    /// Plays the script with the given hands; succeeds when it stops at a turn
    /// decision.
    pub fn build_state(&self, button_hole_cards: HoleCards, big_blind_hole_cards: HoleCards) -> (r:
        Result<HoldemHandState, TurnSolveError>)
        requires
            self.stacks_fit(),
        ensures
            match self.spec_script(button_hole_cards, big_blind_hole_cards) {
                Err(e) => r matches Err(TurnSolveError::State(f)) && f == e,
                Ok(m) => match m.phase {
                    HandPhase::BettingRound { street, .. } => if street == Street::Turn {
                        r matches Ok(s) && s@ == m && s.wf()
                    } else {
                        r matches Err(TurnSolveError::UnexpectedPhase(p)) && p == m.phase
                    },
                    HandPhase::Terminal { .. } => r matches Err(TurnSolveError::SpotAlreadyTerminal),
                    _ => r matches Err(TurnSolveError::UnexpectedPhase(p)) && p == m.phase,
                },
            },
    {
        let mut state = match self.street_start_state(button_hole_cards, big_blind_hole_cards) {
            Ok(state) => state,
            Err(e) => {
                return Err(TurnSolveError::State(e));
            },
        };
        if let Err(e) = run_actions(&mut state, &self.turn_prefix_actions) {
            return Err(TurnSolveError::State(e));
        }
        match state.phase() {
            HandPhase::BettingRound { street, .. } => {
                if street == Street::Turn {
                    Ok(state)
                } else {
                    Err(TurnSolveError::UnexpectedPhase(state.phase()))
                }
            },
            HandPhase::Terminal { .. } => Err(TurnSolveError::SpotAlreadyTerminal),
            phase => Err(TurnSolveError::UnexpectedPhase(phase)),
        }
    }

    /// The four board cards of the script.
    pub fn board_cards(&self) -> (r: [Card; 4])
        ensures
            r@ == self.flop@.push(self.turn),
    {
        let r = [self.flop[0], self.flop[1], self.flop[2], self.turn];
        proof {
            assert(r@ =~= self.flop@.push(self.turn));
        }
        r
    }
}

impl ScriptedFlopSpot {
    /// Whether the script's stacks fit the chip limit.
    pub fn fits_chip_limit(&self) -> (r: bool)
        ensures
            r == self.stacks_fit(),
    {
        check_stacks_fit(self.config, self.button_starting_stack, self.big_blind_starting_stack)
    }

    /// The script's stacks fit the chip limit.
    pub open spec fn stacks_fit(&self) -> bool {
        stacks_fit(self.config, self.button_starting_stack, self.big_blind_starting_stack)
    }

    /// The hand when the last board card of the script is dealt, or the first error.
    pub open spec fn spec_street_start(&self, button: HoleCards, big_blind: HoleCards) -> Result<
        HandModel,
        HoldemStateError,
    > {
        let start = spec_start(
            self.config,
            button,
            big_blind,
            stack_or_default(self.button_starting_stack, self.config),
            stack_or_default(self.big_blind_starting_stack, self.config),
        );
        let pre = then_actions(start, self.preflop_actions@);
        then_deal(pre, Street::Flop, self.flop@)
    }

    /// The hand after the whole script, or its first error.
    pub open spec fn spec_script(&self, button: HoleCards, big_blind: HoleCards) -> Result<
        HandModel,
        HoldemStateError,
    > {
        then_actions(self.spec_street_start(button, big_blind), self.flop_prefix_actions@)
    }

    /// Plays the script up to the deal of its last board card.
    pub fn street_start_state(&self, button_hole_cards: HoleCards, big_blind_hole_cards: HoleCards) -> (r:
        Result<HoldemHandState, HoldemStateError>)
        requires
            self.stacks_fit(),
        ensures
            match self.spec_street_start(button_hole_cards, big_blind_hole_cards) {
                Ok(m) => r matches Ok(s) && s@ == m && s.wf(),
                Err(e) => r == Err::<HoldemHandState, HoldemStateError>(e),
            },
    {
        let mut state = match start_scripted_hand(
            self.config,
            button_hole_cards,
            big_blind_hole_cards,
            self.button_starting_stack,
            self.big_blind_starting_stack,
        ) {
            Ok(state) => state,
            Err(e) => {
                return Err(e);
            },
        };
        if let Err(e) = run_actions(&mut state, &self.preflop_actions) {
            return Err(e);
        }
        if let Err(e) = state.deal_flop(self.flop) {
            return Err(e);
        }

        Ok(state)
    }

    /// Plays the script with the given hands; succeeds when it stops at a flop
    /// decision.
    pub fn build_state(&self, button_hole_cards: HoleCards, big_blind_hole_cards: HoleCards) -> (r:
        Result<HoldemHandState, FlopSolveError>)
        requires
            self.stacks_fit(),
        ensures
            match self.spec_script(button_hole_cards, big_blind_hole_cards) {
                Err(e) => r matches Err(FlopSolveError::State(f)) && f == e,
                Ok(m) => match m.phase {
                    HandPhase::BettingRound { street, .. } => if street == Street::Flop {
                        r matches Ok(s) && s@ == m && s.wf()
                    } else {
                        r matches Err(FlopSolveError::UnexpectedPhase(p)) && p == m.phase
                    },
                    HandPhase::Terminal { .. } => r matches Err(FlopSolveError::SpotAlreadyTerminal),
                    _ => r matches Err(FlopSolveError::UnexpectedPhase(p)) && p == m.phase,
                },
            },
    {
        let mut state = match self.street_start_state(button_hole_cards, big_blind_hole_cards) {
            Ok(state) => state,
            Err(e) => {
                return Err(FlopSolveError::State(e));
            },
        };
        if let Err(e) = run_actions(&mut state, &self.flop_prefix_actions) {
            return Err(FlopSolveError::State(e));
        }
        match state.phase() {
            HandPhase::BettingRound { street, .. } => {
                if street == Street::Flop {
                    Ok(state)
                } else {
                    Err(FlopSolveError::UnexpectedPhase(state.phase()))
                }
            },
            HandPhase::Terminal { .. } => Err(FlopSolveError::SpotAlreadyTerminal),
            phase => Err(FlopSolveError::UnexpectedPhase(phase)),
        }
    }

    /// The three board cards of the script.
    pub fn board_cards(&self) -> (r: [Card; 3])
        ensures
            r@ == self.flop@,
    {
        self.flop
    }
}

// ---------------------------------------------------------------------------
// Error messages.
// ---------------------------------------------------------------------------

/// The message of a spot that could not be set up on the street named `name`.
pub open spec fn solve_fault_text(name: Seq<char>, kind: SolveFaultKind) -> Seq<char> {
    match kind {
        SolveFaultKind::NoValidDeals => name + " spot has no valid non-overlapping deals"@,
        SolveFaultKind::SpotAlreadyTerminal => name + " spot is already terminal"@,
        SolveFaultKind::UnexpectedPhase(p) => name + " spot ended in unexpected phase "@
            + spec_phase_text(p),
        SolveFaultKind::State(e) => state_error_text(e),
    }
}

/// The kinds of failure shared by the three scripted spots.
pub enum SolveFaultKind {
    NoValidDeals,
    SpotAlreadyTerminal,
    UnexpectedPhase(HandPhase),
    State(HoldemStateError),
}

fn solve_fault_message(name: &str, kind: SolveFaultKind) -> (r: String)
    ensures
        r@ == solve_fault_text(name@, kind),
{
    let mut s = String::new();
    match kind {
        SolveFaultKind::NoValidDeals => {
            push_str(&mut s, name);
            push_str(&mut s, " spot has no valid non-overlapping deals");
        },
        SolveFaultKind::SpotAlreadyTerminal => {
            push_str(&mut s, name);
            push_str(&mut s, " spot is already terminal");
        },
        SolveFaultKind::UnexpectedPhase(p) => {
            push_str(&mut s, name);
            push_str(&mut s, " spot ended in unexpected phase ");
            push_phase_text(&mut s, p);
        },
        SolveFaultKind::State(e) => {
            push_str(&mut s, e.to_string().as_str());
        },
    }
    proof {
        assert(s@ =~= solve_fault_text(name@, kind));
    }
    s
}

impl RiverSolveError {
    pub open spec fn kind(&self) -> SolveFaultKind {
        match self {
            RiverSolveError::NoValidDeals => SolveFaultKind::NoValidDeals,
            RiverSolveError::SpotAlreadyTerminal => SolveFaultKind::SpotAlreadyTerminal,
            RiverSolveError::UnexpectedPhase(p) => SolveFaultKind::UnexpectedPhase(*p),
            RiverSolveError::State(e) => SolveFaultKind::State(*e),
        }
    }

    pub fn to_string(&self) -> (r: String)
        ensures
            r@ == solve_fault_text("river"@, self.kind()),
    {
        proof {
            reveal_strlit("river");
        }
        match self {
            RiverSolveError::NoValidDeals => solve_fault_message("river", SolveFaultKind::NoValidDeals),
            RiverSolveError::SpotAlreadyTerminal => solve_fault_message("river", SolveFaultKind::SpotAlreadyTerminal),
            RiverSolveError::UnexpectedPhase(p) => solve_fault_message("river", SolveFaultKind::UnexpectedPhase(*p)),
            RiverSolveError::State(e) => solve_fault_message("river", SolveFaultKind::State(*e)),
        }
    }
}

impl TurnSolveError {
    pub open spec fn kind(&self) -> SolveFaultKind {
        match self {
            TurnSolveError::NoValidDeals => SolveFaultKind::NoValidDeals,
            TurnSolveError::SpotAlreadyTerminal => SolveFaultKind::SpotAlreadyTerminal,
            TurnSolveError::UnexpectedPhase(p) => SolveFaultKind::UnexpectedPhase(*p),
            TurnSolveError::State(e) => SolveFaultKind::State(*e),
        }
    }

    pub fn to_string(&self) -> (r: String)
        ensures
            r@ == solve_fault_text("turn"@, self.kind()),
    {
        proof {
            reveal_strlit("turn");
        }
        match self {
            TurnSolveError::NoValidDeals => solve_fault_message("turn", SolveFaultKind::NoValidDeals),
            TurnSolveError::SpotAlreadyTerminal => solve_fault_message("turn", SolveFaultKind::SpotAlreadyTerminal),
            TurnSolveError::UnexpectedPhase(p) => solve_fault_message("turn", SolveFaultKind::UnexpectedPhase(*p)),
            TurnSolveError::State(e) => solve_fault_message("turn", SolveFaultKind::State(*e)),
        }
    }
}

impl FlopSolveError {
    pub open spec fn kind(&self) -> SolveFaultKind {
        match self {
            FlopSolveError::NoValidDeals => SolveFaultKind::NoValidDeals,
            FlopSolveError::SpotAlreadyTerminal => SolveFaultKind::SpotAlreadyTerminal,
            FlopSolveError::UnexpectedPhase(p) => SolveFaultKind::UnexpectedPhase(*p),
            FlopSolveError::State(e) => SolveFaultKind::State(*e),
        }
    }

    pub fn to_string(&self) -> (r: String)
        ensures
            r@ == solve_fault_text("flop"@, self.kind()),
    {
        proof {
            reveal_strlit("flop");
        }
        match self {
            FlopSolveError::NoValidDeals => solve_fault_message("flop", SolveFaultKind::NoValidDeals),
            FlopSolveError::SpotAlreadyTerminal => solve_fault_message("flop", SolveFaultKind::SpotAlreadyTerminal),
            FlopSolveError::UnexpectedPhase(p) => solve_fault_message("flop", SolveFaultKind::UnexpectedPhase(*p)),
            FlopSolveError::State(e) => solve_fault_message("flop", SolveFaultKind::State(*e)),
        }
    }
}

/// The message of a stored strategy or checkpoint (`what`) that could not be used.
pub open spec fn stored_fault_text(what: Seq<char>, version: Option<(u32, u32)>, detail: Seq<char>, encode: bool) -> Seq<char> {
    match version {
        Some((expected, actual)) => "unsupported "@ + what + " format version "@ + decimal(actual as nat)
            + "; expected "@ + decimal(expected as nat),
        None => (if encode {
            "failed to encode "@
        } else {
            "failed to decode "@
        }) + what + ": "@ + detail,
    }
}

fn stored_fault_message(what: &str, version: Option<(u32, u32)>, detail: &str, encode: bool) -> (r: String)
    ensures
        r@ == stored_fault_text(what@, version, detail@, encode),
{
    let mut s = String::new();
    match version {
        Some((expected, actual)) => {
            push_str(&mut s, "unsupported ");
            push_str(&mut s, what);
            push_str(&mut s, " format version ");
            push_decimal(&mut s, actual as u64);
            push_str(&mut s, "; expected ");
            push_decimal(&mut s, expected as u64);
        },
        None => {
            if encode {
                push_str(&mut s, "failed to encode ");
            } else {
                push_str(&mut s, "failed to decode ");
            }
            push_str(&mut s, what);
            push_str(&mut s, ": ");
            push_str(&mut s, detail);
        },
    }
    proof {
        assert(s@ =~= stored_fault_text(what@, version, detail@, encode));
    }
    s
}

impl TurnArtifactError {
    pub open spec fn message(&self) -> Seq<char> {
        match self {
            TurnArtifactError::UnsupportedFormatVersion { expected, actual } => stored_fault_text(
                "turn artifact"@,
                Some((*expected, *actual)),
                seq![],
                false,
            ),
            TurnArtifactError::Encode(e) => stored_fault_text("turn artifact"@, None, e@, true),
            TurnArtifactError::Decode(e) => stored_fault_text("turn artifact"@, None, e@, false),
        }
    }

    pub fn to_string(&self) -> (r: String)
        ensures
            r@ == self.message(),
    {
        proof {
            reveal_strlit("turn artifact");
        }
        match self {
            TurnArtifactError::UnsupportedFormatVersion { expected, actual } => stored_fault_message(
                "turn artifact",
                Some((*expected, *actual)),
                "",
                false,
            ),
            TurnArtifactError::Encode(e) => stored_fault_message("turn artifact", None, e.as_str(), true),
            TurnArtifactError::Decode(e) => stored_fault_message("turn artifact", None, e.as_str(), false),
        }
    }
}

impl TurnCheckpointError {
    pub open spec fn message(&self) -> Seq<char> {
        match self {
            TurnCheckpointError::UnsupportedFormatVersion { expected, actual } => stored_fault_text(
                "turn checkpoint"@,
                Some((*expected, *actual)),
                seq![],
                false,
            ),
            TurnCheckpointError::Encode(e) => stored_fault_text("turn checkpoint"@, None, e@, true),
            TurnCheckpointError::Decode(e) => stored_fault_text("turn checkpoint"@, None, e@, false),
        }
    }

    pub fn to_string(&self) -> (r: String)
        ensures
            r@ == self.message(),
    {
        proof {
            reveal_strlit("turn checkpoint");
        }
        match self {
            TurnCheckpointError::UnsupportedFormatVersion { expected, actual } => stored_fault_message(
                "turn checkpoint",
                Some((*expected, *actual)),
                "",
                false,
            ),
            TurnCheckpointError::Encode(e) => stored_fault_message("turn checkpoint", None, e.as_str(), true),
            TurnCheckpointError::Decode(e) => stored_fault_message("turn checkpoint", None, e.as_str(), false),
        }
    }
}

impl FlopArtifactError {
    pub open spec fn message(&self) -> Seq<char> {
        match self {
            FlopArtifactError::UnsupportedFormatVersion { expected, actual } => stored_fault_text(
                "flop artifact"@,
                Some((*expected, *actual)),
                seq![],
                false,
            ),
            FlopArtifactError::Encode(e) => stored_fault_text("flop artifact"@, None, e@, true),
            FlopArtifactError::Decode(e) => stored_fault_text("flop artifact"@, None, e@, false),
        }
    }

    pub fn to_string(&self) -> (r: String)
        ensures
            r@ == self.message(),
    {
        proof {
            reveal_strlit("flop artifact");
        }
        match self {
            FlopArtifactError::UnsupportedFormatVersion { expected, actual } => stored_fault_message(
                "flop artifact",
                Some((*expected, *actual)),
                "",
                false,
            ),
            FlopArtifactError::Encode(e) => stored_fault_message("flop artifact", None, e.as_str(), true),
            FlopArtifactError::Decode(e) => stored_fault_message("flop artifact", None, e.as_str(), false),
        }
    }
}

impl FlopCheckpointError {
    pub open spec fn message(&self) -> Seq<char> {
        match self {
            FlopCheckpointError::UnsupportedFormatVersion { expected, actual } => stored_fault_text(
                "flop checkpoint"@,
                Some((*expected, *actual)),
                seq![],
                false,
            ),
            FlopCheckpointError::Encode(e) => stored_fault_text("flop checkpoint"@, None, e@, true),
            FlopCheckpointError::Decode(e) => stored_fault_text("flop checkpoint"@, None, e@, false),
        }
    }

    pub fn to_string(&self) -> (r: String)
        ensures
            r@ == self.message(),
    {
        proof {
            reveal_strlit("flop checkpoint");
        }
        match self {
            FlopCheckpointError::UnsupportedFormatVersion { expected, actual } => stored_fault_message(
                "flop checkpoint",
                Some((*expected, *actual)),
                "",
                false,
            ),
            FlopCheckpointError::Encode(e) => stored_fault_message("flop checkpoint", None, e.as_str(), true),
            FlopCheckpointError::Decode(e) => stored_fault_message("flop checkpoint", None, e.as_str(), false),
        }
    }
}

} // verus!
