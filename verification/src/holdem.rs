use vstd::prelude::*;

use crate::cards::{board_push_result, Board, Card, HoleCards};
use crate::hand_eval::{
    resolve_holdem_showdown, spec_award, spec_resolve_showdown, HeadsUpPayout, OddChipRecipient,
    ShowdownError, ShowdownResult,
};

verus! {

broadcast use crate::cards::group_card_lemmas;

pub type Chips = u64;

/// The largest starting stack or blind the rules handle: any two chip amounts up to it
/// add up without leaving 64 bits.
pub const MAX_CHIPS: u64 = 0x7fff_ffff_ffff_ffff;

#[derive(Debug, Clone, Copy, PartialEq, Eq, Hash, Structural)]
pub enum Player {
    Button,
    BigBlind,
}

impl Player {
    pub open spec fn spec_opponent(self) -> Player {
        match self {
            Player::Button => Player::BigBlind,
            Player::BigBlind => Player::Button,
        }
    }

    pub open spec fn code(self) -> int {
        match self {
            Player::Button => 0,
            Player::BigBlind => 1,
        }
    }

    pub fn opponent(self) -> (r: Self)
        ensures
            r == self.spec_opponent(),
    {
        match self {
            Player::Button => Player::BigBlind,
            Player::BigBlind => Player::Button,
        }
    }

    pub fn index(self) -> (r: usize)
        ensures
            r == self.code(),
    {
        match self {
            Player::Button => 0,
            Player::BigBlind => 1,
        }
    }
}

#[derive(Debug, Clone, Copy, PartialEq, Eq, Hash, Structural)]
pub enum Street {
    Preflop,
    Flop,
    Turn,
    River,
}

impl Street {
    pub open spec fn spec_next(self) -> Option<Street> {
        match self {
            Street::Preflop => Some(Street::Flop),
            Street::Flop => Some(Street::Turn),
            Street::Turn => Some(Street::River),
            Street::River => None,
        }
    }

    pub fn next(self) -> (r: Option<Self>)
        ensures
            r == self.spec_next(),
    {
        match self {
            Street::Preflop => Some(Street::Flop),
            Street::Flop => Some(Street::Turn),
            Street::Turn => Some(Street::River),
            Street::River => None,
        }
    }

    /// How many board cards a street deals.
    pub open spec fn card_count(self) -> usize {
        match self {
            Street::Flop => 3,
            Street::Turn => 1,
            Street::River => 1,
            Street::Preflop => 0,
        }
    }

    /// How many board cards are out once this street is dealt.
    pub open spec fn cards_dealt(self) -> nat {
        match self {
            Street::Preflop => 0,
            Street::Flop => 3,
            Street::Turn => 4,
            Street::River => 5,
        }
    }
}

/// Stack depth and blinds of one hand.
#[derive(Debug, Clone, Copy, PartialEq, Eq, Structural)]
pub struct HoldemConfig {
    pub starting_stack: Chips,
    pub small_blind: Chips,
    pub big_blind: Chips,
}

impl HoldemConfig {
    /// The first rule that the configuration breaks, if any.
    pub open spec fn spec_validate(self) -> Result<(), HoldemConfigError> {
        if self.small_blind == 0 {
            Err(HoldemConfigError::SmallBlindMustBePositive)
        } else if self.big_blind == 0 {
            Err(HoldemConfigError::BigBlindMustBePositive)
        } else if self.small_blind >= self.big_blind {
            Err(HoldemConfigError::SmallBlindMustBeLessThanBigBlind)
        } else if self.starting_stack < self.big_blind {
            Err(HoldemConfigError::StartingStackMustCoverBigBlind)
        } else {
            Ok(())
        }
    }

    /// A configuration is accepted exactly when both blinds are positive, the small
    /// blind is strictly below the big blind, and the stack covers the big blind; when
    /// both blinds are positive but the small one is not below the big one, that is the
    /// reason given.
    pub proof fn lemma_valid_config(self)
        ensures
            self.spec_validate() is Ok <==> 0 < self.small_blind && self.small_blind < self.big_blind
                && self.big_blind <= self.starting_stack,
            self.spec_validate() is Ok ==> self.small_blind < self.big_blind,
            0 < self.small_blind && 0 < self.big_blind && self.small_blind >= self.big_blind
                ==> self.spec_validate() == Err::<(), HoldemConfigError>(
                HoldemConfigError::SmallBlindMustBeLessThanBigBlind,
            ),
    {
    }

    pub fn new(starting_stack: Chips, small_blind: Chips, big_blind: Chips) -> (r: Result<
        Self,
        HoldemConfigError,
    >)
        ensures
            match (HoldemConfig { starting_stack, small_blind, big_blind }).spec_validate() {
                Ok(()) => r == Ok::<HoldemConfig, HoldemConfigError>(
                    HoldemConfig { starting_stack, small_blind, big_blind },
                ),
                Err(e) => r == Err::<HoldemConfig, HoldemConfigError>(e),
            },
    {
        let config = HoldemConfig { starting_stack, small_blind, big_blind };
        config.validate()?;
        Ok(config)
    }

    pub fn validate(self) -> (r: Result<(), HoldemConfigError>)
        ensures
            r == self.spec_validate(),
    {
        if self.small_blind == 0 {
            return Err(HoldemConfigError::SmallBlindMustBePositive);
        }
        if self.big_blind == 0 {
            return Err(HoldemConfigError::BigBlindMustBePositive);
        }
        if self.small_blind >= self.big_blind {
            return Err(HoldemConfigError::SmallBlindMustBeLessThanBigBlind);
        }
        if self.starting_stack < self.big_blind {
            return Err(HoldemConfigError::StartingStackMustCoverBigBlind);
        }
        Ok(())
    }

    /// A hundred big blinds deep, blinds of 50 and 100.
    pub fn default() -> (r: Self)
        ensures
            r == (HoldemConfig { starting_stack: 10_000, small_blind: 50, big_blind: 100 }),
    {
        HoldemConfig { starting_stack: 10_000, small_blind: 50, big_blind: 100 }
    }
}

#[derive(Debug, Clone, Copy, PartialEq, Eq, Structural)]
pub enum HoldemConfigError {
    SmallBlindMustBePositive,
    BigBlindMustBePositive,
    SmallBlindMustBeLessThanBigBlind,
    StartingStackMustCoverBigBlind,
}

#[derive(Debug, Clone, Copy, PartialEq, Eq, Structural)]
pub enum PlayerAction {
    Fold,
    Check,
    Call,
    BetTo(Chips),
    RaiseTo(Chips),
    AllIn,
}

/// An inclusive range of street totals that a wager may reach.
#[derive(Debug, Clone, Copy, PartialEq, Eq, Structural)]
pub struct WagerRange {
    pub min_total: Chips,
    pub max_total: Chips,
}

impl WagerRange {
    pub open spec fn spec_contains(self, total: Chips) -> bool {
        total >= self.min_total && total <= self.max_total
    }

    pub fn contains(self, total: Chips) -> (r: bool)
        ensures
            r == self.spec_contains(total),
    {
        total >= self.min_total && total <= self.max_total
    }
}

/// What the player to act may do.
#[derive(Debug, Clone, Copy, PartialEq, Eq, Structural)]
pub struct LegalActions {
    pub fold: bool,
    pub check: bool,
    pub call_amount: Option<Chips>,
    pub bet_range: Option<WagerRange>,
    pub raise_range: Option<WagerRange>,
    pub all_in_to: Option<Chips>,
}

/// One player's seat during a hand.
#[derive(Debug, Clone, Copy, PartialEq, Eq)]
pub struct PlayerSnapshot {
    pub hole_cards: HoleCards,
    pub stack: Chips,
    pub total_contribution: Chips,
    pub street_contribution: Chips,
    pub folded: bool,
}

#[derive(Debug, Clone, PartialEq, Eq)]
pub enum HistoryEvent {
    BlindPosted { player: Player, amount: Chips },
    ActionApplied { street: Street, player: Player, action: PlayerAction, pot_after: Chips },
    BoardDealt { street: Street, cards: Vec<Card> },
    HandCompleted { outcome: HandOutcome },
}

/// What a history event records, with the dealt cards as a sequence.
pub enum EventRecord {
    BlindPosted { player: Player, amount: Chips },
    ActionApplied { street: Street, player: Player, action: PlayerAction, pot_after: Chips },
    BoardDealt { street: Street, cards: Seq<Card> },
    HandCompleted { outcome: HandOutcome },
}

impl View for HistoryEvent {
    type V = EventRecord;

    open spec fn view(&self) -> EventRecord {
        match self {
            HistoryEvent::BlindPosted { player, amount } => EventRecord::BlindPosted {
                player: *player,
                amount: *amount,
            },
            HistoryEvent::ActionApplied { street, player, action, pot_after } => EventRecord::ActionApplied {
                street: *street,
                player: *player,
                action: *action,
                pot_after: *pot_after,
            },
            HistoryEvent::BoardDealt { street, cards } => EventRecord::BoardDealt {
                street: *street,
                cards: cards@,
            },
            HistoryEvent::HandCompleted { outcome } => EventRecord::HandCompleted { outcome: *outcome },
        }
    }
}

impl HistoryEvent {
    /// A copy of the event.
    pub fn duplicate(&self) -> (r: Self)
        ensures
            r@ == self@,
    {
        match self {
            HistoryEvent::BlindPosted { player, amount } => HistoryEvent::BlindPosted {
                player: *player,
                amount: *amount,
            },
            HistoryEvent::ActionApplied { street, player, action, pot_after } => HistoryEvent::ActionApplied {
                street: *street,
                player: *player,
                action: *action,
                pot_after: *pot_after,
            },
            HistoryEvent::BoardDealt { street, cards } => {
                let copy = cards.clone();
                proof {
                    assert(copy@ =~= cards@);
                }
                HistoryEvent::BoardDealt { street: *street, cards: copy }
            },
            HistoryEvent::HandCompleted { outcome } => HistoryEvent::HandCompleted { outcome: *outcome },
        }
    }
}

#[derive(Debug, Clone, Copy, PartialEq, Eq)]
pub enum HandPhase {
    BettingRound { street: Street, actor: Player },
    AwaitingBoard { next_street: Street },
    Terminal { outcome: HandOutcome },
}

#[derive(Debug, Clone, Copy, PartialEq, Eq)]
pub enum HandOutcome {
    Uncontested { winner: Player, pot: Chips, payout: HeadsUpPayout, street: Street },
    Showdown { result: ShowdownResult, pot: Chips, payout: HeadsUpPayout },
}

impl HandOutcome {
    pub open spec fn spec_payout(self) -> HeadsUpPayout {
        match self {
            HandOutcome::Uncontested { payout, .. } => payout,
            HandOutcome::Showdown { payout, .. } => payout,
        }
    }

    pub open spec fn spec_pot(self) -> Chips {
        match self {
            HandOutcome::Uncontested { pot, .. } => pot,
            HandOutcome::Showdown { pot, .. } => pot,
        }
    }

    /// The chips paid to the button (player one) and the big blind (player two).
    pub fn payout(self) -> (r: HeadsUpPayout)
        ensures
            r == self.spec_payout(),
    {
        match self {
            HandOutcome::Uncontested { payout, .. } => payout,
            HandOutcome::Showdown { payout, .. } => payout,
        }
    }

    pub fn pot(self) -> (r: Chips)
        ensures
            r == self.spec_pot(),
    {
        match self {
            HandOutcome::Uncontested { pot, .. } => pot,
            HandOutcome::Showdown { pot, .. } => pot,
        }
    }
}

#[derive(Debug, Clone, Copy, PartialEq, Eq)]
pub enum HoldemStateError {
    DuplicateHoleCard { card: Card },
    IllegalAction { player: Player, action: PlayerAction },
    ActionNotAllowedInCurrentPhase,
    BoardNotExpected,
    UnexpectedStreet { expected: Street, actual: Street },
    WrongBoardCardCount { street: Street, expected: usize, actual: usize },
    DuplicateBoardCard { card: Card },
    CardAlreadyInUse { card: Card },
    ShowdownFailed(ShowdownError),
    InvalidConfig(HoldemConfigError),
}

// ---------------------------------------------------------------------------
// The model of a hand.
// ---------------------------------------------------------------------------

/// Everything a hand in progress holds.
pub struct HandModel {
    pub config: HoldemConfig,
    pub button: PlayerSnapshot,
    pub big_blind: PlayerSnapshot,
    pub starting_button: Chips,
    pub starting_big_blind: Chips,
    pub board: Seq<Card>,
    pub street: Street,
    pub phase: HandPhase,
    pub current_bet: Chips,
    pub last_full_raise_size: Chips,
    pub checks_in_round: u8,
    pub reopened_button: bool,
    pub reopened_big_blind: bool,
    pub history: Seq<EventRecord>,
}

/// A seat after paying `amount` into the pot.
pub open spec fn seat_after_paying(s: PlayerSnapshot, amount: Chips) -> PlayerSnapshot {
    PlayerSnapshot {
        stack: (s.stack - amount) as u64,
        street_contribution: (s.street_contribution + amount) as u64,
        total_contribution: (s.total_contribution + amount) as u64,
        ..s
    }
}

/// A seat whose chips add up: what is behind and what is in the pot make the starting
/// stack, and this street's share is part of what is in the pot.
pub open spec fn seat_balanced(s: PlayerSnapshot, starting: Chips) -> bool {
    &&& s.stack + s.total_contribution == starting
    &&& s.street_contribution <= s.total_contribution
}

impl HandModel {
    pub open spec fn seat(self, p: Player) -> PlayerSnapshot {
        match p {
            Player::Button => self.button,
            Player::BigBlind => self.big_blind,
        }
    }

    pub open spec fn starting(self, p: Player) -> Chips {
        match p {
            Player::Button => self.starting_button,
            Player::BigBlind => self.starting_big_blind,
        }
    }

    pub open spec fn with_seat(self, p: Player, s: PlayerSnapshot) -> HandModel {
        match p {
            Player::Button => HandModel { button: s, ..self },
            Player::BigBlind => HandModel { big_blind: s, ..self },
        }
    }

    pub open spec fn reopened(self, p: Player) -> bool {
        match p {
            Player::Button => self.reopened_button,
            Player::BigBlind => self.reopened_big_blind,
        }
    }

    pub open spec fn with_reopened(self, p: Player, b: bool) -> HandModel {
        match p {
            Player::Button => HandModel { reopened_button: b, ..self },
            Player::BigBlind => HandModel { reopened_big_blind: b, ..self },
        }
    }

    /// All chips put in so far.
    pub open spec fn pot(self) -> int {
        self.button.total_contribution + self.big_blind.total_contribution
    }

    /// The player to act, if a betting round is on.
    pub open spec fn actor(self) -> Option<Player> {
        match self.phase {
            HandPhase::BettingRound { actor, .. } => Some(actor),
            _ => None,
        }
    }

    /// The outcome, if the hand is over.
    pub open spec fn outcome(self) -> Option<HandOutcome> {
        match self.phase {
            HandPhase::Terminal { outcome } => Some(outcome),
            _ => None,
        }
    }

    /// Both seats' chips add up to bounded starting stacks.
    pub open spec fn sums_ok(self) -> bool {
        &&& self.starting_button <= MAX_CHIPS
        &&& self.starting_big_blind <= MAX_CHIPS
        &&& self.config.big_blind <= MAX_CHIPS
        &&& seat_balanced(self.button, self.starting_button)
        &&& seat_balanced(self.big_blind, self.starting_big_blind)
    }

    /// The invariant that every reachable hand keeps.
    pub open spec fn wf(self) -> bool {
        &&& self.config.spec_validate() is Ok
        &&& self.sums_ok()
        &&& self.current_bet >= self.button.street_contribution
        &&& self.current_bet >= self.big_blind.street_contribution
        &&& self.current_bet <= MAX_CHIPS
        &&& self.last_full_raise_size <= MAX_CHIPS
        &&& self.checks_in_round <= 1
        &&& self.board.len() <= 5
        &&& self.board.no_duplicates()
        &&& self.board.len() >= self.street.cards_dealt()
        &&& self.phase matches HandPhase::AwaitingBoard { next_street } ==> self.street.spec_next()
            == Some(next_street)
        &&& self.button.hole_cards.is_ordered()
        &&& self.big_blind.hole_cards.is_ordered()
        &&& shared_hole_card(self.button.hole_cards, self.big_blind.hole_cards) is None
        &&& forall|k: int|
            0 <= k < self.board.len() ==> !holds_card(self.button.hole_cards, #[trigger] self.board[k])
                && !holds_card(self.big_blind.hole_cards, self.board[k])
        &&& self.outcome() matches Some(o) ==> o.spec_pot() == self.pot() && o.spec_payout().player_one
            + o.spec_payout().player_two == o.spec_pot()
    }

    /// The most a player can put in this street: all that the shorter of the two
    /// players has left in this street.
    pub open spec fn max_total(self, p: Player) -> int {
        let a = self.seat(p).street_contribution + self.seat(p).stack;
        let o = self.seat(p.spec_opponent()).street_contribution + self.seat(
            p.spec_opponent(),
        ).stack;
        if a <= o {
            a
        } else {
            o
        }
    }

    /// What the player to act may do (for a hand in a betting round).
    pub open spec fn legal(self, p: Player) -> LegalActions {
        let s = self.seat(p);
        let to_call = if self.current_bet >= s.street_contribution {
            self.current_bet - s.street_contribution
        } else {
            0
        };
        let max_total = self.max_total(p);
        if to_call == 0 {
            LegalActions {
                fold: false,
                check: true,
                call_amount: None,
                bet_range: if self.current_bet == 0 && max_total >= self.config.big_blind {
                    Some(
                        WagerRange { min_total: self.config.big_blind, max_total: max_total as u64 },
                    )
                } else {
                    None
                },
                raise_range: None,
                all_in_to: if self.current_bet == 0 && s.stack > 0 && max_total
                    > s.street_contribution && max_total < self.config.big_blind {
                    Some(max_total as u64)
                } else {
                    None
                },
            }
        } else {
            let min_raise = self.current_bet + self.last_full_raise_size;
            let can_raise = self.reopened(p) && max_total > self.current_bet;
            LegalActions {
                fold: true,
                check: false,
                call_amount: Some(
                    (if to_call <= s.stack {
                        to_call
                    } else {
                        s.stack as int
                    }) as u64,
                ),
                bet_range: None,
                raise_range: if can_raise && max_total >= min_raise {
                    Some(WagerRange { min_total: min_raise as u64, max_total: max_total as u64 })
                } else {
                    None
                },
                all_in_to: if can_raise && max_total < min_raise {
                    Some(max_total as u64)
                } else {
                    None
                },
            }
        }
    }

    /// The hand after `p` puts `amount` more into the pot.
    pub open spec fn contribute(self, p: Player, amount: Chips) -> HandModel {
        self.with_seat(p, seat_after_paying(self.seat(p), amount))
    }

    /// The hand with an action appended to its history.
    pub open spec fn record(self, street: Street, p: Player, action: PlayerAction) -> HandModel {
        HandModel {
            history: self.history.push(
                EventRecord::ActionApplied {
                    street,
                    player: p,
                    action,
                    pot_after: self.pot() as u64,
                },
            ),
            ..self
        }
    }

    /// The hand ended by a fold: `winner` takes the pot.
    pub open spec fn finish_uncontested(self, winner: Player) -> HandModel {
        let pot = self.pot() as u64;
        let payout = match winner {
            Player::Button => HeadsUpPayout { player_one: pot, player_two: 0 },
            Player::BigBlind => HeadsUpPayout { player_one: 0, player_two: pot },
        };
        let outcome = HandOutcome::Uncontested { winner, pot, payout, street: self.street };
        HandModel {
            phase: HandPhase::Terminal { outcome },
            history: self.history.push(EventRecord::HandCompleted { outcome }),
            ..self
        }
    }

    /// The hand ended at showdown; the big blind (player two) gets an odd chip.
    pub open spec fn finish_showdown(self) -> (HandModel, Result<(), HoldemStateError>) {
        match spec_resolve_showdown(self.board, self.button.hole_cards, self.big_blind.hole_cards) {
            Err(e) => (self, Err(HoldemStateError::ShowdownFailed(e))),
            Ok(result) => {
                let pot = self.pot() as u64;
                let (one, two) = spec_award(
                    pot,
                    result.one_wins(),
                    result.two_wins(),
                    OddChipRecipient::PlayerTwo,
                );
                let payout = HeadsUpPayout { player_one: one as u64, player_two: two as u64 };
                let outcome = HandOutcome::Showdown { result, pot, payout };
                (
                    HandModel {
                        phase: HandPhase::Terminal { outcome },
                        history: self.history.push(EventRecord::HandCompleted { outcome }),
                        ..self
                    },
                    Ok(()),
                )
            },
        }
    }

    /// The hand at the end of a betting round: street shares cleared, then either
    /// waiting for the next street's cards or showing down after the river.
    pub open spec fn finish_betting_round(self) -> (HandModel, Result<(), HoldemStateError>) {
        let cleared = HandModel {
            button: PlayerSnapshot { street_contribution: 0, ..self.button },
            big_blind: PlayerSnapshot { street_contribution: 0, ..self.big_blind },
            current_bet: 0,
            checks_in_round: 0,
            ..self
        };
        match self.street.spec_next() {
            Some(next_street) => (
                HandModel { phase: HandPhase::AwaitingBoard { next_street }, ..cleared },
                Ok(()),
            ),
            None => cleared.finish_showdown(),
        }
    }

    /// The hand after a legal fold by `p`.
    pub open spec fn after_fold(self, p: Player) -> HandModel {
        let s = self.seat(p);
        self.with_seat(p, PlayerSnapshot { folded: true, ..s }).with_reopened(p, false).record(
            self.street,
            p,
            PlayerAction::Fold,
        ).finish_uncontested(p.spec_opponent())
    }

    /// The hand after a legal check by `p`.
    pub open spec fn after_check(self, p: Player) -> (HandModel, Result<(), HoldemStateError>) {
        let m = HandModel {
            checks_in_round: (self.checks_in_round + 1) as u8,
            ..self.with_reopened(p, false)
        }.record(self.street, p, PlayerAction::Check);
        if m.checks_in_round >= 2 {
            m.finish_betting_round()
        } else {
            (
                HandModel {
                    phase: HandPhase::BettingRound { street: m.street, actor: p.spec_opponent() },
                    ..m
                },
                Ok(()),
            )
        }
    }

    /// The hand after `p` calls `amount`.
    pub open spec fn after_call(self, p: Player, amount: Chips) -> (
        HandModel,
        Result<(), HoldemStateError>,
    ) {
        self.contribute(p, amount).with_reopened(p, false).record(
            self.street,
            p,
            PlayerAction::Call,
        ).finish_betting_round()
    }

    /// The hand after `p` bets (or raises) to `total`; a raise of `full_raise` chips.
    pub open spec fn after_wager(
        self,
        p: Player,
        total: Chips,
        full_raise: Chips,
        action: PlayerAction,
    ) -> HandModel {
        let m = self.contribute(p, (total - self.seat(p).street_contribution) as u64);
        let m = HandModel {
            current_bet: total,
            last_full_raise_size: full_raise,
            checks_in_round: 0,
            ..m
        };
        let m = m.with_reopened(p, false).with_reopened(p.spec_opponent(), true);
        let m = m.record(self.street, p, action);
        HandModel { phase: HandPhase::BettingRound { street: m.street, actor: p.spec_opponent() }, ..m }
    }

    /// The hand after `p` goes all in for less than a full raise.
    pub open spec fn after_short_all_in(self, p: Player) -> HandModel {
        let s = self.seat(p);
        let all_in_total = s.street_contribution + s.stack;
        let m = self.contribute(p, s.stack);
        let m = HandModel {
            current_bet: if self.current_bet >= all_in_total {
                self.current_bet
            } else {
                all_in_total as u64
            },
            checks_in_round: 0,
            ..m
        };
        let m = m.with_reopened(p, false).record(self.street, p, PlayerAction::AllIn);
        HandModel { phase: HandPhase::BettingRound { street: m.street, actor: p.spec_opponent() }, ..m }
    }

    /// The result of the player to act taking `action`: the new hand, and whether the
    /// action was accepted. A refused action leaves the hand as it was.
    pub open spec fn apply(self, action: PlayerAction) -> (HandModel, Result<(), HoldemStateError>) {
        match self.actor() {
            None => (self, Err(HoldemStateError::ActionNotAllowedInCurrentPhase)),
            Some(p) => {
                let legal = self.legal(p);
                let illegal = (self, Err(HoldemStateError::IllegalAction { player: p, action }));
                match action {
                    PlayerAction::Fold => if legal.fold {
                        (self.after_fold(p), Ok(()))
                    } else {
                        illegal
                    },
                    PlayerAction::Check => if legal.check {
                        self.after_check(p)
                    } else {
                        illegal
                    },
                    PlayerAction::Call => match legal.call_amount {
                        Some(amount) => self.after_call(p, amount),
                        None => illegal,
                    },
                    PlayerAction::BetTo(total) => match legal.bet_range {
                        Some(range) => if range.spec_contains(total) {
                            (self.after_wager(p, total, total, action), Ok(()))
                        } else {
                            illegal
                        },
                        None => illegal,
                    },
                    PlayerAction::RaiseTo(total) => match legal.raise_range {
                        Some(range) => if range.spec_contains(total) {
                            (
                                self.after_wager(
                                    p,
                                    total,
                                    (total - self.current_bet) as u64,
                                    action,
                                ),
                                Ok(()),
                            )
                        } else {
                            illegal
                        },
                        None => illegal,
                    },
                    PlayerAction::AllIn => {
                        let s = self.seat(p);
                        let all_in_total = (s.street_contribution + s.stack) as u64;
                        if legal.all_in_to == Some(all_in_total) {
                            (self.after_short_all_in(p), Ok(()))
                        } else if legal.bet_range matches Some(range) && range.max_total
                            == all_in_total {
                            (
                                self.after_wager(
                                    p,
                                    all_in_total,
                                    all_in_total,
                                    PlayerAction::BetTo(all_in_total),
                                ),
                                Ok(()),
                            )
                        } else if legal.raise_range matches Some(range) && range.max_total
                            == all_in_total {
                            (
                                self.after_wager(
                                    p,
                                    all_in_total,
                                    (all_in_total - self.current_bet) as u64,
                                    PlayerAction::RaiseTo(all_in_total),
                                ),
                                Ok(()),
                            )
                        } else if legal.call_amount == Some(s.stack) {
                            self.after_call(p, s.stack)
                        } else {
                            illegal
                        }
                    },
                }
            },
        }
    }

    /// The hand after adding one board card, or the reason it cannot be added.
    pub open spec fn add_board_card(self, card: Card) -> (HandModel, Result<(), HoldemStateError>) {
        if self.board.contains(card) {
            (self, Err(HoldemStateError::DuplicateBoardCard { card }))
        } else if self.button.hole_cards@.0 == card || self.button.hole_cards@.1 == card
            || self.big_blind.hole_cards@.0 == card || self.big_blind.hole_cards@.1 == card {
            (self, Err(HoldemStateError::CardAlreadyInUse { card }))
        } else {
            match board_push_result(self.board, card) {
                Ok(b) => (HandModel { board: b, ..self }, Ok(())),
                Err(_) => (self, Err(HoldemStateError::DuplicateBoardCard { card })),
            }
        }
    }

    /// The hand after adding board cards one by one, stopping at the first that cannot
    /// be added.
    pub open spec fn add_board_cards(self, cards: Seq<Card>) -> (
        HandModel,
        Result<(), HoldemStateError>,
    )
        decreases cards.len(),
    {
        if cards.len() == 0 {
            (self, Ok(()))
        } else {
            let (m, r) = self.add_board_cards(cards.drop_last());
            match r {
                Err(e) => (m, Err(e)),
                Ok(()) => m.add_board_card(cards.last()),
            }
        }
    }

    /// Every player still in the hand has no chips behind.
    pub open spec fn players_all_in(self) -> bool {
        (self.button.folded || self.button.stack == 0) && (self.big_blind.folded
            || self.big_blind.stack == 0)
    }

    /// A new betting round on `street`, the big blind first.
    pub open spec fn begin_betting_round(self, street: Street) -> HandModel {
        HandModel {
            button: PlayerSnapshot { street_contribution: 0, ..self.button },
            big_blind: PlayerSnapshot { street_contribution: 0, ..self.big_blind },
            current_bet: 0,
            last_full_raise_size: self.config.big_blind,
            checks_in_round: 0,
            reopened_button: true,
            reopened_big_blind: true,
            phase: HandPhase::BettingRound { street, actor: Player::BigBlind },
            ..self
        }
    }

    /// The result of dealing `cards` (held in `v`) as the board cards of `street`.
    pub open spec fn deal(self, street: Street, v: Seq<Card>) -> (
        HandModel,
        Result<(), HoldemStateError>,
    ) {
        match self.phase {
            HandPhase::AwaitingBoard { next_street } => if next_street != street {
                (
                    self,
                    Err(HoldemStateError::UnexpectedStreet { expected: next_street, actual: street }),
                )
            } else if v.len() != street.card_count() {
                (
                    self,
                    Err(
                        HoldemStateError::WrongBoardCardCount {
                            street,
                            expected: street.card_count(),
                            actual: v.len() as usize,
                        },
                    ),
                )
            } else {
                let (m, r) = self.add_board_cards(v);
                match r {
                    Err(e) => (m, Err(e)),
                    Ok(()) => {
                        let m = HandModel {
                            history: m.history.push(EventRecord::BoardDealt { street, cards: v }),
                            street,
                            ..m
                        };
                        if m.players_all_in() {
                            match street.spec_next() {
                                Some(n) => (
                                    HandModel { phase: HandPhase::AwaitingBoard { next_street: n }, ..m },
                                    Ok(()),
                                ),
                                None => m.finish_showdown(),
                            }
                        } else {
                            (m.begin_betting_round(street), Ok(()))
                        }
                    },
                }
            },
            _ => (self, Err(HoldemStateError::BoardNotExpected)),
        }
    }
}

/// Whether a hand holds a card.
pub open spec fn holds_card(h: HoleCards, c: Card) -> bool {
    h@.0 == c || h@.1 == c
}

/// A blind posted from a stack: the whole blind, or the whole stack if it is shorter.
pub open spec fn posted(blind: Chips, stack: Chips) -> Chips {
    if blind <= stack {
        blind
    } else {
        stack
    }
}

/// The first card of the button's hand that the big blind also holds, if any.
pub open spec fn shared_hole_card(button: HoleCards, big_blind: HoleCards) -> Option<Card> {
    if big_blind@.0 == button@.0 || big_blind@.1 == button@.0 {
        Some(button@.0)
    } else if big_blind@.0 == button@.1 || big_blind@.1 == button@.1 {
        Some(button@.1)
    } else {
        None
    }
}

/// A fresh hand with the blinds posted and the button to act.
pub open spec fn spec_new_hand(
    config: HoldemConfig,
    button: HoleCards,
    big_blind: HoleCards,
    button_stack: Chips,
    big_blind_stack: Chips,
) -> HandModel {
    let sb = posted(config.small_blind, button_stack);
    let bb = posted(config.big_blind, big_blind_stack);
    HandModel {
        config,
        button: PlayerSnapshot {
            hole_cards: button,
            stack: (button_stack - sb) as u64,
            total_contribution: sb,
            street_contribution: sb,
            folded: false,
        },
        big_blind: PlayerSnapshot {
            hole_cards: big_blind,
            stack: (big_blind_stack - bb) as u64,
            total_contribution: bb,
            street_contribution: bb,
            folded: false,
        },
        starting_button: button_stack,
        starting_big_blind: big_blind_stack,
        board: seq![],
        street: Street::Preflop,
        phase: HandPhase::BettingRound { street: Street::Preflop, actor: Player::Button },
        current_bet: if sb <= bb {
            bb
        } else {
            sb
        },
        last_full_raise_size: config.big_blind,
        checks_in_round: 0,
        reopened_button: true,
        reopened_big_blind: true,
        history: seq![
            EventRecord::BlindPosted { player: Player::Button, amount: sb },
            EventRecord::BlindPosted { player: Player::BigBlind, amount: bb },
        ],
    }
}

// ---------------------------------------------------------------------------
// The hand state machine.
// ---------------------------------------------------------------------------

/// One heads-up hand: blinds, betting rounds, board cards and the outcome.
#[derive(Debug, Clone, PartialEq, Eq)]
pub struct HoldemHandState {
    config: HoldemConfig,
    button: PlayerSnapshot,
    big_blind: PlayerSnapshot,
    starting_button: Chips,
    starting_big_blind: Chips,
    board: Board,
    street: Street,
    phase: HandPhase,
    current_bet: Chips,
    last_full_raise_size: Chips,
    checks_in_round: u8,
    reopened_button: bool,
    reopened_big_blind: bool,
    history: Vec<HistoryEvent>,
}

impl View for HoldemHandState {
    type V = HandModel;

    closed spec fn view(&self) -> HandModel {
        HandModel {
            config: self.config,
            button: self.button,
            big_blind: self.big_blind,
            starting_button: self.starting_button,
            starting_big_blind: self.starting_big_blind,
            board: self.board@,
            street: self.street,
            phase: self.phase,
            current_bet: self.current_bet,
            last_full_raise_size: self.last_full_raise_size,
            checks_in_round: self.checks_in_round,
            reopened_button: self.reopened_button,
            reopened_big_blind: self.reopened_big_blind,
            history: self.history@.map_values(|e: HistoryEvent| e@),
        }
    }
}

/// Pays a blind from a fresh seat.
fn post_blind(hole_cards: HoleCards, stack: Chips, blind: Chips) -> (r: (PlayerSnapshot, Chips))
    ensures
        r.1 == posted(blind, stack),
        r.0 == (PlayerSnapshot {
            hole_cards,
            stack: (stack - r.1) as u64,
            total_contribution: r.1,
            street_contribution: r.1,
            folded: false,
        }),
{
    let amount = if blind <= stack {
        blind
    } else {
        stack
    };
    (
        PlayerSnapshot {
            hole_cards,
            stack: stack - amount,
            total_contribution: amount,
            street_contribution: amount,
            folded: false,
        },
        amount,
    )
}

fn validate_unique_hole_cards(button: HoleCards, big_blind: HoleCards) -> (r: Result<
    (),
    HoldemStateError,
>)
    ensures
        match shared_hole_card(button, big_blind) {
            None => r is Ok,
            Some(card) => r == Err::<(), HoldemStateError>(
                HoldemStateError::DuplicateHoleCard { card },
            ),
        },
{
    let first = button.first();
    if big_blind.contains(first) {
        return Err(HoldemStateError::DuplicateHoleCard { card: first });
    }
    let second = button.second();
    if big_blind.contains(second) {
        return Err(HoldemStateError::DuplicateHoleCard { card: second });
    }
    Ok(())
}

impl HoldemHandState {
    pub open spec fn wf(&self) -> bool {
        self@.wf()
    }

    /// Starts a hand with both players at the configured stack.
    pub fn new(config: HoldemConfig, button_hole_cards: HoleCards, big_blind_hole_cards: HoleCards) -> (r:
        Result<Self, HoldemStateError>)
        requires
            config.starting_stack <= MAX_CHIPS,
        ensures
            match config.spec_validate() {
                Err(e) => r == Err::<HoldemHandState, HoldemStateError>(
                    HoldemStateError::InvalidConfig(e),
                ),
                Ok(()) => match shared_hole_card(button_hole_cards, big_blind_hole_cards) {
                    Some(card) => r == Err::<HoldemHandState, HoldemStateError>(
                        HoldemStateError::DuplicateHoleCard { card },
                    ),
                    None => r matches Ok(h) && h.wf() && h@ == spec_new_hand(
                        config,
                        button_hole_cards,
                        big_blind_hole_cards,
                        config.starting_stack,
                        config.starting_stack,
                    ),
                },
            },
    {
        Self::new_with_starting_stacks(
            config,
            button_hole_cards,
            big_blind_hole_cards,
            config.starting_stack,
            config.starting_stack,
        )
    }

    /// Starts a hand with the given stacks; a stack shorter than its blind posts all
    /// of itself.
    pub fn new_with_starting_stacks(
        config: HoldemConfig,
        button_hole_cards: HoleCards,
        big_blind_hole_cards: HoleCards,
        button_stack: Chips,
        big_blind_stack: Chips,
    ) -> (r: Result<Self, HoldemStateError>)
        requires
            button_stack <= MAX_CHIPS,
            big_blind_stack <= MAX_CHIPS,
            config.starting_stack <= MAX_CHIPS,
        ensures
            match config.spec_validate() {
                Err(e) => r == Err::<HoldemHandState, HoldemStateError>(
                    HoldemStateError::InvalidConfig(e),
                ),
                Ok(()) => match shared_hole_card(button_hole_cards, big_blind_hole_cards) {
                    Some(card) => r == Err::<HoldemHandState, HoldemStateError>(
                        HoldemStateError::DuplicateHoleCard { card },
                    ),
                    None => r matches Ok(h) && h.wf() && h@ == spec_new_hand(
                        config,
                        button_hole_cards,
                        big_blind_hole_cards,
                        button_stack,
                        big_blind_stack,
                    ),
                },
            },
    {
        match config.validate() {
            Ok(()) => {},
            Err(e) => {
                return Err(HoldemStateError::InvalidConfig(e));
            },
        }
        validate_unique_hole_cards(button_hole_cards, big_blind_hole_cards)?;
        proof {
            use_type_invariant(&button_hole_cards);
            use_type_invariant(&big_blind_hole_cards);
        }
        let (button, sb) = post_blind(button_hole_cards, button_stack, config.small_blind);
        let (big_blind, bb) = post_blind(big_blind_hole_cards, big_blind_stack, config.big_blind);
        let mut history: Vec<HistoryEvent> = Vec::new();
        history.push(HistoryEvent::BlindPosted { player: Player::Button, amount: sb });
        history.push(HistoryEvent::BlindPosted { player: Player::BigBlind, amount: bb });
        let state = HoldemHandState {
            config,
            button,
            big_blind,
            starting_button: button_stack,
            starting_big_blind: big_blind_stack,
            board: Board::new(),
            street: Street::Preflop,
            phase: HandPhase::BettingRound { street: Street::Preflop, actor: Player::Button },
            current_bet: if sb <= bb {
                bb
            } else {
                sb
            },
            last_full_raise_size: config.big_blind,
            checks_in_round: 0,
            reopened_button: true,
            reopened_big_blind: true,
            history,
        };
        proof {
            assert(state@.history =~= spec_new_hand(
                config,
                button_hole_cards,
                big_blind_hole_cards,
                button_stack,
                big_blind_stack,
            ).history);
            assert(state@.board =~= Seq::<Card>::empty());
        }
        Ok(state)
    }

    /// A copy of the hand.
    pub fn duplicate(&self) -> (r: Self)
        ensures
            r@ == self@,
    {
        let mut history: Vec<HistoryEvent> = Vec::new();
        let mut i: usize = 0;
        while i < self.history.len()
            invariant
                i <= self.history@.len(),
                history@.map_values(|e: HistoryEvent| e@) == self.history@.take(i as int).map_values(
                    |e: HistoryEvent| e@,
                ),
            decreases self.history@.len() - i,
        {
            let ghost before = history@;
            let event = self.history[i].duplicate();
            history.push(event);
            proof {
                assert(history@ == before.push(event));
                assert(before.map_values(|e: HistoryEvent| e@).len() == before.len());
                assert(before.len() == i);
                assert forall|k: int| 0 <= k < i + 1 implies #[trigger] history@[k]@
                    == self.history@[k]@ by {
                    if k < i {
                        assert(before.map_values(|e: HistoryEvent| e@)[k] == self.history@.take(
                            i as int,
                        ).map_values(|e: HistoryEvent| e@)[k]);
                        assert(history@[k] == before[k]);
                    }
                }
                assert(history@.map_values(|e: HistoryEvent| e@) =~= self.history@.take(
                    i + 1,
                ).map_values(|e: HistoryEvent| e@));
            }
            i = i + 1;
        }
        proof {
            assert(self.history@.take(i as int) =~= self.history@);
        }
        HoldemHandState {
            config: self.config,
            button: self.button,
            big_blind: self.big_blind,
            starting_button: self.starting_button,
            starting_big_blind: self.starting_big_blind,
            board: self.board.duplicate(),
            street: self.street,
            phase: self.phase,
            current_bet: self.current_bet,
            last_full_raise_size: self.last_full_raise_size,
            checks_in_round: self.checks_in_round,
            reopened_button: self.reopened_button,
            reopened_big_blind: self.reopened_big_blind,
            history,
        }
    }

    pub fn config(&self) -> (r: HoldemConfig)
        ensures
            r == self@.config,
    {
        self.config
    }

    pub fn street(&self) -> (r: Street)
        ensures
            r == self@.street,
    {
        self.street
    }

    pub fn phase(&self) -> (r: HandPhase)
        ensures
            r == self@.phase,
    {
        self.phase
    }

    pub fn board(&self) -> (r: &Board)
        ensures
            r@ == self@.board,
            r.wf() == board_cards_ok(self@.board),
    {
        &self.board
    }

    pub fn history(&self) -> (r: &[HistoryEvent])
        ensures
            r@.map_values(|e: HistoryEvent| e@) == self@.history,
    {
        self.history.as_slice()
    }

    pub fn starting_stack(&self, player: Player) -> (r: Chips)
        ensures
            r == self@.starting(player),
    {
        match player {
            Player::Button => self.starting_button,
            Player::BigBlind => self.starting_big_blind,
        }
    }

    pub fn current_actor(&self) -> (r: Option<Player>)
        ensures
            r == self@.actor(),
    {
        match self.phase {
            HandPhase::BettingRound { actor, .. } => Some(actor),
            _ => None,
        }
    }

    pub fn current_outcome(&self) -> (r: Option<HandOutcome>)
        ensures
            r == self@.outcome(),
    {
        match self.phase {
            HandPhase::Terminal { outcome } => Some(outcome),
            _ => None,
        }
    }

    /// All chips put into the pot so far.
    pub fn pot(&self) -> (r: Chips)
        requires
            self@.sums_ok(),
        ensures
            r == self@.pot(),
    {
        self.button.total_contribution + self.big_blind.total_contribution
    }

    pub fn player(&self, player: Player) -> (r: PlayerSnapshot)
        ensures
            r == self@.seat(player),
    {
        match player {
            Player::Button => self.button,
            Player::BigBlind => self.big_blind,
        }
    }

    fn reopened(&self, player: Player) -> (r: bool)
        ensures
            r == self@.reopened(player),
    {
        match player {
            Player::Button => self.reopened_button,
            Player::BigBlind => self.reopened_big_blind,
        }
    }

    fn set_reopened(&mut self, player: Player, value: bool)
        ensures
            final(self)@ == old(self)@.with_reopened(player, value),
    {
        match player {
            Player::Button => self.reopened_button = value,
            Player::BigBlind => self.reopened_big_blind = value,
        }
    }

    fn set_seat(&mut self, player: Player, seat: PlayerSnapshot)
        ensures
            final(self)@ == old(self)@.with_seat(player, seat),
    {
        match player {
            Player::Button => self.button = seat,
            Player::BigBlind => self.big_blind = seat,
        }
    }

    /// What the player to act may do.
    pub fn legal_actions(&self) -> (r: Result<LegalActions, HoldemStateError>)
        requires
            self.wf(),
        ensures
            match self@.actor() {
                None => r == Err::<LegalActions, HoldemStateError>(
                    HoldemStateError::ActionNotAllowedInCurrentPhase,
                ),
                Some(p) => r == Ok::<LegalActions, HoldemStateError>(self@.legal(p)),
            },
    {
        let actor = match self.current_actor() {
            Some(actor) => actor,
            None => {
                return Err(HoldemStateError::ActionNotAllowedInCurrentPhase);
            },
        };
        let state = self.player(actor);
        let opponent = self.player(actor.opponent());
        let to_call = if self.current_bet >= state.street_contribution {
            self.current_bet - state.street_contribution
        } else {
            0
        };
        let actor_total = state.street_contribution + state.stack;
        let opponent_total = opponent.street_contribution + opponent.stack;
        let max_total = if actor_total <= opponent_total {
            actor_total
        } else {
            opponent_total
        };
        if to_call == 0 {
            let bet_range = if self.current_bet == 0 && max_total >= self.config.big_blind {
                Some(WagerRange { min_total: self.config.big_blind, max_total })
            } else {
                None
            };
            let all_in_to = if self.current_bet == 0 && state.stack > 0 && max_total
                > state.street_contribution && max_total < self.config.big_blind {
                Some(max_total)
            } else {
                None
            };
            return Ok(
                LegalActions {
                    fold: false,
                    check: true,
                    call_amount: None,
                    bet_range,
                    raise_range: None,
                    all_in_to,
                },
            );
        }
        let mut raise_range = None;
        let mut all_in_to = None;
        if self.reopened(actor) && max_total > self.current_bet {
            let minimum_raise_to = self.current_bet + self.last_full_raise_size;
            if max_total >= minimum_raise_to {
                raise_range = Some(WagerRange { min_total: minimum_raise_to, max_total });
            } else {
                all_in_to = Some(max_total);
            }
        }
        let call_amount = if to_call <= state.stack {
            to_call
        } else {
            state.stack
        };
        Ok(
            LegalActions {
                fold: true,
                check: false,
                call_amount: Some(call_amount),
                bet_range: None,
                raise_range,
                all_in_to,
            },
        )
    }

    fn contribute(&mut self, player: Player, amount: Chips)
        requires
            old(self)@.sums_ok(),
            amount <= old(self)@.seat(player).stack,
        ensures
            final(self)@ == old(self)@.contribute(player, amount),
    {
        let seat = self.player(player);
        let paid = PlayerSnapshot {
            stack: seat.stack - amount,
            street_contribution: seat.street_contribution + amount,
            total_contribution: seat.total_contribution + amount,
            ..seat
        };
        self.set_seat(player, paid);
    }

    fn push_event(&mut self, event: HistoryEvent)
        ensures
            final(self)@ == (HandModel { history: old(self)@.history.push(event@), ..old(self)@ }),
    {
        let ghost before = self.history@;
        self.history.push(event);
        proof {
            assert(self.history@.map_values(|e: HistoryEvent| e@) =~= before.map_values(
                |e: HistoryEvent| e@,
            ).push(event@));
        }
    }

    fn record_action(&mut self, street: Street, player: Player, action: PlayerAction)
        requires
            old(self)@.sums_ok(),
        ensures
            final(self)@ == old(self)@.record(street, player, action),
    {
        let pot_after = self.pot();
        self.push_event(HistoryEvent::ActionApplied { street, player, action, pot_after });
    }

    fn finish_uncontested(&mut self, winner: Player)
        requires
            old(self)@.sums_ok(),
        ensures
            final(self)@ == old(self)@.finish_uncontested(winner),
    {
        let pot = self.pot();
        let payout = match winner {
            Player::Button => HeadsUpPayout { player_one: pot, player_two: 0 },
            Player::BigBlind => HeadsUpPayout { player_one: 0, player_two: pot },
        };
        let outcome = HandOutcome::Uncontested { winner, pot, payout, street: self.street };
        self.phase = HandPhase::Terminal { outcome };
        self.push_event(HistoryEvent::HandCompleted { outcome });
    }

    fn finish_showdown(&mut self) -> (r: Result<(), HoldemStateError>)
        requires
            old(self)@.sums_ok(),
        ensures
            (final(self)@, r) == old(self)@.finish_showdown(),
    {
        let result = match resolve_holdem_showdown(
            &self.board,
            self.button.hole_cards,
            self.big_blind.hole_cards,
        ) {
            Ok(result) => result,
            Err(e) => {
                return Err(HoldemStateError::ShowdownFailed(e));
            },
        };
        let pot = self.pot();
        let payout = result.payout(pot, OddChipRecipient::PlayerTwo);
        let outcome = HandOutcome::Showdown { result, pot, payout };
        self.phase = HandPhase::Terminal { outcome };
        self.push_event(HistoryEvent::HandCompleted { outcome });
        Ok(())
    }

    fn finish_betting_round(&mut self) -> (r: Result<(), HoldemStateError>)
        requires
            old(self)@.sums_ok(),
        ensures
            (final(self)@, r) == old(self)@.finish_betting_round(),
    {
        self.button.street_contribution = 0;
        self.big_blind.street_contribution = 0;
        self.current_bet = 0;
        self.checks_in_round = 0;
        match self.street.next() {
            Some(next_street) => {
                self.phase = HandPhase::AwaitingBoard { next_street };
                Ok(())
            },
            None => self.finish_showdown(),
        }
    }
}

impl HoldemHandState {
    fn apply_fold(&mut self, actor: Player)
        requires
            old(self).wf(),
            old(self)@.actor() == Some(actor),
        ensures
            final(self).wf(),
            final(self)@ == old(self)@.after_fold(actor),
    {
        let street = self.street;
        let seat = self.player(actor);
        self.set_seat(actor, PlayerSnapshot { folded: true, ..seat });
        self.set_reopened(actor, false);
        self.record_action(street, actor, PlayerAction::Fold);
        self.finish_uncontested(actor.opponent());
    }

    fn apply_check(&mut self, actor: Player) -> (r: Result<(), HoldemStateError>)
        requires
            old(self).wf(),
            old(self)@.actor() == Some(actor),
        ensures
            final(self).wf(),
            (final(self)@, r) == old(self)@.after_check(actor),
    {
        let street = self.street;
        self.set_reopened(actor, false);
        self.checks_in_round = self.checks_in_round + 1;
        self.record_action(street, actor, PlayerAction::Check);
        if self.checks_in_round >= 2 {
            self.finish_betting_round()
        } else {
            self.phase = HandPhase::BettingRound { street: self.street, actor: actor.opponent() };
            Ok(())
        }
    }

    fn apply_call(&mut self, actor: Player, amount: Chips) -> (r: Result<(), HoldemStateError>)
        requires
            old(self).wf(),
            old(self)@.actor() == Some(actor),
            amount <= old(self)@.seat(actor).stack,
        ensures
            final(self).wf(),
            (final(self)@, r) == old(self)@.after_call(actor, amount),
    {
        let street = self.street;
        self.contribute(actor, amount);
        self.set_reopened(actor, false);
        self.record_action(street, actor, PlayerAction::Call);
        self.finish_betting_round()
    }

    fn apply_wager(&mut self, actor: Player, total: Chips, full_raise: Chips, action: PlayerAction)
        requires
            old(self).wf(),
            total >= old(self).current_bet,
            total <= old(self)@.max_total(actor),
            full_raise <= total,
        ensures
            final(self).wf(),
            final(self)@ == old(self)@.after_wager(actor, total, full_raise, action),
    {
        let street = self.street;
        let seat = self.player(actor);
        self.contribute(actor, total - seat.street_contribution);
        self.current_bet = total;
        self.last_full_raise_size = full_raise;
        self.checks_in_round = 0;
        self.set_reopened(actor, false);
        self.set_reopened(actor.opponent(), true);
        self.record_action(street, actor, action);
        self.phase = HandPhase::BettingRound { street: self.street, actor: actor.opponent() };
    }

    fn apply_short_all_in(&mut self, actor: Player)
        requires
            old(self).wf(),
        ensures
            final(self).wf(),
            final(self)@ == old(self)@.after_short_all_in(actor),
    {
        let street = self.street;
        let seat = self.player(actor);
        let all_in_total = seat.street_contribution + seat.stack;
        self.contribute(actor, seat.stack);
        self.current_bet = if self.current_bet >= all_in_total {
            self.current_bet
        } else {
            all_in_total
        };
        self.checks_in_round = 0;
        self.set_reopened(actor, false);
        self.record_action(street, actor, PlayerAction::AllIn);
        self.phase = HandPhase::BettingRound { street: self.street, actor: actor.opponent() };
    }

    /// Applies the acting player's action. A refused action leaves the hand unchanged.
    pub fn apply_action(&mut self, action: PlayerAction) -> (r: Result<(), HoldemStateError>)
        requires
            old(self).wf(),
        ensures
            final(self).wf(),
            (final(self)@, r) == old(self)@.apply(action),
    {
        let actor = match self.current_actor() {
            Some(actor) => actor,
            None => {
                return Err(HoldemStateError::ActionNotAllowedInCurrentPhase);
            },
        };
        let legal = match self.legal_actions() {
            Ok(legal) => legal,
            Err(e) => {
                return Err(e);
            },
        };
        let illegal = HoldemStateError::IllegalAction { player: actor, action };
        match action {
            PlayerAction::Fold => {
                if !legal.fold {
                    return Err(illegal);
                }
                self.apply_fold(actor);
                Ok(())
            },
            PlayerAction::Check => {
                if !legal.check {
                    return Err(illegal);
                }
                self.apply_check(actor)
            },
            PlayerAction::Call => match legal.call_amount {
                Some(amount) => self.apply_call(actor, amount),
                None => Err(illegal),
            },
            PlayerAction::BetTo(total) => match legal.bet_range {
                Some(range) => {
                    if !range.contains(total) {
                        return Err(illegal);
                    }
                    self.apply_wager(actor, total, total, action);
                    Ok(())
                },
                None => Err(illegal),
            },
            PlayerAction::RaiseTo(total) => match legal.raise_range {
                Some(range) => {
                    if !range.contains(total) {
                        return Err(illegal);
                    }
                    let full_raise = total - self.current_bet;
                    self.apply_wager(actor, total, full_raise, action);
                    Ok(())
                },
                None => Err(illegal),
            },
            PlayerAction::AllIn => {
                let seat = self.player(actor);
                let all_in_total = seat.street_contribution + seat.stack;
                let short = match legal.all_in_to {
                    Some(to) => to == all_in_total,
                    None => false,
                };
                if short {
                    self.apply_short_all_in(actor);
                    return Ok(());
                }
                if let Some(range) = legal.bet_range {
                    if range.max_total == all_in_total {
                        self.apply_wager(
                            actor,
                            all_in_total,
                            all_in_total,
                            PlayerAction::BetTo(all_in_total),
                        );
                        return Ok(());
                    }
                }
                if let Some(range) = legal.raise_range {
                    if range.max_total == all_in_total {
                        let full_raise = all_in_total - self.current_bet;
                        self.apply_wager(
                            actor,
                            all_in_total,
                            full_raise,
                            PlayerAction::RaiseTo(all_in_total),
                        );
                        return Ok(());
                    }
                }
                let calls_stack = match legal.call_amount {
                    Some(amount) => amount == seat.stack,
                    None => false,
                };
                if calls_stack {
                    return self.apply_call(actor, seat.stack);
                }
                Err(illegal)
            },
        }
    }

    /// Deals the flop.
    pub fn deal_flop(&mut self, cards: [Card; 3]) -> (r: Result<(), HoldemStateError>)
        requires
            old(self).wf(),
        ensures
            final(self).wf(),
            (final(self)@, r) == old(self)@.deal(Street::Flop, cards@),
    {
        let v = vec![cards[0], cards[1], cards[2]];
        proof {
            assert(v@ =~= cards@);
        }
        self.deal_board_cards(Street::Flop, v)
    }

    /// Deals the turn.
    pub fn deal_turn(&mut self, card: Card) -> (r: Result<(), HoldemStateError>)
        requires
            old(self).wf(),
        ensures
            final(self).wf(),
            (final(self)@, r) == old(self)@.deal(Street::Turn, seq![card]),
    {
        let v = vec![card];
        proof {
            assert(v@ =~= seq![card]);
        }
        self.deal_board_cards(Street::Turn, v)
    }

    /// Deals the river.
    pub fn deal_river(&mut self, card: Card) -> (r: Result<(), HoldemStateError>)
        requires
            old(self).wf(),
        ensures
            final(self).wf(),
            (final(self)@, r) == old(self)@.deal(Street::River, seq![card]),
    {
        let v = vec![card];
        proof {
            assert(v@ =~= seq![card]);
        }
        self.deal_board_cards(Street::River, v)
    }

    fn add_board_card(&mut self, card: Card) -> (r: Result<(), HoldemStateError>)
        requires
            old(self).wf(),
        ensures
            final(self).wf(),
            (final(self)@, r) == old(self)@.add_board_card(card),
    {
        if crate::cards::contains_card(&self.board.cards_vec(), card) {
            return Err(HoldemStateError::DuplicateBoardCard { card });
        }
        if self.button.hole_cards.contains(card) || self.big_blind.hole_cards.contains(card) {
            return Err(HoldemStateError::CardAlreadyInUse { card });
        }
        match self.board.push(card) {
            Ok(()) => Ok(()),
            Err(_) => Err(HoldemStateError::DuplicateBoardCard { card }),
        }
    }

    fn deal_board_cards(&mut self, dealt_street: Street, cards: Vec<Card>) -> (r: Result<
        (),
        HoldemStateError,
    >)
        requires
            old(self).wf(),
        ensures
            final(self).wf(),
            (final(self)@, r) == old(self)@.deal(dealt_street, cards@),
    {
        let next_street = match self.phase {
            HandPhase::AwaitingBoard { next_street } => next_street,
            _ => {
                return Err(HoldemStateError::BoardNotExpected);
            },
        };
        if next_street != dealt_street {
            return Err(HoldemStateError::UnexpectedStreet { expected: next_street, actual: dealt_street });
        }
        let expected_card_count: usize = match dealt_street {
            Street::Flop => 3,
            Street::Turn => 1,
            Street::River => 1,
            Street::Preflop => 0,
        };
        if cards.len() != expected_card_count {
            return Err(
                HoldemStateError::WrongBoardCardCount {
                    street: dealt_street,
                    expected: expected_card_count,
                    actual: cards.len(),
                },
            );
        }
        let ghost start = self@;
        assert(start == old(self)@);
        let mut i: usize = 0;
        while i < cards.len()
            invariant
                i <= cards@.len(),
                self.wf(),
                start == old(self)@,
                start.phase == (HandPhase::AwaitingBoard { next_street: dealt_street }),
                cards@.len() == dealt_street.card_count(),
                self@.board.len() == start.board.len() + i,
                self@.street == start.street,
                (self@, Ok::<(), HoldemStateError>(())) == start.add_board_cards(
                    cards@.take(i as int),
                ),
            decreases cards@.len() - i,
        {
            proof {
                assert(cards@.take(i + 1).drop_last() =~= cards@.take(i as int));
            }
            let card = cards[i];
            let ghost prev = self@;
            match self.add_board_card(card) {
                Ok(()) => {},
                Err(e) => {
                    proof {
                        assert(cards@.take(i + 1).last() == card);
                        assert(start.add_board_cards(cards@.take(i + 1)) == (
                            self@,
                            Err::<(), HoldemStateError>(e),
                        ));
                        lemma_add_board_cards_stops(start, cards@, i + 1);
                    }
                    return Err(e);
                },
            }
            i = i + 1;
        }
        proof {
            assert(cards@.take(cards@.len() as int) =~= cards@);
            assert(start.street.spec_next() == Some(dealt_street));
            assert(dealt_street.cards_dealt() == start.street.cards_dealt() + dealt_street.card_count());
        }
        self.push_event(HistoryEvent::BoardDealt { street: dealt_street, cards });
        self.street = dealt_street;
        let all_in = (self.button.folded || self.button.stack == 0) && (self.big_blind.folded
            || self.big_blind.stack == 0);
        if all_in {
            match self.street.next() {
                Some(next) => {
                    self.phase = HandPhase::AwaitingBoard { next_street: next };
                    Ok(())
                },
                None => self.finish_showdown(),
            }
        } else {
            self.button.street_contribution = 0;
            self.big_blind.street_contribution = 0;
            self.current_bet = 0;
            self.last_full_raise_size = self.config.big_blind;
            self.checks_in_round = 0;
            self.reopened_button = true;
            self.reopened_big_blind = true;
            self.phase = HandPhase::BettingRound { street: dealt_street, actor: Player::BigBlind };
            Ok(())
        }
    }
}

/// Once adding one card fails, adding more leaves the hand as the failure left it.
proof fn lemma_add_board_cards_stops(start: HandModel, cards: Seq<Card>, n: int)
    requires
        0 <= n <= cards.len(),
        start.add_board_cards(cards.take(n)).1 is Err,
    ensures
        start.add_board_cards(cards) == start.add_board_cards(cards.take(n)),
    decreases cards.len() - n,
{
    if n < cards.len() {
        assert(cards.take(n + 1).drop_last() =~= cards.take(n));
        lemma_add_board_cards_stops(start, cards, n + 1);
    } else {
        assert(cards.take(n) =~= cards);
    }
}

/// Adding board cards that are all accepted keeps the invariant, puts the cards on the
/// board and changes nothing else.
proof fn lemma_add_board_cards_keeps_wf(m: HandModel, cards: Seq<Card>)
    requires
        m.wf(),
        m.add_board_cards(cards).1 is Ok,
    ensures
        ({
            let n = m.add_board_cards(cards).0;
            &&& n.wf()
            &&& n.board.len() == m.board.len() + cards.len()
            &&& n == (HandModel { board: n.board, ..m })
        }),
    decreases cards.len(),
{
    if cards.len() > 0 {
        lemma_add_board_cards_keeps_wf(m, cards.drop_last());
        let p = m.add_board_cards(cards.drop_last()).0;
        let card = cards.last();
        let n = p.add_board_card(card).0;
        assert(n.board == p.board.push(card));
        assert forall|k: int| 0 <= k < n.board.len() implies !holds_card(
            n.button.hole_cards,
            #[trigger] n.board[k],
        ) && !holds_card(n.big_blind.hole_cards, n.board[k]) by {
            if k < p.board.len() {
                assert(n.board[k] == p.board[k]);
            }
        }
    }
}

/// Dealing the cards a hand waits for, when the deal is accepted, keeps the invariant.
pub proof fn lemma_deal_keeps_wf(m: HandModel, street: Street, v: Seq<Card>)
    requires
        m.wf(),
        m.deal(street, v).1 is Ok,
    ensures
        m.deal(street, v).0.wf(),
{
    if m.phase is AwaitingBoard && m.phase->next_street == street && v.len() == street.card_count() {
        lemma_add_board_cards_keeps_wf(m, v);
        assert(street.cards_dealt() == m.street.cards_dealt() + street.card_count());
    }
}

// ---------------------------------------------------------------------------
// Laws of a hand.
// ---------------------------------------------------------------------------

/// No chip is made or lost: the two stacks and the pot always add up to the two
/// starting stacks.
pub proof fn lemma_chips_conserved(m: HandModel)
    requires
        m.wf(),
    ensures
        m.button.stack + m.big_blind.stack + m.pot() == m.starting_button + m.starting_big_blind,
{
}

/// A finished hand pays out exactly the pot.
pub proof fn lemma_payout_is_pot(m: HandModel)
    requires
        m.wf(),
        m.outcome() is Some,
    ensures
        m.outcome()->0.spec_payout().player_one + m.outcome()->0.spec_payout().player_two
            == m.pot(),
{
}

/// The betting round is on the hand's street, and the board holds exactly the cards
/// of the streets dealt so far.
pub open spec fn street_in_step(m: HandModel) -> bool {
    &&& m.phase matches HandPhase::BettingRound { street, .. } ==> street == m.street
    &&& m.board.len() == m.street.cards_dealt()
}

/// A fresh hand is in step.
pub proof fn lemma_new_hand_in_step(
    config: HoldemConfig,
    button: HoleCards,
    big_blind: HoleCards,
    button_stack: Chips,
    big_blind_stack: Chips,
)
    ensures
        street_in_step(spec_new_hand(config, button, big_blind, button_stack, big_blind_stack)),
{
}

/// An accepted action keeps the hand in step: the street and the board stay, and a
/// betting round that goes on stays on the street.
#[verifier::rlimit(80)]
pub proof fn lemma_action_keeps_step(m: HandModel, action: PlayerAction)
    requires
        m.wf(),
        street_in_step(m),
        m.apply(action).1 is Ok,
    ensures
        street_in_step(m.apply(action).0),
        m.apply(action).0.street == m.street,
        m.apply(action).0.board == m.board,
{
    match action {
        PlayerAction::Fold => {},
        PlayerAction::Check => {},
        PlayerAction::Call => {},
        PlayerAction::BetTo(_) => {},
        PlayerAction::RaiseTo(_) => {},
        PlayerAction::AllIn => {},
    }
}

/// An accepted deal keeps the hand in step: the hand moves on to the next street, whose
/// cards are now all on the board.
pub proof fn lemma_deal_keeps_step(m: HandModel, street: Street, v: Seq<Card>)
    requires
        m.wf(),
        street_in_step(m),
        m.deal(street, v).1 is Ok,
    ensures
        street_in_step(m.deal(street, v).0),
        m.deal(street, v).0.street == street,
        m.street.spec_next() == Some(street),
{
    lemma_add_board_cards_keeps_wf(m, v);
    assert(street.cards_dealt() == m.street.cards_dealt() + street.card_count());
}

/// In a betting round, a seat that has put in less than the bet still has chips behind:
/// no one is asked to answer a bet with nothing left to pay it with.
pub open spec fn short_seats_can_pay(m: HandModel) -> bool {
    m.phase is BettingRound ==> {
        &&& m.button.street_contribution < m.current_bet ==> m.button.stack > 0
        &&& m.big_blind.street_contribution < m.current_bet ==> m.big_blind.stack > 0
    }
}

/// A fresh hand whose two stacks each cover the big blind starts with every seat that
/// is short of the bet able to pay toward it.
pub proof fn lemma_new_hand_seats_can_pay(
    config: HoldemConfig,
    button: HoleCards,
    big_blind: HoleCards,
    button_stack: Chips,
    big_blind_stack: Chips,
)
    requires
        config.spec_validate() is Ok,
        button_stack >= config.big_blind,
        big_blind_stack >= config.big_blind,
    ensures
        short_seats_can_pay(spec_new_hand(config, button, big_blind, button_stack, big_blind_stack)),
{
}

/// An accepted action keeps every seat that is short of the bet able to pay toward it.
#[verifier::rlimit(80)]
pub proof fn lemma_action_keeps_seats_can_pay(m: HandModel, action: PlayerAction)
    requires
        m.wf(),
        short_seats_can_pay(m),
        m.apply(action).1 is Ok,
    ensures
        short_seats_can_pay(m.apply(action).0),
{
    match action {
        PlayerAction::Fold => {},
        PlayerAction::Check => {},
        PlayerAction::Call => {},
        PlayerAction::BetTo(_) => {},
        PlayerAction::RaiseTo(_) => {},
        PlayerAction::AllIn => {},
    }
}

/// An accepted deal starts the next round with nothing owed.
pub proof fn lemma_deal_keeps_seats_can_pay(m: HandModel, street: Street, v: Seq<Card>)
    requires
        m.deal(street, v).1 is Ok,
    ensures
        short_seats_can_pay(m.deal(street, v).0),
{
}

/// In such a hand the player to act who faces a bet has chips to call with: the call
/// costs more than nothing and no more than the stack.
pub proof fn lemma_actor_call_is_payable(m: HandModel, p: Player)
    requires
        m.wf(),
        short_seats_can_pay(m),
        m.actor() == Some(p),
    ensures
        m.legal(p).call_amount matches Some(x) ==> 0 < x <= m.seat(p).stack,
        m.legal(p).fold <==> m.legal(p).call_amount is Some,
        m.legal(p).check <==> !m.legal(p).fold,
{
}

/// An accepted action never takes chips out of the pot, and adds to the history
/// without changing what was there.
#[verifier::rlimit(80)]
pub proof fn lemma_accepted_action_grows_pot_and_history(m: HandModel, action: PlayerAction)
    requires
        m.wf(),
        m.apply(action).1 is Ok,
    ensures
        m.apply(action).0.pot() >= m.pot(),
        m.apply(action).0.history.len() > m.history.len(),
        m.apply(action).0.history.take(m.history.len() as int) == m.history,
{
    let next = m.apply(action).0;
    match action {
        PlayerAction::Fold => {},
        PlayerAction::Check => {},
        PlayerAction::Call => {},
        PlayerAction::BetTo(_) => {},
        PlayerAction::RaiseTo(_) => {},
        PlayerAction::AllIn => {},
    }
    assert(next.history.take(m.history.len() as int) =~= m.history);
}

/// An action that is refused as illegal, or refused because no one is to act, leaves
/// the hand as it was.
pub proof fn lemma_refused_action_changes_nothing(m: HandModel, action: PlayerAction)
    requires
        m.apply(action).1 matches Err(e) && (e is IllegalAction || e is ActionNotAllowedInCurrentPhase),
    ensures
        m.apply(action).0 == m,
{
}

/// A finished hand takes no more actions and no more board cards.
pub proof fn lemma_finished_hand_is_final(m: HandModel, action: PlayerAction, street: Street, v: Seq<Card>)
    requires
        m.outcome() is Some,
    ensures
        m.apply(action) == (m, Err::<(), HoldemStateError>(HoldemStateError::ActionNotAllowedInCurrentPhase)),
        m.deal(street, v) == (m, Err::<(), HoldemStateError>(HoldemStateError::BoardNotExpected)),
{
}

/// A fold ends the hand at once and the other player takes the whole pot.
pub proof fn lemma_fold_awards_pot_to_opponent(m: HandModel)
    requires
        m.wf(),
        m.actor() matches Some(p) && m.legal(p).fold,
    ensures
        m.apply(PlayerAction::Fold).1 is Ok,
        m.apply(PlayerAction::Fold).0.outcome() matches Some(HandOutcome::Uncontested { winner, pot, .. })
            && winner == m.actor()->0.spec_opponent() && pot == m.pot(),
{
}

/// On the river both hands and the board are nine different cards, so the showdown
/// can always be resolved.
pub proof fn lemma_river_showdown_resolves(m: HandModel)
    requires
        m.wf(),
        m.street == Street::River,
    ensures
        spec_resolve_showdown(m.board, m.button.hole_cards, m.big_blind.hole_cards) is Ok,
{
    let one = m.button.hole_cards;
    let two = m.big_blind.hole_cards;
    assert(m.board.len() == 5);
    assert forall|c: Card| holds_card(one, c) || holds_card(two, c) implies !m.board.contains(c) by {
        if m.board.contains(c) {
            let k = choose|k: int| 0 <= k < m.board.len() && m.board[k] == c;
            assert(!holds_card(one, m.board[k]) && !holds_card(two, m.board[k]));
        }
    }
    assert(holds_card(one, one@.0) && holds_card(one, one@.1));
    assert(holds_card(two, two@.0) && holds_card(two, two@.1));
    assert(one@.0 != one@.1);
    assert(two@.0 != two@.1);
    assert(!m.board.push(one@.0).contains(one@.1)) by {
        if m.board.push(one@.0).contains(one@.1) {
            let k = choose|k: int| 0 <= k < 6 && m.board.push(one@.0)[k] == one@.1;
            if k < 5 {
                assert(m.board.contains(one@.1));
            }
        }
    }
    assert(!m.board.push(one@.0).push(one@.1).contains(two@.0)) by {
        if m.board.push(one@.0).push(one@.1).contains(two@.0) {
            let k = choose|k: int| 0 <= k < 7 && m.board.push(one@.0).push(one@.1)[k] == two@.0;
            if k < 5 {
                assert(m.board[k] == two@.0);
                assert(m.board.contains(two@.0));
            }
        }
    }
    assert(!m.board.push(one@.0).push(one@.1).push(two@.0).contains(two@.1)) by {
        if m.board.push(one@.0).push(one@.1).push(two@.0).contains(two@.1) {
            let k = choose|k: int|
                0 <= k < 8 && m.board.push(one@.0).push(one@.1).push(two@.0)[k] == two@.1;
            if k < 5 {
                assert(m.board[k] == two@.1);
                assert(m.board.contains(two@.1));
            }
        }
    }
}

/// The hand refuses an action only as illegal or out of turn; any other action it
/// accepts, even one that ends the hand at a showdown.
pub proof fn lemma_actions_fail_only_by_refusal(m: HandModel, action: PlayerAction)
    requires
        m.wf(),
    ensures
        m.apply(action).1 matches Err(e) ==> (e is IllegalAction || e is ActionNotAllowedInCurrentPhase),
{
    if m.street == Street::River {
        lemma_river_showdown_resolves(m);
    }
}

/// A board's cards satisfy the board invariant.
pub open spec fn board_cards_ok(b: Seq<Card>) -> bool {
    crate::cards::board_cards_valid(b)
}

} // verus!
