use vstd::prelude::*;

use crate::cards::HoleCards;
use crate::holdem::{
    spec_new_hand, Chips, HandModel, HoldemConfig, HoldemConfigError, HoldemHandState,
    HoldemStateError, Player, MAX_CHIPS,
};

verus! {

#[derive(Debug, Clone, Copy, PartialEq, Eq, Hash, Structural)]
pub enum MatchPlayer {
    PlayerOne,
    PlayerTwo,
}

impl MatchPlayer {
    pub open spec fn spec_opponent(self) -> MatchPlayer {
        match self {
            MatchPlayer::PlayerOne => MatchPlayer::PlayerTwo,
            MatchPlayer::PlayerTwo => MatchPlayer::PlayerOne,
        }
    }

    pub open spec fn code(self) -> int {
        match self {
            MatchPlayer::PlayerOne => 0,
            MatchPlayer::PlayerTwo => 1,
        }
    }

    pub fn opponent(self) -> (r: Self)
        ensures
            r == self.spec_opponent(),
    {
        match self {
            MatchPlayer::PlayerOne => MatchPlayer::PlayerTwo,
            MatchPlayer::PlayerTwo => MatchPlayer::PlayerOne,
        }
    }

    pub fn index(self) -> (r: usize)
        ensures
            r == self.code(),
    {
        match self {
            MatchPlayer::PlayerOne => 0,
            MatchPlayer::PlayerTwo => 1,
        }
    }
}

/// Stacks, blinds and the first button of a match.
#[derive(Debug, Clone, Copy, PartialEq, Eq, Structural)]
pub struct MatchConfig {
    pub initial_stack: Chips,
    pub small_blind: Chips,
    pub big_blind: Chips,
    pub first_button: MatchPlayer,
}

impl MatchConfig {
    /// The configuration of every hand of the match.
    pub open spec fn spec_hand_config(self) -> HoldemConfig {
        HoldemConfig {
            starting_stack: self.initial_stack,
            small_blind: self.small_blind,
            big_blind: self.big_blind,
        }
    }

    pub open spec fn spec_validate(self) -> Result<(), MatchConfigError> {
        match self.spec_hand_config().spec_validate() {
            Ok(()) => Ok(()),
            Err(e) => Err(MatchConfigError::InvalidHandConfig(e)),
        }
    }

    pub fn new(
        initial_stack: Chips,
        small_blind: Chips,
        big_blind: Chips,
        first_button: MatchPlayer,
    ) -> (r: Result<Self, MatchConfigError>)
        ensures
            match (MatchConfig { initial_stack, small_blind, big_blind, first_button }).spec_validate() {
                Ok(()) => r == Ok::<MatchConfig, MatchConfigError>(
                    MatchConfig { initial_stack, small_blind, big_blind, first_button },
                ),
                Err(e) => r == Err::<MatchConfig, MatchConfigError>(e),
            },
    {
        let config = MatchConfig { initial_stack, small_blind, big_blind, first_button };
        config.validate()?;
        Ok(config)
    }

    pub fn validate(self) -> (r: Result<(), MatchConfigError>)
        ensures
            r == self.spec_validate(),
    {
        match HoldemConfig::new(self.initial_stack, self.small_blind, self.big_blind) {
            Ok(_) => Ok(()),
            Err(e) => Err(MatchConfigError::InvalidHandConfig(e)),
        }
    }

    pub fn hand_config(self) -> (r: HoldemConfig)
        ensures
            r == self.spec_hand_config(),
    {
        HoldemConfig {
            starting_stack: self.initial_stack,
            small_blind: self.small_blind,
            big_blind: self.big_blind,
        }
    }

    /// A hundred big blinds deep, blinds of 50 and 100, player one on the button first.
    pub fn default() -> (r: Self)
        ensures
            r == (MatchConfig {
                initial_stack: 10_000,
                small_blind: 50,
                big_blind: 100,
                first_button: MatchPlayer::PlayerOne,
            }),
    {
        MatchConfig {
            initial_stack: 10_000,
            small_blind: 50,
            big_blind: 100,
            first_button: MatchPlayer::PlayerOne,
        }
    }
}

#[derive(Debug, Clone, Copy, PartialEq, Eq, Structural)]
pub enum MatchConfigError {
    InvalidHandConfig(HoldemConfigError),
}

/// Which match player sits in which seat.
#[derive(Debug, Clone, Copy, PartialEq, Eq, Structural)]
pub struct MatchSeating {
    pub button: MatchPlayer,
    pub big_blind: MatchPlayer,
}

impl MatchSeating {
    pub open spec fn spec_player_in_seat(self, seat: Player) -> MatchPlayer {
        match seat {
            Player::Button => self.button,
            Player::BigBlind => self.big_blind,
        }
    }

    pub open spec fn spec_seat_for_player(self, player: MatchPlayer) -> Player {
        if self.button == player {
            Player::Button
        } else {
            Player::BigBlind
        }
    }

    pub fn player_in_seat(self, seat: Player) -> (r: MatchPlayer)
        ensures
            r == self.spec_player_in_seat(seat),
    {
        match seat {
            Player::Button => self.button,
            Player::BigBlind => self.big_blind,
        }
    }

    pub fn seat_for_player(self, player: MatchPlayer) -> (r: Player)
        ensures
            r == self.spec_seat_for_player(player),
    {
        if self.button == player {
            Player::Button
        } else {
            Player::BigBlind
        }
    }
}

#[derive(Debug, Clone, Copy, PartialEq, Eq, Structural)]
pub struct MatchSnapshot {
    pub hand_number: u64,
    pub player_one_stack: Chips,
    pub player_two_stack: Chips,
    pub seating: MatchSeating,
    pub hand_in_progress: bool,
    pub match_over: bool,
}

/// Everything a match holds.
pub struct MatchModel {
    pub config: MatchConfig,
    pub bankroll_one: Chips,
    pub bankroll_two: Chips,
    pub seating: MatchSeating,
    pub hand_number: u64,
    pub hand_in_progress: bool,
}

impl MatchModel {
    pub open spec fn bankroll(self, p: MatchPlayer) -> Chips {
        match p {
            MatchPlayer::PlayerOne => self.bankroll_one,
            MatchPlayer::PlayerTwo => self.bankroll_two,
        }
    }

    pub open spec fn match_over(self) -> bool {
        self.bankroll_one == 0 || self.bankroll_two == 0
    }

    /// The two bankrolls together stay within the rules' chip limit (every hand of the
    /// match is played with them), and the two seats hold different players.
    pub open spec fn wf(self) -> bool {
        &&& self.config.initial_stack <= MAX_CHIPS
        &&& self.bankroll_one + self.bankroll_two <= MAX_CHIPS
        &&& self.seating.big_blind == self.seating.button.spec_opponent()
    }

    /// The seating of the next hand: swapped, unless no hand has been played yet.
    pub open spec fn next_seating(self) -> MatchSeating {
        if self.hand_number > 0 {
            MatchSeating { button: self.seating.big_blind, big_blind: self.seating.button }
        } else {
            self.seating
        }
    }
}

/// A heads-up match: bankrolls carried from hand to hand, the button alternating.
#[derive(Debug, Clone, PartialEq, Eq)]
pub struct HeadsUpMatchState {
    config: MatchConfig,
    bankroll_one: Chips,
    bankroll_two: Chips,
    seating: MatchSeating,
    hand_number: u64,
    hand_in_progress: bool,
}

impl View for HeadsUpMatchState {
    type V = MatchModel;

    closed spec fn view(&self) -> MatchModel {
        MatchModel {
            config: self.config,
            bankroll_one: self.bankroll_one,
            bankroll_two: self.bankroll_two,
            seating: self.seating,
            hand_number: self.hand_number,
            hand_in_progress: self.hand_in_progress,
        }
    }
}

/// The bankroll a seat ends a finished hand with: what it has behind plus its payout.
pub open spec fn settled_stack(hand: HandModel, seat: Player) -> int {
    let payout = hand.outcome()->0.spec_payout();
    hand.seat(seat).stack + match seat {
        Player::Button => payout.player_one,
        Player::BigBlind => payout.player_two,
    }
}

impl HeadsUpMatchState {
    pub open spec fn wf(&self) -> bool {
        self@.wf()
    }

    pub fn new(config: MatchConfig) -> (r: Result<Self, MatchConfigError>)
        requires
            config.initial_stack + config.initial_stack <= MAX_CHIPS,
        ensures
            match config.spec_validate() {
                Err(e) => r == Err::<HeadsUpMatchState, MatchConfigError>(e),
                Ok(()) => r matches Ok(m) && m.wf() && m@ == (MatchModel {
                    config,
                    bankroll_one: config.initial_stack,
                    bankroll_two: config.initial_stack,
                    seating: MatchSeating {
                        button: config.first_button,
                        big_blind: config.first_button.spec_opponent(),
                    },
                    hand_number: 0,
                    hand_in_progress: false,
                }),
            },
    {
        config.validate()?;
        Ok(
            HeadsUpMatchState {
                config,
                bankroll_one: config.initial_stack,
                bankroll_two: config.initial_stack,
                seating: MatchSeating {
                    button: config.first_button,
                    big_blind: config.first_button.opponent(),
                },
                hand_number: 0,
                hand_in_progress: false,
            },
        )
    }

    pub fn config(&self) -> (r: MatchConfig)
        ensures
            r == self@.config,
    {
        self.config
    }

    pub fn hand_number(&self) -> (r: u64)
        ensures
            r == self@.hand_number,
    {
        self.hand_number
    }

    pub fn hand_in_progress(&self) -> (r: bool)
        ensures
            r == self@.hand_in_progress,
    {
        self.hand_in_progress
    }

    pub fn seating(&self) -> (r: MatchSeating)
        ensures
            r == self@.seating,
    {
        self.seating
    }

    pub fn bankroll(&self, player: MatchPlayer) -> (r: Chips)
        ensures
            r == self@.bankroll(player),
    {
        match player {
            MatchPlayer::PlayerOne => self.bankroll_one,
            MatchPlayer::PlayerTwo => self.bankroll_two,
        }
    }

    pub fn seat_for_player(&self, player: MatchPlayer) -> (r: Player)
        ensures
            r == self@.seating.spec_seat_for_player(player),
    {
        self.seating.seat_for_player(player)
    }

    pub fn player_in_seat(&self, seat: Player) -> (r: MatchPlayer)
        ensures
            r == self@.seating.spec_player_in_seat(seat),
    {
        self.seating.player_in_seat(seat)
    }

    pub fn match_over(&self) -> (r: bool)
        ensures
            r == self@.match_over(),
    {
        self.bankroll_one == 0 || self.bankroll_two == 0
    }

    pub fn snapshot(&self) -> (r: MatchSnapshot)
        ensures
            r == (MatchSnapshot {
                hand_number: self@.hand_number,
                player_one_stack: self@.bankroll_one,
                player_two_stack: self@.bankroll_two,
                seating: self@.seating,
                hand_in_progress: self@.hand_in_progress,
                match_over: self@.match_over(),
            }),
    {
        MatchSnapshot {
            hand_number: self.hand_number,
            player_one_stack: self.bankroll(MatchPlayer::PlayerOne),
            player_two_stack: self.bankroll(MatchPlayer::PlayerTwo),
            seating: self.seating,
            hand_in_progress: self.hand_in_progress,
            match_over: self.match_over(),
        }
    }

    /// Starts the next hand from the current bankrolls, the button moving after the
    /// first hand.
    pub fn start_next_hand(
        &mut self,
        button_hole_cards: HoleCards,
        big_blind_hole_cards: HoleCards,
    ) -> (r: Result<HoldemHandState, MatchStateError>)
        requires
            old(self).wf(),
            old(self)@.hand_number < u64::MAX,
        ensures
            final(self).wf(),
            old(self)@.hand_in_progress ==> final(self)@ == old(self)@ && r
                == Err::<HoldemHandState, MatchStateError>(MatchStateError::HandAlreadyInProgress),
            !old(self)@.hand_in_progress && old(self)@.match_over() ==> final(self)@ == old(self)@
                && r == Err::<HoldemHandState, MatchStateError>(MatchStateError::MatchAlreadyOver),
            !old(self)@.hand_in_progress && !old(self)@.match_over() ==> {
                let seating = old(self)@.next_seating();
                let m = old(self)@;
                &&& final(self)@ == MatchModel {
                    seating,
                    hand_number: (m.hand_number + 1) as u64,
                    hand_in_progress: true,
                    ..m
                }
                &&& match m.config.spec_hand_config().spec_validate() {
                    Err(e) => r == Err::<HoldemHandState, MatchStateError>(
                        MatchStateError::State(HoldemStateError::InvalidConfig(e)),
                    ),
                    Ok(()) => match crate::holdem::shared_hole_card(
                        button_hole_cards,
                        big_blind_hole_cards,
                    ) {
                        Some(card) => r == Err::<HoldemHandState, MatchStateError>(
                            MatchStateError::State(HoldemStateError::DuplicateHoleCard { card }),
                        ),
                        None => r matches Ok(h) && h.wf() && h@ == spec_new_hand(
                            m.config.spec_hand_config(),
                            button_hole_cards,
                            big_blind_hole_cards,
                            m.bankroll(seating.button),
                            m.bankroll(seating.big_blind),
                        ),
                    },
                }
            },
    {
        if self.hand_in_progress {
            return Err(MatchStateError::HandAlreadyInProgress);
        }
        if self.match_over() {
            return Err(MatchStateError::MatchAlreadyOver);
        }
        if self.hand_number > 0 {
            self.seating = MatchSeating {
                button: self.seating.big_blind,
                big_blind: self.seating.button,
            };
        }
        self.hand_number = self.hand_number + 1;
        self.hand_in_progress = true;
        let button_starting_stack = self.bankroll(self.seating.button);
        let big_blind_starting_stack = self.bankroll(self.seating.big_blind);
        match HoldemHandState::new_with_starting_stacks(
            self.config.hand_config(),
            button_hole_cards,
            big_blind_hole_cards,
            button_starting_stack,
            big_blind_starting_stack,
        ) {
            Ok(hand) => Ok(hand),
            Err(e) => Err(MatchStateError::State(e)),
        }
    }

    /// Settles a finished hand: each seat's bankroll becomes its stack plus its payout.
    pub fn complete_hand(&mut self, state: &HoldemHandState) -> (r: Result<(), MatchStateError>)
        requires
            old(self).wf(),
            state.wf(),
            old(self)@.hand_in_progress && state@.outcome() is Some ==> state@.starting_button
                + state@.starting_big_blind <= MAX_CHIPS,
        ensures
            final(self).wf(),
            !old(self)@.hand_in_progress ==> final(self)@ == old(self)@ && r
                == Err::<(), MatchStateError>(MatchStateError::NoHandInProgress),
            old(self)@.hand_in_progress && state@.outcome() is None ==> final(self)@ == old(self)@
                && r == Err::<(), MatchStateError>(MatchStateError::HandNotTerminal),
            old(self)@.hand_in_progress && state@.outcome() is Some ==> {
                let m = old(self)@;
                &&& r is Ok
                &&& final(self)@.hand_in_progress == false
                &&& final(self)@.config == m.config
                &&& final(self)@.seating == m.seating
                &&& final(self)@.hand_number == m.hand_number
                &&& final(self)@.bankroll(m.seating.button) == settled_stack(state@, Player::Button)
                &&& final(self)@.bankroll(m.seating.big_blind) == settled_stack(
                    state@,
                    Player::BigBlind,
                )
            },
    {
        if !self.hand_in_progress {
            return Err(MatchStateError::NoHandInProgress);
        }
        let outcome = match state.current_outcome() {
            Some(outcome) => outcome,
            None => {
                return Err(MatchStateError::HandNotTerminal);
            },
        };
        let payout = outcome.payout();
        proof {
            crate::holdem::lemma_chips_conserved(state@);
            crate::holdem::lemma_payout_is_pot(state@);
        }
        let button_final_stack = state.player(Player::Button).stack + payout.player_one;
        let big_blind_final_stack = state.player(Player::BigBlind).stack + payout.player_two;
        match self.seating.button {
            MatchPlayer::PlayerOne => self.bankroll_one = button_final_stack,
            MatchPlayer::PlayerTwo => self.bankroll_two = button_final_stack,
        }
        match self.seating.big_blind {
            MatchPlayer::PlayerOne => self.bankroll_one = big_blind_final_stack,
            MatchPlayer::PlayerTwo => self.bankroll_two = big_blind_final_stack,
        }
        self.hand_in_progress = false;
        Ok(())
    }

    /// The stack to show for a seat: the settled bankroll once the hand is over, else
    /// what the seat has behind.
    pub fn display_stack_for_seat(&self, state: &HoldemHandState, seat: Player) -> (r: Chips)
        ensures
            r == if state@.outcome() is Some {
                self@.bankroll(self@.seating.spec_player_in_seat(seat))
            } else {
                state@.seat(seat).stack
            },
    {
        if state.current_outcome().is_some() {
            self.bankroll(self.player_in_seat(seat))
        } else {
            state.player(seat).stack
        }
    }
}

/// A hand started from the match's bankrolls can always be settled: its two starting
/// stacks, the two bankrolls, stay within the chip limit that settling needs.
pub proof fn lemma_match_hand_can_be_settled(m: MatchModel, hand: HandModel)
    requires
        m.wf(),
        hand.starting_button == m.bankroll(m.seating.button),
        hand.starting_big_blind == m.bankroll(m.seating.big_blind),
    ensures
        hand.starting_button + hand.starting_big_blind <= MAX_CHIPS,
{
}

/// Settling a hand that was started from the match's bankrolls keeps the total of the
/// two bankrolls: the chips only move between the players.
pub proof fn lemma_settling_conserves_bankrolls(before: MatchModel, hand: HandModel, after: MatchModel)
    requires
        before.wf(),
        hand.wf(),
        hand.outcome() is Some,
        hand.starting_button == before.bankroll(before.seating.button),
        hand.starting_big_blind == before.bankroll(before.seating.big_blind),
        after.seating == before.seating,
        after.bankroll(before.seating.button) == settled_stack(hand, Player::Button),
        after.bankroll(before.seating.big_blind) == settled_stack(hand, Player::BigBlind),
    ensures
        after.bankroll_one + after.bankroll_two == before.bankroll_one + before.bankroll_two,
{
    crate::holdem::lemma_chips_conserved(hand);
    crate::holdem::lemma_payout_is_pot(hand);
}

#[derive(Debug, Clone, Copy, PartialEq, Eq)]
pub enum MatchStateError {
    HandAlreadyInProgress,
    NoHandInProgress,
    HandNotTerminal,
    MatchAlreadyOver,
    State(HoldemStateError),
}

} // verus!
