use vstd::prelude::*;

use crate::card_text::{card_text, push_card};
use crate::hand_eval::{EvaluateHandError, HandCategory, HandRank, ShowdownError};
use crate::holdem::{HoldemConfigError, HoldemStateError, Player, PlayerAction, Street};
use crate::matchplay::{MatchConfigError, MatchPlayer, MatchStateError};
use crate::text::{decimal, push_char, push_decimal, push_str};

verus! {

broadcast use crate::cards::group_card_lemmas;

pub open spec fn player_text(p: Player) -> Seq<char> {
    match p {
        Player::Button => "button"@,
        Player::BigBlind => "big-blind"@,
    }
}

pub open spec fn match_player_text(p: MatchPlayer) -> Seq<char> {
    match p {
        MatchPlayer::PlayerOne => "player-one"@,
        MatchPlayer::PlayerTwo => "player-two"@,
    }
}

pub open spec fn street_text(s: Street) -> Seq<char> {
    match s {
        Street::Preflop => "preflop"@,
        Street::Flop => "flop"@,
        Street::Turn => "turn"@,
        Street::River => "river"@,
    }
}

pub open spec fn action_text(a: PlayerAction) -> Seq<char> {
    match a {
        PlayerAction::Fold => "fold"@,
        PlayerAction::Check => "check"@,
        PlayerAction::Call => "call"@,
        PlayerAction::BetTo(total) => "bet-to "@ + decimal(total as nat),
        PlayerAction::RaiseTo(total) => "raise-to "@ + decimal(total as nat),
        PlayerAction::AllIn => "all-in"@,
    }
}

pub open spec fn category_text(c: HandCategory) -> Seq<char> {
    match c {
        HandCategory::HighCard => "high-card"@,
        HandCategory::OnePair => "one-pair"@,
        HandCategory::TwoPair => "two-pair"@,
        HandCategory::ThreeOfAKind => "three-of-a-kind"@,
        HandCategory::Straight => "straight"@,
        HandCategory::Flush => "flush"@,
        HandCategory::FullHouse => "full-house"@,
        HandCategory::FourOfAKind => "four-of-a-kind"@,
        HandCategory::StraightFlush => "straight-flush"@,
    }
}

pub open spec fn config_error_text(e: HoldemConfigError) -> Seq<char> {
    match e {
        HoldemConfigError::SmallBlindMustBePositive => "small blind must be positive"@,
        HoldemConfigError::BigBlindMustBePositive => "big blind must be positive"@,
        HoldemConfigError::SmallBlindMustBeLessThanBigBlind => "small blind must be less than big blind"@,
        HoldemConfigError::StartingStackMustCoverBigBlind => "starting stack must be at least the big blind"@,
    }
}

pub open spec fn showdown_error_text(e: ShowdownError) -> Seq<char> {
    match e {
        ShowdownError::BoardMustContainFiveCards { actual_len } => "holdem showdown requires a 5-card board, got "@
            + decimal(actual_len as nat),
        ShowdownError::DuplicateCard { card } => "showdown contains duplicate card "@ + card_text(card),
    }
}

pub open spec fn state_error_text(e: HoldemStateError) -> Seq<char> {
    match e {
        HoldemStateError::DuplicateHoleCard { card } => "duplicate hole card "@ + card_text(card),
        HoldemStateError::IllegalAction { player, action } => "illegal action `"@ + action_text(action)
            + "` for "@ + player_text(player),
        HoldemStateError::ActionNotAllowedInCurrentPhase => "action is not allowed in the current phase"@,
        HoldemStateError::BoardNotExpected => "board cards are not expected right now"@,
        HoldemStateError::UnexpectedStreet { expected, actual } => "expected to deal "@ + street_text(
            expected,
        ) + ", got "@ + street_text(actual),
        HoldemStateError::WrongBoardCardCount { street, expected, actual } => street_text(street)
            + " requires "@ + decimal(expected as nat) + " board cards, got "@ + decimal(actual as nat),
        HoldemStateError::DuplicateBoardCard { card } => "duplicate board card "@ + card_text(card),
        HoldemStateError::CardAlreadyInUse { card } => "card "@ + card_text(card) + " is already in use"@,
        HoldemStateError::ShowdownFailed(e) => "showdown failed: "@ + showdown_error_text(e),
        HoldemStateError::InvalidConfig(e) => config_error_text(e),
    }
}

pub open spec fn match_state_error_text(e: MatchStateError) -> Seq<char> {
    match e {
        MatchStateError::HandAlreadyInProgress => "a match hand is already in progress"@,
        MatchStateError::NoHandInProgress => "no match hand is currently in progress"@,
        MatchStateError::HandNotTerminal => "cannot settle a match hand before it is terminal"@,
        MatchStateError::MatchAlreadyOver => "the match is already over"@,
        MatchStateError::State(e) => state_error_text(e),
    }
}

/// Appends a player's label.
pub fn push_player(s: &mut String, p: Player)
    ensures
        final(s)@ == old(s)@ + player_text(p),
{
    match p {
        Player::Button => push_str(s, "button"),
        Player::BigBlind => push_str(s, "big-blind"),
    }
}

/// Appends a street's name.
pub fn push_street(s: &mut String, street: Street)
    ensures
        final(s)@ == old(s)@ + street_text(street),
{
    match street {
        Street::Preflop => push_str(s, "preflop"),
        Street::Flop => push_str(s, "flop"),
        Street::Turn => push_str(s, "turn"),
        Street::River => push_str(s, "river"),
    }
}

/// Appends an action's text.
pub fn push_action(s: &mut String, a: PlayerAction)
    ensures
        final(s)@ == old(s)@ + action_text(a),
{
    match a {
        PlayerAction::Fold => push_str(s, "fold"),
        PlayerAction::Check => push_str(s, "check"),
        PlayerAction::Call => push_str(s, "call"),
        PlayerAction::BetTo(total) => {
            push_str(s, "bet-to ");
            push_decimal(s, total);
            proof {
                assert(final(s)@ =~= old(s)@ + action_text(a));
            }
        },
        PlayerAction::RaiseTo(total) => {
            push_str(s, "raise-to ");
            push_decimal(s, total);
            proof {
                assert(final(s)@ =~= old(s)@ + action_text(a));
            }
        },
        PlayerAction::AllIn => push_str(s, "all-in"),
    }
}

impl Player {
    pub fn to_string(self) -> (r: String)
        ensures
            r@ == player_text(self),
    {
        let mut s = String::new();
        push_player(&mut s, self);
        s
    }
}

impl MatchPlayer {
    pub fn to_string(self) -> (r: String)
        ensures
            r@ == match_player_text(self),
    {
        let mut s = String::new();
        match self {
            MatchPlayer::PlayerOne => push_str(&mut s, "player-one"),
            MatchPlayer::PlayerTwo => push_str(&mut s, "player-two"),
        }
        s
    }
}

impl Street {
    pub fn to_string(self) -> (r: String)
        ensures
            r@ == street_text(self),
    {
        let mut s = String::new();
        push_street(&mut s, self);
        s
    }
}

impl PlayerAction {
    pub fn to_string(self) -> (r: String)
        ensures
            r@ == action_text(self),
    {
        let mut s = String::new();
        push_action(&mut s, self);
        s
    }
}

impl HandCategory {
    pub fn to_string(self) -> (r: String)
        ensures
            r@ == category_text(self),
    {
        let mut s = String::new();
        match self {
            HandCategory::HighCard => push_str(&mut s, "high-card"),
            HandCategory::OnePair => push_str(&mut s, "one-pair"),
            HandCategory::TwoPair => push_str(&mut s, "two-pair"),
            HandCategory::ThreeOfAKind => push_str(&mut s, "three-of-a-kind"),
            HandCategory::Straight => push_str(&mut s, "straight"),
            HandCategory::Flush => push_str(&mut s, "flush"),
            HandCategory::FullHouse => push_str(&mut s, "full-house"),
            HandCategory::FourOfAKind => push_str(&mut s, "four-of-a-kind"),
            HandCategory::StraightFlush => push_str(&mut s, "straight-flush"),
        }
        s
    }
}

/// A hand rank written as its category and its five tie-breaking ranks.
pub open spec fn hand_rank_text(r: HandRank) -> Seq<char> {
    category_text(r.category_spec()) + seq!['('] + r.ties_spec()[0].spec_symbol_seq() + seq![',']
        + r.ties_spec()[1].spec_symbol_seq() + seq![','] + r.ties_spec()[2].spec_symbol_seq() + seq![
        ',',
    ] + r.ties_spec()[3].spec_symbol_seq() + seq![','] + r.ties_spec()[4].spec_symbol_seq() + seq![
        ')',
    ]
}

impl HandRank {
    /// The category and the five tie-breaking ranks, e.g. `one-pair(A,K,9,7,2)`.
    pub fn to_string(self) -> (r: String)
        ensures
            r@ == hand_rank_text(self),
    {
        let mut s = self.category().to_string();
        push_char(&mut s, '(');
        let t = self.tiebreakers();
        push_char(&mut s, t[0].symbol());
        push_char(&mut s, ',');
        push_char(&mut s, t[1].symbol());
        push_char(&mut s, ',');
        push_char(&mut s, t[2].symbol());
        push_char(&mut s, ',');
        push_char(&mut s, t[3].symbol());
        push_char(&mut s, ',');
        push_char(&mut s, t[4].symbol());
        push_char(&mut s, ')');
        proof {
            assert(s@ =~= category_text(self.category_spec()) + seq!['('] + self.ties_spec()[0].spec_symbol_seq()
                + seq![','] + self.ties_spec()[1].spec_symbol_seq() + seq![','] + self.ties_spec()[2].spec_symbol_seq()
                + seq![','] + self.ties_spec()[3].spec_symbol_seq() + seq![','] + self.ties_spec()[4].spec_symbol_seq()
                + seq![')']);
        }
        s
    }
}

impl crate::cards::Rank {
    pub open spec fn spec_symbol_seq(self) -> Seq<char> {
        seq![self.spec_symbol()]
    }
}

impl HoldemConfigError {
    pub fn to_string(&self) -> (r: String)
        ensures
            r@ == config_error_text(*self),
    {
        let mut s = String::new();
        match *self {
            HoldemConfigError::SmallBlindMustBePositive => push_str(&mut s, "small blind must be positive"),
            HoldemConfigError::BigBlindMustBePositive => push_str(&mut s, "big blind must be positive"),
            HoldemConfigError::SmallBlindMustBeLessThanBigBlind => push_str(
                &mut s,
                "small blind must be less than big blind",
            ),
            HoldemConfigError::StartingStackMustCoverBigBlind => push_str(
                &mut s,
                "starting stack must be at least the big blind",
            ),
        }
        s
    }
}

impl MatchConfigError {
    pub fn to_string(&self) -> (r: String)
        ensures
            r@ == match *self {
                MatchConfigError::InvalidHandConfig(e) => config_error_text(e),
            },
    {
        match *self {
            MatchConfigError::InvalidHandConfig(e) => e.to_string(),
        }
    }
}

impl ShowdownError {
    pub fn to_string(&self) -> (r: String)
        ensures
            r@ == showdown_error_text(*self),
    {
        let mut s = String::new();
        push_showdown_error(&mut s, *self);
        s
    }
}

fn push_showdown_error(s: &mut String, e: ShowdownError)
    ensures
        final(s)@ == old(s)@ + showdown_error_text(e),
{
    match e {
        ShowdownError::BoardMustContainFiveCards { actual_len } => {
            push_str(s, "holdem showdown requires a 5-card board, got ");
            push_decimal(s, actual_len as u64);
        },
        ShowdownError::DuplicateCard { card } => {
            push_str(s, "showdown contains duplicate card ");
            push_card(s, card);
        },
    }
    proof {
        assert(final(s)@ =~= old(s)@ + showdown_error_text(e));
    }
}

impl EvaluateHandError {
    pub fn to_string(&self) -> (r: String)
        ensures
            r@ == match *self {
                EvaluateHandError::DuplicateCard { card } => "hand contains duplicate card "@ + card_text(card),
            },
    {
        let mut s = String::new();
        match *self {
            EvaluateHandError::DuplicateCard { card } => {
                push_str(&mut s, "hand contains duplicate card ");
                push_card(&mut s, card);
            },
        }
        s
    }
}

fn push_state_error(s: &mut String, e: HoldemStateError)
    ensures
        final(s)@ == old(s)@ + state_error_text(e),
{
    match e {
        HoldemStateError::DuplicateHoleCard { card } => {
            push_str(s, "duplicate hole card ");
            push_card(s, card);
        },
        HoldemStateError::IllegalAction { player, action } => {
            push_str(s, "illegal action `");
            push_action(s, action);
            push_str(s, "` for ");
            push_player(s, player);
        },
        HoldemStateError::ActionNotAllowedInCurrentPhase => push_str(
            s,
            "action is not allowed in the current phase",
        ),
        HoldemStateError::BoardNotExpected => push_str(s, "board cards are not expected right now"),
        HoldemStateError::UnexpectedStreet { expected, actual } => {
            push_str(s, "expected to deal ");
            push_street(s, expected);
            push_str(s, ", got ");
            push_street(s, actual);
        },
        HoldemStateError::WrongBoardCardCount { street, expected, actual } => {
            push_street(s, street);
            push_str(s, " requires ");
            push_decimal(s, expected as u64);
            push_str(s, " board cards, got ");
            push_decimal(s, actual as u64);
        },
        HoldemStateError::DuplicateBoardCard { card } => {
            push_str(s, "duplicate board card ");
            push_card(s, card);
        },
        HoldemStateError::CardAlreadyInUse { card } => {
            push_str(s, "card ");
            push_card(s, card);
            push_str(s, " is already in use");
        },
        HoldemStateError::ShowdownFailed(inner) => {
            push_str(s, "showdown failed: ");
            push_showdown_error(s, inner);
        },
        HoldemStateError::InvalidConfig(inner) => {
            let t = inner.to_string();
            push_str(s, t.as_str());
        },
    }
    proof {
        assert(final(s)@ =~= old(s)@ + state_error_text(e));
    }
}

impl HoldemStateError {
    pub fn to_string(&self) -> (r: String)
        ensures
            r@ == state_error_text(*self),
    {
        let mut s = String::new();
        push_state_error(&mut s, *self);
        s
    }
}

impl MatchStateError {
    pub fn to_string(&self) -> (r: String)
        ensures
            r@ == match_state_error_text(*self),
    {
        let mut s = String::new();
        match *self {
            MatchStateError::HandAlreadyInProgress => push_str(&mut s, "a match hand is already in progress"),
            MatchStateError::NoHandInProgress => push_str(&mut s, "no match hand is currently in progress"),
            MatchStateError::HandNotTerminal => push_str(
                &mut s,
                "cannot settle a match hand before it is terminal",
            ),
            MatchStateError::MatchAlreadyOver => push_str(&mut s, "the match is already over"),
            MatchStateError::State(e) => push_state_error(&mut s, e),
        }
        s
    }
}

} // verus!
