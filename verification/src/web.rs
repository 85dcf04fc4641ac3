//! The texts and identifiers that a browser front end shows for a hand: seats, bot
//! modes, phases, menu entries, chip amounts in big blinds and the hand's history.

use vstd::prelude::*;

use crate::card_text::card_text;
use crate::cards::Card;
use crate::holdem::{Chips, HandOutcome, HandPhase, HistoryEvent, HoldemConfig, Player, PlayerAction};
use crate::rules_text::{player_text, push_player, push_street, street_text};
use crate::solver::abstraction::AbstractAction;
use crate::text::{decimal, join, join_strings, push_char, push_decimal, push_str, views};

verus! {

/// A seat as the browser names it.
#[derive(Debug, Clone, Copy, PartialEq, Eq, Structural)]
pub enum WebSeat {
    Button,
    BigBlind,
}

impl From<WebSeat> for Player {
    fn from(value: WebSeat) -> (r: Player) {
        match value {
            WebSeat::Button => Player::Button,
            WebSeat::BigBlind => Player::BigBlind,
        }
    }
}

impl vstd::std_specs::convert::FromSpecImpl<WebSeat> for Player {
    open spec fn obeys_from_spec() -> bool {
        true
    }

    open spec fn from_spec(v: WebSeat) -> Player {
        match v {
            WebSeat::Button => Player::Button,
            WebSeat::BigBlind => Player::BigBlind,
        }
    }
}

impl From<Player> for WebSeat {
    fn from(value: Player) -> (r: WebSeat) {
        match value {
            Player::Button => WebSeat::Button,
            Player::BigBlind => WebSeat::BigBlind,
        }
    }
}

impl vstd::std_specs::convert::FromSpecImpl<Player> for WebSeat {
    open spec fn obeys_from_spec() -> bool {
        true
    }

    open spec fn from_spec(v: Player) -> WebSeat {
        match v {
            Player::Button => WebSeat::Button,
            Player::BigBlind => WebSeat::BigBlind,
        }
    }
}

/// Which bot the browser plays against.
#[derive(Debug, Clone, Copy, PartialEq, Eq, Structural)]
pub enum WebBotMode {
    Blueprint,
    HybridFast,
    HybridPlay,
}

impl WebBotMode {
    pub open spec fn spec_name(self) -> Seq<char> {
        match self {
            WebBotMode::Blueprint => "blueprint"@,
            WebBotMode::HybridFast => "hybrid-fast"@,
            WebBotMode::HybridPlay => "hybrid-play"@,
        }
    }

    pub fn name(self) -> (r: &'static str)
        ensures
            r@ == self.spec_name(),
    {
        proof {
            reveal_strlit("blueprint");
            reveal_strlit("hybrid-fast");
            reveal_strlit("hybrid-play");
        }
        match self {
            WebBotMode::Blueprint => "blueprint",
            WebBotMode::HybridFast => "hybrid-fast",
            WebBotMode::HybridPlay => "hybrid-play",
        }
    }
}

/// The name of a phase.
pub open spec fn phase_text(phase: HandPhase) -> Seq<char> {
    match phase {
        HandPhase::BettingRound { .. } => "bettingRound"@,
        HandPhase::AwaitingBoard { .. } => "awaitingBoard"@,
        HandPhase::Terminal { .. } => "terminal"@,
    }
}

/// Names a phase.
pub fn phase_label(phase: HandPhase) -> (r: &'static str)
    ensures
        r@ == phase_text(phase),
{
    proof {
        reveal_strlit("bettingRound");
        reveal_strlit("awaitingBoard");
        reveal_strlit("terminal");
    }
    match phase {
        HandPhase::BettingRound { .. } => "bettingRound",
        HandPhase::AwaitingBoard { .. } => "awaitingBoard",
        HandPhase::Terminal { .. } => "terminal",
    }
}

/// Tenths of a big blind in `chips`: ten times the chips, saturating at the largest
/// 64-bit number, divided by the big blind.
pub open spec fn bb_tenths(chips: Chips, big_blind: Chips) -> nat {
    let ten: int = if chips * 10 <= u64::MAX {
        chips * 10
    } else {
        u64::MAX as int
    };
    (ten / (big_blind as int)) as nat
}

/// An amount in big blinds with one decimal, cut (not rounded) to the tenth.
pub open spec fn bb_text(chips: Chips, big_blind: Chips) -> Seq<char> {
    let t = bb_tenths(chips, big_blind);
    decimal(t / 10) + seq!['.'] + decimal(t % 10) + " bb"@
}

/// Writes an amount in big blinds.
pub fn chips_to_big_blinds(chips: u64, config: HoldemConfig) -> (r: String)
    requires
        config.big_blind > 0,
    ensures
        r@ == bb_text(chips, config.big_blind),
{
    let ten: u64 = if chips <= u64::MAX / 10 {
        chips * 10
    } else {
        u64::MAX
    };
    let tenths = ten / config.big_blind;
    let mut s = String::new();
    push_decimal(&mut s, tenths / 10);
    push_char(&mut s, '.');
    push_decimal(&mut s, tenths % 10);
    push_str(&mut s, " bb");
    proof {
        assert(s@ =~= bb_text(chips, config.big_blind));
    }
    s
}

/// The identifier of a menu entry.
pub open spec fn action_id_text(action: AbstractAction) -> Seq<char> {
    match action {
        AbstractAction::Fold => "fold"@,
        AbstractAction::Check => "check"@,
        AbstractAction::Call => "call"@,
        AbstractAction::BetTo(total) => "betTo:"@ + decimal(total as nat),
        AbstractAction::RaiseTo(total) => "raiseTo:"@ + decimal(total as nat),
        AbstractAction::AllIn(total) => "allIn:"@ + decimal(total as nat),
    }
}

/// Identifies a menu entry.
pub fn action_id_for_abstract(action: AbstractAction) -> (r: String)
    ensures
        r@ == action_id_text(action),
{
    let mut s = String::new();
    match action {
        AbstractAction::Fold => push_str(&mut s, "fold"),
        AbstractAction::Check => push_str(&mut s, "check"),
        AbstractAction::Call => push_str(&mut s, "call"),
        AbstractAction::BetTo(total) => {
            push_str(&mut s, "betTo:");
            push_decimal(&mut s, total);
        },
        AbstractAction::RaiseTo(total) => {
            push_str(&mut s, "raiseTo:");
            push_decimal(&mut s, total);
        },
        AbstractAction::AllIn(total) => {
            push_str(&mut s, "allIn:");
            push_decimal(&mut s, total);
        },
    }
    s
}

/// How a menu entry is shown, amounts in big blinds.
pub open spec fn action_label_text(action: AbstractAction, big_blind: Chips) -> Seq<char> {
    match action {
        AbstractAction::Fold => "Fold"@,
        AbstractAction::Check => "Check"@,
        AbstractAction::Call => "Call"@,
        AbstractAction::BetTo(total) => "Bet to "@ + bb_text(total, big_blind),
        AbstractAction::RaiseTo(total) => "Raise to "@ + bb_text(total, big_blind),
        AbstractAction::AllIn(total) => "All-in to "@ + bb_text(total, big_blind),
    }
}

/// Shows a menu entry.
pub fn action_label(action: AbstractAction, config: HoldemConfig) -> (r: String)
    requires
        config.big_blind > 0,
    ensures
        r@ == action_label_text(action, config.big_blind),
{
    let mut s = String::new();
    match action {
        AbstractAction::Fold => push_str(&mut s, "Fold"),
        AbstractAction::Check => push_str(&mut s, "Check"),
        AbstractAction::Call => push_str(&mut s, "Call"),
        AbstractAction::BetTo(total) => {
            push_str(&mut s, "Bet to ");
            push_str(&mut s, chips_to_big_blinds(total, config).as_str());
        },
        AbstractAction::RaiseTo(total) => {
            push_str(&mut s, "Raise to ");
            push_str(&mut s, chips_to_big_blinds(total, config).as_str());
        },
        AbstractAction::AllIn(total) => {
            push_str(&mut s, "All-in to ");
            push_str(&mut s, chips_to_big_blinds(total, config).as_str());
        },
    }
    s
}

/// The big blind of the standard configuration, in which the history is told.
pub open spec fn standard_big_blind() -> Chips {
    100
}

/// How an exact action is told in the history.
pub open spec fn player_action_text(action: PlayerAction) -> Seq<char> {
    match action {
        PlayerAction::Fold => "folds"@,
        PlayerAction::Check => "checks"@,
        PlayerAction::Call => "calls"@,
        PlayerAction::BetTo(total) => "bets to "@ + bb_text(total, standard_big_blind()),
        PlayerAction::RaiseTo(total) => "raises to "@ + bb_text(total, standard_big_blind()),
        PlayerAction::AllIn => "moves all-in"@,
    }
}

/// Tells an exact action.
pub fn format_player_action(action: PlayerAction) -> (r: String)
    ensures
        r@ == player_action_text(action),
{
    let config = HoldemConfig::default();
    let mut s = String::new();
    match action {
        PlayerAction::Fold => push_str(&mut s, "folds"),
        PlayerAction::Check => push_str(&mut s, "checks"),
        PlayerAction::Call => push_str(&mut s, "calls"),
        PlayerAction::BetTo(total) => {
            push_str(&mut s, "bets to ");
            push_str(&mut s, chips_to_big_blinds(total, config).as_str());
        },
        PlayerAction::RaiseTo(total) => {
            push_str(&mut s, "raises to ");
            push_str(&mut s, chips_to_big_blinds(total, config).as_str());
        },
        PlayerAction::AllIn => push_str(&mut s, "moves all-in"),
    }
    s
}

/// How the end of a hand is summed up, the pot in big blinds.
pub open spec fn outcome_summary_text(outcome: HandOutcome) -> Seq<char> {
    match outcome {
        HandOutcome::Uncontested { winner, pot, .. } => player_text(winner) + " wins uncontested for "@
            + bb_text(pot, standard_big_blind()),
        HandOutcome::Showdown { result, pot, .. } => (if result.two_wins() {
            "big-blind wins at showdown"@
        } else if result.one_wins() {
            "button wins at showdown"@
        } else {
            "showdown split pot"@
        }) + " for "@ + bb_text(pot, standard_big_blind()),
    }
}

/// Sums up the end of a hand.
pub fn format_outcome_summary(outcome: HandOutcome) -> (r: String)
    ensures
        r@ == outcome_summary_text(outcome),
{
    let config = HoldemConfig::default();
    let mut s = String::new();
    match outcome {
        HandOutcome::Uncontested { winner, pot, .. } => {
            push_player(&mut s, winner);
            push_str(&mut s, " wins uncontested for ");
            push_str(&mut s, chips_to_big_blinds(pot, config).as_str());
        },
        HandOutcome::Showdown { result, pot, .. } => {
            match result.ordering() {
                std::cmp::Ordering::Less => push_str(&mut s, "big-blind wins at showdown"),
                std::cmp::Ordering::Greater => push_str(&mut s, "button wins at showdown"),
                std::cmp::Ordering::Equal => push_str(&mut s, "showdown split pot"),
            }
            push_str(&mut s, " for ");
            push_str(&mut s, chips_to_big_blinds(pot, config).as_str());
        },
    }
    proof {
        assert(s@ =~= outcome_summary_text(outcome));
    }
    s
}

/// Cards separated by spaces.
pub open spec fn spaced_cards_text(cards: Seq<Card>) -> Seq<char> {
    join(cards.map_values(|c: Card| card_text(c)), seq![' '])
}

/// How an event of the hand is told.
pub open spec fn history_event_text(event: HistoryEvent) -> Seq<char> {
    match event@ {
        crate::holdem::EventRecord::BlindPosted { player, amount } => player_text(player) + " posts "@
            + bb_text(amount, standard_big_blind()),
        crate::holdem::EventRecord::ActionApplied { street, player, action, .. } => street_text(street)
            + ": "@ + player_text(player) + seq![' '] + player_action_text(action),
        crate::holdem::EventRecord::BoardDealt { street, cards } => street_text(street) + ": "@
            + spaced_cards_text(cards),
        crate::holdem::EventRecord::HandCompleted { outcome } => outcome_summary_text(outcome),
    }
}

/// Tells an event of the hand.
pub fn format_history_event(event: &HistoryEvent) -> (r: String)
    ensures
        r@ == history_event_text(*event),
{
    let config = HoldemConfig::default();
    let mut s = String::new();
    match event {
        HistoryEvent::BlindPosted { player, amount } => {
            push_player(&mut s, *player);
            push_str(&mut s, " posts ");
            push_str(&mut s, chips_to_big_blinds(*amount, config).as_str());
        },
        HistoryEvent::ActionApplied { street, player, action, .. } => {
            push_street(&mut s, *street);
            push_str(&mut s, ": ");
            push_player(&mut s, *player);
            push_char(&mut s, ' ');
            push_str(&mut s, format_player_action(*action).as_str());
        },
        HistoryEvent::BoardDealt { street, cards } => {
            push_street(&mut s, *street);
            push_str(&mut s, ": ");
            let mut texts: Vec<String> = Vec::new();
            let mut k: usize = 0;
            while k < cards.len()
                invariant
                    k <= cards@.len(),
                    views(texts@) == cards@.take(k as int).map_values(|c: Card| card_text(c)),
                decreases cards@.len() - k,
            {
                let ghost before = texts@;
                texts.push(cards[k].to_string());
                proof {
                    assert(views(texts@) =~= views(before).push(card_text(cards@[k as int])));
                    assert(cards@.take(k + 1).map_values(|c: Card| card_text(c)) =~= cards@.take(
                        k as int,
                    ).map_values(|c: Card| card_text(c)).push(card_text(cards@[k as int])));
                }
                k = k + 1;
            }
            proof {
                assert(cards@.take(k as int) =~= cards@);
            }
            push_str(&mut s, join_strings(&texts, ' ').as_str());
        },
        HistoryEvent::HandCompleted { outcome } => {
            push_str(&mut s, format_outcome_summary(*outcome).as_str());
        },
    }
    proof {
        assert(s@ =~= history_event_text(*event));
    }
    s
}

} // verus!
