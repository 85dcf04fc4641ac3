use gto_core::solver::AbstractAction;
use gto_core::web::{
    action_id_for_abstract, action_label, chips_to_big_blinds, format_history_event,
    format_outcome_summary, format_player_action, phase_label, WebBotMode, WebSeat,
};
use gto_core::{
    evaluate_seven, Card, HandOutcome, HandPhase, HeadsUpPayout, HistoryEvent, HoldemConfig,
    Player, PlayerAction, ShowdownResult, Street,
};

fn card(text: &str) -> Card {
    text.parse().unwrap()
}

#[test]
fn seats_convert_both_ways() {
    assert_eq!(Player::from(WebSeat::Button), Player::Button);
    assert_eq!(Player::from(WebSeat::BigBlind), Player::BigBlind);
    assert_eq!(WebSeat::from(Player::BigBlind), WebSeat::BigBlind);
    assert_eq!(WebBotMode::HybridFast.name(), "hybrid-fast");
    assert_eq!(WebBotMode::Blueprint.name(), "blueprint");
}

#[test]
fn amounts_are_shown_in_tenths_of_big_blinds() {
    let config = HoldemConfig::default();
    assert_eq!(chips_to_big_blinds(250, config), "2.5 bb");
    assert_eq!(chips_to_big_blinds(1_234, config), "12.3 bb");
    assert_eq!(chips_to_big_blinds(0, config), "0.0 bb");
    assert_eq!(chips_to_big_blinds(u64::MAX, config), "18446744073709551.6 bb");
}

#[test]
fn menu_entries_have_ids_and_labels() {
    let config = HoldemConfig::default();
    assert_eq!(action_id_for_abstract(AbstractAction::Fold), "fold");
    assert_eq!(action_id_for_abstract(AbstractAction::BetTo(300)), "betTo:300");
    assert_eq!(action_id_for_abstract(AbstractAction::AllIn(10_000)), "allIn:10000");
    assert_eq!(action_label(AbstractAction::Call, config), "Call");
    assert_eq!(action_label(AbstractAction::RaiseTo(450), config), "Raise to 4.5 bb");
    assert_eq!(action_label(AbstractAction::AllIn(10_000), config), "All-in to 100.0 bb");
}

#[test]
fn phases_actions_and_events_are_told() {
    assert_eq!(phase_label(HandPhase::AwaitingBoard { next_street: Street::Flop }), "awaitingBoard");
    assert_eq!(format_player_action(PlayerAction::RaiseTo(300)), "raises to 3.0 bb");
    assert_eq!(format_player_action(PlayerAction::AllIn), "moves all-in");
    let posted = HistoryEvent::BlindPosted { player: Player::Button, amount: 50 };
    assert_eq!(format_history_event(&posted), "button posts 0.5 bb");
    let acted = HistoryEvent::ActionApplied {
        street: Street::Flop,
        player: Player::BigBlind,
        action: PlayerAction::Check,
        pot_after: 200,
    };
    assert_eq!(format_history_event(&acted), "flop: big-blind checks");
    let dealt = HistoryEvent::BoardDealt {
        street: Street::Flop,
        cards: vec![card("Kc"), card("8d"), card("4s")],
    };
    assert_eq!(format_history_event(&dealt), "flop: Kc 8d 4s");
}

#[test]
fn outcomes_are_summed_up() {
    let uncontested = HandOutcome::Uncontested {
        winner: Player::BigBlind,
        pot: 150,
        payout: HeadsUpPayout { player_one: 0, player_two: 150 },
        street: Street::Preflop,
    };
    assert_eq!(format_outcome_summary(uncontested), "big-blind wins uncontested for 1.5 bb");

    let board = ["Kc", "8d", "4s", "3h", "2d"];
    let mut one = [card("As"); 7];
    let mut two = [card("Ah"); 7];
    one[1] = card("Ad");
    two[1] = card("7c");
    for (i, text) in board.iter().enumerate() {
        one[i + 2] = card(text);
        two[i + 2] = card(text);
    }
    let result = ShowdownResult {
        player_one_rank: evaluate_seven(one).unwrap(),
        player_two_rank: evaluate_seven(two).unwrap(),
    };
    let showdown = HandOutcome::Showdown {
        result,
        pot: 400,
        payout: HeadsUpPayout { player_one: 400, player_two: 0 },
    };
    assert_eq!(format_outcome_summary(showdown), "button wins at showdown for 4.0 bb");
    let split = ShowdownResult { player_one_rank: result.player_one_rank, player_two_rank: result.player_one_rank };
    let tied = HandOutcome::Showdown {
        result: split,
        pot: 400,
        payout: HeadsUpPayout { player_one: 200, player_two: 200 },
    };
    assert_eq!(format_outcome_summary(tied), "showdown split pot for 4.0 bb");
}
