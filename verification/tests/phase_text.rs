use gto_core::phase_text::phase_text;
use gto_core::solver::RiverSolveError;
use gto_core::{HandPhase, HoldemConfig, HoldemHandState, Player, PlayerAction, Street};

fn fresh_state() -> HoldemHandState {
    HoldemHandState::new(
        HoldemConfig::default(),
        "AsKd".parse().unwrap(),
        "QcJh".parse().unwrap(),
    )
    .unwrap()
}

#[test]
fn phase_text_matches_the_debug_notation_of_every_phase() {
    let mut state = fresh_state();
    let betting = state.phase();
    assert_eq!(phase_text(betting), format!("{betting:?}"));
    assert_eq!(phase_text(betting), "BettingRound { street: Preflop, actor: Button }");

    state.apply_action(PlayerAction::Call).unwrap();
    let awaiting = state.phase();
    assert_eq!(phase_text(awaiting), "AwaitingBoard { next_street: Flop }");
    assert_eq!(phase_text(awaiting), format!("{awaiting:?}"));

    state
        .deal_flop(["2c".parse().unwrap(), "7d".parse().unwrap(), "9h".parse().unwrap()])
        .unwrap();
    state.apply_action(PlayerAction::Check).unwrap();
    state.apply_action(PlayerAction::Check).unwrap();
    state.deal_turn("3s".parse().unwrap()).unwrap();
    state.apply_action(PlayerAction::Check).unwrap();
    state.apply_action(PlayerAction::Check).unwrap();
    state.deal_river("4h".parse().unwrap()).unwrap();
    state.apply_action(PlayerAction::Check).unwrap();
    state.apply_action(PlayerAction::Check).unwrap();
    let showdown = state.phase();
    assert!(matches!(showdown, HandPhase::Terminal { .. }));
    assert_eq!(phase_text(showdown), format!("{showdown:?}"));

    let mut folded = fresh_state();
    folded.apply_action(PlayerAction::Fold).unwrap();
    let uncontested = folded.phase();
    assert_eq!(phase_text(uncontested), format!("{uncontested:?}"));
}

#[test]
fn unexpected_phase_message_ends_with_the_phase_text() {
    let phase = HandPhase::BettingRound { street: Street::Turn, actor: Player::BigBlind };
    assert_eq!(
        RiverSolveError::UnexpectedPhase(phase).to_string(),
        "river spot ended in unexpected phase BettingRound { street: Turn, actor: BigBlind }"
    );
}
