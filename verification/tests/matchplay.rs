use gto_core::{
HandOutcome, HeadsUpMatchState, HoldemConfig, HoldemHandState, HoleCards, MatchConfig,
MatchPlayer, MatchStateError, Player, PlayerAction,
};

fn sample_hole_cards() -> (HoleCards, HoleCards) {
    ("AsKd".parse().unwrap(), "QcJh".parse().unwrap())
}

#[test]
fn match_starts_with_player_one_on_the_button_by_default() {
    let match_state = HeadsUpMatchState::new(MatchConfig::default()).unwrap();
    let snapshot = match_state.snapshot();

    assert_eq!(snapshot.hand_number, 0);
    assert_eq!(snapshot.seating.button, MatchPlayer::PlayerOne);
    assert_eq!(snapshot.player_one_stack, 10_000);
    assert!(!snapshot.hand_in_progress);
}

#[test]
fn start_next_hand_uses_current_bankrolls_and_sets_progress() {
    let mut match_state = HeadsUpMatchState::new(MatchConfig::default()).unwrap();
    let (button, big_blind) = sample_hole_cards();

    let hand = match_state.start_next_hand(button, big_blind).unwrap();

    assert_eq!(match_state.hand_number(), 1);
    assert!(match_state.hand_in_progress());
    assert_eq!(hand.starting_stack(Player::Button), 10_000);
    assert_eq!(hand.starting_stack(Player::BigBlind), 10_000);
}

#[test]
fn next_hand_rotates_button_and_updates_bankrolls() {
    let mut match_state = HeadsUpMatchState::new(MatchConfig::default()).unwrap();
    let (button, big_blind) = sample_hole_cards();
    let mut hand = match_state.start_next_hand(button, big_blind).unwrap();

    hand.apply_action(PlayerAction::Fold).unwrap();
    match_state.complete_hand(&hand).unwrap();
    let next_hand = match_state.start_next_hand(button, big_blind).unwrap();

    assert_eq!(match_state.bankroll(MatchPlayer::PlayerOne), 9_950);
    assert_eq!(match_state.bankroll(MatchPlayer::PlayerTwo), 10_050);
    assert_eq!(match_state.seating().button, MatchPlayer::PlayerTwo);
    assert_eq!(next_hand.starting_stack(Player::Button), 10_050);
    assert_eq!(next_hand.starting_stack(Player::BigBlind), 9_950);
    assert!(match_state.hand_in_progress());
}

#[test]
fn alternating_hands_preserve_total_bankroll_and_rotate_the_button() {
    let mut match_state = HeadsUpMatchState::new(MatchConfig::default()).unwrap();
    let (button, big_blind) = sample_hole_cards();

    let mut first_hand = match_state.start_next_hand(button, big_blind).unwrap();
    first_hand.apply_action(PlayerAction::Fold).unwrap();
    match_state.complete_hand(&first_hand).unwrap();
    assert_eq!(match_state.seating().button, MatchPlayer::PlayerOne);

    let mut second_hand = match_state.start_next_hand(button, big_blind).unwrap();
    assert_eq!(match_state.seating().button, MatchPlayer::PlayerTwo);
    second_hand.apply_action(PlayerAction::Fold).unwrap();
    match_state.complete_hand(&second_hand).unwrap();

    assert_eq!(
        match_state.bankroll(MatchPlayer::PlayerOne) + match_state.bankroll(MatchPlayer::PlayerTwo),
        20_000
    );
    assert_eq!(match_state.bankroll(MatchPlayer::PlayerOne), 10_000);
    assert_eq!(match_state.bankroll(MatchPlayer::PlayerTwo), 10_000);
}

#[test]
fn complete_hand_rejects_non_terminal_states() {
    let mut match_state = HeadsUpMatchState::new(MatchConfig::default()).unwrap();
    let (button, big_blind) = sample_hole_cards();
    let hand = match_state.start_next_hand(button, big_blind).unwrap();

    assert_eq!(
        match_state.complete_hand(&hand).unwrap_err(),
        MatchStateError::HandNotTerminal
    );
}

#[test]
fn match_over_blocks_new_hands_after_bankroll_reaches_zero() {
    let mut match_state = HeadsUpMatchState::new(
        MatchConfig::new(100, 50, 100, MatchPlayer::PlayerOne).unwrap(),
    )
    .unwrap();
    let button = "2c3d".parse().unwrap();
    let big_blind = "AsAh".parse().unwrap();
    let mut hand = match_state.start_next_hand(button, big_blind).unwrap();

    hand.apply_action(PlayerAction::Call).unwrap();
    hand.deal_flop(["Kc".parse().unwrap(), "Qd".parse().unwrap(), "8h".parse().unwrap()])
        .unwrap();
    hand.deal_turn("5s".parse().unwrap()).unwrap();
    hand.deal_river("4c".parse().unwrap()).unwrap();
    assert!(matches!(hand.current_outcome(), Some(HandOutcome::Showdown { .. })));
    match_state.complete_hand(&hand).unwrap();

    assert!(match_state.match_over());
    assert_eq!(
        match_state.start_next_hand(button, big_blind).unwrap_err(),
        MatchStateError::MatchAlreadyOver
    );
}

#[test]
fn display_stack_uses_settled_bankroll_after_terminal_hand() {
    let mut match_state = HeadsUpMatchState::new(MatchConfig::default()).unwrap();
    let (button, big_blind) = sample_hole_cards();
    let mut hand = match_state.start_next_hand(button, big_blind).unwrap();

    hand.apply_action(PlayerAction::Fold).unwrap();
    match_state.complete_hand(&hand).unwrap();

    assert_eq!(match_state.display_stack_for_seat(&hand, Player::Button), 9_950);
    assert_eq!(match_state.display_stack_for_seat(&hand, Player::BigBlind), 10_050);
}

#[test]
fn unequal_stack_constructor_supports_short_blinds() {
    let state = HoldemHandState::new_with_starting_stacks(
        HoldemConfig::default(),
        "AsKd".parse().unwrap(),
        "QcJh".parse().unwrap(),
        30,
        80,
    )
    .unwrap();

    assert_eq!(state.player(Player::Button).stack, 0);
    assert_eq!(state.player(Player::Button).street_contribution, 30);
    assert_eq!(state.player(Player::BigBlind).stack, 0);
    assert_eq!(state.player(Player::BigBlind).street_contribution, 80);
    assert_eq!(state.pot(), 110);
}

#[test]
fn match_with_deep_bankrolls_settles_and_keeps_the_total() {
    let initial: u64 = 1 << 61;
    let mut match_state = HeadsUpMatchState::new(
        MatchConfig::new(initial, 50, 100, MatchPlayer::PlayerOne).unwrap(),
    )
    .unwrap();
    let (button, big_blind) = sample_hole_cards();
    let mut hand = match_state.start_next_hand(button, big_blind).unwrap();

    hand.apply_action(PlayerAction::AllIn).unwrap();
    hand.apply_action(PlayerAction::Fold).unwrap();
    match_state.complete_hand(&hand).unwrap();

    assert_eq!(match_state.bankroll(MatchPlayer::PlayerOne), initial + 100);
    assert_eq!(match_state.bankroll(MatchPlayer::PlayerTwo), initial - 100);
    assert_eq!(
        match_state.bankroll(MatchPlayer::PlayerOne) + match_state.bankroll(MatchPlayer::PlayerTwo),
        2 * initial
    );
}
