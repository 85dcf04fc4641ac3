use gto_core::{
Card, HandOutcome, HandPhase, HeadsUpPayout, HistoryEvent, HoldemConfig, HoldemHandState,
LegalActions, Player, PlayerAction, Street, WagerRange,
};

fn sample_state_with_default_config() -> HoldemHandState {
    HoldemHandState::new(
        HoldemConfig::default(),
        "AsKd".parse().unwrap(),
        "QcJh".parse().unwrap(),
    )
    .unwrap()
}

#[test]
fn new_hand_posts_blinds_and_waits_for_button_action() {
    let state = sample_state_with_default_config();

    assert_eq!(
        state.phase(),
        HandPhase::BettingRound {
            street: Street::Preflop,
            actor: Player::Button,
        }
    );
    assert_eq!(state.pot(), 150);
    assert_eq!(state.player(Player::Button).stack, 9_950);
    assert_eq!(state.player(Player::Button).street_contribution, 50);
    assert_eq!(state.player(Player::BigBlind).stack, 9_900);
    assert_eq!(state.player(Player::BigBlind).street_contribution, 100);
    assert_eq!(
        state.legal_actions().unwrap(),
        LegalActions {
            fold: true,
            check: false,
            call_amount: Some(50),
            bet_range: None,
            raise_range: Some(WagerRange {
                min_total: 200,
                max_total: 10_000,
            }),
            all_in_to: None,
        }
    );
    assert_eq!(
        state.history(),
        &[
            HistoryEvent::BlindPosted {
                player: Player::Button,
                amount: 50,
            },
            HistoryEvent::BlindPosted {
                player: Player::BigBlind,
                amount: 100,
            },
        ]
    );
}

#[test]
fn calling_preflop_advances_to_the_flop() {
    let mut state = sample_state_with_default_config();

    state.apply_action(PlayerAction::Call).unwrap();

    assert_eq!(
        state.phase(),
        HandPhase::AwaitingBoard {
            next_street: Street::Flop,
        }
    );
    assert_eq!(state.pot(), 200);
    assert_eq!(state.player(Player::Button).stack, 9_900);
    assert_eq!(state.player(Player::BigBlind).stack, 9_900);
}

#[test]
fn dealing_flop_begins_a_new_betting_round_with_big_blind_first() {
    let mut state = sample_state_with_default_config();
    state.apply_action(PlayerAction::Call).unwrap();

    state.deal_flop(parse_cards::<3>("2c3d4h")).unwrap();

    assert_eq!(
        state.phase(),
        HandPhase::BettingRound {
            street: Street::Flop,
            actor: Player::BigBlind,
        }
    );
    assert_eq!(state.board().to_string(), "2c3d4h");
    assert_eq!(
        state.legal_actions().unwrap(),
        LegalActions {
            fold: false,
            check: true,
            call_amount: None,
            bet_range: Some(WagerRange {
                min_total: 100,
                max_total: 9_900,
            }),
            raise_range: None,
            all_in_to: None,
        }
    );
}

#[test]
fn check_check_advances_the_street() {
    let mut state = sample_state_with_default_config();
    state.apply_action(PlayerAction::Call).unwrap();
    state.deal_flop(parse_cards::<3>("2c3d4h")).unwrap();

    state.apply_action(PlayerAction::Check).unwrap();
    state.apply_action(PlayerAction::Check).unwrap();

    assert_eq!(
        state.phase(),
        HandPhase::AwaitingBoard {
            next_street: Street::Turn,
        }
    );
}

#[test]
fn fold_ends_the_hand_immediately() {
    let mut state = sample_state_with_default_config();

    state.apply_action(PlayerAction::Fold).unwrap();

    let Some(HandOutcome::Uncontested {
        winner,
        pot,
        payout,
        street,
    }) = state.current_outcome()
    else {
        panic!("expected an uncontested outcome");
    };
    assert_eq!(winner, Player::BigBlind);
    assert_eq!(pot, 150);
    assert_eq!(
        payout,
        HeadsUpPayout {
            player_one: 0,
            player_two: 150,
        }
    );
    assert_eq!(street, Street::Preflop);
}

#[test]
fn min_raise_is_enforced_preflop() {
    let mut state = sample_state_with_default_config();

    let error = state
        .apply_action(PlayerAction::RaiseTo(150))
        .expect_err("raise below the minimum should be rejected");

    assert_eq!(error.to_string(), "illegal action `raise-to 150` for button");
}

#[test]
fn incomplete_all_in_raise_does_not_offer_a_re_raise() {
    let config = HoldemConfig::new(250, 50, 100).unwrap();
    let mut state =
        HoldemHandState::new(config, "AsKd".parse().unwrap(), "QcJh".parse().unwrap())
            .unwrap();

    state.apply_action(PlayerAction::Call).unwrap();
    state.deal_flop(parse_cards::<3>("2c3d4h")).unwrap();
    state.apply_action(PlayerAction::BetTo(100)).unwrap();

    assert_eq!(
        state.legal_actions().unwrap(),
        LegalActions {
            fold: true,
            check: false,
            call_amount: Some(100),
            bet_range: None,
            raise_range: None,
            all_in_to: Some(150),
        }
    );

    state.apply_action(PlayerAction::AllIn).unwrap();

    assert_eq!(
        state.legal_actions().unwrap(),
        LegalActions {
            fold: true,
            check: false,
            call_amount: Some(50),
            bet_range: None,
            raise_range: None,
            all_in_to: None,
        }
    );

    state.apply_action(PlayerAction::Call).unwrap();

    assert_eq!(
        state.phase(),
        HandPhase::AwaitingBoard {
            next_street: Street::Turn,
        }
    );
    assert_eq!(state.player(Player::Button).stack, 0);
    assert_eq!(state.player(Player::BigBlind).stack, 0);
    assert_eq!(state.pot(), 500);
}

#[test]
fn all_in_before_the_river_forces_a_runout_then_showdown() {
    let config = HoldemConfig::new(250, 50, 100).unwrap();
    let mut state =
        HoldemHandState::new(config, "AhAd".parse().unwrap(), "KhKd".parse().unwrap())
            .unwrap();

    state.apply_action(PlayerAction::Call).unwrap();
    state.deal_flop(parse_cards::<3>("2c3d4h")).unwrap();
    state.apply_action(PlayerAction::BetTo(100)).unwrap();
    state.apply_action(PlayerAction::AllIn).unwrap();
    state.apply_action(PlayerAction::Call).unwrap();

    state.deal_turn("5s".parse().unwrap()).unwrap();
    assert_eq!(
        state.phase(),
        HandPhase::AwaitingBoard {
            next_street: Street::River,
        }
    );
    state.deal_river("7c".parse().unwrap()).unwrap();

    let Some(HandOutcome::Showdown {
        result,
        pot,
        payout,
    }) = state.current_outcome()
    else {
        panic!("expected showdown");
    };
    assert!(result.player_one_rank > result.player_two_rank);
    assert_eq!(pot, 500);
    assert_eq!(
        payout,
        HeadsUpPayout {
            player_one: 500,
            player_two: 0,
        }
    );
}

#[test]
fn duplicate_board_cards_are_rejected() {
    let mut state = sample_state_with_default_config();
    state.apply_action(PlayerAction::Call).unwrap();

    let error = state
        .deal_flop(parse_cards::<3>("As3d4h"))
        .expect_err("flop should reject hole-card duplicates");

    assert_eq!(error.to_string(), "card As is already in use");
}

#[test]
fn action_history_records_board_and_terminal_events() {
    let mut state = sample_state_with_default_config();
    state.apply_action(PlayerAction::Call).unwrap();
    state.deal_flop(parse_cards::<3>("2c3d4h")).unwrap();
    state.apply_action(PlayerAction::Check).unwrap();
    state.apply_action(PlayerAction::Check).unwrap();
    state.deal_turn("5s".parse().unwrap()).unwrap();
    state.apply_action(PlayerAction::BetTo(100)).unwrap();
    state.apply_action(PlayerAction::Fold).unwrap();

    assert!(matches!(
        state.history().last(),
        Some(HistoryEvent::HandCompleted {
            outcome: HandOutcome::Uncontested { .. }
        })
    ));
}

fn parse_cards<const N: usize>(input: &str) -> [Card; N] {
    assert_eq!(input.len(), N * 2, "input should contain exactly {N} cards");
    (0..N)
        .map(|index| {
            let start = index * 2;
            let end = start + 2;
            input[start..end]
                .parse::<Card>()
                .expect("test card text should parse")
        })
        .collect::<Vec<_>>()
        .try_into()
        .expect("test input should contain the expected number of cards")
}

#[test]
fn player_facing_a_bet_always_has_chips_to_call_with() {
    let mut state = sample_state_with_default_config();
    let legal = state.legal_actions().unwrap();
    let stack = state.player(Player::Button).stack;
    let call = legal.call_amount.unwrap();
    assert!(call > 0 && call <= stack);
    assert!(legal.fold && !legal.check);

    state.apply_action(PlayerAction::RaiseTo(9_000)).unwrap();
    let legal = state.legal_actions().unwrap();
    let call = legal.call_amount.unwrap();
    assert_eq!(call, 8_900);
    assert!(call <= state.player(Player::BigBlind).stack);
    assert!(legal.fold && !legal.check);
}
