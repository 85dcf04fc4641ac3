use gto_core::solver::{
    FlopSolveError, RiverSolveError, ScriptedFlopSpot, ScriptedRiverSpot, ScriptedTurnSpot,
    TurnSolveError,
};
use gto_core::{HoldemConfig, HoldemStateError, Player, PlayerAction, Street};

fn river_spot() -> ScriptedRiverSpot {
    ScriptedRiverSpot {
        config: HoldemConfig::default(),
        button_starting_stack: None,
        big_blind_starting_stack: None,
        preflop_actions: vec![PlayerAction::Call],
        flop: ["Kc".parse().unwrap(), "8d".parse().unwrap(), "4s".parse().unwrap()],
        flop_actions: vec![PlayerAction::Check, PlayerAction::Check],
        turn: "3h".parse().unwrap(),
        turn_actions: vec![PlayerAction::Check, PlayerAction::Check],
        river: "2d".parse().unwrap(),
        river_prefix_actions: vec![PlayerAction::BetTo(100)],
    }
}

// A preflop call closes the preflop betting (see `calling_preflop_advances_to_the_flop`),
// so the scripts below open with the call alone.
fn turn_spot() -> ScriptedTurnSpot {
    ScriptedTurnSpot {
        config: HoldemConfig::default(),
        button_starting_stack: None,
        big_blind_starting_stack: None,
        preflop_actions: vec![PlayerAction::Call],
        flop: ["Kc".parse().unwrap(), "8d".parse().unwrap(), "4s".parse().unwrap()],
        flop_actions: vec![PlayerAction::Check, PlayerAction::Check],
        turn: "3h".parse().unwrap(),
        turn_prefix_actions: vec![PlayerAction::Check],
    }
}

fn flop_spot() -> ScriptedFlopSpot {
    ScriptedFlopSpot {
        config: HoldemConfig::default(),
        button_starting_stack: None,
        big_blind_starting_stack: None,
        preflop_actions: vec![PlayerAction::Call],
        flop: ["Kc".parse().unwrap(), "8d".parse().unwrap(), "4s".parse().unwrap()],
        flop_prefix_actions: vec![PlayerAction::BetTo(100)],
    }
}

#[test]
fn scripted_spot_reaches_a_river_decision() {
    let spot = river_spot();
    let state = spot
        .build_state("QhJc".parse().unwrap(), "KhKd".parse().unwrap())
        .unwrap();

    assert_eq!(state.street(), Street::River);
    assert_eq!(state.current_actor(), Some(Player::Button));
}

#[test]
fn river_invalid_public_script_surfaces_exact_state_errors() {
    let mut spot = river_spot();
    spot.flop[0] = "As".parse().unwrap();

    let error = spot
        .build_state("AsKd".parse().unwrap(), "QcJh".parse().unwrap())
        .expect_err("spot should reject duplicate cards");

    assert!(matches!(error, RiverSolveError::State(HoldemStateError::CardAlreadyInUse { .. })));
}

#[test]
fn scripted_spot_reaches_a_turn_decision() {
    let state = turn_spot()
        .build_state("QhJc".parse().unwrap(), "KhKd".parse().unwrap())
        .unwrap();
    assert_eq!(state.street(), Street::Turn);
    assert_eq!(state.current_actor(), Some(Player::Button));
}

#[test]
fn turn_invalid_public_script_surfaces_exact_state_errors() {
    let mut spot = turn_spot();
    spot.flop[0] = "As".parse().unwrap();
    let error = spot
        .build_state("AsKd".parse().unwrap(), "QcJh".parse().unwrap())
        .expect_err("spot should reject duplicate cards");
    assert!(matches!(error, TurnSolveError::State(HoldemStateError::CardAlreadyInUse { .. })));
}

#[test]
fn scripted_spot_reaches_a_flop_decision() {
    let state = flop_spot()
        .build_state("QhJc".parse().unwrap(), "KhKd".parse().unwrap())
        .unwrap();
    assert_eq!(state.street(), Street::Flop);
    assert_eq!(state.current_actor(), Some(Player::Button));
}

#[test]
fn flop_invalid_public_script_surfaces_exact_state_errors() {
    let mut spot = flop_spot();
    spot.flop[0] = "As".parse().unwrap();
    let error = spot
        .build_state("AsKd".parse().unwrap(), "QcJh".parse().unwrap())
        .expect_err("spot should reject duplicate cards");
    assert!(matches!(error, FlopSolveError::State(HoldemStateError::CardAlreadyInUse { .. })));
}

#[test]
fn scripts_that_end_the_hand_are_reported() {
    let mut spot = flop_spot();
    spot.flop_prefix_actions = vec![PlayerAction::BetTo(100), PlayerAction::Fold];
    assert!(matches!(
        spot.build_state("QhJc".parse().unwrap(), "KhKd".parse().unwrap()),
        Err(FlopSolveError::SpotAlreadyTerminal)
    ));
    let mut spot = flop_spot();
    spot.flop_prefix_actions = vec![PlayerAction::Check, PlayerAction::Check];
    assert!(matches!(
        spot.build_state("QhJc".parse().unwrap(), "KhKd".parse().unwrap()),
        Err(FlopSolveError::UnexpectedPhase(_))
    ));
}

#[test]
fn board_cards_list_the_script_board() {
    let spot = river_spot();
    let board = spot.board_cards();
    assert_eq!(board[3], "3h".parse().unwrap());
    assert_eq!(board[4], "2d".parse().unwrap());
    assert_eq!(turn_spot().board_cards().len(), 4);
    assert_eq!(flop_spot().board_cards()[0], "Kc".parse().unwrap());
}

#[test]
fn river_deals_pair_the_hands_that_avoid_the_board_and_each_other() {
    let spot = river_spot();
    let button_range: gto_core::Range = "QhJc,Kc7h".parse().unwrap();
    let big_blind_range: gto_core::Range = "KhKd,QhQd".parse().unwrap();

    let deals = spot.river_deals(&button_range, &big_blind_range).unwrap();

    assert_eq!(deals.len(), 1);
    assert_eq!(deals[0].button_hole_cards, "QhJc".parse().unwrap());
    assert_eq!(deals[0].big_blind_hole_cards, "KhKd".parse().unwrap());
    assert_eq!(deals[0].state.street(), Street::River);
    assert_eq!(deals[0].state.current_actor(), Some(Player::Button));
}

#[test]
fn river_deals_without_any_pair_are_refused() {
    let spot = river_spot();
    let button_range: gto_core::Range = "KhKd".parse().unwrap();
    let big_blind_range: gto_core::Range = "KhQd".parse().unwrap();

    let error = spot.river_deals(&button_range, &big_blind_range).unwrap_err();

    assert!(matches!(error, RiverSolveError::NoValidDeals));
}

#[test]
fn turn_and_flop_deals_pair_the_hands_that_avoid_the_board() {
    let button_range: gto_core::Range = "QhJc,Kc7h".parse().unwrap();
    let big_blind_range: gto_core::Range = "KhKd,QhQd".parse().unwrap();

    let turn = turn_spot().turn_deals(&button_range, &big_blind_range).unwrap();
    assert_eq!(turn.len(), 1);
    assert_eq!(turn[0].button_hole_cards, "QhJc".parse().unwrap());
    assert_eq!(turn[0].big_blind_hole_cards, "KhKd".parse().unwrap());
    assert_eq!(turn[0].state.street(), Street::Turn);

    let flop = flop_spot().flop_deals(&button_range, &big_blind_range).unwrap();
    assert_eq!(flop.len(), 1);
    assert_eq!(flop[0].state.street(), Street::Flop);

    let none: gto_core::Range = "KhQd".parse().unwrap();
    let only: gto_core::Range = "KhKd".parse().unwrap();
    assert!(matches!(turn_spot().turn_deals(&only, &none), Err(TurnSolveError::NoValidDeals)));
    assert!(matches!(flop_spot().flop_deals(&only, &none), Err(FlopSolveError::NoValidDeals)));
}

#[test]
fn undealt_cards_leave_out_the_dead_ones_in_deck_order() {
    let dead = gto_core::CardMask::from_cards(&["Kc".parse().unwrap(), "2c".parse().unwrap()]);
    let left = gto_core::undealt_cards(dead);
    assert_eq!(left.len(), 50);
    assert_eq!(left[0], "2d".parse().unwrap());
    assert!(!left.contains(&"Kc".parse().unwrap()));
    assert!(left.windows(2).all(|w| w[0].index() < w[1].index()));
}
