use gto_core::solver::{
    scripted_flop_spot_from_state, scripted_river_spot_from_state, scripted_turn_spot_from_state,
    AbstractionProfile, OpeningSize, PostflopBotPlan, PostflopScriptedSpot, PostflopSolverBot,
    PostflopSolverBotConfig, PostflopSolverBotError, StreetProfile,
};
use gto_core::{HoldemConfig, HoldemHandState, Player, PlayerAction, Range, Street};

// A limp closes the preflop round, so the limped lines here are a single call.
#[test]
fn scripted_spot_builders_replay_public_history() {
    let mut state = HoldemHandState::new(
        HoldemConfig::default(),
        "AsKd".parse().unwrap(),
        "QcJh".parse().unwrap(),
    )
    .unwrap();
    state.apply_action(PlayerAction::Call).unwrap();
    state
        .deal_flop(["2c".parse().unwrap(), "3d".parse().unwrap(), "4h".parse().unwrap()])
        .unwrap();
    state.apply_action(PlayerAction::BetTo(100)).unwrap();

    let flop_spot = scripted_flop_spot_from_state(&state).unwrap();
    assert_eq!(flop_spot.preflop_actions, vec![PlayerAction::Call]);
    assert_eq!(flop_spot.flop_prefix_actions, vec![PlayerAction::BetTo(100)]);

    state.apply_action(PlayerAction::Call).unwrap();
    state.deal_turn("5s".parse().unwrap()).unwrap();
    state.apply_action(PlayerAction::Check).unwrap();

    let turn_spot = scripted_turn_spot_from_state(&state).unwrap();
    assert_eq!(turn_spot.flop_actions, vec![PlayerAction::BetTo(100), PlayerAction::Call]);
    assert_eq!(turn_spot.turn_prefix_actions, vec![PlayerAction::Check]);

    state.apply_action(PlayerAction::Check).unwrap();
    state.deal_river("7c".parse().unwrap()).unwrap();

    let river_spot = scripted_river_spot_from_state(&state).unwrap();
    assert_eq!(river_spot.turn_actions, vec![PlayerAction::Check, PlayerAction::Check]);
    assert!(river_spot.river_prefix_actions.is_empty());
}

fn pot_profile() -> StreetProfile {
    StreetProfile {
        opening_sizes: vec![OpeningSize::PotFractionBps(10_000)],
        raise_sizes: vec![],
        include_all_in: false,
    }
}

#[test]
fn postflop_solver_bot_falls_back_when_opponent_range_filters_to_empty() {
    let bot = PostflopSolverBot::new(PostflopSolverBotConfig {
        profile: AbstractionProfile::new(
            StreetProfile {
                opening_sizes: vec![OpeningSize::BigBlindMultipleBps(25_000)],
                raise_sizes: vec![],
                include_all_in: false,
            },
            pot_profile(),
            pot_profile(),
            pot_profile(),
        ),
        button_base_range: "AsAh".parse().unwrap(),
        big_blind_base_range: "QcQh".parse().unwrap(),
        max_opponent_combos: 1,
        flop_iterations: 1,
        turn_iterations: 1,
        river_iterations: 1,
    });
    let mut state = HoldemHandState::new(
        HoldemConfig::default(),
        "AsKd".parse().unwrap(),
        "QcJh".parse().unwrap(),
    )
    .unwrap();
    state.apply_action(PlayerAction::Call).unwrap();
    state
        .deal_flop(["Ah".parse().unwrap(), "Ad".parse().unwrap(), "2c".parse().unwrap()])
        .unwrap();

    let PostflopBotPlan::Fallback(action) = bot.plan(Player::BigBlind, &state).unwrap() else {
        panic!("expected the stub bot's action");
    };
    state.apply_action(action).unwrap();
}

#[test]
fn the_bot_refuses_to_act_out_of_turn() {
    let bot = PostflopSolverBot::default();
    let state = HoldemHandState::new(
        HoldemConfig::default(),
        "AsKd".parse().unwrap(),
        "QcJh".parse().unwrap(),
    )
    .unwrap();
    match bot.plan(Player::BigBlind, &state) {
        Err(PostflopSolverBotError::NotActorsTurn { expected, actual }) => {
            assert_eq!(expected, Some(Player::Button));
            assert_eq!(actual, Player::BigBlind);
        }
        _ => panic!("expected a refusal"),
    }
}

#[test]
fn the_bot_plays_the_stub_action_preflop_and_on_unsolved_streets() {
    let bot = PostflopSolverBot::default();
    let mut state = HoldemHandState::new(
        HoldemConfig::default(),
        "AsKd".parse().unwrap(),
        "QcJh".parse().unwrap(),
    )
    .unwrap();
    let PostflopBotPlan::Fallback(preflop) = bot.plan(Player::Button, &state).unwrap() else {
        panic!("expected the stub bot's action");
    };
    assert_eq!(preflop, PlayerAction::Call);
    state.apply_action(preflop).unwrap();
    state
        .deal_flop(["2c".parse().unwrap(), "3d".parse().unwrap(), "4h".parse().unwrap()])
        .unwrap();
    let PostflopBotPlan::Fallback(flop) = bot.plan(Player::BigBlind, &state).unwrap() else {
        panic!("the default bot does not solve the flop");
    };
    assert_eq!(flop, PlayerAction::Check);
}

#[test]
fn the_bot_hands_the_turn_to_the_solver_against_the_first_live_hands() {
    let bot = PostflopSolverBot::default();
    let mut state = HoldemHandState::new(
        HoldemConfig::default(),
        "AsKd".parse().unwrap(),
        "QcJh".parse().unwrap(),
    )
    .unwrap();
    state.apply_action(PlayerAction::Call).unwrap();
    state
        .deal_flop(["2c".parse().unwrap(), "3d".parse().unwrap(), "4h".parse().unwrap()])
        .unwrap();
    state.apply_action(PlayerAction::Check).unwrap();
    state.apply_action(PlayerAction::Check).unwrap();
    state.deal_turn("5s".parse().unwrap()).unwrap();
    match bot.plan(Player::BigBlind, &state).unwrap() {
        PostflopBotPlan::Solve {
            spot,
            button_range,
            big_blind_range,
            iterations,
            infoset,
            ..
        } => {
            assert!(matches!(spot, PostflopScriptedSpot::Turn(_)));
            assert_eq!(big_blind_range, "QcJh".parse::<Range>().unwrap());
            assert_eq!(button_range.len(), 2);
            assert_eq!(iterations, 1);
            assert_eq!(infoset.player, Player::BigBlind);
            assert_eq!(infoset.public_state.street, Street::Turn);
        }
        PostflopBotPlan::Fallback(_) => panic!("expected a spot to solve"),
    }
}
