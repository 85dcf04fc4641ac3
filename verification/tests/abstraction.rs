use gto_core::solver::{
    abstract_actions, stable_action_key, stable_infoset_key, AbstractAction, AbstractionProfile, HoldemInfoSetKey, OpeningSize,
    PublicStateKey, RaiseSize, StreetProfile,
};
use gto_core::{HoldemConfig, HoldemHandState, Player, PlayerAction, Street};

fn empty_street() -> StreetProfile {
    StreetProfile {
        opening_sizes: vec![],
        raise_sizes: vec![],
        include_all_in: false,
    }
}

fn default_state() -> HoldemHandState {
    HoldemHandState::new(
        HoldemConfig::default(),
        "AsKd".parse().unwrap(),
        "QcJh".parse().unwrap(),
    )
    .unwrap()
}

#[test]
fn abstraction_filters_to_legal_preflop_actions() {
    let state = default_state();
    let profile = AbstractionProfile::new(
        StreetProfile {
            opening_sizes: vec![
                OpeningSize::BigBlindMultipleBps(15_000),
                OpeningSize::BigBlindMultipleBps(25_000),
                OpeningSize::BigBlindMultipleBps(40_000),
            ],
            raise_sizes: vec![RaiseSize::CurrentBetMultipleBps(25_000)],
            include_all_in: false,
        },
        empty_street(),
        empty_street(),
        empty_street(),
    );

    let actions = abstract_actions(&state, &profile).unwrap();
    assert_eq!(
        actions,
        vec![
            AbstractAction::Fold,
            AbstractAction::Call,
            AbstractAction::RaiseTo(250),
            AbstractAction::RaiseTo(400),
        ]
    );
}

#[test]
fn abstraction_surfaces_live_all_in_for_deep_postflop_opening_spots() {
    let mut state = default_state();
    state.apply_action(PlayerAction::RaiseTo(400)).unwrap();
    state.apply_action(PlayerAction::Call).unwrap();
    state
        .deal_flop(["2c".parse().unwrap(), "3d".parse().unwrap(), "4h".parse().unwrap()])
        .unwrap();

    let profile = AbstractionProfile::new(
        empty_street(),
        StreetProfile {
            opening_sizes: vec![
                OpeningSize::PotFractionBps(3_300),
                OpeningSize::PotFractionBps(6_600),
                OpeningSize::PotFractionBps(10_000),
            ],
            raise_sizes: vec![RaiseSize::CurrentBetMultipleBps(25_000)],
            include_all_in: true,
        },
        empty_street(),
        empty_street(),
    );

    let actions = abstract_actions(&state, &profile).unwrap();
    assert_eq!(
        actions,
        vec![
            AbstractAction::Check,
            AbstractAction::BetTo(264),
            AbstractAction::BetTo(528),
            AbstractAction::BetTo(800),
            AbstractAction::AllIn(9_600),
        ]
    );
}

#[test]
fn abstraction_surfaces_live_all_in_when_facing_a_deep_postflop_bet() {
    let mut state = default_state();
    state.apply_action(PlayerAction::RaiseTo(400)).unwrap();
    state.apply_action(PlayerAction::Call).unwrap();
    state
        .deal_flop(["2c".parse().unwrap(), "3d".parse().unwrap(), "4h".parse().unwrap()])
        .unwrap();
    state.apply_action(PlayerAction::BetTo(264)).unwrap();

    let profile = AbstractionProfile::new(
        empty_street(),
        StreetProfile {
            opening_sizes: vec![],
            raise_sizes: vec![RaiseSize::CurrentBetMultipleBps(25_000)],
            include_all_in: true,
        },
        empty_street(),
        empty_street(),
    );

    let actions = abstract_actions(&state, &profile).unwrap();
    assert_eq!(
        actions,
        vec![
            AbstractAction::Fold,
            AbstractAction::Call,
            AbstractAction::RaiseTo(660),
            AbstractAction::AllIn(9_600),
        ]
    );
}

#[test]
fn abstraction_deduplicates_equivalent_sizes() {
    let state = default_state();
    let profile = AbstractionProfile::new(
        StreetProfile {
            opening_sizes: vec![
                OpeningSize::BigBlindMultipleBps(25_000),
                OpeningSize::BigBlindMultipleBps(25_000),
            ],
            raise_sizes: vec![],
            include_all_in: false,
        },
        empty_street(),
        empty_street(),
        empty_street(),
    );

    let actions = abstract_actions(&state, &profile).unwrap();
    assert_eq!(
        actions,
        vec![
            AbstractAction::Fold,
            AbstractAction::Call,
            AbstractAction::RaiseTo(250),
        ]
    );
}

#[test]
fn abstraction_maps_all_in_sizing_without_duplicates() {
    let state = HoldemHandState::new(
        HoldemConfig::new(400, 50, 100).unwrap(),
        "AsKd".parse().unwrap(),
        "QcJh".parse().unwrap(),
    )
    .unwrap();
    let profile = AbstractionProfile::new(
        StreetProfile {
            opening_sizes: vec![OpeningSize::BigBlindMultipleBps(40_000)],
            raise_sizes: vec![],
            include_all_in: true,
        },
        empty_street(),
        empty_street(),
        empty_street(),
    );

    let actions = abstract_actions(&state, &profile).unwrap();
    assert!(actions.contains(&AbstractAction::AllIn(400)));
    assert!(!actions.contains(&AbstractAction::RaiseTo(400)));
    assert_eq!(
        actions
            .iter()
            .filter(|action| **action == AbstractAction::AllIn(400))
            .count(),
        1
    );
}

#[test]
fn abstraction_sizes_round_up_and_keep_increasing_order() {
    // Sizes given out of order, or naming the same total twice, come back once
    // each, in increasing order.
    let mut state = default_state();
    state.apply_action(PlayerAction::Call).unwrap();
    state
        .deal_flop(["2c".parse().unwrap(), "3d".parse().unwrap(), "4h".parse().unwrap()])
        .unwrap();
    let profile = AbstractionProfile::new(
        empty_street(),
        StreetProfile {
            opening_sizes: vec![
                OpeningSize::PotFractionBps(15_000),
                OpeningSize::PotFractionBps(5_000),
                OpeningSize::BigBlindMultipleBps(10_000),
            ],
            raise_sizes: vec![],
            include_all_in: false,
        },
        empty_street(),
        empty_street(),
    );
    let actions = abstract_actions(&state, &profile).unwrap();
    // Pot 200: half pot 100, one big blind 100 (same), 1.5 pots 300.
    assert_eq!(
        actions,
        vec![
            AbstractAction::Check,
            AbstractAction::BetTo(100),
            AbstractAction::BetTo(300),
        ]
    );
}

#[test]
fn abstraction_is_refused_outside_a_betting_round() {
    let mut state = default_state();
    state.apply_action(PlayerAction::Call).unwrap();
    let profile = AbstractionProfile::river_smoke();
    assert!(abstract_actions(&state, &profile).is_err());
}

#[test]
fn river_smoke_profile_bets_the_pot_postflop() {
    let profile = AbstractionProfile::river_smoke();
    assert_eq!(
        profile.for_street(Street::River).opening_sizes,
        vec![OpeningSize::PotFractionBps(10_000)]
    );
    assert!(profile.for_street(Street::Preflop).include_all_in);
    assert!(profile.for_street(Street::Flop).raise_sizes.is_empty());
}

#[test]
fn abstract_actions_map_to_exact_actions() {
    assert_eq!(AbstractAction::AllIn(500).to_player_action(), PlayerAction::AllIn);
    assert_eq!(AbstractAction::RaiseTo(500).to_player_action(), PlayerAction::RaiseTo(500));
    assert_eq!(AbstractAction::Fold.to_player_action(), PlayerAction::Fold);
}

#[test]
fn infoset_keys_copy_the_public_state() {
    let state = default_state();
    let key = PublicStateKey::from_state(&state);
    assert_eq!(key.street, Street::Preflop);
    assert_eq!(key.pot, 150);
    assert_eq!(key.actor, Some(Player::Button));
    assert_eq!(key.button_street_contribution, 50);
    assert_eq!(key.big_blind_stack, 9_900);
    let infoset = HoldemInfoSetKey::from_state(
        Player::Button,
        "AsKd".parse().unwrap(),
        &state,
        vec![AbstractAction::Call],
    );
    assert_eq!(infoset.public_state, key);
    assert_eq!(infoset.public_history, vec![AbstractAction::Call]);
}

#[test]
fn stable_keys_spell_out_the_information_set() {
    assert_eq!(stable_action_key(AbstractAction::Fold), "fold");
    assert_eq!(stable_action_key(AbstractAction::BetTo(150)), "bet:150");
    assert_eq!(stable_action_key(AbstractAction::RaiseTo(450)), "raise:450");
    assert_eq!(stable_action_key(AbstractAction::AllIn(10_000)), "allin:10000");

    let state = HoldemHandState::new(
        HoldemConfig::default(),
        "AsKd".parse().unwrap(),
        "QcJh".parse().unwrap(),
    )
    .unwrap();
    let key = HoldemInfoSetKey::from_state(
        Player::Button,
        "AsKd".parse().unwrap(),
        &state,
        vec![AbstractAction::Call, AbstractAction::BetTo(300)],
    );
    assert_eq!(
        stable_infoset_key(&key),
        "button|AsKd|preflop||button|150|9950|9900|50|100|50|100|call,bet:300"
    );
}

// In these two tests the button's preflop call closes the round (as the rules say:
// a call ends the betting round), so the flop is dealt right after it.

#[test]
fn abstraction_uses_pot_fraction_after_call_for_raises() {
    let mut state = HoldemHandState::new(
        HoldemConfig::default(),
        "AsKd".parse().unwrap(),
        "QcJh".parse().unwrap(),
    )
    .unwrap();
    state.apply_action(PlayerAction::Call).unwrap();
    state
        .deal_flop(["2c".parse().unwrap(), "3d".parse().unwrap(), "4h".parse().unwrap()])
        .unwrap();
    state.apply_action(PlayerAction::BetTo(100)).unwrap();

    let profile = AbstractionProfile::new(
        empty_street(),
        StreetProfile {
            opening_sizes: vec![],
            raise_sizes: vec![RaiseSize::PotFractionAfterCallBps(10_000)],
            include_all_in: false,
        },
        empty_street(),
        empty_street(),
    );

    let actions = abstract_actions(&state, &profile).unwrap();
    assert!(actions.contains(&AbstractAction::RaiseTo(500)));
}

#[test]
fn abstraction_offers_check_and_all_in_only_for_short_postflop_stacks() {
    let config = HoldemConfig::new(150, 50, 100).unwrap();
    let mut state =
        HoldemHandState::new(config, "AsKd".parse().unwrap(), "QcJh".parse().unwrap()).unwrap();
    state.apply_action(PlayerAction::Call).unwrap();
    state
        .deal_flop(["2c".parse().unwrap(), "3d".parse().unwrap(), "4h".parse().unwrap()])
        .unwrap();

    let profile = AbstractionProfile::new(
        empty_street(),
        StreetProfile {
            opening_sizes: vec![OpeningSize::PotFractionBps(10_000)],
            raise_sizes: vec![],
            include_all_in: true,
        },
        empty_street(),
        empty_street(),
    );

    let actions = abstract_actions(&state, &profile).unwrap();
    assert_eq!(actions, vec![AbstractAction::Check, AbstractAction::AllIn(50)]);
}
