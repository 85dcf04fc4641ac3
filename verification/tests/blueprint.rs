use gto_core::solver::{
    abstract_actions, choose_blueprint_preflop_action, choose_preflop_action, choose_ranked_action, find_preflop_policy,
    PreflopContextKey, PreflopPolicyEntry, PreflopRangeRule, classify_draw_bucket, classify_made_hand, default_preflop_policies,
    default_preflop_policies_for_bucket, fallback_preflop_facing_bucket, postflop_policy_key,
    preflop_context_from_state, resolve_action_kind, safe_fallback_action, smoke_blueprint_profile,
    AbstractAction, BlueprintActionKind, BlueprintBotError, DrawBucket, EffectiveStackBucket,
    MadeHandBucket, PreflopFacingBetBucket, StackPressureBucket, StartingRangeName,
    StartingRanges,
};
use gto_core::{Card, HoldemConfig, HoldemHandState, Player, PlayerAction, Street};

fn default_state() -> HoldemHandState {
    HoldemHandState::new(
        HoldemConfig::default(),
        "AsKd".parse().unwrap(),
        "QcJh".parse().unwrap(),
    )
    .unwrap()
}

#[test]
fn abstraction_surfaces_live_all_in_for_deep_preflop_opening_spots() {
    let state = default_state();

    let actions = abstract_actions(&state, &smoke_blueprint_profile()).unwrap();
    assert_eq!(
        actions,
        vec![
            AbstractAction::Fold,
            AbstractAction::Call,
            AbstractAction::RaiseTo(250),
            AbstractAction::RaiseTo(400),
            AbstractAction::RaiseTo(700),
            AbstractAction::AllIn(10_000),
        ]
    );
}

#[test]
fn preflop_context_caps_aggression_to_the_last_bucket() {
    let mut state = default_state();
    state.apply_action(PlayerAction::RaiseTo(200)).unwrap();
    state.apply_action(PlayerAction::RaiseTo(300)).unwrap();
    state.apply_action(PlayerAction::RaiseTo(400)).unwrap();
    state.apply_action(PlayerAction::RaiseTo(500)).unwrap();
    state.apply_action(PlayerAction::RaiseTo(600)).unwrap();

    let context = preflop_context_from_state(&state).unwrap();
    assert_eq!(context.actor, Player::BigBlind);
    assert_eq!(context.aggressive_actions, 4);
}

#[test]
fn preflop_context_distinguishes_open_size_buckets() {
    let mut small_open = default_state();
    small_open.apply_action(PlayerAction::RaiseTo(250)).unwrap();
    let small_context = preflop_context_from_state(&small_open).unwrap();
    assert_eq!(small_context.facing_bet_bucket, PreflopFacingBetBucket::UpTo3Bb);

    let mut large_open = default_state();
    large_open.apply_action(PlayerAction::RaiseTo(700)).unwrap();
    let large_context = preflop_context_from_state(&large_open).unwrap();
    assert_eq!(large_context.facing_bet_bucket, PreflopFacingBetBucket::Bb31To7Bb);
}

#[test]
fn smoke_default_ranges_shift_to_raise_first_in_strategy() {
    let ranges = StartingRanges::smoke_default();

    assert!(ranges.button_open_raise_small.contains("9c8d".parse().unwrap()));
    assert!(ranges.button_open_limp.is_empty());
    assert!(ranges.big_blind_three_bet_vs_open.contains("As5s".parse().unwrap()));
    assert!(ranges.button_continue_vs_three_bet.contains("9h8h".parse().unwrap()));
}

#[test]
fn made_hand_and_draw_buckets_cover_common_cases() {
    let hole_cards = "AhQh".parse().unwrap();
    let flop: [Card; 3] = ["2h".parse().unwrap(), "7h".parse().unwrap(), "Kd".parse().unwrap()];
    assert_eq!(classify_draw_bucket(hole_cards, &flop), DrawBucket::Flush);

    let monster = classify_made_hand(
        "KhKc".parse().unwrap(),
        &["Kd".parse().unwrap(), "7h".parse().unwrap(), "7d".parse().unwrap()],
    );
    assert_eq!(monster, MadeHandBucket::Monster);
}

#[test]
fn postflop_policy_key_rejects_preflop_states() {
    let state = default_state();

    let error = postflop_policy_key(Player::Button, &state).unwrap_err();
    assert!(matches!(
        error,
        BlueprintBotError::UnsupportedStreetState(Street::Preflop)
    ));
}

#[test]
fn effective_stack_buckets_cover_multiple_depth_bands() {
    let cases = [
        (1_500, EffectiveStackBucket::UpTo15Bb),
        (2_500, EffectiveStackBucket::Bb16To25),
        (4_000, EffectiveStackBucket::Bb26To40),
        (7_500, EffectiveStackBucket::Bb41To75),
        (10_000, EffectiveStackBucket::Bb76Plus),
    ];

    for (stack, bucket) in cases {
        let state = HoldemHandState::new_with_starting_stacks(
            HoldemConfig::default(),
            "AsKd".parse().unwrap(),
            "QcJh".parse().unwrap(),
            stack,
            stack,
        )
        .unwrap();
        let context = preflop_context_from_state(&state).unwrap();
        assert_eq!(context.effective_stack_bucket, bucket);
    }
}

#[test]
fn effective_stack_bucket_uses_the_shorter_uneven_stack() {
    let state = HoldemHandState::new_with_starting_stacks(
        HoldemConfig::default(),
        "AsKd".parse().unwrap(),
        "QcJh".parse().unwrap(),
        7_500,
        2_500,
    )
    .unwrap();

    let context = preflop_context_from_state(&state).unwrap();
    assert_eq!(context.effective_stack_bucket, EffectiveStackBucket::Bb16To25);
}

#[test]
fn resolve_action_kind_uses_last_available_aggression_when_needed() {
    let legal = vec![AbstractAction::RaiseTo(300)];
    assert_eq!(
        resolve_action_kind(BlueprintActionKind::Aggression2, &legal),
        Some(AbstractAction::RaiseTo(300))
    );
    assert_eq!(
        resolve_action_kind(BlueprintActionKind::Aggression3, &legal),
        Some(AbstractAction::RaiseTo(300))
    );
}

#[test]
fn preflop_context_of_the_opening_decision() {
    let context = preflop_context_from_state(&default_state()).unwrap();
    assert_eq!(context.actor, Player::Button);
    assert!(!context.prior_limp);
    assert_eq!(context.aggressive_actions, 0);
    assert_eq!(context.facing_bet_bucket, PreflopFacingBetBucket::Unopened);
    assert_eq!(context.effective_stack_bucket, EffectiveStackBucket::Bb76Plus);
}

#[test]
fn preflop_context_is_refused_after_the_preflop_round() {
    let mut state = default_state();
    state.apply_action(PlayerAction::Call).unwrap();
    state
        .deal_flop(["2c".parse().unwrap(), "3d".parse().unwrap(), "4h".parse().unwrap()])
        .unwrap();
    assert!(matches!(
        preflop_context_from_state(&state),
        Err(BlueprintBotError::UnsupportedStreetState(Street::Flop))
    ));
    let mut waiting = default_state();
    waiting.apply_action(PlayerAction::Call).unwrap();
    assert!(matches!(
        preflop_context_from_state(&waiting),
        Err(BlueprintBotError::NoLegalAbstractActions)
    ));
}

#[test]
fn postflop_key_reads_the_flop_decision() {
    let mut state = default_state();
    state.apply_action(PlayerAction::Call).unwrap();
    state
        .deal_flop(["2c".parse().unwrap(), "3d".parse().unwrap(), "4h".parse().unwrap()])
        .unwrap();
    state.apply_action(PlayerAction::BetTo(100)).unwrap();
    state.apply_action(PlayerAction::RaiseTo(200)).unwrap();
    state.apply_action(PlayerAction::RaiseTo(300)).unwrap();
    state.apply_action(PlayerAction::RaiseTo(400)).unwrap();

    let key = postflop_policy_key(Player::BigBlind, &state).unwrap();
    assert_eq!(key.street, Street::Flop);
    assert!(key.facing_bet);
    assert_eq!(key.aggressive_actions, 3);
    // The big blind holds QcJh on 2c3d4h: no pair, no draw of four.
    assert_eq!(key.made_hand, MadeHandBucket::Air);
    assert_eq!(key.draw, DrawBucket::NoDraw);
    // 9,500 effective against a pot of 900 is more than four pots: high pressure.
    assert_eq!(key.stack_pressure, StackPressureBucket::High);
}

#[test]
fn made_hand_buckets_separate_pairs() {
    let board = ["Kd".parse().unwrap(), "7h".parse().unwrap(), "2c".parse().unwrap()];
    let over_pair = classify_made_hand("AhAc".parse().unwrap(), &board);
    assert_eq!(over_pair, MadeHandBucket::Medium);
    let top_pair = classify_made_hand("Ks5c".parse().unwrap(), &board);
    assert_eq!(top_pair, MadeHandBucket::Medium);
    let low_pair = classify_made_hand("7s5c".parse().unwrap(), &board);
    assert_eq!(low_pair, MadeHandBucket::Weak);
    let two_pair = classify_made_hand("Ks7c".parse().unwrap(), &board);
    assert_eq!(two_pair, MadeHandBucket::Strong);
    let nothing = classify_made_hand("9s8c".parse().unwrap(), &board);
    assert_eq!(nothing, MadeHandBucket::Air);
}

#[test]
fn draw_buckets_find_straights_and_combos() {
    let board = ["9h".parse().unwrap(), "8h".parse().unwrap(), "2c".parse().unwrap()];
    assert_eq!(classify_draw_bucket("Th7c".parse().unwrap(), &board), DrawBucket::Straight);
    assert_eq!(classify_draw_bucket("ThJh".parse().unwrap(), &board), DrawBucket::Combo);
    let wheel = ["3h".parse().unwrap(), "4d".parse().unwrap(), "Kc".parse().unwrap()];
    assert_eq!(classify_draw_bucket("As2c".parse().unwrap(), &wheel), DrawBucket::Straight);
    let river = [
        "9h".parse().unwrap(),
        "8h".parse().unwrap(),
        "2c".parse().unwrap(),
        "3d".parse().unwrap(),
        "Kc".parse().unwrap(),
    ];
    assert_eq!(classify_draw_bucket("ThJh".parse().unwrap(), &river), DrawBucket::NoDraw);
}

#[test]
fn turn_boards_use_the_best_five_of_six() {
    let board = [
        "Kd".parse().unwrap(),
        "7h".parse().unwrap(),
        "2c".parse().unwrap(),
        "Kh".parse().unwrap(),
    ];
    assert_eq!(classify_made_hand("KsKc".parse().unwrap(), &board), MadeHandBucket::Monster);
    assert_eq!(classify_made_hand("9s8c".parse().unwrap(), &board), MadeHandBucket::Medium);
}

#[test]
fn fallback_prefers_passive_actions() {
    let legal = vec![AbstractAction::Fold, AbstractAction::Call, AbstractAction::RaiseTo(300)];
    assert_eq!(safe_fallback_action(&legal), Some(AbstractAction::Call));
    let legal = vec![AbstractAction::Check, AbstractAction::BetTo(100)];
    assert_eq!(safe_fallback_action(&legal), Some(AbstractAction::Check));
    assert_eq!(safe_fallback_action(&[]), None);
    assert_eq!(
        resolve_action_kind(BlueprintActionKind::AllIn, &[AbstractAction::AllIn(900)]),
        Some(AbstractAction::AllIn(900))
    );
    assert_eq!(resolve_action_kind(BlueprintActionKind::Aggression1, &[AbstractAction::Call]), None);
}

#[test]
fn facing_buckets_fall_back_to_smaller_ones() {
    assert_eq!(
        fallback_preflop_facing_bucket(PreflopFacingBetBucket::AllIn),
        Some(PreflopFacingBetBucket::Over16Bb)
    );
    assert_eq!(
        fallback_preflop_facing_bucket(PreflopFacingBetBucket::Bb31To7Bb),
        Some(PreflopFacingBetBucket::UpTo3Bb)
    );
    assert_eq!(fallback_preflop_facing_bucket(PreflopFacingBetBucket::Limped), None);
}

#[test]
fn default_preflop_charts_cover_every_depth() {
    let shallow = default_preflop_policies_for_bucket(EffectiveStackBucket::UpTo15Bb);
    assert_eq!(shallow.len(), 19);
    assert_eq!(shallow[0].rules[0].range, StartingRangeName::ButtonOpenRaiseLarge);
    assert_eq!(shallow[0].rules[0].action, BlueprintActionKind::AllIn);
    let deep = default_preflop_policies_for_bucket(EffectiveStackBucket::Bb76Plus);
    assert_eq!(deep[0].rules[0].action, BlueprintActionKind::Aggression2);
    assert_eq!(deep[0].rules[1].action, BlueprintActionKind::Aggression1);
    assert_eq!(default_preflop_policies().len(), 95);
}

#[test]
fn starting_ranges_are_found_by_name() {
    let ranges = StartingRanges::smoke_default();
    assert_eq!(ranges.get(StartingRangeName::BigBlindFiveBetVsFourBet).len(), 18 + 4 + 12);
    assert!(ranges.get(StartingRangeName::ButtonOpenLimp).is_empty());
}

#[test]
fn policy_lookup_falls_back_to_the_nearest_smaller_facing_bucket() {
    let policies = default_preflop_policies_for_bucket(EffectiveStackBucket::Bb76Plus);
    let missing = PreflopContextKey {
        actor: Player::BigBlind,
        prior_limp: false,
        aggressive_actions: 1,
        effective_stack_bucket: EffectiveStackBucket::Bb76Plus,
        facing_bet_bucket: PreflopFacingBetBucket::Over16Bb,
    };
    assert!(policies.iter().all(|entry| entry.context != missing));
    let found = find_preflop_policy(&policies, missing).unwrap();
    let direct = policies
        .iter()
        .rposition(|entry| {
            entry.context
                == PreflopContextKey { facing_bet_bucket: PreflopFacingBetBucket::Bb71To16Bb, ..missing }
        })
        .unwrap();
    assert_eq!(found, direct);

    let unopened = PreflopContextKey {
        actor: Player::Button,
        prior_limp: false,
        aggressive_actions: 0,
        effective_stack_bucket: EffectiveStackBucket::Bb76Plus,
        facing_bet_bucket: PreflopFacingBetBucket::Unopened,
    };
    assert_eq!(find_preflop_policy(&[], unopened), None);
}

#[test]
fn ranked_kinds_pick_the_first_that_resolves_then_the_safe_fallback() {
    let legal = [AbstractAction::Check, AbstractAction::Call];
    assert_eq!(
        choose_ranked_action(&[BlueprintActionKind::AllIn, BlueprintActionKind::Call], &legal),
        Some(AbstractAction::Call)
    );
    assert_eq!(
        choose_ranked_action(&[BlueprintActionKind::Aggression3], &[AbstractAction::Check]),
        Some(AbstractAction::Check)
    );
}

#[test]
fn preflop_policies_apply_the_first_matching_rule() {
    let ranges = StartingRanges::smoke_default();
    let policy = PreflopPolicyEntry {
        context: PreflopContextKey {
            actor: Player::Button,
            prior_limp: false,
            aggressive_actions: 0,
            effective_stack_bucket: EffectiveStackBucket::Bb76Plus,
            facing_bet_bucket: PreflopFacingBetBucket::Unopened,
        },
        default_action: BlueprintActionKind::Fold,
        rules: vec![
            PreflopRangeRule {
                range: StartingRangeName::ButtonOpenRaiseLarge,
                action: BlueprintActionKind::Aggression2,
            },
            PreflopRangeRule {
                range: StartingRangeName::ButtonOpenRaiseSmall,
                action: BlueprintActionKind::Aggression1,
            },
        ],
    };
    let legal = [
        AbstractAction::Fold,
        AbstractAction::Call,
        AbstractAction::RaiseTo(250),
        AbstractAction::RaiseTo(400),
    ];
    assert_eq!(
        choose_preflop_action(&policy, &ranges, "AsAh".parse().unwrap(), &legal),
        Some(AbstractAction::RaiseTo(400))
    );
    assert_eq!(
        choose_preflop_action(&policy, &ranges, "7c6c".parse().unwrap(), &legal),
        Some(AbstractAction::RaiseTo(250))
    );
    assert_eq!(
        choose_preflop_action(&policy, &ranges, "7c2d".parse().unwrap(), &legal),
        Some(AbstractAction::Fold)
    );
}

// The button's preflop call closes the round (a call ends the betting round), so the
// flop is dealt right after it.
#[test]
fn preflop_context_rejects_postflop_states() {
    let mut state = HoldemHandState::new(
        HoldemConfig::default(),
        "AsKd".parse().unwrap(),
        "QcJh".parse().unwrap(),
    )
    .unwrap();
    state.apply_action(PlayerAction::Call).unwrap();
    state
        .deal_flop(["2c".parse().unwrap(), "3d".parse().unwrap(), "4h".parse().unwrap()])
        .unwrap();

    let error = preflop_context_from_state(&state).unwrap_err();
    assert!(matches!(error, BlueprintBotError::UnsupportedStreetState(Street::Flop)));
}

#[test]
fn blueprint_bot_takes_the_chart_action_preflop() {
    let state = default_state();
    let profile = smoke_blueprint_profile();
    let ranges = StartingRanges::smoke_default();
    let policies = default_preflop_policies();

    let action =
        choose_blueprint_preflop_action(&profile, &ranges, &policies, Player::Button, &state).unwrap();

    let legal = abstract_actions(&state, &profile).unwrap();
    let context = preflop_context_from_state(&state).unwrap();
    let index = find_preflop_policy(&policies, context).unwrap();
    let expected = choose_preflop_action(
        &policies[index],
        &ranges,
        state.player(Player::Button).hole_cards,
        &legal,
    )
    .unwrap();
    assert_eq!(action, expected.to_player_action());
    assert!(state.clone().apply_action(action).is_ok());

    let error = choose_blueprint_preflop_action(&profile, &ranges, &policies, Player::BigBlind, &state)
        .unwrap_err();
    assert!(matches!(
        error,
        BlueprintBotError::NotActorsTurn { expected: Some(Player::Button), actual: Player::BigBlind }
    ));
}
