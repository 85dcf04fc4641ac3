use gto_core::solver::{
    chips_to_bb_string, find_label, format_percentage_bps, label_fits_text, normalize_abstract_action,
    parse_bb_amount, RiverSolveError,
    smoke_blueprint_profile, texassolver_grade_status, texassolver_smoke_suite, AbstractAction,
    AbstractionProfile, TexasSolverGradeStatus, NormalizedTexasAction, OpeningSize,
    PostflopScriptedSpot, RaiseSize, ScriptedFlopSpot, ScriptedRiverSpot, ScriptedTurnSpot,
    StreetProfile, TexasSolverEvalError, TexasSolverEvalSpot, TEXASSOLVER_SUITE_FORMAT_VERSION,
};
use gto_core::{HoldemConfig, Player, PlayerAction, Range, Street};

fn texassolver_profile() -> AbstractionProfile {
    let preflop = StreetProfile {
        opening_sizes: vec![OpeningSize::BigBlindMultipleBps(25_000)],
        raise_sizes: vec![RaiseSize::CurrentBetMultipleBps(25_000)],
        include_all_in: true,
    };
    let postflop = StreetProfile {
        opening_sizes: vec![
            OpeningSize::PotFractionBps(3_300),
            OpeningSize::PotFractionBps(6_600),
            OpeningSize::PotFractionBps(10_000),
        ],
        raise_sizes: vec![RaiseSize::PotFractionAfterCallBps(10_000)],
        include_all_in: true,
    };
    AbstractionProfile::new(preflop, postflop.clone(), postflop.clone(), postflop)
}

// A limp closes the preflop round, so the limped lines here are a single call.
fn sample_spots() -> Vec<TexasSolverEvalSpot> {
    let config = HoldemConfig::default();
    let profile = texassolver_profile();
    vec![
        TexasSolverEvalSpot {
            id: "flop_oop_root".to_string(),
            description: "flop root with oop to act".to_string(),
            button_hole_cards: "AsKd".parse().unwrap(),
            big_blind_hole_cards: "QcJh".parse().unwrap(),
            button_range: "AsKd".parse::<Range>().unwrap(),
            big_blind_range: "QcJh".parse::<Range>().unwrap(),
            profile: profile.clone(),
            iterations: 1,
            script: PostflopScriptedSpot::Flop(ScriptedFlopSpot {
                config,
                button_starting_stack: None,
                big_blind_starting_stack: None,
                preflop_actions: vec![PlayerAction::RaiseTo(250), PlayerAction::Call],
                flop: ["7c".parse().unwrap(), "4d".parse().unwrap(), "2s".parse().unwrap()],
                flop_prefix_actions: vec![],
            }),
        },
        TexasSolverEvalSpot {
            id: "flop_ip_after_check".to_string(),
            description: "flop after oop checks".to_string(),
            button_hole_cards: "AcKc".parse().unwrap(),
            big_blind_hole_cards: "QhJh".parse().unwrap(),
            button_range: "AcKc".parse::<Range>().unwrap(),
            big_blind_range: "QhJh".parse::<Range>().unwrap(),
            profile: profile.clone(),
            iterations: 1,
            script: PostflopScriptedSpot::Flop(ScriptedFlopSpot {
                config,
                button_starting_stack: None,
                big_blind_starting_stack: None,
                preflop_actions: vec![PlayerAction::Call],
                flop: ["Kh".parse().unwrap(), "9d".parse().unwrap(), "3c".parse().unwrap()],
                flop_prefix_actions: vec![PlayerAction::Check],
            }),
        },
        TexasSolverEvalSpot {
            id: "turn_oop_root".to_string(),
            description: "turn root with oop to act".to_string(),
            button_hole_cards: "AdQc".parse().unwrap(),
            big_blind_hole_cards: "JsTd".parse().unwrap(),
            button_range: "AdQc".parse::<Range>().unwrap(),
            big_blind_range: "JsTd".parse::<Range>().unwrap(),
            profile: profile.clone(),
            iterations: 1,
            script: PostflopScriptedSpot::Turn(ScriptedTurnSpot {
                config,
                button_starting_stack: None,
                big_blind_starting_stack: None,
                preflop_actions: vec![PlayerAction::Call],
                flop: ["Ks".parse().unwrap(), "8c".parse().unwrap(), "4d".parse().unwrap()],
                flop_actions: vec![PlayerAction::Check, PlayerAction::Check],
                turn: "2h".parse().unwrap(),
                turn_prefix_actions: vec![],
            }),
        },
        TexasSolverEvalSpot {
            id: "turn_ip_after_check".to_string(),
            description: "turn after oop checks".to_string(),
            button_hole_cards: "AhQd".parse().unwrap(),
            big_blind_hole_cards: "JcTc".parse().unwrap(),
            button_range: "AhQd".parse::<Range>().unwrap(),
            big_blind_range: "JcTc".parse::<Range>().unwrap(),
            profile: profile.clone(),
            iterations: 1,
            script: PostflopScriptedSpot::Turn(ScriptedTurnSpot {
                config,
                button_starting_stack: None,
                big_blind_starting_stack: None,
                preflop_actions: vec![PlayerAction::RaiseTo(250), PlayerAction::Call],
                flop: ["Qc".parse().unwrap(), "8h".parse().unwrap(), "5d".parse().unwrap()],
                flop_actions: vec![PlayerAction::Check, PlayerAction::Check],
                turn: "2s".parse().unwrap(),
                turn_prefix_actions: vec![PlayerAction::Check],
            }),
        },
        TexasSolverEvalSpot {
            id: "river_ip_facing_bet".to_string(),
            description: "river facing an oop probe".to_string(),
            button_hole_cards: "AsQh".parse().unwrap(),
            big_blind_hole_cards: "JdTc".parse().unwrap(),
            button_range: "AsQh".parse::<Range>().unwrap(),
            big_blind_range: "JdTc".parse::<Range>().unwrap(),
            profile,
            iterations: 2,
            script: PostflopScriptedSpot::River(ScriptedRiverSpot {
                config,
                button_starting_stack: None,
                big_blind_starting_stack: None,
                preflop_actions: vec![PlayerAction::RaiseTo(250), PlayerAction::Call],
                flop: ["Qs".parse().unwrap(), "8d".parse().unwrap(), "4c".parse().unwrap()],
                flop_actions: vec![PlayerAction::Check, PlayerAction::Check],
                turn: "2h".parse().unwrap(),
                turn_actions: vec![PlayerAction::Check, PlayerAction::Check],
                river: "7s".parse().unwrap(),
                river_prefix_actions: vec![PlayerAction::BetTo(165)],
            }),
        },
    ]
}

#[test]
fn normalization_helpers_render_expected_strings() {
    assert_eq!(chips_to_bb_string(800), "8.0");
    assert_eq!(chips_to_bb_string(264), "2.64");
    assert_eq!(format_percentage_bps(3_300), "33");
    assert_eq!(format_percentage_bps(6_650), "66.5");
    assert_eq!(NormalizedTexasAction::parse("raise 8.0").unwrap().to_string(), "RAISE 8.0");
    assert_eq!(NormalizedTexasAction::parse("BET 2.64").unwrap().to_string(), "BET 2.64");
}

#[test]
fn exporter_supports_varied_flop_turn_and_river_spots() {
    let exports = sample_spots()
        .into_iter()
        .map(|spot| spot.export_for_texassolver().unwrap())
        .collect::<Vec<_>>();

    assert_eq!(exports.len(), 5);
    assert!(exports[0].script.contains("set_board 7c,4d,2s"));
    assert!(exports[0].script.contains("set_bet_sizes oop,flop,bet,33,66,100"));
    assert!(exports[1].target_path.iter().any(|action| action == "CHECK"));
    assert!(exports[2].script.contains("set_board Ks,8c,4d,2h"));
    assert!(exports[2].script.contains("set_bet_sizes oop,turn,donk,33,66,100"));
    assert!(exports[3].target_path.iter().any(|action| action == "CHECK"));
    assert!(exports[4].target_path.iter().any(|action| action == "BET 1.65"));
}

#[test]
fn exporter_rejects_unsupported_raise_profiles_and_unequal_stacks() {
    let mut spots = sample_spots();
    let mut unsupported = spots.remove(0);
    unsupported.profile = smoke_blueprint_profile();
    assert!(unsupported.export_for_texassolver().is_err());

    let unequal = TexasSolverEvalSpot {
        id: "unequal_turn".to_string(),
        description: "unequal stacks".to_string(),
        button_hole_cards: "AsKd".parse().unwrap(),
        big_blind_hole_cards: "QcJh".parse().unwrap(),
        button_range: "AsKd".parse().unwrap(),
        big_blind_range: "QcJh".parse().unwrap(),
        profile: texassolver_profile(),
        iterations: 4,
        script: PostflopScriptedSpot::Turn(ScriptedTurnSpot {
            config: HoldemConfig::default(),
            button_starting_stack: Some(9_000),
            big_blind_starting_stack: Some(10_000),
            preflop_actions: vec![PlayerAction::Call, PlayerAction::Check],
            flop: ["Kh".parse().unwrap(), "8d".parse().unwrap(), "4s".parse().unwrap()],
            flop_actions: vec![PlayerAction::Check, PlayerAction::Check],
            turn: "2c".parse().unwrap(),
            turn_prefix_actions: vec![],
        }),
    };
    assert!(unequal.export_for_texassolver().is_err());
}

#[test]
fn unequal_stacks_are_reported_by_spot_id() {
    let spot = TexasSolverEvalSpot {
        id: "unequal_turn".to_string(),
        description: "unequal stacks".to_string(),
        button_hole_cards: "AsKd".parse().unwrap(),
        big_blind_hole_cards: "QcJh".parse().unwrap(),
        button_range: "AsKd".parse().unwrap(),
        big_blind_range: "QcJh".parse().unwrap(),
        profile: texassolver_profile(),
        iterations: 4,
        script: PostflopScriptedSpot::Turn(ScriptedTurnSpot {
            config: HoldemConfig::default(),
            button_starting_stack: Some(9_000),
            big_blind_starting_stack: Some(10_000),
            preflop_actions: vec![PlayerAction::Call],
            flop: ["Kh".parse().unwrap(), "8d".parse().unwrap(), "4s".parse().unwrap()],
            flop_actions: vec![PlayerAction::Check, PlayerAction::Check],
            turn: "2c".parse().unwrap(),
            turn_prefix_actions: vec![],
        }),
    };
    match spot.export_for_texassolver() {
        Err(TexasSolverEvalError::UnequalEffectiveStacks(id)) => assert_eq!(id, "unequal_turn"),
        other => panic!("unexpected {other:?}"),
    }
}

#[test]
fn bet_multiple_raises_are_reported_with_the_first_street() {
    let mut spot = sample_spots().remove(0);
    spot.profile = smoke_blueprint_profile();
    match spot.export_for_texassolver() {
        Err(TexasSolverEvalError::UnsupportedRaiseSize { spot_id, street }) => {
            assert_eq!(spot_id, "flop_oop_root");
            assert_eq!(street, Street::Flop);
        }
        other => panic!("unexpected {other:?}"),
    }
}

#[test]
fn export_writes_the_full_script_and_signature() {
    let export = sample_spots().remove(0).export_for_texassolver().unwrap();
    assert_eq!(export.spot_id, "flop_oop_root");
    assert_eq!(export.street, Street::Flop);
    assert_eq!(export.actor, Player::BigBlind);
    assert_eq!(export.actor_combo, "QcJh");
    assert!(export.target_path.is_empty());
    let expected_script = [
        "set_pot 5.0",
        "set_effective_stack 97.5",
        "set_board 7c,4d,2s",
        "set_range_oop QcJh",
        "set_range_ip AsKd",
        "set_bet_sizes oop,flop,bet,33,66,100",
        "set_bet_sizes oop,flop,raise,100",
        "set_bet_sizes oop,flop,allin",
        "set_bet_sizes ip,flop,bet,33,66,100",
        "set_bet_sizes ip,flop,raise,100",
        "set_bet_sizes ip,flop,allin",
        "set_bet_sizes oop,turn,bet,33,66,100",
        "set_bet_sizes oop,turn,donk,33,66,100",
        "set_bet_sizes oop,turn,raise,100",
        "set_bet_sizes oop,turn,allin",
        "set_bet_sizes ip,turn,bet,33,66,100",
        "set_bet_sizes ip,turn,raise,100",
        "set_bet_sizes ip,turn,allin",
        "set_bet_sizes oop,river,bet,33,66,100",
        "set_bet_sizes oop,river,donk,33,66,100",
        "set_bet_sizes oop,river,raise,100",
        "set_bet_sizes oop,river,allin",
        "set_bet_sizes ip,river,bet,33,66,100",
        "set_bet_sizes ip,river,raise,100",
        "set_bet_sizes ip,river,allin",
        "set_allin_threshold 1.0",
        "build_tree",
        "set_thread_num 1",
        "set_accuracy 0.1",
        "set_max_iteration 1",
        "set_print_interval 25",
        "set_use_isomorphism 1",
        "start_solve",
        "set_dump_rounds 1",
        "dump_result output_result.json",
    ]
    .join("\n");
    assert_eq!(export.script, expected_script);
    assert_eq!(
        export.signature,
        format!(
            "flop|7c4d2s|pot:500|eff:9750|oop:QcJh|ip:AsKd|combo:QcJh|path:-|script:{}",
            expected_script.replace('\n', ";")
        )
    );
}

#[test]
fn export_paths_join_labels_in_the_signature() {
    let export = sample_spots().remove(4).export_for_texassolver().unwrap();
    assert_eq!(export.actor, Player::Button);
    assert_eq!(export.actor_combo, "AsQh");
    assert_eq!(export.target_path, vec!["BET 1.65".to_string()]);
    assert!(export.signature.starts_with("river|Qs8d4c2h7s|pot:500|eff:9750|"));
    assert!(export.signature.contains("|path:BET 1.65|"));
}

#[test]
fn actions_outside_the_abstraction_are_reported() {
    let mut spot = sample_spots().remove(4);
    if let PostflopScriptedSpot::River(river) = &mut spot.script {
        river.river_prefix_actions = vec![PlayerAction::BetTo(170)];
    }
    match spot.export_for_texassolver() {
        Err(TexasSolverEvalError::ActionNotInAbstraction { spot_id, action }) => {
            assert_eq!(spot_id, "river_ip_facing_bet");
            assert_eq!(action, PlayerAction::BetTo(170));
        }
        other => panic!("unexpected {other:?}"),
    }
}

#[test]
fn bb_amounts_read_up_to_two_decimals() {
    let chars = |s: &str| s.chars().collect::<Vec<_>>();
    assert_eq!(parse_bb_amount(&chars(" 8 ")).unwrap(), 800);
    assert_eq!(parse_bb_amount(&chars("2.5")).unwrap(), 250);
    assert_eq!(parse_bb_amount(&chars("2.645")).unwrap(), 264);
    assert_eq!(parse_bb_amount(&chars("3.")).unwrap(), 300);
    assert!(parse_bb_amount(&chars("1.2.3")).is_err());
    assert!(parse_bb_amount(&chars("x")).is_err());
    assert!(parse_bb_amount(&chars("1.x")).is_err());
}

#[test]
fn action_labels_are_read_without_regard_to_case() {
    assert_eq!(NormalizedTexasAction::parse(" fold ").unwrap(), NormalizedTexasAction::Fold);
    assert_eq!(NormalizedTexasAction::parse("Check").unwrap(), NormalizedTexasAction::Check);
    assert_eq!(NormalizedTexasAction::parse("call").unwrap(), NormalizedTexasAction::Call);
    assert_eq!(NormalizedTexasAction::parse("bet 1.65").unwrap(), NormalizedTexasAction::Bet(165));
    match NormalizedTexasAction::parse("jam") {
        Err(TexasSolverEvalError::UnsupportedTexasSolverAction(label)) => assert_eq!(label, "jam"),
        other => panic!("unexpected {other:?}"),
    }
    match NormalizedTexasAction::parse("bet lots") {
        Err(TexasSolverEvalError::UnsupportedTexasSolverAction(label)) => assert_eq!(label, "LOTS"),
        other => panic!("unexpected {other:?}"),
    }
}

#[test]
fn bb_strings_use_one_or_two_decimals() {
    assert_eq!(chips_to_bb_string(0), "0.0");
    assert_eq!(chips_to_bb_string(250), "2.5");
    assert_eq!(chips_to_bb_string(1_205), "12.05");
    assert_eq!(format_percentage_bps(10_000), "100");
    assert_eq!(format_percentage_bps(3_333), "33.33");
}

#[test]
fn smoke_suite_lists_three_river_roots() {
    let suite = texassolver_smoke_suite();
    assert_eq!(suite.format_version, TEXASSOLVER_SUITE_FORMAT_VERSION);
    assert_eq!(suite.suite_name, "smoke");
    assert_eq!(suite.spots.len(), 3);
    assert_eq!(suite.spots[0].id, "river_oop_root");
    assert_eq!(suite.spots[0].button_hole_cards, "AsQh".parse().unwrap());
    assert_eq!(suite.spots[2].big_blind_range, "Td9c".parse::<Range>().unwrap());
    let export = suite.spots[0].export_for_texassolver().unwrap();
    assert!(export.script.contains("set_board Qs,8d,4c,2h,7s"));
    assert_eq!(export.actor, Player::BigBlind);
}

#[test]
fn grading_status_follows_what_the_reference_holds() {
    let suite = texassolver_smoke_suite();
    let spot = &suite.spots[0];
    let export = spot.export_for_texassolver().unwrap();
    let signature = export.signature.as_str();
    let labels = vec!["CHECK".to_string(), "BET 1.5".to_string()];

    let status = |sig: Option<&str>, node: bool, strategy: bool, combo: bool, ours: Option<AbstractAction>, labels: &[String]| {
        texassolver_grade_status(spot, sig, node, strategy, combo, ours, labels)
    };
    let check = Some(AbstractAction::Check);

    assert_eq!(status(None, true, true, true, check, &labels).0, TexasSolverGradeStatus::MissingReference);
    assert_eq!(
        status(Some("other"), true, true, true, check, &labels).0,
        TexasSolverGradeStatus::SignatureMismatch
    );
    assert_eq!(status(Some(signature), false, true, true, check, &labels).0, TexasSolverGradeStatus::MissingNode);
    assert_eq!(
        status(Some(signature), true, false, true, check, &labels).0,
        TexasSolverGradeStatus::MissingStrategy
    );
    assert_eq!(status(Some(signature), true, true, false, check, &labels).0, TexasSolverGradeStatus::MissingCombo);
    assert_eq!(status(Some(signature), true, true, true, None, &labels).0, TexasSolverGradeStatus::SolveFailed);
    assert_eq!(
        status(Some(signature), true, true, true, check, &labels),
        (TexasSolverGradeStatus::Graded, Some(NormalizedTexasAction::Check))
    );
    assert_eq!(
        status(Some(signature), true, true, true, Some(AbstractAction::BetTo(150)), &labels),
        (TexasSolverGradeStatus::Graded, Some(NormalizedTexasAction::Bet(150)))
    );
    assert_eq!(
        status(Some(signature), true, true, true, Some(AbstractAction::BetTo(300)), &labels),
        (TexasSolverGradeStatus::ActionUnavailable, Some(NormalizedTexasAction::Bet(300)))
    );
}

#[test]
fn all_in_is_labelled_by_what_the_actor_faces() {
    let suite = texassolver_smoke_suite();
    let state = suite.spots[0].build_state().unwrap();
    assert_eq!(
        normalize_abstract_action(AbstractAction::AllIn(9_000), &Some(state)),
        NormalizedTexasAction::Bet(9_000)
    );
    assert_eq!(
        normalize_abstract_action(AbstractAction::AllIn(9_000), &None),
        NormalizedTexasAction::Bet(9_000)
    );
    assert_eq!(
        normalize_abstract_action(AbstractAction::RaiseTo(400), &None),
        NormalizedTexasAction::Raise(400)
    );
}

#[test]
fn label_amounts_are_checked_before_reading() {
    assert!(label_fits_text("BET 1.5"));
    assert!(label_fits_text("fold"));
    assert!(label_fits_text("raise lots"));
    assert!(label_fits_text("RAISE 184467440737095516.15"));
    assert!(!label_fits_text("RAISE 184467440737095516.16"));
    assert!(label_fits_text("bet 999999999999999999999.5"));
    assert!(label_fits_text("bet 184467440737095517"));
    assert!(!label_fits_text("bet 184467440737095517.01"));
}

#[test]
fn the_decision_information_set_names_the_actor_and_the_street_so_far() {
    let suite = texassolver_smoke_suite();
    let spot = &suite.spots[0];
    let key = spot.our_infoset().unwrap();
    assert_eq!(key.player, Player::BigBlind);
    assert_eq!(key.hole_cards, spot.big_blind_hole_cards);
    assert!(key.public_history.is_empty());
}

#[test]
fn evaluation_errors_have_messages() {
    assert_eq!(
        TexasSolverEvalError::UnsupportedReferenceFormatVersion { expected: 1, actual: 2 }.to_string(),
        "unsupported TexasSolver reference format version 2; expected 1"
    );
    assert_eq!(
        TexasSolverEvalError::UnsupportedTexasSolverAction("JAM".to_string()).to_string(),
        "unsupported TexasSolver action label `JAM`"
    );
    assert_eq!(
        TexasSolverEvalError::UnsupportedRaiseSize { spot_id: "a".to_string(), street: Street::Turn }
            .to_string(),
        "TexasSolver export only supports pot-fraction-after-call raise sizes for spot `a` on turn"
    );
    assert_eq!(
        TexasSolverEvalError::ActionNotInAbstraction {
            spot_id: "b".to_string(),
            action: PlayerAction::BetTo(300),
        }
        .to_string(),
        "public script action `bet-to 300` was not present in the abstraction for spot `b`"
    );
    assert_eq!(
        TexasSolverEvalError::RiverSolve(RiverSolveError::NoValidDeals).to_string(),
        "river spot has no valid non-overlapping deals"
    );
    assert!(TexasSolverEvalError::RiverSolve(RiverSolveError::UnexpectedPhase(
        gto_core::HandPhase::AwaitingBoard { next_street: Street::Turn }
    ))
    .to_string()
    .starts_with("river spot ended in unexpected phase AwaitingBoard"));
}

#[test]
fn reference_labels_are_matched_by_their_normalized_text() {
    let labels = vec!["CHECK".to_string(), "bet 1.65".to_string(), "fold".to_string()];
    assert_eq!(find_label(&labels, "BET 1.65"), Ok(Some(1)));
    assert_eq!(find_label(&labels, "CHECK"), Ok(Some(0)));
    assert_eq!(find_label(&labels, "FOLD"), Ok(Some(2)));
    assert_eq!(find_label(&labels, "CALL"), Ok(None));

    let labels = vec![
        "jam".to_string(),
        "bet 184467440737095517.01".to_string(),
        "CALL".to_string(),
    ];
    assert_eq!(find_label(&labels, "CALL"), Err(1));
}
