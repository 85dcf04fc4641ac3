use gto_core::cli::{
    describe_abstract_action, format_board, format_hole_cards, format_legal_actions, menu_prompt,
    parse_human_abstract_action, parse_user_action, play_again_answer, run_session,
    startup_banner, CliConfig, CliSession, DealtHand, SessionMode,
};
use gto_core::solver::AbstractAction;
use gto_core::{rng_from_seed, HoldemConfig, HoldemHandState, HoleCards};
use gto_core::{LegalActions, PlayerAction, WagerRange};

#[test]
fn startup_banner_mentions_interactive_cli() {
    let banner = startup_banner();

    assert!(banner.contains("gto-solver"));
    assert!(banner.contains("milestones M4-M7 CLI demos and river solver integration"));
}

#[test]
fn scripted_session_can_play_a_complete_hand() {
    let input = "call\ncheck\ncheck\ncheck\n";

    let transcript = run_session(
        input,
        CliConfig {
            seed: 7,
            max_hands: Some(1),
        },
    )
    .unwrap();

    assert!(transcript.contains("Hand 1"));
    assert!(transcript.contains("You are the button."));
    assert!(transcript.contains("Your cards:"));
    assert!(transcript.contains("Flop:"));
    assert!(transcript.contains("Showdown"));
}

#[test]
fn invalid_input_is_reported_and_reprompted() {
    let input = "banana\ncall\ncheck\ncheck\ncheck\n";

    let transcript = run_session(
        input,
        CliConfig {
            seed: 7,
            max_hands: Some(1),
        },
    )
    .unwrap();

    assert!(transcript.contains("Invalid action"));
    assert!(transcript.contains("Showdown"));
}

#[test]
fn eof_exits_cleanly() {
    let transcript = run_session(
        "",
        CliConfig {
            seed: 7,
            max_hands: Some(1),
        },
    )
    .unwrap();

    assert!(transcript.contains("Input closed; exiting."));
}

#[test]
fn banner_is_exact() {
    assert_eq!(
        startup_banner(),
        "gto-solver 0.1.0\nstatus: milestones M4-M7 CLI demos and river solver integration\nsolver-profile: bootstrap-placeholder\nwasm-safe-core: true"
    );
}

#[test]
fn answers_are_read_as_actions() {
    assert_eq!(parse_user_action(" Call "), Ok(Some(PlayerAction::Call)));
    assert_eq!(parse_user_action("k"), Ok(Some(PlayerAction::Check)));
    assert_eq!(parse_user_action("jam"), Ok(Some(PlayerAction::AllIn)));
    assert_eq!(parse_user_action("bet 250"), Ok(Some(PlayerAction::BetTo(250))));
    assert_eq!(parse_user_action("raise-to  600"), Ok(Some(PlayerAction::RaiseTo(600))));
    assert_eq!(parse_user_action("quit"), Ok(None));
    assert_eq!(
        parse_user_action(""),
        Err("enter an action such as `call`, `check`, `bet 100`, or `quit`")
    );
    assert_eq!(parse_user_action("bet"), Err("expected an amount after the action"));
    assert_eq!(parse_user_action("bet 1 2"), Err("too many tokens in action"));
    assert_eq!(parse_user_action("bet x"), Err("amount must be a positive integer"));
    assert_eq!(parse_user_action("shove 5"), Err("unknown action"));
}

#[test]
fn replay_answers_are_yes_no_or_neither() {
    assert_eq!(play_again_answer("Y"), Some(true));
    assert_eq!(play_again_answer(" yes "), Some(true));
    assert_eq!(play_again_answer("no"), Some(false));
    assert_eq!(play_again_answer("maybe"), None);
}

#[test]
fn legal_actions_are_listed_in_order() {
    let legal = LegalActions {
        fold: true,
        check: false,
        call_amount: Some(50),
        bet_range: None,
        raise_range: Some(WagerRange { min_total: 200, max_total: 10_000 }),
        all_in_to: None,
    };
    assert_eq!(format_legal_actions(legal), "fold | call (50) | raise <200-10000>");
}

#[test]
fn quitting_ends_the_session() {
    let transcript = run_session(
        "quit\n",
        CliConfig {
            seed: 7,
            max_hands: None,
        },
    )
    .unwrap();
    assert!(transcript.ends_with("Exiting.\n"));
}

#[test]
fn sessions_ask_before_another_hand_without_a_count() {
    let transcript = run_session(
        "call\ncheck\ncheck\ncheck\nmaybe\nn\n",
        CliConfig {
            seed: 7,
            max_hands: None,
        },
    )
    .unwrap();
    assert!(transcript.contains("Play another hand? [y/n]"));
    assert!(transcript.contains("Please answer `y` or `n`."));
    assert!(!transcript.contains("Hand 2"));
}

#[test]
fn the_player_takes_the_big_blind_in_the_second_hand() {
    let transcript = run_session(
        "call\ncheck\ncheck\ncheck\ny\n",
        CliConfig {
            seed: 7,
            max_hands: None,
        },
    )
    .unwrap();
    assert!(transcript.contains("Hand 2"));
    assert!(transcript.contains("You are the big-blind."));
    assert!(transcript.ends_with("Input closed; exiting.\n"));
}

#[test]
fn a_session_starts_by_dealing() {
    let (session, banner) = CliSession::new(CliConfig::default());
    assert_eq!(session.mode(), SessionMode::NeedsDeal);
    assert_eq!(session.hand_number(), 0);
    assert!(banner.ends_with('\n'));
}

#[test]
fn solver_menu_actions_are_described() {
    assert_eq!(describe_abstract_action(AbstractAction::Fold), "fold");
    assert_eq!(describe_abstract_action(AbstractAction::Call), "call");
    assert_eq!(describe_abstract_action(AbstractAction::BetTo(150)), "bet to 150");
    assert_eq!(describe_abstract_action(AbstractAction::RaiseTo(300)), "raise to 300");
    assert_eq!(describe_abstract_action(AbstractAction::AllIn(9950)), "all-in to 9950");
}

#[test]
fn solver_menu_answers_pick_by_number_or_by_action() {
    let menu = [
        AbstractAction::Fold,
        AbstractAction::Call,
        AbstractAction::RaiseTo(300),
    ];
    assert_eq!(parse_human_abstract_action("2", &menu), Ok(Some(AbstractAction::Call)));
    assert_eq!(parse_human_abstract_action(" 0 ", &menu), Ok(Some(AbstractAction::Fold)));
    assert_eq!(parse_human_abstract_action("raise 300", &menu), Ok(Some(AbstractAction::RaiseTo(300))));
    assert_eq!(parse_human_abstract_action("FOLD", &menu), Ok(Some(AbstractAction::Fold)));
    assert_eq!(parse_human_abstract_action("quit", &menu), Ok(None));
    assert_eq!(
        parse_human_abstract_action("", &menu),
        Err("enter a listed action, its number, or `quit`")
    );
    assert_eq!(parse_human_abstract_action("4", &menu), Err("option number is out of range"));
    assert_eq!(
        parse_human_abstract_action("check", &menu),
        Err("that action is not in the solver menu for this spot")
    );
    assert_eq!(parse_human_abstract_action("bet", &menu), Err("expected an amount after the action"));
}

#[test]
fn solver_menu_prompt_numbers_the_options() {
    let button: HoleCards = "AsKd".parse().unwrap();
    let big_blind: HoleCards = "7c7h".parse().unwrap();
    let state = HoldemHandState::new(HoldemConfig::default(), button, big_blind).unwrap();
    let menu = [AbstractAction::Fold, AbstractAction::Call, AbstractAction::RaiseTo(250)];
    let prompt = menu_prompt(&state, &menu);
    assert_eq!(
        prompt,
        "\nStreet: preflop\nBoard: -\nPot: 150\nOptions: 1: fold | 2: call | 3: raise to 250\n> "
    );
    assert_eq!(format_board(&state), "-");
    assert_eq!(format_hole_cards(button), "As Kd");
}

#[test]
fn a_deal_has_nine_different_cards_and_repeats_with_the_seed() {
    let mut rng = rng_from_seed(11);
    let first = DealtHand::deal(&mut rng).unwrap();
    let mut cards = vec![first.button.first(), first.button.second(), first.big_blind.first(), first.big_blind.second()];
    cards.extend_from_slice(&first.board);
    for i in 0..cards.len() {
        for j in 0..i {
            assert_ne!(cards[i], cards[j]);
        }
    }
    let again = DealtHand::deal(&mut rng_from_seed(11)).unwrap();
    assert_eq!(first, again);
}
