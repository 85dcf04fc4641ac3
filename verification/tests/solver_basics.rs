use gto_core::solver::{
    build_info, FlopTrainingProfile, SolverBuildInfo, SolverProfile, StubBot, StubBotError,
    TrainingProfile, TurnTrainingProfile,
};
use gto_core::{HoldemConfig, HoldemHandState, PlayerAction};

#[test]
fn build_info_exposes_core_metadata() {
    assert_eq!(
        build_info(),
        SolverBuildInfo {
            crate_name: "gto-solver",
            crate_version: "0.1.0",
            wasm_safe: true,
            parallel_feature_enabled: false,
            core: gto_core::build_info(),
        }
    );
}

#[test]
fn placeholder_profile_has_stable_name() {
    assert_eq!(SolverProfile::placeholder().name(), "bootstrap-placeholder");
}

#[test]
fn stub_bot_checks_when_it_can() {
    let mut state = HoldemHandState::new(
        HoldemConfig::default(),
        "AsKd".parse().unwrap(),
        "QcJh".parse().unwrap(),
    )
    .unwrap();
    state.apply_action(PlayerAction::Call).unwrap();
    state
        .deal_flop(["2c".parse().unwrap(), "3d".parse().unwrap(), "4h".parse().unwrap()])
        .unwrap();

    assert_eq!(StubBot.choose_action(&state).unwrap(), PlayerAction::Check);
}

#[test]
fn stub_bot_calls_when_facing_a_bet() {
    let mut state = HoldemHandState::new(
        HoldemConfig::new(250, 50, 100).unwrap(),
        "AsKd".parse().unwrap(),
        "QcJh".parse().unwrap(),
    )
    .unwrap();
    state.apply_action(PlayerAction::Call).unwrap();
    state
        .deal_flop(["2c".parse().unwrap(), "3d".parse().unwrap(), "4h".parse().unwrap()])
        .unwrap();
    state.apply_action(PlayerAction::BetTo(100)).unwrap();

    assert_eq!(StubBot.choose_action(&state).unwrap(), PlayerAction::Call);
}

#[test]
fn stub_bot_reports_when_no_one_is_to_act() {
    let mut state = HoldemHandState::new(
        HoldemConfig::default(),
        "AsKd".parse().unwrap(),
        "QcJh".parse().unwrap(),
    )
    .unwrap();
    state.apply_action(PlayerAction::Call).unwrap();
    assert!(matches!(StubBot.choose_action(&state), Err(StubBotError::State(_))));
}

#[test]
fn profiles_increase_work_monotonically() {
    assert!(TrainingProfile::Smoke.total_iterations() < TrainingProfile::Dev.total_iterations());
    assert!(TrainingProfile::Dev.total_iterations() < TrainingProfile::Full.total_iterations());
    assert!(TrainingProfile::Smoke.checkpoint_interval() <= TrainingProfile::Smoke.total_iterations());
}

#[test]
fn flop_training_profile_alias_exposes_training_schedule() {
    assert!(FlopTrainingProfile::Smoke.total_iterations() < FlopTrainingProfile::Dev.total_iterations());
    assert!(FlopTrainingProfile::Dev.total_iterations() < FlopTrainingProfile::Full.total_iterations());
    assert!(FlopTrainingProfile::Smoke.checkpoint_interval() <= FlopTrainingProfile::Smoke.total_iterations());
}

#[test]
fn turn_training_profile_alias_exposes_training_schedule() {
    assert!(TurnTrainingProfile::Smoke.total_iterations() < TurnTrainingProfile::Dev.total_iterations());
    assert!(TurnTrainingProfile::Dev.total_iterations() < TurnTrainingProfile::Full.total_iterations());
    assert!(TurnTrainingProfile::Smoke.checkpoint_interval() <= TurnTrainingProfile::Smoke.total_iterations());
}

#[test]
fn training_schedules_have_exact_sizes() {
    assert_eq!(TrainingProfile::Full.total_iterations(), 25_000);
    assert_eq!(TrainingProfile::Full.checkpoint_interval(), 5_000);
    assert_eq!(TrainingProfile::Dev.checkpoint_interval(), 2_000);
}
