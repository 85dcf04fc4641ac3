//! The strategy side: the betting abstraction, the public game tree, training
//! schedules, scripted spots and the simple bots.

pub mod abstraction;
pub mod bot;
pub mod eval;
pub mod spots;
pub mod stub;
pub mod training;
pub mod tree;

pub use abstraction::{
    abstract_actions, stable_action_key, stable_infoset_key, AbstractAction, AbstractionProfile,
    HoldemInfoSetKey, OpeningSize, PublicStateKey, RaiseSize, StreetProfile,
};
pub use bot::{
    scripted_flop_spot_from_state, scripted_river_spot_from_state, scripted_turn_spot_from_state,
    PostflopBotPlan, PostflopSolverBot, PostflopSolverBotConfig, PostflopSolverBotError,
};
pub use eval::{
    chips_to_bb_string, find_label, format_percentage_bps, label_fits_text, normalize_abstract_action,
    parse_bb_amount,
    texassolver_grade_status, texassolver_smoke_suite,
    NormalizedTexasAction, PostflopScriptedSpot, TexasSolverEvalError, TexasSolverEvalSpot,
    TexasSolverExport, TexasSolverGradeStatus, TexasSolverSpotSuite,
    TEXASSOLVER_SUITE_FORMAT_VERSION,
};
pub use spots::{
    FlopArtifactError, FlopCheckpointError, FlopSolveError, RiverSolveError, ScriptedFlopSpot, SpotDeal,
    ScriptedRiverSpot, ScriptedTurnSpot, TurnArtifactError, TurnCheckpointError, TurnSolveError,
};
pub use stub::{build_info, SolverBuildInfo, SolverProfile, StubBot, StubBotError};
pub use training::{FlopTrainingProfile, TrainingProfile, TurnTrainingProfile};
pub use tree::{build_public_tree, PublicTree, PublicTreeEdge, PublicTreeNode, PublicTreeNodeKind};
pub mod blueprint;
pub use blueprint::{
    choose_preflop_action, choose_ranked_action, classify_draw_bucket, classify_made_hand,
    current_best_rank, default_preflop_policies, find_preflop_policy,
    default_preflop_policies_for_bucket, fallback_preflop_facing_bucket, postflop_policy_key,
    choose_blueprint_preflop_action, preflop_context_from_state, resolve_action_kind, safe_fallback_action,
    smoke_blueprint_profile,
    BlueprintActionKind, BlueprintArtifactError, BlueprintBotError, DrawBucket,
    EffectiveStackBucket, MadeHandBucket, PostflopPolicyKey, PreflopContextKey,
    PreflopFacingBetBucket, PreflopPolicyEntry, PreflopRangeRule, StackPressureBucket,
    StartingRangeName, StartingRanges,
};
pub mod kuhn;
pub use kuhn::{KuhnAction, KuhnCard, KuhnInfoSet, KuhnNode, KuhnState};
