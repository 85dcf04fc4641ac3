use vstd::prelude::*;

use crate::holdem::{HoldemHandState, HoldemStateError, LegalActions, PlayerAction};
use crate::meta::{build_info as core_build_info, CoreBuildInfo};

verus! {

/// Static build metadata for the strategy side.
#[derive(Debug, Clone, Copy, PartialEq, Eq)]
pub struct SolverBuildInfo {
    pub crate_name: &'static str,
    pub crate_version: &'static str,
    pub wasm_safe: bool,
    pub parallel_feature_enabled: bool,
    pub core: CoreBuildInfo,
}

/// Metadata about this build of the strategy side.
pub fn build_info() -> (r: SolverBuildInfo)
    ensures
        r.crate_name@ == "gto-solver"@,
        r.crate_version@ == "0.1.0"@,
        r.wasm_safe,
        !r.parallel_feature_enabled,
        r.core.crate_name@ == "gto-core"@,
        r.core.crate_version@ == "0.1.0"@,
        r.core.wasm_safe,
{
    SolverBuildInfo {
        crate_name: "gto-solver",
        crate_version: "0.1.0",
        wasm_safe: true,
        parallel_feature_enabled: false,
        core: core_build_info(),
    }
}

/// A named bot profile.
#[derive(Debug, Clone, Copy, PartialEq, Eq)]
pub struct SolverProfile {
    name: &'static str,
}

impl SolverProfile {
    pub closed spec fn spec_name(self) -> Seq<char> {
        self.name@
    }

    /// The profile of the placeholder bot.
    pub fn placeholder() -> (r: Self)
        ensures
            r.spec_name() == "bootstrap-placeholder"@,
    {
        SolverProfile { name: "bootstrap-placeholder" }
    }

    pub fn name(self) -> (r: &'static str)
        ensures
            r@ == self.spec_name(),
    {
        self.name
    }
}

/// A bot that always takes the most passive legal action.
#[derive(Debug, Clone, Copy, PartialEq, Eq, Default)]
pub struct StubBot;

/// Why the stub bot could not act.
#[derive(Debug)]
pub enum StubBotError {
    NoLegalAction,
    State(HoldemStateError),
}

/// The stub bot's choice among legal actions: check, else call, else the smallest
/// bet, else the smallest raise, else all in, else fold.
pub open spec fn stub_choice(legal: LegalActions) -> Option<PlayerAction> {
    if legal.check {
        Some(PlayerAction::Check)
    } else if legal.call_amount is Some {
        Some(PlayerAction::Call)
    } else if legal.bet_range is Some {
        Some(PlayerAction::BetTo(legal.bet_range.unwrap().min_total))
    } else if legal.raise_range is Some {
        Some(PlayerAction::RaiseTo(legal.raise_range.unwrap().min_total))
    } else if legal.all_in_to is Some {
        Some(PlayerAction::AllIn)
    } else if legal.fold {
        Some(PlayerAction::Fold)
    } else {
        None
    }
}

impl StubBot {
    pub fn choose_action(self, state: &HoldemHandState) -> (r: Result<PlayerAction, StubBotError>)
        requires
            state.wf(),
        ensures
            match state@.actor() {
                None => r matches Err(StubBotError::State(e))
                    && e == HoldemStateError::ActionNotAllowedInCurrentPhase,
                Some(p) => match stub_choice(state@.legal(p)) {
                    Some(a) => r matches Ok(b) && b == a,
                    None => r matches Err(StubBotError::NoLegalAction),
                },
            },
    {
        let legal = match state.legal_actions() {
            Ok(legal) => legal,
            Err(e) => {
                return Err(StubBotError::State(e));
            },
        };
        if legal.check {
            return Ok(PlayerAction::Check);
        }
        if legal.call_amount.is_some() {
            return Ok(PlayerAction::Call);
        }
        if let Some(range) = legal.bet_range {
            return Ok(PlayerAction::BetTo(range.min_total));
        }
        if let Some(range) = legal.raise_range {
            return Ok(PlayerAction::RaiseTo(range.min_total));
        }
        if legal.all_in_to.is_some() {
            return Ok(PlayerAction::AllIn);
        }
        if legal.fold {
            return Ok(PlayerAction::Fold);
        }
        Err(StubBotError::NoLegalAction)
    }
}

/// In every betting round the stub bot checks when it may and calls otherwise, and
/// the hand accepts its action.
pub proof fn lemma_stub_choice_is_legal(m: crate::holdem::HandModel, p: crate::holdem::Player)
    requires
        m.wf(),
        m.actor() == Some(p),
    ensures
        stub_choice(m.legal(p)) == Some(PlayerAction::Check) || stub_choice(m.legal(p)) == Some(
            PlayerAction::Call,
        ),
        m.apply(stub_choice(m.legal(p)).unwrap()).1 is Ok,
{
    crate::holdem::lemma_actions_fail_only_by_refusal(m, stub_choice(m.legal(p)).unwrap());
}

} // verus!
