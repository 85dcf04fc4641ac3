use vstd::prelude::*;

verus! {

/// How much work a training run does.
#[derive(Debug, Clone, Copy, PartialEq, Eq, Structural)]
pub enum TrainingProfile {
    Smoke,
    Dev,
    Full,
}

/// The training schedules of flop solving.
pub type FlopTrainingProfile = TrainingProfile;

/// The training schedules of turn solving.
pub type TurnTrainingProfile = TrainingProfile;

impl TrainingProfile {
    pub open spec fn spec_total_iterations(self) -> u64 {
        match self {
            TrainingProfile::Smoke => 2_000,
            TrainingProfile::Dev => 8_000,
            TrainingProfile::Full => 25_000,
        }
    }

    pub open spec fn spec_checkpoint_interval(self) -> u64 {
        match self {
            TrainingProfile::Smoke => 500,
            TrainingProfile::Dev => 2_000,
            TrainingProfile::Full => 5_000,
        }
    }

    /// The number of training iterations of a run.
    pub fn total_iterations(self) -> (r: u64)
        ensures
            r == self.spec_total_iterations(),
    {
        match self {
            TrainingProfile::Smoke => 2_000,
            TrainingProfile::Dev => 8_000,
            TrainingProfile::Full => 25_000,
        }
    }

    /// The number of iterations between two checkpoints.
    pub fn checkpoint_interval(self) -> (r: u64)
        ensures
            r == self.spec_checkpoint_interval(),
    {
        match self {
            TrainingProfile::Smoke => 500,
            TrainingProfile::Dev => 2_000,
            TrainingProfile::Full => 5_000,
        }
    }
}

/// Larger profiles do strictly more work, and every profile checkpoints at least
/// once (its interval divides its run into whole parts).
pub proof fn lemma_profiles_increase_work()
    ensures
        TrainingProfile::Smoke.spec_total_iterations() < TrainingProfile::Dev.spec_total_iterations(),
        TrainingProfile::Dev.spec_total_iterations() < TrainingProfile::Full.spec_total_iterations(),
        forall|p: TrainingProfile|
            0 < #[trigger] p.spec_checkpoint_interval() <= p.spec_total_iterations()
                && p.spec_total_iterations() % p.spec_checkpoint_interval() == 0,
{
    assert forall|p: TrainingProfile|
        0 < #[trigger] p.spec_checkpoint_interval() <= p.spec_total_iterations()
            && p.spec_total_iterations() % p.spec_checkpoint_interval() == 0 by {
        match p {
            TrainingProfile::Smoke => {},
            TrainingProfile::Dev => {},
            TrainingProfile::Full => {},
        }
    }
}

} // verus!
