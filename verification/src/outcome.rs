//! How the processing of a message ended.

use vstd::prelude::*;
use vstd::std_specs::convert::FromSpecImpl;

verus! {

/// What the validation of a commit found.
#[derive(Debug, Clone, PartialEq, Eq)]
pub struct CommitValidationResult<Hash, Number> {
    /// The block that the commit finalizes, if it finalizes one.
    pub finalized: Option<(Hash, Number)>,
    /// The number of precommits in the commit.
    pub num_precommits: usize,
    /// The number of precommits that occur more than once.
    pub num_duplicated_precommits: usize,
    /// The number of voters that voted for two blocks.
    pub num_equivocations: usize,
    /// The number of precommits of no voter in the voter set.
    pub num_invalid_voters: usize,
}

/// The outcome of processing a commit.
#[derive(Debug, Clone, PartialEq, Eq)]
pub enum CommitProcessingOutcome {
    /// It was beneficial to process this commit.
    Good,
    /// It wasn't beneficial to process this commit. We wasted resources.
    Bad {
        num_precommits: usize,
        num_duplicated_precommits: usize,
        num_equivocations: usize,
        num_invalid_voters: usize,
    },
}

/// What is reported of a commit for what its validation found: that it was good
/// if it finalizes a block, and the counts if not.
pub open spec fn commit_outcome<Hash, Number>(
    result: CommitValidationResult<Hash, Number>,
) -> CommitProcessingOutcome {
    if result.finalized is Some {
        CommitProcessingOutcome::Good
    } else {
        CommitProcessingOutcome::Bad {
            num_precommits: result.num_precommits,
            num_duplicated_precommits: result.num_duplicated_precommits,
            num_equivocations: result.num_equivocations,
            num_invalid_voters: result.num_invalid_voters,
        }
    }
}

impl<Hash, Number> From<CommitValidationResult<Hash, Number>> for CommitProcessingOutcome {
    fn from(result: CommitValidationResult<Hash, Number>) -> (outcome: Self) {
        if result.finalized.is_some() {
            CommitProcessingOutcome::Good
        } else {
            CommitProcessingOutcome::Bad {
                num_precommits: result.num_precommits,
                num_duplicated_precommits: result.num_duplicated_precommits,
                num_equivocations: result.num_equivocations,
                num_invalid_voters: result.num_invalid_voters,
            }
        }
    }
}

impl<Hash, Number> FromSpecImpl<CommitValidationResult<Hash, Number>> for CommitProcessingOutcome {
    open spec fn obeys_from_spec() -> bool {
        true
    }

    open spec fn from_spec(result: CommitValidationResult<Hash, Number>) -> Self {
        commit_outcome(result)
    }
}

/// The outcome of processing a catch up.
#[derive(Debug, Clone, PartialEq, Eq)]
pub enum CatchUpProcessingOutcome {
    /// It was beneficial to process this catch up.
    Good,
    /// It wasn't beneficial to process this catch up, it is invalid and we
    /// wasted resources.
    Bad,
    /// The catch up wasn't processed because it is useless, e.g. it is for a
    /// round lower than we're currently in.
    Useless,
}

} // verus!
