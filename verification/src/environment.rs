//! What a voter needs from the world around it.

use crate::messages::{CatchUp, Commit, Precommit, Prevote, SignedPrecommit, SignedPrevote};
use crate::outcome::CommitValidationResult;
use crate::voter_set::VoterSet;
use vstd::prelude::*;

verus! {

/// What the votes of a round have decided so far.
#[derive(Debug, Clone)]
pub struct RoundState<Hash, Number, Details> {
    /// The block that is finalized, if any.
    pub finalized: Option<(Hash, Number)>,
    /// Whether enough votes are in for the next round to start.
    pub completable: bool,
    /// What else there is to say, which only the rounds make use of.
    pub details: Details,
}

/// The types that a voter deals with, and the rounds that votes are imported
/// into.
///
/// Only what is answered at once is called here. What has to be waited for, such
/// as the finalization of a block, the voter hands out as an action.
pub trait Environment: Sized {
    /// Identifies a voter.
    type Id: Clone + Eq;

    /// Identifies a block.
    type Hash: Clone;

    /// The height of a block.
    type Number: Copy + Ord;

    /// Signs a vote.
    type Signature: Clone;

    /// Something fatal.
    type Error;

    /// A round with the votes that were imported into it.
    type Round;

    /// What the votes of a round have decided, beyond what a voter looks at.
    type StateDetails;

    /// The votes of a round that are still to come.
    type Incoming;

    /// A vote as it was stored when the voter last stopped.
    type SignedMessage;

    /// Is told how the processing of a commit ended.
    type CommitCallback;

    /// Is told how the processing of a catch up ended.
    type CatchUpCallback;

    /// The state of the round before the first one, which has decided on `base`
    /// alone.
    fn genesis_state(&self, base: (Self::Hash, Self::Number)) -> RoundState<
        Self::Hash,
        Self::Number,
        Self::StateDetails,
    >;

    /// A round of these voters on top of `base`, without votes.
    fn new_round(
        &self,
        round_number: u64,
        voters: &VoterSet<Self::Id>,
        base: (Self::Hash, Self::Number),
    ) -> Self::Round;

    /// The round with one more prevote, or why the prevote cannot be imported.
    fn import_prevote(
        &self,
        round: Self::Round,
        prevote: Prevote<Self::Hash, Self::Number>,
        id: Self::Id,
        signature: Self::Signature,
    ) -> Result<Self::Round, Self::Error>;

    /// The round with one more precommit, or why the precommit cannot be
    /// imported.
    fn import_precommit(
        &self,
        round: Self::Round,
        precommit: Precommit<Self::Hash, Self::Number>,
        id: Self::Id,
        signature: Self::Signature,
    ) -> Result<Self::Round, Self::Error>;

    /// The number of the round.
    fn round_number(&self, round: &Self::Round) -> u64;

    /// The block that the round started from.
    fn round_base(&self, round: &Self::Round) -> (Self::Hash, Self::Number);

    /// What the votes of the round have decided so far.
    fn round_state(&self, round: &Self::Round) -> RoundState<
        Self::Hash,
        Self::Number,
        Self::StateDetails,
    >;

    /// The precommits that finalize the block which the round has finalized, if it
    /// has finalized one.
    fn finalizing_precommits(&self, round: &Self::Round) -> Option<
        Vec<SignedPrecommit<Self::Hash, Self::Number, Self::Signature, Self::Id>>,
    >;

    /// What there is to say of a commit of these voters, or why nothing can be
    /// said.
    fn validate_commit(
        &self,
        commit: &Commit<Self::Hash, Self::Number, Self::Signature, Self::Id>,
        voters: &VoterSet<Self::Id>,
    ) -> Result<CommitValidationResult<Self::Hash, Self::Number>, Self::Error>;
}

/// A block: its hash and its number.
pub type Block<E> = (<E as Environment>::Hash, <E as Environment>::Number);

/// The state of a round in this environment.
pub type RoundStateIn<E> = RoundState<
    <E as Environment>::Hash,
    <E as Environment>::Number,
    <E as Environment>::StateDetails,
>;

/// A prevote in this environment.
pub type SignedPrevoteIn<E> = SignedPrevote<
    <E as Environment>::Hash,
    <E as Environment>::Number,
    <E as Environment>::Signature,
    <E as Environment>::Id,
>;

/// A precommit in this environment.
pub type SignedPrecommitIn<E> = SignedPrecommit<
    <E as Environment>::Hash,
    <E as Environment>::Number,
    <E as Environment>::Signature,
    <E as Environment>::Id,
>;

/// A commit in this environment.
pub type CommitIn<E> = Commit<
    <E as Environment>::Hash,
    <E as Environment>::Number,
    <E as Environment>::Signature,
    <E as Environment>::Id,
>;

/// A catch up in this environment.
pub type CatchUpIn<E> = CatchUp<
    <E as Environment>::Hash,
    <E as Environment>::Number,
    <E as Environment>::Signature,
    <E as Environment>::Id,
>;

} // verus!
