//! What a voter is told, and what it asks for.

use crate::callback::Callback;
use crate::communication::{GlobalCommunicationIncoming, GlobalCommunicationOutgoing};
use crate::environment::{Block, CommitIn, Environment, RoundStateIn};
use crate::outcome::{CatchUpProcessingOutcome, CommitProcessingOutcome, CommitValidationResult};
use vstd::prelude::*;

verus! {

/// A voting round that has gone far enough for the next round to start.
pub struct CompletableRound<E: Environment> {
    /// The round with its votes.
    pub round: E::Round,
    /// The votes that are still to come.
    pub incoming: E::Incoming,
}

/// A background round that has nothing left to do.
pub struct ConcludedRound<E: Environment> {
    /// The round with its votes.
    pub round: E::Round,
}

/// A completable round with what there is to know of it.
pub struct CompletedRound<E: Environment> {
    /// The round with its votes.
    pub round: E::Round,
    /// The votes that are still to come.
    pub incoming: E::Incoming,
    /// The number of the round.
    pub number: u64,
    /// The block that the round started from.
    pub base: Block<E>,
    /// What the round has decided.
    pub state: RoundStateIn<E>,
    /// The block that the round has finalized.
    pub finalized: Block<E>,
}

/// A concluded round with what there is to know of it.
pub struct RoundReport<E: Environment> {
    /// The round with its votes.
    pub round: E::Round,
    /// The number of the round.
    pub number: u64,
    /// The block that the round started from.
    pub base: Block<E>,
    /// What the round has decided.
    pub state: RoundStateIn<E>,
}

/// A commit that the background round has come to.
pub struct BackgroundRoundCommit<E: Environment> {
    /// The number of the round.
    pub round_number: u64,
    /// The commit.
    pub commit: CommitIn<E>,
    /// Whether the other nodes are to hear of the commit.
    pub broadcast: bool,
}

/// A message from another node in this environment.
pub type IncomingMessage<E> = GlobalCommunicationIncoming<
    <E as Environment>::Hash,
    <E as Environment>::Number,
    <E as Environment>::Signature,
    <E as Environment>::Id,
    <E as Environment>::CommitCallback,
    <E as Environment>::CatchUpCallback,
>;

/// A message to the other nodes in this environment.
pub type OutgoingMessage<E> = GlobalCommunicationOutgoing<
    <E as Environment>::Hash,
    <E as Environment>::Number,
    <E as Environment>::Signature,
    <E as Environment>::Id,
>;

/// What a voter waits for between two actions.
pub enum Event<E: Environment> {
    /// The voting round is over.
    VotingRound(Result<CompletableRound<E>, E::Error>),
    /// The background round is over.
    BackgroundRound(Result<ConcludedRound<E>, E::Error>),
    /// The background round has come to a commit.
    BackgroundRoundCommit(BackgroundRoundCommit<E>),
    /// A message has come from another node.
    GlobalMessage(Result<IncomingMessage<E>, E::Error>),
}

/// A round to be taken up again in the background after a stop.
pub struct RoundRestore<E: Environment> {
    /// The number of the round.
    pub number: u64,
    /// The block that the round started from.
    pub base: Block<E>,
    /// The votes of the round.
    pub votes: Vec<E::SignedMessage>,
}

/// A round to be run in the background.
pub struct BackgroundRoundStart<E: Environment> {
    /// The round with its votes.
    pub round: E::Round,
    /// The votes that are still to come.
    pub incoming: E::Incoming,
}

/// A round to vote in.
pub struct VotingRoundStart<E: Environment> {
    /// The number of the round.
    pub number: u64,
    /// The block that the round starts from.
    pub base: Block<E>,
    /// What the round before this one has decided.
    pub previous_state: RoundStateIn<E>,
}

/// Why a block is to be finalized.
pub enum FinalizeTask<E: Environment> {
    /// The voting round has finalized it.
    CompletableRound(CompletedRound<E>),
    /// The background round has come to a commit for it.
    BackgroundRoundCommit { block: Block<E> },
    /// A commit for it has come from another node.
    IncomingCommit {
        block: Block<E>,
        result: CommitValidationResult<E::Hash, E::Number>,
        callback: Callback<E::CommitCallback>,
    },
    /// The round that another node has sent the votes of has finalized it.
    CatchUp { round: CompletedRound<E>, callback: Callback<E::CatchUpCallback> },
}

/// Why a round is completed.
pub enum CompletedTask<E: Environment> {
    /// It was voted in to the end.
    CompletableRound(CompletedRound<E>),
    /// Another node has sent its votes.
    CatchUp { round: CompletedRound<E>, callback: Callback<E::CatchUpCallback> },
}

/// A catch up whose votes have all been imported.
pub struct CatchUpTask<E: Environment> {
    /// The number of the round that is caught up on.
    pub round_number: u64,
    /// This round with its votes.
    pub round: E::Round,
    /// Is to be told of the outcome.
    pub callback: Callback<E::CatchUpCallback>,
}

/// Why rounds are started.
pub enum StartTask<E: Environment> {
    /// The voting round was voted in to the end.
    CompletableRound { round_number: u64 },
    /// Another node has sent the votes of a later round.
    CatchUp { round_number: u64, callback: Callback<E::CatchUpCallback> },
}

/// What a voter asks for.
pub enum Action<E: Environment> {
    /// Nothing: the next event can be awaited.
    Idle,
    /// Send the message to the other nodes, and go on with
    /// [`crate::voter::Voter::commit_broadcast`] whether this has worked or not.
    Broadcast { message: OutgoingMessage<E>, then: BackgroundRoundCommit<E> },
    /// Finalize the block, and go on with [`crate::voter::Voter::block_finalized`].
    FinalizeBlock {
        hash: E::Hash,
        number: E::Number,
        round_number: u64,
        commit: CommitIn<E>,
        then: FinalizeTask<E>,
    },
    /// Note that the round is completed, and go on with
    /// [`crate::voter::Voter::round_completed`].
    NoteCompleted(CompletedTask<E>),
    /// Note that the round is concluded, and go on with
    /// [`crate::voter::Voter::round_concluded`].
    NoteConcluded(RoundReport<E>),
    /// Get what is needed to take part in the round that is caught up on, and go
    /// on with [`crate::voter::Voter::round_data_fetched`].
    FetchRoundData(CatchUpTask<E>),
    /// Run the two rounds from now on in place of those that run, and go on with
    /// [`crate::voter::Voter::rounds_started`].
    StartRounds {
        background: BackgroundRoundStart<E>,
        voting: VotingRoundStart<E>,
        then: StartTask<E>,
    },
    /// Hand the commit to the background round. Then the next event can be awaited.
    ForwardCommit { commit: CommitIn<E>, callback: Callback<E::CommitCallback> },
    /// Run the callback of a commit. Then the next event can be awaited.
    ReportCommit {
        outcome: CommitProcessingOutcome,
        callback: Callback<E::CommitCallback>,
    },
    /// Run the callback of a catch up. Then the next event can be awaited.
    ReportCatchUp {
        outcome: CatchUpProcessingOutcome,
        callback: Callback<E::CatchUpCallback>,
    },
}

} // verus!
