//! Communication between nodes that is not round-localized, and what is needed to
//! communicate in a round.

use crate::callback::Callback;
use crate::messages::{
    CatchUp, Commit, CompactCommit, same_catch_up, same_commit, same_compact_commit,
};
use vstd::prelude::*;

verus! {

/// Communication between nodes that is not round-localized.
#[derive(Debug, PartialEq, Eq)]
pub enum GlobalCommunicationOutgoing<Hash, Number, Signature, Id> {
    /// A commit message.
    Commit(u64, Commit<Hash, Number, Signature, Id>),
}

impl<
    Hash: Clone,
    Number: Clone,
    Signature: Clone,
    Id: Clone,
> Clone for GlobalCommunicationOutgoing<Hash, Number, Signature, Id> {
    fn clone(&self) -> (clone: Self)
        ensures
            match *self {
                GlobalCommunicationOutgoing::Commit(round_number, commit) => {
                    &&& clone matches GlobalCommunicationOutgoing::Commit(number, copy)
                    &&& number == round_number
                    &&& same_commit(commit, copy)
                },
            },
    {
        match self {
            GlobalCommunicationOutgoing::Commit(round_number, commit) => {
                GlobalCommunicationOutgoing::Commit(*round_number, commit.clone())
            },
        }
    }
}

/// Communication between nodes that is not round-localized.
pub enum GlobalCommunicationIncoming<
    Hash,
    Number,
    Signature,
    Id,
    CommitCallback,
    CatchUpCallback,
> {
    /// A commit message.
    Commit(u64, CompactCommit<Hash, Number, Signature, Id>, Callback<CommitCallback>),
    /// A catch up message.
    CatchUp(CatchUp<Hash, Number, Signature, Id>, Callback<CatchUpCallback>),
}

impl<
    Hash: Clone,
    Number: Clone,
    Signature: Clone,
    Id: Clone,
    CommitCallback,
    CatchUpCallback,
> Clone for GlobalCommunicationIncoming<
    Hash,
    Number,
    Signature,
    Id,
    CommitCallback,
    CatchUpCallback,
> {
    /// The same message, with a blank callback.
    fn clone(&self) -> (clone: Self)
        ensures
            match *self {
                GlobalCommunicationIncoming::Commit(round_number, commit, _) => {
                    &&& clone matches GlobalCommunicationIncoming::Commit(number, copy, callback)
                    &&& number == round_number
                    &&& same_compact_commit(commit, copy)
                    &&& callback == Callback::<CommitCallback>::Blank
                },
                GlobalCommunicationIncoming::CatchUp(catch_up, _) => {
                    &&& clone matches GlobalCommunicationIncoming::CatchUp(copy, callback)
                    &&& same_catch_up(catch_up, copy)
                    &&& callback == Callback::<CatchUpCallback>::Blank
                },
            },
    {
        match self {
            GlobalCommunicationIncoming::Commit(round_number, commit, callback) => {
                GlobalCommunicationIncoming::Commit(
                    *round_number,
                    commit.clone(),
                    callback.clone(),
                )
            },
            GlobalCommunicationIncoming::CatchUp(catch_up, callback) => {
                GlobalCommunicationIncoming::CatchUp(catch_up.clone(), callback.clone())
            },
        }
    }
}

/// Data necessary to participate in a round.
pub struct RoundData<Id, Timer, Incoming, Outgoing> {
    /// Local voter id (if any).
    pub voter_id: Option<Id>,
    /// Timer before prevotes can be cast. This should be `start + 2T`,
    /// where T is the gossip time estimate.
    pub prevote_timer: Timer,
    /// Timer before precommits can be cast. This should be `start + 4T`,
    /// where T is the gossip time estimate.
    pub precommit_timer: Timer,
    /// Incoming messages.
    pub incoming: Incoming,
    /// Outgoing messages.
    pub outgoing: Outgoing,
}

} // verus!
