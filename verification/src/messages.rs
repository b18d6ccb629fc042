//! What voters send to each other.

use vstd::prelude::*;

verus! {

/// A vote for a block in the first stage of a round.
#[derive(Debug, Clone, PartialEq, Eq)]
pub struct Prevote<Hash, Number> {
    /// The hash of the block.
    pub target_hash: Hash,
    /// The number of the block.
    pub target_number: Number,
}

/// A vote for a block in the second stage of a round.
#[derive(Debug, Clone, PartialEq, Eq)]
pub struct Precommit<Hash, Number> {
    /// The hash of the block.
    pub target_hash: Hash,
    /// The number of the block.
    pub target_number: Number,
}

/// A prevote with the voter that cast it and this voter's signature.
#[derive(Debug, Clone, PartialEq, Eq)]
pub struct SignedPrevote<Hash, Number, Signature, Id> {
    /// The vote.
    pub prevote: Prevote<Hash, Number>,
    /// The voter's signature.
    pub signature: Signature,
    /// The voter.
    pub id: Id,
}

/// A precommit with the voter that cast it and this voter's signature.
#[derive(Debug, Clone, PartialEq, Eq)]
pub struct SignedPrecommit<Hash, Number, Signature, Id> {
    /// The vote.
    pub precommit: Precommit<Hash, Number>,
    /// The voter's signature.
    pub signature: Signature,
    /// The voter.
    pub id: Id,
}

/// The precommits that finalize a block.
#[derive(Debug, PartialEq, Eq)]
pub struct Commit<Hash, Number, Signature, Id> {
    /// The hash of the block.
    pub target_hash: Hash,
    /// The number of the block.
    pub target_number: Number,
    /// The precommits.
    pub precommits: Vec<SignedPrecommit<Hash, Number, Signature, Id>>,
}

/// A commit that holds the votes apart from the signatures and the voters.
#[derive(Debug, PartialEq, Eq)]
pub struct CompactCommit<Hash, Number, Signature, Id> {
    /// The hash of the block.
    pub target_hash: Hash,
    /// The number of the block.
    pub target_number: Number,
    /// The votes.
    pub precommits: Vec<Precommit<Hash, Number>>,
    /// For each vote the signature and the voter.
    pub auth_data: Vec<(Signature, Id)>,
}

/// The votes of a completed round, for a voter that is still in an earlier one.
#[derive(Debug, PartialEq, Eq)]
pub struct CatchUp<Hash, Number, Signature, Id> {
    /// The number of the round.
    pub round_number: u64,
    /// The round's prevotes.
    pub prevotes: Vec<SignedPrevote<Hash, Number, Signature, Id>>,
    /// The round's precommits.
    pub precommits: Vec<SignedPrecommit<Hash, Number, Signature, Id>>,
    /// The hash of the block that the round started from.
    pub base_hash: Hash,
    /// The number of the block that the round started from.
    pub base_number: Number,
}

/// `b` holds what `a` holds, up to cloning.
pub open spec fn same_prevote<Hash: Clone, Number: Clone, Signature: Clone, Id: Clone>(
    a: SignedPrevote<Hash, Number, Signature, Id>,
    b: SignedPrevote<Hash, Number, Signature, Id>,
) -> bool {
    &&& cloned(a.prevote.target_hash, b.prevote.target_hash)
    &&& cloned(a.prevote.target_number, b.prevote.target_number)
    &&& cloned(a.signature, b.signature)
    &&& cloned(a.id, b.id)
}

/// `b` holds what `a` holds, up to cloning.
pub open spec fn same_precommit<Hash: Clone, Number: Clone, Signature: Clone, Id: Clone>(
    a: SignedPrecommit<Hash, Number, Signature, Id>,
    b: SignedPrecommit<Hash, Number, Signature, Id>,
) -> bool {
    &&& cloned(a.precommit.target_hash, b.precommit.target_hash)
    &&& cloned(a.precommit.target_number, b.precommit.target_number)
    &&& cloned(a.signature, b.signature)
    &&& cloned(a.id, b.id)
}

/// The same prevotes in the same order, up to cloning.
pub open spec fn same_prevotes<Hash: Clone, Number: Clone, Signature: Clone, Id: Clone>(
    a: Seq<SignedPrevote<Hash, Number, Signature, Id>>,
    b: Seq<SignedPrevote<Hash, Number, Signature, Id>>,
) -> bool {
    &&& a.len() == b.len()
    &&& forall|i: int|
        #![trigger a[i]]
        #![trigger b[i]]
        0 <= i < a.len() ==> same_prevote(a[i], b[i])
}

/// The same precommits in the same order, up to cloning.
pub open spec fn same_precommits<Hash: Clone, Number: Clone, Signature: Clone, Id: Clone>(
    a: Seq<SignedPrecommit<Hash, Number, Signature, Id>>,
    b: Seq<SignedPrecommit<Hash, Number, Signature, Id>>,
) -> bool {
    &&& a.len() == b.len()
    &&& forall|i: int|
        #![trigger a[i]]
        #![trigger b[i]]
        0 <= i < a.len() ==> same_precommit(a[i], b[i])
}

/// `b` holds what `a` holds, up to cloning.
pub open spec fn same_commit<Hash: Clone, Number: Clone, Signature: Clone, Id: Clone>(
    a: Commit<Hash, Number, Signature, Id>,
    b: Commit<Hash, Number, Signature, Id>,
) -> bool {
    &&& cloned(a.target_hash, b.target_hash)
    &&& cloned(a.target_number, b.target_number)
    &&& same_precommits(a.precommits@, b.precommits@)
}

/// `b` holds what `a` holds, up to cloning.
pub open spec fn same_compact_commit<Hash: Clone, Number: Clone, Signature: Clone, Id: Clone>(
    a: CompactCommit<Hash, Number, Signature, Id>,
    b: CompactCommit<Hash, Number, Signature, Id>,
) -> bool {
    &&& cloned(a.target_hash, b.target_hash)
    &&& cloned(a.target_number, b.target_number)
    &&& a.precommits@.len() == b.precommits@.len()
    &&& forall|i: int|
        #![trigger a.precommits@[i]]
        #![trigger b.precommits@[i]]
        0 <= i < a.precommits@.len() ==> {
            &&& cloned(a.precommits@[i].target_hash, b.precommits@[i].target_hash)
            &&& cloned(a.precommits@[i].target_number, b.precommits@[i].target_number)
        }
    &&& a.auth_data@.len() == b.auth_data@.len()
    &&& forall|i: int|
        #![trigger a.auth_data@[i]]
        #![trigger b.auth_data@[i]]
        0 <= i < a.auth_data@.len() ==> {
            &&& cloned(a.auth_data@[i].0, b.auth_data@[i].0)
            &&& cloned(a.auth_data@[i].1, b.auth_data@[i].1)
        }
}

/// `b` holds what `a` holds, up to cloning.
pub open spec fn same_catch_up<Hash: Clone, Number: Clone, Signature: Clone, Id: Clone>(
    a: CatchUp<Hash, Number, Signature, Id>,
    b: CatchUp<Hash, Number, Signature, Id>,
) -> bool {
    &&& b.round_number == a.round_number
    &&& same_prevotes(a.prevotes@, b.prevotes@)
    &&& same_precommits(a.precommits@, b.precommits@)
    &&& cloned(a.base_hash, b.base_hash)
    &&& cloned(a.base_number, b.base_number)
}

/// A second copy of the prevotes.
fn copy_prevotes<Hash: Clone, Number: Clone, Signature: Clone, Id: Clone>(
    votes: &Vec<SignedPrevote<Hash, Number, Signature, Id>>,
) -> (copy: Vec<SignedPrevote<Hash, Number, Signature, Id>>)
    ensures
        same_prevotes(votes@, copy@),
{
    let mut copy: Vec<SignedPrevote<Hash, Number, Signature, Id>> = Vec::new();
    for i in 0..votes.len()
        invariant
            copy@.len() == i,
            forall|k: int| 0 <= k < i ==> same_prevote(votes@[k], #[trigger] copy@[k]),
    {
        let vote = &votes[i];
        copy.push(
            SignedPrevote {
                prevote: Prevote {
                    target_hash: vote.prevote.target_hash.clone(),
                    target_number: vote.prevote.target_number.clone(),
                },
                signature: vote.signature.clone(),
                id: vote.id.clone(),
            },
        );
    }
    copy
}

/// A second copy of the precommits.
fn copy_precommits<Hash: Clone, Number: Clone, Signature: Clone, Id: Clone>(
    votes: &Vec<SignedPrecommit<Hash, Number, Signature, Id>>,
) -> (copy: Vec<SignedPrecommit<Hash, Number, Signature, Id>>)
    ensures
        same_precommits(votes@, copy@),
{
    let mut copy: Vec<SignedPrecommit<Hash, Number, Signature, Id>> = Vec::new();
    for i in 0..votes.len()
        invariant
            copy@.len() == i,
            forall|k: int| 0 <= k < i ==> same_precommit(votes@[k], #[trigger] copy@[k]),
    {
        let vote = &votes[i];
        copy.push(
            SignedPrecommit {
                precommit: Precommit {
                    target_hash: vote.precommit.target_hash.clone(),
                    target_number: vote.precommit.target_number.clone(),
                },
                signature: vote.signature.clone(),
                id: vote.id.clone(),
            },
        );
    }
    copy
}

impl<Hash: Clone, Number: Clone, Signature: Clone, Id: Clone> Clone for Commit<
    Hash,
    Number,
    Signature,
    Id,
> {
    fn clone(&self) -> (copy: Commit<Hash, Number, Signature, Id>)
        ensures
            same_commit(*self, copy),
    {
        Commit {
            target_hash: self.target_hash.clone(),
            target_number: self.target_number.clone(),
            precommits: copy_precommits(&self.precommits),
        }
    }
}

impl<Hash: Clone, Number: Clone, Signature: Clone, Id: Clone> Clone for CompactCommit<
    Hash,
    Number,
    Signature,
    Id,
> {
    fn clone(&self) -> (copy: CompactCommit<Hash, Number, Signature, Id>)
        ensures
            same_compact_commit(*self, copy),
    {
        let mut precommits: Vec<Precommit<Hash, Number>> = Vec::new();
        for i in 0..self.precommits.len()
            invariant
                precommits@.len() == i,
                forall|k: int|
                    #![trigger precommits@[k]]
                    0 <= k < i ==> {
                        &&& cloned(self.precommits@[k].target_hash, precommits@[k].target_hash)
                        &&& cloned(self.precommits@[k].target_number, precommits@[k].target_number)
                    },
        {
            let vote = &self.precommits[i];
            precommits.push(
                Precommit {
                    target_hash: vote.target_hash.clone(),
                    target_number: vote.target_number.clone(),
                },
            );
        }
        let mut auth_data: Vec<(Signature, Id)> = Vec::new();
        for i in 0..self.auth_data.len()
            invariant
                auth_data@.len() == i,
                forall|k: int|
                    #![trigger auth_data@[k]]
                    0 <= k < i ==> {
                        &&& cloned(self.auth_data@[k].0, auth_data@[k].0)
                        &&& cloned(self.auth_data@[k].1, auth_data@[k].1)
                    },
        {
            let auth = &self.auth_data[i];
            auth_data.push((auth.0.clone(), auth.1.clone()));
        }
        CompactCommit {
            target_hash: self.target_hash.clone(),
            target_number: self.target_number.clone(),
            precommits,
            auth_data,
        }
    }
}

impl<Hash: Clone, Number: Clone, Signature: Clone, Id: Clone> Clone for CatchUp<
    Hash,
    Number,
    Signature,
    Id,
> {
    fn clone(&self) -> (copy: CatchUp<Hash, Number, Signature, Id>)
        ensures
            same_catch_up(*self, copy),
    {
        CatchUp {
            round_number: self.round_number,
            prevotes: copy_prevotes(&self.prevotes),
            precommits: copy_precommits(&self.precommits),
            base_hash: self.base_hash.clone(),
            base_number: self.base_number.clone(),
        }
    }
}

/// The commit that a compact one stands for: each vote goes with the signature
/// and the voter at its place. Votes or signatures that are left over are
/// dropped.
pub open spec fn expands_to<Hash, Number, Signature, Id>(
    compact: CompactCommit<Hash, Number, Signature, Id>,
    commit: Commit<Hash, Number, Signature, Id>,
) -> bool {
    &&& commit.target_hash == compact.target_hash
    &&& commit.target_number == compact.target_number
    &&& commit.precommits@.len() == (if compact.precommits@.len() <= compact.auth_data@.len() {
        compact.precommits@.len()
    } else {
        compact.auth_data@.len()
    })
    &&& forall|i: int|
        0 <= i < commit.precommits@.len() ==> #[trigger] commit.precommits@[i] == (
        SignedPrecommit {
            precommit: compact.precommits@[i],
            signature: compact.auth_data@[i].0,
            id: compact.auth_data@[i].1,
        })
}

impl<Hash, Number, Signature, Id> CompactCommit<Hash, Number, Signature, Id> {
    /// The commit that this one stands for.
    pub fn into_commit(self) -> (commit: Commit<Hash, Number, Signature, Id>)
        ensures
            expands_to(self, commit),
    {
        let CompactCommit { target_hash, target_number, precommits: votes, auth_data } = self;
        let ghost expected = votes@;
        let ghost auth = auth_data@;
        let mut stack: Vec<Precommit<Hash, Number>> = Vec::new();
        for vote in it: votes.into_iter().rev()
            invariant
                it.seq() == expected.reverse(),
                stack@ == expected.reverse().take(it.index()),
        {
            stack.push(vote);
        }
        assert(stack@ == expected.reverse());
        let mut precommits: Vec<SignedPrecommit<Hash, Number, Signature, Id>> = Vec::new();
        for (signature, id) in it: auth_data
            invariant
                it.seq() == auth,
                precommits@.len() == (if it.index() <= expected.len() {
                    it.index()
                } else {
                    expected.len() as int
                }),
                stack@ == expected.skip(precommits@.len() as int).reverse(),
                forall|i: int|
                    0 <= i < precommits@.len() ==> #[trigger] precommits@[i] == (SignedPrecommit {
                        precommit: expected[i],
                        signature: auth[i].0,
                        id: auth[i].1,
                    }),
        {
            if let Some(precommit) = stack.pop() {
                precommits.push(SignedPrecommit { precommit, signature, id });
            }
        }
        Commit { target_hash, target_number, precommits }
    }
}

} // verus!
