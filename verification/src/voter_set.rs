//! The voters of a round and what their votes weigh.

use vstd::laws_eq::{obeys_eq, obeys_eq_spec_properties};
use vstd::prelude::*;
use vstd::std_specs::cmp::PartialEqSpec;

verus! {

/// No two of the voters have the same id.
pub open spec fn distinct_ids<Id: PartialEq>(voters: Seq<(Id, u64)>) -> bool {
    forall|i: int, j: int|
        #![trigger voters[i], voters[j]]
        0 <= i < j < voters.len() ==> !voters[i].0.eq_spec(&voters[j].0)
}

/// What all the voters weigh together.
pub open spec fn total_weight<Id>(voters: Seq<(Id, u64)>) -> nat
    decreases voters.len(),
{
    if voters.len() == 0 {
        0
    } else {
        total_weight(voters.drop_last()) + voters.last().1 as nat
    }
}

/// `id` is the id of one of the voters.
pub open spec fn is_voter<Id: PartialEq>(voters: Seq<(Id, u64)>, id: Id) -> bool {
    exists|i: int| 0 <= i < voters.len() && (#[trigger] voters[i]).0.eq_spec(&id)
}

/// `id` occurs among the ids that came with some votes.
pub open spec fn has_voted<Id: PartialEq>(ids: Seq<Id>, id: Id) -> bool {
    exists|j: int| 0 <= j < ids.len() && id.eq_spec(&#[trigger] ids[j])
}

/// The weight of the voters that voted, each counted once however often it
/// voted.
pub open spec fn supporting_weight<Id: PartialEq>(voters: Seq<(Id, u64)>, ids: Seq<Id>) -> nat
    decreases voters.len(),
{
    if voters.len() == 0 {
        0
    } else {
        supporting_weight(voters.drop_last(), ids) + (if has_voted(ids, voters.last().0) {
            voters.last().1 as nat
        } else {
            0
        })
    }
}

/// The weight of the voters whose flag is set.
spec fn flagged_weight<Id>(voters: Seq<(Id, u64)>, flags: Seq<bool>) -> nat
    decreases voters.len(),
{
    if voters.len() == 0 {
        0
    } else {
        flagged_weight(voters.drop_last(), flags) + (if flags[voters.len() - 1] {
            voters.last().1 as nat
        } else {
            0
        })
    }
}

/// The tally says of each voter whether its id is among those that came with
/// the votes.
pub closed spec fn tallies<Id: PartialEq>(
    tally: Seq<bool>,
    voters: Seq<(Id, u64)>,
    ids: Seq<Id>,
) -> bool {
    &&& tally.len() == voters.len()
    &&& forall|k: int|
        0 <= k < voters.len() ==> #[trigger] tally[k] == has_voted(ids, voters[k].0)
}

/// The voters, with their weights, and the weight that their votes must reach
/// to decide anything.
pub struct VoterSet<Id: PartialEq> {
    voters: Vec<(Id, u64)>,
    threshold: u64,
}

impl<Id: PartialEq> VoterSet<Id> {
    /// Each voter's id and weight.
    pub closed spec fn voters(&self) -> Seq<(Id, u64)> {
        self.voters@
    }

    /// The weight that decides.
    pub closed spec fn spec_threshold(&self) -> u64 {
        self.threshold
    }

    #[verifier::type_invariant]
    closed spec fn consistent(self) -> bool {
        &&& total_weight(self.voters@) <= u64::MAX
        &&& obeys_eq::<Id>() ==> distinct_ids(self.voters@)
    }

    /// A voter set of the given voters. There is none if an id occurs twice, or
    /// if all the weights together do not fit in 64 bits.
    pub fn new(voters: Vec<(Id, u64)>, threshold: u64) -> (set: Option<VoterSet<Id>>)
        ensures
            obeys_eq::<Id>() ==> (set is Some <==> distinct_ids(voters@) && total_weight(voters@)
                <= u64::MAX),
            total_weight(voters@) > u64::MAX ==> set is None,
            set matches Some(s) ==> s.voters() == voters@ && s.spec_threshold() == threshold,
    {
        let mut total: u64 = 0;
        for i in 0..voters.len()
            invariant
                total == total_weight(voters@.take(i as int)),
                obeys_eq::<Id>() ==> distinct_ids(voters@.take(i as int)),
        {
            proof {
                reveal(obeys_eq_spec_properties);
                assert(voters@.take(i + 1).drop_last() =~= voters@.take(i as int));
                lemma_prefix_weighs_less(voters@, i + 1);
            }
            for j in 0..i
                invariant
                    i < voters.len(),
                    obeys_eq::<Id>() ==> forall|k: int|
                        0 <= k < j ==> !(#[trigger] voters@[k]).0.eq_spec(&voters@[i as int].0),
            {
                if voters[j].0 == voters[i].0 {
                    return None;
                }
            }
            match total.checked_add(voters[i].1) {
                Some(sum) => {
                    total = sum;
                },
                None => {
                    return None;
                },
            }
        }
        assert(voters@.take(voters.len() as int) =~= voters@);
        Some(VoterSet { voters, threshold })
    }

    /// Where the voter of this id stands in the set.
    fn position(&self, id: &Id) -> (position: Option<usize>)
        ensures
            position matches Some(p) ==> p < self.voters().len(),
            obeys_eq::<Id>() ==> {
                &&& position is Some <==> is_voter(self.voters(), *id)
                &&& position matches Some(p) ==> self.voters()[p as int].0.eq_spec(id)
            },
    {
        for i in 0..self.voters.len()
            invariant
                obeys_eq::<Id>() ==> forall|k: int|
                    0 <= k < i ==> !(#[trigger] self.voters@[k]).0.eq_spec(id),
        {
            if self.voters[i].0 == *id {
                return Some(i);
            }
        }
        None
    }

    /// Each voter's id and weight.
    pub fn weights(&self) -> (weights: &Vec<(Id, u64)>)
        ensures
            weights@ == self.voters(),
    {
        &self.voters
    }

    /// Whether this is the id of one of the voters.
    pub fn contains(&self, id: &Id) -> (found: bool)
        ensures
            obeys_eq::<Id>() ==> found == is_voter(self.voters(), *id),
    {
        self.position(id).is_some()
    }

    /// A tally in which nobody has voted yet.
    pub(crate) fn empty_tally(&self) -> (tally: Vec<bool>)
        ensures
            tally@.len() == self.voters().len(),
            tallies(tally@, self.voters(), Seq::empty()),
    {
        let mut tally: Vec<bool> = Vec::new();
        for i in 0..self.voters.len()
            invariant
                tally@.len() == i,
                forall|k: int| 0 <= k < i ==> !#[trigger] tally@[k],
        {
            tally.push(false);
        }
        tally
    }

    /// Enters a vote of the voter of this id, if there is such a voter.
    pub(crate) fn record_vote(&self, tally: &mut Vec<bool>, id: &Id) -> (found: bool)
        requires
            old(tally)@.len() == self.voters().len(),
        ensures
            final(tally)@.len() == self.voters().len(),
            obeys_eq::<Id>() ==> found == is_voter(self.voters(), *id),
            obeys_eq::<Id>() ==> forall|ids: Seq<Id>|
                #![trigger tallies(old(tally)@, self.voters(), ids)]
                tallies(old(tally)@, self.voters(), ids) ==> tallies(
                    final(tally)@,
                    self.voters(),
                    ids.push(*id),
                ),
    {
        let ghost before = tally@;
        let position = self.position(id);
        if let Some(p) = position {
            tally.set(p, true);
        }
        proof {
            use_type_invariant(self);
            if obeys_eq::<Id>() {
                assert forall|ids: Seq<Id>|
                    #![trigger tallies(before, self.voters(), ids)]
                    tallies(before, self.voters(), ids) implies tallies(
                    tally@,
                    self.voters(),
                    ids.push(*id),
                ) by {
                    lemma_tally_push(before, self.voters(), ids, *id, tally@, position);
                }
            }
        }
        position.is_some()
    }

    /// What the voters in the tally weigh together.
    pub(crate) fn weight_of(&self, tally: &Vec<bool>) -> (weight: u64)
        requires
            tally@.len() == self.voters().len(),
        ensures
            obeys_eq::<Id>() ==> forall|ids: Seq<Id>|
                #[trigger] tallies(tally@, self.voters(), ids) ==> weight == supporting_weight(
                    self.voters(),
                    ids,
                ),
    {
        let mut weight: u64 = 0;
        proof {
            use_type_invariant(self);
        }
        for i in 0..self.voters.len()
            invariant
                total_weight(self.voters@) <= u64::MAX,
                tally@.len() == self.voters@.len(),
                weight == flagged_weight(self.voters@.take(i as int), tally@),
        {
            proof {
                assert(self.voters@.take(i + 1).drop_last() =~= self.voters@.take(i as int));
                lemma_prefix_weighs_less(self.voters@, i + 1);
                lemma_flagged_weighs_less(self.voters@.take(i + 1), tally@);
                lemma_flagged_weighs_less(self.voters@.take(i as int), tally@);
            }
            if tally[i] {
                weight = weight + self.voters[i].1;
            }
        }
        proof {
            assert(self.voters@.take(self.voters.len() as int) =~= self.voters@);
            assert forall|ids: Seq<Id>| #[trigger]
                tallies(tally@, self.voters(), ids) implies weight == supporting_weight(
                self.voters(),
                ids,
            ) by {
                lemma_tally_weight(self.voters@, tally@, ids);
            }
        }
        weight
    }

    /// The weight that decides.
    pub fn threshold(&self) -> (threshold: u64)
        ensures
            threshold == self.spec_threshold(),
    {
        self.threshold
    }
}

/// The first voters weigh no more than all of them.
proof fn lemma_prefix_weighs_less<Id>(voters: Seq<(Id, u64)>, n: int)
    requires
        0 <= n <= voters.len(),
    ensures
        total_weight(voters.take(n)) <= total_weight(voters),
    decreases voters.len(),
{
    if n == voters.len() {
        assert(voters.take(n) =~= voters);
    } else {
        lemma_prefix_weighs_less(voters.drop_last(), n);
        assert(voters.drop_last().take(n) =~= voters.take(n));
    }
}

/// Those whose flag is set weigh no more than all of them.
proof fn lemma_flagged_weighs_less<Id>(voters: Seq<(Id, u64)>, flags: Seq<bool>)
    ensures
        flagged_weight(voters, flags) <= total_weight(voters),
    decreases voters.len(),
{
    if voters.len() > 0 {
        lemma_flagged_weighs_less(voters.drop_last(), flags);
    }
}

/// A tally of votes weighs what the voters that cast them weigh.
proof fn lemma_tally_weight<Id: PartialEq>(
    voters: Seq<(Id, u64)>,
    flags: Seq<bool>,
    ids: Seq<Id>,
)
    requires
        voters.len() <= flags.len(),
        forall|k: int|
            0 <= k < voters.len() ==> #[trigger] flags[k] == has_voted(ids, voters[k].0),
    ensures
        flagged_weight(voters, flags) == supporting_weight(voters, ids),
    decreases voters.len(),
{
    if voters.len() > 0 {
        assert(flags[voters.len() - 1] == has_voted(ids, voters.last().0));
        lemma_tally_weight(voters.drop_last(), flags, ids);
    }
}

/// Setting the flag of the one voter that cast a vote enters this vote.
proof fn lemma_tally_push<Id: PartialEq>(
    before: Seq<bool>,
    voters: Seq<(Id, u64)>,
    ids: Seq<Id>,
    id: Id,
    after: Seq<bool>,
    position: Option<usize>,
)
    requires
        obeys_eq::<Id>(),
        distinct_ids(voters),
        tallies(before, voters, ids),
        position is Some <==> is_voter(voters, id),
        match position {
            Some(p) => p < voters.len() && voters[p as int].0.eq_spec(&id) && after
                == before.update(p as int, true),
            None => after == before,
        },
    ensures
        tallies(after, voters, ids.push(id)),
{
    reveal(obeys_eq_spec_properties);
    assert forall|k: int| 0 <= k < voters.len() implies #[trigger] after[k] == has_voted(
        ids.push(id),
        voters[k].0,
    ) by {
        let own = voters[k].0;
        assert(before[k] == has_voted(ids, own));
        if has_voted(ids, own) {
            let j = choose|j: int| 0 <= j < ids.len() && own.eq_spec(&#[trigger] ids[j]);
            assert(ids.push(id)[j] == ids[j]);
        }
        if own.eq_spec(&id) {
            assert(ids.push(id)[ids.len() as int] == id);
            let p = position.unwrap() as int;
            assert(voters[p].0.eq_spec(&own));
            assert(p == k);
        }
        if has_voted(ids.push(id), own) {
            let j = choose|j: int|
                0 <= j < ids.push(id).len() && own.eq_spec(&#[trigger] ids.push(id)[j]);
            if j < ids.len() {
                assert(own.eq_spec(&ids[j]));
            }
        }
    }
}

} // verus!
