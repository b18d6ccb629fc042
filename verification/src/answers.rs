//! What comes of each operation, told by what goes in and what comes out.

use crate::action::{
    Action, BackgroundRoundCommit, CatchUpTask, CompletableRound, CompletedRound, CompletedTask,
    ConcludedRound, Event, FinalizeTask, RoundRestore, StartTask, VotingRoundStart,
};
use crate::block::{above, copy_block, is_above};
use crate::callback::Callback;
use crate::catch_up::{
    Support, catch_up_result, check_support, import_result, import_run, precommit_answer,
    precommit_ids, precommits_imported, prevote_answer, prevote_ids, prevotes_imported,
    validate_catch_up,
};
use crate::communication::{GlobalCommunicationIncoming, GlobalCommunicationOutgoing, RoundData};
use crate::environment::{
    Block, CatchUpIn, CommitIn, Environment, RoundStateIn, SignedPrecommitIn, SignedPrevoteIn,
};
use crate::laws::law_more_votes_weigh_no_less;
use crate::messages::{
    CatchUp, Commit, CompactCommit, Precommit, Prevote, SignedPrecommit, SignedPrevote, expands_to,
    same_catch_up, same_commit, same_compact_commit,
};
use crate::outcome::{CatchUpProcessingOutcome, CommitProcessingOutcome, CommitValidationResult};
use crate::voter::{
    Voter, VoterState, on_background_round_commit, on_block_finalized, on_commit_broadcast,
    on_completable_round, on_concluded_round, on_event, on_incoming_catch_up, on_incoming_commit,
    on_round_completed, on_rounds_started,
};
use crate::voter_set::{VoterSet, has_voted, is_voter, supporting_weight, total_weight};
use vstd::laws_cmp::obeys_cmp;
use vstd::laws_eq::obeys_eq;
use vstd::prelude::*;
use vstd::std_specs::cmp::PartialEqSpec;

verus! {

/// The heights of blocks that are numbered by integers are compared as integers:
/// no two different ones are equally high.
pub proof fn law_higher_number_is_above(a: u32, b: u32, c: u64, d: u64, e: u128, f: u128)
    ensures
        above(a, b) <==> a > b,
        above(c, d) <==> c > d,
        above(e, f) <==> e > f,
{
}

/// Of two heights it is found which one is the higher one, whatever they are.
pub proof fn law_height_is_compared<Number: Ord>(a: Number, b: Number, higher: bool)
    requires
        obeys_cmp::<Number>(),
        call_ensures(is_above::<Number>, (&a, &b), higher),
    ensures
        higher == above(a, b),
{
}

/// A copy of a block has the block's hash and its number.
pub proof fn law_copy_is_the_same_block<Hash: Clone, Number: Copy>(
    block: (Hash, Number),
    copy: (Hash, Number),
)
    requires
        call_ensures(copy_block::<Hash, Number>, (&block,), copy),
    ensures
        cloned(block.0, copy.0),
        copy.1 == block.1,
{
}

/// The id is that of one of the voters.
pub open spec fn is_known<Id: PartialEq>(voters: Seq<(Id, u64)>, id: Id) -> bool {
    exists|k: int| 0 <= k < voters.len() && (#[trigger] voters[k]).0.eq_spec(&id)
}

/// What the voters at these places weigh together.
pub open spec fn weight_at<Id>(voters: Seq<(Id, u64)>, places: Seq<int>) -> nat
    decreases places.len(),
{
    if places.len() == 0 {
        0
    } else {
        weight_at(voters, places.drop_last()) + voters[places.last()].1 as nat
    }
}

/// These are the places of the voters that the ids belong to, each place once.
pub open spec fn are_places_of<Id: PartialEq>(
    voters: Seq<(Id, u64)>,
    places: Seq<int>,
    ids: Seq<Id>,
) -> bool {
    &&& places.no_duplicates()
    &&& forall|k: int| #[trigger]
        places.contains(k) <==> {
            &&& 0 <= k < voters.len()
            &&& exists|i: int| 0 <= i < ids.len() && voters[k].0.eq_spec(&#[trigger] ids[i])
        }
}

/// A voter set is made of any voters with different ids whose weights fit in 64
/// bits together, with any threshold, and of no others. It holds what it was made
/// of.
pub proof fn law_voter_set_is_what_it_was_made_of<Id: PartialEq>(
    voters: Vec<(Id, u64)>,
    threshold: u64,
    places: Seq<int>,
    set: Option<VoterSet<Id>>,
)
    requires
        obeys_eq::<Id>(),
        call_ensures(VoterSet::<Id>::new, (voters, threshold), set),
        places == Seq::new(voters@.len(), |k: int| k),
    ensures
        set is Some <==> {
            &&& weight_at(voters@, places) <= u64::MAX
            &&& forall|i: int, j: int|
                #![trigger voters@[i], voters@[j]]
                0 <= i < j < voters@.len() ==> !voters@[i].0.eq_spec(&voters@[j].0)
        },
        set matches Some(s) ==> s.voters() == voters@ && s.spec_threshold() == threshold,
{
    lemma_all_places_weigh_all(voters@);
}

/// A voter set tells who is in it, what each voter weighs and what decides.
pub proof fn law_voter_set_tells_what_it_holds<Id: PartialEq>(
    set: VoterSet<Id>,
    id: Id,
    found: bool,
    weights: &Vec<(Id, u64)>,
    threshold: u64,
)
    requires
        obeys_eq::<Id>(),
        call_ensures(VoterSet::<Id>::contains, (&set, &id), found),
        call_ensures(VoterSet::<Id>::weights, (&set,), weights),
        call_ensures(VoterSet::<Id>::threshold, (&set,), threshold),
    ensures
        found <==> is_known(set.voters(), id),
        weights@ == set.voters(),
        threshold == set.spec_threshold(),
{
}

/// All the places together weigh what all the voters weigh.
proof fn lemma_all_places_weigh_all<Id>(voters: Seq<(Id, u64)>)
    ensures
        weight_at(voters, Seq::new(voters.len(), |k: int| k)) == total_weight(voters),
    decreases voters.len(),
{
    let places = Seq::new(voters.len(), |k: int| k);
    if voters.len() > 0 {
        let rest = voters.drop_last();
        lemma_all_places_weigh_all(rest);
        assert(places.drop_last() =~= Seq::new(rest.len(), |k: int| k));
        lemma_weight_of_earlier_places(voters, places.drop_last());
    }
}

/// Places that are all before the last voter weigh the same without this voter.
proof fn lemma_weight_of_earlier_places<Id>(voters: Seq<(Id, u64)>, places: Seq<int>)
    requires
        voters.len() > 0,
        forall|i: int| 0 <= i < places.len() ==> 0 <= #[trigger] places[i] < voters.len() - 1,
    ensures
        weight_at(voters, places) == weight_at(voters.drop_last(), places),
    decreases places.len(),
{
    if places.len() > 0 {
        lemma_weight_of_earlier_places(voters, places.drop_last());
    }
}

/// One place less weighs as much less as the voter at it weighs.
proof fn lemma_weight_without_place<Id>(voters: Seq<(Id, u64)>, places: Seq<int>, p: int)
    requires
        0 <= p < places.len(),
    ensures
        weight_at(voters, places) == weight_at(voters, places.remove(p))
            + voters[places[p]].1 as nat,
    decreases places.len(),
{
    let fewer = places.remove(p);
    if p == places.len() - 1 {
        assert(fewer =~= places.drop_last());
    } else {
        lemma_weight_without_place(voters, places.drop_last(), p);
        assert(fewer.drop_last() =~= places.drop_last().remove(p));
        assert(fewer.last() == places.last());
    }
}

/// The voters that voted weigh what those at their places weigh.
proof fn lemma_supporting_weight_by_places<Id: PartialEq>(
    voters: Seq<(Id, u64)>,
    places: Seq<int>,
    ids: Seq<Id>,
)
    requires
        are_places_of(voters, places, ids),
    ensures
        supporting_weight(voters, ids) == weight_at(voters, places),
    decreases voters.len(),
{
    if voters.len() == 0 {
        if places.len() > 0 {
            assert(places.contains(places[0]));
        }
    } else {
        let n = voters.len() - 1;
        let rest = voters.drop_last();
        assert(places.contains(n) <==> has_voted(ids, voters[n].0));
        let fewer = if places.contains(n) {
            places.remove(places.index_of(n))
        } else {
            places
        };
        let p = places.index_of(n);
        if places.contains(n) {
            assert(0 <= p < places.len() && places[p] == n);
            lemma_weight_without_place(voters, places, p);
        }
        assert forall|k: int| #[trigger] fewer.contains(k) <==> places.contains(k) && k != n by {
            if fewer.contains(k) {
                let i = choose|i: int| 0 <= i < fewer.len() && fewer[i] == k;
                if places.contains(n) && i >= p {
                    assert(places[i + 1] == k);
                } else {
                    assert(places[i] == k);
                }
            }
            if places.contains(k) && k != n && places.contains(n) {
                let i = choose|i: int| 0 <= i < places.len() && places[i] == k;
                if i < p {
                    assert(fewer[i] == k);
                } else {
                    assert(fewer[i - 1] == k);
                }
            }
        }
        assert(fewer.no_duplicates());
        assert forall|k: int| #[trigger] fewer.contains(k) <==> {
            &&& 0 <= k < rest.len()
            &&& exists|i: int| 0 <= i < ids.len() && rest[k].0.eq_spec(&#[trigger] ids[i])
        } by {
            assert(fewer.contains(k) <==> places.contains(k) && k != n);
            if 0 <= k < rest.len() {
                assert(rest[k] == voters[k]);
            }
        }
        assert forall|i: int| 0 <= i < fewer.len() implies 0 <= #[trigger] fewer[i] < n by {
            assert(fewer.contains(fewer[i]));
        }
        lemma_weight_of_earlier_places(voters, fewer);
        lemma_supporting_weight_by_places(rest, fewer, ids);
    }
}

/// Who cast the prevotes.
pub open spec fn prevoters<Hash, Number, Signature, Id>(
    catch_up: CatchUp<Hash, Number, Signature, Id>,
) -> Seq<Id> {
    Seq::new(catch_up.prevotes@.len(), |i: int| catch_up.prevotes@[i].id)
}

/// Who cast the precommits.
pub open spec fn precommitters<Hash, Number, Signature, Id>(
    catch_up: CatchUp<Hash, Number, Signature, Id>,
) -> Seq<Id> {
    Seq::new(catch_up.precommits@.len(), |i: int| catch_up.precommits@[i].id)
}

/// All the ids are those of voters.
pub open spec fn are_known<Id: PartialEq>(voters: Seq<(Id, u64)>, ids: Seq<Id>) -> bool {
    forall|i: int| 0 <= i < ids.len() ==> is_known(voters, #[trigger] ids[i])
}

/// The votes of both stages are cast by voters, and those who cast them weigh
/// enough in each stage for itself.
pub open spec fn is_carried<Hash, Number, Signature, Id: PartialEq>(
    catch_up: CatchUp<Hash, Number, Signature, Id>,
    voters: VoterSet<Id>,
    by_prevote: Seq<int>,
    by_precommit: Seq<int>,
) -> bool {
    &&& are_known(voters.voters(), prevoters(catch_up))
    &&& are_known(voters.voters(), precommitters(catch_up))
    &&& weight_at(voters.voters(), by_prevote) >= voters.spec_threshold()
    &&& weight_at(voters.voters(), by_precommit) >= voters.spec_threshold()
}

/// A catch up has enough support exactly if it is for a later round, if every vote
/// is of a voter, and if the voters that cast prevotes weigh enough and so do those
/// that cast precommits, each voter counted once and each stage for itself. How
/// much later the round is, how many votes there are, and by how much a threshold is
/// passed makes no difference.
pub proof fn law_support_is_weighed_in_each_stage<Hash, Number, Signature, Id: PartialEq>(
    catch_up: CatchUp<Hash, Number, Signature, Id>,
    voters: VoterSet<Id>,
    best_round_number: u64,
    by_prevote: Seq<int>,
    by_precommit: Seq<int>,
    support: Support,
)
    requires
        obeys_eq::<Id>(),
        call_ensures(
            check_support::<Hash, Number, Signature, Id>,
            (&catch_up, &voters, best_round_number),
            support,
        ),
        are_places_of(voters.voters(), by_prevote, prevoters(catch_up)),
        are_places_of(voters.voters(), by_precommit, precommitters(catch_up)),
    ensures
        support is OldRound <==> catch_up.round_number <= best_round_number,
        support is Enough <==> catch_up.round_number > best_round_number && is_carried(
            catch_up,
            voters,
            by_prevote,
            by_precommit,
        ),
        support matches Support::InvalidPrevote(i) ==> {
            &&& i < catch_up.prevotes@.len()
            &&& !is_known(voters.voters(), catch_up.prevotes@[i as int].id)
            &&& are_known(voters.voters(), prevoters(catch_up).take(i as int))
        },
        support matches Support::InvalidPrecommit(i) ==> {
            &&& i < catch_up.precommits@.len()
            &&& !is_known(voters.voters(), catch_up.precommits@[i as int].id)
            &&& are_known(voters.voters(), precommitters(catch_up).take(i as int))
            &&& are_known(voters.voters(), prevoters(catch_up))
        },
        support is MissingThreshold ==> {
            &&& are_known(voters.voters(), prevoters(catch_up))
            &&& are_known(voters.voters(), precommitters(catch_up))
        },
{
    lemma_who_voted(catch_up, voters, by_prevote, by_precommit);
}

/// The ids of the votes, and what the voters behind them weigh.
proof fn lemma_who_voted<Hash, Number, Signature, Id: PartialEq>(
    catch_up: CatchUp<Hash, Number, Signature, Id>,
    voters: VoterSet<Id>,
    by_prevote: Seq<int>,
    by_precommit: Seq<int>,
)
    requires
        are_places_of(voters.voters(), by_prevote, prevoters(catch_up)),
        are_places_of(voters.voters(), by_precommit, precommitters(catch_up)),
    ensures
        prevote_ids(catch_up.prevotes@) == prevoters(catch_up),
        precommit_ids(catch_up.precommits@) == precommitters(catch_up),
        supporting_weight(voters.voters(), prevoters(catch_up)) == weight_at(
            voters.voters(),
            by_prevote,
        ),
        supporting_weight(voters.voters(), precommitters(catch_up)) == weight_at(
            voters.voters(),
            by_precommit,
        ),
        forall|id: Id| #[trigger] is_known(voters.voters(), id) == is_voter(voters.voters(), id),
{
    assert(prevote_ids(catch_up.prevotes@) =~= prevoters(catch_up));
    assert(precommit_ids(catch_up.precommits@) =~= precommitters(catch_up));
    lemma_supporting_weight_by_places(voters.voters(), by_prevote, prevoters(catch_up));
    lemma_supporting_weight_by_places(voters.voters(), by_precommit, precommitters(catch_up));
}

/// The two stages are independent of each other: the prevotes of one supported
/// catch up and the precommits of another make a supported one, for any later round
/// and on any base.
pub proof fn law_supported_stages_can_be_mixed<Hash, Number, Signature, Id: PartialEq>(
    a: CatchUp<Hash, Number, Signature, Id>,
    b: CatchUp<Hash, Number, Signature, Id>,
    mixed: CatchUp<Hash, Number, Signature, Id>,
    voters: VoterSet<Id>,
    best_round_number: u64,
    support: Support,
)
    requires
        obeys_eq::<Id>(),
        call_ensures(
            check_support::<Hash, Number, Signature, Id>,
            (&a, &voters, best_round_number),
            Support::Enough,
        ),
        call_ensures(
            check_support::<Hash, Number, Signature, Id>,
            (&b, &voters, best_round_number),
            Support::Enough,
        ),
        mixed.round_number > best_round_number,
        mixed.prevotes@ == a.prevotes@,
        mixed.precommits@ == b.precommits@,
        call_ensures(
            check_support::<Hash, Number, Signature, Id>,
            (&mixed, &voters, best_round_number),
            support,
        ),
    ensures
        support is Enough,
{
}

/// Further votes of voters, in either stage, never cost a catch up its support.
pub proof fn law_further_votes_keep_support<Hash, Number, Signature, Id: PartialEq>(
    catch_up: CatchUp<Hash, Number, Signature, Id>,
    more: CatchUp<Hash, Number, Signature, Id>,
    prevotes: Seq<SignedPrevote<Hash, Number, Signature, Id>>,
    precommits: Seq<SignedPrecommit<Hash, Number, Signature, Id>>,
    voters: VoterSet<Id>,
    best_round_number: u64,
    support: Support,
)
    requires
        obeys_eq::<Id>(),
        call_ensures(
            check_support::<Hash, Number, Signature, Id>,
            (&catch_up, &voters, best_round_number),
            Support::Enough,
        ),
        more.round_number > best_round_number,
        more.prevotes@ == catch_up.prevotes@ + prevotes,
        more.precommits@ == catch_up.precommits@ + precommits,
        forall|i: int|
            0 <= i < prevotes.len() ==> is_known(voters.voters(), (#[trigger] prevotes[i]).id),
        forall|i: int|
            0 <= i < precommits.len() ==> is_known(voters.voters(), (#[trigger] precommits[i]).id),
        call_ensures(
            check_support::<Hash, Number, Signature, Id>,
            (&more, &voters, best_round_number),
            support,
        ),
    ensures
        support is Enough,
{
    let all = voters.voters();
    let p = prevote_ids(catch_up.prevotes@);
    let c = precommit_ids(catch_up.precommits@);
    assert(prevote_ids(more.prevotes@) =~= p + prevote_ids(prevotes));
    assert(precommit_ids(more.precommits@) =~= c + precommit_ids(precommits));
    law_more_votes_weigh_no_less(all, p, prevote_ids(prevotes));
    law_more_votes_weigh_no_less(all, c, precommit_ids(precommits));
    assert forall|i: int| 0 <= i < prevote_ids(more.prevotes@).len() implies is_voter(
        all,
        #[trigger] prevote_ids(more.prevotes@)[i],
    ) by {
        if i < p.len() {
            assert(is_voter(all, p[i]));
        } else {
            assert(is_known(all, prevotes[i - p.len()].id));
        }
    }
    assert forall|i: int| 0 <= i < precommit_ids(more.precommits@).len() implies is_voter(
        all,
        #[trigger] precommit_ids(more.precommits@)[i],
    ) by {
        if i < c.len() {
            assert(is_voter(all, c[i]));
        } else {
            assert(is_known(all, precommits[i - c.len()].id));
        }
    }
}

/// The round that comes of importing the votes one after the other. There is none
/// if one of them cannot be imported.
pub open spec fn imported<Round, Vote>(
    first: Round,
    votes: Seq<Vote>,
    import: spec_fn(Round, Vote) -> Option<Round>,
) -> Option<Round>
    decreases votes.len(),
{
    if votes.len() == 0 {
        Some(first)
    } else {
        match imported(first, votes.drop_last(), import) {
            Some(round) => import(round, votes.last()),
            None => None,
        }
    }
}

/// How an environment that always gives the same answers goes about the rounds of
/// catch ups.
pub struct Imports<E: Environment> {
    /// The round of a catch up, without votes.
    pub first: spec_fn(CatchUpIn<E>) -> E::Round,
    /// The round with one more prevote, if this can be imported.
    pub prevote: spec_fn(E::Round, SignedPrevoteIn<E>) -> Option<E::Round>,
    /// The round with one more precommit, if this can be imported.
    pub precommit: spec_fn(E::Round, SignedPrecommitIn<E>) -> Option<E::Round>,
    /// Whether the round is completable.
    pub completable: spec_fn(E::Round) -> bool,
}

/// The environment answers in this way.
pub open spec fn answers_by<E: Environment>(
    env: E,
    voters: VoterSet<E::Id>,
    imports: Imports<E>,
) -> bool {
    &&& forall|catch_up: CatchUpIn<E>, answer: E::Round| #[trigger]
        call_ensures(
            E::new_round,
            (
                &env,
                catch_up.round_number,
                &voters,
                (catch_up.base_hash, catch_up.base_number),
            ),
            answer,
        ) ==> answer == (imports.first)(catch_up)
    &&& forall|
        round: E::Round,
        prevote: Prevote<E::Hash, E::Number>,
        id: E::Id,
        signature: E::Signature,
        answer: Result<E::Round, E::Error>,
    | #[trigger]
        call_ensures(E::import_prevote, (&env, round, prevote, id, signature), answer) ==> (
        imports.prevote)(round, SignedPrevote { prevote, signature, id }) == match answer {
            Ok(next) => Some(next),
            Err(_) => None,
        }
    &&& forall|
        round: E::Round,
        precommit: Precommit<E::Hash, E::Number>,
        id: E::Id,
        signature: E::Signature,
        answer: Result<E::Round, E::Error>,
    | #[trigger]
        call_ensures(E::import_precommit, (&env, round, precommit, id, signature), answer) ==> (
        imports.precommit)(round, SignedPrecommit { precommit, signature, id }) == match answer {
            Ok(next) => Some(next),
            Err(_) => None,
        }
    &&& forall|round: E::Round, state: RoundStateIn<E>| #[trigger]
        call_ensures(E::round_state, (&env, &round), state) ==> state.completable == (
        imports.completable)(round)
}

/// The round that comes of a catch up: all its prevotes and then all its precommits
/// are imported in their order, and the round is completable in the end.
pub open spec fn caught_up_round<E: Environment>(
    imports: Imports<E>,
    catch_up: CatchUpIn<E>,
) -> Option<E::Round> {
    match imported((imports.first)(catch_up), catch_up.prevotes@, imports.prevote) {
        Some(prevoted) => match imported(prevoted, catch_up.precommits@, imports.precommit) {
            Some(round) => if (imports.completable)(round) {
                Some(round)
            } else {
                None
            },
            None => None,
        },
        None => None,
    }
}

/// Once a vote cannot be imported, nothing comes of the others.
proof fn lemma_refused_vote_stays<Round, Vote>(
    first: Round,
    votes: Seq<Vote>,
    import: spec_fn(Round, Vote) -> Option<Round>,
    n: int,
)
    requires
        0 <= n <= votes.len(),
        imported(first, votes.take(n), import) is None,
    ensures
        imported(first, votes, import) is None,
    decreases votes.len(),
{
    if n == votes.len() {
        assert(votes.take(n) =~= votes);
    } else {
        assert(votes.drop_last().take(n) =~= votes.take(n));
        lemma_refused_vote_stays(first, votes.drop_last(), import, n);
    }
}

/// The rounds on the way through the prevotes are those that come of importing
/// them.
proof fn lemma_prevotes_lead_to<E: Environment>(
    env: E,
    voters: VoterSet<E::Id>,
    imports: Imports<E>,
    votes: Seq<SignedPrevoteIn<E>>,
    rounds: Seq<E::Round>,
    n: int,
)
    requires
        answers_by(env, voters, imports),
        prevotes_imported(env, votes, rounds),
        0 <= n < rounds.len(),
    ensures
        imported(rounds[0], votes.take(n), imports.prevote) == Some(rounds[n]),
    decreases n,
{
    if n > 0 {
        lemma_prevotes_lead_to(env, voters, imports, votes, rounds, n - 1);
        assert(votes.take(n).drop_last() =~= votes.take(n - 1));
        let vote = votes[n - 1];
        assert(prevote_answer(env, rounds[n - 1], vote, Ok(rounds[n])));
        assert(vote == SignedPrevote {
            prevote: vote.prevote,
            signature: vote.signature,
            id: vote.id,
        });
    }
}

/// The rounds on the way through the precommits are those that come of importing
/// them.
proof fn lemma_precommits_lead_to<E: Environment>(
    env: E,
    voters: VoterSet<E::Id>,
    imports: Imports<E>,
    votes: Seq<SignedPrecommitIn<E>>,
    rounds: Seq<E::Round>,
    n: int,
)
    requires
        answers_by(env, voters, imports),
        precommits_imported(env, votes, rounds),
        0 <= n < rounds.len(),
    ensures
        imported(rounds[0], votes.take(n), imports.precommit) == Some(rounds[n]),
    decreases n,
{
    if n > 0 {
        lemma_precommits_lead_to(env, voters, imports, votes, rounds, n - 1);
        assert(votes.take(n).drop_last() =~= votes.take(n - 1));
        let vote = votes[n - 1];
        assert(precommit_answer(env, rounds[n - 1], vote, Ok(rounds[n])));
        assert(vote == SignedPrecommit {
            precommit: vote.precommit,
            signature: vote.signature,
            id: vote.id,
        });
    }
}

/// An import that has gone one way leads to the round of the catch up.
proof fn lemma_import_leads_to_round<E: Environment>(
    env: E,
    voters: VoterSet<E::Id>,
    imports: Imports<E>,
    catch_up: CatchUpIn<E>,
    prevoted: Seq<E::Round>,
    precommitted: Seq<E::Round>,
    result: Option<E::Round>,
)
    requires
        answers_by(env, voters, imports),
        import_run(env, voters, catch_up, prevoted, precommitted, result),
    ensures
        result == caught_up_round(imports, catch_up),
{
    let prevotes = catch_up.prevotes@;
    let precommits = catch_up.precommits@;
    let p = prevoted.len() - 1;
    let c = precommitted.len() - 1;
    assert(prevoted[0] == (imports.first)(catch_up));
    lemma_prevotes_lead_to(env, voters, imports, prevotes, prevoted, p);
    lemma_precommits_lead_to(env, voters, imports, precommits, precommitted, c);
    if p < prevotes.len() {
        let vote = prevotes[p];
        assert(vote == SignedPrevote {
            prevote: vote.prevote,
            signature: vote.signature,
            id: vote.id,
        });
        assert(prevotes.take(p + 1).drop_last() =~= prevotes.take(p));
        lemma_refused_vote_stays(prevoted[0], prevotes, imports.prevote, p + 1);
    } else {
        assert(prevotes.take(p) =~= prevotes);
        if c < precommits.len() {
            let vote = precommits[c];
            assert(vote == SignedPrecommit {
                precommit: vote.precommit,
                signature: vote.signature,
                id: vote.id,
            });
            assert(precommits.take(c + 1).drop_last() =~= precommits.take(c));
            lemma_refused_vote_stays(precommitted[0], precommits, imports.precommit, c + 1);
        } else {
            assert(precommits.take(c) =~= precommits);
        }
    }
}

/// Whether and which round comes of a catch up: it must be for a later round,
/// carried by the voters in each stage, and then it is the round with all the votes
/// imported, if they all can be and complete it.
pub proof fn law_valid_catch_up_is_its_round<E: Environment>(
    catch_up: CatchUpIn<E>,
    env: E,
    voters: VoterSet<E::Id>,
    best_round_number: u64,
    imports: Imports<E>,
    by_prevote: Seq<int>,
    by_precommit: Seq<int>,
    result: Option<E::Round>,
)
    requires
        obeys_eq::<E::Id>(),
        answers_by(env, voters, imports),
        are_places_of(voters.voters(), by_prevote, prevoters(catch_up)),
        are_places_of(voters.voters(), by_precommit, precommitters(catch_up)),
        call_ensures(
            validate_catch_up::<E>,
            (catch_up, &env, &voters, best_round_number),
            result,
        ),
    ensures
        result == if catch_up.round_number > best_round_number && is_carried(
            catch_up,
            voters,
            by_prevote,
            by_precommit,
        ) {
            caught_up_round(imports, catch_up)
        } else {
            None
        },
{
    lemma_who_voted(catch_up, voters, by_prevote, by_precommit);
    if catch_up.round_number > best_round_number && is_carried(
        catch_up,
        voters,
        by_prevote,
        by_precommit,
    ) {
        lemma_imported_by(env, voters, imports, catch_up, result);
    }
}

/// Whatever way an import has gone, it leads to the round of the catch up.
proof fn lemma_imported_by<E: Environment>(
    env: E,
    voters: VoterSet<E::Id>,
    imports: Imports<E>,
    catch_up: CatchUpIn<E>,
    result: Option<E::Round>,
)
    requires
        answers_by(env, voters, imports),
        import_result(env, voters, catch_up, result),
    ensures
        result == caught_up_round(imports, catch_up),
{
    let (prevoted, precommitted) = choose|prevoted: Seq<E::Round>, precommitted: Seq<E::Round>|
        import_run(env, voters, catch_up, prevoted, precommitted, result);
    lemma_import_leads_to_round(env, voters, imports, catch_up, prevoted, precommitted, result);
}

/// Only a catch up that is not for a later round than the current one is useless,
/// and every such one is. Any other is reported as bad, or its own round is taken up
/// with its own callback.
pub proof fn law_only_old_catch_up_is_useless<E: Environment>(
    voter: Voter<E>,
    catch_up: CatchUpIn<E>,
    callback: Callback<E::CatchUpCallback>,
    action: Action<E>,
)
    requires
        call_ensures(
            Voter::<E>::handle_incoming_catch_up_message,
            (&voter, catch_up, callback),
            action,
        ),
    ensures
        match action {
            Action::ReportCatchUp {
                outcome: CatchUpProcessingOutcome::Useless,
                callback: told,
            } => {
                &&& catch_up.round_number <= voter@.current_round_number
                &&& told == callback
            },
            Action::ReportCatchUp { outcome: CatchUpProcessingOutcome::Bad, callback: told } => {
                &&& catch_up.round_number > voter@.current_round_number
                &&& told == callback
            },
            Action::FetchRoundData(task) => {
                &&& catch_up.round_number > voter@.current_round_number
                &&& task.round_number == catch_up.round_number
                &&& task.callback == callback
            },
            _ => false,
        },
{
}

/// A catch up for any later round, however much later, is taken up if it is carried
/// by the voters in each stage and its votes can be imported and complete its round,
/// and is bad if not.
pub proof fn law_later_catch_up_is_taken_up_or_bad<E: Environment>(
    voter: Voter<E>,
    catch_up: CatchUpIn<E>,
    callback: Callback<E::CatchUpCallback>,
    imports: Imports<E>,
    by_prevote: Seq<int>,
    by_precommit: Seq<int>,
    action: Action<E>,
)
    requires
        obeys_eq::<E::Id>(),
        answers_by(voter@.environment, voter@.voters, imports),
        are_places_of(voter@.voters.voters(), by_prevote, prevoters(catch_up)),
        are_places_of(voter@.voters.voters(), by_precommit, precommitters(catch_up)),
        catch_up.round_number > voter@.current_round_number,
        call_ensures(
            Voter::<E>::handle_incoming_catch_up_message,
            (&voter, catch_up, callback),
            action,
        ),
    ensures
        is_carried(catch_up, voter@.voters, by_prevote, by_precommit) ==> match caught_up_round(
            imports,
            catch_up,
        ) {
            Some(round) => action == Action::<E>::FetchRoundData(
                CatchUpTask { round_number: catch_up.round_number, round, callback },
            ),
            None => action == (Action::<E>::ReportCatchUp {
                outcome: CatchUpProcessingOutcome::Bad,
                callback,
            }),
        },
        !is_carried(catch_up, voter@.voters, by_prevote, by_precommit) ==> action == (Action::<
            E,
        >::ReportCatchUp { outcome: CatchUpProcessingOutcome::Bad, callback }),
{
    lemma_who_voted(catch_up, voter@.voters, by_prevote, by_precommit);
    let result = choose|result: Option<E::Round>|
        {
            &&& #[trigger] catch_up_result(
                voter@.environment,
                voter@.voters,
                catch_up,
                voter@.current_round_number,
                result,
            )
            &&& match result {
                Some(round) => action == Action::<E>::FetchRoundData(
                    CatchUpTask { round_number: catch_up.round_number, round, callback },
                ),
                None => action == (Action::<E>::ReportCatchUp {
                    outcome: CatchUpProcessingOutcome::Bad,
                    callback,
                }),
            }
        };
    if is_carried(catch_up, voter@.voters, by_prevote, by_precommit) {
        lemma_imported_by(voter@.environment, voter@.voters, imports, catch_up, result);
    }
}

/// A voter that starts where it last stopped is one round further on. It takes up
/// the last round again with the votes and the base that it was given, and votes in
/// the round after it on top of the best finalized block.
pub proof fn law_new_voter_starts_after_the_last_round<E: Environment>(
    environment: E,
    voters: VoterSet<E::Id>,
    last_round_number: u64,
    last_round_votes: Vec<E::SignedMessage>,
    last_round_base: Block<E>,
    best_finalized: Block<E>,
    voter: Voter<E>,
    restore: RoundRestore<E>,
    voting: VotingRoundStart<E>,
)
    requires
        call_ensures(
            Voter::<E>::new,
            (
                environment,
                voters,
                last_round_number,
                last_round_votes,
                last_round_base,
                best_finalized,
            ),
            (voter, restore, voting),
        ),
    ensures
        voter@.environment == environment,
        voter@.voters == voters,
        voter@.best_finalized == best_finalized,
        cloned(best_finalized.0, voter@.best_finalized_in_rounds.0),
        voter@.best_finalized_in_rounds.1 == best_finalized.1,
        voter@.current_round_number == last_round_number + 1,
        restore == (RoundRestore::<E> {
            number: last_round_number,
            base: last_round_base,
            votes: last_round_votes,
        }),
        voting.number == last_round_number + 1,
        cloned(best_finalized.0, voting.base.0),
        voting.base.1 == best_finalized.1,
        exists|hash: E::Hash|
            {
                &&& cloned(last_round_base.0, hash)
                &&& #[trigger] call_ensures(
                    E::genesis_state,
                    (&environment, (hash, last_round_base.1)),
                    voting.previous_state,
                )
            },
{
    let base = choose|base: Block<E>|
        {
            &&& cloned(last_round_base.0, base.0)
            &&& last_round_base.1 == base.1
            &&& #[trigger] call_ensures(
                E::genesis_state,
                (&environment, base),
                voting.previous_state,
            )
        };
    assert(base == (base.0, last_round_base.1));
}

/// A voter can be started after any round but the last one that can be numbered.
pub proof fn law_voter_can_be_started_after_any_round<E: Environment>(
    environment: E,
    voters: VoterSet<E::Id>,
    last_round_number: u64,
    last_round_votes: Vec<E::SignedMessage>,
    last_round_base: Block<E>,
    best_finalized: Block<E>,
)
    requires
        last_round_number < u64::MAX,
    ensures
        call_requires(
            Voter::<E>::new,
            (
                environment,
                voters,
                last_round_number,
                last_round_votes,
                last_round_base,
                best_finalized,
            ),
        ),
{
}

/// A voter tells what it knows.
pub proof fn law_voter_tells_what_it_knows<E: Environment>(
    voter: Voter<E>,
    environment: &E,
    voters: &VoterSet<E::Id>,
    best_finalized: &Block<E>,
    best_finalized_in_rounds: &Block<E>,
    current_round_number: u64,
)
    requires
        call_ensures(Voter::<E>::environment, (&voter,), environment),
        call_ensures(Voter::<E>::voters, (&voter,), voters),
        call_ensures(Voter::<E>::best_finalized, (&voter,), best_finalized),
        call_ensures(Voter::<E>::best_finalized_in_rounds, (&voter,), best_finalized_in_rounds),
        call_ensures(Voter::<E>::current_round_number, (&voter,), current_round_number),
    ensures
        voter@ == (VoterState::<E> {
            environment: *environment,
            voters: *voters,
            best_finalized: *best_finalized,
            best_finalized_in_rounds: *best_finalized_in_rounds,
            current_round_number,
        }),
{
}

/// The record is of this round: it holds its number, its base and its state as the
/// environment tells them, and the block that is finalized in this very state.
pub open spec fn is_record_of<E: Environment>(
    environment: E,
    round: E::Round,
    incoming: E::Incoming,
    record: CompletedRound<E>,
) -> bool {
    &&& record.round == round
    &&& record.incoming == incoming
    &&& call_ensures(E::round_base, (&environment, &round), record.base)
    &&& call_ensures(E::round_state, (&environment, &round), record.state)
    &&& record.state.finalized matches Some(block)
    &&& cloned(block.0, record.finalized.0)
    &&& record.finalized.1 == block.1
}

/// The end of the voting round always leads on, whatever block the round started
/// from and whatever its number: to the finalization of the block that the round
/// has finalized, with the round's own precommits, if this block is higher than the
/// best finalized one, and to the completion of the round if not. The round, the
/// votes that are still to come and what is known of the round are kept.
pub proof fn law_voting_round_is_finalized_or_completed<E: Environment>(
    voter: Voter<E>,
    given: CompletableRound<E>,
    action: Action<E>,
)
    requires
        obeys_cmp::<E::Number>(),
        call_ensures(Voter::<E>::handle_completable_round, (&voter, given), action),
    ensures
        match action {
            Action::FinalizeBlock {
                hash,
                number,
                round_number,
                commit,
                then: FinalizeTask::CompletableRound(round),
            } => {
                &&& is_record_of(voter@.environment, given.round, given.incoming, round)
                &&& call_ensures(
                    E::round_number,
                    (&voter@.environment, &given.round),
                    round.number,
                )
                &&& above(round.finalized.1, voter@.best_finalized.1)
                &&& cloned(round.finalized.0, hash)
                &&& number == round.finalized.1
                &&& round_number == round.number
                &&& cloned(round.finalized.0, commit.target_hash)
                &&& commit.target_number == round.finalized.1
                &&& call_ensures(
                    E::finalizing_precommits,
                    (&voter@.environment, &given.round),
                    Some(commit.precommits),
                )
            },
            Action::NoteCompleted(CompletedTask::CompletableRound(round)) => {
                &&& is_record_of(voter@.environment, given.round, given.incoming, round)
                &&& call_ensures(
                    E::round_number,
                    (&voter@.environment, &given.round),
                    round.number,
                )
                &&& !above(round.finalized.1, voter@.best_finalized.1)
            },
            _ => false,
        },
{
}

/// The end of any voting round that has finalized a block and knows the precommits
/// for it can be handled, and a catch up to any round that has finalized a block.
pub proof fn law_any_finalizing_round_can_be_handled<E: Environment, Timer, Outgoing>(
    voter: Voter<E>,
    given: CompletableRound<E>,
    task: CatchUpTask<E>,
    round_data: RoundData<E::Id, Timer, E::Incoming, Outgoing>,
)
    requires
        forall|round: E::Round, state: RoundStateIn<E>| #[trigger]
            call_ensures(E::round_state, (&voter@.environment, &round), state)
                ==> state.finalized is Some,
        forall|round: E::Round, precommits: Option<Vec<SignedPrecommitIn<E>>>| #[trigger]
            call_ensures(E::finalizing_precommits, (&voter@.environment, &round), precommits)
                ==> precommits is Some,
    ensures
        call_requires(Voter::<E>::handle_completable_round, (&voter, given)),
        call_requires(
            Voter::<E>::round_data_fetched::<Timer, Outgoing>,
            (&voter, task, round_data),
        ),
{
}

/// A round whose block is not higher than the best finalized one can be handled even
/// if nothing is known of the precommits for this block.
pub proof fn law_old_block_needs_no_precommits<E: Environment>(
    voter: Voter<E>,
    given: CompletableRound<E>,
    caught_up: CompletedRound<E>,
)
    requires
        obeys_cmp::<E::Number>(),
        forall|state: RoundStateIn<E>| #[trigger]
            call_ensures(E::round_state, (&voter@.environment, &given.round), state) ==> {
                &&& state.finalized matches Some(block)
                &&& !above(block.1, voter@.best_finalized.1)
            },
        caught_up.number < u64::MAX,
        !above(caught_up.finalized.1, voter@.best_finalized.1),
    ensures
        call_requires(Voter::<E>::handle_completable_round, (&voter, given)),
        forall|
            own: &mut Voter<E>,
            callback: Callback<E::CatchUpCallback>,
            outcome: Result<(), E::Error>,
        |
            *own == voter ==> #[trigger] call_requires(
                Voter::<E>::round_completed,
                (own, CompletedTask::CatchUp { round: caught_up, callback }, outcome),
            ),
{
}

/// The end of the background round always leads to its conclusion, with what the
/// environment tells of the round.
pub proof fn law_background_round_is_concluded<E: Environment>(
    voter: Voter<E>,
    given: ConcludedRound<E>,
    action: Action<E>,
    outcome: Result<(), E::Error>,
    result: Result<Action<E>, E::Error>,
)
    requires
        call_ensures(Voter::<E>::handle_concluded_round, (&voter, given), action),
        call_ensures(Voter::<E>::round_concluded, (&voter, outcome), result),
    ensures
        action matches Action::NoteConcluded(report) && {
            &&& report.round == given.round
            &&& call_ensures(
                E::round_number,
                (&voter@.environment, &given.round),
                report.number,
            )
            &&& call_ensures(E::round_base, (&voter@.environment, &given.round), report.base)
            &&& call_ensures(E::round_state, (&voter@.environment, &given.round), report.state)
        },
        match outcome {
            Ok(_) => result == Ok::<Action<E>, E::Error>(Action::Idle),
            Err(e) => result == Err::<Action<E>, E::Error>(e),
        },
{
}

/// A catch up that has been taken up leads to the completion of its own round, with
/// the number of the catch up, its callback, the votes that are still to come and
/// what the environment tells of the round.
pub proof fn law_caught_up_round_is_completed<E: Environment, Timer, Outgoing>(
    voter: Voter<E>,
    task: CatchUpTask<E>,
    round_data: RoundData<E::Id, Timer, E::Incoming, Outgoing>,
    action: Action<E>,
)
    requires
        call_ensures(
            Voter::<E>::round_data_fetched::<Timer, Outgoing>,
            (&voter, task, round_data),
            action,
        ),
    ensures
        action matches Action::NoteCompleted(CompletedTask::CatchUp { round, callback }) && {
            &&& is_record_of(voter@.environment, task.round, round_data.incoming, round)
            &&& round.number == task.round_number
            &&& callback == task.callback
        },
{
}

/// What is due for a commit that was found to finalize a block or not. A higher
/// block than the best finalized one is to be finalized with this commit, and
/// nothing is reported before that. Good is only reported right away of a block that
/// is not higher, and of a commit for no block the counts are reported.
pub open spec fn is_due_for_commit<E: Environment>(
    voter: VoterState<E>,
    round_number: u64,
    commit: CommitIn<E>,
    found: CommitValidationResult<E::Hash, E::Number>,
    callback: Callback<E::CommitCallback>,
    action: Action<E>,
) -> bool {
    match found.finalized {
        Some((hash, number)) => if above(number, voter.best_finalized.1) {
            &&& action matches Action::FinalizeBlock {
                hash: asked_hash,
                number: asked_number,
                round_number: asked_round,
                commit: asked_commit,
                then: FinalizeTask::IncomingCommit { block, result, callback: told },
            }
            &&& cloned(hash, asked_hash)
            &&& asked_number == number
            &&& asked_round == round_number
            &&& asked_commit == commit
            &&& cloned(hash, block.0)
            &&& block.1 == number
            &&& result == found
            &&& told == callback
        } else {
            action == (Action::<E>::ReportCommit {
                outcome: CommitProcessingOutcome::Good,
                callback,
            })
        },
        None => action == (Action::<E>::ReportCommit {
            outcome: CommitProcessingOutcome::Bad {
                num_precommits: found.num_precommits,
                num_duplicated_precommits: found.num_duplicated_precommits,
                num_equivocations: found.num_equivocations,
                num_invalid_voters: found.num_invalid_voters,
            },
            callback,
        }),
    }
}

/// A commit whose validation finds a block that is higher than the best finalized
/// one is always answered with the finalization of this block, whatever the round
/// that the commit is for, and the outcome is only reported of any other.
pub proof fn law_higher_block_of_commit_is_finalized<E: Environment>(
    voter: Voter<E>,
    round_number: u64,
    commit: CommitIn<E>,
    found: CommitValidationResult<E::Hash, E::Number>,
    callback: Callback<E::CommitCallback>,
    action: Action<E>,
)
    requires
        obeys_cmp::<E::Number>(),
        call_ensures(
            Voter::<E>::commit_validated,
            (&voter, round_number, commit, found, callback),
            action,
        ),
    ensures
        is_due_for_commit(voter@, round_number, commit, found, callback, action),
{
}

/// A commit for the round before the current one is forwarded as it is, and no other
/// is. For any other round, earlier or later, the environment is asked about this
/// commit of the voter's own voters: its error is returned, and what it found is
/// acted on.
pub proof fn law_commit_is_forwarded_or_validated<E: Environment>(
    voter: Voter<E>,
    round_number: u64,
    commit: CommitIn<E>,
    callback: Callback<E::CommitCallback>,
    result: Result<Action<E>, E::Error>,
)
    requires
        obeys_cmp::<E::Number>(),
        call_ensures(
            Voter::<E>::handle_incoming_commit_message,
            (&voter, round_number, commit, callback),
            result,
        ),
    ensures
        round_number + 1 == voter@.current_round_number ==> result == Ok::<Action<E>, E::Error>(
            Action::ForwardCommit { commit, callback },
        ),
        round_number + 1 != voter@.current_round_number ==> exists|
            answer: Result<CommitValidationResult<E::Hash, E::Number>, E::Error>,
        |
            {
                &&& #[trigger] call_ensures(
                    E::validate_commit,
                    (&voter@.environment, &commit, &voter@.voters),
                    answer,
                )
                &&& match answer {
                    Ok(found) => {
                        &&& result is Ok
                        &&& is_due_for_commit(
                            voter@,
                            round_number,
                            commit,
                            found,
                            callback,
                            result->Ok_0,
                        )
                    },
                    Err(e) => result == Err::<Action<E>, E::Error>(e),
                }
            },
{
    if round_number + 1 != voter@.current_round_number {
        let answer = choose|answer: Result<CommitValidationResult<E::Hash, E::Number>, E::Error>|
            {
                &&& #[trigger] call_ensures(
                    E::validate_commit,
                    (&voter@.environment, &commit, &voter@.voters),
                    answer,
                )
                &&& match answer {
                    Ok(found) => result matches Ok(action) && is_due_for_commit(
                        voter@,
                        round_number,
                        commit,
                        found,
                        callback,
                        action,
                    ),
                    Err(e) => result == Err::<Action<E>, E::Error>(e),
                }
            };
        assert(call_ensures(
            E::validate_commit,
            (&voter@.environment, &commit, &voter@.voters),
            answer,
        ));
    }
}

/// The commit is the expanded compact one: for the same block, and with each vote
/// that has a signature and a voter at its place, in the same order.
pub open spec fn is_expanded<Hash, Number, Signature, Id>(
    compact: CompactCommit<Hash, Number, Signature, Id>,
    commit: Commit<Hash, Number, Signature, Id>,
) -> bool {
    let n = commit.precommits@.len();
    &&& commit.target_hash == compact.target_hash
    &&& commit.target_number == compact.target_number
    &&& n <= compact.precommits@.len() && n <= compact.auth_data@.len()
    &&& n == compact.precommits@.len() || n == compact.auth_data@.len()
    &&& forall|i: int|
        #![trigger commit.precommits@[i]]
        0 <= i < n ==> {
            &&& commit.precommits@[i].precommit == compact.precommits@[i]
            &&& commit.precommits@[i].signature == compact.auth_data@[i].0
            &&& commit.precommits@[i].id == compact.auth_data@[i].1
        }
}

/// A compact commit stands for its votes with the signatures and voters at their
/// places.
pub proof fn law_compact_commit_is_expanded<Hash, Number, Signature, Id>(
    compact: CompactCommit<Hash, Number, Signature, Id>,
    commit: Commit<Hash, Number, Signature, Id>,
)
    requires
        call_ensures(CompactCommit::<Hash, Number, Signature, Id>::into_commit, (compact,), commit),
    ensures
        is_expanded(compact, commit),
{
}

/// What is reported of a commit only says that it was good if it is for a block, and
/// all the counts if not.
pub proof fn law_outcome_of_commit<Hash, Number>(
    found: CommitValidationResult<Hash, Number>,
    outcome: CommitProcessingOutcome,
)
    requires
        call_ensures(
            <CommitProcessingOutcome as From<CommitValidationResult<Hash, Number>>>::from,
            (found,),
            outcome,
        ),
    ensures
        outcome is Good <==> found.finalized is Some,
        outcome matches CommitProcessingOutcome::Bad {
            num_precommits,
            num_duplicated_precommits,
            num_equivocations,
            num_invalid_voters,
        } ==> {
            &&& num_precommits == found.num_precommits
            &&& num_duplicated_precommits == found.num_duplicated_precommits
            &&& num_equivocations == found.num_equivocations
            &&& num_invalid_voters == found.num_invalid_voters
        },
{
}

/// `b` is the prevote `a`, up to cloning.
pub open spec fn is_prevote_copy<Hash: Clone, Number: Clone, Signature: Clone, Id: Clone>(
    a: SignedPrevote<Hash, Number, Signature, Id>,
    b: SignedPrevote<Hash, Number, Signature, Id>,
) -> bool {
    &&& cloned(a.prevote.target_hash, b.prevote.target_hash)
    &&& cloned(a.prevote.target_number, b.prevote.target_number)
    &&& cloned(a.signature, b.signature)
    &&& cloned(a.id, b.id)
}

/// `b` is the precommit `a`, up to cloning.
pub open spec fn is_precommit_copy<Hash: Clone, Number: Clone, Signature: Clone, Id: Clone>(
    a: SignedPrecommit<Hash, Number, Signature, Id>,
    b: SignedPrecommit<Hash, Number, Signature, Id>,
) -> bool {
    &&& cloned(a.precommit.target_hash, b.precommit.target_hash)
    &&& cloned(a.precommit.target_number, b.precommit.target_number)
    &&& cloned(a.signature, b.signature)
    &&& cloned(a.id, b.id)
}

/// A copy of a commit is for the same block and has all its votes, in their order.
pub proof fn law_copy_of_commit_is_complete<
    Hash: Clone,
    Number: Clone,
    Signature: Clone,
    Id: Clone,
>(commit: Commit<Hash, Number, Signature, Id>, copy: Commit<Hash, Number, Signature, Id>)
    requires
        call_ensures(
            <Commit<Hash, Number, Signature, Id> as Clone>::clone,
            (&commit,),
            copy,
        ),
    ensures
        cloned(commit.target_hash, copy.target_hash),
        cloned(commit.target_number, copy.target_number),
        copy.precommits@.len() == commit.precommits@.len(),
        forall|i: int|
            0 <= i < commit.precommits@.len() ==> is_precommit_copy(
                commit.precommits@[i],
                #[trigger] copy.precommits@[i],
            ),
{
}

/// A copy of a compact commit is for the same block and has all its votes, signatures
/// and voters, in their order.
pub proof fn law_copy_of_compact_commit_is_complete<
    Hash: Clone,
    Number: Clone,
    Signature: Clone,
    Id: Clone,
>(
    compact: CompactCommit<Hash, Number, Signature, Id>,
    copy: CompactCommit<Hash, Number, Signature, Id>,
)
    requires
        call_ensures(
            <CompactCommit<Hash, Number, Signature, Id> as Clone>::clone,
            (&compact,),
            copy,
        ),
    ensures
        cloned(compact.target_hash, copy.target_hash),
        cloned(compact.target_number, copy.target_number),
        copy.precommits@.len() == compact.precommits@.len(),
        forall|i: int|
            #![trigger copy.precommits@[i]]
            0 <= i < compact.precommits@.len() ==> {
                &&& cloned(compact.precommits@[i].target_hash, copy.precommits@[i].target_hash)
                &&& cloned(compact.precommits@[i].target_number, copy.precommits@[i].target_number)
            },
        copy.auth_data@.len() == compact.auth_data@.len(),
        forall|i: int|
            #![trigger copy.auth_data@[i]]
            0 <= i < compact.auth_data@.len() ==> {
                &&& cloned(compact.auth_data@[i].0, copy.auth_data@[i].0)
                &&& cloned(compact.auth_data@[i].1, copy.auth_data@[i].1)
            },
{
}

/// A copy of a catch up is for the same round on the same base and has all its votes,
/// in their order.
pub proof fn law_copy_of_catch_up_is_complete<
    Hash: Clone,
    Number: Clone,
    Signature: Clone,
    Id: Clone,
>(catch_up: CatchUp<Hash, Number, Signature, Id>, copy: CatchUp<Hash, Number, Signature, Id>)
    requires
        call_ensures(
            <CatchUp<Hash, Number, Signature, Id> as Clone>::clone,
            (&catch_up,),
            copy,
        ),
    ensures
        copy.round_number == catch_up.round_number,
        cloned(catch_up.base_hash, copy.base_hash),
        cloned(catch_up.base_number, copy.base_number),
        copy.prevotes@.len() == catch_up.prevotes@.len(),
        forall|i: int|
            0 <= i < catch_up.prevotes@.len() ==> is_prevote_copy(
                catch_up.prevotes@[i],
                #[trigger] copy.prevotes@[i],
            ),
        copy.precommits@.len() == catch_up.precommits@.len(),
        forall|i: int|
            0 <= i < catch_up.precommits@.len() ==> is_precommit_copy(
                catch_up.precommits@[i],
                #[trigger] copy.precommits@[i],
            ),
{
}

/// A copy of a message is of the same kind and for the same round, and holds a copy of
/// what the message holds. The callback stays with the message.
pub proof fn law_copy_of_message_is_complete<
    Hash: Clone,
    Number: Clone,
    Signature: Clone,
    Id: Clone,
    CommitCallback,
    CatchUpCallback,
>(
    incoming: GlobalCommunicationIncoming<
        Hash,
        Number,
        Signature,
        Id,
        CommitCallback,
        CatchUpCallback,
    >,
    incoming_copy: GlobalCommunicationIncoming<
        Hash,
        Number,
        Signature,
        Id,
        CommitCallback,
        CatchUpCallback,
    >,
    outgoing: GlobalCommunicationOutgoing<Hash, Number, Signature, Id>,
    outgoing_copy: GlobalCommunicationOutgoing<Hash, Number, Signature, Id>,
)
    requires
        call_ensures(
            <GlobalCommunicationIncoming<
                Hash,
                Number,
                Signature,
                Id,
                CommitCallback,
                CatchUpCallback,
            > as Clone>::clone,
            (&incoming,),
            incoming_copy,
        ),
        call_ensures(
            <GlobalCommunicationOutgoing<Hash, Number, Signature, Id> as Clone>::clone,
            (&outgoing,),
            outgoing_copy,
        ),
    ensures
        match (incoming, incoming_copy) {
            (
                GlobalCommunicationIncoming::Commit(round_number, compact, _),
                GlobalCommunicationIncoming::Commit(number, copy, callback),
            ) => {
                &&& number == round_number
                &&& same_compact_commit(compact, copy)
                &&& callback is Blank
            },
            (
                GlobalCommunicationIncoming::CatchUp(catch_up, _),
                GlobalCommunicationIncoming::CatchUp(copy, callback),
            ) => {
                &&& same_catch_up(catch_up, copy)
                &&& callback is Blank
            },
            _ => false,
        },
        match (outgoing, outgoing_copy) {
            (
                GlobalCommunicationOutgoing::Commit(round_number, commit),
                GlobalCommunicationOutgoing::Commit(number, copy),
            ) => {
                &&& number == round_number
                &&& same_commit(commit, copy)
            },
        },
{
}

/// A callback does its work on the outcome that it is told, if it has any work, and
/// keeps it. A copy has none. A callback can be told any outcome that its work can be
/// done on.
pub proof fn law_callback_does_its_work<O, F: FnMut(O)>(
    callback: Callback<F>,
    copy: Callback<F>,
    name: String,
)
    requires
        call_ensures(<Callback<F> as Clone>::clone, (&callback,), copy),
        call_ensures(Callback::<F>::debug_name, (&callback,), name),
    ensures
        copy is Blank,
        callback is Blank ==> name@ == "Callback::Blank"@,
        callback is Work ==> name@ == "Callback::Work"@,
        forall|told: &mut Callback<F>, o: O| #[trigger]
            call_ensures(Callback::<F>::run::<O>, (told, o), ()) ==> {
                &&& *final(told) == *told
                &&& *told matches Callback::Work(work) ==> work.ensures((o,), ())
            },
        forall|told: &mut Callback<F>, o: O|
            (*told matches Callback::Work(work) ==> work.requires((o,))) ==> #[trigger]
            call_requires(Callback::<F>::run::<O>, (told, o)),
{
}

/// A message is taken for what it is: a commit is expanded and handled as a commit,
/// and a catch up is handled as a catch up. Nothing is done to any other end, and a
/// catch up never ends in an error.
pub proof fn law_message_is_handled_as_what_it_is<E: Environment>(
    voter: Voter<E>,
    round_number: u64,
    compact: CompactCommit<E::Hash, E::Number, E::Signature, E::Id>,
    commit_callback: Callback<E::CommitCallback>,
    commit_result: Result<Action<E>, E::Error>,
    catch_up: CatchUpIn<E>,
    catch_up_callback: Callback<E::CatchUpCallback>,
    catch_up_result: Result<Action<E>, E::Error>,
)
    requires
        call_ensures(
            Voter::<E>::handle_incoming_global_message,
            (
                &voter,
                GlobalCommunicationIncoming::Commit(round_number, compact, commit_callback),
            ),
            commit_result,
        ),
        call_ensures(
            Voter::<E>::handle_incoming_global_message,
            (&voter, GlobalCommunicationIncoming::CatchUp(catch_up, catch_up_callback)),
            catch_up_result,
        ),
    ensures
        exists|commit: CommitIn<E>|
            {
                &&& is_expanded(compact, commit)
                &&& #[trigger] on_incoming_commit(
                    voter@,
                    round_number,
                    commit,
                    commit_callback,
                    commit_result,
                )
            },
        catch_up_result is Ok,
        on_incoming_catch_up(voter@, catch_up, catch_up_callback, catch_up_result->Ok_0),
{
    let commit = choose|commit: CommitIn<E>|
        {
            &&& #[trigger] expands_to(compact, commit)
            &&& on_incoming_commit(
                voter@,
                round_number,
                commit,
                commit_callback,
                commit_result,
            )
        };
    assert(is_expanded(compact, commit));
}

/// Every event is taken in by the one operation that is for it, and an error is
/// returned as it is. Only a commit of the background round changes anything at
/// once.
pub proof fn law_event_is_taken_in_as_what_it_is<E: Environment>(
    voter: VoterState<E>,
    event: Event<E>,
    after: VoterState<E>,
    result: Result<Action<E>, E::Error>,
)
    requires
        on_event(voter, event, after, result),
    ensures
        !(event is BackgroundRoundCommit) ==> after == voter,
        match event {
            Event::VotingRound(Ok(round)) => {
                result is Ok && on_completable_round(voter, round, result->Ok_0)
            },
            Event::BackgroundRound(Ok(round)) => {
                result is Ok && on_concluded_round(voter, round, result->Ok_0)
            },
            Event::BackgroundRoundCommit(commit) => {
                result is Ok && on_background_round_commit(voter, commit, after, result->Ok_0)
            },
            Event::GlobalMessage(Ok(GlobalCommunicationIncoming::CatchUp(catch_up, callback))) => {
                result is Ok && on_incoming_catch_up(voter, catch_up, callback, result->Ok_0)
            },
            Event::GlobalMessage(
                Ok(GlobalCommunicationIncoming::Commit(round_number, compact, callback)),
            ) => exists|commit: CommitIn<E>|
                {
                    &&& is_expanded(compact, commit)
                    &&& #[trigger] on_incoming_commit(
                        voter,
                        round_number,
                        commit,
                        callback,
                        result,
                    )
                },
            Event::VotingRound(Err(e)) => result == Err::<Action<E>, E::Error>(e),
            Event::BackgroundRound(Err(e)) => result == Err::<Action<E>, E::Error>(e),
            Event::GlobalMessage(Err(e)) => result == Err::<Action<E>, E::Error>(e),
        },
{
    if let Event::GlobalMessage(
        Ok(GlobalCommunicationIncoming::Commit(round_number, compact, callback)),
    ) = event {
        let commit = choose|commit: CommitIn<E>|
            {
                &&& #[trigger] expands_to(compact, commit)
                &&& on_incoming_commit(voter, round_number, commit, callback, result)
            };
        assert(is_expanded(compact, commit));
    }
}

/// The operations that change a voter do what the laws below say of them.
pub proof fn law_calls_change_the_voter_as_told<E: Environment>()
    ensures
        forall|voter: &mut Voter<E>, event: Event<E>, result: Result<Action<E>, E::Error>|
            #[trigger]
            call_ensures(Voter::<E>::run, (voter, event), result) ==> on_event(
                voter@,
                event,
                final(voter)@,
                result,
            ),
        forall|voter: &mut Voter<E>, commit: BackgroundRoundCommit<E>, action: Action<E>| #[trigger]
            call_ensures(
                Voter::<E>::handle_background_round_commit,
                (voter, commit),
                action,
            ) ==> on_background_round_commit(voter@, commit, final(voter)@, action),
        forall|voter: &mut Voter<E>, commit: BackgroundRoundCommit<E>, action: Action<E>| #[trigger]
            call_ensures(Voter::<E>::commit_broadcast, (voter, commit), action)
                ==> on_commit_broadcast(voter@, commit, final(voter)@, action),
        forall|
            voter: &mut Voter<E>,
            task: FinalizeTask<E>,
            outcome: Result<(), E::Error>,
            result: Result<Action<E>, E::Error>,
        | #[trigger]
            call_ensures(Voter::<E>::block_finalized, (voter, task, outcome), result)
                ==> on_block_finalized(voter@, task, outcome, final(voter)@, result),
        forall|
            voter: &mut Voter<E>,
            task: CompletedTask<E>,
            outcome: Result<(), E::Error>,
            result: Result<Action<E>, E::Error>,
        | #[trigger]
            call_ensures(Voter::<E>::round_completed, (voter, task, outcome), result)
                ==> on_round_completed(voter@, task, outcome, final(voter)@, result),
        forall|voter: &mut Voter<E>, task: StartTask<E>, action: Action<E>| #[trigger]
            call_ensures(Voter::<E>::rounds_started, (voter, task), action)
                ==> on_rounds_started(voter@, task, final(voter)@, action),
{
}

/// The operations that change a voter can be called at any time: with any event but
/// the end of a voting round, with any block that was finalized or not, and with any
/// completed round that was voted in, as long as there is a number for the round
/// after it. In an environment whose rounds have finalized a block and know the
/// precommits for it, this holds of the end of a voting round and of a round that was
/// caught up on too.
pub proof fn law_voter_can_be_told_anything<E: Environment>(environment: E)
    requires
        forall|round: E::Round, state: RoundStateIn<E>| #[trigger]
            call_ensures(E::round_state, (&environment, &round), state) ==> state.finalized is Some,
        forall|round: E::Round, precommits: Option<Vec<SignedPrecommitIn<E>>>| #[trigger]
            call_ensures(E::finalizing_precommits, (&environment, &round), precommits)
                ==> precommits is Some,
    ensures
        forall|voter: &mut Voter<E>, event: Event<E>|
            !(event is VotingRound) || voter@.environment == environment ==> #[trigger]
            call_requires(Voter::<E>::run, (voter, event)),
        forall|voter: &mut Voter<E>, commit: BackgroundRoundCommit<E>| #[trigger]
            call_requires(Voter::<E>::handle_background_round_commit, (voter, commit)),
        forall|voter: &mut Voter<E>, commit: BackgroundRoundCommit<E>| #[trigger]
            call_requires(Voter::<E>::commit_broadcast, (voter, commit)),
        forall|voter: &mut Voter<E>, task: FinalizeTask<E>, outcome: Result<(), E::Error>|
            (task matches FinalizeTask::CatchUp { round, .. } ==> round.number < u64::MAX)
                ==> #[trigger] call_requires(Voter::<E>::block_finalized, (voter, task, outcome)),
        forall|voter: &mut Voter<E>, task: CompletedTask<E>, outcome: Result<(), E::Error>|
            (match task {
                CompletedTask::CompletableRound(round) => round.number < u64::MAX,
                CompletedTask::CatchUp { round, .. } => round.number < u64::MAX
                    && voter@.environment == environment,
            }) ==> #[trigger] call_requires(Voter::<E>::round_completed, (voter, task, outcome)),
        forall|voter: &mut Voter<E>, task: StartTask<E>| #[trigger]
            call_requires(Voter::<E>::rounds_started, (voter, task)),
{
}

/// A commit of the background round that the other nodes are to hear of is always
/// sent to them first, under its round number and with all its votes, whatever the
/// height of its block. Nothing else is done with it before that.
pub proof fn law_commit_to_broadcast_is_sent<E: Environment>(
    voter: VoterState<E>,
    commit: BackgroundRoundCommit<E>,
    after: VoterState<E>,
    action: Action<E>,
)
    requires
        commit.broadcast,
        on_background_round_commit(voter, commit, after, action),
    ensures
        after == voter,
        action matches Action::Broadcast {
            message: GlobalCommunicationOutgoing::Commit(round_number, sent),
            then,
        } && {
            let own = commit.commit;
            &&& round_number == commit.round_number
            &&& then == commit
            &&& cloned(own.target_hash, sent.target_hash)
            &&& cloned(own.target_number, sent.target_number)
            &&& sent.precommits@.len() == own.precommits@.len()
            &&& forall|i: int|
                #![trigger sent.precommits@[i]]
                0 <= i < own.precommits@.len() ==> {
                    let a = own.precommits@[i];
                    let b = sent.precommits@[i];
                    &&& cloned(a.precommit.target_hash, b.precommit.target_hash)
                    &&& cloned(a.precommit.target_number, b.precommit.target_number)
                    &&& cloned(a.signature, b.signature)
                    &&& cloned(a.id, b.id)
                }
        },
{
}

/// `after` is `block`, up to cloning, if this is the higher one, and `before` if
/// not.
pub open spec fn is_higher_of<E: Environment>(
    before: Block<E>,
    block: Block<E>,
    after: Block<E>,
) -> bool {
    if above(block.1, before.1) {
        cloned(block.0, after.0) && after.1 == block.1
    } else {
        after == before
    }
}

/// What is due for a commit of the background round that nobody is left to hear of:
/// its block is finalized with this very commit if it is higher than the best
/// finalized one, and is accounted to the rounds in any case, but not before.
pub open spec fn is_due_for_background_commit<E: Environment>(
    voter: VoterState<E>,
    commit: BackgroundRoundCommit<E>,
    after: VoterState<E>,
    action: Action<E>,
) -> bool {
    let hash = commit.commit.target_hash;
    let height = commit.commit.target_number;
    if above(height, voter.best_finalized.1) {
        &&& after == voter
        &&& action matches Action::FinalizeBlock {
            hash: asked_hash,
            number,
            round_number,
            commit: asked_commit,
            then: FinalizeTask::BackgroundRoundCommit { block },
        }
        &&& cloned(hash, asked_hash)
        &&& number == height
        &&& round_number == commit.round_number
        &&& asked_commit == commit.commit
        &&& cloned(hash, block.0)
        &&& block.1 == height
    } else {
        &&& action == Action::<E>::Idle
        &&& after.environment == voter.environment
        &&& after.voters == voter.voters
        &&& after.best_finalized == voter.best_finalized
        &&& is_higher_of::<E>(
            voter.best_finalized_in_rounds,
            (hash, height),
            after.best_finalized_in_rounds,
        )
        &&& after.current_round_number == voter.current_round_number
    }
}

/// The block of a commit of the background round is finalized if it is higher than
/// the best finalized one, whether the commit has just been sent or is not to be
/// sent, and whatever its round number.
pub proof fn law_higher_block_of_background_commit_is_finalized<E: Environment>(
    voter: VoterState<E>,
    commit: BackgroundRoundCommit<E>,
    after: VoterState<E>,
    action: Action<E>,
)
    requires
        obeys_cmp::<E::Number>(),
        on_commit_broadcast(voter, commit, after, action) || (!commit.broadcast
            && on_background_round_commit(voter, commit, after, action)),
    ensures
        is_due_for_background_commit(voter, commit, after, action),
{
}

/// The rounds that are started are the completed one in the background and the one
/// after it to vote in, on top of the block that the completed one has finalized and
/// with the state it was left in.
pub open spec fn starts_after<E: Environment>(round: CompletedRound<E>, action: Action<E>) -> bool {
    &&& action matches Action::StartRounds { background, voting, then }
    &&& background.round == round.round
    &&& background.incoming == round.incoming
    &&& voting.number == round.number + 1
    &&& voting.base == round.finalized
    &&& voting.previous_state == round.state
    &&& match then {
        StartTask::CompletableRound { round_number } => round_number == round.number + 1,
        StartTask::CatchUp { round_number, .. } => round_number == round.number + 1,
    }
}

/// A block that has been finalized is always the best finalized one from then on,
/// and its task goes on: a round is completed, a commit is reported as good if it is
/// for a block, and the rounds after a catch up are started. A block that could not
/// be finalized changes nothing, and the error is returned.
pub proof fn law_finalized_block_is_the_best_one<E: Environment>(
    voter: VoterState<E>,
    task: FinalizeTask<E>,
    outcome: Result<(), E::Error>,
    after: VoterState<E>,
    result: Result<Action<E>, E::Error>,
)
    requires
        obeys_cmp::<E::Number>(),
        on_block_finalized(voter, task, outcome, after, result),
    ensures
        outcome matches Err(e) ==> after == voter && result == Err::<Action<E>, E::Error>(e),
        outcome is Ok ==> {
            &&& after.environment == voter.environment
            &&& after.voters == voter.voters
            &&& after.current_round_number == voter.current_round_number
            &&& result is Ok
            &&& match task {
                FinalizeTask::CompletableRound(round) => {
                    &&& cloned(round.finalized.0, after.best_finalized.0)
                    &&& after.best_finalized.1 == round.finalized.1
                    &&& after.best_finalized_in_rounds == voter.best_finalized_in_rounds
                    &&& result->Ok_0 == Action::NoteCompleted(
                        CompletedTask::<E>::CompletableRound(round),
                    )
                },
                FinalizeTask::BackgroundRoundCommit { block } => {
                    &&& after.best_finalized == block
                    &&& is_higher_of::<E>(
                        voter.best_finalized_in_rounds,
                        block,
                        after.best_finalized_in_rounds,
                    )
                    &&& result->Ok_0 == Action::<E>::Idle
                },
                FinalizeTask::IncomingCommit { block, result: found, callback } => {
                    &&& after.best_finalized == block
                    &&& after.best_finalized_in_rounds == voter.best_finalized_in_rounds
                    &&& result->Ok_0 matches Action::ReportCommit { outcome: told, callback: to }
                    &&& told is Good <==> found.finalized is Some
                    &&& told matches CommitProcessingOutcome::Bad {
                        num_precommits,
                        num_duplicated_precommits,
                        num_equivocations,
                        num_invalid_voters,
                    } ==> {
                        &&& num_precommits == found.num_precommits
                        &&& num_duplicated_precommits == found.num_duplicated_precommits
                        &&& num_equivocations == found.num_equivocations
                        &&& num_invalid_voters == found.num_invalid_voters
                    }
                    &&& to == callback
                },
                FinalizeTask::CatchUp { round, callback } => {
                    &&& cloned(round.finalized.0, after.best_finalized.0)
                    &&& after.best_finalized.1 == round.finalized.1
                    &&& after.best_finalized_in_rounds == voter.best_finalized_in_rounds
                    &&& starts_after(round, result->Ok_0)
                    &&& result->Ok_0->StartRounds_then matches StartTask::CatchUp {
                        callback: to,
                        ..
                    }
                    &&& to == callback
                },
            }
        },
{
}

/// A completed round always leads on, whatever its number: to the round after it, or
/// to the finalization of its block before that if the voter has caught up on it and
/// the block is higher than the best finalized one. The block of a round that was
/// voted in to the end is accounted to the rounds. A round that could not be noted as
/// completed changes nothing, and the error is returned.
pub proof fn law_completed_round_leads_on<E: Environment>(
    voter: VoterState<E>,
    task: CompletedTask<E>,
    outcome: Result<(), E::Error>,
    after: VoterState<E>,
    result: Result<Action<E>, E::Error>,
)
    requires
        obeys_cmp::<E::Number>(),
        on_round_completed(voter, task, outcome, after, result),
    ensures
        outcome matches Err(e) ==> after == voter && result == Err::<Action<E>, E::Error>(e),
        outcome is Ok ==> {
            &&& result is Ok
            &&& match task {
                CompletedTask::CompletableRound(round) => {
                    &&& after.environment == voter.environment
                    &&& after.voters == voter.voters
                    &&& after.best_finalized == voter.best_finalized
                    &&& is_higher_of::<E>(
                        voter.best_finalized_in_rounds,
                        round.finalized,
                        after.best_finalized_in_rounds,
                    )
                    &&& after.current_round_number == voter.current_round_number
                    &&& starts_after(round, result->Ok_0)
                    &&& result->Ok_0->StartRounds_then is CompletableRound
                },
                CompletedTask::CatchUp { round, callback } => {
                    &&& after == voter
                    &&& if above(round.finalized.1, voter.best_finalized.1) {
                        &&& result->Ok_0 matches Action::FinalizeBlock {
                            hash,
                            number,
                            round_number,
                            commit,
                            then: FinalizeTask::CatchUp { round: kept, callback: to },
                        }
                        &&& cloned(round.finalized.0, hash)
                        &&& number == round.finalized.1
                        &&& round_number == round.number
                        &&& cloned(round.finalized.0, commit.target_hash)
                        &&& commit.target_number == round.finalized.1
                        &&& call_ensures(
                            E::finalizing_precommits,
                            (&voter.environment, &round.round),
                            Some(commit.precommits),
                        )
                        &&& kept == round
                        &&& to == callback
                    } else {
                        &&& starts_after(round, result->Ok_0)
                        &&& result->Ok_0->StartRounds_then matches StartTask::CatchUp {
                            callback: to,
                            ..
                        }
                        &&& to == callback
                    }
                },
            }
        },
{
}

/// Once rounds have been started, the voter is in the round that it votes in, and
/// knows nothing else anew. A catch up is then reported as good, to its own callback,
/// and after any other round there is nothing to ask for.
pub proof fn law_voter_is_in_the_round_that_was_started<E: Environment>(
    voter: VoterState<E>,
    task: StartTask<E>,
    after: VoterState<E>,
    action: Action<E>,
)
    requires
        on_rounds_started(voter, task, after, action),
    ensures
        after.environment == voter.environment,
        after.voters == voter.voters,
        after.best_finalized == voter.best_finalized,
        after.best_finalized_in_rounds == voter.best_finalized_in_rounds,
        match task {
            StartTask::CompletableRound { round_number } => {
                &&& after.current_round_number == round_number
                &&& action == Action::<E>::Idle
            },
            StartTask::CatchUp { round_number, callback } => {
                &&& after.current_round_number == round_number
                &&& action == (Action::<E>::ReportCatchUp {
                    outcome: CatchUpProcessingOutcome::Good,
                    callback,
                })
            },
        },
{
}

} // verus!
