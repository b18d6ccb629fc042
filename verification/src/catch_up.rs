//! Which catch ups a voter accepts.

use crate::environment::{
    CatchUpIn, Environment, RoundStateIn, SignedPrecommitIn, SignedPrevoteIn,
};
use crate::messages::{CatchUp, SignedPrecommit, SignedPrevote};
use crate::voter_set::{VoterSet, is_voter, supporting_weight, tallies};
use vstd::laws_eq::obeys_eq;
use vstd::prelude::*;

verus! {

/// The voters that cast the prevotes, in order.
pub open spec fn prevote_ids<Hash, Number, Signature, Id>(
    votes: Seq<SignedPrevote<Hash, Number, Signature, Id>>,
) -> Seq<Id> {
    votes.map_values(|vote: SignedPrevote<Hash, Number, Signature, Id>| vote.id)
}

/// The voters that cast the precommits, in order.
pub open spec fn precommit_ids<Hash, Number, Signature, Id>(
    votes: Seq<SignedPrecommit<Hash, Number, Signature, Id>>,
) -> Seq<Id> {
    votes.map_values(|vote: SignedPrecommit<Hash, Number, Signature, Id>| vote.id)
}

/// All these ids are ids of voters.
pub open spec fn all_voters<Id: PartialEq>(voters: Seq<(Id, u64)>, ids: Seq<Id>) -> bool {
    forall|i: int| 0 <= i < ids.len() ==> is_voter(voters, #[trigger] ids[i])
}

/// Votes with these ids are all of voters, and of enough of them.
pub open spec fn decisive<Id: PartialEq>(voters: VoterSet<Id>, ids: Seq<Id>) -> bool {
    &&& all_voters(voters.voters(), ids)
    &&& supporting_weight(voters.voters(), ids) >= voters.spec_threshold()
}

/// The catch up is for a later round than the best one, and both its prevotes
/// and its precommits are decisive.
pub open spec fn has_support<Hash, Number, Signature, Id: PartialEq>(
    catch_up: CatchUp<Hash, Number, Signature, Id>,
    voters: VoterSet<Id>,
    best_round_number: u64,
) -> bool {
    &&& catch_up.round_number > best_round_number
    &&& decisive(voters, prevote_ids(catch_up.prevotes@))
    &&& decisive(voters, precommit_ids(catch_up.precommits@))
}

/// What the votes of a catch up amount to.
#[derive(Debug, Clone, Copy, PartialEq, Eq)]
pub enum Support {
    /// There is enough of it.
    Enough,
    /// The catch up is not for a later round.
    OldRound,
    /// The prevote at this place is the first that is of no voter.
    InvalidPrevote(usize),
    /// The precommit at this place is the first that is of no voter.
    InvalidPrecommit(usize),
    /// The prevotes or the precommits are of too few voters.
    MissingThreshold,
}

/// The id at this place is the first that is of no voter.
pub open spec fn first_invalid<Id: PartialEq>(
    voters: Seq<(Id, u64)>,
    ids: Seq<Id>,
    i: int,
) -> bool {
    &&& 0 <= i < ids.len()
    &&& !is_voter(voters, ids[i])
    &&& forall|j: int| 0 <= j < i ==> is_voter(voters, #[trigger] ids[j])
}

/// What the votes amount to: there is enough support or the first thing that is
/// missing, in the order of the round number, the prevotes' voters, the
/// precommits' voters and the weights.
pub open spec fn is_support<Hash, Number, Signature, Id: PartialEq>(
    catch_up: CatchUp<Hash, Number, Signature, Id>,
    voters: VoterSet<Id>,
    best_round_number: u64,
    support: Support,
) -> bool {
    let prevotes = prevote_ids(catch_up.prevotes@);
    let precommits = precommit_ids(catch_up.precommits@);
    &&& support is OldRound <==> catch_up.round_number <= best_round_number
    &&& match support {
        Support::Enough => has_support(catch_up, voters, best_round_number),
        Support::OldRound => true,
        Support::InvalidPrevote(i) => first_invalid(voters.voters(), prevotes, i as int),
        Support::InvalidPrecommit(i) => {
            &&& all_voters(voters.voters(), prevotes)
            &&& first_invalid(voters.voters(), precommits, i as int)
        },
        Support::MissingThreshold => {
            &&& all_voters(voters.voters(), prevotes)
            &&& all_voters(voters.voters(), precommits)
            &&& !(decisive(voters, prevotes) && decisive(voters, precommits))
        },
    }
}

/// What the votes of the catch up amount to.
pub fn check_support<Hash, Number, Signature, Id: PartialEq>(
    catch_up: &CatchUp<Hash, Number, Signature, Id>,
    voters: &VoterSet<Id>,
    best_round_number: u64,
) -> (support: Support)
    ensures
        obeys_eq::<Id>() ==> is_support(*catch_up, *voters, best_round_number, support),
        obeys_eq::<Id>() ==> (support is Enough <==> has_support(
            *catch_up,
            *voters,
            best_round_number,
        )),
        support is OldRound <==> catch_up.round_number <= best_round_number,
        support matches Support::InvalidPrevote(i) ==> i < catch_up.prevotes@.len(),
        support matches Support::InvalidPrecommit(i) ==> i < catch_up.precommits@.len(),
{
    if catch_up.round_number <= best_round_number {
        return Support::OldRound;
    }
    let ghost prevotes = prevote_ids(catch_up.prevotes@);
    let ghost precommits = precommit_ids(catch_up.precommits@);
    let mut prevoted = voters.empty_tally();
    let mut precommitted = voters.empty_tally();
    assert(prevotes.take(0) =~= Seq::empty());
    assert(precommits.take(0) =~= Seq::empty());
    for i in 0..catch_up.prevotes.len()
        invariant
            catch_up.round_number > best_round_number,
            prevotes == prevote_ids(catch_up.prevotes@),
            prevoted@.len() == voters.voters().len(),
            obeys_eq::<Id>() ==> tallies(prevoted@, voters.voters(), prevotes.take(i as int)),
            obeys_eq::<Id>() ==> forall|j: int|
                0 <= j < i ==> is_voter(voters.voters(), #[trigger] prevotes[j]),
    {
        let id = &catch_up.prevotes[i].id;
        assert(prevotes[i as int] == *id);
        assert(prevotes.take(i + 1) =~= prevotes.take(i as int).push(*id));
        if !voters.record_vote(&mut prevoted, id) {
            return Support::InvalidPrevote(i);
        }
    }
    for i in 0..catch_up.precommits.len()
        invariant
            catch_up.round_number > best_round_number,
            prevotes == prevote_ids(catch_up.prevotes@),
            obeys_eq::<Id>() ==> all_voters(voters.voters(), prevotes),
            precommits == precommit_ids(catch_up.precommits@),
            precommitted@.len() == voters.voters().len(),
            obeys_eq::<Id>() ==> tallies(
                precommitted@,
                voters.voters(),
                precommits.take(i as int),
            ),
            obeys_eq::<Id>() ==> forall|j: int|
                0 <= j < i ==> is_voter(voters.voters(), #[trigger] precommits[j]),
    {
        let id = &catch_up.precommits[i].id;
        assert(precommits[i as int] == *id);
        assert(precommits.take(i + 1) =~= precommits.take(i as int).push(*id));
        if !voters.record_vote(&mut precommitted, id) {
            return Support::InvalidPrecommit(i);
        }
    }
    assert(prevotes.take(prevotes.len() as int) =~= prevotes);
    assert(precommits.take(precommits.len() as int) =~= precommits);
    let pv: u64 = voters.weight_of(&prevoted);
    let pc: u64 = voters.weight_of(&precommitted);
    let threshold: u64 = voters.threshold();
    if pv < threshold || pc < threshold {
        return Support::MissingThreshold;
    }
    Support::Enough
}

/// This is what the environment answered when the prevote was to be imported
/// into the round.
pub open spec fn prevote_answer<E: Environment>(
    env: E,
    round: E::Round,
    vote: SignedPrevoteIn<E>,
    answer: Result<E::Round, E::Error>,
) -> bool {
    call_ensures(
        E::import_prevote,
        (&env, round, vote.prevote, vote.id, vote.signature),
        answer,
    )
}

/// This is what the environment answered when the precommit was to be imported
/// into the round.
pub open spec fn precommit_answer<E: Environment>(
    env: E,
    round: E::Round,
    vote: SignedPrecommitIn<E>,
    answer: Result<E::Round, E::Error>,
) -> bool {
    call_ensures(
        E::import_precommit,
        (&env, round, vote.precommit, vote.id, vote.signature),
        answer,
    )
}

/// This is what the environment answered when it was asked whether the round is
/// completable: it is read from the round's state.
pub open spec fn completable_answer<E: Environment>(
    env: E,
    round: E::Round,
    answer: bool,
) -> bool {
    exists|state: RoundStateIn<E>|
        {
            &&& #[trigger] call_ensures(E::round_state, (&env, &round), state)
            &&& state.completable == answer
        }
}

/// Each round but the first came of importing the next prevote into the round
/// before it.
pub open spec fn prevotes_imported<E: Environment>(
    env: E,
    votes: Seq<SignedPrevoteIn<E>>,
    rounds: Seq<E::Round>,
) -> bool {
    &&& 1 <= rounds.len() <= votes.len() + 1
    &&& forall|i: int|
        0 <= i < rounds.len() - 1 ==> prevote_answer(
            env,
            rounds[i],
            #[trigger] votes[i],
            Ok(rounds[i + 1]),
        )
}

/// Each round but the first came of importing the next precommit into the round
/// before it.
pub open spec fn precommits_imported<E: Environment>(
    env: E,
    votes: Seq<SignedPrecommitIn<E>>,
    rounds: Seq<E::Round>,
) -> bool {
    &&& 1 <= rounds.len() <= votes.len() + 1
    &&& forall|i: int|
        0 <= i < rounds.len() - 1 ==> precommit_answer(
            env,
            rounds[i],
            #[trigger] votes[i],
            Ok(rounds[i + 1]),
        )
}

/// One way for the import of a catch up to go: a new round, the rounds on the way
/// through the prevotes and then through the precommits, and what comes of it.
/// There is no round if a vote was refused or if the round is not completable in
/// the end.
pub open spec fn import_run<E: Environment>(
    env: E,
    voters: VoterSet<E::Id>,
    catch_up: CatchUpIn<E>,
    prevoted: Seq<E::Round>,
    precommitted: Seq<E::Round>,
    result: Option<E::Round>,
) -> bool {
    let base = (catch_up.base_hash, catch_up.base_number);
    let prevotes = catch_up.prevotes@;
    let precommits = catch_up.precommits@;
    &&& prevotes_imported(env, prevotes, prevoted)
    &&& precommits_imported(env, precommits, precommitted)
    &&& call_ensures(E::new_round, (&env, catch_up.round_number, &voters, base), prevoted[0])
    &&& precommitted[0] == prevoted.last()
    &&& if prevoted.len() <= prevotes.len() {
        &&& precommitted.len() == 1
        &&& result is None
        &&& exists|e: E::Error|
            #[trigger] prevote_answer(
                env,
                prevoted.last(),
                prevotes[prevoted.len() - 1],
                Err(e),
            )
    } else if precommitted.len() <= precommits.len() {
        &&& result is None
        &&& exists|e: E::Error|
            #[trigger] precommit_answer(
                env,
                precommitted.last(),
                precommits[precommitted.len() - 1],
                Err(e),
            )
    } else {
        match result {
            Some(round) => round == precommitted.last() && completable_answer(env, round, true),
            None => completable_answer(env, precommitted.last(), false),
        }
    }
}

/// The result of the import of a catch up, whatever the environment answered on
/// the way.
pub open spec fn import_result<E: Environment>(
    env: E,
    voters: VoterSet<E::Id>,
    catch_up: CatchUpIn<E>,
    result: Option<E::Round>,
) -> bool {
    exists|prevoted: Seq<E::Round>, precommitted: Seq<E::Round>|
        import_run(env, voters, catch_up, prevoted, precommitted, result)
}

/// A catch up that has support is imported, and one that has none comes to
/// nothing. Of ids whose equality is not lawful this only says that one of the two
/// holds, and the latter if the catch up is not for a later round.
pub open spec fn catch_up_result<E: Environment>(
    env: E,
    voters: VoterSet<E::Id>,
    catch_up: CatchUpIn<E>,
    best_round_number: u64,
    result: Option<E::Round>,
) -> bool {
    &&& catch_up.round_number <= best_round_number ==> result is None
    &&& result is None || import_result(env, voters, catch_up, result)
    &&& obeys_eq::<E::Id>() ==> if has_support(catch_up, voters, best_round_number) {
        import_result(env, voters, catch_up, result)
    } else {
        result is None
    }
}

/// The round of a catch up with all its votes, prevotes first. There is none if
/// the catch up is not for a later round than the best one, if a vote is of no
/// voter, if the prevotes or the precommits are of too few voters, if a vote
/// cannot be imported, or if the round is not completable in the end.
pub fn validate_catch_up<E: Environment>(
    catch_up: CatchUpIn<E>,
    env: &E,
    voters: &VoterSet<E::Id>,
    best_round_number: u64,
) -> (result: Option<E::Round>)
    ensures
        catch_up_result(*env, *voters, catch_up, best_round_number, result),
{
    match check_support(&catch_up, voters, best_round_number) {
        Support::Enough => {},
        _ => return None,
    }
    let CatchUp { round_number, prevotes, precommits, base_hash, base_number } = catch_up;
    let mut round = env.new_round(round_number, voters, (base_hash, base_number));
    let ghost mut prevoted: Seq<E::Round> = seq![round];
    for vote in it: prevotes
        invariant
            it.seq() == catch_up.prevotes@,
            prevoted.len() == it.index() + 1,
            prevotes_imported(*env, catch_up.prevotes@, prevoted),
            prevoted.last() == round,
            call_ensures(
                E::new_round,
                (env, catch_up.round_number, voters, (catch_up.base_hash, catch_up.base_number)),
                prevoted[0],
            ),
    {
        match env.import_prevote(round, vote.prevote, vote.id, vote.signature) {
            Ok(next) => {
                round = next;
                proof {
                    prevoted = prevoted.push(round);
                }
            },
            Err(e) => {
                proof {
                    let last = prevoted.last();
                    assert(prevote_answer(
                        *env,
                        last,
                        catch_up.prevotes@[prevoted.len() - 1],
                        Err(e),
                    ));
                    assert(import_run(*env, *voters, catch_up, prevoted, seq![last], None));
                }
                return None;
            },
        }
    }
    let ghost mut precommitted: Seq<E::Round> = seq![round];
    for vote in it: precommits
        invariant
            it.seq() == catch_up.precommits@,
            prevoted.len() == catch_up.prevotes@.len() + 1,
            prevotes_imported(*env, catch_up.prevotes@, prevoted),
            call_ensures(
                E::new_round,
                (env, catch_up.round_number, voters, (catch_up.base_hash, catch_up.base_number)),
                prevoted[0],
            ),
            precommitted.len() == it.index() + 1,
            precommits_imported(*env, catch_up.precommits@, precommitted),
            precommitted[0] == prevoted.last(),
            precommitted.last() == round,
    {
        match env.import_precommit(round, vote.precommit, vote.id, vote.signature) {
            Ok(next) => {
                round = next;
                proof {
                    precommitted = precommitted.push(round);
                }
            },
            Err(e) => {
                proof {
                    assert(precommit_answer(
                        *env,
                        precommitted.last(),
                        catch_up.precommits@[precommitted.len() - 1],
                        Err(e),
                    ));
                    assert(import_run(*env, *voters, catch_up, prevoted, precommitted, None));
                }
                return None;
            },
        }
    }
    let state = env.round_state(&round);
    assert(completable_answer(*env, round, state.completable));
    if !state.completable {
        assert(import_run(*env, *voters, catch_up, prevoted, precommitted, None));
        return None;
    }
    assert(import_run(*env, *voters, catch_up, prevoted, precommitted, Some(round)));
    Some(round)
}

} // verus!
