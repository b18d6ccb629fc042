//! What holds of a voter however long it runs, and of the votes it counts.

use crate::action::{
    Action, BackgroundRoundCommit, CompletedRound, CompletedTask, Event, FinalizeTask,
    OutgoingMessage, RoundRestore, StartTask, VotingRoundStart,
};
use crate::block::{
    above, lemma_above_asymmetric, lemma_above_of_not_below, lemma_not_below_transitive, raised,
    same_block,
};
use crate::callback::{Callback, was_run};
use crate::catch_up::{
    all_voters, catch_up_result, completable_answer, has_support, import_result, import_run,
    precommit_answer, precommit_ids, precommits_imported, prevote_answer, prevote_ids,
    prevotes_imported,
};
use crate::communication::GlobalCommunicationIncoming;
use crate::environment::{
    Block, CatchUpIn, CommitIn, Environment, RoundStateIn, SignedPrecommitIn, SignedPrevoteIn,
};
use crate::messages::CatchUp;
use crate::outcome::{CatchUpProcessingOutcome, CommitProcessingOutcome, CommitValidationResult};
use crate::voter::{
    VoterState, asks_to_finalize, asks_to_start_after_catch_up, completed_number, completed_round,
    is_for_background_round, on_background_round_commit, on_block_finalized, on_commit_broadcast,
    on_commit_validated, on_event, on_incoming_catch_up, on_incoming_commit, on_round_completed,
    on_round_data_fetched, on_rounds_started, on_start,
};
use crate::voter_set::{VoterSet, has_voted, supporting_weight, total_weight};
use vstd::laws_cmp::obeys_cmp;
use vstd::laws_eq::{obeys_eq, obeys_eq_spec_properties};
use vstd::prelude::*;
use vstd::std_specs::cmp::PartialEqSpec;

verus! {

/// What a voter knows, and what it asks for.
pub struct Moment<E: Environment> {
    pub voter: VoterState<E>,
    pub action: Action<E>,
}

/// The voter goes on after it has been given what it asked for, or takes in an
/// event if it had nothing to ask for.
pub open spec fn step<E: Environment>(before: Moment<E>, after: Moment<E>) -> bool {
    match before.action {
        Action::Idle => exists|event: Event<E>| #[trigger]
            on_event(before.voter, event, after.voter, Ok(after.action)),
        Action::Broadcast { then, .. } => on_commit_broadcast(
            before.voter,
            then,
            after.voter,
            after.action,
        ),
        Action::FinalizeBlock { then, .. } => on_block_finalized(
            before.voter,
            then,
            Ok(()),
            after.voter,
            Ok(after.action),
        ),
        Action::NoteCompleted(task) => on_round_completed(
            before.voter,
            task,
            Ok(()),
            after.voter,
            Ok(after.action),
        ),
        Action::FetchRoundData(task) => {
            &&& exists|incoming: E::Incoming| #[trigger]
                on_round_data_fetched(before.voter, task, incoming, after.action)
            &&& after.voter == before.voter
        },
        Action::StartRounds { then, .. } => on_rounds_started(
            before.voter,
            then,
            after.voter,
            after.action,
        ),
        Action::NoteConcluded(_)
        | Action::ForwardCommit { .. }
        | Action::ReportCommit { .. }
        | Action::ReportCatchUp { .. } => {
            &&& after.action == Action::<E>::Idle
            &&& after.voter == before.voter
        },
    }
}

/// The height of the block that a task is about.
pub open spec fn task_height<E: Environment>(task: FinalizeTask<E>) -> E::Number {
    match task {
        FinalizeTask::CompletableRound(round) => round.finalized.1,
        FinalizeTask::BackgroundRoundCommit { block } => block.1,
        FinalizeTask::IncomingCommit { block, .. } => block.1,
        FinalizeTask::CatchUp { round, .. } => round.finalized.1,
    }
}

/// What a voter asks for fits the blocks it knows of: only higher blocks are
/// finalized, and the block of a round that was voted in to the end is not higher
/// than the best one by the time the round is noted as completed.
pub open spec fn blocks_in_order<E: Environment>(moment: Moment<E>) -> bool {
    let voter = moment.voter;
    &&& !above(voter.best_finalized_in_rounds.1, voter.best_finalized.1)
    &&& match moment.action {
        Action::FinalizeBlock { number, then, .. } => {
            &&& above(number, voter.best_finalized.1)
            &&& task_height(then) == number
        },
        Action::NoteCompleted(CompletedTask::CompletableRound(round)) => !above(
            round.finalized.1,
            voter.best_finalized.1,
        ),
        _ => true,
    }
}

/// What a voter asks for fits the round it is in: the round that is voted in to
/// the end is this one, the round that concludes is the one before, and what is
/// caught up on or started is a later one.
pub open spec fn rounds_in_order<E: Environment>(moment: Moment<E>) -> bool {
    let current = moment.voter.current_round_number;
    match moment.action {
        Action::FinalizeBlock { then: FinalizeTask::CompletableRound(round), .. } => round.number
            == current,
        Action::FinalizeBlock { then: FinalizeTask::CatchUp { round, .. }, .. } => round.number
            > current,
        Action::NoteCompleted(CompletedTask::CompletableRound(round)) => round.number == current,
        Action::NoteCompleted(CompletedTask::CatchUp { round, .. }) => round.number > current,
        Action::NoteConcluded(report) => report.number + 1 == current,
        Action::FetchRoundData(task) => task.round_number > current,
        Action::StartRounds { voting, then, .. } => {
            &&& voting.number > current
            &&& match then {
                StartTask::CompletableRound { round_number } => round_number == voting.number,
                StartTask::CatchUp { round_number, .. } => round_number == voting.number,
            }
        },
        _ => true,
    }
}

/// The rounds that the voter is told have ended are those whose turn it is: the
/// voting round is the one that the voter is in, and the background round is the
/// one before.
pub open spec fn rounds_end_in_turn<E: Environment>(before: Moment<E>, after: Moment<E>) -> bool {
    let current = before.voter.current_round_number;
    before.action is Idle ==> match after.action {
        Action::FinalizeBlock { then: FinalizeTask::CompletableRound(round), .. } => round.number
            == current,
        Action::NoteCompleted(CompletedTask::CompletableRound(round)) => round.number == current,
        Action::NoteConcluded(report) => report.number + 1 == current,
        _ => true,
    }
}

/// The voter has the same environment and voters, and no lower blocks.
pub open spec fn not_below<E: Environment>(before: VoterState<E>, after: VoterState<E>) -> bool {
    &&& after.environment == before.environment
    &&& after.voters == before.voters
    &&& !above(before.best_finalized.1, after.best_finalized.1)
    &&& !above(before.best_finalized_in_rounds.1, after.best_finalized_in_rounds.1)
}

/// A step of a voter whose requests fit its blocks leaves them so, and takes the
/// voter to no lower block.
pub proof fn law_step_keeps_blocks_in_order<E: Environment>(before: Moment<E>, after: Moment<E>)
    requires
        obeys_cmp::<E::Number>(),
        blocks_in_order(before),
        step(before, after),
    ensures
        blocks_in_order(after),
        not_below(before.voter, after.voter),
{
    let best = before.voter.best_finalized.1;
    let in_rounds = before.voter.best_finalized_in_rounds.1;
    let new_best = after.voter.best_finalized.1;
    lemma_above_asymmetric(best, best);
    lemma_above_asymmetric(in_rounds, in_rounds);
    lemma_above_asymmetric(new_best, best);
    lemma_above_asymmetric(new_best, new_best);
    lemma_above_asymmetric(new_best, in_rounds);
    match before.action {
        Action::FinalizeBlock { then, .. } => {
            lemma_not_below_transitive(new_best, best, in_rounds);
        },
        Action::NoteCompleted(CompletedTask::CompletableRound(round)) => {
            lemma_above_asymmetric(round.finalized.1, in_rounds);
        },
        Action::Idle | Action::Broadcast { .. } => {
            lemma_above_asymmetric(after.voter.best_finalized_in_rounds.1, in_rounds);
        },
        _ => {},
    }
}

/// A step of a voter whose requests fit its round leaves them so, and takes the
/// voter to no earlier round.
pub proof fn law_step_keeps_rounds_in_order<E: Environment>(before: Moment<E>, after: Moment<E>)
    requires
        rounds_in_order(before),
        rounds_end_in_turn(before, after),
        step(before, after),
    ensures
        rounds_in_order(after),
        before.voter.current_round_number <= after.voter.current_round_number,
{
}

/// A voter that has just been started has nothing to ask for, and all is in order.
pub proof fn law_start_in_order<E: Environment>(
    last_round_number: u64,
    last_round_votes: Vec<E::SignedMessage>,
    last_round_base: Block<E>,
    best_finalized: Block<E>,
    voter: VoterState<E>,
    restore: RoundRestore<E>,
    voting: VotingRoundStart<E>,
)
    requires
        on_start(
            last_round_number,
            last_round_votes,
            last_round_base,
            best_finalized,
            voter,
            restore,
            voting,
        ),
    ensures
        obeys_cmp::<E::Number>() ==> blocks_in_order(Moment { voter, action: Action::<E>::Idle }),
        rounds_in_order(Moment { voter, action: Action::<E>::Idle }),
        voting.number == voter.current_round_number,
        is_for_background_round(voter, restore.number),
{
    if obeys_cmp::<E::Number>() {
        lemma_above_asymmetric(best_finalized.1, best_finalized.1);
    }
}

/// One step leads from this moment to the next.
pub open spec fn steps_on<E: Environment>(run: Seq<Moment<E>>, i: int) -> bool {
    step(run[i], run[i + 1])
}

/// What a voter goes through, step by step.
pub open spec fn is_run<E: Environment>(run: Seq<Moment<E>>) -> bool {
    &&& run.len() > 0
    &&& forall|i: int| 0 <= i < run.len() - 1 ==> #[trigger] steps_on(run, i)
}

/// The moment before `j` at which rounds were last started in the run.
pub open spec fn last_start<E: Environment>(run: Seq<Moment<E>>, j: int) -> Option<int>
    decreases j,
{
    if j <= 0 {
        None
    } else if run[j - 1].action is StartRounds {
        Some(j - 1)
    } else {
        last_start(run, j - 1)
    }
}

/// The number of the voting round that was last started before the moment `j`. If
/// none was started in the run, it is the one that the voter was in from the
/// beginning.
pub open spec fn started_number<E: Environment>(run: Seq<Moment<E>>, j: int) -> u64 {
    match last_start(run, j) {
        Some(i) => run[i].action->voting.number,
        None => run[0].voter.current_round_number,
    }
}

/// If a round ends at this moment, it is one of those that were last started, and
/// ends under the number that it was started with.
pub open spec fn ends_as_started<E: Environment>(run: Seq<Moment<E>>, i: int) -> bool {
    run[i].action is Idle ==> match run[i + 1].action {
        Action::FinalizeBlock { then: FinalizeTask::CompletableRound(round), .. } => round.number
            == started_number(run, i),
        Action::NoteCompleted(CompletedTask::CompletableRound(round)) => round.number
            == started_number(run, i),
        Action::NoteConcluded(report) => report.number + 1 == started_number(run, i),
        _ => true,
    }
}

/// What a voter goes through, step by step, from a moment at which its requests
/// fit its round, while the rounds end as they were started.
///
/// How a round runs is not up to the voter: that it ends under its own number is
/// what the voter relies on.
pub open spec fn is_run_in_turn<E: Environment>(run: Seq<Moment<E>>) -> bool {
    &&& is_run(run)
    &&& rounds_in_order(run[0])
    &&& forall|i: int| 0 <= i < run.len() - 1 ==> #[trigger] ends_as_started(run, i)
}

/// A voter never falls back to a lower block: from any moment of a run to any
/// later one the best finalized block gets no lower, neither does the best one
/// finalized in rounds, and the voters stay the same.
pub proof fn law_blocks_never_fall_back<E: Environment>(run: Seq<Moment<E>>, i: int, j: int)
    requires
        obeys_cmp::<E::Number>(),
        is_run(run),
        blocks_in_order(run[0]),
        0 <= i <= j < run.len(),
    ensures
        blocks_in_order(run[j]),
        not_below(run[i].voter, run[j].voter),
    decreases j,
{
    if i < j {
        law_blocks_never_fall_back(run, i, j - 1);
        let last = run[j - 1];
        assert(steps_on(run, j - 1));
        law_step_keeps_blocks_in_order(last, run[j]);
        let a = run[i].voter;
        let b = last.voter;
        let c = run[j].voter;
        lemma_not_below_transitive(
            c.best_finalized.1,
            b.best_finalized.1,
            a.best_finalized.1,
        );
        lemma_not_below_transitive(
            c.best_finalized_in_rounds.1,
            b.best_finalized_in_rounds.1,
            a.best_finalized_in_rounds.1,
        );
    } else {
        if j > 0 {
            law_blocks_never_fall_back(run, 0, j - 1);
            assert(steps_on(run, j - 1));
            law_step_keeps_blocks_in_order(run[j - 1], run[j]);
        }
        let a = run[i].voter;
        lemma_above_asymmetric(a.best_finalized.1, a.best_finalized.1);
        lemma_above_asymmetric(a.best_finalized_in_rounds.1, a.best_finalized_in_rounds.1);
    }
}

/// A block that a voter asks to finalize is higher than its best finalized block
/// at any moment of the run until then.
pub proof fn law_finalized_block_is_new<E: Environment>(run: Seq<Moment<E>>, i: int, j: int)
    requires
        obeys_cmp::<E::Number>(),
        is_run(run),
        blocks_in_order(run[0]),
        0 <= i <= j < run.len(),
        run[j].action is FinalizeBlock,
    ensures
        above(run[j].action->FinalizeBlock_number, run[i].voter.best_finalized.1),
{
    law_blocks_never_fall_back(run, i, j);
    lemma_above_of_not_below(
        run[j].action->FinalizeBlock_number,
        run[j].voter.best_finalized.1,
        run[i].voter.best_finalized.1,
    );
}

/// No block is finalized twice, and none below one that has been finalized: of
/// two blocks that a voter asks to finalize in one run, the later is the higher
/// one.
pub proof fn law_finalized_blocks_get_higher<E: Environment>(run: Seq<Moment<E>>, i: int, j: int)
    requires
        obeys_cmp::<E::Number>(),
        is_run(run),
        blocks_in_order(run[0]),
        0 <= i < j < run.len(),
        run[i].action is FinalizeBlock,
        run[j].action is FinalizeBlock,
    ensures
        above(run[j].action->FinalizeBlock_number, run[i].action->FinalizeBlock_number),
{
    law_blocks_never_fall_back(run, i, i);
    assert(steps_on(run, i));
    law_finalized_block_is_new(run, i + 1, j);
}

/// A voter never falls back to an earlier round, and the round that it is in is
/// always the one that was last started.
pub proof fn law_rounds_never_fall_back<E: Environment>(run: Seq<Moment<E>>, i: int, j: int)
    requires
        is_run_in_turn(run),
        0 <= i <= j < run.len(),
    ensures
        rounds_in_order(run[j]),
        run[i].voter.current_round_number <= run[j].voter.current_round_number,
        run[j].voter.current_round_number == started_number(run, j),
    decreases j,
{
    if j > 0 {
        let first = if i < j {
            i
        } else {
            0
        };
        law_rounds_never_fall_back(run, first, j - 1);
        assert(steps_on(run, j - 1) && ends_as_started(run, j - 1));
        law_step_keeps_rounds_in_order(run[j - 1], run[j]);
    }
}

/// A round is only left for a later one: from the moment at which rounds are
/// started to the next one the round number grows.
pub proof fn law_new_round_is_later<E: Environment>(run: Seq<Moment<E>>, i: int)
    requires
        is_run_in_turn(run),
        0 <= i < run.len() - 1,
        run[i].action is StartRounds,
    ensures
        run[i + 1].voter.current_round_number > run[i].voter.current_round_number,
        run[i + 1].voter.current_round_number == run[i].action->voting.number,
{
    law_rounds_never_fall_back(run, i, i);
    assert(steps_on(run, i));
}

/// The round with this number is about to start, after a round that has been noted
/// as completed.
spec fn starts<E: Environment>(moment: Moment<E>, number: int) -> bool {
    match moment.action {
        Action::FinalizeBlock { then: FinalizeTask::CatchUp { round, .. }, .. } => round.number + 1
            == number,
        Action::StartRounds { voting, .. } => voting.number == number,
        _ => false,
    }
}

/// Once a round has been noted as completed, the next round is about to start or
/// has started, until another round is noted as completed.
proof fn lemma_after_completion<E: Environment>(run: Seq<Moment<E>>, i: int, j: int)
    requires
        is_run_in_turn(run),
        0 <= i < j < run.len(),
        run[i].action is NoteCompleted,
        forall|k: int| i < k < j ==> !((#[trigger] run[k]).action is NoteCompleted),
    ensures
        ({
            let next = completed_number(run[i].action->NoteCompleted_0) + 1;
            ||| starts(run[j], next)
            ||| {
                &&& run[j].voter.current_round_number == next
                &&& !(run[j].action is StartRounds)
                &&& !(run[j].action matches Action::FinalizeBlock { then, .. } && then is CatchUp)
            }
        }),
    decreases j,
{
    assert(steps_on(run, j - 1));
    law_rounds_never_fall_back(run, 0, j - 1);
    if i < j - 1 {
        lemma_after_completion(run, i, j - 1);
    }
}

/// Rounds are completed in order: of two rounds that are noted as completed in one
/// run, the later one has the higher number, and none is earlier than the round
/// that the voter is in at any moment until then.
pub proof fn law_completed_rounds_get_later<E: Environment>(run: Seq<Moment<E>>, i: int, j: int)
    requires
        is_run_in_turn(run),
        0 <= i < j < run.len(),
        run[j].action is NoteCompleted,
    ensures
        completed_number(run[j].action->NoteCompleted_0) >= run[i].voter.current_round_number,
        run[i].action is NoteCompleted ==> completed_number(run[j].action->NoteCompleted_0)
            > completed_number(run[i].action->NoteCompleted_0),
    decreases j - i,
{
    law_rounds_never_fall_back(run, i, j);
    if run[i].action is NoteCompleted {
        if exists|k: int| i < k < j && (#[trigger] run[k]).action is NoteCompleted {
            let k = choose|k: int| i < k < j && (#[trigger] run[k]).action is NoteCompleted;
            law_completed_rounds_get_later(run, i, k);
            law_completed_rounds_get_later(run, k, j);
        } else {
            lemma_after_completion(run, i, j);
        }
    }
}

/// No round is left out: after one round the next that is noted as completed is
/// the round after it, unless it is one that the voter has caught up on.
pub proof fn law_completed_rounds_are_consecutive<E: Environment>(
    run: Seq<Moment<E>>,
    i: int,
    j: int,
)
    requires
        is_run_in_turn(run),
        0 <= i < j < run.len(),
        run[i].action is NoteCompleted,
        run[j].action is NoteCompleted,
        forall|k: int| i < k < j ==> !((#[trigger] run[k]).action is NoteCompleted),
        run[j].action->NoteCompleted_0 is CompletableRound,
    ensures
        completed_number(run[j].action->NoteCompleted_0) == completed_number(
            run[i].action->NoteCompleted_0,
        ) + 1,
{
    law_rounds_never_fall_back(run, j, j);
    lemma_after_completion(run, i, j);
}

/// The round before this number has been noted as completed before the moment `j`
/// of the run, or is the one that was in the background from the beginning.
pub open spec fn is_behind<E: Environment>(run: Seq<Moment<E>>, j: int, number: int) -> bool {
    ||| number == run[0].voter.current_round_number
    ||| exists|i: int|
        0 <= i < j && (#[trigger] run[i]).action is NoteCompleted && completed_number(
            run[i].action->NoteCompleted_0,
        ) + 1 == number
}

/// The round before the one that the voter is in, or is about to start, is behind.
proof fn lemma_round_before_is_behind<E: Environment>(run: Seq<Moment<E>>, j: int)
    requires
        is_run_in_turn(run),
        run[0].action is Idle,
        0 <= j < run.len(),
    ensures
        is_behind(run, j, run[j].voter.current_round_number as int),
        forall|number: int| #[trigger] starts(run[j], number) ==> is_behind(run, j, number),
    decreases j,
{
    if j > 0 {
        lemma_round_before_is_behind(run, j - 1);
        law_rounds_never_fall_back(run, 0, j - 1);
        let last = run[j - 1];
        assert(steps_on(run, j - 1));
        let current = run[j].voter.current_round_number as int;
        if last.action is StartRounds {
            assert(starts(last, current));
        }
        assert(is_behind(run, j - 1, current));
        assert forall|number: int| #[trigger] starts(run[j], number) implies is_behind(
            run,
            j,
            number,
        ) by {
            if !(last.action is NoteCompleted) {
                assert(starts(last, number));
            }
        }
    }
}

/// A round is only noted as concluded after it has been noted as completed, in
/// this run or, if it is the round that was taken up again when the voter started,
/// before.
pub proof fn law_concluded_round_was_completed<E: Environment>(run: Seq<Moment<E>>, j: int)
    requires
        is_run_in_turn(run),
        run[0].action is Idle,
        0 <= j < run.len(),
        run[j].action is NoteConcluded,
    ensures
        is_behind(run, j, run[j].action->NoteConcluded_0.number + 1),
{
    lemma_round_before_is_behind(run, j);
    law_rounds_never_fall_back(run, j, j);
}

/// The round that was noted as completed before these rounds were started.
spec fn is_completion_of<E: Environment>(run: Seq<Moment<E>>, i: int, k: int) -> bool {
    &&& 0 <= i < k
    &&& run[i].action matches Action::NoteCompleted(task)
    &&& completed_round(task) == run[k].action->background.round
    &&& completed_number(task) + 1 == run[k].action->voting.number
}

/// Rounds that are started in a run have a completed round behind them.
proof fn lemma_start_has_completion<E: Environment>(run: Seq<Moment<E>>, k: int) -> (i: int)
    requires
        is_run(run),
        run[0].action is Idle,
        0 <= k < run.len(),
        run[k].action is StartRounds,
    ensures
        is_completion_of(run, i, k),
{
    assert(steps_on(run, k - 1));
    law_round_starts_after_completion(run[k - 1], run[k]);
    if run[k - 1].action is NoteCompleted {
        k - 1
    } else {
        assert(steps_on(run, k - 2));
        law_round_starts_after_completion(run[k - 2], run[k - 1]);
        k - 2
    }
}

/// If a background round that was started in the run ends at this moment, it has
/// all the votes that it was started with, and other votes only after those.
pub open spec fn keeps_votes<E: Environment, Vote>(
    run: Seq<Moment<E>>,
    votes: spec_fn(E::Round) -> Seq<Vote>,
    i: int,
) -> bool {
    run[i + 1].action matches Action::NoteConcluded(report) ==> (last_start(run, i) matches Some(k)
        ==> votes(run[k].action->background.round).is_prefix_of(votes(report.round)))
}

/// The votes with which a round is noted as completed are a prefix of those with
/// which it is noted as concluded, provided that a round in the background only
/// adds votes. This holds of every round that was started in the background in the
/// run. The one that was there from the beginning is the round before the first.
pub proof fn law_concluded_votes_extend_completed_votes<E: Environment, Vote>(
    run: Seq<Moment<E>>,
    votes: spec_fn(E::Round) -> Seq<Vote>,
    j: int,
)
    requires
        is_run_in_turn(run),
        run[0].action is Idle,
        forall|i: int| 0 <= i < run.len() - 1 ==> #[trigger] keeps_votes(run, votes, i),
        0 <= j < run.len(),
        run[j].action is NoteConcluded,
    ensures
        ({
            let report = run[j].action->NoteConcluded_0;
            if last_start(run, j) is None {
                report.number + 1 == run[0].voter.current_round_number
            } else {
                exists|i: int|
                    {
                        &&& 0 <= i < j
                        &&& (#[trigger] run[i]).action matches Action::NoteCompleted(task)
                        &&& completed_number(task) == report.number
                        &&& votes(completed_round(task)).is_prefix_of(votes(report.round))
                    }
            }
        }),
{
    law_rounds_never_fall_back(run, j, j);
    assert(steps_on(run, j - 1));
    assert(keeps_votes(run, votes, j - 1));
    if let Some(k) = last_start(run, j) {
        lemma_last_start_is_a_start(run, j);
        let i = lemma_start_has_completion(run, k);
        assert(run[i].action is NoteCompleted);
    }
}

/// The moment at which rounds were last started is one.
proof fn lemma_last_start_is_a_start<E: Environment>(run: Seq<Moment<E>>, j: int)
    requires
        last_start(run, j) is Some,
    ensures
        0 <= last_start(run, j)->0 < j,
        run[last_start(run, j)->0].action is StartRounds,
    decreases j,
{
    if !(run[j - 1].action is StartRounds) {
        lemma_last_start_is_a_start(run, j - 1);
    }
}

/// A voter that starts where it last stopped goes beyond that: it only completes
/// later rounds than the last one, concludes none that is earlier, and only asks to
/// finalize blocks that are higher than the best finalized one.
pub proof fn law_started_voter_goes_beyond<E: Environment>(
    last_round_number: u64,
    last_round_votes: Vec<E::SignedMessage>,
    last_round_base: Block<E>,
    best_finalized: Block<E>,
    restore: RoundRestore<E>,
    voting: VotingRoundStart<E>,
    run: Seq<Moment<E>>,
    j: int,
)
    requires
        is_run(run),
        run[0].action is Idle,
        on_start(
            last_round_number,
            last_round_votes,
            last_round_base,
            best_finalized,
            run[0].voter,
            restore,
            voting,
        ),
        0 <= j < run.len(),
    ensures
        obeys_cmp::<E::Number>() && run[j].action is FinalizeBlock ==> above(
            run[j].action->FinalizeBlock_number,
            best_finalized.1,
        ),
        is_run_in_turn(run) && run[j].action is NoteCompleted ==> completed_number(
            run[j].action->NoteCompleted_0,
        ) > last_round_number,
        is_run_in_turn(run) && run[j].action is NoteConcluded
            ==> run[j].action->NoteConcluded_0.number >= last_round_number,
{
    law_start_in_order(
        last_round_number,
        last_round_votes,
        last_round_base,
        best_finalized,
        run[0].voter,
        restore,
        voting,
    );
    if obeys_cmp::<E::Number>() && run[j].action is FinalizeBlock {
        law_finalized_block_is_new(run, 0, j);
    }
    if is_run_in_turn(run) {
        law_rounds_never_fall_back(run, 0, j);
    }
}

/// A round only starts after the round before it has been noted as completed, and
/// the completed round is what runs in the background. If the block of a catch up
/// is finalized in between, the round that was noted as completed is still the
/// same.
pub proof fn law_round_starts_after_completion<E: Environment>(before: Moment<E>, after: Moment<E>)
    requires
        step(before, after),
    ensures
        after.action is StartRounds ==> match before.action {
            Action::NoteCompleted(task) => {
                &&& after.action->background.round == completed_round(task)
                &&& after.action->voting.number == completed_number(task) + 1
            },
            Action::FinalizeBlock { then: FinalizeTask::CatchUp { round, .. }, .. } => {
                &&& after.action->background.round == round.round
                &&& after.action->voting.number == round.number + 1
            },
            _ => false,
        },
        after.action matches Action::FinalizeBlock {
            then: FinalizeTask::CatchUp { round, callback },
            ..
        } ==> before.action == Action::<E>::NoteCompleted(CompletedTask::CatchUp { round, callback }),
{
}

/// A block that is finalized through a commit from another node is not accounted
/// to the rounds.
pub proof fn law_global_commit_counts_in_no_round<E: Environment>(
    before: Moment<E>,
    after: Moment<E>,
)
    requires
        step(before, after),
        before.action is FinalizeBlock,
        before.action->FinalizeBlock_then is IncomingCommit,
    ensures
        after.voter.best_finalized == before.action->FinalizeBlock_then->IncomingCommit_block,
        after.voter.best_finalized_in_rounds == before.voter.best_finalized_in_rounds,
{
}

/// Once a round is completed and the next one has started, a commit for the
/// completed round goes to this round, which runs in the background.
pub proof fn law_commit_for_completed_round_is_forwarded<E: Environment>(
    completed: Moment<E>,
    started: Moment<E>,
    after: Moment<E>,
    round_number: u64,
    commit: CommitIn<E>,
    callback: Callback<E::CommitCallback>,
    result: Result<Action<E>, E::Error>,
)
    requires
        step(completed, started),
        started.action is StartRounds,
        step(started, after),
        started.action->voting.number == round_number + 1,
        on_incoming_commit(after.voter, round_number, commit, callback, result),
    ensures
        match completed.action {
            Action::NoteCompleted(task) => {
                &&& started.action->background.round == completed_round(task)
                &&& completed_number(task) == round_number
            },
            Action::FinalizeBlock { then: FinalizeTask::CatchUp { round, .. }, .. } => {
                &&& started.action->background.round == round.round
                &&& round.number == round_number
            },
            _ => false,
        },
        result == Ok::<Action<E>, E::Error>(Action::ForwardCommit { commit, callback }),
{
}

/// The voter, which has nothing to ask for, takes in a catch up from another node.
pub open spec fn takes_in_catch_up<E: Environment>(
    before: Moment<E>,
    catch_up: CatchUpIn<E>,
    callback: Callback<E::CatchUpCallback>,
    after: Moment<E>,
) -> bool {
    &&& before.action is Idle
    &&& on_event(
        before.voter,
        Event::GlobalMessage(Ok(GlobalCommunicationIncoming::CatchUp(catch_up, callback))),
        after.voter,
        Ok(after.action),
    )
}

/// The same catch up is of no use a second time: once it has been accepted, a
/// catch up for this round or an earlier one is answered as useless at any later
/// moment at which the voter takes in messages, and changes nothing.
pub proof fn law_second_catch_up_is_useless<E: Environment>(
    run: Seq<Moment<E>>,
    i: int,
    j: int,
    catch_up: CatchUpIn<E>,
    callback: Callback<E::CatchUpCallback>,
    second: CatchUpIn<E>,
    second_callback: Callback<E::CatchUpCallback>,
    after: Moment<E>,
)
    requires
        is_run_in_turn(run),
        0 <= i < j < run.len(),
        takes_in_catch_up(run[i], catch_up, callback, run[i + 1]),
        run[i + 1].action is FetchRoundData,
        second.round_number <= catch_up.round_number,
        takes_in_catch_up(run[j], second, second_callback, after),
    ensures
        after.action == (Action::<E>::ReportCatchUp {
            outcome: CatchUpProcessingOutcome::Useless,
            callback: second_callback,
        }),
        after.voter == run[j].voter,
{
    let k = i + 2;
    assert(steps_on(run, i + 1));
    assert(run[k].action is NoteCompleted);
    assert(steps_on(run, k));
    assert(steps_on(run, k + 1));
    if run[k + 1].action is FinalizeBlock {
        assert(steps_on(run, k + 2));
        law_rounds_never_fall_back(run, k + 3, j);
    } else {
        law_rounds_never_fall_back(run, k + 2, j);
    }
}

/// A commit that has led to the finalization of its block is still good the next
/// time, but the block is not finalized again.
pub proof fn law_second_commit_is_good<E: Environment>(
    voter: VoterState<E>,
    round_number: u64,
    commit: CommitIn<E>,
    found: CommitValidationResult<E::Hash, E::Number>,
    callback: Callback<E::CommitCallback>,
    hash: E::Hash,
    number: E::Number,
    then: FinalizeTask<E>,
    after: VoterState<E>,
    reported: Action<E>,
    second_callback: Callback<E::CommitCallback>,
    second: Action<E>,
)
    requires
        obeys_cmp::<E::Number>(),
        on_commit_validated(
            voter,
            round_number,
            commit,
            found,
            callback,
            Action::FinalizeBlock { hash, number, round_number, commit, then },
        ),
        on_block_finalized(voter, then, Ok(()), after, Ok(reported)),
        on_commit_validated(after, round_number, commit, found, second_callback, second),
    ensures
        reported == (Action::<E>::ReportCommit {
            outcome: CommitProcessingOutcome::Good,
            callback,
        }),
        second == (Action::<E>::ReportCommit {
            outcome: CommitProcessingOutcome::Good,
            callback: second_callback,
        }),
{
    lemma_above_asymmetric(number, number);
}

/// A commit from another node keeps its callback, whatever becomes of it: it is
/// handed on with the commit, or told of the outcome. It is told of nothing before
/// the block has been finalized, and never if this fails.
pub proof fn law_commit_keeps_its_callback<E: Environment>(
    voter: VoterState<E>,
    round_number: u64,
    commit: CommitIn<E>,
    callback: Callback<E::CommitCallback>,
    action: Action<E>,
    outcome: Result<(), E::Error>,
    after: VoterState<E>,
    result: Result<Action<E>, E::Error>,
)
    requires
        on_incoming_commit(voter, round_number, commit, callback, Ok(action)),
        action matches Action::FinalizeBlock { then, .. } ==> on_block_finalized(
            voter,
            then,
            outcome,
            after,
            result,
        ),
    ensures
        match action {
            Action::ForwardCommit { callback: told, .. } => told == callback,
            Action::ReportCommit { callback: told, .. } => told == callback,
            Action::FinalizeBlock { .. } => match outcome {
                Ok(_) => result == Ok::<Action<E>, E::Error>(
                    Action::ReportCommit { outcome: CommitProcessingOutcome::Good, callback },
                ),
                Err(e) => after == voter && result == Err::<Action<E>, E::Error>(e),
            },
            _ => false,
        },
{
}

/// A catch up that is accepted and processed to the end takes the voter to the
/// round after the one that was caught up on, leaves this round in the background,
/// and is reported as good to its callback. The block that the round has finalized
/// is finalized before that if it is higher than any finalized block so far. No
/// block is accounted to the rounds that were voted in.
pub proof fn law_catch_up_is_carried_out<E: Environment>(
    run: Seq<Moment<E>>,
    catch_up: CatchUpIn<E>,
    callback: Callback<E::CatchUpCallback>,
)
    requires
        obeys_cmp::<E::Number>(),
        is_run(run),
        run.len() >= 5,
        takes_in_catch_up(run[0], catch_up, callback, run[1]),
        run[1].action is FetchRoundData,
    ensures
        run[2].action matches Action::NoteCompleted(CompletedTask::CatchUp { round, .. }) && {
            let voter = run[0].voter;
            let higher = above(round.finalized.1, voter.best_finalized.1);
            let k: int = if higher {
                5
            } else {
                4
            };
            &&& import_result(
                voter.environment,
                voter.voters,
                catch_up,
                Some(round.round),
            )
            &&& obeys_eq::<E::Id>() ==> has_support(
                catch_up,
                voter.voters,
                voter.current_round_number,
            )
            &&& higher ==> asks_to_finalize(
                voter.environment,
                round,
                FinalizeTask::CatchUp { round, callback },
                run[3].action,
            )
            &&& asks_to_start_after_catch_up(round, callback, run[k - 1].action)
            &&& k < run.len() ==> {
                let after = run[k].voter;
                &&& run[k].action == (Action::<E>::ReportCatchUp {
                    outcome: CatchUpProcessingOutcome::Good,
                    callback,
                })
                &&& after.current_round_number == catch_up.round_number + 1
                &&& raised(voter.best_finalized, round.finalized, after.best_finalized)
                &&& after == (VoterState {
                    best_finalized: after.best_finalized,
                    current_round_number: after.current_round_number,
                    ..voter
                })
            }
        },
{
    assert(steps_on(run, 1));
    assert(steps_on(run, 2));
    assert(steps_on(run, 3));
    if run.len() > 5 {
        assert(steps_on(run, 4));
    }
}

/// No catch up is reported as good with its block left out: the block that its
/// round has finalized was not higher than the best finalized one when the round
/// was noted as completed, or it has been asked to be finalized right after that.
pub proof fn law_good_catch_up_has_been_finalized<E: Environment>(
    run: Seq<Moment<E>>,
    j: int,
    callback: Callback<E::CatchUpCallback>,
)
    requires
        obeys_cmp::<E::Number>(),
        is_run(run),
        run[0].action is Idle,
        0 <= j < run.len(),
        run[j].action == (Action::<E>::ReportCatchUp {
            outcome: CatchUpProcessingOutcome::Good,
            callback,
        }),
    ensures
        j > 2,
        match run[j - 2].action {
            Action::NoteCompleted(CompletedTask::CatchUp { round, callback: told }) => {
                &&& told == callback
                &&& !above(round.finalized.1, run[j - 2].voter.best_finalized.1)
            },
            Action::FinalizeBlock { then: FinalizeTask::CatchUp { round, callback: told }, .. } => {
                &&& told == callback
                &&& run[j - 3].action == Action::NoteCompleted(
                    CompletedTask::<E>::CatchUp { round, callback },
                )
                &&& above(round.finalized.1, run[j - 3].voter.best_finalized.1)
                &&& asks_to_finalize(
                    run[j - 3].voter.environment,
                    round,
                    FinalizeTask::CatchUp { round, callback },
                    run[j - 2].action,
                )
                &&& same_block(round.finalized, run[j].voter.best_finalized)
            },
            _ => false,
        },
{
    assert(steps_on(run, j - 1));
    assert(run[j - 1].action is StartRounds);
    assert(steps_on(run, j - 2));
    assert(!(run[j - 2].action is Idle));
    assert(steps_on(run, j - 3));
}

/// If the block of a catch up cannot be finalized, the error is returned, and the
/// voter knows no more than before.
pub proof fn law_failed_catch_up_changes_nothing<E: Environment>(
    voter: VoterState<E>,
    round: CompletedRound<E>,
    callback: Callback<E::CatchUpCallback>,
    completed: VoterState<E>,
    action: Action<E>,
    e: E::Error,
    after: VoterState<E>,
    result: Result<Action<E>, E::Error>,
)
    requires
        on_round_completed(
            voter,
            CompletedTask::CatchUp { round, callback },
            Ok(()),
            completed,
            Ok(action),
        ),
        action matches Action::FinalizeBlock { then, .. } && on_block_finalized(
            completed,
            then,
            Err(e),
            after,
            result,
        ),
    ensures
        after == voter,
        result == Err::<Action<E>, E::Error>(e),
{
}

/// A commit of the background round leads to the same decisions whether or not
/// the other nodes hear of it.
pub proof fn law_broadcast_decides_nothing<E: Environment>(
    voter: VoterState<E>,
    commit: BackgroundRoundCommit<E>,
    silent: BackgroundRoundCommit<E>,
    sent: VoterState<E>,
    message: OutgoingMessage<E>,
    then: BackgroundRoundCommit<E>,
    after: VoterState<E>,
    action: Action<E>,
)
    requires
        commit.broadcast,
        silent == (BackgroundRoundCommit::<E> { broadcast: false, ..commit }),
        on_background_round_commit(voter, commit, sent, Action::Broadcast { message, then }),
        on_commit_broadcast(sent, then, after, action),
    ensures
        on_background_round_commit(voter, silent, after, action),
{
}

/// A catch up with support is accepted if the environment refuses none of its
/// votes and finds the round completable.
pub proof fn law_supported_catch_up_is_accepted<E: Environment>(
    env: E,
    voters: VoterSet<E::Id>,
    catch_up: CatchUpIn<E>,
    result: Option<E::Round>,
)
    requires
        import_result(env, voters, catch_up, result),
        forall|round: E::Round, vote: SignedPrevoteIn<E>, e: E::Error|
            !#[trigger] prevote_answer(env, round, vote, Err(e)),
        forall|round: E::Round, vote: SignedPrecommitIn<E>, e: E::Error|
            !#[trigger] precommit_answer(env, round, vote, Err(e)),
        forall|round: E::Round| !#[trigger] completable_answer(env, round, false),
    ensures
        result is Some,
{
}

/// The best round number only matters in that it is or is not below the round of
/// the catch up: what can come of a catch up is the same for any two that are below
/// it, and nothing comes of it for any that is not.
pub proof fn law_best_round_number_is_only_compared<E: Environment>(
    env: E,
    voters: VoterSet<E::Id>,
    catch_up: CatchUpIn<E>,
    best: u64,
    other: u64,
    result: Option<E::Round>,
)
    requires
        best < catch_up.round_number <==> other < catch_up.round_number,
    ensures
        catch_up_result(env, voters, catch_up, best, result) == catch_up_result(
            env,
            voters,
            catch_up,
            other,
            result,
        ),
        best >= catch_up.round_number && catch_up_result(env, voters, catch_up, best, result)
            ==> result is None,
{
}

/// The environment always gives the same answer to the same question on the way
/// through a catch up.
pub open spec fn answers_alike<E: Environment>(env: E) -> bool {
    &&& forall|number: u64, voters: VoterSet<E::Id>, base: Block<E>, a: E::Round, b: E::Round|
        #[trigger] call_ensures(E::new_round, (&env, number, &voters, base), a)
            && #[trigger] call_ensures(E::new_round, (&env, number, &voters, base), b) ==> a == b
    &&& forall|
        round: E::Round,
        vote: SignedPrevoteIn<E>,
        a: Result<E::Round, E::Error>,
        b: Result<E::Round, E::Error>,
    |
        #[trigger] prevote_answer(env, round, vote, a) && #[trigger] prevote_answer(
            env,
            round,
            vote,
            b,
        ) ==> a == b
    &&& forall|
        round: E::Round,
        vote: SignedPrecommitIn<E>,
        a: Result<E::Round, E::Error>,
        b: Result<E::Round, E::Error>,
    |
        #[trigger] precommit_answer(env, round, vote, a) && #[trigger] precommit_answer(
            env,
            round,
            vote,
            b,
        ) ==> a == b
    &&& forall|round: E::Round, a: RoundStateIn<E>, b: RoundStateIn<E>|
        #[trigger] call_ensures(E::round_state, (&env, &round), a) && #[trigger] call_ensures(
            E::round_state,
            (&env, &round),
            b,
        ) ==> a == b
}

/// In an environment that always gives the same answers, the same comes of a catch
/// up whatever the best round number, as long as it is below the round of the catch
/// up.
pub proof fn law_catch_up_has_one_result<E: Environment>(
    env: E,
    voters: VoterSet<E::Id>,
    catch_up: CatchUpIn<E>,
    best: u64,
    other: u64,
    result: Option<E::Round>,
    other_result: Option<E::Round>,
)
    requires
        obeys_eq::<E::Id>(),
        answers_alike(env),
        best < catch_up.round_number,
        other < catch_up.round_number,
        catch_up_result(env, voters, catch_up, best, result),
        catch_up_result(env, voters, catch_up, other, other_result),
    ensures
        result == other_result,
{
    if has_support(catch_up, voters, best) {
        let prevotes = catch_up.prevotes@;
        let precommits = catch_up.precommits@;
        let (p, c) = choose|prevoted: Seq<E::Round>, precommitted: Seq<E::Round>|
            import_run(env, voters, catch_up, prevoted, precommitted, result);
        let (q, d) = choose|prevoted: Seq<E::Round>, precommitted: Seq<E::Round>|
            import_run(env, voters, catch_up, prevoted, precommitted, other_result);
        lemma_prevotes_imported_alike(env, prevotes, p, q);
        lemma_prevotes_imported_alike(env, prevotes, q, p);
        if p.len() > prevotes.len() {
            lemma_precommits_imported_alike(env, precommits, c, d);
            lemma_precommits_imported_alike(env, precommits, d, c);
        }
    }
}

/// If the environment always gives the same answers, then an import of prevotes
/// that starts in the same round goes through the same rounds, and goes no further
/// than a vote that is refused.
proof fn lemma_prevotes_imported_alike<E: Environment>(
    env: E,
    votes: Seq<SignedPrevoteIn<E>>,
    a: Seq<E::Round>,
    b: Seq<E::Round>,
)
    requires
        answers_alike(env),
        prevotes_imported(env, votes, a),
        prevotes_imported(env, votes, b),
        a[0] == b[0],
        a.len() <= votes.len() ==> exists|e: E::Error| #[trigger]
            prevote_answer(env, a.last(), votes[a.len() - 1], Err(e)),
    ensures
        b.len() <= a.len(),
        forall|i: int| 0 <= i < b.len() ==> #[trigger] a[i] == b[i],
    decreases b.len(),
{
    if b.len() > 1 {
        let shorter = b.drop_last();
        let last = b.len() - 2;
        assert(prevotes_imported(env, votes, shorter));
        lemma_prevotes_imported_alike(env, votes, a, shorter);
        assert(a[last] == shorter[last]);
        assert(prevote_answer(env, b[last], votes[last], Ok(b[last + 1])));
        if last + 1 < a.len() {
            assert(prevote_answer(env, a[last], votes[last], Ok(a[last + 1])));
        }
    }
}

/// If the environment always gives the same answers, then an import of precommits
/// that starts in the same round goes through the same rounds, and goes no further
/// than a vote that is refused.
proof fn lemma_precommits_imported_alike<E: Environment>(
    env: E,
    votes: Seq<SignedPrecommitIn<E>>,
    a: Seq<E::Round>,
    b: Seq<E::Round>,
)
    requires
        answers_alike(env),
        precommits_imported(env, votes, a),
        precommits_imported(env, votes, b),
        a[0] == b[0],
        a.len() <= votes.len() ==> exists|e: E::Error| #[trigger]
            precommit_answer(env, a.last(), votes[a.len() - 1], Err(e)),
    ensures
        b.len() <= a.len(),
        forall|i: int| 0 <= i < b.len() ==> #[trigger] a[i] == b[i],
    decreases b.len(),
{
    if b.len() > 1 {
        let shorter = b.drop_last();
        let last = b.len() - 2;
        assert(precommits_imported(env, votes, shorter));
        lemma_precommits_imported_alike(env, votes, a, shorter);
        assert(a[last] == shorter[last]);
        assert(precommit_answer(env, b[last], votes[last], Ok(b[last + 1])));
        if last + 1 < a.len() {
            assert(precommit_answer(env, a[last], votes[last], Ok(a[last + 1])));
        }
    }
}

/// A catch up is not accepted if the environment refuses one of its prevotes,
/// whatever the round.
pub proof fn law_refused_prevote_spoils_catch_up<E: Environment>(
    env: E,
    voters: VoterSet<E::Id>,
    catch_up: CatchUpIn<E>,
    result: Option<E::Round>,
    i: int,
)
    requires
        import_result(env, voters, catch_up, result),
        0 <= i < catch_up.prevotes@.len(),
        forall|round: E::Round, next: E::Round|
            !#[trigger] prevote_answer(env, round, catch_up.prevotes@[i], Ok(next)),
    ensures
        result is None,
{
    let (prevoted, precommitted) = choose|prevoted: Seq<E::Round>, precommitted: Seq<E::Round>|
        import_run(env, voters, catch_up, prevoted, precommitted, result);
    if prevoted.len() == catch_up.prevotes@.len() + 1 {
        let vote = catch_up.prevotes@[i];
        assert(prevote_answer(env, prevoted[i], vote, Ok(prevoted[i + 1])));
    }
}

/// A catch up is not accepted if the environment refuses one of its precommits,
/// whatever the round.
pub proof fn law_refused_precommit_spoils_catch_up<E: Environment>(
    env: E,
    voters: VoterSet<E::Id>,
    catch_up: CatchUpIn<E>,
    result: Option<E::Round>,
    i: int,
)
    requires
        import_result(env, voters, catch_up, result),
        0 <= i < catch_up.precommits@.len(),
        forall|round: E::Round, next: E::Round|
            !#[trigger] precommit_answer(env, round, catch_up.precommits@[i], Ok(next)),
    ensures
        result is None,
{
    let (prevoted, precommitted) = choose|prevoted: Seq<E::Round>, precommitted: Seq<E::Round>|
        import_run(env, voters, catch_up, prevoted, precommitted, result);
    if prevoted.len() == catch_up.prevotes@.len() + 1 && precommitted.len()
        == catch_up.precommits@.len() + 1 {
        let vote = catch_up.precommits@[i];
        assert(precommit_answer(env, precommitted[i], vote, Ok(precommitted[i + 1])));
    }
}

/// A callback that is run again and again stays the same, and does its work on
/// each of the outcomes, in their order.
pub proof fn law_callback_can_be_run_again<O, F: FnMut(O)>(
    callbacks: Seq<Callback<F>>,
    outcomes: Seq<O>,
)
    requires
        callbacks.len() == outcomes.len() + 1,
        forall|i: int|
            0 <= i < outcomes.len() ==> was_run(
                callbacks[i],
                #[trigger] outcomes[i],
                callbacks[i + 1],
            ),
    ensures
        callbacks.last() == callbacks[0],
        callbacks[0] matches Callback::Work(cb) ==> forall|i: int|
            0 <= i < outcomes.len() ==> cb.ensures((#[trigger] outcomes[i],), ()),
    decreases outcomes.len(),
{
    if outcomes.len() > 0 {
        let n = outcomes.len() - 1;
        let earlier = outcomes.drop_last();
        assert forall|i: int| 0 <= i < n implies was_run(
            callbacks.drop_last()[i],
            #[trigger] earlier[i],
            callbacks.drop_last()[i + 1],
        ) by {
            assert(outcomes[i] == earlier[i]);
        }
        law_callback_can_be_run_again(callbacks.drop_last(), earlier);
        assert(was_run(callbacks[n], outcomes[n], callbacks[n + 1]));
        assert forall|i: int|
            callbacks[0] is Work && 0 <= i < outcomes.len() implies callbacks[0]->Work_0.ensures(
            (#[trigger] outcomes[i],),
            (),
        ) by {
            if i < n {
                assert(outcomes[i] == earlier[i]);
            }
        }
    }
}

/// A vote of a voter that has already voted adds no weight.
pub proof fn law_second_vote_adds_nothing<Id: PartialEq>(
    voters: Seq<(Id, u64)>,
    ids: Seq<Id>,
    id: Id,
)
    requires
        obeys_eq::<Id>(),
        has_voted(ids, id),
    ensures
        supporting_weight(voters, ids.push(id)) == supporting_weight(voters, ids),
{
    reveal(obeys_eq_spec_properties);
    assert forall|voter: Id| has_voted(ids.push(id), voter) == has_voted(ids, voter) by {
        if has_voted(ids, voter) {
            let j = choose|j: int| 0 <= j < ids.len() && voter.eq_spec(&#[trigger] ids[j]);
            assert(ids.push(id)[j] == ids[j]);
        }
        if has_voted(ids.push(id), voter) {
            let j = choose|j: int|
                0 <= j < ids.push(id).len() && voter.eq_spec(&#[trigger] ids.push(id)[j]);
            if j < ids.len() {
                assert(voter.eq_spec(&ids[j]));
            } else {
                let k = choose|k: int| 0 <= k < ids.len() && id.eq_spec(&#[trigger] ids[k]);
                assert(voter.eq_spec(&id) && id.eq_spec(&ids[k]));
                assert(voter.eq_spec(&ids[k]));
            }
        }
    }
    law_weight_depends_on_who_voted(voters, ids.push(id), ids);
}

/// In what order and how often the voters voted makes no difference to the
/// weight.
pub proof fn law_weight_depends_on_who_voted<Id: PartialEq>(
    voters: Seq<(Id, u64)>,
    a: Seq<Id>,
    b: Seq<Id>,
)
    requires
        forall|voter: Id| #[trigger] has_voted(a, voter) == has_voted(b, voter),
    ensures
        supporting_weight(voters, a) == supporting_weight(voters, b),
    decreases voters.len(),
{
    if voters.len() > 0 {
        law_weight_depends_on_who_voted(voters.drop_last(), a, b);
    }
}

/// Those that voted weigh no more than all the voters.
pub proof fn law_weight_is_bounded<Id: PartialEq>(voters: Seq<(Id, u64)>, ids: Seq<Id>)
    ensures
        supporting_weight(voters, ids) <= total_weight(voters),
    decreases voters.len(),
{
    if voters.len() > 0 {
        law_weight_is_bounded(voters.drop_last(), ids);
    }
}

/// More votes never weigh less.
pub proof fn law_more_votes_weigh_no_less<Id: PartialEq>(
    voters: Seq<(Id, u64)>,
    ids: Seq<Id>,
    more: Seq<Id>,
)
    ensures
        supporting_weight(voters, ids) <= supporting_weight(voters, ids + more),
    decreases voters.len(),
{
    if voters.len() > 0 {
        law_more_votes_weigh_no_less(voters.drop_last(), ids, more);
        let id = voters.last().0;
        if has_voted(ids, id) {
            let j = choose|j: int| 0 <= j < ids.len() && id.eq_spec(&#[trigger] ids[j]);
            assert((ids + more)[j] == ids[j]);
        }
    }
}

/// A catch up of a voter set whose threshold is above all its weight finds no
/// support.
pub proof fn law_threshold_beyond_reach<Hash, Number, Signature, Id: PartialEq>(
    catch_up: CatchUp<Hash, Number, Signature, Id>,
    voters: VoterSet<Id>,
    best_round_number: u64,
)
    requires
        voters.spec_threshold() > total_weight(voters.voters()),
    ensures
        !has_support(catch_up, voters, best_round_number),
{
    law_weight_is_bounded(voters.voters(), prevote_ids(catch_up.prevotes@));
}

/// A catch up with the votes of all the voters, cast in both stages, is supported
/// in any earlier round if the threshold can be reached at all.
pub proof fn law_unanimous_catch_up_has_support<Hash, Number, Signature, Id: PartialEq>(
    catch_up: CatchUp<Hash, Number, Signature, Id>,
    voters: VoterSet<Id>,
    best_round_number: u64,
)
    requires
        catch_up.round_number > best_round_number,
        voters.spec_threshold() <= total_weight(voters.voters()),
        all_voters(voters.voters(), prevote_ids(catch_up.prevotes@)),
        all_voters(voters.voters(), precommit_ids(catch_up.precommits@)),
        forall|i: int|
            0 <= i < voters.voters().len() ==> has_voted(
                prevote_ids(catch_up.prevotes@),
                (#[trigger] voters.voters()[i]).0,
            ),
        forall|i: int|
            0 <= i < voters.voters().len() ==> has_voted(
                precommit_ids(catch_up.precommits@),
                (#[trigger] voters.voters()[i]).0,
            ),
    ensures
        has_support(catch_up, voters, best_round_number),
{
    lemma_unanimous_weight(voters.voters(), prevote_ids(catch_up.prevotes@));
    lemma_unanimous_weight(voters.voters(), precommit_ids(catch_up.precommits@));
}

/// If all have voted, their votes weigh all there is.
proof fn lemma_unanimous_weight<Id: PartialEq>(voters: Seq<(Id, u64)>, ids: Seq<Id>)
    requires
        forall|i: int|
            0 <= i < voters.len() ==> has_voted(ids, (#[trigger] voters[i]).0),
    ensures
        supporting_weight(voters, ids) == total_weight(voters),
    decreases voters.len(),
{
    if voters.len() > 0 {
        assert(has_voted(ids, voters[voters.len() - 1].0));
        lemma_unanimous_weight(voters.drop_last(), ids);
    }
}

} // verus!
