//! A voter in GRANDPA. This transitions between rounds and finalizes blocks.
//!
//! A voter is told of an event by [`Voter::run`] and answers with an action. It
//! is then told how the action ended, by the method that the action names, and
//! answers with the next action, until it has nothing left to ask for.

use crate::action::{
    Action, BackgroundRoundCommit, BackgroundRoundStart, CatchUpTask, CompletableRound,
    CompletedRound, CompletedTask, ConcludedRound, Event, FinalizeTask, IncomingMessage,
    RoundReport, RoundRestore, StartTask, VotingRoundStart,
};
use crate::block::{above, by_height, copy_block, is_above, raised, same_block};
use crate::callback::Callback;
use crate::catch_up::{catch_up_result, validate_catch_up};
use crate::communication::{GlobalCommunicationIncoming, GlobalCommunicationOutgoing, RoundData};
use crate::environment::{
    Block, CatchUpIn, CommitIn, Environment, RoundState, RoundStateIn, SignedPrecommitIn,
};
use crate::messages::{Commit, expands_to, same_commit};
use crate::outcome::{
    CatchUpProcessingOutcome, CommitProcessingOutcome, CommitValidationResult, commit_outcome,
};
use crate::voter_set::VoterSet;
use vstd::laws_cmp::obeys_cmp;
use vstd::prelude::*;

verus! {

/// What a voter knows.
#[verifier::ext_equal]
pub struct VoterState<E: Environment> {
    /// The world around the voter.
    pub environment: E,
    /// Who votes.
    pub voters: VoterSet<E::Id>,
    /// The best finalized block so far.
    pub best_finalized: Block<E>,
    /// The best finalized block so far that has been finalized through the normal
    /// round lifecycle (i.e. blocks finalized through global commits are not
    /// accounted here).
    pub best_finalized_in_rounds: Block<E>,
    /// The round number of the voting round we're currently processing.
    pub current_round_number: u64,
}

/// A voter: what it knows between two events.
pub struct Voter<E: Environment> {
    voters: VoterSet<E::Id>,
    environment: E,
    best_finalized: Block<E>,
    best_finalized_in_rounds: Block<E>,
    current_round_number: u64,
}

impl<E: Environment> View for Voter<E> {
    type V = VoterState<E>;

    closed spec fn view(&self) -> VoterState<E> {
        VoterState {
            environment: self.environment,
            voters: self.voters,
            best_finalized: self.best_finalized,
            best_finalized_in_rounds: self.best_finalized_in_rounds,
            current_round_number: self.current_round_number,
        }
    }
}

/// A voter that starts where it last stopped asks for the last round to be taken
/// up again in the background and for a voting round after it, on top of the best
/// finalized block.
pub open spec fn on_start<E: Environment>(
    last_round_number: u64,
    last_round_votes: Vec<E::SignedMessage>,
    last_round_base: Block<E>,
    best_finalized: Block<E>,
    voter: VoterState<E>,
    restore: RoundRestore<E>,
    voting: VotingRoundStart<E>,
) -> bool {
    &&& voter.best_finalized == best_finalized
    &&& same_block(best_finalized, voter.best_finalized_in_rounds)
    &&& voter.current_round_number == last_round_number + 1
    &&& restore.number == last_round_number
    &&& restore.base == last_round_base
    &&& restore.votes == last_round_votes
    &&& voting.number == last_round_number + 1
    &&& same_block(best_finalized, voting.base)
    &&& exists|base: Block<E>|
        {
            &&& same_block(last_round_base, base)
            &&& #[trigger] call_ensures(
                E::genesis_state,
                (&voter.environment, base),
                voting.previous_state,
            )
        }
}

/// The block is the one that is finalized in the state, up to cloning.
pub open spec fn is_finalized_in<Hash: Clone, Number, Details>(
    state: RoundState<Hash, Number, Details>,
    block: (Hash, Number),
) -> bool {
    state.finalized matches Some(finalized) && same_block(finalized, block)
}

/// Whatever the state of the round is found to be, a block is finalized in it.
pub open spec fn has_finalized<E: Environment>(environment: E, round: E::Round) -> bool {
    forall|state: RoundStateIn<E>| #[trigger]
        call_ensures(E::round_state, (&environment, &round), state) ==> state.finalized is Some
}

/// The precommits of the round that finalize a block can be told.
pub open spec fn has_finalizing_precommits<E: Environment>(
    environment: E,
    round: E::Round,
) -> bool {
    forall|precommits: Option<Vec<SignedPrecommitIn<E>>>| #[trigger]
        call_ensures(E::finalizing_precommits, (&environment, &round), precommits)
            ==> precommits is Some
}

/// A block of this height that the round has finalized is not higher than any
/// finalized block so far, or the precommits that finalize it can be told.
pub open spec fn can_be_finalized<E: Environment>(
    voter: VoterState<E>,
    round: E::Round,
    height: E::Number,
) -> bool {
    ||| obeys_cmp::<E::Number>() && !above(height, voter.best_finalized.1)
    ||| has_finalizing_precommits(voter.environment, round)
}

/// The round has finalized a block, and the voter can go on with it.
pub open spec fn can_be_completed<E: Environment>(voter: VoterState<E>, round: E::Round) -> bool {
    forall|state: RoundStateIn<E>| #[trigger]
        call_ensures(E::round_state, (&voter.environment, &round), state) ==> {
            &&& state.finalized matches Some(block)
            &&& can_be_finalized(voter, round, block.1)
        }
}

/// The record says of a completable round what the environment says of it.
pub open spec fn describes<E: Environment>(
    environment: E,
    given: CompletableRound<E>,
    round: CompletedRound<E>,
) -> bool {
    &&& round.round == given.round
    &&& round.incoming == given.incoming
    &&& call_ensures(E::round_number, (&environment, &given.round), round.number)
    &&& call_ensures(E::round_base, (&environment, &given.round), round.base)
    &&& call_ensures(E::round_state, (&environment, &given.round), round.state)
    &&& is_finalized_in(round.state, round.finalized)
}

/// The block that the round has finalized is asked to be finalized, with the
/// round's precommits.
pub open spec fn asks_to_finalize<E: Environment>(
    environment: E,
    round: CompletedRound<E>,
    task: FinalizeTask<E>,
    action: Action<E>,
) -> bool {
    &&& action matches Action::FinalizeBlock { hash, number, round_number, commit, then }
    &&& cloned(round.finalized.0, hash)
    &&& number == round.finalized.1
    &&& round_number == round.number
    &&& cloned(round.finalized.0, commit.target_hash)
    &&& commit.target_number == round.finalized.1
    &&& call_ensures(
        E::finalizing_precommits,
        (&environment, &round.round),
        Some(commit.precommits),
    )
    &&& then == task
}

/// The block that a completable round has finalized is to be finalized if it is
/// higher than any finalized block so far. If not, the round is noted as completed
/// right away.
pub open spec fn on_completable_round<E: Environment>(
    voter: VoterState<E>,
    given: CompletableRound<E>,
    action: Action<E>,
) -> bool {
    exists|round: CompletedRound<E>|
        {
            &&& #[trigger] describes(voter.environment, given, round)
            &&& by_height(
                round.finalized.1,
                voter.best_finalized.1,
                asks_to_finalize(
                    voter.environment,
                    round,
                    FinalizeTask::CompletableRound(round),
                    action,
                ),
                action == Action::NoteCompleted(CompletedTask::CompletableRound(round)),
            )
        }
}

/// A concluded round is noted as such, with what the environment says of it.
pub open spec fn on_concluded_round<E: Environment>(
    voter: VoterState<E>,
    given: ConcludedRound<E>,
    action: Action<E>,
) -> bool {
    &&& action matches Action::NoteConcluded(report)
    &&& report.round == given.round
    &&& call_ensures(E::round_number, (&voter.environment, &given.round), report.number)
    &&& call_ensures(E::round_base, (&voter.environment, &given.round), report.base)
    &&& call_ensures(E::round_state, (&voter.environment, &given.round), report.state)
}

/// The block is asked to be finalized with the commit that is for it.
pub open spec fn asks_to_finalize_with<E: Environment>(
    block: Block<E>,
    round_number: u64,
    commit: CommitIn<E>,
    action: Action<E>,
) -> bool {
    &&& action matches Action::FinalizeBlock {
        hash,
        number,
        round_number: at,
        commit: finalizing,
        ..
    }
    &&& cloned(block.0, hash)
    &&& number == block.1
    &&& at == round_number
    &&& finalizing == commit
}

/// The block of a commit of the background round is to be finalized with this
/// commit if it is higher than any finalized block so far. If not, it has still
/// been finalized by a round.
pub open spec fn on_commit_broadcast<E: Environment>(
    voter: VoterState<E>,
    commit: BackgroundRoundCommit<E>,
    after: VoterState<E>,
    action: Action<E>,
) -> bool {
    let target = (commit.commit.target_hash, commit.commit.target_number);
    let asks = {
        &&& after == voter
        &&& asks_to_finalize_with(target, commit.round_number, commit.commit, action)
        &&& action->FinalizeBlock_then matches FinalizeTask::BackgroundRoundCommit { block }
        &&& same_block(target, block)
    };
    let takes_note = {
        &&& raised(voter.best_finalized_in_rounds, target, after.best_finalized_in_rounds)
        &&& after == (VoterState {
            best_finalized_in_rounds: after.best_finalized_in_rounds,
            ..voter
        })
        &&& action == Action::<E>::Idle
    };
    by_height(target.1, voter.best_finalized.1, asks, takes_note)
}

/// A commit of the background round is first sent to the other nodes, if they
/// are to hear of it.
pub open spec fn on_background_round_commit<E: Environment>(
    voter: VoterState<E>,
    commit: BackgroundRoundCommit<E>,
    after: VoterState<E>,
    action: Action<E>,
) -> bool {
    if commit.broadcast {
        &&& after == voter
        &&& action matches Action::Broadcast { message, then }
        &&& message matches GlobalCommunicationOutgoing::Commit(round_number, sent)
        &&& round_number == commit.round_number
        &&& same_commit(commit.commit, sent)
        &&& then == commit
    } else {
        on_commit_broadcast(voter, commit, after, action)
    }
}

/// The commit is for the round that runs in the background.
pub open spec fn is_for_background_round<E: Environment>(
    voter: VoterState<E>,
    round_number: u64,
) -> bool {
    voter.current_round_number == round_number + 1
}

/// The block that a commit from another node was found to finalize is to be
/// finalized with this commit if it is higher than any finalized block so far. If
/// not, the outcome is reported right away.
pub open spec fn on_commit_validated<E: Environment>(
    voter: VoterState<E>,
    round_number: u64,
    commit: CommitIn<E>,
    result: CommitValidationResult<E::Hash, E::Number>,
    callback: Callback<E::CommitCallback>,
    action: Action<E>,
) -> bool {
    let block = result.finalized->0;
    let asks = {
        &&& asks_to_finalize_with(block, round_number, commit, action)
        &&& action->FinalizeBlock_then matches FinalizeTask::IncomingCommit {
            block: to_finalize,
            result: found,
            callback: told,
        }
        &&& same_block(block, to_finalize)
        &&& found == result
        &&& told == callback
    };
    let reports = action == (Action::<E>::ReportCommit {
        outcome: commit_outcome(result),
        callback,
    });
    if result.finalized is Some {
        by_height(block.1, voter.best_finalized.1, asks, reports)
    } else {
        reports
    }
}

/// A commit from another node is handed on if it is for the background round, and
/// validated if not. An error of the validation is returned.
pub open spec fn on_incoming_commit<E: Environment>(
    voter: VoterState<E>,
    round_number: u64,
    commit: CommitIn<E>,
    callback: Callback<E::CommitCallback>,
    result: Result<Action<E>, E::Error>,
) -> bool {
    if is_for_background_round(voter, round_number) {
        result == Ok::<Action<E>, E::Error>(Action::ForwardCommit { commit, callback })
    } else {
        exists|answer: Result<CommitValidationResult<E::Hash, E::Number>, E::Error>|
            {
                &&& #[trigger] call_ensures(
                    E::validate_commit,
                    (&voter.environment, &commit, &voter.voters),
                    answer,
                )
                &&& match answer {
                    Ok(found) => result matches Ok(action) && on_commit_validated(
                        voter,
                        round_number,
                        commit,
                        found,
                        callback,
                        action,
                    ),
                    Err(e) => result == Err::<Action<E>, E::Error>(e),
                }
            }
    }
}

/// A catch up for a round that is not later than the current one is useless, and
/// one for a later round is bad unless its votes are decisive, can be imported
/// and complete the round.
pub open spec fn on_incoming_catch_up<E: Environment>(
    voter: VoterState<E>,
    catch_up: CatchUpIn<E>,
    callback: Callback<E::CatchUpCallback>,
    action: Action<E>,
) -> bool {
    if catch_up.round_number <= voter.current_round_number {
        action == (Action::<E>::ReportCatchUp {
            outcome: CatchUpProcessingOutcome::Useless,
            callback,
        })
    } else {
        exists|imported: Option<E::Round>|
            {
                &&& #[trigger] catch_up_result(
                    voter.environment,
                    voter.voters,
                    catch_up,
                    voter.current_round_number,
                    imported,
                )
                &&& match imported {
                    Some(round) => action == Action::<E>::FetchRoundData(
                        CatchUpTask { round_number: catch_up.round_number, round, callback },
                    ),
                    None => action == (Action::<E>::ReportCatchUp {
                        outcome: CatchUpProcessingOutcome::Bad,
                        callback,
                    }),
                }
            }
    }
}

/// The round of a catch up is noted as completed, with the votes that are still
/// to come and with what the environment says of the round.
pub open spec fn on_round_data_fetched<E: Environment>(
    voter: VoterState<E>,
    task: CatchUpTask<E>,
    incoming: E::Incoming,
    action: Action<E>,
) -> bool {
    &&& action matches Action::NoteCompleted(CompletedTask::CatchUp { round, callback })
    &&& callback == task.callback
    &&& round.round == task.round
    &&& round.incoming == incoming
    &&& round.number == task.round_number
    &&& call_ensures(E::round_base, (&voter.environment, &task.round), round.base)
    &&& call_ensures(E::round_state, (&voter.environment, &task.round), round.state)
    &&& is_finalized_in(round.state, round.finalized)
}

/// A message from another node is a commit, which is expanded first, or a catch
/// up.
pub open spec fn on_global_message<E: Environment>(
    voter: VoterState<E>,
    message: IncomingMessage<E>,
    result: Result<Action<E>, E::Error>,
) -> bool {
    match message {
        GlobalCommunicationIncoming::Commit(round_number, compact, callback) => {
            exists|commit: CommitIn<E>|
                {
                    &&& #[trigger] expands_to(compact, commit)
                    &&& on_incoming_commit(voter, round_number, commit, callback, result)
                }
        },
        GlobalCommunicationIncoming::CatchUp(catch_up, callback) => {
            result matches Ok(action) && on_incoming_catch_up(voter, catch_up, callback, action)
        },
    }
}

/// Every event starts its own task, and an event that is an error is returned.
pub open spec fn on_event<E: Environment>(
    voter: VoterState<E>,
    event: Event<E>,
    after: VoterState<E>,
    result: Result<Action<E>, E::Error>,
) -> bool {
    match event {
        Event::VotingRound(Ok(round)) => {
            &&& after == voter
            &&& result matches Ok(action) && on_completable_round(voter, round, action)
        },
        Event::BackgroundRound(Ok(round)) => {
            &&& after == voter
            &&& result matches Ok(action) && on_concluded_round(voter, round, action)
        },
        Event::BackgroundRoundCommit(commit) => {
            result matches Ok(action) && on_background_round_commit(voter, commit, after, action)
        },
        Event::GlobalMessage(Ok(message)) => {
            &&& after == voter
            &&& on_global_message(voter, message, result)
        },
        Event::VotingRound(Err(e)) | Event::BackgroundRound(Err(e)) | Event::GlobalMessage(
            Err(e),
        ) => {
            &&& after == voter
            &&& result == Err::<Action<E>, E::Error>(e)
        },
    }
}

/// The round is asked to go on in the background, and the voter to vote in the
/// round after it, on top of the block that the round has finalized.
pub open spec fn asks_to_start<E: Environment>(
    round: CompletedRound<E>,
    action: Action<E>,
) -> bool {
    &&& action matches Action::StartRounds { background, voting, then }
    &&& background.round == round.round
    &&& background.incoming == round.incoming
    &&& voting.number == round.number + 1
    &&& voting.base == round.finalized
    &&& voting.previous_state == round.state
}

/// The rounds that are asked for after a catch up are started on its behalf.
pub open spec fn asks_to_start_after_catch_up<E: Environment>(
    round: CompletedRound<E>,
    callback: Callback<E::CatchUpCallback>,
    action: Action<E>,
) -> bool {
    &&& asks_to_start(round, action)
    &&& action->StartRounds_then matches StartTask::CatchUp { round_number, callback: told }
    &&& round_number == round.number + 1
    &&& told == callback
}

/// A block that has been finalized is the best finalized one. An error leaves
/// everything as it was and is returned.
pub open spec fn on_block_finalized<E: Environment>(
    voter: VoterState<E>,
    task: FinalizeTask<E>,
    outcome: Result<(), E::Error>,
    after: VoterState<E>,
    result: Result<Action<E>, E::Error>,
) -> bool {
    match (outcome, task) {
        (Err(e), _) => {
            &&& after == voter
            &&& result == Err::<Action<E>, E::Error>(e)
        },
        (Ok(_), FinalizeTask::CompletableRound(round)) => {
            &&& same_block(round.finalized, after.best_finalized)
            &&& after == (VoterState { best_finalized: after.best_finalized, ..voter })
            &&& result == Ok::<Action<E>, E::Error>(
                Action::NoteCompleted(CompletedTask::CompletableRound(round)),
            )
        },
        (Ok(_), FinalizeTask::BackgroundRoundCommit { block }) => {
            &&& raised(
                voter.best_finalized_in_rounds,
                block,
                after.best_finalized_in_rounds,
            )
            &&& after == (VoterState {
                best_finalized: block,
                best_finalized_in_rounds: after.best_finalized_in_rounds,
                ..voter
            })
            &&& result == Ok::<Action<E>, E::Error>(Action::Idle)
        },
        (Ok(_), FinalizeTask::IncomingCommit { block, result: found, callback }) => {
            &&& after == (VoterState { best_finalized: block, ..voter })
            &&& result == Ok::<Action<E>, E::Error>(
                Action::ReportCommit { outcome: commit_outcome(found), callback },
            )
        },
        (Ok(_), FinalizeTask::CatchUp { round, callback }) => {
            &&& same_block(round.finalized, after.best_finalized)
            &&& after == (VoterState { best_finalized: after.best_finalized, ..voter })
            &&& result matches Ok(action) && asks_to_start_after_catch_up(round, callback, action)
        },
    }
}

/// The number of the round that is completed.
pub open spec fn completed_number<E: Environment>(task: CompletedTask<E>) -> u64 {
    match task {
        CompletedTask::CompletableRound(round) => round.number,
        CompletedTask::CatchUp { round, .. } => round.number,
    }
}

/// The round that is completed.
pub open spec fn completed_round<E: Environment>(task: CompletedTask<E>) -> E::Round {
    match task {
        CompletedTask::CompletableRound(round) => round.round,
        CompletedTask::CatchUp { round, .. } => round.round,
    }
}

/// A completed round goes on in the background, and the voter votes in the round
/// after it. The block that the round of a catch up has finalized is finalized
/// before that, if it is higher than any finalized block so far. An error leaves
/// everything as it was and is returned.
pub open spec fn on_round_completed<E: Environment>(
    voter: VoterState<E>,
    task: CompletedTask<E>,
    outcome: Result<(), E::Error>,
    after: VoterState<E>,
    result: Result<Action<E>, E::Error>,
) -> bool {
    match (outcome, task) {
        (Err(e), _) => {
            &&& after == voter
            &&& result == Err::<Action<E>, E::Error>(e)
        },
        (Ok(_), CompletedTask::CompletableRound(round)) => {
            &&& raised(
                voter.best_finalized_in_rounds,
                round.finalized,
                after.best_finalized_in_rounds,
            )
            &&& after == (VoterState {
                best_finalized_in_rounds: after.best_finalized_in_rounds,
                ..voter
            })
            &&& result matches Ok(action)
            &&& asks_to_start(round, action)
            &&& action->StartRounds_then matches StartTask::CompletableRound { round_number }
            &&& round_number == round.number + 1
        },
        (Ok(_), CompletedTask::CatchUp { round, callback }) => {
            &&& after == voter
            &&& result matches Ok(action)
            &&& by_height(
                round.finalized.1,
                voter.best_finalized.1,
                asks_to_finalize(
                    voter.environment,
                    round,
                    FinalizeTask::CatchUp { round, callback },
                    action,
                ),
                asks_to_start_after_catch_up(round, callback, action),
            )
        },
    }
}

/// Once its round runs, the voter is in this round. A catch up was good.
pub open spec fn on_rounds_started<E: Environment>(
    voter: VoterState<E>,
    task: StartTask<E>,
    after: VoterState<E>,
    action: Action<E>,
) -> bool {
    match task {
        StartTask::CompletableRound { round_number } => {
            &&& after == (VoterState { current_round_number: round_number, ..voter })
            &&& action == Action::<E>::Idle
        },
        StartTask::CatchUp { round_number, callback } => {
            &&& after == (VoterState { current_round_number: round_number, ..voter })
            &&& action == (Action::<E>::ReportCatchUp {
                outcome: CatchUpProcessingOutcome::Good,
                callback,
            })
        },
    }
}

impl<E: Environment> Voter<E> {
    /// A voter that was last in the round `last_round_number`, with the round that
    /// it takes up again in the background and the round that it votes in.
    pub fn new(
        environment: E,
        voters: VoterSet<E::Id>,
        last_round_number: u64,
        last_round_votes: Vec<E::SignedMessage>,
        last_round_base: Block<E>,
        best_finalized: Block<E>,
    ) -> (started: (Voter<E>, RoundRestore<E>, VotingRoundStart<E>))
        requires
            last_round_number < u64::MAX,
        ensures
            started.0@.environment == environment,
            started.0@.voters == voters,
            on_start(
                last_round_number,
                last_round_votes,
                last_round_base,
                best_finalized,
                started.0@,
                started.1,
                started.2,
            ),
    {
        let base = copy_block(&last_round_base);
        let last_round_state = environment.genesis_state(base);
        let restore = RoundRestore {
            number: last_round_number,
            base: last_round_base,
            votes: last_round_votes,
        };
        let voting = VotingRoundStart {
            number: last_round_number + 1,
            base: copy_block(&best_finalized),
            previous_state: last_round_state,
        };
        let voter = Voter {
            voters,
            environment,
            best_finalized_in_rounds: copy_block(&best_finalized),
            best_finalized,
            current_round_number: last_round_number + 1,
        };
        assert(call_ensures(
            E::genesis_state,
            (&voter@.environment, base),
            voting.previous_state,
        ));
        (voter, restore, voting)
    }

    /// The world around the voter.
    pub fn environment(&self) -> (environment: &E)
        ensures
            *environment == self@.environment,
    {
        &self.environment
    }

    /// Who votes.
    pub fn voters(&self) -> (voters: &VoterSet<E::Id>)
        ensures
            *voters == self@.voters,
    {
        &self.voters
    }

    /// The best finalized block so far.
    pub fn best_finalized(&self) -> (block: &Block<E>)
        ensures
            *block == self@.best_finalized,
    {
        &self.best_finalized
    }

    /// The best finalized block so far that has been finalized through the normal
    /// round lifecycle.
    pub fn best_finalized_in_rounds(&self) -> (block: &Block<E>)
        ensures
            *block == self@.best_finalized_in_rounds,
    {
        &self.best_finalized_in_rounds
    }

    /// The number of the round that the voter votes in.
    pub fn current_round_number(&self) -> (number: u64)
        ensures
            number == self@.current_round_number,
    {
        self.current_round_number
    }

    /// Takes in an event and starts on it. A voting round that is over must have
    /// finalized a block, and know the precommits for it if it is to be finalized.
    pub fn run(&mut self, event: Event<E>) -> (result: Result<Action<E>, E::Error>)
        requires
            event matches Event::VotingRound(Ok(round)) ==> can_be_completed(
                old(self)@,
                round.round,
            ),
        ensures
            on_event(old(self)@, event, final(self)@, result),
    {
        match event {
            Event::VotingRound(completable_round) => match completable_round {
                Ok(round) => Ok(self.handle_completable_round(round)),
                Err(e) => Err(e),
            },
            Event::BackgroundRound(concluded_round) => match concluded_round {
                Ok(round) => Ok(self.handle_concluded_round(round)),
                Err(e) => Err(e),
            },
            Event::BackgroundRoundCommit(commit) => Ok(self.handle_background_round_commit(commit)),
            Event::GlobalMessage(message) => match message {
                Ok(message) => self.handle_incoming_global_message(message),
                Err(e) => Err(e),
            },
        }
    }

    /// Starts on the end of the voting round, which must have finalized a block, and
    /// know the precommits for it if it is to be finalized.
    pub fn handle_completable_round(&self, round: CompletableRound<E>) -> (action: Action<E>)
        requires
            can_be_completed(self@, round.round),
        ensures
            on_completable_round(self@, round, action),
    {
        let ghost given = round;
        let state = self.environment.round_state(&round.round);
        let round = CompletedRound {
            number: self.environment.round_number(&round.round),
            base: self.environment.round_base(&round.round),
            finalized: copy_block(state.finalized.as_ref().unwrap()),
            state,
            round: round.round,
            incoming: round.incoming,
        };
        assert(describes(self@.environment, given, round));
        if is_above(&round.finalized.1, &self.best_finalized.1) {
            let commit = self.finalizing_commit(&round);
            Action::FinalizeBlock {
                hash: round.finalized.0.clone(),
                number: round.finalized.1,
                round_number: round.number,
                commit,
                then: FinalizeTask::CompletableRound(round),
            }
        } else {
            Action::NoteCompleted(CompletedTask::CompletableRound(round))
        }
    }

    /// The commit by which the round has finalized its block.
    fn finalizing_commit(&self, round: &CompletedRound<E>) -> (commit: CommitIn<E>)
        requires
            has_finalizing_precommits(self@.environment, round.round),
        ensures
            cloned(round.finalized.0, commit.target_hash),
            commit.target_number == round.finalized.1,
            call_ensures(
                E::finalizing_precommits,
                (&self@.environment, &round.round),
                Some(commit.precommits),
            ),
    {
        Commit {
            target_hash: round.finalized.0.clone(),
            target_number: round.finalized.1,
            precommits: self.environment.finalizing_precommits(&round.round).unwrap(),
        }
    }

    /// Starts on the end of the background round.
    pub fn handle_concluded_round(&self, round: ConcludedRound<E>) -> (action: Action<E>)
        ensures
            on_concluded_round(self@, round, action),
    {
        Action::NoteConcluded(
            RoundReport {
                number: self.environment.round_number(&round.round),
                base: self.environment.round_base(&round.round),
                state: self.environment.round_state(&round.round),
                round: round.round,
            },
        )
    }

    /// Starts on a commit of the background round.
    pub fn handle_background_round_commit(&mut self, commit: BackgroundRoundCommit<E>) -> (action:
        Action<E>)
        ensures
            on_background_round_commit(
                old(self)@,
                commit,
                final(self)@,
                action,
            ),
    {
        if commit.broadcast {
            let message = GlobalCommunicationOutgoing::Commit(
                commit.round_number,
                commit.commit.clone(),
            );
            Action::Broadcast { message, then: commit }
        } else {
            self.commit_broadcast(commit)
        }
    }

    /// Goes on with a commit of the background round that the other nodes have
    /// been sent, or are not to hear of.
    pub fn commit_broadcast(&mut self, commit: BackgroundRoundCommit<E>) -> (action: Action<E>)
        ensures
            on_commit_broadcast(
                old(self)@,
                commit,
                final(self)@,
                action,
            ),
    {
        if is_above(&commit.commit.target_number, &self.best_finalized.1) {
            let new_best_finalized = (
                commit.commit.target_hash.clone(),
                commit.commit.target_number,
            );
            Action::FinalizeBlock {
                hash: commit.commit.target_hash.clone(),
                number: commit.commit.target_number,
                round_number: commit.round_number,
                commit: commit.commit,
                then: FinalizeTask::BackgroundRoundCommit { block: new_best_finalized },
            }
        } else {
            let target = (commit.commit.target_hash, commit.commit.target_number);
            self.raise_best_finalized_in_rounds(&target);
            Action::Idle
        }
    }

    /// Starts on a message from another node.
    pub fn handle_incoming_global_message(&self, message: IncomingMessage<E>) -> (result: Result<
        Action<E>,
        E::Error,
    >)
        ensures
            on_global_message(
                self@,
                message,
                result,
            ),
    {
        match message {
            GlobalCommunicationIncoming::Commit(round_number, compact, callback) => {
                let commit = compact.into_commit();
                self.handle_incoming_commit_message(round_number, commit, callback)
            },
            GlobalCommunicationIncoming::CatchUp(catch_up, callback) => {
                Ok(self.handle_incoming_catch_up_message(catch_up, callback))
            },
        }
    }

    /// Starts on a catch up from another node.
    pub fn handle_incoming_catch_up_message(
        &self,
        catch_up: CatchUpIn<E>,
        callback: Callback<E::CatchUpCallback>,
    ) -> (action: Action<E>)
        ensures
            on_incoming_catch_up(self@, catch_up, callback, action),
    {
        let round_number: u64 = catch_up.round_number;
        if round_number <= self.current_round_number {
            return Action::ReportCatchUp { outcome: CatchUpProcessingOutcome::Useless, callback };
        }
        let imported = validate_catch_up(
            catch_up,
            &self.environment,
            &self.voters,
            self.current_round_number,
        );
        assert(catch_up_result(
            self@.environment,
            self@.voters,
            catch_up,
            self@.current_round_number,
            imported,
        ));
        match imported {
            Some(round) => Action::FetchRoundData(CatchUpTask { round_number, round, callback }),
            None => Action::ReportCatchUp { outcome: CatchUpProcessingOutcome::Bad, callback },
        }
    }

    /// Goes on with a catch up, once it is known how to take part in its round. The
    /// round must have finalized a block.
    pub fn round_data_fetched<Timer, Outgoing>(
        &self,
        task: CatchUpTask<E>,
        round_data: RoundData<E::Id, Timer, E::Incoming, Outgoing>,
    ) -> (action: Action<E>)
        requires
            has_finalized(self@.environment, task.round),
        ensures
            on_round_data_fetched(self@, task, round_data.incoming, action),
    {
        let state = self.environment.round_state(&task.round);
        let round = CompletedRound {
            number: task.round_number,
            base: self.environment.round_base(&task.round),
            finalized: copy_block(state.finalized.as_ref().unwrap()),
            state,
            round: task.round,
            incoming: round_data.incoming,
        };
        Action::NoteCompleted(CompletedTask::CatchUp { round, callback: task.callback })
    }

    /// Starts on a commit from another node.
    pub fn handle_incoming_commit_message(
        &self,
        round_number: u64,
        commit: CommitIn<E>,
        callback: Callback<E::CommitCallback>,
    ) -> (result: Result<Action<E>, E::Error>)
        ensures
            on_incoming_commit(
                self@,
                round_number,
                commit,
                callback,
                result,
            ),
    {
        match self.current_round_number.checked_sub(1) {
            Some(background_round_number) if background_round_number == round_number => {
                return Ok(Action::ForwardCommit { commit, callback });
            },
            _ => {},
        }
        match self.environment.validate_commit(&commit, &self.voters) {
            Ok(result) => Ok(self.commit_validated(round_number, commit, result, callback)),
            Err(e) => Err(e),
        }
    }

    /// Goes on with a commit from another node, once it has been validated.
    pub fn commit_validated(
        &self,
        round_number: u64,
        commit: CommitIn<E>,
        result: CommitValidationResult<E::Hash, E::Number>,
        callback: Callback<E::CommitCallback>,
    ) -> (action: Action<E>)
        ensures
            on_commit_validated(
                self@,
                round_number,
                commit,
                result,
                callback,
                action,
            ),
    {
        if let Some(finalized) = &result.finalized {
            if is_above(&finalized.1, &self.best_finalized.1) {
                let hash = finalized.0.clone();
                let block = copy_block(finalized);
                return Action::FinalizeBlock {
                    hash,
                    number: block.1,
                    round_number,
                    commit,
                    then: FinalizeTask::IncomingCommit { block, result, callback },
                };
            }
        }
        Action::ReportCommit { outcome: CommitProcessingOutcome::from(result), callback }
    }

    /// Goes on after a block was to be finalized.
    pub fn block_finalized(&mut self, task: FinalizeTask<E>, outcome: Result<(), E::Error>) -> (result:
        Result<Action<E>, E::Error>)
        requires
            outcome is Ok ==> (task matches FinalizeTask::CatchUp { round, .. } ==> round.number
                < u64::MAX),
        ensures
            on_block_finalized(
                old(self)@,
                task,
                outcome,
                final(self)@,
                result,
            ),
    {
        if let Err(e) = outcome {
            return Err(e);
        }
        match task {
            FinalizeTask::CompletableRound(round) => {
                self.best_finalized = copy_block(&round.finalized);
                Ok(Action::NoteCompleted(CompletedTask::CompletableRound(round)))
            },
            FinalizeTask::BackgroundRoundCommit { block } => {
                self.raise_best_finalized_in_rounds(&block);
                self.best_finalized = block;
                Ok(Action::Idle)
            },
            FinalizeTask::IncomingCommit { block, result, callback } => {
                self.best_finalized = block;
                Ok(Action::ReportCommit { outcome: CommitProcessingOutcome::from(result), callback })
            },
            FinalizeTask::CatchUp { round, callback } => {
                self.best_finalized = copy_block(&round.finalized);
                Ok(self.start_after_catch_up(round, callback))
            },
        }
    }

    /// Goes on after a round was to be noted as completed.
    pub fn round_completed(&mut self, task: CompletedTask<E>, outcome: Result<(), E::Error>) -> (result:
        Result<Action<E>, E::Error>)
        requires
            outcome is Ok ==> completed_number(task) < u64::MAX,
            outcome is Ok ==> (task matches CompletedTask::CatchUp { round, .. }
                ==> can_be_finalized(old(self)@, round.round, round.finalized.1)),
        ensures
            on_round_completed(
                old(self)@,
                task,
                outcome,
                final(self)@,
                result,
            ),
    {
        if let Err(e) = outcome {
            return Err(e);
        }
        match task {
            CompletedTask::CompletableRound(round) => {
                self.raise_best_finalized_in_rounds(&round.finalized);
                let round_number: u64 = round.number + 1;
                Ok(
                    Action::StartRounds {
                        background: BackgroundRoundStart {
                            round: round.round,
                            incoming: round.incoming,
                        },
                        voting: VotingRoundStart {
                            number: round_number,
                            base: round.finalized,
                            previous_state: round.state,
                        },
                        then: StartTask::CompletableRound { round_number },
                    },
                )
            },
            CompletedTask::CatchUp { round, callback } => {
                if is_above(&round.finalized.1, &self.best_finalized.1) {
                    let commit = self.finalizing_commit(&round);
                    return Ok(
                        Action::FinalizeBlock {
                            hash: round.finalized.0.clone(),
                            number: round.finalized.1,
                            round_number: round.number,
                            commit,
                            then: FinalizeTask::CatchUp { round, callback },
                        },
                    );
                }
                Ok(self.start_after_catch_up(round, callback))
            },
        }
    }

    /// The rounds that are started after a catch up.
    fn start_after_catch_up(
        &self,
        round: CompletedRound<E>,
        callback: Callback<E::CatchUpCallback>,
    ) -> (action: Action<E>)
        requires
            round.number < u64::MAX,
        ensures
            asks_to_start_after_catch_up(round, callback, action),
    {
        let round_number: u64 = round.number + 1;
        Action::StartRounds {
            background: BackgroundRoundStart { round: round.round, incoming: round.incoming },
            voting: VotingRoundStart {
                number: round_number,
                base: round.finalized,
                previous_state: round.state,
            },
            then: StartTask::CatchUp { round_number, callback },
        }
    }

    /// Goes on after rounds were started.
    pub fn rounds_started(&mut self, task: StartTask<E>) -> (action: Action<E>)
        ensures
            on_rounds_started(old(self)@, task, final(self)@, action),
    {
        match task {
            StartTask::CompletableRound { round_number } => {
                self.current_round_number = round_number;
                Action::Idle
            },
            StartTask::CatchUp { round_number, callback } => {
                self.current_round_number = round_number;
                Action::ReportCatchUp { outcome: CatchUpProcessingOutcome::Good, callback }
            },
        }
    }

    /// Goes on after a round was to be noted as concluded.
    pub fn round_concluded(&self, outcome: Result<(), E::Error>) -> (result: Result<
        Action<E>,
        E::Error,
    >)
        ensures
            result == match outcome {
                Ok(_) => Ok::<Action<E>, E::Error>(Action::Idle),
                Err(e) => Err(e),
            },
    {
        match outcome {
            Ok(_) => Ok(Action::Idle),
            Err(e) => Err(e),
        }
    }

    /// Takes note of a block that a round has finalized.
    fn raise_best_finalized_in_rounds(&mut self, block: &Block<E>)
        ensures
            raised(
                old(self)@.best_finalized_in_rounds,
                *block,
                final(self)@.best_finalized_in_rounds,
            ),
            final(self)@ == (VoterState {
                best_finalized_in_rounds: final(self)@.best_finalized_in_rounds,
                ..old(self)@
            }),
    {
        if is_above(&block.1, &self.best_finalized_in_rounds.1) {
            self.best_finalized_in_rounds = copy_block(block);
        }
    }
}

} // verus!
