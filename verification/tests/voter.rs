use grandpa_voter::action::{
    Action, BackgroundRoundCommit, CompletableRound, CompletedTask, ConcludedRound, Event,
    FinalizeTask,
};
use grandpa_voter::callback::Callback;
use grandpa_voter::catch_up::validate_catch_up;
use grandpa_voter::communication::{
    GlobalCommunicationIncoming, GlobalCommunicationOutgoing, RoundData,
};
use grandpa_voter::environment::{Environment, RoundState};
use grandpa_voter::messages::{
    CatchUp, Commit, CompactCommit, Precommit, Prevote, SignedPrecommit, SignedPrevote,
};
use grandpa_voter::outcome::{
    CatchUpProcessingOutcome, CommitProcessingOutcome, CommitValidationResult,
};
use grandpa_voter::voter::Voter;
use grandpa_voter::voter_set::VoterSet;

type Hash = &'static str;

#[derive(Debug, Clone, PartialEq, Eq)]
struct TestRound {
    number: u64,
    base: (Hash, u32),
    state: &'static str,
    finalized: (Hash, u32),
    votes: Vec<String>,
}

struct TestEnvironment {
    refused_prevote: Option<u64>,
    refused_precommit: Option<u64>,
    completable: bool,
    caught_up: (Hash, u32),
    knows_precommits: bool,
    validation: Result<CommitValidationResult<Hash, u32>, String>,
}

fn environment() -> TestEnvironment {
    TestEnvironment {
        refused_prevote: None,
        refused_precommit: None,
        completable: true,
        caught_up: ("D", 12),
        knows_precommits: true,
        validation: Ok(found(None)),
    }
}

impl Environment for TestEnvironment {
    type Id = u64;
    type Hash = Hash;
    type Number = u32;
    type Signature = u8;
    type Error = String;
    type Round = TestRound;
    type StateDetails = String;
    type Incoming = &'static str;
    type SignedMessage = &'static str;
    type CommitCallback = Box<dyn FnMut(CommitProcessingOutcome)>;
    type CatchUpCallback = Box<dyn FnMut(CatchUpProcessingOutcome)>;

    fn genesis_state(&self, base: (Hash, u32)) -> RoundState<Hash, u32, String> {
        RoundState {
            finalized: Some(base),
            completable: true,
            details: format!("genesis at {} {}", base.0, base.1),
        }
    }

    fn new_round(&self, number: u64, _voters: &VoterSet<u64>, base: (Hash, u32)) -> TestRound {
        TestRound {
            number,
            base,
            state: "caught up",
            finalized: self.caught_up,
            votes: Vec::new(),
        }
    }

    fn import_prevote(
        &self,
        mut round: TestRound,
        prevote: Prevote<Hash, u32>,
        id: u64,
        signature: u8,
    ) -> Result<TestRound, String> {
        if self.refused_prevote == Some(id) {
            return Err(format!("prevote of {}", id));
        }
        round.votes.push(format!("prevote {} {} {}", prevote.target_hash, id, signature));
        Ok(round)
    }

    fn import_precommit(
        &self,
        mut round: TestRound,
        precommit: Precommit<Hash, u32>,
        id: u64,
        signature: u8,
    ) -> Result<TestRound, String> {
        if self.refused_precommit == Some(id) {
            return Err(format!("precommit of {}", id));
        }
        round.votes.push(format!("precommit {} {} {}", precommit.target_hash, id, signature));
        Ok(round)
    }

    fn round_number(&self, round: &TestRound) -> u64 {
        round.number
    }

    fn round_base(&self, round: &TestRound) -> (Hash, u32) {
        round.base
    }

    fn round_state(&self, round: &TestRound) -> RoundState<Hash, u32, String> {
        RoundState {
            finalized: Some(round.finalized),
            completable: self.completable,
            details: String::from(round.state),
        }
    }

    fn finalizing_precommits(
        &self,
        round: &TestRound,
    ) -> Option<Vec<SignedPrecommit<Hash, u32, u8, u64>>> {
        if self.knows_precommits {
            Some(vec![precommit(round.number)])
        } else {
            None
        }
    }

    fn validate_commit(
        &self,
        _commit: &Commit<Hash, u32, u8, u64>,
        _voters: &VoterSet<u64>,
    ) -> Result<CommitValidationResult<Hash, u32>, String> {
        self.validation.clone()
    }
}

fn found(finalized: Option<(Hash, u32)>) -> CommitValidationResult<Hash, u32> {
    CommitValidationResult {
        finalized,
        num_precommits: 4,
        num_duplicated_precommits: 3,
        num_equivocations: 2,
        num_invalid_voters: 1,
    }
}

fn prevote(id: u64) -> SignedPrevote<Hash, u32, u8, u64> {
    SignedPrevote { prevote: Prevote { target_hash: "P", target_number: 1 }, signature: 8, id }
}

fn precommit(id: u64) -> SignedPrecommit<Hash, u32, u8, u64> {
    SignedPrecommit {
        precommit: Precommit { target_hash: "Q", target_number: 1 },
        signature: 9,
        id,
    }
}

fn voters() -> VoterSet<u64> {
    VoterSet::new(vec![(1, 1), (2, 1), (3, 1)], 2).unwrap()
}

fn catch_up(round_number: u64) -> CatchUp<Hash, u32, u8, u64> {
    CatchUp {
        round_number,
        prevotes: vec![prevote(1), prevote(2)],
        precommits: vec![precommit(3), precommit(1)],
        base_hash: "base",
        base_number: 1,
    }
}

fn commit(target_hash: Hash, target_number: u32) -> Commit<Hash, u32, u8, u64> {
    Commit { target_hash, target_number, precommits: vec![precommit(2)] }
}

/// A voter in round 5 whose best finalized block is B at 10.
fn voter_in(environment: TestEnvironment) -> Voter<TestEnvironment> {
    Voter::new(environment, voters(), 4, vec!["vote"], ("last", 7), ("B", 10)).0
}

fn voter() -> Voter<TestEnvironment> {
    voter_in(environment())
}

fn round(number: u64, finalized: (Hash, u32)) -> TestRound {
    TestRound { number, base: ("r", 1), state: "state", finalized, votes: Vec::new() }
}

fn completable(number: u64, finalized: (Hash, u32)) -> CompletableRound<TestEnvironment> {
    CompletableRound { round: round(number, finalized), incoming: "in" }
}

fn round_data() -> RoundData<u64, (), &'static str, ()> {
    RoundData {
        voter_id: None,
        prevote_timer: (),
        precommit_timer: (),
        incoming: "incoming",
        outgoing: (),
    }
}

#[test]
fn voter_starts_after_the_last_round() {
    let (voter, restore, voting) =
        Voter::new(environment(), voters(), 4, vec!["vote"], ("last", 7), ("B", 10));
    assert_eq!(voter.current_round_number(), 5);
    assert_eq!(*voter.best_finalized(), ("B", 10));
    assert_eq!(*voter.best_finalized_in_rounds(), ("B", 10));
    assert!(voter.voters().contains(&3));
    assert!(voter.environment().completable);
    assert_eq!(restore.number, 4);
    assert_eq!(restore.base, ("last", 7));
    assert_eq!(restore.votes, vec!["vote"]);
    assert_eq!(voting.number, 5);
    assert_eq!(voting.base, ("B", 10));
    assert_eq!(voting.previous_state.details, "genesis at last 7");
}

#[test]
fn completable_round_finalizes_a_higher_block() {
    let mut voter = voter();
    let round = completable(5, ("C", 11));
    let then = match voter.run(Event::VotingRound(Ok(round))) {
        Ok(Action::FinalizeBlock { hash, number, round_number, commit, then }) => {
            assert_eq!((hash, number, round_number), ("C", 11, 5));
            assert_eq!((commit.target_hash, commit.target_number), ("C", 11));
            assert_eq!(commit.precommits, vec![precommit(5)]);
            then
        }
        _ => panic!("the block was not to be finalized"),
    };
    assert_eq!(*voter.best_finalized(), ("B", 10));
    let task = match voter.block_finalized(then, Ok(())) {
        Ok(Action::NoteCompleted(task)) => task,
        _ => panic!("the round was not completed"),
    };
    assert_eq!(*voter.best_finalized(), ("C", 11));
    let then = match voter.round_completed(task, Ok(())) {
        Ok(Action::StartRounds { background, voting, then }) => {
            assert_eq!(background.round.number, 5);
            assert_eq!(background.incoming, "in");
            assert_eq!(voting.number, 6);
            assert_eq!(voting.base, ("C", 11));
            assert_eq!(voting.previous_state.details, "state");
            then
        }
        _ => panic!("no rounds were started"),
    };
    assert_eq!(voter.current_round_number(), 5);
    assert!(matches!(voter.rounds_started(then), Action::Idle));
    assert_eq!(voter.current_round_number(), 6);
    assert_eq!(*voter.best_finalized_in_rounds(), ("C", 11));
}

#[test]
fn completable_round_with_an_old_block_is_completed_right_away() {
    for finalized in [("B", 10), ("A", 9)] {
        let mut voter = voter();
        match voter.run(Event::VotingRound(Ok(completable(5, finalized)))) {
            Ok(Action::NoteCompleted(CompletedTask::CompletableRound(round))) => {
                assert_eq!((round.number, round.base), (5, ("r", 1)));
                assert_eq!(round.state.details, "state");
                assert_eq!(round.state.finalized, Some(finalized));
                assert_eq!(round.finalized, finalized);
            }
            _ => panic!("the round was not completed"),
        }
        assert_eq!(*voter.best_finalized(), ("B", 10));
    }
}

#[test]
fn old_block_needs_no_precommits() {
    let mut voter = voter_in(TestEnvironment {
        knows_precommits: false,
        caught_up: ("A", 9),
        ..environment()
    });
    let task = caught_up(&voter, 8);
    assert!(matches!(voter.round_completed(task, Ok(())), Ok(Action::StartRounds { .. })));
    assert!(matches!(
        voter.run(Event::VotingRound(Ok(completable(5, ("B", 10))))),
        Ok(Action::NoteCompleted(_))
    ));
}

#[test]
fn failed_finalization_changes_nothing() {
    let mut voter = voter();
    let action = voter.handle_completable_round(completable(5, ("C", 11)));
    match action {
        Action::FinalizeBlock { then, .. } => {
            let result = voter.block_finalized(then, Err(String::from("disk")));
            assert_eq!(result.err(), Some(String::from("disk")));
        }
        _ => panic!("the block was not to be finalized"),
    }
    assert_eq!(*voter.best_finalized(), ("B", 10));
    assert_eq!(*voter.best_finalized_in_rounds(), ("B", 10));
    assert_eq!(voter.current_round_number(), 5);
}

#[test]
fn failed_completion_starts_no_round() {
    let mut voter = voter();
    let task = match voter.handle_completable_round(completable(5, ("A", 9))) {
        Action::NoteCompleted(task) => task,
        _ => panic!("the round was not completed"),
    };
    let result = voter.round_completed(task, Err(String::from("disk")));
    assert_eq!(result.err(), Some(String::from("disk")));
    assert_eq!(voter.current_round_number(), 5);
    assert_eq!(*voter.best_finalized_in_rounds(), ("B", 10));
}

#[test]
fn failed_rounds_and_messages_end_the_run() {
    let mut voter = voter();
    let e = || String::from("gone");
    assert_eq!(voter.run(Event::VotingRound(Err(e()))).err(), Some(e()));
    assert_eq!(voter.run(Event::BackgroundRound(Err(e()))).err(), Some(e()));
    assert_eq!(voter.run(Event::GlobalMessage(Err(e()))).err(), Some(e()));
}

#[test]
fn concluded_round_is_noted() {
    let mut voter = voter();
    let round = ConcludedRound { round: round(4, ("A", 9)) };
    match voter.run(Event::BackgroundRound(Ok(round))) {
        Ok(Action::NoteConcluded(report)) => {
            assert_eq!((report.number, report.base), (4, ("r", 1)));
            assert_eq!(report.state.details, "state");
            assert_eq!(report.state.finalized, Some(("A", 9)));
        }
        _ => panic!("the round was not concluded"),
    }
    assert!(matches!(voter.round_concluded(Ok(())), Ok(Action::Idle)));
    let result = voter.round_concluded(Err(String::from("disk")));
    assert_eq!(result.err(), Some(String::from("disk")));
}

#[test]
fn background_commit_is_broadcast_and_finalized() {
    let mut voter = voter();
    let event = Event::BackgroundRoundCommit(BackgroundRoundCommit {
        round_number: 4,
        commit: commit("C", 11),
        broadcast: true,
    });
    let then = match voter.run(event) {
        Ok(Action::Broadcast { message, then }) => {
            assert_eq!(message, GlobalCommunicationOutgoing::Commit(4, commit("C", 11)));
            then
        }
        _ => panic!("the commit was not broadcast"),
    };
    let then = match voter.commit_broadcast(then) {
        Action::FinalizeBlock { hash, number, round_number, commit: sent, then } => {
            assert_eq!((hash, number, round_number), ("C", 11, 4));
            assert_eq!(sent, commit("C", 11));
            then
        }
        _ => panic!("the block was not to be finalized"),
    };
    assert!(matches!(voter.block_finalized(then, Ok(())), Ok(Action::Idle)));
    assert_eq!(*voter.best_finalized(), ("C", 11));
    assert_eq!(*voter.best_finalized_in_rounds(), ("C", 11));
    assert_eq!(voter.current_round_number(), 5);
}

#[test]
fn background_commit_for_an_old_block_is_dropped() {
    let mut voter = voter();
    let action = voter.handle_background_round_commit(BackgroundRoundCommit {
        round_number: 4,
        commit: commit("B", 10),
        broadcast: false,
    });
    assert!(matches!(action, Action::Idle));
    assert_eq!(*voter.best_finalized(), ("B", 10));
}

#[test]
fn silent_background_commit_is_finalized_without_broadcast() {
    let mut voter = voter();
    let action = voter.handle_background_round_commit(BackgroundRoundCommit {
        round_number: 4,
        commit: commit("C", 11),
        broadcast: false,
    });
    assert!(matches!(action, Action::FinalizeBlock { number: 11, round_number: 4, .. }));
}

#[test]
fn commit_for_the_background_round_is_forwarded() {
    let mut voter = voter_in(TestEnvironment {
        validation: Err(String::from("not asked")),
        ..environment()
    });
    let compact = CompactCommit {
        target_hash: "C",
        target_number: 11,
        precommits: vec![Precommit { target_hash: "Q", target_number: 1 }],
        auth_data: vec![(9, 2)],
    };
    let message = GlobalCommunicationIncoming::Commit(4, compact, Callback::Blank);
    match voter.run(Event::GlobalMessage(Ok(message))) {
        Ok(Action::ForwardCommit { commit: sent, .. }) => assert_eq!(sent, commit("C", 11)),
        _ => panic!("the commit was not forwarded"),
    }
}

#[test]
fn commit_for_the_current_round_is_validated() {
    let voter = voter_in(TestEnvironment {
        validation: Err(String::from("no ancestor")),
        ..environment()
    });
    for round_number in [0, 3, 5, 6, u64::MAX] {
        let result =
            voter.handle_incoming_commit_message(round_number, commit("C", 11), Callback::Blank);
        assert_eq!(result.err(), Some(String::from("no ancestor")));
    }
}

#[test]
fn commit_that_finalizes_a_higher_block_is_finalized_and_good() {
    let mut voter =
        voter_in(TestEnvironment { validation: Ok(found(Some(("D", 12)))), ..environment() });
    let then = match voter.handle_incoming_commit_message(2, commit("C", 11), Callback::Blank) {
        Ok(Action::FinalizeBlock { hash, number, round_number, commit: sent, then }) => {
            assert_eq!((hash, number, round_number), ("D", 12, 2));
            assert_eq!(sent, commit("C", 11));
            then
        }
        _ => panic!("the block was not to be finalized"),
    };
    match voter.block_finalized(then, Ok(())) {
        Ok(Action::ReportCommit { outcome, callback }) => {
            assert_eq!(outcome, CommitProcessingOutcome::Good);
            assert!(matches!(callback, Callback::Blank));
        }
        _ => panic!("no outcome was reported"),
    }
    assert_eq!(*voter.best_finalized(), ("D", 12));
    assert_eq!(*voter.best_finalized_in_rounds(), ("B", 10));
    match voter.handle_incoming_commit_message(2, commit("C", 11), Callback::Blank) {
        Ok(Action::ReportCommit { outcome, .. }) => {
            assert_eq!(outcome, CommitProcessingOutcome::Good)
        }
        _ => panic!("the block was to be finalized again"),
    }
}

#[test]
fn commit_that_finalizes_nothing_is_reported_as_bad() {
    let voter = voter();
    match voter.handle_incoming_commit_message(2, commit("C", 11), Callback::Blank) {
        Ok(Action::ReportCommit { outcome, .. }) => assert_eq!(
            outcome,
            CommitProcessingOutcome::Bad {
                num_precommits: 4,
                num_duplicated_precommits: 3,
                num_equivocations: 2,
                num_invalid_voters: 1,
            }
        ),
        _ => panic!("no outcome was reported"),
    }
}

#[test]
fn rounds_go_on_being_accounted_after_a_global_commit() {
    let mut voter = voter();
    let action = voter.commit_validated(2, commit("E", 20), found(Some(("E", 20))), Callback::Blank);
    match action {
        Action::FinalizeBlock { then, .. } => {
            assert!(voter.block_finalized(then, Ok(())).is_ok());
        }
        _ => panic!("the block was not to be finalized"),
    }
    let action = voter.handle_completable_round(completable(5, ("C", 15)));
    match action {
        Action::NoteCompleted(task) => assert!(voter.round_completed(task, Ok(())).is_ok()),
        _ => panic!("the round was not completed"),
    }
    assert_eq!(*voter.best_finalized(), ("E", 20));
    assert_eq!(*voter.best_finalized_in_rounds(), ("C", 15));
    let action = voter.handle_background_round_commit(BackgroundRoundCommit {
        round_number: 4,
        commit: commit("D", 16),
        broadcast: false,
    });
    assert!(matches!(action, Action::Idle));
    assert_eq!(*voter.best_finalized_in_rounds(), ("D", 16));
}

#[test]
fn catch_up_moves_to_a_later_round() {
    let mut voter = voter();
    let message = GlobalCommunicationIncoming::CatchUp(catch_up(8), Callback::Blank);
    let task = match voter.run(Event::GlobalMessage(Ok(message))) {
        Ok(Action::FetchRoundData(task)) => task,
        _ => panic!("no round data were asked for"),
    };
    assert_eq!(task.round_number, 8);
    assert_eq!(
        task.round,
        TestRound {
            number: 8,
            base: ("base", 1),
            state: "caught up",
            finalized: ("D", 12),
            votes: vec![
                String::from("prevote P 1 8"),
                String::from("prevote P 2 8"),
                String::from("precommit Q 3 9"),
                String::from("precommit Q 1 9"),
            ],
        }
    );
    let task = match voter.round_data_fetched(task, round_data()) {
        Action::NoteCompleted(task) => task,
        _ => panic!("the round was not completed"),
    };
    let then = match voter.round_completed(task, Ok(())) {
        Ok(Action::FinalizeBlock { hash, number, round_number, commit, then }) => {
            assert_eq!((hash, number, round_number), ("D", 12, 8));
            assert_eq!((commit.target_hash, commit.target_number), ("D", 12));
            assert_eq!(commit.precommits, vec![precommit(8)]);
            then
        }
        _ => panic!("the block was not to be finalized"),
    };
    assert_eq!(*voter.best_finalized(), ("B", 10));
    assert_eq!(voter.current_round_number(), 5);
    let then = match voter.block_finalized(then, Ok(())) {
        Ok(Action::StartRounds { background, voting, then }) => {
            assert_eq!(background.round.number, 8);
            assert_eq!(background.incoming, "incoming");
            assert_eq!(voting.number, 9);
            assert_eq!(voting.base, ("D", 12));
            assert_eq!(voting.previous_state.details, "caught up");
            assert_eq!(voting.previous_state.finalized, Some(("D", 12)));
            then
        }
        _ => panic!("no rounds were started"),
    };
    assert_eq!(*voter.best_finalized(), ("D", 12));
    match voter.rounds_started(then) {
        Action::ReportCatchUp { outcome, .. } => {
            assert_eq!(outcome, CatchUpProcessingOutcome::Good)
        }
        _ => panic!("no outcome was reported"),
    }
    assert_eq!(voter.current_round_number(), 9);
    assert_eq!(*voter.best_finalized(), ("D", 12));
    assert_eq!(*voter.best_finalized_in_rounds(), ("B", 10));
    match voter.handle_incoming_catch_up_message(catch_up(8), Callback::Blank) {
        Action::ReportCatchUp { outcome, .. } => {
            assert_eq!(outcome, CatchUpProcessingOutcome::Useless)
        }
        _ => panic!("no outcome was reported"),
    }
    match voter.handle_incoming_commit_message(8, commit("D", 12), Callback::Blank) {
        Ok(Action::ForwardCommit { .. }) => {}
        _ => panic!("the commit was not forwarded"),
    }
}

/// The catch up is accepted, and its round is to be completed.
fn caught_up(voter: &Voter<TestEnvironment>, round_number: u64) -> CompletedTask<TestEnvironment> {
    let task = match voter.handle_incoming_catch_up_message(catch_up(round_number), Callback::Blank)
    {
        Action::FetchRoundData(task) => task,
        _ => panic!("no round data were asked for"),
    };
    match voter.round_data_fetched(task, round_data()) {
        Action::NoteCompleted(task) => task,
        _ => panic!("the round was not completed"),
    }
}

#[test]
fn catch_up_with_an_old_block_keeps_the_best_one() {
    for finalized in [("B", 10), ("A", 9)] {
        let mut voter = voter_in(TestEnvironment { caught_up: finalized, ..environment() });
        let task = caught_up(&voter, 8);
        let then = match voter.round_completed(task, Ok(())) {
            Ok(Action::StartRounds { background, voting, then }) => {
                assert_eq!(background.round.number, 8);
                assert_eq!((voting.number, voting.base), (9, finalized));
                then
            }
            _ => panic!("no rounds were started"),
        };
        assert!(matches!(
            voter.rounds_started(then),
            Action::ReportCatchUp { outcome: CatchUpProcessingOutcome::Good, .. }
        ));
        assert_eq!(*voter.best_finalized(), ("B", 10));
        assert_eq!(voter.current_round_number(), 9);
    }
}

#[test]
fn catch_up_whose_block_cannot_be_finalized_changes_nothing() {
    let mut voter = voter();
    let task = caught_up(&voter, 8);
    let then = match voter.round_completed(task, Ok(())) {
        Ok(Action::FinalizeBlock { then, .. }) => then,
        _ => panic!("the block was not to be finalized"),
    };
    assert!(matches!(then, FinalizeTask::CatchUp { .. }));
    let result = voter.block_finalized(then, Err(String::from("disk")));
    assert_eq!(result.err(), Some(String::from("disk")));
    assert_eq!(*voter.best_finalized(), ("B", 10));
    assert_eq!(*voter.best_finalized_in_rounds(), ("B", 10));
    assert_eq!(voter.current_round_number(), 5);
}

#[test]
fn catch_up_whose_round_cannot_be_noted_changes_nothing() {
    let mut voter = voter();
    let task = caught_up(&voter, 8);
    let result = voter.round_completed(task, Err(String::from("disk")));
    assert_eq!(result.err(), Some(String::from("disk")));
    assert_eq!(*voter.best_finalized(), ("B", 10));
    assert_eq!(voter.current_round_number(), 5);
}

/// Does what the voter asks for until it has nothing left to ask for, and keeps
/// the heights of the blocks and the numbers of the rounds in the order in which
/// they are finalized, completed and concluded.
fn perform(
    voter: &mut Voter<TestEnvironment>,
    mut action: Action<TestEnvironment>,
    finalized: &mut Vec<u32>,
    completed: &mut Vec<u64>,
    concluded: &mut Vec<u64>,
) {
    loop {
        action = match action {
            Action::FinalizeBlock { number, then, .. } => {
                finalized.push(number);
                voter.block_finalized(then, Ok(())).unwrap_or(Action::Idle)
            }
            Action::NoteCompleted(task) => {
                completed.push(match &task {
                    CompletedTask::CompletableRound(round) => round.number,
                    CompletedTask::CatchUp { round, .. } => round.number,
                });
                voter.round_completed(task, Ok(())).unwrap_or(Action::Idle)
            }
            Action::NoteConcluded(report) => {
                concluded.push(report.number);
                voter.round_concluded(Ok(())).unwrap_or(Action::Idle)
            }
            Action::FetchRoundData(task) => voter.round_data_fetched(task, round_data()),
            Action::StartRounds { then, .. } => voter.rounds_started(then),
            Action::Broadcast { then, .. } => voter.commit_broadcast(then),
            _ => return,
        }
    }
}

#[test]
fn rounds_are_completed_in_order_and_concluded_after() {
    let mut voter = voter();
    let mut finalized = Vec::new();
    let mut completed = Vec::new();
    let mut concluded = Vec::new();
    let message = GlobalCommunicationIncoming::CatchUp(catch_up(8), Callback::Blank);
    let again = GlobalCommunicationIncoming::CatchUp(catch_up(8), Callback::Blank);
    let events = vec![
        Event::BackgroundRound(Ok(ConcludedRound { round: round(4, ("B", 10)) })),
        Event::VotingRound(Ok(completable(5, ("C", 11)))),
        Event::BackgroundRound(Ok(ConcludedRound { round: round(5, ("C", 11)) })),
        Event::GlobalMessage(Ok(message)),
        Event::VotingRound(Ok(completable(9, ("E", 13)))),
        Event::GlobalMessage(Ok(again)),
        Event::VotingRound(Ok(completable(10, ("E", 13)))),
        Event::BackgroundRound(Ok(ConcludedRound { round: round(10, ("E", 13)) })),
    ];
    for event in events {
        if let Ok(action) = voter.run(event) {
            perform(&mut voter, action, &mut finalized, &mut completed, &mut concluded);
        }
    }
    assert_eq!(finalized, vec![11, 12, 13]);
    assert_eq!(completed, vec![5, 8, 9, 10]);
    assert_eq!(concluded, vec![4, 5, 10]);
    assert_eq!(voter.current_round_number(), 11);
}

#[test]
fn accepted_catch_up_stays_useless() {
    let mut voter = voter();
    let task = caught_up(&voter, 8);
    let action = Action::NoteCompleted(task);
    perform(&mut voter, action, &mut Vec::new(), &mut Vec::new(), &mut Vec::new());
    for round_number in [9, 10, 11] {
        assert_eq!(voter.current_round_number(), round_number);
        for earlier in [6, 7, 8] {
            match voter.handle_incoming_catch_up_message(catch_up(earlier), Callback::Blank) {
                Action::ReportCatchUp { outcome, .. } => {
                    assert_eq!(outcome, CatchUpProcessingOutcome::Useless)
                }
                _ => panic!("no outcome was reported"),
            }
        }
        let action = voter.handle_completable_round(completable(round_number, ("D", 12)));
        perform(&mut voter, action, &mut Vec::new(), &mut Vec::new(), &mut Vec::new());
    }
}

#[test]
fn best_round_number_is_only_compared() {
    let results: Vec<Option<TestRound>> = [0, 3, 7, 8, 9, u64::MAX]
        .iter()
        .map(|best| validate_catch_up(catch_up(8), &environment(), &voters(), *best))
        .collect();
    assert!(results[0].is_some());
    assert_eq!(results[1], results[0]);
    assert_eq!(results[2], results[0]);
    assert_eq!(results[3..], [None, None, None]);
}

fn catch_up_outcome(
    environment: TestEnvironment,
    catch_up: CatchUp<Hash, u32, u8, u64>,
) -> Option<CatchUpProcessingOutcome> {
    let voter = voter_in(environment);
    match voter.handle_incoming_catch_up_message(catch_up, Callback::Blank) {
        Action::ReportCatchUp { outcome, .. } => Some(outcome),
        _ => None,
    }
}

#[test]
fn catch_up_for_an_earlier_round_is_useless() {
    for round_number in [0, 4, 5] {
        assert_eq!(
            catch_up_outcome(environment(), catch_up(round_number)),
            Some(CatchUpProcessingOutcome::Useless)
        );
    }
    assert_eq!(catch_up_outcome(environment(), catch_up(6)), None);
}

#[test]
fn catch_up_without_support_is_bad() {
    let mut one_prevote = catch_up(6);
    one_prevote.prevotes = vec![prevote(1), prevote(1)];
    assert_eq!(
        catch_up_outcome(environment(), one_prevote),
        Some(CatchUpProcessingOutcome::Bad)
    );
    let mut stranger = catch_up(6);
    stranger.precommits.push(precommit(4));
    assert_eq!(catch_up_outcome(environment(), stranger), Some(CatchUpProcessingOutcome::Bad));
}

#[test]
fn catch_up_with_a_refused_vote_is_bad() {
    let refusing = TestEnvironment { refused_prevote: Some(2), ..environment() };
    assert_eq!(catch_up_outcome(refusing, catch_up(6)), Some(CatchUpProcessingOutcome::Bad));
    let refusing = TestEnvironment { refused_precommit: Some(1), ..environment() };
    assert_eq!(catch_up_outcome(refusing, catch_up(6)), Some(CatchUpProcessingOutcome::Bad));
    let other = TestEnvironment { refused_prevote: Some(3), ..environment() };
    assert_eq!(catch_up_outcome(other, catch_up(6)), None);
}

#[test]
fn catch_up_that_does_not_complete_its_round_is_bad() {
    let open = TestEnvironment { completable: false, ..environment() };
    assert_eq!(catch_up_outcome(open, catch_up(6)), Some(CatchUpProcessingOutcome::Bad));
}

#[test]
fn validated_catch_up_is_its_round() {
    let round = validate_catch_up(catch_up(6), &environment(), &voters(), 5).unwrap();
    assert_eq!((round.number, round.base), (6, ("base", 1)));
    assert!(validate_catch_up(catch_up(5), &environment(), &voters(), 5).is_none());
}

#[test]
fn callback_travels_with_its_commit() {
    let voter = voter();
    let work: Box<dyn FnMut(CommitProcessingOutcome)> =
        Box::new(|outcome| assert!(matches!(outcome, CommitProcessingOutcome::Bad { .. })));
    match voter.handle_incoming_commit_message(2, commit("C", 11), Callback::Work(work)) {
        Ok(Action::ReportCommit { outcome, mut callback }) => {
            assert_eq!(callback.debug_name(), "Callback::Work");
            callback.run(outcome);
        }
        _ => panic!("no outcome was reported"),
    }
}

#[test]
fn finalized_blocks_and_rounds_never_fall_back() {
    let mut voter = voter();
    let mut asked = Vec::new();
    for (round, block) in [(5, ("C", 11)), (6, ("B", 10)), (7, ("C", 11)), (8, ("D", 14))] {
        let before = *voter.best_finalized();
        let mut action = voter.handle_completable_round(completable(round, block));
        if let Action::FinalizeBlock { number, then, .. } = action {
            asked.push(number);
            action = match voter.block_finalized(then, Ok(())) {
                Ok(next) => next,
                Err(e) => panic!("{}", e),
            };
        }
        let task = match action {
            Action::NoteCompleted(task) => task,
            _ => panic!("the round was not completed"),
        };
        if let Ok(Action::StartRounds { then, .. }) = voter.round_completed(task, Ok(())) {
            voter.rounds_started(then);
        }
        assert!(voter.best_finalized().1 >= before.1);
        assert!(voter.best_finalized_in_rounds().1 <= voter.best_finalized().1);
        assert_eq!(voter.current_round_number(), round + 1);
    }
    assert_eq!(asked, vec![11, 14]);
}
