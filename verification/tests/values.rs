use grandpa_voter::block::{copy_block, is_above};
use grandpa_voter::callback::Callback;
use grandpa_voter::catch_up::{check_support, Support};
use grandpa_voter::communication::{GlobalCommunicationIncoming, GlobalCommunicationOutgoing, RoundData};
use grandpa_voter::messages::{
    CatchUp, Commit, CompactCommit, Precommit, Prevote, SignedPrecommit, SignedPrevote,
};
use grandpa_voter::outcome::{
    CatchUpProcessingOutcome, CommitProcessingOutcome, CommitValidationResult,
};
use grandpa_voter::voter_set::VoterSet;

fn prevote(id: u64) -> SignedPrevote<&'static str, u32, u8, u64> {
    SignedPrevote {
        prevote: Prevote { target_hash: "A", target_number: 1 },
        signature: 7,
        id,
    }
}

fn precommit(id: u64) -> SignedPrecommit<&'static str, u32, u8, u64> {
    SignedPrecommit {
        precommit: Precommit { target_hash: "A", target_number: 1 },
        signature: 7,
        id,
    }
}

fn catch_up(
    round_number: u64,
    prevotes: &[u64],
    precommits: &[u64],
) -> CatchUp<&'static str, u32, u8, u64> {
    CatchUp {
        round_number,
        prevotes: prevotes.iter().map(|id| prevote(*id)).collect(),
        precommits: precommits.iter().map(|id| precommit(*id)).collect(),
        base_hash: "genesis",
        base_number: 0,
    }
}

fn result(finalized: Option<(&'static str, u32)>) -> CommitValidationResult<&'static str, u32> {
    CommitValidationResult {
        finalized,
        num_precommits: 4,
        num_duplicated_precommits: 3,
        num_equivocations: 2,
        num_invalid_voters: 1,
    }
}

#[test]
fn commit_that_finalizes_is_good() {
    let outcome = CommitProcessingOutcome::from(result(Some(("A", 1))));
    assert_eq!(outcome, CommitProcessingOutcome::Good);
}

#[test]
fn commit_that_finalizes_nothing_is_bad() {
    let outcome = CommitProcessingOutcome::from(result(None));
    assert_eq!(
        outcome,
        CommitProcessingOutcome::Bad {
            num_precommits: 4,
            num_duplicated_precommits: 3,
            num_equivocations: 2,
            num_invalid_voters: 1,
        }
    );
}

#[test]
fn callback_runs_its_work_each_time() {
    let mut seen = Vec::new();
    {
        let mut callback = Callback::Work(|o: CatchUpProcessingOutcome| seen.push(o));
        callback.run(CatchUpProcessingOutcome::Good);
        callback.run(CatchUpProcessingOutcome::Useless);
    }
    assert_eq!(seen, vec![CatchUpProcessingOutcome::Good, CatchUpProcessingOutcome::Useless]);
}

#[test]
fn blank_callback_does_nothing() {
    let mut callback: Callback<fn(u8)> = Callback::Blank;
    callback.run(3u8);
    assert!(matches!(callback, Callback::Blank));
}

#[test]
fn clone_of_a_callback_is_blank() {
    let mut seen = 0u32;
    {
        let callback = Callback::Work(|o: u32| seen += o);
        let mut clone = callback.clone();
        clone.run(5u32);
        assert!(matches!(clone, Callback::Blank));
        assert!(matches!(callback, Callback::Work(_)));
    }
    assert_eq!(seen, 0);
}

#[test]
fn callback_names() {
    let blank: Callback<fn(u8)> = Callback::Blank;
    assert_eq!(blank.debug_name(), "Callback::Blank");
    assert_eq!(Callback::Work(|_: u8| {}).debug_name(), "Callback::Work");
}

#[test]
fn boxed_work_can_be_run() {
    let work: Box<dyn FnMut(CommitProcessingOutcome) + Send> =
        Box::new(|o| assert_eq!(o, CommitProcessingOutcome::Good));
    let mut callback = Callback::Work(work);
    callback.run(CommitProcessingOutcome::Good);
}

#[test]
fn voter_set_refuses_repeated_ids() {
    assert!(VoterSet::new(vec![(1u64, 1), (2, 1), (1, 1)], 2).is_none());
}

#[test]
fn voter_set_refuses_too_much_weight() {
    assert!(VoterSet::new(vec![(1u64, u64::MAX), (2, 1)], 2).is_none());
    assert!(VoterSet::new(vec![(1u64, u64::MAX), (2, 0)], 2).is_some());
}

#[test]
fn voter_set_knows_its_voters() {
    let voters = VoterSet::new(vec![(1u64, 5), (9, 6)], 8).unwrap();
    assert!(voters.contains(&1));
    assert!(voters.contains(&9));
    assert!(!voters.contains(&2));
    assert_eq!(voters.threshold(), 8);
    assert_eq!(*voters.weights(), vec![(1, 5), (9, 6)]);
}

#[test]
fn support_of_exactly_the_threshold_is_enough() {
    let voters = VoterSet::new(vec![(1u64, 5), (2, 3), (3, 2)], 8).unwrap();
    assert_eq!(check_support(&catch_up(4, &[1, 2], &[2, 1]), &voters, 3), Support::Enough);
    assert_eq!(
        check_support(&catch_up(4, &[1, 3], &[2, 1]), &voters, 3),
        Support::MissingThreshold
    );
    assert_eq!(
        check_support(&catch_up(4, &[1, 2], &[1, 3]), &voters, 3),
        Support::MissingThreshold
    );
}

#[test]
fn support_counts_every_voter_once() {
    let voters = VoterSet::new(vec![(1u64, 5), (2, 3), (3, 2)], 8).unwrap();
    assert_eq!(
        check_support(&catch_up(4, &[1, 1, 1], &[1, 2]), &voters, 3),
        Support::MissingThreshold
    );
    assert_eq!(check_support(&catch_up(4, &[1, 1, 2, 1], &[2, 2, 1]), &voters, 3), Support::Enough);
}

#[test]
fn order_of_votes_makes_no_difference_to_support() {
    let voters = VoterSet::new(vec![(1u64, 5), (2, 3), (3, 2)], 10).unwrap();
    assert_eq!(check_support(&catch_up(4, &[3, 1, 2], &[1, 2, 3]), &voters, 3), Support::Enough);
    assert_eq!(check_support(&catch_up(4, &[2, 3, 1], &[3, 2, 1]), &voters, 3), Support::Enough);
}

#[test]
fn more_votes_of_voters_never_cost_support() {
    let voters = VoterSet::new(vec![(1u64, 5), (2, 3), (3, 2)], 8).unwrap();
    assert_eq!(check_support(&catch_up(4, &[1, 2], &[1, 2]), &voters, 3), Support::Enough);
    assert_eq!(check_support(&catch_up(4, &[1, 2, 3], &[1, 2, 3, 3]), &voters, 3), Support::Enough);
}

#[test]
fn votes_of_all_voters_reach_the_whole_weight() {
    let voters = VoterSet::new(vec![(1u64, 5), (2, 3), (3, 2)], 10).unwrap();
    assert_eq!(
        check_support(&catch_up(u64::MAX, &[1, 2, 3], &[1, 2, 3]), &voters, 3),
        Support::Enough
    );
}

#[test]
fn votes_of_strangers_spoil_support() {
    let voters = VoterSet::new(vec![(1u64, 5), (2, 3)], 8).unwrap();
    assert_eq!(
        check_support(&catch_up(4, &[1, 2, 3], &[1, 2]), &voters, 3),
        Support::InvalidPrevote(2)
    );
    assert_eq!(
        check_support(&catch_up(4, &[1, 2], &[1, 2, 3]), &voters, 3),
        Support::InvalidPrecommit(2)
    );
}

#[test]
fn first_stranger_is_named() {
    let voters = VoterSet::new(vec![(1u64, 5), (2, 3)], 8).unwrap();
    assert_eq!(
        check_support(&catch_up(4, &[1, 7, 8], &[9]), &voters, 3),
        Support::InvalidPrevote(1)
    );
    assert_eq!(
        check_support(&catch_up(4, &[1], &[9, 2]), &voters, 3),
        Support::InvalidPrecommit(0)
    );
    assert_eq!(check_support(&catch_up(3, &[7], &[9]), &voters, 3), Support::OldRound);
}

#[test]
fn support_is_for_later_rounds_only() {
    let voters = VoterSet::new(vec![(1u64, 5), (2, 3)], 8).unwrap();
    assert_eq!(check_support(&catch_up(3, &[1, 2], &[1, 2]), &voters, 3), Support::OldRound);
    assert_eq!(check_support(&catch_up(2, &[1, 2], &[1, 2]), &voters, 3), Support::OldRound);
    assert_eq!(check_support(&catch_up(4, &[1, 2], &[1, 2]), &voters, 3), Support::Enough);
}

#[test]
fn threshold_beyond_all_weight_is_never_met() {
    let voters = VoterSet::new(vec![(1u64, 5), (2, 3)], 9).unwrap();
    assert_eq!(
        check_support(&catch_up(4, &[1, 2], &[1, 2]), &voters, 3),
        Support::MissingThreshold
    );
}

#[test]
fn no_votes_are_enough_for_no_threshold() {
    let voters = VoterSet::new(vec![(1u64, 5)], 0).unwrap();
    assert_eq!(check_support(&catch_up(1, &[], &[]), &voters, 0), Support::Enough);
}

#[test]
fn compact_commit_expands_in_order() {
    let compact = CompactCommit {
        target_hash: "C",
        target_number: 3u32,
        precommits: vec![
            Precommit { target_hash: "C", target_number: 3 },
            Precommit { target_hash: "D", target_number: 4 },
        ],
        auth_data: vec![(10u8, 1u64), (20, 2)],
    };
    assert_eq!(
        compact.into_commit(),
        Commit {
            target_hash: "C",
            target_number: 3,
            precommits: vec![
                SignedPrecommit {
                    precommit: Precommit { target_hash: "C", target_number: 3 },
                    signature: 10,
                    id: 1,
                },
                SignedPrecommit {
                    precommit: Precommit { target_hash: "D", target_number: 4 },
                    signature: 20,
                    id: 2,
                },
            ],
        }
    );
}

#[test]
fn compact_commit_drops_what_is_left_over() {
    let more_votes = CompactCommit {
        target_hash: "C",
        target_number: 3u32,
        precommits: vec![
            Precommit { target_hash: "C", target_number: 3 },
            Precommit { target_hash: "D", target_number: 4 },
        ],
        auth_data: vec![(10u8, 1u64)],
    };
    let commit = more_votes.into_commit();
    assert_eq!(commit.precommits.len(), 1);
    assert_eq!(commit.precommits[0].precommit.target_hash, "C");
    let more_signatures = CompactCommit {
        target_hash: "C",
        target_number: 3u32,
        precommits: vec![Precommit { target_hash: "C", target_number: 3 }],
        auth_data: vec![(10u8, 1u64), (20, 2)],
    };
    let commit = more_signatures.into_commit();
    assert_eq!(commit.precommits.len(), 1);
    assert_eq!(commit.precommits[0].id, 1);
}

#[test]
fn clone_of_a_commit_holds_the_same_votes() {
    let commit = Commit {
        target_hash: "C",
        target_number: 3u32,
        precommits: vec![precommit(1), precommit(2)],
    };
    assert_eq!(commit.clone(), commit);
    let message = GlobalCommunicationOutgoing::Commit(5, commit);
    assert_eq!(message.clone(), message);
}

#[test]
fn clone_of_a_message_has_a_blank_callback() {
    let message: GlobalCommunicationIncoming<&str, u32, u8, u64, fn(u8), fn(u8)> =
        GlobalCommunicationIncoming::CatchUp(catch_up(6, &[1], &[2]), Callback::Work(|_| {}));
    match message.clone() {
        GlobalCommunicationIncoming::CatchUp(copy, callback) => {
            assert_eq!(copy, catch_up(6, &[1], &[2]));
            assert!(matches!(callback, Callback::Blank));
        }
        GlobalCommunicationIncoming::Commit(..) => panic!("a catch up was cloned"),
    }
}

#[test]
fn clone_of_a_compact_commit_holds_the_same_votes() {
    let compact = CompactCommit {
        target_hash: "C",
        target_number: 3u32,
        precommits: vec![
            Precommit { target_hash: "C", target_number: 3u32 },
            Precommit { target_hash: "D", target_number: 4 },
        ],
        auth_data: vec![(7u8, 1u64), (8, 2), (9, 3)],
    };
    assert_eq!(compact.clone(), compact);
    let message: GlobalCommunicationIncoming<&str, u32, u8, u64, fn(u8), fn(u8)> =
        GlobalCommunicationIncoming::Commit(5, compact.clone(), Callback::Work(|_| {}));
    match message.clone() {
        GlobalCommunicationIncoming::Commit(round_number, copy, callback) => {
            assert_eq!((round_number, copy), (5, compact));
            assert!(matches!(callback, Callback::Blank));
        }
        GlobalCommunicationIncoming::CatchUp(..) => panic!("a commit was cloned"),
    }
}

#[test]
fn clone_of_a_catch_up_holds_the_same_votes() {
    let original = catch_up(6, &[1, 2, 3], &[3, 1]);
    assert_eq!(original.clone(), original);
}

#[test]
fn blocks_are_ordered_by_number() {
    assert!(is_above(&3u32, &2));
    assert!(!is_above(&2u32, &2));
    assert!(!is_above(&1u32, &2));
    assert_eq!(copy_block(&(String::from("A"), 4u32)), (String::from("A"), 4));
}

#[test]
fn round_data_holds_what_a_round_needs() {
    let data = RoundData {
        voter_id: Some(1u64),
        prevote_timer: 2u8,
        precommit_timer: 4u8,
        incoming: "in",
        outgoing: "out",
    };
    assert_eq!(data.voter_id, Some(1));
    assert_eq!((data.prevote_timer, data.precommit_timer), (2, 4));
    assert_eq!((data.incoming, data.outgoing), ("in", "out"));
}
