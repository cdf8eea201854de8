use coal_pool::chain::ProofSnapshot;
use coal_pool::engine::{
    seconds_to_cutoff, AttemptOutcome, EpochEngine, Phase, SubmissionOutcome, SubmissionRejection,
    SubmitStep, MAX_MINE_ATTEMPTS,
};
use coal_pool::epoch::EpochHashes;
use coal_pool::fee::PriorityFee;
use coal_pool::keys::{PeerAddr, WalletKey};
use coal_pool::nonce::{NonceAllocator, NONCE_WINDOW};
use coal_pool::pow::Solution;
use coal_pool::wire::encode_work_packet;

const NOW: i64 = 1_700_000_000;

fn addr(port: u16) -> PeerAddr {
    PeerAddr { ip: 0x7f00_0001, port }
}

fn snapshot(tag: u8, last_hash_at: i64) -> ProofSnapshot {
    ProofSnapshot { challenge: [tag; 32], balance: 0, last_hash_at }
}

fn solution_with_nonce(nonce: u64) -> Solution {
    Solution::new([9; 16], nonce.to_le_bytes())
}

/// An open engine whose epoch began at NOW, with one client that holds the
/// first window.
fn engine_with_one_client() -> EpochEngine {
    let mut e = EpochEngine::new(0);
    assert_eq!(e.on_proof(snapshot(1, NOW)), Some([1; 32]));
    assert_eq!(e.phase, Phase::Open);
    e.registry.insert(addr(1), WalletKey::new([5; 32]), 42, NOW as u64).unwrap();
    assert!(e.registry.mark_ready(addr(1)));
    let orders = e.dispatch(NOW);
    assert_eq!(orders.len(), 1);
    assert_eq!(orders[0].range.start, 0);
    assert_eq!(orders[0].range.end, 4_000_000);
    e
}

#[test]
fn nonce_windows_are_contiguous_from_zero() {
    let mut a = NonceAllocator::new();
    let w1 = a.allocate().unwrap();
    let w2 = a.allocate().unwrap();
    let w3 = a.allocate().unwrap();
    assert_eq!((w1.start, w1.end), (0, 4_000_000));
    assert_eq!((w2.start, w2.end), (4_000_000, 8_000_000));
    assert_eq!((w3.start, w3.end), (8_000_000, 12_000_000));
    assert!(w1.end <= w2.start && w2.end <= w3.start);
    a.reset();
    assert_eq!(a.cursor(), 0);
    assert_eq!(a.allocate().unwrap().start, 0);
}

#[test]
fn nonce_space_runs_out_without_wrapping() {
    let mut a = NonceAllocator { cursor: (u64::MAX / NONCE_WINDOW) * NONCE_WINDOW };
    let before = a.cursor();
    assert!(a.allocate().is_none());
    assert_eq!(a.cursor(), before);
}

#[test]
fn dispatch_serves_each_ready_client_once() {
    let mut e = EpochEngine::new(0);
    e.on_proof(snapshot(3, NOW));
    for p in 1..=3u16 {
        e.registry.insert(addr(p), WalletKey::new([p as u8; 32]), p as i32, NOW as u64).unwrap();
    }
    e.registry.mark_ready(addr(1));
    e.registry.mark_ready(addr(3));
    let orders = e.dispatch(NOW);
    assert_eq!(orders.len(), 2);
    assert_eq!(orders[0].addr, addr(1));
    assert_eq!(orders[1].addr, addr(3));
    assert_eq!((orders[1].range.start, orders[1].range.end), (4_000_000, 8_000_000));
    assert_eq!(orders[0].packet, encode_work_packet(&[3; 32], 60, orders[0].range));
    assert_eq!(&orders[0].packet[33..41], &60u64.to_le_bytes());
    assert!(!e.registry.get(addr(1)).unwrap().ready);
    assert!(e.registry.get(addr(2)).unwrap().assigned.is_none());
    assert!(e.dispatch(NOW).is_empty());
    assert_eq!(e.nonces.cursor, 8_000_000);
}

#[test]
fn submission_inside_window_is_credited_and_outside_is_not() {
    let mut e = engine_with_one_client();
    let inside = e.credit_solution(addr(1), solution_with_nonce(500), true, 12);
    match inside {
        SubmissionOutcome::Accepted { miner_id, nonce, difficulty, hashpower, .. } => {
            assert_eq!((miner_id, nonce, difficulty, hashpower), (42, 500, 12, 80));
        }
        SubmissionOutcome::Rejected(r) => panic!("rejected: {:?}", r),
    }
    let outside = e.credit_solution(addr(1), solution_with_nonce(4_000_001), true, 20);
    assert!(matches!(outside, SubmissionOutcome::Rejected(SubmissionRejection::OutOfRange)));
    let entry = e.epoch.entry_for(&WalletKey::new([5; 32])).unwrap();
    assert_eq!(entry.difficulty, 12);
    assert_eq!(e.epoch.best_hash.difficulty, 12);
    assert_eq!(e.epoch.submissions.len(), 1);
}

#[test]
fn low_difficulty_and_invalid_solutions_are_dropped() {
    let mut e = engine_with_one_client();
    let easy = e.credit_solution(addr(1), solution_with_nonce(1), true, 7);
    assert!(matches!(easy, SubmissionOutcome::Rejected(SubmissionRejection::TooEasy)));
    let invalid = e.credit_solution(addr(1), solution_with_nonce(1), false, 30);
    assert!(matches!(invalid, SubmissionOutcome::Rejected(SubmissionRejection::InvalidSolution)));
    let stranger = e.credit_solution(addr(9), solution_with_nonce(1), true, 30);
    assert!(matches!(stranger, SubmissionOutcome::Rejected(SubmissionRejection::UnknownSession)));
    assert!(e.epoch.submissions.is_empty());
    assert_eq!(e.epoch.best_hash.difficulty, 0);
}

#[test]
fn session_without_window_cannot_submit() {
    let mut e = EpochEngine::new(0);
    e.on_proof(snapshot(1, NOW));
    e.registry.insert(addr(1), WalletKey::new([5; 32]), 42, NOW as u64).unwrap();
    let r = e.credit_solution(addr(1), solution_with_nonce(0), true, 12);
    assert!(matches!(r, SubmissionOutcome::Rejected(SubmissionRejection::NoWindow)));
}

#[test]
fn later_submission_overwrites_entry_but_not_best() {
    let mut e = engine_with_one_client();
    e.credit_solution(addr(1), solution_with_nonce(10), true, 15);
    e.credit_solution(addr(1), solution_with_nonce(20), true, 11);
    let entry = e.epoch.entry_for(&WalletKey::new([5; 32])).unwrap();
    // 5 * 2^(11 - 8): the weight of the latest submission, not of the best.
    assert_eq!((entry.miner_id, entry.difficulty, entry.hashpower), (42, 11, 40));
    assert_eq!(e.epoch.best_hash.difficulty, 15);
    assert_eq!(e.epoch.best_hash.solution.unwrap().nonce, 10u64.to_le_bytes());
}

#[test]
fn equal_difficulty_does_not_replace_best() {
    let mut t = EpochHashes::new();
    t.record(WalletKey::new([1; 32]), 1, solution_with_nonce(1), 12);
    t.record(WalletKey::new([2; 32]), 2, solution_with_nonce(2), 12);
    assert_eq!(t.best_hash.solution.unwrap().nonce, 1u64.to_le_bytes());
    assert_eq!(t.submissions.len(), 2);
    t.record(WalletKey::new([2; 32]), 2, solution_with_nonce(3), 13);
    assert_eq!(t.best_hash.difficulty, 13);
    assert_eq!(t.snapshot().len(), 2);
}

#[test]
fn cutoff_counts_down_and_stops_at_zero() {
    assert_eq!(seconds_to_cutoff(NOW, NOW), 60);
    assert_eq!(seconds_to_cutoff(NOW, NOW + 10), 50);
    assert_eq!(seconds_to_cutoff(NOW, NOW + 59), 1);
    assert_eq!(seconds_to_cutoff(NOW, NOW + 60), 0);
    assert_eq!(seconds_to_cutoff(NOW, NOW + 600), 0);
}

#[test]
fn dispatch_pauses_after_cutoff_with_a_solution() {
    let mut e = engine_with_one_client();
    e.credit_solution(addr(1), solution_with_nonce(5), true, 12);
    e.registry.mark_ready(addr(1));
    assert_eq!(e.dispatch(NOW + 59).len(), 1);
    e.registry.mark_ready(addr(1));
    assert!(e.dispatch(NOW + 60).is_empty());
    assert_eq!(e.nonces.cursor, 8_000_000);
}

#[test]
fn successful_mine_rotates_to_a_clean_epoch() {
    let mut e = engine_with_one_client();
    e.fee = PriorityFee::new(60_000);
    e.credit_solution(addr(1), solution_with_nonce(5), true, 12);
    assert!(!e.close_epoch(NOW + 30));
    assert!(!e.begin_submission(NOW + 30));
    assert!(e.close_epoch(NOW + 60));
    assert_eq!(e.phase, Phase::Closing);
    assert!(e.dispatch(NOW + 60).is_empty());
    let late = e.credit_solution(addr(1), solution_with_nonce(6), true, 14);
    assert!(matches!(late, SubmissionOutcome::Accepted { .. }));
    assert!(!e.begin_submission(NOW + 60));
    assert!(e.begin_submission(NOW + 61));
    assert_eq!(e.phase, Phase::Submitting);
    let after = e.credit_solution(addr(1), solution_with_nonce(7), true, 20);
    assert!(matches!(after, SubmissionOutcome::Rejected(SubmissionRejection::EpochClosed)));
    let job = e.job.as_ref().unwrap();
    assert_eq!(job.difficulty, 14);
    assert_eq!(job.submissions.len(), 1);
    assert_eq!(e.on_attempt(AttemptOutcome::Confirmed), SubmitStep::Mined);
    assert_eq!(e.phase, Phase::Rotating);
    assert_eq!(e.on_proof(snapshot(1, NOW + 61)), None);
    assert_eq!(e.phase, Phase::Rotating);
    assert_eq!(e.on_proof(snapshot(2, NOW + 62)), Some([2; 32]));
    assert_eq!(e.phase, Phase::Open);
    assert_eq!(e.nonces.cursor, 0);
    assert!(e.epoch.submissions.is_empty());
    assert!(e.epoch.best_hash.solution.is_none());
    assert_eq!(e.fee.current(), 55_000);
    let stale = e.registry.get(addr(1)).unwrap();
    assert!(stale.assigned.is_none());
    let old_window = e.credit_solution(addr(1), solution_with_nonce(500), true, 20);
    assert!(matches!(old_window, SubmissionOutcome::Rejected(SubmissionRejection::NoWindow)));
    assert!(e.epoch.submissions.is_empty());
}

#[test]
fn ten_failed_attempts_abandon_the_epoch() {
    let mut e = engine_with_one_client();
    e.credit_solution(addr(1), solution_with_nonce(5), true, 12);
    assert!(e.close_epoch(NOW + 60));
    assert!(e.begin_submission(NOW + 62));
    for _ in 0..MAX_MINE_ATTEMPTS - 1 {
        assert_eq!(e.on_attempt(AttemptOutcome::SendFailed), SubmitStep::Retry);
    }
    assert_eq!(e.fee.current(), 135_000);
    assert_eq!(e.on_attempt(AttemptOutcome::NoBlockhash), SubmitStep::Abandoned);
    assert_eq!(e.phase, Phase::Rotating);
    assert_eq!(e.nonces.cursor, 0);
    assert!(e.epoch.submissions.is_empty());
    e.on_proof(snapshot(2, NOW + 100));
    assert_eq!(e.fee.current(), 135_000);
}

#[test]
fn priority_fee_stays_within_bounds() {
    let mut f = PriorityFee::new(2_000_000);
    assert_eq!(f.current(), 1_000_000);
    f.escalate();
    assert_eq!(f.current(), 1_000_000);
    let mut g = PriorityFee::new(990_000);
    g.escalate();
    assert_eq!(g.current(), 1_000_000);
    let mut h = PriorityFee::new(0);
    h.relax();
    assert_eq!(h.current(), 0);
    h.escalate();
    assert_eq!(h.current(), 15_000);
}

#[test]
fn priority_fee_relaxes_by_tier() {
    for (start, end) in [(120_000u64, 110_000u64), (100_000, 90_000), (60_000, 55_000), (50_000, 45_000), (30_000, 29_000), (20_001, 19_001), (20_000, 20_000), (0, 0)] {
        let mut f = PriorityFee::new(start);
        f.relax();
        assert_eq!(f.current(), end);
    }
}

#[test]
fn new_challenge_seen_during_submission_still_rotates() {
    let mut e = engine_with_one_client();
    e.credit_solution(addr(1), solution_with_nonce(5), true, 12);
    assert!(e.close_epoch(NOW + 60));
    assert!(e.begin_submission(NOW + 61));
    assert_eq!(e.closed_challenge, [1; 32]);
    assert_eq!(e.on_proof(snapshot(2, NOW + 62)), None);
    assert_eq!(e.phase, Phase::Submitting);
    assert_eq!(e.on_attempt(AttemptOutcome::Confirmed), SubmitStep::Mined);
    assert_eq!(e.on_proof(snapshot(2, NOW + 62)), Some([2; 32]));
    assert_eq!(e.phase, Phase::Open);
    assert_eq!(e.nonces.cursor, 0);
    assert!(e.epoch.submissions.is_empty());
    assert!(e.registry.get(addr(1)).unwrap().assigned.is_none());
}
