use base64::Engine;
use coal_pool::accounts::{check_claim, check_signup_transfer, ClaimRejection, SignupRejection};
use coal_pool::chain::{decode_proof_account, reward_from_return_data};
use coal_pool::fee::PriorityFee;
use coal_pool::keys::WalletKey;
use coal_pool::pow::{is_valid_for, solution_difficulty, Solution};
use coal_pool::submit::{plan_attempt, reset_due, richest_bus, select_bus};

fn proof_account(challenge: [u8; 32], balance: u64, last_hash_at: i64) -> Vec<u8> {
    let mut d = vec![102u8, 0, 0, 0, 0, 0, 0, 0];
    d.extend_from_slice(&[3u8; 32]);
    d.extend_from_slice(&balance.to_le_bytes());
    d.extend_from_slice(&challenge);
    d.extend_from_slice(&[4u8; 32]);
    d.extend_from_slice(&last_hash_at.to_le_bytes());
    d.extend_from_slice(&0i64.to_le_bytes());
    d.extend_from_slice(&[5u8; 32]);
    d.extend_from_slice(&0u64.to_le_bytes());
    d.extend_from_slice(&0u64.to_le_bytes());
    d
}

#[test]
fn proof_account_is_decoded() {
    let data = proof_account([8; 32], 12_345, -7);
    assert_eq!(data.len(), 176);
    let p = decode_proof_account(&data).unwrap();
    assert_eq!(p.challenge, [8; 32]);
    assert_eq!(p.balance, 12_345);
    assert_eq!(p.last_hash_at, -7);
}

#[test]
fn other_accounts_are_not_proofs() {
    let mut data = proof_account([8; 32], 1, 1);
    data[0] = 100;
    assert!(decode_proof_account(&data).is_none());
    assert!(decode_proof_account(&[102u8; 5]).is_none());
    assert!(decode_proof_account(&proof_account([8; 32], 1, 1)[..175]).is_none());
}

#[test]
fn mine_event_reward_is_read() {
    let mut event = Vec::new();
    event.extend_from_slice(&12u64.to_le_bytes());
    event.extend_from_slice(&987_654u64.to_le_bytes());
    event.extend_from_slice(&3i64.to_le_bytes());
    let text = base64::prelude::BASE64_STANDARD.encode(&event);
    assert_eq!(reward_from_return_data(&text), Some(987_654));
    assert_eq!(reward_from_return_data("***"), None);
    let short = base64::prelude::BASE64_STANDARD.encode(&event[..16]);
    assert_eq!(reward_from_return_data(&short), None);
}

#[test]
fn difficulty_is_measured_on_the_hash() {
    let s = Solution::new([1; 16], [2; 8]);
    let expected = drillx_2::Solution::new([1; 16], [2; 8]).to_hash().difficulty();
    assert_eq!(solution_difficulty(&s), expected);
    assert!(!is_valid_for(&s, &[0; 32]));
    let real = drillx_2::Solution::new([1; 16], [2; 8]).is_valid(&[0; 32]);
    assert_eq!(is_valid_for(&s, &[0; 32]), real);
}

#[test]
fn richest_bus_is_first_maximum() {
    assert_eq!(richest_bus(&vec![Some(5), None, Some(9), Some(9), Some(1)]), Some(2));
    assert_eq!(richest_bus(&vec![None, None]), None);
    assert_eq!(select_bus(&vec![Some(1), Some(4), Some(2)]), 1);
    for _ in 0..50 {
        assert!(select_bus(&vec![None; 8]) < 8);
    }
}

#[test]
fn reset_included_close_to_the_next_reset() {
    assert!(reset_due(1_000, 1_295));
    assert!(!reset_due(1_000, 1_294));
    let fee = PriorityFee::new(20_000);
    let with = plan_attempt(&vec![Some(1), Some(3)], Some(1_000), 1_296, &fee);
    assert!(with.include_reset);
    assert_eq!(with.cu_limit, 500_000);
    assert_eq!(with.bus, 1);
    assert_eq!(with.priority_fee, 20_000);
    let without = plan_attempt(&vec![Some(1), Some(3)], None, 1_296, &fee);
    assert!(!without.include_reset);
    assert_eq!(without.cu_limit, 485_000);
}

#[test]
fn claims_wait_half_an_hour() {
    assert_eq!(check_claim(11, 10, None, 0), Err(ClaimRejection::ExceedsBalance));
    assert_eq!(ClaimRejection::ExceedsBalance.status(), 400);
    assert_eq!(check_claim(10, 10, Some(1_000), 2_799), Err(ClaimRejection::TooSoon { elapsed: 1_799 }));
    assert_eq!(ClaimRejection::TooSoon { elapsed: 1 }.status(), 429);
    assert_eq!(check_claim(10, 10, Some(1_000), 2_800), Ok(()));
    assert_eq!(check_claim(10, 10, Some(1_000), 2_801), Ok(()));
    assert_eq!(check_claim(0, 0, None, 0), Ok(()));
}

#[test]
fn signup_transfer_shape() {
    let user = WalletKey::new([1; 32]);
    let authority = WalletKey::new([2; 32]);
    let good = vec![user, authority];
    assert_eq!(check_signup_transfer(true, 1, &good, &user, &authority, true), Ok(()));
    assert_eq!(check_signup_transfer(false, 1, &good, &user, &authority, true), Err(SignupRejection::Unsigned));
    assert_eq!(check_signup_transfer(true, 0, &good, &user, &authority, true), Err(SignupRejection::NotOneInstruction));
    assert_eq!(check_signup_transfer(true, 2, &good, &user, &authority, true), Err(SignupRejection::NotOneInstruction));
    let three = vec![user, authority, authority];
    assert_eq!(check_signup_transfer(true, 1, &three, &user, &authority, true), Err(SignupRejection::WrongAccounts));
    let swapped = vec![authority, user];
    assert_eq!(check_signup_transfer(true, 1, &swapped, &user, &authority, true), Err(SignupRejection::WrongAccounts));
    let elsewhere = vec![user, WalletKey::new([3; 32])];
    assert_eq!(check_signup_transfer(true, 1, &elsewhere, &user, &authority, true), Err(SignupRejection::WrongAccounts));
    assert_eq!(check_signup_transfer(true, 1, &good, &user, &authority, false), Err(SignupRejection::WrongTransfer));
}

#[test]
fn misaligned_chain_data_is_still_read() {
    let mut padded = vec![0u8];
    padded.extend_from_slice(&proof_account([6; 32], 77, 1_234));
    let p = decode_proof_account(&padded[1..]).unwrap();
    assert_eq!((p.challenge, p.balance, p.last_hash_at), ([6; 32], 77, 1_234));
}

#[test]
fn hash_difficulty_counts_leading_zero_bits() {
    let mut cases: Vec<[u8; 32]> = vec![[0; 32], [0xff; 32], [1; 32]];
    let mut h = [0u8; 32];
    h[3] = 0x10;
    cases.push(h);
    let mut g = [0u8; 32];
    g[31] = 1;
    cases.push(g);
    for c in &cases {
        assert_eq!(coal_pool::pow::hash_difficulty(c), drillx_2::difficulty(*c));
    }
    assert_eq!(coal_pool::pow::hash_difficulty(&h), 27);
    assert_eq!(coal_pool::pow::hash_difficulty(&[0; 32]), 256);
}
