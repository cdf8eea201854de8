use coal_pool::epoch::Contribution;
use coal_pool::hashpower::{hashpower, MAX_HASHPOWER};
use coal_pool::keys::WalletKey;
use coal_pool::reward::{distribute, earned, share_ppm, total_hashpower, MessageInternalMineSuccess};

fn contribution(tag: u8, miner_id: i32, difficulty: u32) -> Contribution {
    Contribution {
        wallet: WalletKey::new([tag; 32]),
        miner_id,
        difficulty,
        hashpower: hashpower(difficulty),
    }
}

#[test]
fn hashpower_doubles_from_minimum() {
    assert_eq!(hashpower(8), 5);
    assert_eq!(hashpower(9), 10);
    assert_eq!(hashpower(10), 20);
    assert_eq!(hashpower(12), 80);
    assert_eq!(hashpower(15), 640);
    assert_eq!(hashpower(21), 40_960);
}

#[test]
fn hashpower_is_capped() {
    assert_eq!(hashpower(22), 81_920);
    assert_eq!(hashpower(23), 81_920);
    assert_eq!(hashpower(30), 81_920);
    assert_eq!(hashpower(u32::MAX), MAX_HASHPOWER);
    for d in 8..300u32 {
        assert!(hashpower(d) <= 81_920);
    }
}

#[test]
fn earned_matches_floor_formula() {
    assert_eq!(share_ppm(1, 3), 333_333);
    assert_eq!(earned(1, 10, 3), 3);
    assert_eq!(earned(2, 1_000_000_000_000, 3), 666_666_000_000);
    for (hp, reward, total) in [(7u64, 12_345u64, 19u128), (80, 10_000, 100), (10, 1_000_000, 81_940)] {
        let expected = ((hp as u128 * 1_000_000 / total) * reward as u128 / 1_000_000) as u64;
        assert_eq!(earned(hp, reward, total), expected);
    }
}

#[test]
fn single_client_takes_whole_reward() {
    let subs = vec![contribution(1, 1, 12)];
    assert_eq!(subs[0].hashpower, 80);
    assert_eq!(total_hashpower(&subs), 80);
    assert_eq!(share_ppm(80, 80), 1_000_000);
    let paid = distribute(&subs, 10_000);
    assert_eq!(paid.len(), 1);
    assert_eq!(paid[0].amount, 10_000);
}

#[test]
fn two_clients_split_pro_rata() {
    let subs = vec![contribution(1, 1, 10), contribution(2, 2, 12)];
    assert_eq!(total_hashpower(&subs), 100);
    assert_eq!(share_ppm(20, 100), 200_000);
    assert_eq!(share_ppm(80, 100), 800_000);
    let paid = distribute(&subs, 10_000);
    assert_eq!(paid[0].amount, 2_000);
    assert_eq!(paid[1].amount, 8_000);
    assert_eq!(paid[0].miner_id, 1);
    assert_eq!(paid[1].miner_id, 2);
}

#[test]
fn capped_client_leaves_one_unit_of_dust() {
    let subs = vec![contribution(1, 1, 9), contribution(2, 2, 9), contribution(3, 3, 30)];
    assert_eq!(subs[2].hashpower, 81_920);
    assert_eq!(total_hashpower(&subs), 81_940);
    assert_eq!(share_ppm(10, 81_940), 122);
    assert_eq!(share_ppm(81_920, 81_940), 999_755);
    let paid = distribute(&subs, 1_000_000);
    let amounts: Vec<u64> = paid.iter().map(|e| e.amount).collect();
    assert_eq!(amounts, vec![122, 122, 999_755]);
    let sum: u64 = amounts.iter().sum();
    assert_eq!(1_000_000 - sum, 1);
}

#[test]
fn payout_never_exceeds_reward() {
    let subs = vec![contribution(1, 1, 8), contribution(2, 2, 11), contribution(3, 3, 13), contribution(4, 4, 9)];
    for reward in [0u64, 1, 7, 999_999, 1_000_000, 123_456_789, u64::MAX] {
        let paid = distribute(&subs, reward);
        let sum: u128 = paid.iter().map(|e| e.amount as u128).sum();
        assert!(sum <= reward as u128);
        if 3 * (reward as u128) <= 1_000_000 {
            assert!(reward as u128 - sum <= 4);
        }
    }
}

#[test]
fn large_reward_can_leave_more_dust_than_contributors() {
    let subs = vec![
        Contribution { wallet: WalletKey::new([1; 32]), miner_id: 1, difficulty: 8, hashpower: 1 },
        Contribution { wallet: WalletKey::new([2; 32]), miner_id: 2, difficulty: 8, hashpower: 2 },
    ];
    let paid = distribute(&subs, 1_000_000_000_000);
    let sum: u64 = paid.iter().map(|e| e.amount).sum();
    assert_eq!(1_000_000_000_000 - sum, 1_000_000);
}

#[test]
fn empty_epoch_pays_nothing() {
    let subs: Vec<Contribution> = Vec::new();
    assert_eq!(total_hashpower(&subs), 0);
    assert!(distribute(&subs, 10_000).is_empty());
}

#[test]
fn mine_success_message_pays_its_snapshot() {
    let msg = MessageInternalMineSuccess {
        difficulty: 12,
        total_balance: 5,
        rewards: 10_000,
        challenge_id: 7,
        submissions: vec![contribution(1, 1, 10), contribution(2, 2, 12)],
    };
    assert_eq!(msg.total_hashpower(), 100);
    let paid = msg.earnings();
    assert_eq!(paid[0].amount, 2_000);
    assert_eq!(paid[1].amount, 8_000);
}
