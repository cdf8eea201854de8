//! Pro-rata split of a mining reward by weighted hashpower.
use vstd::prelude::*;
use vstd::arithmetic::div_mod::{lemma_fundamental_div_mod, lemma_mod_pos_bound};
use crate::epoch::Contribution;
use crate::keys::WalletKey;

verus! {

/// Parts per million: the resolution of a contributor's share.
pub const PPM: u128 = 1_000_000;

/// A contributor's share of the reward in parts per million:
/// `floor(hp * 1e6 / total)`.
pub open spec fn share_ppm_of(hp: int, total: int) -> int {
    (hp * 1_000_000) / total
}

/// What a contributor of hashpower `hp` earns of `reward` when the epoch's
/// hashpower adds up to `total`: `floor(floor(hp * 1e6 / total) * reward / 1e6)`
/// (nothing when `total` is zero).
pub open spec fn earned_of(hp: int, reward: int, total: int) -> int {
    if total <= 0 {
        0
    } else {
        (share_ppm_of(hp, total) * reward) / 1_000_000
    }
}

/// The hashpower of all entries of `s`.
pub open spec fn total_of(s: Seq<Contribution>) -> nat
    decreases s.len(),
{
    if s.len() == 0 {
        0
    } else {
        (total_of(s.drop_last()) + s.last().hashpower) as nat
    }
}

/// What one contributor is paid for an epoch.
#[derive(Clone, Copy, Debug)]
pub struct Earning {
    pub wallet: WalletKey,
    pub miner_id: i32,
    pub difficulty: u32,
    pub hashpower: u64,
    pub amount: u64,
}

/// The outcome of a confirmed mine, to be paid out: the pool's difficulty,
/// its balance and the reward (both in base units), the journal id of the
/// challenge, and the contributions as they stood at cutoff.
pub struct MessageInternalMineSuccess {
    pub difficulty: u32,
    pub total_balance: u64,
    pub rewards: u64,
    pub challenge_id: i32,
    pub submissions: Vec<Contribution>,
}

impl MessageInternalMineSuccess {
    /// The hashpower of all contributions.
    pub fn total_hashpower(&self) -> (r: u128)
        ensures
            r == total_of(self.submissions@),
    {
        total_hashpower(&self.submissions)
    }

    /// What each contributor earns of the reward, pro rata by hashpower.
    pub fn earnings(&self) -> (r: Vec<Earning>)
        ensures
            r@.len() == self.submissions@.len(),
            forall|i: int|
                0 <= i < r@.len() ==> {
                    let c = self.submissions@[i];
                    let e = #[trigger] r@[i];
                    &&& e.wallet == c.wallet
                    &&& e.miner_id == c.miner_id
                    &&& e.difficulty == c.difficulty
                    &&& e.hashpower == c.hashpower
                    &&& e.amount == earned_of(
                        c.hashpower as int,
                        self.rewards as int,
                        total_of(self.submissions@) as int,
                    )
                },
    {
        distribute(&self.submissions, self.rewards)
    }
}

/// The sum of the amounts of `r`.
pub open spec fn paid_total(r: Seq<Earning>) -> int
    decreases r.len(),
{
    if r.len() == 0 {
        0
    } else {
        paid_total(r.drop_last()) + r.last().amount
    }
}

/// The sum of what the entries of `s` earn.
pub open spec fn earned_sum(s: Seq<Contribution>, reward: int, total: int) -> int
    decreases s.len(),
{
    if s.len() == 0 {
        0
    } else {
        earned_sum(s.drop_last(), reward, total) + earned_of(s.last().hashpower as int, reward, total)
    }
}

/// The sum of the shares of the entries of `s`.
pub open spec fn share_sum(s: Seq<Contribution>, total: int) -> int
    decreases s.len(),
{
    if s.len() == 0 {
        0
    } else {
        share_sum(s.drop_last(), total) + share_ppm_of(s.last().hashpower as int, total)
    }
}

/// Floor division, bracketed by multiplication.
proof fn lemma_div_bracket(x: int, d: int)
    requires
        0 <= x,
        0 < d,
    ensures
        0 <= x / d,
        (x / d) * d <= x,
        x < (x / d) * d + d,
{
    lemma_fundamental_div_mod(x, d);
    lemma_mod_pos_bound(x, d);
    assert(0 <= x / d) by (nonlinear_arith)
        requires
            x == d * (x / d) + (x % d),
            0 <= x % d < d,
            0 <= x,
            0 < d,
    ;
    assert(d * (x / d) == (x / d) * d) by (nonlinear_arith);
}

/// A quotient is at most `c` when the dividend is at most `c * d`.
proof fn lemma_div_at_most(x: int, d: int, c: int)
    requires
        0 <= x <= c * d,
        0 < d,
    ensures
        0 <= x / d <= c,
{
    lemma_div_bracket(x, d);
    assert(x / d <= c) by (nonlinear_arith)
        requires
            (x / d) * d <= x,
            x <= c * d,
            0 < d,
    ;
}

/// One entry's hashpower never exceeds the total.
pub proof fn lemma_entry_within_total(s: Seq<Contribution>, i: int)
    requires
        0 <= i < s.len(),
    ensures
        s[i].hashpower <= total_of(s),
    decreases s.len(),
{
    if i < s.len() - 1 {
        lemma_entry_within_total(s.drop_last(), i);
    }
}

/// The hashpower of all entries of `s`.
pub fn total_hashpower(s: &Vec<Contribution>) -> (r: u128)
    ensures
        r == total_of(s@),
{
    let mut sum: u128 = 0;
    let mut i: usize = 0;
    while i < s.len()
        invariant
            i <= s@.len(),
            sum == total_of(s@.take(i as int)),
            sum <= i * 0xFFFF_FFFF_FFFF_FFFFu128,
        decreases s@.len() - i,
    {
        assert(s@.take(i + 1).drop_last() =~= s@.take(i as int));
        assert(sum + s@[i as int].hashpower <= (i + 1) * 0xFFFF_FFFF_FFFF_FFFFu128) by (nonlinear_arith)
            requires
                sum <= i * 0xFFFF_FFFF_FFFF_FFFFu128,
                s@[i as int].hashpower <= 0xFFFF_FFFF_FFFF_FFFFu128,
        ;
        assert((i + 1) * 0xFFFF_FFFF_FFFF_FFFFu128 <= 0xFFFF_FFFF_FFFF_FFFF_FFFF_FFFF_FFFF_FFFFu128)
            by (nonlinear_arith)
            requires
                i < 0x1_0000_0000_0000_0000,
        ;
        sum = sum + s[i].hashpower as u128;
        i = i + 1;
    }
    assert(s@.take(i as int) =~= s@);
    sum
}

/// A contributor's share in parts per million.
pub fn share_ppm(hp: u64, total: u128) -> (r: u128)
    requires
        total > 0,
    ensures
        r == share_ppm_of(hp as int, total as int),
{
    assert(hp * 1_000_000 < 0x1_0000_0000_0000_0000_0000_0000) by (nonlinear_arith)
        requires
            hp < 0x1_0000_0000_0000_0000,
    ;
    (hp as u128 * PPM) / total
}

/// What a contributor of hashpower `hp` earns of `reward` when the epoch's
/// hashpower adds up to `total`.
pub fn earned(hp: u64, reward: u64, total: u128) -> (r: u64)
    requires
        0 < total,
        hp <= total,
    ensures
        r == earned_of(hp as int, reward as int, total as int),
        r <= reward,
{
    let share = share_ppm(hp, total);
    proof {
        assert(hp * 1_000_000 <= 1_000_000 * total) by (nonlinear_arith)
            requires
                hp <= total,
        ;
        lemma_div_at_most(hp * 1_000_000, total as int, 1_000_000);
        assert(share * reward <= reward * 1_000_000) by (nonlinear_arith)
            requires
                0 <= share <= 1_000_000,
                0 <= reward,
        ;
        lemma_div_at_most(share * reward, 1_000_000, reward as int);
    }
    let e = share * (reward as u128) / PPM;
    e as u64
}

/// Splits `reward` over the entries of `submissions`, pro rata by
/// hashpower: entry `i` earns `earned_of(hashpower_i, reward, total)`.
pub fn distribute(submissions: &Vec<Contribution>, reward: u64) -> (r: Vec<Earning>)
    ensures
        r@.len() == submissions@.len(),
        forall|i: int|
            0 <= i < r@.len() ==> {
                let c = submissions@[i];
                let e = #[trigger] r@[i];
                &&& e.wallet == c.wallet
                &&& e.miner_id == c.miner_id
                &&& e.difficulty == c.difficulty
                &&& e.hashpower == c.hashpower
                &&& e.amount == earned_of(c.hashpower as int, reward as int, total_of(submissions@) as int)
            },
{
    let total = total_hashpower(submissions);
    let mut out: Vec<Earning> = Vec::new();
    let mut i: usize = 0;
    while i < submissions.len()
        invariant
            i <= submissions@.len(),
            total == total_of(submissions@),
            out@.len() == i,
            forall|k: int|
                0 <= k < i ==> {
                    let c = submissions@[k];
                    let e = #[trigger] out@[k];
                    &&& e.wallet == c.wallet
                    &&& e.miner_id == c.miner_id
                    &&& e.difficulty == c.difficulty
                    &&& e.hashpower == c.hashpower
                    &&& e.amount == earned_of(c.hashpower as int, reward as int, total as int)
                },
        decreases submissions@.len() - i,
    {
        let c = submissions[i];
        let amount = if total == 0 {
            0
        } else {
            proof {
                lemma_entry_within_total(submissions@, i as int);
            }
            earned(c.hashpower, reward, total)
        };
        out.push(
            Earning {
                wallet: c.wallet,
                miner_id: c.miner_id,
                difficulty: c.difficulty,
                hashpower: c.hashpower,
                amount,
            },
        );
        i = i + 1;
    }
    out
}

/// The four brackets on the running sums of shares and earnings.
proof fn lemma_sum_brackets(s: Seq<Contribution>, reward: int, total: int)
    requires
        total > 0,
        reward >= 0,
    ensures
        share_sum(s, total) >= 0,
        earned_sum(s, reward, total) >= 0,
        share_sum(s, total) * total <= 1_000_000 * total_of(s),
        share_sum(s, total) * total + s.len() * (total - 1) >= 1_000_000 * total_of(s),
        earned_sum(s, reward, total) * 1_000_000 <= reward * share_sum(s, total),
        earned_sum(s, reward, total) * 1_000_000 + s.len() * 999_999 >= reward * share_sum(
            s,
            total,
        ),
    decreases s.len(),
{
    if s.len() > 0 {
        let p = s.drop_last();
        lemma_sum_brackets(p, reward, total);
        let h = s.last().hashpower as int;
        let sh = share_ppm_of(h, total);
        lemma_div_bracket(h * 1_000_000, total);
        assert(sh * reward >= 0) by (nonlinear_arith)
            requires
                sh >= 0,
                reward >= 0,
        ;
        lemma_div_bracket(sh * reward, 1_000_000);
        let a = share_sum(p, total);
        let b = earned_sum(p, reward, total);
        assert((a + sh) * total == a * total + sh * total) by (nonlinear_arith);
        assert(reward * (a + sh) == reward * a + sh * reward) by (nonlinear_arith);
        assert(s.len() * (total - 1) == p.len() * (total - 1) + (total - 1)) by (nonlinear_arith)
            requires
                s.len() == p.len() + 1,
        ;
    }
}

/// The earnings that `distribute` pays add up to `earned_sum`.
proof fn lemma_paid_is_earned(s: Seq<Contribution>, r: Seq<Earning>, reward: int, total: int)
    requires
        r.len() == s.len(),
        forall|i: int|
            0 <= i < r.len() ==> (#[trigger] r[i]).amount == earned_of(
                s[i].hashpower as int,
                reward,
                total,
            ),
    ensures
        paid_total(r) == earned_sum(s, reward, total),
    decreases s.len(),
{
    if s.len() > 0 {
        let rp = r.drop_last();
        let sp = s.drop_last();
        assert forall|i: int| 0 <= i < rp.len() implies (#[trigger] rp[i]).amount == earned_of(
            sp[i].hashpower as int,
            reward,
            total,
        ) by {
            assert(rp[i] == r[i]);
        }
        lemma_paid_is_earned(sp, rp, reward, total);
    }
}

/// With no hashpower at all, nothing is earned.
proof fn lemma_nothing_earned(s: Seq<Contribution>, reward: int)
    ensures
        earned_sum(s, reward, 0) == 0,
    decreases s.len(),
{
    if s.len() > 0 {
        lemma_nothing_earned(s.drop_last(), reward);
    }
}

/// Conservation of the reward: the earnings of an epoch never add up to more
/// than its reward. When the contributors have any hashpower, what flooring
/// leaves unpaid is bounded by `((n - 1) * reward + 999_999 * n) / 1e6` for
/// `n` contributors, so it is at most `n` whenever `(n - 1) * reward <= 1e6`.
pub proof fn lemma_conservation(submissions: Seq<Contribution>, reward: u64, paid: Seq<Earning>)
    requires
        paid.len() == submissions.len(),
        forall|i: int|
            0 <= i < paid.len() ==> (#[trigger] paid[i]).amount == earned_of(
                submissions[i].hashpower as int,
                reward as int,
                total_of(submissions) as int,
            ),
    ensures
        0 <= paid_total(paid) <= reward,
        total_of(submissions) > 0 ==> (reward - paid_total(paid)) * 1_000_000 <= (
        submissions.len() - 1) * reward + 999_999 * submissions.len(),
        total_of(submissions) > 0 && (submissions.len() - 1) * reward <= 1_000_000 ==> reward
            - paid_total(paid) <= submissions.len(),
{
    let t = total_of(submissions) as int;
    let r = reward as int;
    let n = submissions.len() as int;
    lemma_paid_is_earned(submissions, paid, r, t);
    if t == 0 {
        lemma_nothing_earned(submissions, r);
    } else {
        lemma_sum_brackets(submissions, r, t);
        let sh = share_sum(submissions, t);
        assert(n >= 1);
        assert(sh <= 1_000_000) by (nonlinear_arith)
            requires
                sh * t <= 1_000_000 * t,
                t > 0,
        ;
        assert(r * sh <= r * 1_000_000) by (nonlinear_arith)
            requires
                sh <= 1_000_000,
                r >= 0,
        ;
        assert(sh >= 1_000_000 - n + 1) by (nonlinear_arith)
            requires
                sh * t + n * (t - 1) >= 1_000_000 * t,
                t > 0,
                n >= 1,
        ;
        assert(r * sh >= r * (1_000_000 - n + 1)) by (nonlinear_arith)
            requires
                sh >= 1_000_000 - n + 1,
                r >= 0,
        ;
        assert(r * (1_000_000 - n + 1) == r * 1_000_000 - (n - 1) * r) by (nonlinear_arith);
    }
}

} // verus!
