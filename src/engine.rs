//! The epoch engine: the state machine that opens an epoch on a new
//! challenge, hands out work, takes solutions, submits the best one and
//! rotates to the next challenge. The caller performs every network and
//! journal action and feeds the results back in.
use vstd::prelude::*;
use crate::bytes::bytes32_eq;
use crate::chain::ProofSnapshot;
use crate::epoch::{recorded, Contribution, EpochHashes};
use crate::fee::{relax_step, PriorityFee, FEE_STEP_UP, MAX_PRIORITY_FEE};
use crate::hashpower::{hashpower_of, MIN_DIFF};
use crate::keys::{PeerAddr, WalletKey};
use crate::nonce::{NonceAllocator, NonceRange, NONCE_WINDOW};
use crate::pow::{difficulty_of, pow_valid, solution_difficulty, is_valid_for, Solution};
use crate::registry::{has_addr, without_window, ClientRegistry, Session};
use crate::wire::{encode_work_packet, work_packet_of};

verus! {

/// Length of an epoch on chain, in seconds after the last accepted hash.
pub const EPOCH_SECS: i64 = 60;

/// The closing phase lasts at least this many seconds.
pub const CLOSING_HOLD_SECS: i64 = 1;

/// Attempts at the mine transaction before the epoch is abandoned.
pub const MAX_MINE_ATTEMPTS: u32 = 10;

/// `last_hash_at + 60 - now`.
pub open spec fn cutoff_of(last_hash_at: i64, now: i64) -> int {
    last_hash_at + EPOCH_SECS - now
}

/// The cutoff held to the range of `u64`: zero once it has passed.
pub open spec fn clamped_cutoff(last_hash_at: i64, now: i64) -> u64 {
    let c = cutoff_of(last_hash_at, now);
    if c <= 0 {
        0
    } else if c > u64::MAX {
        u64::MAX
    } else {
        c as u64
    }
}

/// Seconds left at `now` before the cutoff of the epoch whose last hash
/// was accepted at `last_hash_at`; zero once it has passed.
pub fn seconds_to_cutoff(last_hash_at: i64, now: i64) -> (r: u64)
    ensures
        r == clamped_cutoff(last_hash_at, now),
{
    let c: i128 = (last_hash_at as i128) + (EPOCH_SECS as i128) - (now as i128);
    if c <= 0 {
        0
    } else if c > u64::MAX as i128 {
        u64::MAX
    } else {
        c as u64
    }
}

/// Some session, ready before, now comes from the order's address and holds
/// its window.
pub open spec fn held_by_ready_session(now_s: Seq<Session>, before: Seq<Session>, w: WorkOrder) -> bool {
    exists|j: int|
        0 <= j < now_s.len() && j < before.len() && before[j].ready && (#[trigger] now_s[j]).addr
            == w.addr && now_s[j].assigned == Some(w.range)
}

/// The order's session is the `j`-th, one of the first `i`, was ready, and
/// now holds the order's window.
pub open spec fn order_served_at(now_s: Seq<Session>, before: Seq<Session>, w: WorkOrder, j: int, i: int) -> bool {
    &&& 0 <= j < i
    &&& i <= now_s.len()
    &&& i <= before.len()
    &&& before[j].ready
    &&& now_s[j].addr == w.addr
    &&& now_s[j].assigned == Some(w.range)
}

/// The `k`-th order of a round that began at cursor `start` carries the
/// `k`-th window from there, in a packet for `challenge` and `cutoff`.
pub open spec fn order_window(w: WorkOrder, start: u64, k: int, challenge: Seq<u8>, cutoff: u64) -> bool {
    &&& w.range.start == start + k * NONCE_WINDOW
    &&& w.range.end == start + (k + 1) * NONCE_WINDOW
    &&& w.packet@ == work_packet_of(challenge, cutoff, w.range)
}

/// The `k`-th order went to the session that was `before` and is now `now`,
/// which holds the order's window.
pub open spec fn order_for(orders: Seq<WorkOrder>, k: int, before: Session, now: Session) -> bool {
    &&& 0 <= k < orders.len()
    &&& orders[k].addr == before.addr
    &&& now.assigned == Some(orders[k].range)
}

/// Where the engine stands in the life of an epoch.
#[derive(Clone, Copy, Debug, PartialEq, Eq, Structural)]
pub enum Phase {
    /// No proof has been seen yet.
    Idle,
    /// Work is handed out and solutions are taken.
    Open,
    /// The cutoff has passed: solutions still in flight are taken, no work
    /// is handed out.
    Closing,
    /// The best solution is being submitted on chain.
    Submitting,
    /// Waiting for the chain to move to a new challenge.
    Rotating,
}

/// One work packet to send to one client.
#[derive(Debug)]
pub struct WorkOrder {
    pub addr: PeerAddr,
    pub range: NonceRange,
    pub packet: Vec<u8>,
}

/// What is submitted at cutoff: the best solution, and the contributions as
/// they stood then, which the reward is split over.
#[derive(Debug)]
pub struct MineJob {
    pub challenge: [u8; 32],
    pub solution: Solution,
    pub difficulty: u32,
    pub submissions: Vec<Contribution>,
}

/// Why a solution was not credited.
#[derive(Clone, Copy, Debug, PartialEq, Eq, Structural)]
pub enum SubmissionRejection {
    /// No epoch is open.
    EpochClosed,
    /// No session comes from the sender's address.
    UnknownSession,
    /// The session holds no nonce window.
    NoWindow,
    /// The nonce lies outside the session's window.
    OutOfRange,
    /// The proof of work does not check out for the challenge.
    InvalidSolution,
    /// The difficulty is below `MIN_DIFF`.
    TooEasy,
}

/// What became of a solution.
#[derive(Clone, Copy, Debug)]
pub enum SubmissionOutcome {
    /// Credited to `wallet` in the epoch table.
    Accepted { wallet: WalletKey, miner_id: i32, nonce: u64, difficulty: u32, hashpower: u64 },
    Rejected(SubmissionRejection),
}

/// The session from `addr` in `s`, when there is one.
pub open spec fn session_of(s: Seq<Session>, addr: PeerAddr) -> Session {
    s[choose|j: int| 0 <= j < s.len() && s[j].addr == addr]
}

/// The verdict on a solution with nonce `nonce` from `addr`, given whether
/// its proof of work is valid and its difficulty: checks are made in this
/// order, and `None` means it is credited.
pub open spec fn submission_verdict(
    phase: Phase,
    sessions: Seq<Session>,
    addr: PeerAddr,
    nonce: nat,
    valid: bool,
    difficulty: nat,
) -> Option<SubmissionRejection> {
    if phase != Phase::Open && phase != Phase::Closing {
        Some(SubmissionRejection::EpochClosed)
    } else if !has_addr(sessions, addr) {
        Some(SubmissionRejection::UnknownSession)
    } else {
        match session_of(sessions, addr).assigned {
            None => Some(SubmissionRejection::NoWindow),
            Some(w) => if !(w.start <= nonce < w.end) {
                Some(SubmissionRejection::OutOfRange)
            } else if !valid {
                Some(SubmissionRejection::InvalidSolution)
            } else if difficulty < MIN_DIFF {
                Some(SubmissionRejection::TooEasy)
            } else {
                None
            },
        }
    }
}

/// How an attempt at the mine transaction ended.
#[derive(Clone, Copy, Debug, PartialEq, Eq, Structural)]
pub enum AttemptOutcome {
    /// The transaction was confirmed.
    Confirmed,
    /// Sending or confirming failed.
    SendFailed,
    /// No recent blockhash could be had, so nothing was sent.
    NoBlockhash,
}

/// What to do after an attempt.
#[derive(Clone, Copy, Debug, PartialEq, Eq, Structural)]
pub enum SubmitStep {
    /// The epoch was mined; pay out and wait for the next challenge.
    Mined,
    /// Wait and try again.
    Retry,
    /// Attempts are used up: the epoch is dropped.
    Abandoned,
}

/// The engine's state.
pub struct EpochEngine {
    pub phase: Phase,
    /// The latest proof seen; the current epoch's challenge.
    pub proof: ProofSnapshot,
    pub epoch: EpochHashes,
    pub nonces: NonceAllocator,
    pub fee: PriorityFee,
    pub registry: ClientRegistry,
    /// Failed attempts at the current mine transaction.
    pub attempts: u32,
    /// Whether the epoch being rotated out was mined successfully.
    pub mined: bool,
    /// When the closing phase began.
    pub closing_since: i64,
    /// The challenge of the epoch last taken to submission: rotation waits
    /// for a proof whose challenge differs from it.
    pub closed_challenge: [u8; 32],
    /// The submission in progress.
    pub job: Option<MineJob>,
}

impl EpochEngine {
    /// The invariants of every part, with the attempt count in bounds.
    pub open spec fn wf(&self) -> bool {
        &&& self.epoch.wf()
        &&& self.nonces.wf()
        &&& self.fee.wf()
        &&& self.registry.wf()
        &&& self.attempts <= MAX_MINE_ATTEMPTS
        &&& self.phase == Phase::Submitting ==> self.job is Some
        &&& self.job matches Some(j) ==> j.challenge == self.closed_challenge
        &&& self.phase == Phase::Closing ==> self.epoch.best_hash.solution is Some
    }

    /// An engine that has seen no proof yet, paying `initial_fee` (held to
    /// the cap).
    pub fn new(initial_fee: u64) -> (r: Self)
        ensures
            r.wf(),
            r.phase == Phase::Idle,
            r.fee.fee == if initial_fee <= MAX_PRIORITY_FEE {
                initial_fee
            } else {
                MAX_PRIORITY_FEE
            },
            r.nonces.cursor == 0,
            r.epoch.submissions@.len() == 0,
            r.registry.sessions@.len() == 0,
    {
        EpochEngine {
            phase: Phase::Idle,
            proof: ProofSnapshot { challenge: [0u8; 32], balance: 0, last_hash_at: 0 },
            epoch: EpochHashes::new(),
            nonces: NonceAllocator::new(),
            fee: PriorityFee::new(initial_fee),
            registry: ClientRegistry::new(),
            attempts: 0,
            mined: false,
            closing_since: 0,
            closed_challenge: [0u8; 32],
            job: None,
        }
    }

    /// Takes a new proof snapshot from the chain. The first one opens the
    /// first epoch. While rotating, a snapshot whose challenge differs from
    /// the one taken to submission (`closed_challenge`) starts the next epoch
    /// (a snapshot that arrived earlier can be handed in again, as
    /// `self.proof`, once the submission ends): the nonce cursor returns to
    /// 0, the table is emptied, every session gives up its window, and after
    /// a successful mine the fee relaxes.
    /// Returns the challenge of an epoch that opened, for the journal.
    pub fn on_proof(&mut self, snap: ProofSnapshot) -> (r: Option<[u8; 32]>)
        requires
            old(self).wf(),
        ensures
            final(self).wf(),
            final(self).proof == snap,
            !(old(self).phase == Phase::Rotating && snap.challenge@ != old(self).closed_challenge@)
                ==> final(self).registry == old(self).registry,
            old(self).phase == Phase::Idle ==> {
                &&& final(self).phase == Phase::Open
                &&& r == Some(snap.challenge)
                &&& final(self).epoch == old(self).epoch
                &&& final(self).nonces == old(self).nonces
                &&& final(self).fee == old(self).fee
            },
            old(self).phase == Phase::Rotating && snap.challenge@ != old(self).closed_challenge@ ==> {
                &&& final(self).phase == Phase::Open
                &&& r == Some(snap.challenge)
                &&& final(self).nonces.cursor == 0
                &&& final(self).epoch.submissions@.len() == 0
                &&& final(self).epoch.best_hash.solution is None
                &&& final(self).attempts == 0
                &&& final(self).registry.sessions@.len() == old(self).registry.sessions@.len()
                &&& forall|j: int|
                    0 <= j < old(self).registry.sessions@.len() ==> #[trigger] final(self).registry.sessions@[j] == without_window(
                        old(self).registry.sessions@[j],
                    )
                &&& final(self).fee.fee == if old(self).mined {
                    (old(self).fee.fee - relax_step(old(self).fee.fee)) as u64
                } else {
                    old(self).fee.fee
                }
            },
            old(self).phase == Phase::Rotating && snap.challenge@ == old(self).closed_challenge@ ==> {
                &&& final(self).phase == Phase::Rotating
                &&& r is None
                &&& final(self).epoch == old(self).epoch
                &&& final(self).nonces == old(self).nonces
                &&& final(self).fee == old(self).fee
            },
            old(self).phase == Phase::Open || old(self).phase == Phase::Closing || old(self).phase
                == Phase::Submitting ==> {
                &&& final(self).phase == old(self).phase
                &&& r is None
                &&& final(self).epoch == old(self).epoch
                &&& final(self).nonces == old(self).nonces
                &&& final(self).fee == old(self).fee
            },
    {
        match self.phase {
            Phase::Idle => {
                self.proof = snap;
                self.phase = Phase::Open;
                Some(snap.challenge)
            },
            Phase::Rotating => {
                if bytes32_eq(&snap.challenge, &self.closed_challenge) {
                    self.proof = snap;
                    None
                } else {
                    self.nonces.reset();
                    self.epoch.reset();
                    self.registry.clear_windows();
                    if self.mined {
                        self.fee.relax();
                    }
                    self.mined = false;
                    self.attempts = 0;
                    self.job = None;
                    self.proof = snap;
                    self.phase = Phase::Open;
                    Some(snap.challenge)
                }
            },
            _ => {
                self.proof = snap;
                None
            },
        }
    }

    /// Whether handing out work is suppressed at `now`: the cutoff has
    /// passed and a best solution is waiting to be submitted.
    pub open spec fn dispatch_suppressed(&self, now: i64) -> bool {
        clamped_cutoff(self.proof.last_hash_at, now) == 0
            && self.epoch.best_hash.solution is Some
    }

    /// Hands every ready client the next nonce window of the open epoch, in
    /// registry order, and returns the packets to send. Each served client
    /// gets `[cursor, cursor + NONCE_WINDOW)` and stops being ready. Nothing
    /// happens outside the open phase, or once the cutoff has passed with a
    /// best solution waiting.
    pub fn dispatch(&mut self, now: i64) -> (r: Vec<WorkOrder>)
        requires
            old(self).wf(),
        ensures
            final(self).wf(),
            final(self).phase == old(self).phase,
            final(self).epoch == old(self).epoch,
            final(self).proof == old(self).proof,
            final(self).fee == old(self).fee,
            old(self).phase != Phase::Open || old(self).dispatch_suppressed(now) ==> r@.len() == 0
                && final(self).registry.sessions@ == old(self).registry.sessions@
                && final(self).nonces == old(self).nonces,
            final(self).nonces.cursor == old(self).nonces.cursor + r@.len() * NONCE_WINDOW,
            final(self).registry.sessions@.len() == old(self).registry.sessions@.len(),
            forall|j: int|
                0 <= j < old(self).registry.sessions@.len() ==> {
                    let o = old(self).registry.sessions@[j];
                    let n = #[trigger] final(self).registry.sessions@[j];
                    &&& n.addr == o.addr
                    &&& n.wallet == o.wallet
                    &&& n.miner_id == o.miner_id
                    &&& n.last_pong_at == o.last_pong_at
                    &&& !o.ready ==> n == o
                    &&& o.ready && old(self).phase == Phase::Open && !old(self).dispatch_suppressed(now)
                        ==> !n.ready || final(self).nonces.cursor + NONCE_WINDOW > u64::MAX
                },
            forall|j: int|
                0 <= j < old(self).registry.sessions@.len() && old(self).registry.sessions@[j].ready
                    && !(#[trigger] final(self).registry.sessions@[j]).ready ==> exists|k: int|
                    0 <= k < r@.len() && (#[trigger] r@[k]).addr == old(self).registry.sessions@[j].addr && final(self).registry.sessions@[j].assigned
                        == Some(r@[k].range),
            forall|k: int|
                0 <= k < r@.len() ==> {
                    let w = #[trigger] r@[k];
                    &&& w.range.start == old(self).nonces.cursor + k * NONCE_WINDOW
                    &&& w.range.end == old(self).nonces.cursor + (k + 1) * NONCE_WINDOW
                    &&& w.packet@ == work_packet_of(
                        old(self).proof.challenge@,
                        clamped_cutoff(old(self).proof.last_hash_at, now),
                        w.range,
                    )
                    &&& held_by_ready_session(
                        final(self).registry.sessions@,
                        old(self).registry.sessions@,
                        w,
                    )
                },
    {
        let mut orders: Vec<WorkOrder> = Vec::new();
        if self.phase != Phase::Open {
            return orders;
        }
        let cutoff = seconds_to_cutoff(self.proof.last_hash_at, now);
        if cutoff == 0 && self.epoch.best_hash.solution.is_some() {
            return orders;
        }
        let ghost old_sessions = self.registry.sessions@;
        let ghost start = self.nonces.cursor;
        let ghost mut served: Seq<int> = Seq::empty();
        let ghost mut order_of: Seq<int> = Seq::empty();
        let challenge = self.proof.challenge;
        let n = self.registry.sessions.len();
        let mut i: usize = 0;
        while i < n
            invariant
                self.wf(),
                self.phase == Phase::Open,
                old(self).phase == Phase::Open,
                self.epoch == old(self).epoch,
                self.proof == old(self).proof,
                self.fee == old(self).fee,
                challenge == self.proof.challenge,
                cutoff == clamped_cutoff(self.proof.last_hash_at, now),
                !old(self).dispatch_suppressed(now),
                old_sessions == old(self).registry.sessions@,
                start == old(self).nonces.cursor,
                n == old_sessions.len(),
                i <= n,
                self.registry.sessions@.len() == n,
                self.nonces.cursor == start + orders@.len() * NONCE_WINDOW,
                served.len() == orders@.len(),
                order_of.len() == i,
                forall|j: int|
                    #![trigger order_of[j]]
                    0 <= j < i && old_sessions[j].ready ==> order_for(
                        orders@,
                        order_of[j],
                        old_sessions[j],
                        self.registry.sessions@[j],
                    ),
                forall|j: int|
                    i <= j < n ==> #[trigger] self.registry.sessions@[j] == old_sessions[j],
                forall|j: int|
                    0 <= j < i ==> {
                        let o = old_sessions[j];
                        let s = #[trigger] self.registry.sessions@[j];
                        &&& s.addr == o.addr
                        &&& s.wallet == o.wallet
                        &&& s.miner_id == o.miner_id
                        &&& s.last_pong_at == o.last_pong_at
                        &&& !o.ready ==> s == o
                        &&& o.ready ==> !s.ready
                    },
                forall|k: int|
                    #![trigger orders@[k]]
                    0 <= k < orders@.len() ==> order_served_at(
                        self.registry.sessions@,
                        old_sessions,
                        orders@[k],
                        served[k],
                        i as int,
                    ) && order_window(orders@[k], start, k, challenge@, cutoff),
            decreases n - i,
        {
            let s = self.registry.sessions[i];
            if s.ready {
                match self.nonces.allocate() {
                    Some(range) => {
                        let ghost prev_sessions = self.registry.sessions@;
                        self.registry.assign_window(i, range);
                        let packet = encode_work_packet(&challenge, cutoff, range);
                        let ghost prev = orders@;
                        let ghost prev_served = served;
                        proof {
                            served = served.push(i as int);
                            order_of = order_of.push(prev.len() as int);
                        }
                        orders.push(WorkOrder { addr: s.addr, range, packet });
                        proof {
                            assert forall|k: int|
                                #![trigger orders@[k]]
                                0 <= k < orders@.len() implies order_served_at(
                                    self.registry.sessions@,
                                    old_sessions,
                                    orders@[k],
                                    served[k],
                                    i + 1,
                                ) && order_window(orders@[k], start, k, challenge@, cutoff) by {
                                if k < prev.len() {
                                    assert(orders@[k] == prev[k]);
                                    assert(served[k] == prev_served[k]);
                                    assert(prev_served[k] < i);
                                    assert(self.registry.sessions@[served[k]] == prev_sessions[served[k]]);
                                } else {
                                    assert(k == prev.len());
                                    assert(served[k] == i);
                                }
                            }
                            assert forall|j: int|
                                #![trigger order_of[j]]
                                0 <= j < i + 1 && old_sessions[j].ready implies order_for(
                                    orders@,
                                    order_of[j],
                                    old_sessions[j],
                                    self.registry.sessions@[j],
                                ) by {
                                if j < i {
                                    assert(orders@[order_of[j]] == prev[order_of[j]]);
                                    assert(self.registry.sessions@[j] == prev_sessions[j]);
                                }
                            }
                        }
                    },
                    None => {
                        proof {
                            assert forall|j: int|
                                0 <= j < n implies {
                                    let o = old_sessions[j];
                                    let s = #[trigger] self.registry.sessions@[j];
                                    o.ready ==> !s.ready || self.nonces.cursor + NONCE_WINDOW
                                        > u64::MAX
                                } by {}
                            self.lemma_served_witness(old_sessions, orders@, served, i as int);
                            self.lemma_ready_got_order(old_sessions, orders@, order_of, i as int);
                        }
                        return orders;
                    },
                }
            } else {
                proof {
                    order_of = order_of.push(-1);
                }
            }
            i = i + 1;
        }
        proof {
            self.lemma_served_witness(old_sessions, orders@, served, i as int);
            self.lemma_ready_got_order(old_sessions, orders@, order_of, i as int);
        }
        orders
    }

    /// Every session that was ready and no longer is got an order with its
    /// window.
    proof fn lemma_ready_got_order(&self, old_sessions: Seq<Session>, orders: Seq<WorkOrder>, order_of: Seq<int>, i: int)
        requires
            self.registry.sessions@.len() == old_sessions.len(),
            0 <= i <= old_sessions.len(),
            order_of.len() >= i,
            forall|j: int|
                #![trigger order_of[j]]
                0 <= j < i && old_sessions[j].ready ==> order_for(
                    orders,
                    order_of[j],
                    old_sessions[j],
                    self.registry.sessions@[j],
                ),
            forall|j: int|
                i <= j < old_sessions.len() ==> #[trigger] self.registry.sessions@[j] == old_sessions[j],
        ensures
            forall|j: int|
                0 <= j < old_sessions.len() && old_sessions[j].ready
                    && !(#[trigger] self.registry.sessions@[j]).ready ==> exists|k: int|
                    0 <= k < orders.len() && (#[trigger] orders[k]).addr == old_sessions[j].addr
                        && self.registry.sessions@[j].assigned == Some(orders[k].range),
    {
        assert forall|j: int|
            0 <= j < old_sessions.len() && old_sessions[j].ready
                && !(#[trigger] self.registry.sessions@[j]).ready implies exists|k: int|
                0 <= k < orders.len() && (#[trigger] orders[k]).addr == old_sessions[j].addr
                    && self.registry.sessions@[j].assigned == Some(orders[k].range) by {
            if j >= i {
                assert(self.registry.sessions@[j] == old_sessions[j]);
            } else {
                let k = order_of[j];
                assert(order_for(orders, k, old_sessions[j], self.registry.sessions@[j]));
                assert(orders[k].addr == old_sessions[j].addr);
            }
        }
    }

    /// The session from `addr` is unique in a well-formed registry.
    proof fn lemma_session_of(&self, addr: PeerAddr, k: int)
        requires
            self.registry.wf(),
            0 <= k < self.registry.sessions@.len(),
            self.registry.sessions@[k].addr == addr,
        ensures
            session_of(self.registry.sessions@, addr) == self.registry.sessions@[k],
    {
        let s = self.registry.sessions@;
        let c = choose|j: int| 0 <= j < s.len() && s[j].addr == addr;
        if c != k {
            assert(s[c].addr != s[k].addr);
        }
    }

    /// Credits a solution from `addr`, given whether its proof of work is
    /// valid for the current challenge and its difficulty. It is credited
    /// only in the open or closing phase, from a known session, with its nonce inside
    /// that session's window, valid and at least `MIN_DIFF`; then the
    /// session's wallet gets the entry and the best solution may move up.
    /// A rejected solution changes nothing.
    pub fn credit_solution(&mut self, addr: PeerAddr, solution: Solution, valid: bool, difficulty: u32) -> (r: SubmissionOutcome)
        requires
            old(self).wf(),
        ensures
            final(self).wf(),
            final(self).phase == old(self).phase,
            final(self).registry == old(self).registry,
            final(self).nonces == old(self).nonces,
            final(self).fee == old(self).fee,
            final(self).proof == old(self).proof,
            ({
                let v = submission_verdict(old(self).phase, old(self).registry.sessions@, addr, solution.nonce_spec(), valid, difficulty as nat);
                &&& v matches Some(e) ==> r == SubmissionOutcome::Rejected(e) && final(self).epoch == old(self).epoch
                &&& v is None ==> {
                    let s = session_of(old(self).registry.sessions@, addr);
                    &&& r == SubmissionOutcome::Accepted {
                        wallet: s.wallet,
                        miner_id: s.miner_id,
                        nonce: solution.nonce_spec() as u64,
                        difficulty,
                        hashpower: hashpower_of(difficulty) as u64,
                    }
                    &&& recorded(old(self).epoch, final(self).epoch, s.wallet, s.miner_id, solution, difficulty)
                }
            }),
            final(self).epoch.best_hash.difficulty >= old(self).epoch.best_hash.difficulty,
            r matches SubmissionOutcome::Accepted { nonce, difficulty: d, .. } ==> {
                &&& d >= MIN_DIFF
                &&& exists|j: int|
                    0 <= j < old(self).registry.sessions@.len() && (#[trigger] old(self).registry.sessions@[j]).addr == addr
                        && (old(self).registry.sessions@[j].assigned matches Some(w)
                        && w.start <= nonce < w.end)
            },
    {
        if self.phase != Phase::Open && self.phase != Phase::Closing {
            return SubmissionOutcome::Rejected(SubmissionRejection::EpochClosed);
        }
        let k = match self.registry.find(addr) {
            Some(k) => k,
            None => return SubmissionOutcome::Rejected(SubmissionRejection::UnknownSession),
        };
        let session = self.registry.sessions[k];
        proof {
            self.lemma_session_of(addr, k as int);
        }
        let window = match session.assigned {
            Some(w) => w,
            None => return SubmissionOutcome::Rejected(SubmissionRejection::NoWindow),
        };
        let nonce = solution.nonce_value();
        if !window.contains(nonce) {
            return SubmissionOutcome::Rejected(SubmissionRejection::OutOfRange);
        }
        if !valid {
            return SubmissionOutcome::Rejected(SubmissionRejection::InvalidSolution);
        }
        if difficulty < MIN_DIFF {
            return SubmissionOutcome::Rejected(SubmissionRejection::TooEasy);
        }
        let hashpower = crate::hashpower::hashpower(difficulty);
        self.epoch.record(session.wallet, session.miner_id, solution, difficulty);
        SubmissionOutcome::Accepted { wallet: session.wallet, miner_id: session.miner_id, nonce, difficulty, hashpower }
    }

    /// Takes a client's best solution: checks its proof of work against the
    /// current challenge and measures its difficulty, then credits it as
    /// `credit_solution` does.
    pub fn submit_solution(&mut self, addr: PeerAddr, solution: Solution) -> (r: SubmissionOutcome)
        requires
            old(self).wf(),
        ensures
            final(self).wf(),
            final(self).phase == old(self).phase,
            final(self).registry == old(self).registry,
            final(self).nonces == old(self).nonces,
            final(self).fee == old(self).fee,
            final(self).epoch.best_hash.difficulty >= old(self).epoch.best_hash.difficulty,
            ({
                let v = submission_verdict(
                    old(self).phase,
                    old(self).registry.sessions@,
                    addr,
                    solution.nonce_spec(),
                    pow_valid(old(self).proof.challenge@, solution.digest@, solution.nonce@),
                    difficulty_of(solution),
                );
                &&& v matches Some(e) ==> r == SubmissionOutcome::Rejected(e) && final(self).epoch == old(self).epoch
                &&& v is None ==> {
                    let s = session_of(old(self).registry.sessions@, addr);
                    &&& r == SubmissionOutcome::Accepted {
                        wallet: s.wallet,
                        miner_id: s.miner_id,
                        nonce: solution.nonce_spec() as u64,
                        difficulty: difficulty_of(solution) as u32,
                        hashpower: hashpower_of(difficulty_of(solution) as u32) as u64,
                    }
                    &&& recorded(old(self).epoch, final(self).epoch, s.wallet, s.miner_id, solution, difficulty_of(solution) as u32)
                }
            }),
    {
        let challenge = self.proof.challenge;
        let valid = is_valid_for(&solution, &challenge);
        let difficulty = if valid {
            solution_difficulty(&solution)
        } else {
            0
        };
        self.credit_solution(addr, solution, valid, difficulty)
    }

    /// At cutoff (no seconds left at `now`), with a best solution in hand,
    /// moves from the open phase to closing, where solutions still in flight
    /// are taken. Otherwise nothing changes and `false` is returned.
    pub fn close_epoch(&mut self, now: i64) -> (r: bool)
        requires
            old(self).wf(),
        ensures
            final(self).wf(),
            final(self).epoch == old(self).epoch,
            final(self).registry == old(self).registry,
            final(self).nonces == old(self).nonces,
            final(self).fee == old(self).fee,
            final(self).proof == old(self).proof,
            r == (old(self).phase == Phase::Open && clamped_cutoff(old(self).proof.last_hash_at, now) == 0
                && old(self).epoch.best_hash.solution is Some),
            r ==> final(self).phase == Phase::Closing && final(self).closing_since == now,
            !r ==> final(self).phase == old(self).phase,
    {
        if self.phase != Phase::Open {
            return false;
        }
        if seconds_to_cutoff(self.proof.last_hash_at, now) != 0 {
            return false;
        }
        if self.epoch.best_hash.solution.is_none() {
            return false;
        }
        self.phase = Phase::Closing;
        self.closing_since = now;
        true
    }

    /// Once the closing phase has lasted `CLOSING_HOLD_SECS`, moves to
    /// submitting: the job holds the best solution and the contributions as
    /// they stand. Otherwise nothing changes and `false` is returned.
    pub fn begin_submission(&mut self, now: i64) -> (r: bool)
        requires
            old(self).wf(),
        ensures
            final(self).wf(),
            final(self).epoch == old(self).epoch,
            final(self).registry == old(self).registry,
            final(self).nonces == old(self).nonces,
            final(self).fee == old(self).fee,
            final(self).proof == old(self).proof,
            r == (old(self).phase == Phase::Closing && now >= old(self).closing_since + CLOSING_HOLD_SECS),
            r ==> {
                &&& final(self).phase == Phase::Submitting
                &&& final(self).attempts == 0
                &&& final(self).closed_challenge == old(self).proof.challenge
                &&& final(self).job matches Some(j) && j.challenge == old(self).proof.challenge
                    && Some(j.solution) == old(self).epoch.best_hash.solution
                    && j.difficulty == old(self).epoch.best_hash.difficulty
                    && j.submissions@ == old(self).epoch.submissions@
            },
            !r ==> final(self).phase == old(self).phase && final(self).attempts == old(self).attempts,
    {
        if self.phase != Phase::Closing {
            return false;
        }
        if (now as i128) < (self.closing_since as i128) + (CLOSING_HOLD_SECS as i128) {
            return false;
        }
        let solution = match self.epoch.best_hash.solution {
            Some(s) => s,
            None => {
                return false;
            },
        };
        let submissions = self.epoch.snapshot();
        self.job = Some(MineJob {
            challenge: self.proof.challenge,
            solution,
            difficulty: self.epoch.best_hash.difficulty,
            submissions,
        });
        self.closed_challenge = self.proof.challenge;
        self.attempts = 0;
        self.phase = Phase::Submitting;
        true
    }

    /// Takes the outcome of one attempt at the mine transaction. A confirmed
    /// transaction ends the epoch: the engine waits for the next challenge.
    /// A failed send raises the fee by `FEE_STEP_UP` (to the cap); a failed
    /// send or a missing blockhash uses up an attempt, and after
    /// `MAX_MINE_ATTEMPTS` the epoch is dropped: the nonce cursor returns to
    /// 0 and the table is emptied while the engine waits for a new challenge.
    pub fn on_attempt(&mut self, outcome: AttemptOutcome) -> (r: SubmitStep)
        requires
            old(self).wf(),
            old(self).phase == Phase::Submitting,
        ensures
            final(self).wf(),
            final(self).registry == old(self).registry,
            final(self).proof == old(self).proof,
            final(self).closed_challenge == old(self).closed_challenge,
            outcome == AttemptOutcome::Confirmed ==> {
                &&& r == SubmitStep::Mined
                &&& final(self).phase == Phase::Rotating
                &&& final(self).mined
                &&& final(self).fee == old(self).fee
                &&& final(self).epoch == old(self).epoch
                &&& final(self).nonces == old(self).nonces
            },
            outcome == AttemptOutcome::SendFailed ==> final(self).fee.fee == if old(self).fee.fee + FEE_STEP_UP <= MAX_PRIORITY_FEE {
                (old(self).fee.fee + FEE_STEP_UP) as u64
            } else {
                MAX_PRIORITY_FEE
            },
            outcome == AttemptOutcome::NoBlockhash ==> final(self).fee == old(self).fee,
            outcome != AttemptOutcome::Confirmed && old(self).attempts + 1 < MAX_MINE_ATTEMPTS ==> {
                &&& r == SubmitStep::Retry
                &&& final(self).phase == Phase::Submitting
                &&& final(self).attempts == old(self).attempts + 1
                &&& final(self).epoch == old(self).epoch
                &&& final(self).nonces == old(self).nonces
            },
            outcome != AttemptOutcome::Confirmed && old(self).attempts + 1 >= MAX_MINE_ATTEMPTS ==> {
                &&& r == SubmitStep::Abandoned
                &&& final(self).phase == Phase::Rotating
                &&& !final(self).mined
                &&& final(self).nonces.cursor == 0
                &&& final(self).epoch.submissions@.len() == 0
                &&& final(self).epoch.best_hash.solution is None
            },
    {
        match outcome {
            AttemptOutcome::Confirmed => {
                self.mined = true;
                self.phase = Phase::Rotating;
                return SubmitStep::Mined;
            },
            AttemptOutcome::SendFailed => {
                self.fee.escalate();
            },
            AttemptOutcome::NoBlockhash => {},
        }
        if self.attempts + 1 < MAX_MINE_ATTEMPTS {
            self.attempts = self.attempts + 1;
            SubmitStep::Retry
        } else {
            self.attempts = MAX_MINE_ATTEMPTS;
            self.nonces.reset();
            self.epoch.reset();
            self.mined = false;
            self.phase = Phase::Rotating;
            SubmitStep::Abandoned
        }
    }

    /// Each order names a session that was ready and now holds its window.
    proof fn lemma_served_witness(&self, old_sessions: Seq<Session>, orders: Seq<WorkOrder>, served: Seq<int>, i: int)
        requires
            served.len() == orders.len(),
            self.registry.sessions@.len() == old_sessions.len(),
            i <= old_sessions.len(),
            forall|k: int|
                #![trigger orders[k]]
                0 <= k < orders.len() ==> order_served_at(
                    self.registry.sessions@,
                    old_sessions,
                    orders[k],
                    served[k],
                    i,
                ),
        ensures
            forall|k: int|
                0 <= k < orders.len() ==> held_by_ready_session(
                    self.registry.sessions@,
                    old_sessions,
                    #[trigger] orders[k],
                ),
    {
        assert forall|k: int| 0 <= k < orders.len() implies held_by_ready_session(
            self.registry.sessions@,
            old_sessions,
            #[trigger] orders[k],
        ) by {
            let j = served[k];
            assert(self.registry.sessions@[j].addr == orders[k].addr);
        }
    }
}

} // verus!
