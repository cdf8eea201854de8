//! Connected client sessions, keyed by address, at most one per wallet.
use vstd::prelude::*;
use crate::keys::{PeerAddr, WalletKey};
use crate::nonce::NonceRange;

verus! {

/// Seconds between two liveness probes.
pub const PING_INTERVAL_SECS: u64 = 30;

/// A session whose last answer to a probe is older than this is evicted.
pub const PONG_TIMEOUT_SECS: u64 = 45;

/// One authenticated client connection.
#[derive(Clone, Copy, Debug)]
pub struct Session {
    pub addr: PeerAddr,
    pub wallet: WalletKey,
    pub miner_id: i32,
    /// Asked for work since its last dispatch.
    pub ready: bool,
    /// The nonce window it was last handed in this epoch.
    pub assigned: Option<NonceRange>,
    /// When (seconds since the Unix epoch) it last answered a probe.
    pub last_pong_at: u64,
}

/// Why a session could not be registered.
#[derive(Clone, Copy, Debug, PartialEq, Eq, Structural)]
pub enum RegistryError {
    /// A session for this wallet is already connected.
    WalletConnected,
    /// A session from this address is already connected.
    AddressInUse,
}

/// The sessions of all connected clients.
pub struct ClientRegistry {
    pub sessions: Vec<Session>,
}

/// Whether some session of `s` comes from `addr`.
pub open spec fn has_addr(s: Seq<Session>, addr: PeerAddr) -> bool {
    exists|j: int| 0 <= j < s.len() && (#[trigger] s[j]).addr == addr
}

/// Whether some session of `s` belongs to wallet `w`.
pub open spec fn has_session_wallet(s: Seq<Session>, w: Seq<u8>) -> bool {
    exists|j: int| 0 <= j < s.len() && (#[trigger] s[j]).wallet@ == w
}

/// No two sessions share an address, and no two share a wallet.
pub open spec fn sessions_distinct(s: Seq<Session>) -> bool {
    forall|i: int, j: int|
        0 <= i < s.len() && 0 <= j < s.len() && i != j ==> (#[trigger] s[i]).addr != (
        #[trigger] s[j]).addr && s[i].wallet@ != s[j].wallet@
}

/// `s` without a nonce window.
pub open spec fn without_window(s: Session) -> Session {
    Session { assigned: None, ..s }
}

/// Whether `s` has gone longer than `PONG_TIMEOUT_SECS` without answering.
pub open spec fn is_stale(s: Session, now: u64) -> bool {
    now > s.last_pong_at + PONG_TIMEOUT_SECS
}

impl ClientRegistry {
    /// One session per address and one per wallet.
    pub open spec fn wf(&self) -> bool {
        sessions_distinct(self.sessions@)
    }

    /// A registry with no sessions.
    pub fn new() -> (r: Self)
        ensures
            r.wf(),
            r.sessions@.len() == 0,
    {
        ClientRegistry { sessions: Vec::new() }
    }

    /// Number of connected sessions.
    pub fn len(&self) -> (r: usize)
        ensures
            r == self.sessions@.len(),
    {
        self.sessions.len()
    }

    /// Index of the session from `addr`.
    pub fn find(&self, addr: PeerAddr) -> (r: Option<usize>)
        ensures
            r matches Some(k) ==> k < self.sessions@.len() && self.sessions@[k as int].addr == addr,
            r is None <==> !has_addr(self.sessions@, addr),
    {
        let mut i: usize = 0;
        while i < self.sessions.len()
            invariant
                i <= self.sessions@.len(),
                forall|j: int| 0 <= j < i ==> (#[trigger] self.sessions@[j]).addr != addr,
            decreases self.sessions@.len() - i,
        {
            if self.sessions[i].addr == addr {
                return Some(i);
            }
            i = i + 1;
        }
        None
    }

    /// The session from `addr`.
    pub fn get(&self, addr: PeerAddr) -> (r: Option<Session>)
        ensures
            r matches Some(s) ==> s.addr == addr && exists|j: int|
                0 <= j < self.sessions@.len() && self.sessions@[j] == s,
            r is None <==> !has_addr(self.sessions@, addr),
    {
        match self.find(addr) {
            Some(k) => Some(self.sessions[k]),
            None => None,
        }
    }

    /// Whether a session for `wallet` is connected.
    pub fn is_wallet_connected(&self, wallet: &WalletKey) -> (r: bool)
        ensures
            r == has_session_wallet(self.sessions@, wallet@),
    {
        let mut i: usize = 0;
        while i < self.sessions.len()
            invariant
                i <= self.sessions@.len(),
                forall|j: int| 0 <= j < i ==> (#[trigger] self.sessions@[j]).wallet@ != wallet@,
            decreases self.sessions@.len() - i,
        {
            if self.sessions[i].wallet == *wallet {
                return true;
            }
            i = i + 1;
        }
        false
    }

    /// Registers the session of `wallet` connected from `addr` at `now`,
    /// not yet ready and with no window. Refused, with nothing changed, when
    /// the wallet already has a session or the address is taken.
    pub fn insert(&mut self, addr: PeerAddr, wallet: WalletKey, miner_id: i32, now: u64) -> (r:
        Result<(), RegistryError>)
        requires
            old(self).wf(),
        ensures
            final(self).wf(),
            has_session_wallet(old(self).sessions@, wallet@) ==> r == Err::<(), RegistryError>(
                RegistryError::WalletConnected,
            ),
            !has_session_wallet(old(self).sessions@, wallet@) && has_addr(old(self).sessions@, addr)
                ==> r == Err::<(), RegistryError>(RegistryError::AddressInUse),
            r is Err ==> final(self).sessions@ == old(self).sessions@,
            r is Ok <==> !has_session_wallet(old(self).sessions@, wallet@) && !has_addr(
                old(self).sessions@,
                addr,
            ),
            r is Ok ==> final(self).sessions@ == old(self).sessions@.push(
                Session { addr, wallet, miner_id, ready: false, assigned: None, last_pong_at: now },
            ),
    {
        if self.is_wallet_connected(&wallet) {
            return Err(RegistryError::WalletConnected);
        }
        if self.find(addr).is_some() {
            return Err(RegistryError::AddressInUse);
        }
        let s = Session { addr, wallet, miner_id, ready: false, assigned: None, last_pong_at: now };
        self.sessions.push(s);
        proof {
            let o = old(self).sessions@;
            let n = self.sessions@;
            assert forall|i: int, j: int|
                0 <= i < n.len() && 0 <= j < n.len() && i != j implies (#[trigger] n[i]).addr != (
                #[trigger] n[j]).addr && n[i].wallet@ != n[j].wallet@ by {
                if i < o.len() && j < o.len() {
                    assert(o[i] == n[i] && o[j] == n[j]);
                } else if i < o.len() {
                    assert(o[i] == n[i]);
                } else {
                    assert(o[j] == n[j]);
                }
            }
        }
        Ok(())
    }

    /// Removes the session from `addr`, returning it.
    pub fn remove(&mut self, addr: PeerAddr) -> (r: Option<Session>)
        requires
            old(self).wf(),
        ensures
            final(self).wf(),
            r is None <==> !has_addr(old(self).sessions@, addr),
            r is None ==> final(self).sessions@ == old(self).sessions@,
            r matches Some(s) ==> s.addr == addr && exists|k: int|
                0 <= k < old(self).sessions@.len() && old(self).sessions@[k] == s
                    && final(self).sessions@ == old(self).sessions@.remove(k),
            !has_addr(final(self).sessions@, addr),
    {
        match self.find(addr) {
            Some(k) => {
                let s = self.sessions.remove(k);
                proof {
                    let o = old(self).sessions@;
                    let n = self.sessions@;
                    assert forall|i: int, j: int|
                        0 <= i < n.len() && 0 <= j < n.len() && i != j implies (
                        #[trigger] n[i]).addr != (#[trigger] n[j]).addr && n[i].wallet@
                        != n[j].wallet@ by {
                        let oi = if i < k { i } else { i + 1 };
                        let oj = if j < k { j } else { j + 1 };
                        assert(n[i] == o[oi] && n[j] == o[oj]);
                    }
                    assert forall|j: int| 0 <= j < n.len() implies (#[trigger] n[j]).addr != addr by {
                        let oj = if j < k { j } else { j + 1 };
                        assert(n[j] == o[oj]);
                    }
                }
                Some(s)
            },
            None => None,
        }
    }

    /// Marks the session from `addr` ready for work; false if there is none.
    pub fn mark_ready(&mut self, addr: PeerAddr) -> (r: bool)
        requires
            old(self).wf(),
        ensures
            final(self).wf(),
            r == has_addr(old(self).sessions@, addr),
            final(self).sessions@.len() == old(self).sessions@.len(),
            forall|j: int|
                0 <= j < old(self).sessions@.len() ==> {
                    let o = old(self).sessions@[j];
                    let n = #[trigger] final(self).sessions@[j];
                    n == if o.addr == addr {
                        Session { ready: true, ..o }
                    } else {
                        o
                    }
                },
    {
        match self.find(addr) {
            Some(k) => {
                let mut s = self.sessions[k];
                s.ready = true;
                self.sessions.set(k, s);
                proof {
                    self.lemma_update_keeps_distinct(old(self).sessions@, k as int);
                }
                true
            },
            None => false,
        }
    }

    /// Notes that the session from `addr` answered a probe at `now`; false
    /// if there is none.
    pub fn record_pong(&mut self, addr: PeerAddr, now: u64) -> (r: bool)
        requires
            old(self).wf(),
        ensures
            final(self).wf(),
            r == has_addr(old(self).sessions@, addr),
            final(self).sessions@.len() == old(self).sessions@.len(),
            forall|j: int|
                0 <= j < old(self).sessions@.len() ==> {
                    let o = old(self).sessions@[j];
                    let n = #[trigger] final(self).sessions@[j];
                    n == if o.addr == addr {
                        Session { last_pong_at: now, ..o }
                    } else {
                        o
                    }
                },
    {
        match self.find(addr) {
            Some(k) => {
                let mut s = self.sessions[k];
                s.last_pong_at = now;
                self.sessions.set(k, s);
                proof {
                    self.lemma_update_keeps_distinct(old(self).sessions@, k as int);
                }
                true
            },
            None => false,
        }
    }

    /// Hands window `range` to the `k`-th session, which stops being ready.
    pub fn assign_window(&mut self, k: usize, range: NonceRange)
        requires
            old(self).wf(),
            k < old(self).sessions@.len(),
        ensures
            final(self).wf(),
            final(self).sessions@ == old(self).sessions@.update(
                k as int,
                Session { ready: false, assigned: Some(range), ..old(self).sessions@[k as int] },
            ),
    {
        let mut s = self.sessions[k];
        s.ready = false;
        s.assigned = Some(range);
        self.sessions.set(k, s);
        proof {
            self.lemma_update_keeps_distinct(old(self).sessions@, k as int);
        }
    }

    /// Takes back every session's nonce window, at the end of an epoch.
    pub fn clear_windows(&mut self)
        requires
            old(self).wf(),
        ensures
            final(self).wf(),
            final(self).sessions@.len() == old(self).sessions@.len(),
            forall|j: int|
                0 <= j < old(self).sessions@.len() ==> #[trigger] final(self).sessions@[j]
                    == without_window(old(self).sessions@[j]),
    {
        let n = self.sessions.len();
        let mut i: usize = 0;
        while i < n
            invariant
                i <= n,
                n == old(self).sessions@.len(),
                self.sessions@.len() == n,
                self.wf(),
                forall|j: int| i <= j < n ==> #[trigger] self.sessions@[j] == old(self).sessions@[j],
                forall|j: int|
                    0 <= j < i ==> #[trigger] self.sessions@[j] == without_window(
                        old(self).sessions@[j],
                    ),
            decreases n - i,
        {
            let ghost before = self.sessions@;
            let mut s = self.sessions[i];
            s.assigned = None;
            self.sessions.set(i, s);
            proof {
                self.lemma_update_keeps_distinct(before, i as int);
            }
            i = i + 1;
        }
    }

    /// Replacing one session by one with the same address and wallet keeps
    /// sessions distinct.
    proof fn lemma_update_keeps_distinct(&self, o: Seq<Session>, k: int)
        requires
            sessions_distinct(o),
            0 <= k < o.len(),
            self.sessions@.len() == o.len(),
            self.sessions@[k].addr == o[k].addr,
            self.sessions@[k].wallet == o[k].wallet,
            forall|j: int| 0 <= j < o.len() && j != k ==> self.sessions@[j] == o[j],
        ensures
            self.wf(),
    {
        let n = self.sessions@;
        assert forall|i: int, j: int|
            0 <= i < n.len() && 0 <= j < n.len() && i != j implies (#[trigger] n[i]).addr != (
            #[trigger] n[j]).addr && n[i].wallet@ != n[j].wallet@ by {
            assert(o[i].addr != o[j].addr && o[i].wallet@ != o[j].wallet@);
        }
    }

    /// Addresses of the sessions that have not answered a probe for more
    /// than `PONG_TIMEOUT_SECS` by `now`, in registry order.
    pub fn stale_addrs(&self, now: u64) -> (r: Vec<PeerAddr>)
        ensures
            r@ == stale_seq(self.sessions@, now),
    {
        let mut out: Vec<PeerAddr> = Vec::new();
        let mut i: usize = 0;
        while i < self.sessions.len()
            invariant
                i <= self.sessions@.len(),
                out@ == stale_seq(self.sessions@.take(i as int), now),
            decreases self.sessions@.len() - i,
        {
            assert(self.sessions@.take(i + 1).drop_last() =~= self.sessions@.take(i as int));
            let s = self.sessions[i];
            if s.last_pong_at < now && now - s.last_pong_at > PONG_TIMEOUT_SECS {
                out.push(s.addr);
            }
            i = i + 1;
        }
        assert(self.sessions@.take(i as int) =~= self.sessions@);
        out
    }
}

/// Addresses of the stale sessions of `s` at `now`, in order.
pub open spec fn stale_seq(s: Seq<Session>, now: u64) -> Seq<PeerAddr>
    decreases s.len(),
{
    if s.len() == 0 {
        Seq::empty()
    } else {
        let p = stale_seq(s.drop_last(), now);
        if is_stale(s.last(), now) {
            p.push(s.last().addr)
        } else {
            p
        }
    }
}

/// One wallet, one session: in a well-formed registry no two sessions
/// belong to the same wallet.
pub proof fn lemma_one_session_per_wallet(reg: &ClientRegistry)
    requires
        reg.wf(),
    ensures
        forall|i: int, j: int|
            0 <= i < reg.sessions@.len() && 0 <= j < reg.sessions@.len() && i != j ==> (
            #[trigger] reg.sessions@[i]).wallet@ != (#[trigger] reg.sessions@[j]).wallet@,
{
}

} // verus!
