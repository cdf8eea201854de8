//! The per-epoch table of accepted submissions and the best solution so far.
use vstd::prelude::*;
use crate::hashpower::{hashpower, hashpower_of, MAX_HASHPOWER, MIN_DIFF};
use crate::keys::WalletKey;
use crate::pow::Solution;

verus! {

/// What one wallet is credited with in the current epoch: its latest accepted
/// submission.
#[derive(Clone, Copy, Debug)]
pub struct Contribution {
    pub wallet: WalletKey,
    pub miner_id: i32,
    pub difficulty: u32,
    pub hashpower: u64,
}

/// The best solution accepted in the current epoch, with its difficulty.
/// `difficulty` is 0 while no solution has been accepted.
#[derive(Clone, Copy, Debug)]
pub struct BestHash {
    pub solution: Option<Solution>,
    pub difficulty: u32,
}

/// The epoch table: the best solution and one contribution per wallet.
pub struct EpochHashes {
    pub best_hash: BestHash,
    pub submissions: Vec<Contribution>,
}

/// Whether some entry of `s` belongs to wallet `w`.
pub open spec fn has_wallet(s: Seq<Contribution>, w: Seq<u8>) -> bool {
    exists|j: int| 0 <= j < s.len() && (#[trigger] s[j]).wallet@ == w
}

/// No two entries of `s` belong to the same wallet.
pub open spec fn wallets_unique(s: Seq<Contribution>) -> bool {
    forall|i: int, j: int|
        0 <= i < s.len() && 0 <= j < s.len() && i != j ==> (#[trigger] s[i]).wallet@ != (
        #[trigger] s[j]).wallet@
}

/// The entry an accepted submission of difficulty `d` gives its wallet.
pub open spec fn entry_of(wallet: WalletKey, miner_id: i32, d: u32) -> Contribution {
    Contribution { wallet, miner_id, difficulty: d, hashpower: hashpower_of(d) as u64 }
}

/// `after` is `before` with an accepted submission of `wallet` at
/// difficulty `d` recorded: the wallet's entry replaced (or added), and the
/// solution promoted to best only if strictly harder than the best.
pub open spec fn recorded(
    before: EpochHashes,
    after: EpochHashes,
    wallet: WalletKey,
    miner_id: i32,
    solution: Solution,
    d: u32,
) -> bool {
    let e = entry_of(wallet, miner_id, d);
    &&& has_wallet(before.submissions@, wallet@) ==> after.submissions@.len()
        == before.submissions@.len()
    &&& !has_wallet(before.submissions@, wallet@) ==> after.submissions@
        == before.submissions@.push(e)
    &&& forall|j: int|
        0 <= j < before.submissions@.len() ==> (#[trigger] after.submissions@[j]) == if before.submissions@[j].wallet@ == wallet@ {
            e
        } else {
            before.submissions@[j]
        }
    &&& d > before.best_hash.difficulty ==> after.best_hash.difficulty == d
        && after.best_hash.solution == Some(solution)
    &&& d <= before.best_hash.difficulty ==> after.best_hash == before.best_hash
}

/// Finds the entry of wallet `w` in `s`.
pub fn find_wallet(s: &Vec<Contribution>, w: &WalletKey) -> (r: Option<usize>)
    ensures
        r matches Some(k) ==> k < s@.len() && s@[k as int].wallet@ == w@,
        r is None ==> !has_wallet(s@, w@),
{
    let mut i: usize = 0;
    while i < s.len()
        invariant
            i <= s@.len(),
            forall|j: int| 0 <= j < i ==> (#[trigger] s@[j]).wallet@ != w@,
        decreases s@.len() - i,
    {
        if s[i].wallet == *w {
            return Some(i);
        }
        i = i + 1;
    }
    None
}

impl EpochHashes {
    /// The table's invariant: one entry per wallet, every entry at least
    /// `MIN_DIFF` with the hashpower its difficulty gives, none above the
    /// best difficulty, and a best solution exactly when the best difficulty
    /// is set.
    pub open spec fn wf(&self) -> bool {
        &&& wallets_unique(self.submissions@)
        &&& forall|i: int|
            0 <= i < self.submissions@.len() ==> {
                let c = #[trigger] self.submissions@[i];
                &&& c.difficulty >= MIN_DIFF
                &&& c.hashpower == hashpower_of(c.difficulty)
                &&& c.difficulty <= self.best_hash.difficulty
            }
        &&& self.best_hash.solution is Some <==> self.best_hash.difficulty > 0
        &&& self.best_hash.solution is Some ==> self.best_hash.difficulty >= MIN_DIFF
    }

    /// An empty table with no best solution.
    pub fn new() -> (r: Self)
        ensures
            r.wf(),
            r.submissions@.len() == 0,
            r.best_hash.solution is None,
            r.best_hash.difficulty == 0,
    {
        EpochHashes { best_hash: BestHash { solution: None, difficulty: 0 }, submissions: Vec::new() }
    }

    /// Empties the table for a new epoch.
    pub fn reset(&mut self)
        ensures
            final(self).wf(),
            final(self).submissions@.len() == 0,
            final(self).best_hash.solution is None,
            final(self).best_hash.difficulty == 0,
    {
        self.best_hash = BestHash { solution: None, difficulty: 0 };
        self.submissions = Vec::new();
    }

    /// Records an accepted submission of `wallet`: its entry is overwritten
    /// (the latest submission counts, whatever its difficulty), and the
    /// solution becomes the best one only if strictly harder than the best.
    pub fn record(&mut self, wallet: WalletKey, miner_id: i32, solution: Solution, difficulty: u32)
        requires
            old(self).wf(),
            difficulty >= MIN_DIFF,
        ensures
            final(self).wf(),
            has_wallet(old(self).submissions@, wallet@) ==> final(self).submissions@.len()
                == old(self).submissions@.len(),
            !has_wallet(old(self).submissions@, wallet@) ==> final(self).submissions@
                == old(self).submissions@.push(entry_of(wallet, miner_id, difficulty)),
            forall|j: int|
                0 <= j < old(self).submissions@.len() ==> (#[trigger] final(self).submissions@[j])
                    == if old(self).submissions@[j].wallet@ == wallet@ {
                    entry_of(wallet, miner_id, difficulty)
                } else {
                    old(self).submissions@[j]
                },
            difficulty > old(self).best_hash.difficulty ==> final(self).best_hash.difficulty
                == difficulty && final(self).best_hash.solution == Some(solution),
            difficulty <= old(self).best_hash.difficulty ==> final(self).best_hash
                == old(self).best_hash,
            final(self).best_hash.difficulty >= old(self).best_hash.difficulty,
            recorded(*old(self), *final(self), wallet, miner_id, solution, difficulty),
    {
        let hp = hashpower(difficulty);
        let entry = Contribution { wallet, miner_id, difficulty, hashpower: hp };
        if difficulty > self.best_hash.difficulty {
            self.best_hash = BestHash { solution: Some(solution), difficulty };
        }
        match find_wallet(&self.submissions, &wallet) {
            Some(k) => {
                self.submissions.set(k, entry);
                proof {
                    let s = old(self).submissions@;
                    assert forall|j: int| 0 <= j < s.len() && j != k implies s[j].wallet@
                        != wallet@ by {
                        assert(s[j].wallet@ != s[k as int].wallet@);
                    }
                }
            },
            None => {
                self.submissions.push(entry);
            },
        }
    }

    /// The entry of `wallet`, if it has one.
    pub fn entry_for(&self, wallet: &WalletKey) -> (r: Option<Contribution>)
        ensures
            r matches Some(c) ==> c.wallet@ == wallet@ && exists|j: int|
                0 <= j < self.submissions@.len() && self.submissions@[j] == c,
            r is None <==> !has_wallet(self.submissions@, wallet@),
    {
        match find_wallet(&self.submissions, wallet) {
            Some(k) => Some(self.submissions[k]),
            None => None,
        }
    }

    /// A copy of the entries, as they stand now.
    pub fn snapshot(&self) -> (r: Vec<Contribution>)
        ensures
            r@ == self.submissions@,
    {
        let mut out: Vec<Contribution> = Vec::new();
        let mut i: usize = 0;
        while i < self.submissions.len()
            invariant
                i <= self.submissions@.len(),
                out@ == self.submissions@.take(i as int),
            decreases self.submissions@.len() - i,
        {
            out.push(self.submissions[i]);
            i = i + 1;
            assert(out@ =~= self.submissions@.take(i as int));
        }
        assert(self.submissions@.take(i as int) =~= self.submissions@);
        out
    }
}

/// Every recorded entry is at least `MIN_DIFF` and carries at most
/// `MAX_HASHPOWER`.
pub proof fn lemma_recorded_entries_bounded(e: &EpochHashes)
    requires
        e.wf(),
    ensures
        forall|i: int|
            0 <= i < e.submissions@.len() ==> (#[trigger] e.submissions@[i]).difficulty >= MIN_DIFF
                && e.submissions@[i].hashpower <= MAX_HASHPOWER,
{
}

} // verus!
