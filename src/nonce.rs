//! Disjoint nonce windows handed out in order within an epoch.
use vstd::prelude::*;

verus! {

/// Width of one window: the most hashes one client is expected to compute
/// in about a minute.
pub const NONCE_WINDOW: u64 = 4_000_000;

/// The half-open nonce range `[start, end)`.
#[derive(Clone, Copy, Debug, PartialEq, Eq, Structural)]
pub struct NonceRange {
    pub start: u64,
    pub end: u64,
}

impl NonceRange {
    /// Whether `n` lies in the range.
    pub fn contains(&self, n: u64) -> (r: bool)
        ensures
            r == (self.start <= n < self.end),
    {
        self.start <= n && n < self.end
    }
}

/// Start of the `i`-th window of an epoch.
pub open spec fn window_start(i: nat) -> nat {
    (i * NONCE_WINDOW) as nat
}

/// End (exclusive) of the `i`-th window of an epoch.
pub open spec fn window_end(i: nat) -> nat {
    ((i + 1) * NONCE_WINDOW) as nat
}

/// The cursor of the next window to hand out.
pub struct NonceAllocator {
    pub cursor: u64,
}

impl NonceAllocator {
    /// The cursor always stands at a window boundary.
    pub open spec fn wf(&self) -> bool {
        self.cursor % NONCE_WINDOW == 0
    }

    /// How many windows have been handed out since the last reset.
    pub open spec fn issued(&self) -> nat {
        (self.cursor / NONCE_WINDOW) as nat
    }

    /// An allocator at the start of an epoch.
    pub fn new() -> (r: Self)
        ensures
            r.wf(),
            r.cursor == 0,
    {
        NonceAllocator { cursor: 0 }
    }

    /// Hands out the next window `[cursor, cursor + NONCE_WINDOW)` and moves
    /// the cursor past it; `None`, with nothing changed, once the nonce space
    /// is used up.
    pub fn allocate(&mut self) -> (r: Option<NonceRange>)
        requires
            old(self).wf(),
        ensures
            final(self).wf(),
            old(self).cursor + NONCE_WINDOW <= u64::MAX ==> {
                &&& r == Some(NonceRange { start: old(self).cursor, end: (old(self).cursor + NONCE_WINDOW) as u64 })
                &&& final(self).cursor == old(self).cursor + NONCE_WINDOW
            },
            old(self).cursor + NONCE_WINDOW > u64::MAX ==> r is None && final(self).cursor
                == old(self).cursor,
            r matches Some(w) ==> w.start == window_start(old(self).issued()) && w.end
                == window_end(old(self).issued()) && final(self).issued() == old(self).issued() + 1,
    {
        if self.cursor > u64::MAX - NONCE_WINDOW {
            return None;
        }
        let start = self.cursor;
        self.cursor = start + NONCE_WINDOW;
        Some(NonceRange { start, end: self.cursor })
    }

    /// Returns the cursor to zero for a new epoch.
    pub fn reset(&mut self)
        ensures
            final(self).wf(),
            final(self).cursor == 0,
            final(self).issued() == 0,
    {
        self.cursor = 0;
    }

    /// The current cursor.
    pub fn cursor(&self) -> (r: u64)
        ensures
            r == self.cursor,
    {
        self.cursor
    }
}

/// Windows of one epoch tile the nonce space from zero: the first starts at
/// 0, each ends where the next starts, and two distinct windows never
/// overlap.
pub proof fn lemma_windows_disjoint(i: nat, j: nat)
    ensures
        window_start(0) == 0,
        window_end(i) == window_start(i + 1),
        window_start(i) < window_end(i),
        i != j ==> window_end(i) <= window_start(j) || window_end(j) <= window_start(i),
{
    if i < j {
        assert((i + 1) * NONCE_WINDOW <= j * NONCE_WINDOW) by (nonlinear_arith)
            requires
                i + 1 <= j,
        ;
    } else if j < i {
        assert((j + 1) * NONCE_WINDOW <= i * NONCE_WINDOW) by (nonlinear_arith)
            requires
                j + 1 <= i,
        ;
    }
}

} // verus!
