//! The adaptive priority fee paid for mine transactions.
use vstd::prelude::*;

verus! {

/// Highest priority fee the pool will pay.
pub const MAX_PRIORITY_FEE: u64 = 1_000_000;

/// Added to the fee after each failed send.
pub const FEE_STEP_UP: u64 = 15_000;

/// How much the fee drops after a confirmed mine, by tier.
pub open spec fn relax_step(fee: u64) -> u64 {
    if fee >= 100_000 {
        10_000
    } else if fee >= 50_000 {
        5_000
    } else if fee > 20_000 {
        1_000
    } else {
        0
    }
}

/// The shared priority fee, in micro-units per compute unit.
pub struct PriorityFee {
    pub fee: u64,
}

impl PriorityFee {
    /// The fee never leaves `[0, MAX_PRIORITY_FEE]`.
    pub open spec fn wf(&self) -> bool {
        self.fee <= MAX_PRIORITY_FEE
    }

    /// A fee starting at `initial`, held to `MAX_PRIORITY_FEE`.
    pub fn new(initial: u64) -> (r: Self)
        ensures
            r.wf(),
            r.fee == if initial <= MAX_PRIORITY_FEE {
                initial
            } else {
                MAX_PRIORITY_FEE
            },
    {
        if initial <= MAX_PRIORITY_FEE {
            PriorityFee { fee: initial }
        } else {
            PriorityFee { fee: MAX_PRIORITY_FEE }
        }
    }

    /// The fee to pay now.
    pub fn current(&self) -> (r: u64)
        ensures
            r == self.fee,
    {
        self.fee
    }

    /// Raises the fee by `FEE_STEP_UP` after a failed send, up to the cap.
    pub fn escalate(&mut self)
        requires
            old(self).wf(),
        ensures
            final(self).wf(),
            final(self).fee == if old(self).fee + FEE_STEP_UP <= MAX_PRIORITY_FEE {
                (old(self).fee + FEE_STEP_UP) as u64
            } else {
                MAX_PRIORITY_FEE
            },
    {
        if self.fee + FEE_STEP_UP <= MAX_PRIORITY_FEE {
            self.fee = self.fee + FEE_STEP_UP;
        } else {
            self.fee = MAX_PRIORITY_FEE;
        }
    }

    /// Lowers the fee by its tier's step after a confirmed mine: 10 000 from
    /// 100 000 up, 5 000 from 50 000 up, 1 000 above 20 000, else nothing.
    pub fn relax(&mut self)
        requires
            old(self).wf(),
        ensures
            final(self).wf(),
            final(self).fee == old(self).fee - relax_step(old(self).fee),
            final(self).fee <= old(self).fee,
    {
        let step: u64 = if self.fee >= 100_000 {
            10_000
        } else if self.fee >= 50_000 {
            5_000
        } else if self.fee > 20_000 {
            1_000
        } else {
            0
        };
        self.fee = self.fee.saturating_sub(step);
    }
}

} // verus!
