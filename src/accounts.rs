//! Checks made on a miner's sign-up transfer and reward claims.
use vstd::prelude::*;
use crate::keys::WalletKey;

verus! {

/// Seconds a miner must wait after a claim before claiming again.
pub const CLAIM_INTERVAL_SECS: i64 = 1800;

/// Base units a sign-up transfer must move to the pool authority.
pub const SIGNUP_TRANSFER: u64 = 1_000_000;

/// Why a claim was refused.
#[derive(Clone, Copy, Debug, PartialEq, Eq, Structural)]
pub enum ClaimRejection {
    /// The amount exceeds the miner's unclaimed balance.
    ExceedsBalance,
    /// The last claim was only `elapsed` seconds ago.
    TooSoon { elapsed: i128 },
}

impl ClaimRejection {
    /// The HTTP status of the refusal: 400, or 429 when too soon.
    pub fn status(&self) -> (r: u16)
        ensures
            r == match self {
                ClaimRejection::ExceedsBalance => 400u16,
                ClaimRejection::TooSoon { .. } => 429u16,
            },
    {
        match self {
            ClaimRejection::ExceedsBalance => 400,
            ClaimRejection::TooSoon { .. } => 429,
        }
    }
}

/// Whether a claim of `amount` against `balance` may go ahead at `now`,
/// given when the miner last claimed: never more than the balance, and only
/// once at least `CLAIM_INTERVAL_SECS` have passed since the last claim.
pub fn check_claim(amount: u64, balance: u64, last_claim_at: Option<i64>, now: i64) -> (r: Result<
    (),
    ClaimRejection,
>)
    ensures
        amount > balance ==> r == Err::<(), ClaimRejection>(ClaimRejection::ExceedsBalance),
        amount <= balance ==> match last_claim_at {
            Some(t) => if now - t < CLAIM_INTERVAL_SECS {
                r == Err::<(), ClaimRejection>(
                    ClaimRejection::TooSoon { elapsed: (now - t) as i128 },
                )
            } else {
                r is Ok
            },
            None => r is Ok,
        },
{
    if amount > balance {
        return Err(ClaimRejection::ExceedsBalance);
    }
    match last_claim_at {
        Some(t) => {
            let elapsed: i128 = (now as i128) - (t as i128);
            if elapsed < CLAIM_INTERVAL_SECS as i128 {
                Err(ClaimRejection::TooSoon { elapsed })
            } else {
                Ok(())
            }
        },
        None => Ok(()),
    }
}

/// Why a sign-up transaction was refused.
#[derive(Clone, Copy, Debug, PartialEq, Eq, Structural)]
pub enum SignupRejection {
    Unsigned,
    NotOneInstruction,
    /// The instruction does not name exactly the user, then the authority.
    WrongAccounts,
    WrongTransfer,
}

/// Whether the accounts are exactly `user` then `authority`.
pub open spec fn from_user_to_authority(accounts: Seq<WalletKey>, user: Seq<u8>, authority: Seq<u8>) -> bool {
    &&& accounts.len() == 2
    &&& accounts[0]@ == user
    &&& accounts[1]@ == authority
}

/// Whether a sign-up transaction has the expected shape: signed, exactly
/// one instruction, whose accounts are the user (paying) and the pool
/// authority (receiving), in that order, and whose data is that of a system
/// transfer of `SIGNUP_TRANSFER`.
pub fn check_signup_transfer(
    signed: bool,
    instruction_count: usize,
    accounts: &Vec<WalletKey>,
    user: &WalletKey,
    authority: &WalletKey,
    data_matches: bool,
) -> (r: Result<(), SignupRejection>)
    ensures
        r == if !signed {
            Err::<(), SignupRejection>(SignupRejection::Unsigned)
        } else if instruction_count != 1 {
            Err(SignupRejection::NotOneInstruction)
        } else if !from_user_to_authority(accounts@, user@, authority@) {
            Err(SignupRejection::WrongAccounts)
        } else if !data_matches {
            Err(SignupRejection::WrongTransfer)
        } else {
            Ok(())
        },
{
    if !signed {
        Err(SignupRejection::Unsigned)
    } else if instruction_count != 1 {
        Err(SignupRejection::NotOneInstruction)
    } else if accounts.len() != 2 || accounts[0] != *user || accounts[1] != *authority {
        Err(SignupRejection::WrongAccounts)
    } else if !data_matches {
        Err(SignupRejection::WrongTransfer)
    } else {
        Ok(())
    }
}

} // verus!
