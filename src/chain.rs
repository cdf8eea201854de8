//! What the pool reads from chain data: its proof account, and the reward
//! that a confirmed mine transaction reports.
use vstd::prelude::*;
use base64::Engine;
use coal_api::event::MineEvent;
use coal_api::state::Proof;
use crate::bytes::le_value;

verus! {

/// Size of the proof record that follows the 8-byte account header.
pub const PROOF_LEN: usize = 168;

/// Size of the event a mine instruction returns.
pub const MINE_EVENT_LEN: usize = 24;

/// The parts of the pool's on-chain proof that drive an epoch.
#[derive(Clone, Copy, Debug)]
pub struct ProofSnapshot {
    /// The 32-byte challenge that identifies the epoch.
    pub challenge: [u8; 32],
    /// The pool's token balance.
    pub balance: u64,
    /// When the last hash was accepted on chain (seconds since the Unix epoch).
    pub last_hash_at: i64,
}

/// The signed reading of an eight-byte little-endian two's-complement field.
pub open spec fn le_i64(s: Seq<u8>) -> int {
    if le_value(s) < 0x8000_0000_0000_0000 {
        le_value(s) as int
    } else {
        le_value(s) - 0x1_0000_0000_0000_0000
    }
}

/// The bytes that base64 text `text` decodes to, if it is valid base64.
pub uninterp spec fn base64_decoded(text: Seq<char>) -> Option<Seq<u8>>;

/// Relies on the discriminator byte of coal_api's proof accounts,
/// `AccountDiscriminator::Proof`, which is 102.
#[verifier::external_body]
fn proof_discriminator() -> (r: u8)
    ensures
        r == 102,
{
    coal_api::state::AccountDiscriminator::Proof.into()
}

/// Relies on `bytemuck::try_pod_read_unaligned::<coal_api::state::Proof>`:
/// it copies out the `#[repr(C)]` record exactly when the slice has its 168
/// bytes, whatever their alignment. On the little-endian targets chain data
/// is laid out for, the balance sits at bytes 32..40, the challenge at 40..72
/// and the last hash time at 104..112.
#[verifier::external_body]
fn cast_proof(body: &[u8]) -> (r: Option<ProofSnapshot>)
    ensures
        r is Some <==> body@.len() == PROOF_LEN,
        r matches Some(p) ==> {
            &&& p.balance == le_value(body@.subrange(32, 40))
            &&& p.challenge@ == body@.subrange(40, 72)
            &&& p.last_hash_at == le_i64(body@.subrange(104, 112))
        },
{
    bytemuck::try_pod_read_unaligned::<Proof>(body).ok().map(
        |p| ProofSnapshot { challenge: p.challenge, balance: p.balance, last_hash_at: p.last_hash_at },
    )
}

/// Relies on `bytemuck::try_pod_read_unaligned::<coal_api::event::MineEvent>`:
/// it copies out the 24-byte `#[repr(C)]` event exactly when the slice has
/// that size, whatever its alignment; on little-endian targets the reward
/// sits at bytes 8..16.
#[verifier::external_body]
fn cast_mine_event(bytes: &[u8]) -> (r: Option<u64>)
    ensures
        r is Some <==> bytes@.len() == MINE_EVENT_LEN,
        r matches Some(v) ==> v == le_value(bytes@.subrange(8, 16)),
{
    bytemuck::try_pod_read_unaligned::<MineEvent>(bytes).ok().map(|e| e.reward)
}

/// Relies on `base64::prelude::BASE64_STANDARD.decode`: the bytes that the
/// padded standard-alphabet text encodes, which depend on the text alone.
#[verifier::external_body]
fn decode_base64(text: &str) -> (r: Option<Vec<u8>>)
    ensures
        r matches Some(b) ==> base64_decoded(text@) == Some(b@),
        r is None ==> base64_decoded(text@) is None,
{
    base64::prelude::BASE64_STANDARD.decode(text).ok()
}

/// Reads the pool's proof account data: an 8-byte header whose first byte
/// is the proof discriminator, then the 168-byte proof record. Anything else
/// gives `None`.
pub fn decode_proof_account(data: &[u8]) -> (r: Option<ProofSnapshot>)
    ensures
        r is Some <==> data@.len() == 8 + PROOF_LEN && data@[0] == 102,
        r matches Some(p) ==> {
            &&& p.balance == le_value(data@.subrange(40, 48))
            &&& p.challenge@ == data@.subrange(48, 80)
            &&& p.last_hash_at == le_i64(data@.subrange(112, 120))
        },
{
    if data.len() < 8 {
        return None;
    }
    if data[0] != proof_discriminator() {
        return None;
    }
    let body = vstd::slice::slice_subrange(data, 8, data.len());
    let r = cast_proof(body);
    proof {
        if data@.len() == 8 + PROOF_LEN {
            let b = data@.subrange(8, data@.len() as int);
            assert(b.subrange(32, 40) =~= data@.subrange(40, 48));
            assert(b.subrange(40, 72) =~= data@.subrange(48, 80));
            assert(b.subrange(104, 112) =~= data@.subrange(112, 120));
        }
    }
    r
}

/// The reward reported by a mine transaction's return data, given as base64
/// text: `None` if the text is not base64 or does not hold a mine event.
pub fn reward_from_return_data(text: &str) -> (r: Option<u64>)
    ensures
        r is Some <==> (base64_decoded(text@) matches Some(b) && b.len() == MINE_EVENT_LEN),
        r matches Some(v) ==> base64_decoded(text@) matches Some(b) && v == le_value(
            b.subrange(8, 16),
        ),
{
    match decode_base64(text) {
        Some(bytes) => cast_mine_event(bytes.as_slice()),
        None => None,
    }
}

} // verus!
