//! The binary WebSocket protocol between the pool and its clients.
use vstd::prelude::*;
use crate::bytes::{le_bytes, lemma_le_bytes_len, push_u64_le};
use crate::keys::{PeerAddr, WalletKey};
use crate::nonce::NonceRange;
use crate::pow::Solution;
use crate::sig::{
    ed25519_verifies, signature_from_text, signature_of_text, signature_verifies, utf8_text,
    utf8_text_of,
};

verus! {

/// Length of a work packet: type byte, challenge, cutoff, window start and end.
pub const WORK_PACKET_LEN: usize = 57;

/// Length of a solution frame before its signature text: type byte, digest,
/// nonce and wallet key.
pub const SOLUTION_HEADER_LEN: usize = 57;

/// Type byte of a work packet (server to client).
pub const WORK_PACKET_TYPE: u8 = 0;

/// Type bytes of client frames.
pub const READY_TYPE: u8 = 0;

pub const MINING_TYPE: u8 = 1;

pub const BEST_SOLUTION_TYPE: u8 = 2;

/// A work packet: `0 ‖ challenge[32] ‖ cutoff_le[8] ‖ start_le[8] ‖ end_le[8]`.
pub open spec fn work_packet_of(challenge: Seq<u8>, cutoff: u64, range: NonceRange) -> Seq<u8> {
    seq![WORK_PACKET_TYPE] + challenge + le_bytes(cutoff as nat, 8) + le_bytes(range.start as nat, 8)
        + le_bytes(range.end as nat, 8)
}

/// Encodes the work packet that hands `range` of `challenge` to a client,
/// with `cutoff` seconds left to mine.
pub fn encode_work_packet(challenge: &[u8; 32], cutoff: u64, range: NonceRange) -> (r: Vec<u8>)
    ensures
        r@ == work_packet_of(challenge@, cutoff, range),
        r@.len() == WORK_PACKET_LEN,
{
    let mut out: Vec<u8> = Vec::new();
    out.push(WORK_PACKET_TYPE);
    let mut i: usize = 0;
    while i < 32
        invariant
            i <= 32,
            challenge@.len() == 32,
            out@ == seq![WORK_PACKET_TYPE] + challenge@.take(i as int),
        decreases 32 - i,
    {
        out.push(challenge[i]);
        i = i + 1;
        assert(out@ =~= seq![WORK_PACKET_TYPE] + challenge@.take(i as int));
    }
    assert(challenge@.take(32) =~= challenge@);
    push_u64_le(&mut out, cutoff);
    push_u64_le(&mut out, range.start);
    push_u64_le(&mut out, range.end);
    proof {
        lemma_le_bytes_len(cutoff as nat, 8);
        lemma_le_bytes_len(range.start as nat, 8);
        lemma_le_bytes_len(range.end as nat, 8);
    }
    out
}

/// What a client's frame asks of the pool.
#[derive(Clone, Copy, Debug)]
pub enum ClientMessage {
    /// The client is ready for a nonce window.
    Ready(PeerAddr),
    /// The client has started mining its window.
    Mining(PeerAddr),
    /// The client answered a liveness probe.
    Pong(PeerAddr),
    /// The client's best solution, signed by the wallet it names.
    BestSolution(PeerAddr, Solution, WalletKey),
}

/// Whether `sig_text` is the UTF-8 base58 text of an ed25519 signature of
/// `msg` under `pubkey`.
pub open spec fn signed_by(sig_text: Seq<u8>, pubkey: Seq<u8>, msg: Seq<u8>) -> bool {
    match utf8_text_of(sig_text) {
        Some(t) => match signature_of_text(t) {
            Some(s) => ed25519_verifies(s, pubkey, msg),
            None => false,
        },
        None => false,
    }
}

/// Whether the solution frame `d` carries a signature of its digest and
/// nonce by the wallet key it names.
pub open spec fn solution_frame_signed(d: Seq<u8>) -> bool {
    &&& d.len() >= SOLUTION_HEADER_LEN
    &&& signed_by(d.subrange(57, d.len() as int), d.subrange(25, 57), d.subrange(1, 25))
}

/// Copies `d[from..to]`.
fn copy_range(d: &[u8], from: usize, to: usize) -> (r: Vec<u8>)
    requires
        from <= to <= d@.len(),
    ensures
        r@ == d@.subrange(from as int, to as int),
{
    let mut out: Vec<u8> = Vec::new();
    let mut i: usize = from;
    while i < to
        invariant
            from <= i <= to <= d@.len(),
            out@ == d@.subrange(from as int, i as int),
        decreases to - i,
    {
        out.push(d[i]);
        i = i + 1;
        assert(out@ =~= d@.subrange(from as int, i as int));
    }
    out
}

/// Reads the `N` bytes of `d` from `at`.
fn read_array<const N: usize>(d: &[u8], at: usize) -> (r: [u8; N])
    requires
        at + N <= d@.len(),
    ensures
        r@ == d@.subrange(at as int, at + N),
{
    let mut a: [u8; N] = [0u8; N];
    let len = d.len();
    let mut i: usize = 0;
    while i < N
        invariant
            i <= N,
            len == d@.len(),
            at + N <= len,
            a@.len() == N,
            forall|j: int| 0 <= j < i ==> a@[j] == d@[at + j],
        decreases N - i,
    {
        a[i] = d[at + i];
        i = i + 1;
    }
    assert(a@ =~= d@.subrange(at as int, at + N));
    a
}

/// Reads a binary frame that client `who` sent: `0` is Ready, `1` is
/// Mining, and `2` is a best solution `digest[16] ‖ nonce[8] ‖ wallet[32] ‖
/// signature text`, taken only when the signature over `digest ‖ nonce`
/// verifies under that wallet. Empty, short, unsigned and unknown frames
/// give `None`.
pub fn parse_client_frame(who: PeerAddr, d: &[u8]) -> (r: Option<ClientMessage>)
    ensures
        d@.len() == 0 ==> r is None,
        d@.len() > 0 && d@[0] == READY_TYPE ==> r == Some(ClientMessage::Ready(who)),
        d@.len() > 0 && d@[0] == MINING_TYPE ==> r == Some(ClientMessage::Mining(who)),
        d@.len() > 0 && d@[0] > BEST_SOLUTION_TYPE ==> r is None,
        d@.len() > 0 && d@[0] == BEST_SOLUTION_TYPE ==> (r is Some <==> solution_frame_signed(
            d@,
        )),
        d@.len() > 0 && d@[0] == BEST_SOLUTION_TYPE && solution_frame_signed(d@) ==> r matches Some(
            ClientMessage::BestSolution(_, _, _),
        ),
        r matches Some(ClientMessage::BestSolution(a, s, k)) ==> {
            &&& a == who
            &&& s.digest@ == d@.subrange(1, 17)
            &&& s.nonce@ == d@.subrange(17, 25)
            &&& k@ == d@.subrange(25, 57)
        },
        !(r matches Some(ClientMessage::Pong(_))),
{
    if d.len() == 0 {
        return None;
    }
    let kind = d[0];
    if kind == READY_TYPE {
        Some(ClientMessage::Ready(who))
    } else if kind == MINING_TYPE {
        Some(ClientMessage::Mining(who))
    } else if kind == BEST_SOLUTION_TYPE {
        if d.len() < SOLUTION_HEADER_LEN {
            return None;
        }
        let digest: [u8; 16] = read_array(d, 1);
        let nonce: [u8; 8] = read_array(d, 17);
        let wallet: [u8; 32] = read_array(d, 25);
        let text_bytes = copy_range(d, SOLUTION_HEADER_LEN, d.len());
        let text = match utf8_text(text_bytes) {
            Some(t) => t,
            None => return None,
        };
        let sig = match signature_from_text(text.as_str()) {
            Some(s) => s,
            None => return None,
        };
        let msg = copy_range(d, 1, 25);
        if signature_verifies(&sig, &wallet, msg.as_slice()) {
            Some(ClientMessage::BestSolution(who, Solution { digest, nonce }, WalletKey { bytes: wallet }))
        } else {
            None
        }
    } else {
        None
    }
}

} // verus!
