//! The handshake that admits a client's WebSocket session.
use vstd::prelude::*;
use crate::bytes::{le_bytes, push_u64_le};
use crate::keys::WalletKey;
use crate::registry::{has_session_wallet, ClientRegistry};
use crate::sig::{
    ed25519_verifies, pubkey_from_text, pubkey_of_text, signature_from_text, signature_of_text,
    signature_verifies,
};

verus! {

/// A signed handshake timestamp is honoured for this many seconds.
pub const AUTH_MAX_AGE_SECS: u64 = 30;

/// What the miner journal holds for the wallet that connects.
#[derive(Clone, Copy, Debug, PartialEq, Eq, Structural)]
pub enum MinerLookup {
    /// A registered miner, enabled or not.
    Found { id: i32, enabled: bool },
    /// No miner is registered under this wallet.
    NotFound,
    /// The journal could not be reached.
    Unavailable,
}

/// Why a handshake was refused.
#[derive(Clone, Copy, Debug, PartialEq, Eq, Structural)]
pub enum AuthRejection {
    TimestampTooOld,
    InvalidPubkey,
    AlreadyConnected,
    NotRegistered,
    Disabled,
    StoreUnavailable,
    InvalidSignature,
    SignatureMismatch,
}

impl AuthRejection {
    /// The HTTP status the upgrade is refused with.
    pub open spec fn status_spec(&self) -> u16 {
        match self {
            AuthRejection::AlreadyConnected => 429,
            AuthRejection::StoreUnavailable => 500,
            _ => 401,
        }
    }

    /// The HTTP status the upgrade is refused with: 429 for a wallet that is
    /// already connected, 500 when the journal is unreachable, 401 otherwise.
    pub fn status(&self) -> (r: u16)
        ensures
            r == self.status_spec(),
    {
        match self {
            AuthRejection::AlreadyConnected => 429,
            AuthRejection::StoreUnavailable => 500,
            _ => 401,
        }
    }
}

/// Whether a timestamp signed at `timestamp` is too old at `now`.
pub open spec fn too_old(now: u64, timestamp: u64) -> bool {
    now > timestamp + AUTH_MAX_AGE_SECS
}

/// The handshake decision, in the order the checks are made: age of the
/// timestamp, the key, a session already open for the wallet, the journal's
/// record of the miner, and the signature over the timestamp.
pub open spec fn handshake_decision(
    now: u64,
    timestamp: u64,
    pubkey: Option<Seq<u8>>,
    already_connected: bool,
    miner: MinerLookup,
    signature: Option<Seq<u8>>,
    signature_ok: bool,
) -> Result<(Seq<u8>, i32), AuthRejection> {
    if too_old(now, timestamp) {
        Err(AuthRejection::TimestampTooOld)
    } else if pubkey is None {
        Err(AuthRejection::InvalidPubkey)
    } else if already_connected {
        Err(AuthRejection::AlreadyConnected)
    } else {
        match miner {
            MinerLookup::NotFound => Err(AuthRejection::NotRegistered),
            MinerLookup::Unavailable => Err(AuthRejection::StoreUnavailable),
            MinerLookup::Found { id, enabled } => {
                if !enabled {
                    Err(AuthRejection::Disabled)
                } else if signature is None {
                    Err(AuthRejection::InvalidSignature)
                } else if !signature_ok {
                    Err(AuthRejection::SignatureMismatch)
                } else {
                    Ok((pubkey->0, id))
                }
            },
        }
    }
}

/// The view of a handshake result.
pub open spec fn auth_view(r: Result<(WalletKey, i32), AuthRejection>) -> Result<
    (Seq<u8>, i32),
    AuthRejection,
> {
    match r {
        Ok((w, id)) => Ok((w@, id)),
        Err(e) => Err(e),
    }
}

/// Decides a handshake from what was learnt of its parts: the parsed key,
/// whether the wallet already has a session, the journal's answer, the
/// parsed signature and whether it verifies.
pub fn auth_decision(
    now: u64,
    timestamp: u64,
    pubkey: Option<[u8; 32]>,
    already_connected: bool,
    miner: MinerLookup,
    signature: Option<[u8; 64]>,
    signature_ok: bool,
) -> (r: Result<(WalletKey, i32), AuthRejection>)
    ensures
        auth_view(r) == handshake_decision(
            now,
            timestamp,
            match pubkey {
                Some(k) => Some(k@),
                None => None,
            },
            already_connected,
            miner,
            match signature {
                Some(s) => Some(s@),
                None => None,
            },
            signature_ok,
        ),
{
    if now > timestamp && now - timestamp > AUTH_MAX_AGE_SECS {
        return Err(AuthRejection::TimestampTooOld);
    }
    let key = match pubkey {
        Some(k) => k,
        None => return Err(AuthRejection::InvalidPubkey),
    };
    if already_connected {
        return Err(AuthRejection::AlreadyConnected);
    }
    match miner {
        MinerLookup::NotFound => Err(AuthRejection::NotRegistered),
        MinerLookup::Unavailable => Err(AuthRejection::StoreUnavailable),
        MinerLookup::Found { id, enabled } => {
            if !enabled {
                Err(AuthRejection::Disabled)
            } else if signature.is_none() {
                Err(AuthRejection::InvalidSignature)
            } else if !signature_ok {
                Err(AuthRejection::SignatureMismatch)
            } else {
                Ok((WalletKey { bytes: key }, id))
            }
        },
    }
}

/// The handshake of a client that presents `pubkey_text` and
/// `signature_text` (both base58) for `timestamp`, at `now`, given the
/// journal's answer for that wallet. The signature must cover the eight
/// little-endian bytes of the timestamp.
pub fn authenticate(
    now: u64,
    timestamp: u64,
    pubkey_text: &str,
    signature_text: &str,
    registry: &ClientRegistry,
    miner: MinerLookup,
) -> (r: Result<(WalletKey, i32), AuthRejection>)
    ensures
        auth_view(r) == handshake_decision(
            now,
            timestamp,
            pubkey_of_text(pubkey_text@),
            pubkey_of_text(pubkey_text@) matches Some(k) && has_session_wallet(
                registry.sessions@,
                k,
            ),
            miner,
            signature_of_text(signature_text@),
            pubkey_of_text(pubkey_text@) matches Some(k) && signature_of_text(
                signature_text@,
            ) matches Some(s) && ed25519_verifies(s, k, le_bytes(timestamp as nat, 8)),
        ),
{
    let pubkey = pubkey_from_text(pubkey_text);
    let signature = signature_from_text(signature_text);
    let (connected, sig_ok) = match pubkey {
        Some(k) => {
            let connected = registry.is_wallet_connected(&WalletKey { bytes: k });
            let sig_ok = match signature {
                Some(s) => {
                    let mut msg: Vec<u8> = Vec::new();
                    push_u64_le(&mut msg, timestamp);
                    proof {
                        assert(msg@ =~= le_bytes(timestamp as nat, 8));
                    }
                    signature_verifies(&s, &k, msg.as_slice())
                },
                None => false,
            };
            (connected, sig_ok)
        },
        None => (false, false),
    };
    auth_decision(now, timestamp, pubkey, connected, miner, signature, sig_ok)
}

} // verus!
