//! Text decoding and signature checks on behalf of the wallet keys.
use vstd::prelude::*;
use std::str::FromStr;

verus! {

/// The characters that `bytes` encode as UTF-8, if they are valid UTF-8.
pub uninterp spec fn utf8_text_of(bytes: Seq<u8>) -> Option<Seq<char>>;

/// The 64 signature bytes that `text` encodes in base58, if it is such an
/// encoding.
pub uninterp spec fn signature_of_text(text: Seq<char>) -> Option<Seq<u8>>;

/// The 32 key bytes that `text` encodes in base58, if it is such an encoding.
pub uninterp spec fn pubkey_of_text(text: Seq<char>) -> Option<Seq<u8>>;

/// Whether `sig` is a valid ed25519 signature of `msg` under the public key
/// `pubkey`.
pub uninterp spec fn ed25519_verifies(sig: Seq<u8>, pubkey: Seq<u8>, msg: Seq<u8>) -> bool;

/// Relies on std's `String::from_utf8`: the text when the bytes are valid
/// UTF-8, which depends on the bytes alone.
#[verifier::external_body]
pub(crate) fn utf8_text(bytes: Vec<u8>) -> (r: Option<String>)
    ensures
        r matches Some(t) ==> utf8_text_of(bytes@) == Some(t@),
        r is None ==> utf8_text_of(bytes@) is None,
{
    String::from_utf8(bytes).ok()
}

/// Relies on `solana_sdk::signature::Signature::from_str`: base58 text of at
/// most 88 characters that decodes to exactly 64 bytes.
#[verifier::external_body]
pub(crate) fn signature_from_text(text: &str) -> (r: Option<[u8; 64]>)
    ensures
        r matches Some(b) ==> signature_of_text(text@) == Some(b@),
        r is None ==> signature_of_text(text@) is None,
{
    solana_sdk::signature::Signature::from_str(text).ok().map(|s| <[u8; 64]>::from(s))
}

/// Relies on `solana_sdk::pubkey::Pubkey::from_str`: base58 text that
/// decodes to exactly 32 bytes.
#[verifier::external_body]
pub(crate) fn pubkey_from_text(text: &str) -> (r: Option<[u8; 32]>)
    ensures
        r matches Some(b) ==> pubkey_of_text(text@) == Some(b@),
        r is None ==> pubkey_of_text(text@) is None,
{
    solana_sdk::pubkey::Pubkey::from_str(text).ok().map(|p| p.to_bytes())
}

/// Relies on `solana_sdk::signature::Signature::verify`: a strict ed25519
/// check of the signature over the message under the key bytes.
#[verifier::external_body]
pub(crate) fn signature_verifies(sig: &[u8; 64], pubkey: &[u8; 32], msg: &[u8]) -> (r: bool)
    ensures
        r == ed25519_verifies(sig@, pubkey@, msg@),
{
    solana_sdk::signature::Signature::from(*sig).verify(pubkey, msg)
}

} // verus!
