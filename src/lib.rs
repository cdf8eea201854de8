//! Epoch coordination engine of a proof-of-work mining pool: nonce-window
//! allocation, submission aggregation, hashpower weighting, pro-rata reward
//! distribution, priority-fee control and the client wire protocol.
use vstd::prelude::*;

pub mod accounts;
pub mod auth;
pub mod broadcast;
pub mod bytes;
pub mod chain;
pub mod engine;
pub mod epoch;
pub mod fee;
pub mod hashpower;
pub mod keys;
pub mod nonce;
pub mod pow;
pub mod registry;
pub mod reward;
pub mod sig;
pub mod submit;
pub mod wire;

verus! {

} // verus!
