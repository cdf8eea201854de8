//! Identities: a wallet's public key and a client's network address.
use vstd::prelude::*;

verus! {

/// The 32-byte public key of a miner's wallet.
#[derive(Clone, Copy, Debug)]
pub struct WalletKey {
    pub bytes: [u8; 32],
}

impl View for WalletKey {
    type V = Seq<u8>;

    open spec fn view(&self) -> Seq<u8> {
        self.bytes@
    }
}

impl WalletKey {
    /// The key with the given bytes.
    pub fn new(bytes: [u8; 32]) -> (r: Self)
        ensures
            r@ == bytes@,
    {
        WalletKey { bytes }
    }
}

impl PartialEq for WalletKey {
    fn eq(&self, o: &WalletKey) -> (r: bool) {
        let mut i: usize = 0;
        while i < 32
            invariant
                i <= 32,
                self.bytes@.len() == 32,
                o.bytes@.len() == 32,
                forall|j: int| 0 <= j < i ==> self.bytes@[j] == o.bytes@[j],
            decreases 32 - i,
        {
            if self.bytes[i] != o.bytes[i] {
                return false;
            }
            i = i + 1;
        }
        assert(self.bytes@ =~= o.bytes@);
        true
    }
}

impl vstd::std_specs::cmp::PartialEqSpecImpl for WalletKey {
    open spec fn obeys_eq_spec() -> bool {
        true
    }

    open spec fn eq_spec(&self, o: &WalletKey) -> bool {
        self.bytes@ == o.bytes@
    }
}

/// The network address a client session is connected from: an IPv6 address
/// (IPv4 addresses are stored in their mapped form) and a port.
#[derive(Clone, Copy, Debug, PartialEq, Eq, Structural)]
pub struct PeerAddr {
    pub ip: u128,
    pub port: u16,
}

} // verus!
