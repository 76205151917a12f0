//! The values that the rest of the node works with. Each holds, as plain
//! data, a form that was checked when the value was read.

use crate::network_protocol::proto_conv::crypto::{public_key_encoding, signature_encoding};
use crate::network_protocol::proto_conv::time::in_range;
use vstd::prelude::*;

verus! {

/// The identity of a peer: its public key, in the Borsh encoding.
#[derive(Debug)]
pub struct PeerId {
    pub borsh: Vec<u8>,
}

impl PeerId {
    pub open spec fn wf(&self) -> bool {
        public_key_encoding(self.borsh@)
    }
}

/// A public key, in the Borsh encoding.
#[derive(Debug)]
pub struct PublicKey {
    pub borsh: Vec<u8>,
}

impl PublicKey {
    pub open spec fn wf(&self) -> bool {
        public_key_encoding(self.borsh@)
    }
}

/// A signature, in the Borsh encoding.
#[derive(Debug)]
pub struct Signature {
    pub borsh: Vec<u8>,
}

impl Signature {
    pub open spec fn wf(&self) -> bool {
        signature_encoding(self.borsh@)
    }
}

/// A hash of 32 bytes.
#[derive(Debug)]
pub struct CryptoHash {
    pub bytes: Vec<u8>,
}

impl CryptoHash {
    pub open spec fn wf(&self) -> bool {
        self.bytes@.len() == 32
    }
}

/// The epoch that a message is about, named by a hash.
#[derive(Debug)]
pub struct EpochId(pub CryptoHash);

/// A point in time: whole seconds since the Unix epoch and the
/// nanoseconds past them.
#[derive(Clone, Copy, Debug, PartialEq, Eq, Structural)]
pub struct Utc {
    pub seconds: i64,
    pub nanos: u32,
}

impl Utc {
    pub open spec fn wf(&self) -> bool {
        in_range(self.seconds as int) && self.nanos < 1_000_000_000
    }
}

/// The name of an account.
#[derive(Debug)]
pub struct AccountId {
    pub name: String,
}

/// An IP address with a port.
#[derive(Debug)]
pub struct SocketAddr {
    /// 4 bytes for IPv4, 16 for IPv6.
    pub ip: Vec<u8>,
    pub port: u16,
}

impl SocketAddr {
    pub open spec fn wf(&self) -> bool {
        self.ip@.len() == 4 || self.ip@.len() == 16
    }
}

/// Where a peer can be reached.
#[derive(Debug)]
pub struct PeerAddr {
    pub addr: SocketAddr,
    pub peer_id: PeerId,
}

impl PeerAddr {
    pub open spec fn wf(&self) -> bool {
        self.addr.wf() && self.peer_id.wf()
    }
}

/// What a validator tells the network about itself.
#[derive(Debug)]
pub struct AccountData {
    pub peer_id: Option<PeerId>,
    pub account_id: AccountId,
    pub proxies: Vec<PeerAddr>,
    pub epoch_id: EpochId,
    pub timestamp: Utc,
}

/// The bytes that were signed, and the signature.
#[derive(Debug)]
pub struct AccountKeySignedPayload {
    pub payload: Vec<u8>,
    pub signature: Signature,
}

#[derive(Debug)]
pub struct SignedAccountData {
    pub account_data: AccountData,
    pub payload: AccountKeySignedPayload,
}

/// The claim of an account key to a peer.
#[derive(Debug)]
pub struct OwnedAccount {
    pub account_key: PublicKey,
    pub peer_id: PeerId,
    pub timestamp: Utc,
}

#[derive(Debug)]
pub struct SignedOwnedAccount {
    pub owned_account: OwnedAccount,
    pub payload: AccountKeySignedPayload,
}

} // verus!
