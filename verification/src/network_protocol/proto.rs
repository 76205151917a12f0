//! The wire messages, as the decoder hands them over: every field that
//! the wire format allows to be absent is an `Option`, and nothing about
//! the bytes inside has been checked.

use vstd::prelude::*;

verus! {

/// A public key in its Borsh encoding.
#[derive(Debug)]
pub struct PublicKey {
    pub borsh: Vec<u8>,
}

/// A signature in its Borsh encoding.
#[derive(Debug)]
pub struct Signature {
    pub borsh: Vec<u8>,
}

#[derive(Debug)]
pub struct CryptoHash {
    pub hash: Vec<u8>,
}

/// Seconds and nanoseconds since the Unix epoch.
#[derive(Clone, Copy, Debug, PartialEq, Eq, Structural)]
pub struct Timestamp {
    pub seconds: i64,
    pub nanos: i32,
}

#[derive(Debug)]
pub struct SocketAddr {
    /// 4 bytes for IPv4, 16 for IPv6.
    pub ip: Vec<u8>,
    pub port: u32,
}

#[derive(Debug)]
pub struct PeerAddr {
    pub addr: Option<SocketAddr>,
    pub peer_id: Option<PublicKey>,
}

#[derive(Debug)]
pub struct AccountData {
    pub peer_id: Option<PublicKey>,
    pub account_id: String,
    pub proxies: Vec<PeerAddr>,
    pub epoch_id: Option<CryptoHash>,
    pub timestamp: Option<Timestamp>,
}

#[derive(Debug)]
pub struct OwnedAccount {
    pub account_key: Option<PublicKey>,
    pub peer_id: Option<PublicKey>,
    pub timestamp: Option<Timestamp>,
}

/// The alternatives of a payload.
#[derive(Debug)]
pub enum PayloadType {
    AccountData(AccountData),
    OwnedAccount(OwnedAccount),
}

/// A payload that can be signed with an account key.
#[derive(Debug)]
pub struct AccountKeyPayload {
    pub payload_type: Option<PayloadType>,
}

/// An encoded `AccountKeyPayload` with the signature over its bytes.
#[derive(Debug)]
pub struct AccountKeySignedPayload {
    pub payload: Vec<u8>,
    pub signature: Option<Signature>,
}

} // verus!
