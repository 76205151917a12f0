//! Keys, signatures and hashes.

use crate::network_protocol::proto;
use crate::network_protocol::proto_conv::util::copy_bytes;
use crate::network_protocol::types::{CryptoHash, PeerId, PublicKey, Signature};
use near_primitives::borsh::BorshDeserialize;
use vstd::prelude::*;

verus! {

#[verifier::external_type_specification]
#[verifier::external_body]
pub struct ExIoError(std::io::Error);

/// Why the bytes of a public key were rejected.
pub type ParsePublicKeyError = std::io::Error;

/// Why the bytes of a signature were rejected.
pub type ParseSignatureError = std::io::Error;

/// The bytes of a hash are not 32.
#[derive(Clone, Copy, Debug, PartialEq, Eq, Structural)]
pub struct ParseCryptoHashError;

/// The Borsh encoding of a public key: the number of the curve, then the
/// key itself, 32 bytes on the first curve and 64 on the second.
pub open spec fn public_key_encoding(bytes: Seq<u8>) -> bool {
    ||| bytes.len() == 33 && bytes[0] == 0
    ||| bytes.len() == 65 && bytes[0] == 1
}

/// The Borsh encoding of a signature: the number of the curve, then the
/// signature itself. On the first curve it has 64 bytes, of which the last
/// has its three highest bits unset; on the second it has 65 bytes.
pub open spec fn signature_encoding(bytes: Seq<u8>) -> bool {
    ||| bytes.len() == 65 && bytes[0] == 0 && bytes[64] & 0xe0 == 0
    ||| bytes.len() == 66 && bytes[0] == 1
}

/// `near_primitives::network::PeerId::try_from_slice`: decodes the public
/// key of a peer. It accepts exactly the Borsh encodings of a public key,
/// and reads nothing into the key beyond its length and its curve.
#[verifier::external_body]
fn check_peer_id(bytes: &[u8]) -> (res: Result<(), std::io::Error>)
    ensures
        res is Ok == public_key_encoding(bytes@),
{
    match near_primitives::network::PeerId::try_from_slice(bytes) {
        Ok(_) => Ok(()),
        Err(e) => Err(e),
    }
}

/// `near_crypto::PublicKey::try_from_slice`: decodes a public key. It
/// accepts exactly the Borsh encodings of a public key.
#[verifier::external_body]
fn check_public_key(bytes: &[u8]) -> (res: Result<(), std::io::Error>)
    ensures
        res is Ok == public_key_encoding(bytes@),
{
    match near_crypto::PublicKey::try_from_slice(bytes) {
        Ok(_) => Ok(()),
        Err(e) => Err(e),
    }
}

/// `near_crypto::Signature::try_from_slice`: decodes a signature. It
/// accepts exactly the Borsh encodings of a signature.
#[verifier::external_body]
fn check_signature(bytes: &[u8]) -> (res: Result<(), std::io::Error>)
    ensures
        res is Ok == signature_encoding(bytes@),
{
    match near_crypto::Signature::try_from_slice(bytes) {
        Ok(_) => Ok(()),
        Err(e) => Err(e),
    }
}

/// `near_primitives::hash::CryptoHash::try_from`, on a slice of bytes: it
/// succeeds exactly on 32 bytes.
#[verifier::external_body]
fn check_crypto_hash(bytes: &[u8]) -> (ok: bool)
    ensures
        ok == (bytes@.len() == 32),
{
    near_primitives::hash::CryptoHash::try_from(bytes).is_ok()
}

impl PeerId {
    /// Reads the identity of a peer from its wire form.
    pub fn try_from(x: &proto::PublicKey) -> (res: Result<PeerId, ParsePublicKeyError>)
        ensures
            res is Ok == public_key_encoding(x.borsh@),
            res matches Ok(p) ==> p.borsh@ == x.borsh@ && p.wf(),
    {
        match check_peer_id(x.borsh.as_slice()) {
            Ok(_) => Ok(PeerId { borsh: copy_bytes(&x.borsh) }),
            Err(e) => Err(e),
        }
    }

    /// The wire form of the identity of a peer.
    pub fn to_proto(&self) -> (x: proto::PublicKey)
        ensures
            x.borsh@ == self.borsh@,
    {
        proto::PublicKey { borsh: copy_bytes(&self.borsh) }
    }
}

impl PublicKey {
    /// Reads a public key from its wire form.
    pub fn try_from(x: &proto::PublicKey) -> (res: Result<PublicKey, ParsePublicKeyError>)
        ensures
            res is Ok == public_key_encoding(x.borsh@),
            res matches Ok(p) ==> p.borsh@ == x.borsh@ && p.wf(),
    {
        match check_public_key(x.borsh.as_slice()) {
            Ok(_) => Ok(PublicKey { borsh: copy_bytes(&x.borsh) }),
            Err(e) => Err(e),
        }
    }

    /// The wire form of a public key.
    pub fn to_proto(&self) -> (x: proto::PublicKey)
        ensures
            x.borsh@ == self.borsh@,
    {
        proto::PublicKey { borsh: copy_bytes(&self.borsh) }
    }
}

impl Signature {
    /// Reads a signature from its wire form.
    pub fn try_from(x: &proto::Signature) -> (res: Result<Signature, ParseSignatureError>)
        ensures
            res is Ok == signature_encoding(x.borsh@),
            res matches Ok(s) ==> s.borsh@ == x.borsh@ && s.wf(),
    {
        match check_signature(x.borsh.as_slice()) {
            Ok(_) => Ok(Signature { borsh: copy_bytes(&x.borsh) }),
            Err(e) => Err(e),
        }
    }

    /// The wire form of a signature.
    pub fn to_proto(&self) -> (x: proto::Signature)
        ensures
            x.borsh@ == self.borsh@,
    {
        proto::Signature { borsh: copy_bytes(&self.borsh) }
    }
}

impl CryptoHash {
    /// Reads a hash from its wire form.
    pub fn try_from(x: &proto::CryptoHash) -> (res: Result<CryptoHash, ParseCryptoHashError>)
        ensures
            res is Ok == (x.hash@.len() == 32),
            res matches Ok(h) ==> h.bytes@ == x.hash@ && h.wf(),
    {
        if check_crypto_hash(x.hash.as_slice()) {
            Ok(CryptoHash { bytes: copy_bytes(&x.hash) })
        } else {
            Err(ParseCryptoHashError)
        }
    }

    /// The wire form of a hash.
    pub fn to_proto(&self) -> (x: proto::CryptoHash)
        ensures
            x.hash@ == self.bytes@,
    {
        proto::CryptoHash { hash: copy_bytes(&self.bytes) }
    }
}

} // verus!
