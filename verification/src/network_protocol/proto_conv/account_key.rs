//! Conversions of the payloads that can be signed with an account key.

use crate::network_protocol::proto;
use crate::network_protocol::proto_conv::crypto::{
    ParseCryptoHashError,
    ParsePublicKeyError,
    ParseSignatureError,
    public_key_encoding,
    signature_encoding,
};
use crate::network_protocol::proto_conv::net::{
    ParsePeerAddrError,
    first_fault,
    peer_addr_ok,
    peers_correspond,
    peers_ok,
    peers_wf,
    to_proto_vec,
    try_from_slice,
};
use crate::network_protocol::proto_conv::time::{
    NANOS_PER_SECOND,
    ParseTimestampError,
    in_range,
    lemma_nanos_round_trip,
    unix_nanos,
    utc_from_proto,
    utc_to_proto,
};
use crate::network_protocol::proto_conv::util::{ParseRequiredError, ParseVecError, copy_bytes};
use crate::network_protocol::types::{
    AccountData,
    AccountId,
    AccountKeySignedPayload,
    CryptoHash,
    EpochId,
    OwnedAccount,
    PeerAddr,
    PeerId,
    PublicKey,
    Signature,
    SignedAccountData,
    SignedOwnedAccount,
    Utc,
};
use near_primitives::account::id::ParseAccountError;
use vstd::prelude::*;

verus! {

#[verifier::external_type_specification]
#[verifier::external_body]
pub struct ExParseAccountError(ParseAccountError);

#[verifier::external_type_specification]
#[verifier::external_body]
pub struct ExProtobufError(protobuf::Error);

/// A character that a part of an account name is made of.
pub open spec fn is_name_char(c: char) -> bool {
    ('a' <= c && c <= 'z') || ('0' <= c && c <= '9')
}

/// A character that separates the parts of an account name.
pub open spec fn is_separator(c: char) -> bool {
    c == '-' || c == '_' || c == '.'
}

/// The names that an account can have: 2 to 64 characters, lower-case
/// letters and digits in parts that single separators divide.
pub open spec fn account_id_valid(s: Seq<char>) -> bool {
    &&& 2 <= s.len() <= 64
    &&& forall|i: int| 0 <= i < s.len() ==> is_name_char(#[trigger] s[i]) || is_separator(s[i])
    &&& forall|i: int|
        0 <= i < s.len() && is_separator(#[trigger] s[i]) ==> 0 < i < s.len() - 1 && !is_separator(
            s[i - 1],
        )
}

/// `near_primitives::types::AccountId::validate`: accepts exactly the
/// names that an account can have.
#[verifier::external_body]
fn check_account_id(name: &str) -> (res: Result<(), ParseAccountError>)
    ensures
        res is Ok == account_id_valid(name@),
{
    near_primitives::types::AccountId::validate(name)
}

impl AccountId {
    pub open spec fn wf(&self) -> bool {
        account_id_valid(self.name@)
    }

    /// Reads the name of an account.
    pub fn try_from(name: &String) -> (res: Result<AccountId, ParseAccountError>)
        ensures
            res is Ok == account_id_valid(name@),
            res matches Ok(a) ==> a.name@ == name@ && a.wf(),
    {
        match check_account_id(name.as_str()) {
            Ok(_) => Ok(AccountId { name: name.clone() }),
            Err(e) => Err(e),
        }
    }
}

// ---------------------------------------------------------------------
// Account data
// ---------------------------------------------------------------------
/// Why a payload could not be read as account data.
#[derive(Debug)]
pub enum ParseAccountDataError {
    BadPayloadType,
    PeerId(ParsePublicKeyError),
    AccountId(ParseAccountError),
    Peers(ParseVecError<ParsePeerAddrError>),
    EpochId(ParseRequiredError<ParseCryptoHashError>),
    Timestamp(ParseRequiredError<ParseTimestampError>),
}

/// Whether the timestamp of a message is there and in range.
pub open spec fn timestamp_ok(t: Option<proto::Timestamp>) -> bool {
    t matches Some(t) && in_range(unix_nanos(t) / NANOS_PER_SECOND as int)
}

/// Whether `e` is the fault of a required timestamp.
pub open spec fn timestamp_fault<E>(e: ParseRequiredError<E>, t: Option<proto::Timestamp>) -> bool {
    match e {
        ParseRequiredError::Missing => t is None,
        ParseRequiredError::Other(_) => t is Some && !timestamp_ok(t),
    }
}

/// Whether `u` is the point in time that `t` stands for.
pub open spec fn utc_corresponds(u: Utc, t: Option<proto::Timestamp>) -> bool {
    &&& t matches Some(t)
    &&& u.seconds == unix_nanos(t) / NANOS_PER_SECOND as int
    &&& u.nanos == unix_nanos(t) % NANOS_PER_SECOND as int
}

/// Whether a required public key is there and well encoded.
pub open spec fn key_ok(k: Option<proto::PublicKey>) -> bool {
    k matches Some(k) && public_key_encoding(k.borsh@)
}

/// Whether `e` is the fault of a required public key.
pub open spec fn key_fault<E>(e: ParseRequiredError<E>, k: Option<proto::PublicKey>) -> bool {
    match e {
        ParseRequiredError::Missing => k is None,
        ParseRequiredError::Other(_) => k is Some && !key_ok(k),
    }
}

/// Whether a required hash is there and has 32 bytes.
pub open spec fn hash_ok(h: Option<proto::CryptoHash>) -> bool {
    h matches Some(h) && h.hash@.len() == 32
}

/// Whether the fields of account data on the wire can all be read.
pub open spec fn account_data_ok(a: proto::AccountData) -> bool {
    &&& a.peer_id matches Some(k) ==> public_key_encoding(k.borsh@)
    &&& account_id_valid(a.account_id@)
    &&& peers_ok(a.proxies@)
    &&& hash_ok(a.epoch_id)
    &&& timestamp_ok(a.timestamp)
}

impl ParseAccountDataError {
    /// `self` is the fault of `x` that is found first. The fields are
    /// looked at in the order peer, account, proxies, epoch, timestamp.
    pub open spec fn describes(self, x: proto::AccountKeyPayload) -> bool {
        match x.payload_type {
            Some(proto::PayloadType::AccountData(a)) => {
                let peer_ok = a.peer_id matches Some(k) ==> public_key_encoding(k.borsh@);
                let account_ok = peer_ok && account_id_valid(a.account_id@);
                let proxies_ok = account_ok && peers_ok(a.proxies@);
                let epoch_ok = proxies_ok && hash_ok(a.epoch_id);
                match self {
                    ParseAccountDataError::BadPayloadType => false,
                    ParseAccountDataError::PeerId(_) => !peer_ok,
                    ParseAccountDataError::AccountId(_) => peer_ok && !account_ok,
                    ParseAccountDataError::Peers(e) => account_ok && first_fault(e, a.proxies@),
                    ParseAccountDataError::EpochId(ParseRequiredError::Missing) => proxies_ok
                        && a.epoch_id is None,
                    ParseAccountDataError::EpochId(ParseRequiredError::Other(_)) => proxies_ok
                        && a.epoch_id is Some && !epoch_ok,
                    ParseAccountDataError::Timestamp(e) => epoch_ok && timestamp_fault(
                        e,
                        a.timestamp,
                    ),
                }
            },
            _ => self is BadPayloadType,
        }
    }
}

impl AccountData {
    pub open spec fn wf(&self) -> bool {
        &&& self.peer_id matches Some(p) ==> p.wf()
        &&& self.account_id.wf()
        &&& peers_wf(self.proxies@)
        &&& self.epoch_id.0.wf()
        &&& self.timestamp.wf()
    }

    /// `self` is what the account data `a` on the wire says.
    pub open spec fn corresponds(&self, a: proto::AccountData) -> bool {
        &&& match self.peer_id {
            Some(p) => a.peer_id matches Some(k) && p.borsh@ == k.borsh@,
            None => a.peer_id is None,
        }
        &&& self.account_id.name@ == a.account_id@
        &&& peers_correspond(self.proxies@, a.proxies@)
        &&& a.epoch_id matches Some(h) && self.epoch_id.0.bytes@ == h.hash@
        &&& utc_corresponds(self.timestamp, a.timestamp)
    }

    /// Reads account data from a payload. The payload must be account
    /// data; its fields are read in order, and the first that is rejected
    /// decides the error.
    pub fn try_from(x: &proto::AccountKeyPayload) -> (res: Result<
        AccountData,
        ParseAccountDataError,
    >)
        ensures
            res is Ok == (x.payload_type matches Some(proto::PayloadType::AccountData(a))
                && account_data_ok(a)),
            match res {
                Ok(d) => x.payload_type matches Some(proto::PayloadType::AccountData(a))
                    && d.corresponds(a) && d.wf(),
                Err(e) => e.describes(*x),
            },
    {
        let a = match &x.payload_type {
            Some(proto::PayloadType::AccountData(a)) => a,
            _ => {
                return Err(ParseAccountDataError::BadPayloadType);
            },
        };
        let peer_id = match &a.peer_id {
            None => None,
            Some(k) => match PeerId::try_from(k) {
                Ok(p) => Some(p),
                Err(e) => {
                    return Err(ParseAccountDataError::PeerId(e));
                },
            },
        };
        let account_id = match AccountId::try_from(&a.account_id) {
            Ok(id) => id,
            Err(e) => {
                return Err(ParseAccountDataError::AccountId(e));
            },
        };
        let proxies = match try_from_slice(&a.proxies) {
            Ok(ps) => ps,
            Err(e) => {
                return Err(ParseAccountDataError::Peers(e));
            },
        };
        let epoch_id = match &a.epoch_id {
            None => {
                return Err(ParseAccountDataError::EpochId(ParseRequiredError::Missing));
            },
            Some(h) => match CryptoHash::try_from(h) {
                Ok(h) => EpochId(h),
                Err(e) => {
                    return Err(ParseAccountDataError::EpochId(ParseRequiredError::Other(e)));
                },
            },
        };
        let timestamp = match &a.timestamp {
            None => {
                return Err(ParseAccountDataError::Timestamp(ParseRequiredError::Missing));
            },
            Some(t) => match utc_from_proto(t) {
                Ok(t) => t,
                Err(e) => {
                    return Err(ParseAccountDataError::Timestamp(ParseRequiredError::Other(e)));
                },
            },
        };
        Ok(AccountData { peer_id, account_id, proxies, epoch_id, timestamp })
    }
}

impl proto::AccountKeyPayload {
    /// The payload that holds the account data `x`.
    pub fn from_account_data(x: &AccountData) -> (p: proto::AccountKeyPayload)
        requires
            x.timestamp.nanos < 1_000_000_000,
        ensures
            p.payload_type matches Some(proto::PayloadType::AccountData(a)) && x.corresponds(a),
    {
        let peer_id = match &x.peer_id {
            Some(p) => Some(p.to_proto()),
            None => None,
        };
        let timestamp = utc_to_proto(&x.timestamp);
        proof {
            lemma_nanos_round_trip(x.timestamp);
        }
        proto::AccountKeyPayload {
            payload_type: Some(
                proto::PayloadType::AccountData(
                    proto::AccountData {
                        peer_id,
                        account_id: x.account_id.name.clone(),
                        proxies: to_proto_vec(&x.proxies),
                        epoch_id: Some(x.epoch_id.0.to_proto()),
                        timestamp: Some(timestamp),
                    },
                ),
            ),
        }
    }

    /// The payload that holds the claim `x` of an account key to a peer.
    pub fn from_owned_account(x: &OwnedAccount) -> (p: proto::AccountKeyPayload)
        requires
            x.timestamp.nanos < 1_000_000_000,
        ensures
            p.payload_type matches Some(proto::PayloadType::OwnedAccount(o)) && x.corresponds(o),
    {
        let timestamp = utc_to_proto(&x.timestamp);
        proof {
            lemma_nanos_round_trip(x.timestamp);
        }
        proto::AccountKeyPayload {
            payload_type: Some(
                proto::PayloadType::OwnedAccount(
                    proto::OwnedAccount {
                        account_key: Some(x.account_key.to_proto()),
                        peer_id: Some(x.peer_id.to_proto()),
                        timestamp: Some(timestamp),
                    },
                ),
            ),
        }
    }
}

// ---------------------------------------------------------------------
// Signed payloads
// ---------------------------------------------------------------------
/// Whether a required signature is there and well encoded.
pub open spec fn signature_ok(s: Option<proto::Signature>) -> bool {
    s matches Some(s) && signature_encoding(s.borsh@)
}

/// Whether `e` is the fault of a required signature.
pub open spec fn signature_fault<E>(e: ParseRequiredError<E>, s: Option<proto::Signature>) -> bool {
    match e {
        ParseRequiredError::Missing => s is None,
        ParseRequiredError::Other(_) => s is Some && !signature_ok(s),
    }
}

impl AccountKeySignedPayload {
    pub open spec fn wf(&self) -> bool {
        self.signature.wf()
    }

    /// `self` holds the bytes and the signature of `x`.
    pub open spec fn corresponds(&self, x: proto::AccountKeySignedPayload) -> bool {
        &&& self.payload@ == x.payload@
        &&& x.signature matches Some(s) && self.signature.borsh@ == s.borsh@
    }

    /// Reads the signed bytes and their signature.
    pub fn try_from(x: &proto::AccountKeySignedPayload) -> (res: Result<
        AccountKeySignedPayload,
        ParseRequiredError<ParseSignatureError>,
    >)
        ensures
            res is Ok == signature_ok(x.signature),
            match res {
                Ok(p) => p.corresponds(*x) && p.wf(),
                Err(e) => signature_fault(e, x.signature),
            },
    {
        let signature = match &x.signature {
            None => {
                return Err(ParseRequiredError::Missing);
            },
            Some(s) => match Signature::try_from(s) {
                Ok(s) => s,
                Err(e) => {
                    return Err(ParseRequiredError::Other(e));
                },
            },
        };
        Ok(AccountKeySignedPayload { payload: copy_bytes(&x.payload), signature })
    }

    /// The wire form of signed bytes.
    pub fn to_proto(&self) -> (x: proto::AccountKeySignedPayload)
        ensures
            self.corresponds(x),
    {
        proto::AccountKeySignedPayload {
            payload: copy_bytes(&self.payload),
            signature: Some(self.signature.to_proto()),
        }
    }
}

/// Why a signed payload could not be read as signed account data.
#[derive(Debug)]
pub enum ParseSignedAccountDataError {
    Decode(protobuf::Error),
    AccountData(ParseAccountDataError),
    Signature(ParseRequiredError<ParseSignatureError>),
}

impl SignedAccountData {
    /// Reads signed account data. `decoded` is what decoding the bytes of
    /// `x.payload` gave. A failure to decode comes first, then what is
    /// wrong with the account data, then what is wrong with the
    /// signature.
    pub fn try_from(
        decoded: Result<proto::AccountKeyPayload, protobuf::Error>,
        x: &proto::AccountKeySignedPayload,
    ) -> (res: Result<SignedAccountData, ParseSignedAccountDataError>)
        ensures
            res is Ok == (decoded matches Ok(p) && p.payload_type matches Some(
                proto::PayloadType::AccountData(a),
            ) && account_data_ok(a) && signature_ok(x.signature)),
            match res {
                Ok(s) => {
                    &&& decoded matches Ok(p)
                    &&& p.payload_type matches Some(proto::PayloadType::AccountData(a))
                    &&& s.account_data.corresponds(a)
                    &&& s.account_data.wf()
                    &&& s.payload.corresponds(*x)
                    &&& s.payload.wf()
                },
                Err(ParseSignedAccountDataError::Decode(e)) => decoded == Err::<
                    proto::AccountKeyPayload,
                    protobuf::Error,
                >(e),
                Err(ParseSignedAccountDataError::AccountData(e)) => decoded matches Ok(p)
                    && e.describes(p),
                Err(ParseSignedAccountDataError::Signature(e)) => {
                    &&& decoded matches Ok(p)
                    &&& p.payload_type matches Some(proto::PayloadType::AccountData(a))
                    &&& account_data_ok(a)
                    &&& signature_fault(e, x.signature)
                },
            },
    {
        let payload = match decoded {
            Ok(p) => p,
            Err(e) => {
                return Err(ParseSignedAccountDataError::Decode(e));
            },
        };
        let account_data = match AccountData::try_from(&payload) {
            Ok(d) => d,
            Err(e) => {
                return Err(ParseSignedAccountDataError::AccountData(e));
            },
        };
        let signed = match AccountKeySignedPayload::try_from(x) {
            Ok(s) => s,
            Err(e) => {
                return Err(ParseSignedAccountDataError::Signature(e));
            },
        };
        Ok(SignedAccountData { account_data, payload: signed })
    }
}

impl proto::AccountKeySignedPayload {
    /// The wire form of signed account data: the bytes that were signed,
    /// as they were, and the signature.
    pub fn from_signed_account_data(x: &SignedAccountData) -> (p: proto::AccountKeySignedPayload)
        ensures
            x.payload.corresponds(p),
    {
        x.payload.to_proto()
    }

    /// The wire form of a signed claim to a peer: the bytes that were
    /// signed, as they were, and the signature.
    pub fn from_signed_owned_account(x: &SignedOwnedAccount) -> (p: proto::AccountKeySignedPayload)
        ensures
            x.payload.corresponds(p),
    {
        x.payload.to_proto()
    }
}

// ---------------------------------------------------------------------
// Owned accounts
// ---------------------------------------------------------------------
/// Why a payload could not be read as the claim of an account key to a
/// peer.
#[derive(Debug)]
pub enum ParseOwnedAccountError {
    BadPayloadType,
    PeerId(ParseRequiredError<ParsePublicKeyError>),
    AccountKey(ParseRequiredError<ParsePublicKeyError>),
    Timestamp(ParseRequiredError<ParseTimestampError>),
}

/// Whether the fields of a claim on the wire can all be read.
pub open spec fn owned_account_ok(o: proto::OwnedAccount) -> bool {
    key_ok(o.account_key) && key_ok(o.peer_id) && timestamp_ok(o.timestamp)
}

impl ParseOwnedAccountError {
    /// `self` is the fault of `x` that is found first. The fields are
    /// looked at in the order account key, peer, timestamp.
    pub open spec fn describes(self, x: proto::AccountKeyPayload) -> bool {
        match x.payload_type {
            Some(proto::PayloadType::OwnedAccount(o)) => match self {
                ParseOwnedAccountError::BadPayloadType => false,
                ParseOwnedAccountError::AccountKey(e) => key_fault(e, o.account_key),
                ParseOwnedAccountError::PeerId(e) => key_ok(o.account_key) && key_fault(
                    e,
                    o.peer_id,
                ),
                ParseOwnedAccountError::Timestamp(e) => key_ok(o.account_key) && key_ok(o.peer_id)
                    && timestamp_fault(e, o.timestamp),
            },
            _ => self is BadPayloadType,
        }
    }
}

impl OwnedAccount {
    pub open spec fn wf(&self) -> bool {
        self.account_key.wf() && self.peer_id.wf() && self.timestamp.wf()
    }

    /// `self` is what the claim `o` on the wire says.
    pub open spec fn corresponds(&self, o: proto::OwnedAccount) -> bool {
        &&& o.account_key matches Some(k) && self.account_key.borsh@ == k.borsh@
        &&& o.peer_id matches Some(k) && self.peer_id.borsh@ == k.borsh@
        &&& utc_corresponds(self.timestamp, o.timestamp)
    }

    /// Reads the claim of an account key to a peer from a payload. The
    /// payload must be such a claim; its fields are read in order, and the
    /// first that is rejected decides the error.
    pub fn try_from(x: &proto::AccountKeyPayload) -> (res: Result<
        OwnedAccount,
        ParseOwnedAccountError,
    >)
        ensures
            res is Ok == (x.payload_type matches Some(proto::PayloadType::OwnedAccount(o))
                && owned_account_ok(o)),
            match res {
                Ok(d) => x.payload_type matches Some(proto::PayloadType::OwnedAccount(o))
                    && d.corresponds(o) && d.wf(),
                Err(e) => e.describes(*x),
            },
    {
        let o = match &x.payload_type {
            Some(proto::PayloadType::OwnedAccount(o)) => o,
            _ => {
                return Err(ParseOwnedAccountError::BadPayloadType);
            },
        };
        let account_key = match &o.account_key {
            None => {
                return Err(ParseOwnedAccountError::AccountKey(ParseRequiredError::Missing));
            },
            Some(k) => match PublicKey::try_from(k) {
                Ok(k) => k,
                Err(e) => {
                    return Err(ParseOwnedAccountError::AccountKey(ParseRequiredError::Other(e)));
                },
            },
        };
        let peer_id = match &o.peer_id {
            None => {
                return Err(ParseOwnedAccountError::PeerId(ParseRequiredError::Missing));
            },
            Some(k) => match PeerId::try_from(k) {
                Ok(p) => p,
                Err(e) => {
                    return Err(ParseOwnedAccountError::PeerId(ParseRequiredError::Other(e)));
                },
            },
        };
        let timestamp = match &o.timestamp {
            None => {
                return Err(ParseOwnedAccountError::Timestamp(ParseRequiredError::Missing));
            },
            Some(t) => match utc_from_proto(t) {
                Ok(t) => t,
                Err(e) => {
                    return Err(ParseOwnedAccountError::Timestamp(ParseRequiredError::Other(e)));
                },
            },
        };
        Ok(OwnedAccount { account_key, peer_id, timestamp })
    }
}

/// Why a signed payload could not be read as a signed claim to a peer.
#[derive(Debug)]
pub enum ParseSignedOwnedAccountError {
    Decode(protobuf::Error),
    OwnedAccount(ParseOwnedAccountError),
    Signature(ParseRequiredError<ParseSignatureError>),
}

impl SignedOwnedAccount {
    /// Reads a signed claim to a peer. `decoded` is what decoding the
    /// bytes of `x.payload` gave. A failure to decode comes first, then
    /// what is wrong with the claim, then what is wrong with the
    /// signature.
    pub fn try_from(
        decoded: Result<proto::AccountKeyPayload, protobuf::Error>,
        x: &proto::AccountKeySignedPayload,
    ) -> (res: Result<SignedOwnedAccount, ParseSignedOwnedAccountError>)
        ensures
            res is Ok == (decoded matches Ok(p) && p.payload_type matches Some(
                proto::PayloadType::OwnedAccount(o),
            ) && owned_account_ok(o) && signature_ok(x.signature)),
            match res {
                Ok(s) => {
                    &&& decoded matches Ok(p)
                    &&& p.payload_type matches Some(proto::PayloadType::OwnedAccount(o))
                    &&& s.owned_account.corresponds(o)
                    &&& s.owned_account.wf()
                    &&& s.payload.corresponds(*x)
                    &&& s.payload.wf()
                },
                Err(ParseSignedOwnedAccountError::Decode(e)) => decoded == Err::<
                    proto::AccountKeyPayload,
                    protobuf::Error,
                >(e),
                Err(ParseSignedOwnedAccountError::OwnedAccount(e)) => decoded matches Ok(p)
                    && e.describes(p),
                Err(ParseSignedOwnedAccountError::Signature(e)) => {
                    &&& decoded matches Ok(p)
                    &&& p.payload_type matches Some(proto::PayloadType::OwnedAccount(o))
                    &&& owned_account_ok(o)
                    &&& signature_fault(e, x.signature)
                },
            },
    {
        let payload = match decoded {
            Ok(p) => p,
            Err(e) => {
                return Err(ParseSignedOwnedAccountError::Decode(e));
            },
        };
        let owned_account = match OwnedAccount::try_from(&payload) {
            Ok(d) => d,
            Err(e) => {
                return Err(ParseSignedOwnedAccountError::OwnedAccount(e));
            },
        };
        let signed = match AccountKeySignedPayload::try_from(x) {
            Ok(s) => s,
            Err(e) => {
                return Err(ParseSignedOwnedAccountError::Signature(e));
            },
        };
        Ok(SignedOwnedAccount { owned_account, payload: signed })
    }
}

// ---------------------------------------------------------------------
// What is written can be read
// ---------------------------------------------------------------------
/// Whatever corresponds to well-formed addresses of peers can be read.
pub proof fn lemma_peers_readable(
    ps: Seq<PeerAddr>,
    xs: Seq<proto::PeerAddr>,
)
    requires
        peers_wf(ps),
        peers_correspond(ps, xs),
    ensures
        peers_ok(xs),
{
    assert forall|i: int| 0 <= i < xs.len() implies peer_addr_ok(#[trigger] xs[i]) by {
        assert(ps[i].wf());
        assert(ps[i].corresponds(xs[i]));
    }
}

/// Account data that was written to the wire can be read back: a payload
/// that corresponds to well-formed account data is accepted.
pub proof fn law_account_data_readable(d: AccountData, a: proto::AccountData)
    requires
        d.wf(),
        d.corresponds(a),
    ensures
        account_data_ok(a),
{
    lemma_peers_readable(d.proxies@, a.proxies@);
}

/// A claim that was written to the wire can be read back: a payload that
/// corresponds to a well-formed claim is accepted.
pub proof fn law_owned_account_readable(d: OwnedAccount, o: proto::OwnedAccount)
    requires
        d.wf(),
        d.corresponds(o),
    ensures
        owned_account_ok(o),
{
}

} // verus!
