use near_network_core::network_protocol::proto;
use near_network_core::network_protocol::proto_conv::account_key::{
    ParseAccountDataError, ParseOwnedAccountError, ParseSignedAccountDataError,
    ParseSignedOwnedAccountError,
};
use near_network_core::network_protocol::proto_conv::crypto::ParseCryptoHashError;
use near_network_core::network_protocol::proto_conv::net::{
    to_proto_vec, try_from_slice, ParsePeerAddrError, ParseSocketAddrError,
};
use near_network_core::network_protocol::proto_conv::time::{
    utc_from_proto, utc_to_proto, MAX_SECONDS, MIN_SECONDS,
};
use near_network_core::network_protocol::proto_conv::util::{
    copy_bytes, ParseRequiredError, ParseVecError,
};
use near_network_core::network_protocol::types::{
    AccountData, AccountId, AccountKeySignedPayload, CryptoHash, OwnedAccount, PeerAddr, PeerId,
    PublicKey, Signature, SignedAccountData, SignedOwnedAccount, SocketAddr, Utc,
};

fn key(curve: u8, len: usize) -> proto::PublicKey {
    let mut borsh = vec![curve];
    for i in 0..len {
        borsh.push((i * 7 + 3) as u8);
    }
    proto::PublicKey { borsh }
}

fn good_key() -> proto::PublicKey {
    key(0, 32)
}

fn good_signature() -> proto::Signature {
    let mut borsh = vec![0u8];
    for i in 0..64 {
        borsh.push(i as u8);
    }
    borsh[64] = 0x1f;
    proto::Signature { borsh }
}

fn good_hash() -> proto::CryptoHash {
    proto::CryptoHash { hash: vec![9u8; 32] }
}

fn good_peer_addr(port: u32) -> proto::PeerAddr {
    proto::PeerAddr {
        addr: Some(proto::SocketAddr { ip: vec![127, 0, 0, 1], port }),
        peer_id: Some(good_key()),
    }
}

fn good_account_data() -> proto::AccountData {
    proto::AccountData {
        peer_id: Some(good_key()),
        account_id: "alex-skidanov".to_string(),
        proxies: vec![good_peer_addr(80), good_peer_addr(24567)],
        epoch_id: Some(good_hash()),
        timestamp: Some(proto::Timestamp { seconds: 89108233, nanos: 5 }),
    }
}

fn account_payload(a: proto::AccountData) -> proto::AccountKeyPayload {
    proto::AccountKeyPayload { payload_type: Some(proto::PayloadType::AccountData(a)) }
}

fn good_owned_account() -> proto::OwnedAccount {
    proto::OwnedAccount {
        account_key: Some(key(1, 64)),
        peer_id: Some(good_key()),
        timestamp: Some(proto::Timestamp { seconds: 1, nanos: 0 }),
    }
}

fn owned_payload(o: proto::OwnedAccount) -> proto::AccountKeyPayload {
    proto::AccountKeyPayload { payload_type: Some(proto::PayloadType::OwnedAccount(o)) }
}

fn decode_failure() -> protobuf::Error {
    protobuf::Error::from(std::io::Error::new(std::io::ErrorKind::UnexpectedEof, "cut short"))
}

// ----- keys, signatures, hashes ---------------------------------------

fn public_key_rule(bytes: &[u8]) -> bool {
    (bytes.len() == 33 && bytes[0] == 0) || (bytes.len() == 65 && bytes[0] == 1)
}

#[test]
fn public_key_follows_the_encoding() {
    for curve in 0..4u8 {
        for len in 0..70usize {
            let k = key(curve, len);
            let want = public_key_rule(&k.borsh);
            assert_eq!(PublicKey::try_from(&k).is_ok(), want, "curve {curve}, {len} bytes");
            assert_eq!(PeerId::try_from(&k).is_ok(), want, "curve {curve}, {len} bytes");
        }
    }
    assert!(PublicKey::try_from(&proto::PublicKey { borsh: vec![] }).is_err());
    assert!(PeerId::try_from(&proto::PublicKey { borsh: vec![] }).is_err());
}

#[test]
fn public_key_keeps_its_bytes() {
    let k = good_key();
    let parsed = PublicKey::try_from(&k).unwrap();
    assert_eq!(parsed.borsh, k.borsh);
    assert_eq!(parsed.to_proto().borsh, k.borsh);
    let peer = PeerId::try_from(&k).unwrap();
    assert_eq!(peer.borsh, k.borsh);
    assert_eq!(peer.to_proto().borsh, k.borsh);
    // The library's bytes are what the key of the node's own type encodes to.
    let theirs = <near_crypto::PublicKey as near_primitives::borsh::BorshDeserialize>::try_from_slice(
        &parsed.borsh,
    )
    .unwrap();
    assert_eq!(near_primitives::borsh::BorshSerialize::try_to_vec(&theirs).unwrap(), k.borsh);
}

fn signature_rule(bytes: &[u8]) -> bool {
    (bytes.len() == 65 && bytes[0] == 0 && bytes[64] & 0xe0 == 0)
        || (bytes.len() == 66 && bytes[0] == 1)
}

#[test]
fn signature_follows_the_encoding() {
    for curve in 0..3u8 {
        for len in 60..70usize {
            for last in [0x00u8, 0x1f, 0x20, 0x40, 0x80, 0xff] {
                let mut borsh = vec![curve];
                borsh.extend(std::iter::repeat(1u8).take(len));
                let end = borsh.len() - 1;
                borsh[end] = last;
                let s = proto::Signature { borsh };
                assert_eq!(
                    Signature::try_from(&s).is_ok(),
                    signature_rule(&s.borsh),
                    "curve {curve}, {len} bytes, last {last:#x}"
                );
            }
        }
    }
    assert!(Signature::try_from(&proto::Signature { borsh: vec![] }).is_err());
    let s = good_signature();
    let parsed = Signature::try_from(&s).unwrap();
    assert_eq!(parsed.borsh, s.borsh);
    assert_eq!(parsed.to_proto().borsh, s.borsh);
}

#[test]
fn hash_has_32_bytes() {
    for len in [0usize, 1, 31, 32, 33, 64] {
        let h = proto::CryptoHash { hash: vec![5u8; len] };
        match CryptoHash::try_from(&h) {
            Ok(parsed) => {
                assert_eq!(len, 32);
                assert_eq!(parsed.bytes, h.hash);
                assert_eq!(parsed.to_proto().hash, h.hash);
            }
            Err(e) => {
                assert_ne!(len, 32);
                assert_eq!(e, ParseCryptoHashError);
            }
        }
    }
}

#[test]
fn copy_bytes_copies() {
    assert_eq!(copy_bytes(&vec![]), Vec::<u8>::new());
    assert_eq!(copy_bytes(&vec![1, 2, 3]), vec![1, 2, 3]);
}

// ----- account names ---------------------------------------------------

fn account_rule(s: &str) -> bool {
    let c: Vec<char> = s.chars().collect();
    let name = |c: char| c.is_ascii_lowercase() || c.is_ascii_digit();
    let sep = |c: char| c == '-' || c == '_' || c == '.';
    c.len() >= 2
        && c.len() <= 64
        && c.iter().all(|&x| name(x) || sep(x))
        && (0..c.len()).all(|i| !sep(c[i]) || (i > 0 && i < c.len() - 1 && !sep(c[i - 1])))
}

#[test]
fn account_id_follows_the_rule() {
    let ok = [
        "aa",
        "a-a",
        "100",
        "0o",
        "b-o_w_e-n",
        "a.b-a.ra",
        "over.9000",
        "illia.cheapaccounts.near",
        "10-4.8-2",
        "0123456789012345678901234567890123456789012345678901234567890123",
        "near.a",
    ];
    let bad = [
        "",
        "a",
        "A",
        "Abc",
        "-near",
        "near-",
        "near.",
        ".near",
        "near@",
        "неар",
        "é",
        "0__0",
        "0_-_0",
        "..",
        "a..near",
        "nEar",
        "hello world",
        "01234567890123456789012345678901234567890123456789012345678901234",
        "sub.buy_d1gitz@atata@b0-rg.c_0_m",
    ];
    for name in ok {
        assert!(account_rule(name), "{name}");
        let id = AccountId::try_from(&name.to_string()).unwrap();
        assert_eq!(id.name, name);
    }
    for name in bad {
        assert!(!account_rule(name), "{name}");
        assert!(AccountId::try_from(&name.to_string()).is_err(), "{name}");
    }
}

// ----- time ------------------------------------------------------------

#[test]
fn timestamp_carries_the_nanoseconds() {
    let read = |seconds, nanos| utc_from_proto(&proto::Timestamp { seconds, nanos }).unwrap();
    assert_eq!(read(0, 0), Utc { seconds: 0, nanos: 0 });
    assert_eq!(read(89108233, 5), Utc { seconds: 89108233, nanos: 5 });
    assert_eq!(read(1, -1), Utc { seconds: 0, nanos: 999_999_999 });
    assert_eq!(read(0, -1), Utc { seconds: -1, nanos: 999_999_999 });
    assert_eq!(read(10, 2_000_000_001), Utc { seconds: 12, nanos: 1 });
    assert_eq!(read(-5, -2_000_000_001), Utc { seconds: -8, nanos: 999_999_999 });
    assert_eq!(read(-1, 1_000_000_000), Utc { seconds: 0, nanos: 0 });
}

#[test]
fn timestamp_range() {
    let ok = |seconds, nanos| utc_from_proto(&proto::Timestamp { seconds, nanos }).is_ok();
    assert_eq!(MAX_SECONDS, 253_402_300_799);
    assert_eq!(MIN_SECONDS, -377_705_116_800);
    assert!(ok(MAX_SECONDS, 0));
    assert!(ok(MAX_SECONDS, 999_999_999));
    assert!(!ok(MAX_SECONDS, 1_000_000_000));
    assert!(!ok(MAX_SECONDS + 1, 0));
    assert!(ok(MAX_SECONDS + 1, -1));
    assert!(ok(MIN_SECONDS, 0));
    assert!(!ok(MIN_SECONDS, -1));
    assert!(!ok(MIN_SECONDS - 1, 0));
    assert!(ok(MIN_SECONDS - 1, 1_000_000_000));
    assert!(!ok(i64::MAX, i32::MAX));
    assert!(!ok(i64::MIN, i32::MIN));
    let top = utc_from_proto(&proto::Timestamp { seconds: MAX_SECONDS, nanos: 999_999_999 });
    assert_eq!(top.unwrap(), Utc { seconds: MAX_SECONDS, nanos: 999_999_999 });
}

#[test]
fn timestamp_round_trip() {
    for t in [
        Utc { seconds: 0, nanos: 0 },
        Utc { seconds: -1, nanos: 999_999_999 },
        Utc { seconds: MAX_SECONDS, nanos: 1 },
        Utc { seconds: MIN_SECONDS, nanos: 0 },
    ] {
        let p = utc_to_proto(&t);
        assert_eq!(p, proto::Timestamp { seconds: t.seconds, nanos: t.nanos as i32 });
        assert_eq!(utc_from_proto(&p).unwrap(), t);
    }
}

// ----- addresses -------------------------------------------------------

#[test]
fn socket_addr_faults() {
    let read = |ip: Vec<u8>, port| SocketAddr::try_from(&proto::SocketAddr { ip, port });
    let v4 = read(vec![10, 0, 0, 1], 65535).unwrap();
    assert_eq!((v4.ip.clone(), v4.port), (vec![10, 0, 0, 1], 65535));
    let back = v4.to_proto();
    assert_eq!((back.ip, back.port), (vec![10, 0, 0, 1], 65535));
    let v6 = read(vec![1; 16], 0).unwrap();
    assert_eq!((v6.ip, v6.port), (vec![1; 16], 0));
    assert_eq!(read(vec![], 1).unwrap_err(), ParseSocketAddrError::InvalidIP);
    assert_eq!(read(vec![1; 5], 1).unwrap_err(), ParseSocketAddrError::InvalidIP);
    assert_eq!(read(vec![1; 4], 65536).unwrap_err(), ParseSocketAddrError::InvalidPort);
    // The address is looked at before the port.
    assert_eq!(read(vec![1; 3], 65536).unwrap_err(), ParseSocketAddrError::InvalidIP);
}

#[test]
fn peer_addr_faults() {
    let p = PeerAddr::try_from(&good_peer_addr(80)).unwrap();
    assert_eq!(p.addr.port, 80);
    assert_eq!(p.addr.ip, vec![127, 0, 0, 1]);
    assert_eq!(p.peer_id.borsh, good_key().borsh);
    let mut x = good_peer_addr(80);
    x.addr = None;
    x.peer_id = None;
    assert!(matches!(
        PeerAddr::try_from(&x),
        Err(ParsePeerAddrError::Addr(ParseRequiredError::Missing))
    ));
    let mut x = good_peer_addr(70000);
    x.peer_id = Some(key(2, 32));
    assert!(matches!(
        PeerAddr::try_from(&x),
        Err(ParsePeerAddrError::Addr(ParseRequiredError::Other(
            ParseSocketAddrError::InvalidPort
        )))
    ));
    let mut x = good_peer_addr(80);
    x.peer_id = None;
    assert!(matches!(
        PeerAddr::try_from(&x),
        Err(ParsePeerAddrError::PeerId(ParseRequiredError::Missing))
    ));
    x.peer_id = Some(key(2, 32));
    assert!(matches!(
        PeerAddr::try_from(&x),
        Err(ParsePeerAddrError::PeerId(ParseRequiredError::Other(_)))
    ));
}

#[test]
fn peers_stop_at_the_first_fault() {
    assert!(try_from_slice(&vec![]).unwrap().is_empty());
    let all = try_from_slice(&vec![good_peer_addr(1), good_peer_addr(2), good_peer_addr(3)]);
    let all = all.unwrap();
    assert_eq!(all.iter().map(|p| p.addr.port).collect::<Vec<u16>>(), vec![1, 2, 3]);
    let back = to_proto_vec(&all);
    assert_eq!(back.len(), 3);
    assert_eq!(back[2].addr.as_ref().unwrap().port, 3);
    assert_eq!(back[2].peer_id.as_ref().unwrap().borsh, good_key().borsh);
    let mut second = good_peer_addr(2);
    second.peer_id = None;
    let mut third = good_peer_addr(3);
    third.addr = None;
    match try_from_slice(&vec![good_peer_addr(1), second, third]) {
        Err(ParseVecError {
            idx: 1,
            source: ParsePeerAddrError::PeerId(ParseRequiredError::Missing),
        }) => {}
        other => panic!("{other:?}"),
    }
}

// ----- account data ----------------------------------------------------

#[test]
fn account_data_is_read() {
    let x = account_payload(good_account_data());
    let d = AccountData::try_from(&x).unwrap();
    assert_eq!(d.peer_id.as_ref().unwrap().borsh, good_key().borsh);
    assert_eq!(d.account_id.name, "alex-skidanov");
    assert_eq!(d.proxies.len(), 2);
    assert_eq!(d.proxies[1].addr.port, 24567);
    assert_eq!(d.epoch_id.0.bytes, vec![9u8; 32]);
    assert_eq!(d.timestamp, Utc { seconds: 89108233, nanos: 5 });
    // Without a peer: the field is optional.
    let mut a = good_account_data();
    a.peer_id = None;
    let d = AccountData::try_from(&account_payload(a)).unwrap();
    assert!(d.peer_id.is_none());
}

#[test]
fn account_data_round_trip() {
    let d = AccountData::try_from(&account_payload(good_account_data())).unwrap();
    let p = proto::AccountKeyPayload::from_account_data(&d);
    let a = match &p.payload_type {
        Some(proto::PayloadType::AccountData(a)) => a,
        other => panic!("{other:?}"),
    };
    let want = good_account_data();
    assert_eq!(a.peer_id.as_ref().unwrap().borsh, want.peer_id.unwrap().borsh);
    assert_eq!(a.account_id, want.account_id);
    assert_eq!(a.proxies.len(), 2);
    assert_eq!(a.proxies[0].addr.as_ref().unwrap().port, 80);
    assert_eq!(a.epoch_id.as_ref().unwrap().hash, want.epoch_id.unwrap().hash);
    assert_eq!(a.timestamp, want.timestamp);
    let again = AccountData::try_from(&p).unwrap();
    assert_eq!(again.account_id.name, d.account_id.name);
    assert_eq!(again.timestamp, d.timestamp);
    assert_eq!(again.epoch_id.0.bytes, d.epoch_id.0.bytes);
    assert_eq!(again.proxies.len(), d.proxies.len());
}

#[test]
fn account_data_bad_payload_type() {
    let none = proto::AccountKeyPayload { payload_type: None };
    assert!(matches!(AccountData::try_from(&none), Err(ParseAccountDataError::BadPayloadType)));
    let other = owned_payload(good_owned_account());
    assert!(matches!(AccountData::try_from(&other), Err(ParseAccountDataError::BadPayloadType)));
}

#[test]
fn account_data_faults_in_order() {
    // Everything is wrong: the peer decides.
    let mut a = proto::AccountData {
        peer_id: Some(key(3, 1)),
        account_id: "A".to_string(),
        proxies: vec![proto::PeerAddr { addr: None, peer_id: None }],
        epoch_id: None,
        timestamp: None,
    };
    let read = |a: &proto::AccountData| {
        AccountData::try_from(&account_payload(proto::AccountData {
            peer_id: a.peer_id.as_ref().map(|k| proto::PublicKey { borsh: k.borsh.clone() }),
            account_id: a.account_id.clone(),
            proxies: a
                .proxies
                .iter()
                .map(|p| proto::PeerAddr {
                    addr: p
                        .addr
                        .as_ref()
                        .map(|s| proto::SocketAddr { ip: s.ip.clone(), port: s.port }),
                    peer_id: p
                        .peer_id
                        .as_ref()
                        .map(|k| proto::PublicKey { borsh: k.borsh.clone() }),
                })
                .collect(),
            epoch_id: a.epoch_id.as_ref().map(|h| proto::CryptoHash { hash: h.hash.clone() }),
            timestamp: a.timestamp,
        }))
        .unwrap_err()
    };
    assert!(matches!(read(&a), ParseAccountDataError::PeerId(_)));
    a.peer_id = None;
    match read(&a) {
        ParseAccountDataError::AccountId(e) => {
            assert_eq!(e.kind(), &near_primitives::account::id::ParseErrorKind::TooShort)
        }
        other => panic!("{other:?}"),
    }
    a.account_id = "near".to_string();
    assert!(matches!(
        read(&a),
        ParseAccountDataError::Peers(ParseVecError {
            idx: 0,
            source: ParsePeerAddrError::Addr(ParseRequiredError::Missing)
        })
    ));
    a.proxies = vec![];
    assert!(matches!(read(&a), ParseAccountDataError::EpochId(ParseRequiredError::Missing)));
    a.epoch_id = Some(proto::CryptoHash { hash: vec![0; 31] });
    assert!(matches!(
        read(&a),
        ParseAccountDataError::EpochId(ParseRequiredError::Other(ParseCryptoHashError))
    ));
    a.epoch_id = Some(good_hash());
    assert!(matches!(read(&a), ParseAccountDataError::Timestamp(ParseRequiredError::Missing)));
    a.timestamp = Some(proto::Timestamp { seconds: MAX_SECONDS + 1, nanos: 0 });
    assert!(matches!(read(&a), ParseAccountDataError::Timestamp(ParseRequiredError::Other(_))));
    a.timestamp = Some(proto::Timestamp { seconds: MAX_SECONDS, nanos: 0 });
    assert!(AccountData::try_from(&account_payload(a)).is_ok());
}

// ----- owned accounts --------------------------------------------------

#[test]
fn owned_account_is_read() {
    let d = OwnedAccount::try_from(&owned_payload(good_owned_account())).unwrap();
    assert_eq!(d.account_key.borsh, key(1, 64).borsh);
    assert_eq!(d.peer_id.borsh, good_key().borsh);
    assert_eq!(d.timestamp, Utc { seconds: 1, nanos: 0 });
    let p = proto::AccountKeyPayload::from_owned_account(&d);
    let o = match &p.payload_type {
        Some(proto::PayloadType::OwnedAccount(o)) => o,
        other => panic!("{other:?}"),
    };
    assert_eq!(o.account_key.as_ref().unwrap().borsh, key(1, 64).borsh);
    assert_eq!(o.peer_id.as_ref().unwrap().borsh, good_key().borsh);
    assert_eq!(o.timestamp, Some(proto::Timestamp { seconds: 1, nanos: 0 }));
    assert!(OwnedAccount::try_from(&p).is_ok());
}

#[test]
fn owned_account_faults_in_order() {
    let none = proto::AccountKeyPayload { payload_type: None };
    assert!(matches!(OwnedAccount::try_from(&none), Err(ParseOwnedAccountError::BadPayloadType)));
    let other = account_payload(good_account_data());
    assert!(matches!(OwnedAccount::try_from(&other), Err(ParseOwnedAccountError::BadPayloadType)));
    let read = |account_key, peer_id, timestamp| {
        OwnedAccount::try_from(&owned_payload(proto::OwnedAccount {
            account_key,
            peer_id,
            timestamp,
        }))
        .unwrap_err()
    };
    assert!(matches!(
        read(None, None, None),
        ParseOwnedAccountError::AccountKey(ParseRequiredError::Missing)
    ));
    assert!(matches!(
        read(Some(key(0, 31)), None, None),
        ParseOwnedAccountError::AccountKey(ParseRequiredError::Other(_))
    ));
    assert!(matches!(
        read(Some(good_key()), None, None),
        ParseOwnedAccountError::PeerId(ParseRequiredError::Missing)
    ));
    assert!(matches!(
        read(Some(good_key()), Some(key(1, 32)), None),
        ParseOwnedAccountError::PeerId(ParseRequiredError::Other(_))
    ));
    assert!(matches!(
        read(Some(good_key()), Some(good_key()), None),
        ParseOwnedAccountError::Timestamp(ParseRequiredError::Missing)
    ));
    let late = proto::Timestamp { seconds: MIN_SECONDS - 1, nanos: 0 };
    assert!(matches!(
        read(Some(good_key()), Some(good_key()), Some(late)),
        ParseOwnedAccountError::Timestamp(ParseRequiredError::Other(_))
    ));
}

// ----- signed payloads -------------------------------------------------

fn signed(signature: Option<proto::Signature>) -> proto::AccountKeySignedPayload {
    proto::AccountKeySignedPayload { payload: vec![1, 2, 3, 4], signature }
}

#[test]
fn signed_payload_is_read() {
    let x = signed(Some(good_signature()));
    let p = AccountKeySignedPayload::try_from(&x).unwrap();
    assert_eq!(p.payload, vec![1, 2, 3, 4]);
    assert_eq!(p.signature.borsh, good_signature().borsh);
    let back = p.to_proto();
    assert_eq!(back.payload, x.payload);
    assert_eq!(back.signature.unwrap().borsh, good_signature().borsh);
    assert!(matches!(
        AccountKeySignedPayload::try_from(&signed(None)),
        Err(ParseRequiredError::Missing)
    ));
    let mut bad = good_signature();
    bad.borsh[64] = 0xff;
    assert!(matches!(
        AccountKeySignedPayload::try_from(&signed(Some(bad))),
        Err(ParseRequiredError::Other(_))
    ));
}

#[test]
fn signed_account_data_is_read() {
    let x = signed(Some(good_signature()));
    let s = SignedAccountData::try_from(Ok(account_payload(good_account_data())), &x).unwrap();
    assert_eq!(s.account_data.account_id.name, "alex-skidanov");
    assert_eq!(s.payload.payload, vec![1, 2, 3, 4]);
    assert_eq!(s.payload.signature.borsh, good_signature().borsh);
    let back = proto::AccountKeySignedPayload::from_signed_account_data(&s);
    assert_eq!(back.payload, x.payload);
    assert_eq!(back.signature.unwrap().borsh, good_signature().borsh);
}

#[test]
fn signed_account_data_faults_in_order() {
    // Nothing decoded and no signature: the decoding decides.
    match SignedAccountData::try_from(Err(decode_failure()), &signed(None)) {
        Err(ParseSignedAccountDataError::Decode(e)) => {
            assert_eq!(e.to_string(), "cut short")
        }
        other => panic!("{other:?}"),
    }
    // The wrong payload and no signature: the payload decides.
    assert!(matches!(
        SignedAccountData::try_from(Ok(owned_payload(good_owned_account())), &signed(None)),
        Err(ParseSignedAccountDataError::AccountData(ParseAccountDataError::BadPayloadType))
    ));
    let mut a = good_account_data();
    a.epoch_id = None;
    assert!(matches!(
        SignedAccountData::try_from(Ok(account_payload(a)), &signed(Some(good_signature()))),
        Err(ParseSignedAccountDataError::AccountData(ParseAccountDataError::EpochId(
            ParseRequiredError::Missing
        )))
    ));
    assert!(matches!(
        SignedAccountData::try_from(Ok(account_payload(good_account_data())), &signed(None)),
        Err(ParseSignedAccountDataError::Signature(ParseRequiredError::Missing))
    ));
    let bad = proto::Signature { borsh: vec![0; 64] };
    assert!(matches!(
        SignedAccountData::try_from(Ok(account_payload(good_account_data())), &signed(Some(bad))),
        Err(ParseSignedAccountDataError::Signature(ParseRequiredError::Other(_)))
    ));
}

#[test]
fn signed_owned_account_is_read() {
    let x = signed(Some(good_signature()));
    let s = SignedOwnedAccount::try_from(Ok(owned_payload(good_owned_account())), &x).unwrap();
    assert_eq!(s.owned_account.account_key.borsh, key(1, 64).borsh);
    assert_eq!(s.payload.payload, vec![1, 2, 3, 4]);
    let back = proto::AccountKeySignedPayload::from_signed_owned_account(&s);
    assert_eq!(back.payload, x.payload);
    assert_eq!(back.signature.unwrap().borsh, good_signature().borsh);
}

#[test]
fn signed_owned_account_faults_in_order() {
    assert!(matches!(
        SignedOwnedAccount::try_from(Err(decode_failure()), &signed(None)),
        Err(ParseSignedOwnedAccountError::Decode(_))
    ));
    assert!(matches!(
        SignedOwnedAccount::try_from(Ok(account_payload(good_account_data())), &signed(None)),
        Err(ParseSignedOwnedAccountError::OwnedAccount(ParseOwnedAccountError::BadPayloadType))
    ));
    let mut o = good_owned_account();
    o.peer_id = None;
    assert!(matches!(
        SignedOwnedAccount::try_from(Ok(owned_payload(o)), &signed(None)),
        Err(ParseSignedOwnedAccountError::OwnedAccount(ParseOwnedAccountError::PeerId(
            ParseRequiredError::Missing
        )))
    ));
    assert!(matches!(
        SignedOwnedAccount::try_from(Ok(owned_payload(good_owned_account())), &signed(None)),
        Err(ParseSignedOwnedAccountError::Signature(ParseRequiredError::Missing))
    ));
    let bad = proto::Signature { borsh: vec![1; 65] };
    assert!(matches!(
        SignedOwnedAccount::try_from(
            Ok(owned_payload(good_owned_account())),
            &signed(Some(bad))
        ),
        Err(ParseSignedOwnedAccountError::Signature(ParseRequiredError::Other(_)))
    ));
}
