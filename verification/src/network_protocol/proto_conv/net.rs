//! Addresses of peers.

use crate::network_protocol::proto;
use crate::network_protocol::proto_conv::crypto::{ParsePublicKeyError, public_key_encoding};
use crate::network_protocol::proto_conv::util::{ParseRequiredError, ParseVecError, copy_bytes};
use crate::network_protocol::types::{PeerAddr, PeerId, SocketAddr};
use vstd::prelude::*;

verus! {

/// Why a socket address was rejected.
#[derive(Clone, Copy, Debug, PartialEq, Eq, Structural)]
pub enum ParseSocketAddrError {
    /// The address has neither 4 nor 16 bytes.
    InvalidIP,
    /// The port does not fit in 16 bits.
    InvalidPort,
}

/// Why the address of a peer was rejected.
#[derive(Debug)]
pub enum ParsePeerAddrError {
    Addr(ParseRequiredError<ParseSocketAddrError>),
    PeerId(ParseRequiredError<ParsePublicKeyError>),
}

/// What is wrong with a socket address on the wire, if anything: the
/// address is looked at before the port.
pub open spec fn socket_addr_fault(x: proto::SocketAddr) -> Option<ParseSocketAddrError> {
    if x.ip@.len() != 4 && x.ip@.len() != 16 {
        Some(ParseSocketAddrError::InvalidIP)
    } else if x.port > u16::MAX {
        Some(ParseSocketAddrError::InvalidPort)
    } else {
        None
    }
}

impl SocketAddr {
    /// `self` is what `x` says.
    pub open spec fn corresponds(&self, x: proto::SocketAddr) -> bool {
        self.ip@ == x.ip@ && self.port == x.port
    }

    /// Reads a socket address from its wire form.
    pub fn try_from(x: &proto::SocketAddr) -> (res: Result<SocketAddr, ParseSocketAddrError>)
        ensures
            match res {
                Ok(a) => socket_addr_fault(*x) is None && a.corresponds(*x) && a.wf(),
                Err(e) => socket_addr_fault(*x) == Some(e),
            },
    {
        if x.ip.len() != 4 && x.ip.len() != 16 {
            return Err(ParseSocketAddrError::InvalidIP);
        }
        if x.port > 65535 {
            return Err(ParseSocketAddrError::InvalidPort);
        }
        Ok(SocketAddr { ip: copy_bytes(&x.ip), port: x.port as u16 })
    }

    /// The wire form of a socket address.
    pub fn to_proto(&self) -> (x: proto::SocketAddr)
        ensures
            self.corresponds(x),
    {
        proto::SocketAddr { ip: copy_bytes(&self.ip), port: self.port as u32 }
    }
}

/// Whether the wire form of a peer's address can be read.
pub open spec fn peer_addr_ok(x: proto::PeerAddr) -> bool {
    &&& x.addr matches Some(a)
    &&& socket_addr_fault(a) is None
    &&& x.peer_id matches Some(k)
    &&& public_key_encoding(k.borsh@)
}

impl ParsePeerAddrError {
    /// `self` is the fault of `x` that is found first: the address is
    /// looked at before the peer.
    pub open spec fn describes(self, x: proto::PeerAddr) -> bool {
        match self {
            ParsePeerAddrError::Addr(ParseRequiredError::Missing) => x.addr is None,
            ParsePeerAddrError::Addr(ParseRequiredError::Other(e)) => {
                &&& x.addr matches Some(a)
                &&& socket_addr_fault(a) == Some(e)
            },
            ParsePeerAddrError::PeerId(ParseRequiredError::Missing) => {
                &&& x.addr matches Some(a)
                &&& socket_addr_fault(a) is None
                &&& x.peer_id is None
            },
            ParsePeerAddrError::PeerId(ParseRequiredError::Other(_)) => {
                &&& x.addr matches Some(a)
                &&& socket_addr_fault(a) is None
                &&& x.peer_id matches Some(k)
                &&& !public_key_encoding(k.borsh@)
            },
        }
    }
}

impl PeerAddr {
    /// `self` is what `x` says.
    pub open spec fn corresponds(&self, x: proto::PeerAddr) -> bool {
        &&& x.addr matches Some(a)
        &&& self.addr.corresponds(a)
        &&& x.peer_id matches Some(k)
        &&& self.peer_id.borsh@ == k.borsh@
    }

    /// Reads the address of a peer from its wire form.
    pub fn try_from(x: &proto::PeerAddr) -> (res: Result<PeerAddr, ParsePeerAddrError>)
        ensures
            res is Ok == peer_addr_ok(*x),
            match res {
                Ok(p) => p.corresponds(*x) && p.wf(),
                Err(e) => e.describes(*x),
            },
    {
        let addr = match &x.addr {
            None => {
                return Err(ParsePeerAddrError::Addr(ParseRequiredError::Missing));
            },
            Some(a) => match SocketAddr::try_from(a) {
                Ok(addr) => addr,
                Err(e) => {
                    return Err(ParsePeerAddrError::Addr(ParseRequiredError::Other(e)));
                },
            },
        };
        let peer_id = match &x.peer_id {
            None => {
                return Err(ParsePeerAddrError::PeerId(ParseRequiredError::Missing));
            },
            Some(k) => match PeerId::try_from(k) {
                Ok(peer_id) => peer_id,
                Err(e) => {
                    return Err(ParsePeerAddrError::PeerId(ParseRequiredError::Other(e)));
                },
            },
        };
        Ok(PeerAddr { addr, peer_id })
    }

    /// The wire form of the address of a peer.
    pub fn to_proto(&self) -> (x: proto::PeerAddr)
        ensures
            self.corresponds(x),
    {
        proto::PeerAddr { addr: Some(self.addr.to_proto()), peer_id: Some(self.peer_id.to_proto()) }
    }
}

/// Whether `ps` is what `xs` says, element by element.
pub open spec fn peers_correspond(ps: Seq<PeerAddr>, xs: Seq<proto::PeerAddr>) -> bool {
    &&& ps.len() == xs.len()
    &&& forall|i: int| 0 <= i < ps.len() ==> (#[trigger] ps[i]).corresponds(xs[i])
}

/// Whether every one of `xs` can be read.
pub open spec fn peers_ok(xs: Seq<proto::PeerAddr>) -> bool {
    forall|i: int| 0 <= i < xs.len() ==> peer_addr_ok(#[trigger] xs[i])
}

/// `e` names the first of `xs` that cannot be read, and its fault.
pub open spec fn first_fault(e: ParseVecError<ParsePeerAddrError>, xs: Seq<proto::PeerAddr>) -> bool {
    &&& e.idx < xs.len()
    &&& e.source.describes(xs[e.idx as int])
    &&& !peer_addr_ok(xs[e.idx as int])
    &&& forall|j: int| 0 <= j < e.idx ==> peer_addr_ok(#[trigger] xs[j])
}

pub open spec fn peers_wf(ps: Seq<PeerAddr>) -> bool {
    forall|i: int| 0 <= i < ps.len() ==> (#[trigger] ps[i]).wf()
}

/// Reads the addresses of peers from their wire forms, in order, up to
/// the first that is rejected.
pub fn try_from_slice(xs: &Vec<proto::PeerAddr>) -> (res: Result<
    Vec<PeerAddr>,
    ParseVecError<ParsePeerAddrError>,
>)
    ensures
        res is Ok == peers_ok(xs@),
        match res {
            Ok(ps) => peers_correspond(ps@, xs@) && peers_wf(ps@),
            Err(e) => first_fault(e, xs@),
        },
{
    let mut ps: Vec<PeerAddr> = Vec::new();
    let mut i: usize = 0;
    while i < xs.len()
        invariant
            i <= xs.len(),
            ps@.len() == i,
            forall|j: int| 0 <= j < i ==> (#[trigger] ps@[j]).corresponds(xs@[j]),
            forall|j: int| 0 <= j < i ==> (#[trigger] ps@[j]).wf(),
            forall|j: int| 0 <= j < i ==> peer_addr_ok(#[trigger] xs@[j]),
        decreases xs.len() - i,
    {
        match PeerAddr::try_from(&xs[i]) {
            Ok(p) => {
                ps.push(p);
            },
            Err(e) => {
                return Err(ParseVecError { idx: i, source: e });
            },
        }
        i = i + 1;
    }
    Ok(ps)
}

/// The wire forms of the addresses of peers, in order.
pub fn to_proto_vec(ps: &Vec<PeerAddr>) -> (xs: Vec<proto::PeerAddr>)
    ensures
        peers_correspond(ps@, xs@),
{
    let mut xs: Vec<proto::PeerAddr> = Vec::new();
    let mut i: usize = 0;
    while i < ps.len()
        invariant
            i <= ps.len(),
            xs@.len() == i,
            forall|j: int| 0 <= j < i ==> (#[trigger] ps@[j]).corresponds(xs@[j]),
        decreases ps.len() - i,
    {
        xs.push(ps[i].to_proto());
        i = i + 1;
    }
    xs
}

} // verus!
