//! Transports: what differs between them, and the byte protocols that run on
//! them.

pub mod framing;
pub mod laws;
pub mod proxy;
pub mod stream;

use vstd::prelude::*;

verus! {

/// A message from the network and where it came from.
#[derive(Debug)]
pub struct Datagram {
    /// One complete request or response.
    pub bytes: Vec<u8>,
    /// Source, `host:port`.
    pub peer: String,
}

/// The wire protocol of a transport.
#[derive(Clone, Copy, Debug, PartialEq, Eq, Hash, Structural)]
#[non_exhaustive]
pub enum TransportKind {
    /// UDP.
    Udp,
    /// TCP.
    Tcp,
    /// TLS over TCP.
    Tls,
}

impl TransportKind {
    /// `true` for transports that deliver every message, on which nothing must
    /// be retransmitted.
    #[must_use]
    pub fn is_reliable(self) -> (r: bool)
        ensures
            r == (self != TransportKind::Udp),
    {
        match self {
            TransportKind::Udp => false,
            TransportKind::Tcp | TransportKind::Tls => true,
        }
    }

    /// The token of the transport in a `Via` header.
    #[must_use]
    pub fn via_token(self) -> (r: &'static str)
        ensures
            r@ == match self {
                TransportKind::Udp => "UDP"@,
                TransportKind::Tcp => "TCP"@,
                TransportKind::Tls => "TLS"@,
            },
    {
        match self {
            TransportKind::Udp => "UDP",
            TransportKind::Tcp => "TCP",
            TransportKind::Tls => "TLS",
        }
    }
}

/// Where the certificate and the key of a TLS transport are.
#[derive(Clone, Debug)]
pub struct TlsPaths {
    /// Certificate chain.
    pub cert: String,
    /// Private key.
    pub key: String,
}

/// How the local address to publish is found.
#[derive(Debug)]
pub enum LocalIpPlan {
    /// The bound address is concrete: publish it.
    Bound(String),
    /// The bound address is a wildcard: ask the routing table, and publish
    /// this loopback address when it has no answer.
    AskRoute {
        /// Wildcard address of the peer's family, to bind for the question.
        unspecified: String,
        /// Loopback address of the peer's family.
        loopback: String,
    },
}

/// `plan` finds the local address to publish: the bound one, unless that is a
/// wildcard.
pub open spec fn is_local_plan(
    bind_ip: Seq<char>,
    bind_is_wildcard: bool,
    peer_is_v6: bool,
    plan: LocalIpPlan,
) -> bool {
    match plan {
        LocalIpPlan::Bound(ip) => !bind_is_wildcard && ip@ == bind_ip,
        LocalIpPlan::AskRoute { unspecified, loopback } => bind_is_wildcard && if peer_is_v6 {
            unspecified@ == "::"@ && loopback@ == "::1"@
        } else {
            unspecified@ == "0.0.0.0"@ && loopback@ == "127.0.0.1"@
        },
    }
}

/// Decides which local address to publish to a peer. `bind_is_wildcard` tells
/// whether the bound address `bind_ip` names no interface, `peer_is_v6` the
/// peer's address family.
pub fn local_ip_plan(bind_ip: &str, bind_is_wildcard: bool, peer_is_v6: bool) -> (r: LocalIpPlan)
    ensures
        is_local_plan(bind_ip@, bind_is_wildcard, peer_is_v6, r),
{
    if !bind_is_wildcard {
        LocalIpPlan::Bound(bind_ip.to_owned())
    } else if peer_is_v6 {
        LocalIpPlan::AskRoute { unspecified: "::".to_owned(), loopback: "::1".to_owned() }
    } else {
        LocalIpPlan::AskRoute {
            unspecified: "0.0.0.0".to_owned(),
            loopback: "127.0.0.1".to_owned(),
        }
    }
}

} // verus!
