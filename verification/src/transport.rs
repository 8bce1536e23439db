//! What is handed to the HTTP transport: where a message goes, how long it may
//! take, and what it carries. Sending is the caller's business; each message is
//! sent on its own, its failure is logged and nothing waits for it.

use vstd::prelude::*;
use vstd::string::*;
use crate::model::{Ipv4Address, PeerDevice, SyncRequest, SyncResponse};
use crate::text::{decimal, decimal_string};

verus! {

/// Seconds allowed for a short message.
pub const QUICK_TIMEOUT_SECS: u64 = 5;

/// Seconds allowed for a message that carries a note with its attachments.
pub const BULK_TIMEOUT_SECS: u64 = 60;

/// The largest request body that the sync endpoint accepts: 50 MiB.
pub const MAX_BODY_BYTES: usize = 52428800;

/// The path on which proposals are received.
pub open spec fn request_path() -> Seq<char> {
    "/sync/request"@
}

/// The path on which decisions are received.
pub open spec fn response_path() -> Seq<char> {
    "/sync/response"@
}

/// An IPv4 address in dotted decimal.
pub open spec fn ipv4_text(ip: Ipv4Address) -> Seq<char> {
    decimal(ip.a as nat) + "."@ + decimal(ip.b as nat) + "."@ + decimal(ip.c as nat) + "."@
        + decimal(ip.d as nat)
}

/// The URL of `path` on the endpoint at `ip` and `port`.
pub open spec fn endpoint_url(ip: Ipv4Address, port: u16, path: Seq<char>) -> Seq<char> {
    "http://"@ + ipv4_text(ip) + ":"@ + decimal(port as nat) + path
}

/// Writes an IPv4 address in dotted decimal.
pub fn format_ipv4(ip: Ipv4Address) -> (r: String)
    ensures
        r@ == ipv4_text(ip),
{
    let mut r: String = decimal_string(ip.a as u64);
    r.append(".");
    r.append(decimal_string(ip.b as u64).as_str());
    r.append(".");
    r.append(decimal_string(ip.c as u64).as_str());
    r.append(".");
    r.append(decimal_string(ip.d as u64).as_str());
    r
}

/// Writes the URL of `path` on the endpoint at `ip` and `port`.
pub fn format_endpoint_url(ip: Ipv4Address, port: u16, path: &str) -> (r: String)
    ensures
        r@ == endpoint_url(ip, port, path@),
{
    let mut r: String = String::from_str("http://");
    r.append(format_ipv4(ip).as_str());
    r.append(":");
    r.append(decimal_string(port as u64).as_str());
    r.append(path);
    r
}

/// Where `peer` receives proposals.
pub fn sync_request_url(peer: &PeerDevice) -> (r: String)
    ensures
        r@ == endpoint_url(peer.ip, peer.port, request_path()),
{
    format_endpoint_url(peer.ip, peer.port, "/sync/request")
}

/// Where `peer` receives decisions.
pub fn sync_response_url(peer: &PeerDevice) -> (r: String)
    ensures
        r@ == endpoint_url(peer.ip, peer.port, response_path()),
{
    format_endpoint_url(peer.ip, peer.port, "/sync/response")
}

/// How a message is to be sent.
#[derive(Clone, Copy, Debug, PartialEq, Eq, Structural)]
pub struct DeliveryPolicy {
    /// The request is given up after this many seconds.
    pub timeout_secs: u64,
    /// The message travels on a connection of its own, which is not kept for
    /// later messages, so that a slow transfer holds up no other.
    pub own_connection: bool,
}

impl DeliveryPolicy {
    /// For short messages: five seconds, on a shared connection.
    pub open spec fn quick_spec() -> DeliveryPolicy {
        DeliveryPolicy { timeout_secs: QUICK_TIMEOUT_SECS, own_connection: false }
    }

    /// For notes with attachments: a minute, on a connection of its own.
    pub open spec fn bulk_spec() -> DeliveryPolicy {
        DeliveryPolicy { timeout_secs: BULK_TIMEOUT_SECS, own_connection: true }
    }

    pub fn quick() -> (r: DeliveryPolicy)
        ensures
            r == DeliveryPolicy::quick_spec(),
    {
        DeliveryPolicy { timeout_secs: QUICK_TIMEOUT_SECS, own_connection: false }
    }

    pub fn bulk() -> (r: DeliveryPolicy)
        ensures
            r == DeliveryPolicy::bulk_spec(),
    {
        DeliveryPolicy { timeout_secs: BULK_TIMEOUT_SECS, own_connection: true }
    }
}

/// A proposal on its way to a peer.
#[derive(Debug)]
pub struct ProposalTransmission {
    pub url: String,
    pub policy: DeliveryPolicy,
    pub request: SyncRequest,
}

/// A decision on its way back to the peer that proposed.
#[derive(Debug)]
pub struct ResponseTransmission {
    pub url: String,
    pub policy: DeliveryPolicy,
    pub response: SyncResponse,
}

} // verus!
