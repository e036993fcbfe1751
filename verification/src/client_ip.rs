//! Client identity: the address under which requests are grouped.

use crate::text::{before_first, first_field, trim, trimmed};
use vstd::prelude::*;

verus! {

/// An IP address, the unit of rate-limiting granularity.
///
/// `V4` holds the four octets and `V6` the sixteen octets of the address as
/// one big-endian integer. A version-four address and the version-six address
/// that embeds it are different identities.
#[derive(Clone, Copy, Debug, PartialEq, Eq, Hash, Structural)]
pub enum ClientIdentity {
    V4(u32),
    V6(u128),
}

/// The bits of `127.0.0.1`.
pub const LOOPBACK_V4: u32 = 0x7f00_0001;

/// The identity shared by every request that carries no usable address.
pub open spec fn fallback_identity() -> ClientIdentity {
    ClientIdentity::V4(LOOPBACK_V4)
}

/// The text of a forwarded-for header that may hold the client's address:
/// what stands before the first comma, without the white space around it.
/// Later entries, the hops of the proxy chain, are not looked at.
pub open spec fn forwarded_text(value: Seq<char>) -> Seq<char> {
    trimmed(before_first(value, ','))
}

/// The address candidate of a forwarded-for header, to be parsed as an IP
/// address.
pub fn forwarded_candidate(value: &str) -> (candidate: &str)
    ensures
        candidate@ == forwarded_text(value@),
{
    trim(first_field(value, ','))
}

/// The address candidate of a real-ip header, to be parsed as an IP address:
/// the value without the white space around it.
pub fn real_ip_candidate(value: &str) -> (candidate: &str)
    ensures
        candidate@ == trimmed(value@),
{
    trim(value)
}

/// Which of the three address sources wins: the forwarded-for candidate, then
/// the real-ip candidate, then the transport peer.
pub open spec fn first_available(
    forwarded: Option<ClientIdentity>,
    real_ip: Option<ClientIdentity>,
    peer: Option<ClientIdentity>,
) -> Option<ClientIdentity> {
    if forwarded.is_some() {
        forwarded
    } else if real_ip.is_some() {
        real_ip
    } else {
        peer
    }
}

/// Picks the client address of a request from the addresses its three
/// sources gave, each `None` where the source was absent or did not parse.
pub fn extract_client_ip(
    forwarded: Option<ClientIdentity>,
    real_ip: Option<ClientIdentity>,
    peer: Option<ClientIdentity>,
) -> (ip: Option<ClientIdentity>)
    ensures
        ip == first_available(forwarded, real_ip, peer),
{
    if forwarded.is_some() {
        forwarded
    } else if real_ip.is_some() {
        real_ip
    } else {
        peer
    }
}

/// The identity a request is counted under: the extracted address, or the
/// loopback address where no source gave one.
pub fn identity_or_fallback(ip: Option<ClientIdentity>) -> (id: ClientIdentity)
    ensures
        id == match ip {
            Some(found) => found,
            None => fallback_identity(),
        },
{
    match ip {
        Some(found) => found,
        None => ClientIdentity::V4(LOOPBACK_V4),
    }
}

} // verus!
