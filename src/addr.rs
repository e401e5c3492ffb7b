//! Socket addresses as plain values: the IP as an integer and the port.
use vstd::prelude::*;

verus! {

/// An IP address: IPv4 as its 32-bit value, IPv6 as its 128-bit value.
#[derive(Debug, Clone, Copy, PartialEq, Eq, Structural, Hash)]
pub enum IpAddress {
    V4(u32),
    V6(u128),
}

/// A peer's socket address.
#[derive(Debug, Clone, Copy, PartialEq, Eq, Structural, Hash)]
pub struct PeerAddr {
    pub ip: IpAddress,
    pub port: u16,
}

/// The order of socket addresses: IPv4 before IPv6, then by IP value, then by port.
pub open spec fn addr_lt(a: PeerAddr, b: PeerAddr) -> bool {
    match (a.ip, b.ip) {
        (IpAddress::V4(_), IpAddress::V6(_)) => true,
        (IpAddress::V6(_), IpAddress::V4(_)) => false,
        (IpAddress::V4(x), IpAddress::V4(y)) => x < y || (x == y && a.port < b.port),
        (IpAddress::V6(x), IpAddress::V6(y)) => x < y || (x == y && a.port < b.port),
    }
}

pub proof fn lemma_addr_lt_order(a: PeerAddr, b: PeerAddr, c: PeerAddr)
    ensures
        !addr_lt(a, a),
        addr_lt(a, b) && addr_lt(b, c) ==> addr_lt(a, c),
        a != b ==> addr_lt(a, b) || addr_lt(b, a),
        addr_lt(a, b) ==> !addr_lt(b, a),
{
}

impl PeerAddr {
    /// Compares two addresses in the order of `addr_lt`.
    pub fn less_than(&self, other: &PeerAddr) -> (r: bool)
        ensures
            r == addr_lt(*self, *other),
    {
        match (self.ip, other.ip) {
            (IpAddress::V4(_), IpAddress::V6(_)) => true,
            (IpAddress::V6(_), IpAddress::V4(_)) => false,
            (IpAddress::V4(x), IpAddress::V4(y)) => x < y || (x == y && self.port < other.port),
            (IpAddress::V6(x), IpAddress::V6(y)) => x < y || (x == y && self.port < other.port),
        }
    }

    pub fn port(&self) -> (r: u16)
        ensures
            r == self.port,
    {
        self.port
    }
}

} // verus!
