//! Network addresses as plain values.

use vstd::prelude::*;

verus! {

/// An IP address with its port, as the socket layer reports it.
#[derive(Clone, Copy, Debug, PartialEq, Eq)]
#[allow(inconsistent_fields)]
pub enum SocketAddress {
    V4 { octets: [u8; 4], port: u16 },
    V6 { octets: [u8; 16], port: u16, flowinfo: u32, scope_id: u32 },
}

/// A path: the local address and the peer's address.
pub type PathIdentity = (SocketAddress, SocketAddress);

impl SocketAddress {
    /// The octets of the IP address: four for IPv4, sixteen for IPv6.
    pub open spec fn ip_octets(self) -> Seq<u8> {
        match self {
            SocketAddress::V4 { octets, .. } => octets@,
            SocketAddress::V6 { octets, .. } => octets@,
        }
    }

    /// The octets of the IP address.
    pub fn ip(&self) -> (r: Vec<u8>)
        ensures
            r@ == self.ip_octets(),
            r@.len() == 4 || r@.len() == 16,
    {
        let mut r: Vec<u8> = Vec::new();
        match self {
            SocketAddress::V4 { octets, .. } => {
                let mut i: usize = 0;
                while i < 4
                    invariant
                        i <= 4,
                        r@ == octets@.take(i as int),
                    decreases 4 - i,
                {
                    r.push(octets[i]);
                    i += 1;
                }
                assert(octets@.take(4) == octets@);
            },
            SocketAddress::V6 { octets, .. } => {
                let mut i: usize = 0;
                while i < 16
                    invariant
                        i <= 16,
                        r@ == octets@.take(i as int),
                    decreases 16 - i,
                {
                    r.push(octets[i]);
                    i += 1;
                }
                assert(octets@.take(16) == octets@);
            },
        }
        r
    }

    /// The port.
    pub fn port(&self) -> (r: u16)
        ensures
            r == match *self {
                SocketAddress::V4 { port, .. } => port,
                SocketAddress::V6 { port, .. } => port,
            },
    {
        match self {
            SocketAddress::V4 { port, .. } => *port,
            SocketAddress::V6 { port, .. } => *port,
        }
    }
}

} // verus!
