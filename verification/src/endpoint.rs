//! Endpoint identity: the (IP address, UDP port) pair that keys the
//! session table.
//!
//! Both IPv4 and IPv6 representations are supported, but the wire
//! address codec is IPv4-specific and rejects IPv6 explicitly rather
//! than silently truncating it.

use vstd::prelude::*;

verus! {

/// An IP address: four IPv4 octets, or eight 16-bit IPv6 segments.
#[derive(Clone, Copy, Debug, PartialEq, Eq, Hash, Structural)]
pub enum IpAddress {
    V4(u8, u8, u8, u8),
    V6(u16, u16, u16, u16, u16, u16, u16, u16),
}

/// A remote endpoint: an (IP address, UDP port) pair.
#[derive(Clone, Copy, Debug, PartialEq, Eq, Hash, Structural)]
pub struct Endpoint {
    pub ip: IpAddress,
    pub port: u16,
}

impl Endpoint {
    /// An IPv4 endpoint from its four octets and port.
    pub fn v4(a: u8, b: u8, c: u8, d: u8, port: u16) -> (r: Endpoint)
        ensures
            r == (Endpoint { ip: IpAddress::V4(a, b, c, d), port }),
    {
        Endpoint { ip: IpAddress::V4(a, b, c, d), port }
    }

    /// The unspecified IPv4 endpoint `0.0.0.0:0`, used as a placeholder
    /// system address in the online handshake reply.
    pub fn any_v4() -> (r: Endpoint)
        ensures
            r == (Endpoint { ip: IpAddress::V4(0, 0, 0, 0), port: 0u16 }),
    {
        Endpoint { ip: IpAddress::V4(0, 0, 0, 0), port: 0 }
    }

    /// Whether this endpoint carries an IPv4 address.
    pub fn is_v4(&self) -> (r: bool)
        ensures
            r == (self.ip is V4),
    {
        match self.ip {
            IpAddress::V4(..) => true,
            IpAddress::V6(..) => false,
        }
    }
}

} // verus!
