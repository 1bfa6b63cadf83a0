//! Network addresses as plain values.

use vstd::prelude::*;

verus! {

/// An IP address: an IPv4 address as its 32 bits, an IPv6 address as its 128 bits
/// (most significant first, as `Ipv4Addr::to_bits` and `Ipv6Addr::to_bits` give them).
/// Two addresses are equal when they are of the same family and have the same bits.
#[derive(Clone, Copy, Debug, PartialEq, Eq, Structural)]
pub enum IpAddress {
    V4(u32),
    V6(u128),
}

/// A socket address: an IP address and a port, with the flow label and scope id
/// that an IPv6 socket address carries (both zero for IPv4).
#[derive(Clone, Copy, Debug, PartialEq, Eq, Structural)]
pub struct SocketAddress {
    pub ip: IpAddress,
    pub port: u16,
    pub flowinfo: u32,
    pub scope_id: u32,
}

impl SocketAddress {
    /// The port of the address.
    pub fn port(&self) -> (port: u16)
        ensures
            port == self.port,
    {
        self.port
    }

    /// The same address with another port.
    pub fn with_port(&self, port: u16) -> (addr: SocketAddress)
        ensures
            addr == (SocketAddress { port, ..*self }),
    {
        SocketAddress { port, ..*self }
    }
}

} // verus!
