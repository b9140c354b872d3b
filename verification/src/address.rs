//! Socket addresses as plain values.

use vstd::prelude::*;

verus! {

/// The network address of a UDP peer: an IP address with a port.
///
/// An IPv4 address is held as its four octets read as one big-endian number,
/// an IPv6 address as its sixteen octets read the same way. Two addresses are
/// the same peer exactly when all their parts agree.
#[derive(Clone, Copy, Debug, PartialEq, Eq, Structural)]
pub enum SocketAddress {
    V4 { ip: u32, port: u16 },
    V6 { ip: u128, port: u16, flowinfo: u32, scope_id: u32 },
}

impl SocketAddress {
    /// The port of the address.
    pub open spec fn spec_port(self) -> u16 {
        match self {
            SocketAddress::V4 { port, .. } => port,
            SocketAddress::V6 { port, .. } => port,
        }
    }

    /// `0.0.0.0:0`: any local IPv4 interface, with a port the operating
    /// system picks when the socket is bound.
    pub fn ephemeral() -> (local: SocketAddress)
        ensures
            local == (SocketAddress::V4 { ip: 0, port: 0 }),
    {
        SocketAddress::V4 { ip: 0, port: 0 }
    }

    /// The port of the address.
    #[verifier::when_used_as_spec(spec_port)]
    pub fn port(self) -> (port: u16)
        ensures
            port == self.spec_port(),
    {
        match self {
            SocketAddress::V4 { port, .. } => port,
            SocketAddress::V6 { port, .. } => port,
        }
    }
}

} // verus!
