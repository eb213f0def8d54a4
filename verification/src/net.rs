//! Socket addresses as plain values.

use vstd::prelude::*;

verus! {

/// Address of an IPv4 socket.
#[derive(Debug, Clone, Copy, PartialEq, Eq, Hash)]
pub struct SocketAddrV4 {
    /// Address, most significant byte first.
    pub ip: [u8; 4],
    /// Port.
    pub port: u16,
}

/// Address of an IPv6 socket.
#[derive(Debug, Clone, Copy, PartialEq, Eq, Hash)]
pub struct SocketAddrV6 {
    /// Address, most significant byte first.
    pub ip: [u8; 16],
    /// Port.
    pub port: u16,
    /// Flow information.
    pub flowinfo: u32,
    /// Scope identifier.
    pub scope_id: u32,
}

/// Address of a socket.
#[derive(Debug, Clone, Copy, PartialEq, Eq, Hash)]
pub enum SocketAddr {
    /// An IPv4 socket.
    V4(SocketAddrV4),
    /// An IPv6 socket.
    V6(SocketAddrV6),
}

} // verus!
