//! The address of a connected client, held as plain octets so that both the
//! protocol engine and the DNS helpers can reason about it.

use vstd::prelude::*;

verus! {

/// An IP address as plain octets
#[derive(Clone, Copy, Debug, PartialEq, Eq)]
pub enum IpAddress {
    /// An IPv4 address: the four dotted-quad octets in order
    V4(u8, u8, u8, u8),
    /// An IPv6 address: the sixteen octets in network order
    V6([u8; 16]),
}

} // verus!
