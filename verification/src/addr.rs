//! The peer endpoint as the registries read it.  The unverified shell
//! converts between this plain representation and its socket-address type.

use vstd::prelude::*;

verus! {

/// One peer's UDP endpoint: the IP address as an integer (an IPv4 address in
/// the low 32 bits, an IPv6 address in all 128) and the UDP port.  Two
/// endpoints are the same flow exactly when all three fields agree.
#[derive(Clone, Copy, Debug, PartialEq, Eq, Hash, Structural)]
pub struct Addr {
    /// Whether the address is IPv6; an IPv4 address and its IPv6-mapped form
    /// stay distinct, as the shell's socket addresses do.
    pub is_v6: bool,
    /// The IP address packed into an integer.
    pub ip: u128,
    /// The UDP port.
    pub port: u16,
}

} // verus!
