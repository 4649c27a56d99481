//! The IPv4 socket endpoint: family, port and address in network byte
//! order. The kernel's layout pads this with eight zero bytes; the padding
//! carries no information, so whoever builds the kernel structure supplies
//! it.

use vstd::prelude::*;

verus! {

/// An IPv4 socket address. `sin_port` and `sin_addr` are in network byte
/// order, as the kernel expects them.
#[derive(Clone, Copy, PartialEq, Eq, Structural, Debug)]
pub struct SockAddrIn {
    /// The address family; `AF_INET` for these addresses.
    pub sin_family: u16,
    /// The port, in network byte order.
    pub sin_port: u16,
    /// The IPv4 address, in network byte order.
    pub sin_addr: u32,
}

/// The value of the `AF_INET` address family.
pub const AF_INET: u16 = 2;

/// Convert a port number from host byte order to network byte order: the two
/// bytes swap places.
pub fn htons(u: u16) -> (r: u16)
    ensures
        r == (u % 256) * 256 + u / 256,
{
    (u % 256) * 256 + u / 256
}

} // verus!
