//! Network addresses as plain values.
use vstd::prelude::*;

verus! {

/// An IPv4 or IPv6 address, held as its numeric value.
#[derive(Debug, Clone, Copy, PartialEq, Eq, Structural)]
pub enum IpAddress {
    V4(u32),
    V6(u128),
}

impl IpAddress {
    /// The all-zero address of either family (`0.0.0.0` or `::`).
    pub open spec fn spec_is_unspecified(self) -> bool {
        match self {
            IpAddress::V4(v) => v == 0,
            IpAddress::V6(v) => v == 0,
        }
    }

    /// Whether this is the unspecified address of its family.
    pub fn is_unspecified(&self) -> (r: bool)
        ensures
            r == self.spec_is_unspecified(),
    {
        match self {
            IpAddress::V4(v) => *v == 0,
            IpAddress::V6(v) => *v == 0,
        }
    }
}

/// An IP address together with a port.
#[derive(Debug, Clone, Copy, PartialEq, Eq, Structural)]
pub struct SocketAddress {
    pub ip: IpAddress,
    pub port: u16,
}

/// The address family a socket is bound in.
#[derive(Debug, Clone, Copy, PartialEq, Eq, Structural)]
pub enum AddressFamily {
    V4,
    V6,
}

pub open spec fn spec_family_of(ip: IpAddress) -> AddressFamily {
    match ip {
        IpAddress::V4(_) => AddressFamily::V4,
        IpAddress::V6(_) => AddressFamily::V6,
    }
}

impl AddressFamily {
    /// The family of the given address.
    pub fn of(ip: IpAddress) -> (r: AddressFamily)
        ensures
            r == spec_family_of(ip),
    {
        match ip {
            IpAddress::V4(_) => AddressFamily::V4,
            IpAddress::V6(_) => AddressFamily::V6,
        }
    }
}

} // verus!
