//! Plain models of IP addresses and socket addresses, with the order that
//! the standard library gives `IpAddr`.

use vstd::prelude::*;

verus! {

/// An IPv4 or IPv6 address, held as the big-endian number of its octets.
#[derive(Clone, Copy, Debug, PartialEq, Eq, Structural)]
pub enum IpAddress {
    V4(u32),
    V6(u128),
}

/// An IP address and a port.
#[derive(Clone, Copy, Debug, PartialEq, Eq, Structural)]
pub struct SockAddr {
    pub ip: IpAddress,
    pub port: u16,
}

/// Within each family addresses are ordered as their numbers are, and
/// every IPv4 address comes before every IPv6 address.
pub proof fn law_ip_order_numeric(x: u128, y: u128, a: u32, b: u32)
    ensures
        ip_le(IpAddress::V6(x), IpAddress::V6(y)) <==> x <= y,
        ip_le(IpAddress::V4(a), IpAddress::V4(b)) <==> a <= b,
        ip_le(IpAddress::V4(a), IpAddress::V6(x)),
        !ip_le(IpAddress::V6(x), IpAddress::V4(a)),
{
}

/// The order of addresses is a total order: reflexive, antisymmetric,
/// transitive and total.
pub proof fn law_ip_order_total(a: IpAddress, b: IpAddress, c: IpAddress)
    ensures
        ip_le(a, a),
        ip_le(a, b) && ip_le(b, a) ==> a == b,
        ip_le(a, b) && ip_le(b, c) ==> ip_le(a, c),
        ip_le(a, b) || ip_le(b, a),
{
}

/// The order of `IpAddr`: every IPv4 address comes before every IPv6
/// address, and addresses of one family are ordered by their octets.
pub open spec fn ip_le(a: IpAddress, b: IpAddress) -> bool {
    match (a, b) {
        (IpAddress::V4(x), IpAddress::V4(y)) => x <= y,
        (IpAddress::V4(_), IpAddress::V6(_)) => true,
        (IpAddress::V6(_), IpAddress::V4(_)) => false,
        (IpAddress::V6(x), IpAddress::V6(y)) => x <= y,
    }
}

/// Whether `a` comes no later than `b`; see [`ip_le`].
pub fn ip_less_eq(a: IpAddress, b: IpAddress) -> (r: bool)
    ensures
        r == ip_le(a, b),
{
    match (a, b) {
        (IpAddress::V4(x), IpAddress::V4(y)) => x <= y,
        (IpAddress::V4(_), IpAddress::V6(_)) => true,
        (IpAddress::V6(_), IpAddress::V4(_)) => false,
        (IpAddress::V6(x), IpAddress::V6(y)) => x <= y,
    }
}

} // verus!
