//! IP addresses and prefixes as plain numbers.
//!
//! An address is the number whose most significant byte is the first byte of
//! the address: 32 bits for IPv4, 128 bits for IPv6. A prefix is an address
//! together with a length in bits. Reading them from text and testing
//! containment is left to `ipnet` and to the standard library's address
//! parser.

use vstd::prelude::*;

verus! {

/// The network mask of a prefix length: the top `len` bits set.
pub open spec fn netmask(len: u8) -> u32 {
    if len == 0 {
        0u32
    } else {
        0xffff_ffffu32 << ((32 - len) as u32)
    }
}

/// The host mask of a prefix length: all but the top `len` bits set.
pub open spec fn hostmask(len: u8) -> u32 {
    if len >= 32 {
        0u32
    } else {
        0xffff_ffffu32 >> (len as u32)
    }
}

/// The lowest address of a prefix.
pub open spec fn network_of(addr: u32, len: u8) -> u32 {
    addr & netmask(len)
}

/// The highest address of a prefix.
pub open spec fn broadcast_of(addr: u32, len: u8) -> u32 {
    addr | hostmask(len)
}

/// Whether the prefix `addr/len` contains the address `ip`.
pub open spec fn prefix_covers(addr: u32, len: u8, ip: u32) -> bool {
    network_of(addr, len) <= ip && ip <= broadcast_of(addr, len)
}

/// Asks `ipnet::Ipv4Net::contains` whether the network `addr/len` contains
/// the address `ip`.
///
/// `ipnet` answers that the address lies between the network address (the
/// address with the host bits cleared) and the broadcast address (the
/// address with the host bits set), both included. `Ipv4Net::new_assert`
/// panics on a length above 32, which the precondition rules out.
#[verifier::external_body]
pub(crate) fn net_contains(addr: u32, len: u8, ip: u32) -> (inside: bool)
    requires
        len <= 32,
    ensures
        inside == prefix_covers(addr, len, ip),
{
    ipnet::Ipv4Net::new_assert(core::net::Ipv4Addr::from(addr), len).contains(
        &core::net::Ipv4Addr::from(ip),
    )
}

/// An IP address of either family, as a number whose most significant byte
/// is the first byte of the address.
#[derive(Clone, Copy, Debug, PartialEq, Eq, Structural)]
pub enum IpAddress {
    V4(u32),
    V6(u128),
}

/// An IP prefix of either family: an address and a length in bits.
#[derive(Clone, Copy, Debug, PartialEq, Eq, Structural)]
pub struct IpPrefix {
    pub addr: IpAddress,
    pub len: u8,
}

/// What `core::net::IpAddr::from_str` makes of a text: the address it reads,
/// or `None` where it reports an error.
pub uninterp spec fn ip_addr_parse(text: Seq<char>) -> Option<IpAddress>;

/// What `ipnet::IpNet::from_str` makes of a text: the address and prefix
/// length of the network it reads, or `None` where it reports an error.
pub uninterp spec fn ip_net_parse(text: Seq<char>) -> Option<IpPrefix>;

/// The number of bits in an address of the family of `addr`.
pub open spec fn family_bits(addr: IpAddress) -> u8 {
    match addr {
        IpAddress::V4(_) => 32u8,
        IpAddress::V6(_) => 128u8,
    }
}

/// Whether the length of a prefix fits its family.
pub open spec fn prefix_valid(prefix: IpPrefix) -> bool {
    prefix.len <= family_bits(prefix.addr)
}

/// The IPv6 network mask of a prefix length: the top `len` bits set.
pub open spec fn netmask6(len: u8) -> u128 {
    if len == 0 {
        0u128
    } else {
        0xffff_ffff_ffff_ffff_ffff_ffff_ffff_ffffu128 << ((128 - len) as u128)
    }
}

/// The IPv6 host mask of a prefix length: all but the top `len` bits set.
pub open spec fn hostmask6(len: u8) -> u128 {
    if len >= 128 {
        0u128
    } else {
        0xffff_ffff_ffff_ffff_ffff_ffff_ffff_ffffu128 >> (len as u128)
    }
}

/// Whether the IPv6 prefix `addr/len` contains the address `ip`.
pub open spec fn prefix6_covers(addr: u128, len: u8, ip: u128) -> bool {
    (addr & netmask6(len)) <= ip && ip <= (addr | hostmask6(len))
}

/// Whether a prefix contains an address: they are of one family, and the
/// address lies between the lowest and the highest address of the prefix.
pub open spec fn prefix_holds(prefix: IpPrefix, ip: IpAddress) -> bool {
    match (prefix.addr, ip) {
        (IpAddress::V4(net), IpAddress::V4(a)) => prefix_covers(net, prefix.len, a),
        (IpAddress::V6(net), IpAddress::V6(a)) => prefix6_covers(net, prefix.len, a),
        _ => false,
    }
}

/// The prefix that holds one address and nothing else.
pub open spec fn host_prefix(ip: IpAddress) -> IpPrefix {
    IpPrefix { addr: ip, len: family_bits(ip) }
}

/// Reads an IP address of either family with the standard library's
/// `IpAddr::from_str` and hands it back as a number, by family.
///
/// The result is named, not described.
#[verifier::external_body]
pub(crate) fn parse_ip_addr(text: &str) -> (addr: Option<IpAddress>)
    ensures
        addr == ip_addr_parse(text@),
{
    match text.parse::<core::net::IpAddr>() {
        Ok(core::net::IpAddr::V4(a)) => Some(IpAddress::V4(u32::from(a))),
        Ok(core::net::IpAddr::V6(a)) => Some(IpAddress::V6(u128::from(a))),
        Err(_) => None,
    }
}

/// Reads an IP network of either family with `ipnet::IpNet::from_str` and
/// hands back its address (`addr`, as a number) and its prefix length
/// (`prefix_len`), by family.
///
/// The result is named, not described. The one fact stated of it is that the
/// length of a network that was read fits its family: at most 32 for IPv4
/// and 128 for IPv6, which `Ipv4Net::new` and `Ipv6Net::new` check for every
/// network that the parser builds.
#[verifier::external_body]
pub(crate) fn parse_ip_net(text: &str) -> (net: Option<IpPrefix>)
    ensures
        net == ip_net_parse(text@),
        match net {
            Some(prefix) => prefix_valid(prefix),
            None => true,
        },
{
    match text.parse::<ipnet::IpNet>() {
        Ok(ipnet::IpNet::V4(n)) => Some(
            IpPrefix { addr: IpAddress::V4(u32::from(n.addr())), len: n.prefix_len() },
        ),
        Ok(ipnet::IpNet::V6(n)) => Some(
            IpPrefix { addr: IpAddress::V6(u128::from(n.addr())), len: n.prefix_len() },
        ),
        Err(_) => None,
    }
}

/// Asks `ipnet::Ipv6Net::contains` whether the network `addr/len` contains
/// the address `ip`.
///
/// `ipnet` answers that the address lies between the network address (the
/// address with the host bits cleared) and the broadcast address (the
/// address with the host bits set), both included. `Ipv6Net::new_assert`
/// panics on a length above 128, which the precondition rules out.
#[verifier::external_body]
pub(crate) fn net6_contains(addr: u128, len: u8, ip: u128) -> (inside: bool)
    requires
        len <= 128,
    ensures
        inside == prefix6_covers(addr, len, ip),
{
    ipnet::Ipv6Net::new_assert(core::net::Ipv6Addr::from(addr), len).contains(
        &core::net::Ipv6Addr::from(ip),
    )
}

/// Tells whether a prefix contains an address.
pub fn prefix_contains(prefix: IpPrefix, ip: IpAddress) -> (inside: bool)
    requires
        prefix_valid(prefix),
    ensures
        inside == prefix_holds(prefix, ip),
{
    match (prefix.addr, ip) {
        (IpAddress::V4(net), IpAddress::V4(a)) => net_contains(net, prefix.len, a),
        (IpAddress::V6(net), IpAddress::V6(a)) => net6_contains(net, prefix.len, a),
        _ => false,
    }
}

/// The prefix that holds one address and nothing else.
pub fn host_prefix_of(ip: IpAddress) -> (prefix: IpPrefix)
    ensures
        prefix == host_prefix(ip),
        prefix_valid(prefix),
{
    match ip {
        IpAddress::V4(_) => IpPrefix { addr: ip, len: 32 },
        IpAddress::V6(_) => IpPrefix { addr: ip, len: 128 },
    }
}

/// A prefix that holds one address holds that address and no other.
pub proof fn lemma_host_prefix_holds_its_address(ip: IpAddress, other: IpAddress)
    ensures
        prefix_holds(host_prefix(ip), other) <==> other == ip,
{
    match (ip, other) {
        (IpAddress::V4(a), IpAddress::V4(b)) => {
            assert((a & (0xffff_ffffu32 << 0u32)) == a && (a | 0u32) == a) by (bit_vector);
        },
        (IpAddress::V6(a), IpAddress::V6(b)) => {
            assert((a & (0xffff_ffff_ffff_ffff_ffff_ffff_ffff_ffffu128 << 0u128)) == a && (a
                | 0u128) == a) by (bit_vector);
        },
        _ => {},
    }
}

} // verus!
