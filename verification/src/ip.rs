//! Addresses and prefixes.
use crate::ord::Ranked;
use vstd::prelude::*;

verus! {

/// The address families of IP.
#[derive(Clone, Copy, Debug, PartialEq, Eq, Structural)]
pub enum AddressFamily {
    Ipv4,
    Ipv6,
}

/// An IPv4 address as a number in network byte order.
#[derive(Clone, Copy, Debug, PartialEq, Eq, Structural)]
pub struct Ipv4Addr {
    pub bits: u32,
}

/// An IPv6 address as a number in network byte order.
#[derive(Clone, Copy, Debug, PartialEq, Eq, Structural)]
pub struct Ipv6Addr {
    pub bits: u128,
}

#[derive(Clone, Copy, Debug, PartialEq, Eq, Structural)]
pub enum IpAddr {
    V4(Ipv4Addr),
    V6(Ipv6Addr),
}

/// An IPv4 address with a prefix length. Host bits are kept.
#[derive(Clone, Copy, Debug, PartialEq, Eq, Structural)]
pub struct Ipv4Network {
    pub addr: Ipv4Addr,
    pub prefix: u8,
}

/// An IPv6 address with a prefix length. Host bits are kept.
#[derive(Clone, Copy, Debug, PartialEq, Eq, Structural)]
pub struct Ipv6Network {
    pub addr: Ipv6Addr,
    pub prefix: u8,
}

#[derive(Clone, Copy, Debug, PartialEq, Eq, Structural)]
pub enum IpNetwork {
    V4(Ipv4Network),
    V6(Ipv6Network),
}

impl Ipv4Addr {
    /// The address written as four octets.
    pub fn new(a: u8, b: u8, c: u8, d: u8) -> (r: Self)
        ensures
            r.bits == a * 0x100_0000 + b * 0x1_0000 + c * 0x100 + d,
    {
        Ipv4Addr { bits: a as u32 * 0x100_0000 + b as u32 * 0x1_0000 + c as u32 * 0x100 + d as u32 }
    }

    /// The four octets, most significant first.
    pub open spec fn octets_spec(self) -> Seq<u8> {
        be4(self.bits)
    }

    pub fn octets(&self) -> (r: [u8; 4])
        ensures
            r@ == self.octets_spec(),
    {
        u32_bytes(self.bits)
    }
}

/// Two bytes, most significant first.
pub open spec fn be2(n: u16) -> Seq<u8> {
    seq![(n / 256) as u8, (n % 256) as u8]
}

/// Four bytes, most significant first.
pub open spec fn be4(n: u32) -> Seq<u8> {
    seq![(n / 0x100_0000) as u8, (n / 0x1_0000 % 256) as u8, (n / 0x100 % 256) as u8, (n % 256) as u8]
}

/// The number that two bytes stand for.
pub open spec fn from_be2(s: Seq<u8>) -> u16 {
    (s[0] * 256 + s[1]) as u16
}

/// The number that four bytes stand for.
pub open spec fn from_be4(s: Seq<u8>) -> u32 {
    (s[0] * 0x100_0000 + s[1] * 0x1_0000 + s[2] * 0x100 + s[3]) as u32
}

pub fn u16_bytes(n: u16) -> (r: [u8; 2])
    ensures
        r@ == be2(n),
{
    let r: [u8; 2] = [(n / 256) as u8, (n % 256) as u8];
    assert(r@ =~= be2(n));
    r
}

pub fn u32_bytes(n: u32) -> (r: [u8; 4])
    ensures
        r@ == be4(n),
{
    let r: [u8; 4] = [
        (n / 0x100_0000) as u8,
        (n / 0x1_0000 % 256) as u8,
        (n / 0x100 % 256) as u8,
        (n % 256) as u8,
    ];
    assert(r@ =~= be4(n));
    r
}

pub fn u16_of_bytes(a: u8, b: u8) -> (r: u16)
    ensures
        r == from_be2(seq![a, b]),
{
    a as u16 * 256 + b as u16
}

pub fn u32_of_bytes(a: u8, b: u8, c: u8, d: u8) -> (r: u32)
    ensures
        r == from_be4(seq![a, b, c, d]),
{
    a as u32 * 0x100_0000 + b as u32 * 0x1_0000 + c as u32 * 0x100 + d as u32
}

/// Reading back the two bytes of a number gives the number.
pub proof fn be2_round_trip(n: u16)
    ensures
        from_be2(be2(n)) == n,
{
}

/// Reading back the four bytes of a number gives the number.
pub proof fn be4_round_trip(n: u32)
    ensures
        from_be4(be4(n)) == n,
{
}

/// Writing the number that two bytes stand for gives the bytes.
pub proof fn from_be2_round_trip(s: Seq<u8>)
    requires
        s.len() == 2,
    ensures
        be2(from_be2(s)) == s,
{
    assert(be2(from_be2(s)) =~= s);
}

/// Writing the number that four bytes stand for gives the bytes.
pub proof fn from_be4_round_trip(s: Seq<u8>)
    requires
        s.len() == 4,
    ensures
        be4(from_be4(s)) == s,
{
    let n = from_be4(s);
    assert(n == s[0] * 0x100_0000 + s[1] * 0x1_0000 + s[2] * 0x100 + s[3]);
    assert(n / 0x100_0000 == s[0]);
    assert(n / 0x1_0000 == s[0] * 0x100 + s[1]);
    assert(n / 0x100 == s[0] * 0x1_0000 + s[1] * 0x100 + s[2]);
    assert(be4(n) =~= s);
}

impl View for Ipv4Addr {
    type V = Ipv4Addr;

    open spec fn view(&self) -> Ipv4Addr {
        *self
    }
}

impl Ranked for Ipv4Addr {
    open spec fn rank(self) -> int {
        self.bits as int
    }

    proof fn rank_identifies(a: Self, b: Self) {
    }

    proof fn view_is_value(self) {
    }

    fn ranks_below(&self, other: &Self) -> (r: bool) {
        self.bits < other.bits
    }
}

impl View for IpAddr {
    type V = IpAddr;

    open spec fn view(&self) -> IpAddr {
        *self
    }
}

impl Ranked for IpAddr {
    open spec fn rank(self) -> int {
        match self {
            IpAddr::V4(a) => a.bits as int,
            IpAddr::V6(a) => 0x1_0000_0000 + a.bits as int,
        }
    }

    proof fn rank_identifies(a: Self, b: Self) {
    }

    proof fn view_is_value(self) {
    }

    fn ranks_below(&self, other: &Self) -> (r: bool) {
        match (*self, *other) {
            (IpAddr::V4(a), IpAddr::V4(b)) => a.bits < b.bits,
            (IpAddr::V4(_), IpAddr::V6(_)) => true,
            (IpAddr::V6(_), IpAddr::V4(_)) => false,
            (IpAddr::V6(a), IpAddr::V6(b)) => a.bits < b.bits,
        }
    }
}

impl View for Ipv4Network {
    type V = Ipv4Network;

    open spec fn view(&self) -> Ipv4Network {
        *self
    }
}

impl Ranked for Ipv4Network {
    open spec fn rank(self) -> int {
        self.addr.bits * 256 + self.prefix
    }

    proof fn rank_identifies(a: Self, b: Self) {
    }

    proof fn view_is_value(self) {
    }

    fn ranks_below(&self, other: &Self) -> (r: bool) {
        self.addr.bits < other.addr.bits || (self.addr.bits == other.addr.bits && self.prefix < other.prefix)
    }
}

impl View for Ipv6Network {
    type V = Ipv6Network;

    open spec fn view(&self) -> Ipv6Network {
        *self
    }
}

impl Ranked for Ipv6Network {
    open spec fn rank(self) -> int {
        self.addr.bits * 256 + self.prefix
    }

    proof fn rank_identifies(a: Self, b: Self) {
    }

    proof fn view_is_value(self) {
    }

    fn ranks_below(&self, other: &Self) -> (r: bool) {
        self.addr.bits < other.addr.bits || (self.addr.bits == other.addr.bits && self.prefix < other.prefix)
    }
}

impl View for IpNetwork {
    type V = IpNetwork;

    open spec fn view(&self) -> IpNetwork {
        *self
    }
}

impl Ranked for IpNetwork {
    open spec fn rank(self) -> int {
        match self {
            IpNetwork::V4(n) => n.rank(),
            IpNetwork::V6(n) => 0x100_0000_0000 + n.rank(),
        }
    }

    proof fn rank_identifies(a: Self, b: Self) {
    }

    proof fn view_is_value(self) {
    }

    fn ranks_below(&self, other: &Self) -> (r: bool) {
        match (*self, *other) {
            (IpNetwork::V4(a), IpNetwork::V4(b)) => a.ranks_below(&b),
            (IpNetwork::V4(_), IpNetwork::V6(_)) => true,
            (IpNetwork::V6(_), IpNetwork::V4(_)) => false,
            (IpNetwork::V6(a), IpNetwork::V6(b)) => a.ranks_below(&b),
        }
    }
}

impl IpNetwork {
    pub open spec fn ip_spec(self) -> IpAddr {
        match self {
            IpNetwork::V4(n) => IpAddr::V4(n.addr),
            IpNetwork::V6(n) => IpAddr::V6(n.addr),
        }
    }

    pub open spec fn prefix_spec(self) -> u8 {
        match self {
            IpNetwork::V4(n) => n.prefix,
            IpNetwork::V6(n) => n.prefix,
        }
    }

    pub open spec fn address_family_spec(self) -> AddressFamily {
        match self {
            IpNetwork::V4(_) => AddressFamily::Ipv4,
            IpNetwork::V6(_) => AddressFamily::Ipv6,
        }
    }

    /// The address.
    pub fn ip(&self) -> (r: IpAddr)
        ensures
            r == self.ip_spec(),
    {
        match self {
            IpNetwork::V4(n) => IpAddr::V4(n.addr),
            IpNetwork::V6(n) => IpAddr::V6(n.addr),
        }
    }

    /// The prefix length.
    pub fn prefix(&self) -> (r: u8)
        ensures
            r == self.prefix_spec(),
    {
        match self {
            IpNetwork::V4(n) => n.prefix,
            IpNetwork::V6(n) => n.prefix,
        }
    }

    pub fn address_family(&self) -> (r: AddressFamily)
        ensures
            r == self.address_family_spec(),
    {
        match self {
            IpNetwork::V4(_) => AddressFamily::Ipv4,
            IpNetwork::V6(_) => AddressFamily::Ipv6,
        }
    }
}

}
