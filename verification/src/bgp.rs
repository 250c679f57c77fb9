//! BGP types shared by the protocol, the policy engine and the routing core:
//! address families, communities, route distinguishers and route targets,
//! with their wire and text forms.
use crate::ip::be2;
use crate::ip::be2_round_trip;
use crate::ip::be4;
use crate::ip::be4_round_trip;
use crate::ip::from_be2;
use crate::ip::from_be2_round_trip;
use crate::ip::from_be4;
use crate::ip::from_be4_round_trip;
use crate::ip::u16_bytes;
use crate::ip::u16_of_bytes;
use crate::ip::u32_bytes;
use crate::ip::u32_of_bytes;
use crate::ip::Ipv4Addr;
use crate::ip::Ipv6Addr;
use crate::ord::Ranked;
use vstd::prelude::*;

verus! {

/// The configurable pairs of address family and subsequent address family.
#[derive(Clone, Copy, Debug, PartialEq, Eq, Structural)]
pub enum AfiSafi {
    Ipv4Unicast,
    Ipv6Unicast,
    L3vpnIpv4Unicast,
    L3vpnIpv6Unicast,
    L2vpnEvpn,
}

#[derive(Clone, Copy, Debug, PartialEq, Eq, Structural)]
pub enum RouteType {
    Internal,
    External,
}

/// The ORIGIN attribute.
#[derive(Clone, Copy, Debug, PartialEq, Eq, Structural)]
pub enum Origin {
    Igp,
    Egp,
    Incomplete,
}

/// A community.
#[derive(Clone, Copy, Debug, PartialEq, Eq, Structural)]
pub struct Comm(pub u32);

/// An extended community.
#[derive(Clone, Copy, Debug, PartialEq, Eq)]
pub struct ExtComm(pub [u8; 8]);

#[allow(inconsistent_fields)]
#[derive(Clone, Copy, Debug, PartialEq, Eq, Structural)]
pub enum RouteDistinguisher {
    As2Administrator { asn: u16, number: u32 },
    Ipv4Administrator { addr: Ipv4Addr, number: u16 },
    As4Administrator { asn: u32, number: u16 },
}

#[allow(inconsistent_fields)]
#[derive(Clone, Copy, Debug, PartialEq, Eq, Structural)]
pub enum RouteTarget {
    As2Administrator { asn: u16, number: u32 },
    Ipv4Administrator { addr: Ipv4Addr, number: u16 },
    As4Administrator { asn: u32, number: u16 },
}

/// An IPv6 address specific extended community.
#[derive(Clone, Copy, Debug, PartialEq, Eq, Structural)]
pub struct Extv6Comm(pub Ipv6Addr, pub u32);

/// A large community.
#[derive(Clone, Copy, Debug, PartialEq, Eq)]
pub struct LargeComm(pub [u8; 12]);

pub type EthernetSegmentId = [u8; 10];

/// The contents of an ESI Label extended community.
#[derive(Clone, Copy, Debug, PartialEq, Eq, Structural)]
pub struct EvpnEsiLabel {
    pub single_active: bool,
    pub label: u32,
}

/// The contents of a MAC Mobility extended community.
#[derive(Clone, Copy, Debug, PartialEq, Eq, Structural)]
pub struct EvpnMacMobility {
    pub sticky: bool,
    pub sequence: u32,
}

/// The well-known communities.
#[derive(Clone, Copy, Debug, PartialEq, Eq, Structural)]
pub enum WellKnownCommunities {
    NoExport,
    NoAdvertise,
    NoExportSubconfed,
}

/// The bytes of an ES-Import route target: type, subtype and the high-order
/// six octets of the ESI value.
pub open spec fn es_import_bytes(esi: Seq<u8>) -> Seq<u8> {
    seq![0x06u8, 0x02u8] + esi.subrange(1, 7)
}

pub fn evpn_es_import_route_target(esi: EthernetSegmentId) -> (r: ExtComm)
    ensures
        r.0@ == es_import_bytes(esi@),
{
    let r = ExtComm([0x06, 0x02, esi[1], esi[2], esi[3], esi[4], esi[5], esi[6]]);
    assert(r.0@ =~= es_import_bytes(esi@));
    r
}

/// The bytes of an ESI Label extended community. The label takes the upper
/// twenty bits of its three bytes; the lowest bit is set.
pub open spec fn esi_label_bytes(l: EvpnEsiLabel) -> Seq<u8> {
    let field = ((l.label % 0x10_0000) * 16 + 1) as u32;
    seq![0x06u8, 0x01u8, if l.single_active { 1u8 } else { 0u8 }, 0u8, 0u8] + be4(field).skip(1)
}

pub fn evpn_esi_label_ext_comm(esi_label: EvpnEsiLabel) -> (r: ExtComm)
    ensures
        r.0@ == esi_label_bytes(esi_label),
{
    let flag: u8 = if esi_label.single_active { 1 } else { 0 };
    let field: u32 = (esi_label.label % 0x10_0000) * 16 + 1;
    let b = u32_bytes(field);
    let r = ExtComm([0x06, 0x01, flag, 0, 0, b[1], b[2], b[3]]);
    assert(r.0@ =~= esi_label_bytes(esi_label));
    r
}

/// The ESI Label that the bytes of an extended community carry.
pub open spec fn esi_label_of(b: Seq<u8>) -> Option<EvpnEsiLabel> {
    let field = from_be4(seq![0u8] + b.subrange(5, 8));
    if b[0] == 0x06 && b[1] == 0x01 && field % 2 == 1 {
        Some(EvpnEsiLabel { single_active: b[2] % 2 == 1, label: (field / 16) as u32 })
    } else {
        None
    }
}

pub fn evpn_esi_label_from_ext_comm(comm: &ExtComm) -> (r: Option<EvpnEsiLabel>)
    ensures
        r == esi_label_of(comm.0@),
{
    let field: u32 = u32_of_bytes(0, comm.0[5], comm.0[6], comm.0[7]);
    assert(seq![0u8] + comm.0@.subrange(5, 8) =~= seq![0u8, comm.0@[5], comm.0@[6], comm.0@[7]]);
    if comm.0[0] != 0x06 || comm.0[1] != 0x01 {
        return None;
    }
    if field % 2 == 0 {
        return None;
    }
    Some(EvpnEsiLabel { single_active: comm.0[2] % 2 == 1, label: field / 16 })
}

/// The bytes of a MAC Mobility extended community.
pub open spec fn mac_mobility_bytes(m: EvpnMacMobility) -> Seq<u8> {
    seq![0x06u8, 0x00u8, if m.sticky { 1u8 } else { 0u8 }, 0u8] + be4(m.sequence)
}

pub fn evpn_mac_mobility_ext_comm(mobility: EvpnMacMobility) -> (r: ExtComm)
    ensures
        r.0@ == mac_mobility_bytes(mobility),
{
    let flag: u8 = if mobility.sticky { 1 } else { 0 };
    let b = u32_bytes(mobility.sequence);
    let r = ExtComm([0x06, 0x00, flag, 0, b[0], b[1], b[2], b[3]]);
    assert(r.0@ =~= mac_mobility_bytes(mobility));
    r
}

/// The MAC Mobility that the bytes of an extended community carry.
pub open spec fn mac_mobility_of(b: Seq<u8>) -> Option<EvpnMacMobility> {
    if b[0] == 0x06 && b[1] == 0x00 {
        Some(EvpnMacMobility { sticky: b[2] % 2 == 1, sequence: from_be4(b.subrange(4, 8)) })
    } else {
        None
    }
}

pub fn evpn_mac_mobility_from_ext_comm(comm: &ExtComm) -> (r: Option<EvpnMacMobility>)
    ensures
        r == mac_mobility_of(comm.0@),
{
    if comm.0[0] != 0x06 || comm.0[1] != 0x00 {
        return None;
    }
    assert(comm.0@.subrange(4, 8) =~= seq![comm.0@[4], comm.0@[5], comm.0@[6], comm.0@[7]]);
    Some(
        EvpnMacMobility {
            sticky: comm.0[2] % 2 == 1,
            sequence: u32_of_bytes(comm.0[4], comm.0[5], comm.0[6], comm.0[7]),
        },
    )
}

/// The eight bytes of a route distinguisher.
pub open spec fn rd_bytes(rd: RouteDistinguisher) -> Seq<u8> {
    match rd {
        RouteDistinguisher::As2Administrator { asn, number } => be2(0) + be2(asn) + be4(number),
        RouteDistinguisher::Ipv4Administrator { addr, number } => be2(1) + addr.octets_spec() + be2(number),
        RouteDistinguisher::As4Administrator { asn, number } => be2(2) + be4(asn) + be2(number),
    }
}

/// The route distinguisher that eight bytes stand for.
pub open spec fn rd_of(b: Seq<u8>) -> Option<RouteDistinguisher> {
    let kind = from_be2(b.subrange(0, 2));
    if kind == 0 {
        Some(
            RouteDistinguisher::As2Administrator {
                asn: from_be2(b.subrange(2, 4)),
                number: from_be4(b.subrange(4, 8)),
            },
        )
    } else if kind == 1 {
        Some(
            RouteDistinguisher::Ipv4Administrator {
                addr: Ipv4Addr { bits: from_be4(b.subrange(2, 6)) },
                number: from_be2(b.subrange(6, 8)),
            },
        )
    } else if kind == 2 {
        Some(
            RouteDistinguisher::As4Administrator {
                asn: from_be4(b.subrange(2, 6)),
                number: from_be2(b.subrange(6, 8)),
            },
        )
    } else {
        None
    }
}

/// Eight bytes put together from a head of two, two and four.
fn bytes_2_2_4(h: [u8; 2], a: u16, n: u32) -> (r: [u8; 8])
    ensures
        r@ == h@ + be2(a) + be4(n),
{
    let x = u16_bytes(a);
    let y = u32_bytes(n);
    let r: [u8; 8] = [h[0], h[1], x[0], x[1], y[0], y[1], y[2], y[3]];
    assert(r@ =~= h@ + be2(a) + be4(n));
    r
}

/// Eight bytes put together from a head of two, four and two.
fn bytes_2_4_2(h: [u8; 2], a: u32, n: u16) -> (r: [u8; 8])
    ensures
        r@ == h@ + be4(a) + be2(n),
{
    let x = u32_bytes(a);
    let y = u16_bytes(n);
    let r: [u8; 8] = [h[0], h[1], x[0], x[1], x[2], x[3], y[0], y[1]];
    assert(r@ =~= h@ + be4(a) + be2(n));
    r
}

/// The two and four bytes after the head.
fn split_2_4(b: &[u8; 8]) -> (r: (u16, u32))
    ensures
        r.0 == from_be2(b@.subrange(2, 4)),
        r.1 == from_be4(b@.subrange(4, 8)),
{
    assert(b@.subrange(2, 4) =~= seq![b@[2], b@[3]]);
    assert(b@.subrange(4, 8) =~= seq![b@[4], b@[5], b@[6], b@[7]]);
    (u16_of_bytes(b[2], b[3]), u32_of_bytes(b[4], b[5], b[6], b[7]))
}

/// The four and two bytes after the head.
fn split_4_2(b: &[u8; 8]) -> (r: (u32, u16))
    ensures
        r.0 == from_be4(b@.subrange(2, 6)),
        r.1 == from_be2(b@.subrange(6, 8)),
{
    assert(b@.subrange(2, 6) =~= seq![b@[2], b@[3], b@[4], b@[5]]);
    assert(b@.subrange(6, 8) =~= seq![b@[6], b@[7]]);
    (u32_of_bytes(b[2], b[3], b[4], b[5]), u16_of_bytes(b[6], b[7]))
}

impl RouteDistinguisher {
    pub fn encode(self) -> (r: [u8; 8])
        ensures
            r@ == rd_bytes(self),
    {
        match self {
            RouteDistinguisher::As2Administrator { asn, number } => bytes_2_2_4(u16_bytes(0), asn, number),
            RouteDistinguisher::Ipv4Administrator { addr, number } => bytes_2_4_2(u16_bytes(1), addr.bits, number),
            RouteDistinguisher::As4Administrator { asn, number } => bytes_2_4_2(u16_bytes(2), asn, number),
        }
    }

    pub fn decode(bytes: [u8; 8]) -> (r: Option<Self>)
        ensures
            r == rd_of(bytes@),
    {
        assert(bytes@.subrange(0, 2) =~= seq![bytes@[0], bytes@[1]]);
        let kind: u16 = u16_of_bytes(bytes[0], bytes[1]);
        let short = split_2_4(&bytes);
        let long = split_4_2(&bytes);
        match kind {
            0 => Some(RouteDistinguisher::As2Administrator { asn: short.0, number: short.1 }),
            1 => Some(
                RouteDistinguisher::Ipv4Administrator { addr: Ipv4Addr { bits: long.0 }, number: long.1 },
            ),
            2 => Some(RouteDistinguisher::As4Administrator { asn: long.0, number: long.1 }),
            _ => None,
        }
    }
}

/// The eight bytes of a route target extended community.
pub open spec fn rt_bytes(rt: RouteTarget) -> Seq<u8> {
    match rt {
        RouteTarget::As2Administrator { asn, number } => seq![0x00u8, 0x02u8] + be2(asn) + be4(number),
        RouteTarget::Ipv4Administrator { addr, number } => seq![0x01u8, 0x02u8] + addr.octets_spec() + be2(number),
        RouteTarget::As4Administrator { asn, number } => seq![0x02u8, 0x02u8] + be4(asn) + be2(number),
    }
}

/// The route target that the bytes of an extended community carry, transitive
/// or not.
pub open spec fn rt_of(b: Seq<u8>) -> Option<RouteTarget> {
    if b[1] != 0x02 {
        None
    } else if b[0] == 0x00 || b[0] == 0x40 {
        Some(
            RouteTarget::As2Administrator { asn: from_be2(b.subrange(2, 4)), number: from_be4(b.subrange(4, 8)) },
        )
    } else if b[0] == 0x01 || b[0] == 0x41 {
        Some(
            RouteTarget::Ipv4Administrator {
                addr: Ipv4Addr { bits: from_be4(b.subrange(2, 6)) },
                number: from_be2(b.subrange(6, 8)),
            },
        )
    } else if b[0] == 0x02 || b[0] == 0x42 {
        Some(
            RouteTarget::As4Administrator { asn: from_be4(b.subrange(2, 6)), number: from_be2(b.subrange(6, 8)) },
        )
    } else {
        None
    }
}

impl RouteTarget {
    pub fn to_ext_comm(self) -> (r: ExtComm)
        ensures
            r.0@ == rt_bytes(self),
    {
        let bytes = match self {
            RouteTarget::As2Administrator { asn, number } => {
                let h: [u8; 2] = [0x00, 0x02];
                assert(h@ =~= seq![0x00u8, 0x02u8]);
                bytes_2_2_4(h, asn, number)
            },
            RouteTarget::Ipv4Administrator { addr, number } => {
                let h: [u8; 2] = [0x01, 0x02];
                assert(h@ =~= seq![0x01u8, 0x02u8]);
                bytes_2_4_2(h, addr.bits, number)
            },
            RouteTarget::As4Administrator { asn, number } => {
                let h: [u8; 2] = [0x02, 0x02];
                assert(h@ =~= seq![0x02u8, 0x02u8]);
                bytes_2_4_2(h, asn, number)
            },
        };
        ExtComm(bytes)
    }

    pub fn from_ext_comm(comm: &ExtComm) -> (r: Option<Self>)
        ensures
            r == rt_of(comm.0@),
    {
        let short = split_2_4(&comm.0);
        let long = split_4_2(&comm.0);
        match (comm.0[0], comm.0[1]) {
            (0x00 | 0x40, 0x02) => Some(RouteTarget::As2Administrator { asn: short.0, number: short.1 }),
            (0x01 | 0x41, 0x02) => Some(
                RouteTarget::Ipv4Administrator { addr: Ipv4Addr { bits: long.0 }, number: long.1 },
            ),
            (0x02 | 0x42, 0x02) => Some(RouteTarget::As4Administrator { asn: long.0, number: long.1 }),
            _ => None,
        }
    }
}

/// Decoding the bytes of a route distinguisher gives it back.
pub proof fn rd_round_trip(rd: RouteDistinguisher)
    ensures
        rd_bytes(rd).len() == 8,
        rd_of(rd_bytes(rd)) == Some(rd),
{
    let b = rd_bytes(rd);
    match rd {
        RouteDistinguisher::As2Administrator { asn, number } => {
            assert(b.subrange(0, 2) =~= be2(0));
            assert(b.subrange(2, 4) =~= be2(asn));
            assert(b.subrange(4, 8) =~= be4(number));
            be2_round_trip(asn);
            be4_round_trip(number);
        },
        RouteDistinguisher::Ipv4Administrator { addr, number } => {
            assert(b.subrange(0, 2) =~= be2(1));
            assert(b.subrange(2, 6) =~= be4(addr.bits));
            assert(b.subrange(6, 8) =~= be2(number));
            be4_round_trip(addr.bits);
            be2_round_trip(number);
        },
        RouteDistinguisher::As4Administrator { asn, number } => {
            assert(b.subrange(0, 2) =~= be2(2));
            assert(b.subrange(2, 6) =~= be4(asn));
            assert(b.subrange(6, 8) =~= be2(number));
            be4_round_trip(asn);
            be2_round_trip(number);
        },
    }
}

/// Eight bytes that decode to a route distinguisher are the bytes of that
/// route distinguisher.
pub proof fn rd_encoding_is_unique(b: Seq<u8>)
    requires
        b.len() == 8,
        rd_of(b) is Some,
    ensures
        rd_bytes(rd_of(b)->0) == b,
{
    from_be2_round_trip(b.subrange(0, 2));
    from_be2_round_trip(b.subrange(2, 4));
    from_be4_round_trip(b.subrange(4, 8));
    from_be4_round_trip(b.subrange(2, 6));
    from_be2_round_trip(b.subrange(6, 8));
    assert(b =~= b.subrange(0, 2) + b.subrange(2, 4) + b.subrange(4, 8));
    assert(b =~= b.subrange(0, 2) + b.subrange(2, 6) + b.subrange(6, 8));
}

/// The extended community of a route target carries that route target.
pub proof fn rt_round_trip(rt: RouteTarget)
    ensures
        rt_bytes(rt).len() == 8,
        rt_of(rt_bytes(rt)) == Some(rt),
{
    let b = rt_bytes(rt);
    match rt {
        RouteTarget::As2Administrator { asn, number } => {
            assert(b.subrange(2, 4) =~= be2(asn));
            assert(b.subrange(4, 8) =~= be4(number));
            be2_round_trip(asn);
            be4_round_trip(number);
        },
        RouteTarget::Ipv4Administrator { addr, number } => {
            assert(b.subrange(2, 6) =~= be4(addr.bits));
            assert(b.subrange(6, 8) =~= be2(number));
            be4_round_trip(addr.bits);
            be2_round_trip(number);
        },
        RouteTarget::As4Administrator { asn, number } => {
            assert(b.subrange(2, 6) =~= be4(asn));
            assert(b.subrange(6, 8) =~= be2(number));
            be4_round_trip(asn);
            be2_round_trip(number);
        },
    }
}

/// An extended community that carries a route target is written back as it
/// was, but for the bit that marks it as non-transitive, which is cleared.
pub proof fn rt_encoding_clears_one_bit(b: Seq<u8>)
    requires
        b.len() == 8,
        rt_of(b) is Some,
    ensures
        rt_bytes(rt_of(b)->0) == b.update(0, b[0] & 0xBF),
        b[0] & 0x40 == 0 ==> rt_bytes(rt_of(b)->0) == b,
{
    assert(0x00u8 & 0xBF == 0x00 && 0x01u8 & 0xBF == 0x01 && 0x02u8 & 0xBF == 0x02) by (bit_vector);
    assert(0x40u8 & 0xBF == 0x00 && 0x41u8 & 0xBF == 0x01 && 0x42u8 & 0xBF == 0x02) by (bit_vector);
    assert(0x40u8 & 0x40 != 0 && 0x41u8 & 0x40 != 0 && 0x42u8 & 0x40 != 0) by (bit_vector);
    from_be2_round_trip(b.subrange(2, 4));
    from_be4_round_trip(b.subrange(4, 8));
    from_be4_round_trip(b.subrange(2, 6));
    from_be2_round_trip(b.subrange(6, 8));
    let w = b.update(0, b[0] & 0xBF);
    let head = seq![w[0], w[1]];
    assert(w =~= head + b.subrange(2, 4) + b.subrange(4, 8));
    assert(w =~= head + b.subrange(2, 6) + b.subrange(6, 8));
    assert(b[0] & 0x40 == 0 ==> w =~= b);
    assert(rt_bytes(rt_of(b)->0) =~= w);
}

/// An ESI Label is read back from its extended community, with the label cut
/// to twenty bits.
pub proof fn esi_label_round_trip(l: EvpnEsiLabel)
    ensures
        esi_label_of(esi_label_bytes(l)) == Some(
            EvpnEsiLabel { single_active: l.single_active, label: (l.label % 0x10_0000) as u32 },
        ),
        l.label < 0x10_0000 ==> esi_label_of(esi_label_bytes(l)) == Some(l),
{
    let b = esi_label_bytes(l);
    let field = ((l.label % 0x10_0000) * 16 + 1) as u32;
    assert(be4(field)[0] == 0);
    assert(seq![0u8] + b.subrange(5, 8) =~= be4(field));
    be4_round_trip(field);
}

/// A MAC Mobility is read back from its extended community.
pub proof fn mac_mobility_round_trip(m: EvpnMacMobility)
    ensures
        mac_mobility_of(mac_mobility_bytes(m)) == Some(m),
{
    assert(mac_mobility_bytes(m).subrange(4, 8) =~= be4(m.sequence));
    be4_round_trip(m.sequence);
}

/// A route target, an ES-Import route target, an ESI Label and a MAC Mobility
/// extended community are never taken for one another.
pub proof fn ext_comm_kinds_are_disjoint(b: Seq<u8>)
    requires
        b.len() == 8,
    ensures
        rt_of(b) is Some ==> esi_label_of(b) is None && mac_mobility_of(b) is None,
        esi_label_of(b) is Some ==> mac_mobility_of(b) is None,
        forall|esi: Seq<u8>| esi.len() == 10 && b == #[trigger] es_import_bytes(esi) ==> rt_of(b) is None
            && esi_label_of(b) is None && mac_mobility_of(b) is None,
{
}

impl View for Comm {
    type V = Comm;

    open spec fn view(&self) -> Comm {
        *self
    }
}

impl Ranked for Comm {
    open spec fn rank(self) -> int {
        self.0 as int
    }

    proof fn rank_identifies(a: Self, b: Self) {
    }

    proof fn view_is_value(self) {
    }

    fn ranks_below(&self, other: &Self) -> (r: bool) {
        self.0 < other.0
    }
}

impl View for ExtComm {
    type V = ExtComm;

    open spec fn view(&self) -> ExtComm {
        *self
    }
}

/// Bytes ordered as a big-endian number.
pub open spec fn bytes_rank(s: Seq<u8>) -> int
    decreases s.len(),
{
    if s.len() == 0 {
        0
    } else {
        bytes_rank(s.drop_last()) * 256 + s.last()
    }
}

/// Bytes of one length are told apart by their number.
pub proof fn bytes_rank_identifies(s: Seq<u8>, t: Seq<u8>)
    requires
        s.len() == t.len(),
        bytes_rank(s) == bytes_rank(t),
    ensures
        s == t,
    decreases s.len(),
{
    if s.len() > 0 {
        assert(s.last() == t.last() && bytes_rank(s.drop_last()) == bytes_rank(t.drop_last()));
        bytes_rank_identifies(s.drop_last(), t.drop_last());
        assert(s =~= s.drop_last().push(s.last()));
        assert(t =~= t.drop_last().push(t.last()));
    } else {
        assert(s =~= t);
    }
}

/// Bytes that differ first at a position are ordered by what they hold there.
proof fn bytes_rank_order(s: Seq<u8>, t: Seq<u8>, i: int)
    requires
        s.len() == t.len(),
        0 <= i < s.len(),
        s.take(i) == t.take(i),
        s[i] < t[i],
    ensures
        bytes_rank(s) < bytes_rank(t),
    decreases s.len(),
{
    let s0 = s.drop_last();
    let t0 = t.drop_last();
    if i == s.len() - 1 {
        assert(s0 =~= s.take(i));
        assert(t0 =~= t.take(i));
    } else {
        assert(s0.take(i) =~= s.take(i));
        assert(t0.take(i) =~= t.take(i));
        bytes_rank_order(s0, t0, i);
    }
}

pub(crate) fn bytes_below(s: &[u8], t: &[u8]) -> (r: bool)
    requires
        s@.len() == t@.len(),
    ensures
        r == (bytes_rank(s@) < bytes_rank(t@)),
{
    let mut i: usize = 0;
    while i < s.len()
        invariant
            i <= s@.len(),
            s@.len() == t@.len(),
            s@.take(i as int) == t@.take(i as int),
        decreases s@.len() - i,
    {
        if s[i] != t[i] {
            proof {
                if s@[i as int] < t@[i as int] {
                    bytes_rank_order(s@, t@, i as int);
                } else {
                    bytes_rank_order(t@, s@, i as int);
                }
            }
            return s[i] < t[i];
        }
        assert(s@.take(i + 1) =~= s@.take(i as int).push(s@[i as int]));
        assert(t@.take(i + 1) =~= t@.take(i as int).push(t@[i as int]));
        i += 1;
    }
    assert(s@.take(i as int) =~= s@);
    assert(t@.take(i as int) =~= t@);
    false
}

impl Ranked for ExtComm {
    open spec fn rank(self) -> int {
        bytes_rank(self.0@)
    }

    proof fn rank_identifies(a: Self, b: Self) {
        bytes_rank_identifies(a.0@, b.0@);
        assert(a.0 =~= b.0);
    }

    proof fn view_is_value(self) {
    }

    fn ranks_below(&self, other: &Self) -> (r: bool) {
        bytes_below(self.0.as_slice(), other.0.as_slice())
    }
}

impl View for LargeComm {
    type V = LargeComm;

    open spec fn view(&self) -> LargeComm {
        *self
    }
}

impl Ranked for LargeComm {
    open spec fn rank(self) -> int {
        bytes_rank(self.0@)
    }

    proof fn rank_identifies(a: Self, b: Self) {
        bytes_rank_identifies(a.0@, b.0@);
        assert(a.0 =~= b.0);
    }

    proof fn view_is_value(self) {
    }

    fn ranks_below(&self, other: &Self) -> (r: bool) {
        bytes_below(self.0.as_slice(), other.0.as_slice())
    }
}

impl View for Extv6Comm {
    type V = Extv6Comm;

    open spec fn view(&self) -> Extv6Comm {
        *self
    }
}

impl Ranked for Extv6Comm {
    open spec fn rank(self) -> int {
        self.0.bits * 0x1_0000_0000 + self.1
    }

    proof fn rank_identifies(a: Self, b: Self) {
    }

    proof fn view_is_value(self) {
    }

    fn ranks_below(&self, other: &Self) -> (r: bool) {
        self.0.bits < other.0.bits || (self.0.bits == other.0.bits && self.1 < other.1)
    }
}

impl View for RouteTarget {
    type V = RouteTarget;

    open spec fn view(&self) -> RouteTarget {
        *self
    }
}

impl Ranked for RouteTarget {
    open spec fn rank(self) -> int {
        match self {
            RouteTarget::As2Administrator { asn, number } => asn * 0x1_0000_0000 + number,
            RouteTarget::Ipv4Administrator { addr, number } => 0x1_0000_0000_0000 + addr.bits * 0x1_0000 + number,
            RouteTarget::As4Administrator { asn, number } => 0x2_0000_0000_0000 + asn * 0x1_0000 + number,
        }
    }

    proof fn rank_identifies(a: Self, b: Self) {
    }

    proof fn view_is_value(self) {
    }

    fn ranks_below(&self, other: &Self) -> (r: bool) {
        self.number() < other.number()
    }
}

impl RouteTarget {
    /// The number that orders route targets: by type, administrator and
    /// assigned number.
    fn number(&self) -> (r: u64)
        ensures
            r == self.rank(),
    {
        match *self {
            RouteTarget::As2Administrator { asn, number } => asn as u64 * 0x1_0000_0000 + number as u64,
            RouteTarget::Ipv4Administrator { addr, number } => 0x1_0000_0000_0000 + addr.bits as u64 * 0x1_0000
                + number as u64,
            RouteTarget::As4Administrator { asn, number } => 0x2_0000_0000_0000 + asn as u64 * 0x1_0000
                + number as u64,
        }
    }
}

impl View for RouteDistinguisher {
    type V = RouteDistinguisher;

    open spec fn view(&self) -> RouteDistinguisher {
        *self
    }
}

impl Ranked for RouteDistinguisher {
    open spec fn rank(self) -> int {
        match self {
            RouteDistinguisher::As2Administrator { asn, number } => asn * 0x1_0000_0000 + number,
            RouteDistinguisher::Ipv4Administrator { addr, number } => 0x1_0000_0000_0000 + addr.bits * 0x1_0000
                + number,
            RouteDistinguisher::As4Administrator { asn, number } => 0x2_0000_0000_0000 + asn * 0x1_0000 + number,
        }
    }

    proof fn rank_identifies(a: Self, b: Self) {
    }

    proof fn view_is_value(self) {
    }

    fn ranks_below(&self, other: &Self) -> (r: bool) {
        self.number() < other.number()
    }
}

impl RouteDistinguisher {
    /// The number that orders route distinguishers: by type, administrator and
    /// assigned number.
    fn number(&self) -> (r: u64)
        ensures
            r == self.rank(),
    {
        match *self {
            RouteDistinguisher::As2Administrator { asn, number } => asn as u64 * 0x1_0000_0000 + number as u64,
            RouteDistinguisher::Ipv4Administrator { addr, number } => 0x1_0000_0000_0000 + addr.bits as u64
                * 0x1_0000 + number as u64,
            RouteDistinguisher::As4Administrator { asn, number } => 0x2_0000_0000_0000 + asn as u64 * 0x1_0000
                + number as u64,
        }
    }
}

}
