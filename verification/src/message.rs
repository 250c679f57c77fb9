//! BGP messages and the reachability information they carry.
use crate::attribute::Attrs;
use crate::bgp::bytes_below;
use crate::bgp::bytes_rank;
use crate::bgp::bytes_rank_identifies;
use crate::bgp::EthernetSegmentId;
use crate::bgp::RouteDistinguisher;
use crate::ip::IpAddr;
use crate::ip::Ipv4Addr;
use crate::ip::Ipv4Network;
use crate::ip::Ipv6Addr;
use crate::ip::Ipv6Network;
use crate::ord::Ranked;
use vstd::prelude::*;

verus! {

#[derive(Clone, Copy, Debug, PartialEq, Eq)]
pub struct EvpnEthernetAutoDiscovery {
    pub rd: RouteDistinguisher,
    pub esi: EthernetSegmentId,
    pub ethernet_tag_id: u32,
    pub label: u32,
}

#[derive(Clone, Copy, Debug, PartialEq, Eq)]
pub struct EvpnMacIpAdvertisement {
    pub rd: RouteDistinguisher,
    pub esi: EthernetSegmentId,
    pub ethernet_tag_id: u32,
    pub mac: [u8; 6],
    pub ip: Option<IpAddr>,
    pub label: u32,
}

#[derive(Clone, Copy, Debug, PartialEq, Eq)]
pub struct EvpnInclusiveMulticast {
    pub rd: RouteDistinguisher,
    pub ethernet_tag_id: u32,
    pub originator: IpAddr,
}

#[derive(Clone, Copy, Debug, PartialEq, Eq)]
pub struct EvpnEthernetSegment {
    pub rd: RouteDistinguisher,
    pub esi: EthernetSegmentId,
    pub originator: IpAddr,
}

/// An EVPN route.
#[derive(Clone, Copy, Debug, PartialEq, Eq)]
pub enum EvpnRoute {
    EthernetAutoDiscovery(EvpnEthernetAutoDiscovery),
    MacIpAdvertisement(EvpnMacIpAdvertisement),
    InclusiveMulticast(EvpnInclusiveMulticast),
    EthernetSegment(EvpnEthernetSegment),
}

/// The fields of an EVPN route in the order in which they are compared; fields
/// that a route does not have are zero.
#[derive(Clone, Copy)]
pub struct EvpnKey {
    pub kind: u8,
    pub rd: RouteDistinguisher,
    pub esi: [u8; 10],
    pub tag: u32,
    pub mac: [u8; 6],
    pub ip: Option<IpAddr>,
    pub label: u32,
}

impl EvpnRoute {
    fn key(&self) -> (r: EvpnKey)
        ensures
            r.kind == evpn_kind(*self),
            r.rd == evpn_rd(*self),
            r.esi@ == evpn_esi(*self),
            r.tag == evpn_tag(*self),
            r.mac@ == evpn_mac(*self),
            r.ip == evpn_ip(*self),
            r.label == evpn_label(*self),
    {
        let zero_esi: [u8; 10] = [0, 0, 0, 0, 0, 0, 0, 0, 0, 0];
        let zero_mac: [u8; 6] = [0, 0, 0, 0, 0, 0];
        assert(zero_esi@ =~= zeros(10));
        assert(zero_mac@ =~= zeros(6));
        match *self {
            EvpnRoute::EthernetAutoDiscovery(x) => EvpnKey {
                kind: 1,
                rd: x.rd,
                esi: x.esi,
                tag: x.ethernet_tag_id,
                mac: zero_mac,
                ip: None,
                label: x.label,
            },
            EvpnRoute::MacIpAdvertisement(x) => EvpnKey {
                kind: 2,
                rd: x.rd,
                esi: x.esi,
                tag: x.ethernet_tag_id,
                mac: x.mac,
                ip: x.ip,
                label: x.label,
            },
            EvpnRoute::InclusiveMulticast(x) => EvpnKey {
                kind: 3,
                rd: x.rd,
                esi: zero_esi,
                tag: x.ethernet_tag_id,
                mac: zero_mac,
                ip: Some(x.originator),
                label: 0,
            },
            EvpnRoute::EthernetSegment(x) => EvpnKey {
                kind: 4,
                rd: x.rd,
                esi: x.esi,
                tag: 0,
                mac: zero_mac,
                ip: Some(x.originator),
                label: 0,
            },
        }
    }
}

pub open spec fn zeros(n: nat) -> Seq<u8> {
    Seq::new(n, |i: int| 0u8)
}

pub open spec fn evpn_kind(r: EvpnRoute) -> u8 {
    match r {
        EvpnRoute::EthernetAutoDiscovery(_) => 1,
        EvpnRoute::MacIpAdvertisement(_) => 2,
        EvpnRoute::InclusiveMulticast(_) => 3,
        EvpnRoute::EthernetSegment(_) => 4,
    }
}

pub open spec fn evpn_rd(r: EvpnRoute) -> RouteDistinguisher {
    match r {
        EvpnRoute::EthernetAutoDiscovery(x) => x.rd,
        EvpnRoute::MacIpAdvertisement(x) => x.rd,
        EvpnRoute::InclusiveMulticast(x) => x.rd,
        EvpnRoute::EthernetSegment(x) => x.rd,
    }
}

pub open spec fn evpn_esi(r: EvpnRoute) -> Seq<u8> {
    match r {
        EvpnRoute::EthernetAutoDiscovery(x) => x.esi@,
        EvpnRoute::MacIpAdvertisement(x) => x.esi@,
        EvpnRoute::InclusiveMulticast(_) => zeros(10),
        EvpnRoute::EthernetSegment(x) => x.esi@,
    }
}

pub open spec fn evpn_tag(r: EvpnRoute) -> u32 {
    match r {
        EvpnRoute::EthernetAutoDiscovery(x) => x.ethernet_tag_id,
        EvpnRoute::MacIpAdvertisement(x) => x.ethernet_tag_id,
        EvpnRoute::InclusiveMulticast(x) => x.ethernet_tag_id,
        EvpnRoute::EthernetSegment(_) => 0,
    }
}

pub open spec fn evpn_mac(r: EvpnRoute) -> Seq<u8> {
    match r {
        EvpnRoute::MacIpAdvertisement(x) => x.mac@,
        _ => zeros(6),
    }
}

pub open spec fn evpn_ip(r: EvpnRoute) -> Option<IpAddr> {
    match r {
        EvpnRoute::EthernetAutoDiscovery(_) => None,
        EvpnRoute::MacIpAdvertisement(x) => x.ip,
        EvpnRoute::InclusiveMulticast(x) => Some(x.originator),
        EvpnRoute::EthernetSegment(x) => Some(x.originator),
    }
}

pub open spec fn evpn_label(r: EvpnRoute) -> u32 {
    match r {
        EvpnRoute::EthernetAutoDiscovery(x) => x.label,
        EvpnRoute::MacIpAdvertisement(x) => x.label,
        _ => 0,
    }
}

/// Two numbers as one, the first with the greater weight.
pub open spec fn paired(x: int, c: int, y: int) -> int {
    x * c + y
}

pub proof fn paired_order(x: int, y: int, x2: int, y2: int, c: int)
    requires
        0 <= y < c,
        0 <= y2 < c,
    ensures
        paired(x, c, y) < paired(x2, c, y2) <==> (x < x2 || (x == x2 && y < y2)),
        paired(x, c, y) == paired(x2, c, y2) <==> (x == x2 && y == y2),
{
    assert(x < x2 ==> x * c + y < x2 * c + y2) by (nonlinear_arith)
        requires
            0 <= y < c,
            0 <= y2 < c,
    ;
    assert(x2 < x ==> x2 * c + y2 < x * c + y) by (nonlinear_arith)
        requires
            0 <= y < c,
            0 <= y2 < c,
    ;
}

pub open spec fn ip_rank(ip: Option<IpAddr>) -> int {
    match ip {
        None => 0,
        Some(a) => 1 + a.rank(),
    }
}

/// A number above that of any optional address.
pub open spec fn ip_span() -> int {
    0x4_0000_0000int * 0x1_0000_0000_0000_0000_0000_0000int
}

spec fn pow256(n: nat) -> int
    decreases n,
{
    if n == 0 {
        1
    } else {
        256 * pow256((n - 1) as nat)
    }
}

proof fn bytes_rank_bound(s: Seq<u8>)
    ensures
        0 <= bytes_rank(s) < pow256(s.len()),
    decreases s.len(),
{
    if s.len() > 0 {
        bytes_rank_bound(s.drop_last());
    }
}

/// The number that orders EVPN routes: by type, then field by field.
pub open spec fn evpn_rank(r: EvpnRoute) -> int {
    let a = paired(evpn_kind(r) as int, 0x4_0000_0000_0000, evpn_rd(r).rank());
    let b = paired(a, 0x1_0000_0000_0000_0000_0000, bytes_rank(evpn_esi(r)));
    let c = paired(b, 0x1_0000_0000, evpn_tag(r) as int);
    let d = paired(c, 0x1_0000_0000_0000, bytes_rank(evpn_mac(r)));
    let e = paired(d, ip_span(), ip_rank(evpn_ip(r)));
    paired(e, 0x1_0000_0000, evpn_label(r) as int)
}

/// Comparing the numbers of two routes is comparing their fields in turn.
proof fn evpn_rank_order(p: EvpnRoute, q: EvpnRoute)
    ensures
        evpn_rank(p) == evpn_rank(q) <==> (evpn_kind(p) == evpn_kind(q) && evpn_rd(p).rank() == evpn_rd(q).rank()
            && bytes_rank(evpn_esi(p)) == bytes_rank(evpn_esi(q)) && evpn_tag(p) == evpn_tag(q) && bytes_rank(
            evpn_mac(p),
        ) == bytes_rank(evpn_mac(q)) && ip_rank(evpn_ip(p)) == ip_rank(evpn_ip(q)) && evpn_label(p) == evpn_label(q)),
        evpn_rank(p) < evpn_rank(q) <==> (if evpn_kind(p) != evpn_kind(q) {
            evpn_kind(p) < evpn_kind(q)
        } else if evpn_rd(p).rank() != evpn_rd(q).rank() {
            evpn_rd(p).rank() < evpn_rd(q).rank()
        } else if bytes_rank(evpn_esi(p)) != bytes_rank(evpn_esi(q)) {
            bytes_rank(evpn_esi(p)) < bytes_rank(evpn_esi(q))
        } else if evpn_tag(p) != evpn_tag(q) {
            evpn_tag(p) < evpn_tag(q)
        } else if bytes_rank(evpn_mac(p)) != bytes_rank(evpn_mac(q)) {
            bytes_rank(evpn_mac(p)) < bytes_rank(evpn_mac(q))
        } else if ip_rank(evpn_ip(p)) != ip_rank(evpn_ip(q)) {
            ip_rank(evpn_ip(p)) < ip_rank(evpn_ip(q))
        } else {
            evpn_label(p) < evpn_label(q)
        }),
{
    reveal_with_fuel(pow256, 11);
    bytes_rank_bound(evpn_esi(p));
    bytes_rank_bound(evpn_esi(q));
    bytes_rank_bound(evpn_mac(p));
    bytes_rank_bound(evpn_mac(q));
    assert(evpn_esi(p).len() == 10 && evpn_esi(q).len() == 10);
    assert(evpn_mac(p).len() == 6 && evpn_mac(q).len() == 6);
    assert(pow256(10) == 0x1_0000_0000_0000_0000_0000);
    assert(pow256(6) == 0x1_0000_0000_0000);
    let (pa, qa) = (
        paired(evpn_kind(p) as int, 0x4_0000_0000_0000, evpn_rd(p).rank()),
        paired(evpn_kind(q) as int, 0x4_0000_0000_0000, evpn_rd(q).rank()),
    );
    paired_order(
        evpn_kind(p) as int,
        evpn_rd(p).rank(),
        evpn_kind(q) as int,
        evpn_rd(q).rank(),
        0x4_0000_0000_0000,
    );
    let (pb, qb) = (
        paired(pa, 0x1_0000_0000_0000_0000_0000, bytes_rank(evpn_esi(p))),
        paired(qa, 0x1_0000_0000_0000_0000_0000, bytes_rank(evpn_esi(q))),
    );
    paired_order(pa, bytes_rank(evpn_esi(p)), qa, bytes_rank(evpn_esi(q)), 0x1_0000_0000_0000_0000_0000);
    let (pc, qc) = (paired(pb, 0x1_0000_0000, evpn_tag(p) as int), paired(qb, 0x1_0000_0000, evpn_tag(q) as int));
    paired_order(pb, evpn_tag(p) as int, qb, evpn_tag(q) as int, 0x1_0000_0000);
    let (pd, qd) = (
        paired(pc, 0x1_0000_0000_0000, bytes_rank(evpn_mac(p))),
        paired(qc, 0x1_0000_0000_0000, bytes_rank(evpn_mac(q))),
    );
    paired_order(pc, bytes_rank(evpn_mac(p)), qc, bytes_rank(evpn_mac(q)), 0x1_0000_0000_0000);
    let (pe, qe) = (
        paired(pd, ip_span(), ip_rank(evpn_ip(p))),
        paired(qd, ip_span(), ip_rank(evpn_ip(q))),
    );
    paired_order(
        pd,
        ip_rank(evpn_ip(p)),
        qd,
        ip_rank(evpn_ip(q)),
        ip_span(),
    );
    paired_order(pe, evpn_label(p) as int, qe, evpn_label(q) as int, 0x1_0000_0000);
}

impl View for EvpnRoute {
    type V = EvpnRoute;

    open spec fn view(&self) -> EvpnRoute {
        *self
    }
}

impl Ranked for EvpnRoute {
    open spec fn rank(self) -> int {
        evpn_rank(self)
    }

    proof fn rank_identifies(a: Self, b: Self) {
        evpn_rank_order(a, b);
        RouteDistinguisher::rank_identifies(evpn_rd(a), evpn_rd(b));
        bytes_rank_identifies(evpn_esi(a), evpn_esi(b));
        bytes_rank_identifies(evpn_mac(a), evpn_mac(b));
        assert(evpn_ip(a) == evpn_ip(b)) by {
            match (evpn_ip(a), evpn_ip(b)) {
                (Some(x), Some(y)) => {
                    IpAddr::rank_identifies(x, y);
                },
                _ => {},
            }
        }
        match (a, b) {
            (EvpnRoute::EthernetAutoDiscovery(x), EvpnRoute::EthernetAutoDiscovery(y)) => {
                assert(x.esi =~= y.esi);
            },
            (EvpnRoute::MacIpAdvertisement(x), EvpnRoute::MacIpAdvertisement(y)) => {
                assert(x.esi =~= y.esi);
                assert(x.mac =~= y.mac);
            },
            (EvpnRoute::EthernetSegment(x), EvpnRoute::EthernetSegment(y)) => {
                assert(x.esi =~= y.esi);
            },
            _ => {},
        }
    }

    proof fn view_is_value(self) {
    }

    fn ranks_below(&self, other: &Self) -> (r: bool) {
        let p = self.key();
        let q = other.key();
        proof {
            evpn_rank_order(*self, *other);
        }
        if p.kind != q.kind {
            return p.kind < q.kind;
        }
        if p.rd.ranks_below(&q.rd) {
            return true;
        }
        if q.rd.ranks_below(&p.rd) {
            return false;
        }
        if bytes_below(p.esi.as_slice(), q.esi.as_slice()) {
            return true;
        }
        if bytes_below(q.esi.as_slice(), p.esi.as_slice()) {
            return false;
        }
        if p.tag != q.tag {
            return p.tag < q.tag;
        }
        if bytes_below(p.mac.as_slice(), q.mac.as_slice()) {
            return true;
        }
        if bytes_below(q.mac.as_slice(), p.mac.as_slice()) {
            return false;
        }
        match (p.ip, q.ip) {
            (None, Some(_)) => {
                return true;
            },
            (Some(_), None) => {
                return false;
            },
            (Some(x), Some(y)) => {
                if x.ranks_below(&y) {
                    return true;
                }
                if y.ranks_below(&x) {
                    return false;
                }
            },
            (None, None) => {},
        }
        p.label < q.label
    }
}

/// Address family identifiers.
#[derive(Clone, Copy, Debug, PartialEq, Eq, Structural)]
pub enum Afi {
    Ipv4,
    Ipv6,
    L2vpn,
}

/// Subsequent address family identifiers.
#[derive(Clone, Copy, Debug, PartialEq, Eq, Structural)]
pub enum Safi {
    Unicast,
    Evpn,
    LabeledVpn,
}

/// The number of an address family.
pub open spec fn afi_value(afi: Afi) -> u16 {
    match afi {
        Afi::Ipv4 => 1,
        Afi::Ipv6 => 2,
        Afi::L2vpn => 25,
    }
}

/// The number of a subsequent address family.
pub open spec fn safi_value(safi: Safi) -> u8 {
    match safi {
        Safi::Unicast => 1,
        Safi::Evpn => 70,
        Safi::LabeledVpn => 128,
    }
}

impl Afi {
    pub fn from_u16(value: u16) -> (r: Option<Afi>)
        ensures
            match r {
                Some(afi) => value == afi_value(afi),
                None => forall|afi: Afi| value != #[trigger] afi_value(afi),
            },
    {
        match value {
            1 => Some(Afi::Ipv4),
            2 => Some(Afi::Ipv6),
            25 => Some(Afi::L2vpn),
            _ => None,
        }
    }
}

impl Safi {
    pub fn from_u8(value: u8) -> (r: Option<Safi>)
        ensures
            match r {
                Some(safi) => value == safi_value(safi),
                None => forall|safi: Safi| value != #[trigger] safi_value(safi),
            },
    {
        match value {
            1 => Some(Safi::Unicast),
            70 => Some(Safi::Evpn),
            128 => Some(Safi::LabeledVpn),
            _ => None,
        }
    }
}

/// The longest message.
pub const MAX_LEN: u32 = 4096;

/// The length of an UPDATE message that carries nothing.
pub const UPDATE_MIN_LEN: u32 = 23;

/// The length of a NEXT_HOP attribute.
pub const NEXTHOP_ATTR_LEN: u32 = 7;

/// The length of an MP_REACH_NLRI attribute without next hops and prefixes.
pub const MP_REACH_MIN_LEN: u32 = 5;

/// The length of an MP_UNREACH_NLRI attribute without prefixes.
pub const MP_UNREACH_MIN_LEN: u32 = 3;

/// Prefixes, and beside them the identifiers of the paths: a prefix without one
/// has the identifier 0.
pub struct ReachNlri {
    pub prefixes: Vec<Ipv4Network>,
    pub path_ids: Vec<u32>,
    pub nexthop: Ipv4Addr,
}

/// Withdrawn prefixes, and beside them the identifiers of the paths.
pub struct UnreachNlri {
    pub prefixes: Vec<Ipv4Network>,
    pub path_ids: Vec<u32>,
}

#[derive(Clone, Copy, Debug, PartialEq, Eq, Structural)]
pub struct LabeledVpnIpv4Nlri {
    pub label: u32,
    pub rd: RouteDistinguisher,
    pub prefix: Ipv4Network,
}

#[derive(Clone, Copy, Debug, PartialEq, Eq, Structural)]
pub struct LabeledVpnIpv6Nlri {
    pub label: u32,
    pub rd: RouteDistinguisher,
    pub prefix: Ipv6Network,
}

#[allow(inconsistent_fields)]
pub enum MpReachNlri {
    Ipv4Unicast { prefixes: Vec<Ipv4Network>, path_ids: Vec<u32>, nexthop: Ipv4Addr },
    Ipv6Unicast { prefixes: Vec<Ipv6Network>, path_ids: Vec<u32>, nexthop: Ipv6Addr, ll_nexthop: Option<Ipv6Addr> },
    L3vpnIpv4Unicast { prefixes: Vec<LabeledVpnIpv4Nlri>, path_ids: Vec<u32>, nexthop: Ipv4Addr },
    L3vpnIpv6Unicast { prefixes: Vec<LabeledVpnIpv6Nlri>, path_ids: Vec<u32>, nexthop: Ipv6Addr },
    L2vpnEvpn { routes: Vec<EvpnRoute>, path_ids: Vec<u32>, nexthop: IpAddr },
}

#[allow(inconsistent_fields)]
pub enum MpUnreachNlri {
    Ipv4Unicast { prefixes: Vec<Ipv4Network>, path_ids: Vec<u32> },
    Ipv6Unicast { prefixes: Vec<Ipv6Network>, path_ids: Vec<u32> },
    L3vpnIpv4Unicast { prefixes: Vec<LabeledVpnIpv4Nlri>, path_ids: Vec<u32> },
    L3vpnIpv6Unicast { prefixes: Vec<LabeledVpnIpv6Nlri>, path_ids: Vec<u32> },
    L2vpnEvpn { routes: Vec<EvpnRoute>, path_ids: Vec<u32> },
}

/// An UPDATE message.
pub struct UpdateMsg {
    pub reach: Option<ReachNlri>,
    pub unreach: Option<UnreachNlri>,
    pub mp_reach: Option<MpReachNlri>,
    pub mp_unreach: Option<MpUnreachNlri>,
    pub attrs: Option<Attrs>,
}

/// What MP_REACH_NLRI carries, as a mathematical value.
#[allow(inconsistent_fields)]
pub enum MpReachModel {
    Ipv4Unicast { prefixes: Seq<Ipv4Network>, path_ids: Seq<u32>, nexthop: Ipv4Addr },
    Ipv6Unicast { prefixes: Seq<Ipv6Network>, path_ids: Seq<u32>, nexthop: Ipv6Addr, ll_nexthop: Option<Ipv6Addr> },
    L3vpnIpv4Unicast { prefixes: Seq<LabeledVpnIpv4Nlri>, path_ids: Seq<u32>, nexthop: Ipv4Addr },
    L3vpnIpv6Unicast { prefixes: Seq<LabeledVpnIpv6Nlri>, path_ids: Seq<u32>, nexthop: Ipv6Addr },
    L2vpnEvpn { routes: Seq<EvpnRoute>, path_ids: Seq<u32>, nexthop: IpAddr },
}

/// What MP_UNREACH_NLRI carries, as a mathematical value.
#[allow(inconsistent_fields)]
pub enum MpUnreachModel {
    Ipv4Unicast { prefixes: Seq<Ipv4Network>, path_ids: Seq<u32> },
    Ipv6Unicast { prefixes: Seq<Ipv6Network>, path_ids: Seq<u32> },
    L3vpnIpv4Unicast { prefixes: Seq<LabeledVpnIpv4Nlri>, path_ids: Seq<u32> },
    L3vpnIpv6Unicast { prefixes: Seq<LabeledVpnIpv6Nlri>, path_ids: Seq<u32> },
    L2vpnEvpn { routes: Seq<EvpnRoute>, path_ids: Seq<u32> },
}

/// An UPDATE message as a mathematical value.
pub struct UpdateModel {
    pub reach: Option<(Seq<Ipv4Network>, Seq<u32>, Ipv4Addr)>,
    pub unreach: Option<(Seq<Ipv4Network>, Seq<u32>)>,
    pub mp_reach: Option<MpReachModel>,
    pub mp_unreach: Option<MpUnreachModel>,
    pub attrs: Option<Attrs>,
}

impl View for MpReachNlri {
    type V = MpReachModel;

    open spec fn view(&self) -> MpReachModel {
        match *self {
            MpReachNlri::Ipv4Unicast { prefixes, path_ids, nexthop } => MpReachModel::Ipv4Unicast {
                prefixes: prefixes@,
                path_ids: path_ids@,
                nexthop,
            },
            MpReachNlri::Ipv6Unicast { prefixes, path_ids, nexthop, ll_nexthop } => MpReachModel::Ipv6Unicast {
                prefixes: prefixes@,
                path_ids: path_ids@,
                nexthop,
                ll_nexthop,
            },
            MpReachNlri::L3vpnIpv4Unicast { prefixes, path_ids, nexthop } => MpReachModel::L3vpnIpv4Unicast {
                prefixes: prefixes@,
                path_ids: path_ids@,
                nexthop,
            },
            MpReachNlri::L3vpnIpv6Unicast { prefixes, path_ids, nexthop } => MpReachModel::L3vpnIpv6Unicast {
                prefixes: prefixes@,
                path_ids: path_ids@,
                nexthop,
            },
            MpReachNlri::L2vpnEvpn { routes, path_ids, nexthop } => MpReachModel::L2vpnEvpn {
                routes: routes@,
                path_ids: path_ids@,
                nexthop,
            },
        }
    }
}

impl View for MpUnreachNlri {
    type V = MpUnreachModel;

    open spec fn view(&self) -> MpUnreachModel {
        match *self {
            MpUnreachNlri::Ipv4Unicast { prefixes, path_ids } => MpUnreachModel::Ipv4Unicast {
                prefixes: prefixes@,
                path_ids: path_ids@,
            },
            MpUnreachNlri::Ipv6Unicast { prefixes, path_ids } => MpUnreachModel::Ipv6Unicast {
                prefixes: prefixes@,
                path_ids: path_ids@,
            },
            MpUnreachNlri::L3vpnIpv4Unicast { prefixes, path_ids } => MpUnreachModel::L3vpnIpv4Unicast {
                prefixes: prefixes@,
                path_ids: path_ids@,
            },
            MpUnreachNlri::L3vpnIpv6Unicast { prefixes, path_ids } => MpUnreachModel::L3vpnIpv6Unicast {
                prefixes: prefixes@,
                path_ids: path_ids@,
            },
            MpUnreachNlri::L2vpnEvpn { routes, path_ids } => MpUnreachModel::L2vpnEvpn {
                routes: routes@,
                path_ids: path_ids@,
            },
        }
    }
}

impl View for UpdateMsg {
    type V = UpdateModel;

    open spec fn view(&self) -> UpdateModel {
        UpdateModel {
            reach: match self.reach {
                Some(r) => Some((r.prefixes@, r.path_ids@, r.nexthop)),
                None => None,
            },
            unreach: match self.unreach {
                Some(r) => Some((r.prefixes@, r.path_ids@)),
                None => None,
            },
            mp_reach: match self.mp_reach {
                Some(r) => Some(r@),
                None => None,
            },
            mp_unreach: match self.mp_unreach {
                Some(r) => Some(r@),
                None => None,
            },
            attrs: self.attrs,
        }
    }
}

/// The UPDATE message that carries nothing.
pub open spec fn empty_update() -> UpdateModel {
    UpdateModel { reach: None, unreach: None, mp_reach: None, mp_unreach: None, attrs: None }
}

/// The models of messages.
pub open spec fn update_models(msgs: Seq<UpdateMsg>) -> Seq<UpdateModel> {
    Seq::new(msgs.len(), |i: int| msgs[i]@)
}

#[derive(Clone, Copy, Debug, PartialEq, Eq, Structural)]
pub enum ErrorCode {
    MessageHeaderError,
    OpenMessageError,
    UpdateMessageError,
    HoldTimerExpired,
    FiniteStateMachineError,
    Cease,
}

#[derive(Clone, Copy, Debug, PartialEq, Eq, Structural)]
pub enum CeaseSubcode {
    MaximumNumberofPrefixesReached,
    AdministrativeShutdown,
    PeerDeConfigured,
    AdministrativeReset,
    ConnectionRejected,
    OtherConfigurationChange,
    ConnectionCollisionResolution,
    OutOfResources,
}

/// The number of an error code.
pub open spec fn error_code_value(code: ErrorCode) -> u8 {
    match code {
        ErrorCode::MessageHeaderError => 1,
        ErrorCode::OpenMessageError => 2,
        ErrorCode::UpdateMessageError => 3,
        ErrorCode::HoldTimerExpired => 4,
        ErrorCode::FiniteStateMachineError => 5,
        ErrorCode::Cease => 6,
    }
}

/// The number of a subcode of Cease.
pub open spec fn cease_subcode_value(code: CeaseSubcode) -> u8 {
    match code {
        CeaseSubcode::MaximumNumberofPrefixesReached => 1,
        CeaseSubcode::AdministrativeShutdown => 2,
        CeaseSubcode::PeerDeConfigured => 3,
        CeaseSubcode::AdministrativeReset => 4,
        CeaseSubcode::ConnectionRejected => 5,
        CeaseSubcode::OtherConfigurationChange => 6,
        CeaseSubcode::ConnectionCollisionResolution => 7,
        CeaseSubcode::OutOfResources => 8,
    }
}

/// A NOTIFICATION message, data aside.
#[derive(Clone, Copy, Debug, PartialEq, Eq, Structural)]
pub struct NotificationMsg {
    pub error_code: u8,
    pub error_subcode: u8,
}

impl NotificationMsg {
    /// The message that ends a session with a subcode of Cease.
    pub fn new(error_code: ErrorCode, error_subcode: CeaseSubcode) -> (r: Self)
        ensures
            r.error_code == error_code_value(error_code),
            r.error_subcode == cease_subcode_value(error_subcode),
    {
        NotificationMsg {
            error_code: match error_code {
                ErrorCode::MessageHeaderError => 1,
                ErrorCode::OpenMessageError => 2,
                ErrorCode::UpdateMessageError => 3,
                ErrorCode::HoldTimerExpired => 4,
                ErrorCode::FiniteStateMachineError => 5,
                ErrorCode::Cease => 6,
            },
            error_subcode: match error_subcode {
                CeaseSubcode::MaximumNumberofPrefixesReached => 1,
                CeaseSubcode::AdministrativeShutdown => 2,
                CeaseSubcode::PeerDeConfigured => 3,
                CeaseSubcode::AdministrativeReset => 4,
                CeaseSubcode::ConnectionRejected => 5,
                CeaseSubcode::OtherConfigurationChange => 6,
                CeaseSubcode::ConnectionCollisionResolution => 7,
                CeaseSubcode::OutOfResources => 8,
            },
        }
    }
}

/// What a speaker can do with several paths to a prefix.
#[derive(Clone, Copy, Debug, PartialEq, Eq, Structural)]
pub enum AddPathMode {
    Receive,
    Send,
    ReceiveSend,
}

/// What a speaker can do with several paths in an address family.
#[derive(Clone, Copy, Debug, PartialEq, Eq, Structural)]
pub struct AddPathTuple {
    pub afi: Afi,
    pub safi: Safi,
    pub mode: AddPathMode,
}

/// A ROUTE-REFRESH message.
#[derive(Clone, Copy, Debug, PartialEq, Eq, Structural)]
pub struct RouteRefreshMsg {
    pub afi: u16,
    pub safi: u8,
}

}
