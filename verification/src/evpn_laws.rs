//! What holds of the bytes of extended communities and route distinguishers, and
//! of what EVPN does with them.
use crate::bgp::evpn_es_import_route_target;
use crate::bgp::evpn_esi_label_ext_comm;
use crate::bgp::evpn_esi_label_from_ext_comm;
use crate::bgp::evpn_mac_mobility_ext_comm;
use crate::bgp::evpn_mac_mobility_from_ext_comm;
use crate::bgp::EthernetSegmentId;
use crate::bgp::EvpnEsiLabel;
use crate::bgp::EvpnMacMobility;
use crate::bgp::ExtComm;
use crate::bgp::RouteDistinguisher;
use crate::bgp::RouteTarget;
use crate::evpn::df_candidates;
use crate::evpn::ead_per_es;
use crate::evpn::elect_df;
use crate::evpn::esi_label_ext_comm;
use crate::evpn::esi_label_from_ext_comm;
use crate::evpn::first_mobility;
use crate::evpn::forwarder_is_listed;
use crate::evpn::has_matching_es_import_rt;
use crate::evpn::lists_in_order;
use crate::evpn::mac_mobility_compare;
use crate::evpn::mac_mobility_decision;
use crate::evpn::mac_mobility_ext_comm;
use crate::evpn::mac_mobility_from_ext_comm;
use crate::evpn::mac_mobility_from_route;
use crate::evpn::mass_withdraw_is_exact;
use crate::evpn::mass_withdraw_mac_routes;
use crate::evpn::mass_withdraw_match;
use crate::evpn::recent_moves;
use crate::evpn::DfElection;
use crate::evpn::EvpnMultihomingMode;
use crate::evpn::MacMobilityDecision;
use crate::evpn::MacMoveState;
use crate::evpn::MacMoveTracker;
use crate::ip::IpAddr;
use crate::message::EvpnRoute;
use crate::rib::Route;
use crate::rib::RouteCompare;
use crate::rib::RouteRejectReason;
use crate::time::Duration;
use crate::time::Timestamp;
use vstd::prelude::*;

verus! {

/// The number in two bytes of eight, from a position on.
pub open spec fn two_at(b: Seq<u8>, i: int) -> int {
    b[i] * 256 + b[i + 1]
}

/// The number in four bytes of eight, from a position on.
pub open spec fn four_at(b: Seq<u8>, i: int) -> int {
    b[i] * 0x100_0000 + b[i + 1] * 0x1_0000 + b[i + 2] * 0x100 + b[i + 3]
}

/// A route distinguisher is written as its kind in two bytes, and the
/// administrator and the number in six: two and four for a short AS number, four
/// and two otherwise.
pub proof fn distinguishers_have_their_layout(rd: RouteDistinguisher, b: [u8; 8])
    requires
        call_ensures(RouteDistinguisher::encode, (rd,), b),
    ensures
        rd matches RouteDistinguisher::As2Administrator { asn, number } ==> two_at(b@, 0) == 0 && two_at(b@, 2) == asn
            && four_at(b@, 4) == number,
        rd matches RouteDistinguisher::Ipv4Administrator { addr, number } ==> two_at(b@, 0) == 1 && four_at(b@, 2)
            == addr.bits && two_at(b@, 6) == number,
        rd matches RouteDistinguisher::As4Administrator { asn, number } ==> two_at(b@, 0) == 2 && four_at(b@, 2) == asn
            && two_at(b@, 6) == number,
{
}

/// A route distinguisher is read from that layout, and from no other kind.
pub proof fn distinguishers_are_read(b: [u8; 8], r: Option<RouteDistinguisher>)
    requires
        call_ensures(RouteDistinguisher::decode, (b,), r),
    ensures
        r is Some <==> two_at(b@, 0) <= 2,
        two_at(b@, 0) == 0 ==> (r matches Some(RouteDistinguisher::As2Administrator { asn, number }) && asn == two_at(
            b@,
            2,
        ) && number == four_at(b@, 4)),
        two_at(b@, 0) == 1 ==> (r matches Some(RouteDistinguisher::Ipv4Administrator { addr, number }) && addr.bits
            == four_at(b@, 2) && number == two_at(b@, 6)),
        two_at(b@, 0) == 2 ==> (r matches Some(RouteDistinguisher::As4Administrator { asn, number }) && asn == four_at(
            b@,
            2,
        ) && number == two_at(b@, 6)),
{
    assert(b@.subrange(0, 2)[0] == b@[0] && b@.subrange(0, 2)[1] == b@[1]);
}

/// A route target is written with its kind and the subtype 2 in a byte each, and
/// then as a route distinguisher is.
pub proof fn targets_have_their_layout(rt: RouteTarget, r: ExtComm)
    requires
        call_ensures(RouteTarget::to_ext_comm, (rt,), r),
    ensures
        r.0@[1] == 2,
        rt matches RouteTarget::As2Administrator { asn, number } ==> r.0@[0] == 0 && two_at(r.0@, 2) == asn && four_at(
            r.0@,
            4,
        ) == number,
        rt matches RouteTarget::Ipv4Administrator { addr, number } ==> r.0@[0] == 1 && four_at(r.0@, 2) == addr.bits
            && two_at(r.0@, 6) == number,
        rt matches RouteTarget::As4Administrator { asn, number } ==> r.0@[0] == 2 && four_at(r.0@, 2) == asn && two_at(
            r.0@,
            6,
        ) == number,
{
}

/// A route target is read from that layout, transitive or not, and from nothing
/// else.
pub proof fn targets_are_read(c: &ExtComm, r: Option<RouteTarget>)
    requires
        call_ensures(RouteTarget::from_ext_comm, (c,), r),
    ensures
        r is Some <==> c.0@[1] == 2 && (c.0@[0] == 0 || c.0@[0] == 1 || c.0@[0] == 2 || c.0@[0] == 0x40 || c.0@[0]
            == 0x41 || c.0@[0] == 0x42),
        r is Some && (c.0@[0] == 0 || c.0@[0] == 0x40) ==> (r matches Some(
            RouteTarget::As2Administrator { asn, number },
        ) && asn == two_at(c.0@, 2) && number == four_at(c.0@, 4)),
        r is Some && (c.0@[0] == 1 || c.0@[0] == 0x41) ==> (r matches Some(
            RouteTarget::Ipv4Administrator { addr, number },
        ) && addr.bits == four_at(c.0@, 2) && number == two_at(c.0@, 6)),
        r is Some && (c.0@[0] == 2 || c.0@[0] == 0x42) ==> (r matches Some(
            RouteTarget::As4Administrator { asn, number },
        ) && asn == four_at(c.0@, 2) && number == two_at(c.0@, 6)),
{
}

/// The route target under which a segment is imported holds the six bytes that
/// follow the type of its identifier, and a segment is matched by that target
/// and no other.
pub proof fn segments_are_imported_by_their_bytes(
    esi: EthernetSegmentId,
    rt: ExtComm,
    esis: &[EthernetSegmentId],
    comms: &[ExtComm],
    r: bool,
    i: int,
    j: int,
)
    requires
        call_ensures(evpn_es_import_route_target, (esi,), rt),
        call_ensures(has_matching_es_import_rt, (esis, comms), r),
    ensures
        rt.0@[0] == 6 && rt.0@[1] == 2,
        forall|k: int| 1 <= k < 7 ==> #[trigger] rt.0@[k + 1] == esi@[k],
        0 <= i < esis@.len() && 0 <= j < comms@.len() && esis@[i] == esi && comms@[j].0@ == rt.0@ ==> r,
        r ==> exists|x: int, y: int|
            0 <= x < esis@.len() && 0 <= y < comms@.len() && (#[trigger] comms@[y]).0@[0] == 6 && comms@[y].0@[1] == 2
                && comms@[y].0@[2] == (#[trigger] esis@[x])@[1] && comms@[y].0@[7] == esis@[x]@[6],
{
    if r {
        let (x, y) = choose|x: int, y: int|
            0 <= x < esis@.len() && 0 <= y < comms@.len() && (#[trigger] comms@[y]).0@ == crate::bgp::es_import_bytes(
                (#[trigger] esis@[x])@,
            );
        assert(comms@[y].0@[0] == 6 && comms@[y].0@[2] == esis@[x]@[1]);
    }
}

/// An ESI label is written as a flag for the single-active mode and a label of
/// twenty bits, shifted by four, with the lowest bit set. It is read back from
/// that, and from no other type.
pub proof fn esi_labels_have_their_layout(
    mode: EvpnMultihomingMode,
    label: u32,
    c: ExtComm,
    e: EvpnEsiLabel,
    ec: ExtComm,
    d: &ExtComm,
    r: Option<(EvpnMultihomingMode, u32)>,
    er: Option<EvpnEsiLabel>,
)
    requires
        call_ensures(esi_label_ext_comm, (mode, label), c),
        call_ensures(evpn_esi_label_ext_comm, (e,), ec),
        call_ensures(esi_label_from_ext_comm, (d,), r),
        call_ensures(evpn_esi_label_from_ext_comm, (d,), er),
    ensures
        c.0@[0] == 6 && c.0@[1] == 1 && c.0@[3] == 0 && c.0@[4] == 0,
        c.0@[2] == 1 <==> mode == EvpnMultihomingMode::SingleActive,
        c.0@[2] == 0 <==> mode == EvpnMultihomingMode::AllActive,
        label < 0x10_0000 ==> c.0@[5] * 0x1_0000 + c.0@[6] * 0x100 + c.0@[7] == label * 16 + 1,
        ec.0@[0] == 6 && ec.0@[1] == 1 && (ec.0@[2] == 1 <==> e.single_active) && (ec.0@[2] == 0
            <==> !e.single_active),
        e.label < 0x10_0000 ==> ec.0@[5] * 0x1_0000 + ec.0@[6] * 0x100 + ec.0@[7] == e.label * 16 + 1,
        r is Some <==> d.0@[0] == 6 && d.0@[1] == 1 && d.0@[7] % 2 == 1,
        r is Some <==> er is Some,
        r matches Some((m, l)) ==> (m == EvpnMultihomingMode::SingleActive <==> d.0@[2] % 2 == 1) && l == (d.0@[5]
            * 0x1_0000 + d.0@[6] * 0x100 + d.0@[7]) / 16,
        er matches Some(x) ==> (x.single_active <==> d.0@[2] % 2 == 1) && x.label == (d.0@[5] * 0x1_0000 + d.0@[6]
            * 0x100 + d.0@[7]) / 16,
{
    let s = seq![0u8] + d.0@.subrange(5, 8);
    assert(s[0] == 0 && s[1] == d.0@[5] && s[2] == d.0@[6] && s[3] == d.0@[7]);
    let n = d.0@[5] * 0x1_0000 + d.0@[6] * 0x100 + d.0@[7];
    assert(crate::ip::from_be4(s) == n);
    assert(n % 2 == d.0@[7] % 2) by {
        assert(n == 2 * (d.0@[5] * 0x8000 + d.0@[6] * 0x80) + d.0@[7]);
    }
}

/// MAC mobility is written as a flag for sticky addresses and the sequence
/// number, and is read back from that, and from no other type.
pub proof fn mobility_has_its_layout(
    sticky: bool,
    sequence: u32,
    m: EvpnMacMobility,
    c: ExtComm,
    e: ExtComm,
    d: &ExtComm,
    r: Option<EvpnMacMobility>,
    er: Option<EvpnMacMobility>,
)
    requires
        call_ensures(mac_mobility_ext_comm, (sticky, sequence), c),
        call_ensures(evpn_mac_mobility_ext_comm, (m,), e),
        call_ensures(mac_mobility_from_ext_comm, (d,), r),
        call_ensures(evpn_mac_mobility_from_ext_comm, (d,), er),
    ensures
        c.0@[0] == 6 && c.0@[1] == 0 && c.0@[3] == 0 && (c.0@[2] == 1 <==> sticky) && (c.0@[2] == 0 <==> !sticky),
        four_at(c.0@, 4) == sequence,
        e.0@[0] == 6 && e.0@[1] == 0 && e.0@[3] == 0 && (e.0@[2] == 1 <==> m.sticky) && (e.0@[2] == 0 <==> !m.sticky),
        four_at(e.0@, 4) == m.sequence,
        r is Some <==> d.0@[0] == 6 && d.0@[1] == 0,
        er == r,
        r matches Some(x) ==> (x.sticky <==> d.0@[2] % 2 == 1) && x.sequence == four_at(d.0@, 4),
{
}

proof fn first_mobility_is(s: Seq<ExtComm>, i: int)
    requires
        0 <= i < s.len(),
        s[i].0@[0] == 6 && s[i].0@[1] == 0,
        forall|j: int| 0 <= j < i ==> !((#[trigger] s[j]).0@[0] == 6 && s[j].0@[1] == 0),
    ensures
        Some(first_mobility(s)) == crate::bgp::mac_mobility_of(s[i].0@),
    decreases i,
{
    if i > 0 {
        assert(!(s[0].0@[0] == 6 && s[0].0@[1] == 0));
        let rest = s.drop_first();
        assert forall|j: int| 0 <= j < i - 1 implies !((#[trigger] rest[j]).0@[0] == 6 && rest[j].0@[1] == 0) by {
            assert(rest[j] == s[j + 1]);
        }
        first_mobility_is(rest, i - 1);
    }
}

proof fn no_first_mobility(s: Seq<ExtComm>)
    requires
        forall|j: int| 0 <= j < s.len() ==> !((#[trigger] s[j]).0@[0] == 6 && s[j].0@[1] == 0),
    ensures
        first_mobility(s) == (EvpnMacMobility { sticky: false, sequence: 0 }),
    decreases s.len(),
{
    if s.len() > 0 {
        let rest = s.drop_first();
        assert(!(s[0].0@[0] == 6 && s[0].0@[1] == 0));
        assert forall|j: int| 0 <= j < rest.len() implies !((#[trigger] rest[j]).0@[0] == 6 && rest[j].0@[1] == 0) by {
            assert(rest[j] == s[j + 1]);
        }
        no_first_mobility(rest);
    }
}

/// The mobility of a route is that of its first extended community of that type,
/// and that of an address that has never moved if there is none.
pub proof fn mobility_comes_with_the_route(route: &Route, r: EvpnMacMobility, i: int)
    requires
        call_ensures(mac_mobility_from_route, (route,), r),
    ensures
        route.attrs.ext_comm is None ==> r.sequence == 0 && !r.sticky,
        route.attrs.ext_comm matches Some(list) ==> {
            let s = list.0.elems();
            &&& 0 <= i < s.len() && s[i].0@[0] == 6 && s[i].0@[1] == 0 && (forall|j: int|
                0 <= j < i ==> !((#[trigger] s[j]).0@[0] == 6 && s[j].0@[1] == 0)) ==> r.sequence == four_at(
                s[i].0@,
                4,
            ) && (r.sticky <==> s[i].0@[2] % 2 == 1)
            &&& (forall|j: int| 0 <= j < s.len() ==> !((#[trigger] s[j]).0@[0] == 6 && s[j].0@[1] == 0))
                ==> r.sequence == 0 && !r.sticky
        },
{
    if let Some(list) = route.attrs.ext_comm {
        let s = list.0.elems();
        if 0 <= i < s.len() && s[i].0@[0] == 6 && s[i].0@[1] == 0 && (forall|j: int|
            0 <= j < i ==> !((#[trigger] s[j]).0@[0] == 6 && s[j].0@[1] == 0)) {
            first_mobility_is(s, i);
        }
        if forall|j: int| 0 <= j < s.len() ==> !((#[trigger] s[j]).0@[0] == 6 && s[j].0@[1] == 0) {
            no_first_mobility(s);
        }
    }
}

/// A sticky address beats one that is not, whatever the sequence numbers are;
/// otherwise the higher number wins, and equal ones decide nothing. Routes are
/// compared by what they carry, and only for MAC/IP advertisements.
pub proof fn later_moves_win(
    a: EvpnMacMobility,
    b: EvpnMacMobility,
    d: MacMobilityDecision,
    prefix: EvpnRoute,
    route: &Route,
    best: &Route,
    r: Option<RouteCompare>,
)
    requires
        call_ensures(mac_mobility_decision, (a, b), d),
        call_ensures(mac_mobility_from_route, (route,), a),
        call_ensures(mac_mobility_from_route, (best,), b),
        call_ensures(mac_mobility_compare, (prefix, route, best), r),
    ensures
        a.sticky && !b.sticky ==> d == MacMobilityDecision::Preferred,
        !a.sticky && b.sticky <==> d == MacMobilityDecision::StickyConflict,
        a.sticky == b.sticky && a.sequence > b.sequence ==> d == MacMobilityDecision::Preferred,
        a.sticky == b.sticky && a.sequence < b.sequence <==> d == MacMobilityDecision::LessPreferred,
        a.sticky == b.sticky && a.sequence == b.sequence <==> d == MacMobilityDecision::Undecided,
        !(prefix is MacIpAdvertisement) ==> r is None,
        prefix is MacIpAdvertisement ==> {
            &&& d == MacMobilityDecision::Undecided <==> r is None
            &&& d == MacMobilityDecision::Preferred <==> r == Some(
                RouteCompare::Preferred(RouteRejectReason::EvpnMacMobilityLowerSequence),
            )
            &&& d == MacMobilityDecision::LessPreferred <==> r == Some(
                RouteCompare::LessPreferred(RouteRejectReason::EvpnMacMobilityLowerSequence),
            )
            &&& d == MacMobilityDecision::StickyConflict <==> r == Some(
                RouteCompare::LessPreferred(RouteRejectReason::EvpnMacMobilitySticky),
            )
        },
{
}

proof fn kept_are_recent<T: Timestamp>(moves: Seq<T>, now: T, window: Duration) -> (n: int)
    ensures
        0 <= n <= moves.len(),
        recent_moves(moves, now, window) == moves.skip(n),
        forall|j: int| 0 <= j < n ==> now.nanos_spec() - (#[trigger] moves[j]).nanos_spec() > window.nanos,
        n < moves.len() ==> now.nanos_spec() - moves[n].nanos_spec() <= window.nanos,
    decreases moves.len(),
{
    if moves.len() > 0 && now.nanos_spec() - moves[0].nanos_spec() > window.nanos {
        let rest = moves.drop_first();
        let n = kept_are_recent(rest, now, window);
        assert(rest.skip(n) =~= moves.skip(n + 1));
        assert forall|j: int| 0 <= j < n + 1 implies now.nanos_spec() - (#[trigger] moves[j]).nanos_spec()
            > window.nanos by {
            if j > 0 {
                assert(rest[j - 1] == moves[j]);
            }
        }
        if n < rest.len() {
            assert(rest[n] == moves[n + 1]);
        }
        n + 1
    } else {
        assert(moves.skip(0) =~= moves);
        0
    }
}

/// A move is counted together with those before it, from the first one that is
/// still within the window on; earlier ones are forgotten. An address is a
/// duplicate as soon as that many are reached, and stays one.
pub proof fn moves_are_counted<T: Timestamp>(tracker: &mut MacMoveTracker<T>, now: T, r: MacMoveState) -> (n: int)
    requires
        call_ensures(MacMoveTracker::<T>::record_move, (tracker, now), r),
    ensures
        0 <= n <= old(tracker).moves@.len(),
        final(tracker).moves@ == old(tracker).moves@.skip(n).push(now),
        forall|j: int|
            0 <= j < n ==> now.nanos_spec() - (#[trigger] old(tracker).moves@[j]).nanos_spec() > old(
                tracker
            ).window.nanos,
        n < old(tracker).moves@.len() ==> now.nanos_spec() - old(tracker).moves@[n].nanos_spec() <= old(
            tracker
        ).window.nanos,
        r == MacMoveState::Duplicate <==> old(tracker).duplicate || final(tracker).moves@.len() >= old(
            tracker
        ).threshold,
        final(tracker).duplicate <==> r == MacMoveState::Duplicate,
        final(tracker).threshold == old(tracker).threshold,
        final(tracker).window == old(tracker).window,
{
    kept_are_recent(old(tracker).moves@, now, old(tracker).window)
}

/// Whether an address comes before another: by number, and those of IPv4 before
/// those of IPv6.
pub open spec fn addr_below(a: IpAddr, b: IpAddr) -> bool {
    match (a, b) {
        (IpAddr::V4(x), IpAddr::V4(y)) => x.bits < y.bits,
        (IpAddr::V6(x), IpAddr::V6(y)) => x.bits < y.bits,
        (IpAddr::V4(_), IpAddr::V6(_)) => true,
        (IpAddr::V6(_), IpAddr::V4(_)) => false,
    }
}

/// The designated forwarder for a VLAN is the router whose place among all that
/// are attached to the segment, in the order of their addresses, is the VLAN
/// modulo their number. There is none for a VLAN above 4094.
pub proof fn forwarders_are_elected_in_order(
    own: IpAddr,
    remotes: &[IpAddr],
    vlan: u16,
    r: Option<DfElection>,
    s: Seq<IpAddr>,
)
    requires
        call_ensures(elect_df, (own, remotes, vlan), r),
        forall|i: int, j: int| 0 <= i < j < s.len() ==> addr_below(#[trigger] s[i], #[trigger] s[j]),
        forall|a: IpAddr| #[trigger] s.contains(a) <==> a == own || remotes@.contains(a),
    ensures
        r is None <==> vlan > 4094,
        r matches Some(e) ==> e.df == s[vlan as int % s.len() as int] && (e.self_is_df <==> e.df == own),
{
    let c = df_candidates(own, remotes@);
    assert(lists_in_order(s, c)) by {
        assert forall|a: IpAddr| #[trigger] c.contains(a) <==> s.contains(a) by {
            assert(s.contains(a) <==> a == own || remotes@.contains(a));
        }
        assert forall|i: int, j: int| 0 <= i < j < s.len() implies <IpAddr as crate::ord::Key>::before(
            #[trigger] s[i],
            #[trigger] s[j],
        ) by {
            assert(addr_below(s[i], s[j]));
        }
    }
    forwarder_is_listed(s, c, vlan);
}

/// With a segment go the MAC/IP routes of that segment from that peer, and no
/// others. An auto-discovery route stands for the whole segment if it has the
/// largest tag and no label.
pub proof fn segments_have_their_routes(
    routes: &[(IpAddr, EvpnRoute)],
    peer: IpAddr,
    esi: EthernetSegmentId,
    r: Vec<EvpnRoute>,
    i: int,
    k: int,
    other: IpAddr,
    other_esi: EthernetSegmentId,
    m: bool,
    tag: u32,
    label: u32,
    per_es: bool,
)
    requires
        call_ensures(mass_withdraw_mac_routes, (routes, peer, esi), r),
        call_ensures(mass_withdraw_match, (other, other_esi, peer, esi), m),
        call_ensures(ead_per_es, (tag, label), per_es),
    ensures
        0 <= i < routes@.len() && routes@[i].0 == peer && (routes@[i].1 matches EvpnRoute::MacIpAdvertisement(mac)
            && mac.esi@ == esi@) ==> r@.contains(routes@[i].1),
        0 <= k < r@.len() ==> (r@[k] matches EvpnRoute::MacIpAdvertisement(mac) && mac.esi@ == esi@) && exists|j: int|
            0 <= j < routes@.len() && (#[trigger] routes@[j]).0 == peer && routes@[j].1 == r@[k],
        m <==> other == peer && other_esi@ == esi@,
        per_es <==> tag == 0xFFFF_FFFF && label == 0,
{
    if 0 <= i < routes@.len() {
        mass_withdraw_is_exact(routes@, peer, esi@, routes@[i].1);
    }
    if 0 <= k < r@.len() {
        assert(r@.contains(r@[k]));
        mass_withdraw_is_exact(routes@, peer, esi@, r@[k]);
    }
}

}
