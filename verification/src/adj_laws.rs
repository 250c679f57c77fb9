//! What the processing of messages and the decision process keep and change.
use crate::af::drained;
use crate::af::AddressFamily;
use crate::af::Ipv4Unicast;
use crate::af::Ipv6Unicast;
use crate::attribute::Attrs;
use crate::bgp::AfiSafi;
use crate::bgp::EthernetSegmentId;
use crate::decision::advertised_all;
use crate::decision::candidates;
use crate::decision::chosen_all;
use crate::decision::decision_effect;
use crate::decision::distribute_all;
use crate::decision::dropped_prefixes;
use crate::decision::imported;
use crate::decision::is_stale;
use crate::decision::kept_attrs;
use crate::decision::kept_routes;
use crate::decision::no_output;
use crate::decision::not_any_more;
use crate::decision::offered;
use crate::decision::policy_route;
use crate::decision::selected_table;
use crate::decision::selection_offer;
use crate::decision::takes_part;
use crate::decision::unadvertised_all;
use crate::decision::Answer;
use crate::decision::Offer;
use crate::decision::OutState;
use crate::decision::Selection;
use crate::events::announced_macs;
use crate::events::evpn_withdrawn;
use crate::events::held_prefixes;
use crate::events::learned_all;
use crate::events::limit_exceeded;
use crate::events::mass_withdrawn_paths;
use crate::events::mass_withdrawn_routes;
use crate::events::nbr_origin;
use crate::events::nbr_route_type;
use crate::events::received;
use crate::events::received_all;
use crate::events::segment_withdrawn;
use crate::events::segments_withdrawn;
use crate::events::withdrawn;
use crate::events::withdrawn_all;
use crate::events::withdrawn_segments;
use crate::events::InState;
use crate::events::PolicyApplyModel;
use crate::evpn::mass_withdraw_is_exact;
use crate::ip::IpAddr;
use crate::message::EvpnRoute;
use crate::message::MpReachModel;
use crate::message::MpUnreachModel;
use crate::message::UpdateModel;
use crate::nbr_update::evpn_labels;
use crate::nbr_update::labeled_effect;
use crate::nbr_update::labeled_paths;
use crate::nbr_update::mp_reach_step;
use crate::nbr_update::mp_withdraw;
use crate::nbr_update::reach_as_unreach;
use crate::nbr_update::reach_effect;
use crate::nbr_update::reach_step;
use crate::nbr_update::rx_paths;
use crate::nbr_update::unreach_effect;
use crate::nbr_update::update_effect;
use crate::nbr_update::vpnv4_labels;
use crate::nbr_update::vpnv4_prefixes;
use crate::nbr_update::vpnv6_labels;
use crate::nbr_update::vpnv6_prefixes;
use crate::nbr_update::with_nexthop;
use crate::nbr_update::with_nexthops;
use crate::nbr_update::SessionState;
use crate::neighbor::Neighbor;
use crate::neighbor::QueueModel;
use crate::ord::in_order;
use crate::path::prefixes_of;
use crate::path::Path;
use crate::path::PeerPath;
use crate::path_laws::listed_prefixes;
use crate::policy::RoutePolicyInfo;
use crate::policy_types::PolicyResult;
use crate::protocol::Label;
use crate::rib::adj_at;
use crate::rib::dest_at;
use crate::rib::table_routes;
use crate::rib::AdjRib;
use crate::rib::AdjSide;
use crate::rib::Route;
use crate::rib::TableModel;
use crate::shared::InstanceShared;
use vstd::prelude::*;

verus! {

/// Two tables agree on everything but the routes of one neighbor.
pub open spec fn only_neighbor_differs<P>(t: TableModel<P>, u: TableModel<P>, addr: IpAddr) -> bool {
    &&& forall|q: Path<P>, a: IpAddr| a != addr ==> #[trigger] adj_at(t, q, a) == adj_at(u, q, a)
    &&& forall|p: P| (#[trigger] dest_at(t, p)).local == dest_at(u, p).local
    &&& forall|p: P| (#[trigger] dest_at(t, p)).redistribute == dest_at(u, p).redistribute
}

proof fn only_neighbor_differs_trans<P>(t: TableModel<P>, u: TableModel<P>, v: TableModel<P>, addr: IpAddr)
    requires
        only_neighbor_differs(t, u, addr),
        only_neighbor_differs(u, v, addr),
    ensures
        only_neighbor_differs(t, v, addr),
{
    assert forall|q: Path<P>, a: IpAddr| a != addr implies #[trigger] adj_at(t, q, a) == adj_at(v, q, a) by {
        assert(adj_at(u, q, a) == adj_at(v, q, a));
    }
    assert forall|p: P| (#[trigger] dest_at(t, p)).local == dest_at(v, p).local by {
        assert(dest_at(u, p).local == dest_at(v, p).local);
    }
    assert forall|p: P| (#[trigger] dest_at(t, p)).redistribute == dest_at(v, p).redistribute by {
        assert(dest_at(u, p).redistribute == dest_at(v, p).redistribute);
    }
}

/// Whether one of several paths leads to a prefix.
pub open spec fn leads_to<P>(paths: Seq<Path<P>>, p: P) -> bool {
    exists|i: int| 0 <= i < paths.len() && (#[trigger] paths[i]).prefix == p
}

proof fn leads_to_parts<P>(paths: Seq<Path<P>>, p: P)
    requires
        paths.len() > 0,
    ensures
        leads_to(paths, p) <==> leads_to(paths.drop_last(), p) || paths.last().prefix == p,
{
    let init = paths.drop_last();
    assert(paths[paths.len() - 1] == paths.last());
    if leads_to(init, p) {
        let i = choose|i: int| 0 <= i < init.len() && (#[trigger] init[i]).prefix == p;
        assert(paths[i] == init[i]);
    }
    if leads_to(paths, p) {
        let i = choose|i: int| 0 <= i < paths.len() && (#[trigger] paths[i]).prefix == p;
        if i < init.len() {
            assert(init[i] == paths[i]);
        }
    }
}

proof fn contains_parts<T>(s: Seq<T>, x: T)
    requires
        s.len() > 0,
    ensures
        s.contains(x) <==> s.drop_last().contains(x) || s.last() == x,
{
    let init = s.drop_last();
    assert(s[s.len() - 1] == s.last());
    if init.contains(x) {
        let i = choose|i: int| 0 <= i < init.len() && init[i] == x;
        assert(s[i] == x);
    }
    if s.contains(x) {
        let i = choose|i: int| 0 <= i < s.len() && s[i] == x;
        if i < init.len() {
            assert(init[i] == x);
        }
    }
}

/// After a withdrawal nothing that the neighbor sent on the path is left, and
/// all other paths, of this neighbor and of others, are as they were.
pub proof fn withdrawn_is_gone<P>(s: InState<P>, addr: IpAddr, path: Path<P>)
    ensures
        adj_at(withdrawn(s, addr, path).table, path, addr).in_pre is None,
        adj_at(withdrawn(s, addr, path).table, path, addr).in_post is None,
        forall|q: Path<P>| q != path ==> #[trigger] adj_at(withdrawn(s, addr, path).table, q, addr) == adj_at(
            s.table,
            q,
            addr,
        ),
        forall|q: P| q != path.prefix ==> #[trigger] dest_at(withdrawn(s, addr, path).table, q) == dest_at(s.table, q),
        only_neighbor_differs(s.table, withdrawn(s, addr, path).table, addr),
{
}

/// After withdrawals nothing that the neighbor sent on the paths is left, and
/// its other paths are as they were, also those to the same prefixes.
pub proof fn withdrawn_all_are_gone<P>(s: InState<P>, addr: IpAddr, paths: Seq<Path<P>>)
    ensures
        forall|q: Path<P>| #[trigger]
            paths.contains(q) ==> adj_at(withdrawn_all(s, addr, paths).table, q, addr).in_pre is None && adj_at(
                withdrawn_all(s, addr, paths).table,
                q,
                addr,
            ).in_post is None,
        forall|q: Path<P>| !paths.contains(q) ==> #[trigger] adj_at(withdrawn_all(s, addr, paths).table, q, addr)
            == adj_at(s.table, q, addr),
        forall|p: P| !leads_to(paths, p) ==> #[trigger] dest_at(withdrawn_all(s, addr, paths).table, p) == dest_at(
            s.table,
            p,
        ),
        only_neighbor_differs(s.table, withdrawn_all(s, addr, paths).table, addr),
    decreases paths.len(),
{
    if paths.len() > 0 {
        let init = paths.drop_last();
        let u = withdrawn_all(s, addr, init);
        let v = withdrawn_all(s, addr, paths);
        withdrawn_all_are_gone(s, addr, init);
        withdrawn_is_gone(u, addr, paths.last());
        only_neighbor_differs_trans(s.table, u.table, v.table, addr);
        assert forall|q: Path<P>| #[trigger] paths.contains(q) implies adj_at(v.table, q, addr).in_pre is None
            && adj_at(v.table, q, addr).in_post is None by {
            contains_parts(paths, q);
            if q != paths.last() {
                assert(adj_at(v.table, q, addr) == adj_at(u.table, q, addr));
            }
        }
        assert forall|q: Path<P>| !paths.contains(q) implies #[trigger] adj_at(v.table, q, addr) == adj_at(
            s.table,
            q,
            addr,
        ) by {
            contains_parts(paths, q);
            assert(adj_at(v.table, q, addr) == adj_at(u.table, q, addr));
        }
        assert forall|p: P| !leads_to(paths, p) implies #[trigger] dest_at(v.table, p) == dest_at(s.table, p) by {
            leads_to_parts(paths, p);
            assert(dest_at(v.table, p) == dest_at(u.table, p));
        }
    }
}

/// What a neighbor sent is kept on its path as it was received, and nothing
/// else of the table changes: the other paths of the neighbor stay as they
/// were, also those to the same prefixes.
pub proof fn received_is_kept<P>(t: TableModel<P>, addr: IpAddr, paths: Seq<Path<P>>, route: Route)
    ensures
        forall|q: Path<P>| #[trigger]
            paths.contains(q) ==> adj_at(received_all(t, addr, paths, route), q, addr).in_pre == Some(route),
        forall|q: Path<P>| !paths.contains(q) ==> #[trigger] adj_at(received_all(t, addr, paths, route), q, addr)
            == adj_at(t, q, addr),
        forall|p: P| !leads_to(paths, p) ==> #[trigger] dest_at(received_all(t, addr, paths, route), p) == dest_at(
            t,
            p,
        ),
        forall|q: Path<P>| (#[trigger] adj_at(received_all(t, addr, paths, route), q, addr)).in_post == adj_at(
            t,
            q,
            addr,
        ).in_post,
        received_all(t, addr, paths, route).queued == t.queued,
        only_neighbor_differs(t, received_all(t, addr, paths, route), addr),
    decreases paths.len(),
{
    if paths.len() > 0 {
        let init = paths.drop_last();
        let last = paths.last();
        let u = received_all(t, addr, init, route);
        let v = received_all(t, addr, paths, route);
        received_is_kept(t, addr, init, route);
        assert(only_neighbor_differs(u, v, addr));
        only_neighbor_differs_trans(t, u, v, addr);
        assert forall|q: Path<P>| q != last implies #[trigger] adj_at(v, q, addr) == adj_at(u, q, addr) by {}
        assert(adj_at(v, last, addr).in_pre == Some(route));
        assert forall|q: Path<P>| #[trigger] paths.contains(q) implies adj_at(v, q, addr).in_pre == Some(route) by {
            contains_parts(paths, q);
        }
        assert forall|q: Path<P>| !paths.contains(q) implies #[trigger] adj_at(v, q, addr) == adj_at(t, q, addr) by {
            contains_parts(paths, q);
            assert(adj_at(v, q, addr) == adj_at(u, q, addr));
        }
        assert forall|p: P| !leads_to(paths, p) implies #[trigger] dest_at(v, p) == dest_at(t, p) by {
            leads_to_parts(paths, p);
            assert(dest_at(v, p) == dest_at(u, p));
        }
        assert forall|q: Path<P>| (#[trigger] adj_at(v, q, addr)).in_post == adj_at(t, q, addr).in_post by {
            assert(adj_at(u, q, addr).in_post == adj_at(t, q, addr).in_post);
        }
    }
}

/// A withdrawal undoes what was received before it.
pub proof fn withdrawal_undoes_receipt<P>(
    s: InState<P>,
    addr: IpAddr,
    paths: Seq<Path<P>>,
    route: Route,
    path: Path<P>,
)
    requires
        paths.contains(path),
    ensures
        adj_at(
            withdrawn_all(InState { table: received_all(s.table, addr, paths, route), ..s }, addr, paths).table,
            path,
            addr,
        ).in_pre is None,
{
    withdrawn_all_are_gone(InState { table: received_all(s.table, addr, paths, route), ..s }, addr, paths);
}

/// Paths with different identifiers live side by side: after two of them are
/// received and one is withdrawn, the other is held as it was received.
pub proof fn paths_live_side_by_side<P>(
    s: InState<P>,
    addr: IpAddr,
    one: Path<P>,
    other: Path<P>,
    route: Route,
    other_route: Route,
)
    requires
        one != other,
    ensures
        ({
            let t = received(received(s.table, addr, one, route), addr, other, other_route);
            &&& adj_at(t, one, addr).in_pre == Some(route)
            &&& adj_at(t, other, addr).in_pre == Some(other_route)
            &&& adj_at(withdrawn(InState { table: t, ..s }, addr, other).table, one, addr) == adj_at(t, one, addr)
            &&& adj_at(withdrawn(InState { table: t, ..s }, addr, other).table, other, addr).in_pre is None
        }),
{
    let t1 = received(s.table, addr, one, route);
    let t = received(t1, addr, other, other_route);
    assert(adj_at(t1, one, addr).in_pre == Some(route));
    assert(adj_at(t, one, addr) == adj_at(t1, one, addr));
    withdrawn_is_gone(InState { table: t, ..s }, addr, other);
}

/// A decision of import policies changes nothing but what was accepted on its
/// path: the other paths are as they were, also those to the same prefix.
pub proof fn import_touches_one_path<P>(
    s: InState<P>,
    addr: IpAddr,
    path: Path<P>,
    result: PolicyResult<RoutePolicyInfo>,
)
    ensures
        forall|q: Path<P>| q != path ==> #[trigger] adj_at(imported(s, addr, path, result).table, q, addr) == adj_at(
            s.table,
            q,
            addr,
        ),
        adj_at(imported(s, addr, path, result).table, path, addr) == (AdjRib {
            in_post: match result {
                PolicyResult::Accept(info) => Some(policy_route(info)),
                PolicyResult::Reject => None,
            },
            ..adj_at(s.table, path, addr)
        }),
        only_neighbor_differs(s.table, imported(s, addr, path, result).table, addr),
{
}

/// While the prefix limit is enforced, a neighbor never holds more prefixes
/// than it.
pub proof fn prefix_limit_is_kept<P>(nbr: Neighbor, t: TableModel<P>, afi_safi: AfiSafi, ps: Seq<Path<P>>, route: Route)
    requires
        t.prefixes.dom().finite(),
        nbr.prefix_limit_spec(afi_safi).teardown,
        nbr.prefix_limit_spec(afi_safi).max_prefixes is Some,
        !limit_exceeded(nbr, t, afi_safi, ps),
    ensures
        held_prefixes(received_all(t, nbr.remote_addr, ps, route), nbr.remote_addr).len()
            <= nbr.prefix_limit_spec(afi_safi).max_prefixes->0,
{
    let addr = nbr.remote_addr;
    let u = received_all(t, addr, ps, route);
    let held = held_prefixes(t, addr).union(prefixes_of(ps).to_set());
    received_is_kept(t, addr, ps, route);
    assert forall|p: P| held_prefixes(u, addr).contains(p) implies held.contains(p) by {
        if leads_to(ps, p) {
            let i = choose|i: int| 0 <= i < ps.len() && (#[trigger] ps[i]).prefix == p;
            assert(prefixes_of(ps)[i] == p);
        } else {
            assert(dest_at(u, p) == dest_at(t, p));
            let id = choose|id: u32| (#[trigger] adj_at(u, Path { prefix: p, path_id: id }, addr)).in_pre is Some;
            assert(!ps.contains(Path { prefix: p, path_id: id }));
            assert(adj_at(t, Path { prefix: p, path_id: id }, addr).in_pre is Some);
        }
    }
    assert(held_prefixes(u, addr).subset_of(held));
    vstd::set_lib::lemma_len_subset(held_prefixes(u, addr), held);
}

proof fn learned_keeps_others<P>(s: InState<P>, addr: IpAddr, ps: Seq<(Path<P>, Label)>, route: Route)
    ensures
        only_neighbor_differs(s.table, learned_all(s, addr, ps, route).table, addr),
    decreases ps.len(),
{
    if ps.len() > 0 {
        let u = learned_all(s, addr, ps.drop_last(), route);
        let v = learned_all(s, addr, ps, route);
        learned_keeps_others(s, addr, ps.drop_last(), route);
        assert(only_neighbor_differs(u.table, v.table, addr));
        only_neighbor_differs_trans(s.table, u.table, v.table, addr);
    }
}

proof fn segments_keep_others(s: InState<EvpnRoute>, addr: IpAddr, esis: Seq<EthernetSegmentId>)
    ensures
        only_neighbor_differs(s.table, segments_withdrawn(s, addr, esis).table, addr),
    decreases esis.len(),
{
    if esis.len() > 0 {
        let u = segments_withdrawn(s, addr, esis.drop_last());
        segments_keep_others(s, addr, esis.drop_last());
        withdrawn_all_are_gone(u, addr, mass_withdrawn_paths(u.table, addr, esis.last()@));
        only_neighbor_differs_trans(s.table, u.table, segments_withdrawn(s, addr, esis).table, addr);
    }
}

/// No table of a session differs beyond the routes of one neighbor.
pub open spec fn only_neighbor_differs_in_all(s: SessionState, u: SessionState, addr: IpAddr) -> bool {
    &&& only_neighbor_differs(s.ipv4.table, u.ipv4.table, addr)
    &&& only_neighbor_differs(s.ipv6.table, u.ipv6.table, addr)
    &&& only_neighbor_differs(s.vpnv4.table, u.vpnv4.table, addr)
    &&& only_neighbor_differs(s.vpnv6.table, u.vpnv6.table, addr)
    &&& only_neighbor_differs(s.evpn.table, u.evpn.table, addr)
}

proof fn only_neighbor_differs_in_all_trans(s: SessionState, u: SessionState, v: SessionState, addr: IpAddr)
    requires
        only_neighbor_differs_in_all(s, u, addr),
        only_neighbor_differs_in_all(u, v, addr),
    ensures
        only_neighbor_differs_in_all(s, v, addr),
{
    only_neighbor_differs_trans(s.ipv4.table, u.ipv4.table, v.ipv4.table, addr);
    only_neighbor_differs_trans(s.ipv6.table, u.ipv6.table, v.ipv6.table, addr);
    only_neighbor_differs_trans(s.vpnv4.table, u.vpnv4.table, v.vpnv4.table, addr);
    only_neighbor_differs_trans(s.vpnv6.table, u.vpnv6.table, v.vpnv6.table, addr);
    only_neighbor_differs_trans(s.evpn.table, u.evpn.table, v.evpn.table, addr);
}

proof fn reach_keeps_others<A: AddressFamily>(
    s: InState<A::Prefix>,
    policy: Seq<PolicyApplyModel>,
    nbr: Neighbor,
    ps: Seq<Path<A::Prefix>>,
    attrs: Attrs,
    shared: InstanceShared,
)
    ensures
        only_neighbor_differs(
            s.table,
            reach_effect::<A>(s, policy, nbr, ps, attrs, shared).0.table,
            nbr.remote_addr,
        ),
{
    received_is_kept(
        s.table,
        nbr.remote_addr,
        ps,
        Route::new_spec(nbr_origin(nbr), attrs, nbr_route_type(nbr)),
    );
}

proof fn labeled_keeps_others<P>(
    s: InState<P>,
    nbr: Neighbor,
    afi_safi: AfiSafi,
    ps: Seq<(Path<P>, Label)>,
    attrs: Attrs,
)
    ensures
        only_neighbor_differs(s.table, labeled_effect(s, nbr, afi_safi, ps, attrs).0.table, nbr.remote_addr),
{
    learned_keeps_others(
        s,
        nbr.remote_addr,
        ps,
        Route::new_spec(nbr_origin(nbr), attrs, nbr_route_type(nbr)),
    );
}

proof fn withdraw_keeps_others(s: SessionState, nbr: Neighbor, unreach: MpUnreachModel)
    ensures
        only_neighbor_differs_in_all(s, mp_withdraw(s, nbr, unreach), nbr.remote_addr),
{
    match unreach {
        MpUnreachModel::Ipv4Unicast { prefixes, path_ids } => {
            withdrawn_all_are_gone(
                s.ipv4,
                nbr.remote_addr,
                rx_paths(nbr, AfiSafi::Ipv4Unicast, prefixes, path_ids),
            );
        },
        MpUnreachModel::Ipv6Unicast { prefixes, path_ids } => {
            withdrawn_all_are_gone(
                s.ipv6,
                nbr.remote_addr,
                rx_paths(nbr, AfiSafi::Ipv6Unicast, prefixes, path_ids),
            );
        },
        MpUnreachModel::L3vpnIpv4Unicast { prefixes, path_ids } => {
            withdrawn_all_are_gone(
                s.vpnv4,
                nbr.remote_addr,
                rx_paths(nbr, AfiSafi::L3vpnIpv4Unicast, vpnv4_prefixes(prefixes), path_ids),
            );
        },
        MpUnreachModel::L3vpnIpv6Unicast { prefixes, path_ids } => {
            withdrawn_all_are_gone(
                s.vpnv6,
                nbr.remote_addr,
                rx_paths(nbr, AfiSafi::L3vpnIpv6Unicast, vpnv6_prefixes(prefixes), path_ids),
            );
        },
        MpUnreachModel::L2vpnEvpn { routes, path_ids } => {
            let paths = rx_paths(nbr, AfiSafi::L2vpnEvpn, routes, path_ids);
            let u = unreach_effect(s.evpn, nbr, AfiSafi::L2vpnEvpn, paths);
            withdrawn_all_are_gone(s.evpn, nbr.remote_addr, paths);
            segments_keep_others(u, nbr.remote_addr, withdrawn_segments(prefixes_of(paths)));
            only_neighbor_differs_trans(
                s.evpn.table,
                u.table,
                evpn_withdrawn(s.evpn, nbr, paths).table,
                nbr.remote_addr,
            );
        },
    }
}

proof fn reach_step_keeps_others(s: SessionState, nbr: Neighbor, msg: UpdateModel, shared: InstanceShared)
    ensures
        only_neighbor_differs_in_all(s, reach_step(s, nbr, msg, shared).0, nbr.remote_addr),
{
    match (msg.reach, msg.attrs) {
        (Some((ps, ids, nexthop)), Some(attrs)) => {
            reach_keeps_others::<Ipv4Unicast>(
                s.ipv4,
                s.policy,
                nbr,
                rx_paths(nbr, AfiSafi::Ipv4Unicast, ps, ids),
                with_nexthop(attrs, IpAddr::V4(nexthop)),
                shared,
            );
        },
        (Some((ps, ids, _)), None) => {
            withdrawn_all_are_gone(s.ipv4, nbr.remote_addr, rx_paths(nbr, AfiSafi::Ipv4Unicast, ps, ids));
        },
        (None, _) => {},
    }
}

proof fn mp_reach_step_keeps_others(s: SessionState, nbr: Neighbor, msg: UpdateModel, shared: InstanceShared)
    ensures
        only_neighbor_differs_in_all(s, mp_reach_step(s, nbr, msg, shared).0, nbr.remote_addr),
{
    match (msg.mp_reach, msg.attrs) {
        (Some(MpReachModel::Ipv4Unicast { prefixes, path_ids, nexthop }), Some(attrs)) => {
            reach_keeps_others::<Ipv4Unicast>(
                s.ipv4,
                s.policy,
                nbr,
                rx_paths(nbr, AfiSafi::Ipv4Unicast, prefixes, path_ids),
                with_nexthop(attrs, IpAddr::V4(nexthop)),
                shared,
            );
        },
        (Some(MpReachModel::Ipv6Unicast { prefixes, path_ids, nexthop, ll_nexthop }), Some(attrs)) => {
            reach_keeps_others::<Ipv6Unicast>(
                s.ipv6,
                s.policy,
                nbr,
                rx_paths(nbr, AfiSafi::Ipv6Unicast, prefixes, path_ids),
                with_nexthops(attrs, IpAddr::V6(nexthop), ll_nexthop),
                shared,
            );
        },
        (Some(MpReachModel::L3vpnIpv4Unicast { prefixes, path_ids, nexthop }), Some(attrs)) => {
            labeled_keeps_others(
                s.vpnv4,
                nbr,
                AfiSafi::L3vpnIpv4Unicast,
                labeled_paths(
                    rx_paths(nbr, AfiSafi::L3vpnIpv4Unicast, vpnv4_prefixes(prefixes), path_ids),
                    vpnv4_labels(prefixes),
                ),
                with_nexthop(attrs, IpAddr::V4(nexthop)),
            );
        },
        (Some(MpReachModel::L3vpnIpv6Unicast { prefixes, path_ids, nexthop }), Some(attrs)) => {
            labeled_keeps_others(
                s.vpnv6,
                nbr,
                AfiSafi::L3vpnIpv6Unicast,
                labeled_paths(
                    rx_paths(nbr, AfiSafi::L3vpnIpv6Unicast, vpnv6_prefixes(prefixes), path_ids),
                    vpnv6_labels(prefixes),
                ),
                with_nexthop(attrs, IpAddr::V6(nexthop)),
            );
        },
        (Some(MpReachModel::L2vpnEvpn { routes, path_ids, nexthop }), Some(attrs)) => {
            labeled_keeps_others(
                s.evpn,
                nbr,
                AfiSafi::L2vpnEvpn,
                labeled_paths(rx_paths(nbr, AfiSafi::L2vpnEvpn, routes, path_ids), evpn_labels(routes)),
                with_nexthop(attrs, nexthop),
            );
        },
        (Some(reach), None) => {
            withdraw_keeps_others(s, nbr, reach_as_unreach(reach));
        },
        (None, _) => {},
    }
}

/// An UPDATE message changes nothing but the routes of the neighbor that sent
/// it: not those of other neighbors, not the selected routes, and not those of
/// other protocols.
pub proof fn update_touches_only_its_neighbor(
    s: SessionState,
    nbr: Neighbor,
    msg: UpdateModel,
    shared: InstanceShared,
)
    ensures
        only_neighbor_differs_in_all(s, update_effect(s, nbr, msg, shared).0, nbr.remote_addr),
{
    let addr = nbr.remote_addr;
    let (s1, exceeded1) = reach_step(s, nbr, msg, shared);
    reach_step_keeps_others(s, nbr, msg, shared);
    if !exceeded1 {
        let (s2, exceeded2) = mp_reach_step(s1, nbr, msg, shared);
        mp_reach_step_keeps_others(s1, nbr, msg, shared);
        only_neighbor_differs_in_all_trans(s, s1, s2, addr);
        if !exceeded2 {
            let t = match msg.unreach {
                Some((ps, ids)) => {
                    let paths = rx_paths(nbr, AfiSafi::Ipv4Unicast, ps, ids);
                    SessionState { ipv4: unreach_effect(s2.ipv4, nbr, AfiSafi::Ipv4Unicast, paths), ..s2 }
                },
                None => s2,
            };
            if let Some((ps, ids)) = msg.unreach {
                withdrawn_all_are_gone(s2.ipv4, addr, rx_paths(nbr, AfiSafi::Ipv4Unicast, ps, ids));
            }
            assert(only_neighbor_differs_in_all(s2, t, addr));
            only_neighbor_differs_in_all_trans(s, s2, t, addr);
            if let Some(unreach) = msg.mp_unreach {
                withdraw_keeps_others(t, nbr, unreach);
                only_neighbor_differs_in_all_trans(s, t, mp_withdraw(t, nbr, unreach), addr);
            }
        }
    }
}

/// A mass withdrawal of a segment leaves every prefix alone that is not a
/// MAC/IP advertisement of that segment.
pub proof fn mass_withdrawal_spares_others(s: InState<EvpnRoute>, addr: IpAddr, esi: Seq<u8>, route: EvpnRoute)
    requires
        !(route matches EvpnRoute::MacIpAdvertisement(mac) && mac.esi@ == esi),
    ensures
        dest_at(segment_withdrawn(s, addr, esi).table, route) == dest_at(s.table, route),
{
    let t = s.table;
    let accepted = table_routes(t, in_order::<EvpnRoute>(t.prefixes.dom()), AdjSide::InPost, Some(addr));
    let gone = mass_withdrawn_routes(t, addr, esi);
    let paths = mass_withdrawn_paths(t, addr, esi);
    mass_withdraw_is_exact(announced_macs(accepted), addr, esi, route);
    assert(!gone.contains(route));
    withdrawn_all_are_gone(s, addr, paths);
    if leads_to(paths, route) {
        let i = choose|i: int| 0 <= i < paths.len() && (#[trigger] paths[i]).prefix == route;
        listed_prefixes(t, gone, AdjSide::InPost, Some(addr), i);
    }
}

/// A neighbor that does not take part is told nothing, and its queue is left
/// alone.
pub proof fn bystanders_are_told_nothing<A: AddressFamily>(
    t: TableModel<A::Prefix>,
    queues: Seq<QueueModel<A::Prefix>>,
    nbrs: Seq<Neighbor>,
    offer: Offer<A::Prefix>,
    answers: Seq<Vec<Answer>>,
    shared: InstanceShared,
    j: int,
)
    requires
        0 <= j < nbrs.len() <= queues.len(),
        !takes_part::<A>(nbrs[j]),
    ensures
        distribute_all::<A>(t, queues, nbrs, offer, answers, shared).outputs.len() == nbrs.len(),
        distribute_all::<A>(t, queues, nbrs, offer, answers, shared).outputs[j] == no_output(),
        distribute_all::<A>(t, queues, nbrs, offer, answers, shared).queues.len() == queues.len(),
        distribute_all::<A>(t, queues, nbrs, offer, answers, shared).queues[j] == queues[j],
    decreases nbrs.len(),
{
    let init = nbrs.drop_last();
    outputs_per_neighbor::<A>(t, queues, init, offer, answers, shared);
    if j < init.len() {
        assert(init[j] == nbrs[j]);
        bystanders_are_told_nothing::<A>(t, queues, init, offer, answers, shared, j);
    } else {
        later_queues_unchanged::<A>(t, queues, init, offer, answers, shared, j);
    }
}

/// There is one output for each neighbor.
pub proof fn outputs_per_neighbor<A: AddressFamily>(
    t: TableModel<A::Prefix>,
    queues: Seq<QueueModel<A::Prefix>>,
    nbrs: Seq<Neighbor>,
    offer: Offer<A::Prefix>,
    answers: Seq<Vec<Answer>>,
    shared: InstanceShared,
)
    requires
        nbrs.len() <= queues.len(),
    ensures
        distribute_all::<A>(t, queues, nbrs, offer, answers, shared).outputs.len() == nbrs.len(),
        distribute_all::<A>(t, queues, nbrs, offer, answers, shared).queues.len() == queues.len(),
    decreases nbrs.len(),
{
    if nbrs.len() > 0 {
        outputs_per_neighbor::<A>(t, queues, nbrs.drop_last(), offer, answers, shared);
    }
}

proof fn later_queues_unchanged<A: AddressFamily>(
    t: TableModel<A::Prefix>,
    queues: Seq<QueueModel<A::Prefix>>,
    nbrs: Seq<Neighbor>,
    offer: Offer<A::Prefix>,
    answers: Seq<Vec<Answer>>,
    shared: InstanceShared,
    j: int,
)
    requires
        nbrs.len() <= j < queues.len(),
    ensures
        distribute_all::<A>(t, queues, nbrs, offer, answers, shared).queues.len() == queues.len(),
        distribute_all::<A>(t, queues, nbrs, offer, answers, shared).queues[j] == queues[j],
    decreases nbrs.len(),
{
    if nbrs.len() > 0 {
        later_queues_unchanged::<A>(t, queues, nbrs.drop_last(), offer, answers, shared, j);
    }
}

proof fn unadvertised_keeps_queued<P>(s: OutState<P>, addr: IpAddr, ps: Seq<Path<P>>)
    ensures
        unadvertised_all(s, addr, ps).table.queued == s.table.queued,
    decreases ps.len(),
{
    if ps.len() > 0 {
        unadvertised_keeps_queued(s, addr, ps.drop_last());
    }
}

proof fn chosen_keeps_queued<P>(t: TableModel<P>, addr: IpAddr, routes: Seq<(Path<P>, Route)>)
    ensures
        chosen_all(t, addr, routes).queued == t.queued,
    decreases routes.len(),
{
    if routes.len() > 0 {
        chosen_keeps_queued(t, addr, routes.drop_last());
    }
}

proof fn advertised_keeps_queued<P>(s: OutState<P>, addr: IpAddr, routes: Seq<(Path<P>, Route)>, tx_attrs: Seq<Attrs>)
    ensures
        advertised_all(s, addr, routes, tx_attrs).table.queued == s.table.queued,
    decreases routes.len(),
{
    if routes.len() > 0 {
        advertised_keeps_queued(s, addr, routes.drop_last(), tx_attrs);
    }
}

proof fn distribute_keeps_queued<A: AddressFamily>(
    t: TableModel<A::Prefix>,
    queues: Seq<QueueModel<A::Prefix>>,
    nbrs: Seq<Neighbor>,
    offer: Offer<A::Prefix>,
    answers: Seq<Vec<Answer>>,
    shared: InstanceShared,
)
    ensures
        distribute_all::<A>(t, queues, nbrs, offer, answers, shared).table.queued == t.queued,
    decreases nbrs.len(),
{
    if nbrs.len() > 0 {
        distribute_keeps_queued::<A>(t, queues, nbrs.drop_last(), offer, answers, shared);
        let d = distribute_all::<A>(t, queues, nbrs.drop_last(), offer, answers, shared);
        let nbr = nbrs.last();
        let j = nbrs.len() - 1;
        if takes_part::<A>(nbr) {
            let s = OutState { table: d.table, queue: d.queues[j] };
            let reach = offered::<A>(nbr, offer);
            let gone = not_any_more::<A>(d.table, nbr, offer) + dropped_prefixes(reach, answers[j]@);
            unadvertised_keeps_queued(s, nbr.remote_addr, gone);
            let s1 = if gone.len() > 0 {
                unadvertised_all(s, nbr.remote_addr, gone)
            } else {
                s
            };
            let kept = kept_routes(reach, answers[j]@);
            chosen_keeps_queued(s1.table, nbr.remote_addr, kept);
            advertised_keeps_queued(
                OutState { table: chosen_all(s1.table, nbr.remote_addr, kept), queue: s1.queue },
                nbr.remote_addr,
                kept,
                kept_attrs(reach, answers[j]@),
            );
            let drained_queue = drained::<A>(s1.queue);
            advertised_keeps_queued(
                OutState { table: chosen_all(s1.table, nbr.remote_addr, kept), queue: drained_queue },
                nbr.remote_addr,
                kept,
                kept_attrs(reach, answers[j]@),
            );
        }
    }
}

/// The decision process leaves no prefix queued, and none of the prefixes that
/// were queued is left without data.
pub proof fn decision_settles_the_queue<A: AddressFamily>(
    t: TableModel<A::Prefix>,
    queues: Seq<QueueModel<A::Prefix>>,
    nbrs: Seq<Neighbor>,
    selections: Seq<Selection>,
    answers: Seq<Vec<Answer>>,
    ids: Map<PeerPath, u32>,
    shared: InstanceShared,
)
    ensures
        decision_effect::<A>(t, queues, nbrs, selections, answers, ids, shared).table.queued == Set::<
            A::Prefix,
        >::empty(),
        forall|p: A::Prefix| #[trigger]
            t.queued.contains(p) && decision_effect::<A>(
                t,
                queues,
                nbrs,
                selections,
                answers,
                ids,
                shared,
            ).table.prefixes.contains_key(p) ==> !is_stale(
                decision_effect::<A>(t, queues, nbrs, selections, answers, ids, shared).table.prefixes[p],
            ),
{
    let ps = candidates(t);
    let selected = TableModel {
        queued: Set::empty(),
        ..selected_table(t, ps, selections)
    };
    distribute_keeps_queued::<A>(
        selected,
        queues,
        nbrs,
        selection_offer(t, selections, ids),
        answers,
        shared,
    );
}

/// What is withdrawn from a neighbor is not kept as advertised any more, and
/// its other paths are as they were.
pub proof fn unadvertised_is_gone<P>(s: OutState<P>, addr: IpAddr, ps: Seq<Path<P>>)
    ensures
        forall|q: Path<P>| #[trigger]
            ps.contains(q) ==> adj_at(unadvertised_all(s, addr, ps).table, q, addr).out_pre is None && adj_at(
                unadvertised_all(s, addr, ps).table,
                q,
                addr,
            ).out_post is None,
        forall|q: Path<P>| !ps.contains(q) ==> #[trigger] adj_at(unadvertised_all(s, addr, ps).table, q, addr)
            == adj_at(s.table, q, addr),
        only_neighbor_differs(s.table, unadvertised_all(s, addr, ps).table, addr),
    decreases ps.len(),
{
    if ps.len() > 0 {
        let init = ps.drop_last();
        let last = ps.last();
        let u = unadvertised_all(s, addr, init);
        let v = unadvertised_all(s, addr, ps);
        unadvertised_is_gone(s, addr, init);
        assert(only_neighbor_differs(u.table, v.table, addr));
        only_neighbor_differs_trans(s.table, u.table, v.table, addr);
        assert forall|q: Path<P>| q != last implies #[trigger] adj_at(v.table, q, addr) == adj_at(
            u.table,
            q,
            addr,
        ) by {}
        assert forall|q: Path<P>| #[trigger] ps.contains(q) implies adj_at(v.table, q, addr).out_pre is None && adj_at(
            v.table,
            q,
            addr,
        ).out_post is None by {
            contains_parts(ps, q);
        }
        assert forall|q: Path<P>| !ps.contains(q) implies #[trigger] adj_at(v.table, q, addr) == adj_at(
            s.table,
            q,
            addr,
        ) by {
            contains_parts(ps, q);
            assert(adj_at(v.table, q, addr) == adj_at(u.table, q, addr));
        }
    }
}

}
