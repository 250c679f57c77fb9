//! What holds of the routes that neighbors sent: how many there may be, how
//! policies are applied to them again, and how segments are withdrawn.
use crate::adj_laws::withdrawn_all_are_gone;
use crate::af::AddressFamily;
use crate::attribute::Attrs;
use crate::bgp::AfiSafi;
use crate::decision_laws::tables_are_finite;
use crate::events::all_retained;
use crate::events::announced_macs;
use crate::events::held_prefixes;
use crate::events::holds;
use crate::events::mass_withdrawn_paths;
use crate::events::mass_withdrawn_routes;
use crate::events::policy_routes;
use crate::events::prefix_limit_exceeded;
use crate::events::process_evpn_unreach_routes;
use crate::events::process_nbr_reach_prefixes;
use crate::events::reapply_nbr_import_policy;
use crate::events::reapply_nbr_import_policy_for_nbr;
use crate::events::segment_withdrawn;
use crate::events::segments_withdrawn;
use crate::events::withdrawn_all;
use crate::events::withdrawn_segments;
use crate::events::InState;
use crate::events::PolicyApplyMsg;
use crate::events::ReachOutcome;
use crate::evpn::mass_withdraw_is_exact;
use crate::ibus_laws::are_named;
use crate::ibus_laws::named_policies;
use crate::ip::IpAddr;
use crate::ip::IpNetwork;
use crate::message::EvpnRoute;
use crate::neighbor::Neighbor;
use crate::neighbor::Neighbors;
use crate::neighbor::PrefixLimitCfg;
use crate::neighbor::State;
use crate::ord::finite_sets_have_order;
use crate::ord::in_order;
use crate::ord::Ranked;
use crate::path::ids_of;
use crate::path::path_ids;
use crate::path::path_prefixes;
use crate::path::prefixes_of;
use crate::path::to_paths;
use crate::path::Path;
use crate::path::PathIds;
use crate::path::PeerPath;
use crate::path_laws::finitely_many_paths;
use crate::path_laws::listed_exactly;
use crate::policy_types::PolicyType;
use crate::rib::adj_at;
use crate::rib::dest_at;
use crate::rib::route_paths;
use crate::rib::table_routes;
use crate::rib::AdjSide;
use crate::rib::NexthopOp;
use crate::rib::PeerRoute;
use crate::rib::Route;
use crate::rib::RouteOrigin;
use crate::rib::RoutingTable;
use crate::shared::InstanceShared;
use crate::update_laws::in_use;
use crate::update_laws::raw_routes;
use crate::update_laws::routes_of;
use vstd::prelude::*;

verus! {

/// Whether a neighbor has sent a route for a prefix, on any path.
pub open spec fn has_sent<P: Ranked>(t: RoutingTable<P>, p: P, addr: IpAddr) -> bool {
    exists|id: u32| (#[trigger] routes_of(t, p, addr, id)) is Some && routes_of(t, p, addr, id)->0.in_pre is Some
}

/// Whether a prefix is among those of some paths.
pub open spec fn is_named_by<P>(paths: Seq<Path<P>>, p: P) -> bool {
    exists|i: int| 0 <= i < paths.len() && (#[trigger] paths[i]).prefix == p
}

/// Whether a prefix of a neighbor counts: a route for it was sent, or is new.
pub open spec fn counts<P: Ranked>(t: RoutingTable<P>, paths: Seq<Path<P>>, p: P, addr: IpAddr) -> bool {
    has_sent(t, p, addr) || is_named_by(paths, p)
}

proof fn sent_is_held<P: Ranked>(t: RoutingTable<P>, p: P, addr: IpAddr)
    ensures
        has_sent(t, p, addr) <==> held_prefixes(t@, addr).contains(p),
{
    if has_sent(t, p, addr) {
        let id = choose|id: u32|
            (#[trigger] routes_of(t, p, addr, id)) is Some && routes_of(t, p, addr, id)->0.in_pre is Some;
        let q = Path { prefix: p, path_id: id };
        raw_routes(t, q, addr);
        assert(adj_at(t@, q, addr).in_pre is Some);
        assert(holds(t@, p, addr));
        assert(t@.prefixes.dom().contains(p));
    }
    if held_prefixes(t@, addr).contains(p) {
        assert(holds(t@, p, addr));
        let id = choose|id: u32| (#[trigger] adj_at(t@, Path { prefix: p, path_id: id }, addr)).in_pre is Some;
        let q = Path { prefix: p, path_id: id };
        raw_routes(t, q, addr);
        assert(routes_of(t, p, addr, id) is Some);
    }
}

/// A prefix limit counts prefixes, not paths, and those that are there together
/// with those that are new. It is exceeded if more prefixes than it allows can be
/// named that way, and not if all of them are in a set of no more. Without a limit,
/// or where the session is not to be torn down, nothing exceeds it.
pub proof fn limit_counts_prefixes<P: Ranked>(
    nbr: &Neighbor,
    table: &RoutingTable<P>,
    afi_safi: AfiSafi,
    paths: &Vec<Path<P>>,
    r: bool,
    limit: PrefixLimitCfg,
    s: Set<P>,
)
    requires
        call_ensures(prefix_limit_exceeded::<P>, (nbr, table, afi_safi, paths), r),
        call_ensures(Neighbor::prefix_limit, (nbr, afi_safi), limit),
        table.wf(),
        s.finite(),
    ensures
        limit.max_prefixes is None || !limit.teardown ==> !r,
        limit.max_prefixes matches Some(max) ==> limit.teardown && s.len() > max && (forall|p: P|
            s.contains(p) ==> #[trigger] counts(*table, paths@, p, nbr.remote_addr)) ==> r,
        limit.max_prefixes matches Some(max) ==> s.len() <= max && (forall|p: P| #[trigger]
            counts(*table, paths@, p, nbr.remote_addr) ==> s.contains(p)) ==> !r,
{
    let addr = nbr.remote_addr;
    let held = held_prefixes(table@, addr);
    let new = prefixes_of(paths@).to_set();
    let all = held.union(new);
    tables_are_finite(*table);
    assert(held.finite()) by {
        vstd::set_lib::lemma_len_subset(held, table@.prefixes.dom());
    }
    vstd::seq_lib::seq_to_set_is_finite(prefixes_of(paths@));
    assert forall|p: P| all.contains(p) <==> #[trigger] counts(*table, paths@, p, addr) by {
        sent_is_held(*table, p, addr);
        if is_named_by(paths@, p) {
            let i = choose|i: int| 0 <= i < paths@.len() && (#[trigger] paths@[i]).prefix == p;
            assert(prefixes_of(paths@)[i] == p);
            assert(prefixes_of(paths@).contains(p));
        }
        if new.contains(p) {
            let i = choose|i: int| 0 <= i < prefixes_of(paths@).len() && prefixes_of(paths@)[i] == p;
            assert(paths@[i].prefix == p);
        }
    }
    if forall|p: P| s.contains(p) ==> #[trigger] counts(*table, paths@, p, addr) {
        assert forall|p: P| s.contains(p) implies all.contains(p) by {
            assert(counts(*table, paths@, p, addr));
        }
        vstd::set_lib::lemma_len_subset(s, all);
    }
    if forall|p: P| #[trigger] counts(*table, paths@, p, addr) ==> s.contains(p) {
        assert forall|p: P| all.contains(p) implies s.contains(p) by {
            assert(counts(*table, paths@, p, addr));
        }
        vstd::set_lib::lemma_len_subset(all, s);
    }
}

/// Prefixes that exceed the limit are not kept, not even in part, and no policies
/// are asked for; the same holds of an address family that is not in use.
pub proof fn excess_is_not_kept<A: AddressFamily>(
    nbr: &Neighbor,
    table: &mut RoutingTable<A::Prefix>,
    paths: Vec<Path<A::Prefix>>,
    attrs: Attrs,
    shared: &InstanceShared,
    r: ReachOutcome,
    exceeded: bool,
)
    requires
        call_ensures(process_nbr_reach_prefixes::<A>, (nbr, table, paths, attrs, shared), r),
        call_ensures(prefix_limit_exceeded::<A::Prefix>, (nbr, &*old(table), A::afi_safi_spec(), &paths), exceeded),
    ensures
        !in_use(*nbr, A::afi_safi_spec()) <==> r is Ignored,
        in_use(*nbr, A::afi_safi_spec()) && exceeded <==> r is LimitExceeded,
        in_use(*nbr, A::afi_safi_spec()) && !exceeded <==> r is Apply,
        !(r is Apply) ==> *final(table) == *old(table),
{
}

/// Whether a request asks for the import policies of a neighbor.
pub open spec fn asks_again(req: PolicyApplyMsg, nbr: Neighbor, afi_safi: AfiSafi, shared: InstanceShared) -> bool {
    req matches PolicyApplyMsg::Neighbor {
        policy_type,
        nbr_addr,
        afi_safi: family,
        routes,
        path_ids,
        missing_policy,
        policies,
        match_sets,
        default_policy,
    } && {
        let cfg = if nbr.config.afi_safi@.contains_key(afi_safi) {
            nbr.config.afi_safi@[afi_safi].apply_policy
        } else {
            nbr.config.apply_policy
        };
        &&& policy_type == PolicyType::Import
        &&& nbr_addr == nbr.remote_addr
        &&& family == afi_safi
        &&& routes@.len() == path_ids@.len()
        &&& match_sets == shared.policy_match_sets
        &&& default_policy == cfg.default_import_policy
        &&& are_named(cfg.import_policy, shared, missing_policy, policies@)
    }
}

/// Whether a request holds a route for a prefix on a path.
pub open spec fn holds_route(req: PolicyApplyMsg, prefix: IpNetwork, path_id: u32, route: Route) -> bool {
    req matches PolicyApplyMsg::Neighbor { routes, path_ids, .. } && exists|j: int|
        0 <= j < routes@.len() && (#[trigger] routes@[j]).0 == prefix && path_ids@[j] == path_id && routes@[j].1.origin
            == route.origin && routes@[j].1.attrs == route.attrs && routes@[j].1.route_type == route.route_type
            && routes@[j].1.tag is None && routes@[j].1.opaque_attrs is None
}

proof fn retained_exactly<P: Ranked>(t: RoutingTable<P>, addr: IpAddr, p: P, id: u32, route: Route)
    requires
        t.wf(),
    ensures
        all_retained(t@, addr).contains(PeerRoute { prefix: p, peer: PeerPath { addr, path_id: id }, route }) <==> (
        routes_of(t, p, addr, id) is Some && routes_of(t, p, addr, id)->0.in_pre == Some(route)),
{
    let ps = in_order::<P>(t@.prefixes.dom());
    let x = PeerRoute { prefix: p, peer: PeerPath { addr, path_id: id }, route };
    let q = Path { prefix: p, path_id: id };
    tables_are_finite(t);
    finite_sets_have_order::<P>(t@.prefixes.dom());
    listed_exactly(t@, ps, AdjSide::InPre, Some(addr), x);
    raw_routes(t, q, addr);
    if adj_at(t@, q, addr).in_pre is Some {
        assert(t@.prefixes.dom().contains(p));
        assert(ps.contains(p));
    }
}

/// When import policies are applied again, every route that the neighbor sent is
/// put to them as it was received, on its path, and nothing else is. They are
/// applied only on an established session that uses the address family, and only
/// if there is such a route.
pub proof fn received_routes_are_put_again<A: AddressFamily>(
    table: &RoutingTable<A::Prefix>,
    shared: &InstanceShared,
    nbr: &Neighbor,
    r: Option<PolicyApplyMsg>,
    p: A::Prefix,
    id: u32,
    route: Route,
)
    requires
        call_ensures(reapply_nbr_import_policy_for_nbr::<A>, (table, shared, nbr), r),
        table.wf(),
        shared.wf(),
        nbr.wf(),
    ensures
        r is Some ==> nbr.state == State::Established && in_use(*nbr, A::afi_safi_spec()),
        r matches Some(req) ==> asks_again(req, *nbr, A::afi_safi_spec(), *shared),
        routes_of(*table, p, nbr.remote_addr, id) is Some && routes_of(*table, p, nbr.remote_addr, id)->0.in_pre
            == Some(route) && nbr.state == State::Established && in_use(*nbr, A::afi_safi_spec()) ==> (r matches Some(
            req,
        ) && holds_route(req, A::to_ip_network_spec(p), id, route)),
{
    let addr = nbr.remote_addr;
    let retained = all_retained(table@, addr);
    let x = PeerRoute { prefix: p, peer: PeerPath { addr, path_id: id }, route };
    retained_exactly(*table, addr, p, id, route);
    if let Some(PolicyApplyMsg::Neighbor { missing_policy, policies, .. }) = r {
        let cfg = nbr.apply_policy_spec(A::afi_safi_spec());
        named_policies(cfg.import_policy, *shared, missing_policy, policies@);
    }
    if retained.contains(x) {
        let j = choose|j: int| 0 <= j < retained.len() && retained[j] == x;
        if let Some(PolicyApplyMsg::Neighbor { routes, path_ids, .. }) = r {
            assert(routes@ == policy_routes::<A>(retained));
            assert(path_ids@ == ids_of(route_paths(retained)));
            assert(routes@[j].0 == A::to_ip_network_spec(p));
        }
    }
}

/// Everything that is put to import policies again was received on its path as
/// it is put to them.
pub proof fn only_received_routes_are_put_again<A: AddressFamily>(
    table: &RoutingTable<A::Prefix>,
    shared: &InstanceShared,
    nbr: &Neighbor,
    req: PolicyApplyMsg,
    j: int,
)
    requires
        call_ensures(reapply_nbr_import_policy_for_nbr::<A>, (table, shared, nbr), Some(req)),
        table.wf(),
        req is Neighbor,
        0 <= j < req->Neighbor_routes@.len(),
    ensures
        exists|p: A::Prefix|
            A::to_ip_network_spec(p) == req->Neighbor_routes@[j].0 && (#[trigger] routes_of(
                *table,
                p,
                nbr.remote_addr,
                req->path_ids@[j],
            )) is Some && (routes_of(*table, p, nbr.remote_addr, req->path_ids@[j])->0.in_pre matches Some(route)
                && req->Neighbor_routes@[j].1.attrs == route.attrs && req->Neighbor_routes@[j].1.origin
                == route.origin),
{
    let addr = nbr.remote_addr;
    let retained = all_retained(table@, addr);
    assert(req->Neighbor_routes@ == policy_routes::<A>(retained));
    assert(req->path_ids@ == ids_of(route_paths(retained)));
    let x = retained[j];
    assert(retained.contains(x));
    tables_are_finite(*table);
    listed_exactly(table@, in_order::<A::Prefix>(table@.prefixes.dom()), AdjSide::InPre, Some(addr), x);
    assert(x.peer.addr == addr);
    assert(x.peer == (PeerPath { addr, path_id: x.peer.path_id }));
    retained_exactly(*table, addr, x.prefix, x.peer.path_id, x.route);
    assert(req->path_ids@[j] == x.peer.path_id);
    assert(routes_of(*table, x.prefix, addr, x.peer.path_id) is Some);
}

/// Policies are applied again to the routes of the neighbor with the address
/// that is given, if there is one.
pub proof fn routes_of_one_neighbor_are_put_again<A: AddressFamily>(
    table: &RoutingTable<A::Prefix>,
    shared: &InstanceShared,
    neighbors: &Neighbors,
    nbr_addr: IpAddr,
    r: Option<PolicyApplyMsg>,
    one: Option<PolicyApplyMsg>,
)
    requires
        call_ensures(reapply_nbr_import_policy::<A>, (table, shared, neighbors, nbr_addr), r),
        call_ensures(reapply_nbr_import_policy_for_nbr::<A>, (table, shared, &neighbors@[nbr_addr]), one),
    ensures
        !neighbors@.contains_key(nbr_addr) ==> r is None,
        neighbors@.contains_key(nbr_addr) ==> (r is Some <==> one is Some),
        r is Some && one is Some ==> r->0@ == one->0@,
{
}

/// Whether a route was announced by a neighbor.
pub open spec fn is_from(route: Route, addr: IpAddr) -> bool {
    route.origin matches RouteOrigin::Neighbor { remote_addr, .. } && remote_addr == addr
}

/// Whether a route is a MAC/IP route of a segment.
pub open spec fn is_mac_of(route: EvpnRoute, esi: Seq<u8>) -> bool {
    route matches EvpnRoute::MacIpAdvertisement(mac) && mac.esi@ == esi
}

proof fn announced_are_listed(routes: Seq<PeerRoute<EvpnRoute>>, x: PeerRoute<EvpnRoute>, addr: IpAddr)
    requires
        routes.contains(x),
        x.prefix is MacIpAdvertisement,
        is_from(x.route, addr),
    ensures
        announced_macs(routes).contains((addr, x.prefix)),
    decreases routes.len(),
{
    let k = choose|k: int| 0 <= k < routes.len() && routes[k] == x;
    let init = routes.drop_last();
    let rest = announced_macs(init);
    let all = announced_macs(routes);
    if k == routes.len() - 1 {
        assert(all[all.len() - 1] == (addr, x.prefix));
    } else {
        assert(init[k] == x);
        announced_are_listed(init, x, addr);
        let n = choose|n: int| 0 <= n < rest.len() && rest[n] == (addr, x.prefix);
        assert(all[n] == (addr, x.prefix));
    }
}

proof fn withdrawal_keeps_shape<P>(s: InState<P>, addr: IpAddr, ps: Seq<Path<P>>)
    ensures
        withdrawn_all(s, addr, ps).table.prefixes.dom() == s.table.prefixes.dom(),
        forall|p: P|
            (#[trigger] dest_at(withdrawn_all(s, addr, ps).table, p)).adj_rib.dom() == dest_at(s.table, p).adj_rib.dom(),
    decreases ps.len(),
{
    if ps.len() > 0 {
        let init = ps.drop_last();
        withdrawal_keeps_shape(s, addr, init);
        let u = withdrawn_all(s, addr, init);
        let v = withdrawn_all(s, addr, ps);
        assert(v.table.prefixes.dom() =~= u.table.prefixes.dom());
        assert forall|p: P| (#[trigger] dest_at(v.table, p)).adj_rib.dom() == dest_at(s.table, p).adj_rib.dom() by {
            assert(dest_at(u.table, p).adj_rib.dom() == dest_at(s.table, p).adj_rib.dom());
            assert(dest_at(v.table, p).adj_rib.dom() =~= dest_at(u.table, p).adj_rib.dom());
        }
    }
}

proof fn segment_is_gone(s: InState<EvpnRoute>, addr: IpAddr, esi: Seq<u8>, q: Path<EvpnRoute>)
    requires
        finitely_many_paths(s.table),
        s.table.prefixes.dom().finite(),
    ensures
        ({
            let u = segment_withdrawn(s, addr, esi);
            let after = adj_at(u.table, q, addr);
            let before = adj_at(s.table, q, addr);
            &&& finitely_many_paths(u.table)
            &&& u.table.prefixes.dom().finite()
            &&& after == before || (after.in_pre is None && after.in_post is None)
            &&& is_mac_of(q.prefix, esi) && before.in_post is Some && is_from(before.in_post->0, addr)
                ==> after.in_pre is None && after.in_post is None
        }),
{
    let t = s.table;
    let ps = in_order::<EvpnRoute>(t.prefixes.dom());
    let accepted = table_routes(t, ps, AdjSide::InPost, Some(addr));
    let gone = mass_withdrawn_routes(t, addr, esi);
    let paths = mass_withdrawn_paths(t, addr, esi);
    let u = segment_withdrawn(s, addr, esi);
    withdrawn_all_are_gone(s, addr, paths);
    withdrawal_keeps_shape(s, addr, paths);
    assert forall|p: EvpnRoute| (#[trigger] dest_at(u.table, p)).adj_rib.dom().finite() by {
        assert(dest_at(t, p).adj_rib.dom().finite());
    }
    finite_sets_have_order::<EvpnRoute>(t.prefixes.dom());
    if let EvpnRoute::MacIpAdvertisement(mac) = q.prefix {
        if let Some(route) = adj_at(t, q, addr).in_post {
            if mac.esi@ == esi && is_from(route, addr) {
                let x = PeerRoute { prefix: q.prefix, peer: PeerPath { addr, path_id: q.path_id }, route };
                assert(t.prefixes.dom().contains(q.prefix));
                assert(ps.contains(q.prefix));
                listed_exactly(t, ps, AdjSide::InPost, Some(addr), x);
                announced_are_listed(accepted, x, addr);
                let macs = announced_macs(accepted);
                let n = choose|n: int| 0 <= n < macs.len() && macs[n] == (addr, q.prefix);
                mass_withdraw_is_exact(macs, addr, esi, q.prefix);
                assert(macs[n].1 == q.prefix);
                assert(gone.contains(q.prefix));
                listed_exactly(t, gone, AdjSide::InPost, Some(addr), x);
                let list = table_routes(t, gone, AdjSide::InPost, Some(addr));
                let k = choose|k: int| 0 <= k < list.len() && list[k] == x;
                assert(paths[k] == q);
                assert(paths.contains(q));
            }
        }
    }
    if !paths.contains(q) {
        assert(adj_at(u.table, q, addr) == adj_at(t, q, addr));
    }
}

proof fn segments_are_gone(
    s: InState<EvpnRoute>,
    addr: IpAddr,
    esis: Seq<crate::bgp::EthernetSegmentId>,
    q: Path<EvpnRoute>,
)
    requires
        finitely_many_paths(s.table),
        s.table.prefixes.dom().finite(),
    ensures
        ({
            let u = segments_withdrawn(s, addr, esis);
            let after = adj_at(u.table, q, addr);
            let before = adj_at(s.table, q, addr);
            &&& finitely_many_paths(u.table)
            &&& u.table.prefixes.dom().finite()
            &&& after == before || (after.in_pre is None && after.in_post is None)
            &&& (exists|k: int| 0 <= k < esis.len() && is_mac_of(q.prefix, (#[trigger] esis[k])@))
                && before.in_post is Some && is_from(before.in_post->0, addr) ==> after.in_pre is None
                && after.in_post is None
        }),
    decreases esis.len(),
{
    if esis.len() > 0 {
        let init = esis.drop_last();
        segments_are_gone(s, addr, init, q);
        let u = segments_withdrawn(s, addr, init);
        segment_is_gone(u, addr, esis.last()@, q);
        if exists|k: int| 0 <= k < esis.len() && is_mac_of(q.prefix, (#[trigger] esis[k])@) {
            let k = choose|k: int| 0 <= k < esis.len() && is_mac_of(q.prefix, (#[trigger] esis[k])@);
            if k < init.len() {
                assert(init[k] == esis[k]);
            }
        }
    }
}

/// Whether a route stands for the segment of a MAC/IP route: it is the route of
/// the segment, or the auto-discovery route of the segment as a whole, without a
/// label and with the largest tag.
pub open spec fn stands_for_segment(route: EvpnRoute, esi: Seq<u8>) -> bool {
    ||| route matches EvpnRoute::EthernetSegment(r) && r.esi@ == esi
    ||| route matches EvpnRoute::EthernetAutoDiscovery(r) && r.esi@ == esi && r.label == 0 && r.ethernet_tag_id
        == 0xFFFF_FFFF
}

proof fn segments_are_listed(routes: Seq<EvpnRoute>, i: int, esi: Seq<u8>)
    requires
        0 <= i < routes.len(),
        stands_for_segment(routes[i], esi),
    ensures
        exists|k: int| 0 <= k < withdrawn_segments(routes).len() && (#[trigger] withdrawn_segments(routes)[k])@ == esi,
    decreases routes.len(),
{
    let init = routes.drop_last();
    let all = withdrawn_segments(routes);
    if i == routes.len() - 1 {
        assert(all[all.len() - 1]@ == esi);
    } else {
        assert(init[i] == routes[i]);
        segments_are_listed(init, i, esi);
        let rest = withdrawn_segments(init);
        let k = choose|k: int| 0 <= k < rest.len() && (#[trigger] rest[k])@ == esi;
        assert(all[k] == rest[k]);
    }
}

/// When a neighbor withdraws a route that stands for a segment, no MAC/IP route of
/// that segment which it announced is kept any more, on any path.
pub proof fn segments_take_their_routes_along(
    nbr: &Neighbor,
    table: &mut RoutingTable<EvpnRoute>,
    paths: &Vec<Path<EvpnRoute>>,
    ops: &mut Vec<NexthopOp<EvpnRoute>>,
    r: (),
    i: int,
    p: EvpnRoute,
    id: u32,
)
    requires
        call_ensures(process_evpn_unreach_routes, (nbr, table, paths, ops), r),
        old(table).wf(),
        0 <= i < paths@.len(),
        p matches EvpnRoute::MacIpAdvertisement(mac) && stands_for_segment(paths@[i].prefix, mac.esi@),
        routes_of(*old(table), p, nbr.remote_addr, id) matches Some(adj) && (adj.in_post matches Some(route)
            && is_from(route, nbr.remote_addr)),
    ensures
        routes_of(*final(table), p, nbr.remote_addr, id) matches Some(adj) ==> adj.in_pre is None
            && adj.in_post is None,
{
    let addr = nbr.remote_addr;
    let q = Path { prefix: p, path_id: id };
    let s = InState { table: old(table)@, ops: old(ops)@ };
    let u = if nbr.af_in_use(AfiSafi::L2vpnEvpn) {
        withdrawn_all(s, addr, paths@)
    } else {
        s
    };
    tables_are_finite(*old(table));
    withdrawn_all_are_gone(s, addr, paths@);
    withdrawal_keeps_shape(s, addr, paths@);
    assert forall|x: EvpnRoute| (#[trigger] dest_at(u.table, x)).adj_rib.dom().finite() by {
        assert(dest_at(s.table, x).adj_rib.dom().finite());
    }
    let routes = prefixes_of(paths@);
    assert(routes[i] == paths@[i].prefix);
    segments_are_listed(routes, i, p->MacIpAdvertisement_0.esi@);
    segments_are_gone(u, addr, withdrawn_segments(routes), q);
    raw_routes(*old(table), q, addr);
    raw_routes(*final(table), q, addr);
    if !paths@.contains(q) {
        assert(adj_at(withdrawn_all(s, addr, paths@).table, q, addr) == adj_at(s.table, q, addr));
    }
}

/// A path that is given an identifier keeps it from then on, and shares it with
/// no other path; identifiers are above 1, which is that of this router itself.
/// None is given once all are.
pub proof fn identifiers_are_kept(
    ids: &mut PathIds,
    path: PeerPath,
    r: (),
    other: PeerPath,
    before: Option<u32>,
    after: Option<u32>,
    before_other: Option<u32>,
    after_other: Option<u32>,
)
    requires
        old(ids).wf(),
        call_ensures(PathIds::assign, (ids, path), r),
        call_ensures(PathIds::get, (&*old(ids), path), before),
        call_ensures(PathIds::get, (&*final(ids), path), after),
        call_ensures(PathIds::get, (&*old(ids), other), before_other),
        call_ensures(PathIds::get, (&*final(ids), other), after_other),
    ensures
        before is Some ==> after == before,
        other != path ==> after_other == before_other,
        before is None && old(ids).last < u32::MAX ==> after is Some && after->0 > 1,
        before is None && old(ids).last == u32::MAX ==> after is None,
        other != path && after is Some && after_other is Some ==> after->0 != after_other->0,
{
    assert(final(ids)@.ids.contains_key(path) == final(ids).ids@.contains_key(path));
    assert(final(ids)@.ids.contains_key(other) == final(ids).ids@.contains_key(other));
    assert(old(ids)@.ids.contains_key(other) == old(ids).ids@.contains_key(other));
    assert(old(ids)@.ids.contains_key(path) == old(ids).ids@.contains_key(path));
}

/// Prefixes and identifiers are put together in order, and taken apart again. An
/// identifier that is missing or not in use is 0.
pub proof fn paths_are_put_together<P: Ranked>(
    in_use: bool,
    prefixes: &Vec<P>,
    ids: &Vec<u32>,
    paths: Vec<Path<P>>,
    ps: Vec<P>,
    is: Vec<u32>,
    i: int,
)
    requires
        call_ensures(to_paths::<P>, (in_use, prefixes, ids), paths),
        call_ensures(path_prefixes::<P>, (&paths,), ps),
        call_ensures(path_ids::<P>, (&paths,), is),
    ensures
        paths@.len() == prefixes@.len() && ps@ == prefixes@ && is@.len() == prefixes@.len(),
        0 <= i < prefixes@.len() ==> paths@[i].prefix == prefixes@[i] && is@[i] == paths@[i].path_id,
        0 <= i < prefixes@.len() && in_use && i < ids@.len() ==> paths@[i].path_id == ids@[i],
        0 <= i < prefixes@.len() && (!in_use || i >= ids@.len()) ==> paths@[i].path_id == 0,
{
    assert(ps@ =~= prefixes@);
}

}
