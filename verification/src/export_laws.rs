//! What holds of the decisions of the policy engine, on the way in and out, and
//! of the messages that carry routes.
use crate::adj_laws::unadvertised_is_gone;
use crate::af::attrs_fit;
use crate::af::build_family_updates;
use crate::af::carried_rts;
use crate::af::carried_rts_are;
use crate::af::chunked;
use crate::af::entry_updates;
use crate::af::import_rts;
use crate::af::import_tables_are;
use crate::af::imports_any;
use crate::af::path_size;
use crate::af::queue_updates;
use crate::af::reach_updates;
use crate::af::room;
use crate::af::route_tables;
use crate::af::vpn_import_install;
use crate::af::vpn_import_table_ids;
use crate::af::vpn_import_uninstall;
use crate::af::AddressFamily;
use crate::af::Ipv4Unicast;
use crate::af::Ipv6Unicast;
use crate::af::Vpnv4Prefix;
use crate::af::Vpnv4Unicast;
use crate::af::Vpnv6Prefix;
use crate::af::Vpnv6Unicast;
use crate::attribute::attrs_length;
use crate::attribute::Attrs;
use crate::attribute::BaseAttrs;
use crate::bgp::rt_of;
use crate::bgp::AfiSafi;
use crate::bgp::ExtComm;
use crate::bgp::RouteTarget;
use crate::bgp::RouteType;
use crate::decision::advertise_routes;
use crate::decision::advertised_all;
use crate::decision::chosen_all;
use crate::decision::decision_candidates;
use crate::decision::exported_all;
use crate::decision::imported;
use crate::decision::imported_all;
use crate::decision::list_advertised;
use crate::decision::process_nbr_policy_export;
use crate::decision::process_nbr_policy_import;
use crate::decision::process_redistribute_policy_import;
use crate::decision::resend_adj_rib_out;
use crate::decision::resent;
use crate::decision::result_path;
use crate::decision::select_routes;
use crate::decision::unadvertised_all;
use crate::decision::withdraw_routes;
use crate::decision::NbrOutput;
use crate::decision::OutState;
use crate::decision::Selection;
use crate::decision_laws::added_waits;
use crate::decision_laws::advertised_path;
use crate::decision_laws::advertised_waits;
use crate::decision_laws::asks_export;
use crate::decision_laws::best_from;
use crate::decision_laws::candidates_are_queued;
use crate::decision_laws::chosen_path;
use crate::decision_laws::export_asks;
use crate::decision_laws::lost_from;
use crate::decision_laws::queued_routes_are_sent;
use crate::decision_laws::queued_withdrawals_are_sent;
use crate::decision_laws::selection_of;
use crate::decision_laws::sends_route;
use crate::decision_laws::sends_withdrawal;
use crate::decision_laws::tables_are_finite;
use crate::decision_laws::unadvertised_path;
use crate::decision_laws::waits_with;
use crate::events::apply_models;
use crate::events::learned_all;
use crate::events::nbr_list;
use crate::events::nbr_origin;
use crate::events::nbr_route_type;
use crate::events::process_nbr_reach_prefixes_pre_policy;
use crate::events::reapplies;
use crate::events::reapply_import_policy_all;
use crate::events::reapply_nbr_import_policy_for_nbr;
use crate::events::reapply_requests;
use crate::events::retained_request;
use crate::events::InState;
use crate::events::PolicyApplyMsg;
use crate::ibus_laws::own_route_of;
use crate::ibus_laws::same_but_own_route;
use crate::ibus_laws::same_prefix;
use crate::ibus_tx::IbusRequest;
use crate::ip::IpAddr;
use crate::ip::IpNetwork;
use crate::ip::Ipv4Network;
use crate::ip::Ipv6Network;
use crate::message::update_models;
use crate::message::MpReachModel;
use crate::message::MpUnreachModel;
use crate::message::UpdateModel;
use crate::message::UpdateMsg;
use crate::neighbor::reach_index_bound;
use crate::neighbor::Neighbor;
use crate::neighbor::NeighborUpdateQueue;
use crate::neighbor::Neighbors;
use crate::neighbor::PeerType;
use crate::neighbor::QueueModel;
use crate::neighbor::State;
use crate::ord::elems_count;
use crate::ord::finite_sets_have_order;
use crate::ord::in_order;
use crate::ord::Ranked;
use crate::path::Path;
use crate::path::PeerPath;
use crate::path_laws::exports_can_be_sent;
use crate::path_laws::listed_exactly;
use crate::path_laws::piece_members;
use crate::path_laws::room_is_there;
use crate::path_laws::sendable_queue;
use crate::policy::RoutePolicyInfo;
use crate::policy_types::PolicyResult;
use crate::protocol::Label;
use crate::protocol::Protocol;
use crate::rib::adj_at;
use crate::rib::has_adj;
use crate::rib::route_path;
use crate::rib::AdjSide;
use crate::rib::LocalRoute;
use crate::rib::NexthopOp;
use crate::rib::PeerRoute;
use crate::rib::Route;
use crate::rib::RoutingTable;
use crate::rib::TableModel;
use crate::shared::InstanceShared;
use crate::shared::VpnImport;
use crate::update_laws::in_use;
use crate::update_laws::raw_routes;
use crate::update_laws::routes_of;
use vstd::prelude::*;

verus! {

/// The path identifier that counts for a decision.
pub open spec fn decided_id(in_use: bool, ids: Seq<u32>, i: int) -> u32 {
    if in_use && i < ids.len() {
        ids[i]
    } else {
        0
    }
}

/// Whether a route is the one that a policy handed back.
pub open spec fn is_policy_route(route: Route, info: RoutePolicyInfo) -> bool {
    route.origin == info.origin && route.attrs == info.attrs && route.route_type == info.route_type
        && route.vpn_label is None && route.igp_cost is None
}

proof fn imported_path<A: AddressFamily>(
    s: InState<A::Prefix>,
    addr: IpAddr,
    in_use: bool,
    results: Seq<(IpNetwork, PolicyResult<RoutePolicyInfo>)>,
    ids: Seq<u32>,
    i: int,
    other: Path<A::Prefix>,
)
    requires
        0 <= i < results.len(),
        forall|j: int|
            i < j < results.len() ==> #[trigger] result_path::<A>(in_use, results, ids, j) != result_path::<A>(
                in_use,
                results,
                ids,
                i,
            ),
    ensures
        ({
            let q = result_path::<A>(in_use, results, ids, i);
            let u = imported_all::<A>(s, addr, in_use, results, ids);
            &&& has_adj(u.table, q, addr)
            &&& u.table.queued.contains(q.prefix)
            &&& results[i].1 matches PolicyResult::Accept(info) ==> (adj_at(u.table, q, addr).in_post matches Some(
                route,
            ) && is_policy_route(route, info) && u.ops.contains(NexthopOp::Track { prefix: q.prefix, route }))
            &&& results[i].1 is Reject ==> adj_at(u.table, q, addr).in_post is None
        }),
    decreases results.len(),
{
    let init = results.drop_last();
    let n = results.len() - 1;
    let u = imported_all::<A>(s, addr, in_use, init, ids);
    let v = imported_all::<A>(s, addr, in_use, results, ids);
    let q = result_path::<A>(in_use, results, ids, i);
    assert forall|j: int| 0 <= j < init.len() implies #[trigger] result_path::<A>(in_use, init, ids, j)
        == result_path::<A>(in_use, results, ids, j) by {}
    if i < n {
        assert(init[i] == results[i]);
        assert forall|j: int| i < j < init.len() implies #[trigger] result_path::<A>(in_use, init, ids, j)
            != result_path::<A>(in_use, init, ids, i) by {
            assert(result_path::<A>(in_use, results, ids, j) != q);
        }
        assert(result_path::<A>(in_use, init, ids, i) == q);
        imported_path::<A>(s, addr, in_use, init, ids, i, other);
        let last = result_path::<A>(in_use, results, ids, n);
        assert(last != q);
        ops_grow(u, addr, last, results[n].1);
        if let PolicyResult::Accept(info) = results[i].1 {
            let route = adj_at(u.table, q, addr).in_post->0;
            let x = NexthopOp::Track { prefix: q.prefix, route };
            let k = choose|k: int| 0 <= k < u.ops.len() && u.ops[k] == x;
            assert(v.ops[k] == x);
        }
    } else {
        if let PolicyResult::Accept(info) = results[n].1 {
            assert(v.ops.last() == (NexthopOp::Track { prefix: q.prefix, route: adj_at(v.table, q, addr).in_post->0 }));
            assert(v.ops[v.ops.len() - 1] == v.ops.last());
        }
    }
}

proof fn ops_grow<P>(s: InState<P>, addr: IpAddr, path: Path<P>, result: PolicyResult<RoutePolicyInfo>)
    ensures
        s.ops.len() <= imported(s, addr, path, result).ops.len(),
        forall|k: int|
            0 <= k < s.ops.len() ==> imported(s, addr, path, result).ops[k] == #[trigger] s.ops[k],
{
}

proof fn imported_elsewhere<A: AddressFamily>(
    s: InState<A::Prefix>,
    addr: IpAddr,
    in_use: bool,
    results: Seq<(IpNetwork, PolicyResult<RoutePolicyInfo>)>,
    ids: Seq<u32>,
    q: Path<A::Prefix>,
)
    ensures
        ({
            let before = adj_at(s.table, q, addr);
            let after = adj_at(imported_all::<A>(s, addr, in_use, results, ids).table, q, addr);
            &&& after.in_pre == before.in_pre
            &&& after.out_pre == before.out_pre
            &&& after.out_post == before.out_post
            &&& (forall|j: int| 0 <= j < results.len() ==> #[trigger] result_path::<A>(in_use, results, ids, j) != q)
                ==> after == before
        }),
    decreases results.len(),
{
    if results.len() > 0 {
        let init = results.drop_last();
        let n = results.len() - 1;
        imported_elsewhere::<A>(s, addr, in_use, init, ids, q);
        assert forall|j: int| 0 <= j < init.len() implies #[trigger] result_path::<A>(in_use, init, ids, j)
            == result_path::<A>(in_use, results, ids, j) by {}
        if forall|j: int| 0 <= j < results.len() ==> #[trigger] result_path::<A>(in_use, results, ids, j) != q {
            assert(result_path::<A>(in_use, results, ids, n) != q);
            assert forall|j: int| 0 <= j < init.len() implies #[trigger] result_path::<A>(in_use, init, ids, j)
                != q by {
                assert(result_path::<A>(in_use, results, ids, j) != q);
            }
        }
    }
}

/// A decision of import policies on a route of an established neighbor: what is
/// accepted is kept as accepted on its path, as the policies left it, and its next
/// hop is tracked; what is rejected is not kept as accepted. Either way the prefix
/// is queued, and what was received stays. Of several decisions on one path the
/// last counts. A neighbor without a session changes nothing.
pub proof fn import_decisions_are_kept<A: AddressFamily>(
    neighbors: &Neighbors,
    nbr_addr: IpAddr,
    table: &mut RoutingTable<A::Prefix>,
    results: &Vec<(IpNetwork, PolicyResult<RoutePolicyInfo>)>,
    path_ids: &Vec<u32>,
    ops: &mut Vec<NexthopOp<A::Prefix>>,
    r: bool,
    i: int,
    p: A::Prefix,
)
    requires
        call_ensures(
            process_nbr_policy_import::<A>,
            (neighbors, nbr_addr, table, results, path_ids, ops),
            r,
        ),
        0 <= i < results@.len(),
        A::from_ip_network_spec(results@[i].0) == Some(p),
        forall|j: int|
            i < j < results@.len() ==> A::from_ip_network_spec((#[trigger] results@[j]).0) is Some && (
            A::from_ip_network_spec(results@[j].0) != Some(p) || decided_id(
                neighbors@[nbr_addr].add_path_rx@.contains(A::afi_safi_spec()),
                path_ids@,
                j,
            ) != decided_id(neighbors@[nbr_addr].add_path_rx@.contains(A::afi_safi_spec()), path_ids@, i)),
    ensures
        r <==> neighbors@.contains_key(nbr_addr) && neighbors@[nbr_addr].state == State::Established,
        !r ==> final(table)@ == old(table)@ && final(ops)@ == old(ops)@,
        r ==> {
            let id = decided_id(
                neighbors@[nbr_addr].add_path_rx@.contains(A::afi_safi_spec()),
                path_ids@,
                i,
            );
            let before = routes_of(*old(table), p, nbr_addr, id);
            let after = routes_of(*final(table), p, nbr_addr, id);
            &&& after is Some
            &&& final(table)@.queued.contains(p)
            &&& results@[i].1 matches PolicyResult::Accept(info) ==> (after->0.in_post matches Some(route)
                && is_policy_route(route, info) && final(ops)@.contains(NexthopOp::Track { prefix: p, route }))
            &&& results@[i].1 is Reject ==> after->0.in_post is None
            &&& before is Some ==> after->0.in_pre == before->0.in_pre && after->0.out_pre == before->0.out_pre
                && after->0.out_post == before->0.out_post
            &&& before is None ==> after->0.in_pre is None && after->0.out_pre is None && after->0.out_post is None
        },
{
    let in_use = neighbors@[nbr_addr].receives_paths(A::afi_safi_spec());
    let s = InState { table: old(table)@, ops: old(ops)@ };
    let q = result_path::<A>(in_use, results@, path_ids@, i);
    if r {
        assert forall|j: int| i < j < results@.len() implies #[trigger] result_path::<A>(
            in_use,
            results@,
            path_ids@,
            j,
        ) != q by {
            assert(A::from_ip_network_spec(results@[j].0) is Some);
        }
        imported_path::<A>(s, nbr_addr, in_use, results@, path_ids@, i, q);
        imported_elsewhere::<A>(s, nbr_addr, in_use, results@, path_ids@, q);
        raw_routes(*old(table), q, nbr_addr);
        raw_routes(*final(table), q, nbr_addr);
    }
}

proof fn import_untracks<A: AddressFamily>(
    s: InState<A::Prefix>,
    addr: IpAddr,
    in_use: bool,
    results: Seq<(IpNetwork, PolicyResult<RoutePolicyInfo>)>,
    ids: Seq<u32>,
    q: Path<A::Prefix>,
    old_route: Route,
)
    requires
        adj_at(s.table, q, addr).in_post == Some(old_route),
        exists|i: int|
            0 <= i < results.len() && #[trigger] result_path::<A>(in_use, results, ids, i) == q,
    ensures
        imported_all::<A>(s, addr, in_use, results, ids).ops.contains(
            NexthopOp::Untrack { prefix: q.prefix, route: old_route },
        ),
    decreases results.len(),
{
    let init = results.drop_last();
    let n = results.len() - 1;
    let u = imported_all::<A>(s, addr, in_use, init, ids);
    let v = imported_all::<A>(s, addr, in_use, results, ids);
    let x = NexthopOp::Untrack { prefix: q.prefix, route: old_route };
    let last = result_path::<A>(in_use, results, ids, n);
    assert forall|j: int| 0 <= j < init.len() implies #[trigger] result_path::<A>(in_use, init, ids, j)
        == result_path::<A>(in_use, results, ids, j) by {}
    ops_grow(u, addr, last, results[n].1);
    if exists|i: int| 0 <= i < init.len() && #[trigger] result_path::<A>(in_use, init, ids, i) == q {
        import_untracks::<A>(s, addr, in_use, init, ids, q, old_route);
        let k = choose|k: int| 0 <= k < u.ops.len() && u.ops[k] == x;
        assert(v.ops[k] == x);
    } else {
        let i = choose|i: int| 0 <= i < results.len() && #[trigger] result_path::<A>(in_use, results, ids, i) == q;
        if i < n {
            assert(result_path::<A>(in_use, init, ids, i) == q);
        }
        imported_elsewhere::<A>(s, addr, in_use, init, ids, q);
        assert(adj_at(u.table, q, addr).in_post == Some(old_route));
        assert(v.ops[u.ops.len() as int] == x);
    }
}

/// A decision of import policies takes the place of the one before it: the next
/// hop of the route that was accepted on the path is not tracked for it any more,
/// whether the route is accepted again or not.
pub proof fn replaced_routes_are_untracked<A: AddressFamily>(
    neighbors: &Neighbors,
    nbr_addr: IpAddr,
    table: &mut RoutingTable<A::Prefix>,
    results: &Vec<(IpNetwork, PolicyResult<RoutePolicyInfo>)>,
    path_ids: &Vec<u32>,
    ops: &mut Vec<NexthopOp<A::Prefix>>,
    r: bool,
    i: int,
    p: A::Prefix,
    old_route: Route,
)
    requires
        call_ensures(
            process_nbr_policy_import::<A>,
            (neighbors, nbr_addr, table, results, path_ids, ops),
            r,
        ),
        r,
        0 <= i < results@.len(),
        A::from_ip_network_spec(results@[i].0) == Some(p),
        routes_of(
            *old(table),
            p,
            nbr_addr,
            decided_id(neighbors@[nbr_addr].add_path_rx@.contains(A::afi_safi_spec()), path_ids@, i),
        ) matches Some(adj) && adj.in_post == Some(old_route),
    ensures
        final(ops)@.contains(NexthopOp::Untrack { prefix: p, route: old_route }),
{
    let in_use = neighbors@[nbr_addr].receives_paths(A::afi_safi_spec());
    let s = InState { table: old(table)@, ops: old(ops)@ };
    let q = result_path::<A>(in_use, results@, path_ids@, i);
    raw_routes(*old(table), q, nbr_addr);
    import_untracks::<A>(s, nbr_addr, in_use, results@, path_ids@, q, old_route);
}

proof fn learned_untracks<P>(
    s: InState<P>,
    addr: IpAddr,
    ps: Seq<(Path<P>, Label)>,
    route: Route,
    q: Path<P>,
    old_route: Route,
)
    requires
        adj_at(s.table, q, addr).in_post == Some(old_route),
    ensures
        (exists|i: int| 0 <= i < ps.len() && (#[trigger] ps[i]).0 == q) ==> learned_all(s, addr, ps, route).ops.contains(
            NexthopOp::Untrack { prefix: q.prefix, route: old_route },
        ),
        !(exists|i: int| 0 <= i < ps.len() && (#[trigger] ps[i]).0 == q) ==> adj_at(
            learned_all(s, addr, ps, route).table,
            q,
            addr,
        ).in_post == Some(old_route),
    decreases ps.len(),
{
    if ps.len() > 0 {
        let init = ps.drop_last();
        let n = ps.len() - 1;
        let u = learned_all(s, addr, init, route);
        let v = learned_all(s, addr, ps, route);
        let x = NexthopOp::Untrack { prefix: q.prefix, route: old_route };
        learned_untracks(s, addr, init, route, q, old_route);
        if exists|i: int| 0 <= i < init.len() && (#[trigger] init[i]).0 == q {
            let i = choose|i: int| 0 <= i < init.len() && (#[trigger] init[i]).0 == q;
            assert(ps[i].0 == q);
            let k = choose|k: int| 0 <= k < u.ops.len() && u.ops[k] == x;
            assert(v.ops[k] == x);
        } else if ps[n].0 == q {
            assert(v.ops[u.ops.len() as int] == x);
        } else {
            assert forall|i: int| 0 <= i < ps.len() implies (#[trigger] ps[i]).0 != q by {
                if i < n {
                    assert(init[i].0 != q);
                }
            }
        }
    }
}

/// A labeled route takes the place of the one that was there on its path: the
/// next hop of that one is not tracked for it any more.
pub proof fn replaced_labeled_routes_are_untracked<P: Ranked>(
    nbr: &Neighbor,
    table: &mut RoutingTable<P>,
    afi_safi: AfiSafi,
    paths: Vec<(Path<P>, Label)>,
    attrs: Attrs,
    ops: &mut Vec<NexthopOp<P>>,
    r: bool,
    i: int,
    old_route: Route,
)
    requires
        call_ensures(
            process_nbr_reach_prefixes_pre_policy::<P>,
            (nbr, table, afi_safi, paths, attrs, ops),
            r,
        ),
        !r,
        in_use(*nbr, afi_safi),
        0 <= i < paths@.len(),
        routes_of(*old(table), paths@[i].0.prefix, nbr.remote_addr, paths@[i].0.path_id) matches Some(adj)
            && adj.in_post == Some(old_route),
    ensures
        final(ops)@.contains(NexthopOp::Untrack { prefix: paths@[i].0.prefix, route: old_route }),
{
    let q = paths@[i].0;
    let s = InState { table: old(table)@, ops: old(ops)@ };
    raw_routes(*old(table), q, nbr.remote_addr);
    learned_untracks(
        s,
        nbr.remote_addr,
        paths@,
        Route::new_spec(nbr_origin(*nbr), attrs, nbr_route_type(*nbr)),
        q,
        old_route,
    );
}

proof fn exported_path<A: AddressFamily>(
    s: OutState<A::Prefix>,
    addr: IpAddr,
    in_use: bool,
    results: Seq<(IpNetwork, PolicyResult<RoutePolicyInfo>)>,
    ids: Seq<u32>,
    tx_attrs: Seq<Attrs>,
    q: Path<A::Prefix>,
    i: int,
)
    requires
        forall|j: int|
            0 <= j < results.len() && j != i ==> #[trigger] result_path::<A>(in_use, results, ids, j) != q,
        0 <= i < results.len() ==> result_path::<A>(in_use, results, ids, i) == q,
    ensures
        ({
            let u = exported_all::<A>(s, addr, in_use, results, ids, tx_attrs);
            let before = adj_at(s.table, q, addr);
            let after = adj_at(u.table, q, addr);
            &&& after.in_pre == before.in_pre && after.in_post == before.in_post && after.out_pre == before.out_pre
            &&& !(0 <= i < results.len()) ==> after == before
            &&& forall|a: Attrs| #[trigger]
                waits_with(s.queue.reach, q, a) ==> waits_with(u.queue.reach, q, a)
            &&& s.queue.unreach.contains(q) ==> u.queue.unreach.contains(q)
            &&& 0 <= i < results.len() ==> {
                &&& has_adj(u.table, q, addr)
                &&& results[i].1 matches PolicyResult::Accept(info) ==> {
                    &&& after.out_post matches Some(route) && route.attrs@ == info.attrs@
                    &&& before.out_post is None || before.out_post->0.attrs@ != info.attrs@ ==> is_policy_route(
                        after.out_post->0,
                        info,
                    ) && waits_with(u.queue.reach, q, tx_attrs[i])
                }
                &&& results[i].1 is Reject ==> after.out_post is None && (before.out_post is Some
                    ==> u.queue.unreach.contains(q))
            }
        }),
    decreases results.len(),
{
    if results.len() > 0 {
        let init = results.drop_last();
        let n = results.len() - 1;
        let u = exported_all::<A>(s, addr, in_use, init, ids, tx_attrs);
        assert forall|j: int| 0 <= j < init.len() implies #[trigger] result_path::<A>(in_use, init, ids, j)
            == result_path::<A>(in_use, results, ids, j) by {}
        assert forall|j: int| 0 <= j < init.len() && j != i implies #[trigger] result_path::<A>(in_use, init, ids, j)
            != q by {
            assert(result_path::<A>(in_use, results, ids, j) != q);
        }
        if 0 <= i < init.len() {
            assert(init[i] == results[i]);
            assert(result_path::<A>(in_use, init, ids, i) == q);
        }
        exported_path::<A>(s, addr, in_use, init, ids, tx_attrs, q, i);
        let last = result_path::<A>(in_use, results, ids, n);
        added_waits(u.queue.reach, tx_attrs[n], last);
        if i != n {
            assert(last != q);
        }
    }
}

/// A decision of export policies on a path for an established neighbor: what is
/// accepted is kept as advertised and, unless it was advertised with the same
/// attributes, sent with the given ones; what is rejected is not kept as
/// advertised, and is withdrawn if it was. The identifier counts only where
/// identifiers are sent to the neighbor.
pub proof fn export_decisions_are_told<A: AddressFamily>(
    neighbors: &Neighbors,
    nbr_addr: IpAddr,
    table: &mut RoutingTable<A::Prefix>,
    queue: &mut NeighborUpdateQueue<A::Prefix>,
    results: &Vec<(IpNetwork, PolicyResult<RoutePolicyInfo>)>,
    path_ids: &Vec<u32>,
    tx_attrs: &Vec<Attrs>,
    r: Vec<UpdateMsg>,
    i: int,
    p: A::Prefix,
)
    requires
        call_ensures(
            process_nbr_policy_export::<A>,
            (neighbors, nbr_addr, table, queue, results, path_ids, tx_attrs),
            r,
        ),
        old(queue).wf(),
        sendable_queue::<A>(old(queue)@),
        forall|j: int|
            0 <= j < results@.len() && (#[trigger] results@[j]).1 is Accept ==> attrs_fit::<A>(
                tx_attrs@[j],
                old(queue)@.add_path,
            ),
        0 <= i < results@.len(),
        A::from_ip_network_spec(results@[i].0) == Some(p),
        forall|j: int|
            0 <= j < results@.len() && j != i ==> A::from_ip_network_spec((#[trigger] results@[j]).0) is Some && (
            A::from_ip_network_spec(results@[j].0) != Some(p) || decided_id(
                neighbors@[nbr_addr].add_path_tx@.contains(A::afi_safi_spec()),
                path_ids@,
                j,
            ) != decided_id(neighbors@[nbr_addr].add_path_tx@.contains(A::afi_safi_spec()), path_ids@, i)),
    ensures
        !(neighbors@.contains_key(nbr_addr) && neighbors@[nbr_addr].state == State::Established) ==> r@.len() == 0
            && *final(table) == *old(table),
        neighbors@.contains_key(nbr_addr) && neighbors@[nbr_addr].state == State::Established ==> {
            let id = decided_id(
                neighbors@[nbr_addr].add_path_tx@.contains(A::afi_safi_spec()),
                path_ids@,
                i,
            );
            let q = Path { prefix: p, path_id: id };
            let before = routes_of(*old(table), p, nbr_addr, id);
            let after = routes_of(*final(table), p, nbr_addr, id);
            &&& after is Some
            &&& results@[i].1 matches PolicyResult::Accept(info) ==> {
                &&& after->0.out_post matches Some(route) && route.attrs@ == info.attrs@
                &&& before is None || before->0.out_post is None || before->0.out_post->0.attrs@ != info.attrs@
                    ==> sends_route::<A>(update_models(r@), q, tx_attrs@[i])
            }
            &&& results@[i].1 is Reject ==> after->0.out_post is None
            &&& results@[i].1 is Reject && before is Some && before->0.out_post is Some ==> sends_withdrawal::<A>(
                update_models(r@),
                q,
            )
            &&& before is Some ==> after->0.in_pre == before->0.in_pre && after->0.in_post == before->0.in_post
                && after->0.out_pre == before->0.out_pre
        },
{
    let in_use = neighbors@[nbr_addr].sends_paths(A::afi_safi_spec());
    let s = OutState { table: old(table)@, queue: old(queue)@ };
    let q = result_path::<A>(in_use, results@, path_ids@, i);
    if neighbors@.contains_key(nbr_addr) && neighbors@[nbr_addr].state == State::Established {
        assert forall|j: int| 0 <= j < results@.len() && j != i implies #[trigger] result_path::<A>(
            in_use,
            results@,
            path_ids@,
            j,
        ) != q by {
            assert(A::from_ip_network_spec(results@[j].0) is Some);
        }
        exported_path::<A>(s, nbr_addr, in_use, results@, path_ids@, tx_attrs@, q, i);
        let u = exported_all::<A>(s, nbr_addr, in_use, results@, path_ids@, tx_attrs@);
        exports_can_be_sent::<A>(s, nbr_addr, in_use, results@, path_ids@, tx_attrs@);
        raw_routes(*old(table), q, nbr_addr);
        raw_routes(*final(table), q, nbr_addr);
        if waits_with(u.queue.reach, q, tx_attrs@[i]) {
            queued_routes_are_sent::<A>(u.queue, q, tx_attrs@[i]);
        }
        if u.queue.unreach.contains(q) {
            queued_withdrawals_are_sent::<A>(u.queue, q);
        }
    }
}

/// A redistributed route that import policies accept is kept as this router's own
/// route for the prefix, as they left it; one that they reject is not kept. Either
/// way the prefix is queued.
pub proof fn redistribution_decisions_are_kept<A: AddressFamily>(
    table: &mut RoutingTable<A::Prefix>,
    prefix: IpNetwork,
    result: PolicyResult<RoutePolicyInfo>,
    r: (),
    p: A::Prefix,
    other: A::Prefix,
)
    requires
        call_ensures(process_redistribute_policy_import::<A>, (table, prefix, result), r),
        A::from_ip_network_spec(prefix) == Some(p),
    ensures
        result matches PolicyResult::Accept(info) ==> (own_route_of(*final(table), p) matches Some(route)
            && route.origin == info.origin && route.attrs == info.attrs && route.route_type == RouteType::Internal
            && route.vpn_label is None),
        result is Reject ==> own_route_of(*final(table), p) is None,
        final(table)@.queued.contains(p),
        same_but_own_route(*final(table), *old(table), p),
        other != p ==> same_prefix(*final(table), *old(table), other),
{
    let t = *final(table);
    if t.prefixes@.contains_key(p) {
        assert(t@.prefixes.contains_key(p));
        assert(t@.prefixes[p] == t.prefixes@[p]@);
    } else {
        assert(!t@.prefixes.contains_key(p));
    }
}

/// Routes that are withdrawn from a neighbor are not kept as advertised to it, and
/// those that were advertised are withdrawn by message.
pub proof fn withdrawn_routes_are_told<A: AddressFamily>(
    nbr: &Neighbor,
    table: &mut RoutingTable<A::Prefix>,
    queue: &mut NeighborUpdateQueue<A::Prefix>,
    routes: &Vec<Path<A::Prefix>>,
    r: Vec<UpdateMsg>,
    i: int,
)
    requires
        old(queue).wf(),
        call_ensures(withdraw_routes::<A>, (nbr, table, queue, routes), r),
        0 <= i < routes@.len(),
    ensures
        ({
            let q = routes@[i];
            let before = routes_of(*old(table), q.prefix, nbr.remote_addr, q.path_id);
            let after = routes_of(*final(table), q.prefix, nbr.remote_addr, q.path_id);
            &&& after is Some ==> after->0.out_pre is None && after->0.out_post is None
            &&& before is Some && before->0.out_post is Some ==> sends_withdrawal::<A>(update_models(r@), q)
        }),
{
    let q = routes@[i];
    let s = OutState { table: old(table)@, queue: old(queue)@ };
    elems_count(old(queue).unreach);
    assert(routes@.contains(q));
    unadvertised_path(s, nbr.remote_addr, routes@, q);
    unadvertised_is_gone(s, nbr.remote_addr, routes@);
    let u = unadvertised_all(s, nbr.remote_addr, routes@);
    if u.queue.unreach.contains(q) {
        queued_withdrawals_are_sent::<A>(u.queue, q);
    }
    raw_routes(*old(table), q, nbr.remote_addr);
    raw_routes(*final(table), q, nbr.remote_addr);
}

/// Whether one of several messages advertises a path with some attributes and a
/// label, if there is one.
pub open spec fn sends_labeled<A: AddressFamily>(
    msgs: Seq<UpdateModel>,
    q: Path<A::Prefix>,
    attrs: Attrs,
    label: Option<Label>,
) -> bool {
    exists|piece: Seq<Path<A::Prefix>>, labels: Map<Path<A::Prefix>, Label>, a: Attrs|
        piece.contains(q) && a@ == attrs@ && (label is Some ==> labels.contains_key(q) && labels[q] == label->0)
            && msgs.contains(#[trigger] A::reach_update(piece, labels, a))
}

proof fn labeled_entry_is_sent<A: AddressFamily>(
    reach: Seq<(Attrs, Set<Path<A::Prefix>>)>,
    labels: Map<Path<A::Prefix>, Label>,
    add_path: bool,
    e: int,
    q: Path<A::Prefix>,
    label: Option<Label>,
)
    requires
        0 <= e < reach.len(),
        reach[e].1.contains(q),
        reach[e].1.finite(),
        attrs_fit::<A>(reach[e].0, add_path),
        label is Some ==> labels.contains_key(q) && labels[q] == label->0,
    ensures
        sends_labeled::<A>(reach_updates::<A>(reach, labels, add_path), q, reach[e].0, label),
    decreases reach.len(),
{
    let init = reach.drop_last();
    let last = reach[reach.len() - 1];
    let before = reach_updates::<A>(init, labels, add_path);
    let own = entry_updates::<A>(last.0, last.1, labels, add_path);
    let all = reach_updates::<A>(reach, labels, add_path);
    if e < init.len() {
        assert(init[e] == reach[e]);
        labeled_entry_is_sent::<A>(init, labels, add_path, e, q, label);
        let (piece, l, a) = choose|piece: Seq<Path<A::Prefix>>, l: Map<Path<A::Prefix>, Label>, a: Attrs|
            piece.contains(q) && a@ == reach[e].0@ && (label is Some ==> l.contains_key(q) && l[q] == label->0)
                && before.contains(#[trigger] A::reach_update(piece, l, a));
        let x = A::reach_update(piece, l, a);
        let m = choose|m: int| 0 <= m < before.len() && before[m] == x;
        assert(all[m] == x);
        assert(all.contains(A::reach_update(piece, l, a)));
    } else {
        let size = path_size(A::prefix_size(), add_path);
        let overhead = attrs_length(last.0@) + A::reach_overhead(last.0);
        A::withdrawals_have_room(add_path);
        room_is_there(overhead, size);
        let n = room(overhead, size);
        let listed = in_order::<Path<A::Prefix>>(last.1);
        finite_sets_have_order::<Path<A::Prefix>>(last.1);
        assert(listed.contains(q));
        piece_members(listed, n, q);
        let pieces = chunked(listed, n);
        let m = choose|m: int| 0 <= m < pieces.len() && (#[trigger] pieces[m]).contains(q);
        assert(own[m] == A::reach_update(pieces[m], labels, last.0));
        assert(all[before.len() + m] == own[m]);
        assert(all.contains(A::reach_update(pieces[m], labels, last.0)));
    }
}

proof fn labeled_queue_is_sent<A: AddressFamily>(
    queue: QueueModel<A::Prefix>,
    q: Path<A::Prefix>,
    attrs: Attrs,
    label: Option<Label>,
)
    requires
        sendable_queue::<A>(queue),
        waits_with(queue.reach, q, attrs),
        label is Some ==> queue.labels.contains_key(q) && queue.labels[q] == label->0,
    ensures
        sends_labeled::<A>(queue_updates::<A>(queue), q, attrs, label),
{
    let e = choose|e: int|
        0 <= e < queue.reach.len() && (#[trigger] queue.reach[e]).0@ == attrs@ && queue.reach[e].1.contains(q);
    assert(attrs_fit::<A>(queue.reach[e].0, queue.add_path));
    labeled_entry_is_sent::<A>(queue.reach, queue.labels, queue.add_path, e, q, label);
    let first = reach_updates::<A>(queue.reach, queue.labels, queue.add_path);
    let all = queue_updates::<A>(queue);
    let (piece, l, a) = choose|piece: Seq<Path<A::Prefix>>, l: Map<Path<A::Prefix>, Label>, a: Attrs|
        piece.contains(q) && a@ == queue.reach[e].0@ && (label is Some ==> l.contains_key(q) && l[q] == label->0)
            && first.contains(#[trigger] A::reach_update(piece, l, a));
    let x = A::reach_update(piece, l, a);
    let m = choose|m: int| 0 <= m < first.len() && first[m] == x;
    assert(all[m] == x);
    assert(all.contains(A::reach_update(piece, l, a)));
}

/// Everything that waits is sent: each path that waits to be advertised with its
/// attributes and its label, and each that waits to be withdrawn. Nothing waits
/// any more then.
pub proof fn queued_paths_are_sent<A: AddressFamily>(
    queue: &mut NeighborUpdateQueue<A::Prefix>,
    r: Vec<UpdateMsg>,
    q: Path<A::Prefix>,
    attrs: Attrs,
    label: Option<Label>,
)
    requires
        call_ensures(build_family_updates::<A>, (queue,), r),
        old(queue).wf(),
        sendable_queue::<A>(old(queue)@),
    ensures
        waits_with(old(queue)@.reach, q, attrs) && (label is Some ==> old(queue).labels@.contains_key(q) && old(
            queue
        ).labels@[q] == label->0) ==> sends_labeled::<A>(update_models(r@), q, attrs, label),
        old(queue).unreach@.contains(q) ==> sends_withdrawal::<A>(update_models(r@), q),
        final(queue).reach@.len() == 0,
        !final(queue).unreach@.contains(q),
        final(queue).add_path == old(queue).add_path,
{
    elems_count(old(queue).unreach);
    if waits_with(old(queue)@.reach, q, attrs) && (label is Some ==> old(queue).labels@.contains_key(q) && old(
        queue
    ).labels@[q] == label->0) {
        labeled_queue_is_sent::<A>(old(queue)@, q, attrs, label);
    }
    if old(queue).unreach@.contains(q) {
        queued_withdrawals_are_sent::<A>(old(queue)@, q);
    }
    assert(final(queue)@.reach.len() == final(queue).reach@.len());
}

proof fn advertised_label<P>(
    s: OutState<P>,
    addr: IpAddr,
    routes: Seq<(Path<P>, Route)>,
    tx_attrs: Seq<Attrs>,
    i: int,
)
    requires
        0 <= i < routes.len(),
        routes[i].1.vpn_label is Some,
        forall|j: int| i < j < routes.len() ==> (#[trigger] routes[j]).0 != routes[i].0,
    ensures
        advertised_all(s, addr, routes, tx_attrs).queue.labels.contains_key(routes[i].0),
        advertised_all(s, addr, routes, tx_attrs).queue.labels[routes[i].0] == routes[i].1.vpn_label->0,
    decreases routes.len(),
{
    let init = routes.drop_last();
    if i < init.len() {
        assert(init[i] == routes[i]);
        assert forall|j: int| i < j < init.len() implies (#[trigger] init[j]).0 != init[i].0 by {
            assert(init[j] == routes[j]);
        }
        advertised_label(s, addr, init, tx_attrs, i);
        assert(routes[routes.len() - 1].0 != routes[i].0);
    }
}

/// A route that is advertised to a neighbor is kept as chosen on its path. Where
/// routes pass export policies, these are asked for it and nothing is sent yet;
/// otherwise it is kept as advertised, and sent with the given attributes and its
/// label. Of several routes on one path the last counts.
pub proof fn advertised_routes_are_told<A: AddressFamily>(
    nbr: &Neighbor,
    table: &mut RoutingTable<A::Prefix>,
    queue: &mut NeighborUpdateQueue<A::Prefix>,
    routes: &Vec<(Path<A::Prefix>, Route)>,
    tx_attrs: &Vec<Attrs>,
    shared: &InstanceShared,
    r: NbrOutput,
    i: int,
)
    requires
        call_ensures(advertise_routes::<A>, (nbr, table, queue, routes, tx_attrs, shared), r),
        sendable_queue::<A>(old(queue)@),
        !A::policy_disseminate_spec() ==> tx_attrs@.len() == routes@.len(),
        forall|j: int| 0 <= j < tx_attrs@.len() ==> attrs_fit::<A>(#[trigger] tx_attrs@[j], old(queue)@.add_path),
        0 <= i < routes@.len(),
        forall|j: int| i < j < routes@.len() ==> (#[trigger] routes@[j]).0 != routes@[i].0,
    ensures
        ({
            let q = routes@[i].0;
            let route = routes@[i].1;
            let before = routes_of(*old(table), q.prefix, nbr.remote_addr, q.path_id);
            let after = routes_of(*final(table), q.prefix, nbr.remote_addr, q.path_id);
            &&& after is Some && after->0.out_pre == Some(route)
            &&& before is Some ==> after->0.in_pre == before->0.in_pre && after->0.in_post == before->0.in_post
            &&& A::policy_disseminate_spec() ==> r.msgs@.len() == 0 && (before is Some ==> after->0.out_post
                == before->0.out_post) && (before is None ==> after->0.out_post is None) && (r.policy matches Some(req)
                && asks_export(
                req,
                *nbr,
                A::afi_safi_spec(),
                *shared,
                A::to_ip_network_spec(q.prefix),
                q.path_id,
                route,
            ))
            &&& !A::policy_disseminate_spec() ==> after->0.out_post == Some(route) && r.policy is None
                && sends_labeled::<A>(update_models(r.msgs@), q, tx_attrs@[i], route.vpn_label)
        }),
{
    let addr = nbr.remote_addr;
    let q = routes@[i].0;
    let s = OutState { table: old(table)@, queue: old(queue)@ };
    let chosen = OutState { table: chosen_all(s.table, addr, routes@), ..s };
    chosen_path(s.table, addr, routes@, q);
    assert(routes@[i].0 == q);
    raw_routes(*old(table), q, addr);
    raw_routes(*final(table), q, addr);
    assert(update_models(r.msgs@).len() == r.msgs@.len());
    if !A::policy_disseminate_spec() {
        let u = advertised_all(chosen, addr, routes@, tx_attrs@);
        advertised_path(chosen, addr, routes@, tx_attrs@, q);
        advertised_waits::<A>(chosen, addr, routes@, tx_attrs@);
        if routes@[i].1.vpn_label is Some {
            advertised_label(chosen, addr, routes@, tx_attrs@, i);
        }
        labeled_queue_is_sent::<A>(u.queue, q, tx_attrs@[i], routes@[i].1.vpn_label);
        assert(adj_at(final(table)@, q, addr).out_pre is Some);
    } else {
        assert(adj_at(final(table)@, q, addr).out_pre is Some);
        if let Some(req) = r.policy {
            export_asks::<A>(req, *nbr, routes@, *shared, i);
        }
    }
}

proof fn resent_waits<A: AddressFamily>(
    q: QueueModel<A::Prefix>,
    routes: Seq<PeerRoute<A::Prefix>>,
    tx_attrs: Seq<Attrs>,
)
    requires
        sendable_queue::<A>(q),
        tx_attrs.len() >= routes.len(),
        forall|i: int| 0 <= i < routes.len() ==> attrs_fit::<A>(#[trigger] tx_attrs[i], q.add_path),
    ensures
        sendable_queue::<A>(resent(q, routes, tx_attrs)),
        resent(q, routes, tx_attrs).add_path == q.add_path,
        forall|i: int|
            0 <= i < routes.len() ==> waits_with(
                resent(q, routes, tx_attrs).reach,
                route_path(#[trigger] routes[i]),
                tx_attrs[i],
            ),
    decreases routes.len(),
{
    if routes.len() > 0 {
        let init = routes.drop_last();
        let n = routes.len() - 1;
        let u = resent(q, init, tx_attrs);
        let v = resent(q, routes, tx_attrs);
        resent_waits::<A>(q, init, tx_attrs);
        added_waits(u.reach, tx_attrs[n], route_path(routes[n]));
        reach_index_bound(u.reach, tx_attrs[n]);
        assert(attrs_fit::<A>(tx_attrs[n], q.add_path));
        assert forall|e: int| 0 <= e < v.reach.len() implies attrs_fit::<A>((#[trigger] v.reach[e]).0, v.add_path)
            && v.reach[e].1.finite() by {
            if e < u.reach.len() {
                assert(attrs_fit::<A>(u.reach[e].0, u.add_path));
                assert(u.reach[e].1.finite());
            }
        }
        assert forall|i: int| 0 <= i < routes.len() implies waits_with(
            v.reach,
            route_path(#[trigger] routes[i]),
            tx_attrs[i],
        ) by {
            if i < n {
                assert(init[i] == routes[i]);
                assert(waits_with(u.reach, route_path(init[i]), tx_attrs[i]));
            }
        }
    }
}

/// What is advertised to a neighbor is listed path by path, exactly as it is
/// kept, and a neighbor that asks for it is sent each of these paths once more.
pub proof fn advertised_routes_are_sent_again<A: AddressFamily>(
    nbr: &Neighbor,
    table: &RoutingTable<A::Prefix>,
    queue: &mut NeighborUpdateQueue<A::Prefix>,
    tx_attrs: &Vec<Attrs>,
    r: Vec<UpdateMsg>,
    list: Vec<PeerRoute<A::Prefix>>,
    i: int,
    p: A::Prefix,
    id: u32,
)
    requires
        call_ensures(resend_adj_rib_out::<A>, (nbr, table, queue, tx_attrs), r),
        call_ensures(list_advertised::<A::Prefix>, (table, nbr.remote_addr), list),
        table.wf(),
        sendable_queue::<A>(old(queue)@),
        tx_attrs@.len() == list@.len(),
        forall|j: int| 0 <= j < tx_attrs@.len() ==> attrs_fit::<A>(#[trigger] tx_attrs@[j], old(queue)@.add_path),
    ensures
        0 <= i < list@.len() ==> {
            let x = list@[i];
            &&& x.peer.addr == nbr.remote_addr
            &&& routes_of(*table, x.prefix, nbr.remote_addr, x.peer.path_id) matches Some(adj) && adj.out_post == Some(
                x.route,
            )
            &&& sends_route::<A>(
                update_models(r@),
                Path { prefix: x.prefix, path_id: x.peer.path_id },
                tx_attrs@[i],
            )
        },
        routes_of(*table, p, nbr.remote_addr, id) matches Some(adj) ==> (adj.out_post matches Some(route)
            ==> list@.contains(PeerRoute { prefix: p, peer: PeerPath { addr: nbr.remote_addr, path_id: id }, route })),
{
    let addr = nbr.remote_addr;
    let ps = in_order::<A::Prefix>(table@.prefixes.dom());
    tables_are_finite(*table);
    finite_sets_have_order::<A::Prefix>(table@.prefixes.dom());
    resent_waits::<A>(old(queue)@, list@, tx_attrs@);
    if 0 <= i < list@.len() {
        let x = list@[i];
        let q = route_path(x);
        assert(list@.contains(x));
        listed_exactly(table@, ps, AdjSide::OutPost, Some(addr), x);
        raw_routes(*table, q, addr);
        queued_routes_are_sent::<A>(resent(old(queue)@, list@, tx_attrs@), q, tx_attrs@[i]);
    }
    let q = Path { prefix: p, path_id: id };
    raw_routes(*table, q, addr);
    if let Some(route) = adj_at(table@, q, addr).out_post {
        let x = PeerRoute { prefix: p, peer: PeerPath { addr, path_id: id }, route };
        assert(table@.prefixes.dom().contains(p));
        assert(ps.contains(p));
        listed_exactly(table@, ps, AdjSide::OutPost, Some(addr), x);
    }
}

/// The queued prefixes are sorted by whether a route was selected for them: those
/// with one come with it, the others are lost, and none is queued any more.
pub proof fn selected_routes_are_sorted<P: Ranked>(
    table: &mut RoutingTable<P>,
    selections: &Vec<Selection>,
    r: (Vec<(Path<P>, Route)>, Vec<Path<P>>),
    ps: Vec<P>,
    k: int,
    a: int,
    p: P,
) -> (n: (int, int))
    requires
        call_ensures(select_routes::<P>, (table, selections), r),
        call_ensures(decision_candidates::<P>, (&*old(table),), ps),
        old(table).wf(),
        final(table).wf(),
    ensures
        ps@.contains(p) <==> old(table).queued_prefixes@.contains(p) && old(table).prefixes@.contains_key(p),
        !final(table).queued_prefixes@.contains(p),
        0 <= k < ps@.len() ==> (selections@[k].best matches Some(route) ==> r.0@.contains(
            (Path { prefix: ps@[k], path_id: 0 }, route),
        )),
        0 <= k < ps@.len() && selections@[k].best is None ==> r.1@.contains(Path { prefix: ps@[k], path_id: 0 }),
        0 <= a < r.0@.len() ==> 0 <= n.0 < ps@.len() && r.0@[a] == (
            Path { prefix: ps@[n.0], path_id: 0u32 },
            selections@[n.0].best->0,
        ) && selections@[n.0].best is Some,
        0 <= a < r.1@.len() ==> 0 <= n.1 < ps@.len() && r.1@[a] == (Path { prefix: ps@[n.1], path_id: 0u32 })
            && selections@[n.1].best is None,
{
    let t = old(table)@;
    tables_are_finite(*old(table));
    candidates_are_queued(t, p);
    assert(t.prefixes.contains_key(p) == old(table).prefixes@.contains_key(p));
    if 0 <= k < ps@.len() {
        selection_of(ps@, selections@, k);
        if let Some(route) = selections@[k].best {
            let x = (Path { prefix: ps@[k], path_id: 0u32 }, route);
            let b = choose|b: int| 0 <= b < r.0@.len() && #[trigger] r.0@[b] == x;
            assert(r.0@.contains(x));
        }
    }
    let n0 = if 0 <= a < r.0@.len() {
        best_from(ps@, selections@, a)
    } else {
        0
    };
    let n1 = if 0 <= a < r.1@.len() {
        lost_from(ps@, selections@, a)
    } else {
        0
    };
    (n0, n1)
}

/// The extended communities of a route.
pub open spec fn comms_of(route: LocalRoute) -> Seq<ExtComm> {
    match route.attrs.ext_comm {
        Some(list) => list.0.elems(),
        None => Seq::empty(),
    }
}

/// Whether a network instance imports a route: it imports a route target that
/// one of the extended communities of the route carries.
pub open spec fn is_imported(route: LocalRoute, import: VpnImport) -> bool {
    exists|rt: RouteTarget, j: int|
        #![trigger import.import_rts@.contains(rt), comms_of(route)[j]]
        import.import_rts@.contains(rt) && 0 <= j
            < comms_of(route).len() && rt_of(comms_of(route)[j].0@) == Some(rt)
}

proof fn imported_tables(route: LocalRoute, shared: InstanceShared, table: u32)
    ensures
        route_tables(route, shared).contains(table) <==> exists|i: int|
            0 <= i < shared.vpn_imports.entries@.len() && (#[trigger] shared.vpn_imports.entries@[i]).1.table_id
                == Some(table) && is_imported(route, shared.vpn_imports.entries@[i].1),
{
    let entries = shared.vpn_imports.entries@;
    if let Some(list) = route.attrs.ext_comm {
        let comms = list.0.elems();
        let rts = carried_rts(comms);
        import_tables_are(entries, rts, table);
        assert forall|i: int| 0 <= i < entries.len() implies imports_any((#[trigger] entries[i]).1, rts) == is_imported(
            route,
            entries[i].1,
        ) by {
            let import = entries[i].1;
            if imports_any(import, rts) {
                let rt = choose|rt: RouteTarget| #[trigger] import.import_rts@.contains(rt) && rts.contains(rt);
                carried_rts_are(comms, rt);
                let j = choose|j: int| 0 <= j < comms.len() && rt_of((#[trigger] comms[j]).0@) == Some(rt);
                assert(import.import_rts@.contains(rt) && comms_of(route)[j] == comms[j]);
            }
            if is_imported(route, import) {
                let (rt, j) = choose|rt: RouteTarget, j: int|
                    #![trigger import.import_rts@.contains(rt), comms_of(route)[j]]
                    import.import_rts@.contains(rt) && 0 <= j
                        < comms_of(route).len() && rt_of(comms_of(route)[j].0@)
                        == Some(rt);
                carried_rts_are(comms, rt);
                assert(rt_of(comms[j].0@) == Some(rt));
                assert(import.import_rts@.contains(rt) && rts.contains(rt));
            }
        }
        if import_rts(route) is None && (exists|i: int|
            0 <= i < entries.len() && (#[trigger] entries[i]).1.table_id == Some(table) && is_imported(
                route,
                entries[i].1,
            )) {
            let i = choose|i: int|
                0 <= i < entries.len() && (#[trigger] entries[i]).1.table_id == Some(table) && is_imported(
                    route,
                    entries[i].1,
                );
            assert(imports_any(entries[i].1, rts));
            let rt = choose|rt: RouteTarget| #[trigger] entries[i].1.import_rts@.contains(rt) && rts.contains(rt);
            assert(rts.contains(rt));
        }
    } else {
        assert forall|i: int| 0 <= i < entries.len() implies !is_imported(route, (#[trigger] entries[i]).1) by {}
    }
}

/// A VPN route is installed into the table of each network instance that imports
/// it, under its prefix and with the given distance, and into no other; it is
/// removed from the same tables.
pub proof fn vpn_routes_go_where_they_are_imported(
    prefix: IpNetwork,
    route: &LocalRoute,
    shared: &InstanceShared,
    distance: u8,
    tables: Vec<u32>,
    installed: Vec<IbusRequest>,
    removed: Vec<IbusRequest>,
    table: u32,
    k: int,
)
    requires
        call_ensures(vpn_import_table_ids, (route, shared), tables),
        call_ensures(vpn_import_install, (prefix, route, shared, distance), installed),
        call_ensures(vpn_import_uninstall, (prefix, route, shared), removed),
    ensures
        tables@.contains(table) <==> exists|i: int|
            0 <= i < shared.vpn_imports.entries@.len() && (#[trigger] shared.vpn_imports.entries@[i]).1.table_id
                == Some(table) && is_imported(*route, shared.vpn_imports.entries@[i].1),
        installed@.len() == tables@.len(),
        removed@.len() == tables@.len(),
        0 <= k < tables@.len() ==> {
            &&& installed@[k] matches IbusRequest::RouteIpAdd(msg) && msg.table_id == Some(tables@[k]) && msg.prefix
                == prefix && msg.distance == distance && msg.protocol == Protocol::BGP && (
            route.attrs.base.med matches Some(med) ==> msg.metric == med) && (route.attrs.base.med is None
                ==> msg.metric == 0)
            &&& removed@[k] matches IbusRequest::RouteIpDel(key) && key.table_id == Some(tables@[k]) && key.prefix
                == prefix && key.protocol == Protocol::BGP
        },
{
    imported_tables(*route, *shared, table);
}

proof fn reapplied<A: AddressFamily>(
    t: TableModel<A::Prefix>,
    shared: InstanceShared,
    nbrs: Seq<Neighbor>,
    i: int,
)
    requires
        0 <= i < nbrs.len(),
        reapplies::<A>(nbrs[i], t),
    ensures
        reapply_requests::<A>(t, shared, nbrs).contains(retained_request::<A>(nbrs[i], t, shared)),
    decreases nbrs.len(),
{
    let init = nbrs.drop_last();
    let rest = reapply_requests::<A>(t, shared, init);
    let all = reapply_requests::<A>(t, shared, nbrs);
    let x = retained_request::<A>(nbrs[i], t, shared);
    if i == nbrs.len() - 1 {
        assert(all[rest.len() as int] == x);
    } else {
        assert(init[i] == nbrs[i]);
        reapplied::<A>(t, shared, init, i);
        let k = choose|k: int| 0 <= k < rest.len() && rest[k] == x;
        assert(all[k] == x);
    }
}

proof fn reapplied_from<A: AddressFamily>(
    t: TableModel<A::Prefix>,
    shared: InstanceShared,
    nbrs: Seq<Neighbor>,
    k: int,
) -> (i: int)
    requires
        0 <= k < reapply_requests::<A>(t, shared, nbrs).len(),
    ensures
        0 <= i < nbrs.len(),
        reapplies::<A>(nbrs[i], t),
        reapply_requests::<A>(t, shared, nbrs)[k] == retained_request::<A>(nbrs[i], t, shared),
    decreases nbrs.len(),
{
    let init = nbrs.drop_last();
    let rest = reapply_requests::<A>(t, shared, init);
    if k < rest.len() {
        let i = reapplied_from::<A>(t, shared, init, k);
        assert(init[i] == nbrs[i]);
        i
    } else {
        nbrs.len() - 1
    }
}

/// When import policies are applied again to the routes of all neighbors, each
/// neighbor has the request that it would have by itself, and there are no
/// others.
pub proof fn routes_of_all_neighbors_are_put_again<A: AddressFamily>(
    table: &RoutingTable<A::Prefix>,
    shared: &InstanceShared,
    neighbors: &Neighbors,
    r: Vec<PolicyApplyMsg>,
    i: int,
    one: Option<PolicyApplyMsg>,
    k: int,
)
    requires
        call_ensures(reapply_import_policy_all::<A>, (table, shared, neighbors), r),
        0 <= i < neighbors.entries@.len(),
        call_ensures(
            reapply_nbr_import_policy_for_nbr::<A>,
            (table, shared, &neighbors.entries@[i].1),
            one,
        ),
    ensures
        one matches Some(req) ==> is_requested(r@, req),
        0 <= k < r@.len() ==> exists|n: int|
            0 <= n < neighbors.entries@.len() && (#[trigger] neighbors.entries@[n]).1.state == State::Established
                && r@[k]@ == retained_request::<A>(neighbors.entries@[n].1, table@, *shared),
{
    let nbrs = nbr_list(*neighbors);
    assert(nbrs[i] == neighbors.entries@[i].1);
    let all = reapply_requests::<A>(table@, *shared, nbrs);
    if let Some(req) = one {
        reapplied::<A>(table@, *shared, nbrs, i);
        let m = choose|m: int| 0 <= m < all.len() && all[m] == req@;
        assert(apply_models(r@)[m] == r@[m]@);
        assert(r@[m]@ == req@);
    }
    if 0 <= k < r@.len() {
        assert(apply_models(r@)[k] == r@[k]@);
        let n = reapplied_from::<A>(table@, *shared, nbrs, k);
        assert(nbrs[n] == neighbors.entries@[n].1);
    }
}

/// Whether a request is among others.
pub open spec fn is_requested(r: Seq<PolicyApplyMsg>, req: PolicyApplyMsg) -> bool {
    exists|m: int| 0 <= m < r.len() && (#[trigger] r[m])@ == req@
}

/// A message that advertises IPv4 or IPv6 prefixes holds each of them with its
/// path identifier, the next hop of the attributes and the attributes, and nothing
/// else; one that withdraws them holds them alone. VPN prefixes go with their route
/// distinguisher and their label, 0 where there is none.
pub proof fn messages_hold_their_prefixes(
    p4: Seq<Path<Ipv4Network>>,
    l4: Map<Path<Ipv4Network>, Label>,
    p6: Seq<Path<Ipv6Network>>,
    l6: Map<Path<Ipv6Network>, Label>,
    v4: Seq<Path<Vpnv4Prefix>>,
    lv4: Map<Path<Vpnv4Prefix>, Label>,
    v6: Seq<Path<Vpnv6Prefix>>,
    lv6: Map<Path<Vpnv6Prefix>, Label>,
    attrs: Attrs,
    i: int,
)
    requires
        0 <= i,
    ensures
        ({
            let m = Ipv4Unicast::reach_update(p4, l4, attrs);
            &&& m.attrs == Some(attrs) && m.unreach is None && m.mp_reach is None && m.mp_unreach is None
            &&& m.reach matches Some((ps, ids, nexthop)) && ps.len() == p4.len() && ids.len() == p4.len() && (
            attrs.base.nexthop matches Some(IpAddr::V4(a)) ==> nexthop == a) && (i < p4.len() ==> ps[i]
                == p4[i].prefix && ids[i] == p4[i].path_id)
        }),
        ({
            let m = Ipv4Unicast::unreach_update(p4, l4);
            &&& m.attrs is None && m.reach is None && m.mp_reach is None && m.mp_unreach is None
            &&& m.unreach matches Some((ps, ids)) && ps.len() == p4.len() && ids.len() == p4.len() && (i < p4.len()
                ==> ps[i] == p4[i].prefix && ids[i] == p4[i].path_id)
        }),
        ({
            let m = Ipv6Unicast::reach_update(p6, l6, attrs);
            &&& m.attrs == Some(attrs) && m.reach is None && m.unreach is None && m.mp_unreach is None
            &&& m.mp_reach matches Some(MpReachModel::Ipv6Unicast { prefixes, path_ids, nexthop, ll_nexthop })
                && prefixes.len() == p6.len() && path_ids.len() == p6.len() && ll_nexthop == attrs.base.ll_nexthop && (
            attrs.base.nexthop matches Some(IpAddr::V6(a)) ==> nexthop == a) && (i < p6.len() ==> prefixes[i]
                == p6[i].prefix && path_ids[i] == p6[i].path_id)
        }),
        ({
            let m = Ipv6Unicast::unreach_update(p6, l6);
            &&& m.attrs is None && m.reach is None && m.mp_reach is None && m.unreach is None
            &&& m.mp_unreach matches Some(MpUnreachModel::Ipv6Unicast { prefixes, path_ids }) && prefixes.len()
                == p6.len() && path_ids.len() == p6.len() && (i < p6.len() ==> prefixes[i] == p6[i].prefix
                && path_ids[i] == p6[i].path_id)
        }),
        ({
            let m = Vpnv4Unicast::reach_update(v4, lv4, attrs);
            &&& m.attrs == Some(attrs) && m.reach is None && m.unreach is None && m.mp_unreach is None
            &&& m.mp_reach matches Some(MpReachModel::L3vpnIpv4Unicast { prefixes, path_ids, nexthop })
                && prefixes.len() == v4.len() && path_ids.len() == v4.len() && (attrs.base.nexthop matches Some(
                IpAddr::V4(a),
            ) ==> nexthop == a) && (i < v4.len() ==> prefixes[i].rd == v4[i].prefix.rd && prefixes[i].prefix
                == v4[i].prefix.prefix && path_ids[i] == v4[i].path_id && (lv4.contains_key(v4[i])
                ==> prefixes[i].label == lv4[v4[i]].0) && (!lv4.contains_key(v4[i]) ==> prefixes[i].label == 0))
        }),
        ({
            let m = Vpnv4Unicast::unreach_update(v4, lv4);
            &&& m.attrs is None && m.reach is None && m.mp_reach is None && m.unreach is None
            &&& m.mp_unreach matches Some(MpUnreachModel::L3vpnIpv4Unicast { prefixes, path_ids }) && prefixes.len()
                == v4.len() && path_ids.len() == v4.len() && (i < v4.len() ==> prefixes[i].rd == v4[i].prefix.rd
                && prefixes[i].prefix == v4[i].prefix.prefix && path_ids[i] == v4[i].path_id && (lv4.contains_key(
                v4[i],
            ) ==> prefixes[i].label == lv4[v4[i]].0))
        }),
        ({
            let m = Vpnv6Unicast::reach_update(v6, lv6, attrs);
            &&& m.attrs == Some(attrs) && m.reach is None && m.unreach is None && m.mp_unreach is None
            &&& m.mp_reach matches Some(MpReachModel::L3vpnIpv6Unicast { prefixes, path_ids, nexthop })
                && prefixes.len() == v6.len() && path_ids.len() == v6.len() && (attrs.base.nexthop matches Some(
                IpAddr::V6(a),
            ) ==> nexthop == a) && (i < v6.len() ==> prefixes[i].rd == v6[i].prefix.rd && prefixes[i].prefix
                == v6[i].prefix.prefix && path_ids[i] == v6[i].path_id && (lv6.contains_key(v6[i])
                ==> prefixes[i].label == lv6[v6[i]].0) && (!lv6.contains_key(v6[i]) ==> prefixes[i].label == 0))
        }),
        ({
            let m = Vpnv6Unicast::unreach_update(v6, lv6);
            &&& m.attrs is None && m.reach is None && m.mp_reach is None && m.unreach is None
            &&& m.mp_unreach matches Some(MpUnreachModel::L3vpnIpv6Unicast { prefixes, path_ids }) && prefixes.len()
                == v6.len() && path_ids.len() == v6.len() && (i < v6.len() ==> prefixes[i].rd == v6[i].prefix.rd
                && prefixes[i].prefix == v6[i].prefix.prefix && path_ids[i] == v6[i].path_id && (lv6.contains_key(
                v6[i],
            ) ==> prefixes[i].label == lv6[v6[i]].0))
        }),
{
}

/// The next hop with which a route is sent: the own address of the session for
/// routes of this router and towards external peers outside its subnets, otherwise
/// that of the route. Nothing else of the attributes changes but the link-local
/// next hop, which does not hold outside.
pub proof fn next_hops_are_sent(nbr: Neighbor, local: bool, attrs: BaseAttrs)
    requires
        nbr.conn_info is Some,
    ensures
        ({
            let own = local || (nbr.peer_type == PeerType::External && !nbr.shared_subnet);
            let a4 = Ipv4Unicast::tx_attrs(nbr, local, attrs);
            let a6 = Ipv6Unicast::tx_attrs(nbr, local, attrs);
            &&& Vpnv4Unicast::tx_attrs(nbr, local, attrs) == a4
            &&& Vpnv6Unicast::tx_attrs(nbr, local, attrs) == a6
            &&& !own ==> a4 == attrs && a6 == attrs
            &&& BaseAttrs { nexthop: attrs.nexthop, ..a4 } == attrs
            &&& BaseAttrs { nexthop: attrs.nexthop, ll_nexthop: attrs.ll_nexthop, ..a6 } == attrs
            &&& own && nbr.conn_info->0.local_addr is V4 ==> a4.nexthop == Some(nbr.conn_info->0.local_addr)
            &&& own && nbr.conn_info->0.local_addr is V6 ==> a6.nexthop == Some(nbr.conn_info->0.local_addr)
            &&& own && nbr.conn_info->0.local_addr is V4 ==> (a6.nexthop matches Some(IpAddr::V6(mapped))
                && mapped.bits == 0xFFFF_0000_0000 + nbr.conn_info->0.local_addr->V4_0.bits)
            &&& own && !local ==> a6.ll_nexthop is None
            &&& local ==> a6.ll_nexthop == attrs.ll_nexthop
        }),
{
}

/// What tells the address families apart: the unicast families go through export
/// policies and into the global table, the VPN families do neither and carry
/// labels, and all are sent to neighbors.
pub proof fn families_differ(attrs: BaseAttrs, p4: Ipv4Network, p6: Ipv6Network, v4: Vpnv4Prefix, v6: Vpnv6Prefix)
    ensures
        Ipv4Unicast::afi_safi_spec() == AfiSafi::Ipv4Unicast,
        Ipv6Unicast::afi_safi_spec() == AfiSafi::Ipv6Unicast,
        Vpnv4Unicast::afi_safi_spec() == AfiSafi::L3vpnIpv4Unicast,
        Vpnv6Unicast::afi_safi_spec() == AfiSafi::L3vpnIpv6Unicast,
        Ipv4Unicast::install_loc_rib_spec() && Ipv6Unicast::install_loc_rib_spec(),
        !Vpnv4Unicast::install_loc_rib_spec() && !Vpnv6Unicast::install_loc_rib_spec(),
        Ipv4Unicast::disseminate_spec() && Ipv6Unicast::disseminate_spec() && Vpnv4Unicast::disseminate_spec()
            && Vpnv6Unicast::disseminate_spec(),
        Ipv4Unicast::policy_disseminate_spec() && Ipv6Unicast::policy_disseminate_spec(),
        !Vpnv4Unicast::policy_disseminate_spec() && !Vpnv6Unicast::policy_disseminate_spec(),
        !Ipv4Unicast::labeled() && !Ipv6Unicast::labeled() && Vpnv4Unicast::labeled() && Vpnv6Unicast::labeled(),
        Ipv4Unicast::from_ip_network_spec(IpNetwork::V4(p4)) == Some(p4),
        Ipv4Unicast::from_ip_network_spec(IpNetwork::V6(p6)) is None,
        Ipv6Unicast::from_ip_network_spec(IpNetwork::V6(p6)) == Some(p6),
        Ipv6Unicast::from_ip_network_spec(IpNetwork::V4(p4)) is None,
        Ipv4Unicast::to_ip_network_spec(p4) == IpNetwork::V4(p4),
        Ipv6Unicast::to_ip_network_spec(p6) == IpNetwork::V6(p6),
        Vpnv4Unicast::to_ip_network_spec(v4) == IpNetwork::V4(v4.prefix),
        Vpnv6Unicast::to_ip_network_spec(v6) == IpNetwork::V6(v6.prefix),
        attrs.nexthop matches Some(a) ==> Ipv4Unicast::rx_nexthop(attrs) == a && Vpnv4Unicast::rx_nexthop(attrs) == a,
        attrs.ll_nexthop matches Some(a) ==> Ipv6Unicast::rx_nexthop(attrs) == IpAddr::V6(a)
            && Vpnv6Unicast::rx_nexthop(attrs) == IpAddr::V6(a),
        attrs.ll_nexthop is None && attrs.nexthop is Some ==> Ipv6Unicast::rx_nexthop(attrs) == attrs.nexthop->0
            && Vpnv6Unicast::rx_nexthop(attrs) == attrs.nexthop->0,
        path_size(Ipv4Unicast::prefix_size(), true) == 9 && path_size(Ipv4Unicast::prefix_size(), false) == 5,
        path_size(Ipv6Unicast::prefix_size(), true) == 21 && path_size(Ipv6Unicast::prefix_size(), false) == 17,
        Vpnv4Unicast::prefix_size() == 16 && Vpnv6Unicast::prefix_size() == 28,
{
}

/// A message holds as many prefixes as fit into 4096 bytes besides its header of
/// 23 bytes and what is set aside, and not one less.
pub proof fn messages_are_filled(overhead: nat, size: nat)
    requires
        size > 0,
        23 + overhead + size <= 4096,
    ensures
        23 + overhead + room(overhead, size) * size <= 4096,
        23 + overhead + (room(overhead, size) + 1) * size > 4096,
{
    let left = 4096 - 23 - overhead;
    let n = room(overhead, size) as int;
    assert(n == left / size as int) by {
        room_is_there(overhead, size);
    }
    let s = size as int;
    vstd::arithmetic::div_mod::lemma_fundamental_div_mod(left, s);
    assert(n * s == s * (left / s)) by (nonlinear_arith)
        requires
            n == left / s,
    ;
    assert((n + 1) * s == n * s + s) by (nonlinear_arith);
    assert(0 <= left % s < s);
}

/// What is set aside of a message: 7 bytes for the next hop of IPv4 prefixes, and
/// the header of the attribute for others, with the next hops of IPv6 prefixes,
/// 16 bytes each.
pub proof fn room_is_set_aside(attrs: Attrs)
    ensures
        Ipv4Unicast::reach_overhead(attrs) == 7 && Ipv4Unicast::unreach_overhead() == 0,
        attrs.base.ll_nexthop is None ==> Ipv6Unicast::reach_overhead(attrs) == Vpnv6Unicast::reach_overhead(attrs)
            + 16,
        attrs.base.ll_nexthop is Some ==> Ipv6Unicast::reach_overhead(attrs) == Vpnv6Unicast::reach_overhead(attrs)
            + 32,
        Vpnv4Unicast::reach_overhead(attrs) == 9 && Vpnv6Unicast::reach_overhead(attrs) == 9,
        Ipv6Unicast::unreach_overhead() == 7 && Vpnv4Unicast::unreach_overhead() == 7
            && Vpnv6Unicast::unreach_overhead() == 7,
{
}

}
