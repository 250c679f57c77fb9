//! The decision process: selected routes, what neighbors are told of them, and
//! the decisions of the policy engine on the way in and out.
use crate::af::attrs_fit;
use crate::af::build_family_updates;
use crate::af::drained;
use crate::af::queue_fits;
use crate::af::queue_updates;
use crate::af::AddressFamily;
use crate::attribute::Attrs;
use crate::bgp::RouteType;
use crate::events::collect_policies;
use crate::events::found_policies;
use crate::events::nbr_list;
use crate::events::neighbors_wf;
use crate::events::policy_missing;
use crate::events::InState;
use crate::events::PolicyApplyModel;
use crate::events::PolicyApplyMsg;
use crate::ip::IpAddr;
use crate::ip::IpNetwork;
use crate::message::update_models;
use crate::message::UpdateModel;
use crate::message::UpdateMsg;
use crate::neighbor::reach_added;
use crate::neighbor::reach_index_bound;
use crate::neighbor::Neighbor;
use crate::neighbor::NeighborUpdateQueue;
use crate::neighbor::Neighbors;
use crate::neighbor::QueueModel;
use crate::neighbor::State;
use crate::ord::elems_are_set;
use crate::ord::elems_in_order;
use crate::ord::entries_map_get;
use crate::ord::in_order;
use crate::ord::taken_set;
use crate::ord::Ranked;
use crate::ord::SortedSet;
use crate::originate::default_synced;
use crate::originate::sync_default_originate;
use crate::path::assigned;
use crate::path::id_at;
use crate::path::id_get;
use crate::path::Path;
use crate::path::PathIds;
use crate::path::PathIdsModel;
use crate::path::PeerPath;
use crate::path::LOCAL_PATH_ID;
use crate::policy::RoutePolicyInfo;
use crate::policy_types::PolicyResult;
use crate::policy_types::PolicyType;
use crate::rib::adj_at;
use crate::rib::dest_at;
use crate::rib::has_adj;
use crate::rib::list_routes;
use crate::rib::prefix_routes;
use crate::rib::route_path;
use crate::rib::route_paths;
use crate::rib::routes_wf;
use crate::rib::table_prefixes;
use crate::rib::table_routes;
use crate::rib::to_route_paths;
use crate::rib::with_adj;
use crate::rib::with_dest;
use crate::rib::with_queued;
use crate::rib::AdjRib;
use crate::rib::AdjSide;
use crate::rib::DestModel;
use crate::rib::Destination;
use crate::rib::LocalRoute;
use crate::rib::NexthopOp;
use crate::rib::PeerRoute;
use crate::rib::Route;
use crate::rib::RoutingTable;
use crate::rib::TableModel;
use crate::shared::InstanceShared;
use std::sync::Arc;
use vstd::prelude::*;

verus! {

/// The route that a policy made of another.
pub open spec fn policy_route(info: RoutePolicyInfo) -> Route {
    Route::new_spec(info.origin, info.attrs, info.route_type)
}

/// The state after the policy engine has decided on a received route.
pub open spec fn imported<P>(
    s: InState<P>,
    addr: IpAddr,
    path: Path<P>,
    result: PolicyResult<RoutePolicyInfo>,
) -> InState<P> {
    let adj = adj_at(s.table, path, addr);
    let p = path.prefix;
    let untracked = match adj.in_post {
        Some(old) => s.ops.push(NexthopOp::Untrack { prefix: p, route: old }),
        None => s.ops,
    };
    match result {
        PolicyResult::Accept(info) => InState {
            table: with_queued(with_adj(s.table, path, addr, AdjRib { in_post: Some(policy_route(info)), ..adj }), p),
            ops: untracked.push(NexthopOp::Track { prefix: p, route: policy_route(info) }),
        },
        PolicyResult::Reject => InState {
            table: with_queued(with_adj(s.table, path, addr, AdjRib { in_post: None, ..adj }), p),
            ops: untracked,
        },
    }
}

/// The path on which a result was decided: results come with the identifiers
/// of the paths, where these are in use.
pub open spec fn result_path<A: AddressFamily>(
    in_use: bool,
    results: Seq<(IpNetwork, PolicyResult<RoutePolicyInfo>)>,
    ids: Seq<u32>,
    i: int,
) -> Path<A::Prefix> {
    Path { prefix: A::from_ip_network_spec(results[i].0)->0, path_id: id_at(in_use, ids, i) }
}

/// The state after the policy engine has decided on several received routes.
pub open spec fn imported_all<A: AddressFamily>(
    s: InState<A::Prefix>,
    addr: IpAddr,
    in_use: bool,
    results: Seq<(IpNetwork, PolicyResult<RoutePolicyInfo>)>,
    ids: Seq<u32>,
) -> InState<A::Prefix>
    decreases results.len(),
{
    if results.len() == 0 {
        s
    } else {
        imported(
            imported_all::<A>(s, addr, in_use, results.drop_last(), ids),
            addr,
            result_path::<A>(in_use, results, ids, results.len() - 1),
            results.last().1,
        )
    }
}

/// The results belong to prefixes of the address family, and what they accept
/// is well formed.
pub open spec fn results_wf<A: AddressFamily>(results: Seq<(IpNetwork, PolicyResult<RoutePolicyInfo>)>) -> bool {
    forall|i: int|
        0 <= i < results.len() ==> A::from_ip_network_spec((#[trigger] results[i]).0) is Some && (
        results[i].1 matches PolicyResult::Accept(info) ==> info.attrs.wf())
}

/// Takes in the decisions of import policies on the routes of a neighbor. Says
/// whether the decision process is to be scheduled.
pub fn process_nbr_policy_import<A: AddressFamily>(
    neighbors: &Neighbors,
    nbr_addr: IpAddr,
    table: &mut RoutingTable<A::Prefix>,
    results: &Vec<(IpNetwork, PolicyResult<RoutePolicyInfo>)>,
    path_ids: &Vec<u32>,
    ops: &mut Vec<NexthopOp<A::Prefix>>,
) -> (r: bool)
    requires
        neighbors_wf(*neighbors),
        old(table).wf(),
        results_wf::<A>(results@),
    ensures
        final(table).wf(),
        final(table).nht == old(table).nht,
        r == (neighbors@.contains_key(nbr_addr) && neighbors@[nbr_addr].state == State::Established),
        (InState { table: final(table)@, ops: final(ops)@ }) == if r {
            imported_all::<A>(
                InState { table: old(table)@, ops: old(ops)@ },
                nbr_addr,
                neighbors@[nbr_addr].receives_paths(A::afi_safi_spec()),
                results@,
                path_ids@,
            )
        } else {
            InState { table: old(table)@, ops: old(ops)@ }
        },
{
    // Lookup neighbor.
    let nbr = match neighbors.get(&nbr_addr) {
        Some(nbr) => nbr,
        None => {
            return false;
        },
    };
    if nbr.state != State::Established {
        return false;
    }
    let in_use = nbr.is_add_path_rx(A::afi_safi());
    let ghost s0 = InState { table: table@, ops: ops@ };
    let mut i: usize = 0;
    assert(results@.take(0) =~= Seq::<(IpNetwork, PolicyResult<RoutePolicyInfo>)>::empty());
    while i < results.len()
        invariant
            table.wf(),
            table.nht == old(table).nht,
            results_wf::<A>(results@),
            nbr.remote_addr == nbr_addr,
            i <= results@.len(),
            (InState { table: table@, ops: ops@ }) == imported_all::<A>(
                s0,
                nbr_addr,
                in_use,
                results@.take(i as int),
                path_ids@,
            ),
        decreases results@.len() - i,
    {
        proof {
            assert(results@.take(i + 1).drop_last() =~= results@.take(i as int));
            assert(results@.take(i + 1).last() == results@[i as int]);
        }
        let prefix = A::prefix_from_ip_network(results[i].0).unwrap();
        let path = Path { prefix, path_id: id_get(in_use, path_ids, i) };
        let adj_rib = table.adj_mut(path, nbr.remote_addr);
        if let Some(old_route) = &adj_rib.in_post {
            ops.push(NexthopOp::Untrack { prefix, route: old_route.duplicate() });
        }
        match &results[i].1 {
            PolicyResult::Accept(info) => {
                let route = Route::new(info.origin, info.attrs.duplicate(), info.route_type);
                ops.push(NexthopOp::Track { prefix, route: route.duplicate() });
                adj_rib.in_post = Some(route);
            },
            PolicyResult::Reject => {
                adj_rib.in_post = None;
            },
        }
        // Enqueue the prefix for the decision process.
        table.queue(prefix);
        i += 1;
    }
    assert(results@.take(i as int) =~= results@);
    true
}

/// A table and the transmit queue of a neighbor.
#[verifier::reject_recursive_types(P)]
pub struct OutState<P> {
    pub table: TableModel<P>,
    pub queue: QueueModel<P>,
}

/// Whether an accepted route differs from what was advertised.
pub open spec fn advertisement_changes(adj: AdjRib, attrs: Attrs) -> bool {
    adj.out_post matches Some(route) ==> route.attrs@ != attrs@
}

/// The state after the policy engine has decided on a route to be advertised
/// on a path, which is sent with the given attributes.
pub open spec fn exported<P>(
    s: OutState<P>,
    addr: IpAddr,
    path: Path<P>,
    result: PolicyResult<RoutePolicyInfo>,
    tx_attrs: Attrs,
) -> OutState<P> {
    let adj = adj_at(s.table, path, addr);
    match result {
        PolicyResult::Accept(info) => if advertisement_changes(adj, info.attrs) {
            OutState {
                table: with_adj(s.table, path, addr, AdjRib { out_post: Some(policy_route(info)), ..adj }),
                queue: QueueModel { reach: reach_added(s.queue.reach, tx_attrs, path), ..s.queue },
            }
        } else {
            OutState { table: with_adj(s.table, path, addr, adj), ..s }
        },
        PolicyResult::Reject => OutState {
            table: with_adj(s.table, path, addr, AdjRib { out_post: None, ..adj }),
            queue: if adj.out_post is Some {
                QueueModel { unreach: s.queue.unreach.insert(path), ..s.queue }
            } else {
                s.queue
            },
        },
    }
}

/// The state after the policy engine has decided on several routes to be
/// advertised.
pub open spec fn exported_all<A: AddressFamily>(
    s: OutState<A::Prefix>,
    addr: IpAddr,
    in_use: bool,
    results: Seq<(IpNetwork, PolicyResult<RoutePolicyInfo>)>,
    ids: Seq<u32>,
    tx_attrs: Seq<Attrs>,
) -> OutState<A::Prefix>
    decreases results.len(),
{
    if results.len() == 0 {
        s
    } else {
        exported(
            exported_all::<A>(s, addr, in_use, results.drop_last(), ids, tx_attrs),
            addr,
            result_path::<A>(in_use, results, ids, results.len() - 1),
            results.last().1,
            tx_attrs[results.len() - 1],
        )
    }
}

/// A queue that fits still fits when attributes that fit are added.
proof fn reach_added_fits<A: AddressFamily>(q: QueueModel<A::Prefix>, attrs: Attrs, p: Path<A::Prefix>)
    requires
        queue_fits::<A>(q),
        attrs_fit::<A>(attrs, q.add_path),
    ensures
        queue_fits::<A>(QueueModel { reach: reach_added(q.reach, attrs, p), ..q }),
{
    let r = reach_added(q.reach, attrs, p);
    reach_index_bound(q.reach, attrs);
    assert forall|i: int| 0 <= i < r.len() implies attrs_fit::<A>((#[trigger] r[i]).0, q.add_path) by {
        if i < q.reach.len() {
            assert(attrs_fit::<A>(q.reach[i].0, q.add_path));
        }
    }
}

/// Whether a queue fits depends on what is to be advertised alone.
proof fn fits_by_reach<A: AddressFamily>(q: QueueModel<A::Prefix>, u: QueueModel<A::Prefix>)
    requires
        queue_fits::<A>(q),
        u.reach == q.reach,
        u.add_path == q.add_path,
    ensures
        queue_fits::<A>(u),
{
    assert forall|i: int| 0 <= i < u.reach.len() implies attrs_fit::<A>((#[trigger] u.reach[i]).0, u.add_path) by {
        assert(attrs_fit::<A>(q.reach[i].0, q.add_path));
    }
}

/// Takes in the decisions of export policies on routes for a neighbor, and
/// returns the messages to be sent. `path_ids` holds the identifiers of the
/// paths: they count only where they are sent to the neighbor, whose routes
/// have the identifier 0 otherwise. `tx_attrs` holds, for each decision, the
/// attributes with which an accepted route is sent.
pub fn process_nbr_policy_export<A: AddressFamily>(
    neighbors: &Neighbors,
    nbr_addr: IpAddr,
    table: &mut RoutingTable<A::Prefix>,
    queue: &mut NeighborUpdateQueue<A::Prefix>,
    results: &Vec<(IpNetwork, PolicyResult<RoutePolicyInfo>)>,
    path_ids: &Vec<u32>,
    tx_attrs: &Vec<Attrs>,
) -> (r: Vec<UpdateMsg>)
    requires
        neighbors_wf(*neighbors),
        old(table).wf(),
        old(queue).wf(),
        queue_fits::<A>(old(queue)@),
        neighbors@.contains_key(nbr_addr) ==> old(queue)@.add_path == neighbors@[nbr_addr].sends_paths(
            A::afi_safi_spec(),
        ),
        results_wf::<A>(results@),
        tx_attrs@.len() == results@.len(),
        forall|i: int|
            0 <= i < tx_attrs@.len() && results@[i].1 is Accept ==> (#[trigger] tx_attrs@[i]).wf() && attrs_fit::<A>(
                tx_attrs@[i],
                old(queue)@.add_path,
            ),
    ensures
        final(table).wf(),
        final(table).nht == old(table).nht,
        final(queue).wf(),
        if neighbors@.contains_key(nbr_addr) && neighbors@[nbr_addr].state == State::Established {
            let s = exported_all::<A>(
                OutState { table: old(table)@, queue: old(queue)@ },
                nbr_addr,
                neighbors@[nbr_addr].sends_paths(A::afi_safi_spec()),
                results@,
                path_ids@,
                tx_attrs@,
            );
            final(table)@ == s.table && update_models(r@) == queue_updates::<A>(s.queue) && final(queue)@ == drained::<A>(
                s.queue,
            )
        } else {
            *final(table) == *old(table) && *final(queue) == *old(queue) && r@.len() == 0
        },
{
    // Lookup neighbor.
    let nbr = match neighbors.get(&nbr_addr) {
        Some(nbr) => nbr,
        None => {
            return Vec::new();
        },
    };
    if nbr.state != State::Established {
        return Vec::new();
    }
    let in_use = nbr.is_add_path_tx(A::afi_safi());
    let ghost s0 = OutState { table: table@, queue: queue@ };
    let mut i: usize = 0;
    assert(results@.take(0) =~= Seq::<(IpNetwork, PolicyResult<RoutePolicyInfo>)>::empty());
    while i < results.len()
        invariant
            table.wf(),
            table.nht == old(table).nht,
            queue.wf(),
            queue_fits::<A>(queue@),
            results_wf::<A>(results@),
            tx_attrs@.len() == results@.len(),
            forall|i: int|
                0 <= i < tx_attrs@.len() && results@[i].1 is Accept ==> (#[trigger] tx_attrs@[i]).wf()
                    && attrs_fit::<A>(tx_attrs@[i], queue@.add_path),
            nbr.remote_addr == nbr_addr,
            i <= results@.len(),
            (OutState { table: table@, queue: queue@ }) == exported_all::<A>(
                s0,
                nbr_addr,
                in_use,
                results@.take(i as int),
                path_ids@,
                tx_attrs@,
            ),
        decreases results@.len() - i,
    {
        proof {
            assert(results@.take(i + 1).drop_last() =~= results@.take(i as int));
            assert(results@.take(i + 1).last() == results@[i as int]);
        }
        let prefix = A::prefix_from_ip_network(results[i].0).unwrap();
        let path = Path { prefix, path_id: id_get(in_use, path_ids, i) };
        let adj_rib = table.adj_mut(path, nbr.remote_addr);
        match &results[i].1 {
            PolicyResult::Accept(info) => {
                // Check if the Adj-RIB-Out was updated.
                let update = match &adj_rib.out_post {
                    Some(route) => !route.attrs.same(&info.attrs),
                    None => true,
                };
                if update {
                    adj_rib.out_post = Some(Route::new(info.origin, info.attrs.duplicate(), info.route_type));
                    proof {
                        reach_added_fits::<A>(queue@, tx_attrs@[i as int], path);
                    }
                    // Update the neighbor's transmit queue.
                    queue.reach_add(tx_attrs[i].duplicate(), path);
                }
            },
            PolicyResult::Reject => {
                let route = adj_rib.out_post.take();
                if route.is_some() {
                    // Update the neighbor's transmit queue.
                    let ghost q = queue@;
                    proof {
                        path.view_is_value();
                    }
                    queue.unreach.insert(path);
                    proof {
                        fits_by_reach::<A>(q, queue@);
                    }
                }
            },
        }
        i += 1;
    }
    assert(results@.take(i as int) =~= results@);
    build_family_updates::<A>(queue)
}

/// The table after the policy engine has decided on a redistributed route.
pub open spec fn redistributed<P>(
    t: TableModel<P>,
    p: P,
    result: PolicyResult<RoutePolicyInfo>,
) -> TableModel<P> {
    match result {
        PolicyResult::Accept(info) => with_queued(
            with_dest(
                t,
                p,
                DestModel {
                    redistribute: Some(Route::new_spec(info.origin, info.attrs, RouteType::Internal)),
                    ..dest_at(t, p)
                },
            ),
            p,
        ),
        PolicyResult::Reject => with_queued(
            if t.prefixes.contains_key(p) {
                with_dest(t, p, DestModel { redistribute: None, ..t.prefixes[p] })
            } else {
                t
            },
            p,
        ),
    }
}

/// Takes in the decision of import policies on a redistributed route. The
/// decision process is to be scheduled afterwards.
pub fn process_redistribute_policy_import<A: AddressFamily>(
    table: &mut RoutingTable<A::Prefix>,
    prefix: IpNetwork,
    result: PolicyResult<RoutePolicyInfo>,
)
    requires
        old(table).wf(),
        A::from_ip_network_spec(prefix) is Some,
        result matches PolicyResult::Accept(info) ==> info.attrs.wf(),
    ensures
        final(table).wf(),
        final(table).nht == old(table).nht,
        final(table)@ == redistributed(old(table)@, A::from_ip_network_spec(prefix)->0, result),
{
    let prefix = A::prefix_from_ip_network(prefix).unwrap();
    match result {
        PolicyResult::Accept(info) => {
            let dest = table.dest_mut(prefix);
            dest.redistribute = Some(Route::new(info.origin, info.attrs, RouteType::Internal));
        },
        PolicyResult::Reject => {
            if let Some(dest) = table.dest_get_mut(prefix) {
                dest.redistribute = None;
            }
        },
    }
    // Enqueue the prefix for the decision process.
    table.queue(prefix);
}

/// The state after a route is no longer advertised to a neighbor.
pub open spec fn unadvertised<P>(s: OutState<P>, addr: IpAddr, p: Path<P>) -> OutState<P> {
    if has_adj(s.table, p, addr) {
        let adj = adj_at(s.table, p, addr);
        OutState {
            table: with_adj(s.table, p, addr, AdjRib { out_pre: None, out_post: None, ..adj }),
            queue: match adj.out_post {
                Some(route) => QueueModel {
                    unreach: s.queue.unreach.insert(p),
                    labels: match route.vpn_label {
                        Some(label) => s.queue.labels.insert(p, label),
                        None => s.queue.labels,
                    },
                    ..s.queue
                },
                None => s.queue,
            },
        }
    } else {
        s
    }
}

/// The state after several routes are no longer advertised to a neighbor.
pub open spec fn unadvertised_all<P>(s: OutState<P>, addr: IpAddr, ps: Seq<Path<P>>) -> OutState<P>
    decreases ps.len(),
{
    if ps.len() == 0 {
        s
    } else {
        unadvertised(unadvertised_all(s, addr, ps.drop_last()), addr, ps.last())
    }
}

/// Withdraws routes from a neighbor, and returns the messages to be sent.
pub fn withdraw_routes<A: AddressFamily>(
    nbr: &Neighbor,
    table: &mut RoutingTable<A::Prefix>,
    queue: &mut NeighborUpdateQueue<A::Prefix>,
    routes: &Vec<Path<A::Prefix>>,
) -> (r: Vec<UpdateMsg>)
    requires
        old(table).wf(),
        old(queue).wf(),
        queue_fits::<A>(old(queue)@),
        forall|i: int| 0 <= i < routes@.len() ==> old(table)@.prefixes.contains_key((#[trigger] routes@[i]).prefix),
    ensures
        final(table).wf(),
        final(table).nht == old(table).nht,
        final(queue).wf(),
        ({
            let s = unadvertised_all(
                OutState { table: old(table)@, queue: old(queue)@ },
                nbr.remote_addr,
                routes@,
            );
            final(table)@ == s.table && update_models(r@) == queue_updates::<A>(s.queue) && final(queue)@ == drained::<A>(
                s.queue,
            )
        }),
        final(queue)@.add_path == old(queue)@.add_path,
        final(table)@.prefixes.dom() == old(table)@.prefixes.dom(),
        final(table)@.queued == old(table)@.queued,
{
    let ghost s0 = OutState { table: table@, queue: queue@ };
    let mut i: usize = 0;
    assert(routes@.take(0) =~= Seq::<Path<A::Prefix>>::empty());
    while i < routes.len()
        invariant
            table.wf(),
            table.nht == old(table).nht,
            queue.wf(),
            queue_fits::<A>(queue@),
            queue@.add_path == old(queue)@.add_path,
            i <= routes@.len(),
            (OutState { table: table@, queue: queue@ }) == unadvertised_all(
                s0,
                nbr.remote_addr,
                routes@.take(i as int),
            ),
            table@.prefixes.dom() == old(table)@.prefixes.dom(),
            table@.queued == old(table)@.queued,
            forall|i: int| 0 <= i < routes@.len() ==> old(table)@.prefixes.contains_key((#[trigger] routes@[i]).prefix),
        decreases routes@.len() - i,
    {
        let prefix = routes[i];
        proof {
            prefix.view_is_value();
            assert(routes@.take(i + 1).drop_last() =~= routes@.take(i as int));
            assert(routes@.take(i + 1).last() == prefix);
            assert(old(table)@.prefixes.dom().contains(prefix.prefix));
        }
        if table.adj_get(prefix, nbr.remote_addr).is_some() {
            let adj_rib = table.adj_mut(prefix, nbr.remote_addr);
            adj_rib.out_pre = None;
            if let Some(route) = adj_rib.out_post.take() {
                let ghost q = queue@;
                if let Some(label) = route.vpn_label {
                    queue.labels.insert(prefix, label);
                }
                queue.unreach.insert(prefix);
                proof {
                    fits_by_reach::<A>(q, queue@);
                }
            }
            assert(table@.prefixes.dom() =~= old(table)@.prefixes.dom());
        }
        i += 1;
    }
    assert(routes@.take(i as int) =~= routes@);
    // Build UPDATE messages for the neighbor.
    build_family_updates::<A>(queue)
}

/// The table after routes are kept as chosen for a neighbor.
pub open spec fn chosen_all<P>(t: TableModel<P>, addr: IpAddr, routes: Seq<(Path<P>, Route)>) -> TableModel<P>
    decreases routes.len(),
{
    if routes.len() == 0 {
        t
    } else {
        let u = chosen_all(t, addr, routes.drop_last());
        let (p, route) = routes.last();
        with_adj(u, p, addr, AdjRib { out_pre: Some(route), ..adj_at(u, p, addr) })
    }
}

/// The state after routes are advertised without policies.
pub open spec fn advertised_all<P>(
    s: OutState<P>,
    addr: IpAddr,
    routes: Seq<(Path<P>, Route)>,
    tx_attrs: Seq<Attrs>,
) -> OutState<P>
    decreases routes.len(),
{
    if routes.len() == 0 {
        s
    } else {
        let u = advertised_all(s, addr, routes.drop_last(), tx_attrs);
        let (p, route) = routes.last();
        OutState {
            table: with_adj(u.table, p, addr, AdjRib { out_post: Some(route), ..adj_at(u.table, p, addr) }),
            queue: QueueModel {
                reach: reach_added(u.queue.reach, tx_attrs[routes.len() - 1], p),
                labels: match route.vpn_label {
                    Some(label) => u.queue.labels.insert(p, label),
                    None => u.queue.labels,
                },
                ..u.queue
            },
        }
    }
}

/// The routes for which export policies are asked.
pub open spec fn export_routes<A: AddressFamily>(routes: Seq<(Path<A::Prefix>, Route)>) -> Seq<
    (IpNetwork, RoutePolicyInfo),
> {
    Seq::new(routes.len(), |i: int| (A::to_ip_network_spec(routes[i].0.prefix), routes[i].1.policy_info_spec()))
}

/// The identifiers of the paths on which routes are to be advertised.
pub open spec fn export_ids<P>(routes: Seq<(Path<P>, Route)>) -> Seq<u32> {
    Seq::new(routes.len(), |i: int| routes[i].0.path_id)
}

/// The request for export policies on routes for a neighbor.
pub open spec fn export_request<A: AddressFamily>(
    nbr: Neighbor,
    routes: Seq<(Path<A::Prefix>, Route)>,
    shared: InstanceShared,
) -> PolicyApplyModel {
    let cfg = nbr.apply_policy_spec(A::afi_safi_spec());
    PolicyApplyModel::Neighbor {
        policy_type: PolicyType::Export,
        nbr_addr: nbr.remote_addr,
        afi_safi: A::afi_safi_spec(),
        routes: export_routes::<A>(routes),
        path_ids: export_ids(routes),
        missing_policy: policy_missing(cfg.export_policy@, shared.policies@),
        policies: found_policies(cfg.export_policy.elems(), shared.policies@),
        match_sets: shared.policy_match_sets,
        default_policy: cfg.default_export_policy,
    }
}

/// What a neighbor is to be told, now and after policies are applied.
pub struct NbrOutput {
    pub msgs: Vec<UpdateMsg>,
    pub policy: Option<PolicyApplyMsg>,
}

/// `NbrOutput` as a mathematical value.
pub struct OutputModel {
    pub msgs: Seq<UpdateModel>,
    pub policy: Option<PolicyApplyModel>,
}

impl View for NbrOutput {
    type V = OutputModel;

    open spec fn view(&self) -> OutputModel {
        OutputModel {
            msgs: update_models(self.msgs@),
            policy: match self.policy {
                Some(m) => Some(m@),
                None => None,
            },
        }
    }
}

/// The state after routes are advertised to a neighbor, and what it is to be
/// told: without policies the messages themselves, otherwise what export
/// policies make of the routes.
pub open spec fn advertise_effect<A: AddressFamily>(
    s: OutState<A::Prefix>,
    nbr: Neighbor,
    routes: Seq<(Path<A::Prefix>, Route)>,
    tx_attrs: Seq<Attrs>,
    shared: InstanceShared,
) -> (OutState<A::Prefix>, OutputModel) {
    let chosen = OutState { table: chosen_all(s.table, nbr.remote_addr, routes), ..s };
    if !A::policy_disseminate_spec() {
        let u = advertised_all(chosen, nbr.remote_addr, routes, tx_attrs);
        (
            OutState { table: u.table, queue: drained::<A>(u.queue) },
            OutputModel { msgs: queue_updates::<A>(u.queue), policy: None },
        )
    } else {
        (
            chosen,
            OutputModel {
                msgs: Seq::empty(),
                policy: if routes.len() > 0 {
                    Some(export_request::<A>(nbr, routes, shared))
                } else {
                    None
                },
            },
        )
    }
}

/// The routes and attributes that are handed on are well formed, and the
/// attributes can be sent.
pub open spec fn tx_wf<A: AddressFamily>(
    routes: Seq<(Path<A::Prefix>, Route)>,
    tx_attrs: Seq<Attrs>,
    add_path: bool,
) -> bool {
    &&& forall|i: int| 0 <= i < routes.len() ==> (#[trigger] routes[i]).1.wf()
    &&& !A::policy_disseminate_spec() ==> tx_attrs.len() == routes.len()
    &&& !A::policy_disseminate_spec() ==> forall|i: int|
        0 <= i < tx_attrs.len() ==> (#[trigger] tx_attrs[i]).wf() && attrs_fit::<A>(tx_attrs[i], add_path)
}

fn choose_routes<P: Ranked>(addr: IpAddr, table: &mut RoutingTable<P>, routes: &Vec<(Path<P>, Route)>)
    requires
        old(table).wf(),
        forall|i: int| 0 <= i < routes@.len() ==> (#[trigger] routes@[i]).1.wf(),
        forall|i: int| 0 <= i < routes@.len() ==> old(table)@.prefixes.contains_key((#[trigger] routes@[i]).0.prefix),
    ensures
        final(table).wf(),
        final(table).nht == old(table).nht,
        final(table)@ == chosen_all(old(table)@, addr, routes@),
        final(table)@.prefixes.dom() == old(table)@.prefixes.dom(),
        final(table)@.queued == old(table)@.queued,
{
    let mut i: usize = 0;
    assert(routes@.take(0) =~= Seq::<(Path<P>, Route)>::empty());
    while i < routes.len()
        invariant
            table.wf(),
            table.nht == old(table).nht,
            i <= routes@.len(),
            forall|i: int| 0 <= i < routes@.len() ==> (#[trigger] routes@[i]).1.wf(),
            forall|i: int| 0 <= i < routes@.len() ==> old(table)@.prefixes.contains_key((#[trigger] routes@[i]).0.prefix),
            table@ == chosen_all(old(table)@, addr, routes@.take(i as int)),
            table@.prefixes.dom() == old(table)@.prefixes.dom(),
            table@.queued == old(table)@.queued,
        decreases routes@.len() - i,
    {
        proof {
            assert(routes@.take(i + 1).drop_last() =~= routes@.take(i as int));
            assert(routes@.take(i + 1).last() == routes@[i as int]);
            assert(old(table)@.prefixes.dom().contains(routes@[i as int].0.prefix));
        }
        let adj_rib = table.adj_mut(routes[i].0, addr);
        adj_rib.out_pre = Some(routes[i].1.duplicate());
        assert(table@.prefixes.dom() =~= old(table)@.prefixes.dom());
        i += 1;
    }
    assert(routes@.take(i as int) =~= routes@);
}

/// Advertises routes to a neighbor. `tx_attrs` holds, where routes pass no
/// export policies, the attributes with which each route is sent.
pub fn advertise_routes<A: AddressFamily>(
    nbr: &Neighbor,
    table: &mut RoutingTable<A::Prefix>,
    queue: &mut NeighborUpdateQueue<A::Prefix>,
    routes: &Vec<(Path<A::Prefix>, Route)>,
    tx_attrs: &Vec<Attrs>,
    shared: &InstanceShared,
) -> (r: NbrOutput)
    requires
        nbr.wf(),
        shared.wf(),
        old(table).wf(),
        old(queue).wf(),
        queue_fits::<A>(old(queue)@),
        tx_wf::<A>(routes@, tx_attrs@, old(queue)@.add_path),
        forall|i: int| 0 <= i < routes@.len() ==> old(table)@.prefixes.contains_key((#[trigger] routes@[i]).0.prefix),
    ensures
        final(table).wf(),
        final(table).nht == old(table).nht,
        final(queue).wf(),
        queue_fits::<A>(final(queue)@),
        final(queue)@.add_path == old(queue)@.add_path,
        (OutState { table: final(table)@, queue: final(queue)@ }, r@) == advertise_effect::<A>(
            OutState { table: old(table)@, queue: old(queue)@ },
            *nbr,
            routes@,
            tx_attrs@,
            *shared,
        ),
        final(table)@.prefixes.dom() == old(table)@.prefixes.dom(),
        final(table)@.queued == old(table)@.queued,
{
    // Update pre-policy Adj-RIB-Out routes.
    choose_routes(nbr.remote_addr, table, routes);
    if !A::policy_disseminate() {
        let ghost s0 = OutState { table: table@, queue: queue@ };
        let mut i: usize = 0;
        assert(routes@.take(0) =~= Seq::<(Path<A::Prefix>, Route)>::empty());
        while i < routes.len()
            invariant
                table.wf(),
                table.nht == old(table).nht,
                queue.wf(),
                queue_fits::<A>(queue@),
                tx_wf::<A>(routes@, tx_attrs@, queue@.add_path),
                queue@.add_path == old(queue)@.add_path,
                !A::policy_disseminate_spec(),
                i <= routes@.len(),
                forall|i: int| 0 <= i < routes@.len() ==> old(table)@.prefixes.contains_key((#[trigger] routes@[i]).0.prefix),
                (OutState { table: table@, queue: queue@ }) == advertised_all(
                    s0,
                    nbr.remote_addr,
                    routes@.take(i as int),
                    tx_attrs@,
                ),
                table@.prefixes.dom() == old(table)@.prefixes.dom(),
                table@.queued == old(table)@.queued,
            decreases routes@.len() - i,
        {
            let prefix = routes[i].0;
            proof {
                prefix.view_is_value();
                assert(routes@.take(i + 1).drop_last() =~= routes@.take(i as int));
                assert(routes@.take(i + 1).last() == routes@[i as int]);
                assert(old(table)@.prefixes.dom().contains(routes@[i as int].0.prefix));
                assert(tx_attrs@[i as int].wf() && attrs_fit::<A>(tx_attrs@[i as int], queue@.add_path));
            }
            let ghost q = queue@;
            let adj_rib = table.adj_mut(prefix, nbr.remote_addr);
            adj_rib.out_post = Some(routes[i].1.duplicate());
            if let Some(label) = routes[i].1.vpn_label {
                queue.labels.insert(prefix, label);
            }
            proof {
                fits_by_reach::<A>(q, queue@);
                reach_added_fits::<A>(queue@, tx_attrs@[i as int], prefix);
            }
            queue.reach_add(tx_attrs[i].duplicate(), prefix);
            assert(table@.prefixes.dom() =~= old(table)@.prefixes.dom());
            i += 1;
        }
        assert(routes@.take(i as int) =~= routes@);
        let msgs = build_family_updates::<A>(queue);
        return NbrOutput { msgs, policy: None };
    }
    // Enqueue export policy application.
    let no_msgs: Vec<UpdateMsg> = Vec::new();
    assert(update_models(no_msgs@) =~= Seq::<UpdateModel>::empty());
    if routes.len() == 0 {
        return NbrOutput { msgs: no_msgs, policy: None };
    }
    let cfg = nbr.apply_policy(A::afi_safi());
    let (missing_policy, policies) = collect_policies(&cfg.export_policy, shared);
    let mut infos: Vec<(IpNetwork, RoutePolicyInfo)> = Vec::new();
    let mut path_ids: Vec<u32> = Vec::new();
    let ghost all = export_routes::<A>(routes@);
    let ghost ids = export_ids(routes@);
    let mut j: usize = 0;
    while j < routes.len()
        invariant
            all == export_routes::<A>(routes@),
            ids == export_ids(routes@),
            path_ids@ == ids.take(j as int),
            j <= routes@.len(),
            infos@ == all.take(j as int),
        decreases routes@.len() - j,
    {
        path_ids.push(routes[j].0.path_id);
        infos.push((A::prefix_to_ip_network(routes[j].0.prefix), routes[j].1.policy_info()));
        assert(all.take(j + 1) =~= all.take(j as int).push(all[j as int]));
        assert(ids.take(j + 1) =~= ids.take(j as int).push(ids[j as int]));
        j += 1;
    }
    assert(all.take(j as int) =~= all);
    assert(ids.take(j as int) =~= ids);
    let msg = PolicyApplyMsg::Neighbor {
        policy_type: PolicyType::Export,
        nbr_addr: nbr.remote_addr,
        afi_safi: A::afi_safi(),
        routes: infos,
        path_ids,
        missing_policy,
        policies,
        match_sets: shared.policy_match_sets.clone(),
        default_policy: cfg.default_export_policy,
    };
    NbrOutput { msgs: no_msgs, policy: Some(msg) }
}

/// What was selected for a destination: the best route, if any, and the route
/// that goes into the Loc-RIB.
pub struct Selection {
    pub best: Option<Route>,
    pub local: Option<Arc<LocalRoute>>,
}

/// What is to be done with a selected route for a neighbor: whether it may be
/// distributed, and the attributes with which it is sent then.
pub struct Answer {
    pub eligible: bool,
    pub attrs: Attrs,
}

/// Those prefixes for which the table has a destination.
pub open spec fn with_destination<P>(t: TableModel<P>, ps: Seq<P>) -> Seq<P>
    decreases ps.len(),
{
    if ps.len() == 0 {
        Seq::empty()
    } else {
        let rest = with_destination(t, ps.drop_last());
        if t.prefixes.contains_key(ps.last()) {
            rest.push(ps.last())
        } else {
            rest
        }
    }
}

/// The queued prefixes for which a route is to be selected, in order.
pub open spec fn candidates<P: Ranked>(t: TableModel<P>) -> Seq<P> {
    with_destination(t, in_order::<P>(t.queued))
}

proof fn candidates_known<P>(t: TableModel<P>, ps: Seq<P>)
    ensures
        forall|i: int|
            0 <= i < with_destination(t, ps).len() ==> t.prefixes.contains_key(#[trigger] with_destination(t, ps)[i]),
    decreases ps.len(),
{
    if ps.len() > 0 {
        candidates_known(t, ps.drop_last());
        let all = with_destination(t, ps);
        let rest = with_destination(t, ps.drop_last());
        assert forall|i: int| 0 <= i < all.len() implies t.prefixes.contains_key(#[trigger] all[i]) by {
            if i < rest.len() {
                assert(all[i] == rest[i]);
            }
        }
    }
}

/// The prefixes for which a route is to be selected.
pub fn decision_candidates<P: Ranked>(table: &RoutingTable<P>) -> (r: Vec<P>)
    requires
        table.wf(),
    ensures
        r@ == candidates(table@),
{
    let mut r: Vec<P> = Vec::new();
    let ghost q = table.queued_prefixes.elems();
    let mut i: usize = 0;
    proof {
        elems_in_order(table.queued_prefixes);
        assert(q.take(0) =~= Seq::<P>::empty());
    }
    while i < table.queued_prefixes.len()
        invariant
            table.wf(),
            q == table.queued_prefixes.elems(),
            i <= q.len(),
            r@ == with_destination(table@, q.take(i as int)),
        decreases q.len() - i,
    {
        let prefix = *table.queued_prefixes.nth(i);
        proof {
            prefix.view_is_value();
            assert(q.take(i + 1).drop_last() =~= q.take(i as int));
            assert(q.take(i + 1).last() == prefix);
        }
        if table.prefixes.contains_key(&prefix) {
            r.push(prefix);
        }
        i += 1;
    }
    assert(q.take(i as int) =~= q);
    r
}

/// The identifiers after the paths of routes are given identifiers.
pub open spec fn assigned_all<P>(m: PathIdsModel, routes: Seq<PeerRoute<P>>) -> PathIdsModel
    decreases routes.len(),
{
    if routes.len() == 0 {
        m
    } else {
        assigned(assigned_all(m, routes.drop_last()), routes.last().peer)
    }
}

/// Starts the decision process of an address family: brings the default route
/// that is originated up to date, gives identifiers to the accepted paths, and
/// returns the prefixes for which a route is to be selected.
pub fn decision_start<A: AddressFamily>(
    table: &mut RoutingTable<A::Prefix>,
    neighbors: &Neighbors,
    ids: &mut PathIds,
) -> (r: Vec<A::Prefix>)
    requires
        old(table).wf(),
        old(ids).wf(),
        neighbors_wf(*neighbors),
    ensures
        final(table).wf(),
        final(table).nht == old(table).nht,
        default_synced::<A>(old(table)@, final(table)@, *neighbors),
        r@ == candidates(final(table)@),
        final(ids).wf(),
        final(ids)@ == assigned_all(
            old(ids)@,
            table_routes(final(table)@, candidates(final(table)@), AdjSide::InPost, None),
        ),
{
    sync_default_originate::<A>(table, neighbors);
    let prefixes = decision_candidates(table);
    let routes = list_routes(table, &prefixes, AdjSide::InPost, None);
    let mut i: usize = 0;
    assert(routes@.take(0) =~= Seq::<PeerRoute<A::Prefix>>::empty());
    while i < routes.len()
        invariant
            ids.wf(),
            i <= routes@.len(),
            ids@ == assigned_all(old(ids)@, routes@.take(i as int)),
        decreases routes@.len() - i,
    {
        proof {
            assert(routes@.take(i + 1).drop_last() =~= routes@.take(i as int));
            assert(routes@.take(i + 1).last() == routes@[i as int]);
        }
        ids.assign(routes[i].peer);
        i += 1;
    }
    assert(routes@.take(i as int) =~= routes@);
    prefixes
}

/// The table after the selected routes are put into the Loc-RIB.
pub open spec fn selected_table<P>(t: TableModel<P>, ps: Seq<P>, selections: Seq<Selection>) -> TableModel<P>
    decreases ps.len(),
{
    if ps.len() == 0 {
        t
    } else {
        let u = selected_table(t, ps.drop_last(), selections);
        with_dest(u, ps.last(), DestModel { local: selections[ps.len() - 1].local, ..dest_at(u, ps.last()) })
    }
}

/// The path to a prefix where paths are not told apart.
pub open spec fn only_path<P>(p: P) -> Path<P> {
    Path { prefix: p, path_id: 0 }
}

/// The prefixes with a best route, and these routes.
pub open spec fn best_routes<P>(ps: Seq<P>, selections: Seq<Selection>) -> Seq<(Path<P>, Route)>
    decreases ps.len(),
{
    if ps.len() == 0 {
        Seq::empty()
    } else {
        let rest = best_routes(ps.drop_last(), selections);
        match selections[ps.len() - 1].best {
            Some(route) => rest.push((only_path(ps.last()), route)),
            None => rest,
        }
    }
}

/// The prefixes without a best route.
pub open spec fn lost_prefixes<P>(ps: Seq<P>, selections: Seq<Selection>) -> Seq<Path<P>>
    decreases ps.len(),
{
    if ps.len() == 0 {
        Seq::empty()
    } else {
        let rest = lost_prefixes(ps.drop_last(), selections);
        match selections[ps.len() - 1].best {
            Some(_) => rest,
            None => rest.push(only_path(ps.last())),
        }
    }
}

pub open spec fn selections_wf(selections: Seq<Selection>) -> bool {
    forall|i: int| 0 <= i < selections.len() ==> ((#[trigger] selections[i]).best matches Some(r) ==> r.wf())
}

/// Puts the selected routes into the Loc-RIB, and groups the prefixes by
/// whether they have a best route. The queue of prefixes is emptied.
pub fn select_routes<P: Ranked>(table: &mut RoutingTable<P>, selections: &Vec<Selection>) -> (r: (
    Vec<(Path<P>, Route)>,
    Vec<Path<P>>,
))
    requires
        old(table).wf(),
        selections@.len() == candidates(old(table)@).len(),
        selections_wf(selections@),
    ensures
        final(table).wf(),
        final(table).nht == old(table).nht,
        final(table)@ == (TableModel {
            queued: Set::empty(),
            ..selected_table(old(table)@, candidates(old(table)@), selections@)
        }),
        r.0@ == best_routes(candidates(old(table)@), selections@),
        r.1@ == lost_prefixes(candidates(old(table)@), selections@),
        final(table)@.prefixes.dom() == old(table)@.prefixes.dom(),
        forall|i: int| 0 <= i < r.0@.len() ==> final(table)@.prefixes.contains_key((#[trigger] r.0@[i]).0.prefix),
        forall|i: int| 0 <= i < r.0@.len() ==> (#[trigger] r.0@[i]).1.wf(),
        forall|i: int| 0 <= i < r.1@.len() ==> final(table)@.prefixes.contains_key((#[trigger] r.1@[i]).prefix),
{
    let prefixes = decision_candidates(table);
    let ghost dom = table@.prefixes.dom();
    let mut reach: Vec<(Path<P>, Route)> = Vec::new();
    let mut unreach: Vec<Path<P>> = Vec::new();
    let mut i: usize = 0;
    proof {
        candidates_known(table@, in_order::<P>(table@.queued));
        assert(prefixes@.take(0) =~= Seq::<P>::empty());
    }
    while i < prefixes.len()
        invariant
            table.wf(),
            table.nht == old(table).nht,
            selections@.len() == prefixes@.len(),
            selections_wf(selections@),
            prefixes@ == candidates(old(table)@),
            forall|i: int| 0 <= i < prefixes@.len() ==> old(table)@.prefixes.contains_key(#[trigger] prefixes@[i]),
            dom == old(table)@.prefixes.dom(),
            i <= prefixes@.len(),
            table@ == selected_table(old(table)@, prefixes@.take(i as int), selections@),
            table@.prefixes.dom() == dom,
            reach@ == best_routes(prefixes@.take(i as int), selections@),
            unreach@ == lost_prefixes(prefixes@.take(i as int), selections@),
            forall|j: int| 0 <= j < reach@.len() ==> dom.contains((#[trigger] reach@[j]).0.prefix),
            forall|j: int| 0 <= j < reach@.len() ==> (#[trigger] reach@[j]).1.wf(),
            forall|j: int| 0 <= j < unreach@.len() ==> dom.contains((#[trigger] unreach@[j]).prefix),
        decreases prefixes@.len() - i,
    {
        let prefix = prefixes[i];
        proof {
            assert(prefixes@.take(i + 1).drop_last() =~= prefixes@.take(i as int));
            assert(prefixes@.take(i + 1).last() == prefix);
            assert(dom.contains(prefix));
            assert(selections@[i as int].best matches Some(r) ==> r.wf());
        }
        let dest = table.dest_mut(prefix);
        // Update the Loc-RIB with the best path.
        dest.local = match &selections[i].local {
            Some(local) => Some(local.clone()),
            None => None,
        };
        assert(table@.prefixes.dom() =~= dom);
        // Group best routes and unfeasible routes separately.
        match &selections[i].best {
            Some(route) => {
                reach.push((Path { prefix, path_id: 0 }, route.duplicate()));
            },
            None => {
                unreach.push(Path { prefix, path_id: 0 });
            },
        }
        i += 1;
    }
    assert(prefixes@.take(i as int) =~= prefixes@);
    table.queued_prefixes = SortedSet::new();
    (reach, unreach)
}

/// The routes that may be distributed, by the answers given.
pub open spec fn kept_routes<P>(reach: Seq<(Path<P>, Route)>, answers: Seq<Answer>) -> Seq<(Path<P>, Route)>
    decreases reach.len(),
{
    if reach.len() == 0 {
        Seq::empty()
    } else {
        let rest = kept_routes(reach.drop_last(), answers);
        if answers[reach.len() - 1].eligible {
            rest.push(reach.last())
        } else {
            rest
        }
    }
}

/// The attributes of the routes that may be distributed.
pub open spec fn kept_attrs<P>(reach: Seq<(Path<P>, Route)>, answers: Seq<Answer>) -> Seq<Attrs>
    decreases reach.len(),
{
    if reach.len() == 0 {
        Seq::empty()
    } else {
        let rest = kept_attrs(reach.drop_last(), answers);
        if answers[reach.len() - 1].eligible {
            rest.push(answers[reach.len() - 1].attrs)
        } else {
            rest
        }
    }
}

/// The paths of the routes that may not be distributed.
pub open spec fn dropped_prefixes<P>(reach: Seq<(Path<P>, Route)>, answers: Seq<Answer>) -> Seq<Path<P>>
    decreases reach.len(),
{
    if reach.len() == 0 {
        Seq::empty()
    } else {
        let rest = dropped_prefixes(reach.drop_last(), answers);
        if answers[reach.len() - 1].eligible {
            rest
        } else {
            rest.push(reach.last().0)
        }
    }
}

/// Whether a neighbor takes part in the distribution of routes of a family.
pub open spec fn takes_part<A: AddressFamily>(nbr: Neighbor) -> bool {
    nbr.state == State::Established && nbr.af_in_use(A::afi_safi_spec())
}

/// The state after the selected routes are distributed to a neighbor, and what
/// it is to be told. Routes that may not be distributed are withdrawn like
/// those that are gone.
pub open spec fn distribute_effect<A: AddressFamily>(
    s: OutState<A::Prefix>,
    nbr: Neighbor,
    reach: Seq<(Path<A::Prefix>, Route)>,
    unreach: Seq<Path<A::Prefix>>,
    answers: Seq<Answer>,
    shared: InstanceShared,
) -> (OutState<A::Prefix>, OutputModel) {
    let nbr_unreach = unreach + dropped_prefixes(reach, answers);
    let nbr_reach = kept_routes(reach, answers);
    let (s1, msgs1) = if nbr_unreach.len() > 0 {
        let u = unadvertised_all(s, nbr.remote_addr, nbr_unreach);
        (OutState { table: u.table, queue: drained::<A>(u.queue) }, queue_updates::<A>(u.queue))
    } else {
        (s, Seq::empty())
    };
    if nbr_reach.len() > 0 {
        let (s2, out) = advertise_effect::<A>(s1, nbr, nbr_reach, kept_attrs(reach, answers), shared);
        (s2, OutputModel { msgs: msgs1 + out.msgs, policy: out.policy })
    } else {
        (s1, OutputModel { msgs: msgs1, policy: None })
    }
}

pub open spec fn answers_wf<A: AddressFamily>(answers: Seq<Answer>, add_path: bool) -> bool {
    forall|i: int|
        0 <= i < answers.len() ==> (#[trigger] answers[i]).attrs.wf() && (answers[i].eligible
            && !A::policy_disseminate_spec() ==> attrs_fit::<A>(answers[i].attrs, add_path))
}

/// Distributes the selected routes to a neighbor. `answers` says of each
/// selected route whether it may be distributed, and how it is sent.
fn distribute_routes<A: AddressFamily>(
    nbr: &Neighbor,
    table: &mut RoutingTable<A::Prefix>,
    queue: &mut NeighborUpdateQueue<A::Prefix>,
    reach: &Vec<(Path<A::Prefix>, Route)>,
    unreach: &Vec<Path<A::Prefix>>,
    answers: &Vec<Answer>,
    shared: &InstanceShared,
) -> (r: NbrOutput)
    requires
        nbr.wf(),
        shared.wf(),
        old(table).wf(),
        old(queue).wf(),
        queue_fits::<A>(old(queue)@),
        answers@.len() == reach@.len(),
        answers_wf::<A>(answers@, old(queue)@.add_path),
        forall|i: int| 0 <= i < reach@.len() ==> old(table)@.prefixes.contains_key((#[trigger] reach@[i]).0.prefix),
        forall|i: int| 0 <= i < reach@.len() ==> (#[trigger] reach@[i]).1.wf(),
        forall|i: int| 0 <= i < unreach@.len() ==> old(table)@.prefixes.contains_key((#[trigger] unreach@[i]).prefix),
    ensures
        final(table).wf(),
        final(table).nht == old(table).nht,
        final(queue).wf(),
        queue_fits::<A>(final(queue)@),
        final(queue)@.add_path == old(queue)@.add_path,
        (OutState { table: final(table)@, queue: final(queue)@ }, r@) == distribute_effect::<A>(
            OutState { table: old(table)@, queue: old(queue)@ },
            *nbr,
            reach@,
            unreach@,
            answers@,
            *shared,
        ),
        final(table)@.prefixes.dom() == old(table)@.prefixes.dom(),
        final(table)@.queued == old(table)@.queued,
{
    let ghost dom = table@.prefixes.dom();
    let mut nbr_unreach: Vec<Path<A::Prefix>> = Vec::new();
    let mut i: usize = 0;
    while i < unreach.len()
        invariant
            i <= unreach@.len(),
            nbr_unreach@ == unreach@.take(i as int),
        decreases unreach@.len() - i,
    {
        nbr_unreach.push(unreach[i]);
        assert(unreach@.take(i + 1) =~= unreach@.take(i as int).push(unreach@[i as int]));
        i += 1;
    }
    assert(unreach@.take(i as int) =~= unreach@);
    // Evaluate routes eligible for distribution to this neighbor.
    let mut nbr_reach: Vec<(Path<A::Prefix>, Route)> = Vec::new();
    let mut tx_attrs: Vec<Attrs> = Vec::new();
    i = 0;
    assert(reach@.take(0) =~= Seq::<(Path<A::Prefix>, Route)>::empty());
    assert(unreach@ + dropped_prefixes(reach@.take(0), answers@) =~= unreach@);
    while i < reach.len()
        invariant
            answers@.len() == reach@.len(),
            answers_wf::<A>(answers@, old(queue)@.add_path),
            dom == old(table)@.prefixes.dom(),
            forall|i: int| 0 <= i < reach@.len() ==> old(table)@.prefixes.contains_key((#[trigger] reach@[i]).0.prefix),
            forall|i: int| 0 <= i < reach@.len() ==> (#[trigger] reach@[i]).1.wf(),
            i <= reach@.len(),
            nbr_unreach@ == unreach@ + dropped_prefixes(reach@.take(i as int), answers@),
            nbr_reach@ == kept_routes(reach@.take(i as int), answers@),
            tx_attrs@ == kept_attrs(reach@.take(i as int), answers@),
            nbr_reach@.len() == tx_attrs@.len(),
            forall|j: int| 0 <= j < nbr_reach@.len() ==> dom.contains((#[trigger] nbr_reach@[j]).0.prefix),
            forall|j: int| 0 <= j < nbr_reach@.len() ==> (#[trigger] nbr_reach@[j]).1.wf(),
            forall|j: int|
                0 <= j < tx_attrs@.len() ==> (#[trigger] tx_attrs@[j]).wf() && (!A::policy_disseminate_spec()
                    ==> attrs_fit::<A>(tx_attrs@[j], old(queue)@.add_path)),
            forall|j: int| 0 <= j < nbr_unreach@.len() ==> dom.contains((#[trigger] nbr_unreach@[j]).prefix),
        decreases reach@.len() - i,
    {
        proof {
            assert(reach@.take(i + 1).drop_last() =~= reach@.take(i as int));
            assert(reach@.take(i + 1).last() == reach@[i as int]);
            assert(dom.contains(reach@[i as int].0.prefix));
            assert(answers@[i as int].attrs.wf());
        }
        if answers[i].eligible {
            nbr_reach.push((reach[i].0, reach[i].1.duplicate()));
            tx_attrs.push(answers[i].attrs.duplicate());
        } else {
            nbr_unreach.push(reach[i].0);
            assert(nbr_unreach@ =~= unreach@ + dropped_prefixes(reach@.take(i + 1), answers@));
        }
        i += 1;
    }
    assert(reach@.take(i as int) =~= reach@);
    // Withdraw unfeasible routes immediately.
    let mut msgs: Vec<UpdateMsg> = Vec::new();
    assert(update_models(msgs@) =~= Seq::<UpdateModel>::empty());
    if nbr_unreach.len() > 0 {
        proof {
            assert forall|i: int| 0 <= i < nbr_unreach@.len() implies table@.prefixes.contains_key(
                (#[trigger] nbr_unreach@[i]).prefix,
            ) by {
                assert(dom.contains(nbr_unreach@[i].prefix));
            }
        }
        msgs = withdraw_routes::<A>(nbr, table, queue, &nbr_unreach);
        assert(queue_fits::<A>(queue@));
    }
    // Advertise best routes.
    if nbr_reach.len() > 0 {
        proof {
            assert forall|i: int| 0 <= i < nbr_reach@.len() implies table@.prefixes.contains_key(
                (#[trigger] nbr_reach@[i]).0.prefix,
            ) by {
                assert(dom.contains(nbr_reach@[i].0.prefix));
            }
        }
        let mut out = advertise_routes::<A>(nbr, table, queue, &nbr_reach, &tx_attrs, shared);
        let ghost first = msgs@;
        let ghost second = out.msgs@;
        msgs.append(&mut out.msgs);
        assert(update_models(msgs@) =~= update_models(first) + update_models(second));
        return NbrOutput { msgs, policy: out.policy };
    }
    NbrOutput { msgs, policy: None }
}

/// The table, the queues and the outputs after the selected routes are
/// distributed to several neighbors in turn.
#[verifier::reject_recursive_types(P)]
pub struct Distribution<P> {
    pub table: TableModel<P>,
    pub queues: Seq<QueueModel<P>>,
    pub outputs: Seq<OutputModel>,
}

/// Nothing to tell.
pub open spec fn no_output() -> OutputModel {
    OutputModel { msgs: Seq::empty(), policy: None }
}

/// What there is to distribute after routes were selected for some prefixes:
/// the best routes, the prefixes without one, and all accepted paths.
#[verifier::reject_recursive_types(P)]
pub struct Offer<P> {
    pub prefixes: Seq<P>,
    pub best: Seq<(Path<P>, Route)>,
    pub lost: Seq<Path<P>>,
    pub accepted: Seq<(Path<P>, Route)>,
}

/// Routes of paths that have identifiers, each under its identifier.
pub open spec fn identified<P>(routes: Seq<PeerRoute<P>>, ids: Map<PeerPath, u32>) -> Seq<(Path<P>, Route)>
    decreases routes.len(),
{
    if routes.len() == 0 {
        Seq::empty()
    } else {
        let rest = identified(routes.drop_last(), ids);
        let r = routes.last();
        if ids.contains_key(r.peer) {
            rest.push((Path { prefix: r.prefix, path_id: ids[r.peer] }, r.route))
        } else {
            rest
        }
    }
}

/// The route of this router itself for a prefix, if there is one.
pub open spec fn own_route<P>(t: TableModel<P>, p: P) -> Seq<(Path<P>, Route)> {
    match dest_at(t, p).redistribute {
        Some(route) => seq![(Path { prefix: p, path_id: LOCAL_PATH_ID }, route)],
        None => Seq::empty(),
    }
}

/// All accepted paths to some prefixes.
pub open spec fn accepted_paths<P>(t: TableModel<P>, ps: Seq<P>, ids: Map<PeerPath, u32>) -> Seq<(Path<P>, Route)>
    decreases ps.len(),
{
    if ps.len() == 0 {
        Seq::empty()
    } else {
        accepted_paths(t, ps.drop_last(), ids) + identified(
            prefix_routes(t, ps.last(), AdjSide::InPost, None),
            ids,
        ) + own_route(t, ps.last())
    }
}

/// The paths that are not among those offered.
pub open spec fn not_offered<P>(paths: Seq<Path<P>>, offered: Seq<(Path<P>, Route)>) -> Seq<Path<P>>
    decreases paths.len(),
{
    if paths.len() == 0 {
        Seq::empty()
    } else {
        let rest = not_offered(paths.drop_last(), offered);
        if exists|i: int| 0 <= i < offered.len() && (#[trigger] offered[i]).0 == paths.last() {
            rest
        } else {
            rest.push(paths.last())
        }
    }
}

/// What is offered to a neighbor: all accepted paths where path identifiers are
/// sent to it, the best routes otherwise.
pub open spec fn offered<A: AddressFamily>(nbr: Neighbor, offer: Offer<A::Prefix>) -> Seq<(Path<A::Prefix>, Route)> {
    if nbr.sends_paths(A::afi_safi_spec()) {
        offer.accepted
    } else {
        offer.best
    }
}

/// What is no longer offered to a neighbor: where path identifiers are sent to
/// it, those of its paths that are not accepted any more, otherwise the
/// prefixes without a best route.
pub open spec fn not_any_more<A: AddressFamily>(
    t: TableModel<A::Prefix>,
    nbr: Neighbor,
    offer: Offer<A::Prefix>,
) -> Seq<Path<A::Prefix>> {
    if nbr.sends_paths(A::afi_safi_spec()) {
        not_offered(
            route_paths(table_routes(t, offer.prefixes, AdjSide::Out, Some(nbr.remote_addr))),
            offer.accepted,
        )
    } else {
        offer.lost
    }
}

/// Lists all accepted paths to some prefixes, each under the identifier with
/// which it is advertised.
pub fn list_accepted<P: Ranked>(table: &RoutingTable<P>, prefixes: &Vec<P>, ids: &PathIds) -> (r: Vec<
    (Path<P>, Route),
>)
    requires
        table.wf(),
        ids.wf(),
    ensures
        r@ == accepted_paths(table@, prefixes@, ids@.ids),
        forall|i: int| 0 <= i < r@.len() ==> (#[trigger] r@[i]).1.wf(),
        forall|i: int| 0 <= i < r@.len() ==> table@.prefixes.contains_key((#[trigger] r@[i]).0.prefix),
{
    let mut r: Vec<(Path<P>, Route)> = Vec::new();
    let mut i: usize = 0;
    assert(prefixes@.take(0) =~= Seq::<P>::empty());
    while i < prefixes.len()
        invariant
            table.wf(),
            ids.wf(),
            i <= prefixes@.len(),
            r@ == accepted_paths(table@, prefixes@.take(i as int), ids@.ids),
            forall|i: int| 0 <= i < r@.len() ==> (#[trigger] r@[i]).1.wf(),
            forall|i: int| 0 <= i < r@.len() ==> table@.prefixes.contains_key((#[trigger] r@[i]).0.prefix),
        decreases prefixes@.len() - i,
    {
        let prefix = prefixes[i];
        let mut one: Vec<P> = Vec::new();
        one.push(prefix);
        let routes = list_routes(table, &one, AdjSide::InPost, None);
        let ghost before = r@;
        proof {
            prefix.view_is_value();
            assert(prefixes@.take(i + 1).drop_last() =~= prefixes@.take(i as int));
            assert(prefixes@.take(i + 1).last() == prefix);
            assert(one@.drop_last() =~= Seq::<P>::empty());
            assert(one@.last() == prefix);
            assert(table_routes(table@, one@.drop_last(), AdjSide::InPost, None) =~= Seq::<PeerRoute<P>>::empty());
            assert(table_routes(table@, one@, AdjSide::InPost, None) =~= prefix_routes(
                table@,
                prefix,
                AdjSide::InPost,
                None,
            ));
            assert(routes@.take(0) =~= Seq::<PeerRoute<P>>::empty());
            assert(r@ =~= before + identified(routes@.take(0), ids@.ids));
        }
        let mut k: usize = 0;
        while k < routes.len()
            invariant
                ids.wf(),
                routes_wf(routes@),
                k <= routes@.len(),
                r@ == before + identified(routes@.take(k as int), ids@.ids),
                forall|i: int| 0 <= i < r@.len() ==> (#[trigger] r@[i]).1.wf(),
                forall|i: int| 0 <= i < r@.len() ==> table@.prefixes.contains_key((#[trigger] r@[i]).0.prefix),
                forall|i: int| 0 <= i < routes@.len() ==> table@.prefixes.contains_key((#[trigger] routes@[i]).prefix),
            decreases routes@.len() - k,
        {
            proof {
                assert(routes@.take(k + 1).drop_last() =~= routes@.take(k as int));
                assert(routes@.take(k + 1).last() == routes@[k as int]);
                assert(routes@[k as int].route.wf());
            }
            if let Some(path_id) = ids.get(routes[k].peer) {
                r.push((Path { prefix: routes[k].prefix, path_id }, routes[k].route.duplicate()));
                assert(r@ =~= before + identified(routes@.take(k + 1), ids@.ids));
            }
            k += 1;
        }
        assert(routes@.take(k as int) =~= routes@);
        let ghost mid = r@;
        if let Some(dest) = table.prefixes.get(&prefix) {
            if let Some(route) = &dest.redistribute {
                proof {
                    assert(table@.prefixes.contains_key(prefix));
                }
                r.push((Path { prefix, path_id: LOCAL_PATH_ID }, route.duplicate()));
            }
        }
        assert(r@ =~= mid + own_route(table@, prefix));
        assert(r@ =~= accepted_paths(table@, prefixes@.take(i + 1), ids@.ids));
        i += 1;
    }
    assert(prefixes@.take(i as int) =~= prefixes@);
    r
}

fn same_path<P: Ranked>(a: &Path<P>, b: &Path<P>) -> (r: bool)
    ensures
        r == (*a == *b),
{
    if a.ranks_below(b) || b.ranks_below(a) {
        false
    } else {
        proof {
            Path::<P>::rank_identifies(*a, *b);
        }
        true
    }
}

/// Lists the paths of a neighbor to some prefixes that are not offered to it any
/// more.
fn list_not_offered<P: Ranked>(
    table: &RoutingTable<P>,
    addr: IpAddr,
    prefixes: &Vec<P>,
    accepted: &Vec<(Path<P>, Route)>,
) -> (r: Vec<Path<P>>)
    requires
        table.wf(),
    ensures
        r@ == not_offered(
            route_paths(table_routes(table@, prefixes@, AdjSide::Out, Some(addr))),
            accepted@,
        ),
        forall|i: int| 0 <= i < r@.len() ==> table@.prefixes.contains_key((#[trigger] r@[i]).prefix),
{
    let routes = list_routes(table, prefixes, AdjSide::Out, Some(addr));
    let paths = to_route_paths(&routes);
    let mut r: Vec<Path<P>> = Vec::new();
    let mut i: usize = 0;
    assert(paths@.take(0) =~= Seq::<Path<P>>::empty());
    while i < paths.len()
        invariant
            paths@ == route_paths(routes@),
            forall|i: int| 0 <= i < routes@.len() ==> table@.prefixes.contains_key((#[trigger] routes@[i]).prefix),
            i <= paths@.len(),
            r@ == not_offered(paths@.take(i as int), accepted@),
            forall|i: int| 0 <= i < r@.len() ==> table@.prefixes.contains_key((#[trigger] r@[i]).prefix),
        decreases paths@.len() - i,
    {
        let path = paths[i];
        proof {
            assert(paths@.take(i + 1).drop_last() =~= paths@.take(i as int));
            assert(paths@.take(i + 1).last() == path);
            assert(table@.prefixes.contains_key(routes@[i as int].prefix));
        }
        let mut found = false;
        let mut k: usize = 0;
        while k < accepted.len()
            invariant
                k <= accepted@.len(),
                found == exists|j: int| 0 <= j < k && (#[trigger] accepted@[j]).0 == path,
            decreases accepted@.len() - k,
        {
            if same_path(&accepted[k].0, &path) {
                found = true;
                assert(accepted@[k as int].0 == path);
            }
            k += 1;
        }
        if !found {
            r.push(path);
        }
        i += 1;
    }
    assert(paths@.take(i as int) =~= paths@);
    r
}

pub open spec fn distribute_all<A: AddressFamily>(
    t: TableModel<A::Prefix>,
    queues: Seq<QueueModel<A::Prefix>>,
    nbrs: Seq<Neighbor>,
    offer: Offer<A::Prefix>,
    answers: Seq<Vec<Answer>>,
    shared: InstanceShared,
) -> Distribution<A::Prefix>
    decreases nbrs.len(),
{
    if nbrs.len() == 0 {
        Distribution { table: t, queues, outputs: Seq::empty() }
    } else {
        let d = distribute_all::<A>(t, queues, nbrs.drop_last(), offer, answers, shared);
        let j = nbrs.len() - 1;
        if takes_part::<A>(nbrs.last()) {
            let (s, out) = distribute_effect::<A>(
                OutState { table: d.table, queue: d.queues[j] },
                nbrs.last(),
                offered::<A>(nbrs.last(), offer),
                not_any_more::<A>(d.table, nbrs.last(), offer),
                answers[j]@,
                shared,
            );
            Distribution { table: s.table, queues: d.queues.update(j, s.queue), outputs: d.outputs.push(out) }
        } else {
            Distribution { outputs: d.outputs.push(no_output()), ..d }
        }
    }
}

/// Whether a destination no longer holds any data: there is no selected route,
/// and no neighbor has sent or is sent one.
pub open spec fn is_stale(d: DestModel) -> bool {
    d.local is None && forall|a: PeerPath| #[trigger] d.adj_rib.contains_key(a) ==> d.adj_rib[a].is_empty_spec()
}

/// The table without the stale destinations among some prefixes.
pub open spec fn cleaned<P>(t: TableModel<P>, ps: Set<P>) -> TableModel<P> {
    TableModel {
        prefixes: t.prefixes.remove_keys(
            Set::new(|p: P| ps.contains(p) && t.prefixes.contains_key(p) && is_stale(t.prefixes[p])),
        ),
        ..t
    }
}

fn dest_is_stale(dest: &Destination) -> (r: bool)
    requires
        dest.wf(),
    ensures
        r == is_stale(dest@),
{
    if dest.local.is_some() {
        return false;
    }
    let ghost entries = dest.adj_rib.entries@;
    let mut i: usize = 0;
    while i < dest.adj_rib.entries.len()
        invariant
            dest.wf(),
            entries == dest.adj_rib.entries@,
            i <= entries.len(),
            forall|j: int| 0 <= j < i ==> (#[trigger] entries[j]).1.is_empty_spec(),
        decreases entries.len() - i,
    {
        if !dest.adj_rib.entries[i].1.is_empty() {
            proof {
                entries_map_get(entries, i as int);
                assert(dest@.adj_rib.contains_key(entries[i as int].0@));
            }
            return false;
        }
        i += 1;
    }
    proof {
        assert forall|a: PeerPath| #[trigger] dest@.adj_rib.contains_key(a) implies dest@.adj_rib[a].is_empty_spec() by {
            let j = choose|j: int| 0 <= j < entries.len() && (#[trigger] entries[j]).0@ == a;
            entries_map_get(entries, j);
        }
    }
    true
}

/// Removes destinations that no longer hold any data.
fn remove_stale<P: Ranked>(table: &mut RoutingTable<P>, prefixes: &SortedSet<P>)
    requires
        old(table).wf(),
        prefixes.wf(),
    ensures
        final(table).wf(),
        final(table).nht == old(table).nht,
        final(table)@ == cleaned(old(table)@, prefixes@),
{
    let ghost t = table@;
    let ghost elems = prefixes.elems();
    let mut i: usize = 0;
    proof {
        elems_are_set(*prefixes);
        assert(elems.take(0).to_set() =~= Set::<P>::empty());
        assert(cleaned(t, Set::empty()).prefixes =~= t.prefixes);
    }
    while i < prefixes.len()
        invariant
            prefixes.wf(),
            table.wf(),
            table.nht == old(table).nht,
            t == old(table)@,
            elems == prefixes.elems(),
            i <= elems.len(),
            table@ == cleaned(t, elems.take(i as int).to_set()),
        decreases elems.len() - i,
    {
        let prefix = *prefixes.nth(i);
        let ghost done = elems.take(i as int).to_set();
        proof {
            prefix.view_is_value();
            taken_set(elems, i as int);
        }
        let mut stale = false;
        if let Some(dest) = table.prefixes.get(&prefix) {
            stale = dest_is_stale(dest);
        }
        let ghost before = table@.prefixes;
        proof {
            if before.contains_key(prefix) {
                assert(before[prefix] == t.prefixes[prefix]);
                assert(stale == is_stale(t.prefixes[prefix]));
            }
        }
        if stale {
            let _ = table.prefixes.remove(&prefix);
        }
        proof {
            let next = elems.take(i + 1).to_set();
            assert(stale ==> table@.prefixes =~= before.remove(prefix));
            assert forall|p: P| table@.prefixes.contains_key(p) <==> cleaned(t, next).prefixes.contains_key(p) by {
                assert(before.contains_key(p) <==> cleaned(t, done).prefixes.contains_key(p));
            }
            assert(table@.prefixes =~= cleaned(t, next).prefixes);
        }
        i += 1;
    }
    assert(elems.take(i as int) =~= elems);
}

/// The models of queues.
pub open spec fn queue_models<P: Ranked>(queues: Seq<NeighborUpdateQueue<P>>) -> Seq<QueueModel<P>> {
    Seq::new(queues.len(), |i: int| queues[i]@)
}

/// The models of outputs.
pub open spec fn output_models(outputs: Seq<NbrOutput>) -> Seq<OutputModel> {
    Seq::new(outputs.len(), |i: int| outputs[i]@)
}

/// The queues are well formed, and path identifiers are sent with the prefixes
/// just where that was negotiated with the neighbor.
pub open spec fn queues_wf<A: AddressFamily>(
    queues: Seq<NeighborUpdateQueue<A::Prefix>>,
    nbrs: Seq<Neighbor>,
) -> bool {
    &&& queues.len() == nbrs.len()
    &&& forall|i: int| 0 <= i < queues.len() ==> (#[trigger] queues[i]).wf() && queue_fits::<A>(queues[i]@)
    &&& forall|i: int|
        0 <= i < queues.len() ==> (#[trigger] queues[i])@.add_path == nbrs[i].sends_paths(A::afi_safi_spec())
}

/// There is an answer for each route that is offered to a neighbor.
pub open spec fn all_answered<A: AddressFamily>(
    answers: Seq<Vec<Answer>>,
    nbrs: Seq<Neighbor>,
    offer: Offer<A::Prefix>,
) -> bool {
    &&& answers.len() == nbrs.len()
    &&& forall|j: int|
        0 <= j < answers.len() ==> (#[trigger] answers[j])@.len() == offered::<A>(nbrs[j], offer).len()
            && answers_wf::<A>(answers[j]@, nbrs[j].sends_paths(A::afi_safi_spec()))
}

/// What there is to distribute after a selection.
pub open spec fn selection_offer<P: Ranked>(
    t: TableModel<P>,
    selections: Seq<Selection>,
    ids: Map<PeerPath, u32>,
) -> Offer<P> {
    let ps = candidates(t);
    Offer {
        prefixes: ps,
        best: best_routes(ps, selections),
        lost: lost_prefixes(ps, selections),
        accepted: accepted_paths(t, ps, ids),
    }
}

/// The result of the decision process: the selected routes go into the
/// Loc-RIB, are distributed to the neighbors that take part, and what is left
/// without data is removed.
pub open spec fn decision_effect<A: AddressFamily>(
    t: TableModel<A::Prefix>,
    queues: Seq<QueueModel<A::Prefix>>,
    nbrs: Seq<Neighbor>,
    selections: Seq<Selection>,
    answers: Seq<Vec<Answer>>,
    ids: Map<PeerPath, u32>,
    shared: InstanceShared,
) -> Distribution<A::Prefix> {
    let ps = candidates(t);
    let selected = TableModel { queued: Set::empty(), ..selected_table(t, ps, selections) };
    let d = if A::disseminate_spec() {
        distribute_all::<A>(selected, queues, nbrs, selection_offer(t, selections, ids), answers, shared)
    } else {
        Distribution {
            table: selected,
            queues,
            outputs: Seq::new(nbrs.len(), |i: int| no_output()),
        }
    };
    Distribution { table: cleaned(d.table, t.queued), ..d }
}

/// What there is to distribute.
pub struct OfferLists<P> {
    pub prefixes: Vec<P>,
    pub best: Vec<(Path<P>, Route)>,
    pub lost: Vec<Path<P>>,
    pub accepted: Vec<(Path<P>, Route)>,
}

impl<P: Ranked> View for OfferLists<P> {
    type V = Offer<P>;

    open spec fn view(&self) -> Offer<P> {
        Offer { prefixes: self.prefixes@, best: self.best@, lost: self.lost@, accepted: self.accepted@ }
    }
}

/// The routes are well formed, and all is about destinations that are known.
pub open spec fn offer_wf<P>(offer: Offer<P>, dom: Set<P>) -> bool {
    &&& forall|i: int| 0 <= i < offer.best.len() ==> (#[trigger] offer.best[i]).1.wf()
    &&& forall|i: int| 0 <= i < offer.best.len() ==> dom.contains((#[trigger] offer.best[i]).0.prefix)
    &&& forall|i: int| 0 <= i < offer.lost.len() ==> dom.contains((#[trigger] offer.lost[i]).prefix)
    &&& forall|i: int| 0 <= i < offer.accepted.len() ==> (#[trigger] offer.accepted[i]).1.wf()
    &&& forall|i: int| 0 <= i < offer.accepted.len() ==> dom.contains((#[trigger] offer.accepted[i]).0.prefix)
}

/// Distributes what there is to a neighbor that takes part.
fn distribute_offer<A: AddressFamily>(
    nbr: &Neighbor,
    table: &mut RoutingTable<A::Prefix>,
    queue: &mut NeighborUpdateQueue<A::Prefix>,
    offer: &OfferLists<A::Prefix>,
    answers: &Vec<Answer>,
    shared: &InstanceShared,
) -> (r: NbrOutput)
    requires
        nbr.wf(),
        shared.wf(),
        old(table).wf(),
        old(queue).wf(),
        queue_fits::<A>(old(queue)@),
        answers@.len() == offered::<A>(*nbr, offer@).len(),
        answers_wf::<A>(answers@, old(queue)@.add_path),
        offer_wf(offer@, old(table)@.prefixes.dom()),
    ensures
        final(table).wf(),
        final(table).nht == old(table).nht,
        final(queue).wf(),
        queue_fits::<A>(final(queue)@),
        final(queue)@.add_path == old(queue)@.add_path,
        (OutState { table: final(table)@, queue: final(queue)@ }, r@) == distribute_effect::<A>(
            OutState { table: old(table)@, queue: old(queue)@ },
            *nbr,
            offered::<A>(*nbr, offer@),
            not_any_more::<A>(old(table)@, *nbr, offer@),
            answers@,
            *shared,
        ),
        final(table)@.prefixes.dom() == old(table)@.prefixes.dom(),
        final(table)@.queued == old(table)@.queued,
{
    let ghost dom = table@.prefixes.dom();
    proof {
        assert forall|i: int| 0 <= i < offer.best@.len() implies table@.prefixes.contains_key(
            (#[trigger] offer.best@[i]).0.prefix,
        ) by {
            assert(dom.contains(offer@.best[i].0.prefix));
        }
        assert forall|i: int| 0 <= i < offer.lost@.len() implies table@.prefixes.contains_key(
            (#[trigger] offer.lost@[i]).prefix,
        ) by {
            assert(dom.contains(offer@.lost[i].prefix));
        }
        assert forall|i: int| 0 <= i < offer.accepted@.len() implies table@.prefixes.contains_key(
            (#[trigger] offer.accepted@[i]).0.prefix,
        ) by {
            assert(dom.contains(offer@.accepted[i].0.prefix));
        }
        assert forall|i: int| 0 <= i < offer.best@.len() implies (#[trigger] offer.best@[i]).1.wf() by {
            assert(offer@.best[i].1.wf());
        }
        assert forall|i: int| 0 <= i < offer.accepted@.len() implies (#[trigger] offer.accepted@[i]).1.wf() by {
            assert(offer@.accepted[i].1.wf());
        }
    }
    if nbr.is_add_path_tx(A::afi_safi()) {
        let gone = list_not_offered(table, nbr.remote_addr, &offer.prefixes, &offer.accepted);
        distribute_routes::<A>(nbr, table, queue, &offer.accepted, &gone, answers, shared)
    } else {
        distribute_routes::<A>(nbr, table, queue, &offer.best, &offer.lost, answers, shared)
    }
}

/// Distributes what there is to all neighbors that take part.
fn distribute_to_all<A: AddressFamily>(
    table: &mut RoutingTable<A::Prefix>,
    neighbors: &Neighbors,
    queues: &mut Vec<NeighborUpdateQueue<A::Prefix>>,
    offer: &OfferLists<A::Prefix>,
    answers: &Vec<Vec<Answer>>,
    shared: &InstanceShared,
) -> (r: Vec<NbrOutput>)
    requires
        neighbors_wf(*neighbors),
        shared.wf(),
        old(table).wf(),
        queues_wf::<A>(old(queues)@, nbr_list(*neighbors)),
        all_answered::<A>(answers@, nbr_list(*neighbors), offer@),
        offer_wf(offer@, old(table)@.prefixes.dom()),
    ensures
        final(table).wf(),
        final(table).nht == old(table).nht,
        queues_wf::<A>(final(queues)@, nbr_list(*neighbors)),
        (Distribution {
            table: final(table)@,
            queues: queue_models(final(queues)@),
            outputs: output_models(r@),
        }) == distribute_all::<A>(
            old(table)@,
            queue_models(old(queues)@),
            nbr_list(*neighbors),
            offer@,
            answers@,
            *shared,
        ),
{
    let mut outputs: Vec<NbrOutput> = Vec::new();
    let ghost nbrs = nbr_list(*neighbors);
    let ghost t0 = table@;
    let ghost q0 = queue_models(queues@);
    let ghost dom = table@.prefixes.dom();
    let mut j: usize = 0;
    assert(nbrs.take(0) =~= Seq::<Neighbor>::empty());
    assert(output_models(outputs@) =~= Seq::<OutputModel>::empty());
    while j < neighbors.entries.len()
        invariant
            neighbors_wf(*neighbors),
            shared.wf(),
            table.wf(),
            table.nht == old(table).nht,
            table@.prefixes.dom() == dom,
            nbrs == nbr_list(*neighbors),
            queues_wf::<A>(queues@, nbrs),
            all_answered::<A>(answers@, nbrs, offer@),
            offer_wf(offer@, dom),
            j <= nbrs.len(),
            (Distribution { table: table@, queues: queue_models(queues@), outputs: output_models(outputs@) })
                == distribute_all::<A>(t0, q0, nbrs.take(j as int), offer@, answers@, *shared),
        decreases nbrs.len() - j,
    {
        let nbr = &neighbors.entries[j].1;
        proof {
            entries_map_get(neighbors.entries@, j as int);
            assert(neighbors@.contains_key(neighbors.entries@[j as int].0@));
            assert(nbrs.take(j + 1).drop_last() =~= nbrs.take(j as int));
            assert(nbrs.take(j + 1).last() == nbrs[j as int]);
            assert(*nbr == nbrs[j as int]);
        }
        let ghost before = queues@;
        let ghost outs = outputs@;
        if nbr.state == State::Established && nbr.is_af_enabled(A::afi_safi()) {
            proof {
                assert(queues@[j as int].wf() && queue_fits::<A>(queues@[j as int]@));
                assert(queues@[j as int]@.add_path == nbr.sends_paths(A::afi_safi_spec()));
                assert(answers@[j as int]@.len() == offered::<A>(*nbr, offer@).len());
            }
            let out = distribute_offer::<A>(nbr, table, &mut queues[j], offer, &answers[j], shared);
            outputs.push(out);
            proof {
                assert(queue_models(queues@) =~= queue_models(before).update(j as int, queues@[j as int]@));
                assert(output_models(outputs@) =~= output_models(outs).push(out@));
                assert forall|i: int| 0 <= i < queues@.len() implies (#[trigger] queues@[i]).wf() && queue_fits::<A>(
                    queues@[i]@,
                ) by {
                    if i != j {
                        assert(queues@[i] == before[i]);
                    }
                }
                assert forall|i: int| 0 <= i < queues@.len() implies (#[trigger] queues@[i])@.add_path
                    == nbrs[i].sends_paths(A::afi_safi_spec()) by {
                    if i != j {
                        assert(queues@[i] == before[i]);
                    }
                }
            }
        } else {
            let msgs: Vec<UpdateMsg> = Vec::new();
            assert(update_models(msgs@) =~= Seq::<UpdateModel>::empty());
            let out = NbrOutput { msgs, policy: None };
            outputs.push(out);
            assert(output_models(outputs@) =~= output_models(outs).push(no_output()));
        }
        j += 1;
    }
    assert(nbrs.take(j as int) =~= nbrs);
    outputs
}

/// Runs the decision process of an address family. `selections` holds the
/// outcome of best-path selection for each prefix of `decision_start`, `answers`
/// says for each neighbor and each route that is offered to it whether it may
/// be distributed, and how it is sent.
pub fn decision_process<A: AddressFamily>(
    table: &mut RoutingTable<A::Prefix>,
    neighbors: &Neighbors,
    queues: &mut Vec<NeighborUpdateQueue<A::Prefix>>,
    selections: &Vec<Selection>,
    answers: &Vec<Vec<Answer>>,
    ids: &PathIds,
    shared: &InstanceShared,
) -> (r: Vec<NbrOutput>)
    requires
        neighbors_wf(*neighbors),
        shared.wf(),
        old(table).wf(),
        ids.wf(),
        selections@.len() == candidates(old(table)@).len(),
        selections_wf(selections@),
        queues_wf::<A>(old(queues)@, nbr_list(*neighbors)),
        all_answered::<A>(
            answers@,
            nbr_list(*neighbors),
            selection_offer(old(table)@, selections@, ids@.ids),
        ),
    ensures
        final(table).wf(),
        final(table).nht == old(table).nht,
        queues_wf::<A>(final(queues)@, nbr_list(*neighbors)),
        (Distribution {
            table: final(table)@,
            queues: queue_models(final(queues)@),
            outputs: output_models(r@),
        }) == decision_effect::<A>(
            old(table)@,
            queue_models(old(queues)@),
            nbr_list(*neighbors),
            selections@,
            answers@,
            ids@.ids,
            *shared,
        ),
{
    let prefixes = decision_candidates(table);
    let accepted = list_accepted(table, &prefixes, ids);
    // Route selection.
    let queued_prefixes = table.queued_prefixes.duplicate();
    let (best, lost) = select_routes(table, selections);
    let offer = OfferLists { prefixes, best, lost, accepted };
    proof {
        let dom = table@.prefixes.dom();
        assert forall|i: int| 0 <= i < offer@.accepted.len() implies dom.contains(
            (#[trigger] offer@.accepted[i]).0.prefix,
        ) by {
            assert(old(table)@.prefixes.contains_key(accepted@[i].0.prefix));
            assert(old(table)@.prefixes.dom().contains(accepted@[i].0.prefix));
        }
        assert(offer_wf(offer@, dom));
    }
    // Route dissemination.
    let mut outputs: Vec<NbrOutput> = Vec::new();
    if A::disseminate() {
        outputs = distribute_to_all::<A>(table, neighbors, queues, &offer, answers, shared);
    } else {
        let ghost none = Seq::new(neighbors.entries@.len(), |i: int| no_output());
        let mut j: usize = 0;
        assert(output_models(outputs@) =~= none.take(0));
        while j < neighbors.entries.len()
            invariant
                none == Seq::new(neighbors.entries@.len(), |i: int| no_output()),
                j <= neighbors.entries@.len(),
                output_models(outputs@) == none.take(j as int),
            decreases neighbors.entries@.len() - j,
        {
            let msgs: Vec<UpdateMsg> = Vec::new();
            assert(update_models(msgs@) =~= Seq::<UpdateModel>::empty());
            let ghost outs = outputs@;
            outputs.push(NbrOutput { msgs, policy: None });
            assert(output_models(outputs@) =~= output_models(outs).push(no_output()));
            assert(none.take(j + 1) =~= none.take(j as int).push(no_output()));
            j += 1;
        }
        assert(none.take(j as int) =~= none);
        assert(none =~= Seq::new(nbr_list(*neighbors).len(), |i: int| no_output()));
    }
    // Remove routing table entries that no longer hold any data.
    remove_stale(table, &queued_prefixes);
    outputs
}

/// The routes that are advertised to a neighbor, in the order of the table.
pub open spec fn all_advertised<P: Ranked>(t: TableModel<P>, addr: IpAddr) -> Seq<PeerRoute<P>> {
    table_routes(t, in_order::<P>(t.prefixes.dom()), AdjSide::OutPost, Some(addr))
}

/// The queue after advertised routes are queued once more.
pub open spec fn resent<P>(q: QueueModel<P>, routes: Seq<PeerRoute<P>>, tx_attrs: Seq<Attrs>) -> QueueModel<P>
    decreases routes.len(),
{
    if routes.len() == 0 {
        q
    } else {
        let u = resent(q, routes.drop_last(), tx_attrs);
        let path = route_path(routes.last());
        QueueModel {
            reach: reach_added(u.reach, tx_attrs[routes.len() - 1], path),
            labels: match routes.last().route.vpn_label {
                Some(label) => u.labels.insert(path, label),
                None => u.labels,
            },
            ..u
        }
    }
}

/// Lists the routes that are advertised to a neighbor.
pub fn list_advertised<P: Ranked>(table: &RoutingTable<P>, addr: IpAddr) -> (r: Vec<PeerRoute<P>>)
    requires
        table.wf(),
    ensures
        r@ == all_advertised(table@, addr),
{
    list_routes(table, &table_prefixes(table), AdjSide::OutPost, Some(addr))
}

/// Builds the messages that advertise once more what is advertised to a
/// neighbor. `tx_attrs` holds the attributes with which each route is sent.
pub fn resend_adj_rib_out<A: AddressFamily>(
    nbr: &Neighbor,
    table: &RoutingTable<A::Prefix>,
    queue: &mut NeighborUpdateQueue<A::Prefix>,
    tx_attrs: &Vec<Attrs>,
) -> (r: Vec<UpdateMsg>)
    requires
        table.wf(),
        old(queue).wf(),
        queue_fits::<A>(old(queue)@),
        tx_attrs@.len() == all_advertised(table@, nbr.remote_addr).len(),
        forall|i: int|
            0 <= i < tx_attrs@.len() ==> (#[trigger] tx_attrs@[i]).wf() && attrs_fit::<A>(
                tx_attrs@[i],
                old(queue)@.add_path,
            ),
    ensures
        final(queue).wf(),
        ({
            let q = resent(old(queue)@, all_advertised(table@, nbr.remote_addr), tx_attrs@);
            update_models(r@) == queue_updates::<A>(q) && final(queue)@ == drained::<A>(q)
        }),
{
    let routes = list_advertised(table, nbr.remote_addr);
    let mut i: usize = 0;
    assert(routes@.take(0) =~= Seq::<PeerRoute<A::Prefix>>::empty());
    while i < routes.len()
        invariant
            queue.wf(),
            queue_fits::<A>(queue@),
            queue@.add_path == old(queue)@.add_path,
            tx_attrs@.len() == routes@.len(),
            forall|i: int|
                0 <= i < tx_attrs@.len() ==> (#[trigger] tx_attrs@[i]).wf() && attrs_fit::<A>(
                    tx_attrs@[i],
                    old(queue)@.add_path,
                ),
            i <= routes@.len(),
            queue@ == resent(old(queue)@, routes@.take(i as int), tx_attrs@),
        decreases routes@.len() - i,
    {
        let path = Path { prefix: routes[i].prefix, path_id: routes[i].peer.path_id };
        let ghost q = queue@;
        proof {
            path.view_is_value();
            assert(routes@.take(i + 1).drop_last() =~= routes@.take(i as int));
            assert(routes@.take(i + 1).last() == routes@[i as int]);
            assert(tx_attrs@[i as int].wf());
        }
        if let Some(label) = routes[i].route.vpn_label {
            queue.labels.insert(path, label);
        }
        proof {
            fits_by_reach::<A>(q, queue@);
            reach_added_fits::<A>(queue@, tx_attrs@[i as int], path);
        }
        queue.reach_add(tx_attrs[i].duplicate(), path);
        i += 1;
    }
    assert(routes@.take(i as int) =~= routes@);
    build_family_updates::<A>(queue)
}

}
