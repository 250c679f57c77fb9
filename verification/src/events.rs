//! Events of BGP sessions: connections, received messages, timers and
//! decisions of the policy engine.
use crate::af::AddressFamily;
use crate::attribute::Attrs;
use crate::bgp::AfiSafi;
use crate::bgp::EthernetSegmentId;
use crate::bgp::RouteType;
use crate::evpn::ead_per_es;
use crate::evpn::mass_withdraw_mac_routes;
use crate::evpn::mass_withdrawn;
use crate::evpn::MAX_ETHERNET_TAG_ID;
use crate::ip::IpAddr;
use crate::ip::IpNetwork;
use crate::message::EvpnRoute;
use crate::neighbor::Neighbor;
use crate::neighbor::Neighbors;
use crate::neighbor::PeerType;
use crate::neighbor::State;
use crate::ord::elems_are_set;
use crate::ord::elems_count;
use crate::ord::entries_map_get;
use crate::ord::in_order;
use crate::ord::taken_set;
use crate::ord::Ranked;
use crate::ord::SortedSet;
use crate::path::ids_of;
use crate::path::path_ids;
use crate::path::path_prefixes;
use crate::path::prefixes_of;
use crate::path::Path;
use crate::path::PeerPath;
use crate::policy::RoutePolicyInfo;
use crate::policy_types::DefaultPolicyType;
use crate::policy_types::MatchSets;
use crate::policy_types::Policy;
use crate::policy_types::PolicyType;
use crate::protocol::Label;
use crate::rib::adj_at;
use crate::rib::has_adj;
use crate::rib::list_routes;
use crate::rib::route_paths;
use crate::rib::table_prefixes;
use crate::rib::table_routes;
use crate::rib::to_route_paths;
use crate::rib::with_adj;
use crate::rib::with_queued;
use crate::rib::AdjRib;
use crate::rib::AdjSide;
use crate::rib::NexthopOp;
use crate::rib::PeerRoute;
use crate::rib::Route;
use crate::rib::RouteOrigin;
use crate::rib::RoutingTable;
use crate::rib::TableModel;
use crate::shared::InstanceShared;
use std::sync::Arc;
use vstd::prelude::*;

verus! {

/// A request to the policy engine.
pub enum PolicyApplyMsg {
    Neighbor {
        policy_type: PolicyType,
        nbr_addr: IpAddr,
        afi_safi: AfiSafi,
        routes: Vec<(IpNetwork, RoutePolicyInfo)>,
        path_ids: Vec<u32>,
        missing_policy: bool,
        policies: Vec<Arc<Policy>>,
        match_sets: Arc<MatchSets>,
        default_policy: DefaultPolicyType,
    },
    Redistribute {
        afi_safi: AfiSafi,
        prefix: IpNetwork,
        route: RoutePolicyInfo,
        missing_policy: bool,
        policies: Vec<Arc<Policy>>,
        match_sets: Arc<MatchSets>,
        default_policy: DefaultPolicyType,
    },
}

/// A request to the policy engine as a mathematical value.
pub enum PolicyApplyModel {
    Neighbor {
        policy_type: PolicyType,
        nbr_addr: IpAddr,
        afi_safi: AfiSafi,
        routes: Seq<(IpNetwork, RoutePolicyInfo)>,
        path_ids: Seq<u32>,
        missing_policy: bool,
        policies: Seq<Arc<Policy>>,
        match_sets: Arc<MatchSets>,
        default_policy: DefaultPolicyType,
    },
    Redistribute {
        afi_safi: AfiSafi,
        prefix: IpNetwork,
        route: RoutePolicyInfo,
        missing_policy: bool,
        policies: Seq<Arc<Policy>>,
        match_sets: Arc<MatchSets>,
        default_policy: DefaultPolicyType,
    },
}

impl View for PolicyApplyMsg {
    type V = PolicyApplyModel;

    open spec fn view(&self) -> PolicyApplyModel {
        match *self {
            PolicyApplyMsg::Neighbor {
                policy_type,
                nbr_addr,
                afi_safi,
                routes,
                path_ids,
                missing_policy,
                policies,
                match_sets,
                default_policy,
            } => PolicyApplyModel::Neighbor {
                policy_type,
                nbr_addr,
                afi_safi,
                routes: routes@,
                path_ids: path_ids@,
                missing_policy,
                policies: policies@,
                match_sets,
                default_policy,
            },
            PolicyApplyMsg::Redistribute {
                afi_safi,
                prefix,
                route,
                missing_policy,
                policies,
                match_sets,
                default_policy,
            } => PolicyApplyModel::Redistribute {
                afi_safi,
                prefix,
                route,
                missing_policy,
                policies: policies@,
                match_sets,
                default_policy,
            },
        }
    }
}

/// Where the routes of a neighbor come from.
pub open spec fn nbr_origin(nbr: Neighbor) -> RouteOrigin {
    RouteOrigin::Neighbor { identifier: nbr.identifier->0, remote_addr: nbr.remote_addr }
}

/// The type of the routes of a neighbor.
pub open spec fn nbr_route_type(nbr: Neighbor) -> RouteType {
    match nbr.peer_type {
        PeerType::Internal => RouteType::Internal,
        PeerType::External => RouteType::External,
    }
}

fn route_type_of(nbr: &Neighbor) -> (r: RouteType)
    ensures
        r == nbr_route_type(*nbr),
{
    match nbr.peer_type {
        PeerType::Internal => RouteType::Internal,
        PeerType::External => RouteType::External,
    }
}

/// The policies with the given names that are defined, in the order of the
/// names.
pub open spec fn found_policies(names: Seq<Seq<char>>, policies: Map<Seq<char>, Arc<Policy>>) -> Seq<Arc<Policy>>
    decreases names.len(),
{
    if names.len() == 0 {
        Seq::empty()
    } else {
        let rest = found_policies(names.drop_last(), policies);
        if policies.contains_key(names.last()) {
            rest.push(policies[names.last()])
        } else {
            rest
        }
    }
}

/// Whether a policy with one of the given names is not defined.
pub open spec fn policy_missing(names: Set<Seq<char>>, policies: Map<Seq<char>, Arc<Policy>>) -> bool {
    exists|n: Seq<char>| #[trigger] names.contains(n) && !policies.contains_key(n)
}

/// Looks up policies by name. Says whether one of them is not defined, and
/// returns the others.
pub fn collect_policies(names: &SortedSet<String>, shared: &InstanceShared) -> (r: (bool, Vec<Arc<Policy>>))
    requires
        names.wf(),
        shared.wf(),
    ensures
        r.0 == policy_missing(names@, shared.policies@),
        r.1@ == found_policies(names.elems(), shared.policies@),
{
    let mut missing_policy = false;
    let mut policies: Vec<Arc<Policy>> = Vec::new();
    let mut i: usize = 0;
    proof {
        elems_are_set(*names);
        assert(names.elems().take(0) =~= Seq::<Seq<char>>::empty());
    }
    while i < names.len()
        invariant
            names.wf(),
            shared.wf(),
            i <= names.elems().len(),
            forall|n: Seq<char>| #[trigger] names@.contains(n) <==> names.elems().contains(n),
            missing_policy == exists|j: int| 0 <= j < i && !shared.policies@.contains_key(#[trigger] names.elems()[j]),
            policies@ == found_policies(names.elems().take(i as int), shared.policies@),
        decreases names.elems().len() - i,
    {
        proof {
            assert(names.elems().take(i + 1).drop_last() =~= names.elems().take(i as int));
            assert(names.elems().take(i + 1).last() == names.elems()[i as int]);
        }
        match shared.policies.get(names.nth(i)) {
            Some(policy) => {
                policies.push(policy.clone());
            },
            None => {
                missing_policy = true;
            },
        }
        i += 1;
    }
    proof {
        assert(names.elems().take(i as int) =~= names.elems());
        if missing_policy {
            let j = choose|j: int| 0 <= j < i && !shared.policies@.contains_key(#[trigger] names.elems()[j]);
            assert(names.elems().contains(names.elems()[j]));
            assert(names@.contains(names.elems()[j]));
        }
        if policy_missing(names@, shared.policies@) {
            let n = choose|n: Seq<char>| #[trigger] names@.contains(n) && !shared.policies@.contains_key(n);
            assert(names.elems().contains(n));
        }
    }
    (missing_policy, policies)
}

/// Whether a neighbor has sent a route for a prefix, on any path.
pub open spec fn holds<P>(t: TableModel<P>, p: P, addr: IpAddr) -> bool {
    exists|id: u32| (#[trigger] adj_at(t, Path { prefix: p, path_id: id }, addr)).in_pre is Some
}

/// The prefixes for which a neighbor has sent a route.
pub open spec fn held_prefixes<P>(t: TableModel<P>, addr: IpAddr) -> Set<P> {
    t.prefixes.dom().filter(|p: P| holds(t, p, addr))
}

/// Whether the prefixes of a neighbor, with new ones, exceed the limit beyond
/// which the session is torn down. A prefix counts once, however many paths it
/// has.
pub open spec fn limit_exceeded<P>(nbr: Neighbor, t: TableModel<P>, afi_safi: AfiSafi, paths: Seq<Path<P>>) -> bool {
    let limit = nbr.prefix_limit_spec(afi_safi);
    limit.max_prefixes is Some && limit.teardown && held_prefixes(t, nbr.remote_addr).union(
        prefixes_of(paths).to_set(),
    ).len() > limit.max_prefixes->0
}

/// Whether a neighbor has sent a route for the prefix of a destination.
fn dest_holds<P: Ranked>(table: &RoutingTable<P>, i: usize, addr: IpAddr) -> (r: bool)
    requires
        table.wf(),
        i < table.prefixes.entries@.len(),
    ensures
        r == holds(table@, table.prefixes.entries@[i as int].0, addr),
{
    let dest = &table.prefixes.entries[i].1;
    let ghost p = table.prefixes.entries@[i as int].0;
    let ghost entries = dest.adj_rib.entries@;
    proof {
        p.view_is_value();
        entries_map_get(table.prefixes.entries@, i as int);
        assert(table.prefixes@.contains_key(p));
        assert(table@.prefixes[p] == dest@);
    }
    let mut k: usize = 0;
    while k < dest.adj_rib.entries.len()
        invariant
            dest.wf(),
            i < table.prefixes.entries@.len(),
            p == table.prefixes.entries@[i as int].0,
            table@.prefixes.contains_key(p),
            table@.prefixes[p] == dest@,
            entries == dest.adj_rib.entries@,
            k <= entries.len(),
            forall|j: int| 0 <= j < k ==> !((#[trigger] entries[j]).0.addr == addr && entries[j].1.in_pre is Some),
        decreases entries.len() - k,
    {
        if dest.adj_rib.entries[k].0.addr == addr && dest.adj_rib.entries[k].1.in_pre.is_some() {
            proof {
                let key = entries[k as int].0;
                entries_map_get(entries, k as int);
                assert(dest@.adj_rib.contains_key(key));
                assert(adj_at(table@, Path { prefix: p, path_id: key.path_id }, addr).in_pre is Some);
            }
            return true;
        }
        k += 1;
    }
    proof {
        if holds(table@, p, addr) {
            let id = choose|id: u32| (#[trigger] adj_at(table@, Path { prefix: p, path_id: id }, addr)).in_pre is Some;
            let key = PeerPath { addr, path_id: id };
            assert(dest@.adj_rib.contains_key(key));
            let j = choose|j: int| 0 <= j < entries.len() && (#[trigger] entries[j]).0@ == key;
            entries_map_get(entries, j);
        }
    }
    false
}

/// Whether a neighbor goes beyond its prefix limit with the given paths.
pub fn prefix_limit_exceeded<P: Ranked>(
    nbr: &Neighbor,
    table: &RoutingTable<P>,
    afi_safi: AfiSafi,
    paths: &Vec<Path<P>>,
) -> (r: bool)
    requires
        nbr.wf(),
        table.wf(),
    ensures
        r == limit_exceeded(*nbr, table@, afi_safi, paths@),
{
    let limit = nbr.prefix_limit(afi_safi);
    let max_prefixes: u32 = match limit.max_prefixes {
        Some(max) => max,
        None => {
            return false;
        },
    };
    if !limit.teardown {
        return false;
    }
    // Prefixes that the neighbor has sent already.
    let mut all: SortedSet<P> = SortedSet::new();
    let ghost addr = nbr.remote_addr;
    let ghost entries = table.prefixes.entries@;
    let mut i: usize = 0;
    while i < table.prefixes.entries.len()
        invariant
            table.wf(),
            all.wf(),
            addr == nbr.remote_addr,
            entries == table.prefixes.entries@,
            i <= entries.len(),
            forall|p: P| #[trigger]
                all@.contains(p) <==> exists|j: int|
                    0 <= j < i && (#[trigger] entries[j]).0@ == p && holds(table@, p, addr),
        decreases entries.len() - i,
    {
        let prefix = table.prefixes.entries[i].0;
        let ghost before = all@;
        proof {
            entries_map_get(entries, i as int);
            prefix.view_is_value();
        }
        let held = dest_holds(table, i, nbr.remote_addr);
        if held {
            all.insert(prefix);
        }
        proof {
            assert forall|p: P| #[trigger] all@.contains(p) <==> exists|j: int|
                0 <= j < i + 1 && (#[trigger] entries[j]).0@ == p && holds(table@, p, addr) by {
                if before.contains(p) {
                    let j = choose|j: int| 0 <= j < i && (#[trigger] entries[j]).0@ == p && holds(table@, p, addr);
                    assert(entries[j].0@ == p);
                }
                if held && p == prefix {
                    assert(entries[i as int].0@ == p);
                }
                if exists|j: int| 0 <= j < i + 1 && (#[trigger] entries[j]).0@ == p && holds(table@, p, addr) {
                    let j = choose|j: int| 0 <= j < i + 1 && (#[trigger] entries[j]).0@ == p && holds(table@, p, addr);
                    if j < i {
                        assert(before.contains(p));
                    }
                }
            }
        }
        i += 1;
    }
    proof {
        assert forall|p: P| all@.contains(p) <==> held_prefixes(table@, addr).contains(p) by {
            if all@.contains(p) {
                let j = choose|j: int| 0 <= j < i && (#[trigger] entries[j]).0@ == p && holds(table@, p, addr);
                entries_map_get(entries, j);
            }
            if held_prefixes(table@, addr).contains(p) {
                assert(table.prefixes@.contains_key(p));
                let j = choose|j: int| 0 <= j < entries.len() && (#[trigger] entries[j]).0@ == p;
                assert(entries[j].0@ == p);
            }
        }
        assert(all@ =~= held_prefixes(table@, addr));
    }
    // Prefixes that are new.
    let ghost held = all@;
    let ghost prefixes = prefixes_of(paths@);
    let mut j: usize = 0;
    assert(prefixes.take(0).to_set() =~= Set::<P>::empty());
    assert(all@ =~= held.union(Set::empty()));
    while j < paths.len()
        invariant
            all.wf(),
            j <= paths@.len(),
            prefixes == prefixes_of(paths@),
            all@ == held.union(prefixes.take(j as int).to_set()),
        decreases paths@.len() - j,
    {
        let p = paths[j].prefix;
        proof {
            p.view_is_value();
            taken_set(prefixes, j as int);
        }
        all.insert(p);
        assert(all@ =~= held.union(prefixes.take(j + 1).to_set()));
        j += 1;
    }
    proof {
        assert(prefixes.take(j as int) =~= prefixes);
        elems_count(all);
    }
    all.len() as u64 > max_prefixes as u64
}

/// The table after a route of a neighbor is kept as received on a path.
pub open spec fn received<P>(t: TableModel<P>, addr: IpAddr, path: Path<P>, route: Route) -> TableModel<P> {
    with_adj(t, path, addr, AdjRib { in_pre: Some(route), ..adj_at(t, path, addr) })
}

/// The table after a route of a neighbor is kept as received on several paths.
pub open spec fn received_all<P>(t: TableModel<P>, addr: IpAddr, paths: Seq<Path<P>>, route: Route) -> TableModel<P>
    decreases paths.len(),
{
    if paths.len() == 0 {
        t
    } else {
        received(received_all(t, addr, paths.drop_last(), route), addr, paths.last(), route)
    }
}

/// The routes for which import policies are asked.
pub open spec fn import_routes<A: AddressFamily>(paths: Seq<Path<A::Prefix>>, info: RoutePolicyInfo) -> Seq<
    (IpNetwork, RoutePolicyInfo),
> {
    Seq::new(paths.len(), |i: int| (A::to_ip_network_spec(paths[i].prefix), info))
}

/// The information on a received route that policies see.
pub open spec fn received_info(nbr: Neighbor, attrs: Attrs) -> RoutePolicyInfo {
    RoutePolicyInfo {
        origin: nbr_origin(nbr),
        route_type: nbr_route_type(nbr),
        tag: None,
        opaque_attrs: None,
        attrs,
    }
}

/// The request for import policies on routes of a neighbor.
pub open spec fn import_request<A: AddressFamily>(
    nbr: Neighbor,
    routes: Seq<(IpNetwork, RoutePolicyInfo)>,
    path_ids: Seq<u32>,
    shared: InstanceShared,
) -> PolicyApplyModel {
    let cfg = nbr.apply_policy_spec(A::afi_safi_spec());
    PolicyApplyModel::Neighbor {
        policy_type: PolicyType::Import,
        nbr_addr: nbr.remote_addr,
        afi_safi: A::afi_safi_spec(),
        routes,
        path_ids,
        missing_policy: policy_missing(cfg.import_policy@, shared.policies@),
        policies: found_policies(cfg.import_policy.elems(), shared.policies@),
        match_sets: shared.policy_match_sets,
        default_policy: cfg.default_import_policy,
    }
}

/// What became of received prefixes.
pub enum ReachOutcome {
    /// The address family is not in use.
    Ignored,
    /// The session is to be torn down.
    LimitExceeded,
    /// Import policies are to be applied.
    Apply(PolicyApplyMsg),
}

/// Keeps the routes that a neighbor sent, each on its path, and asks for import
/// policies to be applied to them.
pub fn process_nbr_reach_prefixes<A: AddressFamily>(
    nbr: &Neighbor,
    table: &mut RoutingTable<A::Prefix>,
    paths: Vec<Path<A::Prefix>>,
    attrs: Attrs,
    shared: &InstanceShared,
) -> (r: ReachOutcome)
    requires
        nbr.wf(),
        old(table).wf(),
        attrs.wf(),
        shared.wf(),
        nbr.af_in_use(A::afi_safi_spec()) && !limit_exceeded(
            *nbr,
            old(table)@,
            A::afi_safi_spec(),
            paths@,
        ) ==> nbr.identifier is Some,
    ensures
        final(table).wf(),
        final(table).nht == old(table).nht,
        r is Ignored <==> !nbr.af_in_use(A::afi_safi_spec()),
        r is LimitExceeded <==> nbr.af_in_use(A::afi_safi_spec()) && limit_exceeded(
            *nbr,
            old(table)@,
            A::afi_safi_spec(),
            paths@,
        ),
        !(r is Apply) ==> *final(table) == *old(table),
        r matches ReachOutcome::Apply(msg) ==> {
            &&& msg@ == import_request::<A>(
                *nbr,
                import_routes::<A>(paths@, received_info(*nbr, attrs)),
                ids_of(paths@),
                *shared,
            )
            &&& final(table)@ == received_all(
                old(table)@,
                nbr.remote_addr,
                paths@,
                Route::new_spec(nbr_origin(*nbr), attrs, nbr_route_type(*nbr)),
            )
        },
{
    // Check if the address family is enabled for this session.
    if !nbr.is_af_enabled(A::afi_safi()) {
        return ReachOutcome::Ignored;
    }
    if prefix_limit_exceeded(nbr, table, A::afi_safi(), &paths) {
        return ReachOutcome::LimitExceeded;
    }
    // Initialize route origin and type.
    let origin = RouteOrigin::Neighbor { identifier: nbr.identifier.unwrap(), remote_addr: nbr.remote_addr };
    let route_type = route_type_of(nbr);
    let ghost route = Route::new_spec(origin, attrs, route_type);
    let info = RoutePolicyInfo::new(origin, route_type, None, None, attrs.duplicate());
    // Update pre-policy Adj-RIB-In routes.
    let mut routes: Vec<(IpNetwork, RoutePolicyInfo)> = Vec::new();
    let mut i: usize = 0;
    let ghost all = import_routes::<A>(paths@, info);
    assert(paths@.take(0) =~= Seq::<Path<A::Prefix>>::empty());
    while i < paths.len()
        invariant
            attrs.wf(),
            table.wf(),
            table.nht == old(table).nht,
            route == Route::new_spec(origin, attrs, route_type),
            all == import_routes::<A>(paths@, info),
            i <= paths@.len(),
            routes@ == all.take(i as int),
            table@ == received_all(old(table)@, nbr.remote_addr, paths@.take(i as int), route),
        decreases paths@.len() - i,
    {
        let path = paths[i];
        let adj_rib = table.adj_mut(path, nbr.remote_addr);
        adj_rib.in_pre = Some(Route::new(origin, attrs.duplicate(), route_type));
        routes.push((A::prefix_to_ip_network(path.prefix), info.duplicate()));
        proof {
            assert(paths@.take(i + 1).drop_last() =~= paths@.take(i as int));
            assert(paths@.take(i + 1).last() == path);
            assert(all.take(i + 1) =~= all.take(i as int).push(all[i as int]));
        }
        i += 1;
    }
    proof {
        assert(paths@.take(i as int) =~= paths@);
        assert(all.take(i as int) =~= all);
    }
    // Enqueue import policy application.
    let cfg = nbr.apply_policy(A::afi_safi());
    let (missing_policy, policies) = collect_policies(&cfg.import_policy, shared);
    ReachOutcome::Apply(
        PolicyApplyMsg::Neighbor {
            policy_type: PolicyType::Import,
            nbr_addr: nbr.remote_addr,
            afi_safi: A::afi_safi(),
            routes,
            path_ids: path_ids(&paths),
            missing_policy,
            policies,
            match_sets: shared.policy_match_sets.clone(),
            default_policy: cfg.default_import_policy,
        },
    )
}

/// A table and the changes to next hop tracking that go with it.
#[verifier::reject_recursive_types(P)]
pub struct InState<P> {
    pub table: TableModel<P>,
    pub ops: Seq<NexthopOp<P>>,
}

/// The state after a labeled route of a neighbor is taken over without
/// policies.
pub open spec fn learned<P>(s: InState<P>, addr: IpAddr, path: Path<P>, route: Route) -> InState<P> {
    let adj = adj_at(s.table, path, addr);
    let untracked = match adj.in_post {
        Some(old) => s.ops.push(NexthopOp::Untrack { prefix: path.prefix, route: old }),
        None => s.ops,
    };
    InState {
        table: with_queued(
            with_adj(s.table, path, addr, AdjRib { in_pre: Some(route), in_post: Some(route), ..adj }),
            path.prefix,
        ),
        ops: untracked.push(NexthopOp::Track { prefix: path.prefix, route }),
    }
}

/// The state after several labeled routes of a neighbor are taken over.
pub open spec fn learned_all<P>(s: InState<P>, addr: IpAddr, ps: Seq<(Path<P>, Label)>, route: Route) -> InState<P>
    decreases ps.len(),
{
    if ps.len() == 0 {
        s
    } else {
        let (path, label) = ps.last();
        learned(
            learned_all(s, addr, ps.drop_last(), route),
            addr,
            path,
            Route { vpn_label: Some(label), ..route },
        )
    }
}

/// The paths of labeled paths.
pub open spec fn unlabeled<P>(ps: Seq<(Path<P>, Label)>) -> Seq<Path<P>> {
    Seq::new(ps.len(), |i: int| ps[i].0)
}

/// Takes over the labeled routes that a neighbor sent, both as received and as
/// accepted: their prefixes cannot be told to the policy engine. Says whether
/// the prefix limit was exceeded; nothing is taken over then.
pub fn process_nbr_reach_prefixes_pre_policy<P: Ranked>(
    nbr: &Neighbor,
    table: &mut RoutingTable<P>,
    afi_safi: AfiSafi,
    paths: Vec<(Path<P>, Label)>,
    attrs: Attrs,
    ops: &mut Vec<NexthopOp<P>>,
) -> (r: bool)
    requires
        nbr.wf(),
        old(table).wf(),
        attrs.wf(),
        nbr.af_in_use(afi_safi) && !limit_exceeded(
            *nbr,
            old(table)@,
            afi_safi,
            unlabeled(paths@),
        ) ==> nbr.identifier is Some,
    ensures
        final(table).wf(),
        final(table).nht == old(table).nht,
        r == (nbr.af_in_use(afi_safi) && limit_exceeded(
            *nbr,
            old(table)@,
            afi_safi,
            unlabeled(paths@),
        )),
        (InState { table: final(table)@, ops: final(ops)@ }) == if nbr.af_in_use(afi_safi) && !r {
            learned_all(
                InState { table: old(table)@, ops: old(ops)@ },
                nbr.remote_addr,
                paths@,
                Route::new_spec(nbr_origin(*nbr), attrs, nbr_route_type(*nbr)),
            )
        } else {
            InState { table: old(table)@, ops: old(ops)@ }
        },
{
    // Check if the address family is enabled for this session.
    if !nbr.is_af_enabled(afi_safi) {
        return false;
    }
    let mut plain: Vec<Path<P>> = Vec::new();
    let mut i: usize = 0;
    while i < paths.len()
        invariant
            i <= paths@.len(),
            plain@ == unlabeled(paths@).take(i as int),
        decreases paths@.len() - i,
    {
        plain.push(paths[i].0);
        assert(unlabeled(paths@).take(i + 1) =~= unlabeled(paths@).take(i as int).push(
            unlabeled(paths@)[i as int],
        ));
        i += 1;
    }
    assert(unlabeled(paths@).take(i as int) =~= unlabeled(paths@));
    if prefix_limit_exceeded(nbr, table, afi_safi, &plain) {
        return true;
    }
    // Initialize route origin and type.
    let origin = RouteOrigin::Neighbor { identifier: nbr.identifier.unwrap(), remote_addr: nbr.remote_addr };
    let route_type = route_type_of(nbr);
    let ghost base = Route::new_spec(origin, attrs, route_type);
    let ghost s0 = InState { table: table@, ops: ops@ };
    i = 0;
    assert(paths@.take(0) =~= Seq::<(Path<P>, Label)>::empty());
    while i < paths.len()
        invariant
            attrs.wf(),
            table.wf(),
            table.nht == old(table).nht,
            base == Route::new_spec(origin, attrs, route_type),
            i <= paths@.len(),
            (InState { table: table@, ops: ops@ }) == learned_all(
                s0,
                nbr.remote_addr,
                paths@.take(i as int),
                base,
            ),
        decreases paths@.len() - i,
    {
        let path = paths[i].0;
        let prefix = path.prefix;
        let mut route = Route::new(origin, attrs.duplicate(), route_type);
        route.vpn_label = Some(paths[i].1);
        proof {
            assert(paths@.take(i + 1).drop_last() =~= paths@.take(i as int));
            assert(paths@.take(i + 1).last() == paths@[i as int]);
        }
        let adj_rib = table.adj_mut(path, nbr.remote_addr);
        if let Some(old_route) = &adj_rib.in_post {
            ops.push(NexthopOp::Untrack { prefix, route: old_route.duplicate() });
        }
        ops.push(NexthopOp::Track { prefix, route: route.duplicate() });
        adj_rib.in_pre = Some(route.duplicate());
        adj_rib.in_post = Some(route);
        // Enqueue the prefix for the decision process.
        table.queue(prefix);
        i += 1;
    }
    assert(paths@.take(i as int) =~= paths@);
    false
}

/// The state after a path of a neighbor is withdrawn.
pub open spec fn withdrawn<P>(s: InState<P>, addr: IpAddr, path: Path<P>) -> InState<P> {
    if has_adj(s.table, path, addr) {
        let adj = adj_at(s.table, path, addr);
        InState {
            table: with_queued(
                with_adj(s.table, path, addr, AdjRib { in_pre: None, in_post: None, ..adj }),
                path.prefix,
            ),
            ops: match adj.in_post {
                Some(route) => s.ops.push(NexthopOp::Untrack { prefix: path.prefix, route }),
                None => s.ops,
            },
        }
    } else {
        s
    }
}

/// The state after several paths of a neighbor are withdrawn.
pub open spec fn withdrawn_all<P>(s: InState<P>, addr: IpAddr, ps: Seq<Path<P>>) -> InState<P>
    decreases ps.len(),
{
    if ps.len() == 0 {
        s
    } else {
        withdrawn(withdrawn_all(s, addr, ps.drop_last()), addr, ps.last())
    }
}

/// Removes the routes of a neighbor on some paths.
fn withdraw_paths<P: Ranked>(
    addr: IpAddr,
    table: &mut RoutingTable<P>,
    paths: &Vec<Path<P>>,
    ops: &mut Vec<NexthopOp<P>>,
)
    requires
        old(table).wf(),
    ensures
        final(table).wf(),
        final(table).nht == old(table).nht,
        (InState { table: final(table)@, ops: final(ops)@ }) == withdrawn_all(
            InState { table: old(table)@, ops: old(ops)@ },
            addr,
            paths@,
        ),
{
    let ghost s0 = InState { table: table@, ops: ops@ };
    let mut i: usize = 0;
    assert(paths@.take(0) =~= Seq::<Path<P>>::empty());
    while i < paths.len()
        invariant
            table.wf(),
            table.nht == old(table).nht,
            i <= paths@.len(),
            (InState { table: table@, ops: ops@ }) == withdrawn_all(s0, addr, paths@.take(i as int)),
        decreases paths@.len() - i,
    {
        let path = paths[i];
        proof {
            assert(paths@.take(i + 1).drop_last() =~= paths@.take(i as int));
            assert(paths@.take(i + 1).last() == path);
        }
        if table.adj_get(path, addr).is_some() {
            let adj_rib = table.adj_mut(path, addr);
            adj_rib.in_pre = None;
            if let Some(route) = adj_rib.in_post.take() {
                ops.push(NexthopOp::Untrack { prefix: path.prefix, route });
            }
            // Enqueue the prefix for the decision process.
            table.queue(path.prefix);
        }
        i += 1;
    }
    assert(paths@.take(i as int) =~= paths@);
}

/// Removes the routes that a neighbor withdrew.
pub fn process_nbr_unreach_prefixes<P: Ranked>(
    nbr: &Neighbor,
    table: &mut RoutingTable<P>,
    afi_safi: AfiSafi,
    paths: &Vec<Path<P>>,
    ops: &mut Vec<NexthopOp<P>>,
)
    requires
        nbr.wf(),
        old(table).wf(),
    ensures
        final(table).wf(),
        final(table).nht == old(table).nht,
        (InState { table: final(table)@, ops: final(ops)@ }) == if nbr.af_in_use(afi_safi) {
            withdrawn_all(InState { table: old(table)@, ops: old(ops)@ }, nbr.remote_addr, paths@)
        } else {
            InState { table: old(table)@, ops: old(ops)@ }
        },
{
    // Check if the address family is enabled for this session.
    if !nbr.is_af_enabled(afi_safi) {
        return;
    }
    withdraw_paths(nbr.remote_addr, table, paths, ops);
}

/// The segment that is withdrawn with an EVPN route, if any.
pub open spec fn withdrawn_segment(route: EvpnRoute) -> Option<EthernetSegmentId> {
    match route {
        EvpnRoute::EthernetAutoDiscovery(r) => if r.ethernet_tag_id == MAX_ETHERNET_TAG_ID && r.label == 0 {
            Some(r.esi)
        } else {
            None
        },
        EvpnRoute::EthernetSegment(r) => Some(r.esi),
        _ => None,
    }
}

/// The segments that are withdrawn with EVPN routes, in order.
pub open spec fn withdrawn_segments(routes: Seq<EvpnRoute>) -> Seq<EthernetSegmentId>
    decreases routes.len(),
{
    if routes.len() == 0 {
        Seq::empty()
    } else {
        let rest = withdrawn_segments(routes.drop_last());
        match withdrawn_segment(routes.last()) {
            Some(esi) => rest.push(esi),
            None => rest,
        }
    }
}

/// The MAC/IP routes among some routes, with the peers that announced them.
pub open spec fn announced_macs(routes: Seq<PeerRoute<EvpnRoute>>) -> Seq<(IpAddr, EvpnRoute)>
    decreases routes.len(),
{
    if routes.len() == 0 {
        Seq::empty()
    } else {
        let rest = announced_macs(routes.drop_last());
        match routes.last().route.origin {
            RouteOrigin::Neighbor { remote_addr, .. } => if routes.last().prefix is MacIpAdvertisement {
                rest.push((remote_addr, routes.last().prefix))
            } else {
                rest
            },
            RouteOrigin::Protocol(_) => rest,
        }
    }
}

/// The routes that a mass withdrawal of a segment removes, in the order of the
/// table.
pub open spec fn mass_withdrawn_routes(t: TableModel<EvpnRoute>, addr: IpAddr, esi: Seq<u8>) -> Seq<EvpnRoute> {
    let accepted = table_routes(t, in_order::<EvpnRoute>(t.prefixes.dom()), AdjSide::InPost, Some(addr));
    mass_withdrawn(announced_macs(accepted), addr, esi)
}

/// The paths that a mass withdrawal of a segment removes: all that the neighbor
/// has for the routes of the segment.
pub open spec fn mass_withdrawn_paths(t: TableModel<EvpnRoute>, addr: IpAddr, esi: Seq<u8>) -> Seq<Path<EvpnRoute>> {
    route_paths(table_routes(t, mass_withdrawn_routes(t, addr, esi), AdjSide::InPost, Some(addr)))
}

/// The state after a mass withdrawal of a segment.
pub open spec fn segment_withdrawn(s: InState<EvpnRoute>, addr: IpAddr, esi: Seq<u8>) -> InState<EvpnRoute> {
    withdrawn_all(s, addr, mass_withdrawn_paths(s.table, addr, esi))
}

/// The state after mass withdrawals of several segments.
pub open spec fn segments_withdrawn(
    s: InState<EvpnRoute>,
    addr: IpAddr,
    esis: Seq<EthernetSegmentId>,
) -> InState<EvpnRoute>
    decreases esis.len(),
{
    if esis.len() == 0 {
        s
    } else {
        segment_withdrawn(segments_withdrawn(s, addr, esis.drop_last()), addr, esis.last()@)
    }
}

/// The state after EVPN routes are withdrawn, and with them the segments that
/// they stand for.
pub open spec fn evpn_withdrawn(
    s: InState<EvpnRoute>,
    nbr: Neighbor,
    paths: Seq<Path<EvpnRoute>>,
) -> InState<EvpnRoute> {
    segments_withdrawn(
        if nbr.af_in_use(AfiSafi::L2vpnEvpn) {
            withdrawn_all(s, nbr.remote_addr, paths)
        } else {
            s
        },
        nbr.remote_addr,
        withdrawn_segments(prefixes_of(paths)),
    )
}

/// Removes the MAC/IP routes of a neighbor that belong to a withdrawn segment.
pub fn process_evpn_mass_withdraw(
    nbr: &Neighbor,
    table: &mut RoutingTable<EvpnRoute>,
    esi: EthernetSegmentId,
    ops: &mut Vec<NexthopOp<EvpnRoute>>,
)
    requires
        old(table).wf(),
    ensures
        final(table).wf(),
        final(table).nht == old(table).nht,
        (InState { table: final(table)@, ops: final(ops)@ }) == segment_withdrawn(
            InState { table: old(table)@, ops: old(ops)@ },
            nbr.remote_addr,
            esi@,
        ),
{
    let accepted = list_routes(table, &table_prefixes(table), AdjSide::InPost, Some(nbr.remote_addr));
    let mut routes: Vec<(IpAddr, EvpnRoute)> = Vec::new();
    let mut i: usize = 0;
    assert(accepted@.take(0) =~= Seq::<PeerRoute<EvpnRoute>>::empty());
    while i < accepted.len()
        invariant
            i <= accepted@.len(),
            routes@ == announced_macs(accepted@.take(i as int)),
        decreases accepted@.len() - i,
    {
        proof {
            assert(accepted@.take(i + 1).drop_last() =~= accepted@.take(i as int));
            assert(accepted@.take(i + 1).last() == accepted@[i as int]);
        }
        let prefix = accepted[i].prefix;
        if let RouteOrigin::Neighbor { remote_addr, .. } = accepted[i].route.origin {
            if matches!(prefix, EvpnRoute::MacIpAdvertisement(_)) {
                routes.push((remote_addr, prefix));
            }
        }
        i += 1;
    }
    assert(accepted@.take(i as int) =~= accepted@);
    let prefixes = mass_withdraw_mac_routes(routes.as_slice(), nbr.remote_addr, esi);
    let paths = to_route_paths(&list_routes(table, &prefixes, AdjSide::InPost, Some(nbr.remote_addr)));
    withdraw_paths(nbr.remote_addr, table, &paths, ops);
}

/// Removes the EVPN routes that a neighbor withdrew. With a route that stands
/// for a segment, the MAC/IP routes of that segment go too.
pub fn process_evpn_unreach_routes(
    nbr: &Neighbor,
    table: &mut RoutingTable<EvpnRoute>,
    paths: &Vec<Path<EvpnRoute>>,
    ops: &mut Vec<NexthopOp<EvpnRoute>>,
)
    requires
        nbr.wf(),
        old(table).wf(),
    ensures
        final(table).wf(),
        final(table).nht == old(table).nht,
        (InState { table: final(table)@, ops: final(ops)@ }) == evpn_withdrawn(
            InState { table: old(table)@, ops: old(ops)@ },
            *nbr,
            paths@,
        ),
{
    let routes = path_prefixes(paths);
    let mut esis: Vec<EthernetSegmentId> = Vec::new();
    let mut i: usize = 0;
    assert(routes@.take(0) =~= Seq::<EvpnRoute>::empty());
    while i < routes.len()
        invariant
            i <= routes@.len(),
            esis@ == withdrawn_segments(routes@.take(i as int)),
        decreases routes@.len() - i,
    {
        proof {
            assert(routes@.take(i + 1).drop_last() =~= routes@.take(i as int));
            assert(routes@.take(i + 1).last() == routes@[i as int]);
        }
        match &routes[i] {
            EvpnRoute::EthernetAutoDiscovery(route) => {
                if ead_per_es(route.ethernet_tag_id, route.label) {
                    esis.push(route.esi);
                }
            },
            EvpnRoute::EthernetSegment(route) => {
                esis.push(route.esi);
            },
            _ => {},
        }
        i += 1;
    }
    assert(routes@.take(i as int) =~= routes@);
    process_nbr_unreach_prefixes(nbr, table, AfiSafi::L2vpnEvpn, paths, ops);
    let ghost s0 = InState { table: table@, ops: ops@ };
    let mut j: usize = 0;
    assert(esis@.take(0) =~= Seq::<EthernetSegmentId>::empty());
    while j < esis.len()
        invariant
            table.wf(),
            table.nht == old(table).nht,
            j <= esis@.len(),
            (InState { table: table@, ops: ops@ }) == segments_withdrawn(
                s0,
                nbr.remote_addr,
                esis@.take(j as int),
            ),
        decreases esis@.len() - j,
    {
        proof {
            assert(esis@.take(j + 1).drop_last() =~= esis@.take(j as int));
            assert(esis@.take(j + 1).last() == esis@[j as int]);
        }
        process_evpn_mass_withdraw(nbr, table, esis[j], ops);
        j += 1;
    }
    assert(esis@.take(j as int) =~= esis@);
}

/// What policies are told of routes.
pub open spec fn policy_routes<A: AddressFamily>(routes: Seq<PeerRoute<A::Prefix>>) -> Seq<
    (IpNetwork, RoutePolicyInfo),
> {
    Seq::new(
        routes.len(),
        |i: int| (A::to_ip_network_spec(routes[i].prefix), routes[i].route.policy_info_spec()),
    )
}

/// All retained routes of a neighbor as they were received, on every path and
/// in the order of the table.
pub open spec fn all_retained<P: Ranked>(t: TableModel<P>, addr: IpAddr) -> Seq<PeerRoute<P>> {
    table_routes(t, in_order::<P>(t.prefixes.dom()), AdjSide::InPre, Some(addr))
}

/// The request for import policies on the retained routes of a neighbor.
pub open spec fn retained_request<A: AddressFamily>(
    nbr: Neighbor,
    t: TableModel<A::Prefix>,
    shared: InstanceShared,
) -> PolicyApplyModel {
    let retained = all_retained(t, nbr.remote_addr);
    import_request::<A>(nbr, policy_routes::<A>(retained), ids_of(route_paths(retained)), shared)
}

/// Whether import policies can be applied again to the routes of a neighbor.
pub open spec fn reapplies<A: AddressFamily>(nbr: Neighbor, t: TableModel<A::Prefix>) -> bool {
    nbr.state == State::Established && nbr.af_in_use(A::afi_safi_spec()) && all_retained(
        t,
        nbr.remote_addr,
    ).len() > 0
}

/// Asks for import policies to be applied again to the routes of a neighbor:
/// to those retained as they were received, never to those that policies
/// changed.
pub fn reapply_nbr_import_policy_for_nbr<A: AddressFamily>(
    table: &RoutingTable<A::Prefix>,
    shared: &InstanceShared,
    nbr: &Neighbor,
) -> (r: Option<PolicyApplyMsg>)
    requires
        table.wf(),
        shared.wf(),
        nbr.wf(),
    ensures
        r is Some <==> reapplies::<A>(*nbr, table@),
        r matches Some(msg) ==> msg@ == retained_request::<A>(*nbr, table@, *shared),
{
    if nbr.state != State::Established || !nbr.is_af_enabled(A::afi_safi()) {
        return None;
    }
    let cfg = nbr.apply_policy(A::afi_safi());
    let (missing_policy, policies) = collect_policies(&cfg.import_policy, shared);
    let retained = list_routes(table, &table_prefixes(table), AdjSide::InPre, Some(nbr.remote_addr));
    if retained.len() == 0 {
        return None;
    }
    let mut routes: Vec<(IpNetwork, RoutePolicyInfo)> = Vec::new();
    let ghost all = policy_routes::<A>(retained@);
    let mut i: usize = 0;
    while i < retained.len()
        invariant
            all == policy_routes::<A>(retained@),
            i <= retained@.len(),
            routes@ == all.take(i as int),
        decreases retained@.len() - i,
    {
        routes.push((A::prefix_to_ip_network(retained[i].prefix), retained[i].route.policy_info()));
        assert(all.take(i + 1) =~= all.take(i as int).push(all[i as int]));
        i += 1;
    }
    assert(all.take(i as int) =~= all);
    Some(
        PolicyApplyMsg::Neighbor {
            policy_type: PolicyType::Import,
            nbr_addr: nbr.remote_addr,
            afi_safi: A::afi_safi(),
            routes,
            path_ids: path_ids(&to_route_paths(&retained)),
            missing_policy,
            policies,
            match_sets: shared.policy_match_sets.clone(),
            default_policy: cfg.default_import_policy,
        },
    )
}

/// Every neighbor is well formed and kept under its address.
pub open spec fn neighbors_wf(neighbors: Neighbors) -> bool {
    &&& neighbors.wf()
    &&& forall|a: IpAddr| #[trigger]
        neighbors@.contains_key(a) ==> neighbors@[a].wf() && neighbors@[a].remote_addr == a
}

/// Asks for import policies to be applied again to the routes of the neighbor
/// with an address.
pub fn reapply_nbr_import_policy<A: AddressFamily>(
    table: &RoutingTable<A::Prefix>,
    shared: &InstanceShared,
    neighbors: &Neighbors,
    nbr_addr: IpAddr,
) -> (r: Option<PolicyApplyMsg>)
    requires
        table.wf(),
        shared.wf(),
        neighbors_wf(*neighbors),
    ensures
        r is Some <==> neighbors@.contains_key(nbr_addr) && reapplies::<A>(neighbors@[nbr_addr], table@),
        r matches Some(msg) ==> msg@ == retained_request::<A>(neighbors@[nbr_addr], table@, *shared),
{
    match neighbors.get(&nbr_addr) {
        Some(nbr) => reapply_nbr_import_policy_for_nbr::<A>(table, shared, nbr),
        None => None,
    }
}

/// The requests for import policies on the retained routes of several
/// neighbors.
pub open spec fn reapply_requests<A: AddressFamily>(
    t: TableModel<A::Prefix>,
    shared: InstanceShared,
    nbrs: Seq<Neighbor>,
) -> Seq<PolicyApplyModel>
    decreases nbrs.len(),
{
    if nbrs.len() == 0 {
        Seq::empty()
    } else {
        let rest = reapply_requests::<A>(t, shared, nbrs.drop_last());
        if reapplies::<A>(nbrs.last(), t) {
            rest.push(retained_request::<A>(nbrs.last(), t, shared))
        } else {
            rest
        }
    }
}

/// The neighbors in the order of their addresses.
pub open spec fn nbr_list(neighbors: Neighbors) -> Seq<Neighbor> {
    Seq::new(neighbors.entries@.len(), |i: int| neighbors.entries@[i].1)
}

/// Requests as mathematical values.
pub open spec fn apply_models(msgs: Seq<PolicyApplyMsg>) -> Seq<PolicyApplyModel> {
    Seq::new(msgs.len(), |i: int| msgs[i]@)
}

/// Asks for import policies to be applied again to the routes of all
/// neighbors.
pub fn reapply_import_policy_all<A: AddressFamily>(
    table: &RoutingTable<A::Prefix>,
    shared: &InstanceShared,
    neighbors: &Neighbors,
) -> (r: Vec<PolicyApplyMsg>)
    requires
        table.wf(),
        shared.wf(),
        neighbors_wf(*neighbors),
    ensures
        apply_models(r@) == reapply_requests::<A>(table@, *shared, nbr_list(*neighbors)),
{
    let mut r: Vec<PolicyApplyMsg> = Vec::new();
    let ghost nbrs = nbr_list(*neighbors);
    let mut i: usize = 0;
    assert(nbrs.take(0) =~= Seq::<Neighbor>::empty());
    assert(apply_models(r@) =~= Seq::<PolicyApplyModel>::empty());
    while i < neighbors.entries.len()
        invariant
            table.wf(),
            shared.wf(),
            neighbors_wf(*neighbors),
            nbrs == nbr_list(*neighbors),
            i <= nbrs.len(),
            apply_models(r@) == reapply_requests::<A>(table@, *shared, nbrs.take(i as int)),
        decreases nbrs.len() - i,
    {
        proof {
            entries_map_get(neighbors.entries@, i as int);
            assert(neighbors@.contains_key(neighbors.entries@[i as int].0@));
            assert(nbrs.take(i + 1).drop_last() =~= nbrs.take(i as int));
            assert(nbrs.take(i + 1).last() == nbrs[i as int]);
        }
        let nbr_addr = neighbors.entries[i].0;
        if let Some(msg) = reapply_nbr_import_policy::<A>(table, shared, neighbors, nbr_addr) {
            assert(apply_models(r@.push(msg)) =~= apply_models(r@).push(msg@));
            r.push(msg);
        }
        i += 1;
    }
    assert(nbrs.take(i as int) =~= nbrs);
    r
}

}
