//! What the routing core tells BGP.
use crate::af::AddressFamily;
use crate::af::Ipv4Unicast;
use crate::af::Ipv6Unicast;
use crate::af::Vpnv4Prefix;
use crate::af::Vpnv6Prefix;
use crate::attribute::default_attrs;
use crate::attribute::Attrs;
use crate::attribute::AttrsModel;
use crate::attribute::CommList;
use crate::bgp::rt_bytes;
use crate::bgp::ExtComm;
use crate::bgp::RouteTarget;
use crate::bgp::RouteType;
use crate::events::collect_policies;
use crate::events::found_policies;
use crate::events::policy_missing;
use crate::events::PolicyApplyModel;
use crate::events::PolicyApplyMsg;
use crate::instance::InstanceCfg;
use crate::instance::InstanceSys;
use crate::ip::IpAddr;
use crate::ip::IpNetwork;
use crate::ip::Ipv4Addr;
use crate::ord::elems_are_set;
use crate::ord::entries_map_get;
use crate::ord::Ranked;
use crate::ord::SortedSet;
use crate::policy::RoutePolicyInfo;
use crate::protocol::Protocol;
use crate::rib::same_tracking;
use crate::rib::dest_at;
use crate::rib::with_dest;
use crate::rib::with_queued;
use crate::rib::DestModel;
use crate::rib::NhtEntry;
use crate::rib::Route;
use crate::rib::RouteOrigin;
use crate::rib::RoutingTable;
use crate::rib::RoutingTables;
use crate::rib::TableModel;
use crate::shared::InstanceShared;
use crate::shared::VpnExport;
use crate::southbound::RouteKeyMsg;
use crate::southbound::RouteMsg;
use crate::text::same_text;
use std::sync::Arc;
use vstd::prelude::*;

verus! {

/// Takes note of the router identifier. The instance is to be updated
/// afterwards.
pub fn process_router_id_update(system: &mut InstanceSys, router_id: Option<Ipv4Addr>)
    ensures
        *final(system) == (InstanceSys { router_id }),
{
    system.router_id = router_id;
}

/// Whether the change of a next hop reached a table: where it is tracked, its
/// metric is set and the prefixes that depend on it are queued.
pub open spec fn nht_updated<P: Ranked>(
    before: RoutingTable<P>,
    after: RoutingTable<P>,
    addr: IpAddr,
    metric: Option<u32>,
) -> bool {
    if before.nht@.contains_key(addr) {
        &&& after.prefixes == before.prefixes
        &&& after.nht@ == before.nht@.insert(addr, NhtEntry { metric, ..before.nht@[addr] })
        &&& after.queued_prefixes@ == before.queued_prefixes@.union(before.nht@[addr].prefixes@.dom())
    } else {
        after == before
    }
}

/// Takes in the metric of a next hop in a table. Says whether the decision
/// process is to be scheduled.
pub fn process_nht_update_af<P: Ranked>(table: &mut RoutingTable<P>, addr: IpAddr, metric: Option<u32>) -> (r: bool)
    requires
        old(table).wf(),
    ensures
        final(table).wf(),
        r == old(table).nht@.contains_key(addr),
        nht_updated(*old(table), *final(table), addr, metric),
{
    let mut keys: SortedSet<P> = SortedSet::new();
    match table.nht.get_mut(&addr) {
        Some(nht) => {
            nht.metric = metric;
            let ghost entries = nht.prefixes.entries@;
            let mut i: usize = 0;
            while i < nht.prefixes.entries.len()
                invariant
                    nht.prefixes.wf(),
                    entries == nht.prefixes.entries@,
                    keys.wf(),
                    i <= entries.len(),
                    forall|p: P| #[trigger] keys@.contains(p) <==> exists|j: int|
                        0 <= j < i && (#[trigger] entries[j]).0@ == p,
                decreases entries.len() - i,
            {
                let prefix = nht.prefixes.entries[i].0;
                let ghost before = keys@;
                keys.insert(prefix);
                proof {
                    assert forall|p: P| #[trigger] keys@.contains(p) <==> exists|j: int|
                        0 <= j < i + 1 && (#[trigger] entries[j]).0@ == p by {
                        if before.contains(p) {
                            let j = choose|j: int| 0 <= j < i && (#[trigger] entries[j]).0@ == p;
                            assert(entries[j].0@ == p);
                        } else if keys@.contains(p) {
                            assert(entries[i as int].0@ == p);
                        }
                        if exists|j: int| 0 <= j < i + 1 && (#[trigger] entries[j]).0@ == p {
                            let j = choose|j: int| 0 <= j < i + 1 && (#[trigger] entries[j]).0@ == p;
                            if j < i {
                                assert(before.contains(p));
                            }
                        }
                    }
                }
                i += 1;
            }
            proof {
                assert forall|p: P| keys@.contains(p) <==> nht.prefixes@.dom().contains(p) by {
                    if keys@.contains(p) {
                        let j = choose|j: int| 0 <= j < i && (#[trigger] entries[j]).0@ == p;
                        entries_map_get(entries, j);
                    }
                }
                assert(keys@ =~= nht.prefixes@.dom());
            }
        },
        None => {
            return false;
        },
    }
    table.queued_prefixes.extend(&keys);
    true
}

/// Takes in the metric of a next hop. Says whether the decision process is to
/// be scheduled.
pub fn process_nht_update(tables: &mut RoutingTables, addr: IpAddr, metric: Option<u32>) -> (r: bool)
    requires
        old(tables).wf(),
    ensures
        final(tables).wf(),
        nht_updated(old(tables).ipv4_unicast, final(tables).ipv4_unicast, addr, metric),
        nht_updated(old(tables).ipv6_unicast, final(tables).ipv6_unicast, addr, metric),
        nht_updated(old(tables).vpnv4_unicast, final(tables).vpnv4_unicast, addr, metric),
        nht_updated(old(tables).vpnv6_unicast, final(tables).vpnv6_unicast, addr, metric),
        final(tables).l2vpn_evpn == old(tables).l2vpn_evpn,
        r == (old(tables).ipv4_unicast.nht@.contains_key(addr) || old(tables).ipv6_unicast.nht@.contains_key(addr)
            || old(tables).vpnv4_unicast.nht@.contains_key(addr) || old(tables).vpnv6_unicast.nht@.contains_key(addr)),
{
    let ipv4 = process_nht_update_af(&mut tables.ipv4_unicast, addr, metric);
    let ipv6 = process_nht_update_af(&mut tables.ipv6_unicast, addr, metric);
    let vpnv4 = process_nht_update_af(&mut tables.vpnv4_unicast, addr, metric);
    let vpnv6 = process_nht_update_af(&mut tables.vpnv6_unicast, addr, metric);
    ipv4 || ipv6 || vpnv4 || vpnv6
}

/// The request for import policies on a redistributed route.
pub open spec fn redistribute_request<A: AddressFamily>(
    config: InstanceCfg,
    msg: RouteMsg,
    route: RoutePolicyInfo,
    shared: InstanceShared,
) -> PolicyApplyModel {
    let cfg = config.apply_policy_spec(A::afi_safi_spec());
    PolicyApplyModel::Redistribute {
        afi_safi: A::afi_safi_spec(),
        prefix: msg.prefix,
        route,
        missing_policy: policy_missing(cfg.import_policy@, shared.policies@),
        policies: found_policies(cfg.import_policy.elems(), shared.policies@),
        match_sets: shared.policy_match_sets,
        default_policy: cfg.default_import_policy,
    }
}

/// Whether policies are told of a redistributed route what came with it.
pub open spec fn redistributed_info(info: RoutePolicyInfo, msg: RouteMsg) -> bool {
    &&& info.origin == RouteOrigin::Protocol(msg.protocol)
    &&& info.route_type == RouteType::Internal
    &&& info.tag == msg.tag
    &&& info.opaque_attrs == Some(msg.opaque_attrs)
    &&& info.attrs.wf()
    &&& info.attrs@ == default_attrs()
}

/// Asks for import policies on a route of another protocol, if its routes are
/// redistributed.
pub fn process_route_add_af<A: AddressFamily>(config: &InstanceCfg, msg: &RouteMsg, shared: &InstanceShared) -> (r:
    Option<PolicyApplyMsg>)
    requires
        config.wf(),
        shared.wf(),
    ensures
        r is Some <==> config.redistributes(A::afi_safi_spec(), msg.protocol),
        r matches Some(req) ==> exists|info: RoutePolicyInfo| #[trigger]
            redistributed_info(info, *msg) && req@ == redistribute_request::<A>(*config, *msg, info, *shared),
{
    // Check if redistribution is enabled for this address family and route
    // protocol.
    if !config.is_redistributed(A::afi_safi(), msg.protocol) {
        return None;
    }
    let cfg = config.apply_policy(A::afi_safi());
    let (missing_policy, policies) = collect_policies(&cfg.import_policy, shared);
    let route = RoutePolicyInfo::new(
        RouteOrigin::Protocol(msg.protocol),
        RouteType::Internal,
        msg.tag,
        Some(msg.opaque_attrs),
        Attrs::default(),
    );
    assert(redistributed_info(route, *msg));
    Some(
        PolicyApplyMsg::Redistribute {
            afi_safi: A::afi_safi(),
            prefix: msg.prefix,
            route,
            missing_policy,
            policies,
            match_sets: shared.policy_match_sets.clone(),
            default_policy: cfg.default_import_policy,
        },
    )
}

/// The table after a redistributed route is removed.
pub open spec fn redistribution_removed<P>(t: TableModel<P>, p: P) -> TableModel<P> {
    with_queued(with_dest(t, p, DestModel { redistribute: None, ..dest_at(t, p) }), p)
}

/// Removes a route of another protocol, if its routes are redistributed. Says
/// whether the decision process is to be scheduled.
pub fn process_route_del_af<A: AddressFamily>(
    config: &InstanceCfg,
    table: &mut RoutingTable<A::Prefix>,
    prefix: IpNetwork,
    protocol: Protocol,
) -> (r: bool)
    requires
        config.wf(),
        old(table).wf(),
        A::from_ip_network_spec(prefix) is Some,
    ensures
        final(table).wf(),
        r == config.redistributes(A::afi_safi_spec(), protocol),
        r ==> final(table)@ == redistribution_removed(old(table)@, A::from_ip_network_spec(prefix)->0)
            && final(table).nht == old(table).nht,
        !r ==> *final(table) == *old(table),
{
    // Check if redistribution is enabled for this address family and route
    // protocol.
    if !config.is_redistributed(A::afi_safi(), protocol) {
        return false;
    }
    let prefix = A::prefix_from_ip_network(prefix).unwrap();
    let dest = table.dest_mut(prefix);
    // Remove redistributed route.
    dest.redistribute = None;
    // Enqueue the prefix for the decision process.
    table.queue(prefix);
    true
}

/// The extended communities of route targets.
pub open spec fn is_rt_comms(comms: Set<ExtComm>, rts: Set<RouteTarget>) -> bool {
    forall|c: ExtComm| #[trigger]
        comms.contains(c) <==> exists|rt: RouteTarget| #[trigger] rts.contains(rt) && c.0@ == rt_bytes(rt)
}

fn rt_comms(rts: &SortedSet<RouteTarget>) -> (r: SortedSet<ExtComm>)
    requires
        rts.wf(),
    ensures
        r.wf(),
        is_rt_comms(r@, rts@),
{
    let mut r: SortedSet<ExtComm> = SortedSet::new();
    let ghost elems = rts.elems();
    let mut i: usize = 0;
    while i < rts.len()
        invariant
            elems == rts.elems(),
            i <= elems.len(),
            r.wf(),
            forall|c: ExtComm| #[trigger]
                r@.contains(c) <==> exists|j: int| 0 <= j < i && c.0@ == rt_bytes(#[trigger] elems[j]),
        decreases elems.len() - i,
    {
        let comm = rts.nth(i).to_ext_comm();
        let ghost before = r@;
        r.insert(comm);
        proof {
            assert forall|c: ExtComm| #[trigger] r@.contains(c) <==> exists|j: int|
                0 <= j < i + 1 && c.0@ == rt_bytes(#[trigger] elems[j]) by {
                if before.contains(c) {
                    let j = choose|j: int| 0 <= j < i && c.0@ == rt_bytes(#[trigger] elems[j]);
                    assert(c.0@ == rt_bytes(elems[j]));
                } else if r@.contains(c) {
                    assert(c.0@ == rt_bytes(elems[i as int]));
                }
                if exists|j: int| 0 <= j < i + 1 && c.0@ == rt_bytes(#[trigger] elems[j]) {
                    let j = choose|j: int| 0 <= j < i + 1 && c.0@ == rt_bytes(#[trigger] elems[j]);
                    if j < i {
                        assert(before.contains(c));
                    } else {
                        assert(c.0 =~= comm.0);
                    }
                }
            }
        }
        i += 1;
    }
    proof {
        elems_are_set(*rts);
        assert forall|c: ExtComm| #[trigger] r@.contains(c) <==> exists|rt: RouteTarget| #[trigger]
            rts@.contains(rt) && c.0@ == rt_bytes(rt) by {
            if r@.contains(c) {
                let j = choose|j: int| 0 <= j < i && c.0@ == rt_bytes(#[trigger] elems[j]);
                assert(elems.contains(elems[j]));
                assert(rts@.contains(elems[j]));
            }
            if exists|rt: RouteTarget| #[trigger] rts@.contains(rt) && c.0@ == rt_bytes(rt) {
                let rt = choose|rt: RouteTarget| #[trigger] rts@.contains(rt) && c.0@ == rt_bytes(rt);
                assert(elems.contains(rt));
                let j = choose|j: int| 0 <= j < elems.len() && elems[j] == rt;
                assert(c.0@ == rt_bytes(elems[j]));
            }
        }
    }
    r
}

/// Whether a route is that under which a route of a protocol is exported to a
/// VPN: with its route targets and its label.
pub open spec fn is_export_route(route: Route, export: VpnExport, protocol: Protocol) -> bool {
    &&& route.origin == RouteOrigin::Protocol(protocol)
    &&& route.route_type == RouteType::Internal
    &&& route.vpn_label == Some(export.label)
    &&& route.igp_cost is None
    &&& route.attrs.wf()
    &&& route.attrs@.ext_comm matches Some(comms) && is_rt_comms(comms, export.export_rts@)
    &&& route.attrs@ == (AttrsModel { ext_comm: route.attrs@.ext_comm, ..default_attrs() })
}

/// The VPN to which a table is exported: that of the network instance that the
/// table belongs to, where this instance serves the default one.
pub open spec fn export_of(network_instance: Seq<char>, table_id: Option<u32>, shared: InstanceShared) -> Option<
    VpnExport,
> {
    if network_instance == "default"@ && table_id is Some && shared.vpn_exports@.contains_key(table_id->0) {
        Some(shared.vpn_exports@[table_id->0])
    } else {
        None
    }
}

/// The table with a route that is exported to a VPN.
pub open spec fn exported_to<P>(t: TableModel<P>, p: P, route: Route) -> TableModel<P> {
    with_queued(with_dest(t, p, DestModel { redistribute: Some(route), ..dest_at(t, p) }), p)
}

/// The table without a route that was exported to a VPN.
pub open spec fn export_removed<P>(t: TableModel<P>, p: P) -> TableModel<P> {
    if t.prefixes.contains_key(p) {
        with_queued(with_dest(t, p, DestModel { redistribute: None, ..t.prefixes[p] }), p)
    } else {
        t
    }
}

fn export_lookup<'a>(network_instance: &str, table_id: Option<u32>, shared: &'a InstanceShared) -> (r: Option<
    &'a VpnExport,
>)
    requires
        shared.wf(),
    ensures
        match r {
            Some(e) => export_of(network_instance@, table_id, *shared) == Some(*e) && e.export_rts.wf(),
            None => export_of(network_instance@, table_id, *shared) is None,
        },
{
    if !same_text(network_instance, "default") {
        return None;
    }
    match table_id {
        Some(table_id) => shared.vpn_exports.get(&table_id),
        None => None,
    }
}

/// Puts a route of another protocol into the VPN to which its table is
/// exported. Says whether the decision process is to be scheduled.
pub fn vpn_export_route_add(
    network_instance: &str,
    tables: &mut RoutingTables,
    msg: &RouteMsg,
    shared: &InstanceShared,
) -> (r: bool)
    requires
        old(tables).wf(),
        shared.wf(),
    ensures
        final(tables).wf(),
        same_tracking(*final(tables), *old(tables)),
        r == (export_of(network_instance@, msg.table_id, *shared) is Some),
        final(tables).ipv4_unicast == old(tables).ipv4_unicast,
        final(tables).ipv6_unicast == old(tables).ipv6_unicast,
        final(tables).l2vpn_evpn == old(tables).l2vpn_evpn,
        match (export_of(network_instance@, msg.table_id, *shared), msg.prefix) {
            (Some(export), IpNetwork::V4(prefix)) => {
                &&& final(tables).vpnv6_unicast == old(tables).vpnv6_unicast
                &&& exists|route: Route| #[trigger]
                    is_export_route(route, export, msg.protocol) && final(tables).vpnv4_unicast@ == exported_to(
                        old(tables).vpnv4_unicast@,
                        Vpnv4Prefix { rd: export.rd, prefix },
                        route,
                    )
            },
            (Some(export), IpNetwork::V6(prefix)) => {
                &&& final(tables).vpnv4_unicast == old(tables).vpnv4_unicast
                &&& exists|route: Route| #[trigger]
                    is_export_route(route, export, msg.protocol) && final(tables).vpnv6_unicast@ == exported_to(
                        old(tables).vpnv6_unicast@,
                        Vpnv6Prefix { rd: export.rd, prefix },
                        route,
                    )
            },
            (None, _) => *final(tables) == *old(tables),
        },
{
    let export = match export_lookup(network_instance, msg.table_id, shared) {
        Some(export) => export,
        None => {
            return false;
        },
    };
    let mut attrs = Attrs::default();
    attrs.ext_comm = Some(Arc::new(CommList(rt_comms(&export.export_rts))));
    let mut route = Route::new(RouteOrigin::Protocol(msg.protocol), attrs, RouteType::Internal);
    route.vpn_label = Some(export.label);
    assert(is_export_route(route, *export, msg.protocol));
    match msg.prefix {
        IpNetwork::V4(prefix) => {
            let prefix = Vpnv4Prefix { rd: export.rd, prefix };
            let dest = tables.vpnv4_unicast.dest_mut(prefix);
            dest.redistribute = Some(route);
            tables.vpnv4_unicast.queue(prefix);
        },
        IpNetwork::V6(prefix) => {
            let prefix = Vpnv6Prefix { rd: export.rd, prefix };
            let dest = tables.vpnv6_unicast.dest_mut(prefix);
            dest.redistribute = Some(route);
            tables.vpnv6_unicast.queue(prefix);
        },
    }
    true
}

/// Takes a route of another protocol out of the VPN to which its table is
/// exported. Says whether the decision process is to be scheduled.
pub fn vpn_export_route_del(
    network_instance: &str,
    tables: &mut RoutingTables,
    msg: &RouteKeyMsg,
    shared: &InstanceShared,
) -> (r: bool)
    requires
        old(tables).wf(),
        shared.wf(),
    ensures
        final(tables).wf(),
        same_tracking(*final(tables), *old(tables)),
        r == (export_of(network_instance@, msg.table_id, *shared) is Some),
        final(tables).ipv4_unicast == old(tables).ipv4_unicast,
        final(tables).ipv6_unicast == old(tables).ipv6_unicast,
        final(tables).l2vpn_evpn == old(tables).l2vpn_evpn,
        match (export_of(network_instance@, msg.table_id, *shared), msg.prefix) {
            (Some(export), IpNetwork::V4(prefix)) => {
                &&& final(tables).vpnv6_unicast == old(tables).vpnv6_unicast
                &&& final(tables).vpnv4_unicast@ == export_removed(
                    old(tables).vpnv4_unicast@,
                    Vpnv4Prefix { rd: export.rd, prefix },
                )
            },
            (Some(export), IpNetwork::V6(prefix)) => {
                &&& final(tables).vpnv4_unicast == old(tables).vpnv4_unicast
                &&& final(tables).vpnv6_unicast@ == export_removed(
                    old(tables).vpnv6_unicast@,
                    Vpnv6Prefix { rd: export.rd, prefix },
                )
            },
            (None, _) => *final(tables) == *old(tables),
        },
{
    let export = match export_lookup(network_instance, msg.table_id, shared) {
        Some(export) => export,
        None => {
            return false;
        },
    };
    match msg.prefix {
        IpNetwork::V4(prefix) => {
            let prefix = Vpnv4Prefix { rd: export.rd, prefix };
            let mut found = false;
            if let Some(dest) = tables.vpnv4_unicast.dest_get_mut(prefix) {
                dest.redistribute = None;
                found = true;
            }
            if found {
                tables.vpnv4_unicast.queue(prefix);
            }
        },
        IpNetwork::V6(prefix) => {
            let prefix = Vpnv6Prefix { rd: export.rd, prefix };
            let mut found = false;
            if let Some(dest) = tables.vpnv6_unicast.dest_get_mut(prefix) {
                dest.redistribute = None;
                found = true;
            }
            if found {
                tables.vpnv6_unicast.queue(prefix);
            }
        },
    }
    true
}

/// What is left to do after a route of another protocol was added.
pub struct RouteAddOutcome {
    /// The decision process is to be scheduled.
    pub schedule: bool,
    /// Import policies are to be applied.
    pub policy: Option<PolicyApplyMsg>,
}

/// Takes in a route of another protocol: it is exported to a VPN, where its
/// table is, and redistributed, where routes of its protocol are. Prefixes that
/// are not routable are ignored.
pub fn process_route_add(
    config: &InstanceCfg,
    network_instance: &str,
    tables: &mut RoutingTables,
    msg: &RouteMsg,
    routable: bool,
    shared: &InstanceShared,
) -> (r: RouteAddOutcome)
    requires
        config.wf(),
        old(tables).wf(),
        shared.wf(),
    ensures
        final(tables).wf(),
        same_tracking(*final(tables), *old(tables)),
        final(tables).ipv4_unicast == old(tables).ipv4_unicast,
        final(tables).ipv6_unicast == old(tables).ipv6_unicast,
        final(tables).l2vpn_evpn == old(tables).l2vpn_evpn,
        !routable ==> *final(tables) == *old(tables) && !r.schedule && r.policy is None,
        routable ==> {
            &&& r.schedule == (export_of(network_instance@, msg.table_id, *shared) is Some)
            &&& match (export_of(network_instance@, msg.table_id, *shared), msg.prefix) {
                (Some(export), IpNetwork::V4(prefix)) => final(tables).vpnv6_unicast == old(tables).vpnv6_unicast
                    && exists|route: Route| #[trigger]
                    is_export_route(route, export, msg.protocol) && final(tables).vpnv4_unicast@ == exported_to(
                        old(tables).vpnv4_unicast@,
                        Vpnv4Prefix { rd: export.rd, prefix },
                        route,
                    ),
                (Some(export), IpNetwork::V6(prefix)) => final(tables).vpnv4_unicast == old(tables).vpnv4_unicast
                    && exists|route: Route| #[trigger]
                    is_export_route(route, export, msg.protocol) && final(tables).vpnv6_unicast@ == exported_to(
                        old(tables).vpnv6_unicast@,
                        Vpnv6Prefix { rd: export.rd, prefix },
                        route,
                    ),
                (None, _) => *final(tables) == *old(tables),
            }
            &&& match msg.prefix {
                IpNetwork::V4(_) => {
                    &&& r.policy is Some <==> config.redistributes(Ipv4Unicast::afi_safi_spec(), msg.protocol)
                    &&& r.policy matches Some(req) ==> exists|info: RoutePolicyInfo| #[trigger]
                        redistributed_info(info, *msg) && req@ == redistribute_request::<Ipv4Unicast>(
                            *config,
                            *msg,
                            info,
                            *shared,
                        )
                },
                IpNetwork::V6(_) => {
                    &&& r.policy is Some <==> config.redistributes(Ipv6Unicast::afi_safi_spec(), msg.protocol)
                    &&& r.policy matches Some(req) ==> exists|info: RoutePolicyInfo| #[trigger]
                        redistributed_info(info, *msg) && req@ == redistribute_request::<Ipv6Unicast>(
                            *config,
                            *msg,
                            info,
                            *shared,
                        )
                },
            }
        },
{
    if !routable {
        return RouteAddOutcome { schedule: false, policy: None };
    }
    let schedule = vpn_export_route_add(network_instance, tables, msg, shared);
    let policy = match msg.prefix {
        IpNetwork::V4(_) => process_route_add_af::<Ipv4Unicast>(config, msg, shared),
        IpNetwork::V6(_) => process_route_add_af::<Ipv6Unicast>(config, msg, shared),
    };
    RouteAddOutcome { schedule, policy }
}

/// Removes a route of another protocol from the VPN and from the routes that
/// are redistributed. Says whether the decision process is to be scheduled.
/// Prefixes that are not routable are ignored.
pub fn process_route_del(
    config: &InstanceCfg,
    network_instance: &str,
    tables: &mut RoutingTables,
    msg: &RouteKeyMsg,
    routable: bool,
    shared: &InstanceShared,
) -> (r: bool)
    requires
        config.wf(),
        old(tables).wf(),
        shared.wf(),
    ensures
        final(tables).wf(),
        same_tracking(*final(tables), *old(tables)),
        final(tables).l2vpn_evpn == old(tables).l2vpn_evpn,
        !routable ==> *final(tables) == *old(tables) && !r,
        routable ==> match msg.prefix {
            IpNetwork::V4(prefix) => {
                &&& final(tables).ipv6_unicast == old(tables).ipv6_unicast
                &&& final(tables).vpnv6_unicast == old(tables).vpnv6_unicast
                &&& final(tables).ipv4_unicast@ == if config.redistributes(Ipv4Unicast::afi_safi_spec(), msg.protocol) {
                    redistribution_removed(old(tables).ipv4_unicast@, prefix)
                } else {
                    old(tables).ipv4_unicast@
                }
                &&& final(tables).vpnv4_unicast@ == match export_of(network_instance@, msg.table_id, *shared) {
                    Some(export) => export_removed(
                        old(tables).vpnv4_unicast@,
                        Vpnv4Prefix { rd: export.rd, prefix },
                    ),
                    None => old(tables).vpnv4_unicast@,
                }
                &&& r == (config.redistributes(Ipv4Unicast::afi_safi_spec(), msg.protocol) || export_of(
                    network_instance@,
                    msg.table_id,
                    *shared,
                ) is Some)
            },
            IpNetwork::V6(prefix) => {
                &&& final(tables).ipv4_unicast == old(tables).ipv4_unicast
                &&& final(tables).vpnv4_unicast == old(tables).vpnv4_unicast
                &&& final(tables).ipv6_unicast@ == if config.redistributes(Ipv6Unicast::afi_safi_spec(), msg.protocol) {
                    redistribution_removed(old(tables).ipv6_unicast@, prefix)
                } else {
                    old(tables).ipv6_unicast@
                }
                &&& final(tables).vpnv6_unicast@ == match export_of(network_instance@, msg.table_id, *shared) {
                    Some(export) => export_removed(
                        old(tables).vpnv6_unicast@,
                        Vpnv6Prefix { rd: export.rd, prefix },
                    ),
                    None => old(tables).vpnv6_unicast@,
                }
                &&& r == (config.redistributes(Ipv6Unicast::afi_safi_spec(), msg.protocol) || export_of(
                    network_instance@,
                    msg.table_id,
                    *shared,
                ) is Some)
            },
        },
{
    if !routable {
        return false;
    }
    let exported = vpn_export_route_del(network_instance, tables, msg, shared);
    let redistributed = match msg.prefix {
        IpNetwork::V4(_) => process_route_del_af::<Ipv4Unicast>(
            config,
            &mut tables.ipv4_unicast,
            msg.prefix,
            msg.protocol,
        ),
        IpNetwork::V6(_) => process_route_del_af::<Ipv6Unicast>(
            config,
            &mut tables.ipv6_unicast,
            msg.prefix,
            msg.protocol,
        ),
    };
    exported || redistributed
}

/// A route that was exported to a VPN and removed again is not redistributed
/// any more, and nothing else of its destination changed.
pub proof fn export_is_undone<P>(t: TableModel<P>, p: P, route: Route)
    ensures
        export_removed(exported_to(t, p, route), p) == with_queued(
            with_dest(t, p, DestModel { redistribute: None, ..dest_at(t, p) }),
            p,
        ),
{
    let u = export_removed(exported_to(t, p, route), p);
    let v = with_queued(with_dest(t, p, DestModel { redistribute: None, ..dest_at(t, p) }), p);
    assert(u.prefixes =~= v.prefixes);
    assert(u.queued =~= v.queued);
}

}
