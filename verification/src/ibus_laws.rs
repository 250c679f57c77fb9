//! What holds of the exchange with the routing core: next hops that change,
//! routes that other protocols have, and routes that are handed back.
use crate::af::AddressFamily;
use crate::af::Ipv4Unicast;
use crate::af::Ipv6Unicast;
use crate::af::Vpnv4Prefix;
use crate::af::Vpnv4Unicast;
use crate::af::Vpnv6Prefix;
use crate::af::Vpnv6Unicast;
use crate::attribute::AttrsModel;
use crate::bgp::rt_bytes;
use crate::bgp::rt_of;
use crate::bgp::rt_round_trip;
use crate::bgp::AfiSafi;
use crate::bgp::ExtComm;
use crate::bgp::Origin;
use crate::bgp::RouteTarget;
use crate::bgp::RouteType;
use crate::events::collect_policies;
use crate::events::found_policies;
use crate::events::policy_missing;
use crate::events::PolicyApplyMsg;
use crate::ibus_rx::exported_to;
use crate::ibus_rx::is_export_route;
use crate::ibus_rx::process_nht_update;
use crate::ibus_rx::process_nht_update_af;
use crate::ibus_rx::process_route_add;
use crate::ibus_rx::process_route_add_af;
use crate::ibus_rx::process_route_del;
use crate::ibus_rx::process_route_del_af;
use crate::ibus_rx::process_router_id_update;
use crate::ibus_rx::redistribute_request;
use crate::ibus_rx::redistributed_info;
use crate::ibus_rx::vpn_export_route_add;
use crate::ibus_rx::vpn_export_route_del;
use crate::ibus_rx::RouteAddOutcome;
use crate::ibus_tx::label_install;
use crate::ibus_tx::label_uninstall;
use crate::ibus_tx::recursive_nexthops;
use crate::ibus_tx::route_install;
use crate::ibus_tx::route_mpls_nexthops;
use crate::ibus_tx::route_uninstall;
use crate::ibus_tx::IbusRequest;
use crate::instance::InstanceCfg;
use crate::instance::InstanceSys;
use crate::ip::IpAddr;
use crate::ip::IpNetwork;
use crate::ip::Ipv4Addr;
use crate::ip::Ipv4Network;
use crate::ip::Ipv6Addr;
use crate::ip::Ipv6Network;
use crate::neighbor::Neighbor;
use crate::neighbor::Neighbors;
use crate::ord::elems_are_set;
use crate::ord::Ranked;
use crate::ord::SortedSet;
use crate::originate::default_ensured;
use crate::originate::default_originate_neighbor_enabled;
use crate::originate::default_prefix;
use crate::originate::default_synced;
use crate::originate::default_wanted;
use crate::originate::ensure_default_originate_route;
use crate::originate::is_default_route;
use crate::originate::local_cluster_ids;
use crate::originate::source_rr_client;
use crate::originate::sync_default_originate;
use crate::policy::RouteOpaqueAttrs;
use crate::policy::RoutePolicyInfo;
use crate::policy_types::Policy;
use crate::protocol::Label;
use crate::protocol::Protocol;
use crate::rib::dest_at;
use crate::rib::LocalRoute;
use crate::rib::Route;
use crate::rib::RouteOrigin;
use crate::rib::RoutingTable;
use crate::rib::RoutingTables;
use crate::shared::InstanceShared;
use crate::shared::VpnExport;
use crate::southbound::nexthop_models;
use crate::southbound::Nexthop;
use crate::southbound::RouteKeyMsg;
use crate::southbound::RouteKind;
use crate::southbound::RouteMsg;
use std::sync::Arc;
use vstd::prelude::*;

verus! {

/// Whether a next hop is tracked in a table, and a prefix depends on it.
pub open spec fn depends_on<P: Ranked>(t: RoutingTable<P>, addr: IpAddr, p: P) -> bool {
    t.nht@.contains_key(addr) && t.nht@[addr].prefixes@.contains_key(p)
}

/// After a tracked next hop is updated, reachable or not, it has the metric that
/// was told, and every prefix that depends on it is queued for the decision
/// process, with those that were queued before and no others. The tracking of
/// other next hops and the destinations are as they were.
pub proof fn nexthop_update_queues_dependents<P: Ranked>(
    table: &mut RoutingTable<P>,
    addr: IpAddr,
    metric: Option<u32>,
    r: bool,
    p: P,
    other: IpAddr,
)
    requires
        call_ensures(process_nht_update_af::<P>, (table, addr, metric), r),
    ensures
        r == old(table).nht@.contains_key(addr),
        depends_on(*old(table), addr, p) ==> final(table).queued_prefixes@.contains(p),
        old(table).queued_prefixes@.contains(p) ==> final(table).queued_prefixes@.contains(p),
        final(table).queued_prefixes@.contains(p) ==> old(table).queued_prefixes@.contains(p) || depends_on(
            *old(table),
            addr,
            p,
        ),
        r ==> final(table).nht@.contains_key(addr) && final(table).nht@[addr].metric == metric
            && final(table).nht@[addr].prefixes == old(table).nht@[addr].prefixes,
        other != addr ==> final(table).nht@.contains_key(other) == old(table).nht@.contains_key(other)
            && final(table).nht@[other] == old(table).nht@[other],
        !r ==> *final(table) == *old(table),
        final(table).prefixes == old(table).prefixes,
{
}

/// An update of a next hop reaches every table in which it is tracked: there the
/// new metric is kept, and the prefixes that depend on it are queued. The
/// decision process is scheduled exactly if there is such a table.
pub proof fn nexthop_update_reaches_all_tables(
    tables: &mut RoutingTables,
    addr: IpAddr,
    metric: Option<u32>,
    r: bool,
    p4: Ipv4Network,
    p6: Ipv6Network,
    v4: Vpnv4Prefix,
    v6: Vpnv6Prefix,
)
    requires
        call_ensures(process_nht_update, (tables, addr, metric), r),
    ensures
        r <==> old(tables).ipv4_unicast.nht@.contains_key(addr) || old(tables).ipv6_unicast.nht@.contains_key(addr)
            || old(tables).vpnv4_unicast.nht@.contains_key(addr) || old(tables).vpnv6_unicast.nht@.contains_key(addr),
        old(tables).ipv4_unicast.nht@.contains_key(addr) ==> final(tables).ipv4_unicast.nht@[addr].metric == metric,
        old(tables).ipv6_unicast.nht@.contains_key(addr) ==> final(tables).ipv6_unicast.nht@[addr].metric == metric,
        old(tables).vpnv4_unicast.nht@.contains_key(addr) ==> final(tables).vpnv4_unicast.nht@[addr].metric == metric,
        old(tables).vpnv6_unicast.nht@.contains_key(addr) ==> final(tables).vpnv6_unicast.nht@[addr].metric == metric,
        final(tables).ipv4_unicast.queued_prefixes@.contains(p4) <==> old(tables).ipv4_unicast.queued_prefixes@.contains(p4) || depends_on(old(tables).ipv4_unicast, addr, p4),
        final(tables).ipv6_unicast.queued_prefixes@.contains(p6) <==> old(tables).ipv6_unicast.queued_prefixes@.contains(p6) || depends_on(old(tables).ipv6_unicast, addr, p6),
        final(tables).vpnv4_unicast.queued_prefixes@.contains(v4) <==> old(tables).vpnv4_unicast.queued_prefixes@.contains(v4) || depends_on(old(tables).vpnv4_unicast, addr, v4),
        final(tables).vpnv6_unicast.queued_prefixes@.contains(v6) <==> old(tables).vpnv6_unicast.queued_prefixes@.contains(v6) || depends_on(old(tables).vpnv6_unicast, addr, v6),
        final(tables).ipv4_unicast.prefixes == old(tables).ipv4_unicast.prefixes,
        final(tables).ipv6_unicast.prefixes == old(tables).ipv6_unicast.prefixes,
        final(tables).vpnv4_unicast.prefixes == old(tables).vpnv4_unicast.prefixes,
        final(tables).vpnv6_unicast.prefixes == old(tables).vpnv6_unicast.prefixes,
        final(tables).l2vpn_evpn == old(tables).l2vpn_evpn,
{
}

/// The router identifier that was told last is the one that is kept.
pub proof fn router_id_is_kept(system: &mut InstanceSys, router_id: Option<Ipv4Addr>, r: ())
    requires
        call_ensures(process_router_id_update, (system, router_id), r),
    ensures
        final(system).router_id == router_id,
{
}

/// The route of this router for a prefix, from another protocol or a VPN.
pub open spec fn own_route_of<P: Ranked>(t: RoutingTable<P>, p: P) -> Option<Route> {
    if t.prefixes@.contains_key(p) {
        t.prefixes@[p].redistribute
    } else {
        None
    }
}

/// Whether two tables agree on the routes that are kept for a prefix and on
/// whether it is queued.
pub open spec fn same_prefix<P: Ranked>(a: RoutingTable<P>, b: RoutingTable<P>, p: P) -> bool {
    &&& a@.prefixes.contains_key(p) == b@.prefixes.contains_key(p)
    &&& a@.prefixes.contains_key(p) ==> a@.prefixes[p] == b@.prefixes[p]
    &&& a@.queued.contains(p) == b@.queued.contains(p)
}

/// Whether two tables keep the same selected route and the same routes of
/// neighbors for a prefix.
pub open spec fn same_but_own_route<P: Ranked>(a: RoutingTable<P>, b: RoutingTable<P>, p: P) -> bool {
    a@.prefixes.contains_key(p) && b@.prefixes.contains_key(p) ==> a@.prefixes[p].local == b@.prefixes[p].local
        && a@.prefixes[p].adj_rib == b@.prefixes[p].adj_rib
}

/// Whether routes of a protocol are configured to be redistributed.
pub open spec fn is_wanted(config: InstanceCfg, afi_safi: AfiSafi, protocol: Protocol) -> bool {
    config.afi_safi@.contains_key(afi_safi) && config.afi_safi@[afi_safi].redistribution@.contains(protocol)
}

/// Whether a policy is defined under one of several names.
pub open spec fn has_name_in(
    names: Set<Seq<char>>,
    policies: Map<Seq<char>, Arc<Policy>>,
    policy: Arc<Policy>,
) -> bool {
    exists|n: Seq<char>| #[trigger] names.contains(n) && policies.contains_key(n) && policies[n] == policy
}

/// Whether policies are those with some names: every one that is defined, in the
/// order of the names and nothing else, and whether one of them is missing.
pub open spec fn are_named(
    names: SortedSet<String>,
    shared: InstanceShared,
    missing: bool,
    policies: Seq<Arc<Policy>>,
) -> bool {
    &&& missing <==> exists|n: Seq<char>| #[trigger] names@.contains(n) && !shared.policies@.contains_key(n)
    &&& forall|n: Seq<char>| #[trigger]
        names@.contains(n) && shared.policies@.contains_key(n) ==> policies.contains(shared.policies@[n])
    &&& forall|i: int|
        0 <= i < policies.len() ==> has_name_in(names@, shared.policies@, #[trigger] policies[i])
    &&& !missing ==> policies.len() == names.elems().len() && forall|i: int|
        0 <= i < policies.len() ==> #[trigger] policies[i] == shared.policies@[names.elems()[i]]
}

proof fn found_are_named(names: Seq<Seq<char>>, policies: Map<Seq<char>, Arc<Policy>>)
    ensures
        forall|n: Seq<char>| #[trigger]
            names.contains(n) && policies.contains_key(n) ==> found_policies(names, policies).contains(policies[n]),
        forall|i: int|
            0 <= i < found_policies(names, policies).len() ==> has_name_in(
                names.to_set(),
                policies,
                #[trigger] found_policies(names, policies)[i],
            ),
        (forall|i: int| 0 <= i < names.len() ==> policies.contains_key(#[trigger] names[i])) ==> found_policies(
            names,
            policies,
        ).len() == names.len() && (forall|i: int|
            0 <= i < names.len() ==> #[trigger] found_policies(names, policies)[i] == policies[names[i]]),
    decreases names.len(),
{
    if names.len() > 0 {
        let init = names.drop_last();
        let last = names.last();
        let rest = found_policies(init, policies);
        let all = found_policies(names, policies);
        found_are_named(init, policies);
        assert(names[names.len() - 1] == last);
        if forall|i: int| 0 <= i < names.len() ==> policies.contains_key(#[trigger] names[i]) {
            assert forall|i: int| 0 <= i < init.len() implies policies.contains_key(#[trigger] init[i]) by {
                assert(init[i] == names[i]);
            }
            assert(policies.contains_key(names[names.len() - 1]));
        }
        assert forall|n: Seq<char>| #[trigger] names.contains(n) && policies.contains_key(n) implies all.contains(
            policies[n],
        ) by {
            if n == last {
                assert(all[rest.len() as int] == policies[n]);
            } else {
                let k = choose|k: int| 0 <= k < names.len() && names[k] == n;
                assert(init[k] == n);
                assert(init.contains(n));
                let i = choose|i: int| 0 <= i < rest.len() && rest[i] == policies[n];
                assert(all[i] == policies[n]);
            }
        }
        assert forall|i: int| 0 <= i < all.len() implies has_name_in(names.to_set(), policies, #[trigger] all[i]) by {
            if i < rest.len() {
                assert(all[i] == rest[i]);
                let n = choose|n: Seq<char>| #[trigger]
                    init.to_set().contains(n) && policies.contains_key(n) && policies[n] == rest[i];
                let k = choose|k: int| 0 <= k < init.len() && init[k] == n;
                assert(names[k] == n);
                assert(names.to_set().contains(n));
            } else {
                assert(names.to_set().contains(last));
            }
        }
    }
}

/// Policies are looked up by name: all that are defined are found, in order, and
/// it is told if one is not.
pub proof fn policies_are_looked_up(
    names: &SortedSet<String>,
    shared: &InstanceShared,
    r: (bool, Vec<Arc<Policy>>),
)
    requires
        names.wf(),
        call_ensures(collect_policies, (names, shared), r),
    ensures
        are_named(*names, *shared, r.0, r.1@),
{
    named_policies(*names, *shared, r.0, r.1@);
}

/// Policies that are looked up one by one are those with the names.
pub proof fn named_policies(
    names: SortedSet<String>,
    shared: InstanceShared,
    missing: bool,
    policies: Seq<Arc<Policy>>,
)
    requires
        missing == policy_missing(names@, shared.policies@),
        policies == found_policies(names.elems(), shared.policies@),
    ensures
        are_named(names, shared, missing, policies),
{
    let elems = names.elems();
    elems_are_set(names);
    found_are_named(elems, shared.policies@);
    if !missing {
        assert forall|i: int| 0 <= i < elems.len() implies shared.policies@.contains_key(#[trigger] elems[i]) by {
            assert(elems.contains(elems[i]));
            assert(names@.contains(elems[i]));
        }
    }
}

/// Whether a request asks for import policies on a route of another protocol:
/// with its prefix, protocol, tag and attributes of its own, no attributes of
/// BGP, and with the import policies of the address family, or of the instance
/// where the family is not configured.
pub open spec fn asks_for_import(
    req: PolicyApplyMsg,
    afi_safi: AfiSafi,
    config: InstanceCfg,
    msg: RouteMsg,
    shared: InstanceShared,
) -> bool {
    req matches PolicyApplyMsg::Redistribute {
        afi_safi: family,
        prefix,
        route,
        missing_policy,
        policies,
        match_sets,
        default_policy,
    } && {
        let cfg = if config.afi_safi@.contains_key(afi_safi) {
            config.afi_safi@[afi_safi].apply_policy
        } else {
            config.apply_policy
        };
        &&& family == afi_safi
        &&& prefix == msg.prefix
        &&& route.origin == RouteOrigin::Protocol(msg.protocol)
        &&& route.route_type == RouteType::Internal
        &&& route.tag == msg.tag
        &&& route.opaque_attrs == Some(msg.opaque_attrs)
        &&& has_no_attributes(route.attrs@)
        &&& route.attrs@.origin == Origin::Incomplete
        &&& match_sets == shared.policy_match_sets
        &&& default_policy == cfg.default_import_policy
        &&& are_named(cfg.import_policy, shared, missing_policy, policies@)
    }
}

/// Attributes that say nothing but the origin.
pub open spec fn has_no_attributes(m: AttrsModel) -> bool {
    &&& m.as_path.len() == 0
    &&& m.as4_path is None
    &&& m.nexthop is None
    &&& m.ll_nexthop is None
    &&& m.med is None
    &&& m.local_pref is None
    &&& m.aggregator is None
    &&& m.as4_aggregator is None
    &&& !m.atomic_aggregate
    &&& m.originator_id is None
    &&& m.cluster_list is None
    &&& m.comm is None
    &&& m.ext_comm is None
    &&& m.extv6_comm is None
    &&& m.large_comm is None
    &&& m.unknown is None
}

/// A route of another protocol is handed to import policies exactly if routes of
/// that protocol are configured to be redistributed in the address family.
pub proof fn wanted_routes_go_to_policies<A: AddressFamily>(
    config: &InstanceCfg,
    msg: &RouteMsg,
    shared: &InstanceShared,
    r: Option<PolicyApplyMsg>,
)
    requires
        config.wf(),
        call_ensures(process_route_add_af::<A>, (config, msg, shared), r),
    ensures
        r is Some <==> is_wanted(*config, A::afi_safi_spec(), msg.protocol),
        r matches Some(req) ==> asks_for_import(req, A::afi_safi_spec(), *config, *msg, *shared),
{
    if let Some(req) = r {
        import_request_is::<A>(*config, *msg, *shared, req);
    }
}

proof fn import_request_is<A: AddressFamily>(
    config: InstanceCfg,
    msg: RouteMsg,
    shared: InstanceShared,
    req: PolicyApplyMsg,
)
    requires
        exists|info: RoutePolicyInfo| #[trigger]
            redistributed_info(info, msg) && req@ == redistribute_request::<A>(config, msg, info, shared),
    ensures
        asks_for_import(req, A::afi_safi_spec(), config, msg, shared),
{
    let afi_safi = A::afi_safi_spec();
    let cfg = if config.afi_safi@.contains_key(afi_safi) {
        config.afi_safi@[afi_safi].apply_policy
    } else {
        config.apply_policy
    };
    match req {
        PolicyApplyMsg::Redistribute { missing_policy, policies, .. } => {
            named_policies(cfg.import_policy, shared, missing_policy, policies@);
        },
        _ => {},
    }
}

/// A route of another protocol that is gone is not redistributed any more, and
/// the prefix is queued, exactly if routes of that protocol are redistributed.
/// Nothing else of the table changes.
pub proof fn gone_routes_are_not_redistributed<A: AddressFamily>(
    config: &InstanceCfg,
    table: &mut RoutingTable<A::Prefix>,
    prefix: IpNetwork,
    protocol: Protocol,
    r: bool,
    p: A::Prefix,
    other: A::Prefix,
)
    requires
        call_ensures(process_route_del_af::<A>, (config, table, prefix, protocol), r),
        A::from_ip_network_spec(prefix) == Some(p),
    ensures
        r <==> is_wanted(*config, A::afi_safi_spec(), protocol),
        r ==> own_route_of(*final(table), p) is None && final(table)@.queued.contains(p),
        same_but_own_route(*final(table), *old(table), p),
        other != p ==> same_prefix(*final(table), *old(table), other),
        !r ==> *final(table) == *old(table),
        final(table).nht == old(table).nht,
{
    if r && final(table).prefixes@.contains_key(p) {
        assert(final(table)@.prefixes[p] == final(table).prefixes@[p]@);
    }
}

/// The VPN export that applies to a table: that of the table, if this instance
/// serves the default network instance.
pub open spec fn has_export(
    network_instance: Seq<char>,
    table_id: Option<u32>,
    shared: InstanceShared,
    export: VpnExport,
) -> bool {
    network_instance == "default"@ && (table_id matches Some(t) && shared.vpn_exports@.contains_key(t)
        && shared.vpn_exports@[t] == export)
}

/// Whether a route is exported to a VPN as it should be: with the label of the
/// VPN, and with all its route targets and no other community.
pub open spec fn carries_export(route: Option<Route>, export: VpnExport, protocol: Protocol) -> bool {
    route matches Some(r) && {
        &&& r.origin == RouteOrigin::Protocol(protocol)
        &&& r.route_type == RouteType::Internal
        &&& r.vpn_label == Some(export.label)
        &&& r.igp_cost is None
        &&& r.attrs@.ext_comm is Some
        &&& forall|rt: RouteTarget| #[trigger]
            export.export_rts@.contains(rt) ==> exists|c: ExtComm| #[trigger]
                r.attrs@.ext_comm->0.contains(c) && rt_of(c.0@) == Some(rt)
        &&& forall|c: ExtComm| #[trigger]
            r.attrs@.ext_comm->0.contains(c) ==> rt_of(c.0@) is Some && export.export_rts@.contains(rt_of(c.0@)->0)
        &&& has_no_attributes(AttrsModel { ext_comm: None, ..r.attrs@ })
    }
}

proof fn export_route_carries(route: Route, export: VpnExport, protocol: Protocol)
    requires
        is_export_route(route, export, protocol),
    ensures
        carries_export(Some(route), export, protocol),
{
    let comms = route.attrs@.ext_comm->0;
    assert forall|rt: RouteTarget| #[trigger] export.export_rts@.contains(rt) implies exists|c: ExtComm| #[trigger]
        comms.contains(c) && rt_of(c.0@) == Some(rt) by {
        rt_round_trip(rt);
        let b = rt_bytes(rt);
        let c = ExtComm([b[0], b[1], b[2], b[3], b[4], b[5], b[6], b[7]]);
        assert(c.0@ =~= b);
        assert(comms.contains(c));
    }
    assert forall|c: ExtComm| #[trigger] comms.contains(c) implies rt_of(c.0@) is Some && export.export_rts@.contains(
        rt_of(c.0@)->0,
    ) by {
        let rt = choose|rt: RouteTarget| #[trigger] export.export_rts@.contains(rt) && c.0@ == rt_bytes(rt);
        rt_round_trip(rt);
    }
}

/// An IPv4 route of another protocol whose table is exported is put into the VPN
/// under the route distinguisher of the export, with its label and its route
/// targets, and is queued. Nothing happens for other tables, nor where this
/// instance does not serve the default network instance.
pub proof fn exported_ipv4_routes_reach_the_vpn(
    network_instance: &str,
    tables: &mut RoutingTables,
    msg: &RouteMsg,
    shared: &InstanceShared,
    r: bool,
    export: VpnExport,
    prefix: Ipv4Network,
    other: Vpnv4Prefix,
)
    requires
        call_ensures(vpn_export_route_add, (network_instance, tables, msg, shared), r),
        msg.prefix == IpNetwork::V4(prefix),
    ensures
        has_export(network_instance@, msg.table_id, *shared, export) ==> {
            let p = Vpnv4Prefix { rd: export.rd, prefix };
            &&& r
            &&& carries_export(own_route_of(final(tables).vpnv4_unicast, p), export, msg.protocol)
            &&& final(tables).vpnv4_unicast@.queued.contains(p)
            &&& same_but_own_route(final(tables).vpnv4_unicast, old(tables).vpnv4_unicast, p)
            &&& other != p ==> same_prefix(final(tables).vpnv4_unicast, old(tables).vpnv4_unicast, other)
        },
        r ==> exists|e: VpnExport| has_export(network_instance@, msg.table_id, *shared, e),
        !r ==> *final(tables) == *old(tables),
        final(tables).vpnv6_unicast == old(tables).vpnv6_unicast,
        final(tables).ipv4_unicast == old(tables).ipv4_unicast,
        final(tables).ipv6_unicast == old(tables).ipv6_unicast,
        final(tables).l2vpn_evpn == old(tables).l2vpn_evpn,
{
    if r {
        let t = msg.table_id->0;
        let e = shared.vpn_exports@[t];
        assert(has_export(network_instance@, msg.table_id, *shared, e));
        let p = Vpnv4Prefix { rd: e.rd, prefix };
        let route = choose|route: Route| #[trigger]
            is_export_route(route, e, msg.protocol) && final(tables).vpnv4_unicast@ == exported_to(
                old(tables).vpnv4_unicast@,
                p,
                route,
            );
        export_route_carries(route, e, msg.protocol);
        assert(final(tables).vpnv4_unicast@.prefixes.contains_key(p));
        assert(final(tables).vpnv4_unicast@.prefixes[p] == final(tables).vpnv4_unicast.prefixes@[p]@);
    }
}

/// The same of IPv6 routes.
pub proof fn exported_ipv6_routes_reach_the_vpn(
    network_instance: &str,
    tables: &mut RoutingTables,
    msg: &RouteMsg,
    shared: &InstanceShared,
    r: bool,
    export: VpnExport,
    prefix: Ipv6Network,
    other: Vpnv6Prefix,
)
    requires
        call_ensures(vpn_export_route_add, (network_instance, tables, msg, shared), r),
        msg.prefix == IpNetwork::V6(prefix),
    ensures
        has_export(network_instance@, msg.table_id, *shared, export) ==> {
            let p = Vpnv6Prefix { rd: export.rd, prefix };
            &&& r
            &&& carries_export(own_route_of(final(tables).vpnv6_unicast, p), export, msg.protocol)
            &&& final(tables).vpnv6_unicast@.queued.contains(p)
            &&& same_but_own_route(final(tables).vpnv6_unicast, old(tables).vpnv6_unicast, p)
            &&& other != p ==> same_prefix(final(tables).vpnv6_unicast, old(tables).vpnv6_unicast, other)
        },
        r ==> exists|e: VpnExport| has_export(network_instance@, msg.table_id, *shared, e),
        !r ==> *final(tables) == *old(tables),
        final(tables).vpnv4_unicast == old(tables).vpnv4_unicast,
        final(tables).ipv4_unicast == old(tables).ipv4_unicast,
        final(tables).ipv6_unicast == old(tables).ipv6_unicast,
        final(tables).l2vpn_evpn == old(tables).l2vpn_evpn,
{
    if r {
        let t = msg.table_id->0;
        let e = shared.vpn_exports@[t];
        assert(has_export(network_instance@, msg.table_id, *shared, e));
        let p = Vpnv6Prefix { rd: e.rd, prefix };
        let route = choose|route: Route| #[trigger]
            is_export_route(route, e, msg.protocol) && final(tables).vpnv6_unicast@ == exported_to(
                old(tables).vpnv6_unicast@,
                p,
                route,
            );
        export_route_carries(route, e, msg.protocol);
        assert(final(tables).vpnv6_unicast@.prefixes.contains_key(p));
        assert(final(tables).vpnv6_unicast@.prefixes[p] == final(tables).vpnv6_unicast.prefixes@[p]@);
    }
}

/// A route that is gone leaves the VPN to which its table is exported: it is not
/// kept there any more, and its prefix is queued if the VPN had it.
pub proof fn gone_routes_leave_the_vpn(
    network_instance: &str,
    tables: &mut RoutingTables,
    msg: &RouteKeyMsg,
    shared: &InstanceShared,
    r: bool,
    export: VpnExport,
    other4: Vpnv4Prefix,
    other6: Vpnv6Prefix,
)
    requires
        call_ensures(vpn_export_route_del, (network_instance, tables, msg, shared), r),
    ensures
        has_export(network_instance@, msg.table_id, *shared, export) ==> r && match msg.prefix {
            IpNetwork::V4(prefix) => {
                let p = Vpnv4Prefix { rd: export.rd, prefix };
                &&& own_route_of(final(tables).vpnv4_unicast, p) is None
                &&& old(tables).vpnv4_unicast@.prefixes.contains_key(p)
                    ==> final(tables).vpnv4_unicast@.queued.contains(p)
                &&& same_but_own_route(final(tables).vpnv4_unicast, old(tables).vpnv4_unicast, p)
                &&& other4 != p ==> same_prefix(final(tables).vpnv4_unicast, old(tables).vpnv4_unicast, other4)
                &&& final(tables).vpnv6_unicast == old(tables).vpnv6_unicast
            },
            IpNetwork::V6(prefix) => {
                let p = Vpnv6Prefix { rd: export.rd, prefix };
                &&& own_route_of(final(tables).vpnv6_unicast, p) is None
                &&& old(tables).vpnv6_unicast@.prefixes.contains_key(p)
                    ==> final(tables).vpnv6_unicast@.queued.contains(p)
                &&& same_but_own_route(final(tables).vpnv6_unicast, old(tables).vpnv6_unicast, p)
                &&& other6 != p ==> same_prefix(final(tables).vpnv6_unicast, old(tables).vpnv6_unicast, other6)
                &&& final(tables).vpnv4_unicast == old(tables).vpnv4_unicast
            },
        },
        r ==> exists|e: VpnExport| has_export(network_instance@, msg.table_id, *shared, e),
        !r ==> *final(tables) == *old(tables),
        final(tables).ipv4_unicast == old(tables).ipv4_unicast,
        final(tables).ipv6_unicast == old(tables).ipv6_unicast,
{
    if r {
        let e = shared.vpn_exports@[msg.table_id->0];
        assert(has_export(network_instance@, msg.table_id, *shared, e));
        match msg.prefix {
            IpNetwork::V4(prefix) => {
                let p = Vpnv4Prefix { rd: e.rd, prefix };
                let t = final(tables).vpnv4_unicast;
                assert(t.prefixes@.contains_key(p) == t@.prefixes.contains_key(p));
                if t@.prefixes.contains_key(p) {
                    assert(t@.prefixes[p] == t.prefixes@[p]@);
                }
            },
            IpNetwork::V6(prefix) => {
                let p = Vpnv6Prefix { rd: e.rd, prefix };
                let t = final(tables).vpnv6_unicast;
                assert(t.prefixes@.contains_key(p) == t@.prefixes.contains_key(p));
                if t@.prefixes.contains_key(p) {
                    assert(t@.prefixes[p] == t.prefixes@[p]@);
                }
            },
        }
    }
}

/// A route of another protocol is both handed to the import policies of its
/// address family and exported, each where it is to be; a prefix that is not
/// routable is ignored altogether.
pub proof fn added_routes_are_redistributed_and_exported(
    config: &InstanceCfg,
    network_instance: &str,
    tables: &mut RoutingTables,
    msg: &RouteMsg,
    routable: bool,
    shared: &InstanceShared,
    r: RouteAddOutcome,
    export: VpnExport,
)
    requires
        config.wf(),
        call_ensures(process_route_add, (config, network_instance, tables, msg, routable, shared), r),
    ensures
        !routable ==> *final(tables) == *old(tables) && !r.schedule && r.policy is None,
        final(tables).ipv4_unicast == old(tables).ipv4_unicast,
        final(tables).ipv6_unicast == old(tables).ipv6_unicast,
        routable && has_export(network_instance@, msg.table_id, *shared, export) ==> r.schedule && match msg.prefix {
            IpNetwork::V4(prefix) => carries_export(
                own_route_of(final(tables).vpnv4_unicast, Vpnv4Prefix { rd: export.rd, prefix }),
                export,
                msg.protocol,
            ) && final(tables).vpnv4_unicast@.queued.contains(Vpnv4Prefix { rd: export.rd, prefix }),
            IpNetwork::V6(prefix) => carries_export(
                own_route_of(final(tables).vpnv6_unicast, Vpnv6Prefix { rd: export.rd, prefix }),
                export,
                msg.protocol,
            ) && final(tables).vpnv6_unicast@.queued.contains(Vpnv6Prefix { rd: export.rd, prefix }),
        },
        r.schedule ==> exists|e: VpnExport| has_export(network_instance@, msg.table_id, *shared, e),
        routable ==> (r.policy is Some <==> is_wanted(
            *config,
            match msg.prefix {
                IpNetwork::V4(_) => AfiSafi::Ipv4Unicast,
                IpNetwork::V6(_) => AfiSafi::Ipv6Unicast,
            },
            msg.protocol,
        )),
        r.policy matches Some(req) ==> asks_for_import(
            req,
            match msg.prefix {
                IpNetwork::V4(_) => AfiSafi::Ipv4Unicast,
                IpNetwork::V6(_) => AfiSafi::Ipv6Unicast,
            },
            *config,
            *msg,
            *shared,
        ),
{
    if routable {
        if let Some(req) = r.policy {
            match msg.prefix {
                IpNetwork::V4(_) => import_request_is::<Ipv4Unicast>(*config, *msg, *shared, req),
                IpNetwork::V6(_) => import_request_is::<Ipv6Unicast>(*config, *msg, *shared, req),
            }
        }
        if r.schedule {
            let e = shared.vpn_exports@[msg.table_id->0];
            assert(has_export(network_instance@, msg.table_id, *shared, e));
            match msg.prefix {
                IpNetwork::V4(prefix) => {
                    let p = Vpnv4Prefix { rd: e.rd, prefix };
                    let route = choose|route: Route| #[trigger]
                        is_export_route(route, e, msg.protocol) && final(tables).vpnv4_unicast@ == exported_to(
                            old(tables).vpnv4_unicast@,
                            p,
                            route,
                        );
                    export_route_carries(route, e, msg.protocol);
                    assert(final(tables).vpnv4_unicast@.prefixes.contains_key(p));
                    assert(final(tables).vpnv4_unicast@.prefixes[p] == final(tables).vpnv4_unicast.prefixes@[p]@);
                },
                IpNetwork::V6(prefix) => {
                    let p = Vpnv6Prefix { rd: e.rd, prefix };
                    let route = choose|route: Route| #[trigger]
                        is_export_route(route, e, msg.protocol) && final(tables).vpnv6_unicast@ == exported_to(
                            old(tables).vpnv6_unicast@,
                            p,
                            route,
                        );
                    export_route_carries(route, e, msg.protocol);
                    assert(final(tables).vpnv6_unicast@.prefixes.contains_key(p));
                    assert(final(tables).vpnv6_unicast@.prefixes[p] == final(tables).vpnv6_unicast.prefixes@[p]@);
                },
            }
        }
    }
}

/// A route of another protocol that is gone is removed both from the
/// redistributed routes of its address family and from the VPN; a prefix that is
/// not routable is ignored altogether.
pub proof fn removed_routes_are_gone_everywhere(
    config: &InstanceCfg,
    network_instance: &str,
    tables: &mut RoutingTables,
    msg: &RouteKeyMsg,
    routable: bool,
    shared: &InstanceShared,
    r: bool,
    export: VpnExport,
)
    requires
        call_ensures(process_route_del, (config, network_instance, tables, msg, routable, shared), r),
    ensures
        !routable ==> *final(tables) == *old(tables) && !r,
        routable ==> match msg.prefix {
            IpNetwork::V4(prefix) => {
                &&& is_wanted(*config, AfiSafi::Ipv4Unicast, msg.protocol) ==> r && own_route_of(
                    final(tables).ipv4_unicast,
                    prefix,
                ) is None && final(tables).ipv4_unicast@.queued.contains(prefix)
                &&& !is_wanted(*config, AfiSafi::Ipv4Unicast, msg.protocol) ==> final(tables).ipv4_unicast@ == old(tables).ipv4_unicast@
                &&& has_export(network_instance@, msg.table_id, *shared, export) ==> r && own_route_of(
                    final(tables).vpnv4_unicast,
                    Vpnv4Prefix { rd: export.rd, prefix },
                ) is None
                &&& has_export(network_instance@, msg.table_id, *shared, export) && old(tables).vpnv4_unicast@.prefixes.contains_key(Vpnv4Prefix { rd: export.rd, prefix })
                    ==> final(tables).vpnv4_unicast@.queued.contains(Vpnv4Prefix { rd: export.rd, prefix })
                &&& final(tables).ipv6_unicast == old(tables).ipv6_unicast
                &&& final(tables).vpnv6_unicast == old(tables).vpnv6_unicast
            },
            IpNetwork::V6(prefix) => {
                &&& is_wanted(*config, AfiSafi::Ipv6Unicast, msg.protocol) ==> r && own_route_of(
                    final(tables).ipv6_unicast,
                    prefix,
                ) is None && final(tables).ipv6_unicast@.queued.contains(prefix)
                &&& !is_wanted(*config, AfiSafi::Ipv6Unicast, msg.protocol) ==> final(tables).ipv6_unicast@ == old(tables).ipv6_unicast@
                &&& has_export(network_instance@, msg.table_id, *shared, export) ==> r && own_route_of(
                    final(tables).vpnv6_unicast,
                    Vpnv6Prefix { rd: export.rd, prefix },
                ) is None
                &&& has_export(network_instance@, msg.table_id, *shared, export) && old(tables).vpnv6_unicast@.prefixes.contains_key(Vpnv6Prefix { rd: export.rd, prefix })
                    ==> final(tables).vpnv6_unicast@.queued.contains(Vpnv6Prefix { rd: export.rd, prefix })
                &&& final(tables).ipv4_unicast == old(tables).ipv4_unicast
                &&& final(tables).vpnv4_unicast == old(tables).vpnv4_unicast
            },
        },
        r ==> is_wanted(
            *config,
            match msg.prefix {
                IpNetwork::V4(_) => AfiSafi::Ipv4Unicast,
                IpNetwork::V6(_) => AfiSafi::Ipv6Unicast,
            },
            msg.protocol,
        ) || (exists|e: VpnExport| has_export(network_instance@, msg.table_id, *shared, e)),
{
    let e = shared.vpn_exports@[msg.table_id->0];
    if network_instance@ == "default"@ && msg.table_id is Some && shared.vpn_exports@.contains_key(msg.table_id->0) {
        assert(has_export(network_instance@, msg.table_id, *shared, e));
    }
    match msg.prefix {
        IpNetwork::V4(prefix) => {
            raw_prefix(final(tables).ipv4_unicast, prefix);
            raw_prefix(final(tables).vpnv4_unicast, Vpnv4Prefix { rd: e.rd, prefix });
        },
        IpNetwork::V6(prefix) => {
            raw_prefix(final(tables).ipv6_unicast, prefix);
            raw_prefix(final(tables).vpnv6_unicast, Vpnv6Prefix { rd: e.rd, prefix });
        },
    }
}

proof fn raw_prefix<P: Ranked>(t: RoutingTable<P>, p: P)
    ensures
        t.prefixes@.contains_key(p) == t@.prefixes.contains_key(p),
        t.prefixes@.contains_key(p) ==> t@.prefixes[p] == t.prefixes@[p]@ && t@.prefixes[p].redistribute
            == t.prefixes@[p].redistribute,
{
}

/// Next hops are handed over in the order of their addresses, one for each, to be
/// resolved, with the label if there is one.
pub proof fn nexthops_are_handed_over(
    nexthops: &Option<SortedSet<IpAddr>>,
    label: Option<Label>,
    r: Vec<Nexthop>,
    i: int,
)
    requires
        call_ensures(route_mpls_nexthops, (nexthops, label), r),
    ensures
        nexthops is None ==> r@.len() == 0,
        nexthops matches Some(s) ==> r@.len() == s.elems().len() && (0 <= i < r@.len() ==> (r@[i]
            matches Nexthop::Recursive { addr, labels, resolved } && addr == s.elems()[i] && resolved@.len() == 0 && (
        match label {
            Some(l) => labels@ == seq![l],
            None => labels@.len() == 0,
        }))),
{
    nexthop_shape(r@, *nexthops, label, i);
}

proof fn nexthop_shape(r: Seq<Nexthop>, nexthops: Option<SortedSet<IpAddr>>, label: Option<Label>, i: int)
    requires
        nexthop_models(r) == recursive_nexthops(nexthops, label),
    ensures
        nexthops is None ==> r.len() == 0,
        nexthops matches Some(s) ==> r.len() == s.elems().len() && (0 <= i < r.len() ==> (r[i]
            matches Nexthop::Recursive { addr, labels, resolved } && addr == s.elems()[i] && resolved@.len() == 0 && (
        match label {
            Some(l) => labels@ == seq![l],
            None => labels@.len() == 0,
        }))),
{
    assert(nexthop_models(r).len() == r.len());
    if nexthops is Some && 0 <= i < r.len() {
        let m = recursive_nexthops(nexthops, label)[i];
        assert(nexthop_models(r)[i] == m);
        assert(r[i].model() == m);
        assert(m->Recursive_resolved.len() == 0);
    }
}

/// A selected route is handed to the routing core with its prefix, its table, the
/// given distance and its metric, 0 where it has none, as a route of BGP.
pub proof fn installed_routes_carry_their_fields(
    table_id: Option<u32>,
    prefix: IpNetwork,
    route: &LocalRoute,
    distance: u8,
    r: IbusRequest,
    i: int,
)
    requires
        call_ensures(route_install, (table_id, prefix, route, distance), r),
    ensures
        r matches IbusRequest::RouteIpAdd(msg) && {
            &&& msg.protocol == Protocol::BGP
            &&& msg.kind == RouteKind::Unicast
            &&& msg.table_id == table_id
            &&& msg.prefix == prefix
            &&& msg.distance == distance
            &&& route.attrs.base.med is None ==> msg.metric == 0
            &&& route.attrs.base.med matches Some(med) ==> msg.metric == med
            &&& msg.tag is None
            &&& msg.opaque_attrs == RouteOpaqueAttrs::Empty
            &&& route.nexthops is None ==> msg.nexthops@.len() == 0
            &&& route.nexthops matches Some(s) ==> msg.nexthops@.len() == s.elems().len() && (0 <= i
                < msg.nexthops@.len() ==> (msg.nexthops@[i] matches Nexthop::Recursive { addr, labels, .. } && addr
                == s.elems()[i] && (match route.nexthop_label {
                Some(l) => labels@ == seq![l],
                None => labels@.len() == 0,
            })))
        },
{
    if let IbusRequest::RouteIpAdd(msg) = r {
        nexthop_shape(msg.nexthops@, route.nexthops, route.nexthop_label, i);
    }
}

/// A route is removed under the protocol, the table and the prefix under which it
/// was installed.
pub proof fn removal_names_what_was_installed(
    table_id: Option<u32>,
    prefix: IpNetwork,
    route: &LocalRoute,
    distance: u8,
    added: IbusRequest,
    removed: IbusRequest,
)
    requires
        call_ensures(route_install, (table_id, prefix, route, distance), added),
        call_ensures(route_uninstall, (table_id, prefix), removed),
    ensures
        added is RouteIpAdd && removed is RouteIpDel,
        added->RouteIpAdd_0.protocol == removed->RouteIpDel_0.protocol,
        added->RouteIpAdd_0.table_id == removed->RouteIpDel_0.table_id,
        added->RouteIpAdd_0.prefix == removed->RouteIpDel_0.prefix,
        removed->RouteIpDel_0.prefix == prefix,
        removed->RouteIpDel_0.table_id == table_id,
{
}

/// The label of a route is installed if it has one above the reserved ones, and
/// the label, the next hops or their label changed; it goes with the label of the
/// route and for its prefix, and takes the place of what was there.
pub proof fn labels_follow_routes(
    prefix: IpNetwork,
    route: &LocalRoute,
    old_route: Option<&LocalRoute>,
    r: Option<IbusRequest>,
    gone: Option<IbusRequest>,
    i: int,
)
    requires
        call_ensures(label_install, (prefix, route, old_route), r),
        call_ensures(label_uninstall, (prefix, route), gone),
    ensures
        route.label is None ==> r is None && gone is None,
        route.label matches Some(l) && l.0 <= 15 ==> r is None && gone is None,
        route.label matches Some(l) && l.0 > 15 ==> gone is Some && (old_route is None ==> r is Some),
        route.label matches Some(l) && l.0 > 15 ==> (old_route matches Some(o) ==> (r is None <==> o.label
            == route.label && o.nexthop_label == route.nexthop_label && (match (o.nexthops, route.nexthops) {
            (Some(a), Some(b)) => a@ == b@,
            (None, None) => true,
            _ => false,
        }))),
        r matches Some(req) ==> (req matches IbusRequest::RouteMplsAdd(msg) && Some(msg.label) == route.label
            && msg.route == Some((Protocol::BGP, prefix)) && msg.protocol == Protocol::BGP && msg.replace && (
        route.nexthops matches Some(s) ==> msg.nexthops@.len() == s.elems().len() && (0 <= i < msg.nexthops@.len()
            ==> (msg.nexthops@[i] matches Nexthop::Recursive { addr, labels, .. } && addr == s.elems()[i] && (
        match route.nexthop_label {
            Some(l) => labels@ == seq![l],
            None => labels@.len() == 0,
        }))))),
        gone matches Some(req) ==> (req matches IbusRequest::RouteMplsDel(msg) && Some(msg.label) == route.label
            && msg.route == Some((Protocol::BGP, prefix)) && msg.protocol == Protocol::BGP && msg.nexthops@.len()
            == 0),
{
    if let Some(IbusRequest::RouteMplsAdd(msg)) = r {
        nexthop_shape(msg.nexthops@, route.nexthops, route.nexthop_label, i);
    }
}

/// The default route of an address family, as this router originates it.
pub open spec fn originated(route: Option<Route>) -> bool {
    route matches Some(r) && r.origin == RouteOrigin::Protocol(Protocol::BGP) && r.route_type == RouteType::Internal
        && r.attrs@.origin == Origin::Igp && has_no_attributes(r.attrs@) && r.vpn_label is None && r.igp_cost is None
}

/// Whether a neighbor is configured to be sent a default route in an address
/// family.
pub open spec fn wants_default(neighbors: Neighbors, afi_safi: AfiSafi, a: IpAddr) -> bool {
    neighbors@.contains_key(a) && neighbors@[a].config.afi_safi@.contains_key(afi_safi)
        && neighbors@[a].config.afi_safi@[afi_safi].enabled
        && neighbors@[a].config.afi_safi@[afi_safi].send_default_route == Some(true)
}

/// Which of two things a table does about a default route.
pub open spec fn default_follows<P: Ranked>(
    before: RoutingTable<P>,
    after: RoutingTable<P>,
    wanted: bool,
    p: P,
    other: P,
) -> bool {
    &&& wanted ==> originated(own_route_of(after, p))
    &&& !wanted ==> own_route_of(after, p) is None
    &&& wanted && !originated(own_route_of(before, p)) ==> after@.queued.contains(p)
    &&& !wanted && own_route_of(before, p) is Some ==> after@.queued.contains(p)
    &&& wanted && originated(own_route_of(before, p)) ==> after@.queued == before@.queued
    &&& !wanted && own_route_of(before, p) is None ==> after@.queued == before@.queued
    &&& same_but_own_route(after, before, p)
    &&& other != p ==> same_prefix(after, before, other)
    &&& after.nht == before.nht
}

proof fn synced_follows<A: AddressFamily>(
    before: RoutingTable<A::Prefix>,
    after: RoutingTable<A::Prefix>,
    neighbors: Neighbors,
    p: A::Prefix,
    other: A::Prefix,
)
    requires
        default_synced::<A>(before@, after@, neighbors),
        default_prefix::<A>() == Some(p),
        after.nht == before.nht,
    ensures
        default_follows(before, after, default_wanted(neighbors, A::afi_safi_spec()), p, other),
{
    raw_prefix(before, p);
    raw_prefix(after, p);
    if default_wanted(neighbors, A::afi_safi_spec()) {
        let route = choose|route: Route| #[trigger]
            is_default_route(route) && after@ == default_ensured(before@, p, route);
        assert(after@.prefixes.contains_key(p));
        if originated(own_route_of(before, p)) {
            let old = own_route_of(before, p)->0;
            assert(dest_at(before@, p).redistribute == Some(old));
            same_default_attrs(old.attrs@, route.attrs@);
            assert(after@.queued =~= before@.queued);
        }
    } else if dest_at(before@, p).redistribute is None {
        assert(after@.queued =~= before@.queued);
    }
}

proof fn same_default_attrs(a: AttrsModel, b: AttrsModel)
    requires
        has_no_attributes(a),
        has_no_attributes(b),
        a.origin == b.origin,
    ensures
        a == b,
{
    assert(a.as_path =~= b.as_path);
}

/// A default route is originated in IPv4 exactly while some neighbor is to be
/// sent one, and its prefix is queued whenever that changed something.
pub proof fn ipv4_default_follows_neighbors(
    table: &mut RoutingTable<Ipv4Network>,
    neighbors: &Neighbors,
    r: (),
    other: Ipv4Network,
    a: IpAddr,
)
    requires
        call_ensures(sync_default_originate::<Ipv4Unicast>, (table, neighbors), r),
    ensures
        ({
            let p = Ipv4Network { addr: Ipv4Addr { bits: 0 }, prefix: 0 };
            &&& wants_default(*neighbors, AfiSafi::Ipv4Unicast, a) ==> default_follows(
                *old(table),
                *final(table),
                true,
                p,
                other,
            )
            &&& (forall|n: IpAddr| !wants_default(*neighbors, AfiSafi::Ipv4Unicast, n)) ==> default_follows(
                *old(table),
                *final(table),
                false,
                p,
                other,
            )
        }),
{
    let p = Ipv4Network { addr: Ipv4Addr { bits: 0 }, prefix: 0 };
    synced_follows::<Ipv4Unicast>(*old(table), *final(table), *neighbors, p, other);
    if wants_default(*neighbors, AfiSafi::Ipv4Unicast, a) {
        assert(neighbors@.contains_key(a));
        assert(default_wanted(*neighbors, AfiSafi::Ipv4Unicast));
    }
    if default_wanted(*neighbors, AfiSafi::Ipv4Unicast) {
        let n = choose|n: IpAddr| #[trigger]
            neighbors@.contains_key(n) && neighbors@[n].sends_default(AfiSafi::Ipv4Unicast);
        assert(wants_default(*neighbors, AfiSafi::Ipv4Unicast, n));
    }
}

/// The same of IPv6.
pub proof fn ipv6_default_follows_neighbors(
    table: &mut RoutingTable<Ipv6Network>,
    neighbors: &Neighbors,
    r: (),
    other: Ipv6Network,
    a: IpAddr,
)
    requires
        call_ensures(sync_default_originate::<Ipv6Unicast>, (table, neighbors), r),
    ensures
        ({
            let p = Ipv6Network { addr: Ipv6Addr { bits: 0 }, prefix: 0 };
            &&& wants_default(*neighbors, AfiSafi::Ipv6Unicast, a) ==> default_follows(
                *old(table),
                *final(table),
                true,
                p,
                other,
            )
            &&& (forall|n: IpAddr| !wants_default(*neighbors, AfiSafi::Ipv6Unicast, n)) ==> default_follows(
                *old(table),
                *final(table),
                false,
                p,
                other,
            )
        }),
{
    let p = Ipv6Network { addr: Ipv6Addr { bits: 0 }, prefix: 0 };
    synced_follows::<Ipv6Unicast>(*old(table), *final(table), *neighbors, p, other);
    if wants_default(*neighbors, AfiSafi::Ipv6Unicast, a) {
        assert(neighbors@.contains_key(a));
        assert(default_wanted(*neighbors, AfiSafi::Ipv6Unicast));
    }
    if default_wanted(*neighbors, AfiSafi::Ipv6Unicast) {
        let n = choose|n: IpAddr| #[trigger]
            neighbors@.contains_key(n) && neighbors@[n].sends_default(AfiSafi::Ipv6Unicast);
        assert(wants_default(*neighbors, AfiSafi::Ipv6Unicast, n));
    }
}

/// No default route is originated in the VPN families.
pub proof fn vpns_have_no_default(
    table: &mut RoutingTable<Vpnv4Prefix>,
    table6: &mut RoutingTable<Vpnv6Prefix>,
    neighbors: &Neighbors,
    r: (),
)
    requires
        call_ensures(sync_default_originate::<Vpnv4Unicast>, (table, neighbors), r),
        call_ensures(sync_default_originate::<Vpnv6Unicast>, (table6, neighbors), r),
    ensures
        final(table)@ == old(table)@,
        final(table6)@ == old(table6)@,
{
}

/// Once the default route is originated it is there, whatever was there before.
pub proof fn ensured_default_is_there(
    table: &mut RoutingTable<Ipv4Network>,
    table6: &mut RoutingTable<Ipv6Network>,
    r: (),
)
    requires
        call_ensures(ensure_default_originate_route::<Ipv4Unicast>, (table,), r),
        call_ensures(ensure_default_originate_route::<Ipv6Unicast>, (table6,), r),
    ensures
        originated(own_route_of(*final(table), Ipv4Network { addr: Ipv4Addr { bits: 0 }, prefix: 0 })),
        originated(own_route_of(*final(table6), Ipv6Network { addr: Ipv6Addr { bits: 0 }, prefix: 0 })),
{
    let p = Ipv4Network { addr: Ipv4Addr { bits: 0 }, prefix: 0 };
    let p6 = Ipv6Network { addr: Ipv6Addr { bits: 0 }, prefix: 0 };
    raw_prefix(*final(table), p);
    raw_prefix(*final(table6), p6);
    assert(final(table)@.prefixes.contains_key(p));
    assert(final(table6)@.prefixes.contains_key(p6));
}

/// The routes of a protocol are redistributed exactly in the families that are
/// configured to do so.
pub proof fn redistribution_is_configured(cfg: &InstanceCfg, afi_safi: AfiSafi, protocol: Protocol, r: bool)
    requires
        call_ensures(InstanceCfg::is_redistributed, (cfg, afi_safi, protocol), r),
    ensures
        !cfg.afi_safi@.contains_key(afi_safi) ==> !r,
        cfg.afi_safi@.contains_key(afi_safi) ==> r == cfg.afi_safi@[afi_safi].redistribution@.contains(protocol),
{
}

/// A neighbor gets a default route exactly if the family is configured for it,
/// is enabled and asks for one.
pub proof fn default_routes_are_asked_for<A: AddressFamily>(nbr: &Neighbor, r: bool)
    requires
        call_ensures(default_originate_neighbor_enabled::<A>, (nbr,), r),
    ensures
        !nbr.config.afi_safi@.contains_key(A::afi_safi_spec()) ==> !r,
        nbr.config.afi_safi@.contains_key(A::afi_safi_spec()) ==> r == (
        nbr.config.afi_safi@[A::afi_safi_spec()].enabled && nbr.config.afi_safi@[A::afi_safi_spec()].send_default_route
            == Some(true)),
{
}

/// Whether a route came from a client is told by the configuration of the
/// neighbor that sent it; of other routes nothing is told.
pub proof fn route_source_is_told(route: &Route, neighbors: &Neighbors, r: Option<bool>)
    requires
        call_ensures(source_rr_client, (route, neighbors), r),
    ensures
        route.origin is Protocol ==> r is None,
        route.origin matches RouteOrigin::Neighbor { remote_addr, .. } ==> {
            &&& r is Some <==> neighbors@.contains_key(remote_addr)
            &&& r matches Some(client) ==> client == neighbors@[remote_addr].config.route_reflector.client
        },
{
}

/// A cluster identifier is in use exactly if some client has it, as its own or, in
/// want of that, from the router.
pub proof fn clusters_are_those_of_clients(
    identifier: Option<Ipv4Addr>,
    neighbors: &Neighbors,
    r: SortedSet<Ipv4Addr>,
    a: IpAddr,
    id: Ipv4Addr,
)
    requires
        call_ensures(local_cluster_ids, (identifier, neighbors), r),
    ensures
        neighbors@.contains_key(a) && neighbors@[a].config.route_reflector.client
            && neighbors@[a].config.route_reflector.cluster_id == Some(id) ==> r@.contains(id),
        neighbors@.contains_key(a) && neighbors@[a].config.route_reflector.client
            && neighbors@[a].config.route_reflector.cluster_id is None && identifier == Some(id) ==> r@.contains(id),
        (forall|n: IpAddr| #[trigger]
            neighbors@.contains_key(n) ==> !neighbors@[n].config.route_reflector.client) ==> r@ == Set::<
            Ipv4Addr,
        >::empty(),
        r@.contains(id) && identifier != Some(id) ==> exists|n: IpAddr| #[trigger]
            neighbors@.contains_key(n) && neighbors@[n].config.route_reflector.client
                && neighbors@[n].config.route_reflector.cluster_id == Some(id),
{
    if forall|n: IpAddr| #[trigger] neighbors@.contains_key(n) ==> !neighbors@[n].config.route_reflector.client {
        assert(r@ =~= Set::<Ipv4Addr>::empty());
    }
}

}
