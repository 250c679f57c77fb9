use holo::af::route_import_rts;
use holo::af::vpn_import_install;
use holo::af::vpn_import_table_ids;
use holo::af::vpn_import_uninstall;
use holo::af::AddressFamily;
use holo::af::Ipv4Unicast;
use holo::af::Ipv6Unicast;
use holo::af::Vpnv4Prefix;
use holo::af::Vpnv4Unicast;
use holo::af::Vpnv6Unicast;
use holo::attribute::Attrs;
use holo::attribute::CommList;
use holo::bgp::AfiSafi;
use holo::bgp::ExtComm;
use holo::bgp::Origin;
use holo::bgp::RouteDistinguisher;
use holo::bgp::RouteTarget;
use holo::bgp::RouteType;
use holo::decision::decision_candidates;
use holo::decision::decision_process;
use holo::decision::decision_start;
use holo::decision::process_nbr_policy_export;
use holo::decision::process_nbr_policy_import;
use holo::decision::process_redistribute_policy_import;
use holo::decision::select_routes;
use holo::decision::withdraw_routes;
use holo::decision::Answer;
use holo::decision::Selection;
use holo::events::PolicyApplyMsg;
use holo::ibus_rx::process_nht_update;
use holo::ibus_rx::process_nht_update_af;
use holo::ibus_rx::process_route_add;
use holo::ibus_rx::process_route_add_af;
use holo::ibus_rx::process_route_del;
use holo::ibus_rx::process_route_del_af;
use holo::ibus_rx::process_router_id_update;
use holo::ibus_rx::vpn_export_route_add;
use holo::ibus_rx::vpn_export_route_del;
use holo::ibus_tx::label_install;
use holo::ibus_tx::label_uninstall;
use holo::ibus_tx::nexthop_track;
use holo::ibus_tx::nexthop_untrack;
use holo::ibus_tx::route_install;
use holo::ibus_tx::route_mpls_nexthops;
use holo::ibus_tx::route_uninstall;
use holo::ibus_tx::router_id_sub;
use holo::ibus_tx::IbusRequest;
use holo::instance::InstanceAfiSafiCfg;
use holo::instance::InstanceCfg;
use holo::instance::InstanceSys;
use holo::ip::IpAddr;
use holo::ip::IpNetwork;
use holo::ip::Ipv4Addr;
use holo::ip::Ipv4Network;
use holo::ip::Ipv6Addr;
use holo::ip::Ipv6Network;
use holo::message::MpReachNlri;
use holo::neighbor::ApplyPolicyCfg;
use holo::neighbor::Neighbor;
use holo::neighbor::NeighborAfiSafiCfg;
use holo::neighbor::NeighborUpdateQueue;
use holo::neighbor::Neighbors;
use holo::neighbor::PeerType;
use holo::neighbor::State;
use holo::neighbor::TcpConnInfo;
use holo::ord::SortedMap;
use holo::ord::SortedSet;
use holo::originate::default_originate_neighbor_enabled;
use holo::originate::default_originate_prefix;
use holo::originate::ensure_default_originate_route;
use holo::originate::local_cluster_ids;
use holo::originate::source_rr_client;
use holo::originate::sync_default_originate;
use holo::path::Path;
use holo::path::PathIds;
use holo::policy::RouteOpaqueAttrs;
use holo::policy_types::PolicyResult;
use holo::protocol::Label;
use holo::protocol::Protocol;
use holo::rib::LocalRoute;
use holo::rib::NexthopOp;
use holo::rib::NhtEntry;
use holo::rib::Route;
use holo::rib::RouteOrigin;
use holo::rib::RoutingTable;
use holo::rib::RoutingTables;
use holo::shared::InstanceShared;
use holo::shared::VpnExport;
use holo::shared::VpnImport;
use holo::southbound::Nexthop;
use holo::southbound::RouteKeyMsg;
use holo::southbound::RouteKind;
use holo::southbound::RouteMsg;
use std::sync::Arc;

fn v4(a: u8, b: u8, c: u8, d: u8) -> IpAddr {
    IpAddr::V4(Ipv4Addr::new(a, b, c, d))
}

fn net(a: u8, b: u8, c: u8, d: u8, prefix: u8) -> Ipv4Network {
    Ipv4Network { addr: Ipv4Addr::new(a, b, c, d), prefix }
}

fn rd() -> RouteDistinguisher {
    RouteDistinguisher::As2Administrator { asn: 65000, number: 1 }
}

fn rt(number: u32) -> RouteTarget {
    RouteTarget::As2Administrator { asn: 65000, number }
}

fn attrs() -> Attrs {
    let mut attrs = Attrs::default();
    attrs.base.nexthop = Some(v4(192, 0, 2, 1));
    attrs
}

fn neighbor(last: u8) -> Neighbor {
    let mut nbr = Neighbor::new(v4(192, 0, 2, last), PeerType::External);
    nbr.state = State::Established;
    nbr.identifier = Some(Ipv4Addr::new(192, 0, 2, last));
    nbr
}

fn learned(last: u8) -> Route {
    let origin =
        RouteOrigin::Neighbor { identifier: Ipv4Addr::new(192, 0, 2, last), remote_addr: v4(192, 0, 2, last) };
    Route::new(origin, attrs(), RouteType::External)
}

fn local_route(label: Option<u32>, rts: &[RouteTarget]) -> LocalRoute {
    let mut attrs = attrs();
    attrs.base.med = Some(5);
    if !rts.is_empty() {
        let mut comms = SortedSet::new();
        for rt in rts {
            comms.insert(rt.to_ext_comm());
        }
        comms.insert(ExtComm([6, 0, 0, 0, 0, 0, 0, 1]));
        attrs.ext_comm = Some(Arc::new(CommList(comms)));
    }
    let mut nexthops = SortedSet::new();
    nexthops.insert(v4(192, 0, 2, 1));
    LocalRoute {
        origin: RouteOrigin::Protocol(Protocol::STATIC),
        attrs,
        route_type: RouteType::Internal,
        nexthops: Some(nexthops),
        label: label.map(Label::new),
        nexthop_label: Some(Label::new(77)),
    }
}

fn tables() -> RoutingTables {
    RoutingTables {
        ipv4_unicast: RoutingTable::new(),
        ipv6_unicast: RoutingTable::new(),
        vpnv4_unicast: RoutingTable::new(),
        vpnv6_unicast: RoutingTable::new(),
        l2vpn_evpn: RoutingTable::new(),
    }
}

fn route_msg(prefix: IpNetwork, protocol: Protocol, table_id: Option<u32>) -> RouteMsg {
    RouteMsg {
        protocol,
        kind: RouteKind::Unicast,
        table_id,
        prefix,
        distance: 1,
        metric: 2,
        tag: Some(9),
        opaque_attrs: RouteOpaqueAttrs::Empty,
        nexthops: Arc::new(vec![]),
    }
}

fn path<P>(prefix: P) -> Path<P> {
    Path { prefix, path_id: 0 }
}

#[test]
fn withdrawn_prefixes_are_split_over_messages() {
    let mut queue: NeighborUpdateQueue<Ipv4Network> = NeighborUpdateQueue::new(false);
    for i in 0..1000u32 {
        queue.unreach.insert(path(Ipv4Network { addr: Ipv4Addr { bits: i << 8 }, prefix: 24 }));
    }
    let msgs = Ipv4Unicast::build_updates(&mut queue);
    let sizes: Vec<usize> = msgs.iter().map(|m| m.unreach.as_ref().unwrap().prefixes.len()).collect();
    // (4096 - 23) / 5 prefixes fit into one message.
    assert_eq!(sizes, vec![814, 186]);
    assert_eq!(msgs[1].unreach.as_ref().unwrap().prefixes[0].addr, Ipv4Addr { bits: 814 << 8 });
    assert!(queue.unreach.is_empty());
}

#[test]
fn reachable_prefixes_carry_their_attributes() {
    let mut queue: NeighborUpdateQueue<Ipv4Network> = NeighborUpdateQueue::new(false);
    queue.reach_add(attrs(), path(net(10, 0, 0, 0, 8)));
    queue.reach_add(attrs(), path(net(11, 0, 0, 0, 8)));
    let mut other = attrs();
    other.base.med = Some(1);
    queue.reach_add(other, path(net(12, 0, 0, 0, 8)));
    let msgs = Ipv4Unicast::build_updates(&mut queue);
    assert_eq!(msgs.len(), 2);
    let sizes: Vec<usize> = msgs.iter().map(|m| m.reach.as_ref().unwrap().prefixes.len()).collect();
    assert_eq!(sizes.iter().sum::<usize>(), 3);
    assert_eq!(msgs[0].reach.as_ref().unwrap().nexthop, Ipv4Addr::new(192, 0, 2, 1));
    assert!(queue.reach.is_empty());
    assert!(Ipv4Unicast::build_updates(&mut queue).is_empty());
}

#[test]
fn vpn_prefixes_carry_their_labels() {
    let mut queue: NeighborUpdateQueue<Vpnv4Prefix> = NeighborUpdateQueue::new(false);
    let prefix = Vpnv4Prefix { rd: rd(), prefix: net(10, 0, 0, 0, 8) };
    queue.reach_add(attrs(), path(prefix));
    queue.labels.insert(path(prefix), Label::new(500));
    let msgs = Vpnv4Unicast::build_updates(&mut queue);
    assert_eq!(msgs.len(), 1);
    let Some(MpReachNlri::L3vpnIpv4Unicast { prefixes, nexthop, .. }) = &msgs[0].mp_reach else {
        panic!("no VPN routes");
    };
    assert_eq!(*nexthop, Ipv4Addr::new(192, 0, 2, 1));
    assert_eq!(prefixes[0].label, 500);
    assert_eq!(prefixes[0].prefix, net(10, 0, 0, 0, 8));
}

#[test]
fn ipv6_prefixes_carry_both_next_hops() {
    let mut queue: NeighborUpdateQueue<Ipv6Network> = NeighborUpdateQueue::new(false);
    let mut attrs = Attrs::default();
    attrs.base.nexthop = Some(IpAddr::V6(Ipv6Addr { bits: 1 }));
    attrs.base.ll_nexthop = Some(Ipv6Addr { bits: 2 });
    queue.reach_add(attrs, path(Ipv6Network { addr: Ipv6Addr { bits: 0 }, prefix: 0 }));
    let msgs = Ipv6Unicast::build_updates(&mut queue);
    let Some(MpReachNlri::Ipv6Unicast { nexthop, ll_nexthop, .. }) = &msgs[0].mp_reach else {
        panic!("no IPv6 routes");
    };
    assert_eq!(nexthop.bits, 1);
    assert_eq!(ll_nexthop.unwrap().bits, 2);
}

#[test]
fn vpn_routes_are_imported_by_route_target() {
    let mut shared = InstanceShared::default();
    for (name, number, table_id) in [("blue", 1, Some(1001)), ("red", 2, Some(1002)), ("green", 1, None)] {
        let mut import_rts = SortedSet::new();
        import_rts.insert(rt(number));
        shared.vpn_imports.insert(name.to_owned(), VpnImport { import_rts, table_id });
    }
    let route = local_route(None, &[rt(1), rt(3)]);
    assert_eq!(route_import_rts(&route).unwrap().len(), 2);
    assert_eq!(vpn_import_table_ids(&route, &shared), vec![1001]);
    let prefix = IpNetwork::V4(net(10, 0, 0, 0, 8));
    let msgs = vpn_import_install(prefix, &route, &shared, 200);
    assert!(matches!(
        &msgs[..],
        [IbusRequest::RouteIpAdd(msg)] if msg.table_id == Some(1001) && msg.distance == 200 && msg.prefix == prefix
    ));
    let msgs = vpn_import_uninstall(prefix, &route, &shared);
    assert!(matches!(&msgs[..], [IbusRequest::RouteIpDel(msg)] if msg.table_id == Some(1001)));
    assert!(vpn_import_table_ids(&local_route(None, &[]), &shared).is_empty());
}

#[test]
fn imported_routes_are_tracked_and_queued() {
    let mut neighbors: Neighbors = SortedMap::new();
    neighbors.insert(v4(192, 0, 2, 2), neighbor(2));
    let mut table: RoutingTable<Ipv4Network> = RoutingTable::new();
    let prefix = net(10, 0, 0, 0, 8);
    table.adj_mut(path(prefix), v4(192, 0, 2, 2)).in_pre = Some(learned(2));
    let mut ops = vec![];
    let accepted = vec![(IpNetwork::V4(prefix), PolicyResult::Accept(learned(2).policy_info()))];
    assert!(process_nbr_policy_import::<Ipv4Unicast>(
        &neighbors,
        v4(192, 0, 2, 2),
        &mut table,
        &accepted,
        &vec![],
        &mut ops
    ));
    assert!(matches!(&ops[..], [NexthopOp::Track { .. }]));
    assert!(table.adj_get(path(prefix), v4(192, 0, 2, 2)).unwrap().in_post.is_some());
    assert!(table.queued_prefixes.contains(&prefix));

    ops.clear();
    let rejected = vec![(IpNetwork::V4(prefix), PolicyResult::Reject)];
    process_nbr_policy_import::<Ipv4Unicast>(&neighbors, v4(192, 0, 2, 2), &mut table, &rejected, &vec![], &mut ops);
    assert!(matches!(&ops[..], [NexthopOp::Untrack { .. }]));
    assert!(table.adj_get(path(prefix), v4(192, 0, 2, 2)).unwrap().in_post.is_none());
}

#[test]
fn exported_routes_are_sent_and_withdrawn() {
    let mut neighbors: Neighbors = SortedMap::new();
    neighbors.insert(v4(192, 0, 2, 2), neighbor(2));
    let mut table: RoutingTable<Ipv4Network> = RoutingTable::new();
    let mut queue: NeighborUpdateQueue<Ipv4Network> = NeighborUpdateQueue::new(false);
    let prefix = net(10, 0, 0, 0, 8);
    table.adj_mut(path(prefix), v4(192, 0, 2, 2)).out_pre = Some(learned(3));
    let accepted = vec![(IpNetwork::V4(prefix), PolicyResult::Accept(learned(3).policy_info()))];
    let msgs = process_nbr_policy_export::<Ipv4Unicast>(
        &neighbors,
        v4(192, 0, 2, 2),
        &mut table,
        &mut queue,
        &accepted,
        &vec![],
        &vec![attrs()],
    );
    assert_eq!(msgs.len(), 1);
    assert_eq!(msgs[0].reach.as_ref().unwrap().prefixes, vec![prefix]);
    assert!(table.adj_get(path(prefix), v4(192, 0, 2, 2)).unwrap().out_post.is_some());

    let nbr = neighbors.get(&v4(192, 0, 2, 2)).unwrap();
    let msgs = withdraw_routes::<Ipv4Unicast>(nbr, &mut table, &mut queue, &vec![path(prefix)]);
    assert_eq!(msgs.len(), 1);
    assert_eq!(msgs[0].unreach.as_ref().unwrap().prefixes, vec![prefix]);
    assert!(table.adj_get(path(prefix), v4(192, 0, 2, 2)).unwrap().out_post.is_none());
    assert!(withdraw_routes::<Ipv4Unicast>(nbr, &mut table, &mut queue, &vec![path(prefix)]).is_empty());
}

#[test]
fn redistributed_routes_are_kept_and_queued() {
    let mut table: RoutingTable<Ipv4Network> = RoutingTable::new();
    let prefix = net(10, 0, 0, 0, 8);
    let mut route = learned(2);
    route.origin = RouteOrigin::Protocol(Protocol::STATIC);
    process_redistribute_policy_import::<Ipv4Unicast>(
        &mut table,
        IpNetwork::V4(prefix),
        PolicyResult::Accept(route.policy_info()),
    );
    assert!(table.prefixes.get(&prefix).unwrap().redistribute.is_some());
    assert!(table.queued_prefixes.contains(&prefix));
    process_redistribute_policy_import::<Ipv4Unicast>(&mut table, IpNetwork::V4(prefix), PolicyResult::Reject);
    assert!(table.prefixes.get(&prefix).unwrap().redistribute.is_none());
}

#[test]
fn selection_empties_the_queue() {
    let mut table: RoutingTable<Ipv4Network> = RoutingTable::new();
    let kept = net(10, 0, 0, 0, 8);
    let lost = net(11, 0, 0, 0, 8);
    for prefix in [kept, lost] {
        table.adj_mut(path(prefix), v4(192, 0, 2, 2)).in_post = Some(learned(2));
        table.queue(prefix);
    }
    assert_eq!(decision_candidates(&table), vec![kept, lost]);
    let selections = vec![
        Selection { best: Some(learned(2)), local: Some(Arc::new(local_route(None, &[]))) },
        Selection { best: None, local: None },
    ];
    let (reach, unreach) = select_routes(&mut table, &selections);
    assert_eq!(reach.iter().map(|(p, _)| *p).collect::<Vec<_>>(), vec![path(kept)]);
    assert_eq!(unreach, vec![path(lost)]);
    assert!(table.queued_prefixes.is_empty());
    assert!(table.prefixes.get(&kept).unwrap().local.is_some());
}

#[test]
fn decisions_are_passed_on_to_eligible_neighbors() {
    let mut neighbors: Neighbors = SortedMap::new();
    neighbors.insert(v4(192, 0, 2, 2), neighbor(2));
    neighbors.insert(v4(192, 0, 2, 3), neighbor(3));
    let mut down = neighbor(4);
    down.state = State::Idle;
    neighbors.insert(v4(192, 0, 2, 4), down);
    let mut table: RoutingTable<Ipv4Network> = RoutingTable::new();
    let prefix = net(10, 0, 0, 0, 8);
    table.adj_mut(path(prefix), v4(192, 0, 2, 2)).in_post = Some(learned(2));
    table.queue(prefix);
    let mut queues: Vec<NeighborUpdateQueue<Ipv4Network>> =
        (0..3).map(|_| NeighborUpdateQueue::new(false)).collect();
    let selections =
        vec![Selection { best: Some(learned(2)), local: Some(Arc::new(local_route(None, &[]))) }];
    let answers = vec![
        vec![Answer { eligible: false, attrs: attrs() }],
        vec![Answer { eligible: true, attrs: attrs() }],
        vec![Answer { eligible: true, attrs: attrs() }],
    ];
    let shared = InstanceShared::default();
    let outputs =
        decision_process::<Ipv4Unicast>(&mut table, &neighbors, &mut queues, &selections, &answers, &PathIds::new(), &shared);
    assert_eq!(outputs.len(), 3);
    assert!(outputs[0].msgs.is_empty() && outputs[0].policy.is_none());
    assert!(outputs[1].policy.is_some() || !outputs[1].msgs.is_empty());
    assert!(outputs[2].msgs.is_empty() && outputs[2].policy.is_none());
    assert!(table.adj_get(path(prefix), v4(192, 0, 2, 3)).unwrap().out_pre.is_some());
}

#[test]
fn default_routes_are_originated_on_demand() {
    assert_eq!(default_originate_prefix::<Ipv4Unicast>(), Some(net(0, 0, 0, 0, 0)));
    assert!(default_originate_prefix::<Vpnv4Unicast>().is_none());
    let mut nbr = neighbor(2);
    assert!(!default_originate_neighbor_enabled::<Ipv4Unicast>(&nbr));
    nbr.config.afi_safi.insert(AfiSafi::Ipv4Unicast, NeighborAfiSafiCfg::default());
    let cfg = nbr.config.afi_safi.get_mut(&AfiSafi::Ipv4Unicast).unwrap();
    cfg.enabled = true;
    cfg.send_default_route = Some(true);
    assert!(default_originate_neighbor_enabled::<Ipv4Unicast>(&nbr));

    let mut table: RoutingTable<Ipv4Network> = RoutingTable::new();
    let prefix = net(0, 0, 0, 0, 0);
    let mut neighbors: Neighbors = SortedMap::new();
    neighbors.insert(v4(192, 0, 2, 2), nbr);
    sync_default_originate::<Ipv4Unicast>(&mut table, &neighbors);
    let route = table.prefixes.get(&prefix).unwrap().redistribute.as_ref().unwrap();
    assert_eq!(route.attrs.base.origin, Origin::Igp);
    assert_eq!(route.origin, RouteOrigin::Protocol(Protocol::BGP));
    assert!(table.queued_prefixes.contains(&prefix));

    assert_eq!(decision_start::<Ipv4Unicast>(&mut table, &neighbors, &mut PathIds::new()), vec![prefix]);
    table.queued_prefixes.remove(&prefix);
    ensure_default_originate_route::<Ipv4Unicast>(&mut table);
    assert!(!table.queued_prefixes.contains(&prefix));

    sync_default_originate::<Ipv4Unicast>(&mut table, &SortedMap::new());
    assert!(table.prefixes.get(&prefix).unwrap().redistribute.is_none());
    assert!(table.queued_prefixes.contains(&prefix));
}

#[test]
fn route_reflection() {
    let mut client = neighbor(2);
    client.config.route_reflector.client = true;
    let mut other = neighbor(3);
    other.config.route_reflector.client = true;
    other.config.route_reflector.cluster_id = Some(Ipv4Addr::new(9, 9, 9, 9));
    let mut neighbors: Neighbors = SortedMap::new();
    neighbors.insert(v4(192, 0, 2, 2), client);
    neighbors.insert(v4(192, 0, 2, 3), other);
    neighbors.insert(v4(192, 0, 2, 4), neighbor(4));
    assert_eq!(source_rr_client(&learned(2), &neighbors), Some(true));
    assert_eq!(source_rr_client(&learned(4), &neighbors), Some(false));
    assert_eq!(source_rr_client(&learned(5), &neighbors), None);
    let ids = local_cluster_ids(Some(Ipv4Addr::new(1, 1, 1, 1)), &neighbors);
    assert_eq!(ids.len(), 2);
    assert!(ids.contains(&Ipv4Addr::new(1, 1, 1, 1)) && ids.contains(&Ipv4Addr::new(9, 9, 9, 9)));
    assert_eq!(local_cluster_ids(None, &neighbors).len(), 1);
}

#[test]
fn next_hops_set_the_metric_and_queue_prefixes() {
    let mut tables = tables();
    let addr = v4(192, 0, 2, 1);
    let prefix = net(10, 0, 0, 0, 8);
    let mut prefixes = SortedMap::new();
    prefixes.insert(prefix, 1);
    tables.ipv4_unicast.prefixes.insert(prefix, holo::rib::Destination::new());
    tables.ipv4_unicast.nht.insert(addr, NhtEntry { metric: None, prefixes });
    assert!(process_nht_update(&mut tables, addr, Some(30)));
    assert_eq!(tables.ipv4_unicast.nht.get(&addr).unwrap().metric, Some(30));
    assert!(tables.ipv4_unicast.queued_prefixes.contains(&prefix));
    assert!(!process_nht_update(&mut tables, v4(192, 0, 2, 9), Some(30)));
    assert!(!process_nht_update_af(&mut tables.ipv6_unicast, addr, None));
    let mut sys = InstanceSys { router_id: None };
    process_router_id_update(&mut sys, Some(Ipv4Addr::new(1, 1, 1, 1)));
    assert_eq!(sys.router_id, Some(Ipv4Addr::new(1, 1, 1, 1)));
}

fn redistributing(protocol: Protocol) -> InstanceCfg {
    let mut redistribution = SortedSet::new();
    redistribution.insert(protocol);
    let mut afi_safi = SortedMap::new();
    afi_safi.insert(
        AfiSafi::Ipv4Unicast,
        InstanceAfiSafiCfg { redistribution, apply_policy: ApplyPolicyCfg::default() },
    );
    InstanceCfg { afi_safi, apply_policy: ApplyPolicyCfg::default() }
}

#[test]
fn routes_of_other_protocols_are_redistributed() {
    let cfg = redistributing(Protocol::STATIC);
    let shared = InstanceShared::default();
    let mut tables = tables();
    let prefix = net(10, 0, 0, 0, 8);
    let msg = route_msg(IpNetwork::V4(prefix), Protocol::STATIC, None);
    let Some(PolicyApplyMsg::Redistribute { route, prefix: p, .. }) =
        process_route_add_af::<Ipv4Unicast>(&cfg, &msg, &shared)
    else {
        panic!("the route should be redistributed");
    };
    assert_eq!(p, IpNetwork::V4(prefix));
    assert_eq!(route.tag, Some(9));
    assert_eq!(route.origin, RouteOrigin::Protocol(Protocol::STATIC));
    let other = route_msg(IpNetwork::V4(prefix), Protocol::ISIS, None);
    assert!(process_route_add_af::<Ipv4Unicast>(&cfg, &other, &shared).is_none());

    let outcome = process_route_add(&cfg, "default", &mut tables, &msg, true, &shared);
    assert!(outcome.policy.is_some());
    let outcome = process_route_add(&cfg, "default", &mut tables, &msg, false, &shared);
    assert!(outcome.policy.is_none());

    assert!(process_route_del_af::<Ipv4Unicast>(
        &cfg,
        &mut tables.ipv4_unicast,
        IpNetwork::V4(prefix),
        Protocol::STATIC
    ));
    assert!(tables.ipv4_unicast.queued_prefixes.contains(&prefix));
    let key = RouteKeyMsg { protocol: Protocol::ISIS, table_id: None, prefix: IpNetwork::V4(prefix) };
    assert!(!process_route_del(&cfg, "default", &mut tables, &key, true, &shared));
}

#[test]
fn routes_of_network_instances_are_exported() {
    let mut shared = InstanceShared::default();
    let mut export_rts = SortedSet::new();
    export_rts.insert(rt(4));
    shared.vpn_exports.insert(1001, VpnExport { rd: rd(), export_rts, label: Label::new(600) });
    let mut tables = tables();
    let prefix = net(10, 0, 0, 0, 8);
    let msg = route_msg(IpNetwork::V4(prefix), Protocol::STATIC, Some(1001));
    assert!(vpn_export_route_add("default", &mut tables, &msg, &shared));
    let vpn = Vpnv4Prefix { rd: rd(), prefix };
    let route = tables.vpnv4_unicast.prefixes.get(&vpn).unwrap().redistribute.as_ref().unwrap();
    assert_eq!(route.vpn_label, Some(Label::new(600)));
    assert!(route.attrs.ext_comm.as_ref().unwrap().0.contains(&rt(4).to_ext_comm()));
    let unknown = route_msg(IpNetwork::V4(prefix), Protocol::STATIC, Some(7));
    assert!(!vpn_export_route_add("default", &mut tables, &unknown, &shared));

    let key = RouteKeyMsg { protocol: Protocol::STATIC, table_id: Some(1001), prefix: IpNetwork::V4(prefix) };
    assert!(vpn_export_route_del("default", &mut tables, &key, &shared));
    assert!(tables.vpnv4_unicast.prefixes.get(&vpn).unwrap().redistribute.is_none());
}

#[test]
fn requests_to_the_routing_core() {
    let prefix = IpNetwork::V4(net(10, 0, 0, 0, 8));
    let route = local_route(Some(500), &[]);
    let IbusRequest::RouteIpAdd(msg) = route_install(None, prefix, &route, 20) else {
        panic!("no route");
    };
    assert_eq!((msg.distance, msg.metric, msg.table_id), (20, 5, None));
    assert!(matches!(
        &msg.nexthops[..],
        [Nexthop::Recursive { addr, labels, resolved }]
            if *addr == v4(192, 0, 2, 1) && *labels == vec![Label::new(77)] && resolved.is_empty()
    ));
    assert!(matches!(route_uninstall(Some(4), prefix), IbusRequest::RouteIpDel(m) if m.table_id == Some(4)));
    assert!(matches!(router_id_sub(), IbusRequest::RouterIdSub));
    assert!(matches!(nexthop_track(v4(1, 1, 1, 1)), IbusRequest::NexthopTrack(a) if a == v4(1, 1, 1, 1)));
    assert!(matches!(nexthop_untrack(v4(1, 1, 1, 1)), IbusRequest::NexthopUntrack(a) if a == v4(1, 1, 1, 1)));
    assert!(route_mpls_nexthops(&None, None).is_empty());
}

#[test]
fn labels_are_installed_when_they_change() {
    let prefix = IpNetwork::V4(net(10, 0, 0, 0, 8));
    let route = local_route(Some(500), &[]);
    assert!(matches!(
        label_install(prefix, &route, None),
        Some(IbusRequest::RouteMplsAdd(msg)) if msg.label == Label::new(500) && msg.replace
    ));
    assert!(label_install(prefix, &route, Some(&local_route(Some(500), &[]))).is_none());
    assert!(label_install(prefix, &route, Some(&local_route(Some(501), &[]))).is_some());
    assert!(label_install(prefix, &local_route(Some(15), &[]), None).is_none());
    assert!(label_install(prefix, &local_route(None, &[]), None).is_none());
    assert!(matches!(
        label_uninstall(prefix, &route),
        Some(IbusRequest::RouteMplsDel(msg)) if msg.label == Label::new(500) && msg.nexthops.is_empty()
    ));
    assert!(label_uninstall(prefix, &local_route(Some(3), &[])).is_none());
}

fn connected(local_addr: IpAddr) -> Neighbor {
    let mut nbr = neighbor(2);
    nbr.conn_info =
        Some(TcpConnInfo { local_addr, local_port: 179, remote_addr: nbr.remote_addr, remote_port: 4000 });
    nbr
}

#[test]
fn next_hops_are_changed_towards_external_neighbors() {
    let local_addr = v4(192, 0, 2, 200);
    let mut nbr = connected(local_addr);
    let sent = |nbr: &Neighbor, local| {
        let mut attrs = attrs();
        Ipv4Unicast::nexthop_tx_change(nbr, local, &mut attrs.base);
        attrs.base.nexthop.unwrap()
    };
    assert_eq!(sent(&nbr, false), local_addr);
    nbr.shared_subnet = true;
    assert_eq!(sent(&nbr, false), v4(192, 0, 2, 1));
    assert_eq!(sent(&nbr, true), local_addr);
    nbr.shared_subnet = false;
    nbr.peer_type = PeerType::Internal;
    assert_eq!(sent(&nbr, false), v4(192, 0, 2, 1));
    let over_ipv6 = connected(IpAddr::V6(Ipv6Addr { bits: 5 }));
    assert_eq!(sent(&over_ipv6, true), v4(0, 0, 0, 0));
}

#[test]
fn ipv6_next_hops_are_mapped_over_ipv4_sessions() {
    let nbr = connected(v4(192, 0, 2, 200));
    let mut attrs = Attrs::default();
    attrs.base.nexthop = Some(IpAddr::V6(Ipv6Addr { bits: 1 }));
    attrs.base.ll_nexthop = Some(Ipv6Addr { bits: 2 });
    assert_eq!(Ipv6Unicast::nexthop_rx_extract(&attrs.base), IpAddr::V6(Ipv6Addr { bits: 2 }));
    Ipv6Unicast::nexthop_tx_change(&nbr, false, &mut attrs.base);
    let mapped = Ipv6Addr { bits: 0xffff_c000_02c8 };
    assert_eq!(attrs.base.nexthop, Some(IpAddr::V6(mapped)));
    assert_eq!(attrs.base.ll_nexthop, None);
    assert_eq!(Ipv6Unicast::nexthop_rx_extract(&attrs.base), IpAddr::V6(mapped));
}

#[test]
fn prefixes_of_families() {
    let v4 = IpNetwork::V4(net(10, 0, 0, 0, 8));
    let v6 = IpNetwork::V6(Ipv6Network { addr: Ipv6Addr { bits: 0 }, prefix: 0 });
    assert_eq!(Ipv4Unicast::prefix_from_ip_network(v4), Some(net(10, 0, 0, 0, 8)));
    assert_eq!(Ipv4Unicast::prefix_from_ip_network(v6), None);
    assert!(Ipv6Unicast::prefix_from_ip_network(v6).is_some());
    assert_eq!(Ipv6Unicast::prefix_from_ip_network(v4), None);
    assert!(Vpnv4Unicast::prefix_from_ip_network(v4).is_none());
    assert!(Vpnv6Unicast::prefix_from_ip_network(v6).is_none());
    assert_eq!(Ipv4Unicast::prefix_to_ip_network(net(10, 0, 0, 0, 8)), v4);
    let vpn = Vpnv4Prefix { rd: rd(), prefix: net(10, 0, 0, 0, 8) };
    assert_eq!(Vpnv4Unicast::prefix_to_ip_network(vpn), v4);
    assert_eq!(Vpnv4Unicast::afi_safi(), AfiSafi::L3vpnIpv4Unicast);
    assert_eq!(Ipv6Unicast::afi_safi(), AfiSafi::Ipv6Unicast);
}

#[test]
fn attributes_need_a_next_hop_and_room() {
    assert!(Ipv4Unicast::can_send(&attrs(), false));
    assert!(!Ipv4Unicast::can_send(&Attrs::default(), false));
    assert!(!Ipv6Unicast::can_send(&attrs(), false));
    assert!(Vpnv4Unicast::can_send(&attrs(), false));
    let mut long = attrs();
    let mut comms = SortedSet::new();
    for i in 0..1020u32 {
        comms.insert(holo::bgp::Comm(i));
    }
    long.comm = Some(Arc::new(CommList(comms)));
    assert!(!Ipv4Unicast::can_send(&long, false));
}
