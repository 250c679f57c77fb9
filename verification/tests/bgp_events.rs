use holo::af::Ipv4Unicast;
use holo::attribute::Attrs;
use holo::bgp::AfiSafi;
use holo::bgp::EthernetSegmentId;
use holo::bgp::RouteDistinguisher;
use holo::bgp::RouteType;
use holo::events::collect_policies;
use holo::events::prefix_limit_exceeded;
use holo::events::process_evpn_mass_withdraw;
use holo::events::process_evpn_unreach_routes;
use holo::events::process_nbr_reach_prefixes;
use holo::events::process_nbr_reach_prefixes_pre_policy;
use holo::events::process_nbr_unreach_prefixes;
use holo::events::reapply_import_policy_all;
use holo::events::reapply_nbr_import_policy;
use holo::events::reapply_nbr_import_policy_for_nbr;
use holo::events::PolicyApplyMsg;
use holo::events::ReachOutcome;
use holo::evpn::MAX_ETHERNET_TAG_ID;
use holo::ip::IpAddr;
use holo::ip::IpNetwork;
use holo::ip::Ipv4Addr;
use holo::ip::Ipv4Network;
use holo::message::EvpnEthernetAutoDiscovery;
use holo::message::EvpnMacIpAdvertisement;
use holo::message::EvpnRoute;
use holo::message::ReachNlri;
use holo::message::UnreachNlri;
use holo::message::UpdateMsg;
use holo::nbr_update::process_nbr_update;
use holo::nbr_update::UpdateEffects;
use holo::neighbor::Neighbor;
use holo::neighbor::NeighborAfiSafiCfg;
use holo::neighbor::Neighbors;
use holo::neighbor::PeerType;
use holo::neighbor::PrefixLimitCfg;
use holo::neighbor::State;
use holo::ord::SortedMap;
use holo::ord::SortedSet;
use holo::path::Path;
use holo::policy_types::DefaultPolicyType;
use holo::policy_types::Policy;
use holo::policy_types::PolicyType;
use holo::protocol::Label;
use holo::rib::NexthopOp;
use holo::rib::Route;
use holo::rib::RouteOrigin;
use holo::rib::RoutingTable;
use holo::rib::RoutingTables;
use holo::shared::InstanceShared;
use std::sync::Arc;

const ESI: EthernetSegmentId = [0x03, 0x00, 0x11, 0x22, 0x33, 0x44, 0x55, 0x66, 0, 1];

fn net(a: u8, b: u8, c: u8, d: u8, prefix: u8) -> Ipv4Network {
    Ipv4Network { addr: Ipv4Addr::new(a, b, c, d), prefix }
}

fn remote() -> IpAddr {
    IpAddr::V4(Ipv4Addr::new(192, 0, 2, 2))
}

fn established(remote_addr: IpAddr, families: &[AfiSafi]) -> Neighbor {
    let mut nbr = Neighbor::new(remote_addr, PeerType::External);
    nbr.state = State::Established;
    nbr.identifier = Some(Ipv4Addr::new(192, 0, 2, 2));
    let mut negotiated = SortedSet::new();
    for afi_safi in families {
        nbr.config.afi_safi.insert(*afi_safi, NeighborAfiSafiCfg::default());
        nbr.config.afi_safi.get_mut(afi_safi).unwrap().enabled = true;
        negotiated.insert(*afi_safi);
    }
    nbr.negotiated_afs = Some(negotiated);
    nbr
}

fn path<P>(prefix: P) -> Path<P> {
    Path { prefix, path_id: 0 }
}

fn origin(nbr: &Neighbor) -> RouteOrigin {
    RouteOrigin::Neighbor { identifier: nbr.identifier.unwrap(), remote_addr: nbr.remote_addr }
}

fn tables() -> RoutingTables {
    RoutingTables {
        ipv4_unicast: RoutingTable::new(),
        ipv6_unicast: RoutingTable::new(),
        vpnv4_unicast: RoutingTable::new(),
        vpnv6_unicast: RoutingTable::new(),
        l2vpn_evpn: RoutingTable::new(),
    }
}

fn mac_route(mac: u8) -> EvpnRoute {
    EvpnRoute::MacIpAdvertisement(EvpnMacIpAdvertisement {
        rd: RouteDistinguisher::As2Administrator { asn: 65000, number: 1 },
        esi: ESI,
        ethernet_tag_id: 100,
        mac: [0, 0, 0, 0, 0, mac],
        ip: None,
        label: 16000,
    })
}

fn discovery(ethernet_tag_id: u32, label: u32) -> EvpnRoute {
    EvpnRoute::EthernetAutoDiscovery(EvpnEthernetAutoDiscovery {
        rd: RouteDistinguisher::As2Administrator { asn: 65000, number: 1 },
        esi: ESI,
        ethernet_tag_id,
        label,
    })
}

#[test]
fn import_reapply_uses_retained_adj_rib_in_pre() {
    let remote_addr = remote();
    let mut shared = InstanceShared::default();
    shared.policies.insert("SOFT-IN".to_owned(), Arc::new(Policy::new("SOFT-IN".to_owned())));

    let mut nbr = Neighbor::new(remote_addr, PeerType::External);
    nbr.state = State::Established;
    nbr.identifier = Some(Ipv4Addr::new(192, 0, 2, 2));
    nbr.config.afi_safi.insert(AfiSafi::Ipv4Unicast, NeighborAfiSafiCfg::default());
    let afi_safi = nbr.config.afi_safi.get_mut(&AfiSafi::Ipv4Unicast).unwrap();
    afi_safi.enabled = true;
    afi_safi.apply_policy.import_policy.insert("SOFT-IN".to_owned());

    let mut table: RoutingTable<Ipv4Network> = RoutingTable::new();
    for prefix in [net(198, 51, 100, 1, 32), net(198, 51, 100, 2, 32)] {
        let route = Route::new(origin(&nbr), Attrs::default(), RouteType::External);
        table.adj_mut(path(prefix), remote_addr).in_pre = Some(route);
    }

    let accepted_prefix = net(198, 51, 100, 1, 32);
    let route = Route::new(origin(&nbr), Attrs::default(), RouteType::External);
    table.adj_mut(path(accepted_prefix), remote_addr).in_post = Some(route);

    let msg = reapply_nbr_import_policy_for_nbr::<Ipv4Unicast>(&table, &shared, &nbr).unwrap();
    let PolicyApplyMsg::Neighbor {
        policy_type,
        nbr_addr,
        afi_safi,
        routes,
        missing_policy,
        policies,
        path_ids,
        ..
    } = msg
    else {
        panic!("unexpected policy apply message");
    };
    assert!(matches!(policy_type, PolicyType::Import));
    assert_eq!(nbr_addr, remote_addr);
    assert_eq!(afi_safi, AfiSafi::Ipv4Unicast);
    assert!(!missing_policy);
    assert_eq!(policies.len(), 1);
    assert_eq!(path_ids, vec![0, 0]);
    assert_eq!(
        routes.into_iter().map(|(prefix, _)| prefix).collect::<Vec<_>>(),
        vec![
            IpNetwork::V4(net(198, 51, 100, 1, 32)),
            IpNetwork::V4(net(198, 51, 100, 2, 32)),
        ]
    );
}

#[test]
fn import_is_not_reapplied_without_session_or_routes() {
    let shared = InstanceShared::default();
    let mut table: RoutingTable<Ipv4Network> = RoutingTable::new();
    let mut nbr = established(remote(), &[AfiSafi::Ipv4Unicast]);
    assert!(reapply_nbr_import_policy_for_nbr::<Ipv4Unicast>(&table, &shared, &nbr).is_none());
    let route = Route::new(origin(&nbr), Attrs::default(), RouteType::External);
    table.adj_mut(path(net(10, 0, 0, 0, 8)), remote()).in_pre = Some(route);
    assert!(reapply_nbr_import_policy_for_nbr::<Ipv4Unicast>(&table, &shared, &nbr).is_some());

    let mut neighbors: Neighbors = SortedMap::new();
    neighbors.insert(remote(), established(remote(), &[AfiSafi::Ipv4Unicast]));
    assert!(reapply_nbr_import_policy::<Ipv4Unicast>(&table, &shared, &neighbors, remote()).is_some());
    let unknown = IpAddr::V4(Ipv4Addr::new(192, 0, 2, 9));
    assert!(reapply_nbr_import_policy::<Ipv4Unicast>(&table, &shared, &neighbors, unknown).is_none());
    assert_eq!(reapply_import_policy_all::<Ipv4Unicast>(&table, &shared, &neighbors).len(), 1);

    nbr.state = State::OpenSent;
    assert!(reapply_nbr_import_policy_for_nbr::<Ipv4Unicast>(&table, &shared, &nbr).is_none());
}

#[test]
fn a_policy_that_is_not_defined_is_missing() {
    let mut shared = InstanceShared::default();
    shared.policies.insert("A".to_owned(), Arc::new(Policy::new("A".to_owned())));
    let mut names = SortedSet::new();
    names.insert("A".to_owned());
    let (missing, policies) = collect_policies(&names, &shared);
    assert!(!missing);
    assert_eq!(policies.len(), 1);
    names.insert("B".to_owned());
    let (missing, policies) = collect_policies(&names, &shared);
    assert!(missing);
    assert_eq!(policies.len(), 1);
}

#[test]
fn received_routes_are_kept_and_policies_applied() {
    let shared = InstanceShared::default();
    let mut table: RoutingTable<Ipv4Network> = RoutingTable::new();
    let nbr = established(remote(), &[AfiSafi::Ipv4Unicast]);
    let prefix = net(10, 0, 0, 0, 8);
    let outcome =
        process_nbr_reach_prefixes::<Ipv4Unicast>(&nbr, &mut table, vec![path(prefix)], Attrs::default(), &shared);
    let ReachOutcome::Apply(PolicyApplyMsg::Neighbor { routes, default_policy, .. }) = outcome else {
        panic!("policies should be applied");
    };
    assert_eq!(routes.len(), 1);
    assert_eq!(routes[0].0, IpNetwork::V4(prefix));
    assert_eq!(default_policy, DefaultPolicyType::RejectRoute);
    let adj = table.adj_get(path(prefix), remote()).unwrap();
    assert!(adj.in_pre.is_some());
    assert!(adj.in_post.is_none());
}

#[test]
fn received_routes_of_a_family_not_in_use_are_ignored() {
    let shared = InstanceShared::default();
    let mut table: RoutingTable<Ipv4Network> = RoutingTable::new();
    let nbr = established(remote(), &[AfiSafi::Ipv6Unicast]);
    let outcome = process_nbr_reach_prefixes::<Ipv4Unicast>(
        &nbr,
        &mut table,
        vec![path(net(10, 0, 0, 0, 8))],
        Attrs::default(),
        &shared,
    );
    assert!(matches!(outcome, ReachOutcome::Ignored));
    assert!(table.prefixes.is_empty());
}

#[test]
fn too_many_prefixes_tear_the_session_down() {
    let shared = InstanceShared::default();
    let mut table: RoutingTable<Ipv4Network> = RoutingTable::new();
    let mut nbr = established(remote(), &[AfiSafi::Ipv4Unicast]);
    let cfg = nbr.config.afi_safi.get_mut(&AfiSafi::Ipv4Unicast).unwrap();
    cfg.prefix_limit = PrefixLimitCfg { max_prefixes: Some(1), teardown: true };
    let one = vec![path(net(10, 0, 0, 0, 8)), Path { prefix: net(10, 0, 0, 0, 8), path_id: 1 }];
    let two = vec![path(net(10, 0, 0, 0, 8)), path(net(11, 0, 0, 0, 8))];
    assert!(!prefix_limit_exceeded(&nbr, &table, AfiSafi::Ipv4Unicast, &one));
    assert!(prefix_limit_exceeded(&nbr, &table, AfiSafi::Ipv4Unicast, &two));
    let outcome = process_nbr_reach_prefixes::<Ipv4Unicast>(&nbr, &mut table, two, Attrs::default(), &shared);
    assert!(matches!(outcome, ReachOutcome::LimitExceeded));
    assert!(table.prefixes.is_empty());
}

#[test]
fn vpn_routes_are_tracked_and_queued() {
    let mut table: RoutingTable<Ipv4Network> = RoutingTable::new();
    let nbr = established(remote(), &[AfiSafi::L3vpnIpv4Unicast]);
    let prefix = net(10, 0, 0, 0, 8);
    let mut ops = vec![];
    assert!(!process_nbr_reach_prefixes_pre_policy(
        &nbr,
        &mut table,
        AfiSafi::L3vpnIpv4Unicast,
        vec![(path(prefix), Label::new(100))],
        Attrs::default(),
        &mut ops,
    ));
    assert_eq!(ops.len(), 1);
    assert!(matches!(&ops[0], NexthopOp::Track { prefix: p, .. } if *p == prefix));
    assert!(table.queued_prefixes.contains(&prefix));
    let adj = table.adj_get(path(prefix), remote()).unwrap();
    assert_eq!(adj.in_post.as_ref().unwrap().vpn_label, Some(Label::new(100)));

    ops.clear();
    process_nbr_unreach_prefixes(&nbr, &mut table, AfiSafi::L3vpnIpv4Unicast, &vec![path(prefix)], &mut ops);
    assert!(matches!(&ops[0], NexthopOp::Untrack { prefix: p, .. } if *p == prefix));
    let adj = table.adj_get(path(prefix), remote()).unwrap();
    assert!(adj.in_pre.is_none() && adj.in_post.is_none());
}

fn evpn_table(nbr: &Neighbor, other: &Neighbor) -> RoutingTable<EvpnRoute> {
    let mut table: RoutingTable<EvpnRoute> = RoutingTable::new();
    for (nbr, mac) in [(nbr, 1), (nbr, 2), (other, 3)] {
        let route = Route::new(origin(nbr), Attrs::default(), RouteType::External);
        table.adj_mut(path(mac_route(mac)), nbr.remote_addr).in_post = Some(route);
    }
    table
}

#[test]
fn mass_withdrawal_spares_other_peers() {
    let nbr = established(remote(), &[AfiSafi::L2vpnEvpn]);
    let other_addr = IpAddr::V4(Ipv4Addr::new(192, 0, 2, 3));
    let other = established(other_addr, &[AfiSafi::L2vpnEvpn]);
    let mut table = evpn_table(&nbr, &other);
    let mut ops = vec![];
    process_evpn_mass_withdraw(&nbr, &mut table, ESI, &mut ops);
    assert_eq!(ops.len(), 2);
    assert!(table.adj_get(path(mac_route(1)), remote()).unwrap().in_post.is_none());
    assert!(table.adj_get(path(mac_route(2)), remote()).unwrap().in_post.is_none());
    assert!(table.adj_get(path(mac_route(3)), other_addr).unwrap().in_post.is_some());
}

#[test]
fn withdrawing_the_discovery_route_of_a_segment_withdraws_its_macs() {
    let nbr = established(remote(), &[AfiSafi::L2vpnEvpn]);
    let other = established(IpAddr::V4(Ipv4Addr::new(192, 0, 2, 3)), &[AfiSafi::L2vpnEvpn]);
    let mut table = evpn_table(&nbr, &other);
    let mut ops = vec![];
    process_evpn_unreach_routes(&nbr, &mut table, &vec![path(discovery(7, 100))], &mut ops);
    assert_eq!(ops.len(), 0);
    process_evpn_unreach_routes(&nbr, &mut table, &vec![path(discovery(MAX_ETHERNET_TAG_ID, 0))], &mut ops);
    assert_eq!(ops.len(), 2);
}

#[test]
fn an_update_is_processed_in_all_its_parts() {
    let shared = InstanceShared::default();
    let nbr = established(remote(), &[AfiSafi::Ipv4Unicast]);
    let mut tables = tables();
    let mut fx = UpdateEffects::new();
    let prefix = net(10, 0, 0, 0, 8);
    let msg = UpdateMsg {
        reach: Some(ReachNlri { prefixes: vec![prefix], path_ids: vec![], nexthop: Ipv4Addr::new(192, 0, 2, 2) }),
        unreach: None,
        mp_reach: None,
        mp_unreach: None,
        attrs: Some(Attrs::default()),
    };
    assert!(!process_nbr_update(&nbr, &mut tables, &msg, &shared, &mut fx));
    assert_eq!(fx.policy.len(), 1);
    let adj = tables.ipv4_unicast.adj_get(path(prefix), remote()).unwrap();
    let nexthop = adj.in_pre.as_ref().unwrap().attrs.base.nexthop;
    assert_eq!(nexthop, Some(IpAddr::V4(Ipv4Addr::new(192, 0, 2, 2))));

    let msg = UpdateMsg {
        reach: None,
        unreach: Some(UnreachNlri { prefixes: vec![prefix], path_ids: vec![] }),
        mp_reach: None,
        mp_unreach: None,
        attrs: None,
    };
    process_nbr_update(&nbr, &mut tables, &msg, &shared, &mut fx);
    let adj = tables.ipv4_unicast.adj_get(path(prefix), remote()).unwrap();
    assert!(adj.in_pre.is_none());
    assert!(tables.ipv4_unicast.queued_prefixes.contains(&prefix));
}
