use holo::bgp::RouteTarget;
use holo::ip::AddressFamily;
use holo::ip::IpAddr;
use holo::ip::IpNetwork;
use holo::ip::Ipv4Addr;
use holo::ip::Ipv4Network;
use holo::ip::Ipv6Addr;
use holo::ip::Ipv6Network;
use holo::ord::SortedMap;
use holo::ord::SortedSet;
use holo::policy::RouteOpaqueAttrs;
use holo::policy_types::Policy;
use holo::protocol::Protocol;
use holo::routing::InstanceId;
use holo::routing::NexthopSpecial;
use holo::routing::StaticRouteKey;
use holo::routing::StaticRouteNexthop;
use holo::routing_cfg::bier_apply;
use holo::routing_cfg::network_instance_apply;
use holo::routing_cfg::network_instance_delete;
use holo::routing_cfg::process_event;
use holo::routing_cfg::protocol_bind;
use holo::routing_cfg::protocol_create_prepare;
use holo::routing_cfg::protocol_remove;
use holo::routing_cfg::relay_changes;
use holo::routing_cfg::sr_apply;
use holo::routing_cfg::static_route_apply;
use holo::routing_cfg::static_route_create;
use holo::routing_cfg::static_route_delete;
use holo::routing_cfg::validate_protocol;
use holo::routing_cfg::Event;
use holo::routing_cfg::EventOutput;
use holo::routing_cfg::InstanceError;
use holo::routing_cfg::ListEntry;
use holo::routing_cfg::NetworkInstanceChange;
use holo::routing_cfg::Resource;
use holo::routing_cfg::StaticRouteChange;
use holo::routing_cfg::ValidationError;
use holo::routing_ibus::disconnect;
use holo::routing_ibus::notify_nht_update;
use holo::routing_ibus::notify_redistribute_add;
use holo::routing_ibus::notify_redistribute_del;
use holo::routing_ibus::process_msg;
use holo::routing_ibus::process_notification_msg;
use holo::routing_ibus::request_addresses;
use holo::routing_ibus::route_table_id;
use holo::routing_ibus::IbusMsg;
use holo::routing_ibus::InterfaceMsg;
use holo::routing_ibus::Output;
use holo::routing_ibus::RibRequest;
use holo::routing_master::instance_start;
use holo::routing_master::instance_started;
use holo::routing_master::network_instance_create;
use holo::routing_master::remove_instance;
use holo::routing_master::static_nexthop_get;
use holo::routing_master::static_route_install;
use holo::routing_master::static_route_table_id;
use holo::routing_master::IbusClient;
use holo::routing_master::InstanceHandle;
use holo::routing_master::Keychain;
use holo::routing_master::Master;
use holo::routing_master::NhtEntry;
use holo::routing_master::RedistributeKey;
use holo::routing_master::RedistributeSub;
use holo::routing_master::Route;
use holo::routing_master::StaticNexthop;
use holo::southbound::Nexthop;
use holo::southbound::RouteKind;
use holo::southbound::RouteMsg;
use holo::sr_bier::in_bift_id;
use holo::sr_bier::out_bift_id;
use holo::sr_bier::validate_sub_domain;
use holo::sr_bier::BierOutBiftId;
use holo::sr_bier::BierChange;
use holo::sr_bier::BierEncapsulation;
use holo::sr_bier::BierEncapsulationType;
use holo::sr_bier::BierInBiftId;
use holo::sr_bier::Bsl;
use holo::sr_bier::EncapKey;
use holo::sr_bier::IgpAlgoType;
use holo::sr_bier::LabelRange;
use holo::sr_bier::PrefixSidKey;
use holo::sr_bier::SidLastHopBehavior;
use holo::sr_bier::SrCfgPrefixSid;
use holo::sr_bier::SrChange;
use holo::sr_bier::SubDomainChange;
use holo::sr_bier::SubDomainCreate;
use holo::sr_bier::SubDomainError;
use holo::sr_bier::SubDomainKey;
use holo::sr_bier::UnderlayProtocolType;
use std::sync::Arc;

fn net(a: u8, b: u8, c: u8, d: u8, prefix: u8) -> IpNetwork {
    IpNetwork::V4(Ipv4Network { addr: Ipv4Addr::new(a, b, c, d), prefix })
}

fn v4(a: u8, b: u8, c: u8, d: u8) -> IpAddr {
    IpAddr::V4(Ipv4Addr::new(a, b, c, d))
}

fn key(network_instance: &str) -> StaticRouteKey {
    StaticRouteKey {
        instance_id: InstanceId::new_with_network_instance(
            Protocol::STATIC,
            "static".to_owned(),
            network_instance.to_owned(),
        ),
        prefix: net(10, 0, 0, 0, 8),
    }
}

fn route(protocol: Protocol, active: bool) -> Route {
    Route {
        protocol,
        kind: RouteKind::Unicast,
        table_id: None,
        distance: 1,
        metric: 2,
        tag: None,
        opaque_attrs: RouteOpaqueAttrs::Empty,
        nexthops: Arc::new(vec![]),
        active,
        removed: false,
    }
}

fn client(id: u64) -> IbusClient {
    IbusClient { id, channel: id + 100 }
}

#[test]
fn network_instance_create_resolves_prelearned_vrf_table() {
    let mut master = Master::new();
    master.interfaces.update("blue".to_owned(), 10, true, Some(1001));

    network_instance_create(&mut master, "blue".to_owned());

    assert_eq!(
        master.network_instances.get(&"blue".to_owned()).unwrap().table_id,
        Some(1001)
    );
}

#[test]
fn interface_update_resolves_existing_network_instance_table() {
    let mut master = Master::new();
    network_instance_create(&mut master, "red".to_owned());
    assert_eq!(master.network_instances.get(&"red".to_owned()).unwrap().table_id, None);

    process_notification_msg(
        &mut master,
        InterfaceMsg::InterfaceUpd {
            ifname: "red".to_owned(),
            ifindex: 11,
            operative: true,
            vrf_table_id: Some(1002),
        },
    );

    assert_eq!(
        master.network_instances.get(&"red".to_owned()).unwrap().table_id,
        Some(1002)
    );
}

#[test]
fn connected_routes_follow_addresses() {
    let mut master = Master::new();
    master.interfaces.update("eth0".to_owned(), 3, true, None);
    let outputs = process_notification_msg(
        &mut master,
        InterfaceMsg::InterfaceAddressAdd { ifname: "eth0".to_owned(), addr: net(192, 0, 2, 77, 24), unnumbered: false },
    );
    let Output::RouteIpAdd(msg) = &outputs[0] else {
        panic!("no route");
    };
    assert_eq!(msg.prefix, net(192, 0, 2, 0, 24));
    assert_eq!(msg.protocol, Protocol::DIRECT);
    assert!(matches!(&msg.nexthops[..], [Nexthop::Interface { ifindex: 3 }]));
    let outputs = process_notification_msg(
        &mut master,
        InterfaceMsg::InterfaceAddressDel { ifname: "eth0".to_owned(), addr: net(192, 0, 2, 77, 24), unnumbered: false },
    );
    assert!(matches!(&outputs[..], [Output::RouteIpDel(m)] if m.prefix == net(192, 0, 2, 0, 24)));
    assert!(master.interfaces.by_name.get(&"eth0".to_owned()).unwrap().addresses.is_empty());
}

#[test]
fn subscriptions_get_active_routes() {
    let mut master = Master::new();
    let prefix = Ipv4Network { addr: Ipv4Addr::new(10, 0, 0, 0), prefix: 8 };
    master.rib_ipv4.insert(prefix, vec![route(Protocol::STATIC, true)]);
    let inactive = Ipv4Network { addr: Ipv4Addr::new(11, 0, 0, 0), prefix: 8 };
    master.rib_ipv4.insert(inactive, vec![route(Protocol::STATIC, false)]);
    let outputs = process_msg(
        &mut master,
        client(1),
        IbusMsg::RouteRedistributeSub { protocol: Protocol::STATIC, af: Some(AddressFamily::Ipv4) },
    );
    assert!(matches!(
        &outputs[..],
        [Output::RedistributeAdd { channel: 101, msg }] if msg.prefix == IpNetwork::V4(prefix)
    ));
    assert!(master.subscriptions.contains_key(&1));

    process_msg(
        &mut master,
        client(1),
        IbusMsg::RouteRedistributeUnsub { protocol: Protocol::STATIC, af: Some(AddressFamily::Ipv4) },
    );
    let left = master.subscriptions.get(&1).map(|sub| sub.protocols.len()).unwrap_or(0);
    assert_eq!(left, 0);
}

#[test]
fn notices_go_to_those_who_subscribed() {
    let mut protocols = SortedSet::new();
    protocols.insert(RedistributeKey { af: AddressFamily::Ipv4, protocol: Protocol::STATIC });
    let sub = RedistributeSub { protocols, channel: 7 };
    let prefix = net(10, 0, 0, 0, 8);
    assert!(matches!(
        notify_redistribute_add(&sub, prefix, &route(Protocol::STATIC, true)),
        Some(Output::RedistributeAdd { channel: 7, .. })
    ));
    assert!(notify_redistribute_add(&sub, prefix, &route(Protocol::ISIS, true)).is_none());
    assert!(matches!(
        notify_redistribute_del(&sub, prefix, Protocol::STATIC),
        Some(Output::RedistributeDel { channel: 7, .. })
    ));
    let v6 = IpNetwork::V6(Ipv6Network { addr: Ipv6Addr { bits: 0 }, prefix: 0 });
    assert!(notify_redistribute_del(&sub, v6, Protocol::STATIC).is_none());

    let mut subscriptions = SortedMap::new();
    subscriptions.insert(1, 101);
    subscriptions.insert(2, 102);
    let outputs = notify_nht_update(v4(1, 1, 1, 1), &NhtEntry { metric: Some(5), subscriptions });
    assert!(matches!(
        &outputs[..],
        [
            Output::NexthopUpd { channel: 101, metric: Some(5), .. },
            Output::NexthopUpd { channel: 102, .. }
        ]
    ));
}

#[test]
fn messages_update_what_instances_share() {
    let mut master = Master::new();
    instance_started(
        &mut master,
        InstanceId::new(Protocol::BGP, "main".to_owned()),
        InstanceHandle { nb_channel: 1, channel: 2 },
    );
    let name = "K".to_owned();
    let outputs =
        process_msg(&mut master, client(9), IbusMsg::KeychainUpd(Arc::new(Keychain { name: name.clone() })));
    assert!(matches!(&outputs[..], [Output::Relay { channel: 2 }]));
    assert!(master.shared.keychains.contains_key(&name));
    process_msg(&mut master, client(9), IbusMsg::KeychainDel(name.clone()));
    assert!(!master.shared.keychains.contains_key(&name));
    process_msg(&mut master, client(9), IbusMsg::PolicyUpd(Arc::new(Policy::new("P".to_owned()))));
    assert!(master.shared.policies.contains_key(&"P".to_owned()));
    process_msg(&mut master, client(9), IbusMsg::PolicyDel("P".to_owned()));
    assert!(!master.shared.policies.contains_key(&"P".to_owned()));
}

#[test]
fn routes_are_handed_to_the_table_with_their_owner() {
    let mut master = Master::new();
    let msg = RouteMsg {
        protocol: Protocol::ISIS,
        kind: RouteKind::Unicast,
        table_id: None,
        prefix: net(10, 0, 0, 0, 8),
        distance: 115,
        metric: 10,
        tag: None,
        opaque_attrs: RouteOpaqueAttrs::Empty,
        nexthops: Arc::new(vec![]),
    };
    let outputs = process_msg(&mut master, client(4), IbusMsg::RouteIpAdd(msg));
    assert!(matches!(&outputs[..], [Output::Rib(RibRequest::IpRouteAdd { owner: 4, .. })]));
    let outputs = process_msg(&mut master, client(4), IbusMsg::NexthopTrack { addr: v4(1, 1, 1, 1) });
    assert!(matches!(&outputs[..], [Output::Rib(RibRequest::NhtAdd { .. })]));
    assert!(matches!(disconnect(&mut master, 4), Output::Rib(RibRequest::RemoveAllByOwner(4))));
    assert!(matches!(request_addresses(), Output::InterfaceSub));
}

#[test]
fn the_table_of_a_client_is_that_of_its_network_instance() {
    let mut master = Master::new();
    master.interfaces.update("blue".to_owned(), 10, true, Some(1001));
    network_instance_create(&mut master, "blue".to_owned());
    let id = InstanceId::new_with_network_instance(Protocol::OSPFV2, "main".to_owned(), "blue".to_owned());
    instance_started(&mut master, id, InstanceHandle { nb_channel: 1, channel: 105 });
    let mut table_id = None;
    assert!(route_table_id(&master, &client(5), &mut table_id));
    assert_eq!(table_id, Some(1001));
}

#[test]
fn static_routes_are_configured_and_installed() {
    let mut master = Master::new();
    master.interfaces.update("eth0".to_owned(), 3, true, None);
    static_route_create(&mut master, key("default"));
    let event = static_route_apply(
        &mut master,
        key("default"),
        StaticRouteChange::OutgoingInterface(Some("eth0".to_owned())),
    );
    assert!(matches!(event, Event::StaticRouteInstall(_)));
    static_route_apply(&mut master, key("default"), StaticRouteChange::NextHopAddress(Some(v4(192, 0, 2, 1))));
    let outputs = process_event(&mut master, event);
    let [EventOutput::RouteIpAdd(msg)] = &outputs[..] else {
        panic!("no route");
    };
    assert_eq!(msg.protocol, Protocol::STATIC);
    assert_eq!((msg.table_id, msg.prefix, msg.distance), (None, net(10, 0, 0, 0, 8), 1));
    assert!(matches!(
        &msg.nexthops[..],
        [Nexthop::Address { ifindex: 3, addr, .. }] if *addr == v4(192, 0, 2, 1)
    ));

    static_route_apply(
        &mut master,
        key("default"),
        StaticRouteChange::SpecialNextHop(Some(NexthopSpecial::Blackhole)),
    );
    let msg = static_route_install(&master, &key("default")).unwrap();
    assert_eq!(msg.kind, RouteKind::Blackhole);

    let event = static_route_delete(&mut master, key("default"));
    let outputs = process_event(&mut master, event);
    assert!(matches!(
        &outputs[..],
        [EventOutput::RouteIpDel(m)] if m.prefix == net(10, 0, 0, 0, 8) && m.table_id.is_none()
    ));
    assert!(static_route_install(&master, &key("default")).is_none());
}

#[test]
fn static_next_hops_are_listed() {
    let mut master = Master::new();
    master.interfaces.update("eth0".to_owned(), 3, true, None);
    static_route_create(&mut master, key("default"));
    let index = || "1".to_owned();
    static_route_apply(&mut master, key("default"), StaticRouteChange::NextHopCreate(index()));
    static_route_apply(
        &mut master,
        key("default"),
        StaticRouteChange::NextHopOutgoingInterface(index(), Some("eth0".to_owned())),
    );
    let msg = static_route_install(&master, &key("default")).unwrap();
    assert!(matches!(&msg.nexthops[..], [Nexthop::Interface { ifindex: 3 }]));
    static_route_apply(&mut master, key("default"), StaticRouteChange::NextHopDelete(index()));
    let msg = static_route_install(&master, &key("default")).unwrap();
    assert!(msg.nexthops.is_empty());
}

#[test]
fn static_routes_wait_for_the_table_of_their_network_instance() {
    let mut master = Master::new();
    assert_eq!(static_route_table_id(&master, &key("default")), Some(None));
    assert_eq!(static_route_table_id(&master, &key("blue")), None);
    network_instance_create(&mut master, "blue".to_owned());
    assert_eq!(static_route_table_id(&master, &key("blue")), None);
    master.interfaces.update("blue".to_owned(), 10, true, Some(1001));
    network_instance_create(&mut master, "blue".to_owned());
    assert_eq!(static_route_table_id(&master, &key("blue")), Some(Some(1001)));
}

#[test]
fn static_next_hops_need_their_interface() {
    let mut master = Master::new();
    let by_name = StaticRouteNexthop { ifname: Some("eth0".to_owned()), addr: None };
    assert_eq!(static_nexthop_get(&master.interfaces, &by_name), None);
    master.interfaces.update("eth0".to_owned(), 3, true, None);
    assert_eq!(
        static_nexthop_get(&master.interfaces, &by_name),
        Some(StaticNexthop::Interface { ifindex: 3 })
    );
    assert_eq!(static_nexthop_get(&master.interfaces, &StaticRouteNexthop { ifname: None, addr: None }), None);
}

#[test]
fn protocol_instances_are_created_and_removed() {
    let mut master = Master::new();
    let create = |master: &mut Master, ptype| protocol_create_prepare(master, ptype, "main".to_owned(), None);
    assert!(matches!(create(&mut master, None), Err(InstanceError::UnknownProtocolType)));
    assert!(matches!(
        create(&mut master, Some(Protocol::DIRECT)),
        Err(InstanceError::InvalidProtocolType)
    ));
    assert!(matches!(create(&mut master, Some(Protocol::BFD)), Ok(None)));
    let Ok(Some(event)) = create(&mut master, Some(Protocol::BGP)) else {
        panic!("the instance should start");
    };
    let outputs = process_event(&mut master, event);
    assert!(matches!(
        &outputs[..],
        [EventOutput::StartInstance(id)] if id.protocol == Protocol::BGP && id.network_instance == "default"
    ));
    let id = InstanceId::new(Protocol::BGP, "main".to_owned());
    protocol_bind(&mut master, InstanceId::new(Protocol::BGP, "main".to_owned()), Some("blue".to_owned()));
    assert_eq!(master.instance_ni.get(&id).unwrap(), "blue");
    protocol_remove(&mut master, InstanceId::new(Protocol::BGP, "main".to_owned()));
    assert!(!master.instance_ni.contains_key(&id));
}

#[test]
fn instances_start_where_they_are_bound() {
    let mut master = Master::new();
    protocol_bind(&mut master, InstanceId::new(Protocol::BGP, "main".to_owned()), Some("blue".to_owned()));
    let outputs = process_event(
        &mut master,
        Event::InstanceStart {
            protocol: Protocol::BGP,
            name: "main".to_owned(),
            network_instance: "red".to_owned(),
        },
    );
    assert!(matches!(&outputs[..], [EventOutput::StartInstance(id)] if id.network_instance == "blue"));
    assert!(instance_start(Protocol::STATIC, "s".to_owned(), "default".to_owned()).is_none());

    let id = || InstanceId::new(Protocol::BGP, "main".to_owned());
    instance_started(&mut master, id(), InstanceHandle { nb_channel: 1, channel: 2 });
    assert!(master.instances.contains_key(&id()));
    remove_instance(&mut master, &id());
    assert!(!master.instances.contains_key(&id()));
}

#[test]
fn protocol_names_are_validated() {
    assert_eq!(validate_protocol(None, "x"), Err(ValidationError::UnknownProtocol));
    assert_eq!(validate_protocol(Some(Protocol::BFD), "x"), Err(ValidationError::BfdName));
    assert_eq!(validate_protocol(Some(Protocol::BFD), "main"), Ok(()));
    assert_eq!(validate_protocol(Some(Protocol::BGP), "x"), Ok(()));
}

#[test]
fn network_instances_share_their_route_targets() {
    let mut master = Master::new();
    let name = "blue".to_owned();
    network_instance_create(&mut master, name.clone());
    let rt = RouteTarget::As2Administrator { asn: 65000, number: 1 };
    network_instance_apply(&mut master, &name, NetworkInstanceChange::ImportRtAdd(rt));
    assert!(master.shared.vpn_imports.get(&name).unwrap().import_rts.contains(&rt));
    network_instance_apply(&mut master, &name, NetworkInstanceChange::Description(Some("d".to_owned())));
    assert_eq!(
        master.network_instances.get(&name).unwrap().description.as_deref(),
        Some("d")
    );
    network_instance_apply(&mut master, &name, NetworkInstanceChange::ImportRtRemove(rt));
    assert!(master.shared.vpn_imports.get(&name).map_or(true, |i| i.import_rts.is_empty()));
    network_instance_apply(&mut master, &name, NetworkInstanceChange::ImportRtAdd(rt));
    network_instance_apply(&mut master, &name, NetworkInstanceChange::Enabled(false));
    assert!(!master.shared.vpn_imports.contains_key(&name));
    network_instance_delete(&mut master, &name);
    assert!(!master.network_instances.contains_key(&name));
}

#[test]
fn changes_are_relayed_to_their_instances() {
    let mut master = Master::new();
    let bgp = || InstanceId::new(Protocol::BGP, "main".to_owned());
    let ospf =
        InstanceId::new_with_network_instance(Protocol::OSPFV2, "1".to_owned(), "blue".to_owned());
    instance_started(&mut master, bgp(), InstanceHandle { nb_channel: 11, channel: 1 });
    instance_started(&mut master, ospf, InstanceHandle { nb_channel: 12, channel: 2 });
    protocol_bind(&mut master, InstanceId::new(Protocol::OSPFV2, "1".to_owned()), Some("blue".to_owned()));
    let change = |protocol, name: &str| (protocol, name.to_owned());
    let relayed = relay_changes(
        &master,
        &[
            change(Protocol::OSPFV2, "1"),
            change(Protocol::BGP, "main"),
            change(Protocol::ISIS, "none"),
            change(Protocol::OSPFV2, "1"),
        ],
    );
    assert_eq!(relayed, vec![(vec![1], 11), (vec![0, 3], 12)]);
}

#[test]
fn segment_routing_changes_are_shared() {
    let mut master = Master::new();
    instance_started(
        &mut master,
        InstanceId::new(Protocol::ISIS, "1".to_owned()),
        InstanceHandle { nb_channel: 1, channel: 2 },
    );
    let key = PrefixSidKey { prefix: net(1, 1, 1, 1, 32), algo: IgpAlgoType(0) };
    let psid = SrCfgPrefixSid { index: 16, last_hop: SidLastHopBehavior::Php };
    let (events, range) = sr_apply(&mut master, SrChange::PrefixSidCreate { key, psid });
    assert!(matches!(
        &events[..],
        [Event::SrCfgUpdate, Event::SrCfgPrefixSidUpdate(AddressFamily::Ipv4)]
    ));
    assert_eq!(range, None);
    for event in events {
        assert_eq!(process_event(&mut master, event).len(), 1);
    }
    assert_eq!(master.shared.sr_config.prefix_sids.get(&key), Some(&psid));

    let srgb = LabelRange { lower_bound: 16000, upper_bound: 23999 };
    let (_, range) = sr_apply(&mut master, SrChange::SrgbCreate(srgb));
    assert_eq!(range, None);
    let (events, range) = sr_apply(&mut master, SrChange::SrgbDelete(srgb));
    assert_eq!(range, Some(srgb));
    assert!(matches!(&events[..], [Event::SrCfgUpdate, Event::SrCfgLabelRangeUpdate]));
    assert_eq!(Resource::SrLabelRange(srgb).into_sr_label_range(), srgb);
}

#[test]
fn bier_changes_are_shared() {
    let mut master = Master::new();
    let create = SubDomainCreate {
        sd_id: 1,
        af: AddressFamily::Ipv4,
        bfr_prefix: net(1, 1, 1, 1, 32),
        underlay_protocol: UnderlayProtocolType::Isis,
        mt_id: 0,
        bfr_id: 7,
        bsl: Bsl(256),
        ipa: 0,
        bar: 0,
        load_balance_num: 1,
    };
    let events = bier_apply(&mut master, BierChange::SubDomainCreate(create));
    assert!(matches!(
        &events[..],
        [Event::BierCfgUpdate, Event::BierCfgSubDomainUpdate(AddressFamily::Ipv4)]
    ));
    let key = SubDomainKey { sd_id: 1, af: AddressFamily::Ipv4 };
    let encap = BierEncapsulation {
        bsl: Bsl(256),
        encap_type: BierEncapsulationType::Mpls,
        max_si: 2,
        in_bift_id: BierInBiftId::Base(1000),
    };
    let events = bier_apply(&mut master, BierChange::SubDomain(key, SubDomainChange::EncapCreate(encap)));
    assert!(matches!(
        &events[..],
        [Event::BierCfgUpdate, Event::BierCfgEncapUpdate(1, AddressFamily::Ipv4, _, _)]
    ));
    let encap_key = EncapKey { bsl: Bsl(256), encap_type: BierEncapsulationType::Mpls };
    let events =
        bier_apply(&mut master, BierChange::SubDomain(key, SubDomainChange::EncapDelete(encap_key)));
    assert!(matches!(&events[..], [Event::BierCfgUpdate]));
    process_event(&mut master, Event::BierCfgUpdate);
    assert_eq!(master.shared.bier_config.sd_cfg.get(&key).unwrap().bfr_id, 7);
    let events = bier_apply(&mut master, BierChange::BiftCreate(7));
    assert!(matches!(&events[..], [Event::BierCfgUpdate, Event::BierCfgBiftUpdate(7)]));
    assert!(process_event(&mut master, Event::BierCfgBiftUpdate(7)).is_empty());
}

#[test]
fn sub_domains_are_validated() {
    let prefix = net(1, 1, 1, 1, 32);
    assert_eq!(validate_sub_domain(AddressFamily::Ipv4, Some(prefix), Some(0)), Ok(()));
    assert_eq!(
        validate_sub_domain(AddressFamily::Ipv6, Some(prefix), None),
        Err(SubDomainError::AddressFamily)
    );
    assert_eq!(
        validate_sub_domain(AddressFamily::Ipv4, Some(prefix), Some(200)),
        Err(SubDomainError::MtId)
    );
}

#[test]
fn list_entries() {
    assert!(ListEntry::NoEntry.into_static_route().is_none());
    assert_eq!(ListEntry::NetworkInstance("blue".to_owned()).into_network_instance().unwrap(), "blue");
    let id = InstanceId::new(Protocol::BGP, "main".to_owned());
    assert_eq!(ListEntry::ProtocolInstance(id).into_protocol_instance().unwrap().name, "main");
    let (_, index) =
        ListEntry::StaticRouteNexthop(key("default"), "1".to_owned()).into_static_route_nexthop().unwrap();
    assert_eq!(index, "1");
    let entry = ListEntry::BierCfgEncapsulation(1, AddressFamily::Ipv4, Bsl(256), BierEncapsulationType::Mpls);
    let (sd, encap) = entry.into_bier_cfg_encapsulation().unwrap();
    assert_eq!((sd.sd_id, encap.bsl), (1, Bsl(256)));
    assert_eq!(ListEntry::BierCfgBift(7).into_bier_cfg_bift(), Some(7));
    assert_eq!(ListEntry::BierCfgBiftBsl(7, Bsl(64)).into_bier_cfg_bift_bsl(), Some((7, Bsl(64))));
    assert!(ListEntry::NoEntry.into_bier_cfg_sub_domain().is_none());
}

#[test]
fn bift_identifiers_prefer_numbers() {
    assert_eq!(in_bift_id(Some(5), Some(true)), Some(BierInBiftId::Base(5)));
    assert_eq!(in_bift_id(None, Some(true)), Some(BierInBiftId::Encoding(true)));
    assert_eq!(in_bift_id(None, None), None);
    assert_eq!(out_bift_id(Some(5), None), Some(BierOutBiftId::Defined(5)));
    assert_eq!(out_bift_id(None, Some(false)), Some(BierOutBiftId::Encoding(false)));
    assert_eq!(out_bift_id(None, None), None);
}

#[test]
fn events_are_kept_once_and_in_order() {
    let key = |last: u8| StaticRouteKey {
        instance_id: InstanceId::new(Protocol::STATIC, "a".to_owned()),
        prefix: IpNetwork::V4(Ipv4Network { addr: Ipv4Addr::new(10, 0, 0, last), prefix: 32 }),
    };
    let mut events: SortedSet<Event> = SortedSet::new();
    events.insert(Event::BierCfgBiftUpdate(1));
    events.insert(Event::BierCfgEncapUpdate(1, AddressFamily::Ipv6, Bsl(64), BierEncapsulationType::Mpls));
    events.insert(Event::BierCfgEncapUpdate(1, AddressFamily::Ipv4, Bsl(128), BierEncapsulationType::Ethernet));
    events.insert(Event::SrCfgUpdate);
    events.insert(Event::SrCfgPrefixSidUpdate(AddressFamily::Ipv6));
    events.insert(Event::SrCfgPrefixSidUpdate(AddressFamily::Ipv4));
    events.insert(Event::StaticRouteUninstall(key(1)));
    events.insert(Event::StaticRouteInstall(key(2)));
    events.insert(Event::StaticRouteInstall(key(1)));
    events.insert(Event::StaticRouteInstall(key(2)));
    events.insert(Event::SrCfgUpdate);
    events.insert(Event::InstanceStart {
        protocol: Protocol::BGP,
        name: "main".to_owned(),
        network_instance: "default".to_owned(),
    });
    assert_eq!(events.len(), 10);
    assert!(matches!(events.nth(0), Event::InstanceStart { .. }));
    assert!(matches!(events.nth(1), Event::StaticRouteInstall(k) if k.prefix == key(1).prefix));
    assert!(matches!(events.nth(2), Event::StaticRouteInstall(k) if k.prefix == key(2).prefix));
    assert!(matches!(events.nth(3), Event::StaticRouteUninstall(_)));
    assert!(matches!(events.nth(4), Event::SrCfgUpdate));
    assert!(matches!(events.nth(5), Event::SrCfgPrefixSidUpdate(AddressFamily::Ipv4)));
    assert!(matches!(events.nth(6), Event::SrCfgPrefixSidUpdate(AddressFamily::Ipv6)));
    assert!(matches!(events.nth(7), Event::BierCfgEncapUpdate(1, AddressFamily::Ipv4, Bsl(128), _)));
    assert!(matches!(events.nth(8), Event::BierCfgEncapUpdate(1, AddressFamily::Ipv6, Bsl(64), _)));
    assert!(matches!(events.nth(9), Event::BierCfgBiftUpdate(1)));
}
