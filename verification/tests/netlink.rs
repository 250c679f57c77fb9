use holo::ip::IpAddr;
use holo::ip::IpNetwork;
use holo::ip::Ipv4Addr;
use holo::ip::Ipv4Network;
use holo::ip::Ipv6Addr;
use holo::ip::Ipv6Network;
use holo::netlink::ip_route_install;
use holo::netlink::ip_route_uninstall;
use holo::netlink::is_own_protocol;
use holo::netlink::mpls_route_install;
use holo::netlink::mpls_route_uninstall;
use holo::netlink::netlink_label_stack;
use holo::netlink::netlink_protocol;
use holo::netlink::nexthops_fit;
use holo::netlink::Family;
use holo::netlink::LabelEntry;
use holo::netlink::NetlinkRequest;
use holo::policy::RouteOpaqueAttrs;
use holo::protocol::Label;
use holo::protocol::Protocol;
use holo::routing::Interfaces;
use holo::routing_master::Route;
use holo::southbound::Nexthop;
use holo::southbound::RouteKind;
use netlink_packet_route::route::RouteAddress;
use netlink_packet_route::route::RouteAttribute;
use netlink_packet_route::route::RouteMessage;
use netlink_packet_route::route::RouteNextHopFlags;
use netlink_packet_route::route::RouteProtocol;
use netlink_packet_route::route::RouteType;
use netlink_packet_route::route::RouteVia;
use std::sync::Arc;

fn route(nexthops: Vec<Nexthop>) -> Route {
    Route {
        protocol: Protocol::BGP,
        kind: RouteKind::Unicast,
        table_id: None,
        distance: 20,
        metric: 0,
        tag: None,
        opaque_attrs: RouteOpaqueAttrs::Empty,
        nexthops: Arc::new(nexthops),
        active: true,
        removed: false,
    }
}

fn address_nexthop(ifindex: u32, addr: Ipv4Addr, label: u32) -> Nexthop {
    Nexthop::Address { ifindex, addr: IpAddr::V4(addr), labels: vec![Label::new(label)] }
}

fn added(request: NetlinkRequest) -> RouteMessage {
    match request {
        NetlinkRequest::RouteAdd(msg) => msg,
        NetlinkRequest::RouteDel(_) => panic!("unexpected route delete"),
    }
}

fn removed(request: NetlinkRequest) -> RouteMessage {
    match request {
        NetlinkRequest::RouteDel(msg) => msg,
        NetlinkRequest::RouteAdd(_) => panic!("unexpected route add"),
    }
}

fn install_mpls_route(route: &Route) -> RouteMessage {
    added(mpls_route_install(Label::new(100), route, &Interfaces::new()))
}

fn octets(addr: &RouteVia) -> [u8; 4] {
    match addr {
        RouteVia::Inet(addr) => addr.octets(),
        _ => panic!("unexpected address"),
    }
}

#[test]
fn mpls_single_nexthop_uses_top_level_attrs() {
    let route = route(vec![address_nexthop(10, Ipv4Addr::new(192, 0, 2, 1), 200)]);

    let msg = install_mpls_route(&route);

    assert!(msg.attributes.iter().any(|attr| matches!(attr, RouteAttribute::Oif(10))));
    assert!(msg.attributes.iter().any(|attr| matches!(
        attr,
        RouteAttribute::Via(via) if octets(via) == [192, 0, 2, 1]
    )));
    assert!(msg.attributes.iter().any(|attr| matches!(
        attr,
        RouteAttribute::NewDestination(labels)
            if labels.iter().map(|label| label.label).collect::<Vec<_>>() == vec![200]
    )));
    assert!(!msg.attributes.iter().any(|attr| matches!(attr, RouteAttribute::MultiPath(_))));
}

#[test]
fn mpls_multipath_keeps_labels_per_nexthop() {
    let route = route(vec![
        address_nexthop(10, Ipv4Addr::new(192, 0, 2, 1), 200),
        address_nexthop(20, Ipv4Addr::new(192, 0, 2, 2), 300),
    ]);

    let msg = install_mpls_route(&route);
    let multipath = msg
        .attributes
        .iter()
        .find_map(|attr| {
            if let RouteAttribute::MultiPath(nexthops) = attr {
                Some(nexthops)
            } else {
                None
            }
        })
        .unwrap();

    assert_eq!(multipath.len(), 2);
    assert_eq!(multipath[0].interface_index, 10);
    assert_eq!(multipath[1].interface_index, 20);
    for (nexthop, addr, label) in [
        (&multipath[0], [192, 0, 2, 1], 200),
        (&multipath[1], [192, 0, 2, 2], 300),
    ] {
        assert!(nexthop.attributes.iter().any(|attr| matches!(
            attr,
            RouteAttribute::Via(via) if octets(via) == addr
        )));
        assert!(nexthop.attributes.iter().any(|attr| matches!(
            attr,
            RouteAttribute::NewDestination(labels)
                if labels.iter().map(|label| label.label).collect::<Vec<_>>() == vec![label]
        )));
    }
}

#[test]
fn mpls_header_and_local_label() {
    let msg = install_mpls_route(&route(vec![Nexthop::Interface { ifindex: 3 }]));
    assert_eq!(msg.header.address_family, netlink_packet_route::AddressFamily::Mpls);
    assert_eq!(msg.header.destination_prefix_length, 20);
    assert_eq!(msg.header.table, 254);
    assert_eq!(msg.header.protocol, RouteProtocol::Bgp);
    assert_eq!(msg.header.kind, RouteType::Unicast);
    assert_eq!(msg.attributes.len(), 2);
    assert!(matches!(
        &msg.attributes[0],
        RouteAttribute::Destination(RouteAddress::Mpls(l))
            if l.label == 100 && l.bottom_of_stack && l.traffic_class == 0 && l.ttl == 0
    ));
    assert!(matches!(msg.attributes[1], RouteAttribute::Oif(3)));
}

#[test]
fn mpls_route_without_nexthops_has_an_empty_list() {
    let msg = install_mpls_route(&route(vec![]));
    assert!(matches!(&msg.attributes[1], RouteAttribute::MultiPath(hops) if hops.is_empty()));
}

#[test]
fn mpls_removal_names_the_label() {
    let msg = removed(mpls_route_uninstall(Label::new(16), Protocol::LDP));
    assert_eq!(msg.header.protocol, RouteProtocol::Unspec);
    assert_eq!(msg.attributes.len(), 1);
    assert!(matches!(
        &msg.attributes[0],
        RouteAttribute::Destination(RouteAddress::Mpls(l)) if l.label == 16
    ));
}

#[test]
fn ipv4_route_is_installed() {
    let prefix = IpNetwork::V4(Ipv4Network { addr: Ipv4Addr::new(198, 51, 100, 0), prefix: 24 });
    let mut route = route(vec![Nexthop::Recursive {
        addr: IpAddr::V4(Ipv4Addr::new(192, 0, 2, 7)),
        labels: vec![],
        resolved: vec![
            address_nexthop(10, Ipv4Addr::new(192, 0, 2, 1), 200),
            Nexthop::Interface { ifindex: 11 },
        ],
    }]);
    route.protocol = Protocol::OSPFV3;
    route.kind = RouteKind::Blackhole;
    let msg = added(ip_route_install(&prefix, &route, &Interfaces::new()));
    assert_eq!(msg.header.address_family, netlink_packet_route::AddressFamily::Inet);
    assert_eq!(msg.header.destination_prefix_length, 24);
    assert_eq!(msg.header.protocol, RouteProtocol::Ospf);
    assert_eq!(msg.header.kind, RouteType::BlackHole);
    assert_eq!(msg.attributes.len(), 2);
    assert!(matches!(
        &msg.attributes[0],
        RouteAttribute::Destination(RouteAddress::Inet(a)) if a.octets() == [198, 51, 100, 0]
    ));
    let RouteAttribute::MultiPath(hops) = &msg.attributes[1] else {
        panic!("no next hops");
    };
    assert_eq!(hops.len(), 2);
    assert_eq!(hops[0].interface_index, 10);
    assert!(matches!(
        &hops[0].attributes[0],
        RouteAttribute::Gateway(RouteAddress::Inet(a)) if a.octets() == [192, 0, 2, 1]
    ));
    assert_eq!(hops[0].attributes.len(), 3);
    assert!(matches!(&hops[0].attributes[1], RouteAttribute::EncapType(_)));
    assert!(matches!(&hops[0].attributes[2], RouteAttribute::Encap(_)));
    assert!(!hops[0].flags.contains(RouteNextHopFlags::Onlink));
    assert_eq!(hops[1].interface_index, 11);
    assert!(hops[1].attributes.is_empty());
}

#[test]
fn ipv6_route_takes_no_ipv4_nexthop() {
    let prefix = IpNetwork::V6(Ipv6Network { addr: Ipv6Addr { bits: 1 << 100 }, prefix: 28 });
    let v4 = vec![address_nexthop(10, Ipv4Addr::new(192, 0, 2, 1), 200)];
    assert!(!nexthops_fit(Family::Inet6, &v4));
    assert!(nexthops_fit(Family::Inet, &v4));
    assert!(nexthops_fit(Family::Mpls, &v4));

    let v6 = vec![Nexthop::Address { ifindex: 4, addr: IpAddr::V6(Ipv6Addr { bits: 9 }), labels: vec![] }];
    assert!(nexthops_fit(Family::Inet6, &v6));
    let msg = added(ip_route_install(&prefix, &route(v6), &Interfaces::new()));
    assert_eq!(msg.header.address_family, netlink_packet_route::AddressFamily::Inet6);
    let RouteAttribute::MultiPath(hops) = &msg.attributes[1] else {
        panic!("no next hops");
    };
    assert!(matches!(
        &hops[0].attributes[0],
        RouteAttribute::Gateway(RouteAddress::Inet6(a)) if a.octets()[15] == 9
    ));
}

#[test]
fn ipv4_route_can_have_an_ipv6_nexthop() {
    let prefix = IpNetwork::V4(Ipv4Network { addr: Ipv4Addr::new(198, 51, 100, 0), prefix: 24 });
    let v6 = vec![Nexthop::Address { ifindex: 4, addr: IpAddr::V6(Ipv6Addr { bits: 9 }), labels: vec![] }];
    let msg = added(ip_route_install(&prefix, &route(v6), &Interfaces::new()));
    let RouteAttribute::MultiPath(hops) = &msg.attributes[1] else {
        panic!("no next hops");
    };
    assert!(matches!(&hops[0].attributes[0], RouteAttribute::Via(RouteVia::Inet6(_))));
}

#[test]
fn ipv4_on_an_unnumbered_interface_is_onlink() {
    let prefix = IpNetwork::V4(Ipv4Network { addr: Ipv4Addr::new(198, 51, 100, 0), prefix: 24 });
    let mut interfaces = Interfaces::new();
    interfaces.update("eth0".to_owned(), 10, true, None);
    let iface = interfaces.by_name.get_mut(&"eth0".to_owned()).unwrap();
    let loopback = IpNetwork::V4(Ipv4Network { addr: Ipv4Addr::new(1, 1, 1, 1), prefix: 32 });
    iface.addresses.insert(loopback, true);
    let route = route(vec![
        address_nexthop(10, Ipv4Addr::new(192, 0, 2, 1), 200),
        address_nexthop(11, Ipv4Addr::new(192, 0, 2, 2), 200),
    ]);
    let msg = added(ip_route_install(&prefix, &route, &interfaces));
    let RouteAttribute::MultiPath(hops) = &msg.attributes[1] else {
        panic!("no next hops");
    };
    assert!(hops[0].flags.contains(RouteNextHopFlags::Onlink));
    assert!(!hops[1].flags.contains(RouteNextHopFlags::Onlink));
}

#[test]
fn ip_removal_names_destination_and_protocol() {
    let prefix = IpNetwork::V4(Ipv4Network { addr: Ipv4Addr::new(198, 51, 100, 0), prefix: 24 });
    let msg = removed(ip_route_uninstall(&prefix, Protocol::ISIS));
    assert_eq!(msg.header.protocol, RouteProtocol::Isis);
    assert_eq!(msg.header.kind, RouteType::Unspec);
    assert_eq!(msg.header.destination_prefix_length, 24);
    assert_eq!(msg.attributes.len(), 1);
}

#[test]
fn protocol_numbers() {
    assert_eq!(RouteProtocol::from(netlink_protocol(Protocol::BGP)), RouteProtocol::Bgp);
    assert_eq!(RouteProtocol::from(netlink_protocol(Protocol::ISIS)), RouteProtocol::Isis);
    assert_eq!(RouteProtocol::from(netlink_protocol(Protocol::OSPFV2)), RouteProtocol::Ospf);
    assert_eq!(RouteProtocol::from(netlink_protocol(Protocol::RIPNG)), RouteProtocol::Rip);
    assert_eq!(RouteProtocol::from(netlink_protocol(Protocol::RIPV2)), RouteProtocol::Rip);
    assert_eq!(RouteProtocol::from(netlink_protocol(Protocol::STATIC)), RouteProtocol::Static);
    assert_eq!(RouteProtocol::from(netlink_protocol(Protocol::DIRECT)), RouteProtocol::Unspec);
    assert!(is_own_protocol(u8::from(RouteProtocol::Rip)));
    assert!(!is_own_protocol(u8::from(RouteProtocol::Kernel)));
    assert!(!is_own_protocol(u8::from(RouteProtocol::Unspec)));
}

#[test]
fn label_stack_drops_implicit_null() {
    let entry = |label, bottom_of_stack| LabelEntry { label, traffic_class: 0, bottom_of_stack, ttl: 0 };
    assert_eq!(
        netlink_label_stack(&[Label::new(16), Label::new(3), Label::new(17)]),
        vec![entry(16, false), entry(17, true)]
    );
    assert_eq!(netlink_label_stack(&[Label::new(16), Label::new(3)]), vec![entry(16, true)]);
    assert_eq!(netlink_label_stack(&[Label::new(3)]), vec![]);
}

#[test]
fn a_stack_of_implicit_null_adds_no_labels() {
    let route = route(vec![address_nexthop(10, Ipv4Addr::new(192, 0, 2, 1), 3)]);
    let msg = install_mpls_route(&route);
    assert!(!msg.attributes.iter().any(|attr| matches!(attr, RouteAttribute::NewDestination(_))));
}

#[test]
fn a_resolved_next_hop_counts_as_single() {
    let route = route(vec![Nexthop::Recursive {
        addr: IpAddr::V4(Ipv4Addr::new(192, 0, 2, 7)),
        labels: vec![],
        resolved: vec![address_nexthop(10, Ipv4Addr::new(192, 0, 2, 1), 200)],
    }]);
    let msg = install_mpls_route(&route);
    assert!(matches!(msg.attributes[1], RouteAttribute::Oif(10)));
    assert!(!msg.attributes.iter().any(|attr| matches!(attr, RouteAttribute::MultiPath(_))));
}
