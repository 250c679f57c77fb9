use holo::attribute::Attrs;
use holo::bgp::AfiSafi;
use holo::ip::AddressFamily;
use holo::ip::IpAddr;
use holo::ip::Ipv4Addr;
use holo::ip::Ipv4Network;
use holo::message::CeaseSubcode;
use holo::message::ErrorCode;
use holo::message::NotificationMsg;
use holo::message::ReachNlri;
use holo::message::RouteRefreshMsg;
use holo::message::UpdateMsg;
use holo::nbr_update::UpdateEffects;
use holo::neighbor::Neighbor;
use holo::neighbor::NeighborAfiSafiCfg;
use holo::neighbor::Neighbors;
use holo::neighbor::PeerType;
use holo::neighbor::PrefixLimitCfg;
use holo::neighbor::State;
use holo::neighbor::TcpConnInfo;
use holo::ord::SortedMap;
use holo::rib::RoutingTable;
use holo::rib::RoutingTables;
use holo::session::process_nbr_msg;
use holo::session::process_nbr_msg_next;
use holo::session::process_nbr_route_refresh;
use holo::session::process_nbr_timer;
use holo::session::process_tcp_accept;
use holo::session::process_tcp_connect;
use holo::session::FsmEvent;
use holo::session::Message;
use holo::session::NbrMsgNext;
use holo::session::NbrRxError;
use holo::session::Timer;
use holo::shared::InstanceShared;

fn remote() -> IpAddr {
    IpAddr::V4(Ipv4Addr::new(192, 0, 2, 2))
}

fn unknown() -> IpAddr {
    IpAddr::V4(Ipv4Addr::new(192, 0, 2, 99))
}

fn conn(remote_addr: IpAddr) -> TcpConnInfo {
    TcpConnInfo {
        local_addr: IpAddr::V4(Ipv4Addr::new(192, 0, 2, 1)),
        local_port: 179,
        remote_addr,
        remote_port: 4000,
    }
}

fn neighbor(state: State) -> Neighbor {
    let mut nbr = Neighbor::new(remote(), PeerType::External);
    nbr.state = state;
    nbr.identifier = Some(Ipv4Addr::new(192, 0, 2, 2));
    nbr
}

fn neighbors(state: State) -> Neighbors {
    let mut neighbors: Neighbors = SortedMap::new();
    neighbors.insert(remote(), neighbor(state));
    neighbors
}

fn tables() -> RoutingTables {
    RoutingTables {
        ipv4_unicast: RoutingTable::new(),
        ipv6_unicast: RoutingTable::new(),
        vpnv4_unicast: RoutingTable::new(),
        vpnv6_unicast: RoutingTable::new(),
        l2vpn_evpn: RoutingTable::new(),
    }
}

#[test]
fn connections_of_known_neighbors_are_accepted() {
    let mut nbrs = neighbors(State::Active);
    let nbr = nbrs.get_mut(&remote()).unwrap();
    nbr.config.transport.ttl_security = Some(2);
    nbr.config.transport.tcp_mss = Some(1000);
    let (init, event) = process_tcp_accept(&nbrs, &conn(remote()), 64).unwrap();
    assert_eq!(init.af, AddressFamily::Ipv4);
    assert_eq!(init.tx_ttl, 64);
    assert_eq!(init.ttl_security, Some(2));
    assert_eq!(init.tcp_mss, Some(1000));
    assert!(matches!(event, FsmEvent::Connected(info) if info == conn(remote())));
}

#[test]
fn connections_of_others_are_not_accepted() {
    let mut nbrs = neighbors(State::Active);
    assert!(process_tcp_accept(&nbrs, &conn(unknown()), 64).is_none());
    nbrs.get_mut(&remote()).unwrap().conn_info = Some(conn(remote()));
    assert!(process_tcp_accept(&nbrs, &conn(remote()), 64).is_none());
}

#[test]
fn outgoing_connections_end_the_attempt() {
    let mut nbrs = neighbors(State::Connect);
    nbrs.get_mut(&remote()).unwrap().connecting = true;
    let event = process_tcp_connect(&mut nbrs, &conn(remote()));
    assert!(matches!(event, Some(FsmEvent::Connected(_))));
    assert!(!nbrs.get(&remote()).unwrap().connecting);
    assert!(process_tcp_connect(&mut nbrs, &conn(unknown())).is_none());
}

#[test]
fn messages_become_events() {
    let nbrs = neighbors(State::Established);
    let event = |msg: Result<Message, NbrRxError>| process_nbr_msg(&nbrs, remote(), &msg);
    assert!(matches!(event(Ok(Message::Open)), Some(FsmEvent::RcvdOpen)));
    assert!(matches!(event(Ok(Message::Keepalive)), Some(FsmEvent::RcvdKalive)));
    let notif = NotificationMsg { error_code: 6, error_subcode: 2 };
    assert!(matches!(
        event(Ok(Message::Notification(notif))),
        Some(FsmEvent::RcvdNotif(n)) if n == notif
    ));
    assert!(matches!(event(Err(NbrRxError::TcpConnClosed)), Some(FsmEvent::ConnFail)));
    assert!(matches!(event(Err(NbrRxError::MsgDecodeError)), Some(FsmEvent::RcvdError)));
    assert!(process_nbr_msg(&nbrs, unknown(), &Ok(Message::Open)).is_none());
}

#[test]
fn timers_concern_known_neighbors() {
    let nbrs = neighbors(State::Connect);
    assert!(matches!(
        process_nbr_timer(&nbrs, remote(), Timer::Hold),
        Some(FsmEvent::Timer(Timer::Hold))
    ));
    assert!(process_nbr_timer(&nbrs, unknown(), Timer::Hold).is_none());
}

#[test]
fn a_refresh_of_an_advertised_family_resends_it() {
    let mut nbr = neighbor(State::Established);
    let msg = RouteRefreshMsg { afi: 1, safi: 1 };
    assert_eq!(process_nbr_route_refresh(&nbr, &msg), None);
    nbr.advertised_afs.insert(AfiSafi::Ipv4Unicast);
    assert_eq!(process_nbr_route_refresh(&nbr, &msg), Some(AfiSafi::Ipv4Unicast));
    assert_eq!(process_nbr_route_refresh(&nbr, &RouteRefreshMsg { afi: 77, safi: 1 }), None);
    assert_eq!(process_nbr_route_refresh(&nbr, &RouteRefreshMsg { afi: 2, safi: 1 }), None);
}

#[test]
fn too_many_prefixes_cease_the_session() {
    let shared = InstanceShared::default();
    let mut nbr = neighbor(State::Established);
    nbr.config.afi_safi.insert(AfiSafi::Ipv4Unicast, NeighborAfiSafiCfg::default());
    let cfg = nbr.config.afi_safi.get_mut(&AfiSafi::Ipv4Unicast).unwrap();
    cfg.prefix_limit = PrefixLimitCfg { max_prefixes: Some(0), teardown: true };
    let msg = Message::Update(UpdateMsg {
        reach: Some(ReachNlri {
            prefixes: vec![Ipv4Network { addr: Ipv4Addr::new(10, 0, 0, 0), prefix: 8 }],
            path_ids: vec![],
            nexthop: Ipv4Addr::new(192, 0, 2, 2),
        }),
        unreach: None,
        mp_reach: None,
        mp_unreach: None,
        attrs: Some(Attrs::default()),
    });
    let mut fx = UpdateEffects::new();
    let next = process_nbr_msg_next(&mut nbr, &mut tables(), &Ok(msg), &shared, &mut fx);
    let NbrMsgNext::Event(FsmEvent::Stop(Some(notif))) = next else {
        panic!("the session should stop");
    };
    assert_eq!(
        notif,
        NotificationMsg::new(ErrorCode::Cease, CeaseSubcode::MaximumNumberofPrefixesReached)
    );
    assert_eq!(notif.error_code, 6);
    assert_eq!(notif.error_subcode, 1);
}

#[test]
fn a_notification_is_remembered() {
    let shared = InstanceShared::default();
    let mut nbr = neighbor(State::Established);
    let notif = NotificationMsg { error_code: 4, error_subcode: 0 };
    let mut fx = UpdateEffects::new();
    let msg = Ok(Message::Notification(notif));
    let next = process_nbr_msg_next(&mut nbr, &mut tables(), &msg, &shared, &mut fx);
    assert!(matches!(next, NbrMsgNext::Nothing));
    assert_eq!(nbr.notification_rcvd, Some(notif));
}
