use holo::attribute::AsPath;
use holo::attribute::Attrs;
use holo::attribute::BaseAttrs;
use holo::attribute::CommList;
use holo::bgp::evpn_es_import_route_target;
use holo::bgp::EthernetSegmentId;
use holo::bgp::EvpnMacMobility;
use holo::bgp::ExtComm;
use holo::bgp::Origin;
use holo::bgp::RouteDistinguisher;
use holo::bgp::RouteType;
use holo::evpn::ead_per_es;
use holo::evpn::elect_df;
use holo::evpn::esi_label_ext_comm;
use holo::evpn::esi_label_from_ext_comm;
use holo::evpn::has_matching_es_import_rt;
use holo::evpn::mac_mobility_compare;
use holo::evpn::mac_mobility_decision;
use holo::evpn::mac_mobility_ext_comm;
use holo::evpn::mac_mobility_from_ext_comm;
use holo::evpn::mac_mobility_from_route;
use holo::evpn::mass_withdraw_mac_routes;
use holo::evpn::mass_withdraw_match;
use holo::evpn::DfElection;
use holo::evpn::EvpnMultihomingMode;
use holo::evpn::MacMobilityDecision;
use holo::evpn::MacMoveState;
use holo::evpn::MacMoveTracker;
use holo::evpn::MAC_DUPLICATE_MOVE_THRESHOLD;
use holo::evpn::MAC_DUPLICATE_WINDOW;
use holo::evpn::MAX_ETHERNET_TAG_ID;
use holo::evpn::VLAN_MAX;
use holo::ip::IpAddr;
use holo::ip::Ipv4Addr;
use holo::ip::Ipv6Addr;
use holo::message::EvpnEthernetAutoDiscovery;
use holo::message::EvpnMacIpAdvertisement;
use holo::message::EvpnRoute;
use holo::ord::SortedSet;
use holo::protocol::Protocol;
use holo::rib::Route;
use holo::rib::RouteCompare;
use holo::rib::RouteOrigin;
use holo::rib::RouteRejectReason;
use holo::time::Duration;
use holo::time::Instant;
use std::sync::Arc;

const ESI: EthernetSegmentId = [0x03, 0x00, 0x11, 0x22, 0x33, 0x44, 0x55, 0x66, 0, 1];

fn ip4(a: u8, b: u8, c: u8, d: u8) -> IpAddr {
    IpAddr::V4(Ipv4Addr::new(a, b, c, d))
}

fn rd() -> RouteDistinguisher {
    RouteDistinguisher::As2Administrator { asn: 65000, number: 1 }
}

fn mac_prefix() -> EvpnRoute {
    EvpnRoute::MacIpAdvertisement(EvpnMacIpAdvertisement {
        rd: rd(),
        esi: ESI,
        ethernet_tag_id: 100,
        mac: [0, 1, 2, 3, 4, 5],
        ip: None,
        label: 16000,
    })
}

fn route(mobility: Option<ExtComm>) -> Route {
    let base = BaseAttrs {
        origin: Origin::Igp,
        as_path: Arc::new(AsPath::new()),
        as4_path: None,
        nexthop: Some(ip4(192, 0, 2, 1)),
        ll_nexthop: None,
        med: None,
        local_pref: Some(100),
        aggregator: None,
        as4_aggregator: None,
        atomic_aggregate: false,
        originator_id: None,
        cluster_list: None,
    };
    let ext_comm = mobility.map(|comm| {
        let mut set = SortedSet::new();
        set.insert(comm);
        Arc::new(CommList(set))
    });
    let attrs = Attrs { base, comm: None, ext_comm, extv6_comm: None, large_comm: None, unknown: None };
    Route::new(RouteOrigin::Protocol(Protocol::STATIC), attrs, RouteType::Internal)
}

#[test]
fn es_import_rt_is_derived_from_esi_value_high_order_six_octets() {
    assert_eq!(
        evpn_es_import_route_target(ESI),
        ExtComm([0x06, 0x02, 0x00, 0x11, 0x22, 0x33, 0x44, 0x55])
    );
}

#[test]
fn es_import_rt_matches_local_esi() {
    let local_esis = [ESI];
    let ext_comms = [
        ExtComm([0x00, 0x02, 0xfd, 0xe8, 0, 0, 0, 100]),
        evpn_es_import_route_target(ESI),
    ];

    assert!(has_matching_es_import_rt(&local_esis, &ext_comms));
}

#[test]
fn es_import_rt_miss_is_fail_closed() {
    let local_esis = [ESI];
    let ext_comms = [ExtComm([0x06, 0x02, 0xaa, 0xbb, 0xcc, 0xdd, 0xee, 0xff])];

    assert!(!has_matching_es_import_rt(&local_esis, &ext_comms));
}

#[test]
fn ead_per_es_identifies_max_et_and_label_zero_only() {
    assert!(ead_per_es(MAX_ETHERNET_TAG_ID, 0));
    assert!(!ead_per_es(100, 0));
    assert!(!ead_per_es(MAX_ETHERNET_TAG_ID, 16000));
}

#[test]
fn esi_label_ext_community_roundtrips_redundancy_mode() {
    let all_active =
        esi_label_from_ext_comm(&esi_label_ext_comm(EvpnMultihomingMode::AllActive, 16000)).unwrap();
    assert_eq!(all_active, (EvpnMultihomingMode::AllActive, 16000));

    let single_active =
        esi_label_from_ext_comm(&esi_label_ext_comm(EvpnMultihomingMode::SingleActive, 16001)).unwrap();
    assert_eq!(single_active, (EvpnMultihomingMode::SingleActive, 16001));
}

#[test]
fn mac_mobility_ext_community_roundtrips_sticky_and_sequence() {
    assert_eq!(
        mac_mobility_from_ext_comm(&mac_mobility_ext_comm(false, 42)),
        Some(EvpnMacMobility { sticky: false, sequence: 42 })
    );
    assert_eq!(
        mac_mobility_from_ext_comm(&mac_mobility_ext_comm(true, 43)),
        Some(EvpnMacMobility { sticky: true, sequence: 43 })
    );
}

#[test]
fn mac_mobility_malformed_or_absent_is_ignored() {
    assert_eq!(mac_mobility_from_ext_comm(&ExtComm([0x06, 0xff, 0, 0, 0, 0, 0, 1])), None);
    assert_eq!(
        mac_mobility_from_route(&route(None)),
        EvpnMacMobility { sticky: false, sequence: 0 }
    );
}

#[test]
fn mac_mobility_higher_sequence_wins() {
    let low = route(Some(mac_mobility_ext_comm(false, 1)));
    let high = route(Some(mac_mobility_ext_comm(false, 2)));

    assert_eq!(
        mac_mobility_compare(mac_prefix(), &high, &low),
        Some(RouteCompare::Preferred(RouteRejectReason::EvpnMacMobilityLowerSequence))
    );
    assert_eq!(
        mac_mobility_compare(mac_prefix(), &low, &high),
        Some(RouteCompare::LessPreferred(RouteRejectReason::EvpnMacMobilityLowerSequence))
    );
}

#[test]
fn mac_mobility_equal_sequence_falls_through() {
    let a = route(Some(mac_mobility_ext_comm(false, 7)));
    let b = route(Some(mac_mobility_ext_comm(false, 7)));

    assert_eq!(mac_mobility_compare(mac_prefix(), &a, &b), None);
}

#[test]
fn mac_mobility_sticky_route_is_not_silently_superseded() {
    let sticky = route(Some(mac_mobility_ext_comm(true, 1)));
    let moved = route(Some(mac_mobility_ext_comm(false, 100)));

    assert_eq!(
        mac_mobility_compare(mac_prefix(), &moved, &sticky),
        Some(RouteCompare::LessPreferred(RouteRejectReason::EvpnMacMobilitySticky))
    );
    assert_eq!(
        mac_mobility_compare(mac_prefix(), &sticky, &moved),
        Some(RouteCompare::Preferred(RouteRejectReason::EvpnMacMobilityLowerSequence))
    );
}

#[test]
fn duplicate_detection_uses_injected_time_window() {
    let start = Instant { nanos: 7_000_000_000 };
    let mut tracker = MacMoveTracker::new(5, Duration::from_secs(180));

    for second in [0, 10, 20, 30] {
        assert_eq!(
            tracker.record_move(start.plus(Duration::from_secs(second))),
            MacMoveState::Stable
        );
    }
    assert_eq!(
        tracker.record_move(start.plus(Duration::from_secs(40))),
        MacMoveState::Duplicate
    );
    assert!(tracker.duplicate());
}

#[test]
fn duplicate_detection_ignores_moves_outside_window() {
    let start = Instant { nanos: 7_000_000_000 };
    let mut tracker = MacMoveTracker::new(5, Duration::from_secs(30));

    for second in [0, 10, 20, 40, 80] {
        assert_eq!(
            tracker.record_move(start.plus(Duration::from_secs(second))),
            MacMoveState::Stable
        );
    }
    assert!(!tracker.duplicate());
}

#[test]
fn mass_withdraw_matches_exact_peer_and_esi_only() {
    assert!(mass_withdraw_match(ip4(192, 0, 2, 1), ESI, ip4(192, 0, 2, 1), ESI));
    assert!(!mass_withdraw_match(ip4(192, 0, 2, 2), ESI, ip4(192, 0, 2, 1), ESI));
    assert!(!mass_withdraw_match(ip4(192, 0, 2, 1), [0; 10], ip4(192, 0, 2, 1), ESI));
}

#[test]
fn mass_withdraw_selects_only_type2_routes_from_peer_and_esi() {
    let peer = ip4(192, 0, 2, 1);
    let other_peer = ip4(192, 0, 2, 2);
    let other_esi = [9; 10];
    let matching = EvpnRoute::MacIpAdvertisement(EvpnMacIpAdvertisement {
        rd: rd(),
        esi: ESI,
        ethernet_tag_id: 100,
        mac: [0, 1, 2, 3, 4, 5],
        ip: None,
        label: 16000,
    });
    let different_peer = EvpnRoute::MacIpAdvertisement(EvpnMacIpAdvertisement {
        rd: rd(),
        esi: ESI,
        ethernet_tag_id: 100,
        mac: [0, 1, 2, 3, 4, 6],
        ip: None,
        label: 16001,
    });
    let different_esi = EvpnRoute::MacIpAdvertisement(EvpnMacIpAdvertisement {
        rd: rd(),
        esi: other_esi,
        ethernet_tag_id: 100,
        mac: [0, 1, 2, 3, 4, 7],
        ip: None,
        label: 16002,
    });
    let non_mac = EvpnRoute::EthernetAutoDiscovery(EvpnEthernetAutoDiscovery {
        rd: rd(),
        esi: ESI,
        ethernet_tag_id: MAX_ETHERNET_TAG_ID,
        label: 0,
    });

    let withdrawn = mass_withdraw_mac_routes(
        &[
            (peer, matching),
            (other_peer, different_peer),
            (peer, different_esi),
            (peer, non_mac),
        ],
        peer,
        ESI,
    );

    assert_eq!(withdrawn, vec![matching]);
}

#[test]
fn df_election_uses_ordered_originators_and_vlan_modulo() {
    let election =
        elect_df(ip4(192, 0, 2, 3), &[ip4(192, 0, 2, 1), ip4(192, 0, 2, 2)], 101).unwrap();

    assert_eq!(election.df, ip4(192, 0, 2, 3));
    assert!(election.self_is_df);
}

#[test]
fn df_election_recomputes_after_current_df_withdraws() {
    let election =
        elect_df(ip4(192, 0, 2, 3), &[ip4(192, 0, 2, 1), ip4(192, 0, 2, 2)], 100).unwrap();
    assert_eq!(election.df, ip4(192, 0, 2, 2));

    let election = elect_df(ip4(192, 0, 2, 3), &[ip4(192, 0, 2, 1)], 100).unwrap();
    assert_eq!(election.df, ip4(192, 0, 2, 1));
    assert!(!election.self_is_df);
}

#[test]
fn df_election_rejects_invalid_vlan() {
    assert_eq!(elect_df(ip4(192, 0, 2, 1), &[], 4095), None);
}

#[test]
fn df_election_accepts_the_last_vlan() {
    assert_eq!(VLAN_MAX, 4094);
    assert_eq!(
        elect_df(ip4(192, 0, 2, 1), &[], 4094),
        Some(DfElection { df: ip4(192, 0, 2, 1), self_is_df: true })
    );
}

#[test]
fn df_election_counts_an_originator_once() {
    let election = elect_df(ip4(192, 0, 2, 2), &[ip4(192, 0, 2, 1), ip4(192, 0, 2, 1)], 3).unwrap();
    assert_eq!(election.df, ip4(192, 0, 2, 2));
    assert!(election.self_is_df);
}

#[test]
fn df_election_orders_ipv4_before_ipv6() {
    let v6 = IpAddr::V6(Ipv6Addr { bits: 1 });
    let election = elect_df(v6, &[ip4(255, 255, 255, 255)], 0).unwrap();
    assert_eq!(election.df, ip4(255, 255, 255, 255));
    let election = elect_df(v6, &[ip4(255, 255, 255, 255)], 1).unwrap();
    assert_eq!(election.df, v6);
}

#[test]
fn df_election_agrees_between_originators() {
    let a = elect_df(ip4(192, 0, 2, 1), &[ip4(192, 0, 2, 2)], 7).unwrap();
    let b = elect_df(ip4(192, 0, 2, 2), &[ip4(192, 0, 2, 1)], 7).unwrap();
    assert_eq!(a.df, b.df);
    assert_ne!(a.self_is_df, b.self_is_df);
}

#[test]
fn mobility_decisions() {
    let mobility = |sticky, sequence| EvpnMacMobility { sticky, sequence };
    assert_eq!(
        mac_mobility_decision(mobility(true, 0), mobility(false, 9)),
        MacMobilityDecision::Preferred
    );
    assert_eq!(
        mac_mobility_decision(mobility(false, 9), mobility(true, 0)),
        MacMobilityDecision::StickyConflict
    );
    assert_eq!(
        mac_mobility_decision(mobility(false, 9), mobility(false, 8)),
        MacMobilityDecision::Preferred
    );
    assert_eq!(
        mac_mobility_decision(mobility(false, 8), mobility(false, 9)),
        MacMobilityDecision::LessPreferred
    );
    assert_eq!(
        mac_mobility_decision(mobility(true, 8), mobility(true, 8)),
        MacMobilityDecision::Undecided
    );
}

#[test]
fn mobility_is_compared_for_mac_routes_only() {
    let low = route(Some(mac_mobility_ext_comm(false, 1)));
    let high = route(Some(mac_mobility_ext_comm(false, 2)));
    let discovery = EvpnRoute::EthernetAutoDiscovery(EvpnEthernetAutoDiscovery {
        rd: rd(),
        esi: ESI,
        ethernet_tag_id: 0,
        label: 0,
    });
    assert_eq!(mac_mobility_compare(discovery, &high, &low), None);
}

#[test]
fn duplicate_stays_flagged() {
    assert_eq!(MAC_DUPLICATE_MOVE_THRESHOLD, 5);
    assert_eq!(MAC_DUPLICATE_WINDOW, 180);
    let mut tracker = MacMoveTracker::new(2, Duration::from_secs(10));
    let start = Instant { nanos: 0 };
    assert_eq!(tracker.record_move(start), MacMoveState::Stable);
    assert_eq!(tracker.record_move(start.plus(Duration::from_secs(10))), MacMoveState::Duplicate);
    assert_eq!(tracker.record_move(start.plus(Duration::from_secs(500))), MacMoveState::Duplicate);
    assert_eq!(tracker.moves.len(), 1);
}

#[test]
fn duplicates_are_flagged_exactly_when_enough_moves_lie_in_one_window() {
    // Seconds of the moves, and the first move that makes the address a duplicate.
    let cases: [(&[u64], Option<usize>); 5] = [
        (&[0, 11, 22, 33], None),
        (&[0, 5, 11, 16, 21], Some(4)),
        (&[0, 5, 10], Some(2)),
        (&[0, 10, 11, 20], Some(3)),
        (&[0, 1], None),
    ];
    for (seconds, flagged) in cases {
        let mut tracker = MacMoveTracker::new(3, Duration::from_secs(10));
        let start = Instant { nanos: 0 };
        for (i, second) in seconds.iter().enumerate() {
            let state = tracker.record_move(start.plus(Duration::from_secs(*second)));
            let duplicate = flagged.is_some_and(|first| i >= first);
            assert_eq!(state == MacMoveState::Duplicate, duplicate, "{seconds:?} at {i}");
        }
    }
    let mut eager = MacMoveTracker::new(0, Duration::from_secs(10));
    assert!(!eager.duplicate());
    assert_eq!(eager.record_move(Instant { nanos: 0 }), MacMoveState::Duplicate);
}

#[test]
fn no_segment_is_imported_without_communities() {
    assert!(!has_matching_es_import_rt(&[ESI], &[]));
    assert!(!has_matching_es_import_rt(&[], &[evpn_es_import_route_target(ESI)]));
}

#[test]
fn consecutive_vlans_elect_each_originator_once() {
    let others = [ip4(192, 0, 2, 1), ip4(192, 0, 2, 2)];
    for first in [0, 100, 4092] {
        let mut elected: Vec<u32> = (first..first + 3)
            .map(|vlan| match elect_df(ip4(192, 0, 2, 3), &others, vlan).unwrap().df {
                IpAddr::V4(addr) => addr.bits,
                IpAddr::V6(_) => panic!("unexpected originator"),
            })
            .collect();
        elected.sort();
        elected.dedup();
        assert_eq!(elected.len(), 3);
    }
}
