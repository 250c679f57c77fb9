use holo::bgp::evpn_esi_label_ext_comm;
use holo::bgp::evpn_esi_label_from_ext_comm;
use holo::bgp::evpn_mac_mobility_ext_comm;
use holo::bgp::evpn_mac_mobility_from_ext_comm;
use holo::bgp::AfiSafi;
use holo::bgp::Comm;
use holo::bgp::EvpnEsiLabel;
use holo::bgp::EvpnMacMobility;
use holo::bgp::ExtComm;
use holo::bgp::Extv6Comm;
use holo::bgp::LargeComm;
use holo::bgp::Origin;
use holo::bgp::RouteDistinguisher;
use holo::bgp::RouteTarget;
use holo::bgp::WellKnownCommunities;
use holo::ip::Ipv4Addr;
use holo::ip::Ipv6Addr;
use holo::text::parse_ipv4;
use holo::text::parse_number;
use holo::text::split;
use holo::text::to_decimal;
use holo::text::to_dotted;

#[test]
fn afi_safi_names() {
    for (afi_safi, name) in [
        (AfiSafi::Ipv4Unicast, "iana-bgp-types:ipv4-unicast"),
        (AfiSafi::Ipv6Unicast, "iana-bgp-types:ipv6-unicast"),
        (AfiSafi::L3vpnIpv4Unicast, "iana-bgp-types:l3vpn-ipv4-unicast"),
        (AfiSafi::L3vpnIpv6Unicast, "iana-bgp-types:l3vpn-ipv6-unicast"),
        (AfiSafi::L2vpnEvpn, "iana-bgp-types:l2vpn-evpn"),
    ] {
        assert_eq!(afi_safi.to_yang(), name);
        assert_eq!(AfiSafi::try_from_yang(name), Some(afi_safi));
    }
    assert_eq!(AfiSafi::try_from_yang("ipv4-unicast"), None);
}

#[test]
fn origin_names_and_numbers() {
    for (origin, name, number) in [(Origin::Igp, "igp", 0), (Origin::Egp, "egp", 1), (Origin::Incomplete, "incomplete", 2)]
    {
        assert_eq!(origin.to_yang(), name);
        assert_eq!(Origin::try_from_yang(name), Some(origin));
        assert_eq!(origin.to_u8(), number);
        assert_eq!(Origin::from_u8(number), Some(origin));
    }
    assert_eq!(Origin::from_u8(3), None);
    assert_eq!(Origin::try_from_yang("IGP"), None);
    assert_eq!(Origin::default(), Origin::Incomplete);
}

#[test]
fn well_known_communities() {
    assert_eq!(WellKnownCommunities::NoExport.to_u32(), 0xFFFF_FF01);
    assert_eq!(WellKnownCommunities::NoAdvertise.to_u32(), 0xFFFF_FF02);
    assert_eq!(WellKnownCommunities::NoExportSubconfed.to_u32(), 0xFFFF_FF03);
    assert_eq!(WellKnownCommunities::from_u32(0xFFFF_FF02), Some(WellKnownCommunities::NoAdvertise));
    assert_eq!(WellKnownCommunities::from_u32(7), None);
    assert_eq!(Comm(0xFFFF_FF01).to_yang(), "iana-bgp-community-types:no-export");
    assert_eq!(
        Comm::try_from_yang("iana-bgp-community-types:no-export-subconfed"),
        Some(Comm(0xFFFF_FF03))
    );
}

#[test]
fn community_texts() {
    assert_eq!(Comm(65000 << 16 | 7).to_yang(), "65000:7");
    assert_eq!(Comm::try_from_yang("65000:7"), Some(Comm(65000 << 16 | 7)));
    assert_eq!(Comm::try_from_yang("0:0"), Some(Comm(0)));
    assert_eq!(Comm::try_from_yang("4294967295"), Some(Comm(u32::MAX)));
    assert_eq!(Comm::try_from_yang("+5"), Some(Comm(5)));
    assert_eq!(Comm::try_from_yang("66535:1"), Some(Comm((66535u32 << 16) | 1)));
    assert_eq!(Comm::try_from_yang("66536:1"), None);
    assert_eq!(Comm::try_from_yang("01:1"), None);
    assert_eq!(Comm::try_from_yang("1:2:3"), None);
    assert_eq!(Comm::try_from_yang("4294967296"), None);
    assert_eq!(Comm::try_from_yang(""), None);
}

#[test]
fn extended_community_texts() {
    assert_eq!(ExtComm([0, 2, 0xfd, 0xe8, 0, 0, 0, 100]).to_yang(), "route-target:65000:100");
    assert_eq!(ExtComm([1, 2, 192, 0, 2, 1, 0, 5]).to_yang(), "route-target:192.0.2.1:5");
    assert_eq!(ExtComm([6, 2, 0, 0x11, 0xab, 0, 0, 9]).to_yang(), "raw:06:02:00:11:AB:00:00:09");
}

#[test]
fn ipv6_extended_community_text() {
    let addr = Ipv6Addr { bits: 0x2001_0db8_0000_0001_0000_0000_0000_000a };
    assert_eq!(
        Extv6Comm(addr, 0x0102_03ff).to_yang(),
        "ipv6-raw:2001:db8:00:01:00:00:00:0a:01:02:03:ff"
    );
}

#[test]
fn large_community_texts() {
    let comm = LargeComm([0, 0, 0, 1, 0, 0, 0, 2, 0xff, 0xff, 0xff, 0xff]);
    assert_eq!(comm.to_yang(), "1:2:4294967295");
    assert_eq!(LargeComm::try_from_yang("1:2:4294967295"), Some(comm));
    let comm = LargeComm([0, 0, 0xfd, 0xe8, 0, 0, 0, 100, 0, 0, 0, 200]);
    assert_eq!(LargeComm::try_from_yang("65000:100:200"), Some(comm));
    assert_eq!(comm.to_yang(), "65000:100:200");
    assert_eq!(
        LargeComm::try_from_yang("1234:5678:9101"),
        Some(LargeComm([0, 0, 0x04, 0xd2, 0, 0, 0x16, 0x2e, 0, 0, 0x23, 0x8d]))
    );
    assert_eq!(LargeComm::try_from_yang("0:0:0"), Some(LargeComm([0; 12])));
    assert_eq!(LargeComm::try_from_yang("1:2:4294967296"), None);
    assert_eq!(LargeComm::try_from_yang("1:2:99999999999999999999"), None);
    assert_eq!(LargeComm::try_from_yang("01:2:3"), None);
    assert_eq!(LargeComm::try_from_yang("+1:2:3"), None);
    assert_eq!(LargeComm::try_from_yang("1:2:3:4"), None);
    assert_eq!(LargeComm::try_from_yang("1::3"), None);
    assert_eq!(LargeComm::try_from_yang("1234:5678"), None);
    assert_eq!(LargeComm::try_from_yang("a:b:c"), None);
}

#[test]
fn route_distinguisher_encoding() {
    let as2 = RouteDistinguisher::As2Administrator { asn: 65000, number: 0x0102_0304 };
    assert_eq!(as2.encode(), [0, 0, 0xfd, 0xe8, 1, 2, 3, 4]);
    let ipv4 = RouteDistinguisher::Ipv4Administrator { addr: Ipv4Addr::new(192, 0, 2, 1), number: 258 };
    assert_eq!(ipv4.encode(), [0, 1, 192, 0, 2, 1, 1, 2]);
    let as4 = RouteDistinguisher::As4Administrator { asn: 0x0102_0304, number: 5 };
    assert_eq!(as4.encode(), [0, 2, 1, 2, 3, 4, 0, 5]);
    for rd in [as2, ipv4, as4] {
        assert_eq!(RouteDistinguisher::decode(rd.encode()), Some(rd));
    }
    assert_eq!(RouteDistinguisher::decode([0, 3, 0, 0, 0, 0, 0, 0]), None);
}

#[test]
fn route_distinguisher_texts() {
    let as2 = RouteDistinguisher::As2Administrator { asn: 65000, number: 7 };
    assert_eq!(as2.to_yang(), "65000:7");
    assert_eq!(RouteDistinguisher::try_from_yang("65000:7"), Some(as2));
    assert_eq!(RouteDistinguisher::try_from_yang("0:65000:7"), Some(as2));
    let ipv4 = RouteDistinguisher::Ipv4Administrator { addr: Ipv4Addr::new(10, 0, 0, 1), number: 3 };
    assert_eq!(ipv4.to_yang(), "10.0.0.1:3");
    assert_eq!(RouteDistinguisher::try_from_yang("1:10.0.0.1:3"), Some(ipv4));
    assert_eq!(RouteDistinguisher::try_from_yang("10.0.0.1:3"), Some(ipv4));
    let as4 = RouteDistinguisher::As4Administrator { asn: 65536, number: 3 };
    assert_eq!(RouteDistinguisher::try_from_yang("65536:3"), Some(as4));
    assert_eq!(
        RouteDistinguisher::try_from_yang("2:1:3"),
        Some(RouteDistinguisher::As4Administrator { asn: 1, number: 3 })
    );
    assert_eq!(RouteDistinguisher::try_from_yang("65536:65536"), None);
    assert_eq!(RouteDistinguisher::try_from_yang("3:1:1"), None);
    assert_eq!(RouteDistinguisher::try_from_yang("1"), None);
}

#[test]
fn route_target_texts_and_communities() {
    let rt = RouteTarget::As2Administrator { asn: 65000, number: 100 };
    assert_eq!(rt.to_yang(), "route-target:65000:100");
    assert_eq!(RouteTarget::try_from_yang("route-target:65000:100"), Some(rt));
    assert_eq!(RouteTarget::try_from_yang("0:65000:100"), Some(rt));
    assert_eq!(rt.to_ext_comm(), ExtComm([0, 2, 0xfd, 0xe8, 0, 0, 0, 100]));
    let as4 = RouteTarget::As4Administrator { asn: 70000, number: 1 };
    assert_eq!(as4.to_ext_comm(), ExtComm([2, 2, 0, 1, 0x11, 0x70, 0, 1]));
    for rt in [rt, as4] {
        assert_eq!(RouteTarget::from_ext_comm(&rt.to_ext_comm()), Some(rt));
        assert_eq!(RouteTarget::try_from_yang(&rt.to_yang()), Some(rt));
    }
    assert_eq!(RouteTarget::from_ext_comm(&ExtComm([0, 3, 0, 0, 0, 0, 0, 0])), None);
    // Written back, a route target is transitive.
    for kind in [0u8, 1, 2] {
        let plain = ExtComm([kind, 2, 1, 2, 3, 4, 5, 6]);
        let marked = ExtComm([kind | 0x40, 2, 1, 2, 3, 4, 5, 6]);
        assert_eq!(RouteTarget::from_ext_comm(&marked).unwrap().to_ext_comm(), plain);
        assert_eq!(RouteTarget::from_ext_comm(&plain).unwrap().to_ext_comm(), plain);
    }
    assert_eq!(RouteTarget::try_from_yang("65000:100"), None);
    assert_eq!(RouteTarget::try_from_yang("route-target:x:1"), None);
    assert_eq!(RouteTarget::try_from_yang("0:1:2:3"), None);
}

#[test]
fn a_small_four_octet_target_reads_back_as_two_octets() {
    let as4 = RouteTarget::As4Administrator { asn: 100, number: 1 };
    assert_eq!(
        RouteTarget::try_from_yang(&as4.to_yang()),
        Some(RouteTarget::As2Administrator { asn: 100, number: 1 })
    );
}

#[test]
fn evpn_communities() {
    let label = EvpnEsiLabel { single_active: true, label: 16 };
    assert_eq!(evpn_esi_label_ext_comm(label), ExtComm([0x06, 0x01, 0x01, 0, 0, 0, 1, 1]));
    assert_eq!(evpn_esi_label_from_ext_comm(&evpn_esi_label_ext_comm(label)), Some(label));
    assert_eq!(evpn_esi_label_from_ext_comm(&ExtComm([0x06, 0x02, 1, 0, 0, 0, 0, 16])), None);
    assert_eq!(evpn_esi_label_from_ext_comm(&ExtComm([0x06, 0x01, 1, 0, 0, 0, 1, 0])), None);
    let mobility = EvpnMacMobility { sticky: true, sequence: 258 };
    assert_eq!(evpn_mac_mobility_ext_comm(mobility), ExtComm([0x06, 0x00, 0x01, 0, 0, 0, 1, 2]));
    assert_eq!(evpn_mac_mobility_from_ext_comm(&ExtComm([0x06, 0x00, 0x01, 0, 0, 0, 1, 2])), Some(mobility));
}

#[test]
fn numbers_and_addresses() {
    assert_eq!(to_decimal(0), "0");
    assert_eq!(to_decimal(u32::MAX), "4294967295");
    assert_eq!(parse_number("0065535", 65535), Some(65535));
    assert_eq!(parse_number("65536", 65535), None);
    assert_eq!(parse_number("", 65535), None);
    assert_eq!(parse_number("+", 65535), None);
    assert_eq!(parse_number("-1", 65535), None);
    assert_eq!(to_dotted(Ipv4Addr::new(192, 0, 2, 255)), "192.0.2.255");
    assert_eq!(parse_ipv4("192.0.2.255"), Some(Ipv4Addr::new(192, 0, 2, 255)));
    assert_eq!(parse_ipv4("192.0.2.256"), None);
    assert_eq!(parse_ipv4("192.0.02.1"), None);
    assert_eq!(parse_ipv4("192.0.2"), None);
    assert_eq!(split("a::b", ':'), vec!["a", "", "b"]);
}
