//! What holds of the requests to the kernel's routing tables.
use crate::ip::IpAddr;
use crate::ip::IpNetwork;
use crate::netlink::hop_models;
use crate::netlink::hops_of;
use crate::netlink::ip_route_install;
use crate::netlink::ip_route_uninstall;
use crate::netlink::is_own_protocol;
use crate::netlink::label_stack;
use crate::netlink::message_attributes;
use crate::netlink::message_header;
use crate::netlink::mpls_route_install;
use crate::netlink::mpls_route_uninstall;
use crate::netlink::netlink_label_stack;
use crate::netlink::netlink_nexthops;
use crate::netlink::netlink_protocol;
use crate::netlink::protocol_number;
use crate::netlink::sent_labels;
use crate::netlink::Attribute;
use crate::netlink::Family;
use crate::netlink::HopModel;
use crate::netlink::LabelEntry;
use crate::netlink::NetlinkRequest;
use crate::protocol::Label;
use crate::protocol::Protocol;
use crate::routing::has_unnumbered;
use crate::routing::Interfaces;
use crate::southbound::Nexthop;
use crate::routing_master::Route;
use crate::southbound::RouteKind;
use netlink_packet_route::route::RouteNextHop;
use vstd::prelude::*;

verus! {

/// The numbers under which the kernel knows routing protocols. Those that it has
/// no number for have 0; both versions of OSPF share one, and both of RIP.
pub proof fn protocols_have_numbers(protocol: Protocol, r: u8)
    requires
        call_ensures(netlink_protocol, (protocol,), r),
    ensures
        r == 186 <==> protocol == Protocol::BGP,
        r == 187 <==> protocol == Protocol::ISIS,
        r == 188 <==> protocol == Protocol::OSPFV2 || protocol == Protocol::OSPFV3,
        r == 189 <==> protocol == Protocol::RIPV2 || protocol == Protocol::RIPNG,
        r == 4 <==> protocol == Protocol::STATIC,
        r == 0 || r == 186 || r == 187 || r == 188 || r == 189 || r == 4,
{
}

/// The numbers of routes that no one else installs.
pub proof fn own_routes_are_recognized(n: u8, r: bool)
    requires
        call_ensures(is_own_protocol, (n,), r),
    ensures
        r <==> n == 4 || n == 186 || n == 187 || n == 188 || n == 189,
{
    assert(protocol_number(Protocol::BGP) == 186);
    assert(protocol_number(Protocol::ISIS) == 187);
    assert(protocol_number(Protocol::OSPFV2) == 188);
    assert(protocol_number(Protocol::RIPV2) == 189);
    assert(protocol_number(Protocol::STATIC) == 4);
}

/// A label stack is empty for no labels. A label that is put on the stack last
/// comes last, unless it is implicit null, which is not sent.
pub proof fn labels_are_stacked_in_order(
    labels: &[Label],
    r: Vec<LabelEntry>,
    init: &[Label],
    q: Vec<LabelEntry>,
    label: Label,
    i: int,
)
    requires
        call_ensures(netlink_label_stack, (labels,), r),
        call_ensures(netlink_label_stack, (init,), q),
        labels@ == init@.push(label),
    ensures
        init@.len() == 0 ==> q@.len() == 0,
        label.0 == 3 ==> r@.len() == q@.len(),
        label.0 != 3 ==> r@.len() == q@.len() + 1 && r@[q@.len() as int].label == label.0,
        0 <= i < q@.len() ==> r@[i].label == q@[i].label,
        0 <= i < r@.len() ==> r@[i].traffic_class == 0 && r@[i].ttl == 0 && r@[i].label != 3 && (r@[i].bottom_of_stack
            <==> i == r@.len() - 1),
{
    reveal(Seq::filter);
    assert(labels@.drop_last() =~= init@);
    crate::netlink::stack_has_one_bottom(labels@);
    assert(sent_labels(labels@) =~= if label.0 != 3 {
        sent_labels(init@).push(label)
    } else {
        sent_labels(init@)
    });
    if 0 <= i < r@.len() {
        assert(label_stack(labels@)[i].label != 3);
    }
}

/// What a next hop with an address says to the kernel: the interface, the address,
/// as the gateway of an IP route if it is of its family, the labels, and whether
/// it is to be taken as directly reachable.
pub open spec fn is_hop(
    h: HopModel,
    family: Family,
    ifindex: u32,
    addr: IpAddr,
    stack: Seq<LabelEntry>,
    unnumbered: bool,
) -> bool {
    &&& h.ifindex == ifindex
    &&& h.onlink <==> addr is V4 && unnumbered
    &&& h.attributes.len() >= 1
    &&& (family == Family::Inet && addr is V4) || family == Family::Inet6 ==> h.attributes[0] == Attribute::Gateway(
        addr,
    )
    &&& (family == Family::Inet && addr is V6) || family == Family::Mpls ==> h.attributes[0] == Attribute::Via(addr)
    &&& stack.len() == 0 ==> h.attributes.len() == 1
    &&& stack.len() > 0 && family == Family::Mpls ==> h.attributes.len() == 2 && h.attributes[1]
        == Attribute::NewDestination(stack)
    &&& stack.len() > 0 && family != Family::Mpls ==> h.attributes.len() == 3 && h.attributes[1]
        is MplsEncapType && h.attributes[2] == Attribute::MplsEncap(stack)
}

/// Whether an interface with an index has an address that is borrowed from
/// another.
pub open spec fn lacks_number(interfaces: Interfaces, ifindex: u32) -> bool {
    exists|n: Seq<char>, a: IpNetwork|
        #![trigger interfaces.by_name@.contains_key(n), interfaces.by_name@[n].addresses@.contains_key(a)]
        interfaces.by_name@.contains_key(n) && interfaces.by_name@[n].ifindex == ifindex
            && interfaces.by_name@[n].addresses@.contains_key(a) && interfaces.by_name@[n].addresses@[a]
}

proof fn unnumbered_lack_numbers(interfaces: Interfaces, ifindex: u32)
    ensures
        interfaces.unnumbered_spec(ifindex) <==> lacks_number(interfaces, ifindex),
{
    if interfaces.unnumbered_spec(ifindex) {
        let n = choose|n: Seq<char>| #[trigger]
            interfaces.by_name@.contains_key(n) && interfaces.by_name@[n].ifindex == ifindex && has_unnumbered(
                interfaces.by_name@[n],
            );
        let a = choose|a: IpNetwork| #[trigger]
            interfaces.by_name@[n].addresses@.contains_key(a) && interfaces.by_name@[n].addresses@[a];
        assert(interfaces.by_name@.contains_key(n) && interfaces.by_name@[n].addresses@.contains_key(a));
    }
    if lacks_number(interfaces, ifindex) {
        let (n, a) = choose|n: Seq<char>, a: IpNetwork|
            #![trigger interfaces.by_name@.contains_key(n), interfaces.by_name@[n].addresses@.contains_key(a)]
            interfaces.by_name@.contains_key(n) && interfaces.by_name@[n].ifindex == ifindex
                && interfaces.by_name@[n].addresses@.contains_key(a) && interfaces.by_name@[n].addresses@[a];
        assert(has_unnumbered(interfaces.by_name@[n]));
    }
}

proof fn first_hops(family: Family, a: Vec<Nexthop>, b: Vec<Nexthop>, n: nat, interfaces: Interfaces)
    requires
        n <= a@.len(),
        n <= b@.len(),
        forall|i: int| 0 <= i < n ==> #[trigger] a@[i] == b@[i],
    ensures
        hops_of(family, a, n, interfaces) == hops_of(family, b, n, interfaces),
    decreases n,
{
    if n > 0 {
        first_hops(family, a, b, (n - 1) as nat, interfaces);
        assert(a@[n - 1] == b@[n - 1]);
    }
}

/// Next hops come in order. One with an address or an interface is one to the
/// kernel; one that is reached through others is replaced by these.
pub proof fn nexthops_come_in_order(
    family: Family,
    nexthops: &Vec<Nexthop>,
    interfaces: &Interfaces,
    r: Vec<RouteNextHop>,
    init: &Vec<Nexthop>,
    q: Vec<RouteNextHop>,
    resolved: &Vec<Nexthop>,
    t: Vec<RouteNextHop>,
    labels: &[Label],
    stack: Vec<LabelEntry>,
    last: Nexthop,
    i: int,
)
    requires
        call_ensures(netlink_nexthops, (family, nexthops, interfaces), r),
        call_ensures(netlink_nexthops, (family, init, interfaces), q),
        call_ensures(netlink_nexthops, (family, resolved, interfaces), t),
        call_ensures(netlink_label_stack, (labels,), stack),
        nexthops@ == init@.push(last),
    ensures
        init@.len() == 0 ==> q@.len() == 0,
        0 <= i < q@.len() ==> hop_models(r@)[i] == hop_models(q@)[i],
        last matches Nexthop::Address { ifindex, addr, labels: l } ==> l@ == labels@ ==> r@.len() == q@.len() + 1
            && is_hop(
            hop_models(r@)[q@.len() as int],
            family,
            ifindex,
            addr,
            stack@,
            lacks_number(*interfaces, ifindex),
        ),
        last matches Nexthop::Interface { ifindex } ==> r@.len() == q@.len() + 1 && hop_models(
            r@,
        )[q@.len() as int].ifindex == ifindex && hop_models(r@)[q@.len() as int].attributes.len() == 0 && !hop_models(
            r@,
        )[q@.len() as int].onlink,
        last matches Nexthop::Recursive { resolved: x, .. } ==> x == *resolved ==> r@.len() == q@.len() + t@.len() && (
        0 <= i < t@.len() ==> hop_models(r@)[q@.len() + i] == hop_models(t@)[i]),
{
    let n = nexthops@.len();
    let k = (n - 1) as nat;
    first_hops(family, *nexthops, *init, k, *interfaces);
    assert(nexthops@[n - 1] == last);
    assert(hops_of(family, *nexthops, n, *interfaces) == hops_of(family, *nexthops, k, *interfaces)
        + crate::netlink::hop_of(family, last, *interfaces));
    assert(hop_models(r@).len() == r@.len());
    assert(hop_models(q@).len() == q@.len());
    assert(hop_models(t@).len() == t@.len());
    if let Nexthop::Address { ifindex, .. } = last {
        unnumbered_lack_numbers(*interfaces, ifindex);
    }
    if init@.len() == 0 {
        assert(hop_models(q@).len() == 0);
    }
}

/// A request to install an IP route adds it to the main table, for its prefix,
/// under the number of its protocol and as the kind that it is, with its next
/// hops.
pub proof fn ip_routes_are_installed(
    prefix: &IpNetwork,
    route: &Route,
    interfaces: &Interfaces,
    r: NetlinkRequest,
    number: u8,
    hops: Vec<RouteNextHop>,
)
    requires
        call_ensures(ip_route_install, (prefix, route, interfaces), r),
        call_ensures(netlink_protocol, (route.protocol,), number),
        call_ensures(
            netlink_nexthops,
            (
                if prefix is V4 {
                    Family::Inet
                } else {
                    Family::Inet6
                },
                &*route.nexthops,
                interfaces,
            ),
            hops,
        ),
    ensures
        r matches NetlinkRequest::RouteAdd(msg) && {
            let header = message_header(msg);
            let attributes = message_attributes(msg);
            &&& header.family == Family::Inet <==> prefix is V4
            &&& header.family == Family::Inet6 <==> prefix is V6
            &&& header.table == 254
            &&& header.protocol == number
            &&& route.kind == RouteKind::Unicast ==> header.kind == 1
            &&& route.kind == RouteKind::Blackhole ==> header.kind == 6
            &&& route.kind == RouteKind::Unreachable ==> header.kind == 7
            &&& route.kind == RouteKind::Prohibit ==> header.kind == 8
            &&& prefix matches IpNetwork::V4(p) ==> header.prefix_length == p.prefix && attributes[0]
                == Attribute::Destination(IpAddr::V4(p.addr))
            &&& prefix matches IpNetwork::V6(p) ==> header.prefix_length == p.prefix && attributes[0]
                == Attribute::Destination(IpAddr::V6(p.addr))
            &&& attributes.len() == 2 && attributes[1] == Attribute::MultiPath(hop_models(hops@))
        },
{
}

/// A request to remove an IP route names its prefix, its table and the number of
/// its protocol, and no next hops.
pub proof fn ip_routes_are_removed(prefix: &IpNetwork, protocol: Protocol, r: NetlinkRequest, number: u8)
    requires
        call_ensures(ip_route_uninstall, (prefix, protocol), r),
        call_ensures(netlink_protocol, (protocol,), number),
    ensures
        r matches NetlinkRequest::RouteDel(msg) && {
            let header = message_header(msg);
            let attributes = message_attributes(msg);
            &&& header.family == Family::Inet <==> prefix is V4
            &&& header.family == Family::Inet6 <==> prefix is V6
            &&& header.table == 254
            &&& header.protocol == number
            &&& header.kind == 0
            &&& attributes.len() == 1
            &&& prefix matches IpNetwork::V4(p) ==> header.prefix_length == p.prefix && attributes[0]
                == Attribute::Destination(IpAddr::V4(p.addr))
            &&& prefix matches IpNetwork::V6(p) ==> header.prefix_length == p.prefix && attributes[0]
                == Attribute::Destination(IpAddr::V6(p.addr))
        },
{
}

/// A request to install an MPLS route names its label as the only one, and puts
/// the interface and the attributes of a single next hop at the top level; several
/// are listed. One to remove it names the same label, protocol and table.
pub proof fn mpls_routes_are_installed_and_removed(
    label: Label,
    route: &Route,
    interfaces: &Interfaces,
    r: NetlinkRequest,
    d: NetlinkRequest,
    number: u8,
    hops: Vec<RouteNextHop>,
    i: int,
)
    requires
        call_ensures(mpls_route_install, (label, route, interfaces), r),
        call_ensures(mpls_route_uninstall, (label, route.protocol), d),
        call_ensures(netlink_protocol, (route.protocol,), number),
        call_ensures(netlink_nexthops, (Family::Mpls, &*route.nexthops, interfaces), hops),
    ensures
        r matches NetlinkRequest::RouteAdd(msg) && {
            let header = message_header(msg);
            let attributes = message_attributes(msg);
            let all = hop_models(hops@);
            &&& header.family == Family::Mpls && header.prefix_length == 20 && header.table == 254 && header.kind == 1
            &&& header.protocol == number
            &&& attributes.len() >= 2
            &&& attributes[0] matches Attribute::LabelDestination(entry) && entry.label == label.0
                && entry.bottom_of_stack && entry.traffic_class == 0 && entry.ttl == 0
            &&& hops@.len() == 1 ==> attributes.len() == 2 + all[0].attributes.len() && attributes[1] == Attribute::Oif(
                all[0].ifindex,
            ) && (0 <= i < all[0].attributes.len() ==> attributes[2 + i] == all[0].attributes[i])
            &&& hops@.len() != 1 ==> attributes.len() == 2 && attributes[1] == Attribute::MultiPath(all)
        },
        d matches NetlinkRequest::RouteDel(msg) && {
            let header = message_header(msg);
            let attributes = message_attributes(msg);
            &&& header.family == Family::Mpls && header.prefix_length == 20 && header.table == 254
            &&& header.protocol == number
            &&& attributes.len() == 1
            &&& attributes[0] matches Attribute::LabelDestination(entry) && entry.label == label.0
                && entry.bottom_of_stack && entry.traffic_class == 0 && entry.ttl == 0
        },
{
    assert(hop_models(hops@).len() == hops@.len());
}

}
