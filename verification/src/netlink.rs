//! Requests to the kernel's routing tables.
use crate::ip::IpAddr;
use crate::ip::IpNetwork;
use crate::protocol::IMPLICIT_NULL;
use crate::protocol::Label;
use crate::protocol::Protocol;
use crate::routing::prefix_wf;
use crate::routing::Interfaces;
use crate::routing_master::Route;
use crate::southbound::Nexthop;
use crate::southbound::RouteKind;
use netlink_packet_route::route::MplsLabel;
use netlink_packet_route::route::RouteAttribute;
use netlink_packet_route::route::RouteMessage;
use netlink_packet_route::route::RouteNextHop;
use rtnetlink::RouteMessageBuilder;
use rtnetlink::RouteNextHopBuilder;
use vstd::prelude::*;

verus! {

/// The kernel's number of the main routing table.
pub const RT_TABLE_MAIN: u8 = 254;

/// The kernel's numbers of the protocols that routes are installed by.
pub const RTPROT_UNSPEC: u8 = 0;

pub const RTPROT_STATIC: u8 = 4;

pub const RTPROT_BGP: u8 = 186;

pub const RTPROT_ISIS: u8 = 187;

pub const RTPROT_OSPF: u8 = 188;

pub const RTPROT_RIP: u8 = 189;

/// The kernel's numbers of the kinds of routes.
pub const RTN_UNSPEC: u8 = 0;

pub const RTN_UNICAST: u8 = 1;

pub const RTN_BLACKHOLE: u8 = 6;

pub const RTN_UNREACHABLE: u8 = 7;

pub const RTN_PROHIBIT: u8 = 8;

/// The length of an MPLS label, in bits.
pub const MPLS_LABEL_LEN: u8 = 20;

/// The address family of a route.
#[derive(Clone, Copy, Debug, PartialEq, Eq, Structural)]
pub enum Family {
    Inet,
    Inet6,
    Mpls,
}

/// An entry of an MPLS label stack.
#[derive(Clone, Copy, Debug, PartialEq, Eq, Structural)]
pub struct LabelEntry {
    pub label: u32,
    pub traffic_class: u8,
    pub bottom_of_stack: bool,
    pub ttl: u8,
}

/// An attribute of a route, or of a next hop of it.
pub enum Attribute {
    /// The destination of an IP route.
    Destination(IpAddr),
    /// The destination of an MPLS route.
    LabelDestination(LabelEntry),
    /// The outgoing interface.
    Oif(u32),
    /// A next hop of the family of the route.
    Gateway(IpAddr),
    /// A next hop of whatever family.
    Via(IpAddr),
    /// The labels that replace the label of an MPLS route.
    NewDestination(Seq<LabelEntry>),
    /// That packets are encapsulated in MPLS.
    MplsEncapType,
    /// The labels that packets are encapsulated in.
    MplsEncap(Seq<LabelEntry>),
    /// The next hops.
    MultiPath(Seq<HopModel>),
}

/// What a next hop says to the kernel.
pub struct HopModel {
    pub ifindex: u32,
    pub onlink: bool,
    pub attributes: Seq<Attribute>,
}

/// The header of a message to the kernel.
pub struct Header {
    pub family: Family,
    pub prefix_length: u8,
    pub table: u8,
    pub protocol: u8,
    pub kind: u8,
}

/// A message to the kernel about a route.
#[verifier::external_type_specification]
#[verifier::external_body]
pub struct ExRouteMessage(netlink_packet_route::route::RouteMessage);

/// A next hop within a message.
#[verifier::external_type_specification]
#[verifier::external_body]
pub struct ExRouteNextHop(netlink_packet_route::route::RouteNextHop);

/// A next hop that is being put together.
#[verifier::external_type_specification]
#[verifier::external_body]
pub struct ExRouteNextHopBuilder(rtnetlink::RouteNextHopBuilder);

/// The header of a message.
pub uninterp spec fn message_header(msg: RouteMessage) -> Header;

/// The attributes that a message holds, in order.
pub uninterp spec fn message_attributes(msg: RouteMessage) -> Seq<Attribute>;

/// What a next hop holds.
pub uninterp spec fn hop_model(hop: RouteNextHop) -> HopModel;

/// The address family that a next hop is put together for.
pub uninterp spec fn builder_family(builder: RouteNextHopBuilder) -> Family;

/// What a next hop that is being put together holds.
pub uninterp spec fn builder_model(builder: RouteNextHopBuilder) -> HopModel;

/// `RouteNextHopBuilder::new`: a next hop without interface, flags and
/// attributes, for a route of the family.
#[verifier::external_body]
fn builder_new(family: Family) -> (r: RouteNextHopBuilder)
    ensures
        builder_family(r) == family,
        builder_model(r) == (HopModel { ifindex: 0, onlink: false, attributes: Seq::empty() }),
{
    RouteNextHopBuilder::new(match family {
        Family::Inet => netlink_packet_route::AddressFamily::Inet,
        Family::Inet6 => netlink_packet_route::AddressFamily::Inet6,
        Family::Mpls => netlink_packet_route::AddressFamily::Mpls,
    })
}

/// `RouteNextHopBuilder::interface` sets the index of the interface and keeps
/// the rest.
pub assume_specification[ RouteNextHopBuilder::interface ](builder: RouteNextHopBuilder, index: u32) -> (r:
    RouteNextHopBuilder)
    ensures
        builder_family(r) == builder_family(builder),
        builder_model(r) == (HopModel { ifindex: index, ..builder_model(builder) }),
;

/// Whether a route of a family can have a next hop with an address.
pub open spec fn accepts(family: Family, addr: IpAddr) -> bool {
    !(family is Inet6 && addr is V4)
}

/// The attribute for the address of a next hop: a gateway within the family of
/// the route, and an address of whatever family elsewhere.
pub open spec fn via_attribute(family: Family, addr: IpAddr) -> Attribute {
    match (family, addr) {
        (Family::Inet, IpAddr::V4(_)) => Attribute::Gateway(addr),
        (Family::Inet6, _) => Attribute::Gateway(addr),
        _ => Attribute::Via(addr),
    }
}

/// `RouteNextHopBuilder::via` adds the attribute for an address. It fails for
/// an IPv4 address on an IPv6 route, which is left out here.
#[verifier::external_body]
fn builder_via(builder: RouteNextHopBuilder, addr: IpAddr) -> (r: RouteNextHopBuilder)
    requires
        accepts(builder_family(builder), addr),
    ensures
        builder_family(r) == builder_family(builder),
        builder_model(r) == (HopModel {
            attributes: builder_model(builder).attributes.push(via_attribute(builder_family(builder), addr)),
            ..builder_model(builder)
        }),
{
    let addr = match addr {
        IpAddr::V4(addr) => addr.bits.to_be_bytes().into(),
        IpAddr::V6(addr) => addr.bits.to_be_bytes().into(),
    };
    builder.via(addr).unwrap()
}

/// The attributes for a label stack: nothing for an empty one, the labels that
/// replace the label of an MPLS route, and an encapsulation elsewhere.
pub open spec fn label_attributes(family: Family, labels: Seq<LabelEntry>) -> Seq<Attribute> {
    if labels.len() == 0 {
        Seq::empty()
    } else if family is Mpls {
        seq![Attribute::NewDestination(labels)]
    } else {
        seq![Attribute::MplsEncapType, Attribute::MplsEncap(labels)]
    }
}

/// `RouteNextHopBuilder::mpls` adds the attributes for a label stack.
#[verifier::external_body]
fn builder_mpls(builder: RouteNextHopBuilder, labels: Vec<LabelEntry>) -> (r: RouteNextHopBuilder)
    ensures
        builder_family(r) == builder_family(builder),
        builder_model(r) == (HopModel {
            attributes: builder_model(builder).attributes + label_attributes(builder_family(builder), labels@),
            ..builder_model(builder)
        }),
{
    let entry = |l: LabelEntry| MplsLabel {
        label: l.label,
        traffic_class: l.traffic_class,
        bottom_of_stack: l.bottom_of_stack,
        ttl: l.ttl,
    };
    builder.mpls(labels.into_iter().map(entry).collect())
}

/// `RouteNextHopBuilder::onlink` sets the flag for a next hop that is reachable
/// without a connected subnet, and keeps the rest.
pub assume_specification[ RouteNextHopBuilder::onlink ](builder: RouteNextHopBuilder) -> (r: RouteNextHopBuilder)
    ensures
        builder_family(r) == builder_family(builder),
        builder_model(r) == (HopModel { onlink: true, ..builder_model(builder) }),
;

/// `RouteNextHopBuilder::build` gives the next hop that was put together.
pub assume_specification[ RouteNextHopBuilder::build ](builder: RouteNextHopBuilder) -> (r: RouteNextHop)
    ensures
        hop_model(r) == builder_model(builder),
;

/// What next hops hold.
pub open spec fn hop_models(hops: Seq<RouteNextHop>) -> Seq<HopModel> {
    Seq::new(hops.len(), |i: int| hop_model(hops[i]))
}

/// The header of a message about an IP route.
pub open spec fn ip_header(addr: IpAddr, prefix_length: u8, protocol: u8, kind: u8) -> Header {
    Header {
        family: match addr {
            IpAddr::V4(_) => Family::Inet,
            IpAddr::V6(_) => Family::Inet6,
        },
        prefix_length,
        table: RT_TABLE_MAIN,
        protocol,
        kind,
    }
}

/// Whether a prefix length is valid for an address.
pub open spec fn length_fits(addr: IpAddr, prefix_length: u8) -> bool {
    match addr {
        IpAddr::V4(_) => prefix_length <= 32,
        IpAddr::V6(_) => prefix_length <= 128,
    }
}

/// `RouteMessageBuilder::<IpAddr>`, from `new` through `destination_prefix`,
/// `protocol` and `kind` to `build`: a message about the main table that holds
/// the destination. `destination_prefix` fails for a prefix that is too long,
/// which is left out here.
#[verifier::external_body]
fn ip_message(addr: IpAddr, prefix_length: u8, protocol: u8, kind: u8) -> (r: RouteMessage)
    requires
        length_fits(addr, prefix_length),
    ensures
        message_header(r) == ip_header(addr, prefix_length, protocol, kind),
        message_attributes(r) == seq![Attribute::Destination(addr)],
{
    let addr = match addr {
        IpAddr::V4(addr) => addr.bits.to_be_bytes().into(),
        IpAddr::V6(addr) => addr.bits.to_be_bytes().into(),
    };
    let builder = <RouteMessageBuilder>::new().destination_prefix(addr, prefix_length).unwrap();
    builder.protocol(protocol.into()).kind(kind.into()).build()
}

/// The same chain of `RouteMessageBuilder::<IpAddr>` with `multipath` before
/// `build`, which adds the next hops.
#[verifier::external_body]
fn ip_multipath_message(
    addr: IpAddr,
    prefix_length: u8,
    protocol: u8,
    kind: u8,
    nexthops: Vec<RouteNextHop>,
) -> (r: RouteMessage)
    requires
        length_fits(addr, prefix_length),
    ensures
        message_header(r) == ip_header(addr, prefix_length, protocol, kind),
        message_attributes(r) == seq![Attribute::Destination(addr), Attribute::MultiPath(hop_models(nexthops@))],
{
    let addr = match addr {
        IpAddr::V4(addr) => addr.bits.to_be_bytes().into(),
        IpAddr::V6(addr) => addr.bits.to_be_bytes().into(),
    };
    let builder = <RouteMessageBuilder>::new().destination_prefix(addr, prefix_length).unwrap();
    builder.protocol(protocol.into()).kind(kind.into()).multipath(nexthops).build()
}

/// The header of a message about an MPLS route.
pub open spec fn mpls_header(protocol: u8) -> Header {
    Header {
        family: Family::Mpls,
        prefix_length: MPLS_LABEL_LEN,
        table: RT_TABLE_MAIN,
        protocol,
        kind: RTN_UNICAST,
    }
}

/// `RouteMessageBuilder::<MplsLabel>`, from `new` through `label` and `protocol`
/// to `build`: a message about the main table that holds the label.
#[verifier::external_body]
fn mpls_message(label: LabelEntry, protocol: u8) -> (r: RouteMessage)
    ensures
        message_header(r) == mpls_header(protocol),
        message_attributes(r) == seq![Attribute::LabelDestination(label)],
{
    let label = MplsLabel {
        label: label.label,
        traffic_class: label.traffic_class,
        bottom_of_stack: label.bottom_of_stack,
        ttl: label.ttl,
    };
    RouteMessageBuilder::<MplsLabel>::new().label(label).protocol(protocol.into()).build()
}

/// The same chain of `RouteMessageBuilder::<MplsLabel>` with `multipath` before
/// `build`, which adds the next hops.
#[verifier::external_body]
fn mpls_multipath_message(label: LabelEntry, protocol: u8, nexthops: Vec<RouteNextHop>) -> (r: RouteMessage)
    ensures
        message_header(r) == mpls_header(protocol),
        message_attributes(r) == seq![
            Attribute::LabelDestination(label),
            Attribute::MultiPath(hop_models(nexthops@)),
        ],
{
    let label = MplsLabel {
        label: label.label,
        traffic_class: label.traffic_class,
        bottom_of_stack: label.bottom_of_stack,
        ttl: label.ttl,
    };
    RouteMessageBuilder::<MplsLabel>::new().label(label).protocol(protocol.into()).multipath(nexthops).build()
}

/// The field `interface_index` of a `RouteNextHop`.
#[verifier::external_body]
fn hop_ifindex(hop: &RouteNextHop) -> (r: u32)
    ensures
        r == hop_model(*hop).ifindex,
{
    hop.interface_index
}

/// Adds a `RouteAttribute::Oif` to the `attributes` of a `RouteMessage`.
#[verifier::external_body]
fn push_oif(msg: &mut RouteMessage, ifindex: u32)
    ensures
        message_header(*final(msg)) == message_header(*old(msg)),
        message_attributes(*final(msg)) == message_attributes(*old(msg)).push(Attribute::Oif(ifindex)),
{
    msg.attributes.push(RouteAttribute::Oif(ifindex));
}

/// Adds the `attributes` of a `RouteNextHop` to those of a `RouteMessage`.
#[verifier::external_body]
fn extend_attributes(msg: &mut RouteMessage, hop: RouteNextHop)
    ensures
        message_header(*final(msg)) == message_header(*old(msg)),
        message_attributes(*final(msg)) == message_attributes(*old(msg)) + hop_model(hop).attributes,
{
    msg.attributes.extend(hop.attributes);
}

/// A request to the kernel.
pub enum NetlinkRequest {
    RouteAdd(RouteMessage),
    RouteDel(RouteMessage),
}

/// The kernel's number of a protocol.
pub open spec fn protocol_number(protocol: Protocol) -> u8 {
    match protocol {
        Protocol::BGP => RTPROT_BGP,
        Protocol::ISIS => RTPROT_ISIS,
        Protocol::OSPFV2 | Protocol::OSPFV3 => RTPROT_OSPF,
        Protocol::RIPV2 | Protocol::RIPNG => RTPROT_RIP,
        Protocol::STATIC => RTPROT_STATIC,
        _ => RTPROT_UNSPEC,
    }
}

pub fn netlink_protocol(protocol: Protocol) -> (r: u8)
    ensures
        r == protocol_number(protocol),
{
    match protocol {
        Protocol::BGP => RTPROT_BGP,
        Protocol::ISIS => RTPROT_ISIS,
        Protocol::OSPFV2 | Protocol::OSPFV3 => RTPROT_OSPF,
        Protocol::RIPV2 | Protocol::RIPNG => RTPROT_RIP,
        Protocol::STATIC => RTPROT_STATIC,
        _ => RTPROT_UNSPEC,
    }
}

/// Whether routes with the kernel's number of a protocol are installed by no one
/// else.
pub fn is_own_protocol(protocol: u8) -> (r: bool)
    ensures
        r == (protocol != RTPROT_UNSPEC && exists|p: Protocol| #[trigger] protocol_number(p) == protocol),
{
    proof {
        assert(protocol_number(Protocol::BGP) == RTPROT_BGP);
        assert(protocol_number(Protocol::ISIS) == RTPROT_ISIS);
        assert(protocol_number(Protocol::OSPFV2) == RTPROT_OSPF);
        assert(protocol_number(Protocol::RIPV2) == RTPROT_RIP);
        assert(protocol_number(Protocol::STATIC) == RTPROT_STATIC);
    }
    protocol == RTPROT_BGP || protocol == RTPROT_ISIS || protocol == RTPROT_OSPF || protocol == RTPROT_RIP || protocol
        == RTPROT_STATIC
}

/// The kernel's number of a kind of route.
pub open spec fn kind_number(kind: RouteKind) -> u8 {
    match kind {
        RouteKind::Unicast => RTN_UNICAST,
        RouteKind::Blackhole => RTN_BLACKHOLE,
        RouteKind::Unreachable => RTN_UNREACHABLE,
        RouteKind::Prohibit => RTN_PROHIBIT,
    }
}

/// The labels of a stack that are sent: all but implicit null.
pub open spec fn sent_labels(labels: Seq<Label>) -> Seq<Label> {
    labels.filter(|l: Label| l.0 != IMPLICIT_NULL)
}

/// A label stack: the labels that are sent, the last one marked as the bottom.
pub open spec fn label_stack(labels: Seq<Label>) -> Seq<LabelEntry> {
    let sent = sent_labels(labels);
    Seq::new(
        sent.len(),
        |i: int|
            LabelEntry { label: sent[i].0, traffic_class: 0, bottom_of_stack: i == sent.len() - 1, ttl: 0 },
    )
}

pub fn netlink_label_stack(labels: &[Label]) -> (r: Vec<LabelEntry>)
    ensures
        r@ == label_stack(labels@),
{
    let mut r: Vec<LabelEntry> = Vec::new();
    let mut i: usize = 0;
    let ghost pred = |l: Label| l.0 != IMPLICIT_NULL;
    while i < labels.len()
        invariant
            pred == (|l: Label| l.0 != IMPLICIT_NULL),
            i <= labels@.len(),
            r@.len() == labels@.take(i as int).filter(pred).len(),
            forall|j: int|
                0 <= j < r@.len() ==> #[trigger] r@[j] == (LabelEntry {
                    label: labels@.take(i as int).filter(pred)[j].0,
                    traffic_class: 0,
                    bottom_of_stack: false,
                    ttl: 0,
                }),
        decreases labels@.len() - i,
    {
        proof {
            reveal(Seq::filter);
            assert(labels@.take(i + 1).drop_last() =~= labels@.take(i as int));
        }
        let label = labels[i];
        if !label.is_implicit_null() {
            r.push(LabelEntry { label: label.get(), traffic_class: 0, bottom_of_stack: false, ttl: 0 });
        }
        i += 1;
    }
    assert(labels@.take(i as int) =~= labels@);
    let n: usize = r.len();
    if n > 0 {
        let mut last = r[n - 1];
        last.bottom_of_stack = true;
        r.set(n - 1, last);
    }
    assert(r@ =~= label_stack(labels@));
    r
}

/// Whether a next hop is marked as directly reachable: an IPv4 address on an
/// unnumbered interface.
pub open spec fn is_onlink(addr: IpAddr, ifindex: u32, interfaces: Interfaces) -> bool {
    addr is V4 && interfaces.unnumbered_spec(ifindex)
}

/// What a next hop becomes in a route of a family. One that is reached through
/// others is replaced by these.
pub open spec fn hop_of(family: Family, nexthop: Nexthop, interfaces: Interfaces) -> Seq<HopModel>
    decreases nexthop, 0nat,
{
    match nexthop {
        Nexthop::Address { ifindex, addr, labels } => seq![
            HopModel {
                ifindex,
                onlink: is_onlink(addr, ifindex, interfaces),
                attributes: seq![via_attribute(family, addr)] + label_attributes(family, label_stack(labels@)),
            },
        ],
        Nexthop::Interface { ifindex } => seq![HopModel { ifindex, onlink: false, attributes: Seq::empty() }],
        Nexthop::Recursive { resolved, .. } => hops_of(family, resolved, resolved@.len(), interfaces),
    }
}

/// What the first `n` next hops become in a route of a family.
pub open spec fn hops_of(family: Family, nexthops: Vec<Nexthop>, n: nat, interfaces: Interfaces) -> Seq<HopModel>
    decreases nexthops, n,
{
    if n == 0 || n > nexthops@.len() {
        Seq::empty()
    } else {
        hops_of(family, nexthops, (n - 1) as nat, interfaces) + hop_of(family, nexthops[n - 1], interfaces)
    }
}

/// Whether a route of a family can have a next hop.
pub open spec fn hop_fits(family: Family, nexthop: Nexthop) -> bool
    decreases nexthop,
{
    match nexthop {
        Nexthop::Address { addr, .. } => accepts(family, addr),
        Nexthop::Interface { .. } => true,
        Nexthop::Recursive { resolved, .. } => forall|i: int|
            0 <= i < resolved@.len() ==> hop_fits(family, #[trigger] resolved@[i]),
    }
}

/// Whether a route of a family can have the next hops.
pub open spec fn hops_fit(family: Family, nexthops: Seq<Nexthop>) -> bool {
    forall|i: int| 0 <= i < nexthops.len() ==> hop_fits(family, #[trigger] nexthops[i])
}

/// Whether a route of a family can have the next hops.
pub fn nexthops_fit(family: Family, nexthops: &Vec<Nexthop>) -> (r: bool)
    ensures
        r == hops_fit(family, nexthops@),
    decreases nexthops,
{
    let mut i: usize = 0;
    while i < nexthops.len()
        invariant
            i <= nexthops@.len(),
            forall|j: int| 0 <= j < i ==> hop_fits(family, #[trigger] nexthops@[j]),
        decreases nexthops@.len() - i,
    {
        let fits = match &nexthops[i] {
            Nexthop::Address { addr, .. } => match (family, addr) {
                (Family::Inet6, IpAddr::V4(_)) => false,
                _ => true,
            },
            Nexthop::Interface { .. } => true,
            Nexthop::Recursive { resolved, .. } => nexthops_fit(family, resolved),
        };
        if !fits {
            assert(!hop_fits(family, nexthops@[i as int]));
            return false;
        }
        i += 1;
    }
    true
}

/// The next hops of a route of a family.
pub fn netlink_nexthops(family: Family, nexthops: &Vec<Nexthop>, interfaces: &Interfaces) -> (r: Vec<RouteNextHop>)
    requires
        interfaces.wf(),
        hops_fit(family, nexthops@),
    ensures
        hop_models(r@) == hops_of(family, *nexthops, nexthops@.len(), *interfaces),
    decreases nexthops,
{
    let mut r: Vec<RouteNextHop> = Vec::new();
    let mut i: usize = 0;
    assert(hop_models(r@) =~= Seq::empty());
    while i < nexthops.len()
        invariant
            i <= nexthops@.len(),
            interfaces.wf(),
            hops_fit(family, nexthops@),
            hop_models(r@) == hops_of(family, *nexthops, i as nat, *interfaces),
        decreases nexthops@.len() - i,
    {
        let ghost before = r@;
        assert(hop_fits(family, nexthops@[i as int]));
        match &nexthops[i] {
            Nexthop::Address { addr, ifindex, labels } => {
                let mut builder = builder_via(builder_new(family).interface(*ifindex), *addr);
                let ghost via = via_attribute(family, *addr);
                assert(builder_model(builder).attributes =~= seq![via]);
                assert(label_stack(Seq::empty()) =~= Seq::empty()) by {
                    reveal(Seq::filter);
                }
                // Add MPLS labels if present.
                if labels.len() > 0 {
                    builder = builder_mpls(builder, netlink_label_stack(labels));
                } else {
                    assert(labels@ =~= Seq::empty());
                }
                assert(builder_model(builder).attributes =~= seq![via] + label_attributes(
                    family,
                    label_stack(labels@),
                ));
                // An IPv4 address on an unnumbered interface is directly reachable.
                let ipv4 = match addr {
                    IpAddr::V4(_) => true,
                    IpAddr::V6(_) => false,
                };
                if ipv4 && interfaces.is_unnumbered(*ifindex) {
                    builder = builder.onlink();
                }
                r.push(builder.build());
                assert(hop_models(r@) =~= hop_models(before) + hop_of(family, nexthops@[i as int], *interfaces));
            },
            Nexthop::Interface { ifindex } => {
                r.push(builder_new(family).interface(*ifindex).build());
                assert(hop_models(r@) =~= hop_models(before) + hop_of(family, nexthops@[i as int], *interfaces));
            },
            Nexthop::Recursive { resolved, .. } => {
                let mut hops = netlink_nexthops(family, resolved, interfaces);
                let ghost added = hops@;
                r.append(&mut hops);
                assert(hop_of(family, nexthops@[i as int], *interfaces) == hop_models(added));
                assert(hop_models(r@) =~= hop_models(before) + hop_models(added));
            },
        }
        assert(nexthops@[i as int] == nexthops[i as int]);
        assert(hops_of(family, *nexthops, (i + 1) as nat, *interfaces) == hops_of(
            family,
            *nexthops,
            i as nat,
            *interfaces,
        ) + hop_of(family, nexthops[i as int], *interfaces));
        i += 1;
    }
    r
}

/// The family of an IP route.
pub open spec fn prefix_family(prefix: IpNetwork) -> Family {
    match prefix {
        IpNetwork::V4(_) => Family::Inet,
        IpNetwork::V6(_) => Family::Inet6,
    }
}

/// The request to install an IP route.
pub fn ip_route_install(prefix: &IpNetwork, route: &Route, interfaces: &Interfaces) -> (r: NetlinkRequest)
    requires
        interfaces.wf(),
        prefix_wf(*prefix),
        hops_fit(prefix_family(*prefix), route.nexthops@),
    ensures
        r matches NetlinkRequest::RouteAdd(msg) && message_header(msg) == ip_header(
            prefix.ip_spec(),
            prefix.prefix_spec(),
            protocol_number(route.protocol),
            kind_number(route.kind),
        ) && message_attributes(msg) == seq![
            Attribute::Destination(prefix.ip_spec()),
            Attribute::MultiPath(
                hops_of(prefix_family(*prefix), *route.nexthops, route.nexthops@.len(), *interfaces),
            ),
        ],
{
    let family = match prefix {
        IpNetwork::V4(_) => Family::Inet,
        IpNetwork::V6(_) => Family::Inet6,
    };
    let nexthops = netlink_nexthops(family, &route.nexthops, interfaces);
    let kind: u8 = match route.kind {
        RouteKind::Unicast => RTN_UNICAST,
        RouteKind::Blackhole => RTN_BLACKHOLE,
        RouteKind::Unreachable => RTN_UNREACHABLE,
        RouteKind::Prohibit => RTN_PROHIBIT,
    };
    let protocol: u8 = netlink_protocol(route.protocol);
    NetlinkRequest::RouteAdd(ip_multipath_message(prefix.ip(), prefix.prefix(), protocol, kind, nexthops))
}

/// The request to remove an IP route.
pub fn ip_route_uninstall(prefix: &IpNetwork, protocol: Protocol) -> (r: NetlinkRequest)
    requires
        prefix_wf(*prefix),
    ensures
        r matches NetlinkRequest::RouteDel(msg) && message_header(msg) == ip_header(
            prefix.ip_spec(),
            prefix.prefix_spec(),
            protocol_number(protocol),
            RTN_UNSPEC,
        ) && message_attributes(msg) == seq![Attribute::Destination(prefix.ip_spec())],
{
    let protocol: u8 = netlink_protocol(protocol);
    NetlinkRequest::RouteDel(ip_message(prefix.ip(), prefix.prefix(), protocol, RTN_UNSPEC))
}

/// The entry for the label of an MPLS route.
pub open spec fn local_entry(label: Label) -> LabelEntry {
    LabelEntry { label: label.0, traffic_class: 0, bottom_of_stack: true, ttl: 0 }
}

/// The attributes of an MPLS route. A single next hop stands at the top level,
/// since the kernel does not accept a list for it.
pub open spec fn mpls_attributes(label: Label, hops: Seq<HopModel>) -> Seq<Attribute> {
    if hops.len() == 1 {
        seq![Attribute::LabelDestination(local_entry(label)), Attribute::Oif(hops[0].ifindex)] + hops[0].attributes
    } else {
        seq![Attribute::LabelDestination(local_entry(label)), Attribute::MultiPath(hops)]
    }
}

/// The request to install an MPLS route.
pub fn mpls_route_install(local_label: Label, route: &Route, interfaces: &Interfaces) -> (r: NetlinkRequest)
    requires
        interfaces.wf(),
    ensures
        r matches NetlinkRequest::RouteAdd(msg) && message_header(msg) == mpls_header(protocol_number(route.protocol))
            && message_attributes(msg) == mpls_attributes(
            local_label,
            hops_of(Family::Mpls, *route.nexthops, route.nexthops@.len(), *interfaces),
        ),
{
    let label = LabelEntry { label: local_label.get(), traffic_class: 0, bottom_of_stack: true, ttl: 0 };
    let protocol: u8 = netlink_protocol(route.protocol);
    proof {
        mpls_takes_all(route.nexthops@);
    }
    let mut nexthops = netlink_nexthops(Family::Mpls, &route.nexthops, interfaces);
    let ghost hops = hop_models(nexthops@);
    let msg = if nexthops.len() == 1 {
        let nexthop = nexthops.remove(0);
        assert(hop_model(nexthop) == hops[0]);
        let mut msg = mpls_message(label, protocol);
        push_oif(&mut msg, hop_ifindex(&nexthop));
        extend_attributes(&mut msg, nexthop);
        assert(message_attributes(msg) =~= mpls_attributes(local_label, hops));
        msg
    } else {
        mpls_multipath_message(label, protocol, nexthops)
    };
    NetlinkRequest::RouteAdd(msg)
}

/// The request to remove an MPLS route.
pub fn mpls_route_uninstall(local_label: Label, protocol: Protocol) -> (r: NetlinkRequest)
    ensures
        r matches NetlinkRequest::RouteDel(msg) && message_header(msg) == mpls_header(protocol_number(protocol))
            && message_attributes(msg) == seq![Attribute::LabelDestination(local_entry(local_label))],
{
    let label = LabelEntry { label: local_label.get(), traffic_class: 0, bottom_of_stack: true, ttl: 0 };
    NetlinkRequest::RouteDel(mpls_message(label, netlink_protocol(protocol)))
}

/// An MPLS route can have any next hop.
pub proof fn mpls_takes_all(nexthops: Seq<Nexthop>)
    ensures
        hops_fit(Family::Mpls, nexthops),
{
    assert forall|i: int| 0 <= i < nexthops.len() implies hop_fits(Family::Mpls, #[trigger] nexthops[i]) by {
        mpls_takes(nexthops[i]);
    }
}

proof fn mpls_takes(nexthop: Nexthop)
    ensures
        hop_fits(Family::Mpls, nexthop),
    decreases nexthop,
{
    if let Nexthop::Recursive { resolved, .. } = nexthop {
        assert forall|i: int| 0 <= i < resolved@.len() implies hop_fits(Family::Mpls, #[trigger] resolved@[i]) by {
            mpls_takes(resolved@[i]);
        }
    }
}

/// A label stack never holds implicit null, keeps the order of the other labels,
/// and marks its last entry, and no other, as the bottom.
pub proof fn stack_has_one_bottom(labels: Seq<Label>)
    ensures
        label_stack(labels).len() == sent_labels(labels).len(),
        forall|i: int|
            0 <= i < sent_labels(labels).len() ==> (#[trigger] label_stack(labels)[i]).label == sent_labels(
                labels,
            )[i].0,
        forall|i: int|
            0 <= i < label_stack(labels).len() ==> (#[trigger] label_stack(labels)[i]).label != IMPLICIT_NULL && (
            label_stack(labels)[i].bottom_of_stack <==> i == label_stack(labels).len() - 1),
        forall|l: Label|
            l.0 != IMPLICIT_NULL && labels.contains(l) ==> exists|i: int|
                0 <= i < label_stack(labels).len() && (#[trigger] label_stack(labels)[i]).label == l.0,
{
    let pred = |l: Label| l.0 != IMPLICIT_NULL;
    let sent = sent_labels(labels);
    assert(sent == labels.filter(pred));
    broadcast use vstd::seq_lib::group_filter_ensures;

    assert forall|i: int| 0 <= i < label_stack(labels).len() implies (#[trigger] label_stack(labels)[i]).label
        != IMPLICIT_NULL by {
        assert(pred(sent[i]));
    }
    assert forall|l: Label| l.0 != IMPLICIT_NULL && labels.contains(l) implies exists|i: int|
        0 <= i < label_stack(labels).len() && (#[trigger] label_stack(labels)[i]).label == l.0 by {
        let k = choose|k: int| 0 <= k < labels.len() && labels[k] == l;
        assert(pred(labels[k]));
        assert(sent.contains(labels[k]));
        let i = choose|i: int| 0 <= i < sent.len() && sent[i] == l;
        assert(label_stack(labels)[i].label == l.0);
    }
}

/// Whether an attribute lists next hops.
pub open spec fn lists_hops(a: Attribute) -> bool {
    a is MultiPath
}

/// Whether no next hop lists further ones.
pub open spec fn hops_are_flat(hops: Seq<HopModel>) -> bool {
    forall|i: int, j: int|
        0 <= i < hops.len() && 0 <= j < hops[i].attributes.len() ==> !lists_hops(#[trigger] hops[i].attributes[j])
}

proof fn hop_is_flat(family: Family, nexthop: Nexthop, interfaces: Interfaces)
    ensures
        hops_are_flat(hop_of(family, nexthop, interfaces)),
    decreases nexthop, 0nat,
{
    match nexthop {
        Nexthop::Address { addr, labels, .. } => {
            let all = seq![via_attribute(family, addr)] + label_attributes(family, label_stack(labels@));
            assert(forall|j: int| 0 <= j < all.len() ==> !lists_hops(#[trigger] all[j]));
        },
        Nexthop::Interface { .. } => {},
        Nexthop::Recursive { resolved, .. } => {
            hops_of_are_flat(family, resolved, resolved@.len(), interfaces);
        },
    }
}

/// Next hops that are reached through others are replaced by these, so that none
/// lists further ones.
pub proof fn hops_of_are_flat(family: Family, nexthops: Vec<Nexthop>, n: nat, interfaces: Interfaces)
    ensures
        hops_are_flat(hops_of(family, nexthops, n, interfaces)),
    decreases nexthops, n,
{
    if n > 0 && n <= nexthops@.len() {
        let init = hops_of(family, nexthops, (n - 1) as nat, interfaces);
        let last = hop_of(family, nexthops[n - 1], interfaces);
        hops_of_are_flat(family, nexthops, (n - 1) as nat, interfaces);
        hop_is_flat(family, nexthops[n - 1], interfaces);
        let all = init + last;
        assert forall|i: int, j: int|
            0 <= i < all.len() && 0 <= j < all[i].attributes.len() implies !lists_hops(
            #[trigger] all[i].attributes[j],
        ) by {
            if i < init.len() {
                assert(all[i] == init[i]);
                assert(!lists_hops(init[i].attributes[j]));
            } else {
                assert(all[i] == last[i - init.len()]);
                assert(!lists_hops(last[i - init.len()].attributes[j]));
            }
        }
    }
}

/// An MPLS route with a single next hop never lists next hops: its interface and
/// its attributes stand at the top level. With several next hops all of them are
/// listed.
pub proof fn single_nexthop_is_not_listed(label: Label, nexthops: Vec<Nexthop>, interfaces: Interfaces)
    ensures
        ({
            let hops = hops_of(Family::Mpls, nexthops, nexthops@.len(), interfaces);
            let attributes = mpls_attributes(label, hops);
            if hops.len() == 1 {
                &&& attributes.contains(Attribute::Oif(hops[0].ifindex))
                &&& forall|j: int|
                    0 <= j < hops[0].attributes.len() ==> attributes.contains(#[trigger] hops[0].attributes[j])
                &&& forall|j: int| 0 <= j < attributes.len() ==> !lists_hops(#[trigger] attributes[j])
            } else {
                attributes.contains(Attribute::MultiPath(hops))
            }
        }),
{
    let hops = hops_of(Family::Mpls, nexthops, nexthops@.len(), interfaces);
    let attributes = mpls_attributes(label, hops);
    hops_of_are_flat(Family::Mpls, nexthops, nexthops@.len(), interfaces);
    if hops.len() == 1 {
        assert(attributes[1] == Attribute::Oif(hops[0].ifindex));
        assert forall|j: int| 0 <= j < hops[0].attributes.len() implies attributes.contains(
            #[trigger] hops[0].attributes[j],
        ) by {
            assert(attributes[j + 2] == hops[0].attributes[j]);
        }
        assert forall|j: int| 0 <= j < attributes.len() implies !lists_hops(#[trigger] attributes[j]) by {
            if j >= 2 {
                assert(attributes[j] == hops[0].attributes[j - 2]);
                assert(!lists_hops(hops[0].attributes[j - 2]));
            }
        }
    } else {
        assert(attributes[1] == Attribute::MultiPath(hops));
    }
}

/// The request that removes an IP route names the destination and the protocol of
/// the request that installed it.
pub proof fn removal_names_the_installed(
    installed: RouteMessage,
    removed: RouteMessage,
    prefix: IpNetwork,
    protocol: Protocol,
    kind: RouteKind,
    hops: Seq<HopModel>,
)
    requires
        message_header(installed) == ip_header(
            prefix.ip_spec(),
            prefix.prefix_spec(),
            protocol_number(protocol),
            kind_number(kind),
        ),
        message_attributes(installed) == seq![
            Attribute::Destination(prefix.ip_spec()),
            Attribute::MultiPath(hops),
        ],
        message_header(removed) == ip_header(
            prefix.ip_spec(),
            prefix.prefix_spec(),
            protocol_number(protocol),
            RTN_UNSPEC,
        ),
        message_attributes(removed) == seq![Attribute::Destination(prefix.ip_spec())],
    ensures
        message_header(removed) == (Header { kind: RTN_UNSPEC, ..message_header(installed) }),
        message_attributes(removed)[0] == message_attributes(installed)[0],
{
}

}
