//! Messages that the routing core receives from its clients and from the
//! interface manager.
use crate::ip::AddressFamily;
use crate::ip::IpAddr;
use crate::ip::IpNetwork;
use crate::ip::Ipv4Network;
use crate::ip::Ipv6Network;
use crate::ord::entries_map_get;
use crate::ord::models;
use crate::ord::Key;
use crate::ord::SortedMap;
use crate::ord::SortedSet;
use crate::policy::RouteOpaqueAttrs;
use crate::policy_types::MatchSets;
use crate::policy_types::Policy;
use crate::protocol::Protocol;
use crate::routing::default_instance;
use crate::routing::masked;
use crate::routing::prefix_wf;
use crate::routing::InstanceId;
use crate::routing::Interface;
use crate::routing::Interfaces;
use crate::routing::NetworkInstance;
use crate::routing_master::installs_static;
use crate::routing_master::static_route_install;
use crate::routing_master::static_table;
use crate::routing_master::IbusClient;
use crate::routing_master::InstanceHandle;
use crate::routing_master::Keychain;
use crate::routing_master::Master;
use crate::routing_master::MasterShared;
use crate::routing_master::NhtEntry;
use crate::routing_master::RedistributeKey;
use crate::routing_master::RedistributeSub;
use crate::routing_master::Route;
use crate::southbound::nexthop_models;
use crate::southbound::LabelInstallMsg;
use crate::southbound::LabelUninstallMsg;
use crate::southbound::Nexthop;
use crate::southbound::NexthopModel;
use crate::southbound::RouteKeyMsg;
use crate::southbound::RouteKind;
use crate::southbound::RouteMsg;
use crate::text::same_text;
use std::sync::Arc;
use vstd::prelude::*;
use vstd::string::StringExecFns;

verus! {

/// A message of a client.
pub enum IbusMsg {
    BfdSessionReg,
    BfdSessionUnreg,
    KeychainUpd(Arc<Keychain>),
    KeychainDel(String),
    NexthopTrack { addr: IpAddr },
    NexthopUntrack { addr: IpAddr },
    PolicyMatchSetsUpd(Arc<MatchSets>),
    PolicyUpd(Arc<Policy>),
    PolicyDel(String),
    RouteIpAdd(RouteMsg),
    RouteIpDel(RouteKeyMsg),
    RouteMplsAdd(LabelInstallMsg),
    RouteMplsDel(LabelUninstallMsg),
    RouteBierAdd,
    RouteBierDel,
    BierPurge,
    RouteRedistributeSub { protocol: Protocol, af: Option<AddressFamily> },
    RouteRedistributeUnsub { protocol: Protocol, af: Option<AddressFamily> },
    Other,
}

/// A request to the routing table.
pub enum RibRequest {
    NhtAdd { client: IbusClient, addr: IpAddr },
    NhtDel { client_id: u64, addr: IpAddr },
    IpRouteAdd { msg: RouteMsg, owner: u64 },
    IpRouteDel(RouteKeyMsg),
    MplsRouteAdd { msg: LabelInstallMsg, owner: u64 },
    MplsRouteDel(LabelUninstallMsg),
    BierNbrAdd,
    BierNbrDel,
    BierPurge,
    RemoveAllByOwner(u64),
}

/// What the routing core does about a message.
pub enum Output {
    /// Hand the message on to a channel.
    Relay { channel: u64 },
    /// Hand the message on to a channel with the identity of the client that
    /// sent it.
    RelayFrom { channel: u64, client: IbusClient },
    /// Tell a channel of a route.
    RedistributeAdd { channel: u64, msg: RouteMsg },
    /// Tell a channel that a route is gone.
    RedistributeDel { channel: u64, msg: RouteKeyMsg },
    /// Tell a channel how a next hop is reached.
    NexthopUpd { channel: u64, addr: IpAddr, metric: Option<u32> },
    /// Subscribe to all interfaces and addresses.
    InterfaceSub,
    /// Ask for a route to be added.
    RouteIpAdd(RouteMsg),
    /// Ask for a route to be removed.
    RouteIpDel(RouteKeyMsg),
    Rib(RibRequest),
}

/// The message handed on to all protocol instances.
pub open spec fn relays(m: Master) -> Seq<Output> {
    Seq::new(m.instances.entries@.len(), |i: int| Output::Relay { channel: m.instances.entries@[i].1.channel })
}

/// The identity of the BFD instance.
pub open spec fn bfd_instance() -> (Protocol, Seq<char>, Seq<char>) {
    (Protocol::BFD, "main"@, default_instance())
}

/// The message handed on to the BFD instance.
pub open spec fn bfd_relay(m: Master, client: IbusClient) -> Seq<Output> {
    if m.instances@.contains_key(bfd_instance()) {
        seq![Output::RelayFrom { channel: m.instances@[bfd_instance()].channel, client }]
    } else {
        Seq::empty()
    }
}

/// The position of the first instance that listens to a channel.
pub open spec fn channel_index(entries: Seq<(InstanceId, InstanceHandle)>, channel: u64) -> int
    decreases entries.len(),
{
    if entries.len() == 0 {
        -1
    } else {
        let i = channel_index(entries.drop_last(), channel);
        if i >= 0 {
            i
        } else if entries.last().1.channel == channel {
            entries.len() - 1
        } else {
            -1
        }
    }
}

/// The table of routes that a client sends without one: nothing if it cannot
/// be told yet, or the main table, or that of the network instance that the
/// client runs in.
pub open spec fn client_table(m: Master, channel: u64) -> Option<Option<u32>> {
    let i = channel_index(m.instances.entries@, channel);
    if i < 0 {
        Some(None)
    } else {
        static_table(m, m.instances.entries@[i].0.network_instance@)
    }
}

/// The table of a route: the one that it comes with, or that of the client.
pub open spec fn route_table(m: Master, channel: u64, table_id: Option<u32>) -> Option<Option<u32>> {
    match table_id {
        Some(t) => Some(Some(t)),
        None => client_table(m, channel),
    }
}

proof fn first_channel_stays(entries: Seq<(InstanceId, InstanceHandle)>, n: int, channel: u64)
    requires
        0 <= n <= entries.len(),
        channel_index(entries.take(n), channel) >= 0,
    ensures
        channel_index(entries, channel) == channel_index(entries.take(n), channel),
    decreases entries.len() - n,
{
    if n < entries.len() {
        assert(entries.take(n + 1).drop_last() =~= entries.take(n));
        first_channel_stays(entries, n + 1, channel);
    } else {
        assert(entries.take(n) =~= entries);
    }
}

/// Fills in the table of a route that came without one. Says whether it can be
/// told.
pub fn route_table_id(master: &Master, client: &IbusClient, table_id: &mut Option<u32>) -> (r: bool)
    requires
        master.wf(),
        *old(table_id) is None,
    ensures
        r == (client_table(*master, client.channel) is Some),
        *final(table_id) == match client_table(*master, client.channel) {
            Some(t) => t,
            None => None,
        },
{
    let ghost entries = master.instances.entries@;
    let mut i: usize = 0;
    assert(entries.take(0) =~= Seq::<(InstanceId, InstanceHandle)>::empty());
    while i < master.instances.entries.len()
        invariant
            master.wf(),
            *table_id is None,
            entries == master.instances.entries@,
            i <= entries.len(),
            channel_index(entries.take(i as int), client.channel) < 0,
        decreases entries.len() - i,
    {
        proof {
            assert(entries.take(i + 1).drop_last() =~= entries.take(i as int));
            assert(entries.take(i + 1).last() == entries[i as int]);
        }
        if master.instances.entries[i].1.channel == client.channel {
            proof {
                first_channel_stays(entries, i + 1, client.channel);
            }
            let network_instance = &master.instances.entries[i].0.network_instance;
            if same_text(network_instance.as_str(), "default") {
                return true;
            }
            return match master.network_instances.get(network_instance) {
                Some(ni) => match ni.table_id {
                    Some(resolved) => {
                        *table_id = Some(resolved);
                        true
                    },
                    None => false,
                },
                None => false,
            };
        }
        i += 1;
    }
    assert(entries.take(i as int) =~= entries);
    true
}

/// Whether a message concerns an address family.
pub open spec fn concerns(af: Option<AddressFamily>, f: AddressFamily) -> bool {
    af is None || af == Some(f)
}

/// The protocols of a subscription with another one.
pub open spec fn subscribed(s: Set<RedistributeKey>, protocol: Protocol, af: Option<AddressFamily>) -> Set<
    RedistributeKey,
> {
    let s1 = if concerns(af, AddressFamily::Ipv4) {
        s.insert(RedistributeKey { af: AddressFamily::Ipv4, protocol })
    } else {
        s
    };
    if concerns(af, AddressFamily::Ipv6) {
        s1.insert(RedistributeKey { af: AddressFamily::Ipv6, protocol })
    } else {
        s1
    }
}

/// The protocols of a subscription without one.
pub open spec fn unsubscribed(s: Set<RedistributeKey>, protocol: Protocol, af: Option<AddressFamily>) -> Set<
    RedistributeKey,
> {
    let s1 = if concerns(af, AddressFamily::Ipv4) {
        s.remove(RedistributeKey { af: AddressFamily::Ipv4, protocol })
    } else {
        s
    };
    if concerns(af, AddressFamily::Ipv6) {
        s1.remove(RedistributeKey { af: AddressFamily::Ipv6, protocol })
    } else {
        s1
    }
}

/// `RedistributeSub` as a mathematical value.
pub struct SubModel {
    pub protocols: Set<RedistributeKey>,
    pub channel: u64,
}

impl View for RedistributeSub {
    type V = SubModel;

    open spec fn view(&self) -> SubModel {
        SubModel { protocols: self.protocols@, channel: self.channel }
    }
}

/// The subscriptions after a client subscribed.
pub open spec fn with_sub(
    subs: Map<u64, SubModel>,
    client: IbusClient,
    protocol: Protocol,
    af: Option<AddressFamily>,
) -> Map<u64, SubModel> {
    let sub = if subs.contains_key(client.id) {
        subs[client.id]
    } else {
        SubModel { protocols: Set::empty(), channel: client.channel }
    };
    subs.insert(client.id, SubModel { protocols: subscribed(sub.protocols, protocol, af), ..sub })
}

/// The subscriptions after a client unsubscribed. A client that wants nothing
/// any more is forgotten.
pub open spec fn without_sub(
    subs: Map<u64, SubModel>,
    client: IbusClient,
    protocol: Protocol,
    af: Option<AddressFamily>,
) -> Map<u64, SubModel> {
    if subs.contains_key(client.id) {
        let protocols = unsubscribed(subs[client.id].protocols, protocol, af);
        if protocols == Set::<RedistributeKey>::empty() {
            subs.remove(client.id)
        } else {
            subs.insert(client.id, SubModel { protocols, ..subs[client.id] })
        }
    } else {
        subs
    }
}

/// The first route of a protocol.
pub open spec fn first_of(routes: Seq<Route>, protocol: Protocol) -> Option<Route>
    decreases routes.len(),
{
    if routes.len() == 0 {
        None
    } else if routes[0].protocol == protocol {
        Some(routes[0])
    } else {
        first_of(routes.drop_first(), protocol)
    }
}

/// The message that tells of a route.
pub open spec fn redistribute_msg(prefix: IpNetwork, route: Route) -> RouteMsg {
    RouteMsg {
        protocol: route.protocol,
        kind: route.kind,
        table_id: route.table_id,
        prefix,
        distance: route.distance,
        metric: route.metric,
        tag: route.tag,
        opaque_attrs: route.opaque_attrs,
        nexthops: route.nexthops,
    }
}

/// What a subscriber is told of a route: nothing unless it wants routes of the
/// protocol in the address family.
pub open spec fn add_notice(sub: SubModel, prefix: IpNetwork, route: Route) -> Option<Output> {
    if sub.protocols.contains(RedistributeKey { af: prefix.address_family_spec(), protocol: route.protocol }) {
        Some(Output::RedistributeAdd { channel: sub.channel, msg: redistribute_msg(prefix, route) })
    } else {
        None
    }
}

/// Tells a subscriber of a route.
pub fn notify_redistribute_add(sub: &RedistributeSub, prefix: IpNetwork, route: &Route) -> (r: Option<Output>)
    requires
        sub.protocols.wf(),
    ensures
        r == add_notice(sub@, prefix, *route),
{
    if !sub.protocols.contains(&RedistributeKey { af: prefix.address_family(), protocol: route.protocol }) {
        return None;
    }
    let msg = RouteMsg {
        protocol: route.protocol,
        kind: route.kind,
        table_id: route.table_id,
        prefix,
        distance: route.distance,
        metric: route.metric,
        tag: route.tag,
        opaque_attrs: route.opaque_attrs,
        nexthops: route.nexthops.clone(),
    };
    Some(Output::RedistributeAdd { channel: sub.channel, msg })
}

/// Tells a subscriber that a route is gone.
pub fn notify_redistribute_del(sub: &RedistributeSub, prefix: IpNetwork, protocol: Protocol) -> (r: Option<Output>)
    requires
        sub.protocols.wf(),
    ensures
        r == if sub@.protocols.contains(RedistributeKey { af: prefix.address_family_spec(), protocol }) {
            Some(
                Output::RedistributeDel {
                    channel: sub.channel,
                    msg: RouteKeyMsg { protocol, table_id: None, prefix },
                },
            )
        } else {
            None
        },
{
    if !sub.protocols.contains(&RedistributeKey { af: prefix.address_family(), protocol }) {
        return None;
    }
    Some(Output::RedistributeDel { channel: sub.channel, msg: RouteKeyMsg { protocol, table_id: None, prefix } })
}

/// What the subscribers of a next hop are told.
pub open spec fn nht_notices(addr: IpAddr, nhte: NhtEntry) -> Seq<Output> {
    Seq::new(
        nhte.subscriptions.entries@.len(),
        |i: int| Output::NexthopUpd { channel: nhte.subscriptions.entries@[i].1, addr, metric: nhte.metric },
    )
}

/// Tells the subscribers of a next hop how it is reached.
pub fn notify_nht_update(addr: IpAddr, nhte: &NhtEntry) -> (r: Vec<Output>)
    ensures
        r@ == nht_notices(addr, *nhte),
{
    let mut r: Vec<Output> = Vec::new();
    let ghost all = nht_notices(addr, *nhte);
    let mut i: usize = 0;
    while i < nhte.subscriptions.entries.len()
        invariant
            all == nht_notices(addr, *nhte),
            i <= nhte.subscriptions.entries@.len(),
            r@ == all.take(i as int),
        decreases nhte.subscriptions.entries@.len() - i,
    {
        r.push(Output::NexthopUpd { channel: nhte.subscriptions.entries[i].1, addr, metric: nhte.metric });
        assert(all.take(i + 1) =~= all.take(i as int).push(all[i as int]));
        i += 1;
    }
    assert(all.take(i as int) =~= all);
    r
}

/// What a new subscriber is told of a prefix: its first route of the protocol,
/// if it is active and not about to be removed.
pub open spec fn prefix_notice(sub: SubModel, prefix: IpNetwork, routes: Seq<Route>, protocol: Protocol) -> Option<
    Output,
> {
    match first_of(routes, protocol) {
        Some(route) => if route.active && !route.removed {
            add_notice(sub, prefix, route)
        } else {
            None
        },
        None => None,
    }
}

/// What a new subscriber is told of IPv4 prefixes.
pub open spec fn ipv4_notices(sub: SubModel, entries: Seq<(Ipv4Network, Vec<Route>)>, protocol: Protocol) -> Seq<Output>
    decreases entries.len(),
{
    if entries.len() == 0 {
        Seq::empty()
    } else {
        let rest = ipv4_notices(sub, entries.drop_last(), protocol);
        match prefix_notice(sub, IpNetwork::V4(entries.last().0), entries.last().1@, protocol) {
            Some(o) => rest.push(o),
            None => rest,
        }
    }
}

/// What a new subscriber is told of IPv6 prefixes.
pub open spec fn ipv6_notices(sub: SubModel, entries: Seq<(Ipv6Network, Vec<Route>)>, protocol: Protocol) -> Seq<Output>
    decreases entries.len(),
{
    if entries.len() == 0 {
        Seq::empty()
    } else {
        let rest = ipv6_notices(sub, entries.drop_last(), protocol);
        match prefix_notice(sub, IpNetwork::V6(entries.last().0), entries.last().1@, protocol) {
            Some(o) => rest.push(o),
            None => rest,
        }
    }
}

/// What a new subscriber is told of the routes that are there already.
pub open spec fn sub_notices(m: Master, sub: SubModel, protocol: Protocol, af: Option<AddressFamily>) -> Seq<Output> {
    (if concerns(af, AddressFamily::Ipv4) {
        ipv4_notices(sub, m.rib_ipv4.entries@, protocol)
    } else {
        Seq::empty()
    }) + (if concerns(af, AddressFamily::Ipv6) {
        ipv6_notices(sub, m.rib_ipv6.entries@, protocol)
    } else {
        Seq::empty()
    })
}

/// What the routing core does about a message.
pub open spec fn msg_outputs(m: Master, client: IbusClient, msg: IbusMsg) -> Seq<Output> {
    match msg {
        IbusMsg::BfdSessionReg | IbusMsg::BfdSessionUnreg => bfd_relay(m, client),
        IbusMsg::KeychainUpd(_)
        | IbusMsg::KeychainDel(_)
        | IbusMsg::PolicyMatchSetsUpd(_)
        | IbusMsg::PolicyUpd(_)
        | IbusMsg::PolicyDel(_) => relays(m),
        IbusMsg::NexthopTrack { addr } => seq![Output::Rib(RibRequest::NhtAdd { client, addr })],
        IbusMsg::NexthopUntrack { addr } => seq![Output::Rib(RibRequest::NhtDel { client_id: client.id, addr })],
        IbusMsg::RouteIpAdd(msg) => match route_table(m, client.channel, msg.table_id) {
            Some(table_id) => seq![
                Output::Rib(RibRequest::IpRouteAdd { msg: RouteMsg { table_id, ..msg }, owner: client.id }),
            ],
            None => Seq::empty(),
        },
        IbusMsg::RouteIpDel(msg) => match route_table(m, client.channel, msg.table_id) {
            Some(table_id) => seq![Output::Rib(RibRequest::IpRouteDel(RouteKeyMsg { table_id, ..msg }))],
            None => Seq::empty(),
        },
        IbusMsg::RouteMplsAdd(msg) => seq![Output::Rib(RibRequest::MplsRouteAdd { msg, owner: client.id })],
        IbusMsg::RouteMplsDel(msg) => seq![Output::Rib(RibRequest::MplsRouteDel(msg))],
        IbusMsg::RouteBierAdd => seq![Output::Rib(RibRequest::BierNbrAdd)],
        IbusMsg::RouteBierDel => seq![Output::Rib(RibRequest::BierNbrDel)],
        IbusMsg::BierPurge => seq![Output::Rib(RibRequest::BierPurge)],
        IbusMsg::RouteRedistributeSub { protocol, af } => sub_notices(
            m,
            with_sub(models(m.subscriptions@), client, protocol, af)[client.id],
            protocol,
            af,
        ),
        IbusMsg::RouteRedistributeUnsub { .. } => Seq::empty(),
        IbusMsg::Other => Seq::empty(),
    }
}

/// The keychains after a message.
pub open spec fn keychains_after(m: Map<Seq<char>, Arc<Keychain>>, msg: IbusMsg) -> Map<Seq<char>, Arc<Keychain>> {
    match msg {
        IbusMsg::KeychainUpd(k) => m.insert(k.name@, k),
        IbusMsg::KeychainDel(name) => m.remove(name@),
        _ => m,
    }
}

/// The policies after a message.
pub open spec fn policies_after(m: Map<Seq<char>, Arc<Policy>>, msg: IbusMsg) -> Map<Seq<char>, Arc<Policy>> {
    match msg {
        IbusMsg::PolicyUpd(p) => m.insert(p.name@, p),
        IbusMsg::PolicyDel(name) => m.remove(name@),
        _ => m,
    }
}

/// The defined sets after a message.
pub open spec fn match_sets_after(s: Arc<MatchSets>, msg: IbusMsg) -> Arc<MatchSets> {
    match msg {
        IbusMsg::PolicyMatchSetsUpd(sets) => sets,
        _ => s,
    }
}

/// The subscriptions after a message.
pub open spec fn subs_after(subs: Map<u64, SubModel>, client: IbusClient, msg: IbusMsg) -> Map<u64, SubModel> {
    match msg {
        IbusMsg::RouteRedistributeSub { protocol, af } => with_sub(subs, client, protocol, af),
        IbusMsg::RouteRedistributeUnsub { protocol, af } => without_sub(subs, client, protocol, af),
        _ => subs,
    }
}

fn relay_all(master: &Master) -> (r: Vec<Output>)
    ensures
        r@ == relays(*master),
{
    let mut r: Vec<Output> = Vec::new();
    let ghost all = relays(*master);
    let mut i: usize = 0;
    while i < master.instances.entries.len()
        invariant
            all == relays(*master),
            i <= master.instances.entries@.len(),
            r@ == all.take(i as int),
        decreases master.instances.entries@.len() - i,
    {
        r.push(Output::Relay { channel: master.instances.entries[i].1.channel });
        assert(all.take(i + 1) =~= all.take(i as int).push(all[i as int]));
        i += 1;
    }
    assert(all.take(i as int) =~= all);
    r
}

fn relay_bfd(master: &Master, client: &IbusClient) -> (r: Vec<Output>)
    requires
        master.wf(),
    ensures
        r@ == bfd_relay(*master, *client),
{
    let mut r: Vec<Output> = Vec::new();
    let id = InstanceId::new(Protocol::BFD, String::from_str("main"));
    assert(id@ == bfd_instance());
    if let Some(instance) = master.instances.get(&id) {
        r.push(Output::RelayFrom { channel: instance.channel, client: *client });
    }
    assert(r@ =~= bfd_relay(*master, *client));
    r
}

fn find_first(routes: &Vec<Route>, protocol: Protocol) -> (r: Option<&Route>)
    ensures
        match r {
            Some(route) => first_of(routes@, protocol) == Some(*route),
            None => first_of(routes@, protocol) is None,
        },
{
    let mut i: usize = 0;
    assert(routes@.skip(0) =~= routes@);
    while i < routes.len()
        invariant
            i <= routes@.len(),
            first_of(routes@, protocol) == first_of(routes@.skip(i as int), protocol),
        decreases routes@.len() - i,
    {
        assert(routes@.skip(i as int)[0] == routes@[i as int]);
        assert(routes@.skip(i as int).drop_first() =~= routes@.skip(i + 1));
        if routes[i].protocol == protocol {
            return Some(&routes[i]);
        }
        i += 1;
    }
    None
}

fn notify_prefix(sub: &RedistributeSub, prefix: IpNetwork, routes: &Vec<Route>, protocol: Protocol) -> (r: Option<
    Output,
>)
    requires
        sub.protocols.wf(),
    ensures
        r == prefix_notice(sub@, prefix, routes@, protocol),
{
    match find_first(routes, protocol) {
        Some(route) => if route.active && !route.removed {
            notify_redistribute_add(sub, prefix, route)
        } else {
            None
        },
        None => None,
    }
}

fn notify_ipv4(
    sub: &RedistributeSub,
    rib: &SortedMap<Ipv4Network, Vec<Route>>,
    protocol: Protocol,
    r: &mut Vec<Output>,
)
    requires
        sub.protocols.wf(),
    ensures
        final(r)@ == old(r)@ + ipv4_notices(sub@, rib.entries@, protocol),
{
    let ghost entries = rib.entries@;
    let mut i: usize = 0;
    assert(entries.take(0) =~= Seq::<(Ipv4Network, Vec<Route>)>::empty());
    assert(r@ =~= old(r)@ + ipv4_notices(sub@, entries.take(0), protocol));
    while i < rib.entries.len()
        invariant
            sub.protocols.wf(),
            entries == rib.entries@,
            i <= entries.len(),
            r@ == old(r)@ + ipv4_notices(sub@, entries.take(i as int), protocol),
        decreases entries.len() - i,
    {
        proof {
            assert(entries.take(i + 1).drop_last() =~= entries.take(i as int));
            assert(entries.take(i + 1).last() == entries[i as int]);
        }
        if let Some(o) = notify_prefix(sub, IpNetwork::V4(rib.entries[i].0), &rib.entries[i].1, protocol) {
            r.push(o);
        }
        assert(r@ =~= old(r)@ + ipv4_notices(sub@, entries.take(i + 1), protocol));
        i += 1;
    }
    assert(entries.take(i as int) =~= entries);
}

fn notify_ipv6(
    sub: &RedistributeSub,
    rib: &SortedMap<Ipv6Network, Vec<Route>>,
    protocol: Protocol,
    r: &mut Vec<Output>,
)
    requires
        sub.protocols.wf(),
    ensures
        final(r)@ == old(r)@ + ipv6_notices(sub@, rib.entries@, protocol),
{
    let ghost entries = rib.entries@;
    let mut i: usize = 0;
    assert(entries.take(0) =~= Seq::<(Ipv6Network, Vec<Route>)>::empty());
    assert(r@ =~= old(r)@ + ipv6_notices(sub@, entries.take(0), protocol));
    while i < rib.entries.len()
        invariant
            sub.protocols.wf(),
            entries == rib.entries@,
            i <= entries.len(),
            r@ == old(r)@ + ipv6_notices(sub@, entries.take(i as int), protocol),
        decreases entries.len() - i,
    {
        proof {
            assert(entries.take(i + 1).drop_last() =~= entries.take(i as int));
            assert(entries.take(i + 1).last() == entries[i as int]);
        }
        if let Some(o) = notify_prefix(sub, IpNetwork::V6(rib.entries[i].0), &rib.entries[i].1, protocol) {
            r.push(o);
        }
        assert(r@ =~= old(r)@ + ipv6_notices(sub@, entries.take(i + 1), protocol));
        i += 1;
    }
    assert(entries.take(i as int) =~= entries);
}

/// The state but for the subscriptions.
pub open spec fn same_but_subs(m: Master, n: Master) -> bool {
    n == (Master { subscriptions: n.subscriptions, ..m })
}

fn wants(af: Option<AddressFamily>, f: AddressFamily) -> (r: bool)
    ensures
        r == concerns(af, f),
{
    match af {
        Some(af) => af == f,
        None => true,
    }
}

fn subscribe(master: &mut Master, client: &IbusClient, protocol: Protocol, af: Option<AddressFamily>) -> (r: Vec<
    Output,
>)
    requires
        old(master).wf(),
    ensures
        final(master).wf(),
        same_but_subs(*old(master), *final(master)),
        models(final(master).subscriptions@) == with_sub(
            models(old(master).subscriptions@),
            *client,
            protocol,
            af,
        ),
        r@ == msg_outputs(*old(master), *client, IbusMsg::RouteRedistributeSub { protocol, af }),
{
    let ghost subs = models(master.subscriptions@);
    if !master.subscriptions.contains_key(&client.id) {
        master.subscriptions.insert(
            client.id,
            RedistributeSub { protocols: SortedSet::new(), channel: client.channel },
        );
    }
    let sub = master.subscriptions.get_mut(&client.id).unwrap();
    if wants(af, AddressFamily::Ipv4) {
        sub.protocols.insert(RedistributeKey { af: AddressFamily::Ipv4, protocol });
    }
    if wants(af, AddressFamily::Ipv6) {
        sub.protocols.insert(RedistributeKey { af: AddressFamily::Ipv6, protocol });
    }
    proof {
        assert(models(master.subscriptions@) =~= with_sub(subs, *client, protocol, af));
        assert(master.subscriptions@.contains_key(client.id));
    }
    // Redistribute active routes of the requested protocol type.
    let mut r: Vec<Output> = Vec::new();
    let sub = master.subscriptions.get(&client.id).unwrap();
    if wants(af, AddressFamily::Ipv4) {
        notify_ipv4(sub, &master.rib_ipv4, protocol, &mut r);
    }
    if wants(af, AddressFamily::Ipv6) {
        notify_ipv6(sub, &master.rib_ipv6, protocol, &mut r);
    }
    assert(sub@ == with_sub(subs, *client, protocol, af)[client.id]);
    assert(r@ =~= sub_notices(*master, sub@, protocol, af));
    r
}

fn unsubscribe(master: &mut Master, client: &IbusClient, protocol: Protocol, af: Option<AddressFamily>)
    requires
        old(master).wf(),
    ensures
        final(master).wf(),
        same_but_subs(*old(master), *final(master)),
        models(final(master).subscriptions@) == without_sub(
            models(old(master).subscriptions@),
            *client,
            protocol,
            af,
        ),
{
    let ghost subs = models(master.subscriptions@);
    let mut gone = false;
    if let Some(sub) = master.subscriptions.get_mut(&client.id) {
        if wants(af, AddressFamily::Ipv4) {
            let _ = sub.protocols.remove(&RedistributeKey { af: AddressFamily::Ipv4, protocol });
        }
        if wants(af, AddressFamily::Ipv6) {
            let _ = sub.protocols.remove(&RedistributeKey { af: AddressFamily::Ipv6, protocol });
        }
        gone = sub.protocols.is_empty();
    }
    if gone {
        let _ = master.subscriptions.remove(&client.id);
    }
    assert(models(master.subscriptions@) =~= without_sub(subs, *client, protocol, af));
}

/// Processes a message of a client: brings what is shared up to date, and
/// returns what is to be done.
pub fn process_msg(master: &mut Master, client: IbusClient, msg: IbusMsg) -> (r: Vec<Output>)
    requires
        old(master).wf(),
    ensures
        final(master).wf(),
        r@ == msg_outputs(*old(master), client, msg),
        final(master).shared.keychains@ == keychains_after(old(master).shared.keychains@, msg),
        final(master).shared.policies@ == policies_after(old(master).shared.policies@, msg),
        final(master).shared.policy_match_sets == match_sets_after(old(master).shared.policy_match_sets, msg),
        models(final(master).subscriptions@) == subs_after(models(old(master).subscriptions@), client, msg),
        *final(master) == (Master {
            shared: MasterShared {
                keychains: final(master).shared.keychains,
                policies: final(master).shared.policies,
                policy_match_sets: final(master).shared.policy_match_sets,
                ..old(master).shared
            },
            subscriptions: final(master).subscriptions,
            ..*old(master)
        }),
{
    let mut r: Vec<Output> = Vec::new();
    match msg {
        IbusMsg::BfdSessionReg | IbusMsg::BfdSessionUnreg => {
            r = relay_bfd(master, &client);
        },
        IbusMsg::KeychainUpd(keychain) => {
            r = relay_all(master);
            // Update the local copy of the keychain.
            master.shared.keychains.insert(keychain.name.clone(), keychain);
        },
        IbusMsg::KeychainDel(keychain_name) => {
            r = relay_all(master);
            // Remove the local copy of the keychain.
            let _ = master.shared.keychains.remove(&keychain_name);
        },
        IbusMsg::NexthopTrack { addr } => {
            r.push(Output::Rib(RibRequest::NhtAdd { client, addr }));
        },
        IbusMsg::NexthopUntrack { addr } => {
            r.push(Output::Rib(RibRequest::NhtDel { client_id: client.id, addr }));
        },
        IbusMsg::PolicyMatchSetsUpd(match_sets) => {
            r = relay_all(master);
            // Update the local copy of the policy match sets.
            master.shared.policy_match_sets = match_sets;
        },
        IbusMsg::PolicyUpd(policy) => {
            r = relay_all(master);
            // Update the local copy of the policy definition.
            master.shared.policies.insert(policy.name.clone(), policy);
        },
        IbusMsg::PolicyDel(policy_name) => {
            r = relay_all(master);
            // Remove the local copy of the policy definition.
            let _ = master.shared.policies.remove(&policy_name);
        },
        IbusMsg::RouteIpAdd(msg) => {
            let mut msg = msg;
            if msg.table_id.is_none() && !route_table_id(master, &client, &mut msg.table_id) {
                // Deferred: the table of the VRF is not known yet.
                return r;
            }
            r.push(Output::Rib(RibRequest::IpRouteAdd { msg, owner: client.id }));
        },
        IbusMsg::RouteIpDel(msg) => {
            let mut msg = msg;
            if msg.table_id.is_none() && !route_table_id(master, &client, &mut msg.table_id) {
                // Deferred: the table of the VRF is not known yet.
                return r;
            }
            r.push(Output::Rib(RibRequest::IpRouteDel(msg)));
        },
        IbusMsg::RouteMplsAdd(msg) => {
            r.push(Output::Rib(RibRequest::MplsRouteAdd { msg, owner: client.id }));
        },
        IbusMsg::RouteMplsDel(msg) => {
            r.push(Output::Rib(RibRequest::MplsRouteDel(msg)));
        },
        IbusMsg::RouteBierAdd => {
            r.push(Output::Rib(RibRequest::BierNbrAdd));
        },
        IbusMsg::RouteBierDel => {
            r.push(Output::Rib(RibRequest::BierNbrDel));
        },
        IbusMsg::BierPurge => {
            r.push(Output::Rib(RibRequest::BierPurge));
        },
        IbusMsg::RouteRedistributeSub { protocol, af } => {
            r = subscribe(master, &client, protocol, af);
        },
        IbusMsg::RouteRedistributeUnsub { protocol, af } => {
            unsubscribe(master, &client, protocol, af);
        },
        IbusMsg::Other => {},
    }
    assert(r@ =~= msg_outputs(*old(master), client, msg));
    r
}

/// `NhtEntry` as a mathematical value.
pub struct NhtModel {
    pub metric: Option<u32>,
    pub subscriptions: Map<u64, u64>,
}

impl View for NhtEntry {
    type V = NhtModel;

    open spec fn view(&self) -> NhtModel {
        NhtModel { metric: self.metric, subscriptions: self.subscriptions@ }
    }
}

/// The tracked next hops without a client.
pub open spec fn without_client(nht: Map<IpAddr, NhtModel>, id: u64) -> Map<IpAddr, NhtModel> {
    Map::new(
        |a: IpAddr| nht.contains_key(a),
        |a: IpAddr| NhtModel { subscriptions: nht[a].subscriptions.remove(id), ..nht[a] },
    )
}

/// Cleans up after a client that disconnected.
pub fn disconnect(master: &mut Master, id: u64) -> (r: Output)
    requires
        old(master).wf(),
    ensures
        final(master).wf(),
        r == Output::Rib(RibRequest::RemoveAllByOwner(id)),
        final(master).subscriptions@ == old(master).subscriptions@.remove(id),
        models(final(master).nht@) == without_client(models(old(master).nht@), id),
        *final(master) == (Master {
            subscriptions: final(master).subscriptions,
            nht: final(master).nht,
            ..*old(master)
        }),
{
    let _ = master.subscriptions.remove(&id);
    let ghost nht0 = master.nht.entries@;
    let mut i: usize = 0;
    while i < master.nht.entries.len()
        invariant
            old(master).wf(),
            nht0 == old(master).nht.entries@,
            *master == (Master { subscriptions: master.subscriptions, nht: master.nht, ..*old(master) }),
            master.subscriptions.wf(),
            master.subscriptions@ == old(master).subscriptions@.remove(id),
            master.nht.entries@.len() == nht0.len(),
            i <= nht0.len(),
            forall|j: int| 0 <= j < nht0.len() ==> (#[trigger] master.nht.entries@[j]).0 == nht0[j].0,
            forall|j: int|
                0 <= j < i ==> (#[trigger] master.nht.entries@[j]).1.metric == nht0[j].1.metric
                    && master.nht.entries@[j].1.subscriptions.wf() && master.nht.entries@[j].1.subscriptions@
                    == nht0[j].1.subscriptions@.remove(id),
            forall|j: int| i <= j < nht0.len() ==> (#[trigger] master.nht.entries@[j]).1 == nht0[j].1,
        decreases nht0.len() - i,
    {
        proof {
            entries_map_get(nht0, i as int);
            assert(old(master).nht@.contains_key(nht0[i as int].0@));
            assert(master.nht.entries@[i as int].1 == nht0[i as int].1);
        }
        let ghost before = master.nht.entries@;
        let _ = master.nht.entries[i].1.subscriptions.remove(&id);
        proof {
            assert forall|j: int| 0 <= j < nht0.len() implies (#[trigger] master.nht.entries@[j]).0 == nht0[j].0 by {
                assert(before[j].0 == nht0[j].0);
            }
            assert forall|j: int| i < j < nht0.len() implies (#[trigger] master.nht.entries@[j]).1 == nht0[j].1 by {
                assert(before[j].1 == nht0[j].1);
            }
            assert forall|j: int| 0 <= j < i + 1 implies (#[trigger] master.nht.entries@[j]).1.metric
                == nht0[j].1.metric && master.nht.entries@[j].1.subscriptions.wf()
                && master.nht.entries@[j].1.subscriptions@ == nht0[j].1.subscriptions@.remove(id) by {
                if j < i {
                    assert(before[j].1.metric == nht0[j].1.metric);
                }
            }
        }
        i += 1;
    }
    proof {
        let e = master.nht.entries@;
        assert forall|a: int, b: int| 0 <= a < b < e.len() implies IpAddr::before(
            (#[trigger] e[a]).0@,
            (#[trigger] e[b]).0@,
        ) by {
            assert(IpAddr::before(nht0[a].0@, nht0[b].0@));
        }
        assert(master.nht.wf());
        assert forall|a: IpAddr| #[trigger] master.nht@.contains_key(a) implies old(master).nht@.contains_key(a)
            && master.nht@[a].subscriptions.wf() && master.nht@[a]@ == (NhtModel {
            subscriptions: old(master).nht@[a].subscriptions@.remove(id),
            ..old(master).nht@[a]@
        }) by {
            let j = choose|j: int| 0 <= j < e.len() && (#[trigger] e[j]).0@ == a;
            entries_map_get(e, j);
            entries_map_get(nht0, j);
        }
        assert forall|a: IpAddr| #[trigger] old(master).nht@.contains_key(a) implies master.nht@.contains_key(a) by {
            let j = choose|j: int| 0 <= j < nht0.len() && (#[trigger] nht0[j]).0@ == a;
            entries_map_get(e, j);
        }
        assert(models(master.nht@) =~= without_client(models(old(master).nht@), id));
    }
    Output::Rib(RibRequest::RemoveAllByOwner(id))
}

/// Asks for information on all interfaces and addresses.
pub fn request_addresses() -> (r: Output)
    ensures
        r == Output::InterfaceSub,
{
    Output::InterfaceSub
}

/// A message of the interface manager.
pub enum InterfaceMsg {
    InterfaceUpd { ifname: String, ifindex: u32, operative: bool, vrf_table_id: Option<u32> },
    InterfaceDel(String),
    InterfaceAddressAdd { ifname: String, addr: IpNetwork, unnumbered: bool },
    InterfaceAddressDel { ifname: String, addr: IpNetwork, unnumbered: bool },
    Other,
}

/// Whether the interfaces are as before but for one that was updated.
pub open spec fn interface_updated(
    before: Interfaces,
    after: Interfaces,
    ifname: Seq<char>,
    ifindex: u32,
    operative: bool,
    vrf_table_id: Option<u32>,
) -> bool {
    &&& after.by_name@.contains_key(ifname)
    &&& after.by_name@ == before.by_name@.insert(ifname, after.by_name@[ifname])
    &&& after.by_name@[ifname].ifindex == ifindex
    &&& after.by_name@[ifname].operative == operative
    &&& after.by_name@[ifname].vrf_table_id == vrf_table_id
    &&& after.by_name@[ifname].addresses@ == if before.by_name@.contains_key(ifname) {
        before.by_name@[ifname].addresses@
    } else {
        Map::<IpNetwork, bool>::empty()
    }
}

/// The network instances after a VRF device was learned: the one with the name
/// of the device gets its table.
pub open spec fn vrf_learned(
    nis: Map<Seq<char>, NetworkInstance>,
    ifname: Seq<char>,
    vrf_table_id: Option<u32>,
) -> Map<Seq<char>, NetworkInstance> {
    if vrf_table_id is Some && nis.contains_key(ifname) {
        nis.insert(ifname, NetworkInstance { table_id: vrf_table_id, ..nis[ifname] })
    } else {
        nis
    }
}

/// The static routes of a network instance.
pub open spec fn routes_within(
    keys: Seq<((Protocol, Seq<char>, Seq<char>), IpNetwork)>,
    network_instance: Seq<char>,
) -> Seq<((Protocol, Seq<char>, Seq<char>), IpNetwork)>
    decreases keys.len(),
{
    if keys.len() == 0 {
        Seq::empty()
    } else {
        let rest = routes_within(keys.drop_last(), network_instance);
        if keys.last().0.2 == network_instance {
            rest.push(keys.last())
        } else {
            rest
        }
    }
}

/// Whether the outputs install static routes, in order.
pub open spec fn install_all(
    outputs: Seq<Output>,
    m: Master,
    keys: Seq<((Protocol, Seq<char>, Seq<char>), IpNetwork)>,
) -> bool {
    outputs.len() == keys.len() && forall|i: int|
        0 <= i < keys.len() ==> (#[trigger] outputs[i] matches Output::RouteIpAdd(msg) && installs_static(
            msg,
            m,
            keys[i],
        ))
}

/// Whether the interfaces are as before but for the addresses of one.
pub open spec fn addresses_changed(
    before: Interfaces,
    after: Interfaces,
    ifname: Seq<char>,
    addresses: Map<IpNetwork, bool>,
) -> bool {
    &&& after.by_name@.contains_key(ifname)
    &&& after.by_name@ == before.by_name@.insert(ifname, after.by_name@[ifname])
    &&& after.by_name@[ifname] == (Interface {
        addresses: after.by_name@[ifname].addresses,
        ..before.by_name@[ifname]
    })
    &&& after.by_name@[ifname].addresses@ == addresses
}

/// Whether a message adds the route of an address to the interface with it.
pub open spec fn installs_connected(msg: RouteMsg, addr: IpNetwork, ifindex: u32) -> bool {
    &&& msg.protocol == Protocol::DIRECT
    &&& msg.kind == RouteKind::Unicast
    &&& msg.table_id is None
    &&& msg.prefix == masked(addr)
    &&& msg.distance == 0
    &&& msg.metric == 0
    &&& msg.tag is None
    &&& msg.opaque_attrs == RouteOpaqueAttrs::Empty
    &&& nexthop_models(msg.nexthops@) == seq![NexthopModel::Interface { ifindex }]
}

/// The message that removes the route of an address.
pub open spec fn connected_key(addr: IpNetwork) -> RouteKeyMsg {
    RouteKeyMsg { protocol: Protocol::DIRECT, table_id: None, prefix: masked(addr) }
}

fn install_routes_within(master: &Master, network_instance: &String) -> (r: Vec<Output>)
    requires
        master.wf(),
        static_table(*master, network_instance@) is Some,
    ensures
        install_all(r@, *master, routes_within(master.static_routes.keys(), network_instance@)),
{
    let mut r: Vec<Output> = Vec::new();
    let ghost keys = master.static_routes.keys();
    let ghost entries = master.static_routes.entries@;
    let mut i: usize = 0;
    assert(keys.take(0) =~= Seq::<((Protocol, Seq<char>, Seq<char>), IpNetwork)>::empty());
    while i < master.static_routes.entries.len()
        invariant
            master.wf(),
            static_table(*master, network_instance@) is Some,
            keys == master.static_routes.keys(),
            entries == master.static_routes.entries@,
            i <= entries.len(),
            install_all(r@, *master, routes_within(keys.take(i as int), network_instance@)),
        decreases entries.len() - i,
    {
        proof {
            entries_map_get(entries, i as int);
            assert(keys.take(i + 1).drop_last() =~= keys.take(i as int));
            assert(keys.take(i + 1).last() == entries[i as int].0@);
        }
        let key = &master.static_routes.entries[i].0;
        if key.instance_id.network_instance.same(network_instance) {
            let msg = static_route_install(master, key).unwrap();
            r.push(Output::RouteIpAdd(msg));
        }
        i += 1;
    }
    assert(keys.take(i as int) =~= keys);
    r
}

/// Processes a message of the interface manager, and returns what is to be
/// done. A VRF device gives its table to the network instance with its name,
/// whose static routes can be installed then. Addresses have connected routes.
pub fn process_notification_msg(master: &mut Master, msg: InterfaceMsg) -> (r: Vec<Output>)
    requires
        old(master).wf(),
        msg matches InterfaceMsg::InterfaceAddressAdd { addr, .. } ==> prefix_wf(addr),
        msg matches InterfaceMsg::InterfaceAddressDel { addr, .. } ==> prefix_wf(addr),
    ensures
        final(master).wf(),
        *final(master) == (Master {
            interfaces: final(master).interfaces,
            network_instances: final(master).network_instances,
            ..*old(master)
        }),
        match msg {
            InterfaceMsg::InterfaceUpd { ifname, ifindex, operative, vrf_table_id } => {
                &&& interface_updated(
                    old(master).interfaces,
                    final(master).interfaces,
                    ifname@,
                    ifindex,
                    operative,
                    vrf_table_id,
                )
                &&& final(master).network_instances@ == vrf_learned(
                    old(master).network_instances@,
                    ifname@,
                    vrf_table_id,
                )
                &&& if vrf_table_id is Some && old(master).network_instances@.contains_key(ifname@) {
                    install_all(r@, *final(master), routes_within(old(master).static_routes.keys(), ifname@))
                } else {
                    r@.len() == 0
                }
            },
            InterfaceMsg::InterfaceDel(ifname) => {
                &&& final(master).interfaces.by_name@ == old(master).interfaces.by_name@.remove(ifname@)
                &&& final(master).network_instances == old(master).network_instances
                &&& r@.len() == 0
            },
            InterfaceMsg::InterfaceAddressAdd { ifname, addr, unnumbered } => {
                &&& final(master).network_instances == old(master).network_instances
                &&& if old(master).interfaces.by_name@.contains_key(ifname@) {
                    let iface = old(master).interfaces.by_name@[ifname@];
                    &&& addresses_changed(
                        old(master).interfaces,
                        final(master).interfaces,
                        ifname@,
                        iface.addresses@.insert(addr, unnumbered),
                    )
                    &&& if unnumbered {
                        r@.len() == 0
                    } else {
                        r@.len() == 1 && (r@[0] matches Output::RouteIpAdd(m) && installs_connected(
                            m,
                            addr,
                            iface.ifindex,
                        ))
                    }
                } else {
                    final(master).interfaces == old(master).interfaces && r@.len() == 0
                }
            },
            InterfaceMsg::InterfaceAddressDel { ifname, addr, unnumbered } => {
                &&& final(master).network_instances == old(master).network_instances
                &&& if old(master).interfaces.by_name@.contains_key(ifname@) {
                    let iface = old(master).interfaces.by_name@[ifname@];
                    &&& addresses_changed(
                        old(master).interfaces,
                        final(master).interfaces,
                        ifname@,
                        iface.addresses@.remove(addr),
                    )
                    &&& r@ == if unnumbered {
                        Seq::<Output>::empty()
                    } else {
                        seq![Output::RouteIpDel(connected_key(addr))]
                    }
                } else {
                    final(master).interfaces == old(master).interfaces && r@.len() == 0
                }
            },
            InterfaceMsg::Other => *final(master) == *old(master) && r@.len() == 0,
        },
{
    let mut r: Vec<Output> = Vec::new();
    match msg {
        InterfaceMsg::InterfaceUpd { ifname, ifindex, operative, vrf_table_id } => {
            master.interfaces.update(ifname.clone(), ifindex, operative, vrf_table_id);
            // The table of a VRF device is that of the network instance with
            // the name of the device.
            if let Some(table_id) = vrf_table_id {
                let mut resolved = false;
                if let Some(ni) = master.network_instances.get_mut(&ifname) {
                    ni.table_id = Some(table_id);
                    resolved = true;
                }
                if resolved {
                    assert(static_table(*master, ifname@) is Some);
                    r = install_routes_within(master, &ifname);
                }
            }
        },
        InterfaceMsg::InterfaceDel(ifname) => {
            let _ = master.interfaces.by_name.remove(&ifname);
        },
        InterfaceMsg::InterfaceAddressAdd { ifname, addr, unnumbered } => {
            let iface = match master.interfaces.by_name.get_mut(&ifname) {
                Some(iface) => iface,
                None => {
                    return r;
                },
            };
            // Add address to interface.
            iface.addresses.insert(addr, unnumbered);
            let ifindex: u32 = iface.ifindex;
            // Add connected route to the RIB.
            if !unnumbered {
                let nexthops: Vec<Nexthop> = vec![Nexthop::Interface { ifindex }];
                assert(nexthop_models(nexthops@) =~= seq![NexthopModel::Interface { ifindex }]);
                r.push(
                    Output::RouteIpAdd(
                        RouteMsg {
                            protocol: Protocol::DIRECT,
                            kind: RouteKind::Unicast,
                            table_id: None,
                            prefix: addr.apply_mask(),
                            distance: 0,
                            metric: 0,
                            tag: None,
                            opaque_attrs: RouteOpaqueAttrs::Empty,
                            nexthops: Arc::new(nexthops),
                        },
                    ),
                );
            }
        },
        InterfaceMsg::InterfaceAddressDel { ifname, addr, unnumbered } => {
            let iface = match master.interfaces.by_name.get_mut(&ifname) {
                Some(iface) => iface,
                None => {
                    return r;
                },
            };
            // Remove address from interface.
            let _ = iface.addresses.remove(&addr);
            // Remove connected route from the RIB.
            if !unnumbered {
                r.push(
                    Output::RouteIpDel(
                        RouteKeyMsg { protocol: Protocol::DIRECT, table_id: None, prefix: addr.apply_mask() },
                    ),
                );
            }
            assert(r@ =~= if unnumbered {
                Seq::<Output>::empty()
            } else {
                seq![Output::RouteIpDel(connected_key(addr))]
            });
        },
        InterfaceMsg::Other => {},
    }
    r
}

/// Subscribing and unsubscribing again leaves the subscriptions of a client
/// that had none as they were.
pub proof fn unsubscribing_undoes_subscribing(
    subs: Map<u64, SubModel>,
    client: IbusClient,
    protocol: Protocol,
    af: Option<AddressFamily>,
)
    requires
        !subs.contains_key(client.id),
    ensures
        without_sub(with_sub(subs, client, protocol, af), client, protocol, af) == subs,
{
    let u = with_sub(subs, client, protocol, af);
    assert(unsubscribed(u[client.id].protocols, protocol, af) =~= Set::<RedistributeKey>::empty());
    assert(without_sub(u, client, protocol, af) =~= subs);
}

/// A subscription concerns its client alone.
pub proof fn subscriptions_are_separate(
    subs: Map<u64, SubModel>,
    client: IbusClient,
    protocol: Protocol,
    af: Option<AddressFamily>,
    other: u64,
)
    requires
        other != client.id,
    ensures
        with_sub(subs, client, protocol, af).contains_key(other) == subs.contains_key(other),
        without_sub(subs, client, protocol, af).contains_key(other) == subs.contains_key(other),
        subs.contains_key(other) ==> with_sub(subs, client, protocol, af)[other] == subs[other] && without_sub(
            subs,
            client,
            protocol,
            af,
        )[other] == subs[other],
{
}

/// A new subscriber is told of active routes of the protocol only.
pub proof fn notices_are_of_active_routes(sub: SubModel, prefix: IpNetwork, routes: Seq<Route>, protocol: Protocol)
    ensures
        prefix_notice(sub, prefix, routes, protocol) matches Some(o) ==> (first_of(routes, protocol) matches Some(
            route,
        ) && route.protocol == protocol && route.active && !route.removed && o == (Output::RedistributeAdd {
            channel: sub.channel,
            msg: redistribute_msg(prefix, route),
        })),
{
    first_has_protocol(routes, protocol);
}

proof fn first_has_protocol(routes: Seq<Route>, protocol: Protocol)
    ensures
        first_of(routes, protocol) matches Some(route) ==> route.protocol == protocol && routes.contains(route),
    decreases routes.len(),
{
    if routes.len() > 0 {
        if routes[0].protocol != protocol {
            first_has_protocol(routes.drop_first(), protocol);
            if let Some(route) = first_of(routes.drop_first(), protocol) {
                let i = choose|i: int| 0 <= i < routes.drop_first().len() && routes.drop_first()[i] == route;
                assert(routes[i + 1] == route);
            }
        } else {
            assert(routes.contains(routes[0]));
        }
    }
}

/// A network instance has the table of its VRF device, whether it is created
/// after the device is learned or before.
pub proof fn vrf_table_is_learned_either_way(
    before: Interfaces,
    after: Interfaces,
    nis: Map<Seq<char>, NetworkInstance>,
    name: Seq<char>,
    ifindex: u32,
    operative: bool,
    table_id: u32,
)
    requires
        interface_updated(before, after, name, ifindex, operative, Some(table_id)),
        nis.contains_key(name),
    ensures
        after.vrf_table_spec(name) == Some(table_id),
        vrf_learned(nis, name, Some(table_id))[name].table_id == Some(table_id),
{
}

}
