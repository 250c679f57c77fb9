//! What holds of the routing core's bus: subscriptions and notices, requests of
//! clients, interfaces and static routes.
use crate::bgp::RouteTarget;
use crate::ip::AddressFamily;
use crate::ip::IpAddr;
use crate::ip::IpNetwork;
use crate::ip::Ipv4Network;
use crate::ip::Ipv6Network;
use crate::ord::entries_map_get;
use crate::ord::finite_sets_have_order;
use crate::ord::in_order;
use crate::ord::keys_are_domain;
use crate::ord::models;
use crate::ord::Key;
use crate::ord::Ranked;
use crate::policy::RouteOpaqueAttrs;
use crate::protocol::Protocol;
use crate::routing::InstanceId;
use crate::routing::masked;
use crate::routing::prefix_wf;
use crate::routing::NetworkInstance;
use crate::routing::NexthopSpecial;
use crate::routing::StaticRoute;
use crate::routing::StaticRouteKey;
use crate::routing::StaticRouteNexthop;
use crate::routing_ibus::channel_index;
use crate::routing_ibus::concerns;
use crate::routing_ibus::disconnect;
use crate::routing_ibus::first_of;
use crate::routing_ibus::install_all;
use crate::routing_ibus::ipv4_notices;
use crate::routing_ibus::ipv6_notices;
use crate::routing_ibus::notify_nht_update;
use crate::routing_ibus::notify_redistribute_add;
use crate::routing_ibus::notify_redistribute_del;
use crate::routing_ibus::process_msg;
use crate::routing_ibus::process_notification_msg;
use crate::routing_ibus::route_table_id;
use crate::routing_ibus::routes_within;
use crate::routing_ibus::subscribed;
use crate::routing_ibus::unsubscribed;
use crate::routing_ibus::IbusMsg;
use crate::routing_ibus::InterfaceMsg;
use crate::routing_ibus::Output;
use crate::routing_ibus::RibRequest;
use crate::routing_ibus::SubModel;
use crate::routing_master::instance_start;
use crate::routing_master::instance_started;
use crate::routing_master::network_instance_create;
use crate::routing_master::static_nexthop;
use crate::routing_master::static_nexthop_models;
use crate::routing_master::static_nexthops;
use crate::routing_master::static_route_install;
use crate::routing_master::static_route_table_id;
use crate::routing_master::vpn_imports_update;
use crate::routing_master::IbusClient;
use crate::routing_master::InstanceHandle;
use crate::routing_master::Master;
use crate::routing_master::NhtEntry;
use crate::routing_master::RedistributeKey;
use crate::routing_master::RedistributeSub;
use crate::routing_master::Route;
use crate::routing_master::StaticNexthop;
use crate::southbound::nexthop_models;
use crate::southbound::Nexthop;
use crate::southbound::RouteKeyMsg;
use crate::southbound::RouteKind;
use crate::southbound::RouteMsg;
use vstd::arithmetic::div_mod::lemma_fundamental_div_mod;
use vstd::arithmetic::div_mod::lemma_mod_bound;
use vstd::arithmetic::div_mod::lemma_mod_multiples_basic;
use vstd::arithmetic::power2::lemma_pow2_pos;
use vstd::arithmetic::power2::pow2;
use vstd::prelude::*;

verus! {

/// Whether a message tells of a route: it has the prefix, and each of its fields
/// is that field of the route.
pub open spec fn tells_of(msg: RouteMsg, prefix: IpNetwork, route: Route) -> bool {
    &&& msg.prefix == prefix
    &&& msg.protocol == route.protocol
    &&& msg.kind == route.kind
    &&& msg.table_id == route.table_id
    &&& msg.distance == route.distance
    &&& msg.metric == route.metric
    &&& msg.tag == route.tag
    &&& msg.opaque_attrs == route.opaque_attrs
    &&& msg.nexthops == route.nexthops
}

/// The address family of a prefix.
pub open spec fn family_of_prefix(prefix: IpNetwork) -> AddressFamily {
    match prefix {
        IpNetwork::V4(_) => AddressFamily::Ipv4,
        IpNetwork::V6(_) => AddressFamily::Ipv6,
    }
}

/// A subscriber is told of a route exactly if it subscribed to routes of the
/// protocol in the address family of the prefix; it is told over its channel, and
/// every field of the message is that of the route.
pub proof fn notices_carry_the_route(sub: &RedistributeSub, prefix: IpNetwork, route: &Route, r: Option<Output>)
    requires
        call_ensures(notify_redistribute_add, (sub, prefix, route), r),
    ensures
        r is Some <==> sub.protocols@.contains(
            RedistributeKey { af: family_of_prefix(prefix), protocol: route.protocol },
        ),
        r matches Some(o) ==> (o matches Output::RedistributeAdd { channel, msg } && channel == sub.channel
            && tells_of(msg, prefix, *route)),
{
}

/// A subscriber is told that a route is gone under the same conditions as of the
/// route itself, with its protocol and its prefix.
pub proof fn removal_notices_name_the_route(
    sub: &RedistributeSub,
    prefix: IpNetwork,
    protocol: Protocol,
    r: Option<Output>,
)
    requires
        call_ensures(notify_redistribute_del, (sub, prefix, protocol), r),
    ensures
        r is Some <==> sub.protocols@.contains(RedistributeKey { af: family_of_prefix(prefix), protocol }),
        r matches Some(o) ==> (o matches Output::RedistributeDel { channel, msg } && channel == sub.channel
            && msg.protocol == protocol && msg.prefix == prefix && msg.table_id is None),
{
}

/// Every subscriber of a next hop is told its address and its metric, each once.
pub proof fn nexthop_notices_reach_all(addr: IpAddr, nhte: &NhtEntry, r: Vec<Output>, i: int)
    requires
        call_ensures(notify_nht_update, (addr, nhte), r),
        0 <= i < nhte.subscriptions.entries@.len(),
    ensures
        r@.len() == nhte.subscriptions.entries@.len(),
        r@[i] matches Output::NexthopUpd { channel, addr: a, metric } && channel == nhte.subscriptions.entries@[i].1
            && a == addr && metric == nhte.metric,
{
}

proof fn first_is_first(routes: Seq<Route>, protocol: Protocol, i: int)
    requires
        0 <= i < routes.len(),
        routes[i].protocol == protocol,
        forall|j: int| 0 <= j < i ==> (#[trigger] routes[j]).protocol != protocol,
    ensures
        first_of(routes, protocol) == Some(routes[i]),
    decreases routes.len(),
{
    if i > 0 {
        assert(routes[0].protocol != protocol);
        let rest = routes.drop_first();
        assert(rest[i - 1] == routes[i]);
        assert forall|j: int| 0 <= j < i - 1 implies (#[trigger] rest[j]).protocol != protocol by {
            assert(rest[j] == routes[j + 1]);
        }
        first_is_first(rest, protocol, i - 1);
    }
}

proof fn none_is_first(routes: Seq<Route>, protocol: Protocol)
    ensures
        first_of(routes, protocol) is Some ==> exists|i: int|
            0 <= i < routes.len() && #[trigger] routes[i] == first_of(routes, protocol)->0 && routes[i].protocol
                == protocol,
    decreases routes.len(),
{
    if routes.len() > 0 && routes[0].protocol != protocol {
        let rest = routes.drop_first();
        none_is_first(rest, protocol);
        if first_of(rest, protocol) is Some {
            let i = choose|i: int|
                0 <= i < rest.len() && #[trigger] rest[i] == first_of(rest, protocol)->0 && rest[i].protocol
                    == protocol;
            assert(routes[i + 1] == rest[i]);
        }
    }
}

/// Whether an output tells a channel of a route of a prefix.
pub open spec fn told(outputs: Seq<Output>, channel: u64, prefix: IpNetwork, route: Route) -> bool {
    exists|k: int|
        0 <= k < outputs.len() && (#[trigger] outputs[k] matches Output::RedistributeAdd { channel: c, msg } && c
            == channel && tells_of(msg, prefix, route))
}

proof fn told_after(a: Seq<Output>, b: Seq<Output>, channel: u64, prefix: IpNetwork, route: Route)
    ensures
        told(a, channel, prefix, route) || told(b, channel, prefix, route) ==> told(a + b, channel, prefix, route),
{
    let all = a + b;
    if told(a, channel, prefix, route) {
        let k = choose|k: int|
            0 <= k < a.len() && (#[trigger] a[k] matches Output::RedistributeAdd { channel: c, msg } && c == channel
                && tells_of(msg, prefix, route));
        assert(all[k] == a[k]);
    }
    if told(b, channel, prefix, route) {
        let k = choose|k: int|
            0 <= k < b.len() && (#[trigger] b[k] matches Output::RedistributeAdd { channel: c, msg } && c == channel
                && tells_of(msg, prefix, route));
        assert(all[a.len() + k] == b[k]);
    }
}

proof fn ipv4_told(sub: SubModel, entries: Seq<(Ipv4Network, Vec<Route>)>, protocol: Protocol, n: int)
    requires
        0 <= n < entries.len(),
        sub.protocols.contains(RedistributeKey { af: AddressFamily::Ipv4, protocol }),
    ensures
        first_of(entries[n].1@, protocol) matches Some(route) ==> route.active && !route.removed ==> told(
            ipv4_notices(sub, entries, protocol),
            sub.channel,
            IpNetwork::V4(entries[n].0),
            route,
        ),
    decreases entries.len(),
{
    let init = entries.drop_last();
    let rest = ipv4_notices(sub, init, protocol);
    let all = ipv4_notices(sub, entries, protocol);
    if n < init.len() {
        ipv4_told(sub, init, protocol, n);
        assert(init[n] == entries[n]);
        if let Some(route) = first_of(entries[n].1@, protocol) {
            if route.active && !route.removed {
                told_after(
                    rest,
                    all.skip(rest.len() as int),
                    sub.channel,
                    IpNetwork::V4(entries[n].0),
                    route,
                );
                assert(rest + all.skip(rest.len() as int) =~= all);
            }
        }
    } else if let Some(route) = first_of(entries[n].1@, protocol) {
        none_is_first(entries[n].1@, protocol);
        if route.active && !route.removed {
            assert(all[rest.len() as int] matches Output::RedistributeAdd { channel: c, msg } && c == sub.channel
                && tells_of(msg, IpNetwork::V4(entries[n].0), route));
        }
    }
}

proof fn ipv6_told(sub: SubModel, entries: Seq<(Ipv6Network, Vec<Route>)>, protocol: Protocol, n: int)
    requires
        0 <= n < entries.len(),
        sub.protocols.contains(RedistributeKey { af: AddressFamily::Ipv6, protocol }),
    ensures
        first_of(entries[n].1@, protocol) matches Some(route) ==> route.active && !route.removed ==> told(
            ipv6_notices(sub, entries, protocol),
            sub.channel,
            IpNetwork::V6(entries[n].0),
            route,
        ),
    decreases entries.len(),
{
    let init = entries.drop_last();
    let rest = ipv6_notices(sub, init, protocol);
    let all = ipv6_notices(sub, entries, protocol);
    if n < init.len() {
        ipv6_told(sub, init, protocol, n);
        assert(init[n] == entries[n]);
        if let Some(route) = first_of(entries[n].1@, protocol) {
            if route.active && !route.removed {
                told_after(
                    rest,
                    all.skip(rest.len() as int),
                    sub.channel,
                    IpNetwork::V6(entries[n].0),
                    route,
                );
                assert(rest + all.skip(rest.len() as int) =~= all);
            }
        }
    } else if let Some(route) = first_of(entries[n].1@, protocol) {
        none_is_first(entries[n].1@, protocol);
        if route.active && !route.removed {
            assert(all[rest.len() as int] matches Output::RedistributeAdd { channel: c, msg } && c == sub.channel
                && tells_of(msg, IpNetwork::V6(entries[n].0), route));
        }
    }
}

/// The channel over which a client is told of routes: the one of its
/// subscription, if it has one already.
pub open spec fn sub_channel(m: Master, client: IbusClient) -> u64 {
    if m.subscriptions@.contains_key(client.id) {
        m.subscriptions@[client.id].channel
    } else {
        client.channel
    }
}

proof fn only_family(af: Option<AddressFamily>, f: AddressFamily)
    requires
        af matches Some(x) ==> x == f,
    ensures
        concerns(af, f),
{
}

/// A client that subscribes to IPv4 routes of a protocol is told at once of each
/// prefix whose first route of that protocol is active and stays.
pub proof fn subscribers_learn_ipv4_routes(
    master: &mut Master,
    client: IbusClient,
    protocol: Protocol,
    af: Option<AddressFamily>,
    r: Vec<Output>,
    n: int,
    i: int,
)
    requires
        call_ensures(process_msg, (master, client, IbusMsg::RouteRedistributeSub { protocol, af }), r),
        af is None || af == Some(AddressFamily::Ipv4),
        0 <= n < old(master).rib_ipv4.entries@.len(),
        0 <= i < old(master).rib_ipv4.entries@[n].1@.len(),
        old(master).rib_ipv4.entries@[n].1@[i].protocol == protocol,
        forall|j: int|
            0 <= j < i ==> (#[trigger] old(master).rib_ipv4.entries@[n].1@[j]).protocol != protocol,
        old(master).rib_ipv4.entries@[n].1@[i].active,
        !old(master).rib_ipv4.entries@[n].1@[i].removed,
    ensures
        told(
            r@,
            sub_channel(*old(master), client),
            IpNetwork::V4(old(master).rib_ipv4.entries@[n].0),
            old(master).rib_ipv4.entries@[n].1@[i],
        ),
{
    let m = *old(master);
    let entries = m.rib_ipv4.entries@;
    let sub = crate::routing_ibus::with_sub(models(m.subscriptions@), client, protocol, af)[client.id];
    first_is_first(entries[n].1@, protocol, i);
    only_family(af, AddressFamily::Ipv4);
    ipv4_told(sub, entries, protocol, n);
    let a = ipv4_notices(sub, entries, protocol);
    let b = if concerns(af, AddressFamily::Ipv6) {
        ipv6_notices(sub, m.rib_ipv6.entries@, protocol)
    } else {
        Seq::empty()
    };
    told_after(a, b, sub.channel, IpNetwork::V4(entries[n].0), entries[n].1@[i]);
    assert(r@ == a + b);
}

/// The same of IPv6 routes.
pub proof fn subscribers_learn_ipv6_routes(
    master: &mut Master,
    client: IbusClient,
    protocol: Protocol,
    af: Option<AddressFamily>,
    r: Vec<Output>,
    n: int,
    i: int,
)
    requires
        call_ensures(process_msg, (master, client, IbusMsg::RouteRedistributeSub { protocol, af }), r),
        af is None || af == Some(AddressFamily::Ipv6),
        0 <= n < old(master).rib_ipv6.entries@.len(),
        0 <= i < old(master).rib_ipv6.entries@[n].1@.len(),
        old(master).rib_ipv6.entries@[n].1@[i].protocol == protocol,
        forall|j: int|
            0 <= j < i ==> (#[trigger] old(master).rib_ipv6.entries@[n].1@[j]).protocol != protocol,
        old(master).rib_ipv6.entries@[n].1@[i].active,
        !old(master).rib_ipv6.entries@[n].1@[i].removed,
    ensures
        told(
            r@,
            sub_channel(*old(master), client),
            IpNetwork::V6(old(master).rib_ipv6.entries@[n].0),
            old(master).rib_ipv6.entries@[n].1@[i],
        ),
{
    let m = *old(master);
    let entries = m.rib_ipv6.entries@;
    let sub = crate::routing_ibus::with_sub(models(m.subscriptions@), client, protocol, af)[client.id];
    first_is_first(entries[n].1@, protocol, i);
    only_family(af, AddressFamily::Ipv6);
    ipv6_told(sub, entries, protocol, n);
    let a = if concerns(af, AddressFamily::Ipv4) {
        ipv4_notices(sub, m.rib_ipv4.entries@, protocol)
    } else {
        Seq::empty()
    };
    let b = ipv6_notices(sub, entries, protocol);
    told_after(a, b, sub.channel, IpNetwork::V6(entries[n].0), entries[n].1@[i]);
    assert(r@ == a + b);
}

/// Whether an output tells of the first route that a prefix has of a protocol,
/// an active one.
pub open spec fn is_told_rightly(o: Output, m: Master, channel: u64, protocol: Protocol) -> bool {
    o matches Output::RedistributeAdd { channel: c, msg } && c == channel && ((exists|n: int, i: int|
        0 <= n < m.rib_ipv4.entries@.len() && 0 <= i < m.rib_ipv4.entries@[n].1@.len() && (
        #[trigger] m.rib_ipv4.entries@[n].1@[i]).protocol == protocol && m.rib_ipv4.entries@[n].1@[i].active
            && !m.rib_ipv4.entries@[n].1@[i].removed && tells_of(
            msg,
            IpNetwork::V4(m.rib_ipv4.entries@[n].0),
            m.rib_ipv4.entries@[n].1@[i],
        )) || (exists|n: int, i: int|
        0 <= n < m.rib_ipv6.entries@.len() && 0 <= i < m.rib_ipv6.entries@[n].1@.len() && (
        #[trigger] m.rib_ipv6.entries@[n].1@[i]).protocol == protocol && m.rib_ipv6.entries@[n].1@[i].active
            && !m.rib_ipv6.entries@[n].1@[i].removed && tells_of(
            msg,
            IpNetwork::V6(m.rib_ipv6.entries@[n].0),
            m.rib_ipv6.entries@[n].1@[i],
        )))
}

proof fn ipv4_right(m: Master, sub: SubModel, len: int, protocol: Protocol, k: int)
    requires
        0 <= len <= m.rib_ipv4.entries@.len(),
        0 <= k < ipv4_notices(sub, m.rib_ipv4.entries@.take(len), protocol).len(),
    ensures
        is_told_rightly(
            ipv4_notices(sub, m.rib_ipv4.entries@.take(len), protocol)[k],
            m,
            sub.channel,
            protocol,
        ),
    decreases len,
{
    let entries = m.rib_ipv4.entries@.take(len);
    if len > 0 {
        let init = entries.drop_last();
        assert(init =~= m.rib_ipv4.entries@.take(len - 1));
        let rest = ipv4_notices(sub, init, protocol);
        if k < rest.len() {
            ipv4_right(m, sub, len - 1, protocol, k);
        } else {
            let routes = entries.last().1@;
            assert(entries.last() == m.rib_ipv4.entries@[len - 1]);
            none_is_first(routes, protocol);
            let i = choose|i: int|
                0 <= i < routes.len() && #[trigger] routes[i] == first_of(routes, protocol)->0 && routes[i].protocol
                    == protocol;
            assert(m.rib_ipv4.entries@[len - 1].1@[i] == routes[i]);
        }
    }
}

proof fn ipv6_right(m: Master, sub: SubModel, len: int, protocol: Protocol, k: int)
    requires
        0 <= len <= m.rib_ipv6.entries@.len(),
        0 <= k < ipv6_notices(sub, m.rib_ipv6.entries@.take(len), protocol).len(),
    ensures
        is_told_rightly(
            ipv6_notices(sub, m.rib_ipv6.entries@.take(len), protocol)[k],
            m,
            sub.channel,
            protocol,
        ),
    decreases len,
{
    let entries = m.rib_ipv6.entries@.take(len);
    if len > 0 {
        let init = entries.drop_last();
        assert(init =~= m.rib_ipv6.entries@.take(len - 1));
        let rest = ipv6_notices(sub, init, protocol);
        if k < rest.len() {
            ipv6_right(m, sub, len - 1, protocol, k);
        } else {
            let routes = entries.last().1@;
            assert(entries.last() == m.rib_ipv6.entries@[len - 1]);
            none_is_first(routes, protocol);
            let i = choose|i: int|
                0 <= i < routes.len() && #[trigger] routes[i] == first_of(routes, protocol)->0 && routes[i].protocol
                    == protocol;
            assert(m.rib_ipv6.entries@[len - 1].1@[i] == routes[i]);
        }
    }
}

/// A new subscriber is told of nothing but active routes of the protocol that it
/// subscribed to.
pub proof fn subscribers_learn_nothing_else(
    master: &mut Master,
    client: IbusClient,
    protocol: Protocol,
    af: Option<AddressFamily>,
    r: Vec<Output>,
    k: int,
)
    requires
        call_ensures(process_msg, (master, client, IbusMsg::RouteRedistributeSub { protocol, af }), r),
        0 <= k < r@.len(),
    ensures
        is_told_rightly(r@[k], *old(master), sub_channel(*old(master), client), protocol),
{
    let m = *old(master);
    let sub = crate::routing_ibus::with_sub(models(m.subscriptions@), client, protocol, af)[client.id];
    let n4 = m.rib_ipv4.entries@.len() as int;
    let n6 = m.rib_ipv6.entries@.len() as int;
    assert(m.rib_ipv4.entries@.take(n4) =~= m.rib_ipv4.entries@);
    assert(m.rib_ipv6.entries@.take(n6) =~= m.rib_ipv6.entries@);
    let a = if concerns(af, AddressFamily::Ipv4) {
        ipv4_notices(sub, m.rib_ipv4.entries@, protocol)
    } else {
        Seq::empty()
    };
    let b = if concerns(af, AddressFamily::Ipv6) {
        ipv6_notices(sub, m.rib_ipv6.entries@, protocol)
    } else {
        Seq::empty()
    };
    assert(r@ == a + b);
    if k < a.len() {
        assert(r@[k] == a[k]);
        ipv4_right(m, sub, n4, protocol, k);
    } else {
        assert(r@[k] == b[k - a.len()]);
        ipv6_right(m, sub, n6, protocol, k - a.len());
    }
}

/// Whether a client is subscribed to routes.
pub open spec fn is_subscribed(m: Master, id: u64, key: RedistributeKey) -> bool {
    m.subscriptions@.contains_key(id) && m.subscriptions@[id].protocols@.contains(key)
}

/// What a message does to subscriptions: subscribing adds the protocol in the
/// address families that are named, or in both, unsubscribing takes it away, and
/// the subscriptions of other clients and to other routes stay as they were.
pub proof fn subscriptions_follow_messages(
    master: &mut Master,
    client: IbusClient,
    msg: IbusMsg,
    r: Vec<Output>,
    id: u64,
    key: RedistributeKey,
)
    requires
        call_ensures(process_msg, (master, client, msg), r),
    ensures
        is_subscribed(*final(master), id, key) <==> match msg {
            IbusMsg::RouteRedistributeSub { protocol, af } => is_subscribed(*old(master), id, key) || (id == client.id
                && key.protocol == protocol && (af is None || af == Some(key.af))),
            IbusMsg::RouteRedistributeUnsub { protocol, af } => is_subscribed(*old(master), id, key) && !(id
                == client.id && key.protocol == protocol && (af is None || af == Some(key.af))),
            _ => is_subscribed(*old(master), id, key),
        },
        msg is RouteRedistributeSub ==> final(master).subscriptions@.contains_key(client.id) && final(master).subscriptions@[client.id].channel == sub_channel(*old(master), client),
        msg is RouteRedistributeUnsub && !old(master).subscriptions@.contains_key(client.id) ==> !final(master).subscriptions@.contains_key(client.id),
        msg is RouteRedistributeUnsub ==> r@.len() == 0,
        id != client.id && final(master).subscriptions@.contains_key(id) ==> old(master).subscriptions@.contains_key(id) && final(master).subscriptions@[id].channel == old(master).subscriptions@[id].channel,
{
    let before = models(old(master).subscriptions@);
    let after = models(final(master).subscriptions@);
    assert(before.contains_key(id) == old(master).subscriptions@.contains_key(id));
    assert(after.contains_key(id) == final(master).subscriptions@.contains_key(id));
    assert(before.contains_key(client.id) == old(master).subscriptions@.contains_key(client.id));
    assert(after.contains_key(client.id) == final(master).subscriptions@.contains_key(client.id));
    if before.contains_key(id) {
        assert(before[id].protocols == old(master).subscriptions@[id].protocols@);
        assert(before[id].channel == old(master).subscriptions@[id].channel);
    }
    if after.contains_key(id) {
        assert(after[id].protocols == final(master).subscriptions@[id].protocols@);
        assert(after[id].channel == final(master).subscriptions@[id].channel);
    }
    if after.contains_key(client.id) {
        assert(after[client.id].channel == final(master).subscriptions@[client.id].channel);
    }
    if before.contains_key(client.id) {
        assert(before[client.id].channel == old(master).subscriptions@[client.id].channel);
    }
    match msg {
        IbusMsg::RouteRedistributeUnsub { protocol, af } => {
            if before.contains_key(client.id) {
                let p = before[client.id].protocols;
                let q = unsubscribed(p, protocol, af);
                families(key.af);
                assert(q.contains(key) <==> p.contains(key) && !(key.protocol == protocol && (af is None || af == Some(
                    key.af,
                ))));
            }
        },
        IbusMsg::RouteRedistributeSub { protocol, af } => {
            let p = if before.contains_key(client.id) {
                before[client.id].protocols
            } else {
                Set::empty()
            };
            families(key.af);
            assert(subscribed(p, protocol, af).contains(key) <==> p.contains(key) || (key.protocol == protocol && (af
                is None || af == Some(key.af))));
        },
        _ => {},
    }
}

proof fn families(af: AddressFamily)
    ensures
        af == AddressFamily::Ipv4 || af == AddressFamily::Ipv6,
{
}

/// Updates of keychains and policies are kept for later instances and handed on
/// to all that are running; a deletion is handed on the same way.
pub proof fn shared_updates_are_kept_and_relayed(
    master: &mut Master,
    client: IbusClient,
    msg: IbusMsg,
    r: Vec<Output>,
    i: int,
    name: Seq<char>,
)
    requires
        call_ensures(process_msg, (master, client, msg), r),
    ensures
        msg is KeychainUpd || msg is KeychainDel || msg is PolicyMatchSetsUpd || msg is PolicyUpd || msg is PolicyDel
            ==> r@.len() == old(master).instances.entries@.len() && (0 <= i < r@.len() ==> (
        r@[i] matches Output::Relay { channel } && channel == old(master).instances.entries@[i].1.channel)),
        msg matches IbusMsg::KeychainUpd(k) ==> final(master).shared.keychains@.contains_key(k.name@) && final(master).shared.keychains@[k.name@] == k,
        msg matches IbusMsg::KeychainDel(k) ==> !final(master).shared.keychains@.contains_key(k@),
        msg matches IbusMsg::PolicyUpd(p) ==> final(master).shared.policies@.contains_key(p.name@) && final(master).shared.policies@[p.name@] == p,
        msg matches IbusMsg::PolicyDel(p) ==> !final(master).shared.policies@.contains_key(p@),
        msg matches IbusMsg::PolicyMatchSetsUpd(sets) ==> final(master).shared.policy_match_sets == sets,
        !(msg is PolicyMatchSetsUpd) ==> final(master).shared.policy_match_sets == old(master).shared.policy_match_sets,
        !(msg matches IbusMsg::KeychainUpd(k) && k.name@ == name) && !(msg matches IbusMsg::KeychainDel(k) && k@
            == name) ==> final(master).shared.keychains@.contains_key(name) == old(master).shared.keychains@.contains_key(name) && final(master).shared.keychains@[name] == old(master).shared.keychains@[name],
        !(msg matches IbusMsg::PolicyUpd(p) && p.name@ == name) && !(msg matches IbusMsg::PolicyDel(p) && p@ == name)
            ==> final(master).shared.policies@.contains_key(name) == old(master).shared.policies@.contains_key(name)
            && final(master).shared.policies@[name] == old(master).shared.policies@[name],
        final(master).instances == old(master).instances,
        final(master).static_routes == old(master).static_routes,
        final(master).interfaces == old(master).interfaces,
        final(master).network_instances == old(master).network_instances,
        final(master).nht == old(master).nht,
        final(master).rib_ipv4 == old(master).rib_ipv4,
        final(master).rib_ipv6 == old(master).rib_ipv6,
        final(master).instance_ni == old(master).instance_ni,
        final(master).shared.vpn_imports == old(master).shared.vpn_imports,
{
}

/// BFD sessions are handed to the BFD instance with the identity of the client,
/// if that instance is running.
pub proof fn bfd_messages_go_to_bfd(
    master: &mut Master,
    client: IbusClient,
    msg: IbusMsg,
    r: Vec<Output>,
)
    requires
        call_ensures(process_msg, (master, client, msg), r),
        msg is BfdSessionReg || msg is BfdSessionUnreg,
    ensures
        ({
            let id = (Protocol::BFD, "main"@, "default"@);
            &&& old(master).instances@.contains_key(id) ==> r@.len() == 1 && (r@[0]
                matches Output::RelayFrom { channel, client: c } && channel == old(master).instances@[id].channel && c
                == client)
            &&& !old(master).instances@.contains_key(id) ==> r@.len() == 0
        }),
        *final(master) == (Master { shared: final(master).shared, subscriptions: final(master).subscriptions, ..*old(master) }),
{
}

proof fn first_listener(entries: Seq<(InstanceId, InstanceHandle)>, channel: u64, i: int)
    requires
        0 <= i < entries.len(),
        entries[i].1.channel == channel,
        forall|j: int| 0 <= j < i ==> (#[trigger] entries[j]).1.channel != channel,
    ensures
        channel_index(entries, channel) == i,
    decreases entries.len(),
{
    let init = entries.drop_last();
    if i < init.len() {
        assert(init[i] == entries[i]);
        assert forall|j: int| 0 <= j < i implies (#[trigger] init[j]).1.channel != channel by {
            assert(init[j] == entries[j]);
        }
        first_listener(init, channel, i);
    } else {
        assert forall|j: int| 0 <= j < init.len() implies (#[trigger] init[j]).1.channel != channel by {
            assert(init[j] == entries[j]);
        }
        no_listener(init, channel);
    }
}

proof fn no_listener(entries: Seq<(InstanceId, InstanceHandle)>, channel: u64)
    requires
        forall|j: int| 0 <= j < entries.len() ==> (#[trigger] entries[j]).1.channel != channel,
    ensures
        channel_index(entries, channel) < 0,
    decreases entries.len(),
{
    if entries.len() > 0 {
        let init = entries.drop_last();
        assert forall|j: int| 0 <= j < init.len() implies (#[trigger] init[j]).1.channel != channel by {
            assert(init[j] == entries[j]);
        }
        no_listener(init, channel);
        assert(entries[entries.len() - 1].1.channel != channel);
    }
}

/// The table of a network instance: the main one for the default instance,
/// otherwise that of its VRF device, if it is known.
pub open spec fn table_is(m: Master, network_instance: Seq<char>, table: Option<Option<u32>>) -> bool {
    &&& network_instance == "default"@ ==> table == Some(None::<u32>)
    &&& network_instance != "default"@ && !m.network_instances@.contains_key(network_instance) ==> table is None
    &&& network_instance != "default"@ && m.network_instances@.contains_key(network_instance)
        ==> match m.network_instances@[network_instance].table_id {
        Some(t) => table == Some(Some(t)),
        None => table is None,
    }
}

/// A route of a client that names no table goes to that of the network instance
/// in which the client runs. It is put off while that table is not known. The
/// client is the first instance that listens to its channel.
pub proof fn routes_go_to_the_table_of_their_instance(
    master: &mut Master,
    client: IbusClient,
    msg: RouteMsg,
    key: RouteKeyMsg,
    r: Vec<Output>,
    i: int,
)
    requires
        call_ensures(process_msg, (master, client, IbusMsg::RouteIpAdd(msg)), r),
        msg.table_id is None,
        0 <= i < old(master).instances.entries@.len(),
        old(master).instances.entries@[i].1.channel == client.channel,
        forall|j: int| 0 <= j < i ==> (#[trigger] old(master).instances.entries@[j]).1.channel != client.channel,
    ensures
        exists|table: Option<Option<u32>>|
            #![trigger table_is(*old(master), old(master).instances.entries@[i].0.network_instance@, table)]
            table_is(*old(master), old(master).instances.entries@[i].0.network_instance@, table) && match table {
                Some(t) => r@.len() == 1 && (r@[0] matches Output::Rib(RibRequest::IpRouteAdd { msg: m, owner })
                    && owner == client.id && m.table_id == t && m == (RouteMsg { table_id: t, ..msg })),
                None => r@.len() == 0,
            },
{
    first_listener(old(master).instances.entries@, client.channel, i);
    let ni = old(master).instances.entries@[i].0.network_instance@;
    let table = crate::routing_master::static_table(*old(master), ni);
    assert(table_is(*old(master), ni, table));
}

/// The same of routes that are removed.
pub proof fn removals_go_to_the_table_of_their_instance(
    master: &mut Master,
    client: IbusClient,
    key: RouteKeyMsg,
    r: Vec<Output>,
    i: int,
)
    requires
        call_ensures(process_msg, (master, client, IbusMsg::RouteIpDel(key)), r),
        key.table_id is None,
        0 <= i < old(master).instances.entries@.len(),
        old(master).instances.entries@[i].1.channel == client.channel,
        forall|j: int| 0 <= j < i ==> (#[trigger] old(master).instances.entries@[j]).1.channel != client.channel,
    ensures
        exists|table: Option<Option<u32>>|
            #![trigger table_is(*old(master), old(master).instances.entries@[i].0.network_instance@, table)]
            table_is(*old(master), old(master).instances.entries@[i].0.network_instance@, table) && match table {
                Some(t) => r@.len() == 1 && (r@[0] matches Output::Rib(RibRequest::IpRouteDel(k)) && k.table_id == t
                    && k.prefix == key.prefix && k.protocol == key.protocol),
                None => r@.len() == 0,
            },
{
    first_listener(old(master).instances.entries@, client.channel, i);
    let ni = old(master).instances.entries@[i].0.network_instance@;
    let table = crate::routing_master::static_table(*old(master), ni);
    assert(table_is(*old(master), ni, table));
}

/// Requests of clients reach the routing table as they were made, with the
/// identity of the client where it owns what it asks for: routes that name a
/// table, those of clients that are no instances, labels, and next hops.
pub proof fn requests_reach_the_table(master: &mut Master, client: IbusClient, msg: IbusMsg, r: Vec<Output>)
    requires
        call_ensures(process_msg, (master, client, msg), r),
    ensures
        msg matches IbusMsg::RouteIpAdd(m) ==> m.table_id is Some ==> r@.len() == 1 && r@[0] == Output::Rib(
            RibRequest::IpRouteAdd { msg: m, owner: client.id },
        ),
        msg matches IbusMsg::RouteIpDel(k) ==> k.table_id is Some ==> r@.len() == 1 && r@[0] == Output::Rib(
            RibRequest::IpRouteDel(k),
        ),
        (forall|j: int|
            0 <= j < old(master).instances.entries@.len() ==> (#[trigger] old(master).instances.entries@[j]).1.channel != client.channel) ==> {
            &&& msg matches IbusMsg::RouteIpAdd(m) ==> m.table_id is None ==> r@.len() == 1 && r@[0] == Output::Rib(
                RibRequest::IpRouteAdd { msg: m, owner: client.id },
            )
            &&& msg matches IbusMsg::RouteIpDel(k) ==> k.table_id is None ==> r@.len() == 1 && r@[0] == Output::Rib(
                RibRequest::IpRouteDel(k),
            )
        },
        msg matches IbusMsg::RouteMplsAdd(m) ==> r@.len() == 1 && r@[0] == Output::Rib(
            RibRequest::MplsRouteAdd { msg: m, owner: client.id },
        ),
        msg matches IbusMsg::RouteMplsDel(m) ==> r@.len() == 1 && r@[0] == Output::Rib(RibRequest::MplsRouteDel(m)),
        msg matches IbusMsg::NexthopTrack { addr } ==> r@.len() == 1 && r@[0] == Output::Rib(
            RibRequest::NhtAdd { client, addr },
        ),
        msg matches IbusMsg::NexthopUntrack { addr } ==> r@.len() == 1 && r@[0] == Output::Rib(
            RibRequest::NhtDel { client_id: client.id, addr },
        ),
        msg is RouteBierAdd ==> r@.len() == 1 && r@[0] == Output::Rib(RibRequest::BierNbrAdd),
        msg is RouteBierDel ==> r@.len() == 1 && r@[0] == Output::Rib(RibRequest::BierNbrDel),
        msg is BierPurge ==> r@.len() == 1 && r@[0] == Output::Rib(RibRequest::BierPurge),
        msg is Other ==> r@.len() == 0,
{
    if forall|j: int|
        0 <= j < old(master).instances.entries@.len() ==> (#[trigger] old(master).instances.entries@[j]).1.channel
            != client.channel {
        no_listener(old(master).instances.entries@, client.channel);
        if let IbusMsg::RouteIpAdd(m) = msg {
            if m.table_id is None {
                assert(m == (RouteMsg { table_id: None, ..m }));
            }
        }
    }
}

/// Of a client that is gone no subscription is left, neither to routes nor to
/// next hops, and its routes are removed. Others keep theirs.
pub proof fn nothing_is_left_of_a_client(master: &mut Master, id: u64, r: Output, other: u64, addr: IpAddr)
    requires
        call_ensures(disconnect, (master, id), r),
    ensures
        r == Output::Rib(RibRequest::RemoveAllByOwner(id)),
        !final(master).subscriptions@.contains_key(id),
        other != id ==> final(master).subscriptions@.contains_key(other) == old(master).subscriptions@.contains_key(other) && final(master).subscriptions@[other] == old(master).subscriptions@[other],
        final(master).nht@.contains_key(addr) == old(master).nht@.contains_key(addr),
        final(master).nht@.contains_key(addr) ==> {
            &&& !final(master).nht@[addr].subscriptions@.contains_key(id)
            &&& final(master).nht@[addr].metric == old(master).nht@[addr].metric
            &&& other != id ==> final(master).nht@[addr].subscriptions@.contains_key(other) == old(master).nht@[addr].subscriptions@.contains_key(other) && final(master).nht@[addr].subscriptions@[other] == old(master).nht@[addr].subscriptions@[other]
        },
        final(master).instances == old(master).instances,
        final(master).shared == old(master).shared,
{
    let before = models(old(master).nht@);
    let after = models(final(master).nht@);
    assert(after.contains_key(addr) == final(master).nht@.contains_key(addr));
    assert(before.contains_key(addr) == old(master).nht@.contains_key(addr));
    if after.contains_key(addr) {
        assert(after[addr].subscriptions == final(master).nht@[addr].subscriptions@);
        assert(after[addr].metric == final(master).nht@[addr].metric);
        assert(before[addr].subscriptions == old(master).nht@[addr].subscriptions@);
    }
}

/// The kind of route that a special next hop makes.
pub open spec fn kind_is(special: Option<NexthopSpecial>, kind: RouteKind) -> bool {
    &&& kind == RouteKind::Unicast <==> special is None
    &&& kind == RouteKind::Blackhole <==> special == Some(NexthopSpecial::Blackhole)
    &&& kind == RouteKind::Unreachable <==> special == Some(NexthopSpecial::Unreachable)
    &&& kind == RouteKind::Prohibit <==> special == Some(NexthopSpecial::Prohibit)
}

/// Whether a next hop is configured for a static route, on an interface that is
/// known.
pub open spec fn is_configured(m: Master, route: StaticRoute, hop: Nexthop) -> bool {
    stands_for(m, route.nexthop_single, hop) || exists|k: Seq<char>| #[trigger]
        route.nexthop_list@.contains_key(k) && stands_for(m, route.nexthop_list@[k], hop)
}

/// Whether a next hop is what a configured one stands for.
pub open spec fn stands_for(m: Master, n: StaticRouteNexthop, hop: Nexthop) -> bool {
    n.ifname matches Some(ifname) && m.interfaces.by_name@.contains_key(ifname@) && match hop {
        Nexthop::Address { ifindex, addr, labels } => n.addr == Some(addr) && ifindex
            == m.interfaces.by_name@[ifname@].ifindex && labels@.len() == 0,
        Nexthop::Interface { ifindex } => n.addr is None && ifindex == m.interfaces.by_name@[ifname@].ifindex,
        Nexthop::Recursive { .. } => false,
    }
}

proof fn static_hops(m: Master, route: StaticRoute, hops: Seq<Nexthop>, n: StaticRouteNexthop)
    requires
        nexthop_models(hops) == static_nexthop_models(static_nexthops(m.interfaces, route)),
        static_nexthops(m.interfaces, route).finite(),
    ensures
        forall|i: int| 0 <= i < hops.len() ==> is_configured(m, route, #[trigger] hops[i]),
        (n == route.nexthop_single || exists|k: Seq<char>| #[trigger]
            route.nexthop_list@.contains_key(k) && route.nexthop_list@[k] == n) && (n.ifname matches Some(ifname)
            && m.interfaces.by_name@.contains_key(ifname@)) ==> exists|i: int|
            0 <= i < hops.len() && stands_for(m, n, #[trigger] hops[i]),
        forall|i: int, j: int| 0 <= i < j < hops.len() ==> (#[trigger] hops[i]).model() != (#[trigger] hops[j]).model(),
{
    let set = static_nexthops(m.interfaces, route);
    let listed = in_order::<StaticNexthop>(set);
    finite_sets_have_order::<StaticNexthop>(set);
    let all = nexthop_models(hops);
    assert(all.len() == hops.len());
    assert forall|i: int| 0 <= i < hops.len() implies is_configured(m, route, #[trigger] hops[i]) by {
        assert(all[i] == hops[i].model());
        assert(listed.contains(listed[i]));
        assert(set.contains(listed[i]));
        hop_stands(m, route.nexthop_single, listed[i], hops[i]);
        if static_nexthop(m.interfaces, route.nexthop_single) != Some(listed[i]) {
            let k = choose|k: Seq<char>| #[trigger]
                route.nexthop_list@.contains_key(k) && static_nexthop(m.interfaces, route.nexthop_list@[k]) == Some(
                    listed[i],
                );
            hop_stands(m, route.nexthop_list@[k], listed[i], hops[i]);
        }
    }
    if (n == route.nexthop_single || exists|k: Seq<char>| #[trigger]
        route.nexthop_list@.contains_key(k) && route.nexthop_list@[k] == n) && (n.ifname is Some
        && m.interfaces.by_name@.contains_key(n.ifname->0@)) {
        let x = static_nexthop(m.interfaces, n)->0;
        assert(set.contains(x));
        assert(listed.contains(x));
        let i = choose|i: int| 0 <= i < listed.len() && listed[i] == x;
        assert(all[i] == hops[i].model());
        hop_stands(m, n, x, hops[i]);
        assert(stands_for(m, n, hops[i]));
    }
    assert forall|i: int, j: int| 0 <= i < j < hops.len() implies (#[trigger] hops[i]).model() != (
    #[trigger] hops[j]).model() by {
        assert(StaticNexthop::before(listed[i], listed[j]));
        assert(all[i] == hops[i].model() && all[j] == hops[j].model());
    }
}

proof fn hop_stands(m: Master, n: StaticRouteNexthop, x: StaticNexthop, hop: Nexthop)
    requires
        hop.model() == crate::routing_master::static_nexthop_model(x),
    ensures
        static_nexthop(m.interfaces, n) == Some(x) ==> stands_for(m, n, hop),
{
}

/// A static route is installed exactly if it is configured and its table is
/// known: with that table, its prefix, the kind that a special next hop makes,
/// and each configured next hop whose interface is known, once.
pub proof fn static_routes_are_installed(
    master: &Master,
    key: &StaticRouteKey,
    r: Option<RouteMsg>,
    n: StaticRouteNexthop,
    i: int,
)
    requires
        call_ensures(static_route_install, (master, key), r),
        master.wf(),
    ensures
        r is Some <==> master.static_routes@.contains_key(key@) && !table_is(
            *master,
            key.instance_id.network_instance@,
            None,
        ),
        r matches Some(msg) ==> {
            let route = master.static_routes@[key@];
            &&& table_is(*master, key.instance_id.network_instance@, Some(msg.table_id))
            &&& msg.prefix == key.prefix
            &&& msg.protocol == Protocol::STATIC
            &&& msg.distance == 1
            &&& msg.metric == 0
            &&& msg.tag is None
            &&& msg.opaque_attrs == RouteOpaqueAttrs::Empty
            &&& kind_is(route.nexthop_special, msg.kind)
            &&& 0 <= i < msg.nexthops@.len() ==> is_configured(*master, route, msg.nexthops@[i])
            &&& (n == route.nexthop_single || exists|k: Seq<char>| #[trigger]
                route.nexthop_list@.contains_key(k) && route.nexthop_list@[k] == n) && (n.ifname matches Some(ifname)
                && master.interfaces.by_name@.contains_key(ifname@)) ==> exists|j: int|
                0 <= j < msg.nexthops@.len() && stands_for(*master, n, #[trigger] msg.nexthops@[j])
        },
{
    let ni = key.instance_id.network_instance@;
    let table = crate::routing_master::static_table(*master, ni);
    assert(table_is(*master, ni, table));
    if let Some(msg) = r {
        let route = master.static_routes@[key@];
        static_set_is_finite(*master, route);
        static_hops(*master, route, msg.nexthops@, n);
    }
}

proof fn static_set_is_finite(m: Master, route: StaticRoute)
    requires
        route.nexthop_list.wf(),
    ensures
        static_nexthops(m.interfaces, route).finite(),
{
    let set = static_nexthops(m.interfaces, route);
    let entries = route.nexthop_list.entries@;
    let bound = Seq::new(
        entries.len() + 1,
        |i: int|
            if i < entries.len() {
                static_nexthop(m.interfaces, entries[i].1)
            } else {
                static_nexthop(m.interfaces, route.nexthop_single)
            },
    );
    let somes = bound.to_set();
    vstd::seq_lib::seq_to_set_is_finite(bound);
    let f = |o: Option<StaticNexthop>| o->0;
    let image = somes.map(f);
    somes.lemma_map_finite(f);
    assert forall|x: StaticNexthop| set.contains(x) implies image.contains(x) by {
        if static_nexthop(m.interfaces, route.nexthop_single) == Some(x) {
            assert(bound[entries.len() as int] == Some(x));
            assert(somes.contains(Some(x)));
        } else {
            let k = choose|k: Seq<char>| #[trigger]
                route.nexthop_list@.contains_key(k) && static_nexthop(m.interfaces, route.nexthop_list@[k]) == Some(x);
            let j = choose|j: int| 0 <= j < entries.len() && (#[trigger] entries[j]).0@ == k;
            entries_map_get(entries, j);
            assert(bound[j] == Some(x));
            assert(somes.contains(Some(x)));
        }
        assert(f(Some(x)) == x);
    }
    assert(set.subset_of(image));
    vstd::set_lib::lemma_set_subset_finite(image, set);
}

/// The message that installs the route to the network of an address is that of a
/// connected route: through the interface, and for the network of the address,
/// not the address itself.
pub open spec fn is_connected_route(msg: RouteMsg, addr: IpNetwork, ifindex: u32) -> bool {
    &&& msg.protocol == Protocol::DIRECT
    &&& msg.kind == RouteKind::Unicast
    &&& msg.table_id is None
    &&& is_network_of(msg.prefix, addr)
    &&& msg.distance == 0
    &&& msg.metric == 0
    &&& msg.tag is None
    &&& msg.nexthops@.len() == 1
    &&& msg.nexthops@[0] matches Nexthop::Interface { ifindex: i } && i == ifindex
}

/// Whether a prefix is the network of an address: it is of the same length, the
/// bits behind the length are 0, and the address lies within it.
pub open spec fn is_network_of(net: IpNetwork, addr: IpNetwork) -> bool {
    match (net, addr) {
        (IpNetwork::V4(n), IpNetwork::V4(a)) => {
            let size = pow2((32 - a.prefix) as nat) as int;
            n.prefix == a.prefix && n.addr.bits as int % size == 0 && n.addr.bits <= a.addr.bits < n.addr.bits + size
        },
        (IpNetwork::V6(n), IpNetwork::V6(a)) => {
            let size = pow2((128 - a.prefix) as nat) as int;
            n.prefix == a.prefix && n.addr.bits as int % size == 0 && n.addr.bits <= a.addr.bits < n.addr.bits + size
        },
        _ => false,
    }
}

proof fn cut_off(b: int, m: int)
    requires
        b >= 0,
        m > 0,
    ensures
        0 <= b - b % m <= b,
        b < b - b % m + m,
        (b - b % m) % m == 0,
{
    lemma_fundamental_div_mod(b, m);
    lemma_mod_bound(b, m);
    lemma_mod_multiples_basic(b / m, m);
    assert(b - b % m == (b / m) * m) by (nonlinear_arith)
        requires
            b == m * (b / m) + b % m,
    ;
    assert(b / m >= 0) by (nonlinear_arith)
        requires
            b >= 0,
            m > 0,
    ;
    assert((b / m) * m >= 0) by (nonlinear_arith)
        requires
            b / m >= 0,
            m > 0,
    ;
}

/// Host bits are what is cut off of an address.
pub proof fn networks_have_no_host_bits(addr: IpNetwork)
    requires
        prefix_wf(addr),
    ensures
        is_network_of(masked(addr), addr),
        masked(masked(addr)) == masked(addr),
{
    match addr {
        IpNetwork::V4(n) => {
            let size = pow2((32 - n.prefix) as nat) as int;
            lemma_pow2_pos((32 - n.prefix) as nat);
            cut_off(n.addr.bits as int, size);
            let m = masked(addr)->V4_0;
            assert(m.addr.bits as int == n.addr.bits as int - n.addr.bits as int % size);
            assert(m.addr.bits as int % size == 0);
        },
        IpNetwork::V6(n) => {
            let size = pow2((128 - n.prefix) as nat) as int;
            lemma_pow2_pos((128 - n.prefix) as nat);
            cut_off(n.addr.bits as int, size);
            let m = masked(addr)->V6_0;
            assert(m.addr.bits as int == n.addr.bits as int - n.addr.bits as int % size);
            assert(m.addr.bits as int % size == 0);
        },
    }
}

/// An address of a known interface is kept, and its connected route is asked for
/// unless it is unnumbered; when the address is gone it is forgotten, and the
/// route is removed under the same key. An unknown interface changes nothing.
pub proof fn addresses_have_connected_routes(
    master: &mut Master,
    ifname: String,
    addr: IpNetwork,
    unnumbered: bool,
    added: bool,
    r: Vec<Output>,
    other: IpNetwork,
    other_name: Seq<char>,
)
    requires
        prefix_wf(addr),
        added ==> call_ensures(
            process_notification_msg,
            (master, InterfaceMsg::InterfaceAddressAdd { ifname, addr, unnumbered }),
            r,
        ),
        !added ==> call_ensures(
            process_notification_msg,
            (master, InterfaceMsg::InterfaceAddressDel { ifname, addr, unnumbered }),
            r,
        ),
    ensures
        !old(master).interfaces.by_name@.contains_key(ifname@) ==> r@.len() == 0 && final(master).interfaces == old(master).interfaces,
        unnumbered ==> r@.len() == 0,
        old(master).interfaces.by_name@.contains_key(ifname@) ==> {
            let before = old(master).interfaces.by_name@[ifname@];
            let after = final(master).interfaces.by_name@[ifname@];
            &&& final(master).interfaces.by_name@.contains_key(ifname@)
            &&& after.addresses@.contains_key(addr) == added
            &&& added ==> after.addresses@[addr] == unnumbered
            &&& other != addr ==> after.addresses@.contains_key(other) == before.addresses@.contains_key(other)
                && after.addresses@[other] == before.addresses@[other]
            &&& after.ifindex == before.ifindex
            &&& after.operative == before.operative
            &&& after.vrf_table_id == before.vrf_table_id
            &&& !unnumbered && added ==> r@.len() == 1 && (r@[0] matches Output::RouteIpAdd(m) && is_connected_route(
                m,
                addr,
                before.ifindex,
            ))
            &&& !unnumbered && !added ==> r@.len() == 1 && (r@[0] matches Output::RouteIpDel(k) && k.protocol
                == Protocol::DIRECT && k.table_id is None && is_network_of(k.prefix, addr))
        },
        other_name != ifname@ ==> final(master).interfaces.by_name@.contains_key(other_name) == old(master).interfaces.by_name@.contains_key(other_name) && final(master).interfaces.by_name@[other_name] == old(master).interfaces.by_name@[other_name],
        final(master).network_instances == old(master).network_instances,
        final(master).static_routes == old(master).static_routes,
{
    networks_have_no_host_bits(addr);
    if added && !unnumbered && old(master).interfaces.by_name@.contains_key(ifname@) {
        if let Output::RouteIpAdd(m) = r@[0] {
            assert(nexthop_models(m.nexthops@).len() == 1);
            assert(nexthop_models(m.nexthops@)[0] == m.nexthops@[0].model());
        }
    }
}

/// An interface that is updated is known with what was told of it, and keeps its
/// addresses; one that is gone is forgotten.
pub proof fn interfaces_follow_updates(
    master: &mut Master,
    ifname: String,
    ifindex: u32,
    operative: bool,
    vrf_table_id: Option<u32>,
    r: Vec<Output>,
    other: Seq<char>,
)
    requires
        call_ensures(
            process_notification_msg,
            (master, InterfaceMsg::InterfaceUpd { ifname, ifindex, operative, vrf_table_id }),
            r,
        ),
    ensures
        ({
            let after = final(master).interfaces.by_name@[ifname@];
            &&& final(master).interfaces.by_name@.contains_key(ifname@)
            &&& after.ifindex == ifindex
            &&& after.operative == operative
            &&& after.vrf_table_id == vrf_table_id
            &&& old(master).interfaces.by_name@.contains_key(ifname@) ==> after.addresses@ == old(master).interfaces.by_name@[ifname@].addresses@
            &&& !old(master).interfaces.by_name@.contains_key(ifname@) ==> after.addresses@.dom() == Set::<
                IpNetwork,
            >::empty()
        }),
        other != ifname@ ==> final(master).interfaces.by_name@.contains_key(other) == old(master).interfaces.by_name@.contains_key(other) && final(master).interfaces.by_name@[other] == old(master).interfaces.by_name@[other] && final(master).network_instances@.contains_key(other) == old(master).network_instances@.contains_key(other) && final(master).network_instances@[other] == old(master).network_instances@[other],
        final(master).network_instances@.contains_key(ifname@) == old(master).network_instances@.contains_key(ifname@),
        vrf_table_id is Some && old(master).network_instances@.contains_key(ifname@) ==> final(master).network_instances@[ifname@].table_id == vrf_table_id,
        vrf_table_id is None ==> final(master).network_instances@ == old(master).network_instances@ && r@.len() == 0,
        !old(master).network_instances@.contains_key(ifname@) ==> r@.len() == 0,
        final(master).static_routes == old(master).static_routes,
{
}

/// An interface that is gone is forgotten, and nothing else happens.
pub proof fn gone_interfaces_are_forgotten(master: &mut Master, ifname: String, r: Vec<Output>, other: Seq<char>)
    requires
        call_ensures(process_notification_msg, (master, InterfaceMsg::InterfaceDel(ifname)), r),
    ensures
        !final(master).interfaces.by_name@.contains_key(ifname@),
        other != ifname@ ==> final(master).interfaces.by_name@.contains_key(other) == old(master).interfaces.by_name@.contains_key(other) && final(master).interfaces.by_name@[other] == old(master).interfaces.by_name@[other],
        final(master).network_instances == old(master).network_instances,
        r@.len() == 0,
{
}

proof fn within_exact(
    keys: Seq<((Protocol, Seq<char>, Seq<char>), IpNetwork)>,
    network_instance: Seq<char>,
    key: ((Protocol, Seq<char>, Seq<char>), IpNetwork),
)
    ensures
        routes_within(keys, network_instance).contains(key) <==> keys.contains(key) && key.0.2 == network_instance,
    decreases keys.len(),
{
    let all = routes_within(keys, network_instance);
    if keys.len() > 0 {
        let init = keys.drop_last();
        let rest = routes_within(init, network_instance);
        within_exact(init, network_instance, key);
        assert(keys[keys.len() - 1] == keys.last());
        if rest.contains(key) {
            let i = choose|i: int| 0 <= i < rest.len() && rest[i] == key;
            assert(all[i] == key);
            let k = choose|k: int| 0 <= k < init.len() && init[k] == key;
            assert(keys[k] == key);
        }
        if keys.last() == key && key.0.2 == network_instance {
            assert(all[rest.len() as int] == key);
        }
        if all.contains(key) && !rest.contains(key) {
            let i = choose|i: int| 0 <= i < all.len() && all[i] == key;
            if i < rest.len() {
                assert(rest[i] == key);
            }
        }
        if keys.contains(key) && key != keys.last() {
            let k = choose|k: int| 0 <= k < keys.len() && keys[k] == key;
            assert(init[k] == key);
        }
    }
}

/// Once the VRF device of a network instance is known, each static route of that
/// instance is asked for, with its prefix and the table of the device, and no
/// other route is.
pub proof fn static_routes_wait_for_their_vrf(
    master: &mut Master,
    ifname: String,
    ifindex: u32,
    operative: bool,
    table: u32,
    r: Vec<Output>,
    key: StaticRouteKey,
    i: int,
)
    requires
        old(master).wf(),
        call_ensures(
            process_notification_msg,
            (master, InterfaceMsg::InterfaceUpd { ifname, ifindex, operative, vrf_table_id: Some(table) }),
            r,
        ),
        old(master).network_instances@.contains_key(ifname@),
        ifname@ != "default"@,
    ensures
        old(master).static_routes@.contains_key(key@) && key.instance_id.network_instance@ == ifname@ ==> exists|
            k: int,
        |
            0 <= k < r@.len() && (#[trigger] r@[k] matches Output::RouteIpAdd(msg) && msg.prefix == key.prefix
                && msg.table_id == Some(table) && msg.protocol == Protocol::STATIC && kind_is(
                old(master).static_routes@[key@].nexthop_special,
                msg.kind,
            )),
        0 <= i < r@.len() ==> (r@[i] matches Output::RouteIpAdd(msg) && msg.table_id == Some(table) && msg.protocol
            == Protocol::STATIC && exists|id: (Protocol, Seq<char>, Seq<char>)| #[trigger]
            old(master).static_routes@.contains_key((id, msg.prefix)) && id.2 == ifname@),
{
    let keys = old(master).static_routes.keys();
    let own = routes_within(keys, ifname@);
    assert(install_all(r@, *final(master), own));
    if old(master).static_routes@.contains_key(key@) && key.instance_id.network_instance@ == ifname@ {
        keys_are_domain(old(master).static_routes, key@);
        within_exact(keys, ifname@, key@);
        let k = choose|k: int| 0 <= k < own.len() && own[k] == key@;
        assert(r@[k] is RouteIpAdd);
    }
    if 0 <= i < r@.len() {
        assert(r@[i] is RouteIpAdd);
        assert(own.contains(own[i]));
        within_exact(keys, ifname@, own[i]);
        keys_are_domain(old(master).static_routes, own[i]);
        assert(old(master).static_routes@.contains_key((own[i].0, own[i].1)));
    }
}

/// The table of a route of a client is that of the network instance in which the
/// first instance that listens to its channel runs.
pub proof fn client_tables_are_those_of_instances(
    master: &Master,
    client: &IbusClient,
    table_id: &mut Option<u32>,
    r: bool,
    i: int,
)
    requires
        call_ensures(route_table_id, (master, client, table_id), r),
        0 <= i < master.instances.entries@.len(),
        master.instances.entries@[i].1.channel == client.channel,
        forall|j: int| 0 <= j < i ==> (#[trigger] master.instances.entries@[j]).1.channel != client.channel,
    ensures
        r ==> table_is(*master, master.instances.entries@[i].0.network_instance@, Some(*final(table_id))),
        !r ==> table_is(*master, master.instances.entries@[i].0.network_instance@, None) && *final(table_id) is None,
{
    first_listener(master.instances.entries@, client.channel, i);
}

/// The table of a static route is that of its network instance.
pub proof fn static_tables_are_those_of_instances(
    master: &Master,
    key: &StaticRouteKey,
    r: Option<Option<u32>>,
)
    requires
        call_ensures(static_route_table_id, (master, key), r),
    ensures
        table_is(*master, key.instance_id.network_instance@, r),
{
}

/// The VPN imports that instances are told of are those of the network instances
/// that are enabled and import something, with their tables and route targets.
pub proof fn imports_are_those_of_instances(master: &mut Master, r: (), name: Seq<char>)
    requires
        call_ensures(vpn_imports_update, (master,), r),
    ensures
        final(master).shared.vpn_imports@.contains_key(name) <==> old(master).network_instances@.contains_key(name)
            && old(master).network_instances@[name].enabled && exists|rt: RouteTarget| #[trigger] old(master).network_instances@[name].import_rts@.contains(rt),
        final(master).shared.vpn_imports@.contains_key(name) ==> final(master).shared.vpn_imports@[name].table_id
            == old(master).network_instances@[name].table_id && final(master).shared.vpn_imports@[name].import_rts@
            == old(master).network_instances@[name].import_rts@,
        final(master).network_instances == old(master).network_instances,
{
    import_names(old(master).network_instances@, name);
}

proof fn import_names(nis: Map<Seq<char>, NetworkInstance>, name: Seq<char>)
    ensures
        nis[name].import_rts@ != Set::<RouteTarget>::empty() <==> exists|rt: RouteTarget| #[trigger]
            nis[name].import_rts@.contains(rt),
{
    let set = nis[name].import_rts@;
    if forall|rt: RouteTarget| !(#[trigger] set.contains(rt)) {
        assert(set =~= Set::<RouteTarget>::empty());
    }
}

/// A network instance that is created is enabled and imports nothing, and has the
/// table of the VRF device of its name if that is known. Other instances stay as
/// they are.
pub proof fn created_instances_know_their_vrf(master: &mut Master, name: String, r: (), other: Seq<char>)
    requires
        call_ensures(network_instance_create, (master, name), r),
    ensures
        final(master).network_instances@.contains_key(name@),
        final(master).network_instances@[name@].enabled,
        final(master).network_instances@[name@].description is None,
        forall|rt: RouteTarget| !final(master).network_instances@[name@].import_rts@.contains(rt),
        old(master).interfaces.by_name@.contains_key(name@) ==> final(master).network_instances@[name@].table_id
            == old(master).interfaces.by_name@[name@].vrf_table_id,
        !old(master).interfaces.by_name@.contains_key(name@) ==> final(master).network_instances@[name@].table_id
            is None,
        !final(master).shared.vpn_imports@.contains_key(name@),
        other != name@ ==> final(master).network_instances@.contains_key(other) == old(master).network_instances@.contains_key(other) && final(master).network_instances@[other] == old(master).network_instances@[other],
{
}

/// An instance is started as it was named, for the protocols that run as one;
/// BFD and static routes need none.
pub proof fn instances_are_started_as_named(
    protocol: Protocol,
    name: String,
    network_instance: String,
    r: Option<InstanceId>,
)
    requires
        call_ensures(instance_start, (protocol, name, network_instance), r),
        protocol != Protocol::DIRECT,
    ensures
        r is None <==> protocol == Protocol::BFD || protocol == Protocol::STATIC,
        r matches Some(id) ==> id.protocol == protocol && id.name == name && id.network_instance == network_instance,
{
}

/// An instance that was started is known under its identity, and the others are
/// still known.
pub proof fn started_instances_are_known(
    master: &mut Master,
    id: InstanceId,
    handle: InstanceHandle,
    r: (),
    other: (Protocol, Seq<char>, Seq<char>),
)
    requires
        call_ensures(instance_started, (master, id, handle), r),
    ensures
        final(master).instances@.contains_key(id@) && final(master).instances@[id@] == handle,
        other != id@ ==> final(master).instances@.contains_key(other) == old(master).instances@.contains_key(other)
            && final(master).instances@[other] == old(master).instances@[other],
{
}

}
