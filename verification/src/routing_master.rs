//! The state of the routing core, static routes and VPN membership.
use crate::bgp::RouteTarget;
use crate::ip::AddressFamily;
use crate::ip::IpAddr;
use crate::ip::IpNetwork;
use crate::ip::Ipv4Network;
use crate::ip::Ipv6Network;
use crate::message::ip_span;
use crate::message::paired;
use crate::message::paired_order;
use crate::ord::elems_in_order;
use crate::ord::entries_map_get;
use crate::ord::in_order;
use crate::ord::Key;
use crate::ord::Ranked;
use crate::ord::SortedMap;
use crate::ord::SortedSet;
use crate::policy::RouteOpaqueAttrs;
use crate::policy_types::MatchSets;
use crate::policy_types::Policy;
use crate::protocol::Protocol;
use crate::routing::default_instance;
use crate::routing::InstanceId;
use crate::routing::Interface;
use crate::routing::Interfaces;
use crate::routing::NetworkInstance;
use crate::routing::NexthopSpecial;
use crate::routing::StaticRoute;
use crate::routing::StaticRouteKey;
use crate::routing::StaticRouteNexthop;
use crate::shared::VpnImport;
use crate::southbound::nexthop_models;
use crate::southbound::Nexthop;
use crate::southbound::NexthopModel;
use crate::southbound::RouteKind;
use crate::southbound::RouteMsg;
use crate::sr_bier::BierCfg;
use crate::sr_bier::BierModel;
use crate::sr_bier::SrCfg;
use crate::sr_bier::SrModel;
use crate::text::same_text;
use std::sync::Arc;
use vstd::prelude::*;

verus! {

/// A keychain.
pub struct Keychain {
    pub name: String,
}

/// A running protocol instance, by the numbers of the channels it listens to:
/// one for configuration, and one for messages of the routing core.
#[derive(Clone, Copy, Debug, PartialEq, Eq, Structural)]
pub struct InstanceHandle {
    pub nb_channel: u64,
    pub channel: u64,
}

/// A client of the routing core: its identity and the channel it listens to.
#[derive(Clone, Copy, Debug, PartialEq, Eq, Structural)]
pub struct IbusClient {
    pub id: u64,
    pub channel: u64,
}

/// Routes of a protocol in an address family.
#[derive(Clone, Copy, Debug, PartialEq, Eq, Structural)]
pub struct RedistributeKey {
    pub af: AddressFamily,
    pub protocol: Protocol,
}

/// What a client wants to be told of routes of other protocols.
pub struct RedistributeSub {
    pub protocols: SortedSet<RedistributeKey>,
    pub channel: u64,
}

/// A next hop that is tracked for clients, with the channels of these.
pub struct NhtEntry {
    pub metric: Option<u32>,
    pub subscriptions: SortedMap<u64, u64>,
}

/// A route of the routing table.
pub struct Route {
    pub protocol: Protocol,
    pub kind: RouteKind,
    pub table_id: Option<u32>,
    pub distance: u32,
    pub metric: u32,
    pub tag: Option<u32>,
    pub opaque_attrs: RouteOpaqueAttrs,
    pub nexthops: Arc<Vec<Nexthop>>,
    pub active: bool,
    pub removed: bool,
}

/// What protocol instances share.
pub struct MasterShared {
    pub keychains: SortedMap<String, Arc<Keychain>>,
    pub policy_match_sets: Arc<MatchSets>,
    pub policies: SortedMap<String, Arc<Policy>>,
    pub vpn_imports: SortedMap<String, VpnImport>,
    pub sr_config: Arc<SrCfg>,
    pub bier_config: Arc<BierCfg>,
}

/// The routing core. The routes of a prefix come in the order of preference.
pub struct Master {
    pub shared: MasterShared,
    pub interfaces: Interfaces,
    pub network_instances: SortedMap<String, NetworkInstance>,
    /// The network instances that protocol instances are bound to.
    pub instance_ni: SortedMap<InstanceId, String>,
    pub static_routes: SortedMap<StaticRouteKey, StaticRoute>,
    pub sr_config: SrCfg,
    pub bier_config: BierCfg,
    pub instances: SortedMap<InstanceId, InstanceHandle>,
    pub rib_ipv4: SortedMap<Ipv4Network, Vec<Route>>,
    pub rib_ipv6: SortedMap<Ipv6Network, Vec<Route>>,
    pub subscriptions: SortedMap<u64, RedistributeSub>,
    pub nht: SortedMap<IpAddr, NhtEntry>,
}

pub open spec fn network_instances_wf(m: SortedMap<String, NetworkInstance>) -> bool {
    m.wf() && forall|n: Seq<char>| #[trigger] m@.contains_key(n) ==> m@[n].import_rts.wf()
}

impl Master {
    pub open spec fn wf(&self) -> bool {
        &&& self.shared.keychains.wf()
        &&& self.shared.policies.wf()
        &&& self.shared.vpn_imports.wf()
        &&& self.interfaces.wf()
        &&& network_instances_wf(self.network_instances)
        &&& self.instance_ni.wf()
        &&& self.static_routes.wf()
        &&& forall|k: ((Protocol, Seq<char>, Seq<char>), IpNetwork)| #[trigger]
            self.static_routes@.contains_key(k) ==> self.static_routes@[k].nexthop_list.wf()
        &&& self.sr_config.wf()
        &&& self.bier_config.wf()
        &&& self.instances.wf()
        &&& self.rib_ipv4.wf()
        &&& self.rib_ipv6.wf()
        &&& self.subscriptions.wf()
        &&& forall|c: u64| #[trigger] self.subscriptions@.contains_key(c) ==> self.subscriptions@[c].protocols.wf()
        &&& self.nht.wf()
        &&& forall|a: IpAddr| #[trigger] self.nht@.contains_key(a) ==> self.nht@[a].subscriptions.wf()
    }

    /// A routing core that knows nothing yet.
    pub fn new() -> (r: Self)
        ensures
            r.wf(),
            r.shared.keychains@ == Map::<Seq<char>, Arc<Keychain>>::empty(),
            r.shared.policy_match_sets.holds_nothing(),
            r.shared.policies@ == Map::<Seq<char>, Arc<Policy>>::empty(),
            r.shared.vpn_imports@ == Map::<Seq<char>, VpnImport>::empty(),
            r.shared.sr_config@ == r.sr_config@,
            r.shared.bier_config@ == r.bier_config@,
            r.interfaces.by_name@ == Map::<Seq<char>, Interface>::empty(),
            r.network_instances@ == Map::<Seq<char>, NetworkInstance>::empty(),
            r.instance_ni@ == Map::<(Protocol, Seq<char>, Seq<char>), String>::empty(),
            r.static_routes@ == Map::<((Protocol, Seq<char>, Seq<char>), IpNetwork), StaticRoute>::empty(),
            r.sr_config@ == (SrModel { prefix_sids: Map::empty(), srgb: Set::empty(), srlb: Set::empty() }),
            r.bier_config@ == (BierModel { sd_cfg: Map::empty(), bift_cfg: Map::empty() }),
            r.instances@ == Map::<(Protocol, Seq<char>, Seq<char>), InstanceHandle>::empty(),
            r.rib_ipv4@ == Map::<Ipv4Network, Vec<Route>>::empty(),
            r.rib_ipv6@ == Map::<Ipv6Network, Vec<Route>>::empty(),
            r.subscriptions@ == Map::<u64, RedistributeSub>::empty(),
            r.nht@ == Map::<IpAddr, NhtEntry>::empty(),
    {
        Master {
            shared: MasterShared {
                keychains: SortedMap::new(),
                policy_match_sets: Arc::new(MatchSets::default()),
                policies: SortedMap::new(),
                vpn_imports: SortedMap::new(),
                sr_config: Arc::new(SrCfg::new()),
                bier_config: Arc::new(BierCfg::new()),
            },
            interfaces: Interfaces::new(),
            network_instances: SortedMap::new(),
            instance_ni: SortedMap::new(),
            static_routes: SortedMap::new(),
            sr_config: SrCfg::new(),
            bier_config: BierCfg::new(),
            instances: SortedMap::new(),
            rib_ipv4: SortedMap::new(),
            rib_ipv6: SortedMap::new(),
            subscriptions: SortedMap::new(),
            nht: SortedMap::new(),
        }
    }
}

impl View for RedistributeKey {
    type V = RedistributeKey;

    open spec fn view(&self) -> RedistributeKey {
        *self
    }
}

impl Ranked for RedistributeKey {
    open spec fn rank(self) -> int {
        self.protocol.rank() + if self.af == AddressFamily::Ipv4 {
            0int
        } else {
            256
        }
    }

    proof fn rank_identifies(a: Self, b: Self) {
    }

    proof fn view_is_value(self) {
    }

    fn ranks_below(&self, other: &Self) -> (r: bool) {
        if self.af == other.af {
            self.protocol.ranks_below(&other.protocol)
        } else {
            self.af == AddressFamily::Ipv4
        }
    }
}

/// A next hop of a static route.
#[derive(Clone, Copy, Debug, PartialEq, Eq, Structural)]
pub enum StaticNexthop {
    Address { ifindex: u32, addr: IpAddr },
    Interface { ifindex: u32 },
}

impl View for StaticNexthop {
    type V = StaticNexthop;

    open spec fn view(&self) -> StaticNexthop {
        *self
    }
}

/// Kind and interface of a next hop as a number.
pub open spec fn nexthop_head(n: StaticNexthop) -> int {
    match n {
        StaticNexthop::Address { ifindex, .. } => ifindex as int,
        StaticNexthop::Interface { ifindex } => 0x1_0000_0000 + ifindex,
    }
}

/// The address of a next hop as a number.
pub open spec fn nexthop_tail(n: StaticNexthop) -> int {
    match n {
        StaticNexthop::Address { addr, .. } => addr.rank(),
        StaticNexthop::Interface { .. } => 0,
    }
}

impl Ranked for StaticNexthop {
    open spec fn rank(self) -> int {
        paired(nexthop_head(self), ip_span(), nexthop_tail(self))
    }

    proof fn rank_identifies(a: Self, b: Self) {
        paired_order(nexthop_head(a), nexthop_tail(a), nexthop_head(b), nexthop_tail(b), ip_span());
        match (a, b) {
            (
                StaticNexthop::Address { addr: x, .. },
                StaticNexthop::Address { addr: y, .. },
            ) => IpAddr::rank_identifies(x, y),
            _ => {},
        }
    }

    proof fn view_is_value(self) {
    }

    fn ranks_below(&self, other: &Self) -> (r: bool) {
        proof {
            paired_order(
                nexthop_head(*self),
                nexthop_tail(*self),
                nexthop_head(*other),
                nexthop_tail(*other),
                ip_span(),
            );
        }
        match (*self, *other) {
            (
                StaticNexthop::Address { ifindex: i, addr: a },
                StaticNexthop::Address { ifindex: j, addr: b },
            ) => i < j || (i == j && a.ranks_below(&b)),
            (StaticNexthop::Address { .. }, StaticNexthop::Interface { .. }) => true,
            (StaticNexthop::Interface { .. }, StaticNexthop::Address { .. }) => false,
            (StaticNexthop::Interface { ifindex: i }, StaticNexthop::Interface { ifindex: j }) => i < j,
        }
    }
}

/// The next hop that the configuration of one stands for, if its interface is
/// known.
pub open spec fn static_nexthop(interfaces: Interfaces, n: StaticRouteNexthop) -> Option<StaticNexthop> {
    match n.ifname {
        Some(ifname) => if interfaces.by_name@.contains_key(ifname@) {
            let ifindex = interfaces.by_name@[ifname@].ifindex;
            match n.addr {
                Some(addr) => Some(StaticNexthop::Address { ifindex, addr }),
                None => Some(StaticNexthop::Interface { ifindex }),
            }
        } else {
            None
        },
        None => None,
    }
}

pub fn static_nexthop_get(interfaces: &Interfaces, nexthop: &StaticRouteNexthop) -> (r: Option<StaticNexthop>)
    requires
        interfaces.wf(),
    ensures
        r == static_nexthop(*interfaces, *nexthop),
{
    match &nexthop.ifname {
        Some(ifname) => match interfaces.by_name.get(ifname) {
            Some(iface) => match nexthop.addr {
                Some(addr) => Some(StaticNexthop::Address { ifindex: iface.ifindex, addr }),
                None => Some(StaticNexthop::Interface { ifindex: iface.ifindex }),
            },
            None => None,
        },
        None => None,
    }
}

/// Whether a next hop is one of those of a static route.
pub open spec fn is_static_nexthop(interfaces: Interfaces, route: StaticRoute, n: StaticNexthop) -> bool {
    static_nexthop(interfaces, route.nexthop_single) == Some(n) || exists|k: Seq<char>| #[trigger]
        route.nexthop_list@.contains_key(k) && static_nexthop(interfaces, route.nexthop_list@[k]) == Some(n)
}

/// The next hops of a static route.
pub open spec fn static_nexthops(interfaces: Interfaces, route: StaticRoute) -> Set<StaticNexthop> {
    Set::new(|n: StaticNexthop| is_static_nexthop(interfaces, route, n))
}

fn collect_nexthops(interfaces: &Interfaces, route: &StaticRoute) -> (r: SortedSet<StaticNexthop>)
    requires
        interfaces.wf(),
        route.nexthop_list.wf(),
    ensures
        r.wf(),
        r@ == static_nexthops(*interfaces, *route),
{
    let mut r: SortedSet<StaticNexthop> = SortedSet::new();
    if let Some(n) = static_nexthop_get(interfaces, &route.nexthop_single) {
        r.insert(n);
    }
    let ghost entries = route.nexthop_list.entries@;
    let mut i: usize = 0;
    while i < route.nexthop_list.entries.len()
        invariant
            interfaces.wf(),
            route.nexthop_list.wf(),
            entries == route.nexthop_list.entries@,
            i <= entries.len(),
            r.wf(),
            forall|n: StaticNexthop| #[trigger]
                r@.contains(n) <==> (static_nexthop(*interfaces, route.nexthop_single) == Some(n) || exists|j: int|
                    0 <= j < i && static_nexthop(*interfaces, (#[trigger] entries[j]).1) == Some(n)),
        decreases entries.len() - i,
    {
        let ghost before = r@;
        let nexthop = static_nexthop_get(interfaces, &route.nexthop_list.entries[i].1);
        if let Some(n) = nexthop {
            r.insert(n);
        }
        proof {
            assert forall|n: StaticNexthop| #[trigger] r@.contains(n) <==> (static_nexthop(
                *interfaces,
                route.nexthop_single,
            ) == Some(n) || exists|j: int|
                0 <= j < i + 1 && static_nexthop(*interfaces, (#[trigger] entries[j]).1) == Some(n)) by {
                if before.contains(n) {
                    if static_nexthop(*interfaces, route.nexthop_single) != Some(n) {
                        let j = choose|j: int|
                            0 <= j < i && static_nexthop(*interfaces, (#[trigger] entries[j]).1) == Some(n);
                        assert(static_nexthop(*interfaces, entries[j].1) == Some(n));
                    }
                } else if r@.contains(n) {
                    assert(static_nexthop(*interfaces, entries[i as int].1) == Some(n));
                }
                if exists|j: int|
                    0 <= j < i + 1 && static_nexthop(*interfaces, (#[trigger] entries[j]).1) == Some(n) {
                    let j = choose|j: int|
                        0 <= j < i + 1 && static_nexthop(*interfaces, (#[trigger] entries[j]).1) == Some(n);
                    if j < i {
                        assert(before.contains(n));
                    }
                }
            }
        }
        i += 1;
    }
    proof {
        assert forall|n: StaticNexthop| r@.contains(n) <==> static_nexthops(*interfaces, *route).contains(n) by {
            if r@.contains(n) && static_nexthop(*interfaces, route.nexthop_single) != Some(n) {
                let j = choose|j: int|
                    0 <= j < i && static_nexthop(*interfaces, (#[trigger] entries[j]).1) == Some(n);
                entries_map_get(entries, j);
                assert(route.nexthop_list@.contains_key(entries[j].0@));
            }
            if is_static_nexthop(*interfaces, *route, n) && static_nexthop(*interfaces, route.nexthop_single)
                != Some(n) {
                let k = choose|k: Seq<char>| #[trigger]
                    route.nexthop_list@.contains_key(k) && static_nexthop(*interfaces, route.nexthop_list@[k]) == Some(
                        n,
                    );
                let j = choose|j: int| 0 <= j < entries.len() && (#[trigger] entries[j]).0@ == k;
                entries_map_get(entries, j);
                assert(static_nexthop(*interfaces, entries[j].1) == Some(n));
            }
        }
        assert(r@ =~= static_nexthops(*interfaces, *route));
    }
    r
}

pub open spec fn static_nexthop_model(n: StaticNexthop) -> NexthopModel {
    match n {
        StaticNexthop::Address { ifindex, addr } => NexthopModel::Address { ifindex, addr, labels: Seq::empty() },
        StaticNexthop::Interface { ifindex } => NexthopModel::Interface { ifindex },
    }
}

/// The next hops of a static route in order.
pub open spec fn static_nexthop_models(set: Set<StaticNexthop>) -> Seq<NexthopModel> {
    let s = in_order::<StaticNexthop>(set);
    Seq::new(s.len(), |i: int| static_nexthop_model(s[i]))
}

fn to_nexthops(set: &SortedSet<StaticNexthop>) -> (r: Vec<Nexthop>)
    requires
        set.wf(),
    ensures
        nexthop_models(r@) == static_nexthop_models(set@),
{
    let mut r: Vec<Nexthop> = Vec::new();
    let ghost all = static_nexthop_models(set@);
    let mut i: usize = 0;
    proof {
        elems_in_order(*set);
        assert(nexthop_models(r@) =~= all.take(0));
    }
    while i < set.len()
        invariant
            all == static_nexthop_models(set@),
            set.elems() == in_order::<StaticNexthop>(set@),
            i <= set.elems().len(),
            nexthop_models(r@) == all.take(i as int),
        decreases set.elems().len() - i,
    {
        let nexthop = match *set.nth(i) {
            StaticNexthop::Address { ifindex, addr } => Nexthop::Address { ifindex, addr, labels: Vec::new() },
            StaticNexthop::Interface { ifindex } => Nexthop::Interface { ifindex },
        };
        proof {
            assert(nexthop.model() == all[i as int]);
            assert(all.take(i + 1) =~= all.take(i as int).push(all[i as int]));
            assert(nexthop_models(r@.push(nexthop)) =~= nexthop_models(r@).push(nexthop.model()));
        }
        r.push(nexthop);
        i += 1;
    }
    assert(all.take(i as int) =~= all);
    r
}

/// The table that a static route goes to: nothing if it cannot be told yet, or
/// the main table, or that of the network instance.
pub open spec fn static_table(m: Master, network_instance: Seq<char>) -> Option<Option<u32>> {
    if network_instance == default_instance() {
        Some(None)
    } else if m.network_instances@.contains_key(network_instance) && m.network_instances@[network_instance].table_id
        is Some {
        Some(m.network_instances@[network_instance].table_id)
    } else {
        None
    }
}

pub fn static_route_table_id(master: &Master, route_key: &StaticRouteKey) -> (r: Option<Option<u32>>)
    requires
        master.wf(),
    ensures
        r == static_table(*master, route_key.instance_id.network_instance@),
{
    let network_instance = &route_key.instance_id.network_instance;
    if same_text(network_instance.as_str(), "default") {
        return Some(None);
    }
    match master.network_instances.get(network_instance) {
        Some(ni) => match ni.table_id {
            Some(table_id) => Some(Some(table_id)),
            // The VRF device is not known yet.
            None => None,
        },
        // The network instance is not configured.
        None => None,
    }
}

pub open spec fn special_kind(special: Option<NexthopSpecial>) -> RouteKind {
    match special {
        Some(NexthopSpecial::Blackhole) => RouteKind::Blackhole,
        Some(NexthopSpecial::Unreachable) => RouteKind::Unreachable,
        Some(NexthopSpecial::Prohibit) => RouteKind::Prohibit,
        None => RouteKind::Unicast,
    }
}

/// Whether a message installs a static route.
pub open spec fn installs_static(
    msg: RouteMsg,
    m: Master,
    key: ((Protocol, Seq<char>, Seq<char>), IpNetwork),
) -> bool {
    let route = m.static_routes@[key];
    &&& msg.protocol == Protocol::STATIC
    &&& msg.kind == special_kind(route.nexthop_special)
    &&& Some(msg.table_id) == static_table(m, key.0.2)
    &&& msg.prefix == key.1
    &&& msg.distance == 1
    &&& msg.metric == 0
    &&& msg.tag is None
    &&& msg.opaque_attrs == RouteOpaqueAttrs::Empty
    &&& nexthop_models(msg.nexthops@) == static_nexthop_models(static_nexthops(m.interfaces, route))
}

/// Whether a static route can be installed: it is configured, and its table is
/// known.
pub open spec fn static_ready(m: Master, key: ((Protocol, Seq<char>, Seq<char>), IpNetwork)) -> bool {
    static_table(m, key.0.2) is Some && m.static_routes@.contains_key(key)
}

/// The message that installs a static route, if it can be installed.
pub fn static_route_install(master: &Master, route_key: &StaticRouteKey) -> (r: Option<RouteMsg>)
    requires
        master.wf(),
    ensures
        r is Some <==> static_ready(*master, route_key@),
        r matches Some(msg) ==> installs_static(msg, *master, route_key@),
{
    let table_id = match static_route_table_id(master, route_key) {
        Some(table_id) => table_id,
        None => {
            return None;
        },
    };
    let route = match master.static_routes.get(route_key) {
        Some(route) => route,
        None => {
            return None;
        },
    };
    let kind = match route.nexthop_special {
        Some(NexthopSpecial::Blackhole) => RouteKind::Blackhole,
        Some(NexthopSpecial::Unreachable) => RouteKind::Unreachable,
        Some(NexthopSpecial::Prohibit) => RouteKind::Prohibit,
        None => RouteKind::Unicast,
    };
    let nexthops = to_nexthops(&collect_nexthops(&master.interfaces, route));
    Some(
        RouteMsg {
            protocol: Protocol::STATIC,
            kind,
            table_id,
            prefix: route_key.prefix,
            distance: 1,
            metric: 0,
            tag: None,
            opaque_attrs: RouteOpaqueAttrs::Empty,
            nexthops: Arc::new(nexthops),
        },
    )
}

/// Whether a network instance imports VPN routes.
pub open spec fn importing(ni: NetworkInstance) -> bool {
    ni.enabled && ni.import_rts@ != Set::<RouteTarget>::empty()
}

/// Whether `imports` holds the importing network instances, with their tables
/// and route targets.
pub open spec fn imports_match(imports: Map<Seq<char>, VpnImport>, nis: Map<Seq<char>, NetworkInstance>) -> bool {
    &&& forall|n: Seq<char>| #[trigger] imports.contains_key(n) <==> nis.contains_key(n) && importing(nis[n])
    &&& forall|n: Seq<char>| #[trigger]
        imports.contains_key(n) ==> imports[n].table_id == nis[n].table_id && imports[n].import_rts@
            == nis[n].import_rts@ && imports[n].import_rts.wf()
}

/// The importing network instances.
fn collect_imports(nis: &SortedMap<String, NetworkInstance>) -> (r: SortedMap<String, VpnImport>)
    requires
        network_instances_wf(*nis),
    ensures
        r.wf(),
        imports_match(r@, nis@),
{
    let mut r: SortedMap<String, VpnImport> = SortedMap::new();
    let ghost entries = nis.entries@;
    let mut i: usize = 0;
    while i < nis.entries.len()
        invariant
            network_instances_wf(*nis),
            entries == nis.entries@,
            i <= entries.len(),
            r.wf(),
            forall|n: Seq<char>| #[trigger]
                r@.contains_key(n) <==> exists|j: int|
                    0 <= j < i && (#[trigger] entries[j]).0@ == n && importing(entries[j].1),
            forall|j: int|
                0 <= j < i && importing((#[trigger] entries[j]).1) ==> r@[entries[j].0@].table_id
                    == entries[j].1.table_id && r@[entries[j].0@].import_rts@ == entries[j].1.import_rts@
                    && r@[entries[j].0@].import_rts.wf(),
        decreases entries.len() - i,
    {
        let ni = &nis.entries[i].1;
        let ghost before = r@;
        let ghost name = entries[i as int].0@;
        proof {
            entries_map_get(entries, i as int);
            assert(nis@.contains_key(name));
        }
        if ni.enabled && !ni.import_rts.is_empty() {
            r.insert(
                nis.entries[i].0.clone(),
                VpnImport { table_id: ni.table_id, import_rts: ni.import_rts.duplicate() },
            );
        }
        proof {
            assert forall|n: Seq<char>| #[trigger] r@.contains_key(n) <==> exists|j: int|
                0 <= j < i + 1 && (#[trigger] entries[j]).0@ == n && importing(entries[j].1) by {
                if before.contains_key(n) {
                    let j = choose|j: int|
                        0 <= j < i && (#[trigger] entries[j]).0@ == n && importing(entries[j].1);
                    assert(entries[j].0@ == n);
                } else if r@.contains_key(n) {
                    assert(entries[i as int].0@ == n);
                }
                if exists|j: int| 0 <= j < i + 1 && (#[trigger] entries[j]).0@ == n && importing(entries[j].1) {
                    let j = choose|j: int|
                        0 <= j < i + 1 && (#[trigger] entries[j]).0@ == n && importing(entries[j].1);
                    if j < i {
                        assert(before.contains_key(n));
                    }
                }
            }
            assert forall|j: int| 0 <= j < i + 1 && importing((#[trigger] entries[j]).1) implies r@[entries[j].0@].table_id
                == entries[j].1.table_id && r@[entries[j].0@].import_rts@ == entries[j].1.import_rts@
                && r@[entries[j].0@].import_rts.wf() by {
                if j < i {
                    assert(String::before(entries[j].0@, entries[i as int].0@));
                    String::irreflexive(name);
                    assert(before.contains_key(entries[j].0@));
                }
            }
        }
        i += 1;
    }
    proof {
        assert forall|n: Seq<char>| #[trigger] r@.contains_key(n) <==> nis@.contains_key(n) && importing(nis@[n]) by {
            if r@.contains_key(n) {
                let j = choose|j: int| 0 <= j < i && (#[trigger] entries[j]).0@ == n && importing(entries[j].1);
                entries_map_get(entries, j);
            }
            if nis@.contains_key(n) && importing(nis@[n]) {
                let j = choose|j: int| 0 <= j < entries.len() && (#[trigger] entries[j]).0@ == n;
                entries_map_get(entries, j);
                assert(importing(entries[j].1));
            }
        }
        assert forall|n: Seq<char>| #[trigger] r@.contains_key(n) implies r@[n].table_id == nis@[n].table_id
            && r@[n].import_rts@ == nis@[n].import_rts@ && r@[n].import_rts.wf() by {
            let j = choose|j: int| 0 <= j < i && (#[trigger] entries[j]).0@ == n && importing(entries[j].1);
            entries_map_get(entries, j);
        }
    }
    r
}

/// The state but for what the protocol instances are told of VPN imports.
pub open spec fn same_but_imports(m: Master, n: Master) -> bool {
    n == (Master { shared: MasterShared { vpn_imports: n.shared.vpn_imports, ..m.shared }, ..m })
}

/// Brings what the protocol instances know of VPN imports up to date.
pub fn vpn_imports_update(master: &mut Master)
    requires
        old(master).wf(),
    ensures
        final(master).wf(),
        same_but_imports(*old(master), *final(master)),
        imports_match(final(master).shared.vpn_imports@, old(master).network_instances@),
{
    master.shared.vpn_imports = collect_imports(&master.network_instances);
}

/// Creates a network instance. Its table is known if the VRF device with its
/// name is.
pub fn network_instance_create(master: &mut Master, name: String)
    requires
        old(master).wf(),
    ensures
        final(master).wf(),
        final(master).network_instances@.contains_key(name@),
        final(master).network_instances@ == old(master).network_instances@.insert(
            name@,
            final(master).network_instances@[name@],
        ),
        ({
            let ni = final(master).network_instances@[name@];
            &&& ni.enabled
            &&& ni.description is None
            &&& ni.import_rts@ == Set::<RouteTarget>::empty()
            &&& ni.table_id == old(master).interfaces.vrf_table_spec(name@)
        }),
        imports_match(final(master).shared.vpn_imports@, final(master).network_instances@),
        *final(master) == (Master {
            network_instances: final(master).network_instances,
            shared: MasterShared { vpn_imports: final(master).shared.vpn_imports, ..old(master).shared },
            ..*old(master)
        }),
{
    let table_id = master.interfaces.vrf_table_id(&name);
    master.network_instances.insert(
        name,
        NetworkInstance { enabled: true, description: None, import_rts: SortedSet::new(), table_id },
    );
    vpn_imports_update(master);
}

/// The position of the first instance of a protocol with a name.
pub open spec fn instance_index(entries: Seq<(InstanceId, InstanceHandle)>, protocol: Protocol, name: Seq<char>) -> int
    decreases entries.len(),
{
    if entries.len() == 0 {
        -1
    } else {
        let i = instance_index(entries.drop_last(), protocol, name);
        if i >= 0 {
            i
        } else if entries.last().0.protocol == protocol && entries.last().0.name@ == name {
            entries.len() - 1
        } else {
            -1
        }
    }
}

/// The instances without the one that is to be removed: the one with the
/// identity, or else the first with its protocol and name.
pub open spec fn instance_removed(
    instances: SortedMap<InstanceId, InstanceHandle>,
    id: (Protocol, Seq<char>, Seq<char>),
) -> Map<(Protocol, Seq<char>, Seq<char>), InstanceHandle> {
    let i = instance_index(instances.entries@, id.0, id.1);
    if instances@.contains_key(id) {
        instances@.remove(id)
    } else if i >= 0 {
        instances@.remove(instances.entries@[i].0@)
    } else {
        instances@
    }
}

/// Forgets a protocol instance.
pub fn remove_instance(master: &mut Master, instance_id: &InstanceId)
    requires
        old(master).wf(),
    ensures
        final(master).wf(),
        final(master).instances@ == instance_removed(old(master).instances, instance_id@),
        *final(master) == (Master { instances: final(master).instances, ..*old(master) }),
{
    if master.instances.contains_key(instance_id) {
        let _ = master.instances.remove(instance_id);
        return;
    }
    let ghost entries = master.instances.entries@;
    let mut i: usize = 0;
    assert(entries.take(0) =~= Seq::<(InstanceId, InstanceHandle)>::empty());
    while i < master.instances.entries.len()
        invariant
            *master == *old(master),
            master.wf(),
            !master.instances@.contains_key(instance_id@),
            entries == master.instances.entries@,
            i <= entries.len(),
            instance_index(entries.take(i as int), instance_id.protocol, instance_id.name@) < 0,
        decreases entries.len() - i,
    {
        proof {
            assert(entries.take(i + 1).drop_last() =~= entries.take(i as int));
            assert(entries.take(i + 1).last() == entries[i as int]);
        }
        let key = &master.instances.entries[i].0;
        if key.protocol == instance_id.protocol && key.name.same(&instance_id.name) {
            let key = key.duplicate();
            proof {
                first_instance_stays(entries, i + 1, instance_id.protocol, instance_id.name@);
            }
            let _ = master.instances.remove(&key);
            return;
        }
        i += 1;
    }
    assert(entries.take(i as int) =~= entries);
}

proof fn first_instance_stays(
    entries: Seq<(InstanceId, InstanceHandle)>,
    n: int,
    protocol: Protocol,
    name: Seq<char>,
)
    requires
        0 <= n <= entries.len(),
        instance_index(entries.take(n), protocol, name) >= 0,
    ensures
        instance_index(entries, protocol, name) == instance_index(entries.take(n), protocol, name),
    decreases entries.len() - n,
{
    if n < entries.len() {
        assert(entries.take(n + 1).drop_last() =~= entries.take(n));
        first_instance_stays(entries, n + 1, protocol, name);
    } else {
        assert(entries.take(n) =~= entries);
    }
}

/// Whether a protocol runs as an instance that is started on demand.
pub open spec fn is_started(protocol: Protocol) -> bool {
    match protocol {
        Protocol::BGP
        | Protocol::IGMP
        | Protocol::ISIS
        | Protocol::LDP
        | Protocol::OSPFV2
        | Protocol::OSPFV3
        | Protocol::RIPV2
        | Protocol::RIPNG => true,
        Protocol::BFD | Protocol::DIRECT | Protocol::STATIC => false,
    }
}

/// The identity of the protocol instance to be started, if its protocol runs
/// as one. BFD runs permanently, and static routes need no instance.
pub fn instance_start(protocol: Protocol, name: String, network_instance: String) -> (r: Option<InstanceId>)
    requires
        protocol != Protocol::DIRECT,
    ensures
        r is Some <==> is_started(protocol),
        r matches Some(id) ==> id == (InstanceId { protocol, name, network_instance }),
{
    match protocol {
        Protocol::BGP
        | Protocol::IGMP
        | Protocol::ISIS
        | Protocol::LDP
        | Protocol::OSPFV2
        | Protocol::OSPFV3
        | Protocol::RIPV2
        | Protocol::RIPNG => Some(InstanceId::new_with_network_instance(protocol, name, network_instance)),
        _ => None,
    }
}

/// Keeps track of a protocol instance that was started.
pub fn instance_started(master: &mut Master, instance_id: InstanceId, handle: InstanceHandle)
    requires
        old(master).wf(),
    ensures
        final(master).wf(),
        final(master).instances@ == old(master).instances@.insert(instance_id@, handle),
        *final(master) == (Master { instances: final(master).instances, ..*old(master) }),
{
    master.instances.insert(instance_id, handle);
}

}
