//! Routes and the routing information bases that hold them.
use crate::af::Vpnv4Prefix;
use crate::af::Vpnv6Prefix;
use crate::attribute::Attrs;
use crate::bgp::RouteType;
use crate::ip::IpAddr;
use crate::ip::Ipv4Addr;
use crate::ip::Ipv4Network;
use crate::ip::Ipv6Network;
use crate::message::EvpnRoute;
use crate::ord::entries_map_get;
use crate::ord::in_order;
use crate::ord::keys_in_order;
use crate::ord::lists;
use crate::ord::Key;
use crate::ord::Ranked;
use crate::ord::SortedMap;
use crate::ord::SortedSet;
use crate::path::Path;
use crate::path::PeerPath;
use crate::policy::RoutePolicyInfo;
use crate::protocol::Label;
use crate::protocol::Protocol;
use std::sync::Arc;
use vstd::prelude::*;

verus! {

/// Where a route was learned.
#[derive(Clone, Copy, Debug, PartialEq, Eq, Structural)]
pub enum RouteOrigin {
    /// From a neighbor.
    Neighbor { identifier: Ipv4Addr, remote_addr: IpAddr },
    /// From another protocol of this router.
    Protocol(Protocol),
}

#[derive(Clone, Copy, Debug, PartialEq, Eq, Structural)]
pub enum RouteRejectReason {
    EvpnMacMobilityLowerSequence,
    EvpnMacMobilitySticky,
}

/// How a route compares with the best one so far, and why the loser lost.
#[derive(Clone, Copy, Debug, PartialEq, Eq, Structural)]
pub enum RouteCompare {
    Preferred(RouteRejectReason),
    LessPreferred(RouteRejectReason),
}

/// A BGP route.
pub struct Route {
    pub origin: RouteOrigin,
    pub attrs: Attrs,
    pub route_type: RouteType,
    pub vpn_label: Option<Label>,
    pub igp_cost: Option<u32>,
}

/// Whether two routes say the same.
pub open spec fn same_route(a: Route, b: Route) -> bool {
    a.origin == b.origin && a.attrs@ == b.attrs@ && a.route_type == b.route_type && a.vpn_label == b.vpn_label
        && a.igp_cost == b.igp_cost
}

impl Route {
    pub open spec fn wf(&self) -> bool {
        self.attrs.wf()
    }

    pub open spec fn new_spec(origin: RouteOrigin, attrs: Attrs, route_type: RouteType) -> Route {
        Route { origin, attrs, route_type, vpn_label: None, igp_cost: None }
    }

    pub fn new(origin: RouteOrigin, attrs: Attrs, route_type: RouteType) -> (r: Self)
        ensures
            r == Route::new_spec(origin, attrs, route_type),
    {
        Route { origin, attrs, route_type, vpn_label: None, igp_cost: None }
    }

    /// What routing policies see of the route.
    pub open spec fn policy_info_spec(self) -> RoutePolicyInfo {
        RoutePolicyInfo {
            origin: self.origin,
            route_type: self.route_type,
            tag: None,
            opaque_attrs: None,
            attrs: self.attrs,
        }
    }

    pub fn policy_info(&self) -> (r: RoutePolicyInfo)
        ensures
            r == self.policy_info_spec(),
    {
        RoutePolicyInfo::new(self.origin, self.route_type, None, None, self.attrs.duplicate())
    }

    /// Another handle on the same route.
    pub fn duplicate(&self) -> (r: Self)
        ensures
            r == *self,
    {
        Route {
            origin: self.origin,
            attrs: self.attrs.duplicate(),
            route_type: self.route_type,
            vpn_label: self.vpn_label,
            igp_cost: self.igp_cost,
        }
    }

    /// Whether two routes say the same.
    pub fn same(&self, other: &Self) -> (r: bool)
        requires
            self.wf(),
            other.wf(),
        ensures
            r == same_route(*self, *other),
    {
        self.origin == other.origin && self.attrs.same(&other.attrs) && self.route_type == other.route_type && (match (
            self.vpn_label,
            other.vpn_label,
        ) {
            (Some(a), Some(b)) => a == b,
            (None, None) => true,
            _ => false,
        }) && (match (self.igp_cost, other.igp_cost) {
            (Some(a), Some(b)) => a == b,
            (None, None) => true,
            _ => false,
        })
    }
}

/// The routes exchanged with one neighbor for a destination, before and after
/// policies are applied.
pub struct AdjRib {
    pub in_pre: Option<Route>,
    pub in_post: Option<Route>,
    pub out_pre: Option<Route>,
    pub out_post: Option<Route>,
}

/// The route that was selected for a destination.
pub struct LocalRoute {
    pub origin: RouteOrigin,
    pub attrs: Attrs,
    pub route_type: RouteType,
    pub nexthops: Option<SortedSet<IpAddr>>,
    /// The label of the route in this router.
    pub label: Option<Label>,
    /// The label that the next hops expect.
    pub nexthop_label: Option<Label>,
}

impl LocalRoute {
    pub open spec fn wf(&self) -> bool {
        self.attrs.wf() && (self.nexthops matches Some(s) ==> s.wf())
    }
}

/// What is known of a destination. The routes of neighbors are kept by path.
pub struct Destination {
    pub local: Option<Arc<LocalRoute>>,
    pub adj_rib: SortedMap<PeerPath, AdjRib>,
    pub redistribute: Option<Route>,
}

/// A next hop that is tracked: its metric, if it is reachable, and the
/// prefixes that depend on it.
pub struct NhtEntry<P> {
    pub metric: Option<u32>,
    pub prefixes: SortedMap<P, u32>,
}

/// The routing table of an address family.
pub struct RoutingTable<P> {
    pub prefixes: SortedMap<P, Destination>,
    pub queued_prefixes: SortedSet<P>,
    pub nht: SortedMap<IpAddr, NhtEntry<P>>,
}

/// A change to the tracking of next hops: a prefix starts or stops to depend
/// on the next hop of a route.
pub enum NexthopOp<P> {
    Track { prefix: P, route: Route },
    Untrack { prefix: P, route: Route },
}

/// A destination as a mathematical value.
pub struct DestModel {
    pub local: Option<Arc<LocalRoute>>,
    pub adj_rib: Map<PeerPath, AdjRib>,
    pub redistribute: Option<Route>,
}

/// A routing table as a mathematical value, next hop tracking aside.
#[verifier::reject_recursive_types(P)]
pub struct TableModel<P> {
    pub prefixes: Map<P, DestModel>,
    pub queued: Set<P>,
}

/// An adjacent RIB without routes.
pub open spec fn empty_adj_rib() -> AdjRib {
    AdjRib { in_pre: None, in_post: None, out_pre: None, out_post: None }
}

/// A destination of which nothing is known.
pub open spec fn empty_dest() -> DestModel {
    DestModel { local: None, adj_rib: Map::empty(), redistribute: None }
}

pub open spec fn opt_route_wf(r: Option<Route>) -> bool {
    r matches Some(x) ==> x.wf()
}

impl AdjRib {
    pub open spec fn wf(&self) -> bool {
        opt_route_wf(self.in_pre) && opt_route_wf(self.in_post) && opt_route_wf(self.out_pre) && opt_route_wf(
            self.out_post,
        )
    }

    pub fn new() -> (r: Self)
        ensures
            r == empty_adj_rib(),
            r.wf(),
    {
        AdjRib { in_pre: None, in_post: None, out_pre: None, out_post: None }
    }

    /// Whether no route is left.
    pub open spec fn is_empty_spec(&self) -> bool {
        self.in_pre is None && self.in_post is None && self.out_pre is None && self.out_post is None
    }

    pub fn is_empty(&self) -> (r: bool)
        ensures
            r == self.is_empty_spec(),
    {
        self.in_pre.is_none() && self.in_post.is_none() && self.out_pre.is_none() && self.out_post.is_none()
    }
}

impl View for Destination {
    type V = DestModel;

    open spec fn view(&self) -> DestModel {
        DestModel { local: self.local, adj_rib: self.adj_rib@, redistribute: self.redistribute }
    }
}

impl Destination {
    pub open spec fn wf(&self) -> bool {
        &&& self.adj_rib.wf()
        &&& forall|a: PeerPath| #[trigger] self.adj_rib@.contains_key(a) ==> self.adj_rib@[a].wf()
        &&& opt_route_wf(self.redistribute)
    }

    pub fn new() -> (r: Self)
        ensures
            r@ == empty_dest(),
            r.wf(),
    {
        Destination { local: None, adj_rib: SortedMap::new(), redistribute: None }
    }
}

/// Destinations as mathematical values.
pub open spec fn dest_models<P>(m: Map<P, Destination>) -> Map<P, DestModel> {
    Map::new(|p: P| m.contains_key(p), |p: P| m[p]@)
}

proof fn dest_models_insert<P>(m: Map<P, Destination>, p: P, d: Destination)
    ensures
        dest_models(m.insert(p, d)) == dest_models(m).insert(p, d@),
{
    assert(dest_models(m.insert(p, d)) =~= dest_models(m).insert(p, d@));
}

impl<P: Ranked> View for RoutingTable<P> {
    type V = TableModel<P>;

    open spec fn view(&self) -> TableModel<P> {
        TableModel {
            prefixes: dest_models(self.prefixes@),
            queued: self.queued_prefixes@,
        }
    }
}

impl<P: Ranked> RoutingTable<P> {
    pub open spec fn wf(&self) -> bool {
        &&& self.prefixes.wf()
        &&& forall|p: P| #[trigger] self.prefixes@.contains_key(p) ==> self.prefixes@[p].wf()
        &&& self.queued_prefixes.wf()
        &&& self.nht.wf()
        &&& forall|a: IpAddr| #[trigger] self.nht@.contains_key(a) ==> self.nht@[a].prefixes.wf()
    }

    /// An empty table.
    pub fn new() -> (r: Self)
        ensures
            r.wf(),
            r@ == (TableModel::<P> { prefixes: Map::empty(), queued: Set::empty() }),
            r.nht@ == Map::<IpAddr, NhtEntry<P>>::empty(),
    {
        let r = RoutingTable {
            prefixes: SortedMap::new(),
            queued_prefixes: SortedSet::new(),
            nht: SortedMap::new(),
        };
        assert(r@.prefixes =~= Map::<P, DestModel>::empty());
        r
    }
}

/// The routing tables of all address families.
pub struct RoutingTables {
    pub ipv4_unicast: RoutingTable<Ipv4Network>,
    pub ipv6_unicast: RoutingTable<Ipv6Network>,
    pub vpnv4_unicast: RoutingTable<Vpnv4Prefix>,
    pub vpnv6_unicast: RoutingTable<Vpnv6Prefix>,
    pub l2vpn_evpn: RoutingTable<EvpnRoute>,
}

/// Whether the next hops that are tracked are the same in every table.
pub open spec fn same_tracking(a: RoutingTables, b: RoutingTables) -> bool {
    &&& a.ipv4_unicast.nht == b.ipv4_unicast.nht
    &&& a.ipv6_unicast.nht == b.ipv6_unicast.nht
    &&& a.vpnv4_unicast.nht == b.vpnv4_unicast.nht
    &&& a.vpnv6_unicast.nht == b.vpnv6_unicast.nht
    &&& a.l2vpn_evpn.nht == b.l2vpn_evpn.nht
}

impl RoutingTables {
    pub open spec fn wf(&self) -> bool {
        self.ipv4_unicast.wf() && self.ipv6_unicast.wf() && self.vpnv4_unicast.wf() && self.vpnv6_unicast.wf()
            && self.l2vpn_evpn.wf()
    }
}

/// What is known of a destination, if anything.
pub open spec fn dest_at<P>(t: TableModel<P>, p: P) -> DestModel {
    if t.prefixes.contains_key(p) {
        t.prefixes[p]
    } else {
        empty_dest()
    }
}

/// The key under which the routes of a neighbor for a path are kept.
pub open spec fn peer_path<P>(path: Path<P>, addr: IpAddr) -> PeerPath {
    PeerPath { addr, path_id: path.path_id }
}

/// Whether routes of a neighbor are kept for a path.
pub open spec fn has_adj<P>(t: TableModel<P>, path: Path<P>, addr: IpAddr) -> bool {
    t.prefixes.contains_key(path.prefix) && t.prefixes[path.prefix].adj_rib.contains_key(peer_path(path, addr))
}

/// The routes of a neighbor for a path.
pub open spec fn adj_at<P>(t: TableModel<P>, path: Path<P>, addr: IpAddr) -> AdjRib {
    if has_adj(t, path, addr) {
        t.prefixes[path.prefix].adj_rib[peer_path(path, addr)]
    } else {
        empty_adj_rib()
    }
}

/// The table with another destination.
pub open spec fn with_dest<P>(t: TableModel<P>, p: P, d: DestModel) -> TableModel<P> {
    TableModel { prefixes: t.prefixes.insert(p, d), ..t }
}

/// The table with other routes of a neighbor for a path.
pub open spec fn with_adj<P>(t: TableModel<P>, path: Path<P>, addr: IpAddr, adj: AdjRib) -> TableModel<P> {
    let d = dest_at(t, path.prefix);
    with_dest(t, path.prefix, DestModel { adj_rib: d.adj_rib.insert(peer_path(path, addr), adj), ..d })
}

/// The table with a destination queued for the decision process.
pub open spec fn with_queued<P>(t: TableModel<P>, p: P) -> TableModel<P> {
    TableModel { queued: t.queued.insert(p), ..t }
}

impl<P: Ranked> RoutingTable<P> {
    /// The destination of a prefix, made if it is not there.
    pub fn dest_mut(&mut self, prefix: P) -> (r: &mut Destination)
        requires
            old(self).wf(),
        ensures
            r@ == dest_at(old(self)@, prefix),
            r.wf(),
            final(self)@ == with_dest(old(self)@, prefix, final(r)@),
            final(r).wf() ==> final(self).wf(),
            final(self).nht == old(self).nht,
    {
        let ghost before = self@;
        proof {
            prefix.view_is_value();
        }
        if !self.prefixes.contains_key(&prefix) {
            self.prefixes.insert(prefix, Destination::new());
        }
        assert(self.wf());
        assert(self.prefixes@[prefix]@ == dest_at(before, prefix));
        let ghost mid = self.prefixes@;
        proof {
            assert(dest_models(mid) =~= before.prefixes.insert(prefix, dest_at(before, prefix)));
            assert forall|d: Destination| #[trigger] dest_models(mid.insert(prefix, d)) == before.prefixes.insert(
                prefix,
                d@,
            ) by {
                dest_models_insert(mid, prefix, d);
                assert(dest_models(mid).insert(prefix, d@) =~= before.prefixes.insert(prefix, d@));
            }
        }
        self.prefixes.get_mut(&prefix).unwrap()
    }

    /// The destination of a prefix, if it is there.
    pub fn dest_get_mut(&mut self, prefix: P) -> (r: Option<&mut Destination>)
        requires
            old(self).wf(),
        ensures
            match r {
                Some(d) => {
                    &&& old(self)@.prefixes.contains_key(prefix)
                    &&& d@ == old(self)@.prefixes[prefix]
                    &&& d.wf()
                    &&& final(self)@ == with_dest(old(self)@, prefix, final(d)@)
                    &&& final(d).wf() ==> final(self).wf()
                    &&& final(self).nht == old(self).nht
                },
                None => !old(self)@.prefixes.contains_key(prefix) && *final(self) == *old(self),
            },
    {
        proof {
            prefix.view_is_value();
        }
        if self.prefixes.contains_key(&prefix) {
            Some(self.dest_mut(prefix))
        } else {
            None
        }
    }

    /// The routes of a neighbor for a path, made if they are not there.
    pub fn adj_mut(&mut self, path: Path<P>, addr: IpAddr) -> (r: &mut AdjRib)
        requires
            old(self).wf(),
        ensures
            *r == adj_at(old(self)@, path, addr),
            r.wf(),
            final(self)@ == with_adj(old(self)@, path, addr, *final(r)),
            final(r).wf() ==> final(self).wf(),
            final(self).nht == old(self).nht,
    {
        let dest = self.dest_mut(path.prefix);
        let key = PeerPath { addr, path_id: path.path_id };
        let ghost before = dest.adj_rib@;
        if !dest.adj_rib.contains_key(&key) {
            dest.adj_rib.insert(key, AdjRib::new());
        }
        let ghost mid = dest.adj_rib@;
        assert forall|a: AdjRib| #[trigger] mid.insert(key, a) == before.insert(key, a) by {
            assert(mid.insert(key, a) =~= before.insert(key, a));
        }
        dest.adj_rib.get_mut(&key).unwrap()
    }

    /// The routes of a neighbor for a path.
    pub fn adj_get(&self, path: Path<P>, addr: IpAddr) -> (r: Option<&AdjRib>)
        requires
            self.wf(),
        ensures
            match r {
                Some(a) => has_adj(self@, path, addr) && *a == adj_at(self@, path, addr) && a.wf(),
                None => !has_adj(self@, path, addr),
            },
    {
        proof {
            path.prefix.view_is_value();
        }
        match self.prefixes.get(&path.prefix) {
            Some(dest) => dest.adj_rib.get(&PeerPath { addr, path_id: path.path_id }),
            None => None,
        }
    }

    /// Queues a prefix for the decision process.
    pub fn queue(&mut self, prefix: P)
        requires
            old(self).wf(),
        ensures
            final(self).wf(),
            final(self)@ == with_queued(old(self)@, prefix),
            final(self).nht == old(self).nht,
    {
        proof {
            prefix.view_is_value();
        }
        self.queued_prefixes.insert(prefix);
    }
}

/// The parts of an adjacent RIB from which routes are listed.
#[derive(Clone, Copy, Debug, PartialEq, Eq, Structural)]
pub enum AdjSide {
    /// What was received.
    InPre,
    /// What was received and accepted.
    InPost,
    /// What is advertised.
    OutPost,
    /// What is advertised, or is to be as soon as policies have decided.
    Out,
}

/// A route of a path of a neighbor.
pub struct PeerRoute<P> {
    pub prefix: P,
    pub peer: PeerPath,
    pub route: Route,
}

/// The route on one side of an adjacent RIB.
pub open spec fn side_route(adj: AdjRib, side: AdjSide) -> Option<Route> {
    match side {
        AdjSide::InPre => adj.in_pre,
        AdjSide::InPost => adj.in_post,
        AdjSide::OutPost => adj.out_post,
        AdjSide::Out => if adj.out_post is Some {
            adj.out_post
        } else {
            adj.out_pre
        },
    }
}

/// Whether paths of a neighbor are asked for: of one only, or of all.
pub open spec fn asked(addr: Option<IpAddr>, peer: PeerPath) -> bool {
    addr is None || addr == Some(peer.addr)
}

/// The routes of a destination for some paths.
pub open spec fn dest_routes<P>(
    p: P,
    adj_rib: Map<PeerPath, AdjRib>,
    peers: Seq<PeerPath>,
    side: AdjSide,
    addr: Option<IpAddr>,
) -> Seq<PeerRoute<P>>
    decreases peers.len(),
{
    if peers.len() == 0 {
        Seq::empty()
    } else {
        let rest = dest_routes(p, adj_rib, peers.drop_last(), side, addr);
        let peer = peers.last();
        match side_route(adj_rib[peer], side) {
            Some(route) => if asked(addr, peer) {
                rest.push(PeerRoute { prefix: p, peer, route })
            } else {
                rest
            },
            None => rest,
        }
    }
}

/// The routes of all paths to a prefix, in order.
pub open spec fn prefix_routes<P>(t: TableModel<P>, p: P, side: AdjSide, addr: Option<IpAddr>) -> Seq<PeerRoute<P>> {
    let adj_rib = dest_at(t, p).adj_rib;
    dest_routes(p, adj_rib, in_order::<PeerPath>(adj_rib.dom()), side, addr)
}

/// The routes of all paths to some prefixes, in order.
pub open spec fn table_routes<P>(t: TableModel<P>, ps: Seq<P>, side: AdjSide, addr: Option<IpAddr>) -> Seq<
    PeerRoute<P>,
>
    decreases ps.len(),
{
    if ps.len() == 0 {
        Seq::empty()
    } else {
        table_routes(t, ps.drop_last(), side, addr) + prefix_routes(t, ps.last(), side, addr)
    }
}

/// The path under which a route is kept.
pub open spec fn route_path<P>(r: PeerRoute<P>) -> Path<P> {
    Path { prefix: r.prefix, path_id: r.peer.path_id }
}

fn side_get(adj: &AdjRib, side: AdjSide) -> (r: Option<&Route>)
    requires
        adj.wf(),
    ensures
        match r {
            Some(route) => side_route(*adj, side) == Some(*route) && route.wf(),
            None => side_route(*adj, side) is None,
        },
{
    match side {
        AdjSide::InPre => adj.in_pre.as_ref(),
        AdjSide::InPost => adj.in_post.as_ref(),
        AdjSide::OutPost => adj.out_post.as_ref(),
        AdjSide::Out => if adj.out_post.is_some() {
            adj.out_post.as_ref()
        } else {
            adj.out_pre.as_ref()
        },
    }
}

/// Adds the routes of a destination to a list.
pub fn list_dest<P: Ranked>(
    prefix: P,
    dest: &Destination,
    side: AdjSide,
    addr: Option<IpAddr>,
    list: &mut Vec<PeerRoute<P>>,
)
    requires
        dest.wf(),
        routes_wf(old(list)@),
    ensures
        final(list)@ == old(list)@ + dest_routes(
            prefix,
            dest@.adj_rib,
            in_order::<PeerPath>(dest@.adj_rib.dom()),
            side,
            addr,
        ),
        routes_wf(final(list)@),
        forall|i: int| old(list)@.len() <= i < final(list)@.len() ==> (#[trigger] final(list)@[i]).prefix == prefix,
{
    let ghost entries = dest.adj_rib.entries@;
    let ghost keys = dest.adj_rib.keys();
    let mut i: usize = 0;
    proof {
        keys_in_order(dest.adj_rib);
        assert(keys.take(0) =~= Seq::<PeerPath>::empty());
        assert(list@ =~= old(list)@ + Seq::<PeerRoute<P>>::empty());
    }
    while i < dest.adj_rib.entries.len()
        invariant
            dest.wf(),
            routes_wf(list@),
            entries == dest.adj_rib.entries@,
            keys == dest.adj_rib.keys(),
            i <= entries.len(),
            list@ == old(list)@ + dest_routes(prefix, dest@.adj_rib, keys.take(i as int), side, addr),
            forall|i: int| old(list)@.len() <= i < list@.len() ==> (#[trigger] list@[i]).prefix == prefix,
        decreases entries.len() - i,
    {
        let peer = dest.adj_rib.entries[i].0;
        proof {
            entries_map_get(entries, i as int);
            assert(dest@.adj_rib.contains_key(peer));
            assert(keys.take(i + 1).drop_last() =~= keys.take(i as int));
            assert(keys.take(i + 1).last() == peer);
        }
        let wanted = match addr {
            Some(addr) => addr == peer.addr,
            None => true,
        };
        let ghost before = list@;
        if let Some(route) = side_get(&dest.adj_rib.entries[i].1, side) {
            if wanted {
                list.push(PeerRoute { prefix, peer, route: route.duplicate() });
                assert(list@ =~= old(list)@ + dest_routes(prefix, dest@.adj_rib, keys.take(i + 1), side, addr));
            }
        }
        i += 1;
    }
    assert(keys.take(i as int) =~= keys);
}

pub open spec fn routes_wf<P>(list: Seq<PeerRoute<P>>) -> bool {
    forall|i: int| 0 <= i < list.len() ==> (#[trigger] list[i]).route.wf()
}

/// Lists the routes of all paths to some prefixes.
pub fn list_routes<P: Ranked>(
    table: &RoutingTable<P>,
    prefixes: &Vec<P>,
    side: AdjSide,
    addr: Option<IpAddr>,
) -> (r: Vec<PeerRoute<P>>)
    requires
        table.wf(),
    ensures
        r@ == table_routes(table@, prefixes@, side, addr),
        routes_wf(r@),
        forall|i: int| 0 <= i < r@.len() ==> table@.prefixes.contains_key((#[trigger] r@[i]).prefix),
{
    let mut r: Vec<PeerRoute<P>> = Vec::new();
    let mut i: usize = 0;
    assert(prefixes@.take(0) =~= Seq::<P>::empty());
    while i < prefixes.len()
        invariant
            table.wf(),
            i <= prefixes@.len(),
            r@ == table_routes(table@, prefixes@.take(i as int), side, addr),
            routes_wf(r@),
            forall|i: int| 0 <= i < r@.len() ==> table@.prefixes.contains_key((#[trigger] r@[i]).prefix),
        decreases prefixes@.len() - i,
    {
        let prefix = prefixes[i];
        let ghost before = r@;
        proof {
            prefix.view_is_value();
            assert(prefixes@.take(i + 1).drop_last() =~= prefixes@.take(i as int));
            assert(prefixes@.take(i + 1).last() == prefix);
        }
        match table.prefixes.get(&prefix) {
            Some(dest) => {
                list_dest(prefix, dest, side, addr, &mut r);
                proof {
                    assert(table@.prefixes.contains_key(prefix));
                    assert forall|i: int| 0 <= i < r@.len() implies table@.prefixes.contains_key(
                        (#[trigger] r@[i]).prefix,
                    ) by {
                        if i < before.len() {
                            assert(r@[i] == before[i]);
                        }
                    }
                }
            },
            None => {
                proof {
                    no_paths_no_routes(table@, prefix, side, addr);
                    assert(r@ =~= before + prefix_routes(table@, prefix, side, addr));
                }
            },
        }
        i += 1;
    }
    assert(prefixes@.take(i as int) =~= prefixes@);
    r
}

proof fn no_paths_no_routes<P>(t: TableModel<P>, p: P, side: AdjSide, addr: Option<IpAddr>)
    requires
        !t.prefixes.contains_key(p),
    ensures
        prefix_routes(t, p, side, addr) == Seq::<PeerRoute<P>>::empty(),
{
    let none = Set::<PeerPath>::empty();
    let listed = in_order::<PeerPath>(none);
    assert(dest_at(t, p).adj_rib.dom() =~= none);
    assert(lists::<PeerPath>(Seq::<PeerPath>::empty(), none));
    assert(lists::<PeerPath>(listed, none));
    if listed.len() > 0 {
        assert(listed.contains(listed[0]));
        assert(none.contains(listed[0]));
    }
    assert(listed =~= Seq::<PeerPath>::empty());
    assert(dest_routes(p, dest_at(t, p).adj_rib, listed, side, addr) =~= Seq::<PeerRoute<P>>::empty());
}

/// The paths under which routes are kept.
pub open spec fn route_paths<P>(list: Seq<PeerRoute<P>>) -> Seq<Path<P>> {
    Seq::new(list.len(), |i: int| route_path(list[i]))
}

/// The paths under which routes are kept.
pub fn to_route_paths<P: Ranked>(list: &Vec<PeerRoute<P>>) -> (r: Vec<Path<P>>)
    ensures
        r@ == route_paths(list@),
{
    let mut r: Vec<Path<P>> = Vec::new();
    let ghost all = route_paths(list@);
    let mut i: usize = 0;
    while i < list.len()
        invariant
            all == route_paths(list@),
            i <= list@.len(),
            r@ == all.take(i as int),
        decreases list@.len() - i,
    {
        r.push(Path { prefix: list[i].prefix, path_id: list[i].peer.path_id });
        assert(all.take(i + 1) =~= all.take(i as int).push(all[i as int]));
        i += 1;
    }
    assert(all.take(i as int) =~= all);
    r
}

/// The prefixes of a table, in order.
pub fn table_prefixes<P: Ranked>(table: &RoutingTable<P>) -> (r: Vec<P>)
    requires
        table.wf(),
    ensures
        r@ == in_order::<P>(table@.prefixes.dom()),
{
    let mut r: Vec<P> = Vec::new();
    let ghost keys = table.prefixes.keys();
    let mut i: usize = 0;
    proof {
        keys_in_order(table.prefixes);
        assert(table.prefixes@.dom() =~= table@.prefixes.dom());
    }
    while i < table.prefixes.entries.len()
        invariant
            keys == table.prefixes.keys(),
            keys.len() == table.prefixes.entries@.len(),
            i <= keys.len(),
            r@ == keys.take(i as int),
        decreases keys.len() - i,
    {
        let prefix = table.prefixes.entries[i].0;
        proof {
            prefix.view_is_value();
            assert(keys.take(i + 1) =~= keys.take(i as int).push(keys[i as int]));
        }
        r.push(prefix);
        i += 1;
    }
    assert(keys.take(i as int) =~= keys);
    r
}

}
