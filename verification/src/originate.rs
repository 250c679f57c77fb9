//! Default routes for neighbors, and route reflection.
use crate::af::AddressFamily;
use crate::attribute::default_attrs;
use crate::attribute::Attrs;
use crate::attribute::AttrsModel;
use crate::bgp::AfiSafi;
use crate::bgp::Origin;
use crate::bgp::RouteType;
use crate::events::neighbors_wf;
use crate::ip::IpAddr;
use crate::ip::IpNetwork;
use crate::ip::Ipv4Addr;
use crate::ip::Ipv4Network;
use crate::ip::Ipv6Addr;
use crate::ip::Ipv6Network;
use crate::neighbor::Neighbor;
use crate::neighbor::Neighbors;
use crate::ord::entries_map_get;
use crate::ord::SortedSet;
use crate::protocol::Protocol;
use crate::rib::dest_at;
use crate::rib::same_route;
use crate::rib::with_dest;
use crate::rib::with_queued;
use crate::rib::DestModel;
use crate::rib::Route;
use crate::rib::RouteOrigin;
use crate::rib::RoutingTable;
use crate::rib::TableModel;
use vstd::prelude::*;

verus! {

/// The prefix that matches every address of a family.
pub open spec fn default_prefix<A: AddressFamily>() -> Option<A::Prefix> {
    match A::afi_safi_spec() {
        AfiSafi::Ipv4Unicast => A::from_ip_network_spec(
            IpNetwork::V4(Ipv4Network { addr: Ipv4Addr { bits: 0 }, prefix: 0 }),
        ),
        AfiSafi::Ipv6Unicast => A::from_ip_network_spec(
            IpNetwork::V6(Ipv6Network { addr: Ipv6Addr { bits: 0 }, prefix: 0 }),
        ),
        _ => None,
    }
}

pub fn default_originate_prefix<A: AddressFamily>() -> (r: Option<A::Prefix>)
    ensures
        r == default_prefix::<A>(),
{
    match A::afi_safi() {
        AfiSafi::Ipv4Unicast => A::prefix_from_ip_network(
            IpNetwork::V4(Ipv4Network { addr: Ipv4Addr { bits: 0 }, prefix: 0 }),
        ),
        AfiSafi::Ipv6Unicast => A::prefix_from_ip_network(
            IpNetwork::V6(Ipv6Network { addr: Ipv6Addr { bits: 0 }, prefix: 0 }),
        ),
        _ => None,
    }
}

/// Whether a default route is to be sent to a neighbor.
pub fn default_originate_neighbor_enabled<A: AddressFamily>(nbr: &Neighbor) -> (r: bool)
    requires
        nbr.wf(),
    ensures
        r == nbr.sends_default(A::afi_safi_spec()),
{
    match nbr.config.afi_safi.get(&A::afi_safi()) {
        Some(cfg) => cfg.enabled && (match cfg.send_default_route {
            Some(send) => send,
            None => false,
        }),
        None => false,
    }
}

/// Whether a route is the default route that this router originates.
pub open spec fn is_default_route(route: Route) -> bool {
    &&& route.origin == RouteOrigin::Protocol(Protocol::BGP)
    &&& route.attrs@ == (AttrsModel { origin: Origin::Igp, ..default_attrs() })
    &&& route.route_type == RouteType::Internal
    &&& route.vpn_label is None
    &&& route.igp_cost is None
}

/// The table with a default route that this router originates; the prefix is
/// queued unless the route was there before.
pub open spec fn default_ensured<P>(t: TableModel<P>, p: P, route: Route) -> TableModel<P> {
    let u = with_dest(t, p, DestModel { redistribute: Some(route), ..dest_at(t, p) });
    if dest_at(t, p).redistribute matches Some(old) && same_route(old, route) {
        u
    } else {
        with_queued(u, p)
    }
}

/// Puts the default route that this router originates into the table.
pub fn ensure_default_originate_route<A: AddressFamily>(table: &mut RoutingTable<A::Prefix>)
    requires
        old(table).wf(),
    ensures
        final(table).wf(),
        final(table).nht == old(table).nht,
        match default_prefix::<A>() {
            Some(p) => exists|route: Route| #[trigger]
                is_default_route(route) && final(table)@ == default_ensured(old(table)@, p, route),
            None => *final(table) == *old(table),
        },
{
    let prefix = match default_originate_prefix::<A>() {
        Some(prefix) => prefix,
        None => {
            return;
        },
    };
    let mut attrs = Attrs::default();
    attrs.base.origin = Origin::Igp;
    let route = Route::new(RouteOrigin::Protocol(Protocol::BGP), attrs, RouteType::Internal);
    assert(is_default_route(route));
    let dest = table.dest_mut(prefix);
    let update_needed = match &dest.redistribute {
        Some(old_route) => !old_route.same(&route),
        None => true,
    };
    let ghost r = route;
    dest.redistribute = Some(route);
    if update_needed {
        table.queue(prefix);
    }
    assert(table@ == default_ensured(old(table)@, prefix, r));
}

/// Whether a default route is to be sent to some neighbor.
pub open spec fn default_wanted(neighbors: Neighbors, afi_safi: AfiSafi) -> bool {
    exists|a: IpAddr| #[trigger] neighbors@.contains_key(a) && neighbors@[a].sends_default(afi_safi)
}

/// Whether a default route is originated exactly while it is to be sent to some
/// neighbor, and its prefix was queued if that changed anything.
pub open spec fn default_synced<A: AddressFamily>(
    before: TableModel<A::Prefix>,
    after: TableModel<A::Prefix>,
    neighbors: Neighbors,
) -> bool {
    match default_prefix::<A>() {
        Some(p) => if default_wanted(neighbors, A::afi_safi_spec()) {
            exists|route: Route| #[trigger]
                is_default_route(route) && after == default_ensured(before, p, route)
        } else if dest_at(before, p).redistribute is Some {
            after == with_queued(with_dest(before, p, DestModel { redistribute: None, ..dest_at(before, p) }), p)
        } else {
            after == before
        },
        None => after == before,
    }
}

/// Originates a default route while it is to be sent to some neighbor, and
/// removes it otherwise.
pub fn sync_default_originate<A: AddressFamily>(table: &mut RoutingTable<A::Prefix>, neighbors: &Neighbors)
    requires
        old(table).wf(),
        neighbors_wf(*neighbors),
    ensures
        final(table).wf(),
        final(table).nht == old(table).nht,
        default_synced::<A>(old(table)@, final(table)@, *neighbors),
{
    let prefix = match default_originate_prefix::<A>() {
        Some(prefix) => prefix,
        None => {
            return;
        },
    };
    let mut enabled = false;
    let ghost entries = neighbors.entries@;
    let mut i: usize = 0;
    while i < neighbors.entries.len()
        invariant
            neighbors_wf(*neighbors),
            entries == neighbors.entries@,
            i <= entries.len(),
            enabled == exists|j: int| 0 <= j < i && (#[trigger] entries[j]).1.sends_default(A::afi_safi_spec()),
        decreases entries.len() - i,
    {
        proof {
            entries_map_get(entries, i as int);
            assert(neighbors@.contains_key(entries[i as int].0@));
        }
        if default_originate_neighbor_enabled::<A>(&neighbors.entries[i].1) {
            enabled = true;
            assert(entries[i as int].1.sends_default(A::afi_safi_spec()));
        }
        i += 1;
    }
    proof {
        if enabled {
            let j = choose|j: int| 0 <= j < i && (#[trigger] entries[j]).1.sends_default(A::afi_safi_spec());
            entries_map_get(entries, j);
            assert(neighbors@.contains_key(entries[j].0@));
        }
        if default_wanted(*neighbors, A::afi_safi_spec()) {
            let a = choose|a: IpAddr| #[trigger]
                neighbors@.contains_key(a) && neighbors@[a].sends_default(A::afi_safi_spec());
            let j = choose|j: int| 0 <= j < entries.len() && (#[trigger] entries[j]).0@ == a;
            entries_map_get(entries, j);
            assert(entries[j].1.sends_default(A::afi_safi_spec()));
        }
    }
    if enabled {
        ensure_default_originate_route::<A>(table);
    } else {
        let mut removed = false;
        if let Some(dest) = table.dest_get_mut(prefix) {
            removed = dest.redistribute.is_some();
            dest.redistribute = None;
        }
        proof {
            if !removed {
                assert(table@.prefixes =~= old(table)@.prefixes);
            }
        }
        if removed {
            table.queue(prefix);
        }
    }
}

/// Whether the neighbor that sent a route is a client of this route reflector;
/// nothing if no known neighbor sent it.
pub open spec fn rr_client_of(route: Route, neighbors: Neighbors) -> Option<bool> {
    match route.origin {
        RouteOrigin::Neighbor { remote_addr, .. } => if neighbors@.contains_key(remote_addr) {
            Some(neighbors@[remote_addr].config.route_reflector.client)
        } else {
            None
        },
        RouteOrigin::Protocol(_) => None,
    }
}

pub fn source_rr_client(route: &Route, neighbors: &Neighbors) -> (r: Option<bool>)
    requires
        neighbors.wf(),
    ensures
        r == rr_client_of(*route, *neighbors),
{
    match route.origin {
        RouteOrigin::Neighbor { remote_addr, .. } => match neighbors.get(&remote_addr) {
            Some(nbr) => Some(nbr.config.route_reflector.client),
            None => None,
        },
        RouteOrigin::Protocol(_) => None,
    }
}

/// The cluster identifier that is used with a neighbor: its own, or that of the
/// router.
pub open spec fn cluster_id_of(nbr: Neighbor, identifier: Option<Ipv4Addr>) -> Option<Ipv4Addr> {
    match nbr.config.route_reflector.cluster_id {
        Some(id) => Some(id),
        None => identifier,
    }
}

/// The cluster identifiers that this route reflector uses with its clients.
pub fn local_cluster_ids(identifier: Option<Ipv4Addr>, neighbors: &Neighbors) -> (r: SortedSet<Ipv4Addr>)
    requires
        neighbors_wf(*neighbors),
    ensures
        r.wf(),
        forall|id: Ipv4Addr| #[trigger]
            r@.contains(id) <==> exists|a: IpAddr| #[trigger]
                neighbors@.contains_key(a) && neighbors@[a].config.route_reflector.client && cluster_id_of(
                    neighbors@[a],
                    identifier,
                ) == Some(id),
{
    let mut r: SortedSet<Ipv4Addr> = SortedSet::new();
    let ghost entries = neighbors.entries@;
    let mut i: usize = 0;
    while i < neighbors.entries.len()
        invariant
            neighbors_wf(*neighbors),
            entries == neighbors.entries@,
            i <= entries.len(),
            r.wf(),
            forall|id: Ipv4Addr| #[trigger]
                r@.contains(id) <==> exists|j: int|
                    0 <= j < i && (#[trigger] entries[j]).1.config.route_reflector.client && cluster_id_of(
                        entries[j].1,
                        identifier,
                    ) == Some(id),
        decreases entries.len() - i,
    {
        let nbr = &neighbors.entries[i].1;
        let ghost before = r@;
        let cluster_id = match nbr.config.route_reflector.cluster_id {
            Some(id) => Some(id),
            None => identifier,
        };
        if nbr.config.route_reflector.client {
            if let Some(id) = cluster_id {
                r.insert(id);
            }
        }
        proof {
            assert forall|id: Ipv4Addr| #[trigger] r@.contains(id) <==> exists|j: int|
                0 <= j < i + 1 && (#[trigger] entries[j]).1.config.route_reflector.client && cluster_id_of(
                    entries[j].1,
                    identifier,
                ) == Some(id) by {
                if before.contains(id) {
                    let j = choose|j: int|
                        0 <= j < i && (#[trigger] entries[j]).1.config.route_reflector.client && cluster_id_of(
                            entries[j].1,
                            identifier,
                        ) == Some(id);
                    assert(entries[j].1.config.route_reflector.client);
                } else if r@.contains(id) {
                    assert(entries[i as int].1.config.route_reflector.client);
                }
                if exists|j: int|
                    0 <= j < i + 1 && (#[trigger] entries[j]).1.config.route_reflector.client && cluster_id_of(
                        entries[j].1,
                        identifier,
                    ) == Some(id) {
                    let j = choose|j: int|
                        0 <= j < i + 1 && (#[trigger] entries[j]).1.config.route_reflector.client && cluster_id_of(
                            entries[j].1,
                            identifier,
                        ) == Some(id);
                    if j < i {
                        assert(before.contains(id));
                    }
                }
            }
        }
        i += 1;
    }
    proof {
        assert forall|id: Ipv4Addr| #[trigger] r@.contains(id) <==> exists|a: IpAddr| #[trigger]
            neighbors@.contains_key(a) && neighbors@[a].config.route_reflector.client && cluster_id_of(
                neighbors@[a],
                identifier,
            ) == Some(id) by {
            if r@.contains(id) {
                let j = choose|j: int|
                    0 <= j < i && (#[trigger] entries[j]).1.config.route_reflector.client && cluster_id_of(
                        entries[j].1,
                        identifier,
                    ) == Some(id);
                entries_map_get(entries, j);
                assert(neighbors@.contains_key(entries[j].0@));
            }
            if exists|a: IpAddr| #[trigger]
                neighbors@.contains_key(a) && neighbors@[a].config.route_reflector.client && cluster_id_of(
                    neighbors@[a],
                    identifier,
                ) == Some(id) {
                let a = choose|a: IpAddr| #[trigger]
                    neighbors@.contains_key(a) && neighbors@[a].config.route_reflector.client && cluster_id_of(
                        neighbors@[a],
                        identifier,
                    ) == Some(id);
                let j = choose|j: int| 0 <= j < entries.len() && (#[trigger] entries[j]).0@ == a;
                entries_map_get(entries, j);
                assert(entries[j].1.config.route_reflector.client);
            }
        }
    }
    r
}

/// Originating the default route a second time does not queue its prefix
/// again.
pub proof fn default_is_queued_once<P>(t: TableModel<P>, p: P, first: Route, second: Route)
    requires
        is_default_route(first),
        is_default_route(second),
    ensures
        default_ensured(default_ensured(t, p, first), p, second).queued == default_ensured(t, p, first).queued,
{
}

}
