//! Requests of BGP to the routing core.
use crate::ip::IpAddr;
use crate::ip::IpNetwork;
use crate::ord::SortedSet;
use crate::policy::RouteOpaqueAttrs;
use crate::protocol::Label;
use crate::protocol::Protocol;
use crate::protocol::RESERVED_MAX;
use crate::rib::LocalRoute;
use crate::southbound::nexthop_models;
use crate::southbound::LabelInstallMsg;
use crate::southbound::LabelUninstallMsg;
use crate::southbound::Nexthop;
use crate::southbound::NexthopModel;
use crate::southbound::RouteKeyMsg;
use crate::southbound::RouteKind;
use crate::southbound::RouteMsg;
use std::sync::Arc;
use vstd::prelude::*;

verus! {

/// A request to the routing core.
pub enum IbusRequest {
    RouterIdSub,
    RouteIpAdd(RouteMsg),
    RouteIpDel(RouteKeyMsg),
    RouteMplsAdd(LabelInstallMsg),
    RouteMplsDel(LabelUninstallMsg),
    NexthopTrack(IpAddr),
    NexthopUntrack(IpAddr),
}

/// The label stack of a single optional label.
pub open spec fn label_stack(label: Option<Label>) -> Seq<Label> {
    match label {
        Some(l) => seq![l],
        None => Seq::empty(),
    }
}

/// The next hops of a route: each address, to be resolved, with the label.
pub open spec fn recursive_nexthops(nexthops: Option<SortedSet<IpAddr>>, label: Option<Label>) -> Seq<NexthopModel> {
    match nexthops {
        Some(s) => Seq::new(
            s.elems().len(),
            |i: int|
                NexthopModel::Recursive { addr: s.elems()[i], labels: label_stack(label), resolved: Seq::empty() },
        ),
        None => Seq::empty(),
    }
}

/// Asks to be told the router identifier.
pub fn router_id_sub() -> (r: IbusRequest)
    ensures
        r == IbusRequest::RouterIdSub,
{
    IbusRequest::RouterIdSub
}

/// Asks to be told how an address is reached.
pub fn nexthop_track(addr: IpAddr) -> (r: IbusRequest)
    ensures
        r == IbusRequest::NexthopTrack(addr),
{
    IbusRequest::NexthopTrack(addr)
}

/// Asks not to be told any more how an address is reached.
pub fn nexthop_untrack(addr: IpAddr) -> (r: IbusRequest)
    ensures
        r == IbusRequest::NexthopUntrack(addr),
{
    IbusRequest::NexthopUntrack(addr)
}

/// The next hops of a route, in the order of their addresses.
pub fn route_mpls_nexthops(nexthops: &Option<SortedSet<IpAddr>>, label: Option<Label>) -> (r: Vec<Nexthop>)
    ensures
        nexthop_models(r@) == recursive_nexthops(*nexthops, label),
{
    let mut r: Vec<Nexthop> = Vec::new();
    let ghost all = recursive_nexthops(*nexthops, label);
    match nexthops {
        Some(set) => {
            let mut i: usize = 0;
            assert(nexthop_models(r@) =~= all.take(0));
            while i < set.len()
                invariant
                    *nexthops == Some(*set),
                    all == recursive_nexthops(*nexthops, label),
                    all.len() == set.elems().len(),
                    i <= all.len(),
                    nexthop_models(r@) == all.take(i as int),
                decreases all.len() - i,
            {
                let labels: Vec<Label> = match label {
                    Some(l) => vec![l],
                    None => Vec::new(),
                };
                assert(labels@ =~= label_stack(label));
                let nexthop = Nexthop::Recursive { addr: *set.nth(i), labels, resolved: Vec::new() };
                proof {
                    assert(nexthop.model()->Recursive_resolved =~= Seq::<NexthopModel>::empty());
                    assert(nexthop.model() == all[i as int]);
                    assert(all.take(i + 1) =~= all.take(i as int).push(all[i as int]));
                    assert(nexthop_models(r@.push(nexthop)) =~= nexthop_models(r@).push(nexthop.model()));
                }
                r.push(nexthop);
                i += 1;
            }
            assert(all.take(i as int) =~= all);
        },
        None => {
            assert(nexthop_models(r@) =~= all);
        },
    }
    r
}

/// Whether a request installs the route of a prefix.
pub open spec fn installs_route(
    req: IbusRequest,
    table_id: Option<u32>,
    prefix: IpNetwork,
    route: LocalRoute,
    distance: u8,
) -> bool {
    match req {
        IbusRequest::RouteIpAdd(msg) => {
            &&& msg.protocol == Protocol::BGP
            &&& msg.kind == RouteKind::Unicast
            &&& msg.table_id == table_id
            &&& msg.prefix == prefix
            &&& msg.distance == distance
            &&& msg.metric == match route.attrs.base.med {
                Some(med) => med,
                None => 0,
            }
            &&& msg.tag is None
            &&& msg.opaque_attrs == RouteOpaqueAttrs::Empty
            &&& nexthop_models(msg.nexthops@) == recursive_nexthops(route.nexthops, route.nexthop_label)
        },
        _ => false,
    }
}

/// Asks to install the route of a prefix.
pub fn route_install(table_id: Option<u32>, prefix: IpNetwork, route: &LocalRoute, distance: u8) -> (r: IbusRequest)
    ensures
        installs_route(r, table_id, prefix, *route, distance),
{
    IbusRequest::RouteIpAdd(
        RouteMsg {
            protocol: Protocol::BGP,
            kind: RouteKind::Unicast,
            table_id,
            prefix,
            distance: distance as u32,
            metric: match route.attrs.base.med {
                Some(med) => med,
                None => 0,
            },
            tag: None,
            opaque_attrs: RouteOpaqueAttrs::Empty,
            nexthops: Arc::new(route_mpls_nexthops(&route.nexthops, route.nexthop_label)),
        },
    )
}

/// Asks to remove the route of a prefix.
pub fn route_uninstall(table_id: Option<u32>, prefix: IpNetwork) -> (r: IbusRequest)
    ensures
        r == IbusRequest::RouteIpDel(RouteKeyMsg { protocol: Protocol::BGP, table_id, prefix }),
{
    IbusRequest::RouteIpDel(RouteKeyMsg { protocol: Protocol::BGP, table_id, prefix })
}

/// The addresses of a route's next hops.
pub open spec fn nexthop_set(s: Option<SortedSet<IpAddr>>) -> Option<Set<IpAddr>> {
    match s {
        Some(s) => Some(s@),
        None => None,
    }
}

/// Whether the label of a route is to be installed: it has one that is not
/// reserved, and something about it changed.
pub open spec fn label_changes(route: LocalRoute, old_route: Option<LocalRoute>) -> bool {
    &&& route.label matches Some(l) && l.0 > RESERVED_MAX
    &&& !(old_route matches Some(o) && o.label == route.label && nexthop_set(o.nexthops) == nexthop_set(route.nexthops)
        && o.nexthop_label == route.nexthop_label)
}

fn same_label(a: Option<Label>, b: Option<Label>) -> (r: bool)
    ensures
        r == (a == b),
{
    match (a, b) {
        (Some(x), Some(y)) => x == y,
        (None, None) => true,
        _ => false,
    }
}

fn same_nexthops(a: &Option<SortedSet<IpAddr>>, b: &Option<SortedSet<IpAddr>>) -> (r: bool)
    requires
        a matches Some(s) ==> s.wf(),
        b matches Some(s) ==> s.wf(),
    ensures
        r == (nexthop_set(*a) == nexthop_set(*b)),
{
    match (a, b) {
        (Some(x), Some(y)) => x.same_set(y),
        (None, None) => true,
        _ => false,
    }
}

/// Asks to install the label of a route, unless nothing about it changed.
pub fn label_install(prefix: IpNetwork, route: &LocalRoute, old_route: Option<&LocalRoute>) -> (r: Option<IbusRequest>)
    requires
        route.wf(),
        old_route matches Some(o) ==> o.wf(),
    ensures
        r is Some <==> label_changes(
            *route,
            match old_route {
                Some(o) => Some(*o),
                None => None,
            },
        ),
        r matches Some(req) ==> (req matches IbusRequest::RouteMplsAdd(msg) && msg.protocol == Protocol::BGP
            && msg.label == route.label->0 && msg.route == Some((Protocol::BGP, prefix)) && msg.replace
            && nexthop_models(msg.nexthops@) == recursive_nexthops(route.nexthops, route.nexthop_label)),
{
    let label = match route.label {
        Some(label) => label,
        None => {
            return None;
        },
    };
    if label.is_reserved() {
        return None;
    }
    if let Some(old_route) = old_route {
        if same_label(old_route.label, route.label) && same_nexthops(&old_route.nexthops, &route.nexthops)
            && same_label(old_route.nexthop_label, route.nexthop_label) {
            return None;
        }
    }
    let nexthops = route_mpls_nexthops(&route.nexthops, route.nexthop_label);
    Some(
        IbusRequest::RouteMplsAdd(
            LabelInstallMsg {
                protocol: Protocol::BGP,
                label,
                nexthops,
                route: Some((Protocol::BGP, prefix)),
                replace: true,
            },
        ),
    )
}

/// Asks to remove the label of a route.
pub fn label_uninstall(prefix: IpNetwork, route: &LocalRoute) -> (r: Option<IbusRequest>)
    ensures
        r is Some <==> (route.label matches Some(l) && l.0 > RESERVED_MAX),
        r matches Some(req) ==> (req matches IbusRequest::RouteMplsDel(msg) && msg.protocol == Protocol::BGP
            && msg.label == route.label->0 && msg.route == Some((Protocol::BGP, prefix)) && msg.nexthops@.len() == 0),
{
    let label = match route.label {
        Some(label) => label,
        None => {
            return None;
        },
    };
    if label.is_reserved() {
        return None;
    }
    Some(
        IbusRequest::RouteMplsDel(
            LabelUninstallMsg {
                protocol: Protocol::BGP,
                label,
                nexthops: Vec::new(),
                route: Some((Protocol::BGP, prefix)),
            },
        ),
    )
}

/// Installing the label of a route that was just installed asks for nothing.
pub proof fn label_install_is_idempotent(route: LocalRoute)
    ensures
        !label_changes(route, Some(route)),
{
}

}
