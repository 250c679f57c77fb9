//! What holds of UPDATE messages that are received: what is kept, what is
//! withdrawn, and what policies are asked, in every address family.
use crate::adj_laws::received_is_kept;
use crate::adj_laws::withdrawn_all_are_gone;
use crate::af::AddressFamily;
use crate::af::Ipv4Unicast;
use crate::af::Ipv6Unicast;
use crate::af::Vpnv4Prefix;
use crate::af::Vpnv6Prefix;
use crate::attribute::Attrs;
use crate::attribute::BaseAttrs;
use crate::bgp::AfiSafi;
use crate::bgp::EthernetSegmentId;
use crate::bgp::RouteType;
use crate::events::apply_models;
use crate::events::import_request;
use crate::events::import_routes;
use crate::events::learned_all;
use crate::events::mass_withdrawn_paths;
use crate::events::nbr_origin;
use crate::events::nbr_route_type;
use crate::events::received_all;
use crate::events::received_info;
use crate::events::segments_withdrawn;
use crate::events::withdrawn_all;
use crate::events::withdrawn_segments;
use crate::events::InState;
use crate::events::PolicyApplyMsg;
use crate::ibus_laws::are_named;
use crate::ibus_laws::named_policies;
use crate::ip::IpAddr;
use crate::ip::IpNetwork;
use crate::ip::Ipv6Addr;
use crate::ip::Ipv6Network;
use crate::message::EvpnRoute;
use crate::message::MpReachModel;
use crate::message::MpReachNlri;
use crate::message::MpUnreachModel;
use crate::message::MpUnreachNlri;
use crate::message::ReachNlri;
use crate::message::UnreachNlri;
use crate::message::UpdateModel;
use crate::message::UpdateMsg;
use crate::nbr_update::evpn_labels;
use crate::nbr_update::labeled_paths;
use crate::nbr_update::mp_reach_step;
use crate::nbr_update::mp_withdraw;
use crate::nbr_update::process_nbr_update;
use crate::nbr_update::reach_as_unreach;
use crate::nbr_update::reach_step;
use crate::nbr_update::rx_paths;
use crate::nbr_update::session_state;
use crate::nbr_update::unreach_effect;
use crate::nbr_update::unreach_steps;
use crate::nbr_update::vpnv4_labels;
use crate::nbr_update::vpnv4_prefixes;
use crate::nbr_update::vpnv6_labels;
use crate::nbr_update::vpnv6_prefixes;
use crate::nbr_update::with_nexthop;
use crate::nbr_update::with_nexthops;
use crate::nbr_update::SessionState;
use crate::nbr_update::UpdateEffects;
use crate::neighbor::Neighbor;
use crate::neighbor::PeerType;
use crate::ord::Ranked;
use crate::path::ids_of;
use crate::path::prefixes_of;
use crate::path::Path;
use crate::path::PeerPath;
use crate::policy_types::PolicyType;
use crate::protocol::Label;
use crate::rib::adj_at;
use crate::rib::has_adj;
use crate::rib::AdjRib;
use crate::rib::NexthopOp;
use crate::rib::Route;
use crate::rib::RouteOrigin;
use crate::rib::RoutingTable;
use crate::rib::RoutingTables;
use crate::rib::TableModel;
use crate::shared::InstanceShared;
use vstd::prelude::*;

verus! {

/// The routes that are exchanged with a neighbor on a path, if any are kept.
pub open spec fn routes_of<P: Ranked>(t: RoutingTable<P>, p: P, addr: IpAddr, path_id: u32) -> Option<AdjRib> {
    let key = PeerPath { addr, path_id };
    if t.prefixes@.contains_key(p) && t.prefixes@[p].adj_rib@.contains_key(key) {
        Some(t.prefixes@[p].adj_rib@[key])
    } else {
        None
    }
}

/// Whether nothing that a neighbor sent on a path is kept.
pub open spec fn nothing_kept<P: Ranked>(t: RoutingTable<P>, p: P, addr: IpAddr, path_id: u32) -> bool {
    routes_of(t, p, addr, path_id) matches Some(a) ==> a.in_pre is None && a.in_post is None
}

/// Whether an address family is in use with a neighbor: it was negotiated, or
/// none was and it is IPv4 unicast.
pub open spec fn in_use(nbr: Neighbor, afi_safi: AfiSafi) -> bool {
    match nbr.negotiated_afs {
        Some(afs) => afs@.contains(afi_safi),
        None => afi_safi == AfiSafi::Ipv4Unicast,
    }
}

/// The path identifier that counts for a prefix of a message: the one beside it,
/// if the neighbor is known to send identifiers.
pub open spec fn sent_id(nbr: Neighbor, afi_safi: AfiSafi, ids: Seq<u32>, i: int) -> u32 {
    if nbr.add_path_rx@.contains(afi_safi) && i < ids.len() {
        ids[i]
    } else {
        0
    }
}

pub proof fn raw_routes<P: Ranked>(t: RoutingTable<P>, path: Path<P>, addr: IpAddr)
    ensures
        has_adj(t@, path, addr) <==> routes_of(t, path.prefix, addr, path.path_id) is Some,
        routes_of(t, path.prefix, addr, path.path_id) matches Some(a) ==> adj_at(t@, path, addr) == a,
        routes_of(t, path.prefix, addr, path.path_id) is None ==> adj_at(t@, path, addr) == (AdjRib {
            in_pre: None,
            in_post: None,
            out_pre: None,
            out_post: None,
        }),
{
    let p = path.prefix;
    if t.prefixes@.contains_key(p) {
        assert(t@.prefixes.contains_key(p));
        assert(t@.prefixes[p] == t.prefixes@[p]@);
        assert(t@.prefixes[p].adj_rib == t.prefixes@[p].adj_rib@);
    }
}

/// Nothing is forgotten between two states: paths of the neighbor that were there
/// are there, prefixes stay queued, and changes to tracking stay.
pub open spec fn grows<P>(s: InState<P>, u: InState<P>, addr: IpAddr) -> bool {
    &&& forall|q: Path<P>| #[trigger] has_adj(s.table, q, addr) ==> has_adj(u.table, q, addr)
    &&& forall|p: P| #[trigger] s.table.queued.contains(p) ==> u.table.queued.contains(p)
    &&& s.ops.len() <= u.ops.len()
    &&& forall|i: int| 0 <= i < s.ops.len() ==> u.ops[i] == #[trigger] s.ops[i]
}

proof fn grows_on<P>(s: InState<P>, u: InState<P>, v: InState<P>, addr: IpAddr)
    requires
        grows(s, u, addr),
        grows(u, v, addr),
    ensures
        grows(s, v, addr),
{
    assert forall|i: int| 0 <= i < s.ops.len() implies v.ops[i] == #[trigger] s.ops[i] by {
        assert(u.ops[i] == s.ops[i]);
    }
}

proof fn withdrawn_grows<P>(s: InState<P>, addr: IpAddr, paths: Seq<Path<P>>)
    ensures
        grows(s, withdrawn_all(s, addr, paths), addr),
    decreases paths.len(),
{
    if paths.len() > 0 {
        let u = withdrawn_all(s, addr, paths.drop_last());
        let v = withdrawn_all(s, addr, paths);
        withdrawn_grows(s, addr, paths.drop_last());
        assert(grows(u, v, addr));
        grows_on(s, u, v, addr);
    }
}

proof fn received_grows<P>(s: InState<P>, addr: IpAddr, paths: Seq<Path<P>>, route: Route)
    ensures
        grows(s, InState { table: received_all(s.table, addr, paths, route), ..s }, addr),
    decreases paths.len(),
{
    if paths.len() > 0 {
        let u = InState { table: received_all(s.table, addr, paths.drop_last(), route), ..s };
        let v = InState { table: received_all(s.table, addr, paths, route), ..s };
        received_grows(s, addr, paths.drop_last(), route);
        assert(grows(u, v, addr));
        grows_on(s, u, v, addr);
    }
}

proof fn learned_grows<P>(s: InState<P>, addr: IpAddr, ps: Seq<(Path<P>, Label)>, route: Route)
    ensures
        grows(s, learned_all(s, addr, ps, route), addr),
    decreases ps.len(),
{
    if ps.len() > 0 {
        let u = learned_all(s, addr, ps.drop_last(), route);
        let v = learned_all(s, addr, ps, route);
        learned_grows(s, addr, ps.drop_last(), route);
        assert(grows(u, v, addr));
        grows_on(s, u, v, addr);
    }
}

proof fn segments_grow(s: InState<EvpnRoute>, addr: IpAddr, esis: Seq<EthernetSegmentId>, q: Path<EvpnRoute>)
    ensures
        grows(s, segments_withdrawn(s, addr, esis), addr),
        adj_at(s.table, q, addr).in_pre is None && adj_at(s.table, q, addr).in_post is None ==> adj_at(
            segments_withdrawn(s, addr, esis).table,
            q,
            addr,
        ).in_pre is None && adj_at(segments_withdrawn(s, addr, esis).table, q, addr).in_post is None,
    decreases esis.len(),
{
    if esis.len() > 0 {
        let u = segments_withdrawn(s, addr, esis.drop_last());
        let v = segments_withdrawn(s, addr, esis);
        segments_grow(s, addr, esis.drop_last(), q);
        let paths = mass_withdrawn_paths(u.table, addr, esis.last()@);
        withdrawn_grows(u, addr, paths);
        grows_on(s, u, v, addr);
        stays_gone(u, addr, paths, q);
    }
}

proof fn stays_gone<P>(s: InState<P>, addr: IpAddr, paths: Seq<Path<P>>, q: Path<P>)
    requires
        true,
    ensures
        adj_at(s.table, q, addr).in_pre is None && adj_at(s.table, q, addr).in_post is None ==> adj_at(
            withdrawn_all(s, addr, paths).table,
            q,
            addr,
        ).in_pre is None && adj_at(withdrawn_all(s, addr, paths).table, q, addr).in_post is None,
{
    withdrawn_all_are_gone(s, addr, paths);
    assert(paths.contains(q) || !paths.contains(q));
}

/// A path that is withdrawn: nothing that was received on it is left, its prefix
/// is queued if anything was known of it, and the next hop of a route that was
/// accepted is not tracked any more.
proof fn withdrawn_path<P>(s: InState<P>, addr: IpAddr, paths: Seq<Path<P>>, q: Path<P>)
    requires
        paths.contains(q),
    ensures
        adj_at(withdrawn_all(s, addr, paths).table, q, addr).in_pre is None,
        adj_at(withdrawn_all(s, addr, paths).table, q, addr).in_post is None,
        has_adj(s.table, q, addr) ==> withdrawn_all(s, addr, paths).table.queued.contains(q.prefix),
        adj_at(s.table, q, addr).in_post matches Some(route) ==> withdrawn_all(s, addr, paths).ops.skip(
            s.ops.len() as int,
        ).contains(NexthopOp::Untrack { prefix: q.prefix, route }),
    decreases paths.len(),
{
    withdrawn_all_are_gone(s, addr, paths);
    let init = paths.drop_last();
    let u = withdrawn_all(s, addr, init);
    let v = withdrawn_all(s, addr, paths);
    withdrawn_grows(s, addr, init);
    if init.contains(q) {
        withdrawn_path(s, addr, init, q);
        if let Some(route) = adj_at(s.table, q, addr).in_post {
            let x = NexthopOp::Untrack { prefix: q.prefix, route };
            let tail = u.ops.skip(s.ops.len() as int);
            let i = choose|i: int| 0 <= i < tail.len() && tail[i] == x;
            assert(v.ops.skip(s.ops.len() as int)[i] == x);
        }
    } else {
        let i = choose|i: int| 0 <= i < paths.len() && paths[i] == q;
        if i < init.len() {
            assert(init[i] == q);
        }
        assert(paths.last() == q);
        withdrawn_all_are_gone(s, addr, init);
        assert(adj_at(u.table, q, addr) == adj_at(s.table, q, addr));
        if let Some(route) = adj_at(s.table, q, addr).in_post {
            let x = NexthopOp::Untrack { prefix: q.prefix, route };
            assert(has_adj(u.table, q, addr));
            assert(v.ops == u.ops.push(x));
            assert(v.ops.skip(s.ops.len() as int)[u.ops.len() - s.ops.len()] == x);
        }
    }
}

/// What is known after a path was withdrawn in a table.
pub open spec fn path_withdrawn<P: Ranked>(
    before: RoutingTable<P>,
    after: RoutingTable<P>,
    p: P,
    addr: IpAddr,
    path_id: u32,
) -> bool {
    &&& nothing_kept(after, p, addr, path_id)
    &&& routes_of(before, p, addr, path_id) is Some ==> after.queued_prefixes@.contains(p)
}

proof fn mp_reach_grows(s: SessionState, nbr: Neighbor, msg: UpdateModel, shared: InstanceShared)
    ensures
        grows(s.ipv4, mp_reach_step(s, nbr, msg, shared).0.ipv4, nbr.remote_addr),
        grows(s.ipv6, mp_reach_step(s, nbr, msg, shared).0.ipv6, nbr.remote_addr),
        grows(s.vpnv4, mp_reach_step(s, nbr, msg, shared).0.vpnv4, nbr.remote_addr),
        grows(s.vpnv6, mp_reach_step(s, nbr, msg, shared).0.vpnv6, nbr.remote_addr),
        grows(s.evpn, mp_reach_step(s, nbr, msg, shared).0.evpn, nbr.remote_addr),
{
    let addr = nbr.remote_addr;
    match (msg.mp_reach, msg.attrs) {
        (Some(MpReachModel::Ipv4Unicast { prefixes, path_ids, nexthop }), Some(attrs)) => {
            let a = with_nexthop(attrs, IpAddr::V4(nexthop));
            received_grows(
                s.ipv4,
                addr,
                rx_paths(nbr, AfiSafi::Ipv4Unicast, prefixes, path_ids),
                Route::new_spec(nbr_origin(nbr), a, nbr_route_type(nbr)),
            );
        },
        (Some(MpReachModel::Ipv6Unicast { prefixes, path_ids, nexthop, ll_nexthop }), Some(attrs)) => {
            let a = with_nexthops(attrs, IpAddr::V6(nexthop), ll_nexthop);
            received_grows(
                s.ipv6,
                addr,
                rx_paths(nbr, AfiSafi::Ipv6Unicast, prefixes, path_ids),
                Route::new_spec(nbr_origin(nbr), a, nbr_route_type(nbr)),
            );
        },
        (Some(MpReachModel::L3vpnIpv4Unicast { prefixes, path_ids, nexthop }), Some(attrs)) => {
            let a = with_nexthop(attrs, IpAddr::V4(nexthop));
            learned_grows(
                s.vpnv4,
                addr,
                labeled_paths(
                    rx_paths(nbr, AfiSafi::L3vpnIpv4Unicast, vpnv4_prefixes(prefixes), path_ids),
                    vpnv4_labels(prefixes),
                ),
                Route::new_spec(nbr_origin(nbr), a, nbr_route_type(nbr)),
            );
        },
        (Some(MpReachModel::L3vpnIpv6Unicast { prefixes, path_ids, nexthop }), Some(attrs)) => {
            let a = with_nexthop(attrs, IpAddr::V6(nexthop));
            learned_grows(
                s.vpnv6,
                addr,
                labeled_paths(
                    rx_paths(nbr, AfiSafi::L3vpnIpv6Unicast, vpnv6_prefixes(prefixes), path_ids),
                    vpnv6_labels(prefixes),
                ),
                Route::new_spec(nbr_origin(nbr), a, nbr_route_type(nbr)),
            );
        },
        (Some(MpReachModel::L2vpnEvpn { routes, path_ids, nexthop }), Some(attrs)) => {
            let a = with_nexthop(attrs, nexthop);
            learned_grows(
                s.evpn,
                addr,
                labeled_paths(rx_paths(nbr, AfiSafi::L2vpnEvpn, routes, path_ids), evpn_labels(routes)),
                Route::new_spec(nbr_origin(nbr), a, nbr_route_type(nbr)),
            );
        },
        (Some(reach), None) => {
            mp_withdraw_grows(s, nbr, reach_as_unreach(reach));
        },
        (None, _) => {},
    }
}

proof fn mp_withdraw_grows(s: SessionState, nbr: Neighbor, unreach: MpUnreachModel)
    ensures
        grows(s.ipv4, mp_withdraw(s, nbr, unreach).ipv4, nbr.remote_addr),
        grows(s.ipv6, mp_withdraw(s, nbr, unreach).ipv6, nbr.remote_addr),
        grows(s.vpnv4, mp_withdraw(s, nbr, unreach).vpnv4, nbr.remote_addr),
        grows(s.vpnv6, mp_withdraw(s, nbr, unreach).vpnv6, nbr.remote_addr),
        grows(s.evpn, mp_withdraw(s, nbr, unreach).evpn, nbr.remote_addr),
{
    let addr = nbr.remote_addr;
    match unreach {
        MpUnreachModel::Ipv4Unicast { prefixes, path_ids } => {
            withdrawn_grows(s.ipv4, addr, rx_paths(nbr, AfiSafi::Ipv4Unicast, prefixes, path_ids));
        },
        MpUnreachModel::Ipv6Unicast { prefixes, path_ids } => {
            withdrawn_grows(s.ipv6, addr, rx_paths(nbr, AfiSafi::Ipv6Unicast, prefixes, path_ids));
        },
        MpUnreachModel::L3vpnIpv4Unicast { prefixes, path_ids } => {
            withdrawn_grows(
                s.vpnv4,
                addr,
                rx_paths(nbr, AfiSafi::L3vpnIpv4Unicast, vpnv4_prefixes(prefixes), path_ids),
            );
        },
        MpUnreachModel::L3vpnIpv6Unicast { prefixes, path_ids } => {
            withdrawn_grows(
                s.vpnv6,
                addr,
                rx_paths(nbr, AfiSafi::L3vpnIpv6Unicast, vpnv6_prefixes(prefixes), path_ids),
            );
        },
        MpUnreachModel::L2vpnEvpn { routes, path_ids } => {
            let paths = rx_paths(nbr, AfiSafi::L2vpnEvpn, routes, path_ids);
            let u = unreach_effect(s.evpn, nbr, AfiSafi::L2vpnEvpn, paths);
            withdrawn_grows(s.evpn, addr, paths);
            segments_grow(u, addr, withdrawn_segments(prefixes_of(paths)), arbitrary());
            grows_on(s.evpn, u, mp_withdraw(s, nbr, unreach).evpn, addr);
        },
    }
}

proof fn reach_grows(s: SessionState, nbr: Neighbor, msg: UpdateModel, shared: InstanceShared)
    ensures
        grows(s.ipv4, reach_step(s, nbr, msg, shared).0.ipv4, nbr.remote_addr),
        reach_step(s, nbr, msg, shared).0.ipv6 == s.ipv6,
        reach_step(s, nbr, msg, shared).0.vpnv4 == s.vpnv4,
        reach_step(s, nbr, msg, shared).0.vpnv6 == s.vpnv6,
        reach_step(s, nbr, msg, shared).0.evpn == s.evpn,
{
    let addr = nbr.remote_addr;
    match (msg.reach, msg.attrs) {
        (Some((ps, ids, nexthop)), Some(attrs)) => {
            let a = with_nexthop(attrs, IpAddr::V4(nexthop));
            received_grows(
                s.ipv4,
                addr,
                rx_paths(nbr, AfiSafi::Ipv4Unicast, ps, ids),
                Route::new_spec(nbr_origin(nbr), a, nbr_route_type(nbr)),
            );
        },
        (Some((ps, ids, _)), None) => {
            withdrawn_grows(s.ipv4, addr, rx_paths(nbr, AfiSafi::Ipv4Unicast, ps, ids));
        },
        (None, _) => {},
    }
}

proof fn same_use(nbr: Neighbor, afi_safi: AfiSafi)
    ensures
        nbr.af_in_use(afi_safi) == in_use(nbr, afi_safi),
        nbr.receives_paths(afi_safi) == nbr.add_path_rx@.contains(afi_safi),
{
}

/// An IPv4 prefix that an UPDATE message withdraws is gone on its path, and is
/// queued if anything was known of it.
pub proof fn ipv4_withdrawals_are_done(
    nbr: &Neighbor,
    tables: &mut RoutingTables,
    msg: &UpdateMsg,
    shared: &InstanceShared,
    fx: &mut UpdateEffects,
    r: bool,
    nlri: UnreachNlri,
    i: int,
)
    requires
        call_ensures(process_nbr_update, (nbr, tables, msg, shared, fx), r),
        !r,
        in_use(*nbr, AfiSafi::Ipv4Unicast),
        msg.unreach == Some(nlri),
        0 <= i < nlri.prefixes@.len(),
    ensures
        path_withdrawn(
            old(tables).ipv4_unicast,
            final(tables).ipv4_unicast,
            nlri.prefixes@[i],
            nbr.remote_addr,
            sent_id(*nbr, AfiSafi::Ipv4Unicast, nlri.path_ids@, i),
        ),
{
    let s = session_state(*old(tables), *old(fx));
    let addr = nbr.remote_addr;
    let s1 = reach_step(s, *nbr, msg@, *shared).0;
    let s2 = mp_reach_step(s1, *nbr, msg@, *shared).0;
    reach_grows(s, *nbr, msg@, *shared);
    mp_reach_grows(s1, *nbr, msg@, *shared);
    grows_on(s.ipv4, s1.ipv4, s2.ipv4, addr);
    same_use(*nbr, AfiSafi::Ipv4Unicast);
    let paths = rx_paths(*nbr, AfiSafi::Ipv4Unicast, nlri.prefixes@, nlri.path_ids@);
    let t = SessionState { ipv4: unreach_effect(s2.ipv4, *nbr, AfiSafi::Ipv4Unicast, paths), ..s2 };
    let q = paths[i];
    assert(paths.contains(q));
    withdrawn_path(s2.ipv4, addr, paths, q);
    let end = unreach_steps(s2, *nbr, msg@);
    assert(session_state(*final(tables), *final(fx)) == end);
    if let Some(unreach) = msg@.mp_unreach {
        mp_withdraw_grows(t, *nbr, unreach);
        if let MpUnreachModel::Ipv4Unicast { prefixes, path_ids } = unreach {
            stays_gone(t.ipv4, addr, rx_paths(*nbr, AfiSafi::Ipv4Unicast, prefixes, path_ids), q);
        }
    }
    raw_routes(old(tables).ipv4_unicast, q, addr);
    raw_routes(final(tables).ipv4_unicast, q, addr);
}

/// The same of prefixes that are withdrawn by attribute, in each address family.
pub proof fn mp_withdrawals_are_done(
    nbr: &Neighbor,
    tables: &mut RoutingTables,
    msg: &UpdateMsg,
    shared: &InstanceShared,
    fx: &mut UpdateEffects,
    r: bool,
    i: int,
)
    requires
        call_ensures(process_nbr_update, (nbr, tables, msg, shared, fx), r),
        !r,
        msg.mp_unreach is Some,
        0 <= i,
    ensures
        match msg.mp_unreach->0 {
            MpUnreachNlri::Ipv4Unicast { prefixes, path_ids } => in_use(*nbr, AfiSafi::Ipv4Unicast) && i
                < prefixes@.len() ==> path_withdrawn(
                old(tables).ipv4_unicast,
                final(tables).ipv4_unicast,
                prefixes@[i],
                nbr.remote_addr,
                sent_id(*nbr, AfiSafi::Ipv4Unicast, path_ids@, i),
            ),
            MpUnreachNlri::Ipv6Unicast { prefixes, path_ids } => in_use(*nbr, AfiSafi::Ipv6Unicast) && i
                < prefixes@.len() ==> path_withdrawn(
                old(tables).ipv6_unicast,
                final(tables).ipv6_unicast,
                prefixes@[i],
                nbr.remote_addr,
                sent_id(*nbr, AfiSafi::Ipv6Unicast, path_ids@, i),
            ),
            MpUnreachNlri::L3vpnIpv4Unicast { prefixes, path_ids } => in_use(*nbr, AfiSafi::L3vpnIpv4Unicast) && i
                < prefixes@.len() ==> path_withdrawn(
                old(tables).vpnv4_unicast,
                final(tables).vpnv4_unicast,
                Vpnv4Prefix { rd: prefixes@[i].rd, prefix: prefixes@[i].prefix },
                nbr.remote_addr,
                sent_id(*nbr, AfiSafi::L3vpnIpv4Unicast, path_ids@, i),
            ),
            MpUnreachNlri::L3vpnIpv6Unicast { prefixes, path_ids } => in_use(*nbr, AfiSafi::L3vpnIpv6Unicast) && i
                < prefixes@.len() ==> path_withdrawn(
                old(tables).vpnv6_unicast,
                final(tables).vpnv6_unicast,
                Vpnv6Prefix { rd: prefixes@[i].rd, prefix: prefixes@[i].prefix },
                nbr.remote_addr,
                sent_id(*nbr, AfiSafi::L3vpnIpv6Unicast, path_ids@, i),
            ),
            MpUnreachNlri::L2vpnEvpn { routes, path_ids } => in_use(*nbr, AfiSafi::L2vpnEvpn) && i < routes@.len()
                ==> path_withdrawn(
                old(tables).l2vpn_evpn,
                final(tables).l2vpn_evpn,
                routes@[i],
                nbr.remote_addr,
                sent_id(*nbr, AfiSafi::L2vpnEvpn, path_ids@, i),
            ),
        },
{
    let s = session_state(*old(tables), *old(fx));
    let addr = nbr.remote_addr;
    let s1 = reach_step(s, *nbr, msg@, *shared).0;
    let s2 = mp_reach_step(s1, *nbr, msg@, *shared).0;
    reach_grows(s, *nbr, msg@, *shared);
    mp_reach_grows(s1, *nbr, msg@, *shared);
    grows_on(s.ipv4, s1.ipv4, s2.ipv4, addr);
    let t = match msg@.unreach {
        Some((ps, ids)) => {
            let paths = rx_paths(*nbr, AfiSafi::Ipv4Unicast, ps, ids);
            SessionState { ipv4: unreach_effect(s2.ipv4, *nbr, AfiSafi::Ipv4Unicast, paths), ..s2 }
        },
        None => s2,
    };
    if let Some((ps, ids)) = msg@.unreach {
        withdrawn_grows(s2.ipv4, addr, rx_paths(*nbr, AfiSafi::Ipv4Unicast, ps, ids));
    }
    assert(grows(s2.ipv4, t.ipv4, addr));
    grows_on(s.ipv4, s2.ipv4, t.ipv4, addr);
    let unreach = msg@.mp_unreach->0;
    let end = mp_withdraw(t, *nbr, unreach);
    assert(session_state(*final(tables), *final(fx)) == end);
    match msg.mp_unreach->0 {
        MpUnreachNlri::Ipv4Unicast { prefixes, path_ids } => {
            same_use(*nbr, AfiSafi::Ipv4Unicast);
            let paths = rx_paths(*nbr, AfiSafi::Ipv4Unicast, prefixes@, path_ids@);
            if i < prefixes@.len() {
                assert(paths.contains(paths[i]));
                withdrawn_path(t.ipv4, addr, paths, paths[i]);
                raw_routes(old(tables).ipv4_unicast, paths[i], addr);
                raw_routes(final(tables).ipv4_unicast, paths[i], addr);
            }
        },
        MpUnreachNlri::Ipv6Unicast { prefixes, path_ids } => {
            same_use(*nbr, AfiSafi::Ipv6Unicast);
            let paths = rx_paths(*nbr, AfiSafi::Ipv6Unicast, prefixes@, path_ids@);
            if i < prefixes@.len() {
                assert(paths.contains(paths[i]));
                withdrawn_path(t.ipv6, addr, paths, paths[i]);
                raw_routes(old(tables).ipv6_unicast, paths[i], addr);
                raw_routes(final(tables).ipv6_unicast, paths[i], addr);
            }
        },
        MpUnreachNlri::L3vpnIpv4Unicast { prefixes, path_ids } => {
            same_use(*nbr, AfiSafi::L3vpnIpv4Unicast);
            let paths = rx_paths(*nbr, AfiSafi::L3vpnIpv4Unicast, vpnv4_prefixes(prefixes@), path_ids@);
            if i < prefixes@.len() {
                assert(paths.contains(paths[i]));
                withdrawn_path(t.vpnv4, addr, paths, paths[i]);
                raw_routes(old(tables).vpnv4_unicast, paths[i], addr);
                raw_routes(final(tables).vpnv4_unicast, paths[i], addr);
            }
        },
        MpUnreachNlri::L3vpnIpv6Unicast { prefixes, path_ids } => {
            same_use(*nbr, AfiSafi::L3vpnIpv6Unicast);
            let paths = rx_paths(*nbr, AfiSafi::L3vpnIpv6Unicast, vpnv6_prefixes(prefixes@), path_ids@);
            if i < prefixes@.len() {
                assert(paths.contains(paths[i]));
                withdrawn_path(t.vpnv6, addr, paths, paths[i]);
                raw_routes(old(tables).vpnv6_unicast, paths[i], addr);
                raw_routes(final(tables).vpnv6_unicast, paths[i], addr);
            }
        },
        MpUnreachNlri::L2vpnEvpn { routes, path_ids } => {
            same_use(*nbr, AfiSafi::L2vpnEvpn);
            let paths = rx_paths(*nbr, AfiSafi::L2vpnEvpn, routes@, path_ids@);
            if i < routes@.len() && in_use(*nbr, AfiSafi::L2vpnEvpn) {
                let u = withdrawn_all(t.evpn, addr, paths);
                assert(paths.contains(paths[i]));
                withdrawn_path(t.evpn, addr, paths, paths[i]);
                segments_grow(u, addr, withdrawn_segments(prefixes_of(paths)), paths[i]);
                raw_routes(old(tables).l2vpn_evpn, paths[i], addr);
                raw_routes(final(tables).l2vpn_evpn, paths[i], addr);
            }
        },
    }
}

/// Whether a path is among prefixes of a message.
pub open spec fn names_path<P>(
    nbr: Neighbor,
    afi_safi: AfiSafi,
    prefixes: Seq<P>,
    ids: Seq<u32>,
    p: P,
    path_id: u32,
) -> bool {
    exists|j: int|
        0 <= j < prefixes.len() && #[trigger] prefixes[j] == p && sent_id(nbr, afi_safi, ids, j) == path_id
}

proof fn named_paths<P>(
    nbr: Neighbor,
    afi_safi: AfiSafi,
    prefixes: Seq<P>,
    ids: Seq<u32>,
    p: P,
    path_id: u32,
)
    ensures
        rx_paths(nbr, afi_safi, prefixes, ids).contains(Path { prefix: p, path_id }) <==> names_path(
            nbr,
            afi_safi,
            prefixes,
            ids,
            p,
            path_id,
        ),
{
    let paths = rx_paths(nbr, afi_safi, prefixes, ids);
    let q = Path { prefix: p, path_id };
    if paths.contains(q) {
        let j = choose|j: int| 0 <= j < paths.len() && paths[j] == q;
        assert(prefixes[j] == p);
    }
    if names_path(nbr, afi_safi, prefixes, ids, p, path_id) {
        let j = choose|j: int|
            0 <= j < prefixes.len() && #[trigger] prefixes[j] == p && sent_id(nbr, afi_safi, ids, j) == path_id;
        assert(paths[j] == q);
    }
}

/// Whether a route is what a neighbor sent with some attributes.
pub open spec fn is_sent_route(route: Route, nbr: Neighbor, attrs: Attrs, label: Option<Label>) -> bool {
    &&& route.origin matches RouteOrigin::Neighbor { identifier, remote_addr } && Some(identifier)
        == nbr.identifier && remote_addr == nbr.remote_addr
    &&& route.route_type == RouteType::Internal <==> nbr.peer_type == PeerType::Internal
    &&& route.route_type == RouteType::External <==> nbr.peer_type == PeerType::External
    &&& route.attrs == attrs
    &&& route.vpn_label == label
    &&& route.igp_cost is None
}

/// Whether a request asks for the import policies of a neighbor on a route that
/// it sent on a path.
pub open spec fn asks_import(
    req: PolicyApplyMsg,
    nbr: Neighbor,
    afi_safi: AfiSafi,
    shared: InstanceShared,
    prefix: IpNetwork,
    path_id: u32,
    attrs: Attrs,
) -> bool {
    req matches PolicyApplyMsg::Neighbor {
        policy_type,
        nbr_addr,
        afi_safi: family,
        routes,
        path_ids,
        missing_policy,
        policies,
        match_sets,
        default_policy,
    } && {
        let cfg = if nbr.config.afi_safi@.contains_key(afi_safi) {
            nbr.config.afi_safi@[afi_safi].apply_policy
        } else {
            nbr.config.apply_policy
        };
        &&& policy_type == PolicyType::Import
        &&& nbr_addr == nbr.remote_addr
        &&& family == afi_safi
        &&& routes@.len() == path_ids@.len()
        &&& exists|j: int|
            0 <= j < routes@.len() && (#[trigger] routes@[j]).0 == prefix && path_ids@[j] == path_id
                && is_sent_route(
                Route {
                    origin: routes@[j].1.origin,
                    attrs: routes@[j].1.attrs,
                    route_type: routes@[j].1.route_type,
                    vpn_label: None,
                    igp_cost: None,
                },
                nbr,
                attrs,
                None,
            ) && routes@[j].1.tag is None && routes@[j].1.opaque_attrs is None
        &&& match_sets == shared.policy_match_sets
        &&& default_policy == cfg.default_import_policy
        &&& are_named(cfg.import_policy, shared, missing_policy, policies@)
    }
}

proof fn request_asks<A: AddressFamily>(
    req: PolicyApplyMsg,
    nbr: Neighbor,
    shared: InstanceShared,
    paths: Seq<Path<A::Prefix>>,
    attrs: Attrs,
    i: int,
)
    requires
        req@ == import_request::<A>(
            nbr,
            import_routes::<A>(paths, received_info(nbr, attrs)),
            ids_of(paths),
            shared,
        ),
        0 <= i < paths.len(),
        nbr.identifier is Some,
    ensures
        asks_import(
            req,
            nbr,
            A::afi_safi_spec(),
            shared,
            A::to_ip_network_spec(paths[i].prefix),
            paths[i].path_id,
            attrs,
        ),
{
    let afi_safi = A::afi_safi_spec();
    let cfg = if nbr.config.afi_safi@.contains_key(afi_safi) {
        nbr.config.afi_safi@[afi_safi].apply_policy
    } else {
        nbr.config.apply_policy
    };
    let all = import_routes::<A>(paths, received_info(nbr, attrs));
    match req {
        PolicyApplyMsg::Neighbor { routes, path_ids, missing_policy, policies, .. } => {
            assert(routes@ == all);
            assert(path_ids@ == ids_of(paths));
            assert(routes@[i].0 == A::to_ip_network_spec(paths[i].prefix));
            named_policies(cfg.import_policy, shared, missing_policy, policies@);
        },
        _ => {},
    }
}

/// What a neighbor sent in IPv4 is kept on its path as it was received, with the
/// next hop that came with it, and import policies are asked for it. What was
/// accepted before stays until they have decided.
pub proof fn ipv4_routes_are_kept(
    nbr: &Neighbor,
    tables: &mut RoutingTables,
    msg: &UpdateMsg,
    shared: &InstanceShared,
    fx: &mut UpdateEffects,
    r: bool,
    nlri: ReachNlri,
    attrs: Attrs,
    i: int,
)
    requires
        call_ensures(process_nbr_update, (nbr, tables, msg, shared, fx), r),
        !r,
        nbr.identifier is Some,
        in_use(*nbr, AfiSafi::Ipv4Unicast),
        msg.reach == Some(nlri),
        msg.attrs == Some(attrs),
        0 <= i < nlri.prefixes@.len(),
        !(msg.mp_reach matches Some(MpReachNlri::Ipv4Unicast { .. })),
        !(msg.mp_unreach matches Some(MpUnreachNlri::Ipv4Unicast { .. })),
        msg.unreach matches Some(u) ==> !names_path(
            *nbr,
            AfiSafi::Ipv4Unicast,
            u.prefixes@,
            u.path_ids@,
            nlri.prefixes@[i],
            sent_id(*nbr, AfiSafi::Ipv4Unicast, nlri.path_ids@, i),
        ),
    ensures
        ({
            let p = nlri.prefixes@[i];
            let id = sent_id(*nbr, AfiSafi::Ipv4Unicast, nlri.path_ids@, i);
            let a = Attrs { base: BaseAttrs { nexthop: Some(IpAddr::V4(nlri.nexthop)), ..attrs.base }, ..attrs };
            let before = routes_of(old(tables).ipv4_unicast, p, nbr.remote_addr, id);
            let after = routes_of(final(tables).ipv4_unicast, p, nbr.remote_addr, id);
            &&& after is Some
            &&& after->0.in_pre matches Some(route) && is_sent_route(route, *nbr, a, None)
            &&& before is Some ==> after->0.in_post == before->0.in_post
            &&& before is None ==> after->0.in_post is None
            &&& exists|k: int|
                old(fx).policy@.len() <= k < final(fx).policy@.len() && asks_import(
                    #[trigger] final(fx).policy@[k],
                    *nbr,
                    AfiSafi::Ipv4Unicast,
                    *shared,
                    IpNetwork::V4(p),
                    id,
                    a,
                )
        }),
{
    let s = session_state(*old(tables), *old(fx));
    let addr = nbr.remote_addr;
    let s1 = reach_step(s, *nbr, msg@, *shared).0;
    let s2 = mp_reach_step(s1, *nbr, msg@, *shared).0;
    same_use(*nbr, AfiSafi::Ipv4Unicast);
    let paths = rx_paths(*nbr, AfiSafi::Ipv4Unicast, nlri.prefixes@, nlri.path_ids@);
    let q = paths[i];
    let a = with_nexthop(attrs, IpAddr::V4(nlri.nexthop));
    let route = Route::new_spec(nbr_origin(*nbr), a, nbr_route_type(*nbr));
    assert(paths.contains(q));
    assert(msg@.reach == Some((nlri.prefixes@, nlri.path_ids@, nlri.nexthop)));
    received_is_kept(s.ipv4.table, addr, paths, route);
    received_grows(s.ipv4, addr, paths, route);
    in_pre_needs_entry(s1.ipv4.table, q, addr);
    assert(s1.ipv4.table == received_all(s.ipv4.table, addr, paths, route));
    assert(s2.ipv4 == s1.ipv4);
    let end = unreach_steps(s2, *nbr, msg@);
    assert(session_state(*final(tables), *final(fx)) == end);
    if let Some(u) = msg.unreach {
        named_paths(*nbr, AfiSafi::Ipv4Unicast, u.prefixes@, u.path_ids@, q.prefix, q.path_id);
        let gone = rx_paths(*nbr, AfiSafi::Ipv4Unicast, u.prefixes@, u.path_ids@);
        withdrawn_all_are_gone(s2.ipv4, addr, gone);
        assert(adj_at(withdrawn_all(s2.ipv4, addr, gone).table, q, addr) == adj_at(s2.ipv4.table, q, addr));
    }
    assert(adj_at(end.ipv4.table, q, addr) == adj_at(s1.ipv4.table, q, addr));
    in_pre_needs_entry(end.ipv4.table, q, addr);
    raw_routes(old(tables).ipv4_unicast, q, addr);
    raw_routes(final(tables).ipv4_unicast, q, addr);
    // The request.
    let k = old(fx).policy@.len() as int;
    let req = import_request::<Ipv4Unicast>(
        *nbr,
        import_routes::<Ipv4Unicast>(paths, received_info(*nbr, a)),
        ids_of(paths),
        *shared,
    );
    assert(s1.policy == s.policy.push(req));
    policy_only_grows(s1, *nbr, msg@, *shared);
    assert(end.policy[k] == req);
    assert(final(fx).policy@[k]@ == req);
    request_asks::<Ipv4Unicast>(final(fx).policy@[k], *nbr, *shared, paths, a, i);
}

proof fn in_pre_needs_entry<P>(t: TableModel<P>, q: Path<P>, addr: IpAddr)
    ensures
        adj_at(t, q, addr).in_pre is Some ==> has_adj(t, q, addr),
{
}

proof fn policy_only_grows(s: SessionState, nbr: Neighbor, msg: UpdateModel, shared: InstanceShared)
    ensures
        s.policy.len() <= unreach_steps(mp_reach_step(s, nbr, msg, shared).0, nbr, msg).policy.len(),
        forall|i: int|
            0 <= i < s.policy.len() ==> unreach_steps(mp_reach_step(s, nbr, msg, shared).0, nbr, msg).policy[i]
                == #[trigger] s.policy[i],
{
}

/// What a neighbor sent in IPv6 is kept on its path as it was received, with the
/// next hops that came with it, and import policies are asked for it.
pub proof fn ipv6_routes_are_kept(
    nbr: &Neighbor,
    tables: &mut RoutingTables,
    msg: &UpdateMsg,
    shared: &InstanceShared,
    fx: &mut UpdateEffects,
    r: bool,
    prefixes: Vec<Ipv6Network>,
    path_ids: Vec<u32>,
    nexthop: Ipv6Addr,
    ll_nexthop: Option<Ipv6Addr>,
    attrs: Attrs,
    i: int,
)
    requires
        call_ensures(process_nbr_update, (nbr, tables, msg, shared, fx), r),
        !r,
        nbr.identifier is Some,
        in_use(*nbr, AfiSafi::Ipv6Unicast),
        msg.mp_reach == Some(MpReachNlri::Ipv6Unicast { prefixes, path_ids, nexthop, ll_nexthop }),
        msg.attrs == Some(attrs),
        0 <= i < prefixes@.len(),
        msg.mp_unreach matches Some(MpUnreachNlri::Ipv6Unicast { prefixes: ps, path_ids: ids }) ==> !names_path(
            *nbr,
            AfiSafi::Ipv6Unicast,
            ps@,
            ids@,
            prefixes@[i],
            sent_id(*nbr, AfiSafi::Ipv6Unicast, path_ids@, i),
        ),
    ensures
        ({
            let p = prefixes@[i];
            let id = sent_id(*nbr, AfiSafi::Ipv6Unicast, path_ids@, i);
            let a = Attrs {
                base: BaseAttrs { nexthop: Some(IpAddr::V6(nexthop)), ll_nexthop, ..attrs.base },
                ..attrs
            };
            let before = routes_of(old(tables).ipv6_unicast, p, nbr.remote_addr, id);
            let after = routes_of(final(tables).ipv6_unicast, p, nbr.remote_addr, id);
            &&& after is Some
            &&& after->0.in_pre matches Some(route) && is_sent_route(route, *nbr, a, None)
            &&& before is Some ==> after->0.in_post == before->0.in_post
            &&& before is None ==> after->0.in_post is None
            &&& exists|k: int|
                old(fx).policy@.len() <= k < final(fx).policy@.len() && asks_import(
                    #[trigger] final(fx).policy@[k],
                    *nbr,
                    AfiSafi::Ipv6Unicast,
                    *shared,
                    IpNetwork::V6(p),
                    id,
                    a,
                )
        }),
{
    let s = session_state(*old(tables), *old(fx));
    let addr = nbr.remote_addr;
    let s1 = reach_step(s, *nbr, msg@, *shared).0;
    reach_grows(s, *nbr, msg@, *shared);
    let s2 = mp_reach_step(s1, *nbr, msg@, *shared).0;
    same_use(*nbr, AfiSafi::Ipv6Unicast);
    let paths = rx_paths(*nbr, AfiSafi::Ipv6Unicast, prefixes@, path_ids@);
    let q = paths[i];
    let a = with_nexthops(attrs, IpAddr::V6(nexthop), ll_nexthop);
    let route = Route::new_spec(nbr_origin(*nbr), a, nbr_route_type(*nbr));
    assert(paths.contains(q));
    received_is_kept(s.ipv6.table, addr, paths, route);
    assert(s2.ipv6.table == received_all(s.ipv6.table, addr, paths, route));
    let end = unreach_steps(s2, *nbr, msg@);
    assert(session_state(*final(tables), *final(fx)) == end);
    if let Some(MpUnreachNlri::Ipv6Unicast { prefixes: ps, path_ids: ids }) = msg.mp_unreach {
        named_paths(*nbr, AfiSafi::Ipv6Unicast, ps@, ids@, q.prefix, q.path_id);
        let gone = rx_paths(*nbr, AfiSafi::Ipv6Unicast, ps@, ids@);
        withdrawn_all_are_gone(s2.ipv6, addr, gone);
        assert(adj_at(withdrawn_all(s2.ipv6, addr, gone).table, q, addr) == adj_at(s2.ipv6.table, q, addr));
    }
    assert(adj_at(end.ipv6.table, q, addr) == adj_at(s2.ipv6.table, q, addr));
    in_pre_needs_entry(end.ipv6.table, q, addr);
    raw_routes(old(tables).ipv6_unicast, q, addr);
    raw_routes(final(tables).ipv6_unicast, q, addr);
    let req = import_request::<Ipv6Unicast>(
        *nbr,
        import_routes::<Ipv6Unicast>(paths, received_info(*nbr, a)),
        ids_of(paths),
        *shared,
    );
    assert(s2.policy == s1.policy.push(req));
    let k = s1.policy.len() as int;
    assert(end.policy == s2.policy);
    assert(apply_models(final(fx).policy@) == end.policy);
    assert(apply_models(final(fx).policy@)[k] == req);
    assert(final(fx).policy@[k]@ == req);
    assert(apply_models(old(fx).policy@) == s.policy);
    assert(s.policy.len() <= s1.policy.len());
    request_asks::<Ipv6Unicast>(final(fx).policy@[k], *nbr, *shared, paths, a, i);
}

proof fn learned_path<P>(s: InState<P>, addr: IpAddr, ps: Seq<(Path<P>, Label)>, route: Route, i: int)
    requires
        0 <= i < ps.len(),
        forall|j: int| i < j < ps.len() ==> (#[trigger] ps[j]).0 != ps[i].0,
    ensures
        ({
            let u = learned_all(s, addr, ps, route);
            let own = Route { vpn_label: Some(ps[i].1), ..route };
            &&& has_adj(u.table, ps[i].0, addr)
            &&& adj_at(u.table, ps[i].0, addr).in_pre == Some(own)
            &&& adj_at(u.table, ps[i].0, addr).in_post == Some(own)
            &&& u.table.queued.contains(ps[i].0.prefix)
            &&& u.ops.skip(s.ops.len() as int).contains(NexthopOp::Track { prefix: ps[i].0.prefix, route: own })
        }),
    decreases ps.len(),
{
    let init = ps.drop_last();
    let u = learned_all(s, addr, init, route);
    let v = learned_all(s, addr, ps, route);
    learned_grows(s, addr, init, route);
    learned_grows(s, addr, ps, route);
    let own = Route { vpn_label: Some(ps[i].1), ..route };
    let x = NexthopOp::Track { prefix: ps[i].0.prefix, route: own };
    if i < init.len() {
        assert(init[i] == ps[i]);
        assert forall|j: int| i < j < init.len() implies (#[trigger] init[j]).0 != init[i].0 by {
            assert(init[j] == ps[j]);
        }
        learned_path(s, addr, init, route, i);
        assert(ps[ps.len() - 1].0 != ps[i].0);
        let tail = u.ops.skip(s.ops.len() as int);
        let n = choose|n: int| 0 <= n < tail.len() && tail[n] == x;
        assert(v.ops.skip(s.ops.len() as int)[n] == x);
    } else {
        assert(ps.last() == ps[i]);
        assert(v.ops.last() == x);
        assert(v.ops.skip(s.ops.len() as int)[v.ops.len() - s.ops.len() - 1] == x);
    }
}

/// What is known after a labeled route was learned without policies: it is kept
/// both as received and as accepted, its prefix is queued, and its next hop is
/// to be tracked.
pub open spec fn is_learned<P: Ranked>(
    after: RoutingTable<P>,
    nbr: Neighbor,
    p: P,
    path_id: u32,
    attrs: Attrs,
    label: Label,
) -> bool {
    &&& routes_of(after, p, nbr.remote_addr, path_id) matches Some(adj) && (adj.in_pre matches Some(route)
        && is_sent_route(route, nbr, attrs, Some(label)) && adj.in_post == Some(route))
    &&& after.queued_prefixes@.contains(p)
}

/// VPN and EVPN routes are taken over at once, with their labels and the next hop
/// that came with them. Of several on one path the last counts.
pub proof fn labeled_routes_are_learned(
    nbr: &Neighbor,
    tables: &mut RoutingTables,
    msg: &UpdateMsg,
    shared: &InstanceShared,
    fx: &mut UpdateEffects,
    r: bool,
    attrs: Attrs,
    i: int,
)
    requires
        call_ensures(process_nbr_update, (nbr, tables, msg, shared, fx), r),
        !r,
        nbr.identifier is Some,
        msg.mp_reach is Some,
        msg.mp_unreach is None,
        msg.attrs == Some(attrs),
        0 <= i,
    ensures
        match msg.mp_reach->0 {
            MpReachNlri::L3vpnIpv4Unicast { prefixes, path_ids, nexthop } => in_use(
                *nbr,
                AfiSafi::L3vpnIpv4Unicast,
            ) && i < prefixes@.len() && (forall|j: int|
                i < j < prefixes@.len() ==> (#[trigger] prefixes@[j]).rd != prefixes@[i].rd || prefixes@[j].prefix
                    != prefixes@[i].prefix || sent_id(*nbr, AfiSafi::L3vpnIpv4Unicast, path_ids@, j) != sent_id(
                    *nbr,
                    AfiSafi::L3vpnIpv4Unicast,
                    path_ids@,
                    i,
                )) ==> is_learned(
                final(tables).vpnv4_unicast,
                *nbr,
                Vpnv4Prefix { rd: prefixes@[i].rd, prefix: prefixes@[i].prefix },
                sent_id(*nbr, AfiSafi::L3vpnIpv4Unicast, path_ids@, i),
                Attrs { base: BaseAttrs { nexthop: Some(IpAddr::V4(nexthop)), ..attrs.base }, ..attrs },
                Label(prefixes@[i].label),
            ),
            MpReachNlri::L3vpnIpv6Unicast { prefixes, path_ids, nexthop } => in_use(
                *nbr,
                AfiSafi::L3vpnIpv6Unicast,
            ) && i < prefixes@.len() && (forall|j: int|
                i < j < prefixes@.len() ==> (#[trigger] prefixes@[j]).rd != prefixes@[i].rd || prefixes@[j].prefix
                    != prefixes@[i].prefix || sent_id(*nbr, AfiSafi::L3vpnIpv6Unicast, path_ids@, j) != sent_id(
                    *nbr,
                    AfiSafi::L3vpnIpv6Unicast,
                    path_ids@,
                    i,
                )) ==> is_learned(
                final(tables).vpnv6_unicast,
                *nbr,
                Vpnv6Prefix { rd: prefixes@[i].rd, prefix: prefixes@[i].prefix },
                sent_id(*nbr, AfiSafi::L3vpnIpv6Unicast, path_ids@, i),
                Attrs { base: BaseAttrs { nexthop: Some(IpAddr::V6(nexthop)), ..attrs.base }, ..attrs },
                Label(prefixes@[i].label),
            ),
            MpReachNlri::L2vpnEvpn { routes, path_ids, nexthop } => in_use(*nbr, AfiSafi::L2vpnEvpn) && i
                < routes@.len() && (forall|j: int|
                i < j < routes@.len() ==> #[trigger] routes@[j] != routes@[i] || sent_id(
                    *nbr,
                    AfiSafi::L2vpnEvpn,
                    path_ids@,
                    j,
                ) != sent_id(*nbr, AfiSafi::L2vpnEvpn, path_ids@, i)) ==> is_learned(
                final(tables).l2vpn_evpn,
                *nbr,
                routes@[i],
                sent_id(*nbr, AfiSafi::L2vpnEvpn, path_ids@, i),
                Attrs { base: BaseAttrs { nexthop: Some(nexthop), ..attrs.base }, ..attrs },
                Label(0),
            ),
            _ => true,
        },
{
    let s = session_state(*old(tables), *old(fx));
    let addr = nbr.remote_addr;
    let s1 = reach_step(s, *nbr, msg@, *shared).0;
    reach_grows(s, *nbr, msg@, *shared);
    let s2 = mp_reach_step(s1, *nbr, msg@, *shared).0;
    let end = unreach_steps(s2, *nbr, msg@);
    assert(session_state(*final(tables), *final(fx)) == end);
    match msg.mp_reach->0 {
        MpReachNlri::L3vpnIpv4Unicast { prefixes, path_ids, nexthop } => {
            same_use(*nbr, AfiSafi::L3vpnIpv4Unicast);
            let paths = rx_paths(*nbr, AfiSafi::L3vpnIpv4Unicast, vpnv4_prefixes(prefixes@), path_ids@);
            let all = labeled_paths(paths, vpnv4_labels(prefixes@));
            let a = with_nexthop(attrs, IpAddr::V4(nexthop));
            let route = Route::new_spec(nbr_origin(*nbr), a, nbr_route_type(*nbr));
            if in_use(*nbr, AfiSafi::L3vpnIpv4Unicast) && i < prefixes@.len() && (forall|j: int|
                i < j < prefixes@.len() ==> (#[trigger] prefixes@[j]).rd != prefixes@[i].rd || prefixes@[j].prefix
                    != prefixes@[i].prefix || sent_id(*nbr, AfiSafi::L3vpnIpv4Unicast, path_ids@, j) != sent_id(
                    *nbr,
                    AfiSafi::L3vpnIpv4Unicast,
                    path_ids@,
                    i,
                )) {
                assert forall|j: int| i < j < all.len() implies (#[trigger] all[j]).0 != all[i].0 by {
                    let x = prefixes@[j];
                    assert(all[j].0.prefix.rd == x.rd && all[j].0.prefix.prefix == x.prefix);
                }
                learned_path(s.vpnv4, addr, all, route, i);
                raw_routes(final(tables).vpnv4_unicast, paths[i], addr);
            }
        },
        MpReachNlri::L3vpnIpv6Unicast { prefixes, path_ids, nexthop } => {
            same_use(*nbr, AfiSafi::L3vpnIpv6Unicast);
            let paths = rx_paths(*nbr, AfiSafi::L3vpnIpv6Unicast, vpnv6_prefixes(prefixes@), path_ids@);
            let all = labeled_paths(paths, vpnv6_labels(prefixes@));
            let a = with_nexthop(attrs, IpAddr::V6(nexthop));
            let route = Route::new_spec(nbr_origin(*nbr), a, nbr_route_type(*nbr));
            if in_use(*nbr, AfiSafi::L3vpnIpv6Unicast) && i < prefixes@.len() && (forall|j: int|
                i < j < prefixes@.len() ==> (#[trigger] prefixes@[j]).rd != prefixes@[i].rd || prefixes@[j].prefix
                    != prefixes@[i].prefix || sent_id(*nbr, AfiSafi::L3vpnIpv6Unicast, path_ids@, j) != sent_id(
                    *nbr,
                    AfiSafi::L3vpnIpv6Unicast,
                    path_ids@,
                    i,
                )) {
                assert forall|j: int| i < j < all.len() implies (#[trigger] all[j]).0 != all[i].0 by {
                    let x = prefixes@[j];
                    assert(all[j].0.prefix.rd == x.rd && all[j].0.prefix.prefix == x.prefix);
                }
                learned_path(s.vpnv6, addr, all, route, i);
                raw_routes(final(tables).vpnv6_unicast, paths[i], addr);
            }
        },
        MpReachNlri::L2vpnEvpn { routes, path_ids, nexthop } => {
            same_use(*nbr, AfiSafi::L2vpnEvpn);
            let paths = rx_paths(*nbr, AfiSafi::L2vpnEvpn, routes@, path_ids@);
            let all = labeled_paths(paths, evpn_labels(routes@));
            let a = with_nexthop(attrs, nexthop);
            let route = Route::new_spec(nbr_origin(*nbr), a, nbr_route_type(*nbr));
            if in_use(*nbr, AfiSafi::L2vpnEvpn) && i < routes@.len() && (forall|j: int|
                i < j < routes@.len() ==> #[trigger] routes@[j] != routes@[i] || sent_id(
                    *nbr,
                    AfiSafi::L2vpnEvpn,
                    path_ids@,
                    j,
                ) != sent_id(*nbr, AfiSafi::L2vpnEvpn, path_ids@, i)) {
                assert forall|j: int| i < j < all.len() implies (#[trigger] all[j]).0 != all[i].0 by {
                    let x = routes@[j];
                    assert(all[j].0.prefix == x);
                }
                learned_path(s.evpn, addr, all, route, i);
                raw_routes(final(tables).l2vpn_evpn, paths[i], addr);
            }
        },
        _ => {},
    }
}

/// Prefixes that a message announces without attributes are withdrawn.
pub proof fn bare_announcements_withdraw(
    nbr: &Neighbor,
    tables: &mut RoutingTables,
    msg: &UpdateMsg,
    shared: &InstanceShared,
    fx: &mut UpdateEffects,
    r: bool,
    i: int,
)
    requires
        call_ensures(process_nbr_update, (nbr, tables, msg, shared, fx), r),
        msg.attrs is None,
        msg.unreach is None,
        msg.mp_unreach is None,
        0 <= i,
    ensures
        !r,
        msg.mp_reach is None ==> (msg.reach matches Some(nlri) ==> in_use(*nbr, AfiSafi::Ipv4Unicast) && i
            < nlri.prefixes@.len() ==> path_withdrawn(
            old(tables).ipv4_unicast,
            final(tables).ipv4_unicast,
            nlri.prefixes@[i],
            nbr.remote_addr,
            sent_id(*nbr, AfiSafi::Ipv4Unicast, nlri.path_ids@, i),
        )),
        msg.mp_reach matches Some(MpReachNlri::Ipv6Unicast { prefixes, path_ids, .. }) ==> in_use(
            *nbr,
            AfiSafi::Ipv6Unicast,
        ) && i < prefixes@.len() ==> path_withdrawn(
            old(tables).ipv6_unicast,
            final(tables).ipv6_unicast,
            prefixes@[i],
            nbr.remote_addr,
            sent_id(*nbr, AfiSafi::Ipv6Unicast, path_ids@, i),
        ),
        msg.mp_reach matches Some(MpReachNlri::L3vpnIpv4Unicast { prefixes, path_ids, .. }) ==> in_use(
            *nbr,
            AfiSafi::L3vpnIpv4Unicast,
        ) && i < prefixes@.len() ==> path_withdrawn(
            old(tables).vpnv4_unicast,
            final(tables).vpnv4_unicast,
            Vpnv4Prefix { rd: prefixes@[i].rd, prefix: prefixes@[i].prefix },
            nbr.remote_addr,
            sent_id(*nbr, AfiSafi::L3vpnIpv4Unicast, path_ids@, i),
        ),
        msg.mp_reach matches Some(MpReachNlri::L3vpnIpv6Unicast { prefixes, path_ids, .. }) ==> in_use(
            *nbr,
            AfiSafi::L3vpnIpv6Unicast,
        ) && i < prefixes@.len() ==> path_withdrawn(
            old(tables).vpnv6_unicast,
            final(tables).vpnv6_unicast,
            Vpnv6Prefix { rd: prefixes@[i].rd, prefix: prefixes@[i].prefix },
            nbr.remote_addr,
            sent_id(*nbr, AfiSafi::L3vpnIpv6Unicast, path_ids@, i),
        ),
        msg.mp_reach matches Some(MpReachNlri::L2vpnEvpn { routes, path_ids, .. }) ==> in_use(
            *nbr,
            AfiSafi::L2vpnEvpn,
        ) && i < routes@.len() ==> path_withdrawn(
            old(tables).l2vpn_evpn,
            final(tables).l2vpn_evpn,
            routes@[i],
            nbr.remote_addr,
            sent_id(*nbr, AfiSafi::L2vpnEvpn, path_ids@, i),
        ),
{
    let s = session_state(*old(tables), *old(fx));
    let addr = nbr.remote_addr;
    if let Some(nlri) = msg.reach {
        same_use(*nbr, AfiSafi::Ipv4Unicast);
        let paths = rx_paths(*nbr, AfiSafi::Ipv4Unicast, nlri.prefixes@, nlri.path_ids@);
        if i < nlri.prefixes@.len() {
            assert(paths.contains(paths[i]));
            withdrawn_path(s.ipv4, addr, paths, paths[i]);
            raw_routes(old(tables).ipv4_unicast, paths[i], addr);
            raw_routes(final(tables).ipv4_unicast, paths[i], addr);
        }
    }
    match msg.mp_reach {
        Some(MpReachNlri::Ipv6Unicast { prefixes, path_ids, .. }) => {
            same_use(*nbr, AfiSafi::Ipv6Unicast);
            let paths = rx_paths(*nbr, AfiSafi::Ipv6Unicast, prefixes@, path_ids@);
            if i < prefixes@.len() {
                assert(paths.contains(paths[i]));
                withdrawn_path(s.ipv6, addr, paths, paths[i]);
                raw_routes(old(tables).ipv6_unicast, paths[i], addr);
                raw_routes(final(tables).ipv6_unicast, paths[i], addr);
            }
        },
        Some(MpReachNlri::L3vpnIpv4Unicast { prefixes, path_ids, .. }) => {
            same_use(*nbr, AfiSafi::L3vpnIpv4Unicast);
            let paths = rx_paths(*nbr, AfiSafi::L3vpnIpv4Unicast, vpnv4_prefixes(prefixes@), path_ids@);
            if i < prefixes@.len() {
                assert(paths.contains(paths[i]));
                withdrawn_path(s.vpnv4, addr, paths, paths[i]);
                raw_routes(old(tables).vpnv4_unicast, paths[i], addr);
                raw_routes(final(tables).vpnv4_unicast, paths[i], addr);
            }
        },
        Some(MpReachNlri::L3vpnIpv6Unicast { prefixes, path_ids, .. }) => {
            same_use(*nbr, AfiSafi::L3vpnIpv6Unicast);
            let paths = rx_paths(*nbr, AfiSafi::L3vpnIpv6Unicast, vpnv6_prefixes(prefixes@), path_ids@);
            if i < prefixes@.len() {
                assert(paths.contains(paths[i]));
                withdrawn_path(s.vpnv6, addr, paths, paths[i]);
                raw_routes(old(tables).vpnv6_unicast, paths[i], addr);
                raw_routes(final(tables).vpnv6_unicast, paths[i], addr);
            }
        },
        Some(MpReachNlri::L2vpnEvpn { routes, path_ids, .. }) => {
            same_use(*nbr, AfiSafi::L2vpnEvpn);
            let paths = rx_paths(*nbr, AfiSafi::L2vpnEvpn, routes@, path_ids@);
            if i < routes@.len() && in_use(*nbr, AfiSafi::L2vpnEvpn) {
                let u = withdrawn_all(s.evpn, addr, paths);
                assert(paths.contains(paths[i]));
                withdrawn_path(s.evpn, addr, paths, paths[i]);
                segments_grow(u, addr, withdrawn_segments(prefixes_of(paths)), paths[i]);
                raw_routes(old(tables).l2vpn_evpn, paths[i], addr);
                raw_routes(final(tables).l2vpn_evpn, paths[i], addr);
            }
        },
        _ => {},
    }
}

/// A message that withdraws has the next hops of the routes that it removes
/// untracked: each route that was accepted on a withdrawn path, for its prefix.
pub proof fn withdrawn_next_hops_are_untracked(
    nbr: &Neighbor,
    tables: &mut RoutingTables,
    msg: &UpdateMsg,
    shared: &InstanceShared,
    fx: &mut UpdateEffects,
    r: bool,
    i: int,
)
    requires
        call_ensures(process_nbr_update, (nbr, tables, msg, shared, fx), r),
        msg.reach is None,
        msg.mp_reach is None,
        0 <= i,
    ensures
        !r,
        msg.mp_unreach is None ==> (msg.unreach matches Some(nlri) ==> in_use(*nbr, AfiSafi::Ipv4Unicast) && i
            < nlri.prefixes@.len() ==> untracked(
            old(tables).ipv4_unicast,
            old(fx).ipv4@,
            final(fx).ipv4@,
            nlri.prefixes@[i],
            nbr.remote_addr,
            sent_id(*nbr, AfiSafi::Ipv4Unicast, nlri.path_ids@, i),
        )),
        msg.mp_unreach matches Some(MpUnreachNlri::Ipv6Unicast { prefixes, path_ids }) ==> in_use(
            *nbr,
            AfiSafi::Ipv6Unicast,
        ) && i < prefixes@.len() ==> untracked(
            old(tables).ipv6_unicast,
            old(fx).ipv6@,
            final(fx).ipv6@,
            prefixes@[i],
            nbr.remote_addr,
            sent_id(*nbr, AfiSafi::Ipv6Unicast, path_ids@, i),
        ),
        msg.mp_unreach matches Some(MpUnreachNlri::L3vpnIpv4Unicast { prefixes, path_ids }) ==> in_use(
            *nbr,
            AfiSafi::L3vpnIpv4Unicast,
        ) && i < prefixes@.len() ==> untracked(
            old(tables).vpnv4_unicast,
            old(fx).vpnv4@,
            final(fx).vpnv4@,
            Vpnv4Prefix { rd: prefixes@[i].rd, prefix: prefixes@[i].prefix },
            nbr.remote_addr,
            sent_id(*nbr, AfiSafi::L3vpnIpv4Unicast, path_ids@, i),
        ),
        msg.mp_unreach matches Some(MpUnreachNlri::L3vpnIpv6Unicast { prefixes, path_ids }) ==> in_use(
            *nbr,
            AfiSafi::L3vpnIpv6Unicast,
        ) && i < prefixes@.len() ==> untracked(
            old(tables).vpnv6_unicast,
            old(fx).vpnv6@,
            final(fx).vpnv6@,
            Vpnv6Prefix { rd: prefixes@[i].rd, prefix: prefixes@[i].prefix },
            nbr.remote_addr,
            sent_id(*nbr, AfiSafi::L3vpnIpv6Unicast, path_ids@, i),
        ),
        msg.mp_unreach matches Some(MpUnreachNlri::L2vpnEvpn { routes, path_ids }) ==> in_use(
            *nbr,
            AfiSafi::L2vpnEvpn,
        ) && i < routes@.len() ==> untracked(
            old(tables).l2vpn_evpn,
            old(fx).evpn@,
            final(fx).evpn@,
            routes@[i],
            nbr.remote_addr,
            sent_id(*nbr, AfiSafi::L2vpnEvpn, path_ids@, i),
        ),
{
    let s = session_state(*old(tables), *old(fx));
    let addr = nbr.remote_addr;
    if let Some(nlri) = msg.unreach {
        same_use(*nbr, AfiSafi::Ipv4Unicast);
        let paths = rx_paths(*nbr, AfiSafi::Ipv4Unicast, nlri.prefixes@, nlri.path_ids@);
        if i < nlri.prefixes@.len() {
            assert(paths.contains(paths[i]));
            withdrawn_path(s.ipv4, addr, paths, paths[i]);
            raw_routes(old(tables).ipv4_unicast, paths[i], addr);
        }
    }
    match msg.mp_unreach {
        Some(MpUnreachNlri::Ipv6Unicast { prefixes, path_ids }) => {
            same_use(*nbr, AfiSafi::Ipv6Unicast);
            let paths = rx_paths(*nbr, AfiSafi::Ipv6Unicast, prefixes@, path_ids@);
            if i < prefixes@.len() {
                assert(paths.contains(paths[i]));
                withdrawn_path(s.ipv6, addr, paths, paths[i]);
                raw_routes(old(tables).ipv6_unicast, paths[i], addr);
            }
        },
        Some(MpUnreachNlri::L3vpnIpv4Unicast { prefixes, path_ids }) => {
            same_use(*nbr, AfiSafi::L3vpnIpv4Unicast);
            let paths = rx_paths(*nbr, AfiSafi::L3vpnIpv4Unicast, vpnv4_prefixes(prefixes@), path_ids@);
            if i < prefixes@.len() {
                assert(paths.contains(paths[i]));
                withdrawn_path(s.vpnv4, addr, paths, paths[i]);
                raw_routes(old(tables).vpnv4_unicast, paths[i], addr);
            }
        },
        Some(MpUnreachNlri::L3vpnIpv6Unicast { prefixes, path_ids }) => {
            same_use(*nbr, AfiSafi::L3vpnIpv6Unicast);
            let paths = rx_paths(*nbr, AfiSafi::L3vpnIpv6Unicast, vpnv6_prefixes(prefixes@), path_ids@);
            if i < prefixes@.len() {
                assert(paths.contains(paths[i]));
                withdrawn_path(s.vpnv6, addr, paths, paths[i]);
                raw_routes(old(tables).vpnv6_unicast, paths[i], addr);
            }
        },
        Some(MpUnreachNlri::L2vpnEvpn { routes, path_ids }) => {
            same_use(*nbr, AfiSafi::L2vpnEvpn);
            let paths = rx_paths(*nbr, AfiSafi::L2vpnEvpn, routes@, path_ids@);
            if i < routes@.len() && in_use(*nbr, AfiSafi::L2vpnEvpn) {
                let u = withdrawn_all(s.evpn, addr, paths);
                assert(paths.contains(paths[i]));
                withdrawn_path(s.evpn, addr, paths, paths[i]);
                segments_grow(u, addr, withdrawn_segments(prefixes_of(paths)), paths[i]);
                raw_routes(old(tables).l2vpn_evpn, paths[i], addr);
                withdrawn_grows(s.evpn, addr, paths);
                if let Some(route) = adj_at(s.evpn.table, paths[i], addr).in_post {
                    let x = NexthopOp::Untrack { prefix: paths[i].prefix, route };
                    let tail = u.ops.skip(s.evpn.ops.len() as int);
                    let n = choose|n: int| 0 <= n < tail.len() && tail[n] == x;
                    assert(u.ops[n + s.evpn.ops.len()] == x);
                    assert(final(fx).evpn@.skip(old(fx).evpn@.len() as int)[n] == x);
                }
            }
        },
        _ => {},
    }
}

/// Whether the next hop of the route that was accepted on a path is untracked by
/// changes that came to a list.
pub open spec fn untracked<P: Ranked>(
    before: RoutingTable<P>,
    ops: Seq<NexthopOp<P>>,
    ops_after: Seq<NexthopOp<P>>,
    p: P,
    addr: IpAddr,
    path_id: u32,
) -> bool {
    routes_of(before, p, addr, path_id) matches Some(adj) ==> (adj.in_post matches Some(route)
        ==> ops_after.skip(ops.len() as int).contains(NexthopOp::Untrack { prefix: p, route }))
}

/// An address family that is not in use is left alone, whatever a message holds
/// of it.
pub proof fn unused_families_are_left_alone(
    nbr: &Neighbor,
    tables: &mut RoutingTables,
    msg: &UpdateMsg,
    shared: &InstanceShared,
    fx: &mut UpdateEffects,
    r: bool,
)
    requires
        call_ensures(process_nbr_update, (nbr, tables, msg, shared, fx), r),
    ensures
        !in_use(*nbr, AfiSafi::Ipv4Unicast) ==> final(tables).ipv4_unicast@ == old(tables).ipv4_unicast@ && final(fx).ipv4@ == old(fx).ipv4@,
        !in_use(*nbr, AfiSafi::Ipv6Unicast) ==> final(tables).ipv6_unicast@ == old(tables).ipv6_unicast@ && final(fx).ipv6@ == old(fx).ipv6@,
        !in_use(*nbr, AfiSafi::L3vpnIpv4Unicast) ==> final(tables).vpnv4_unicast@ == old(tables).vpnv4_unicast@
            && final(fx).vpnv4@ == old(fx).vpnv4@,
        !in_use(*nbr, AfiSafi::L3vpnIpv6Unicast) ==> final(tables).vpnv6_unicast@ == old(tables).vpnv6_unicast@
            && final(fx).vpnv6@ == old(fx).vpnv6@,
{
    let s = session_state(*old(tables), *old(fx));
    same_use(*nbr, AfiSafi::Ipv4Unicast);
    same_use(*nbr, AfiSafi::Ipv6Unicast);
    same_use(*nbr, AfiSafi::L3vpnIpv4Unicast);
    same_use(*nbr, AfiSafi::L3vpnIpv6Unicast);
    let (s1, exceeded1) = reach_step(s, *nbr, msg@, *shared);
    reach_spares_unused(s, *nbr, msg@, *shared);
    let (s2, exceeded2) = mp_reach_step(s1, *nbr, msg@, *shared);
    mp_reach_spares_unused(s1, *nbr, msg@, *shared);
    unreach_spares_unused(s2, *nbr, msg@);
}

/// Whether two states agree on the families that are not in use with a neighbor.
pub open spec fn same_unused(s: SessionState, u: SessionState, nbr: Neighbor) -> bool {
    &&& !nbr.af_in_use(AfiSafi::Ipv4Unicast) ==> u.ipv4 == s.ipv4
    &&& !nbr.af_in_use(AfiSafi::Ipv6Unicast) ==> u.ipv6 == s.ipv6
    &&& !nbr.af_in_use(AfiSafi::L3vpnIpv4Unicast) ==> u.vpnv4 == s.vpnv4
    &&& !nbr.af_in_use(AfiSafi::L3vpnIpv6Unicast) ==> u.vpnv6 == s.vpnv6
}

proof fn reach_spares_unused(s: SessionState, nbr: Neighbor, msg: UpdateModel, shared: InstanceShared)
    ensures
        same_unused(s, reach_step(s, nbr, msg, shared).0, nbr),
{
}

proof fn mp_reach_spares_unused(s: SessionState, nbr: Neighbor, msg: UpdateModel, shared: InstanceShared)
    ensures
        same_unused(s, mp_reach_step(s, nbr, msg, shared).0, nbr),
{
    if let (Some(reach), None) = (msg.mp_reach, msg.attrs) {
        mp_withdraw_spares_unused(s, nbr, reach_as_unreach(reach));
    }
}

proof fn mp_withdraw_spares_unused(s: SessionState, nbr: Neighbor, unreach: MpUnreachModel)
    ensures
        same_unused(s, mp_withdraw(s, nbr, unreach), nbr),
{
}

proof fn unreach_spares_unused(s: SessionState, nbr: Neighbor, msg: UpdateModel)
    ensures
        same_unused(s, unreach_steps(s, nbr, msg), nbr),
{
    let t = match msg.unreach {
        Some((ps, ids)) => {
            let paths = rx_paths(nbr, AfiSafi::Ipv4Unicast, ps, ids);
            SessionState { ipv4: unreach_effect(s.ipv4, nbr, AfiSafi::Ipv4Unicast, paths), ..s }
        },
        None => s,
    };
    if let Some(unreach) = msg.mp_unreach {
        mp_withdraw_spares_unused(t, nbr, unreach);
    }
}

}
