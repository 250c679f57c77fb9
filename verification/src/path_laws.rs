//! What holds of paths: which are listed, which identifiers they get, and which
//! are offered, held and sent again.
use crate::af::attrs_fit;
use crate::af::chunked;
use crate::af::entry_updates;
use crate::af::path_size;
use crate::af::queue_fits;
use crate::af::queue_updates;
use crate::af::reach_updates;
use crate::af::room;
use crate::af::unreach_updates;
use crate::af::AddressFamily;
use crate::af::Ipv4Unicast;
use crate::attribute::attrs_length;
use crate::attribute::Attrs;
use crate::decision::accepted_paths;
use crate::decision::advertisement_changes;
use crate::decision::all_advertised;
use crate::decision::assigned_all;
use crate::decision::best_routes;
use crate::decision::candidates;
use crate::decision::exported_all;
use crate::decision::identified;
use crate::decision::offered;
use crate::decision::own_route;
use crate::decision::resent;
use crate::decision::result_path;
use crate::decision::selection_offer;
use crate::decision::OutState;
use crate::decision::Selection;
use crate::ip::IpAddr;
use crate::ip::IpNetwork;
use crate::ip::Ipv4Network;
use crate::message::UpdateModel;
use crate::message::MAX_LEN;
use crate::message::UPDATE_MIN_LEN;
use crate::neighbor::reach_added;
use crate::neighbor::reach_index;
use crate::neighbor::reach_index_bound;
use crate::neighbor::Neighbor;
use crate::neighbor::QueueModel;
use crate::ord::finite_sets_have_order;
use crate::ord::in_order;
use crate::ord::one_order;
use crate::ord::Key;
use crate::ord::Ranked;
use crate::path::ids_distinct;
use crate::path::ids_of;
use crate::path::ids_wf;
use crate::path::prefixes_of;
use crate::path::Path;
use crate::path::PathIdsModel;
use crate::path::PeerPath;
use crate::policy::RoutePolicyInfo;
use crate::policy_types::PolicyResult;
use crate::protocol::Label;
use crate::rib::adj_at;
use crate::rib::asked;
use crate::rib::dest_at;
use crate::rib::dest_routes;
use crate::rib::prefix_routes;
use crate::rib::route_path;
use crate::rib::route_paths;
use crate::rib::side_route;
use crate::rib::table_routes;
use crate::rib::AdjRib;
use crate::rib::AdjSide;
use crate::rib::PeerRoute;
use crate::rib::TableModel;
use vstd::prelude::*;

verus! {

proof fn dest_routes_prefix<P>(
    p: P,
    adj_rib: Map<PeerPath, AdjRib>,
    peers: Seq<PeerPath>,
    side: AdjSide,
    addr: Option<IpAddr>,
    i: int,
)
    requires
        0 <= i < dest_routes(p, adj_rib, peers, side, addr).len(),
    ensures
        dest_routes(p, adj_rib, peers, side, addr)[i].prefix == p,
    decreases peers.len(),
{
    if peers.len() > 0 {
        let rest = dest_routes(p, adj_rib, peers.drop_last(), side, addr);
        if i < rest.len() {
            dest_routes_prefix(p, adj_rib, peers.drop_last(), side, addr, i);
        }
    }
}

/// What is listed for some prefixes is about these prefixes.
pub proof fn listed_prefixes<P>(t: TableModel<P>, ps: Seq<P>, side: AdjSide, addr: Option<IpAddr>, i: int)
    requires
        0 <= i < table_routes(t, ps, side, addr).len(),
    ensures
        ps.contains(table_routes(t, ps, side, addr)[i].prefix),
    decreases ps.len(),
{
    if ps.len() > 0 {
        let init = ps.drop_last();
        let rest = table_routes(t, init, side, addr);
        if i < rest.len() {
            listed_prefixes(t, init, side, addr, i);
            let k = choose|k: int| 0 <= k < init.len() && init[k] == rest[i].prefix;
            assert(ps[k] == rest[i].prefix);
        } else {
            let adj_rib = dest_at(t, ps.last()).adj_rib;
            dest_routes_prefix(
                ps.last(),
                adj_rib,
                in_order::<PeerPath>(adj_rib.dom()),
                side,
                addr,
                i - rest.len(),
            );
            assert(ps[ps.len() - 1] == ps.last());
        }
    }
}

/// Every destination has finitely many paths.
pub open spec fn finitely_many_paths<P>(t: TableModel<P>) -> bool {
    forall|p: P| (#[trigger] dest_at(t, p)).adj_rib.dom().finite()
}

/// Whether a route is kept in a table on one side.
pub open spec fn kept_on<P>(t: TableModel<P>, r: PeerRoute<P>, side: AdjSide) -> bool {
    side_route(adj_at(t, route_path(r), r.peer.addr), side) == Some(r.route)
}

proof fn dest_routes_exact<P>(
    p: P,
    adj_rib: Map<PeerPath, AdjRib>,
    peers: Seq<PeerPath>,
    side: AdjSide,
    addr: Option<IpAddr>,
    r: PeerRoute<P>,
)
    ensures
        dest_routes(p, adj_rib, peers, side, addr).contains(r) <==> r.prefix == p && peers.contains(r.peer)
            && side_route(adj_rib[r.peer], side) == Some(r.route) && asked(addr, r.peer),
    decreases peers.len(),
{
    let all = dest_routes(p, adj_rib, peers, side, addr);
    if peers.len() > 0 {
        let init = peers.drop_last();
        let last = peers.last();
        let rest = dest_routes(p, adj_rib, init, side, addr);
        dest_routes_exact(p, adj_rib, init, side, addr, r);
        assert(peers[peers.len() - 1] == last);
        if rest.contains(r) {
            let i = choose|i: int| 0 <= i < rest.len() && rest[i] == r;
            assert(all[i] == r);
            let k = choose|k: int| 0 <= k < init.len() && init[k] == r.peer;
            assert(peers[k] == r.peer);
        }
        if all.contains(r) && !rest.contains(r) {
            let i = choose|i: int| 0 <= i < all.len() && all[i] == r;
            if i < rest.len() {
                assert(rest[i] == r);
            }
            assert(all[i] == all.last());
        }
        if peers.contains(r.peer) && r.prefix == p && side_route(adj_rib[r.peer], side) == Some(r.route) && asked(
            addr,
            r.peer,
        ) {
            let k = choose|k: int| 0 <= k < peers.len() && peers[k] == r.peer;
            if k < init.len() {
                assert(init[k] == r.peer);
                assert(init.contains(r.peer));
            } else {
                assert(all == rest.push(r));
                assert(all[rest.len() as int] == r);
            }
        }
    }
}

proof fn dest_routes_ordered<P>(
    p: P,
    adj_rib: Map<PeerPath, AdjRib>,
    peers: Seq<PeerPath>,
    side: AdjSide,
    addr: Option<IpAddr>,
)
    requires
        forall|i: int, j: int| 0 <= i < j < peers.len() ==> PeerPath::before(#[trigger] peers[i], #[trigger] peers[j]),
    ensures
        forall|i: int, j: int|
            0 <= i < j < dest_routes(p, adj_rib, peers, side, addr).len() ==> PeerPath::before(
                (#[trigger] dest_routes(p, adj_rib, peers, side, addr)[i]).peer,
                (#[trigger] dest_routes(p, adj_rib, peers, side, addr)[j]).peer,
            ),
    decreases peers.len(),
{
    let all = dest_routes(p, adj_rib, peers, side, addr);
    if peers.len() > 0 {
        let init = peers.drop_last();
        let last = peers[peers.len() - 1];
        let rest = dest_routes(p, adj_rib, init, side, addr);
        assert forall|i: int, j: int| 0 <= i < j < init.len() implies PeerPath::before(
            #[trigger] init[i],
            #[trigger] init[j],
        ) by {
            assert(init[i] == peers[i] && init[j] == peers[j]);
        }
        dest_routes_ordered(p, adj_rib, init, side, addr);
        assert forall|i: int, j: int| 0 <= i < j < all.len() implies PeerPath::before(
            (#[trigger] all[i]).peer,
            (#[trigger] all[j]).peer,
        ) by {
            assert(all[i] == rest[i]);
            if j < rest.len() {
                assert(all[j] == rest[j]);
            } else {
                assert(all[j].peer == last);
                dest_routes_exact(p, adj_rib, init, side, addr, rest[i]);
                assert(rest.contains(rest[i]));
                let k = choose|k: int| 0 <= k < init.len() && init[k] == rest[i].peer;
                assert(peers[k] == rest[i].peer);
            }
        }
    }
}

proof fn prefix_routes_exact<P>(t: TableModel<P>, p: P, side: AdjSide, addr: Option<IpAddr>, r: PeerRoute<P>)
    requires
        dest_at(t, p).adj_rib.dom().finite(),
    ensures
        prefix_routes(t, p, side, addr).contains(r) <==> r.prefix == p && kept_on(t, r, side) && asked(addr, r.peer),
{
    let adj_rib = dest_at(t, p).adj_rib;
    let peers = in_order::<PeerPath>(adj_rib.dom());
    finite_sets_have_order::<PeerPath>(adj_rib.dom());
    dest_routes_exact(p, adj_rib, peers, side, addr, r);
    assert(adj_rib.dom().contains(r.peer) <==> peers.contains(r.peer));
}

/// A route is listed exactly if it is kept on the side that is asked for, for
/// one of the prefixes and one of the neighbors that are asked for.
pub proof fn listed_exactly<P>(t: TableModel<P>, ps: Seq<P>, side: AdjSide, addr: Option<IpAddr>, r: PeerRoute<P>)
    requires
        finitely_many_paths(t),
    ensures
        table_routes(t, ps, side, addr).contains(r) <==> ps.contains(r.prefix) && kept_on(t, r, side) && asked(
            addr,
            r.peer,
        ),
    decreases ps.len(),
{
    let all = table_routes(t, ps, side, addr);
    if ps.len() > 0 {
        let init = ps.drop_last();
        let last = ps.last();
        let rest = table_routes(t, init, side, addr);
        let more = prefix_routes(t, last, side, addr);
        listed_exactly(t, init, side, addr, r);
        assert(dest_at(t, last).adj_rib.dom().finite());
        prefix_routes_exact(t, last, side, addr, r);
        assert(ps[ps.len() - 1] == last);
        if rest.contains(r) {
            let i = choose|i: int| 0 <= i < rest.len() && rest[i] == r;
            assert(all[i] == r);
            let k = choose|k: int| 0 <= k < init.len() && init[k] == r.prefix;
            assert(ps[k] == r.prefix);
        }
        if more.contains(r) {
            let i = choose|i: int| 0 <= i < more.len() && more[i] == r;
            assert(all[rest.len() + i] == r);
        }
        if all.contains(r) {
            let i = choose|i: int| 0 <= i < all.len() && all[i] == r;
            if i < rest.len() {
                assert(rest[i] == r);
            } else {
                assert(more[i - rest.len()] == r);
            }
        }
        if ps.contains(r.prefix) && r.prefix != last {
            let k = choose|k: int| 0 <= k < ps.len() && ps[k] == r.prefix;
            assert(init[k] == r.prefix);
        }
    }
}

/// Asking again for import policies looks only at the routes as they were
/// received: tables that agree on these give the same list.
pub proof fn reapply_ignores_post_policy<P>(t: TableModel<P>, u: TableModel<P>, ps: Seq<P>, addr: IpAddr)
    requires
        finitely_many_paths(t),
        finitely_many_paths(u),
        forall|q: Path<P>| (#[trigger] adj_at(t, q, addr)).in_pre == adj_at(u, q, addr).in_pre,
    ensures
        table_routes(t, ps, AdjSide::InPre, Some(addr)) == table_routes(u, ps, AdjSide::InPre, Some(addr)),
    decreases ps.len(),
{
    if ps.len() > 0 {
        let p = ps.last();
        reapply_ignores_post_policy(t, u, ps.drop_last(), addr);
        let a = prefix_routes(t, p, AdjSide::InPre, Some(addr));
        let b = prefix_routes(u, p, AdjSide::InPre, Some(addr));
        let a_peers = Seq::new(a.len(), |i: int| a[i].peer);
        let b_peers = Seq::new(b.len(), |i: int| b[i].peer);
        prefix_routes_ordered(t, p, AdjSide::InPre, Some(addr));
        prefix_routes_ordered(u, p, AdjSide::InPre, Some(addr));
        assert(dest_at(t, p).adj_rib.dom().finite() && dest_at(u, p).adj_rib.dom().finite());
        assert forall|r: PeerRoute<P>| #[trigger] a.contains(r) <==> b.contains(r) by {
            prefix_routes_exact(t, p, AdjSide::InPre, Some(addr), r);
            prefix_routes_exact(u, p, AdjSide::InPre, Some(addr), r);
            if asked(Some(addr), r.peer) {
                assert(adj_at(t, route_path(r), addr).in_pre == adj_at(u, route_path(r), addr).in_pre);
            }
        }
        assert forall|k: PeerPath| #[trigger] a_peers.contains(k) <==> b_peers.contains(k) by {
            if a_peers.contains(k) {
                let i = choose|i: int| 0 <= i < a_peers.len() && a_peers[i] == k;
                assert(a.contains(a[i]));
                assert(b.contains(a[i]));
                let j = choose|j: int| 0 <= j < b.len() && b[j] == a[i];
                assert(b_peers[j] == k);
            }
            if b_peers.contains(k) {
                let i = choose|i: int| 0 <= i < b_peers.len() && b_peers[i] == k;
                assert(b.contains(b[i]));
                assert(a.contains(b[i]));
                let j = choose|j: int| 0 <= j < a.len() && a[j] == b[i];
                assert(a_peers[j] == k);
            }
        }
        one_order::<PeerPath>(a_peers, b_peers);
        assert(a.len() == b.len());
        assert forall|i: int| 0 <= i < a.len() implies a[i] == b[i] by {
            assert(a_peers[i] == b_peers[i]);
            assert(a.contains(a[i]) && b.contains(b[i]));
            prefix_routes_exact(t, p, AdjSide::InPre, Some(addr), a[i]);
            prefix_routes_exact(u, p, AdjSide::InPre, Some(addr), b[i]);
            assert(adj_at(t, route_path(a[i]), addr).in_pre == adj_at(u, route_path(a[i]), addr).in_pre);
        }
        assert(a =~= b);
    }
}

proof fn prefix_routes_ordered<P>(t: TableModel<P>, p: P, side: AdjSide, addr: Option<IpAddr>)
    requires
        finitely_many_paths(t),
    ensures
        forall|i: int, j: int|
            0 <= i < j < prefix_routes(t, p, side, addr).len() ==> PeerPath::before(
                (#[trigger] prefix_routes(t, p, side, addr)[i]).peer,
                (#[trigger] prefix_routes(t, p, side, addr)[j]).peer,
            ),
{
    let adj_rib = dest_at(t, p).adj_rib;
    finite_sets_have_order::<PeerPath>(adj_rib.dom());
    dest_routes_ordered(p, adj_rib, in_order::<PeerPath>(adj_rib.dom()), side, addr);
}

/// Giving out identifiers keeps those that were given, keeps them distinct, and
/// gives one to every path, unless all are given.
pub proof fn every_path_gets_an_id<P>(m: PathIdsModel, routes: Seq<PeerRoute<P>>)
    requires
        ids_wf(m),
    ensures
        ids_wf(assigned_all(m, routes)),
        assigned_all(m, routes).last >= m.last,
        forall|k: PeerPath| #[trigger]
            m.ids.contains_key(k) ==> assigned_all(m, routes).ids.contains_key(k) && assigned_all(m, routes).ids[k]
                == m.ids[k],
        forall|i: int|
            0 <= i < routes.len() ==> assigned_all(m, routes).ids.contains_key((#[trigger] routes[i]).peer)
                || assigned_all(m, routes).last == u32::MAX,
    decreases routes.len(),
{
    if routes.len() > 0 {
        let init = routes.drop_last();
        every_path_gets_an_id(m, init);
        let u = assigned_all(m, init);
        let v = assigned_all(m, routes);
        assert forall|i: int| 0 <= i < routes.len() implies v.ids.contains_key((#[trigger] routes[i]).peer) || v.last
            == u32::MAX by {
            if i < init.len() {
                assert(init[i] == routes[i]);
                assert(u.ids.contains_key(init[i].peer) || u.last == u32::MAX);
            }
        }
    }
}

proof fn identified_exact<P>(routes: Seq<PeerRoute<P>>, ids: Map<PeerPath, u32>, i: int)
    requires
        0 <= i < identified(routes, ids).len(),
    ensures
        exists|k: int|
            0 <= k < routes.len() && ids.contains_key((#[trigger] routes[k]).peer) && identified(routes, ids)[i] == (
                Path { prefix: routes[k].prefix, path_id: ids[routes[k].peer] },
                routes[k].route,
            ),
    decreases routes.len(),
{
    if routes.len() > 0 {
        let init = routes.drop_last();
        let rest = identified(init, ids);
        if i < rest.len() {
            identified_exact(init, ids, i);
            let k = choose|k: int|
                0 <= k < init.len() && ids.contains_key((#[trigger] init[k]).peer) && rest[i] == (
                    Path { prefix: init[k].prefix, path_id: ids[init[k].peer] },
                    init[k].route,
                );
            assert(routes[k] == init[k]);
        } else {
            assert(routes[routes.len() - 1] == routes.last());
        }
    }
}

proof fn identified_all<P>(routes: Seq<PeerRoute<P>>, ids: Map<PeerPath, u32>, k: int)
    requires
        0 <= k < routes.len(),
        ids.contains_key(routes[k].peer),
    ensures
        identified(routes, ids).contains(
            (Path { prefix: routes[k].prefix, path_id: ids[routes[k].peer] }, routes[k].route),
        ),
    decreases routes.len(),
{
    let all = identified(routes, ids);
    let rest = identified(routes.drop_last(), ids);
    let x = (Path { prefix: routes[k].prefix, path_id: ids[routes[k].peer] }, routes[k].route);
    if k < routes.len() - 1 {
        identified_all(routes.drop_last(), ids, k);
        let i = choose|i: int| 0 <= i < rest.len() && rest[i] == x;
        assert(all[i] == x);
    } else {
        assert(all[rest.len() as int] == x);
    }
}

/// Every accepted path of a neighbor that has an identifier is offered under it
/// to the neighbors to which path identifiers are sent.
pub proof fn every_accepted_path_is_offered<P>(
    t: TableModel<P>,
    ps: Seq<P>,
    ids: Map<PeerPath, u32>,
    r: PeerRoute<P>,
)
    requires
        finitely_many_paths(t),
        ps.contains(r.prefix),
        adj_at(t, route_path(r), r.peer.addr).in_post == Some(r.route),
        ids.contains_key(r.peer),
    ensures
        accepted_paths(t, ps, ids).contains((Path { prefix: r.prefix, path_id: ids[r.peer] }, r.route)),
    decreases ps.len(),
{
    let x = (Path { prefix: r.prefix, path_id: ids[r.peer] }, r.route);
    let all = accepted_paths(t, ps, ids);
    let init = ps.drop_last();
    let rest = accepted_paths(t, init, ids);
    if ps.last() == r.prefix {
        let routes = prefix_routes(t, r.prefix, AdjSide::InPost, None);
        let more = identified(routes, ids);
        assert(dest_at(t, r.prefix).adj_rib.dom().finite());
        prefix_routes_exact(t, r.prefix, AdjSide::InPost, None, r);
        let k = choose|k: int| 0 <= k < routes.len() && routes[k] == r;
        identified_all(routes, ids, k);
        let i = choose|i: int| 0 <= i < more.len() && more[i] == x;
        assert(all[rest.len() + i] == x);
    } else {
        let k = choose|k: int| 0 <= k < ps.len() && ps[k] == r.prefix;
        assert(init[k] == r.prefix);
        every_accepted_path_is_offered(t, init, ids, r);
        let i = choose|i: int| 0 <= i < rest.len() && rest[i] == x;
        assert(all[i] == x);
    }
}

proof fn identified_distinct<P>(routes: Seq<PeerRoute<P>>, ids: Map<PeerPath, u32>, i: int, j: int)
    requires
        ids_distinct(ids),
        forall|a: int, b: int| 0 <= a < b < routes.len() ==> (#[trigger] routes[a]).peer != (#[trigger] routes[b]).peer,
        0 <= i < j < identified(routes, ids).len(),
    ensures
        identified(routes, ids)[i].0 != identified(routes, ids)[j].0,
    decreases routes.len(),
{
    let init = routes.drop_last();
    let rest = identified(init, ids);
    assert forall|a: int, b: int| 0 <= a < b < init.len() implies (#[trigger] init[a]).peer != (
    #[trigger] init[b]).peer by {
        assert(init[a] == routes[a] && init[b] == routes[b]);
    }
    if j < rest.len() {
        identified_distinct(init, ids, i, j);
    } else {
        identified_exact(init, ids, i);
        let k = choose|k: int|
            0 <= k < init.len() && ids.contains_key((#[trigger] init[k]).peer) && rest[i] == (
                Path { prefix: init[k].prefix, path_id: ids[init[k].peer] },
                init[k].route,
            );
        let last = routes[routes.len() - 1];
        assert(routes[k] == init[k]);
        assert(init[k].peer != last.peer);
        assert(ids.contains_key(init[k].peer) && ids.contains_key(last.peer));
    }
}

/// What is offered for some prefixes is about these prefixes.
pub proof fn accepted_prefixes<P>(t: TableModel<P>, ps: Seq<P>, ids: Map<PeerPath, u32>, i: int)
    requires
        0 <= i < accepted_paths(t, ps, ids).len(),
    ensures
        ps.contains(accepted_paths(t, ps, ids)[i].0.prefix),
    decreases ps.len(),
{
    if ps.len() > 0 {
        let init = ps.drop_last();
        let rest = accepted_paths(t, init, ids);
        assert(ps[ps.len() - 1] == ps.last());
        if i < rest.len() {
            accepted_prefixes(t, init, ids, i);
            let k = choose|k: int| 0 <= k < init.len() && init[k] == rest[i].0.prefix;
            assert(ps[k] == rest[i].0.prefix);
        } else {
            last_accepted(t, ps, ids, i);
        }
    }
}

proof fn last_accepted<P>(t: TableModel<P>, ps: Seq<P>, ids: Map<PeerPath, u32>, i: int)
    requires
        ps.len() > 0,
        accepted_paths(t, ps.drop_last(), ids).len() <= i < accepted_paths(t, ps, ids).len(),
    ensures
        accepted_paths(t, ps, ids)[i].0.prefix == ps.last(),
{
    let rest = accepted_paths(t, ps.drop_last(), ids);
    let routes = prefix_routes(t, ps.last(), AdjSide::InPost, None);
    let more = identified(routes, ids);
    let k = i - rest.len();
    if k < more.len() {
        identified_exact(routes, ids, k);
        let n = choose|n: int|
            0 <= n < routes.len() && ids.contains_key((#[trigger] routes[n]).peer) && more[k] == (
                Path { prefix: routes[n].prefix, path_id: ids[routes[n].peer] },
                routes[n].route,
            );
        let adj_rib = dest_at(t, ps.last()).adj_rib;
        dest_routes_prefix(
            ps.last(),
            adj_rib,
            in_order::<PeerPath>(adj_rib.dom()),
            AdjSide::InPost,
            None,
            n,
        );
        assert(accepted_paths(t, ps, ids)[i] == more[k]);
    }
}

/// No two of the paths that are offered are the same: those to one prefix have
/// different identifiers.
pub proof fn offered_paths_are_distinct<P>(t: TableModel<P>, ps: Seq<P>, ids: Map<PeerPath, u32>, i: int, j: int)
    requires
        finitely_many_paths(t),
        ids_distinct(ids),
        ps.no_duplicates(),
        0 <= i < j < accepted_paths(t, ps, ids).len(),
    ensures
        accepted_paths(t, ps, ids)[i].0 != accepted_paths(t, ps, ids)[j].0,
    decreases ps.len(),
{
    let all = accepted_paths(t, ps, ids);
    let init = ps.drop_last();
    let p = ps.last();
    let rest = accepted_paths(t, init, ids);
    assert(init.no_duplicates());
    if j < rest.len() {
        offered_paths_are_distinct(t, init, ids, i, j);
        assert(all[i] == rest[i] && all[j] == rest[j]);
    } else {
        last_accepted(t, ps, ids, j);
        if i < rest.len() {
            accepted_prefixes(t, init, ids, i);
            assert(all[i] == rest[i]);
            let k = choose|k: int| 0 <= k < init.len() && init[k] == rest[i].0.prefix;
            assert(ps[k] == init[k] && ps[ps.len() - 1] == p);
        } else {
            let routes = prefix_routes(t, p, AdjSide::InPost, None);
            let more = identified(routes, ids);
            let a = i - rest.len();
            let b = j - rest.len();
            prefix_routes_ordered(t, p, AdjSide::InPost, None);
            assert forall|x: int, y: int| 0 <= x < y < routes.len() implies (#[trigger] routes[x]).peer != (
            #[trigger] routes[y]).peer by {
                PeerPath::irreflexive(routes[x].peer);
            }
            if b < more.len() {
                identified_distinct(routes, ids, a, b);
                assert(all[i] == more[a] && all[j] == more[b]);
            } else {
                assert(all[j] == own_route(t, p)[b - more.len()]);
                if a < more.len() {
                    identified_exact(routes, ids, a);
                    assert(all[i] == more[a]);
                    let k = choose|k: int|
                        0 <= k < routes.len() && ids.contains_key((#[trigger] routes[k]).peer) && more[a] == (
                            Path { prefix: routes[k].prefix, path_id: ids[routes[k].peer] },
                            routes[k].route,
                        );
                }
            }
        }
    }
}

/// A neighbor to which no path identifiers are sent is offered at most one path
/// to a prefix, with the identifier 0.
pub proof fn best_paths_have_no_id<P>(ps: Seq<P>, selections: Seq<Selection>, i: int)
    requires
        0 <= i < best_routes(ps, selections).len(),
    ensures
        best_routes(ps, selections)[i].0.path_id == 0,
        ps.contains(best_routes(ps, selections)[i].0.prefix),
        best_routes(ps, selections).len() <= ps.len(),
        ps.no_duplicates() ==> forall|j: int|
            0 <= j < best_routes(ps, selections).len() && j != i ==> (#[trigger] best_routes(ps, selections)[j]).0
                != best_routes(ps, selections)[i].0,
    decreases ps.len(),
{
    let all = best_routes(ps, selections);
    if ps.len() > 0 {
        let init = ps.drop_last();
        let rest = best_routes(init, selections);
        assert(ps[ps.len() - 1] == ps.last());
        if i < rest.len() {
            best_paths_have_no_id(init, selections, i);
            let k = choose|k: int| 0 <= k < init.len() && init[k] == rest[i].0.prefix;
            assert(ps[k] == init[k]);
        } else if rest.len() > 0 {
            best_paths_have_no_id(init, selections, 0);
        }
        if ps.no_duplicates() {
            assert(init.no_duplicates());
            assert forall|j: int| 0 <= j < all.len() && j != i implies (#[trigger] all[j]).0 != all[i].0 by {
                if j < rest.len() {
                    assert(all[j] == rest[j]);
                    best_paths_have_no_id(init, selections, j);
                    let k = choose|k: int| 0 <= k < init.len() && init[k] == rest[j].0.prefix;
                    assert(ps[k] == init[k]);
                    if i < rest.len() {
                        assert(all[i] == rest[i]);
                    }
                } else {
                    assert(i < rest.len() && all[i] == rest[i]);
                    let k = choose|k: int| 0 <= k < init.len() && init[k] == rest[i].0.prefix;
                    assert(ps[k] == init[k]);
                }
            }
        }
    }
}

/// All paths that wait in a queue to be advertised.
pub open spec fn reach_paths<P>(reach: Seq<(Attrs, Set<Path<P>>)>) -> Set<Path<P>> {
    Set::new(|q: Path<P>| exists|i: int| 0 <= i < reach.len() && (#[trigger] reach[i]).1.contains(q))
}

/// Queueing a path adds it to those that wait, and no other.
pub proof fn reach_added_paths<P>(reach: Seq<(Attrs, Set<Path<P>>)>, attrs: Attrs, path: Path<P>)
    ensures
        reach_paths(reach_added(reach, attrs, path)) == reach_paths(reach).insert(path),
{
    let r = reach_added(reach, attrs, path);
    let n = reach_index(reach, attrs);
    reach_index_bound(reach, attrs);
    assert forall|q: Path<P>| reach_paths(r).contains(q) <==> reach_paths(reach).insert(path).contains(q) by {
        if reach_paths(r).contains(q) {
            let i = choose|i: int| 0 <= i < r.len() && (#[trigger] r[i]).1.contains(q);
            if i < reach.len() && q != path {
                assert(reach[i].1.contains(q));
            }
        }
        if reach_paths(reach).contains(q) {
            let i = choose|i: int| 0 <= i < reach.len() && (#[trigger] reach[i]).1.contains(q);
            assert(r[i].1.contains(q));
        }
        if q == path {
            if n >= 0 {
                assert(r[n].1.contains(q));
            } else {
                assert(r[reach.len() as int].1.contains(q));
            }
        }
    }
    assert(reach_paths(r) =~= reach_paths(reach).insert(path));
}

proof fn resent_paths<P>(q: QueueModel<P>, routes: Seq<PeerRoute<P>>, tx_attrs: Seq<Attrs>)
    ensures
        forall|x: Path<P>| #[trigger]
            reach_paths(resent(q, routes, tx_attrs).reach).contains(x) <==> reach_paths(q.reach).contains(x)
                || route_paths(routes).contains(x),
        resent(q, routes, tx_attrs).unreach == q.unreach,
    decreases routes.len(),
{
    if routes.len() > 0 {
        let init = routes.drop_last();
        let u = resent(q, init, tx_attrs);
        let last = route_path(routes.last());
        resent_paths(q, init, tx_attrs);
        reach_added_paths(u.reach, tx_attrs[routes.len() - 1], last);
        assert(route_paths(routes).drop_last() =~= route_paths(init));
        assert forall|x: Path<P>| #[trigger] route_paths(routes).contains(x) <==> route_paths(init).contains(x) || x
            == last by {
            let all = route_paths(routes);
            let some = route_paths(init);
            assert(all[routes.len() - 1] == last);
            if some.contains(x) {
                let i = choose|i: int| 0 <= i < some.len() && some[i] == x;
                assert(all[i] == x);
            }
            if all.contains(x) {
                let i = choose|i: int| 0 <= i < all.len() && all[i] == x;
                if i < some.len() {
                    assert(some[i] == x);
                }
            }
        }
    }
}

/// A request to send routes again is answered with exactly the paths that are
/// advertised to the neighbor, each under the identifier that it was advertised
/// with, and with no withdrawal.
pub proof fn refresh_repeats_what_is_advertised<P: Ranked>(
    t: TableModel<P>,
    q: QueueModel<P>,
    addr: IpAddr,
    tx_attrs: Seq<Attrs>,
    path: Path<P>,
)
    requires
        t.prefixes.dom().finite(),
        finitely_many_paths(t),
        q.reach.len() == 0,
        q.unreach == Set::<Path<P>>::empty(),
    ensures
        reach_paths(resent(q, all_advertised(t, addr), tx_attrs).reach).contains(path) <==> adj_at(
            t,
            path,
            addr,
        ).out_post is Some,
        resent(q, all_advertised(t, addr), tx_attrs).unreach == Set::<Path<P>>::empty(),
{
    let routes = all_advertised(t, addr);
    let ps = in_order::<P>(t.prefixes.dom());
    let all = route_paths(routes);
    finite_sets_have_order::<P>(t.prefixes.dom());
    resent_paths(q, routes, tx_attrs);
    if all.contains(path) {
        let i = choose|i: int| 0 <= i < all.len() && all[i] == path;
        assert(routes.contains(routes[i]));
        listed_exactly(t, ps, AdjSide::OutPost, Some(addr), routes[i]);
    }
    if adj_at(t, path, addr).out_post is Some {
        let r = PeerRoute {
            prefix: path.prefix,
            peer: PeerPath { addr, path_id: path.path_id },
            route: adj_at(t, path, addr).out_post->0,
        };
        assert(t.prefixes.dom().contains(path.prefix));
        assert(ps.contains(path.prefix));
        assert(route_path(r) == path);
        listed_exactly(t, ps, AdjSide::OutPost, Some(addr), r);
        let i = choose|i: int| 0 <= i < routes.len() && routes[i] == r;
        assert(all[i] == path);
    }
}

proof fn exported_elsewhere<A: AddressFamily>(
    s: OutState<A::Prefix>,
    addr: IpAddr,
    in_use: bool,
    results: Seq<(IpNetwork, PolicyResult<RoutePolicyInfo>)>,
    ids: Seq<u32>,
    tx_attrs: Seq<Attrs>,
    path: Path<A::Prefix>,
)
    requires
        forall|j: int| 0 <= j < results.len() ==> #[trigger] result_path::<A>(in_use, results, ids, j) != path,
    ensures
        adj_at(exported_all::<A>(s, addr, in_use, results, ids, tx_attrs).table, path, addr) == adj_at(
            s.table,
            path,
            addr,
        ),
        reach_paths(exported_all::<A>(s, addr, in_use, results, ids, tx_attrs).queue.reach).contains(path)
            <==> reach_paths(s.queue.reach).contains(path),
    decreases results.len(),
{
    if results.len() > 0 {
        let init = results.drop_last();
        let n = results.len() - 1;
        assert forall|j: int| 0 <= j < init.len() implies #[trigger] result_path::<A>(in_use, init, ids, j) != path by {
            assert(result_path::<A>(in_use, results, ids, j) == result_path::<A>(in_use, init, ids, j));
        }
        exported_elsewhere::<A>(s, addr, in_use, init, ids, tx_attrs, path);
        let u = exported_all::<A>(s, addr, in_use, init, ids, tx_attrs);
        let other = result_path::<A>(in_use, results, ids, n);
        assert(other != path);
        reach_added_paths(u.queue.reach, tx_attrs[n], other);
    }
}

/// An accepted route is held as advertised on its own path, whatever was decided
/// on other paths, also those to the same prefix. Where it was not advertised
/// before, it waits to be sent on that path.
pub proof fn accepted_exports_are_all_held<A: AddressFamily>(
    s: OutState<A::Prefix>,
    addr: IpAddr,
    in_use: bool,
    results: Seq<(IpNetwork, PolicyResult<RoutePolicyInfo>)>,
    ids: Seq<u32>,
    tx_attrs: Seq<Attrs>,
    i: int,
)
    requires
        0 <= i < results.len(),
        results[i].1 is Accept,
        forall|j: int|
            0 <= j < results.len() && j != i ==> #[trigger] result_path::<A>(in_use, results, ids, j)
                != result_path::<A>(in_use, results, ids, i),
    ensures
        ({
            let path = result_path::<A>(in_use, results, ids, i);
            let u = exported_all::<A>(s, addr, in_use, results, ids, tx_attrs);
            &&& adj_at(u.table, path, addr).out_post matches Some(route) && route.attrs@ == results[i].1->Accept_0.attrs@
            &&& adj_at(s.table, path, addr).out_post is None ==> reach_paths(u.queue.reach).contains(path)
        }),
    decreases results.len(),
{
    let init = results.drop_last();
    let n = results.len() - 1;
    let path = result_path::<A>(in_use, results, ids, i);
    let u = exported_all::<A>(s, addr, in_use, init, ids, tx_attrs);
    assert forall|j: int| 0 <= j < init.len() implies #[trigger] result_path::<A>(in_use, init, ids, j)
        == result_path::<A>(in_use, results, ids, j) by {}
    if i < n {
        assert(init[i] == results[i]);
        assert(result_path::<A>(in_use, init, ids, i) == path);
        accepted_exports_are_all_held::<A>(s, addr, in_use, init, ids, tx_attrs, i);
        let other = result_path::<A>(in_use, results, ids, n);
        assert(other != path);
        reach_added_paths(u.queue.reach, tx_attrs[n], other);
    } else {
        assert forall|j: int| 0 <= j < init.len() implies #[trigger] result_path::<A>(in_use, init, ids, j) != path by {
            assert(result_path::<A>(in_use, results, ids, j) == result_path::<A>(in_use, init, ids, j));
        }
        exported_elsewhere::<A>(s, addr, in_use, init, ids, tx_attrs, path);
        reach_added_paths(u.queue.reach, tx_attrs[n], path);
    }
}

/// What is offered to a neighbor depends on nothing but whether path identifiers
/// are sent to it: all accepted paths if they are, otherwise the best routes.
pub proof fn direction_decides_what_is_offered<A: AddressFamily>(
    nbr: Neighbor,
    t: TableModel<A::Prefix>,
    selections: Seq<Selection>,
    ids: Map<PeerPath, u32>,
)
    ensures
        nbr.sends_paths(A::afi_safi_spec()) ==> offered::<A>(nbr, selection_offer(t, selections, ids))
            == accepted_paths(t, candidates(t), ids),
        !nbr.sends_paths(A::afi_safi_spec()) ==> offered::<A>(nbr, selection_offer(t, selections, ids))
            == best_routes(candidates(t), selections),
{
}

/// Where path identifiers are not in use, a decision is about the path with the
/// identifier 0, whatever identifier comes with it.
pub proof fn decisions_without_ids<A: AddressFamily>(
    results: Seq<(IpNetwork, PolicyResult<RoutePolicyInfo>)>,
    ids: Seq<u32>,
    i: int,
)
    ensures
        result_path::<A>(false, results, ids, i).path_id == 0,
{
}

/// Whether a path is among prefixes with identifiers.
pub open spec fn carried(ps: Seq<Ipv4Network>, ids: Seq<u32>, path: Path<Ipv4Network>) -> bool {
    exists|i: int| 0 <= i < ps.len() && i < ids.len() && #[trigger] ps[i] == path.prefix && ids[i] == path.path_id
}

/// Whether a message advertises an IPv4 path.
pub open spec fn advertises(msg: UpdateModel, path: Path<Ipv4Network>) -> bool {
    msg.reach matches Some((ps, ids, _)) && carried(ps, ids, path)
}

/// Whether one of several messages advertises an IPv4 path.
pub open spec fn any_advertises(msgs: Seq<UpdateModel>, path: Path<Ipv4Network>) -> bool {
    exists|m: int| 0 <= m < msgs.len() && advertises(#[trigger] msgs[m], path)
}

/// Whether a message withdraws an IPv4 path.
pub open spec fn withdraws(msg: UpdateModel, path: Path<Ipv4Network>) -> bool {
    msg.unreach matches Some((ps, ids)) && carried(ps, ids, path)
}

/// Whether one of several messages withdraws an IPv4 path.
pub open spec fn any_withdraws(msgs: Seq<UpdateModel>, path: Path<Ipv4Network>) -> bool {
    exists|m: int| 0 <= m < msgs.len() && withdraws(#[trigger] msgs[m], path)
}

/// There is room for a prefix wherever one fits.
pub proof fn room_is_there(overhead: nat, size: nat)
    requires
        size > 0,
        UPDATE_MIN_LEN + overhead + size <= MAX_LEN,
    ensures
        room(overhead, size) > 0,
{
    let left = MAX_LEN - UPDATE_MIN_LEN - overhead;
    assert(left / size as int >= 1) by (nonlinear_arith)
        requires
            left >= size,
            size > 0,
    ;
}

/// What is in a sequence is in one of its pieces, and the other way round.
pub proof fn piece_members<T>(s: Seq<T>, n: nat, x: T)
    requires
        n > 0,
    ensures
        s.contains(x) <==> exists|i: int| 0 <= i < chunked(s, n).len() && (#[trigger] chunked(s, n)[i]).contains(x),
    decreases s.len(),
{
    let c = chunked(s, n);
    if s.len() == 0 {
    } else if s.len() <= n {
        assert(c[0] == s);
    } else {
        let head = s.take(n as int);
        let tail = s.skip(n as int);
        let rest = chunked(tail, n);
        piece_members(tail, n, x);
        assert(c =~= seq![head] + rest);
        assert(c[0] == head);
        if s.contains(x) {
            let i = choose|i: int| 0 <= i < s.len() && s[i] == x;
            if i < n {
                assert(head[i] == x);
            } else {
                assert(tail[i - n] == x);
                assert(tail.contains(x));
                let k = choose|k: int| 0 <= k < rest.len() && (#[trigger] rest[k]).contains(x);
                assert(c[k + 1] == rest[k]);
            }
        }
        if exists|i: int| 0 <= i < c.len() && (#[trigger] c[i]).contains(x) {
            let i = choose|i: int| 0 <= i < c.len() && (#[trigger] c[i]).contains(x);
            if i == 0 {
                let k = choose|k: int| 0 <= k < head.len() && head[k] == x;
                assert(s[k] == x);
            } else {
                assert(rest[i - 1] == c[i]);
                assert(tail.contains(x));
                let k = choose|k: int| 0 <= k < tail.len() && tail[k] == x;
                assert(s[k + n] == x);
            }
        }
    }
}

proof fn piece_is_carried(piece: Seq<Path<Ipv4Network>>, path: Path<Ipv4Network>)
    ensures
        carried(prefixes_of(piece), ids_of(piece), path) <==> piece.contains(path),
{
    let ps = prefixes_of(piece);
    let ids = ids_of(piece);
    if piece.contains(path) {
        let i = choose|i: int| 0 <= i < piece.len() && piece[i] == path;
        assert(ps[i] == path.prefix && ids[i] == path.path_id);
    }
    if carried(ps, ids, path) {
        let i = choose|i: int|
            0 <= i < ps.len() && i < ids.len() && #[trigger] ps[i] == path.prefix && ids[i] == path.path_id;
        assert(piece[i] == path);
    }
}

proof fn entry_advertises(
    attrs: Attrs,
    paths: Set<Path<Ipv4Network>>,
    labels: Map<Path<Ipv4Network>, Label>,
    add_path: bool,
    path: Path<Ipv4Network>,
)
    requires
        paths.finite(),
        attrs_fit::<Ipv4Unicast>(attrs, add_path),
    ensures
        any_advertises(entry_updates::<Ipv4Unicast>(attrs, paths, labels, add_path), path) <==> paths.contains(path),
        !any_withdraws(entry_updates::<Ipv4Unicast>(attrs, paths, labels, add_path), path),
{
    let overhead = attrs_length(attrs@) + Ipv4Unicast::reach_overhead(attrs);
    let size = path_size(Ipv4Unicast::prefix_size(), add_path);
    let listed = in_order::<Path<Ipv4Network>>(paths);
    let n = room(overhead, size);
    let pieces = chunked(listed, n);
    let msgs = entry_updates::<Ipv4Unicast>(attrs, paths, labels, add_path);
    room_is_there(overhead, size);
    finite_sets_have_order::<Path<Ipv4Network>>(paths);
    piece_members(listed, n, path);
    assert(paths.contains(path) <==> listed.contains(path));
    assert forall|m: int| 0 <= m < msgs.len() implies (advertises(#[trigger] msgs[m], path) <==> pieces[m].contains(
        path,
    )) by {
        piece_is_carried(pieces[m], path);
        assert(msgs[m] == Ipv4Unicast::reach_update(pieces[m], labels, attrs));
    }
    if paths.contains(path) {
        let m = choose|m: int| 0 <= m < pieces.len() && (#[trigger] pieces[m]).contains(path);
        assert(advertises(msgs[m], path));
    }
    if any_advertises(msgs, path) {
        let m = choose|m: int| 0 <= m < msgs.len() && advertises(#[trigger] msgs[m], path);
        assert(pieces[m].contains(path));
    }
    assert forall|m: int| 0 <= m < msgs.len() implies !withdraws(#[trigger] msgs[m], path) by {
        assert(msgs[m] == Ipv4Unicast::reach_update(pieces[m], labels, attrs));
    }
}

proof fn either_advertises(a: Seq<UpdateModel>, b: Seq<UpdateModel>, path: Path<Ipv4Network>)
    ensures
        any_advertises(a + b, path) <==> any_advertises(a, path) || any_advertises(b, path),
        any_withdraws(a + b, path) <==> any_withdraws(a, path) || any_withdraws(b, path),
{
    let all = a + b;
    assert forall|m: int| 0 <= m < a.len() implies all[m] == #[trigger] a[m] by {}
    assert forall|m: int| 0 <= m < b.len() implies all[a.len() + m] == #[trigger] b[m] by {}
    if any_advertises(all, path) {
        let m = choose|m: int| 0 <= m < all.len() && advertises(#[trigger] all[m], path);
        assert(m < a.len() ==> advertises(a[m], path));
        assert(m >= a.len() ==> advertises(b[m - a.len()], path));
    }
    if any_withdraws(all, path) {
        let m = choose|m: int| 0 <= m < all.len() && withdraws(#[trigger] all[m], path);
        assert(m < a.len() ==> withdraws(a[m], path));
        assert(m >= a.len() ==> withdraws(b[m - a.len()], path));
    }
    if any_advertises(a, path) {
        let m = choose|m: int| 0 <= m < a.len() && advertises(#[trigger] a[m], path);
        assert(advertises(all[m], path));
    }
    if any_advertises(b, path) {
        let m = choose|m: int| 0 <= m < b.len() && advertises(#[trigger] b[m], path);
        assert(advertises(all[a.len() + m], path));
    }
    if any_withdraws(a, path) {
        let m = choose|m: int| 0 <= m < a.len() && withdraws(#[trigger] a[m], path);
        assert(withdraws(all[m], path));
    }
    if any_withdraws(b, path) {
        let m = choose|m: int| 0 <= m < b.len() && withdraws(#[trigger] b[m], path);
        assert(withdraws(all[a.len() + m], path));
    }
}

proof fn reach_advertises(
    reach: Seq<(Attrs, Set<Path<Ipv4Network>>)>,
    labels: Map<Path<Ipv4Network>, Label>,
    add_path: bool,
    path: Path<Ipv4Network>,
)
    requires
        forall|i: int|
            0 <= i < reach.len() ==> (#[trigger] reach[i]).1.finite() && attrs_fit::<Ipv4Unicast>(
                reach[i].0,
                add_path,
            ),
    ensures
        any_advertises(reach_updates::<Ipv4Unicast>(reach, labels, add_path), path) <==> reach_paths(reach).contains(
            path,
        ),
        !any_withdraws(reach_updates::<Ipv4Unicast>(reach, labels, add_path), path),
    decreases reach.len(),
{
    if reach.len() > 0 {
        let init = reach.drop_last();
        let last = reach[reach.len() - 1];
        assert forall|i: int| 0 <= i < init.len() implies (#[trigger] init[i]).1.finite() && attrs_fit::<Ipv4Unicast>(
            init[i].0,
            add_path,
        ) by {
            assert(init[i] == reach[i]);
        }
        reach_advertises(init, labels, add_path, path);
        entry_advertises(last.0, last.1, labels, add_path, path);
        either_advertises(
            reach_updates::<Ipv4Unicast>(init, labels, add_path),
            entry_updates::<Ipv4Unicast>(last.0, last.1, labels, add_path),
            path,
        );
        if reach_paths(init).contains(path) {
            let i = choose|i: int| 0 <= i < init.len() && (#[trigger] init[i]).1.contains(path);
            assert(reach[i].1.contains(path));
        }
        if reach_paths(reach).contains(path) {
            let i = choose|i: int| 0 <= i < reach.len() && (#[trigger] reach[i]).1.contains(path);
            if i < init.len() {
                assert(init[i].1.contains(path));
            }
        }
    }
}

/// The messages for what is queued advertise exactly the paths that are queued
/// to be advertised, and withdraw exactly those that are queued to be withdrawn,
/// each with its identifier.
pub proof fn messages_carry_what_is_queued(q: QueueModel<Ipv4Network>, path: Path<Ipv4Network>)
    requires
        queue_fits::<Ipv4Unicast>(q),
        forall|i: int| 0 <= i < q.reach.len() ==> (#[trigger] q.reach[i]).1.finite(),
        q.unreach.finite(),
    ensures
        any_advertises(queue_updates::<Ipv4Unicast>(q), path) <==> reach_paths(q.reach).contains(path),
        any_withdraws(queue_updates::<Ipv4Unicast>(q), path) <==> q.unreach.contains(path),
{
    let reach = reach_updates::<Ipv4Unicast>(q.reach, q.labels, q.add_path);
    let unreach = unreach_updates::<Ipv4Unicast>(q.unreach, q.labels, q.add_path);
    assert forall|i: int| 0 <= i < q.reach.len() implies (#[trigger] q.reach[i]).1.finite() && attrs_fit::<
        Ipv4Unicast,
    >(q.reach[i].0, q.add_path) by {
        assert(attrs_fit::<Ipv4Unicast>(q.reach[i].0, q.add_path));
    }
    reach_advertises(q.reach, q.labels, q.add_path, path);
    either_advertises(reach, unreach, path);
    let size = path_size(Ipv4Unicast::prefix_size(), q.add_path);
    let listed = in_order::<Path<Ipv4Network>>(q.unreach);
    let n = room(Ipv4Unicast::unreach_overhead(), size);
    let pieces = chunked(listed, n);
    room_is_there(Ipv4Unicast::unreach_overhead(), size);
    finite_sets_have_order::<Path<Ipv4Network>>(q.unreach);
    piece_members(listed, n, path);
    assert(q.unreach.contains(path) <==> listed.contains(path));
    assert forall|m: int| 0 <= m < unreach.len() implies (withdraws(#[trigger] unreach[m], path)
        <==> pieces[m].contains(path)) && !advertises(unreach[m], path) by {
        piece_is_carried(pieces[m], path);
        assert(unreach[m] == Ipv4Unicast::unreach_update(pieces[m], q.labels));
    }
    if q.unreach.contains(path) {
        let m = choose|m: int| 0 <= m < pieces.len() && (#[trigger] pieces[m]).contains(path);
        assert(withdraws(unreach[m], path));
    }
    if any_withdraws(unreach, path) {
        let m = choose|m: int| 0 <= m < unreach.len() && withdraws(#[trigger] unreach[m], path);
        assert(pieces[m].contains(path));
    }
}

/// No two decisions are about the same path.
pub open spec fn distinct_paths<A: AddressFamily>(
    in_use: bool,
    results: Seq<(IpNetwork, PolicyResult<RoutePolicyInfo>)>,
    ids: Seq<u32>,
) -> bool {
    forall|i: int, j: int|
        0 <= i < j < results.len() ==> #[trigger] result_path::<A>(in_use, results, ids, i)
            != #[trigger] result_path::<A>(in_use, results, ids, j)
}

/// Whether a decision accepts a route that is not advertised on its path yet, or
/// with other attributes.
pub open spec fn is_news<A: AddressFamily>(
    t: TableModel<A::Prefix>,
    addr: IpAddr,
    in_use: bool,
    results: Seq<(IpNetwork, PolicyResult<RoutePolicyInfo>)>,
    ids: Seq<u32>,
    i: int,
) -> bool {
    results[i].1 matches PolicyResult::Accept(info) && advertisement_changes(
        adj_at(t, result_path::<A>(in_use, results, ids, i), addr),
        info.attrs,
    )
}

/// Whether one of several decisions is news on a path.
pub open spec fn news_on<A: AddressFamily>(
    t: TableModel<A::Prefix>,
    addr: IpAddr,
    in_use: bool,
    results: Seq<(IpNetwork, PolicyResult<RoutePolicyInfo>)>,
    ids: Seq<u32>,
    path: Path<A::Prefix>,
) -> bool {
    exists|i: int|
        0 <= i < results.len() && #[trigger] result_path::<A>(in_use, results, ids, i) == path && is_news::<A>(
            t,
            addr,
            in_use,
            results,
            ids,
            i,
        )
}

/// Decisions on different paths queue exactly those paths that are news.
pub proof fn exports_queue_what_is_news<A: AddressFamily>(
    s: OutState<A::Prefix>,
    addr: IpAddr,
    in_use: bool,
    results: Seq<(IpNetwork, PolicyResult<RoutePolicyInfo>)>,
    ids: Seq<u32>,
    tx_attrs: Seq<Attrs>,
    path: Path<A::Prefix>,
)
    requires
        distinct_paths::<A>(in_use, results, ids),
    ensures
        reach_paths(exported_all::<A>(s, addr, in_use, results, ids, tx_attrs).queue.reach).contains(path)
            <==> reach_paths(s.queue.reach).contains(path) || news_on::<A>(
            s.table,
            addr,
            in_use,
            results,
            ids,
            path,
        ),
    decreases results.len(),
{
    if results.len() > 0 {
        let init = results.drop_last();
        let n = results.len() - 1;
        let u = exported_all::<A>(s, addr, in_use, init, ids, tx_attrs);
        let last = result_path::<A>(in_use, results, ids, n);
        assert forall|j: int| 0 <= j < init.len() implies #[trigger] result_path::<A>(in_use, init, ids, j)
            == result_path::<A>(in_use, results, ids, j) && init[j] == results[j] by {}
        assert(distinct_paths::<A>(in_use, init, ids)) by {
            assert forall|i: int, j: int| 0 <= i < j < init.len() implies #[trigger] result_path::<A>(
                in_use,
                init,
                ids,
                i,
            ) != #[trigger] result_path::<A>(in_use, init, ids, j) by {
                assert(result_path::<A>(in_use, results, ids, i) != result_path::<A>(in_use, results, ids, j));
            }
        }
        exports_queue_what_is_news::<A>(s, addr, in_use, init, ids, tx_attrs, path);
        assert forall|j: int| 0 <= j < init.len() implies #[trigger] result_path::<A>(in_use, init, ids, j) != last by {
            assert(result_path::<A>(in_use, results, ids, j) != result_path::<A>(in_use, results, ids, n));
        }
        exported_elsewhere::<A>(s, addr, in_use, init, ids, tx_attrs, last);
        reach_added_paths(u.queue.reach, tx_attrs[n], last);
        if news_on::<A>(s.table, addr, in_use, init, ids, path) {
            let i = choose|i: int|
                0 <= i < init.len() && #[trigger] result_path::<A>(in_use, init, ids, i) == path && is_news::<A>(
                    s.table,
                    addr,
                    in_use,
                    init,
                    ids,
                    i,
                );
            assert(result_path::<A>(in_use, results, ids, i) == path);
            assert(is_news::<A>(s.table, addr, in_use, results, ids, i));
        }
        if news_on::<A>(s.table, addr, in_use, results, ids, path) {
            let i = choose|i: int|
                0 <= i < results.len() && #[trigger] result_path::<A>(in_use, results, ids, i) == path && is_news::<A>(
                    s.table,
                    addr,
                    in_use,
                    results,
                    ids,
                    i,
                );
            if i < n {
                assert(result_path::<A>(in_use, init, ids, i) == path);
                assert(is_news::<A>(s.table, addr, in_use, init, ids, i));
            }
        }
        if is_news::<A>(s.table, addr, in_use, results, ids, n) && last == path {
            assert(news_on::<A>(s.table, addr, in_use, results, ids, path));
        }
    }
}

/// A queue that can be sent: attributes fit, and there are finitely many paths.
pub open spec fn sendable_queue<A: AddressFamily>(q: QueueModel<A::Prefix>) -> bool {
    &&& queue_fits::<A>(q)
    &&& forall|i: int| 0 <= i < q.reach.len() ==> (#[trigger] q.reach[i]).1.finite()
    &&& q.unreach.finite()
}

/// What decisions of export policies queue can be sent.
pub proof fn exports_can_be_sent<A: AddressFamily>(
    s: OutState<A::Prefix>,
    addr: IpAddr,
    in_use: bool,
    results: Seq<(IpNetwork, PolicyResult<RoutePolicyInfo>)>,
    ids: Seq<u32>,
    tx_attrs: Seq<Attrs>,
)
    requires
        sendable_queue::<A>(s.queue),
        forall|i: int|
            0 <= i < results.len() && (#[trigger] results[i]).1 is Accept ==> attrs_fit::<A>(
                tx_attrs[i],
                s.queue.add_path,
            ),
    ensures
        sendable_queue::<A>(exported_all::<A>(s, addr, in_use, results, ids, tx_attrs).queue),
        exported_all::<A>(s, addr, in_use, results, ids, tx_attrs).queue.add_path == s.queue.add_path,
    decreases results.len(),
{
    if results.len() > 0 {
        let init = results.drop_last();
        let n = results.len() - 1;
        assert forall|i: int| 0 <= i < init.len() && (#[trigger] init[i]).1 is Accept implies attrs_fit::<A>(
            tx_attrs[i],
            s.queue.add_path,
        ) by {
            assert(init[i] == results[i]);
        }
        exports_can_be_sent::<A>(s, addr, in_use, init, ids, tx_attrs);
        let q = exported_all::<A>(s, addr, in_use, init, ids, tx_attrs).queue;
        let v = exported_all::<A>(s, addr, in_use, results, ids, tx_attrs).queue;
        let path = result_path::<A>(in_use, results, ids, n);
        reach_index_bound(q.reach, tx_attrs[n]);
        if results[n].1 is Accept {
            assert(attrs_fit::<A>(tx_attrs[n], q.add_path));
            let r = reach_added(q.reach, tx_attrs[n], path);
            assert forall|i: int| 0 <= i < r.len() implies attrs_fit::<A>((#[trigger] r[i]).0, q.add_path)
                && r[i].1.finite() by {
                if i < q.reach.len() {
                    assert(attrs_fit::<A>(q.reach[i].0, q.add_path));
                    assert(q.reach[i].1.finite());
                }
            }
        } else {
            assert(v.reach == q.reach);
            assert forall|i: int| 0 <= i < v.reach.len() implies attrs_fit::<A>((#[trigger] v.reach[i]).0, v.add_path) by {
                assert(attrs_fit::<A>(q.reach[i].0, q.add_path));
            }
        }
    }
}

/// The messages that follow from decisions of export policies on different IPv4
/// paths advertise exactly what was queued already and what is news, each path
/// with its own identifier.
pub proof fn export_messages_are_exact(
    s: OutState<Ipv4Network>,
    addr: IpAddr,
    in_use: bool,
    results: Seq<(IpNetwork, PolicyResult<RoutePolicyInfo>)>,
    ids: Seq<u32>,
    tx_attrs: Seq<Attrs>,
    path: Path<Ipv4Network>,
)
    requires
        sendable_queue::<Ipv4Unicast>(s.queue),
        forall|i: int|
            0 <= i < results.len() && (#[trigger] results[i]).1 is Accept ==> attrs_fit::<Ipv4Unicast>(
                tx_attrs[i],
                s.queue.add_path,
            ),
        distinct_paths::<Ipv4Unicast>(in_use, results, ids),
    ensures
        any_advertises(
            queue_updates::<Ipv4Unicast>(
                exported_all::<Ipv4Unicast>(s, addr, in_use, results, ids, tx_attrs).queue,
            ),
            path,
        ) <==> reach_paths(s.queue.reach).contains(path) || news_on::<Ipv4Unicast>(
            s.table,
            addr,
            in_use,
            results,
            ids,
            path,
        ),
{
    exports_can_be_sent::<Ipv4Unicast>(s, addr, in_use, results, ids, tx_attrs);
    exports_queue_what_is_news::<Ipv4Unicast>(s, addr, in_use, results, ids, tx_attrs, path);
    messages_carry_what_is_queued(
        exported_all::<Ipv4Unicast>(s, addr, in_use, results, ids, tx_attrs).queue,
        path,
    );
}

proof fn resent_can_be_sent<A: AddressFamily>(
    q: QueueModel<A::Prefix>,
    routes: Seq<PeerRoute<A::Prefix>>,
    tx_attrs: Seq<Attrs>,
)
    requires
        sendable_queue::<A>(q),
        forall|i: int| 0 <= i < routes.len() ==> attrs_fit::<A>(#[trigger] tx_attrs[i], q.add_path),
    ensures
        sendable_queue::<A>(resent(q, routes, tx_attrs)),
        resent(q, routes, tx_attrs).add_path == q.add_path,
    decreases routes.len(),
{
    if routes.len() > 0 {
        let u = resent(q, routes.drop_last(), tx_attrs);
        let n = routes.len() - 1;
        resent_can_be_sent::<A>(q, routes.drop_last(), tx_attrs);
        assert(attrs_fit::<A>(tx_attrs[n], q.add_path));
        reach_index_bound(u.reach, tx_attrs[n]);
        let r = reach_added(u.reach, tx_attrs[n], route_path(routes.last()));
        assert forall|i: int| 0 <= i < r.len() implies attrs_fit::<A>((#[trigger] r[i]).0, q.add_path)
            && r[i].1.finite() by {
            if i < u.reach.len() {
                assert(attrs_fit::<A>(u.reach[i].0, q.add_path));
                assert(u.reach[i].1.finite());
            }
        }
    }
}

/// The messages that answer a request to send IPv4 routes again advertise
/// exactly the paths that are advertised to the neighbor, each with its
/// identifier, and withdraw none.
pub proof fn refresh_messages_are_exact(
    t: TableModel<Ipv4Network>,
    q: QueueModel<Ipv4Network>,
    addr: IpAddr,
    tx_attrs: Seq<Attrs>,
    path: Path<Ipv4Network>,
)
    requires
        t.prefixes.dom().finite(),
        finitely_many_paths(t),
        q.reach.len() == 0,
        q.unreach == Set::<Path<Ipv4Network>>::empty(),
        forall|i: int|
            0 <= i < all_advertised(t, addr).len() ==> attrs_fit::<Ipv4Unicast>(#[trigger] tx_attrs[i], q.add_path),
    ensures
        any_advertises(
            queue_updates::<Ipv4Unicast>(resent(q, all_advertised(t, addr), tx_attrs)),
            path,
        ) <==> adj_at(t, path, addr).out_post is Some,
        !any_withdraws(queue_updates::<Ipv4Unicast>(resent(q, all_advertised(t, addr), tx_attrs)), path),
{
    resent_can_be_sent::<Ipv4Unicast>(q, all_advertised(t, addr), tx_attrs);
    refresh_repeats_what_is_advertised(t, q, addr, tx_attrs, path);
    messages_carry_what_is_queued(resent(q, all_advertised(t, addr), tx_attrs), path);
}

}
