//! What holds of the decision process: which routes a neighbor is offered, what
//! it is told of them, and what is kept as advertised.
use crate::adj_laws::only_neighbor_differs;
use crate::adj_laws::unadvertised_is_gone;
use crate::af::attrs_fit;
use crate::af::chunked;
use crate::af::entry_updates;
use crate::af::path_size;
use crate::af::queue_updates;
use crate::af::reach_updates;
use crate::af::room;
use crate::af::unreach_updates;
use crate::af::AddressFamily;
use crate::attribute::attrs_length;
use crate::attribute::Attrs;
use crate::bgp::AfiSafi;
use crate::decision::accepted_paths;
use crate::decision::advertise_effect;
use crate::decision::advertised_all;
use crate::decision::all_answered;
use crate::decision::best_routes;
use crate::decision::candidates;
use crate::decision::chosen_all;
use crate::decision::cleaned;
use crate::decision::decision_effect;
use crate::decision::decision_process;
use crate::decision::decision_start;
use crate::decision::distribute_all;
use crate::decision::distribute_effect;
use crate::decision::dropped_prefixes;
use crate::decision::export_ids;
use crate::decision::export_request;
use crate::decision::export_routes;
use crate::decision::is_stale;
use crate::decision::kept_attrs;
use crate::decision::kept_routes;
use crate::decision::lost_prefixes;
use crate::decision::no_output;
use crate::decision::not_any_more;
use crate::decision::not_offered;
use crate::decision::offered;
use crate::decision::output_models;
use crate::decision::queue_models;
use crate::decision::queues_wf;
use crate::decision::selected_table;
use crate::decision::selection_offer;
use crate::decision::takes_part;
use crate::decision::unadvertised_all;
use crate::decision::with_destination;
use crate::decision::Answer;
use crate::decision::NbrOutput;
use crate::decision::Offer;
use crate::decision::OutState;
use crate::decision::Selection;
use crate::events::nbr_list;
use crate::events::neighbors_wf;
use crate::events::PolicyApplyMsg;
use crate::ibus_laws::are_named;
use crate::ibus_laws::named_policies;
use crate::ip::IpAddr;
use crate::ip::IpNetwork;
use crate::message::update_models;
use crate::message::UpdateModel;
use crate::neighbor::reach_added;
use crate::neighbor::reach_index;
use crate::neighbor::reach_index_bound;
use crate::neighbor::Neighbor;
use crate::neighbor::NeighborUpdateQueue;
use crate::neighbor::Neighbors;
use crate::neighbor::QueueModel;
use crate::neighbor::State;
use crate::ord::elems_count;
use crate::ord::entries_map_get;
use crate::ord::finite_sets_have_order;
use crate::ord::in_order;
use crate::ord::keys_are_domain;
use crate::ord::Key;
use crate::ord::Ranked;
use crate::ord::SortedMap;
use crate::path::ids_distinct;
use crate::path::Path;
use crate::path::PathIds;
use crate::path::PeerPath;
use crate::path_laws::accepted_prefixes;
use crate::path_laws::best_paths_have_no_id;
use crate::path_laws::every_path_gets_an_id;
use crate::path_laws::finitely_many_paths;
use crate::path_laws::listed_exactly;
use crate::path_laws::listed_prefixes;
use crate::path_laws::offered_paths_are_distinct;
use crate::path_laws::piece_members;
use crate::path_laws::room_is_there;
use crate::path_laws::sendable_queue;
use crate::policy_types::PolicyType;
use crate::protocol::Label;
use crate::rib::adj_at;
use crate::rib::dest_at;
use crate::rib::has_adj;
use crate::rib::route_path;
use crate::rib::route_paths;
use crate::rib::table_routes;
use crate::rib::AdjRib;
use crate::rib::AdjSide;
use crate::rib::PeerRoute;
use crate::rib::Route;
use crate::rib::RoutingTable;
use crate::rib::TableModel;
use crate::shared::InstanceShared;
use crate::update_laws::in_use;
use crate::update_laws::raw_routes;
use crate::update_laws::routes_of;
use vstd::prelude::*;

verus! {

/// Whether one of several messages withdraws a path.
pub open spec fn sends_withdrawal<A: AddressFamily>(msgs: Seq<UpdateModel>, q: Path<A::Prefix>) -> bool {
    exists|piece: Seq<Path<A::Prefix>>, labels: Map<Path<A::Prefix>, Label>|
        piece.contains(q) && msgs.contains(#[trigger] A::unreach_update(piece, labels))
}

/// Whether one of several messages advertises a path with some attributes.
pub open spec fn sends_route<A: AddressFamily>(msgs: Seq<UpdateModel>, q: Path<A::Prefix>, attrs: Attrs) -> bool {
    exists|piece: Seq<Path<A::Prefix>>, labels: Map<Path<A::Prefix>, Label>, a: Attrs|
        piece.contains(q) && a@ == attrs@ && msgs.contains(#[trigger] A::reach_update(piece, labels, a))
}

/// What waits to be withdrawn is in one of the messages.
pub proof fn queued_withdrawals_are_sent<A: AddressFamily>(q: QueueModel<A::Prefix>, path: Path<A::Prefix>)
    requires
        q.unreach.finite(),
        q.unreach.contains(path),
    ensures
        sends_withdrawal::<A>(queue_updates::<A>(q), path),
{
    let n = room(A::unreach_overhead(), path_size(A::prefix_size(), q.add_path));
    A::withdrawals_have_room(q.add_path);
    let listed = in_order::<Path<A::Prefix>>(q.unreach);
    finite_sets_have_order::<Path<A::Prefix>>(q.unreach);
    assert(listed.contains(path));
    piece_members(listed, n, path);
    let pieces = chunked(listed, n);
    let m = choose|m: int| 0 <= m < pieces.len() && (#[trigger] pieces[m]).contains(path);
    let reach = reach_updates::<A>(q.reach, q.labels, q.add_path);
    let all = queue_updates::<A>(q);
    let unreach = unreach_updates::<A>(q.unreach, q.labels, q.add_path);
    assert(unreach[m] == A::unreach_update(pieces[m], q.labels));
    assert(all[reach.len() + m] == unreach[m]);
    assert(all.contains(A::unreach_update(pieces[m], q.labels)));
}

proof fn sent_first<A: AddressFamily>(a: Seq<UpdateModel>, b: Seq<UpdateModel>, q: Path<A::Prefix>)
    requires
        sends_withdrawal::<A>(a, q),
    ensures
        sends_withdrawal::<A>(a + b, q),
{
    let (piece, labels) = choose|piece: Seq<Path<A::Prefix>>, labels: Map<Path<A::Prefix>, Label>|
        piece.contains(q) && a.contains(#[trigger] A::unreach_update(piece, labels));
    let x = A::unreach_update(piece, labels);
    let m = choose|m: int| 0 <= m < a.len() && a[m] == x;
    assert((a + b)[m] == x);
    assert((a + b).contains(A::unreach_update(piece, labels)));
}

/// What withdrawing paths from a neighbor leaves of one of them: it is not kept
/// as advertised, and a withdrawal waits if it was advertised.
/// What withdrawing routes from a neighbor does to a path.
pub proof fn unadvertised_path<P>(s: OutState<P>, addr: IpAddr, ps: Seq<Path<P>>, q: Path<P>)
    requires
        s.queue.unreach.finite(),
    ensures
        unadvertised_all(s, addr, ps).queue.unreach.finite(),
        unadvertised_all(s, addr, ps).queue.reach == s.queue.reach,
        unadvertised_all(s, addr, ps).queue.add_path == s.queue.add_path,
        s.queue.unreach.contains(q) ==> unadvertised_all(s, addr, ps).queue.unreach.contains(q),
        ps.contains(q) && adj_at(s.table, q, addr).out_post is Some ==> unadvertised_all(
            s,
            addr,
            ps,
        ).queue.unreach.contains(q),
        adj_at(unadvertised_all(s, addr, ps).table, q, addr).in_pre == adj_at(s.table, q, addr).in_pre,
        adj_at(unadvertised_all(s, addr, ps).table, q, addr).in_post == adj_at(s.table, q, addr).in_post,
    decreases ps.len(),
{
    if ps.len() > 0 {
        let init = ps.drop_last();
        let u = unadvertised_all(s, addr, init);
        unadvertised_path(s, addr, init, q);
        unadvertised_is_gone(s, addr, init);
        if ps.contains(q) && !init.contains(q) {
            let i = choose|i: int| 0 <= i < ps.len() && ps[i] == q;
            if i < init.len() {
                assert(init[i] == q);
            }
            assert(adj_at(u.table, q, addr) == adj_at(s.table, q, addr));
        }
    }
}

/// What choosing routes for a neighbor does to a path.
pub proof fn chosen_path<P>(t: TableModel<P>, addr: IpAddr, routes: Seq<(Path<P>, Route)>, q: Path<P>)
    ensures
        (forall|i: int| 0 <= i < routes.len() ==> (#[trigger] routes[i]).0 != q) ==> adj_at(
            chosen_all(t, addr, routes),
            q,
            addr,
        ) == adj_at(t, q, addr),
        adj_at(chosen_all(t, addr, routes), q, addr).out_post == adj_at(t, q, addr).out_post,
        adj_at(chosen_all(t, addr, routes), q, addr).in_pre == adj_at(t, q, addr).in_pre,
        adj_at(chosen_all(t, addr, routes), q, addr).in_post == adj_at(t, q, addr).in_post,
        forall|i: int|
            #![trigger routes[i]]
            0 <= i < routes.len() && routes[i].0 == q && (forall|j: int|
                i < j < routes.len() ==> (#[trigger] routes[j]).0 != q) ==> adj_at(
                chosen_all(t, addr, routes),
                q,
                addr,
            ).out_pre == Some(routes[i].1),
        only_neighbor_differs(t, chosen_all(t, addr, routes), addr),
    decreases routes.len(),
{
    if routes.len() > 0 {
        let init = routes.drop_last();
        let u = chosen_all(t, addr, init);
        let v = chosen_all(t, addr, routes);
        chosen_path(t, addr, init, q);
        let last = routes[routes.len() - 1];
        assert(forall|i: int| 0 <= i < init.len() ==> #[trigger] init[i] == routes[i]);
        assert forall|i: int|
            #![trigger routes[i]]
            0 <= i < routes.len() && routes[i].0 == q && (forall|j: int|
                i < j < routes.len() ==> (#[trigger] routes[j]).0 != q) implies adj_at(v, q, addr).out_pre == Some(
            routes[i].1,
        ) by {
            if i < init.len() {
                assert(init[i] == routes[i]);
                assert(last.0 != q);
                assert forall|j: int| i < j < init.len() implies (#[trigger] init[j]).0 != q by {
                    assert(init[j] == routes[j]);
                }
            }
        }
        if forall|i: int| 0 <= i < routes.len() ==> (#[trigger] routes[i]).0 != q {
            assert(last.0 != q);
            assert forall|i: int| 0 <= i < init.len() implies (#[trigger] init[i]).0 != q by {
                assert(init[i] == routes[i]);
            }
        }
        assert(only_neighbor_differs(u, v, addr)) by {
            differs_at_one(u, last.0, addr, AdjRib { out_pre: Some(last.1), ..adj_at(u, last.0, addr) });
        }
        differs_on(t, u, v, addr);
    }
}

proof fn differs_at_one<P>(t: TableModel<P>, q: Path<P>, addr: IpAddr, adj: AdjRib)
    ensures
        only_neighbor_differs(t, crate::rib::with_adj(t, q, addr, adj), addr),
{
}

proof fn differs_on<P>(t: TableModel<P>, u: TableModel<P>, v: TableModel<P>, addr: IpAddr)
    requires
        only_neighbor_differs(t, u, addr),
        only_neighbor_differs(u, v, addr),
    ensures
        only_neighbor_differs(t, v, addr),
{
    assert forall|q: Path<P>, a: IpAddr| a != addr implies #[trigger] adj_at(t, q, a) == adj_at(v, q, a) by {
        assert(adj_at(u, q, a) == adj_at(v, q, a));
    }
    assert forall|p: P| (#[trigger] dest_at(t, p)).local == dest_at(v, p).local by {
        assert(dest_at(u, p).local == dest_at(v, p).local);
    }
    assert forall|p: P| (#[trigger] dest_at(t, p)).redistribute == dest_at(v, p).redistribute by {
        assert(dest_at(u, p).redistribute == dest_at(v, p).redistribute);
    }
}

/// What advertising routes to a neighbor does to a path.
pub proof fn advertised_path<P>(
    s: OutState<P>,
    addr: IpAddr,
    routes: Seq<(Path<P>, Route)>,
    tx_attrs: Seq<Attrs>,
    q: Path<P>,
)
    ensures
        (forall|i: int| 0 <= i < routes.len() ==> (#[trigger] routes[i]).0 != q) ==> adj_at(
            advertised_all(s, addr, routes, tx_attrs).table,
            q,
            addr,
        ) == adj_at(s.table, q, addr),
        adj_at(advertised_all(s, addr, routes, tx_attrs).table, q, addr).out_pre == adj_at(s.table, q, addr).out_pre,
        adj_at(advertised_all(s, addr, routes, tx_attrs).table, q, addr).in_pre == adj_at(s.table, q, addr).in_pre,
        adj_at(advertised_all(s, addr, routes, tx_attrs).table, q, addr).in_post == adj_at(s.table, q, addr).in_post,
        forall|i: int|
            #![trigger routes[i]]
            0 <= i < routes.len() && routes[i].0 == q && (forall|j: int|
                i < j < routes.len() ==> (#[trigger] routes[j]).0 != q) ==> adj_at(
                advertised_all(s, addr, routes, tx_attrs).table,
                q,
                addr,
            ).out_post == Some(routes[i].1),
        only_neighbor_differs(s.table, advertised_all(s, addr, routes, tx_attrs).table, addr),
        advertised_all(s, addr, routes, tx_attrs).queue.unreach == s.queue.unreach,
        advertised_all(s, addr, routes, tx_attrs).queue.add_path == s.queue.add_path,
    decreases routes.len(),
{
    if routes.len() > 0 {
        let init = routes.drop_last();
        let u = advertised_all(s, addr, init, tx_attrs);
        let v = advertised_all(s, addr, routes, tx_attrs);
        advertised_path(s, addr, init, tx_attrs, q);
        let last = routes[routes.len() - 1];
        assert(forall|i: int| 0 <= i < init.len() ==> #[trigger] init[i] == routes[i]);
        assert forall|i: int|
            #![trigger routes[i]]
            0 <= i < routes.len() && routes[i].0 == q && (forall|j: int|
                i < j < routes.len() ==> (#[trigger] routes[j]).0 != q) implies adj_at(v.table, q, addr).out_post
            == Some(routes[i].1) by {
            if i < init.len() {
                assert(init[i] == routes[i]);
                assert(last.0 != q);
                assert forall|j: int| i < j < init.len() implies (#[trigger] init[j]).0 != q by {
                    assert(init[j] == routes[j]);
                }
            }
        }
        if forall|i: int| 0 <= i < routes.len() ==> (#[trigger] routes[i]).0 != q {
            assert(last.0 != q);
            assert forall|i: int| 0 <= i < init.len() implies (#[trigger] init[i]).0 != q by {
                assert(init[i] == routes[i]);
            }
        }
        assert(only_neighbor_differs(u.table, v.table, addr)) by {
            differs_at_one(u.table, last.0, addr, AdjRib { out_post: Some(last.1), ..adj_at(u.table, last.0, addr) });
        }
        differs_on(s.table, u.table, v.table, addr);
    }
}

/// No path is offered twice.
pub open spec fn all_different<P>(reach: Seq<(Path<P>, Route)>) -> bool {
    forall|i: int, j: int| 0 <= i < j < reach.len() ==> (#[trigger] reach[i]).0 != (#[trigger] reach[j]).0
}

proof fn kept_shape<P>(reach: Seq<(Path<P>, Route)>, answers: Seq<Answer>, i: int)
    requires
        all_different(reach),
        answers.len() >= reach.len(),
        0 <= i < reach.len(),
    ensures
        answers[i].eligible ==> exists|k: int|
            0 <= k < kept_routes(reach, answers).len() && #[trigger] kept_routes(reach, answers)[k] == reach[i]
                && kept_attrs(reach, answers)[k] == answers[i].attrs,
        !answers[i].eligible ==> dropped_prefixes(reach, answers).contains(reach[i].0),
        !answers[i].eligible ==> forall|k: int|
            0 <= k < kept_routes(reach, answers).len() ==> (#[trigger] kept_routes(reach, answers)[k]).0
                != reach[i].0,
        answers[i].eligible ==> !dropped_prefixes(reach, answers).contains(reach[i].0),
        kept_attrs(reach, answers).len() == kept_routes(reach, answers).len(),
    decreases reach.len(),
{
    let init = reach.drop_last();
    let n = reach.len() - 1;
    kept_from(reach, answers);
    assert(all_different(init)) by {
        assert forall|a: int, b: int| 0 <= a < b < init.len() implies (#[trigger] init[a]).0 != (
        #[trigger] init[b]).0 by {
            assert(init[a] == reach[a] && init[b] == reach[b]);
        }
    }
    kept_from(init, answers);
    let kept = kept_routes(reach, answers);
    let gone = dropped_prefixes(reach, answers);
    if i < n {
        assert(init[i] == reach[i]);
        kept_shape(init, answers, i);
        let k0 = kept_routes(init, answers);
        let d0 = dropped_prefixes(init, answers);
        assert(reach[n].0 != reach[i].0);
        if answers[i].eligible {
            let k = choose|k: int|
                0 <= k < k0.len() && #[trigger] k0[k] == init[i] && kept_attrs(init, answers)[k] == answers[i].attrs;
            assert(kept[k] == reach[i]);
            if gone.contains(reach[i].0) {
                let m = choose|m: int| 0 <= m < gone.len() && gone[m] == reach[i].0;
                if m < d0.len() {
                    assert(d0[m] == reach[i].0);
                }
            }
        } else {
            let m = choose|m: int| 0 <= m < d0.len() && d0[m] == reach[i].0;
            assert(gone[m] == reach[i].0);
            assert forall|k: int| 0 <= k < kept.len() implies (#[trigger] kept[k]).0 != reach[i].0 by {
                if k < k0.len() {
                    assert(kept[k] == k0[k]);
                }
            }
        }
    } else {
        let k0 = kept_routes(init, answers);
        let d0 = dropped_prefixes(init, answers);
        if answers[n].eligible {
            assert(kept[k0.len() as int] == reach[n]);
            if gone.contains(reach[n].0) {
                let m = choose|m: int| 0 <= m < gone.len() && gone[m] == reach[n].0;
                assert(d0[m] == gone[m]);
                let a = choose|a: int| 0 <= a < init.len() && (#[trigger] init[a]).0 == d0[m];
                assert(reach[a].0 != reach[n].0);
            }
        } else {
            assert(gone[d0.len() as int] == reach[n].0);
            assert forall|k: int| 0 <= k < kept.len() implies (#[trigger] kept[k]).0 != reach[n].0 by {
                assert(kept[k] == k0[k]);
                let a = choose|a: int| 0 <= a < init.len() && #[trigger] init[a] == k0[k];
                assert(reach[a].0 != reach[n].0);
            }
        }
    }
}

/// Whether a route is among those offered.
pub open spec fn is_among<P>(reach: Seq<(Path<P>, Route)>, x: (Path<P>, Route)) -> bool {
    exists|a: int| 0 <= a < reach.len() && #[trigger] reach[a] == x
}

/// Whether a path is among those offered.
pub open spec fn has_path<P>(reach: Seq<(Path<P>, Route)>, q: Path<P>) -> bool {
    exists|a: int| 0 <= a < reach.len() && (#[trigger] reach[a]).0 == q
}

proof fn kept_from<P>(reach: Seq<(Path<P>, Route)>, answers: Seq<Answer>)
    ensures
        kept_attrs(reach, answers).len() == kept_routes(reach, answers).len(),
        forall|k: int|
            0 <= k < kept_routes(reach, answers).len() ==> is_among(
                reach,
                #[trigger] kept_routes(reach, answers)[k],
            ),
        forall|k: int|
            0 <= k < dropped_prefixes(reach, answers).len() ==> has_path(
                reach,
                #[trigger] dropped_prefixes(reach, answers)[k],
            ),
    decreases reach.len(),
{
    if reach.len() > 0 {
        let init = reach.drop_last();
        kept_from(init, answers);
        let kept = kept_routes(reach, answers);
        let k0 = kept_routes(init, answers);
        let gone = dropped_prefixes(reach, answers);
        let d0 = dropped_prefixes(init, answers);
        assert forall|k: int| 0 <= k < kept.len() implies is_among(reach, #[trigger] kept[k]) by {
            if k < k0.len() {
                assert(kept[k] == k0[k]);
                let a = choose|a: int| 0 <= a < init.len() && #[trigger] init[a] == k0[k];
                assert(reach[a] == kept[k]);
            } else {
                assert(reach[reach.len() - 1] == kept[k]);
            }
        }
        assert forall|k: int| 0 <= k < gone.len() implies has_path(reach, #[trigger] gone[k]) by {
            if k < d0.len() {
                assert(gone[k] == d0[k]);
                let a = choose|a: int| 0 <= a < init.len() && (#[trigger] init[a]).0 == d0[k];
                assert(reach[a].0 == gone[k]);
            } else {
                assert(reach[reach.len() - 1].0 == gone[k]);
            }
        }
    }
}

/// Whether a path waits to be sent with some attributes.
pub open spec fn waits_with<P>(reach: Seq<(Attrs, Set<Path<P>>)>, q: Path<P>, attrs: Attrs) -> bool {
    exists|e: int| 0 <= e < reach.len() && (#[trigger] reach[e]).0@ == attrs@ && reach[e].1.contains(q)
}

/// A path that is queued with attributes waits with them, and what waited still does.
pub proof fn added_waits<P>(reach: Seq<(Attrs, Set<Path<P>>)>, attrs: Attrs, path: Path<P>)
    ensures
        waits_with(reach_added(reach, attrs, path), path, attrs),
        forall|q: Path<P>, a: Attrs| #[trigger]
            waits_with(reach, q, a) ==> waits_with(reach_added(reach, attrs, path), q, a),
{
    let r = reach_added(reach, attrs, path);
    let n = reach_index(reach, attrs);
    reach_index_bound(reach, attrs);
    index_matches(reach, attrs);
    if n >= 0 {
        assert(r[n].0@ == attrs@ && r[n].1.contains(path));
    } else {
        assert(r[reach.len() as int].0@ == attrs@ && r[reach.len() as int].1.contains(path));
    }
    assert forall|q: Path<P>, a: Attrs| #[trigger] waits_with(reach, q, a) implies waits_with(r, q, a) by {
        let e = choose|e: int| 0 <= e < reach.len() && (#[trigger] reach[e]).0@ == a@ && reach[e].1.contains(q);
        assert(r[e].0@ == a@ && r[e].1.contains(q));
    }
}

proof fn index_matches<P>(reach: Seq<(Attrs, Set<Path<P>>)>, attrs: Attrs)
    ensures
        reach_index(reach, attrs) >= 0 ==> reach_index(reach, attrs) < reach.len() && reach[reach_index(
            reach,
            attrs,
        )].0@ == attrs@,
    decreases reach.len(),
{
    if reach.len() > 0 && reach.last().0@ != attrs@ {
        index_matches(reach.drop_last(), attrs);
    }
}

/// Routes that are advertised wait to be sent, each with its attributes.
pub proof fn advertised_waits<A: AddressFamily>(
    s: OutState<A::Prefix>,
    addr: IpAddr,
    routes: Seq<(Path<A::Prefix>, Route)>,
    tx_attrs: Seq<Attrs>,
)
    requires
        sendable_queue::<A>(s.queue),
        tx_attrs.len() >= routes.len(),
        forall|i: int| 0 <= i < routes.len() ==> attrs_fit::<A>(#[trigger] tx_attrs[i], s.queue.add_path),
    ensures
        sendable_queue::<A>(advertised_all(s, addr, routes, tx_attrs).queue),
        forall|i: int|
            0 <= i < routes.len() ==> waits_with(
                advertised_all(s, addr, routes, tx_attrs).queue.reach,
                (#[trigger] routes[i]).0,
                tx_attrs[i],
            ),
        advertised_all(s, addr, routes, tx_attrs).queue.add_path == s.queue.add_path,
    decreases routes.len(),
{
    if routes.len() > 0 {
        let init = routes.drop_last();
        let n = routes.len() - 1;
        let u = advertised_all(s, addr, init, tx_attrs);
        let v = advertised_all(s, addr, routes, tx_attrs);
        advertised_waits::<A>(s, addr, init, tx_attrs);
        added_waits(u.queue.reach, tx_attrs[n], routes[n].0);
        reach_index_bound(u.queue.reach, tx_attrs[n]);
        assert(attrs_fit::<A>(tx_attrs[n], s.queue.add_path));
        let r = v.queue.reach;
        assert forall|e: int| 0 <= e < r.len() implies attrs_fit::<A>((#[trigger] r[e]).0, v.queue.add_path)
            && r[e].1.finite() by {
            if e < u.queue.reach.len() {
                assert(attrs_fit::<A>(u.queue.reach[e].0, u.queue.add_path));
                assert(u.queue.reach[e].1.finite());
            }
        }
        assert forall|i: int| 0 <= i < routes.len() implies waits_with(r, (#[trigger] routes[i]).0, tx_attrs[i]) by {
            if i < n {
                assert(init[i] == routes[i]);
                assert(waits_with(u.queue.reach, init[i].0, tx_attrs[i]));
            }
        }
    }
}

proof fn entry_is_sent<A: AddressFamily>(
    reach: Seq<(Attrs, Set<Path<A::Prefix>>)>,
    labels: Map<Path<A::Prefix>, Label>,
    add_path: bool,
    e: int,
    q: Path<A::Prefix>,
)
    requires
        0 <= e < reach.len(),
        reach[e].1.contains(q),
        reach[e].1.finite(),
        attrs_fit::<A>(reach[e].0, add_path),
    ensures
        sends_route::<A>(reach_updates::<A>(reach, labels, add_path), q, reach[e].0),
    decreases reach.len(),
{
    let init = reach.drop_last();
    let last = reach[reach.len() - 1];
    let before = reach_updates::<A>(init, labels, add_path);
    let own = entry_updates::<A>(last.0, last.1, labels, add_path);
    let all = reach_updates::<A>(reach, labels, add_path);
    if e < init.len() {
        assert(init[e] == reach[e]);
        entry_is_sent::<A>(init, labels, add_path, e, q);
        let (piece, l, a) = choose|piece: Seq<Path<A::Prefix>>, l: Map<Path<A::Prefix>, Label>, a: Attrs|
            piece.contains(q) && a@ == reach[e].0@ && before.contains(#[trigger] A::reach_update(piece, l, a));
        let x = A::reach_update(piece, l, a);
        let m = choose|m: int| 0 <= m < before.len() && before[m] == x;
        assert(all[m] == x);
        assert(all.contains(A::reach_update(piece, l, a)));
    } else {
        let size = path_size(A::prefix_size(), add_path);
        let overhead = attrs_length(last.0@) + A::reach_overhead(last.0);
        A::withdrawals_have_room(add_path);
        room_is_there(overhead, size);
        let n = room(overhead, size);
        let listed = in_order::<Path<A::Prefix>>(last.1);
        finite_sets_have_order::<Path<A::Prefix>>(last.1);
        assert(listed.contains(q));
        piece_members(listed, n, q);
        let pieces = chunked(listed, n);
        let m = choose|m: int| 0 <= m < pieces.len() && (#[trigger] pieces[m]).contains(q);
        assert(own[m] == A::reach_update(pieces[m], labels, last.0));
        assert(all[before.len() + m] == own[m]);
        assert(all.contains(A::reach_update(pieces[m], labels, last.0)));
    }
}

/// What waits to be advertised is in one of the messages.
pub proof fn queued_routes_are_sent<A: AddressFamily>(queue: QueueModel<A::Prefix>, q: Path<A::Prefix>, attrs: Attrs)
    requires
        sendable_queue::<A>(queue),
        waits_with(queue.reach, q, attrs),
    ensures
        sends_route::<A>(queue_updates::<A>(queue), q, attrs),
{
    let e = choose|e: int|
        0 <= e < queue.reach.len() && (#[trigger] queue.reach[e]).0@ == attrs@ && queue.reach[e].1.contains(q);
    assert(attrs_fit::<A>(queue.reach[e].0, queue.add_path));
    entry_is_sent::<A>(queue.reach, queue.labels, queue.add_path, e, q);
    let first = reach_updates::<A>(queue.reach, queue.labels, queue.add_path);
    let all = queue_updates::<A>(queue);
    let (piece, l, a) = choose|piece: Seq<Path<A::Prefix>>, l: Map<Path<A::Prefix>, Label>, a: Attrs|
        piece.contains(q) && a@ == queue.reach[e].0@ && first.contains(#[trigger] A::reach_update(piece, l, a));
    let x = A::reach_update(piece, l, a);
    let m = choose|m: int| 0 <= m < first.len() && first[m] == x;
    assert(all[m] == x);
    assert(all.contains(A::reach_update(piece, l, a)));
}

/// What a path is to a neighbor after routes were distributed to it: gone and
/// withdrawn, chosen, or as it was.
proof fn distributed_path<A: AddressFamily>(
    s: OutState<A::Prefix>,
    nbr: Neighbor,
    reach: Seq<(Path<A::Prefix>, Route)>,
    unreach: Seq<Path<A::Prefix>>,
    answers: Seq<Answer>,
    shared: InstanceShared,
    q: Path<A::Prefix>,
    i: int,
)
    requires
        all_different(reach),
        answers.len() == reach.len(),
        s.queue.unreach.finite(),
        forall|k: int| 0 <= k < unreach.len() ==> !has_path(reach, #[trigger] unreach[k]),
    ensures
        ({
            let addr = nbr.remote_addr;
            let (u, out) = distribute_effect::<A>(s, nbr, reach, unreach, answers, shared);
            let before = adj_at(s.table, q, addr);
            let after = adj_at(u.table, q, addr);
            &&& after.in_pre == before.in_pre && after.in_post == before.in_post
            &&& unreach.contains(q) || (0 <= i < reach.len() && reach[i].0 == q && !answers[i].eligible) ==> {
                &&& after.out_pre is None
                &&& after.out_post is None
                &&& before.out_post is Some ==> sends_withdrawal::<A>(out.msgs, q)
            }
            &&& 0 <= i < reach.len() && reach[i].0 == q && answers[i].eligible ==> {
                &&& after.out_pre == Some(reach[i].1)
                &&& A::policy_disseminate_spec() ==> after.out_post == before.out_post && out.policy == Some(
                    export_request::<A>(nbr, kept_routes(reach, answers), shared),
                )
                &&& !A::policy_disseminate_spec() ==> after.out_post == Some(reach[i].1)
            }
            &&& !unreach.contains(q) && !has_path(reach, q) ==> after == before
            &&& only_neighbor_differs(s.table, u.table, addr)
        }),
{
    let addr = nbr.remote_addr;
    let gone = unreach + dropped_prefixes(reach, answers);
    let kept = kept_routes(reach, answers);
    let attrs = kept_attrs(reach, answers);
    let u1 = unadvertised_all(s, addr, gone);
    kept_from(reach, answers);
    unadvertised_path(s, addr, gone, q);
    unadvertised_is_gone(s, addr, gone);
    let s1 = if gone.len() > 0 {
        OutState { table: u1.table, queue: crate::af::drained::<A>(u1.queue) }
    } else {
        s
    };
    let msgs1 = if gone.len() > 0 {
        queue_updates::<A>(u1.queue)
    } else {
        Seq::empty()
    };
    if gone.len() == 0 {
        assert(u1 == s);
    }
    assert(only_neighbor_differs(s.table, s1.table, addr));
    chosen_path(s1.table, addr, kept, q);
    let chosen = OutState { table: chosen_all(s1.table, addr, kept), ..s1 };
    advertised_path(chosen, addr, kept, attrs, q);
    differs_on(s.table, s1.table, chosen.table, addr);
    differs_on(s.table, chosen.table, advertised_all(chosen, addr, kept, attrs).table, addr);
    let (u, out) = distribute_effect::<A>(s, nbr, reach, unreach, answers, shared);
    // Which of the three the path is.
    let is_gone = unreach.contains(q) || (0 <= i < reach.len() && reach[i].0 == q && !answers[i].eligible);
    if is_gone {
        if unreach.contains(q) {
            let k = choose|k: int| 0 <= k < unreach.len() && unreach[k] == q;
            assert(gone[k] == q);
            assert forall|k: int| 0 <= k < kept.len() implies (#[trigger] kept[k]).0 != q by {
                let a = choose|a: int| 0 <= a < reach.len() && #[trigger] reach[a] == kept[k];
                assert(!has_path(reach, unreach[choose|n: int| 0 <= n < unreach.len() && unreach[n] == q]));
                assert(reach[a].0 == kept[k].0);
            }
        } else {
            kept_shape(reach, answers, i);
            let d = dropped_prefixes(reach, answers);
            let k = choose|k: int| 0 <= k < d.len() && d[k] == q;
            assert(gone[unreach.len() + k] == q);
        }
        assert(gone.contains(q));
        if adj_at(s.table, q, addr).out_post is Some {
            queued_withdrawals_are_sent::<A>(u1.queue, q);
            if kept.len() > 0 {
                let (s2, more) = advertise_effect::<A>(s1, nbr, kept, attrs, shared);
                sent_first::<A>(msgs1, more.msgs, q);
            }
        }
    } else if 0 <= i < reach.len() && reach[i].0 == q {
        kept_shape(reach, answers, i);
        let k = choose|k: int| 0 <= k < kept.len() && #[trigger] kept[k] == reach[i] && attrs[k] == answers[i].attrs;
        kept_once(reach, answers, k);
        not_gone(reach, unreach, answers, q, i);
        assert(!gone.contains(q));
        assert(adj_at(s1.table, q, addr) == adj_at(s.table, q, addr));
        assert forall|j: int| k < j < kept.len() implies (#[trigger] kept[j]).0 != q by {}
    } else if !unreach.contains(q) && !has_path(reach, q) {
        assert forall|k: int| 0 <= k < kept.len() implies (#[trigger] kept[k]).0 != q by {
            let a = choose|a: int| 0 <= a < reach.len() && #[trigger] reach[a] == kept[k];
            assert(reach[a].0 == kept[k].0);
        }
        if gone.contains(q) {
            let k = choose|k: int| 0 <= k < gone.len() && gone[k] == q;
            if k < unreach.len() {
                assert(unreach[k] == q);
            } else {
                let d = dropped_prefixes(reach, answers);
                assert(d[k - unreach.len()] == q);
                assert(has_path(reach, d[k - unreach.len()]));
            }
        }
    }
}

proof fn not_gone<P>(
    reach: Seq<(Path<P>, Route)>,
    unreach: Seq<Path<P>>,
    answers: Seq<Answer>,
    q: Path<P>,
    i: int,
)
    requires
        all_different(reach),
        answers.len() == reach.len(),
        0 <= i < reach.len(),
        reach[i].0 == q,
        answers[i].eligible,
        forall|k: int| 0 <= k < unreach.len() ==> !has_path(reach, #[trigger] unreach[k]),
    ensures
        !(unreach + dropped_prefixes(reach, answers)).contains(q),
{
    let d = dropped_prefixes(reach, answers);
    let gone = unreach + d;
    kept_shape(reach, answers, i);
    if gone.contains(q) {
        let k = choose|k: int| 0 <= k < gone.len() && gone[k] == q;
        if k < unreach.len() {
            assert(!has_path(reach, unreach[k]));
            assert(reach[i].0 == unreach[k]);
        } else {
            assert(d[k - unreach.len()] == q);
            assert(d.contains(q));
        }
    }
}

proof fn kept_once<P>(reach: Seq<(Path<P>, Route)>, answers: Seq<Answer>, k: int)
    requires
        all_different(reach),
        0 <= k < kept_routes(reach, answers).len(),
    ensures
        all_different(kept_routes(reach, answers)),
    decreases reach.len(),
{
    all_kept_once(reach, answers);
}

proof fn all_kept_once<P>(reach: Seq<(Path<P>, Route)>, answers: Seq<Answer>)
    requires
        all_different(reach),
    ensures
        all_different(kept_routes(reach, answers)),
    decreases reach.len(),
{
    if reach.len() > 0 {
        let init = reach.drop_last();
        assert forall|a: int, b: int| 0 <= a < b < init.len() implies (#[trigger] init[a]).0 != (
        #[trigger] init[b]).0 by {
            assert(init[a] == reach[a] && init[b] == reach[b]);
        }
        all_kept_once(init, answers);
        kept_from(init, answers);
        let kept = kept_routes(reach, answers);
        let k0 = kept_routes(init, answers);
        assert forall|a: int, b: int| 0 <= a < b < kept.len() implies (#[trigger] kept[a]).0 != (
        #[trigger] kept[b]).0 by {
            assert(kept[a] == k0[a]);
            if b < k0.len() {
                assert(kept[b] == k0[b]);
            } else {
                let x = choose|x: int| 0 <= x < init.len() && #[trigger] init[x] == k0[a];
                assert(reach[x].0 != reach[reach.len() - 1].0);
            }
        }
    }
}

proof fn effect_spares_others<A: AddressFamily>(
    s: OutState<A::Prefix>,
    nbr: Neighbor,
    reach: Seq<(Path<A::Prefix>, Route)>,
    unreach: Seq<Path<A::Prefix>>,
    answers: Seq<Answer>,
    shared: InstanceShared,
)
    requires
        s.queue.unreach.finite(),
        finitely_many_paths(s.table),
    ensures
        only_neighbor_differs(
            s.table,
            distribute_effect::<A>(s, nbr, reach, unreach, answers, shared).0.table,
            nbr.remote_addr,
        ),
        finitely_many_paths(distribute_effect::<A>(s, nbr, reach, unreach, answers, shared).0.table),
{
    let addr = nbr.remote_addr;
    let gone = unreach + dropped_prefixes(reach, answers);
    let kept = kept_routes(reach, answers);
    let attrs = kept_attrs(reach, answers);
    let u1 = unadvertised_all(s, addr, gone);
    unadvertised_is_gone(s, addr, gone);
    unadvertised_is_finite(s, addr, gone);
    let s1 = if gone.len() > 0 {
        OutState { table: u1.table, queue: crate::af::drained::<A>(u1.queue) }
    } else {
        s
    };
    if gone.len() == 0 {
        assert(u1 == s);
    }
    let any: Path<A::Prefix> = arbitrary();
    chosen_path(s1.table, addr, kept, any);
    chosen_is_finite(s1.table, addr, kept);
    let chosen = OutState { table: chosen_all(s1.table, addr, kept), ..s1 };
    advertised_path(chosen, addr, kept, attrs, any);
    advertised_is_finite(chosen, addr, kept, attrs);
    differs_on(s.table, s1.table, chosen.table, addr);
    differs_on(s.table, chosen.table, advertised_all(chosen, addr, kept, attrs).table, addr);
}

proof fn one_more_is_finite<P>(t: TableModel<P>, q: Path<P>, addr: IpAddr, adj: AdjRib)
    requires
        finitely_many_paths(t),
    ensures
        finitely_many_paths(crate::rib::with_adj(t, q, addr, adj)),
{
    let u = crate::rib::with_adj(t, q, addr, adj);
    assert forall|p: P| (#[trigger] dest_at(u, p)).adj_rib.dom().finite() by {
        assert(dest_at(t, p).adj_rib.dom().finite());
        if p == q.prefix {
            assert(dest_at(u, p).adj_rib.dom() =~= dest_at(t, p).adj_rib.dom().insert(
                crate::rib::peer_path(q, addr),
            ));
        }
    }
}

proof fn unadvertised_is_finite<P>(s: OutState<P>, addr: IpAddr, ps: Seq<Path<P>>)
    requires
        finitely_many_paths(s.table),
    ensures
        finitely_many_paths(unadvertised_all(s, addr, ps).table),
    decreases ps.len(),
{
    if ps.len() > 0 {
        let u = unadvertised_all(s, addr, ps.drop_last());
        unadvertised_is_finite(s, addr, ps.drop_last());
        let adj = adj_at(u.table, ps.last(), addr);
        one_more_is_finite(u.table, ps.last(), addr, AdjRib { out_pre: None, out_post: None, ..adj });
    }
}

proof fn chosen_is_finite<P>(t: TableModel<P>, addr: IpAddr, routes: Seq<(Path<P>, Route)>)
    requires
        finitely_many_paths(t),
    ensures
        finitely_many_paths(chosen_all(t, addr, routes)),
    decreases routes.len(),
{
    if routes.len() > 0 {
        let u = chosen_all(t, addr, routes.drop_last());
        chosen_is_finite(t, addr, routes.drop_last());
        let (p, route) = routes.last();
        one_more_is_finite(u, p, addr, AdjRib { out_pre: Some(route), ..adj_at(u, p, addr) });
    }
}

proof fn advertised_is_finite<P>(
    s: OutState<P>,
    addr: IpAddr,
    routes: Seq<(Path<P>, Route)>,
    tx_attrs: Seq<Attrs>,
)
    requires
        finitely_many_paths(s.table),
    ensures
        finitely_many_paths(advertised_all(s, addr, routes, tx_attrs).table),
    decreases routes.len(),
{
    if routes.len() > 0 {
        let u = advertised_all(s, addr, routes.drop_last(), tx_attrs);
        advertised_is_finite(s, addr, routes.drop_last(), tx_attrs);
        let (p, route) = routes.last();
        one_more_is_finite(u.table, p, addr, AdjRib { out_post: Some(route), ..adj_at(u.table, p, addr) });
    }
}

/// Neighbors have different addresses.
pub open spec fn different_addresses(nbrs: Seq<Neighbor>) -> bool {
    forall|a: int, b: int|
        0 <= a < b < nbrs.len() ==> (#[trigger] nbrs[a]).remote_addr != (#[trigger] nbrs[b]).remote_addr
}

/// What the queues hold to be withdrawn is finite.
pub open spec fn finite_queues<P>(queues: Seq<QueueModel<P>>) -> bool {
    forall|i: int| 0 <= i < queues.len() ==> (#[trigger] queues[i]).unreach.finite()
}

/// The step at which a neighbor gets its share.
proof fn distribution_step<A: AddressFamily>(
    t: TableModel<A::Prefix>,
    queues: Seq<QueueModel<A::Prefix>>,
    nbrs: Seq<Neighbor>,
    offer: Offer<A::Prefix>,
    answers: Seq<Vec<Answer>>,
    shared: InstanceShared,
    j: int,
)
    requires
        different_addresses(nbrs),
        finite_queues(queues),
        nbrs.len() <= queues.len(),
        finitely_many_paths(t),
        0 <= j <= nbrs.len(),
    ensures
        ({
            let d = distribute_all::<A>(t, queues, nbrs.take(j), offer, answers, shared);
            &&& finitely_many_paths(d.table)
            &&& d.queues.len() == queues.len()
            &&& d.outputs.len() == j
            &&& forall|k: int| j <= k < queues.len() ==> #[trigger] d.queues[k] == queues[k]
            &&& forall|q: Path<A::Prefix>, a: IpAddr|
                (forall|k: int| 0 <= k < j ==> (#[trigger] nbrs[k]).remote_addr != a) ==> #[trigger] adj_at(
                    d.table,
                    q,
                    a,
                ) == adj_at(t, q, a)
            &&& forall|p: A::Prefix| (#[trigger] dest_at(d.table, p)).local == dest_at(t, p).local
            &&& forall|p: A::Prefix| (#[trigger] dest_at(d.table, p)).redistribute == dest_at(t, p).redistribute
        }),
    decreases j,
{
    if j > 0 {
        let some = nbrs.take(j);
        let nbr = nbrs[j - 1];
        assert(some.drop_last() =~= nbrs.take(j - 1));
        assert(some.last() == nbr);
        distribution_step::<A>(t, queues, nbrs, offer, answers, shared, j - 1);
        let d0 = distribute_all::<A>(t, queues, nbrs.take(j - 1), offer, answers, shared);
        let d = distribute_all::<A>(t, queues, some, offer, answers, shared);
        if takes_part::<A>(nbr) {
            assert(d0.queues[j - 1] == queues[j - 1]);
            effect_spares_others::<A>(
                OutState { table: d0.table, queue: d0.queues[j - 1] },
                nbr,
                offered::<A>(nbr, offer),
                not_any_more::<A>(d0.table, nbr, offer),
                answers[j - 1]@,
                shared,
            );
        }
        assert forall|q: Path<A::Prefix>, a: IpAddr|
            (forall|k: int| 0 <= k < j ==> (#[trigger] nbrs[k]).remote_addr != a) implies #[trigger] adj_at(
            d.table,
            q,
            a,
        ) == adj_at(t, q, a) by {
            assert(nbrs[j - 1].remote_addr != a);
            assert(adj_at(d0.table, q, a) == adj_at(t, q, a));
        }
        assert forall|p: A::Prefix| (#[trigger] dest_at(d.table, p)).local == dest_at(t, p).local by {
            assert(dest_at(d0.table, p).local == dest_at(t, p).local);
        }
        assert forall|p: A::Prefix| (#[trigger] dest_at(d.table, p)).redistribute == dest_at(t, p).redistribute by {
            assert(dest_at(d0.table, p).redistribute == dest_at(t, p).redistribute);
        }
    } else {
        assert(nbrs.take(0) =~= Seq::<Neighbor>::empty());
    }
}

/// What a neighbor is told and what is kept of it at the end is what its own
/// share made of it.
proof fn share_stands<A: AddressFamily>(
    t: TableModel<A::Prefix>,
    queues: Seq<QueueModel<A::Prefix>>,
    nbrs: Seq<Neighbor>,
    offer: Offer<A::Prefix>,
    answers: Seq<Vec<Answer>>,
    shared: InstanceShared,
    j: int,
    n: int,
    q: Path<A::Prefix>,
)
    requires
        different_addresses(nbrs),
        finite_queues(queues),
        nbrs.len() <= queues.len(),
        finitely_many_paths(t),
        0 <= j < n <= nbrs.len(),
    ensures
        ({
            let d = distribute_all::<A>(t, queues, nbrs.take(j), offer, answers, shared);
            let full = distribute_all::<A>(t, queues, nbrs.take(n), offer, answers, shared);
            let nbr = nbrs[j];
            let (u, out) = distribute_effect::<A>(
                OutState { table: d.table, queue: queues[j] },
                nbr,
                offered::<A>(nbr, offer),
                not_any_more::<A>(d.table, nbr, offer),
                answers[j]@,
                shared,
            );
            &&& takes_part::<A>(nbr) ==> full.outputs[j] == out && adj_at(full.table, q, nbr.remote_addr) == adj_at(
                u.table,
                q,
                nbr.remote_addr,
            )
            &&& !takes_part::<A>(nbr) ==> full.outputs[j] == no_output() && adj_at(full.table, q, nbr.remote_addr)
                == adj_at(t, q, nbr.remote_addr)
            &&& adj_at(d.table, q, nbr.remote_addr) == adj_at(t, q, nbr.remote_addr)
        }),
    decreases n,
{
    let nbr = nbrs[j];
    let addr = nbr.remote_addr;
    distribution_step::<A>(t, queues, nbrs, offer, answers, shared, j);
    distribution_step::<A>(t, queues, nbrs, offer, answers, shared, n - 1);
    let d = distribute_all::<A>(t, queues, nbrs.take(j), offer, answers, shared);
    assert forall|k: int| 0 <= k < j implies (#[trigger] nbrs[k]).remote_addr != addr by {}
    assert(adj_at(d.table, q, addr) == adj_at(t, q, addr));
    let some = nbrs.take(n);
    assert(some.drop_last() =~= nbrs.take(n - 1));
    assert(some.last() == nbrs[n - 1]);
    let d0 = distribute_all::<A>(t, queues, nbrs.take(n - 1), offer, answers, shared);
    let full = distribute_all::<A>(t, queues, some, offer, answers, shared);
    if n - 1 > j {
        share_stands::<A>(t, queues, nbrs, offer, answers, shared, j, n - 1, q);
        let last = nbrs[n - 1];
        assert(nbrs[j].remote_addr != nbrs[n - 1].remote_addr);
        if takes_part::<A>(last) {
            assert(d0.queues[n - 1] == queues[n - 1]);
            effect_spares_others::<A>(
                OutState { table: d0.table, queue: d0.queues[n - 1] },
                last,
                offered::<A>(last, offer),
                not_any_more::<A>(d0.table, last, offer),
                answers[n - 1]@,
                shared,
            );
            assert(adj_at(d0.table, q, addr) == adj_at(full.table, q, addr));
        }
        assert(full.outputs[j] == d0.outputs[j]);
    } else {
        assert(d0.queues[j] == queues[j]);
        assert(full.outputs[j] == full.outputs.last());
    }
}

proof fn not_offered_is_apart<P>(paths: Seq<Path<P>>, reach: Seq<(Path<P>, Route)>, q: Path<P>)
    ensures
        not_offered(paths, reach).contains(q) <==> paths.contains(q) && !has_path(reach, q),
    decreases paths.len(),
{
    let all = not_offered(paths, reach);
    if paths.len() > 0 {
        let init = paths.drop_last();
        let rest = not_offered(init, reach);
        let last = paths[paths.len() - 1];
        not_offered_is_apart(init, reach, q);
        if rest.contains(q) {
            let k = choose|k: int| 0 <= k < rest.len() && rest[k] == q;
            assert(all[k] == q);
            let n = choose|n: int| 0 <= n < init.len() && init[n] == q;
            assert(paths[n] == q);
        }
        if all.contains(q) && !rest.contains(q) {
            let k = choose|k: int| 0 <= k < all.len() && all[k] == q;
            if k < rest.len() {
                assert(rest[k] == q);
            }
            assert(q == last);
        }
        if paths.contains(q) && !init.contains(q) {
            let k = choose|k: int| 0 <= k < paths.len() && paths[k] == q;
            if k < init.len() {
                assert(init[k] == q);
            }
            if !has_path(reach, q) {
                assert(all == rest.push(q));
                assert(all[rest.len() as int] == q);
            }
        }
    }
}

/// A prefix with a selected route is among the reachable ones, with that route,
/// and one without among those that are lost.
pub proof fn selection_of<P>(ps: Seq<P>, selections: Seq<Selection>, k: int)
    requires
        0 <= k < ps.len(),
    ensures
        selections[k].best matches Some(route) ==> is_among(
            best_routes(ps, selections),
            (Path { prefix: ps[k], path_id: 0 }, route),
        ),
        selections[k].best is None ==> lost_prefixes(ps, selections).contains(Path { prefix: ps[k], path_id: 0 }),
    decreases ps.len(),
{
    let init = ps.drop_last();
    let best = best_routes(ps, selections);
    let b0 = best_routes(init, selections);
    let lost = lost_prefixes(ps, selections);
    let l0 = lost_prefixes(init, selections);
    if k < init.len() {
        selection_of(init, selections, k);
        assert(init[k] == ps[k]);
        if let Some(route) = selections[k].best {
            let x = (Path { prefix: ps[k], path_id: 0 }, route);
            let a = choose|a: int| 0 <= a < b0.len() && #[trigger] b0[a] == x;
            assert(best[a] == x);
        } else {
            let x = Path { prefix: ps[k], path_id: 0 };
            let a = choose|a: int| 0 <= a < l0.len() && l0[a] == x;
            assert(lost[a] == x);
        }
    } else {
        if let Some(route) = selections[k].best {
            assert(best[b0.len() as int] == (Path { prefix: ps[k], path_id: 0 }, route));
        } else {
            assert(lost[l0.len() as int] == Path { prefix: ps[k], path_id: 0 });
        }
    }
}

/// Every reachable prefix has a selected route, and that one is listed.
pub proof fn best_from<P>(ps: Seq<P>, selections: Seq<Selection>, a: int) -> (k: int)
    requires
        0 <= a < best_routes(ps, selections).len(),
    ensures
        0 <= k < ps.len(),
        selections[k].best == Some(best_routes(ps, selections)[a].1),
        best_routes(ps, selections)[a].0 == (Path { prefix: ps[k], path_id: 0 }),
    decreases ps.len(),
{
    let init = ps.drop_last();
    let b0 = best_routes(init, selections);
    if a < b0.len() {
        let k = best_from(init, selections, a);
        assert(init[k] == ps[k]);
        k
    } else {
        ps.len() - 1
    }
}

/// No lost prefix has a selected route.
pub proof fn lost_from<P>(ps: Seq<P>, selections: Seq<Selection>, a: int) -> (k: int)
    requires
        0 <= a < lost_prefixes(ps, selections).len(),
    ensures
        0 <= k < ps.len(),
        selections[k].best is None,
        lost_prefixes(ps, selections)[a] == (Path { prefix: ps[k], path_id: 0 }),
    decreases ps.len(),
{
    let init = ps.drop_last();
    let l0 = lost_prefixes(init, selections);
    if a < l0.len() {
        let k = lost_from(init, selections, a);
        assert(init[k] == ps[k]);
        k
    } else {
        ps.len() - 1
    }
}

/// The prefixes for which a route is selected are those that are queued and have
/// a destination, each once.
pub proof fn candidates_are_queued<P: Ranked>(t: TableModel<P>, p: P)
    requires
        t.queued.finite(),
    ensures
        candidates(t).contains(p) <==> t.queued.contains(p) && t.prefixes.contains_key(p),
        candidates(t).no_duplicates(),
{
    let listed = in_order::<P>(t.queued);
    finite_sets_have_order::<P>(t.queued);
    assert(listed.no_duplicates()) by {
        assert forall|a: int, b: int| 0 <= a < b < listed.len() implies listed[a] != listed[b] by {
            assert(P::before(listed[a], listed[b]));
            P::irreflexive(listed[a]);
        }
    }
    assert(t.queued.contains(p) <==> listed.contains(p));
    destinations_among(t, listed, p);
}

proof fn destinations_among<P>(t: TableModel<P>, ps: Seq<P>, p: P)
    requires
        ps.no_duplicates(),
    ensures
        with_destination(t, ps).contains(p) <==> ps.contains(p) && t.prefixes.contains_key(p),
        with_destination(t, ps).no_duplicates(),
        forall|q: P| #[trigger] with_destination(t, ps).contains(q) ==> ps.contains(q),
    decreases ps.len(),
{
    if ps.len() > 0 {
        let init = ps.drop_last();
        let last = ps[ps.len() - 1];
        let rest = with_destination(t, init);
        let all = with_destination(t, ps);
        destinations_among(t, init, p);
        assert forall|q: P| #[trigger] all.contains(q) implies ps.contains(q) by {
            let k = choose|k: int| 0 <= k < all.len() && all[k] == q;
            if k < rest.len() {
                assert(rest[k] == q);
                assert(rest.contains(q));
                let n = choose|n: int| 0 <= n < init.len() && init[n] == q;
                assert(ps[n] == q);
            } else {
                assert(q == last);
            }
        }
        assert(!rest.contains(last)) by {
            if rest.contains(last) {
                assert(init.contains(last));
                let n = choose|n: int| 0 <= n < init.len() && init[n] == last;
                assert(ps[n] == last);
            }
        }
        assert(all.no_duplicates()) by {
            assert forall|a: int, b: int| 0 <= a < b < all.len() implies all[a] != all[b] by {
                assert(all[a] == rest[a]);
                if b < rest.len() {
                    assert(all[b] == rest[b]);
                } else {
                    assert(rest.contains(rest[a]));
                }
            }
        }
        if rest.contains(p) {
            let k = choose|k: int| 0 <= k < rest.len() && rest[k] == p;
            assert(all[k] == p);
        }
        if p == last && t.prefixes.contains_key(p) {
            assert(all[rest.len() as int] == p);
        }
        if ps.contains(p) && p != last {
            let n = choose|n: int| 0 <= n < ps.len() && ps[n] == p;
            assert(init[n] == p);
        }
        if all.contains(p) && !rest.contains(p) {
            let k = choose|k: int| 0 <= k < all.len() && all[k] == p;
            if k < rest.len() {
                assert(rest[k] == p);
            }
        }
    }
}

/// A table has finitely many prefixes, each with finitely many paths, and
/// finitely many of them are queued.
pub proof fn tables_are_finite<P: Ranked>(t: RoutingTable<P>)
    requires
        t.wf(),
    ensures
        finitely_many_paths(t@),
        t@.queued.finite(),
        t@.prefixes.dom().finite(),
{
    elems_count(t.queued_prefixes);
    keys_are_finite(t.prefixes);
    assert(t@.prefixes.dom() =~= t.prefixes@.dom());
    assert forall|p: P| (#[trigger] dest_at(t@, p)).adj_rib.dom().finite() by {
        if t@.prefixes.contains_key(p) {
            assert(t.prefixes@.contains_key(p));
            keys_are_finite(t.prefixes@[p].adj_rib);
        }
    }
}

proof fn keys_are_finite<K: Key, T>(m: SortedMap<K, T>)
    ensures
        m@.dom().finite(),
{
    assert forall|k: K::V| m@.dom().contains(k) <==> m.keys().to_set().contains(k) by {
        keys_are_domain(m, k);
    }
    assert(m@.dom() =~= m.keys().to_set());
    vstd::seq_lib::seq_to_set_is_finite(m.keys());
}

proof fn selection_keeps_paths<P>(t: TableModel<P>, ps: Seq<P>, selections: Seq<Selection>)
    ensures
        forall|q: Path<P>, a: IpAddr| #[trigger] adj_at(selected_table(t, ps, selections), q, a) == adj_at(t, q, a),
        forall|p: P| (#[trigger] dest_at(selected_table(t, ps, selections), p)).redistribute == dest_at(
            t,
            p,
        ).redistribute,
        forall|p: P| (#[trigger] dest_at(selected_table(t, ps, selections), p)).adj_rib == dest_at(t, p).adj_rib,
        forall|p: P| !ps.contains(p) ==> (#[trigger] dest_at(selected_table(t, ps, selections), p)).local == dest_at(
            t,
            p,
        ).local,
        ps.no_duplicates() ==> forall|k: int|
            0 <= k < ps.len() ==> dest_at(selected_table(t, ps, selections), #[trigger] ps[k]).local
                == selections[k].local,
    decreases ps.len(),
{
    if ps.len() > 0 {
        let init = ps.drop_last();
        let n = ps.len() - 1;
        let u = selected_table(t, init, selections);
        let v = selected_table(t, ps, selections);
        selection_keeps_paths(t, init, selections);
        assert forall|p: P| (#[trigger] dest_at(v, p)).adj_rib == dest_at(t, p).adj_rib by {
            assert(dest_at(u, p).adj_rib == dest_at(t, p).adj_rib);
        }
        assert forall|p: P| (#[trigger] dest_at(v, p)).redistribute == dest_at(t, p).redistribute by {
            assert(dest_at(u, p).redistribute == dest_at(t, p).redistribute);
        }
        assert forall|q: Path<P>, a: IpAddr| #[trigger] adj_at(v, q, a) == adj_at(t, q, a) by {
            assert(adj_at(u, q, a) == adj_at(t, q, a));
            assert(dest_at(v, q.prefix).adj_rib == dest_at(u, q.prefix).adj_rib);
        }
        assert forall|p: P| !ps.contains(p) implies (#[trigger] dest_at(v, p)).local == dest_at(t, p).local by {
            assert(ps[n] != p);
            if init.contains(p) {
                let k = choose|k: int| 0 <= k < init.len() && init[k] == p;
                assert(ps[k] == p);
            }
            assert(dest_at(u, p).local == dest_at(t, p).local);
        }
        if ps.no_duplicates() {
            assert(init.no_duplicates());
            assert forall|k: int| 0 <= k < ps.len() implies dest_at(v, #[trigger] ps[k]).local
                == selections[k].local by {
                if k < n {
                    assert(init[k] == ps[k]);
                    assert(ps[k] != ps[n]);
                    assert(dest_at(v, ps[k]) == dest_at(u, init[k]));
                }
            }
        }
    }
}

proof fn cleaning_keeps_paths<P>(t: TableModel<P>, ps: Set<P>, q: Path<P>, a: IpAddr)
    ensures
        adj_at(cleaned(t, ps), q, a) == adj_at(t, q, a),
        dest_at(cleaned(t, ps), q.prefix).local == dest_at(t, q.prefix).local,
        cleaned(t, ps).prefixes.contains_key(q.prefix) ==> cleaned(t, ps).prefixes[q.prefix]
            == t.prefixes[q.prefix],
        dest_at(t, q.prefix).local is Some ==> cleaned(t, ps).prefixes.contains_key(q.prefix),
{
    let p = q.prefix;
    if t.prefixes.contains_key(p) && !cleaned(t, ps).prefixes.contains_key(p) {
        assert(is_stale(t.prefixes[p]));
        if has_adj(t, q, a) {
            assert(t.prefixes[p].adj_rib.contains_key(crate::rib::peer_path(q, a)));
        }
    }
}

/// Whether a neighbor takes part in the distribution of an address family: its
/// session is up, and the family is in use.
pub open spec fn is_served(nbr: Neighbor, afi_safi: AfiSafi) -> bool {
    nbr.state == State::Established && in_use(nbr, afi_safi)
}

proof fn offers_are_apart<A: AddressFamily>(
    t: TableModel<A::Prefix>,
    d: TableModel<A::Prefix>,
    nbr: Neighbor,
    selections: Seq<Selection>,
    ids: Map<PeerPath, u32>,
)
    requires
        t.queued.finite(),
        finitely_many_paths(t),
        ids_distinct(ids),
    ensures
        all_different(offered::<A>(nbr, selection_offer(t, selections, ids))),
        forall|k: int|
            0 <= k < not_any_more::<A>(d, nbr, selection_offer(t, selections, ids)).len() ==> !has_path(
                offered::<A>(nbr, selection_offer(t, selections, ids)),
                #[trigger] not_any_more::<A>(d, nbr, selection_offer(t, selections, ids))[k],
            ),
{
    let offer = selection_offer(t, selections, ids);
    let ps = candidates(t);
    let any: A::Prefix = arbitrary();
    candidates_are_queued(t, any);
    let reach = offered::<A>(nbr, offer);
    let gone = not_any_more::<A>(d, nbr, offer);
    if nbr.sends_paths(A::afi_safi_spec()) {
        assert forall|i: int, j: int| 0 <= i < j < reach.len() implies (#[trigger] reach[i]).0 != (
        #[trigger] reach[j]).0 by {
            offered_paths_are_distinct(t, ps, ids, i, j);
        }
        assert forall|k: int| 0 <= k < gone.len() implies !has_path(reach, #[trigger] gone[k]) by {
            let paths = route_paths(table_routes(d, offer.prefixes, AdjSide::Out, Some(nbr.remote_addr)));
            assert(gone.contains(gone[k]));
            not_offered_is_apart(paths, reach, gone[k]);
        }
    } else {
        assert forall|i: int, j: int| 0 <= i < j < reach.len() implies (#[trigger] reach[i]).0 != (
        #[trigger] reach[j]).0 by {
            best_paths_have_no_id(ps, selections, i);
            assert(best_routes(ps, selections)[j].0 != best_routes(ps, selections)[i].0);
        }
        assert forall|k: int| 0 <= k < gone.len() implies !has_path(reach, #[trigger] gone[k]) by {
            let n = lost_from(ps, selections, k);
            if has_path(reach, gone[k]) {
                let a = choose|a: int| 0 <= a < reach.len() && (#[trigger] reach[a]).0 == gone[k];
                let m = best_from(ps, selections, a);
                assert(ps[n] == ps[m]);
                assert(n == m);
            }
        }
    }
}

/// What every step of the decision process leaves of a path of a neighbor that
/// takes part.
proof fn decided_path<A: AddressFamily>(
    table: RoutingTable<A::Prefix>,
    neighbors: Neighbors,
    queues: Seq<NeighborUpdateQueue<A::Prefix>>,
    selections: Seq<Selection>,
    answers: Seq<Vec<Answer>>,
    ids: PathIds,
    shared: InstanceShared,
    j: int,
    q: Path<A::Prefix>,
    i: int,
)
    requires
        neighbors_wf(neighbors),
        table.wf(),
        ids.wf(),
        queues_wf::<A>(queues, nbr_list(neighbors)),
        all_answered::<A>(answers, nbr_list(neighbors), selection_offer(table@, selections, ids@.ids)),
        A::disseminate_spec(),
        0 <= j < nbr_list(neighbors).len(),
    ensures
        ({
            let nbr = nbr_list(neighbors)[j];
            let offer = selection_offer(table@, selections, ids@.ids);
            let reach = offered::<A>(nbr, offer);
            let end = decision_effect::<A>(
                table@,
                queue_models(queues),
                nbr_list(neighbors),
                selections,
                answers,
                ids@.ids,
                shared,
            );
            let out = end.outputs[j];
            let before = adj_at(table@, q, nbr.remote_addr);
            let after = adj_at(end.table, q, nbr.remote_addr);
            &&& end.outputs.len() == nbr_list(neighbors).len()
            &&& after.in_pre == before.in_pre && after.in_post == before.in_post
            &&& !takes_part::<A>(nbr) ==> after == before && out == no_output()
            &&& takes_part::<A>(nbr) && 0 <= i < reach.len() && reach[i].0 == q && !answers[j]@[i].eligible ==> {
                &&& after.out_pre is None
                &&& after.out_post is None
                &&& before.out_post is Some ==> sends_withdrawal::<A>(out.msgs, q)
            }
            &&& takes_part::<A>(nbr) && 0 <= i < reach.len() && reach[i].0 == q && answers[j]@[i].eligible ==> {
                &&& after.out_pre == Some(reach[i].1)
                &&& A::policy_disseminate_spec() ==> after.out_post == before.out_post && out.policy == Some(
                    export_request::<A>(nbr, kept_routes(reach, answers[j]@), shared),
                )
                &&& !A::policy_disseminate_spec() ==> after.out_post == Some(reach[i].1)
            }
            &&& takes_part::<A>(nbr) && !nbr.sends_paths(A::afi_safi_spec()) && offer.lost.contains(q) ==> {
                &&& after.out_pre is None
                &&& after.out_post is None
                &&& before.out_post is Some ==> sends_withdrawal::<A>(out.msgs, q)
            }
            &&& takes_part::<A>(nbr) && nbr.sends_paths(A::afi_safi_spec()) && offer.prefixes.contains(q.prefix)
                && !has_path(offer.accepted, q) ==> {
                &&& after.out_pre is None
                &&& after.out_post is None
                &&& before.out_post is Some ==> sends_withdrawal::<A>(out.msgs, q)
            }
            &&& takes_part::<A>(nbr) && !offer.prefixes.contains(q.prefix) ==> after == before
        }),
{
    let nbrs = nbr_list(neighbors);
    let nbr = nbrs[j];
    let addr = nbr.remote_addr;
    let t = table@;
    let ps = candidates(t);
    let offer = selection_offer(t, selections, ids@.ids);
    let qs = queue_models(queues);
    let selected = TableModel { queued: Set::empty(), ..selected_table(t, ps, selections) };
    tables_are_finite(table);
    candidates_are_queued(t, q.prefix);
    selection_keeps_paths(t, ps, selections);
    assert(finitely_many_paths(selected)) by {
        assert forall|p: A::Prefix| (#[trigger] dest_at(selected, p)).adj_rib.dom().finite() by {
            assert(dest_at(selected, p) == dest_at(selected_table(t, ps, selections), p));
            assert(dest_at(t, p).adj_rib.dom().finite());
        }
    }
    assert(finite_queues(qs)) by {
        assert forall|k: int| 0 <= k < qs.len() implies (#[trigger] qs[k]).unreach.finite() by {
            assert(queues[k].wf());
            elems_count(queues[k].unreach);
        }
    }
    assert(different_addresses(nbrs)) by {
        assert forall|a: int, b: int| 0 <= a < b < nbrs.len() implies (#[trigger] nbrs[a]).remote_addr != (
        #[trigger] nbrs[b]).remote_addr by {
            entries_map_get(neighbors.entries@, a);
            entries_map_get(neighbors.entries@, b);
            assert(neighbors@.contains_key(neighbors.entries@[a].0@));
            assert(neighbors@.contains_key(neighbors.entries@[b].0@));
            assert(IpAddr::before(neighbors.entries@[a].0@, neighbors.entries@[b].0@));
        }
    }
    let n = nbrs.len() as int;
    assert(nbrs.take(n) =~= nbrs);
    distribution_step::<A>(selected, qs, nbrs, offer, answers, shared, j);
    distribution_step::<A>(selected, qs, nbrs, offer, answers, shared, n);
    share_stands::<A>(selected, qs, nbrs, offer, answers, shared, j, n, q);
    let d = distribute_all::<A>(selected, qs, nbrs.take(j), offer, answers, shared);
    let full = distribute_all::<A>(selected, qs, nbrs, offer, answers, shared);
    assert(adj_at(selected, q, addr) == adj_at(selected_table(t, ps, selections), q, addr));
    assert(adj_at(selected, q, addr) == adj_at(t, q, addr));
    cleaning_keeps_paths(full.table, t.queued, q, addr);
    assert(answers[j]@.len() == offered::<A>(nbrs[j], offer).len());
    offers_are_apart::<A>(t, d.table, nbr, selections, ids@.ids);
    let gone = not_any_more::<A>(d.table, nbr, offer);
    distributed_path::<A>(
        OutState { table: d.table, queue: qs[j] },
        nbr,
        offered::<A>(nbr, offer),
        gone,
        answers[j]@,
        shared,
        q,
        i,
    );
    if takes_part::<A>(nbr) && nbr.sends_paths(A::afi_safi_spec()) {
        let routes = table_routes(d.table, offer.prefixes, AdjSide::Out, Some(addr));
        let paths = route_paths(routes);
        not_offered_is_apart(paths, offer.accepted, q);
        let adj = adj_at(d.table, q, addr);
        if offer.prefixes.contains(q.prefix) && !has_path(offer.accepted, q) && (adj.out_pre is Some || adj.out_post
            is Some) {
            let r = PeerRoute {
                prefix: q.prefix,
                peer: PeerPath { addr, path_id: q.path_id },
                route: if adj.out_post is Some {
                    adj.out_post->0
                } else {
                    adj.out_pre->0
                },
            };
            assert(route_path(r) == q);
            listed_exactly(d.table, offer.prefixes, AdjSide::Out, Some(addr), r);
            let k = choose|k: int| 0 <= k < routes.len() && routes[k] == r;
            assert(paths[k] == q);
            assert(gone.contains(q));
        }
        if gone.contains(q) {
            let k = choose|k: int| 0 <= k < paths.len() && paths[k] == q;
            listed_prefixes(d.table, offer.prefixes, AdjSide::Out, Some(addr), k);
        }
    }
    if !offer.prefixes.contains(q.prefix) {
        if has_path(offer.accepted, q) {
            let a = choose|a: int| 0 <= a < offer.accepted.len() && (#[trigger] offer.accepted[a]).0 == q;
            accepted_prefixes(t, ps, ids@.ids, a);
        }
        if has_path(offer.best, q) {
            let a = choose|a: int| 0 <= a < offer.best.len() && (#[trigger] offer.best[a]).0 == q;
            let m = best_from(ps, selections, a);
            assert(ps.contains(ps[m]));
        }
        if offer.lost.contains(q) {
            let a = choose|a: int| 0 <= a < offer.lost.len() && offer.lost[a] == q;
            let m = lost_from(ps, selections, a);
            assert(ps.contains(ps[m]));
        }
    }
}

/// Whether the decision process can run: everything is well formed, there is an
/// outcome of best-path selection for each prefix, and an answer for each route
/// that is offered to a neighbor.
pub open spec fn is_ready<A: AddressFamily>(
    table: RoutingTable<A::Prefix>,
    neighbors: Neighbors,
    queues: Seq<NeighborUpdateQueue<A::Prefix>>,
    selections: Seq<Selection>,
    answers: Seq<Vec<Answer>>,
    ids: PathIds,
) -> bool {
    &&& neighbors_wf(neighbors)
    &&& table.wf()
    &&& ids.wf()
    &&& selections.len() == candidates(table@).len()
    &&& queues_wf::<A>(queues, nbr_list(neighbors))
    &&& all_answered::<A>(answers, nbr_list(neighbors), selection_offer(table@, selections, ids@.ids))
}

/// Whether a path is not kept as advertised to a neighbor, and a withdrawal went
/// out if it was.
pub open spec fn is_withdrawn<A: AddressFamily>(
    before: RoutingTable<A::Prefix>,
    after: RoutingTable<A::Prefix>,
    out: NbrOutput,
    addr: IpAddr,
    q: Path<A::Prefix>,
) -> bool {
    &&& routes_of(after, q.prefix, addr, q.path_id) matches Some(adj) ==> adj.out_pre is None && adj.out_post is None
    &&& routes_of(before, q.prefix, addr, q.path_id) matches Some(adj) ==> (adj.out_post is Some
        ==> sends_withdrawal::<A>(update_models(out.msgs@), q))
}

/// After the selected routes are distributed to a neighbor that takes part, each
/// path that is offered to it and may not be sent to it is not kept as advertised
/// to it, and is withdrawn if it was advertised before.
pub proof fn barred_routes_are_withdrawn<A: AddressFamily>(
    table: &mut RoutingTable<A::Prefix>,
    neighbors: &Neighbors,
    queues: &mut Vec<NeighborUpdateQueue<A::Prefix>>,
    selections: &Vec<Selection>,
    answers: &Vec<Vec<Answer>>,
    ids: &PathIds,
    shared: &InstanceShared,
    r: Vec<NbrOutput>,
    j: int,
    i: int,
)
    requires
        is_ready::<A>(*old(table), *neighbors, old(queues)@, selections@, answers@, *ids),
        call_ensures(
            decision_process::<A>,
            (table, neighbors, queues, selections, answers, ids, shared),
            r,
        ),
        A::disseminate_spec(),
        0 <= j < neighbors.entries@.len(),
        is_served(neighbors.entries@[j].1, A::afi_safi_spec()),
        0 <= i < offered::<A>(
            neighbors.entries@[j].1,
            selection_offer(old(table)@, selections@, ids@.ids),
        ).len(),
        !answers@[j]@[i].eligible,
    ensures
        is_withdrawn::<A>(
            *old(table),
            *final(table),
            r@[j],
            neighbors.entries@[j].1.remote_addr,
            offered::<A>(
                neighbors.entries@[j].1,
                selection_offer(old(table)@, selections@, ids@.ids),
            )[i].0,
        ),
{
    let nbr = neighbors.entries@[j].1;
    let offer = selection_offer(old(table)@, selections@, ids@.ids);
    let q = offered::<A>(nbr, offer)[i].0;
    assert(nbr_list(*neighbors)[j] == nbr);
    decided_path::<A>(*old(table), *neighbors, old(queues)@, selections@, answers@, *ids, *shared, j, q, i);
    raw_routes(*old(table), q, nbr.remote_addr);
    raw_routes(*final(table), q, nbr.remote_addr);
    assert(output_models(r@)[j] == r@[j]@);
}

/// Whether a request asks for the export policies of a neighbor on a route.
pub open spec fn asks_export(
    req: PolicyApplyMsg,
    nbr: Neighbor,
    afi_safi: AfiSafi,
    shared: InstanceShared,
    prefix: IpNetwork,
    path_id: u32,
    route: Route,
) -> bool {
    req matches PolicyApplyMsg::Neighbor {
        policy_type,
        nbr_addr,
        afi_safi: family,
        routes,
        path_ids,
        missing_policy,
        policies,
        match_sets,
        default_policy,
    } && {
        let cfg = if nbr.config.afi_safi@.contains_key(afi_safi) {
            nbr.config.afi_safi@[afi_safi].apply_policy
        } else {
            nbr.config.apply_policy
        };
        &&& policy_type == PolicyType::Export
        &&& nbr_addr == nbr.remote_addr
        &&& family == afi_safi
        &&& routes@.len() == path_ids@.len()
        &&& exists|k: int|
            0 <= k < routes@.len() && (#[trigger] routes@[k]).0 == prefix && path_ids@[k] == path_id
                && routes@[k].1.origin == route.origin && routes@[k].1.attrs == route.attrs
                && routes@[k].1.route_type == route.route_type && routes@[k].1.tag is None
        &&& match_sets == shared.policy_match_sets
        &&& default_policy == cfg.default_export_policy
        &&& are_named(cfg.export_policy, shared, missing_policy, policies@)
    }
}

/// A request for export policies on routes asks for each of them.
pub proof fn export_asks<A: AddressFamily>(
    req: PolicyApplyMsg,
    nbr: Neighbor,
    routes: Seq<(Path<A::Prefix>, Route)>,
    shared: InstanceShared,
    k: int,
)
    requires
        req@ == export_request::<A>(nbr, routes, shared),
        0 <= k < routes.len(),
    ensures
        asks_export(
            req,
            nbr,
            A::afi_safi_spec(),
            shared,
            A::to_ip_network_spec(routes[k].0.prefix),
            routes[k].0.path_id,
            routes[k].1,
        ),
{
    let afi_safi = A::afi_safi_spec();
    let cfg = if nbr.config.afi_safi@.contains_key(afi_safi) {
        nbr.config.afi_safi@[afi_safi].apply_policy
    } else {
        nbr.config.apply_policy
    };
    match req {
        PolicyApplyMsg::Neighbor { routes: infos, path_ids, missing_policy, policies, .. } => {
            assert(infos@ == export_routes::<A>(routes));
            assert(path_ids@ == export_ids(routes));
            assert(infos@[k].0 == A::to_ip_network_spec(routes[k].0.prefix));
            named_policies(cfg.export_policy, shared, missing_policy, policies@);
        },
        _ => {},
    }
}

/// Each path that is offered to a neighbor and may be sent to it is kept as chosen
/// for it. Where routes pass export policies, these are asked for it; otherwise it
/// is kept as advertised at once.
pub proof fn eligible_routes_are_chosen<A: AddressFamily>(
    table: &mut RoutingTable<A::Prefix>,
    neighbors: &Neighbors,
    queues: &mut Vec<NeighborUpdateQueue<A::Prefix>>,
    selections: &Vec<Selection>,
    answers: &Vec<Vec<Answer>>,
    ids: &PathIds,
    shared: &InstanceShared,
    r: Vec<NbrOutput>,
    j: int,
    i: int,
)
    requires
        is_ready::<A>(*old(table), *neighbors, old(queues)@, selections@, answers@, *ids),
        call_ensures(
            decision_process::<A>,
            (table, neighbors, queues, selections, answers, ids, shared),
            r,
        ),
        A::disseminate_spec(),
        0 <= j < neighbors.entries@.len(),
        is_served(neighbors.entries@[j].1, A::afi_safi_spec()),
        0 <= i < offered::<A>(
            neighbors.entries@[j].1,
            selection_offer(old(table)@, selections@, ids@.ids),
        ).len(),
        answers@[j]@[i].eligible,
    ensures
        ({
            let nbr = neighbors.entries@[j].1;
            let (q, route) = offered::<A>(nbr, selection_offer(old(table)@, selections@, ids@.ids))[i];
            let before = routes_of(*old(table), q.prefix, nbr.remote_addr, q.path_id);
            let after = routes_of(*final(table), q.prefix, nbr.remote_addr, q.path_id);
            &&& after is Some && after->0.out_pre == Some(route)
            &&& A::policy_disseminate_spec() ==> (r@[j].policy matches Some(req) && asks_export(
                req,
                nbr,
                A::afi_safi_spec(),
                *shared,
                A::to_ip_network_spec(q.prefix),
                q.path_id,
                route,
            ))
            &&& A::policy_disseminate_spec() && before is Some ==> after->0.out_post == before->0.out_post
            &&& A::policy_disseminate_spec() && before is None ==> after->0.out_post is None
            &&& !A::policy_disseminate_spec() ==> after->0.out_post == Some(route)
        }),
{
    let nbr = neighbors.entries@[j].1;
    let offer = selection_offer(old(table)@, selections@, ids@.ids);
    let reach = offered::<A>(nbr, offer);
    let q = reach[i].0;
    assert(nbr_list(*neighbors)[j] == nbr);
    decided_path::<A>(*old(table), *neighbors, old(queues)@, selections@, answers@, *ids, *shared, j, q, i);
    raw_routes(*old(table), q, nbr.remote_addr);
    raw_routes(*final(table), q, nbr.remote_addr);
    assert(output_models(r@)[j] == r@[j]@);
    if A::policy_disseminate_spec() {
        tables_are_finite(*old(table));
        offers_are_apart::<A>(old(table)@, old(table)@, nbr, selections@, ids@.ids);
        kept_shape(reach, answers@[j]@, i);
        let kept = kept_routes(reach, answers@[j]@);
        let k = choose|k: int|
            0 <= k < kept.len() && #[trigger] kept[k] == reach[i] && kept_attrs(reach, answers@[j]@)[k]
                == answers@[j]@[i].attrs;
        if let Some(req) = r@[j].policy {
            export_asks::<A>(req, nbr, kept, *shared, k);
        }
    }
}

/// A prefix that has lost its route is withdrawn from the neighbors to which it
/// was advertised: from those that are sent one route with no identifier, and
/// from those that are sent all paths each path that is not accepted any more.
pub proof fn lost_routes_are_withdrawn<A: AddressFamily>(
    table: &mut RoutingTable<A::Prefix>,
    neighbors: &Neighbors,
    queues: &mut Vec<NeighborUpdateQueue<A::Prefix>>,
    selections: &Vec<Selection>,
    answers: &Vec<Vec<Answer>>,
    ids: &PathIds,
    shared: &InstanceShared,
    r: Vec<NbrOutput>,
    j: int,
    k: int,
    path_id: u32,
)
    requires
        is_ready::<A>(*old(table), *neighbors, old(queues)@, selections@, answers@, *ids),
        call_ensures(
            decision_process::<A>,
            (table, neighbors, queues, selections, answers, ids, shared),
            r,
        ),
        A::disseminate_spec(),
        0 <= j < neighbors.entries@.len(),
        is_served(neighbors.entries@[j].1, A::afi_safi_spec()),
        0 <= k < candidates(old(table)@).len(),
    ensures
        ({
            let nbr = neighbors.entries@[j].1;
            let p = candidates(old(table)@)[k];
            &&& !nbr.add_path_tx@.contains(A::afi_safi_spec()) && selections@[k].best is None ==> is_withdrawn::<A>(
                *old(table),
                *final(table),
                r@[j],
                nbr.remote_addr,
                Path { prefix: p, path_id: 0 },
            )
            &&& nbr.add_path_tx@.contains(A::afi_safi_spec()) && !has_path(
                accepted_paths(old(table)@, candidates(old(table)@), ids@.ids),
                Path { prefix: p, path_id },
            ) ==> is_withdrawn::<A>(
                *old(table),
                *final(table),
                r@[j],
                nbr.remote_addr,
                Path { prefix: p, path_id },
            )
        }),
{
    let nbr = neighbors.entries@[j].1;
    let ps = candidates(old(table)@);
    let q = Path { prefix: ps[k], path_id: 0 };
    let q2 = Path { prefix: ps[k], path_id };
    assert(ps.contains(ps[k]));
    assert(nbr_list(*neighbors)[j] == nbr);
    selection_of(ps, selections@, k);
    decided_path::<A>(*old(table), *neighbors, old(queues)@, selections@, answers@, *ids, *shared, j, q, -1);
    decided_path::<A>(*old(table), *neighbors, old(queues)@, selections@, answers@, *ids, *shared, j, q2, -1);
    raw_routes(*old(table), q, nbr.remote_addr);
    raw_routes(*final(table), q, nbr.remote_addr);
    raw_routes(*old(table), q2, nbr.remote_addr);
    raw_routes(*final(table), q2, nbr.remote_addr);
    assert(output_models(r@)[j] == r@[j]@);
}

/// The decision process leaves alone what neighbors sent, everything of prefixes
/// that were not queued, and all that is advertised to neighbors that do not take
/// part; these are told nothing.
pub proof fn decisions_touch_nothing_else<A: AddressFamily>(
    table: &mut RoutingTable<A::Prefix>,
    neighbors: &Neighbors,
    queues: &mut Vec<NeighborUpdateQueue<A::Prefix>>,
    selections: &Vec<Selection>,
    answers: &Vec<Vec<Answer>>,
    ids: &PathIds,
    shared: &InstanceShared,
    r: Vec<NbrOutput>,
    j: int,
    q: Path<A::Prefix>,
)
    requires
        is_ready::<A>(*old(table), *neighbors, old(queues)@, selections@, answers@, *ids),
        call_ensures(
            decision_process::<A>,
            (table, neighbors, queues, selections, answers, ids, shared),
            r,
        ),
        A::disseminate_spec(),
        0 <= j < neighbors.entries@.len(),
    ensures
        r@.len() == neighbors.entries@.len(),
        ({
            let nbr = neighbors.entries@[j].1;
            let before = adj_at(old(table)@, q, nbr.remote_addr);
            let after = adj_at(final(table)@, q, nbr.remote_addr);
            &&& after.in_pre == before.in_pre
            &&& after.in_post == before.in_post
            &&& !is_served(nbr, A::afi_safi_spec()) ==> after == before && r@[j].msgs@.len() == 0 && r@[j].policy
                is None
            &&& !old(table)@.queued.contains(q.prefix) ==> after == before
        }),
{
    let nbr = neighbors.entries@[j].1;
    assert(nbr_list(*neighbors)[j] == nbr);
    tables_are_finite(*old(table));
    candidates_are_queued(old(table)@, q.prefix);
    decided_path::<A>(*old(table), *neighbors, old(queues)@, selections@, answers@, *ids, *shared, j, q, -1);
    assert(output_models(r@)[j] == r@[j]@);
    assert(update_models(r@[j].msgs@).len() == r@[j].msgs@.len());
}

/// The selected route of each queued prefix goes into the Loc-RIB, what was
/// selected for others stays, and nothing is queued any more.
pub proof fn selections_go_into_the_loc_rib<A: AddressFamily>(
    table: &mut RoutingTable<A::Prefix>,
    neighbors: &Neighbors,
    queues: &mut Vec<NeighborUpdateQueue<A::Prefix>>,
    selections: &Vec<Selection>,
    answers: &Vec<Vec<Answer>>,
    ids: &PathIds,
    shared: &InstanceShared,
    r: Vec<NbrOutput>,
    k: int,
    p: A::Prefix,
)
    requires
        is_ready::<A>(*old(table), *neighbors, old(queues)@, selections@, answers@, *ids),
        call_ensures(
            decision_process::<A>,
            (table, neighbors, queues, selections, answers, ids, shared),
            r,
        ),
    ensures
        final(table)@.queued == Set::<A::Prefix>::empty(),
        final(table).nht == old(table).nht,
        0 <= k < candidates(old(table)@).len() ==> dest_at(final(table)@, candidates(old(table)@)[k]).local
            == selections@[k].local,
        !old(table)@.queued.contains(p) ==> dest_at(final(table)@, p).local == dest_at(old(table)@, p).local
            && dest_at(final(table)@, p).redistribute == dest_at(old(table)@, p).redistribute,
        final(table)@.prefixes.contains_key(p) ==> final(table)@.prefixes[p].redistribute == dest_at(
            old(table)@,
            p,
        ).redistribute,
{
    let t = old(table)@;
    let ps = candidates(t);
    let nbrs = nbr_list(*neighbors);
    let offer = selection_offer(t, selections@, ids@.ids);
    let qs = queue_models(old(queues)@);
    let selected = TableModel { queued: Set::empty(), ..selected_table(t, ps, selections@) };
    tables_are_finite(*old(table));
    candidates_are_queued(t, p);
    selection_keeps_paths(t, ps, selections@);
    assert(finitely_many_paths(selected)) by {
        assert forall|x: A::Prefix| (#[trigger] dest_at(selected, x)).adj_rib.dom().finite() by {
            assert(dest_at(selected, x) == dest_at(selected_table(t, ps, selections@), x));
            assert(dest_at(t, x).adj_rib.dom().finite());
        }
    }
    assert(finite_queues(qs)) by {
        assert forall|n: int| 0 <= n < qs.len() implies (#[trigger] qs[n]).unreach.finite() by {
            assert(old(queues)@[n].wf());
            elems_count(old(queues)@[n].unreach);
        }
    }
    assert(different_addresses(nbrs)) by {
        assert forall|a: int, b: int| 0 <= a < b < nbrs.len() implies (#[trigger] nbrs[a]).remote_addr != (
        #[trigger] nbrs[b]).remote_addr by {
            entries_map_get(neighbors.entries@, a);
            entries_map_get(neighbors.entries@, b);
            assert(neighbors@.contains_key(neighbors.entries@[a].0@));
            assert(neighbors@.contains_key(neighbors.entries@[b].0@));
            assert(IpAddr::before(neighbors.entries@[a].0@, neighbors.entries@[b].0@));
        }
    }
    let n = nbrs.len() as int;
    assert(nbrs.take(n) =~= nbrs);
    distribution_step::<A>(selected, qs, nbrs, offer, answers@, *shared, n);
    crate::adj_laws::decision_settles_the_queue::<A>(t, qs, nbrs, selections@, answers@, ids@.ids, *shared);
    let full = if A::disseminate_spec() {
        distribute_all::<A>(selected, qs, nbrs, offer, answers@, *shared).table
    } else {
        selected
    };
    assert(final(table)@ == cleaned(full, t.queued));
    let any: IpAddr = arbitrary();
    assert forall|x: A::Prefix| (#[trigger] dest_at(full, x)).local == dest_at(
        selected_table(t, ps, selections@),
        x,
    ).local && dest_at(full, x).redistribute == dest_at(t, x).redistribute by {
        assert(dest_at(selected, x) == dest_at(selected_table(t, ps, selections@), x));
        assert(dest_at(selected_table(t, ps, selections@), x).redistribute == dest_at(t, x).redistribute);
    }
    if 0 <= k < ps.len() {
        cleaning_keeps_paths(full, t.queued, Path { prefix: ps[k], path_id: 0 }, any);
        assert(dest_at(selected_table(t, ps, selections@), ps[k]).local == selections@[k].local);
    }
    cleaning_keeps_paths(full, t.queued, Path { prefix: p, path_id: 0 }, any);
    if !t.queued.contains(p) {
        assert(!ps.contains(p));
        assert(dest_at(cleaned(full, t.queued), p) == dest_at(full, p));
    }
}

/// The decision process starts with the default route brought up to date, goes
/// over the queued prefixes, and every accepted path to them has an identifier of
/// its own, which it keeps, unless all identifiers are given.
pub proof fn decisions_start_with_identifiers<A: AddressFamily>(
    table: &mut RoutingTable<A::Prefix>,
    neighbors: &Neighbors,
    ids: &mut PathIds,
    r: Vec<A::Prefix>,
    p: A::Prefix,
    route: PeerRoute<A::Prefix>,
)
    requires
        old(ids).wf(),
        final(table).wf(),
        call_ensures(decision_start::<A>, (table, neighbors, ids), r),
    ensures
        r@.contains(p) <==> final(table)@.queued.contains(p) && final(table)@.prefixes.contains_key(p),
        r@.no_duplicates(),
        ids_distinct(final(ids)@.ids),
        forall|k: PeerPath| #[trigger]
            old(ids)@.ids.contains_key(k) ==> final(ids)@.ids.contains_key(k) && final(ids)@.ids[k] == old(ids)@.ids[k],
        r@.contains(route.prefix) && adj_at(final(table)@, route_path(route), route.peer.addr).in_post == Some(
            route.route,
        ) && final(ids)@.last < u32::MAX ==> final(ids)@.ids.contains_key(route.peer),
{
    let t = final(table)@;
    tables_are_finite(*final(table));
    candidates_are_queued(t, p);
    let routes = table_routes(t, candidates(t), AdjSide::InPost, None);
    every_path_gets_an_id(old(ids)@, routes);
    listed_exactly(t, candidates(t), AdjSide::InPost, None, route);
    if routes.contains(route) {
        let i = choose|i: int| 0 <= i < routes.len() && routes[i] == route;
        assert(routes[i].peer == route.peer);
    }
}

/// Whether any route is exchanged with a neighbor on a path.
pub open spec fn holds_any(adj: AdjRib) -> bool {
    adj.in_pre is Some || adj.in_post is Some || adj.out_pre is Some || adj.out_post is Some
}

/// A queued prefix that is still there after the decision process has something
/// kept for it.
pub proof fn empty_prefixes_are_dropped<A: AddressFamily>(
    table: &mut RoutingTable<A::Prefix>,
    neighbors: &Neighbors,
    queues: &mut Vec<NeighborUpdateQueue<A::Prefix>>,
    selections: &Vec<Selection>,
    answers: &Vec<Vec<Answer>>,
    ids: &PathIds,
    shared: &InstanceShared,
    r: Vec<NbrOutput>,
    p: A::Prefix,
)
    requires
        call_ensures(
            decision_process::<A>,
            (table, neighbors, queues, selections, answers, ids, shared),
            r,
        ),
        old(table)@.queued.contains(p),
        final(table)@.prefixes.contains_key(p),
    ensures
        ({
            let dest = final(table)@.prefixes[p];
            dest.local is Some || exists|k: PeerPath| #[trigger] dest.adj_rib.contains_key(k) && holds_any(
                dest.adj_rib[k],
            )
        }),
{
    crate::adj_laws::decision_settles_the_queue::<A>(
        old(table)@,
        queue_models(old(queues)@),
        nbr_list(*neighbors),
        selections@,
        answers@,
        ids@.ids,
        *shared,
    );
    let dest = final(table)@.prefixes[p];
    assert(!is_stale(dest));
    if dest.local is None {
        let k = choose|k: PeerPath| #[trigger] dest.adj_rib.contains_key(k) && !dest.adj_rib[k].is_empty_spec();
        assert(dest.adj_rib.contains_key(k) && holds_any(dest.adj_rib[k]));
    }
}

}
