//! Address families: their tables and queues, next hops and UPDATE messages.
use crate::attribute::attrs_length;
use crate::attribute::capped_is;
use crate::attribute::Attrs;
use crate::attribute::BaseAttrs;
use crate::attribute::ATTR_MIN_LEN_EXT;
use crate::attribute::LENGTH_CAP;
use crate::bgp::rt_of;
use crate::bgp::AfiSafi;
use crate::bgp::ExtComm;
use crate::bgp::RouteDistinguisher;
use crate::bgp::RouteTarget;
use crate::ibus_tx::installs_route;
use crate::ibus_tx::route_install;
use crate::ibus_tx::route_uninstall;
use crate::ibus_tx::IbusRequest;
use crate::ip::IpAddr;
use crate::ip::IpNetwork;
use crate::ip::Ipv4Addr;
use crate::ip::Ipv4Network;
use crate::ip::Ipv6Addr;
use crate::ip::Ipv6Network;
use crate::message::empty_update;
use crate::message::paired;
use crate::message::paired_order;
use crate::message::update_models;
use crate::message::Afi;
use crate::message::LabeledVpnIpv4Nlri;
use crate::message::LabeledVpnIpv6Nlri;
use crate::message::MpReachModel;
use crate::message::MpReachNlri;
use crate::message::MpUnreachModel;
use crate::message::MpUnreachNlri;
use crate::message::ReachNlri;
use crate::message::Safi;
use crate::message::UnreachNlri;
use crate::message::UpdateModel;
use crate::message::UpdateMsg;
use crate::message::MAX_LEN;
use crate::message::MP_REACH_MIN_LEN;
use crate::message::MP_UNREACH_MIN_LEN;
use crate::message::NEXTHOP_ATTR_LEN;
use crate::message::UPDATE_MIN_LEN;
use crate::neighbor::Neighbor;
use crate::neighbor::NeighborUpdateQueue;
use crate::neighbor::NeighborUpdateQueues;
use crate::neighbor::PeerType;
use crate::neighbor::QueueModel;
use crate::neighbor::ReachEntry;
use crate::neighbor::TcpConnInfo;
use crate::ord::elems_in_order;
use crate::ord::entries_map_get;
use crate::ord::in_order;
use crate::ord::Ranked;
use crate::ord::SortedMap;
use crate::ord::SortedSet;
use crate::path::ids_of;
use crate::path::path_ids;
use crate::path::path_prefixes;
use crate::path::prefixes_of;
use crate::path::Path;
use crate::protocol::Label;
use crate::protocol::Protocol;
use crate::rib::LocalRoute;
use crate::rib::RoutingTable;
use crate::rib::RoutingTables;
use crate::shared::InstanceShared;
use crate::shared::VpnImport;
use crate::southbound::RouteKeyMsg;
use itertools::Itertools;
use vstd::prelude::*;

verus! {

pub struct Ipv4Unicast;

pub struct Ipv6Unicast;

pub struct Vpnv4Unicast;

pub struct Vpnv6Unicast;

/// An IPv4 prefix within a VPN.
#[derive(Clone, Copy, Debug, PartialEq, Eq, Structural)]
pub struct Vpnv4Prefix {
    pub rd: RouteDistinguisher,
    pub prefix: Ipv4Network,
}

/// An IPv6 prefix within a VPN.
#[derive(Clone, Copy, Debug, PartialEq, Eq, Structural)]
pub struct Vpnv6Prefix {
    pub rd: RouteDistinguisher,
    pub prefix: Ipv6Network,
}

impl View for Vpnv4Prefix {
    type V = Vpnv4Prefix;

    open spec fn view(&self) -> Vpnv4Prefix {
        *self
    }
}

impl Ranked for Vpnv4Prefix {
    open spec fn rank(self) -> int {
        paired(self.rd.rank(), 0x100_0000_0000, self.prefix.rank())
    }

    proof fn rank_identifies(a: Self, b: Self) {
        paired_order(a.rd.rank(), a.prefix.rank(), b.rd.rank(), b.prefix.rank(), 0x100_0000_0000);
        RouteDistinguisher::rank_identifies(a.rd, b.rd);
        Ipv4Network::rank_identifies(a.prefix, b.prefix);
    }

    proof fn view_is_value(self) {
    }

    fn ranks_below(&self, other: &Self) -> (r: bool) {
        proof {
            paired_order(self.rd.rank(), self.prefix.rank(), other.rd.rank(), other.prefix.rank(), 0x100_0000_0000);
        }
        if self.rd.ranks_below(&other.rd) {
            return true;
        }
        if other.rd.ranks_below(&self.rd) {
            return false;
        }
        self.prefix.ranks_below(&other.prefix)
    }
}

/// A number above that of any IPv6 prefix.
pub open spec fn ipv6_prefix_span() -> int {
    0x100_0000_0000int * 0x1_0000_0000_0000_0000_0000_0000int
}

impl View for Vpnv6Prefix {
    type V = Vpnv6Prefix;

    open spec fn view(&self) -> Vpnv6Prefix {
        *self
    }
}

impl Ranked for Vpnv6Prefix {
    open spec fn rank(self) -> int {
        paired(self.rd.rank(), ipv6_prefix_span(), self.prefix.rank())
    }

    proof fn rank_identifies(a: Self, b: Self) {
        paired_order(a.rd.rank(), a.prefix.rank(), b.rd.rank(), b.prefix.rank(), ipv6_prefix_span());
        RouteDistinguisher::rank_identifies(a.rd, b.rd);
        Ipv6Network::rank_identifies(a.prefix, b.prefix);
    }

    proof fn view_is_value(self) {
    }

    fn ranks_below(&self, other: &Self) -> (r: bool) {
        proof {
            paired_order(self.rd.rank(), self.prefix.rank(), other.rd.rank(), other.prefix.rank(), ipv6_prefix_span());
        }
        if self.rd.ranks_below(&other.rd) {
            return true;
        }
        if other.rd.ranks_below(&self.rd) {
            return false;
        }
        self.prefix.ranks_below(&other.prefix)
    }
}

/// A sequence cut into pieces of `n` items; the last piece may be shorter.
pub open spec fn chunked<T>(s: Seq<T>, n: nat) -> Seq<Seq<T>>
    decreases s.len(),
{
    if s.len() == 0 || n == 0 {
        Seq::empty()
    } else if s.len() <= n {
        seq![s]
    } else {
        seq![s.take(n as int)] + chunked(s.skip(n as int), n)
    }
}

/// `itertools::Itertools::chunks`: the items in pieces of `size`, in order,
/// where only the last piece may be shorter.
#[verifier::external_body]
fn chunks<T>(items: Vec<T>, size: usize) -> (r: Vec<Vec<T>>)
    requires
        size > 0,
    ensures
        Seq::new(r@.len(), |i: int| r@[i]@) == chunked(items@, size as nat),
{
    let pieces = items.into_iter().chunks(size);
    pieces.into_iter().map(|piece| piece.collect()).collect()
}

/// What tells the address families apart.
pub trait AddressFamily: Sized {
    /// The key of the routing table.
    type Prefix: Ranked;

    spec fn afi_spec() -> Afi;

    spec fn safi_spec() -> Safi;

    spec fn afi_safi_spec() -> AfiSafi;

    /// Whether selected routes are installed in the global routing table.
    spec fn install_loc_rib_spec() -> bool;

    /// Whether selected routes are advertised to neighbors.
    spec fn disseminate_spec() -> bool;

    /// Whether routes pass export policies before they are advertised.
    spec fn policy_disseminate_spec() -> bool;

    /// The prefix of this family that an IP prefix stands for.
    spec fn from_ip_network_spec(prefix: IpNetwork) -> Option<Self::Prefix>;

    /// The IP prefix of a prefix of this family.
    spec fn to_ip_network_spec(prefix: Self::Prefix) -> IpNetwork;

    /// The next hop of received attributes.
    spec fn rx_nexthop(attrs: BaseAttrs) -> IpAddr;

    /// The attributes with the next hops that are sent to a neighbor.
    spec fn tx_attrs(nbr: Neighbor, local: bool, attrs: BaseAttrs) -> BaseAttrs;

    spec fn table_spec(tables: RoutingTables) -> RoutingTable<Self::Prefix>;

    spec fn with_table(tables: RoutingTables, table: RoutingTable<Self::Prefix>) -> RoutingTables;

    spec fn update_queue_spec(queues: NeighborUpdateQueues) -> NeighborUpdateQueue<Self::Prefix>;

    spec fn with_update_queue(
        queues: NeighborUpdateQueues,
        queue: NeighborUpdateQueue<Self::Prefix>,
    ) -> NeighborUpdateQueues;

    /// Whether building messages uses up the queued labels.
    spec fn labeled() -> bool;

    /// Whether attributes have a next hop that can be sent.
    spec fn sendable(attrs: Attrs) -> bool;

    /// How much of a message is set aside besides the other attributes: for
    /// headers, and for the next hops of the unicast families.
    spec fn reach_overhead(attrs: Attrs) -> nat;

    /// How much of a message headers take when prefixes are withdrawn.
    spec fn unreach_overhead() -> nat;

    /// The longest form of a prefix.
    spec fn prefix_size() -> nat;

    /// The message that advertises prefixes.
    spec fn reach_update(
        chunk: Seq<Path<Self::Prefix>>,
        labels: Map<Path<Self::Prefix>, Label>,
        attrs: Attrs,
    ) -> UpdateModel;

    /// The message that withdraws prefixes.
    spec fn unreach_update(chunk: Seq<Path<Self::Prefix>>, labels: Map<Path<Self::Prefix>, Label>) -> UpdateModel;

    fn afi() -> (r: Afi)
        ensures
            r == Self::afi_spec(),
    ;

    fn safi() -> (r: Safi)
        ensures
            r == Self::safi_spec(),
    ;

    fn afi_safi() -> (r: AfiSafi)
        ensures
            r == Self::afi_safi_spec(),
    ;

    fn install_loc_rib() -> (r: bool)
        ensures
            r == Self::install_loc_rib_spec(),
    ;

    fn disseminate() -> (r: bool)
        ensures
            r == Self::disseminate_spec(),
    ;

    fn policy_disseminate() -> (r: bool)
        ensures
            r == Self::policy_disseminate_spec(),
    ;

    /// The routing table of this family.
    fn table(tables: &mut RoutingTables) -> (r: &mut RoutingTable<Self::Prefix>)
        ensures
            *r == Self::table_spec(*old(tables)),
            *final(tables) == Self::with_table(*old(tables), *final(r)),
    ;

    /// The transmit queue of this family.
    fn update_queue(queues: &mut NeighborUpdateQueues) -> (r: &mut NeighborUpdateQueue<Self::Prefix>)
        ensures
            *r == Self::update_queue_spec(*old(queues)),
            *final(queues) == Self::with_update_queue(*old(queues), *final(r)),
    ;

    /// The next hop of received attributes.
    fn nexthop_rx_extract(attrs: &BaseAttrs) -> (r: IpAddr)
        requires
            attrs.nexthop is Some,
        ensures
            r == Self::rx_nexthop(*attrs),
    ;

    /// Sets the next hops that are sent to a neighbor.
    fn nexthop_tx_change(nbr: &Neighbor, local: bool, attrs: &mut BaseAttrs)
        requires
            nbr.conn_info is Some,
        ensures
            *final(attrs) == Self::tx_attrs(*nbr, local, *old(attrs)),
    ;

    fn prefix_from_ip_network(prefix: IpNetwork) -> (r: Option<Self::Prefix>)
        ensures
            r == Self::from_ip_network_spec(prefix),
    ;

    fn prefix_to_ip_network(prefix: Self::Prefix) -> (r: IpNetwork)
        ensures
            r == Self::to_ip_network_spec(prefix),
    ;

    /// Whether attributes can be sent with at least one prefix.
    fn can_send(attrs: &Attrs, add_path: bool) -> (r: bool)
        requires
            attrs.wf(),
        ensures
            r == (Self::sendable(*attrs) && UPDATE_MIN_LEN + attrs_length(attrs@) + Self::reach_overhead(*attrs)
                + path_size(Self::prefix_size(), add_path) <= MAX_LEN),
    ;

    /// How many prefixes fit into a message with attributes.
    fn reach_room(attrs: &Attrs, add_path: bool) -> (r: usize)
        requires
            attrs.wf(),
            Self::sendable(*attrs),
            UPDATE_MIN_LEN + attrs_length(attrs@) + Self::reach_overhead(*attrs) + path_size(
                Self::prefix_size(),
                add_path,
            ) <= MAX_LEN,
        ensures
            r == room(
                attrs_length(attrs@) + Self::reach_overhead(*attrs),
                path_size(Self::prefix_size(), add_path),
            ),
            r > 0,
    ;

    /// How many withdrawn prefixes fit into a message.
    fn unreach_room(add_path: bool) -> (r: usize)
        ensures
            r == room(Self::unreach_overhead(), path_size(Self::prefix_size(), add_path)),
            r > 0,
    ;

    fn reach_msg(
        chunk: Vec<Path<Self::Prefix>>,
        labels: &SortedMap<Path<Self::Prefix>, Label>,
        attrs: &Attrs,
    ) -> (r: UpdateMsg)
        requires
            labels.wf(),
            Self::sendable(*attrs),
        ensures
            r@ == Self::reach_update(chunk@, labels@, *attrs),
    ;

    fn unreach_msg(chunk: Vec<Path<Self::Prefix>>, labels: &SortedMap<Path<Self::Prefix>, Label>) -> (r: UpdateMsg)
        requires
            labels.wf(),
        ensures
            r@ == Self::unreach_update(chunk@, labels@),
    ;

    fn uses_labels() -> (r: bool)
        ensures
            r == Self::labeled(),
    ;

    /// There is room for a withdrawn prefix in every message.
    proof fn withdrawals_have_room(add_path: bool)
        ensures
            room(Self::unreach_overhead(), path_size(Self::prefix_size(), add_path)) > 0,
            Self::prefix_size() > 0,
    ;
}

/// The longest form of a prefix, with a path identifier where these are sent.
pub open spec fn path_size(size: nat, add_path: bool) -> nat {
    if add_path {
        size + 4
    } else {
        size
    }
}

/// How many prefixes of a size fit into a message besides some overhead.
pub open spec fn room(overhead: nat, size: nat) -> nat {
    ((MAX_LEN - UPDATE_MIN_LEN - overhead) / size as int) as nat
}

proof fn some_room(overhead: nat, size: nat)
    requires
        size > 0,
        UPDATE_MIN_LEN + overhead + size <= MAX_LEN,
    ensures
        room(overhead, size) > 0,
{
    let left = MAX_LEN - UPDATE_MIN_LEN - overhead;
    assert(left / size as int >= 1) by (nonlinear_arith)
        requires
            left >= size,
            size > 0,
    ;
}

/// Whether attributes can be sent with at least one prefix.
pub open spec fn attrs_fit<A: AddressFamily>(attrs: Attrs, add_path: bool) -> bool {
    A::sendable(attrs) && UPDATE_MIN_LEN + attrs_length(attrs@) + A::reach_overhead(attrs) + path_size(
        A::prefix_size(),
        add_path,
    ) <= MAX_LEN
}

/// Whether every queued set of attributes can be sent with at least one
/// prefix.
pub open spec fn queue_fits<A: AddressFamily>(queue: QueueModel<A::Prefix>) -> bool {
    forall|i: int| 0 <= i < queue.reach.len() ==> attrs_fit::<A>((#[trigger] queue.reach[i]).0, queue.add_path)
}

/// The messages that advertise paths with one set of attributes.
pub open spec fn entry_updates<A: AddressFamily>(
    attrs: Attrs,
    prefixes: Set<Path<A::Prefix>>,
    labels: Map<Path<A::Prefix>, Label>,
    add_path: bool,
) -> Seq<UpdateModel> {
    let pieces = chunked(
        in_order::<Path<A::Prefix>>(prefixes),
        room(attrs_length(attrs@) + A::reach_overhead(attrs), path_size(A::prefix_size(), add_path)),
    );
    Seq::new(pieces.len(), |i: int| A::reach_update(pieces[i], labels, attrs))
}

/// The messages that advertise the paths of several entries.
pub open spec fn reach_updates<A: AddressFamily>(
    reach: Seq<(Attrs, Set<Path<A::Prefix>>)>,
    labels: Map<Path<A::Prefix>, Label>,
    add_path: bool,
) -> Seq<UpdateModel>
    decreases reach.len(),
{
    if reach.len() == 0 {
        Seq::empty()
    } else {
        reach_updates::<A>(reach.drop_last(), labels, add_path) + entry_updates::<A>(
            reach.last().0,
            reach.last().1,
            labels,
            add_path,
        )
    }
}

/// The messages that withdraw paths.
pub open spec fn unreach_updates<A: AddressFamily>(
    prefixes: Set<Path<A::Prefix>>,
    labels: Map<Path<A::Prefix>, Label>,
    add_path: bool,
) -> Seq<UpdateModel> {
    let pieces = chunked(
        in_order::<Path<A::Prefix>>(prefixes),
        room(A::unreach_overhead(), path_size(A::prefix_size(), add_path)),
    );
    Seq::new(pieces.len(), |i: int| A::unreach_update(pieces[i], labels))
}

/// The messages for what is queued: advertisements first, then withdrawals.
pub open spec fn queue_updates<A: AddressFamily>(queue: QueueModel<A::Prefix>) -> Seq<UpdateModel> {
    reach_updates::<A>(queue.reach, queue.labels, queue.add_path) + unreach_updates::<A>(
        queue.unreach,
        queue.labels,
        queue.add_path,
    )
}

/// What is left in the queue: labels that this family does not use.
pub open spec fn drained<A: AddressFamily>(queue: QueueModel<A::Prefix>) -> QueueModel<A::Prefix> {
    QueueModel {
        reach: Seq::empty(),
        unreach: Set::empty(),
        labels: if A::labeled() {
            Map::empty()
        } else {
            queue.labels
        },
        add_path: queue.add_path,
    }
}

/// The elements of a set as a vector.
fn to_vec<P: Ranked>(set: &SortedSet<P>) -> (r: Vec<P>)
    ensures
        r@ == set.elems(),
{
    let mut r: Vec<P> = Vec::new();
    let mut i: usize = 0;
    while i < set.len()
        invariant
            i <= set.elems().len(),
            r@ == set.elems().take(i as int),
        decreases set.elems().len() - i,
    {
        let p = *set.nth(i);
        proof {
            p.view_is_value();
        }
        r.push(p);
        assert(set.elems().take(i + 1) =~= set.elems().take(i as int).push(set.elems()[i as int]));
        i += 1;
    }
    assert(set.elems().take(i as int) =~= set.elems());
    r
}

fn copy_prefixes<P: Ranked>(v: &Vec<P>) -> (r: Vec<P>)
    ensures
        r@ == v@,
{
    let mut r: Vec<P> = Vec::new();
    let mut i: usize = 0;
    while i < v.len()
        invariant
            i <= v@.len(),
            r@ == v@.take(i as int),
        decreases v@.len() - i,
    {
        r.push(v[i]);
        assert(v@.take(i + 1) =~= v@.take(i as int).push(v@[i as int]));
        i += 1;
    }
    assert(v@.take(i as int) =~= v@);
    r
}

proof fn update_models_push(msgs: Seq<UpdateMsg>, msg: UpdateMsg)
    ensures
        update_models(msgs.push(msg)) == update_models(msgs).push(msg@),
{
    assert(update_models(msgs.push(msg)) =~= update_models(msgs).push(msg@));
}

fn push_entry_updates<A: AddressFamily>(
    msgs: &mut Vec<UpdateMsg>,
    entry: &ReachEntry<A::Prefix>,
    labels: &SortedMap<Path<A::Prefix>, Label>,
    add_path: bool,
)
    requires
        entry.attrs.wf(),
        labels.wf(),
        entry.prefixes.wf(),
        attrs_fit::<A>(entry.attrs, add_path),
    ensures
        update_models(final(msgs)@) == update_models(old(msgs)@) + entry_updates::<A>(
            entry.attrs,
            entry.prefixes@,
            labels@,
            add_path,
        ),
{
    let max: usize = A::reach_room(&entry.attrs, add_path);
    let pieces = chunks(to_vec(&entry.prefixes), max);
    proof {
        elems_in_order(entry.prefixes);
    }
    let ghost spec_pieces = chunked(entry.prefixes.elems(), max as nat);
    let ghost all = entry_updates::<A>(entry.attrs, entry.prefixes@, labels@, add_path);
    let ghost before = update_models(msgs@);
    let mut i: usize = 0;
    assert(before + all.take(0) =~= before);
    while i < pieces.len()
        invariant
            labels.wf(),
            A::sendable(entry.attrs),
            Seq::new(pieces@.len(), |i: int| pieces@[i]@) == spec_pieces,
            all.len() == spec_pieces.len(),
            forall|j: int|
                0 <= j < all.len() ==> #[trigger] all[j] == A::reach_update(spec_pieces[j], labels@, entry.attrs),
            i <= pieces@.len(),
            update_models(msgs@) == before + all.take(i as int),
        decreases pieces@.len() - i,
    {
        assert(spec_pieces[i as int] == pieces@[i as int]@);
        let msg = A::reach_msg(copy_prefixes(&pieces[i]), labels, &entry.attrs);
        proof {
            update_models_push(msgs@, msg);
            assert(all.take(i + 1) =~= all.take(i as int).push(all[i as int]));
            assert(before + all.take(i + 1) =~= (before + all.take(i as int)).push(all[i as int]));
        }
        msgs.push(msg);
        i += 1;
    }
    assert(spec_pieces.len() == pieces@.len());
    assert(all.take(i as int) =~= all);
}

/// Builds the messages for what is queued in a family.
pub fn build_family_updates<A: AddressFamily>(queue: &mut NeighborUpdateQueue<A::Prefix>) -> (r: Vec<UpdateMsg>)
    requires
        old(queue).wf(),
        queue_fits::<A>(old(queue)@),
    ensures
        final(queue).wf(),
        update_models(r@) == queue_updates::<A>(old(queue)@),
        final(queue)@ == drained::<A>(old(queue)@),
{
    let mut msgs: Vec<UpdateMsg> = Vec::new();
    let ghost labels = queue.labels@;
    let ghost reach = queue@.reach;
    let mut i: usize = 0;
    assert(update_models(msgs@) =~= Seq::<UpdateModel>::empty());
    assert(reach.take(0) =~= Seq::<(Attrs, Set<Path<A::Prefix>>)>::empty());
    // Reachable prefixes.
    while i < queue.reach.len()
        invariant
            *queue == *old(queue),
            queue.wf(),
            queue_fits::<A>(queue@),
            labels == queue.labels@,
            reach == queue@.reach,
            i <= queue.reach@.len(),
            update_models(msgs@) == reach_updates::<A>(reach.take(i as int), labels, queue.add_path),
        decreases queue.reach@.len() - i,
    {
        proof {
            assert(attrs_fit::<A>(reach[i as int].0, queue.add_path));
            assert(reach.take(i + 1).drop_last() =~= reach.take(i as int));
            assert(reach.take(i + 1).last() == reach[i as int]);
        }
        push_entry_updates::<A>(&mut msgs, &queue.reach[i], &queue.labels, queue.add_path);
        i += 1;
    }
    assert(reach.take(i as int) =~= reach);
    // Unreachable prefixes.
    let ghost before = update_models(msgs@);
    proof {
        elems_in_order(queue.unreach);
    }
    let ghost all = unreach_updates::<A>(queue.unreach@, labels, queue.add_path);
    let pieces = chunks(to_vec(&queue.unreach), A::unreach_room(queue.add_path));
    let ghost spec_pieces = chunked(
        queue.unreach.elems(),
        room(A::unreach_overhead(), path_size(A::prefix_size(), queue.add_path)),
    );
    let mut j: usize = 0;
    assert(before + all.take(0) =~= before);
    while j < pieces.len()
        invariant
            *queue == *old(queue),
            queue.wf(),
            labels == queue.labels@,
            Seq::new(pieces@.len(), |i: int| pieces@[i]@) == spec_pieces,
            all.len() == spec_pieces.len(),
            forall|j: int| 0 <= j < all.len() ==> #[trigger] all[j] == A::unreach_update(spec_pieces[j], labels),
            j <= pieces@.len(),
            update_models(msgs@) == before + all.take(j as int),
        decreases pieces@.len() - j,
    {
        assert(spec_pieces[j as int] == pieces@[j as int]@);
        let msg = A::unreach_msg(copy_prefixes(&pieces[j]), &queue.labels);
        proof {
            update_models_push(msgs@, msg);
            assert(all.take(j + 1) =~= all.take(j as int).push(all[j as int]));
            assert(before + all.take(j + 1) =~= (before + all.take(j as int)).push(all[j as int]));
        }
        msgs.push(msg);
        j += 1;
    }
    assert(spec_pieces.len() == pieces@.len());
    assert(all.take(j as int) =~= all);
    queue.reach = Vec::new();
    queue.unreach = SortedSet::new();
    if A::uses_labels() {
        queue.labels = SortedMap::new();
    }
    assert(queue@.reach =~= Seq::<(Attrs, Set<Path<A::Prefix>>)>::empty());
    msgs
}

/// The IPv4 next hop of attributes.
pub open spec fn ipv4_nexthop(attrs: BaseAttrs) -> Ipv4Addr {
    match attrs.nexthop {
        Some(IpAddr::V4(a)) => a,
        _ => arbitrary(),
    }
}

/// The IPv6 next hop of attributes.
pub open spec fn ipv6_nexthop(attrs: BaseAttrs) -> Ipv6Addr {
    match attrs.nexthop {
        Some(IpAddr::V6(a)) => a,
        _ => arbitrary(),
    }
}

/// The address of this router on an IPv4 session; there is none on an IPv6
/// session.
pub open spec fn ipv4_source(info: TcpConnInfo) -> Ipv4Addr {
    match info.local_addr {
        IpAddr::V4(a) => a,
        IpAddr::V6(_) => Ipv4Addr { bits: 0 },
    }
}

/// The address of this router on a session, mapped to IPv6 where it is an IPv4
/// address.
pub open spec fn ipv6_source(info: TcpConnInfo) -> Ipv6Addr {
    match info.local_addr {
        IpAddr::V4(a) => Ipv6Addr { bits: (0xFFFF_0000_0000 + a.bits) as u128 },
        IpAddr::V6(a) => a,
    }
}

/// Whether this router puts itself in as the next hop: on its own routes, and
/// towards external peers outside its subnets.
pub open spec fn nexthop_self(nbr: Neighbor, local: bool) -> bool {
    local || (nbr.peer_type == PeerType::External && !nbr.shared_subnet)
}

pub open spec fn ipv4_tx_attrs(nbr: Neighbor, local: bool, attrs: BaseAttrs) -> BaseAttrs {
    if nexthop_self(nbr, local) {
        BaseAttrs { nexthop: Some(IpAddr::V4(ipv4_source(nbr.conn_info->0))), ..attrs }
    } else {
        attrs
    }
}

pub open spec fn ipv6_tx_attrs(nbr: Neighbor, local: bool, attrs: BaseAttrs) -> BaseAttrs {
    if nexthop_self(nbr, local) {
        BaseAttrs {
            nexthop: Some(IpAddr::V6(ipv6_source(nbr.conn_info->0))),
            ll_nexthop: if local {
                attrs.ll_nexthop
            } else {
                None
            },
            ..attrs
        }
    } else {
        attrs
    }
}

fn ipv4_tx_change(nbr: &Neighbor, local: bool, attrs: &mut BaseAttrs)
    requires
        nbr.conn_info is Some,
    ensures
        *final(attrs) == ipv4_tx_attrs(*nbr, local, *old(attrs)),
{
    if let Some(info) = &nbr.conn_info {
        // Source address of the session.
        let session_src = match info.local_addr {
            IpAddr::V4(addr) => addr,
            IpAddr::V6(_) => Ipv4Addr { bits: 0 },
        };
        // Locally originated routes.
        if local {
            attrs.nexthop = Some(IpAddr::V4(session_src));
            return;
        }
        match nbr.peer_type {
            PeerType::Internal => {},
            PeerType::External => {
                if !nbr.shared_subnet {
                    attrs.nexthop = Some(IpAddr::V4(session_src));
                }
            },
        }
    }
}

fn ipv6_tx_change(nbr: &Neighbor, local: bool, attrs: &mut BaseAttrs)
    requires
        nbr.conn_info is Some,
    ensures
        *final(attrs) == ipv6_tx_attrs(*nbr, local, *old(attrs)),
{
    if let Some(info) = &nbr.conn_info {
        // Source address of the session.
        let session_src = match info.local_addr {
            IpAddr::V4(addr) => Ipv6Addr { bits: 0xFFFF_0000_0000 + addr.bits as u128 },
            IpAddr::V6(addr) => addr,
        };
        // Locally originated routes.
        if local {
            attrs.nexthop = Some(IpAddr::V6(session_src));
            return;
        }
        match nbr.peer_type {
            PeerType::Internal => {},
            PeerType::External => {
                if !nbr.shared_subnet {
                    attrs.nexthop = Some(IpAddr::V6(session_src));
                    // The link-local next hop does not hold there.
                    attrs.ll_nexthop = None;
                }
            },
        }
    }
}

/// The label that goes with a prefix.
pub open spec fn label_of<P>(labels: Map<Path<P>, Label>, path: Path<P>) -> u32 {
    if labels.contains_key(path) {
        labels[path].0
    } else {
        0
    }
}

fn path_label<P: Ranked>(labels: &SortedMap<Path<P>, Label>, path: Path<P>) -> (r: u32)
    requires
        labels.wf(),
    ensures
        r == label_of(labels@, path),
{
    proof {
        path.view_is_value();
    }
    match labels.get(&path) {
        Some(label) => label.get(),
        None => 0,
    }
}

/// The length of a prefix, with a path identifier where these are sent.
fn path_len(size: u32, add_path: bool) -> (r: u32)
    requires
        size <= 28,
    ensures
        r == path_size(size as nat, add_path),
{
    if add_path {
        size + 4
    } else {
        size
    }
}

/// Whether there is room for a prefix.
fn has_room(length: u64, overhead: u32, size: u32) -> (r: bool)
    requires
        length <= LENGTH_CAP,
        overhead <= 64,
        size <= 64,
    ensures
        r == (UPDATE_MIN_LEN + length + overhead + size <= MAX_LEN),
{
    UPDATE_MIN_LEN as u64 + length + overhead as u64 + size as u64 <= MAX_LEN as u64
}

/// The length that is left divided by the size of a prefix.
fn room_for(length: u64, overhead: u32, size: u32) -> (r: usize)
    requires
        0 < size <= 64,
        overhead <= 64,
        UPDATE_MIN_LEN + length + overhead + size <= MAX_LEN,
    ensures
        r == room((length + overhead) as nat, size as nat),
        r > 0,
{
    let left: u32 = MAX_LEN - UPDATE_MIN_LEN - length as u32 - overhead;
    assert(left / size >= 1) by (nonlinear_arith)
        requires
            left >= size,
            size > 0,
    ;
    (left / size) as usize
}

fn plain_update(
    reach: Option<ReachNlri>,
    unreach: Option<UnreachNlri>,
    mp_reach: Option<MpReachNlri>,
    mp_unreach: Option<MpUnreachNlri>,
    attrs: Option<Attrs>,
) -> (r: UpdateMsg)
    ensures
        r == (UpdateMsg { reach, unreach, mp_reach, mp_unreach, attrs }),
{
    UpdateMsg { reach, unreach, mp_reach, mp_unreach, attrs }
}

/// VPN prefixes with their labels.
pub open spec fn labeled_ipv4(
    chunk: Seq<Path<Vpnv4Prefix>>,
    labels: Map<Path<Vpnv4Prefix>, Label>,
) -> Seq<LabeledVpnIpv4Nlri> {
    Seq::new(
        chunk.len(),
        |i: int| LabeledVpnIpv4Nlri {
            label: label_of(labels, chunk[i]),
            rd: chunk[i].prefix.rd,
            prefix: chunk[i].prefix.prefix,
        },
    )
}

fn label_ipv4(
    chunk: &Vec<Path<Vpnv4Prefix>>,
    labels: &SortedMap<Path<Vpnv4Prefix>, Label>,
) -> (r: Vec<LabeledVpnIpv4Nlri>)
    requires
        labels.wf(),
    ensures
        r@ == labeled_ipv4(chunk@, labels@),
{
    let mut r: Vec<LabeledVpnIpv4Nlri> = Vec::new();
    let mut i: usize = 0;
    let ghost all = labeled_ipv4(chunk@, labels@);
    while i < chunk.len()
        invariant
            labels.wf(),
            all == labeled_ipv4(chunk@, labels@),
            i <= chunk@.len(),
            r@ == all.take(i as int),
        decreases chunk@.len() - i,
    {
        let p = chunk[i];
        r.push(LabeledVpnIpv4Nlri { label: path_label(labels, p), rd: p.prefix.rd, prefix: p.prefix.prefix });
        assert(all.take(i + 1) =~= all.take(i as int).push(all[i as int]));
        i += 1;
    }
    assert(all.take(i as int) =~= all);
    r
}

/// VPN prefixes with their labels.
pub open spec fn labeled_ipv6(
    chunk: Seq<Path<Vpnv6Prefix>>,
    labels: Map<Path<Vpnv6Prefix>, Label>,
) -> Seq<LabeledVpnIpv6Nlri> {
    Seq::new(
        chunk.len(),
        |i: int| LabeledVpnIpv6Nlri {
            label: label_of(labels, chunk[i]),
            rd: chunk[i].prefix.rd,
            prefix: chunk[i].prefix.prefix,
        },
    )
}

fn label_ipv6(
    chunk: &Vec<Path<Vpnv6Prefix>>,
    labels: &SortedMap<Path<Vpnv6Prefix>, Label>,
) -> (r: Vec<LabeledVpnIpv6Nlri>)
    requires
        labels.wf(),
    ensures
        r@ == labeled_ipv6(chunk@, labels@),
{
    let mut r: Vec<LabeledVpnIpv6Nlri> = Vec::new();
    let mut i: usize = 0;
    let ghost all = labeled_ipv6(chunk@, labels@);
    while i < chunk.len()
        invariant
            labels.wf(),
            all == labeled_ipv6(chunk@, labels@),
            i <= chunk@.len(),
            r@ == all.take(i as int),
        decreases chunk@.len() - i,
    {
        let p = chunk[i];
        r.push(LabeledVpnIpv6Nlri { label: path_label(labels, p), rd: p.prefix.rd, prefix: p.prefix.prefix });
        assert(all.take(i + 1) =~= all.take(i as int).push(all[i as int]));
        i += 1;
    }
    assert(all.take(i as int) =~= all);
    r
}

impl AddressFamily for Ipv4Unicast {
    type Prefix = Ipv4Network;

    open spec fn afi_spec() -> Afi {
        Afi::Ipv4
    }

    open spec fn safi_spec() -> Safi {
        Safi::Unicast
    }

    open spec fn afi_safi_spec() -> AfiSafi {
        AfiSafi::Ipv4Unicast
    }

    open spec fn install_loc_rib_spec() -> bool {
        true
    }

    open spec fn disseminate_spec() -> bool {
        true
    }

    open spec fn policy_disseminate_spec() -> bool {
        true
    }

    open spec fn from_ip_network_spec(prefix: IpNetwork) -> Option<Ipv4Network> {
        match prefix {
            IpNetwork::V4(n) => Some(n),
            IpNetwork::V6(_) => None,
        }
    }

    open spec fn to_ip_network_spec(prefix: Ipv4Network) -> IpNetwork {
        IpNetwork::V4(prefix)
    }

    open spec fn rx_nexthop(attrs: BaseAttrs) -> IpAddr {
        attrs.nexthop->0
    }

    open spec fn tx_attrs(nbr: Neighbor, local: bool, attrs: BaseAttrs) -> BaseAttrs {
        ipv4_tx_attrs(nbr, local, attrs)
    }

    open spec fn table_spec(tables: RoutingTables) -> RoutingTable<Ipv4Network> {
        tables.ipv4_unicast
    }

    open spec fn with_table(tables: RoutingTables, table: RoutingTable<Ipv4Network>) -> RoutingTables {
        RoutingTables { ipv4_unicast: table, ..tables }
    }

    open spec fn update_queue_spec(queues: NeighborUpdateQueues) -> NeighborUpdateQueue<Ipv4Network> {
        queues.ipv4_unicast
    }

    open spec fn with_update_queue(
        queues: NeighborUpdateQueues,
        queue: NeighborUpdateQueue<Ipv4Network>,
    ) -> NeighborUpdateQueues {
        NeighborUpdateQueues { ipv4_unicast: queue, ..queues }
    }

    open spec fn labeled() -> bool {
        false
    }

    open spec fn sendable(attrs: Attrs) -> bool {
        attrs.base.nexthop matches Some(IpAddr::V4(_))
    }

    open spec fn reach_overhead(attrs: Attrs) -> nat {
        NEXTHOP_ATTR_LEN as nat
    }

    open spec fn unreach_overhead() -> nat {
        0
    }

    open spec fn prefix_size() -> nat {
        5
    }

    open spec fn reach_update(
        chunk: Seq<Path<Ipv4Network>>,
        labels: Map<Path<Ipv4Network>, Label>,
        attrs: Attrs,
    ) -> UpdateModel {
        UpdateModel {
            reach: Some((prefixes_of(chunk), ids_of(chunk), ipv4_nexthop(attrs.base))),
            attrs: Some(attrs),
            ..empty_update()
        }
    }

    open spec fn unreach_update(chunk: Seq<Path<Ipv4Network>>, labels: Map<Path<Ipv4Network>, Label>) -> UpdateModel {
        UpdateModel { unreach: Some((prefixes_of(chunk), ids_of(chunk))), ..empty_update() }
    }

    fn afi() -> (r: Afi) {
        Afi::Ipv4
    }

    fn safi() -> (r: Safi) {
        Safi::Unicast
    }

    fn afi_safi() -> (r: AfiSafi) {
        AfiSafi::Ipv4Unicast
    }

    fn install_loc_rib() -> (r: bool) {
        true
    }

    fn disseminate() -> (r: bool) {
        true
    }

    fn policy_disseminate() -> (r: bool) {
        true
    }

    fn table(tables: &mut RoutingTables) -> (r: &mut RoutingTable<Ipv4Network>) {
        &mut tables.ipv4_unicast
    }

    fn update_queue(queues: &mut NeighborUpdateQueues) -> (r: &mut NeighborUpdateQueue<Ipv4Network>) {
        &mut queues.ipv4_unicast
    }

    fn nexthop_rx_extract(attrs: &BaseAttrs) -> (r: IpAddr) {
        attrs.nexthop.unwrap()
    }

    fn nexthop_tx_change(nbr: &Neighbor, local: bool, attrs: &mut BaseAttrs) {
        ipv4_tx_change(nbr, local, attrs);
    }

    fn prefix_from_ip_network(prefix: IpNetwork) -> (r: Option<Ipv4Network>) {
        match prefix {
            IpNetwork::V4(n) => Some(n),
            IpNetwork::V6(_) => None,
        }
    }

    fn prefix_to_ip_network(prefix: Ipv4Network) -> (r: IpNetwork) {
        IpNetwork::V4(prefix)
    }

    fn can_send(attrs: &Attrs, add_path: bool) -> (r: bool) {
        proof {
            capped_is(attrs_length(attrs@));
        }
        matches!(attrs.base.nexthop, Some(IpAddr::V4(_))) && has_room(
            attrs.length(),
            NEXTHOP_ATTR_LEN,
            path_len(5, add_path),
        )
    }

    fn reach_room(attrs: &Attrs, add_path: bool) -> (r: usize) {
        proof {
            capped_is(attrs_length(attrs@));
        }
        room_for(attrs.length(), NEXTHOP_ATTR_LEN, path_len(5, add_path))
    }

    fn unreach_room(add_path: bool) -> (r: usize) {
        room_for(0, 0, path_len(5, add_path))
    }

    fn reach_msg(
        chunk: Vec<Path<Ipv4Network>>,
        labels: &SortedMap<Path<Ipv4Network>, Label>,
        attrs: &Attrs,
    ) -> (r: UpdateMsg) {
        let nexthop = match attrs.base.nexthop {
            Some(IpAddr::V4(a)) => a,
            _ => Ipv4Addr { bits: 0 },
        };
        plain_update(
            Some(ReachNlri { prefixes: path_prefixes(&chunk), path_ids: path_ids(&chunk), nexthop }),
            None,
            None,
            None,
            Some(attrs.duplicate()),
        )
    }

    fn unreach_msg(chunk: Vec<Path<Ipv4Network>>, labels: &SortedMap<Path<Ipv4Network>, Label>) -> (r: UpdateMsg) {
        plain_update(
            None,
            Some(UnreachNlri { prefixes: path_prefixes(&chunk), path_ids: path_ids(&chunk) }),
            None,
            None,
            None,
        )
    }

    proof fn withdrawals_have_room(add_path: bool) {
        some_room(Self::unreach_overhead(), path_size(Self::prefix_size(), add_path));
    }

    fn uses_labels() -> (r: bool) {
        false
    }
}

impl Ipv4Unicast {
    /// Builds the UPDATE messages for what is queued, and empties the queue.
    pub fn build_updates(queue: &mut NeighborUpdateQueue<Ipv4Network>) -> (r: Vec<UpdateMsg>)
        requires
            old(queue).wf(),
            queue_fits::<Ipv4Unicast>(old(queue)@),
        ensures
            final(queue).wf(),
            update_models(r@) == queue_updates::<Ipv4Unicast>(old(queue)@),
            final(queue)@ == drained::<Ipv4Unicast>(old(queue)@),
    {
        build_family_updates::<Ipv4Unicast>(queue)
    }
}

impl AddressFamily for Ipv6Unicast {
    type Prefix = Ipv6Network;

    open spec fn afi_spec() -> Afi {
        Afi::Ipv6
    }

    open spec fn safi_spec() -> Safi {
        Safi::Unicast
    }

    open spec fn afi_safi_spec() -> AfiSafi {
        AfiSafi::Ipv6Unicast
    }

    open spec fn install_loc_rib_spec() -> bool {
        true
    }

    open spec fn disseminate_spec() -> bool {
        true
    }

    open spec fn policy_disseminate_spec() -> bool {
        true
    }

    open spec fn from_ip_network_spec(prefix: IpNetwork) -> Option<Ipv6Network> {
        match prefix {
            IpNetwork::V4(_) => None,
            IpNetwork::V6(n) => Some(n),
        }
    }

    open spec fn to_ip_network_spec(prefix: Ipv6Network) -> IpNetwork {
        IpNetwork::V6(prefix)
    }

    open spec fn rx_nexthop(attrs: BaseAttrs) -> IpAddr {
        match attrs.ll_nexthop {
            Some(a) => IpAddr::V6(a),
            None => attrs.nexthop->0,
        }
    }

    open spec fn tx_attrs(nbr: Neighbor, local: bool, attrs: BaseAttrs) -> BaseAttrs {
        ipv6_tx_attrs(nbr, local, attrs)
    }

    open spec fn table_spec(tables: RoutingTables) -> RoutingTable<Ipv6Network> {
        tables.ipv6_unicast
    }

    open spec fn with_table(tables: RoutingTables, table: RoutingTable<Ipv6Network>) -> RoutingTables {
        RoutingTables { ipv6_unicast: table, ..tables }
    }

    open spec fn update_queue_spec(queues: NeighborUpdateQueues) -> NeighborUpdateQueue<Ipv6Network> {
        queues.ipv6_unicast
    }

    open spec fn with_update_queue(
        queues: NeighborUpdateQueues,
        queue: NeighborUpdateQueue<Ipv6Network>,
    ) -> NeighborUpdateQueues {
        NeighborUpdateQueues { ipv6_unicast: queue, ..queues }
    }

    open spec fn labeled() -> bool {
        false
    }

    open spec fn sendable(attrs: Attrs) -> bool {
        attrs.base.nexthop matches Some(IpAddr::V6(_))
    }

    open spec fn reach_overhead(attrs: Attrs) -> nat {
        (ATTR_MIN_LEN_EXT + MP_REACH_MIN_LEN) as nat + if attrs.base.ll_nexthop is Some {
            32nat
        } else {
            16
        }
    }

    open spec fn unreach_overhead() -> nat {
        (ATTR_MIN_LEN_EXT + MP_UNREACH_MIN_LEN) as nat
    }

    open spec fn prefix_size() -> nat {
        17
    }

    open spec fn reach_update(
        chunk: Seq<Path<Ipv6Network>>,
        labels: Map<Path<Ipv6Network>, Label>,
        attrs: Attrs,
    ) -> UpdateModel {
        UpdateModel {
            mp_reach: Some(
                MpReachModel::Ipv6Unicast {
                    prefixes: prefixes_of(chunk),
                    path_ids: ids_of(chunk),
                    nexthop: ipv6_nexthop(attrs.base),
                    ll_nexthop: attrs.base.ll_nexthop,
                },
            ),
            attrs: Some(attrs),
            ..empty_update()
        }
    }

    open spec fn unreach_update(chunk: Seq<Path<Ipv6Network>>, labels: Map<Path<Ipv6Network>, Label>) -> UpdateModel {
        UpdateModel {
            mp_unreach: Some(
                MpUnreachModel::Ipv6Unicast { prefixes: prefixes_of(chunk), path_ids: ids_of(chunk) },
            ),
            ..empty_update()
        }
    }

    fn afi() -> (r: Afi) {
        Afi::Ipv6
    }

    fn safi() -> (r: Safi) {
        Safi::Unicast
    }

    fn afi_safi() -> (r: AfiSafi) {
        AfiSafi::Ipv6Unicast
    }

    fn install_loc_rib() -> (r: bool) {
        true
    }

    fn disseminate() -> (r: bool) {
        true
    }

    fn policy_disseminate() -> (r: bool) {
        true
    }

    fn table(tables: &mut RoutingTables) -> (r: &mut RoutingTable<Ipv6Network>) {
        &mut tables.ipv6_unicast
    }

    fn update_queue(queues: &mut NeighborUpdateQueues) -> (r: &mut NeighborUpdateQueue<Ipv6Network>) {
        &mut queues.ipv6_unicast
    }

    fn nexthop_rx_extract(attrs: &BaseAttrs) -> (r: IpAddr) {
        match attrs.ll_nexthop {
            Some(a) => IpAddr::V6(a),
            None => attrs.nexthop.unwrap(),
        }
    }

    fn nexthop_tx_change(nbr: &Neighbor, local: bool, attrs: &mut BaseAttrs) {
        ipv6_tx_change(nbr, local, attrs);
    }

    fn prefix_from_ip_network(prefix: IpNetwork) -> (r: Option<Ipv6Network>) {
        match prefix {
            IpNetwork::V4(_) => None,
            IpNetwork::V6(n) => Some(n),
        }
    }

    fn prefix_to_ip_network(prefix: Ipv6Network) -> (r: IpNetwork) {
        IpNetwork::V6(prefix)
    }

    fn can_send(attrs: &Attrs, add_path: bool) -> (r: bool) {
        proof {
            capped_is(attrs_length(attrs@));
        }
        let nexthop_len: u32 = if attrs.base.ll_nexthop.is_some() {
            32
        } else {
            16
        };
        matches!(attrs.base.nexthop, Some(IpAddr::V6(_))) && has_room(
            attrs.length(),
            ATTR_MIN_LEN_EXT + MP_REACH_MIN_LEN + nexthop_len,
            path_len(17, add_path),
        )
    }

    fn reach_room(attrs: &Attrs, add_path: bool) -> (r: usize) {
        proof {
            capped_is(attrs_length(attrs@));
        }
        let nexthop_len: u32 = if attrs.base.ll_nexthop.is_some() {
            32
        } else {
            16
        };
        room_for(attrs.length(), ATTR_MIN_LEN_EXT + MP_REACH_MIN_LEN + nexthop_len, path_len(17, add_path))
    }

    fn unreach_room(add_path: bool) -> (r: usize) {
        room_for(0, ATTR_MIN_LEN_EXT + MP_UNREACH_MIN_LEN, path_len(17, add_path))
    }

    fn reach_msg(
        chunk: Vec<Path<Ipv6Network>>,
        labels: &SortedMap<Path<Ipv6Network>, Label>,
        attrs: &Attrs,
    ) -> (r: UpdateMsg) {
        let nexthop = match attrs.base.nexthop {
            Some(IpAddr::V6(a)) => a,
            _ => Ipv6Addr { bits: 0 },
        };
        let ll_nexthop = attrs.base.ll_nexthop;
        plain_update(
            None,
            None,
            Some(
                MpReachNlri::Ipv6Unicast {
                    prefixes: path_prefixes(&chunk),
                    path_ids: path_ids(&chunk),
                    nexthop,
                    ll_nexthop,
                },
            ),
            None,
            Some(attrs.duplicate()),
        )
    }

    fn unreach_msg(chunk: Vec<Path<Ipv6Network>>, labels: &SortedMap<Path<Ipv6Network>, Label>) -> (r: UpdateMsg) {
        plain_update(
            None,
            None,
            None,
            Some(MpUnreachNlri::Ipv6Unicast { prefixes: path_prefixes(&chunk), path_ids: path_ids(&chunk) }),
            None,
        )
    }

    proof fn withdrawals_have_room(add_path: bool) {
        some_room(Self::unreach_overhead(), path_size(Self::prefix_size(), add_path));
    }

    fn uses_labels() -> (r: bool) {
        false
    }
}

impl Ipv6Unicast {
    /// Builds the UPDATE messages for what is queued, and empties the queue.
    pub fn build_updates(queue: &mut NeighborUpdateQueue<Ipv6Network>) -> (r: Vec<UpdateMsg>)
        requires
            old(queue).wf(),
            queue_fits::<Ipv6Unicast>(old(queue)@),
        ensures
            final(queue).wf(),
            update_models(r@) == queue_updates::<Ipv6Unicast>(old(queue)@),
            final(queue)@ == drained::<Ipv6Unicast>(old(queue)@),
    {
        build_family_updates::<Ipv6Unicast>(queue)
    }
}

impl AddressFamily for Vpnv4Unicast {
    type Prefix = Vpnv4Prefix;

    open spec fn afi_spec() -> Afi {
        Afi::Ipv4
    }

    open spec fn safi_spec() -> Safi {
        Safi::LabeledVpn
    }

    open spec fn afi_safi_spec() -> AfiSafi {
        AfiSafi::L3vpnIpv4Unicast
    }

    open spec fn install_loc_rib_spec() -> bool {
        false
    }

    open spec fn disseminate_spec() -> bool {
        true
    }

    open spec fn policy_disseminate_spec() -> bool {
        false
    }

    open spec fn from_ip_network_spec(prefix: IpNetwork) -> Option<Vpnv4Prefix> {
        None
    }

    open spec fn to_ip_network_spec(prefix: Vpnv4Prefix) -> IpNetwork {
        IpNetwork::V4(prefix.prefix)
    }

    open spec fn rx_nexthop(attrs: BaseAttrs) -> IpAddr {
        attrs.nexthop->0
    }

    open spec fn tx_attrs(nbr: Neighbor, local: bool, attrs: BaseAttrs) -> BaseAttrs {
        ipv4_tx_attrs(nbr, local, attrs)
    }

    open spec fn table_spec(tables: RoutingTables) -> RoutingTable<Vpnv4Prefix> {
        tables.vpnv4_unicast
    }

    open spec fn with_table(tables: RoutingTables, table: RoutingTable<Vpnv4Prefix>) -> RoutingTables {
        RoutingTables { vpnv4_unicast: table, ..tables }
    }

    open spec fn update_queue_spec(queues: NeighborUpdateQueues) -> NeighborUpdateQueue<Vpnv4Prefix> {
        queues.vpnv4_unicast
    }

    open spec fn with_update_queue(
        queues: NeighborUpdateQueues,
        queue: NeighborUpdateQueue<Vpnv4Prefix>,
    ) -> NeighborUpdateQueues {
        NeighborUpdateQueues { vpnv4_unicast: queue, ..queues }
    }

    open spec fn labeled() -> bool {
        true
    }

    open spec fn sendable(attrs: Attrs) -> bool {
        attrs.base.nexthop matches Some(IpAddr::V4(_))
    }

    open spec fn reach_overhead(attrs: Attrs) -> nat {
        (ATTR_MIN_LEN_EXT + MP_REACH_MIN_LEN) as nat
    }

    open spec fn unreach_overhead() -> nat {
        (ATTR_MIN_LEN_EXT + MP_UNREACH_MIN_LEN) as nat
    }

    open spec fn prefix_size() -> nat {
        16
    }

    open spec fn reach_update(
        chunk: Seq<Path<Vpnv4Prefix>>,
        labels: Map<Path<Vpnv4Prefix>, Label>,
        attrs: Attrs,
    ) -> UpdateModel {
        UpdateModel {
            mp_reach: Some(
                MpReachModel::L3vpnIpv4Unicast {
                    prefixes: labeled_ipv4(chunk, labels),
                    path_ids: ids_of(chunk),
                    nexthop: ipv4_nexthop(attrs.base),
                },
            ),
            attrs: Some(attrs),
            ..empty_update()
        }
    }

    open spec fn unreach_update(chunk: Seq<Path<Vpnv4Prefix>>, labels: Map<Path<Vpnv4Prefix>, Label>) -> UpdateModel {
        UpdateModel {
            mp_unreach: Some(
                MpUnreachModel::L3vpnIpv4Unicast { prefixes: labeled_ipv4(chunk, labels), path_ids: ids_of(chunk) },
            ),
            ..empty_update()
        }
    }

    fn afi() -> (r: Afi) {
        Afi::Ipv4
    }

    fn safi() -> (r: Safi) {
        Safi::LabeledVpn
    }

    fn afi_safi() -> (r: AfiSafi) {
        AfiSafi::L3vpnIpv4Unicast
    }

    fn install_loc_rib() -> (r: bool) {
        false
    }

    fn disseminate() -> (r: bool) {
        true
    }

    fn policy_disseminate() -> (r: bool) {
        false
    }

    fn table(tables: &mut RoutingTables) -> (r: &mut RoutingTable<Vpnv4Prefix>) {
        &mut tables.vpnv4_unicast
    }

    fn update_queue(queues: &mut NeighborUpdateQueues) -> (r: &mut NeighborUpdateQueue<Vpnv4Prefix>) {
        &mut queues.vpnv4_unicast
    }

    fn nexthop_rx_extract(attrs: &BaseAttrs) -> (r: IpAddr) {
        attrs.nexthop.unwrap()
    }

    fn nexthop_tx_change(nbr: &Neighbor, local: bool, attrs: &mut BaseAttrs) {
        ipv4_tx_change(nbr, local, attrs);
    }

    fn prefix_from_ip_network(prefix: IpNetwork) -> (r: Option<Vpnv4Prefix>) {
        None
    }

    fn prefix_to_ip_network(prefix: Vpnv4Prefix) -> (r: IpNetwork) {
        IpNetwork::V4(prefix.prefix)
    }

    fn can_send(attrs: &Attrs, add_path: bool) -> (r: bool) {
        proof {
            capped_is(attrs_length(attrs@));
        }
        matches!(attrs.base.nexthop, Some(IpAddr::V4(_))) && has_room(
            attrs.length(),
            ATTR_MIN_LEN_EXT + MP_REACH_MIN_LEN,
            path_len(16, add_path),
        )
    }

    fn reach_room(attrs: &Attrs, add_path: bool) -> (r: usize) {
        proof {
            capped_is(attrs_length(attrs@));
        }
        room_for(attrs.length(), ATTR_MIN_LEN_EXT + MP_REACH_MIN_LEN, path_len(16, add_path))
    }

    fn unreach_room(add_path: bool) -> (r: usize) {
        room_for(0, ATTR_MIN_LEN_EXT + MP_UNREACH_MIN_LEN, path_len(16, add_path))
    }

    fn reach_msg(
        chunk: Vec<Path<Vpnv4Prefix>>,
        labels: &SortedMap<Path<Vpnv4Prefix>, Label>,
        attrs: &Attrs,
    ) -> (r: UpdateMsg) {
        let nexthop = match attrs.base.nexthop {
            Some(IpAddr::V4(a)) => a,
            _ => Ipv4Addr { bits: 0 },
        };
        let prefixes = label_ipv4(&chunk, labels);
        plain_update(
            None,
            None,
            Some(MpReachNlri::L3vpnIpv4Unicast { prefixes, path_ids: path_ids(&chunk), nexthop }),
            None,
            Some(attrs.duplicate()),
        )
    }

    fn unreach_msg(chunk: Vec<Path<Vpnv4Prefix>>, labels: &SortedMap<Path<Vpnv4Prefix>, Label>) -> (r: UpdateMsg) {
        let prefixes = label_ipv4(&chunk, labels);
        plain_update(
            None,
            None,
            None,
            Some(MpUnreachNlri::L3vpnIpv4Unicast { prefixes, path_ids: path_ids(&chunk) }),
            None,
        )
    }

    proof fn withdrawals_have_room(add_path: bool) {
        some_room(Self::unreach_overhead(), path_size(Self::prefix_size(), add_path));
    }

    fn uses_labels() -> (r: bool) {
        true
    }
}

impl Vpnv4Unicast {
    /// Builds the UPDATE messages for what is queued, and empties the queue.
    pub fn build_updates(queue: &mut NeighborUpdateQueue<Vpnv4Prefix>) -> (r: Vec<UpdateMsg>)
        requires
            old(queue).wf(),
            queue_fits::<Vpnv4Unicast>(old(queue)@),
        ensures
            final(queue).wf(),
            update_models(r@) == queue_updates::<Vpnv4Unicast>(old(queue)@),
            final(queue)@ == drained::<Vpnv4Unicast>(old(queue)@),
    {
        build_family_updates::<Vpnv4Unicast>(queue)
    }
}

impl AddressFamily for Vpnv6Unicast {
    type Prefix = Vpnv6Prefix;

    open spec fn afi_spec() -> Afi {
        Afi::Ipv6
    }

    open spec fn safi_spec() -> Safi {
        Safi::LabeledVpn
    }

    open spec fn afi_safi_spec() -> AfiSafi {
        AfiSafi::L3vpnIpv6Unicast
    }

    open spec fn install_loc_rib_spec() -> bool {
        false
    }

    open spec fn disseminate_spec() -> bool {
        true
    }

    open spec fn policy_disseminate_spec() -> bool {
        false
    }

    open spec fn from_ip_network_spec(prefix: IpNetwork) -> Option<Vpnv6Prefix> {
        None
    }

    open spec fn to_ip_network_spec(prefix: Vpnv6Prefix) -> IpNetwork {
        IpNetwork::V6(prefix.prefix)
    }

    open spec fn rx_nexthop(attrs: BaseAttrs) -> IpAddr {
        match attrs.ll_nexthop {
            Some(a) => IpAddr::V6(a),
            None => attrs.nexthop->0,
        }
    }

    open spec fn tx_attrs(nbr: Neighbor, local: bool, attrs: BaseAttrs) -> BaseAttrs {
        ipv6_tx_attrs(nbr, local, attrs)
    }

    open spec fn table_spec(tables: RoutingTables) -> RoutingTable<Vpnv6Prefix> {
        tables.vpnv6_unicast
    }

    open spec fn with_table(tables: RoutingTables, table: RoutingTable<Vpnv6Prefix>) -> RoutingTables {
        RoutingTables { vpnv6_unicast: table, ..tables }
    }

    open spec fn update_queue_spec(queues: NeighborUpdateQueues) -> NeighborUpdateQueue<Vpnv6Prefix> {
        queues.vpnv6_unicast
    }

    open spec fn with_update_queue(
        queues: NeighborUpdateQueues,
        queue: NeighborUpdateQueue<Vpnv6Prefix>,
    ) -> NeighborUpdateQueues {
        NeighborUpdateQueues { vpnv6_unicast: queue, ..queues }
    }

    open spec fn labeled() -> bool {
        true
    }

    open spec fn sendable(attrs: Attrs) -> bool {
        attrs.base.nexthop matches Some(IpAddr::V6(_))
    }

    open spec fn reach_overhead(attrs: Attrs) -> nat {
        (ATTR_MIN_LEN_EXT + MP_REACH_MIN_LEN) as nat
    }

    open spec fn unreach_overhead() -> nat {
        (ATTR_MIN_LEN_EXT + MP_UNREACH_MIN_LEN) as nat
    }

    open spec fn prefix_size() -> nat {
        28
    }

    open spec fn reach_update(
        chunk: Seq<Path<Vpnv6Prefix>>,
        labels: Map<Path<Vpnv6Prefix>, Label>,
        attrs: Attrs,
    ) -> UpdateModel {
        UpdateModel {
            mp_reach: Some(
                MpReachModel::L3vpnIpv6Unicast {
                    prefixes: labeled_ipv6(chunk, labels),
                    path_ids: ids_of(chunk),
                    nexthop: ipv6_nexthop(attrs.base),
                },
            ),
            attrs: Some(attrs),
            ..empty_update()
        }
    }

    open spec fn unreach_update(chunk: Seq<Path<Vpnv6Prefix>>, labels: Map<Path<Vpnv6Prefix>, Label>) -> UpdateModel {
        UpdateModel {
            mp_unreach: Some(
                MpUnreachModel::L3vpnIpv6Unicast { prefixes: labeled_ipv6(chunk, labels), path_ids: ids_of(chunk) },
            ),
            ..empty_update()
        }
    }

    fn afi() -> (r: Afi) {
        Afi::Ipv6
    }

    fn safi() -> (r: Safi) {
        Safi::LabeledVpn
    }

    fn afi_safi() -> (r: AfiSafi) {
        AfiSafi::L3vpnIpv6Unicast
    }

    fn install_loc_rib() -> (r: bool) {
        false
    }

    fn disseminate() -> (r: bool) {
        true
    }

    fn policy_disseminate() -> (r: bool) {
        false
    }

    fn table(tables: &mut RoutingTables) -> (r: &mut RoutingTable<Vpnv6Prefix>) {
        &mut tables.vpnv6_unicast
    }

    fn update_queue(queues: &mut NeighborUpdateQueues) -> (r: &mut NeighborUpdateQueue<Vpnv6Prefix>) {
        &mut queues.vpnv6_unicast
    }

    fn nexthop_rx_extract(attrs: &BaseAttrs) -> (r: IpAddr) {
        match attrs.ll_nexthop {
            Some(a) => IpAddr::V6(a),
            None => attrs.nexthop.unwrap(),
        }
    }

    fn nexthop_tx_change(nbr: &Neighbor, local: bool, attrs: &mut BaseAttrs) {
        ipv6_tx_change(nbr, local, attrs);
    }

    fn prefix_from_ip_network(prefix: IpNetwork) -> (r: Option<Vpnv6Prefix>) {
        None
    }

    fn prefix_to_ip_network(prefix: Vpnv6Prefix) -> (r: IpNetwork) {
        IpNetwork::V6(prefix.prefix)
    }

    fn can_send(attrs: &Attrs, add_path: bool) -> (r: bool) {
        proof {
            capped_is(attrs_length(attrs@));
        }
        matches!(attrs.base.nexthop, Some(IpAddr::V6(_))) && has_room(
            attrs.length(),
            ATTR_MIN_LEN_EXT + MP_REACH_MIN_LEN,
            path_len(28, add_path),
        )
    }

    fn reach_room(attrs: &Attrs, add_path: bool) -> (r: usize) {
        proof {
            capped_is(attrs_length(attrs@));
        }
        room_for(attrs.length(), ATTR_MIN_LEN_EXT + MP_REACH_MIN_LEN, path_len(28, add_path))
    }

    fn unreach_room(add_path: bool) -> (r: usize) {
        room_for(0, ATTR_MIN_LEN_EXT + MP_UNREACH_MIN_LEN, path_len(28, add_path))
    }

    fn reach_msg(
        chunk: Vec<Path<Vpnv6Prefix>>,
        labels: &SortedMap<Path<Vpnv6Prefix>, Label>,
        attrs: &Attrs,
    ) -> (r: UpdateMsg) {
        let nexthop = match attrs.base.nexthop {
            Some(IpAddr::V6(a)) => a,
            _ => Ipv6Addr { bits: 0 },
        };
        let prefixes = label_ipv6(&chunk, labels);
        plain_update(
            None,
            None,
            Some(MpReachNlri::L3vpnIpv6Unicast { prefixes, path_ids: path_ids(&chunk), nexthop }),
            None,
            Some(attrs.duplicate()),
        )
    }

    fn unreach_msg(chunk: Vec<Path<Vpnv6Prefix>>, labels: &SortedMap<Path<Vpnv6Prefix>, Label>) -> (r: UpdateMsg) {
        let prefixes = label_ipv6(&chunk, labels);
        plain_update(
            None,
            None,
            None,
            Some(MpUnreachNlri::L3vpnIpv6Unicast { prefixes, path_ids: path_ids(&chunk) }),
            None,
        )
    }

    proof fn withdrawals_have_room(add_path: bool) {
        some_room(Self::unreach_overhead(), path_size(Self::prefix_size(), add_path));
    }

    fn uses_labels() -> (r: bool) {
        true
    }
}

impl Vpnv6Unicast {
    /// Builds the UPDATE messages for what is queued, and empties the queue.
    pub fn build_updates(queue: &mut NeighborUpdateQueue<Vpnv6Prefix>) -> (r: Vec<UpdateMsg>)
        requires
            old(queue).wf(),
            queue_fits::<Vpnv6Unicast>(old(queue)@),
        ensures
            final(queue).wf(),
            update_models(r@) == queue_updates::<Vpnv6Unicast>(old(queue)@),
            final(queue)@ == drained::<Vpnv6Unicast>(old(queue)@),
    {
        build_family_updates::<Vpnv6Unicast>(queue)
    }
}

/// The route targets that a selected route carries.
pub open spec fn carried_rts(comms: Seq<ExtComm>) -> Set<RouteTarget>
    decreases comms.len(),
{
    if comms.len() == 0 {
        Set::empty()
    } else {
        let rest = carried_rts(comms.drop_last());
        match rt_of(comms.last().0@) {
            Some(rt) => rest.insert(rt),
            None => rest,
        }
    }
}

/// The route targets by which a route is imported, if it carries any.
pub open spec fn import_rts(route: LocalRoute) -> Option<Set<RouteTarget>> {
    match route.attrs.ext_comm {
        Some(list) => if carried_rts(list.0.elems()) == Set::<RouteTarget>::empty() {
            None
        } else {
            Some(carried_rts(list.0.elems()))
        },
        None => None,
    }
}

/// A route carries a route target exactly if one of its extended communities
/// does.
pub proof fn carried_rts_are(comms: Seq<ExtComm>, rt: RouteTarget)
    ensures
        carried_rts(comms).contains(rt) <==> exists|i: int|
            0 <= i < comms.len() && rt_of((#[trigger] comms[i]).0@) == Some(rt),
    decreases comms.len(),
{
    if comms.len() > 0 {
        let init = comms.drop_last();
        carried_rts_are(init, rt);
        if carried_rts(init).contains(rt) {
            let i = choose|i: int| 0 <= i < init.len() && rt_of((#[trigger] init[i]).0@) == Some(rt);
            assert(comms[i] == init[i]);
        }
        if rt_of(comms.last().0@) == Some(rt) {
            assert(comms[comms.len() - 1] == comms.last());
        }
        if exists|i: int| 0 <= i < comms.len() && rt_of((#[trigger] comms[i]).0@) == Some(rt) {
            let i = choose|i: int| 0 <= i < comms.len() && rt_of((#[trigger] comms[i]).0@) == Some(rt);
            if i < init.len() {
                assert(rt_of(init[i].0@) == Some(rt));
            }
        }
    }
}

pub fn route_import_rts(route: &LocalRoute) -> (r: Option<SortedSet<RouteTarget>>)
    ensures
        match r {
            Some(s) => s.wf() && import_rts(*route) == Some(s@),
            None => import_rts(*route) is None,
        },
{
    match &route.attrs.ext_comm {
        Some(list) => {
            let comms = &list.0;
            let mut rts: SortedSet<RouteTarget> = SortedSet::new();
            let mut i: usize = 0;
            assert(comms.elems().take(0) =~= Seq::<ExtComm>::empty());
            while i < comms.len()
                invariant
                    *comms == list.0,
                    rts.wf(),
                    i <= comms.elems().len(),
                    rts@ == carried_rts(comms.elems().take(i as int)),
                decreases comms.elems().len() - i,
            {
                proof {
                    assert(comms.elems().take(i + 1).drop_last() =~= comms.elems().take(i as int));
                    assert(comms.elems().take(i + 1).last() == comms.elems()[i as int]);
                }
                if let Some(rt) = RouteTarget::from_ext_comm(comms.nth(i)) {
                    rts.insert(rt);
                }
                i += 1;
            }
            assert(comms.elems().take(i as int) =~= comms.elems());
            if rts.is_empty() {
                None
            } else {
                Some(rts)
            }
        },
        None => None,
    }
}

/// Whether a network instance imports routes with some route targets.
pub open spec fn imports_any(import: VpnImport, rts: Set<RouteTarget>) -> bool {
    exists|rt: RouteTarget| #[trigger] import.import_rts@.contains(rt) && rts.contains(rt)
}

/// The tables that import routes with some route targets, in the order of the
/// names of their network instances.
pub open spec fn import_tables(imports: Seq<(String, VpnImport)>, rts: Set<RouteTarget>) -> Seq<u32>
    decreases imports.len(),
{
    if imports.len() == 0 {
        Seq::empty()
    } else {
        let rest = import_tables(imports.drop_last(), rts);
        let last = imports.last().1;
        if imports_any(last, rts) && last.table_id is Some {
            rest.push(last.table_id->0)
        } else {
            rest
        }
    }
}

/// The tables into which a route is imported.
pub open spec fn route_tables(route: LocalRoute, shared: InstanceShared) -> Seq<u32> {
    match import_rts(route) {
        Some(rts) => import_tables(shared.vpn_imports.entries@, rts),
        None => Seq::empty(),
    }
}

pub fn vpn_import_table_ids(route: &LocalRoute, shared: &InstanceShared) -> (r: Vec<u32>)
    requires
        shared.wf(),
    ensures
        r@ == route_tables(*route, *shared),
{
    let mut r: Vec<u32> = Vec::new();
    let route_rts = match route_import_rts(route) {
        Some(rts) => rts,
        None => {
            return r;
        },
    };
    let ghost entries = shared.vpn_imports.entries@;
    let mut i: usize = 0;
    assert(entries.take(0) =~= Seq::<(String, VpnImport)>::empty());
    while i < shared.vpn_imports.entries.len()
        invariant
            shared.wf(),
            route_rts.wf(),
            entries == shared.vpn_imports.entries@,
            i <= entries.len(),
            r@ == import_tables(entries.take(i as int), route_rts@),
        decreases entries.len() - i,
    {
        let import = &shared.vpn_imports.entries[i].1;
        proof {
            entries_map_get(entries, i as int);
            assert(entries.take(i + 1).drop_last() =~= entries.take(i as int));
            assert(entries.take(i + 1).last() == entries[i as int]);
        }
        if import.import_rts.intersects(&route_rts) {
            if let Some(table_id) = import.table_id {
                r.push(table_id);
            }
        }
        i += 1;
    }
    assert(entries.take(i as int) =~= entries);
    r
}

/// Asks to install a VPN route into the tables that import it.
pub fn vpn_import_install(prefix: IpNetwork, route: &LocalRoute, shared: &InstanceShared, distance: u8) -> (r: Vec<
    IbusRequest,
>)
    requires
        shared.wf(),
    ensures
        r@.len() == route_tables(*route, *shared).len(),
        forall|i: int|
            0 <= i < r@.len() ==> installs_route(
                #[trigger] r@[i],
                Some(route_tables(*route, *shared)[i]),
                prefix,
                *route,
                distance,
            ),
{
    let tables = vpn_import_table_ids(route, shared);
    let mut r: Vec<IbusRequest> = Vec::new();
    let mut i: usize = 0;
    while i < tables.len()
        invariant
            i <= tables@.len(),
            r@.len() == i,
            forall|j: int|
                0 <= j < r@.len() ==> installs_route(#[trigger] r@[j], Some(tables@[j]), prefix, *route, distance),
        decreases tables@.len() - i,
    {
        r.push(route_install(Some(tables[i]), prefix, route, distance));
        i += 1;
    }
    r
}

/// Asks to remove a VPN route from the tables that import it.
pub fn vpn_import_uninstall(prefix: IpNetwork, route: &LocalRoute, shared: &InstanceShared) -> (r: Vec<IbusRequest>)
    requires
        shared.wf(),
    ensures
        r@.len() == route_tables(*route, *shared).len(),
        forall|i: int|
            0 <= i < r@.len() ==> #[trigger] r@[i] == IbusRequest::RouteIpDel(
                RouteKeyMsg {
                    protocol: Protocol::BGP,
                    table_id: Some(route_tables(*route, *shared)[i]),
                    prefix,
                },
            ),
{
    let tables = vpn_import_table_ids(route, shared);
    let mut r: Vec<IbusRequest> = Vec::new();
    let mut i: usize = 0;
    while i < tables.len()
        invariant
            i <= tables@.len(),
            r@.len() == i,
            forall|j: int|
                0 <= j < r@.len() ==> #[trigger] r@[j] == IbusRequest::RouteIpDel(
                    RouteKeyMsg { protocol: Protocol::BGP, table_id: Some(tables@[j]), prefix },
                ),
        decreases tables@.len() - i,
    {
        r.push(route_uninstall(Some(tables[i]), prefix));
        i += 1;
    }
    r
}

/// A table is among those that import a route exactly if it belongs to a
/// network instance that imports one of the route's targets.
pub proof fn import_tables_are(imports: Seq<(String, VpnImport)>, rts: Set<RouteTarget>, table: u32)
    ensures
        import_tables(imports, rts).contains(table) <==> exists|i: int|
            0 <= i < imports.len() && (#[trigger] imports[i]).1.table_id == Some(table) && imports_any(
                imports[i].1,
                rts,
            ),
    decreases imports.len(),
{
    let all = import_tables(imports, rts);
    if imports.len() > 0 {
        let init = imports.drop_last();
        let rest = import_tables(init, rts);
        import_tables_are(init, rts, table);
        if rest.contains(table) {
            let i = choose|i: int|
                0 <= i < init.len() && (#[trigger] init[i]).1.table_id == Some(table) && imports_any(init[i].1, rts);
            assert(imports[i] == init[i]);
            let k = choose|k: int| 0 <= k < rest.len() && rest[k] == table;
            assert(all[k] == table);
        }
        let last = imports[imports.len() - 1].1;
        if imports_any(last, rts) && last.table_id == Some(table) {
            assert(all[rest.len() as int] == table);
        }
        if all.contains(table) && !rest.contains(table) {
            let k = choose|k: int| 0 <= k < all.len() && all[k] == table;
            if k < rest.len() {
                assert(rest[k] == table);
            }
        }
        if exists|i: int|
            0 <= i < imports.len() && (#[trigger] imports[i]).1.table_id == Some(table) && imports_any(
                imports[i].1,
                rts,
            ) {
            let i = choose|i: int|
                0 <= i < imports.len() && (#[trigger] imports[i]).1.table_id == Some(table) && imports_any(
                    imports[i].1,
                    rts,
                );
            if i < init.len() {
                assert(init[i].1.table_id == Some(table));
            }
        }
    }
}

/// The pieces of a sequence put together give the sequence, and no piece is
/// empty or longer than asked.
pub proof fn pieces_make_the_whole<T>(s: Seq<T>, n: nat)
    requires
        n > 0,
    ensures
        chunked(s, n).flatten() == s,
        forall|i: int| 0 <= i < chunked(s, n).len() ==> 0 < (#[trigger] chunked(s, n)[i]).len() <= n,
    decreases s.len(),
{
    let c = chunked(s, n);
    if s.len() == 0 {
        assert(c.flatten() =~= s);
    } else if s.len() <= n {
        assert(c =~= seq![s]);
        c.lemma_flatten_one_element();
    } else {
        let head = s.take(n as int);
        let rest = chunked(s.skip(n as int), n);
        pieces_make_the_whole(s.skip(n as int), n);
        assert(c =~= seq![head] + rest);
        assert(c.first() == head);
        assert(c.drop_first() =~= rest);
        assert(head + s.skip(n as int) =~= s);
        assert forall|i: int| 0 <= i < c.len() implies 0 < (#[trigger] c[i]).len() <= n by {
            if i > 0 {
                assert(c[i] == rest[i - 1]);
            }
        }
    }
}

/// A header, what is set aside of a message, and as many prefixes as a piece
/// holds take no more than the longest message. What is set aside counts the
/// next hop for the unicast families, and not for the labeled ones.
pub proof fn pieces_fit<T>(prefixes: Seq<T>, overhead: nat, size: nat, i: int)
    requires
        size > 0,
        UPDATE_MIN_LEN + overhead + size <= MAX_LEN,
        0 <= i < chunked(prefixes, room(overhead, size)).len(),
    ensures
        UPDATE_MIN_LEN + overhead + chunked(prefixes, room(overhead, size))[i].len() * size <= MAX_LEN,
{
    let n = room(overhead, size);
    let left = MAX_LEN - UPDATE_MIN_LEN - overhead;
    assert(left / size as int >= 1 && (left / size as int) * size <= left) by (nonlinear_arith)
        requires
            left >= size,
            size > 0,
    ;
    pieces_make_the_whole(prefixes, n);
    let k = chunked(prefixes, n)[i].len();
    assert(k * size <= n * size) by (nonlinear_arith)
        requires
            k <= n,
    ;
}

}
