//! Neighbors: configuration, session state and transmit queues.
use crate::af::Vpnv4Prefix;
use crate::af::Vpnv6Prefix;
use crate::attribute::Attrs;
use crate::bgp::AfiSafi;
use crate::ip::IpAddr;
use crate::ip::Ipv4Addr;
use crate::ip::Ipv4Network;
use crate::ip::Ipv6Network;
use crate::message::AddPathMode;
use crate::message::AddPathTuple;
use crate::message::Afi;
use crate::message::NotificationMsg;
use crate::message::Safi;
use crate::ord::Ranked;
use crate::ord::SortedMap;
use crate::ord::SortedSet;
use crate::path::Path;
use crate::policy_types::DefaultPolicyType;
use crate::protocol::Label;
use vstd::prelude::*;

verus! {

#[derive(Clone, Copy, Debug, PartialEq, Eq, Structural)]
pub enum PeerType {
    Internal,
    External,
}

/// The states of a session, in the order in which it comes up.
#[derive(Clone, Copy, Debug, PartialEq, Eq, Structural)]
pub enum State {
    Idle,
    Connect,
    Active,
    OpenSent,
    OpenConfirm,
    Established,
}

/// The policies that are applied to the routes of a neighbor, by name.
pub struct ApplyPolicyCfg {
    pub import_policy: SortedSet<String>,
    pub default_import_policy: DefaultPolicyType,
    pub export_policy: SortedSet<String>,
    pub default_export_policy: DefaultPolicyType,
}

#[derive(Clone, Copy, Debug, PartialEq, Eq, Structural)]
pub struct PrefixLimitCfg {
    pub max_prefixes: Option<u32>,
    pub teardown: bool,
}

pub struct NeighborAfiSafiCfg {
    pub enabled: bool,
    pub apply_policy: ApplyPolicyCfg,
    pub prefix_limit: PrefixLimitCfg,
    pub send_default_route: Option<bool>,
}

#[derive(Clone, Copy, Debug, PartialEq, Eq, Structural)]
pub struct RouteReflectorCfg {
    pub client: bool,
    pub cluster_id: Option<Ipv4Addr>,
}

#[derive(Clone, Copy, Debug, PartialEq, Eq, Structural)]
pub struct TransportCfg {
    pub ttl_security: Option<u8>,
    pub tcp_mss: Option<u16>,
}

/// Whether several paths to a prefix are taken from a neighbor, and whether all
/// paths are sent to it.
#[derive(Clone, Copy, Debug, PartialEq, Eq, Structural)]
pub struct AddPathsCfg {
    pub receive: bool,
    pub send_all: bool,
}

pub struct NeighborCfg {
    pub afi_safi: SortedMap<AfiSafi, NeighborAfiSafiCfg>,
    pub apply_policy: ApplyPolicyCfg,
    pub prefix_limit: PrefixLimitCfg,
    pub route_reflector: RouteReflectorCfg,
    pub transport: TransportCfg,
    pub add_paths: AddPathsCfg,
}

/// The addresses of a connection.
#[derive(Clone, Copy, Debug, PartialEq, Eq, Structural)]
pub struct TcpConnInfo {
    pub local_addr: IpAddr,
    pub local_port: u16,
    pub remote_addr: IpAddr,
    pub remote_port: u16,
}

/// Paths to be advertised with one set of attributes.
pub struct ReachEntry<P> {
    pub attrs: Attrs,
    pub prefixes: SortedSet<Path<P>>,
}

/// What is waiting to be sent to a neighbor in an address family. There is one
/// entry for each set of attributes, in the order in which they were queued.
pub struct NeighborUpdateQueue<P> {
    pub reach: Vec<ReachEntry<P>>,
    pub unreach: SortedSet<Path<P>>,
    pub labels: SortedMap<Path<P>, Label>,
    /// Whether path identifiers are sent with the prefixes.
    pub add_path: bool,
}

pub struct NeighborUpdateQueues {
    pub ipv4_unicast: NeighborUpdateQueue<Ipv4Network>,
    pub ipv6_unicast: NeighborUpdateQueue<Ipv6Network>,
    pub vpnv4_unicast: NeighborUpdateQueue<Vpnv4Prefix>,
    pub vpnv6_unicast: NeighborUpdateQueue<Vpnv6Prefix>,
}

/// A neighbor.
pub struct Neighbor {
    pub remote_addr: IpAddr,
    pub config: NeighborCfg,
    pub peer_type: PeerType,
    pub state: State,
    pub identifier: Option<Ipv4Addr>,
    pub conn_info: Option<TcpConnInfo>,
    pub connecting: bool,
    pub shared_subnet: bool,
    /// The address families that both sides advertised, if the neighbor
    /// advertised any.
    pub negotiated_afs: Option<SortedSet<AfiSafi>>,
    /// The address families that were advertised to the neighbor.
    pub advertised_afs: SortedSet<AfiSafi>,
    /// The address families in which the neighbor sends path identifiers.
    pub add_path_rx: SortedSet<AfiSafi>,
    /// The address families in which path identifiers are sent to the neighbor.
    pub add_path_tx: SortedSet<AfiSafi>,
    pub notification_rcvd: Option<NotificationMsg>,
}

/// The neighbors of an instance by address.
pub type Neighbors = SortedMap<IpAddr, Neighbor>;

impl State {
    pub open spec fn index_spec(self) -> u8 {
        match self {
            State::Idle => 0,
            State::Connect => 1,
            State::Active => 2,
            State::OpenSent => 3,
            State::OpenConfirm => 4,
            State::Established => 5,
        }
    }
}

impl ApplyPolicyCfg {
    pub open spec fn wf(&self) -> bool {
        self.import_policy.wf() && self.export_policy.wf()
    }
}

impl ApplyPolicyCfg {
    /// There are no policies, and routes are rejected by default.
    pub open spec fn rejects_all(&self) -> bool {
        &&& self.import_policy@ == Set::<Seq<char>>::empty()
        &&& self.export_policy@ == Set::<Seq<char>>::empty()
        &&& self.default_import_policy == DefaultPolicyType::RejectRoute
        &&& self.default_export_policy == DefaultPolicyType::RejectRoute
    }
}

impl Default for ApplyPolicyCfg {
    fn default() -> (r: Self)
        ensures
            r.wf(),
            r.rejects_all(),
    {
        ApplyPolicyCfg {
            import_policy: SortedSet::new(),
            default_import_policy: DefaultPolicyType::RejectRoute,
            export_policy: SortedSet::new(),
            default_export_policy: DefaultPolicyType::RejectRoute,
        }
    }
}

impl Default for NeighborAfiSafiCfg {
    fn default() -> (r: Self)
        ensures
            r.apply_policy.wf(),
            !r.enabled,
            r.apply_policy.rejects_all(),
            r.prefix_limit == (PrefixLimitCfg { max_prefixes: None, teardown: false }),
            r.send_default_route is None,
    {
        NeighborAfiSafiCfg {
            enabled: false,
            apply_policy: ApplyPolicyCfg::default(),
            prefix_limit: PrefixLimitCfg { max_prefixes: None, teardown: false },
            send_default_route: None,
        }
    }
}

impl Neighbor {
    /// The maps and sets are in order, and an established session has told the
    /// identifier of the neighbor.
    pub open spec fn wf(&self) -> bool {
        &&& self.config.afi_safi.wf()
        &&& forall|a: AfiSafi| #[trigger]
            self.config.afi_safi@.contains_key(a) ==> self.config.afi_safi@[a].apply_policy.wf()
        &&& self.config.apply_policy.wf()
        &&& self.negotiated_afs matches Some(afs) ==> afs.wf()
        &&& self.advertised_afs.wf()
        &&& self.add_path_rx.wf()
        &&& self.add_path_tx.wf()
        &&& self.state == State::Established ==> self.identifier is Some
    }

    /// A neighbor whose session is down.
    pub fn new(remote_addr: IpAddr, peer_type: PeerType) -> (r: Self)
        ensures
            r.wf(),
            r.remote_addr == remote_addr,
            r.peer_type == peer_type,
            r.state == State::Idle,
            r.identifier is None,
            r.conn_info is None,
            !r.connecting,
            !r.shared_subnet,
            r.negotiated_afs is None,
            r.advertised_afs@ == Set::<AfiSafi>::empty(),
            r.add_path_rx@ == Set::<AfiSafi>::empty(),
            r.add_path_tx@ == Set::<AfiSafi>::empty(),
            r.config.afi_safi@ == Map::<AfiSafi, NeighborAfiSafiCfg>::empty(),
            r.config.apply_policy.rejects_all(),
            r.config.prefix_limit == (PrefixLimitCfg { max_prefixes: None, teardown: false }),
            r.config.route_reflector == (RouteReflectorCfg { client: false, cluster_id: None }),
            r.config.transport == (TransportCfg { ttl_security: None, tcp_mss: None }),
            r.config.add_paths == (AddPathsCfg { receive: false, send_all: false }),
            r.notification_rcvd is None,
    {
        Neighbor {
            remote_addr,
            config: NeighborCfg {
                afi_safi: SortedMap::new(),
                apply_policy: ApplyPolicyCfg::default(),
                prefix_limit: PrefixLimitCfg { max_prefixes: None, teardown: false },
                route_reflector: RouteReflectorCfg { client: false, cluster_id: None },
                transport: TransportCfg { ttl_security: None, tcp_mss: None },
                add_paths: AddPathsCfg { receive: false, send_all: false },
            },
            peer_type,
            state: State::Idle,
            identifier: None,
            conn_info: None,
            connecting: false,
            shared_subnet: false,
            negotiated_afs: None,
            advertised_afs: SortedSet::new(),
            add_path_rx: SortedSet::new(),
            add_path_tx: SortedSet::new(),
            notification_rcvd: None,
        }
    }

    /// Whether an address family is in use on the session. A session on which
    /// none was negotiated carries IPv4 unicast.
    pub open spec fn af_in_use(&self, afi_safi: AfiSafi) -> bool {
        match self.negotiated_afs {
            Some(afs) => afs@.contains(afi_safi),
            None => afi_safi == AfiSafi::Ipv4Unicast,
        }
    }

    pub fn is_af_enabled(&self, afi_safi: AfiSafi) -> (r: bool)
        requires
            self.wf(),
        ensures
            r == self.af_in_use(afi_safi),
    {
        match &self.negotiated_afs {
            Some(afs) => afs.contains(&afi_safi),
            None => afi_safi == AfiSafi::Ipv4Unicast,
        }
    }

    /// Whether the neighbor sends path identifiers in an address family.
    pub open spec fn receives_paths(&self, afi_safi: AfiSafi) -> bool {
        self.add_path_rx@.contains(afi_safi)
    }

    /// Whether path identifiers are sent to the neighbor in an address family.
    pub open spec fn sends_paths(&self, afi_safi: AfiSafi) -> bool {
        self.add_path_tx@.contains(afi_safi)
    }

    pub fn is_add_path_rx(&self, afi_safi: AfiSafi) -> (r: bool)
        requires
            self.wf(),
        ensures
            r == self.receives_paths(afi_safi),
    {
        self.add_path_rx.contains(&afi_safi)
    }

    pub fn is_add_path_tx(&self, afi_safi: AfiSafi) -> (r: bool)
        requires
            self.wf(),
        ensures
            r == self.sends_paths(afi_safi),
    {
        self.add_path_tx.contains(&afi_safi)
    }

    /// Settles in which address families path identifiers go with prefixes,
    /// from what the neighbor can do. Each direction is settled by itself: the
    /// side that sends has to be willing to send, the other to receive.
    pub fn negotiate_add_path(&mut self, peer: &Vec<AddPathTuple>)
        requires
            old(self).wf(),
        ensures
            final(self).wf(),
            forall|a: AfiSafi| #[trigger]
                final(self).receives_paths(a) <==> old(self).config.add_paths.receive && peer_sends(peer@, a),
            forall|a: AfiSafi| #[trigger]
                final(self).sends_paths(a) <==> old(self).config.add_paths.send_all && peer_receives(peer@, a),
            *final(self) == (Neighbor {
                add_path_rx: final(self).add_path_rx,
                add_path_tx: final(self).add_path_tx,
                ..*old(self)
            }),
    {
        let mut rx: SortedSet<AfiSafi> = SortedSet::new();
        let mut tx: SortedSet<AfiSafi> = SortedSet::new();
        let receive = self.config.add_paths.receive;
        let send_all = self.config.add_paths.send_all;
        let mut i: usize = 0;
        while i < peer.len()
            invariant
                rx.wf(),
                tx.wf(),
                i <= peer@.len(),
                forall|a: AfiSafi| #[trigger] rx@.contains(a) <==> receive && peer_sends(peer@.take(i as int), a),
                forall|a: AfiSafi| #[trigger] tx@.contains(a) <==> send_all && peer_receives(peer@.take(i as int), a),
            decreases peer@.len() - i,
        {
            let ghost p = peer@.take(i as int);
            let tuple = peer[i];
            proof {
                assert(peer@.take(i + 1) =~= p.push(tuple));
                assert forall|a: AfiSafi| #[trigger] peer_sends(p.push(tuple), a) <==> peer_sends(p, a) || (
                family(tuple.afi, tuple.safi) == Some(a) && tuple.mode != AddPathMode::Receive) by {
                    peer_push(p, tuple, a);
                }
                assert forall|a: AfiSafi| #[trigger] peer_receives(p.push(tuple), a) <==> peer_receives(p, a) || (
                family(tuple.afi, tuple.safi) == Some(a) && tuple.mode != AddPathMode::Send) by {
                    peer_push(p, tuple, a);
                }
            }
            if let Some(afi_safi) = family_of(tuple.afi, tuple.safi) {
                if receive && tuple.mode != AddPathMode::Receive {
                    rx.insert(afi_safi);
                }
                if send_all && tuple.mode != AddPathMode::Send {
                    tx.insert(afi_safi);
                }
            }
            i += 1;
        }
        assert(peer@.take(i as int) =~= peer@);
        self.add_path_rx = rx;
        self.add_path_tx = tx;
    }

    /// The policy configuration of an address family: its own, or that of the
    /// neighbor.
    pub open spec fn apply_policy_spec(&self, afi_safi: AfiSafi) -> ApplyPolicyCfg {
        if self.config.afi_safi@.contains_key(afi_safi) {
            self.config.afi_safi@[afi_safi].apply_policy
        } else {
            self.config.apply_policy
        }
    }

    pub fn apply_policy(&self, afi_safi: AfiSafi) -> (r: &ApplyPolicyCfg)
        requires
            self.wf(),
        ensures
            *r == self.apply_policy_spec(afi_safi),
            r.wf(),
    {
        match self.config.afi_safi.get(&afi_safi) {
            Some(cfg) => &cfg.apply_policy,
            None => &self.config.apply_policy,
        }
    }

    /// The prefix limit of an address family: its own, if it sets one, or that
    /// of the neighbor.
    pub open spec fn prefix_limit_spec(&self, afi_safi: AfiSafi) -> PrefixLimitCfg {
        if self.config.afi_safi@.contains_key(afi_safi)
            && self.config.afi_safi@[afi_safi].prefix_limit.max_prefixes is Some {
            self.config.afi_safi@[afi_safi].prefix_limit
        } else {
            self.config.prefix_limit
        }
    }

    pub fn prefix_limit(&self, afi_safi: AfiSafi) -> (r: PrefixLimitCfg)
        requires
            self.wf(),
        ensures
            r == self.prefix_limit_spec(afi_safi),
    {
        match self.config.afi_safi.get(&afi_safi) {
            Some(cfg) => if cfg.prefix_limit.max_prefixes.is_some() {
                cfg.prefix_limit
            } else {
                self.config.prefix_limit
            },
            None => self.config.prefix_limit,
        }
    }

    /// Whether a default route is to be sent in an address family.
    pub open spec fn sends_default(&self, afi_safi: AfiSafi) -> bool {
        self.config.afi_safi@.contains_key(afi_safi) && self.config.afi_safi@[afi_safi].enabled
            && self.config.afi_safi@[afi_safi].send_default_route == Some(true)
    }
}

/// The address family of a pair of identifiers.
pub open spec fn family(afi: Afi, safi: Safi) -> Option<AfiSafi> {
    match (afi, safi) {
        (Afi::Ipv4, Safi::Unicast) => Some(AfiSafi::Ipv4Unicast),
        (Afi::Ipv6, Safi::Unicast) => Some(AfiSafi::Ipv6Unicast),
        (Afi::Ipv4, Safi::LabeledVpn) => Some(AfiSafi::L3vpnIpv4Unicast),
        (Afi::Ipv6, Safi::LabeledVpn) => Some(AfiSafi::L3vpnIpv6Unicast),
        (Afi::L2vpn, Safi::Evpn) => Some(AfiSafi::L2vpnEvpn),
        _ => None,
    }
}

fn family_of(afi: Afi, safi: Safi) -> (r: Option<AfiSafi>)
    ensures
        r == family(afi, safi),
{
    match (afi, safi) {
        (Afi::Ipv4, Safi::Unicast) => Some(AfiSafi::Ipv4Unicast),
        (Afi::Ipv6, Safi::Unicast) => Some(AfiSafi::Ipv6Unicast),
        (Afi::Ipv4, Safi::LabeledVpn) => Some(AfiSafi::L3vpnIpv4Unicast),
        (Afi::Ipv6, Safi::LabeledVpn) => Some(AfiSafi::L3vpnIpv6Unicast),
        (Afi::L2vpn, Safi::Evpn) => Some(AfiSafi::L2vpnEvpn),
        _ => None,
    }
}

/// Whether a neighbor can send several paths in an address family.
pub open spec fn peer_sends(peer: Seq<AddPathTuple>, a: AfiSafi) -> bool {
    exists|i: int|
        0 <= i < peer.len() && family((#[trigger] peer[i]).afi, peer[i].safi) == Some(a) && peer[i].mode
            != AddPathMode::Receive
}

/// Whether a neighbor can receive several paths in an address family.
pub open spec fn peer_receives(peer: Seq<AddPathTuple>, a: AfiSafi) -> bool {
    exists|i: int|
        0 <= i < peer.len() && family((#[trigger] peer[i]).afi, peer[i].safi) == Some(a) && peer[i].mode
            != AddPathMode::Send
}

proof fn peer_push(peer: Seq<AddPathTuple>, tuple: AddPathTuple, a: AfiSafi)
    ensures
        peer_sends(peer.push(tuple), a) <==> peer_sends(peer, a) || (family(tuple.afi, tuple.safi) == Some(a)
            && tuple.mode != AddPathMode::Receive),
        peer_receives(peer.push(tuple), a) <==> peer_receives(peer, a) || (family(tuple.afi, tuple.safi) == Some(a)
            && tuple.mode != AddPathMode::Send),
{
    let all = peer.push(tuple);
    assert forall|i: int| 0 <= i < peer.len() implies all[i] == #[trigger] peer[i] by {}
    assert(all[peer.len() as int] == tuple);
    if peer_sends(peer, a) {
        let i = choose|i: int|
            0 <= i < peer.len() && family((#[trigger] peer[i]).afi, peer[i].safi) == Some(a) && peer[i].mode
                != AddPathMode::Receive;
        assert(all[i] == peer[i]);
    }
    if peer_receives(peer, a) {
        let i = choose|i: int|
            0 <= i < peer.len() && family((#[trigger] peer[i]).afi, peer[i].safi) == Some(a) && peer[i].mode
                != AddPathMode::Send;
        assert(all[i] == peer[i]);
    }
}

/// What waits in a queue for a path to be advertised: the attributes, if any.
pub open spec fn reach_model<P: Ranked>(reach: Seq<ReachEntry<P>>) -> Seq<(Attrs, Set<Path<P>>)> {
    Seq::new(reach.len(), |i: int| (reach[i].attrs, reach[i].prefixes@))
}

/// A queue as a mathematical value.
#[verifier::reject_recursive_types(P)]
pub struct QueueModel<P> {
    pub reach: Seq<(Attrs, Set<Path<P>>)>,
    pub unreach: Set<Path<P>>,
    pub labels: Map<Path<P>, Label>,
    pub add_path: bool,
}

impl<P: Ranked> View for NeighborUpdateQueue<P> {
    type V = QueueModel<P>;

    open spec fn view(&self) -> QueueModel<P> {
        QueueModel {
            reach: reach_model(self.reach@),
            unreach: self.unreach@,
            labels: self.labels@,
            add_path: self.add_path,
        }
    }
}

/// The entry for attributes that say the same.
pub open spec fn reach_index<P>(reach: Seq<(Attrs, Set<Path<P>>)>, attrs: Attrs) -> int
    decreases reach.len(),
{
    if reach.len() == 0 {
        -1
    } else if reach.last().0@ == attrs@ {
        reach.len() - 1
    } else {
        reach_index(reach.drop_last(), attrs)
    }
}

/// The queue after a path is to be advertised with attributes.
pub open spec fn reach_added<P>(reach: Seq<(Attrs, Set<Path<P>>)>, attrs: Attrs, path: Path<P>) -> Seq<
    (Attrs, Set<Path<P>>),
> {
    let i = reach_index(reach, attrs);
    if i >= 0 {
        reach.update(i, (reach[i].0, reach[i].1.insert(path)))
    } else {
        reach.push((attrs, Set::empty().insert(path)))
    }
}

pub proof fn reach_index_bound<P>(reach: Seq<(Attrs, Set<Path<P>>)>, attrs: Attrs)
    ensures
        -1 <= reach_index(reach, attrs) < reach.len(),
    decreases reach.len(),
{
    if reach.len() > 0 {
        reach_index_bound(reach.drop_last(), attrs);
    }
}

impl<P: Ranked> NeighborUpdateQueue<P> {
    pub open spec fn wf(&self) -> bool {
        &&& forall|i: int|
            0 <= i < self.reach@.len() ==> (#[trigger] self.reach@[i]).attrs.wf() && self.reach@[i].prefixes.wf()
        &&& self.unreach.wf()
        &&& self.labels.wf()
    }

    /// An empty queue. `add_path` says whether path identifiers are sent with
    /// the prefixes.
    pub fn new(add_path: bool) -> (r: Self)
        ensures
            r.wf(),
            r@ == (QueueModel::<P> { reach: Seq::empty(), unreach: Set::empty(), labels: Map::empty(), add_path }),
    {
        let r = NeighborUpdateQueue {
            reach: Vec::new(),
            unreach: SortedSet::new(),
            labels: SortedMap::new(),
            add_path,
        };
        assert(r@.reach =~= Seq::<(Attrs, Set<Path<P>>)>::empty());
        r
    }

    /// Queues a path to be advertised with attributes.
    pub fn reach_add(&mut self, attrs: Attrs, path: Path<P>)
        requires
            old(self).wf(),
            attrs.wf(),
        ensures
            final(self).wf(),
            final(self)@ == (QueueModel {
                reach: reach_added(old(self)@.reach, attrs, path),
                ..old(self)@
            }),
    {
        proof {
            path.view_is_value();
            reach_index_bound(self@.reach, attrs);
        }
        let ghost r = self@.reach;
        let mut n: usize = self.reach.len();
        assert(r.take(n as int) =~= r);
        while n > 0 && !self.reach[n - 1].attrs.same(&attrs)
            invariant
                self.wf(),
                attrs.wf(),
                *self == *old(self),
                r == self@.reach,
                n <= self.reach@.len(),
                reach_index(r, attrs) == reach_index(r.take(n as int), attrs),
            decreases n,
        {
            assert(r.take(n as int).last() == r[n - 1]);
            assert(r.take(n as int).drop_last() =~= r.take(n - 1));
            n -= 1;
        }
        if n > 0 {
            proof {
                assert(r.take(n as int).last() == r[n - 1]);
            }
            self.reach[n - 1].prefixes.insert(path);
            assert(self@.reach =~= reach_added(r, attrs, path));
        } else {
            let mut prefixes = SortedSet::new();
            prefixes.insert(path);
            self.reach.push(ReachEntry { attrs, prefixes });
            assert(self@.reach =~= reach_added(r, attrs, path));
        }
    }
}

impl NeighborUpdateQueues {
    pub open spec fn wf(&self) -> bool {
        self.ipv4_unicast.wf() && self.ipv6_unicast.wf() && self.vpnv4_unicast.wf() && self.vpnv6_unicast.wf()
    }
}

}
