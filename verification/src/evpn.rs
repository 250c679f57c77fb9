//! EVPN multihoming and MAC mobility procedures.
use crate::bgp::es_import_bytes;
use crate::bgp::esi_label_bytes;
use crate::bgp::esi_label_of;
use crate::bgp::esi_label_round_trip;
use crate::bgp::evpn_es_import_route_target;
use crate::bgp::evpn_esi_label_ext_comm;
use crate::bgp::evpn_esi_label_from_ext_comm;
use crate::bgp::evpn_mac_mobility_ext_comm;
use crate::bgp::evpn_mac_mobility_from_ext_comm;
use crate::bgp::mac_mobility_bytes;
use crate::bgp::mac_mobility_of;
use crate::bgp::EthernetSegmentId;
use crate::bgp::EvpnEsiLabel;
use crate::bgp::EvpnMacMobility;
use crate::bgp::ExtComm;
use crate::ip::IpAddr;
use crate::message::EvpnRoute;
use crate::ord::elems_are_set;
use crate::ord::one_order;
use crate::ord::Key;
use crate::ord::SortedSet;
use crate::rib::Route;
use crate::rib::RouteCompare;
use crate::rib::RouteRejectReason;
use crate::time::Duration;
use crate::time::Timestamp;
use std::collections::VecDeque;
use vstd::arithmetic::div_mod::lemma_fundamental_div_mod;
use vstd::arithmetic::div_mod::lemma_fundamental_div_mod_converse;
use vstd::prelude::*;

verus! {

/// The largest VLAN identifier.
pub const VLAN_MAX: u16 = 4094;

/// The Ethernet tag that stands for a whole Ethernet segment.
pub const MAX_ETHERNET_TAG_ID: u32 = 0xFFFF_FFFF;

/// How many moves within the window make a MAC address a duplicate.
pub const MAC_DUPLICATE_MOVE_THRESHOLD: usize = 5;

/// The window in which moves are counted, in seconds.
pub const MAC_DUPLICATE_WINDOW: u64 = 180;

/// The outcome of a designated forwarder election.
#[derive(Clone, Copy, Debug, PartialEq, Eq, Structural)]
pub struct DfElection {
    pub df: IpAddr,
    pub self_is_df: bool,
}

#[derive(Clone, Copy, Debug, PartialEq, Eq, Structural)]
pub enum EvpnMultihomingMode {
    AllActive,
    SingleActive,
}

#[derive(Clone, Copy, Debug, PartialEq, Eq, Structural)]
pub enum MacMobilityDecision {
    Undecided,
    Preferred,
    LessPreferred,
    StickyConflict,
}

#[derive(Clone, Copy, Debug, PartialEq, Eq, Structural)]
pub enum MacMoveState {
    Stable,
    Duplicate,
}

/// Counts the moves of a MAC address.
#[derive(Debug)]
pub struct MacMoveTracker<T> {
    pub threshold: usize,
    pub window: Duration,
    pub moves: VecDeque<T>,
    pub duplicate: bool,
}

/// Whether an Ethernet auto-discovery route stands for a whole segment.
pub fn ead_per_es(ethernet_tag_id: u32, label: u32) -> (r: bool)
    ensures
        r == (ethernet_tag_id == MAX_ETHERNET_TAG_ID && label == 0),
{
    ethernet_tag_id == MAX_ETHERNET_TAG_ID && label == 0
}

/// The ESI Label of a redundancy mode and a label.
pub open spec fn esi_label(mode: EvpnMultihomingMode, label: u32) -> EvpnEsiLabel {
    EvpnEsiLabel { single_active: mode == EvpnMultihomingMode::SingleActive, label }
}

pub fn esi_label_ext_comm(mode: EvpnMultihomingMode, label: u32) -> (r: ExtComm)
    ensures
        r.0@ == esi_label_bytes(esi_label(mode, label)),
{
    evpn_esi_label_ext_comm(EvpnEsiLabel { single_active: mode == EvpnMultihomingMode::SingleActive, label })
}

/// The redundancy mode and the label that an extended community carries.
pub open spec fn mode_label_of(b: Seq<u8>) -> Option<(EvpnMultihomingMode, u32)> {
    match esi_label_of(b) {
        Some(l) => Some(
            (
                if l.single_active {
                    EvpnMultihomingMode::SingleActive
                } else {
                    EvpnMultihomingMode::AllActive
                },
                l.label,
            ),
        ),
        None => None,
    }
}

pub fn esi_label_from_ext_comm(comm: &ExtComm) -> (r: Option<(EvpnMultihomingMode, u32)>)
    ensures
        r == mode_label_of(comm.0@),
{
    match evpn_esi_label_from_ext_comm(comm) {
        Some(esi_label) => {
            let mode = if esi_label.single_active {
                EvpnMultihomingMode::SingleActive
            } else {
                EvpnMultihomingMode::AllActive
            };
            Some((mode, esi_label.label))
        },
        None => None,
    }
}

/// The redundancy mode and a label of up to twenty bits are read back from
/// their extended community.
pub proof fn mode_label_round_trip(mode: EvpnMultihomingMode, label: u32)
    requires
        label < 0x10_0000,
    ensures
        mode_label_of(esi_label_bytes(esi_label(mode, label))) == Some((mode, label)),
{
    esi_label_round_trip(esi_label(mode, label));
}

pub fn mac_mobility_ext_comm(sticky: bool, sequence: u32) -> (r: ExtComm)
    ensures
        r.0@ == mac_mobility_bytes(EvpnMacMobility { sticky, sequence }),
{
    evpn_mac_mobility_ext_comm(EvpnMacMobility { sticky, sequence })
}

pub fn mac_mobility_from_ext_comm(comm: &ExtComm) -> (r: Option<EvpnMacMobility>)
    ensures
        r == mac_mobility_of(comm.0@),
{
    evpn_mac_mobility_from_ext_comm(comm)
}

/// The mobility of a route without a MAC Mobility extended community.
pub open spec fn no_mobility() -> EvpnMacMobility {
    EvpnMacMobility { sticky: false, sequence: 0 }
}

/// The first MAC Mobility among extended communities.
pub open spec fn first_mobility(s: Seq<ExtComm>) -> EvpnMacMobility
    decreases s.len(),
{
    if s.len() == 0 {
        no_mobility()
    } else {
        match mac_mobility_of(s[0].0@) {
            Some(m) => m,
            None => first_mobility(s.drop_first()),
        }
    }
}

/// The MAC Mobility of a route: that of its first extended community that
/// carries one.
pub open spec fn route_mobility(route: Route) -> EvpnMacMobility {
    match route.attrs.ext_comm {
        Some(l) => first_mobility(l.0.elems()),
        None => no_mobility(),
    }
}

pub fn mac_mobility_from_route(route: &Route) -> (r: EvpnMacMobility)
    ensures
        r == route_mobility(*route),
{
    if let Some(list) = &route.attrs.ext_comm {
        let set = &list.0;
        let mut i: usize = 0;
        assert(set.elems().skip(0) =~= set.elems());
        while i < set.len()
            invariant
                set == list.0,
                route.attrs.ext_comm == Some(*list),
                i <= set.elems().len(),
                first_mobility(set.elems()) == first_mobility(set.elems().skip(i as int)),
            decreases set.elems().len() - i,
        {
            let ghost rest = set.elems().skip(i as int);
            assert(rest[0] == set.elems()[i as int]);
            assert(rest.drop_first() =~= set.elems().skip(i + 1));
            if let Some(m) = mac_mobility_from_ext_comm(set.nth(i)) {
                return m;
            }
            i += 1;
        }
    }
    EvpnMacMobility { sticky: false, sequence: 0 }
}

/// Which of two mobilities wins: a sticky one over one that is not, else the
/// one with the higher sequence number.
pub open spec fn mobility_decision(route: EvpnMacMobility, best: EvpnMacMobility) -> MacMobilityDecision {
    if route.sticky && !best.sticky {
        MacMobilityDecision::Preferred
    } else if !route.sticky && best.sticky {
        MacMobilityDecision::StickyConflict
    } else if route.sequence > best.sequence {
        MacMobilityDecision::Preferred
    } else if route.sequence < best.sequence {
        MacMobilityDecision::LessPreferred
    } else {
        MacMobilityDecision::Undecided
    }
}

pub fn mac_mobility_decision(route: EvpnMacMobility, best_route: EvpnMacMobility) -> (r: MacMobilityDecision)
    ensures
        r == mobility_decision(route, best_route),
{
    match (route.sticky, best_route.sticky) {
        (true, false) => {
            return MacMobilityDecision::Preferred;
        },
        (false, true) => {
            return MacMobilityDecision::StickyConflict;
        },
        _ => {},
    }
    if route.sequence > best_route.sequence {
        MacMobilityDecision::Preferred
    } else if route.sequence < best_route.sequence {
        MacMobilityDecision::LessPreferred
    } else {
        MacMobilityDecision::Undecided
    }
}

/// How MAC mobility orders two routes for one prefix; it says nothing of
/// prefixes other than MAC/IP advertisements.
pub open spec fn mobility_compare(prefix: EvpnRoute, route: Route, best: Route) -> Option<RouteCompare> {
    if !(prefix is MacIpAdvertisement) {
        None
    } else {
        match mobility_decision(route_mobility(route), route_mobility(best)) {
            MacMobilityDecision::Preferred => Some(
                RouteCompare::Preferred(RouteRejectReason::EvpnMacMobilityLowerSequence),
            ),
            MacMobilityDecision::LessPreferred => Some(
                RouteCompare::LessPreferred(RouteRejectReason::EvpnMacMobilityLowerSequence),
            ),
            MacMobilityDecision::StickyConflict => Some(
                RouteCompare::LessPreferred(RouteRejectReason::EvpnMacMobilitySticky),
            ),
            MacMobilityDecision::Undecided => None,
        }
    }
}

pub fn mac_mobility_compare(prefix: EvpnRoute, route: &Route, best_route: &Route) -> (r: Option<RouteCompare>)
    ensures
        r == mobility_compare(prefix, *route, *best_route),
{
    if !matches!(prefix, EvpnRoute::MacIpAdvertisement(_)) {
        return None;
    }
    match mac_mobility_decision(mac_mobility_from_route(route), mac_mobility_from_route(best_route)) {
        MacMobilityDecision::Preferred => Some(
            RouteCompare::Preferred(RouteRejectReason::EvpnMacMobilityLowerSequence),
        ),
        MacMobilityDecision::LessPreferred => Some(
            RouteCompare::LessPreferred(RouteRejectReason::EvpnMacMobilityLowerSequence),
        ),
        MacMobilityDecision::StickyConflict => Some(
            RouteCompare::LessPreferred(RouteRejectReason::EvpnMacMobilitySticky),
        ),
        MacMobilityDecision::Undecided => None,
    }
}

/// A route that is not sticky never replaces a sticky one.
pub proof fn sticky_is_not_superseded(route: EvpnMacMobility, best: EvpnMacMobility)
    requires
        best.sticky,
        !route.sticky,
    ensures
        mobility_decision(route, best) == MacMobilityDecision::StickyConflict,
        mobility_decision(best, route) == MacMobilityDecision::Preferred,
{
}

/// Of two routes at most one is preferred, and one of them is unless the two
/// have the same mobility.
pub proof fn mobility_is_antisymmetric(a: EvpnMacMobility, b: EvpnMacMobility)
    ensures
        mobility_decision(a, b) == MacMobilityDecision::Preferred <==> (mobility_decision(b, a)
            == MacMobilityDecision::LessPreferred || mobility_decision(b, a) == MacMobilityDecision::StickyConflict),
        mobility_decision(a, b) == MacMobilityDecision::Undecided <==> a == b,
{
}

/// Preference by mobility is transitive.
pub proof fn mobility_is_transitive(a: EvpnMacMobility, b: EvpnMacMobility, c: EvpnMacMobility)
    requires
        mobility_decision(a, b) == MacMobilityDecision::Preferred,
        mobility_decision(b, c) == MacMobilityDecision::Preferred,
    ensures
        mobility_decision(a, c) == MacMobilityDecision::Preferred,
{
}

/// Whether one of the extended communities is the ES-Import route target of a
/// local segment.
pub open spec fn imports_segment(local_esis: Seq<EthernetSegmentId>, ext_comms: Seq<ExtComm>) -> bool {
    exists|i: int, j: int|
        0 <= i < local_esis.len() && 0 <= j < ext_comms.len() && (#[trigger] ext_comms[j]).0@ == es_import_bytes(
            (#[trigger] local_esis[i])@,
        )
}

pub fn has_matching_es_import_rt(local_esis: &[EthernetSegmentId], ext_comms: &[ExtComm]) -> (r: bool)
    ensures
        r == imports_segment(local_esis@, ext_comms@),
{
    let mut i: usize = 0;
    while i < local_esis.len()
        invariant
            i <= local_esis@.len(),
            forall|k: int, j: int|
                0 <= k < i && 0 <= j < ext_comms@.len() ==> (#[trigger] ext_comms@[j]).0@ != es_import_bytes(
                    (#[trigger] local_esis@[k])@,
                ),
        decreases local_esis@.len() - i,
    {
        let rt = evpn_es_import_route_target(local_esis[i]);
        let mut j: usize = 0;
        while j < ext_comms.len()
            invariant
                i < local_esis@.len(),
                j <= ext_comms@.len(),
                rt.0@ == es_import_bytes(local_esis@[i as int]@),
                forall|k: int| 0 <= k < j ==> (#[trigger] ext_comms@[k]).0@ != rt.0@,
            decreases ext_comms@.len() - j,
        {
            let same = rt.same(&ext_comms[j]);
            proof {
                if rt.0@ == ext_comms@[j as int].0@ {
                    assert(rt.0 =~= ext_comms@[j as int].0);
                }
            }
            if same {
                return true;
            }
            j += 1;
        }
        i += 1;
    }
    false
}

/// The moves that are still within the window at a point in time, after the
/// outdated ones at the front are dropped.
pub open spec fn recent_moves<T: Timestamp>(moves: Seq<T>, now: T, window: Duration) -> Seq<T>
    decreases moves.len(),
{
    if moves.len() > 0 && now.nanos_spec() - moves[0].nanos_spec() > window.nanos {
        recent_moves(moves.drop_first(), now, window)
    } else {
        moves
    }
}

impl<T: Timestamp> MacMoveTracker<T> {
    pub fn new(threshold: usize, window: Duration) -> (r: Self)
        ensures
            r.threshold == threshold,
            r.window == window,
            r.moves@ == Seq::<T>::empty(),
            !r.duplicate,
            has_counted(r, Seq::<T>::empty()),
    {
        MacMoveTracker { threshold, window, moves: VecDeque::new(), duplicate: false }
    }

    /// Counts a move, and says whether the address has become a duplicate.
    /// Once it has, it stays one.
    pub fn record_move(&mut self, now: T) -> (r: MacMoveState)
        ensures
            final(self).threshold == old(self).threshold,
            final(self).window == old(self).window,
            final(self).moves@ == recent_moves(old(self).moves@, now, old(self).window).push(now),
            final(self).duplicate == (old(self).duplicate || final(self).moves@.len() >= old(self).threshold),
            r == if final(self).duplicate {
                MacMoveState::Duplicate
            } else {
                MacMoveState::Stable
            },
            forall|times: Seq<T>| #[trigger] has_counted(*old(self), times) ==> has_counted(
                *final(self),
                times.push(now),
            ),
    {
        while self.moves.len() > 0 && now.since(&self.moves[0]).nanos > self.window.nanos
            invariant
                self.threshold == old(self).threshold,
                self.window == old(self).window,
                self.duplicate == old(self).duplicate,
                recent_moves(self.moves@, now, self.window) == recent_moves(old(self).moves@, now, self.window),
            decreases self.moves@.len(),
        {
            let ghost pre = self.moves@;
            let _ = self.moves.pop_front();
            assert(self.moves@ =~= pre.drop_first());
        }
        self.moves.push_back(now);
        if self.moves.len() >= self.threshold {
            self.duplicate = true;
        }
        proof {
            assert forall|times: Seq<T>| #[trigger] has_counted(*old(self), times) implies has_counted(
                *self,
                times.push(now),
            ) by {
                assert(times.push(now).drop_last() =~= times);
                assert(times.push(now).last() == now);
            }
        }
        if self.duplicate {
            MacMoveState::Duplicate
        } else {
            MacMoveState::Stable
        }
    }

    pub fn duplicate(&self) -> (r: bool)
        ensures
            r == self.duplicate,
    {
        self.duplicate
    }
}

impl<T: Timestamp> Default for MacMoveTracker<T> {
    fn default() -> (r: Self)
        ensures
            r.threshold == MAC_DUPLICATE_MOVE_THRESHOLD,
            r.window.nanos == MAC_DUPLICATE_WINDOW * 1_000_000_000,
            r.moves@ == Seq::<T>::empty(),
            !r.duplicate,
    {
        MacMoveTracker::new(MAC_DUPLICATE_MOVE_THRESHOLD, Duration::from_secs(MAC_DUPLICATE_WINDOW))
    }
}

/// The readings come in the order in which they were taken.
pub open spec fn in_time_order<T: Timestamp>(moves: Seq<T>) -> bool {
    forall|i: int, j: int|
        0 <= i <= j < moves.len() ==> (#[trigger] moves[i]).nanos_spec() <= (#[trigger] moves[j]).nanos_spec()
}

/// With a clock that does not run backwards, the moves that are kept are
/// exactly those within the window.
pub proof fn only_recent_moves_count<T: Timestamp>(moves: Seq<T>, now: T, window: Duration)
    requires
        in_time_order(moves),
    ensures
        recent_moves(moves, now, window) == moves.filter(
            |t: T| now.nanos_spec() - t.nanos_spec() <= window.nanos,
        ),
        in_time_order(recent_moves(moves, now, window)),
    decreases moves.len(),
{
    let keep = |t: T| now.nanos_spec() - t.nanos_spec() <= window.nanos;
    if moves.len() > 0 && !keep(moves[0]) {
        let rest = moves.drop_first();
        assert(in_time_order(rest)) by {
            assert forall|i: int, j: int| 0 <= i <= j < rest.len() implies (#[trigger] rest[i]).nanos_spec() <= (
            #[trigger] rest[j]).nanos_spec() by {
                assert(rest[i] == moves[i + 1] && rest[j] == moves[j + 1]);
            }
        }
        only_recent_moves_count(rest, now, window);
        assert(moves =~= seq![moves[0]] + rest);
        Seq::filter_distributes_over_add(seq![moves[0]], rest, keep);
        assert(seq![moves[0]].filter(keep) =~= Seq::<T>::empty()) by {
            let one = seq![moves[0]];
            reveal_with_fuel(Seq::filter, 3);
            assert(one.drop_last() =~= Seq::<T>::empty());
            assert(one.last() == moves[0]);
            assert(!keep(one.last()));
        }
        assert(Seq::<T>::empty() + rest.filter(keep) =~= rest.filter(keep));
    } else {
        assert forall|i: int| 0 <= i < moves.len() implies keep(#[trigger] moves[i]) by {
            assert(moves[0].nanos_spec() <= moves[i].nanos_spec());
        }
        all_kept(moves, keep);
    }
}

proof fn all_kept<T>(s: Seq<T>, keep: spec_fn(T) -> bool)
    requires
        forall|i: int| 0 <= i < s.len() ==> keep(#[trigger] s[i]),
    ensures
        s.filter(keep) == s,
    decreases s.len(),
{
    reveal(Seq::filter);
    if s.len() > 0 {
        let init = s.drop_last();
        assert forall|i: int| 0 <= i < init.len() implies keep(#[trigger] init[i]) by {
            assert(init[i] == s[i]);
        }
        all_kept(init, keep);
        assert(keep(s.last()));
        assert(s =~= init.push(s.last()));
    }
}

/// The moves that a tracker keeps after several moves were counted in turn.
pub open spec fn kept_moves<T: Timestamp>(times: Seq<T>, window: Duration) -> Seq<T>
    decreases times.len(),
{
    if times.len() == 0 {
        Seq::empty()
    } else {
        recent_moves(kept_moves(times.drop_last(), window), times.last(), window).push(times.last())
    }
}

/// Whether a tracker has flagged a duplicate after several moves were counted
/// in turn.
pub open spec fn flagged<T: Timestamp>(times: Seq<T>, threshold: usize, window: Duration) -> bool
    decreases times.len(),
{
    times.len() > 0 && (flagged(times.drop_last(), threshold, window) || kept_moves(times, window).len() >= threshold)
}

/// A tracker that was new and has counted some moves.
pub open spec fn has_counted<T: Timestamp>(tracker: MacMoveTracker<T>, times: Seq<T>) -> bool {
    tracker.moves@ == kept_moves(times, tracker.window) && tracker.duplicate == flagged(
        times,
        tracker.threshold,
        tracker.window,
    )
}

/// Whether `n` moves in a row lie within one window.
pub open spec fn crowded<T: Timestamp>(times: Seq<T>, n: int, window: Duration) -> bool {
    exists|i: int|
        0 <= i && i + n <= times.len() && times[i + n - 1].nanos_spec() - (#[trigger] times[i]).nanos_spec()
            <= window.nanos
}

proof fn recent_is_tail<T: Timestamp>(s: Seq<T>, now: T, window: Duration) -> (d: int)
    ensures
        0 <= d <= s.len(),
        recent_moves(s, now, window) == s.skip(d),
        forall|j: int| 0 <= j < d ==> now.nanos_spec() - (#[trigger] s[j]).nanos_spec() > window.nanos,
        d < s.len() ==> now.nanos_spec() - s[d].nanos_spec() <= window.nanos,
    decreases s.len(),
{
    if s.len() > 0 && now.nanos_spec() - s[0].nanos_spec() > window.nanos {
        let rest = s.drop_first();
        let d = recent_is_tail(rest, now, window);
        assert(rest.skip(d) =~= s.skip(d + 1));
        assert forall|j: int| 0 <= j < d + 1 implies now.nanos_spec() - (#[trigger] s[j]).nanos_spec()
            > window.nanos by {
            if j > 0 {
                assert(s[j] == rest[j - 1]);
            }
        }
        if d + 1 < s.len() {
            assert(s[d + 1] == rest[d]);
        }
        d + 1
    } else {
        assert(s.skip(0) =~= s);
        0
    }
}

proof fn kept_is_tail<T: Timestamp>(times: Seq<T>, window: Duration) -> (k: int)
    requires
        in_time_order(times),
        times.len() > 0,
    ensures
        0 <= k < times.len(),
        kept_moves(times, window) == times.skip(k),
        forall|j: int|
            0 <= j < k ==> times.last().nanos_spec() - (#[trigger] times[j]).nanos_spec() > window.nanos,
        times.last().nanos_spec() - times[k].nanos_spec() <= window.nanos,
    decreases times.len(),
{
    let init = times.drop_last();
    let now = times.last();
    assert(now == times[times.len() - 1]);
    assert(in_time_order(init)) by {
        assert forall|i: int, j: int| 0 <= i <= j < init.len() implies (#[trigger] init[i]).nanos_spec() <= (
        #[trigger] init[j]).nanos_spec() by {
            assert(init[i] == times[i] && init[j] == times[j]);
        }
    }
    if init.len() == 0 {
        assert(kept_moves(init, window) =~= Seq::<T>::empty());
        assert(recent_moves(Seq::<T>::empty(), now, window) =~= Seq::<T>::empty());
        assert(kept_moves(times, window) =~= times.skip(0));
        0
    } else {
        let k0 = kept_is_tail(init, window);
        let s = init.skip(k0);
        let d = recent_is_tail(s, now, window);
        let k = k0 + d;
        assert(s.skip(d).push(now) =~= times.skip(k));
        assert forall|j: int| 0 <= j < k implies now.nanos_spec() - (#[trigger] times[j]).nanos_spec()
            > window.nanos by {
            if j < k0 {
                assert(init[j] == times[j]);
                assert(times[init.len() - 1].nanos_spec() <= times[times.len() - 1].nanos_spec());
            } else {
                assert(s[j - k0] == times[j]);
            }
        }
        if d < s.len() {
            assert(s[d] == times[k]);
        }
        k
    }
}

/// Over a whole sequence of moves, with a clock that does not run backwards, a
/// duplicate is flagged exactly if as many moves as the threshold asks for lie
/// within one window. A threshold of 0 is reached by the first move.
#[verifier::spinoff_prover]
#[verifier::rlimit(50)]
pub proof fn flag_means_crowded<T: Timestamp>(times: Seq<T>, threshold: usize, window: Duration)
    requires
        in_time_order(times),
    ensures
        flagged(times, threshold, window) <==> crowded(
            times,
            if threshold == 0 {
                1
            } else {
                threshold as int
            },
            window,
        ),
    decreases times.len(),
{
    let n: int = if threshold == 0 {
        1
    } else {
        threshold as int
    };
    if times.len() > 0 {
        let init = times.drop_last();
        let len = times.len() as int;
        assert(in_time_order(init)) by {
            assert forall|i: int, j: int| 0 <= i <= j < init.len() implies (#[trigger] init[i]).nanos_spec() <= (
            #[trigger] init[j]).nanos_spec() by {
                assert(init[i] == times[i] && init[j] == times[j]);
            }
        }
        flag_means_crowded(init, threshold, window);
        let k = kept_is_tail(times, window);
        assert(kept_moves(times, window).len() == len - k);
        assert(crowded(init, n, window) ==> crowded(times, n, window)) by {
            if crowded(init, n, window) {
                let i = choose|i: int|
                    0 <= i && i + n <= init.len() && init[i + n - 1].nanos_spec() - (
                    #[trigger] init[i]).nanos_spec() <= window.nanos;
                assert(times[i] == init[i] && times[i + n - 1] == init[i + n - 1]);
            }
        }
        assert(len - k >= n ==> crowded(times, n, window)) by {
            if len - k >= n {
                let i = len - n;
                assert(times[k].nanos_spec() <= times[i].nanos_spec());
                assert(times[i + n - 1] == times.last());
                assert(times[i + n - 1].nanos_spec() - times[i].nanos_spec() <= window.nanos);
            }
        }
        assert(crowded(times, n, window) && !crowded(init, n, window) ==> len - k >= n) by {
            if crowded(times, n, window) && !crowded(init, n, window) {
                let i = choose|i: int|
                    0 <= i && i + n <= times.len() && times[i + n - 1].nanos_spec() - (
                    #[trigger] times[i]).nanos_spec() <= window.nanos;
                if i + n <= init.len() {
                    assert(times[i] == init[i] && times[i + n - 1] == init[i + n - 1]);
                }
                assert(i == len - n);
                assert(times[i + n - 1] == times.last());
            }
        }
    }
}

/// The routers attached to a segment.
pub open spec fn df_candidates(self_originator: IpAddr, remotes: Seq<IpAddr>) -> Set<IpAddr> {
    remotes.to_set().insert(self_originator)
}

/// Whether `s` lists the members of `candidates` in order, each once.
pub open spec fn lists_in_order(s: Seq<IpAddr>, candidates: Set<IpAddr>) -> bool {
    &&& forall|i: int, j: int| 0 <= i < j < s.len() ==> IpAddr::before(#[trigger] s[i], #[trigger] s[j])
    &&& forall|a: IpAddr| #[trigger] candidates.contains(a) <==> s.contains(a)
}

/// The candidate whose position in the order of addresses is the VLAN modulo
/// the number of candidates.
pub open spec fn forwarder(candidates: Set<IpAddr>, vlan: u16) -> IpAddr {
    let s = choose|s: Seq<IpAddr>| lists_in_order(s, candidates);
    s[vlan as int % s.len() as int]
}

/// Elects the designated forwarder of a segment for a VLAN.
pub fn elect_df(self_originator: IpAddr, remote_originators: &[IpAddr], vlan: u16) -> (r: Option<DfElection>)
    ensures
        r == if vlan > VLAN_MAX {
            None
        } else {
            let df = forwarder(df_candidates(self_originator, remote_originators@), vlan);
            Some(DfElection { df, self_is_df: df == self_originator })
        },
{
    if vlan > VLAN_MAX {
        return None;
    }
    let mut candidates: SortedSet<IpAddr> = SortedSet::new();
    candidates.insert(self_originator);
    let mut i: usize = 0;
    assert(remote_originators@.take(0).to_set() =~= Set::<IpAddr>::empty());
    assert(candidates@ =~= df_candidates(self_originator, remote_originators@.take(0)));
    while i < remote_originators.len()
        invariant
            i <= remote_originators@.len(),
            candidates.wf(),
            candidates@ == df_candidates(self_originator, remote_originators@.take(i as int)),
        decreases remote_originators@.len() - i,
    {
        candidates.insert(remote_originators[i]);
        proof {
            let pre = remote_originators@.take(i as int);
            let cur = remote_originators@.take(i + 1);
            assert(cur =~= pre.push(remote_originators@[i as int]));
            pushed_set(pre, remote_originators@[i as int]);
            assert(candidates@ =~= df_candidates(self_originator, cur));
        }
        i += 1;
    }
    assert(remote_originators@.take(i as int) =~= remote_originators@);
    proof {
        elems_are_set(candidates);
        assert(candidates@.contains(self_originator));
        assert(candidates.elems().contains(self_originator));
        listed_in_order(candidates);
        forwarder_is_listed(candidates.elems(), candidates@, vlan);
    }
    let n: usize = candidates.len();
    let ordinal: usize = vlan as usize % n;
    let df = *candidates.nth(ordinal);
    Some(DfElection { df, self_is_df: df == self_originator })
}

proof fn listed_in_order(set: SortedSet<IpAddr>)
    requires
        set.wf(),
    ensures
        lists_in_order(set.elems(), set@),
{
    elems_are_set(set);
    let t = set.elems();
    assert forall|i: int, j: int| 0 <= i < j < t.len() implies IpAddr::before(#[trigger] t[i], #[trigger] t[j]) by {
        assert(IpAddr::before(set.items.entries@[i].0@, set.items.entries@[j].0@));
    }
}

/// Any ordered listing of the candidates gives the forwarder.
pub proof fn forwarder_is_listed(s: Seq<IpAddr>, candidates: Set<IpAddr>, vlan: u16)
    requires
        lists_in_order(s, candidates),
    ensures
        forwarder(candidates, vlan) == s[vlan as int % s.len() as int],
{
    let t = choose|t: Seq<IpAddr>| lists_in_order(t, candidates);
    assert forall|k: IpAddr| #[trigger] s.contains(k) <==> t.contains(k) by {
        assert(candidates.contains(k) <==> s.contains(k));
        assert(candidates.contains(k) <==> t.contains(k));
    }
    one_order::<IpAddr>(s, t);
}

/// Addresses can be listed in order, each once.
proof fn listing_exists(s: Seq<IpAddr>) -> (l: Seq<IpAddr>)
    ensures
        lists_in_order(l, s.to_set()),
    decreases s.len(),
{
    if s.len() == 0 {
        let l = Seq::<IpAddr>::empty();
        assert forall|a: IpAddr| #[trigger] s.to_set().contains(a) <==> l.contains(a) by {}
        l
    } else {
        let rest = s.drop_last();
        let x = s.last();
        let l0 = listing_exists(rest);
        assert(s =~= rest.push(x));
        pushed_set(rest, x);
        if l0.contains(x) {
            assert(rest.to_set().contains(x));
            assert(s.to_set() =~= rest.to_set());
            l0
        } else {
            let n = below_count(l0, x);
            below_count_parts(l0, x);
            let l = l0.insert(n, x);
            assert forall|i: int, j: int| 0 <= i < j < l.len() implies IpAddr::before(
                #[trigger] l[i],
                #[trigger] l[j],
            ) by {
                let i0 = if i < n { i } else { i - 1 };
                let j0 = if j < n { j } else { j - 1 };
                if i != n && j != n {
                    assert(IpAddr::before(l0[i0], l0[j0]));
                } else if i == n {
                    assert(!IpAddr::before(l0[j0], x));
                    assert(l0.contains(l0[j0]));
                    IpAddr::total(l0[j0], x);
                }
            }
            assert forall|a: IpAddr| #[trigger] s.to_set().contains(a) <==> l.contains(a) by {
                assert(l[n] == x);
                if l0.contains(a) {
                    let i = choose|i: int| 0 <= i < l0.len() && l0[i] == a;
                    assert(l[if i < n { i } else { i + 1 }] == a);
                }
                if l.contains(a) && a != x {
                    let i = choose|i: int| 0 <= i < l.len() && l[i] == a;
                    assert(l0[if i < n { i } else { i - 1 }] == a);
                }
                assert(rest.to_set().contains(a) <==> l0.contains(a));
            }
            l
        }
    }
}

/// How many leading addresses come before one.
spec fn below_count(s: Seq<IpAddr>, x: IpAddr) -> int
    decreases s.len(),
{
    if s.len() == 0 {
        0
    } else if IpAddr::before(s.last(), x) {
        s.len() as int
    } else {
        below_count(s.drop_last(), x)
    }
}

proof fn below_count_parts(s: Seq<IpAddr>, x: IpAddr)
    requires
        forall|i: int, j: int| 0 <= i < j < s.len() ==> IpAddr::before(#[trigger] s[i], #[trigger] s[j]),
    ensures
        0 <= below_count(s, x) <= s.len(),
        forall|i: int| 0 <= i < below_count(s, x) ==> IpAddr::before(#[trigger] s[i], x),
        forall|i: int| below_count(s, x) <= i < s.len() ==> !IpAddr::before(#[trigger] s[i], x),
    decreases s.len(),
{
    if s.len() > 0 {
        let t = s.drop_last();
        assert forall|i: int, j: int| 0 <= i < j < t.len() implies IpAddr::before(#[trigger] t[i], #[trigger] t[j]) by {
            assert(t[i] == s[i] && t[j] == s[j]);
        }
        below_count_parts(t, x);
        if IpAddr::before(s.last(), x) {
            assert forall|i: int| 0 <= i < s.len() implies IpAddr::before(#[trigger] s[i], x) by {
                if i < s.len() - 1 {
                    assert(IpAddr::before(s[i], s[s.len() - 1]));
                }
            }
        } else {
            assert forall|i: int| 0 <= i < below_count(s, x) implies IpAddr::before(#[trigger] s[i], x) by {
                assert(t[i] == s[i]);
            }
            assert forall|i: int| below_count(s, x) <= i < s.len() implies !IpAddr::before(#[trigger] s[i], x) by {
                if i < s.len() - 1 {
                    assert(t[i] == s[i]);
                }
            }
        }
    }
}

/// The routers attached to a segment elect the same forwarder, however each of
/// them lists the others, and it is one of them: exactly one finds itself
/// elected.
pub proof fn one_forwarder(a: IpAddr, remotes_of_a: Seq<IpAddr>, b: IpAddr, remotes_of_b: Seq<IpAddr>, vlan: u16)
    requires
        df_candidates(a, remotes_of_a) == df_candidates(b, remotes_of_b),
    ensures
        forwarder(df_candidates(a, remotes_of_a), vlan) == forwarder(df_candidates(b, remotes_of_b), vlan),
        df_candidates(a, remotes_of_a).contains(forwarder(df_candidates(a, remotes_of_a), vlan)),
{
    let c = df_candidates(a, remotes_of_a);
    pushed_set(remotes_of_a, a);
    let l = listing_exists(remotes_of_a.push(a));
    assert(lists_in_order(l, c));
    assert(c.contains(a));
    assert(l.contains(a));
    forwarder_is_listed(l, c, vlan);
    let k = vlan as int % l.len() as int;
    assert(0 <= k < l.len());
    assert(l.contains(l[k]));
}

/// A listing has as many addresses as there are candidates.
proof fn listing_length(l: Seq<IpAddr>, candidates: Set<IpAddr>)
    requires
        lists_in_order(l, candidates),
    ensures
        l.no_duplicates(),
        l.len() == candidates.len(),
{
    assert forall|i: int, j: int| 0 <= i < l.len() && 0 <= j < l.len() && i != j implies l[i] != l[j] by {
        IpAddr::irreflexive(l[i]);
        if i < j {
            assert(IpAddr::before(l[i], l[j]));
        } else {
            assert(IpAddr::before(l[j], l[i]));
        }
    }
    l.unique_seq_to_set();
    assert(l.to_set() =~= candidates);
}

/// Two numbers less than `n` apart leave different remainders.
proof fn remainders_differ(v: int, w: int, n: int)
    requires
        0 <= v < w < v + n,
    ensures
        v % n != w % n,
{
    lemma_fundamental_div_mod(v, n);
    lemma_fundamental_div_mod(w, n);
    if v % n == w % n {
        let (p, q) = (v / n, w / n);
        assert(w - v == n * q - n * p);
        assert(n * q - n * p == n * (q - p)) by (nonlinear_arith);
        assert(!(0 < n * (q - p) < n)) by (nonlinear_arith)
            requires
                n > 0,
        ;
    }
}

/// As many consecutive VLANs as there are routers attached to a segment elect
/// each of them exactly once.
pub proof fn consecutive_vlans_take_turns(self_originator: IpAddr, remotes: Seq<IpAddr>, first: u16, a: IpAddr)
    requires
        first + df_candidates(self_originator, remotes).len() <= VLAN_MAX + 1,
        df_candidates(self_originator, remotes).contains(a),
    ensures
        exists|v: u16|
            first <= v < first + df_candidates(self_originator, remotes).len() && #[trigger] forwarder(
                df_candidates(self_originator, remotes),
                v,
            ) == a,
        forall|v: u16, w: u16|
            first <= v < w < first + df_candidates(self_originator, remotes).len() ==> #[trigger] forwarder(
                df_candidates(self_originator, remotes),
                v,
            ) != #[trigger] forwarder(df_candidates(self_originator, remotes), w),
{
    let c = df_candidates(self_originator, remotes);
    pushed_set(remotes, self_originator);
    let l = listing_exists(remotes.push(self_originator));
    assert(lists_in_order(l, c));
    listing_length(l, c);
    assert(l.contains(a));
    let n = l.len() as int;
    let i = choose|i: int| 0 <= i < l.len() && l[i] == a;
    // The VLAN at or after the first one whose remainder is the position.
    let r = first as int % n;
    let q = first as int / n;
    lemma_fundamental_div_mod(first as int, n);
    let k = if i >= r {
        i - r
    } else {
        i - r + n
    };
    let v = (first + k) as u16;
    let p = if i >= r {
        q
    } else {
        q + 1
    };
    assert(n * (q + 1) == n * q + n) by (nonlinear_arith);
    assert(v == n * p + i);
    assert(n * p == p * n) by (nonlinear_arith);
    lemma_fundamental_div_mod_converse(v as int, n, p, i);
    forwarder_is_listed(l, c, v);
    assert(forwarder(c, v) == a);
    assert forall|v: u16, w: u16| first <= v < w < first + c.len() implies #[trigger] forwarder(c, v)
        != #[trigger] forwarder(c, w) by {
        remainders_differ(v as int, w as int, n);
        forwarder_is_listed(l, c, v);
        forwarder_is_listed(l, c, w);
        assert(0 <= v as int % n < n && 0 <= w as int % n < n);
    }
}

proof fn pushed_set<V>(s: Seq<V>, x: V)
    ensures
        s.push(x).to_set() == s.to_set().insert(x),
{
    assert forall|y: V| #[trigger] s.push(x).to_set().contains(y) <==> s.to_set().insert(x).contains(y) by {
        if s.contains(y) {
            let i = choose|i: int| 0 <= i < s.len() && s[i] == y;
            assert(s.push(x)[i] == y);
        }
        assert(s.push(x)[s.len() as int] == x);
        if s.push(x).contains(y) {
            let i = choose|i: int| 0 <= i < s.push(x).len() && s.push(x)[i] == y;
            if i < s.len() {
                assert(s[i] == y);
            }
        }
    }
    assert(s.push(x).to_set() =~= s.to_set().insert(x));
}

/// A route is withdrawn with its segment if both its peer and its segment are
/// those withdrawn.
pub fn mass_withdraw_match(
    route_peer: IpAddr,
    route_esi: EthernetSegmentId,
    withdrawn_peer: IpAddr,
    withdrawn_esi: EthernetSegmentId,
) -> (r: bool)
    ensures
        r == (route_peer == withdrawn_peer && route_esi@ == withdrawn_esi@),
{
    route_peer == withdrawn_peer && same_esi(&route_esi, &withdrawn_esi)
}

fn same_esi(a: &EthernetSegmentId, b: &EthernetSegmentId) -> (r: bool)
    ensures
        r == (a@ == b@),
{
    let mut i: usize = 0;
    while i < 10
        invariant
            i <= 10,
            forall|j: int| 0 <= j < i ==> #[trigger] a@[j] == b@[j],
        decreases 10 - i,
    {
        if a[i] != b[i] {
            return false;
        }
        i += 1;
    }
    assert(a@ =~= b@);
    true
}

/// Whether a route from a peer is withdrawn with a segment of that peer.
pub open spec fn is_mass_withdrawn(entry: (IpAddr, EvpnRoute), peer: IpAddr, esi: Seq<u8>) -> bool {
    match entry.1 {
        EvpnRoute::MacIpAdvertisement(mac) => entry.0 == peer && mac.esi@ == esi,
        _ => false,
    }
}

/// The routes that are withdrawn with a segment, in their order.
pub open spec fn mass_withdrawn(routes: Seq<(IpAddr, EvpnRoute)>, peer: IpAddr, esi: Seq<u8>) -> Seq<EvpnRoute>
    decreases routes.len(),
{
    if routes.len() == 0 {
        Seq::empty()
    } else {
        let rest = mass_withdrawn(routes.drop_last(), peer, esi);
        if is_mass_withdrawn(routes.last(), peer, esi) {
            rest.push(routes.last().1)
        } else {
            rest
        }
    }
}

pub fn mass_withdraw_mac_routes(
    routes: &[(IpAddr, EvpnRoute)],
    withdrawn_peer: IpAddr,
    withdrawn_esi: EthernetSegmentId,
) -> (r: Vec<EvpnRoute>)
    ensures
        r@ == mass_withdrawn(routes@, withdrawn_peer, withdrawn_esi@),
{
    let mut r: Vec<EvpnRoute> = Vec::new();
    let mut i: usize = 0;
    assert(routes@.take(0) =~= Seq::<(IpAddr, EvpnRoute)>::empty());
    while i < routes.len()
        invariant
            i <= routes@.len(),
            r@ == mass_withdrawn(routes@.take(i as int), withdrawn_peer, withdrawn_esi@),
        decreases routes@.len() - i,
    {
        assert(routes@.take(i + 1).drop_last() =~= routes@.take(i as int));
        assert(routes@.take(i + 1).last() == routes@[i as int]);
        let peer = routes[i].0;
        let route = routes[i].1;
        if let EvpnRoute::MacIpAdvertisement(mac) = route {
            if mass_withdraw_match(peer, mac.esi, withdrawn_peer, withdrawn_esi) {
                r.push(route);
            }
        }
        i += 1;
    }
    assert(routes@.take(i as int) =~= routes@);
    r
}

/// A mass withdrawal selects exactly the MAC/IP advertisements of the peer and
/// the segment.
pub proof fn mass_withdraw_is_exact(routes: Seq<(IpAddr, EvpnRoute)>, peer: IpAddr, esi: Seq<u8>, route: EvpnRoute)
    ensures
        mass_withdrawn(routes, peer, esi).contains(route) <==> exists|i: int|
            0 <= i < routes.len() && (#[trigger] routes[i]).1 == route && is_mass_withdrawn(routes[i], peer, esi),
    decreases routes.len(),
{
    let w = mass_withdrawn(routes, peer, esi);
    if routes.len() > 0 {
        let init = routes.drop_last();
        mass_withdraw_is_exact(init, peer, esi, route);
        let w0 = mass_withdrawn(init, peer, esi);
        let last = routes.last();
        if w0.contains(route) {
            let i = choose|i: int|
                0 <= i < init.len() && (#[trigger] init[i]).1 == route && is_mass_withdrawn(init[i], peer, esi);
            assert(routes[i] == init[i]);
            let k = choose|k: int| 0 <= k < w0.len() && w0[k] == route;
            assert(w[k] == route);
        }
        if is_mass_withdrawn(last, peer, esi) {
            assert(w[w0.len() as int] == last.1);
            assert(routes[routes.len() - 1] == last);
        }
        if w.contains(route) && !w0.contains(route) {
            let k = choose|k: int| 0 <= k < w.len() && w[k] == route;
            if k < w0.len() {
                assert(w0[k] == route);
            }
            assert(routes[routes.len() - 1].1 == route);
        }
        if exists|i: int|
            0 <= i < routes.len() && (#[trigger] routes[i]).1 == route && is_mass_withdrawn(routes[i], peer, esi) {
            let i = choose|i: int|
                0 <= i < routes.len() && (#[trigger] routes[i]).1 == route && is_mass_withdrawn(routes[i], peer, esi);
            if i < init.len() {
                assert(init[i].1 == route);
            }
        }
    }
}

}
