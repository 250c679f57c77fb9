//! Processing of UPDATE messages.
use crate::af::AddressFamily;
use crate::af::Ipv4Unicast;
use crate::af::Ipv6Unicast;
use crate::af::Vpnv4Prefix;
use crate::af::Vpnv6Prefix;
use crate::attribute::Attrs;
use crate::attribute::BaseAttrs;
use crate::bgp::AfiSafi;
use crate::events::apply_models;
use crate::events::evpn_withdrawn;
use crate::events::import_request;
use crate::events::import_routes;
use crate::events::learned_all;
use crate::events::limit_exceeded;
use crate::events::nbr_origin;
use crate::events::nbr_route_type;
use crate::events::process_evpn_unreach_routes;
use crate::events::process_nbr_reach_prefixes;
use crate::events::process_nbr_reach_prefixes_pre_policy;
use crate::events::process_nbr_unreach_prefixes;
use crate::events::received_all;
use crate::events::received_info;
use crate::events::unlabeled;
use crate::events::withdrawn_all;
use crate::events::InState;
use crate::events::PolicyApplyModel;
use crate::events::PolicyApplyMsg;
use crate::events::ReachOutcome;
use crate::ip::IpAddr;
use crate::ip::Ipv4Network;
use crate::ip::Ipv6Addr;
use crate::ip::Ipv6Network;
use crate::message::EvpnRoute;
use crate::message::LabeledVpnIpv4Nlri;
use crate::message::LabeledVpnIpv6Nlri;
use crate::message::MpReachModel;
use crate::message::MpReachNlri;
use crate::message::MpUnreachModel;
use crate::message::MpUnreachNlri;
use crate::message::UpdateModel;
use crate::message::UpdateMsg;
use crate::neighbor::Neighbor;
use crate::neighbor::State;
use crate::ord::Ranked;
use crate::path::ids_of;
use crate::path::paths_of;
use crate::path::to_paths;
use crate::path::Path;
use crate::protocol::Label;
use crate::rib::same_tracking;
use crate::rib::NexthopOp;
use crate::rib::Route;
use crate::rib::RoutingTable;
use crate::rib::RoutingTables;
use crate::shared::InstanceShared;
use vstd::prelude::*;

verus! {

/// What is left to do after an UPDATE message: requests to the policy engine,
/// and changes to the tracking of next hops in each address family.
pub struct UpdateEffects {
    pub policy: Vec<PolicyApplyMsg>,
    pub ipv4: Vec<NexthopOp<Ipv4Network>>,
    pub ipv6: Vec<NexthopOp<Ipv6Network>>,
    pub vpnv4: Vec<NexthopOp<Vpnv4Prefix>>,
    pub vpnv6: Vec<NexthopOp<Vpnv6Prefix>>,
    pub evpn: Vec<NexthopOp<EvpnRoute>>,
}

/// The routing tables and what is left to do.
pub struct SessionState {
    pub ipv4: InState<Ipv4Network>,
    pub ipv6: InState<Ipv6Network>,
    pub vpnv4: InState<Vpnv4Prefix>,
    pub vpnv6: InState<Vpnv6Prefix>,
    pub evpn: InState<EvpnRoute>,
    pub policy: Seq<PolicyApplyModel>,
}

pub open spec fn session_state(tables: RoutingTables, fx: UpdateEffects) -> SessionState {
    SessionState {
        ipv4: InState { table: tables.ipv4_unicast@, ops: fx.ipv4@ },
        ipv6: InState { table: tables.ipv6_unicast@, ops: fx.ipv6@ },
        vpnv4: InState { table: tables.vpnv4_unicast@, ops: fx.vpnv4@ },
        vpnv6: InState { table: tables.vpnv6_unicast@, ops: fx.vpnv6@ },
        evpn: InState { table: tables.l2vpn_evpn@, ops: fx.evpn@ },
        policy: apply_models(fx.policy@),
    }
}

impl UpdateEffects {
    /// Nothing to do.
    pub fn new() -> (r: Self)
        ensures
            r.policy@.len() == 0,
            r.ipv4@.len() == 0,
            r.ipv6@.len() == 0,
            r.vpnv4@.len() == 0,
            r.vpnv6@.len() == 0,
            r.evpn@.len() == 0,
    {
        UpdateEffects {
            policy: Vec::new(),
            ipv4: Vec::new(),
            ipv6: Vec::new(),
            vpnv4: Vec::new(),
            vpnv6: Vec::new(),
            evpn: Vec::new(),
        }
    }
}

/// Attributes with another next hop.
pub open spec fn with_nexthop(attrs: Attrs, nexthop: IpAddr) -> Attrs {
    Attrs { base: BaseAttrs { nexthop: Some(nexthop), ..attrs.base }, ..attrs }
}

/// Attributes with another global and link-local next hop.
pub open spec fn with_nexthops(attrs: Attrs, nexthop: IpAddr, ll_nexthop: Option<Ipv6Addr>) -> Attrs {
    Attrs { base: BaseAttrs { nexthop: Some(nexthop), ll_nexthop, ..attrs.base }, ..attrs }
}

/// The state of a family with policies after prefixes are received: its
/// table, the requests to the policy engine, and whether the prefix limit was
/// exceeded.
pub open spec fn reach_effect<A: AddressFamily>(
    s: InState<A::Prefix>,
    policy: Seq<PolicyApplyModel>,
    nbr: Neighbor,
    ps: Seq<Path<A::Prefix>>,
    attrs: Attrs,
    shared: InstanceShared,
) -> (InState<A::Prefix>, Seq<PolicyApplyModel>, bool) {
    if !nbr.af_in_use(A::afi_safi_spec()) {
        (s, policy, false)
    } else if limit_exceeded(nbr, s.table, A::afi_safi_spec(), ps) {
        (s, policy, true)
    } else {
        (
            InState {
                table: received_all(
                    s.table,
                    nbr.remote_addr,
                    ps,
                    Route::new_spec(nbr_origin(nbr), attrs, nbr_route_type(nbr)),
                ),
                ..s
            },
            policy.push(
                import_request::<A>(nbr, import_routes::<A>(ps, received_info(nbr, attrs)), ids_of(ps), shared),
            ),
            false,
        )
    }
}

/// The state of a family without policies after prefixes are received, and
/// whether the prefix limit was exceeded.
pub open spec fn labeled_effect<P>(
    s: InState<P>,
    nbr: Neighbor,
    afi_safi: AfiSafi,
    ps: Seq<(Path<P>, Label)>,
    attrs: Attrs,
) -> (InState<P>, bool) {
    if !nbr.af_in_use(afi_safi) {
        (s, false)
    } else if limit_exceeded(nbr, s.table, afi_safi, unlabeled(ps)) {
        (s, true)
    } else {
        (
            learned_all(
                s,
                nbr.remote_addr,
                ps,
                Route::new_spec(nbr_origin(nbr), attrs, nbr_route_type(nbr)),
            ),
            false,
        )
    }
}

/// The state of a family after prefixes are withdrawn.
pub open spec fn unreach_effect<P>(s: InState<P>, nbr: Neighbor, afi_safi: AfiSafi, ps: Seq<Path<P>>) -> InState<P> {
    if nbr.af_in_use(afi_safi) {
        withdrawn_all(s, nbr.remote_addr, ps)
    } else {
        s
    }
}

/// Prefixes with the path identifiers that go with them, if the neighbor sends
/// identifiers in the address family.
pub open spec fn rx_paths<P>(nbr: Neighbor, afi_safi: AfiSafi, ps: Seq<P>, ids: Seq<u32>) -> Seq<Path<P>> {
    paths_of(nbr.receives_paths(afi_safi), ps, ids)
}

/// The VPN prefixes of reachability information.
pub open spec fn vpnv4_prefixes(ps: Seq<LabeledVpnIpv4Nlri>) -> Seq<Vpnv4Prefix> {
    Seq::new(ps.len(), |i: int| Vpnv4Prefix { rd: ps[i].rd, prefix: ps[i].prefix })
}

/// The VPN prefixes of reachability information.
pub open spec fn vpnv6_prefixes(ps: Seq<LabeledVpnIpv6Nlri>) -> Seq<Vpnv6Prefix> {
    Seq::new(ps.len(), |i: int| Vpnv6Prefix { rd: ps[i].rd, prefix: ps[i].prefix })
}

/// The labels of reachability information.
pub open spec fn vpnv4_labels(ps: Seq<LabeledVpnIpv4Nlri>) -> Seq<Label> {
    Seq::new(ps.len(), |i: int| Label(ps[i].label))
}

/// The labels of reachability information.
pub open spec fn vpnv6_labels(ps: Seq<LabeledVpnIpv6Nlri>) -> Seq<Label> {
    Seq::new(ps.len(), |i: int| Label(ps[i].label))
}

/// EVPN routes are kept without a label of their own.
pub open spec fn evpn_labels(ps: Seq<EvpnRoute>) -> Seq<Label> {
    Seq::new(ps.len(), |i: int| Label(0))
}

/// Paths with the labels that go with them.
pub open spec fn labeled_paths<P>(paths: Seq<Path<P>>, labels: Seq<Label>) -> Seq<(Path<P>, Label)> {
    Seq::new(paths.len(), |i: int| (paths[i], labels[i]))
}

/// The effect of IPv4 prefixes in the message itself: they are received with
/// the attributes, or withdrawn where there are none.
pub open spec fn reach_step(s: SessionState, nbr: Neighbor, msg: UpdateModel, shared: InstanceShared) -> (
    SessionState,
    bool,
) {
    match (msg.reach, msg.attrs) {
        (Some((ps, ids, nexthop)), Some(attrs)) => {
            let (ipv4, policy, exceeded) = reach_effect::<Ipv4Unicast>(
                s.ipv4,
                s.policy,
                nbr,
                rx_paths(nbr, AfiSafi::Ipv4Unicast, ps, ids),
                with_nexthop(attrs, IpAddr::V4(nexthop)),
                shared,
            );
            (SessionState { ipv4, policy, ..s }, exceeded)
        },
        (Some((ps, ids, _)), None) => (
            SessionState {
                ipv4: unreach_effect(
                    s.ipv4,
                    nbr,
                    AfiSafi::Ipv4Unicast,
                    rx_paths(nbr, AfiSafi::Ipv4Unicast, ps, ids),
                ),
                ..s
            },
            false,
        ),
        (None, _) => (s, false),
    }
}

/// The effect of reachable prefixes of some address family.
pub open spec fn mp_reach_step(s: SessionState, nbr: Neighbor, msg: UpdateModel, shared: InstanceShared) -> (
    SessionState,
    bool,
) {
    match (msg.mp_reach, msg.attrs) {
        (Some(MpReachModel::Ipv4Unicast { prefixes, path_ids, nexthop }), Some(attrs)) => {
            let (ipv4, policy, exceeded) = reach_effect::<Ipv4Unicast>(
                s.ipv4,
                s.policy,
                nbr,
                rx_paths(nbr, AfiSafi::Ipv4Unicast, prefixes, path_ids),
                with_nexthop(attrs, IpAddr::V4(nexthop)),
                shared,
            );
            (SessionState { ipv4, policy, ..s }, exceeded)
        },
        (Some(MpReachModel::Ipv6Unicast { prefixes, path_ids, nexthop, ll_nexthop }), Some(attrs)) => {
            let (ipv6, policy, exceeded) = reach_effect::<Ipv6Unicast>(
                s.ipv6,
                s.policy,
                nbr,
                rx_paths(nbr, AfiSafi::Ipv6Unicast, prefixes, path_ids),
                with_nexthops(attrs, IpAddr::V6(nexthop), ll_nexthop),
                shared,
            );
            (SessionState { ipv6, policy, ..s }, exceeded)
        },
        (Some(MpReachModel::L3vpnIpv4Unicast { prefixes, path_ids, nexthop }), Some(attrs)) => {
            let (vpnv4, exceeded) = labeled_effect(
                s.vpnv4,
                nbr,
                AfiSafi::L3vpnIpv4Unicast,
                labeled_paths(
                    rx_paths(nbr, AfiSafi::L3vpnIpv4Unicast, vpnv4_prefixes(prefixes), path_ids),
                    vpnv4_labels(prefixes),
                ),
                with_nexthop(attrs, IpAddr::V4(nexthop)),
            );
            (SessionState { vpnv4, ..s }, exceeded)
        },
        (Some(MpReachModel::L3vpnIpv6Unicast { prefixes, path_ids, nexthop }), Some(attrs)) => {
            let (vpnv6, exceeded) = labeled_effect(
                s.vpnv6,
                nbr,
                AfiSafi::L3vpnIpv6Unicast,
                labeled_paths(
                    rx_paths(nbr, AfiSafi::L3vpnIpv6Unicast, vpnv6_prefixes(prefixes), path_ids),
                    vpnv6_labels(prefixes),
                ),
                with_nexthop(attrs, IpAddr::V6(nexthop)),
            );
            (SessionState { vpnv6, ..s }, exceeded)
        },
        (Some(MpReachModel::L2vpnEvpn { routes, path_ids, nexthop }), Some(attrs)) => {
            let (evpn, exceeded) = labeled_effect(
                s.evpn,
                nbr,
                AfiSafi::L2vpnEvpn,
                labeled_paths(rx_paths(nbr, AfiSafi::L2vpnEvpn, routes, path_ids), evpn_labels(routes)),
                with_nexthop(attrs, nexthop),
            );
            (SessionState { evpn, ..s }, exceeded)
        },
        (Some(reach), None) => (mp_withdraw(s, nbr, reach_as_unreach(reach)), false),
        (None, _) => (s, false),
    }
}

/// Reachable prefixes without attributes are treated as withdrawn.
pub open spec fn reach_as_unreach(reach: MpReachModel) -> MpUnreachModel {
    match reach {
        MpReachModel::Ipv4Unicast { prefixes, path_ids, .. } => MpUnreachModel::Ipv4Unicast { prefixes, path_ids },
        MpReachModel::Ipv6Unicast { prefixes, path_ids, .. } => MpUnreachModel::Ipv6Unicast { prefixes, path_ids },
        MpReachModel::L3vpnIpv4Unicast { prefixes, path_ids, .. } => MpUnreachModel::L3vpnIpv4Unicast {
            prefixes,
            path_ids,
        },
        MpReachModel::L3vpnIpv6Unicast { prefixes, path_ids, .. } => MpUnreachModel::L3vpnIpv6Unicast {
            prefixes,
            path_ids,
        },
        MpReachModel::L2vpnEvpn { routes, path_ids, .. } => MpUnreachModel::L2vpnEvpn { routes, path_ids },
    }
}

/// The effect of withdrawn prefixes of some address family.
pub open spec fn mp_withdraw(s: SessionState, nbr: Neighbor, unreach: MpUnreachModel) -> SessionState {
    match unreach {
        MpUnreachModel::Ipv4Unicast { prefixes, path_ids } => {
            let paths = rx_paths(nbr, AfiSafi::Ipv4Unicast, prefixes, path_ids);
            SessionState { ipv4: unreach_effect(s.ipv4, nbr, AfiSafi::Ipv4Unicast, paths), ..s }
        },
        MpUnreachModel::Ipv6Unicast { prefixes, path_ids } => {
            let paths = rx_paths(nbr, AfiSafi::Ipv6Unicast, prefixes, path_ids);
            SessionState { ipv6: unreach_effect(s.ipv6, nbr, AfiSafi::Ipv6Unicast, paths), ..s }
        },
        MpUnreachModel::L3vpnIpv4Unicast { prefixes, path_ids } => {
            let paths = rx_paths(nbr, AfiSafi::L3vpnIpv4Unicast, vpnv4_prefixes(prefixes), path_ids);
            SessionState { vpnv4: unreach_effect(s.vpnv4, nbr, AfiSafi::L3vpnIpv4Unicast, paths), ..s }
        },
        MpUnreachModel::L3vpnIpv6Unicast { prefixes, path_ids } => {
            let paths = rx_paths(nbr, AfiSafi::L3vpnIpv6Unicast, vpnv6_prefixes(prefixes), path_ids);
            SessionState { vpnv6: unreach_effect(s.vpnv6, nbr, AfiSafi::L3vpnIpv6Unicast, paths), ..s }
        },
        MpUnreachModel::L2vpnEvpn { routes, path_ids } => {
            let paths = rx_paths(nbr, AfiSafi::L2vpnEvpn, routes, path_ids);
            SessionState { evpn: evpn_withdrawn(s.evpn, nbr, paths), ..s }
        },
    }
}

/// The effect of withdrawn prefixes.
pub open spec fn unreach_steps(s: SessionState, nbr: Neighbor, msg: UpdateModel) -> SessionState {
    let t = match msg.unreach {
        Some((ps, ids)) => {
            let paths = rx_paths(nbr, AfiSafi::Ipv4Unicast, ps, ids);
            SessionState { ipv4: unreach_effect(s.ipv4, nbr, AfiSafi::Ipv4Unicast, paths), ..s }
        },
        None => s,
    };
    match msg.mp_unreach {
        Some(unreach) => mp_withdraw(t, nbr, unreach),
        None => t,
    }
}

/// The effect of an UPDATE message, and whether the prefix limit was exceeded:
/// what comes behind the prefixes that exceed it is not looked at.
pub open spec fn update_effect(s: SessionState, nbr: Neighbor, msg: UpdateModel, shared: InstanceShared) -> (
    SessionState,
    bool,
) {
    let (s1, exceeded1) = reach_step(s, nbr, msg, shared);
    if exceeded1 {
        (s1, true)
    } else {
        let (s2, exceeded2) = mp_reach_step(s1, nbr, msg, shared);
        if exceeded2 {
            (s2, true)
        } else {
            (unreach_steps(s2, nbr, msg), false)
        }
    }
}

fn to_vpnv4_prefixes(ps: &Vec<LabeledVpnIpv4Nlri>) -> (r: Vec<Vpnv4Prefix>)
    ensures
        r@ == vpnv4_prefixes(ps@),
{
    let mut r: Vec<Vpnv4Prefix> = Vec::new();
    let mut i: usize = 0;
    let ghost all = vpnv4_prefixes(ps@);
    while i < ps.len()
        invariant
            all == vpnv4_prefixes(ps@),
            i <= ps@.len(),
            r@ == all.take(i as int),
        decreases ps@.len() - i,
    {
        r.push(Vpnv4Prefix { rd: ps[i].rd, prefix: ps[i].prefix });
        assert(all.take(i + 1) =~= all.take(i as int).push(all[i as int]));
        i += 1;
    }
    assert(all.take(i as int) =~= all);
    r
}

fn to_vpnv4_labels(ps: &Vec<LabeledVpnIpv4Nlri>) -> (r: Vec<Label>)
    ensures
        r@ == vpnv4_labels(ps@),
{
    let mut r: Vec<Label> = Vec::new();
    let mut i: usize = 0;
    let ghost all = vpnv4_labels(ps@);
    while i < ps.len()
        invariant
            all == vpnv4_labels(ps@),
            i <= ps@.len(),
            r@ == all.take(i as int),
        decreases ps@.len() - i,
    {
        r.push(Label::new(ps[i].label));
        assert(all.take(i + 1) =~= all.take(i as int).push(all[i as int]));
        i += 1;
    }
    assert(all.take(i as int) =~= all);
    r
}

fn to_vpnv6_prefixes(ps: &Vec<LabeledVpnIpv6Nlri>) -> (r: Vec<Vpnv6Prefix>)
    ensures
        r@ == vpnv6_prefixes(ps@),
{
    let mut r: Vec<Vpnv6Prefix> = Vec::new();
    let mut i: usize = 0;
    let ghost all = vpnv6_prefixes(ps@);
    while i < ps.len()
        invariant
            all == vpnv6_prefixes(ps@),
            i <= ps@.len(),
            r@ == all.take(i as int),
        decreases ps@.len() - i,
    {
        r.push(Vpnv6Prefix { rd: ps[i].rd, prefix: ps[i].prefix });
        assert(all.take(i + 1) =~= all.take(i as int).push(all[i as int]));
        i += 1;
    }
    assert(all.take(i as int) =~= all);
    r
}

fn to_vpnv6_labels(ps: &Vec<LabeledVpnIpv6Nlri>) -> (r: Vec<Label>)
    ensures
        r@ == vpnv6_labels(ps@),
{
    let mut r: Vec<Label> = Vec::new();
    let mut i: usize = 0;
    let ghost all = vpnv6_labels(ps@);
    while i < ps.len()
        invariant
            all == vpnv6_labels(ps@),
            i <= ps@.len(),
            r@ == all.take(i as int),
        decreases ps@.len() - i,
    {
        r.push(Label::new(ps[i].label));
        assert(all.take(i + 1) =~= all.take(i as int).push(all[i as int]));
        i += 1;
    }
    assert(all.take(i as int) =~= all);
    r
}

fn to_evpn_labels(ps: &Vec<EvpnRoute>) -> (r: Vec<Label>)
    ensures
        r@ == evpn_labels(ps@),
{
    let mut r: Vec<Label> = Vec::new();
    let mut i: usize = 0;
    let ghost all = evpn_labels(ps@);
    while i < ps.len()
        invariant
            all == evpn_labels(ps@),
            i <= ps@.len(),
            r@ == all.take(i as int),
        decreases ps@.len() - i,
    {
        r.push(Label::new(0));
        assert(all.take(i + 1) =~= all.take(i as int).push(all[i as int]));
        i += 1;
    }
    assert(all.take(i as int) =~= all);
    r
}

/// Puts paths and labels together.
fn to_labeled_paths<P: Ranked>(paths: &Vec<Path<P>>, labels: &Vec<Label>) -> (r: Vec<(Path<P>, Label)>)
    requires
        labels@.len() == paths@.len(),
    ensures
        r@ == labeled_paths(paths@, labels@),
{
    let mut r: Vec<(Path<P>, Label)> = Vec::new();
    let mut i: usize = 0;
    let ghost all = labeled_paths(paths@, labels@);
    while i < paths.len()
        invariant
            labels@.len() == paths@.len(),
            all == labeled_paths(paths@, labels@),
            i <= paths@.len(),
            r@ == all.take(i as int),
        decreases paths@.len() - i,
    {
        r.push((paths[i], labels[i]));
        assert(all.take(i + 1) =~= all.take(i as int).push(all[i as int]));
        i += 1;
    }
    assert(all.take(i as int) =~= all);
    r
}

/// Puts prefixes and the identifiers that a neighbor sent with them together.
fn to_rx_paths<P: Ranked>(nbr: &Neighbor, afi_safi: AfiSafi, ps: &Vec<P>, ids: &Vec<u32>) -> (r: Vec<Path<P>>)
    requires
        nbr.wf(),
    ensures
        r@ == rx_paths(*nbr, afi_safi, ps@, ids@),
{
    to_paths(nbr.is_add_path_rx(afi_safi), ps, ids)
}

/// Takes in prefixes of a family with policies. Says whether the prefix limit
/// was exceeded.
fn reach_family<A: AddressFamily>(
    nbr: &Neighbor,
    table: &mut RoutingTable<A::Prefix>,
    paths: Vec<Path<A::Prefix>>,
    attrs: Attrs,
    shared: &InstanceShared,
    policy: &mut Vec<PolicyApplyMsg>,
    ops: Ghost<Seq<NexthopOp<A::Prefix>>>,
) -> (r: bool)
    requires
        nbr.wf(),
        nbr.identifier is Some,
        old(table).wf(),
        attrs.wf(),
        shared.wf(),
    ensures
        final(table).wf(),
        final(table).nht == old(table).nht,
        (InState { table: final(table)@, ops: ops@ }, apply_models(final(policy)@), r) == reach_effect::<A>(
            InState { table: old(table)@, ops: ops@ },
            apply_models(old(policy)@),
            *nbr,
            paths@,
            attrs,
            *shared,
        ),
{
    match process_nbr_reach_prefixes::<A>(nbr, table, paths, attrs, shared) {
        ReachOutcome::Ignored => false,
        ReachOutcome::LimitExceeded => true,
        ReachOutcome::Apply(msg) => {
            assert(apply_models(policy@.push(msg)) =~= apply_models(policy@).push(msg@));
            policy.push(msg);
            false
        },
    }
}

/// Removes withdrawn prefixes of some address family.
fn process_mp_unreach(
    nbr: &Neighbor,
    tables: &mut RoutingTables,
    mp_unreach: &MpUnreachNlri,
    fx: &mut UpdateEffects,
)
    requires
        nbr.wf(),
        old(tables).wf(),
    ensures
        final(tables).wf(),
        same_tracking(*final(tables), *old(tables)),
        session_state(*final(tables), *final(fx)) == mp_withdraw(
            session_state(*old(tables), *old(fx)),
            *nbr,
            mp_unreach@,
        ),
{
    match mp_unreach {
        MpUnreachNlri::Ipv4Unicast { prefixes, path_ids } => {
            let paths = to_rx_paths(nbr, AfiSafi::Ipv4Unicast, prefixes, path_ids);
            process_nbr_unreach_prefixes(nbr, &mut tables.ipv4_unicast, AfiSafi::Ipv4Unicast, &paths, &mut fx.ipv4);
        },
        MpUnreachNlri::Ipv6Unicast { prefixes, path_ids } => {
            let paths = to_rx_paths(nbr, AfiSafi::Ipv6Unicast, prefixes, path_ids);
            process_nbr_unreach_prefixes(nbr, &mut tables.ipv6_unicast, AfiSafi::Ipv6Unicast, &paths, &mut fx.ipv6);
        },
        MpUnreachNlri::L3vpnIpv4Unicast { prefixes, path_ids } => {
            let paths = to_rx_paths(nbr, AfiSafi::L3vpnIpv4Unicast, &to_vpnv4_prefixes(prefixes), path_ids);
            let table = &mut tables.vpnv4_unicast;
            process_nbr_unreach_prefixes(nbr, table, AfiSafi::L3vpnIpv4Unicast, &paths, &mut fx.vpnv4);
        },
        MpUnreachNlri::L3vpnIpv6Unicast { prefixes, path_ids } => {
            let paths = to_rx_paths(nbr, AfiSafi::L3vpnIpv6Unicast, &to_vpnv6_prefixes(prefixes), path_ids);
            let table = &mut tables.vpnv6_unicast;
            process_nbr_unreach_prefixes(nbr, table, AfiSafi::L3vpnIpv6Unicast, &paths, &mut fx.vpnv6);
        },
        MpUnreachNlri::L2vpnEvpn { routes, path_ids } => {
            let paths = to_rx_paths(nbr, AfiSafi::L2vpnEvpn, routes, path_ids);
            process_evpn_unreach_routes(nbr, &mut tables.l2vpn_evpn, &paths, &mut fx.evpn);
        },
    }
}

fn process_reach(
    nbr: &Neighbor,
    tables: &mut RoutingTables,
    msg: &UpdateMsg,
    shared: &InstanceShared,
    fx: &mut UpdateEffects,
) -> (r: bool)
    requires
        nbr.wf(),
        nbr.identifier is Some,
        old(tables).wf(),
        shared.wf(),
        msg.attrs matches Some(a) ==> a.wf(),
    ensures
        final(tables).wf(),
        same_tracking(*final(tables), *old(tables)),
        (session_state(*final(tables), *final(fx)), r) == reach_step(
            session_state(*old(tables), *old(fx)),
            *nbr,
            msg@,
            *shared,
        ),
{
    if let Some(reach) = &msg.reach {
        let paths = to_rx_paths(nbr, AfiSafi::Ipv4Unicast, &reach.prefixes, &reach.path_ids);
        if let Some(attrs) = &msg.attrs {
            let mut attrs = attrs.duplicate();
            attrs.base.nexthop = Some(IpAddr::V4(reach.nexthop));
            return reach_family::<Ipv4Unicast>(
                nbr,
                &mut tables.ipv4_unicast,
                paths,
                attrs,
                shared,
                &mut fx.policy,
                Ghost(fx.ipv4@),
            );
        }
        // Treat as withdraw.
        process_nbr_unreach_prefixes(
            nbr,
            &mut tables.ipv4_unicast,
            AfiSafi::Ipv4Unicast,
            &paths,
            &mut fx.ipv4,
        );
    }
    false
}

fn copy_of<P: Ranked>(v: &Vec<P>) -> (r: Vec<P>)
    ensures
        r@ == v@,
{
    let mut r: Vec<P> = Vec::new();
    let mut i: usize = 0;
    while i < v.len()
        invariant
            i <= v@.len(),
            r@ == v@.take(i as int),
        decreases v@.len() - i,
    {
        r.push(v[i]);
        assert(v@.take(i + 1) =~= v@.take(i as int).push(v@[i as int]));
        i += 1;
    }
    assert(v@.take(i as int) =~= v@);
    r
}

fn process_mp_reach(
    nbr: &Neighbor,
    tables: &mut RoutingTables,
    msg: &UpdateMsg,
    shared: &InstanceShared,
    fx: &mut UpdateEffects,
) -> (r: bool)
    requires
        nbr.wf(),
        nbr.identifier is Some,
        old(tables).wf(),
        shared.wf(),
        msg.attrs matches Some(a) ==> a.wf(),
    ensures
        final(tables).wf(),
        same_tracking(*final(tables), *old(tables)),
        (session_state(*final(tables), *final(fx)), r) == mp_reach_step(
            session_state(*old(tables), *old(fx)),
            *nbr,
            msg@,
            *shared,
        ),
{
    let mp_reach = match &msg.mp_reach {
        Some(mp_reach) => mp_reach,
        None => {
            return false;
        },
    };
    if let Some(attrs) = &msg.attrs {
        let mut attrs = attrs.duplicate();
        match mp_reach {
            MpReachNlri::Ipv4Unicast { prefixes, path_ids, nexthop } => {
                attrs.base.nexthop = Some(IpAddr::V4(*nexthop));
                let paths = to_rx_paths(nbr, AfiSafi::Ipv4Unicast, prefixes, path_ids);
                reach_family::<Ipv4Unicast>(
                    nbr,
                    &mut tables.ipv4_unicast,
                    paths,
                    attrs,
                    shared,
                    &mut fx.policy,
                    Ghost(fx.ipv4@),
                )
            },
            MpReachNlri::Ipv6Unicast { prefixes, path_ids, nexthop, ll_nexthop } => {
                attrs.base.nexthop = Some(IpAddr::V6(*nexthop));
                attrs.base.ll_nexthop = *ll_nexthop;
                let paths = to_rx_paths(nbr, AfiSafi::Ipv6Unicast, prefixes, path_ids);
                reach_family::<Ipv6Unicast>(
                    nbr,
                    &mut tables.ipv6_unicast,
                    paths,
                    attrs,
                    shared,
                    &mut fx.policy,
                    Ghost(fx.ipv6@),
                )
            },
            MpReachNlri::L3vpnIpv4Unicast { prefixes, path_ids, nexthop } => {
                attrs.base.nexthop = Some(IpAddr::V4(*nexthop));
                let paths = to_rx_paths(
                    nbr,
                    AfiSafi::L3vpnIpv4Unicast,
                    &to_vpnv4_prefixes(prefixes),
                    path_ids,
                );
                process_nbr_reach_prefixes_pre_policy(
                    nbr,
                    &mut tables.vpnv4_unicast,
                    AfiSafi::L3vpnIpv4Unicast,
                    to_labeled_paths(&paths, &to_vpnv4_labels(prefixes)),
                    attrs,
                    &mut fx.vpnv4,
                )
            },
            MpReachNlri::L3vpnIpv6Unicast { prefixes, path_ids, nexthop } => {
                attrs.base.nexthop = Some(IpAddr::V6(*nexthop));
                let paths = to_rx_paths(
                    nbr,
                    AfiSafi::L3vpnIpv6Unicast,
                    &to_vpnv6_prefixes(prefixes),
                    path_ids,
                );
                process_nbr_reach_prefixes_pre_policy(
                    nbr,
                    &mut tables.vpnv6_unicast,
                    AfiSafi::L3vpnIpv6Unicast,
                    to_labeled_paths(&paths, &to_vpnv6_labels(prefixes)),
                    attrs,
                    &mut fx.vpnv6,
                )
            },
            MpReachNlri::L2vpnEvpn { routes, path_ids, nexthop } => {
                attrs.base.nexthop = Some(*nexthop);
                let paths = to_rx_paths(nbr, AfiSafi::L2vpnEvpn, routes, path_ids);
                process_nbr_reach_prefixes_pre_policy(
                    nbr,
                    &mut tables.l2vpn_evpn,
                    AfiSafi::L2vpnEvpn,
                    to_labeled_paths(&paths, &to_evpn_labels(routes)),
                    attrs,
                    &mut fx.evpn,
                )
            },
        }
    } else {
        // Treat as withdraw.
        let unreach = match mp_reach {
            MpReachNlri::Ipv4Unicast { prefixes, path_ids, .. } => MpUnreachNlri::Ipv4Unicast {
                prefixes: copy_of(prefixes),
                path_ids: path_ids.clone(),
            },
            MpReachNlri::Ipv6Unicast { prefixes, path_ids, .. } => MpUnreachNlri::Ipv6Unicast {
                prefixes: copy_of(prefixes),
                path_ids: path_ids.clone(),
            },
            MpReachNlri::L3vpnIpv4Unicast { prefixes, path_ids, .. } => MpUnreachNlri::L3vpnIpv4Unicast {
                prefixes: prefixes.clone(),
                path_ids: path_ids.clone(),
            },
            MpReachNlri::L3vpnIpv6Unicast { prefixes, path_ids, .. } => MpUnreachNlri::L3vpnIpv6Unicast {
                prefixes: prefixes.clone(),
                path_ids: path_ids.clone(),
            },
            MpReachNlri::L2vpnEvpn { routes, path_ids, .. } => MpUnreachNlri::L2vpnEvpn {
                routes: copy_of(routes),
                path_ids: path_ids.clone(),
            },
        };
        process_mp_unreach(nbr, tables, &unreach, fx);
        false
    }
}

/// Processes an UPDATE message of an established session. Says whether the
/// prefix limit was exceeded; otherwise the decision process is to be
/// scheduled.
pub fn process_nbr_update(
    nbr: &Neighbor,
    tables: &mut RoutingTables,
    msg: &UpdateMsg,
    shared: &InstanceShared,
    fx: &mut UpdateEffects,
) -> (r: bool)
    requires
        nbr.wf(),
        nbr.state == State::Established,
        old(tables).wf(),
        shared.wf(),
        msg.attrs matches Some(a) ==> a.wf(),
    ensures
        final(tables).wf(),
        same_tracking(*final(tables), *old(tables)),
        (session_state(*final(tables), *final(fx)), r) == update_effect(
            session_state(*old(tables), *old(fx)),
            *nbr,
            msg@,
            *shared,
        ),
{
    // Reachable prefixes.
    if process_reach(nbr, tables, msg, shared, fx) {
        return true;
    }
    if process_mp_reach(nbr, tables, msg, shared, fx) {
        return true;
    }
    // Unreachable prefixes.
    if let Some(unreach) = &msg.unreach {
        let paths = to_rx_paths(nbr, AfiSafi::Ipv4Unicast, &unreach.prefixes, &unreach.path_ids);
        process_nbr_unreach_prefixes(
            nbr,
            &mut tables.ipv4_unicast,
            AfiSafi::Ipv4Unicast,
            &paths,
            &mut fx.ipv4,
        );
    }
    if let Some(mp_unreach) = &msg.mp_unreach {
        process_mp_unreach(nbr, tables, mp_unreach, fx);
    }
    false
}

}
