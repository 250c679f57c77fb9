//! What holds of routing policies: which statement decides, what conditions
//! ask, and what actions change.
use crate::attribute::path_length;
use crate::attribute::path_members;
use crate::attribute::prepended;
use crate::attribute::prepended_times;
use crate::attribute::AsPathSegmentType;
use crate::attribute::AttrsModel;
use crate::attribute::Segment;
use crate::bgp::AfiSafi;
use crate::bgp::Comm;
use crate::bgp::ExtComm;
use crate::bgp::Extv6Comm;
use crate::bgp::LargeComm;
use crate::bgp::Origin;
use crate::bgp::RouteType;
use crate::ip::IpAddr;
use crate::ip::IpNetwork;
use crate::ord::SortedSet;
use crate::policy::action_effect;
use crate::policy::all_stmts;
use crate::policy::as_path_set_match;
use crate::policy::as_path_text;
use crate::policy::comm_set_match;
use crate::policy::comms_after;
use crate::policy::condition_met;
use crate::policy::decided;
use crate::policy::neighbor_apply;
use crate::policy::only_attributes_change;
use crate::policy::policy_outcome;
use crate::policy::process_policies;
use crate::policy::redistribute_apply;
use crate::policy::regex_matches;
use crate::policy::result_model;
use crate::policy::run_actions;
use crate::policy::stmt_actions;
use crate::policy::stmt_effect;
use crate::policy::stmt_matches;
use crate::policy::CommType;
use crate::policy::InfoModel;
use crate::policy::PolicyActionResult;
use crate::policy::PolicyResultMsg;
use crate::policy::RoutePolicyInfo;
use crate::policy_types::BgpAsPathSet;
use crate::policy_types::BgpCommunitySet;
use crate::policy_types::BgpEqOperator;
use crate::policy_types::BgpNexthop;
use crate::policy_types::BgpPolicyAction;
use crate::policy_types::BgpPolicyCondition;
use crate::policy_types::BgpSetCommMethod;
use crate::policy_types::BgpSetCommOptions;
use crate::policy_types::BgpSetMed;
use crate::policy_types::DefaultPolicyType;
use crate::policy_types::IpPrefixRange;
use crate::policy_types::MatchSetRestrictedType;
use crate::policy_types::MatchSetType;
use crate::policy_types::MatchSets;
use crate::policy_types::MetricModification;
use crate::policy_types::Policy;
use crate::policy_types::PolicyAction;
use crate::policy_types::PolicyCondition;
use crate::policy_types::PolicyConditionType;
use crate::policy_types::PolicyResult;
use crate::policy_types::PolicyStmt;
use crate::policy_types::PolicyType;
use crate::protocol::Protocol;
use crate::rib::RouteOrigin;
use std::sync::Arc;
use vstd::prelude::*;

verus! {

/// A route on its way through statements none of which decides: `states` holds
/// the route as it is when each statement is reached, and at the end. A
/// statement that does not match leaves it alone, one that matches changes its
/// attributes and lets it go on.
pub open spec fn passes_through(
    afi_safi: AfiSafi,
    prefix: IpNetwork,
    stmts: Seq<PolicyStmt>,
    sets: MatchSets,
    states: Seq<InfoModel>,
) -> bool {
    &&& states.len() == stmts.len() + 1
    &&& forall|i: int|
        #![trigger stmts[i]]
        0 <= i < stmts.len() ==> {
            if stmt_matches(afi_safi, prefix, states[i], stmts[i], sets) {
                &&& stmt_effect(states[i].attrs, stmts[i], sets).1 == PolicyActionResult::Continue
                &&& states[i + 1].attrs == stmt_effect(states[i].attrs, stmts[i], sets).0
                &&& states[i + 1].origin == states[i].origin
                &&& states[i + 1].route_type == states[i].route_type
                &&& states[i + 1].tag == states[i].tag
                &&& states[i + 1].opaque_attrs == states[i].opaque_attrs
            } else {
                states[i + 1] == states[i]
            }
        }
}

/// Whether a statement matches the route as it is when it is reached.
pub open spec fn some_matches(
    afi_safi: AfiSafi,
    prefix: IpNetwork,
    stmts: Seq<PolicyStmt>,
    sets: MatchSets,
    states: Seq<InfoModel>,
) -> bool {
    exists|i: int|
        0 <= i < stmts.len() && stmt_matches(afi_safi, prefix, states[i], #[trigger] stmts[i], sets)
}

proof fn passes_rest(
    afi_safi: AfiSafi,
    prefix: IpNetwork,
    stmts: Seq<PolicyStmt>,
    sets: MatchSets,
    states: Seq<InfoModel>,
)
    requires
        passes_through(afi_safi, prefix, stmts, sets, states),
        stmts.len() > 0,
    ensures
        passes_through(afi_safi, prefix, stmts.drop_first(), sets, states.drop_first()),
        states.drop_first().last() == states.last(),
        states.drop_first()[0] == states[1],
        some_matches(afi_safi, prefix, stmts, sets, states) <==> stmt_matches(
            afi_safi,
            prefix,
            states[0],
            stmts[0],
            sets,
        ) || some_matches(afi_safi, prefix, stmts.drop_first(), sets, states.drop_first()),
{
    let r = stmts.drop_first();
    let t = states.drop_first();
    assert forall|i: int| #![trigger r[i]] 0 <= i < r.len() implies r[i] == stmts[i + 1] && t[i] == states[i + 1]
        && t[i + 1] == states[i + 2] by {}
    if some_matches(afi_safi, prefix, stmts, sets, states) {
        let i = choose|i: int|
            0 <= i < stmts.len() && stmt_matches(afi_safi, prefix, states[i], #[trigger] stmts[i], sets);
        if i > 0 {
            assert(r[i - 1] == stmts[i]);
        }
    }
    if some_matches(afi_safi, prefix, r, sets, t) {
        let i = choose|i: int| 0 <= i < r.len() && stmt_matches(afi_safi, prefix, t[i], #[trigger] r[i], sets);
        assert(stmts[i + 1] == r[i]);
    }
}

proof fn run_outcome(
    afi_safi: AfiSafi,
    prefix: IpNetwork,
    stmts: Seq<PolicyStmt>,
    sets: MatchSets,
    default_policy: DefaultPolicyType,
    matched: bool,
    states: Seq<InfoModel>,
)
    requires
        passes_through(afi_safi, prefix, stmts, sets, states),
    ensures
        policy_outcome(afi_safi, prefix, states[0], stmts, sets, default_policy, matched) == (if matched
            || some_matches(afi_safi, prefix, stmts, sets, states) || default_policy
            == DefaultPolicyType::AcceptRoute {
            PolicyResult::Accept(states.last())
        } else {
            PolicyResult::Reject
        }),
    decreases stmts.len(),
{
    if stmts.len() > 0 {
        let s = stmts[0];
        passes_rest(afi_safi, prefix, stmts, sets, states);
        let m = stmt_matches(afi_safi, prefix, states[0], s, sets);
        run_outcome(
            afi_safi,
            prefix,
            stmts.drop_first(),
            sets,
            default_policy,
            matched || m,
            states.drop_first(),
        );
        if m {
            assert(states[1] == InfoModel { attrs: stmt_effect(states[0].attrs, s, sets).0, ..states[0] });
        }
    }
}

/// A route that some statement of the chain matches, and none accepts or
/// rejects, is accepted as the statements changed it, whatever the default
/// policy is.
pub proof fn matched_route_is_accepted(
    afi_safi: AfiSafi,
    prefix: IpNetwork,
    stmts: Seq<PolicyStmt>,
    sets: MatchSets,
    default_policy: DefaultPolicyType,
    states: Seq<InfoModel>,
)
    requires
        passes_through(afi_safi, prefix, stmts, sets, states),
        some_matches(afi_safi, prefix, stmts, sets, states),
    ensures
        policy_outcome(afi_safi, prefix, states[0], stmts, sets, default_policy, false) == PolicyResult::Accept(
            states.last(),
        ),
{
    run_outcome(afi_safi, prefix, stmts, sets, default_policy, false, states);
}

/// The default policy decides on a route only if no statement matches it: the
/// default matters exactly then.
pub proof fn default_matters_only_without_match(
    afi_safi: AfiSafi,
    prefix: IpNetwork,
    stmts: Seq<PolicyStmt>,
    sets: MatchSets,
    states: Seq<InfoModel>,
)
    requires
        passes_through(afi_safi, prefix, stmts, sets, states),
    ensures
        policy_outcome(afi_safi, prefix, states[0], stmts, sets, DefaultPolicyType::AcceptRoute, false) == (
        PolicyResult::Accept(states.last())),
        (policy_outcome(afi_safi, prefix, states[0], stmts, sets, DefaultPolicyType::RejectRoute, false)
            == PolicyResult::<InfoModel>::Reject) <==> !some_matches(afi_safi, prefix, stmts, sets, states),
{
    run_outcome(afi_safi, prefix, stmts, sets, DefaultPolicyType::AcceptRoute, false, states);
    run_outcome(afi_safi, prefix, stmts, sets, DefaultPolicyType::RejectRoute, false, states);
}

/// The first statement that matches and accepts or rejects has the last word:
/// neither the statements behind it nor the default policy matter, and an
/// accepted route is as that statement left it.
pub proof fn first_deciding_statement_decides(
    afi_safi: AfiSafi,
    prefix: IpNetwork,
    before: Seq<PolicyStmt>,
    stmt: PolicyStmt,
    after: Seq<PolicyStmt>,
    sets: MatchSets,
    default_policy: DefaultPolicyType,
    matched: bool,
    states: Seq<InfoModel>,
)
    requires
        passes_through(afi_safi, prefix, before, sets, states),
        stmt_matches(afi_safi, prefix, states.last(), stmt, sets),
        stmt_effect(states.last().attrs, stmt, sets).1 != PolicyActionResult::Continue,
    ensures
        stmt_effect(states.last().attrs, stmt, sets).1 == PolicyActionResult::Reject ==> policy_outcome(
            afi_safi,
            prefix,
            states[0],
            before + seq![stmt] + after,
            sets,
            default_policy,
            matched,
        ) == PolicyResult::<InfoModel>::Reject,
        stmt_effect(states.last().attrs, stmt, sets).1 == PolicyActionResult::Accept ==> (policy_outcome(
            afi_safi,
            prefix,
            states[0],
            before + seq![stmt] + after,
            sets,
            default_policy,
            matched,
        ) matches PolicyResult::Accept(r) && r.attrs == stmt_effect(states.last().attrs, stmt, sets).0 && r.origin
            == states[0].origin && r.route_type == states[0].route_type && r.tag == states[0].tag && r.opaque_attrs
            == states[0].opaque_attrs),
    decreases before.len(),
{
    let all = before + seq![stmt] + after;
    if before.len() == 0 {
        assert(all[0] == stmt);
    } else {
        let rest = before.drop_first();
        assert(all[0] == before[0]);
        assert(all.drop_first() =~= rest + seq![stmt] + after);
        passes_rest(afi_safi, prefix, before, sets, states);
        let m = stmt_matches(afi_safi, prefix, states[0], before[0], sets);
        first_deciding_statement_decides(
            afi_safi,
            prefix,
            rest,
            stmt,
            after,
            sets,
            default_policy,
            matched || m,
            states.drop_first(),
        );
        if m {
            assert(states[1] == InfoModel { attrs: stmt_effect(states[0].attrs, before[0], sets).0, ..states[0] });
        }
    }
}

/// The statements of several policies are those of each, in order.
pub proof fn policies_follow_each_other(a: Seq<Arc<Policy>>, b: Seq<Arc<Policy>>, p: Arc<Policy>)
    ensures
        all_stmts(a + b) == all_stmts(a) + all_stmts(b),
        all_stmts(seq![p]) == p.stmts@,
        all_stmts(Seq::<Arc<Policy>>::empty()).len() == 0,
    decreases a.len(),
{
    let one = seq![p];
    assert(one.drop_first() =~= Seq::<Arc<Policy>>::empty());
    assert(all_stmts(one.drop_first()) =~= Seq::<PolicyStmt>::empty());
    assert(one[0] == p);
    assert(all_stmts(one) =~= p.stmts@);
    if a.len() == 0 {
        assert(a + b =~= b);
        assert(all_stmts(a + b) =~= all_stmts(a) + all_stmts(b));
    } else {
        policies_follow_each_other(a.drop_first(), b, p);
        assert((a + b).drop_first() =~= a.drop_first() + b);
        assert((a + b)[0] == a[0]);
        assert(all_stmts(a + b) =~= all_stmts(a) + all_stmts(b));
    }
}

/// A statement matches exactly the routes that meet all its conditions: one
/// without conditions matches every route, and one unmet condition is enough for
/// it not to match.
pub proof fn all_conditions_count(
    afi_safi: AfiSafi,
    prefix: IpNetwork,
    info: InfoModel,
    stmt: PolicyStmt,
    sets: MatchSets,
    k: PolicyConditionType,
)
    ensures
        stmt.conditions@.dom() == Set::<PolicyConditionType>::empty() ==> stmt_matches(
            afi_safi,
            prefix,
            info,
            stmt,
            sets,
        ),
        stmt.conditions@.contains_key(k) && !condition_met(
            afi_safi,
            prefix,
            info,
            stmt,
            stmt.conditions@[k],
            sets,
        ) ==> !stmt_matches(afi_safi, prefix, info, stmt, sets),
        (forall|c: PolicyConditionType| #[trigger]
            stmt.conditions@.contains_key(c) ==> condition_met(
                afi_safi,
                prefix,
                info,
                stmt,
                stmt.conditions@[c],
                sets,
            )) ==> stmt_matches(afi_safi, prefix, info, stmt, sets),
{
    if stmt.conditions@.dom() == Set::<PolicyConditionType>::empty() {
        assert forall|c: PolicyConditionType| #[trigger] stmt.conditions@.contains_key(c) implies false by {
            assert(stmt.conditions@.dom().contains(c));
        }
    }
}

/// What actions make of attributes, one after the other.
pub open spec fn after_actions(m: AttrsModel, actions: Seq<PolicyAction>, sets: MatchSets) -> AttrsModel {
    actions.fold_left(m, |n: AttrsModel, a: PolicyAction| action_effect(n, a, sets).0)
}

/// Whether an action says what becomes of the route.
pub open spec fn is_ruling(a: PolicyAction) -> bool {
    a is Accept
}

proof fn changes_run(m: AttrsModel, actions: Seq<PolicyAction>, sets: MatchSets)
    requires
        forall|i: int, n: AttrsModel|
            0 <= i < actions.len() && !is_ruling(actions[i]) ==> (#[trigger] action_effect(n, actions[i], sets)).1
                == PolicyActionResult::Continue,
    ensures
        run_actions(m, actions, false, sets).1 == PolicyActionResult::Continue,
        run_actions(m, actions, false, sets).0 == after_actions(
            m,
            actions.filter(|a: PolicyAction| !is_ruling(a)),
            sets,
        ),
    decreases actions.len(),
{
    let keep = |a: PolicyAction| !is_ruling(a);
    let step = |n: AttrsModel, a: PolicyAction| action_effect(n, a, sets).0;
    if actions.len() == 0 {
        reveal(Seq::filter);
        assert(actions.filter(keep) =~= Seq::<PolicyAction>::empty());
    } else {
        let rest = actions.drop_first();
        assert forall|i: int, n: AttrsModel|
            0 <= i < rest.len() && !is_ruling(rest[i]) implies (#[trigger] action_effect(n, rest[i], sets)).1
            == PolicyActionResult::Continue by {
            assert(rest[i] == actions[i + 1]);
            assert(action_effect(n, actions[i + 1], sets).1 == PolicyActionResult::Continue);
        }
        let one = seq![actions[0]];
        assert(actions =~= one + rest);
        Seq::filter_distributes_over_add(one, rest, keep);
        reveal_with_fuel(Seq::filter, 2);
        assert(one.drop_last() =~= Seq::<PolicyAction>::empty());
        assert(one.last() == actions[0]);
        if is_ruling(actions[0]) {
            assert(one.filter(keep) =~= Seq::<PolicyAction>::empty());
            assert(actions.filter(keep) =~= rest.filter(keep));
            changes_run(m, rest, sets);
        } else {
            assert(one.filter(keep) =~= one);
            let n = action_effect(m, actions[0], sets).0;
            assert(action_effect(m, actions[0], sets).1 == PolicyActionResult::Continue);
            changes_run(n, rest, sets);
            let kept = rest.filter(keep);
            assert(actions.filter(keep) =~= one + kept);
            fold_first(m, actions[0], kept, sets);
        }
    }
}

proof fn fold_first(m: AttrsModel, a: PolicyAction, rest: Seq<PolicyAction>, sets: MatchSets)
    ensures
        after_actions(m, seq![a] + rest, sets) == after_actions(action_effect(m, a, sets).0, rest, sets),
    decreases rest.len(),
{
    reveal_with_fuel(Seq::fold_left, 2);
    let all = seq![a] + rest;
    if rest.len() == 0 {
        assert(all.drop_last() =~= Seq::<PolicyAction>::empty());
        assert(all.last() == a);
    } else {
        fold_first(m, a, rest.drop_last(), sets);
        assert(all.drop_last() =~= seq![a] + rest.drop_last());
        assert(all.last() == rest.last());
    }
}

/// Whether one of several actions is a ruling.
pub open spec fn has_ruling(actions: Seq<PolicyAction>, accept: bool) -> bool {
    actions.contains(PolicyAction::Accept(accept))
}

proof fn ruling_run(m: AttrsModel, actions: Seq<PolicyAction>, sets: MatchSets)
    ensures
        run_actions(m, actions, true, sets).0 == m,
        (forall|i: int| 0 <= i < actions.len() ==> !is_ruling(#[trigger] actions[i])) ==> run_actions(
            m,
            actions,
            true,
            sets,
        ).1 == PolicyActionResult::Continue,
        forall|v: bool| #[trigger]
            has_ruling(actions, v) && !has_ruling(actions, !v) ==> run_actions(
                m,
                actions,
                true,
                sets,
            ).1 == if v {
                PolicyActionResult::Accept
            } else {
                PolicyActionResult::Reject
            },
    decreases actions.len(),
{
    if actions.len() > 0 {
        let rest = actions.drop_first();
        ruling_run(m, rest, sets);
        if is_ruling(actions[0]) {
            let v = actions[0]->Accept_0;
            assert(actions[0] == PolicyAction::Accept(v));
            assert(actions.contains(PolicyAction::Accept(v)));
            assert(has_ruling(actions, v));
        } else {
            assert forall|v: bool| #[trigger] has_ruling(actions, v) <==> has_ruling(rest, v) by {
                let x = PolicyAction::Accept(v);
                if actions.contains(x) {
                    let i = choose|i: int| 0 <= i < actions.len() && actions[i] == x;
                    assert(rest[i - 1] == x);
                }
                if rest.contains(x) {
                    let i = choose|i: int| 0 <= i < rest.len() && rest[i] == x;
                    assert(actions[i + 1] == x);
                }
            }
            assert((forall|i: int| 0 <= i < actions.len() ==> !is_ruling(#[trigger] actions[i])) ==> (forall|i: int|
                0 <= i < rest.len() ==> !is_ruling(#[trigger] rest[i]))) by {
                assert(forall|i: int| 0 <= i < rest.len() ==> #[trigger] rest[i] == actions[i + 1]);
            }
        }
    }
}

/// A matching statement makes all its changes before it accepts or rejects,
/// wherever the ruling stands among its actions. Without a ruling the route
/// goes on to the next statement.
pub proof fn statement_changes_then_decides(m: AttrsModel, stmt: PolicyStmt, sets: MatchSets)
    requires
        forall|i: int, n: AttrsModel|
            0 <= i < stmt_actions(stmt).len() && !is_ruling(stmt_actions(stmt)[i]) ==> (#[trigger] action_effect(
                n,
                stmt_actions(stmt)[i],
                sets,
            )).1 == PolicyActionResult::Continue,
    ensures
        stmt_effect(m, stmt, sets).0 == after_actions(
            m,
            stmt_actions(stmt).filter(|a: PolicyAction| !is_ruling(a)),
            sets,
        ),
        (forall|i: int| 0 <= i < stmt_actions(stmt).len() ==> !is_ruling(#[trigger] stmt_actions(stmt)[i]))
            ==> stmt_effect(m, stmt, sets).1 == PolicyActionResult::Continue,
        stmt_actions(stmt).contains(PolicyAction::Accept(true)) && !stmt_actions(stmt).contains(
            PolicyAction::Accept(false),
        ) ==> stmt_effect(m, stmt, sets).1 == PolicyActionResult::Accept,
        stmt_actions(stmt).contains(PolicyAction::Accept(false)) && !stmt_actions(stmt).contains(
            PolicyAction::Accept(true),
        ) ==> stmt_effect(m, stmt, sets).1 == PolicyActionResult::Reject,
{
    let actions = stmt_actions(stmt);
    changes_run(m, actions, sets);
    ruling_run(run_actions(m, actions, false, sets).0, actions, sets);
    assert(has_ruling(actions, true) == actions.contains(PolicyAction::Accept(true)));
    assert(has_ruling(actions, false) == actions.contains(PolicyAction::Accept(false)));
}

/// A change that cannot be made, since the set that it refers to is not defined,
/// rejects the route, whatever ruling the statement has.
pub proof fn failed_change_rejects(m: AttrsModel, stmt: PolicyStmt, sets: MatchSets, i: int)
    requires
        0 <= i < stmt_actions(stmt).len(),
        forall|n: AttrsModel|
            (#[trigger] action_effect(n, stmt_actions(stmt)[i], sets)).1 == PolicyActionResult::Reject,
        !is_ruling(stmt_actions(stmt)[i]),
    ensures
        stmt_effect(m, stmt, sets).1 == PolicyActionResult::Reject,
{
    failing_run(m, stmt_actions(stmt), sets, i);
}

proof fn failing_run(m: AttrsModel, actions: Seq<PolicyAction>, sets: MatchSets, i: int)
    requires
        0 <= i < actions.len(),
        forall|n: AttrsModel| (#[trigger] action_effect(n, actions[i], sets)).1 == PolicyActionResult::Reject,
        !is_ruling(actions[i]),
    ensures
        run_actions(m, actions, false, sets).1 == PolicyActionResult::Reject,
    decreases actions.len(),
{
    if i == 0 {
        assert(action_effect(m, actions[0], sets).1 == PolicyActionResult::Reject);
    } else {
        let rest = actions.drop_first();
        assert(rest[i - 1] == actions[i]);
        if is_ruling(actions[0]) {
            failing_run(m, rest, sets, i - 1);
        } else {
            let n = action_effect(m, actions[0], sets).0;
            changes_never_accept(m, actions[0], sets);
            if action_effect(m, actions[0], sets).1 == PolicyActionResult::Continue {
                failing_run(n, rest, sets, i - 1);
            }
        }
    }
}

/// Only a ruling accepts a route.
pub proof fn changes_never_accept(m: AttrsModel, action: PolicyAction, sets: MatchSets)
    requires
        !is_ruling(action),
    ensures
        action_effect(m, action, sets).1 != PolicyActionResult::Accept,
        action_effect(m, PolicyAction::Accept(true), sets) == (m, PolicyActionResult::Accept),
        action_effect(m, PolicyAction::Accept(false), sets) == (m, PolicyActionResult::Reject),
{
}

/// Attributes that differ in nothing but the metric.
pub open spec fn same_but_med(a: AttrsModel, b: AttrsModel) -> bool {
    AttrsModel { med: None, ..a } == AttrsModel { med: None, ..b }
}

/// Assigning a metric sets it; adding to it or subtracting from it changes one
/// that is there, and stops at the largest and the smallest number. Nothing but
/// the metric changes, and both kinds of actions on the metric do the same.
pub proof fn metric_actions(m: AttrsModel, value: u32, sets: MatchSets)
    ensures
        ({
            let assign = PolicyAction::SetMetric { value, mod_type: MetricModification::Assign };
            let add = PolicyAction::SetMetric { value, mod_type: MetricModification::Add };
            let subtract = PolicyAction::SetMetric { value, mod_type: MetricModification::Subtract };
            let bgp_assign = PolicyAction::Bgp(BgpPolicyAction::SetMed(BgpSetMed::Assign(value)));
            let bgp_add = PolicyAction::Bgp(BgpPolicyAction::SetMed(BgpSetMed::Add(value)));
            let bgp_subtract = PolicyAction::Bgp(BgpPolicyAction::SetMed(BgpSetMed::Subtract(value)));
            let (a, a_flow) = action_effect(m, assign, sets);
            let (b, b_flow) = action_effect(m, add, sets);
            let (c, c_flow) = action_effect(m, subtract, sets);
            &&& a_flow == PolicyActionResult::Continue
            &&& b_flow == PolicyActionResult::Continue
            &&& c_flow == PolicyActionResult::Continue
            &&& same_but_med(a, m) && same_but_med(b, m) && same_but_med(c, m)
            &&& a.med == Some(value)
            &&& m.med is None ==> b.med is None && c.med is None
            &&& m.med matches Some(old) ==> b.med is Some && c.med is Some && old <= b.med->0 && c.med->0 <= old && (
            b.med->0 - old == value || (b.med->0 == u32::MAX && old + value > u32::MAX)) && (old - c.med->0 == value || (
            c.med->0 == 0 && old < value))
            &&& action_effect(m, bgp_assign, sets) == (a, a_flow)
            &&& action_effect(m, bgp_add, sets) == (b, b_flow)
            &&& action_effect(m, bgp_subtract, sets) == (c, c_flow)
            &&& action_effect(m, PolicyAction::Bgp(BgpPolicyAction::SetMed(BgpSetMed::Igp)), sets).0 == m
            &&& action_effect(m, PolicyAction::Bgp(BgpPolicyAction::SetMed(BgpSetMed::MedPlusIgp)), sets).0 == m
        }),
{
}

/// Setting the origin, the preference or the next hop sets it and changes
/// nothing else; a next hop of the router itself is left open.
pub proof fn plain_actions(
    m: AttrsModel,
    origin: Origin,
    local_pref: u32,
    addr: IpAddr,
    sets: MatchSets,
)
    ensures
        ({
            let (a, flow) = action_effect(m, PolicyAction::Bgp(BgpPolicyAction::SetRouteOrigin(origin)), sets);
            flow == PolicyActionResult::Continue && a.origin == origin && AttrsModel { origin: m.origin, ..a } == m
        }),
        ({
            let (a, flow) = action_effect(m, PolicyAction::Bgp(BgpPolicyAction::SetLocalPref(local_pref)), sets);
            flow == PolicyActionResult::Continue && a.local_pref == Some(local_pref) && AttrsModel {
                local_pref: m.local_pref,
                ..a
            } == m
        }),
        ({
            let (a, flow) = action_effect(
                m,
                PolicyAction::Bgp(BgpPolicyAction::SetNexthop(BgpNexthop::Addr(addr))),
                sets,
            );
            flow == PolicyActionResult::Continue && a.nexthop == Some(addr) && AttrsModel { nexthop: m.nexthop, ..a }
                == m
        }),
        ({
            let (a, flow) = action_effect(
                m,
                PolicyAction::Bgp(BgpPolicyAction::SetNexthop(BgpNexthop::NexthopSelf)),
                sets,
            );
            flow == PolicyActionResult::Continue && a.nexthop is None && AttrsModel { nexthop: m.nexthop, ..a } == m
        }),
{
}

/// Actions that do not concern BGP change nothing and decide nothing.
pub proof fn foreign_actions_do_nothing(m: AttrsModel, action: PolicyAction, sets: MatchSets)
    requires
        !(action is Accept),
        !(action is SetMetric),
        !(action is Bgp),
    ensures
        action_effect(m, action, sets) == (m, PolicyActionResult::Continue),
{
}

/// The members of a path that an AS number is put in front of are that number
/// and the members that were there, its length is one more, and no segment gets
/// longer than it may be.
pub proof fn prepending_adds_one(p: Seq<Segment>, asn: u32)
    ensures
        path_members(prepended(p, asn)) == seq![asn] + path_members(p),
        path_length(prepended(p, asn)) == path_length(p) + 1,
        prepended(p, asn).len() > 0,
        prepended(p, asn)[0].0 == AsPathSegmentType::AsSequence,
        prepended(p, asn)[0].1.len() <= 255,
{
    let q = prepended(p, asn);
    if p.len() > 0 && p[0].0 == AsPathSegmentType::AsSequence && p[0].1.len() < 255 {
        members_from_front(p);
        members_from_front(q);
        assert(q.drop_first() =~= p.drop_first());
        assert(path_members(q) =~= seq![asn] + path_members(p));
    } else {
        members_from_front(q);
        assert(q.drop_first() =~= p);
        assert(path_members(q) =~= seq![asn] + path_members(p));
    }
}

proof fn members_from_front(p: Seq<Segment>)
    requires
        p.len() > 0,
    ensures
        path_members(p) == p[0].1 + path_members(p.drop_first()),
        path_length(p) == path_length(seq![p[0]]) + path_length(p.drop_first()),
        path_length(seq![p[0]]) == match p[0].0 {
            AsPathSegmentType::AsSet => 1nat,
            AsPathSegmentType::AsSequence => p[0].1.len(),
            _ => 0nat,
        },
    decreases p.len(),
{
    let one = seq![p[0]];
    assert(one.drop_last() =~= Seq::<Segment>::empty());
    assert(one.last() == p[0]);
    reveal_with_fuel(path_length, 2);
    if p.len() == 1 {
        assert(p.drop_last() =~= Seq::<Segment>::empty());
        assert(p.drop_first() =~= Seq::<Segment>::empty());
        assert(path_members(p) =~= p[0].1 + path_members(p.drop_first()));
    } else {
        members_from_front(p.drop_last());
        assert(p.drop_first().drop_last() =~= p.drop_last().drop_first());
        assert(p.drop_last()[0] == p[0]);
        assert(path_members(p) =~= p[0].1 + path_members(p.drop_first()));
    }
}

/// The length of a path counts the members of sequences, and one for a set;
/// confederation segments do not count.
pub proof fn path_length_counts(a: Seq<Segment>, members: Seq<u32>)
    ensures
        path_length(Seq::<Segment>::empty()) == 0,
        path_length(a.push((AsPathSegmentType::AsSequence, members))) == path_length(a) + members.len(),
        path_length(a.push((AsPathSegmentType::AsSet, members))) == path_length(a) + 1,
        path_length(a.push((AsPathSegmentType::ConfedSequence, members))) == path_length(a),
        path_length(a.push((AsPathSegmentType::ConfedSet, members))) == path_length(a),
        forall|t: AsPathSegmentType|
            path_members(#[trigger] a.push((t, members))) == path_members(a) + members,
{
    assert forall|t: AsPathSegmentType| (#[trigger] a.push((t, members))).drop_last() == a && a.push(
        (t, members),
    ).last() == (t, members) by {
        assert(a.push((t, members)).drop_last() =~= a);
    }
}

/// Prepending puts the AS number in front as often as is asked, once where
/// nothing is said, and changes nothing but the path.
pub proof fn prepend_action(m: AttrsModel, asn: u32, repeat: Option<u8>, sets: MatchSets)
    ensures
        ({
            let (a, flow) = action_effect(
                m,
                PolicyAction::Bgp(BgpPolicyAction::SetAsPathPrepent { asn, repeat }),
                sets,
            );
            let n: nat = match repeat {
                Some(n) => n as nat,
                None => 1,
            };
            &&& flow == PolicyActionResult::Continue
            &&& AttrsModel { as_path: m.as_path, ..a } == m
            &&& path_members(a.as_path) == Seq::new(n, |i: int| asn) + path_members(m.as_path)
            &&& path_length(a.as_path) == path_length(m.as_path) + n
            &&& repeat == Some(0u8) ==> a.as_path == m.as_path
        }),
{
    let n: nat = match repeat {
        Some(n) => n as nat,
        None => 1,
    };
    prepended_often(m.as_path, asn, n);
}

proof fn prepended_often(p: Seq<Segment>, asn: u32, n: nat)
    ensures
        path_members(prepended_times(p, asn, n)) == Seq::new(n, |i: int| asn) + path_members(p),
        path_length(prepended_times(p, asn, n)) == path_length(p) + n,
    decreases n,
{
    let all = Seq::new(n, |i: int| asn);
    if n == 0 {
        assert(all + path_members(p) =~= path_members(p));
    } else {
        let fewer = Seq::new((n - 1) as nat, |i: int| asn);
        prepended_often(p, asn, (n - 1) as nat);
        prepending_adds_one(prepended_times(p, asn, (n - 1) as nat), asn);
        assert(seq![asn] + (fewer + path_members(p)) =~= all + path_members(p));
    }
}

/// The communities of a list that may be missing.
pub open spec fn listed<V>(list: Option<Set<V>>, c: V) -> bool {
    list matches Some(l) && l.contains(c)
}

/// Of each community: adding leaves what was there and what is added, removing
/// leaves what was there and is not removed, and replacing leaves what is given.
/// An empty list is no list.
pub proof fn community_options<V>(comms: Set<V>, list: Option<Set<V>>, c: V)
    ensures
        listed(comms_after(BgpSetCommOptions::Add, comms, list), c) <==> listed(list, c) || comms.contains(c),
        listed(comms_after(BgpSetCommOptions::Remove, comms, list), c) <==> listed(list, c) && !comms.contains(c),
        listed(comms_after(BgpSetCommOptions::Replace, comms, list), c) <==> comms.contains(c),
        forall|o: BgpSetCommOptions| (#[trigger] comms_after(o, comms, list)) matches Some(l) ==> l != Set::<
            V,
        >::empty(),
{
    if comms.contains(c) {
        assert(comms != Set::<V>::empty());
    }
    if let Some(l) = list {
        if l.contains(c) || comms.contains(c) {
            assert(l.union(comms).contains(c));
            assert(l.union(comms) != Set::<V>::empty());
        }
        if l.contains(c) && !comms.contains(c) {
            assert(l.difference(comms).contains(c));
            assert(l.difference(comms) != Set::<V>::empty());
        }
    }
}

/// An action on communities changes the list of its own kind and no other
/// attribute; a set that it refers to is looked up among those of its kind, and
/// the route is rejected if it is not defined.
pub proof fn community_actions(
    m: AttrsModel,
    options: BgpSetCommOptions,
    name: String,
    inline: SortedSet<Comm>,
    ext_inline: SortedSet<ExtComm>,
    ext6_inline: SortedSet<Extv6Comm>,
    large_inline: SortedSet<LargeComm>,
    sets: MatchSets,
)
    ensures
        action_effect(
            m,
            PolicyAction::Bgp(BgpPolicyAction::SetComm { options, method: BgpSetCommMethod::Inline(inline) }),
            sets,
        ) == (AttrsModel { comm: comms_after(options, inline@, m.comm), ..m }, PolicyActionResult::Continue),
        action_effect(
            m,
            PolicyAction::Bgp(BgpPolicyAction::SetExtComm { options, method: BgpSetCommMethod::Inline(ext_inline) }),
            sets,
        ) == (
            AttrsModel { ext_comm: comms_after(options, ext_inline@, m.ext_comm), ..m },
            PolicyActionResult::Continue,
        ),
        action_effect(
            m,
            PolicyAction::Bgp(
                BgpPolicyAction::SetExtv6Comm { options, method: BgpSetCommMethod::Inline(ext6_inline) },
            ),
            sets,
        ) == (
            AttrsModel { extv6_comm: comms_after(options, ext6_inline@, m.extv6_comm), ..m },
            PolicyActionResult::Continue,
        ),
        action_effect(
            m,
            PolicyAction::Bgp(
                BgpPolicyAction::SetLargeComm { options, method: BgpSetCommMethod::Inline(large_inline) },
            ),
            sets,
        ) == (
            AttrsModel { large_comm: comms_after(options, large_inline@, m.large_comm), ..m },
            PolicyActionResult::Continue,
        ),
        ({
            let (a, flow) = action_effect(
                m,
                PolicyAction::Bgp(BgpPolicyAction::SetComm { options, method: BgpSetCommMethod::Reference(name) }),
                sets,
            );
            if sets.bgp.comms@.contains_key(name@) {
                flow == PolicyActionResult::Continue && a == AttrsModel {
                    comm: comms_after(options, sets.bgp.comms@[name@].literals@, m.comm),
                    ..m
                }
            } else {
                flow == PolicyActionResult::Reject
            }
        }),
        ({
            let (a, flow) = action_effect(
                m,
                PolicyAction::Bgp(BgpPolicyAction::SetExtComm { options, method: BgpSetCommMethod::Reference(name) }),
                sets,
            );
            if sets.bgp.ext_comms@.contains_key(name@) {
                flow == PolicyActionResult::Continue && a == AttrsModel {
                    ext_comm: comms_after(options, sets.bgp.ext_comms@[name@].literals@, m.ext_comm),
                    ..m
                }
            } else {
                flow == PolicyActionResult::Reject
            }
        }),
        ({
            let (a, flow) = action_effect(
                m,
                PolicyAction::Bgp(
                    BgpPolicyAction::SetExtv6Comm { options, method: BgpSetCommMethod::Reference(name) },
                ),
                sets,
            );
            if sets.bgp.extv6_comms@.contains_key(name@) {
                flow == PolicyActionResult::Continue && a == AttrsModel {
                    extv6_comm: comms_after(options, sets.bgp.extv6_comms@[name@].literals@, m.extv6_comm),
                    ..m
                }
            } else {
                flow == PolicyActionResult::Reject
            }
        }),
        ({
            let (a, flow) = action_effect(
                m,
                PolicyAction::Bgp(
                    BgpPolicyAction::SetLargeComm { options, method: BgpSetCommMethod::Reference(name) },
                ),
                sets,
            );
            if sets.bgp.large_comms@.contains_key(name@) {
                flow == PolicyActionResult::Continue && a == AttrsModel {
                    large_comm: comms_after(options, sets.bgp.large_comms@[name@].literals@, m.large_comm),
                    ..m
                }
            } else {
                flow == PolicyActionResult::Reject
            }
        }),
{
}

/// Conditions on the source of a route that a neighbor sent: none on a protocol
/// is met, and those on neighbors go by the address of that neighbor.
pub proof fn conditions_on_neighbor_routes(
    afi_safi: AfiSafi,
    prefix: IpNetwork,
    info: InfoModel,
    stmt: PolicyStmt,
    sets: MatchSets,
    addr: IpAddr,
    protocol: Protocol,
    name: String,
    value: SortedSet<IpAddr>,
)
    requires
        info.origin matches RouteOrigin::Neighbor { remote_addr, .. } && remote_addr == addr,
    ensures
        !condition_met(afi_safi, prefix, info, stmt, PolicyCondition::SrcProtocol(protocol), sets),
        condition_met(afi_safi, prefix, info, stmt, PolicyCondition::MatchNeighborSet(name), sets) <==> (
        sets.neighbors@.contains_key(name@) && sets.neighbors@[name@].addrs@.contains(addr)),
        condition_met(
            afi_safi,
            prefix,
            info,
            stmt,
            PolicyCondition::Bgp(
                BgpPolicyCondition::MatchNeighbor { value, match_type: MatchSetRestrictedType::Any },
            ),
            sets,
        ) <==> value@.contains(addr),
        condition_met(
            afi_safi,
            prefix,
            info,
            stmt,
            PolicyCondition::Bgp(
                BgpPolicyCondition::MatchNeighbor { value, match_type: MatchSetRestrictedType::Invert },
            ),
            sets,
        ) <==> !value@.contains(addr),
{
}

/// Conditions on the source of a route of another protocol: none on neighbors is
/// met, not even an inverted one.
pub proof fn conditions_on_protocol_routes(
    afi_safi: AfiSafi,
    prefix: IpNetwork,
    info: InfoModel,
    stmt: PolicyStmt,
    sets: MatchSets,
    source: Protocol,
    protocol: Protocol,
    name: String,
    value: SortedSet<IpAddr>,
    match_type: MatchSetRestrictedType,
)
    requires
        info.origin == RouteOrigin::Protocol(source),
    ensures
        condition_met(afi_safi, prefix, info, stmt, PolicyCondition::SrcProtocol(protocol), sets) <==> protocol
            == source,
        !condition_met(afi_safi, prefix, info, stmt, PolicyCondition::MatchNeighborSet(name), sets),
        !condition_met(
            afi_safi,
            prefix,
            info,
            stmt,
            PolicyCondition::Bgp(BgpPolicyCondition::MatchNeighbor { value, match_type }),
            sets,
        ),
{
}

/// A prefix set matches the prefixes with the address of one of its ranges and a
/// length within it. The sets of the other address family do not count, and the
/// inverted condition is met just where the plain one is not.
pub proof fn prefix_condition(
    afi_safi: AfiSafi,
    prefix: IpNetwork,
    info: InfoModel,
    stmt: PolicyStmt,
    sets: MatchSets,
    name: String,
    range: IpPrefixRange,
)
    ensures
        ({
            let met = condition_met(afi_safi, prefix, info, stmt, PolicyCondition::MatchPrefixSet(name), sets);
            let plain = stmt.prefix_set_match_type == MatchSetRestrictedType::Any;
            let key = (name@, prefix.address_family_spec());
            &&& !sets.prefixes@.contains_key(key) ==> met == !plain
            &&& sets.prefixes@.contains_key(key) && sets.prefixes@[key].prefixes@.contains(range)
                && prefix.ip_spec() == range.prefix.ip_spec() && prefix.prefix_spec() >= range.masklen_lower
                && prefix.prefix_spec() <= range.masklen_upper ==> met == plain
            &&& met == plain ==> exists|r: IpPrefixRange| #[trigger]
                sets.prefixes@[key].prefixes@.contains(r) && r.prefix.ip_spec() == prefix.ip_spec()
                    && r.masklen_lower <= prefix.prefix_spec() && prefix.prefix_spec() <= r.masklen_upper
        }),
{
}

/// A tag set matches the routes that carry one of its tags; a route without a
/// tag is matched by the inverted condition alone.
pub proof fn tag_condition(
    afi_safi: AfiSafi,
    prefix: IpNetwork,
    info: InfoModel,
    stmt: PolicyStmt,
    sets: MatchSets,
    name: String,
)
    ensures
        ({
            let met = condition_met(afi_safi, prefix, info, stmt, PolicyCondition::MatchTagSet(name), sets);
            let plain = stmt.tag_set_match_type != MatchSetType::Invert;
            &&& info.tag is None ==> met == !plain
            &&& !sets.tags@.contains_key(name@) ==> met == !plain
            &&& info.tag is Some && sets.tags@.contains_key(name@) ==> (met == plain
                <==> sets.tags@[name@].tags@.contains(info.tag->0))
        }),
{
}

/// Conditions that are not supported restrict nothing.
pub proof fn unsupported_conditions_are_met(
    afi_safi: AfiSafi,
    prefix: IpNetwork,
    info: InfoModel,
    stmt: PolicyStmt,
    sets: MatchSets,
    condition: PolicyCondition,
)
    requires
        condition is MatchInterface || condition is MatchRouteType || condition is CallPolicy,
    ensures
        condition_met(afi_safi, prefix, info, stmt, condition, sets),
{
}

/// A number is compared as the operator says: at most, at least, or equal to the
/// configured value. An attribute that is not there meets no condition.
pub proof fn number_conditions(
    afi_safi: AfiSafi,
    prefix: IpNetwork,
    info: InfoModel,
    stmt: PolicyStmt,
    sets: MatchSets,
    value: u32,
    op: BgpEqOperator,
)
    ensures
        ({
            let met = |c: BgpPolicyCondition|
                condition_met(afi_safi, prefix, info, stmt, PolicyCondition::Bgp(c), sets);
            let asked = |n: nat|
                match op {
                    BgpEqOperator::Equal => n == value,
                    BgpEqOperator::LessThanOrEqual => n <= value,
                    BgpEqOperator::GreaterThanOrEqual => value <= n,
                };
            &&& met(BgpPolicyCondition::LocalPref { value, op }) <==> (info.attrs.local_pref matches Some(n) && asked(
                n as nat,
            ))
            &&& met(BgpPolicyCondition::Med { value, op }) <==> (info.attrs.med matches Some(n) && asked(n as nat))
            &&& info.attrs.comm is None ==> !met(BgpPolicyCondition::CommCount { value, op })
            &&& info.attrs.comm is Some && info.attrs.comm->0.len() <= u32::MAX ==> (met(
                BgpPolicyCondition::CommCount { value, op },
            ) <==> asked(info.attrs.comm->0.len()))
            &&& path_length(info.attrs.as_path) <= u32::MAX ==> (met(BgpPolicyCondition::AsPathLen { value, op })
                <==> asked(path_length(info.attrs.as_path)))
        }),
{
}

/// Conditions on the origin, on the kind of route and on the address family.
pub proof fn value_conditions(
    afi_safi: AfiSafi,
    prefix: IpNetwork,
    info: InfoModel,
    stmt: PolicyStmt,
    sets: MatchSets,
    origin: Origin,
    route_type: RouteType,
    values: SortedSet<AfiSafi>,
)
    ensures
        ({
            let met = |c: BgpPolicyCondition|
                condition_met(afi_safi, prefix, info, stmt, PolicyCondition::Bgp(c), sets);
            &&& met(BgpPolicyCondition::Origin(origin)) <==> info.attrs.origin == origin
            &&& met(BgpPolicyCondition::RouteType(route_type)) <==> info.route_type == route_type
            &&& met(BgpPolicyCondition::MatchAfiSafi { values, match_type: MatchSetRestrictedType::Any })
                <==> values@.contains(afi_safi)
            &&& met(BgpPolicyCondition::MatchAfiSafi { values, match_type: MatchSetRestrictedType::Invert })
                <==> !values@.contains(afi_safi)
        }),
{
}

/// A condition on a set of next hops goes by the next hop of the route, or by the
/// router itself where the route has none. A set that is not defined matches
/// nothing, not even inverted.
pub proof fn nexthop_condition(
    afi_safi: AfiSafi,
    prefix: IpNetwork,
    info: InfoModel,
    stmt: PolicyStmt,
    sets: MatchSets,
    value: String,
)
    ensures
        ({
            let met = |match_type: MatchSetRestrictedType|
                condition_met(
                    afi_safi,
                    prefix,
                    info,
                    stmt,
                    PolicyCondition::Bgp(BgpPolicyCondition::MatchNexthopSet { value, match_type }),
                    sets,
                );
            let set = sets.bgp.nexthops@[value@]@;
            &&& !sets.bgp.nexthops@.contains_key(value@) ==> !met(MatchSetRestrictedType::Any) && !met(
                MatchSetRestrictedType::Invert,
            )
            &&& sets.bgp.nexthops@.contains_key(value@) ==> (met(MatchSetRestrictedType::Invert) <==> !met(
                MatchSetRestrictedType::Any,
            ))
            &&& sets.bgp.nexthops@.contains_key(value@) && info.attrs.nexthop is None ==> (met(
                MatchSetRestrictedType::Any,
            ) <==> set.contains(BgpNexthop::NexthopSelf))
            &&& sets.bgp.nexthops@.contains_key(value@) ==> (info.attrs.nexthop matches Some(addr) ==> (met(
                MatchSetRestrictedType::Any,
            ) <==> set.contains(BgpNexthop::Addr(addr))))
        }),
{
}

/// The condition on a set of communities of a kind.
pub open spec fn set_condition(
    afi_safi: AfiSafi,
    prefix: IpNetwork,
    info: InfoModel,
    stmt: PolicyStmt,
    sets: MatchSets,
    c: BgpPolicyCondition,
) -> bool {
    condition_met(afi_safi, prefix, info, stmt, PolicyCondition::Bgp(c), sets)
}

/// A condition on communities looks at the communities of its own kind and at
/// the set with the name among those of that kind. A route without communities
/// meets none of them, nor does any route where the set is not defined.
pub proof fn community_conditions(
    afi_safi: AfiSafi,
    prefix: IpNetwork,
    info: InfoModel,
    stmt: PolicyStmt,
    sets: MatchSets,
    value: String,
    match_type: MatchSetType,
)
    ensures
        set_condition(
            afi_safi,
            prefix,
            info,
            stmt,
            sets,
            BgpPolicyCondition::MatchCommSet { value, match_type },
        ) <==> (info.attrs.comm matches Some(comms) && sets.bgp.comms@.contains_key(value@) && comm_set_match(
            match_type,
            sets.bgp.comms@[value@],
            comms,
        )),
        set_condition(
            afi_safi,
            prefix,
            info,
            stmt,
            sets,
            BgpPolicyCondition::MatchExtCommSet { value, match_type },
        ) <==> (info.attrs.ext_comm matches Some(comms) && sets.bgp.ext_comms@.contains_key(value@) && comm_set_match(
            match_type,
            sets.bgp.ext_comms@[value@],
            comms,
        )),
        set_condition(
            afi_safi,
            prefix,
            info,
            stmt,
            sets,
            BgpPolicyCondition::MatchExtv6CommSet { value, match_type },
        ) <==> (info.attrs.extv6_comm matches Some(comms) && sets.bgp.extv6_comms@.contains_key(value@)
            && comm_set_match(match_type, sets.bgp.extv6_comms@[value@], comms)),
        set_condition(
            afi_safi,
            prefix,
            info,
            stmt,
            sets,
            BgpPolicyCondition::MatchLargeCommSet { value, match_type },
        ) <==> (info.attrs.large_comm matches Some(comms) && sets.bgp.large_comms@.contains_key(value@)
            && comm_set_match(match_type, sets.bgp.large_comms@[value@], comms)),
        set_condition(
            afi_safi,
            prefix,
            info,
            stmt,
            sets,
            BgpPolicyCondition::MatchAsPathSet { value, match_type },
        ) <==> sets.bgp.as_paths@.contains_key(value@) && as_path_set_match(
            match_type,
            sets.bgp.as_paths@[value@],
            path_members(info.attrs.as_path),
        ),
{
}

/// What the match types ask of communities. One member of the set among the
/// communities, or one of its expressions that matches one of them, is enough for
/// any; a member that is missing, or an expression that matches none, is enough
/// for not all; and inverted is not any.
pub proof fn community_match_types<T: CommType>(
    set: BgpCommunitySet<T>,
    comms: Set<T>,
    literal: T,
    pattern: Seq<char>,
    c: T,
)
    ensures
        comm_set_match(MatchSetType::Invert, set, comms) <==> !comm_set_match(MatchSetType::Any, set, comms),
        set.literals@.contains(literal) && comms.contains(literal) ==> comm_set_match(MatchSetType::Any, set, comms),
        set.regexes@.contains(pattern) && comms.contains(c) && regex_matches(pattern, c.text()) ==> comm_set_match(
            MatchSetType::Any,
            set,
            comms,
        ),
        set.literals@.disjoint(comms) && set.regexes@ == Set::<Seq<char>>::empty() ==> !comm_set_match(
            MatchSetType::Any,
            set,
            comms,
        ),
        set.literals@.disjoint(comms) && (forall|p: Seq<char>, x: T|
            set.regexes@.contains(p) && comms.contains(x) ==> !(#[trigger] regex_matches(p, x.text())))
            ==> !comm_set_match(MatchSetType::Any, set, comms),
        set.literals@.contains(literal) && !comms.contains(literal) ==> !comm_set_match(
            MatchSetType::All,
            set,
            comms,
        ),
        set.regexes@.contains(pattern) && (forall|x: T|
            comms.contains(x) ==> !(#[trigger] regex_matches(pattern, x.text()))) ==> !comm_set_match(
            MatchSetType::All,
            set,
            comms,
        ),
        set.literals@.subset_of(comms) && (forall|p: Seq<char>| #[trigger]
            set.regexes@.contains(p) ==> comms.contains(c) && regex_matches(p, c.text())) ==> comm_set_match(
            MatchSetType::All,
            set,
            comms,
        ),
{
}

/// What the match types ask of the members of a path.
pub proof fn path_match_types(set: BgpAsPathSet, asns: Seq<u32>, literal: u32, pattern: Seq<char>)
    ensures
        as_path_set_match(MatchSetType::Invert, set, asns) <==> !as_path_set_match(MatchSetType::Any, set, asns),
        set.literals@.contains(literal) && asns.contains(literal) ==> as_path_set_match(
            MatchSetType::Any,
            set,
            asns,
        ),
        set.regexes@.contains(pattern) && regex_matches(pattern, as_path_text(asns)) ==> as_path_set_match(
            MatchSetType::Any,
            set,
            asns,
        ),
        (forall|l: u32| #[trigger] set.literals@.contains(l) ==> !asns.contains(l)) && (forall|p: Seq<char>| #[trigger]
            set.regexes@.contains(p) ==> !regex_matches(p, as_path_text(asns))) ==> !as_path_set_match(
            MatchSetType::Any,
            set,
            asns,
        ),
        set.literals@.contains(literal) && !asns.contains(literal) ==> !as_path_set_match(
            MatchSetType::All,
            set,
            asns,
        ),
        set.regexes@.contains(pattern) && !regex_matches(pattern, as_path_text(asns)) ==> !as_path_set_match(
            MatchSetType::All,
            set,
            asns,
        ),
        (forall|l: u32| #[trigger] set.literals@.contains(l) ==> asns.contains(l)) && (forall|p: Seq<char>| #[trigger]
            set.regexes@.contains(p) ==> regex_matches(p, as_path_text(asns))) ==> as_path_set_match(
            MatchSetType::All,
            set,
            asns,
        ),
{
}

/// The policy engine hands back one decision for each route, in order and under
/// the same prefix, and each route is decided upon by itself.
pub proof fn one_decision_per_route(
    routes: Seq<(IpNetwork, RoutePolicyInfo)>,
    results: Seq<(IpNetwork, PolicyResult<RoutePolicyInfo>)>,
    afi_safi: AfiSafi,
    policies: Seq<Arc<Policy>>,
    sets: MatchSets,
    default_policy: DefaultPolicyType,
    i: int,
)
    requires
        decided(routes, results, afi_safi, policies, sets, default_policy),
        0 <= i < routes.len(),
    ensures
        results.len() == routes.len(),
        results[i].0 == routes[i].0,
        result_model(results[i].1) == policy_outcome(
            afi_safi,
            routes[i].0,
            routes[i].1@,
            all_stmts(policies),
            sets,
            default_policy,
            false,
        ),
        results[i].1 matches PolicyResult::Accept(info) ==> info.origin == routes[i].1.origin && info.route_type
            == routes[i].1.route_type && info.tag == routes[i].1.tag,
{
    only_attributes_change(
        afi_safi,
        routes[i].0,
        routes[i].1@,
        all_stmts(policies),
        sets,
        default_policy,
        false,
    );
}

/// Policies on a route that passes all their statements without a ruling: it is
/// accepted as they changed it if one of them matched, and otherwise goes by the
/// default policy as it came.
pub proof fn undecided_routes(
    afi_safi: AfiSafi,
    prefix: IpNetwork,
    info: RoutePolicyInfo,
    policies: &[Arc<Policy>],
    sets: &MatchSets,
    default_policy: DefaultPolicyType,
    r: PolicyResult<RoutePolicyInfo>,
    states: Seq<InfoModel>,
)
    requires
        call_ensures(process_policies, (afi_safi, prefix, info, policies, sets, default_policy), r),
        passes_through(afi_safi, prefix, all_stmts(policies@), *sets, states),
        states[0] == info@,
    ensures
        some_matches(afi_safi, prefix, all_stmts(policies@), *sets, states) ==> (r matches PolicyResult::Accept(out)
            && out@ == states.last()),
        !some_matches(afi_safi, prefix, all_stmts(policies@), *sets, states) && default_policy
            == DefaultPolicyType::AcceptRoute ==> (r matches PolicyResult::Accept(out) && out@ == states.last()),
        !some_matches(afi_safi, prefix, all_stmts(policies@), *sets, states) && default_policy
            == DefaultPolicyType::RejectRoute ==> r is Reject,
{
    run_outcome(afi_safi, prefix, all_stmts(policies@), *sets, default_policy, false, states);
}

/// Policies on a route for which a statement has a ruling: the first such
/// statement that matches decides, and an accepted route is as it left it.
pub proof fn decided_routes(
    afi_safi: AfiSafi,
    prefix: IpNetwork,
    info: RoutePolicyInfo,
    policies: &[Arc<Policy>],
    sets: &MatchSets,
    default_policy: DefaultPolicyType,
    r: PolicyResult<RoutePolicyInfo>,
    before: Seq<PolicyStmt>,
    stmt: PolicyStmt,
    after: Seq<PolicyStmt>,
    states: Seq<InfoModel>,
)
    requires
        call_ensures(process_policies, (afi_safi, prefix, info, policies, sets, default_policy), r),
        all_stmts(policies@) == before + seq![stmt] + after,
        passes_through(afi_safi, prefix, before, *sets, states),
        states[0] == info@,
        stmt_matches(afi_safi, prefix, states.last(), stmt, *sets),
        stmt_effect(states.last().attrs, stmt, *sets).1 != PolicyActionResult::Continue,
    ensures
        stmt_effect(states.last().attrs, stmt, *sets).1 == PolicyActionResult::Reject ==> r is Reject,
        stmt_effect(states.last().attrs, stmt, *sets).1 == PolicyActionResult::Accept ==> (
        r matches PolicyResult::Accept(out) && out.attrs@ == stmt_effect(states.last().attrs, stmt, *sets).0
            && out.origin == info.origin && out.route_type == info.route_type && out.tag == info.tag
            && out.opaque_attrs == info.opaque_attrs),
{
    first_deciding_statement_decides(
        afi_safi,
        prefix,
        before,
        stmt,
        after,
        *sets,
        default_policy,
        false,
        states,
    );
}

/// The policy engine answers a request of a neighbor with a decision on each of
/// its routes, in order, each under its prefix and with the identifier of its
/// path, and each as if it were the only one.
pub proof fn neighbor_requests_are_answered(
    policy_type: PolicyType,
    nbr_addr: IpAddr,
    afi_safi: AfiSafi,
    routes: &Vec<(IpNetwork, RoutePolicyInfo)>,
    path_ids: &Vec<u32>,
    policies: &[Arc<Policy>],
    sets: &MatchSets,
    default_policy: DefaultPolicyType,
    r: PolicyResultMsg,
    i: int,
)
    requires
        call_ensures(
            neighbor_apply,
            (policy_type, nbr_addr, afi_safi, routes, path_ids, policies, sets, default_policy),
            r,
        ),
    ensures
        r matches PolicyResultMsg::Neighbor {
            policy_type: t,
            nbr_addr: n,
            afi_safi: a,
            routes: results,
            path_ids: ids,
        } && t == policy_type && n == nbr_addr && a == afi_safi && ids@ == path_ids@ && results@.len()
            == routes@.len() && (0 <= i < routes@.len() ==> results@[i].0 == routes@[i].0 && result_model(
            results@[i].1,
        ) == policy_outcome(
            afi_safi,
            routes@[i].0,
            routes@[i].1@,
            all_stmts(policies@),
            *sets,
            default_policy,
            false,
        )),
{
}

/// A request on a redistributed route is answered with the decision on it.
pub proof fn redistribution_requests_are_answered(
    afi_safi: AfiSafi,
    prefix: IpNetwork,
    info: RoutePolicyInfo,
    policies: &[Arc<Policy>],
    sets: &MatchSets,
    default_policy: DefaultPolicyType,
    r: PolicyResultMsg,
)
    requires
        call_ensures(redistribute_apply, (afi_safi, prefix, info, policies, sets, default_policy), r),
    ensures
        r matches PolicyResultMsg::Redistribute { afi_safi: a, prefix: p, result } && a == afi_safi && p == prefix
            && result_model(result) == policy_outcome(
            afi_safi,
            prefix,
            info@,
            all_stmts(policies@),
            *sets,
            default_policy,
            false,
        ),
{
}

}
