//! What holds of changes to statements of policies.
use crate::bgp::AfiSafi;
use crate::bgp::Comm;
use crate::bgp::ExtComm;
use crate::bgp::Extv6Comm;
use crate::bgp::LargeComm;
use crate::bgp::RouteType;
use crate::ip::IpAddr;
use crate::policy_model::ActionModel;
use crate::policy_model::ConditionModel;
use crate::policy_model::MethodModel;
use crate::policy_model::StmtModel;
use crate::policy_stmt_cfg::action_change_made;
use crate::policy_stmt_cfg::bgp_action_changed;
use crate::policy_stmt_cfg::bgp_as_path_prepend_get_asn;
use crate::policy_stmt_cfg::bgp_as_path_prepend_get_repeat;
use crate::policy_stmt_cfg::bgp_condition_changed;
use crate::policy_stmt_cfg::bgp_route_type_from_yang;
use crate::policy_stmt_cfg::bgp_set_comm_options_from_yang;
use crate::policy_stmt_cfg::bgp_set_med_from_yang;
use crate::policy_stmt_cfg::bgp_set_nexthop_from_yang;
use crate::policy_stmt_cfg::comm_changed;
use crate::policy_stmt_cfg::condition_changed;
use crate::policy_stmt_cfg::policy_result_from_yang;
use crate::policy_stmt_cfg::stmt_apply;
use crate::policy_stmt_cfg::ActionChange;
use crate::policy_stmt_cfg::BgpActionChange;
use crate::policy_stmt_cfg::BgpCommValue;
use crate::policy_stmt_cfg::BgpConditionChange;
use crate::policy_stmt_cfg::CommChange;
use crate::policy_stmt_cfg::ConditionChange;
use crate::policy_stmt_cfg::StmtChange;
use crate::policy_types::BgpEqOperator;
use crate::policy_types::BgpNexthop;
use crate::policy_types::BgpPolicyAction;
use crate::policy_types::BgpPolicyActionType;
use crate::policy_types::BgpPolicyCondition;
use crate::policy_types::BgpPolicyConditionType;
use crate::policy_types::BgpSetCommOptions;
use crate::policy_types::BgpSetMed;
use crate::policy_types::IgpRouteType;
use crate::policy_types::MatchSetRestrictedType;
use crate::policy_types::MatchSetType;
use crate::policy_types::PolicyAction;
use crate::policy_types::PolicyActionType;
use crate::policy_types::PolicyCondition;
use crate::policy_types::PolicyConditionType;
use crate::policy_types::PolicyStmt;
use crate::text::parsed;
use vstd::prelude::*;

verus! {

/// Whether a statement has a condition of a type, and which one.
pub open spec fn has_condition(m: StmtModel, k: PolicyConditionType, c: Option<PolicyCondition>) -> bool {
    &&& m.conditions.contains_key(k) <==> c is Some
    &&& c matches Some(x) ==> m.conditions[k] == ConditionModel::Plain(x)
}

/// Whether a statement has an action of a type, and which one.
pub open spec fn has_action(m: StmtModel, k: PolicyActionType, a: Option<PolicyAction>) -> bool {
    &&& m.actions.contains_key(k) <==> a is Some
    &&& a matches Some(x) ==> m.actions[k] == ActionModel::Plain(x)
}

/// The type of condition that a change is about, if it is about one.
pub open spec fn touched_condition(c: StmtChange) -> Option<PolicyConditionType> {
    match c {
        StmtChange::Condition(c) => match c {
            ConditionChange::CallPolicy(_) => Some(PolicyConditionType::CallPolicy),
            ConditionChange::SrcProtocol(_) => Some(PolicyConditionType::SrcProtocol),
            ConditionChange::MatchInterface(_) => Some(PolicyConditionType::MatchInterface),
            ConditionChange::MatchPrefixSet(_) => Some(PolicyConditionType::MatchPrefixSet),
            ConditionChange::MatchNeighborSet(_) => Some(PolicyConditionType::MatchNeighborSet),
            ConditionChange::MatchTagSet(_) => Some(PolicyConditionType::MatchTagSet),
            ConditionChange::RouteTypeAdd(_) => Some(PolicyConditionType::MatchRouteType),
            ConditionChange::RouteTypeRemove(_) => Some(PolicyConditionType::MatchRouteType),
            ConditionChange::PrefixSetOptions(_) => None,
            ConditionChange::TagSetOptions(_) => None,
            ConditionChange::Bgp(d) => Some(
                PolicyConditionType::Bgp(
                    match d {
                        BgpConditionChange::Value(t, _) => t,
                        BgpConditionChange::Operator(t, _) => t,
                        BgpConditionChange::Origin(_) => BgpPolicyConditionType::Origin,
                        BgpConditionChange::AfiSafiAdd(_) => BgpPolicyConditionType::MatchAfiSafi,
                        BgpConditionChange::AfiSafiRemove(_) => BgpPolicyConditionType::MatchAfiSafi,
                        BgpConditionChange::AfiSafiOptions(_) => BgpPolicyConditionType::MatchAfiSafi,
                        BgpConditionChange::NeighborAdd(_) => BgpPolicyConditionType::MatchNeighbor,
                        BgpConditionChange::NeighborRemove(_) => BgpPolicyConditionType::MatchNeighbor,
                        BgpConditionChange::NeighborOptions(_) => BgpPolicyConditionType::MatchNeighbor,
                        BgpConditionChange::RouteType(_) => BgpPolicyConditionType::RouteType,
                        BgpConditionChange::SetReference(t, _) => t,
                        BgpConditionChange::SetOptions(t, _) => t,
                    },
                ),
            ),
        },
        StmtChange::Action(_) => None,
    }
}

/// The type of action that a change is about, if it is about one.
pub open spec fn touched_action(c: StmtChange) -> Option<PolicyActionType> {
    match c {
        StmtChange::Condition(_) => None,
        StmtChange::Action(c) => Some(
            match c {
                ActionChange::Accept(_) => PolicyActionType::Accept,
                ActionChange::SetMetricType(_) => PolicyActionType::SetMetricType,
                ActionChange::SetRouteLevel(_) => PolicyActionType::SetRouteLevel,
                ActionChange::SetRoutePref(_) => PolicyActionType::SetRoutePref,
                ActionChange::SetTag(_) => PolicyActionType::SetTag,
                ActionChange::SetAppTag(_) => PolicyActionType::SetAppTag,
                ActionChange::Bgp(d) => PolicyActionType::Bgp(
                    match d {
                        BgpActionChange::Origin(_) => BgpPolicyActionType::SetRouteOrigin,
                        BgpActionChange::LocalPref(_) => BgpPolicyActionType::SetLocalPref,
                        BgpActionChange::Nexthop(_) => BgpPolicyActionType::SetNexthop,
                        BgpActionChange::Med(_) => BgpPolicyActionType::SetMed,
                        BgpActionChange::PrependRepeat(_) => BgpPolicyActionType::SetAsPathPrepent,
                        BgpActionChange::PrependAsn(_) => BgpPolicyActionType::SetAsPathPrepent,
                        BgpActionChange::Comm(_) => BgpPolicyActionType::SetComm,
                        BgpActionChange::ExtComm(_) => BgpPolicyActionType::SetExtComm,
                        BgpActionChange::Extv6Comm(_) => BgpPolicyActionType::SetExtv6Comm,
                        BgpActionChange::LargeComm(_) => BgpPolicyActionType::SetLargeComm,
                    },
                ),
            },
        ),
    }
}

/// A change to a statement touches the one condition or action that it is about,
/// and leaves all others, the name and the options of defined sets alone, unless
/// it is about these.
pub proof fn changes_touch_one_thing(
    stmt: &mut PolicyStmt,
    c: StmtChange,
    r: (),
    k: PolicyConditionType,
    a: PolicyActionType,
)
    requires
        call_ensures(stmt_apply, (stmt, c), r),
    ensures
        stays_but(old(stmt)@, final(stmt)@, c, k, a),
        ({
            let before = old(stmt)@;
            let after = final(stmt)@;
            &&& c matches StmtChange::Condition(ConditionChange::PrefixSetOptions(t)) ==> after.prefix_set_match_type
                == t
            &&& !(c matches StmtChange::Condition(ConditionChange::PrefixSetOptions(_)))
                ==> after.prefix_set_match_type == before.prefix_set_match_type
            &&& c matches StmtChange::Condition(ConditionChange::TagSetOptions(t)) ==> after.tag_set_match_type == t
            &&& !(c matches StmtChange::Condition(ConditionChange::TagSetOptions(_))) ==> after.tag_set_match_type
                == before.tag_set_match_type
        }),
{
    let m = old(stmt)@;
    match c {
        StmtChange::Condition(d) => {
            match d {
                ConditionChange::Bgp(e) => {
                    bgp_condition_stays(m, e, k, a);
                },
                _ => {
                    condition_stays(m, d, k, a);
                },
            }
        },
        StmtChange::Action(d) => {
            match d {
                ActionChange::Bgp(e) => {
                    bgp_action_stays(m, e, k, a);
                },
                _ => {
                    action_stays(m, d, k, a);
                },
            }
        },
    }
}

/// Whether a statement has kept its name, and any condition and action that a
/// change is not about.
pub open spec fn stays_but(
    before: StmtModel,
    after: StmtModel,
    c: StmtChange,
    k: PolicyConditionType,
    a: PolicyActionType,
) -> bool {
    &&& touched_condition(c) != Some(k) ==> after.conditions.contains_key(k) == before.conditions.contains_key(k) && (
    before.conditions.contains_key(k) ==> after.conditions[k] == before.conditions[k])
    &&& touched_action(c) != Some(a) ==> after.actions.contains_key(a) == before.actions.contains_key(a) && (
    before.actions.contains_key(a) ==> after.actions[a] == before.actions[a])
    &&& after.name == before.name
}

/// Whether the options of defined sets are the same in two statements.
spec fn same_options(a: StmtModel, b: StmtModel) -> bool {
    a.prefix_set_match_type == b.prefix_set_match_type && a.tag_set_match_type == b.tag_set_match_type
}

#[verifier::spinoff_prover]
proof fn bgp_condition_stays(m: StmtModel, c: BgpConditionChange, k: PolicyConditionType, a: PolicyActionType)
    ensures
        stays_but(m, bgp_condition_changed(m, c), StmtChange::Condition(ConditionChange::Bgp(c)), k, a),
        same_options(m, bgp_condition_changed(m, c)),
{
}

#[verifier::spinoff_prover]
proof fn condition_stays(m: StmtModel, c: ConditionChange, k: PolicyConditionType, a: PolicyActionType)
    requires
        !(c is Bgp),
    ensures
        stays_but(m, condition_changed(m, c), StmtChange::Condition(c), k, a),
        c is PrefixSetOptions || c is TagSetOptions || same_options(m, condition_changed(m, c)),
{
}

#[verifier::spinoff_prover]
proof fn bgp_action_stays(m: StmtModel, c: BgpActionChange, k: PolicyConditionType, a: PolicyActionType)
    ensures
        stays_but(m, bgp_action_changed(m, c), StmtChange::Action(ActionChange::Bgp(c)), k, a),
        same_options(m, bgp_action_changed(m, c)),
{
    match c {
        BgpActionChange::Comm(d) => {
            comm_action_stays(m, d, a);
        },
        BgpActionChange::ExtComm(d) => {
            comm_action_stays(m, d, a);
        },
        BgpActionChange::Extv6Comm(d) => {
            comm_action_stays(m, d, a);
        },
        BgpActionChange::LargeComm(d) => {
            comm_action_stays(m, d, a);
        },
        _ => {
            plain_action_stays(m, c, k, a);
        },
    }
}

#[verifier::spinoff_prover]
proof fn plain_action_stays(m: StmtModel, c: BgpActionChange, k: PolicyConditionType, a: PolicyActionType)
    requires
        !(c is Comm || c is ExtComm || c is Extv6Comm || c is LargeComm),
    ensures
        stays_but(m, bgp_action_changed(m, c), StmtChange::Action(ActionChange::Bgp(c)), k, a),
        same_options(m, bgp_action_changed(m, c)),
{
}

#[verifier::spinoff_prover]
proof fn comm_action_stays<T: BgpCommValue>(m: StmtModel, c: CommChange<T>, a: PolicyActionType)
    ensures
        ({
            let after = comm_changed(m, c);
            &&& after.conditions == m.conditions
            &&& after.name == m.name
            &&& same_options(m, after)
            &&& a != PolicyActionType::Bgp(T::action_kind_spec()) ==> after.actions.contains_key(a)
                == m.actions.contains_key(a) && (m.actions.contains_key(a) ==> after.actions[a] == m.actions[a])
        }),
{
}

#[verifier::spinoff_prover]
proof fn action_stays(m: StmtModel, c: ActionChange, k: PolicyConditionType, a: PolicyActionType)
    requires
        !(c is Bgp),
    ensures
        stays_but(m, action_change_made(m, c), StmtChange::Action(c), k, a),
        same_options(m, action_change_made(m, c)),
{
}

/// A condition or an action that is given by a value is there with that value,
/// and is gone without one.
pub proof fn values_are_put_in_place(stmt: &mut PolicyStmt, c: StmtChange, r: ())
    requires
        call_ensures(stmt_apply, (stmt, c), r),
    ensures
        ({
            let m = final(stmt)@;
            &&& c matches StmtChange::Condition(ConditionChange::CallPolicy(x)) ==> has_condition(
                m,
                PolicyConditionType::CallPolicy,
                if x is Some {
                    Some(PolicyCondition::CallPolicy(x->0))
                } else {
                    None
                },
            )
            &&& c matches StmtChange::Condition(ConditionChange::SrcProtocol(x)) ==> has_condition(
                m,
                PolicyConditionType::SrcProtocol,
                if x is Some {
                    Some(PolicyCondition::SrcProtocol(x->0))
                } else {
                    None
                },
            )
            &&& c matches StmtChange::Condition(ConditionChange::MatchInterface(x)) ==> has_condition(
                m,
                PolicyConditionType::MatchInterface,
                if x is Some {
                    Some(PolicyCondition::MatchInterface(x->0))
                } else {
                    None
                },
            )
            &&& c matches StmtChange::Condition(ConditionChange::MatchPrefixSet(x)) ==> has_condition(
                m,
                PolicyConditionType::MatchPrefixSet,
                if x is Some {
                    Some(PolicyCondition::MatchPrefixSet(x->0))
                } else {
                    None
                },
            )
            &&& c matches StmtChange::Condition(ConditionChange::MatchNeighborSet(x)) ==> has_condition(
                m,
                PolicyConditionType::MatchNeighborSet,
                if x is Some {
                    Some(PolicyCondition::MatchNeighborSet(x->0))
                } else {
                    None
                },
            )
            &&& c matches StmtChange::Condition(ConditionChange::MatchTagSet(x)) ==> has_condition(
                m,
                PolicyConditionType::MatchTagSet,
                if x is Some {
                    Some(PolicyCondition::MatchTagSet(x->0))
                } else {
                    None
                },
            )
            &&& c matches StmtChange::Condition(ConditionChange::Bgp(BgpConditionChange::Origin(x))) ==> has_condition(
                m,
                PolicyConditionType::Bgp(BgpPolicyConditionType::Origin),
                if x is Some {
                    Some(PolicyCondition::Bgp(BgpPolicyCondition::Origin(x->0)))
                } else {
                    None
                },
            )
            &&& c matches StmtChange::Condition(ConditionChange::Bgp(BgpConditionChange::RouteType(x)))
                ==> has_condition(
                m,
                PolicyConditionType::Bgp(BgpPolicyConditionType::RouteType),
                if x is Some {
                    Some(PolicyCondition::Bgp(BgpPolicyCondition::RouteType(x->0)))
                } else {
                    None
                },
            )
            &&& c matches StmtChange::Action(ActionChange::Accept(x)) ==> has_action(
                m,
                PolicyActionType::Accept,
                if x is Some {
                    Some(PolicyAction::Accept(x->0))
                } else {
                    None
                },
            )
            &&& c matches StmtChange::Action(ActionChange::SetMetricType(x)) ==> has_action(
                m,
                PolicyActionType::SetMetricType,
                if x is Some {
                    Some(PolicyAction::SetMetricType(x->0))
                } else {
                    None
                },
            )
            &&& c matches StmtChange::Action(ActionChange::SetRouteLevel(x)) ==> has_action(
                m,
                PolicyActionType::SetRouteLevel,
                if x is Some {
                    Some(PolicyAction::SetRouteLevel(x->0))
                } else {
                    None
                },
            )
            &&& c matches StmtChange::Action(ActionChange::SetRoutePref(x)) ==> has_action(
                m,
                PolicyActionType::SetRoutePref,
                if x is Some {
                    Some(PolicyAction::SetRoutePref(x->0))
                } else {
                    None
                },
            )
            &&& c matches StmtChange::Action(ActionChange::SetTag(x)) ==> has_action(
                m,
                PolicyActionType::SetTag,
                if x is Some {
                    Some(PolicyAction::SetTag(x->0))
                } else {
                    None
                },
            )
            &&& c matches StmtChange::Action(ActionChange::SetAppTag(x)) ==> has_action(
                m,
                PolicyActionType::SetAppTag,
                if x is Some {
                    Some(PolicyAction::SetAppTag(x->0))
                } else {
                    None
                },
            )
            &&& c matches StmtChange::Action(ActionChange::Bgp(BgpActionChange::Origin(x))) ==> has_action(
                m,
                PolicyActionType::Bgp(BgpPolicyActionType::SetRouteOrigin),
                if x is Some {
                    Some(PolicyAction::Bgp(BgpPolicyAction::SetRouteOrigin(x->0)))
                } else {
                    None
                },
            )
            &&& c matches StmtChange::Action(ActionChange::Bgp(BgpActionChange::LocalPref(x))) ==> has_action(
                m,
                PolicyActionType::Bgp(BgpPolicyActionType::SetLocalPref),
                if x is Some {
                    Some(PolicyAction::Bgp(BgpPolicyAction::SetLocalPref(x->0)))
                } else {
                    None
                },
            )
            &&& c matches StmtChange::Action(ActionChange::Bgp(BgpActionChange::Nexthop(x))) ==> has_action(
                m,
                PolicyActionType::Bgp(BgpPolicyActionType::SetNexthop),
                if x is Some {
                    Some(PolicyAction::Bgp(BgpPolicyAction::SetNexthop(x->0)))
                } else {
                    None
                },
            )
            &&& c matches StmtChange::Action(ActionChange::Bgp(BgpActionChange::Med(x))) ==> has_action(
                m,
                PolicyActionType::Bgp(BgpPolicyActionType::SetMed),
                if x is Some {
                    Some(PolicyAction::Bgp(BgpPolicyAction::SetMed(x->0)))
                } else {
                    None
                },
            )
        }),
{
}

/// Whether a condition compares the quantity of a type with a value.
pub open spec fn is_comparison(c: ConditionModel, t: BgpPolicyConditionType, v: u32, o: BgpEqOperator) -> bool {
    c matches ConditionModel::Plain(PolicyCondition::Bgp(b)) && {
        &&& t is LocalPref ==> b == BgpPolicyCondition::LocalPref { value: v, op: o }
        &&& t is Med ==> b == BgpPolicyCondition::Med { value: v, op: o }
        &&& t is CommCount ==> b == BgpPolicyCondition::CommCount { value: v, op: o }
        &&& t is AsPathLen ==> b == BgpPolicyCondition::AsPathLen { value: v, op: o }
    }
}

/// Whether conditions of a type compare a quantity.
pub open spec fn is_quantity(t: BgpPolicyConditionType) -> bool {
    t is LocalPref || t is Med || t is CommCount || t is AsPathLen
}

/// The value and the operator of a comparison are set apart: each keeps the other
/// as it was. A new comparison is for equality, and the operator of one that is
/// not there is not kept.
pub proof fn values_and_operators_are_apart(
    stmt: &mut PolicyStmt,
    c: StmtChange,
    r: (),
    t: BgpPolicyConditionType,
    v: u32,
    o: BgpEqOperator,
    x: u32,
    p: BgpEqOperator,
)
    requires
        call_ensures(stmt_apply, (stmt, c), r),
        is_quantity(t),
    ensures
        ({
            let k = PolicyConditionType::Bgp(t);
            let before = old(stmt)@.conditions;
            let after = final(stmt)@.conditions;
            let there = before.contains_key(k) && is_comparison(before[k], t, v, o);
            &&& c == StmtChange::Condition(ConditionChange::Bgp(BgpConditionChange::Value(t, Some(x))))
                ==> after.contains_key(k) && (there ==> is_comparison(after[k], t, x, o)) && (!before.contains_key(k)
                ==> is_comparison(after[k], t, x, BgpEqOperator::Equal))
            &&& c == StmtChange::Condition(ConditionChange::Bgp(BgpConditionChange::Value(t, None)))
                ==> !after.contains_key(k)
            &&& c == StmtChange::Condition(ConditionChange::Bgp(BgpConditionChange::Operator(t, p)))
                ==> after.contains_key(k) == before.contains_key(k) && (there ==> is_comparison(after[k], t, v, p))
        }),
{
}

/// Whether a condition refers to a set of the kind of a type.
pub open spec fn is_reference(c: ConditionModel, t: BgpPolicyConditionType, n: String, o: MatchSetType) -> bool {
    c matches ConditionModel::Plain(PolicyCondition::Bgp(b)) && {
        &&& t is MatchCommSet ==> b == BgpPolicyCondition::MatchCommSet { value: n, match_type: o }
        &&& t is MatchExtCommSet ==> b == BgpPolicyCondition::MatchExtCommSet { value: n, match_type: o }
        &&& t is MatchExtv6CommSet ==> b == BgpPolicyCondition::MatchExtv6CommSet { value: n, match_type: o }
        &&& t is MatchLargeCommSet ==> b == BgpPolicyCondition::MatchLargeCommSet { value: n, match_type: o }
        &&& t is MatchAsPathSet ==> b == BgpPolicyCondition::MatchAsPathSet { value: n, match_type: o }
    }
}

/// Whether conditions of a type refer to a set.
pub open spec fn is_set_kind(t: BgpPolicyConditionType) -> bool {
    t is MatchCommSet || t is MatchExtCommSet || t is MatchExtv6CommSet || t is MatchLargeCommSet || t is MatchAsPathSet
}

/// The set that a condition refers to and its options are set apart: each keeps
/// the other as it was. A new reference is for any member.
pub proof fn references_and_options_are_apart(
    stmt: &mut PolicyStmt,
    c: StmtChange,
    r: (),
    t: BgpPolicyConditionType,
    n: String,
    o: MatchSetType,
    x: String,
    p: MatchSetType,
)
    requires
        call_ensures(stmt_apply, (stmt, c), r),
        is_set_kind(t),
    ensures
        ({
            let k = PolicyConditionType::Bgp(t);
            let before = old(stmt)@.conditions;
            let after = final(stmt)@.conditions;
            let there = before.contains_key(k) && is_reference(before[k], t, n, o);
            &&& c == StmtChange::Condition(ConditionChange::Bgp(BgpConditionChange::SetReference(t, Some(x))))
                ==> after.contains_key(k) && (there ==> is_reference(after[k], t, x, o)) && (!before.contains_key(k)
                ==> is_reference(after[k], t, x, MatchSetType::Any))
            &&& c == StmtChange::Condition(ConditionChange::Bgp(BgpConditionChange::SetReference(t, None)))
                ==> !after.contains_key(k)
            &&& c == StmtChange::Condition(ConditionChange::Bgp(BgpConditionChange::SetOptions(t, p)))
                ==> after.contains_key(k) == before.contains_key(k) && (there ==> is_reference(after[k], t, n, p))
        }),
{
}

/// Whether an address family is among those that a statement asks for.
pub open spec fn asks_family(m: StmtModel, a: AfiSafi) -> bool {
    let k = PolicyConditionType::Bgp(BgpPolicyConditionType::MatchAfiSafi);
    m.conditions.contains_key(k) && (m.conditions[k] matches ConditionModel::AfiSafis { values, .. } && values.contains(
        a,
    ))
}

/// Whether a neighbor is among those that a statement asks for.
pub open spec fn asks_neighbor(m: StmtModel, a: IpAddr) -> bool {
    let k = PolicyConditionType::Bgp(BgpPolicyConditionType::MatchNeighbor);
    m.conditions.contains_key(k) && (m.conditions[k] matches ConditionModel::Neighbors { value, .. } && value.contains(
        a,
    ))
}

/// Whether a route type is among those that a statement asks for.
pub open spec fn asks_route_type(m: StmtModel, t: IgpRouteType) -> bool {
    let k = PolicyConditionType::MatchRouteType;
    m.conditions.contains_key(k) && (m.conditions[k] matches ConditionModel::RouteTypes(s) && s.contains(t))
}

/// Address families, neighbors and route types are added to a condition and taken
/// from it one by one, and with the last one the condition goes. Their options
/// are kept meanwhile, and are those of any member at first.
pub proof fn lists_grow_and_shrink(
    stmt: &mut PolicyStmt,
    c: StmtChange,
    r: (),
    a: AfiSafi,
    n: IpAddr,
    t: IgpRouteType,
    o: MatchSetRestrictedType,
)
    requires
        call_ensures(stmt_apply, (stmt, c), r),
    ensures
        ({
            let before = old(stmt)@;
            let after = final(stmt)@;
            let fam = PolicyConditionType::Bgp(BgpPolicyConditionType::MatchAfiSafi);
            let nbr = PolicyConditionType::Bgp(BgpPolicyConditionType::MatchNeighbor);
            let had_fam = before.conditions.contains_key(fam) && before.conditions[fam] is AfiSafis;
            let had_nbr = before.conditions.contains_key(nbr) && before.conditions[nbr] is Neighbors;
            &&& c matches StmtChange::Condition(ConditionChange::Bgp(BgpConditionChange::AfiSafiAdd(x))) ==> (
            asks_family(after, a) <==> a == x || asks_family(before, a)) && after.conditions.contains_key(fam) && (
            after.conditions[fam] matches ConditionModel::AfiSafis { match_type, .. } && (had_fam ==> match_type
                == before.conditions[fam]->AfiSafis_match_type) && (!had_fam ==> match_type
                == MatchSetRestrictedType::Any))
            &&& c matches StmtChange::Condition(ConditionChange::Bgp(BgpConditionChange::AfiSafiRemove(x))) ==> (
            asks_family(after, a) <==> a != x && asks_family(before, a)) && (had_fam && after.conditions.contains_key(
                fam,
            ) ==> (after.conditions[fam] matches ConditionModel::AfiSafis { match_type, .. } && match_type
                == before.conditions[fam]->AfiSafis_match_type)) && (had_fam && after.conditions.contains_key(fam)
                ==> exists|y: AfiSafi| asks_family(after, y))
            &&& c matches StmtChange::Condition(ConditionChange::Bgp(BgpConditionChange::AfiSafiOptions(x))) ==> (
            asks_family(after, a) <==> asks_family(before, a)) && (had_fam ==> (
            after.conditions[fam] matches ConditionModel::AfiSafis { match_type, .. } && match_type == x))
            &&& c matches StmtChange::Condition(ConditionChange::Bgp(BgpConditionChange::NeighborAdd(x))) ==> (
            asks_neighbor(after, n) <==> n == x || asks_neighbor(before, n)) && after.conditions.contains_key(nbr) && (
            after.conditions[nbr] matches ConditionModel::Neighbors { match_type, .. } && (had_nbr ==> match_type
                == before.conditions[nbr]->Neighbors_match_type) && (!had_nbr ==> match_type
                == MatchSetRestrictedType::Any))
            &&& c matches StmtChange::Condition(ConditionChange::Bgp(BgpConditionChange::NeighborRemove(x))) ==> (
            asks_neighbor(after, n) <==> n != x && asks_neighbor(before, n)) && (had_nbr
                && after.conditions.contains_key(nbr) ==> (after.conditions[nbr] matches ConditionModel::Neighbors {
                match_type,
                ..
            } && match_type == before.conditions[nbr]->Neighbors_match_type)) && (had_nbr
                && after.conditions.contains_key(nbr) ==> exists|y: IpAddr| asks_neighbor(after, y))
            &&& c matches StmtChange::Condition(ConditionChange::Bgp(BgpConditionChange::NeighborOptions(x))) ==> (
            asks_neighbor(after, n) <==> asks_neighbor(before, n)) && (had_nbr ==> (
            after.conditions[nbr] matches ConditionModel::Neighbors { match_type, .. } && match_type == x))
            &&& c matches StmtChange::Condition(ConditionChange::RouteTypeAdd(x)) ==> (asks_route_type(after, t) <==> t
                == x || asks_route_type(before, t))
            &&& c matches StmtChange::Condition(ConditionChange::RouteTypeRemove(x)) ==> (asks_route_type(after, t)
                <==> t != x && asks_route_type(before, t))
        }),
{
    let before = old(stmt)@;
    let after = final(stmt)@;
    let fam = PolicyConditionType::Bgp(BgpPolicyConditionType::MatchAfiSafi);
    let nbr = PolicyConditionType::Bgp(BgpPolicyConditionType::MatchNeighbor);
    if let StmtChange::Condition(ConditionChange::Bgp(BgpConditionChange::AfiSafiRemove(x))) = c {
        if before.conditions.contains_key(fam) && before.conditions[fam] is AfiSafis {
            let rest = before.conditions[fam]->values.remove(x);
            if !(rest =~= Set::<AfiSafi>::empty()) {
                let y = choose|y: AfiSafi| rest.contains(y);
                assert(asks_family(after, y));
            } else {
                assert(!rest.contains(a));
            }
        }
    }
    if let StmtChange::Condition(ConditionChange::Bgp(BgpConditionChange::NeighborRemove(x))) = c {
        if before.conditions.contains_key(nbr) && before.conditions[nbr] is Neighbors {
            let rest = before.conditions[nbr]->value.remove(x);
            if !(rest =~= Set::<IpAddr>::empty()) {
                let y = choose|y: IpAddr| rest.contains(y);
                assert(asks_neighbor(after, y));
            } else {
                assert(!rest.contains(n));
            }
        }
    }
    if let StmtChange::Condition(ConditionChange::RouteTypeRemove(x)) = c {
        let k = PolicyConditionType::MatchRouteType;
        if before.conditions.contains_key(k) && before.conditions[k] is RouteTypes {
            let rest = before.conditions[k]->RouteTypes_0.remove(x);
            if rest =~= Set::<IgpRouteType>::empty() {
                assert(!rest.contains(t));
            }
        }
    }
}

/// The AS number and the count of a prepended path are set apart; without an AS
/// number there is nothing to prepend.
pub proof fn prepending_is_set_apart(
    stmt: &mut PolicyStmt,
    c: StmtChange,
    r: (),
    asn: u32,
    repeat: Option<u8>,
    n: u32,
    times: Option<u8>,
)
    requires
        call_ensures(stmt_apply, (stmt, c), r),
        call_ensures(bgp_as_path_prepend_get_asn, (&*old(stmt),), asn),
        call_ensures(bgp_as_path_prepend_get_repeat, (&*old(stmt),), repeat),
    ensures
        ({
            let k = PolicyActionType::Bgp(BgpPolicyActionType::SetAsPathPrepent);
            let before = old(stmt)@;
            let after = final(stmt)@;
            &&& !before.actions.contains_key(k) ==> asn == 0 && repeat is None
            &&& has_action(
                before,
                k,
                Some(PolicyAction::Bgp(BgpPolicyAction::SetAsPathPrepent { asn: n, repeat: times })),
            ) ==> asn == n && repeat == times
            &&& c == StmtChange::Action(ActionChange::Bgp(BgpActionChange::PrependAsn(Some(n)))) ==> has_action(
                after,
                k,
                Some(PolicyAction::Bgp(BgpPolicyAction::SetAsPathPrepent { asn: n, repeat })),
            )
            &&& c == StmtChange::Action(ActionChange::Bgp(BgpActionChange::PrependAsn(None)))
                ==> !after.actions.contains_key(k)
            &&& c == StmtChange::Action(ActionChange::Bgp(BgpActionChange::PrependRepeat(times))) ==> has_action(
                after,
                k,
                Some(PolicyAction::Bgp(BgpPolicyAction::SetAsPathPrepent { asn, repeat: times })),
            )
        }),
{
}

/// Each kind of community has an action of its own.
pub proof fn communities_have_their_actions(
    o: BgpSetCommOptions,
    a: MethodModel<Comm>,
    b: MethodModel<ExtComm>,
    c: MethodModel<Extv6Comm>,
    d: MethodModel<LargeComm>,
)
    ensures
        Comm::action_kind_spec() == BgpPolicyActionType::SetComm && Comm::action_spec(o, a) == ActionModel::SetComm(
            o,
            a,
        ),
        ExtComm::action_kind_spec() == BgpPolicyActionType::SetExtComm && ExtComm::action_spec(o, b)
            == ActionModel::SetExtComm(o, b),
        Extv6Comm::action_kind_spec() == BgpPolicyActionType::SetExtv6Comm && Extv6Comm::action_spec(o, c)
            == ActionModel::SetExtv6Comm(o, c),
        LargeComm::action_kind_spec() == BgpPolicyActionType::SetLargeComm && LargeComm::action_spec(o, d)
            == ActionModel::SetLargeComm(o, d),
{
}

/// Whether a statement sets communities of a kind in a way.
pub open spec fn sets<T: BgpCommValue>(m: StmtModel, o: BgpSetCommOptions, method: MethodModel<T>) -> bool {
    let k = PolicyActionType::Bgp(T::action_kind_spec());
    m.actions.contains_key(k) && m.actions[k] == T::action_spec(o, method)
}

/// Whether a statement has no action on communities of a kind.
pub open spec fn sets_none<T: BgpCommValue>(m: StmtModel) -> bool {
    !m.actions.contains_key(PolicyActionType::Bgp(T::action_kind_spec()))
}

/// How an action on communities follows a change: the options and what is set
/// keep each other. Communities that are listed take the place of a reference,
/// and a reference that of a list. A new action adds to what a route has.
pub open spec fn action_follows<T: BgpCommValue>(
    before: StmtModel,
    after: StmtModel,
    c: CommChange<T>,
    o: BgpSetCommOptions,
    list: Set<T>,
    name: String,
) -> bool {
    &&& c matches CommChange::Options(x) ==> (sets(before, o, MethodModel::Inline(list)) ==> sets(
        after,
        x,
        MethodModel::Inline(list),
    )) && (sets(before, o, MethodModel::<T>::Reference(name)) ==> sets(after, x, MethodModel::<T>::Reference(name))) && (
    sets_none::<T>(before) ==> sets(after, x, MethodModel::Inline(Set::<T>::empty())))
    &&& c matches CommChange::InlineAdd(y) ==> (sets(before, o, MethodModel::Inline(list)) ==> sets(
        after,
        o,
        MethodModel::Inline(list.insert(y)),
    )) && (sets(before, o, MethodModel::<T>::Reference(name)) ==> sets(
        after,
        o,
        MethodModel::Inline(set![y]),
    )) && (sets_none::<T>(before) ==> sets(after, BgpSetCommOptions::Add, MethodModel::Inline(set![y])))
    &&& c matches CommChange::InlineRemove(y) ==> (sets(before, o, MethodModel::Inline(list)) ==> sets(
        after,
        o,
        MethodModel::Inline(list.remove(y)),
    )) && (sets(before, o, MethodModel::<T>::Reference(name)) ==> sets(
        after,
        o,
        MethodModel::<T>::Reference(name),
    )) && (sets_none::<T>(before) ==> sets_none::<T>(after))
    &&& c matches CommChange::Reference(n) ==> (sets(before, o, MethodModel::Inline(list)) || sets(
        before,
        o,
        MethodModel::<T>::Reference(name),
    ) ==> sets(after, o, MethodModel::<T>::Reference(n))) && (sets_none::<T>(before) ==> sets(
        after,
        BgpSetCommOptions::Add,
        MethodModel::<T>::Reference(n),
    ))
    &&& c is ReferenceDelete ==> sets_none::<T>(after)
}

proof fn changed_action_follows<T: BgpCommValue>(
    m: StmtModel,
    c: CommChange<T>,
    o: BgpSetCommOptions,
    list: Set<T>,
    name: String,
)
    ensures
        action_follows(m, comm_changed(m, c), c, o, list, name),
{
    T::action_has_its_parts(o, MethodModel::Inline(list));
    T::action_has_its_parts(o, MethodModel::Reference(name));
    if let CommChange::InlineAdd(y) = c {
        assert(Set::<T>::empty().insert(y) =~= set![y]);
    }
}

/// Actions on communities follow changes, each kind by itself.
pub proof fn community_actions_follow_changes(
    stmt: &mut PolicyStmt,
    c: StmtChange,
    r: (),
    o: BgpSetCommOptions,
    name: String,
    l1: Set<Comm>,
    l2: Set<ExtComm>,
    l3: Set<Extv6Comm>,
    l4: Set<LargeComm>,
)
    requires
        call_ensures(stmt_apply, (stmt, c), r),
    ensures
        c matches StmtChange::Action(ActionChange::Bgp(BgpActionChange::Comm(d))) ==> action_follows(
            old(stmt)@,
            final(stmt)@,
            d,
            o,
            l1,
            name,
        ),
        c matches StmtChange::Action(ActionChange::Bgp(BgpActionChange::ExtComm(d))) ==> action_follows(
            old(stmt)@,
            final(stmt)@,
            d,
            o,
            l2,
            name,
        ),
        c matches StmtChange::Action(ActionChange::Bgp(BgpActionChange::Extv6Comm(d))) ==> action_follows(
            old(stmt)@,
            final(stmt)@,
            d,
            o,
            l3,
            name,
        ),
        c matches StmtChange::Action(ActionChange::Bgp(BgpActionChange::LargeComm(d))) ==> action_follows(
            old(stmt)@,
            final(stmt)@,
            d,
            o,
            l4,
            name,
        ),
{
    if let StmtChange::Action(ActionChange::Bgp(d)) = c {
        match d {
            BgpActionChange::Comm(d) => {
                changed_action_follows(old(stmt)@, d, o, l1, name);
            },
            BgpActionChange::ExtComm(d) => {
                changed_action_follows(old(stmt)@, d, o, l2, name);
            },
            BgpActionChange::Extv6Comm(d) => {
                changed_action_follows(old(stmt)@, d, o, l3, name);
            },
            BgpActionChange::LargeComm(d) => {
                changed_action_follows(old(stmt)@, d, o, l4, name);
            },
            _ => {},
        }
    }
}

/// What the texts for options of actions on communities stand for.
pub proof fn options_are_read(value: &str, options: BgpSetCommOptions)
    requires
        call_ensures(bgp_set_comm_options_from_yang, (value,), options),
    ensures
        value@ == "add"@ ==> options == BgpSetCommOptions::Add,
        value@ == "remove"@ ==> options == BgpSetCommOptions::Remove,
        value@ == "replace"@ ==> options == BgpSetCommOptions::Replace,
{
    reveal_strlit("add");
    reveal_strlit("remove");
    reveal_strlit("replace");
    assert("add"@.len() == 3 && "remove"@.len() == 6 && "replace"@.len() == 7);
}

/// What other texts of the configuration stand for.
pub proof fn texts_are_read(
    value: &str,
    addr: Option<IpAddr>,
    nexthop: Option<BgpNexthop>,
    t: Option<RouteType>,
    accept: bool,
)
    requires
        call_ensures(bgp_set_nexthop_from_yang, (value, addr), nexthop),
        call_ensures(bgp_route_type_from_yang, (value,), t),
        call_ensures(policy_result_from_yang, (value,), accept),
    ensures
        value@ == "self"@ ==> nexthop == Some(BgpNexthop::NexthopSelf),
        value@ != "self"@ ==> (nexthop is Some <==> addr is Some),
        value@ != "self"@ && addr is Some ==> nexthop == Some(BgpNexthop::Addr(addr->0)),
        t == Some(RouteType::Internal) <==> value@ == "internal"@,
        t == Some(RouteType::External) <==> value@ == "external"@,
        accept <==> value@ == "accept-route"@,
{
    reveal_strlit("internal");
    reveal_strlit("external");
    assert("internal"@[0] == 'i' && "external"@[0] == 'e');
}

/// A change of the multi-exit discriminator is read as the words for the interior
/// metric, as a number with a sign by which it changes, or as the number that it
/// is set to.
pub proof fn med_texts_are_read(value: &str, r: Option<BgpSetMed>, n: u32)
    requires
        call_ensures(bgp_set_med_from_yang, (value,), r),
    ensures
        value@ == "igp"@ <==> r == Some(BgpSetMed::Igp),
        value@ == "med-plus-igp"@ <==> r == Some(BgpSetMed::MedPlusIgp),
        r == Some(BgpSetMed::Add(n)) <==> value@.len() > 0 && value@[0] == '+' && parsed(
            value@.skip(1),
            0xFFFF_FFFF,
        ) == Some(n as nat),
        r == Some(BgpSetMed::Subtract(n)) <==> value@.len() > 0 && value@[0] == '-' && parsed(
            value@.skip(1),
            0xFFFF_FFFF,
        ) == Some(n as nat),
        r == Some(BgpSetMed::Assign(n)) ==> parsed(value@, 0xFFFF_FFFF) == Some(n as nat),
        value@.len() > 0 && value@[0] != '+' && value@[0] != '-' && value@ != "igp"@ && value@ != "med-plus-igp"@
            && parsed(value@, 0xFFFF_FFFF) == Some(n as nat) ==> r == Some(BgpSetMed::Assign(n)),
{
    reveal_strlit("igp");
    reveal_strlit("med-plus-igp");
    assert("igp"@[0] == 'i' && "med-plus-igp"@[0] == 'm');
}

}
