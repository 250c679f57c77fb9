//! Configuration of policy statements.
use crate::bgp::AfiSafi;
use crate::bgp::Comm;
use crate::bgp::ExtComm;
use crate::bgp::Extv6Comm;
use crate::bgp::LargeComm;
use crate::bgp::Origin;
use crate::bgp::RouteType;
use crate::ip::IpAddr;
use crate::ord::models_insert;
use crate::ord::models_remove;
use crate::ord::Duplicate;
use crate::ord::Ranked;
use crate::ord::SortedSet;
use crate::policy_model::ActionModel;
use crate::policy_model::ConditionModel;
use crate::policy_model::MethodModel;
use crate::policy_model::StmtModel;
use crate::policy_types::action_type;
use crate::policy_types::action_wf;
use crate::policy_types::condition_type;
use crate::policy_types::condition_wf;
use crate::policy_types::method_wf;
use crate::policy_types::BgpEqOperator;
use crate::policy_types::BgpNexthop;
use crate::policy_types::BgpPolicyAction;
use crate::policy_types::BgpPolicyActionType;
use crate::policy_types::BgpPolicyCondition;
use crate::policy_types::BgpPolicyConditionType;
use crate::policy_types::BgpSetCommMethod;
use crate::policy_types::BgpSetCommOptions;
use crate::policy_types::BgpSetMed;
use crate::policy_types::IgpRouteType;
use crate::policy_types::MatchSetRestrictedType;
use crate::policy_types::MatchSetType;
use crate::policy_types::MetricType;
use crate::policy_types::PolicyAction;
use crate::policy_types::PolicyActionType;
use crate::policy_types::PolicyCondition;
use crate::policy_types::PolicyConditionType;
use crate::policy_types::PolicyStmt;
use crate::policy_types::RouteLevel;
use crate::protocol::Protocol;
use crate::text::parse_number;
use crate::text::parsed;
use crate::text::same_text;
use vstd::prelude::*;
use vstd::string::StrSliceExecFns;

verus! {

/// A statement with a condition put in place of the one of its type.
pub open spec fn with_condition(m: StmtModel, k: PolicyConditionType, c: ConditionModel) -> StmtModel {
    StmtModel { conditions: m.conditions.insert(k, c), ..m }
}

/// A statement without the condition of a type.
pub open spec fn without_condition(m: StmtModel, k: PolicyConditionType) -> StmtModel {
    StmtModel { conditions: m.conditions.remove(k), ..m }
}

/// A statement with an action put in place of the one of its type.
pub open spec fn with_action(m: StmtModel, k: PolicyActionType, a: ActionModel) -> StmtModel {
    StmtModel { actions: m.actions.insert(k, a), ..m }
}

/// A statement without the action of a type.
pub open spec fn without_action(m: StmtModel, k: PolicyActionType) -> StmtModel {
    StmtModel { actions: m.actions.remove(k), ..m }
}

fn put_condition(stmt: &mut PolicyStmt, condition: PolicyCondition)
    requires
        old(stmt).wf(),
        condition_wf(condition),
    ensures
        final(stmt).wf(),
        final(stmt)@ == with_condition(old(stmt)@, condition_type(condition), condition@),
{
    proof {
        models_insert(stmt.conditions@, condition_type(condition), condition);
    }
    stmt.condition_add(condition);
}

fn drop_condition(stmt: &mut PolicyStmt, cond_type: PolicyConditionType)
    requires
        old(stmt).wf(),
    ensures
        final(stmt).wf(),
        final(stmt)@ == without_condition(old(stmt)@, cond_type),
{
    proof {
        models_remove(stmt.conditions@, cond_type);
    }
    stmt.condition_remove(cond_type);
}

fn put_action(stmt: &mut PolicyStmt, action: PolicyAction)
    requires
        old(stmt).wf(),
        action_wf(action),
    ensures
        final(stmt).wf(),
        final(stmt)@ == with_action(old(stmt)@, action_type(action), action@),
{
    proof {
        models_insert(stmt.actions@, action_type(action), action);
    }
    stmt.action_add(action);
}

fn drop_action(stmt: &mut PolicyStmt, action_type: PolicyActionType)
    requires
        old(stmt).wf(),
    ensures
        final(stmt).wf(),
        final(stmt)@ == without_action(old(stmt)@, action_type),
{
    proof {
        models_remove(stmt.actions@, action_type);
    }
    stmt.action_remove(action_type);
}

/// A BGP condition without a set, as a condition.
pub open spec fn plain(c: BgpPolicyCondition) -> ConditionModel {
    ConditionModel::Plain(PolicyCondition::Bgp(c))
}

/// Whether conditions of a type compare a value.
pub open spec fn compares(t: BgpPolicyConditionType) -> bool {
    t is LocalPref || t is Med || t is CommCount || t is AsPathLen
}

/// A condition that compares a value.
pub open spec fn comparison(t: BgpPolicyConditionType, value: u32, op: BgpEqOperator) -> BgpPolicyCondition {
    match t {
        BgpPolicyConditionType::LocalPref => BgpPolicyCondition::LocalPref { value, op },
        BgpPolicyConditionType::Med => BgpPolicyCondition::Med { value, op },
        BgpPolicyConditionType::CommCount => BgpPolicyCondition::CommCount { value, op },
        _ => BgpPolicyCondition::AsPathLen { value, op },
    }
}

/// The value and the operator of a condition that compares a value.
pub open spec fn compared(c: ConditionModel) -> Option<(u32, BgpEqOperator)> {
    match c {
        ConditionModel::Plain(PolicyCondition::Bgp(BgpPolicyCondition::LocalPref { value, op })) => Some((value, op)),
        ConditionModel::Plain(PolicyCondition::Bgp(BgpPolicyCondition::Med { value, op })) => Some((value, op)),
        ConditionModel::Plain(PolicyCondition::Bgp(BgpPolicyCondition::CommCount { value, op })) => Some((value, op)),
        ConditionModel::Plain(PolicyCondition::Bgp(BgpPolicyCondition::AsPathLen { value, op })) => Some((value, op)),
        _ => None,
    }
}

/// The operator that is configured of a condition, or equality.
pub open spec fn operator_of(m: StmtModel, t: BgpPolicyConditionType) -> BgpEqOperator {
    let k = PolicyConditionType::Bgp(t);
    if m.conditions.contains_key(k) {
        match compared(m.conditions[k]) {
            Some((_, op)) => op,
            None => BgpEqOperator::Equal,
        }
    } else {
        BgpEqOperator::Equal
    }
}

/// A statement after the operator of a condition is configured. Without the
/// condition nothing changes.
pub open spec fn operator_set(m: StmtModel, t: BgpPolicyConditionType, op: BgpEqOperator) -> StmtModel {
    let k = PolicyConditionType::Bgp(t);
    if m.conditions.contains_key(k) {
        match compared(m.conditions[k]) {
            Some((value, _)) => with_condition(m, k, plain(comparison(t, value, op))),
            None => m,
        }
    } else {
        m
    }
}

/// The operator that is configured of a condition, or equality.
pub fn bgp_cond_get_op(stmt: &PolicyStmt, cond_type: BgpPolicyConditionType) -> (r: BgpEqOperator)
    requires
        stmt.wf(),
    ensures
        r == operator_of(stmt@, cond_type),
{
    let key = PolicyConditionType::Bgp(cond_type);
    assert(stmt@.conditions.contains_key(key) == stmt.conditions@.contains_key(key));
    match stmt.conditions.get(&key) {
        Some(PolicyCondition::Bgp(c)) => match c {
            BgpPolicyCondition::LocalPref { op, .. } => *op,
            BgpPolicyCondition::Med { op, .. } => *op,
            BgpPolicyCondition::CommCount { op, .. } => *op,
            BgpPolicyCondition::AsPathLen { op, .. } => *op,
            _ => BgpEqOperator::Equal,
        },
        _ => BgpEqOperator::Equal,
    }
}

fn make_comparison(cond_type: BgpPolicyConditionType, value: u32, op: BgpEqOperator) -> (r: BgpPolicyCondition)
    ensures
        r == comparison(cond_type, value, op),
{
    match cond_type {
        BgpPolicyConditionType::LocalPref => BgpPolicyCondition::LocalPref { value, op },
        BgpPolicyConditionType::Med => BgpPolicyCondition::Med { value, op },
        BgpPolicyConditionType::CommCount => BgpPolicyCondition::CommCount { value, op },
        _ => BgpPolicyCondition::AsPathLen { value, op },
    }
}

/// Configures the operator of a condition.
pub fn bgp_cond_set_op(stmt: &mut PolicyStmt, cond_type: BgpPolicyConditionType, op: BgpEqOperator)
    requires
        old(stmt).wf(),
    ensures
        final(stmt).wf(),
        final(stmt)@ == operator_set(old(stmt)@, cond_type, op),
{
    let key = PolicyConditionType::Bgp(cond_type);
    assert(stmt@.conditions.contains_key(key) == stmt.conditions@.contains_key(key));
    let value = match stmt.conditions.get(&key) {
        Some(PolicyCondition::Bgp(c)) => match c {
            BgpPolicyCondition::LocalPref { value, .. } => Some(*value),
            BgpPolicyCondition::Med { value, .. } => Some(*value),
            BgpPolicyCondition::CommCount { value, .. } => Some(*value),
            BgpPolicyCondition::AsPathLen { value, .. } => Some(*value),
            _ => None,
        },
        _ => None,
    };
    if let Some(value) = value {
        put_condition(stmt, PolicyCondition::Bgp(make_comparison(cond_type, value, op)));
    }
}

/// Configures the value of a condition. The operator stays.
pub fn bgp_cond_set_value(stmt: &mut PolicyStmt, cond_type: BgpPolicyConditionType, value: u32)
    requires
        old(stmt).wf(),
        compares(cond_type),
    ensures
        final(stmt).wf(),
        final(stmt)@ == with_condition(
            old(stmt)@,
            PolicyConditionType::Bgp(cond_type),
            plain(comparison(cond_type, value, operator_of(old(stmt)@, cond_type))),
        ),
{
    let op = bgp_cond_get_op(stmt, cond_type);
    put_condition(stmt, PolicyCondition::Bgp(make_comparison(cond_type, value, op)));
}

/// Whether conditions of a type refer to a defined set.
pub open spec fn refers(t: BgpPolicyConditionType) -> bool {
    t is MatchCommSet || t is MatchExtCommSet || t is MatchExtv6CommSet || t is MatchLargeCommSet || t is MatchAsPathSet
}

/// A condition that refers to a defined set.
pub open spec fn reference(t: BgpPolicyConditionType, value: String, match_type: MatchSetType) -> BgpPolicyCondition {
    match t {
        BgpPolicyConditionType::MatchCommSet => BgpPolicyCondition::MatchCommSet { value, match_type },
        BgpPolicyConditionType::MatchExtCommSet => BgpPolicyCondition::MatchExtCommSet { value, match_type },
        BgpPolicyConditionType::MatchExtv6CommSet => BgpPolicyCondition::MatchExtv6CommSet { value, match_type },
        BgpPolicyConditionType::MatchLargeCommSet => BgpPolicyCondition::MatchLargeCommSet { value, match_type },
        _ => BgpPolicyCondition::MatchAsPathSet { value, match_type },
    }
}

/// The set and the options of a condition that refers to a defined set.
pub open spec fn referred(c: ConditionModel) -> Option<(String, MatchSetType)> {
    match c {
        ConditionModel::Plain(PolicyCondition::Bgp(BgpPolicyCondition::MatchCommSet { value, match_type })) => Some(
            (value, match_type),
        ),
        ConditionModel::Plain(PolicyCondition::Bgp(BgpPolicyCondition::MatchExtCommSet { value, match_type })) => Some(
            (value, match_type),
        ),
        ConditionModel::Plain(
            PolicyCondition::Bgp(BgpPolicyCondition::MatchExtv6CommSet { value, match_type }),
        ) => Some((value, match_type)),
        ConditionModel::Plain(
            PolicyCondition::Bgp(BgpPolicyCondition::MatchLargeCommSet { value, match_type }),
        ) => Some((value, match_type)),
        ConditionModel::Plain(PolicyCondition::Bgp(BgpPolicyCondition::MatchAsPathSet { value, match_type })) => Some(
            (value, match_type),
        ),
        _ => None,
    }
}

/// The options that are configured of a condition, or that any member matches.
pub open spec fn set_options_of(m: StmtModel, t: BgpPolicyConditionType) -> MatchSetType {
    let k = PolicyConditionType::Bgp(t);
    if m.conditions.contains_key(k) {
        match referred(m.conditions[k]) {
            Some((_, match_type)) => match_type,
            None => MatchSetType::Any,
        }
    } else {
        MatchSetType::Any
    }
}

/// A statement after the options of a condition are configured. Without the
/// condition nothing changes.
pub open spec fn set_options_set(m: StmtModel, t: BgpPolicyConditionType, match_type: MatchSetType) -> StmtModel {
    let k = PolicyConditionType::Bgp(t);
    if m.conditions.contains_key(k) {
        match referred(m.conditions[k]) {
            Some((value, _)) => with_condition(m, k, plain(reference(t, value, match_type))),
            None => m,
        }
    } else {
        m
    }
}

/// The options that are configured of a condition, or that any member matches.
pub fn bgp_match_set_type_get(stmt: &PolicyStmt, cond_type: BgpPolicyConditionType) -> (r: MatchSetType)
    requires
        stmt.wf(),
    ensures
        r == set_options_of(stmt@, cond_type),
{
    let key = PolicyConditionType::Bgp(cond_type);
    assert(stmt@.conditions.contains_key(key) == stmt.conditions@.contains_key(key));
    match stmt.conditions.get(&key) {
        Some(PolicyCondition::Bgp(c)) => match c {
            BgpPolicyCondition::MatchCommSet { match_type, .. } => *match_type,
            BgpPolicyCondition::MatchExtCommSet { match_type, .. } => *match_type,
            BgpPolicyCondition::MatchExtv6CommSet { match_type, .. } => *match_type,
            BgpPolicyCondition::MatchLargeCommSet { match_type, .. } => *match_type,
            BgpPolicyCondition::MatchAsPathSet { match_type, .. } => *match_type,
            _ => MatchSetType::Any,
        },
        _ => MatchSetType::Any,
    }
}

fn make_reference(cond_type: BgpPolicyConditionType, value: String, match_type: MatchSetType) -> (r:
    BgpPolicyCondition)
    ensures
        r == reference(cond_type, value, match_type),
{
    match cond_type {
        BgpPolicyConditionType::MatchCommSet => BgpPolicyCondition::MatchCommSet { value, match_type },
        BgpPolicyConditionType::MatchExtCommSet => BgpPolicyCondition::MatchExtCommSet { value, match_type },
        BgpPolicyConditionType::MatchExtv6CommSet => BgpPolicyCondition::MatchExtv6CommSet { value, match_type },
        BgpPolicyConditionType::MatchLargeCommSet => BgpPolicyCondition::MatchLargeCommSet { value, match_type },
        _ => BgpPolicyCondition::MatchAsPathSet { value, match_type },
    }
}

/// Configures the defined set that a condition refers to. The options stay.
pub fn bgp_match_set_ref(stmt: &mut PolicyStmt, cond_type: BgpPolicyConditionType, set_name: String)
    requires
        old(stmt).wf(),
        refers(cond_type),
    ensures
        final(stmt).wf(),
        final(stmt)@ == with_condition(
            old(stmt)@,
            PolicyConditionType::Bgp(cond_type),
            plain(reference(cond_type, set_name, set_options_of(old(stmt)@, cond_type))),
        ),
{
    let match_type = bgp_match_set_type_get(stmt, cond_type);
    put_condition(stmt, PolicyCondition::Bgp(make_reference(cond_type, set_name, match_type)));
}

/// Configures the options of a condition that refers to a defined set.
pub fn bgp_match_set_options(stmt: &mut PolicyStmt, cond_type: BgpPolicyConditionType, match_type: MatchSetType)
    requires
        old(stmt).wf(),
    ensures
        final(stmt).wf(),
        final(stmt)@ == set_options_set(old(stmt)@, cond_type, match_type),
{
    let key = PolicyConditionType::Bgp(cond_type);
    assert(stmt@.conditions.contains_key(key) == stmt.conditions@.contains_key(key));
    let value = match stmt.conditions.get(&key) {
        Some(PolicyCondition::Bgp(c)) => match c {
            BgpPolicyCondition::MatchCommSet { value, .. } => Some(value.clone()),
            BgpPolicyCondition::MatchExtCommSet { value, .. } => Some(value.clone()),
            BgpPolicyCondition::MatchExtv6CommSet { value, .. } => Some(value.clone()),
            BgpPolicyCondition::MatchLargeCommSet { value, .. } => Some(value.clone()),
            BgpPolicyCondition::MatchAsPathSet { value, .. } => Some(value.clone()),
            _ => None,
        },
        _ => None,
    };
    if let Some(value) = value {
        put_condition(stmt, PolicyCondition::Bgp(make_reference(cond_type, value, match_type)));
    }
}

/// Takes out a condition that refers to a defined set.
pub fn bgp_match_set_delete(stmt: &mut PolicyStmt, cond_type: BgpPolicyConditionType)
    requires
        old(stmt).wf(),
    ensures
        final(stmt).wf(),
        final(stmt)@ == without_condition(old(stmt)@, PolicyConditionType::Bgp(cond_type)),
{
    drop_condition(stmt, PolicyConditionType::Bgp(cond_type));
}

/// The route types of a statement, and whether they are configured.
pub open spec fn route_types_of(m: StmtModel) -> Option<Set<IgpRouteType>> {
    if m.conditions.contains_key(PolicyConditionType::MatchRouteType) {
        match m.conditions[PolicyConditionType::MatchRouteType] {
            ConditionModel::RouteTypes(s) => Some(s),
            _ => None,
        }
    } else {
        None
    }
}

/// A statement after a route type is added.
pub open spec fn route_type_added(m: StmtModel, t: IgpRouteType) -> StmtModel {
    let s = match route_types_of(m) {
        Some(s) => s.insert(t),
        None => Set::empty().insert(t),
    };
    with_condition(m, PolicyConditionType::MatchRouteType, ConditionModel::RouteTypes(s))
}

/// A statement after a route type is removed. The condition goes with its last
/// route type.
pub open spec fn route_type_removed(m: StmtModel, t: IgpRouteType) -> StmtModel {
    let k = PolicyConditionType::MatchRouteType;
    match route_types_of(m) {
        Some(s) => if s.remove(t) =~= Set::empty() {
            without_condition(m, k)
        } else {
            with_condition(m, k, ConditionModel::RouteTypes(s.remove(t)))
        },
        None => m,
    }
}

/// Adds a route type to those that match.
pub fn route_type_add(stmt: &mut PolicyStmt, route_type: IgpRouteType)
    requires
        old(stmt).wf(),
    ensures
        final(stmt).wf(),
        final(stmt)@ == route_type_added(old(stmt)@, route_type),
{
    let key = PolicyConditionType::MatchRouteType;
    assert(stmt@.conditions.contains_key(key) == stmt.conditions@.contains_key(key));
    let mut values = match stmt.conditions.get(&key) {
        Some(PolicyCondition::MatchRouteType(values)) => values.duplicate(),
        _ => SortedSet::new(),
    };
    values.insert(route_type);
    put_condition(stmt, PolicyCondition::MatchRouteType(values));
}

/// Removes a route type from those that match.
pub fn route_type_remove(stmt: &mut PolicyStmt, route_type: IgpRouteType)
    requires
        old(stmt).wf(),
    ensures
        final(stmt).wf(),
        final(stmt)@ == route_type_removed(old(stmt)@, route_type),
{
    let key = PolicyConditionType::MatchRouteType;
    assert(stmt@.conditions.contains_key(key) == stmt.conditions@.contains_key(key));
    let mut values = match stmt.conditions.get(&key) {
        Some(PolicyCondition::MatchRouteType(values)) => values.duplicate(),
        _ => {
            return;
        },
    };
    let _ = values.remove(&route_type);
    if values.is_empty() {
        drop_condition(stmt, key);
    } else {
        put_condition(stmt, PolicyCondition::MatchRouteType(values));
    }
}

/// The address families of a statement with their options, if they are
/// configured.
pub open spec fn afi_safis_of(m: StmtModel) -> Option<(Set<AfiSafi>, MatchSetRestrictedType)> {
    let k = PolicyConditionType::Bgp(BgpPolicyConditionType::MatchAfiSafi);
    if m.conditions.contains_key(k) {
        match m.conditions[k] {
            ConditionModel::AfiSafis { values, match_type } => Some((values, match_type)),
            _ => None,
        }
    } else {
        None
    }
}

/// A statement with the address families that match.
pub open spec fn with_afi_safis(m: StmtModel, values: Set<AfiSafi>, match_type: MatchSetRestrictedType) -> StmtModel {
    with_condition(
        m,
        PolicyConditionType::Bgp(BgpPolicyConditionType::MatchAfiSafi),
        ConditionModel::AfiSafis { values, match_type },
    )
}

/// A statement after an address family is added.
pub open spec fn afi_safi_added(m: StmtModel, v: AfiSafi) -> StmtModel {
    match afi_safis_of(m) {
        Some((values, match_type)) => with_afi_safis(m, values.insert(v), match_type),
        None => with_afi_safis(m, Set::empty().insert(v), MatchSetRestrictedType::Any),
    }
}

/// A statement after an address family is removed. The condition goes with its
/// last address family.
pub open spec fn afi_safi_removed(m: StmtModel, v: AfiSafi) -> StmtModel {
    match afi_safis_of(m) {
        Some((values, match_type)) => if values.remove(v) =~= Set::empty() {
            without_condition(m, PolicyConditionType::Bgp(BgpPolicyConditionType::MatchAfiSafi))
        } else {
            with_afi_safis(m, values.remove(v), match_type)
        },
        None => m,
    }
}

/// A statement after the options of its address families are configured.
pub open spec fn afi_safi_options_set(m: StmtModel, match_type: MatchSetRestrictedType) -> StmtModel {
    match afi_safis_of(m) {
        Some((values, _)) => with_afi_safis(m, values, match_type),
        None => m,
    }
}

fn afi_safis_get(stmt: &PolicyStmt) -> (r: Option<(SortedSet<AfiSafi>, MatchSetRestrictedType)>)
    requires
        stmt.wf(),
    ensures
        match r {
            Some((s, t)) => s.wf() && afi_safis_of(stmt@) == Some((s@, t)),
            None => afi_safis_of(stmt@) is None,
        },
{
    let key = PolicyConditionType::Bgp(BgpPolicyConditionType::MatchAfiSafi);
    assert(stmt@.conditions.contains_key(key) == stmt.conditions@.contains_key(key));
    match stmt.conditions.get(&key) {
        Some(PolicyCondition::Bgp(BgpPolicyCondition::MatchAfiSafi { values, match_type })) => Some(
            (values.duplicate(), *match_type),
        ),
        _ => None,
    }
}

/// Adds an address family to those that match.
pub fn afi_safi_add(stmt: &mut PolicyStmt, afi_safi: AfiSafi)
    requires
        old(stmt).wf(),
    ensures
        final(stmt).wf(),
        final(stmt)@ == afi_safi_added(old(stmt)@, afi_safi),
{
    let (mut values, match_type) = match afi_safis_get(stmt) {
        Some(found) => found,
        None => (SortedSet::new(), MatchSetRestrictedType::Any),
    };
    values.insert(afi_safi);
    put_condition(stmt, PolicyCondition::Bgp(BgpPolicyCondition::MatchAfiSafi { values, match_type }));
}

/// Removes an address family from those that match.
pub fn afi_safi_remove(stmt: &mut PolicyStmt, afi_safi: AfiSafi)
    requires
        old(stmt).wf(),
    ensures
        final(stmt).wf(),
        final(stmt)@ == afi_safi_removed(old(stmt)@, afi_safi),
{
    if let Some((mut values, match_type)) = afi_safis_get(stmt) {
        let _ = values.remove(&afi_safi);
        if values.is_empty() {
            drop_condition(stmt, PolicyConditionType::Bgp(BgpPolicyConditionType::MatchAfiSafi));
        } else {
            put_condition(stmt, PolicyCondition::Bgp(BgpPolicyCondition::MatchAfiSafi { values, match_type }));
        }
    }
}

/// Configures whether the address families are those that match or those that
/// do not.
pub fn afi_safi_options(stmt: &mut PolicyStmt, match_type: MatchSetRestrictedType)
    requires
        old(stmt).wf(),
    ensures
        final(stmt).wf(),
        final(stmt)@ == afi_safi_options_set(old(stmt)@, match_type),
{
    if let Some((values, _)) = afi_safis_get(stmt) {
        put_condition(stmt, PolicyCondition::Bgp(BgpPolicyCondition::MatchAfiSafi { values, match_type }));
    }
}

/// The neighbors of a statement with their options, if they are configured.
pub open spec fn neighbors_of(m: StmtModel) -> Option<(Set<IpAddr>, MatchSetRestrictedType)> {
    let k = PolicyConditionType::Bgp(BgpPolicyConditionType::MatchNeighbor);
    if m.conditions.contains_key(k) {
        match m.conditions[k] {
            ConditionModel::Neighbors { value, match_type } => Some((value, match_type)),
            _ => None,
        }
    } else {
        None
    }
}

/// A statement with the neighbors that match.
pub open spec fn with_neighbors(m: StmtModel, value: Set<IpAddr>, match_type: MatchSetRestrictedType) -> StmtModel {
    with_condition(
        m,
        PolicyConditionType::Bgp(BgpPolicyConditionType::MatchNeighbor),
        ConditionModel::Neighbors { value, match_type },
    )
}

/// A statement after a neighbor is added.
pub open spec fn neighbor_added(m: StmtModel, v: IpAddr) -> StmtModel {
    match neighbors_of(m) {
        Some((value, match_type)) => with_neighbors(m, value.insert(v), match_type),
        None => with_neighbors(m, Set::empty().insert(v), MatchSetRestrictedType::Any),
    }
}

/// A statement after a neighbor is removed. The condition goes with its last
/// neighbor.
pub open spec fn neighbor_removed(m: StmtModel, v: IpAddr) -> StmtModel {
    match neighbors_of(m) {
        Some((value, match_type)) => if value.remove(v) =~= Set::empty() {
            without_condition(m, PolicyConditionType::Bgp(BgpPolicyConditionType::MatchNeighbor))
        } else {
            with_neighbors(m, value.remove(v), match_type)
        },
        None => m,
    }
}

/// A statement after the options of its neighbors are configured.
pub open spec fn neighbor_options_set(m: StmtModel, match_type: MatchSetRestrictedType) -> StmtModel {
    match neighbors_of(m) {
        Some((value, _)) => with_neighbors(m, value, match_type),
        None => m,
    }
}

fn neighbors_get(stmt: &PolicyStmt) -> (r: Option<(SortedSet<IpAddr>, MatchSetRestrictedType)>)
    requires
        stmt.wf(),
    ensures
        match r {
            Some((s, t)) => s.wf() && neighbors_of(stmt@) == Some((s@, t)),
            None => neighbors_of(stmt@) is None,
        },
{
    let key = PolicyConditionType::Bgp(BgpPolicyConditionType::MatchNeighbor);
    assert(stmt@.conditions.contains_key(key) == stmt.conditions@.contains_key(key));
    match stmt.conditions.get(&key) {
        Some(PolicyCondition::Bgp(BgpPolicyCondition::MatchNeighbor { value, match_type })) => Some(
            (value.duplicate(), *match_type),
        ),
        _ => None,
    }
}

/// Adds a neighbor to those that match.
pub fn neighbor_add(stmt: &mut PolicyStmt, addr: IpAddr)
    requires
        old(stmt).wf(),
    ensures
        final(stmt).wf(),
        final(stmt)@ == neighbor_added(old(stmt)@, addr),
{
    let (mut value, match_type) = match neighbors_get(stmt) {
        Some(found) => found,
        None => (SortedSet::new(), MatchSetRestrictedType::Any),
    };
    value.insert(addr);
    put_condition(stmt, PolicyCondition::Bgp(BgpPolicyCondition::MatchNeighbor { value, match_type }));
}

/// Removes a neighbor from those that match.
pub fn neighbor_remove(stmt: &mut PolicyStmt, addr: IpAddr)
    requires
        old(stmt).wf(),
    ensures
        final(stmt).wf(),
        final(stmt)@ == neighbor_removed(old(stmt)@, addr),
{
    if let Some((mut value, match_type)) = neighbors_get(stmt) {
        let _ = value.remove(&addr);
        if value.is_empty() {
            drop_condition(stmt, PolicyConditionType::Bgp(BgpPolicyConditionType::MatchNeighbor));
        } else {
            put_condition(stmt, PolicyCondition::Bgp(BgpPolicyCondition::MatchNeighbor { value, match_type }));
        }
    }
}

/// Configures whether the neighbors are those that match or those that do not.
pub fn neighbor_options(stmt: &mut PolicyStmt, match_type: MatchSetRestrictedType)
    requires
        old(stmt).wf(),
    ensures
        final(stmt).wf(),
        final(stmt)@ == neighbor_options_set(old(stmt)@, match_type),
{
    if let Some((value, _)) = neighbors_get(stmt) {
        put_condition(stmt, PolicyCondition::Bgp(BgpPolicyCondition::MatchNeighbor { value, match_type }));
    }
}

/// A kind of community that actions can set.
pub trait BgpCommValue: Ranked {
    spec fn action_kind_spec() -> BgpPolicyActionType;

    /// An action that sets communities of this kind.
    spec fn action_spec(options: BgpSetCommOptions, method: MethodModel<Self>) -> ActionModel;

    /// What an action sets, if it sets communities of this kind.
    spec fn parts_spec(action: ActionModel) -> Option<(BgpSetCommOptions, MethodModel<Self>)>;

    proof fn action_has_its_parts(options: BgpSetCommOptions, method: MethodModel<Self>)
        ensures
            Self::parts_spec(Self::action_spec(options, method)) == Some((options, method)),
    ;

    proof fn parts_make_the_action(action: ActionModel)
        ensures
            match Self::parts_spec(action) {
                Some((options, method)) => action == Self::action_spec(options, method),
                None => true,
            },
    ;

    fn action_kind() -> (r: BgpPolicyActionType)
        ensures
            r == Self::action_kind_spec(),
    ;

    fn make_action(options: BgpSetCommOptions, method: BgpSetCommMethod<Self>) -> (r: PolicyAction)
        requires
            method_wf(method),
        ensures
            action_wf(r),
            action_type(r) == PolicyActionType::Bgp(Self::action_kind_spec()),
            r@ == Self::action_spec(options, method@),
    ;

    fn action_parts(action: PolicyAction) -> (r: Option<(BgpSetCommOptions, BgpSetCommMethod<Self>)>)
        requires
            action_wf(action),
        ensures
            match r {
                Some((options, method)) => method_wf(method) && Self::parts_spec(action@) == Some((options, method@)),
                None => Self::parts_spec(action@) is None,
            },
    ;
}

impl BgpCommValue for Comm {
    open spec fn action_kind_spec() -> BgpPolicyActionType {
        BgpPolicyActionType::SetComm
    }

    open spec fn action_spec(options: BgpSetCommOptions, method: MethodModel<Self>) -> ActionModel {
        ActionModel::SetComm(options, method)
    }

    open spec fn parts_spec(action: ActionModel) -> Option<(BgpSetCommOptions, MethodModel<Self>)> {
        match action {
            ActionModel::SetComm(options, method) => Some((options, method)),
            _ => None,
        }
    }

    proof fn action_has_its_parts(options: BgpSetCommOptions, method: MethodModel<Self>) {
    }

    proof fn parts_make_the_action(action: ActionModel) {
    }

    fn action_kind() -> (r: BgpPolicyActionType) {
        BgpPolicyActionType::SetComm
    }

    fn make_action(options: BgpSetCommOptions, method: BgpSetCommMethod<Self>) -> (r: PolicyAction) {
        PolicyAction::Bgp(BgpPolicyAction::SetComm { options, method })
    }

    fn action_parts(action: PolicyAction) -> (r: Option<(BgpSetCommOptions, BgpSetCommMethod<Self>)>) {
        match action {
            PolicyAction::Bgp(BgpPolicyAction::SetComm { options, method }) => Some((options, method)),
            _ => None,
        }
    }
}

impl BgpCommValue for ExtComm {
    open spec fn action_kind_spec() -> BgpPolicyActionType {
        BgpPolicyActionType::SetExtComm
    }

    open spec fn action_spec(options: BgpSetCommOptions, method: MethodModel<Self>) -> ActionModel {
        ActionModel::SetExtComm(options, method)
    }

    open spec fn parts_spec(action: ActionModel) -> Option<(BgpSetCommOptions, MethodModel<Self>)> {
        match action {
            ActionModel::SetExtComm(options, method) => Some((options, method)),
            _ => None,
        }
    }

    proof fn action_has_its_parts(options: BgpSetCommOptions, method: MethodModel<Self>) {
    }

    proof fn parts_make_the_action(action: ActionModel) {
    }

    fn action_kind() -> (r: BgpPolicyActionType) {
        BgpPolicyActionType::SetExtComm
    }

    fn make_action(options: BgpSetCommOptions, method: BgpSetCommMethod<Self>) -> (r: PolicyAction) {
        PolicyAction::Bgp(BgpPolicyAction::SetExtComm { options, method })
    }

    fn action_parts(action: PolicyAction) -> (r: Option<(BgpSetCommOptions, BgpSetCommMethod<Self>)>) {
        match action {
            PolicyAction::Bgp(BgpPolicyAction::SetExtComm { options, method }) => Some((options, method)),
            _ => None,
        }
    }
}

impl BgpCommValue for Extv6Comm {
    open spec fn action_kind_spec() -> BgpPolicyActionType {
        BgpPolicyActionType::SetExtv6Comm
    }

    open spec fn action_spec(options: BgpSetCommOptions, method: MethodModel<Self>) -> ActionModel {
        ActionModel::SetExtv6Comm(options, method)
    }

    open spec fn parts_spec(action: ActionModel) -> Option<(BgpSetCommOptions, MethodModel<Self>)> {
        match action {
            ActionModel::SetExtv6Comm(options, method) => Some((options, method)),
            _ => None,
        }
    }

    proof fn action_has_its_parts(options: BgpSetCommOptions, method: MethodModel<Self>) {
    }

    proof fn parts_make_the_action(action: ActionModel) {
    }

    fn action_kind() -> (r: BgpPolicyActionType) {
        BgpPolicyActionType::SetExtv6Comm
    }

    fn make_action(options: BgpSetCommOptions, method: BgpSetCommMethod<Self>) -> (r: PolicyAction) {
        PolicyAction::Bgp(BgpPolicyAction::SetExtv6Comm { options, method })
    }

    fn action_parts(action: PolicyAction) -> (r: Option<(BgpSetCommOptions, BgpSetCommMethod<Self>)>) {
        match action {
            PolicyAction::Bgp(BgpPolicyAction::SetExtv6Comm { options, method }) => Some((options, method)),
            _ => None,
        }
    }
}

impl BgpCommValue for LargeComm {
    open spec fn action_kind_spec() -> BgpPolicyActionType {
        BgpPolicyActionType::SetLargeComm
    }

    open spec fn action_spec(options: BgpSetCommOptions, method: MethodModel<Self>) -> ActionModel {
        ActionModel::SetLargeComm(options, method)
    }

    open spec fn parts_spec(action: ActionModel) -> Option<(BgpSetCommOptions, MethodModel<Self>)> {
        match action {
            ActionModel::SetLargeComm(options, method) => Some((options, method)),
            _ => None,
        }
    }

    proof fn action_has_its_parts(options: BgpSetCommOptions, method: MethodModel<Self>) {
    }

    proof fn parts_make_the_action(action: ActionModel) {
    }

    fn action_kind() -> (r: BgpPolicyActionType) {
        BgpPolicyActionType::SetLargeComm
    }

    fn make_action(options: BgpSetCommOptions, method: BgpSetCommMethod<Self>) -> (r: PolicyAction) {
        PolicyAction::Bgp(BgpPolicyAction::SetLargeComm { options, method })
    }

    fn action_parts(action: PolicyAction) -> (r: Option<(BgpSetCommOptions, BgpSetCommMethod<Self>)>) {
        match action {
            PolicyAction::Bgp(BgpPolicyAction::SetLargeComm { options, method }) => Some((options, method)),
            _ => None,
        }
    }
}

/// The communities of a kind that a statement sets, if it sets any.
pub open spec fn comm_action_of<T: BgpCommValue>(m: StmtModel) -> Option<(BgpSetCommOptions, MethodModel<T>)> {
    let k = PolicyActionType::Bgp(T::action_kind_spec());
    if m.actions.contains_key(k) {
        T::parts_spec(m.actions[k])
    } else {
        None
    }
}

/// A statement that sets communities of a kind.
pub open spec fn with_comm_action<T: BgpCommValue>(
    m: StmtModel,
    options: BgpSetCommOptions,
    method: MethodModel<T>,
) -> StmtModel {
    with_action(m, PolicyActionType::Bgp(T::action_kind_spec()), T::action_spec(options, method))
}

/// A statement after the options of an action on communities are configured.
pub open spec fn comm_options_set<T: BgpCommValue>(m: StmtModel, options: BgpSetCommOptions) -> StmtModel {
    match comm_action_of::<T>(m) {
        Some((_, method)) => with_comm_action(m, options, method),
        None => with_comm_action(m, options, MethodModel::Inline(Set::<T>::empty())),
    }
}

/// A statement after a community is added to those that are listed in place. It
/// replaces a reference to a defined set.
pub open spec fn comm_inline_added<T: BgpCommValue>(m: StmtModel, comm: T) -> StmtModel {
    match comm_action_of::<T>(m) {
        Some((options, MethodModel::Inline(comms))) => with_comm_action(
            m,
            options,
            MethodModel::Inline(comms.insert(comm)),
        ),
        Some((options, _)) => with_comm_action(m, options, MethodModel::Inline(Set::empty().insert(comm))),
        None => with_comm_action(m, BgpSetCommOptions::Add, MethodModel::Inline(Set::empty().insert(comm))),
    }
}

/// A statement after a community is removed from those that are listed in
/// place.
pub open spec fn comm_inline_removed<T: BgpCommValue>(m: StmtModel, comm: T) -> StmtModel {
    match comm_action_of::<T>(m) {
        Some((options, MethodModel::Inline(comms))) => with_comm_action(
            m,
            options,
            MethodModel::Inline(comms.remove(comm)),
        ),
        _ => m,
    }
}

/// A statement after a defined set is named as the communities. The options
/// stay.
pub open spec fn comm_reference_set<T: BgpCommValue>(m: StmtModel, set_name: String) -> StmtModel {
    let options = match comm_action_of::<T>(m) {
        Some((options, _)) => options,
        None => BgpSetCommOptions::Add,
    };
    with_comm_action(m, options, MethodModel::<T>::Reference(set_name))
}

/// Takes the communities of a kind out of a statement.
fn comm_action_take<T: BgpCommValue>(stmt: &mut PolicyStmt) -> (r: Option<(BgpSetCommOptions, BgpSetCommMethod<T>)>)
    requires
        old(stmt).wf(),
    ensures
        final(stmt).wf(),
        final(stmt)@ == without_action(old(stmt)@, PolicyActionType::Bgp(T::action_kind_spec())),
        match r {
            Some((options, method)) => method_wf(method) && comm_action_of::<T>(old(stmt)@) == Some((options, method@)),
            None => comm_action_of::<T>(old(stmt)@) is None,
        },
{
    let key = PolicyActionType::Bgp(T::action_kind());
    assert(stmt@.actions.contains_key(key) == stmt.actions@.contains_key(key));
    proof {
        models_remove(stmt.actions@, key);
    }
    match stmt.actions.remove(&key) {
        Some(action) => T::action_parts(action),
        None => None,
    }
}

/// Configures the options of an action on communities.
pub fn bgp_set_comm_options<T: BgpCommValue>(stmt: &mut PolicyStmt, options: BgpSetCommOptions)
    requires
        old(stmt).wf(),
    ensures
        final(stmt).wf(),
        final(stmt)@ == comm_options_set::<T>(old(stmt)@, options),
{
    let ghost before = stmt@;
    let method = match comm_action_take::<T>(stmt) {
        Some((_, method)) => method,
        None => BgpSetCommMethod::Inline(SortedSet::new()),
    };
    put_action(stmt, T::make_action(options, method));
    assert(stmt@.actions =~= comm_options_set::<T>(before, options).actions);
}

/// Adds a community to those that are listed in place.
pub fn bgp_set_comm_inline_add<T: BgpCommValue>(stmt: &mut PolicyStmt, comm: T)
    requires
        old(stmt).wf(),
    ensures
        final(stmt).wf(),
        final(stmt)@ == comm_inline_added(old(stmt)@, comm),
{
    let ghost before = stmt@;
    let (options, mut comms) = match comm_action_take::<T>(stmt) {
        Some((options, BgpSetCommMethod::Inline(comms))) => (options, comms),
        Some((options, _)) => (options, SortedSet::new()),
        None => (BgpSetCommOptions::Add, SortedSet::new()),
    };
    proof {
        comm.view_is_value();
    }
    comms.insert(comm);
    put_action(stmt, T::make_action(options, BgpSetCommMethod::Inline(comms)));
    assert(stmt@.actions =~= comm_inline_added(before, comm).actions);
}

/// Removes a community from those that are listed in place.
pub fn bgp_set_comm_inline_remove<T: BgpCommValue>(stmt: &mut PolicyStmt, comm: T)
    requires
        old(stmt).wf(),
    ensures
        final(stmt).wf(),
        final(stmt)@ == comm_inline_removed(old(stmt)@, comm),
{
    let ghost before = stmt@;
    let key = PolicyActionType::Bgp(T::action_kind());
    assert(stmt@.actions.contains_key(key) == stmt.actions@.contains_key(key));
    proof {
        comm.view_is_value();
        models_remove(stmt.actions@, key);
    }
    if let Some(action) = stmt.actions.remove(&key) {
        let action_kept = action.copy_of();
        match T::action_parts(action) {
            Some((options, BgpSetCommMethod::Inline(mut comms))) => {
                let _ = comms.remove(&comm);
                put_action(stmt, T::make_action(options, BgpSetCommMethod::Inline(comms)));
                assert(stmt@.actions =~= comm_inline_removed(before, comm).actions);
            },
            _ => {
                assert(action_type(action_kept) == key);
                put_action(stmt, action_kept);
                assert(stmt@.actions =~= before.actions);
            },
        }
    } else {
        assert(stmt@.actions =~= before.actions);
    }
}

/// Names a defined set as the communities.
pub fn bgp_set_comm_reference<T: BgpCommValue>(stmt: &mut PolicyStmt, set_name: String)
    requires
        old(stmt).wf(),
    ensures
        final(stmt).wf(),
        final(stmt)@ == comm_reference_set::<T>(old(stmt)@, set_name),
{
    let ghost before = stmt@;
    let options = match comm_action_take::<T>(stmt) {
        Some((options, _)) => options,
        None => BgpSetCommOptions::Add,
    };
    put_action(stmt, T::make_action(options, BgpSetCommMethod::Reference(set_name)));
    assert(stmt@.actions =~= comm_reference_set::<T>(before, set_name).actions);
}

/// Takes out an action on communities.
pub fn bgp_set_comm_delete(stmt: &mut PolicyStmt, action_type: BgpPolicyActionType)
    requires
        old(stmt).wf(),
    ensures
        final(stmt).wf(),
        final(stmt)@ == without_action(old(stmt)@, PolicyActionType::Bgp(action_type)),
{
    drop_action(stmt, PolicyActionType::Bgp(action_type));
}

/// The AS number and the count of a prepended path, if they are configured.
pub open spec fn prepend_of(m: StmtModel) -> Option<(u32, Option<u8>)> {
    let k = PolicyActionType::Bgp(BgpPolicyActionType::SetAsPathPrepent);
    if m.actions.contains_key(k) {
        match m.actions[k] {
            ActionModel::Plain(PolicyAction::Bgp(BgpPolicyAction::SetAsPathPrepent { asn, repeat })) => Some(
                (asn, repeat),
            ),
            _ => None,
        }
    } else {
        None
    }
}

/// The AS number that is prepended, or zero.
pub open spec fn prepend_asn(m: StmtModel) -> u32 {
    match prepend_of(m) {
        Some((asn, _)) => asn,
        None => 0,
    }
}

/// How often the AS number is prepended, if that is configured.
pub open spec fn prepend_repeat(m: StmtModel) -> Option<u8> {
    match prepend_of(m) {
        Some((_, repeat)) => repeat,
        None => None,
    }
}

pub fn bgp_as_path_prepend_get_asn(stmt: &PolicyStmt) -> (r: u32)
    requires
        stmt.wf(),
    ensures
        r == prepend_asn(stmt@),
{
    let key = PolicyActionType::Bgp(BgpPolicyActionType::SetAsPathPrepent);
    assert(stmt@.actions.contains_key(key) == stmt.actions@.contains_key(key));
    match stmt.actions.get(&key) {
        Some(PolicyAction::Bgp(BgpPolicyAction::SetAsPathPrepent { asn, .. })) => *asn,
        _ => 0,
    }
}

pub fn bgp_as_path_prepend_get_repeat(stmt: &PolicyStmt) -> (r: Option<u8>)
    requires
        stmt.wf(),
    ensures
        r == prepend_repeat(stmt@),
{
    let key = PolicyActionType::Bgp(BgpPolicyActionType::SetAsPathPrepent);
    assert(stmt@.actions.contains_key(key) == stmt.actions@.contains_key(key));
    match stmt.actions.get(&key) {
        Some(PolicyAction::Bgp(BgpPolicyAction::SetAsPathPrepent { repeat, .. })) => *repeat,
        _ => None,
    }
}

/// The options of an action on communities that a text names.
pub open spec fn comm_options_named(value: Seq<char>) -> Option<BgpSetCommOptions> {
    if value == "add"@ {
        Some(BgpSetCommOptions::Add)
    } else if value == "remove"@ {
        Some(BgpSetCommOptions::Remove)
    } else if value == "replace"@ {
        Some(BgpSetCommOptions::Replace)
    } else {
        None
    }
}

/// Reads the options of an action on communities.
pub fn bgp_set_comm_options_from_yang(value: &str) -> (r: BgpSetCommOptions)
    requires
        comm_options_named(value@) is Some,
    ensures
        comm_options_named(value@) == Some(r),
{
    if same_text(value, "add") {
        BgpSetCommOptions::Add
    } else if same_text(value, "remove") {
        BgpSetCommOptions::Remove
    } else {
        BgpSetCommOptions::Replace
    }
}

/// The change of the multi-exit discriminator that a text stands for.
pub open spec fn med_of(value: Seq<char>) -> Option<BgpSetMed> {
    if value == "igp"@ {
        Some(BgpSetMed::Igp)
    } else if value == "med-plus-igp"@ {
        Some(BgpSetMed::MedPlusIgp)
    } else if value.len() > 0 && value[0] == '+' {
        match parsed(value.skip(1), u32::MAX as nat) {
            Some(n) => Some(BgpSetMed::Add(n as u32)),
            None => None,
        }
    } else if value.len() > 0 && value[0] == '-' {
        match parsed(value.skip(1), u32::MAX as nat) {
            Some(n) => Some(BgpSetMed::Subtract(n as u32)),
            None => None,
        }
    } else {
        match parsed(value, u32::MAX as nat) {
            Some(n) => Some(BgpSetMed::Assign(n as u32)),
            None => None,
        }
    }
}

/// Reads a change of the multi-exit discriminator: to the metric of the interior
/// protocol, by adding it, by a signed number, or to a number. A text of no such
/// form gives nothing.
pub fn bgp_set_med_from_yang(value: &str) -> (r: Option<BgpSetMed>)
    ensures
        r == med_of(value@),
{
    if same_text(value, "igp") {
        return Some(BgpSetMed::Igp);
    }
    if same_text(value, "med-plus-igp") {
        return Some(BgpSetMed::MedPlusIgp);
    }
    let n: usize = value.unicode_len();
    if n > 0 && value.get_char(0) == '+' {
        let rest = value.substring_char(1, n);
        assert(rest@ =~= value@.skip(1));
        match parse_number(rest, u32::MAX) {
            Some(n) => Some(BgpSetMed::Add(n)),
            None => None,
        }
    } else if n > 0 && value.get_char(0) == '-' {
        let rest = value.substring_char(1, n);
        assert(rest@ =~= value@.skip(1));
        match parse_number(rest, u32::MAX) {
            Some(n) => Some(BgpSetMed::Subtract(n)),
            None => None,
        }
    } else {
        match parse_number(value, u32::MAX) {
            Some(n) => Some(BgpSetMed::Assign(n)),
            None => None,
        }
    }
}

/// Reads a next hop to set: the local address, or the address that the text
/// stands for.
pub fn bgp_set_nexthop_from_yang(value: &str, addr: Option<IpAddr>) -> (r: Option<BgpNexthop>)
    ensures
        r == if value@ == "self"@ {
            Some(BgpNexthop::NexthopSelf)
        } else {
            match addr {
                Some(addr) => Some(BgpNexthop::Addr(addr)),
                None => None,
            }
        },
{
    if same_text(value, "self") {
        Some(BgpNexthop::NexthopSelf)
    } else {
        match addr {
            Some(addr) => Some(BgpNexthop::Addr(addr)),
            None => None,
        }
    }
}

/// Reads the type of a BGP route. A text that names no type gives nothing.
pub fn bgp_route_type_from_yang(value: &str) -> (r: Option<RouteType>)
    ensures
        r == if value@ == "internal"@ {
            Some(RouteType::Internal)
        } else if value@ == "external"@ {
            Some(RouteType::External)
        } else {
            None
        },
{
    if same_text(value, "internal") {
        Some(RouteType::Internal)
    } else if same_text(value, "external") {
        Some(RouteType::External)
    } else {
        None
    }
}

/// Reads the result of a policy: whether routes are accepted.
pub fn policy_result_from_yang(value: &str) -> (r: bool)
    ensures
        r == (value@ == "accept-route"@),
{
    same_text(value, "accept-route")
}

/// A change to an action on communities.
pub enum CommChange<T> {
    Options(BgpSetCommOptions),
    InlineAdd(T),
    InlineRemove(T),
    Reference(String),
    ReferenceDelete,
}

/// A change to a condition on BGP routes.
pub enum BgpConditionChange {
    Value(BgpPolicyConditionType, Option<u32>),
    Operator(BgpPolicyConditionType, BgpEqOperator),
    Origin(Option<Origin>),
    AfiSafiAdd(AfiSafi),
    AfiSafiRemove(AfiSafi),
    AfiSafiOptions(MatchSetRestrictedType),
    NeighborAdd(IpAddr),
    NeighborRemove(IpAddr),
    NeighborOptions(MatchSetRestrictedType),
    RouteType(Option<RouteType>),
    SetReference(BgpPolicyConditionType, Option<String>),
    SetOptions(BgpPolicyConditionType, MatchSetType),
}

/// A change to an action on BGP routes.
pub enum BgpActionChange {
    Origin(Option<Origin>),
    LocalPref(Option<u32>),
    Nexthop(Option<BgpNexthop>),
    Med(Option<BgpSetMed>),
    PrependRepeat(Option<u8>),
    PrependAsn(Option<u32>),
    Comm(CommChange<Comm>),
    ExtComm(CommChange<ExtComm>),
    Extv6Comm(CommChange<Extv6Comm>),
    LargeComm(CommChange<LargeComm>),
}

/// A change to a condition. Where a value is optional, its absence takes the
/// condition out.
pub enum ConditionChange {
    CallPolicy(Option<String>),
    SrcProtocol(Option<Protocol>),
    MatchInterface(Option<String>),
    MatchPrefixSet(Option<String>),
    PrefixSetOptions(MatchSetRestrictedType),
    MatchNeighborSet(Option<String>),
    MatchTagSet(Option<String>),
    TagSetOptions(MatchSetType),
    RouteTypeAdd(IgpRouteType),
    RouteTypeRemove(IgpRouteType),
    Bgp(BgpConditionChange),
}

/// A change to an action. Where a value is optional, its absence takes the
/// action out.
pub enum ActionChange {
    Accept(Option<bool>),
    SetMetricType(Option<MetricType>),
    SetRouteLevel(Option<RouteLevel>),
    SetRoutePref(Option<u16>),
    SetTag(Option<u32>),
    SetAppTag(Option<u32>),
    Bgp(BgpActionChange),
}

/// A change to a statement.
pub enum StmtChange {
    Condition(ConditionChange),
    Action(ActionChange),
}

/// A statement after a change to an action on communities.
pub open spec fn comm_changed<T: BgpCommValue>(m: StmtModel, c: CommChange<T>) -> StmtModel {
    match c {
        CommChange::Options(options) => comm_options_set::<T>(m, options),
        CommChange::InlineAdd(comm) => comm_inline_added(m, comm),
        CommChange::InlineRemove(comm) => comm_inline_removed(m, comm),
        CommChange::Reference(name) => comm_reference_set::<T>(m, name),
        CommChange::ReferenceDelete => without_action(m, PolicyActionType::Bgp(T::action_kind_spec())),
    }
}

fn comm_apply<T: BgpCommValue>(stmt: &mut PolicyStmt, change: CommChange<T>)
    requires
        old(stmt).wf(),
    ensures
        final(stmt).wf(),
        final(stmt)@ == comm_changed(old(stmt)@, change),
{
    match change {
        CommChange::Options(options) => bgp_set_comm_options::<T>(stmt, options),
        CommChange::InlineAdd(comm) => bgp_set_comm_inline_add(stmt, comm),
        CommChange::InlineRemove(comm) => bgp_set_comm_inline_remove(stmt, comm),
        CommChange::Reference(name) => bgp_set_comm_reference::<T>(stmt, name),
        CommChange::ReferenceDelete => bgp_set_comm_delete(stmt, T::action_kind()),
    }
}

/// A statement with a plain condition, or without it.
pub open spec fn plain_changed(m: StmtModel, k: PolicyConditionType, c: Option<PolicyCondition>) -> StmtModel {
    match c {
        Some(c) => with_condition(m, k, ConditionModel::Plain(c)),
        None => without_condition(m, k),
    }
}

/// A statement with a plain action, or without it.
pub open spec fn action_changed(m: StmtModel, k: PolicyActionType, a: Option<PolicyAction>) -> StmtModel {
    match a {
        Some(a) => with_action(m, k, ActionModel::Plain(a)),
        None => without_action(m, k),
    }
}

/// Whether a change is to a condition that it can be made to.
pub open spec fn stmt_change_applies(c: StmtChange) -> bool {
    match c {
        StmtChange::Condition(ConditionChange::Bgp(BgpConditionChange::Value(t, _))) => compares(t),
        StmtChange::Condition(ConditionChange::Bgp(BgpConditionChange::SetReference(t, _))) => refers(t),
        _ => true,
    }
}

/// A statement after a change to a condition on BGP routes.
pub open spec fn bgp_condition_changed(m: StmtModel, c: BgpConditionChange) -> StmtModel {
    match c {
        BgpConditionChange::Value(t, Some(value)) => with_condition(
            m,
            PolicyConditionType::Bgp(t),
            plain(comparison(t, value, operator_of(m, t))),
        ),
        BgpConditionChange::Value(t, None) => without_condition(m, PolicyConditionType::Bgp(t)),
        BgpConditionChange::Operator(t, op) => operator_set(m, t, op),
        BgpConditionChange::Origin(origin) => plain_changed(
            m,
            PolicyConditionType::Bgp(BgpPolicyConditionType::Origin),
            match origin {
                Some(origin) => Some(PolicyCondition::Bgp(BgpPolicyCondition::Origin(origin))),
                None => None,
            },
        ),
        BgpConditionChange::AfiSafiAdd(v) => afi_safi_added(m, v),
        BgpConditionChange::AfiSafiRemove(v) => afi_safi_removed(m, v),
        BgpConditionChange::AfiSafiOptions(t) => afi_safi_options_set(m, t),
        BgpConditionChange::NeighborAdd(v) => neighbor_added(m, v),
        BgpConditionChange::NeighborRemove(v) => neighbor_removed(m, v),
        BgpConditionChange::NeighborOptions(t) => neighbor_options_set(m, t),
        BgpConditionChange::RouteType(t) => plain_changed(
            m,
            PolicyConditionType::Bgp(BgpPolicyConditionType::RouteType),
            match t {
                Some(t) => Some(PolicyCondition::Bgp(BgpPolicyCondition::RouteType(t))),
                None => None,
            },
        ),
        BgpConditionChange::SetReference(t, Some(name)) => with_condition(
            m,
            PolicyConditionType::Bgp(t),
            plain(reference(t, name, set_options_of(m, t))),
        ),
        BgpConditionChange::SetReference(t, None) => without_condition(m, PolicyConditionType::Bgp(t)),
        BgpConditionChange::SetOptions(t, match_type) => set_options_set(m, t, match_type),
    }
}

fn bgp_condition_apply(stmt: &mut PolicyStmt, change: BgpConditionChange)
    requires
        old(stmt).wf(),
        stmt_change_applies(StmtChange::Condition(ConditionChange::Bgp(change))),
    ensures
        final(stmt).wf(),
        final(stmt)@ == bgp_condition_changed(old(stmt)@, change),
{
    match change {
        BgpConditionChange::Value(t, Some(value)) => bgp_cond_set_value(stmt, t, value),
        BgpConditionChange::Value(t, None) => drop_condition(stmt, PolicyConditionType::Bgp(t)),
        BgpConditionChange::Operator(t, op) => bgp_cond_set_op(stmt, t, op),
        BgpConditionChange::Origin(Some(origin)) => put_condition(
            stmt,
            PolicyCondition::Bgp(BgpPolicyCondition::Origin(origin)),
        ),
        BgpConditionChange::Origin(None) => drop_condition(
            stmt,
            PolicyConditionType::Bgp(BgpPolicyConditionType::Origin),
        ),
        BgpConditionChange::AfiSafiAdd(v) => afi_safi_add(stmt, v),
        BgpConditionChange::AfiSafiRemove(v) => afi_safi_remove(stmt, v),
        BgpConditionChange::AfiSafiOptions(t) => afi_safi_options(stmt, t),
        BgpConditionChange::NeighborAdd(v) => neighbor_add(stmt, v),
        BgpConditionChange::NeighborRemove(v) => neighbor_remove(stmt, v),
        BgpConditionChange::NeighborOptions(t) => neighbor_options(stmt, t),
        BgpConditionChange::RouteType(Some(t)) => put_condition(
            stmt,
            PolicyCondition::Bgp(BgpPolicyCondition::RouteType(t)),
        ),
        BgpConditionChange::RouteType(None) => drop_condition(
            stmt,
            PolicyConditionType::Bgp(BgpPolicyConditionType::RouteType),
        ),
        BgpConditionChange::SetReference(t, Some(name)) => bgp_match_set_ref(stmt, t, name),
        BgpConditionChange::SetReference(t, None) => bgp_match_set_delete(stmt, t),
        BgpConditionChange::SetOptions(t, match_type) => bgp_match_set_options(stmt, t, match_type),
    }
}

/// A statement after a change to an action on BGP routes.
pub open spec fn bgp_action_changed(m: StmtModel, c: BgpActionChange) -> StmtModel {
    match c {
        BgpActionChange::Origin(origin) => action_changed(
            m,
            PolicyActionType::Bgp(BgpPolicyActionType::SetRouteOrigin),
            match origin {
                Some(origin) => Some(PolicyAction::Bgp(BgpPolicyAction::SetRouteOrigin(origin))),
                None => None,
            },
        ),
        BgpActionChange::LocalPref(pref) => action_changed(
            m,
            PolicyActionType::Bgp(BgpPolicyActionType::SetLocalPref),
            match pref {
                Some(pref) => Some(PolicyAction::Bgp(BgpPolicyAction::SetLocalPref(pref))),
                None => None,
            },
        ),
        BgpActionChange::Nexthop(nexthop) => action_changed(
            m,
            PolicyActionType::Bgp(BgpPolicyActionType::SetNexthop),
            match nexthop {
                Some(nexthop) => Some(PolicyAction::Bgp(BgpPolicyAction::SetNexthop(nexthop))),
                None => None,
            },
        ),
        BgpActionChange::Med(med) => action_changed(
            m,
            PolicyActionType::Bgp(BgpPolicyActionType::SetMed),
            match med {
                Some(med) => Some(PolicyAction::Bgp(BgpPolicyAction::SetMed(med))),
                None => None,
            },
        ),
        BgpActionChange::PrependRepeat(repeat) => with_action(
            m,
            PolicyActionType::Bgp(BgpPolicyActionType::SetAsPathPrepent),
            ActionModel::Plain(
                PolicyAction::Bgp(BgpPolicyAction::SetAsPathPrepent { asn: prepend_asn(m), repeat }),
            ),
        ),
        BgpActionChange::PrependAsn(asn) => action_changed(
            m,
            PolicyActionType::Bgp(BgpPolicyActionType::SetAsPathPrepent),
            match asn {
                Some(asn) => Some(
                    PolicyAction::Bgp(BgpPolicyAction::SetAsPathPrepent { asn, repeat: prepend_repeat(m) }),
                ),
                None => None,
            },
        ),
        BgpActionChange::Comm(c) => comm_changed(m, c),
        BgpActionChange::ExtComm(c) => comm_changed(m, c),
        BgpActionChange::Extv6Comm(c) => comm_changed(m, c),
        BgpActionChange::LargeComm(c) => comm_changed(m, c),
    }
}

fn bgp_action_apply(stmt: &mut PolicyStmt, change: BgpActionChange)
    requires
        old(stmt).wf(),
    ensures
        final(stmt).wf(),
        final(stmt)@ == bgp_action_changed(old(stmt)@, change),
{
    match change {
        BgpActionChange::Origin(Some(origin)) => put_action(
            stmt,
            PolicyAction::Bgp(BgpPolicyAction::SetRouteOrigin(origin)),
        ),
        BgpActionChange::Origin(None) => drop_action(
            stmt,
            PolicyActionType::Bgp(BgpPolicyActionType::SetRouteOrigin),
        ),
        BgpActionChange::LocalPref(Some(pref)) => put_action(
            stmt,
            PolicyAction::Bgp(BgpPolicyAction::SetLocalPref(pref)),
        ),
        BgpActionChange::LocalPref(None) => drop_action(
            stmt,
            PolicyActionType::Bgp(BgpPolicyActionType::SetLocalPref),
        ),
        BgpActionChange::Nexthop(Some(nexthop)) => put_action(
            stmt,
            PolicyAction::Bgp(BgpPolicyAction::SetNexthop(nexthop)),
        ),
        BgpActionChange::Nexthop(None) => drop_action(stmt, PolicyActionType::Bgp(BgpPolicyActionType::SetNexthop)),
        BgpActionChange::Med(Some(med)) => put_action(stmt, PolicyAction::Bgp(BgpPolicyAction::SetMed(med))),
        BgpActionChange::Med(None) => drop_action(stmt, PolicyActionType::Bgp(BgpPolicyActionType::SetMed)),
        BgpActionChange::PrependRepeat(repeat) => {
            let asn: u32 = bgp_as_path_prepend_get_asn(stmt);
            put_action(stmt, PolicyAction::Bgp(BgpPolicyAction::SetAsPathPrepent { asn, repeat }))
        },
        BgpActionChange::PrependAsn(Some(asn)) => {
            let repeat = bgp_as_path_prepend_get_repeat(stmt);
            put_action(stmt, PolicyAction::Bgp(BgpPolicyAction::SetAsPathPrepent { asn, repeat }))
        },
        BgpActionChange::PrependAsn(None) => drop_action(
            stmt,
            PolicyActionType::Bgp(BgpPolicyActionType::SetAsPathPrepent),
        ),
        BgpActionChange::Comm(c) => comm_apply(stmt, c),
        BgpActionChange::ExtComm(c) => comm_apply(stmt, c),
        BgpActionChange::Extv6Comm(c) => comm_apply(stmt, c),
        BgpActionChange::LargeComm(c) => comm_apply(stmt, c),
    }
}

/// A statement after a change to a condition.
pub open spec fn condition_changed(m: StmtModel, c: ConditionChange) -> StmtModel {
    match c {
        ConditionChange::CallPolicy(name) => plain_changed(
            m,
            PolicyConditionType::CallPolicy,
            match name {
                Some(name) => Some(PolicyCondition::CallPolicy(name)),
                None => None,
            },
        ),
        ConditionChange::SrcProtocol(protocol) => plain_changed(
            m,
            PolicyConditionType::SrcProtocol,
            match protocol {
                Some(protocol) => Some(PolicyCondition::SrcProtocol(protocol)),
                None => None,
            },
        ),
        ConditionChange::MatchInterface(name) => plain_changed(
            m,
            PolicyConditionType::MatchInterface,
            match name {
                Some(name) => Some(PolicyCondition::MatchInterface(name)),
                None => None,
            },
        ),
        ConditionChange::MatchPrefixSet(name) => plain_changed(
            m,
            PolicyConditionType::MatchPrefixSet,
            match name {
                Some(name) => Some(PolicyCondition::MatchPrefixSet(name)),
                None => None,
            },
        ),
        ConditionChange::PrefixSetOptions(t) => StmtModel { prefix_set_match_type: t, ..m },
        ConditionChange::MatchNeighborSet(name) => plain_changed(
            m,
            PolicyConditionType::MatchNeighborSet,
            match name {
                Some(name) => Some(PolicyCondition::MatchNeighborSet(name)),
                None => None,
            },
        ),
        ConditionChange::MatchTagSet(name) => plain_changed(
            m,
            PolicyConditionType::MatchTagSet,
            match name {
                Some(name) => Some(PolicyCondition::MatchTagSet(name)),
                None => None,
            },
        ),
        ConditionChange::TagSetOptions(t) => StmtModel { tag_set_match_type: t, ..m },
        ConditionChange::RouteTypeAdd(t) => route_type_added(m, t),
        ConditionChange::RouteTypeRemove(t) => route_type_removed(m, t),
        ConditionChange::Bgp(c) => bgp_condition_changed(m, c),
    }
}

fn condition_apply(stmt: &mut PolicyStmt, change: ConditionChange)
    requires
        old(stmt).wf(),
        stmt_change_applies(StmtChange::Condition(change)),
    ensures
        final(stmt).wf(),
        final(stmt)@ == condition_changed(old(stmt)@, change),
{
    match change {
        ConditionChange::CallPolicy(Some(name)) => put_condition(stmt, PolicyCondition::CallPolicy(name)),
        ConditionChange::CallPolicy(None) => drop_condition(stmt, PolicyConditionType::CallPolicy),
        ConditionChange::SrcProtocol(Some(protocol)) => put_condition(stmt, PolicyCondition::SrcProtocol(protocol)),
        ConditionChange::SrcProtocol(None) => drop_condition(stmt, PolicyConditionType::SrcProtocol),
        ConditionChange::MatchInterface(Some(name)) => put_condition(stmt, PolicyCondition::MatchInterface(name)),
        ConditionChange::MatchInterface(None) => drop_condition(stmt, PolicyConditionType::MatchInterface),
        ConditionChange::MatchPrefixSet(Some(name)) => put_condition(stmt, PolicyCondition::MatchPrefixSet(name)),
        ConditionChange::MatchPrefixSet(None) => drop_condition(stmt, PolicyConditionType::MatchPrefixSet),
        ConditionChange::PrefixSetOptions(t) => {
            stmt.prefix_set_match_type = t;
        },
        ConditionChange::MatchNeighborSet(Some(name)) => put_condition(stmt, PolicyCondition::MatchNeighborSet(name)),
        ConditionChange::MatchNeighborSet(None) => drop_condition(stmt, PolicyConditionType::MatchNeighborSet),
        ConditionChange::MatchTagSet(Some(name)) => put_condition(stmt, PolicyCondition::MatchTagSet(name)),
        ConditionChange::MatchTagSet(None) => drop_condition(stmt, PolicyConditionType::MatchTagSet),
        ConditionChange::TagSetOptions(t) => {
            stmt.tag_set_match_type = t;
        },
        ConditionChange::RouteTypeAdd(t) => route_type_add(stmt, t),
        ConditionChange::RouteTypeRemove(t) => route_type_remove(stmt, t),
        ConditionChange::Bgp(c) => bgp_condition_apply(stmt, c),
    }
}

/// A statement after a change to an action.
pub open spec fn action_change_made(m: StmtModel, c: ActionChange) -> StmtModel {
    match c {
        ActionChange::Accept(accept) => action_changed(
            m,
            PolicyActionType::Accept,
            match accept {
                Some(accept) => Some(PolicyAction::Accept(accept)),
                None => None,
            },
        ),
        ActionChange::SetMetricType(t) => action_changed(
            m,
            PolicyActionType::SetMetricType,
            match t {
                Some(t) => Some(PolicyAction::SetMetricType(t)),
                None => None,
            },
        ),
        ActionChange::SetRouteLevel(level) => action_changed(
            m,
            PolicyActionType::SetRouteLevel,
            match level {
                Some(level) => Some(PolicyAction::SetRouteLevel(level)),
                None => None,
            },
        ),
        ActionChange::SetRoutePref(pref) => action_changed(
            m,
            PolicyActionType::SetRoutePref,
            match pref {
                Some(pref) => Some(PolicyAction::SetRoutePref(pref)),
                None => None,
            },
        ),
        ActionChange::SetTag(tag) => action_changed(
            m,
            PolicyActionType::SetTag,
            match tag {
                Some(tag) => Some(PolicyAction::SetTag(tag)),
                None => None,
            },
        ),
        ActionChange::SetAppTag(tag) => action_changed(
            m,
            PolicyActionType::SetAppTag,
            match tag {
                Some(tag) => Some(PolicyAction::SetAppTag(tag)),
                None => None,
            },
        ),
        ActionChange::Bgp(c) => bgp_action_changed(m, c),
    }
}

fn action_apply(stmt: &mut PolicyStmt, change: ActionChange)
    requires
        old(stmt).wf(),
    ensures
        final(stmt).wf(),
        final(stmt)@ == action_change_made(old(stmt)@, change),
{
    match change {
        ActionChange::Accept(Some(accept)) => put_action(stmt, PolicyAction::Accept(accept)),
        ActionChange::Accept(None) => drop_action(stmt, PolicyActionType::Accept),
        ActionChange::SetMetricType(Some(t)) => put_action(stmt, PolicyAction::SetMetricType(t)),
        ActionChange::SetMetricType(None) => drop_action(stmt, PolicyActionType::SetMetricType),
        ActionChange::SetRouteLevel(Some(level)) => put_action(stmt, PolicyAction::SetRouteLevel(level)),
        ActionChange::SetRouteLevel(None) => drop_action(stmt, PolicyActionType::SetRouteLevel),
        ActionChange::SetRoutePref(Some(pref)) => put_action(stmt, PolicyAction::SetRoutePref(pref)),
        ActionChange::SetRoutePref(None) => drop_action(stmt, PolicyActionType::SetRoutePref),
        ActionChange::SetTag(Some(tag)) => put_action(stmt, PolicyAction::SetTag(tag)),
        ActionChange::SetTag(None) => drop_action(stmt, PolicyActionType::SetTag),
        ActionChange::SetAppTag(Some(tag)) => put_action(stmt, PolicyAction::SetAppTag(tag)),
        ActionChange::SetAppTag(None) => drop_action(stmt, PolicyActionType::SetAppTag),
        ActionChange::Bgp(c) => bgp_action_apply(stmt, c),
    }
}

/// A statement after a change.
pub open spec fn stmt_changed(m: StmtModel, c: StmtChange) -> StmtModel {
    match c {
        StmtChange::Condition(c) => condition_changed(m, c),
        StmtChange::Action(c) => action_change_made(m, c),
    }
}

/// Changes a statement.
pub fn stmt_apply(stmt: &mut PolicyStmt, change: StmtChange)
    requires
        old(stmt).wf(),
        stmt_change_applies(change),
    ensures
        final(stmt).wf(),
        final(stmt)@ == stmt_changed(old(stmt)@, change),
{
    match change {
        StmtChange::Condition(c) => condition_apply(stmt, c),
        StmtChange::Action(c) => action_apply(stmt, c),
    }
}

/// The operator and the value of a condition can be configured in either order,
/// once the condition is there.
pub proof fn operator_outlives_value(m: StmtModel, t: BgpPolicyConditionType, value: u32, op: BgpEqOperator)
    requires
        compares(t),
        m.conditions.contains_key(PolicyConditionType::Bgp(t)),
        compared(m.conditions[PolicyConditionType::Bgp(t)]) is Some,
    ensures
        bgp_condition_changed(
            bgp_condition_changed(m, BgpConditionChange::Operator(t, op)),
            BgpConditionChange::Value(t, Some(value)),
        ) == bgp_condition_changed(
            bgp_condition_changed(m, BgpConditionChange::Value(t, Some(value))),
            BgpConditionChange::Operator(t, op),
        ),
{
    let k = PolicyConditionType::Bgp(t);
    let c = plain(comparison(t, value, op));
    let (stored, _) = compared(m.conditions[k])->0;
    let x = plain(comparison(t, stored, op));
    let y = plain(comparison(t, value, operator_of(m, t)));
    assert(m.conditions.insert(k, x).insert(k, c) =~= m.conditions.insert(k, y).insert(k, c));
}

/// Naming another defined set keeps the options of the condition.
pub proof fn options_outlive_reference(m: StmtModel, t: BgpPolicyConditionType, name: String)
    requires
        refers(t),
    ensures
        set_options_of(bgp_condition_changed(m, BgpConditionChange::SetReference(t, Some(name))), t) == set_options_of(
            m,
            t,
        ),
{
}

/// No condition on address families, neighbors or route types is left without a
/// value.
pub open spec fn no_empty_conditions(m: StmtModel) -> bool {
    &&& afi_safis_of(m) matches Some((values, _)) ==> values != Set::<AfiSafi>::empty()
    &&& neighbors_of(m) matches Some((value, _)) ==> value != Set::<IpAddr>::empty()
    &&& route_types_of(m) matches Some(s) ==> s != Set::<IgpRouteType>::empty()
}

/// A condition without a set leaves no empty one behind, nor does taking one
/// out.
proof fn plain_is_not_empty(m: StmtModel, k: PolicyConditionType, c: ConditionModel)
    requires
        no_empty_conditions(m),
        c is Plain,
    ensures
        no_empty_conditions(with_condition(m, k, c)),
        no_empty_conditions(without_condition(m, k)),
{
}

/// The conditions alone decide whether one is empty.
proof fn actions_do_not_matter(m: StmtModel, n: StmtModel)
    requires
        no_empty_conditions(m),
        n.conditions == m.conditions,
    ensures
        no_empty_conditions(n),
{
}

proof fn plain_change_is_not_empty(m: StmtModel, k: PolicyConditionType, c: Option<PolicyCondition>)
    requires
        no_empty_conditions(m),
    ensures
        no_empty_conditions(plain_changed(m, k, c)),
{
    match c {
        Some(c) => plain_is_not_empty(m, k, ConditionModel::Plain(c)),
        None => plain_is_not_empty(m, k, ConditionModel::Plain(arbitrary())),
    }
}

proof fn bgp_change_is_not_empty(m: StmtModel, c: BgpConditionChange)
    requires
        no_empty_conditions(m),
    ensures
        no_empty_conditions(bgp_condition_changed(m, c)),
{
    match c {
        BgpConditionChange::Value(t, Some(value)) => plain_is_not_empty(
            m,
            PolicyConditionType::Bgp(t),
            plain(comparison(t, value, operator_of(m, t))),
        ),
        BgpConditionChange::Value(t, None) => plain_is_not_empty(
            m,
            PolicyConditionType::Bgp(t),
            plain(comparison(t, 0, BgpEqOperator::Equal)),
        ),
        BgpConditionChange::Operator(t, op) => {
            let k = PolicyConditionType::Bgp(t);
            if let Some((value, _)) = compared(m.conditions[k]) {
                plain_is_not_empty(m, k, plain(comparison(t, value, op)));
            }
        },
        BgpConditionChange::Origin(origin) => {
            let k = PolicyConditionType::Bgp(BgpPolicyConditionType::Origin);
            match origin {
                Some(o) => plain_change_is_not_empty(m, k, Some(PolicyCondition::Bgp(BgpPolicyCondition::Origin(o)))),
                None => plain_change_is_not_empty(m, k, None),
            }
        },
        BgpConditionChange::AfiSafiAdd(v) => {
            if let Some((values, _)) = afi_safis_of(m) {
                assert(values.insert(v).contains(v));
            }
            assert(Set::<AfiSafi>::empty().insert(v).contains(v));
        },
        BgpConditionChange::NeighborAdd(v) => {
            if let Some((value, _)) = neighbors_of(m) {
                assert(value.insert(v).contains(v));
            }
            assert(Set::<IpAddr>::empty().insert(v).contains(v));
        },
        BgpConditionChange::RouteType(t) => {
            let k = PolicyConditionType::Bgp(BgpPolicyConditionType::RouteType);
            match t {
                Some(t) => plain_change_is_not_empty(m, k, Some(PolicyCondition::Bgp(BgpPolicyCondition::RouteType(t)))),
                None => plain_change_is_not_empty(m, k, None),
            }
        },
        BgpConditionChange::SetReference(t, Some(name)) => plain_is_not_empty(
            m,
            PolicyConditionType::Bgp(t),
            plain(reference(t, name, set_options_of(m, t))),
        ),
        BgpConditionChange::SetReference(t, None) => plain_is_not_empty(
            m,
            PolicyConditionType::Bgp(t),
            plain(comparison(t, 0, BgpEqOperator::Equal)),
        ),
        BgpConditionChange::SetOptions(t, match_type) => {
            let k = PolicyConditionType::Bgp(t);
            if let Some((value, _)) = referred(m.conditions[k]) {
                plain_is_not_empty(m, k, plain(reference(t, value, match_type)));
            }
        },
        _ => {},
    }
}

proof fn condition_change_is_not_empty(m: StmtModel, c: ConditionChange)
    requires
        no_empty_conditions(m),
    ensures
        no_empty_conditions(condition_changed(m, c)),
{
    match c {
        ConditionChange::Bgp(c) => bgp_change_is_not_empty(m, c),
        ConditionChange::RouteTypeAdd(t) => {
            if let Some(s) = route_types_of(m) {
                assert(s.insert(t).contains(t));
            }
            assert(Set::<IgpRouteType>::empty().insert(t).contains(t));
        },
        ConditionChange::RouteTypeRemove(_) => {},
        ConditionChange::PrefixSetOptions(_) => actions_do_not_matter(m, condition_changed(m, c)),
        ConditionChange::TagSetOptions(_) => actions_do_not_matter(m, condition_changed(m, c)),
        ConditionChange::CallPolicy(name) => match name {
            Some(name) => plain_change_is_not_empty(
                m,
                PolicyConditionType::CallPolicy,
                Some(PolicyCondition::CallPolicy(name)),
            ),
            None => plain_change_is_not_empty(m, PolicyConditionType::CallPolicy, None),
        },
        ConditionChange::SrcProtocol(protocol) => match protocol {
            Some(protocol) => plain_change_is_not_empty(
                m,
                PolicyConditionType::SrcProtocol,
                Some(PolicyCondition::SrcProtocol(protocol)),
            ),
            None => plain_change_is_not_empty(m, PolicyConditionType::SrcProtocol, None),
        },
        ConditionChange::MatchInterface(name) => match name {
            Some(name) => plain_change_is_not_empty(
                m,
                PolicyConditionType::MatchInterface,
                Some(PolicyCondition::MatchInterface(name)),
            ),
            None => plain_change_is_not_empty(m, PolicyConditionType::MatchInterface, None),
        },
        ConditionChange::MatchPrefixSet(name) => match name {
            Some(name) => plain_change_is_not_empty(
                m,
                PolicyConditionType::MatchPrefixSet,
                Some(PolicyCondition::MatchPrefixSet(name)),
            ),
            None => plain_change_is_not_empty(m, PolicyConditionType::MatchPrefixSet, None),
        },
        ConditionChange::MatchNeighborSet(name) => match name {
            Some(name) => plain_change_is_not_empty(
                m,
                PolicyConditionType::MatchNeighborSet,
                Some(PolicyCondition::MatchNeighborSet(name)),
            ),
            None => plain_change_is_not_empty(m, PolicyConditionType::MatchNeighborSet, None),
        },
        ConditionChange::MatchTagSet(name) => match name {
            Some(name) => plain_change_is_not_empty(
                m,
                PolicyConditionType::MatchTagSet,
                Some(PolicyCondition::MatchTagSet(name)),
            ),
            None => plain_change_is_not_empty(m, PolicyConditionType::MatchTagSet, None),
        },
    }
}

proof fn comm_change_keeps_conditions<T: BgpCommValue>(m: StmtModel, c: CommChange<T>)
    ensures
        comm_changed(m, c).conditions == m.conditions,
{
}

proof fn action_change_keeps_conditions(m: StmtModel, c: ActionChange)
    ensures
        action_change_made(m, c).conditions == m.conditions,
{
    if let ActionChange::Bgp(b) = c {
        match b {
            BgpActionChange::Comm(c) => comm_change_keeps_conditions(m, c),
            BgpActionChange::ExtComm(c) => comm_change_keeps_conditions(m, c),
            BgpActionChange::Extv6Comm(c) => comm_change_keeps_conditions(m, c),
            BgpActionChange::LargeComm(c) => comm_change_keeps_conditions(m, c),
            _ => {},
        }
    }
}

/// Changes never leave an empty condition behind.
pub proof fn changes_leave_no_empty_condition(m: StmtModel, c: StmtChange)
    requires
        no_empty_conditions(m),
        stmt_change_applies(c),
    ensures
        no_empty_conditions(stmt_changed(m, c)),
{
    match c {
        StmtChange::Condition(c) => condition_change_is_not_empty(m, c),
        StmtChange::Action(c) => {
            action_change_keeps_conditions(m, c);
            actions_do_not_matter(m, action_change_made(m, c));
        },
    }
}

/// A community that is added to those listed in place and removed again is not
/// listed.
pub proof fn inline_removal_undoes_addition<T: BgpCommValue>(m: StmtModel, comm: T)
    requires
        comm_action_of::<T>(m) matches Some((_, MethodModel::Inline(comms))) && !comms.contains(comm),
    ensures
        comm_inline_removed(comm_inline_added(m, comm), comm) == m,
{
    let k = PolicyActionType::Bgp(T::action_kind_spec());
    if let Some((options, MethodModel::Inline(comms))) = comm_action_of::<T>(m) {
        assert(comms.insert(comm).remove(comm) =~= comms);
        T::action_has_its_parts(options, MethodModel::Inline(comms.insert(comm)));
        T::parts_make_the_action(m.actions[k]);
        assert(m.actions.insert(k, T::action_spec(options, MethodModel::Inline(comms.insert(comm)))).insert(
            k,
            T::action_spec(options, MethodModel::Inline(comms)),
        ) =~= m.actions);
    }
}

/// The AS number and the count of a prepended path can be configured in either
/// order.
pub proof fn prepend_order_does_not_matter(m: StmtModel, asn: u32, repeat: Option<u8>)
    ensures
        bgp_action_changed(
            bgp_action_changed(m, BgpActionChange::PrependAsn(Some(asn))),
            BgpActionChange::PrependRepeat(repeat),
        ) == bgp_action_changed(
            bgp_action_changed(m, BgpActionChange::PrependRepeat(repeat)),
            BgpActionChange::PrependAsn(Some(asn)),
        ),
{
    let k = PolicyActionType::Bgp(BgpPolicyActionType::SetAsPathPrepent);
    let x = bgp_action_changed(m, BgpActionChange::PrependAsn(Some(asn))).actions;
    let y = bgp_action_changed(m, BgpActionChange::PrependRepeat(repeat)).actions;
    let c = ActionModel::Plain(PolicyAction::Bgp(BgpPolicyAction::SetAsPathPrepent { asn, repeat }));
    assert(x.insert(k, c) =~= y.insert(k, c));
}

}
