use holo::attribute::Attrs;
use holo::attribute::CommList;
use holo::bgp::AfiSafi;
use holo::bgp::Comm;
use holo::bgp::Origin;
use holo::bgp::RouteType;
use holo::ip::AddressFamily;
use holo::ip::IpAddr;
use holo::ip::IpNetwork;
use holo::ip::Ipv4Addr;
use holo::ip::Ipv4Network;
use holo::ord::SortedMap;
use holo::ord::SortedSet;
use holo::policy::action_set_comm;
use holo::policy::neighbor_apply;
use holo::policy::process_policies;
use holo::policy::process_stmt_action;
use holo::policy::process_stmt_condition;
use holo::policy::redistribute_apply;
use holo::policy::PolicyActionResult;
use holo::policy::PolicyResultMsg;
use holo::policy::RoutePolicyInfo;
use holo::policy_types::BgpCommunitySet;
use holo::policy_types::BgpEqOperator;
use holo::policy_types::BgpNexthop;
use holo::policy_types::BgpPolicyAction;
use holo::policy_types::BgpPolicyCondition;
use holo::policy_types::BgpSetCommMethod;
use holo::policy_types::BgpSetCommOptions;
use holo::policy_types::BgpSetMed;
use holo::policy_types::DefaultPolicyType;
use holo::policy_types::IpPrefixRange;
use holo::policy_types::MatchSetRestrictedType;
use holo::policy_types::MatchSetType;
use holo::policy_types::MatchSets;
use holo::policy_types::NeighborSet;
use holo::policy_types::Policy;
use holo::policy_types::PolicyAction;
use holo::policy_types::PolicyCondition;
use holo::policy_types::PolicyResult;
use holo::policy_types::PolicyStmt;
use holo::policy_types::PolicyType;
use holo::policy_types::PrefixSet;
use holo::policy_types::PrefixSetKey;
use holo::protocol::Protocol;
use holo::rib::RouteOrigin;
use std::sync::Arc;

fn prefix() -> IpNetwork {
    IpNetwork::V4(Ipv4Network { addr: Ipv4Addr::new(198, 51, 100, 0), prefix: 24 })
}

fn route_info() -> RoutePolicyInfo {
    let identifier = Ipv4Addr::new(192, 0, 2, 2);
    RoutePolicyInfo::new(
        RouteOrigin::Neighbor { identifier, remote_addr: IpAddr::V4(identifier) },
        RouteType::External,
        None,
        None,
        Attrs::default(),
    )
}

fn accept_stmt(name: &str) -> PolicyStmt {
    let mut stmt = PolicyStmt::new(name.to_owned());
    stmt.action_add(PolicyAction::Accept(true));
    stmt
}

fn reject_stmt(name: &str) -> PolicyStmt {
    let mut stmt = PolicyStmt::new(name.to_owned());
    stmt.action_add(PolicyAction::Accept(false));
    stmt
}

fn comms(values: &[u32]) -> SortedSet<Comm> {
    let mut set = SortedSet::new();
    for value in values {
        set.insert(Comm(*value));
    }
    set
}

fn values(list: &Option<Arc<CommList<Comm>>>) -> Option<Vec<u32>> {
    list.as_ref().map(|list| (0..list.0.len()).map(|i| list.0.nth(i).0).collect())
}

fn condition_holds(condition: BgpPolicyCondition, route: &RoutePolicyInfo, sets: &MatchSets) -> bool {
    let stmt = PolicyStmt::new("10".to_owned());
    process_stmt_condition(
        AfiSafi::Ipv4Unicast,
        &prefix(),
        route,
        &stmt,
        &PolicyCondition::Bgp(condition),
        sets,
    )
}

#[test]
fn ordered_statements_are_not_key_sorted() {
    let mut policy = Policy::new("POLICY".to_owned());
    policy.stmt_add(accept_stmt("2"));
    policy.stmt_add(reject_stmt("1"));

    let result = process_policies(
        AfiSafi::Ipv4Unicast,
        prefix(),
        route_info(),
        &[Arc::new(policy)],
        &MatchSets::default(),
        DefaultPolicyType::RejectRoute,
    );

    assert!(matches!(result, PolicyResult::Accept(_)));
}

#[test]
fn prefix_policy_can_mutate_then_accept() {
    let mut stmt1 = PolicyStmt::new("10".to_owned());
    stmt1.condition_add(PolicyCondition::MatchPrefixSet("PL".to_owned()));
    stmt1.action_add(PolicyAction::Bgp(BgpPolicyAction::SetLocalPref(200)));

    let mut policy = Policy::new("POLICY".to_owned());
    policy.stmt_add(stmt1);
    policy.stmt_add(accept_stmt("20"));

    let mut match_sets = MatchSets::default();
    let mut prefixes = SortedSet::new();
    prefixes.insert(IpPrefixRange { prefix: prefix(), masklen_lower: 24, masklen_upper: 32 });
    match_sets.prefixes.insert(
        PrefixSetKey { name: "PL".to_owned(), mode: AddressFamily::Ipv4 },
        PrefixSet { name: "PL".to_owned(), mode: AddressFamily::Ipv4, prefixes },
    );

    let result = process_policies(
        AfiSafi::Ipv4Unicast,
        prefix(),
        route_info(),
        &[Arc::new(policy)],
        &match_sets,
        DefaultPolicyType::RejectRoute,
    );

    let PolicyResult::Accept(route) = result else {
        panic!("route should be accepted");
    };
    assert_eq!(route.attrs.base.local_pref, Some(200));
}

#[test]
fn statement_actions_mutate_before_accepting() {
    let mut stmt = PolicyStmt::new("10".to_owned());
    stmt.action_add(PolicyAction::Accept(true));
    stmt.action_add(PolicyAction::Bgp(BgpPolicyAction::SetLocalPref(300)));

    let mut policy = Policy::new("POLICY".to_owned());
    policy.stmt_add(stmt);

    let result = process_policies(
        AfiSafi::Ipv4Unicast,
        prefix(),
        route_info(),
        &[Arc::new(policy)],
        &MatchSets::default(),
        DefaultPolicyType::RejectRoute,
    );

    let PolicyResult::Accept(route) = result else {
        panic!("route should be accepted");
    };
    assert_eq!(route.attrs.base.local_pref, Some(300));
}

#[test]
fn missing_bgp_set_reference_is_no_match() {
    let mut stmt = PolicyStmt::new("10".to_owned());
    stmt.condition_add(PolicyCondition::Bgp(BgpPolicyCondition::MatchCommSet {
        value: "MISSING".to_owned(),
        match_type: MatchSetType::Any,
    }));
    stmt.action_add(PolicyAction::Accept(true));

    let mut policy = Policy::new("POLICY".to_owned());
    policy.stmt_add(stmt);

    let mut route = route_info();
    route.attrs.comm = Some(Arc::new(CommList(comms(&[100]))));

    let result = process_policies(
        AfiSafi::Ipv4Unicast,
        prefix(),
        route,
        &[Arc::new(policy)],
        &MatchSets::default(),
        DefaultPolicyType::RejectRoute,
    );

    assert!(matches!(result, PolicyResult::Reject));
}

#[test]
fn afi_safi_condition_filters_routes() {
    let mut stmt = PolicyStmt::new("10".to_owned());
    let mut values = SortedSet::new();
    values.insert(AfiSafi::Ipv6Unicast);
    stmt.condition_add(PolicyCondition::Bgp(BgpPolicyCondition::MatchAfiSafi {
        values,
        match_type: MatchSetRestrictedType::Any,
    }));
    stmt.action_add(PolicyAction::Accept(true));

    let mut policy = Policy::new("POLICY".to_owned());
    policy.stmt_add(stmt);

    let result = process_policies(
        AfiSafi::Ipv4Unicast,
        prefix(),
        route_info(),
        &[Arc::new(policy)],
        &MatchSets::default(),
        DefaultPolicyType::RejectRoute,
    );

    assert!(matches!(result, PolicyResult::Reject));
}

#[test]
fn unmatched_routes_go_by_the_default() {
    let sets = MatchSets::default();
    let accept = process_policies(
        AfiSafi::Ipv4Unicast,
        prefix(),
        route_info(),
        &[],
        &sets,
        DefaultPolicyType::AcceptRoute,
    );
    assert!(matches!(accept, PolicyResult::Accept(_)));
    let reject = process_policies(
        AfiSafi::Ipv4Unicast,
        prefix(),
        route_info(),
        &[],
        &sets,
        DefaultPolicyType::RejectRoute,
    );
    assert!(matches!(reject, PolicyResult::Reject));
}

#[test]
fn a_statement_replaces_the_one_with_its_name_in_place() {
    let mut policy = Policy::new("POLICY".to_owned());
    policy.stmt_add(accept_stmt("2"));
    policy.stmt_add(accept_stmt("1"));
    policy.stmt_add(reject_stmt("2"));
    let names: Vec<&str> = policy.stmts.iter().map(|s| s.name.as_str()).collect();
    assert_eq!(names, vec!["2", "1"]);
    policy.stmt_remove(&"2".to_owned());
    assert_eq!(policy.stmts.len(), 1);
}

#[test]
fn communities_match_by_regular_expression() {
    let mut set: BgpCommunitySet<Comm> = BgpCommunitySet::new();
    set.regexes.insert("^65000:[0-9]+$".to_owned());
    let mut sets = MatchSets::default();
    sets.bgp.comms.insert("RE".to_owned(), set);

    let condition = |match_type| BgpPolicyCondition::MatchCommSet { value: "RE".to_owned(), match_type };
    let mut route = route_info();
    route.attrs.comm = Some(Arc::new(CommList(comms(&[65000 * 65536 + 7]))));
    assert!(condition_holds(condition(MatchSetType::Any), &route, &sets));
    assert!(condition_holds(condition(MatchSetType::All), &route, &sets));
    assert!(!condition_holds(condition(MatchSetType::Invert), &route, &sets));

    route.attrs.comm = Some(Arc::new(CommList(comms(&[64000 * 65536 + 7]))));
    assert!(!condition_holds(condition(MatchSetType::Any), &route, &sets));
    assert!(condition_holds(condition(MatchSetType::Invert), &route, &sets));
}

#[test]
fn an_expression_that_does_not_compile_matches_nothing() {
    let mut set: BgpCommunitySet<Comm> = BgpCommunitySet::new();
    set.regexes.insert("(".to_owned());
    let mut sets = MatchSets::default();
    sets.bgp.comms.insert("RE".to_owned(), set);
    let mut route = route_info();
    route.attrs.comm = Some(Arc::new(CommList(comms(&[1]))));
    let condition = BgpPolicyCondition::MatchCommSet { value: "RE".to_owned(), match_type: MatchSetType::Any };
    assert!(!condition_holds(condition, &route, &sets));
}

#[test]
fn literal_communities_match_any_or_all() {
    let mut set: BgpCommunitySet<Comm> = BgpCommunitySet::new();
    set.literals.insert(Comm(1));
    set.literals.insert(Comm(2));
    let mut sets = MatchSets::default();
    sets.bgp.comms.insert("SET".to_owned(), set);
    let condition = |match_type| BgpPolicyCondition::MatchCommSet { value: "SET".to_owned(), match_type };
    let mut route = route_info();
    route.attrs.comm = Some(Arc::new(CommList(comms(&[2, 3]))));
    assert!(condition_holds(condition(MatchSetType::Any), &route, &sets));
    assert!(!condition_holds(condition(MatchSetType::All), &route, &sets));
    assert!(!condition_holds(condition(MatchSetType::Invert), &route, &sets));
}

#[test]
fn operators_compare_the_attribute_with_the_value() {
    let sets = MatchSets::default();
    let mut route = route_info();
    route.attrs.base.med = Some(10);
    let condition = |value, op| BgpPolicyCondition::Med { value, op };
    assert!(condition_holds(condition(10, BgpEqOperator::Equal), &route, &sets));
    assert!(!condition_holds(condition(9, BgpEqOperator::Equal), &route, &sets));
    assert!(condition_holds(condition(11, BgpEqOperator::LessThanOrEqual), &route, &sets));
    assert!(!condition_holds(condition(9, BgpEqOperator::LessThanOrEqual), &route, &sets));
    assert!(condition_holds(condition(9, BgpEqOperator::GreaterThanOrEqual), &route, &sets));
    assert!(!condition_holds(condition(11, BgpEqOperator::GreaterThanOrEqual), &route, &sets));
}

#[test]
fn origin_and_route_type_conditions() {
    let sets = MatchSets::default();
    let mut route = route_info();
    route.attrs.base.origin = Origin::Egp;
    assert!(condition_holds(BgpPolicyCondition::Origin(Origin::Egp), &route, &sets));
    assert!(!condition_holds(BgpPolicyCondition::Origin(Origin::Igp), &route, &sets));
    assert!(condition_holds(BgpPolicyCondition::RouteType(RouteType::External), &route, &sets));
    assert!(!condition_holds(BgpPolicyCondition::RouteType(RouteType::Internal), &route, &sets));
}

#[test]
fn neighbor_and_protocol_conditions() {
    let addr = IpAddr::V4(Ipv4Addr::new(192, 0, 2, 2));
    let mut sets = MatchSets::default();
    let mut addrs = SortedSet::new();
    addrs.insert(addr);
    sets.neighbors.insert("N".to_owned(), NeighborSet { name: "N".to_owned(), addrs });
    let stmt = PolicyStmt::new("10".to_owned());
    let holds = |route: &RoutePolicyInfo, condition| {
        process_stmt_condition(AfiSafi::Ipv4Unicast, &prefix(), route, &stmt, &condition, &sets)
    };
    let learned = route_info();
    assert!(holds(&learned, PolicyCondition::MatchNeighborSet("N".to_owned())));
    assert!(!holds(&learned, PolicyCondition::MatchNeighborSet("M".to_owned())));
    assert!(!holds(&learned, PolicyCondition::SrcProtocol(Protocol::STATIC)));

    let mut redistributed = route_info();
    redistributed.origin = RouteOrigin::Protocol(Protocol::STATIC);
    assert!(holds(&redistributed, PolicyCondition::SrcProtocol(Protocol::STATIC)));
    assert!(!holds(&redistributed, PolicyCondition::SrcProtocol(Protocol::ISIS)));
}

#[test]
fn communities_are_added_removed_and_replaced() {
    let sets: SortedMap<String, BgpCommunitySet<Comm>> = SortedMap::new();
    let mut list = None;
    let inline = |c: &[u32]| BgpSetCommMethod::Inline(comms(c));
    assert!(action_set_comm(&BgpSetCommOptions::Add, &inline(&[1, 2]), &sets, &mut list));
    assert_eq!(values(&list), Some(vec![1, 2]));
    assert!(action_set_comm(&BgpSetCommOptions::Add, &inline(&[3]), &sets, &mut list));
    assert_eq!(values(&list), Some(vec![1, 2, 3]));
    assert!(action_set_comm(&BgpSetCommOptions::Remove, &inline(&[2, 9]), &sets, &mut list));
    assert_eq!(values(&list), Some(vec![1, 3]));
    assert!(action_set_comm(&BgpSetCommOptions::Replace, &inline(&[7]), &sets, &mut list));
    assert_eq!(values(&list), Some(vec![7]));
    assert!(action_set_comm(&BgpSetCommOptions::Remove, &inline(&[7]), &sets, &mut list));
    assert_eq!(values(&list), None);
    assert!(action_set_comm(&BgpSetCommOptions::Replace, &inline(&[]), &sets, &mut list));
    assert_eq!(values(&list), None);
}

#[test]
fn an_undefined_community_set_changes_nothing_and_rejects() {
    let sets = MatchSets::default();
    let mut list = Some(Arc::new(CommList(comms(&[5]))));
    let method: BgpSetCommMethod<Comm> = BgpSetCommMethod::Reference("MISSING".to_owned());
    assert!(!action_set_comm(&BgpSetCommOptions::Replace, &method, &sets.bgp.comms, &mut list));
    assert_eq!(values(&list), Some(vec![5]));

    let mut attrs = Attrs::default();
    let action = PolicyAction::Bgp(BgpPolicyAction::SetComm { options: BgpSetCommOptions::Add, method });
    assert!(matches!(process_stmt_action(&mut attrs, &action, &sets), PolicyActionResult::Reject));
}

#[test]
fn actions_on_attributes() {
    let sets = MatchSets::default();
    let mut attrs = Attrs::default();
    let act = |attrs: &mut Attrs, action| {
        matches!(
            process_stmt_action(attrs, &PolicyAction::Bgp(action), &sets),
            PolicyActionResult::Continue
        )
    };
    assert!(act(&mut attrs, BgpPolicyAction::SetRouteOrigin(Origin::Igp)));
    assert_eq!(attrs.base.origin, Origin::Igp);
    assert!(act(&mut attrs, BgpPolicyAction::SetMed(BgpSetMed::Assign(5))));
    assert_eq!(attrs.base.med, Some(5));
    assert!(act(&mut attrs, BgpPolicyAction::SetMed(BgpSetMed::Add(u32::MAX))));
    assert_eq!(attrs.base.med, Some(u32::MAX));
    assert!(act(&mut attrs, BgpPolicyAction::SetMed(BgpSetMed::Subtract(u32::MAX))));
    assert_eq!(attrs.base.med, Some(0));
    let addr = IpAddr::V4(Ipv4Addr::new(192, 0, 2, 9));
    assert!(act(&mut attrs, BgpPolicyAction::SetNexthop(BgpNexthop::Addr(addr))));
    assert_eq!(attrs.base.nexthop, Some(addr));
    assert!(act(&mut attrs, BgpPolicyAction::SetAsPathPrepent { asn: 65001, repeat: Some(2) }));
    assert_eq!(attrs.base.as_path.members(), vec![65001, 65001]);
}

#[test]
fn decisions_of_actions() {
    let sets = MatchSets::default();
    let mut attrs = Attrs::default();
    assert!(matches!(
        process_stmt_action(&mut attrs, &PolicyAction::Accept(true), &sets),
        PolicyActionResult::Accept
    ));
    assert!(matches!(
        process_stmt_action(&mut attrs, &PolicyAction::Accept(false), &sets),
        PolicyActionResult::Reject
    ));
}

#[test]
fn results_come_in_the_order_of_the_routes() {
    let other = IpNetwork::V4(Ipv4Network { addr: Ipv4Addr::new(10, 0, 0, 0), prefix: 8 });
    let routes = vec![(prefix(), route_info()), (other, route_info())];
    let nbr_addr = IpAddr::V4(Ipv4Addr::new(192, 0, 2, 2));
    let msg = neighbor_apply(
        PolicyType::Import,
        nbr_addr,
        AfiSafi::Ipv4Unicast,
        &routes,
        &vec![7, 8],
        &[],
        &MatchSets::default(),
        DefaultPolicyType::AcceptRoute,
    );
    let PolicyResultMsg::Neighbor { nbr_addr: n, routes, path_ids, .. } = msg else {
        panic!("unexpected message");
    };
    assert_eq!(n, nbr_addr);
    assert_eq!(path_ids, vec![7, 8]);
    assert_eq!(routes.iter().map(|(p, _)| *p).collect::<Vec<_>>(), vec![prefix(), other]);
    assert!(matches!(routes[1].1, PolicyResult::Accept(_)));

    let msg = redistribute_apply(
        AfiSafi::Ipv4Unicast,
        prefix(),
        route_info(),
        &[],
        &MatchSets::default(),
        DefaultPolicyType::RejectRoute,
    );
    assert!(matches!(
        msg,
        PolicyResultMsg::Redistribute { prefix: p, result: PolicyResult::Reject, .. } if p == prefix()
    ));
}
