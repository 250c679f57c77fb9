use holo::bgp::AfiSafi;
use holo::bgp::Comm;
use holo::bgp::LargeComm;
use holo::bgp::Origin;
use holo::bgp::RouteType;
use holo::ip::AddressFamily;
use holo::ip::IpAddr;
use holo::ip::IpNetwork;
use holo::ip::Ipv4Addr;
use holo::ip::Ipv4Network;
use holo::ord::SortedSet;
use holo::policy_cfg::as_path_set_member_add;
use holo::policy_cfg::as_path_set_member_remove;
use holo::policy_cfg::comm_member_add;
use holo::policy_cfg::comm_member_remove;
use holo::policy_cfg::comm_set_member_add;
use holo::policy_cfg::comm_set_member_remove;
use holo::policy_cfg::config_apply;
use holo::policy_cfg::large_comm_member_add;
use holo::policy_cfg::large_comm_member_remove;
use holo::policy_cfg::match_set_apply;
use holo::policy_cfg::policy_create;
use holo::policy_cfg::policy_delete;
use holo::policy_cfg::policy_stmt_apply;
use holo::policy_cfg::process_event;
use holo::policy_cfg::stmt_create;
use holo::policy_cfg::stmt_delete;
use holo::policy_cfg::AsPathChange;
use holo::policy_cfg::ConfigChange;
use holo::policy_cfg::Event;
use holo::policy_cfg::ItemChange;
use holo::policy_cfg::ListEntry;
use holo::policy_cfg::Master;
use holo::policy_cfg::MatchSetChange;
use holo::policy_cfg::MemberChange;
use holo::policy_cfg::Notice;
use holo::policy_cfg::TextChange;
use holo::policy_stmt_cfg::afi_safi_add;
use holo::policy_stmt_cfg::afi_safi_options;
use holo::policy_stmt_cfg::afi_safi_remove;
use holo::policy_stmt_cfg::bgp_as_path_prepend_get_asn;
use holo::policy_stmt_cfg::bgp_as_path_prepend_get_repeat;
use holo::policy_stmt_cfg::bgp_cond_get_op;
use holo::policy_stmt_cfg::bgp_cond_set_op;
use holo::policy_stmt_cfg::bgp_cond_set_value;
use holo::policy_stmt_cfg::bgp_match_set_delete;
use holo::policy_stmt_cfg::bgp_match_set_options;
use holo::policy_stmt_cfg::bgp_match_set_ref;
use holo::policy_stmt_cfg::bgp_match_set_type_get;
use holo::policy_stmt_cfg::bgp_route_type_from_yang;
use holo::policy_stmt_cfg::bgp_set_comm_delete;
use holo::policy_stmt_cfg::bgp_set_comm_inline_add;
use holo::policy_stmt_cfg::bgp_set_comm_inline_remove;
use holo::policy_stmt_cfg::bgp_set_comm_options;
use holo::policy_stmt_cfg::bgp_set_comm_options_from_yang;
use holo::policy_stmt_cfg::bgp_set_comm_reference;
use holo::policy_stmt_cfg::bgp_set_med_from_yang;
use holo::policy_stmt_cfg::bgp_set_nexthop_from_yang;
use holo::policy_stmt_cfg::neighbor_add;
use holo::policy_stmt_cfg::neighbor_options;
use holo::policy_stmt_cfg::neighbor_remove;
use holo::policy_stmt_cfg::policy_result_from_yang;
use holo::policy_stmt_cfg::route_type_add;
use holo::policy_stmt_cfg::route_type_remove;
use holo::policy_stmt_cfg::stmt_apply;
use holo::policy_stmt_cfg::ActionChange;
use holo::policy_stmt_cfg::BgpActionChange;
use holo::policy_stmt_cfg::BgpConditionChange;
use holo::policy_stmt_cfg::CommChange;
use holo::policy_stmt_cfg::ConditionChange;
use holo::policy_stmt_cfg::StmtChange;
use holo::policy_types::BgpAsPathSet;
use holo::policy_types::BgpCommunitySet;
use holo::policy_types::BgpEqOperator;
use holo::policy_types::BgpNexthop;
use holo::policy_types::BgpPolicyAction;
use holo::policy_types::BgpPolicyActionType;
use holo::policy_types::BgpPolicyCondition;
use holo::policy_types::BgpPolicyConditionType;
use holo::policy_types::BgpSetCommMethod;
use holo::policy_types::BgpSetCommOptions;
use holo::policy_types::BgpSetMed;
use holo::policy_types::IgpRouteType;
use holo::policy_types::IpPrefixRange;
use holo::policy_types::MatchSetRestrictedType;
use holo::policy_types::MatchSetType;
use holo::policy_types::PolicyAction;
use holo::policy_types::PolicyActionType;
use holo::policy_types::PolicyCondition;
use holo::policy_types::PolicyConditionType;
use holo::policy_types::PolicyStmt;
use holo::policy_types::PrefixSetKey;
use holo::protocol::Protocol;

fn stmt() -> PolicyStmt {
    PolicyStmt::new("10".to_owned())
}

fn condition(stmt: &PolicyStmt, t: BgpPolicyConditionType) -> Option<&BgpPolicyCondition> {
    match stmt.conditions.get(&PolicyConditionType::Bgp(t)) {
        Some(PolicyCondition::Bgp(c)) => Some(c),
        _ => None,
    }
}

fn comm_action(stmt: &PolicyStmt) -> Option<(BgpSetCommOptions, Option<Vec<u32>>)> {
    match stmt.actions.get(&PolicyActionType::Bgp(BgpPolicyActionType::SetComm)) {
        Some(PolicyAction::Bgp(BgpPolicyAction::SetComm { options, method })) => {
            let comms = match method {
                BgpSetCommMethod::Inline(set) => Some((0..set.len()).map(|i| set.nth(i).0).collect()),
                BgpSetCommMethod::Reference(_) => None,
            };
            Some((*options, comms))
        }
        _ => None,
    }
}

#[test]
fn the_operator_of_a_condition_defaults_to_equality() {
    let mut stmt = stmt();
    let med = BgpPolicyConditionType::Med;
    assert_eq!(bgp_cond_get_op(&stmt, med), BgpEqOperator::Equal);
    bgp_cond_set_op(&mut stmt, med, BgpEqOperator::LessThanOrEqual);
    assert!(stmt.conditions.is_empty());
    bgp_cond_set_value(&mut stmt, med, 10);
    bgp_cond_set_op(&mut stmt, med, BgpEqOperator::LessThanOrEqual);
    bgp_cond_set_value(&mut stmt, med, 20);
    assert!(matches!(
        condition(&stmt, med),
        Some(BgpPolicyCondition::Med { value: 20, op: BgpEqOperator::LessThanOrEqual })
    ));
    for t in [
        BgpPolicyConditionType::LocalPref,
        BgpPolicyConditionType::CommCount,
        BgpPolicyConditionType::AsPathLen,
    ] {
        bgp_cond_set_value(&mut stmt, t, 1);
        bgp_cond_set_op(&mut stmt, t, BgpEqOperator::GreaterThanOrEqual);
        assert_eq!(bgp_cond_get_op(&stmt, t), BgpEqOperator::GreaterThanOrEqual);
    }
    assert_eq!(bgp_cond_get_op(&stmt, med), BgpEqOperator::LessThanOrEqual);
}

#[test]
fn references_keep_their_options() {
    let mut stmt = stmt();
    for t in [
        BgpPolicyConditionType::MatchCommSet,
        BgpPolicyConditionType::MatchExtCommSet,
        BgpPolicyConditionType::MatchExtv6CommSet,
        BgpPolicyConditionType::MatchLargeCommSet,
        BgpPolicyConditionType::MatchAsPathSet,
    ] {
        bgp_match_set_options(&mut stmt, t, MatchSetType::All);
        assert_eq!(bgp_match_set_type_get(&stmt, t), MatchSetType::Any);
        bgp_match_set_ref(&mut stmt, t, "A".to_owned());
        bgp_match_set_options(&mut stmt, t, MatchSetType::All);
        bgp_match_set_ref(&mut stmt, t, "B".to_owned());
        assert_eq!(bgp_match_set_type_get(&stmt, t), MatchSetType::All);
    }
    assert!(matches!(
        condition(&stmt, BgpPolicyConditionType::MatchAsPathSet),
        Some(BgpPolicyCondition::MatchAsPathSet { value, match_type: MatchSetType::All }) if value == "B"
    ));
    bgp_match_set_delete(&mut stmt, BgpPolicyConditionType::MatchAsPathSet);
    assert!(condition(&stmt, BgpPolicyConditionType::MatchAsPathSet).is_none());
}

#[test]
fn the_last_value_takes_the_condition_with_it() {
    let mut stmt = stmt();
    route_type_add(&mut stmt, IgpRouteType::OspfInternal);
    route_type_add(&mut stmt, IgpRouteType::IsisLevel1);
    route_type_remove(&mut stmt, IgpRouteType::OspfInternal);
    assert!(!stmt.conditions.is_empty());
    route_type_remove(&mut stmt, IgpRouteType::IsisLevel1);
    assert!(stmt.conditions.is_empty());

    afi_safi_options(&mut stmt, MatchSetRestrictedType::Invert);
    assert!(stmt.conditions.is_empty());
    afi_safi_add(&mut stmt, AfiSafi::Ipv4Unicast);
    afi_safi_options(&mut stmt, MatchSetRestrictedType::Invert);
    afi_safi_add(&mut stmt, AfiSafi::Ipv6Unicast);
    assert!(matches!(
        condition(&stmt, BgpPolicyConditionType::MatchAfiSafi),
        Some(BgpPolicyCondition::MatchAfiSafi { values, match_type: MatchSetRestrictedType::Invert })
            if values.len() == 2
    ));
    afi_safi_remove(&mut stmt, AfiSafi::Ipv4Unicast);
    afi_safi_remove(&mut stmt, AfiSafi::Ipv6Unicast);
    assert!(stmt.conditions.is_empty());

    let addr = IpAddr::V4(Ipv4Addr::new(192, 0, 2, 1));
    neighbor_remove(&mut stmt, addr);
    neighbor_add(&mut stmt, addr);
    neighbor_options(&mut stmt, MatchSetRestrictedType::Invert);
    assert!(matches!(
        condition(&stmt, BgpPolicyConditionType::MatchNeighbor),
        Some(BgpPolicyCondition::MatchNeighbor { match_type: MatchSetRestrictedType::Invert, .. })
    ));
    neighbor_remove(&mut stmt, addr);
    assert!(stmt.conditions.is_empty());
}

#[test]
fn communities_are_configured_in_any_order() {
    let mut stmt = stmt();
    bgp_set_comm_inline_remove(&mut stmt, Comm(1));
    assert_eq!(comm_action(&stmt), None);
    bgp_set_comm_inline_add(&mut stmt, Comm(1));
    assert_eq!(comm_action(&stmt), Some((BgpSetCommOptions::Add, Some(vec![1]))));
    bgp_set_comm_options::<Comm>(&mut stmt, BgpSetCommOptions::Replace);
    bgp_set_comm_inline_add(&mut stmt, Comm(2));
    bgp_set_comm_inline_remove(&mut stmt, Comm(1));
    assert_eq!(comm_action(&stmt), Some((BgpSetCommOptions::Replace, Some(vec![2]))));
    bgp_set_comm_reference::<Comm>(&mut stmt, "SET".to_owned());
    assert_eq!(comm_action(&stmt), Some((BgpSetCommOptions::Replace, None)));
    bgp_set_comm_inline_remove(&mut stmt, Comm(2));
    assert_eq!(comm_action(&stmt), Some((BgpSetCommOptions::Replace, None)));
    bgp_set_comm_inline_add(&mut stmt, Comm(3));
    assert_eq!(comm_action(&stmt), Some((BgpSetCommOptions::Replace, Some(vec![3]))));
    bgp_set_comm_delete(&mut stmt, BgpPolicyActionType::SetComm);
    assert_eq!(comm_action(&stmt), None);
    bgp_set_comm_options::<Comm>(&mut stmt, BgpSetCommOptions::Remove);
    assert_eq!(comm_action(&stmt), Some((BgpSetCommOptions::Remove, Some(vec![]))));
}

#[test]
fn prepending_is_configured_in_parts() {
    let mut stmt = stmt();
    let change = |stmt: &mut PolicyStmt, c| stmt_apply(stmt, StmtChange::Action(ActionChange::Bgp(c)));
    assert_eq!(bgp_as_path_prepend_get_asn(&stmt), 0);
    assert_eq!(bgp_as_path_prepend_get_repeat(&stmt), None);
    change(&mut stmt, BgpActionChange::PrependRepeat(Some(3)));
    change(&mut stmt, BgpActionChange::PrependAsn(Some(65001)));
    assert_eq!(bgp_as_path_prepend_get_asn(&stmt), 65001);
    assert_eq!(bgp_as_path_prepend_get_repeat(&stmt), Some(3));
    change(&mut stmt, BgpActionChange::PrependRepeat(None));
    assert_eq!(bgp_as_path_prepend_get_repeat(&stmt), None);
    change(&mut stmt, BgpActionChange::PrependAsn(None));
    assert!(stmt.actions.is_empty());
}

#[test]
fn texts_of_actions() {
    assert_eq!(bgp_set_med_from_yang("igp"), Some(BgpSetMed::Igp));
    assert_eq!(bgp_set_med_from_yang("med-plus-igp"), Some(BgpSetMed::MedPlusIgp));
    assert_eq!(bgp_set_med_from_yang("+5"), Some(BgpSetMed::Add(5)));
    assert_eq!(bgp_set_med_from_yang("-5"), Some(BgpSetMed::Subtract(5)));
    assert_eq!(bgp_set_med_from_yang("5"), Some(BgpSetMed::Assign(5)));
    assert_eq!(bgp_set_med_from_yang("4294967296"), None);
    assert_eq!(bgp_set_med_from_yang("x"), None);
    assert_eq!(bgp_set_med_from_yang(""), None);
    let addr = IpAddr::V4(Ipv4Addr::new(192, 0, 2, 1));
    assert_eq!(bgp_set_nexthop_from_yang("self", None), Some(BgpNexthop::NexthopSelf));
    assert_eq!(bgp_set_nexthop_from_yang("192.0.2.1", Some(addr)), Some(BgpNexthop::Addr(addr)));
    assert_eq!(bgp_set_nexthop_from_yang("x", None), None);
    assert_eq!(bgp_route_type_from_yang("internal"), Some(RouteType::Internal));
    assert_eq!(bgp_route_type_from_yang("external"), Some(RouteType::External));
    assert_eq!(bgp_route_type_from_yang("x"), None);
    assert!(policy_result_from_yang("accept-route"));
    assert!(!policy_result_from_yang("reject-route"));
    assert_eq!(bgp_set_comm_options_from_yang("add"), BgpSetCommOptions::Add);
    assert_eq!(bgp_set_comm_options_from_yang("remove"), BgpSetCommOptions::Remove);
    assert_eq!(bgp_set_comm_options_from_yang("replace"), BgpSetCommOptions::Replace);
}

#[test]
fn members_are_literals_or_regular_expressions() {
    let mut set: BgpCommunitySet<Comm> = BgpCommunitySet::new();
    let mut add = |value: &str| comm_set_member_add(&mut set, value.to_owned(), Comm::try_from_yang(value));
    add("65000:1");
    add("^65000:.*$");
    add("(");
    assert_eq!(set.literals.len(), 1);
    assert!(set.literals.contains(&Comm(65000 << 16 | 1)));
    assert_eq!(set.regexes.len(), 1);
    comm_set_member_remove(&mut set, "^65000:.*$".to_owned(), None);
    comm_set_member_remove(&mut set, "65000:1".to_owned(), Some(Comm(65000 << 16 | 1)));
    assert!(set.literals.is_empty() && set.regexes.is_empty());

    let mut set = BgpAsPathSet::new();
    as_path_set_member_add(&mut set, "65001", "unused".to_owned());
    as_path_set_member_add(&mut set, "^65001_", "(^|$)65001".to_owned());
    as_path_set_member_add(&mut set, "[", "[".to_owned());
    assert_eq!((set.literals.len(), set.regexes.len()), (1, 1));
    as_path_set_member_remove(&mut set, "65001", "unused".to_owned());
    as_path_set_member_remove(&mut set, "^65001_", "(^|$)65001".to_owned());
    assert!(set.literals.is_empty() && set.regexes.is_empty());
}

#[test]
fn defined_sets_are_configured() {
    let mut master = Master::new();
    let prefix_key = || PrefixSetKey { name: "PL".to_owned(), mode: AddressFamily::Ipv4 };
    let range = IpPrefixRange {
        prefix: IpNetwork::V4(Ipv4Network { addr: Ipv4Addr::new(10, 0, 0, 0), prefix: 8 }),
        masklen_lower: 8,
        masklen_upper: 32,
    };
    let created = match_set_apply(&mut master, MatchSetChange::Prefixes(prefix_key(), ItemChange::Create));
    assert!(created.is_none());
    let changed =
        match_set_apply(&mut master, MatchSetChange::Prefixes(prefix_key(), ItemChange::ItemAdd(range)));
    assert!(matches!(changed, Some(Event::MatchSetsUpdate)));
    assert!(master.match_sets.prefixes.get(&prefix_key()).unwrap().prefixes.contains(&range));
    match_set_apply(&mut master, MatchSetChange::Prefixes(prefix_key(), ItemChange::ItemRemove(range)));
    assert!(master.match_sets.prefixes.get(&prefix_key()).unwrap().prefixes.is_empty());
    let deleted = match_set_apply(&mut master, MatchSetChange::Prefixes(prefix_key(), ItemChange::Delete));
    assert!(deleted.is_some());

    let name = || "S".to_owned();
    let addr = IpAddr::V4(Ipv4Addr::new(192, 0, 2, 1));
    match_set_apply(&mut master, MatchSetChange::Neighbors(name(), ItemChange::Create));
    match_set_apply(&mut master, MatchSetChange::Neighbors(name(), ItemChange::ItemAdd(addr)));
    assert!(master.match_sets.neighbors.get(&name()).unwrap().addrs.contains(&addr));
    match_set_apply(&mut master, MatchSetChange::Tags(name(), ItemChange::Create));
    match_set_apply(&mut master, MatchSetChange::Tags(name(), ItemChange::ItemAdd(7)));
    assert!(master.match_sets.tags.get(&name()).unwrap().tags.contains(&7));
    match_set_apply(&mut master, MatchSetChange::AsPaths(name(), AsPathChange::Create));
    let member = AsPathChange::MemberAdd { value: "65001".to_owned(), pattern: name() };
    match_set_apply(&mut master, MatchSetChange::AsPaths(name(), member));
    assert!(master.match_sets.bgp.as_paths.get(&name()).unwrap().literals.contains(&65001));
    match_set_apply(&mut master, MatchSetChange::Comms(name(), TextChange::Create));
    let member = TextChange::MemberAdd("1".to_owned());
    match_set_apply(&mut master, MatchSetChange::Comms(name(), member));
    match_set_apply(&mut master, MatchSetChange::ExtComms(name(), MemberChange::Create));
    match_set_apply(&mut master, MatchSetChange::Extv6Comms(name(), MemberChange::Create));
    match_set_apply(&mut master, MatchSetChange::LargeComms(name(), TextChange::Create));
    let member = TextChange::MemberAdd("65000:100:200".to_owned());
    match_set_apply(&mut master, MatchSetChange::LargeComms(name(), member));
    let Notice::PolicyMatchSetsUpd(sets) = process_event(&master, Event::MatchSetsUpdate) else {
        panic!("no sets");
    };
    assert!(sets.bgp.comms.get(&name()).unwrap().literals.contains(&Comm(1)));
    let large = LargeComm([0, 0, 0xfd, 0xe8, 0, 0, 0, 100, 0, 0, 0, 200]);
    assert!(sets.bgp.large_comms.get(&name()).unwrap().literals.contains(&large));
    assert!(sets.tags.get(&name()).unwrap().tags.contains(&7));
}

#[test]
fn policies_are_configured() {
    let mut master = Master::new();
    let name = || "P".to_owned();
    policy_create(&mut master, name());
    for stmt in ["20", "10"] {
        let event = stmt_create(&mut master, &name(), stmt.to_owned());
        assert!(matches!(event, Event::PolicyChange(n) if n == "P"));
    }
    for change in [
        StmtChange::Condition(ConditionChange::CallPolicy(Some("Q".to_owned()))),
        StmtChange::Condition(ConditionChange::SrcProtocol(Some(Protocol::BGP))),
        StmtChange::Condition(ConditionChange::MatchInterface(Some("eth0".to_owned()))),
        StmtChange::Condition(ConditionChange::MatchPrefixSet(Some("PL".to_owned()))),
        StmtChange::Condition(ConditionChange::PrefixSetOptions(MatchSetRestrictedType::Invert)),
        StmtChange::Condition(ConditionChange::MatchNeighborSet(Some("N".to_owned()))),
        StmtChange::Condition(ConditionChange::MatchTagSet(Some("T".to_owned()))),
        StmtChange::Condition(ConditionChange::TagSetOptions(MatchSetType::All)),
        StmtChange::Condition(ConditionChange::RouteTypeAdd(IgpRouteType::OspfNssa)),
        StmtChange::Condition(ConditionChange::Bgp(BgpConditionChange::Origin(Some(Origin::Egp)))),
        StmtChange::Condition(ConditionChange::Bgp(BgpConditionChange::RouteType(Some(RouteType::Internal)))),
        StmtChange::Action(ActionChange::Accept(Some(true))),
        StmtChange::Action(ActionChange::SetRoutePref(Some(5))),
        StmtChange::Action(ActionChange::SetTag(Some(6))),
        StmtChange::Action(ActionChange::SetAppTag(Some(7))),
        StmtChange::Action(ActionChange::Bgp(BgpActionChange::LocalPref(Some(8)))),
        StmtChange::Action(ActionChange::Bgp(BgpActionChange::Comm(CommChange::InlineAdd(Comm(9))))),
    ] {
        policy_stmt_apply(&mut master, &name(), &"10".to_owned(), change);
    }
    let Notice::PolicyUpd(policy) = process_event(&master, Event::PolicyChange(name())) else {
        panic!("no policy");
    };
    assert_eq!(policy.stmts.iter().map(|s| s.name.as_str()).collect::<Vec<_>>(), vec!["20", "10"]);
    let stmt = &policy.stmts[1];
    assert_eq!(stmt.conditions.entries.len(), 9);
    assert_eq!(stmt.actions.entries.len(), 6);
    assert_eq!(stmt.prefix_set_match_type, MatchSetRestrictedType::Invert);
    assert_eq!(stmt.tag_set_match_type, MatchSetType::All);

    policy_stmt_apply(
        &mut master,
        &name(),
        &"10".to_owned(),
        StmtChange::Condition(ConditionChange::CallPolicy(None)),
    );
    let stmts = &master.policies.get(&name()).unwrap().stmts;
    assert_eq!(stmts[1].conditions.entries.len(), 8);
    stmt_delete(&mut master, &name(), &"20".to_owned());
    assert_eq!(master.policies.get(&name()).unwrap().stmts.len(), 1);
    let event = policy_delete(&mut master, name());
    assert!(matches!(process_event(&master, event), Notice::PolicyDel(n) if n == "P"));
    assert!(master.policies.is_empty());
}

#[test]
fn list_entries_of_policies() {
    assert!(ListEntry::NoEntry.into_policy().is_none());
    assert_eq!(ListEntry::Policy("P".to_owned()).into_policy().unwrap(), "P");
    let (policy, stmt) = ListEntry::PolicyStmt("P".to_owned(), "10".to_owned()).into_policy_stmt().unwrap();
    assert_eq!((policy.as_str(), stmt.as_str()), ("P", "10"));
    let key = ListEntry::PrefixSet("PL".to_owned(), AddressFamily::Ipv6).into_prefix_set().unwrap();
    assert_eq!(key.mode, AddressFamily::Ipv6);
}

#[test]
fn changes_of_the_configuration_are_announced() {
    let mut master = Master::new();
    let name = || "P".to_owned();
    let stmt = || "10".to_owned();
    assert!(config_apply(&mut master, ConfigChange::PolicyCreate(name())).is_none());
    let created = MatchSetChange::Tags(name(), ItemChange::Create);
    assert!(config_apply(&mut master, ConfigChange::MatchSet(created)).is_none());
    let added = MatchSetChange::Tags(name(), ItemChange::ItemAdd(5));
    assert!(matches!(
        config_apply(&mut master, ConfigChange::MatchSet(added)),
        Some(Event::MatchSetsUpdate)
    ));
    for change in [
        ConfigChange::StmtCreate(name(), stmt()),
        ConfigChange::Stmt(name(), stmt(), StmtChange::Action(ActionChange::Accept(Some(true)))),
        ConfigChange::StmtDelete(name(), stmt()),
    ] {
        assert!(matches!(
            config_apply(&mut master, change),
            Some(Event::PolicyChange(n)) if n == "P"
        ));
    }
    assert!(matches!(
        config_apply(&mut master, ConfigChange::PolicyDelete(name())),
        Some(Event::PolicyDelete(n)) if n == "P"
    ));
}

#[test]
fn members_are_read_from_their_texts() {
    let mut set: BgpCommunitySet<Comm> = BgpCommunitySet::new();
    for value in ["65000:1", "7", "^7$", "("] {
        comm_member_add(&mut set, value.to_owned());
    }
    assert!(set.literals.contains(&Comm(65000 << 16 | 1)) && set.literals.contains(&Comm(7)));
    assert_eq!((set.literals.len(), set.regexes.len()), (2, 1));
    for value in ["65000:1", "7", "^7$"] {
        comm_member_remove(&mut set, value.to_owned());
    }
    assert!(set.literals.is_empty() && set.regexes.is_empty());

    let mut set: BgpCommunitySet<LargeComm> = BgpCommunitySet::new();
    for value in ["1:2:3", "1:2:.*"] {
        large_comm_member_add(&mut set, value.to_owned());
    }
    assert!(set.literals.contains(&LargeComm([0, 0, 0, 1, 0, 0, 0, 2, 0, 0, 0, 3])));
    assert_eq!((set.literals.len(), set.regexes.len()), (1, 1));
    for value in ["1:2:3", "1:2:.*"] {
        large_comm_member_remove(&mut set, value.to_owned());
    }
    assert!(set.literals.is_empty() && set.regexes.is_empty());
}

#[test]
fn policy_events_are_kept_once_and_in_order() {
    let mut events: SortedSet<Event> = SortedSet::new();
    events.insert(Event::PolicyDelete("a".to_owned()));
    events.insert(Event::PolicyChange("b".to_owned()));
    events.insert(Event::PolicyChange("a".to_owned()));
    events.insert(Event::PolicyChange("b".to_owned()));
    events.insert(Event::MatchSetsUpdate);
    assert_eq!(events.len(), 4);
    assert!(matches!(events.nth(0), Event::MatchSetsUpdate));
    assert!(matches!(events.nth(1), Event::PolicyChange(name) if name == "a"));
    assert!(matches!(events.nth(2), Event::PolicyChange(name) if name == "b"));
    assert!(matches!(events.nth(3), Event::PolicyDelete(name) if name == "a"));
}
