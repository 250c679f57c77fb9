//! Policies and defined sets as mathematical values, and copies of them.
use crate::bgp::AfiSafi;
use crate::bgp::Comm;
use crate::bgp::ExtComm;
use crate::bgp::Extv6Comm;
use crate::bgp::LargeComm;
use crate::ip::AddressFamily;
use crate::ip::IpAddr;
use crate::ord::models;
use crate::ord::Duplicate;
use crate::ord::Ranked;
use crate::ord::SortedSet;
use crate::policy_types::action_type;
use crate::policy_types::action_wf;
use crate::policy_types::condition_type;
use crate::policy_types::condition_wf;
use crate::policy_types::method_wf;
use crate::policy_types::BgpAsPathSet;
use crate::policy_types::BgpCommunitySet;
use crate::policy_types::BgpMatchSets;
use crate::policy_types::BgpNexthop;
use crate::policy_types::BgpPolicyAction;
use crate::policy_types::BgpPolicyCondition;
use crate::policy_types::BgpSetCommMethod;
use crate::policy_types::BgpSetCommOptions;
use crate::policy_types::IgpRouteType;
use crate::policy_types::IpPrefixRange;
use crate::policy_types::MatchSetRestrictedType;
use crate::policy_types::MatchSetType;
use crate::policy_types::MatchSets;
use crate::policy_types::NeighborSet;
use crate::policy_types::Policy;
use crate::policy_types::PolicyAction;
use crate::policy_types::PolicyActionType;
use crate::policy_types::PolicyCondition;
use crate::policy_types::PolicyConditionType;
use crate::policy_types::PolicyStmt;
use crate::policy_types::PrefixSet;
use crate::policy_types::TagSet;
use vstd::prelude::*;

verus! {

/// A condition as a mathematical value.
pub enum ConditionModel {
    RouteTypes(Set<IgpRouteType>),
    AfiSafis { values: Set<AfiSafi>, match_type: MatchSetRestrictedType },
    Neighbors { value: Set<IpAddr>, match_type: MatchSetRestrictedType },
    /// A condition without a set.
    Plain(PolicyCondition),
}

impl View for PolicyCondition {
    type V = ConditionModel;

    open spec fn view(&self) -> ConditionModel {
        match *self {
            PolicyCondition::MatchRouteType(s) => ConditionModel::RouteTypes(s@),
            PolicyCondition::Bgp(BgpPolicyCondition::MatchAfiSafi { values, match_type }) => ConditionModel::AfiSafis {
                values: values@,
                match_type,
            },
            PolicyCondition::Bgp(BgpPolicyCondition::MatchNeighbor { value, match_type }) => ConditionModel::Neighbors {
                value: value@,
                match_type,
            },
            c => ConditionModel::Plain(c),
        }
    }
}

/// The communities to set, as a mathematical value.
#[verifier::reject_recursive_types(T)]
pub enum MethodModel<T> {
    Inline(Set<T>),
    Reference(String),
}

impl<T: Ranked> View for BgpSetCommMethod<T> {
    type V = MethodModel<T>;

    open spec fn view(&self) -> MethodModel<T> {
        match *self {
            BgpSetCommMethod::Inline(s) => MethodModel::Inline(s@),
            BgpSetCommMethod::Reference(name) => MethodModel::Reference(name),
        }
    }
}

/// An action as a mathematical value.
pub enum ActionModel {
    SetComm(BgpSetCommOptions, MethodModel<Comm>),
    SetExtComm(BgpSetCommOptions, MethodModel<ExtComm>),
    SetExtv6Comm(BgpSetCommOptions, MethodModel<Extv6Comm>),
    SetLargeComm(BgpSetCommOptions, MethodModel<LargeComm>),
    /// An action without a set.
    Plain(PolicyAction),
}

impl View for PolicyAction {
    type V = ActionModel;

    open spec fn view(&self) -> ActionModel {
        match *self {
            PolicyAction::Bgp(BgpPolicyAction::SetComm { options, method }) => ActionModel::SetComm(options, method@),
            PolicyAction::Bgp(BgpPolicyAction::SetExtComm { options, method }) => ActionModel::SetExtComm(
                options,
                method@,
            ),
            PolicyAction::Bgp(BgpPolicyAction::SetExtv6Comm { options, method }) => ActionModel::SetExtv6Comm(
                options,
                method@,
            ),
            PolicyAction::Bgp(BgpPolicyAction::SetLargeComm { options, method }) => ActionModel::SetLargeComm(
                options,
                method@,
            ),
            a => ActionModel::Plain(a),
        }
    }
}

/// A statement as a mathematical value.
pub struct StmtModel {
    pub name: Seq<char>,
    pub prefix_set_match_type: MatchSetRestrictedType,
    pub tag_set_match_type: MatchSetType,
    pub conditions: Map<PolicyConditionType, ConditionModel>,
    pub actions: Map<PolicyActionType, ActionModel>,
}

impl View for PolicyStmt {
    type V = StmtModel;

    open spec fn view(&self) -> StmtModel {
        StmtModel {
            name: self.name@,
            prefix_set_match_type: self.prefix_set_match_type,
            tag_set_match_type: self.tag_set_match_type,
            conditions: models(self.conditions@),
            actions: models(self.actions@),
        }
    }
}

/// A policy as a mathematical value.
pub struct PolicyModel {
    pub name: Seq<char>,
    pub stmts: Seq<StmtModel>,
}

/// The models of statements.
pub open spec fn stmt_models(stmts: Seq<PolicyStmt>) -> Seq<StmtModel> {
    Seq::new(stmts.len(), |i: int| stmts[i]@)
}

impl View for Policy {
    type V = PolicyModel;

    open spec fn view(&self) -> PolicyModel {
        PolicyModel { name: self.name@, stmts: stmt_models(self.stmts@) }
    }
}

impl Duplicate for PolicyCondition {
    open spec fn valid(&self) -> bool {
        condition_wf(*self)
    }

    fn copy_of(&self) -> (r: Self) {
        match self {
            PolicyCondition::CallPolicy(name) => PolicyCondition::CallPolicy(name.clone()),
            PolicyCondition::SrcProtocol(protocol) => PolicyCondition::SrcProtocol(*protocol),
            PolicyCondition::MatchInterface(name) => PolicyCondition::MatchInterface(name.clone()),
            PolicyCondition::MatchPrefixSet(name) => PolicyCondition::MatchPrefixSet(name.clone()),
            PolicyCondition::MatchNeighborSet(name) => PolicyCondition::MatchNeighborSet(name.clone()),
            PolicyCondition::MatchTagSet(name) => PolicyCondition::MatchTagSet(name.clone()),
            PolicyCondition::MatchRouteType(set) => PolicyCondition::MatchRouteType(set.duplicate()),
            PolicyCondition::Bgp(c) => PolicyCondition::Bgp(copy_bgp_condition(c)),
        }
    }
}

fn copy_bgp_condition(c: &BgpPolicyCondition) -> (r: BgpPolicyCondition)
    requires
        condition_wf(PolicyCondition::Bgp(*c)),
    ensures
        condition_wf(PolicyCondition::Bgp(r)),
        PolicyCondition::Bgp(r)@ == PolicyCondition::Bgp(*c)@,
{
    match c {
        BgpPolicyCondition::LocalPref { value, op } => BgpPolicyCondition::LocalPref { value: *value, op: *op },
        BgpPolicyCondition::Med { value, op } => BgpPolicyCondition::Med { value: *value, op: *op },
        BgpPolicyCondition::Origin(origin) => BgpPolicyCondition::Origin(*origin),
        BgpPolicyCondition::MatchAfiSafi { values, match_type } => BgpPolicyCondition::MatchAfiSafi {
            values: values.duplicate(),
            match_type: *match_type,
        },
        BgpPolicyCondition::MatchNeighbor { value, match_type } => BgpPolicyCondition::MatchNeighbor {
            value: value.duplicate(),
            match_type: *match_type,
        },
        BgpPolicyCondition::RouteType(route_type) => BgpPolicyCondition::RouteType(*route_type),
        BgpPolicyCondition::CommCount { value, op } => BgpPolicyCondition::CommCount { value: *value, op: *op },
        BgpPolicyCondition::AsPathLen { value, op } => BgpPolicyCondition::AsPathLen { value: *value, op: *op },
        BgpPolicyCondition::MatchCommSet { value, match_type } => BgpPolicyCondition::MatchCommSet {
            value: value.clone(),
            match_type: *match_type,
        },
        BgpPolicyCondition::MatchExtCommSet { value, match_type } => BgpPolicyCondition::MatchExtCommSet {
            value: value.clone(),
            match_type: *match_type,
        },
        BgpPolicyCondition::MatchExtv6CommSet { value, match_type } => BgpPolicyCondition::MatchExtv6CommSet {
            value: value.clone(),
            match_type: *match_type,
        },
        BgpPolicyCondition::MatchLargeCommSet { value, match_type } => BgpPolicyCondition::MatchLargeCommSet {
            value: value.clone(),
            match_type: *match_type,
        },
        BgpPolicyCondition::MatchAsPathSet { value, match_type } => BgpPolicyCondition::MatchAsPathSet {
            value: value.clone(),
            match_type: *match_type,
        },
        BgpPolicyCondition::MatchNexthopSet { value, match_type } => BgpPolicyCondition::MatchNexthopSet {
            value: value.clone(),
            match_type: *match_type,
        },
    }
}

fn copy_method<T: Ranked>(m: &BgpSetCommMethod<T>) -> (r: BgpSetCommMethod<T>)
    requires
        method_wf(*m),
    ensures
        method_wf(r),
        r@ == m@,
{
    match m {
        BgpSetCommMethod::Inline(set) => BgpSetCommMethod::Inline(set.duplicate()),
        BgpSetCommMethod::Reference(name) => BgpSetCommMethod::Reference(name.clone()),
    }
}

impl Duplicate for PolicyAction {
    open spec fn valid(&self) -> bool {
        action_wf(*self)
    }

    fn copy_of(&self) -> (r: Self) {
        match self {
            PolicyAction::Accept(accept) => PolicyAction::Accept(*accept),
            PolicyAction::SetMetric { value, mod_type } => PolicyAction::SetMetric { value: *value, mod_type: *mod_type },
            PolicyAction::SetMetricType(t) => PolicyAction::SetMetricType(*t),
            PolicyAction::SetRouteLevel(level) => PolicyAction::SetRouteLevel(*level),
            PolicyAction::SetRoutePref(pref) => PolicyAction::SetRoutePref(*pref),
            PolicyAction::SetTag(tag) => PolicyAction::SetTag(*tag),
            PolicyAction::SetAppTag(tag) => PolicyAction::SetAppTag(*tag),
            PolicyAction::Bgp(a) => PolicyAction::Bgp(copy_bgp_action(a)),
        }
    }
}

fn copy_bgp_action(a: &BgpPolicyAction) -> (r: BgpPolicyAction)
    requires
        action_wf(PolicyAction::Bgp(*a)),
    ensures
        action_wf(PolicyAction::Bgp(r)),
        PolicyAction::Bgp(r)@ == PolicyAction::Bgp(*a)@,
{
    match a {
        BgpPolicyAction::SetRouteOrigin(origin) => BgpPolicyAction::SetRouteOrigin(*origin),
        BgpPolicyAction::SetLocalPref(pref) => BgpPolicyAction::SetLocalPref(*pref),
        BgpPolicyAction::SetNexthop(nexthop) => BgpPolicyAction::SetNexthop(*nexthop),
        BgpPolicyAction::SetMed(med) => BgpPolicyAction::SetMed(*med),
        BgpPolicyAction::SetAsPathPrepent { asn, repeat } => BgpPolicyAction::SetAsPathPrepent {
            asn: *asn,
            repeat: *repeat,
        },
        BgpPolicyAction::SetComm { options, method } => BgpPolicyAction::SetComm {
            options: *options,
            method: copy_method(method),
        },
        BgpPolicyAction::SetExtComm { options, method } => BgpPolicyAction::SetExtComm {
            options: *options,
            method: copy_method(method),
        },
        BgpPolicyAction::SetExtv6Comm { options, method } => BgpPolicyAction::SetExtv6Comm {
            options: *options,
            method: copy_method(method),
        },
        BgpPolicyAction::SetLargeComm { options, method } => BgpPolicyAction::SetLargeComm {
            options: *options,
            method: copy_method(method),
        },
    }
}

impl Duplicate for PolicyStmt {
    open spec fn valid(&self) -> bool {
        self.wf()
    }

    fn copy_of(&self) -> (r: Self) {
        let r = PolicyStmt {
            name: self.name.clone(),
            prefix_set_match_type: self.prefix_set_match_type,
            tag_set_match_type: self.tag_set_match_type,
            conditions: self.conditions.deep_copy(),
            actions: self.actions.deep_copy(),
        };
        proof {
            assert forall|k: PolicyConditionType| #[trigger] r.conditions@.contains_key(k) implies condition_type(
                r.conditions@[k],
            ) == k by {
                assert(models(r.conditions@).contains_key(k));
                assert(self.conditions@.contains_key(k));
                assert(models(r.conditions@)[k] == self.conditions@[k]@);
            }
            assert forall|k: PolicyActionType| #[trigger] r.actions@.contains_key(k) implies action_type(r.actions@[k])
                == k by {
                assert(models(r.actions@).contains_key(k));
                assert(self.actions@.contains_key(k));
                assert(models(r.actions@)[k] == self.actions@[k]@);
            }
        }
        r
    }
}

impl Duplicate for Policy {
    open spec fn valid(&self) -> bool {
        self.wf()
    }

    fn copy_of(&self) -> (r: Self) {
        let mut stmts: Vec<PolicyStmt> = Vec::new();
        let mut i: usize = 0;
        while i < self.stmts.len()
            invariant
                self.wf(),
                i <= self.stmts@.len(),
                stmts@.len() == i,
                forall|j: int| 0 <= j < i ==> (#[trigger] stmts@[j])@ == self.stmts@[j]@ && stmts@[j].wf(),
            decreases self.stmts@.len() - i,
        {
            stmts.push(self.stmts[i].copy_of());
            i += 1;
        }
        let r = Policy { name: self.name.clone(), stmts };
        assert forall|a: int, b: int| 0 <= a < b < r.stmts@.len() implies (#[trigger] r.stmts@[a]).name@ != (
        #[trigger] r.stmts@[b]).name@ by {
            assert(r.stmts@[a]@ == self.stmts@[a]@ && r.stmts@[b]@ == self.stmts@[b]@);
        }
        assert(stmt_models(r.stmts@) =~= stmt_models(self.stmts@));
        r
    }
}

impl View for PrefixSet {
    type V = (Seq<char>, AddressFamily, Set<IpPrefixRange>);

    open spec fn view(&self) -> (Seq<char>, AddressFamily, Set<IpPrefixRange>) {
        (self.name@, self.mode, self.prefixes@)
    }
}

impl Duplicate for PrefixSet {
    open spec fn valid(&self) -> bool {
        self.prefixes.wf()
    }

    fn copy_of(&self) -> (r: Self) {
        PrefixSet { name: self.name.clone(), mode: self.mode, prefixes: self.prefixes.duplicate() }
    }
}

impl View for NeighborSet {
    type V = (Seq<char>, Set<IpAddr>);

    open spec fn view(&self) -> (Seq<char>, Set<IpAddr>) {
        (self.name@, self.addrs@)
    }
}

impl Duplicate for NeighborSet {
    open spec fn valid(&self) -> bool {
        self.addrs.wf()
    }

    fn copy_of(&self) -> (r: Self) {
        NeighborSet { name: self.name.clone(), addrs: self.addrs.duplicate() }
    }
}

impl View for TagSet {
    type V = (Seq<char>, Set<u32>);

    open spec fn view(&self) -> (Seq<char>, Set<u32>) {
        (self.name@, self.tags@)
    }
}

impl Duplicate for TagSet {
    open spec fn valid(&self) -> bool {
        self.tags.wf()
    }

    fn copy_of(&self) -> (r: Self) {
        TagSet { name: self.name.clone(), tags: self.tags.duplicate() }
    }
}

/// A set of members, literal ones and regular expressions.
#[verifier::reject_recursive_types(T)]
pub struct MembersModel<T> {
    pub literals: Set<T>,
    pub regexes: Set<Seq<char>>,
}

impl View for BgpAsPathSet {
    type V = MembersModel<u32>;

    open spec fn view(&self) -> MembersModel<u32> {
        MembersModel { literals: self.literals@, regexes: self.regexes@ }
    }
}

impl Duplicate for BgpAsPathSet {
    open spec fn valid(&self) -> bool {
        self.wf()
    }

    fn copy_of(&self) -> (r: Self) {
        BgpAsPathSet { literals: self.literals.duplicate(), regexes: self.regexes.duplicate() }
    }
}

impl<T: Ranked> View for BgpCommunitySet<T> {
    type V = MembersModel<T>;

    open spec fn view(&self) -> MembersModel<T> {
        MembersModel { literals: self.literals@, regexes: self.regexes@ }
    }
}

impl<T: Ranked> Duplicate for BgpCommunitySet<T> {
    open spec fn valid(&self) -> bool {
        self.wf()
    }

    fn copy_of(&self) -> (r: Self) {
        BgpCommunitySet { literals: self.literals.duplicate(), regexes: self.regexes.duplicate() }
    }
}

impl Duplicate for SortedSet<BgpNexthop> {
    open spec fn valid(&self) -> bool {
        self.wf()
    }

    fn copy_of(&self) -> (r: Self) {
        self.duplicate()
    }
}

/// The defined sets as a mathematical value.
pub struct MatchSetsModel {
    pub prefixes: Map<(Seq<char>, AddressFamily), (Seq<char>, AddressFamily, Set<IpPrefixRange>)>,
    pub neighbors: Map<Seq<char>, (Seq<char>, Set<IpAddr>)>,
    pub tags: Map<Seq<char>, (Seq<char>, Set<u32>)>,
    pub as_paths: Map<Seq<char>, MembersModel<u32>>,
    pub comms: Map<Seq<char>, MembersModel<Comm>>,
    pub ext_comms: Map<Seq<char>, MembersModel<ExtComm>>,
    pub extv6_comms: Map<Seq<char>, MembersModel<Extv6Comm>>,
    pub large_comms: Map<Seq<char>, MembersModel<LargeComm>>,
    pub nexthops: Map<Seq<char>, Set<BgpNexthop>>,
}

impl View for MatchSets {
    type V = MatchSetsModel;

    open spec fn view(&self) -> MatchSetsModel {
        MatchSetsModel {
            prefixes: models(self.prefixes@),
            neighbors: models(self.neighbors@),
            tags: models(self.tags@),
            as_paths: models(self.bgp.as_paths@),
            comms: models(self.bgp.comms@),
            ext_comms: models(self.bgp.ext_comms@),
            extv6_comms: models(self.bgp.extv6_comms@),
            large_comms: models(self.bgp.large_comms@),
            nexthops: models(self.bgp.nexthops@),
        }
    }
}

impl Duplicate for MatchSets {
    open spec fn valid(&self) -> bool {
        self.wf()
    }

    fn copy_of(&self) -> (r: Self) {
        MatchSets {
            prefixes: self.prefixes.deep_copy(),
            neighbors: self.neighbors.deep_copy(),
            tags: self.tags.deep_copy(),
            bgp: BgpMatchSets {
                as_paths: self.bgp.as_paths.deep_copy(),
                comms: self.bgp.comms.deep_copy(),
                ext_comms: self.bgp.ext_comms.deep_copy(),
                extv6_comms: self.bgp.extv6_comms.deep_copy(),
                large_comms: self.bgp.large_comms.deep_copy(),
                nexthops: self.bgp.nexthops.deep_copy(),
            },
        }
    }
}

}
