//! Routing policies: defined sets, conditions, actions and statements.
use crate::bgp::AfiSafi;
use crate::bgp::Comm;
use crate::bgp::ExtComm;
use crate::bgp::Extv6Comm;
use crate::bgp::LargeComm;
use crate::bgp::Origin;
use crate::bgp::RouteType;
use crate::ip::AddressFamily;
use crate::ip::IpAddr;
use crate::ip::IpNetwork;
use crate::ord::text_before;
use crate::ord::Key;
use crate::ord::Ranked;
use crate::ord::SortedMap;
use crate::ord::SortedSet;
use crate::protocol::Protocol;
use vstd::prelude::*;

verus! {

#[derive(Clone, Copy, Debug, PartialEq, Eq, Structural)]
pub enum PolicyType {
    Import,
    Export,
    Redistribute,
}

/// What happens to a route that no statement matches.
#[derive(Clone, Copy, Debug, PartialEq, Eq, Structural)]
pub enum DefaultPolicyType {
    AcceptRoute,
    RejectRoute,
}

#[derive(Debug)]
pub enum PolicyResult<T> {
    Accept(T),
    Reject,
}

#[derive(Clone, Copy, Debug, PartialEq, Eq, Structural)]
pub enum MatchSetRestrictedType {
    Any,
    Invert,
}

#[derive(Clone, Copy, Debug, PartialEq, Eq, Structural)]
pub enum MatchSetType {
    Any,
    All,
    Invert,
}

#[derive(Clone, Copy, Debug, PartialEq, Eq, Structural)]
pub enum MetricModification {
    Assign,
    Add,
    Subtract,
}

#[derive(Clone, Copy, Debug, PartialEq, Eq, Structural)]
pub enum MetricType {
    OspfType1,
    OspfType2,
    IsisInternal,
    IsisExternal,
}

#[derive(Clone, Copy, Debug, PartialEq, Eq, Structural)]
pub enum RouteLevel {
    OspfNormal,
    OspfNssaOnly,
    OspfNormalNssa,
    IsisLevel1,
    IsisLevel2,
    IsisLevel1Level2,
}

/// The type of a route of the interior gateway protocols.
#[derive(Clone, Copy, Debug, PartialEq, Eq, Structural)]
pub enum IgpRouteType {
    IsisLevel1,
    IsisLevel2,
    OspfInternal,
    OspfIntraArea,
    OspfInterArea,
    OspfExternal,
    OspfExternalType1,
    OspfExternalType2,
    OspfNssa,
    OspfNssaType1,
    OspfNssaType2,
}

/// How an attribute is compared with a configured value.
#[derive(Clone, Copy, Debug, PartialEq, Eq, Structural)]
pub enum BgpEqOperator {
    Equal,
    LessThanOrEqual,
    GreaterThanOrEqual,
}

#[derive(Clone, Copy, Debug, PartialEq, Eq, Structural)]
pub enum BgpNexthop {
    Addr(IpAddr),
    NexthopSelf,
}

#[derive(Clone, Copy, Debug, PartialEq, Eq, Structural)]
pub enum BgpSetMed {
    Add(u32),
    Subtract(u32),
    Assign(u32),
    Igp,
    MedPlusIgp,
}

#[derive(Clone, Copy, Debug, PartialEq, Eq, Structural)]
pub enum BgpSetCommOptions {
    Add,
    Remove,
    Replace,
}

/// Communities to set: listed in place, or those of a defined set.
pub enum BgpSetCommMethod<T> {
    Inline(SortedSet<T>),
    Reference(String),
}

#[allow(inconsistent_fields)]
pub enum BgpPolicyCondition {
    LocalPref { value: u32, op: BgpEqOperator },
    Med { value: u32, op: BgpEqOperator },
    Origin(Origin),
    MatchAfiSafi { values: SortedSet<AfiSafi>, match_type: MatchSetRestrictedType },
    MatchNeighbor { value: SortedSet<IpAddr>, match_type: MatchSetRestrictedType },
    RouteType(RouteType),
    CommCount { value: u32, op: BgpEqOperator },
    AsPathLen { value: u32, op: BgpEqOperator },
    MatchCommSet { value: String, match_type: MatchSetType },
    MatchExtCommSet { value: String, match_type: MatchSetType },
    MatchExtv6CommSet { value: String, match_type: MatchSetType },
    MatchLargeCommSet { value: String, match_type: MatchSetType },
    MatchAsPathSet { value: String, match_type: MatchSetType },
    MatchNexthopSet { value: String, match_type: MatchSetRestrictedType },
}

#[derive(Clone, Copy, Debug, PartialEq, Eq, Structural)]
pub enum BgpPolicyConditionType {
    LocalPref,
    Med,
    Origin,
    MatchAfiSafi,
    MatchNeighbor,
    RouteType,
    CommCount,
    AsPathLen,
    MatchCommSet,
    MatchExtCommSet,
    MatchExtv6CommSet,
    MatchLargeCommSet,
    MatchAsPathSet,
    MatchNexthopSet,
}

pub enum PolicyCondition {
    CallPolicy(String),
    SrcProtocol(Protocol),
    MatchInterface(String),
    MatchPrefixSet(String),
    MatchNeighborSet(String),
    MatchTagSet(String),
    MatchRouteType(SortedSet<IgpRouteType>),
    Bgp(BgpPolicyCondition),
}

#[derive(Clone, Copy, Debug, PartialEq, Eq, Structural)]
pub enum PolicyConditionType {
    CallPolicy,
    SrcProtocol,
    MatchInterface,
    MatchPrefixSet,
    MatchNeighborSet,
    MatchTagSet,
    MatchRouteType,
    Bgp(BgpPolicyConditionType),
}

#[allow(inconsistent_fields)]
pub enum BgpPolicyAction {
    SetRouteOrigin(Origin),
    SetLocalPref(u32),
    SetNexthop(BgpNexthop),
    SetMed(BgpSetMed),
    SetAsPathPrepent { asn: u32, repeat: Option<u8> },
    SetComm { options: BgpSetCommOptions, method: BgpSetCommMethod<Comm> },
    SetExtComm { options: BgpSetCommOptions, method: BgpSetCommMethod<ExtComm> },
    SetExtv6Comm { options: BgpSetCommOptions, method: BgpSetCommMethod<Extv6Comm> },
    SetLargeComm { options: BgpSetCommOptions, method: BgpSetCommMethod<LargeComm> },
}

#[derive(Clone, Copy, Debug, PartialEq, Eq, Structural)]
pub enum BgpPolicyActionType {
    SetRouteOrigin,
    SetLocalPref,
    SetNexthop,
    SetMed,
    SetAsPathPrepent,
    SetComm,
    SetExtComm,
    SetExtv6Comm,
    SetLargeComm,
}

pub enum PolicyAction {
    Accept(bool),
    SetMetric { value: u32, mod_type: MetricModification },
    SetMetricType(MetricType),
    SetRouteLevel(RouteLevel),
    SetRoutePref(u16),
    SetTag(u32),
    SetAppTag(u32),
    Bgp(BgpPolicyAction),
}

#[derive(Clone, Copy, Debug, PartialEq, Eq, Structural)]
pub enum PolicyActionType {
    Accept,
    SetMetric,
    SetMetricType,
    SetRouteLevel,
    SetRoutePref,
    SetTag,
    SetAppTag,
    Bgp(BgpPolicyActionType),
}

/// A statement: conditions that must all hold, and the actions taken then. The
/// maps are keyed for replacement.
pub struct PolicyStmt {
    pub name: String,
    pub prefix_set_match_type: MatchSetRestrictedType,
    pub tag_set_match_type: MatchSetType,
    pub conditions: SortedMap<PolicyConditionType, PolicyCondition>,
    pub actions: SortedMap<PolicyActionType, PolicyAction>,
}

/// A policy: statements in the order in which they are evaluated.
pub struct Policy {
    pub name: String,
    pub stmts: Vec<PolicyStmt>,
}

/// A prefix and the prefix lengths that match it.
#[derive(Clone, Copy, Debug, PartialEq, Eq, Structural)]
pub struct IpPrefixRange {
    pub prefix: IpNetwork,
    pub masklen_lower: u8,
    pub masklen_upper: u8,
}

pub struct PrefixSet {
    pub name: String,
    pub mode: AddressFamily,
    pub prefixes: SortedSet<IpPrefixRange>,
}

/// The name of a prefix set, which is unique within an address family.
pub struct PrefixSetKey {
    pub name: String,
    pub mode: AddressFamily,
}

pub struct NeighborSet {
    pub name: String,
    pub addrs: SortedSet<IpAddr>,
}

pub struct TagSet {
    pub name: String,
    pub tags: SortedSet<u32>,
}

/// Communities, literally or by regular expressions on their text.
pub struct BgpCommunitySet<T> {
    pub literals: SortedSet<T>,
    pub regexes: SortedSet<String>,
}

/// AS numbers, literally or by regular expressions on the path.
pub struct BgpAsPathSet {
    pub literals: SortedSet<u32>,
    pub regexes: SortedSet<String>,
}

pub struct BgpMatchSets {
    pub as_paths: SortedMap<String, BgpAsPathSet>,
    pub comms: SortedMap<String, BgpCommunitySet<Comm>>,
    pub ext_comms: SortedMap<String, BgpCommunitySet<ExtComm>>,
    pub extv6_comms: SortedMap<String, BgpCommunitySet<Extv6Comm>>,
    pub large_comms: SortedMap<String, BgpCommunitySet<LargeComm>>,
    pub nexthops: SortedMap<String, SortedSet<BgpNexthop>>,
}

/// The defined sets that conditions and actions refer to.
pub struct MatchSets {
    pub prefixes: SortedMap<PrefixSetKey, PrefixSet>,
    pub neighbors: SortedMap<String, NeighborSet>,
    pub tags: SortedMap<String, TagSet>,
    pub bgp: BgpMatchSets,
}

impl<T: Key> BgpCommunitySet<T> {
    pub open spec fn wf(&self) -> bool {
        self.literals.wf() && self.regexes.wf()
    }

    /// A set without members.
    pub fn new() -> (r: Self)
        ensures
            r.wf(),
            r.literals@ == Set::<T::V>::empty(),
            r.regexes@ == Set::<Seq<char>>::empty(),
    {
        BgpCommunitySet { literals: SortedSet::new(), regexes: SortedSet::new() }
    }
}

impl BgpAsPathSet {
    pub open spec fn wf(&self) -> bool {
        self.literals.wf() && self.regexes.wf()
    }

    /// A set without members.
    pub fn new() -> (r: Self)
        ensures
            r.wf(),
            r.literals@ == Set::<u32>::empty(),
            r.regexes@ == Set::<Seq<char>>::empty(),
    {
        BgpAsPathSet { literals: SortedSet::new(), regexes: SortedSet::new() }
    }
}

pub open spec fn comm_sets_wf<T: Key>(m: SortedMap<String, BgpCommunitySet<T>>) -> bool {
    m.wf() && forall|k: Seq<char>| #[trigger] m@.contains_key(k) ==> m@[k].wf()
}

impl MatchSets {
    /// Every set and every map is in order, and prefix sets and their keys
    /// agree.
    pub open spec fn wf(&self) -> bool {
        &&& self.prefixes.wf()
        &&& forall|k: (Seq<char>, AddressFamily)| #[trigger]
            self.prefixes@.contains_key(k) ==> self.prefixes@[k].prefixes.wf()
        &&& self.neighbors.wf()
        &&& forall|k: Seq<char>| #[trigger] self.neighbors@.contains_key(k) ==> self.neighbors@[k].addrs.wf()
        &&& self.tags.wf()
        &&& forall|k: Seq<char>| #[trigger] self.tags@.contains_key(k) ==> self.tags@[k].tags.wf()
        &&& self.bgp.as_paths.wf()
        &&& forall|k: Seq<char>| #[trigger] self.bgp.as_paths@.contains_key(k) ==> self.bgp.as_paths@[k].wf()
        &&& comm_sets_wf(self.bgp.comms)
        &&& comm_sets_wf(self.bgp.ext_comms)
        &&& comm_sets_wf(self.bgp.extv6_comms)
        &&& comm_sets_wf(self.bgp.large_comms)
        &&& self.bgp.nexthops.wf()
        &&& forall|k: Seq<char>| #[trigger] self.bgp.nexthops@.contains_key(k) ==> self.bgp.nexthops@[k].wf()
    }
}

impl MatchSets {
    /// No set is defined.
    pub open spec fn holds_nothing(&self) -> bool {
        &&& self.prefixes@ == Map::<(Seq<char>, AddressFamily), PrefixSet>::empty()
        &&& self.neighbors@ == Map::<Seq<char>, NeighborSet>::empty()
        &&& self.tags@ == Map::<Seq<char>, TagSet>::empty()
        &&& self.bgp.as_paths@ == Map::<Seq<char>, BgpAsPathSet>::empty()
        &&& self.bgp.comms@ == Map::<Seq<char>, BgpCommunitySet<Comm>>::empty()
        &&& self.bgp.ext_comms@ == Map::<Seq<char>, BgpCommunitySet<ExtComm>>::empty()
        &&& self.bgp.extv6_comms@ == Map::<Seq<char>, BgpCommunitySet<Extv6Comm>>::empty()
        &&& self.bgp.large_comms@ == Map::<Seq<char>, BgpCommunitySet<LargeComm>>::empty()
        &&& self.bgp.nexthops@ == Map::<Seq<char>, SortedSet<BgpNexthop>>::empty()
    }
}

impl Default for MatchSets {
    fn default() -> (r: Self)
        ensures
            r.wf(),
            r.holds_nothing(),
    {
        MatchSets {
            prefixes: SortedMap::new(),
            neighbors: SortedMap::new(),
            tags: SortedMap::new(),
            bgp: BgpMatchSets {
                as_paths: SortedMap::new(),
                comms: SortedMap::new(),
                ext_comms: SortedMap::new(),
                extv6_comms: SortedMap::new(),
                large_comms: SortedMap::new(),
                nexthops: SortedMap::new(),
            },
        }
    }
}

/// The type under which a BGP condition is kept.
pub open spec fn bgp_condition_type(c: BgpPolicyCondition) -> BgpPolicyConditionType {
    match c {
        BgpPolicyCondition::LocalPref { .. } => BgpPolicyConditionType::LocalPref,
        BgpPolicyCondition::Med { .. } => BgpPolicyConditionType::Med,
        BgpPolicyCondition::Origin(_) => BgpPolicyConditionType::Origin,
        BgpPolicyCondition::MatchAfiSafi { .. } => BgpPolicyConditionType::MatchAfiSafi,
        BgpPolicyCondition::MatchNeighbor { .. } => BgpPolicyConditionType::MatchNeighbor,
        BgpPolicyCondition::RouteType(_) => BgpPolicyConditionType::RouteType,
        BgpPolicyCondition::CommCount { .. } => BgpPolicyConditionType::CommCount,
        BgpPolicyCondition::AsPathLen { .. } => BgpPolicyConditionType::AsPathLen,
        BgpPolicyCondition::MatchCommSet { .. } => BgpPolicyConditionType::MatchCommSet,
        BgpPolicyCondition::MatchExtCommSet { .. } => BgpPolicyConditionType::MatchExtCommSet,
        BgpPolicyCondition::MatchExtv6CommSet { .. } => BgpPolicyConditionType::MatchExtv6CommSet,
        BgpPolicyCondition::MatchLargeCommSet { .. } => BgpPolicyConditionType::MatchLargeCommSet,
        BgpPolicyCondition::MatchAsPathSet { .. } => BgpPolicyConditionType::MatchAsPathSet,
        BgpPolicyCondition::MatchNexthopSet { .. } => BgpPolicyConditionType::MatchNexthopSet,
    }
}

/// The type under which a condition is kept.
pub open spec fn condition_type(c: PolicyCondition) -> PolicyConditionType {
    match c {
        PolicyCondition::CallPolicy(_) => PolicyConditionType::CallPolicy,
        PolicyCondition::SrcProtocol(_) => PolicyConditionType::SrcProtocol,
        PolicyCondition::MatchInterface(_) => PolicyConditionType::MatchInterface,
        PolicyCondition::MatchPrefixSet(_) => PolicyConditionType::MatchPrefixSet,
        PolicyCondition::MatchNeighborSet(_) => PolicyConditionType::MatchNeighborSet,
        PolicyCondition::MatchTagSet(_) => PolicyConditionType::MatchTagSet,
        PolicyCondition::MatchRouteType(_) => PolicyConditionType::MatchRouteType,
        PolicyCondition::Bgp(b) => PolicyConditionType::Bgp(bgp_condition_type(b)),
    }
}

/// The type under which a BGP action is kept.
pub open spec fn bgp_action_type(a: BgpPolicyAction) -> BgpPolicyActionType {
    match a {
        BgpPolicyAction::SetRouteOrigin(_) => BgpPolicyActionType::SetRouteOrigin,
        BgpPolicyAction::SetLocalPref(_) => BgpPolicyActionType::SetLocalPref,
        BgpPolicyAction::SetNexthop(_) => BgpPolicyActionType::SetNexthop,
        BgpPolicyAction::SetMed(_) => BgpPolicyActionType::SetMed,
        BgpPolicyAction::SetAsPathPrepent { .. } => BgpPolicyActionType::SetAsPathPrepent,
        BgpPolicyAction::SetComm { .. } => BgpPolicyActionType::SetComm,
        BgpPolicyAction::SetExtComm { .. } => BgpPolicyActionType::SetExtComm,
        BgpPolicyAction::SetExtv6Comm { .. } => BgpPolicyActionType::SetExtv6Comm,
        BgpPolicyAction::SetLargeComm { .. } => BgpPolicyActionType::SetLargeComm,
    }
}

/// The type under which an action is kept.
pub open spec fn action_type(a: PolicyAction) -> PolicyActionType {
    match a {
        PolicyAction::Accept(_) => PolicyActionType::Accept,
        PolicyAction::SetMetric { .. } => PolicyActionType::SetMetric,
        PolicyAction::SetMetricType(_) => PolicyActionType::SetMetricType,
        PolicyAction::SetRouteLevel(_) => PolicyActionType::SetRouteLevel,
        PolicyAction::SetRoutePref(_) => PolicyActionType::SetRoutePref,
        PolicyAction::SetTag(_) => PolicyActionType::SetTag,
        PolicyAction::SetAppTag(_) => PolicyActionType::SetAppTag,
        PolicyAction::Bgp(b) => PolicyActionType::Bgp(bgp_action_type(b)),
    }
}

pub open spec fn method_wf<T: Key>(m: BgpSetCommMethod<T>) -> bool {
    match m {
        BgpSetCommMethod::Inline(s) => s.wf(),
        BgpSetCommMethod::Reference(_) => true,
    }
}

/// The sets inside a condition are in order.
pub open spec fn condition_wf(c: PolicyCondition) -> bool {
    match c {
        PolicyCondition::MatchRouteType(s) => s.wf(),
        PolicyCondition::Bgp(BgpPolicyCondition::MatchAfiSafi { values, .. }) => values.wf(),
        PolicyCondition::Bgp(BgpPolicyCondition::MatchNeighbor { value, .. }) => value.wf(),
        _ => true,
    }
}

/// The sets inside an action are in order.
pub open spec fn action_wf(a: PolicyAction) -> bool {
    match a {
        PolicyAction::Bgp(BgpPolicyAction::SetComm { method, .. }) => method_wf(method),
        PolicyAction::Bgp(BgpPolicyAction::SetExtComm { method, .. }) => method_wf(method),
        PolicyAction::Bgp(BgpPolicyAction::SetExtv6Comm { method, .. }) => method_wf(method),
        PolicyAction::Bgp(BgpPolicyAction::SetLargeComm { method, .. }) => method_wf(method),
        _ => true,
    }
}

impl BgpPolicyConditionType {
    pub open spec fn index_spec(self) -> u8 {
        match self {
            BgpPolicyConditionType::LocalPref => 0,
            BgpPolicyConditionType::Med => 1,
            BgpPolicyConditionType::Origin => 2,
            BgpPolicyConditionType::MatchAfiSafi => 3,
            BgpPolicyConditionType::MatchNeighbor => 4,
            BgpPolicyConditionType::RouteType => 5,
            BgpPolicyConditionType::CommCount => 6,
            BgpPolicyConditionType::AsPathLen => 7,
            BgpPolicyConditionType::MatchCommSet => 8,
            BgpPolicyConditionType::MatchExtCommSet => 9,
            BgpPolicyConditionType::MatchExtv6CommSet => 10,
            BgpPolicyConditionType::MatchLargeCommSet => 11,
            BgpPolicyConditionType::MatchAsPathSet => 12,
            BgpPolicyConditionType::MatchNexthopSet => 13,
        }
    }

    fn index(&self) -> (r: u8)
        ensures
            r == self.index_spec(),
    {
        match self {
            BgpPolicyConditionType::LocalPref => 0,
            BgpPolicyConditionType::Med => 1,
            BgpPolicyConditionType::Origin => 2,
            BgpPolicyConditionType::MatchAfiSafi => 3,
            BgpPolicyConditionType::MatchNeighbor => 4,
            BgpPolicyConditionType::RouteType => 5,
            BgpPolicyConditionType::CommCount => 6,
            BgpPolicyConditionType::AsPathLen => 7,
            BgpPolicyConditionType::MatchCommSet => 8,
            BgpPolicyConditionType::MatchExtCommSet => 9,
            BgpPolicyConditionType::MatchExtv6CommSet => 10,
            BgpPolicyConditionType::MatchLargeCommSet => 11,
            BgpPolicyConditionType::MatchAsPathSet => 12,
            BgpPolicyConditionType::MatchNexthopSet => 13,
        }
    }
}

impl PolicyConditionType {
    pub open spec fn index_spec(self) -> u8 {
        match self {
            PolicyConditionType::CallPolicy => 0,
            PolicyConditionType::SrcProtocol => 1,
            PolicyConditionType::MatchInterface => 2,
            PolicyConditionType::MatchPrefixSet => 3,
            PolicyConditionType::MatchNeighborSet => 4,
            PolicyConditionType::MatchTagSet => 5,
            PolicyConditionType::MatchRouteType => 6,
            PolicyConditionType::Bgp(b) => (7 + b.index_spec()) as u8,
        }
    }

    fn index(&self) -> (r: u8)
        ensures
            r == self.index_spec(),
    {
        match self {
            PolicyConditionType::CallPolicy => 0,
            PolicyConditionType::SrcProtocol => 1,
            PolicyConditionType::MatchInterface => 2,
            PolicyConditionType::MatchPrefixSet => 3,
            PolicyConditionType::MatchNeighborSet => 4,
            PolicyConditionType::MatchTagSet => 5,
            PolicyConditionType::MatchRouteType => 6,
            PolicyConditionType::Bgp(b) => 7 + b.index(),
        }
    }
}

impl View for PolicyConditionType {
    type V = PolicyConditionType;

    open spec fn view(&self) -> PolicyConditionType {
        *self
    }
}

impl Ranked for PolicyConditionType {
    open spec fn rank(self) -> int {
        self.index_spec() as int
    }

    proof fn rank_identifies(a: Self, b: Self) {
    }

    proof fn view_is_value(self) {
    }

    fn ranks_below(&self, other: &Self) -> (r: bool) {
        self.index() < other.index()
    }
}

impl BgpPolicyActionType {
    pub open spec fn index_spec(self) -> u8 {
        match self {
            BgpPolicyActionType::SetRouteOrigin => 0,
            BgpPolicyActionType::SetLocalPref => 1,
            BgpPolicyActionType::SetNexthop => 2,
            BgpPolicyActionType::SetMed => 3,
            BgpPolicyActionType::SetAsPathPrepent => 4,
            BgpPolicyActionType::SetComm => 5,
            BgpPolicyActionType::SetExtComm => 6,
            BgpPolicyActionType::SetExtv6Comm => 7,
            BgpPolicyActionType::SetLargeComm => 8,
        }
    }

    fn index(&self) -> (r: u8)
        ensures
            r == self.index_spec(),
    {
        match self {
            BgpPolicyActionType::SetRouteOrigin => 0,
            BgpPolicyActionType::SetLocalPref => 1,
            BgpPolicyActionType::SetNexthop => 2,
            BgpPolicyActionType::SetMed => 3,
            BgpPolicyActionType::SetAsPathPrepent => 4,
            BgpPolicyActionType::SetComm => 5,
            BgpPolicyActionType::SetExtComm => 6,
            BgpPolicyActionType::SetExtv6Comm => 7,
            BgpPolicyActionType::SetLargeComm => 8,
        }
    }
}

impl PolicyActionType {
    pub open spec fn index_spec(self) -> u8 {
        match self {
            PolicyActionType::Accept => 0,
            PolicyActionType::SetMetric => 1,
            PolicyActionType::SetMetricType => 2,
            PolicyActionType::SetRouteLevel => 3,
            PolicyActionType::SetRoutePref => 4,
            PolicyActionType::SetTag => 5,
            PolicyActionType::SetAppTag => 6,
            PolicyActionType::Bgp(b) => (7 + b.index_spec()) as u8,
        }
    }

    fn index(&self) -> (r: u8)
        ensures
            r == self.index_spec(),
    {
        match self {
            PolicyActionType::Accept => 0,
            PolicyActionType::SetMetric => 1,
            PolicyActionType::SetMetricType => 2,
            PolicyActionType::SetRouteLevel => 3,
            PolicyActionType::SetRoutePref => 4,
            PolicyActionType::SetTag => 5,
            PolicyActionType::SetAppTag => 6,
            PolicyActionType::Bgp(b) => 7 + b.index(),
        }
    }
}

impl View for PolicyActionType {
    type V = PolicyActionType;

    open spec fn view(&self) -> PolicyActionType {
        *self
    }
}

impl Ranked for PolicyActionType {
    open spec fn rank(self) -> int {
        self.index_spec() as int
    }

    proof fn rank_identifies(a: Self, b: Self) {
    }

    proof fn view_is_value(self) {
    }

    fn ranks_below(&self, other: &Self) -> (r: bool) {
        self.index() < other.index()
    }
}

impl AfiSafi {
    pub open spec fn index_spec(self) -> u8 {
        match self {
            AfiSafi::Ipv4Unicast => 0,
            AfiSafi::Ipv6Unicast => 1,
            AfiSafi::L3vpnIpv4Unicast => 2,
            AfiSafi::L3vpnIpv6Unicast => 3,
            AfiSafi::L2vpnEvpn => 4,
        }
    }

    fn index(&self) -> (r: u8)
        ensures
            r == self.index_spec(),
    {
        match self {
            AfiSafi::Ipv4Unicast => 0,
            AfiSafi::Ipv6Unicast => 1,
            AfiSafi::L3vpnIpv4Unicast => 2,
            AfiSafi::L3vpnIpv6Unicast => 3,
            AfiSafi::L2vpnEvpn => 4,
        }
    }
}

impl View for AfiSafi {
    type V = AfiSafi;

    open spec fn view(&self) -> AfiSafi {
        *self
    }
}

impl Ranked for AfiSafi {
    open spec fn rank(self) -> int {
        self.index_spec() as int
    }

    proof fn rank_identifies(a: Self, b: Self) {
    }

    proof fn view_is_value(self) {
    }

    fn ranks_below(&self, other: &Self) -> (r: bool) {
        self.index() < other.index()
    }
}

impl IgpRouteType {
    pub open spec fn index_spec(self) -> u8 {
        match self {
            IgpRouteType::IsisLevel1 => 0,
            IgpRouteType::IsisLevel2 => 1,
            IgpRouteType::OspfInternal => 2,
            IgpRouteType::OspfIntraArea => 3,
            IgpRouteType::OspfInterArea => 4,
            IgpRouteType::OspfExternal => 5,
            IgpRouteType::OspfExternalType1 => 6,
            IgpRouteType::OspfExternalType2 => 7,
            IgpRouteType::OspfNssa => 8,
            IgpRouteType::OspfNssaType1 => 9,
            IgpRouteType::OspfNssaType2 => 10,
        }
    }

    fn index(&self) -> (r: u8)
        ensures
            r == self.index_spec(),
    {
        match self {
            IgpRouteType::IsisLevel1 => 0,
            IgpRouteType::IsisLevel2 => 1,
            IgpRouteType::OspfInternal => 2,
            IgpRouteType::OspfIntraArea => 3,
            IgpRouteType::OspfInterArea => 4,
            IgpRouteType::OspfExternal => 5,
            IgpRouteType::OspfExternalType1 => 6,
            IgpRouteType::OspfExternalType2 => 7,
            IgpRouteType::OspfNssa => 8,
            IgpRouteType::OspfNssaType1 => 9,
            IgpRouteType::OspfNssaType2 => 10,
        }
    }
}

impl View for IgpRouteType {
    type V = IgpRouteType;

    open spec fn view(&self) -> IgpRouteType {
        *self
    }
}

impl Ranked for IgpRouteType {
    open spec fn rank(self) -> int {
        self.index_spec() as int
    }

    proof fn rank_identifies(a: Self, b: Self) {
    }

    proof fn view_is_value(self) {
    }

    fn ranks_below(&self, other: &Self) -> (r: bool) {
        self.index() < other.index()
    }
}

impl View for BgpNexthop {
    type V = BgpNexthop;

    open spec fn view(&self) -> BgpNexthop {
        *self
    }
}

impl Ranked for BgpNexthop {
    open spec fn rank(self) -> int {
        match self {
            BgpNexthop::Addr(a) => a.rank(),
            BgpNexthop::NexthopSelf => -1,
        }
    }

    proof fn rank_identifies(a: Self, b: Self) {
        match (a, b) {
            (BgpNexthop::Addr(x), BgpNexthop::Addr(y)) => IpAddr::rank_identifies(x, y),
            _ => {},
        }
    }

    proof fn view_is_value(self) {
    }

    fn ranks_below(&self, other: &Self) -> (r: bool) {
        match (self, other) {
            (BgpNexthop::Addr(a), BgpNexthop::Addr(b)) => a.ranks_below(b),
            (BgpNexthop::NexthopSelf, BgpNexthop::Addr(_)) => true,
            _ => false,
        }
    }
}

impl View for IpPrefixRange {
    type V = IpPrefixRange;

    open spec fn view(&self) -> IpPrefixRange {
        *self
    }
}

impl Ranked for IpPrefixRange {
    open spec fn rank(self) -> int {
        self.prefix.rank() * 0x1_0000 + self.masklen_lower * 0x100 + self.masklen_upper
    }

    proof fn rank_identifies(a: Self, b: Self) {
        IpNetwork::rank_identifies(a.prefix, b.prefix);
    }

    proof fn view_is_value(self) {
    }

    fn ranks_below(&self, other: &Self) -> (r: bool) {
        if self.prefix.ranks_below(&other.prefix) {
            return true;
        }
        if other.prefix.ranks_below(&self.prefix) {
            return false;
        }
        self.masklen_lower < other.masklen_lower || (self.masklen_lower == other.masklen_lower && self.masklen_upper
            < other.masklen_upper)
    }
}

impl View for PrefixSetKey {
    type V = (Seq<char>, AddressFamily);

    open spec fn view(&self) -> (Seq<char>, AddressFamily) {
        (self.name@, self.mode)
    }
}

impl Key for PrefixSetKey {
    open spec fn before(a: (Seq<char>, AddressFamily), b: (Seq<char>, AddressFamily)) -> bool {
        text_before(a.0, b.0) || (a.0 == b.0 && a.1 == AddressFamily::Ipv4 && b.1 == AddressFamily::Ipv6)
    }

    proof fn irreflexive(a: (Seq<char>, AddressFamily)) {
        String::irreflexive(a.0);
    }

    proof fn transitive(
        a: (Seq<char>, AddressFamily),
        b: (Seq<char>, AddressFamily),
        c: (Seq<char>, AddressFamily),
    ) {
        if text_before(a.0, b.0) && text_before(b.0, c.0) {
            String::transitive(a.0, b.0, c.0);
        }
    }

    proof fn total(a: (Seq<char>, AddressFamily), b: (Seq<char>, AddressFamily)) {
        String::total(a.0, b.0);
    }

    fn precedes(&self, other: &Self) -> (r: bool) {
        if self.name.precedes(&other.name) {
            return true;
        }
        self.name.same(&other.name) && self.mode == AddressFamily::Ipv4 && other.mode == AddressFamily::Ipv6
    }

    fn same(&self, other: &Self) -> (r: bool) {
        self.name.same(&other.name) && self.mode == other.mode
    }

    fn duplicate(&self) -> (r: Self) {
        PrefixSetKey { name: self.name.clone(), mode: self.mode }
    }
}

impl PolicyCondition {
    pub fn condition_type(&self) -> (r: PolicyConditionType)
        ensures
            r == condition_type(*self),
    {
        match self {
            PolicyCondition::CallPolicy(_) => PolicyConditionType::CallPolicy,
            PolicyCondition::SrcProtocol(_) => PolicyConditionType::SrcProtocol,
            PolicyCondition::MatchInterface(_) => PolicyConditionType::MatchInterface,
            PolicyCondition::MatchPrefixSet(_) => PolicyConditionType::MatchPrefixSet,
            PolicyCondition::MatchNeighborSet(_) => PolicyConditionType::MatchNeighborSet,
            PolicyCondition::MatchTagSet(_) => PolicyConditionType::MatchTagSet,
            PolicyCondition::MatchRouteType(_) => PolicyConditionType::MatchRouteType,
            PolicyCondition::Bgp(b) => PolicyConditionType::Bgp(
                match b {
                    BgpPolicyCondition::LocalPref { .. } => BgpPolicyConditionType::LocalPref,
                    BgpPolicyCondition::Med { .. } => BgpPolicyConditionType::Med,
                    BgpPolicyCondition::Origin(_) => BgpPolicyConditionType::Origin,
                    BgpPolicyCondition::MatchAfiSafi { .. } => BgpPolicyConditionType::MatchAfiSafi,
                    BgpPolicyCondition::MatchNeighbor { .. } => BgpPolicyConditionType::MatchNeighbor,
                    BgpPolicyCondition::RouteType(_) => BgpPolicyConditionType::RouteType,
                    BgpPolicyCondition::CommCount { .. } => BgpPolicyConditionType::CommCount,
                    BgpPolicyCondition::AsPathLen { .. } => BgpPolicyConditionType::AsPathLen,
                    BgpPolicyCondition::MatchCommSet { .. } => BgpPolicyConditionType::MatchCommSet,
                    BgpPolicyCondition::MatchExtCommSet { .. } => BgpPolicyConditionType::MatchExtCommSet,
                    BgpPolicyCondition::MatchExtv6CommSet { .. } => BgpPolicyConditionType::MatchExtv6CommSet,
                    BgpPolicyCondition::MatchLargeCommSet { .. } => BgpPolicyConditionType::MatchLargeCommSet,
                    BgpPolicyCondition::MatchAsPathSet { .. } => BgpPolicyConditionType::MatchAsPathSet,
                    BgpPolicyCondition::MatchNexthopSet { .. } => BgpPolicyConditionType::MatchNexthopSet,
                },
            ),
        }
    }
}

impl PolicyAction {
    pub fn action_type(&self) -> (r: PolicyActionType)
        ensures
            r == action_type(*self),
    {
        match self {
            PolicyAction::Accept(_) => PolicyActionType::Accept,
            PolicyAction::SetMetric { .. } => PolicyActionType::SetMetric,
            PolicyAction::SetMetricType(_) => PolicyActionType::SetMetricType,
            PolicyAction::SetRouteLevel(_) => PolicyActionType::SetRouteLevel,
            PolicyAction::SetRoutePref(_) => PolicyActionType::SetRoutePref,
            PolicyAction::SetTag(_) => PolicyActionType::SetTag,
            PolicyAction::SetAppTag(_) => PolicyActionType::SetAppTag,
            PolicyAction::Bgp(b) => PolicyActionType::Bgp(
                match b {
                    BgpPolicyAction::SetRouteOrigin(_) => BgpPolicyActionType::SetRouteOrigin,
                    BgpPolicyAction::SetLocalPref(_) => BgpPolicyActionType::SetLocalPref,
                    BgpPolicyAction::SetNexthop(_) => BgpPolicyActionType::SetNexthop,
                    BgpPolicyAction::SetMed(_) => BgpPolicyActionType::SetMed,
                    BgpPolicyAction::SetAsPathPrepent { .. } => BgpPolicyActionType::SetAsPathPrepent,
                    BgpPolicyAction::SetComm { .. } => BgpPolicyActionType::SetComm,
                    BgpPolicyAction::SetExtComm { .. } => BgpPolicyActionType::SetExtComm,
                    BgpPolicyAction::SetExtv6Comm { .. } => BgpPolicyActionType::SetExtv6Comm,
                    BgpPolicyAction::SetLargeComm { .. } => BgpPolicyActionType::SetLargeComm,
                },
            ),
        }
    }
}

impl PolicyStmt {
    /// The maps are in order, hold each value under its type, and the sets
    /// inside the values are in order.
    pub open spec fn wf(&self) -> bool {
        &&& self.conditions.wf()
        &&& self.actions.wf()
        &&& forall|k: PolicyConditionType| #[trigger]
            self.conditions@.contains_key(k) ==> condition_type(self.conditions@[k]) == k && condition_wf(
                self.conditions@[k],
            )
        &&& forall|k: PolicyActionType| #[trigger]
            self.actions@.contains_key(k) ==> action_type(self.actions@[k]) == k && action_wf(self.actions@[k])
    }

    /// A statement that matches everything and does nothing.
    pub fn new(name: String) -> (r: Self)
        ensures
            r.wf(),
            r.name == name,
            r.prefix_set_match_type == MatchSetRestrictedType::Any,
            r.tag_set_match_type == MatchSetType::Any,
            r.conditions@ == Map::<PolicyConditionType, PolicyCondition>::empty(),
            r.actions@ == Map::<PolicyActionType, PolicyAction>::empty(),
    {
        PolicyStmt {
            name,
            prefix_set_match_type: MatchSetRestrictedType::Any,
            tag_set_match_type: MatchSetType::Any,
            conditions: SortedMap::new(),
            actions: SortedMap::new(),
        }
    }

    /// Puts a condition in place of the one of its type.
    pub fn condition_add(&mut self, condition: PolicyCondition)
        requires
            old(self).wf(),
            condition_wf(condition),
        ensures
            final(self).wf(),
            final(self).conditions@ == old(self).conditions@.insert(condition_type(condition), condition),
            final(self).actions == old(self).actions,
            final(self).name == old(self).name,
            final(self).prefix_set_match_type == old(self).prefix_set_match_type,
            final(self).tag_set_match_type == old(self).tag_set_match_type,
    {
        self.conditions.insert(condition.condition_type(), condition);
    }

    /// Takes out the condition of a type.
    pub fn condition_remove(&mut self, cond_type: PolicyConditionType)
        requires
            old(self).wf(),
        ensures
            final(self).wf(),
            final(self).conditions@ == old(self).conditions@.remove(cond_type),
            final(self).actions == old(self).actions,
            final(self).name == old(self).name,
            final(self).prefix_set_match_type == old(self).prefix_set_match_type,
            final(self).tag_set_match_type == old(self).tag_set_match_type,
    {
        let _ = self.conditions.remove(&cond_type);
    }

    /// Puts an action in place of the one of its type.
    pub fn action_add(&mut self, action: PolicyAction)
        requires
            old(self).wf(),
            action_wf(action),
        ensures
            final(self).wf(),
            final(self).actions@ == old(self).actions@.insert(action_type(action), action),
            final(self).conditions == old(self).conditions,
            final(self).name == old(self).name,
            final(self).prefix_set_match_type == old(self).prefix_set_match_type,
            final(self).tag_set_match_type == old(self).tag_set_match_type,
    {
        self.actions.insert(action.action_type(), action);
    }

    /// Takes out the action of a type.
    pub fn action_remove(&mut self, action_type: PolicyActionType)
        requires
            old(self).wf(),
        ensures
            final(self).wf(),
            final(self).actions@ == old(self).actions@.remove(action_type),
            final(self).conditions == old(self).conditions,
            final(self).name == old(self).name,
            final(self).prefix_set_match_type == old(self).prefix_set_match_type,
            final(self).tag_set_match_type == old(self).tag_set_match_type,
    {
        let _ = self.actions.remove(&action_type);
    }
}

/// The position of the statement with a name.
pub open spec fn stmt_index(stmts: Seq<PolicyStmt>, name: Seq<char>) -> int
    decreases stmts.len(),
{
    if stmts.len() == 0 {
        -1
    } else if stmts.last().name@ == name {
        stmts.len() - 1
    } else {
        stmt_index(stmts.drop_last(), name)
    }
}

/// A statement put in place of the one with its name, or behind the others.
pub open spec fn with_stmt(stmts: Seq<PolicyStmt>, stmt: PolicyStmt) -> Seq<PolicyStmt> {
    let i = stmt_index(stmts, stmt.name@);
    if i >= 0 {
        stmts.update(i, stmt)
    } else {
        stmts.push(stmt)
    }
}

/// The statements without the one with a name.
pub open spec fn without_stmt(stmts: Seq<PolicyStmt>, name: Seq<char>) -> Seq<PolicyStmt> {
    let i = stmt_index(stmts, name);
    if i >= 0 {
        stmts.remove(i)
    } else {
        stmts
    }
}

/// No two statements share a name.
pub open spec fn names_differ(stmts: Seq<PolicyStmt>) -> bool {
    forall|i: int, j: int| 0 <= i < j < stmts.len() ==> (#[trigger] stmts[i]).name@ != (#[trigger] stmts[j]).name@
}

/// A position with a name is the position of that name.
pub proof fn stmt_index_is(stmts: Seq<PolicyStmt>, name: Seq<char>)
    ensures
        -1 <= stmt_index(stmts, name) < stmts.len(),
        stmt_index(stmts, name) >= 0 ==> stmts[stmt_index(stmts, name)].name@ == name,
        stmt_index(stmts, name) < 0 ==> forall|i: int| 0 <= i < stmts.len() ==> (#[trigger] stmts[i]).name@ != name,
        names_differ(stmts) ==> forall|i: int|
            0 <= i < stmts.len() && (#[trigger] stmts[i]).name@ == name ==> i == stmt_index(stmts, name),
    decreases stmts.len(),
{
    if stmts.len() > 0 {
        let init = stmts.drop_last();
        stmt_index_is(init, name);
        if stmts.last().name@ != name && stmt_index(init, name) < 0 {
            assert forall|i: int| 0 <= i < stmts.len() implies (#[trigger] stmts[i]).name@ != name by {
                if i < init.len() {
                    assert(init[i].name@ != name);
                }
            }
        }
    }
}

impl Policy {
    pub open spec fn wf(&self) -> bool {
        names_differ(self.stmts@) && forall|i: int| 0 <= i < self.stmts@.len() ==> (#[trigger] self.stmts@[i]).wf()
    }

    /// A policy without statements.
    pub fn new(name: String) -> (r: Self)
        ensures
            r.wf(),
            r.name == name,
            r.stmts@ == Seq::<PolicyStmt>::empty(),
    {
        Policy { name, stmts: Vec::new() }
    }

    /// The position of the statement with a name.
    pub fn stmt_position(&self, name: &String) -> (r: Option<usize>)
        ensures
            match r {
                Some(i) => i == stmt_index(self.stmts@, name@),
                None => stmt_index(self.stmts@, name@) < 0,
            },
    {
        let mut n: usize = self.stmts.len();
        assert(self.stmts@.take(n as int) =~= self.stmts@);
        while n > 0
            invariant
                n <= self.stmts@.len(),
                stmt_index(self.stmts@, name@) == stmt_index(self.stmts@.take(n as int), name@),
            decreases n,
        {
            let ghost s = self.stmts@.take(n as int);
            assert(s.last() == self.stmts@[n - 1]);
            assert(s.drop_last() =~= self.stmts@.take(n - 1));
            if self.stmts[n - 1].name.same(name) {
                return Some(n - 1);
            }
            n -= 1;
        }
        None
    }

    /// Puts a statement in place of the one with its name, or behind the
    /// others.
    pub fn stmt_add(&mut self, stmt: PolicyStmt)
        requires
            old(self).wf(),
            stmt.wf(),
        ensures
            final(self).wf(),
            final(self).name == old(self).name,
            final(self).stmts@ == with_stmt(old(self).stmts@, stmt),
    {
        proof {
            stmt_index_is(self.stmts@, stmt.name@);
        }
        match self.stmt_position(&stmt.name) {
            Some(i) => {
                self.stmts[i] = stmt;
            },
            None => {
                self.stmts.push(stmt);
            },
        }
    }

    /// Takes out the statement with a name.
    pub fn stmt_remove(&mut self, name: &String)
        requires
            old(self).wf(),
        ensures
            final(self).wf(),
            final(self).name == old(self).name,
            final(self).stmts@ == without_stmt(old(self).stmts@, name@),
    {
        proof {
            stmt_index_is(self.stmts@, name@);
        }
        if let Some(i) = self.stmt_position(name) {
            let _ = self.stmts.remove(i);
        }
    }
}

}
