//! Evaluation of routing policies on BGP routes.
use crate::attribute::comm_view;
use crate::attribute::comm_wf;
use crate::attribute::path_length;
use crate::attribute::path_members;
use crate::attribute::prepended_times;
use crate::attribute::AsPath;
use crate::attribute::Attrs;
use crate::attribute::AttrsModel;
use crate::attribute::CommList;
use crate::attribute::Segment;
use crate::bgp::AfiSafi;
use crate::bgp::Comm;
use crate::bgp::ExtComm;
use crate::bgp::Extv6Comm;
use crate::bgp::LargeComm;
use crate::bgp::RouteType;
use crate::bgp_text::comm_text;
use crate::bgp_text::ext6_comm_text;
use crate::bgp_text::ext_comm_text;
use crate::bgp_text::large_comm_text;
use crate::ip::IpAddr;
use crate::ip::IpNetwork;
use crate::ord::elems_are_set;
use crate::ord::elems_count;
use crate::ord::entries_map_get;
use crate::ord::Key;
use crate::ord::Ranked;
use crate::ord::SortedMap;
use crate::ord::SortedSet;
use crate::policy_types::action_wf;
use crate::policy_types::comm_sets_wf;
use crate::policy_types::condition_wf;
use crate::policy_types::method_wf;
use crate::policy_types::BgpAsPathSet;
use crate::policy_types::BgpCommunitySet;
use crate::policy_types::BgpEqOperator;
use crate::policy_types::BgpNexthop;
use crate::policy_types::BgpPolicyAction;
use crate::policy_types::BgpPolicyCondition;
use crate::policy_types::BgpSetCommMethod;
use crate::policy_types::BgpSetCommOptions;
use crate::policy_types::BgpSetMed;
use crate::policy_types::DefaultPolicyType;
use crate::policy_types::IpPrefixRange;
use crate::policy_types::MatchSetRestrictedType;
use crate::policy_types::MatchSetType;
use crate::policy_types::MatchSets;
use crate::policy_types::MetricModification;
use crate::policy_types::Policy;
use crate::policy_types::PolicyAction;
use crate::policy_types::PolicyCondition;
use crate::policy_types::PolicyConditionType;
use crate::policy_types::PolicyResult;
use crate::policy_types::PolicyStmt;
use crate::policy_types::PolicyType;
use crate::policy_types::PrefixSetKey;
use crate::rib::RouteOrigin;
use crate::text::decimal;
use crate::text::join;
use crate::text::joined;
use crate::text::texts;
use crate::text::to_decimal;
use std::sync::Arc;
use vstd::prelude::*;

verus! {

/// What an action does to the flow of a policy.
#[derive(Clone, Copy, Debug, PartialEq, Eq, Structural)]
pub enum PolicyActionResult {
    Continue,
    Accept,
    Reject,
}

/// Attributes of other protocols that come with a redistributed route.
#[derive(Clone, Copy, Debug, PartialEq, Eq, Structural)]
pub enum RouteOpaqueAttrs {
    Empty,
    Ospf,
    Isis,
}

/// What routing policies read and change of a route.
pub struct RoutePolicyInfo {
    pub origin: RouteOrigin,
    pub route_type: RouteType,
    pub tag: Option<u32>,
    pub opaque_attrs: Option<RouteOpaqueAttrs>,
    pub attrs: Attrs,
}

/// `RoutePolicyInfo` as a mathematical value.
pub struct InfoModel {
    pub origin: RouteOrigin,
    pub route_type: RouteType,
    pub tag: Option<u32>,
    pub opaque_attrs: Option<RouteOpaqueAttrs>,
    pub attrs: AttrsModel,
}

impl View for RoutePolicyInfo {
    type V = InfoModel;

    open spec fn view(&self) -> InfoModel {
        InfoModel {
            origin: self.origin,
            route_type: self.route_type,
            tag: self.tag,
            opaque_attrs: self.opaque_attrs,
            attrs: self.attrs@,
        }
    }
}

impl RoutePolicyInfo {
    pub fn new(
        origin: RouteOrigin,
        route_type: RouteType,
        tag: Option<u32>,
        opaque_attrs: Option<RouteOpaqueAttrs>,
        attrs: Attrs,
    ) -> (r: Self)
        ensures
            r == (RoutePolicyInfo { origin, route_type, tag, opaque_attrs, attrs }),
    {
        RoutePolicyInfo { origin, route_type, tag, opaque_attrs, attrs }
    }

    /// Another handle on the same information.
    pub fn duplicate(&self) -> (r: Self)
        ensures
            r == *self,
    {
        RoutePolicyInfo {
            origin: self.origin,
            route_type: self.route_type,
            tag: self.tag,
            opaque_attrs: self.opaque_attrs,
            attrs: self.attrs.duplicate(),
        }
    }
}

/// A community with a text that regular expressions are matched against.
pub trait CommType: Ranked {
    spec fn text(self) -> Seq<char>;

    fn to_text(&self) -> (r: String)
        ensures
            r@ == self.text(),
    ;
}

impl CommType for Comm {
    open spec fn text(self) -> Seq<char> {
        comm_text(self)
    }

    fn to_text(&self) -> (r: String) {
        self.to_yang()
    }
}

impl CommType for ExtComm {
    open spec fn text(self) -> Seq<char> {
        ext_comm_text(self.0@)
    }

    fn to_text(&self) -> (r: String) {
        self.to_yang()
    }
}

impl CommType for Extv6Comm {
    open spec fn text(self) -> Seq<char> {
        ext6_comm_text(self)
    }

    fn to_text(&self) -> (r: String) {
        self.to_yang()
    }
}

impl CommType for LargeComm {
    open spec fn text(self) -> Seq<char> {
        large_comm_text(self.0@)
    }

    fn to_text(&self) -> (r: String) {
        self.to_yang()
    }
}

/// Whether a regular expression is well formed and matches somewhere in a
/// text.
pub uninterp spec fn regex_matches(pattern: Seq<char>, text: Seq<char>) -> bool;

/// `regex::Regex::is_match`: whether the expression matches somewhere in the
/// text. An expression that does not compile matches nothing.
#[verifier::external_body]
fn is_match(pattern: &str, text: &str) -> (r: bool)
    ensures
        r == regex_matches(pattern@, text@),
{
    match regex::Regex::new(pattern) {
        Ok(re) => re.is_match(text),
        Err(_) => false,
    }
}

/// How an attribute compares with a configured value.
pub open spec fn op_holds(op: BgpEqOperator, value: u32, attr: u32) -> bool {
    match op {
        BgpEqOperator::Equal => attr == value,
        BgpEqOperator::LessThanOrEqual => attr <= value,
        BgpEqOperator::GreaterThanOrEqual => attr >= value,
    }
}

impl BgpEqOperator {
    pub fn compare(&self, value: u32, attr: u32) -> (r: bool)
        ensures
            r == op_holds(*self, value, attr),
    {
        match self {
            BgpEqOperator::Equal => attr == value,
            BgpEqOperator::LessThanOrEqual => attr <= value,
            BgpEqOperator::GreaterThanOrEqual => attr >= value,
        }
    }
}

/// Whether a set holds a value, or does not, as the match type asks.
pub open spec fn restricted_match<V>(t: MatchSetRestrictedType, set: Set<V>, value: V) -> bool {
    match t {
        MatchSetRestrictedType::Any => set.contains(value),
        MatchSetRestrictedType::Invert => !set.contains(value),
    }
}

impl MatchSetRestrictedType {
    pub fn compare<K: Key>(&self, set: &SortedSet<K>, value: &K) -> (r: bool)
        requires
            set.wf(),
        ensures
            r == restricted_match(*self, set@, value@),
    {
        match self {
            MatchSetRestrictedType::Any => set.contains(value),
            MatchSetRestrictedType::Invert => !set.contains(value),
        }
    }
}

/// Whether some community matches a regular expression.
pub open spec fn regex_hits<T: CommType>(pattern: Seq<char>, comms: Set<T>) -> bool {
    exists|c: T| #[trigger] comms.contains(c) && regex_matches(pattern, c.text())
}

/// Whether communities match a set: some member of the set, every member or
/// none.
pub open spec fn comm_set_match<T: CommType>(t: MatchSetType, set: BgpCommunitySet<T>, comms: Set<T>) -> bool {
    match t {
        MatchSetType::Any => comm_set_hit(set, comms),
        MatchSetType::All => (forall|l: T| #[trigger] set.literals@.contains(l) ==> comms.contains(l)) && (forall|
            p: Seq<char>,
        | #[trigger] set.regexes@.contains(p) ==> regex_hits(p, comms)),
        MatchSetType::Invert => !comm_set_hit(set, comms),
    }
}

/// Whether communities match some member of a set.
pub open spec fn comm_set_hit<T: CommType>(set: BgpCommunitySet<T>, comms: Set<T>) -> bool {
    (exists|l: T| #[trigger] set.literals@.contains(l) && comms.contains(l)) || (exists|p: Seq<char>| #[trigger]
        set.regexes@.contains(p) && regex_hits(p, comms))
}

fn regex_hit<T: CommType>(pattern: &String, comms: &SortedSet<T>) -> (r: bool)
    requires
        comms.wf(),
    ensures
        r == regex_hits::<T>(pattern@, comms@),
{
    let mut i: usize = 0;
    proof {
        elems_are_set(*comms);
    }
    while i < comms.len()
        invariant
            i <= comms.elems().len(),
            forall|k: T| #[trigger] comms@.contains(k) <==> comms.elems().contains(k),
            forall|j: int| 0 <= j < i ==> !regex_matches(pattern@, (#[trigger] comms.elems()[j]).text()),
        decreases comms.elems().len() - i,
    {
        let c = comms.nth(i);
        proof {
            c.view_is_value();
        }
        if is_match(pattern.as_str(), c.to_text().as_str()) {
            proof {
                assert(comms.elems().contains(comms.elems()[i as int]));
                assert(comms@.contains(*c));
            }
            return true;
        }
        i += 1;
    }
    proof {
        assert forall|c: T| #[trigger] comms@.contains(c) implies !regex_matches(pattern@, c.text()) by {
            assert(comms.elems().contains(c));
        }
    }
    false
}

impl<T: CommType> BgpCommunitySet<T> {
    /// Whether communities match some member of the set.
    fn hit(&self, comms: &SortedSet<T>) -> (r: bool)
        requires
            self.wf(),
            comms.wf(),
        ensures
            r == comm_set_hit(*self, comms@),
    {
        if self.literals.intersects(comms) {
            return true;
        }
        let mut i: usize = 0;
        proof {
            elems_are_set(self.regexes);
        }
        while i < self.regexes.len()
            invariant
                comms.wf(),
                i <= self.regexes.elems().len(),
                forall|k: Seq<char>| #[trigger] self.regexes@.contains(k) <==> self.regexes.elems().contains(k),
                forall|j: int| 0 <= j < i ==> !regex_hits(#[trigger] self.regexes.elems()[j], comms@),
            decreases self.regexes.elems().len() - i,
        {
            if regex_hit(self.regexes.nth(i), comms) {
                proof {
                    assert(self.regexes.elems().contains(self.regexes.elems()[i as int]));
                    assert(self.regexes@.contains(self.regexes.elems()[i as int]));
                }
                return true;
            }
            i += 1;
        }
        proof {
            assert forall|p: Seq<char>| #[trigger] self.regexes@.contains(p) implies !regex_hits(p, comms@) by {
                assert(self.regexes.elems().contains(p));
            }
        }
        false
    }

    /// Whether communities match every member of the set.
    fn hit_all(&self, comms: &SortedSet<T>) -> (r: bool)
        requires
            self.wf(),
            comms.wf(),
        ensures
            r == comm_set_match(MatchSetType::All, *self, comms@),
    {
        let mut i: usize = 0;
        proof {
            elems_are_set(self.literals);
            elems_are_set(self.regexes);
        }
        while i < self.literals.len()
            invariant
                comms.wf(),
                i <= self.literals.elems().len(),
                forall|k: T| #[trigger] self.literals@.contains(k) <==> self.literals.elems().contains(k),
                forall|j: int| 0 <= j < i ==> comms@.contains(#[trigger] self.literals.elems()[j]),
            decreases self.literals.elems().len() - i,
        {
            if !comms.contains(self.literals.nth(i)) {
                proof {
                    assert(self.literals.elems().contains(self.literals.elems()[i as int]));
                    assert(self.literals@.contains(self.literals.elems()[i as int]));
                }
                return false;
            }
            i += 1;
        }
        assert forall|l: T| #[trigger] self.literals@.contains(l) implies comms@.contains(l) by {
            assert(self.literals.elems().contains(l));
        }
        i = 0;
        while i < self.regexes.len()
            invariant
                comms.wf(),
                i <= self.regexes.elems().len(),
                forall|k: Seq<char>| #[trigger] self.regexes@.contains(k) <==> self.regexes.elems().contains(k),
                forall|j: int| 0 <= j < i ==> regex_hits(#[trigger] self.regexes.elems()[j], comms@),
            decreases self.regexes.elems().len() - i,
        {
            if !regex_hit(self.regexes.nth(i), comms) {
                proof {
                    assert(self.regexes.elems().contains(self.regexes.elems()[i as int]));
                    assert(self.regexes@.contains(self.regexes.elems()[i as int]));
                }
                return false;
            }
            i += 1;
        }
        assert forall|p: Seq<char>| #[trigger] self.regexes@.contains(p) implies regex_hits(p, comms@) by {
            assert(self.regexes.elems().contains(p));
        }
        true
    }

    /// Whether communities match the set in the way that the match type asks.
    pub fn matches(&self, match_type: MatchSetType, comms: &SortedSet<T>) -> (r: bool)
        requires
            self.wf(),
            comms.wf(),
        ensures
            r == comm_set_match(match_type, *self, comms@),
    {
        match match_type {
            MatchSetType::Any => self.hit(comms),
            MatchSetType::All => self.hit_all(comms),
            MatchSetType::Invert => !self.hit(comms),
        }
    }
}

/// The text of an AS path: its AS numbers, with spaces between them.
pub open spec fn as_path_text(asns: Seq<u32>) -> Seq<char> {
    joined(Seq::new(asns.len(), |i: int| decimal(asns[i] as nat)), " "@)
}

/// Whether a path matches some member of a set.
pub open spec fn as_path_set_hit(set: BgpAsPathSet, asns: Seq<u32>) -> bool {
    (exists|l: u32| #[trigger] set.literals@.contains(l) && asns.contains(l)) || (exists|p: Seq<char>| #[trigger]
        set.regexes@.contains(p) && regex_matches(p, as_path_text(asns)))
}

/// Whether a path matches a set: some member of the set, every member or none.
pub open spec fn as_path_set_match(t: MatchSetType, set: BgpAsPathSet, asns: Seq<u32>) -> bool {
    match t {
        MatchSetType::Any => as_path_set_hit(set, asns),
        MatchSetType::All => (forall|l: u32| #[trigger] set.literals@.contains(l) ==> asns.contains(l)) && (forall|
            p: Seq<char>,
        | #[trigger] set.regexes@.contains(p) ==> regex_matches(p, as_path_text(asns))),
        MatchSetType::Invert => !as_path_set_hit(set, asns),
    }
}

fn path_text(asns: &Vec<u32>) -> (r: String)
    ensures
        r@ == as_path_text(asns@),
{
    let mut parts: Vec<String> = Vec::new();
    let mut i: usize = 0;
    while i < asns.len()
        invariant
            i <= asns@.len(),
            parts@.len() == i,
            forall|j: int| 0 <= j < i ==> (#[trigger] parts@[j])@ == decimal(asns@[j] as nat),
        decreases asns@.len() - i,
    {
        parts.push(to_decimal(asns[i]));
        i += 1;
    }
    assert(texts(parts@) =~= Seq::new(asns@.len(), |i: int| decimal(asns@[i] as nat)));
    join(parts, " ")
}

fn has_number(v: &Vec<u32>, n: u32) -> (r: bool)
    ensures
        r == v@.contains(n),
{
    let mut i: usize = 0;
    while i < v.len()
        invariant
            i <= v@.len(),
            forall|j: int| 0 <= j < i ==> #[trigger] v@[j] != n,
        decreases v@.len() - i,
    {
        if v[i] == n {
            return true;
        }
        i += 1;
    }
    false
}

impl BgpAsPathSet {
    /// How many members of the set a path matches: all of them, some or none.
    fn tally(&self, asns: &Vec<u32>) -> (r: (bool, bool))
        requires
            self.wf(),
        ensures
            r.0 == as_path_set_hit(*self, asns@),
            r.1 == as_path_set_match(MatchSetType::All, *self, asns@),
    {
        let text = path_text(asns);
        let mut any = false;
        let mut all = true;
        let mut i: usize = 0;
        proof {
            elems_are_set(self.literals);
            elems_are_set(self.regexes);
        }
        let ghost lits = self.literals.elems();
        let ghost pats = self.regexes.elems();
        while i < self.literals.len()
            invariant
                lits == self.literals.elems(),
                i <= lits.len(),
                any == exists|j: int| 0 <= j < i && asns@.contains(#[trigger] lits[j]),
                all == forall|j: int| 0 <= j < i ==> asns@.contains(#[trigger] lits[j]),
            decreases lits.len() - i,
        {
            let hit = has_number(asns, *self.literals.nth(i));
            assert(hit == asns@.contains(lits[i as int]));
            if hit {
                any = true;
            } else {
                all = false;
            }
            i += 1;
        }
        let ghost any0 = any;
        let ghost all0 = all;
        proof {
            assert(any0 == exists|l: u32| #[trigger] self.literals@.contains(l) && asns@.contains(l)) by {
                if any0 {
                    let j = choose|j: int| 0 <= j < i && asns@.contains(#[trigger] lits[j]);
                    assert(lits.contains(lits[j]));
                    assert(self.literals@.contains(lits[j]));
                }
                if exists|l: u32| #[trigger] self.literals@.contains(l) && asns@.contains(l) {
                    let l = choose|l: u32| #[trigger] self.literals@.contains(l) && asns@.contains(l);
                    assert(lits.contains(l));
                }
            }
            assert(all0 == forall|l: u32| #[trigger] self.literals@.contains(l) ==> asns@.contains(l)) by {
                if all0 {
                    assert forall|l: u32| #[trigger] self.literals@.contains(l) implies asns@.contains(l) by {
                        assert(lits.contains(l));
                    }
                } else {
                    let j = choose|j: int| 0 <= j < i && !asns@.contains(#[trigger] lits[j]);
                    assert(lits.contains(lits[j]));
                    assert(self.literals@.contains(lits[j]));
                }
            }
        }
        i = 0;
        while i < self.regexes.len()
            invariant
                pats == self.regexes.elems(),
                text@ == as_path_text(asns@),
                i <= pats.len(),
                any == (any0 || exists|j: int| 0 <= j < i && regex_matches(#[trigger] pats[j], text@)),
                all == (all0 && forall|j: int| 0 <= j < i ==> regex_matches(#[trigger] pats[j], text@)),
            decreases pats.len() - i,
        {
            let hit = is_match(self.regexes.nth(i).as_str(), text.as_str());
            assert(hit == regex_matches(pats[i as int], text@));
            if hit {
                any = true;
            } else {
                all = false;
            }
            i += 1;
        }
        proof {
            if exists|j: int| 0 <= j < i && regex_matches(#[trigger] pats[j], text@) {
                let j = choose|j: int| 0 <= j < i && regex_matches(#[trigger] pats[j], text@);
                assert(pats.contains(pats[j]));
                assert(self.regexes@.contains(pats[j]));
            }
            if exists|p: Seq<char>| #[trigger] self.regexes@.contains(p) && regex_matches(p, text@) {
                let p = choose|p: Seq<char>| #[trigger] self.regexes@.contains(p) && regex_matches(p, text@);
                assert(pats.contains(p));
            }
            if forall|j: int| 0 <= j < i ==> regex_matches(#[trigger] pats[j], text@) {
                assert forall|p: Seq<char>| #[trigger] self.regexes@.contains(p) implies regex_matches(p, text@) by {
                    assert(pats.contains(p));
                }
            } else {
                let j = choose|j: int| 0 <= j < i && !regex_matches(#[trigger] pats[j], text@);
                assert(pats.contains(pats[j]));
                assert(self.regexes@.contains(pats[j]));
            }
        }
        (any, all)
    }

    /// Whether a path matches the set in the way that the match type asks.
    pub fn matches(&self, match_type: MatchSetType, asns: &Vec<u32>) -> (r: bool)
        requires
            self.wf(),
        ensures
            r == as_path_set_match(match_type, *self, asns@),
    {
        let (any, all) = self.tally(asns);
        match match_type {
            MatchSetType::Any => any,
            MatchSetType::All => all,
            MatchSetType::Invert => !any,
        }
    }
}

/// Whether a prefix falls into a range.
pub open spec fn in_range(prefix: IpNetwork, range: IpPrefixRange) -> bool {
    prefix.ip_spec() == range.prefix.ip_spec() && range.masklen_lower <= prefix.prefix_spec() <= range.masklen_upper
}

/// Whether a prefix is in the prefix set with a name.
pub open spec fn in_prefix_set(prefix: IpNetwork, name: Seq<char>, sets: MatchSets) -> bool {
    let key = (name, prefix.address_family_spec());
    sets.prefixes@.contains_key(key) && exists|range: IpPrefixRange| #[trigger]
        sets.prefixes@[key].prefixes@.contains(range) && in_range(prefix, range)
}

/// Whether the communities of a route match the set with a name.
pub open spec fn named_comm_match<T: CommType>(
    sets: Map<Seq<char>, BgpCommunitySet<T>>,
    name: Seq<char>,
    t: MatchSetType,
    comms: Option<Set<T>>,
) -> bool {
    comms is Some && sets.contains_key(name) && comm_set_match(t, sets[name], comms->0)
}

/// Whether an AS path matches the set with a name.
pub open spec fn named_path_match(
    sets: Map<Seq<char>, BgpAsPathSet>,
    name: Seq<char>,
    t: MatchSetType,
    path: Seq<Segment>,
) -> bool {
    sets.contains_key(name) && as_path_set_match(t, sets[name], path_members(path))
}

/// Whether a next hop matches the set with a name.
pub open spec fn named_nexthop_match(
    sets: Map<Seq<char>, SortedSet<BgpNexthop>>,
    name: Seq<char>,
    t: MatchSetRestrictedType,
    nexthop: Option<IpAddr>,
) -> bool {
    sets.contains_key(name) && restricted_match(t, sets[name]@, policy_nexthop(nexthop))
}

/// Whether an optional attribute is there and compares as asked.
pub open spec fn attr_holds(op: BgpEqOperator, value: u32, attr: Option<u32>) -> bool {
    attr is Some && op_holds(op, value, attr->0)
}

/// The number of communities as a 32-bit number.
pub open spec fn comm_count(comms: Set<Comm>) -> u32 {
    (comms.len() % 0x1_0000_0000) as u32
}

/// The length of a path, or the largest length that can be told.
pub open spec fn told_length(attrs: AttrsModel) -> u32 {
    if path_length(attrs.as_path) <= u32::MAX {
        path_length(attrs.as_path) as u32
    } else {
        u32::MAX
    }
}

/// The next hop that policies see.
pub open spec fn policy_nexthop(nexthop: Option<IpAddr>) -> BgpNexthop {
    match nexthop {
        Some(a) => BgpNexthop::Addr(a),
        None => BgpNexthop::NexthopSelf,
    }
}

/// Whether a BGP condition holds.
pub open spec fn bgp_condition_met(
    afi_safi: AfiSafi,
    info: InfoModel,
    condition: BgpPolicyCondition,
    sets: MatchSets,
) -> bool {
    let attrs = info.attrs;
    match condition {
        BgpPolicyCondition::LocalPref { value, op } => attr_holds(op, value, attrs.local_pref),
        BgpPolicyCondition::Med { value, op } => attr_holds(op, value, attrs.med),
        BgpPolicyCondition::Origin(origin) => attrs.origin == origin,
        BgpPolicyCondition::MatchAfiSafi { values, match_type } => restricted_match(match_type, values@, afi_safi),
        BgpPolicyCondition::MatchNeighbor { value, match_type } => match info.origin {
            RouteOrigin::Neighbor { remote_addr, .. } => restricted_match(match_type, value@, remote_addr),
            RouteOrigin::Protocol(_) => false,
        },
        BgpPolicyCondition::RouteType(value) => info.route_type == value,
        BgpPolicyCondition::CommCount { value, op } => attrs.comm is Some && op_holds(
            op,
            value,
            comm_count(attrs.comm->0),
        ),
        BgpPolicyCondition::AsPathLen { value, op } => op_holds(op, value, told_length(attrs)),
        BgpPolicyCondition::MatchCommSet { value, match_type } => named_comm_match(
            sets.bgp.comms@,
            value@,
            match_type,
            attrs.comm,
        ),
        BgpPolicyCondition::MatchExtCommSet { value, match_type } => named_comm_match(
            sets.bgp.ext_comms@,
            value@,
            match_type,
            attrs.ext_comm,
        ),
        BgpPolicyCondition::MatchExtv6CommSet { value, match_type } => named_comm_match(
            sets.bgp.extv6_comms@,
            value@,
            match_type,
            attrs.extv6_comm,
        ),
        BgpPolicyCondition::MatchLargeCommSet { value, match_type } => named_comm_match(
            sets.bgp.large_comms@,
            value@,
            match_type,
            attrs.large_comm,
        ),
        BgpPolicyCondition::MatchAsPathSet { value, match_type } => named_path_match(
            sets.bgp.as_paths@,
            value@,
            match_type,
            attrs.as_path,
        ),
        BgpPolicyCondition::MatchNexthopSet { value, match_type } => named_nexthop_match(
            sets.bgp.nexthops@,
            value@,
            match_type,
            attrs.nexthop,
        ),
    }
}

/// Whether a condition of a statement holds of a route.
pub open spec fn condition_met(
    afi_safi: AfiSafi,
    prefix: IpNetwork,
    info: InfoModel,
    stmt: PolicyStmt,
    condition: PolicyCondition,
    sets: MatchSets,
) -> bool {
    match condition {
        PolicyCondition::SrcProtocol(value) => info.origin == RouteOrigin::Protocol(value),
        PolicyCondition::MatchPrefixSet(value) => match stmt.prefix_set_match_type {
            MatchSetRestrictedType::Any => in_prefix_set(prefix, value@, sets),
            MatchSetRestrictedType::Invert => !in_prefix_set(prefix, value@, sets),
        },
        PolicyCondition::MatchNeighborSet(value) => match info.origin {
            RouteOrigin::Neighbor { remote_addr, .. } => sets.neighbors@.contains_key(value@)
                && sets.neighbors@[value@].addrs@.contains(remote_addr),
            RouteOrigin::Protocol(_) => false,
        },
        PolicyCondition::MatchTagSet(value) => {
            let matches = info.tag is Some && sets.tags@.contains_key(value@) && sets.tags@[value@].tags@.contains(
                info.tag->0,
            );
            match stmt.tag_set_match_type {
                MatchSetType::Any | MatchSetType::All => matches,
                MatchSetType::Invert => !matches,
            }
        },
        PolicyCondition::Bgp(c) => bgp_condition_met(afi_safi, info, c, sets),
        // Interfaces, route types and called policies do not restrict routes.
        PolicyCondition::MatchInterface(_) | PolicyCondition::MatchRouteType(_) | PolicyCondition::CallPolicy(_) =>
            true,
    }
}

fn prefix_in_set(prefix: &IpNetwork, name: &String, sets: &MatchSets) -> (r: bool)
    requires
        sets.wf(),
    ensures
        r == in_prefix_set(*prefix, name@, *sets),
{
    let key = PrefixSetKey { name: name.clone(), mode: prefix.address_family() };
    let ghost kv = (name@, prefix.address_family_spec());
    assert(key@ == kv);
    match sets.prefixes.get(&key) {
        Some(set) => {
            proof {
                elems_are_set(set.prefixes);
            }
            let mut i: usize = 0;
            while i < set.prefixes.len()
                invariant
                    set.prefixes.wf(),
                    *set == sets.prefixes@[kv],
                    sets.prefixes@.contains_key(kv),
                    kv == (name@, prefix.address_family_spec()),
                    i <= set.prefixes.elems().len(),
                    forall|k: IpPrefixRange| #[trigger]
                        set.prefixes@.contains(k) <==> set.prefixes.elems().contains(k),
                    forall|j: int| 0 <= j < i ==> !in_range(*prefix, #[trigger] set.prefixes.elems()[j]),
                decreases set.prefixes.elems().len() - i,
            {
                let range = set.prefixes.nth(i);
                if prefix.ip() == range.prefix.ip() && prefix.prefix() >= range.masklen_lower && prefix.prefix()
                    <= range.masklen_upper {
                    proof {
                        assert(set.prefixes.elems().contains(set.prefixes.elems()[i as int]));
                        assert(set.prefixes@.contains(*range));
                    }
                    return true;
                }
                i += 1;
            }
            proof {
                assert forall|k: IpPrefixRange| #[trigger] set.prefixes@.contains(k) implies !in_range(*prefix, k) by {
                    assert(set.prefixes.elems().contains(k));
                }
            }
            false
        },
        None => false,
    }
}

fn comms_match<T: CommType>(
    sets: &SortedMap<String, BgpCommunitySet<T>>,
    name: &String,
    match_type: MatchSetType,
    comms: &Option<Arc<CommList<T>>>,
) -> (r: bool)
    requires
        comm_sets_wf(*sets),
        comm_wf(*comms),
    ensures
        r == named_comm_match(sets@, name@, match_type, comm_view(*comms)),
{
    match comms {
        Some(list) => match sets.get(name) {
            Some(set) => set.matches(match_type, &list.0),
            None => false,
        },
        None => false,
    }
}

fn path_matches(
    sets: &SortedMap<String, BgpAsPathSet>,
    name: &String,
    match_type: MatchSetType,
    path: &AsPath,
) -> (r: bool)
    requires
        sets.wf(),
        forall|k: Seq<char>| #[trigger] sets@.contains_key(k) ==> sets@[k].wf(),
    ensures
        r == named_path_match(sets@, name@, match_type, path@),
{
    match sets.get(name) {
        Some(set) => {
            let asns = path.members();
            set.matches(match_type, &asns)
        },
        None => false,
    }
}

fn nexthop_matches(
    sets: &SortedMap<String, SortedSet<BgpNexthop>>,
    name: &String,
    match_type: MatchSetRestrictedType,
    nexthop: Option<IpAddr>,
) -> (r: bool)
    requires
        sets.wf(),
        forall|k: Seq<char>| #[trigger] sets@.contains_key(k) ==> sets@[k].wf(),
    ensures
        r == named_nexthop_match(sets@, name@, match_type, nexthop),
{
    let nexthop = match nexthop {
        Some(nexthop) => BgpNexthop::Addr(nexthop),
        None => BgpNexthop::NexthopSelf,
    };
    match sets.get(name) {
        Some(set) => match_type.compare(set, &nexthop),
        None => false,
    }
}

fn count_comms(comms: &SortedSet<Comm>) -> (r: u32)
    requires
        comms.wf(),
    ensures
        r == comm_count(comms@),
{
    proof {
        elems_count(*comms);
    }
    (comms.len() as u64 % 0x1_0000_0000) as u32
}

/// A condition that refers to a defined set.
spec fn is_set_condition(c: BgpPolicyCondition) -> bool {
    c is MatchCommSet || c is MatchExtCommSet || c is MatchExtv6CommSet || c is MatchLargeCommSet || c is MatchAsPathSet
        || c is MatchNexthopSet
}

fn process_set_condition(attrs: &Attrs, condition: &BgpPolicyCondition, match_sets: &MatchSets) -> (r: bool)
    requires
        attrs.wf(),
        is_set_condition(*condition),
        match_sets.wf(),
    ensures
        forall|afi_safi: AfiSafi, info: InfoModel|
            info.attrs == attrs@ ==> r == #[trigger] bgp_condition_met(afi_safi, info, *condition, *match_sets),
{
    match condition {
        BgpPolicyCondition::MatchCommSet { value, match_type } => comms_match(
            &match_sets.bgp.comms,
            value,
            *match_type,
            &attrs.comm,
        ),
        BgpPolicyCondition::MatchExtCommSet { value, match_type } => comms_match(
            &match_sets.bgp.ext_comms,
            value,
            *match_type,
            &attrs.ext_comm,
        ),
        BgpPolicyCondition::MatchExtv6CommSet { value, match_type } => comms_match(
            &match_sets.bgp.extv6_comms,
            value,
            *match_type,
            &attrs.extv6_comm,
        ),
        BgpPolicyCondition::MatchLargeCommSet { value, match_type } => comms_match(
            &match_sets.bgp.large_comms,
            value,
            *match_type,
            &attrs.large_comm,
        ),
        BgpPolicyCondition::MatchAsPathSet { value, match_type } => path_matches(
            &match_sets.bgp.as_paths,
            value,
            *match_type,
            &attrs.base.as_path,
        ),
        BgpPolicyCondition::MatchNexthopSet { value, match_type } => nexthop_matches(
            &match_sets.bgp.nexthops,
            value,
            *match_type,
            attrs.base.nexthop,
        ),
        _ => false,
    }
}

fn process_bgp_condition(
    afi_safi: AfiSafi,
    rpinfo: &RoutePolicyInfo,
    condition: &BgpPolicyCondition,
    match_sets: &MatchSets,
) -> (r: bool)
    requires
        rpinfo.attrs.wf(),
        condition_wf(PolicyCondition::Bgp(*condition)),
        match_sets.wf(),
    ensures
        r == bgp_condition_met(afi_safi, rpinfo@, *condition, *match_sets),
{
    let attrs = &rpinfo.attrs;
    match condition {
        BgpPolicyCondition::LocalPref { value, op } => match attrs.base.local_pref {
            Some(local_pref) => op.compare(*value, local_pref),
            None => false,
        },
        BgpPolicyCondition::Med { value, op } => match attrs.base.med {
            Some(med) => op.compare(*value, med),
            None => false,
        },
        BgpPolicyCondition::Origin(origin) => attrs.base.origin == *origin,
        BgpPolicyCondition::MatchAfiSafi { values, match_type } => match_type.compare(values, &afi_safi),
        BgpPolicyCondition::MatchNeighbor { value, match_type } => match &rpinfo.origin {
            RouteOrigin::Neighbor { remote_addr, .. } => match_type.compare(value, remote_addr),
            RouteOrigin::Protocol(_) => false,
        },
        BgpPolicyCondition::RouteType(value) => rpinfo.route_type == *value,
        BgpPolicyCondition::CommCount { value, op } => match &attrs.comm {
            Some(comm) => op.compare(*value, count_comms(&comm.0)),
            None => false,
        },
        BgpPolicyCondition::AsPathLen { value, op } => op.compare(*value, attrs.base.as_path.path_length()),
        _ => process_set_condition(attrs, condition, match_sets),
    }
}

/// Whether a condition of a statement is met.
pub fn process_stmt_condition(
    afi_safi: AfiSafi,
    prefix: &IpNetwork,
    rpinfo: &RoutePolicyInfo,
    stmt: &PolicyStmt,
    condition: &PolicyCondition,
    match_sets: &MatchSets,
) -> (r: bool)
    requires
        rpinfo.attrs.wf(),
        condition_wf(*condition),
        match_sets.wf(),
    ensures
        r == condition_met(afi_safi, *prefix, rpinfo@, *stmt, *condition, *match_sets),
{
    match condition {
        PolicyCondition::SrcProtocol(value) => match &rpinfo.origin {
            RouteOrigin::Protocol(protocol) => *protocol == *value,
            RouteOrigin::Neighbor { .. } => false,
        },
        PolicyCondition::MatchPrefixSet(value) => {
            let matches = prefix_in_set(prefix, value, match_sets);
            match stmt.prefix_set_match_type {
                MatchSetRestrictedType::Any => matches,
                MatchSetRestrictedType::Invert => !matches,
            }
        },
        PolicyCondition::MatchNeighborSet(value) => match &rpinfo.origin {
            RouteOrigin::Neighbor { remote_addr, .. } => match match_sets.neighbors.get(value) {
                Some(set) => set.addrs.contains(remote_addr),
                None => false,
            },
            RouteOrigin::Protocol(_) => false,
        },
        PolicyCondition::MatchTagSet(value) => {
            let matches = match (&rpinfo.tag, match_sets.tags.get(value)) {
                (Some(tag), Some(set)) => set.tags.contains(tag),
                _ => false,
            };
            match stmt.tag_set_match_type {
                MatchSetType::Any | MatchSetType::All => matches,
                MatchSetType::Invert => !matches,
            }
        },
        PolicyCondition::Bgp(condition) => process_bgp_condition(afi_safi, rpinfo, condition, match_sets),
        PolicyCondition::MatchInterface(_) | PolicyCondition::MatchRouteType(_) | PolicyCondition::CallPolicy(_) =>
            true,
    }
}

/// The communities that a method names, if they are defined.
pub open spec fn method_comms<T: Key>(
    method: BgpSetCommMethod<T>,
    sets: Map<Seq<char>, BgpCommunitySet<T>>,
) -> Option<Set<T::V>> {
    match method {
        BgpSetCommMethod::Inline(comms) => Some(comms@),
        BgpSetCommMethod::Reference(name) => if sets.contains_key(name@) {
            Some(sets[name@].literals@)
        } else {
            None
        },
    }
}

/// A list of communities that is dropped when it is empty.
pub open spec fn nonempty<V>(s: Set<V>) -> Option<Set<V>> {
    if s == Set::<V>::empty() {
        None
    } else {
        Some(s)
    }
}

/// The communities of a route after some are added, removed or put in their
/// place.
pub open spec fn comms_after<V>(options: BgpSetCommOptions, comms: Set<V>, list: Option<Set<V>>) -> Option<Set<V>> {
    match options {
        BgpSetCommOptions::Add => match list {
            Some(l) => nonempty(l.union(comms)),
            None => nonempty(comms),
        },
        BgpSetCommOptions::Remove => match list {
            Some(l) => nonempty(l.difference(comms)),
            None => None,
        },
        BgpSetCommOptions::Replace => nonempty(comms),
    }
}

/// Adds, removes or replaces communities. Says whether the communities that
/// the method names are defined; where they are not, nothing changes.
pub fn action_set_comm<T: CommType>(
    options: &BgpSetCommOptions,
    method: &BgpSetCommMethod<T>,
    comm_sets: &SortedMap<String, BgpCommunitySet<T>>,
    comm_list: &mut Option<Arc<CommList<T>>>,
) -> (r: bool)
    requires
        method_wf(*method),
        comm_sets_wf(*comm_sets),
        comm_wf(*old(comm_list)),
    ensures
        comm_wf(*final(comm_list)),
        r == (method_comms(*method, comm_sets@) is Some),
        r ==> comm_view(*final(comm_list)) == comms_after(
            *options,
            method_comms(*method, comm_sets@)->0,
            comm_view(*old(comm_list)),
        ),
        !r ==> *final(comm_list) == *old(comm_list),
{
    let comms = match method {
        BgpSetCommMethod::Inline(comms) => comms,
        BgpSetCommMethod::Reference(name) => match comm_sets.get(name) {
            Some(set) => &set.literals,
            None => {
                return false;
            },
        },
    };
    let updated = match options {
        BgpSetCommOptions::Add => match comm_list {
            Some(list) => {
                let mut set = list.0.duplicate();
                set.extend(comms);
                set
            },
            None => comms.duplicate(),
        },
        BgpSetCommOptions::Remove => match comm_list {
            Some(list) => {
                let mut set = list.0.duplicate();
                set.remove_all(comms);
                set
            },
            None => SortedSet::new(),
        },
        BgpSetCommOptions::Replace => comms.duplicate(),
    };
    if updated.is_empty() {
        *comm_list = None;
    } else {
        *comm_list = Some(Arc::new(CommList(updated)));
    }
    true
}

/// The metric after it is raised.
pub open spec fn raised(med: Option<u32>, value: u32) -> Option<u32> {
    match med {
        Some(m) => Some(
            if m + value > u32::MAX {
                u32::MAX
            } else {
                (m + value) as u32
            },
        ),
        None => None,
    }
}

/// The metric after it is lowered.
pub open spec fn lowered(med: Option<u32>, value: u32) -> Option<u32> {
    match med {
        Some(m) => Some(
            if m < value {
                0
            } else {
                (m - value) as u32
            },
        ),
        None => None,
    }
}

/// How often an AS number is prepended.
pub open spec fn repeat_count(repeat: Option<u8>) -> nat {
    match repeat {
        Some(n) => n as nat,
        None => 1,
    }
}

/// What a BGP action makes of the attributes, or nothing if the set that it
/// refers to is not defined.
pub open spec fn bgp_action_effect(m: AttrsModel, action: BgpPolicyAction, sets: MatchSets) -> Option<AttrsModel> {
    match action {
        BgpPolicyAction::SetRouteOrigin(origin) => Some(AttrsModel { origin, ..m }),
        BgpPolicyAction::SetLocalPref(local_pref) => Some(AttrsModel { local_pref: Some(local_pref), ..m }),
        BgpPolicyAction::SetNexthop(BgpNexthop::Addr(addr)) => Some(AttrsModel { nexthop: Some(addr), ..m }),
        BgpPolicyAction::SetNexthop(BgpNexthop::NexthopSelf) => Some(AttrsModel { nexthop: None, ..m }),
        BgpPolicyAction::SetMed(set_med) => match set_med {
            BgpSetMed::Add(value) => Some(AttrsModel { med: raised(m.med, value), ..m }),
            BgpSetMed::Subtract(value) => Some(AttrsModel { med: lowered(m.med, value), ..m }),
            BgpSetMed::Assign(value) => Some(AttrsModel { med: Some(value), ..m }),
            BgpSetMed::Igp => Some(m),
            BgpSetMed::MedPlusIgp => Some(m),
        },
        BgpPolicyAction::SetAsPathPrepent { asn, repeat } => Some(
            AttrsModel { as_path: prepended_times(m.as_path, asn, repeat_count(repeat)), ..m },
        ),
        BgpPolicyAction::SetComm { options, method } => match method_comms(method, sets.bgp.comms@) {
            Some(comms) => Some(AttrsModel { comm: comms_after(options, comms, m.comm), ..m }),
            None => None,
        },
        BgpPolicyAction::SetExtComm { options, method } => match method_comms(method, sets.bgp.ext_comms@) {
            Some(comms) => Some(AttrsModel { ext_comm: comms_after(options, comms, m.ext_comm), ..m }),
            None => None,
        },
        BgpPolicyAction::SetExtv6Comm { options, method } => match method_comms(method, sets.bgp.extv6_comms@) {
            Some(comms) => Some(AttrsModel { extv6_comm: comms_after(options, comms, m.extv6_comm), ..m }),
            None => None,
        },
        BgpPolicyAction::SetLargeComm { options, method } => match method_comms(method, sets.bgp.large_comms@) {
            Some(comms) => Some(AttrsModel { large_comm: comms_after(options, comms, m.large_comm), ..m }),
            None => None,
        },
    }
}

/// What an action makes of the attributes and of the flow of the policy.
pub open spec fn action_effect(m: AttrsModel, action: PolicyAction, sets: MatchSets) -> (
    AttrsModel,
    PolicyActionResult,
) {
    match action {
        PolicyAction::Accept(true) => (m, PolicyActionResult::Accept),
        PolicyAction::Accept(false) => (m, PolicyActionResult::Reject),
        PolicyAction::SetMetric { value, mod_type } => {
            let med = match mod_type {
                MetricModification::Assign => Some(value),
                MetricModification::Add => raised(m.med, value),
                MetricModification::Subtract => lowered(m.med, value),
            };
            (AttrsModel { med, ..m }, PolicyActionResult::Continue)
        },
        PolicyAction::Bgp(a) => match bgp_action_effect(m, a, sets) {
            Some(n) => (n, PolicyActionResult::Continue),
            None => (m, PolicyActionResult::Reject),
        },
        _ => (m, PolicyActionResult::Continue),
    }
}

fn raise(med: Option<u32>, value: u32) -> (r: Option<u32>)
    ensures
        r == raised(med, value),
{
    match med {
        Some(m) => Some(m.saturating_add(value)),
        None => None,
    }
}

fn lower(med: Option<u32>, value: u32) -> (r: Option<u32>)
    ensures
        r == lowered(med, value),
{
    match med {
        Some(m) => Some(m.saturating_sub(value)),
        None => None,
    }
}

/// Performs a BGP action. Says whether the set that it refers to is defined;
/// where it is not, nothing changes.
fn process_bgp_action(attrs: &mut Attrs, action: &BgpPolicyAction, match_sets: &MatchSets) -> (r: bool)
    requires
        old(attrs).wf(),
        action_wf(PolicyAction::Bgp(*action)),
        match_sets.wf(),
    ensures
        final(attrs).wf(),
        match bgp_action_effect(old(attrs)@, *action, *match_sets) {
            Some(m) => r && final(attrs)@ == m,
            None => !r && final(attrs)@ == old(attrs)@,
        },
{
    match action {
        BgpPolicyAction::SetRouteOrigin(origin) => {
            attrs.base.origin = *origin;
            true
        },
        BgpPolicyAction::SetLocalPref(local_pref) => {
            attrs.base.local_pref = Some(*local_pref);
            true
        },
        BgpPolicyAction::SetNexthop(set_nexthop) => {
            attrs.base.nexthop = match set_nexthop {
                BgpNexthop::Addr(addr) => Some(*addr),
                BgpNexthop::NexthopSelf => None,
            };
            true
        },
        BgpPolicyAction::SetMed(set_med) => {
            match set_med {
                BgpSetMed::Add(value) => {
                    attrs.base.med = raise(attrs.base.med, *value);
                },
                BgpSetMed::Subtract(value) => {
                    attrs.base.med = lower(attrs.base.med, *value);
                },
                BgpSetMed::Assign(value) => {
                    attrs.base.med = Some(*value);
                },
                BgpSetMed::Igp => {},
                BgpSetMed::MedPlusIgp => {},
            }
            true
        },
        BgpPolicyAction::SetAsPathPrepent { asn, repeat } => {
            let n: u8 = match repeat {
                Some(n) => *n,
                None => 1,
            };
            let mut path = attrs.base.as_path.duplicate();
            let ghost p = path@;
            let mut i: u8 = 0;
            while i < n
                invariant
                    i <= n,
                    path@ == prepended_times(p, *asn, i as nat),
                decreases n - i,
            {
                path.prepend(*asn);
                i += 1;
            }
            attrs.base.as_path = Arc::new(path);
            true
        },
        BgpPolicyAction::SetComm { options, method } => action_set_comm(
            options,
            method,
            &match_sets.bgp.comms,
            &mut attrs.comm,
        ),
        BgpPolicyAction::SetExtComm { options, method } => action_set_comm(
            options,
            method,
            &match_sets.bgp.ext_comms,
            &mut attrs.ext_comm,
        ),
        BgpPolicyAction::SetExtv6Comm { options, method } => action_set_comm(
            options,
            method,
            &match_sets.bgp.extv6_comms,
            &mut attrs.extv6_comm,
        ),
        BgpPolicyAction::SetLargeComm { options, method } => action_set_comm(
            options,
            method,
            &match_sets.bgp.large_comms,
            &mut attrs.large_comm,
        ),
    }
}

/// Performs an action of a statement and says how the policy goes on.
pub fn process_stmt_action(attrs: &mut Attrs, action: &PolicyAction, match_sets: &MatchSets) -> (r: PolicyActionResult)
    requires
        old(attrs).wf(),
        action_wf(*action),
        match_sets.wf(),
    ensures
        final(attrs).wf(),
        (final(attrs)@, r) == action_effect(old(attrs)@, *action, *match_sets),
{
    match action {
        PolicyAction::Accept(accept) => if *accept {
            PolicyActionResult::Accept
        } else {
            PolicyActionResult::Reject
        },
        PolicyAction::SetMetric { value, mod_type } => {
            attrs.base.med = match mod_type {
                MetricModification::Assign => Some(*value),
                MetricModification::Add => raise(attrs.base.med, *value),
                MetricModification::Subtract => lower(attrs.base.med, *value),
            };
            PolicyActionResult::Continue
        },
        PolicyAction::Bgp(action) => if process_bgp_action(attrs, action, match_sets) {
            PolicyActionResult::Continue
        } else {
            PolicyActionResult::Reject
        },
        // Other actions do not concern BGP.
        _ => PolicyActionResult::Continue,
    }
}

/// The actions of a statement in the order of their types.
pub open spec fn stmt_actions(stmt: PolicyStmt) -> Seq<PolicyAction> {
    Seq::new(stmt.actions.entries@.len(), |i: int| stmt.actions.entries@[i].1)
}

/// Runs either the actions that decide on a route or the others, in order,
/// until one of them ends the policy.
pub open spec fn run_actions(m: AttrsModel, actions: Seq<PolicyAction>, deciding: bool, sets: MatchSets) -> (
    AttrsModel,
    PolicyActionResult,
)
    decreases actions.len(),
{
    if actions.len() == 0 {
        (m, PolicyActionResult::Continue)
    } else if (actions[0] is Accept) != deciding {
        run_actions(m, actions.drop_first(), deciding, sets)
    } else {
        let (n, flow) = action_effect(m, actions[0], sets);
        if flow == PolicyActionResult::Continue {
            run_actions(n, actions.drop_first(), deciding, sets)
        } else {
            (n, flow)
        }
    }
}

/// What a matching statement makes of a route: it is changed first, and
/// decided upon afterwards.
pub open spec fn stmt_effect(m: AttrsModel, stmt: PolicyStmt, sets: MatchSets) -> (AttrsModel, PolicyActionResult) {
    let (n, flow) = run_actions(m, stmt_actions(stmt), false, sets);
    if flow == PolicyActionResult::Continue {
        run_actions(n, stmt_actions(stmt), true, sets)
    } else {
        (n, flow)
    }
}

/// Whether all conditions of a statement hold.
pub open spec fn stmt_matches(
    afi_safi: AfiSafi,
    prefix: IpNetwork,
    info: InfoModel,
    stmt: PolicyStmt,
    sets: MatchSets,
) -> bool {
    forall|k: PolicyConditionType| #[trigger]
        stmt.conditions@.contains_key(k) ==> condition_met(afi_safi, prefix, info, stmt, stmt.conditions@[k], sets)
}

/// The decision of a chain of statements on a route.
pub open spec fn policy_outcome(
    afi_safi: AfiSafi,
    prefix: IpNetwork,
    info: InfoModel,
    stmts: Seq<PolicyStmt>,
    sets: MatchSets,
    default_policy: DefaultPolicyType,
    matched: bool,
) -> PolicyResult<InfoModel>
    decreases stmts.len(),
{
    if stmts.len() == 0 {
        if !matched && default_policy == DefaultPolicyType::RejectRoute {
            PolicyResult::Reject
        } else {
            PolicyResult::Accept(info)
        }
    } else if !stmt_matches(afi_safi, prefix, info, stmts[0], sets) {
        policy_outcome(afi_safi, prefix, info, stmts.drop_first(), sets, default_policy, matched)
    } else {
        let (attrs, flow) = stmt_effect(info.attrs, stmts[0], sets);
        let changed = InfoModel { attrs, ..info };
        match flow {
            PolicyActionResult::Accept => PolicyResult::Accept(changed),
            PolicyActionResult::Reject => PolicyResult::Reject,
            PolicyActionResult::Continue => policy_outcome(
                afi_safi,
                prefix,
                changed,
                stmts.drop_first(),
                sets,
                default_policy,
                true,
            ),
        }
    }
}

/// The statements of several policies, one policy after the other.
pub open spec fn all_stmts(policies: Seq<Arc<Policy>>) -> Seq<PolicyStmt>
    decreases policies.len(),
{
    if policies.len() == 0 {
        Seq::empty()
    } else {
        policies[0].stmts@ + all_stmts(policies.drop_first())
    }
}

/// A decision as a mathematical value.
pub open spec fn result_model(r: PolicyResult<RoutePolicyInfo>) -> PolicyResult<InfoModel> {
    match r {
        PolicyResult::Accept(info) => PolicyResult::Accept(info@),
        PolicyResult::Reject => PolicyResult::Reject,
    }
}

pub open spec fn policies_wf(policies: Seq<Arc<Policy>>) -> bool {
    forall|i: int| 0 <= i < policies.len() ==> (#[trigger] policies[i]).wf()
}

fn stmt_conditions_met(
    afi_safi: AfiSafi,
    prefix: &IpNetwork,
    rpinfo: &RoutePolicyInfo,
    stmt: &PolicyStmt,
    match_sets: &MatchSets,
) -> (r: bool)
    requires
        rpinfo.attrs.wf(),
        stmt.wf(),
        match_sets.wf(),
    ensures
        r == stmt_matches(afi_safi, *prefix, rpinfo@, *stmt, *match_sets),
{
    let mut i: usize = 0;
    let ghost entries = stmt.conditions.entries@;
    while i < stmt.conditions.entries.len()
        invariant
            rpinfo.attrs.wf(),
            stmt.wf(),
            match_sets.wf(),
            entries == stmt.conditions.entries@,
            i <= entries.len(),
            forall|j: int|
                0 <= j < i ==> condition_met(
                    afi_safi,
                    *prefix,
                    rpinfo@,
                    *stmt,
                    (#[trigger] entries[j]).1,
                    *match_sets,
                ),
        decreases entries.len() - i,
    {
        proof {
            entries_map_get(entries, i as int);
        }
        let condition = &stmt.conditions.entries[i].1;
        if !process_stmt_condition(afi_safi, prefix, rpinfo, stmt, condition, match_sets) {
            return false;
        }
        i += 1;
    }
    proof {
        assert forall|k: PolicyConditionType| #[trigger] stmt.conditions@.contains_key(k) implies condition_met(
            afi_safi,
            *prefix,
            rpinfo@,
            *stmt,
            stmt.conditions@[k],
            *match_sets,
        ) by {
            let j = choose|j: int| 0 <= j < entries.len() && (#[trigger] entries[j]).0@ == k;
            entries_map_get(entries, j);
        }
    }
    true
}

fn run_stmt_actions(attrs: &mut Attrs, stmt: &PolicyStmt, deciding: bool, match_sets: &MatchSets) -> (r:
    PolicyActionResult)
    requires
        old(attrs).wf(),
        stmt.wf(),
        match_sets.wf(),
    ensures
        final(attrs).wf(),
        (final(attrs)@, r) == run_actions(old(attrs)@, stmt_actions(*stmt), deciding, *match_sets),
{
    let ghost all = stmt_actions(*stmt);
    let mut i: usize = 0;
    assert(all.skip(0) =~= all);
    while i < stmt.actions.entries.len()
        invariant
            attrs.wf(),
            stmt.wf(),
            match_sets.wf(),
            all == stmt_actions(*stmt),
            i <= all.len(),
            run_actions(old(attrs)@, all, deciding, *match_sets) == run_actions(
                attrs@,
                all.skip(i as int),
                deciding,
                *match_sets,
            ),
        decreases all.len() - i,
    {
        let action = &stmt.actions.entries[i].1;
        proof {
            entries_map_get(stmt.actions.entries@, i as int);
            assert(all.skip(i as int)[0] == all[i as int]);
            assert(all.skip(i as int).drop_first() =~= all.skip(i + 1));
        }
        if matches!(action, PolicyAction::Accept(_)) == deciding {
            match process_stmt_action(attrs, action, match_sets) {
                PolicyActionResult::Continue => {},
                PolicyActionResult::Accept => {
                    return PolicyActionResult::Accept;
                },
                PolicyActionResult::Reject => {
                    return PolicyActionResult::Reject;
                },
            }
        }
        i += 1;
    }
    PolicyActionResult::Continue
}

/// Evaluates policies on a route: the statements of all policies in turn,
/// until one of them decides.
pub fn process_policies(
    afi_safi: AfiSafi,
    prefix: IpNetwork,
    rpinfo: RoutePolicyInfo,
    policies: &[Arc<Policy>],
    match_sets: &MatchSets,
    default_policy: DefaultPolicyType,
) -> (r: PolicyResult<RoutePolicyInfo>)
    requires
        rpinfo.attrs.wf(),
        policies_wf(policies@),
        match_sets.wf(),
    ensures
        result_model(r) == policy_outcome(
            afi_safi,
            prefix,
            rpinfo@,
            all_stmts(policies@),
            *match_sets,
            default_policy,
            false,
        ),
        r matches PolicyResult::Accept(info) ==> info.attrs.wf(),
{
    let mut info = rpinfo.duplicate();
    let mut matched = false;
    let ghost total = policy_outcome(
        afi_safi,
        prefix,
        rpinfo@,
        all_stmts(policies@),
        *match_sets,
        default_policy,
        false,
    );
    let mut i: usize = 0;
    assert(policies@.skip(0) =~= policies@);
    while i < policies.len()
        invariant
            policies_wf(policies@),
            match_sets.wf(),
            total == policy_outcome(
                afi_safi,
                prefix,
                rpinfo@,
                all_stmts(policies@),
                *match_sets,
                default_policy,
                false,
            ),
            info.attrs.wf(),
            i <= policies@.len(),
            total == policy_outcome(
                afi_safi,
                prefix,
                info@,
                all_stmts(policies@.skip(i as int)),
                *match_sets,
                default_policy,
                matched,
            ),
        decreases policies@.len() - i,
    {
        let policy = &policies[i];
        let ghost rest = all_stmts(policies@.skip(i + 1));
        let mut j: usize = 0;
        proof {
            assert(policies@.skip(i as int)[0] == policies@[i as int]);
            assert(policies@.skip(i as int).drop_first() =~= policies@.skip(i + 1));
            assert(policy.stmts@.skip(0) =~= policy.stmts@);
        }
        while j < policy.stmts.len()
            invariant
                policy.wf(),
                match_sets.wf(),
                total == policy_outcome(
                    afi_safi,
                    prefix,
                    rpinfo@,
                    all_stmts(policies@),
                    *match_sets,
                    default_policy,
                    false,
                ),
                info.attrs.wf(),
                j <= policy.stmts@.len(),
                total == policy_outcome(
                    afi_safi,
                    prefix,
                    info@,
                    policy.stmts@.skip(j as int) + rest,
                    *match_sets,
                    default_policy,
                    matched,
                ),
            decreases policy.stmts@.len() - j,
        {
            let stmt = &policy.stmts[j];
            proof {
                let s = policy.stmts@.skip(j as int) + rest;
                assert(s[0] == policy.stmts@[j as int]);
                assert(s.drop_first() =~= policy.stmts@.skip(j + 1) + rest);
            }
            if stmt_conditions_met(afi_safi, &prefix, &info, stmt, match_sets) {
                matched = true;
                let flow = run_stmt_actions(&mut info.attrs, stmt, false, match_sets);
                match flow {
                    PolicyActionResult::Continue => {},
                    PolicyActionResult::Accept => {
                        return PolicyResult::Accept(info);
                    },
                    PolicyActionResult::Reject => {
                        return PolicyResult::Reject;
                    },
                }
                let flow = run_stmt_actions(&mut info.attrs, stmt, true, match_sets);
                match flow {
                    PolicyActionResult::Continue => {},
                    PolicyActionResult::Accept => {
                        return PolicyResult::Accept(info);
                    },
                    PolicyActionResult::Reject => {
                        return PolicyResult::Reject;
                    },
                }
            }
            j += 1;
        }
        proof {
            assert(policy.stmts@.skip(j as int) + rest =~= rest);
        }
        i += 1;
    }
    if !matched && default_policy == DefaultPolicyType::RejectRoute {
        return PolicyResult::Reject;
    }
    PolicyResult::Accept(info)
}

/// The decisions that the policy engine hands back.
pub enum PolicyResultMsg {
    Neighbor {
        policy_type: PolicyType,
        nbr_addr: IpAddr,
        afi_safi: AfiSafi,
        routes: Vec<(IpNetwork, PolicyResult<RoutePolicyInfo>)>,
        /// The identifiers of the paths on which the routes are.
        path_ids: Vec<u32>,
    },
    Redistribute { afi_safi: AfiSafi, prefix: IpNetwork, result: PolicyResult<RoutePolicyInfo> },
}

/// Whether `results` holds the decision on each of `routes`, in order.
pub open spec fn decided(
    routes: Seq<(IpNetwork, RoutePolicyInfo)>,
    results: Seq<(IpNetwork, PolicyResult<RoutePolicyInfo>)>,
    afi_safi: AfiSafi,
    policies: Seq<Arc<Policy>>,
    sets: MatchSets,
    default_policy: DefaultPolicyType,
) -> bool {
    results.len() == routes.len() && forall|i: int|
        0 <= i < routes.len() ==> (#[trigger] results[i]).0 == routes[i].0 && result_model(results[i].1)
            == policy_outcome(
            afi_safi,
            routes[i].0,
            routes[i].1@,
            all_stmts(policies),
            sets,
            default_policy,
            false,
        )
}

/// Applies import or export policies of a neighbor to routes and returns the
/// message that carries the decisions.
pub fn neighbor_apply(
    policy_type: PolicyType,
    nbr_addr: IpAddr,
    afi_safi: AfiSafi,
    routes: &Vec<(IpNetwork, RoutePolicyInfo)>,
    path_ids: &Vec<u32>,
    policies: &[Arc<Policy>],
    match_sets: &MatchSets,
    default_policy: DefaultPolicyType,
) -> (r: PolicyResultMsg)
    requires
        forall|i: int| 0 <= i < routes@.len() ==> (#[trigger] routes@[i]).1.attrs.wf(),
        policies_wf(policies@),
        match_sets.wf(),
    ensures
        r matches PolicyResultMsg::Neighbor {
            policy_type: t,
            nbr_addr: n,
            afi_safi: a,
            routes: results,
            path_ids: ids,
        } && t == policy_type && n == nbr_addr && a == afi_safi && ids@ == path_ids@ && decided(
            routes@,
            results@,
            afi_safi,
            policies@,
            *match_sets,
            default_policy,
        ),
{
    let mut results: Vec<(IpNetwork, PolicyResult<RoutePolicyInfo>)> = Vec::new();
    let mut i: usize = 0;
    assert(routes@.take(0) =~= Seq::<(IpNetwork, RoutePolicyInfo)>::empty());
    while i < routes.len()
        invariant
            forall|i: int| 0 <= i < routes@.len() ==> (#[trigger] routes@[i]).1.attrs.wf(),
            policies_wf(policies@),
            match_sets.wf(),
            i <= routes@.len(),
            decided(routes@.take(i as int), results@, afi_safi, policies@, *match_sets, default_policy),
        decreases routes@.len() - i,
    {
        let prefix = routes[i].0;
        let result = process_policies(
            afi_safi,
            prefix,
            routes[i].1.duplicate(),
            policies,
            match_sets,
            default_policy,
        );
        results.push((prefix, result));
        i += 1;
    }
    assert(routes@.take(i as int) =~= routes@);
    PolicyResultMsg::Neighbor { policy_type, nbr_addr, afi_safi, routes: results, path_ids: path_ids.clone() }
}

/// Applies import policies to a redistributed route and returns the message
/// that carries the decision.
pub fn redistribute_apply(
    afi_safi: AfiSafi,
    prefix: IpNetwork,
    rpinfo: RoutePolicyInfo,
    policies: &[Arc<Policy>],
    match_sets: &MatchSets,
    default_policy: DefaultPolicyType,
) -> (r: PolicyResultMsg)
    requires
        rpinfo.attrs.wf(),
        policies_wf(policies@),
        match_sets.wf(),
    ensures
        r matches PolicyResultMsg::Redistribute { afi_safi: a, prefix: p, result } && a == afi_safi && p == prefix
            && result_model(result) == policy_outcome(
            afi_safi,
            prefix,
            rpinfo@,
            all_stmts(policies@),
            *match_sets,
            default_policy,
            false,
        ),
{
    let result = process_policies(afi_safi, prefix, rpinfo, policies, match_sets, default_policy);
    PolicyResultMsg::Redistribute { afi_safi, prefix, result }
}

/// Changing communities never leaves a route with an empty list.
pub proof fn no_empty_comm_list<V>(options: BgpSetCommOptions, comms: Set<V>, list: Option<Set<V>>)
    requires
        list != Some(Set::<V>::empty()),
    ensures
        comms_after(options, comms, list) != Some(Set::<V>::empty()),
{
}

/// Adding communities and removing them again leaves none of them.
pub proof fn removed_comms_are_gone<V>(comms: Set<V>, list: Option<Set<V>>, c: V)
    requires
        comms.contains(c),
    ensures
        comms_after(BgpSetCommOptions::Remove, comms, list) matches Some(l) ==> !l.contains(c),
        comms_after(BgpSetCommOptions::Add, comms, list) matches Some(l) && l.contains(c),
        comms_after(BgpSetCommOptions::Replace, comms, list) == Some(comms),
{
    assert(comms != Set::<V>::empty());
    match list {
        Some(l) => {
            assert(l.union(comms).contains(c));
            assert(l.union(comms) != Set::<V>::empty());
        },
        None => {},
    }
}

/// An action that refers to a community set which is not defined rejects the
/// route.
pub proof fn undefined_comm_set_rejects(
    m: AttrsModel,
    options: BgpSetCommOptions,
    name: String,
    sets: MatchSets,
)
    requires
        !sets.bgp.comms@.contains_key(name@),
    ensures
        action_effect(
            m,
            PolicyAction::Bgp(BgpPolicyAction::SetComm { options, method: BgpSetCommMethod::Reference(name) }),
            sets,
        ).1 == PolicyActionResult::Reject,
{
}

/// A condition on a community set that is not defined is never met.
pub proof fn undefined_comm_set_matches_nothing(
    afi_safi: AfiSafi,
    prefix: IpNetwork,
    info: InfoModel,
    stmt: PolicyStmt,
    name: String,
    match_type: MatchSetType,
    sets: MatchSets,
)
    requires
        !sets.bgp.comms@.contains_key(name@),
    ensures
        !condition_met(
            afi_safi,
            prefix,
            info,
            stmt,
            PolicyCondition::Bgp(BgpPolicyCondition::MatchCommSet { value: name, match_type }),
            sets,
        ),
{
}

/// A policy changes nothing of an accepted route but its attributes.
pub proof fn only_attributes_change(
    afi_safi: AfiSafi,
    prefix: IpNetwork,
    info: InfoModel,
    stmts: Seq<PolicyStmt>,
    sets: MatchSets,
    default_policy: DefaultPolicyType,
    matched: bool,
)
    ensures
        policy_outcome(afi_safi, prefix, info, stmts, sets, default_policy, matched) matches PolicyResult::Accept(
            r,
        ) ==> r.origin == info.origin && r.route_type == info.route_type && r.tag == info.tag && r.opaque_attrs
            == info.opaque_attrs,
    decreases stmts.len(),
{
    if stmts.len() > 0 {
        if !stmt_matches(afi_safi, prefix, info, stmts[0], sets) {
            only_attributes_change(afi_safi, prefix, info, stmts.drop_first(), sets, default_policy, matched);
        } else {
            let (attrs, flow) = stmt_effect(info.attrs, stmts[0], sets);
            let changed = InfoModel { attrs, ..info };
            if flow == PolicyActionResult::Continue {
                only_attributes_change(afi_safi, prefix, changed, stmts.drop_first(), sets, default_policy, true);
            }
        }
    }
}

/// A route that no statement matches goes by the default policy, unchanged.
pub proof fn unmatched_route_goes_by_default(
    afi_safi: AfiSafi,
    prefix: IpNetwork,
    info: InfoModel,
    stmts: Seq<PolicyStmt>,
    sets: MatchSets,
    default_policy: DefaultPolicyType,
)
    requires
        forall|i: int| 0 <= i < stmts.len() ==> !stmt_matches(afi_safi, prefix, info, #[trigger] stmts[i], sets),
    ensures
        policy_outcome(afi_safi, prefix, info, stmts, sets, default_policy, false) == (match default_policy {
            DefaultPolicyType::AcceptRoute => PolicyResult::Accept(info),
            DefaultPolicyType::RejectRoute => PolicyResult::Reject,
        }),
    decreases stmts.len(),
{
    if stmts.len() > 0 {
        assert(!stmt_matches(afi_safi, prefix, info, stmts[0], sets));
        let rest = stmts.drop_first();
        assert forall|i: int| 0 <= i < rest.len() implies !stmt_matches(
            afi_safi,
            prefix,
            info,
            #[trigger] rest[i],
            sets,
        ) by {
            assert(rest[i] == stmts[i + 1]);
        }
        unmatched_route_goes_by_default(afi_safi, prefix, info, rest, sets, default_policy);
    }
}

/// What comes behind a matching statement that decides does not matter, and
/// the decision is made on the attributes that the statement left.
pub proof fn first_decision_stands(
    afi_safi: AfiSafi,
    prefix: IpNetwork,
    info: InfoModel,
    stmt: PolicyStmt,
    rest: Seq<PolicyStmt>,
    sets: MatchSets,
    default_policy: DefaultPolicyType,
    matched: bool,
)
    requires
        stmt_matches(afi_safi, prefix, info, stmt, sets),
        stmt_effect(info.attrs, stmt, sets).1 != PolicyActionResult::Continue,
    ensures
        policy_outcome(afi_safi, prefix, info, seq![stmt] + rest, sets, default_policy, matched) == (if stmt_effect(
            info.attrs,
            stmt,
            sets,
        ).1 == PolicyActionResult::Accept {
            PolicyResult::Accept(InfoModel { attrs: stmt_effect(info.attrs, stmt, sets).0, ..info })
        } else {
            PolicyResult::Reject
        }),
{
    let s = seq![stmt] + rest;
    assert(s[0] == stmt);
}

}
