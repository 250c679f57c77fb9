//! Configuration of routing policies and of the sets that they refer to.
use crate::bgp::Comm;
use crate::bgp::ExtComm;
use crate::bgp::Extv6Comm;
use crate::bgp::LargeComm;
use crate::bgp_text::comm_of;
use crate::bgp_text::large_comm_named;
use crate::ip::AddressFamily;
use crate::ip::IpAddr;
use crate::ord::models;
use crate::ord::models_insert;
use crate::ord::models_remove;
use crate::ord::Duplicate;
use crate::ord::Ranked;
use crate::ord::SortedMap;
use crate::ord::SortedSet;
use crate::policy_model::stmt_models;
use crate::policy_model::ActionModel;
use crate::policy_model::ConditionModel;
use crate::policy_model::MatchSetsModel;
use crate::policy_model::MembersModel;
use crate::policy_model::PolicyModel;
use crate::policy_model::StmtModel;
use crate::policy_stmt_cfg::stmt_apply;
use crate::policy_stmt_cfg::stmt_change_applies;
use crate::policy_stmt_cfg::stmt_changed;
use crate::policy_stmt_cfg::StmtChange;
use crate::policy_types::comm_sets_wf;
use crate::policy_types::stmt_index;
use crate::policy_types::stmt_index_is;
use crate::policy_types::with_stmt;
use crate::policy_types::BgpAsPathSet;
use crate::policy_types::BgpCommunitySet;
use crate::policy_types::IpPrefixRange;
use crate::policy_types::MatchSetRestrictedType;
use crate::policy_types::MatchSetType;
use crate::policy_types::MatchSets;
use crate::policy_types::NeighborSet;
use crate::policy_types::Policy;
use crate::policy_types::PolicyActionType;
use crate::policy_types::PolicyConditionType;
use crate::policy_types::PolicyStmt;
use crate::policy_types::PrefixSet;
use crate::policy_types::PrefixSetKey;
use crate::policy_types::TagSet;
use crate::text::parse_number;
use crate::text::parsed;
use std::sync::Arc;
use vstd::prelude::*;
use vstd::string::StringExecFns;

verus! {

/// The list entry that a change of the configuration is within.
pub enum ListEntry {
    NoEntry,
    PrefixSet(String, AddressFamily),
    NeighborSet(String),
    TagSet(String),
    AsPathSet(String),
    CommSet(String),
    ExtCommSet(String),
    Extv6CommSet(String),
    LargeCommSet(String),
    Policy(String),
    PolicyStmt(String, String),
}

impl ListEntry {
    pub fn into_prefix_set(self) -> (r: Option<PrefixSetKey>)
        ensures
            r == match self {
                ListEntry::PrefixSet(name, mode) => Some(PrefixSetKey { name, mode }),
                _ => None,
            },
    {
        match self {
            ListEntry::PrefixSet(name, mode) => Some(PrefixSetKey { name, mode }),
            _ => None,
        }
    }

    pub fn into_neighbor_set(self) -> (r: Option<String>)
        ensures
            r == match self {
                ListEntry::NeighborSet(name) => Some(name),
                _ => None,
            },
    {
        match self {
            ListEntry::NeighborSet(name) => Some(name),
            _ => None,
        }
    }

    pub fn into_tag_set(self) -> (r: Option<String>)
        ensures
            r == match self {
                ListEntry::TagSet(name) => Some(name),
                _ => None,
            },
    {
        match self {
            ListEntry::TagSet(name) => Some(name),
            _ => None,
        }
    }

    pub fn into_as_path_set(self) -> (r: Option<String>)
        ensures
            r == match self {
                ListEntry::AsPathSet(name) => Some(name),
                _ => None,
            },
    {
        match self {
            ListEntry::AsPathSet(name) => Some(name),
            _ => None,
        }
    }

    pub fn into_comm_set(self) -> (r: Option<String>)
        ensures
            r == match self {
                ListEntry::CommSet(name) => Some(name),
                _ => None,
            },
    {
        match self {
            ListEntry::CommSet(name) => Some(name),
            _ => None,
        }
    }

    pub fn into_ext_comm_set(self) -> (r: Option<String>)
        ensures
            r == match self {
                ListEntry::ExtCommSet(name) => Some(name),
                _ => None,
            },
    {
        match self {
            ListEntry::ExtCommSet(name) => Some(name),
            _ => None,
        }
    }

    pub fn into_extv6_comm_set(self) -> (r: Option<String>)
        ensures
            r == match self {
                ListEntry::Extv6CommSet(name) => Some(name),
                _ => None,
            },
    {
        match self {
            ListEntry::Extv6CommSet(name) => Some(name),
            _ => None,
        }
    }

    pub fn into_large_comm_set(self) -> (r: Option<String>)
        ensures
            r == match self {
                ListEntry::LargeCommSet(name) => Some(name),
                _ => None,
            },
    {
        match self {
            ListEntry::LargeCommSet(name) => Some(name),
            _ => None,
        }
    }

    pub fn into_policy(self) -> (r: Option<String>)
        ensures
            r == match self {
                ListEntry::Policy(name) => Some(name),
                _ => None,
            },
    {
        match self {
            ListEntry::Policy(name) => Some(name),
            _ => None,
        }
    }

    pub fn into_policy_stmt(self) -> (r: Option<(String, String)>)
        ensures
            r == match self {
                ListEntry::PolicyStmt(policy, stmt) => Some((policy, stmt)),
                _ => None,
            },
    {
        match self {
            ListEntry::PolicyStmt(policy, stmt) => Some((policy, stmt)),
            _ => None,
        }
    }
}

/// What follows from changes of the configuration.
pub enum Event {
    MatchSetsUpdate,
    PolicyChange(String),
    PolicyDelete(String),
}

/// The configured policies, and the sets that they refer to.
pub struct Master {
    pub match_sets: MatchSets,
    pub policies: SortedMap<String, Policy>,
}

impl Master {
    /// Sets and policies are well formed, and each policy is kept under its name.
    pub open spec fn wf(&self) -> bool {
        &&& self.match_sets.wf()
        &&& self.policies.wf()
        &&& forall|k: Seq<char>| #[trigger]
            self.policies@.contains_key(k) ==> self.policies@[k].wf() && self.policies@[k].name@ == k
    }

    /// A configuration without sets and policies.
    pub fn new() -> (r: Self)
        ensures
            r.wf(),
            r.match_sets.holds_nothing(),
            r.policies@ == Map::<Seq<char>, Policy>::empty(),
    {
        Master { match_sets: MatchSets::default(), policies: SortedMap::new() }
    }
}

/// Whether a text is a regular expression.
pub uninterp spec fn valid_regex(pattern: Seq<char>) -> bool;

/// `regex::Regex::new`: whether the expression compiles.
#[verifier::external_body]
fn compiles(pattern: &str) -> (r: bool)
    ensures
        r == valid_regex(pattern@),
{
    regex::Regex::new(pattern).is_ok()
}

/// A set after a member is added: a literal, or else a regular expression. A
/// text that is neither is ignored.
pub open spec fn member_added<T>(m: MembersModel<T>, literal: Option<T>, pattern: Seq<char>) -> MembersModel<T> {
    match literal {
        Some(x) => MembersModel { literals: m.literals.insert(x), ..m },
        None => if valid_regex(pattern) {
            MembersModel { regexes: m.regexes.insert(pattern), ..m }
        } else {
            m
        },
    }
}

/// A set after a member is removed.
pub open spec fn member_removed<T>(m: MembersModel<T>, literal: Option<T>, pattern: Seq<char>) -> MembersModel<T> {
    match literal {
        Some(x) => MembersModel { literals: m.literals.remove(x), ..m },
        None => if valid_regex(pattern) {
            MembersModel { regexes: m.regexes.remove(pattern), ..m }
        } else {
            m
        },
    }
}

/// The AS number that a text stands for.
pub open spec fn as_number(value: Seq<char>) -> Option<u32> {
    match parsed(value, u32::MAX as nat) {
        Some(n) => Some(n as u32),
        None => None,
    }
}

/// Adds a member to a set of AS paths: an AS number, or else the regular
/// expression `pattern` that the text stands for.
pub fn as_path_set_member_add(set: &mut BgpAsPathSet, value: &str, pattern: String)
    requires
        old(set).wf(),
    ensures
        final(set).wf(),
        final(set)@ == member_added(old(set)@, as_number(value@), pattern@),
{
    if let Some(asn) = parse_number(value, u32::MAX) {
        set.literals.insert(asn);
    } else if compiles(pattern.as_str()) {
        set.regexes.insert(pattern);
    }
}

/// Removes a member from a set of AS paths.
pub fn as_path_set_member_remove(set: &mut BgpAsPathSet, value: &str, pattern: String)
    requires
        old(set).wf(),
    ensures
        final(set).wf(),
        final(set)@ == member_removed(old(set)@, as_number(value@), pattern@),
{
    if let Some(asn) = parse_number(value, u32::MAX) {
        let _ = set.literals.remove(&asn);
    } else if compiles(pattern.as_str()) {
        let _ = set.regexes.remove(&pattern);
    }
}

/// Adds a member to a set of communities: the community that the text stands
/// for, or else a regular expression.
pub fn comm_set_member_add<T: Ranked>(set: &mut BgpCommunitySet<T>, value: String, comm: Option<T>)
    requires
        old(set).wf(),
    ensures
        final(set).wf(),
        final(set)@ == member_added(old(set)@, comm, value@),
{
    if let Some(comm) = comm {
        proof {
            comm.view_is_value();
        }
        set.literals.insert(comm);
    } else if compiles(value.as_str()) {
        set.regexes.insert(value);
    }
}

/// Removes a member from a set of communities.
pub fn comm_set_member_remove<T: Ranked>(set: &mut BgpCommunitySet<T>, value: String, comm: Option<T>)
    requires
        old(set).wf(),
    ensures
        final(set).wf(),
        final(set)@ == member_removed(old(set)@, comm, value@),
{
    if let Some(comm) = comm {
        proof {
            comm.view_is_value();
        }
        let _ = set.literals.remove(&comm);
    } else if compiles(value.as_str()) {
        let _ = set.regexes.remove(&value);
    }
}

/// Adds a member to a set of communities by its text.
pub fn comm_member_add(set: &mut BgpCommunitySet<Comm>, value: String)
    requires
        old(set).wf(),
    ensures
        final(set).wf(),
        final(set)@ == member_added(old(set)@, comm_of(value@), value@),
{
    let comm = Comm::try_from_yang(value.as_str());
    comm_set_member_add(set, value, comm);
}

/// Removes a member from a set of communities by its text.
pub fn comm_member_remove(set: &mut BgpCommunitySet<Comm>, value: String)
    requires
        old(set).wf(),
    ensures
        final(set).wf(),
        final(set)@ == member_removed(old(set)@, comm_of(value@), value@),
{
    let comm = Comm::try_from_yang(value.as_str());
    comm_set_member_remove(set, value, comm);
}

/// Adds a member to a set of large communities by its text.
pub fn large_comm_member_add(set: &mut BgpCommunitySet<LargeComm>, value: String)
    requires
        old(set).wf(),
    ensures
        final(set).wf(),
        final(set)@ == member_added(old(set)@, large_comm_named(value@), value@),
{
    let comm = LargeComm::try_from_yang(value.as_str());
    comm_set_member_add(set, value, comm);
}

/// Removes a member from a set of large communities by its text.
pub fn large_comm_member_remove(set: &mut BgpCommunitySet<LargeComm>, value: String)
    requires
        old(set).wf(),
    ensures
        final(set).wf(),
        final(set)@ == member_removed(old(set)@, large_comm_named(value@), value@),
{
    let comm = LargeComm::try_from_yang(value.as_str());
    comm_set_member_remove(set, value, comm);
}

/// A change to a set of plain items.
pub enum ItemChange<T> {
    Create,
    Delete,
    ItemAdd(T),
    ItemRemove(T),
}

/// A change to a set of communities. A member is a text, with the community that
/// it stands for.
pub enum MemberChange<T> {
    Create,
    Delete,
    MemberAdd { value: String, comm: Option<T> },
    MemberRemove { value: String, comm: Option<T> },
}

/// A change to a set of communities whose members are given by their texts.
pub enum TextChange {
    Create,
    Delete,
    MemberAdd(String),
    MemberRemove(String),
}

/// A change to a set of AS paths. A member is a text, with the regular expression
/// that it stands for.
pub enum AsPathChange {
    Create,
    Delete,
    MemberAdd { value: String, pattern: String },
    MemberRemove { value: String, pattern: String },
}

/// A change to a defined set.
pub enum MatchSetChange {
    Prefixes(PrefixSetKey, ItemChange<IpPrefixRange>),
    Neighbors(String, ItemChange<IpAddr>),
    Tags(String, ItemChange<u32>),
    AsPaths(String, AsPathChange),
    Comms(String, TextChange),
    ExtComms(String, MemberChange<ExtComm>),
    Extv6Comms(String, MemberChange<Extv6Comm>),
    LargeComms(String, TextChange),
}

/// Whether the set of a change is there, where it has to be.
pub open spec fn item_change_applies<K, V, T>(m: Map<K, V>, k: K, c: ItemChange<T>) -> bool {
    c is Create || c is Delete || m.contains_key(k)
}

/// Sets of communities after a change to one.
pub open spec fn members_changed<T>(
    m: Map<Seq<char>, MembersModel<T>>,
    name: Seq<char>,
    c: MemberChange<T>,
) -> Map<Seq<char>, MembersModel<T>> {
    match c {
        MemberChange::Create => m.insert(name, MembersModel { literals: Set::empty(), regexes: Set::empty() }),
        MemberChange::Delete => m.remove(name),
        MemberChange::MemberAdd { value, comm } => m.insert(name, member_added(m[name], comm, value@)),
        MemberChange::MemberRemove { value, comm } => m.insert(name, member_removed(m[name], comm, value@)),
    }
}

/// Whether the set of a change is there, where it has to be.
pub open spec fn member_change_applies<V, T>(m: Map<Seq<char>, V>, name: Seq<char>, c: MemberChange<T>) -> bool {
    c is Create || c is Delete || m.contains_key(name)
}

fn comm_sets_apply<T: Ranked>(
    sets: &mut SortedMap<String, BgpCommunitySet<T>>,
    name: String,
    change: MemberChange<T>,
)
    requires
        comm_sets_wf(*old(sets)),
        member_change_applies(old(sets)@, name@, change),
    ensures
        comm_sets_wf(*final(sets)),
        models(final(sets)@) == members_changed(models(old(sets)@), name@, change),
{
    let ghost before = sets@;
    match change {
        MemberChange::Create => {
            let set: BgpCommunitySet<T> = BgpCommunitySet::new();
            proof {
                models_insert(before, name@, set);
            }
            sets.insert(name, set);
        },
        MemberChange::Delete => {
            proof {
                models_remove(before, name@);
            }
            let _ = sets.remove(&name);
        },
        MemberChange::MemberAdd { value, comm } => {
            let set = sets.get_mut(&name).unwrap();
            comm_set_member_add(set, value, comm);
            proof {
                models_insert(before, name@, *set);
            }
        },
        MemberChange::MemberRemove { value, comm } => {
            let set = sets.get_mut(&name).unwrap();
            comm_set_member_remove(set, value, comm);
            proof {
                models_insert(before, name@, *set);
            }
        },
    }
}

/// A change by text, with the communities that the texts stand for.
pub open spec fn comm_change(c: TextChange) -> MemberChange<Comm> {
    match c {
        TextChange::Create => MemberChange::Create,
        TextChange::Delete => MemberChange::Delete,
        TextChange::MemberAdd(value) => MemberChange::MemberAdd { value, comm: comm_of(value@) },
        TextChange::MemberRemove(value) => MemberChange::MemberRemove { value, comm: comm_of(value@) },
    }
}

/// A change by text, with the large communities that the texts stand for.
pub open spec fn large_comm_change(c: TextChange) -> MemberChange<LargeComm> {
    match c {
        TextChange::Create => MemberChange::Create,
        TextChange::Delete => MemberChange::Delete,
        TextChange::MemberAdd(value) => MemberChange::MemberAdd { value, comm: large_comm_named(value@) },
        TextChange::MemberRemove(value) => MemberChange::MemberRemove { value, comm: large_comm_named(value@) },
    }
}

fn comm_texts_apply(sets: &mut SortedMap<String, BgpCommunitySet<Comm>>, name: String, change: TextChange)
    requires
        comm_sets_wf(*old(sets)),
        member_change_applies(old(sets)@, name@, comm_change(change)),
    ensures
        comm_sets_wf(*final(sets)),
        models(final(sets)@) == members_changed(models(old(sets)@), name@, comm_change(change)),
{
    let ghost before = sets@;
    match change {
        TextChange::Create => comm_sets_apply(sets, name, MemberChange::Create),
        TextChange::Delete => comm_sets_apply(sets, name, MemberChange::Delete),
        TextChange::MemberAdd(value) => {
            let set = sets.get_mut(&name).unwrap();
            comm_member_add(set, value);
            proof {
                models_insert(before, name@, *set);
            }
        },
        TextChange::MemberRemove(value) => {
            let set = sets.get_mut(&name).unwrap();
            comm_member_remove(set, value);
            proof {
                models_insert(before, name@, *set);
            }
        },
    }
}

fn large_comm_texts_apply(sets: &mut SortedMap<String, BgpCommunitySet<LargeComm>>, name: String, change: TextChange)
    requires
        comm_sets_wf(*old(sets)),
        member_change_applies(old(sets)@, name@, large_comm_change(change)),
    ensures
        comm_sets_wf(*final(sets)),
        models(final(sets)@) == members_changed(models(old(sets)@), name@, large_comm_change(change)),
{
    let ghost before = sets@;
    match change {
        TextChange::Create => comm_sets_apply(sets, name, MemberChange::Create),
        TextChange::Delete => comm_sets_apply(sets, name, MemberChange::Delete),
        TextChange::MemberAdd(value) => {
            let set = sets.get_mut(&name).unwrap();
            large_comm_member_add(set, value);
            proof {
                models_insert(before, name@, *set);
            }
        },
        TextChange::MemberRemove(value) => {
            let set = sets.get_mut(&name).unwrap();
            large_comm_member_remove(set, value);
            proof {
                models_insert(before, name@, *set);
            }
        },
    }
}

/// Whether the set of a change is there, where it has to be.
pub open spec fn as_path_change_applies<V>(m: Map<Seq<char>, V>, name: Seq<char>, c: AsPathChange) -> bool {
    c is Create || c is Delete || m.contains_key(name)
}

/// Sets of AS paths after a change to one.
pub open spec fn as_paths_changed(
    m: Map<Seq<char>, MembersModel<u32>>,
    name: Seq<char>,
    c: AsPathChange,
) -> Map<Seq<char>, MembersModel<u32>> {
    match c {
        AsPathChange::Create => m.insert(name, MembersModel { literals: Set::empty(), regexes: Set::empty() }),
        AsPathChange::Delete => m.remove(name),
        AsPathChange::MemberAdd { value, pattern } => m.insert(
            name,
            member_added(m[name], as_number(value@), pattern@),
        ),
        AsPathChange::MemberRemove { value, pattern } => m.insert(
            name,
            member_removed(m[name], as_number(value@), pattern@),
        ),
    }
}

pub open spec fn as_paths_wf(m: SortedMap<String, BgpAsPathSet>) -> bool {
    m.wf() && forall|k: Seq<char>| #[trigger] m@.contains_key(k) ==> m@[k].wf()
}

fn as_paths_apply(sets: &mut SortedMap<String, BgpAsPathSet>, name: String, change: AsPathChange)
    requires
        as_paths_wf(*old(sets)),
        as_path_change_applies(old(sets)@, name@, change),
    ensures
        as_paths_wf(*final(sets)),
        models(final(sets)@) == as_paths_changed(models(old(sets)@), name@, change),
{
    let ghost before = sets@;
    match change {
        AsPathChange::Create => {
            let set = BgpAsPathSet::new();
            proof {
                models_insert(before, name@, set);
            }
            sets.insert(name, set);
        },
        AsPathChange::Delete => {
            proof {
                models_remove(before, name@);
            }
            let _ = sets.remove(&name);
        },
        AsPathChange::MemberAdd { value, pattern } => {
            let set = sets.get_mut(&name).unwrap();
            as_path_set_member_add(set, value.as_str(), pattern);
            proof {
                models_insert(before, name@, *set);
            }
        },
        AsPathChange::MemberRemove { value, pattern } => {
            let set = sets.get_mut(&name).unwrap();
            as_path_set_member_remove(set, value.as_str(), pattern);
            proof {
                models_insert(before, name@, *set);
            }
        },
    }
}

/// Items after a change to a set that stays.
pub open spec fn items_changed<T>(s: Set<T>, c: ItemChange<T>) -> Set<T> {
    match c {
        ItemChange::ItemAdd(x) => s.insert(x),
        ItemChange::ItemRemove(x) => s.remove(x),
        _ => Set::empty(),
    }
}

/// Prefix sets after a change to one.
pub open spec fn prefixes_changed(
    m: Map<(Seq<char>, AddressFamily), (Seq<char>, AddressFamily, Set<IpPrefixRange>)>,
    k: (Seq<char>, AddressFamily),
    c: ItemChange<IpPrefixRange>,
) -> Map<(Seq<char>, AddressFamily), (Seq<char>, AddressFamily, Set<IpPrefixRange>)> {
    match c {
        ItemChange::Create => m.insert(k, (k.0, k.1, Set::empty())),
        ItemChange::Delete => m.remove(k),
        _ => m.insert(k, (m[k].0, m[k].1, items_changed(m[k].2, c))),
    }
}

/// Sets of named items after a change to one.
pub open spec fn named_changed<T>(
    m: Map<Seq<char>, (Seq<char>, Set<T>)>,
    k: Seq<char>,
    c: ItemChange<T>,
) -> Map<Seq<char>, (Seq<char>, Set<T>)> {
    match c {
        ItemChange::Create => m.insert(k, (k, Set::empty())),
        ItemChange::Delete => m.remove(k),
        _ => m.insert(k, (m[k].0, items_changed(m[k].1, c))),
    }
}

fn prefixes_apply(sets: &mut MatchSets, key: PrefixSetKey, change: ItemChange<IpPrefixRange>)
    requires
        old(sets).wf(),
        item_change_applies(old(sets).prefixes@, key@, change),
    ensures
        final(sets).wf(),
        final(sets)@ == (MatchSetsModel {
            prefixes: prefixes_changed(old(sets)@.prefixes, key@, change),
            ..old(sets)@
        }),
{
    let ghost before = sets.prefixes@;
    let ghost k = key@;
    match change {
        ItemChange::Create => {
            let set = PrefixSet { name: key.name.clone(), mode: key.mode, prefixes: SortedSet::new() };
            proof {
                models_insert(before, k, set);
            }
            sets.prefixes.insert(key, set);
        },
        ItemChange::Delete => {
            proof {
                models_remove(before, k);
            }
            let _ = sets.prefixes.remove(&key);
        },
        ItemChange::ItemAdd(range) => {
            let set = sets.prefixes.get_mut(&key).unwrap();
            set.prefixes.insert(range);
            proof {
                models_insert(before, k, *set);
            }
        },
        ItemChange::ItemRemove(range) => {
            let set = sets.prefixes.get_mut(&key).unwrap();
            let _ = set.prefixes.remove(&range);
            proof {
                models_insert(before, k, *set);
            }
        },
    }
}

fn neighbors_apply(sets: &mut MatchSets, name: String, change: ItemChange<IpAddr>)
    requires
        old(sets).wf(),
        item_change_applies(old(sets).neighbors@, name@, change),
    ensures
        final(sets).wf(),
        final(sets)@ == (MatchSetsModel {
            neighbors: named_changed(old(sets)@.neighbors, name@, change),
            ..old(sets)@
        }),
{
    let ghost before = sets.neighbors@;
    let ghost k = name@;
    match change {
        ItemChange::Create => {
            let set = NeighborSet { name: name.clone(), addrs: SortedSet::new() };
            proof {
                models_insert(before, k, set);
            }
            sets.neighbors.insert(name, set);
        },
        ItemChange::Delete => {
            proof {
                models_remove(before, k);
            }
            let _ = sets.neighbors.remove(&name);
        },
        ItemChange::ItemAdd(addr) => {
            let set = sets.neighbors.get_mut(&name).unwrap();
            set.addrs.insert(addr);
            proof {
                models_insert(before, k, *set);
            }
        },
        ItemChange::ItemRemove(addr) => {
            let set = sets.neighbors.get_mut(&name).unwrap();
            let _ = set.addrs.remove(&addr);
            proof {
                models_insert(before, k, *set);
            }
        },
    }
}

fn tags_apply(sets: &mut MatchSets, name: String, change: ItemChange<u32>)
    requires
        old(sets).wf(),
        item_change_applies(old(sets).tags@, name@, change),
    ensures
        final(sets).wf(),
        final(sets)@ == (MatchSetsModel { tags: named_changed(old(sets)@.tags, name@, change), ..old(sets)@ }),
{
    let ghost before = sets.tags@;
    let ghost k = name@;
    match change {
        ItemChange::Create => {
            let set = TagSet { name: name.clone(), tags: SortedSet::new() };
            proof {
                models_insert(before, k, set);
            }
            sets.tags.insert(name, set);
        },
        ItemChange::Delete => {
            proof {
                models_remove(before, k);
            }
            let _ = sets.tags.remove(&name);
        },
        ItemChange::ItemAdd(tag) => {
            let set = sets.tags.get_mut(&name).unwrap();
            set.tags.insert(tag);
            proof {
                models_insert(before, k, *set);
            }
        },
        ItemChange::ItemRemove(tag) => {
            let set = sets.tags.get_mut(&name).unwrap();
            let _ = set.tags.remove(&tag);
            proof {
                models_insert(before, k, *set);
            }
        },
    }
}

/// Whether the set of a change is there, where it has to be.
pub open spec fn set_change_applies(sets: MatchSets, c: MatchSetChange) -> bool {
    match c {
        MatchSetChange::Prefixes(key, c) => item_change_applies(sets.prefixes@, key@, c),
        MatchSetChange::Neighbors(name, c) => item_change_applies(sets.neighbors@, name@, c),
        MatchSetChange::Tags(name, c) => item_change_applies(sets.tags@, name@, c),
        MatchSetChange::AsPaths(name, c) => as_path_change_applies(sets.bgp.as_paths@, name@, c),
        MatchSetChange::Comms(name, c) => member_change_applies(sets.bgp.comms@, name@, comm_change(c)),
        MatchSetChange::ExtComms(name, c) => member_change_applies(sets.bgp.ext_comms@, name@, c),
        MatchSetChange::Extv6Comms(name, c) => member_change_applies(sets.bgp.extv6_comms@, name@, c),
        MatchSetChange::LargeComms(name, c) => member_change_applies(
            sets.bgp.large_comms@,
            name@,
            large_comm_change(c),
        ),
    }
}

/// The defined sets after a change.
pub open spec fn sets_changed(m: MatchSetsModel, c: MatchSetChange) -> MatchSetsModel {
    match c {
        MatchSetChange::Prefixes(key, c) => MatchSetsModel {
            prefixes: prefixes_changed(m.prefixes, key@, c),
            ..m
        },
        MatchSetChange::Neighbors(name, c) => MatchSetsModel {
            neighbors: named_changed(m.neighbors, name@, c),
            ..m
        },
        MatchSetChange::Tags(name, c) => MatchSetsModel { tags: named_changed(m.tags, name@, c), ..m },
        MatchSetChange::AsPaths(name, c) => MatchSetsModel {
            as_paths: as_paths_changed(m.as_paths, name@, c),
            ..m
        },
        MatchSetChange::Comms(name, c) => MatchSetsModel {
            comms: members_changed(m.comms, name@, comm_change(c)),
            ..m
        },
        MatchSetChange::ExtComms(name, c) => MatchSetsModel {
            ext_comms: members_changed(m.ext_comms, name@, c),
            ..m
        },
        MatchSetChange::Extv6Comms(name, c) => MatchSetsModel {
            extv6_comms: members_changed(m.extv6_comms, name@, c),
            ..m
        },
        MatchSetChange::LargeComms(name, c) => MatchSetsModel {
            large_comms: members_changed(m.large_comms, name@, large_comm_change(c)),
            ..m
        },
    }
}

/// Whether a change creates a set, which no one refers to yet.
pub open spec fn creates_set(c: MatchSetChange) -> bool {
    match c {
        MatchSetChange::Prefixes(_, c) => c is Create,
        MatchSetChange::Neighbors(_, c) => c is Create,
        MatchSetChange::Tags(_, c) => c is Create,
        MatchSetChange::AsPaths(_, c) => c is Create,
        MatchSetChange::Comms(_, c) => c is Create,
        MatchSetChange::ExtComms(_, c) => c is Create,
        MatchSetChange::Extv6Comms(_, c) => c is Create,
        MatchSetChange::LargeComms(_, c) => c is Create,
    }
}

fn is_creation(change: &MatchSetChange) -> (r: bool)
    ensures
        r == creates_set(*change),
{
    match change {
        MatchSetChange::Prefixes(_, c) => matches!(c, ItemChange::Create),
        MatchSetChange::Neighbors(_, c) => matches!(c, ItemChange::Create),
        MatchSetChange::Tags(_, c) => matches!(c, ItemChange::Create),
        MatchSetChange::AsPaths(_, c) => matches!(c, AsPathChange::Create),
        MatchSetChange::Comms(_, c) => matches!(c, TextChange::Create),
        MatchSetChange::ExtComms(_, c) => matches!(c, MemberChange::Create),
        MatchSetChange::Extv6Comms(_, c) => matches!(c, MemberChange::Create),
        MatchSetChange::LargeComms(_, c) => matches!(c, TextChange::Create),
    }
}

/// Changes a defined set. Protocols are told, unless the set is only created.
pub fn match_set_apply(master: &mut Master, change: MatchSetChange) -> (r: Option<Event>)
    requires
        old(master).wf(),
        set_change_applies(old(master).match_sets, change),
    ensures
        final(master).wf(),
        final(master).match_sets@ == sets_changed(old(master).match_sets@, change),
        final(master).policies == old(master).policies,
        r == if creates_set(change) {
            None
        } else {
            Some(Event::MatchSetsUpdate)
        },
{
    let created = is_creation(&change);
    match change {
        MatchSetChange::Prefixes(key, c) => prefixes_apply(&mut master.match_sets, key, c),
        MatchSetChange::Neighbors(name, c) => neighbors_apply(&mut master.match_sets, name, c),
        MatchSetChange::Tags(name, c) => tags_apply(&mut master.match_sets, name, c),
        MatchSetChange::AsPaths(name, c) => as_paths_apply(&mut master.match_sets.bgp.as_paths, name, c),
        MatchSetChange::Comms(name, c) => comm_texts_apply(&mut master.match_sets.bgp.comms, name, c),
        MatchSetChange::ExtComms(name, c) => comm_sets_apply(&mut master.match_sets.bgp.ext_comms, name, c),
        MatchSetChange::Extv6Comms(name, c) => comm_sets_apply(&mut master.match_sets.bgp.extv6_comms, name, c),
        MatchSetChange::LargeComms(name, c) => large_comm_texts_apply(&mut master.match_sets.bgp.large_comms, name, c),
    }
    if created {
        None
    } else {
        Some(Event::MatchSetsUpdate)
    }
}

/// Creates a policy without statements.
pub fn policy_create(master: &mut Master, name: String)
    requires
        old(master).wf(),
    ensures
        final(master).wf(),
        final(master).match_sets == old(master).match_sets,
        models(final(master).policies@) == models(old(master).policies@).insert(
            name@,
            PolicyModel { name: name@, stmts: Seq::empty() },
        ),
{
    let policy = Policy::new(name.clone());
    proof {
        models_insert(master.policies@, name@, policy);
        assert(stmt_models(policy.stmts@) =~= Seq::empty());
    }
    master.policies.insert(name, policy);
}

/// Deletes a policy.
pub fn policy_delete(master: &mut Master, name: String) -> (r: Event)
    requires
        old(master).wf(),
    ensures
        final(master).wf(),
        final(master).match_sets == old(master).match_sets,
        models(final(master).policies@) == models(old(master).policies@).remove(name@),
        r == Event::PolicyDelete(name),
{
    proof {
        models_remove(master.policies@, name@);
    }
    let _ = master.policies.remove(&name);
    Event::PolicyDelete(name)
}

/// A statement that matches everything and does nothing.
pub open spec fn empty_stmt(name: Seq<char>) -> StmtModel {
    StmtModel {
        name,
        prefix_set_match_type: MatchSetRestrictedType::Any,
        tag_set_match_type: MatchSetType::Any,
        conditions: Map::<PolicyConditionType, ConditionModel>::empty(),
        actions: Map::<PolicyActionType, ActionModel>::empty(),
    }
}

/// Statements with an empty one put in place of the one with its name, or behind
/// the others.
pub open spec fn stmt_created(p: Policy, name: Seq<char>) -> Seq<StmtModel> {
    let i = stmt_index(p.stmts@, name);
    if i >= 0 {
        p@.stmts.update(i, empty_stmt(name))
    } else {
        p@.stmts.push(empty_stmt(name))
    }
}

/// Creates a statement of a policy.
pub fn stmt_create(master: &mut Master, policy_name: &String, stmt_name: String) -> (r: Event)
    requires
        old(master).wf(),
        old(master).policies@.contains_key(policy_name@),
    ensures
        final(master).wf(),
        final(master).match_sets == old(master).match_sets,
        models(final(master).policies@) == models(old(master).policies@).insert(
            policy_name@,
            PolicyModel {
                name: policy_name@,
                stmts: stmt_created(old(master).policies@[policy_name@], stmt_name@),
            },
        ),
        r matches Event::PolicyChange(n) && n@ == policy_name@,
{
    let ghost before = master.policies@;
    let policy = master.policies.get_mut(policy_name).unwrap();
    let ghost stmts = policy.stmts@;
    let stmt = PolicyStmt::new(stmt_name);
    proof {
        stmt_index_is(stmts, stmt_name@);
        assert(models(stmt.conditions@) =~= Map::empty());
        assert(models(stmt.actions@) =~= Map::empty());
    }
    policy.stmt_add(stmt);
    proof {
        assert(stmt_models(policy.stmts@) =~= stmt_created(before[policy_name@], stmt_name@));
        models_insert(before, policy_name@, *policy);
    }
    Event::PolicyChange(policy.name.clone())
}

/// Deletes a statement of a policy.
pub fn stmt_delete(master: &mut Master, policy_name: &String, stmt_name: &String) -> (r: Event)
    requires
        old(master).wf(),
        old(master).policies@.contains_key(policy_name@),
    ensures
        final(master).wf(),
        final(master).match_sets == old(master).match_sets,
        models(final(master).policies@) == models(old(master).policies@).insert(
            policy_name@,
            PolicyModel {
                name: policy_name@,
                stmts: {
                    let p = old(master).policies@[policy_name@];
                    let i = stmt_index(p.stmts@, stmt_name@);
                    if i >= 0 {
                        p@.stmts.remove(i)
                    } else {
                        p@.stmts
                    }
                },
            },
        ),
        r matches Event::PolicyChange(n) && n@ == policy_name@,
{
    let ghost before = master.policies@;
    let policy = master.policies.get_mut(policy_name).unwrap();
    let ghost stmts = policy.stmts@;
    let ghost i = stmt_index(stmts, stmt_name@);
    proof {
        stmt_index_is(stmts, stmt_name@);
    }
    policy.stmt_remove(stmt_name);
    proof {
        if i >= 0 {
            assert(stmt_models(policy.stmts@) =~= stmt_models(stmts).remove(i));
        }
        models_insert(before, policy_name@, *policy);
    }
    Event::PolicyChange(policy.name.clone())
}

/// Changes a statement of a policy.
pub fn policy_stmt_apply(master: &mut Master, policy_name: &String, stmt_name: &String, change: StmtChange) -> (r: Event)
    requires
        old(master).wf(),
        old(master).policies@.contains_key(policy_name@),
        stmt_index(old(master).policies@[policy_name@].stmts@, stmt_name@) >= 0,
        stmt_change_applies(change),
    ensures
        final(master).wf(),
        final(master).match_sets == old(master).match_sets,
        models(final(master).policies@) == models(old(master).policies@).insert(
            policy_name@,
            PolicyModel {
                name: policy_name@,
                stmts: {
                    let p = old(master).policies@[policy_name@];
                    let i = stmt_index(p.stmts@, stmt_name@);
                    p@.stmts.update(i, stmt_changed(p@.stmts[i], change))
                },
            },
        ),
        r matches Event::PolicyChange(n) && n@ == policy_name@,
{
    let ghost before = master.policies@;
    let policy = master.policies.get_mut(policy_name).unwrap();
    let ghost stmts = policy.stmts@;
    proof {
        stmt_index_is(stmts, stmt_name@);
        change_keeps_name(stmts[stmt_index(stmts, stmt_name@)]@, change);
    }
    let i: usize = policy.stmt_position(stmt_name).unwrap();
    let ghost changed = stmt_changed(stmts[i as int]@, change);
    stmt_apply(&mut policy.stmts[i], change);
    proof {
        assert(policy.stmts@[i as int]@ == changed);
        assert(policy.stmts@ =~= stmts.update(i as int, policy.stmts@[i as int]));
        assert(stmt_models(policy.stmts@) =~= stmt_models(stmts).update(i as int, changed));
        assert forall|a: int, b: int| 0 <= a < b < policy.stmts@.len() implies (#[trigger] policy.stmts@[a]).name@ != (
        #[trigger] policy.stmts@[b]).name@ by {
            assert(policy.stmts@[a].name@ == stmts[a].name@);
            assert(policy.stmts@[b].name@ == stmts[b].name@);
        }
        models_insert(before, policy_name@, *policy);
    }
    Event::PolicyChange(policy.name.clone())
}

/// Changes to a statement keep its name.
pub proof fn change_keeps_name(m: StmtModel, c: StmtChange)
    ensures
        stmt_changed(m, c).name == m.name,
{
}

/// What protocols are told.
pub enum Notice {
    PolicyMatchSetsUpd(Arc<MatchSets>),
    PolicyUpd(Arc<Policy>),
    PolicyDel(String),
}

/// Processes an event: a copy of what changed is shared with the protocols.
pub fn process_event(master: &Master, event: Event) -> (r: Notice)
    requires
        master.wf(),
        event matches Event::PolicyChange(name) ==> master.policies@.contains_key(name@),
    ensures
        match event {
            Event::MatchSetsUpdate => r matches Notice::PolicyMatchSetsUpd(sets) && (*sets)@ == master.match_sets@
                && sets.wf(),
            Event::PolicyChange(name) => r matches Notice::PolicyUpd(policy) && (*policy)@
                == master.policies@[name@]@ && policy.wf(),
            Event::PolicyDelete(name) => r == Notice::PolicyDel(name),
        },
{
    match event {
        Event::MatchSetsUpdate => Notice::PolicyMatchSetsUpd(Arc::new(master.match_sets.copy_of())),
        Event::PolicyChange(name) => Notice::PolicyUpd(Arc::new(master.policies.get(&name).unwrap().copy_of())),
        Event::PolicyDelete(name) => Notice::PolicyDel(name),
    }
}

/// A statement that is new to a policy comes last, and the others keep their
/// places, whatever the names are.
pub proof fn new_statement_comes_last(stmts: Seq<PolicyStmt>, stmt: PolicyStmt)
    requires
        forall|i: int| 0 <= i < stmts.len() ==> (#[trigger] stmts[i]).name@ != stmt.name@,
    ensures
        with_stmt(stmts, stmt) == stmts.push(stmt),
{
    stmt_index_is(stmts, stmt.name@);
}

/// Removing a member of a set undoes adding it, a literal or a regular
/// expression.
pub proof fn member_removal_undoes_addition<T>(m: MembersModel<T>, literal: Option<T>, pattern: Seq<char>)
    requires
        match literal {
            Some(x) => !m.literals.contains(x),
            None => !m.regexes.contains(pattern),
        },
    ensures
        member_removed(member_added(m, literal, pattern), literal, pattern) == m,
{
    match literal {
        Some(x) => {
            assert(m.literals.insert(x).remove(x) =~= m.literals);
        },
        None => {
            assert(m.regexes.insert(pattern).remove(pattern) =~= m.regexes);
        },
    }
}

/// Deleting a defined set undoes creating it.
pub proof fn set_deletion_undoes_creation<T>(m: Map<Seq<char>, MembersModel<T>>, name: Seq<char>)
    requires
        !m.contains_key(name),
    ensures
        members_changed(members_changed(m, name, MemberChange::Create), name, MemberChange::Delete) == m,
{
    assert(members_changed(members_changed(m, name, MemberChange::Create), name, MemberChange::Delete) =~= m);
}

/// The configuration as a mathematical value.
pub struct MasterModel {
    pub match_sets: MatchSetsModel,
    pub policies: Map<Seq<char>, PolicyModel>,
}

impl View for Master {
    type V = MasterModel;

    open spec fn view(&self) -> MasterModel {
        MasterModel { match_sets: self.match_sets@, policies: models(self.policies@) }
    }
}

/// A change of the configuration: to a defined set, to a policy, or to a
/// statement of a policy.
pub enum ConfigChange {
    MatchSet(MatchSetChange),
    PolicyCreate(String),
    PolicyDelete(String),
    StmtCreate(String, String),
    StmtDelete(String, String),
    Stmt(String, String, StmtChange),
}

/// The position of the statement with a name.
pub open spec fn model_index(stmts: Seq<StmtModel>, name: Seq<char>) -> int
    decreases stmts.len(),
{
    if stmts.len() == 0 {
        -1
    } else if stmts.last().name == name {
        stmts.len() - 1
    } else {
        model_index(stmts.drop_last(), name)
    }
}

proof fn index_of_models(stmts: Seq<PolicyStmt>, name: Seq<char>)
    ensures
        model_index(stmt_models(stmts), name) == stmt_index(stmts, name),
    decreases stmts.len(),
{
    if stmts.len() > 0 {
        index_of_models(stmts.drop_last(), name);
        assert(stmt_models(stmts).drop_last() =~= stmt_models(stmts.drop_last()));
    }
}

/// Whether what a change refers to is configured.
pub open spec fn config_change_applies(m: Master, c: ConfigChange) -> bool {
    match c {
        ConfigChange::MatchSet(c) => set_change_applies(m.match_sets, c),
        ConfigChange::PolicyCreate(_) | ConfigChange::PolicyDelete(_) => true,
        ConfigChange::StmtCreate(policy, _) | ConfigChange::StmtDelete(policy, _) => m.policies@.contains_key(policy@),
        ConfigChange::Stmt(policy, stmt, c) => m.policies@.contains_key(policy@) && stmt_index(
            m.policies@[policy@].stmts@,
            stmt@,
        ) >= 0 && stmt_change_applies(c),
    }
}

/// A policy with other statements.
pub open spec fn with_stmts(m: MasterModel, policy: Seq<char>, stmts: Seq<StmtModel>) -> MasterModel {
    MasterModel { policies: m.policies.insert(policy, PolicyModel { name: policy, stmts }), ..m }
}

/// The configuration after a change.
pub open spec fn config_changed(m: MasterModel, c: ConfigChange) -> MasterModel {
    match c {
        ConfigChange::MatchSet(c) => MasterModel { match_sets: sets_changed(m.match_sets, c), ..m },
        ConfigChange::PolicyCreate(name) => with_stmts(m, name@, Seq::empty()),
        ConfigChange::PolicyDelete(name) => MasterModel { policies: m.policies.remove(name@), ..m },
        ConfigChange::StmtCreate(policy, stmt) => {
            let stmts = m.policies[policy@].stmts;
            let i = model_index(stmts, stmt@);
            with_stmts(
                m,
                policy@,
                if i >= 0 {
                    stmts.update(i, empty_stmt(stmt@))
                } else {
                    stmts.push(empty_stmt(stmt@))
                },
            )
        },
        ConfigChange::StmtDelete(policy, stmt) => {
            let stmts = m.policies[policy@].stmts;
            let i = model_index(stmts, stmt@);
            with_stmts(
                m,
                policy@,
                if i >= 0 {
                    stmts.remove(i)
                } else {
                    stmts
                },
            )
        },
        ConfigChange::Stmt(policy, stmt, c) => {
            let stmts = m.policies[policy@].stmts;
            let i = model_index(stmts, stmt@);
            with_stmts(m, policy@, stmts.update(i, stmt_changed(stmts[i], c)))
        },
    }
}

/// What follows from a change, with the name of the policy by value.
pub enum EventModel {
    MatchSetsUpdate,
    PolicyChange(Seq<char>),
    PolicyDelete(Seq<char>),
}

impl View for Event {
    type V = EventModel;

    open spec fn view(&self) -> EventModel {
        match *self {
            Event::MatchSetsUpdate => EventModel::MatchSetsUpdate,
            Event::PolicyChange(name) => EventModel::PolicyChange(name@),
            Event::PolicyDelete(name) => EventModel::PolicyDelete(name@),
        }
    }
}

/// Whether a change creates a set or a policy, which no one refers to yet.
pub open spec fn is_silent(c: ConfigChange) -> bool {
    match c {
        ConfigChange::MatchSet(c) => creates_set(c),
        ConfigChange::PolicyCreate(_) => true,
        _ => false,
    }
}

/// What follows from a change.
pub open spec fn config_event(c: ConfigChange) -> Option<EventModel> {
    if is_silent(c) {
        None
    } else {
        Some(
            match c {
                ConfigChange::MatchSet(_) => EventModel::MatchSetsUpdate,
                ConfigChange::PolicyCreate(name) => EventModel::PolicyChange(name@),
                ConfigChange::PolicyDelete(name) => EventModel::PolicyDelete(name@),
                ConfigChange::StmtCreate(policy, _) => EventModel::PolicyChange(policy@),
                ConfigChange::StmtDelete(policy, _) => EventModel::PolicyChange(policy@),
                ConfigChange::Stmt(policy, _, _) => EventModel::PolicyChange(policy@),
            },
        )
    }
}

/// Changes the configuration, and returns what follows.
pub fn config_apply(master: &mut Master, change: ConfigChange) -> (r: Option<Event>)
    requires
        old(master).wf(),
        config_change_applies(*old(master), change),
    ensures
        final(master).wf(),
        final(master)@ == config_changed(old(master)@, change),
        match (r, config_event(change)) {
            (Some(event), Some(m)) => event@ == m,
            (None, None) => true,
            _ => false,
        },
{
    match change {
        ConfigChange::MatchSet(c) => match_set_apply(master, c),
        ConfigChange::PolicyCreate(name) => {
            policy_create(master, name);
            None
        },
        ConfigChange::PolicyDelete(name) => Some(policy_delete(master, name)),
        ConfigChange::StmtCreate(policy, stmt) => {
            proof {
                index_of_models(master.policies@[policy@].stmts@, stmt@);
                assert(models(master.policies@)[policy@] == master.policies@[policy@]@);
            }
            Some(stmt_create(master, &policy, stmt))
        },
        ConfigChange::StmtDelete(policy, stmt) => {
            proof {
                index_of_models(master.policies@[policy@].stmts@, stmt@);
                assert(models(master.policies@)[policy@] == master.policies@[policy@]@);
            }
            Some(stmt_delete(master, &policy, &stmt))
        },
        ConfigChange::Stmt(policy, stmt, c) => {
            proof {
                index_of_models(master.policies@[policy@].stmts@, stmt@);
                assert(models(master.policies@)[policy@] == master.policies@[policy@]@);
            }
            Some(policy_stmt_apply(master, &policy, &stmt, c))
        },
    }
}

/// What a change does to sets and policies that are in use is always announced:
/// protocols are told of the sets, and of each policy that is not as it was.
pub proof fn changes_are_announced(m: MasterModel, c: ConfigChange, policy: Seq<char>)
    requires
        !is_silent(c),
    ensures
        config_changed(m, c).match_sets != m.match_sets ==> config_event(c) == Some(EventModel::MatchSetsUpdate),
        m.policies.contains_key(policy) && !config_changed(m, c).policies.contains_key(policy) ==> config_event(c)
            == Some(EventModel::PolicyDelete(policy)),
        m.policies.contains_key(policy) && config_changed(m, c).policies.contains_key(policy)
            && config_changed(m, c).policies[policy] != m.policies[policy] ==> config_event(c) == Some(
            EventModel::PolicyChange(policy),
        ),
{
}

}
