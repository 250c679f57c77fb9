//! What holds of the configuration of policies.
use crate::bgp::Comm;
use crate::bgp::LargeComm;
use crate::bgp_text::comm_of;
use crate::bgp_text::large_comm_named;
use crate::ip::AddressFamily;
use crate::ord::Ranked;
use crate::policy_cfg::as_path_set_member_add;
use crate::policy_cfg::as_path_set_member_remove;
use crate::policy_cfg::comm_member_add;
use crate::policy_cfg::comm_member_remove;
use crate::policy_cfg::comm_set_member_add;
use crate::policy_cfg::comm_set_member_remove;
use crate::policy_cfg::large_comm_member_add;
use crate::policy_cfg::large_comm_member_remove;
use crate::policy_cfg::match_set_apply;
use crate::policy_cfg::policy_create;
use crate::policy_cfg::policy_delete;
use crate::policy_cfg::policy_stmt_apply;
use crate::policy_cfg::process_event;
use crate::policy_cfg::stmt_create;
use crate::policy_cfg::stmt_delete;
use crate::policy_cfg::valid_regex;
use crate::policy_cfg::AsPathChange;
use crate::policy_cfg::Event;
use crate::policy_cfg::ItemChange;
use crate::policy_cfg::Master;
use crate::policy_cfg::MatchSetChange;
use crate::policy_cfg::MemberChange;
use crate::policy_cfg::Notice;
use crate::policy_cfg::TextChange;
use crate::policy_model::MembersModel;
use crate::policy_model::StmtModel;
use crate::policy_stmt_cfg::StmtChange;
use crate::policy_types::stmt_index_is;
use crate::policy_types::BgpAsPathSet;
use crate::policy_types::BgpCommunitySet;
use crate::policy_types::IpPrefixRange;
use crate::policy_types::MatchSetRestrictedType;
use crate::policy_types::MatchSetType;
use crate::policy_types::PolicyActionType;
use crate::policy_types::PolicyConditionType;
use crate::text::parsed;
use vstd::prelude::*;

verus! {

/// A member that stands for a literal is that literal and nothing else; any other
/// is the expression, if it is valid, and is otherwise passed over. What is
/// removed is found again in the same way.
pub proof fn community_members<T: Ranked>(
    a: &mut BgpCommunitySet<T>,
    d: &mut BgpCommunitySet<T>,
    value: String,
    comm: Option<T>,
    r: (),
    x: T,
    t: Seq<char>,
)
    requires
        call_ensures(comm_set_member_add::<T>, (a, value, comm), r),
        call_ensures(comm_set_member_remove::<T>, (d, value, comm), r),
    ensures
        final(a)@.literals.contains(x) <==> old(a)@.literals.contains(x) || comm == Some(x),
        final(a)@.regexes.contains(t) <==> old(a)@.regexes.contains(t) || (comm is None && t == value@ && valid_regex(
            t,
        )),
        final(d)@.literals.contains(x) <==> old(d)@.literals.contains(x) && comm != Some(x),
        final(d)@.regexes.contains(t) <==> old(d)@.regexes.contains(t) && !(comm is None && t == value@ && valid_regex(
            t,
        )),
{
}

/// A member of a set of AS paths is an AS number, if the text is one of at most
/// 32 bits, and otherwise the expression that goes with it.
pub proof fn as_path_members(
    a: &mut BgpAsPathSet,
    d: &mut BgpAsPathSet,
    value: &str,
    pattern: String,
    r: (),
    x: u32,
    t: Seq<char>,
)
    requires
        call_ensures(as_path_set_member_add, (a, value, pattern), r),
        call_ensures(as_path_set_member_remove, (d, value, pattern), r),
    ensures
        final(a)@.literals.contains(x) <==> old(a)@.literals.contains(x) || parsed(value@, 0xFFFF_FFFF) == Some(
            x as nat,
        ),
        final(a)@.regexes.contains(t) <==> old(a)@.regexes.contains(t) || (parsed(value@, 0xFFFF_FFFF) is None && t
            == pattern@ && valid_regex(t)),
        final(d)@.literals.contains(x) <==> old(d)@.literals.contains(x) && parsed(value@, 0xFFFF_FFFF) != Some(
            x as nat,
        ),
        final(d)@.regexes.contains(t) <==> old(d)@.regexes.contains(t) && !(parsed(value@, 0xFFFF_FFFF) is None && t
            == pattern@ && valid_regex(t)),
{
}

/// Members that are given by text are those that the text stands for.
pub proof fn members_by_text(
    a: &mut BgpCommunitySet<Comm>,
    d: &mut BgpCommunitySet<Comm>,
    b: &mut BgpCommunitySet<LargeComm>,
    e: &mut BgpCommunitySet<LargeComm>,
    value: String,
    r: (),
    x: Comm,
    y: LargeComm,
    t: Seq<char>,
)
    requires
        call_ensures(comm_member_add, (a, value), r),
        call_ensures(comm_member_remove, (d, value), r),
        call_ensures(large_comm_member_add, (b, value), r),
        call_ensures(large_comm_member_remove, (e, value), r),
    ensures
        final(a)@.literals.contains(x) <==> old(a)@.literals.contains(x) || comm_of(value@) == Some(x),
        final(d)@.literals.contains(x) <==> old(d)@.literals.contains(x) && comm_of(value@) != Some(x),
        final(b)@.literals.contains(y) <==> old(b)@.literals.contains(y) || large_comm_named(value@) == Some(y),
        final(e)@.literals.contains(y) <==> old(e)@.literals.contains(y) && large_comm_named(value@) != Some(y),
        t != value@ ==> final(a)@.regexes.contains(t) == old(a)@.regexes.contains(t) && final(d)@.regexes.contains(t)
            == old(d)@.regexes.contains(t) && final(b)@.regexes.contains(t) == old(b)@.regexes.contains(t) && final(
            e
        )@.regexes.contains(t) == old(e)@.regexes.contains(t),
        comm_of(value@) is None && valid_regex(value@) ==> final(a)@.regexes.contains(value@) && !final(
            d
        )@.regexes.contains(value@),
        large_comm_named(value@) is None && valid_regex(value@) ==> final(b)@.regexes.contains(value@) && !final(
            e
        )@.regexes.contains(value@),
{
}

/// What becomes of a set of named items, by what is done to it.
pub open spec fn items_follow<T>(
    before: Map<Seq<char>, (Seq<char>, Set<T>)>,
    after: Map<Seq<char>, (Seq<char>, Set<T>)>,
    name: Seq<char>,
    c: ItemChange<T>,
    x: T,
    other: Seq<char>,
) -> bool {
    &&& c is Create ==> after.contains_key(name) && after[name].0 == name && !after[name].1.contains(x)
    &&& c is Delete ==> !after.contains_key(name)
    &&& c matches ItemChange::ItemAdd(y) ==> after.contains_key(name) && after[name].0 == before[name].0 && (
    after[name].1.contains(x) <==> x == y || before[name].1.contains(x))
    &&& c matches ItemChange::ItemRemove(y) ==> after.contains_key(name) && after[name].0 == before[name].0 && (
    after[name].1.contains(x) <==> x != y && before[name].1.contains(x))
    &&& other != name ==> after.contains_key(other) == before.contains_key(other) && (before.contains_key(other)
        ==> after[other] == before[other])
}

/// What becomes of a set of members, by what is done to it.
pub open spec fn members_follow<T>(
    before: Map<Seq<char>, MembersModel<T>>,
    after: Map<Seq<char>, MembersModel<T>>,
    name: Seq<char>,
    c: MemberChange<T>,
    x: T,
    t: Seq<char>,
    other: Seq<char>,
) -> bool {
    &&& c is Create ==> after.contains_key(name) && !after[name].literals.contains(x) && !after[name].regexes.contains(
        t,
    )
    &&& c is Delete ==> !after.contains_key(name)
    &&& c matches MemberChange::MemberAdd { value, comm } ==> (after[name].literals.contains(x) <==> comm == Some(x)
        || before[name].literals.contains(x)) && (after[name].regexes.contains(t) <==> (comm is None && t == value@
        && valid_regex(t)) || before[name].regexes.contains(t))
    &&& c matches MemberChange::MemberRemove { value, comm } ==> (after[name].literals.contains(x) <==> comm != Some(x)
        && before[name].literals.contains(x)) && (after[name].regexes.contains(t) <==> !(comm is None && t == value@
        && valid_regex(t)) && before[name].regexes.contains(t))
    &&& other != name ==> after.contains_key(other) == before.contains_key(other) && (before.contains_key(other)
        ==> after[other] == before[other])
}

/// A change to a set of prefixes, neighbors or tags concerns that set alone, and
/// the one item that it names. It is announced, unless it creates the set.
pub proof fn item_sets_follow_changes(
    master: &mut Master,
    c: MatchSetChange,
    r: Option<Event>,
    other: Seq<char>,
    range: IpPrefixRange,
    addr: crate::ip::IpAddr,
    tag: u32,
    other_key: (Seq<char>, AddressFamily),
)
    requires
        call_ensures(match_set_apply, (master, c), r),
    ensures
        ({
            let before = old(master).match_sets@;
            let after = final(master).match_sets@;
            &&& c matches MatchSetChange::Prefixes(key, d) ==> {
                &&& d is Create ==> after.prefixes.contains_key(key@) && after.prefixes[key@].0 == key.name@
                    && after.prefixes[key@].1 == key.mode && !after.prefixes[key@].2.contains(range)
                &&& d is Delete ==> !after.prefixes.contains_key(key@)
                &&& d matches ItemChange::ItemAdd(y) ==> after.prefixes.contains_key(key@) && (
                after.prefixes[key@].2.contains(range) <==> range == y || before.prefixes[key@].2.contains(range))
                &&& d matches ItemChange::ItemRemove(y) ==> after.prefixes.contains_key(key@) && (
                after.prefixes[key@].2.contains(range) <==> range != y && before.prefixes[key@].2.contains(range))
                &&& other_key != key@ ==> after.prefixes.contains_key(other_key) == before.prefixes.contains_key(
                    other_key,
                ) && (before.prefixes.contains_key(other_key) ==> after.prefixes[other_key]
                    == before.prefixes[other_key])
                &&& d is Create <==> r is None
            }
            &&& c matches MatchSetChange::Neighbors(name, d) ==> items_follow(
                before.neighbors,
                after.neighbors,
                name@,
                d,
                addr,
                other,
            ) && (d is Create <==> r is None)
            &&& c matches MatchSetChange::Tags(name, d) ==> items_follow(
                before.tags,
                after.tags,
                name@,
                d,
                tag,
                other,
            ) && (d is Create <==> r is None)
            &&& !(c is Prefixes) ==> after.prefixes == before.prefixes
            &&& !(c is Neighbors) ==> after.neighbors == before.neighbors
            &&& !(c is Tags) ==> after.tags == before.tags
            &&& r matches Some(event) ==> event is MatchSetsUpdate
        }),
        final(master).policies == old(master).policies,
{
}

/// A change to a set of AS paths or communities concerns that set alone, and the
/// one member that it names. It is announced, unless it creates the set.
pub proof fn member_sets_follow_changes(
    master: &mut Master,
    c: MatchSetChange,
    r: Option<Event>,
    other: Seq<char>,
    t: Seq<char>,
    asn: u32,
    comm: Comm,
    ext: crate::bgp::ExtComm,
    ext6: crate::bgp::Extv6Comm,
    large: LargeComm,
)
    requires
        call_ensures(match_set_apply, (master, c), r),
    ensures
        ({
            let before = old(master).match_sets@;
            let after = final(master).match_sets@;
            &&& c matches MatchSetChange::AsPaths(name, d) ==> {
                let a = after.as_paths;
                let b = before.as_paths;
                &&& d is Create ==> a.contains_key(name@) && !a[name@].literals.contains(asn)
                    && !a[name@].regexes.contains(t)
                &&& d is Delete ==> !a.contains_key(name@)
                &&& d matches AsPathChange::MemberAdd { value, pattern } ==> (a[name@].literals.contains(asn) <==> parsed(
                    value@,
                    0xFFFF_FFFF,
                ) == Some(asn as nat) || b[name@].literals.contains(asn)) && (a[name@].regexes.contains(t) <==> (parsed(
                    value@,
                    0xFFFF_FFFF,
                ) is None && t == pattern@ && valid_regex(t)) || b[name@].regexes.contains(t))
                &&& d matches AsPathChange::MemberRemove { value, pattern } ==> (a[name@].literals.contains(asn)
                    <==> parsed(value@, 0xFFFF_FFFF) != Some(asn as nat) && b[name@].literals.contains(asn)) && (
                a[name@].regexes.contains(t) <==> !(parsed(value@, 0xFFFF_FFFF) is None && t == pattern@ && valid_regex(
                    t,
                )) && b[name@].regexes.contains(t))
                &&& other != name@ ==> a.contains_key(other) == b.contains_key(other) && (b.contains_key(other)
                    ==> a[other] == b[other])
                &&& d is Create <==> r is None
            }
            &&& c matches MatchSetChange::Comms(name, d) ==> members_follow(
                before.comms,
                after.comms,
                name@,
                by_text(d, |v: Seq<char>| comm_of(v)),
                comm,
                t,
                other,
            ) && (d is Create <==> r is None)
            &&& c matches MatchSetChange::ExtComms(name, d) ==> members_follow(
                before.ext_comms,
                after.ext_comms,
                name@,
                d,
                ext,
                t,
                other,
            ) && (d is Create <==> r is None)
            &&& c matches MatchSetChange::Extv6Comms(name, d) ==> members_follow(
                before.extv6_comms,
                after.extv6_comms,
                name@,
                d,
                ext6,
                t,
                other,
            ) && (d is Create <==> r is None)
            &&& c matches MatchSetChange::LargeComms(name, d) ==> members_follow(
                before.large_comms,
                after.large_comms,
                name@,
                by_text(d, |v: Seq<char>| large_comm_named(v)),
                large,
                t,
                other,
            ) && (d is Create <==> r is None)
            &&& !(c is AsPaths) ==> after.as_paths == before.as_paths
            &&& !(c is Comms) ==> after.comms == before.comms
            &&& !(c is ExtComms) ==> after.ext_comms == before.ext_comms
            &&& !(c is Extv6Comms) ==> after.extv6_comms == before.extv6_comms
            &&& !(c is LargeComms) ==> after.large_comms == before.large_comms
        }),
{
}

/// A change by text, with what the texts stand for.
pub open spec fn by_text<T>(c: TextChange, named: spec_fn(Seq<char>) -> Option<T>) -> MemberChange<T> {
    match c {
        TextChange::Create => MemberChange::Create,
        TextChange::Delete => MemberChange::Delete,
        TextChange::MemberAdd(value) => MemberChange::MemberAdd { value, comm: named(value@) },
        TextChange::MemberRemove(value) => MemberChange::MemberRemove { value, comm: named(value@) },
    }
}

/// A policy that is created has its name and no statements; one that is deleted
/// is gone, and that is announced. The others and the defined sets stay.
pub proof fn policies_are_created_and_deleted(
    a: &mut Master,
    d: &mut Master,
    name: String,
    u: (),
    r: Event,
    other: Seq<char>,
)
    requires
        call_ensures(policy_create, (a, name), u),
        call_ensures(policy_delete, (d, name), r),
    ensures
        final(a).policies@.contains_key(name@),
        final(a).policies@[name@].name@ == name@,
        final(a).policies@[name@].stmts@.len() == 0,
        !final(d).policies@.contains_key(name@),
        r matches Event::PolicyDelete(n) && n@ == name@,
        other != name@ ==> {
            &&& final(a).policies@.contains_key(other) == old(a).policies@.contains_key(other)
            &&& old(a).policies@.contains_key(other) ==> final(a).policies@[other]@ == old(a).policies@[other]@
            &&& final(d).policies@.contains_key(other) == old(d).policies@.contains_key(other)
            &&& old(d).policies@.contains_key(other) ==> final(d).policies@[other]@ == old(d).policies@[other]@
        },
        final(a).match_sets == old(a).match_sets,
        final(d).match_sets == old(d).match_sets,
{
    policy_is(*final(a), name@);
    policy_is(*final(d), name@);
    policy_is(*final(a), other);
    policy_is(*old(a), other);
    policy_is(*final(d), other);
    policy_is(*old(d), other);
}

proof fn policy_is(m: Master, name: Seq<char>)
    ensures
        crate::ord::models(m.policies@).contains_key(name) == m.policies@.contains_key(name),
        m.policies@.contains_key(name) ==> crate::ord::models(m.policies@)[name] == m.policies@[name]@ && m.policies@[
            name
        ]@.stmts.len() == m.policies@[name].stmts@.len(),
{
}

/// Whether a statement has no conditions and no actions.
pub open spec fn is_blank(stmt: StmtModel) -> bool {
    &&& forall|k: PolicyConditionType| !stmt.conditions.contains_key(k)
    &&& forall|k: PolicyActionType| !stmt.actions.contains_key(k)
    &&& stmt.prefix_set_match_type == MatchSetRestrictedType::Any
    &&& stmt.tag_set_match_type == MatchSetType::Any
}

/// A statement that is created has no conditions and no actions. It takes the
/// place of the one with its name, or comes last; the other statements and the
/// other policies stay as they are and where they are. That is announced.
pub proof fn statements_are_created(
    master: &mut Master,
    policy: &String,
    name: String,
    r: Event,
    other: Seq<char>,
    k: int,
)
    requires
        call_ensures(stmt_create, (master, policy, name), r),
        old(master).policies@.contains_key(policy@),
    ensures
        final(master).policies@.contains_key(policy@),
        ({
            let before = old(master).policies@[policy@];
            let after = final(master).policies@[policy@];
            &&& 0 <= k < before.stmts@.len() && before.stmts@[k].name@ != name@ ==> after@.stmts[k] == before@.stmts[k]
            &&& 0 <= k < before.stmts@.len() && before.stmts@[k].name@ == name@ && (forall|j: int|
                0 <= j < before.stmts@.len() && j != k ==> (#[trigger] before.stmts@[j]).name@ != name@)
                ==> after.stmts@.len() == before.stmts@.len() && after@.stmts[k].name == name@ && is_blank(
                after@.stmts[k],
            )
            &&& (forall|j: int| 0 <= j < before.stmts@.len() ==> (#[trigger] before.stmts@[j]).name@ != name@)
                ==> after.stmts@.len() == before.stmts@.len() + 1 && after@.stmts[before.stmts@.len() as int].name
                == name@ && is_blank(after@.stmts[before.stmts@.len() as int])
        }),
        other != policy@ ==> final(master).policies@.contains_key(other) == old(master).policies@.contains_key(other)
            && (old(master).policies@.contains_key(other) ==> final(master).policies@[other]@ == old(
            master
        ).policies@[other]@),
        r matches Event::PolicyChange(n) && n@ == policy@,
        final(master).match_sets == old(master).match_sets,
{
    stmt_index_is(old(master).policies@[policy@].stmts@, name@);
    policy_is(*final(master), policy@);
    policy_is(*old(master), policy@);
    policy_is(*final(master), other);
    policy_is(*old(master), other);
}

/// A statement that is deleted is gone; those before and behind it stay, in their
/// order, and so do other policies. That is announced.
pub proof fn statements_are_deleted(
    master: &mut Master,
    policy: &String,
    name: &String,
    r: Event,
    other: Seq<char>,
    k: int,
    j: int,
)
    requires
        call_ensures(stmt_delete, (master, policy, name), r),
        old(master).policies@.contains_key(policy@),
        0 <= k < old(master).policies@[policy@].stmts@.len(),
        old(master).policies@[policy@].stmts@[k].name@ == name@,
        forall|i: int|
            0 <= i < old(master).policies@[policy@].stmts@.len() && i != k ==> (#[trigger] old(
                master
            ).policies@[policy@].stmts@[i]).name@ != name@,
    ensures
        final(master).policies@.contains_key(policy@),
        ({
            let before = old(master).policies@[policy@];
            let after = final(master).policies@[policy@];
            &&& after.stmts@.len() == before.stmts@.len() - 1
            &&& 0 <= j < k ==> after@.stmts[j] == before@.stmts[j]
            &&& k <= j < after.stmts@.len() ==> after@.stmts[j] == before@.stmts[j + 1]
        }),
        other != policy@ ==> final(master).policies@.contains_key(other) == old(master).policies@.contains_key(other)
            && (old(master).policies@.contains_key(other) ==> final(master).policies@[other]@ == old(
            master
        ).policies@[other]@),
        r matches Event::PolicyChange(n) && n@ == policy@,
        final(master).match_sets == old(master).match_sets,
{
    stmt_index_is(old(master).policies@[policy@].stmts@, name@);
    policy_is(*final(master), policy@);
    policy_is(*old(master), policy@);
    policy_is(*final(master), other);
    policy_is(*old(master), other);
}

/// A change to a statement leaves its place and its name alone, and all other
/// statements and policies. That is announced.
pub proof fn other_statements_stay(
    master: &mut Master,
    policy: &String,
    name: &String,
    c: StmtChange,
    r: Event,
    other: Seq<char>,
    at: int,
    k: int,
)
    requires
        call_ensures(policy_stmt_apply, (master, policy, name, c), r),
        old(master).policies@.contains_key(policy@),
        0 <= at < old(master).policies@[policy@].stmts@.len(),
        old(master).policies@[policy@].stmts@[at].name@ == name@,
    ensures
        final(master).policies@.contains_key(policy@),
        ({
            let before = old(master).policies@[policy@];
            let after = final(master).policies@[policy@];
            &&& after.stmts@.len() == before.stmts@.len()
            &&& 0 <= k < before.stmts@.len() ==> after@.stmts[k].name == before@.stmts[k].name
            &&& 0 <= k < before.stmts@.len() && before.stmts@[k].name@ != name@ ==> after@.stmts[k] == before@.stmts[k]
        }),
        other != policy@ ==> final(master).policies@.contains_key(other) == old(master).policies@.contains_key(other)
            && (old(master).policies@.contains_key(other) ==> final(master).policies@[other]@ == old(
            master
        ).policies@[other]@),
        r matches Event::PolicyChange(n) && n@ == policy@,
        final(master).match_sets == old(master).match_sets,
{
    let before = old(master).policies@[policy@];
    stmt_index_is(before.stmts@, name@);
    policy_is(*final(master), policy@);
    policy_is(*old(master), policy@);
    policy_is(*final(master), other);
    policy_is(*old(master), other);
    let i = crate::policy_types::stmt_index(before.stmts@, name@);
    if i >= 0 {
        crate::policy_cfg::change_keeps_name(before@.stmts[i], c);
    }
}

/// Protocols are told of the sets or of the policy as they are now, or of the
/// name of the policy that is gone.
pub proof fn announcements_hold_what_is_configured(master: &Master, event: Event, r: Notice)
    requires
        call_ensures(process_event, (master, event), r),
    ensures
        event is MatchSetsUpdate <==> r is PolicyMatchSetsUpd,
        event is PolicyChange <==> r is PolicyUpd,
        event is PolicyDelete <==> r is PolicyDel,
        r matches Notice::PolicyMatchSetsUpd(sets) ==> (*sets)@ == master.match_sets@,
        event matches Event::PolicyChange(name) ==> (r matches Notice::PolicyUpd(policy) && (*policy)@
            == master.policies@[name@]@),
        event matches Event::PolicyDelete(name) ==> (r matches Notice::PolicyDel(n) && n@ == name@),
{
}

}
