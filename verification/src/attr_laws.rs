//! What holds of path attributes and AS paths.
use crate::attribute::attrs_length;
use crate::attribute::capped_is;
use crate::attribute::comm_view;
use crate::attribute::default_attrs;
use crate::attribute::numbers_view;
use crate::attribute::path_length;
use crate::attribute::path_members;
use crate::attribute::path_wire_length;
use crate::attribute::unknown_view;
use crate::attribute::unknown_wire_length;
use crate::attribute::AsPath;
use crate::attribute::AsPathSegmentType;
use crate::attribute::Attrs;
use crate::attribute::AttrsModel;
use crate::attribute::Segment;
use crate::bgp::Origin;
use crate::policy::RoutePolicyInfo;
use crate::policy_laws::prepending_adds_one;
use crate::rib::Route;
use vstd::prelude::*;

verus! {

/// Whether two sets of attributes agree on each attribute.
pub open spec fn agree(a: Attrs, b: Attrs) -> bool {
    &&& a.base.origin == b.base.origin
    &&& a.base.as_path@ == b.base.as_path@
    &&& a.base.as4_path is Some <==> b.base.as4_path is Some
    &&& a.base.as4_path is Some && b.base.as4_path is Some ==> a.base.as4_path->0@ == b.base.as4_path->0@
    &&& a.base.nexthop == b.base.nexthop
    &&& a.base.ll_nexthop == b.base.ll_nexthop
    &&& a.base.med == b.base.med
    &&& a.base.local_pref == b.base.local_pref
    &&& a.base.aggregator == b.base.aggregator
    &&& a.base.as4_aggregator == b.base.as4_aggregator
    &&& a.base.atomic_aggregate == b.base.atomic_aggregate
    &&& a.base.originator_id == b.base.originator_id
    &&& a.base.cluster_list is Some <==> b.base.cluster_list is Some
    &&& a.base.cluster_list is Some && b.base.cluster_list is Some ==> a.base.cluster_list->0@
        == b.base.cluster_list->0@
    &&& comm_view(a.comm) == comm_view(b.comm)
    &&& comm_view(a.ext_comm) == comm_view(b.ext_comm)
    &&& comm_view(a.extv6_comm) == comm_view(b.extv6_comm)
    &&& comm_view(a.large_comm) == comm_view(b.large_comm)
    &&& a.unknown is Some <==> b.unknown is Some
    &&& a.unknown is Some && b.unknown is Some ==> a.unknown->0@.len() == b.unknown->0@.len() && forall|i: int|
        0 <= i < a.unknown->0@.len() ==> (#[trigger] a.unknown->0@[i]).attr_type == b.unknown->0@[i].attr_type
            && a.unknown->0@[i].flags == b.unknown->0@[i].flags && a.unknown->0@[i].value@ == b.unknown->0@[i].value@
}

/// Attributes are the same if they agree on each attribute, and only then.
pub proof fn every_attribute_counts(a: &Attrs, b: &Attrs, r: bool)
    requires
        call_ensures(Attrs::same, (a, b), r),
    ensures
        r <==> agree(*a, *b),
{
    if a.unknown is Some && b.unknown is Some {
        let x = unknown_view(a.unknown)->0;
        let y = unknown_view(b.unknown)->0;
        if r {
            assert forall|i: int| 0 <= i < a.unknown->0@.len() implies (
            #[trigger] a.unknown->0@[i]).attr_type == b.unknown->0@[i].attr_type && a.unknown->0@[i].flags
                == b.unknown->0@[i].flags && a.unknown->0@[i].value@ == b.unknown->0@[i].value@ by {
                assert(x[i] == y[i]);
            }
            assert(x.len() == y.len());
        }
        if agree(*a, *b) {
            assert forall|i: int| 0 <= i < x.len() implies x[i] == y[i] by {
                assert(a.unknown->0@[i].attr_type == b.unknown->0@[i].attr_type);
            }
            assert(x =~= y);
        }
    }
}

/// Routes are the same if their origins, attributes, types, labels and costs
/// are, and only then; policies are told of the first three.
pub proof fn every_part_of_a_route_counts(a: &Route, b: &Route, r: bool, same: bool, info: RoutePolicyInfo)
    requires
        call_ensures(Route::same, (a, b), r),
        call_ensures(Attrs::same, (&a.attrs, &b.attrs), same),
        call_ensures(Route::policy_info, (a,), info),
    ensures
        r <==> same && a.origin == b.origin && a.route_type == b.route_type && a.vpn_label == b.vpn_label && a.igp_cost
            == b.igp_cost,
        info.origin == a.origin && info.route_type == a.route_type && info.attrs == a.attrs && info.tag is None
            && info.opaque_attrs is None,
{
}

/// How much room an attribute with a value of a fixed size takes, if it is there.
pub open spec fn room_for(there: bool, n: int) -> int {
    if there {
        n
    } else {
        0
    }
}

/// How much room a list takes, if it is there: four bytes, and the size of each
/// item.
pub open spec fn list_room(len: Option<nat>, size: int) -> int {
    match len {
        Some(n) => 4 + n * size,
        None => 0,
    }
}

/// The length of a set, if it is there.
pub open spec fn set_len<V>(s: Option<Set<V>>) -> Option<nat> {
    match s {
        Some(s) => Some(s.len()),
        None => None,
    }
}

/// The room that attributes take in a message: 4 bytes for the origin, 4 for an
/// empty AS path, 7 for each number or address, 11 for an aggregator, 3 for the
/// mark of an atomic aggregate, and for lists 4 bytes and 4, 8, 12 or 20 for each
/// item. Next hops take none here. What is larger than 32 bits can tell is told
/// as the first number that they cannot.
pub proof fn attributes_take_room(a: &Attrs, r: u64)
    requires
        call_ensures(Attrs::length, (a,), r),
        a.base.as_path@.len() == 0,
        a.base.as4_path is None,
        a.unknown is None,
    ensures
        ({
            let n = 8 + room_for(a.base.med is Some, 7) + room_for(a.base.local_pref is Some, 7) + room_for(
                a.base.aggregator is Some,
                11,
            ) + room_for(a.base.as4_aggregator is Some, 11) + room_for(a.base.atomic_aggregate, 3) + room_for(
                a.base.originator_id is Some,
                7,
            ) + list_room(
                match a.base.cluster_list {
                    Some(l) => Some(l@.len()),
                    None => None,
                },
                4,
            ) + list_room(set_len(comm_view(a.comm)), 4) + list_room(set_len(comm_view(a.ext_comm)), 8) + list_room(
                set_len(comm_view(a.extv6_comm)),
                20,
            ) + list_room(set_len(comm_view(a.large_comm)), 12);
            r == if n < 0x1_0000_0000 {
                n
            } else {
                0x1_0000_0000
            }
        }),
{
    capped_is(attrs_length(a@));
    if let Some(l) = a.base.cluster_list {
        assert(numbers_view(a.base.cluster_list) == Some(l@));
    }
}

/// A segment more of an AS path takes two bytes and four for each of its members;
/// an attribute more that is not understood takes four bytes and those of its
/// value.
pub proof fn longer_attributes_take_more_room(
    a: &Attrs,
    b: &Attrs,
    c: &Attrs,
    d: &Attrs,
    ra: u64,
    rb: u64,
    rc: u64,
    rd: u64,
    segment: Segment,
    unknown: (u8, u8, Seq<u8>),
)
    requires
        call_ensures(Attrs::length, (a,), ra),
        call_ensures(Attrs::length, (b,), rb),
        call_ensures(Attrs::length, (c,), rc),
        call_ensures(Attrs::length, (d,), rd),
        b@ == (AttrsModel { as_path: a@.as_path.push(segment), ..a@ }),
        c@.as4_path is Some && a@.as4_path is Some && c@ == (AttrsModel {
            as4_path: Some((a@.as4_path->0).push(segment)),
            ..a@
        }),
        d@.unknown is Some && a@.unknown is Some && d@ == (AttrsModel {
            unknown: Some((a@.unknown->0).push(unknown)),
            ..a@
        }),
    ensures
        rb < 0x1_0000_0000 ==> rb == ra + 2 + 4 * segment.1.len(),
        rc < 0x1_0000_0000 ==> rc == ra + 2 + 4 * segment.1.len(),
        rd < 0x1_0000_0000 ==> rd == ra + 4 + unknown.2.len(),
{
    capped_is(attrs_length(a@));
    capped_is(attrs_length(b@));
    capped_is(attrs_length(c@));
    capped_is(attrs_length(d@));
    let p = a@.as_path;
    assert(p.push(segment).drop_last() =~= p);
    assert(path_wire_length(p.push(segment)) == path_wire_length(p) + 2 + 4 * segment.1.len());
    let q = a@.as4_path->0;
    assert(q.push(segment).drop_last() =~= q);
    assert(path_wire_length(q.push(segment)) == path_wire_length(q) + 2 + 4 * segment.1.len());
    let u = a@.unknown->0;
    assert(u.push(unknown).drop_last() =~= u);
    assert(unknown_wire_length(u.push(unknown)) == unknown_wire_length(u) + 4 + unknown.2.len());
}

/// The length of an AS path is the number of AS numbers in its sequences, with
/// each set counted as one and the segments of a confederation not at all. Its
/// members are those of its segments, in order.
pub proof fn paths_are_measured(
    p: &AsPath,
    q: &AsPath,
    segment: Segment,
    n: u32,
    m: u32,
    ps: Vec<u32>,
    qs: Vec<u32>,
)
    requires
        call_ensures(AsPath::path_length, (p,), n),
        call_ensures(AsPath::path_length, (q,), m),
        call_ensures(AsPath::members, (p,), ps),
        call_ensures(AsPath::members, (q,), qs),
        p@ == q@.push(segment),
    ensures
        q@.len() == 0 ==> m == 0 && qs@.len() == 0,
        n < u32::MAX && segment.0 == AsPathSegmentType::AsSequence ==> n == m + segment.1.len(),
        n < u32::MAX && segment.0 == AsPathSegmentType::AsSet ==> n == m + 1,
        segment.0 == AsPathSegmentType::ConfedSequence || segment.0 == AsPathSegmentType::ConfedSet ==> n == m,
        m <= n,
        ps@ == qs@ + segment.1,
{
    assert(p@.drop_last() =~= q@);
    assert(p@.last() == segment);
    assert(path_length(p@) == path_length(q@) + crate::attribute::segment_length(segment));
    assert(path_members(p@) == path_members(q@) + segment.1);
}

/// An AS number that is put in front of a path is its first member, makes it one
/// longer, and is part of a sequence of at most 255.
pub proof fn numbers_are_put_in_front(
    p: &mut AsPath,
    asn: u32,
    r: (),
    n: u32,
    m: u32,
    before: Vec<u32>,
    after: Vec<u32>,
)
    requires
        call_ensures(AsPath::prepend, (p, asn), r),
        call_ensures(AsPath::path_length, (&*old(p),), n),
        call_ensures(AsPath::path_length, (&*final(p),), m),
        call_ensures(AsPath::members, (&*old(p),), before),
        call_ensures(AsPath::members, (&*final(p),), after),
    ensures
        after@ == seq![asn] + before@,
        n < u32::MAX ==> m == n + 1,
        final(p)@.len() > 0 && final(p)@[0].0 == AsPathSegmentType::AsSequence && final(p)@[0].1.len() <= 255
            && final(p)@[0].1[0] == asn,
{
    prepending_adds_one(old(p)@, asn);
}

/// New attributes have an unknown origin, an empty path and nothing else.
pub proof fn new_attributes_are_empty()
    ensures
        ({
            let m = default_attrs();
            &&& m.origin == Origin::Incomplete && m.as_path.len() == 0 && m.as4_path is None
            &&& m.nexthop is None && m.ll_nexthop is None && m.med is None && m.local_pref is None
            &&& m.aggregator is None && m.as4_aggregator is None && !m.atomic_aggregate
            &&& m.originator_id is None && m.cluster_list is None
            &&& m.comm is None && m.ext_comm is None && m.extv6_comm is None && m.large_comm is None
            &&& m.unknown is None
        }),
{
}

}
