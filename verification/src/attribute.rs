//! Path attributes.
use crate::bgp::Comm;
use crate::bgp::ExtComm;
use crate::bgp::Extv6Comm;
use crate::bgp::LargeComm;
use crate::bgp::Origin;
use crate::ip::IpAddr;
use crate::ip::Ipv4Addr;
use crate::ip::Ipv6Addr;
use crate::ord::elems_count;
use crate::ord::Key;
use crate::ord::SortedSet;
use std::sync::Arc;
use vstd::prelude::*;

verus! {

#[derive(Clone, Copy, Debug, PartialEq, Eq, Structural)]
pub enum AsPathSegmentType {
    AsSet,
    AsSequence,
    ConfedSequence,
    ConfedSet,
}

pub struct AsPathSegment {
    pub seg_type: AsPathSegmentType,
    pub members: Vec<u32>,
}

/// An AS path: its segments, the nearest first.
pub struct AsPath {
    pub segments: Vec<AsPathSegment>,
}

#[derive(Clone, Copy, Debug, PartialEq, Eq, Structural)]
pub struct Aggregator {
    pub asn: u32,
    pub identifier: Ipv4Addr,
}

/// A set of communities of one kind.
pub struct CommList<T>(pub SortedSet<T>);

/// An attribute that is carried without being understood.
pub struct UnknownAttr {
    pub attr_type: u8,
    pub flags: u8,
    pub value: Vec<u8>,
}

/// The attributes that nearly every route has.
pub struct BaseAttrs {
    pub origin: Origin,
    pub as_path: Arc<AsPath>,
    pub as4_path: Option<Arc<AsPath>>,
    pub nexthop: Option<IpAddr>,
    pub ll_nexthop: Option<Ipv6Addr>,
    pub med: Option<u32>,
    pub local_pref: Option<u32>,
    pub aggregator: Option<Aggregator>,
    pub as4_aggregator: Option<Aggregator>,
    pub atomic_aggregate: bool,
    pub originator_id: Option<Ipv4Addr>,
    pub cluster_list: Option<Arc<Vec<u32>>>,
}

/// The path attributes of a route. Lists are shared between the routes that
/// carry them.
pub struct Attrs {
    pub base: BaseAttrs,
    pub comm: Option<Arc<CommList<Comm>>>,
    pub ext_comm: Option<Arc<CommList<ExtComm>>>,
    pub extv6_comm: Option<Arc<CommList<Extv6Comm>>>,
    pub large_comm: Option<Arc<CommList<LargeComm>>>,
    pub unknown: Option<Arc<Vec<UnknownAttr>>>,
}

/// A segment of an AS path as a mathematical value.
pub type Segment = (AsPathSegmentType, Seq<u32>);

impl View for AsPath {
    type V = Seq<Segment>;

    open spec fn view(&self) -> Seq<Segment> {
        Seq::new(self.segments@.len(), |i: int| (self.segments@[i].seg_type, self.segments@[i].members@))
    }
}

/// What a segment adds to the length of a path.
pub open spec fn segment_length(s: Segment) -> nat {
    match s.0 {
        AsPathSegmentType::AsSet => 1,
        AsPathSegmentType::AsSequence => s.1.len(),
        AsPathSegmentType::ConfedSequence => 0,
        AsPathSegmentType::ConfedSet => 0,
    }
}

/// The length of a path.
pub open spec fn path_length(p: Seq<Segment>) -> nat
    decreases p.len(),
{
    if p.len() == 0 {
        0
    } else {
        path_length(p.drop_last()) + segment_length(p.last())
    }
}

/// The members of all segments of a path, in order.
pub open spec fn path_members(p: Seq<Segment>) -> Seq<u32>
    decreases p.len(),
{
    if p.len() == 0 {
        Seq::empty()
    } else {
        path_members(p.drop_last()) + p.last().1
    }
}

/// A path with an AS number put in front.
pub open spec fn prepended(p: Seq<Segment>, asn: u32) -> Seq<Segment> {
    if p.len() > 0 && p[0].0 == AsPathSegmentType::AsSequence && p[0].1.len() < 255 {
        p.update(0, (AsPathSegmentType::AsSequence, seq![asn] + p[0].1))
    } else {
        seq![(AsPathSegmentType::AsSequence, seq![asn])] + p
    }
}

/// A path with an AS number put in front several times.
pub open spec fn prepended_times(p: Seq<Segment>, asn: u32, n: nat) -> Seq<Segment>
    decreases n,
{
    if n == 0 {
        p
    } else {
        prepended(prepended_times(p, asn, (n - 1) as nat), asn)
    }
}

/// A copy of a vector of numbers.
fn copy_numbers(v: &Vec<u32>) -> (r: Vec<u32>)
    ensures
        r@ == v@,
{
    let mut r: Vec<u32> = Vec::new();
    let mut i: usize = 0;
    while i < v.len()
        invariant
            i <= v@.len(),
            r@ == v@.take(i as int),
        decreases v@.len() - i,
    {
        r.push(v[i]);
        assert(v@.take(i + 1) =~= v@.take(i as int).push(v@[i as int]));
        i += 1;
    }
    assert(v@.take(i as int) =~= v@);
    r
}

impl AsPath {
    /// A path without segments.
    pub fn new() -> (r: Self)
        ensures
            r@ == Seq::<Segment>::empty(),
    {
        let r = AsPath { segments: Vec::new() };
        assert(r@ =~= Seq::<Segment>::empty());
        r
    }

    /// The length of the path, or the largest length that can be told.
    pub fn path_length(&self) -> (r: u32)
        ensures
            r == if path_length(self@) <= u32::MAX {
                path_length(self@)
            } else {
                u32::MAX as nat
            },
    {
        let mut n: u32 = 0;
        let mut i: usize = 0;
        assert(self@.take(0) =~= Seq::<Segment>::empty());
        while i < self.segments.len()
            invariant
                i <= self.segments@.len(),
                n == if path_length(self@.take(i as int)) <= u32::MAX {
                    path_length(self@.take(i as int))
                } else {
                    u32::MAX as nat
                },
            decreases self.segments@.len() - i,
        {
            let seg = &self.segments[i];
            let len: u32 = match seg.seg_type {
                AsPathSegmentType::AsSet => 1,
                AsPathSegmentType::AsSequence => if seg.members.len() <= 0xFFFF_FFFF {
                    seg.members.len() as u32
                } else {
                    u32::MAX
                },
                _ => 0,
            };
            assert(self@.take(i + 1).drop_last() =~= self@.take(i as int));
            assert(self@.take(i + 1).last() == self@[i as int]);
            n = n.saturating_add(len);
            i += 1;
        }
        assert(self@.take(i as int) =~= self@);
        n
    }

    /// The AS numbers of the path.
    pub fn members(&self) -> (r: Vec<u32>)
        ensures
            r@ == path_members(self@),
    {
        let mut r: Vec<u32> = Vec::new();
        let mut i: usize = 0;
        assert(self@.take(0) =~= Seq::<Segment>::empty());
        while i < self.segments.len()
            invariant
                i <= self.segments@.len(),
                r@ == path_members(self@.take(i as int)),
            decreases self.segments@.len() - i,
        {
            let mut m = copy_numbers(&self.segments[i].members);
            assert(self@.take(i + 1).drop_last() =~= self@.take(i as int));
            assert(self@.take(i + 1).last() == self@[i as int]);
            r.append(&mut m);
            i += 1;
        }
        assert(self@.take(i as int) =~= self@);
        r
    }

    /// A copy of the path.
    pub fn duplicate(&self) -> (r: Self)
        ensures
            r@ == self@,
    {
        let mut segments: Vec<AsPathSegment> = Vec::new();
        let mut i: usize = 0;
        while i < self.segments.len()
            invariant
                i <= self.segments@.len(),
                segments@.len() == i,
                forall|j: int|
                    0 <= j < i ==> (#[trigger] segments@[j]).seg_type == self.segments@[j].seg_type
                        && segments@[j].members@ == self.segments@[j].members@,
            decreases self.segments@.len() - i,
        {
            let seg = &self.segments[i];
            segments.push(AsPathSegment { seg_type: seg.seg_type, members: copy_numbers(&seg.members) });
            i += 1;
        }
        let r = AsPath { segments };
        assert(r@ =~= self@);
        r
    }

    /// Puts an AS number in front of the path.
    pub fn prepend(&mut self, asn: u32)
        ensures
            final(self)@ == prepended(old(self)@, asn),
    {
        let ghost p = self@;
        if self.segments.len() > 0 && self.segments[0].seg_type == AsPathSegmentType::AsSequence
            && self.segments[0].members.len() < 255 {
            let mut members: Vec<u32> = vec![asn];
            let mut rest = copy_numbers(&self.segments[0].members);
            members.append(&mut rest);
            assert(members@ =~= seq![asn] + p[0].1);
            self.segments[0] = AsPathSegment { seg_type: AsPathSegmentType::AsSequence, members };
            assert(self@ =~= prepended(p, asn));
        } else {
            let members: Vec<u32> = vec![asn];
            assert(members@ =~= seq![asn]);
            self.segments.insert(0, AsPathSegment { seg_type: AsPathSegmentType::AsSequence, members });
            assert(self@ =~= prepended(p, asn));
        }
    }

    fn same(&self, other: &Self) -> (r: bool)
        ensures
            r == (self@ == other@),
    {
        if self.segments.len() != other.segments.len() {
            assert(self@.len() != other@.len());
            return false;
        }
        let mut i: usize = 0;
        while i < self.segments.len()
            invariant
                i <= self.segments@.len(),
                self.segments@.len() == other.segments@.len(),
                forall|j: int| 0 <= j < i ==> #[trigger] self@[j] == other@[j],
            decreases self.segments@.len() - i,
        {
            if self.segments[i].seg_type != other.segments[i].seg_type || !same_numbers(
                &self.segments[i].members,
                &other.segments[i].members,
            ) {
                assert(self@[i as int] != other@[i as int]);
                return false;
            }
            i += 1;
        }
        assert(self@ =~= other@);
        true
    }
}

fn same_numbers(a: &Vec<u32>, b: &Vec<u32>) -> (r: bool)
    ensures
        r == (a@ == b@),
{
    if a.len() != b.len() {
        return false;
    }
    let mut i: usize = 0;
    while i < a.len()
        invariant
            i <= a@.len(),
            a@.len() == b@.len(),
            forall|j: int| 0 <= j < i ==> #[trigger] a@[j] == b@[j],
        decreases a@.len() - i,
    {
        if a[i] != b[i] {
            return false;
        }
        i += 1;
    }
    assert(a@ =~= b@);
    true
}

fn same_bytes(a: &Vec<u8>, b: &Vec<u8>) -> (r: bool)
    ensures
        r == (a@ == b@),
{
    if a.len() != b.len() {
        return false;
    }
    let mut i: usize = 0;
    while i < a.len()
        invariant
            i <= a@.len(),
            a@.len() == b@.len(),
            forall|j: int| 0 <= j < i ==> #[trigger] a@[j] == b@[j],
        decreases a@.len() - i,
    {
        if a[i] != b[i] {
            return false;
        }
        i += 1;
    }
    assert(a@ =~= b@);
    true
}

/// The communities of an attribute, if it is there.
pub open spec fn comm_view<T: Key>(c: Option<Arc<CommList<T>>>) -> Option<Set<T::V>> {
    match c {
        Some(l) => Some(l.0@),
        None => None,
    }
}

pub open spec fn comm_wf<T: Key>(c: Option<Arc<CommList<T>>>) -> bool {
    match c {
        Some(l) => l.0.wf(),
        None => true,
    }
}

fn same_comm<T: Key>(a: &Option<Arc<CommList<T>>>, b: &Option<Arc<CommList<T>>>) -> (r: bool)
    requires
        comm_wf(*a),
        comm_wf(*b),
    ensures
        r == (comm_view(*a) == comm_view(*b)),
{
    match (a, b) {
        (Some(x), Some(y)) => x.0.same_set(&y.0),
        (None, None) => true,
        _ => false,
    }
}

fn same_path(a: &Option<Arc<AsPath>>, b: &Option<Arc<AsPath>>) -> (r: bool)
    ensures
        r == (path_view(*a) == path_view(*b)),
{
    match (a, b) {
        (Some(x), Some(y)) => x.same(y),
        (None, None) => true,
        _ => false,
    }
}

pub open spec fn path_view(p: Option<Arc<AsPath>>) -> Option<Seq<Segment>> {
    match p {
        Some(x) => Some(x@),
        None => None,
    }
}

pub open spec fn numbers_view(p: Option<Arc<Vec<u32>>>) -> Option<Seq<u32>> {
    match p {
        Some(x) => Some(x@),
        None => None,
    }
}

fn same_cluster_list(a: &Option<Arc<Vec<u32>>>, b: &Option<Arc<Vec<u32>>>) -> (r: bool)
    ensures
        r == (numbers_view(*a) == numbers_view(*b)),
{
    match (a, b) {
        (Some(x), Some(y)) => same_numbers(x, y),
        (None, None) => true,
        _ => false,
    }
}

pub open spec fn unknown_view(p: Option<Arc<Vec<UnknownAttr>>>) -> Option<Seq<(u8, u8, Seq<u8>)>> {
    match p {
        Some(x) => Some(Seq::new(x@.len(), |i: int| (x@[i].attr_type, x@[i].flags, x@[i].value@))),
        None => None,
    }
}

fn same_unknown(a: &Option<Arc<Vec<UnknownAttr>>>, b: &Option<Arc<Vec<UnknownAttr>>>) -> (r: bool)
    ensures
        r == (unknown_view(*a) == unknown_view(*b)),
{
    match (a, b) {
        (Some(x), Some(y)) => {
            let ghost xv = unknown_view(*a)->0;
            let ghost yv = unknown_view(*b)->0;
            if x.len() != y.len() {
                assert(xv.len() != yv.len());
                return false;
            }
            let mut i: usize = 0;
            while i < x.len()
                invariant
                    i <= x@.len(),
                    x@.len() == y@.len(),
                    xv.len() == x@.len(),
                    yv.len() == y@.len(),
                    xv == unknown_view(*a)->0,
                    yv == unknown_view(*b)->0,
                    *a == Some(*x),
                    *b == Some(*y),
                    forall|j: int| 0 <= j < i ==> #[trigger] xv[j] == yv[j],
                decreases x@.len() - i,
            {
                if x[i].attr_type != y[i].attr_type || x[i].flags != y[i].flags || !same_bytes(
                    &x[i].value,
                    &y[i].value,
                ) {
                    assert(xv[i as int] != yv[i as int]);
                    return false;
                }
                i += 1;
            }
            assert(xv =~= yv);
            true
        },
        (None, None) => true,
        _ => false,
    }
}

/// Path attributes as mathematical values.
pub struct AttrsModel {
    pub origin: Origin,
    pub as_path: Seq<Segment>,
    pub as4_path: Option<Seq<Segment>>,
    pub nexthop: Option<IpAddr>,
    pub ll_nexthop: Option<Ipv6Addr>,
    pub med: Option<u32>,
    pub local_pref: Option<u32>,
    pub aggregator: Option<Aggregator>,
    pub as4_aggregator: Option<Aggregator>,
    pub atomic_aggregate: bool,
    pub originator_id: Option<Ipv4Addr>,
    pub cluster_list: Option<Seq<u32>>,
    pub comm: Option<Set<Comm>>,
    pub ext_comm: Option<Set<ExtComm>>,
    pub extv6_comm: Option<Set<Extv6Comm>>,
    pub large_comm: Option<Set<LargeComm>>,
    pub unknown: Option<Seq<(u8, u8, Seq<u8>)>>,
}

impl View for Attrs {
    type V = AttrsModel;

    open spec fn view(&self) -> AttrsModel {
        AttrsModel {
            origin: self.base.origin,
            as_path: self.base.as_path@,
            as4_path: path_view(self.base.as4_path),
            nexthop: self.base.nexthop,
            ll_nexthop: self.base.ll_nexthop,
            med: self.base.med,
            local_pref: self.base.local_pref,
            aggregator: self.base.aggregator,
            as4_aggregator: self.base.as4_aggregator,
            atomic_aggregate: self.base.atomic_aggregate,
            originator_id: self.base.originator_id,
            cluster_list: numbers_view(self.base.cluster_list),
            comm: comm_view(self.comm),
            ext_comm: comm_view(self.ext_comm),
            extv6_comm: comm_view(self.extv6_comm),
            large_comm: comm_view(self.large_comm),
            unknown: unknown_view(self.unknown),
        }
    }
}

fn share_comm<T>(c: &Option<Arc<CommList<T>>>) -> (r: Option<Arc<CommList<T>>>)
    ensures
        r == *c,
{
    match c {
        Some(l) => Some(l.clone()),
        None => None,
    }
}

fn same_opt_u32(a: Option<u32>, b: Option<u32>) -> (r: bool)
    ensures
        r == (a == b),
{
    match (a, b) {
        (Some(x), Some(y)) => x == y,
        (None, None) => true,
        _ => false,
    }
}

pub fn same_opt_addr(a: Option<IpAddr>, b: Option<IpAddr>) -> (r: bool)
    ensures
        r == (a == b),
{
    match (a, b) {
        (Some(x), Some(y)) => x == y,
        (None, None) => true,
        _ => false,
    }
}

fn same_opt_ipv4(a: Option<Ipv4Addr>, b: Option<Ipv4Addr>) -> (r: bool)
    ensures
        r == (a == b),
{
    match (a, b) {
        (Some(x), Some(y)) => x == y,
        (None, None) => true,
        _ => false,
    }
}

fn same_opt_ipv6(a: Option<Ipv6Addr>, b: Option<Ipv6Addr>) -> (r: bool)
    ensures
        r == (a == b),
{
    match (a, b) {
        (Some(x), Some(y)) => x == y,
        (None, None) => true,
        _ => false,
    }
}

fn same_opt_aggregator(a: Option<Aggregator>, b: Option<Aggregator>) -> (r: bool)
    ensures
        r == (a == b),
{
    match (a, b) {
        (Some(x), Some(y)) => x == y,
        (None, None) => true,
        _ => false,
    }
}

impl BaseAttrs {
    pub fn duplicate(&self) -> (r: Self)
        ensures
            r == *self,
    {
        BaseAttrs {
            origin: self.origin,
            as_path: self.as_path.clone(),
            as4_path: match &self.as4_path {
                Some(p) => Some(p.clone()),
                None => None,
            },
            nexthop: self.nexthop,
            ll_nexthop: self.ll_nexthop,
            med: self.med,
            local_pref: self.local_pref,
            aggregator: self.aggregator,
            as4_aggregator: self.as4_aggregator,
            atomic_aggregate: self.atomic_aggregate,
            originator_id: self.originator_id,
            cluster_list: match &self.cluster_list {
                Some(p) => Some(p.clone()),
                None => None,
            },
        }
    }
}

/// The attributes of a route that carries none.
pub open spec fn default_attrs() -> AttrsModel {
    AttrsModel {
        origin: Origin::Incomplete,
        as_path: Seq::empty(),
        as4_path: None,
        nexthop: None,
        ll_nexthop: None,
        med: None,
        local_pref: None,
        aggregator: None,
        as4_aggregator: None,
        atomic_aggregate: false,
        originator_id: None,
        cluster_list: None,
        comm: None,
        ext_comm: None,
        extv6_comm: None,
        large_comm: None,
        unknown: None,
    }
}

impl Default for Attrs {
    fn default() -> (r: Self)
        ensures
            r@ == default_attrs(),
            r.wf(),
    {
        Attrs {
            base: BaseAttrs {
                origin: Origin::Incomplete,
                as_path: Arc::new(AsPath::new()),
                as4_path: None,
                nexthop: None,
                ll_nexthop: None,
                med: None,
                local_pref: None,
                aggregator: None,
                as4_aggregator: None,
                atomic_aggregate: false,
                originator_id: None,
                cluster_list: None,
            },
            comm: None,
            ext_comm: None,
            extv6_comm: None,
            large_comm: None,
            unknown: None,
        }
    }
}

impl Attrs {
    /// The lists of communities are in order.
    pub open spec fn wf(&self) -> bool {
        comm_wf(self.comm) && comm_wf(self.ext_comm) && comm_wf(self.extv6_comm) && comm_wf(self.large_comm)
    }

    /// Another handle on the same attributes.
    pub fn duplicate(&self) -> (r: Self)
        ensures
            r == *self,
    {
        Attrs {
            base: self.base.duplicate(),
            comm: share_comm(&self.comm),
            ext_comm: share_comm(&self.ext_comm),
            extv6_comm: share_comm(&self.extv6_comm),
            large_comm: share_comm(&self.large_comm),
            unknown: match &self.unknown {
                Some(p) => Some(p.clone()),
                None => None,
            },
        }
    }

    /// Whether two sets of attributes say the same.
    pub fn same(&self, other: &Self) -> (r: bool)
        requires
            self.wf(),
            other.wf(),
        ensures
            r == (self@ == other@),
    {
        let a = &self.base;
        let b = &other.base;
        a.origin == b.origin && a.as_path.same(&b.as_path) && same_path(&a.as4_path, &b.as4_path)
            && same_opt_addr(a.nexthop, b.nexthop) && same_opt_ipv6(a.ll_nexthop, b.ll_nexthop) && same_opt_u32(
            a.med,
            b.med,
        ) && same_opt_u32(a.local_pref, b.local_pref) && same_opt_aggregator(a.aggregator, b.aggregator)
            && same_opt_aggregator(a.as4_aggregator, b.as4_aggregator) && a.atomic_aggregate == b.atomic_aggregate
            && same_opt_ipv4(a.originator_id, b.originator_id) && same_cluster_list(&a.cluster_list, &b.cluster_list)
            && same_comm(&self.comm, &other.comm) && same_comm(&self.ext_comm, &other.ext_comm) && same_comm(
            &self.extv6_comm,
            &other.extv6_comm,
        ) && same_comm(&self.large_comm, &other.large_comm) && same_unknown(&self.unknown, &other.unknown)
    }
}

/// The length of the header of an attribute.
pub const ATTR_MIN_LEN: u32 = 3;

/// The length of the header of an attribute with an extended length field.
pub const ATTR_MIN_LEN_EXT: u32 = 4;

/// A length that is told up to a bound far above that of any message.
pub const LENGTH_CAP: u64 = 0x1_0000_0000;

#[verifier::opaque]
pub open spec fn capped(n: nat) -> nat {
    if n < LENGTH_CAP {
        n
    } else {
        LENGTH_CAP as nat
    }
}

/// A length below the bound is told as it is.
pub proof fn capped_is(n: nat)
    ensures
        capped(n) == if n < LENGTH_CAP {
            n
        } else {
            LENGTH_CAP as nat
        },
{
    reveal(capped);
}

/// The length of a path on the wire: type and count of each segment, and four
/// bytes for each of its members.
pub open spec fn path_wire_length(p: Seq<Segment>) -> nat
    decreases p.len(),
{
    if p.len() == 0 {
        0
    } else {
        path_wire_length(p.drop_last()) + 2 + 4 * p.last().1.len()
    }
}

/// The length of attributes that are not understood.
pub open spec fn unknown_wire_length(u: Seq<(u8, u8, Seq<u8>)>) -> nat
    decreases u.len(),
{
    if u.len() == 0 {
        0
    } else {
        unknown_wire_length(u.drop_last()) + ATTR_MIN_LEN_EXT as nat + u.last().2.len()
    }
}

pub open spec fn opt_length<T>(o: Option<T>, n: nat) -> nat {
    if o is Some {
        n
    } else {
        0
    }
}

pub open spec fn opt_path_length(p: Option<Seq<Segment>>) -> nat {
    match p {
        Some(p) => ATTR_MIN_LEN_EXT as nat + path_wire_length(p),
        None => 0,
    }
}

pub open spec fn cluster_length(l: Option<Seq<u32>>) -> nat {
    match l {
        Some(l) => ATTR_MIN_LEN_EXT as nat + l.len() * 4,
        None => 0,
    }
}

pub open spec fn opt_unknown_length(u: Option<Seq<(u8, u8, Seq<u8>)>>) -> nat {
    match u {
        Some(u) => unknown_wire_length(u),
        None => 0,
    }
}

pub open spec fn comm_wire_length<V>(c: Option<Set<V>>, size: nat) -> nat {
    match c {
        Some(s) => ATTR_MIN_LEN_EXT as nat + s.len() * size,
        None => 0,
    }
}

/// The length of the attributes on the wire, next hops aside.
pub open spec fn attrs_length(m: AttrsModel) -> nat {
    4 + opt_path_length(Some(m.as_path)) + opt_path_length(m.as4_path) + opt_length(m.med, 7) + opt_length(
        m.local_pref,
        7,
    ) + opt_length(m.aggregator, 11) + opt_length(m.as4_aggregator, 11) + (if m.atomic_aggregate {
        3nat
    } else {
        0
    }) + opt_length(m.originator_id, 7) + cluster_length(m.cluster_list) + comm_wire_length(m.comm, 4)
        + comm_wire_length(m.ext_comm, 8) + comm_wire_length(m.extv6_comm, 20) + comm_wire_length(m.large_comm, 12)
        + opt_unknown_length(m.unknown)
}

fn cap_sum(a: u64, b: u64, x: Ghost<nat>, y: Ghost<nat>) -> (r: u64)
    requires
        a == capped(x@),
        b == capped(y@),
    ensures
        r == capped(x@ + y@),
{
    proof {
        reveal(capped);
    }
    if a + b < LENGTH_CAP {
        a + b
    } else {
        LENGTH_CAP
    }
}

fn cap_times(len: usize, size: u64) -> (r: u64)
    requires
        1 <= size <= 20,
    ensures
        r == capped(len as nat * size as nat),
{
    proof {
        reveal(capped);
    }
    if len as u64 >= LENGTH_CAP {
        assert(len * size >= LENGTH_CAP) by (nonlinear_arith)
            requires
                len >= LENGTH_CAP,
                size >= 1,
        ;
        LENGTH_CAP
    } else {
        assert(len * size <= LENGTH_CAP * 20) by (nonlinear_arith)
            requires
                len < LENGTH_CAP,
                size <= 20,
        ;
        let n: u64 = len as u64 * size;
        if n < LENGTH_CAP {
            n
        } else {
            LENGTH_CAP
        }
    }
}

fn opt_len<T>(o: &Option<T>, n: u64) -> (r: u64)
    requires
        n < LENGTH_CAP,
    ensures
        r == capped(opt_length(*o, n as nat)),
{
    proof {
        reveal(capped);
    }
    match o {
        Some(_) => n,
        None => 0,
    }
}

/// The length of a list of items of one size, with its header.
fn list_len(len: usize, size: u64) -> (r: u64)
    requires
        1 <= size <= 20,
    ensures
        r == capped((ATTR_MIN_LEN_EXT as nat + len as nat * size as nat) as nat),
{
    proof {
        capped_is(ATTR_MIN_LEN_EXT as nat);
    }
    cap_sum(
        ATTR_MIN_LEN_EXT as u64,
        cap_times(len, size),
        Ghost(ATTR_MIN_LEN_EXT as nat),
        Ghost(len as nat * size as nat),
    )
}

fn comm_len<T: Key>(c: &Option<Arc<CommList<T>>>, size: u64) -> (r: u64)
    requires
        comm_wf(*c),
        1 <= size <= 20,
    ensures
        r == capped(comm_wire_length(comm_view(*c), size as nat)),
{
    match c {
        Some(l) => {
            let set = &l.0;
            proof {
                elems_count(*set);
            }
            list_len(set.len(), size)
        },
        None => {
            proof {
                capped_is(0);
            }
            0
        },
    }
}

fn path_len(p: &Option<Arc<AsPath>>) -> (r: u64)
    ensures
        r == capped(opt_path_length(path_view(*p))),
{
    match p {
        Some(p) => {
            proof {
                capped_is(4);
            }
            cap_sum(4, p.wire_length(), Ghost(4), Ghost(path_wire_length(p@)))
        },
        None => {
            proof {
                capped_is(0);
            }
            0
        },
    }
}

fn cluster_len(p: &Option<Arc<Vec<u32>>>) -> (r: u64)
    ensures
        r == capped(cluster_length(numbers_view(*p))),
{
    match p {
        Some(l) => list_len(l.len(), 4),
        None => {
            proof {
                capped_is(0);
            }
            0
        },
    }
}

impl AsPath {
    fn wire_length(&self) -> (r: u64)
        ensures
            r == capped(path_wire_length(self@)),
    {
        let mut n: u64 = 0;
        let mut i: usize = 0;
        proof {
            assert(self@.take(0) =~= Seq::<Segment>::empty());
            capped_is(0);
        }
        while i < self.segments.len()
            invariant
                i <= self.segments@.len(),
                n == capped(path_wire_length(self@.take(i as int))),
            decreases self.segments@.len() - i,
        {
            let len: usize = self.segments[i].members.len();
            proof {
                assert(self@.take(i + 1).drop_last() =~= self@.take(i as int));
                assert(self@.take(i + 1).last() == self@[i as int]);
                capped_is(2);
            }
            let seg: u64 = cap_sum(2, cap_times(len, 4), Ghost(2), Ghost(len as nat * 4));
            n = cap_sum(n, seg, Ghost(path_wire_length(self@.take(i as int))), Ghost(2 + len as nat * 4));
            i += 1;
        }
        assert(self@.take(i as int) =~= self@);
        n
    }
}

fn unknown_len(u: &Option<Arc<Vec<UnknownAttr>>>) -> (r: u64)
    ensures
        r == capped(opt_unknown_length(unknown_view(*u))),
{
    proof {
        capped_is(0);
    }
    match u {
        Some(u) => {
            let ghost v = Seq::new(u@.len(), |i: int| (u@[i].attr_type, u@[i].flags, u@[i].value@));
            let mut n: u64 = 0;
            let mut i: usize = 0;
            assert(v.take(0) =~= Seq::<(u8, u8, Seq<u8>)>::empty());
            while i < u.len()
                invariant
                    v == Seq::new(u@.len(), |i: int| (u@[i].attr_type, u@[i].flags, u@[i].value@)),
                    i <= u@.len(),
                    n == capped(unknown_wire_length(v.take(i as int))),
                decreases u@.len() - i,
            {
                let len: usize = u[i].value.len();
                proof {
                    assert(v.take(i + 1).drop_last() =~= v.take(i as int));
                    assert(v.take(i + 1).last() == v[i as int]);
                }
                n = cap_sum(
                    n,
                    list_len(len, 1),
                    Ghost(unknown_wire_length(v.take(i as int))),
                    Ghost((ATTR_MIN_LEN_EXT as nat + len as nat * 1) as nat),
                );
                i += 1;
            }
            assert(v.take(i as int) =~= v);
            n
        },
        None => 0,
    }
}

impl Attrs {
    /// The length of the attributes on the wire, next hops aside.
    pub fn length(&self) -> (r: u64)
        requires
            self.wf(),
        ensures
            r == capped(attrs_length(self@)),
    {
        let b = &self.base;
        let ghost m = self@;
        proof {
            capped_is(4);
            capped_is(3);
            capped_is(0);
        }
        let path = Some(b.as_path.clone());
        let n0: u64 = cap_sum(4, path_len(&path), Ghost(4), Ghost(opt_path_length(Some(m.as_path))));
        let ghost g0 = 4 + opt_path_length(Some(m.as_path));
        let n1: u64 = cap_sum(n0, path_len(&b.as4_path), Ghost(g0), Ghost(opt_path_length(m.as4_path)));
        let ghost g1 = g0 + opt_path_length(m.as4_path);
        let n2: u64 = cap_sum(n1, opt_len(&b.med, 7), Ghost(g1), Ghost(opt_length(m.med, 7)));
        let ghost g2 = g1 + opt_length(m.med, 7);
        let n3: u64 = cap_sum(n2, opt_len(&b.local_pref, 7), Ghost(g2), Ghost(opt_length(m.local_pref, 7)));
        let ghost g3 = g2 + opt_length(m.local_pref, 7);
        let n4: u64 = cap_sum(n3, opt_len(&b.aggregator, 11), Ghost(g3), Ghost(opt_length(m.aggregator, 11)));
        let ghost g4 = g3 + opt_length(m.aggregator, 11);
        let n5: u64 = cap_sum(
            n4,
            opt_len(&b.as4_aggregator, 11),
            Ghost(g4),
            Ghost(opt_length(m.as4_aggregator, 11)),
        );
        let ghost g5 = g4 + opt_length(m.as4_aggregator, 11);
        let ghost atomic: nat = if m.atomic_aggregate { 3 } else { 0 };
        let n6: u64 = cap_sum(n5, if b.atomic_aggregate { 3 } else { 0 }, Ghost(g5), Ghost(atomic));
        let ghost g6 = g5 + atomic;
        let n7: u64 = cap_sum(n6, opt_len(&b.originator_id, 7), Ghost(g6), Ghost(opt_length(m.originator_id, 7)));
        let ghost g7 = g6 + opt_length(m.originator_id, 7);
        let n8: u64 = cap_sum(n7, cluster_len(&b.cluster_list), Ghost(g7), Ghost(cluster_length(m.cluster_list)));
        let ghost g8 = g7 + cluster_length(m.cluster_list);
        let n9: u64 = cap_sum(n8, comm_len(&self.comm, 4), Ghost(g8), Ghost(comm_wire_length(m.comm, 4)));
        let ghost g9 = g8 + comm_wire_length(m.comm, 4);
        let n10: u64 = cap_sum(n9, comm_len(&self.ext_comm, 8), Ghost(g9), Ghost(comm_wire_length(m.ext_comm, 8)));
        let ghost g10 = g9 + comm_wire_length(m.ext_comm, 8);
        let n11: u64 = cap_sum(
            n10,
            comm_len(&self.extv6_comm, 20),
            Ghost(g10),
            Ghost(comm_wire_length(m.extv6_comm, 20)),
        );
        let ghost g11 = g10 + comm_wire_length(m.extv6_comm, 20);
        let n12: u64 = cap_sum(
            n11,
            comm_len(&self.large_comm, 12),
            Ghost(g11),
            Ghost(comm_wire_length(m.large_comm, 12)),
        );
        let ghost g12 = g11 + comm_wire_length(m.large_comm, 12);
        cap_sum(n12, unknown_len(&self.unknown), Ghost(g12), Ghost(opt_unknown_length(m.unknown)))
    }
}

}
