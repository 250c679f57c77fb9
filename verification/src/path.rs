//! Paths: several routes of one neighbor for one prefix, told apart by
//! identifiers.
use crate::ip::IpAddr;
use crate::message::paired;
use crate::message::paired_order;
use crate::ord::Key;
use crate::ord::Ranked;
use crate::ord::SortedMap;
use vstd::prelude::*;

verus! {

/// A path to a prefix. The identifier is 0 where paths are not told apart.
#[derive(Clone, Copy, Debug, PartialEq, Eq)]
pub struct Path<P> {
    pub prefix: P,
    pub path_id: u32,
}

/// A path of a neighbor.
#[derive(Clone, Copy, Debug, PartialEq, Eq, Structural)]
pub struct PeerPath {
    pub addr: IpAddr,
    pub path_id: u32,
}

impl<P: Ranked> View for Path<P> {
    type V = Path<P>;

    open spec fn view(&self) -> Path<P> {
        *self
    }
}

impl<P: Ranked> Ranked for Path<P> {
    open spec fn rank(self) -> int {
        paired(self.prefix.rank(), 0x1_0000_0000, self.path_id as int)
    }

    proof fn rank_identifies(a: Self, b: Self) {
        paired_order(a.prefix.rank(), a.path_id as int, b.prefix.rank(), b.path_id as int, 0x1_0000_0000);
        P::rank_identifies(a.prefix, b.prefix);
    }

    proof fn view_is_value(self) {
    }

    fn ranks_below(&self, other: &Self) -> (r: bool) {
        proof {
            paired_order(
                self.prefix.rank(),
                self.path_id as int,
                other.prefix.rank(),
                other.path_id as int,
                0x1_0000_0000,
            );
        }
        if self.prefix.ranks_below(&other.prefix) {
            return true;
        }
        if other.prefix.ranks_below(&self.prefix) {
            return false;
        }
        self.path_id < other.path_id
    }
}

impl View for PeerPath {
    type V = PeerPath;

    open spec fn view(&self) -> PeerPath {
        *self
    }
}

impl Ranked for PeerPath {
    open spec fn rank(self) -> int {
        paired(self.addr.rank(), 0x1_0000_0000, self.path_id as int)
    }

    proof fn rank_identifies(a: Self, b: Self) {
        paired_order(a.addr.rank(), a.path_id as int, b.addr.rank(), b.path_id as int, 0x1_0000_0000);
        IpAddr::rank_identifies(a.addr, b.addr);
    }

    proof fn view_is_value(self) {
    }

    fn ranks_below(&self, other: &Self) -> (r: bool) {
        proof {
            paired_order(
                self.addr.rank(),
                self.path_id as int,
                other.addr.rank(),
                other.path_id as int,
                0x1_0000_0000,
            );
        }
        if self.addr.ranks_below(&other.addr) {
            return true;
        }
        if other.addr.ranks_below(&self.addr) {
            return false;
        }
        self.path_id < other.path_id
    }
}

/// The identifier at a place of a list, where identifiers are in use at all:
/// without one it is 0.
pub open spec fn id_at(in_use: bool, ids: Seq<u32>, i: int) -> u32 {
    if in_use && 0 <= i < ids.len() {
        ids[i]
    } else {
        0
    }
}

/// Prefixes with the identifiers that go with them.
pub open spec fn paths_of<P>(in_use: bool, prefixes: Seq<P>, ids: Seq<u32>) -> Seq<Path<P>> {
    Seq::new(prefixes.len(), |i: int| Path { prefix: prefixes[i], path_id: id_at(in_use, ids, i) })
}

/// The prefixes of paths.
pub open spec fn prefixes_of<P>(paths: Seq<Path<P>>) -> Seq<P> {
    Seq::new(paths.len(), |i: int| paths[i].prefix)
}

/// The identifiers of paths.
pub open spec fn ids_of<P>(paths: Seq<Path<P>>) -> Seq<u32> {
    Seq::new(paths.len(), |i: int| paths[i].path_id)
}

pub fn id_get(in_use: bool, ids: &Vec<u32>, i: usize) -> (r: u32)
    ensures
        r == id_at(in_use, ids@, i as int),
{
    if in_use && i < ids.len() {
        ids[i]
    } else {
        0
    }
}

/// Puts prefixes and identifiers together.
pub fn to_paths<P: Ranked>(in_use: bool, prefixes: &Vec<P>, ids: &Vec<u32>) -> (r: Vec<Path<P>>)
    ensures
        r@ == paths_of(in_use, prefixes@, ids@),
{
    let mut r: Vec<Path<P>> = Vec::new();
    let ghost all = paths_of(in_use, prefixes@, ids@);
    let mut i: usize = 0;
    while i < prefixes.len()
        invariant
            all == paths_of(in_use, prefixes@, ids@),
            i <= prefixes@.len(),
            r@ == all.take(i as int),
        decreases prefixes@.len() - i,
    {
        r.push(Path { prefix: prefixes[i], path_id: id_get(in_use, ids, i) });
        assert(all.take(i + 1) =~= all.take(i as int).push(all[i as int]));
        i += 1;
    }
    assert(all.take(i as int) =~= all);
    r
}

/// The prefixes of paths.
pub fn path_prefixes<P: Ranked>(paths: &Vec<Path<P>>) -> (r: Vec<P>)
    ensures
        r@ == prefixes_of(paths@),
{
    let mut r: Vec<P> = Vec::new();
    let ghost all = prefixes_of(paths@);
    let mut i: usize = 0;
    while i < paths.len()
        invariant
            all == prefixes_of(paths@),
            i <= paths@.len(),
            r@ == all.take(i as int),
        decreases paths@.len() - i,
    {
        r.push(paths[i].prefix);
        assert(all.take(i + 1) =~= all.take(i as int).push(all[i as int]));
        i += 1;
    }
    assert(all.take(i as int) =~= all);
    r
}

/// The identifiers of paths.
pub fn path_ids<P: Ranked>(paths: &Vec<Path<P>>) -> (r: Vec<u32>)
    ensures
        r@ == ids_of(paths@),
{
    let mut r: Vec<u32> = Vec::new();
    let ghost all = ids_of(paths@);
    let mut i: usize = 0;
    while i < paths.len()
        invariant
            all == ids_of(paths@),
            i <= paths@.len(),
            r@ == all.take(i as int),
        decreases paths@.len() - i,
    {
        r.push(paths[i].path_id);
        assert(all.take(i + 1) =~= all.take(i as int).push(all[i as int]));
        i += 1;
    }
    assert(all.take(i as int) =~= all);
    r
}

/// Taking paths apart and putting them together again changes nothing.
pub proof fn paths_rejoin<P>(paths: Seq<Path<P>>)
    ensures
        paths_of(true, prefixes_of(paths), ids_of(paths)) == paths,
{
    assert(paths_of(true, prefixes_of(paths), ids_of(paths)) =~= paths);
}

/// Where identifiers are not in use, every path has the identifier 0, whatever
/// identifiers are given.
pub proof fn unused_ids_are_zero<P>(prefixes: Seq<P>, ids: Seq<u32>, i: int)
    requires
        0 <= i < prefixes.len(),
    ensures
        paths_of(false, prefixes, ids)[i] == (Path { prefix: prefixes[i], path_id: 0 }),
{
}

/// The identifier under which a route of this router itself is advertised.
pub const LOCAL_PATH_ID: u32 = 1;

/// The identifiers under which the paths of neighbors are advertised to
/// others. Each path keeps the identifier that it was given first.
pub struct PathIds {
    pub ids: SortedMap<PeerPath, u32>,
    /// The identifier that was given last.
    pub last: u32,
}

/// Identifiers that tell paths apart from each other and from the routes of
/// this router.
pub open spec fn ids_distinct(ids: Map<PeerPath, u32>) -> bool {
    &&& forall|k: PeerPath| #[trigger] ids.contains_key(k) ==> ids[k] > LOCAL_PATH_ID
    &&& forall|k: PeerPath, l: PeerPath|
        #![trigger ids.contains_key(k), ids.contains_key(l)]
        ids.contains_key(k) && ids.contains_key(l) && ids[k] == ids[l] ==> k == l
}

/// `PathIds` as a mathematical value.
pub struct PathIdsModel {
    pub ids: Map<PeerPath, u32>,
    pub last: u32,
}

impl View for PathIds {
    type V = PathIdsModel;

    open spec fn view(&self) -> PathIdsModel {
        PathIdsModel { ids: self.ids@, last: self.last }
    }
}

/// The identifiers after a path that had none is given one, unless all are
/// given.
pub open spec fn assigned(m: PathIdsModel, path: PeerPath) -> PathIdsModel {
    if m.ids.contains_key(path) || m.last == u32::MAX {
        m
    } else {
        PathIdsModel { ids: m.ids.insert(path, (m.last + 1) as u32), last: (m.last + 1) as u32 }
    }
}

/// What holds of identifiers that are given in turn.
pub open spec fn ids_wf(m: PathIdsModel) -> bool {
    &&& m.last >= LOCAL_PATH_ID
    &&& forall|k: PeerPath| #[trigger] m.ids.contains_key(k) ==> m.ids[k] <= m.last
    &&& ids_distinct(m.ids)
}

impl PathIds {
    pub open spec fn wf(&self) -> bool {
        self.ids.wf() && ids_wf(self@)
    }

    pub fn new() -> (r: Self)
        ensures
            r.wf(),
            r@ == (PathIdsModel { ids: Map::empty(), last: LOCAL_PATH_ID }),
    {
        PathIds { ids: SortedMap::new(), last: LOCAL_PATH_ID }
    }

    /// Gives an identifier to a path that has none, unless all are given.
    pub fn assign(&mut self, path: PeerPath)
        requires
            old(self).wf(),
        ensures
            final(self).wf(),
            final(self)@ == assigned(old(self)@, path),
    {
        if !self.ids.contains_key(&path) && self.last < u32::MAX {
            self.last = self.last + 1;
            self.ids.insert(path, self.last);
        }
    }

    /// The identifier of a path, if it has one.
    pub fn get(&self, path: PeerPath) -> (r: Option<u32>)
        requires
            self.wf(),
        ensures
            r == if self@.ids.contains_key(path) {
                Some(self@.ids[path])
            } else {
                None
            },
    {
        match self.ids.get(&path) {
            Some(id) => Some(*id),
            None => None,
        }
    }
}

}
