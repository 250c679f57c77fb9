//! Ordered maps and sets kept as sorted vectors.
use vstd::prelude::*;

verus! {

/// A type with a strict total order on its abstract values.
pub trait Key: View + Sized {
    /// The strict order.
    spec fn before(a: Self::V, b: Self::V) -> bool;

    proof fn irreflexive(a: Self::V)
        ensures
            !Self::before(a, a),
    ;

    proof fn transitive(a: Self::V, b: Self::V, c: Self::V)
        requires
            Self::before(a, b),
            Self::before(b, c),
        ensures
            Self::before(a, c),
    ;

    proof fn total(a: Self::V, b: Self::V)
        ensures
            Self::before(a, b) || a == b || Self::before(b, a),
    ;

    /// Whether `self` comes before `other`.
    fn precedes(&self, other: &Self) -> (r: bool)
        ensures
            r == Self::before(self@, other@),
    ;

    /// Whether the two values are the same.
    fn same(&self, other: &Self) -> (r: bool)
        ensures
            r == (self@ == other@),
    ;

    /// Another value with the same contents.
    fn duplicate(&self) -> (r: Self)
        ensures
            r@ == self@,
    ;
}

/// Whether the keys of `s` come in strictly increasing order.
pub open spec fn keys_sorted<K: Key, T>(s: Seq<(K, T)>) -> bool {
    forall|i: int, j: int| 0 <= i < j < s.len() ==> K::before((#[trigger] s[i]).0@, (#[trigger] s[j]).0@)
}

/// The position of the key `k`, if it is there.
pub open spec fn has_key<K: Key, T>(s: Seq<(K, T)>, k: K::V) -> bool {
    exists|i: int| 0 <= i < s.len() && (#[trigger] s[i]).0@ == k
}

/// The map that a sequence of entries stands for.
pub open spec fn entries_map<K: Key, T>(s: Seq<(K, T)>) -> Map<K::V, T> {
    Map::new(
        |k: K::V| has_key(s, k),
        |k: K::V| s[choose|i: int| 0 <= i < s.len() && (#[trigger] s[i]).0@ == k].1,
    )
}

/// A map ordered by its keys.
pub struct SortedMap<K, T> {
    pub entries: Vec<(K, T)>,
}

pub broadcast proof fn entries_map_get<K: Key, T>(s: Seq<(K, T)>, i: int)
    requires
        keys_sorted(s),
        0 <= i < s.len(),
    ensures
        entries_map(s).contains_key((#[trigger] s[i]).0@),
        entries_map(s)[s[i].0@] == s[i].1,
{
    let k = s[i].0@;
    assert(has_key(s, k));
    let j = choose|j: int| 0 <= j < s.len() && (#[trigger] s[j]).0@ == k;
    K::irreflexive(k);
    if i < j {
        assert(K::before(s[i].0@, s[j].0@));
    } else if j < i {
        assert(K::before(s[j].0@, s[i].0@));
    }
}

impl<K: Key, T> View for SortedMap<K, T> {
    type V = Map<K::V, T>;

    open spec fn view(&self) -> Map<K::V, T> {
        entries_map(self.entries@)
    }
}

impl<K: Key, T> SortedMap<K, T> {
    /// The keys are in strictly increasing order.
    pub open spec fn wf(&self) -> bool {
        keys_sorted(self.entries@)
    }

    /// The empty map.
    pub fn new() -> (r: Self)
        ensures
            r.wf(),
            r@ == Map::<K::V, T>::empty(),
            r.entries@.len() == 0,
    {
        let r = SortedMap { entries: Vec::new() };
        proof {
            assert(r@ =~= Map::<K::V, T>::empty());
        }
        r
    }

    /// The first position whose key does not come before `k`.
    fn lower_bound(&self, k: &K) -> (r: usize)
        requires
            self.wf(),
        ensures
            r <= self.entries@.len(),
            forall|i: int| 0 <= i < r ==> K::before((#[trigger] self.entries@[i]).0@, k@),
            forall|i: int| r <= i < self.entries@.len() ==> !K::before((#[trigger] self.entries@[i]).0@, k@),
    {
        let mut i: usize = 0;
        while i < self.entries.len() && self.entries[i].0.precedes(k)
            invariant
                self.wf(),
                i <= self.entries@.len(),
                forall|j: int| 0 <= j < i ==> K::before((#[trigger] self.entries@[j]).0@, k@),
            decreases self.entries@.len() - i,
        {
            i += 1;
        }
        proof {
            assert forall|j: int| i <= j < self.entries@.len() implies !K::before((#[trigger] self.entries@[j]).0@, k@) by {
                if j > i && K::before(self.entries@[j].0@, k@) {
                    K::transitive(self.entries@[i as int].0@, self.entries@[j].0@, k@);
                }
            }
        }
        i
    }

    /// The position of the entry for `k`.
    pub fn position(&self, k: &K) -> (r: Option<usize>)
        requires
            self.wf(),
        ensures
            match r {
                Some(i) => i < self.entries@.len() && self.entries@[i as int].0@ == k@ && self@.contains_key(k@)
                    && self@[k@] == self.entries@[i as int].1,
                None => !self@.contains_key(k@),
            },
    {
        let i: usize = self.lower_bound(k);
        if i < self.entries.len() && self.entries[i].0.same(k) {
            proof {
                entries_map_get(self.entries@, i as int);
            }
            Some(i)
        } else {
            proof {
                assert forall|j: int| 0 <= j < self.entries@.len() implies (#[trigger] self.entries@[j]).0@ != k@ by {
                    K::irreflexive(k@);
                    K::total(self.entries@[i as int].0@, k@);
                    if j > i && self.entries@[j].0@ == k@ {
                        assert(K::before(self.entries@[i as int].0@, self.entries@[j].0@));
                    }
                }
            }
            None
        }
    }

    /// The value stored under `k`.
    pub fn get(&self, k: &K) -> (r: Option<&T>)
        requires
            self.wf(),
        ensures
            match r {
                Some(v) => self@.contains_key(k@) && *v == self@[k@],
                None => !self@.contains_key(k@),
            },
    {
        match self.position(k) {
            Some(i) => Some(&self.entries[i].1),
            None => None,
        }
    }

    pub fn contains_key(&self, k: &K) -> (r: bool)
        requires
            self.wf(),
        ensures
            r == self@.contains_key(k@),
    {
        self.position(k).is_some()
    }

    /// The value stored under `k`, to be changed in place.
    pub fn get_mut(&mut self, k: &K) -> (r: Option<&mut T>)
        requires
            old(self).wf(),
        ensures
            final(self).wf(),
            match r {
                Some(v) => old(self)@.contains_key(k@) && *v == old(self)@[k@] && final(self)@ == old(self)@.insert(
                    k@,
                    *final(v),
                ) && final(self).keys() == old(self).keys(),
                None => !old(self)@.contains_key(k@) && *final(self) == *old(self),
            },
    {
        match self.position(k) {
            Some(i) => {
                proof {
                    let s = self.entries@;
                    assert forall|x: T| #![trigger s.update(i as int, (s[i as int].0, x))]
                        keys_sorted(s.update(i as int, (s[i as int].0, x))) && entries_map(
                        s.update(i as int, (s[i as int].0, x)),
                    ) == entries_map(s).insert(k@, x) && entry_keys(s.update(i as int, (s[i as int].0, x)))
                        == entry_keys(s) by {
                        update_entry(s, i as int, x);
                    }
                }
                Some(&mut self.entries[i].1)
            },
            None => None,
        }
    }

    /// Stores `v` under `k`, in place of what was there.
    pub fn insert(&mut self, k: K, v: T)
        requires
            old(self).wf(),
        ensures
            final(self).wf(),
            final(self)@ == old(self)@.insert(k@, v),
    {
        let i: usize = self.lower_bound(&k);
        let ghost s = self.entries@;
        let ghost kv = k@;
        if i < self.entries.len() && self.entries[i].0.same(&k) {
            proof {
                update_entry(s, i as int, v);
            }
            self.entries[i].1 = v;
            assert(self.entries@ == s.update(i as int, (s[i as int].0, v)));
        } else {
            proof {
                if i < s.len() {
                    K::total(s[i as int].0@, kv);
                }
                insert_entry(s, i as int, k, v);
            }
            self.entries.insert(i, (k, v));
        }
    }

    /// Takes out the entry for `k`.
    pub fn remove(&mut self, k: &K) -> (r: Option<T>)
        requires
            old(self).wf(),
        ensures
            final(self).wf(),
            final(self)@ == old(self)@.remove(k@),
            match r {
                Some(v) => old(self)@.contains_key(k@) && v == old(self)@[k@],
                None => !old(self)@.contains_key(k@) && *final(self) == *old(self),
            },
    {
        match self.position(k) {
            Some(i) => {
                proof {
                    remove_entry(self.entries@, i as int);
                }
                let e = self.entries.remove(i);
                Some(e.1)
            },
            None => {
                assert(self@.remove(k@) =~= self@);
                None
            },
        }
    }

    /// The keys in increasing order.
    pub open spec fn keys(&self) -> Seq<K::V> {
        entry_keys(self.entries@)
    }

    pub fn is_empty(&self) -> (r: bool)
        requires
            self.wf(),
        ensures
            r == (self@ == Map::<K::V, T>::empty()),
            r == (self.entries@.len() == 0),
    {
        proof {
            if self.entries@.len() > 0 {
                entries_map_get(self.entries@, 0);
            } else {
                assert(self@ =~= Map::<K::V, T>::empty());
            }
        }
        self.entries.len() == 0
    }
}

/// The keys of a sequence of entries.
pub open spec fn entry_keys<K: Key, T>(s: Seq<(K, T)>) -> Seq<K::V> {
    Seq::new(s.len(), |i: int| s[i].0@)
}

pub proof fn update_entry<K: Key, T>(s: Seq<(K, T)>, i: int, v: T)
    requires
        keys_sorted(s),
        0 <= i < s.len(),
    ensures
        keys_sorted(s.update(i, (s[i].0, v))),
        entries_map(s.update(i, (s[i].0, v))) == entries_map(s).insert(s[i].0@, v),
        entry_keys(s.update(i, (s[i].0, v))) == entry_keys(s),
{
    let t = s.update(i, (s[i].0, v));
    assert(entry_keys(t) =~= entry_keys(s));
    assert forall|a: int, b: int| 0 <= a < b < t.len() implies K::before((#[trigger] t[a]).0@, (#[trigger] t[b]).0@) by {
        assert(K::before(s[a].0@, s[b].0@));
    }
    let m = entries_map(s).insert(s[i].0@, v);
    assert forall|j: int| 0 <= j < t.len() implies m.contains_key((#[trigger] t[j]).0@) && m[t[j].0@] == t[j].1 by {
        entries_map_get(s, j);
        K::irreflexive(s[i].0@);
        if j < i {
            assert(K::before(s[j].0@, s[i].0@));
        } else if j > i {
            assert(K::before(s[i].0@, s[j].0@));
        }
    }
    assert forall|x: K::V| #[trigger] m.contains_key(x) implies has_key(t, x) by {
        if x == s[i].0@ {
            assert(t[i].0@ == x);
        } else {
            let j = choose|j: int| 0 <= j < s.len() && (#[trigger] s[j]).0@ == x;
            assert(t[j].0@ == x);
        }
    }
    map_is(t, m);
}

pub proof fn insert_entry<K: Key, T>(s: Seq<(K, T)>, i: int, k: K, v: T)
    requires
        keys_sorted(s),
        0 <= i <= s.len(),
        forall|j: int| 0 <= j < i ==> K::before((#[trigger] s[j]).0@, k@),
        i < s.len() ==> K::before(k@, s[i].0@),
    ensures
        keys_sorted(s.insert(i, (k, v))),
        entries_map(s.insert(i, (k, v))) == entries_map(s).insert(k@, v),
{
    let t = s.insert(i, (k, v));
    assert forall|j: int| i <= j < s.len() implies K::before(k@, (#[trigger] s[j]).0@) by {
        if j > i {
            K::transitive(k@, s[i].0@, s[j].0@);
        }
    }
    assert forall|a: int, b: int| 0 <= a < b < t.len() implies K::before((#[trigger] t[a]).0@, (#[trigger] t[b]).0@) by {
        let a0 = if a < i { a } else { a - 1 };
        let b0 = if b < i { b } else { b - 1 };
        if a != i && b != i {
            assert(K::before(s[a0].0@, s[b0].0@));
        }
    }
    let m = entries_map(s).insert(k@, v);
    assert forall|j: int| 0 <= j < t.len() implies m.contains_key((#[trigger] t[j]).0@) && m[t[j].0@] == t[j].1 by {
        if j != i {
            let j0 = if j < i { j } else { j - 1 };
            entries_map_get(s, j0);
            K::irreflexive(k@);
            assert(t[j] == s[j0]);
        }
    }
    assert forall|x: K::V| #[trigger] m.contains_key(x) implies has_key(t, x) by {
        if x == k@ {
            assert(t[i].0@ == x);
        } else {
            let j = choose|j: int| 0 <= j < s.len() && (#[trigger] s[j]).0@ == x;
            let j1 = if j < i { j } else { j + 1 };
            assert(t[j1] == s[j]);
        }
    }
    map_is(t, m);
}

pub proof fn remove_entry<K: Key, T>(s: Seq<(K, T)>, i: int)
    requires
        keys_sorted(s),
        0 <= i < s.len(),
    ensures
        keys_sorted(s.remove(i)),
        entries_map(s.remove(i)) == entries_map(s).remove(s[i].0@),
{
    let t = s.remove(i);
    assert forall|a: int, b: int| 0 <= a < b < t.len() implies K::before((#[trigger] t[a]).0@, (#[trigger] t[b]).0@) by {
        let a0 = if a < i { a } else { a + 1 };
        let b0 = if b < i { b } else { b + 1 };
        assert(K::before(s[a0].0@, s[b0].0@));
    }
    let m = entries_map(s).remove(s[i].0@);
    assert forall|j: int| 0 <= j < t.len() implies m.contains_key((#[trigger] t[j]).0@) && m[t[j].0@] == t[j].1 by {
        let j0 = if j < i { j } else { j + 1 };
        entries_map_get(s, j0);
        K::irreflexive(s[i].0@);
        assert(t[j] == s[j0]);
        if j0 < i {
            assert(K::before(s[j0].0@, s[i].0@));
        } else {
            assert(K::before(s[i].0@, s[j0].0@));
        }
    }
    assert forall|x: K::V| #[trigger] m.contains_key(x) implies has_key(t, x) by {
        let j = choose|j: int| 0 <= j < s.len() && (#[trigger] s[j]).0@ == x;
        let j1 = if j < i { j } else { j - 1 };
        assert(t[j1] == s[j]);
    }
    map_is(t, m);
}

/// A map that holds exactly the entries of `s` is the map of `s`.
pub proof fn map_is<K: Key, T>(s: Seq<(K, T)>, m: Map<K::V, T>)
    requires
        keys_sorted(s),
        forall|j: int| 0 <= j < s.len() ==> m.contains_key((#[trigger] s[j]).0@) && m[s[j].0@] == s[j].1,
        forall|x: K::V| #[trigger] m.contains_key(x) ==> has_key(s, x),
    ensures
        entries_map(s) == m,
{
    assert forall|x: K::V| #[trigger] entries_map(s).contains_key(x) implies m.contains_key(x) && m[x]
        == entries_map(s)[x] by {
        let j = choose|j: int| 0 <= j < s.len() && (#[trigger] s[j]).0@ == x;
        entries_map_get(s, j);
    }
    assert(entries_map(s) =~= m);
}

/// A set ordered by its elements.
pub struct SortedSet<K> {
    pub items: SortedMap<K, ()>,
}

impl<K: Key> View for SortedSet<K> {
    type V = Set<K::V>;

    open spec fn view(&self) -> Set<K::V> {
        self.items@.dom()
    }
}

impl<K: Key> SortedSet<K> {
    /// The elements are in strictly increasing order.
    pub open spec fn wf(&self) -> bool {
        self.items.wf()
    }

    /// The elements in increasing order.
    pub open spec fn elems(&self) -> Seq<K::V> {
        self.items.keys()
    }

    /// The empty set.
    pub fn new() -> (r: Self)
        ensures
            r.wf(),
            r@ == Set::<K::V>::empty(),
            r.elems() == Seq::<K::V>::empty(),
    {
        let r = SortedSet { items: SortedMap::new() };
        proof {
            assert(r@ =~= Set::<K::V>::empty());
            assert(r.elems() =~= Seq::<K::V>::empty());
        }
        r
    }

    pub fn contains(&self, k: &K) -> (r: bool)
        requires
            self.wf(),
        ensures
            r == self@.contains(k@),
    {
        self.items.contains_key(k)
    }

    /// Puts `k` into the set.
    pub fn insert(&mut self, k: K)
        requires
            old(self).wf(),
        ensures
            final(self).wf(),
            final(self)@ == old(self)@.insert(k@),
    {
        let ghost kv = k@;
        self.items.insert(k, ());
        assert(self@ =~= old(self)@.insert(kv));
    }

    /// Takes `k` out of the set and says whether it was there.
    pub fn remove(&mut self, k: &K) -> (r: bool)
        requires
            old(self).wf(),
        ensures
            final(self).wf(),
            final(self)@ == old(self)@.remove(k@),
            r == old(self)@.contains(k@),
    {
        let r = self.items.remove(k).is_some();
        assert(self@ =~= old(self)@.remove(k@));
        r
    }

    pub fn len(&self) -> (r: usize)
        ensures
            r == self.elems().len(),
    {
        self.items.entries.len()
    }

    pub fn is_empty(&self) -> (r: bool)
        requires
            self.wf(),
        ensures
            r == (self@ == Set::<K::V>::empty()),
            r == (self.elems().len() == 0),
    {
        proof {
            if self.items.entries@.len() > 0 {
                entries_map_get(self.items.entries@, 0);
            } else {
                assert(self@ =~= Set::<K::V>::empty());
            }
        }
        self.items.entries.len() == 0
    }

    /// The element at position `i` of the order.
    pub fn nth(&self, i: usize) -> (r: &K)
        requires
            i < self.elems().len(),
        ensures
            r@ == self.elems()[i as int],
    {
        &self.items.entries[i].0
    }
}

impl<K: Key> SortedSet<K> {
    /// Whether two sets hold the same elements.
    pub fn same_set(&self, other: &Self) -> (r: bool)
        requires
            self.wf(),
            other.wf(),
        ensures
            r == (self@ == other@),
    {
        if self.len() != other.len() {
            proof {
                if self@ == other@ {
                    sets_have_one_order(*self, *other);
                }
            }
            return false;
        }
        let mut i: usize = 0;
        while i < self.len()
            invariant
                self.wf(),
                other.wf(),
                self.elems().len() == other.elems().len(),
                i <= self.elems().len(),
                forall|j: int| 0 <= j < i ==> #[trigger] self.elems()[j] == other.elems()[j],
            decreases self.elems().len() - i,
        {
            if !self.nth(i).same(other.nth(i)) {
                proof {
                    if self@ == other@ {
                        sets_have_one_order(*self, *other);
                    }
                }
                return false;
            }
            i += 1;
        }
        proof {
            assert(self.elems() =~= other.elems());
            assert forall|k: K::V| self@.contains(k) <==> other@.contains(k) by {
                keys_are_domain(self.items, k);
                keys_are_domain(other.items, k);
            }
            assert(self@ =~= other@);
        }
        true
    }

    /// A copy of the set.
    pub fn duplicate(&self) -> (r: Self)
        requires
            self.wf(),
        ensures
            r.wf(),
            r@ == self@,
    {
        let mut r = SortedSet::new();
        r.extend(self);
        assert(r@ =~= self@);
        r
    }

    /// Puts the elements of `other` into the set.
    pub fn extend(&mut self, other: &Self)
        requires
            old(self).wf(),
            other.wf(),
        ensures
            final(self).wf(),
            final(self)@ == old(self)@.union(other@),
    {
        let mut i: usize = 0;
        assert(other.elems().take(0).to_set() =~= Set::empty());
        assert(self@ =~= old(self)@.union(Set::empty()));
        while i < other.len()
            invariant
                other.wf(),
                self.wf(),
                i <= other.elems().len(),
                self@ == old(self)@.union(other.elems().take(i as int).to_set()),
            decreases other.elems().len() - i,
        {
            let ghost pre = other.elems().take(i as int);
            let ghost cur = other.elems().take(i + 1);
            assert(cur =~= pre.push(other.elems()[i as int]));
            self.insert(other.nth(i).duplicate());
            proof {
                taken_set(other.elems(), i as int);
                assert(self@ =~= old(self)@.union(cur.to_set()));
            }
            i += 1;
        }
        proof {
            assert(other.elems().take(i as int) =~= other.elems());
            elems_are_set(*other);
        }
    }

    /// Keeps the elements that `other` does not hold.
    pub fn remove_all(&mut self, other: &Self)
        requires
            old(self).wf(),
            other.wf(),
        ensures
            final(self).wf(),
            final(self)@ == old(self)@.difference(other@),
    {
        let mut i: usize = 0;
        assert(other.elems().take(0).to_set() =~= Set::empty());
        assert(self@ =~= old(self)@.difference(Set::empty()));
        while i < other.len()
            invariant
                other.wf(),
                self.wf(),
                i <= other.elems().len(),
                self@ == old(self)@.difference(other.elems().take(i as int).to_set()),
            decreases other.elems().len() - i,
        {
            let ghost cur = other.elems().take(i + 1);
            self.remove(other.nth(i));
            proof {
                taken_set(other.elems(), i as int);
                assert(self@ =~= old(self)@.difference(cur.to_set()));
            }
            i += 1;
        }
        proof {
            assert(other.elems().take(i as int) =~= other.elems());
            elems_are_set(*other);
        }
    }

    /// Whether the sets share an element.
    pub fn intersects(&self, other: &Self) -> (r: bool)
        requires
            self.wf(),
            other.wf(),
        ensures
            r == exists|k: K::V| #[trigger] self@.contains(k) && other@.contains(k),
    {
        let mut i: usize = 0;
        while i < self.len()
            invariant
                self.wf(),
                other.wf(),
                i <= self.elems().len(),
                forall|j: int| 0 <= j < i ==> !other@.contains(#[trigger] self.elems()[j]),
            decreases self.elems().len() - i,
        {
            if other.contains(self.nth(i)) {
                proof {
                    elems_are_set(*self);
                    assert(self.elems().contains(self.elems()[i as int]));
                    assert(self@.contains(self.elems()[i as int]));
                }
                return true;
            }
            i += 1;
        }
        proof {
            elems_are_set(*self);
            assert forall|k: K::V| #[trigger] self@.contains(k) implies !other@.contains(k) by {
                assert(self.elems().contains(k));
            }
        }
        false
    }
}

pub proof fn taken_set<V>(s: Seq<V>, i: int)
    requires
        0 <= i < s.len(),
    ensures
        s.take(i + 1).to_set() == s.take(i).to_set().insert(s[i]),
{
    assert(s.take(i + 1) =~= s.take(i).push(s[i]));
    assert forall|x: V| #[trigger] s.take(i + 1).to_set().contains(x) <==> s.take(i).to_set().insert(s[i]).contains(x) by {
        let cur = s.take(i + 1);
        let pre = s.take(i);
        if cur.contains(x) {
            let j = choose|j: int| 0 <= j < cur.len() && cur[j] == x;
            if j < i {
                assert(pre[j] == x);
            }
        }
        if pre.contains(x) {
            let j = choose|j: int| 0 <= j < pre.len() && pre[j] == x;
            assert(cur[j] == x);
        }
        assert(cur[i] == s[i]);
    }
    assert(s.take(i + 1).to_set() =~= s.take(i).to_set().insert(s[i]));
}

/// A set holds what its listing holds.
pub proof fn elems_are_set<K: Key>(s: SortedSet<K>)
    ensures
        s.elems().to_set() == s@,
        forall|k: K::V| #[trigger] s@.contains(k) <==> s.elems().contains(k),
{
    assert forall|k: K::V| #[trigger] s@.contains(k) <==> s.elems().contains(k) by {
        keys_are_domain(s.items, k);
    }
    assert(s.elems().to_set() =~= s@);
}

/// A set has as many elements as its listing.
pub proof fn elems_count<K: Key>(s: SortedSet<K>)
    requires
        s.wf(),
    ensures
        s@.len() == s.elems().len(),
        s@.finite(),
{
    elems_are_set(s);
    let e = s.elems();
    assert forall|i: int, j: int| 0 <= i < j < e.len() implies e[i] != e[j] by {
        assert(K::before(s.items.entries@[i].0@, s.items.entries@[j].0@));
        K::irreflexive(e[i]);
    }
    assert(e.no_duplicates());
    e.unique_seq_to_set();
}

/// Sequences in strict order with the same members are the same.
pub proof fn one_order<K: Key>(a: Seq<K::V>, b: Seq<K::V>)
    requires
        forall|i: int, j: int| 0 <= i < j < a.len() ==> K::before(#[trigger] a[i], #[trigger] a[j]),
        forall|i: int, j: int| 0 <= i < j < b.len() ==> K::before(#[trigger] b[i], #[trigger] b[j]),
        forall|k: K::V| #[trigger] a.contains(k) <==> b.contains(k),
    ensures
        a == b,
    decreases a.len(),
{
    if a.len() == 0 {
        if b.len() > 0 {
            assert(b.contains(b[0]));
            assert(a.contains(b[0]));
        }
        assert(a =~= b);
    } else {
        assert(a.contains(a.last()));
        assert(b.contains(a.last()));
        let m = choose|m: int| 0 <= m < b.len() && b[m] == a.last();
        assert(b.contains(b.last()));
        assert(a.contains(b.last()));
        let n = choose|n: int| 0 <= n < a.len() && a[n] == b.last();
        if m < b.len() - 1 {
            assert(K::before(b[m], b[b.len() - 1]));
            if n < a.len() - 1 {
                assert(K::before(a[n], a[a.len() - 1]));
                K::transitive(a.last(), b.last(), a.last());
            }
            K::irreflexive(a.last());
        }
        assert(a.last() == b.last());
        let a0 = a.drop_last();
        let b0 = b.drop_last();
        K::irreflexive(a.last());
        assert forall|k: K::V| #[trigger] a0.contains(k) <==> b0.contains(k) by {
            if a0.contains(k) {
                let i = choose|i: int| 0 <= i < a0.len() && a0[i] == k;
                assert(a[i] == k && K::before(a[i], a[a.len() - 1]));
                assert(a.contains(k));
                assert(b.contains(k));
                let j = choose|j: int| 0 <= j < b.len() && b[j] == k;
                assert(b0[j] == k);
            }
            if b0.contains(k) {
                let i = choose|i: int| 0 <= i < b0.len() && b0[i] == k;
                assert(b[i] == k && K::before(b[i], b[b.len() - 1]));
                assert(b.contains(k));
                assert(a.contains(k));
                let j = choose|j: int| 0 <= j < a.len() && a[j] == k;
                assert(a0[j] == k);
            }
        }
        one_order::<K>(a0, b0);
        assert(a =~= a0.push(a.last()));
        assert(b =~= b0.push(b.last()));
    }
}

/// Whether `s` lists the members of a set in order, each once.
pub open spec fn lists<K: Key>(s: Seq<K::V>, set: Set<K::V>) -> bool {
    &&& forall|i: int, j: int| 0 <= i < j < s.len() ==> K::before(#[trigger] s[i], #[trigger] s[j])
    &&& forall|k: K::V| #[trigger] set.contains(k) <==> s.contains(k)
}

/// The members of a set in order.
pub open spec fn in_order<K: Key>(set: Set<K::V>) -> Seq<K::V> {
    choose|s: Seq<K::V>| lists::<K>(s, set)
}

/// Where a value belongs in a list in order that does not hold it.
proof fn place_in_order<K: Key>(s: Seq<K::V>, x: K::V) -> (n: int)
    requires
        forall|i: int, j: int| 0 <= i < j < s.len() ==> K::before(#[trigger] s[i], #[trigger] s[j]),
        !s.contains(x),
    ensures
        0 <= n <= s.len(),
        forall|i: int| 0 <= i < n ==> K::before(#[trigger] s[i], x),
        forall|i: int| n <= i < s.len() ==> K::before(x, #[trigger] s[i]),
    decreases s.len(),
{
    if s.len() == 0 {
        0
    } else {
        let last = s[s.len() - 1];
        assert(s.contains(last));
        K::total(last, x);
        if K::before(last, x) {
            assert forall|i: int| 0 <= i < s.len() implies K::before(#[trigger] s[i], x) by {
                if i < s.len() - 1 {
                    K::transitive(s[i], last, x);
                }
            }
            s.len() as int
        } else {
            let init = s.drop_last();
            if init.contains(x) {
                let i = choose|i: int| 0 <= i < init.len() && init[i] == x;
                assert(s[i] == x);
            }
            let n = place_in_order::<K>(init, x);
            assert forall|i: int| n <= i < s.len() implies K::before(x, #[trigger] s[i]) by {
                if i < init.len() {
                    assert(init[i] == s[i]);
                }
            }
            assert forall|i: int| 0 <= i < n implies K::before(#[trigger] s[i], x) by {
                assert(init[i] == s[i]);
            }
            n
        }
    }
}

/// The members of a finite set can be listed in order.
pub proof fn finite_sets_have_order<K: Key>(set: Set<K::V>)
    requires
        set.finite(),
    ensures
        lists::<K>(in_order::<K>(set), set),
    decreases set.len(),
{
    if set.len() == 0 {
        assert(set =~= Set::<K::V>::empty());
        assert(lists::<K>(Seq::<K::V>::empty(), set));
    } else {
        let x = set.choose();
        let rest = set.remove(x);
        finite_sets_have_order::<K>(rest);
        let s = in_order::<K>(rest);
        assert(!rest.contains(x));
        let n = place_in_order::<K>(s, x);
        let all = s.insert(n, x);
        assert forall|i: int, j: int| 0 <= i < j < all.len() implies K::before(#[trigger] all[i], #[trigger] all[j]) by {
            if i < n {
                assert(all[i] == s[i]);
            } else if i > n {
                assert(all[i] == s[i - 1]);
            }
            if j < n {
                assert(all[j] == s[j]);
            } else if j > n {
                assert(all[j] == s[j - 1]);
            }
        }
        assert forall|k: K::V| #[trigger] set.contains(k) <==> all.contains(k) by {
            assert(all[n] == x);
            if set.contains(k) && k != x {
                assert(rest.contains(k));
                assert(s.contains(k));
                let i = choose|i: int| 0 <= i < s.len() && s[i] == k;
                if i < n {
                    assert(all[i] == k);
                } else {
                    assert(all[i + 1] == k);
                }
            }
            if all.contains(k) && k != x {
                let i = choose|i: int| 0 <= i < all.len() && all[i] == k;
                if i < n {
                    assert(s[i] == k);
                } else {
                    assert(s[i - 1] == k);
                }
                assert(s.contains(k));
                assert(rest.contains(k));
            }
        }
        assert(lists::<K>(all, set));
    }
}

/// The keys of a map are its domain in order.
pub proof fn keys_in_order<K: Key, T>(m: SortedMap<K, T>)
    requires
        m.wf(),
    ensures
        lists::<K>(m.keys(), m@.dom()),
        m.keys() == in_order::<K>(m@.dom()),
{
    let x = m.keys();
    assert forall|i: int, j: int| 0 <= i < j < x.len() implies K::before(#[trigger] x[i], #[trigger] x[j]) by {
        assert(K::before(m.entries@[i].0@, m.entries@[j].0@));
    }
    assert forall|k: K::V| #[trigger] m@.dom().contains(k) <==> x.contains(k) by {
        keys_are_domain(m, k);
    }
    assert(lists::<K>(x, m@.dom()));
    let y = in_order::<K>(m@.dom());
    assert forall|k: K::V| #[trigger] x.contains(k) <==> y.contains(k) by {
        assert(m@.dom().contains(k) <==> x.contains(k));
        assert(m@.dom().contains(k) <==> y.contains(k));
    }
    one_order::<K>(x, y);
}

/// The listing of a set is its elements in order.
pub proof fn elems_in_order<K: Key>(s: SortedSet<K>)
    requires
        s.wf(),
    ensures
        lists::<K>(s.elems(), s@),
        s.elems() == in_order::<K>(s@),
{
    keys_in_order(s.items);
}

/// The listing of a set is determined by its elements.
pub proof fn sets_have_one_order<K: Key>(a: SortedSet<K>, b: SortedSet<K>)
    requires
        a.wf(),
        b.wf(),
        a@ == b@,
    ensures
        a.elems() == b.elems(),
{
    elems_are_set(a);
    elems_are_set(b);
    let x = a.elems();
    let y = b.elems();
    assert forall|i: int, j: int| 0 <= i < j < x.len() implies K::before(#[trigger] x[i], #[trigger] x[j]) by {
        assert(K::before(a.items.entries@[i].0@, a.items.entries@[j].0@));
    }
    assert forall|i: int, j: int| 0 <= i < j < y.len() implies K::before(#[trigger] y[i], #[trigger] y[j]) by {
        assert(K::before(b.items.entries@[i].0@, b.items.entries@[j].0@));
    }
    assert forall|k: K::V| #[trigger] x.contains(k) <==> y.contains(k) by {
        keys_are_domain(a.items, k);
        keys_are_domain(b.items, k);
        assert(a@.contains(k) <==> b@.contains(k));
    }
    one_order::<K>(x, y);
}

/// Being a key of the map is being listed among its keys.
pub broadcast proof fn keys_are_domain<K: Key, T>(m: SortedMap<K, T>, k: K::V)
    ensures
        #[trigger] m@.contains_key(k) <==> m.keys().contains(k),
{
    if m@.contains_key(k) {
        let i = choose|i: int| 0 <= i < m.entries@.len() && (#[trigger] m.entries@[i]).0@ == k;
        assert(m.keys()[i] == k);
    }
    if m.keys().contains(k) {
        let i = choose|i: int| 0 <= i < m.keys().len() && m.keys()[i] == k;
        assert(m.entries@[i].0@ == k);
    }
}

/// Lexicographic order of texts by the code points of their characters.
pub open spec fn text_before(a: Seq<char>, b: Seq<char>) -> bool
    decreases a.len(),
{
    if b.len() == 0 {
        false
    } else if a.len() == 0 {
        true
    } else if a[0] != b[0] {
        (a[0] as int) < (b[0] as int)
    } else {
        text_before(a.drop_first(), b.drop_first())
    }
}

proof fn text_irreflexive(a: Seq<char>)
    ensures
        !text_before(a, a),
    decreases a.len(),
{
    if a.len() > 0 {
        text_irreflexive(a.drop_first());
    }
}

proof fn text_transitive(a: Seq<char>, b: Seq<char>, c: Seq<char>)
    requires
        text_before(a, b),
        text_before(b, c),
    ensures
        text_before(a, c),
    decreases a.len(),
{
    if a.len() > 0 && b.len() > 0 && c.len() > 0 && a[0] == b[0] && b[0] == c[0] {
        text_transitive(a.drop_first(), b.drop_first(), c.drop_first());
    }
}

proof fn text_total(a: Seq<char>, b: Seq<char>)
    ensures
        text_before(a, b) || a == b || text_before(b, a),
    decreases a.len(),
{
    if a.len() > 0 && b.len() > 0 && a[0] == b[0] {
        text_total(a.drop_first(), b.drop_first());
        if a.drop_first() == b.drop_first() {
            assert(a =~= seq![a[0]] + a.drop_first());
            assert(b =~= seq![b[0]] + b.drop_first());
        }
    } else if a.len() == 0 && b.len() == 0 {
        assert(a =~= b);
    }
}

impl Key for String {
    open spec fn before(a: Seq<char>, b: Seq<char>) -> bool {
        text_before(a, b)
    }

    proof fn irreflexive(a: Seq<char>) {
        text_irreflexive(a);
    }

    proof fn transitive(a: Seq<char>, b: Seq<char>, c: Seq<char>) {
        text_transitive(a, b, c);
    }

    proof fn total(a: Seq<char>, b: Seq<char>) {
        text_total(a, b);
    }

    fn precedes(&self, other: &Self) -> (r: bool) {
        let x = self.as_str();
        let y = other.as_str();
        let n: usize = x.unicode_len();
        let m: usize = y.unicode_len();
        let mut i: usize = 0;
        assert(x@.skip(0) =~= x@ && y@.skip(0) =~= y@);
        while i < n && i < m
            invariant
                x@ == self@,
                y@ == other@,
                n == x@.len(),
                m == y@.len(),
                i <= n,
                i <= m,
                text_before(x@, y@) == text_before(x@.skip(i as int), y@.skip(i as int)),
            decreases n - i,
        {
            let c = x.get_char(i);
            let d = y.get_char(i);
            let ghost xs = x@.skip(i as int);
            let ghost ys = y@.skip(i as int);
            assert(xs[0] == c && ys[0] == d);
            assert(xs.drop_first() =~= x@.skip(i + 1));
            assert(ys.drop_first() =~= y@.skip(i + 1));
            if c != d {
                return c < d;
            }
            i += 1;
        }
        i < m
    }

    fn same(&self, other: &Self) -> (r: bool) {
        *self == *other
    }

    fn duplicate(&self) -> (r: Self) {
        self.clone()
    }
}

/// A plain value that is ordered by a number which identifies it.
pub trait Ranked: Copy + View<V = Self> {
    /// The number that orders the values.
    spec fn rank(self) -> int;

    proof fn rank_identifies(a: Self, b: Self)
        requires
            a.rank() == b.rank(),
        ensures
            a == b,
    ;

    proof fn view_is_value(self)
        ensures
            self@ == self,
    ;

    /// Whether `self` has the smaller number.
    fn ranks_below(&self, other: &Self) -> (r: bool)
        ensures
            r == (self.rank() < other.rank()),
    ;
}

impl<T: Ranked> Key for T {
    open spec fn before(a: T, b: T) -> bool {
        a.rank() < b.rank()
    }

    proof fn irreflexive(a: T) {
    }

    proof fn transitive(a: T, b: T, c: T) {
    }

    proof fn total(a: T, b: T) {
        if a.rank() == b.rank() {
            T::rank_identifies(a, b);
        }
    }

    fn precedes(&self, other: &Self) -> (r: bool) {
        proof {
            self.view_is_value();
            other.view_is_value();
        }
        self.ranks_below(other)
    }

    fn same(&self, other: &Self) -> (r: bool) {
        proof {
            self.view_is_value();
            other.view_is_value();
            if self.rank() == other.rank() {
                T::rank_identifies(*self, *other);
            }
        }
        !self.ranks_below(other) && !other.ranks_below(self)
    }

    fn duplicate(&self) -> (r: Self) {
        *self
    }
}

impl Ranked for u32 {
    open spec fn rank(self) -> int {
        self as int
    }

    proof fn rank_identifies(a: Self, b: Self) {
    }

    proof fn view_is_value(self) {
    }

    fn ranks_below(&self, other: &Self) -> (r: bool) {
        *self < *other
    }
}

impl Ranked for u16 {
    open spec fn rank(self) -> int {
        self as int
    }

    proof fn rank_identifies(a: Self, b: Self) {
    }

    proof fn view_is_value(self) {
    }

    fn ranks_below(&self, other: &Self) -> (r: bool) {
        *self < *other
    }
}

impl Ranked for u64 {
    open spec fn rank(self) -> int {
        self as int
    }

    proof fn rank_identifies(a: Self, b: Self) {
    }

    proof fn view_is_value(self) {
    }

    fn ranks_below(&self, other: &Self) -> (r: bool) {
        *self < *other
    }
}

impl<K: Key, T: Copy> SortedMap<K, T> {
    /// A copy of a map of plain values.
    pub fn duplicate(&self) -> (r: Self)
        requires
            self.wf(),
        ensures
            r.wf(),
            r@ == self@,
    {
        let mut r: SortedMap<K, T> = SortedMap::new();
        let mut i: usize = 0;
        while i < self.entries.len()
            invariant
                self.wf(),
                r.wf(),
                i <= self.entries@.len(),
                forall|k: K::V| #[trigger] r@.contains_key(k) <==> exists|j: int|
                    0 <= j < i && (#[trigger] self.entries@[j]).0@ == k,
                forall|j: int| 0 <= j < i ==> r@[(#[trigger] self.entries@[j]).0@] == self.entries@[j].1,
            decreases self.entries@.len() - i,
        {
            let ghost before = r@;
            let ghost k = self.entries@[i as int].0@;
            r.insert(self.entries[i].0.duplicate(), self.entries[i].1);
            proof {
                assert forall|x: K::V| #[trigger] r@.contains_key(x) <==> exists|j: int|
                    0 <= j < i + 1 && (#[trigger] self.entries@[j]).0@ == x by {
                    if before.contains_key(x) {
                        let j = choose|j: int| 0 <= j < i && (#[trigger] self.entries@[j]).0@ == x;
                        assert(self.entries@[j].0@ == x);
                    } else if r@.contains_key(x) {
                        assert(self.entries@[i as int].0@ == x);
                    }
                    if exists|j: int| 0 <= j < i + 1 && (#[trigger] self.entries@[j]).0@ == x {
                        let j = choose|j: int| 0 <= j < i + 1 && (#[trigger] self.entries@[j]).0@ == x;
                        if j < i {
                            assert(before.contains_key(x));
                        }
                    }
                }
                assert forall|j: int| 0 <= j < i + 1 implies r@[(#[trigger] self.entries@[j]).0@]
                    == self.entries@[j].1 by {
                    if j < i {
                        assert(K::before(self.entries@[j].0@, self.entries@[i as int].0@));
                        K::irreflexive(k);
                    }
                }
            }
            i += 1;
        }
        proof {
            assert forall|k: K::V| #[trigger] r@.contains_key(k) implies self@.contains_key(k) && self@[k] == r@[k] by {
                let j = choose|j: int| 0 <= j < i && (#[trigger] self.entries@[j]).0@ == k;
                entries_map_get(self.entries@, j);
            }
            assert forall|k: K::V| #[trigger] self@.contains_key(k) implies r@.contains_key(k) by {
                let j = choose|j: int| 0 <= j < self.entries@.len() && (#[trigger] self.entries@[j]).0@ == k;
                assert(self.entries@[j].0@ == k);
            }
            assert(r@ =~= self@);
        }
        r
    }
}

/// A map with its values taken by their views.
pub open spec fn models<K, T: View>(m: Map<K, T>) -> Map<K, T::V> {
    Map::new(|k: K| m.contains_key(k), |k: K| m[k]@)
}

/// Storing a value stores its view.
pub proof fn models_insert<K, T: View>(m: Map<K, T>, k: K, t: T)
    ensures
        models(m.insert(k, t)) == models(m).insert(k, t@),
{
    assert(models(m.insert(k, t)) =~= models(m).insert(k, t@));
}

/// Taking out a value takes out its view.
pub proof fn models_remove<K, T: View>(m: Map<K, T>, k: K)
    ensures
        models(m.remove(k)) == models(m).remove(k),
{
    assert(models(m.remove(k)) =~= models(m).remove(k));
}

/// A value of which copies can be made.
pub trait Duplicate: View + Sized {
    /// What a value has to be for a copy to be made.
    spec fn valid(&self) -> bool;

    fn copy_of(&self) -> (r: Self)
        requires
            self.valid(),
        ensures
            r.valid(),
            r@ == self@,
    ;
}

/// Every value of a map is valid.
pub open spec fn all_valid<K, T: Duplicate>(m: Map<K, T>) -> bool {
    forall|k: K| #[trigger] m.contains_key(k) ==> m[k].valid()
}

impl<K: Key, T: Duplicate> SortedMap<K, T> {
    /// A copy of a map and of its values.
    pub fn deep_copy(&self) -> (r: Self)
        requires
            self.wf(),
            all_valid(self@),
        ensures
            r.wf(),
            all_valid(r@),
            models(r@) == models(self@),
    {
        let mut r: SortedMap<K, T> = SortedMap::new();
        let mut i: usize = 0;
        while i < self.entries.len()
            invariant
                self.wf(),
                all_valid(self@),
                r.wf(),
                all_valid(r@),
                i <= self.entries@.len(),
                forall|k: K::V| #[trigger] r@.contains_key(k) <==> exists|j: int|
                    0 <= j < i && (#[trigger] self.entries@[j]).0@ == k,
                forall|j: int| 0 <= j < i ==> r@[(#[trigger] self.entries@[j]).0@]@ == self.entries@[j].1@,
            decreases self.entries@.len() - i,
        {
            let ghost before = r@;
            let ghost k = self.entries@[i as int].0@;
            proof {
                entries_map_get(self.entries@, i as int);
                assert(self@.contains_key(k));
            }
            r.insert(self.entries[i].0.duplicate(), self.entries[i].1.copy_of());
            proof {
                assert forall|x: K::V| #[trigger] r@.contains_key(x) <==> exists|j: int|
                    0 <= j < i + 1 && (#[trigger] self.entries@[j]).0@ == x by {
                    if before.contains_key(x) {
                        let j = choose|j: int| 0 <= j < i && (#[trigger] self.entries@[j]).0@ == x;
                        assert(self.entries@[j].0@ == x);
                    } else if r@.contains_key(x) {
                        assert(self.entries@[i as int].0@ == x);
                    }
                    if exists|j: int| 0 <= j < i + 1 && (#[trigger] self.entries@[j]).0@ == x {
                        let j = choose|j: int| 0 <= j < i + 1 && (#[trigger] self.entries@[j]).0@ == x;
                        if j < i {
                            assert(before.contains_key(x));
                        }
                    }
                }
                assert forall|j: int| 0 <= j < i + 1 implies r@[(#[trigger] self.entries@[j]).0@]@
                    == self.entries@[j].1@ by {
                    if j < i {
                        assert(K::before(self.entries@[j].0@, self.entries@[i as int].0@));
                        K::irreflexive(k);
                    }
                }
            }
            i += 1;
        }
        proof {
            assert forall|k: K::V| #[trigger] models(r@).contains_key(k) implies models(self@).contains_key(k)
                && models(self@)[k] == models(r@)[k] by {
                assert(r@.contains_key(k));
                let j = choose|j: int| 0 <= j < i && (#[trigger] self.entries@[j]).0@ == k;
                entries_map_get(self.entries@, j);
            }
            assert forall|k: K::V| #[trigger] models(self@).contains_key(k) implies models(r@).contains_key(k) by {
                assert(self@.contains_key(k));
                let j = choose|j: int| 0 <= j < self.entries@.len() && (#[trigger] self.entries@[j]).0@ == k;
                assert(self.entries@[j].0@ == k);
                assert(r@.contains_key(k));
            }
            assert(models(r@) =~= models(self@));
        }
        r
    }
}

}
