//! A map whose entries are kept in the order of their keys.
use vstd::prelude::*;

use crate::order;
use crate::order::{Place, SortKey};

verus! {

/// A map from keys to values that is walked in the order of the keys.
#[derive(Debug, Clone)]
pub struct SortedMap<K, V> {
    entries: Vec<(K, V)>,
}

impl<K: SortKey, V> SortedMap<K, V> {
    /// The entries, in the order of their keys.
    pub closed spec fn pairs(self) -> Seq<(K, V)> {
        self.entries@
    }

    /// The keys, in order.
    pub open spec fn keys(self) -> Seq<K::V> {
        self.pairs().map_values(|e: (K, V)| e.0@)
    }

    /// The keys are strictly increasing, so none occurs twice.
    pub open spec fn wf(self) -> bool {
        order::increasing::<K>(self.keys())
    }

    /// The index of a key that the map holds.
    pub open spec fn index_of(self, k: K::V) -> int {
        choose|i: int| 0 <= i < self.keys().len() && self.keys()[i] == k
    }

    /// The map that the entries stand for.
    pub open spec fn map(self) -> Map<K::V, V> {
        Map::new(|k: K::V| self.keys().contains(k), |k: K::V| self.pairs()[self.index_of(k)].1)
    }

    /// The entry at an index is the one that the map holds for its key.
    pub proof fn entry_at(self, i: int)
        requires
            self.wf(),
            0 <= i < self.pairs().len(),
        ensures
            self.keys()[i] == self.pairs()[i].0@,
            self.map().contains_key(self.keys()[i]),
            self.map()[self.keys()[i]] == self.pairs()[i].1,
            self.index_of(self.keys()[i]) == i,
    {
        let k = self.keys()[i];
        assert(self.keys().contains(k));
        let j = self.index_of(k);
        assert(0 <= j < self.keys().len() && self.keys()[j] == k);
        K::irreflexive(k);
        assert(i == j);
    }

    /// The map without entries.
    pub fn new() -> (m: Self)
        ensures
            m.wf(),
            m.pairs() == Seq::<(K, V)>::empty(),
            m.map() == Map::<K::V, V>::empty(),
    {
        let m = SortedMap { entries: Vec::new() };
        assert(m.map() =~= Map::<K::V, V>::empty());
        m
    }

    /// The number of entries.
    pub fn len(&self) -> (n: usize)
        ensures
            n == self.pairs().len(),
            n == self.keys().len(),
    {
        self.entries.len()
    }

    /// The key at an index.
    pub fn key_at(&self, i: usize) -> (k: &K)
        requires
            i < self.pairs().len(),
        ensures
            *k == self.pairs()[i as int].0,
            k@ == self.keys()[i as int],
    {
        &self.entries[i].0
    }

    /// The value at an index.
    pub fn value_at(&self, i: usize) -> (v: &V)
        requires
            i < self.pairs().len(),
        ensures
            *v == self.pairs()[i as int].1,
    {
        &self.entries[i].1
    }

    /// The first index whose key is not before `key`.
    fn position(&self, key: &K) -> (r: usize)
        requires
            self.wf(),
        ensures
            r <= self.pairs().len(),
            forall|i: int| 0 <= i < r ==> K::before(#[trigger] self.keys()[i], key@),
            forall|i: int| r <= i < self.keys().len() ==> !K::before(#[trigger] self.keys()[i], key@),
    {
        let mut low: usize = 0;
        let mut high: usize = self.entries.len();
        while low < high
            invariant
                self.wf(),
                low <= high <= self.pairs().len(),
                forall|i: int| 0 <= i < low ==> K::before(#[trigger] self.keys()[i], key@),
                forall|i: int|
                    high <= i < self.keys().len() ==> !K::before(#[trigger] self.keys()[i], key@),
            decreases high - low,
        {
            let middle: usize = low + (high - low) / 2;
            let ghost mid = self.keys()[middle as int];
            match self.entries[middle].0.place(key) {
                Place::Before => {
                    assert forall|i: int| 0 <= i < middle + 1 implies K::before(
                        #[trigger] self.keys()[i],
                        key@,
                    ) by {
                        if i < middle {
                            K::transitive(self.keys()[i], mid, key@);
                        }
                    }
                    low = middle + 1;
                },
                _ => {
                    assert forall|i: int| middle <= i < self.keys().len() implies !K::before(
                        #[trigger] self.keys()[i],
                        key@,
                    ) by {
                        K::irreflexive(key@);
                        if K::before(self.keys()[i], key@) {
                            if i > middle {
                                K::transitive(mid, self.keys()[i], key@);
                            }
                            if mid != key@ {
                                K::transitive(key@, mid, key@);
                            }
                        }
                    }
                    high = middle;
                },
            }
        }
        low
    }

    /// The index of a key.
    pub fn find(&self, key: &K) -> (r: Option<usize>)
        requires
            self.wf(),
        ensures
            match r {
                Some(i) => i < self.pairs().len() && self.keys()[i as int] == key@
                    && self.map().contains_key(key@) && self.map()[key@] == self.pairs()[i as int].1,
                None => !self.map().contains_key(key@),
            },
    {
        let i: usize = self.position(key);
        proof {
            K::irreflexive(key@);
            if self.keys().contains(key@) {
                let j = choose|j: int| 0 <= j < self.keys().len() && self.keys()[j] == key@;
                assert(j >= i);
                if j > i {
                    assert(K::before(self.keys()[i as int], self.keys()[j]));
                }
                assert(j == i);
            }
        }
        if i < self.entries.len() {
            match self.entries[i].0.place(key) {
                Place::Same => {
                    proof {
                        self.entry_at(i as int);
                    }
                    Some(i)
                },
                _ => {
                    None
                },
            }
        } else {
            None
        }
    }

    /// The value of a key.
    pub fn get(&self, key: &K) -> (r: Option<&V>)
        requires
            self.wf(),
        ensures
            match r {
                Some(v) => self.map().contains_key(key@) && *v == self.map()[key@],
                None => !self.map().contains_key(key@),
            },
    {
        match self.find(key) {
            Some(i) => Some(&self.entries[i].1),
            None => None,
        }
    }

    /// Whether the map holds a key.
    pub fn contains_key(&self, key: &K) -> (r: bool)
        requires
            self.wf(),
        ensures
            r == self.map().contains_key(key@),
    {
        self.find(key).is_some()
    }

    /// Gives a key a value, and returns the one that it had.
    pub fn insert(&mut self, key: K, value: V) -> (r: Option<V>)
        requires
            old(self).wf(),
        ensures
            final(self).wf(),
            final(self).map() == old(self).map().insert(key@, value),
            match r {
                Some(v) => old(self).map().contains_key(key@) && v == old(self).map()[key@],
                None => !old(self).map().contains_key(key@),
            },
    {
        match self.find(&key) {
            Some(i) => {
                let (_, was) = self.entries.remove(i);
                let ghost k = key@;
                self.entries.insert(i, (key, value));
                proof {
                    let before = old(self).pairs();
                    let after = self.pairs();
                    assert(after.len() == before.len());
                    assert(forall|j: int| 0 <= j < after.len() && j != i ==> after[j] == before[j]);
                    assert(self.keys() =~= old(self).keys());
                    assert forall|x: K::V| self.keys().contains(x) implies self.map()[x]
                        == old(self).map().insert(k, value)[x] by {
                        let j = self.index_of(x);
                        assert(0 <= j < self.keys().len() && self.keys()[j] == x);
                        old(self).entry_at(j);
                        self.entry_at(j);
                        old(self).entry_at(i as int);
                    }
                    assert(self.map() =~= old(self).map().insert(k, value));
                }
                Some(was)
            },
            None => {
                let i: usize = self.position(&key);
                let ghost k = key@;
                self.entries.insert(i, (key, value));
                proof {
                    let before = old(self).keys();
                    let after = self.keys();
                    assert(after =~= before.insert(i as int, k));
                    assert forall|a: int, b: int| 0 <= a < b < after.len() implies K::before(
                        #[trigger] after[a],
                        #[trigger] after[b],
                    ) by {
                        if b == i {
                            assert(after[a] == before[a]);
                        } else if a == i {
                            let y = before[b - 1];
                            assert(after[b] == y);
                            K::total(k, y);
                            assert(before.contains(y));
                        } else {
                            let x = if a < i { a } else { a - 1 };
                            let y = if b < i { b } else { b - 1 };
                            assert(after[a] == before[x] && after[b] == before[y]);
                        }
                    }
                    assert forall|x: K::V| after.contains(x) <==> (before.contains(x) || x == k) by {
                        if before.contains(x) {
                            let j = choose|j: int| 0 <= j < before.len() && before[j] == x;
                            assert(after[if j < i { j } else { j + 1 }] == x);
                        }
                        if after.contains(x) {
                            let j = choose|j: int| 0 <= j < after.len() && after[j] == x;
                            if j != i {
                                assert(before[if j < i { j } else { j - 1 }] == x);
                            }
                        }
                        assert(after[i as int] == k);
                    }
                    assert forall|x: K::V| after.contains(x) implies self.map()[x] == old(
                        self,
                    ).map().insert(k, value)[x] by {
                        let j = self.index_of(x);
                        assert(0 <= j < after.len() && after[j] == x);
                        self.entry_at(j);
                        if j != i {
                            let m = if j < i { j } else { j - 1 };
                            old(self).entry_at(m);
                            assert(before[m] == x);
                        } else {
                            assert(x == k);
                        }
                    }
                    assert(self.map() =~= old(self).map().insert(k, value));
                }
                None
            },
        }
    }

    /// Takes a key out of the map, and returns the value that it had.
    pub fn remove(&mut self, key: &K) -> (r: Option<V>)
        requires
            old(self).wf(),
        ensures
            final(self).wf(),
            final(self).map() == old(self).map().remove(key@),
            match r {
                Some(v) => old(self).map().contains_key(key@) && v == old(self).map()[key@],
                None => !old(self).map().contains_key(key@),
            },
    {
        match self.find(key) {
            Some(i) => {
                let (_, was) = self.entries.remove(i);
                proof {
                    let before = old(self).keys();
                    let after = self.keys();
                    assert(after =~= before.remove(i as int));
                    assert forall|a: int, b: int| 0 <= a < b < after.len() implies K::before(
                        #[trigger] after[a],
                        #[trigger] after[b],
                    ) by {
                        let x = if a < i { a } else { a + 1 };
                        let y = if b < i { b } else { b + 1 };
                        assert(after[a] == before[x] && after[b] == before[y]);
                    }
                    assert forall|x: K::V| after.contains(x) <==> (before.contains(x) && x != key@) by {
                        if before.contains(x) && x != key@ {
                            let j = choose|j: int| 0 <= j < before.len() && before[j] == x;
                            assert(after[if j < i { j } else { j - 1 }] == x);
                        }
                        if after.contains(x) {
                            let j = choose|j: int| 0 <= j < after.len() && after[j] == x;
                            let m = if j < i { j } else { j + 1 };
                            assert(before[m] == x);
                            K::irreflexive(x);
                        }
                    }
                    assert forall|x: K::V| after.contains(x) implies self.map()[x] == old(
                        self,
                    ).map()[x] by {
                        let j = self.index_of(x);
                        assert(0 <= j < after.len() && after[j] == x);
                        self.entry_at(j);
                        let m = if j < i { j } else { j + 1 };
                        old(self).entry_at(m);
                        assert(before[m] == x);
                    }
                    assert(self.map() =~= old(self).map().remove(key@));
                }
                Some(was)
            },
            None => {
                assert(self.map() =~= old(self).map().remove(key@));
                None
            },
        }
    }
}

/// The keys that either of two maps holds, in order.
pub fn merged_keys<K: SortKey, A, B>(a: &SortedMap<K, A>, b: &SortedMap<K, B>) -> (r: Vec<K>)
    requires
        a.wf(),
        b.wf(),
    ensures
        crate::views::each(r@) == order::listed::<K>(a.map().dom() + b.map().dom()),
        crate::order::increasing::<K>(crate::views::each(r@)),
        forall|k: K::V| #[trigger]
            crate::views::each(r@).contains(k) <==> a.map().contains_key(k) || b.map().contains_key(
                k,
            ),
{
    broadcast use crate::views::group_views;

    let mut r: Vec<K> = Vec::new();
    let mut i: usize = 0;
    let mut j: usize = 0;
    let n: usize = a.len();
    let m: usize = b.len();
    while i < n || j < m
        invariant
            a.wf(),
            b.wf(),
            n == a.keys().len(),
            m == b.keys().len(),
            i <= n,
            j <= m,
            n == a.pairs().len(),
            m == b.pairs().len(),
            order::increasing::<K>(crate::views::each(r@)),
            forall|k: K::V| #[trigger]
                crate::views::each(r@).contains(k) <==> (exists|x: int|
                    0 <= x < i && #[trigger] a.keys()[x] == k) || (exists|y: int|
                    0 <= y < j && #[trigger] b.keys()[y] == k),
            forall|x: int, y: int|
                0 <= x < r@.len() && i <= y < n ==> K::before(
                    #[trigger] crate::views::each(r@)[x],
                    #[trigger] a.keys()[y],
                ),
            forall|x: int, y: int|
                0 <= x < r@.len() && j <= y < m ==> K::before(
                    #[trigger] crate::views::each(r@)[x],
                    #[trigger] b.keys()[y],
                ),
        decreases n - i + m - j,
    {
        let place: Place = if i == n {
            Place::After
        } else if j == m {
            Place::Before
        } else {
            a.key_at(i).place(b.key_at(j))
        };
        let ghost was = crate::views::each(r@);
        let ghost i0 = i as int;
        let ghost j0 = j as int;
        let key: K = match place {
            Place::After => b.key_at(j).copy(),
            _ => a.key_at(i).copy(),
        };
        let ghost k = key@;
        r.push(key);
        match place {
            Place::Before => {
                i = i + 1;
            },
            Place::Same => {
                i = i + 1;
                j = j + 1;
            },
            Place::After => {
                j = j + 1;
            },
        }
        proof {
            let now = crate::views::each(r@);
            assert(now == was.push(k));
            assert forall|x: int, y: int| 0 <= x < r@.len() && i <= y < n implies K::before(
                #[trigger] now[x],
                #[trigger] a.keys()[y],
            ) by {
                if x == was.len() {
                    if i0 < n && y > i0 {
                        assert(K::before(a.keys()[i0], a.keys()[y]));
                    }
                    if place is After && i0 < n {
                        if y > i0 {
                            K::transitive(k, a.keys()[i0], a.keys()[y]);
                        }
                    }
                } else {
                    assert(now[x] == was[x]);
                }
            }
            assert forall|x: int, y: int| 0 <= x < r@.len() && j <= y < m implies K::before(
                #[trigger] now[x],
                #[trigger] b.keys()[y],
            ) by {
                if x == was.len() {
                    if j0 < m && y > j0 {
                        assert(K::before(b.keys()[j0], b.keys()[y]));
                    }
                    if place is Before && j0 < m {
                        if y > j0 {
                            K::transitive(k, b.keys()[j0], b.keys()[y]);
                        }
                    }
                } else {
                    assert(now[x] == was[x]);
                }
            }
            assert forall|key: K::V| #[trigger]
                now.contains(key) <==> (exists|x: int| 0 <= x < i && #[trigger] a.keys()[x] == key)
                    || (exists|y: int| 0 <= y < j && #[trigger] b.keys()[y] == key) by {
                if now.contains(key) {
                    let z = choose|z: int| 0 <= z < now.len() && now[z] == key;
                    if z < was.len() {
                        assert(was[z] == key);
                        assert(was.contains(key));
                    } else if place is After {
                        assert(b.keys()[j0] == key);
                    } else {
                        assert(a.keys()[i0] == key);
                    }
                }
                if exists|x: int| 0 <= x < i && #[trigger] a.keys()[x] == key {
                    let x = choose|x: int| 0 <= x < i && #[trigger] a.keys()[x] == key;
                    if x < i0 {
                        assert(was.contains(key));
                        let z = choose|z: int| 0 <= z < was.len() && was[z] == key;
                        assert(now[z] == key);
                    } else {
                        assert(now[was.len() as int] == key);
                    }
                }
                if exists|y: int| 0 <= y < j && #[trigger] b.keys()[y] == key {
                    let y = choose|y: int| 0 <= y < j && #[trigger] b.keys()[y] == key;
                    if y < j0 {
                        assert(was.contains(key));
                        let z = choose|z: int| 0 <= z < was.len() && was[z] == key;
                        assert(now[z] == key);
                    } else {
                        assert(now[was.len() as int] == key);
                    }
                }
            }
            assert(order::increasing::<K>(now)) by {
                assert forall|x: int, y: int| 0 <= x < y < now.len() implies K::before(
                    #[trigger] now[x],
                    #[trigger] now[y],
                ) by {
                    if y == was.len() {
                        assert(now[x] == was[x]);
                        if place is After {
                            assert(K::before(was[x], b.keys()[j0]));
                        } else {
                            assert(K::before(was[x], a.keys()[i0]));
                        }
                    } else {
                        assert(now[x] == was[x] && now[y] == was[y]);
                    }
                }
            }
        }
    }
    proof {
        let now = crate::views::each(r@);
        assert forall|k: K::V| #[trigger]
            now.contains(k) <==> a.map().contains_key(k) || b.map().contains_key(k) by {
            if a.keys().contains(k) {
                let x = choose|x: int| 0 <= x < a.keys().len() && a.keys()[x] == k;
                assert(a.keys()[x] == k);
            }
            if b.keys().contains(k) {
                let x = choose|x: int| 0 <= x < b.keys().len() && b.keys()[x] == k;
                assert(b.keys()[x] == k);
            }
        }
        order::listed_unique::<K>(a.map().dom() + b.map().dom(), now);
    }
    r
}

} // verus!
