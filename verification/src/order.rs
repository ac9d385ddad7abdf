//! The order of texts by code point, and keys that can be kept sorted.
use vstd::prelude::*;

use crate::text;
use crate::views;

verus! {

/// Where one value stands relative to another.
#[derive(Debug, Clone, Copy, PartialEq, Eq)]
pub enum Place {
    /// Strictly before.
    Before,
    /// Equal.
    Same,
    /// Strictly after.
    After,
}

/// The lexicographic order of texts by code point, which is also the order of
/// their UTF-8 bytes.
pub open spec fn text_before(a: Seq<char>, b: Seq<char>) -> bool
    decreases a.len(),
{
    if b.len() == 0 {
        false
    } else if a.len() == 0 {
        true
    } else if a[0] == b[0] {
        text_before(a.drop_first(), b.drop_first())
    } else {
        a[0] < b[0]
    }
}

/// No text is before itself.
pub proof fn text_irreflexive(a: Seq<char>)
    ensures
        !text_before(a, a),
    decreases a.len(),
{
    if a.len() > 0 {
        text_irreflexive(a.drop_first());
    }
}

/// The order of texts is transitive.
pub proof fn text_transitive(a: Seq<char>, b: Seq<char>, c: Seq<char>)
    requires
        text_before(a, b),
        text_before(b, c),
    ensures
        text_before(a, c),
    decreases a.len(),
{
    if a.len() > 0 && a[0] == b[0] && b[0] == c[0] {
        text_transitive(a.drop_first(), b.drop_first(), c.drop_first());
    }
}

/// Two texts that are not equal are ordered.
pub proof fn text_total(a: Seq<char>, b: Seq<char>)
    ensures
        a == b || text_before(a, b) || text_before(b, a),
    decreases a.len(),
{
    if a.len() == 0 && b.len() == 0 {
        assert(a =~= b);
    } else if a.len() > 0 && b.len() > 0 && a[0] == b[0] {
        text_total(a.drop_first(), b.drop_first());
        if a.drop_first() == b.drop_first() {
            assert(a =~= seq![a[0]] + a.drop_first());
            assert(b =~= seq![b[0]] + b.drop_first());
        }
    }
}

/// Compares two strings by code point.
pub fn place_text(a: &str, b: &str) -> (r: Place)
    ensures
        match r {
            Place::Before => text_before(a@, b@),
            Place::Same => a@ == b@,
            Place::After => text_before(b@, a@),
        },
{
    let v: Vec<char> = text::chars_of(a);
    let w: Vec<char> = text::chars_of(b);
    let mut i: usize = 0;
    assert(a@.subrange(0, a@.len() as int) == a@);
    assert(b@.subrange(0, b@.len() as int) == b@);
    while i < v.len() && i < w.len() && v[i] == w[i]
        invariant
            v@ == a@,
            w@ == b@,
            i <= v@.len(),
            i <= w@.len(),
            forall|j: int| 0 <= j < i ==> a@[j] == b@[j],
            text_before(a@, b@) == text_before(
                a@.subrange(i as int, a@.len() as int),
                b@.subrange(i as int, b@.len() as int),
            ),
            text_before(b@, a@) == text_before(
                b@.subrange(i as int, b@.len() as int),
                a@.subrange(i as int, a@.len() as int),
            ),
        decreases v@.len() - i,
    {
        proof {
            let x = a@.subrange(i as int, a@.len() as int);
            let y = b@.subrange(i as int, b@.len() as int);
            assert(x.drop_first() == a@.subrange(i + 1, a@.len() as int));
            assert(y.drop_first() == b@.subrange(i + 1, b@.len() as int));
        }
        i = i + 1;
    }
    if i == v.len() {
        if i == w.len() {
            assert(a@ =~= b@);
            Place::Same
        } else {
            Place::Before
        }
    } else if i == w.len() {
        Place::After
    } else if v[i] < w[i] {
        Place::Before
    } else {
        Place::After
    }
}

/// A key whose views are totally ordered.
pub trait SortKey: View + Sized {
    /// The strict order of the keys.
    spec fn before(a: Self::V, b: Self::V) -> bool;

    /// No key is before itself.
    proof fn irreflexive(a: Self::V)
        ensures
            !Self::before(a, a),
    ;

    /// The order is transitive.
    proof fn transitive(a: Self::V, b: Self::V, c: Self::V)
        requires
            Self::before(a, b),
            Self::before(b, c),
        ensures
            Self::before(a, c),
    ;

    /// Two keys that are not equal are ordered.
    proof fn total(a: Self::V, b: Self::V)
        ensures
            a == b || Self::before(a, b) || Self::before(b, a),
    ;

    /// Compares two keys.
    fn place(&self, other: &Self) -> (r: Place)
        ensures
            match r {
                Place::Before => Self::before(self@, other@),
                Place::Same => self@ == other@,
                Place::After => Self::before(other@, self@),
            },
    ;

    /// Copies a key.
    fn copy(&self) -> (r: Self)
        ensures
            r@ == self@,
    ;
}

impl SortKey for String {
    open spec fn before(a: Seq<char>, b: Seq<char>) -> bool {
        text_before(a, b)
    }

    proof fn irreflexive(a: Seq<char>) {
        text_irreflexive(a);
    }

    proof fn transitive(a: Seq<char>, b: Seq<char>, c: Seq<char>) {
        text_transitive(a, b, c);
    }

    proof fn total(a: Seq<char>, b: Seq<char>) {
        text_total(a, b);
    }

    fn place(&self, other: &Self) -> (r: Place) {
        place_text(self.as_str(), other.as_str())
    }

    fn copy(&self) -> (r: Self) {
        self.clone()
    }
}

/// The increasing sequence of the keys of a set.
pub open spec fn listed<K: SortKey>(keys: Set<K::V>) -> Seq<K::V> {
    choose|s: Seq<K::V>|
        increasing::<K>(s) && forall|k: K::V| #[trigger] s.contains(k) <==> keys.contains(k)
}

/// An increasing sequence of the keys of a set is the one that lists it.
pub proof fn listed_unique<K: SortKey>(keys: Set<K::V>, s: Seq<K::V>)
    requires
        increasing::<K>(s),
        forall|k: K::V| #[trigger] s.contains(k) <==> keys.contains(k),
    ensures
        s == listed::<K>(keys),
{
    increasing_unique::<K>(s, listed::<K>(keys));
}

/// An increasing sequence with one more key.
proof fn with_key<K: SortKey>(s: Seq<K::V>, k: K::V) -> (r: Seq<K::V>)
    requires
        increasing::<K>(s),
        !s.contains(k),
    ensures
        increasing::<K>(r),
        forall|x: K::V| #[trigger] r.contains(x) <==> s.contains(x) || x == k,
    decreases s.len(),
{
    if s.len() == 0 {
        let r = seq![k];
        assert(r[0] == k);
        r
    } else {
        let last = s.last();
        let front = s.drop_last();
        assert(s[s.len() - 1] == last);
        assert(s.contains(last));
        K::total(last, k);
        if K::before(last, k) {
            let r = s.push(k);
            assert forall|i: int, j: int| 0 <= i < j < r.len() implies K::before(
                #[trigger] r[i],
                #[trigger] r[j],
            ) by {
                if j == s.len() && i < s.len() - 1 {
                    assert(K::before(s[i], s[s.len() - 1]));
                    K::transitive(s[i], last, k);
                }
            }
            assert forall|x: K::V| #[trigger] r.contains(x) <==> s.contains(x) || x == k by {
                if s.contains(x) {
                    let i = choose|i: int| 0 <= i < s.len() && s[i] == x;
                    assert(r[i] == x);
                }
                assert(r[s.len() as int] == k);
            }
            r
        } else {
            assert forall|x: K::V| front.contains(x) implies s.contains(x) by {
                let i = choose|i: int| 0 <= i < front.len() && front[i] == x;
                assert(s[i] == x);
            }
            let inner = with_key::<K>(front, k);
            let r = inner.push(last);
            assert forall|i: int, j: int| 0 <= i < j < r.len() implies K::before(
                #[trigger] r[i],
                #[trigger] r[j],
            ) by {
                if j == inner.len() {
                    assert(inner.contains(r[i]));
                    if r[i] != k {
                        let n = choose|n: int| 0 <= n < front.len() && front[n] == r[i];
                        assert(K::before(s[n], s[s.len() - 1]));
                    }
                }
            }
            assert forall|x: K::V| #[trigger] r.contains(x) <==> s.contains(x) || x == k by {
                if s.contains(x) {
                    let i = choose|i: int| 0 <= i < s.len() && s[i] == x;
                    if i < front.len() {
                        assert(front[i] == x);
                        assert(inner.contains(x));
                        let n = choose|n: int| 0 <= n < inner.len() && inner[n] == x;
                        assert(r[n] == x);
                    } else {
                        assert(r[inner.len() as int] == x);
                    }
                }
                if x == k {
                    assert(inner.contains(k));
                    let n = choose|n: int| 0 <= n < inner.len() && inner[n] == k;
                    assert(r[n] == k);
                }
                if r.contains(x) {
                    let n = choose|n: int| 0 <= n < r.len() && r[n] == x;
                    if n < inner.len() {
                        assert(inner.contains(x));
                    }
                }
            }
            r
        }
    }
}

/// Every finite set of keys has an increasing sequence of its keys.
pub proof fn listed_lists<K: SortKey>(keys: Set<K::V>)
    requires
        keys.finite(),
    ensures
        increasing::<K>(listed::<K>(keys)),
        forall|k: K::V| #[trigger] listed::<K>(keys).contains(k) <==> keys.contains(k),
    decreases keys.len(),
{
    if keys.len() == 0 {
        let s = Seq::<K::V>::empty();
        assert(keys =~= Set::empty());
        listed_unique::<K>(keys, s);
    } else {
        let k = keys.choose();
        let rest = keys.remove(k);
        listed_lists::<K>(rest);
        let s = with_key::<K>(listed::<K>(rest), k);
        listed_unique::<K>(keys, s);
    }
}

/// Whether a sequence of keys is strictly increasing.
pub open spec fn increasing<K: SortKey>(keys: Seq<K::V>) -> bool {
    forall|i: int, j: int| 0 <= i < j < keys.len() ==> K::before(#[trigger] keys[i], #[trigger] keys[j])
}

/// Two strictly increasing sequences of the same keys are equal.
pub proof fn increasing_unique<K: SortKey>(a: Seq<K::V>, b: Seq<K::V>)
    requires
        increasing::<K>(a),
        increasing::<K>(b),
        forall|k: K::V| a.contains(k) <==> b.contains(k),
    ensures
        a == b,
    decreases a.len(),
{
    if a.len() == 0 {
        if b.len() > 0 {
            assert(b.contains(b[0]));
        }
        assert(a =~= b);
    } else {
        assert(a.contains(a[0]));
        assert(b.len() > 0);
        assert(b.contains(b[0]));
        let i = choose|i: int| 0 <= i < b.len() && b[i] == a[0];
        let j = choose|j: int| 0 <= j < a.len() && a[j] == b[0];
        if i > 0 && j > 0 {
            K::transitive(a[0], b[0], a[0]);
            K::irreflexive(a[0]);
        }
        assert(a[0] == b[0]);
        let x = a.drop_first();
        let y = b.drop_first();
        assert forall|k: K::V| x.contains(k) <==> y.contains(k) by {
            if x.contains(k) {
                let n = choose|n: int| 0 <= n < x.len() && x[n] == k;
                assert(a[n + 1] == k);
                assert(a.contains(k));
                K::irreflexive(k);
                let m = choose|m: int| 0 <= m < b.len() && b[m] == k;
                assert(y[m - 1] == k);
            }
            if y.contains(k) {
                let n = choose|n: int| 0 <= n < y.len() && y[n] == k;
                assert(b[n + 1] == k);
                assert(b.contains(k));
                K::irreflexive(k);
                let m = choose|m: int| 0 <= m < a.len() && a[m] == k;
                assert(x[m - 1] == k);
            }
        }
        increasing_unique::<K>(x, y);
        assert(a =~= seq![a[0]] + x);
        assert(b =~= seq![b[0]] + y);
    }
}

/// Whether no text of a list is before an earlier one.
pub open spec fn ascending(list: Seq<Seq<char>>) -> bool {
    forall|i: int, j: int|
        0 <= i < j < list.len() ==> !text_before(#[trigger] list[j], #[trigger] list[i])
}

/// The texts of a list in ascending order.
pub open spec fn sorted(list: Seq<Seq<char>>) -> Seq<Seq<char>> {
    choose|s: Seq<Seq<char>>| ascending(s) && s.to_multiset() == list.to_multiset()
}

/// No text comes after the last one of an ascending list.
proof fn ascending_last(list: Seq<Seq<char>>, x: Seq<char>)
    requires
        ascending(list),
        list.contains(x),
    ensures
        !text_before(list.last(), x),
{
    let i = choose|i: int| 0 <= i < list.len() && list[i] == x;
    if i == list.len() - 1 {
        text_irreflexive(x);
    }
}

/// Two ascending lists of the same texts are equal.
pub proof fn ascending_unique(a: Seq<Seq<char>>, b: Seq<Seq<char>>)
    requires
        ascending(a),
        ascending(b),
        a.to_multiset() == b.to_multiset(),
    ensures
        a == b,
    decreases a.len(),
{
    broadcast use vstd::seq_lib::group_to_multiset_ensures;

    assert(a.len() == a.to_multiset().len() && b.len() == b.to_multiset().len());
    if a.len() == 0 {
        assert(a =~= b);
    } else {
        assert(a.contains(a.last()) && b.contains(b.last()));
        assert(a.to_multiset().count(a.last()) > 0 && b.to_multiset().count(b.last()) > 0);
        assert(b.contains(a.last()) && a.contains(b.last()));
        ascending_last(a, b.last());
        ascending_last(b, a.last());
        text_total(a.last(), b.last());
        let n = a.len() - 1;
        assert(a.remove(n) =~= a.drop_last() && b.remove(n) =~= b.drop_last());
        ascending_unique(a.drop_last(), b.drop_last());
        assert(a =~= a.drop_last().push(a.last()));
        assert(b =~= b.drop_last().push(b.last()));
    }
}

/// Sorts a list of strings.
pub fn sort_texts(list: Vec<String>) -> (r: Vec<String>)
    ensures
        ascending(views::each(r@)),
        views::each(r@).to_multiset() == views::each(list@).to_multiset(),
        views::each(r@) == sorted(views::each(list@)),
{
    let mut r: Vec<String> = Vec::new();
    let mut n: usize = 0;
    assert(views::each(list@).take(0) == views::each(r@));
    while n < list.len()
        invariant
            n <= list@.len(),
            ascending(views::each(r@)),
            views::each(r@).to_multiset() == views::each(list@).take(n as int).to_multiset(),
        decreases list@.len() - n,
    {
        let item: &String = &list[n];
        let mut i: usize = r.len();
        let mut low: bool = false;
        while i > 0 && !low
            invariant
                i <= r@.len(),
                ascending(views::each(r@)),
                forall|j: int|
                    i <= j < r@.len() ==> text_before(item@, #[trigger] views::each(r@)[j]),
                low ==> i > 0 && !text_before(item@, views::each(r@)[i - 1]),
            decreases i + (if low {
                0int
            } else {
                1int
            }),
        {
            match place_text(item.as_str(), r[i - 1].as_str()) {
                Place::Before => {
                    i = i - 1;
                },
                _ => {
                    low = true;
                    proof {
                        let other = views::each(r@)[i - 1];
                        if text_before(item@, other) {
                            if text_before(other, item@) {
                                text_transitive(item@, other, item@);
                            }
                            text_irreflexive(item@);
                        }
                    }
                },
            }
        }
        let ghost before = views::each(r@);
        r.insert(i, item.clone());
        proof {
            let after = views::each(r@);
            assert(after =~= before.insert(i as int, item@));
            assert forall|a: int, b: int| 0 <= a < b < after.len() implies !text_before(
                #[trigger] after[b],
                #[trigger] after[a],
            ) by {
                if a < i && b == i {
                    if text_before(item@, before[a]) {
                        if a < i - 1 {
                            text_total(before[i - 1], before[a]);
                            if before[i - 1] != before[a] {
                                text_transitive(item@, before[a], before[i - 1]);
                            }
                        }
                    }
                } else if a == i && b > i {
                    if text_before(before[b - 1], item@) {
                        text_transitive(item@, before[b - 1], item@);
                        text_irreflexive(item@);
                    }
                } else {
                    let x = if a < i { a } else { a - 1 };
                    let y = if b < i { b } else { b - 1 };
                    assert(after[a] == before[x] && after[b] == before[y]);
                }
            }
            broadcast use vstd::seq_lib::group_to_multiset_ensures;

            assert(after.remove(i as int) =~= before);
            assert(after.to_multiset() =~= before.to_multiset().insert(item@));
            assert(views::each(list@).take(n + 1) =~= views::each(list@).take(n as int).push(item@));
        }
        n = n + 1;
    }
    assert(views::each(list@).take(n as int) =~= views::each(list@));
    proof {
        ascending_unique(views::each(r@), sorted(views::each(list@)));
    }
    r
}

/// An ascending list has a place for one more text.
proof fn with_text(s: Seq<Seq<char>>, x: Seq<char>, n: int) -> (k: int)
    requires
        ascending(s),
        0 <= n <= s.len(),
        forall|i: int| n <= i < s.len() ==> text_before(x, #[trigger] s[i]),
    ensures
        0 <= k <= s.len(),
        ascending(s.insert(k, x)),
    decreases n,
{
    if n > 0 && text_before(x, s[n - 1]) {
        with_text(s, x, n - 1)
    } else {
        let after = s.insert(n, x);
        assert forall|a: int, b: int| 0 <= a < b < after.len() implies !text_before(
            #[trigger] after[b],
            #[trigger] after[a],
        ) by {
            if a < n && b == n {
                if text_before(x, s[a]) && a < n - 1 {
                    text_total(s[n - 1], s[a]);
                    if s[n - 1] != s[a] {
                        text_transitive(x, s[a], s[n - 1]);
                    }
                }
            } else if a == n && b > n {
                if text_before(s[b - 1], x) {
                    text_transitive(x, s[b - 1], x);
                    text_irreflexive(x);
                }
            } else {
                let p = if a < n { a } else { a - 1 };
                let q = if b < n { b } else { b - 1 };
                assert(after[a] == s[p] && after[b] == s[q]);
            }
        }
        n
    }
}

/// Sorting puts the texts of a list in order, and loses and adds none.
pub proof fn sorting_keeps_every_text(list: Seq<Seq<char>>)
    ensures
        ascending(sorted(list)),
        sorted(list).to_multiset() == list.to_multiset(),
        forall|x: Seq<char>| #[trigger] sorted(list).contains(x) <==> list.contains(x),
    decreases list.len(),
{
    broadcast use vstd::seq_lib::group_to_multiset_ensures;

    if list.len() == 0 {
        assert(ascending(list));
    } else {
        let shorter = list.drop_last();
        sorting_keeps_every_text(shorter);
        let s = sorted(shorter);
        let x = list.last();
        let k = with_text(s, x, s.len() as int);
        let after = s.insert(k, x);
        assert(after.remove(k) =~= s);
        assert(after[k] == x);
        assert(after.to_multiset() =~= s.to_multiset().insert(x));
        assert(list =~= shorter.push(x));
        assert(after.to_multiset() =~= list.to_multiset());
        assert(ascending(after) && after.to_multiset() == list.to_multiset());
    }
    let r = sorted(list);
    assert(ascending(r) && r.to_multiset() == list.to_multiset());
    assert forall|x: Seq<char>| #[trigger] r.contains(x) <==> list.contains(x) by {
        assert(r.to_multiset().count(x) == list.to_multiset().count(x));
    }
}

/// A key of two numbers and an index that tells equal ones apart.
#[derive(Debug, Clone, Copy, PartialEq, Eq, Structural)]
pub struct IndexKey {
    /// What is compared first.
    pub major: usize,
    /// What is compared next.
    pub minor: usize,
    /// What is compared last.
    pub index: usize,
}

impl View for IndexKey {
    type V = IndexKey;

    open spec fn view(&self) -> IndexKey {
        *self
    }
}

impl SortKey for IndexKey {
    open spec fn before(a: IndexKey, b: IndexKey) -> bool {
        a.major < b.major || (a.major == b.major && (a.minor < b.minor || (a.minor == b.minor
            && a.index < b.index)))
    }

    proof fn irreflexive(a: IndexKey) {
    }

    proof fn transitive(a: IndexKey, b: IndexKey, c: IndexKey) {
    }

    proof fn total(a: IndexKey, b: IndexKey) {
    }

    fn place(&self, other: &Self) -> (r: Place) {
        if self.major < other.major {
            Place::Before
        } else if self.major > other.major {
            Place::After
        } else if self.minor < other.minor {
            Place::Before
        } else if self.minor > other.minor {
            Place::After
        } else if self.index < other.index {
            Place::Before
        } else if self.index > other.index {
            Place::After
        } else {
            Place::Same
        }
    }

    fn copy(&self) -> (r: Self) {
        *self
    }
}

} // verus!
