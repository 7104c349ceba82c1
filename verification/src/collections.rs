//! Ordered sets, ordered maps and stable sorting.

use crate::values::{push_item, Ordered, Value};
use vstd::prelude::*;

verus! {

/// How many items at the front of `s` come before `x`.
pub open spec fn rank_of<T: Ordered>(s: Seq<T::V>, x: T::V) -> nat
    decreases s.len(),
{
    if s.len() > 0 && T::before(s[0], x) {
        1 + rank_of::<T>(s.drop_first(), x)
    } else {
        0
    }
}

/// `s` with `x` at its place, unless it is there already.
pub open spec fn with_item<T: Ordered>(s: Seq<T::V>, x: T::V) -> Seq<T::V> {
    let i = rank_of::<T>(s, x) as int;
    if i < s.len() && s[i] == x {
        s
    } else {
        s.insert(i, x)
    }
}

/// The items of `s`, each once and in order.
pub open spec fn collected<T: Ordered>(s: Seq<T::V>) -> Seq<T::V>
    decreases s.len(),
{
    if s.len() == 0 {
        Seq::empty()
    } else {
        with_item::<T>(collected::<T>(s.drop_last()), s.last())
    }
}

/// `s` with each of `items` at its place.
pub open spec fn with_items<T: Ordered>(s: Seq<T::V>, items: Seq<T::V>) -> Seq<T::V>
    decreases items.len(),
{
    if items.len() == 0 {
        s
    } else {
        with_item::<T>(with_items::<T>(s, items.drop_last()), items.last())
    }
}

/// `with_items` holds what was held and the added items, and keeps the order.
pub proof fn with_items_is_ordered<T: Ordered>(s: Seq<T::V>, items: Seq<T::V>)
    ensures
        ascending::<T>(s) ==> ascending::<T>(with_items::<T>(s, items)),
        forall|y: T::V| #[trigger]
            with_items::<T>(s, items).contains(y) <==> (s.contains(y) || items.contains(y)),
    decreases items.len(),
{
    if items.len() > 0 {
        let front = items.drop_last();
        with_items_is_ordered::<T>(s, front);
        with_item_contains::<T>(with_items::<T>(s, front), items.last());
        if ascending::<T>(s) {
            with_item_ascending::<T>(with_items::<T>(s, front), items.last());
        }
        assert forall|y: T::V| #[trigger]
            with_items::<T>(s, items).contains(y) <==> (s.contains(y) || items.contains(y)) by {
            assert(with_items::<T>(s, items).contains(y) <==> with_items::<T>(s, front).contains(y)
                || y == items.last());
            if items.contains(y) && y != items.last() {
                let k = choose|k: int| 0 <= k < items.len() && items[k] == y;
                assert(front[k] == y);
            }
            if front.contains(y) {
                let k = choose|k: int| 0 <= k < front.len() && front[k] == y;
                assert(items[k] == y);
            }
        }
    }
}

/// Whether each item comes strictly before those that follow it.
pub open spec fn ascending<T: Ordered>(s: Seq<T::V>) -> bool {
    forall|i: int, j: int| 0 <= i < j < s.len() ==> T::before(#[trigger] s[i], #[trigger] s[j])
}

/// What `rank_of` counts.
pub proof fn rank_of_splits<T: Ordered>(s: Seq<T::V>, x: T::V)
    ensures
        rank_of::<T>(s, x) <= s.len(),
        forall|i: int| 0 <= i < rank_of::<T>(s, x) ==> T::before(#[trigger] s[i], x),
        rank_of::<T>(s, x) < s.len() ==> !T::before(s[rank_of::<T>(s, x) as int], x),
    decreases s.len(),
{
    if s.len() > 0 && T::before(s[0], x) {
        rank_of_splits::<T>(s.drop_first(), x);
        let n = rank_of::<T>(s.drop_first(), x) as int;
        assert forall|i: int| 0 <= i < n + 1 implies T::before(#[trigger] s[i], x) by {
            if i > 0 {
                assert(s[i] == s.drop_first()[i - 1]);
            }
        }
        if n + 1 < s.len() {
            assert(s[n + 1] == s.drop_first()[n]);
        }
    }
}

proof fn rank_of_found<T: Ordered>(s: Seq<T::V>, x: T::V, n: int)
    requires
        0 <= n <= s.len(),
        forall|i: int| 0 <= i < n ==> T::before(#[trigger] s[i], x),
        n < s.len() ==> !T::before(s[n], x),
    ensures
        rank_of::<T>(s, x) == n,
    decreases n,
{
    if n > 0 {
        assert(T::before(s[0], x));
        assert forall|i: int| 0 <= i < n - 1 implies T::before(
            #[trigger] s.drop_first()[i],
            x,
        ) by {
            assert(T::before(s[i + 1], x));
        }
        rank_of_found::<T>(s.drop_first(), x, n - 1);
    }
}

/// `with_item` adds exactly one item to what is held.
pub proof fn with_item_contains<T: Ordered>(s: Seq<T::V>, x: T::V)
    ensures
        forall|y: T::V| #[trigger]
            with_item::<T>(s, x).contains(y) <==> (s.contains(y) || y == x),
{
    rank_of_splits::<T>(s, x);
    let i = rank_of::<T>(s, x) as int;
    let r = with_item::<T>(s, x);
    assert forall|y: T::V| #[trigger] r.contains(y) <==> (s.contains(y) || y == x) by {
        if i < s.len() && s[i] == x {
        } else {
            if r.contains(y) {
                let k = choose|k: int| 0 <= k < r.len() && r[k] == y;
                if k < i {
                    assert(s[k] == y);
                } else if k > i {
                    assert(s[k - 1] == y);
                }
            }
            if s.contains(y) {
                let k = choose|k: int| 0 <= k < s.len() && s[k] == y;
                if k < i {
                    assert(r[k] == y);
                } else {
                    assert(r[k + 1] == y);
                }
            }
            assert(r[i] == x);
        }
    }
}

/// `with_item` keeps the order.
pub proof fn with_item_ascending<T: Ordered>(s: Seq<T::V>, x: T::V)
    requires
        ascending::<T>(s),
    ensures
        ascending::<T>(with_item::<T>(s, x)),
{
    rank_of_splits::<T>(s, x);
    let i = rank_of::<T>(s, x) as int;
    let r = with_item::<T>(s, x);
    if i < s.len() && s[i] == x {
    } else {
        assert forall|a: int, b: int| 0 <= a < b < r.len() implies T::before(
            #[trigger] r[a],
            #[trigger] r[b],
        ) by {
            if b < i {
                assert(r[a] == s[a] && r[b] == s[b]);
            } else if b == i {
                assert(r[a] == s[a]);
            } else {
                assert(r[b] == s[b - 1]);
                T::before_total(s[i], x);
                if a > i {
                    assert(r[a] == s[a - 1]);
                } else {
                    if b - 1 > i {
                        T::before_transitive(x, s[i], s[b - 1]);
                    }
                    if a < i {
                        assert(r[a] == s[a]);
                    }
                }
            }
        }
    }
}

/// `collected` holds the items of `s`, in order and each once.
pub proof fn collected_is_ordered<T: Ordered>(s: Seq<T::V>)
    ensures
        ascending::<T>(collected::<T>(s)),
        forall|y: T::V| #[trigger] collected::<T>(s).contains(y) <==> s.contains(y),
    decreases s.len(),
{
    if s.len() > 0 {
        collected_is_ordered::<T>(s.drop_last());
        with_item_ascending::<T>(collected::<T>(s.drop_last()), s.last());
        with_item_contains::<T>(collected::<T>(s.drop_last()), s.last());
        assert forall|y: T::V| #[trigger] collected::<T>(s).contains(y) <==> s.contains(y) by {
            assert(collected::<T>(s).contains(y) <==> collected::<T>(s.drop_last()).contains(y) || y
                == s.last());
            if s.contains(y) && y != s.last() {
                let k = choose|k: int| 0 <= k < s.len() && s[k] == y;
                assert(s.drop_last()[k] == y);
            }
            if s.drop_last().contains(y) {
                let k = choose|k: int| 0 <= k < s.drop_last().len() && s.drop_last()[k] == y;
                assert(s[k] == y);
            }
        }
    }
}

/// Ordered lists with the same items are the same.
pub proof fn ascending_is_unique<T: Ordered>(a: Seq<T::V>, b: Seq<T::V>)
    requires
        ascending::<T>(a),
        ascending::<T>(b),
        forall|x: T::V| a.contains(x) <==> b.contains(x),
    ensures
        a == b,
    decreases a.len(),
{
    if a.len() == 0 {
        if b.len() > 0 {
            assert(b.contains(b[0]));
        }
        assert(a =~= b);
    } else {
        assert(a.contains(a[0]));
        assert(b.contains(a[0]));
        let j = choose|j: int| 0 <= j < b.len() && b[j] == a[0];
        assert(b.contains(b[0]));
        assert(a.contains(b[0]));
        let k = choose|k: int| 0 <= k < a.len() && a[k] == b[0];
        if a[0] != b[0] {
            assert(T::before(b[0], b[j]));
            assert(T::before(a[0], a[k]));
            T::before_transitive(a[0], b[0], a[0]);
            T::before_irreflexive(a[0]);
        }
        let x = a.drop_first();
        let y = b.drop_first();
        assert forall|v: T::V| x.contains(v) <==> y.contains(v) by {
            if x.contains(v) {
                let i = choose|i: int| 0 <= i < x.len() && x[i] == v;
                assert(a[i + 1] == v);
                assert(a.contains(v));
                assert(T::before(a[0], a[i + 1]));
                T::before_irreflexive(v);
                let m = choose|m: int| 0 <= m < b.len() && b[m] == v;
                assert(y[m - 1] == v);
            }
            if y.contains(v) {
                let i = choose|i: int| 0 <= i < y.len() && y[i] == v;
                assert(b[i + 1] == v);
                assert(b.contains(v));
                assert(T::before(b[0], b[i + 1]));
                T::before_irreflexive(v);
                let m = choose|m: int| 0 <= m < a.len() && a[m] == v;
                assert(x[m - 1] == v);
            }
        }
        ascending_is_unique::<T>(x, y);
        assert(a =~= seq![a[0]] + x);
        assert(b =~= seq![b[0]] + y);
    }
}

/// The ordered list of what meets a condition.
pub open spec fn listed<T: Ordered>(condition: spec_fn(T::V) -> bool) -> Seq<T::V> {
    choose|s: Seq<T::V>|
        ascending::<T>(s) && forall|x: T::V| #[trigger] s.contains(x) <==> condition(x)
}

/// The ordered list of what meets a condition is the only one.
pub proof fn listed_is<T: Ordered>(condition: spec_fn(T::V) -> bool, s: Seq<T::V>)
    requires
        ascending::<T>(s),
        forall|x: T::V| #[trigger] s.contains(x) <==> condition(x),
    ensures
        listed::<T>(condition) == s,
{
    let l = listed::<T>(condition);
    assert(ascending::<T>(l) && forall|x: T::V| #[trigger] l.contains(x) <==> condition(x));
    ascending_is_unique::<T>(l, s);
}

/// A set kept as a list in ascending order.
#[derive(Debug, PartialEq, Eq)]
pub struct OrderedSet<T: Ordered> {
    items: Vec<T>,
}

impl<T: Ordered> DeepView for OrderedSet<T> {
    type V = Seq<T::V>;

    open spec fn deep_view(&self) -> Seq<T::V> {
        self.kept().deep_view()
    }
}

impl<T: Ordered> Value for OrderedSet<T> {
    fn replicate(&self) -> (r: Self) {
        proof {
            use_type_invariant(self);
        }
        OrderedSet { items: self.items.replicate() }
    }

    fn same_value(&self, other: &Self) -> (r: bool) {
        self.items.same_value(&other.items)
    }
}

impl<T: Ordered> OrderedSet<T> {
    /// The items stand in ascending order.
    #[verifier::type_invariant]
    spec fn in_order(self) -> bool {
        ascending::<T>(self.items.deep_view())
    }

    /// The items, as they are kept.
    pub closed spec fn kept(&self) -> &Vec<T> {
        &self.items
    }

    /// The items, in order.
    #[verifier::when_used_as_spec(kept)]
    pub fn items(&self) -> (r: &Vec<T>)
        ensures
            r == self.kept(),
            ascending::<T>(r.deep_view()),
    {
        proof {
            use_type_invariant(self);
        }
        &self.items
    }

    /// The items, in order.
    pub fn into_items(self) -> (r: Vec<T>)
        ensures
            r == *self.kept(),
            ascending::<T>(r.deep_view()),
    {
        proof {
            use_type_invariant(&self);
        }
        self.items
    }

    /// The empty set.
    pub fn new() -> (r: Self)
        ensures
            r.deep_view() == Seq::<T::V>::empty(),
    {
        let r = OrderedSet { items: Vec::new() };
        assert(r.deep_view() =~= Seq::<T::V>::empty());
        r
    }

    /// Whether `x` is held.
    pub fn contains(&self, x: &T) -> (r: bool)
        ensures
            r == self.deep_view().contains(x.deep_view()),
    {
        let mut i: usize = 0;
        while i < self.items.len()
            invariant
                i <= self.items.len(),
                forall|j: int| 0 <= j < i ==> self.deep_view()[j] != x.deep_view(),
            decreases self.items.len() - i,
        {
            if self.items[i].same_value(x) {
                assert(self.deep_view()[i as int] == x.deep_view());
                return true;
            }
            i = i + 1;
        }
        false
    }

    /// Adds `x`; tells whether it was new.
    pub fn insert(&mut self, x: T) -> (r: bool)
        ensures
            final(self).deep_view() == with_item::<T>(old(self).deep_view(), x.deep_view()),
            r == (final(self).deep_view() != old(self).deep_view()),
    {
        proof {
            use_type_invariant(&*self);
            with_item_ascending::<T>(self.deep_view(), x.deep_view());
        }
        let mut i: usize = 0;
        let ghost model = self.deep_view();
        let ghost added = x.deep_view();
        while i < self.items.len() && self.items[i].is_before(&x)
            invariant
                i <= self.items.len(),
                model == self.deep_view(),
                added == x.deep_view(),
                forall|j: int| 0 <= j < i ==> T::before(#[trigger] model[j], added),
            decreases self.items.len() - i,
        {
            i = i + 1;
        }
        proof {
            rank_of_found::<T>(model, added, i as int);
        }
        if i < self.items.len() && self.items[i].same_value(&x) {
            return false;
        }
        let mut items: Vec<T> = Vec::new();
        std::mem::swap(&mut items, &mut self.items);
        items.insert(i, x);
        assert(items.deep_view() =~= model.insert(i as int, added));
        assert(items.deep_view().len() == model.len() + 1);
        self.items = items;
        true
    }

    /// The set of the given items.
    pub fn from_items(items: Vec<T>) -> (r: Self)
        ensures
            r.deep_view() == collected::<T>(items.deep_view()),
    {
        let mut out = OrderedSet::new();
        let mut i: usize = 0;
        while i < items.len()
            invariant
                i <= items.len(),
                out.deep_view() == collected::<T>(items.deep_view().take(i as int)),
            decreases items.len() - i,
        {
            out.insert(items[i].replicate());
            i = i + 1;
            assert(items.deep_view().take(i as int).drop_last() =~= items.deep_view().take(i - 1));
            assert(items.deep_view().take(i as int).last() == items.deep_view()[i - 1]);
        }
        assert(items.deep_view().take(i as int) =~= items.deep_view());
        out
    }

    /// Adds each of `items`.
    pub fn extend(&mut self, items: &Vec<T>)
        ensures
            final(self).deep_view() == with_items::<T>(old(self).deep_view(), items.deep_view()),
    {
        let ghost start = self.deep_view();
        let mut i: usize = 0;
        while i < items.len()
            invariant
                i <= items.len(),
                self.deep_view() == with_items::<T>(start, items.deep_view().take(i as int)),
            decreases items.len() - i,
        {
            self.insert(items[i].replicate());
            i = i + 1;
            assert(items.deep_view().take(i as int).drop_last() =~= items.deep_view().take(i - 1));
            assert(items.deep_view().take(i as int).last() == items.deep_view()[i - 1]);
        }
        assert(items.deep_view().take(i as int) =~= items.deep_view());
    }

    /// How many items are held.
    pub fn len(&self) -> (r: usize)
        ensures
            r == self.deep_view().len(),
    {
        self.items.len()
    }

    /// Whether nothing is held.
    pub fn is_empty(&self) -> (r: bool)
        ensures
            r == (self.deep_view().len() == 0),
    {
        self.items.len() == 0
    }
}

/// The keys of a list of entries.
pub open spec fn keys_of<K, V>(s: Seq<(K, V)>) -> Seq<K> {
    s.map_values(|e: (K, V)| e.0)
}

/// What the entries hold for key `k`.
pub open spec fn lookup<K, V>(s: Seq<(K, V)>, k: K) -> Option<V>
    decreases s.len(),
{
    if s.len() == 0 {
        None
    } else if s.last().0 == k {
        Some(s.last().1)
    } else {
        lookup(s.drop_last(), k)
    }
}

/// The entries with `v` at key `k`.
pub open spec fn with_entry<K: Ordered, V>(s: Seq<(K::V, V)>, k: K::V, v: V) -> Seq<(K::V, V)> {
    let i = rank_of::<K>(keys_of(s), k) as int;
    if i < s.len() && s[i].0 == k {
        s.update(i, (k, v))
    } else {
        s.insert(i, (k, v))
    }
}

/// `lookup` finds a key exactly when some entry has it.
pub proof fn lookup_finds<K, V>(s: Seq<(K, V)>, k: K)
    ensures
        lookup(s, k) is Some <==> keys_of(s).contains(k),
        lookup(s, k) matches Some(v) ==> s.contains((k, v)),
    decreases s.len(),
{
    if s.len() > 0 {
        lookup_finds(s.drop_last(), k);
        assert(keys_of(s).last() == s.last().0);
        if s.last().0 == k {
            assert(keys_of(s)[s.len() - 1] == k);
            assert(s[s.len() - 1] == (k, s.last().1));
        } else {
            if keys_of(s).contains(k) {
                let j = choose|j: int| 0 <= j < keys_of(s).len() && keys_of(s)[j] == k;
                assert(keys_of(s.drop_last())[j] == k);
            }
            if keys_of(s.drop_last()).contains(k) {
                let j = choose|j: int|
                    0 <= j < keys_of(s.drop_last()).len() && keys_of(s.drop_last())[j] == k;
                assert(keys_of(s)[j] == k);
            }
            if let Some(v) = lookup(s.drop_last(), k) {
                let j = choose|j: int|
                    0 <= j < s.drop_last().len() && s.drop_last()[j] == (k, v);
                assert(s[j] == (k, v));
            }
        }
    }
}

proof fn lookup_absent<K, V>(s: Seq<(K, V)>, k: K)
    requires
        forall|i: int| 0 <= i < s.len() ==> (#[trigger] s[i]).0 != k,
    ensures
        lookup(s, k) is None,
    decreases s.len(),
{
    if s.len() > 0 {
        assert(s[s.len() - 1].0 != k);
        assert forall|i: int| 0 <= i < s.drop_last().len() implies (
        #[trigger] s.drop_last()[i]).0 != k by {
            assert(s[i].0 != k);
        }
        lookup_absent(s.drop_last(), k);
    }
}

proof fn lookup_unique<K, V>(s: Seq<(K, V)>, k: K, i: int)
    requires
        0 <= i < s.len(),
        s[i].0 == k,
        forall|j: int| i < j < s.len() ==> (#[trigger] s[j]).0 != k,
    ensures
        lookup(s, k) == Some(s[i].1),
    decreases s.len(),
{
    if i < s.len() - 1 {
        assert(s[s.len() - 1].0 != k);
        lookup_unique(s.drop_last(), k, i);
    }
}

/// Setting a value adds its key.
pub proof fn with_entry_keys<K: Ordered, V>(s: Seq<(K::V, V)>, k: K::V, v: V)
    ensures
        keys_of(with_entry::<K, V>(s, k, v)) == with_item::<K>(keys_of(s), k),
{
    rank_of_splits::<K>(keys_of(s), k);
    assert(keys_of(with_entry::<K, V>(s, k, v)) =~= with_item::<K>(keys_of(s), k));
}

/// Reading the key just written gives the value written.
pub proof fn lookup_after_with_entry<K: Ordered, V>(s: Seq<(K::V, V)>, k: K::V, v: V)
    requires
        ascending::<K>(keys_of(s)),
    ensures
        lookup(with_entry::<K, V>(s, k, v), k) == Some(v),
        ascending::<K>(keys_of(with_entry::<K, V>(s, k, v))),
{
    let keys = keys_of(s);
    let i = rank_of::<K>(keys, k) as int;
    rank_of_splits::<K>(keys, k);
    let r = with_entry::<K, V>(s, k, v);
    with_item_ascending::<K>(keys, k);
    assert(keys_of(r) =~= with_item::<K>(keys, k));
    assert(keys_of(r)[i] == k);
    assert forall|j: int| i < j < r.len() implies (#[trigger] r[j]).0 != k by {
        assert(K::before(keys_of(r)[i], keys_of(r)[j]));
        K::before_irreflexive(k);
    }
    lookup_unique(r, k, i);
}

/// Writing one key leaves what is read at every other key.
pub proof fn lookup_other_after_with_entry<K: Ordered, V>(s: Seq<(K::V, V)>, k: K::V, v: V, o: K::V)
    requires
        ascending::<K>(keys_of(s)),
        o != k,
    ensures
        lookup(with_entry::<K, V>(s, k, v), o) == lookup(s, o),
{
    let keys = keys_of(s);
    let i = rank_of::<K>(keys, k) as int;
    rank_of_splits::<K>(keys, k);
    let r = with_entry::<K, V>(s, k, v);
    with_item_ascending::<K>(keys, k);
    assert(keys_of(r) =~= with_item::<K>(keys, k));
    if exists|j: int| 0 <= j < s.len() && (#[trigger] s[j]).0 == o {
        let j = choose|j: int| 0 <= j < s.len() && (#[trigger] s[j]).0 == o;
        assert forall|a: int| j < a < s.len() implies (#[trigger] s[a]).0 != o by {
            assert(K::before(keys[j], keys[a]));
            K::before_irreflexive(o);
        }
        lookup_unique(s, o, j);
        let m = if i < s.len() && s[i].0 == k || j < i {
            j
        } else {
            j + 1
        };
        assert(r[m] == s[j]);
        assert forall|a: int| m < a < r.len() implies (#[trigger] r[a]).0 != o by {
            assert(K::before(keys_of(r)[m], keys_of(r)[a]));
            K::before_irreflexive(o);
        }
        lookup_unique(r, o, m);
    } else {
        lookup_absent(s, o);
        assert forall|a: int| 0 <= a < r.len() implies (#[trigger] r[a]).0 != o by {
            if i < s.len() && s[i].0 == k {
                if a != i {
                    assert(r[a] == s[a]);
                }
            } else if a < i {
                assert(r[a] == s[a]);
            } else if a > i {
                assert(r[a] == s[a - 1]);
            }
        }
        lookup_absent(r, o);
    }
}

/// How many keys of a map are not among those being visited.
pub open spec fn unvisited<V>(entries: Seq<(Seq<char>, V)>, visiting: Set<Seq<char>>) -> nat {
    keys_of(entries).to_set().difference(visiting).len()
}

/// Visiting one more key leaves fewer that are not visited.
pub proof fn visiting_leaves_fewer<V>(
    entries: Seq<(Seq<char>, V)>,
    visiting: Set<Seq<char>>,
    name: Seq<char>,
)
    requires
        !visiting.contains(name),
        lookup(entries, name) is Some,
    ensures
        unvisited(entries, visiting.insert(name)) < unvisited(entries, visiting),
{
    lookup_finds(entries, name);
    let keys = keys_of(entries).to_set();
    let a = keys.difference(visiting);
    assert(a.contains(name));
    assert(keys.finite()) by {
        keys_of(entries).lemma_cardinality_of_set();
    }
    assert(keys.difference(visiting.insert(name)) =~= a.remove(name));
}

spec fn entry_keys<K: Ordered, V>(entries: Seq<(K, V)>) -> Seq<K::V> {
    Seq::new(entries.len(), |i: int| entries[i].0.deep_view())
}

proof fn keys_by_content<K: Ordered, V: DeepView>(entries: Vec<(K, V)>)
    ensures
        entry_keys(entries@) == keys_of(entries.deep_view()),
{
    assert(entry_keys(entries@) =~= keys_of(entries.deep_view()));
}

/// A map kept as a list of entries in ascending order of keys.
#[derive(Debug, PartialEq, Eq)]
pub struct OrderedMap<K: Ordered, V> {
    entries: Vec<(K, V)>,
}

impl<K: Ordered, V: DeepView> DeepView for OrderedMap<K, V> {
    type V = Seq<(K::V, V::V)>;

    open spec fn deep_view(&self) -> Seq<(K::V, V::V)> {
        self.kept().deep_view()
    }
}

impl<K: Ordered, V: Value> Value for OrderedMap<K, V> {
    fn replicate(&self) -> (r: Self) {
        proof {
            use_type_invariant(self);
        }
        let entries: Vec<(K, V)> = self.entries.replicate();
        proof {
            keys_by_content(self.entries);
            keys_by_content(entries);
        }
        OrderedMap { entries }
    }

    fn same_value(&self, other: &Self) -> (r: bool) {
        self.entries.same_value(&other.entries)
    }
}

impl<K: Ordered, V> OrderedMap<K, V> {
    /// The keys stand in ascending order.
    #[verifier::type_invariant]
    spec fn in_order(self) -> bool {
        ascending::<K>(entry_keys(self.entries@))
    }
}

impl<K: Ordered, V: DeepView> OrderedMap<K, V> {
    /// The entries, as they are kept.
    pub closed spec fn kept(&self) -> &Vec<(K, V)> {
        &self.entries
    }

    /// The entries, in the order of their keys.
    #[verifier::when_used_as_spec(kept)]
    pub fn entries(&self) -> (r: &Vec<(K, V)>)
        ensures
            r == self.kept(),
            ascending::<K>(keys_of(r.deep_view())),
    {
        proof {
            use_type_invariant(self);
            keys_by_content(self.entries);
        }
        &self.entries
    }

    /// The entries, in the order of their keys.
    pub fn into_entries(self) -> (r: Vec<(K, V)>)
        ensures
            r == *self.kept(),
            ascending::<K>(keys_of(r.deep_view())),
    {
        proof {
            use_type_invariant(&self);
            keys_by_content(self.entries);
        }
        self.entries
    }

    /// The map of entries that stand in the order of their keys.
    pub fn from_entries(entries: Vec<(K, V)>) -> (r: Self)
        requires
            ascending::<K>(keys_of(entries.deep_view())),
        ensures
            *r.kept() == entries,
    {
        proof {
            keys_by_content(entries);
        }
        OrderedMap { entries }
    }

    /// The empty map.
    pub fn new() -> (r: Self)
        ensures
            r.deep_view() == Seq::<(K::V, V::V)>::empty(),
    {
        let r = OrderedMap { entries: Vec::new() };
        assert(r.deep_view() =~= Seq::<(K::V, V::V)>::empty());
        r
    }

    /// The value at key `k`.
    pub fn get(&self, k: &K) -> (r: Option<&V>)
        ensures
            r.deep_view() == lookup(self.deep_view(), k.deep_view()),
    {
        let mut i: usize = self.entries.len();
        assert(self.deep_view().take(i as int) =~= self.deep_view());
        while i > 0
            invariant
                i <= self.entries.len(),
                lookup(self.deep_view(), k.deep_view()) == lookup(
                    self.deep_view().take(i as int),
                    k.deep_view(),
                ),
            decreases i,
        {
            assert(self.deep_view().take(i as int).last() == self.deep_view()[i - 1]);
            assert(self.deep_view().take(i as int).drop_last() =~= self.deep_view().take(i - 1));
            i = i - 1;
            if self.entries[i].0.same_value(k) {
                return Some(&self.entries[i].1);
            }
        }
        None
    }

    /// Whether key `k` has a value.
    pub fn contains_key(&self, k: &K) -> (r: bool)
        ensures
            r == (lookup(self.deep_view(), k.deep_view()) is Some),
    {
        self.get(k).is_some()
    }

    /// Sets the value at key `k`.
    pub fn insert(&mut self, k: K, v: V)
        ensures
            final(self).deep_view() == with_entry::<K, V::V>(
                old(self).deep_view(),
                k.deep_view(),
                v.deep_view(),
            ),
    {
        let ghost model = self.deep_view();
        let ghost key = k.deep_view();
        let ghost value = v.deep_view();
        let i = self.rank(&k);
        proof {
            use_type_invariant(&*self);
            keys_by_content(self.entries);
            with_entry_keys::<K, V::V>(model, key, value);
            with_item_ascending::<K>(keys_of(model), key);
        }
        let mut entries: Vec<(K, V)> = Vec::new();
        std::mem::swap(&mut entries, &mut self.entries);
        if i < entries.len() && entries[i].0.same_value(&k) {
            entries.set(i, (k, v));
            assert(entries.deep_view() =~= model.update(i as int, (key, value)));
        } else {
            entries.insert(i, (k, v));
            assert(entries.deep_view() =~= model.insert(i as int, (key, value)));
        }
        proof {
            keys_by_content(entries);
        }
        self.entries = entries;
    }

    fn rank(&self, k: &K) -> (i: usize)
        ensures
            i <= self.entries.len(),
            i == rank_of::<K>(keys_of(self.deep_view()), k.deep_view()),
    {
        let mut i: usize = 0;
        let ghost keys = keys_of(self.deep_view());
        while i < self.entries.len() && self.entries[i].0.is_before(k)
            invariant
                i <= self.entries.len(),
                keys == keys_of(self.deep_view()),
                forall|j: int| 0 <= j < i ==> K::before(#[trigger] keys[j], k.deep_view()),
            decreases self.entries.len() - i,
        {
            assert(keys[i as int] == self.entries@[i as int].0.deep_view());
            i = i + 1;
        }
        proof {
            if i < self.entries.len() {
                assert(keys[i as int] == self.entries@[i as int].0.deep_view());
            }
            rank_of_found::<K>(keys, k.deep_view(), i as int);
        }
        i
    }

    /// How many keys have a value.
    pub fn len(&self) -> (r: usize)
        ensures
            r == self.deep_view().len(),
    {
        self.entries.len()
    }

    /// Whether no key has a value.
    pub fn is_empty(&self) -> (r: bool)
        ensures
            r == (self.deep_view().len() == 0),
    {
        self.entries.len() == 0
    }
}

/// The items without those that equal the item in front of them.
pub open spec fn without_repeats<V>(s: Seq<V>) -> Seq<V>
    decreases s.len(),
{
    if s.len() == 0 {
        Seq::empty()
    } else {
        let rest = without_repeats(s.drop_last());
        if rest.len() > 0 && rest.last() == s.last() {
            rest
        } else {
            rest.push(s.last())
        }
    }
}

/// Copies the items without those that equal the item in front of them.
pub fn dedup<T: Value>(items: &Vec<T>) -> (r: Vec<T>)
    ensures
        r.deep_view() == without_repeats(items.deep_view()),
{
    let mut out: Vec<T> = Vec::new();
    let ghost model = items.deep_view();
    let mut i: usize = 0;
    while i < items.len()
        invariant
            i <= items.len(),
            model == items.deep_view(),
            out.deep_view() == without_repeats(model.take(i as int)),
        decreases items.len() - i,
    {
        proof {
            assert(model.take(i + 1).drop_last() =~= model.take(i as int));
            assert(model.take(i + 1).last() == items@[i as int].deep_view());
        }
        let n: usize = out.len();
        if n > 0 {
            assert(out.deep_view().last() == out@[n - 1].deep_view());
        }
        if n > 0 && out[n - 1].same_value(&items[i]) {
        } else {
            push_item(&mut out, items[i].replicate());
        }
        i = i + 1;
    }
    assert(model.take(i as int) =~= model);
    out
}

/// A way of ordering values of one type by a key.
pub trait Ranking<T: DeepView> {
    type Key: Ordered;

    /// The key of a content.
    spec fn key(a: T::V) -> <Self::Key as DeepView>::V;

    /// Whether the key of `a` comes strictly before that of `b`.
    fn ranks_before(a: &T, b: &T) -> (r: bool)
        ensures
            r == Self::Key::before(Self::key(a.deep_view()), Self::key(b.deep_view())),
    ;
}

/// `s` with `x` placed before the items at its end that it ranks before.
pub open spec fn placed<T: DeepView, R: Ranking<T>>(s: Seq<T::V>, x: T::V) -> Seq<T::V>
    decreases s.len(),
{
    if s.len() > 0 && R::Key::before(R::key(x), R::key(s.last())) {
        placed::<T, R>(s.drop_last(), x).push(s.last())
    } else {
        s.push(x)
    }
}

/// `s` sorted by the key of `R`, items with equal keys in the order they had.
pub open spec fn sorted_by<T: DeepView, R: Ranking<T>>(s: Seq<T::V>) -> Seq<T::V>
    decreases s.len(),
{
    if s.len() == 0 {
        Seq::empty()
    } else {
        placed::<T, R>(sorted_by::<T, R>(s.drop_last()), s.last())
    }
}

/// Whether no item has a key that comes before the key of an item in front of it.
pub open spec fn in_order<T: DeepView, R: Ranking<T>>(s: Seq<T::V>) -> bool {
    forall|i: int, j: int|
        0 <= i < j < s.len() ==> !R::Key::before(R::key(#[trigger] s[j]), R::key(#[trigger] s[i]))
}

proof fn placed_len<T: DeepView, R: Ranking<T>>(s: Seq<T::V>, x: T::V)
    ensures
        placed::<T, R>(s, x).len() == s.len() + 1,
    decreases s.len(),
{
    if s.len() > 0 && R::Key::before(R::key(x), R::key(s.last())) {
        placed_len::<T, R>(s.drop_last(), x);
    }
}

/// Sorting keeps the number of items.
pub proof fn sorted_by_len<T: DeepView, R: Ranking<T>>(s: Seq<T::V>)
    ensures
        sorted_by::<T, R>(s).len() == s.len(),
    decreases s.len(),
{
    if s.len() > 0 {
        sorted_by_len::<T, R>(s.drop_last());
        placed_len::<T, R>(sorted_by::<T, R>(s.drop_last()), s.last());
    }
}

proof fn placed_keeps_items<T: DeepView, R: Ranking<T>>(s: Seq<T::V>, x: T::V)
    ensures
        placed::<T, R>(s, x).to_multiset() == s.to_multiset().insert(x),
    decreases s.len(),
{
    broadcast use vstd::seq_lib::group_to_multiset_ensures;

    if s.len() > 0 && R::Key::before(R::key(x), R::key(s.last())) {
        placed_keeps_items::<T, R>(s.drop_last(), x);
        assert(s =~= s.drop_last().push(s.last()));
        assert(s.drop_last().to_multiset().insert(x).insert(s.last())
            =~= s.drop_last().to_multiset().insert(s.last()).insert(x));
    }
}

/// Sorting keeps the items.
pub proof fn sorted_by_keeps_items<T: DeepView, R: Ranking<T>>(s: Seq<T::V>)
    ensures
        sorted_by::<T, R>(s).to_multiset() == s.to_multiset(),
    decreases s.len(),
{
    broadcast use vstd::seq_lib::group_to_multiset_ensures;

    if s.len() > 0 {
        sorted_by_keeps_items::<T, R>(s.drop_last());
        placed_keeps_items::<T, R>(sorted_by::<T, R>(s.drop_last()), s.last());
        assert(s =~= s.drop_last().push(s.last()));
    } else {
        assert(s =~= Seq::empty());
    }
}

proof fn placed_in_order<T: DeepView, R: Ranking<T>>(s: Seq<T::V>, x: T::V)
    requires
        in_order::<T, R>(s),
    ensures
        in_order::<T, R>(placed::<T, R>(s, x)),
        forall|i: int|
            0 <= i < placed::<T, R>(s, x).len() ==> (#[trigger] placed::<T, R>(s, x)[i] == x
                || exists|j: int| 0 <= j < s.len() && s[j] == placed::<T, R>(s, x)[i]),
    decreases s.len(),
{
    let r = placed::<T, R>(s, x);
    if s.len() > 0 && R::Key::before(R::key(x), R::key(s.last())) {
        let p = placed::<T, R>(s.drop_last(), x);
        placed_in_order::<T, R>(s.drop_last(), x);
        assert forall|i: int| 0 <= i < r.len() implies (#[trigger] r[i] == x || exists|j: int|
            0 <= j < s.len() && s[j] == r[i]) by {
            if i < p.len() {
                assert(r[i] == p[i]);
                if p[i] != x {
                    let j = choose|j: int| 0 <= j < s.drop_last().len() && s.drop_last()[j] == p[i];
                    assert(s[j] == r[i]);
                }
            } else {
                assert(s[s.len() - 1] == r[i]);
            }
        }
        assert forall|i: int, j: int| 0 <= i < j < r.len() implies !R::Key::before(
            R::key(#[trigger] r[j]),
            R::key(#[trigger] r[i]),
        ) by {
            assert(r[i] == p[i]);
            if j < p.len() {
                assert(r[j] == p[j]);
            } else {
                if p[i] == x {
                    if R::Key::before(R::key(s.last()), R::key(x)) {
                        R::Key::before_transitive(R::key(x), R::key(s.last()), R::key(x));
                        R::Key::before_irreflexive(R::key(x));
                    }
                } else {
                    let m = choose|m: int| 0 <= m < s.drop_last().len() && s.drop_last()[m] == p[i];
                    assert(s[m] == p[i]);
                    assert(!R::Key::before(R::key(s[s.len() - 1]), R::key(s[m])));
                }
            }
        }
    } else {
        assert forall|i: int| 0 <= i < r.len() implies (#[trigger] r[i] == x || exists|j: int|
            0 <= j < s.len() && s[j] == r[i]) by {
            if i < s.len() {
                assert(s[i] == r[i]);
            }
        }
        assert forall|i: int, j: int| 0 <= i < j < r.len() implies !R::Key::before(
            R::key(#[trigger] r[j]),
            R::key(#[trigger] r[i]),
        ) by {
            assert(r[i] == s[i]);
            if j < s.len() {
                assert(r[j] == s[j]);
            } else if i < s.len() - 1 {
                let last = s[s.len() - 1];
                assert(!R::Key::before(R::key(last), R::key(s[i])));
                if R::Key::before(R::key(x), R::key(s[i])) {
                    R::Key::before_total(R::key(last), R::key(s[i]));
                    if R::Key::before(R::key(s[i]), R::key(last)) {
                        R::Key::before_transitive(R::key(x), R::key(s[i]), R::key(last));
                    }
                }
            }
        }
    }
}

/// Sorting puts the items in the order of their keys.
pub proof fn sorted_by_in_order<T: DeepView, R: Ranking<T>>(s: Seq<T::V>)
    ensures
        in_order::<T, R>(sorted_by::<T, R>(s)),
    decreases s.len(),
{
    if s.len() > 0 {
        sorted_by_in_order::<T, R>(s.drop_last());
        placed_in_order::<T, R>(sorted_by::<T, R>(s.drop_last()), s.last());
    }
}

proof fn placed_at<T: DeepView, R: Ranking<T>>(s: Seq<T::V>, x: T::V, n: int)
    requires
        0 <= n <= s.len(),
        forall|i: int| n <= i < s.len() ==> R::Key::before(R::key(x), R::key(#[trigger] s[i])),
        n > 0 ==> !R::Key::before(R::key(x), R::key(s[n - 1])),
    ensures
        placed::<T, R>(s, x) == s.insert(n, x),
    decreases s.len(),
{
    if n < s.len() {
        assert(R::Key::before(R::key(x), R::key(s[s.len() - 1])));
        placed_at::<T, R>(s.drop_last(), x, n);
        assert(s.drop_last().insert(n, x).push(s.last()) =~= s.insert(n, x));
    } else {
        assert(s.push(x) =~= s.insert(n, x));
    }
}

/// Sorts by the key of `R`, keeping items with equal keys in the order they had.
pub fn sort_by<T: DeepView, R: Ranking<T>>(items: &mut Vec<T>)
    ensures
        final(items).deep_view() == sorted_by::<T, R>(old(items).deep_view()),
{
    let ghost model = items.deep_view();
    let n: usize = items.len();
    let mut i: usize = 0;
    assert(items.deep_view() =~= sorted_by::<T, R>(model.take(0)) + model.skip(0));
    while i < n
        invariant
            i <= n,
            n == items.len(),
            n == model.len(),
            items.deep_view() == sorted_by::<T, R>(model.take(i as int)) + model.skip(i as int),
        decreases n - i,
    {
        let ghost done = sorted_by::<T, R>(model.take(i as int));
        proof {
            sorted_by_len::<T, R>(model.take(i as int));
        }
        let ghost all = items.deep_view();
        assert(all[i as int] == model.skip(i as int)[0]);
        let x = items.remove(i);
        let ghost rest = items.deep_view();
        assert(x.deep_view() == model[i as int]);
        assert(rest =~= all.remove(i as int));
        assert(rest =~= done + model.skip(i + 1));
        let mut j: usize = i;
        while j > 0 && R::ranks_before(&x, &items[j - 1])
            invariant
                j <= i,
                i < n,
                items.len() == n - 1,
                rest == items.deep_view(),
                done.len() == i,
                forall|k: int| 0 <= k < i ==> rest[k] == #[trigger] done[k],
                forall|k: int|
                    j <= k < i ==> R::Key::before(
                        R::key(x.deep_view()),
                        R::key(#[trigger] done[k]),
                    ),
            decreases j,
        {
            assert(rest[j - 1] == done[j - 1]);
            j = j - 1;
        }
        proof {
            if j > 0 {
                assert(rest[j - 1] == done[j - 1]);
            }
            placed_at::<T, R>(done, x.deep_view(), j as int);
        }
        let ghost added = x.deep_view();
        items.insert(j, x);
        i = i + 1;
        assert(items.deep_view() =~= rest.insert(j as int, added));
        assert(model.take(i as int).drop_last() =~= model.take(i - 1));
        assert(model.take(i as int).last() == added);
        assert(items.deep_view() =~= done.insert(j as int, added) + model.skip(i as int));
    }
    assert(model.take(n as int) =~= model);
    assert(items.deep_view() =~= sorted_by::<T, R>(model));
}

} // verus!
