//! Values that can be copied, compared and ordered by what they hold.

use crate::text::{chars_of, same};
use vstd::prelude::*;

verus! {

/// A value whose content is a mathematical value, that can be copied and compared by content.
pub trait Value: DeepView + Sized {
    /// A second value with the same content.
    fn replicate(&self) -> (r: Self)
        ensures
            r.deep_view() == self.deep_view(),
    ;

    /// Whether both values have the same content.
    fn same_value(&self, other: &Self) -> (r: bool)
        ensures
            r == (self.deep_view() == other.deep_view()),
    ;
}

/// Appends an item, in terms of contents.
pub fn push_item<T: DeepView>(items: &mut Vec<T>, item: T)
    ensures
        final(items)@ == old(items)@.push(item),
        final(items).deep_view() == old(items).deep_view().push(item.deep_view()),
{
    let ghost before = items.deep_view();
    items.push(item);
    assert(items.deep_view() =~= before.push(item.deep_view()));
}

/// Puts another item in the place of one.
pub fn replace_item<T: DeepView>(items: &mut Vec<T>, i: usize, item: T)
    requires
        i < old(items)@.len(),
    ensures
        final(items)@ == old(items)@.update(i as int, item),
        final(items).deep_view() == old(items).deep_view().update(i as int, item.deep_view()),
{
    let ghost before = items@;
    let ghost model = items.deep_view();
    items.set(i, item);
    assert(items.deep_view() =~= model.update(i as int, item.deep_view()));
}

/// Puts copies of all of `more` behind the items.
pub fn append_items<T: Value>(items: &mut Vec<T>, more: &Vec<T>)
    ensures
        final(items).deep_view() == old(items).deep_view() + more.deep_view(),
{
    let ghost front = items.deep_view();
    let ghost model = more.deep_view();
    let mut i: usize = 0;
    while i < more.len()
        invariant
            i <= more.len(),
            model == more.deep_view(),
            items.deep_view() =~= front + model.take(i as int),
        decreases more.len() - i,
    {
        assert(model.take(i + 1) =~= model.take(i as int).push(more@[i as int].deep_view()));
        push_item(items, more[i].replicate());
        i = i + 1;
    }
    assert(model.take(i as int) =~= model);
}

impl Value for String {
    fn replicate(&self) -> (r: Self) {
        self.clone()
    }

    fn same_value(&self, other: &Self) -> (r: bool) {
        same(self, other)
    }
}

impl Value for &'static str {
    fn replicate(&self) -> (r: Self) {
        *self
    }

    fn same_value(&self, other: &Self) -> (r: bool) {
        same(*self, *other)
    }
}

impl Value for bool {
    fn replicate(&self) -> (r: Self) {
        *self
    }

    fn same_value(&self, other: &Self) -> (r: bool) {
        *self == *other
    }
}

impl Value for u32 {
    fn replicate(&self) -> (r: Self) {
        *self
    }

    fn same_value(&self, other: &Self) -> (r: bool) {
        *self == *other
    }
}

impl Value for u64 {
    fn replicate(&self) -> (r: Self) {
        *self
    }

    fn same_value(&self, other: &Self) -> (r: bool) {
        *self == *other
    }
}

impl Value for u128 {
    fn replicate(&self) -> (r: Self) {
        *self
    }

    fn same_value(&self, other: &Self) -> (r: bool) {
        *self == *other
    }
}

impl Value for usize {
    fn replicate(&self) -> (r: Self) {
        *self
    }

    fn same_value(&self, other: &Self) -> (r: bool) {
        *self == *other
    }
}

impl Value for u8 {
    fn replicate(&self) -> (r: Self) {
        *self
    }

    fn same_value(&self, other: &Self) -> (r: bool) {
        *self == *other
    }
}

impl Value for i32 {
    fn replicate(&self) -> (r: Self) {
        *self
    }

    fn same_value(&self, other: &Self) -> (r: bool) {
        *self == *other
    }
}

impl<T: Value> Value for Option<T> {
    fn replicate(&self) -> (r: Self) {
        match self {
            Some(value) => Some(value.replicate()),
            None => None,
        }
    }

    fn same_value(&self, other: &Self) -> (r: bool) {
        match (self, other) {
            (Some(a), Some(b)) => a.same_value(b),
            (None, None) => true,
            _ => false,
        }
    }
}

impl<T: Value> Value for Vec<T> {
    fn replicate(&self) -> (r: Self) {
        let mut out: Vec<T> = Vec::new();
        let mut i: usize = 0;
        while i < self.len()
            invariant
                i <= self.len(),
                out.deep_view() == self.deep_view().take(i as int),
            decreases self.len() - i,
        {
            push_item(&mut out, self[i].replicate());
            i = i + 1;
            assert(out.deep_view() =~= self.deep_view().take(i as int));
        }
        assert(self.deep_view().take(i as int) =~= self.deep_view());
        out
    }

    fn same_value(&self, other: &Self) -> (r: bool) {
        if self.len() != other.len() {
            assert(self.deep_view().len() != other.deep_view().len());
            return false;
        }
        let mut i: usize = 0;
        while i < self.len()
            invariant
                i <= self.len(),
                self.len() == other.len(),
                forall|j: int| 0 <= j < i ==> self.deep_view()[j] == other.deep_view()[j],
            decreases self.len() - i,
        {
            if !self[i].same_value(&other[i]) {
                assert(self.deep_view()[i as int] != other.deep_view()[i as int]);
                return false;
            }
            i = i + 1;
        }
        assert(self.deep_view() =~= other.deep_view());
        true
    }
}

impl<A: Value, B: Value> Value for (A, B) {
    fn replicate(&self) -> (r: Self) {
        (self.0.replicate(), self.1.replicate())
    }

    fn same_value(&self, other: &Self) -> (r: bool) {
        self.0.same_value(&other.0) && self.1.same_value(&other.1)
    }
}

/// A value whose content is totally ordered.
pub trait Ordered: Value {
    /// Whether content `a` comes strictly before content `b`.
    spec fn before(a: Self::V, b: Self::V) -> bool;

    /// Whether `self` comes strictly before `other`.
    fn is_before(&self, other: &Self) -> (r: bool)
        ensures
            r == Self::before(self.deep_view(), other.deep_view()),
    ;

    /// Nothing comes before itself.
    proof fn before_irreflexive(a: Self::V)
        ensures
            !Self::before(a, a),
    ;

    /// The order is transitive.
    proof fn before_transitive(a: Self::V, b: Self::V, c: Self::V)
        requires
            Self::before(a, b),
            Self::before(b, c),
        ensures
            Self::before(a, c),
    ;

    /// Two different contents are ordered one way or the other.
    proof fn before_total(a: Self::V, b: Self::V)
        ensures
            a == b || Self::before(a, b) || Self::before(b, a),
    ;
}

/// The lexicographic order on texts, by code point.
pub open spec fn text_before(a: Seq<char>, b: Seq<char>) -> bool
    decreases a.len(),
{
    if b.len() == 0 {
        false
    } else if a.len() == 0 {
        true
    } else if a[0] == b[0] {
        text_before(a.drop_first(), b.drop_first())
    } else {
        a[0] < b[0]
    }
}

/// Nothing comes before itself in the order of texts.
pub proof fn text_before_irreflexive(a: Seq<char>)
    ensures
        !text_before(a, a),
    decreases a.len(),
{
    if a.len() > 0 {
        text_before_irreflexive(a.drop_first());
    }
}

/// The order of texts is transitive.
pub proof fn text_before_transitive(a: Seq<char>, b: Seq<char>, c: Seq<char>)
    requires
        text_before(a, b),
        text_before(b, c),
    ensures
        text_before(a, c),
    decreases a.len(),
{
    if a.len() > 0 && a[0] == b[0] && b[0] == c[0] {
        text_before_transitive(a.drop_first(), b.drop_first(), c.drop_first());
    }
}

/// Two different texts are ordered one way or the other.
pub proof fn text_before_total(a: Seq<char>, b: Seq<char>)
    ensures
        a == b || text_before(a, b) || text_before(b, a),
    decreases a.len(),
{
    if a.len() == 0 && b.len() == 0 {
        assert(a =~= b);
    } else if a.len() > 0 && b.len() > 0 && a[0] == b[0] {
        text_before_total(a.drop_first(), b.drop_first());
        if a.drop_first() == b.drop_first() {
            assert(a =~= seq![a[0]] + a.drop_first());
            assert(b =~= seq![b[0]] + b.drop_first());
        }
    }
}

impl Ordered for String {
    open spec fn before(a: Seq<char>, b: Seq<char>) -> bool {
        text_before(a, b)
    }

    fn is_before(&self, other: &Self) -> (r: bool) {
        text_is_before(self, other)
    }

    proof fn before_irreflexive(a: Seq<char>) {
        text_before_irreflexive(a);
    }

    proof fn before_transitive(a: Seq<char>, b: Seq<char>, c: Seq<char>) {
        text_before_transitive(a, b, c);
    }

    proof fn before_total(a: Seq<char>, b: Seq<char>) {
        text_before_total(a, b);
    }
}

proof fn text_before_common(a: Seq<char>, b: Seq<char>, n: nat)
    requires
        n <= a.len(),
        n <= b.len(),
        a.take(n as int) == b.take(n as int),
    ensures
        text_before(a, b) == text_before(a.skip(n as int), b.skip(n as int)),
    decreases n,
{
    if n == 0 {
        assert(a.skip(0) =~= a);
        assert(b.skip(0) =~= b);
    } else {
        assert(a[0] == a.take(n as int)[0]);
        assert(b[0] == b.take(n as int)[0]);
        assert(a.drop_first().take(n - 1) =~= a.take(n as int).drop_first());
        assert(b.drop_first().take(n - 1) =~= b.take(n as int).drop_first());
        text_before_common(a.drop_first(), b.drop_first(), (n - 1) as nat);
        assert(a.drop_first().skip(n - 1) =~= a.skip(n as int));
        assert(b.drop_first().skip(n - 1) =~= b.skip(n as int));
    }
}

/// Whether text `a` comes strictly before text `b`.
pub fn text_is_before(a: &str, b: &str) -> (r: bool)
    ensures
        r == text_before(a@, b@),
{
    let x = chars_of(a);
    let y = chars_of(b);
    let mut i: usize = 0;
    while i < x.len() && i < y.len()
        invariant
            i <= x.len(),
            i <= y.len(),
            x@ == a@,
            y@ == b@,
            a@.take(i as int) == b@.take(i as int),
        decreases x.len() - i,
    {
        if x[i] != y[i] {
            proof {
                text_before_common(a@, b@, i as nat);
            }
            return x[i] < y[i];
        }
        i = i + 1;
        assert(a@.take(i as int) =~= a@.take(i - 1).push(a@[i - 1]));
        assert(b@.take(i as int) =~= b@.take(i - 1).push(b@[i - 1]));
    }
    proof {
        text_before_common(a@, b@, i as nat);
    }
    i < y.len()
}

impl Ordered for &'static str {
    open spec fn before(a: Seq<char>, b: Seq<char>) -> bool {
        text_before(a, b)
    }

    fn is_before(&self, other: &Self) -> (r: bool) {
        assert(self.deep_view() == self@ && other.deep_view() == other@);
        assert(Self::before(self@, other@) == text_before(self@, other@));
        text_is_before(*self, *other)
    }

    proof fn before_irreflexive(a: Seq<char>) {
        text_before_irreflexive(a);
    }

    proof fn before_transitive(a: Seq<char>, b: Seq<char>, c: Seq<char>) {
        text_before_transitive(a, b, c);
    }

    proof fn before_total(a: Seq<char>, b: Seq<char>) {
        text_before_total(a, b);
    }
}

impl Ordered for bool {
    open spec fn before(a: bool, b: bool) -> bool {
        !a && b
    }

    fn is_before(&self, other: &Self) -> (r: bool) {
        !*self && *other
    }

    proof fn before_irreflexive(a: bool) {
    }

    proof fn before_transitive(a: bool, b: bool, c: bool) {
    }

    proof fn before_total(a: bool, b: bool) {
    }
}

impl Ordered for u32 {
    open spec fn before(a: u32, b: u32) -> bool {
        a < b
    }

    fn is_before(&self, other: &Self) -> (r: bool) {
        assert(self.deep_view() == *self && other.deep_view() == *other);
        assert(Self::before(*self, *other) == (*self < *other));
        *self < *other
    }

    proof fn before_irreflexive(a: u32) {
    }

    proof fn before_transitive(a: u32, b: u32, c: u32) {
    }

    proof fn before_total(a: u32, b: u32) {
    }
}

impl Ordered for usize {
    open spec fn before(a: usize, b: usize) -> bool {
        a < b
    }

    fn is_before(&self, other: &Self) -> (r: bool) {
        assert(self.deep_view() == *self && other.deep_view() == *other);
        assert(Self::before(*self, *other) == (*self < *other));
        *self < *other
    }

    proof fn before_irreflexive(a: usize) {
    }

    proof fn before_transitive(a: usize, b: usize, c: usize) {
    }

    proof fn before_total(a: usize, b: usize) {
    }
}

/// An absent value comes before every present one.
impl<T: Ordered> Ordered for Option<T> {
    open spec fn before(a: Option<T::V>, b: Option<T::V>) -> bool {
        match (a, b) {
            (Some(x), Some(y)) => T::before(x, y),
            (None, Some(_)) => true,
            _ => false,
        }
    }

    fn is_before(&self, other: &Self) -> (r: bool) {
        match (self, other) {
            (Some(x), Some(y)) => x.is_before(y),
            (None, Some(_)) => true,
            _ => false,
        }
    }

    proof fn before_irreflexive(a: Option<T::V>) {
        if let Some(x) = a {
            T::before_irreflexive(x);
        }
    }

    proof fn before_transitive(a: Option<T::V>, b: Option<T::V>, c: Option<T::V>) {
        if let (Some(x), Some(y), Some(z)) = (a, b, c) {
            T::before_transitive(x, y, z);
        }
    }

    proof fn before_total(a: Option<T::V>, b: Option<T::V>) {
        if let (Some(x), Some(y)) = (a, b) {
            T::before_total(x, y);
        }
    }
}

/// The lexicographic order on lists.
pub open spec fn list_before<T: Ordered>(a: Seq<T::V>, b: Seq<T::V>) -> bool
    decreases a.len(),
{
    if b.len() == 0 {
        false
    } else if a.len() == 0 {
        true
    } else if a[0] == b[0] {
        list_before::<T>(a.drop_first(), b.drop_first())
    } else {
        T::before(a[0], b[0])
    }
}

proof fn list_before_irreflexive<T: Ordered>(a: Seq<T::V>)
    ensures
        !list_before::<T>(a, a),
    decreases a.len(),
{
    if a.len() > 0 {
        list_before_irreflexive::<T>(a.drop_first());
    }
}

proof fn list_before_transitive<T: Ordered>(a: Seq<T::V>, b: Seq<T::V>, c: Seq<T::V>)
    requires
        list_before::<T>(a, b),
        list_before::<T>(b, c),
    ensures
        list_before::<T>(a, c),
    decreases a.len(),
{
    if a.len() > 0 {
        if a[0] == b[0] && b[0] == c[0] {
            list_before_transitive::<T>(a.drop_first(), b.drop_first(), c.drop_first());
        } else if a[0] != b[0] && b[0] != c[0] {
            T::before_transitive(a[0], b[0], c[0]);
            T::before_irreflexive(a[0]);
        }
    }
}

proof fn list_before_total<T: Ordered>(a: Seq<T::V>, b: Seq<T::V>)
    ensures
        a == b || list_before::<T>(a, b) || list_before::<T>(b, a),
    decreases a.len(),
{
    if a.len() == 0 && b.len() == 0 {
        assert(a =~= b);
    } else if a.len() > 0 && b.len() > 0 {
        if a[0] == b[0] {
            list_before_total::<T>(a.drop_first(), b.drop_first());
            if a.drop_first() == b.drop_first() {
                assert(a =~= seq![a[0]] + a.drop_first());
                assert(b =~= seq![b[0]] + b.drop_first());
            }
        } else {
            T::before_total(a[0], b[0]);
        }
    }
}

proof fn list_before_common<T: Ordered>(a: Seq<T::V>, b: Seq<T::V>, n: nat)
    requires
        n <= a.len(),
        n <= b.len(),
        a.take(n as int) == b.take(n as int),
    ensures
        list_before::<T>(a, b) == list_before::<T>(a.skip(n as int), b.skip(n as int)),
    decreases n,
{
    if n == 0 {
        assert(a.skip(0) =~= a);
        assert(b.skip(0) =~= b);
    } else {
        assert(a[0] == a.take(n as int)[0]);
        assert(b[0] == b.take(n as int)[0]);
        assert(a.drop_first().take(n - 1) =~= a.take(n as int).drop_first());
        assert(b.drop_first().take(n - 1) =~= b.take(n as int).drop_first());
        list_before_common::<T>(a.drop_first(), b.drop_first(), (n - 1) as nat);
        assert(a.drop_first().skip(n - 1) =~= a.skip(n as int));
        assert(b.drop_first().skip(n - 1) =~= b.skip(n as int));
    }
}

/// Lists are ordered lexicographically.
impl<T: Ordered> Ordered for Vec<T> {
    open spec fn before(a: Seq<T::V>, b: Seq<T::V>) -> bool {
        list_before::<T>(a, b)
    }

    fn is_before(&self, other: &Self) -> (r: bool) {
        let ghost a = self.deep_view();
        let ghost b = other.deep_view();
        let mut i: usize = 0;
        while i < self.len() && i < other.len()
            invariant
                i <= self.len(),
                i <= other.len(),
                a == self.deep_view(),
                b == other.deep_view(),
                a.take(i as int) == b.take(i as int),
            decreases self.len() - i,
        {
            assert(a.skip(i as int)[0] == self@[i as int].deep_view());
            assert(b.skip(i as int)[0] == other@[i as int].deep_view());
            if !self[i].same_value(&other[i]) {
                proof {
                    list_before_common::<T>(a, b, i as nat);
                }
                return self[i].is_before(&other[i]);
            }
            i = i + 1;
            assert(a.take(i as int) =~= a.take(i - 1).push(a[i - 1]));
            assert(b.take(i as int) =~= b.take(i - 1).push(b[i - 1]));
        }
        proof {
            list_before_common::<T>(a, b, i as nat);
        }
        i < other.len()
    }

    proof fn before_irreflexive(a: Seq<T::V>) {
        list_before_irreflexive::<T>(a);
    }

    proof fn before_transitive(a: Seq<T::V>, b: Seq<T::V>, c: Seq<T::V>) {
        list_before_transitive::<T>(a, b, c);
    }

    proof fn before_total(a: Seq<T::V>, b: Seq<T::V>) {
        list_before_total::<T>(a, b);
    }
}

/// Pairs are ordered by their first component, then by their second.
impl<A: Ordered, B: Ordered> Ordered for (A, B) {
    open spec fn before(a: (A::V, B::V), b: (A::V, B::V)) -> bool {
        A::before(a.0, b.0) || (a.0 == b.0 && B::before(a.1, b.1))
    }

    fn is_before(&self, other: &Self) -> (r: bool) {
        self.0.is_before(&other.0) || (self.0.same_value(&other.0) && self.1.is_before(&other.1))
    }

    proof fn before_irreflexive(a: (A::V, B::V)) {
        A::before_irreflexive(a.0);
        B::before_irreflexive(a.1);
    }

    proof fn before_transitive(a: (A::V, B::V), b: (A::V, B::V), c: (A::V, B::V)) {
        if A::before(a.0, b.0) && A::before(b.0, c.0) {
            A::before_transitive(a.0, b.0, c.0);
        } else if a.0 == b.0 && b.0 == c.0 {
            B::before_transitive(a.1, b.1, c.1);
        }
    }

    proof fn before_total(a: (A::V, B::V), b: (A::V, B::V)) {
        A::before_total(a.0, b.0);
        B::before_total(a.1, b.1);
    }
}

} // verus!
