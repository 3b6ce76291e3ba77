//! Sorting by key.

use vstd::prelude::*;
use crate::primitives::{lemma_lex_between, lemma_lex_irreflexive, lemma_lex_transitive, lex_lt, FixedBytes};

verus! {

/// A key that values are ordered by.
pub trait SortKey: Sized {
    /// Whether `self` comes strictly before `other`.
    spec fn before(&self, other: &Self) -> bool;

    /// `before` is a strict order in which any third key lies on one side of
    /// two ordered keys.
    proof fn lemma_order(a: &Self, b: &Self, c: &Self)
        ensures
            !a.before(a),
            a.before(b) && b.before(c) ==> a.before(c),
            a.before(c) ==> a.before(b) || b.before(c),
    ;

    /// Decides `before`.
    fn is_before(&self, other: &Self) -> (r: bool)
        ensures
            r == self.before(other),
    ;
}

impl<const N: usize> SortKey for FixedBytes<N> {
    open spec fn before(&self, other: &Self) -> bool {
        lex_lt(self@, other@)
    }

    proof fn lemma_order(a: &Self, b: &Self, c: &Self) {
        lemma_lex_irreflexive(a@);
        if a.before(b) && b.before(c) {
            lemma_lex_transitive(a@, b@, c@);
        }
        if a.before(c) {
            lemma_lex_between(a@, b@, c@);
        }
    }

    fn is_before(&self, other: &Self) -> (r: bool) {
        self.lt(other)
    }
}

impl SortKey for u64 {
    open spec fn before(&self, other: &Self) -> bool {
        *self < *other
    }

    proof fn lemma_order(a: &Self, b: &Self, c: &Self) {
    }

    fn is_before(&self, other: &Self) -> (r: bool) {
        *self < *other
    }
}

/// A value that carries the key it is ordered by.
pub trait Keyed: Sized {
    type Key: SortKey;

    /// The key of this value.
    spec fn key_of(&self) -> Self::Key;

    /// The key of this value.
    fn key(&self) -> (k: &Self::Key)
        ensures
            *k == self.key_of(),
    ;
}

impl<const N: usize> Keyed for FixedBytes<N> {
    type Key = FixedBytes<N>;

    open spec fn key_of(&self) -> FixedBytes<N> {
        *self
    }

    fn key(&self) -> (k: &FixedBytes<N>) {
        self
    }
}

impl<K: SortKey, V> Keyed for (K, V) {
    type Key = K;

    open spec fn key_of(&self) -> K {
        self.0
    }

    fn key(&self) -> (k: &K) {
        &self.0
    }
}

/// No value of `s` has a key that comes before the key of an earlier value.
pub open spec fn sorted_by_key<T: Keyed>(s: Seq<T>) -> bool {
    forall|i: int, j: int| 0 <= i < j < s.len() ==> !(#[trigger] s[j]).key_of().before(&(#[trigger] s[i]).key_of())
}

/// The keys of `s` strictly increase.
pub open spec fn strictly_sorted_by_key<T: Keyed>(s: Seq<T>) -> bool {
    forall|i: int, j: int| 0 <= i < j < s.len() ==> (#[trigger] s[i]).key_of().before(&(#[trigger] s[j]).key_of())
}

/// No value of `s` has a key that comes before the key of a later value.
pub open spec fn descending_by_key<T: Keyed>(s: Seq<T>) -> bool {
    forall|i: int, j: int| 0 <= i < j < s.len() ==> !(#[trigger] s[i]).key_of().before(&(#[trigger] s[j]).key_of())
}

/// No value of `earlier` has a key that comes before the key of a value of
/// `later`.
pub open spec fn none_before<T: Keyed>(earlier: Seq<T>, later: Seq<T>) -> bool {
    forall|i: int, j: int|
        0 <= i < earlier.len() && 0 <= j < later.len() ==> !(#[trigger] earlier[i]).key_of().before(
            &(#[trigger] later[j]).key_of(),
        )
}

/// The values of `v` in reverse order.
fn reversed<T>(v: Vec<T>) -> (out: Vec<T>)
    ensures
        out@.len() == v@.len(),
        forall|i: int| 0 <= i < out@.len() ==> #[trigger] out@[i] == v@[v@.len() - 1 - i],
        out@.to_multiset() == v@.to_multiset(),
{
    broadcast use vstd::seq_lib::group_to_multiset_ensures;

    let mut rest = v;
    let mut out: Vec<T> = Vec::new();
    while rest.len() > 0
        invariant
            rest@ == v@.take(rest@.len() as int),
            out@.len() + rest@.len() == v@.len(),
            forall|i: int| 0 <= i < out@.len() ==> #[trigger] out@[i] == v@[v@.len() - 1 - i],
            out@.to_multiset().add(rest@.to_multiset()) == v@.to_multiset(),
        decreases rest@.len(),
    {
        let ghost rest_before = rest@;
        let ghost out_before = out@;
        let x = rest.pop().unwrap();
        out.push(x);
        proof {
            assert(rest@.push(x) =~= rest_before);
            vstd::seq_lib::to_multiset_build(rest@, x);
            vstd::seq_lib::to_multiset_build(out_before, x);
        }
    }
    out
}

/// Merges two lists that are sorted by key into one that has the values of
/// both, the largest keys first. Of two values with equal keys the one of
/// `right` comes first.
fn merge_descending<T: Keyed>(left: Vec<T>, right: Vec<T>) -> (out: Vec<T>)
    requires
        sorted_by_key(left@),
        sorted_by_key(right@),
    ensures
        descending_by_key(out@),
        out@.to_multiset() == left@.to_multiset().add(right@.to_multiset()),
        out@.len() == left@.len() + right@.len(),
{
    broadcast use vstd::seq_lib::group_to_multiset_ensures;

    let ghost all_left = left@;
    let ghost all_right = right@;
    let mut left = left;
    let mut right = right;
    let mut out: Vec<T> = Vec::new();
    while left.len() > 0 || right.len() > 0
        invariant
            sorted_by_key(all_left),
            sorted_by_key(all_right),
            left@.len() <= all_left.len(),
            right@.len() <= all_right.len(),
            left@ == all_left.take(left@.len() as int),
            right@ == all_right.take(right@.len() as int),
            descending_by_key(out@),
            none_before(out@, left@),
            none_before(out@, right@),
            out@.to_multiset().add(left@.to_multiset()).add(right@.to_multiset()) == all_left.to_multiset().add(
                all_right.to_multiset(),
            ),
            out@.len() + left@.len() + right@.len() == all_left.len() + all_right.len(),
        decreases left@.len() + right@.len(),
    {
        let ghost left_before = left@;
        let ghost right_before = right@;
        let ghost out_before = out@;
        let from_right = if right.len() == 0 {
            false
        } else if left.len() == 0 {
            true
        } else {
            !right[right.len() - 1].key().is_before(left[left.len() - 1].key())
        };
        let x = if from_right {
            right.pop().unwrap()
        } else {
            left.pop().unwrap()
        };
        proof {
            // No value that is left comes after `x`.
            assert forall|j: int| 0 <= j < left@.len() implies !x.key_of().before(&(#[trigger] left@[j]).key_of()) by {
                let last = left_before.last();
                if from_right {
                    T::Key::lemma_order(&x.key_of(), &last.key_of(), &left@[j].key_of());
                }
            }
            assert forall|j: int| 0 <= j < right@.len() implies !x.key_of().before(&(#[trigger] right@[j]).key_of()) by {
                if !from_right {
                    let last = right_before.last();
                    T::Key::lemma_order(&last.key_of(), &x.key_of(), &right@[j].key_of());
                }
            }
            if from_right {
                assert(right@.push(x) =~= right_before);
                vstd::seq_lib::to_multiset_build(right@, x);
            } else {
                assert(left@.push(x) =~= left_before);
                vstd::seq_lib::to_multiset_build(left@, x);
            }
            vstd::seq_lib::to_multiset_build(out_before, x);
        }
        out.push(x);
    }
    out
}

/// Sorts `v` by key. Values with equal keys keep the order they had in `v`.
pub fn sort_by_key<T: Keyed>(v: Vec<T>) -> (out: Vec<T>)
    ensures
        sorted_by_key(out@),
        out@.to_multiset() == v@.to_multiset(),
        out@.len() == v@.len(),
    decreases v@.len(),
{
    if v.len() <= 1 {
        return v;
    }
    let ghost all = v@;
    let mut left = v;
    let mid = left.len() / 2;
    let right = left.split_off(mid);
    proof {
        assert(all =~= left@ + right@);
        vstd::seq_lib::lemma_multiset_commutative(left@, right@);
    }
    let left = sort_by_key(left);
    let right = sort_by_key(right);
    let merged = merge_descending(left, right);
    let out = reversed(merged);
    out
}

/// A list whose keys strictly increase is sorted by key.
pub proof fn lemma_strictly_sorted_is_sorted<T: Keyed>(s: Seq<T>)
    requires
        strictly_sorted_by_key(s),
    ensures
        sorted_by_key(s),
{
    assert forall|i: int, j: int| 0 <= i < j < s.len() implies !(#[trigger] s[j]).key_of().before(
        &(#[trigger] s[i]).key_of(),
    ) by {
        T::Key::lemma_order(&s[i].key_of(), &s[j].key_of(), &s[i].key_of());
    }
}

/// Two lists that are sorted by key and hold the same values, none of them
/// under a key that another has, are the same list: what a sorted list looks
/// like does not depend on the order in which its values came.
pub proof fn lemma_sorted_unique<T: Keyed>(a: Seq<T>, b: Seq<T>)
    requires
        strictly_sorted_by_key(a),
        sorted_by_key(b),
        a.to_multiset() == b.to_multiset(),
    ensures
        a == b,
    decreases a.len(),
{
    a.to_multiset_ensures();
    b.to_multiset_ensures();
    if a.len() > 0 {
        let x = a.last();
        let y = b.last();
        // Each of the two last values is in both lists: they are the same.
        assert(a.to_multiset().count(y) > 0);
        assert(b.to_multiset().count(x) > 0);
        vstd::seq_lib::to_multiset_remove(a, a.len() - 1);
        vstd::seq_lib::to_multiset_remove(b, b.len() - 1);
        lemma_sorted_unique(a.drop_last(), b.drop_last());
        assert(a =~= a.drop_last().push(x));
    }
}

/// Two lists without repetition that hold the same values hold each of them
/// once: they are rearrangements of each other.
pub proof fn lemma_same_values_once<T>(a: Seq<T>, b: Seq<T>)
    requires
        a.no_duplicates(),
        b.no_duplicates(),
        forall|x: T| a.contains(x) <==> b.contains(x),
    ensures
        a.to_multiset() == b.to_multiset(),
{
    a.to_multiset_ensures();
    b.to_multiset_ensures();
    a.lemma_multiset_has_no_duplicates();
    b.lemma_multiset_has_no_duplicates();
}

/// What the values of `s` come to, one after the other, where each value
/// comes to a list.
pub open spec fn flat_map<A, B>(s: Seq<A>, f: spec_fn(A) -> Seq<B>) -> Seq<B>
    decreases s.len(),
{
    if s.len() == 0 {
        Seq::empty()
    } else {
        flat_map(s.drop_last(), f) + f(s.last())
    }
}

/// What a list comes to holds what the list without one value comes to, and
/// what that value comes to.
pub proof fn lemma_flat_map_remove<A, B>(s: Seq<A>, f: spec_fn(A) -> Seq<B>, i: int)
    requires
        0 <= i < s.len(),
    ensures
        flat_map(s, f).to_multiset() == flat_map(s.remove(i), f).to_multiset().add(f(s[i]).to_multiset()),
    decreases s.len(),
{
    if i == s.len() - 1 {
        vstd::seq_lib::lemma_multiset_commutative(flat_map(s.drop_last(), f), f(s.last()));
    } else {
        lemma_flat_map_remove(s.drop_last(), f, i);
        assert(s.remove(i).drop_last() =~= s.drop_last().remove(i));
        vstd::seq_lib::lemma_multiset_commutative(flat_map(s.drop_last(), f), f(s.last()));
        vstd::seq_lib::lemma_multiset_commutative(flat_map(s.remove(i).drop_last(), f), f(s.last()));
    }
}

/// What a list comes to does not depend, as a collection, on the order of
/// the list.
pub proof fn lemma_flat_map_permutation<A, B>(a: Seq<A>, b: Seq<A>, f: spec_fn(A) -> Seq<B>)
    requires
        a.to_multiset() == b.to_multiset(),
    ensures
        flat_map(a, f).to_multiset() == flat_map(b, f).to_multiset(),
    decreases a.len(),
{
    a.to_multiset_ensures();
    b.to_multiset_ensures();
    if a.len() > 0 {
        let x = a.last();
        assert(b.to_multiset().count(x) > 0);
        let j = choose|j: int| 0 <= j < b.len() && b[j] == x;
        lemma_flat_map_remove(b, f, j);
        lemma_flat_map_remove(a, f, a.len() - 1);
        lemma_flat_map_permutation(a.remove(a.len() - 1), b.remove(j), f);
    }
}

/// Two lists whose values strictly increase and that hold the same values
/// are the same list.
pub proof fn lemma_sorted_set_unique<const N: usize>(a: Seq<FixedBytes<N>>, b: Seq<FixedBytes<N>>)
    requires
        strictly_sorted_by_key(a),
        strictly_sorted_by_key(b),
        a.to_set() == b.to_set(),
    ensures
        a == b,
{
    assert(a.no_duplicates()) by {
        assert forall|i: int, j: int| 0 <= i < a.len() && 0 <= j < a.len() && i != j implies a[i] != a[j] by {
            FixedBytes::<N>::lemma_order(&a[i], &a[j], &a[i]);
        }
    }
    assert(b.no_duplicates()) by {
        assert forall|i: int, j: int| 0 <= i < b.len() && 0 <= j < b.len() && i != j implies b[i] != b[j] by {
            FixedBytes::<N>::lemma_order(&b[i], &b[j], &b[i]);
        }
    }
    assert forall|x: FixedBytes<N>| a.contains(x) <==> b.contains(x) by {
        assert(a.to_set().contains(x) == a.contains(x));
    }
    lemma_same_values_once(a, b);
    lemma_strictly_sorted_is_sorted(b);
    lemma_sorted_unique(a, b);
}

} // verus!
