//! The first element of a sequence that satisfies a predicate.

use vstd::prelude::*;

verus! {

/// `i` is the least index of `s` whose element satisfies `p`.
pub open spec fn is_first<T>(s: Seq<T>, p: spec_fn(T) -> bool, i: int) -> bool {
    &&& 0 <= i < s.len()
    &&& p(s[i])
    &&& forall|j: int| 0 <= j < i ==> !p(#[trigger] s[j])
}

/// The least index of `s` whose element satisfies `p`, if there is one.
pub open spec fn first_index<T>(s: Seq<T>, p: spec_fn(T) -> bool) -> Option<int> {
    if exists|i: int| is_first(s, p, i) {
        Some(choose|i: int| is_first(s, p, i))
    } else {
        None
    }
}

/// The first element of `s` that satisfies `p`, if there is one.
pub open spec fn first_match<T>(s: Seq<T>, p: spec_fn(T) -> bool) -> Option<T> {
    match first_index(s, p) {
        Some(i) => Some(s[i]),
        None => None,
    }
}

/// An index that is the least one is the one that `first_index` gives.
pub proof fn lemma_first_index_found<T>(s: Seq<T>, p: spec_fn(T) -> bool, i: int)
    requires
        is_first(s, p, i),
    ensures
        first_index(s, p) == Some(i),
{
    let k = choose|k: int| is_first(s, p, k);
    assert(!(k < i) && !(i < k));
}

/// Where no element satisfies `p`, `first_index` gives nothing, and the
/// other way round.
pub proof fn lemma_first_index_none<T>(s: Seq<T>, p: spec_fn(T) -> bool)
    ensures
        first_index(s, p) is None <==> forall|j: int| 0 <= j < s.len() ==> !p(#[trigger] s[j]),
{
    if exists|j: int| 0 <= j < s.len() && p(#[trigger] s[j]) {
        let j = choose|j: int| 0 <= j < s.len() && p(#[trigger] s[j]);
        lemma_least_exists(s, p, j);
    }
}

/// Below any index whose element satisfies `p` lies a least one.
proof fn lemma_least_exists<T>(s: Seq<T>, p: spec_fn(T) -> bool, j: int)
    requires
        0 <= j < s.len(),
        p(s[j]),
    ensures
        exists|i: int| is_first(s, p, i),
    decreases j,
{
    if exists|k: int| 0 <= k < j && p(#[trigger] s[k]) {
        let k = choose|k: int| 0 <= k < j && p(#[trigger] s[k]);
        lemma_least_exists(s, p, k);
    } else {
        assert(is_first(s, p, j));
    }
}

/// The first match of a concatenation lies in its left part if that has
/// one, and else is the first match of its right part.
pub proof fn lemma_first_index_concat<T>(a: Seq<T>, b: Seq<T>, p: spec_fn(T) -> bool)
    ensures
        first_index(a + b, p) == match first_index(a, p) {
            Some(i) => Some(i),
            None => match first_index(b, p) {
                Some(j) => Some(a.len() + j),
                None => None,
            },
        },
        first_match(a + b, p) == match first_match(a, p) {
            Some(x) => Some(x),
            None => first_match(b, p),
        },
{
    let ab = a + b;
    lemma_first_index_none(a, p);
    lemma_first_index_none(b, p);
    lemma_first_index_none(ab, p);
    match first_index(a, p) {
        Some(i) => {
            assert(is_first(ab, p, i));
            lemma_first_index_found(ab, p, i);
        },
        None => {
            match first_index(b, p) {
                Some(j) => {
                    assert(is_first(ab, p, a.len() + j));
                    lemma_first_index_found(ab, p, a.len() + j);
                },
                None => {},
            }
        },
    }
}

/// A sequence of one element keeps that element under a filter if the
/// element satisfies the predicate, and is empty otherwise.
pub proof fn lemma_filter_single<T>(x: T, p: spec_fn(T) -> bool)
    ensures
        seq![x].filter(p) == if p(x) {
            seq![x]
        } else {
            Seq::<T>::empty()
        },
{
    reveal_with_fuel(Seq::filter, 2);
}

} // verus!
