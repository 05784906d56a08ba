//! Facts about sequences that the hosts' contracts and proofs share.

use vstd::prelude::*;

verus! {

/// The index of the first element of `s` that meets `p`, or the length of `s`
/// if no element does.
pub open spec fn first_index<T>(s: Seq<T>, p: spec_fn(T) -> bool) -> int
    decreases s.len(),
{
    if s.len() == 0 {
        0
    } else if p(s[0]) {
        0
    } else {
        1 + first_index(s.drop_first(), p)
    }
}

/// `first_index` is within bounds, points at an element that meets `p` if it
/// points at one at all, and passes over no such element.
pub proof fn lemma_first_index<T>(s: Seq<T>, p: spec_fn(T) -> bool)
    ensures
        0 <= first_index(s, p) <= s.len(),
        first_index(s, p) < s.len() ==> p(s[first_index(s, p)]),
        forall|j: int| 0 <= j < first_index(s, p) ==> !p(#[trigger] s[j]),
    decreases s.len(),
{
    if s.len() > 0 && !p(s[0]) {
        let t = s.drop_first();
        lemma_first_index(t, p);
        assert forall|j: int| 0 <= j < first_index(s, p) implies !p(#[trigger] s[j]) by {
            if j > 0 {
                assert(s[j] == t[j - 1]);
            }
        }
    }
}

/// An index that no earlier element meeting `p` precedes, and that is either
/// the length of `s` or the place of an element meeting `p`, is `first_index`.
pub proof fn lemma_first_index_is<T>(s: Seq<T>, p: spec_fn(T) -> bool, i: int)
    requires
        0 <= i <= s.len(),
        forall|j: int| 0 <= j < i ==> !p(#[trigger] s[j]),
        i < s.len() ==> p(s[i]),
    ensures
        first_index(s, p) == i,
    decreases i,
{
    if i > 0 {
        let t = s.drop_first();
        assert forall|j: int| 0 <= j < i - 1 implies !p(#[trigger] t[j]) by {
            assert(t[j] == s[j + 1]);
        }
        lemma_first_index_is(t, p, i - 1);
    }
}

/// Whether `a` can be had from `b` by leaving elements out, the others
/// keeping their order.
pub open spec fn is_subsequence<T>(a: Seq<T>, b: Seq<T>) -> bool
    decreases b.len(),
{
    if a.len() == 0 {
        true
    } else if b.len() == 0 {
        false
    } else {
        (a.last() == b.last() && is_subsequence(a.drop_last(), b.drop_last())) || is_subsequence(
            a,
            b.drop_last(),
        )
    }
}

/// Adding an element to the sequence keeps a subsequence one.
pub proof fn lemma_subsequence_skip<T>(a: Seq<T>, b: Seq<T>, x: T)
    requires
        is_subsequence(a, b),
    ensures
        is_subsequence(a, b.push(x)),
{
    assert(b.push(x).drop_last() == b);
}

/// Adding the same element to both keeps a subsequence one.
pub proof fn lemma_subsequence_take<T>(a: Seq<T>, b: Seq<T>, x: T)
    requires
        is_subsequence(a, b),
    ensures
        is_subsequence(a.push(x), b.push(x)),
{
    assert(b.push(x).drop_last() == b);
    assert(a.push(x).drop_last() == a);
}

/// Filtering the part of `s` from `i - 1` on keeps or drops `s[i - 1]` and
/// then goes on as filtering the part from `i` on does.
pub proof fn lemma_filter_from<T>(s: Seq<T>, p: spec_fn(T) -> bool, i: int)
    requires
        0 < i <= s.len(),
    ensures
        s.subrange(i - 1, s.len() as int).filter(p) == (if p(s[i - 1]) {
            seq![s[i - 1]]
        } else {
            Seq::empty()
        }) + s.subrange(i, s.len() as int).filter(p),
{
    let tail = s.subrange(i, s.len() as int);
    assert(s.subrange(i - 1, s.len() as int) == seq![s[i - 1]] + tail);
    tail.lemma_filter_prepend(s[i - 1], p);
}

/// A filter that every element passes leaves the sequence as it is.
pub proof fn lemma_filter_all<T>(s: Seq<T>, p: spec_fn(T) -> bool)
    requires
        forall|i: int| 0 <= i < s.len() ==> p(#[trigger] s[i]),
    ensures
        s.filter(p) == s,
    decreases s.len(),
{
    reveal(Seq::filter);
    if s.len() > 0 {
        let init = s.drop_last();
        assert forall|i: int| 0 <= i < init.len() implies p(#[trigger] init[i]) by {
            assert(init[i] == s[i]);
        }
        lemma_filter_all(init, p);
        assert(s == init.push(s.last()));
    }
}

/// Every element that a filter keeps meets the predicate and is an element
/// of the filtered sequence.
pub proof fn lemma_filter_members<T>(s: Seq<T>, p: spec_fn(T) -> bool)
    ensures
        forall|k: int| 0 <= k < s.filter(p).len() ==> p(#[trigger] s.filter(p)[k]),
        forall|k: int| 0 <= k < s.filter(p).len() ==> s.contains(#[trigger] s.filter(p)[k]),
{
    let f = s.filter(p);
    assert forall|k: int| 0 <= k < f.len() implies p(#[trigger] f[k]) && s.contains(f[k]) by {
        s.lemma_filter_pred(p, k);
        s.lemma_filter_contains_rev(p, f[k]);
    }
}

/// Whether the elements of `s` differ pairwise in what `key` gives for them.
pub open spec fn distinct_by<T, K>(s: Seq<T>, key: spec_fn(T) -> K) -> bool {
    forall|i: int, j: int| 0 <= i < j < s.len() ==> key(#[trigger] s[i]) != key(#[trigger] s[j])
}

/// Filtering keeps elements apart that were apart.
pub proof fn lemma_filter_distinct<T, K>(s: Seq<T>, p: spec_fn(T) -> bool, key: spec_fn(T) -> K)
    requires
        distinct_by(s, key),
    ensures
        distinct_by(s.filter(p), key),
    decreases s.len(),
{
    reveal(Seq::filter);
    if s.len() > 0 {
        let init = s.drop_last();
        let kept = init.filter(p);
        assert(distinct_by(init, key)) by {
            assert forall|i: int, j: int| 0 <= i < j < init.len() implies key(#[trigger] init[i])
                != key(#[trigger] init[j]) by {
                assert(init[i] == s[i] && init[j] == s[j]);
            }
        }
        lemma_filter_distinct(init, p, key);
        if p(s.last()) {
            lemma_filter_members(init, p);
            let f = s.filter(p);
            assert forall|i: int, j: int| 0 <= i < j < f.len() implies key(#[trigger] f[i]) != key(
                #[trigger] f[j],
            ) by {
                if j == kept.len() {
                    let m = choose|m: int| 0 <= m < init.len() && init[m] == kept[i];
                    assert(s[m] == kept[i] && f[j] == s.last());
                }
            }
        }
    }
}

} // verus!
