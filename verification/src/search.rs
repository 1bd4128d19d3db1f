//! Elements of a sequence with a given property.

use vstd::prelude::*;

verus! {

/// The first element of `s` with property `p`.
pub open spec fn find_first<T>(s: Seq<T>, p: spec_fn(T) -> bool) -> Option<T>
    decreases s.len(),
{
    if s.len() == 0 {
        None
    } else if p(s[0]) {
        Some(s[0])
    } else {
        find_first(s.skip(1), p)
    }
}

/// An element with the property, behind elements without it, is the first one.
pub proof fn lemma_find_first_at<T>(s: Seq<T>, p: spec_fn(T) -> bool, i: int)
    requires
        0 <= i < s.len(),
        p(s[i]),
        forall|j: int| 0 <= j < i ==> !p(#[trigger] s[j]),
    ensures
        find_first(s, p) == Some(s[i]),
    decreases s.len(),
{
    if i > 0 {
        assert(!p(s[0]));
        let rest = s.skip(1);
        assert(rest[i - 1] == s[i]);
        assert forall|j: int| 0 <= j < i - 1 implies !p(#[trigger] rest[j]) by {
            assert(rest[j] == s[j + 1]);
        }
        lemma_find_first_at(rest, p, i - 1);
    }
}

/// Nothing is found where no element has the property.
pub proof fn lemma_find_first_none<T>(s: Seq<T>, p: spec_fn(T) -> bool)
    requires
        forall|j: int| 0 <= j < s.len() ==> !p(#[trigger] s[j]),
    ensures
        find_first(s, p) is None,
    decreases s.len(),
{
    if s.len() > 0 {
        assert(!p(s[0]));
        let rest = s.skip(1);
        assert forall|j: int| 0 <= j < rest.len() implies !p(#[trigger] rest[j]) by {
            assert(rest[j] == s[j + 1]);
        }
        lemma_find_first_none(rest, p);
    }
}

/// What is found stands in the sequence, has the property and nothing before it has.
pub proof fn lemma_find_first_found<T>(s: Seq<T>, p: spec_fn(T) -> bool) -> (i: int)
    requires
        find_first(s, p) is Some,
    ensures
        0 <= i < s.len(),
        find_first(s, p) == Some(s[i]),
        p(s[i]),
        forall|j: int| 0 <= j < i ==> !p(#[trigger] s[j]),
    decreases s.len(),
{
    if p(s[0]) {
        0
    } else {
        let rest = s.skip(1);
        let k = lemma_find_first_found(rest, p);
        assert forall|j: int| 0 <= j < k + 1 implies !p(#[trigger] s[j]) by {
            if j > 0 {
                assert(rest[j - 1] == s[j]);
            }
        }
        k + 1
    }
}

/// What is found in any order of the elements stands among them.
pub proof fn lemma_find_first_in_any_order<T>(s: Seq<T>, t: Seq<T>, p: spec_fn(T) -> bool)
    requires
        s.to_multiset() == t.to_multiset(),
    ensures
        find_first(s, p) is Some <==> find_first(t, p) is Some,
        find_first(t, p) matches Some(found) ==> s.contains(found) && p(found),
{
    broadcast use vstd::seq_lib::to_multiset_contains;

    if find_first(t, p) is Some {
        let j = lemma_find_first_found(t, p);
        assert(t.contains(t[j]));
        assert(s.to_multiset().count(t[j]) > 0);
        if find_first(s, p) is None {
            let i = s.index_of(t[j]);
            lemma_nothing_found(s, p, i);
        }
    } else if find_first(s, p) is Some {
        let i = lemma_find_first_found(s, p);
        assert(s.contains(s[i]));
        assert(t.to_multiset().count(s[i]) > 0);
        lemma_nothing_found(t, p, t.index_of(s[i]));
    }
}

/// Where nothing is found, no element has the property.
pub proof fn lemma_nothing_found<T>(s: Seq<T>, p: spec_fn(T) -> bool, i: int)
    requires
        find_first(s, p) is None,
        0 <= i < s.len(),
    ensures
        !p(s[i]),
    decreases s.len(),
{
    if i > 0 {
        lemma_nothing_found(s.skip(1), p, i - 1);
    }
}

/// Where at most one element has the property, the order does not matter.
pub proof fn lemma_find_only<T>(s: Seq<T>, t: Seq<T>, p: spec_fn(T) -> bool)
    requires
        s.to_multiset() == t.to_multiset(),
        forall|i: int, j: int|
            0 <= i < j < s.len() ==> !(p(#[trigger] s[i]) && p(#[trigger] s[j])),
    ensures
        find_first(s, p) == find_first(t, p),
{
    lemma_find_first_in_any_order(s, t, p);
    if find_first(t, p) is Some {
        let found = find_first(t, p)->0;
        let i = lemma_find_first_found(s, p);
        let j = s.index_of(found);
        assert(p(s[i]) && p(s[j]));
        assert(i == j);
    }
}

/// The last element of `s` with property `p`.
pub open spec fn find_last<T>(s: Seq<T>, p: spec_fn(T) -> bool) -> Option<T>
    decreases s.len(),
{
    if s.len() == 0 {
        None
    } else if p(s.last()) {
        Some(s.last())
    } else {
        find_last(s.drop_last(), p)
    }
}

/// How many elements at the beginning of `s` have property `p`.
pub open spec fn count_leading<T>(s: Seq<T>, p: spec_fn(T) -> bool) -> nat
    decreases s.len(),
{
    if s.len() == 0 || !p(s[0]) {
        0
    } else {
        1 + count_leading(s.skip(1), p)
    }
}

/// The leading elements with the property end where it fails, or at the end.
pub proof fn lemma_count_leading<T>(s: Seq<T>, p: spec_fn(T) -> bool, n: int)
    requires
        0 <= n <= s.len(),
        forall|j: int| 0 <= j < n ==> p(#[trigger] s[j]),
        n < s.len() ==> !p(s[n]),
    ensures
        count_leading(s, p) == n,
    decreases s.len(),
{
    if n > 0 {
        assert(p(s[0]));
        let rest = s.skip(1);
        assert forall|j: int| 0 <= j < n - 1 implies p(#[trigger] rest[j]) by {
            assert(rest[j] == s[j + 1]);
        }
        if n < s.len() {
            assert(rest[n - 1] == s[n]);
        }
        lemma_count_leading(rest, p, n - 1);
    }
}

/// The leading elements have the property.
pub proof fn lemma_leading_have_property<T>(s: Seq<T>, p: spec_fn(T) -> bool, i: int)
    requires
        0 <= i < count_leading(s, p),
    ensures
        count_leading(s, p) <= s.len(),
        p(s[i]),
    decreases s.len(),
{
    if i > 0 {
        lemma_leading_have_property(s.skip(1), p, i - 1);
    } else if count_leading(s, p) > 1 {
        lemma_leading_have_property(s.skip(1), p, 0);
    }
}

/// One more element in front of the end either joins what a filter keeps or does not.
pub proof fn lemma_filter_step<T>(s: Seq<T>, p: spec_fn(T) -> bool, i: int)
    requires
        0 <= i < s.len(),
    ensures
        s.take(i + 1).filter(p) == if p(s[i]) {
            s.take(i).filter(p).push(s[i])
        } else {
            s.take(i).filter(p)
        },
{
    reveal(Seq::filter);
    assert(s.take(i + 1).drop_last() =~= s.take(i));
    assert(s.take(i + 1).last() == s[i]);
}

/// A filter keeps nothing of nothing.
pub proof fn lemma_filter_start<T>(s: Seq<T>, p: spec_fn(T) -> bool)
    ensures
        s.take(0).filter(p) == Seq::<T>::empty(),
{
    reveal(Seq::filter);
    assert(s.take(0) =~= Seq::<T>::empty());
}

/// Where exactly the elements from `lo` up to `hi` have a property, a filter keeps
/// those and no others.
pub proof fn lemma_filter_is_a_run<T>(s: Seq<T>, p: spec_fn(T) -> bool, lo: int, hi: int)
    requires
        0 <= lo <= hi <= s.len(),
        forall|i: int| 0 <= i < s.len() ==> (p(#[trigger] s[i]) <==> lo <= i < hi),
    ensures
        s.filter(p) == s.subrange(lo, hi),
    decreases s.len(),
{
    reveal(Seq::filter);
    if s.len() > 0 {
        let head = s.drop_last();
        assert forall|i: int| 0 <= i < head.len() implies (p(#[trigger] head[i]) <==> lo <= i
            < hi) by {
            assert(head[i] == s[i]);
        }
        if hi == s.len() && lo < hi {
            lemma_filter_is_a_run(head, p, lo, hi - 1);
            assert(p(s[s.len() - 1]));
            assert(head.subrange(lo, hi - 1).push(s.last()) =~= s.subrange(lo, hi));
        } else if hi == s.len() {
            assert forall|i: int| 0 <= i < head.len() implies (p(#[trigger] head[i]) <==> lo - 1
                <= i < lo - 1) by {
                assert(!p(s[i]));
            }
            lemma_filter_is_a_run(head, p, lo - 1, lo - 1);
            assert(!p(s[s.len() - 1]));
            assert(s.subrange(lo, hi) =~= head.subrange(lo - 1, lo - 1));
        } else {
            lemma_filter_is_a_run(head, p, lo, hi);
            assert(!p(s[s.len() - 1]));
            assert(s.subrange(lo, hi) =~= head.subrange(lo, hi));
        }
    } else {
        assert(s.subrange(lo, hi) =~= Seq::empty());
    }
}

/// An element with the property, before elements without it, is the last one.
pub proof fn lemma_find_last_at<T>(s: Seq<T>, p: spec_fn(T) -> bool, i: int)
    requires
        0 <= i < s.len(),
        p(s[i]),
        forall|j: int| i < j < s.len() ==> !p(#[trigger] s[j]),
    ensures
        find_last(s, p) == Some(s[i]),
    decreases s.len(),
{
    if i < s.len() - 1 {
        assert(!p(s[s.len() - 1]));
        let head = s.drop_last();
        assert forall|j: int| i < j < head.len() implies !p(#[trigger] head[j]) by {
            assert(head[j] == s[j]);
        }
        lemma_find_last_at(head, p, i);
    }
}

/// Nothing is found last where no element has the property.
pub proof fn lemma_find_last_none<T>(s: Seq<T>, p: spec_fn(T) -> bool)
    requires
        forall|j: int| 0 <= j < s.len() ==> !p(#[trigger] s[j]),
    ensures
        find_last(s, p) is None,
    decreases s.len(),
{
    if s.len() > 0 {
        assert(!p(s[s.len() - 1]));
        let head = s.drop_last();
        assert forall|j: int| 0 <= j < head.len() implies !p(#[trigger] head[j]) by {
            assert(head[j] == s[j]);
        }
        lemma_find_last_none(head, p);
    }
}

/// What a filter keeps last is the last element with the property.
pub proof fn lemma_filter_last<T>(s: Seq<T>, p: spec_fn(T) -> bool, w: int)
    requires
        0 <= w < s.len(),
        p(s[w]),
        forall|j: int| w < j < s.len() ==> !p(#[trigger] s[j]),
    ensures
        s.filter(p).len() > 0,
        s.filter(p).last() == s[w],
    decreases s.len(),
{
    reveal(Seq::filter);
    if w < s.len() - 1 {
        assert(!p(s[s.len() - 1]));
        let head = s.drop_last();
        assert forall|j: int| w < j < head.len() implies !p(#[trigger] head[j]) by {
            assert(head[j] == s[j]);
        }
        lemma_filter_last(head, p, w);
    }
}

/// A filter keeps nothing where no element has the property.
pub proof fn lemma_filter_nothing<T>(s: Seq<T>, p: spec_fn(T) -> bool)
    requires
        forall|j: int| 0 <= j < s.len() ==> !p(#[trigger] s[j]),
    ensures
        s.filter(p).len() == 0,
    decreases s.len(),
{
    reveal(Seq::filter);
    if s.len() > 0 {
        assert(!p(s[s.len() - 1]));
        let head = s.drop_last();
        assert forall|j: int| 0 <= j < head.len() implies !p(#[trigger] head[j]) by {
            assert(head[j] == s[j]);
        }
        lemma_filter_nothing(head, p);
    }
}

} // verus!
