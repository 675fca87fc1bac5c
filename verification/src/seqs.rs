//! Small facts about sequences used by the searches in every module.

use vstd::prelude::*;

verus! {

/// The first position in `s` whose element satisfies `p`, or `-1`.
pub open spec fn first_index<T>(s: Seq<T>, p: spec_fn(T) -> bool) -> int
    decreases s.len(),
{
    if s.len() == 0 {
        -1
    } else if p(s[0]) {
        0
    } else {
        let r = first_index(s.drop_first(), p);
        if r < 0 {
            -1
        } else {
            r + 1
        }
    }
}

/// `first_index` is the least satisfying position, or `-1` when none
/// satisfies the predicate.
pub proof fn lemma_first_index<T>(s: Seq<T>, p: spec_fn(T) -> bool)
    ensures
        -1 <= first_index(s, p) < s.len(),
        first_index(s, p) == -1 <==> (forall|j: int| 0 <= j < s.len() ==> !p(#[trigger] s[j])),
        first_index(s, p) >= 0 ==> p(s[first_index(s, p)]),
        forall|j: int| 0 <= j < first_index(s, p) ==> !p(#[trigger] s[j]),
    decreases s.len(),
{
    if s.len() > 0 {
        lemma_first_index(s.drop_first(), p);
        if !p(s[0]) {
            let r = first_index(s.drop_first(), p);
            assert forall|j: int| 0 <= j < first_index(s, p) implies !p(#[trigger] s[j]) by {
                if j > 0 {
                    assert(s[j] == s.drop_first()[j - 1]);
                }
            }
            if r == -1 {
                assert forall|j: int| 0 <= j < s.len() implies !p(#[trigger] s[j]) by {
                    if j > 0 {
                        assert(s[j] == s.drop_first()[j - 1]);
                    }
                }
            } else {
                assert(s[r + 1] == s.drop_first()[r]);
            }
        }
    }
}

/// A position found by a left-to-right scan is the first index.
pub proof fn lemma_first_index_at<T>(s: Seq<T>, p: spec_fn(T) -> bool, i: int)
    requires
        0 <= i < s.len(),
        p(s[i]),
        forall|j: int| 0 <= j < i ==> !p(#[trigger] s[j]),
    ensures
        first_index(s, p) == i,
{
    lemma_first_index(s, p);
}

/// A scan that found nothing proves the first index is `-1`.
pub proof fn lemma_first_index_none<T>(s: Seq<T>, p: spec_fn(T) -> bool)
    requires
        forall|j: int| 0 <= j < s.len() ==> !p(#[trigger] s[j]),
    ensures
        first_index(s, p) == -1,
{
    lemma_first_index(s, p);
}

/// The element sorts strictly after `x` under `le`.
pub open spec fn sorts_after<T>(le: spec_fn(T, T) -> bool, x: T) -> spec_fn(T) -> bool {
    |y: T| !le(y, x)
}

/// Insert `x` into `sorted` after every element that does not sort
/// after it (the step of a stable insertion sort).
pub open spec fn insert_sorted<T>(sorted: Seq<T>, x: T, le: spec_fn(T, T) -> bool) -> Seq<T> {
    let i = first_index(sorted, sorts_after(le, x));
    if i < 0 {
        sorted.push(x)
    } else {
        sorted.insert(i, x)
    }
}

/// The stable sort of `s` under the total preorder `le`, as
/// `slice::sort_by` computes it.
pub open spec fn sort_by<T>(s: Seq<T>, le: spec_fn(T, T) -> bool) -> Seq<T>
    decreases s.len(),
{
    if s.len() == 0 {
        s
    } else {
        insert_sorted(sort_by(s.drop_last(), le), s.last(), le)
    }
}

/// The step of a stable insertion sort: the first prefix position whose
/// element sorts after `x` (or the end) is where `x` goes.
pub proof fn lemma_insert_position<T>(sorted: Seq<T>, x: T, le: spec_fn(T, T) -> bool, j: int)
    requires
        0 <= j <= sorted.len(),
        forall|k: int| 0 <= k < j ==> le(#[trigger] sorted[k], x),
        j < sorted.len() ==> !le(sorted[j], x),
    ensures
        insert_sorted(sorted, x, le) == (if j < sorted.len() {
            sorted.insert(j, x)
        } else {
            sorted.push(x)
        }),
{
    lemma_first_index(sorted, sorts_after(le, x));
    let q = first_index(sorted, sorts_after(le, x));
    if j < sorted.len() {
        assert(sorts_after(le, x)(sorted[j]));
        if 0 <= q < j {
            assert(le(sorted[q], x));
        }
    } else {
        assert forall|k: int| 0 <= k < sorted.len() implies !sorts_after(le, x)(#[trigger] sorted[k]) by {
            assert(le(sorted[k], x));
        }
    }
}

/// No two elements of `s` share a key.
pub open spec fn keys_distinct<T, K>(s: Seq<T>, key: spec_fn(T) -> K) -> bool {
    forall|i: int, j: int| 0 <= i < j < s.len() ==> key(s[i]) != key(s[j])
}

/// `s` is ordered by `le`.
pub open spec fn sorted_by<T>(s: Seq<T>, le: spec_fn(T, T) -> bool) -> bool {
    forall|i: int, j: int| 0 <= i < j < s.len() ==> le(s[i], s[j])
}

/// `le` is a total preorder.
pub open spec fn total_preorder<T>(le: spec_fn(T, T) -> bool) -> bool {
    &&& forall|a: T, b: T| #[trigger] le(a, b) || le(b, a)
    &&& forall|a: T, b: T, c: T| #[trigger] le(a, b) && #[trigger] le(b, c) ==> le(a, c)
}

/// One insertion step keeps every element, adds `x`, keeps keys distinct
/// when `x`'s key is new, and keeps the order under a total preorder.
pub proof fn lemma_insert_sorted_keeps<T, K>(sorted: Seq<T>, x: T, le: spec_fn(T, T) -> bool, key: spec_fn(T) -> K)
    ensures
        insert_sorted(sorted, x, le).len() == sorted.len() + 1,
        forall|y: T| #[trigger] insert_sorted(sorted, x, le).contains(y) <==> (sorted.contains(y) || y == x),
        keys_distinct(sorted, key) && (forall|k: int| 0 <= k < sorted.len() ==> key(#[trigger] sorted[k]) != key(x))
            ==> keys_distinct(insert_sorted(sorted, x, le), key),
        total_preorder(le) && sorted_by(sorted, le) ==> sorted_by(insert_sorted(sorted, x, le), le),
{
    lemma_first_index(sorted, sorts_after(le, x));
    let q = first_index(sorted, sorts_after(le, x));
    let r = insert_sorted(sorted, x, le);
    let p = if q < 0 { sorted.len() as int } else { q };
    assert(r.len() == sorted.len() + 1);
    assert forall|k: int| 0 <= k < r.len() implies #[trigger] r[k] == (if k < p { sorted[k] } else if k == p { x } else { sorted[k - 1] }) by {
    }
    assert forall|y: T| #[trigger] r.contains(y) <==> (sorted.contains(y) || y == x) by {
        if r.contains(y) {
            let k = choose|k: int| 0 <= k < r.len() && r[k] == y;
            if k < p {
                assert(sorted[k] == y);
            } else if k > p {
                assert(sorted[k - 1] == y);
            }
        }
        if sorted.contains(y) {
            let k = choose|k: int| 0 <= k < sorted.len() && sorted[k] == y;
            if k < p {
                assert(r[k] == y);
            } else {
                assert(r[k + 1] == y);
            }
        }
        if y == x {
            assert(r[p] == y);
        }
    }
    if keys_distinct(sorted, key) && (forall|k: int| 0 <= k < sorted.len() ==> key(#[trigger] sorted[k]) != key(x)) {
        assert forall|a: int, b: int| 0 <= a < b < r.len() implies key(r[a]) != key(r[b]) by {
            if a < p && b < p {
            } else if a < p && b == p {
                assert(key(sorted[a]) != key(x));
            } else if a < p {
                assert(key(sorted[a]) != key(sorted[b - 1]));
            } else if a == p {
                assert(key(sorted[b - 1]) != key(x));
            } else {
                assert(key(sorted[a - 1]) != key(sorted[b - 1]));
            }
        }
    }
    if total_preorder(le) && sorted_by(sorted, le) {
        assert forall|k: int| 0 <= k < p implies le(#[trigger] sorted[k], x) by {
            assert(!sorts_after(le, x)(sorted[k]));
        }
        assert forall|k: int| p <= k < sorted.len() implies le(x, #[trigger] sorted[k]) by {
            assert(sorts_after(le, x)(sorted[p]));
            assert(le(sorted[p], x) || le(x, sorted[p]));
            if k > p {
                assert(le(sorted[p], sorted[k]));
            }
        }
        assert forall|a: int, b: int| 0 <= a < b < r.len() implies le(r[a], r[b]) by {
            if a < p && b < p {
            } else if a < p && b == p {
                assert(le(sorted[a], x));
            } else if a < p {
                assert(le(sorted[a], sorted[b - 1]));
            } else if a == p {
                assert(le(x, sorted[b - 1]));
            } else {
                assert(le(sorted[a - 1], sorted[b - 1]));
            }
        }
    }
}

/// Sorting keeps every element and the length, keeps keys distinct, and
/// orders the result under a total preorder.
pub proof fn lemma_sort_by_keeps<T, K>(s: Seq<T>, le: spec_fn(T, T) -> bool, key: spec_fn(T) -> K)
    ensures
        sort_by(s, le).len() == s.len(),
        forall|y: T| #[trigger] sort_by(s, le).contains(y) <==> s.contains(y),
        keys_distinct(s, key) ==> keys_distinct(sort_by(s, le), key),
        total_preorder(le) ==> sorted_by(sort_by(s, le), le),
    decreases s.len(),
{
    if s.len() > 0 {
        let d = s.drop_last();
        let x = s.last();
        lemma_sort_by_keeps(d, le, key);
        let sd = sort_by(d, le);
        lemma_insert_sorted_keeps(sd, x, le, key);
        assert forall|y: T| #[trigger] sort_by(s, le).contains(y) <==> s.contains(y) by {
            if d.contains(y) {
                let k = choose|k: int| 0 <= k < d.len() && d[k] == y;
                assert(s[k] == y);
            }
            if s.contains(y) {
                let k = choose|k: int| 0 <= k < s.len() && s[k] == y;
                if k < d.len() {
                    assert(d[k] == y);
                }
            }
            assert(s[s.len() - 1] == x);
        }
        if keys_distinct(s, key) {
            assert forall|a: int, b: int| 0 <= a < b < d.len() implies key(d[a]) != key(d[b]) by {
                assert(d[a] == s[a] && d[b] == s[b]);
            }
            assert forall|k: int| 0 <= k < sd.len() implies key(#[trigger] sd[k]) != key(x) by {
                assert(sd.contains(sd[k]));
                let j = choose|j: int| 0 <= j < d.len() && d[j] == sd[k];
                assert(s[j] == sd[k]);
                assert(s[s.len() - 1] == x);
            }
        }
    }
}

/// The entry's key is not `id`.
pub open spec fn key_is_not<T>(id: u64) -> spec_fn((u64, T)) -> bool {
    |e: (u64, T)| e.0 != id
}

/// Remove every entry keyed `id`, keeping the order of the rest.
pub fn remove_key<T>(v: &mut Vec<(u64, T)>, id: u64)
    ensures
        final(v)@ == old(v)@.filter(key_is_not::<T>(id)),
{
    let ghost orig = v@;
    let mut rest: Vec<(u64, T)> = Vec::new();
    std::mem::swap(&mut rest, v);
    let n = rest.len();
    reveal(Seq::filter);
    assert(orig.subrange(0, 0) =~= Seq::<(u64, T)>::empty());
    assert(rest@.subrange(0, n as int) =~= orig);
    while rest.len() > 0
        invariant
            n == orig.len(),
            rest@.len() <= n,
            rest@ == orig.subrange(n - rest@.len(), n as int),
            v@ == orig.subrange(0, n - rest@.len()).filter(key_is_not::<T>(id)),
        decreases rest@.len(),
    {
        reveal(Seq::filter);
        let ghost k = n - rest@.len();
        let e = rest.remove(0);
        assert(rest@ =~= orig.subrange(k + 1, n as int));
        assert(orig.subrange(0, k + 1).drop_last() =~= orig.subrange(0, k));
        assert(orig.subrange(0, k + 1).last() == e);
        if e.0 != id {
            v.push(e);
        }
    }
    assert(orig.subrange(0, n as int) =~= orig);
}

} // verus!
