//! Median of a list of integer samples: the element at index `len / 2`
//! of the ascending arrangement of the samples.
use vstd::prelude::*;
use vstd::relations::{sorted_by, total_ordering};

verus! {

broadcast use vstd::seq_lib::group_to_multiset_ensures;

/// The ascending order on `i64`.
pub open spec fn le_i64() -> spec_fn(i64, i64) -> bool {
    |a: i64, b: i64| a <= b
}

/// The ascending order on `u64`.
pub open spec fn le_u64() -> spec_fn(u64, u64) -> bool {
    |a: u64, b: u64| a <= b
}

/// Median of signed samples: 0 for no samples, otherwise the element at
/// index `len / 2` of the samples sorted ascending.
pub open spec fn median_of_i64(vals: Seq<i64>) -> i64 {
    if vals.len() == 0 {
        0
    } else {
        vals.sort_by(le_i64())[vals.len() as int / 2]
    }
}

/// Median of unsigned samples, defined as for `median_of_i64`.
pub open spec fn median_of_u64(vals: Seq<u64>) -> u64 {
    if vals.len() == 0 {
        0
    } else {
        vals.sort_by(le_u64())[vals.len() as int / 2]
    }
}

proof fn lemma_le_i64_total()
    ensures
        total_ordering(le_i64()),
{
}

proof fn lemma_le_u64_total()
    ensures
        total_ordering(le_u64()),
{
}

/// Sorts `vals` ascending by insertion into a fresh vector.
fn sorted_copy_i64(vals: &Vec<i64>) -> (s: Vec<i64>)
    ensures
        s@.to_multiset() == vals@.to_multiset(),
        sorted_by(s@, le_i64()),
{
    let mut s: Vec<i64> = Vec::new();
    let n = vals.len();
    let mut i: usize = 0;
    while i < n
        invariant
            n == vals@.len(),
            i <= n,
            s@.to_multiset() == vals@.take(i as int).to_multiset(),
            sorted_by(s@, le_i64()),
        decreases n - i,
    {
        let x = vals[i];
        let mut p: usize = 0;
        while p < s.len() && s[p] <= x
            invariant
                p <= s@.len(),
                forall|k: int| 0 <= k < p ==> s@[k] <= x,
            decreases s@.len() - p,
        {
            p = p + 1;
        }
        let ghost old_s = s@;
        proof {
            vstd::seq_lib::to_multiset_insert(old_s, p as int, x);
            assert(vals@.take(i + 1) =~= vals@.take(i as int).push(x));
        }
        s.insert(p, x);
        assert(s@ =~= old_s.insert(p as int, x));
        assert forall|a: int, b: int| 0 <= a < b < s@.len() implies #[trigger] le_i64()(
            s@[a],
            s@[b],
        ) by {
            if b < p {
                assert(le_i64()(old_s[a], old_s[b]));
            } else if b == p {
                assert(s@[a] == old_s[a]);
            } else if a < p {
                assert(le_i64()(old_s[a], old_s[b - 1]));
            } else if a == p {
                if p < old_s.len() {
                    assert(le_i64()(old_s[p as int], old_s[b - 1]));
                }
            } else {
                assert(le_i64()(old_s[a - 1], old_s[b - 1]));
            }
        }
        i = i + 1;
    }
    assert(vals@.take(n as int) =~= vals@);
    s
}

/// Sorts `vals` ascending by insertion into a fresh vector.
fn sorted_copy_u64(vals: &Vec<u64>) -> (s: Vec<u64>)
    ensures
        s@.to_multiset() == vals@.to_multiset(),
        sorted_by(s@, le_u64()),
{
    let mut s: Vec<u64> = Vec::new();
    let n = vals.len();
    let mut i: usize = 0;
    while i < n
        invariant
            n == vals@.len(),
            i <= n,
            s@.to_multiset() == vals@.take(i as int).to_multiset(),
            sorted_by(s@, le_u64()),
        decreases n - i,
    {
        let x = vals[i];
        let mut p: usize = 0;
        while p < s.len() && s[p] <= x
            invariant
                p <= s@.len(),
                forall|k: int| 0 <= k < p ==> s@[k] <= x,
            decreases s@.len() - p,
        {
            p = p + 1;
        }
        let ghost old_s = s@;
        proof {
            vstd::seq_lib::to_multiset_insert(old_s, p as int, x);
            assert(vals@.take(i + 1) =~= vals@.take(i as int).push(x));
        }
        s.insert(p, x);
        assert(s@ =~= old_s.insert(p as int, x));
        assert forall|a: int, b: int| 0 <= a < b < s@.len() implies #[trigger] le_u64()(
            s@[a],
            s@[b],
        ) by {
            if b < p {
                assert(le_u64()(old_s[a], old_s[b]));
            } else if b == p {
                assert(s@[a] == old_s[a]);
            } else if a < p {
                assert(le_u64()(old_s[a], old_s[b - 1]));
            } else if a == p {
                if p < old_s.len() {
                    assert(le_u64()(old_s[p as int], old_s[b - 1]));
                }
            } else {
                assert(le_u64()(old_s[a - 1], old_s[b - 1]));
            }
        }
        i = i + 1;
    }
    assert(vals@.take(n as int) =~= vals@);
    s
}

/// Median of signed samples (0 when there are none).
pub fn median_i64(vals: &Vec<i64>) -> (m: i64)
    ensures
        m == median_of_i64(vals@),
{
    if vals.len() == 0 {
        return 0;
    }
    let s = sorted_copy_i64(vals);
    proof {
        lemma_le_i64_total();
        vals@.lemma_sort_by_ensures(le_i64());
        vstd::seq_lib::lemma_sorted_unique(s@, vals@.sort_by(le_i64()), le_i64());
        assert(s@.len() == s@.to_multiset().len());
        assert(vals@.len() == vals@.to_multiset().len());
        assert(s@ == vals@.sort_by(le_i64()));
    }
    s[s.len() / 2]
}

/// Median of unsigned samples (0 when there are none).
pub fn median_u64(vals: &Vec<u64>) -> (m: u64)
    ensures
        m == median_of_u64(vals@),
{
    if vals.len() == 0 {
        return 0;
    }
    let s = sorted_copy_u64(vals);
    proof {
        lemma_le_u64_total();
        vals@.lemma_sort_by_ensures(le_u64());
        vstd::seq_lib::lemma_sorted_unique(s@, vals@.sort_by(le_u64()), le_u64());
        assert(s@.len() == s@.to_multiset().len());
        assert(vals@.len() == vals@.to_multiset().len());
        assert(s@ == vals@.sort_by(le_u64()));
    }
    s[s.len() / 2]
}

/// A value held by more than half of `s` sits in the middle of `s`
/// sorted by a total order.
proof fn lemma_majority_in_middle<A>(s: Seq<A>, leq: spec_fn(A, A) -> bool, v: A)
    requires
        total_ordering(leq),
        2 * s.to_multiset().count(v) > s.len(),
    ensures
        s.sort_by(leq)[s.len() as int / 2] == v,
{
    broadcast use vstd::multiset::group_multiset_axioms;
    broadcast use vstd::seq_lib::lemma_multiset_commutative;

    s.lemma_sort_by_ensures(leq);
    let t = s.sort_by(leq);
    let n = s.len() as int;
    assert(t.len() == n) by {
        vstd::seq_lib::to_multiset_len(t);
        vstd::seq_lib::to_multiset_len(s);
    }
    assert(n > 0);
    let mid = n / 2;
    let w = t[mid];
    if w != v {
        if leq(w, v) {
            // Nothing up to the middle is `v`.
            let a = t.subrange(0, mid + 1);
            let b = t.subrange(mid + 1, n);
            assert(t =~= a + b);
            assert(!a.contains(v)) by {
                if a.contains(v) {
                    let i = choose|i: int| 0 <= i < a.len() && a[i] == v;
                    if i < mid {
                        assert(leq(t[i], t[mid]));
                    }
                    assert(leq(v, w));
                }
            }
            vstd::seq_lib::to_multiset_contains(a, v);
            vstd::seq_lib::to_multiset_len(b);
            assert(t.to_multiset().count(v) == a.to_multiset().count(v) + b.to_multiset().count(v));
            assert(b.to_multiset().count(v) <= b.len());
        } else {
            // Nothing from the middle on is `v`.
            assert(leq(v, w));
            let a = t.subrange(0, mid);
            let b = t.subrange(mid, n);
            assert(t =~= a + b);
            assert(!b.contains(v)) by {
                if b.contains(v) {
                    let i = choose|i: int| 0 <= i < b.len() && b[i] == v;
                    if i > 0 {
                        assert(leq(t[mid], t[mid + i]));
                    }
                    assert(leq(w, v));
                }
            }
            vstd::seq_lib::to_multiset_contains(b, v);
            vstd::seq_lib::to_multiset_len(a);
            assert(t.to_multiset().count(v) == a.to_multiset().count(v) + b.to_multiset().count(v));
            assert(a.to_multiset().count(v) <= a.len());
        }
    }
}

/// A median is robust to outliers: when more than half of the samples
/// are equal, the median is that value, whatever the other samples are.
pub proof fn law_median_majority_i64(vals: Seq<i64>, v: i64)
    requires
        2 * vals.to_multiset().count(v) > vals.len(),
    ensures
        median_of_i64(vals) == v,
{
    lemma_le_i64_total();
    lemma_majority_in_middle(vals, le_i64(), v);
}

/// The same for unsigned samples.
pub proof fn law_median_majority_u64(vals: Seq<u64>, v: u64)
    requires
        2 * vals.to_multiset().count(v) > vals.len(),
    ensures
        median_of_u64(vals) == v,
{
    lemma_le_u64_total();
    lemma_majority_in_middle(vals, le_u64(), v);
}

} // verus!
