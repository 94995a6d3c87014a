//! Counting and summation over sequences: the number of cells holding a given
//! label, the number of non-empty cells, and suffix sums of counter vectors.
//! The lemmas here relate the per-area counters to the cell array itself.

use vstd::prelude::*;

verus! {

/// Number of positions of `s` holding exactly the value `b`.
pub open spec fn count_eq(s: Seq<u16>, b: int) -> int
    decreases s.len(),
{
    if s.len() == 0 {
        0
    } else {
        count_eq(s.drop_last(), b) + if s.last() == b {
            1int
        } else {
            0int
        }
    }
}

/// Number of positions of `s` holding a non-zero value.
pub open spec fn count_nonzero(s: Seq<u16>) -> int
    decreases s.len(),
{
    if s.len() == 0 {
        0
    } else {
        count_nonzero(s.drop_last()) + if s.last() != 0 {
            1int
        } else {
            0int
        }
    }
}

/// Sum of `s[i] + s[i + 1] + ... + s[s.len() - 1]`; zero outside the range.
pub open spec fn sum_from(s: Seq<int>, i: int) -> int
    decreases s.len() - i when i >= 0
{
    if 0 <= i < s.len() {
        s[i] + sum_from(s, i + 1)
    } else {
        0
    }
}

/// Sum of `count_eq(s, b)` for `b` ranging over `j..=a`.
pub open spec fn sum_count_from(s: Seq<u16>, j: int, a: int) -> int
    decreases a + 1 - j when j <= a + 1
{
    if j > a {
        0
    } else {
        count_eq(s, j) + sum_count_from(s, j + 1, a)
    }
}

/// One where `j <= v <= a`, and zero otherwise, written as a sum of indicators.
pub open spec fn ind_in(v: int, j: int, a: int) -> int
    decreases a + 1 - j when j <= a + 1
{
    if j > a {
        0
    } else {
        (if v == j {
            1int
        } else {
            0int
        }) + ind_in(v, j + 1, a)
    }
}

/// In an all-zero sequence no non-zero label is counted.
pub proof fn lemma_count_eq_all_zero(s: Seq<u16>, b: int)
    requires
        b != 0,
        forall|i: int| 0 <= i < s.len() ==> s[i] == 0,
    ensures
        count_eq(s, b) == 0,
    decreases s.len(),
{
    if s.len() > 0 {
        lemma_count_eq_all_zero(s.drop_last(), b);
    }
}

pub proof fn lemma_sum_from_all_zero(s: Seq<int>, j: int)
    requires
        0 <= j,
        forall|k: int| 0 <= k < s.len() ==> s[k] == 0,
    ensures
        sum_from(s, j) == 0,
    decreases s.len() - j,
{
    if j < s.len() {
        lemma_sum_from_all_zero(s, j + 1);
    }
}

pub proof fn lemma_count_eq_bounds(s: Seq<u16>, b: int)
    ensures
        0 <= count_eq(s, b) <= s.len(),
    decreases s.len(),
{
    if s.len() > 0 {
        lemma_count_eq_bounds(s.drop_last(), b);
    }
}

pub proof fn lemma_count_nonzero_bounds(s: Seq<u16>)
    ensures
        0 <= count_nonzero(s) <= s.len(),
    decreases s.len(),
{
    if s.len() > 0 {
        lemma_count_nonzero_bounds(s.drop_last());
    }
}

/// Updating one position moves the count by the indicators of the old and new
/// values.
pub proof fn lemma_count_eq_update(s: Seq<u16>, i: int, x: u16, b: int)
    requires
        0 <= i < s.len(),
    ensures
        count_eq(s.update(i, x), b) == count_eq(s, b) - (if s[i] == b {
            1int
        } else {
            0int
        }) + (if x == b {
            1int
        } else {
            0int
        }),
    decreases s.len(),
{
    let t = s.update(i, x);
    if i == s.len() - 1 {
        assert(t.drop_last() =~= s.drop_last());
    } else {
        assert(t.drop_last() =~= s.drop_last().update(i, x));
        lemma_count_eq_update(s.drop_last(), i, x, b);
    }
}

/// A position holding `b` witnesses a count of at least one.
pub proof fn lemma_count_eq_at_least_one(s: Seq<u16>, b: int, i: int)
    requires
        0 <= i < s.len(),
        s[i] == b,
    ensures
        count_eq(s, b) >= 1,
    decreases s.len(),
{
    if i == s.len() - 1 {
        lemma_count_eq_bounds(s.drop_last(), b);
    } else {
        lemma_count_eq_at_least_one(s.drop_last(), b, i);
    }
}

/// A position holding some other value keeps the count strictly below the
/// length.
pub proof fn lemma_count_eq_below_len(s: Seq<u16>, b: int, i: int)
    requires
        0 <= i < s.len(),
        s[i] != b,
    ensures
        count_eq(s, b) < s.len(),
    decreases s.len(),
{
    if i == s.len() - 1 {
        lemma_count_eq_bounds(s.drop_last(), b);
    } else {
        lemma_count_eq_below_len(s.drop_last(), b, i);
    }
}

/// Two sequences that agree from position `j` on have the same suffix sum.
pub proof fn lemma_sum_from_congruent(s: Seq<int>, t: Seq<int>, j: int)
    requires
        0 <= j,
        s.len() == t.len(),
        forall|k: int| j <= k < s.len() ==> s[k] == t[k],
    ensures
        sum_from(s, j) == sum_from(t, j),
    decreases s.len() - j,
{
    if 0 <= j < s.len() {
        lemma_sum_from_congruent(s, t, j + 1);
    }
}

/// Updating position `i` shifts every suffix sum that covers `i` by the
/// difference, and leaves the others alone.
pub proof fn lemma_sum_from_update(s: Seq<int>, i: int, x: int, j: int)
    requires
        0 <= i < s.len(),
        0 <= j,
    ensures
        j <= i ==> sum_from(s.update(i, x), j) == sum_from(s, j) + x - s[i],
        j > i ==> sum_from(s.update(i, x), j) == sum_from(s, j),
    decreases s.len() - j,
{
    let t = s.update(i, x);
    if j > i {
        lemma_sum_from_congruent(s, t, j);
    } else if j < s.len() {
        lemma_sum_from_update(s, i, x, j + 1);
    }
}

pub proof fn lemma_sum_from_nonneg(s: Seq<int>, j: int)
    requires
        0 <= j,
        forall|k: int| 0 <= k < s.len() ==> s[k] >= 0,
    ensures
        sum_from(s, j) >= 0,
    decreases s.len() - j,
{
    if j < s.len() {
        lemma_sum_from_nonneg(s, j + 1);
    }
}

/// With non-negative entries, suffix sums shrink as the start moves right.
pub proof fn lemma_sum_from_monotone(s: Seq<int>, i: int, j: int)
    requires
        0 <= i <= j,
        forall|k: int| 0 <= k < s.len() ==> s[k] >= 0,
    ensures
        sum_from(s, j) <= sum_from(s, i),
    decreases j - i,
{
    if i < j {
        lemma_sum_from_nonneg(s, i + 1);
        lemma_sum_from_monotone(s, i + 1, j);
    }
}

/// With non-negative entries, each entry is at most any suffix sum covering it.
pub proof fn lemma_sum_from_bounds_entry(s: Seq<int>, j: int, k: int)
    requires
        0 <= j <= k < s.len(),
        forall|l: int| 0 <= l < s.len() ==> s[l] >= 0,
    ensures
        s[k] <= sum_from(s, j),
    decreases k - j,
{
    if j == k {
        lemma_sum_from_nonneg(s, j + 1);
    } else {
        lemma_sum_from_bounds_entry(s, j + 1, k);
    }
}

pub proof fn lemma_ind_in_value(v: int, j: int, a: int)
    requires
        j <= a + 1,
    ensures
        ind_in(v, j, a) == if j <= v <= a {
            1int
        } else {
            0int
        },
    decreases a + 1 - j,
{
    if j <= a {
        lemma_ind_in_value(v, j + 1, a);
    }
}

pub proof fn lemma_sum_count_from_empty(s: Seq<u16>, j: int, a: int)
    requires
        s.len() == 0,
        j <= a + 1,
    ensures
        sum_count_from(s, j, a) == 0,
    decreases a + 1 - j,
{
    if j <= a {
        lemma_sum_count_from_empty(s, j + 1, a);
    }
}

/// Dropping the last element lowers the ranged count sum by the indicator sum
/// of the dropped value.
pub proof fn lemma_sum_count_from_drop(s: Seq<u16>, j: int, a: int)
    requires
        s.len() > 0,
        j <= a + 1,
    ensures
        sum_count_from(s, j, a) == sum_count_from(s.drop_last(), j, a) + ind_in(
            s.last() as int,
            j,
            a,
        ),
    decreases a + 1 - j,
{
    if j <= a {
        lemma_sum_count_from_drop(s, j + 1, a);
    }
}

/// When every value of `s` lies in `{0} union {1..=a}`, the counts of the
/// individual labels partition the non-zero cells.
pub proof fn lemma_count_partition(s: Seq<u16>, a: int)
    requires
        a >= 0,
        forall|i: int| 0 <= i < s.len() ==> s[i] <= a,
    ensures
        sum_count_from(s, 1, a) == count_nonzero(s),
    decreases s.len(),
{
    if s.len() == 0 {
        lemma_sum_count_from_empty(s, 1, a);
    } else {
        let t = s.drop_last();
        assert(forall|i: int| 0 <= i < t.len() ==> t[i] <= a);
        lemma_count_partition(t, a);
        lemma_sum_count_from_drop(s, 1, a);
        lemma_ind_in_value(s.last() as int, 1, a);
    }
}

/// A counter vector that matches the per-label counts pointwise has, from any
/// start, the matching ranged count sum.
pub proof fn lemma_sum_from_matches_counts(c: Seq<int>, s: Seq<u16>, a: int, j: int)
    requires
        c.len() == a + 1,
        1 <= j <= a + 1,
        forall|b: int| 1 <= b <= a ==> c[b] == count_eq(s, b),
    ensures
        sum_from(c, j) == sum_count_from(s, j, a),
    decreases a + 1 - j,
{
    if j <= a {
        lemma_sum_from_matches_counts(c, s, a, j + 1);
    }
}

} // verus!
