//! The statistics engine.
//!
//! Input values arrive as raw bit patterns of 64-bit floats. The engine
//! rejects an empty sequence and any non-finite element, sorts a copy of the
//! input by the total order [`bits_le`], and selects the positional
//! statistics: minimum, maximum, the upper median at index `n / 2`, and the
//! positional quartiles at indices `n / 4` and `3 * n / 4` (all zero-based
//! into the sorted copy). The caller's own order of the input never changes
//! the result, and the input vector itself is never mutated.

use vstd::prelude::*;
use vstd::relations::sorted_by;
use vstd::seq_lib::{lemma_multiset_commutative, lemma_sorted_unique};
use crate::float_bits::{
    bits_le, bits_total_le, compute_sort_key, is_finite, is_finite_bits, lemma_bits_total_ordering,
    sort_key,
};

verus! {

broadcast use vstd::seq_lib::group_to_multiset_ensures, vstd::multiset::group_multiset_axioms;

/// The error taxonomy of the whole program. The engine itself reports only
/// `InvalidInput`; the surrounding I/O shell uses the other kinds for its
/// read, parse and write failures.
#[derive(Clone, Copy, Debug, PartialEq, Eq, Structural)]
pub enum StatsError {
    /// Standard input could not be read.
    IoError,
    /// The input buffer is not valid JSON of the expected shape.
    MalformedInput,
    /// The sequence is empty, or holds a NaN or an infinity.
    InvalidInput,
    /// The result record could not be serialized.
    SerializationError,
}

/// The order-based statistics of a non-empty sequence of finite values, each
/// field a raw 64-bit float bit pattern drawn from the input sequence.
///
/// The three moment statistics of the full result record (mean, standard
/// deviation, coefficient of variation) are floating-point arithmetic and
/// are derived by the caller from the same sequence.
#[derive(Clone, Copy, Debug, PartialEq, Eq, Structural)]
pub struct OrderStatistics {
    /// Smallest element.
    pub min: u64,
    /// Largest element.
    pub max: u64,
    /// Element at index `n / 2` of the sorted copy (the upper median).
    pub median: u64,
    /// Element at index `n / 4` of the sorted copy.
    pub q1: u64,
    /// Element at index `3 * n / 4` of the sorted copy.
    pub q3: u64,
}

/// An input sequence is valid when it is non-empty and every element is the
/// bit pattern of a finite value.
pub open spec fn valid_input(data: Seq<u64>) -> bool {
    &&& data.len() >= 1
    &&& forall|i: int| 0 <= i < data.len() ==> is_finite_bits(#[trigger] data[i])
}

/// The ascending-sorted copy of the input, under the [`bits_le`] order.
pub open spec fn sorted_data(data: Seq<u64>) -> Seq<u64> {
    data.sort_by(bits_total_le())
}

/// Zero-based index of the upper median of `n` sorted elements.
pub open spec fn median_index(n: int) -> int {
    n / 2
}

/// Zero-based index of the first positional quartile of `n` sorted elements.
pub open spec fn q1_index(n: int) -> int {
    n / 4
}

/// Zero-based index of the third positional quartile of `n` sorted elements.
pub open spec fn q3_index(n: int) -> int {
    n * 3 / 4
}

/// What the engine returns on a valid input: the elements of the sorted copy
/// at the five positional indices.
pub open spec fn spec_statistics(data: Seq<u64>) -> OrderStatistics {
    let s = sorted_data(data);
    let n = data.len() as int;
    OrderStatistics {
        min: s[0],
        max: s[n - 1],
        median: s[median_index(n)],
        q1: s[q1_index(n)],
        q3: s[q3_index(n)],
    }
}

/// Inserting an element anywhere in a sequence inserts it into the
/// sequence's multiset.
proof fn lemma_insert_to_multiset(s: Seq<u64>, i: int, x: u64)
    requires
        0 <= i <= s.len(),
    ensures
        s.insert(i, x).to_multiset() == s.to_multiset().insert(x),
{
    let a = s.subrange(0, i);
    let b = s.subrange(i, s.len() as int);
    lemma_multiset_commutative(a.push(x), b);
    lemma_multiset_commutative(a, b);
    assert(s =~= a + b);
    assert(a.push(x).to_multiset() =~= a.to_multiset().insert(x));
    assert(s.insert(i, x) == a.push(x) + b);
    assert(s.insert(i, x).to_multiset() =~= s.to_multiset().insert(x));
}

/// Ascending-sorted copy of `data` under [`bits_le`]; `data` itself is left
/// as it is.
fn sort_bits(data: &Vec<u64>) -> (out: Vec<u64>)
    ensures
        out@ == sorted_data(data@),
{
    let mut out: Vec<u64> = Vec::new();
    proof {
        assert(data@.subrange(0, 0) =~= Seq::<u64>::empty());
        assert(out@.to_multiset() =~= data@.subrange(0, 0).to_multiset());
    }
    let mut i: usize = 0;
    while i < data.len()
        invariant
            i <= data@.len(),
            sorted_by(out@, bits_total_le()),
            out@.to_multiset() == data@.subrange(0, i as int).to_multiset(),
        decreases data@.len() - i,
    {
        let x: u64 = data[i];
        let key_x = compute_sort_key(x);
        let mut p: usize = 0;
        while p < out.len() && compute_sort_key(out[p]) < key_x
            invariant
                p <= out@.len(),
                key_x == sort_key(x),
                forall|q: int| 0 <= q < p ==> sort_key(#[trigger] out@[q]) < sort_key(x),
            decreases out@.len() - p,
        {
            p += 1;
        }
        let ghost prev = out@;
        out.insert(p, x);
        proof {
            prev.insert_ensures(p as int, x);
            let leq = bits_total_le();
            assert forall|m: int, k: int| 0 <= m < k < out@.len() implies #[trigger] leq(
                out@[m],
                out@[k],
            ) by {
                if k < p {
                    assert(leq(prev[m], prev[k]));
                } else if k == p {
                    assert(sort_key(prev[m]) < sort_key(x));
                } else {
                    if m < p {
                        if m < k - 1 {
                            assert(leq(prev[m], prev[k - 1]));
                        }
                        assert(sort_key(out@[m]) <= sort_key(out@[k]));
                    } else if m == p {
                        if (p as int) < k - 1 {
                            assert(leq(prev[p as int], prev[k - 1]));
                        }
                        assert(sort_key(x) <= sort_key(prev[p as int]));
                    } else {
                        assert(leq(prev[m - 1], prev[k - 1]));
                    }
                }
            }
            lemma_insert_to_multiset(prev, p as int, x);
            assert(data@.subrange(0, i as int + 1) =~= data@.subrange(0, i as int).push(
                data@[i as int],
            ));
            assert(out@.to_multiset() =~= data@.subrange(0, i as int + 1).to_multiset());
        }
        i += 1;
    }
    proof {
        assert(data@.subrange(0, data@.len() as int) =~= data@);
        lemma_bits_total_ordering();
        data@.lemma_sort_by_ensures(bits_total_le());
        lemma_sorted_unique(out@, data@.sort_by(bits_total_le()), bits_total_le());
        assert(out@ =~= sorted_data(data@));
    }
    out
}

/// In a sorted sequence, the element at a lower index is `bits_le` the
/// element at a higher one; at equal indices the two are the same element.
proof fn lemma_sorted_le(s: Seq<u64>, a: int, b: int)
    requires
        sorted_by(s, bits_total_le()),
        0 <= a <= b < s.len(),
    ensures
        bits_le(s[a], s[b]),
{
    let leq = bits_total_le();
    if a < b {
        assert(leq(s[a], s[b]));
    }
}

/// Law: in the `bits_le` order the minimum is at or below every element of
/// the input, and every element is at or below the maximum.
pub proof fn lemma_min_max_bound(data: Seq<u64>)
    requires
        data.len() >= 1,
    ensures
        forall|i: int|
            0 <= i < data.len() ==> bits_le(spec_statistics(data).min, #[trigger] data[i])
                && bits_le(data[i], spec_statistics(data).max),
{
    lemma_bits_total_ordering();
    data.lemma_sort_by_ensures(bits_total_le());
    let s = sorted_data(data);
    assert(s.to_multiset().len() == data.to_multiset().len());
    assert(s.len() == data.len());
    assert forall|i: int|
        0 <= i < data.len() implies bits_le(spec_statistics(data).min, #[trigger] data[i])
        && bits_le(data[i], spec_statistics(data).max) by {
        assert(data.contains(data[i]));
        assert(data.to_multiset().count(data[i]) > 0);
        assert(s.contains(data[i]));
        let j = choose|j: int| 0 <= j < s.len() && s[j] == data[i];
        lemma_sorted_le(s, 0, j);
        lemma_sorted_le(s, j, s.len() - 1);
    }
}

/// Law: in the `bits_le` order, `min <= q1 <= median <= q3 <= max`; in
/// particular the median lies between the minimum and the maximum.
pub proof fn lemma_quartile_order(data: Seq<u64>)
    requires
        data.len() >= 1,
    ensures
        bits_le(spec_statistics(data).min, spec_statistics(data).q1),
        bits_le(spec_statistics(data).q1, spec_statistics(data).median),
        bits_le(spec_statistics(data).median, spec_statistics(data).q3),
        bits_le(spec_statistics(data).q3, spec_statistics(data).max),
        bits_le(spec_statistics(data).min, spec_statistics(data).median),
        bits_le(spec_statistics(data).median, spec_statistics(data).max),
{
    lemma_bits_total_ordering();
    data.lemma_sort_by_ensures(bits_total_le());
    let s = sorted_data(data);
    let n = data.len() as int;
    assert(s.to_multiset().len() == data.to_multiset().len());
    assert(s.len() == data.len());
    assert(n / 4 <= n / 2 && n / 2 <= n * 3 / 4 && n * 3 / 4 < n) by (nonlinear_arith)
        requires
            n >= 1,
    ;
    lemma_sorted_le(s, 0, q1_index(n));
    lemma_sorted_le(s, q1_index(n), median_index(n));
    lemma_sorted_le(s, median_index(n), q3_index(n));
    lemma_sorted_le(s, q3_index(n), n - 1);
}

/// Law: the statistics are invariant under permutation. Two inputs with the
/// same multiset of elements have the same sorted copy, and so the same
/// result record.
pub proof fn lemma_permutation_invariant(a: Seq<u64>, b: Seq<u64>)
    requires
        a.to_multiset() == b.to_multiset(),
    ensures
        sorted_data(a) == sorted_data(b),
        spec_statistics(a) == spec_statistics(b),
{
    lemma_bits_total_ordering();
    a.lemma_sort_by_ensures(bits_total_le());
    b.lemma_sort_by_ensures(bits_total_le());
    lemma_sorted_unique(sorted_data(a), sorted_data(b), bits_total_le());
    assert(sorted_data(a) =~= sorted_data(b));
    a.to_multiset_ensures();
    b.to_multiset_ensures();
    assert(a.len() == b.len());
}

/// Computes the order-based statistics of a sequence of 64-bit float bit
/// patterns.
///
/// On a non-empty sequence of finite values it returns exactly the elements
/// of the ascending-sorted copy at indices `0`, `n - 1`, `n / 2`, `n / 4`
/// and `3 * n / 4`; on an empty sequence, or one holding a NaN or an
/// infinity, it returns `InvalidInput`, and on nothing else.
pub fn compute_statistics(data: &Vec<u64>) -> (result: Result<OrderStatistics, StatsError>)
    ensures
        valid_input(data@) ==> result == Ok::<OrderStatistics, StatsError>(
            spec_statistics(data@),
        ),
        !valid_input(data@) ==> result == Err::<OrderStatistics, StatsError>(
            StatsError::InvalidInput,
        ),
{
    let n: usize = data.len();
    if n == 0 {
        return Err(StatsError::InvalidInput);
    }
    let mut i: usize = 0;
    while i < n
        invariant
            n == data@.len(),
            i <= n,
            forall|j: int| 0 <= j < i ==> is_finite_bits(#[trigger] data@[j]),
        decreases n - i,
    {
        if !is_finite(data[i]) {
            return Err(StatsError::InvalidInput);
        }
        i += 1;
    }
    let sorted = sort_bits(data);
    proof {
        lemma_bits_total_ordering();
        data@.lemma_sort_by_ensures(bits_total_le());
        assert(sorted@.to_multiset().len() == data@.to_multiset().len());
        assert(sorted@.len() == data@.len());
        assert(n * 3 / 4 < n) by (nonlinear_arith)
            requires
                n >= 1,
        ;
    }
    let mid: usize = n / 2;
    let q1i: usize = n / 4;
    let q3i: usize = ((n as u128 * 3) / 4) as usize;
    assert(q3i == q3_index(n as int));
    Ok(
        OrderStatistics {
            min: sorted[0],
            max: sorted[n - 1],
            median: sorted[mid],
            q1: sorted[q1i],
            q3: sorted[q3i],
        },
    )
}

} // verus!
