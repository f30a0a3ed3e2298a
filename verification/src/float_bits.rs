//! The bit-pattern model of 64-bit IEEE-754 values.
//!
//! A value is carried as the raw `u64` bit pattern that `f64::to_bits`
//! produces. Two things about such a pattern matter to the engine and are
//! plain integer facts:
//!
//! - whether the value is finite: the eleven exponent bits are not all ones;
//! - how two finite values compare: mapping a pattern with the sign bit set
//!   to `u64::MAX - bits` and one with the sign bit clear to
//!   `bits + 0x8000_0000_0000_0000` is the classic order-preserving key, and
//!   on it the ordinary `u64` order agrees with the numeric order of the
//!   floats (with `-0.0` placed before `0.0`, as in `f64::total_cmp`).

use vstd::prelude::*;

verus! {

/// The sign bit of a 64-bit IEEE-754 pattern.
pub const SIGN_MASK: u64 = 0x8000_0000_0000_0000;

/// The eleven exponent bits of a 64-bit IEEE-754 pattern.
pub const EXP_MASK: u64 = 0x7FF0_0000_0000_0000;

/// A pattern encodes a finite value exactly when its exponent bits are not
/// all ones (all ones encodes an infinity or a NaN).
pub open spec fn is_finite_bits(bits: u64) -> bool {
    bits & EXP_MASK != EXP_MASK
}

/// Runtime check for [`is_finite_bits`].
pub fn is_finite(bits: u64) -> (finite: bool)
    ensures
        finite == is_finite_bits(bits),
{
    bits & EXP_MASK != EXP_MASK
}

/// The order-preserving key of a bit pattern: negative patterns (sign bit
/// set) are reversed below the non-negative ones. On finite values, `u64`
/// order of keys is the numeric order of the floats.
pub open spec fn sort_key(bits: u64) -> u64 {
    if bits >= SIGN_MASK {
        (u64::MAX - bits) as u64
    } else {
        (bits + SIGN_MASK) as u64
    }
}

/// Runtime computation of [`sort_key`].
pub fn compute_sort_key(bits: u64) -> (key: u64)
    ensures
        key == sort_key(bits),
{
    if bits >= SIGN_MASK {
        u64::MAX - bits
    } else {
        bits + SIGN_MASK
    }
}

/// The total order on bit patterns that the engine sorts by.
pub open spec fn bits_le(a: u64, b: u64) -> bool {
    sort_key(a) <= sort_key(b)
}

/// [`bits_le`] as a relation value, for use with the sequence-sorting
/// library.
pub open spec fn bits_total_le() -> spec_fn(u64, u64) -> bool {
    |a: u64, b: u64| bits_le(a, b)
}

/// Distinct bit patterns have distinct keys, so `bits_le` is antisymmetric.
pub proof fn lemma_sort_key_injective(a: u64, b: u64)
    requires
        sort_key(a) == sort_key(b),
    ensures
        a == b,
{
}

/// `bits_le` is a total order on bit patterns.
pub proof fn lemma_bits_total_ordering()
    ensures
        vstd::relations::total_ordering(bits_total_le()),
{
    let leq = bits_total_le();
    assert forall|x: u64, y: u64| #[trigger] leq(x, y) && #[trigger] leq(y, x) implies x == y by {
        lemma_sort_key_injective(x, y);
    }
    assert(vstd::relations::reflexive(leq));
    assert(vstd::relations::transitive(leq));
    assert(vstd::relations::strongly_connected(leq));
}

} // verus!
