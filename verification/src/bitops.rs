//! Trusted contracts for the few std integer intrinsics that vstd leaves
//! unspecified, and the bridge from vstd's leading-zeros model to `log2`.

use crate::logmath::log2;
use crate::logmath::lemma_log2_unique;
use vstd::arithmetic::div_mod::lemma_basic_div;
use vstd::arithmetic::div_mod::lemma_small_div_converse;
use vstd::arithmetic::power2::pow2;
use vstd::arithmetic::power2::lemma2_to64;
use vstd::arithmetic::power2::lemma_pow2_pos;
use vstd::bits::lemma_u32_shr_is_div;
use vstd::std_specs::bits::u32_leading_zeros;
use vstd::std_specs::bits::axiom_u32_leading_zeros;
use vstd::prelude::*;

verus! {

/// The number of set bits in the binary representation of `x`.
pub open spec fn popcount(x: nat) -> nat
    decreases x,
{
    if x == 0 {
        0
    } else {
        ((x % 2) + popcount(x / 2)) as nat
    }
}

/// Relies on `u32::ilog2`: the base-2 logarithm of the value, rounded down.
/// It panics on zero, which the precondition rules out.
pub assume_specification[ u32::ilog2 ](x: u32) -> (r: u32)
    requires
        x >= 1,
    ensures
        r == log2(x as nat),
;

/// Relies on `u64::ilog2`: the base-2 logarithm of the value, rounded down.
/// It panics on zero, which the precondition rules out.
pub assume_specification[ u64::ilog2 ](x: u64) -> (r: u32)
    requires
        x >= 1,
    ensures
        r == log2(x as nat),
;

/// Relies on `u32::count_ones`: the number of ones in the binary
/// representation of the value.
pub assume_specification[ u32::count_ones ](x: u32) -> (r: u32)
    ensures
        r == popcount(x as nat),
;

/// vstd's leading-zeros count determines the bit length: for `x >= 1`,
/// `leading_zeros(x) == 31 - log2(x)`.
pub proof fn lemma_u32_leading_zeros_log2(x: u32)
    requires
        x >= 1,
    ensures
        u32_leading_zeros(x) == 31 - log2(x as nat),
{
    axiom_u32_leading_zeros(x);
    lemma2_to64();
    let lz = u32_leading_zeros(x);
    let lo = (31 - lz) as nat;
    // The bit at position `lo` is set, so x / 2^lo is odd, hence nonzero.
    lemma_u32_shr_is_div(x, (31 - lz) as u32);
    let q = (x as nat) / pow2(lo);
    assert((x >> ((31 - lz) as u32)) & 1u32 != 0);
    assert(q != 0) by {
        if q == 0 {
            assert(0u32 & 1u32 == 0u32) by (bit_vector);
        }
    }
    assert(x >= pow2(lo)) by {
        if (x as nat) < pow2(lo) {
            lemma_basic_div(x as int, pow2(lo) as int);
        }
    }
    // All bits at position `lo + 1` and above are clear, so x < 2^(lo + 1).
    assert((x as nat) < pow2((lo + 1) as nat)) by {
        if lz == 0 {
            // x < 2^32 holds for every u32.
        } else {
            lemma_u32_shr_is_div(x, (32 - lz) as u32);
            assert(x >> ((32 - lz) as u32) == 0);
            lemma_pow2_pos((lo + 1) as nat);
            lemma_small_div_converse(x as int, pow2((lo + 1) as nat) as int);
        }
    }
    lemma_log2_unique(x as nat, lo);
}

} // verus!
