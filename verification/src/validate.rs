//! The per-value checks of the validation harness. Each check compares an
//! algorithm against an independent division-based reference and is proved to
//! succeed on every allowed input, so the surrounding exhaustive, boundary and
//! random drivers can only ever observe agreement.

use crate::guess::mul19_guess;
use crate::guess::lemma_mul19_guess_bounds;
use crate::ilog32::ilog10_mul;
use crate::ilog64::ilog10_u64_mul;
use crate::logmath::log2;
use crate::logmath::log10;
use crate::logmath::lemma_log2_from_upper;
use crate::logmath::lemma_log10_from_upper;
use crate::logmath::lemma_pow10_values;
use vstd::arithmetic::div_mod::lemma_small_mod;
use vstd::arithmetic::power2::pow2;
use vstd::arithmetic::power2::lemma_pow2_pos;
use vstd::arithmetic::power2::lemma_pow2_strictly_increases;
use vstd::arithmetic::power2::lemma2_to64;
use vstd::bits::lemma_u32_shr_is_div;
use vstd::bits::lemma_u64_shl_is_mul;
use vstd::prelude::*;

verus! {

/// The trusted reference: floor log10 by repeated division.
pub fn reference_log10_u64(x: u64) -> (r: u32)
    requires
        x >= 1,
    ensures
        r == log10(x as nat),
{
    proof {
        lemma_pow10_values();
        lemma_log10_from_upper(x as nat, 20);
    }
    let mut v = x;
    let mut d: u32 = 0;
    while v >= 10
        invariant
            1 <= v,
            log10(x as nat) == d + log10(v as nat),
            d + log10(v as nat) <= 19,
        decreases v,
    {
        v = v / 10;
        d = d + 1;
    }
    d
}

/// One step of the 32-bit exhaustive validation: the multiplicative
/// algorithm agrees with the reference, for every nonzero input.
pub fn check_algorithm32(x: u32) -> (ok: bool)
    requires
        x >= 1,
    ensures
        ok,
{
    ilog10_mul(x) == reference_log10_u64(x as u64)
}

/// One step of the 64-bit validation: the 64-bit multiplicative algorithm
/// agrees with the reference, for every nonzero input.
pub fn check_algorithm64(x: u64) -> (ok: bool)
    requires
        x >= 1,
    ensures
        ok,
{
    ilog10_u64_mul(x) == reference_log10_u64(x)
}

/// One step of the boundary-value check: the raw `19/64` mapping is
/// correctable to the true floor log10 by adding at most one.
pub fn check_warren_map(val: u64) -> (ok: bool)
    requires
        val >= 1,
    ensures
        ok,
{
    let log2val = val.ilog2();
    let real_log10val = reference_log10_u64(val);
    let prod = log2val.wrapping_mul(19);
    let warren_map = prod >> 6;
    proof {
        lemma2_to64();
        lemma_log2_from_upper(val as nat, 64);
        lemma_small_mod((log2(val as nat) * 19) as nat, 0x1_0000_0000);
        lemma_u32_shr_is_div(prod, 6);
        assert(warren_map == mul19_guess(log2(val as nat)));
        lemma_mul19_guess_bounds(val as nat);
    }
    warren_map == real_log10val || warren_map == real_log10val - 1
}

/// The 64-bit boundary set: the powers of two up to `2^61`, the values
/// `2^k - 1` for `k` from 2 to 63, and `u64::MAX`.
pub fn warren_boundary_values() -> (v: Vec<u64>)
    ensures
        v@.len() == 125,
        forall|i: int| 0 <= i < 62 ==> v@[i] == pow2(i as nat),
        forall|i: int| 62 <= i < 124 ==> v@[i] == pow2((i - 60) as nat) - 1,
        v@[124] == u64::MAX,
{
    let mut test_values: Vec<u64> = Vec::new();
    let mut k: u32 = 0;
    while k < 62
        invariant
            test_values@.len() == k,
            k <= 62,
            forall|i: int| 0 <= i < k ==> test_values@[i] == pow2(i as nat),
        decreases 62 - k,
    {
        proof {
            lemma2_to64();
            lemma_pow2_strictly_increases(k as nat, 64);
            lemma_u64_shl_is_mul(1u64, k as u64);
        }
        test_values.push(1u64 << k);
        k = k + 1;
    }
    let mut i: u32 = 2;
    while i < 64
        invariant
            test_values@.len() == 60 + i,
            2 <= i <= 64,
            forall|j: int| 0 <= j < 62 ==> test_values@[j] == pow2(j as nat),
            forall|j: int| 62 <= j < 60 + i ==> test_values@[j] == pow2((j - 60) as nat) - 1,
        decreases 64 - i,
    {
        proof {
            lemma2_to64();
            lemma_pow2_strictly_increases(i as nat, 64);
            lemma_pow2_pos(i as nat);
            lemma_u64_shl_is_mul(1u64, i as u64);
        }
        test_values.push((1u64 << i) - 1);
        i = i + 1;
    }
    test_values.push(u64::MAX);
    test_values
}

/// The boundary-value phase of the 64-bit validation: the `19/64` mapping is
/// within one below the truth on every boundary value. Proved to succeed.
pub fn check_warren_boundary() -> (ok: bool)
    ensures
        ok,
{
    let test_values = warren_boundary_values();
    let mut j: usize = 0;
    let mut all_ok = true;
    while j < test_values.len()
        invariant
            all_ok,
            j <= test_values@.len(),
            test_values@.len() == 125,
            forall|i: int| 0 <= i < 62 ==> test_values@[i] == pow2(i as nat),
            forall|i: int| 62 <= i < 124 ==> test_values@[i] == pow2((i - 60) as nat) - 1,
            test_values@[124] == u64::MAX,
        decreases test_values@.len() - j,
    {
        let val = test_values[j];
        proof {
            if j < 62 {
                lemma_pow2_pos(j as nat);
            } else if j < 124 {
                lemma_pow2_strictly_increases(1, (j - 60) as nat);
                lemma2_to64();
            }
        }
        all_ok = all_ok && check_warren_map(val);
        j = j + 1;
    }
    all_ok
}

} // verus!
