//! The 64-bit `floor(log10)` algorithm. The crude `9/32` ratio drifts too far
//! at 64-bit magnitudes, so the guess uses the tighter `19/64` approximation.

use crate::guess::mul19_guess;
use crate::guess::lemma_mul19_guess_bounds;
use crate::logmath::log2;
use crate::logmath::log10;
use crate::logmath::lemma_log2_from_upper;
use crate::tables::u64_thresholds;
use crate::tables::lemma_correct64;
use vstd::arithmetic::div_mod::lemma_small_mod;
use vstd::arithmetic::power2::lemma2_to64;
use vstd::bits::lemma_u32_shr_is_div;
use vstd::prelude::*;

verus! {

/// The multiplicative 64-bit algorithm: scale the bit length by `19/64` and
/// correct with one threshold comparison.
pub fn ilog10_u64_mul(x: u64) -> (r: u32)
    requires
        x >= 1,
    ensures
        r == log10(x as nat),
{
    let l = x.ilog2();
    let prod = l.wrapping_mul(19);
    let guess: u32 = prod >> 6;
    proof {
        lemma2_to64();
        lemma_log2_from_upper(x as nat, 64);
        lemma_small_mod((log2(x as nat) * 19) as nat, 0x1_0000_0000);
        lemma_u32_shr_is_div(prod, 6);
        assert(guess == mul19_guess(log2(x as nat)));
        lemma_mul19_guess_bounds(x as nat);
        lemma_correct64(x as nat, mul19_guess(log2(x as nat)));
    }
    let ttg = u64_thresholds(guess as usize);
    if x > ttg {
        guess + 1
    } else {
        guess
    }
}

} // verus!
