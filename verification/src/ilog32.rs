//! The 32-bit `floor(log10)` algorithms: the division-based reference and the
//! guess-and-correct variants, each proved exact over `[1, u32::MAX]`.

use crate::guess::or_guess;
use crate::guess::popc_guess;
use crate::guess::mul9_guess;
use crate::guess::table_guess;
use crate::guess::lemma_mul9_guess_bounds;
use crate::guess::lemma_or_guess_bounds;
use crate::guess::lemma_popc_guess_bounds;
use crate::guess::lemma_table_guess_bounds;
use crate::guess::LZ_GUESSMASK;
use crate::bitops::lemma_u32_leading_zeros_log2;
use crate::logmath::log2;
use crate::logmath::log10;
use crate::logmath::lemma_log2_from_upper;
use crate::logmath::lemma_log10_div_100000;
use crate::logmath::lemma_log10_from_upper;
use crate::logmath::lemma_log10_unique;
use crate::logmath::lemma_pow10_values;
use crate::tables::guess_table;
use crate::tables::ten_thresholds;
use crate::tables::lemma_correct32;
use vstd::arithmetic::div_mod::lemma_small_mod;
use vstd::arithmetic::power2::lemma2_to64;
use vstd::bits::lemma_u32_shr_is_div;
use vstd::prelude::*;

verus! {

/// Carry constant of the five-bucket classifier: `2^17 * 0b011 - 10`.
const LT5_C1: u32 = 0b011_00000000000000000 - 10;

/// Carry constant of the five-bucket classifier: `2^17 * 0b100 - 100`.
const LT5_C2: u32 = 0b100_00000000000000000 - 100;

/// Carry constant of the five-bucket classifier: `2^17 * 0b111 - 1000`.
const LT5_C3: u32 = 0b111_00000000000000000 - 1000;

/// Carry constant of the five-bucket classifier: `2^17 * 0b100 - 10000`.
const LT5_C4: u32 = 0b100_00000000000000000 - 10000;

/// The branch-free classifier from the standard library's `ilog10`: adding
/// each constant to `val` carries into the top bits exactly when `val` passes
/// the corresponding power of ten, and the masked carries combine to the
/// digit count.
fn less_than_5(val: u32) -> (r: u32)
    requires
        1 <= val < 100000,
    ensures
        r == log10(val as nat),
{
    let s1 = val + LT5_C1;
    let s2 = val + LT5_C2;
    let s3 = val + LT5_C3;
    let s4 = val + LT5_C4;
    let r = ((s1 & s2) ^ (s3 & s4)) >> 17;
    proof {
        assert((val < 10 ==> ((s1 & s2) ^ (s3 & s4)) >> 17 == 0) && (10 <= val < 100 ==> ((s1
            & s2) ^ (s3 & s4)) >> 17 == 1) && (100 <= val < 1000 ==> ((s1 & s2) ^ (s3 & s4)) >> 17
            == 2) && (1000 <= val < 10000 ==> ((s1 & s2) ^ (s3 & s4)) >> 17 == 3) && (10000 <= val
            < 100000 ==> ((s1 & s2) ^ (s3 & s4)) >> 17 == 4)) by (bit_vector)
            requires
                s1 == val + 393206,
                s2 == val + 524188,
                s3 == val + 916504,
                s4 == val + 514288,
                val < 100000,
        ;
        lemma_pow10_values();
        if val < 10 {
            lemma_log10_unique(val as nat, 0);
        } else if val < 100 {
            lemma_log10_unique(val as nat, 1);
        } else if val < 1000 {
            lemma_log10_unique(val as nat, 2);
        } else if val < 10000 {
            lemma_log10_unique(val as nat, 3);
        } else {
            lemma_log10_unique(val as nat, 4);
        }
    }
    r
}

/// Reference version matching the Rust standard library: strip a factor of
/// `10^5`, then classify the remainder.
pub fn ilog10_u32(val: u32) -> (r: u32)
    requires
        val >= 1,
    ensures
        r == log10(val as nat),
{
    if val >= 100_000 {
        let v = val / 100_000;
        proof {
            lemma_log10_div_100000(val as nat);
            lemma_pow10_values();
            lemma_log10_from_upper((val / 100000) as nat, 5);
        }
        5 + less_than_5(v)
    } else {
        less_than_5(val)
    }
}

/// The popcount guess: shift the guess mask by the leading-zero count and
/// count the surviving bits. The mask is built so that shifting never leaves
/// more than nine set bits, which keeps the guess inside the table.
pub fn ilogpopc(val_lz: u32) -> (guess: u32)
    requires
        val_lz <= 31,
    ensures
        guess == popc_guess(val_lz as nat),
        guess <= 9,
{
    proof {
        crate::guess::lemma_popc_guess_ok(val_lz as nat);
    }
    (LZ_GUESSMASK << val_lz).count_ones()
}

/// The popcount algorithm: guess from the leading-zero count, then one
/// threshold comparison. The table access is in bounds because the guess is
/// proved to stay below ten for every leading-zero count.
pub fn ilog10(val: u32) -> (r: u32)
    requires
        val >= 1,
    ensures
        r == log10(val as nat),
{
    let lz = val.leading_zeros();
    proof {
        lemma_u32_leading_zeros_log2(val);
        lemma_popc_guess_bounds(val as nat);
        lemma_correct32(val as nat, popc_guess((31 - log2(val as nat)) as nat));
    }
    let guess = ilogpopc(lz);
    let ttg = ten_thresholds(guess as usize);
    if val > ttg {
        guess + 1
    } else {
        guess
    }
}

/// The variant from the forum discussion: force the low bits so that values
/// up to 6 share a bit length, then scale the halved bit length by `5/16`.
pub fn ilog10_mul_or(x: u32) -> (r: u32)
    requires
        x >= 1,
    ensures
        r == log10(x as nat),
{
    let y = (x | 7) >> 1;
    proof {
        assert((((x | 7) >> 1) as u32) >= 3) by (bit_vector);
    }
    let log2v = y.ilog2();
    let prod = log2v.wrapping_mul(5);
    let guess = prod >> 4;
    proof {
        lemma2_to64();
        lemma_log2_from_upper(y as nat, 32);
        lemma_small_mod((log2(y as nat) * 5) as nat, 0x1_0000_0000);
        lemma_u32_shr_is_div(prod, 4);
        assert(guess == or_guess(x));
        lemma_or_guess_bounds(x);
        lemma_correct32(x as nat, or_guess(x));
    }
    let ttg = ten_thresholds(guess as usize);
    if x > ttg {
        guess + 1
    } else {
        guess
    }
}

/// The multiplicative algorithm: scale the bit length by `9/32` and correct
/// with one threshold comparison.
pub fn ilog10_mul(x: u32) -> (r: u32)
    requires
        x >= 1,
    ensures
        r == log10(x as nat),
{
    let l = x.ilog2();
    let prod = l.wrapping_mul(9);
    let guess = prod >> 5;
    proof {
        lemma2_to64();
        lemma_log2_from_upper(x as nat, 32);
        lemma_small_mod((log2(x as nat) * 9) as nat, 0x1_0000_0000);
        lemma_u32_shr_is_div(prod, 5);
        assert(guess == mul9_guess(log2(x as nat)));
        lemma_mul9_guess_bounds(x as nat);
        lemma_correct32(x as nat, mul9_guess(log2(x as nat)));
    }
    let ttg = ten_thresholds(guess as usize);
    if x > ttg {
        guess + 1
    } else {
        guess
    }
}

/// Bit-length guess through a 33-entry table instead of a multiplication.
pub fn log10_table_table(x: u32) -> (r: u32)
    requires
        x >= 1,
    ensures
        r == log10(x as nat),
{
    let log2v = x.ilog2();
    proof {
        lemma2_to64();
        lemma_log2_from_upper(x as nat, 32);
        lemma_table_guess_bounds(x as nat);
        lemma_correct32(x as nat, table_guess(log2(x as nat)));
    }
    let guess = guess_table(log2v as usize) as u32;
    let ttg = ten_thresholds(guess as usize);
    if x > ttg {
        guess + 1
    } else {
        guess
    }
}

/// The same `9/32` guess as `ilog10_mul`; the table access needs no runtime
/// bounds check because the guess is proved to stay below ten.
pub fn ilog10_mul_alt(x: u32) -> (r: u32)
    requires
        x >= 1,
    ensures
        r == log10(x as nat),
{
    proof {
        lemma2_to64();
        lemma_log2_from_upper(x as nat, 32);
    }
    let l = x.ilog2();
    let prod = l * 9;
    let guess = prod >> 5;
    proof {
        lemma_u32_shr_is_div(prod, 5);
        assert(guess == mul9_guess(log2(x as nat)));
        lemma_mul9_guess_bounds(x as nat);
        lemma_correct32(x as nat, mul9_guess(log2(x as nat)));
    }
    let ttg = ten_thresholds(guess as usize);
    if x > ttg {
        guess + 1
    } else {
        guess
    }
}

} // verus!
