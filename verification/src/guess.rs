//! The digit-count guess functions and their bounded-error invariant.
//!
//! Each guess maps a value's bit length to an integer that is either
//! `floor(log10(x))` or exactly one less, and always lands inside the
//! threshold table of its bit width. Both facts are proved here for every
//! bit length, which is what lets the algorithms use a single comparison
//! as their only correction.

use crate::bitops::popcount;
use crate::logmath::log2;
use crate::logmath::log10;
use crate::logmath::pow10;
use crate::logmath::lemma_log2_from_upper;
use crate::logmath::lemma_log2_bounds;
use crate::logmath::lemma_log2_is_ordered;
use crate::logmath::lemma_log10_from_lower;
use crate::logmath::lemma_log10_from_upper;
use crate::logmath::lemma_pow10_values;
use crate::logmath::lemma_log2_from_lower;
use crate::logmath::lemma_log2_unique;
use vstd::arithmetic::div_mod::lemma_basic_div;
use vstd::arithmetic::div_mod::lemma_div_multiples_vanish;
use vstd::arithmetic::div_mod::lemma_multiply_divide_lt;
use vstd::arithmetic::power2::lemma_pow2_adds;
use vstd::bits::lemma_u32_shr_is_div;
use vstd::arithmetic::div_mod::lemma_div_is_ordered;
use vstd::arithmetic::power2::pow2;
use vstd::arithmetic::power2::lemma2_to64;
use vstd::arithmetic::power2::lemma_pow2_pos;
use vstd::arithmetic::power2::lemma_pow2_unfold;
use vstd::arithmetic::power2::lemma2_to64_rest;
use vstd::prelude::*;

verus! {

/// The bit pattern of the popcount guess: shifting it left by the leading-zero
/// count of `x` leaves one set bit per decade below `x`'s bit length.
pub const LZ_GUESSMASK: u32 = 0b01001001000100100100010010010000;

/// The 32-bit multiplicative guess: `floor(log2(x))` scaled by `9/32`, an
/// integer approximation of `log10(2)`.
pub open spec fn mul9_guess(l: nat) -> nat {
    (l * 9) / 32
}

/// The 64-bit multiplicative guess: `floor(log2(x))` scaled by the tighter
/// approximation `19/64`.
pub open spec fn mul19_guess(l: nat) -> nat {
    (l * 19) / 64
}

/// The guess of `ilog10_mul_or`: `m` is the bit length, minus one, of
/// `(x | 7) >> 1`, scaled by `5/16`.
pub open spec fn mul5_guess(m: nat) -> nat {
    (m * 5) / 16
}

/// The popcount guess, as a function of the leading-zero count of `x`.
pub open spec fn popc_guess(lz: nat) -> nat {
    popcount((LZ_GUESSMASK << (lz as u32)) as nat)
}

/// The bit-length-indexed guess table of `log10_table_table`.
pub open spec fn table_guess(l: nat) -> nat {
    if l <= 3 {
        0
    } else if l <= 6 {
        1
    } else if l <= 9 {
        2
    } else if l <= 13 {
        3
    } else if l <= 16 {
        4
    } else if l <= 19 {
        5
    } else if l <= 23 {
        6
    } else if l <= 26 {
        7
    } else if l <= 29 {
        8
    } else {
        9
    }
}

/// A guess `g` for bit length `l` is sound when the whole octave
/// `[2^l, 2^(l+1))` lies inside `[10^g, 10^(g+2))`: every value of that bit
/// length then has floor log10 equal to `g` or `g + 1`.
pub open spec fn guess_ok(g: nat, l: nat, gmax: nat) -> bool {
    g <= gmax && pow10(g) <= pow2(l) && pow2((l + 1) as nat) <= pow10((g + 2) as nat)
}

proof fn lemma_mul9_guess_ok(l: nat)
    requires
        l <= 31,
    ensures
        guess_ok(mul9_guess(l), l, 8),
{
    lemma_pow10_values();
    lemma2_to64();
}

proof fn lemma_mul19_guess_ok(l: nat)
    requires
        l <= 63,
    ensures
        guess_ok(mul19_guess(l), l, 18),
{
    lemma_pow10_values();
    lemma2_to64();
    lemma2_to64_rest();
}

proof fn lemma_mul5_guess_ok(m: nat)
    requires
        2 <= m <= 30,
    ensures
        guess_ok(mul5_guess(m), (m + 1) as nat, 9),
{
    lemma_pow10_values();
    lemma2_to64();
}

proof fn lemma_table_guess_ok(l: nat)
    requires
        l <= 31,
    ensures
        guess_ok(table_guess(l), l, 9),
{
    lemma_pow10_values();
    lemma2_to64();
}

/// Doubling a value shifts its bits up and so keeps its popcount.
proof fn lemma_popcount_double(x: nat)
    ensures
        popcount((2 * x) as nat) == popcount(x),
{
    if x == 0 {
    } else {
        assert((2 * x) % 2 == 0);
        assert((2 * x) / 2 == x);
    }
}

/// Scaling by a power of two keeps the popcount.
proof fn lemma_popcount_times_pow2(x: nat, k: nat)
    ensures
        popcount((x * pow2(k)) as nat) == popcount(x),
    decreases k,
{
    if k == 0 {
        lemma2_to64();
    } else {
        lemma_popcount_times_pow2(x, (k - 1) as nat);
        lemma_pow2_unfold(k);
        assert(x * pow2(k) == 2 * (x * pow2((k - 1) as nat))) by (nonlinear_arith)
            requires
                pow2(k) == 2 * pow2((k - 1) as nat),
        ;
        lemma_popcount_double((x * pow2((k - 1) as nat)) as nat);
    }
}

/// Setting a bit above every set bit adds exactly one to the popcount.
proof fn lemma_popcount_add_pow2(x: nat, j: nat)
    requires
        x < pow2(j),
    ensures
        popcount((x + pow2(j)) as nat) == 1 + popcount(x),
    decreases j,
{
    lemma_pow2_pos(j);
    let y = (x + pow2(j)) as nat;
    if j == 0 {
        lemma2_to64();
    } else {
        lemma_pow2_unfold(j);
        assert(y % 2 == x % 2);
        assert(y / 2 == x / 2 + pow2((j - 1) as nat));
        lemma_popcount_add_pow2((x / 2) as nat, (j - 1) as nat);
        if x == 0 {
        } else {
            assert(popcount(x) == x % 2 + popcount((x / 2) as nat));
        }
    }
}

/// The popcount of the guess mask truncated below each of its set bits,
/// built up one bit at a time.
proof fn lemma_guessmask_prefix_popcounts()
    ensures
        popcount(0x10) == 1,
        popcount(0x90) == 2,
        popcount(0x490) == 3,
        popcount(0x4490) == 4,
        popcount(0x24490) == 5,
        popcount(0x124490) == 6,
        popcount(0x1124490) == 7,
        popcount(0x9124490) == 8,
        popcount(0x49124490) == 9,
{
    lemma2_to64();
    lemma_popcount_add_pow2(0, 4);
    lemma_popcount_add_pow2(0x10, 7);
    lemma_popcount_add_pow2(0x90, 10);
    lemma_popcount_add_pow2(0x490, 14);
    lemma_popcount_add_pow2(0x4490, 17);
    lemma_popcount_add_pow2(0x24490, 20);
    lemma_popcount_add_pow2(0x124490, 24);
    lemma_popcount_add_pow2(0x1124490, 27);
    lemma_popcount_add_pow2(0x9124490, 30);
}

/// The value of the popcount guess at every leading-zero count: each shifted
/// mask is a truncation of the guess mask scaled by a power of two.
proof fn lemma_popc_shift_values()
    ensures
        popc_guess(0) == 9,
        popc_guess(1) == 9,
        popc_guess(2) == 8,
        popc_guess(3) == 8,
        popc_guess(4) == 8,
        popc_guess(5) == 7,
        popc_guess(6) == 7,
        popc_guess(7) == 7,
        popc_guess(8) == 6,
        popc_guess(9) == 6,
        popc_guess(10) == 6,
        popc_guess(11) == 6,
        popc_guess(12) == 5,
        popc_guess(13) == 5,
        popc_guess(14) == 5,
        popc_guess(15) == 4,
        popc_guess(16) == 4,
        popc_guess(17) == 4,
        popc_guess(18) == 3,
        popc_guess(19) == 3,
        popc_guess(20) == 3,
        popc_guess(21) == 3,
        popc_guess(22) == 2,
        popc_guess(23) == 2,
        popc_guess(24) == 2,
        popc_guess(25) == 1,
        popc_guess(26) == 1,
        popc_guess(27) == 1,
        popc_guess(28) == 0,
        popc_guess(29) == 0,
        popc_guess(30) == 0,
        popc_guess(31) == 0,
{
    assert(
        (LZ_GUESSMASK << 0u32) == 0x49124490u32 &&
        (LZ_GUESSMASK << 1u32) == 0x92248920u32 &&
        (LZ_GUESSMASK << 2u32) == 0x24491240u32 &&
        (LZ_GUESSMASK << 3u32) == 0x48922480u32 &&
        (LZ_GUESSMASK << 4u32) == 0x91244900u32 &&
        (LZ_GUESSMASK << 5u32) == 0x22489200u32 &&
        (LZ_GUESSMASK << 6u32) == 0x44912400u32 &&
        (LZ_GUESSMASK << 7u32) == 0x89224800u32 &&
        (LZ_GUESSMASK << 8u32) == 0x12449000u32 &&
        (LZ_GUESSMASK << 9u32) == 0x24892000u32 &&
        (LZ_GUESSMASK << 10u32) == 0x49124000u32 &&
        (LZ_GUESSMASK << 11u32) == 0x92248000u32 &&
        (LZ_GUESSMASK << 12u32) == 0x24490000u32 &&
        (LZ_GUESSMASK << 13u32) == 0x48920000u32 &&
        (LZ_GUESSMASK << 14u32) == 0x91240000u32 &&
        (LZ_GUESSMASK << 15u32) == 0x22480000u32 &&
        (LZ_GUESSMASK << 16u32) == 0x44900000u32 &&
        (LZ_GUESSMASK << 17u32) == 0x89200000u32 &&
        (LZ_GUESSMASK << 18u32) == 0x12400000u32 &&
        (LZ_GUESSMASK << 19u32) == 0x24800000u32 &&
        (LZ_GUESSMASK << 20u32) == 0x49000000u32 &&
        (LZ_GUESSMASK << 21u32) == 0x92000000u32 &&
        (LZ_GUESSMASK << 22u32) == 0x24000000u32 &&
        (LZ_GUESSMASK << 23u32) == 0x48000000u32 &&
        (LZ_GUESSMASK << 24u32) == 0x90000000u32 &&
        (LZ_GUESSMASK << 25u32) == 0x20000000u32 &&
        (LZ_GUESSMASK << 26u32) == 0x40000000u32 &&
        (LZ_GUESSMASK << 27u32) == 0x80000000u32 &&
        (LZ_GUESSMASK << 28u32) == 0u32 &&
        (LZ_GUESSMASK << 29u32) == 0u32 &&
        (LZ_GUESSMASK << 30u32) == 0u32 &&
        (LZ_GUESSMASK << 31u32) == 0u32
    ) by (bit_vector);
    lemma_guessmask_prefix_popcounts();
    lemma2_to64();
    lemma_popcount_times_pow2(0x49124490, 1);
    assert(0x49124490 * pow2(1) == 0x92248920);
    lemma_popcount_times_pow2(0x9124490, 2);
    assert(0x9124490 * pow2(2) == 0x24491240);
    lemma_popcount_times_pow2(0x9124490, 3);
    assert(0x9124490 * pow2(3) == 0x48922480);
    lemma_popcount_times_pow2(0x9124490, 4);
    assert(0x9124490 * pow2(4) == 0x91244900);
    lemma_popcount_times_pow2(0x1124490, 5);
    assert(0x1124490 * pow2(5) == 0x22489200);
    lemma_popcount_times_pow2(0x1124490, 6);
    assert(0x1124490 * pow2(6) == 0x44912400);
    lemma_popcount_times_pow2(0x1124490, 7);
    assert(0x1124490 * pow2(7) == 0x89224800);
    lemma_popcount_times_pow2(0x124490, 8);
    assert(0x124490 * pow2(8) == 0x12449000);
    lemma_popcount_times_pow2(0x124490, 9);
    assert(0x124490 * pow2(9) == 0x24892000);
    lemma_popcount_times_pow2(0x124490, 10);
    assert(0x124490 * pow2(10) == 0x49124000);
    lemma_popcount_times_pow2(0x124490, 11);
    assert(0x124490 * pow2(11) == 0x92248000);
    lemma_popcount_times_pow2(0x24490, 12);
    assert(0x24490 * pow2(12) == 0x24490000);
    lemma_popcount_times_pow2(0x24490, 13);
    assert(0x24490 * pow2(13) == 0x48920000);
    lemma_popcount_times_pow2(0x24490, 14);
    assert(0x24490 * pow2(14) == 0x91240000);
    lemma_popcount_times_pow2(0x4490, 15);
    assert(0x4490 * pow2(15) == 0x22480000);
    lemma_popcount_times_pow2(0x4490, 16);
    assert(0x4490 * pow2(16) == 0x44900000);
    lemma_popcount_times_pow2(0x4490, 17);
    assert(0x4490 * pow2(17) == 0x89200000);
    lemma_popcount_times_pow2(0x490, 18);
    assert(0x490 * pow2(18) == 0x12400000);
    lemma_popcount_times_pow2(0x490, 19);
    assert(0x490 * pow2(19) == 0x24800000);
    lemma_popcount_times_pow2(0x490, 20);
    assert(0x490 * pow2(20) == 0x49000000);
    lemma_popcount_times_pow2(0x490, 21);
    assert(0x490 * pow2(21) == 0x92000000);
    lemma_popcount_times_pow2(0x90, 22);
    assert(0x90 * pow2(22) == 0x24000000);
    lemma_popcount_times_pow2(0x90, 23);
    assert(0x90 * pow2(23) == 0x48000000);
    lemma_popcount_times_pow2(0x90, 24);
    assert(0x90 * pow2(24) == 0x90000000);
    lemma_popcount_times_pow2(0x10, 25);
    assert(0x10 * pow2(25) == 0x20000000);
    lemma_popcount_times_pow2(0x10, 26);
    assert(0x10 * pow2(26) == 0x40000000);
    lemma_popcount_times_pow2(0x10, 27);
    assert(0x10 * pow2(27) == 0x80000000);
}

pub(crate) proof fn lemma_popc_guess_ok(lz: nat)
    requires
        lz <= 31,
    ensures
        guess_ok(popc_guess(lz), (31 - lz) as nat, 9),
{
    lemma_popc_shift_values();
    lemma_pow10_values();
    lemma2_to64();
}

/// The popcount guess never decreases as `x` grows.
pub proof fn lemma_popc_guess_monotone(x1: nat, x2: nat)
    requires
        1 <= x1,
        x1 <= x2,
        x2 <= 0xffff_ffff,
    ensures
        popc_guess((31 - log2(x1)) as nat) <= popc_guess((31 - log2(x2)) as nat),
{
    lemma_log2_is_ordered(x1, x2);
    lemma2_to64();
    lemma_log2_from_upper(x2, 32);
    lemma_popc_shift_values();
}

/// A sound guess for the bit length of `x` brackets `floor(log10(x))` from
/// one below: `g <= log10(x) <= g + 1`.
pub proof fn lemma_guess_brackets(x: nat, g: nat, gmax: nat)
    requires
        1 <= x,
        guess_ok(g, log2(x), gmax),
    ensures
        g <= log10(x),
        log10(x) <= g + 1,
{
    lemma_log2_bounds(x);
    lemma_log10_from_lower(x, g);
    lemma_log10_from_upper(x, (g + 2) as nat);
}

/// The guess of `ilog10_mul_or`, as a function of the value itself.
pub open spec fn or_guess(x: u32) -> nat {
    mul5_guess(log2((((x | 7) >> 1) as u32) as nat))
}

/// `(x | 7) >> 1` has bit length exactly one less than the larger of `x`
/// and 7: forcing the low bits gives small values a common bit length.
proof fn lemma_or_input_log2(x: u32)
    requires
        x >= 1,
    ensures
        x < 8 ==> log2((((x | 7) >> 1) as u32) as nat) == 1,
        x >= 8 ==> log2((((x | 7) >> 1) as u32) as nat) == log2(x as nat) - 1,
        x >= 8 ==> 2 <= log2(x as nat) - 1 <= 30,
{
    let y = ((x | 7) >> 1) as u32;
    assert((((x | 7) >> 1) as u32) == (x >> 3) * 4 + 3) by (bit_vector);
    lemma_u32_shr_is_div(x, 3);
    lemma2_to64();
    let q = (x as nat) / 8;
    if x < 8 {
        lemma_basic_div(x as int, 8);
        lemma_log2_unique(3, 1);
    } else {
        let l = log2(x as nat);
        lemma_log2_from_lower(x as nat, 3);
        lemma_log2_from_upper(x as nat, 32);
        lemma_log2_bounds(x as nat);
        assert(q >= pow2((l - 3) as nat)) by {
            lemma_pow2_adds((l - 3) as nat, 3);
            lemma_div_is_ordered(pow2(l) as int, x as int, 8);
            lemma_div_multiples_vanish(pow2((l - 3) as nat) as int, 8);
        }
        assert(q < pow2((l - 2) as nat)) by {
            lemma_pow2_adds((l - 2) as nat, 3);
            lemma_multiply_divide_lt(x as int, 8, pow2((l - 2) as nat) as int);
        }
        lemma_pow2_adds((l - 3) as nat, 2);
        lemma_pow2_adds((l - 2) as nat, 2);
        assert(pow2((l - 1) as nat) <= y);
        assert((y as nat) < pow2(l));
        lemma_log2_unique(y as nat, (l - 1) as nat);
    }
}

/// Bounded error and table-index safety of the 9/32 guess: it is
/// `floor(log10(x))` or one less, and stays inside the ten-entry table.
pub proof fn lemma_mul9_guess_bounds(x: nat)
    requires
        1 <= x,
        x <= 0xffff_ffff,
    ensures
        mul9_guess(log2(x)) <= log10(x),
        log10(x) <= mul9_guess(log2(x)) + 1,
        mul9_guess(log2(x)) <= 8,
{
    lemma2_to64();
    lemma_log2_from_upper(x, 32);
    lemma_mul9_guess_ok(log2(x));
    lemma_guess_brackets(x, mul9_guess(log2(x)), 8);
}

/// Bounded error and table-index safety of the 19/64 guess.
pub proof fn lemma_mul19_guess_bounds(x: nat)
    requires
        1 <= x,
        x <= 0xffff_ffff_ffff_ffff,
    ensures
        mul19_guess(log2(x)) <= log10(x),
        log10(x) <= mul19_guess(log2(x)) + 1,
        mul19_guess(log2(x)) <= 18,
{
    lemma2_to64();
    lemma_log2_from_upper(x, 64);
    lemma_mul19_guess_ok(log2(x));
    lemma_guess_brackets(x, mul19_guess(log2(x)), 18);
}

/// Bounded error and table-index safety of the table guess.
pub proof fn lemma_table_guess_bounds(x: nat)
    requires
        1 <= x,
        x <= 0xffff_ffff,
    ensures
        table_guess(log2(x)) <= log10(x),
        log10(x) <= table_guess(log2(x)) + 1,
        table_guess(log2(x)) <= 9,
{
    lemma2_to64();
    lemma_log2_from_upper(x, 32);
    lemma_table_guess_ok(log2(x));
    lemma_guess_brackets(x, table_guess(log2(x)), 9);
}

/// Bounded error and table-index safety of the popcount guess.
pub proof fn lemma_popc_guess_bounds(x: nat)
    requires
        1 <= x,
        x <= 0xffff_ffff,
    ensures
        popc_guess((31 - log2(x)) as nat) <= log10(x),
        log10(x) <= popc_guess((31 - log2(x)) as nat) + 1,
        popc_guess((31 - log2(x)) as nat) <= 9,
{
    lemma2_to64();
    lemma_log2_from_upper(x, 32);
    let lz = (31 - log2(x)) as nat;
    lemma_popc_guess_ok(lz);
    lemma_guess_brackets(x, popc_guess(lz), 9);
}

/// Bounded error and table-index safety of the `ilog10_mul_or` guess.
pub proof fn lemma_or_guess_bounds(x: u32)
    requires
        x >= 1,
    ensures
        or_guess(x) <= log10(x as nat),
        log10(x as nat) <= or_guess(x) + 1,
        or_guess(x) <= 9,
{
    lemma_or_input_log2(x);
    if x < 8 {
        lemma_pow10_values();
        lemma_log10_from_upper(x as nat, 1);
    } else {
        let m = (log2(x as nat) - 1) as nat;
        lemma_mul5_guess_ok(m);
        lemma_guess_brackets(x as nat, mul5_guess(m), 9);
    }
}

/// The `ilog10_mul_or` guess never decreases as `x` grows.
pub proof fn lemma_or_guess_monotone(x1: u32, x2: u32)
    requires
        1 <= x1,
        x1 <= x2,
    ensures
        or_guess(x1) <= or_guess(x2),
{
    let y1 = ((x1 | 7) >> 1) as u32;
    let y2 = ((x2 | 7) >> 1) as u32;
    assert((((x1 | 7) >> 1) as u32) == (x1 >> 3) * 4 + 3) by (bit_vector);
    assert((((x2 | 7) >> 1) as u32) == (x2 >> 3) * 4 + 3) by (bit_vector);
    lemma_u32_shr_is_div(x1, 3);
    lemma_u32_shr_is_div(x2, 3);
    lemma2_to64();
    lemma_div_is_ordered(x1 as int, x2 as int, 8);
    lemma_log2_is_ordered(y1 as nat, y2 as nat);
    lemma_div_is_ordered((log2(y1 as nat) * 5) as int, (log2(y2 as nat) * 5) as int, 16);
}

/// The 9/32 guess never decreases as `x` grows.
pub proof fn lemma_mul9_guess_monotone(x1: nat, x2: nat)
    requires
        1 <= x1,
        x1 <= x2,
    ensures
        mul9_guess(log2(x1)) <= mul9_guess(log2(x2)),
{
    lemma_log2_is_ordered(x1, x2);
    lemma_div_is_ordered((log2(x1) * 9) as int, (log2(x2) * 9) as int, 32);
}

/// The 19/64 guess never decreases as `x` grows.
pub proof fn lemma_mul19_guess_monotone(x1: nat, x2: nat)
    requires
        1 <= x1,
        x1 <= x2,
    ensures
        mul19_guess(log2(x1)) <= mul19_guess(log2(x2)),
{
    lemma_log2_is_ordered(x1, x2);
    lemma_div_is_ordered((log2(x1) * 19) as int, (log2(x2) * 19) as int, 64);
}

/// The table guess never decreases as `x` grows.
pub proof fn lemma_table_guess_monotone(x1: nat, x2: nat)
    requires
        1 <= x1,
        x1 <= x2,
    ensures
        table_guess(log2(x1)) <= table_guess(log2(x2)),
{
    lemma_log2_is_ordered(x1, x2);
}

} // verus!
