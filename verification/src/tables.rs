//! Per-digit-count threshold tables and the shared correction step.
//!
//! `threshold[i]` is the largest value whose floor log10 equals `i`; the last
//! 32-bit entry is clamped to `u32::MAX` because `10^10 - 1` would overflow.
//! A guess that is exact or one low is corrected by a single comparison
//! against its threshold entry.

use crate::logmath::log10;
use crate::logmath::pow10;
use crate::logmath::lemma_log10_from_lower;
use crate::logmath::lemma_log10_from_upper;
use crate::logmath::lemma_pow10_values;
use crate::logmath::lemma_pow10_pos;
use crate::logmath::lemma_pow10_increases;
use crate::logmath::lemma_log10_unique;
use vstd::prelude::*;

verus! {

/// Largest `u32` whose floor log10 is `i`; the final entry is `u32::MAX`.
pub open spec fn threshold32(i: nat) -> nat
    recommends
        i < 10,
{
    if i < 9 {
        (pow10((i + 1) as nat) - 1) as nat
    } else {
        0xffff_ffff as nat
    }
}

/// Largest `u64` whose floor log10 is `i` (here `10^19 - 1` fits, so no entry
/// needs clamping).
pub open spec fn threshold64(i: nat) -> nat
    recommends
        i < 19,
{
    (pow10((i + 1) as nat) - 1) as nat
}

/// The ten-entry 32-bit threshold table, as a checked lookup.
pub fn ten_thresholds(i: usize) -> (r: u32)
    requires
        i < 10,
    ensures
        r == threshold32(i as nat),
{
    proof {
        lemma_pow10_values();
    }
    match i {
        0 => 9,
        1 => 99,
        2 => 999,
        3 => 9999,
        4 => 99999,
        5 => 999999,
        6 => 9999999,
        7 => 99999999,
        8 => 999_999_999,
        _ => u32::MAX,
    }
}

/// The nineteen-entry 64-bit threshold table, as a checked lookup.
pub fn u64_thresholds(i: usize) -> (r: u64)
    requires
        i < 19,
    ensures
        r == threshold64(i as nat),
{
    proof {
        lemma_pow10_values();
    }
    match i {
        0 => 9,
        1 => 99,
        2 => 999,
        3 => 9999,
        4 => 99999,
        5 => 999999,
        6 => 9999999,
        7 => 99999999,
        8 => 999999999,
        9 => 9999999999,
        10 => 99999999999,
        11 => 999999999999,
        12 => 9999999999999,
        13 => 99999999999999,
        14 => 999999999999999,
        15 => 9999999999999999,
        16 => 99999999999999999,
        17 => 999999999999999999,
        _ => 9999999999999999999,
    }
}

/// The 32-bit table is strictly increasing, and each entry is the largest
/// `u32` whose floor log10 equals its index.
pub proof fn lemma_threshold32_invariant(i: nat)
    requires
        i < 10,
    ensures
        i + 1 < 10 ==> threshold32(i) < threshold32((i + 1) as nat),
        log10(threshold32(i)) == i,
        forall|x: nat| threshold32(i) < x <= 0xffff_ffff ==> log10(x) > i,
{
    lemma_pow10_values();
    lemma_pow10_pos(i);
    lemma_pow10_increases(i, 9);
    if i < 9 {
        lemma_log10_unique((pow10((i + 1) as nat) - 1) as nat, i);
    } else {
        lemma_log10_unique(0xffff_ffff, 9);
    }
    assert forall|x: nat| threshold32(i) < x <= 0xffff_ffff implies log10(x) > i by {
        if i < 9 {
            lemma_log10_from_lower(x, (i + 1) as nat);
        }
    }
}

/// The 64-bit table is strictly increasing, and each entry is the largest
/// `u64` of its digit class (the values past the final entry run over into
/// the twenty-digit class).
pub proof fn lemma_threshold64_invariant(i: nat)
    requires
        i < 19,
    ensures
        i + 1 < 19 ==> threshold64(i) < threshold64((i + 1) as nat),
        log10(threshold64(i)) == i,
        forall|x: nat| threshold64(i) < x <= 0xffff_ffff_ffff_ffff ==> log10(x) > i,
{
    lemma_pow10_values();
    lemma_pow10_pos(i);
    lemma_pow10_increases(i, 19);
    lemma_log10_unique((pow10((i + 1) as nat) - 1) as nat, i);
    assert forall|x: nat| threshold64(i) < x <= 0xffff_ffff_ffff_ffff implies log10(x) > i by {
        lemma_log10_from_lower(x, (i + 1) as nat);
    }
}

/// The bit-length-indexed guess table of `log10_table_table`, as a checked
/// lookup.
pub fn guess_table(i: usize) -> (r: u8)
    requires
        i <= 32,
    ensures
        r == crate::guess::table_guess(i as nat),
{
    match i {
        0 => 0,
        1 => 0,
        2 => 0,
        3 => 0,
        4 => 1,
        5 => 1,
        6 => 1,
        7 => 2,
        8 => 2,
        9 => 2,
        10 => 3,
        11 => 3,
        12 => 3,
        13 => 3,
        14 => 4,
        15 => 4,
        16 => 4,
        17 => 5,
        18 => 5,
        19 => 5,
        20 => 6,
        21 => 6,
        22 => 6,
        23 => 6,
        24 => 7,
        25 => 7,
        26 => 7,
        27 => 8,
        28 => 8,
        29 => 8,
        _ => 9,
    }
}

/// The correction step for 32-bit values: a guess that is exact or one low is
/// fixed exactly by one comparison against its threshold entry.
pub proof fn lemma_correct32(x: nat, g: nat)
    requires
        1 <= x,
        x <= 0xffff_ffff,
        g < 10,
        g <= log10(x),
        log10(x) <= g + 1,
    ensures
        x > threshold32(g) ==> log10(x) == g + 1,
        x <= threshold32(g) ==> log10(x) == g,
{
    lemma_pow10_values();
    if g < 9 {
        if x > threshold32(g) {
            lemma_log10_from_lower(x, (g + 1) as nat);
        } else {
            lemma_log10_from_upper(x, (g + 1) as nat);
        }
    } else {
        // Every u32 is below 10^10, so a guess of 9 is already exact.
        lemma_log10_from_upper(x, 10);
    }
}

/// The correction step for 64-bit values.
pub proof fn lemma_correct64(x: nat, g: nat)
    requires
        1 <= x,
        x <= 0xffff_ffff_ffff_ffff,
        g < 19,
        g <= log10(x),
        log10(x) <= g + 1,
    ensures
        x > threshold64(g) ==> log10(x) == g + 1,
        x <= threshold64(g) ==> log10(x) == g,
{
    lemma_pow10_values();
    if x > threshold64(g) {
        lemma_log10_from_lower(x, (g + 1) as nat);
    } else {
        lemma_log10_from_upper(x, (g + 1) as nat);
    }
}

} // verus!
