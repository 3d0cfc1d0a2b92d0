//! Concrete scenarios for every algorithm variant, plus sweeps over the
//! decade boundaries of both bit widths.

use ilog10::ilog32::ilog10;
use ilog10::ilog32::ilog10_mul;
use ilog10::ilog32::ilog10_mul_alt;
use ilog10::ilog32::ilog10_mul_or;
use ilog10::ilog32::ilog10_u32;
use ilog10::ilog32::ilogpopc;
use ilog10::ilog32::log10_table_table;
use ilog10::ilog64::ilog10_u64_mul;

#[test]
fn scenario_values_mul() {
    assert_eq!(ilog10_mul(9), 0);
    assert_eq!(ilog10_mul(10), 1);
    assert_eq!(ilog10_mul(99), 1);
    assert_eq!(ilog10_mul(100), 2);
    assert_eq!(ilog10_mul(999_999_999), 8);
    assert_eq!(ilog10_mul(u32::MAX), 9);
}

#[test]
fn scenario_values_u64() {
    assert_eq!(ilog10_u64_mul(u64::MAX), 19);
    assert_eq!(ilog10_u64_mul(1u64 << 62), 18);
    assert_eq!(ilog10_u64_mul(1), 0);
    assert_eq!(ilog10_u64_mul(9_999_999_999_999_999_999), 18);
    assert_eq!(ilog10_u64_mul(10_000_000_000_000_000_000), 19);
}

#[test]
fn all_variants_agree_on_scenarios() {
    for x in [1u32, 6, 7, 8, 9, 10, 99, 100, 999_999_999, 1_000_000_000, u32::MAX] {
        let expected = x.ilog10();
        assert_eq!(ilog10_u32(x), expected);
        assert_eq!(ilog10(x), expected);
        assert_eq!(ilog10_mul(x), expected);
        assert_eq!(ilog10_mul_or(x), expected);
        assert_eq!(ilog10_mul_alt(x), expected);
        assert_eq!(log10_table_table(x), expected);
    }
}

#[test]
fn decade_boundaries_u32() {
    for d in 1..=9u32 {
        let p = 10u32.pow(d);
        for x in [p - 1, p, p + 1] {
            let expected = x.ilog10();
            assert_eq!(ilog10_u32(x), expected);
            assert_eq!(ilog10(x), expected);
            assert_eq!(ilog10_mul(x), expected);
            assert_eq!(ilog10_mul_or(x), expected);
            assert_eq!(ilog10_mul_alt(x), expected);
            assert_eq!(log10_table_table(x), expected);
        }
    }
}

#[test]
fn octave_boundaries_u32() {
    for k in 0..32u32 {
        let p = 1u32 << k;
        for x in [p.saturating_sub(1).max(1), p, p.saturating_add(1)] {
            let expected = x.ilog10();
            assert_eq!(ilog10_u32(x), expected);
            assert_eq!(ilog10(x), expected);
            assert_eq!(ilog10_mul(x), expected);
            assert_eq!(ilog10_mul_or(x), expected);
            assert_eq!(ilog10_mul_alt(x), expected);
            assert_eq!(log10_table_table(x), expected);
        }
    }
}

#[test]
fn decade_boundaries_u64() {
    for d in 1..=19u32 {
        let p = 10u64.pow(d);
        for x in [p - 1, p, p + 1] {
            assert_eq!(ilog10_u64_mul(x), x.ilog10());
        }
    }
}

#[test]
fn popc_guess_is_bounded_and_monotone() {
    // Table-index safety on every leading-zero count, and monotonicity of
    // the guess as the value grows (the leading-zero count shrinks).
    let mut prev = 0u32;
    for lz in (0..=31u32).rev() {
        let g = ilogpopc(lz);
        assert!(g <= 9);
        assert!(g >= prev);
        prev = g;
    }
}

#[test]
fn popc_guess_within_one_of_truth() {
    // Bounded error of the popcount guess on a decade sweep.
    for d in 0..=9u32 {
        let x = 10u32.pow(d);
        let g = ilogpopc(x.leading_zeros());
        let t = x.ilog10();
        assert!(g <= t && t <= g + 1);
    }
}

#[test]
fn mul_guess_monotone_on_sweep() {
    // Monotonicity of the 9/32 guess, observed through the leading term of
    // the algorithm on a sweep of increasing values.
    let mut prev = 0u32;
    for k in 0..32u32 {
        let x = 1u32 << k;
        let g = (x.ilog2().wrapping_mul(9)) >> 5;
        assert!(g >= prev);
        prev = g;
    }
}

#[test]
fn exhaustive_small_range() {
    for x in 1u32..=65536 {
        let expected = x.ilog10();
        assert_eq!(ilog10_u32(x), expected);
        assert_eq!(ilog10(x), expected);
        assert_eq!(ilog10_mul(x), expected);
        assert_eq!(ilog10_mul_or(x), expected);
        assert_eq!(ilog10_mul_alt(x), expected);
        assert_eq!(log10_table_table(x), expected);
    }
}
