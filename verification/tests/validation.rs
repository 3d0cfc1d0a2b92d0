//! The validation harness pieces: the division-based reference, the
//! per-value checks, and the 64-bit boundary set.

use ilog10::validate::check_algorithm32;
use rand::RngExt;
use ilog10::validate::check_algorithm64;
use ilog10::validate::check_warren_boundary;
use ilog10::validate::check_warren_map;
use ilog10::validate::reference_log10_u64;
use ilog10::validate::warren_boundary_values;

#[test]
fn reference_matches_std() {
    for x in [1u64, 9, 10, 99, 100, 4_294_967_295, 4_294_967_296, u64::MAX] {
        assert_eq!(reference_log10_u64(x), x.ilog10());
    }
}

#[test]
fn check32_passes_on_samples() {
    for x in [1u32, 2, 9, 10, 99, 100_000, 999_999_999, u32::MAX] {
        assert!(check_algorithm32(x));
    }
}

#[test]
fn check64_passes_on_samples() {
    for x in [1u64, 10, 1u64 << 31, 1u64 << 32, 1u64 << 62, u64::MAX] {
        assert!(check_algorithm64(x));
    }
}

#[test]
fn warren_map_holds_on_samples() {
    for x in [1u64, 7, 8, 1023, 1024, 1u64 << 61, (1u64 << 63) - 1, u64::MAX] {
        assert!(check_warren_map(x));
    }
}

#[test]
fn boundary_set_contents() {
    let v = warren_boundary_values();
    assert_eq!(v.len(), 125);
    for k in 0..62 {
        assert_eq!(v[k], 1u64 << k);
    }
    for k in 2..64 {
        assert_eq!(v[60 + k], (1u128 << k) as u64 - 1);
    }
    assert_eq!(v[124], u64::MAX);
}

#[test]
fn boundary_check_passes() {
    assert!(check_warren_boundary());
}

#[test]
fn random_u64_sample_passes() {
    let mut rng = rand::rng();
    for _ in 0..100_000 {
        let x = rng.random::<u64>();
        if x >= 1 {
            assert!(check_algorithm64(x));
            assert!(check_warren_map(x));
        }
    }
}
