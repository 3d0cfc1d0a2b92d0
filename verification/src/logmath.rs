//! Mathematical model shared by every contract in this crate: powers of two
//! and ten, and the integer (floor) base-2 and base-10 logarithms.

use vstd::arithmetic::div_mod::lemma_div_is_ordered;
use vstd::arithmetic::div_mod::lemma_div_multiples_vanish;
use vstd::arithmetic::div_mod::lemma_multiply_divide_lt;
use vstd::arithmetic::mul::lemma_mul_is_associative;
use vstd::arithmetic::power2::pow2;
use vstd::arithmetic::power2::lemma_pow2_pos;
use vstd::arithmetic::power2::lemma_pow2_unfold;
use vstd::arithmetic::power2::lemma_pow2_strictly_increases;
use vstd::arithmetic::power2::lemma2_to64;
use vstd::prelude::*;

verus! {

/// 10 to the power `e`, as a mathematical natural.
pub open spec fn pow10(e: nat) -> nat
    decreases e,
{
    if e == 0 {
        1
    } else {
        10 * pow10((e - 1) as nat)
    }
}

/// `floor(log10(x))`: the decimal digit count of `x` minus one.
/// Meaningful only for `x >= 1`.
pub open spec fn log10(x: nat) -> nat
    recommends
        x >= 1,
    decreases x,
{
    if x < 10 {
        0
    } else {
        (1 + log10(x / 10)) as nat
    }
}

/// `floor(log2(x))`: the bit length of `x` minus one. Meaningful only for `x >= 1`.
pub open spec fn log2(x: nat) -> nat
    recommends
        x >= 1,
    decreases x,
{
    if x < 2 {
        0
    } else {
        (1 + log2(x / 2)) as nat
    }
}

pub proof fn lemma_pow10_pos(e: nat)
    ensures
        pow10(e) >= 1,
    decreases e,
{
    if e > 0 {
        lemma_pow10_pos((e - 1) as nat);
    }
}

/// `10^(a + b) == 10^a * 10^b`.
pub proof fn lemma_pow10_adds(a: nat, b: nat)
    ensures
        pow10((a + b) as nat) == pow10(a) * pow10(b),
    decreases a,
{
    if a == 0 {
        assert(pow10(0) == 1);
        assert(pow10((0 + b) as nat) == 1 * pow10(b));
    } else {
        lemma_pow10_adds((a - 1) as nat, b);
        assert(pow10((a + b) as nat) == 10 * pow10((a + b - 1) as nat));
        assert(pow10(a) == 10 * pow10((a - 1) as nat));
        lemma_mul_is_associative(10, pow10((a - 1) as nat) as int, pow10(b) as int);
        assert(pow10((a + b) as nat) == pow10(a) * pow10(b));
    }
}

pub proof fn lemma_pow10_increases(e1: nat, e2: nat)
    requires
        e1 <= e2,
    ensures
        pow10(e1) <= pow10(e2),
    decreases e2,
{
    if e1 < e2 {
        lemma_pow10_increases(e1, (e2 - 1) as nat);
        lemma_pow10_pos((e2 - 1) as nat);
    }
}

/// The concrete powers of ten up to `10^20`, which bracket every `u64`.
pub proof fn lemma_pow10_values()
    ensures
        pow10(0) == 1,
        pow10(1) == 10,
        pow10(2) == 100,
        pow10(3) == 1000,
        pow10(4) == 10000,
        pow10(5) == 100000,
        pow10(6) == 1000000,
        pow10(7) == 10000000,
        pow10(8) == 100000000,
        pow10(9) == 1000000000,
        pow10(10) == 10000000000,
        pow10(11) == 100000000000,
        pow10(12) == 1000000000000,
        pow10(13) == 10000000000000,
        pow10(14) == 100000000000000,
        pow10(15) == 1000000000000000,
        pow10(16) == 10000000000000000,
        pow10(17) == 100000000000000000,
        pow10(18) == 1000000000000000000,
        pow10(19) == 10000000000000000000,
        pow10(20) == 100000000000000000000,
{
    assert(pow10(0) == 1);
    assert(pow10(1) == 10);
    assert(pow10(2) == 100);
    assert(pow10(3) == 1000);
    assert(pow10(4) == 10000);
    assert(pow10(5) == 100000);
    assert(pow10(6) == 1000000);
    assert(pow10(7) == 10000000);
    assert(pow10(8) == 100000000);
    assert(pow10(9) == 1000000000);
    assert(pow10(10) == 10000000000);
    assert(pow10(11) == 100000000000);
    assert(pow10(12) == 1000000000000);
    assert(pow10(13) == 10000000000000);
    assert(pow10(14) == 100000000000000);
    assert(pow10(15) == 1000000000000000);
    assert(pow10(16) == 10000000000000000);
    assert(pow10(17) == 100000000000000000);
    assert(pow10(18) == 1000000000000000000);
    assert(pow10(19) == 10000000000000000000);
    assert(pow10(20) == 100000000000000000000);
}

/// Every `x >= 1` lies in the decade `[10^log10(x), 10^(log10(x) + 1))`.
pub proof fn lemma_log10_bounds(x: nat)
    requires
        x >= 1,
    ensures
        pow10(log10(x)) <= x,
        x < pow10((log10(x) + 1) as nat),
    decreases x,
{
    if x < 10 {
    } else {
        lemma_log10_bounds(x / 10);
        let d = log10(x / 10);
        assert(pow10((d + 1) as nat) == 10 * pow10(d));
        assert(pow10((d + 2) as nat) == 10 * pow10((d + 1) as nat));
        assert(x >= 10 * (x / 10));
        assert(x < 10 * (x / 10) + 10);
    }
}

/// If `10^d <= x` then `log10(x) >= d`.
pub proof fn lemma_log10_from_lower(x: nat, d: nat)
    requires
        pow10(d) <= x,
    ensures
        d <= log10(x),
{
    lemma_pow10_pos(d);
    lemma_log10_bounds(x);
    if log10(x) < d {
        lemma_pow10_increases((log10(x) + 1) as nat, d);
    }
}

/// If `x < 10^d` then `log10(x) < d`.
pub proof fn lemma_log10_from_upper(x: nat, d: nat)
    requires
        1 <= x,
        x < pow10(d),
    ensures
        log10(x) < d,
{
    lemma_log10_bounds(x);
    if log10(x) >= d {
        lemma_pow10_increases(d, log10(x));
    }
}

/// `log10` is the unique `d` with `10^d <= x < 10^(d + 1)`.
pub proof fn lemma_log10_unique(x: nat, d: nat)
    requires
        pow10(d) <= x,
        x < pow10((d + 1) as nat),
    ensures
        log10(x) == d,
{
    lemma_pow10_pos(d);
    lemma_log10_from_lower(x, d);
    lemma_log10_from_upper(x, (d + 1) as nat);
}

/// `log10` never decreases when its argument grows.
pub proof fn lemma_log10_is_ordered(x: nat, y: nat)
    requires
        1 <= x,
        x <= y,
    ensures
        log10(x) <= log10(y),
{
    lemma_log10_bounds(x);
    lemma_log10_bounds(y);
    if log10(y) < log10(x) {
        lemma_pow10_increases((log10(y) + 1) as nat, log10(x));
    }
}

/// Non-strict monotonicity of `pow2`.
pub proof fn lemma_pow2_le(e1: nat, e2: nat)
    requires
        e1 <= e2,
    ensures
        pow2(e1) <= pow2(e2),
{
    if e1 < e2 {
        lemma_pow2_strictly_increases(e1, e2);
    }
}

/// Every `x >= 1` lies in the octave `[2^log2(x), 2^(log2(x) + 1))`.
pub proof fn lemma_log2_bounds(x: nat)
    requires
        x >= 1,
    ensures
        pow2(log2(x)) <= x,
        x < pow2((log2(x) + 1) as nat),
    decreases x,
{
    if x < 2 {
        lemma2_to64();
    } else {
        lemma_log2_bounds(x / 2);
        let d = log2(x / 2);
        lemma_pow2_unfold((d + 1) as nat);
        lemma_pow2_unfold((d + 2) as nat);
        assert(x >= 2 * (x / 2));
        assert(x < 2 * (x / 2) + 2);
    }
}

/// If `2^d <= x` then `log2(x) >= d`.
pub proof fn lemma_log2_from_lower(x: nat, d: nat)
    requires
        pow2(d) <= x,
    ensures
        d <= log2(x),
{
    lemma_pow2_pos(d);
    lemma_log2_bounds(x);
    if log2(x) < d {
        lemma_pow2_le((log2(x) + 1) as nat, d);
    }
}

/// If `x < 2^d` then `log2(x) < d`.
pub proof fn lemma_log2_from_upper(x: nat, d: nat)
    requires
        1 <= x,
        x < pow2(d),
    ensures
        log2(x) < d,
{
    lemma_log2_bounds(x);
    if log2(x) >= d {
        lemma_pow2_le(d, log2(x));
    }
}

/// `log2` is the unique `d` with `2^d <= x < 2^(d + 1)`.
pub proof fn lemma_log2_unique(x: nat, d: nat)
    requires
        pow2(d) <= x,
        x < pow2((d + 1) as nat),
    ensures
        log2(x) == d,
{
    lemma_pow2_pos(d);
    lemma_log2_from_lower(x, d);
    lemma_log2_from_upper(x, (d + 1) as nat);
}

/// `log2` never decreases when its argument grows.
pub proof fn lemma_log2_is_ordered(x: nat, y: nat)
    requires
        1 <= x,
        x <= y,
    ensures
        log2(x) <= log2(y),
{
    lemma_log2_bounds(x);
    lemma_log2_bounds(y);
    if log2(y) < log2(x) {
        lemma_pow2_le((log2(y) + 1) as nat, log2(x));
    }
}

/// Dividing by `10^5` lowers the floor log10 by exactly 5.
pub proof fn lemma_log10_div_100000(x: nat)
    requires
        x >= 100000,
    ensures
        x / 100000 >= 1,
        log10((x / 100000) as nat) == log10(x) - 5,
{
    lemma_pow10_values();
    lemma_log10_from_lower(x, 5);
    lemma_log10_bounds(x);
    let d = log10(x);
    let q = x / 100000;
    lemma_pow10_adds((d - 5) as nat, 5);
    lemma_pow10_adds((d - 4) as nat, 5);
    assert(pow10(d) == pow10((d - 5) as nat) * 100000);
    assert(pow10((d + 1) as nat) == pow10((d - 4) as nat) * 100000);
    assert(q >= pow10((d - 5) as nat)) by {
        lemma_div_is_ordered(pow10(d) as int, x as int, 100000);
        lemma_div_multiples_vanish(pow10((d - 5) as nat) as int, 100000);
    }
    assert(q < pow10((d - 4) as nat)) by {
        lemma_multiply_divide_lt(x as int, 100000, pow10((d - 4) as nat) as int);
    }
    lemma_pow10_pos((d - 5) as nat);
    lemma_log10_unique(q, (d - 5) as nat);
}

} // verus!
