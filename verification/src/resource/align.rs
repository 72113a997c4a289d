//! Alignment arithmetic.
use vstd::arithmetic::power2::lemma_pow2_adds;
use vstd::arithmetic::power2::lemma_pow2_pos;
use vstd::arithmetic::power2::lemma_pow2_strictly_increases;
use vstd::arithmetic::power2::pow2;
use vstd::prelude::*;

verus! {

/// The smallest multiple of `alignment` that is at least `value`.
pub open spec fn aligned_up(value: int, alignment: int) -> int {
    if value % alignment == 0 {
        value
    } else {
        value - value % alignment + alignment
    }
}

/// The largest multiple of `alignment` that is at most `value`.
pub open spec fn aligned_down(value: int, alignment: int) -> int {
    value - value % alignment
}

/// Whether `x` is a power of two.
pub open spec fn is_pow2(x: int) -> bool {
    exists|n: nat| #[trigger] pow2(n) == x
}

/// Rounds `value` up to a multiple of `alignment`.
pub fn align_up(value: u64, alignment: u64) -> (r: u64)
    requires
        alignment > 0,
        aligned_up(value as int, alignment as int) <= u64::MAX,
    ensures
        r == aligned_up(value as int, alignment as int),
{
    let rem: u64 = value % alignment;
    if rem == 0 {
        value
    } else {
        value + (alignment - rem)
    }
}

/// Rounds `value` down to a multiple of `alignment`.
pub fn align_down(value: u64, alignment: u64) -> (r: u64)
    requires
        alignment > 0,
    ensures
        r == aligned_down(value as int, alignment as int),
{
    proof {
        vstd::arithmetic::div_mod::lemma_mod_decreases(value as nat, alignment as nat);
    }
    value - value % alignment
}

/// A value that differs from a multiple by a multiple is a multiple.
pub proof fn lemma_multiple_sum(x: int, y: int, a: int)
    requires
        a > 0,
        x % a == 0,
        y % a == 0,
    ensures
        (x + y) % a == 0,
        (x - y) % a == 0,
{
    assert((x + y) % a == 0 && (x - y) % a == 0) by (nonlinear_arith)
        requires
            a > 0,
            x % a == 0,
            y % a == 0,
    {
        let p = x / a;
        let q = y / a;
        assert(x == a * p);
        assert(y == a * q);
        assert(x + y == a * (p + q));
        assert(x - y == a * (p - q));
        vstd::arithmetic::div_mod::lemma_mod_multiples_basic(p + q, a);
        vstd::arithmetic::div_mod::lemma_mod_multiples_basic(p - q, a);
    }
}

/// Rounding up gives a multiple, less than one step above the value.
pub proof fn lemma_aligned_up(value: int, alignment: int)
    requires
        alignment > 0,
    ensures
        aligned_up(value, alignment) % alignment == 0,
        value <= aligned_up(value, alignment) < value + alignment,
{
    vstd::arithmetic::div_mod::lemma_mod_bound(value, alignment);
    lemma_aligned_down(value, alignment);
    assert(alignment % alignment == 0) by {
        vstd::arithmetic::div_mod::lemma_mod_self_0(alignment);
    }
    lemma_multiple_sum(aligned_down(value, alignment), alignment, alignment);
}

/// Rounding down gives a multiple, less than one step below the value.
pub proof fn lemma_aligned_down(value: int, alignment: int)
    requires
        alignment > 0,
    ensures
        aligned_down(value, alignment) % alignment == 0,
        value - alignment < aligned_down(value, alignment) <= value,
{
    vstd::arithmetic::div_mod::lemma_mod_bound(value, alignment);
    vstd::arithmetic::div_mod::lemma_fundamental_div_mod(value, alignment);
    vstd::arithmetic::div_mod::lemma_mod_multiples_basic(value / alignment, alignment);
    assert(alignment * (value / alignment) == (value / alignment) * alignment) by (nonlinear_arith);
}

/// The rounded value is the least multiple that is not below the value.
pub proof fn lemma_aligned_up_least(value: int, alignment: int, m: int)
    requires
        alignment > 0,
        m % alignment == 0,
        value <= m,
    ensures
        aligned_up(value, alignment) <= m,
{
    lemma_aligned_up(value, alignment);
    let r = aligned_up(value, alignment);
    lemma_multiple_sum(r, m, alignment);
    if m < r {
        assert(0 < r - m < alignment);
        vstd::arithmetic::div_mod::lemma_small_mod((r - m) as nat, alignment as nat);
    }
}

/// Rounding up is monotone.
pub proof fn lemma_aligned_up_monotone(x: int, y: int, alignment: int)
    requires
        alignment > 0,
        x <= y,
    ensures
        aligned_up(x, alignment) <= aligned_up(y, alignment),
{
    lemma_aligned_up(y, alignment);
    lemma_aligned_up_least(x, alignment, aligned_up(y, alignment));
}

/// Rounding up commutes with adding a multiple.
pub proof fn lemma_aligned_up_shift(base: int, x: int, alignment: int)
    requires
        alignment > 0,
        base % alignment == 0,
    ensures
        aligned_up(base + x, alignment) == base + aligned_up(x, alignment),
{
    lemma_aligned_up(x, alignment);
    lemma_aligned_up(base + x, alignment);
    lemma_multiple_sum(base, aligned_up(x, alignment), alignment);
    lemma_aligned_up_least(base + x, alignment, base + aligned_up(x, alignment));
    lemma_multiple_sum(aligned_up(base + x, alignment), base, alignment);
    lemma_aligned_up_least(x, alignment, aligned_up(base + x, alignment) - base);
}

/// A power of two is a multiple of each smaller power of two.
pub proof fn lemma_pow2_divides(a: int, b: int)
    requires
        is_pow2(a),
        is_pow2(b),
        a <= b,
    ensures
        a > 0,
        b % a == 0,
{
    let m = choose|n: nat| #[trigger] pow2(n) == a;
    let n = choose|n: nat| #[trigger] pow2(n) == b;
    lemma_pow2_pos(m);
    if n < m {
        lemma_pow2_strictly_increases(n, m);
    }
    let k = (n - m) as nat;
    lemma_pow2_adds(k, m);
    vstd::arithmetic::div_mod::lemma_mod_multiples_basic(pow2(k) as int, pow2(m) as int);
}

/// A multiple of a multiple is a multiple.
pub proof fn lemma_multiple_trans(x: int, b: int, a: int)
    requires
        a > 0,
        b > 0,
        x % b == 0,
        b % a == 0,
    ensures
        x % a == 0,
{
    assert(x % a == 0) by (nonlinear_arith)
        requires
            a > 0,
            b > 0,
            x % b == 0,
            b % a == 0,
    {
        let p = x / b;
        let q = b / a;
        assert(x == b * p);
        assert(b == a * q);
        assert(x == (q * p) * a);
        vstd::arithmetic::div_mod::lemma_mod_multiples_basic(q * p, a);
    }
}

/// A power of two is positive.
pub proof fn lemma_pow2_positive(x: int)
    requires
        is_pow2(x),
    ensures
        x > 0,
{
    let n = choose|n: nat| #[trigger] pow2(n) == x;
    lemma_pow2_pos(n);
}

/// The bridge window granularity of 1 MB is a power of two.
pub proof fn lemma_window_align_pow2()
    ensures
        is_pow2(0x10_0000),
{
    vstd::arithmetic::power2::lemma2_to64();
    vstd::arithmetic::power2::lemma2_to64_rest();
    assert(pow2(20) == 0x10_0000);
}

}
