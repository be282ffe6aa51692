//! Shared integer arithmetic: truncating division (the kind the update
//! rules of this crate are specified with), the floor square root, and the
//! executable routines that compute both.

use vstd::prelude::*;
use vstd::arithmetic::div_mod::lemma_fundamental_div_mod;

verus! {

/// Truncating (round-toward-zero) division, the semantics of the update
/// rules in this crate.  Unspecified when `b == 0`.
pub open spec fn div_t(a: int, b: int) -> int {
    if a == 0 {
        0
    } else if a > 0 && b > 0 {
        a / b
    } else if a < 0 && b < 0 {
        (a * -1) / (b * -1)
    } else if a < 0 {
        ((a * -1) / b) * -1
    } else {
        (a / (b * -1)) * -1
    }
}

/// Absolute value over mathematical integers.
pub open spec fn abs_i(a: int) -> int {
    if a >= 0 {
        a
    } else {
        -a
    }
}

/// Floor of the real square root, defined by primitive recursion.
pub open spec fn sqrt_floor(n: nat) -> nat
    decreases n,
{
    if n == 0 {
        0
    } else {
        let r = sqrt_floor((n - 1) as nat);
        if (r + 1) * (r + 1) <= n {
            r + 1
        } else {
            r
        }
    }
}

/// `sqrt_floor(n)` really is the floor of the square root of `n`.
pub proof fn lemma_sqrt_floor(n: nat)
    ensures
        sqrt_floor(n) * sqrt_floor(n) <= n,
        n < (sqrt_floor(n) + 1) * (sqrt_floor(n) + 1),
    decreases n,
{
    if n == 0 {
        let s = sqrt_floor(n);
        assert(s == 0);
        assert((s + 1) * (s + 1) == 1) by (nonlinear_arith)
            requires
                s == 0nat,
        ;
    } else {
        lemma_sqrt_floor((n - 1) as nat);
        let r = sqrt_floor((n - 1) as nat);
        assert(r * r <= n - 1 && n - 1 < (r + 1) * (r + 1));
        if (r + 1) * (r + 1) <= n {
            assert(sqrt_floor(n) == r + 1);
            assert((r + 1) * (r + 1) < (r + 2) * (r + 2)) by (nonlinear_arith);
            assert(n <= (r + 1) * (r + 1));
            assert(n < (r + 2) * (r + 2));
        } else {
            assert(sqrt_floor(n) == r);
            assert(r * r <= n);
            assert(n < (r + 1) * (r + 1));
        }
        assert(sqrt_floor(n) * sqrt_floor(n) <= n);
        assert(n < (sqrt_floor(n) + 1) * (sqrt_floor(n) + 1));
    }
}

/// Any `r` with `r^2 <= n < (r+1)^2` is `sqrt_floor(n)`.
pub proof fn lemma_sqrt_floor_unique(n: nat, r: nat)
    requires
        r * r <= n,
        n < (r + 1) * (r + 1),
    ensures
        r == sqrt_floor(n),
{
    lemma_sqrt_floor(n);
    let s = sqrt_floor(n);
    if r < s {
        assert((r + 1) * (r + 1) <= s * s) by (nonlinear_arith)
            requires
                r + 1 <= s,
                r >= 0,
        ;
    }
    if s < r {
        assert((s + 1) * (s + 1) <= r * r) by (nonlinear_arith)
            requires
                s + 1 <= r,
                s >= 0,
        ;
    }
}

/// For a positive divisor, the truncated quotient is no larger in
/// magnitude than the dividend, and multiplying it back never overshoots.
pub proof fn lemma_div_t_bounds(a: int, b: int)
    requires
        b >= 1,
    ensures
        abs_i(div_t(a, b)) <= abs_i(a) / b,
        abs_i(a) / b <= abs_i(a),
        abs_i(div_t(a, b)) * b <= abs_i(a),
        a >= 0 ==> div_t(a, b) >= 0,
        a <= 0 ==> div_t(a, b) <= 0,
{
    let m = abs_i(a);
    lemma_fundamental_div_mod(m, b);
    assert(m == b * (m / b) + m % b);
    assert(0 <= m % b < b);
    assert(m / b >= 0) by {
        if m / b < 0 {
            assert(b * (m / b) <= -b) by (nonlinear_arith)
                requires
                    b >= 1,
                    m / b <= -1,
            ;
        }
    }
    assert((m / b) * b <= m) by (nonlinear_arith)
        requires
            b >= 1,
            m == b * (m / b) + m % b,
            m % b >= 0,
    ;
    assert(m / b <= m) by {
        assert(m / b <= (m / b) * b) by (nonlinear_arith)
            requires
                b >= 1,
                m / b >= 0,
        ;
    }
}

/// Powers of two.
pub open spec fn pow2_spec(e: nat) -> int
    decreases e,
{
    if e == 0 {
        1
    } else {
        2 * pow2_spec((e - 1) as nat)
    }
}

/// Floor of the base-2 logarithm of a positive number.
pub fn log2_floor(n: u64) -> (r: u64)
    requires
        n >= 1,
    ensures
        pow2_spec(r as nat) <= n < 2 * pow2_spec(r as nat),
{
    let mut p: u64 = 1;
    let mut r: u64 = 0;
    while p <= n / 2
        invariant
            1 <= p <= n,
            p == pow2_spec(r as nat),
        decreases n - p,
    {
        proof {
            lemma_pow2_gt_index(r as nat);
        }
        p = p * 2;
        r = r + 1;
    }
    r
}

/// Powers of two outgrow their exponent.
pub proof fn lemma_pow2_gt_index(e: nat)
    ensures
        pow2_spec(e) >= e + 1,
    decreases e,
{
    if e > 0 {
        lemma_pow2_gt_index((e - 1) as nat);
    }
}

/// Powers of two are positive.
pub proof fn lemma_pow2_pos(e: nat)
    ensures
        pow2_spec(e) >= 1,
    decreases e,
{
    if e > 0 {
        lemma_pow2_pos((e - 1) as nat);
    }
}

/// Powers of two grow monotonically.
pub proof fn lemma_pow2_mono(e: nat, f: nat)
    requires
        f <= e,
    ensures
        pow2_spec(e) >= pow2_spec(f),
    decreases e,
{
    if e > f {
        lemma_pow2_mono((e - 1) as nat, f);
        lemma_pow2_pos((e - 1) as nat);
    }
}

/// The floor base-2 logarithm as a specification function.
pub open spec fn log2_of(n: nat) -> nat
    decreases n,
{
    if n < 2 {
        0
    } else {
        1 + log2_of((n / 2) as nat)
    }
}

/// Any `r` with `2^r <= n < 2^(r+1)` is `log2_of(n)`.
pub proof fn lemma_log2_of(n: nat, r: nat)
    requires
        pow2_spec(r) <= n < 2 * pow2_spec(r),
    ensures
        log2_of(n) == r,
    decreases r,
{
    if r == 0 {
        assert(n == 1);
    } else {
        lemma_pow2_pos((r - 1) as nat);
        assert(pow2_spec(r) == 2 * pow2_spec((r - 1) as nat));
        assert(pow2_spec((r - 1) as nat) <= n / 2 < 2 * pow2_spec((r - 1) as nat));
        lemma_log2_of((n / 2) as nat, (r - 1) as nat);
    }
}

/// The first few powers of two, unfolded for concrete range arguments.
pub proof fn lemma_pow2_values()
    ensures
        pow2_spec(0) == 1,
        pow2_spec(1) == 2,
        pow2_spec(21) == 2_097_152,
{
    assert(pow2_spec(0) == 1);
    assert(pow2_spec(1) == 2);
    assert(pow2_spec(2) == 4);
    assert(pow2_spec(3) == 8);
    assert(pow2_spec(4) == 16);
    assert(pow2_spec(5) == 32);
    assert(pow2_spec(6) == 64);
    assert(pow2_spec(7) == 128);
    assert(pow2_spec(8) == 256);
    assert(pow2_spec(9) == 512);
    assert(pow2_spec(10) == 1024);
    assert(pow2_spec(11) == 2048);
    assert(pow2_spec(12) == 4096);
    assert(pow2_spec(13) == 8192);
    assert(pow2_spec(14) == 16_384);
    assert(pow2_spec(15) == 32_768);
    assert(pow2_spec(16) == 65_536);
    assert(pow2_spec(17) == 131_072);
    assert(pow2_spec(18) == 262_144);
    assert(pow2_spec(19) == 524_288);
    assert(pow2_spec(20) == 1_048_576);
    assert(pow2_spec(21) == 2_097_152);
}

/// `n <= m^2` bounds the floor square root by `m`.
pub proof fn lemma_sqrt_floor_le(n: nat, m: nat)
    requires
        n <= m * m,
    ensures
        sqrt_floor(n) <= m,
{
    lemma_sqrt_floor(n);
    let s = sqrt_floor(n);
    if s > m {
        assert((m + 1) * (m + 1) <= s * s) by (nonlinear_arith)
            requires
                m + 1 <= s,
        ;
        assert(m * m < (m + 1) * (m + 1)) by (nonlinear_arith);
    }
}

/// A positive radicand has a positive floor square root.
pub proof fn lemma_sqrt_floor_pos(n: nat)
    requires
        n >= 1,
    ensures
        sqrt_floor(n) >= 1,
{
    lemma_sqrt_floor(n);
    let s = sqrt_floor(n);
    if s == 0 {
        assert((s + 1) * (s + 1) == 1) by (nonlinear_arith)
            requires
                s == 0nat,
        ;
    }
}

/// The truncated quotient keeps the magnitude bound for either sign of
/// the divisor.
pub proof fn lemma_div_t_abs(a: int, b: int)
    requires
        b != 0,
    ensures
        abs_i(div_t(a, b)) <= abs_i(a),
        a >= 0 && b > 0 ==> div_t(a, b) >= 0,
        a <= 0 && b > 0 ==> div_t(a, b) <= 0,
{
    if b >= 1 {
        lemma_div_t_bounds(a, b);
    } else {
        lemma_div_t_bounds(a, -b);
        assert(div_t(a, b) == -div_t(a, -b));
    }
}

/// Truncating division of `i64` values, via the checked primitive.
pub fn div_i64(a: i64, b: i64) -> (r: i64)
    requires
        b != 0,
        a > i64::MIN,
    ensures
        r as int == div_t(a as int, b as int),
{
    proof {
        lemma_div_t_abs(a as int, b as int);
    }
    let q = a.checked_div(b);
    q.unwrap()
}

/// Truncating division of `i128` values, via the checked primitive.
pub fn div_i128(a: i128, b: i128) -> (r: i128)
    requires
        b != 0,
        a > i128::MIN,
    ensures
        r as int == div_t(a as int, b as int),
{
    proof {
        lemma_div_t_abs(a as int, b as int);
    }
    let q = a.checked_div(b);
    q.unwrap()
}

/// Floor square root of a `u128`, by binary search.
pub fn isqrt_u128(n: u128) -> (r: u128)
    ensures
        r == sqrt_floor(n as nat),
        r * r <= n,
        n < (r + 1) * (r + 1),
{
    let mut lo: u128 = 0;
    let mut hi: u128 = if n < 0xFFFF_FFFF_FFFF_FFFF {
        n
    } else {
        0xFFFF_FFFF_FFFF_FFFF
    };
    proof {
        if n < 0xFFFF_FFFF_FFFF_FFFF {
            assert(n < (n + 1) * (n + 1)) by (nonlinear_arith);
        } else {
            assert(0x1_0000_0000_0000_0000int * 0x1_0000_0000_0000_0000int
                == 0x1_0000_0000_0000_0000_0000_0000_0000_0000int) by (nonlinear_arith);
        }
    }
    while lo < hi
        invariant
            lo <= hi,
            lo * lo <= n,
            n < (hi + 1) * (hi + 1),
            hi <= 0xFFFF_FFFF_FFFF_FFFF,
        decreases hi - lo,
    {
        let mid: u128 = lo + (hi - lo + 1) / 2;
        assert(lo < mid <= hi) by {
            assert(1 <= (hi - lo + 1) / 2 <= hi - lo);
        };
        assert(mid * mid <= 0xFFFF_FFFF_FFFF_FFFFu128 * 0xFFFF_FFFF_FFFF_FFFFu128)
            by (nonlinear_arith)
            requires
                0 <= mid <= 0xFFFF_FFFF_FFFF_FFFFu128,
        ;
        if mid * mid <= n {
            lo = mid;
        } else {
            hi = mid - 1;
        }
    }
    proof {
        lemma_sqrt_floor_unique(n as nat, lo as nat);
    }
    lo
}

} // verus!
