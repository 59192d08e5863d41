//! Signed 16.16 fixed-point scalars.
//!
//! A scalar is an `i64` holding `value * 65536`, so one whole unit is
//! `ONE == 65536`. Products and quotients round toward zero, exactly as the
//! spec functions `fx_mul` and `fx_div` state, and `isqrt_spec` is the floor
//! square root used by vector magnitudes.

use vstd::prelude::*;

verus! {

use vstd::arithmetic::div_mod::*;
use vstd::arithmetic::mul::*;

/// Raw representation of 1.0: the number of fixed-point steps per unit.
pub const ONE: i64 = 65536;

/// Magnitude of an integer.
pub open spec fn iabs(n: int) -> int {
    if 0 <= n {
        n
    } else {
        -n
    }
}

/// Division rounding toward zero, which is how every fixed-point product
/// and quotient rounds (`/` on `int` rounds toward negative infinity).
pub open spec fn tdiv(n: int, d: int) -> int {
    if (0 <= n) == (0 <= d) {
        iabs(n) / iabs(d)
    } else {
        -(iabs(n) / iabs(d))
    }
}

/// The fixed-point product of two raw scalars.
pub open spec fn fx_mul(a: int, b: int) -> int {
    tdiv(a * b, 65536)
}

/// The fixed-point quotient of two raw scalars.
pub open spec fn fx_div(a: int, b: int) -> int {
    tdiv(a * 65536, b)
}

/// The floor integer square root.
pub open spec fn isqrt_spec(n: int) -> int
    decreases n,
{
    if n <= 0 {
        0
    } else {
        let r = isqrt_spec(n - 1);
        if (r + 1) * (r + 1) <= n {
            r + 1
        } else {
            r
        }
    }
}

pub proof fn lemma_isqrt_char(n: int)
    requires
        0 <= n,
    ensures
        0 <= isqrt_spec(n),
        isqrt_spec(n) * isqrt_spec(n) <= n,
        n < (isqrt_spec(n) + 1) * (isqrt_spec(n) + 1),
    decreases n,
{
    if n > 0 {
        lemma_isqrt_char(n - 1);
        let r = isqrt_spec(n - 1);
        if (r + 1) * (r + 1) <= n {
            assert(n < (r + 2) * (r + 2)) by (nonlinear_arith)
                requires
                    0 <= r,
                    n - 1 < (r + 1) * (r + 1),
                    (r + 1) * (r + 1) <= n,
            ;
        }
    }
}

pub proof fn lemma_isqrt_unique(n: int, r: int)
    requires
        0 <= n,
        0 <= r,
        r * r <= n,
        n < (r + 1) * (r + 1),
    ensures
        r == isqrt_spec(n),
{
    lemma_isqrt_char(n);
    let s = isqrt_spec(n);
    if r < s {
        assert((r + 1) * (r + 1) <= s * s) by (nonlinear_arith)
            requires
                0 <= r,
                r < s,
        ;
    }
    if s < r {
        assert((s + 1) * (s + 1) <= r * r) by (nonlinear_arith)
            requires
                0 <= s,
                s < r,
        ;
    }
}

/// The magnitude of an integer product is the product of the magnitudes.
pub proof fn lemma_iabs_mul(a: int, b: int)
    ensures
        iabs(a * b) == iabs(a) * iabs(b),
{
    assert(iabs(a * b) == iabs(a) * iabs(b)) by (nonlinear_arith);
}

/// Magnitude bound for a product from bounds on its factors.
pub proof fn lemma_mul_le(a: int, b: int, bound_a: int, bound_b: int)
    requires
        iabs(a) <= bound_a,
        iabs(b) <= bound_b,
    ensures
        iabs(a * b) <= bound_a * bound_b,
{
    lemma_iabs_mul(a, b);
    assert(iabs(a) * iabs(b) <= bound_a * bound_b) by (nonlinear_arith)
        requires
            0 <= iabs(a) <= bound_a,
            0 <= iabs(b) <= bound_b,
    ;
}

/// Truncating division takes the magnitude to the (floor) quotient of the
/// magnitudes; with a positive denominator it shrinks 65536-fold products
/// back under any bound on the numerator.
pub proof fn lemma_tdiv_mag(n: int, d: int)
    requires
        d != 0,
    ensures
        iabs(tdiv(n, d)) == iabs(n) / iabs(d),
        0 <= iabs(n) / iabs(d),
{
    lemma_div_pos_is_pos(iabs(n), iabs(d));
}

/// A magnitude bound for a fixed-point product.
pub proof fn lemma_fx_mul_mag(a: int, b: int, p: int)
    requires
        iabs(a * b) <= p,
    ensures
        iabs(fx_mul(a, b)) <= p / 65536,
        iabs(fx_mul(a, b)) * 65536 <= p,
{
    lemma_tdiv_mag(a * b, 65536);
    lemma_div_is_ordered(iabs(a * b), p, 65536);
    let q = iabs(a * b) / 65536;
    lemma_fundamental_div_mod(iabs(a * b), 65536);
    lemma_mod_division_less_than_divisor(iabs(a * b), 65536);
    assert(q * 65536 <= iabs(a * b));
}

/// Floor division distributes over addition of nonnegative numerators,
/// up to rounding: the sum of the quotients never exceeds the quotient of
/// the sum.
pub proof fn lemma_div_superadd(a: int, b: int, d: int)
    requires
        0 <= a,
        0 <= b,
        0 < d,
    ensures
        a / d + b / d <= (a + b) / d,
{
    lemma_fundamental_div_mod(a, d);
    lemma_fundamental_div_mod(b, d);
    lemma_mod_bound(a, d);
    lemma_mod_bound(b, d);
    lemma_mul_is_distributive_add(d, a / d, b / d);
    lemma_div_pos_is_pos(a, d);
    lemma_div_pos_is_pos(b, d);
    lemma_div_by_multiple(a / d + b / d, d);
    lemma_div_is_ordered((a / d + b / d) * d, a + b, d);
}

/// Bounds on two factors carry to their plain and fixed-point products.
pub proof fn lemma_fx_mul_bounds(a: int, b: int, bound_a: int, bound_b: int)
    requires
        iabs(a) <= bound_a,
        iabs(b) <= bound_b,
    ensures
        iabs(a * b) <= bound_a * bound_b,
        iabs(fx_mul(a, b)) <= bound_a * bound_b / 65536,
{
    lemma_mul_le(a, b, bound_a, bound_b);
    lemma_fx_mul_mag(a, b, bound_a * bound_b);
}

/// Multiplying by zero gives zero; multiplying by one (65536 raw) is exact.
pub proof fn lemma_fx_mul_basics(x: int)
    ensures
        fx_mul(x, 0) == 0,
        fx_mul(0, x) == 0,
        fx_mul(x, 65536) == x,
        fx_mul(65536, x) == x,
{
    assert(iabs(0int) / 65536 == 0) by {
        lemma_div_of0(65536);
    }
    lemma_div_multiples_vanish(iabs(x), 65536);
    assert(x * 65536 == 65536 * x);
    assert(iabs(x * 65536) == iabs(x) * 65536) by {
        lemma_iabs_mul(x, 65536);
    }
    assert(iabs(x) * 65536 == 65536 * iabs(x));
}

/// Fixed-point multiplication is commutative.
pub proof fn lemma_fx_mul_comm(a: int, b: int)
    ensures
        fx_mul(a, b) == fx_mul(b, a),
{
    assert(a * b == b * a);
}

/// The fixed-point product, raw `a * b / 65536` rounded toward zero.
pub fn fmul(a: i64, b: i64) -> (r: i64)
    requires
        iabs(a as int * b as int) <= 0x7fff_ffff_ffff_ffff * 0x10000,
    ensures
        r == fx_mul(a as int, b as int),
{
    proof {
        lemma_mul_le(a as int, b as int, 0x8000_0000_0000_0000, 0x8000_0000_0000_0000);
        lemma_tdiv_mag(a as int * b as int, 65536);
        lemma_div_is_ordered(
            iabs(a as int * b as int),
            0x7fff_ffff_ffff_ffff as int * 0x10000,
            65536,
        );
        lemma_div_multiples_vanish(0x7fff_ffff_ffff_ffff, 0x10000);
    }
    let p: i128 = (a as i128) * (b as i128);
    if p >= 0 {
        let q: u128 = (p as u128) / 65536;
        q as i64
    } else {
        let q: u128 = ((-p) as u128) / 65536;
        -(q as i64)
    }
}

/// The fixed-point quotient, raw `a * 65536 / b` rounded toward zero.
pub fn fdiv(a: i64, b: i64) -> (r: i64)
    requires
        b != 0,
        iabs(a as int) * 65536 <= iabs(b as int) * 0x7fff_ffff_ffff_ffff,
    ensures
        r == fx_div(a as int, b as int),
{
    proof {
        lemma_iabs_mul(a as int, 65536);
        lemma_tdiv_mag(a as int * 65536, b as int);
        lemma_multiply_divide_le(
            iabs(a as int) * 65536,
            iabs(b as int),
            0x7fff_ffff_ffff_ffff,
        );
    }
    let n: i128 = (a as i128) * 65536;
    let na: u128 = if n >= 0 {
        n as u128
    } else {
        (-n) as u128
    };
    let da: u128 = if b >= 0 {
        (b as i128) as u128
    } else {
        (-(b as i128)) as u128
    };
    let q: u128 = na / da;
    if (a >= 0) == (b >= 0) {
        q as i64
    } else {
        -(q as i64)
    }
}

/// One full turn (360 degrees) in raw scalar units.
pub const TURN: i64 = 23592960;

/// Half a turn (180 degrees) in raw scalar units.
pub const HALF_TURN: i64 = 11796480;

/// A quarter turn (90 degrees) in raw scalar units.
pub const QUARTER_TURN: i64 = 5898240;

/// Euclidean remainder: `a` reduced into `[0, m)`.
pub fn emod(a: i64, m: i64) -> (r: i64)
    requires
        0 < m,
        -0x4000_0000_0000_0000 <= a,
    ensures
        r == (a as int) % (m as int),
        0 <= r < m,
{
    proof {
        lemma_mod_bound(a as int, m as int);
    }
    if a >= 0 {
        let r: u64 = (a as u64) % (m as u64);
        r as i64
    } else {
        let t: u64 = ((-a) as u64) % (m as u64);
        proof {
            let q = (-a as int) / (m as int);
            lemma_fundamental_div_mod(-a as int, m as int);
            lemma_mod_division_less_than_divisor(-a as int, m as int);
            if t == 0 {
                assert(a as int == (-q) * (m as int)) by (nonlinear_arith)
                    requires
                        -a as int == (m as int) * q + t,
                        t == 0,
                ;
                lemma_mod_multiples_basic(-q, m as int);
            } else {
                assert(a as int == (-q - 1) * (m as int) + (m as int - t)) by (nonlinear_arith)
                    requires
                        -a as int == (m as int) * q + t,
                ;
                lemma_fundamental_div_mod_converse_mod(
                    a as int,
                    m as int,
                    -q - 1,
                    m as int - t as int,
                );
            }
        }
        if t == 0 {
            0
        } else {
            m - (t as i64)
        }
    }
}

/// A quarter-turn angle converted from raw degrees to raw radians
/// (pi is approximated as 205887/65536).
pub open spec fn quarter_rad(m: int) -> int {
    (m * 205887) / 11796480
}

/// Taylor polynomial for the sine of a raw radian value in `[0, pi/2]`,
/// clamped into `[0, 65536]`.
pub open spec fn sin_poly(x: int) -> int {
    let x2 = fx_mul(x, x);
    let x3 = fx_mul(x2, x);
    let x5 = fx_mul(x3, x2);
    let x7 = fx_mul(x5, x2);
    let s = x - x3 / 6 + x5 / 120 - x7 / 5040;
    if s < 0 {
        0
    } else if s > 65536 {
        65536
    } else {
        s
    }
}

/// Sine over half a turn, exact at the quarter turn.
pub open spec fn sin_half(m: int) -> int {
    let mm = if m > 5898240 {
        11796480 - m
    } else {
        m
    };
    if mm == 5898240 {
        65536
    } else {
        sin_poly(quarter_rad(mm))
    }
}

/// Sine of an angle given in raw degrees.
pub open spec fn sin_fx(a: int) -> int {
    let m = a % 23592960;
    if m < 11796480 {
        sin_half(m)
    } else {
        -sin_half(m - 11796480)
    }
}

/// Cosine of an angle given in raw degrees.
pub open spec fn cos_fx(a: int) -> int {
    sin_fx(a + 5898240)
}

fn sin_core(m: i64) -> (r: i64)
    requires
        0 <= m <= 11796480,
    ensures
        r == sin_half(m as int),
        0 <= r <= 65536,
{
    let mm: i64 = if m > QUARTER_TURN {
        HALF_TURN - m
    } else {
        m
    };
    if mm == QUARTER_TURN {
        65536
    } else {
        proof {
            lemma_div_pos_is_pos(mm as int * 205887, 11796480);
            lemma_div_is_ordered(mm as int * 205887, 5898240 as int * 205887, 11796480);
        }
        let x: i64 = (((mm as u128) * 205887) / 11796480) as i64;
        assert(x == quarter_rad(mm as int) && 0 <= x <= 102943);
        proof {
            lemma_mul_le(x as int, x as int, 102943, 102943);
            assert(0 <= x as int * x as int) by (nonlinear_arith)
                requires
                    0 <= x,
            ;
        }
        let x2: i64 = fmul(x, x);
        proof {
            lemma_tdiv_mag(x as int * x as int, 65536);
            lemma_fx_mul_mag(x as int, x as int, 102943 as int * 102943);
            lemma_mul_le(x2 as int, x as int, 161702, 102943);
            lemma_mul_nonnegative(x2 as int, x as int);
        }
        let x3: i64 = fmul(x2, x);
        proof {
            lemma_tdiv_mag(x2 as int * x as int, 65536);
            lemma_fx_mul_mag(x2 as int, x as int, 161702 as int * 102943);
            lemma_mul_le(x3 as int, x2 as int, 254000, 161702);
            lemma_mul_nonnegative(x3 as int, x2 as int);
        }
        let x5: i64 = fmul(x3, x2);
        proof {
            lemma_tdiv_mag(x3 as int * x2 as int, 65536);
            lemma_fx_mul_mag(x3 as int, x2 as int, 254000 as int * 161702);
            lemma_mul_le(x5 as int, x2 as int, 626714, 161702);
            lemma_mul_nonnegative(x5 as int, x2 as int);
        }
        let x7: i64 = fmul(x5, x2);
        proof {
            lemma_tdiv_mag(x5 as int * x2 as int, 65536);
            lemma_fx_mul_mag(x5 as int, x2 as int, 626714 as int * 161702);
        }
        let t3: i64 = ((x3 as u64) / 6) as i64;
        let t5: i64 = ((x5 as u64) / 120) as i64;
        let t7: i64 = ((x7 as u64) / 5040) as i64;
        proof {
            lemma_div_pos_is_pos(x3 as int, 6);
            lemma_div_is_ordered(x3 as int, 254000, 6);
            lemma_div_pos_is_pos(x5 as int, 120);
            lemma_div_is_ordered(x5 as int, 626714, 120);
            lemma_div_pos_is_pos(x7 as int, 5040);
            lemma_div_is_ordered(x7 as int, 1546342, 5040);
        }
        let s: i64 = x - t3 + t5 - t7;
        if s < 0 {
            0
        } else if s > 65536 {
            65536
        } else {
            s
        }
    }
}

/// Sine of an angle in raw degrees, exact at every multiple of 90 degrees.
pub fn sin_deg(a: i64) -> (r: i64)
    requires
        -0x4000_0000_0000_0000 <= a <= 0x4000_0000_0000_0000,
    ensures
        r == sin_fx(a as int),
        -65536 <= r <= 65536,
{
    let m: i64 = emod(a, TURN);
    if m < HALF_TURN {
        sin_core(m)
    } else {
        let r0: i64 = sin_core(m - HALF_TURN);
        -r0
    }
}

/// Cosine of an angle in raw degrees, exact at every multiple of 90 degrees.
pub fn cos_deg(a: i64) -> (r: i64)
    requires
        -0x3fff_ffff_fe00_0000 <= a <= 0x3fff_ffff_fe00_0000,
    ensures
        r == cos_fx(a as int),
        -65536 <= r <= 65536,
{
    sin_deg(a + QUARTER_TURN)
}

/// The sine of zero degrees is exactly zero.
pub proof fn lemma_sin_fx_zero()
    ensures
        sin_fx(0) == 0,
{
    lemma_small_mod(0, 23592960);
    assert(0int % 23592960 == 0);
    assert(quarter_rad(0) == 0) by {
        lemma_div_of0(11796480);
    }
    assert(sin_poly(0) == 0) by {
        lemma_fx_mul_basics(0);
        lemma_div_of0(65536);
        lemma_div_of0(6);
        lemma_div_of0(120);
        lemma_div_of0(5040);
    }
}

/// The cosine of zero degrees is exactly one.
pub proof fn lemma_cos_fx_zero()
    ensures
        cos_fx(0) == 65536,
{
    lemma_small_mod(5898240, 23592960);
    assert(5898240int % 23592960 == 5898240);
}

/// Iterated fixed-point multiplication: `b` raised to the power `e`.
pub open spec fn fx_pow(b: int, e: int) -> int
    decreases e,
{
    if e <= 0 {
        65536
    } else {
        fx_mul(fx_pow(b, e - 1), b)
    }
}

/// Raise a scalar in `[0, 1]` to a nonnegative integer power.
pub fn fpow(base: i64, e: i64) -> (r: i64)
    requires
        0 <= base <= 65536,
        0 <= e,
    ensures
        r == fx_pow(base as int, e as int),
        0 <= r <= 65536,
{
    let mut acc: i64 = 65536;
    let mut i: i64 = e;
    while i > 0
        invariant
            0 <= i <= e,
            0 <= acc <= 65536,
            0 <= base <= 65536,
            acc == fx_pow(base as int, e - i),
        decreases i,
    {
        proof {
            lemma_mul_le(acc as int, base as int, 65536, 65536);
            lemma_mul_nonnegative(acc as int, base as int);
            lemma_tdiv_mag(acc as int * base as int, 65536);
            lemma_fx_mul_mag(acc as int, base as int, 65536 as int * 65536);
            assert(fx_pow(base as int, e - i + 1) == fx_mul(fx_pow(base as int, e - i), base as int));
        }
        acc = fmul(acc, base);
        i = i - 1;
    }
    acc
}

/// Floor square root of an unsigned 128-bit value.
pub fn isqrt(n: u128) -> (r: u64)
    ensures
        r == isqrt_spec(n as int),
        r * r <= n,
        n < (r + 1) * (r + 1),
{
    let mut lo: u128 = 0;
    let mut hi: u128 = 0x1_0000_0000_0000_0000;
    proof {
        assert(n < hi * hi) by (nonlinear_arith)
            requires
                hi == 0x1_0000_0000_0000_0000,
                n <= u128::MAX,
        ;
    }
    while lo + 1 < hi
        invariant
            0 <= lo < hi <= 0x1_0000_0000_0000_0000,
            lo * lo <= n,
            n < hi * hi,
        decreases hi - lo,
    {
        let mid: u128 = lo + (hi - lo) / 2;
        proof {
            assert(lo < mid < hi) by {
                lemma_fundamental_div_mod((hi - lo) as int, 2);
                lemma_mod_division_less_than_divisor((hi - lo) as int, 2);
            }
            assert(mid * mid < 0x1_0000_0000_0000_0000 * 0x1_0000_0000_0000_0000)
                by (nonlinear_arith)
                requires
                    0 <= mid < 0x1_0000_0000_0000_0000,
            ;
        }
        if mid * mid <= n {
            lo = mid;
        } else {
            hi = mid;
        }
    }
    proof {
        assert(hi == lo + 1);
        lemma_isqrt_unique(n as int, lo as int);
    }
    lo as u64
}

} // verus!
