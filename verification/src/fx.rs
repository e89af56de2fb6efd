//! Fixed-point scalar arithmetic.
//!
//! A scalar is an `i64` counting `SCALE`-ths of a world unit.  Exec code does
//! its intermediate arithmetic in 128 bits; the spec-level meaning of every
//! operation is stated over `int` with `tdiv`, truncating division toward
//! zero, which is what dividing magnitudes computes.

use vstd::prelude::*;

verus! {

/// Fixed-point units per world unit.
pub const SCALE: i64 = 1_000_000;

/// Minimum accepted hit distance: one fixed-point unit, i.e. 1e-6 world
/// units, which suppresses self-intersection of secondary rays.
pub const EPS: i64 = 1;

/// Half extent of the world box: points beyond it are treated as misses.
pub const COORD_LIMIT: i64 = 4_000_000_000_000_000;

/// Initial nearest-hit distance of a ray; above every distance that a hit
/// inside the world box can have.
pub const DIST_MAX: i64 = 100_000_000_000_000_000;

/// Largest channel value of a color: 255 in fixed point.
pub const CHANNEL_MAX: i64 = 255_000_000;

/// One half turn, in fixed point.
pub const PI_FX: i64 = 3_141_593;

pub open spec fn abs_int(a: int) -> int {
    if a < 0 {
        -a
    } else {
        a
    }
}

/// Division truncating toward zero, the semantics of dividing magnitudes.
pub open spec fn tdiv(a: int, b: int) -> int
    recommends
        b != 0,
{
    if (a < 0) != (b < 0) {
        -(abs_int(a) / abs_int(b))
    } else {
        abs_int(a) / abs_int(b)
    }
}

/// Fixed-point product: `a * b` rescaled back down.
pub open spec fn fxmul(a: int, b: int) -> int {
    tdiv(a * b, SCALE as int)
}

/// `r` is the integer square root of `n`.
pub open spec fn is_sqrt(n: int, r: int) -> bool {
    0 <= r && r * r <= n && n < (r + 1) * (r + 1)
}

/// The integer square root: the unique `r >= 0` with
/// `r * r <= n < (r + 1) * (r + 1)`.
pub open spec fn sqrt(n: int) -> int
    recommends
        n >= 0,
{
    choose|r: int| #[trigger] is_sqrt(n, r)
}

proof fn lemma_sqrt_exists(n: int)
    requires
        n >= 0,
    ensures
        exists|r: int| #[trigger] is_sqrt(n, r),
    decreases n,
{
    if n == 0 {
        assert(is_sqrt(n, 0));
    } else {
        lemma_sqrt_exists(n - 1);
        let r = choose|r: int| #[trigger] is_sqrt(n - 1, r);
        if n < (r + 1) * (r + 1) {
            assert(is_sqrt(n, r));
        } else {
            assert((r + 1) * (r + 1) <= n);
            assert(n <= (r + 1) * (r + 1)) by {
                assert(n - 1 < (r + 1) * (r + 1));
            }
            assert(n < (r + 2) * (r + 2)) by (nonlinear_arith)
                requires
                    n == (r + 1) * (r + 1),
                    r >= 0,
            ;
            assert(is_sqrt(n, r + 1));
        }
    }
}

/// `sqrt(n)` carries its defining property whenever `n >= 0`.
pub proof fn lemma_sqrt(n: int)
    requires
        n >= 0,
    ensures
        0 <= sqrt(n),
        sqrt(n) * sqrt(n) <= n,
        n < (sqrt(n) + 1) * (sqrt(n) + 1),
{
    lemma_sqrt_exists(n);
    assert(is_sqrt(n, sqrt(n)));
}

/// Any witness of the square-root property equals `sqrt(n)`.
pub proof fn lemma_sqrt_unique(n: int, r: int)
    requires
        is_sqrt(n, r),
    ensures
        r == sqrt(n),
{
    lemma_sqrt(n);
    let s = sqrt(n);
    if r < s {
        assert((r + 1) * (r + 1) <= s * s) by (nonlinear_arith)
            requires
                0 <= r,
                r < s,
        ;
    }
    if s < r {
        assert((s + 1) * (s + 1) <= r * r) by (nonlinear_arith)
            requires
                0 <= s,
                s < r,
        ;
    }
}

/// Truncating signed division on 128-bit operands.
pub fn tdiv_i128(a: i128, b: i128) -> (q: i128)
    requires
        b != 0,
        a != i128::MIN,
        b != i128::MIN,
    ensures
        q == tdiv(a as int, b as int),
{
    let ma: u128 = if a < 0 {
        (-a) as u128
    } else {
        a as u128
    };
    let mb: u128 = if b < 0 {
        (-b) as u128
    } else {
        b as u128
    };
    let mq: u128 = ma / mb;
    assert(mq == abs_int(a as int) / abs_int(b as int));
    assert(mq <= ma) by (nonlinear_arith)
        requires
            mq == ma / mb,
            mb >= 1,
    ;
    if (a < 0) != (b < 0) {
        -(mq as i128)
    } else {
        mq as i128
    }
}

/// The integer square root of a 128-bit value, by bisection.
pub fn isqrt_u128(n: u128) -> (r: u64)
    ensures
        r == sqrt(n as int),
{
    let mut lo: u128 = 0;
    let mut hi: u128 = 0x1_0000_0000_0000_0000u128;
    assert((hi as int) * (hi as int) > u128::MAX as int) by (nonlinear_arith)
        requires
            hi == 0x1_0000_0000_0000_0000u128,
    ;
    while lo + 1 < hi
        invariant
            lo < hi,
            hi <= 0x1_0000_0000_0000_0000u128,
            lo * lo <= n,
            (n as int) < (hi as int) * (hi as int),
        decreases hi - lo,
    {
        let mid: u128 = lo + (hi - lo) / 2;
        assert(lo < mid < hi);
        assert((mid as int) * (mid as int) <= u128::MAX as int) by (nonlinear_arith)
            requires
                mid < hi,
                hi <= 0x1_0000_0000_0000_0000u128,
        ;
        if mid * mid <= n {
            lo = mid;
        } else {
            hi = mid;
        }
    }
    proof {
        assert(is_sqrt(n as int, lo as int));
        lemma_sqrt_unique(n as int, lo as int);
    }
    lo as u64
}

/// If `|a| <= m * b` with `b` positive then `|a / b| <= m`.
pub proof fn lemma_tdiv_bound(a: int, b: int, m: int)
    requires
        b > 0,
        0 <= m,
        abs_int(a) <= m * b,
    ensures
        abs_int(tdiv(a, b)) <= m,
{
    assert(abs_int(a) / b <= m) by (nonlinear_arith)
        requires
            b > 0,
            0 <= m,
            abs_int(a) <= m * b,
            abs_int(a) >= 0,
    ;
}

/// Dividing an exact multiple of a positive divisor recovers the factor.
pub proof fn lemma_tdiv_exact(k: int, b: int)
    requires
        b > 0,
        k >= 0,
    ensures
        tdiv(b * k, b) == k,
{
    assert(b * k >= 0 && (b * k) / b == k) by (nonlinear_arith)
        requires
            b > 0,
            k >= 0,
    ;
}

/// Division leaves a remainder below the divisor.
pub proof fn lemma_tdiv_rem(n: int, b: int)
    requires
        n >= 0,
        b > 0,
    ensures
        b * tdiv(n, b) <= n < b * tdiv(n, b) + b,
{
    assert(b * (n / b) <= n < b * (n / b) + b) by (nonlinear_arith)
        requires
            n >= 0,
            b > 0,
    ;
}

/// Dividing `m * b` by `2 * b` halves `m`.
pub proof fn lemma_tdiv_half_scaled(m: int, b: int)
    requires
        m >= 0,
        b > 0,
    ensures
        tdiv(m * b, 2 * b) == m / 2,
{
    assert((m * b) / (2 * b) == m / 2) by (nonlinear_arith)
        requires
            m >= 0,
            b > 0,
            m == 2 * (m / 2) + m % 2,
            0 <= m % 2 < 2,
    ;
}

/// Bhaskara's rational approximation of the sine over half a turn:
/// `sin(pi * u / SCALE) * SCALE` for `u` in `[0, SCALE]`, clamped to `SCALE`.
pub open spec fn spec_half_sine(u: int) -> int {
    let p = u * (SCALE as int - u);
    let raw = tdiv(16 * p * (SCALE as int), 5 * (SCALE as int) * (SCALE as int) - 4 * p);
    if raw > SCALE as int {
        SCALE as int
    } else {
        raw
    }
}

/// The sine of `t` turns, for `t` in `[0, SCALE)`: positive Bhaskara half
/// wave, then the mirrored negative one.
pub open spec fn spec_sin_turn(t: int) -> int {
    if t < 500_000 {
        spec_half_sine(2 * t)
    } else {
        -spec_half_sine(2 * (t - 500_000))
    }
}

/// The cosine of `t` turns: the sine a quarter turn later.
pub open spec fn spec_cos_turn(t: int) -> int {
    let shifted = if t + 250_000 >= SCALE as int {
        t + 250_000 - SCALE as int
    } else {
        t + 250_000
    };
    spec_sin_turn(shifted)
}

/// Bhaskara's sine approximation over half a turn.
pub fn half_sine(u: i64) -> (r: i64)
    requires
        0 <= u <= SCALE,
    ensures
        r == spec_half_sine(u as int),
        0 <= r <= SCALE,
{
    proof {
        assert(0 <= (u as int) * (SCALE as int - u) <= 250_000_000_000int) by (nonlinear_arith)
            requires
                0 <= u <= SCALE,
                SCALE == 1_000_000i64,
        ;
    }
    let p: i64 = ((u as i128) * ((SCALE - u) as i128)) as i64;
    let num: i128 = 16 * (p as i128) * (SCALE as i128);
    let den: i128 = 5 * (SCALE as i128) * (SCALE as i128) - 4 * (p as i128);
    let q = tdiv_i128(num, den);
    proof {
        assert(q >= 0 && q == tdiv(16 * (p as int) * (SCALE as int), den as int))
            by (nonlinear_arith)
            requires
                q == tdiv(num as int, den as int),
                num == 16 * (p as int) * (SCALE as int),
                0 <= p <= 250_000_000_000i64,
                den == 5 * (SCALE as int) * (SCALE as int) - 4 * (p as int),
                SCALE == 1_000_000i64,
        ;
        assert(q <= 2_000_000int) by (nonlinear_arith)
            requires
                q == tdiv(num as int, den as int),
                num == 16 * (p as int) * (SCALE as int),
                0 <= p <= 250_000_000_000i64,
                den == 5 * (SCALE as int) * (SCALE as int) - 4 * (p as int),
                SCALE == 1_000_000i64,
        ;
    }
    if q > SCALE as i128 {
        SCALE
    } else {
        q as i64
    }
}

/// The sine of `t` turns, in fixed point.
pub fn sin_turn(t: i64) -> (r: i64)
    requires
        0 <= t < SCALE,
    ensures
        r == spec_sin_turn(t as int),
        -SCALE <= r <= SCALE,
{
    if t < 500_000 {
        half_sine(2 * t)
    } else {
        -half_sine(2 * (t - 500_000))
    }
}

/// The cosine of `t` turns, in fixed point.
pub fn cos_turn(t: i64) -> (r: i64)
    requires
        0 <= t < SCALE,
    ensures
        r == spec_cos_turn(t as int),
        -SCALE <= r <= SCALE,
{
    let shifted = if t + 250_000 >= SCALE {
        t + 250_000 - SCALE
    } else {
        t + 250_000
    };
    sin_turn(shifted)
}

/// The rational arctangent approximation on `[0, SCALE]`:
/// `u / (1 + 0.28 u^2)`, in fixed point.
pub open spec fn spec_atan_core(u: int) -> int {
    tdiv(u * (SCALE as int), SCALE as int + tdiv(28 * u * u, 100 * (SCALE as int)))
}

/// The arctangent in fixed-point radians: the rational approximation below
/// one, folded through `atan(x) = pi/2 - atan(1/x)` above it, odd in `x`.
pub open spec fn spec_atan(x: int) -> int {
    if x < 0 {
        -spec_atan_pos(-x)
    } else {
        spec_atan_pos(x)
    }
}

/// The arctangent of a non-negative fixed-point value.
pub open spec fn spec_atan_pos(x: int) -> int {
    if x <= SCALE as int {
        spec_atan_core(x)
    } else {
        tdiv(PI_FX as int, 2) - spec_atan_core(tdiv((SCALE as int) * (SCALE as int), x))
    }
}

/// The arctangent of a fixed-point value, in fixed-point radians.
pub fn atan_fx(x: i64) -> (r: i64)
    requires
        x != i64::MIN,
    ensures
        r == spec_atan(x as int),
        abs_int(r as int) <= 2 * SCALE as int,
{
    if x < 0 {
        let r = atan_pos(-x);
        -r
    } else {
        atan_pos(x)
    }
}

/// The arctangent of a non-negative fixed-point value.
fn atan_pos(x: i64) -> (r: i64)
    requires
        0 <= x,
    ensures
        r == spec_atan_pos(x as int),
        0 <= r <= 2 * SCALE as int,
{
    if x <= SCALE {
        atan_core(x)
    } else {
        let inv = tdiv_i128((SCALE as i128) * (SCALE as i128), x as i128);
        proof {
            lemma_tdiv_bound((SCALE as int) * (SCALE as int), x as int, SCALE as int);
        }
        let core = atan_core(inv as i64);
        PI_FX / 2 - core
    }
}

/// The rational arctangent approximation on `[0, SCALE]`.
fn atan_core(u: i64) -> (r: i64)
    requires
        0 <= u <= SCALE,
    ensures
        r == spec_atan_core(u as int),
        0 <= r <= SCALE,
{
    proof {
        assert(0 <= (u as int) * (u as int) <= 1_000_000_000_000int) by (nonlinear_arith)
            requires
                0 <= u <= SCALE,
                SCALE == 1_000_000i64,
        ;
    }
    let usq: i128 = (u as i128) * (u as i128);
    let den: i128 = (SCALE as i128) + tdiv_i128(28 * usq, 100 * (SCALE as i128));
    proof {
        assert(0 <= tdiv(28 * (usq as int), 100 * (SCALE as int)) <= SCALE as int)
            by (nonlinear_arith)
            requires
                usq == (u as int) * (u as int),
                0 <= u <= SCALE,
                SCALE == 1_000_000i64,
        ;
    }
    let q = tdiv_i128((u as i128) * (SCALE as i128), den);
    proof {
        assert(28 * (usq as int) == 28 * (u as int) * (u as int)) by (nonlinear_arith)
            requires
                usq == (u as int) * (u as int),
        ;
        assert(0 <= q <= SCALE as int) by (nonlinear_arith)
            requires
                q == tdiv((u as int) * (SCALE as int), den as int),
                0 <= u <= SCALE,
                den >= SCALE as int,
                SCALE == 1_000_000i64,
        ;
    }
    q as i64
}

} // verus!
