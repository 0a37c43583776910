//! Fixed-point arithmetic for the annealing engine.
//!
//! A non-negative real `v` is represented by the integer `v * SCALE`,
//! rounded down. Distances, temperatures and acceptance probabilities all
//! use this representation.

use vstd::prelude::*;

verus! {

/// One whole unit in fixed-point representation (micro-units).
pub const SCALE: u64 = 1_000_000;

/// Largest input accepted by `isqrt`.
pub const SQRT_IN_MAX: u128 = 4_000_000_000_000_000_000_000_000;

/// `isqrt` never returns more than this (`SQRT_OUT_MAX^2 <= SQRT_IN_MAX`
/// and `(SQRT_OUT_MAX + 1)^2 > SQRT_IN_MAX`).
pub const SQRT_OUT_MAX: u64 = 2_000_000_000_000;

/// `r` is the square root of `n`, rounded down.
pub open spec fn is_sqrt_floor(n: int, r: int) -> bool {
    &&& 0 <= r
    &&& r * r <= n
    &&& n < (r + 1) * (r + 1)
}

/// The floor square root of a number is unique.
pub proof fn lemma_sqrt_floor_unique(n: int, r1: int, r2: int)
    requires
        is_sqrt_floor(n, r1),
        is_sqrt_floor(n, r2),
    ensures
        r1 == r2,
{
    if r1 < r2 {
        assert((r1 + 1) * (r1 + 1) <= r2 * r2) by (nonlinear_arith)
            requires 0 <= r1, 0 <= r2, r1 < r2;
    }
    if r2 < r1 {
        assert((r2 + 1) * (r2 + 1) <= r1 * r1) by (nonlinear_arith)
            requires 0 <= r1, 0 <= r2, r2 < r1;
    }
}

/// Square root rounded down, by binary search on the result.
pub fn isqrt(n: u128) -> (r: u64)
    requires
        n <= SQRT_IN_MAX,
    ensures
        is_sqrt_floor(n as int, r as int),
        r <= SQRT_OUT_MAX,
{
    let mut lo: u64 = 0;
    let mut hi: u64 = SQRT_OUT_MAX;
    proof {
        assert((SQRT_OUT_MAX + 1) * (SQRT_OUT_MAX + 1) > SQRT_IN_MAX) by (nonlinear_arith);
    }
    while lo < hi
        invariant
            lo <= hi <= SQRT_OUT_MAX,
            (lo as int) * (lo as int) <= n as int,
            (n as int) < (hi as int + 1) * (hi as int + 1),
        decreases hi - lo,
    {
        let mid: u64 = lo + (hi - lo + 1) / 2;
        proof {
            assert((mid as int) * (mid as int) <= (SQRT_OUT_MAX as int) * (SQRT_OUT_MAX as int))
                by (nonlinear_arith)
                requires 0 <= mid as int <= SQRT_OUT_MAX as int;
        }
        let m2: u128 = (mid as u128) * (mid as u128);
        if m2 <= n {
            lo = mid;
        } else {
            hi = mid - 1;
        }
    }
    lo
}

/// Half a unit; `exp_neg` works in half-unit segments.
pub const HALF_UNIT: u64 = 500_000;

/// `exp(-1/2)` in fixed point, rounded down; it stays below the Taylor
/// numerator at the far end of a segment, which keeps the segmented
/// approximation of `exp(-x)` non-increasing across segment boundaries.
pub const E_HALF: u64 = 606_530;

/// Beyond this argument `exp(-x)` is far below one micro-unit and is taken
/// as exactly zero.
pub const EXP_CUT: u64 = 20_000_000;

/// `24 * SCALE^4`, the denominator of the polynomial segment of `exp_neg`.
pub const POLY_DEN: u128 = 24_000_000_000_000_000_000_000_000;

/// `E_HALF^q` in fixed point, rounding down after each multiplication.
pub open spec fn pow_half(q: int) -> int
    decreases q,
{
    if q <= 0 {
        SCALE as int
    } else {
        pow_half(q - 1) * E_HALF / (SCALE as int)
    }
}

/// The degree-4 Taylor numerator of `exp(-f/SCALE)` on one half-unit
/// segment: `24 S^4 - 24 S^3 f + 12 S^2 f^2 - 4 S f^3 + f^4` with
/// `S == SCALE`, to be divided by `POLY_DEN`.
pub open spec fn exp_poly_num(f: int) -> int {
    24_000_000_000_000_000_000_000_000 - 24_000_000_000_000_000_000 * f + 12_000_000_000_000 * (f
        * f) - 4_000_000 * (f * f * f) + f * f * f * f
}

/// The fixed-point approximation of `exp(-x/SCALE)`: the half-unit power
/// for the whole part, one Taylor segment for the rest, zero past `EXP_CUT`.
pub open spec fn exp_neg_spec(x: int) -> int {
    if x >= EXP_CUT {
        0
    } else {
        pow_half(x / (HALF_UNIT as int)) * exp_poly_num(x % (HALF_UNIT as int)) / (POLY_DEN as int)
    }
}

/// The half-unit powers stay between zero and one whole unit.
pub proof fn lemma_pow_half_bounds(q: int)
    ensures
        0 <= pow_half(q) <= SCALE,
    decreases q,
{
    if q > 0 {
        lemma_pow_half_bounds(q - 1);
        let p = pow_half(q - 1);
        assert(0 <= p * E_HALF <= p * SCALE) by (nonlinear_arith)
            requires 0 <= p;
        vstd::arithmetic::div_mod::lemma_div_pos_is_pos(p * E_HALF, SCALE as int);
        vstd::arithmetic::div_mod::lemma_div_is_ordered(p * E_HALF, p * SCALE, SCALE as int);
        vstd::arithmetic::div_mod::lemma_div_multiples_vanish(p, SCALE as int);
        assert(p * SCALE == (SCALE as int) * p) by (nonlinear_arith);
    }
}

/// The half-unit powers never increase.
pub proof fn lemma_pow_half_antitone(q1: int, q2: int)
    requires
        q1 <= q2,
    ensures
        pow_half(q2) <= pow_half(q1),
    decreases q2 - q1,
{
    if q1 < q2 {
        lemma_pow_half_antitone(q1, q2 - 1);
        if q2 > 0 {
            let p = pow_half(q2 - 1);
            lemma_pow_half_bounds(q2 - 1);
            assert(0 <= p * E_HALF <= p * SCALE) by (nonlinear_arith)
                requires 0 <= p;
            vstd::arithmetic::div_mod::lemma_div_is_ordered(p * E_HALF, p * SCALE, SCALE as int);
            vstd::arithmetic::div_mod::lemma_div_multiples_vanish(p, SCALE as int);
            assert(p * SCALE == (SCALE as int) * p) by (nonlinear_arith);
        }
    }
}

/// On a half-unit segment the Taylor numerator never increases.
pub proof fn lemma_poly_antitone(f1: int, f2: int)
    requires
        0 <= f1 <= f2 <= HALF_UNIT,
    ensures
        exp_poly_num(f2) <= exp_poly_num(f1),
{
    assert(24_000_000_000_000_000_000 * f2 - 24_000_000_000_000_000_000 * f1
        >= 12_000_000_000_000 * (f2 * f2) - 12_000_000_000_000 * (f1 * f1)) by (nonlinear_arith)
        requires 0 <= f1 <= f2 <= 500_000;
    assert(4_000_000 * (f2 * f2 * f2) - 4_000_000 * (f1 * f1 * f1) >= f2 * f2 * f2 * f2 - f1 * f1
        * f1 * f1) by (nonlinear_arith)
        requires 0 <= f1 <= f2 <= 500_000;
}

/// On a half-unit segment the Taylor numerator stays between
/// `24 * E_HALF * SCALE^3` and the full denominator.
pub proof fn lemma_poly_bounds(f: int)
    requires
        0 <= f <= HALF_UNIT,
    ensures
        14_556_720_000_000_000_000_000_000 <= exp_poly_num(f),
        exp_poly_num(f) <= POLY_DEN,
{
    lemma_poly_antitone(f, HALF_UNIT as int);
    lemma_poly_antitone(0, f);
    assert(exp_poly_num(500_000) == 14_562_500_000_000_000_000_000_000);
    assert(exp_poly_num(0) == POLY_DEN);
}

/// One value of the segmented approximation: the half-unit power times the
/// Taylor segment.
pub open spec fn exp_val(q: int, f: int) -> int {
    pow_half(q) * exp_poly_num(f) / (POLY_DEN as int)
}

/// Each value of the approximation lies between zero and one whole unit.
pub proof fn lemma_exp_val_bounds(q: int, f: int)
    requires
        0 <= f <= HALF_UNIT,
    ensures
        0 <= exp_val(q, f) <= pow_half(q) <= SCALE,
{
    lemma_pow_half_bounds(q);
    lemma_poly_bounds(f);
    let p = pow_half(q);
    let np = exp_poly_num(f);
    assert(0 <= p * np <= p * POLY_DEN) by (nonlinear_arith)
        requires 0 <= p, 0 <= np <= POLY_DEN;
    vstd::arithmetic::div_mod::lemma_div_pos_is_pos(p * np, POLY_DEN as int);
    vstd::arithmetic::div_mod::lemma_div_is_ordered(p * np, p * POLY_DEN, POLY_DEN as int);
    vstd::arithmetic::div_mod::lemma_div_multiples_vanish(p, POLY_DEN as int);
    assert(p * POLY_DEN == (POLY_DEN as int) * p) by (nonlinear_arith);
}

/// Within one segment the approximation never increases.
pub proof fn lemma_exp_val_segment_antitone(q: int, f1: int, f2: int)
    requires
        0 <= f1 <= f2 <= HALF_UNIT,
    ensures
        exp_val(q, f2) <= exp_val(q, f1),
{
    lemma_pow_half_bounds(q);
    lemma_poly_antitone(f1, f2);
    lemma_poly_bounds(f1);
    lemma_poly_bounds(f2);
    let p = pow_half(q);
    assert(p * exp_poly_num(f2) <= p * exp_poly_num(f1)) by (nonlinear_arith)
        requires 0 <= p, exp_poly_num(f2) <= exp_poly_num(f1);
    vstd::arithmetic::div_mod::lemma_div_is_ordered(
        p * exp_poly_num(f2),
        p * exp_poly_num(f1),
        POLY_DEN as int,
    );
}

/// At the left edge of a segment the approximation equals the bare
/// half-unit power.
pub proof fn lemma_exp_val_at_zero(q: int)
    ensures
        exp_val(q, 0) == pow_half(q),
{
    let p = pow_half(q);
    lemma_pow_half_bounds(q);
    assert(exp_poly_num(0) == POLY_DEN);
    vstd::arithmetic::div_mod::lemma_div_multiples_vanish(p, POLY_DEN as int);
    assert(p * POLY_DEN == (POLY_DEN as int) * p) by (nonlinear_arith);
}

/// Crossing into the next segment never increases the approximation.
pub proof fn lemma_exp_val_boundary(q: int, f: int)
    requires
        0 <= f <= HALF_UNIT,
        0 <= q,
    ensures
        exp_val(q + 1, 0) <= exp_val(q, f),
{
    let p = pow_half(q);
    let np = exp_poly_num(f);
    lemma_pow_half_bounds(q);
    lemma_poly_bounds(f);
    lemma_exp_val_at_zero(q + 1);
    assert(pow_half(q + 1) == p * 606_530 / 1_000_000);
    // The numerator bound `24 E_HALF S^3 <= np` makes the segment value at
    // least the next bare power, whose quotient cancels exactly.
    assert(p * np >= p * 14_556_720_000_000_000_000_000_000) by (nonlinear_arith)
        requires 0 <= p, 14_556_720_000_000_000_000_000_000 <= np;
    vstd::arithmetic::div_mod::lemma_div_is_ordered(
        p * 14_556_720_000_000_000_000_000_000,
        p * np,
        POLY_DEN as int,
    );
    assert(p * 14_556_720_000_000_000_000_000_000 == (p * 606_530) * 24_000_000_000_000_000_000)
        by (nonlinear_arith);
    assert(0 <= p * 606_530) by (nonlinear_arith)
        requires 0 <= p;
    vstd::arithmetic::div_mod::lemma_div_denominator(
        (p * 606_530) * 24_000_000_000_000_000_000,
        24_000_000_000_000_000_000,
        1_000_000,
    );
    vstd::arithmetic::div_mod::lemma_div_by_multiple(p * 606_530, 24_000_000_000_000_000_000);
    assert(24_000_000_000_000_000_000 * 1_000_000 == POLY_DEN as int);
}

/// The whole approximation `exp_neg_spec` never increases.
pub proof fn lemma_exp_neg_antitone(x1: int, x2: int)
    requires
        0 <= x1 <= x2,
    ensures
        exp_neg_spec(x2) <= exp_neg_spec(x1),
{
    let h = HALF_UNIT as int;
    let q1 = x1 / h;
    let f1 = x1 % h;
    vstd::arithmetic::div_mod::lemma_div_pos_is_pos(x1, h);
    vstd::arithmetic::div_mod::lemma_remainder_upper(x1, h);
    vstd::arithmetic::div_mod::lemma_remainder_lower(x1, h);
    if x2 >= EXP_CUT {
        if x1 >= EXP_CUT {
        } else {
            lemma_exp_val_bounds(q1, f1);
        }
    } else {
        let q2 = x2 / h;
        let f2 = x2 % h;
        vstd::arithmetic::div_mod::lemma_div_pos_is_pos(x2, h);
        vstd::arithmetic::div_mod::lemma_remainder_upper(x2, h);
        vstd::arithmetic::div_mod::lemma_remainder_lower(x2, h);
        vstd::arithmetic::div_mod::lemma_div_is_ordered(x1, x2, h);
        if q1 == q2 {
            assert(f1 <= f2) by {
                vstd::arithmetic::div_mod::lemma_fundamental_div_mod(x1, h);
                vstd::arithmetic::div_mod::lemma_fundamental_div_mod(x2, h);
            }
            lemma_exp_val_segment_antitone(q1, f1, f2);
        } else {
            // exp_val(q2, f2) <= exp_val(q2, 0) == pow_half(q2)
            lemma_exp_val_segment_antitone(q2, 0, f2);
            lemma_exp_val_at_zero(q2);
            // pow_half(q2) <= pow_half(q1 + 1) == exp_val(q1 + 1, 0)
            lemma_pow_half_antitone(q1 + 1, q2);
            lemma_exp_val_at_zero(q1 + 1);
            // exp_val(q1 + 1, 0) <= exp_val(q1, f1)
            lemma_exp_val_boundary(q1, f1);
        }
    }
}

/// The whole approximation stays within `[0, 1]` in whole units.
pub proof fn lemma_exp_neg_in_range(x: int)
    requires
        0 <= x,
    ensures
        0 <= exp_neg_spec(x) <= SCALE,
{
    if x < EXP_CUT {
        let h = HALF_UNIT as int;
        vstd::arithmetic::div_mod::lemma_div_pos_is_pos(x, h);
        vstd::arithmetic::div_mod::lemma_remainder_upper(x, h);
        vstd::arithmetic::div_mod::lemma_remainder_lower(x, h);
        lemma_exp_val_bounds(x / h, x % h);
    }
}

/// At zero the approximation is exactly one whole unit.
pub proof fn lemma_exp_neg_at_zero()
    ensures
        exp_neg_spec(0) == SCALE,
{
    lemma_exp_val_at_zero(0);
}

/// Comparing two rounded-down fractions: `a/b <= c/d` follows from the
/// cross product inequality `a*d <= c*b`.
pub proof fn lemma_div_frac_le(a: int, b: int, c: int, d: int)
    requires
        0 <= a,
        0 < b,
        0 <= c,
        0 < d,
        a * d <= c * b,
    ensures
        a / b <= c / d,
{
    assert(0 <= a * d && 0 <= c * b) by (nonlinear_arith)
        requires 0 <= a, 0 < d, 0 <= c, 0 < b;
    vstd::arithmetic::div_mod::lemma_div_denominator(a * d, d, b);
    vstd::arithmetic::div_mod::lemma_div_by_multiple(a, d);
    vstd::arithmetic::div_mod::lemma_div_denominator(c * b, b, d);
    vstd::arithmetic::div_mod::lemma_div_by_multiple(c, b);
    assert(d * b == b * d) by (nonlinear_arith);
    vstd::arithmetic::div_mod::lemma_div_is_ordered(a * d, c * b, d * b);
}

/// `exp(-x)` in fixed point: exactly `exp_neg_spec`, always within `[0, 1]`
/// in whole units.
pub fn exp_neg(x: u64) -> (r: u64)
    ensures
        r as int == exp_neg_spec(x as int),
        r <= SCALE,
{
    if x >= EXP_CUT {
        return 0;
    }
    let q: u64 = x / HALF_UNIT;
    let f: u64 = x % HALF_UNIT;
    let mut v: u64 = SCALE;
    let mut k: u64 = 0;
    while k < q
        invariant
            k <= q,
            q == x as int / HALF_UNIT as int,
            x < EXP_CUT,
            v as int == pow_half(k as int),
            v <= SCALE,
        decreases q - k,
    {
        proof {
            lemma_pow_half_bounds(k as int);
            lemma_pow_half_bounds(k + 1);
        }
        v = ((v as u128) * (E_HALF as u128) / (SCALE as u128)) as u64;
        k = k + 1;
    }
    let fe = f as u128;
    proof {
        assert(f < HALF_UNIT);
        assert(fe * fe <= 250_000_000_000) by (nonlinear_arith)
            requires 0 <= fe < 500_000;
        assert((fe * fe) * (fe * fe) <= 62_500_000_000_000_000_000_000) by (nonlinear_arith)
            requires 0 <= fe * fe <= 250_000_000_000;
        assert((fe * fe) * fe <= 125_000_000_000_000_000) by (nonlinear_arith)
            requires 0 <= fe < 500_000, 0 <= fe * fe <= 250_000_000_000;
    }
    let pos: u128 = POLY_DEN + 12_000_000_000_000 * (fe * fe) + (fe * fe) * (fe * fe);
    let neg: u128 = 24_000_000_000_000_000_000 * fe + 4_000_000 * ((fe * fe) * fe);
    proof {
        assert(neg <= pos) by (nonlinear_arith)
            requires
                0 <= fe < 500_000,
                pos == 24_000_000_000_000_000_000_000_000 + 12_000_000_000_000 * (fe * fe) + (fe
                    * fe) * (fe * fe),
                neg == 24_000_000_000_000_000_000 * fe + 4_000_000 * ((fe * fe) * fe);
    }
    let np: u128 = pos - neg;
    proof {
        assert(np as int == exp_poly_num(f as int)) by (nonlinear_arith)
            requires
                np == pos - neg,
                neg <= pos,
                fe == f as int,
                pos == 24_000_000_000_000_000_000_000_000 + 12_000_000_000_000 * (fe * fe) + (fe
                    * fe) * (fe * fe),
                neg == 24_000_000_000_000_000_000 * fe + 4_000_000 * ((fe * fe) * fe),
                exp_poly_num(f as int) == 24_000_000_000_000_000_000_000_000
                    - 24_000_000_000_000_000_000 * (f as int) + 12_000_000_000_000 * ((f as int)
                    * (f as int)) - 4_000_000 * ((f as int) * (f as int) * (f as int)) + (f as int)
                    * (f as int) * (f as int) * (f as int);
        lemma_poly_bounds(f as int);
        lemma_exp_val_bounds(q as int, f as int);
        assert((v as int) * (np as int) <= (SCALE as int) * (POLY_DEN as int))
            by (nonlinear_arith)
            requires 0 <= v as int <= SCALE as int, 0 <= np as int <= POLY_DEN as int;
        assert((v as int) * (np as int) >= 0) by (nonlinear_arith)
            requires 0 <= v as int, 0 <= np as int;
    }
    let r128: u128 = (v as u128) * np / POLY_DEN;
    proof {
        assert(r128 as int == exp_val(q as int, f as int));
        assert(r128 <= SCALE);
    }
    r128 as u64
}

/// `ln(2)` in fixed point.
pub const LN_2: u64 = 693_147;

/// The halving stage of `ln_fixed` after `steps` rounds: the reduced
/// mantissa and the number of halvings taken so far.
pub open spec fn ln_halving(m0: int, steps: nat) -> (int, int)
    decreases steps,
{
    if steps == 0 {
        (m0, 0)
    } else {
        let prev = ln_halving(m0, (steps - 1) as nat);
        if prev.0 >= 2_000_000 {
            (prev.0 / 2, prev.1 + 1)
        } else {
            prev
        }
    }
}

/// The series stage of `ln_fixed`: an arc-tangent expansion of the
/// logarithm of the reduced mantissa `m`, in fixed point.
pub open spec fn ln_series_spec(m: int) -> int {
    let u = if m >= 1_000_000 {
        (m - 1_000_000) * 1_000_000 / (m + 1_000_000)
    } else {
        0
    };
    let u3 = (u * u) * u;
    let u5 = (u3 * u) * u;
    2 * u + (2 * u3) / 3_000_000_000_000 + (2 * u5) / 5_000_000_000_000_000_000_000_000
}

/// The value `ln_fixed` computes for `ln(t0 / tf)`: halve the fixed-point
/// ratio down to `[1, 2)` over at most 127 rounds, then add the series
/// value of the remainder.
pub open spec fn ln_spec(t0: u64, tf: u64) -> int {
    let h = ln_halving((t0 as int) * 1_000_000 / (tf as int), 127);
    h.1 * (LN_2 as int) + ln_series_spec(h.0)
}

/// A fixed-point approximation of `ln(t0 / tf)`, used once per run to set
/// up geometric cooling: exactly `ln_spec`. Every structural property of
/// the cooling schedule (monotonicity, start value, bounds) holds for any
/// value; the contract pins which value the schedule is built from.
pub(crate) fn ln_fixed(t0: u64, tf: u64) -> (r: u64)
    requires
        1 <= tf < t0,
    ensures
        r as int == ln_spec(t0, tf),
{
    let big: u128 = (t0 as u128) * (SCALE as u128);
    let mut m: u128 = big / (tf as u128);
    proof {
        vstd::arithmetic::div_mod::lemma_div_nonincreasing(big as int, tf as int);
        vstd::arithmetic::div_mod::lemma_div_pos_is_pos(big as int, tf as int);
        assert(big <= u64::MAX as u128 * SCALE as u128) by (nonlinear_arith)
            requires big == (t0 as int) * (SCALE as int), t0 <= u64::MAX, SCALE == 1_000_000u64;
    }
    let ghost m0 = m as int;
    let mut e: u64 = 0;
    for i in 0..127u64
        invariant
            e <= i,
            m <= u64::MAX as u128 * SCALE as u128,
            (m as int, e as int) == ln_halving(m0, i as nat),
    {
        if m >= 2_000_000 {
            m = m / 2;
            e = e + 1;
        }
    }
    let u: u128 = if m >= 1_000_000 {
        ((m - 1_000_000) * (SCALE as u128)) / (m + 1_000_000)
    } else {
        0
    };
    proof {
        if m >= 1_000_000 {
            assert(((m - 1_000_000) * (SCALE as u128)) as int <= ((m + 1_000_000) * (
            SCALE as u128)) as int) by (nonlinear_arith)
                requires 1_000_000 <= m as int;
            vstd::arithmetic::div_mod::lemma_div_is_ordered(
                ((m - 1_000_000) * (SCALE as u128)) as int,
                ((m + 1_000_000) * (SCALE as u128)) as int,
                (m + 1_000_000) as int,
            );
            vstd::arithmetic::div_mod::lemma_div_by_multiple(
                SCALE as int,
                (m + 1_000_000) as int,
            );
            assert(((m + 1_000_000) * (SCALE as u128)) as int == (SCALE as int) * ((m
                + 1_000_000) as int)) by (nonlinear_arith);
        }
        assert(u <= 1_000_000);
        assert(u * u <= 1_000_000_000_000) by (nonlinear_arith)
            requires 0 <= u <= 1_000_000;
        assert((u * u) * u <= 1_000_000_000_000_000_000) by (nonlinear_arith)
            requires 0 <= u <= 1_000_000, u * u <= 1_000_000_000_000;
    }
    let u3: u128 = (u * u) * u;
    proof {
        assert(u3 * u <= 1_000_000_000_000_000_000_000_000) by (nonlinear_arith)
            requires 0 <= u <= 1_000_000, 0 <= u3 <= 1_000_000_000_000_000_000;
        assert((u3 * u) * u <= 1_000_000_000_000_000_000_000_000_000_000) by (nonlinear_arith)
            requires 0 <= u <= 1_000_000, 0 <= u3 * u <= 1_000_000_000_000_000_000_000_000;
    }
    let u5: u128 = (u3 * u) * u;
    proof {
        vstd::arithmetic::div_mod::lemma_div_is_ordered(
            (2 * u3) as int,
            2_000_000_000_000_000_000int,
            3_000_000_000_000int,
        );
        vstd::arithmetic::div_mod::lemma_div_is_ordered(
            (2 * u5) as int,
            2_000_000_000_000_000_000_000_000_000_000int,
            5_000_000_000_000_000_000_000_000int,
        );
    }
    let t1: u64 = (2 * u) as u64;
    let t3: u64 = ((2 * u3) / 3_000_000_000_000) as u64;
    let t5: u64 = ((2 * u5) / 5_000_000_000_000_000_000_000_000) as u64;
    proof {
        assert(ln_halving(m0, 127) == (m as int, e as int));
        assert(ln_series_spec(m as int) == 2 * (u as int) + (2 * (u3 as int))
            / 3_000_000_000_000 + (2 * (u5 as int)) / 5_000_000_000_000_000_000_000_000);
    }
    e * LN_2 + t1 + t3 + t5
}

} // verus!
