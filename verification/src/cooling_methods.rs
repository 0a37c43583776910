//! The three cooling schedules of the engine.
//!
//! Each schedule is a pure map from a completed-iteration count `k` in
//! `[0, N]` to a fixed-point temperature. The `CoolingMethod` trait states
//! the laws every schedule obeys: the temperature starts at exactly the
//! initial temperature, never increases, and stays within `[0, T0]`.

use vstd::prelude::*;

use crate::fixed::{
    exp_neg, exp_neg_spec, lemma_div_frac_le, lemma_exp_neg_antitone, lemma_exp_neg_at_zero,
    ln_fixed, ln_spec, SCALE,
};

verus! {

/// Largest accepted initial temperature (one billion whole units).
pub const TEMP_MAX: u64 = 1_000_000_000_000_000;

/// Largest accepted iteration budget.
pub const ITERS_MAX: usize = 1_000_000_000;

/// Valid schedule parameters: a strictly descending temperature interval
/// and a positive iteration budget, within the fixed-point ranges.
pub open spec fn params_wf(initial_temperature: u64, final_temperature: u64, qtd_iters: usize) -> bool {
    &&& final_temperature < initial_temperature <= TEMP_MAX
    &&& 1 <= qtd_iters <= ITERS_MAX
}

/// A cooling schedule: a pure, deterministic temperature for every
/// completed-iteration count, falling from the initial temperature.
pub trait CoolingMethod: Sized {
    /// The initial temperature the schedule was created with.
    spec fn initial_temperature_spec(&self) -> u64;

    /// The final temperature the schedule was created with.
    spec fn final_temperature_spec(&self) -> u64;

    /// The iteration budget the schedule was created with.
    spec fn qtd_iters_spec(&self) -> usize;

    /// The schedule's parameters are valid.
    spec fn wf(&self) -> bool;

    /// The temperature after `k` completed iterations.
    spec fn temp_spec(&self, k: int) -> int;

    /// The schedule value that `create` builds from these parameters.
    spec fn spec_create(
        initial_temperature: u64,
        final_temperature: u64,
        qtd_iters: usize,
    ) -> Self;

    /// A well-formed schedule has well-formed parameters.
    proof fn lemma_wf_params(&self)
        requires
            self.wf(),
        ensures
            params_wf(
                self.initial_temperature_spec(),
                self.final_temperature_spec(),
                self.qtd_iters_spec(),
            ),
    ;

    /// The temperature never increases over the iteration budget.
    proof fn lemma_temp_non_increasing(&self, k1: int, k2: int)
        requires
            self.wf(),
            0 <= k1 <= k2 <= self.qtd_iters_spec(),
        ensures
            self.temp_spec(k2) <= self.temp_spec(k1),
    ;

    /// The temperature starts at exactly the initial temperature.
    proof fn lemma_temp_at_start(&self)
        requires
            self.wf(),
        ensures
            self.temp_spec(0) == self.initial_temperature_spec(),
    ;

    /// The temperature stays within `[0, T0]`.
    proof fn lemma_temp_bounds(&self, k: int)
        requires
            self.wf(),
            0 <= k <= self.qtd_iters_spec(),
        ensures
            0 <= self.temp_spec(k) <= self.initial_temperature_spec(),
    ;

    /// The temperature after `current_iter` completed iterations.
    fn get_next_temperature(&self, current_iter: usize) -> (r: u64)
        requires
            self.wf(),
            current_iter <= self.qtd_iters_spec(),
        ensures
            r as int == self.temp_spec(current_iter as int),
    ;

    /// A schedule over `[final_temperature, initial_temperature]` with
    /// budget `qtd_iters`.
    fn create(initial_temperature: u64, final_temperature: u64, qtd_iters: usize) -> (r: Self)
        requires
            params_wf(initial_temperature, final_temperature, qtd_iters),
        ensures
            r == Self::spec_create(initial_temperature, final_temperature, qtd_iters),
            r.wf(),
            r.initial_temperature_spec() == initial_temperature,
            r.final_temperature_spec() == final_temperature,
            r.qtd_iters_spec() == qtd_iters,
    ;
}

/// Front-loaded decay with a long flat tail:
/// `T(k) = a / (k+1) + b` with `a = (T0-Tf)(N+1)/N` and `b = T0 - a`,
/// which reduces to the single fraction
/// `T(k) = Tf + (T0-Tf)(N-k) / (N(k+1))`.
pub struct SigmoidCooling {
    pub initial_temperature: u64,
    pub final_temperature: u64,
    pub qtd_iters: usize,
}

impl CoolingMethod for SigmoidCooling {
    open spec fn initial_temperature_spec(&self) -> u64 {
        self.initial_temperature
    }

    open spec fn final_temperature_spec(&self) -> u64 {
        self.final_temperature
    }

    open spec fn qtd_iters_spec(&self) -> usize {
        self.qtd_iters
    }

    open spec fn wf(&self) -> bool {
        params_wf(self.initial_temperature, self.final_temperature, self.qtd_iters)
    }

    open spec fn temp_spec(&self, k: int) -> int {
        self.final_temperature + (self.initial_temperature - self.final_temperature) * (
        self.qtd_iters - k) / ((self.qtd_iters as int) * (k + 1))
    }

    open spec fn spec_create(
        initial_temperature: u64,
        final_temperature: u64,
        qtd_iters: usize,
    ) -> Self {
        SigmoidCooling { initial_temperature, final_temperature, qtd_iters }
    }

    proof fn lemma_wf_params(&self) {
    }

    proof fn lemma_temp_non_increasing(&self, k1: int, k2: int) {
        let a = self.initial_temperature - self.final_temperature;
        let n = self.qtd_iters as int;
        assert((n - k2) * (k1 + 1) <= (n - k1) * (k2 + 1)) by (nonlinear_arith)
            requires 0 <= k1 <= k2 <= n;
        assert((a * (n - k2)) * (n * (k1 + 1)) == (a * n) * ((n - k2) * (k1 + 1)))
            by (nonlinear_arith);
        assert((a * (n - k1)) * (n * (k2 + 1)) == (a * n) * ((n - k1) * (k2 + 1)))
            by (nonlinear_arith);
        assert((a * n) * ((n - k2) * (k1 + 1)) <= (a * n) * ((n - k1) * (k2 + 1)))
            by (nonlinear_arith)
            requires 0 <= a * n, (n - k2) * (k1 + 1) <= (n - k1) * (k2 + 1);
        assert(0 <= a * (n - k2) && 0 < n * (k2 + 1) && 0 <= a * (n - k1) && 0 < n * (k1 + 1))
            by (nonlinear_arith)
            requires 0 < a, 0 <= k1 <= k2 <= n, 0 < n;
        lemma_div_frac_le(a * (n - k2), n * (k2 + 1), a * (n - k1), n * (k1 + 1));
    }

    proof fn lemma_temp_at_start(&self) {
        let a = self.initial_temperature - self.final_temperature;
        let n = self.qtd_iters as int;
        assert(n * 1 == n);
        vstd::arithmetic::div_mod::lemma_div_by_multiple(a, n);
    }

    proof fn lemma_temp_bounds(&self, k: int) {
        let a = self.initial_temperature - self.final_temperature;
        let n = self.qtd_iters as int;
        assert(0 <= a * (n - k) && 0 < n * (k + 1)) by (nonlinear_arith)
            requires 0 < a, 0 <= k <= n, 0 < n;
        vstd::arithmetic::div_mod::lemma_div_pos_is_pos(a * (n - k), n * (k + 1));
        assert(a * (n - k) <= (n * (k + 1)) * a) by (nonlinear_arith)
            requires 0 < a, 0 <= k <= n, 0 < n;
        vstd::arithmetic::div_mod::lemma_multiply_divide_le(a * (n - k), n * (k + 1), a);
    }

    fn get_next_temperature(&self, current_iter: usize) -> (r: u64) {
        let a: u64 = self.initial_temperature - self.final_temperature;
        proof {
            assert((a as int) * ((self.qtd_iters - current_iter) as int) <= (TEMP_MAX as int) * (
            ITERS_MAX as int)) by (nonlinear_arith)
                requires
                    0 <= a <= TEMP_MAX,
                    0 <= self.qtd_iters - current_iter <= ITERS_MAX;
            assert((self.qtd_iters as int) * ((current_iter + 1) as int) <= (ITERS_MAX as int) * (
            ITERS_MAX as int + 1)) by (nonlinear_arith)
                requires
                    0 <= self.qtd_iters <= ITERS_MAX,
                    0 <= current_iter + 1 <= ITERS_MAX as int + 1;
        }
        let num: u128 = (a as u128) * ((self.qtd_iters - current_iter) as u128);
        let den: u128 = (self.qtd_iters as u128) * ((current_iter + 1) as u128);
        proof {
            let n = self.qtd_iters as int;
            let k = current_iter as int;
            assert(num == (a as int) * (n - k) && den == n * (k + 1) && 0 < den)
                by (nonlinear_arith)
                requires
                    num == (a as int) * (n - k),
                    den == n * (k + 1),
                    0 <= k <= n,
                    0 < n;
            assert(num <= den * (a as int)) by (nonlinear_arith)
                requires
                    num == (a as int) * (n - k),
                    den == n * (k + 1),
                    0 < a,
                    0 <= k <= n,
                    0 < n;
            vstd::arithmetic::div_mod::lemma_multiply_divide_le(num as int, den as int, a as int);
            vstd::arithmetic::div_mod::lemma_div_pos_is_pos(num as int, den as int);
        }
        let q: u64 = (num / den) as u64;
        self.final_temperature + q
    }

    fn create(initial_temperature: u64, final_temperature: u64, qtd_iters: usize) -> (r: Self) {
        SigmoidCooling { initial_temperature, final_temperature, qtd_iters }
    }
}

impl SigmoidCooling {
    /// This schedule never falls below the final temperature.
    pub proof fn lemma_temp_at_least_final(&self, k: int)
        requires
            self.wf(),
            0 <= k <= self.qtd_iters,
        ensures
            self.temp_spec(k) >= self.final_temperature,
    {
        let a = self.initial_temperature - self.final_temperature;
        let n = self.qtd_iters as int;
        assert(0 <= a * (n - k) && 0 < n * (k + 1)) by (nonlinear_arith)
            requires 0 < a, 0 <= k <= n, 0 < n;
        vstd::arithmetic::div_mod::lemma_div_pos_is_pos(a * (n - k), n * (k + 1));
    }

    /// This schedule lands exactly on the final temperature at the end of
    /// the budget.
    pub proof fn lemma_temp_at_end(&self)
        requires
            self.wf(),
        ensures
            self.temp_spec(self.qtd_iters as int) == self.final_temperature,
    {
        let a = self.initial_temperature - self.final_temperature;
        let n = self.qtd_iters as int;
        assert(a * (n - n) == 0) by (nonlinear_arith);
        assert(0 < n * (n + 1)) by (nonlinear_arith)
            requires 0 < n;
        vstd::arithmetic::div_mod::lemma_div_of0(n * (n + 1));
    }
}

/// Geometric decay `T(k) = T0 * (Tf/T0)^(k/N)`, computed through
/// `exp(-k * ln(T0/Tf) / N)` in fixed point. A zero final temperature is
/// the degenerate limit: `T0` at the start, zero after.
pub struct ExpCooling {
    pub initial_temperature: u64,
    pub final_temperature: u64,
    pub qtd_iters: usize,
    pub ln_ratio: u64,
}

impl CoolingMethod for ExpCooling {
    open spec fn initial_temperature_spec(&self) -> u64 {
        self.initial_temperature
    }

    open spec fn final_temperature_spec(&self) -> u64 {
        self.final_temperature
    }

    open spec fn qtd_iters_spec(&self) -> usize {
        self.qtd_iters
    }

    open spec fn wf(&self) -> bool {
        params_wf(self.initial_temperature, self.final_temperature, self.qtd_iters)
    }

    open spec fn temp_spec(&self, k: int) -> int {
        if self.final_temperature == 0 {
            if k == 0 {
                self.initial_temperature as int
            } else {
                0
            }
        } else {
            (self.initial_temperature as int) * exp_neg_spec(
                k * (self.ln_ratio as int) / (self.qtd_iters as int),
            ) / (SCALE as int)
        }
    }

    open spec fn spec_create(
        initial_temperature: u64,
        final_temperature: u64,
        qtd_iters: usize,
    ) -> Self {
        ExpCooling {
            initial_temperature,
            final_temperature,
            qtd_iters,
            ln_ratio: if final_temperature >= 1 {
                ln_spec(initial_temperature, final_temperature) as u64
            } else {
                0
            },
        }
    }

    proof fn lemma_wf_params(&self) {
    }

    proof fn lemma_temp_non_increasing(&self, k1: int, k2: int) {
        if self.final_temperature == 0 {
            self.lemma_temp_bounds(k1);
            self.lemma_temp_bounds(k2);
        } else {
            let t0 = self.initial_temperature as int;
            let el = self.ln_ratio as int;
            let n = self.qtd_iters as int;
            assert(k1 * el <= k2 * el) by (nonlinear_arith)
                requires 0 <= el, k1 <= k2;
            assert(0 <= k1 * el) by (nonlinear_arith)
                requires 0 <= el, 0 <= k1;
            vstd::arithmetic::div_mod::lemma_div_is_ordered(k1 * el, k2 * el, n);
            vstd::arithmetic::div_mod::lemma_div_pos_is_pos(k1 * el, n);
            lemma_exp_neg_antitone(k1 * el / n, k2 * el / n);
            let e1 = exp_neg_spec(k1 * el / n);
            let e2 = exp_neg_spec(k2 * el / n);
            assert(t0 * e2 <= t0 * e1) by (nonlinear_arith)
                requires 0 <= t0, e2 <= e1;
            vstd::arithmetic::div_mod::lemma_div_is_ordered(t0 * e2, t0 * e1, SCALE as int);
        }
    }

    proof fn lemma_temp_at_start(&self) {
        if self.final_temperature != 0 {
            let t0 = self.initial_temperature as int;
            let n = self.qtd_iters as int;
            vstd::arithmetic::div_mod::lemma_div_of0(n);
            assert(0 * (self.ln_ratio as int) == 0) by (nonlinear_arith);
            lemma_exp_neg_at_zero();
            vstd::arithmetic::div_mod::lemma_div_by_multiple(t0, SCALE as int);
        }
    }

    proof fn lemma_temp_bounds(&self, k: int) {
        if self.final_temperature != 0 {
            let t0 = self.initial_temperature as int;
            let el = self.ln_ratio as int;
            let n = self.qtd_iters as int;
            let arg = k * el / n;
            assert(0 <= k * el) by (nonlinear_arith)
                requires 0 <= el, 0 <= k;
            vstd::arithmetic::div_mod::lemma_div_pos_is_pos(k * el, n);
            crate::fixed::lemma_exp_neg_in_range(arg);
            let e = exp_neg_spec(arg);
            assert(0 <= t0 * e <= t0 * SCALE) by (nonlinear_arith)
                requires 0 <= t0, 0 <= e <= SCALE;
            vstd::arithmetic::div_mod::lemma_div_pos_is_pos(t0 * e, SCALE as int);
            vstd::arithmetic::div_mod::lemma_div_is_ordered(t0 * e, t0 * SCALE, SCALE as int);
            vstd::arithmetic::div_mod::lemma_div_by_multiple(t0, SCALE as int);
        }
    }

    fn get_next_temperature(&self, current_iter: usize) -> (r: u64) {
        if self.final_temperature == 0 {
            if current_iter == 0 {
                self.initial_temperature
            } else {
                0
            }
        } else {
            proof {
                assert((current_iter as int) * (self.ln_ratio as int) <= (ITERS_MAX as int) * (
                u64::MAX as int)) by (nonlinear_arith)
                    requires
                        0 <= current_iter <= ITERS_MAX,
                        0 <= self.ln_ratio <= u64::MAX;
                assert(0 <= (current_iter as int) * (self.ln_ratio as int)) by (nonlinear_arith)
                    requires 0 <= current_iter, 0 <= self.ln_ratio;
                assert((current_iter as int) * (self.ln_ratio as int) <= (self.qtd_iters as int)
                    * (self.ln_ratio as int)) by (nonlinear_arith)
                    requires 0 <= current_iter <= self.qtd_iters, 0 <= self.ln_ratio;
                vstd::arithmetic::div_mod::lemma_div_is_ordered(
                    (current_iter as int) * (self.ln_ratio as int),
                    (self.qtd_iters as int) * (self.ln_ratio as int),
                    self.qtd_iters as int,
                );
                vstd::arithmetic::div_mod::lemma_div_pos_is_pos(
                    (current_iter as int) * (self.ln_ratio as int),
                    self.qtd_iters as int,
                );
                vstd::arithmetic::div_mod::lemma_div_by_multiple(
                    self.ln_ratio as int,
                    self.qtd_iters as int,
                );
                assert((self.qtd_iters as int) * (self.ln_ratio as int) == (self.ln_ratio as int)
                    * (self.qtd_iters as int)) by (nonlinear_arith);
            }
            let arg: u128 = (current_iter as u128) * (self.ln_ratio as u128) / (
            self.qtd_iters as u128);
            let e: u64 = exp_neg(arg as u64);
            proof {
                assert((self.initial_temperature as int) * (e as int) <= (TEMP_MAX as int) * (
                SCALE as int)) by (nonlinear_arith)
                    requires
                        0 <= self.initial_temperature <= TEMP_MAX,
                        0 <= e <= SCALE;
                assert(0 <= (self.initial_temperature as int) * (e as int)) by (nonlinear_arith)
                    requires 0 <= self.initial_temperature, 0 <= e;
                assert((self.initial_temperature as int) * (e as int) <= (SCALE as int) * (
                self.initial_temperature as int)) by (nonlinear_arith)
                    requires 0 <= self.initial_temperature, 0 <= e <= SCALE;
                vstd::arithmetic::div_mod::lemma_multiply_divide_le(
                    (self.initial_temperature as int) * (e as int),
                    SCALE as int,
                    self.initial_temperature as int,
                );
                vstd::arithmetic::div_mod::lemma_div_pos_is_pos(
                    (self.initial_temperature as int) * (e as int),
                    SCALE as int,
                );
            }
            ((self.initial_temperature as u128) * (e as u128) / (SCALE as u128)) as u64
        }
    }

    fn create(initial_temperature: u64, final_temperature: u64, qtd_iters: usize) -> (r: Self) {
        let ln_ratio: u64 = if final_temperature >= 1 {
            ln_fixed(initial_temperature, final_temperature)
        } else {
            0
        };
        proof {
            if final_temperature >= 1 {
                assert(ln_ratio as int == ln_spec(initial_temperature, final_temperature));
                assert(ln_ratio == ln_spec(initial_temperature, final_temperature) as u64);
            }
        }
        ExpCooling { initial_temperature, final_temperature, qtd_iters, ln_ratio }
    }
}

/// A quarter turn in fixed point: `pi/2 * SCALE`, rounded.
pub const PI_HALF: u64 = 1_570_796;

/// `4 * PI_HALF^2`, standing for `pi^2` in squared fixed-point units.
pub const PI_SQ: u64 = 9_869_600_294_464;

/// Smooth half-cosine descent `T(k) = (T0-Tf)/2 * (1 + cos(k pi / N)) + Tf`,
/// computed through the half-angle identity `1 + cos(2z) = 2 cos(z)^2` and a
/// rational approximation of `cos` on `[0, pi/2]`:
/// `cos(z) ~ (pi^2 - 4 z^2) / (pi^2 + z^2)`, exact at both ends.
pub struct CosCooling {
    pub initial_temperature: u64,
    pub final_temperature: u64,
    pub qtd_iters: usize,
}

impl CosCooling {
    /// The half angle `k * (pi/2) / N` in fixed point.
    pub open spec fn cos_u(&self, k: int) -> int {
        k * (PI_HALF as int) / (self.qtd_iters as int)
    }

    /// The approximated `cos` of the half angle, in fixed point.
    pub open spec fn cos_c(&self, k: int) -> int {
        let u = self.cos_u(k);
        (SCALE as int) * ((PI_SQ as int) - 4 * (u * u)) / ((PI_SQ as int) + u * u)
    }

    /// The half angle runs from zero to a quarter turn.
    proof fn lemma_cos_u_bounds(&self, k: int)
        requires
            self.wf(),
            0 <= k <= self.qtd_iters,
        ensures
            0 <= self.cos_u(k) <= PI_HALF,
    {
        let n = self.qtd_iters as int;
        assert(0 <= k * (PI_HALF as int) <= n * (PI_HALF as int)) by (nonlinear_arith)
            requires 0 <= k <= n;
        vstd::arithmetic::div_mod::lemma_div_pos_is_pos(k * (PI_HALF as int), n);
        vstd::arithmetic::div_mod::lemma_div_is_ordered(
            k * (PI_HALF as int),
            n * (PI_HALF as int),
            n,
        );
        vstd::arithmetic::div_mod::lemma_div_by_multiple(PI_HALF as int, n);
        assert(n * (PI_HALF as int) == (PI_HALF as int) * n) by (nonlinear_arith);
    }

    /// The approximated `cos` stays within `[0, 1]` in whole units.
    proof fn lemma_cos_c_bounds(&self, k: int)
        requires
            self.wf(),
            0 <= k <= self.qtd_iters,
        ensures
            0 <= self.cos_c(k) <= SCALE,
    {
        self.lemma_cos_u_bounds(k);
        let u = self.cos_u(k);
        assert(4 * (u * u) <= PI_SQ && 0 <= u * u) by (nonlinear_arith)
            requires 0 <= u <= 1_570_796;
        let num = (SCALE as int) * ((PI_SQ as int) - 4 * (u * u));
        let den = (PI_SQ as int) + u * u;
        vstd::arithmetic::div_mod::lemma_div_pos_is_pos(num, den);
        assert(num <= den * (SCALE as int)) by (nonlinear_arith)
            requires 0 <= u * u, 4 * (u * u) <= PI_SQ, num == (SCALE as int) * ((PI_SQ as int) - 4
                * (u * u)), den == (PI_SQ as int) + u * u;
        vstd::arithmetic::div_mod::lemma_multiply_divide_le(num, den, SCALE as int);
    }

    /// The approximated `cos` never increases over the budget.
    proof fn lemma_cos_c_antitone(&self, k1: int, k2: int)
        requires
            self.wf(),
            0 <= k1 <= k2 <= self.qtd_iters,
        ensures
            self.cos_c(k2) <= self.cos_c(k1),
    {
        self.lemma_cos_u_bounds(k1);
        self.lemma_cos_u_bounds(k2);
        let n = self.qtd_iters as int;
        let u1 = self.cos_u(k1);
        let u2 = self.cos_u(k2);
        assert(k1 * (PI_HALF as int) <= k2 * (PI_HALF as int)) by (nonlinear_arith)
            requires k1 <= k2;
        vstd::arithmetic::div_mod::lemma_div_is_ordered(
            k1 * (PI_HALF as int),
            k2 * (PI_HALF as int),
            n,
        );
        assert(u1 * u1 <= u2 * u2 && 4 * (u2 * u2) <= PI_SQ) by (nonlinear_arith)
            requires 0 <= u1 <= u2 <= 1_570_796;
        let p = PI_SQ as int;
        assert(((SCALE as int) * (p - 4 * (u2 * u2))) * (p + u1 * u1) <= ((SCALE as int) * (p - 4
            * (u1 * u1))) * (p + u2 * u2)) by (nonlinear_arith)
            requires
                0 <= u1 * u1 <= u2 * u2,
                4 * (u2 * u2) <= p,
                4 * (u1 * u1) <= p,
                p == 9_869_600_294_464;
        assert(0 <= (SCALE as int) * (p - 4 * (u2 * u2)) && 0 < p + u2 * u2 && 0 <= (
        SCALE as int) * (p - 4 * (u1 * u1)) && 0 < p + u1 * u1) by (nonlinear_arith)
            requires 0 <= u1 * u1 <= u2 * u2, 4 * (u2 * u2) <= p, 4 * (u1 * u1) <= p, p
                == 9_869_600_294_464;
        lemma_div_frac_le(
            (SCALE as int) * (p - 4 * (u2 * u2)),
            p + u2 * u2,
            (SCALE as int) * (p - 4 * (u1 * u1)),
            p + u1 * u1,
        );
    }

    /// This schedule never falls below the final temperature.
    pub proof fn lemma_temp_at_least_final(&self, k: int)
        requires
            self.wf(),
            0 <= k <= self.qtd_iters,
        ensures
            self.temp_spec(k) >= self.final_temperature,
    {
        self.lemma_cos_c_bounds(k);
        let a = self.initial_temperature - self.final_temperature;
        let c = self.cos_c(k);
        assert(0 <= a * (c * c)) by (nonlinear_arith)
            requires 0 <= a, 0 <= c;
        vstd::arithmetic::div_mod::lemma_div_pos_is_pos(a * (c * c), 1_000_000_000_000int);
    }

    /// This schedule lands exactly on the final temperature at the end of
    /// the budget.
    pub proof fn lemma_temp_at_end(&self)
        requires
            self.wf(),
        ensures
            self.temp_spec(self.qtd_iters as int) == self.final_temperature,
    {
        let n = self.qtd_iters as int;
        vstd::arithmetic::div_mod::lemma_div_by_multiple(PI_HALF as int, n);
        assert(n * (PI_HALF as int) == (PI_HALF as int) * n) by (nonlinear_arith);
        let u = self.cos_u(n);
        assert(u == PI_HALF);
        assert(4 * (u * u) == PI_SQ) by (nonlinear_arith)
            requires u == 1_570_796;
        assert((SCALE as int) * ((PI_SQ as int) - 4 * (u * u)) == 0);
        vstd::arithmetic::div_mod::lemma_div_of0((PI_SQ as int) + u * u);
        let c = self.cos_c(n);
        assert(c == 0);
        let a = self.initial_temperature - self.final_temperature;
        assert(a * (c * c) == 0) by (nonlinear_arith)
            requires c == 0;
        vstd::arithmetic::div_mod::lemma_div_of0(1_000_000_000_000int);
    }
}

impl CoolingMethod for CosCooling {
    open spec fn initial_temperature_spec(&self) -> u64 {
        self.initial_temperature
    }

    open spec fn final_temperature_spec(&self) -> u64 {
        self.final_temperature
    }

    open spec fn qtd_iters_spec(&self) -> usize {
        self.qtd_iters
    }

    open spec fn wf(&self) -> bool {
        params_wf(self.initial_temperature, self.final_temperature, self.qtd_iters)
    }

    open spec fn temp_spec(&self, k: int) -> int {
        let c = self.cos_c(k);
        self.final_temperature + (self.initial_temperature - self.final_temperature) * (c * c)
            / 1_000_000_000_000
    }

    open spec fn spec_create(
        initial_temperature: u64,
        final_temperature: u64,
        qtd_iters: usize,
    ) -> Self {
        CosCooling { initial_temperature, final_temperature, qtd_iters }
    }

    proof fn lemma_wf_params(&self) {
    }

    proof fn lemma_temp_non_increasing(&self, k1: int, k2: int) {
        self.lemma_cos_c_antitone(k1, k2);
        self.lemma_cos_c_bounds(k1);
        self.lemma_cos_c_bounds(k2);
        let a = self.initial_temperature - self.final_temperature;
        let c1 = self.cos_c(k1);
        let c2 = self.cos_c(k2);
        assert(a * (c2 * c2) <= a * (c1 * c1)) by (nonlinear_arith)
            requires 0 <= a, 0 <= c2 <= c1;
        vstd::arithmetic::div_mod::lemma_div_is_ordered(
            a * (c2 * c2),
            a * (c1 * c1),
            1_000_000_000_000int,
        );
    }

    proof fn lemma_temp_at_start(&self) {
        let n = self.qtd_iters as int;
        vstd::arithmetic::div_mod::lemma_div_of0(n);
        assert(0 * (PI_HALF as int) == 0) by (nonlinear_arith);
        let u = self.cos_u(0);
        assert(u == 0);
        vstd::arithmetic::div_mod::lemma_div_by_multiple(SCALE as int, PI_SQ as int);
        let c = self.cos_c(0);
        assert(c == SCALE);
        let a = self.initial_temperature - self.final_temperature;
        assert(c * c == 1_000_000_000_000) by (nonlinear_arith)
            requires c == 1_000_000;
        vstd::arithmetic::div_mod::lemma_div_by_multiple(a as int, 1_000_000_000_000int);
    }

    proof fn lemma_temp_bounds(&self, k: int) {
        self.lemma_cos_c_bounds(k);
        let a = self.initial_temperature - self.final_temperature;
        let c = self.cos_c(k);
        assert(0 <= a * (c * c) && a * (c * c) <= 1_000_000_000_000int * a) by (nonlinear_arith)
            requires 0 <= a, 0 <= c <= 1_000_000;
        vstd::arithmetic::div_mod::lemma_div_pos_is_pos(a * (c * c), 1_000_000_000_000int);
        vstd::arithmetic::div_mod::lemma_multiply_divide_le(
            a * (c * c),
            1_000_000_000_000int,
            a as int,
        );
    }

    fn get_next_temperature(&self, current_iter: usize) -> (r: u64) {
        let k = current_iter;
        proof {
            assert(0 <= (k as int) * (PI_HALF as int) && (k as int) * (PI_HALF as int) <= (
            ITERS_MAX as int) * (PI_HALF as int)) by (nonlinear_arith)
                requires 0 <= k <= ITERS_MAX;
            self.lemma_cos_u_bounds(k as int);
        }
        let u: u128 = (k as u128) * (PI_HALF as u128) / (self.qtd_iters as u128);
        proof {
            assert(u == self.cos_u(k as int));
            assert(u * u <= 2_467_400_073_616 && 4 * (u * u) <= PI_SQ) by (nonlinear_arith)
                requires 0 <= u <= 1_570_796;
            self.lemma_cos_c_bounds(k as int);
        }
        let usq: u128 = u * u;
        let c: u128 = 1_000_000 * ((PI_SQ as u128) - 4 * usq) / ((PI_SQ as u128) + usq);
        proof {
            assert(c == self.cos_c(k as int));
            assert(c * c <= 1_000_000_000_000) by (nonlinear_arith)
                requires 0 <= c <= 1_000_000;
        }
        let csq: u128 = c * c;
        let a: u64 = self.initial_temperature - self.final_temperature;
        proof {
            assert((a as int) * (csq as int) <= (TEMP_MAX as int) * 1_000_000_000_000int)
                by (nonlinear_arith)
                requires 0 <= a <= TEMP_MAX, 0 <= csq <= 1_000_000_000_000;
            assert(0 <= (a as int) * (csq as int)) by (nonlinear_arith)
                requires 0 <= a, 0 <= csq;
            assert((a as int) * (csq as int) <= 1_000_000_000_000int * (a as int))
                by (nonlinear_arith)
                requires 0 <= a, 0 <= csq <= 1_000_000_000_000;
            vstd::arithmetic::div_mod::lemma_multiply_divide_le(
                (a as int) * (csq as int),
                1_000_000_000_000int,
                a as int,
            );
            vstd::arithmetic::div_mod::lemma_div_pos_is_pos(
                (a as int) * (csq as int),
                1_000_000_000_000int,
            );
        }
        let q: u64 = (((a as u128) * csq) / 1_000_000_000_000) as u64;
        self.final_temperature + q
    }

    fn create(initial_temperature: u64, final_temperature: u64, qtd_iters: usize) -> (r: Self) {
        CosCooling { initial_temperature, final_temperature, qtd_iters }
    }
}

} // verus!
