//! The experiment generator: a finite, deterministic sweep of run
//! configurations over cooling method, instance and cooling-step width,
//! fifty runs per leg.

use vstd::prelude::*;

verus! {

/// The iteration budget every sweep configuration starts from.
pub const QTD_ITERS_INITIAL: usize = 3_000_000;

/// The initial temperature (800.0) every sweep configuration starts from.
pub const TEMP_INITIAL_INITIAL: u64 = 800_000_000;

/// The final temperature (0.000001) every sweep configuration starts from.
pub const TEMP_FINAL_INITIAL: u64 = 1;

/// The cooling-step width of the first sweep leg.
pub const QTD_ITERS_ON_TEMP_INITIAL: usize = 1;

/// The number of repeated runs in each sweep leg.
pub const RUNS_PER_LEG: usize = 50;

/// Which cooling schedule a sweep leg exercises; `Terminal` is the
/// sentinel state after the last leg.
#[derive(Clone, Copy, Debug, PartialEq, Eq, Structural)]
pub enum SweepMethod {
    Exp,
    Sigmoid,
    Cos,
    Terminal,
}

/// One point of the experiment sweep: the run parameters, the repeat
/// counter within its leg, and the leg coordinates (method, instance,
/// cooling-step width).
#[derive(Clone, Copy, Debug, PartialEq, Eq, Structural)]
pub struct Config {
    pub qtd_iters: usize,
    pub temp_initial: u64,
    pub temp_final: u64,
    pub qtd_iters_on_temp: usize,
    pub id: usize,
    pub method: SweepMethod,
    pub inst: usize,
}

/// The leg that follows a finished leg, in the fixed sweep order: the
/// three methods cycle, then the instance switches from 100 to 51, then
/// the step width from 1 to 10, then back to instance 100, and the sweep
/// ends after (Cos, 100, 10).
pub open spec fn next_leg(method: SweepMethod, inst: int, qtd: int) -> (SweepMethod, int, int) {
    if method == SweepMethod::Exp {
        (SweepMethod::Sigmoid, inst, qtd)
    } else if method == SweepMethod::Sigmoid {
        (SweepMethod::Cos, inst, qtd)
    } else if inst == 100 && qtd == 1 {
        (SweepMethod::Exp, 51, qtd)
    } else if qtd == 1 {
        (SweepMethod::Exp, inst, 10)
    } else if inst == 100 && qtd == 10 {
        (SweepMethod::Terminal, 1, 1)
    } else {
        (SweepMethod::Exp, 100, 10)
    }
}

/// The position of a leg in the sweep, counted down to the terminal
/// state; zero for anything off the sweep.
pub open spec fn leg_rank(method: SweepMethod, inst: int, qtd: int) -> int {
    if method == SweepMethod::Exp && inst == 100 && qtd == 1 {
        12
    } else if method == SweepMethod::Sigmoid && inst == 100 && qtd == 1 {
        11
    } else if method == SweepMethod::Cos && inst == 100 && qtd == 1 {
        10
    } else if method == SweepMethod::Exp && inst == 51 && qtd == 1 {
        9
    } else if method == SweepMethod::Sigmoid && inst == 51 && qtd == 1 {
        8
    } else if method == SweepMethod::Cos && inst == 51 && qtd == 1 {
        7
    } else if method == SweepMethod::Exp && inst == 51 && qtd == 10 {
        6
    } else if method == SweepMethod::Sigmoid && inst == 51 && qtd == 10 {
        5
    } else if method == SweepMethod::Cos && inst == 51 && qtd == 10 {
        4
    } else if method == SweepMethod::Exp && inst == 100 && qtd == 10 {
        3
    } else if method == SweepMethod::Sigmoid && inst == 100 && qtd == 10 {
        2
    } else if method == SweepMethod::Cos && inst == 100 && qtd == 10 {
        1
    } else {
        0
    }
}

/// A configuration the sweep can actually reach: on one of the twelve
/// legs with its repeat counter in range, or past the end.
pub open spec fn on_sweep(c: Config) -> bool {
    ||| (leg_rank(c.method, c.inst as int, c.qtd_iters_on_temp as int) >= 1 && c.id < RUNS_PER_LEG)
    ||| c.method == SweepMethod::Terminal
}

/// How far from the end of the sweep a configuration is; it shrinks with
/// every generated configuration, so the sweep is finite.
pub open spec fn sweep_rank(c: Config) -> int {
    if c.method == SweepMethod::Terminal {
        0
    } else {
        leg_rank(c.method, c.inst as int, c.qtd_iters_on_temp as int) * (RUNS_PER_LEG as int) + (
        RUNS_PER_LEG as int) - c.id
    }
}

impl Config {
    /// A sweep point at the start-of-sweep budget and temperatures.
    pub fn create(id: usize, method: SweepMethod, inst: usize, qtd_on_temp: usize) -> (r: Self)
        ensures
            r == (Config {
                qtd_iters: QTD_ITERS_INITIAL,
                temp_initial: TEMP_INITIAL_INITIAL,
                temp_final: TEMP_FINAL_INITIAL,
                qtd_iters_on_temp: qtd_on_temp,
                id,
                method,
                inst,
            }),
    {
        Self {
            qtd_iters: QTD_ITERS_INITIAL,
            temp_initial: TEMP_INITIAL_INITIAL,
            temp_final: TEMP_FINAL_INITIAL,
            qtd_iters_on_temp: qtd_on_temp,
            id,
            method,
            inst,
        }
    }

    /// The first sweep point: fifty exponential runs on instance 100 with
    /// step width 1.
    pub fn create_first() -> (r: Self)
        ensures
            r == (Config {
                qtd_iters: QTD_ITERS_INITIAL,
                temp_initial: TEMP_INITIAL_INITIAL,
                temp_final: TEMP_FINAL_INITIAL,
                qtd_iters_on_temp: QTD_ITERS_ON_TEMP_INITIAL,
                id: 0,
                method: SweepMethod::Exp,
                inst: 100,
            }),
            on_sweep(r),
    {
        Self {
            qtd_iters: QTD_ITERS_INITIAL,
            temp_initial: TEMP_INITIAL_INITIAL,
            temp_final: TEMP_FINAL_INITIAL,
            qtd_iters_on_temp: QTD_ITERS_ON_TEMP_INITIAL,
            id: 0,
            method: SweepMethod::Exp,
            inst: 100,
        }
    }

    /// Yields the current configuration and advances to the next one:
    /// fifty repeats per leg, then the next leg, `None` once the sweep has
    /// ended. On the sweep, every step strictly shrinks `sweep_rank`, so
    /// the generated sequence is finite.
    pub fn next(&mut self) -> (r: Option<Config>)
        ensures
            old(self).method == SweepMethod::Terminal ==> r == None::<Config> && *final(self)
                == *old(self),
            old(self).method != SweepMethod::Terminal ==> {
                &&& r == Some(*old(self))
                &&& final(self).qtd_iters == old(self).qtd_iters
                &&& final(self).temp_initial == old(self).temp_initial
                &&& final(self).temp_final == old(self).temp_final
                &&& if old(self).id + 1 < RUNS_PER_LEG {
                    &&& final(self).id == old(self).id + 1
                    &&& final(self).method == old(self).method
                    &&& final(self).inst == old(self).inst
                    &&& final(self).qtd_iters_on_temp == old(self).qtd_iters_on_temp
                } else {
                    &&& final(self).id == 0
                    &&& (
                    final(self).method,
                    final(self).inst as int,
                    final(self).qtd_iters_on_temp as int,
                    ) == next_leg(
                        old(self).method,
                        old(self).inst as int,
                        old(self).qtd_iters_on_temp as int,
                    )
                }
            },
            on_sweep(*old(self)) ==> on_sweep(*final(self)),
            on_sweep(*old(self)) && old(self).method != SweepMethod::Terminal ==> sweep_rank(
                *final(self),
            ) < sweep_rank(*old(self)),
    {
        if matches!(self.method, SweepMethod::Terminal) {
            return None;
        }
        let r = Some(*self);
        if self.id >= RUNS_PER_LEG - 1 {
            let (m, instance, qtd_on_iter): (SweepMethod, usize, usize) = if matches!(
                self.method,
                SweepMethod::Exp,
            ) {
                (SweepMethod::Sigmoid, self.inst, self.qtd_iters_on_temp)
            } else if matches!(self.method, SweepMethod::Sigmoid) {
                (SweepMethod::Cos, self.inst, self.qtd_iters_on_temp)
            } else if self.inst == 100 && self.qtd_iters_on_temp == 1 {
                (SweepMethod::Exp, 51, self.qtd_iters_on_temp)
            } else if self.qtd_iters_on_temp == 1 {
                (SweepMethod::Exp, self.inst, 10)
            } else if self.inst == 100 && self.qtd_iters_on_temp == 10 {
                (SweepMethod::Terminal, 1, 1)
            } else {
                (SweepMethod::Exp, 100, 10)
            };
            self.id = 0;
            self.method = m;
            self.inst = instance;
            self.qtd_iters_on_temp = qtd_on_iter;
        } else {
            self.id = self.id + 1;
        }
        r
    }
}

} // verus!
