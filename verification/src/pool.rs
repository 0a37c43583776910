//! One job per sweep configuration, and the reduction of the results.
//!
//! A job builds a fresh annealing run over the shared instance data,
//! drives it to exhaustion and reports a `RunResult`. Failures are
//! isolated per job: an invalid configuration or an empty instance rejects
//! that job alone. The aggregator either tracks the minimum result or
//! appends each result to a per-key log.

use vstd::prelude::*;

use crate::cooling_methods::{params_wf, CoolingMethod, CosCooling, ExpCooling, SigmoidCooling};
use crate::data::{data_wf, DataNode};
use crate::sweep::{Config, SweepMethod};
use crate::{TSAConfig, TsaError, TSA};

verus! {

/// What one finished job reports back: its final tour length, the sweep
/// coordinates it ran under, and its closing bookkeeping.
#[derive(Clone, Copy, Debug, PartialEq, Eq, Structural)]
pub struct RunResult {
    pub distance: u64,
    pub method: SweepMethod,
    pub inst: usize,
    pub qtd_on_iter: usize,
    pub iterations_completed: usize,
    pub final_temperature: u64,
}

/// The stable key results are grouped by: instance, cooling method and
/// cooling-step width.
#[derive(Clone, Copy, Debug, PartialEq, Eq, Structural)]
pub struct SweepKey {
    pub method: SweepMethod,
    pub inst: usize,
    pub qtd_on_iter: usize,
}

impl RunResult {
    /// The grouping key of this result.
    pub fn key(&self) -> (k: SweepKey)
        ensures
            k == (SweepKey { method: self.method, inst: self.inst, qtd_on_iter: self.qtd_on_iter }),
    {
        SweepKey { method: self.method, inst: self.inst, qtd_on_iter: self.qtd_on_iter }
    }
}

/// A sweep configuration a job can actually run: a real cooling method
/// and parameters inside the engine's ranges.
pub open spec fn config_runnable(config: Config) -> bool {
    &&& config.method != SweepMethod::Terminal
    &&& params_wf(config.temp_initial, config.temp_final, config.qtd_iters)
    &&& config.qtd_iters_on_temp >= 1
}

/// The engine configuration a job builds from a sweep configuration,
/// under the schedule type `T`.
pub open spec fn spec_sim_config<T: CoolingMethod>(config: Config) -> TSAConfig<T> {
    TSAConfig {
        initial_temperature: config.temp_initial,
        final_temperature: config.temp_final,
        qtd_iters: config.qtd_iters,
        qtd_iters_on_temp: config.qtd_iters_on_temp,
        cooling_method: T::spec_create(config.temp_initial, config.temp_final, config.qtd_iters),
    }
}

/// The temperature a job holds when its budget runs out: the engine's
/// bookkeeping value after `qtd_iters` iterations under the configured
/// schedule.
pub open spec fn closing_temperature(config: Config) -> int {
    match config.method {
        SweepMethod::Exp => crate::scheduled_temperature(
            spec_sim_config::<ExpCooling>(config),
            config.qtd_iters as int,
        ),
        SweepMethod::Sigmoid => crate::scheduled_temperature(
            spec_sim_config::<SigmoidCooling>(config),
            config.qtd_iters as int,
        ),
        SweepMethod::Cos => crate::scheduled_temperature(
            spec_sim_config::<CosCooling>(config),
            config.qtd_iters as int,
        ),
        SweepMethod::Terminal => 0,
    }
}

/// The reported tour length is genuine: some permutation tour, evaluated
/// under the true distance table of the instance (rearranged into group
/// order, as the engine holds it).
pub open spec fn genuine_tour_length(data: Seq<DataNode>, distance_value: u64) -> bool {
    exists|arr: Seq<DataNode>, m: Seq<Seq<u64>>, s: Seq<usize>|
        {
            &&& #[trigger] crate::distance::matrix_wf(m, arr)
            &&& arr.len() == data.len()
            &&& forall|j: int|
                0 <= j < data.len() ==> arr[(#[trigger] data[j]).group - 1] == data[j]
            &&& crate::tour::is_permutation(s, arr.len() as nat)
            &&& distance_value as int == #[trigger] crate::distance::tour_len(m, s)
        }
}

/// Runs one annealing job under a fixed schedule type to exhaustion.
fn run_one<T: CoolingMethod>(config: &Config, data: &Vec<DataNode>) -> (r: Result<
    RunResult,
    TsaError,
>)
    requires
        data_wf(data@),
        config_runnable(*config),
    ensures
        match r {
            Ok(res) => {
                &&& data@.len() >= 1
                &&& res.method == config.method
                &&& res.inst == config.inst
                &&& res.qtd_on_iter == config.qtd_iters_on_temp
                &&& res.iterations_completed == config.qtd_iters
                &&& res.final_temperature as int == crate::scheduled_temperature(
                    spec_sim_config::<T>(*config),
                    config.qtd_iters as int,
                )
                &&& genuine_tour_length(data@, res.distance)
            },
            Err(e) => e == TsaError::EmptyInstance && data@.len() == 0,
        },
{
    let sim_config: TSAConfig<T> = TSAConfig::create(
        config.temp_final,
        config.temp_initial,
        config.qtd_iters,
        config.qtd_iters_on_temp,
    );
    let ghost sim_config_snap = sim_config;
    proof {
        assert(sim_config_snap =~= spec_sim_config::<T>(*config));
    }
    let mut owned: Vec<DataNode> = Vec::new();
    for i in 0..data.len()
        invariant
            owned@ == data@.subrange(0, i as int),
    {
        owned.push(data[i]);
        proof {
            assert(owned@ =~= data@.subrange(0, i + 1));
        }
    }
    proof {
        assert(owned@ =~= data@);
    }
    let mut sim: TSA<T> = match TSA::create(owned, sim_config) {
        Ok(s) => s,
        Err(e) => {
            return Err(e);
        },
    };
    let qtd_iters = config.qtd_iters;
    let ghost step = sim_config_snap.qtd_iters_on_temp as int;
    proof {
        vstd::arithmetic::div_mod::lemma_small_mod(0nat, step as nat);
    }
    for _i in 0..qtd_iters
        invariant
            sim.wf(),
            sim.spec_current_iter() == _i,
            sim.spec_config() == sim_config_snap,
            sim_config_snap.qtd_iters == qtd_iters,
            step == sim_config_snap.qtd_iters_on_temp as int,
            sim.spec_iters_on_temp() as int == (_i as int) % step,
            sim.spec_temperature() as int == crate::scheduled_temperature(
                sim_config_snap,
                _i as int,
            ),
            sim.data@.len() == data@.len(),
            forall|j: int|
                0 <= j < data@.len() ==> sim.data@[(#[trigger] data@[j]).group - 1] == data@[j],
    {
        sim.gen_next_solution();
        proof {
            let i = _i as int;
            vstd::arithmetic::div_mod::lemma_fundamental_div_mod(i, step);
            vstd::arithmetic::mul::lemma_mul_is_commutative(step, i / step);
            if i % step + 1 < step {
                vstd::arithmetic::div_mod::lemma_small_mod((i % step + 1) as nat, step as nat);
                vstd::arithmetic::div_mod::lemma_fundamental_div_mod_converse(
                    i + 1,
                    step,
                    i / step,
                    i % step + 1,
                );
            } else {
                vstd::arithmetic::div_mod::lemma_mod_self_0(step);
                vstd::arithmetic::mul::lemma_mul_is_distributive_add_other_way(
                    step,
                    i / step,
                    1,
                );
                vstd::arithmetic::mul::lemma_mul_is_commutative(step, i / step);
                vstd::arithmetic::div_mod::lemma_fundamental_div_mod_converse(
                    i + 1,
                    step,
                    i / step + 1,
                    0,
                );
            }
        }
    }
    let result = RunResult {
        distance: sim.get_current_distance(),
        method: config.method,
        inst: config.inst,
        qtd_on_iter: config.qtd_iters_on_temp,
        iterations_completed: sim.get_current_iter(),
        final_temperature: sim.get_current_temperature(),
    };
    proof {
        let arr = sim.data@;
        let m = crate::distance::mat_view(sim.distances);
        let s = sim.solution@;
        assert(crate::distance::matrix_wf(m, arr) && crate::tour::is_permutation(
            s,
            arr.len() as nat,
        ) && result.distance as int == crate::distance::tour_len(m, s));
        assert(genuine_tour_length(data@, result.distance));
    }
    Ok(result)
}

/// Runs the annealing job one sweep configuration asks for, to
/// exhaustion. A configuration past the end of the sweep or with
/// degenerate parameters is rejected as `InvalidCoolingParams`, an empty
/// instance as `EmptyInstance`; exactly every other job succeeds.
pub fn run_job(config: &Config, data: &Vec<DataNode>) -> (r: Result<RunResult, TsaError>)
    requires
        data_wf(data@),
    ensures
        match r {
            Ok(res) => {
                &&& config_runnable(*config)
                &&& data@.len() >= 1
                &&& res.method == config.method
                &&& res.inst == config.inst
                &&& res.qtd_on_iter == config.qtd_iters_on_temp
                &&& res.iterations_completed == config.qtd_iters
                &&& res.final_temperature as int == closing_temperature(*config)
                &&& genuine_tour_length(data@, res.distance)
            },
            Err(e) => {
                ||| (e == TsaError::InvalidCoolingParams && !config_runnable(*config))
                ||| (e == TsaError::EmptyInstance && config_runnable(*config) && data@.len() == 0)
            },
        },
{
    let params_ok: bool = config.temp_final < config.temp_initial && config.temp_initial
        <= crate::cooling_methods::TEMP_MAX && 1 <= config.qtd_iters && config.qtd_iters
        <= crate::cooling_methods::ITERS_MAX && config.qtd_iters_on_temp >= 1;
    if !params_ok {
        return Err(TsaError::InvalidCoolingParams);
    }
    match config.method {
        SweepMethod::Exp => run_one::<ExpCooling>(config, data),
        SweepMethod::Sigmoid => run_one::<SigmoidCooling>(config, data),
        SweepMethod::Cos => run_one::<CosCooling>(config, data),
        SweepMethod::Terminal => Err(TsaError::InvalidCoolingParams),
    }
}

/// The index of the first minimum-length result, or `None` on no results:
/// the reported best is the true minimum over everything aggregated.
pub fn best_result(results: &Vec<RunResult>) -> (r: Option<usize>)
    ensures
        match r {
            Some(i) => {
                &&& 0 <= i < results@.len()
                &&& forall|j: int|
                    0 <= j < results@.len() ==> results@[i as int].distance <= (
                    #[trigger] results@[j]).distance
                &&& forall|j: int|
                    0 <= j < i ==> results@[i as int].distance < (#[trigger] results@[j]).distance
            },
            None => results@.len() == 0,
        },
{
    if results.len() == 0 {
        return None;
    }
    let mut best: usize = 0;
    for j in 1..results.len()
        invariant
            0 <= best < j <= results@.len(),
            forall|k: int|
                0 <= k < j ==> results@[best as int].distance <= (#[trigger] results@[k]).distance,
            forall|k: int|
                0 <= k < best ==> results@[best as int].distance < (#[trigger] results@[k]).distance,
    {
        if results[j].distance < results[best].distance {
            best = j;
        }
    }
    Some(best)
}

/// The per-key ordered log of sweep outcomes: one bucket per sweep key,
/// each bucket in arrival order.
pub struct RunLog {
    pub entries: Vec<(SweepKey, Vec<u64>)>,
}

impl RunLog {
    /// Every key owns at most one bucket.
    pub open spec fn wf(&self) -> bool {
        forall|i: int, j: int|
            0 <= i < j < self.entries@.len() ==> (#[trigger] self.entries@[i]).0 != (
            #[trigger] self.entries@[j]).0
    }

    /// An empty log.
    pub fn new() -> (r: Self)
        ensures
            r.wf(),
            r.entries@.len() == 0,
    {
        RunLog { entries: Vec::new() }
    }

    /// Appends one value to its key's bucket, keeping every other bucket
    /// and all bucket orders untouched; a first value opens a new bucket
    /// at the end.
    pub fn push_result(&mut self, key: SweepKey, value: u64)
        requires
            old(self).wf(),
        ensures
            final(self).wf(),
            (exists|i: int|
                0 <= i < old(self).entries@.len() && (#[trigger] old(self).entries@[i]).0
                    == key) ==> {
                let i = choose|i: int|
                    0 <= i < old(self).entries@.len() && (#[trigger] old(self).entries@[i]).0
                        == key;
                &&& final(self).entries@.len() == old(self).entries@.len()
                &&& final(self).entries@[i].0 == key
                &&& final(self).entries@[i].1@ == old(self).entries@[i].1@ + seq![value]
                &&& forall|j: int|
                    0 <= j < old(self).entries@.len() && j != i ==> final(self).entries@[j] == (
                    #[trigger] old(self).entries@[j])
            },
            !(exists|i: int|
                0 <= i < old(self).entries@.len() && (#[trigger] old(self).entries@[i]).0
                    == key) ==> {
                &&& final(self).entries@.len() == old(self).entries@.len() + 1
                &&& final(self).entries@[old(self).entries@.len() as int].0 == key
                &&& final(self).entries@[old(self).entries@.len() as int].1@ == seq![value]
                &&& forall|j: int|
                    0 <= j < old(self).entries@.len() ==> final(self).entries@[j] == (
                    #[trigger] old(self).entries@[j])
            },
    {
        let n = self.entries.len();
        for i in 0..n
            invariant
                old(self).wf(),
                *self == *old(self),
                n == self.entries@.len(),
                forall|k: int| 0 <= k < i ==> (#[trigger] self.entries@[k]).0 != key,
        {
            if self.entries[i].0 == key {
                let entry = vstd::std_specs::vec::vec_index_mut(&mut self.entries, i);
                entry.1.push(value);
                proof {
                    let ghost w = choose|w: int|
                        0 <= w < old(self).entries@.len() && (#[trigger] old(
                            self,
                        ).entries@[w]).0 == key;
                    assert(old(self).entries@[i as int].0 == key);
                    assert(w == i);
                }
                return;
            }
        }
        let mut bucket: Vec<u64> = Vec::new();
        bucket.push(value);
        proof {
            assert(bucket@ =~= seq![value]);
        }
        self.entries.push((key, bucket));
    }
}

} // verus!
