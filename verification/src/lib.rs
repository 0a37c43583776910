//! A simulated-annealing engine for the traveling-salesman problem.
//!
//! All real-valued quantities of the algorithm (distances, temperatures,
//! acceptance probabilities) are carried as fixed-point integers scaled by
//! `fixed::SCALE` micro-units, so that every numeric step of the engine can
//! be verified.

use vstd::prelude::*;

pub mod cooling_methods;
pub mod data;
pub mod distance;
pub mod fixed;
pub mod pool;
pub mod render;
mod rng;
pub mod sweep;
pub mod tour;

use crate::cooling_methods::{params_wf, CoolingMethod, SigmoidCooling};
use crate::data::{Data, DataNode};

verus! {

/// The failure taxonomy of the library.
///
/// `EmptyInstance` is raised when a run is asked to start on zero cities.
/// `InvalidCoolingParams` rejects a configuration whose temperature bounds
/// or iteration budget are degenerate. `ChannelClosed` stands for the result
/// channel shutting down while workers still hold results; it is produced by
/// the harness around the library, never by the verified core itself.
#[derive(Clone, Copy, Debug, PartialEq, Eq, Structural)]
pub enum TsaError {
    EmptyInstance,
    InvalidCoolingParams,
    ChannelClosed,
}

/// One annealing run's parameters, together with its cooling schedule.
#[verifier::ext_equal]
pub struct TSAConfig<T: CoolingMethod> {
    pub initial_temperature: u64,
    pub final_temperature: u64,
    pub qtd_iters: usize,
    pub qtd_iters_on_temp: usize,
    pub cooling_method: T,
}

impl<T: CoolingMethod> TSAConfig<T> {
    /// Valid parameters with a schedule created from exactly them.
    pub open spec fn wf(&self) -> bool {
        &&& params_wf(self.initial_temperature, self.final_temperature, self.qtd_iters)
        &&& 1 <= self.qtd_iters_on_temp
        &&& self.cooling_method.wf()
        &&& self.cooling_method.initial_temperature_spec() == self.initial_temperature
        &&& self.cooling_method.final_temperature_spec() == self.final_temperature
        &&& self.cooling_method.qtd_iters_spec() == self.qtd_iters
    }

    /// A configuration over the given temperature interval and budgets,
    /// with its cooling schedule built from the same parameters.
    pub fn create(
        final_temperature: u64,
        initial_temperature: u64,
        qtd_iters: usize,
        qtd_iters_on_temp: usize,
    ) -> (r: Self)
        requires
            params_wf(initial_temperature, final_temperature, qtd_iters),
            1 <= qtd_iters_on_temp,
        ensures
            r.wf(),
            r.initial_temperature == initial_temperature,
            r.final_temperature == final_temperature,
            r.qtd_iters == qtd_iters,
            r.qtd_iters_on_temp == qtd_iters_on_temp,
            r.cooling_method == T::spec_create(initial_temperature, final_temperature, qtd_iters),
    {
        Self {
            final_temperature,
            initial_temperature,
            qtd_iters,
            qtd_iters_on_temp,
            cooling_method: T::create(initial_temperature, final_temperature, qtd_iters),
        }
    }
}

impl TSAConfig<SigmoidCooling> {
    /// The stock sigmoid configuration: one million iterations from 10.0
    /// down to 0.0001, cooling every tenth iteration.
    pub fn create_default() -> (r: Self)
        ensures
            r.wf(),
            r.initial_temperature == 10_000_000,
            r.final_temperature == 100,
            r.qtd_iters == 1_000_000,
            r.qtd_iters_on_temp == 10,
    {
        let final_temperature: u64 = 100;
        let initial_temperature: u64 = 10_000_000;
        let qtd_iters: usize = 1_000_000;
        let qtd_iters_on_temp: usize = 10;
        Self::create(final_temperature, initial_temperature, qtd_iters, qtd_iters_on_temp)
    }
}

/// The capped fixed-point Metropolis exponent `delta / temperature`.
pub open spec fn metropolis_arg(delta: u64, temperature: u64) -> int {
    let x = (delta as int) * (fixed::SCALE as int) / (temperature as int);
    if x >= fixed::EXP_CUT {
        fixed::EXP_CUT as int
    } else {
        x
    }
}

/// The Metropolis acceptance probability `exp(-delta / temperature)` for a
/// candidate worse by `delta`, in fixed point: it always lies in `[0, 1]`
/// whole units, for every `delta` and every positive temperature.
pub fn acceptance_probability(delta: u64, temperature: u64) -> (r: u64)
    requires
        temperature >= 1,
    ensures
        r as int == fixed::exp_neg_spec(metropolis_arg(delta, temperature)),
        r <= fixed::SCALE,
{
    proof {
        assert((delta as int) * (fixed::SCALE as int) <= 0xffff_ffff_ffff_ffffint
            * 1_000_000int) by (nonlinear_arith)
            requires 0 <= delta <= 0xffff_ffff_ffff_ffffu64, fixed::SCALE == 1_000_000u64;
    }
    let x: u128 = (delta as u128) * (fixed::SCALE as u128) / (temperature as u128);
    proof {
        vstd::arithmetic::div_mod::lemma_div_pos_is_pos(
            (delta as int) * (fixed::SCALE as int),
            temperature as int,
        );
    }
    let xc: u64 = if x >= fixed::EXP_CUT as u128 {
        fixed::EXP_CUT
    } else {
        x as u64
    };
    fixed::exp_neg(xc)
}

/// The temperature the engine's bookkeeping holds after `i` completed
/// iterations of a fresh run: the initial temperature until the first
/// recompute, then the schedule's value at the latest recompute point (the
/// largest multiple of `qtd_iters_on_temp` not above `i`).
pub open spec fn scheduled_temperature<T: CoolingMethod>(config: TSAConfig<T>, i: int) -> int {
    let s = config.qtd_iters_on_temp as int;
    let j = i - i % s;
    if j == 0 {
        config.initial_temperature as int
    } else {
        config.cooling_method.temp_spec(j)
    }
}

/// The annealing accept decision for one uniform draw in `[0, SCALE]`: a
/// strictly shorter candidate is always taken; at or below the temperature
/// floor no other candidate is; above it, a non-improving candidate is
/// taken exactly when the draw does not exceed the Metropolis probability.
pub open spec fn accepts_spec(
    current_distance: u64,
    candidate_distance: u64,
    temperature: u64,
    floor_temperature: u64,
    draw: u64,
) -> bool {
    if candidate_distance < current_distance {
        true
    } else if temperature <= floor_temperature {
        false
    } else {
        draw as int <= fixed::exp_neg_spec(
            metropolis_arg((candidate_distance - current_distance) as u64, temperature),
        )
    }
}

/// The accept decision of one annealing step, computed for a given draw.
pub fn accept_candidate(
    current_distance: u64,
    candidate_distance: u64,
    temperature: u64,
    floor_temperature: u64,
    draw: u64,
) -> (r: bool)
    ensures
        r == accepts_spec(
            current_distance,
            candidate_distance,
            temperature,
            floor_temperature,
            draw,
        ),
{
    if candidate_distance < current_distance {
        true
    } else if temperature <= floor_temperature {
        false
    } else {
        let delta: u64 = candidate_distance - current_distance;
        let prob: u64 = acceptance_probability(delta, temperature);
        draw <= prob
    }
}

/// One annealing run: the shared instance data, the current tour and the
/// mutable bookkeeping of the iterate-perturb-accept-cool cycle.
pub struct TSA<T: CoolingMethod> {
    pub distances: Vec<Vec<u64>>,
    pub data: Vec<DataNode>,
    pub solution: Vec<usize>,
    pub current_distance: u64,
    pub temperature: u64,
    pub iters_on_temp: usize,
    pub current_iter: usize,
    pub config: TSAConfig<T>,
}

impl<T: CoolingMethod> TSA<T> {
    /// The current tour length, as the contracts see it.
    pub open spec fn spec_current_distance(&self) -> u64 {
        self.current_distance
    }

    /// The current temperature, as the contracts see it.
    pub open spec fn spec_temperature(&self) -> u64 {
        self.temperature
    }

    /// The completed-iteration count, as the contracts see it.
    pub open spec fn spec_current_iter(&self) -> usize {
        self.current_iter
    }

    /// The iterations spent on the current temperature, as the contracts
    /// see it.
    pub open spec fn spec_iters_on_temp(&self) -> usize {
        self.iters_on_temp
    }

    /// The owning configuration, as the contracts see it.
    pub open spec fn spec_config(&self) -> TSAConfig<T> {
        self.config
    }

    /// The run's invariant: well-formed instance data, a square symmetric
    /// distance table over it, a tour that is a permutation of `0..n-1`,
    /// and a recorded tour length that equals the tour's true length.
    pub open spec fn wf(&self) -> bool {
        &&& data::data_in_group_order(self.data@)
        &&& self.data@.len() >= 1
        &&& distance::matrix_wf(distance::mat_view(self.distances), self.data@)
        &&& tour::is_permutation(self.solution@, self.data@.len() as nat)
        &&& self.current_distance as int == distance::tour_len(
            distance::mat_view(self.distances),
            self.solution@,
        )
        &&& self.config.wf()
        &&& self.current_iter <= self.config.qtd_iters
        &&& self.iters_on_temp < self.config.qtd_iters_on_temp
    }

    /// The fixed-point length of the current tour.
    pub fn get_current_distance(&self) -> (r: u64)
        ensures
            r == self.spec_current_distance(),
    {
        self.current_distance
    }

    /// The current fixed-point temperature.
    pub fn get_current_temperature(&self) -> (r: u64)
        ensures
            r == self.spec_temperature(),
    {
        self.temperature
    }

    /// The number of completed iterations.
    pub fn get_current_iter(&self) -> (r: usize)
        ensures
            r == self.spec_current_iter(),
    {
        self.current_iter
    }

    /// The cyclic length of an arbitrary tour over this run's distance
    /// table.
    pub fn get_solution_distance(&self, solution: &Vec<usize>) -> (r: u64)
        requires
            self.wf(),
            forall|i: int|
                0 <= i < solution@.len() ==> (#[trigger] solution@[i]) < self.data@.len(),
            solution@.len() <= data::N_MAX,
        ensures
            r as int == distance::tour_len(distance::mat_view(self.distances), solution@),
    {
        distance::get_solution_distance_of(&self.distances, solution)
    }

    /// Whether a non-improving candidate of length `new_distance` is
    /// accepted: never once the temperature has reached its floor; above
    /// it, by a uniform draw against the Metropolis probability, so a
    /// candidate of equal length is always accepted there.
    fn should_change(&self, new_distance: u64) -> (r: bool)
        requires
            self.wf(),
            self.spec_current_distance() <= new_distance,
        ensures
            self.spec_temperature() <= self.spec_config().final_temperature ==> r == false,
            self.spec_temperature() > self.spec_config().final_temperature && new_distance
                == self.spec_current_distance() ==> r == true,
            exists|draw: u64|
                draw <= fixed::SCALE && r == accepts_spec(
                    self.spec_current_distance(),
                    new_distance,
                    self.spec_temperature(),
                    self.spec_config().final_temperature,
                    draw,
                ),
    {
        if self.temperature <= self.config.final_temperature {
            proof {
                assert(0u64 <= fixed::SCALE && false == accepts_spec(
                    self.spec_current_distance(),
                    new_distance,
                    self.spec_temperature(),
                    self.spec_config().final_temperature,
                    0u64,
                ));
            }
            return false;
        }
        let value: usize = rng::random_below((fixed::SCALE + 1) as usize);
        let draw: u64 = value as u64;
        let r = accept_candidate(
            self.current_distance,
            new_distance,
            self.temperature,
            self.config.final_temperature,
            draw,
        );
        proof {
            if new_distance == self.current_distance {
                vstd::arithmetic::div_mod::lemma_div_of0(self.temperature as int);
                fixed::lemma_exp_neg_at_zero();
            }
            assert(draw <= fixed::SCALE && r == accepts_spec(
                self.spec_current_distance(),
                new_distance,
                self.spec_temperature(),
                self.spec_config().final_temperature,
                draw,
            ));
        }
        r
    }

    /// Advances the step and iteration counters; every
    /// `qtd_iters_on_temp`-th iteration recomputes the temperature from
    /// the cooling schedule.
    fn update_temperature(&mut self)
        requires
            old(self).wf(),
            old(self).spec_current_iter() < old(self).spec_config().qtd_iters,
        ensures
            final(self).wf(),
            final(self).data == old(self).data,
            final(self).distances == old(self).distances,
            final(self).solution == old(self).solution,
            final(self).spec_config() == old(self).spec_config(),
            final(self).spec_current_distance() == old(self).spec_current_distance(),
            final(self).spec_current_iter() == old(self).spec_current_iter() + 1,
            if (old(self).spec_iters_on_temp() + 1) % (
                old(self).spec_config().qtd_iters_on_temp as int) != 0 {
                &&& final(self).spec_iters_on_temp() == old(self).spec_iters_on_temp() + 1
                &&& final(self).spec_temperature() == old(self).spec_temperature()
            } else {
                &&& final(self).spec_iters_on_temp() == 0
                &&& final(self).spec_temperature() as int
                    == old(self).spec_config().cooling_method.temp_spec(
                    old(self).spec_current_iter() + 1,
                )
            },
    {
        self.iters_on_temp = self.iters_on_temp + 1;
        self.current_iter = self.current_iter + 1;
        if self.iters_on_temp % self.config.qtd_iters_on_temp != 0 {
            proof {
                if self.iters_on_temp == self.config.qtd_iters_on_temp {
                    vstd::arithmetic::div_mod::lemma_mod_self_0(
                        self.config.qtd_iters_on_temp as int,
                    );
                }
            }
            return;
        }
        self.iters_on_temp = 0;
        let t: u64 = self.config.cooling_method.get_next_temperature(self.current_iter);
        self.temperature = t;
    }

    /// One step of the annealing cycle: perturb the tour with one to five
    /// random transpositions, evaluate the candidate, accept it if it is
    /// shorter or by the Metropolis rule, then advance the bookkeeping.
    /// Once the temperature is at its floor the tour length never rises;
    /// once the budget is exhausted the state never changes again.
    pub fn gen_next_solution(&mut self)
        requires
            old(self).wf(),
        ensures
            final(self).wf(),
            old(self).spec_temperature() <= old(self).spec_config().final_temperature
                ==> final(self).spec_current_distance() <= old(self).spec_current_distance(),
            old(self).spec_current_iter() >= old(self).spec_config().qtd_iters ==> *final(self)
                == *old(self),
            old(self).spec_current_iter() < old(self).spec_config().qtd_iters ==> {
                &&& final(self).spec_current_iter() == old(self).spec_current_iter() + 1
                &&& final(self).data == old(self).data
                &&& final(self).distances == old(self).distances
                &&& final(self).spec_config() == old(self).spec_config()
                &&& final(self).solution@.len() == old(self).solution@.len()
                &&& (final(self).solution@ == old(self).solution@ || exists|q: nat|
                    1 <= q <= 5 && tour::reachable_by_transpositions(
                        old(self).solution@,
                        final(self).solution@,
                        q,
                    ))
                &&& if (old(self).spec_iters_on_temp() + 1) % (
                    old(self).spec_config().qtd_iters_on_temp as int) != 0 {
                    &&& final(self).spec_iters_on_temp() == old(self).spec_iters_on_temp() + 1
                    &&& final(self).spec_temperature() == old(self).spec_temperature()
                } else {
                    &&& final(self).spec_iters_on_temp() == 0
                    &&& final(self).spec_temperature() as int
                        == old(self).spec_config().cooling_method.temp_spec(
                        old(self).spec_current_iter() + 1,
                    )
                }
            },
    {
        if self.current_iter >= self.config.qtd_iters {
            return;
        }
        if self.solution.len() >= 2 {
            let qtd: usize = rng::random_below(5) + 1;
            let new_solution = tour::permute(&self.solution, qtd);
            let new_distance = distance::get_solution_distance_of(&self.distances, &new_solution);
            if new_distance < self.current_distance || self.should_change(new_distance) {
                self.current_distance = new_distance;
                self.solution = new_solution;
            }
        }
        self.update_temperature();
    }
}

impl<T: CoolingMethod> TSA<T> {
    /// A fresh run over `data`: the instance rearranged into group order
    /// (the tour-index key the distance table is built on), the distance
    /// table, a random starting tour and its length, the initial
    /// temperature, counters at zero. An instance with no cities is
    /// rejected as `EmptyInstance`.
    pub fn create(data: Data, config: TSAConfig<T>) -> (r: Result<TSA<T>, TsaError>)
        requires
            config.wf(),
            data::data_wf(data@),
        ensures
            match r {
                Ok(t) => {
                    &&& data@.len() >= 1
                    &&& t.wf()
                    &&& t.data@.len() == data@.len()
                    &&& forall|j: int|
                        0 <= j < data@.len() ==> t.data@[(#[trigger] data@[j]).group - 1]
                            == data@[j]
                    &&& t.spec_config() == config
                    &&& t.spec_current_iter() == 0
                    &&& t.spec_iters_on_temp() == 0
                    &&& t.spec_temperature() == config.initial_temperature
                },
                Err(e) => e == TsaError::EmptyInstance && data@.len() == 0,
            },
    {
        if data.len() == 0 {
            return Err(TsaError::EmptyInstance);
        }
        let arranged = data::arrange_by_group(&data);
        let distances = distance::euclidian_distance_matrix(&arranged);
        let initial_solution = tour::get_initial_solution(arranged.len());
        let current_distance = distance::get_solution_distance_of(&distances, &initial_solution);
        let initial_temperature = config.initial_temperature;
        Ok(
            TSA {
                distances,
                data: arranged,
                solution: initial_solution,
                current_distance,
                temperature: initial_temperature,
                iters_on_temp: 0,
                current_iter: 0,
                config,
            },
        )
    }
}

} // verus!
