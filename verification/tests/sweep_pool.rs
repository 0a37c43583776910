use std::sync::mpsc;
use threadpool::ThreadPool;
use tsa_sim::cooling_methods::{CoolingMethod, CosCooling};
use tsa_sim::data::{DataNode, Point};
use tsa_sim::pool::{best_result, run_job, RunLog, RunResult, SweepKey};
use tsa_sim::sweep::{Config, SweepMethod};
use tsa_sim::TsaError;

fn make_data(coords: &[(usize, usize)]) -> Vec<DataNode> {
    let mut data = Vec::new();
    for (i, &(x, y)) in coords.iter().enumerate() {
        data.push(DataNode {
            group: (i + 1) as u8,
            point: Point { x, y },
        });
    }
    data
}

fn small_config(id: usize, method: SweepMethod) -> Config {
    let mut config = Config::create(id, method, 5, 2);
    config.qtd_iters = 300;
    config.temp_initial = 3_000_000;
    config.temp_final = 1_000;
    config
}

#[test]
fn sweep_generates_exactly_600_configs_in_leg_order() {
    let mut generator = Config::create_first();
    let mut configs: Vec<Config> = Vec::new();
    while let Some(config) = generator.next() {
        configs.push(config);
        assert!(configs.len() <= 600, "the sweep did not terminate");
    }
    assert_eq!(configs.len(), 600);
    // a second call after exhaustion stays exhausted
    assert!(generator.next().is_none());

    let legs = [
        (SweepMethod::Exp, 100, 1),
        (SweepMethod::Sigmoid, 100, 1),
        (SweepMethod::Cos, 100, 1),
        (SweepMethod::Exp, 51, 1),
        (SweepMethod::Sigmoid, 51, 1),
        (SweepMethod::Cos, 51, 1),
        (SweepMethod::Exp, 51, 10),
        (SweepMethod::Sigmoid, 51, 10),
        (SweepMethod::Cos, 51, 10),
        (SweepMethod::Exp, 100, 10),
        (SweepMethod::Sigmoid, 100, 10),
        (SweepMethod::Cos, 100, 10),
    ];
    for (leg_index, &(method, inst, on_temp)) in legs.iter().enumerate() {
        for id in 0..50 {
            let config = &configs[leg_index * 50 + id];
            assert_eq!(config.method, method);
            assert_eq!(config.inst, inst);
            assert_eq!(config.qtd_iters_on_temp, on_temp);
            assert_eq!(config.id, id);
            assert_eq!(config.qtd_iters, 3_000_000);
            assert_eq!(config.temp_initial, 800_000_000);
            assert_eq!(config.temp_final, 1);
        }
    }
}

#[test]
fn run_job_rejects_invalid_configurations_without_running() {
    let data = make_data(&[(0, 0), (3, 4)]);
    let terminal = Config::create(0, SweepMethod::Terminal, 1, 1);
    assert!(matches!(
        run_job(&terminal, &data),
        Err(TsaError::InvalidCoolingParams)
    ));
    let mut upside_down = small_config(0, SweepMethod::Exp);
    upside_down.temp_final = upside_down.temp_initial;
    assert!(matches!(
        run_job(&upside_down, &data),
        Err(TsaError::InvalidCoolingParams)
    ));
    let mut no_budget = small_config(0, SweepMethod::Cos);
    no_budget.qtd_iters = 0;
    assert!(matches!(
        run_job(&no_budget, &data),
        Err(TsaError::InvalidCoolingParams)
    ));
}

#[test]
fn run_job_rejects_an_empty_instance() {
    let data: Vec<DataNode> = Vec::new();
    let config = small_config(0, SweepMethod::Sigmoid);
    assert!(matches!(run_job(&config, &data), Err(TsaError::EmptyInstance)));
}

#[test]
fn run_job_reports_its_configuration_key_and_budget() {
    let data = make_data(&[(0, 0), (0, 10), (10, 10), (10, 0)]);
    let config = small_config(7, SweepMethod::Cos);
    let result = run_job(&config, &data).unwrap();
    assert_eq!(result.method, SweepMethod::Cos);
    assert_eq!(result.inst, 5);
    assert_eq!(result.qtd_on_iter, 2);
    assert_eq!(result.iterations_completed, 300);
    assert_eq!(
        result.key(),
        SweepKey { method: SweepMethod::Cos, inst: 5, qtd_on_iter: 2 }
    );
    // four cities on a square: every tour is a cyclic square walk, so the
    // final length is one of the three possible cycle lengths
    assert!(result.distance >= 40_000_000);
    // the closing temperature is deterministic: the schedule's value at
    // the last recompute point (here the full budget, since 2 divides 300)
    let schedule = CosCooling::create(3_000_000, 1_000, 300);
    assert_eq!(result.final_temperature, schedule.get_next_temperature(300));
}

#[test]
fn eight_jobs_on_a_four_worker_pool_yield_eight_results_and_a_true_minimum() {
    let data = make_data(&[(0, 0), (0, 10), (10, 10), (10, 0), (5, 5)]);
    let workers = ThreadPool::new(4);
    let (sender, receiver) = mpsc::channel::<RunResult>();
    let methods = [
        SweepMethod::Exp,
        SweepMethod::Sigmoid,
        SweepMethod::Cos,
        SweepMethod::Exp,
        SweepMethod::Sigmoid,
        SweepMethod::Cos,
        SweepMethod::Exp,
        SweepMethod::Sigmoid,
    ];
    for (id, &method) in methods.iter().enumerate() {
        let config = small_config(id, method);
        let data_clone = data.clone();
        let sender_clone = sender.clone();
        workers.execute(move || {
            let result = run_job(&config, &data_clone).unwrap();
            sender_clone.send(result).unwrap();
        });
    }
    drop(sender);
    let results: Vec<RunResult> = receiver.iter().collect();
    assert_eq!(results.len(), 8);
    let best = best_result(&results).unwrap();
    for r in &results {
        assert!(results[best].distance <= r.distance);
    }
    let manual_min = results.iter().map(|r| r.distance).min().unwrap();
    assert_eq!(results[best].distance, manual_min);
}

#[test]
fn best_result_of_no_results_is_none() {
    let results: Vec<RunResult> = Vec::new();
    assert!(best_result(&results).is_none());
}

#[test]
fn best_result_picks_the_first_minimum() {
    let mk = |distance: u64| RunResult {
        distance,
        method: SweepMethod::Exp,
        inst: 100,
        qtd_on_iter: 1,
        iterations_completed: 10,
        final_temperature: 0,
    };
    let results = vec![mk(50), mk(12), mk(90), mk(12), mk(13)];
    assert_eq!(best_result(&results), Some(1));
}

#[test]
fn run_log_buckets_results_by_key_in_arrival_order() {
    let key_a = SweepKey { method: SweepMethod::Exp, inst: 100, qtd_on_iter: 1 };
    let key_b = SweepKey { method: SweepMethod::Cos, inst: 51, qtd_on_iter: 10 };
    let mut log = RunLog::new();
    log.push_result(key_a, 7);
    log.push_result(key_b, 1);
    log.push_result(key_a, 9);
    log.push_result(key_a, 3);
    log.push_result(key_b, 2);
    assert_eq!(log.entries.len(), 2);
    assert_eq!(log.entries[0].0, key_a);
    assert_eq!(log.entries[0].1, vec![7, 9, 3]);
    assert_eq!(log.entries[1].0, key_b);
    assert_eq!(log.entries[1].1, vec![1, 2]);
}
