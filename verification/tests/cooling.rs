use tsa_sim::cooling_methods::{CoolingMethod, CosCooling, ExpCooling, SigmoidCooling};
use tsa_sim::fixed::{exp_neg, SCALE};
use tsa_sim::{accept_candidate, acceptance_probability};

const T0: u64 = 10_000_000; // 10.0
const TF: u64 = 100_000; // 0.1
const N: usize = 1_000;

fn check_non_increasing_and_start<T: CoolingMethod>(schedule: &T) -> Vec<u64> {
    let mut temps = Vec::new();
    for k in 0..=N {
        temps.push(schedule.get_next_temperature(k));
    }
    assert_eq!(temps[0], T0);
    for k in 0..N {
        assert!(temps[k + 1] <= temps[k], "temperature rose at step {}", k);
        assert!(temps[k] <= T0);
    }
    temps
}

#[test]
fn sigmoid_cooling_is_non_increasing_and_exact_at_both_ends() {
    let schedule = SigmoidCooling::create(T0, TF, N);
    let temps = check_non_increasing_and_start(&schedule);
    assert_eq!(temps[N], TF);
    for k in 0..=N {
        assert!(temps[k] >= TF, "temperature fell below the floor at step {}", k);
    }
}

#[test]
fn sigmoid_cooling_matches_its_formula() {
    let schedule = SigmoidCooling::create(T0, TF, N);
    // T(k) = Tf + (T0-Tf)(N-k) / (N(k+1))
    for k in [1usize, 7, 250, 999] {
        let expected =
            TF + ((T0 - TF) as u128 * (N - k) as u128 / (N as u128 * (k + 1) as u128)) as u64;
        assert_eq!(schedule.get_next_temperature(k), expected);
    }
    // spot value: T(9) = 0.1 + 9.9 * 991/10000 = 1.081090
    assert_eq!(schedule.get_next_temperature(9), 1_081_090);
}

#[test]
fn exp_cooling_is_non_increasing_and_lands_near_final_temperature() {
    let schedule = ExpCooling::create(T0, TF, N);
    let temps = check_non_increasing_and_start(&schedule);
    // the geometric decay meets the final temperature only within the
    // fixed-point approximation error
    let err = if temps[N] > TF { temps[N] - TF } else { TF - temps[N] };
    assert!(err <= 1_000, "T(N) = {} is not near {}", temps[N], TF);
    // halfway through, T should be near sqrt(T0*Tf) = 1.0
    let mid = temps[N / 2];
    assert!(900_000 <= mid && mid <= 1_100_000, "T(N/2) = {}", mid);
}

#[test]
fn exp_cooling_with_zero_final_temperature_degenerates_cleanly() {
    let schedule = ExpCooling::create(T0, 0, N);
    assert_eq!(schedule.get_next_temperature(0), T0);
    for k in [1usize, 2, 500, 1000] {
        assert_eq!(schedule.get_next_temperature(k), 0);
    }
}

#[test]
fn cos_cooling_is_non_increasing_and_exact_at_both_ends() {
    let schedule = CosCooling::create(T0, TF, N);
    let temps = check_non_increasing_and_start(&schedule);
    assert_eq!(temps[N], TF);
    for k in 0..=N {
        assert!(temps[k] >= TF, "temperature fell below the floor at step {}", k);
    }
    // halfway: T = Tf + (T0-Tf)*(1+cos(pi/2))/2 = (T0+Tf)/2, within the
    // error of the rational cosine approximation
    let mid = temps[N / 2];
    let expected = (T0 + TF) / 2;
    let err = if mid > expected { mid - expected } else { expected - mid };
    assert!(err <= 25_000, "T(N/2) = {} is not near {}", mid, expected);
}

#[test]
fn metropolis_probability_is_one_for_equal_lengths() {
    assert_eq!(acceptance_probability(0, 1), SCALE);
    assert_eq!(acceptance_probability(0, 123_456_789), SCALE);
}

#[test]
fn metropolis_probability_has_exact_fixed_point_values() {
    // delta/T = 1/2: exp(-0.5) in micro-units
    assert_eq!(acceptance_probability(1_000_000, 2_000_000), 606_530);
    // delta/T = 1: exp(-1)
    assert_eq!(acceptance_probability(2_000_000, 2_000_000), 367_878);
    // a hopeless candidate
    assert_eq!(acceptance_probability(42_000_000, 2_000_000), 0);
}

#[test]
fn metropolis_probability_stays_within_the_unit_interval() {
    for delta in [0u64, 1, 999, 123_456, 10_000_000, u64::MAX] {
        for temperature in [1u64, 2, 1_000_000, 77_000_000, u64::MAX] {
            let p = acceptance_probability(delta, temperature);
            assert!(p <= SCALE);
        }
    }
}

#[test]
fn accept_decision_follows_the_metropolis_rule() {
    // a strictly shorter candidate is taken for any draw
    assert!(accept_candidate(100, 99, 0, 0, SCALE));
    assert!(accept_candidate(100, 99, 5, 10, 0));
    // at or below the floor nothing else is
    assert!(!accept_candidate(100, 100, 10, 10, 0));
    assert!(!accept_candidate(100, 150, 9, 10, 0));
    // above the floor an equal-length candidate is always taken
    assert!(accept_candidate(100, 100, 11, 10, SCALE));
    // above the floor a worse candidate is taken iff the draw does not
    // exceed exp(-delta/T); delta/T = 1 here, so the edge is exp(-1)
    let prob = acceptance_probability(2_000_000, 2_000_000);
    assert!(accept_candidate(0, 2_000_000, 2_000_000, 1_000, prob));
    assert!(!accept_candidate(0, 2_000_000, 2_000_000, 1_000, prob + 1));
}

#[test]
fn exp_neg_is_monotone_in_its_argument() {
    let mut prev = exp_neg(0);
    assert_eq!(prev, SCALE);
    for step in 0..500u64 {
        let x = step * 50_000;
        let v = exp_neg(x);
        assert!(v <= prev);
        prev = v;
    }
    assert_eq!(exp_neg(25_000_000), 0);
}
