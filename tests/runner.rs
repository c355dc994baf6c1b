use napkin_math::barrier::black_box;
use napkin_math::runner::{after_check, after_step, measured_result, benchmark, benchmark_for, run_phase, CycleCounter, Workload};
use napkin_math::suite::{SequentialRead, Sort};
use std::time::Instant;

struct NanoCounter {
    start: Instant,
}

impl CycleCounter for NanoCounter {
    fn read_cycles(&self) -> u64 {
        self.start.elapsed().as_nanos() as u64
    }
}

struct StopAt {
    n: usize,
}

impl Workload for StopAt {
    type State = usize;

    fn setup(&self) -> usize {
        0
    }

    fn step(&self, calls: &mut usize) -> bool {
        *calls += 1;
        *calls < self.n
    }
}

struct Arithmetic {
    rounds: u64,
}

impl Workload for Arithmetic {
    type State = u64;

    fn setup(&self) -> u64 {
        1
    }

    fn step(&self, acc: &mut u64) -> bool {
        let mut x = *acc;
        for k in 0..self.rounds {
            x = black_box(x.wrapping_mul(6364136223846793005).wrapping_add(k));
        }
        *acc = x;
        true
    }
}

#[test]
fn early_completion_counts_exactly_n() {
    let counter = NanoCounter { start: Instant::now() };
    let r = benchmark(&StopAt { n: 5 }, &counter);
    assert_eq!(r.iterations, 5);
}

#[test]
fn early_completion_on_first_call_counts_one() {
    let counter = NanoCounter { start: Instant::now() };
    let r = benchmark(&StopAt { n: 1 }, &counter);
    assert_eq!(r.iterations, 1);
}

#[test]
fn phase_with_target_already_reached_runs_nothing() {
    let w = StopAt { n: 100 };
    let mut state = w.setup();
    let started = Instant::now();
    let p = run_phase(&w, &mut state, 1, true, 0, &started);
    assert_eq!(p.iterations, 0);
    assert!(!p.finished);
    assert_eq!(state, 0);
}

#[test]
fn growing_phase_stops_at_false() {
    let w = StopAt { n: 37 };
    let mut state = w.setup();
    let started = Instant::now();
    let p = run_phase(&w, &mut state, 1, true, 10_000_000_000, &started);
    assert_eq!(p.iterations, 37);
    assert!(p.finished);
}

#[test]
fn calibration_overrun_is_bounded() {
    let w = Arithmetic { rounds: 10 };
    let mut state = w.setup();
    let started = Instant::now();
    let p = run_phase(&w, &mut state, 1, true, 100_000_000, &started);
    let elapsed = started.elapsed().as_nanos();
    assert!(!p.finished);
    assert!(elapsed >= 100_000_000);
    assert!(elapsed < 1_000_000_000);
}

#[test]
fn double_target_doubles_iterations() {
    let counter = NanoCounter { start: Instant::now() };
    let w = Arithmetic { rounds: 10 };
    let short = benchmark_for(&w, &counter, 100_000_000, 500_000_000);
    let long = benchmark_for(&w, &counter, 100_000_000, 1_000_000_000);
    let ratio = long.iterations as f64 / short.iterations as f64;
    assert!(ratio > 1.4 && ratio < 2.6, "ratio {}", ratio);
}

#[test]
fn costlier_workload_costs_more_per_iteration() {
    let counter = NanoCounter { start: Instant::now() };
    let cheap = benchmark_for(&Arithmetic { rounds: 100 }, &counter, 50_000_000, 300_000_000);
    let dear = benchmark_for(&Arithmetic { rounds: 1000 }, &counter, 50_000_000, 300_000_000);
    let cheap_per = cheap.cycles as f64 / cheap.iterations as f64;
    let dear_per = dear.cycles as f64 / dear.iterations as f64;
    let ratio = dear_per / cheap_per;
    assert!(ratio > 4.0 && ratio < 25.0, "ratio {}", ratio);
}

#[test]
fn black_box_returns_its_argument() {
    assert_eq!(black_box(5u32), 5);
    assert_eq!(black_box(vec![1, 2, 3]), vec![1, 2, 3]);
}

#[test]
fn decision_at_a_time_check() {
    assert_eq!(after_check(1, true, 100, 0, 5), Some(1));
    assert_eq!(after_check(1, true, 100, 8, 5), Some(8));
    assert_eq!(after_check(4, false, 100, 8, 5), Some(4));
    assert_eq!(after_check(4, false, 100, 8, 100), None);
    assert_eq!(after_check(4, false, 100, usize::MAX - 2, 5), Some(2));
    assert_eq!(after_check(4, false, 100, usize::MAX, 5), None);
}

#[test]
fn decision_after_a_step() {
    assert_eq!(after_step(4, true), (5, false));
    assert_eq!(after_step(4, false), (5, true));
}

#[test]
fn sequential_read_stops_after_each_block() {
    let counter = NanoCounter { start: Instant::now() };
    let r = benchmark(&SequentialRead { elements: 7 }, &counter);
    assert_eq!(r.iterations, 7);
}

#[test]
fn sort_measures_one_iteration() {
    let counter = NanoCounter { start: Instant::now() };
    let r = benchmark(&Sort { elements: 1000 }, &counter);
    assert_eq!(r.iterations, 1);
}

#[test]
fn result_from_readings() {
    let r = measured_result(10, 5_000_000_123, 100, 250);
    assert_eq!((r.iterations, r.duration_nanos, r.cycles), (10, 5_000_000_123, 150));
    let r = measured_result(1, u128::MAX, u64::MAX, 4);
    assert_eq!((r.duration_nanos, r.cycles), (u64::MAX, 5));
}

#[test]
fn endless_workload_lasts_the_whole_target() {
    let counter = NanoCounter { start: Instant::now() };
    let r = benchmark_for(&Arithmetic { rounds: 1 }, &counter, 10_000_000, 200_000_000);
    assert!(r.duration_nanos >= 200_000_000);
    assert!(r.iterations > 0);
}
