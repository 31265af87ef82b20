use micro_optimize_algo::harness::{
    compute_result, measure_variants, pins_globally, run_generic_benchmark, Execution, PinStrategy,
    TimingConfig, Variant,
};
use micro_optimize_algo::measure::{
    effective_seed, elapsed, measure_cycles, now, seed_from_clock, time_seed, to_nanos, unit_name,
    FALLBACK_SEED,
};
use micro_optimize_algo::rng::SeededRng;
use micro_optimize_algo::schedule::{generate_shuffled_tasks, generate_tasks, shuffle, shuffle_with_rng};
use std::cell::Cell;
use std::hint::black_box;
use std::rc::Rc;

#[test]
fn rng_steps_are_the_documented_lcg() {
    let mut rng = SeededRng::new(0);
    assert_eq!(rng.next_u64(), 1);
    let mut rng = SeededRng::new(1);
    assert_eq!(rng.next_u64(), 6364136223846793006);
    let mut rng = SeededRng::new(99);
    for _ in 0..100 {
        assert!(rng.next_u32_range(7) < 7);
    }
}

#[test]
fn shuffle_matches_fisher_yates_reference() {
    let mut v: Vec<u32> = (0..5).collect();
    shuffle(&mut v, 42);
    assert_eq!(v, vec![1, 4, 3, 0, 2]);
}

#[test]
fn shuffle_is_deterministic_for_a_seed() {
    let a = generate_shuffled_tasks(4, 25, 1234);
    let b = generate_shuffled_tasks(4, 25, 1234);
    assert_eq!(a, b);
    let c = generate_shuffled_tasks(4, 25, 1235);
    assert_ne!(a, c);
}

#[test]
fn task_list_covers_every_pair_once() {
    let plain = generate_tasks(3, 4);
    assert_eq!(plain.len(), 12);
    assert_eq!(plain[0], (0, 0));
    assert_eq!(plain[5], (1, 1));
    assert_eq!(plain[11], (2, 3));
    let shuffled = generate_shuffled_tasks(3, 4, 99);
    assert_eq!(shuffled.len(), 12);
    for v in 0..3 {
        assert_eq!(shuffled.iter().filter(|t| t.0 == v).count(), 4);
        for r in 0..4 {
            assert_eq!(shuffled.iter().filter(|&&t| t == (v, r)).count(), 1);
        }
    }
    let mut sorted = shuffled.clone();
    sorted.sort();
    assert_eq!(sorted, plain);
    assert_eq!(generate_shuffled_tasks(2, 2, 7), vec![(0, 0), (0, 1), (1, 1), (1, 0)]);
}

#[test]
fn shuffle_handles_empty_and_single() {
    let mut empty: Vec<u8> = Vec::new();
    shuffle(&mut empty, 5);
    assert!(empty.is_empty());
    let mut one = vec![9u8];
    shuffle(&mut one, 5);
    assert_eq!(one, vec![9]);
    assert!(generate_shuffled_tasks(0, 30, 1).is_empty());
    assert!(generate_shuffled_tasks(3, 0, 1).is_empty());
}

#[test]
fn shuffle_with_rng_continues_the_stream() {
    let mut rng = SeededRng::new(42);
    let mut a: Vec<u32> = (0..5).collect();
    shuffle_with_rng(&mut a, &mut rng);
    assert_eq!(a, vec![1, 4, 3, 0, 2]);
    let mut b: Vec<u32> = (0..5).collect();
    shuffle_with_rng(&mut b, &mut rng);
    let mut sorted = b.clone();
    sorted.sort();
    assert_eq!(sorted, vec![0, 1, 2, 3, 4]);
}

#[test]
fn shuffle_spreads_low_indices() {
    let mut front_low = 0usize;
    for seed in 0..200u64 {
        let tasks = generate_shuffled_tasks(10, 1, seed);
        if tasks[0].0 < 5 {
            front_low += 1;
        }
    }
    assert!(front_low > 60 && front_low < 140, "front_low = {}", front_low);
}

#[test]
fn test_measure_cycles() {
    let (cycles, result) = measure_cycles(|| {
        let mut sum = 0u64;
        for i in 0..10000 {
            sum = black_box(sum.wrapping_add(black_box(i)));
        }
        sum
    });
    assert!(result > 0, "Result should be computed");
    let _ = cycles;
}

#[test]
fn elapsed_time_never_decreases() {
    let start = now();
    let first = elapsed(start);
    let mut x = 0u64;
    for i in 0..10000u64 {
        x = black_box(x.wrapping_add(i));
    }
    let second = elapsed(start);
    assert!(second >= first);
    let (ticks, value) = measure_cycles(|| 5u32);
    assert_eq!(value, 5);
    assert!(ticks < 1_000_000_000);
}

#[test]
fn measurement_units_and_seeds() {
    assert_eq!(to_nanos(1234), 1234);
    assert_eq!(unit_name(), "ns");
    assert_eq!(seed_from_clock(Some(17)), 17);
    assert_eq!(seed_from_clock(None), FALLBACK_SEED);
    assert_eq!(FALLBACK_SEED, 0x12345678);
    assert_eq!(effective_seed(Some(7)), 7);
    assert!(time_seed() > 0);
}

#[test]
fn timing_config_defaults() {
    let c = TimingConfig::default();
    assert_eq!(c.runs_per_variant, 30);
    assert_eq!(c.warmup_iterations, 10);
    assert_eq!(c.pin_strategy, PinStrategy::PerExecution);
    assert_eq!(PinStrategy::default(), PinStrategy::PerExecution);
    assert!(!pins_globally(&c));
    let g = TimingConfig { pin_strategy: PinStrategy::Global, ..c };
    assert!(pins_globally(&g));
}

#[test]
fn execution_files_samples_per_variant() {
    let mut run: Execution<u32> = Execution::new(2, 3, 42);
    let mut count = 0u64;
    while let Some(v) = run.next_variant() {
        assert!(v < 2);
        count += 1;
        let result = if v == 0 { Some(count as u32) } else { None };
        run.record(v as u64 * 1000 + count, result);
    }
    assert!(run.is_done());
    assert_eq!(count, 6);
    let (samples, results) = run.into_parts();
    assert_eq!(samples.len(), 2);
    assert_eq!(samples[0].len(), 3);
    assert_eq!(samples[1].len(), 3);
    assert!(samples[0].iter().all(|&m| m < 1000));
    assert!(samples[1].iter().all(|&m| m > 1000));
    let last0 = *samples[0].last().unwrap();
    assert_eq!(results[0], Some(last0 as u32));
    assert_eq!(results[1], None);
}

#[test]
fn execution_with_no_variants_is_done() {
    let run: Execution<u8> = Execution::new(0, 30, 1);
    assert!(run.is_done());
    assert_eq!(run.next_variant(), None);
}

#[test]
fn compute_result_passes_identity_through() {
    let r = compute_result(&[100, 150, 200], "fast", "Fast variant", 100, Some(1.5f64), false);
    assert_eq!(r.name, "fast");
    assert_eq!(r.description, "Fast variant");
    assert_eq!(r.iterations, 100);
    assert_eq!(r.result_sample, Some(1.5));
    assert_eq!(r.stats.avg, 150);
    let empty = compute_result::<f64>(&[], "none", "", 5, None, true);
    assert_eq!(empty.stats.max, 0);
}

type Trial = Box<dyn Fn() -> (u64, Option<f64>)>;

#[test]
fn test_measure_variants_empty() {
    let variants: Vec<Variant<Trial>> = vec![];
    let results = measure_variants(variants, 1000, &TimingConfig::default());
    assert!(results.is_empty());
}

#[test]
fn test_measure_variants_single() {
    let variants: Vec<Variant<Trial>> = vec![Variant {
        name: "test",
        description: "Test variant",
        run: Box::new(|| {
            let (elapsed, _) = measure_cycles(|| black_box(42));
            (elapsed, Some(42.0))
        }),
    }];
    let config = TimingConfig { runs_per_variant: 5, warmup_iterations: 2, pin_strategy: PinStrategy::Global };
    let results = measure_variants(variants, 100, &config);
    assert_eq!(results.len(), 1);
    assert_eq!(results[0].name, "test");
    assert_eq!(results[0].result_sample, Some(42.0));
}

#[test]
fn test_measure_variants_multiple() {
    let variants: Vec<Variant<Trial>> = vec![
        Variant {
            name: "fast",
            description: "Fast variant",
            run: Box::new(|| {
                let (elapsed, _) = measure_cycles(|| black_box(1));
                (elapsed, Some(1.0))
            }),
        },
        Variant {
            name: "slow",
            description: "Slow variant",
            run: Box::new(|| {
                let (elapsed, _) = measure_cycles(|| black_box(vec![0u8; 1000]));
                (elapsed, Some(2.0))
            }),
        },
    ];
    let config = TimingConfig { runs_per_variant: 5, warmup_iterations: 2, pin_strategy: PinStrategy::PerExecution };
    let results = measure_variants(variants, 100, &config);
    assert_eq!(results.len(), 2);
    let fast = results.iter().find(|r| r.name == "fast").unwrap();
    let slow = results.iter().find(|r| r.name == "slow").unwrap();
    assert_eq!(fast.result_sample, Some(1.0));
    assert_eq!(slow.result_sample, Some(2.0));
}

#[test]
fn measure_variants_runs_every_trial_once_per_repetition() {
    let calls = Rc::new(Cell::new(0u32));
    let counter = calls.clone();
    let variants: Vec<Variant<Trial>> = vec![Variant {
        name: "count",
        description: "Counts its trials",
        run: Box::new(move || {
            counter.set(counter.get() + 1);
            (7, None)
        }),
    }];
    let config = TimingConfig { runs_per_variant: 4, warmup_iterations: 3, pin_strategy: PinStrategy::Global };
    let results = measure_variants(variants, 9, &config);
    assert_eq!(calls.get(), 7);
    assert_eq!(results[0].stats.avg, 7);
    assert_eq!(results[0].stats.std_dev, 0);
    assert_eq!(results[0].iterations, 9);
    assert_eq!(results[0].result_sample, None);
}

#[test]
fn generic_benchmark_files_each_variants_runs() {
    let variants = vec![
        ("a".to_string(), "first".to_string(), 1u32),
        ("b".to_string(), "second".to_string(), 2u32),
    ];
    let warmups = Cell::new(0u32);
    let runs = Cell::new(0u32);
    let results = run_generic_benchmark(
        &variants,
        4,
        |_v: &u32| warmups.set(warmups.get() + 1),
        |v: &u32| {
            runs.set(runs.get() + 1);
            (*v as u64 * 10, *v * 100)
        },
    );
    assert_eq!(warmups.get(), 2);
    assert_eq!(runs.get(), 8);
    assert_eq!(results.len(), 2);
    assert_eq!(results[0].name, "a");
    assert_eq!(results[1].description, "second");
    assert_eq!(results[0].times, vec![10, 10, 10, 10]);
    assert_eq!(results[1].times, vec![20, 20, 20, 20]);
    assert_eq!(results[0].result_sample, Some(100));
    assert_eq!(results[1].result_sample, Some(200));
    let none: Vec<(String, String, u32)> = Vec::new();
    assert!(run_generic_benchmark(&none, 4, |_v: &u32| {}, |v: &u32| (0u64, *v)).is_empty());
    let zero = run_generic_benchmark(&variants, 0, |_v: &u32| {}, |v: &u32| (0u64, *v));
    assert!(zero[0].times.is_empty());
    assert_eq!(zero[0].result_sample, None);
}
