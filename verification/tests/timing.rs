use criterion_core::measurement::{Measurement, WallTime};
use criterion_core::{black_box, BatchSize, Bencher, Duration};
use std::cell::{Cell, RefCell};

/// Counts what happens between the start and the end of a measurement.
struct Ticks {
    time: Cell<u64>,
    calls: RefCell<Vec<String>>,
}

impl Ticks {
    fn new() -> Ticks {
        Ticks { time: Cell::new(0), calls: RefCell::new(Vec::new()) }
    }

    fn note(&self, call: &str) {
        self.calls.borrow_mut().push(call.to_string());
    }

    fn count(&self, call: &str) -> usize {
        self.calls.borrow().iter().filter(|c| c.as_str() == call).count()
    }
}

impl Measurement for Ticks {
    type Intermediate = u64;
    type Value = u64;

    fn start(&self) -> u64 {
        self.note("start");
        self.time.get()
    }

    fn end(&self, start: u64) -> u64 {
        self.note("end");
        self.time.get() - start
    }

    fn add(&self, first: &u64, second: &u64) -> u64 {
        self.note("add");
        first + second
    }

    fn zero(&self) -> u64 {
        0
    }
}

#[test]
fn black_box_hands_its_argument_back() {
    assert_eq!(black_box(17), 17);
    assert_eq!(black_box("word".to_string()), "word");
}

#[test]
fn iters_per_batch_small_input() {
    assert_eq!(BatchSize::SmallInput.iters_per_batch(0), 0);
    assert_eq!(BatchSize::SmallInput.iters_per_batch(1), 1);
    assert_eq!(BatchSize::SmallInput.iters_per_batch(10), 1);
    assert_eq!(BatchSize::SmallInput.iters_per_batch(11), 2);
    assert_eq!(BatchSize::SmallInput.iters_per_batch(u64::MAX - 10), 1844674407370955161);
}

#[test]
fn iters_per_batch_large_input() {
    assert_eq!(BatchSize::LargeInput.iters_per_batch(1000), 1);
    assert_eq!(BatchSize::LargeInput.iters_per_batch(1001), 2);
}

#[test]
fn iters_per_batch_other_sizes() {
    assert_eq!(BatchSize::PerIteration.iters_per_batch(12345), 1);
    assert_eq!(BatchSize::NumBatches(4).iters_per_batch(10), 3);
    assert_eq!(BatchSize::NumBatches(1).iters_per_batch(10), 10);
    assert_eq!(BatchSize::NumIterations(7).iters_per_batch(10), 7);
    assert_eq!(BatchSize::NumIterations(0).iters_per_batch(10), 0);
}

#[test]
fn batch_sizes_that_cannot_be_computed() {
    assert!(BatchSize::SmallInput.is_computable(u64::MAX - 10));
    assert!(!BatchSize::SmallInput.is_computable(u64::MAX - 9));
    assert!(BatchSize::LargeInput.is_computable(u64::MAX - 1000));
    assert!(!BatchSize::LargeInput.is_computable(u64::MAX));
    assert!(!BatchSize::NumBatches(0).is_computable(5));
    assert!(BatchSize::NumBatches(7).is_computable(5));
    assert!(BatchSize::NumIterations(7).is_computable(u64::MAX));
    assert!(BatchSize::PerIteration.is_computable(u64::MAX));
    assert!(!BatchSize::__NonExhaustive.is_computable(1));
}

#[test]
fn batches_stay_within_their_target() {
    for iters in 1..2500u64 {
        for (size, target) in [
            (BatchSize::SmallInput, 10),
            (BatchSize::LargeInput, 1000),
            (BatchSize::NumBatches(7), 7),
        ] {
            let batch = size.iters_per_batch(iters);
            assert!((iters + batch - 1) / batch <= target);
        }
    }
}

#[test]
fn iter_runs_the_routine_within_one_measurement() {
    let ticks = Ticks::new();
    let mut bencher = Bencher::new(&ticks, 5);
    assert!(!bencher.iterated);
    bencher.iter(|| {
        ticks.note("run");
        ticks.time.set(ticks.time.get() + 3);
    });
    assert!(bencher.iterated);
    assert_eq!(bencher.iters, 5);
    assert_eq!(bencher.value, 15);
    assert_eq!(*ticks.calls.borrow(), ["start", "run", "run", "run", "run", "run", "end"]);
}

#[test]
fn iter_without_iterations_measures_nothing() {
    let ticks = Ticks::new();
    let mut bencher = Bencher::new(&ticks, 0);
    bencher.iter(|| ticks.note("run"));
    assert_eq!(bencher.value, 0);
    assert_eq!(*ticks.calls.borrow(), ["start", "end"]);
}

#[test]
fn iter_custom_takes_the_routines_word() {
    let ticks = Ticks::new();
    let mut bencher = Bencher::new(&ticks, 6);
    bencher.iter_custom(|iters| {
        ticks.note("run");
        iters * 7
    });
    assert_eq!(bencher.value, 42);
    assert_eq!(*ticks.calls.borrow(), ["run"]);
}

#[test]
fn iter_batched_sets_up_outside_the_measurement() {
    let ticks = Ticks::new();
    let mut next = 0;
    let mut seen = Vec::new();
    let mut bencher = Bencher::new(&ticks, 5);
    bencher.iter_batched(
        || {
            ticks.note("setup");
            ticks.time.set(ticks.time.get() + 1000);
            next += 1;
            next
        },
        |input: u32| {
            ticks.note("run");
            ticks.time.set(ticks.time.get() + 1);
            seen.push(input);
        },
        BatchSize::NumIterations(2),
    );
    assert_eq!(bencher.value, 5);
    assert_eq!(seen, [1, 2, 3, 4, 5]);
    assert_eq!(
        *ticks.calls.borrow(),
        [
            "setup", "setup", "start", "run", "run", "end", "add", "setup", "setup", "start", "run",
            "run", "end", "add", "setup", "start", "run", "end", "add",
        ]
    );
}

#[test]
fn iter_batched_in_batches_of_one() {
    let ticks = Ticks::new();
    let mut bencher = Bencher::new(&ticks, 2);
    bencher.iter_batched(|| ticks.note("setup"), |_| ticks.note("run"), BatchSize::PerIteration);
    assert_eq!(
        *ticks.calls.borrow(),
        ["setup", "start", "run", "end", "add", "setup", "start", "run", "end", "add"]
    );
}

#[test]
fn iter_batched_calls_setup_and_routine_once_per_iteration() {
    for iters in [1, 9, 10, 11, 99, 1001] {
        for size in [
            BatchSize::SmallInput,
            BatchSize::LargeInput,
            BatchSize::PerIteration,
            BatchSize::NumBatches(3),
            BatchSize::NumIterations(4),
        ] {
            let ticks = Ticks::new();
            let mut bencher = Bencher::new(&ticks, iters);
            bencher.iter_batched(|| ticks.note("setup"), |_| ticks.note("run"), size);
            let batch = size.iters_per_batch(iters);
            assert_eq!(ticks.count("setup") as u64, iters);
            assert_eq!(ticks.count("run") as u64, iters);
            assert_eq!(ticks.count("start") as u64, (iters + batch - 1) / batch);
            assert_eq!(ticks.count("end"), ticks.count("start"));
        }
    }
}

#[test]
fn iter_batched_ref_works_in_place() {
    let ticks = Ticks::new();
    let mut seen = Vec::new();
    let mut bencher = Bencher::new(&ticks, 3);
    bencher.iter_batched_ref(
        || vec![3, 1, 2],
        |data: &mut Vec<i32>| {
            ticks.note("run");
            ticks.time.set(ticks.time.get() + 2);
            data.sort();
            seen.push(data.clone());
        },
        BatchSize::NumBatches(2),
    );
    assert_eq!(bencher.value, 6);
    assert_eq!(seen, [[1, 2, 3], [1, 2, 3], [1, 2, 3]]);
    assert_eq!(
        *ticks.calls.borrow(),
        ["start", "run", "run", "end", "add", "start", "run", "end", "add"]
    );
}

#[test]
fn iter_batched_ref_in_batches_of_one() {
    let ticks = Ticks::new();
    let mut bencher = Bencher::new(&ticks, 2);
    bencher.iter_batched_ref(
        || {
            ticks.note("setup");
            1
        },
        |input: &mut i32| {
            ticks.note("run");
            *input += 1;
        },
        BatchSize::PerIteration,
    );
    assert_eq!(
        *ticks.calls.borrow(),
        ["setup", "start", "run", "end", "add", "setup", "start", "run", "end", "add"]
    );
}

#[test]
fn iter_with_setup_makes_batches_of_one() {
    let ticks = Ticks::new();
    let mut bencher = Bencher::new(&ticks, 3);
    bencher.iter_with_setup(|| ticks.note("setup"), |_| ticks.note("run"));
    assert_eq!(ticks.count("start"), 3);
    assert_eq!(ticks.count("setup"), 3);
}

#[test]
fn iter_with_large_setup_makes_one_batch() {
    let ticks = Ticks::new();
    let mut bencher = Bencher::new(&ticks, 3);
    bencher.iter_with_large_setup(|| ticks.note("setup"), |_| ticks.note("run"));
    assert_eq!(
        *ticks.calls.borrow(),
        ["setup", "setup", "setup", "start", "run", "run", "run", "end", "add"]
    );
}

/// Notes when it is dropped.
struct Noisy<'a>(&'a Ticks, &'static str);

impl<'a> Drop for Noisy<'a> {
    fn drop(&mut self) {
        self.0.note(self.1);
    }
}

#[test]
fn iter_with_large_drop_drops_outside_the_measurement() {
    let ticks = Ticks::new();
    let mut bencher = Bencher::new(&ticks, 3);
    bencher.iter_with_large_drop(|| {
        ticks.note("run");
        Noisy(&ticks, "drop")
    });
    assert_eq!(
        *ticks.calls.borrow(),
        ["start", "run", "run", "run", "end", "add", "drop", "drop", "drop"]
    );
}

#[test]
fn iter_with_large_drop_is_one_measurement() {
    let ones = Ones { zero: 0 };
    let mut bencher = Bencher::new(&ones, 20);
    bencher.iter_with_large_drop(|| 5u64);
    assert_eq!(bencher.value, 1);
    let mut bencher = Bencher::new(&ones, 1);
    bencher.iter_with_large_drop(|| 5u64);
    assert_eq!(bencher.value, 1);
}

#[test]
fn iter_drops_within_the_measurement() {
    let ticks = Ticks::new();
    let mut bencher = Bencher::new(&ticks, 2);
    bencher.iter(|| {
        ticks.note("run");
        Noisy(&ticks, "drop")
    });
    assert_eq!(*ticks.calls.borrow(), ["start", "run", "drop", "run", "drop", "end"]);
}

#[test]
fn iter_batched_drops_outputs_after_the_measurement() {
    let ticks = Ticks::new();
    let mut bencher = Bencher::new(&ticks, 3);
    bencher.iter_batched(
        || ticks.note("setup"),
        |_| {
            ticks.note("run");
            Noisy(&ticks, "drop")
        },
        BatchSize::NumIterations(2),
    );
    assert_eq!(
        *ticks.calls.borrow(),
        [
            "setup", "setup", "start", "run", "run", "end", "add", "drop", "drop", "setup", "start",
            "run", "end", "add", "drop",
        ]
    );
}

#[test]
fn iter_batched_ref_drops_outputs_and_then_inputs() {
    for (size, batches) in [(BatchSize::NumIterations(2), 1), (BatchSize::PerIteration, 2)] {
        let ticks = Ticks::new();
        let mut bencher = Bencher::new(&ticks, 2);
        bencher.iter_batched_ref(
            || Noisy(&ticks, "drop input"),
            |_| {
                ticks.note("run");
                Noisy(&ticks, "drop output")
            },
            size,
        );
        let expected: &[&str] = if batches == 1 {
            &[
                "start", "run", "run", "end", "add", "drop output", "drop output", "drop input",
                "drop input",
            ]
        } else {
            &[
                "start", "run", "end", "add", "drop output", "drop input", "start", "run", "end",
                "add", "drop output", "drop input",
            ]
        };
        assert_eq!(*ticks.calls.borrow(), expected);
    }
}

/// A measurement that gives one, whatever it measures.
struct Ones {
    zero: u64,
}

impl Measurement for Ones {
    type Intermediate = ();
    type Value = u64;

    fn start(&self) {}

    fn end(&self, _start: ()) -> u64 {
        1
    }

    fn add(&self, first: &u64, second: &u64) -> u64 {
        first + second
    }

    fn zero(&self) -> u64 {
        self.zero
    }
}

#[test]
fn iter_batched_counts_its_batches() {
    let ones = Ones { zero: 100 };
    let mut next = 0;
    let mut seen = Vec::new();
    let mut bencher = Bencher::new(&ones, 7);
    bencher.iter_batched(
        || {
            next += 1;
            next - 1
        },
        |x: u64| {
            seen.push(x);
            x
        },
        BatchSize::NumIterations(3),
    );
    assert_eq!(bencher.value, 103);
    assert!(bencher.iterated);
    assert_eq!(bencher.iters, 7);
    assert_eq!(next, 7);
    assert_eq!(seen, [0, 1, 2, 3, 4, 5, 6]);
}

#[test]
fn consuming_and_in_place_come_to_the_same_value() {
    for size in [BatchSize::NumBatches(2), BatchSize::PerIteration, BatchSize::SmallInput] {
        let ones = Ones { zero: 0 };
        let mut consuming = Bencher::new(&ones, 5);
        consuming.iter_batched(|| 4u64, |x| x + 10, size);
        let mut seen = Vec::new();
        let mut next = 0;
        let mut in_place = Bencher::new(&ones, 5);
        in_place.iter_batched_ref(
            || {
                next += 1;
                next - 1
            },
            |x: &mut u64| {
                seen.push(*x);
                *x += 10;
                *x
            },
            size,
        );
        assert_eq!(seen, [0, 1, 2, 3, 4]);
        assert_eq!(next, 5);
        assert_eq!(consuming.value, in_place.value);
        if size == BatchSize::NumBatches(2) {
            assert_eq!(in_place.value, 2);
        }
    }
}

#[test]
fn assert_iterated_resets() {
    let ticks = Ticks::new();
    let mut bencher = Bencher::new(&ticks, 1);
    bencher.iter(|| ());
    bencher.assert_iterated();
    assert!(!bencher.iterated);
    assert_eq!(bencher.iters, 1);
}

#[test]
fn wall_time_passes() {
    let wall = WallTime;
    let mut bencher = Bencher::new(&wall, 2);
    bencher.iter(|| {
        let began = std::time::Instant::now();
        while began.elapsed().as_millis() < 2 {}
    });
    assert!(bencher.value.to_nanos() >= 4_000_000);
    assert!(bencher.elapsed_time.to_nanos() >= bencher.value.to_nanos());
    assert!(bencher.elapsed_time.as_secs() < 20);
}

#[test]
fn wall_time_adds_up() {
    let wall = WallTime;
    assert!(wall.zero().is_zero());
    let sum = wall.add(&Duration::new(1, 600_000_000), &Duration::new(2, 500_000_000));
    assert_eq!(sum.as_secs(), 4);
    assert_eq!(sum.subsec_nanos(), 100_000_000);
    let longest = wall.add(&Duration::from_secs(u64::MAX), &Duration::from_secs(1));
    assert_eq!(longest.as_secs(), u64::MAX);
    assert_eq!(longest.subsec_nanos(), 999_999_999);
}

#[test]
fn durations_count_nanoseconds() {
    assert_eq!(Duration::new(5, 7).to_nanos(), 5_000_000_007);
    assert_eq!(Duration::from_secs(3).to_nanos(), 3_000_000_000);
    let carried = Duration::new(1, 2_000_000_001);
    assert_eq!(carried.as_secs(), 3);
    assert_eq!(carried.subsec_nanos(), 1);
    assert!(Duration::new(0, 0).is_zero());
    assert!(!Duration::new(0, 1).is_zero());
}
