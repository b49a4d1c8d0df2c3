use criterion_core::benchmark::{
    BenchmarkDefinition, BenchmarkId, OutgoingMessage, ParameterizedBenchmark, Routine,
};
use criterion_core::criterion::ExternalProfiler;
use criterion_core::environment::Environment;
use criterion_core::measurement::{Measurement, WallTime};
use criterion_core::plotting::GnuplotVersion;
use criterion_core::{Bencher, Criterion, Fun};
use std::cell::Cell;
use std::fmt::Debug;
use std::rc::Rc;

fn manager(connected: bool) -> Criterion {
    Criterion::default(Environment {
        debug_enabled: false,
        gnuplot: GnuplotVersion::NotExecuted,
        connected,
        criterion_home: None,
        cargo_target_dir: None,
    })
}

/// Notes what is run.
struct Notes(Vec<String>);

/// Runs each routine once with each value, in one iteration.
impl<T: Debug> BenchmarkDefinition<WallTime, Notes> for ParameterizedBenchmark<T, WallTime> {
    fn run(self, group_id: &str, c: &mut Criterion<WallTime, Notes>) {
        for mut routine in self.routines {
            for value in &self.values {
                let mut bencher = Bencher::new(&c.measurement, 1);
                routine.f.run(&mut bencher, value);
                bencher.assert_iterated();
                c.profiler.0.push(format!("{} {} {:?}", group_id, routine.id, value));
            }
        }
        c.all_titles.insert(group_id.to_string());
    }
}

/// Changes the sample size.
struct Resize(usize);

impl BenchmarkDefinition<WallTime, ExternalProfiler> for Resize {
    fn run(self, group_id: &str, c: &mut Criterion) {
        c.config.sample_size = self.0;
        c.all_titles.insert(group_id.to_string());
    }
}

#[test]
fn fun_names_a_routine() {
    let wall = WallTime;
    let ran = Rc::new(Cell::new(0));
    let seen = ran.clone();
    let mut fun: Fun<u32> = Fun::new("Sequential", move |b: &mut Bencher<'_, WallTime>, i: &u32| {
        let seen = seen.clone();
        let i = *i;
        b.iter(move || seen.set(seen.get() + i));
    });
    assert_eq!(fun.f.id, "Sequential");
    let mut bencher = Bencher::new(&wall, 3);
    fun.f.f.run(&mut bencher, &14);
    assert!(bencher.iterated);
    assert_eq!(ran.get(), 42);
}

#[test]
fn groups_are_announced_to_the_runner() {
    let mut c = manager(false);
    let group = c.benchmark_group("My Group".to_string());
    assert_eq!(group.group_name, "My Group");
    assert!(group.announcement.is_none());
    let mut c = manager(true);
    let group = c.benchmark_group("My Group".to_string());
    match &group.announcement {
        Some(OutgoingMessage::BeginningBenchmarkGroup { group }) => assert_eq!(group, "My Group"),
        None => panic!(),
    }
    group.criterion.config.sample_size = 50;
    assert_eq!(c.config.sample_size, 50);
}

#[test]
fn bench_function_makes_a_group_of_its_own() {
    let mut c = manager(false);
    let mut benchmark = c.bench_function("alone", |b: &mut Bencher<'_, WallTime>| b.iter(|| 1));
    assert_eq!(benchmark.group.group_name, "alone");
    assert!(benchmark.id.function_name.is_none());
    assert!(benchmark.id.parameter.is_none());
    let mut bencher = Bencher::new(&WallTime, 2);
    (benchmark.f)(&mut bencher);
    assert!(bencher.iterated);
}

#[test]
fn bench_with_input_names_group_and_parameter() {
    let mut c = manager(true);
    let input = 5u64;
    let id = BenchmarkId::new("function_name".to_string(), "5".to_string());
    let benchmark = c.bench_with_input(id, &input, |b: &mut Bencher<'_, WallTime>, i: &u64| {
        let i = *i;
        b.iter(move || i)
    });
    assert_eq!(benchmark.group.group_name, "function_name");
    assert!(benchmark.group.announcement.is_some());
    assert!(benchmark.id.function_name.is_none());
    assert_eq!(benchmark.id.parameter.as_deref(), Some("5"));
    assert_eq!(*benchmark.input, 5);
}

#[test]
fn bench_function_over_inputs_runs_each_input() {
    let mut c = manager(false).with_profiler(Notes(Vec::new()));
    let seen = Rc::new(Cell::new(0));
    let sum = seen.clone();
    let c = c.bench_function_over_inputs(
        "from_elem",
        move |b: &mut Bencher<'_, WallTime>, size: &usize| {
            let size = *size;
            sum.set(sum.get() + size);
            b.iter(move || vec![0u8; size])
        },
        vec![1024, 2048, 4096],
    );
    assert_eq!(
        c.profiler.0,
        ["from_elem from_elem 1024", "from_elem from_elem 2048", "from_elem from_elem 4096"]
    );
    assert!(c.all_titles.contains("from_elem"));
    assert_eq!(seen.get(), 7168);
}

#[test]
fn bench_functions_share_an_input() {
    let mut c = manager(false).with_profiler(Notes(Vec::new()));
    let sequential = Fun::new("Sequential", |b: &mut Bencher<'_, WallTime>, _: &u32| b.iter(|| 1));
    let parallel = Fun::new("Parallel", |b: &mut Bencher<'_, WallTime>, _: &u32| b.iter(|| 2));
    let c = c.bench_functions("Fibonacci", vec![sequential, parallel], 14);
    assert_eq!(c.profiler.0, ["Fibonacci Sequential 14", "Fibonacci Parallel 14"]);
    assert!(c.all_titles.contains("Fibonacci"));
    assert!(c.measurement.zero().is_zero());
}

#[test]
fn bench_runs_a_definition() {
    let mut c = manager(false);
    let same = c.bench("routines", Resize(50));
    assert_eq!(same.config.sample_size, 50);
    same.config.nresamples = 7;
    assert_eq!(c.config.nresamples, 7);
    assert!(c.all_titles.contains("routines"));
}
