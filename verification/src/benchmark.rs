//! Benchmarks, their names and their inputs.

use crate::bencher::Bencher;
use crate::criterion::{Criterion, ExternalProfiler};
use crate::measurement::{Measurement, WallTime};
use std::marker::PhantomData;
use vstd::prelude::*;

verus! {

/// A routine of a benchmark, whatever its type.
pub trait Routine<I, M: Measurement> {
    /// Whether the routine can be run with `bencher` on `input`.
    spec fn accepts(&self, bencher: Bencher<M>, input: &I) -> bool;

    /// Whether a run with `bencher` on `input` can have this outcome.
    spec fn outcome(&self, bencher: &mut Bencher<M>, input: &I) -> bool;

    /// Runs the routine.
    fn run(&mut self, bencher: &mut Bencher<M>, input: &I)
        requires
            old(self).accepts(*old(bencher), input),
        ensures
            exists|given: &mut Bencher<M>|
                *given == *old(bencher) && *final(given) == *final(bencher) && #[trigger] old(
                    self,
                ).outcome(given, input),
    ;
}

/// A function as the routine of a benchmark.
pub struct Function<F> {
    pub f: F,
}

impl<F> Function<F> {
    /// The routine that runs `f`.
    pub fn new(f: F) -> (function: Function<F>)
        ensures
            function.f == f,
    {
        Function { f }
    }
}

impl<I, M: Measurement, F: FnMut(&mut Bencher<M>, &I)> Routine<I, M> for Function<F> {
    open spec fn accepts(&self, bencher: Bencher<M>, input: &I) -> bool {
        forall|given: &mut Bencher<M>|
            *given == bencher ==> #[trigger] call_requires(self.f, (given, input))
    }

    open spec fn outcome(&self, bencher: &mut Bencher<M>, input: &I) -> bool {
        call_ensures(self.f, (bencher, input), ())
    }

    fn run(&mut self, bencher: &mut Bencher<M>, input: &I) {
        let ghost before = *bencher;
        (self.f)(bencher, input);
        proof {
            let given = choose|given: &mut Bencher<M>|
                *given == before && *final(given) == *bencher && #[trigger] call_ensures(
                    self.f,
                    (given, input),
                    (),
                );
            assert(<Self as Routine<I, M>>::outcome(old(self), given, input));
        }
    }
}

/// A routine with its name.
#[verifier::reject_recursive_types(I)]
#[verifier::reject_recursive_types(M)]
pub struct NamedRoutine<I, M: Measurement> {
    /// The name
    pub id: String,
    /// The routine
    pub f: Box<dyn Routine<I, M>>,
}

impl<I, M: Measurement> NamedRoutine<I, M> {
    /// Whether this is `f` under the name `name`.
    pub open spec fn is<F: FnMut(&mut Bencher<M>, &I)>(&self, name: Seq<char>, f: F) -> bool {
        &&& self.id@ == name
        &&& forall|bencher: Bencher<M>, input: &I| #[trigger]
            self.f.accepts(bencher, input) == (Function { f }).accepts(bencher, input)
        &&& forall|bencher: &mut Bencher<M>, input: &I| #[trigger]
            self.f.outcome(bencher, input) == call_ensures(f, (bencher, input), ())
    }

    /// The routine that runs `f`, under the name `name`.
    fn new<F>(name: &str, f: F) -> (routine: NamedRoutine<I, M>)
        where F: FnMut(&mut Bencher<'_, M>, &I) + 'static
        ensures
            routine.is(name@, f),
    {
        NamedRoutine { id: name.to_owned(), f: Box::new(Function::new(f)) }
    }
}

/// Representing a function to benchmark together with a name of that function.
/// Used together with `bench_functions` to represent one out of multiple functions
/// under benchmark.
#[verifier::reject_recursive_types(I)]
#[verifier::reject_recursive_types(M)]
pub struct Fun<I, M: Measurement = WallTime> {
    /// The function and its name
    pub f: NamedRoutine<I, M>,
    /// What the function is measured with
    pub measurement: PhantomData<M>,
}

impl<I, M: Measurement> Fun<I, M> {
    /// Create a new `Fun` given a name and a closure
    pub fn new<F>(name: &str, f: F) -> (fun: Fun<I, M>)
        where F: FnMut(&mut Bencher<'_, M>, &I) + 'static
        ensures
            fun.f.is(name@, f),
    {
        Fun { f: NamedRoutine::new(name, f), measurement: PhantomData }
    }
}

/// Names a benchmark by the function that it runs and the parameter that it runs it with.
#[derive(Debug)]
pub struct BenchmarkId {
    /// The name of the function, if it is not that of the group
    pub function_name: Option<String>,
    /// The parameter, if there is one
    pub parameter: Option<String>,
}

impl BenchmarkId {
    /// The benchmark of the function `function_name` with the parameter `parameter`.
    pub fn new(function_name: String, parameter: String) -> (id: BenchmarkId)
        ensures
            id.function_name == Some(function_name),
            id.parameter == Some(parameter),
    {
        BenchmarkId { function_name: Some(function_name), parameter: Some(parameter) }
    }

    /// The benchmark of the function that the group is named after.
    pub fn no_function() -> (id: BenchmarkId)
        ensures
            id.function_name is None,
            id.parameter is None,
    {
        BenchmarkId { function_name: None, parameter: None }
    }

    /// The benchmark of the function that the group is named after, with the parameter `parameter`.
    pub fn no_function_with_input(parameter: String) -> (id: BenchmarkId)
        ensures
            id.function_name is None,
            id.parameter == Some(parameter),
    {
        BenchmarkId { function_name: None, parameter: Some(parameter) }
    }
}

/// A message to the runner that the process is connected to.
#[derive(Debug)]
pub enum OutgoingMessage {
    /// The benchmarks of a group follow.
    BeginningBenchmarkGroup { group: String },
}

/// Benchmarks that are grouped together in the final report.
#[verifier::reject_recursive_types(M)]
pub struct BenchmarkGroup<'a, M: Measurement = WallTime, P = ExternalProfiler> {
    /// The benchmark manager
    pub criterion: &'a mut Criterion<M, P>,
    /// The name of the group
    pub group_name: String,
    /// What to tell the runner before the benchmarks, if anything
    pub announcement: Option<OutgoingMessage>,
}

impl<'a, M: Measurement, P> BenchmarkGroup<'a, M, P> {
    /// Whether this is a new group with the name `name` of the benchmark manager `criterion`. It is
    /// announced where there is a runner.
    pub open spec fn starts(&self, criterion: Criterion<M, P>, name: Seq<char>) -> bool {
        &&& *self.criterion == criterion
        &&& self.group_name@ == name
        &&& match self.announcement {
            Some(OutgoingMessage::BeginningBenchmarkGroup { group }) => criterion.connected
                && group@ == name,
            None => !criterion.connected,
        }
    }
}

/// A benchmark that is still to be run, in a group of its own.
#[must_use]
#[verifier::reject_recursive_types(M)]
pub struct GroupedBenchmark<'a, M: Measurement, P, F> {
    /// The group
    pub group: BenchmarkGroup<'a, M, P>,
    /// The name within the group
    pub id: BenchmarkId,
    /// The function to benchmark
    pub f: F,
}

/// A benchmark with an input that is still to be run, in a group of its own.
#[must_use]
#[verifier::reject_recursive_types(M)]
pub struct GroupedInputBenchmark<'a, 'i, M: Measurement, P, I, F> {
    /// The group
    pub group: BenchmarkGroup<'a, M, P>,
    /// The name within the group
    pub id: BenchmarkId,
    /// The input
    pub input: &'i I,
    /// The function to benchmark
    pub f: F,
}

/// A benchmark that knows how to run itself.
pub trait BenchmarkDefinition<M: Measurement, P>: Sized {
    /// Runs the benchmark.
    fn run(self, group_id: &str, c: &mut Criterion<M, P>);
}

/// Routines that are each to be run with each of some values.
#[verifier::reject_recursive_types(T)]
#[verifier::reject_recursive_types(M)]
pub struct ParameterizedBenchmark<T, M: Measurement = WallTime> {
    /// The routines
    pub routines: Vec<NamedRoutine<T, M>>,
    /// The values
    pub values: Vec<T>,
}

impl<T, M: Measurement> ParameterizedBenchmark<T, M> {
    /// The function `f`, under the name `id`, with each of the parameters.
    pub fn new<F>(id: &str, f: F, parameters: Vec<T>) -> (benchmark: ParameterizedBenchmark<T, M>)
        where F: FnMut(&mut Bencher<'_, M>, &T) + 'static
        ensures
            benchmark.routines@.len() == 1,
            benchmark.routines@[0].is(id@, f),
            benchmark.values == parameters,
    {
        let mut routines: Vec<NamedRoutine<T, M>> = Vec::new();
        routines.push(NamedRoutine::new(id, f));
        ParameterizedBenchmark { routines, values: parameters }
    }

    /// The routines with each of the parameters.
    pub fn with_functions(
        functions: Vec<NamedRoutine<T, M>>,
        parameters: Vec<T>,
    ) -> (benchmark: ParameterizedBenchmark<T, M>)
        ensures
            benchmark.routines == functions,
            benchmark.values == parameters,
    {
        ParameterizedBenchmark { routines: functions, values: parameters }
    }
}

impl<M: Measurement, P> Criterion<M, P> {
    /// Return a benchmark group. All benchmarks performed using a benchmark group will be grouped
    /// together in the final report.
    pub fn benchmark_group(&mut self, group_name: String) -> (group: BenchmarkGroup<'_, M, P>)
        ensures
            group.starts(*old(self), group_name@),
            *final(self) == *final(group.criterion),
    {
        let announcement = if self.connected {
            Some(OutgoingMessage::BeginningBenchmarkGroup { group: group_name.clone() })
        } else {
            None
        };
        BenchmarkGroup { criterion: self, group_name, announcement }
    }

    /// Sets up the benchmark of a function, which is still to be run. For comparing multiple
    /// functions, see `benchmark_group`.
    pub fn bench_function<F>(
        &mut self,
        id: &str,
        f: F,
    ) -> (benchmark: GroupedBenchmark<'_, M, P, F>)
        where F: FnMut(&mut Bencher<'_, M>)
        ensures
            benchmark.group.starts(*old(self), id@),
            *final(self) == *final(benchmark.group.criterion),
            benchmark.id.function_name is None,
            benchmark.id.parameter is None,
            benchmark.f == f,
    {
        GroupedBenchmark {
            group: self.benchmark_group(id.to_owned()),
            id: BenchmarkId::no_function(),
            f,
        }
    }

    /// Sets up the benchmark of a function with an input, which is still to be run. For comparing
    /// multiple functions or multiple inputs, see `benchmark_group`.
    ///
    /// The group is named after the function, and the benchmark within it after the parameter.
    pub fn bench_with_input<'a, 'i, F, I>(
        &'a mut self,
        id: BenchmarkId,
        input: &'i I,
        f: F,
    ) -> (benchmark: GroupedInputBenchmark<'a, 'i, M, P, I, F>)
        where F: FnMut(&mut Bencher<'_, M>, &I)
        requires
            id.function_name is Some,
            id.parameter is Some,
        ensures
            benchmark.group.starts(*old(self), id.function_name.unwrap()@),
            *final(self) == *final(benchmark.group.criterion),
            benchmark.id.function_name is None,
            benchmark.id.parameter == id.parameter,
            benchmark.input == input,
            benchmark.f == f,
    {
        let group_name = id.function_name.unwrap();
        let parameter = id.parameter.unwrap();
        GroupedInputBenchmark {
            group: self.benchmark_group(group_name),
            id: BenchmarkId::no_function_with_input(parameter),
            input,
            f,
        }
    }

    /// Benchmarks a function under various inputs
    ///
    /// This is a convenience method to execute several related benchmarks.
    pub fn bench_function_over_inputs<T, F>(
        &mut self,
        id: &str,
        f: F,
        inputs: Vec<T>,
    ) -> (criterion: &mut Criterion<M, P>)
        where
            F: FnMut(&mut Bencher<'_, M>, &T) + 'static,
            ParameterizedBenchmark<T, M>: BenchmarkDefinition<M, P>,
        ensures
            *final(self) == *final(criterion),
            exists|benchmark: ParameterizedBenchmark<T, M>, given: &mut Criterion<M, P>|
                {
                    &&& benchmark.routines@.len() == 1
                    &&& benchmark.routines@[0].is(id@, f)
                    &&& benchmark.values == inputs
                    &&& *given == *old(self)
                    &&& *final(given) == *criterion
                    &&& #[trigger] call_ensures(
                        <ParameterizedBenchmark<T, M> as BenchmarkDefinition<M, P>>::run,
                        (benchmark, id, given),
                        (),
                    )
                },
    {
        self.bench(id, ParameterizedBenchmark::new(id, f, inputs))
    }

    /// Benchmarks multiple functions
    ///
    /// All functions get the same input and are compared with the other implementations.
    /// Works similar to `bench_function`, but with multiple functions.
    pub fn bench_functions<I>(
        &mut self,
        id: &str,
        funs: Vec<Fun<I, M>>,
        input: I,
    ) -> (criterion: &mut Criterion<M, P>)
        where ParameterizedBenchmark<I, M>: BenchmarkDefinition<M, P>
        ensures
            *final(self) == *final(criterion),
            exists|benchmark: ParameterizedBenchmark<I, M>, given: &mut Criterion<M, P>|
                {
                    &&& benchmark.routines@ == funs@.map_values(|fun: Fun<I, M>| fun.f)
                    &&& benchmark.values@ == seq![input]
                    &&& *given == *old(self)
                    &&& *final(given) == *criterion
                    &&& #[trigger] call_ensures(
                        <ParameterizedBenchmark<I, M> as BenchmarkDefinition<M, P>>::run,
                        (benchmark, id, given),
                        (),
                    )
                },
    {
        let ghost all = funs@;
        let mut routines: Vec<NamedRoutine<I, M>> = Vec::new();
        for fun in iter: funs
            invariant
                iter.seq() == all,
                routines@ == all.take(iter.index()).map_values(|fun: Fun<I, M>| fun.f),
        {
            let ghost at = iter.index();
            routines.push(fun.f);
            assert(routines@ =~= all.take(at + 1).map_values(|fun: Fun<I, M>| fun.f));
        }
        assert(routines@ =~= all.map_values(|fun: Fun<I, M>| fun.f));
        let mut values: Vec<I> = Vec::new();
        values.push(input);
        assert(values@ =~= seq![input]);
        self.bench(id, ParameterizedBenchmark::with_functions(routines, values))
    }

    /// Executes the given benchmark. Use this variant to execute benchmarks with complex
    /// configuration. This can be used to compare multiple functions, execute benchmarks with
    /// custom configuration settings and more.
    pub fn bench<B: BenchmarkDefinition<M, P>>(
        &mut self,
        group_id: &str,
        benchmark: B,
    ) -> (criterion: &mut Criterion<M, P>)
        ensures
            *final(self) == *final(criterion),
            exists|given: &mut Criterion<M, P>|
                *given == *old(self) && *final(given) == *criterion && #[trigger] call_ensures(
                    B::run,
                    (benchmark, group_id, given),
                    (),
                ),
    {
        benchmark.run(group_id, self);
        self
    }
}

/// A new group is of the manager it was asked of and has the name it was asked with. It is
/// announced to the runner exactly where there is one, under that name.
pub proof fn groups_are_announced_where_there_is_a_runner<M: Measurement, P>(
    group: BenchmarkGroup<'_, M, P>,
    criterion: Criterion<M, P>,
    name: Seq<char>,
)
    requires
        group.starts(criterion, name),
    ensures
        *old(group.criterion) == criterion,
        group.group_name@ == name,
        group.announcement is Some <==> criterion.connected,
        group.announcement matches Some(OutgoingMessage::BeginningBenchmarkGroup { group: told })
            ==> told@ == name,
{
}

/// A named routine has its name, can be run wherever the function can be called, and does nothing
/// but call it.
pub proof fn named_routines_call_their_function<I, M: Measurement, F>(
    routine: NamedRoutine<I, M>,
    name: Seq<char>,
    f: F,
    bencher: &mut Bencher<M>,
    input: &I,
)
    where F: FnMut(&mut Bencher<M>, &I)
    requires
        routine.is(name, f),
    ensures
        routine.id@ == name,
        routine.f.outcome(bencher, input) <==> call_ensures(f, (bencher, input), ()),
        routine.f.accepts(*old(bencher), input) ==> call_requires(f, (bencher, input)),
{
    let function = Function { f };
    let given = *bencher;
    assert(routine.f.accepts(given, input) == (Function { f }).accepts(given, input));
    if routine.f.accepts(given, input) {
        assert(<Function<F> as Routine<I, M>>::accepts(&function, given, input));
        assert(call_requires(function.f, (bencher, input)));
    }
}

} // verus!
