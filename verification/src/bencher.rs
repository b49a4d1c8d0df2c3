//! The timing loops.

use crate::batch_size::{batch_length, ceil_div, ceil_div_is_least, BatchSize};
use crate::black_box::black_box;
use crate::duration::Duration;
use crate::measurement::{Measurement, WallTime};
use crate::record::{
    batch_of, batched, batched_log, batched_record_has_batched_steps, batched_so_far, batched_steps,
    calls, custom, custom_log, custom_record_has_custom_steps, custom_steps, divided,
    lemma_batch_added, outputs_of, set_ups, timed, timed_log, timed_record_has_timed_steps,
    timed_so_far, timed_steps, total, Batch,
};
use crate::session::{
    recorded, values, Batched, Consuming, Custom, Entry, Event, Held, InPlace, Prepared, Session,
    Step, Timeline, Unprepared, Work,
};
use std::marker::PhantomData;
use std::time::Instant;
use vstd::prelude::*;

verus! {

/// Timer struct used to iterate a benchmarked function and measure the runtime.
///
/// This struct provides different timing loops as methods. Each timing loop provides a different
/// way to time a routine and each has advantages and disadvantages.
///
/// * If you want to do the iteration and measurement yourself (eg. passing the iteration count
///   to a separate process), use `iter_custom`.
/// * If your routine requires no per-iteration setup and returns a value with an expensive `drop`
///   method, use `iter_with_large_drop`.
/// * If your routine requires some per-iteration setup that shouldn't be timed, use `iter_batched`
///   or `iter_batched_ref`. See [`BatchSize`] for a discussion of batch sizes. If the setup value
///   implements `Drop` and you don't want to include the `drop` time in the measurement, use
///   `iter_batched_ref`, otherwise use `iter_batched`. These methods are also suitable for
///   benchmarking routines which return a value with an expensive `drop` method, but are more
///   complex than `iter_with_large_drop`.
/// * Otherwise, use `iter`.
pub struct Bencher<'a, M: Measurement = WallTime> {
    /// Have we iterated this benchmark?
    pub iterated: bool,
    /// Number of times to iterate this benchmark
    pub iters: u64,
    /// The measured value
    pub value: M::Value,
    /// Reference to the measurement object
    pub measurement: &'a M,
    /// How much time did it take to perform the iteration? Used for the warmup period.
    pub elapsed_time: Duration,
    /// The steps that the timing loops have taken so far
    pub timeline: Timeline,
}

impl<'a, M: Measurement> Bencher<'a, M> {
    /// Whether this is `before` after a timing loop that took `steps`.
    pub open spec fn looped_since(&self, before: &Self, steps: Seq<Step>) -> bool {
        &&& self.iterated
        &&& self.iters == before.iters
        &&& self.measurement == before.measurement
        &&& self.timeline@ == before.timeline@ + steps
    }

    /// Whether `log` is what the timing loop from `before` to this recorded of `work`.
    pub open spec fn recorded_since<W: Work>(
        &self,
        before: &Self,
        work: W,
        log: Seq<Entry<M, W>>,
    ) -> bool {
        recorded::<M, W>(before.timeline, before.measurement, work, log, self.timeline)
    }

    /// Whether this is `before` after all its iterations of `work` within one measurement, each
    /// output dropped before the next run.
    pub open spec fn timed_since<W: Work>(&self, before: &Self, work: W) -> bool {
        &&& self.looped_since(before, timed_steps(before.iters as nat))
        &&& exists|log: Seq<Entry<M, W>>|
            self.recorded_since(before, work, log) && #[trigger] timed::<M, W>(
                before.measurement,
                work,
                before.iters as nat,
                log,
                self.value,
                self.elapsed_time,
            )
    }

    /// Whether this is `before` after one run of `work` that measured itself.
    pub open spec fn custom_since<W: Work<Output = M::Value, Argument = u64>>(
        &self,
        before: &Self,
        work: W,
    ) -> bool {
        &&& self.looped_since(before, custom_steps())
        &&& exists|log: Seq<Entry<M, W>>|
            self.recorded_since(before, work, log) && #[trigger] custom::<M, W>(
                before.measurement,
                work,
                before.iters,
                log,
                self.value,
                self.elapsed_time,
            )
    }

    /// Whether this is `before` after all its iterations of `work` in batches of `batch`, the
    /// outputs of each batch dropped after its measurement.
    pub open spec fn batched_since<W: Work>(&self, before: &Self, work: W, batch: nat) -> bool {
        &&& self.looped_since(
            before,
            batched_steps(before.iters as nat, batch, W::keeps_inputs()),
        )
        &&& exists|log: Seq<Entry<M, W>>|
            self.recorded_since(before, work, log) && #[trigger] batched::<M, W>(
                before.measurement,
                work,
                before.iters as nat,
                batch,
                log,
                self.value,
                self.elapsed_time,
            )
    }

    /// A bencher that is to do `iters` iterations and has not done any.
    pub fn new(measurement: &'a M, iters: u64) -> (bencher: Bencher<'a, M>)
        ensures
            !bencher.iterated,
            bencher.iters == iters,
            call_ensures(M::zero, (measurement,), bencher.value),
            bencher.measurement == measurement,
            bencher.elapsed_time@ == 0,
            bencher.timeline@ == Seq::<Step>::empty(),
    {
        Bencher {
            iterated: false,
            iters,
            value: measurement.zero(),
            measurement,
            elapsed_time: Duration::from_secs(0),
            timeline: Timeline::new(),
        }
    }

    /// Times a `routine` by executing it many times and timing the total elapsed time.
    ///
    /// Prefer this timing loop when `routine` returns a value that doesn't have a destructor.
    ///
    /// # Timing model
    ///
    /// Note that the `Bencher` also times the time required to destroy the output of `routine()`.
    /// Therefore prefer this timing loop when the runtime of `mem::drop(O)` is negligible compared
    /// to the runtime of the `routine`.
    ///
    /// ```text
    /// elapsed = Instant::now + iters * (routine + mem::drop(O) + Range::next)
    /// ```
    pub fn iter<O, R>(&mut self, routine: R)
        where R: FnMut() -> O
        requires
            call_requires(routine, ()),
        ensures
            final(self).timed_since(old(self), Unprepared { routine }),
    {
        let ghost work = Unprepared { routine };
        let ghost before = *self;
        let mut session = Session::begin(self.measurement, Unprepared { routine }, self.timeline);
        self.iterated = true;
        let time_start = session.clock();
        let start = session.start();
        let ghost began = start;
        let ghost mut runs: Seq<((), O)> = seq![];
        let iters: u64 = self.iters;
        let mut done: u64 = 0;
        assert(session.log() =~= timed_so_far::<M, Unprepared<R>>(time_start, start, runs));
        while done < iters
            invariant
                done <= iters,
                session.well_formed(),
                session.measurement() == before.measurement,
                session.work() == work,
                session.earlier() == before.timeline,
                session.log() == timed_so_far::<M, Unprepared<R>>(time_start, start, runs),
                runs.len() == done,
            decreases iters - done,
        {
            assert(session.work().makes(()) && session.work().takes((), ()));
            let output = session.run(());
            let ghost given = output.value();
            session.drop_output(output);
            proof {
                let longer = runs.push(((), given));
                assert(session.log() =~= timed_so_far::<M, Unprepared<R>>(
                    time_start,
                    start,
                    longer,
                ));
                runs = longer;
            }
            done = done + 1;
        }
        self.value = session.end(start);
        self.elapsed_time = session.elapsed(&time_start);
        proof {
            assert(session.log() =~= timed_log::<M, Unprepared<R>>(
                time_start,
                began,
                runs,
                self.value,
                self.elapsed_time,
            ));
            timed_record_has_timed_steps::<M, Unprepared<R>>(
                before.measurement,
                work,
                iters as nat,
                session.log(),
                self.value,
                self.elapsed_time,
            );
        }
        let ghost log = session.log();
        self.timeline = session.finish();
        assert(timed::<M, Unprepared<R>>(
            before.measurement,
            work,
            before.iters as nat,
            log,
            self.value,
            self.elapsed_time,
        ));
    }

    /// Times a `routine` by executing it many times and relying on `routine` to measure its own
    /// execution time.
    ///
    /// Prefer this timing loop in cases where `routine` has to do its own measurements to get
    /// accurate timing information (for example in multi-threaded scenarios where you spawn and
    /// coordinate with multiple threads).
    ///
    /// # Timing model
    /// Custom, the timing model is whatever is returned as the value from `routine`.
    pub fn iter_custom<R>(&mut self, routine: R)
        where R: FnMut(u64) -> M::Value
        requires
            call_requires(routine, (old(self).iters,)),
        ensures
            final(self).custom_since(old(self), Custom { routine, iters: old(self).iters }),
            call_ensures(routine, (old(self).iters,), final(self).value),
    {
        let ghost before = *self;
        let ghost work = Custom { routine, iters: self.iters };
        self.iterated = true;
        let mut session = Session::begin(
            self.measurement,
            Custom { routine, iters: self.iters },
            self.timeline,
        );
        let time_start = session.clock();
        assert(session.work().makes(()) && session.work().takes((), self.iters));
        self.value = session.run(self.iters).take();
        self.elapsed_time = session.elapsed(&time_start);
        let ghost log = session.log();
        proof {
            assert(log =~= custom_log::<M, Custom<R>>(
                time_start,
                before.iters,
                self.value,
                self.elapsed_time,
            ));
            assert(log[1] == Entry::<M, Custom<R>>::Run(before.iters, self.value));
            custom_record_has_custom_steps::<M, Custom<R>>(
                before.measurement,
                work,
                before.iters,
                log,
                self.value,
                self.elapsed_time,
            );
        }
        self.timeline = session.finish();
        assert(custom::<M, Custom<R>>(
            before.measurement,
            work,
            before.iters,
            log,
            self.value,
            self.elapsed_time,
        ));
    }

    /// Times a `routine` with a setup for every single iteration: batches of one.
    pub fn iter_with_setup<I, O, S, R>(&mut self, setup: S, routine: R)
        where S: FnMut() -> I, R: FnMut(I) -> O
        requires
            call_requires(setup, ()),
            forall|input: I|
                call_ensures(setup, (), input) ==> #[trigger] call_requires(routine, (input,)),
        ensures
            final(self).batched_since(old(self), Batched { setup, routine }, 1),
    {
        self.iter_batched(setup, routine, BatchSize::PerIteration);
    }

    /// Times a `routine` by collecting its output on each iteration. This avoids timing the
    /// destructor of the value returned by `routine`. All iterations fall into one measurement, and
    /// there must be at least one.
    ///
    /// WARNING: This requires `O(iters * mem::size_of::<O>())` of memory, and `iters` is not under
    /// the control of the caller. If this causes out-of-memory errors, use `iter_batched` instead.
    ///
    /// # Timing model
    ///
    /// ``` text
    /// elapsed = Instant::now + iters * (routine) + Iterator::collect::<Vec<_>>
    /// ```
    pub fn iter_with_large_drop<O, R>(&mut self, routine: R)
        where R: FnMut() -> O
        requires
            old(self).iters > 0,
            call_requires(routine, ()),
        ensures
            final(self).batched_since(
                old(self),
                Unprepared { routine },
                old(self).iters as nat,
            ),
    {
        let ghost before = *self;
        let ghost work = Unprepared { routine };
        self.iterated = true;
        let batch_size: u64 = self.iters;
        let mut session = Session::begin(self.measurement, Unprepared { routine }, self.timeline);
        let (value, elapsed_time) = measure_batches(&mut session, self.iters, batch_size);
        let ghost log = session.log();
        proof {
            batched_record_has_batched_steps::<M, Unprepared<R>>(
                before.measurement,
                work,
                before.iters as nat,
                batch_size as nat,
                log,
                value,
                elapsed_time,
            );
        }
        self.value = value;
        self.elapsed_time = elapsed_time;
        self.timeline = session.finish();
        assert(batched::<M, Unprepared<R>>(
            before.measurement,
            work,
            before.iters as nat,
            batch_size as nat,
            log,
            self.value,
            self.elapsed_time,
        ));
    }

    /// Times a `routine` with all setup done before the first iteration: a single batch.
    pub fn iter_with_large_setup<I, O, S, R>(&mut self, setup: S, routine: R)
        where S: FnMut() -> I, R: FnMut(I) -> O
        requires
            BatchSize::NumBatches(1).computable(old(self).iters),
            BatchSize::NumBatches(1).per_batch(old(self).iters) > 0,
            call_requires(setup, ()),
            forall|input: I|
                call_ensures(setup, (), input) ==> #[trigger] call_requires(routine, (input,)),
        ensures
            final(self).batched_since(
                old(self),
                Batched { setup, routine },
                BatchSize::NumBatches(1).per_batch(old(self).iters),
            ),
    {
        self.iter_batched(setup, routine, BatchSize::NumBatches(1));
    }

    /// Times a `routine` that requires some input by generating a batch of input, then timing the
    /// iteration of the benchmark over the input. See [`BatchSize`] for details on choosing the
    /// batch size. Use this when the routine must consume its input.
    ///
    /// For example, use this loop to benchmark sorting algorithms, because they require unsorted
    /// data on each iteration.
    ///
    /// # Timing model
    ///
    /// ```text
    /// elapsed = (Instant::now * num_batches) + (iters * routine) + Vec::extend
    /// ```
    ///
    /// The outputs of a batch are dropped after its measurement.
    pub fn iter_batched<I, O, S, R>(&mut self, setup: S, routine: R, size: BatchSize)
        where S: FnMut() -> I, R: FnMut(I) -> O
        requires
            size.computable(old(self).iters),
            size.per_batch(old(self).iters) > 0,
            call_requires(setup, ()),
            forall|input: I|
                call_ensures(setup, (), input) ==> #[trigger] call_requires(routine, (input,)),
        ensures
            final(self).batched_since(
                old(self),
                Batched { setup, routine },
                size.per_batch(old(self).iters),
            ),
    {
        let ghost before = *self;
        let ghost work = Batched { setup, routine };
        self.iterated = true;
        let batch_size: u64 = size.iters_per_batch(self.iters);
        let mut session = Session::begin(
            self.measurement,
            Batched { setup, routine },
            self.timeline,
        );
        let (value, elapsed_time) = measure_batches(&mut session, self.iters, batch_size);
        let ghost log = session.log();
        proof {
            batched_record_has_batched_steps::<M, Batched<S, R>>(
                before.measurement,
                work,
                before.iters as nat,
                batch_size as nat,
                log,
                value,
                elapsed_time,
            );
        }
        self.value = value;
        self.elapsed_time = elapsed_time;
        self.timeline = session.finish();
        assert(batched::<M, Batched<S, R>>(
            before.measurement,
            work,
            before.iters as nat,
            batch_size as nat,
            log,
            self.value,
            self.elapsed_time,
        ));
    }

    /// Times a `routine` that requires some input by generating a batch of input, then timing the
    /// iteration of the benchmark over the input. See [`BatchSize`] for details on choosing the
    /// batch size. Use this when the routine should accept the input by mutable reference.
    ///
    /// For example, use this loop to benchmark sorting algorithms, because they require unsorted
    /// data on each iteration.
    ///
    /// # Timing model
    ///
    /// ```text
    /// elapsed = (Instant::now * num_batches) + (iters * routine) + Vec::extend
    /// ```
    pub fn iter_batched_ref<I, O, S, R>(&mut self, setup: S, routine: R, size: BatchSize)
        where S: FnMut() -> I, R: FnMut(&mut I) -> O
        requires
            size.computable(old(self).iters),
            size.per_batch(old(self).iters) > 0,
            call_requires(setup, ()),
            forall|input: &mut I|
                call_ensures(setup, (), *input) ==> #[trigger] call_requires(routine, (input,)),
        ensures
            final(self).batched_since(
                old(self),
                InPlace { setup, routine, inputs: PhantomData },
                size.per_batch(old(self).iters),
            ),
    {
        let ghost before = *self;
        let ghost work = InPlace { setup, routine, inputs: PhantomData };
        self.iterated = true;
        let batch_size: u64 = size.iters_per_batch(self.iters);
        let mut session = Session::begin(
            self.measurement,
            InPlace { setup, routine, inputs: PhantomData },
            self.timeline,
        );
        let (value, elapsed_time) = measure_batches_in_place(&mut session, self.iters, batch_size);
        let ghost log = session.log();
        proof {
            batched_record_has_batched_steps::<M, InPlace<'_, I, S, R>>(
                before.measurement,
                work,
                before.iters as nat,
                batch_size as nat,
                log,
                value,
                elapsed_time,
            );
        }
        self.value = value;
        self.elapsed_time = elapsed_time;
        self.timeline = session.finish();
        assert(batched::<M, InPlace<'_, I, S, R>>(
            before.measurement,
            work,
            before.iters as nat,
            batch_size as nat,
            log,
            self.value,
            self.elapsed_time,
        ));
    }

    /// Benchmarks must actually call one of the iter methods. This causes benchmarks to fail loudly
    /// if they don't.
    pub fn assert_iterated(&mut self)
        requires
            old(self).iterated,
        ensures
            !final(self).iterated,
            *final(self) == (Bencher { iterated: false, ..*old(self) }),
    {
        self.iterated = false;
    }
}

/// What a session of `M` and `W` records of a batch.
pub type BatchOf<M, W> = Batch<
    <W as Work>::Input,
    <W as Work>::Argument,
    <W as Work>::Output,
    <M as Measurement>::Intermediate,
    <M as Measurement>::Value,
>;

impl<'a, M: Measurement, W: Work> Session<'a, M, W> {
    /// Whether this session is `before` after a batch of `n` iterations, which was added to
    /// `value`.
    spec fn after_batch(
        &self,
        before: &Self,
        n: nat,
        value: M::Value,
        batch: BatchOf<M, W>,
    ) -> bool {
        &&& self.well_formed()
        &&& self.measurement() == before.measurement()
        &&& self.work() == before.work()
        &&& self.earlier() == before.earlier()
        &&& self.log() == before.log() + batch.events(value, W::keeps_inputs())
        &&& batch_of(self.work(), n, batch)
    }
}

/// Another output is held for another run.
proof fn lemma_output_held<A, O>(
    held: Seq<Held<O>>,
    output: Held<O>,
    runs: Seq<(A, O)>,
    run: (A, O),
)
    requires
        values(held) == outputs_of(runs),
        output.value() == run.1,
    ensures
        values(held.push(output)) == outputs_of(runs.push(run)),
{
    assert(values(held.push(output)) =~= values(held).push(output.value()));
    assert(outputs_of(runs.push(run)) =~= outputs_of(runs).push(run.1));
}

/// Measures one iteration and adds it to `value`.
fn measure_one<'a, M: Measurement, I, O, W>(
    session: &mut Session<'a, M, W>,
    value: &M::Value,
) -> (sum: M::Value)
    where W: Work<Input = I, Argument = I, Output = O> + Prepared + Consuming
    requires
        old(session).well_formed(),
        !W::keeps_inputs(),
        forall|input: I| #[trigger] old(session).work().takes(input, input),
    ensures
        exists|batch: BatchOf<M, W>| #[trigger]
            final(session).after_batch(old(session), 1, *value, batch) && sum == batch.total,
{
    let input = black_box(session.set_up()).take();
    let ghost made = input;
    assert(session.work().takes(input, input));
    let start = session.start();
    let ghost began = start;
    let output = session.run(input);
    let ghost given = output.value();
    let end = session.end(start);
    let sum = session.combine(value, &end);
    session.drop_output(output);
    proof {
        let batch = Batch {
            inputs: seq![made],
            runs: seq![(made, given)],
            start: began,
            measured: end,
            total: sum,
        };
        assert(session.log() =~= old(session).log() + batch.events(*value, false));
        assert(session.after_batch(old(session), 1, *value, batch));
    }
    sum
}

/// Measures a batch of `n` iterations and adds it to `value`.
fn measure_batch<'a, M: Measurement, I, O, W>(
    session: &mut Session<'a, M, W>,
    n: u64,
    value: &M::Value,
) -> (sum: M::Value)
    where W: Work<Input = I, Argument = I, Output = O> + Prepared + Consuming
    requires
        old(session).well_formed(),
        !W::keeps_inputs(),
        forall|input: I| #[trigger] old(session).work().takes(input, input),
    ensures
        exists|batch: BatchOf<M, W>| #[trigger]
            final(session).after_batch(old(session), n as nat, *value, batch) && sum == batch.total,
{
    let mut inputs: Vec<Held<I>> = Vec::with_capacity(n as usize);
    let mut made: u64 = 0;
    assert(session.log() =~= old(session).log() + set_ups(values(inputs@)));
    while made < n
        invariant
            made <= n,
            session.well_formed(),
            session.measurement() == old(session).measurement(),
            session.work() == old(session).work(),
            session.earlier() == old(session).earlier(),
            session.log() == old(session).log() + set_ups(values(inputs@)),
            inputs@.len() == made,
            forall|j: int|
                0 <= j < inputs@.len() ==> session.work().makes((#[trigger] inputs@[j]).value()),
        decreases n - made,
    {
        let input = session.set_up();
        inputs.push(input);
        made = made + 1;
        assert(session.log() =~= old(session).log() + set_ups(values(inputs@)));
    }
    let inputs = black_box(inputs);
    let ghost held = inputs@;
    let ghost all = values(held);
    let mut outputs: Vec<Held<O>> = Vec::with_capacity(n as usize);
    let start = session.start();
    let ghost began = start;
    let ghost started = session.log();
    let ghost mut runs: Seq<(I, O)> = seq![];
    assert(session.log() =~= started + calls(runs));
    for input in iter: inputs
        invariant
            session.well_formed(),
            session.measurement() == old(session).measurement(),
            session.work() == old(session).work(),
            session.earlier() == old(session).earlier(),
            session.log() == started + calls(runs),
            iter.seq() == held,
            all == values(held),
            runs.len() == iter.index(),
            values(outputs@) == outputs_of(runs),
            forall|input: I| #[trigger] session.work().takes(input, input),
            forall|j: int| 0 <= j < all.len() ==> session.work().makes(#[trigger] all[j]),
            forall|j: int| 0 <= j < runs.len() ==> (#[trigger] runs[j]).0 == all[j],
    {
        let input = input.take();
        let ghost argument = input;
        assert(argument == all[iter.index() as int]);
        let output = session.run(input);
        proof {
            let longer = runs.push((argument, output.value()));
            assert(session.log() =~= started + calls(longer));
            lemma_output_held(outputs@, output, runs, longer.last());
            runs = longer;
        }
        outputs.push(output);
    }
    let end = session.end(start);
    let sum = session.combine(value, &end);
    session.drop_outputs(outputs);
    proof {
        let batch = Batch { inputs: all, runs, start: began, measured: end, total: sum };
        assert(session.log() =~= old(session).log() + batch.events(*value, false));
        assert(session.after_batch(old(session), n as nat, *value, batch));
    }
    sum
}

/// Measures one iteration of a routine that works in place and adds it to `value`.
fn measure_one_in_place<'a, 'i, M: Measurement, I, O, S, R>(
    session: &mut Session<'a, M, InPlace<'i, I, S, R>>,
    value: &M::Value,
) -> (sum: M::Value)
    where S: FnMut() -> I, R: FnMut(&mut I) -> O
    requires
        old(session).well_formed(),
    ensures
        exists|batch: BatchOf<M, InPlace<'i, I, S, R>>| #[trigger]
            final(session).after_batch(old(session), 1, *value, batch) && sum == batch.total,
{
    let mut input = black_box(session.set_up());
    let ghost made = input.value();
    let start = session.start();
    let ghost began = start;
    let ghost started = *session;
    let output = session.run_in_place(&mut input);
    let ghost result = output.value();
    let ghost given = choose|given: &'i mut I|
        *given == made && #[trigger] session.after(&started, Event::Run(given, result));
    let end = session.end(start);
    let sum = session.combine(value, &end);
    session.drop_output(output);
    session.drop_input(input);
    proof {
        let batch = Batch {
            inputs: seq![made],
            runs: seq![(given, result)],
            start: began,
            measured: end,
            total: sum,
        };
        assert(session.log() =~= old(session).log() + batch.events(*value, true));
        assert(session.after_batch(old(session), 1, *value, batch));
    }
    sum
}

/// Measures a batch of `n` iterations of a routine that works in place and adds it to `value`.
fn measure_batch_in_place<'a, 'i, M: Measurement, I, O, S, R>(
    session: &mut Session<'a, M, InPlace<'i, I, S, R>>,
    n: u64,
    value: &M::Value,
) -> (sum: M::Value)
    where S: FnMut() -> I, R: FnMut(&mut I) -> O
    requires
        old(session).well_formed(),
    ensures
        exists|batch: BatchOf<M, InPlace<'i, I, S, R>>| #[trigger]
            final(session).after_batch(old(session), n as nat, *value, batch) && sum == batch.total,
{
    let mut inputs: Vec<Held<I>> = Vec::with_capacity(n as usize);
    let mut made: u64 = 0;
    assert(session.log() =~= old(session).log() + set_ups(values(inputs@)));
    while made < n
        invariant
            made <= n,
            session.well_formed(),
            session.measurement() == old(session).measurement(),
            session.work() == old(session).work(),
            session.earlier() == old(session).earlier(),
            session.log() == old(session).log() + set_ups(values(inputs@)),
            inputs@.len() == made,
            forall|j: int|
                0 <= j < inputs@.len() ==> session.work().makes((#[trigger] inputs@[j]).value()),
        decreases n - made,
    {
        let input = session.set_up();
        inputs.push(input);
        made = made + 1;
        assert(session.log() =~= old(session).log() + set_ups(values(inputs@)));
    }
    let mut inputs = black_box(inputs);
    let ghost all = values(inputs@);
    let mut outputs: Vec<Held<O>> = Vec::with_capacity(n as usize);
    let start = session.start();
    let ghost began = start;
    let ghost begun = session.log();
    let ghost mut runs: Seq<(&'i mut I, O)> = seq![];
    let mut next: usize = 0;
    assert(session.log() =~= begun + calls(runs));
    while next < inputs.len()
        invariant
            next <= inputs@.len(),
            inputs@.len() == all.len(),
            session.well_formed(),
            session.measurement() == old(session).measurement(),
            session.work() == old(session).work(),
            session.earlier() == old(session).earlier(),
            session.log() == begun + calls(runs),
            runs.len() == next,
            values(outputs@) == outputs_of(runs),
            forall|j: int| 0 <= j < all.len() ==> session.work().makes(#[trigger] all[j]),
            forall|j: int| next <= j < all.len() ==> inputs@[j].value() == #[trigger] all[j],
            forall|j: int| 0 <= j < runs.len() ==> *(#[trigger] runs[j]).0 == all[j],
        decreases inputs@.len() - next,
    {
        let ghost before = *session;
        assert(inputs@[next as int].value() == all[next as int]);
        let output = session.run_in_place(&mut inputs[next]);
        proof {
            let given = choose|given: &'i mut I|
                *given == all[next as int] && #[trigger] session.after(
                    &before,
                    Event::Run(given, output.value()),
                );
            let longer = runs.push((given, output.value()));
            assert(session.log() =~= begun + calls(longer));
            lemma_output_held(outputs@, output, runs, longer.last());
            runs = longer;
        }
        outputs.push(output);
        next = next + 1;
    }
    let end = session.end(start);
    let sum = session.combine(value, &end);
    session.drop_outputs(outputs);
    session.drop_inputs(inputs);
    proof {
        let batch = Batch { inputs: all, runs, start: began, measured: end, total: sum };
        assert(session.log() =~= old(session).log() + batch.events(*value, true));
        assert(session.after_batch(old(session), n as nat, *value, batch));
    }
    sum
}

impl<'a, M: Measurement, W: Work> Session<'a, M, W> {
    /// Whether this session is `before` after the clock was read and `batches` were measured, which
    /// came to `value`.
    spec fn batching(
        &self,
        before: &Self,
        began: Instant,
        zero: M::Value,
        batches: Seq<BatchOf<M, W>>,
        value: M::Value,
    ) -> bool {
        &&& self.well_formed()
        &&& self.measurement() == before.measurement()
        &&& self.work() == before.work()
        &&& self.earlier() == before.earlier()
        &&& self.log() == batched_so_far(began, zero, batches, W::keeps_inputs())
        &&& value == total(zero, batches)
    }
}

/// Whether `batches` are the first batches of `iters` iterations in batches of `batch`, with `done`
/// iterations in them.
spec fn batches_reach<W: Work, S, V>(
    work: W,
    batches: Seq<Batch<W::Input, W::Argument, W::Output, S, V>>,
    iters: u64,
    batch: u64,
    done: u64,
) -> bool {
    &&& done <= iters
    &&& if done < iters {
        done == batches.len() * batch
    } else {
        &&& iters <= batches.len() * batch
        &&& batches.len() > 0 ==> (batches.len() - 1) * batch < iters
    }
    &&& forall|k: int|
        0 <= k < batches.len() ==> batch_of(
            work,
            batch_length(iters as nat, batch as nat, k as nat),
            #[trigger] batches[k],
        )
}

/// One more batch, full or with all that is left, reaches further.
proof fn lemma_batch_reached<W: Work, S, V>(
    work: W,
    batches: Seq<Batch<W::Input, W::Argument, W::Output, S, V>>,
    next: Batch<W::Input, W::Argument, W::Output, S, V>,
    iters: u64,
    batch: u64,
    done: u64,
)
    requires
        batch > 0,
        done < iters,
        batches_reach(work, batches, iters, batch, done),
        batch_of(work, next.inputs.len(), next),
        next.inputs.len() == if batch < iters - done {
            batch as int
        } else {
            iters - done
        },
    ensures
        batches_reach(work, batches.push(next), iters, batch, (done + next.inputs.len()) as u64),
{
    let k = batches.len();
    let longer = batches.push(next);
    assert((k + 1) * batch == k * batch + batch) by (nonlinear_arith);
    assert forall|j: int| 0 <= j < longer.len() implies batch_of(
        work,
        batch_length(iters as nat, batch as nat, j as nat),
        #[trigger] longer[j],
    ) by {
        if j < k {
            assert(longer[j] == batches[j]);
        }
    }
}

/// Batches with all iterations in them are as many as the iterations call for.
proof fn lemma_batches_complete<W: Work, S, V>(
    work: W,
    batches: Seq<Batch<W::Input, W::Argument, W::Output, S, V>>,
    iters: u64,
    batch: u64,
)
    requires
        batch > 0,
        batches_reach(work, batches, iters, batch, iters),
    ensures
        batches.len() == ceil_div(iters as nat, batch as nat),
{
    let n = ceil_div(iters as nat, batch as nat);
    ceil_div_is_least(iters as nat, batch as nat);
    assert(batches.len() * (batch as nat) >= iters);
    if batches.len() > n {
        assert(n * batch <= (batches.len() - 1) * batch) by (nonlinear_arith)
            requires
                n <= batches.len() - 1,
        ;
    }
}

/// Measures `iters` iterations in batches of `batch_size`.
fn measure_batches<'a, M: Measurement, I, O, W>(
    session: &mut Session<'a, M, W>,
    iters: u64,
    batch_size: u64,
) -> (result: (M::Value, Duration))
    where W: Work<Input = I, Argument = I, Output = O> + Prepared + Consuming
    requires
        batch_size > 0,
        !W::keeps_inputs(),
        old(session).well_formed(),
        old(session).log().len() == 0,
        forall|input: I| #[trigger] old(session).work().takes(input, input),
    ensures
        final(session).measurement() == old(session).measurement(),
        final(session).work() == old(session).work(),
        final(session).earlier() == old(session).earlier(),
        batched::<M, W>(
            old(session).measurement(),
            old(session).work(),
            iters as nat,
            batch_size as nat,
            final(session).log(),
            result.0,
            result.1,
        ),
{
    let began = session.clock();
    let mut value = session.zero();
    let ghost zero = value;
    let ghost mut batches: Seq<BatchOf<M, W>> = seq![];
    assert(session.log() =~= batched_so_far(began, zero, batches, false));
    let mut iteration_counter: u64 = 0;
    if batch_size == 1 {
        while iteration_counter < iters
            invariant
                session.batching(old(session), began, zero, batches, value),
                batches_reach(session.work(), batches, iters, 1, iteration_counter),
                !W::keeps_inputs(),
                forall|input: I| #[trigger] session.work().takes(input, input),
            decreases iters - iteration_counter,
        {
            let ghost before = *session;
            let ghost sum = value;
            value = measure_one(session, &value);
            proof {
                let batch = choose|batch: BatchOf<M, W>| #[trigger]
                    session.after_batch(&before, 1, sum, batch) && value == batch.total;
                lemma_batch_reached(session.work(), batches, batch, iters, 1, iteration_counter);
                lemma_batch_added(began, zero, batches, batch, false);
                batches = batches.push(batch);
            }
            iteration_counter = iteration_counter + 1;
        }
    } else {
        while iteration_counter < iters
            invariant
                batch_size > 0,
                session.batching(old(session), began, zero, batches, value),
                batches_reach(session.work(), batches, iters, batch_size, iteration_counter),
                !W::keeps_inputs(),
                forall|input: I| #[trigger] session.work().takes(input, input),
            decreases iters - iteration_counter,
        {
            let left: u64 = iters - iteration_counter;
            let n: u64 = if batch_size < left {
                batch_size
            } else {
                left
            };
            let ghost before = *session;
            let ghost sum = value;
            value = measure_batch(session, n, &value);
            proof {
                let batch = choose|batch: BatchOf<M, W>| #[trigger]
                    session.after_batch(&before, n as nat, sum, batch) && value == batch.total;
                lemma_batch_reached(
                    session.work(),
                    batches,
                    batch,
                    iters,
                    batch_size,
                    iteration_counter,
                );
                lemma_batch_added(began, zero, batches, batch, false);
                batches = batches.push(batch);
            }
            iteration_counter = iteration_counter + n;
        }
    }
    let time = session.elapsed(&began);
    proof {
        lemma_batches_complete(session.work(), batches, iters, batch_size);
        assert(session.log() =~= batched_log(began, zero, batches, false, time));
        assert(divided::<M, W>(
            session.work(),
            iters as nat,
            batch_size as nat,
            session.log(),
            value,
            time,
            began,
            zero,
            batches,
        ));
    }
    (value, time)
}

/// Measures `iters` iterations of a routine that works in place in batches of `batch_size`.
fn measure_batches_in_place<'a, 'i, M: Measurement, I, O, S, R>(
    session: &mut Session<'a, M, InPlace<'i, I, S, R>>,
    iters: u64,
    batch_size: u64,
) -> (result: (M::Value, Duration))
    where S: FnMut() -> I, R: FnMut(&mut I) -> O
    requires
        batch_size > 0,
        old(session).well_formed(),
        old(session).log().len() == 0,
    ensures
        final(session).measurement() == old(session).measurement(),
        final(session).work() == old(session).work(),
        final(session).earlier() == old(session).earlier(),
        batched::<M, InPlace<'i, I, S, R>>(
            old(session).measurement(),
            old(session).work(),
            iters as nat,
            batch_size as nat,
            final(session).log(),
            result.0,
            result.1,
        ),
{
    let began = session.clock();
    let mut value = session.zero();
    let ghost zero = value;
    let ghost mut batches: Seq<BatchOf<M, InPlace<'i, I, S, R>>> = seq![];
    assert(session.log() =~= batched_so_far(began, zero, batches, true));
    let mut iteration_counter: u64 = 0;
    if batch_size == 1 {
        while iteration_counter < iters
            invariant
                session.batching(old(session), began, zero, batches, value),
                batches_reach(session.work(), batches, iters, 1, iteration_counter),
            decreases iters - iteration_counter,
        {
            let ghost before = *session;
            let ghost sum = value;
            value = measure_one_in_place(session, &value);
            proof {
                let batch = choose|batch: BatchOf<M, InPlace<'i, I, S, R>>| #[trigger]
                    session.after_batch(&before, 1, sum, batch) && value == batch.total;
                lemma_batch_reached(session.work(), batches, batch, iters, 1, iteration_counter);
                lemma_batch_added(began, zero, batches, batch, true);
                batches = batches.push(batch);
            }
            iteration_counter = iteration_counter + 1;
        }
    } else {
        while iteration_counter < iters
            invariant
                batch_size > 0,
                session.batching(old(session), began, zero, batches, value),
                batches_reach(session.work(), batches, iters, batch_size, iteration_counter),
            decreases iters - iteration_counter,
        {
            let left: u64 = iters - iteration_counter;
            let n: u64 = if batch_size < left {
                batch_size
            } else {
                left
            };
            let ghost before = *session;
            let ghost sum = value;
            value = measure_batch_in_place(session, n, &value);
            proof {
                let batch = choose|batch: BatchOf<M, InPlace<'i, I, S, R>>| #[trigger]
                    session.after_batch(&before, n as nat, sum, batch) && value == batch.total;
                lemma_batch_reached(
                    session.work(),
                    batches,
                    batch,
                    iters,
                    batch_size,
                    iteration_counter,
                );
                lemma_batch_added(began, zero, batches, batch, true);
                batches = batches.push(batch);
            }
            iteration_counter = iteration_counter + n;
        }
    }
    let time = session.elapsed(&began);
    proof {
        lemma_batches_complete(session.work(), batches, iters, batch_size);
        assert(session.log() =~= batched_log(began, zero, batches, true, time));
        assert(divided::<M, InPlace<'i, I, S, R>>(
            session.work(),
            iters as nat,
            batch_size as nat,
            session.log(),
            value,
            time,
            began,
            zero,
            batches,
        ));
    }
    (value, time)
}

/// A timing loop marks the bencher as iterated, leaves the iterations and the measurement as they
/// were, and adds its steps behind the earlier ones. Within one measurement, these steps are those
/// of the record of this work, which tells the value and the time.
pub proof fn timed_loops_record_their_work<M: Measurement, W: Work>(
    before: Bencher<'_, M>,
    after: Bencher<'_, M>,
    work: W,
)
    requires
        after.timed_since(&before, work),
    ensures
        after.iterated,
        after.iters == before.iters,
        after.measurement == before.measurement,
        after.timeline@ == before.timeline@ + timed_steps(before.iters as nat),
        exists|log: Seq<Entry<M, W>>|
            {
                &&& recorded::<M, W>(
                    before.timeline,
                    before.measurement,
                    work,
                    log,
                    after.timeline,
                )
                &&& #[trigger] timed::<M, W>(
                    before.measurement,
                    work,
                    before.iters as nat,
                    log,
                    after.value,
                    after.elapsed_time,
                )
            },
{
}

/// The same of a loop whose routine measures itself, in one run on the number of iterations.
pub proof fn custom_loops_record_their_work<M: Measurement, W>(
    before: Bencher<'_, M>,
    after: Bencher<'_, M>,
    work: W,
)
    where W: Work<Output = M::Value, Argument = u64>
    requires
        after.custom_since(&before, work),
    ensures
        after.iterated,
        after.iters == before.iters,
        after.measurement == before.measurement,
        after.timeline@ == before.timeline@ + custom_steps(),
        exists|log: Seq<Entry<M, W>>|
            {
                &&& recorded::<M, W>(
                    before.timeline,
                    before.measurement,
                    work,
                    log,
                    after.timeline,
                )
                &&& #[trigger] custom::<M, W>(
                    before.measurement,
                    work,
                    before.iters,
                    log,
                    after.value,
                    after.elapsed_time,
                )
            },
{
}

/// The same of a loop in batches.
pub proof fn batched_loops_record_their_work<M: Measurement, W: Work>(
    before: Bencher<'_, M>,
    after: Bencher<'_, M>,
    work: W,
    batch: nat,
)
    requires
        after.batched_since(&before, work, batch),
    ensures
        after.iterated,
        after.iters == before.iters,
        after.measurement == before.measurement,
        after.timeline@ == before.timeline@ + batched_steps(
            before.iters as nat,
            batch,
            W::keeps_inputs(),
        ),
        exists|log: Seq<Entry<M, W>>|
            {
                &&& recorded::<M, W>(
                    before.timeline,
                    before.measurement,
                    work,
                    log,
                    after.timeline,
                )
                &&& #[trigger] batched::<M, W>(
                    before.measurement,
                    work,
                    before.iters as nat,
                    batch,
                    log,
                    after.value,
                    after.elapsed_time,
                )
            },
{
}

} // verus!
