//! The record of a measurement.
//!
//! A benchmark is measured by calling foreign code in a certain order: the setup and the routine
//! that the user hands over, the measurement, and the clock. What the setup and the routine make
//! has to be dropped again, inside or outside of what is measured. A [`Session`] makes these calls
//! and drops these values, and it alone can write that down. Its record grows with each call, and
//! [`recorded`] ties the record to the work it was made with, so that every entry of it stands for
//! a call of that work, in that order.

use crate::black_box::black_box;
use crate::clock::{is_elapsed, time_since};
use crate::duration::Duration;
use crate::measurement::Measurement;
use std::marker::PhantomData;
use std::time::Instant;
use vstd::prelude::*;

verus! {

/// A call that was made, with what went into it and what came out.
pub enum Event<I, A, O, S, V> {
    /// The clock was read.
    Clock(Instant),
    /// The measurement gave its zero.
    Zero(V),
    /// The setup made an input.
    SetUp(I),
    /// A measurement was begun.
    Start(S),
    /// The routine was run on an argument and gave an output.
    Run(A, O),
    /// The measurement that was begun was completed.
    End(S, V),
    /// Two results were combined into a third.
    Add(V, V, V),
    /// An output of the routine was dropped.
    DropOutput(O),
    /// An input that outlived its run was dropped.
    DropInput,
    /// The time since a reading of the clock was taken.
    Elapsed(Instant, Duration),
}

/// The kind of a call that was made.
pub enum Step {
    /// The clock was read.
    Clock,
    /// The measurement gave its zero.
    Zero,
    /// The setup was called.
    SetUp,
    /// A measurement was begun.
    Start,
    /// The routine was called.
    Run,
    /// A measurement was completed.
    End,
    /// Two results were combined.
    Add,
    /// An output of the routine was dropped.
    DropOutput,
    /// An input that outlived its run was dropped.
    DropInput,
    /// The time since a reading of the clock was taken.
    Elapsed,
}

impl<I, A, O, S, V> Event<I, A, O, S, V> {
    /// The kind of the call.
    pub open spec fn step(self) -> Step {
        match self {
            Event::Clock(_) => Step::Clock,
            Event::Zero(_) => Step::Zero,
            Event::SetUp(_) => Step::SetUp,
            Event::Start(_) => Step::Start,
            Event::Run(_, _) => Step::Run,
            Event::End(_, _) => Step::End,
            Event::Add(_, _, _) => Step::Add,
            Event::DropOutput(_) => Step::DropOutput,
            Event::DropInput => Step::DropInput,
            Event::Elapsed(_, _) => Step::Elapsed,
        }
    }
}

/// The kinds of the calls in a record, in order.
pub open spec fn steps<I, A, O, S, V>(log: Seq<Event<I, A, O, S, V>>) -> Seq<Step> {
    log.map_values(|event: Event<I, A, O, S, V>| event.step())
}

/// The drops of `outputs`, in order.
pub open spec fn output_drops<I, A, O, S, V>(outputs: Seq<O>) -> Seq<Event<I, A, O, S, V>> {
    Seq::new(outputs.len(), |j: int| Event::DropOutput(outputs[j]))
}

/// The drops of `n` inputs.
pub open spec fn input_drops<I, A, O, S, V>(n: nat) -> Seq<Event<I, A, O, S, V>> {
    Seq::new(n, |j: int| Event::DropInput)
}

/// A value that the setup or the routine made within a session, until the session drops it or it is
/// taken out. Only a session can make one.
pub struct Held<T> {
    value: T,
}

impl<T> Held<T> {
    /// The value.
    pub closed spec fn value(self) -> T {
        self.value
    }

    /// Takes the value out.
    pub fn take(self) -> (value: T)
        ensures
            value == self.value(),
    {
        self.value
    }
}

/// The values that are held, in order.
pub open spec fn values<T>(held: Seq<Held<T>>) -> Seq<T> {
    Seq::new(held.len(), |j: int| held[j].value())
}

/// The user's code that a session calls: what it may make and give.
pub trait Work: Sized {
    /// What the setup makes.
    type Input;

    /// What the routine is run on.
    type Argument;

    /// What the routine gives.
    type Output;

    /// Whether an input outlives the run on it.
    spec fn keeps_inputs() -> bool;

    /// Whether the code can be called.
    spec fn ready(&self) -> bool;

    /// Whether the setup can make `input`.
    spec fn makes(&self, input: Self::Input) -> bool;

    /// Whether `argument` is what a run on `input` works on.
    spec fn takes(&self, input: Self::Input, argument: Self::Argument) -> bool;

    /// Whether the routine, run on `argument`, can give `output`.
    spec fn yields(&self, argument: Self::Argument, output: Self::Output) -> bool;
}

/// Work whose inputs come from a setup.
pub(crate) trait Prepared: Work {
    /// Makes an input.
    fn set_up(&mut self) -> (input: Self::Input)
        requires
            old(self).ready(),
        ensures
            *final(self) == *old(self),
            old(self).makes(input),
    ;
}

/// Work whose routine consumes its input.
pub(crate) trait Consuming: Work {
    /// Runs the routine.
    fn run(&mut self, argument: Self::Argument) -> (output: Self::Output)
        requires
            old(self).ready(),
            exists|input: Self::Input| #[trigger]
                old(self).makes(input) && old(self).takes(input, argument),
        ensures
            *final(self) == *old(self),
            old(self).yields(argument, output),
    ;
}

/// A setup, and a routine that consumes what the setup makes.
pub struct Batched<S, R> {
    pub setup: S,
    pub routine: R,
}

impl<I, O, S: FnMut() -> I, R: FnMut(I) -> O> Work for Batched<S, R> {
    type Input = I;

    type Argument = I;

    type Output = O;

    open spec fn keeps_inputs() -> bool {
        false
    }

    open spec fn ready(&self) -> bool {
        &&& call_requires(self.setup, ())
        &&& forall|input: I|
            call_ensures(self.setup, (), input) ==> #[trigger] call_requires(self.routine, (input,))
    }

    open spec fn makes(&self, input: I) -> bool {
        call_ensures(self.setup, (), input)
    }

    open spec fn takes(&self, input: I, argument: I) -> bool {
        argument == input
    }

    open spec fn yields(&self, argument: I, output: O) -> bool {
        call_ensures(self.routine, (argument,), output)
    }
}

impl<I, O, S: FnMut() -> I, R: FnMut(I) -> O> Prepared for Batched<S, R> {
    fn set_up(&mut self) -> I {
        (self.setup)()
    }
}

impl<I, O, S: FnMut() -> I, R: FnMut(I) -> O> Consuming for Batched<S, R> {
    fn run(&mut self, argument: I) -> O {
        (self.routine)(argument)
    }
}

/// A routine that needs no input.
pub struct Unprepared<R> {
    pub routine: R,
}

impl<O, R: FnMut() -> O> Work for Unprepared<R> {
    type Input = ();

    type Argument = ();

    type Output = O;

    open spec fn keeps_inputs() -> bool {
        false
    }

    open spec fn ready(&self) -> bool {
        call_requires(self.routine, ())
    }

    open spec fn makes(&self, input: ()) -> bool {
        true
    }

    open spec fn takes(&self, input: (), argument: ()) -> bool {
        true
    }

    open spec fn yields(&self, argument: (), output: O) -> bool {
        call_ensures(self.routine, (), output)
    }
}

impl<O, R: FnMut() -> O> Prepared for Unprepared<R> {
    fn set_up(&mut self) {
    }
}

impl<O, R: FnMut() -> O> Consuming for Unprepared<R> {
    fn run(&mut self, argument: ()) -> O {
        (self.routine)()
    }
}

/// A setup, and a routine that works in place on what the setup makes.
pub struct InPlace<'i, I, S, R> {
    pub setup: S,
    pub routine: R,
    pub inputs: PhantomData<&'i mut I>,
}

impl<'i, I, O, S: FnMut() -> I, R: FnMut(&mut I) -> O> Work for InPlace<'i, I, S, R> {
    type Input = I;

    type Argument = &'i mut I;

    type Output = O;

    open spec fn keeps_inputs() -> bool {
        true
    }

    open spec fn ready(&self) -> bool {
        &&& call_requires(self.setup, ())
        &&& forall|input: &mut I|
            call_ensures(self.setup, (), *input) ==> #[trigger] call_requires(
                self.routine,
                (input,),
            )
    }

    open spec fn makes(&self, input: I) -> bool {
        call_ensures(self.setup, (), input)
    }

    open spec fn takes(&self, input: I, argument: &'i mut I) -> bool {
        *argument == input
    }

    open spec fn yields(&self, argument: &'i mut I, output: O) -> bool {
        call_ensures(self.routine, (argument,), output)
    }
}

impl<'i, I, O, S: FnMut() -> I, R: FnMut(&mut I) -> O> Prepared for InPlace<'i, I, S, R> {
    fn set_up(&mut self) -> I {
        (self.setup)()
    }
}

/// A routine that is told how many iterations to do.
pub struct Custom<R> {
    pub routine: R,
    pub iters: u64,
}

impl<V, R: FnMut(u64) -> V> Work for Custom<R> {
    type Input = ();

    type Argument = u64;

    type Output = V;

    open spec fn keeps_inputs() -> bool {
        false
    }

    open spec fn ready(&self) -> bool {
        call_requires(self.routine, (self.iters,))
    }

    open spec fn makes(&self, input: ()) -> bool {
        true
    }

    open spec fn takes(&self, input: (), argument: u64) -> bool {
        argument == self.iters
    }

    open spec fn yields(&self, argument: u64, output: V) -> bool {
        call_ensures(self.routine, (argument,), output)
    }
}

impl<V, R: FnMut(u64) -> V> Consuming for Custom<R> {
    fn run(&mut self, argument: u64) -> V {
        (self.routine)(argument)
    }
}

/// The calls that the sessions of a bencher have made so far, by their kinds.
#[derive(Clone, Copy)]
pub struct Timeline {
    steps: Ghost<Seq<Step>>,
}

impl View for Timeline {
    type V = Seq<Step>;

    closed spec fn view(&self) -> Seq<Step> {
        self.steps@
    }
}

impl Timeline {
    /// No call has been made.
    pub fn new() -> (timeline: Timeline)
        ensures
            timeline@ == Seq::<Step>::empty(),
    {
        Timeline { steps: Ghost(Seq::empty()) }
    }
}

/// What a session of `M` and `W` writes down.
pub type Entry<M, W> = Event<
    <W as Work>::Input,
    <W as Work>::Argument,
    <W as Work>::Output,
    <M as Measurement>::Intermediate,
    <M as Measurement>::Value,
>;

/// Whether the call in an entry can have had this outcome. A drop has none.
pub open spec fn genuine<M: Measurement, W: Work>(
    measurement: &M,
    work: W,
    entry: Entry<M, W>,
) -> bool {
    match entry {
        Event::Clock(now) => call_ensures(Instant::now, (), now),
        Event::Zero(zero) => call_ensures(M::zero, (measurement,), zero),
        Event::SetUp(input) => work.makes(input),
        Event::Start(start) => call_ensures(M::start, (measurement,), start),
        Event::Run(argument, output) => work.yields(argument, output),
        Event::End(start, value) => call_ensures(M::end, (measurement, start), value),
        Event::Add(first, second, sum) => call_ensures(M::add, (measurement, &first, &second), sum),
        Event::DropOutput(_) => true,
        Event::DropInput => true,
        Event::Elapsed(since, time) => is_elapsed(since, time),
    }
}

/// Whether `log` is what a session of `measurement` and `work` wrote down, one that went on from
/// `before` and left `after`.
///
/// What is compared are the kinds of the steps alone. That the log is that of a session of this
/// measurement and this work rests on the definition being closed: outside of this module nothing
/// but the end of such a session can provide it.
pub closed spec fn recorded<M: Measurement, W: Work>(
    before: Timeline,
    measurement: &M,
    work: W,
    log: Seq<Entry<M, W>>,
    after: Timeline,
) -> bool {
    after@ == before@ + steps(log)
}

/// Makes the calls of one measurement and writes them down.
pub(crate) struct Session<'a, M: Measurement, W: Work> {
    measurement: &'a M,
    work: W,
    earlier: Ghost<Timeline>,
    log: Ghost<Seq<Entry<M, W>>>,
}

impl<'a, M: Measurement, W: Work> Session<'a, M, W> {
    /// The measurement that is taken.
    pub closed spec fn measurement(&self) -> &M {
        self.measurement
    }

    /// The work that is measured.
    pub closed spec fn work(&self) -> W {
        self.work
    }

    /// What earlier sessions left.
    pub closed spec fn earlier(&self) -> Timeline {
        self.earlier@
    }

    /// The calls that this session has made.
    pub closed spec fn log(&self) -> Seq<Entry<M, W>> {
        self.log@
    }

    /// Whether the work can be called and every entry is genuine.
    pub open spec fn well_formed(&self) -> bool {
        &&& self.work().ready()
        &&& forall|j: int|
            0 <= j < self.log().len() ==> genuine::<M, W>(
                self.measurement(),
                self.work(),
                #[trigger] self.log()[j],
            )
    }

    /// Whether this session is `before` with one more call made.
    pub open spec fn after(&self, before: &Self, entry: Entry<M, W>) -> bool {
        &&& self.well_formed()
        &&& self.measurement() == before.measurement()
        &&& self.work() == before.work()
        &&& self.earlier() == before.earlier()
        &&& self.log() == before.log().push(entry)
    }

    /// Whether this session is `before` with these entries made in addition.
    pub open spec fn after_all(&self, before: &Self, entries: Seq<Entry<M, W>>) -> bool {
        &&& self.well_formed()
        &&& self.measurement() == before.measurement()
        &&& self.work() == before.work()
        &&& self.earlier() == before.earlier()
        &&& self.log() == before.log() + entries
    }

    /// A session with genuine entries in addition stays well-formed.
    proof fn lemma_after_all(&self, before: &Self, entries: Seq<Entry<M, W>>)
        requires
            before.well_formed(),
            forall|j: int|
                0 <= j < entries.len() ==> genuine::<M, W>(
                    before.measurement(),
                    before.work(),
                    #[trigger] entries[j],
                ),
            self.measurement() == before.measurement(),
            self.work() == before.work(),
            self.earlier() == before.earlier(),
            self.log() == before.log() + entries,
        ensures
            self.after_all(before, entries),
    {
        assert forall|j: int| 0 <= j < self.log().len() implies genuine::<M, W>(
            self.measurement(),
            self.work(),
            #[trigger] self.log()[j],
        ) by {
            if j < before.log().len() {
                assert(self.log()[j] == before.log()[j]);
            } else {
                assert(self.log()[j] == entries[j - before.log().len()]);
            }
        }
    }

    /// A session that has made one more call, with a genuine entry for it, stays well-formed.
    proof fn lemma_after(&self, before: &Self, entry: Entry<M, W>)
        requires
            before.well_formed(),
            genuine::<M, W>(before.measurement(), before.work(), entry),
            self.measurement() == before.measurement(),
            self.work() == before.work(),
            self.earlier() == before.earlier(),
            self.log() == before.log().push(entry),
        ensures
            self.after(before, entry),
    {
        assert(self.log() =~= before.log() + seq![entry]);
        self.lemma_after_all(before, seq![entry]);
    }

    /// Begins a session that goes on from `timeline`.
    pub fn begin(measurement: &'a M, work: W, timeline: Timeline) -> (session: Self)
        requires
            work.ready(),
        ensures
            session.well_formed(),
            session.measurement() == measurement,
            session.work() == work,
            session.earlier() == timeline,
            session.log() == Seq::<Entry<M, W>>::empty(),
    {
        Session { measurement, work, earlier: Ghost(timeline), log: Ghost(Seq::empty()) }
    }

    /// Ends the session.
    pub fn finish(self) -> (timeline: Timeline)
        ensures
            timeline@ == self.earlier()@ + steps(self.log()),
            recorded::<M, W>(
                self.earlier(),
                self.measurement(),
                self.work(),
                self.log(),
                timeline,
            ),
    {
        Timeline { steps: Ghost(self.earlier@@ + steps(self.log@)) }
    }

    /// Reads the clock.
    pub fn clock(&mut self) -> (now: Instant)
        requires
            old(self).well_formed(),
        ensures
            final(self).after(old(self), Event::Clock(now)),
    {
        let now = Instant::now();
        proof {
            self.log@ = self.log@.push(Event::Clock(now));
            self.lemma_after(old(self), Event::Clock(now));
        }
        now
    }

    /// Takes the time since a reading of the clock.
    pub fn elapsed(&mut self, since: &Instant) -> (time: Duration)
        requires
            old(self).well_formed(),
        ensures
            final(self).after(old(self), Event::Elapsed(*since, time)),
    {
        let time = time_since(since);
        proof {
            self.log@ = self.log@.push(Event::Elapsed(*since, time));
            self.lemma_after(old(self), Event::Elapsed(*since, time));
        }
        time
    }

    /// Asks the measurement for its zero.
    pub fn zero(&mut self) -> (zero: M::Value)
        requires
            old(self).well_formed(),
        ensures
            final(self).after(old(self), Event::Zero(zero)),
    {
        let zero = self.measurement.zero();
        proof {
            self.log@ = self.log@.push(Event::Zero(zero));
            self.lemma_after(old(self), Event::Zero(zero));
        }
        zero
    }

    /// Begins a measurement.
    pub fn start(&mut self) -> (start: M::Intermediate)
        requires
            old(self).well_formed(),
        ensures
            final(self).after(old(self), Event::Start(start)),
    {
        let start = self.measurement.start();
        proof {
            self.log@ = self.log@.push(Event::Start(start));
            self.lemma_after(old(self), Event::Start(start));
        }
        start
    }

    /// Completes a measurement.
    pub fn end(&mut self, start: M::Intermediate) -> (value: M::Value)
        requires
            old(self).well_formed(),
        ensures
            final(self).after(old(self), Event::End(start, value)),
    {
        let ghost began = start;
        let value = self.measurement.end(start);
        proof {
            self.log@ = self.log@.push(Event::End(began, value));
            self.lemma_after(old(self), Event::End(began, value));
        }
        value
    }

    /// Combines two results.
    pub fn combine(&mut self, first: &M::Value, second: &M::Value) -> (sum: M::Value)
        requires
            old(self).well_formed(),
        ensures
            final(self).after(old(self), Event::Add(*first, *second, sum)),
    {
        let sum = self.measurement.add(first, second);
        proof {
            self.log@ = self.log@.push(Event::Add(*first, *second, sum));
            self.lemma_after(old(self), Event::Add(*first, *second, sum));
        }
        sum
    }

    /// Drops an output.
    pub fn drop_output(&mut self, output: Held<W::Output>)
        requires
            old(self).well_formed(),
        ensures
            final(self).after(old(self), Event::DropOutput(output.value())),
    {
        let ghost value = output.value();
        black_box(output.value);
        proof {
            self.log@ = self.log@.push(Event::DropOutput(value));
            self.lemma_after(old(self), Event::DropOutput(value));
        }
    }

    /// Drops outputs, in order.
    pub fn drop_outputs(&mut self, outputs: Vec<Held<W::Output>>)
        requires
            old(self).well_formed(),
        ensures
            final(self).after_all(old(self), output_drops(values(outputs@))),
    {
        let ghost entries = output_drops(values(outputs@));
        black_box(outputs);
        proof {
            self.log@ = self.log@ + entries;
            self.lemma_after_all(old(self), entries);
        }
    }

    /// Drops an input.
    pub fn drop_input(&mut self, input: Held<W::Input>)
        requires
            old(self).well_formed(),
        ensures
            final(self).after(old(self), Event::DropInput),
    {
        black_box(input.value);
        proof {
            self.log@ = self.log@.push(Event::DropInput);
            self.lemma_after(old(self), Event::DropInput);
        }
    }

    /// Drops inputs, in order.
    pub fn drop_inputs(&mut self, inputs: Vec<Held<W::Input>>)
        requires
            old(self).well_formed(),
        ensures
            final(self).after_all(old(self), input_drops(inputs@.len())),
    {
        let ghost entries = input_drops(inputs@.len());
        black_box(inputs);
        proof {
            self.log@ = self.log@ + entries;
            self.lemma_after_all(old(self), entries);
        }
    }
}

impl<'a, M: Measurement, W: Prepared> Session<'a, M, W> {
    /// Has the setup make an input.
    pub fn set_up(&mut self) -> (input: Held<W::Input>)
        requires
            old(self).well_formed(),
        ensures
            final(self).after(old(self), Event::SetUp(input.value())),
            old(self).work().makes(input.value()),
    {
        let input = self.work.set_up();
        proof {
            self.log@ = self.log@.push(Event::SetUp(input));
            self.lemma_after(old(self), Event::SetUp(input));
        }
        Held { value: input }
    }
}

impl<'a, M: Measurement, W: Consuming> Session<'a, M, W> {
    /// Runs the routine.
    pub fn run(&mut self, argument: W::Argument) -> (output: Held<W::Output>)
        requires
            old(self).well_formed(),
            exists|input: W::Input| #[trigger]
                old(self).work().makes(input) && old(self).work().takes(input, argument),
        ensures
            final(self).after(old(self), Event::Run(argument, output.value())),
    {
        let ghost given = argument;
        let output = self.work.run(argument);
        proof {
            self.log@ = self.log@.push(Event::Run(given, output));
            self.lemma_after(old(self), Event::Run(given, output));
        }
        Held { value: output }
    }
}

impl<'a, 'i, M: Measurement, I, O, S: FnMut() -> I, R: FnMut(&mut I) -> O> Session<
    'a,
    M,
    InPlace<'i, I, S, R>,
> {
    /// Runs the routine in place.
    pub fn run_in_place(&mut self, input: &mut Held<I>) -> (output: Held<O>)
        requires
            old(self).well_formed(),
            old(self).work().makes(old(input).value()),
        ensures
            exists|given: &'i mut I|
                *given == old(input).value() && #[trigger] final(self).after(
                    old(self),
                    Event::Run(given, output.value()),
                ),
    {
        let ghost before = input.value();
        let output = Held { value: (self.work.routine)(&mut input.value) };
        proof {
            let given = choose|given: &mut I|
                *given == before && #[trigger] call_ensures(
                    self.work.routine,
                    (given,),
                    output.value,
                );
            self.log@ = self.log@.push(Event::Run(given, output.value()));
            self.lemma_after(old(self), Event::Run(given, output.value()));
        }
        output
    }
}

/// An entry of a record that is genuine stands for a call with that outcome: of the clock, of the
/// measurement, or of the work.
pub proof fn genuine_entries_are_outcomes<M: Measurement, W: Work>(
    measurement: &M,
    work: W,
    entry: Entry<M, W>,
)
    requires
        genuine::<M, W>(measurement, work, entry),
    ensures
        entry matches Event::Clock(now) ==> call_ensures(Instant::now, (), now),
        entry matches Event::Zero(zero) ==> call_ensures(M::zero, (measurement,), zero),
        entry matches Event::SetUp(input) ==> work.makes(input),
        entry matches Event::Start(start) ==> call_ensures(M::start, (measurement,), start),
        entry matches Event::Run(argument, output) ==> work.yields(argument, output),
        entry matches Event::End(start, value) ==> call_ensures(M::end, (measurement, start), value),
        entry matches Event::Add(a, b, sum) ==> call_ensures(M::add, (measurement, &a, &b), sum),
        entry matches Event::Elapsed(since, time) ==> is_elapsed(since, time),
{
}

/// The timeline grows by one step for each entry of a record, of the kind of that entry.
pub proof fn timelines_grow_by_the_record<M: Measurement, W: Work>(
    before: Timeline,
    measurement: &M,
    work: W,
    log: Seq<Entry<M, W>>,
    after: Timeline,
    j: int,
)
    requires
        recorded::<M, W>(before, measurement, work, log, after),
    ensures
        after@.len() == before@.len() + log.len(),
        0 <= j < before@.len() ==> after@[j] == before@[j],
        0 <= j < log.len() && log[j] is Clock ==> after@[before@.len() + j] == Step::Clock,
        0 <= j < log.len() && log[j] is Zero ==> after@[before@.len() + j] == Step::Zero,
        0 <= j < log.len() && log[j] is SetUp ==> after@[before@.len() + j] == Step::SetUp,
        0 <= j < log.len() && log[j] is Start ==> after@[before@.len() + j] == Step::Start,
        0 <= j < log.len() && log[j] is Run ==> after@[before@.len() + j] == Step::Run,
        0 <= j < log.len() && log[j] is End ==> after@[before@.len() + j] == Step::End,
        0 <= j < log.len() && log[j] is Add ==> after@[before@.len() + j] == Step::Add,
        0 <= j < log.len() && log[j] is DropOutput ==> after@[before@.len() + j]
            == Step::DropOutput,
        0 <= j < log.len() && log[j] is DropInput ==> after@[before@.len() + j] == Step::DropInput,
        0 <= j < log.len() && log[j] is Elapsed ==> after@[before@.len() + j] == Step::Elapsed,
{
}

/// A setup with a routine that consumes what it makes: the inputs are what the setup gives, each
/// run takes the very input, and the outputs are what the routine gives for it.
pub proof fn consuming_work_calls_setup_and_routine<I, O, S, R>(
    setup: S,
    routine: R,
    input: I,
    argument: I,
    output: O,
)
    where S: FnMut() -> I, R: FnMut(I) -> O
    ensures
        (Batched { setup, routine }).makes(input) <==> call_ensures(setup, (), input),
        (Batched { setup, routine }).takes(input, argument) <==> argument == input,
        (Batched { setup, routine }).yields(argument, output) <==> call_ensures(
            routine,
            (argument,),
            output,
        ),
        !Batched::<S, R>::keeps_inputs(),
{
}

/// A routine without input: the outputs are what the routine gives.
pub proof fn unprepared_work_calls_the_routine<O, R>(routine: R, output: O)
    where R: FnMut() -> O
    ensures
        (Unprepared { routine }).yields((), output) <==> call_ensures(routine, (), output),
        !Unprepared::<R>::keeps_inputs(),
{
}

/// A setup with a routine that works in place: the inputs are what the setup gives, each run gets a
/// reference to the very input, the outputs are what the routine gives for it, and the inputs stay.
pub proof fn work_in_place_calls_setup_and_routine<'i, I, O, S, R>(
    setup: S,
    routine: R,
    input: I,
    argument: &'i mut I,
    output: O,
)
    where S: FnMut() -> I, R: FnMut(&mut I) -> O
    ensures
        (InPlace::<'i, I, S, R> { setup, routine, inputs: PhantomData }).makes(input)
            <==> call_ensures(setup, (), input),
        (InPlace::<'i, I, S, R> { setup, routine, inputs: PhantomData }).takes(input, argument)
            <==> *old(argument) == input,
        (InPlace::<'i, I, S, R> { setup, routine, inputs: PhantomData }).yields(argument, output)
            <==> call_ensures(routine, (argument,), output),
        InPlace::<'i, I, S, R>::keeps_inputs(),
{
}

/// A routine that measures itself: it is run on the number of iterations, and the outputs are what
/// it gives for that.
pub proof fn custom_work_calls_the_routine<V, R>(routine: R, iters: u64, argument: u64, output: V)
    where R: FnMut(u64) -> V
    ensures
        (Custom { routine, iters }).takes((), argument) <==> argument == iters,
        (Custom { routine, iters }).yields(argument, output) <==> call_ensures(
            routine,
            (argument,),
            output,
        ),
{
}

} // verus!
