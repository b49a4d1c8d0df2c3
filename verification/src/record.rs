//! What the timing loops leave in the record.

use crate::batch_size::{batch_length, ceil_div};
use crate::duration::Duration;
use crate::measurement::Measurement;
use crate::session::{genuine, input_drops, output_drops, steps, Entry, Event, Step, Work};
use std::time::Instant;
use vstd::prelude::*;

verus! {

/// A batch: the inputs that were made for it, the runs on them, and the measurement around the
/// runs.
pub struct Batch<I, A, O, S, V> {
    /// The inputs, in the order in which they were made.
    pub inputs: Seq<I>,
    /// The arguments of the runs and their outputs, in the order of the runs.
    pub runs: Seq<(A, O)>,
    /// What the start of the measurement gave.
    pub start: S,
    /// What the end of the measurement gave.
    pub measured: V,
    /// The sum of this and all earlier measurements.
    pub total: V,
}

/// The calls of setup that made `inputs`.
pub open spec fn set_ups<I, A, O, S, V>(inputs: Seq<I>) -> Seq<Event<I, A, O, S, V>> {
    Seq::new(inputs.len(), |j: int| Event::SetUp(inputs[j]))
}

/// The calls of the routine in `runs`.
pub open spec fn calls<I, A, O, S, V>(runs: Seq<(A, O)>) -> Seq<Event<I, A, O, S, V>> {
    Seq::new(runs.len(), |j: int| Event::Run(runs[j].0, runs[j].1))
}

/// The outputs of `runs`, in order.
pub open spec fn outputs_of<A, O>(runs: Seq<(A, O)>) -> Seq<O> {
    Seq::new(runs.len(), |j: int| runs[j].1)
}

/// The calls of the routine in `runs`, with the output of each dropped before the next.
pub open spec fn calls_and_drops<I, A, O, S, V>(runs: Seq<(A, O)>) -> Seq<Event<I, A, O, S, V>> {
    Seq::new(
        2 * runs.len(),
        |j: int|
            if j % 2 == 0 {
                Event::Run(runs[j / 2].0, runs[j / 2].1)
            } else {
                Event::DropOutput(runs[j / 2].1)
            },
    )
}

impl<I, A, O, S, V> Batch<I, A, O, S, V> {
    /// The calls made for this batch, after batches that came to `before`, and then the drops: of
    /// all outputs, and of all inputs where they are kept.
    pub open spec fn events(self, before: V, keeps: bool) -> Seq<Event<I, A, O, S, V>> {
        set_ups::<I, A, O, S, V>(self.inputs) + seq![Event::Start(self.start)] + calls(self.runs)
            + seq![
            Event::End(self.start, self.measured),
            Event::Add(before, self.measured, self.total),
        ] + output_drops(outputs_of(self.runs)) + input_drops(
            if keeps {
                self.inputs.len()
            } else {
                0
            },
        )
    }
}

/// What the batches come to: the last total, or `zero` where there is no batch.
pub open spec fn total<I, A, O, S, V>(zero: V, batches: Seq<Batch<I, A, O, S, V>>) -> V {
    if batches.len() == 0 {
        zero
    } else {
        batches.last().total
    }
}

/// The calls made for all batches, one batch after the other.
pub open spec fn batch_events<I, A, O, S, V>(
    zero: V,
    batches: Seq<Batch<I, A, O, S, V>>,
    keeps: bool,
) -> Seq<Event<I, A, O, S, V>>
    decreases batches.len(),
{
    if batches.len() == 0 {
        seq![]
    } else {
        batch_events(zero, batches.drop_last(), keeps) + batches.last().events(
            total(zero, batches.drop_last()),
            keeps,
        )
    }
}

/// The calls of a batched run up to the end of the last of `batches`.
pub open spec fn batched_so_far<I, A, O, S, V>(
    began: Instant,
    zero: V,
    batches: Seq<Batch<I, A, O, S, V>>,
    keeps: bool,
) -> Seq<Event<I, A, O, S, V>> {
    seq![Event::Clock(began), Event::Zero(zero)] + batch_events(zero, batches, keeps)
}

/// All calls of a batched run: the clock is read first and the time taken last.
pub open spec fn batched_log<I, A, O, S, V>(
    began: Instant,
    zero: V,
    batches: Seq<Batch<I, A, O, S, V>>,
    keeps: bool,
    time: Duration,
) -> Seq<Event<I, A, O, S, V>> {
    batched_so_far(began, zero, batches, keeps) + seq![Event::Elapsed(began, time)]
}

/// The calls of a run within one measurement up to the last of `runs`. Each output is dropped
/// before the next run.
pub open spec fn timed_so_far<M: Measurement, W: Work>(
    began: Instant,
    start: M::Intermediate,
    runs: Seq<(W::Argument, W::Output)>,
) -> Seq<Entry<M, W>> {
    seq![Event::Clock(began), Event::Start(start)] + calls_and_drops(runs)
}

/// All calls of a run within one measurement, between the reading of the clock and the taking of
/// the time.
pub open spec fn timed_log<M: Measurement, W: Work>(
    began: Instant,
    start: M::Intermediate,
    runs: Seq<(W::Argument, W::Output)>,
    value: M::Value,
    time: Duration,
) -> Seq<Entry<M, W>> {
    timed_so_far::<M, W>(began, start, runs) + seq![
        Event::End(start, value),
        Event::Elapsed(began, time),
    ]
}

/// All calls of a run that measures itself.
pub open spec fn custom_log<M: Measurement, W: Work<Output = M::Value>>(
    began: Instant,
    argument: W::Argument,
    value: M::Value,
    time: Duration,
) -> Seq<Entry<M, W>> {
    seq![Event::Clock(began), Event::Run(argument, value), Event::Elapsed(began, time)]
}

/// Whether a batch has `length` inputs, and a run on each of them, in order.
pub open spec fn batch_of<W: Work, S, V>(
    work: W,
    length: nat,
    batch: Batch<W::Input, W::Argument, W::Output, S, V>,
) -> bool {
    &&& batch.inputs.len() == length
    &&& batch.runs.len() == length
    &&& forall|j: int|
        0 <= j < length ==> work.takes(#[trigger] batch.inputs[j], batch.runs[j].0)
}

/// Whether `log` consists of `batches`, which divide `iters` iterations into batches of `batch` and
/// come to `value`, between the reading `began` of the clock and the taking of `time`.
pub open spec fn divided<M: Measurement, W: Work>(
    work: W,
    iters: nat,
    batch: nat,
    log: Seq<Entry<M, W>>,
    value: M::Value,
    time: Duration,
    began: Instant,
    zero: M::Value,
    batches: Seq<Batch<W::Input, W::Argument, W::Output, M::Intermediate, M::Value>>,
) -> bool {
    &&& log == batched_log(began, zero, batches, W::keeps_inputs(), time)
    &&& value == total(zero, batches)
    &&& batches.len() == ceil_div(iters, batch)
    &&& forall|k: int|
        0 <= k < batches.len() ==> batch_of(
            work,
            batch_length(iters, batch, k as nat),
            #[trigger] batches[k],
        )
}

/// Whether `log` is the record of `iters` iterations in batches of `batch`, which measured `value`
/// and took `time` altogether.
///
/// The clock is read first and the time taken last. In between, the results of the measurements are
/// added up from zero, one for each batch. The inputs of a batch are all made before its
/// measurement starts, and the routine is run on each of them, in order, before the measurement
/// ends. After that all outputs of the batch are dropped, and then its inputs where the routine
/// does not consume them; only then the next batch begins.
pub open spec fn batched<M: Measurement, W: Work>(
    measurement: &M,
    work: W,
    iters: nat,
    batch: nat,
    log: Seq<Entry<M, W>>,
    value: M::Value,
    time: Duration,
) -> bool {
    &&& forall|j: int| 0 <= j < log.len() ==> genuine::<M, W>(measurement, work, #[trigger] log[j])
    &&& exists|
        began: Instant,
        zero: M::Value,
        batches: Seq<Batch<W::Input, W::Argument, W::Output, M::Intermediate, M::Value>>,
    | #[trigger]
        divided::<M, W>(work, iters, batch, log, value, time, began, zero, batches)
}

/// Whether `log` is the record of `iters` iterations within one measurement, which came to `value`
/// and took `time` altogether.
pub open spec fn timed<M: Measurement, W: Work>(
    measurement: &M,
    work: W,
    iters: nat,
    log: Seq<Entry<M, W>>,
    value: M::Value,
    time: Duration,
) -> bool {
    &&& forall|j: int| 0 <= j < log.len() ==> genuine::<M, W>(measurement, work, #[trigger] log[j])
    &&& exists|began: Instant, start: M::Intermediate, runs: Seq<(W::Argument, W::Output)>|
        {
            &&& log == #[trigger] timed_log::<M, W>(began, start, runs, value, time)
            &&& runs.len() == iters
        }
}

/// Whether `log` is the record of one run on `argument`, which gave `value` and took `time`
/// altogether.
pub open spec fn custom<M: Measurement, W: Work<Output = M::Value>>(
    measurement: &M,
    work: W,
    argument: W::Argument,
    log: Seq<Entry<M, W>>,
    value: M::Value,
    time: Duration,
) -> bool {
    &&& forall|j: int| 0 <= j < log.len() ==> genuine::<M, W>(measurement, work, #[trigger] log[j])
    &&& exists|began: Instant|
        log == #[trigger] custom_log::<M, W>(began, argument, value, time)
}

/// One more batch adds its calls to those of a batched run.
pub(crate) proof fn lemma_batch_added<I, A, O, S, V>(
    began: Instant,
    zero: V,
    batches: Seq<Batch<I, A, O, S, V>>,
    batch: Batch<I, A, O, S, V>,
    keeps: bool,
)
    ensures
        batched_so_far(began, zero, batches.push(batch), keeps) == batched_so_far(
            began,
            zero,
            batches,
            keeps,
        ) + batch.events(total(zero, batches), keeps),
        total(zero, batches.push(batch)) == batch.total,
{
    assert(batches.push(batch).drop_last() =~= batches);
    assert(batched_so_far(began, zero, batches.push(batch), keeps) =~= batched_so_far(
        began,
        zero,
        batches,
        keeps,
    ) + batch.events(total(zero, batches), keeps));
}

/// The same step `n` times.
pub open spec fn repeated(step: Step, n: nat) -> Seq<Step> {
    Seq::new(n, |j: int| step)
}

/// The steps after the measurement of a batch of `n` iterations: the drops of the outputs, and of
/// the inputs where they are kept.
pub open spec fn drop_steps(n: nat, keeps: bool) -> Seq<Step> {
    repeated(Step::DropOutput, n) + repeated(
        Step::DropInput,
        if keeps {
            n
        } else {
            0
        },
    )
}

/// The steps of a batch of `n` iterations.
pub open spec fn batch_steps(n: nat, keeps: bool) -> Seq<Step> {
    repeated(Step::SetUp, n) + seq![Step::Start] + repeated(Step::Run, n) + seq![
        Step::End,
        Step::Add,
    ] + drop_steps(n, keeps)
}

/// The steps of the first `k` batches of `iters` iterations in batches of `batch`.
pub open spec fn batches_steps(iters: nat, batch: nat, k: nat, keeps: bool) -> Seq<Step>
    decreases k,
{
    if k == 0 {
        seq![]
    } else {
        batches_steps(iters, batch, (k - 1) as nat, keeps) + batch_steps(
            batch_length(iters, batch, (k - 1) as nat),
            keeps,
        )
    }
}

/// The steps of `iters` iterations in batches of `batch`.
pub open spec fn batched_steps(iters: nat, batch: nat, keeps: bool) -> Seq<Step> {
    seq![Step::Clock, Step::Zero] + batches_steps(iters, batch, ceil_div(iters, batch), keeps)
        + seq![Step::Elapsed]
}

/// `n` runs, each with the drop of its output right after it.
pub open spec fn run_and_drop_steps(n: nat) -> Seq<Step> {
    Seq::new(
        2 * n,
        |j: int|
            if j % 2 == 0 {
                Step::Run
            } else {
                Step::DropOutput
            },
    )
}

/// The steps of `iters` iterations within one measurement.
pub open spec fn timed_steps(iters: nat) -> Seq<Step> {
    seq![Step::Clock, Step::Start] + run_and_drop_steps(iters) + seq![Step::End, Step::Elapsed]
}

/// The steps of a run that measures itself.
pub open spec fn custom_steps() -> Seq<Step> {
    seq![Step::Clock, Step::Run, Step::Elapsed]
}

proof fn lemma_steps_add<I, A, O, S, V>(
    first: Seq<Event<I, A, O, S, V>>,
    second: Seq<Event<I, A, O, S, V>>,
)
    ensures
        steps(first + second) == steps(first) + steps(second),
{
    assert(steps(first + second) =~= steps(first) + steps(second));
}

proof fn lemma_batch_steps<I, A, O, S, V>(batch: Batch<I, A, O, S, V>, before: V, keeps: bool)
    requires
        batch.inputs.len() == batch.runs.len(),
    ensures
        steps(batch.events(before, keeps)) == batch_steps(batch.inputs.len(), keeps),
{
    assert(steps(batch.events(before, keeps)) =~= batch_steps(batch.inputs.len(), keeps));
}

proof fn lemma_batches_steps<W: Work, S, V>(
    work: W,
    zero: V,
    batches: Seq<Batch<W::Input, W::Argument, W::Output, S, V>>,
    iters: nat,
    batch: nat,
    keeps: bool,
)
    requires
        forall|k: int|
            0 <= k < batches.len() ==> batch_of(
                work,
                batch_length(iters, batch, k as nat),
                #[trigger] batches[k],
            ),
    ensures
        steps(batch_events(zero, batches, keeps)) == batches_steps(
            iters,
            batch,
            batches.len(),
            keeps,
        ),
    decreases batches.len(),
{
    if batches.len() == 0 {
        assert(steps(batch_events(zero, batches, keeps)) =~= seq![]);
    } else {
        let fore = batches.drop_last();
        assert forall|k: int| 0 <= k < fore.len() implies batch_of(
            work,
            batch_length(iters, batch, k as nat),
            #[trigger] fore[k],
        ) by {
            assert(fore[k] == batches[k]);
        }
        lemma_batches_steps(work, zero, fore, iters, batch, keeps);
        let last = batches.last();
        assert(last == batches[batches.len() - 1]);
        lemma_batch_steps(last, total(zero, fore), keeps);
        lemma_steps_add(batch_events(zero, fore, keeps), last.events(total(zero, fore), keeps));
    }
}

/// The record of a batched run shows exactly the steps that its iterations and batches call for.
pub proof fn batched_record_has_batched_steps<M: Measurement, W: Work>(
    measurement: &M,
    work: W,
    iters: nat,
    batch: nat,
    log: Seq<Entry<M, W>>,
    value: M::Value,
    time: Duration,
)
    requires
        batched::<M, W>(measurement, work, iters, batch, log, value, time),
    ensures
        steps(log) == batched_steps(iters, batch, W::keeps_inputs()),
{
    let keeps = W::keeps_inputs();
    let (began, zero, batches) = choose|
        began: Instant,
        zero: M::Value,
        batches: Seq<Batch<W::Input, W::Argument, W::Output, M::Intermediate, M::Value>>,
    | #[trigger]
        divided::<M, W>(work, iters, batch, log, value, time, began, zero, batches);
    lemma_batches_steps(work, zero, batches, iters, batch, keeps);
    assert(steps(log) =~= seq![Step::Clock, Step::Zero] + steps(
        batch_events(zero, batches, keeps),
    ) + seq![Step::Elapsed]);
}

/// The record of a run within one measurement shows exactly the steps that its iterations call for.
pub proof fn timed_record_has_timed_steps<M: Measurement, W: Work>(
    measurement: &M,
    work: W,
    iters: nat,
    log: Seq<Entry<M, W>>,
    value: M::Value,
    time: Duration,
)
    requires
        timed::<M, W>(measurement, work, iters, log, value, time),
    ensures
        steps(log) == timed_steps(iters),
{
    assert(steps(log) =~= timed_steps(iters));
}

/// The record of a run that measures itself shows one call of the routine.
pub proof fn custom_record_has_custom_steps<M: Measurement, W: Work<Output = M::Value>>(
    measurement: &M,
    work: W,
    argument: W::Argument,
    log: Seq<Entry<M, W>>,
    value: M::Value,
    time: Duration,
)
    requires
        custom::<M, W>(measurement, work, argument, log, value, time),
    ensures
        steps(log) == custom_steps(),
{
    assert(steps(log) =~= custom_steps());
}

} // verus!
