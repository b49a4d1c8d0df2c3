//! What follows from the record of a batched run.

use crate::batch_size::{batch_length, batches_cover_iterations, ceil_div, iterations_in};
use crate::duration::{Duration, NANOS_PER_SEC};
use crate::measurement::{Measurement, WallTime};
use crate::record::{
    batch_events, batch_of, batched, batched_record_has_batched_steps, calls, custom, divided,
    outputs_of, set_ups, timed, timed_log, total, Batch,
};
use crate::session::{genuine, input_drops, output_drops, steps, Entry, Event, Work};
use crate::step_laws::{in_place_takes_the_same_steps, without_input_drops};
use std::time::Instant;
use vstd::prelude::*;

verus! {

/// What `pick` finds in the entries of a record, in order.
pub open spec fn picked<E, T>(log: Seq<E>, pick: spec_fn(E) -> Option<T>) -> Seq<T>
    decreases log.len(),
{
    if log.len() == 0 {
        seq![]
    } else {
        match pick(log.last()) {
            Some(found) => picked(log.drop_last(), pick).push(found),
            None => picked(log.drop_last(), pick),
        }
    }
}

/// Finds the inputs that the setup made.
pub open spec fn an_input<I, A, O, S, V>() -> spec_fn(Event<I, A, O, S, V>) -> Option<I> {
    |event: Event<I, A, O, S, V>|
        match event {
            Event::SetUp(input) => Some(input),
            _ => None,
        }
}

/// Finds the runs of the routine.
pub open spec fn a_run<I, A, O, S, V>() -> spec_fn(Event<I, A, O, S, V>) -> Option<(A, O)> {
    |event: Event<I, A, O, S, V>|
        match event {
            Event::Run(argument, output) => Some((argument, output)),
            _ => None,
        }
}

/// Finds the outputs that were dropped.
pub open spec fn a_drop<I, A, O, S, V>() -> spec_fn(Event<I, A, O, S, V>) -> Option<O> {
    |event: Event<I, A, O, S, V>|
        match event {
            Event::DropOutput(output) => Some(output),
            _ => None,
        }
}

/// Finds the results of the measurements.
pub open spec fn a_result<I, A, O, S, V>() -> spec_fn(Event<I, A, O, S, V>) -> Option<V> {
    |event: Event<I, A, O, S, V>|
        match event {
            Event::End(_, result) => Some(result),
            _ => None,
        }
}

/// The inputs that were made, in order.
pub open spec fn inputs_made<I, A, O, S, V>(log: Seq<Event<I, A, O, S, V>>) -> Seq<I> {
    picked(log, an_input())
}

/// The runs of the routine, in order.
pub open spec fn runs_made<I, A, O, S, V>(log: Seq<Event<I, A, O, S, V>>) -> Seq<(A, O)> {
    picked(log, a_run())
}

/// The outputs that were dropped, in order.
pub open spec fn outputs_dropped<I, A, O, S, V>(log: Seq<Event<I, A, O, S, V>>) -> Seq<O> {
    picked(log, a_drop())
}

/// The results of the measurements, in order.
pub open spec fn results<I, A, O, S, V>(log: Seq<Event<I, A, O, S, V>>) -> Seq<V> {
    picked(log, a_result())
}

proof fn lemma_picked_add<E, T>(first: Seq<E>, second: Seq<E>, pick: spec_fn(E) -> Option<T>)
    ensures
        picked(first + second, pick) == picked(first, pick) + picked(second, pick),
    decreases second.len(),
{
    if second.len() == 0 {
        assert(first + second =~= first);
        assert(picked(first, pick) + picked(second, pick) =~= picked(first, pick));
    } else {
        assert((first + second).drop_last() =~= first + second.drop_last());
        lemma_picked_add(first, second.drop_last(), pick);
        assert(picked(first + second, pick) =~= picked(first, pick) + picked(second, pick));
    }
}

proof fn lemma_picked_none<E, T>(log: Seq<E>, pick: spec_fn(E) -> Option<T>)
    requires
        forall|j: int| 0 <= j < log.len() ==> pick(#[trigger] log[j]) is None,
    ensures
        picked(log, pick) == Seq::<T>::empty(),
    decreases log.len(),
{
    if log.len() > 0 {
        lemma_picked_none(log.drop_last(), pick);
    }
}

proof fn lemma_picked_all<E, T>(log: Seq<E>, pick: spec_fn(E) -> Option<T>, found: Seq<T>)
    requires
        log.len() == found.len(),
        forall|j: int| 0 <= j < log.len() ==> pick(#[trigger] log[j]) == Some(found[j]),
    ensures
        picked(log, pick) == found,
    decreases log.len(),
{
    if log.len() > 0 {
        lemma_picked_all(log.drop_last(), pick, found.drop_last());
        assert(found =~= found.drop_last().push(found.last()));
    } else {
        assert(found =~= seq![]);
    }
}

/// What is found in a batch is what is found in its parts.
proof fn lemma_picked_in_batch<I, A, O, S, V, T>(
    batch: Batch<I, A, O, S, V>,
    before: V,
    keeps: bool,
    pick: spec_fn(Event<I, A, O, S, V>) -> Option<T>,
)
    requires
        pick(Event::Start(batch.start)) is None,
        pick(Event::Add(before, batch.measured, batch.total)) is None,
        pick(Event::DropInput) is None,
    ensures
        picked(batch.events(before, keeps), pick) == picked(set_ups(batch.inputs), pick) + picked(
            calls(batch.runs),
            pick,
        ) + picked(
            seq![Event::<I, A, O, S, V>::End(batch.start, batch.measured)],
            pick,
        ) + picked(output_drops(outputs_of(batch.runs)), pick),
{
    let kept = if keeps {
        batch.inputs.len()
    } else {
        0
    };
    let a = set_ups::<I, A, O, S, V>(batch.inputs);
    let b = seq![Event::<I, A, O, S, V>::Start(batch.start)];
    let c = calls::<I, A, O, S, V>(batch.runs);
    let d1 = seq![Event::<I, A, O, S, V>::End(batch.start, batch.measured)];
    let d2 = seq![Event::<I, A, O, S, V>::Add(before, batch.measured, batch.total)];
    let e = output_drops::<I, A, O, S, V>(outputs_of(batch.runs));
    let f = input_drops::<I, A, O, S, V>(kept);
    assert(batch.events(before, keeps) =~= a + b + c + d1 + d2 + e + f);
    lemma_picked_add(a + b + c + d1 + d2 + e, f, pick);
    lemma_picked_add(a + b + c + d1 + d2, e, pick);
    lemma_picked_add(a + b + c + d1, d2, pick);
    lemma_picked_add(a + b + c, d1, pick);
    lemma_picked_add(a + b, c, pick);
    lemma_picked_add(a, b, pick);
    lemma_picked_none(b, pick);
    lemma_picked_none(d2, pick);
    lemma_picked_none(f, pick);
    assert(picked(batch.events(before, keeps), pick) =~= picked(a, pick) + picked(c, pick) + picked(
        d1,
        pick,
    ) + picked(e, pick));
}

proof fn lemma_batch_contents<I, A, O, S, V>(
    batch: Batch<I, A, O, S, V>,
    before: V,
    keeps: bool,
)
    ensures
        inputs_made(batch.events(before, keeps)) == batch.inputs,
        runs_made(batch.events(before, keeps)) == batch.runs,
        outputs_dropped(batch.events(before, keeps)) == outputs_of(batch.runs),
        results(batch.events(before, keeps)) == seq![batch.measured],
{
    let a = set_ups::<I, A, O, S, V>(batch.inputs);
    let c = calls::<I, A, O, S, V>(batch.runs);
    let d = seq![Event::<I, A, O, S, V>::End(batch.start, batch.measured)];
    let e = output_drops::<I, A, O, S, V>(outputs_of(batch.runs));
    lemma_picked_in_batch(batch, before, keeps, an_input());
    lemma_picked_all(a, an_input(), batch.inputs);
    lemma_picked_none(c, an_input());
    lemma_picked_none(d, an_input());
    lemma_picked_none(e, an_input());
    assert(inputs_made(batch.events(before, keeps)) =~= batch.inputs);
    lemma_picked_in_batch(batch, before, keeps, a_run());
    lemma_picked_none(a, a_run());
    lemma_picked_all(c, a_run(), batch.runs);
    lemma_picked_none(d, a_run());
    lemma_picked_none(e, a_run());
    assert(runs_made(batch.events(before, keeps)) =~= batch.runs);
    lemma_picked_in_batch(batch, before, keeps, a_drop());
    lemma_picked_none(a, a_drop());
    lemma_picked_none(c, a_drop());
    lemma_picked_none(d, a_drop());
    lemma_picked_all(e, a_drop(), outputs_of(batch.runs));
    assert(outputs_dropped(batch.events(before, keeps)) =~= outputs_of(batch.runs));
    lemma_picked_in_batch(batch, before, keeps, a_result());
    lemma_picked_none(a, a_result());
    lemma_picked_none(c, a_result());
    lemma_picked_all(d, a_result(), seq![batch.measured]);
    lemma_picked_none(e, a_result());
    assert(results(batch.events(before, keeps)) =~= seq![batch.measured]);
}

/// Whether there is a run on each input, in order.
pub open spec fn paired<W: Work>(
    work: W,
    inputs: Seq<W::Input>,
    runs: Seq<(W::Argument, W::Output)>,
) -> bool {
    &&& inputs.len() == runs.len()
    &&& forall|j: int| 0 <= j < inputs.len() ==> work.takes(#[trigger] inputs[j], runs[j].0)
}

proof fn lemma_batches_contents<W: Work, S, V>(
    work: W,
    zero: V,
    batches: Seq<Batch<W::Input, W::Argument, W::Output, S, V>>,
    iters: nat,
    batch: nat,
    keeps: bool,
)
    requires
        forall|k: int|
            0 <= k < batches.len() ==> batch_of(
                work,
                batch_length(iters, batch, k as nat),
                #[trigger] batches[k],
            ),
    ensures
        inputs_made(batch_events(zero, batches, keeps)).len() == iterations_in(
            iters,
            batch,
            batches.len(),
        ),
        paired(
            work,
            inputs_made(batch_events(zero, batches, keeps)),
            runs_made(batch_events(zero, batches, keeps)),
        ),
        outputs_dropped(batch_events(zero, batches, keeps)) == outputs_of(
            runs_made(batch_events(zero, batches, keeps)),
        ),
        results(batch_events(zero, batches, keeps)).len() == batches.len(),
        forall|k: int|
            0 <= k < batches.len() ==> results(batch_events(zero, batches, keeps))[k]
                == (#[trigger] batches[k]).measured,
    decreases batches.len(),
{
    let all = batch_events(zero, batches, keeps);
    if batches.len() == 0 {
        assert(outputs_dropped(all) =~= outputs_of(runs_made(all)));
    } else {
        let fore = batches.drop_last();
        let last = batches.last();
        assert forall|k: int| 0 <= k < fore.len() implies batch_of(
            work,
            batch_length(iters, batch, k as nat),
            #[trigger] fore[k],
        ) by {
            assert(fore[k] == batches[k]);
        }
        lemma_batches_contents(work, zero, fore, iters, batch, keeps);
        assert(last == batches[batches.len() - 1]);
        let before = total(zero, fore);
        let earlier = batch_events(zero, fore, keeps);
        lemma_batch_contents(last, before, keeps);
        lemma_picked_add(earlier, last.events(before, keeps), an_input());
        lemma_picked_add(earlier, last.events(before, keeps), a_run());
        lemma_picked_add(earlier, last.events(before, keeps), a_drop());
        lemma_picked_add(earlier, last.events(before, keeps), a_result());
        assert forall|j: int| 0 <= j < inputs_made(all).len() implies work.takes(
            #[trigger] inputs_made(all)[j],
            runs_made(all)[j].0,
        ) by {
            let n = inputs_made(earlier).len();
            if j < n {
                assert(inputs_made(all)[j] == inputs_made(earlier)[j]);
                assert(runs_made(all)[j] == runs_made(earlier)[j]);
            } else {
                assert(inputs_made(all)[j] == last.inputs[j - n]);
                assert(runs_made(all)[j] == last.runs[j - n]);
            }
        }
        assert(outputs_of(runs_made(all)) =~= outputs_of(runs_made(earlier)) + outputs_of(
            last.runs,
        ));
        assert forall|k: int| 0 <= k < batches.len() implies results(all)[k] == (
        #[trigger] batches[k]).measured by {
            if k < fore.len() {
                assert(fore[k] == batches[k]);
            }
        }
    }
}

/// The inputs, the runs, the drops and the results of a batched run are those of its batches.
proof fn lemma_record_contents<M: Measurement, W: Work>(
    work: W,
    iters: nat,
    batch: nat,
    log: Seq<Entry<M, W>>,
    value: M::Value,
    time: Duration,
    began: Instant,
    zero: M::Value,
    batches: Seq<Batch<W::Input, W::Argument, W::Output, M::Intermediate, M::Value>>,
)
    requires
        divided::<M, W>(work, iters, batch, log, value, time, began, zero, batches),
    ensures
        inputs_made(log) == inputs_made(batch_events(zero, batches, W::keeps_inputs())),
        runs_made(log) == runs_made(batch_events(zero, batches, W::keeps_inputs())),
        outputs_dropped(log) == outputs_dropped(batch_events(zero, batches, W::keeps_inputs())),
        results(log) == results(batch_events(zero, batches, W::keeps_inputs())),
{
    let fore: Seq<Entry<M, W>> = seq![Event::Clock(began), Event::Zero(zero)];
    let middle: Seq<Entry<M, W>> = batch_events(zero, batches, W::keeps_inputs());
    let rear: Seq<Entry<M, W>> = seq![Event::Elapsed(began, time)];
    assert(log =~= fore + middle + rear);
    lemma_picked_add(fore + middle, rear, an_input());
    lemma_picked_add(fore, middle, an_input());
    lemma_picked_none(fore, an_input());
    lemma_picked_none(rear, an_input());
    assert(inputs_made(log) =~= inputs_made(middle));
    lemma_picked_add(fore + middle, rear, a_run());
    lemma_picked_add(fore, middle, a_run());
    lemma_picked_none(fore, a_run());
    lemma_picked_none(rear, a_run());
    assert(runs_made(log) =~= runs_made(middle));
    lemma_picked_add(fore + middle, rear, a_drop());
    lemma_picked_add(fore, middle, a_drop());
    lemma_picked_none(fore, a_drop());
    lemma_picked_none(rear, a_drop());
    assert(outputs_dropped(log) =~= outputs_dropped(middle));
    lemma_picked_add(fore + middle, rear, a_result());
    lemma_picked_add(fore, middle, a_result());
    lemma_picked_none(fore, a_result());
    lemma_picked_none(rear, a_result());
    assert(results(log) =~= results(middle));
}

/// In a batched run the setup makes one input for every iteration, the routine is run on each of
/// them, once and in the order in which they were made, and each output is dropped, once and in the
/// order of the runs. There is one result of a measurement for every batch.
pub proof fn batched_runs_on_every_input<M: Measurement, W: Work>(
    measurement: &M,
    work: W,
    iters: nat,
    batch: nat,
    log: Seq<Entry<M, W>>,
    value: M::Value,
    time: Duration,
)
    requires
        batch > 0,
        batched::<M, W>(measurement, work, iters, batch, log, value, time),
    ensures
        inputs_made(log).len() == iters,
        runs_made(log).len() == iters,
        outputs_dropped(log).len() == iters,
        forall|j: int|
            0 <= j < iters ==> work.takes(#[trigger] inputs_made(log)[j], runs_made(log)[j].0),
        forall|j: int|
            0 <= j < iters ==> #[trigger] outputs_dropped(log)[j] == runs_made(log)[j].1,
        paired(work, inputs_made(log), runs_made(log)),
        outputs_dropped(log) == outputs_of(runs_made(log)),
        results(log).len() == ceil_div(iters, batch),
{
    let (began, zero, batches) = choose|
        began: Instant,
        zero: M::Value,
        batches: Seq<Batch<W::Input, W::Argument, W::Output, M::Intermediate, M::Value>>,
    | #[trigger]
        divided::<M, W>(work, iters, batch, log, value, time, began, zero, batches);
    lemma_record_contents::<M, W>(work, iters, batch, log, value, time, began, zero, batches);
    lemma_batches_contents(work, zero, batches, iters, batch, W::keeps_inputs());
    batches_cover_iterations(iters, batch);
}

/// The choice of a batch size changes neither how many iterations are run nor which: where the
/// setup makes the same inputs, the routine is run on the same inputs in the same order.
pub proof fn batch_size_changes_no_iteration<M: Measurement, W: Work>(
    measurement: &M,
    work: W,
    iters: nat,
    first: nat,
    first_log: Seq<Entry<M, W>>,
    first_value: M::Value,
    first_time: Duration,
    second: nat,
    second_log: Seq<Entry<M, W>>,
    second_value: M::Value,
    second_time: Duration,
)
    requires
        first > 0,
        second > 0,
        batched::<M, W>(measurement, work, iters, first, first_log, first_value, first_time),
        batched::<M, W>(measurement, work, iters, second, second_log, second_value, second_time),
    ensures
        inputs_made(first_log).len() == inputs_made(second_log).len(),
        runs_made(first_log).len() == runs_made(second_log).len(),
        inputs_made(first_log) == inputs_made(second_log) ==> {
            &&& paired(work, inputs_made(first_log), runs_made(second_log))
            &&& paired(work, inputs_made(second_log), runs_made(first_log))
        },
{
    batched_runs_on_every_input::<M, W>(
        measurement,
        work,
        iters,
        first,
        first_log,
        first_value,
        first_time,
    );
    batched_runs_on_every_input::<M, W>(
        measurement,
        work,
        iters,
        second,
        second_log,
        second_value,
        second_time,
    );
}

/// Whether a measurement has one zero, and one sum for any two results.
pub open spec fn adds_alike<M: Measurement>(measurement: &M) -> bool {
    &&& forall|one: M::Value, other: M::Value|
        #[trigger] call_ensures(M::zero, (measurement,), one) && #[trigger] call_ensures(
            M::zero,
            (measurement,),
            other,
        ) ==> one == other
    &&& forall|a: M::Value, b: M::Value, one: M::Value, other: M::Value|
        #[trigger] call_ensures(M::add, (measurement, &a, &b), one) && #[trigger] call_ensures(
            M::add,
            (measurement, &a, &b),
            other,
        ) ==> one == other
}

/// Every batch of a genuine record adds its result to what the batches before it came to.
proof fn lemma_batch_adds<M: Measurement, W: Work>(
    measurement: &M,
    work: W,
    zero: M::Value,
    batches: Seq<Batch<W::Input, W::Argument, W::Output, M::Intermediate, M::Value>>,
    keeps: bool,
)
    requires
        batches.len() > 0,
        forall|j: int|
            0 <= j < batch_events(zero, batches, keeps).len() ==> genuine::<M, W>(
                measurement,
                work,
                #[trigger] batch_events(zero, batches, keeps)[j],
            ),
    ensures
        call_ensures(
            M::add,
            (measurement, &total(zero, batches.drop_last()), &batches.last().measured),
            batches.last().total,
        ),
        forall|j: int|
            0 <= j < batch_events(zero, batches.drop_last(), keeps).len() ==> genuine::<M, W>(
                measurement,
                work,
                #[trigger] batch_events(zero, batches.drop_last(), keeps)[j],
            ),
{
    let fore = batch_events(zero, batches.drop_last(), keeps);
    let last = batches.last();
    let before = total(zero, batches.drop_last());
    let all = batch_events(zero, batches, keeps);
    let at = last.inputs.len() + 1 + last.runs.len() + 1;
    assert(all =~= fore + last.events(before, keeps));
    assert(last.events(before, keeps)[at as int] == Entry::<M, W>::Add(
        before,
        last.measured,
        last.total,
    ));
    assert(all[(fore.len() + at) as int] == Entry::<M, W>::Add(before, last.measured, last.total));
    assert forall|j: int| 0 <= j < fore.len() implies genuine::<M, W>(
        measurement,
        work,
        #[trigger] fore[j],
    ) by {
        assert(all[j] == fore[j]);
    }
}

proof fn lemma_totals_agree<M: Measurement, W1: Work, W2: Work>(
    measurement: &M,
    one: W1,
    other: W2,
    zero: M::Value,
    first: Seq<Batch<W1::Input, W1::Argument, W1::Output, M::Intermediate, M::Value>>,
    second: Seq<Batch<W2::Input, W2::Argument, W2::Output, M::Intermediate, M::Value>>,
)
    requires
        adds_alike(measurement),
        first.len() == second.len(),
        forall|k: int|
            0 <= k < first.len() ==> (#[trigger] first[k]).measured == second[k].measured,
        forall|j: int|
            0 <= j < batch_events(zero, first, W1::keeps_inputs()).len() ==> genuine::<M, W1>(
                measurement,
                one,
                #[trigger] batch_events(zero, first, W1::keeps_inputs())[j],
            ),
        forall|j: int|
            0 <= j < batch_events(zero, second, W2::keeps_inputs()).len() ==> genuine::<M, W2>(
                measurement,
                other,
                #[trigger] batch_events(zero, second, W2::keeps_inputs())[j],
            ),
    ensures
        total(zero, first) == total(zero, second),
    decreases first.len(),
{
    if first.len() > 0 {
        lemma_batch_adds::<M, W1>(measurement, one, zero, first, W1::keeps_inputs());
        lemma_batch_adds::<M, W2>(measurement, other, zero, second, W2::keeps_inputs());
        assert forall|k: int| 0 <= k < first.drop_last().len() implies (
        #[trigger] first.drop_last()[k]).measured == second.drop_last()[k].measured by {
            assert(first[k].measured == second[k].measured);
        }
        lemma_totals_agree::<M, W1, W2>(
            measurement,
            one,
            other,
            zero,
            first.drop_last(),
            second.drop_last(),
        );
        assert(first[first.len() - 1].measured == second[second.len() - 1].measured);
    }
}

/// The calls of the batches are genuine where the record is, and so is the zero.
proof fn lemma_batches_genuine<M: Measurement, W: Work>(
    measurement: &M,
    work: W,
    iters: nat,
    batch: nat,
    log: Seq<Entry<M, W>>,
    value: M::Value,
    time: Duration,
    began: Instant,
    zero: M::Value,
    batches: Seq<Batch<W::Input, W::Argument, W::Output, M::Intermediate, M::Value>>,
)
    requires
        forall|j: int|
            0 <= j < log.len() ==> genuine::<M, W>(measurement, work, #[trigger] log[j]),
        divided::<M, W>(work, iters, batch, log, value, time, began, zero, batches),
    ensures
        call_ensures(M::zero, (measurement,), zero),
        forall|j: int|
            0 <= j < batch_events(zero, batches, W::keeps_inputs()).len() ==> genuine::<M, W>(
                measurement,
                work,
                #[trigger] batch_events(zero, batches, W::keeps_inputs())[j],
            ),
{
    let middle = batch_events(zero, batches, W::keeps_inputs());
    assert(log[1] == Entry::<M, W>::Zero(zero));
    assert forall|j: int| 0 <= j < middle.len() implies genuine::<M, W>(
        measurement,
        work,
        #[trigger] middle[j],
    ) by {
        assert(log[j + 2] == middle[j]);
    }
}

/// A routine that consumes its inputs and one that works in place are measured alike: the steps are
/// taken in the same order, but for the drops of the inputs, and where the measurements give the
/// same results, they come to the same value.
pub proof fn consuming_and_in_place_agree<M: Measurement, W1: Work, W2: Work>(
    measurement: &M,
    iters: nat,
    batch: nat,
    consuming: W1,
    consuming_log: Seq<Entry<M, W1>>,
    consuming_value: M::Value,
    consuming_time: Duration,
    in_place: W2,
    in_place_log: Seq<Entry<M, W2>>,
    in_place_value: M::Value,
    in_place_time: Duration,
)
    requires
        !W1::keeps_inputs(),
        W2::keeps_inputs(),
        batched::<M, W1>(
            measurement,
            consuming,
            iters,
            batch,
            consuming_log,
            consuming_value,
            consuming_time,
        ),
        batched::<M, W2>(
            measurement,
            in_place,
            iters,
            batch,
            in_place_log,
            in_place_value,
            in_place_time,
        ),
    ensures
        without_input_drops(steps(in_place_log)) == steps(consuming_log),
        adds_alike(measurement) && results(consuming_log) == results(in_place_log)
            ==> consuming_value == in_place_value,
{
    batched_record_has_batched_steps::<M, W1>(
        measurement,
        consuming,
        iters,
        batch,
        consuming_log,
        consuming_value,
        consuming_time,
    );
    batched_record_has_batched_steps::<M, W2>(
        measurement,
        in_place,
        iters,
        batch,
        in_place_log,
        in_place_value,
        in_place_time,
    );
    in_place_takes_the_same_steps(iters, batch);
    if adds_alike(measurement) && results(consuming_log) == results(in_place_log) {
        let (began1, zero1, first) = choose|
            began: Instant,
            zero: M::Value,
            batches: Seq<Batch<W1::Input, W1::Argument, W1::Output, M::Intermediate, M::Value>>,
        | #[trigger]
            divided::<M, W1>(
                consuming,
                iters,
                batch,
                consuming_log,
                consuming_value,
                consuming_time,
                began,
                zero,
                batches,
            );
        let (began2, zero2, second) = choose|
            began: Instant,
            zero: M::Value,
            batches: Seq<Batch<W2::Input, W2::Argument, W2::Output, M::Intermediate, M::Value>>,
        | #[trigger]
            divided::<M, W2>(
                in_place,
                iters,
                batch,
                in_place_log,
                in_place_value,
                in_place_time,
                began,
                zero,
                batches,
            );
        lemma_record_contents::<M, W1>(
            consuming,
            iters,
            batch,
            consuming_log,
            consuming_value,
            consuming_time,
            began1,
            zero1,
            first,
        );
        lemma_record_contents::<M, W2>(
            in_place,
            iters,
            batch,
            in_place_log,
            in_place_value,
            in_place_time,
            began2,
            zero2,
            second,
        );
        lemma_batches_contents(consuming, zero1, first, iters, batch, false);
        lemma_batches_contents(in_place, zero2, second, iters, batch, true);
        lemma_batches_genuine::<M, W1>(
            measurement,
            consuming,
            iters,
            batch,
            consuming_log,
            consuming_value,
            consuming_time,
            began1,
            zero1,
            first,
        );
        lemma_batches_genuine::<M, W2>(
            measurement,
            in_place,
            iters,
            batch,
            in_place_log,
            in_place_value,
            in_place_time,
            began2,
            zero2,
            second,
        );
        assert forall|k: int| 0 <= k < first.len() implies (#[trigger] first[k]).measured
            == second[k].measured by {
            assert(results(consuming_log)[k] == first[k].measured);
            assert(results(in_place_log)[k] == second[k].measured);
        }
        lemma_totals_agree::<M, W1, W2>(measurement, consuming, in_place, zero1, first, second);
    }
}

/// The sum of times.
pub open spec fn time_sum(times: Seq<Duration>) -> nat
    decreases times.len(),
{
    if times.len() == 0 {
        0
    } else {
        time_sum(times.drop_last()) + times.last()@
    }
}

proof fn lemma_batches_time<W: Work>(
    measurement: &WallTime,
    work: W,
    zero: Duration,
    batches: Seq<Batch<W::Input, W::Argument, W::Output, Instant, Duration>>,
    times: Seq<Duration>,
    keeps: bool,
)
    requires
        zero@ == 0,
        times.len() == batches.len(),
        forall|k: int| 0 <= k < batches.len() ==> times[k] == (#[trigger] batches[k]).measured,
        time_sum(times) < (u64::MAX + 1) * NANOS_PER_SEC,
        forall|j: int|
            0 <= j < batch_events(zero, batches, keeps).len() ==> genuine::<WallTime, W>(
                measurement,
                work,
                #[trigger] batch_events(zero, batches, keeps)[j],
            ),
    ensures
        total(zero, batches)@ == time_sum(times),
    decreases batches.len(),
{
    if batches.len() > 0 {
        lemma_batch_adds::<WallTime, W>(measurement, work, zero, batches, keeps);
        let fore = batches.drop_last();
        assert forall|k: int| 0 <= k < fore.len() implies times.drop_last()[k] == (
        #[trigger] fore[k]).measured by {
            assert(times[k] == batches[k].measured);
        }
        lemma_batches_time(measurement, work, zero, fore, times.drop_last(), keeps);
        assert(times[batches.len() - 1] == batches[batches.len() - 1].measured);
    }
}

/// On the wall clock, a batched run comes to the sum of the times that were measured for its
/// batches, as long as that sum is a time at all.
pub proof fn batched_wall_time_adds_up<W: Work>(
    measurement: &WallTime,
    work: W,
    iters: nat,
    batch: nat,
    log: Seq<Entry<WallTime, W>>,
    value: Duration,
    time: Duration,
)
    requires
        batched::<WallTime, W>(measurement, work, iters, batch, log, value, time),
        time_sum(results(log)) < (u64::MAX + 1) * NANOS_PER_SEC,
    ensures
        value@ == time_sum(results(log)),
{
    let keeps = W::keeps_inputs();
    let (began, zero, batches) = choose|
        began: Instant,
        zero: Duration,
        batches: Seq<Batch<W::Input, W::Argument, W::Output, Instant, Duration>>,
    | #[trigger]
        divided::<WallTime, W>(work, iters, batch, log, value, time, began, zero, batches);
    lemma_record_contents::<WallTime, W>(
        work,
        iters,
        batch,
        log,
        value,
        time,
        began,
        zero,
        batches,
    );
    lemma_batches_contents(work, zero, batches, iters, batch, keeps);
    lemma_batches_genuine::<WallTime, W>(
        measurement,
        work,
        iters,
        batch,
        log,
        value,
        time,
        began,
        zero,
        batches,
    );
    lemma_batches_time(measurement, work, zero, batches, results(log), keeps);
}

/// The record of a run within one measurement, entry by entry: the clock is read, the measurement
/// is started, the routine is run as often as there are iterations, each output is dropped before
/// the next run, the measurement that was started is ended and gives the value, and the time is
/// taken since that reading of the clock.
pub proof fn timed_records_entry_by_entry<M: Measurement, W: Work>(
    measurement: &M,
    work: W,
    iters: nat,
    log: Seq<Entry<M, W>>,
    value: M::Value,
    time: Duration,
    k: int,
)
    requires
        timed::<M, W>(measurement, work, iters, log, value, time),
    ensures
        log.len() == 2 * iters + 4,
        log[0] is Clock,
        log[1] is Start,
        0 <= k < iters ==> log[2 * k + 2] is Run,
        0 <= k < iters ==> log[2 * k + 3] == Entry::<M, W>::DropOutput(log[2 * k + 2]->Run_1),
        log[(2 * iters + 2) as int] == Entry::<M, W>::End(log[1]->Start_0, value),
        log[(2 * iters + 3) as int] == Entry::<M, W>::Elapsed(log[0]->Clock_0, time),
        0 <= k < log.len() ==> genuine::<M, W>(measurement, work, log[k]),
{
    let (began, start, runs) = choose|
        began: Instant,
        start: M::Intermediate,
        runs: Seq<(W::Argument, W::Output)>,
    |
        {
            &&& log == #[trigger] timed_log::<M, W>(began, start, runs, value, time)
            &&& runs.len() == iters
        };
    assert(log == timed_log::<M, W>(began, start, runs, value, time));
    if 0 <= k < iters {
        assert((2 * k) / 2 == k && (2 * k) % 2 == 0);
        assert((2 * k + 1) / 2 == k && (2 * k + 1) % 2 == 1);
    }
}

/// The record of a run that measures itself, entry by entry: the clock is read, the routine is run
/// once and gives the value, and the time is taken since that reading of the clock.
pub proof fn custom_records_entry_by_entry<M: Measurement, W: Work<Output = M::Value>>(
    measurement: &M,
    work: W,
    argument: W::Argument,
    log: Seq<Entry<M, W>>,
    value: M::Value,
    time: Duration,
    k: int,
)
    requires
        custom::<M, W>(measurement, work, argument, log, value, time),
    ensures
        log.len() == 3,
        log[0] is Clock,
        log[1] == Entry::<M, W>::Run(argument, value),
        log[2] == Entry::<M, W>::Elapsed(log[0]->Clock_0, time),
        0 <= k < log.len() ==> genuine::<M, W>(measurement, work, log[k]),
{
}

/// Finds what the starts of the measurements gave.
pub open spec fn a_start<I, A, O, S, V>() -> spec_fn(Event<I, A, O, S, V>) -> Option<S> {
    |event: Event<I, A, O, S, V>|
        match event {
            Event::Start(start) => Some(start),
            _ => None,
        }
}

/// Finds what the ends of the measurements were given.
pub open spec fn an_end<I, A, O, S, V>() -> spec_fn(Event<I, A, O, S, V>) -> Option<S> {
    |event: Event<I, A, O, S, V>|
        match event {
            Event::End(start, _) => Some(start),
            _ => None,
        }
}

/// Finds the sums that were added up.
pub open spec fn a_sum<I, A, O, S, V>() -> spec_fn(Event<I, A, O, S, V>) -> Option<(V, V, V)> {
    |event: Event<I, A, O, S, V>|
        match event {
            Event::Add(first, second, sum) => Some((first, second, sum)),
            _ => None,
        }
}

proof fn lemma_batch_sums<I, A, O, S, V>(batch: Batch<I, A, O, S, V>, before: V, keeps: bool)
    ensures
        picked(batch.events(before, keeps), a_start()) == seq![batch.start],
        picked(batch.events(before, keeps), an_end()) == seq![batch.start],
        picked(batch.events(before, keeps), a_sum()) == seq![
            (before, batch.measured, batch.total),
        ],
{
    let kept = if keeps {
        batch.inputs.len()
    } else {
        0
    };
    let a = set_ups::<I, A, O, S, V>(batch.inputs);
    let b = seq![Event::<I, A, O, S, V>::Start(batch.start)];
    let c = calls::<I, A, O, S, V>(batch.runs);
    let d1 = seq![Event::<I, A, O, S, V>::End(batch.start, batch.measured)];
    let d2 = seq![Event::<I, A, O, S, V>::Add(before, batch.measured, batch.total)];
    let e = output_drops::<I, A, O, S, V>(outputs_of(batch.runs));
    let f = input_drops::<I, A, O, S, V>(kept);
    assert(batch.events(before, keeps) =~= a + b + c + d1 + d2 + e + f);
    lemma_picked_parts(a, b, c, d1, d2, e, f, a_start());
    lemma_picked_none(a, a_start());
    lemma_picked_all(b, a_start(), seq![batch.start]);
    lemma_picked_none(c, a_start());
    lemma_picked_none(d1, a_start());
    lemma_picked_none(d2, a_start());
    lemma_picked_none(e, a_start());
    lemma_picked_none(f, a_start());
    assert(picked(batch.events(before, keeps), a_start()) =~= seq![batch.start]);
    lemma_picked_parts(a, b, c, d1, d2, e, f, an_end());
    lemma_picked_none(a, an_end());
    lemma_picked_none(b, an_end());
    lemma_picked_none(c, an_end());
    lemma_picked_all(d1, an_end(), seq![batch.start]);
    lemma_picked_none(d2, an_end());
    lemma_picked_none(e, an_end());
    lemma_picked_none(f, an_end());
    assert(picked(batch.events(before, keeps), an_end()) =~= seq![batch.start]);
    lemma_picked_parts(a, b, c, d1, d2, e, f, a_sum());
    lemma_picked_none(a, a_sum());
    lemma_picked_none(b, a_sum());
    lemma_picked_none(c, a_sum());
    lemma_picked_none(d1, a_sum());
    lemma_picked_all(d2, a_sum(), seq![(before, batch.measured, batch.total)]);
    lemma_picked_none(e, a_sum());
    lemma_picked_none(f, a_sum());
    assert(picked(batch.events(before, keeps), a_sum()) =~= seq![
        (before, batch.measured, batch.total),
    ]);
}

proof fn lemma_picked_parts<E, T>(
    a: Seq<E>,
    b: Seq<E>,
    c: Seq<E>,
    d: Seq<E>,
    e: Seq<E>,
    f: Seq<E>,
    g: Seq<E>,
    pick: spec_fn(E) -> Option<T>,
)
    ensures
        picked(a + b + c + d + e + f + g, pick) == picked(a, pick) + picked(b, pick) + picked(
            c,
            pick,
        ) + picked(d, pick) + picked(e, pick) + picked(f, pick) + picked(g, pick),
{
    lemma_picked_add(a + b + c + d + e + f, g, pick);
    lemma_picked_add(a + b + c + d + e, f, pick);
    lemma_picked_add(a + b + c + d, e, pick);
    lemma_picked_add(a + b + c, d, pick);
    lemma_picked_add(a + b, c, pick);
    lemma_picked_add(a, b, pick);
}

proof fn lemma_batches_sums<I, A, O, S, V>(
    zero: V,
    batches: Seq<Batch<I, A, O, S, V>>,
    keeps: bool,
)
    ensures
        picked(batch_events(zero, batches, keeps), a_start()) == picked(
            batch_events(zero, batches, keeps),
            an_end(),
        ),
        picked(batch_events(zero, batches, keeps), a_sum()).len() == batches.len(),
        forall|k: int|
            0 <= k < batches.len() ==> #[trigger] picked(
                batch_events(zero, batches, keeps),
                a_sum(),
            )[k] == (
                if k == 0 {
                    zero
                } else {
                    batches[k - 1].total
                },
                batches[k].measured,
                batches[k].total,
            ),
    decreases batches.len(),
{
    if batches.len() > 0 {
        let fore = batches.drop_last();
        let last = batches.last();
        let before = total(zero, fore);
        let earlier = batch_events(zero, fore, keeps);
        lemma_batches_sums(zero, fore, keeps);
        lemma_batch_sums(last, before, keeps);
        lemma_picked_add(earlier, last.events(before, keeps), a_start());
        lemma_picked_add(earlier, last.events(before, keeps), an_end());
        lemma_picked_add(earlier, last.events(before, keeps), a_sum());
    }
}

/// In a batched run every measurement that is started is ended, in order, and every result is added
/// once, in order, to what the results before it came to. The first is added to the zero that the
/// measurement gave, and the value is what the last came to. The clock is read first, and the time
/// is taken last, since that reading.
pub proof fn batched_results_are_added_in_order<M: Measurement, W: Work>(
    measurement: &M,
    work: W,
    iters: nat,
    batch: nat,
    log: Seq<Entry<M, W>>,
    value: M::Value,
    time: Duration,
    k: int,
)
    requires
        batched::<M, W>(measurement, work, iters, batch, log, value, time),
    ensures
        log.len() >= 3,
        log[0] is Clock,
        log[1] is Zero,
        log.last() == Entry::<M, W>::Elapsed(log[0]->Clock_0, time),
        picked(log, a_start()) == picked(log, an_end()),
        picked(log, a_sum()).len() == results(log).len(),
        0 <= k < results(log).len() ==> picked(log, a_sum())[k].1 == results(log)[k],
        0 < k < results(log).len() ==> picked(log, a_sum())[k].0 == picked(log, a_sum())[k - 1].2,
        results(log).len() > 0 ==> picked(log, a_sum())[0].0 == log[1]->Zero_0,
        results(log).len() > 0 ==> value == picked(log, a_sum()).last().2,
        results(log).len() == 0 ==> value == log[1]->Zero_0,
        0 <= k < log.len() ==> genuine::<M, W>(measurement, work, log[k]),
{
    let keeps = W::keeps_inputs();
    let (began, zero, batches) = choose|
        began: Instant,
        zero: M::Value,
        batches: Seq<Batch<W::Input, W::Argument, W::Output, M::Intermediate, M::Value>>,
    | #[trigger]
        divided::<M, W>(work, iters, batch, log, value, time, began, zero, batches);
    lemma_record_contents::<M, W>(work, iters, batch, log, value, time, began, zero, batches);
    lemma_batches_contents(work, zero, batches, iters, batch, keeps);
    lemma_batches_sums(zero, batches, keeps);
    let fore: Seq<Entry<M, W>> = seq![Event::Clock(began), Event::Zero(zero)];
    let middle: Seq<Entry<M, W>> = batch_events(zero, batches, keeps);
    let rear: Seq<Entry<M, W>> = seq![Event::Elapsed(began, time)];
    assert(log =~= fore + middle + rear);
    lemma_picked_add(fore + middle, rear, a_start());
    lemma_picked_add(fore, middle, a_start());
    lemma_picked_none(fore, a_start());
    lemma_picked_none(rear, a_start());
    assert(picked(log, a_start()) =~= picked(middle, a_start()));
    lemma_picked_add(fore + middle, rear, an_end());
    lemma_picked_add(fore, middle, an_end());
    lemma_picked_none(fore, an_end());
    lemma_picked_none(rear, an_end());
    assert(picked(log, an_end()) =~= picked(middle, an_end()));
    lemma_picked_add(fore + middle, rear, a_sum());
    lemma_picked_add(fore, middle, a_sum());
    lemma_picked_none(fore, a_sum());
    lemma_picked_none(rear, a_sum());
    assert(picked(log, a_sum()) =~= picked(middle, a_sum()));
    if 0 <= k < batches.len() {
        assert(results(middle)[k] == batches[k].measured);
    }
}

/// A record is picked apart entry by entry: what is found in two parts is what is found in the one,
/// followed by what is found in the other, and each kind of find is that of one kind of entry.
pub proof fn records_are_picked_apart<I, A, O, S, V, T>(
    first: Seq<Event<I, A, O, S, V>>,
    second: Seq<Event<I, A, O, S, V>>,
    event: Event<I, A, O, S, V>,
    pick: spec_fn(Event<I, A, O, S, V>) -> Option<T>,
)
    ensures
        picked(first + second, pick) == picked(first, pick) + picked(second, pick),
        pick(event) matches Some(found) ==> picked(seq![event], pick) == seq![found],
        pick(event) is None ==> picked(seq![event], pick).len() == 0,
        inputs_made(seq![event]).len() == 1 <==> event is SetUp,
        event matches Event::SetUp(input) ==> inputs_made(seq![event])[0] == input,
        runs_made(seq![event]).len() == 1 <==> event is Run,
        event matches Event::Run(a, o) ==> runs_made(seq![event])[0] == (a, o),
        outputs_dropped(seq![event]).len() == 1 <==> event is DropOutput,
        event matches Event::DropOutput(o) ==> outputs_dropped(seq![event])[0] == o,
        results(seq![event]).len() == 1 <==> event is End,
        event matches Event::End(_, result) ==> results(seq![event])[0] == result,
        picked(seq![event], a_start()).len() == 1 <==> event is Start,
        event matches Event::Start(start) ==> picked(seq![event], a_start())[0] == start,
        picked(seq![event], an_end()).len() == 1 <==> event is End,
        event matches Event::End(start, _) ==> picked(seq![event], an_end())[0] == start,
        picked(seq![event], a_sum()).len() == 1 <==> event is Add,
        event matches Event::Add(a, b, sum) ==> picked(seq![event], a_sum())[0] == (a, b, sum),
{
    lemma_picked_add(first, second, pick);
    let one = seq![event];
    assert(one.drop_last() =~= seq![]);
    reveal_with_fuel(picked, 2);
}

/// Times add up one by one.
pub proof fn times_add_up_one_by_one(times: Seq<Duration>, time: Duration)
    ensures
        time_sum(Seq::<Duration>::empty()) == 0,
        time_sum(times.push(time)) == time_sum(times) + time@,
{
    assert(times.push(time).drop_last() =~= times);
}

} // verus!
