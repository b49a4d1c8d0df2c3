//! What follows from the order of the steps that the timing loops take.

use crate::batch_size::{
    batch_length, batches_cover_iterations, ceil_div, ceil_div_is_least, iterations_in,
};
use crate::record::{
    batch_steps, batched_steps, batches_steps, custom_steps, drop_steps, repeated,
    run_and_drop_steps, timed_steps,
};
use crate::session::Step;
use vstd::prelude::*;

verus! {

/// How often a step occurs.
pub open spec fn occurrences(steps: Seq<Step>, step: Step) -> nat
    decreases steps.len(),
{
    if steps.len() == 0 {
        0
    } else {
        occurrences(steps.drop_last(), step) + if steps.last() == step {
            1nat
        } else {
            0nat
        }
    }
}

proof fn lemma_occurrences_add(first: Seq<Step>, second: Seq<Step>, step: Step)
    ensures
        occurrences(first + second, step) == occurrences(first, step) + occurrences(second, step),
    decreases second.len(),
{
    if second.len() == 0 {
        assert(first + second =~= first);
    } else {
        assert((first + second).drop_last() =~= first + second.drop_last());
        lemma_occurrences_add(first, second.drop_last(), step);
    }
}

proof fn lemma_occurrences_repeated(repeats: Step, n: nat, step: Step)
    ensures
        occurrences(repeated(repeats, n), step) == if step == repeats {
            n
        } else {
            0
        },
    decreases n,
{
    if n > 0 {
        assert(repeated(repeats, n).drop_last() =~= repeated(repeats, (n - 1) as nat));
        lemma_occurrences_repeated(repeats, (n - 1) as nat, step);
    }
}

proof fn lemma_occurrences_in_batch(n: nat, keeps: bool, step: Step)
    ensures
        occurrences(batch_steps(n, keeps), step) == match step {
            Step::SetUp => n,
            Step::Run => n,
            Step::Start => 1,
            Step::End => 1,
            Step::Add => 1,
            Step::DropOutput => n,
            Step::DropInput => if keeps {
                n
            } else {
                0
            },
            _ => 0,
        },
{
    let kept: nat = if keeps {
        n
    } else {
        0
    };
    let set_ups = repeated(Step::SetUp, n);
    let start = seq![Step::Start];
    let runs = repeated(Step::Run, n);
    let end = seq![Step::End, Step::Add];
    let outputs = repeated(Step::DropOutput, n);
    let inputs = repeated(Step::DropInput, kept);
    reveal_with_fuel(occurrences, 3);
    assert(start.drop_last() =~= seq![]);
    assert(end.drop_last() =~= seq![Step::End]);
    assert(end.drop_last().drop_last() =~= seq![]);
    lemma_occurrences_add(set_ups + start + runs + end, outputs + inputs, step);
    lemma_occurrences_add(outputs, inputs, step);
    lemma_occurrences_add(set_ups + start + runs, end, step);
    lemma_occurrences_add(set_ups + start, runs, step);
    lemma_occurrences_add(set_ups, start, step);
    lemma_occurrences_repeated(Step::SetUp, n, step);
    lemma_occurrences_repeated(Step::Run, n, step);
    lemma_occurrences_repeated(Step::DropOutput, n, step);
    lemma_occurrences_repeated(Step::DropInput, kept, step);
}

proof fn lemma_occurrences_in_batches(iters: nat, batch: nat, k: nat, keeps: bool, step: Step)
    ensures
        occurrences(batches_steps(iters, batch, k, keeps), step) == match step {
            Step::SetUp => iterations_in(iters, batch, k),
            Step::Run => iterations_in(iters, batch, k),
            Step::Start => k,
            Step::End => k,
            Step::Add => k,
            Step::DropOutput => iterations_in(iters, batch, k),
            Step::DropInput => if keeps {
                iterations_in(iters, batch, k)
            } else {
                0
            },
            _ => 0,
        },
    decreases k,
{
    if k > 0 {
        let fore = batches_steps(iters, batch, (k - 1) as nat, keeps);
        let n = batch_length(iters, batch, (k - 1) as nat);
        lemma_occurrences_in_batches(iters, batch, (k - 1) as nat, keeps, step);
        lemma_occurrences_in_batch(n, keeps, step);
        lemma_occurrences_add(fore, batch_steps(n, keeps), step);
    }
}

/// In a batched run the setup and the routine are each called once for every iteration, every
/// output is dropped, and so is every input that outlives its run. There is one measurement for
/// every batch, which is added up once.
pub proof fn batched_steps_count(iters: nat, batch: nat, keeps: bool)
    requires
        batch > 0,
    ensures
        occurrences(batched_steps(iters, batch, keeps), Step::SetUp) == iters,
        occurrences(batched_steps(iters, batch, keeps), Step::Run) == iters,
        occurrences(batched_steps(iters, batch, keeps), Step::DropOutput) == iters,
        occurrences(batched_steps(iters, batch, keeps), Step::DropInput) == if keeps {
            iters
        } else {
            0
        },
        occurrences(batched_steps(iters, batch, keeps), Step::Start) == ceil_div(iters, batch),
        occurrences(batched_steps(iters, batch, keeps), Step::End) == ceil_div(iters, batch),
        occurrences(batched_steps(iters, batch, keeps), Step::Add) == ceil_div(iters, batch),
{
    let n = ceil_div(iters, batch);
    let fore = seq![Step::Clock, Step::Zero];
    let batches = batches_steps(iters, batch, n, keeps);
    let rear = seq![Step::Elapsed];
    batches_cover_iterations(iters, batch);
    reveal_with_fuel(occurrences, 3);
    assert(fore.drop_last() =~= seq![Step::Clock]);
    assert(fore.drop_last().drop_last() =~= seq![]);
    assert(rear.drop_last() =~= seq![]);
    assert forall|step: Step| true implies #[trigger] occurrences(
        batched_steps(iters, batch, keeps),
        step,
    ) == occurrences(fore, step) + occurrences(batches, step) + occurrences(rear, step) by {
        lemma_occurrences_add(fore + batches, rear, step);
        lemma_occurrences_add(fore, batches, step);
    }
    lemma_occurrences_in_batches(iters, batch, n, keeps, Step::SetUp);
    lemma_occurrences_in_batches(iters, batch, n, keeps, Step::Run);
    lemma_occurrences_in_batches(iters, batch, n, keeps, Step::DropOutput);
    lemma_occurrences_in_batches(iters, batch, n, keeps, Step::DropInput);
    lemma_occurrences_in_batches(iters, batch, n, keeps, Step::Start);
    lemma_occurrences_in_batches(iters, batch, n, keeps, Step::End);
    lemma_occurrences_in_batches(iters, batch, n, keeps, Step::Add);
}

proof fn lemma_one_more_run_and_drop(n: nat)
    requires
        n > 0,
    ensures
        run_and_drop_steps(n) == run_and_drop_steps((n - 1) as nat) + seq![
            Step::Run,
            Step::DropOutput,
        ],
{
    assert(run_and_drop_steps(n) =~= run_and_drop_steps((n - 1) as nat) + seq![
        Step::Run,
        Step::DropOutput,
    ]);
}

proof fn lemma_occurrences_of_runs_and_drops(n: nat, step: Step)
    ensures
        occurrences(run_and_drop_steps(n), step) == if step == Step::Run || step
            == Step::DropOutput {
            n
        } else {
            0
        },
    decreases n,
{
    if n > 0 {
        let pair = seq![Step::Run, Step::DropOutput];
        lemma_one_more_run_and_drop(n);
        lemma_occurrences_of_runs_and_drops((n - 1) as nat, step);
        lemma_occurrences_add(run_and_drop_steps((n - 1) as nat), pair, step);
        reveal_with_fuel(occurrences, 3);
        assert(pair.drop_last() =~= seq![Step::Run]);
        assert(pair.drop_last().drop_last() =~= seq![]);
    }
}

/// In a run within one measurement the routine is called and its output dropped once for every
/// iteration.
pub proof fn timed_steps_count(iters: nat)
    ensures
        occurrences(timed_steps(iters), Step::Run) == iters,
        occurrences(timed_steps(iters), Step::DropOutput) == iters,
        occurrences(timed_steps(iters), Step::SetUp) == 0,
        occurrences(timed_steps(iters), Step::Start) == 1,
        occurrences(timed_steps(iters), Step::End) == 1,
{
    let fore = seq![Step::Clock, Step::Start];
    let runs = run_and_drop_steps(iters);
    let rear = seq![Step::End, Step::Elapsed];
    reveal_with_fuel(occurrences, 3);
    assert(fore.drop_last() =~= seq![Step::Clock]);
    assert(fore.drop_last().drop_last() =~= seq![]);
    assert(rear.drop_last() =~= seq![Step::End]);
    assert(rear.drop_last().drop_last() =~= seq![]);
    assert forall|step: Step| true implies #[trigger] occurrences(timed_steps(iters), step)
        == occurrences(fore, step) + occurrences(runs, step) + occurrences(rear, step) by {
        lemma_occurrences_add(fore + runs, rear, step);
        lemma_occurrences_add(fore, runs, step);
    }
    assert forall|step: Step| true implies #[trigger] occurrences(runs, step) == if step
        == Step::Run || step == Step::DropOutput {
        iters
    } else {
        0
    } by {
        lemma_occurrences_of_runs_and_drops(iters, step);
    }
}

/// The choice of a batch size changes neither how often the setup and the routine are called nor
/// how many values are dropped.
pub proof fn batch_size_changes_no_count(
    iters: nat,
    first: nat,
    second: nat,
    keeps: bool,
    step: Step,
)
    requires
        first > 0,
        second > 0,
        step == Step::SetUp || step == Step::Run || step == Step::DropOutput || step
            == Step::DropInput,
    ensures
        occurrences(batched_steps(iters, first, keeps), step) == occurrences(
            batched_steps(iters, second, keeps),
            step,
        ),
{
    batched_steps_count(iters, first, keeps);
    batched_steps_count(iters, second, keeps);
}

/// Whether a measurement is under way after `steps`, where `open` says whether one was before.
pub open spec fn measuring(open: bool, steps: Seq<Step>) -> bool
    decreases steps.len(),
{
    if steps.len() == 0 {
        open
    } else {
        match steps.last() {
            Step::Start => true,
            Step::End => false,
            _ => measuring(open, steps.drop_last()),
        }
    }
}

/// Whether a step belongs into a measurement: a run, the end, and the drop of an output where drops
/// are to be measured.
pub open spec fn belongs(step: Step, drops: bool) -> bool {
    step == Step::Run || step == Step::End || drops && step == Step::DropOutput
}

/// Whether exactly the steps that belong into a measurement happen from its start to its end.
pub open spec fn rightly_measured(open: bool, steps: Seq<Step>, drops: bool) -> bool {
    forall|j: int|
        0 <= j < steps.len() ==> measuring(open, #[trigger] steps.take(j)) == belongs(
            steps[j],
            drops,
        )
}

proof fn lemma_measuring_add(open: bool, first: Seq<Step>, second: Seq<Step>)
    ensures
        measuring(open, first + second) == measuring(measuring(open, first), second),
    decreases second.len(),
{
    if second.len() == 0 {
        assert(first + second =~= first);
    } else {
        assert((first + second).drop_last() =~= first + second.drop_last());
        lemma_measuring_add(open, first, second.drop_last());
    }
}

proof fn lemma_rightly_add(open: bool, first: Seq<Step>, second: Seq<Step>, drops: bool)
    requires
        rightly_measured(open, first, drops),
        rightly_measured(measuring(open, first), second, drops),
    ensures
        rightly_measured(open, first + second, drops),
{
    let both = first + second;
    assert forall|j: int| 0 <= j < both.len() implies measuring(open, #[trigger] both.take(j))
        == belongs(both[j], drops) by {
        if j < first.len() {
            assert(both.take(j) =~= first.take(j));
        } else {
            let i = j - first.len();
            assert(both.take(j) =~= first + second.take(i));
            lemma_measuring_add(open, first, second.take(i));
        }
    }
}

proof fn lemma_measuring_unchanged(open: bool, steps: Seq<Step>)
    requires
        forall|j: int|
            0 <= j < steps.len() ==> #[trigger] steps[j] != Step::Start && steps[j] != Step::End,
    ensures
        measuring(open, steps) == open,
    decreases steps.len(),
{
    if steps.len() > 0 {
        lemma_measuring_unchanged(open, steps.drop_last());
    }
}

/// Steps that neither start nor end a measurement are right where all of them belong into it, or
/// none does.
proof fn lemma_rightly_uniform(open: bool, steps: Seq<Step>, drops: bool)
    requires
        forall|j: int|
            0 <= j < steps.len() ==> #[trigger] steps[j] != Step::Start && steps[j] != Step::End
                && belongs(steps[j], drops) == open,
    ensures
        rightly_measured(open, steps, drops),
        measuring(open, steps) == open,
{
    lemma_measuring_unchanged(open, steps);
    assert forall|j: int| 0 <= j < steps.len() implies measuring(open, #[trigger] steps.take(j))
        == open by {
        lemma_measuring_unchanged(open, steps.take(j));
    }
}

proof fn lemma_batch_measured(n: nat, keeps: bool)
    ensures
        rightly_measured(false, batch_steps(n, keeps), false),
        !measuring(false, batch_steps(n, keeps)),
{
    let set_ups = repeated(Step::SetUp, n);
    let start = seq![Step::Start];
    let runs = repeated(Step::Run, n);
    let end = seq![Step::End, Step::Add];
    let drops = drop_steps(n, keeps);
    lemma_rightly_uniform(false, set_ups, false);
    lemma_rightly_uniform(true, runs, false);
    lemma_rightly_uniform(false, drops, false);
    reveal_with_fuel(measuring, 3);
    assert(start.take(0) =~= seq![]);
    assert(rightly_measured(false, start, false));
    assert(end.take(0) =~= seq![]);
    assert(end.take(1) =~= seq![Step::End]);
    assert(end.drop_last() =~= seq![Step::End]);
    assert(rightly_measured(true, end, false));
    lemma_rightly_add(false, set_ups, start, false);
    lemma_measuring_add(false, set_ups, start);
    lemma_rightly_add(false, set_ups + start, runs, false);
    lemma_measuring_add(false, set_ups + start, runs);
    lemma_rightly_add(false, set_ups + start + runs, end, false);
    lemma_measuring_add(false, set_ups + start + runs, end);
    lemma_rightly_add(false, set_ups + start + runs + end, drops, false);
    lemma_measuring_add(false, set_ups + start + runs + end, drops);
}

proof fn lemma_batches_measured(iters: nat, batch: nat, k: nat, keeps: bool)
    ensures
        rightly_measured(false, batches_steps(iters, batch, k, keeps), false),
        !measuring(false, batches_steps(iters, batch, k, keeps)),
    decreases k,
{
    if k > 0 {
        let fore = batches_steps(iters, batch, (k - 1) as nat, keeps);
        let n = batch_length(iters, batch, (k - 1) as nat);
        lemma_batches_measured(iters, batch, (k - 1) as nat, keeps);
        lemma_batch_measured(n, keeps);
        lemma_rightly_add(false, fore, batch_steps(n, keeps), false);
        lemma_measuring_add(false, fore, batch_steps(n, keeps));
    }
}

/// In a batched run the measurements take in the runs of the routine and nothing else: no setup, no
/// adding up, and no drop of an output or of an input.
pub proof fn batched_measures_only_runs(iters: nat, batch: nat, keeps: bool)
    ensures
        rightly_measured(false, batched_steps(iters, batch, keeps), false),
        !measuring(false, batched_steps(iters, batch, keeps)),
{
    let fore = seq![Step::Clock, Step::Zero];
    let batches = batches_steps(iters, batch, ceil_div(iters, batch), keeps);
    let rear = seq![Step::Elapsed];
    lemma_batches_measured(iters, batch, ceil_div(iters, batch), keeps);
    lemma_rightly_uniform(false, fore, false);
    lemma_rightly_uniform(false, rear, false);
    lemma_rightly_add(false, fore, batches, false);
    lemma_measuring_add(false, fore, batches);
    lemma_rightly_add(false, fore + batches, rear, false);
    lemma_measuring_add(false, fore + batches, rear);
}

/// In a run within one measurement that measurement takes in the runs of the routine and the drops
/// of their outputs, and nothing else.
pub proof fn timed_measures_runs_and_drops(iters: nat)
    ensures
        rightly_measured(false, timed_steps(iters), true),
        !measuring(false, timed_steps(iters)),
{
    let fore = seq![Step::Clock, Step::Start];
    let runs = run_and_drop_steps(iters);
    let rear = seq![Step::End, Step::Elapsed];
    lemma_rightly_uniform(true, runs, true);
    reveal_with_fuel(measuring, 3);
    assert(fore.take(0) =~= seq![]);
    assert(fore.take(1) =~= seq![Step::Clock]);
    assert(fore.drop_last() =~= seq![Step::Clock]);
    assert(rightly_measured(false, fore, true));
    assert(rear.take(0) =~= seq![]);
    assert(rear.take(1) =~= seq![Step::End]);
    assert(rear.drop_last() =~= seq![Step::End]);
    assert(rightly_measured(true, rear, true));
    lemma_rightly_add(false, fore, runs, true);
    lemma_measuring_add(false, fore, runs);
    lemma_rightly_add(false, fore + runs, rear, true);
    lemma_measuring_add(false, fore + runs, rear);
}

/// One batch for all iterations means all inputs are made first, all runs then fall into one
/// measurement, and all outputs are dropped after it.
pub proof fn one_batch_is_one_measurement(iters: nat, keeps: bool)
    requires
        iters > 0,
    ensures
        batched_steps(iters, iters, keeps) == seq![Step::Clock, Step::Zero] + batch_steps(
            iters,
            keeps,
        ) + seq![Step::Elapsed],
{
    ceil_div_is_least(iters, iters);
    assert(1nat * iters >= iters);
    assert(ceil_div(iters, iters) != 0) by {
        assert(0 * iters == 0);
    }
    assert(0nat * iters == 0);
    reveal_with_fuel(batches_steps, 2);
    assert(batches_steps(iters, iters, 1, keeps) =~= batch_steps(iters, keeps));
}

/// How many more of the one step than of the other there are.
pub open spec fn surplus(steps: Seq<Step>, more: Step, fewer: Step) -> int {
    occurrences(steps, more) - occurrences(steps, fewer)
}

/// Whether the surplus, with `open` from before, stays from zero to `limit` at every moment.
pub open spec fn surplus_within(
    open: int,
    steps: Seq<Step>,
    more: Step,
    fewer: Step,
    limit: nat,
) -> bool {
    forall|j: int|
        0 <= j <= steps.len() ==> 0 <= open + surplus(#[trigger] steps.take(j), more, fewer)
            <= limit
}

proof fn lemma_surplus_add(first: Seq<Step>, second: Seq<Step>, more: Step, fewer: Step)
    ensures
        surplus(first + second, more, fewer) == surplus(first, more, fewer) + surplus(
            second,
            more,
            fewer,
        ),
{
    lemma_occurrences_add(first, second, more);
    lemma_occurrences_add(first, second, fewer);
}

proof fn lemma_surplus_within_add(
    open: int,
    first: Seq<Step>,
    second: Seq<Step>,
    more: Step,
    fewer: Step,
    limit: nat,
)
    requires
        surplus_within(open, first, more, fewer, limit),
        surplus_within(open + surplus(first, more, fewer), second, more, fewer, limit),
    ensures
        surplus_within(open, first + second, more, fewer, limit),
{
    let both = first + second;
    assert forall|j: int| 0 <= j <= both.len() implies 0 <= open + surplus(
        #[trigger] both.take(j),
        more,
        fewer,
    ) <= limit by {
        if j <= first.len() {
            assert(both.take(j) =~= first.take(j));
        } else {
            let i = j - first.len();
            assert(both.take(j) =~= first + second.take(i));
            lemma_surplus_add(first, second.take(i), more, fewer);
        }
    }
}

/// A step that is repeated moves the surplus one way, if at all.
proof fn lemma_surplus_of_repeated(
    open: int,
    step: Step,
    n: nat,
    more: Step,
    fewer: Step,
    limit: nat,
)
    requires
        more != fewer,
        0 <= open <= limit,
        0 <= open + surplus(repeated(step, n), more, fewer) <= limit,
    ensures
        surplus_within(open, repeated(step, n), more, fewer, limit),
        surplus(repeated(step, n), more, fewer) == if step == more {
            n as int
        } else if step == fewer {
            -(n as int)
        } else {
            0
        },
{
    let steps = repeated(step, n);
    lemma_occurrences_repeated(step, n, more);
    lemma_occurrences_repeated(step, n, fewer);
    assert forall|j: int| 0 <= j <= steps.len() implies 0 <= open + surplus(
        #[trigger] steps.take(j),
        more,
        fewer,
    ) <= limit by {
        assert(steps.take(j) =~= repeated(step, j as nat));
        lemma_occurrences_repeated(step, j as nat, more);
        lemma_occurrences_repeated(step, j as nat, fewer);
    }
}

/// Steps that are neither the one nor the other leave the surplus as it is.
proof fn lemma_surplus_unchanged(open: int, steps: Seq<Step>, more: Step, fewer: Step, limit: nat)
    requires
        0 <= open <= limit,
        forall|j: int|
            0 <= j < steps.len() ==> #[trigger] steps[j] != more && steps[j] != fewer,
    ensures
        surplus_within(open, steps, more, fewer, limit),
        surplus(steps, more, fewer) == 0,
{
    assert forall|j: int| 0 <= j <= steps.len() implies surplus(
        #[trigger] steps.take(j),
        more,
        fewer,
    ) == 0 by {
        lemma_no_occurrences(steps.take(j), more);
        lemma_no_occurrences(steps.take(j), fewer);
    }
    assert(steps.take(steps.len() as int) =~= steps);
}

proof fn lemma_no_occurrences(steps: Seq<Step>, step: Step)
    requires
        forall|j: int| 0 <= j < steps.len() ==> #[trigger] steps[j] != step,
    ensures
        occurrences(steps, step) == 0,
    decreases steps.len(),
{
    if steps.len() > 0 {
        lemma_no_occurrences(steps.drop_last(), step);
    }
}

/// What a batch makes in one step and lets go of in another never exceeds its length.
proof fn lemma_batch_surplus(n: nat, keeps: bool, more: Step, fewer: Step, limit: nat)
    requires
        n <= limit,
        more == Step::SetUp || more == Step::Run,
        fewer == Step::DropOutput || fewer == Step::DropInput && keeps && more == Step::SetUp,
    ensures
        surplus_within(0, batch_steps(n, keeps), more, fewer, limit),
        surplus(batch_steps(n, keeps), more, fewer) == 0,
{
    let kept: nat = if keeps {
        n
    } else {
        0
    };
    let a = repeated(Step::SetUp, n);
    let b = seq![Step::Start];
    let c = repeated(Step::Run, n);
    let d = seq![Step::End, Step::Add];
    let e = repeated(Step::DropOutput, n);
    let f = repeated(Step::DropInput, kept);
    let x: int = if more == Step::SetUp {
        n as int
    } else {
        0
    };
    let y: int = if fewer == Step::DropOutput {
        0
    } else {
        n as int
    };
    lemma_occurrences_repeated(Step::SetUp, n, more);
    lemma_occurrences_repeated(Step::SetUp, n, fewer);
    lemma_occurrences_repeated(Step::Run, n, more);
    lemma_occurrences_repeated(Step::Run, n, fewer);
    lemma_occurrences_repeated(Step::DropOutput, n, more);
    lemma_occurrences_repeated(Step::DropOutput, n, fewer);
    lemma_occurrences_repeated(Step::DropInput, kept, more);
    lemma_occurrences_repeated(Step::DropInput, kept, fewer);
    lemma_surplus_of_repeated(0, Step::SetUp, n, more, fewer, limit);
    lemma_surplus_unchanged(x, b, more, fewer, limit);
    lemma_surplus_of_repeated(x, Step::Run, n, more, fewer, limit);
    lemma_surplus_unchanged(n as int, d, more, fewer, limit);
    lemma_surplus_of_repeated(n as int, Step::DropOutput, n, more, fewer, limit);
    lemma_surplus_of_repeated(y, Step::DropInput, kept, more, fewer, limit);
    lemma_surplus_within_add(0, a, b, more, fewer, limit);
    lemma_surplus_add(a, b, more, fewer);
    lemma_surplus_within_add(0, a + b, c, more, fewer, limit);
    lemma_surplus_add(a + b, c, more, fewer);
    lemma_surplus_within_add(0, a + b + c, d, more, fewer, limit);
    lemma_surplus_add(a + b + c, d, more, fewer);
    lemma_surplus_within_add(n as int, e, f, more, fewer, limit);
    lemma_surplus_add(e, f, more, fewer);
    lemma_surplus_within_add(0, a + b + c + d, e + f, more, fewer, limit);
    lemma_surplus_add(a + b + c + d, e + f, more, fewer);
}

proof fn lemma_batches_surplus(
    iters: nat,
    batch: nat,
    k: nat,
    keeps: bool,
    more: Step,
    fewer: Step,
)
    requires
        more == Step::SetUp || more == Step::Run,
        fewer == Step::DropOutput || fewer == Step::DropInput && keeps && more == Step::SetUp,
    ensures
        surplus_within(0, batches_steps(iters, batch, k, keeps), more, fewer, batch),
        surplus(batches_steps(iters, batch, k, keeps), more, fewer) == 0,
    decreases k,
{
    let all = batches_steps(iters, batch, k, keeps);
    if k > 0 {
        let fore = batches_steps(iters, batch, (k - 1) as nat, keeps);
        let n = batch_length(iters, batch, (k - 1) as nat);
        lemma_batches_surplus(iters, batch, (k - 1) as nat, keeps, more, fewer);
        lemma_batch_surplus(n, keeps, more, fewer, batch);
        lemma_surplus_within_add(0, fore, batch_steps(n, keeps), more, fewer, batch);
        lemma_surplus_add(fore, batch_steps(n, keeps), more, fewer);
    } else {
        lemma_surplus_unchanged(0, all, more, fewer, batch);
    }
}

proof fn lemma_batched_surplus(iters: nat, batch: nat, keeps: bool, more: Step, fewer: Step)
    requires
        more == Step::SetUp || more == Step::Run,
        fewer == Step::DropOutput || fewer == Step::DropInput && keeps && more == Step::SetUp,
    ensures
        surplus_within(0, batched_steps(iters, batch, keeps), more, fewer, batch),
        surplus(batched_steps(iters, batch, keeps), more, fewer) == 0,
{
    let fore = seq![Step::Clock, Step::Zero];
    let n = ceil_div(iters, batch);
    let batches = batches_steps(iters, batch, n, keeps);
    let rear = seq![Step::Elapsed];
    lemma_batches_surplus(iters, batch, n, keeps, more, fewer);
    lemma_surplus_unchanged(0, fore, more, fewer, batch);
    lemma_surplus_unchanged(0, rear, more, fewer, batch);
    lemma_surplus_within_add(0, fore, batches, more, fewer, batch);
    lemma_surplus_add(fore, batches, more, fewer);
    lemma_surplus_within_add(0, fore + batches, rear, more, fewer, batch);
    lemma_surplus_add(fore + batches, rear, more, fewer);
}

/// At no moment of a batched run are there more outputs that are not yet dropped than a batch has
/// iterations. The same holds of the inputs and outputs together where a run turns its input into
/// an output, and of the inputs alone where they outlive their runs. At the end nothing is left.
pub proof fn batched_holds_at_most_a_batch(iters: nat, batch: nat, keeps: bool)
    ensures
        surplus_within(
            0,
            batched_steps(iters, batch, keeps),
            Step::Run,
            Step::DropOutput,
            batch,
        ),
        surplus_within(
            0,
            batched_steps(iters, batch, keeps),
            Step::SetUp,
            if keeps {
                Step::DropInput
            } else {
                Step::DropOutput
            },
            batch,
        ),
        surplus(batched_steps(iters, batch, keeps), Step::Run, Step::DropOutput) == 0,
        surplus(
            batched_steps(iters, batch, keeps),
            Step::SetUp,
            if keeps {
                Step::DropInput
            } else {
                Step::DropOutput
            },
        ) == 0,
{
    lemma_batched_surplus(iters, batch, keeps, Step::Run, Step::DropOutput);
    if keeps {
        lemma_batched_surplus(iters, batch, keeps, Step::SetUp, Step::DropInput);
    } else {
        lemma_batched_surplus(iters, batch, keeps, Step::SetUp, Step::DropOutput);
    }
}

proof fn lemma_runs_and_drops_surplus(n: nat)
    ensures
        surplus_within(0, run_and_drop_steps(n), Step::Run, Step::DropOutput, 1),
        surplus(run_and_drop_steps(n), Step::Run, Step::DropOutput) == 0,
    decreases n,
{
    let all = run_and_drop_steps(n);
    if n > 0 {
        let fore = run_and_drop_steps((n - 1) as nat);
        let run = repeated(Step::Run, 1);
        let release = repeated(Step::DropOutput, 1);
        lemma_runs_and_drops_surplus((n - 1) as nat);
        lemma_one_more_run_and_drop(n);
        assert(all =~= fore + (run + release));
        lemma_occurrences_repeated(Step::Run, 1, Step::Run);
        lemma_occurrences_repeated(Step::Run, 1, Step::DropOutput);
        lemma_occurrences_repeated(Step::DropOutput, 1, Step::Run);
        lemma_occurrences_repeated(Step::DropOutput, 1, Step::DropOutput);
        lemma_surplus_of_repeated(0, Step::Run, 1, Step::Run, Step::DropOutput, 1);
        lemma_surplus_of_repeated(1, Step::DropOutput, 1, Step::Run, Step::DropOutput, 1);
        lemma_surplus_within_add(0, run, release, Step::Run, Step::DropOutput, 1);
        lemma_surplus_add(run, release, Step::Run, Step::DropOutput);
        lemma_surplus_within_add(0, fore, run + release, Step::Run, Step::DropOutput, 1);
        lemma_surplus_add(fore, run + release, Step::Run, Step::DropOutput);
    } else {
        lemma_surplus_unchanged(0, all, Step::Run, Step::DropOutput, 1);
    }
}

/// At no moment of a run within one measurement is there more than one output that is not yet
/// dropped, and at the end there is none.
pub proof fn timed_holds_at_most_one(iters: nat)
    ensures
        surplus_within(0, timed_steps(iters), Step::Run, Step::DropOutput, 1),
        surplus(timed_steps(iters), Step::Run, Step::DropOutput) == 0,
{
    let fore = seq![Step::Clock, Step::Start];
    let runs = run_and_drop_steps(iters);
    let rear = seq![Step::End, Step::Elapsed];
    lemma_runs_and_drops_surplus(iters);
    lemma_surplus_unchanged(0, fore, Step::Run, Step::DropOutput, 1);
    lemma_surplus_unchanged(0, rear, Step::Run, Step::DropOutput, 1);
    lemma_surplus_within_add(0, fore, runs, Step::Run, Step::DropOutput, 1);
    lemma_surplus_add(fore, runs, Step::Run, Step::DropOutput);
    lemma_surplus_within_add(0, fore + runs, rear, Step::Run, Step::DropOutput, 1);
    lemma_surplus_add(fore + runs, rear, Step::Run, Step::DropOutput);
}

/// The steps but for the drops of inputs.
pub open spec fn without_input_drops(steps: Seq<Step>) -> Seq<Step> {
    steps.filter(|step: Step| step != Step::DropInput)
}

proof fn lemma_without_input_drops_add(first: Seq<Step>, second: Seq<Step>)
    ensures
        without_input_drops(first + second) == without_input_drops(first) + without_input_drops(
            second,
        ),
{
    Seq::filter_distributes_over_add(first, second, |step: Step| step != Step::DropInput);
}

proof fn lemma_without_input_drops_same(steps: Seq<Step>)
    requires
        forall|j: int| 0 <= j < steps.len() ==> #[trigger] steps[j] != Step::DropInput,
    ensures
        without_input_drops(steps) == steps,
    decreases steps.len(),
{
    reveal(Seq::filter);
    if steps.len() > 0 {
        lemma_without_input_drops_same(steps.drop_last());
        assert(steps =~= steps.drop_last().push(steps.last()));
    } else {
        assert(steps =~= seq![]);
    }
}

proof fn lemma_only_input_drops(n: nat)
    ensures
        without_input_drops(repeated(Step::DropInput, n)) == Seq::<Step>::empty(),
    decreases n,
{
    reveal(Seq::filter);
    if n > 0 {
        assert(repeated(Step::DropInput, n).drop_last() =~= repeated(
            Step::DropInput,
            (n - 1) as nat,
        ));
        lemma_only_input_drops((n - 1) as nat);
    }
}

proof fn lemma_batches_but_for_input_drops(iters: nat, batch: nat, k: nat)
    ensures
        without_input_drops(batches_steps(iters, batch, k, true)) == batches_steps(
            iters,
            batch,
            k,
            false,
        ),
    decreases k,
{
    if k > 0 {
        let n = batch_length(iters, batch, (k - 1) as nat);
        let consumed = batch_steps(n, false);
        lemma_batches_but_for_input_drops(iters, batch, (k - 1) as nat);
        assert(batch_steps(n, true) =~= consumed + repeated(Step::DropInput, n));
        lemma_without_input_drops_add(
            batches_steps(iters, batch, (k - 1) as nat, true),
            batch_steps(n, true),
        );
        lemma_without_input_drops_add(consumed, repeated(Step::DropInput, n));
        lemma_without_input_drops_same(consumed);
        lemma_only_input_drops(n);
        assert(without_input_drops(batch_steps(n, true)) =~= consumed);
    } else {
        lemma_without_input_drops_same(batches_steps(iters, batch, k, true));
    }
}

/// Whether the routine consumes its inputs or works in place makes no difference to the order of
/// the steps, but for the drops of the inputs.
pub proof fn in_place_takes_the_same_steps(iters: nat, batch: nat)
    ensures
        without_input_drops(batched_steps(iters, batch, true)) == batched_steps(
            iters,
            batch,
            false,
        ),
{
    let fore = seq![Step::Clock, Step::Zero];
    let batches = batches_steps(iters, batch, ceil_div(iters, batch), true);
    let rear = seq![Step::Elapsed];
    lemma_without_input_drops_add(fore + batches, rear);
    lemma_without_input_drops_add(fore, batches);
    lemma_without_input_drops_same(fore);
    lemma_without_input_drops_same(rear);
    lemma_batches_but_for_input_drops(iters, batch, ceil_div(iters, batch));
}

proof fn lemma_batch_len(n: nat, keeps: bool)
    ensures
        batch_steps(n, keeps).len() == 3 * n + 3 + if keeps {
            n
        } else {
            0
        },
{
}

/// So many full batches have so many steps.
proof fn lemma_full_batches_len(iters: nat, batch: nat, k: nat, keeps: bool, length: nat)
    requires
        k * batch <= iters,
        length == 3 * batch + 3 + if keeps {
            batch
        } else {
            0
        },
    ensures
        batches_steps(iters, batch, k, keeps).len() == k * length,
    decreases k,
{
    if k > 0 {
        let fewer = (k - 1) as nat;
        assert(k * batch == fewer * batch + batch) by (nonlinear_arith)
            requires
                k == fewer + 1,
        ;
        assert(k * length == fewer * length + length) by (nonlinear_arith)
            requires
                k == fewer + 1,
        ;
        lemma_full_batches_len(iters, batch, fewer, keeps, length);
        lemma_batch_len(batch, keeps);
        assert(batch_length(iters, batch, fewer) == batch);
    } else {
        assert(0 * length == 0);
    }
}

/// Further batches leave the steps of the earlier ones where they are.
proof fn lemma_batches_prefix(iters: nat, batch: nat, k: nat, more: nat, keeps: bool)
    requires
        k <= more,
    ensures
        batches_steps(iters, batch, k, keeps).len() <= batches_steps(iters, batch, more, keeps).len(),
        batches_steps(iters, batch, more, keeps).take(
            batches_steps(iters, batch, k, keeps).len() as int,
        ) == batches_steps(iters, batch, k, keeps),
    decreases more,
{
    let some = batches_steps(iters, batch, k, keeps);
    let all = batches_steps(iters, batch, more, keeps);
    if k == more {
        assert(all.take(some.len() as int) =~= some);
    } else {
        let fewer = batches_steps(iters, batch, (more - 1) as nat, keeps);
        lemma_batches_prefix(iters, batch, k, (more - 1) as nat, keeps);
        assert(all.take(some.len() as int) =~= fewer.take(some.len() as int));
    }
}

/// The steps of a batch, one by one.
proof fn lemma_batch_one_by_one(n: nat, keeps: bool, j: int)
    requires
        0 <= j < n,
    ensures
        batch_steps(n, keeps)[j] == Step::SetUp,
        batch_steps(n, keeps)[n as int] == Step::Start,
        batch_steps(n, keeps)[n + 1 + j] == Step::Run,
        batch_steps(n, keeps)[(2 * n + 1) as int] == Step::End,
        batch_steps(n, keeps)[(2 * n + 2) as int] == Step::Add,
        batch_steps(n, keeps)[2 * n + 3 + j] == Step::DropOutput,
        keeps ==> batch_steps(n, keeps)[3 * n + 3 + j] == Step::DropInput,
{
}

/// Where the steps of a batch stand among those of the batches.
proof fn lemma_batch_located(
    iters: nat,
    batch: nat,
    keeps: bool,
    k: nat,
    n: nat,
    length: nat,
    i: int,
)
    requires
        batch > 0,
        ((k + 1) * batch <= iters && n == batch) || (k * batch + n == iters && 0 < n && n < batch),
        length == 3 * batch + 3 + if keeps {
            batch
        } else {
            0
        },
        0 <= i < batch_steps(n, keeps).len(),
    ensures
        k * length + i < batches_steps(iters, batch, ceil_div(iters, batch), keeps).len(),
        batches_steps(iters, batch, ceil_div(iters, batch), keeps)[k * length + i] == batch_steps(
            n,
            keeps,
        )[i],
{
    let next = (k + 1) as nat;
    let total = ceil_div(iters, batch);
    assert(next * batch == k * batch + batch) by (nonlinear_arith)
        requires
            next == k + 1,
    ;
    assert((k + 1) * batch == next * batch);
    assert(batch_length(iters, batch, k) == n);
    ceil_div_is_least(iters, batch);
    assert(total >= next) by {
        if total <= k {
            assert(total * batch <= k * batch) by (nonlinear_arith)
                requires
                    total <= k,
            ;
        }
    }
    lemma_full_batches_len(iters, batch, k, keeps, length);
    lemma_batches_prefix(iters, batch, next, total, keeps);
    let fore = batches_steps(iters, batch, k, keeps);
    let this = batches_steps(iters, batch, next, keeps);
    let all = batches_steps(iters, batch, total, keeps);
    assert(this == fore + batch_steps(n, keeps));
    assert(all.take(this.len() as int)[fore.len() + i] == this[fore.len() + i]);
}

/// A batched run, step by step. The clock is read and the zero asked for. Batch number `k` of `n`
/// iterations follows the `k` full ones before it, and each of those has `length` steps. It begins
/// at `base` with `n` setups. Then come the start, `n` runs, the end, the adding up, the drops of
/// `n` outputs and, where inputs outlive their runs, of `n` inputs. The taking of the time is last.
pub proof fn batched_steps_one_by_one(
    iters: nat,
    batch: nat,
    keeps: bool,
    k: nat,
    n: nat,
    length: nat,
    base: int,
    j: int,
)
    requires
        batch > 0,
        ((k + 1) * batch <= iters && n == batch) || (k * batch + n == iters && 0 < n && n < batch),
        length == 3 * batch + 3 + if keeps {
            batch
        } else {
            0
        },
        base == 2 + k * length,
        0 <= j < n,
    ensures
        batched_steps(iters, batch, keeps)[0] == Step::Clock,
        batched_steps(iters, batch, keeps)[1] == Step::Zero,
        batched_steps(iters, batch, keeps)[base + j] == Step::SetUp,
        batched_steps(iters, batch, keeps)[base + n] == Step::Start,
        batched_steps(iters, batch, keeps)[base + n + 1 + j] == Step::Run,
        batched_steps(iters, batch, keeps)[base + 2 * n + 1] == Step::End,
        batched_steps(iters, batch, keeps)[base + 2 * n + 2] == Step::Add,
        batched_steps(iters, batch, keeps)[base + 2 * n + 3 + j] == Step::DropOutput,
        keeps ==> batched_steps(iters, batch, keeps)[base + 3 * n + 3 + j] == Step::DropInput,
        batched_steps(iters, batch, keeps).last() == Step::Elapsed,
{
    lemma_batch_len(n, keeps);
    lemma_batch_one_by_one(n, keeps, j);
    lemma_batch_located(iters, batch, keeps, k, n, length, j);
    lemma_batch_located(iters, batch, keeps, k, n, length, n as int);
    lemma_batch_located(iters, batch, keeps, k, n, length, n + 1 + j);
    lemma_batch_located(iters, batch, keeps, k, n, length, (2 * n + 1) as int);
    lemma_batch_located(iters, batch, keeps, k, n, length, (2 * n + 2) as int);
    lemma_batch_located(iters, batch, keeps, k, n, length, 2 * n + 3 + j);
    if keeps {
        lemma_batch_located(iters, batch, keeps, k, n, length, 3 * n + 3 + j);
    }
}

/// A run within one measurement, step by step: the clock, the start, as many runs as iterations,
/// each with the drop of its output right after it, the end and the taking of the time.
pub proof fn timed_steps_one_by_one(iters: nat, k: int)
    ensures
        timed_steps(iters).len() == 2 * iters + 4,
        timed_steps(iters)[0] == Step::Clock,
        timed_steps(iters)[1] == Step::Start,
        0 <= k < iters ==> timed_steps(iters)[2 * k + 2] == Step::Run,
        0 <= k < iters ==> timed_steps(iters)[2 * k + 3] == Step::DropOutput,
        timed_steps(iters)[(2 * iters + 2) as int] == Step::End,
        timed_steps(iters)[(2 * iters + 3) as int] == Step::Elapsed,
        custom_steps() == seq![Step::Clock, Step::Run, Step::Elapsed],
{
    if 0 <= k < iters {
        assert((2 * k) % 2 == 0);
        assert((2 * k + 1) % 2 == 1);
    }
}

} // verus!
