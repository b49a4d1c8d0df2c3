//! Running all benchmarks of a process.

use crate::arguments::{ArgumentError, Arguments};
use crate::configure::{configured, problem};
use crate::criterion::{default_state, Criterion};
use crate::environment::Environment;
use crate::report::FinalSummary;
use crate::roll_call::RollCall;
use vstd::prelude::*;

verus! {

/// Runs the benchmarks, in order, each of them once.
pub fn run_benches<F: Fn()>(benches: &[F]) -> (roll: RollCall<F>)
    requires
        forall|i: int| 0 <= i < benches@.len() ==> call_requires(#[trigger] benches@[i], ()),
    ensures
        roll@ == benches@,
        forall|i: int| 0 <= i < benches@.len() ==> call_ensures(#[trigger] benches@[i], (), ()),
{
    let mut roll = RollCall::new();
    assert(roll@ =~= benches@.take(0));
    for i in 0..benches.len()
        invariant
            forall|i: int| 0 <= i < benches@.len() ==> call_requires(#[trigger] benches@[i], ()),
            forall|j: int| 0 <= j < i ==> call_ensures(#[trigger] benches@[j], (), ()),
            roll@ == benches@.take(i as int),
    {
        roll.call(&benches[i]);
        assert(roll@ =~= benches@.take(i + 1));
    }
    assert(benches@.take(benches@.len() as int) =~= benches@);
    roll
}

/// What a run of all benchmarks came to.
#[verifier::reject_recursive_types(F)]
pub struct Finished<F> {
    /// The benchmarks that were called
    pub roll: RollCall<F>,
    /// Could the command line be followed?
    pub result: Result<(), ArgumentError>,
}

/// Custom-test-framework runner. Should not be called directly.
///
/// Runs the benchmarks, in order. After that has `look_around` tell the environment and the command
/// line, and then has `summarize` make the final summary of a run as the command line asks for.
/// There is no summary to make of a run that was not for benchmarks. The roll that both are handed
/// shows that all benchmarks were called before.
pub fn runner<F, E, S>(benches: &[F], look_around: E, summarize: S) -> (finished: Finished<F>)
    where
        F: Fn(),
        E: FnOnce(&RollCall<F>) -> (Environment, Arguments),
        S: FnOnce(&RollCall<F>, Option<FinalSummary<'_>>),
    requires
        forall|i: int| 0 <= i < benches@.len() ==> call_requires(#[trigger] benches@[i], ()),
        forall|roll: &RollCall<F>|
            roll@ == benches@ ==> #[trigger] call_requires(look_around, (roll,)),
        forall|roll: &RollCall<F>, summary: Option<FinalSummary<'_>>|
            roll@ == benches@ ==> #[trigger] call_requires(summarize, (roll, summary)),
    ensures
        finished.roll@ == benches@,
        forall|i: int| 0 <= i < benches@.len() ==> call_ensures(#[trigger] benches@[i], (), ()),
        exists|roll: &RollCall<F>, found: (Environment, Arguments)|
            {
                &&& #[trigger] call_ensures(look_around, (roll,), found)
                &&& roll@ == benches@
                &&& match finished.result {
                    Ok(()) => {
                        &&& problem(found.1@, found.0.gnuplot.available()) is None
                        &&& exists|summary: Option<FinalSummary<'_>>|
                            {
                                &&& #[trigger] call_ensures(summarize, (roll, summary), ())
                                &&& configured(default_state(found.0), found.1@).summarized_by(
                                    summary,
                                )
                            }
                    },
                    Err(error) => problem(found.1@, found.0.gnuplot.available()) == Some(error@),
                }
            },
{
    let roll = run_benches(benches);
    let found = look_around(&roll);
    let result = match Criterion::default(found.0).configure_from_args(found.1) {
        Ok(criterion) => {
            summarize(&roll, criterion.final_summary());
            Ok(())
        },
        Err(error) => Err(error),
    };
    Finished { roll, result }
}

} // verus!
