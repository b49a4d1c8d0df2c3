//! The record of which benchmarks were called.

use vstd::prelude::*;

verus! {

/// Calls benchmarks and writes down which, in order. Nothing else can write into the record.
#[verifier::reject_recursive_types(F)]
pub struct RollCall<F> {
    called: Ghost<Seq<F>>,
}

impl<F> View for RollCall<F> {
    type V = Seq<F>;

    /// The benchmarks that were called, in order.
    closed spec fn view(&self) -> Seq<F> {
        self.called@
    }
}

impl<F: Fn()> RollCall<F> {
    /// No benchmark has been called.
    pub fn new() -> (roll: RollCall<F>)
        ensures
            roll@ == Seq::<F>::empty(),
    {
        RollCall { called: Ghost(Seq::empty()) }
    }

    /// Calls a benchmark.
    pub fn call(&mut self, bench: &F)
        requires
            call_requires(*bench, ()),
        ensures
            final(self)@ == old(self)@.push(*bench),
            call_ensures(*bench, (), ()),
    {
        bench();
        proof {
            self.called@ = self.called@.push(*bench);
        }
    }
}

} // verus!
