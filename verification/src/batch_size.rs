//! How iterations are divided into batches.

use vstd::arithmetic::div_mod::lemma_fundamental_div_mod;
use vstd::prelude::*;

verus! {

/// The least number of groups of `size` items that hold `items` items.
pub open spec fn ceil_div(items: nat, size: nat) -> nat
    recommends
        size > 0,
{
    ((items + size - 1) / size as int) as nat
}

/// The number of iterations in batch number `k`, where `iters` iterations are done in batches of
/// `batch`: a full batch, or what is left for the last one.
pub open spec fn batch_length(iters: nat, batch: nat, k: nat) -> nat {
    if iters < k * batch {
        0
    } else if iters - k * batch < batch {
        (iters - k * batch) as nat
    } else {
        batch
    }
}

/// The number of iterations in the first `k` of these batches.
pub open spec fn iterations_in(iters: nat, batch: nat, k: nat) -> nat
    decreases k,
{
    if k == 0 {
        0
    } else {
        iterations_in(iters, batch, (k - 1) as nat) + batch_length(iters, batch, (k - 1) as nat)
    }
}

/// Argument to [`Bencher::iter_batched`](crate::Bencher::iter_batched) and
/// [`Bencher::iter_batched_ref`](crate::Bencher::iter_batched_ref) which controls the batch size.
///
/// Generally speaking, almost all benchmarks should use `SmallInput`. If the input or the result
/// of the benchmark routine is large enough that `SmallInput` causes out-of-memory errors,
/// `LargeInput` can be used to reduce memory usage at the cost of increasing the measurement
/// overhead. If the input or the result is extremely large (or if it holds some limited external
/// resource like a file handle), `PerIteration` will set the number of iterations per batch to
/// exactly one. `PerIteration` can increase the measurement overhead substantially and should be
/// avoided wherever possible.
#[derive(Debug, Eq, PartialEq, Copy, Hash, Clone, Structural)]
pub enum BatchSize {
    /// The input to the benchmark routine is small enough that millions of values can be safely
    /// held in memory. Always prefer `SmallInput` unless the benchmark is using too much memory.
    SmallInput,
    /// The input to the benchmark routine or the value returned from it is large.
    LargeInput,
    /// The input to the benchmark routine or the value returned from it is extremely large or
    /// holds some limited resource, such that holding many values in memory at once is infeasible.
    PerIteration,
    /// Attempt to divide the iterations up into a given number of batches.
    NumBatches(u64),
    /// Fix the batch size to a constant number.
    NumIterations(u64),
    /// Not a batch size. It keeps room for further variants.
    __NonExhaustive,
}

impl BatchSize {
    /// The number of batches that this size aims at, where it aims at one.
    pub open spec fn target_batches(self) -> Option<nat> {
        match self {
            BatchSize::SmallInput => Some(10),
            BatchSize::LargeInput => Some(1000),
            BatchSize::NumBatches(batches) => Some(batches as nat),
            _ => None,
        }
    }

    /// Whether the number of iterations per batch can be computed for `iters` iterations: the size
    /// is one, it does not ask for zero batches, and nothing overflows on the way.
    pub open spec fn computable(self, iters: u64) -> bool {
        match self.target_batches() {
            Some(batches) => batches > 0 && iters + batches <= u64::MAX,
            None => self != BatchSize::__NonExhaustive,
        }
    }

    /// The number of iterations per batch.
    pub open spec fn per_batch(self, iters: u64) -> nat {
        match self {
            BatchSize::PerIteration => 1,
            BatchSize::NumIterations(size) => size as nat,
            _ => ceil_div(iters as nat, self.target_batches().unwrap()),
        }
    }

    /// Whether the number of iterations per batch can be computed for `iters` iterations.
    pub fn is_computable(self, iters: u64) -> (result: bool)
        ensures
            result == self.computable(iters),
    {
        match self {
            BatchSize::SmallInput => iters <= u64::MAX - 10,
            BatchSize::LargeInput => iters <= u64::MAX - 1000,
            BatchSize::NumBatches(batches) => batches > 0 && iters <= u64::MAX - batches,
            BatchSize::PerIteration => true,
            BatchSize::NumIterations(_) => true,
            BatchSize::__NonExhaustive => false,
        }
    }

    /// Convert to a number of iterations per batch.
    ///
    /// We try to do a constant number of batches regardless of the number of iterations in this
    /// sample. If the measurement overhead is roughly constant regardless of the number of
    /// iterations the analysis of the results later will have an easier time separating the
    /// measurement overhead from the benchmark time.
    pub fn iters_per_batch(self, iters: u64) -> (size: u64)
        requires
            self.computable(iters),
        ensures
            size == self.per_batch(iters),
    {
        match self {
            BatchSize::SmallInput => (iters + 10 - 1) / 10,
            BatchSize::LargeInput => (iters + 1000 - 1) / 1000,
            BatchSize::PerIteration => 1,
            BatchSize::NumBatches(batches) => (iters + batches - 1) / batches,
            BatchSize::NumIterations(size) => size,
            BatchSize::__NonExhaustive => {
                assert(false);
                0
            },
        }
    }
}

/// `ceil_div` is the least number of groups that suffices.
pub proof fn ceil_div_is_least(items: nat, size: nat)
    requires
        size > 0,
    ensures
        items <= ceil_div(items, size) * size,
        forall|groups: nat| #[trigger] (groups * size) >= items ==> groups >= ceil_div(items, size),
{
    let q = ceil_div(items, size);
    lemma_fundamental_div_mod(items + size - 1, size as int);
    assert(items + size - 1 == size * q + (items + size - 1) % (size as int));
    assert(size * q == q * size) by (nonlinear_arith);
    assert forall|groups: nat| #[trigger] (groups * size) >= items implies groups >= q by {
        if groups < q {
            assert(groups * size <= (q - 1) * size) by (nonlinear_arith)
                requires
                    groups <= q - 1,
            ;
            assert((q - 1) * size == q * size - size) by (nonlinear_arith);
        }
    }
}

/// The iterations of all batches together are the iterations asked for: none is left out and none
/// is done twice.
pub proof fn batches_cover_iterations(iters: nat, batch: nat)
    requires
        batch > 0,
    ensures
        iterations_in(iters, batch, ceil_div(iters, batch)) == iters,
{
    let n = ceil_div(iters, batch);
    ceil_div_is_least(iters, batch);
    if n == 0 {
        assert(0 * batch == 0);
    } else {
        assert((n - 1) * batch < iters) by {
            if (n - 1) * batch >= iters {
                assert(((n - 1) as nat) * batch >= iters);
            }
        }
        lemma_full_batches(iters, batch, (n - 1) as nat);
        assert(n * batch == (n - 1) * batch + batch) by (nonlinear_arith);
    }
}

/// The first `k` batches are full where `k` full batches are not too many.
pub(crate) proof fn lemma_full_batches(iters: nat, batch: nat, k: nat)
    requires
        k * batch <= iters,
    ensures
        iterations_in(iters, batch, k) == k * batch,
    decreases k,
{
    if k > 0 {
        assert(k * batch == (k - 1) * batch + batch) by (nonlinear_arith);
        lemma_full_batches(iters, batch, (k - 1) as nat);
    } else {
        assert(0 * batch == 0);
    }
}

/// Only the last batch can be shorter than the others, and no batch is empty.
pub proof fn batches_are_full_but_the_last(iters: nat, batch: nat, k: nat)
    requires
        batch > 0,
        k < ceil_div(iters, batch),
    ensures
        0 < batch_length(iters, batch, k) <= batch,
        k + 1 < ceil_div(iters, batch) ==> batch_length(iters, batch, k) == batch,
{
    ceil_div_is_least(iters, batch);
    assert(k * batch < iters);
    if k + 1 < ceil_div(iters, batch) {
        let next = (k + 1) as nat;
        assert(next * batch < iters);
        assert(next * batch == k * batch + batch) by (nonlinear_arith)
            requires
                next == k + 1,
        ;
    }
}

/// A size that aims at a number of batches never exceeds that number, however many iterations
/// there are.
pub proof fn batches_within_target(size: BatchSize, iters: u64)
    requires
        size.computable(iters),
        iters > 0,
        size.target_batches() is Some,
    ensures
        size.per_batch(iters) > 0,
        ceil_div(iters as nat, size.per_batch(iters)) <= size.target_batches().unwrap(),
{
    let target = size.target_batches().unwrap();
    let batch = size.per_batch(iters);
    ceil_div_is_least(iters as nat, target);
    assert(batch * target >= iters);
    assert(batch > 0) by {
        if batch == 0 {
            assert(0 * target == 0);
        }
    }
    ceil_div_is_least(iters as nat, batch);
    assert(target * batch == batch * target) by (nonlinear_arith);
    assert(target * batch >= iters);
}

/// `PerIteration` makes one batch of every iteration.
pub proof fn per_iteration_is_one_each(iters: u64)
    ensures
        BatchSize::PerIteration.per_batch(iters) == 1,
        ceil_div(iters as nat, BatchSize::PerIteration.per_batch(iters)) == iters,
        forall|k: nat| k < iters ==> #[trigger] batch_length(iters as nat, 1, k) == 1,
{
}

/// `NumBatches(1)` puts all iterations into a single batch.
pub proof fn num_batches_of_one_is_one_batch(iters: u64)
    ensures
        BatchSize::NumBatches(1).per_batch(iters) == iters,
{
}

/// `NumIterations` fixes the batch size, whatever the number of iterations.
pub proof fn num_iterations_is_fixed(size: u64, iters: u64)
    ensures
        BatchSize::NumIterations(size).computable(iters),
        BatchSize::NumIterations(size).per_batch(iters) == size,
{
}

/// Where a size aims at a number of batches, the batches are the smallest that stay within it: ten
/// for small inputs, a thousand for large ones, and otherwise the number that is given. Batches of
/// one iteration less would have to be more.
pub proof fn batches_are_as_small_as_the_target_allows(
    size: BatchSize,
    iters: u64,
    target: u64,
    per_batch: u64,
)
    requires
        target > 0,
        (size == BatchSize::SmallInput && target == 10) || (size == BatchSize::LargeInput && target
            == 1000) || size == BatchSize::NumBatches(target),
        call_ensures(BatchSize::iters_per_batch, (size, iters), per_batch),
    ensures
        per_batch * target >= iters,
        iters > (per_batch - 1) * target,
        per_batch == size.per_batch(iters),
{
    let least = ceil_div(iters as nat, target as nat);
    ceil_div_is_least(iters as nat, target as nat);
    if least > 0 {
        let fewer = (least - 1) as nat;
        if fewer * (target as nat) >= iters {
            assert(fewer >= least);
        }
    } else {
        assert((0 - 1) * target < iters) by (nonlinear_arith)
            requires
                target > 0,
        ;
    }
}

/// The batch size does not depend on the number of iterations where it is asked for outright.
pub proof fn fixed_batch_sizes_are_kept(size: u64, iters: u64, per_batch: u64)
    ensures
        call_ensures(BatchSize::iters_per_batch, (BatchSize::NumIterations(size), iters), per_batch)
            ==> per_batch == size,
        call_ensures(BatchSize::iters_per_batch, (BatchSize::PerIteration, iters), per_batch)
            ==> per_batch == 1,
{
}

/// A batch size can be computed unless it is none, aims at no batches at all, or the iterations and
/// the batches together are too many to be counted.
pub proof fn batch_sizes_are_computable(iters: u64, batches: u64, size: u64)
    ensures
        BatchSize::SmallInput.computable(iters) <==> iters + 10 <= u64::MAX,
        BatchSize::LargeInput.computable(iters) <==> iters + 1000 <= u64::MAX,
        BatchSize::NumBatches(batches).computable(iters) <==> batches > 0 && iters + batches
            <= u64::MAX,
        BatchSize::PerIteration.computable(iters),
        BatchSize::NumIterations(size).computable(iters),
        !BatchSize::__NonExhaustive.computable(iters),
{
}

/// Every batch but the last takes a full batch off the iterations, and the last takes what is left:
/// batch number `k` ends where `k + 1` full batches or the iterations do.
pub proof fn batches_follow_one_another(iters: nat, batch: nat, k: nat)
    requires
        batch > 0,
    ensures
        (k + 1) * batch <= iters ==> batch_length(iters, batch, k) == batch,
        k * batch <= iters && (k + 1) * batch > iters ==> k * batch + batch_length(iters, batch, k) == iters,
        iters < k * batch ==> batch_length(iters, batch, k) == 0,
{
    assert((k + 1) * batch == k * batch + batch) by (nonlinear_arith);
}

} // verus!
