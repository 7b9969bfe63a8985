//! The transport adapter: a blocking two-wire transport dressed up for a
//! driver that expects calls it may have to wait for.
//!
//! Every call on the adapter runs the blocking transaction to its end and
//! reports at once. The adapter itself only decides in which order the
//! operations of a batch go to the transport and when the batch is over; the
//! caller performs each operation on the transport and reports how it ended.

use vstd::prelude::*;

verus! {

/// Holds the blocking transport that the adapter's calls run on.
pub struct BlockingI2cAdapter<I2C> {
    i2c: I2C,
}

impl<I2C> BlockingI2cAdapter<I2C> {
    /// The wrapped transport.
    pub closed spec fn transport(self) -> I2C {
        self.i2c
    }

    /// Wraps `i2c`.
    pub fn new(i2c: I2C) -> (adapter: Self)
        ensures
            adapter.transport() == i2c,
    {
        Self { i2c }
    }

    /// Lends the transport out for one operation. Whatever the operation
    /// does to the transport stays in the adapter.
    pub fn bus(&mut self) -> (bus: &mut I2C)
        ensures
            *bus == old(self).transport(),
            final(self).transport() == *final(bus),
    {
        &mut self.i2c
    }

    /// Gives the transport back and ends the adapter.
    pub fn release(self) -> (i2c: I2C)
        ensures
            i2c == self.transport(),
    {
        self.i2c
    }
}

/// What the caller of a batch does next.
pub enum BatchStep<E> {
    /// Perform the operation at this position of the batch on the transport.
    Issue(usize),
    /// The batch is over, with this result.
    Finished(Result<(), E>),
}

/// The first step of a batch of `len` operations: its first operation, or
/// success at once if it has none.
pub open spec fn first_step<E>(len: int) -> BatchStep<E> {
    if len > 0 {
        BatchStep::Issue(0)
    } else {
        BatchStep::Finished(Ok(()))
    }
}

/// The step after operation `index` of a batch of `len` operations ended
/// with `outcome`: a failure ends the batch with that very error; after a
/// success the next operation follows, or the batch has succeeded.
pub open spec fn next_step<E>(len: int, index: int, outcome: Result<(), E>) -> BatchStep<E> {
    match outcome {
        Err(e) => BatchStep::Finished(Err(e)),
        Ok(_) => if index + 1 < len {
            BatchStep::Issue((index + 1) as usize)
        } else {
            BatchStep::Finished(Ok(()))
        },
    }
}

/// The course of a batch whose operation `i`, if it reaches the transport,
/// ends as `outcomes[i]`: the caller follows the steps from `step` on until
/// the batch is finished. Gives the number of operations that reached the
/// transport, `issued` of them before `step`, and the result of the batch.
pub open spec fn batch_run<E>(outcomes: Seq<Result<(), E>>, step: BatchStep<E>, issued: int) -> (
    int,
    Result<(), E>,
)
    decreases
        (match step {
            BatchStep::Issue(i) => outcomes.len() - i,
            BatchStep::Finished(_) => 0,
        }),
{
    match step {
        BatchStep::Finished(result) => (issued, result),
        BatchStep::Issue(i) => if i < outcomes.len() <= usize::MAX {
            batch_run(
                outcomes,
                next_step(outcomes.len() as int, i as int, outcomes[i as int]),
                issued + 1,
            )
        } else {
            (issued, Ok(()))
        },
    }
}

/// A batch stops at its first failure: the operations before it and the
/// failing one reach the transport, none after it does, and the batch
/// reports the failure as the transport gave it.
pub proof fn lemma_batch_stops_at_first_failure<E>(outcomes: Seq<Result<(), E>>, failed: int)
    requires
        0 <= failed < outcomes.len(),
        outcomes.len() <= usize::MAX,
        outcomes[failed] is Err,
        forall|k: int| 0 <= k < failed ==> (#[trigger] outcomes[k]) is Ok,
    ensures
        batch_run(outcomes, first_step(outcomes.len() as int), 0) == (failed + 1, outcomes[failed]),
{
    lemma_run_from(outcomes, 0, failed);
}

/// A batch without a failure sends every operation to the transport, in
/// order, and succeeds.
pub proof fn lemma_batch_completes<E>(outcomes: Seq<Result<(), E>>)
    requires
        outcomes.len() <= usize::MAX,
        forall|k: int| 0 <= k < outcomes.len() ==> (#[trigger] outcomes[k]) is Ok,
    ensures
        batch_run(outcomes, first_step(outcomes.len() as int), 0) == (
            outcomes.len() as int,
            Ok::<(), E>(()),
        ),
{
    if outcomes.len() > 0 {
        lemma_run_from(outcomes, 0, outcomes.len() as int);
    }
}

/// The course of a batch from operation `index` on, when `index`
/// operations went before and the first failure, if any, is at `stop`
/// (`stop` is the length of the batch if there is none).
proof fn lemma_run_from<E>(outcomes: Seq<Result<(), E>>, index: int, stop: int)
    requires
        0 <= index < outcomes.len(),
        outcomes.len() <= usize::MAX,
        index <= stop <= outcomes.len(),
        stop < outcomes.len() ==> outcomes[stop] is Err,
        forall|k: int| 0 <= k < stop ==> (#[trigger] outcomes[k]) is Ok,
    ensures
        batch_run(outcomes, BatchStep::Issue(index as usize), index) == if stop < outcomes.len() {
            (stop + 1, outcomes[stop])
        } else {
            (stop, Ok::<(), E>(()))
        },
    decreases outcomes.len() - index,
{
    let len = outcomes.len() as int;
    let after = next_step(len, index, outcomes[index]);
    assert(batch_run(outcomes, BatchStep::Issue(index as usize), index) == batch_run(
        outcomes,
        after,
        index + 1,
    ));
    if index < stop {
        assert(outcomes[index] is Ok);
        if index + 1 < len {
            assert(after == BatchStep::<E>::Issue((index + 1) as usize));
            lemma_run_from(outcomes, index + 1, stop);
        } else {
            assert(after == BatchStep::<E>::Finished(Ok(())));
        }
    } else {
        assert(after == BatchStep::Finished(outcomes[stop]));
    }
}

/// Starts a batch of `len` operations.
pub fn start_transaction<E>(len: usize) -> (step: BatchStep<E>)
    ensures
        step == first_step::<E>(len as int),
{
    if len > 0 {
        BatchStep::Issue(0)
    } else {
        BatchStep::Finished(Ok(()))
    }
}

/// Continues a batch of `len` operations after operation `index` ended
/// with `outcome`.
pub fn continue_transaction<E>(len: usize, index: usize, outcome: Result<(), E>) -> (step:
    BatchStep<E>)
    requires
        index < len,
    ensures
        step == next_step(len as int, index as int, outcome),
{
    match outcome {
        Err(e) => BatchStep::Finished(Err(e)),
        Ok(_) => if index + 1 < len {
            BatchStep::Issue(index + 1)
        } else {
            BatchStep::Finished(Ok(()))
        },
    }
}

} // verus!
