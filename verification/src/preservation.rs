//! The invariant of the pool is kept: it holds of a new pool, every move
//! preserves it, and so it holds after any sequence of moves.

use crate::model::{busy_count, PoolView, Step};
use crate::worker::WorkerView;
use vstd::prelude::*;

verus! {

/// Replacing one worker changes the number of busy workers by what that
/// worker contributes before and after.
pub proof fn lemma_busy_count_update(workers: Seq<WorkerView>, id: int, worker: WorkerView)
    requires
        0 <= id < workers.len(),
    ensures
        busy_count(workers.update(id, worker)) + (if workers[id].is_busy() {
            1nat
        } else {
            0nat
        }) == busy_count(workers) + (if worker.is_busy() {
            1nat
        } else {
            0nat
        }),
    decreases workers.len(),
{
    let updated = workers.update(id, worker);
    if id == workers.len() - 1 {
        assert(updated.drop_last() =~= workers.drop_last());
    } else {
        assert(updated.drop_last() =~= workers.drop_last().update(id, worker));
        lemma_busy_count_update(workers.drop_last(), id, worker);
    }
}

/// Where no worker has a job in hand, the number of busy workers is zero.
pub proof fn lemma_busy_count_idle(workers: Seq<WorkerView>)
    requires
        forall|w: int| 0 <= w < workers.len() ==> !(#[trigger] workers[w]).is_busy(),
    ensures
        busy_count(workers) == 0,
    decreases workers.len(),
{
    if workers.len() > 0 {
        lemma_busy_count_idle(workers.drop_last());
    }
}

/// There are never more busy workers than workers.
pub proof fn lemma_busy_count_bounded(workers: Seq<WorkerView>)
    ensures
        busy_count(workers) <= workers.len(),
    decreases workers.len(),
{
    if workers.len() > 0 {
        lemma_busy_count_bounded(workers.drop_last());
    }
}

/// A new pool with at least one worker satisfies the invariant.
pub proof fn lemma_init_inv<J>(size: nat)
    requires
        size > 0,
    ensures
        PoolView::<J>::init(size).inv(),
{
    lemma_busy_count_idle(PoolView::<J>::init(size).workers);
}

/// Submitting a job keeps the invariant.
pub proof fn lemma_submit_inv<J>(pool: PoolView<J>, job: J)
    requires
        pool.inv(),
    ensures
        pool.submit(job).inv(),
{
}

/// An attempt to receive keeps the invariant.
pub proof fn lemma_receive_inv<J>(pool: PoolView<J>, id: nat)
    requires
        pool.inv(),
    ensures
        pool.receive(id).inv(),
{
    if pool.can_receive(id) {
        lemma_busy_count_update(pool.workers, id as int, pool.receive(id).workers[id as int]);
    }
}

/// The end of a job keeps the invariant.
pub proof fn lemma_complete_inv<J>(pool: PoolView<J>, id: nat)
    requires
        pool.inv(),
    ensures
        pool.complete(id).inv(),
{
    if pool.can_complete(id) {
        lemma_busy_count_update(pool.workers, id as int, pool.complete(id).workers[id as int]);
    }
}

/// The return of a worker's thread keeps the invariant.
pub proof fn lemma_retire_inv<J>(pool: PoolView<J>, id: nat)
    requires
        pool.inv(),
    ensures
        pool.retire(id).inv(),
{
    if pool.can_retire(id) {
        lemma_busy_count_update(pool.workers, id as int, pool.retire(id).workers[id as int]);
    }
}

/// Releasing the submitting side keeps the invariant.
pub proof fn lemma_close_inv<J>(pool: PoolView<J>)
    requires
        pool.inv(),
    ensures
        pool.close().inv(),
{
}

/// Joining a worker keeps the invariant.
pub proof fn lemma_join_inv<J>(pool: PoolView<J>)
    requires
        pool.inv(),
    ensures
        pool.join().inv(),
{
}

/// Every move keeps the invariant.
pub proof fn lemma_step_inv<J>(pool: PoolView<J>, step: Step<J>)
    requires
        pool.inv(),
    ensures
        pool.step(step).inv(),
{
    match step {
        Step::Submit(job) => lemma_submit_inv(pool, job),
        Step::Receive(id) => lemma_receive_inv(pool, id),
        Step::Complete(id) => lemma_complete_inv(pool, id),
        Step::Retire(id) => lemma_retire_inv(pool, id),
        Step::Close => lemma_close_inv(pool),
        Step::Join => lemma_join_inv(pool),
    }
}

/// The invariant holds after any sequence of moves from a state in which it
/// holds.
pub proof fn lemma_run_inv<J>(pool: PoolView<J>, steps: Seq<Step<J>>)
    requires
        pool.inv(),
    ensures
        pool.run(steps).inv(),
    decreases steps.len(),
{
    if steps.len() > 0 {
        lemma_run_inv(pool, steps.drop_last());
        lemma_step_inv(pool.run(steps.drop_last()), steps.last());
    }
}

/// The invariant holds in every state that a pool can reach: after any
/// sequence of moves from a new pool with at least one worker. The number of
/// workers is the one that the pool was made with.
pub proof fn lemma_reachable_inv<J>(size: nat, steps: Seq<Step<J>>)
    requires
        size > 0,
    ensures
        PoolView::<J>::init(size).run(steps).inv(),
        PoolView::<J>::init(size).run(steps).size() == size,
{
    lemma_init_inv::<J>(size);
    lemma_run_inv(PoolView::<J>::init(size), steps);
    lemma_size_is_fixed(PoolView::<J>::init(size), steps);
}

/// No move changes the number of workers.
pub proof fn lemma_size_is_fixed<J>(pool: PoolView<J>, steps: Seq<Step<J>>)
    ensures
        pool.run(steps).size() == pool.size(),
    decreases steps.len(),
{
    if steps.len() > 0 {
        lemma_size_is_fixed(pool, steps.drop_last());
    }
}

} // verus!
