//! Workers run side by side: a job in the hand of one worker keeps no other
//! worker from receiving, and no job is in two hands.

use crate::model::{PoolView, Step};
use crate::preservation::{
    lemma_busy_count_bounded, lemma_busy_count_update, lemma_complete_inv, lemma_receive_inv,
};
use vstd::prelude::*;

verus! {

/// Every job that was handed to a worker either ran to its end or is in the
/// hand of a worker: the jobs in flight are as many as the workers that are
/// busy, never more than the pool has workers. No two workers hold the same
/// job, and no worker holds a job that has ended.
pub proof fn lemma_jobs_in_flight<J>(pool: PoolView<J>)
    requires
        pool.inv(),
    ensures
        pool.delivered.len() == pool.completed() + pool.in_flight(),
        pool.in_flight() <= pool.size(),
        forall|v: int, w: int|
            0 <= v < pool.size() && 0 <= w < pool.size() && v != w && (
            #[trigger] pool.workers[v]).is_busy() && (#[trigger] pool.workers[w]).is_busy()
                ==> pool.workers[v].current != pool.workers[w].current,
        forall|w: int|
            0 <= w < pool.size() && (#[trigger] pool.workers[w]).is_busy()
                ==> !pool.finished.contains(pool.workers[w].current->0),
{
    lemma_busy_count_bounded(pool.workers);
    assert forall|v: int, w: int|
        0 <= v < pool.size() && 0 <= w < pool.size() && v != w && (
        #[trigger] pool.workers[v]).is_busy() && (
        #[trigger] pool.workers[w]).is_busy() implies pool.workers[v].current
        != pool.workers[w].current by {
        if v < w {
            assert(pool.workers[v].current != pool.workers[w].current);
        } else {
            assert(pool.workers[w].current != pool.workers[v].current);
        }
    }
}

/// Workers run in parallel: if the workers numbered in `ids` are distinct
/// and about to receive, and at least as many jobs are pending, then each of
/// them gets a job though none of the jobs has ended. The worker at position
/// `k` of `ids` gets the job at position `k` of the queue, and the number of
/// jobs in flight grows by the number of these workers.
pub proof fn lemma_jobs_start_together<J>(pool: PoolView<J>, ids: Seq<nat>)
    requires
        pool.inv(),
        ids.no_duplicates(),
        forall|k: int| 0 <= k < ids.len() ==> pool.can_receive(#[trigger] ids[k]),
        ids.len() <= pool.queue.jobs.len(),
    ensures
        pool.start_each(ids).inv(),
        pool.start_each(ids).finished == pool.finished,
        pool.start_each(ids).in_flight() == pool.in_flight() + ids.len(),
        pool.start_each(ids).delivered == pool.delivered + pool.queue.jobs.take(ids.len() as int),
        pool.start_each(ids).queue.jobs == pool.queue.jobs.skip(ids.len() as int),
        pool.start_each(ids).size() == pool.size(),
        forall|k: int|
            0 <= k < ids.len() ==> (#[trigger] pool.start_each(ids).workers[ids[k] as int]).current
                == Some((pool.delivered.len() + k) as nat),
        forall|w: int|
            0 <= w < pool.size() && !ids.contains(w as nat) ==> (#[trigger] pool.start_each(
                ids,
            ).workers[w]) == pool.workers[w],
    decreases ids.len(),
{
    if ids.len() > 0 {
        let earlier = ids.drop_last();
        let id = ids.last();
        let mid = pool.start_each(earlier);
        let end = pool.start_each(ids);
        lemma_jobs_start_together(pool, earlier);
        assert(!earlier.contains(id)) by {
            if earlier.contains(id) {
                let k = choose|k: int| 0 <= k < earlier.len() && earlier[k] == id;
                assert(ids[k] == ids[ids.len() - 1]);
            }
        }
        assert(pool.can_receive(ids[ids.len() - 1]));
        assert(mid.workers[id as int] == pool.workers[id as int]);
        assert(mid.can_receive(id));
        assert(mid.queue.jobs.len() > 0);
        lemma_receive_inv(mid, id);
        lemma_busy_count_update(mid.workers, id as int, end.workers[id as int]);
        assert(end.delivered =~= pool.delivered + pool.queue.jobs.take(ids.len() as int));
        assert(end.queue.jobs =~= pool.queue.jobs.skip(ids.len() as int));
        assert forall|k: int| 0 <= k < ids.len() implies (
        #[trigger] end.workers[ids[k] as int]).current == Some(
            (pool.delivered.len() + k) as nat,
        ) by {
            if k < earlier.len() {
                assert(earlier[k] == ids[k]);
                assert(ids[k] != id);
            }
        }
        assert forall|w: int| 0 <= w < pool.size() && !ids.contains(w as nat) implies (
        #[trigger] end.workers[w]) == pool.workers[w] by {
            assert(w as nat != id);
            assert(!earlier.contains(w as nat)) by {
                if earlier.contains(w as nat) {
                    let k = choose|k: int| 0 <= k < earlier.len() && earlier[k] == w as nat;
                    assert(ids[k] == w as nat);
                }
            }
        }
    } else {
        assert(pool.delivered =~= pool.delivered + pool.queue.jobs.take(0));
        assert(pool.queue.jobs =~= pool.queue.jobs.skip(0));
    }
}

/// Nothing orders the ends of jobs: of two jobs in the hands of different
/// workers either may end first, and the order in which they ended is the
/// only trace that it leaves.
pub proof fn lemma_jobs_end_in_any_order<J>(pool: PoolView<J>, v: nat, w: nat)
    requires
        pool.inv(),
        v != w,
        pool.can_complete(v),
        pool.can_complete(w),
    ensures
        pool.complete(v).complete(w).inv(),
        pool.complete(w).complete(v).inv(),
        pool.complete(v).complete(w).finished == pool.finished.push(
            pool.workers[v as int].current->0,
        ).push(pool.workers[w as int].current->0),
        pool.complete(w).complete(v).finished == pool.finished.push(
            pool.workers[w as int].current->0,
        ).push(pool.workers[v as int].current->0),
        pool.complete(v).complete(w).workers == pool.complete(w).complete(v).workers,
{
    lemma_complete_inv(pool, v);
    lemma_complete_inv(pool.complete(v), w);
    lemma_complete_inv(pool, w);
    lemma_complete_inv(pool.complete(w), v);
    assert(pool.complete(v).complete(w).workers =~= pool.complete(w).complete(v).workers);
}

/// A worker goes through its life in one direction only: no sequence of
/// moves takes a worker back to a state that it has left, so a worker that
/// has terminated never runs again.
pub proof fn lemma_workers_only_advance<J>(pool: PoolView<J>, steps: Seq<Step<J>>, id: nat)
    requires
        id < pool.size(),
    ensures
        pool.run(steps).size() == pool.size(),
        pool.run(steps).workers[id as int].state.rank() >= pool.workers[id as int].state.rank(),
    decreases steps.len(),
{
    if steps.len() > 0 {
        lemma_workers_only_advance(pool, steps.drop_last(), id);
    }
}

} // verus!
