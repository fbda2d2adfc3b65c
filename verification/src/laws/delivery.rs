//! No job is lost and none runs twice: every accepted job is handed to one
//! worker, in the order of submission, and a closed pool accepts nothing.

use crate::model::{busy_count, hold_distinct_jobs, in_hand, submissions, PoolView, Step};
use crate::preservation::{lemma_busy_count_idle, lemma_close_inv, lemma_init_inv, lemma_run_inv};
use crate::worker::WorkerView;
use vstd::prelude::*;
use vstd::set_lib::{lemma_int_range, lemma_subset_equality, set_int_range};

verus! {

/// Jobs are handed to workers in the order in which they were accepted: what
/// was delivered is the beginning of what was accepted, and what is pending
/// is the rest.
pub proof fn lemma_delivery_in_order<J>(pool: PoolView<J>)
    requires
        pool.inv(),
    ensures
        pool.delivered.len() + pool.queue.jobs.len() == pool.accepted.len(),
        pool.delivered == pool.accepted.take(pool.delivered.len() as int),
        pool.queue.jobs == pool.accepted.skip(pool.delivered.len() as int),
{
    assert(pool.delivered =~= pool.accepted.take(pool.delivered.len() as int));
    assert(pool.queue.jobs =~= pool.accepted.skip(pool.delivered.len() as int));
}

/// The queue has no bound: an open pool accepts a job whatever the number of
/// jobs pending and whatever its workers are doing, and puts it behind
/// everything pending.
pub proof fn lemma_open_pool_accepts<J>(pool: PoolView<J>, job: J)
    requires
        pool.is_open(),
    ensures
        pool.submit(job).queue.jobs == pool.queue.jobs.push(job),
        pool.submit(job).accepted == pool.accepted.push(job),
        pool.submit(job).workers == pool.workers,
        pool.submit(job).is_open(),
{
}

/// Once the pool is closed it stays closed, and nothing is accepted any
/// more: a submission leaves the pool exactly as it was.
pub proof fn lemma_closed_is_final<J>(pool: PoolView<J>, step: Step<J>)
    requires
        !pool.is_open(),
    ensures
        !pool.step(step).is_open(),
        pool.step(step).accepted == pool.accepted,
        step is Submit ==> pool.step(step) == pool,
{
}

/// After the pool was closed, no sequence of moves opens it again or gets
/// another job accepted.
pub proof fn lemma_closed_run<J>(pool: PoolView<J>, steps: Seq<Step<J>>)
    requires
        !pool.is_open(),
    ensures
        !pool.run(steps).is_open(),
        pool.run(steps).accepted == pool.accepted,
    decreases steps.len(),
{
    if steps.len() > 0 {
        lemma_closed_run(pool, steps.drop_last());
        lemma_closed_is_final(pool.run(steps.drop_last()), steps.last());
    }
}

/// While the pool is open every submission is accepted: if the pool is
/// still open after a sequence of moves, it was open all the way, and the
/// jobs accepted on the way are the jobs submitted on the way, in that
/// order.
pub proof fn lemma_open_run<J>(pool: PoolView<J>, steps: Seq<Step<J>>)
    requires
        pool.run(steps).is_open(),
    ensures
        pool.is_open(),
        pool.run(steps).accepted == pool.accepted + submissions(steps),
    decreases steps.len(),
{
    if steps.len() > 0 {
        let earlier = pool.run(steps.drop_last());
        if !earlier.is_open() {
            lemma_closed_is_final(earlier, steps.last());
        }
        lemma_open_run(pool, steps.drop_last());
        assert(pool.run(steps).accepted =~= pool.accepted + submissions(steps));
    } else {
        assert(pool.accepted =~= pool.accepted + submissions(steps));
    }
}

/// When the teardown is over, every job that was ever accepted was handed to
/// a worker, in the order of submission, and none is left anywhere: nothing
/// is pending, nothing is in flight, and as many jobs have ended as were
/// accepted. Every worker's thread has returned.
pub proof fn lemma_teardown_runs_every_job<J>(pool: PoolView<J>)
    requires
        pool.inv(),
        pool.torn_down(),
    ensures
        pool.queue.jobs.len() == 0,
        pool.in_flight() == 0,
        pool.delivered == pool.accepted,
        pool.completed() == pool.accepted.len(),
        forall|w: int|
            0 <= w < pool.size() ==> (#[trigger] pool.workers[w]).state is Terminated
                && !pool.workers[w].is_busy(),
{
    assert(pool.workers[0].state is Terminated);
    lemma_busy_count_idle(pool.workers);
}

/// The jobs in hand are as many as the busy workers, and each of them is in
/// the hand of a worker. Where no two workers hold the same job, no job is
/// in hand twice.
pub proof fn lemma_in_hand(workers: Seq<WorkerView>)
    ensures
        in_hand(workers).len() == busy_count(workers),
        forall|k: int|
            0 <= k < in_hand(workers).len() ==> exists|w: int|
                0 <= w < workers.len() && (#[trigger] workers[w]).current == Some(
                    #[trigger] in_hand(workers)[k],
                ),
        hold_distinct_jobs(workers) ==> in_hand(workers).no_duplicates(),
    decreases workers.len(),
{
    if workers.len() > 0 {
        let earlier = workers.drop_last();
        let last = workers.len() - 1;
        lemma_in_hand(earlier);
        assert forall|k: int| 0 <= k < in_hand(workers).len() implies exists|w: int|
            0 <= w < workers.len() && (#[trigger] workers[w]).current == Some(
                #[trigger] in_hand(workers)[k],
            ) by {
            if k < in_hand(earlier).len() {
                let w = choose|w: int|
                    0 <= w < earlier.len() && (#[trigger] earlier[w]).current == Some(
                        in_hand(earlier)[k],
                    );
                assert(workers[w].current == Some(in_hand(workers)[k]));
            } else {
                assert(workers[last].current == Some(in_hand(workers)[k]));
            }
        }
        if hold_distinct_jobs(workers) {
            assert(hold_distinct_jobs(earlier)) by {
                assert forall|v: int, w: int|
                    #![trigger earlier[v], earlier[w]]
                    0 <= v < w < earlier.len() && earlier[v].is_busy()
                        && earlier[w].is_busy() implies earlier[v].current
                    != earlier[w].current by {
                    assert(workers[v].current != workers[w].current);
                }
            }
            if workers[last].is_busy() {
                assert forall|k: int| 0 <= k < in_hand(earlier).len() implies in_hand(earlier)[k]
                    != workers[last].current->0 by {
                    let w = choose|w: int|
                        0 <= w < earlier.len() && (#[trigger] earlier[w]).current == Some(
                            in_hand(earlier)[k],
                        );
                    assert(workers[w].current != workers[last].current);
                }
            }
        }
    }
}

/// Every job that was handed to a worker is accounted for: it ran to its
/// end, or it is in the hand of a worker.
pub proof fn lemma_delivered_jobs_accounted_for<J>(pool: PoolView<J>, serial: nat)
    requires
        pool.inv(),
        serial < pool.delivered.len(),
    ensures
        pool.finished.contains(serial) || exists|w: int|
            0 <= w < pool.size() && (#[trigger] pool.workers[w]).current == Some(serial),
{
    let total = pool.delivered.len() as int;
    let held = in_hand(pool.workers);
    lemma_in_hand(pool.workers);
    let known = pool.finished + held;
    let serials = Seq::new(known.len(), |k: int| known[k] as int);
    assert forall|k: int| 0 <= k < held.len() implies held[k] < total && !pool.finished.contains(
        held[k],
    ) by {
        let w = choose|w: int|
            0 <= w < pool.workers.len() && (#[trigger] pool.workers[w]).current == Some(held[k]);
        assert(pool.workers[w].is_busy());
    }
    assert(serials.no_duplicates()) by {
        assert forall|a: int, b: int|
            0 <= a < serials.len() && 0 <= b < serials.len() && a != b implies serials[a]
            != serials[b] by {
            if a < pool.finished.len() && b >= pool.finished.len() {
                assert(pool.finished[a] != held[b - pool.finished.len()]);
            }
            if b < pool.finished.len() && a >= pool.finished.len() {
                assert(pool.finished[b] != held[a - pool.finished.len()]);
            }
        }
    }
    serials.unique_seq_to_set();
    lemma_int_range(0, total);
    assert(serials.to_set().subset_of(set_int_range(0, total))) by {
        assert forall|s: int| serials.to_set().contains(s) implies set_int_range(
            0,
            total,
        ).contains(s) by {
            let k = choose|k: int| 0 <= k < serials.len() && serials[k] == s;
            if k < pool.finished.len() {
                assert(pool.finished[k] < total);
            } else {
                assert(held[k - pool.finished.len()] < total);
            }
        }
    }
    lemma_subset_equality(serials.to_set(), set_int_range(0, total));
    assert(set_int_range(0, total).contains(serial as int));
    assert(serials.to_set().contains(serial as int));
    let k = choose|k: int| 0 <= k < serials.len() && serials[k] == serial as int;
    if k < pool.finished.len() {
        assert(pool.finished[k] == serial);
    } else {
        assert(held[k - pool.finished.len()] == serial);
    }
}

/// When the teardown is over, each accepted job ran to its end exactly once:
/// every serial number below the number of accepted jobs is among the jobs
/// that ended, and none is there twice.
pub proof fn lemma_every_job_ends_once<J>(pool: PoolView<J>)
    requires
        pool.inv(),
        pool.torn_down(),
    ensures
        pool.finished.no_duplicates(),
        pool.finished.len() == pool.accepted.len(),
        forall|serial: nat| serial < pool.accepted.len() ==> pool.finished.contains(serial),
{
    lemma_teardown_runs_every_job(pool);
    assert forall|serial: nat| serial < pool.accepted.len() implies pool.finished.contains(
        serial,
    ) by {
        lemma_delivered_jobs_accounted_for(pool, serial);
    }
}

/// No job is lost and none is counted twice. Take a new pool of any positive
/// size, let any moves happen while it is open, close it, and let any moves
/// happen until the teardown is over. Then the jobs handed to workers are
/// the jobs that were submitted while the pool was open, in the order of
/// submission, and each of them ran to its end exactly once.
pub proof fn lemma_no_job_lost_or_repeated<J>(
    size: nat,
    before: Seq<Step<J>>,
    after: Seq<Step<J>>,
)
    requires
        size > 0,
        PoolView::<J>::init(size).run(before).is_open(),
        PoolView::<J>::init(size).run(before).close().run(after).torn_down(),
    ensures
        ({
            let end = PoolView::<J>::init(size).run(before).close().run(after);
            &&& end.accepted == submissions(before)
            &&& end.delivered == submissions(before)
            &&& end.completed() == submissions(before).len()
            &&& end.finished.no_duplicates()
            &&& forall|serial: nat|
                serial < submissions(before).len() ==> end.finished.contains(serial)
        }),
{
    let start = PoolView::<J>::init(size);
    let open = start.run(before);
    let closed = open.close();
    let end = closed.run(after);
    lemma_init_inv::<J>(size);
    lemma_run_inv(start, before);
    lemma_close_inv(open);
    lemma_run_inv(closed, after);
    lemma_open_run(start, before);
    lemma_closed_run(closed, after);
    lemma_teardown_runs_every_job(end);
    lemma_every_job_ends_once(end);
    assert(start.accepted + submissions(before) =~= submissions(before));
}

} // verus!
