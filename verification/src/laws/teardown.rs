//! The teardown: it closes before it joins, it waits for every running job,
//! it needs no waiting where nothing runs, and it comes to an end.

use crate::laws::delivery::lemma_closed_is_final;
use crate::model::{moves_left, PoolView, Step};
use crate::preservation::{
    lemma_close_inv, lemma_init_inv, lemma_receive_inv, lemma_retire_inv, lemma_step_inv,
};
use crate::queue::Received;
use crate::worker::WorkerView;
use vstd::prelude::*;

verus! {

/// Joining changes nothing but how many workers were joined, and that
/// number never goes down.
pub proof fn lemma_join_ready_keeps<J>(pool: PoolView<J>)
    ensures
        pool.join_ready() == (PoolView { joined: pool.join_ready().joined, ..pool }),
        pool.join_ready().joined >= pool.joined,
    decreases pool.size() - pool.joined,
{
    if pool.can_join() {
        lemma_join_ready_keeps(pool.join());
    }
}

/// The joining never passes a worker whose thread has not returned.
pub proof fn lemma_join_ready_stops<J>(pool: PoolView<J>, id: nat)
    requires
        pool.joined <= id < pool.size(),
        !(pool.workers[id as int].state is Terminated),
    ensures
        pool.join_ready().joined <= id,
    decreases pool.size() - pool.joined,
{
    if pool.can_join() {
        lemma_join_ready_stops(pool.join(), id);
    }
}

/// The joining goes exactly as far as the threads have returned: where the
/// workers from the first not yet joined up to `upto` have returned, and the
/// worker numbered `upto`, if there is one, has not, the workers below
/// `upto` are joined and nothing else changes.
pub proof fn lemma_join_ready_exact<J>(pool: PoolView<J>, upto: nat)
    requires
        pool.joined <= upto <= pool.size(),
        forall|w: int| pool.joined <= w < upto ==> (#[trigger] pool.workers[w]).state is Terminated,
        upto < pool.size() ==> !(pool.workers[upto as int].state is Terminated),
    ensures
        pool.join_ready() == (PoolView { joined: upto, ..pool }),
    decreases pool.size() - pool.joined,
{
    if pool.can_join() {
        assert(pool.joined < upto) by {
            if pool.joined == upto {
                assert(!(pool.workers[upto as int].state is Terminated));
            }
        }
        lemma_join_ready_exact(pool.join(), upto);
    } else {
        assert(pool.joined == upto) by {
            if pool.joined < upto {
                assert(pool.workers[pool.joined as int].state is Terminated);
            }
        }
        assert(pool =~= (PoolView { joined: upto, ..pool }));
    }
}

/// The teardown has its two phases in this order for a reason: while the
/// pool is open every worker is running, so no join can return and none was
/// made.
pub proof fn lemma_join_needs_close<J>(pool: PoolView<J>)
    requires
        pool.inv(),
        pool.is_open(),
    ensures
        pool.joined == 0,
        !pool.can_join(),
        pool.join() == pool,
        pool.join_ready() == pool,
        forall|w: int| 0 <= w < pool.size() ==> (#[trigger] pool.workers[w]).state is Running,
{
    assert(pool.joined == 0) by {
        if pool.joined > 0 {
            assert(pool.workers[0].state is Terminated);
        }
    }
    assert(pool.workers[0].state is Running);
}

/// Beginning a teardown closes the pool and discards nothing: the jobs that
/// were pending are still pending, in the same order, and the workers and
/// the history are untouched.
pub proof fn lemma_teardown_keeps_pending<J>(pool: PoolView<J>)
    ensures
        !pool.close().is_open(),
        pool.close().queue.jobs == pool.queue.jobs,
        !pool.teardown().is_open(),
        pool.teardown().queue.jobs == pool.queue.jobs,
        pool.teardown().workers == pool.workers,
        pool.teardown().accepted == pool.accepted,
        pool.teardown().delivered == pool.delivered,
        pool.teardown().finished == pool.finished,
        pool.teardown().joined >= pool.joined,
{
    lemma_join_ready_keeps(pool.close());
}

/// A teardown may be asked for again and again: while nothing else moves, a
/// second teardown changes nothing.
pub proof fn lemma_teardown_is_idempotent<J>(pool: PoolView<J>)
    ensures
        pool.teardown().teardown() == pool.teardown(),
{
    let once = pool.teardown();
    lemma_join_ready_keeps(pool.close());
    assert(once.close() =~= once);
    lemma_join_ready_rests(pool.close());
}

/// Where the joining has stopped, no join returns.
pub proof fn lemma_join_ready_rests<J>(pool: PoolView<J>)
    ensures
        !pool.join_ready().can_join(),
        pool.join_ready().join_ready() == pool.join_ready(),
    decreases pool.size() - pool.joined,
{
    if pool.can_join() {
        lemma_join_ready_rests(pool.join());
    }
}

/// A job that is still running holds the teardown back: while a worker has a
/// job in hand, the teardown is not over, and a teardown made now stops at
/// that worker or before it.
pub proof fn lemma_running_job_holds_teardown<J>(pool: PoolView<J>, id: nat)
    requires
        pool.inv(),
        id < pool.size(),
        pool.workers[id as int].is_busy(),
    ensures
        !pool.torn_down(),
        pool.teardown().joined <= id,
        !pool.teardown().torn_down(),
{
    lemma_join_ready_stops(pool.close(), id);
    lemma_join_ready_keeps(pool.close());
}

/// A closed pool with nothing pending and nothing in flight winds down
/// without anyone waiting: each worker that asks is told of the
/// disconnection at once, and when the workers' threads have returned the
/// teardown joins them all.
pub proof fn lemma_idle_pool_winds_down<J>(pool: PoolView<J>, count: nat)
    requires
        pool.inv(),
        !pool.is_open(),
        pool.queue.jobs.len() == 0,
        forall|w: int| 0 <= w < pool.size() ==> (#[trigger] pool.workers[w]).is_idle(),
        count <= pool.size(),
    ensures
        pool.wind_down(count).inv(),
        pool.wind_down(count).queue == pool.queue,
        pool.wind_down(count).joined == pool.joined,
        pool.wind_down(count).size() == pool.size(),
        pool.wind_down(count).queue.next() == Received::<J>::Disconnected,
        forall|w: int|
            0 <= w < count ==> (#[trigger] pool.wind_down(count).workers[w]).state is Terminated,
        forall|w: int|
            count <= w < pool.size() ==> (#[trigger] pool.wind_down(count).workers[w]).is_idle(),
        count == pool.size() ==> pool.wind_down(count).teardown().torn_down(),
    decreases count,
{
    if count > 0 {
        let id = (count - 1) as nat;
        let earlier = pool.wind_down(id);
        lemma_idle_pool_winds_down(pool, id);
        assert(earlier.workers[id as int].is_idle());
        lemma_receive_inv(earlier, id);
        lemma_retire_inv(earlier.receive(id), id);
    }
    let end = pool.wind_down(count);
    if count == pool.size() {
        assert(end.joined == 0) by {
            if end.joined > 0 {
                assert(pool.workers[0].is_idle());
            }
        }
        assert(end.close() =~= end);
        lemma_join_ready_exact(end.close(), pool.size());
    }
}

/// Tearing down a pool that never got a job needs no waiting: the workers
/// of a new pool, once it is closed, see the disconnection at their first
/// attempt to receive, and when their threads have returned the teardown is
/// over.
pub proof fn lemma_unused_pool_tears_down<J>(size: nat)
    requires
        size > 0,
    ensures
        PoolView::<J>::init(size).teardown() == PoolView::<J>::init(size).close(),
        PoolView::<J>::init(size).close().queue.next() == Received::<J>::Disconnected,
        PoolView::<J>::init(size).close().wind_down(size).teardown().torn_down(),
{
    let start = PoolView::<J>::init(size);
    lemma_init_inv::<J>(size);
    lemma_close_inv(start);
    lemma_idle_pool_winds_down(start.close(), size);
    assert(!start.close().can_join());
}

/// Replacing one worker changes the number of moves that the workers have
/// left by what that worker has left before and after.
pub proof fn lemma_moves_left_update(workers: Seq<WorkerView>, id: int, worker: WorkerView)
    requires
        0 <= id < workers.len(),
    ensures
        moves_left(workers.update(id, worker)) + workers[id].remaining() == moves_left(workers)
            + worker.remaining(),
    decreases workers.len(),
{
    let updated = workers.update(id, worker);
    if id == workers.len() - 1 {
        assert(updated.drop_last() =~= workers.drop_last());
    } else {
        assert(updated.drop_last() =~= workers.drop_last().update(id, worker));
        lemma_moves_left_update(workers.drop_last(), id, worker);
    }
}

/// The workers have no moves left exactly where none of them has.
pub proof fn lemma_moves_left_zero(workers: Seq<WorkerView>)
    ensures
        moves_left(workers) == 0 <==> forall|w: int|
            0 <= w < workers.len() ==> (#[trigger] workers[w]).remaining() == 0,
    decreases workers.len(),
{
    if workers.len() > 0 {
        let earlier = workers.drop_last();
        lemma_moves_left_zero(earlier);
        if moves_left(workers) == 0 {
            assert forall|w: int| 0 <= w < workers.len() implies (
            #[trigger] workers[w]).remaining() == 0 by {
                if w < earlier.len() {
                    assert(earlier[w].remaining() == 0);
                }
            }
        }
        if forall|w: int| 0 <= w < workers.len() ==> (#[trigger] workers[w]).remaining() == 0 {
            assert forall|w: int| 0 <= w < earlier.len() implies (
            #[trigger] earlier[w]).remaining() == 0 by {
                assert(workers[w].remaining() == 0);
            }
            assert(workers.last().remaining() == 0);
        }
    }
}

/// In a closed pool every move either changes nothing or brings the end of
/// the teardown one move closer.
pub proof fn lemma_closed_step_counts_down<J>(pool: PoolView<J>, step: Step<J>)
    requires
        pool.inv(),
        !pool.is_open(),
    ensures
        pool.step(step) == pool || pool.step(step).remaining() + 1 == pool.remaining(),
{
    let next = pool.step(step);
    match step {
        Step::Submit(_) => {},
        Step::Receive(id) => {
            if pool.can_receive(id) {
                lemma_moves_left_update(pool.workers, id as int, next.workers[id as int]);
            }
        },
        Step::Complete(id) => {
            if pool.can_complete(id) {
                lemma_moves_left_update(pool.workers, id as int, next.workers[id as int]);
            }
        },
        Step::Retire(id) => {
            if pool.can_retire(id) {
                lemma_moves_left_update(pool.workers, id as int, next.workers[id as int]);
            }
        },
        Step::Close => {
            assert(pool.close() =~= pool);
        },
        Step::Join => {},
    }
}

/// The teardown is over exactly when the pool is closed and has no moves
/// left.
pub proof fn lemma_torn_down_is_nothing_left<J>(pool: PoolView<J>)
    requires
        pool.inv(),
    ensures
        pool.torn_down() <==> !pool.is_open() && pool.remaining() == 0,
{
    lemma_moves_left_zero(pool.workers);
    if pool.torn_down() {
        assert(pool.workers[0].state is Terminated);
        assert forall|w: int| 0 <= w < pool.workers.len() implies (
        #[trigger] pool.workers[w]).remaining() == 0 by {}
    }
    if !pool.is_open() && pool.remaining() == 0 {
        assert(pool.joined == pool.workers.len());
    }
}

/// A closed pool is never stuck: while its teardown is not over, there is a
/// move that brings the end one move closer.
pub proof fn lemma_closed_pool_can_move<J>(pool: PoolView<J>)
    requires
        pool.inv(),
        !pool.is_open(),
        !pool.torn_down(),
    ensures
        pool.step(pool.next_move()).remaining() + 1 == pool.remaining(),
        pool.step(pool.next_move()).inv(),
        !pool.step(pool.next_move()).is_open(),
{
    let step = pool.next_move();
    let next = pool.step(step);
    let id = pool.joined;
    lemma_step_inv(pool, step);
    lemma_closed_is_final(pool, step);
    match step {
        Step::Join => {},
        _ => {
            lemma_moves_left_update(pool.workers, id as int, next.workers[id as int]);
        },
    }
}

/// The teardown of a closed pool comes to an end: the number of moves left
/// says exactly how many moves bring it there.
pub proof fn lemma_teardown_comes_to_an_end<J>(pool: PoolView<J>, moves: nat)
    requires
        pool.inv(),
        !pool.is_open(),
        moves <= pool.remaining(),
    ensures
        pool.drain(moves).inv(),
        !pool.drain(moves).is_open(),
        pool.drain(moves).remaining() + moves == pool.remaining(),
        moves == pool.remaining() ==> pool.drain(moves).torn_down(),
    decreases moves,
{
    if moves > 0 {
        let earlier = pool.drain((moves - 1) as nat);
        lemma_teardown_comes_to_an_end(pool, (moves - 1) as nat);
        lemma_torn_down_is_nothing_left(earlier);
        lemma_closed_pool_can_move(earlier);
    }
    lemma_torn_down_is_nothing_left(pool.drain(moves));
}

} // verus!
