//! The pool as a mathematical state machine: its state, the moves that the
//! submitting side, the workers and the tearing-down side can make, and the
//! invariant that every move keeps.

use crate::queue::{QueueView, Received};
use crate::worker::{WorkerState, WorkerView};
use vstd::prelude::*;

verus! {

/// The number of workers that have a job in hand.
pub open spec fn busy_count(workers: Seq<WorkerView>) -> nat
    decreases workers.len(),
{
    if workers.len() == 0 {
        0
    } else {
        busy_count(workers.drop_last()) + if workers.last().is_busy() {
            1nat
        } else {
            0nat
        }
    }
}

/// No two workers hold the same job.
pub open spec fn hold_distinct_jobs(workers: Seq<WorkerView>) -> bool {
    forall|v: int, w: int|
        #![trigger workers[v], workers[w]]
        0 <= v < w < workers.len() && workers[v].is_busy() && workers[w].is_busy()
            ==> workers[v].current != workers[w].current
}

/// The serial numbers of the jobs that the workers have in hand, in the
/// order of the workers.
pub open spec fn in_hand(workers: Seq<WorkerView>) -> Seq<nat>
    decreases workers.len(),
{
    if workers.len() == 0 {
        Seq::empty()
    } else if workers.last().is_busy() {
        in_hand(workers.drop_last()).push(workers.last().current->0)
    } else {
        in_hand(workers.drop_last())
    }
}

/// The number of moves that the workers make from here until all their
/// threads have returned, if they get no further job.
pub open spec fn moves_left(workers: Seq<WorkerView>) -> nat
    decreases workers.len(),
{
    if workers.len() == 0 {
        0
    } else {
        moves_left(workers.drop_last()) + workers.last().remaining()
    }
}

/// The pool as a mathematical value.
///
/// Besides what the pool holds (the queue, the workers, how far the joining
/// has come) the value keeps the history that the guarantees speak of: every
/// job ever accepted, every job ever handed to a worker, and which jobs ran
/// to their end. A job is known by its serial number: its position among the
/// jobs accepted, which is also its position among the jobs delivered.
#[verifier::ext_equal]
pub struct PoolView<J> {
    /// The dispatch queue.
    pub queue: QueueView<J>,
    /// The workers; a worker's number is its position.
    pub workers: Seq<WorkerView>,
    /// How many workers were joined; they are the workers numbered below it.
    pub joined: nat,
    /// Every job ever accepted, in the order of submission.
    pub accepted: Seq<J>,
    /// Every job ever handed to a worker, in the order of delivery.
    pub delivered: Seq<J>,
    /// The serial numbers of the jobs that ran to their end, in the order in
    /// which they ended.
    pub finished: Seq<nat>,
}

/// One move of the pool.
pub enum Step<J> {
    /// A caller submits a job.
    Submit(J),
    /// The worker with this number makes one attempt to receive.
    Receive(nat),
    /// The job in the hand of the worker with this number ran to its end.
    Complete(nat),
    /// The thread of the worker with this number returns.
    Retire(nat),
    /// The submitting side is released.
    Close,
    /// The tearing-down side joins the next worker.
    Join,
}

/// The jobs that a sequence of moves submits, in the order of submission.
pub open spec fn submissions<J>(steps: Seq<Step<J>>) -> Seq<J>
    decreases steps.len(),
{
    if steps.len() == 0 {
        Seq::empty()
    } else {
        let earlier = submissions(steps.drop_last());
        match steps.last() {
            Step::Submit(job) => earlier.push(job),
            _ => earlier,
        }
    }
}

impl<J> PoolView<J> {
    /// A new pool of `size` workers: open, nothing pending, every worker
    /// running with no job in hand, nothing in the history.
    pub open spec fn init(size: nat) -> Self {
        PoolView {
            queue: QueueView::empty(),
            workers: Seq::new(size, |i: int| WorkerView::fresh()),
            joined: 0,
            accepted: Seq::empty(),
            delivered: Seq::empty(),
            finished: Seq::empty(),
        }
    }

    /// The number of workers.
    pub open spec fn size(self) -> nat {
        self.workers.len()
    }

    /// Whether the pool still accepts jobs.
    pub open spec fn is_open(self) -> bool {
        self.queue.lifecycle is Open
    }

    /// The number of jobs that ran to their end.
    pub open spec fn completed(self) -> nat {
        self.finished.len()
    }

    /// The number of jobs in the hands of workers.
    pub open spec fn in_flight(self) -> nat {
        busy_count(self.workers)
    }

    /// The pool after `job` was submitted: an open pool puts it behind
    /// everything pending, a closed pool stays as it is.
    pub open spec fn submit(self, job: J) -> Self {
        if self.is_open() {
            PoolView { queue: self.queue.send(job), accepted: self.accepted.push(job), ..self }
        } else {
            self
        }
    }

    /// Whether the worker numbered `id` exists and is about to receive.
    pub open spec fn can_receive(self, id: nat) -> bool {
        id < self.workers.len() && self.workers[id as int].is_idle()
    }

    /// The pool after the worker numbered `id` made one attempt to receive.
    ///
    /// With a job pending, the worker takes the oldest one. With nothing
    /// pending the worker sees the disconnection if the pool is closed, and
    /// nothing changes if the pool is open.
    pub open spec fn receive(self, id: nat) -> Self {
        if self.can_receive(id) {
            match self.queue.next() {
                Received::Job(job) => PoolView {
                    queue: self.queue.receive(),
                    workers: self.workers.update(
                        id as int,
                        self.workers[id as int].start(self.delivered.len()),
                    ),
                    delivered: self.delivered.push(job),
                    ..self
                },
                Received::Empty => self,
                Received::Disconnected => PoolView {
                    workers: self.workers.update(id as int, self.workers[id as int].disconnect()),
                    ..self
                },
            }
        } else {
            self
        }
    }

    /// Whether the worker numbered `id` exists and has a job in hand.
    pub open spec fn can_complete(self, id: nat) -> bool {
        id < self.workers.len() && self.workers[id as int].is_busy()
    }

    /// The pool after the job in the hand of the worker numbered `id` ran to
    /// its end.
    pub open spec fn complete(self, id: nat) -> Self {
        if self.can_complete(id) {
            PoolView {
                workers: self.workers.update(id as int, self.workers[id as int].finish()),
                finished: self.finished.push(self.workers[id as int].current->0),
                ..self
            }
        } else {
            self
        }
    }

    /// Whether the worker numbered `id` exists and is leaving its loop.
    pub open spec fn can_retire(self, id: nat) -> bool {
        id < self.workers.len() && self.workers[id as int].state is ShuttingDown
    }

    /// The pool after the thread of the worker numbered `id` returned.
    pub open spec fn retire(self, id: nat) -> Self {
        if self.can_retire(id) {
            PoolView {
                workers: self.workers.update(id as int, self.workers[id as int].exit()),
                ..self
            }
        } else {
            self
        }
    }

    /// The pool after its submitting side was released.
    pub open spec fn close(self) -> Self {
        PoolView { queue: self.queue.close(), ..self }
    }

    /// Whether a join would return at once: the next worker to join exists
    /// and its thread has returned.
    pub open spec fn can_join(self) -> bool {
        self.joined < self.workers.len() && self.workers[self.joined as int].state is Terminated
    }

    /// The pool after the next worker was joined, if that join returns.
    pub open spec fn join(self) -> Self {
        if self.can_join() {
            PoolView { joined: self.joined + 1, ..self }
        } else {
            self
        }
    }

    /// The pool after every join that returns at once was made, in ascending
    /// order of the workers' numbers.
    pub open spec fn join_ready(self) -> Self
        decreases self.workers.len() - self.joined,
    {
        if self.can_join() {
            self.join().join_ready()
        } else {
            self
        }
    }

    /// The pool after a teardown went as far as it can without waiting:
    /// first the submitting side is released, then the workers are joined.
    pub open spec fn teardown(self) -> Self {
        self.close().join_ready()
    }

    /// Whether the teardown is over: the pool is closed and every worker was
    /// joined.
    pub open spec fn torn_down(self) -> bool {
        !self.is_open() && self.joined == self.workers.len()
    }

    /// The pool after one move.
    pub open spec fn step(self, step: Step<J>) -> Self {
        match step {
            Step::Submit(job) => self.submit(job),
            Step::Receive(id) => self.receive(id),
            Step::Complete(id) => self.complete(id),
            Step::Retire(id) => self.retire(id),
            Step::Close => self.close(),
            Step::Join => self.join(),
        }
    }

    /// The pool after a sequence of moves, made from first to last.
    pub open spec fn run(self, steps: Seq<Step<J>>) -> Self
        decreases steps.len(),
    {
        if steps.len() == 0 {
            self
        } else {
            self.run(steps.drop_last()).step(steps.last())
        }
    }

    /// The pool after each of the workers numbered in `ids` made one attempt
    /// to receive, in the order of `ids`, and no job came to its end
    /// meanwhile.
    pub open spec fn start_each(self, ids: Seq<nat>) -> Self
        decreases ids.len(),
    {
        if ids.len() == 0 {
            self
        } else {
            self.start_each(ids.drop_last()).receive(ids.last())
        }
    }

    /// The pool after each of the workers numbered below `count` made one
    /// attempt to receive and then let its thread return, in ascending order
    /// of their numbers.
    pub open spec fn wind_down(self, count: nat) -> Self
        decreases count,
    {
        if count == 0 {
            self
        } else {
            let id = (count - 1) as nat;
            self.wind_down(id).receive(id).retire(id)
        }
    }

    /// The number of moves that a closed pool makes from here until its
    /// teardown is over: two for each pending job (a worker receives it, and
    /// it ends), what the workers have left, and one join for each worker.
    pub open spec fn remaining(self) -> nat {
        (2 * self.queue.jobs.len() + moves_left(self.workers) + (self.workers.len()
            - self.joined)) as nat
    }

    /// A move that a closed pool can make while its teardown is not over: the
    /// next move that concerns the first worker not yet joined.
    pub open spec fn next_move(self) -> Step<J> {
        let worker = self.workers[self.joined as int];
        match worker.state {
            WorkerState::Running => if worker.is_busy() {
                Step::Complete(self.joined)
            } else {
                Step::Receive(self.joined)
            },
            WorkerState::ShuttingDown => Step::Retire(self.joined),
            WorkerState::Terminated => Step::Join,
        }
    }

    /// The pool after `moves` moves, each the next move of its time.
    pub open spec fn drain(self, moves: nat) -> Self
        decreases moves,
    {
        if moves == 0 {
            self
        } else {
            let earlier = self.drain((moves - 1) as nat);
            earlier.step(earlier.next_move())
        }
    }

    /// What holds of the pool in every state it can reach.
    ///
    /// The pool has workers. Only workers whose threads have returned were
    /// joined. The jobs accepted are those delivered followed by those
    /// pending. The jobs delivered are those that ended and those in the
    /// hands of workers; no job ended twice. A worker with a job in hand is
    /// running, and its job was delivered and has not ended. A worker leaves
    /// only when the pool is closed and nothing is pending. No two workers
    /// hold the same job.
    pub open spec fn inv(self) -> bool {
        &&& self.workers.len() > 0
        &&& self.joined <= self.workers.len()
        &&& self.accepted =~= self.delivered + self.queue.jobs
        &&& self.delivered.len() == self.finished.len() + busy_count(self.workers)
        &&& self.finished.no_duplicates()
        &&& forall|k: int|
            0 <= k < self.finished.len() ==> #[trigger] self.finished[k] < self.delivered.len()
        &&& forall|w: int|
            0 <= w < self.workers.len() ==> {
                let worker = #[trigger] self.workers[w];
                &&& w < self.joined ==> worker.state is Terminated
                &&& !(worker.state is Running) ==> !self.is_open() && self.queue.jobs.len() == 0
                &&& worker.is_busy() ==> {
                    &&& worker.state is Running
                    &&& worker.current->0 < self.delivered.len()
                    &&& !self.finished.contains(worker.current->0)
                }
            }
        &&& hold_distinct_jobs(self.workers)
    }
}

} // verus!
