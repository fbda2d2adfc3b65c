//! The pool: a fixed set of workers, the dispatch queue that feeds them, and
//! the two-phase teardown.
//!
//! The pool decides and keeps the books; it starts no thread and never
//! waits. Whoever drives it reports what happened (a worker asks for a job, a
//! job ran to its end, a worker's thread returned) and is told what to do
//! next.

use crate::error::PoolError;
use crate::model::PoolView;
use crate::preservation::{
    lemma_close_inv, lemma_complete_inv, lemma_init_inv, lemma_join_inv, lemma_receive_inv,
    lemma_retire_inv, lemma_submit_inv,
};
use crate::queue::{DispatchQueue, Lifecycle, Received};
use crate::worker::{Worker, WorkerState, WorkerView};
use vstd::prelude::*;

verus! {

/// How far a teardown has come.
#[derive(Clone, Copy, Debug, PartialEq, Eq, Structural)]
pub enum Teardown {
    /// The pool is closed and every worker was joined.
    Complete,
    /// The pool is closed and every worker with a smaller number was joined;
    /// the thread of the worker with this number has not returned yet.
    WaitingFor(usize),
}

/// A fixed-size pool of workers that take jobs of type `J` from one
/// first-in-first-out queue.
pub struct ThreadPool<J> {
    workers: Vec<Worker>,
    queue: DispatchQueue<J>,
    joined: usize,
    accepted: Ghost<Seq<J>>,
    delivered: Ghost<Seq<J>>,
    finished: Ghost<Seq<nat>>,
}

impl<J> View for ThreadPool<J> {
    type V = PoolView<J>;

    closed spec fn view(&self) -> PoolView<J> {
        PoolView {
            queue: self.queue@,
            workers: Seq::new(self.workers@.len(), |i: int| self.workers@[i]@),
            joined: self.joined as nat,
            accepted: self.accepted@,
            delivered: self.delivered@,
            finished: self.finished@,
        }
    }
}

impl<J> ThreadPool<J> {
    /// Every worker is recorded under its position.
    pub closed spec fn numbered(&self) -> bool {
        forall|i: int| 0 <= i < self.workers@.len() ==> (#[trigger] self.workers@[i]).spec_id() == i
    }

    /// The pool is well formed: its state satisfies the invariant of the
    /// state machine and its workers are numbered by position.
    pub open spec fn wf(&self) -> bool {
        &&& self@.inv()
        &&& self.numbered()
    }

    /// Creates a pool of `size` workers, numbered from zero, all running and
    /// waiting for jobs. A pool without workers is refused.
    pub fn new(size: usize) -> (result: Result<ThreadPool<J>, PoolError>)
        ensures
            result is Err <==> size == 0,
            result matches Err(error) ==> error == PoolError::InvalidSize,
            result matches Ok(pool) ==> pool.wf() && pool@ == PoolView::<J>::init(size as nat),
    {
        if size == 0 {
            return Err(PoolError::InvalidSize);
        }
        let mut workers: Vec<Worker> = Vec::new();
        let mut id: usize = 0;
        while id < size
            invariant
                id <= size,
                workers@.len() == id,
                forall|i: int|
                    0 <= i < id ==> (#[trigger] workers@[i])@ == WorkerView::fresh()
                        && workers@[i].spec_id() == i,
            decreases size - id,
        {
            workers.push(Worker::new(id));
            id += 1;
        }
        let pool = ThreadPool {
            workers,
            queue: DispatchQueue::new(),
            joined: 0,
            accepted: Ghost(Seq::empty()),
            delivered: Ghost(Seq::empty()),
            finished: Ghost(Seq::empty()),
        };
        proof {
            lemma_init_inv::<J>(size as nat);
            assert(pool@ =~= PoolView::<J>::init(size as nat));
        }
        Ok(pool)
    }

    /// Submits `job`. An open pool puts it behind everything pending and
    /// returns at once; a pool that is shutting down refuses it.
    pub fn execute(&mut self, job: J) -> (result: Result<(), PoolError>)
        requires
            old(self).wf(),
        ensures
            final(self).wf(),
            final(self)@ == old(self)@.submit(job),
            result is Ok <==> old(self)@.is_open(),
            result matches Err(error) ==> error == PoolError::ShuttingDown,
    {
        let ghost submitted = job;
        match self.queue.send(job) {
            Ok(()) => {
                self.accepted = Ghost(self.accepted@.push(submitted));
                proof {
                    lemma_submit_inv(old(self)@, submitted);
                    assert(self@ =~= old(self)@.submit(submitted));
                }
                Ok(())
            },
            Err(_) => Err(PoolError::ShuttingDown),
        }
    }

    /// Makes one attempt to receive on behalf of the worker numbered `id`.
    ///
    /// The answer is `None` where no such worker exists or the worker is not
    /// about to receive (it has a job in hand, or it already saw the
    /// disconnection). Otherwise the worker gets the oldest pending job; or,
    /// with nothing pending, it is told to wait while the pool is open and
    /// sees the disconnection once the pool is closed.
    pub fn receive(&mut self, id: usize) -> (received: Option<Received<J>>)
        requires
            old(self).wf(),
        ensures
            final(self).wf(),
            final(self)@ == old(self)@.receive(id as nat),
            received == (if old(self)@.can_receive(id as nat) {
                Some(old(self)@.queue.next())
            } else {
                None
            }),
    {
        if id >= self.workers.len() {
            return None;
        }
        let worker = self.workers[id];
        if worker.is_busy() {
            return None;
        }
        match worker.state() {
            WorkerState::Running => {},
            _ => {
                return None;
            },
        }
        let received = self.queue.receive();
        match &received {
            Received::Job(job) => {
                self.workers.set(id, worker.start(Ghost(self.delivered@.len())));
                self.delivered = Ghost(self.delivered@.push(*job));
            },
            Received::Empty => {},
            Received::Disconnected => {
                self.workers.set(id, worker.disconnect());
            },
        }
        proof {
            lemma_receive_inv(old(self)@, id as nat);
            assert(self@ =~= old(self)@.receive(id as nat));
        }
        Some(received)
    }

    /// Records that the job in the hand of the worker numbered `id` ran to
    /// its end. Returns whether there was such a worker with a job in hand.
    pub fn complete(&mut self, id: usize) -> (done: bool)
        requires
            old(self).wf(),
        ensures
            final(self).wf(),
            final(self)@ == old(self)@.complete(id as nat),
            done == old(self)@.can_complete(id as nat),
    {
        if id >= self.workers.len() {
            return false;
        }
        let worker = self.workers[id];
        if !worker.is_busy() {
            return false;
        }
        self.workers.set(id, worker.finish());
        self.finished = Ghost(self.finished@.push(worker@.current->0));
        proof {
            lemma_complete_inv(old(self)@, id as nat);
            assert(self@ =~= old(self)@.complete(id as nat));
        }
        true
    }

    /// Records that the thread of the worker numbered `id` returned. Returns
    /// whether there was such a worker on its way out.
    pub fn retire(&mut self, id: usize) -> (done: bool)
        requires
            old(self).wf(),
        ensures
            final(self).wf(),
            final(self)@ == old(self)@.retire(id as nat),
            done == old(self)@.can_retire(id as nat),
    {
        if id >= self.workers.len() {
            return false;
        }
        let worker = self.workers[id];
        match worker.state() {
            WorkerState::ShuttingDown => {},
            _ => {
                return false;
            },
        }
        self.workers.set(id, worker.exit());
        proof {
            lemma_retire_inv(old(self)@, id as nat);
            assert(self@ =~= old(self)@.retire(id as nat));
        }
        true
    }

    /// Begins the teardown: releases the submitting side. Pending jobs stay
    /// and will still be delivered; nothing more is accepted.
    pub fn shutdown(&mut self)
        requires
            old(self).wf(),
        ensures
            final(self).wf(),
            final(self)@ == old(self)@.close(),
    {
        self.queue.close();
        proof {
            lemma_close_inv(old(self)@);
            assert(self@ =~= old(self)@.close());
        }
    }

    /// Tears the pool down as far as that goes without waiting.
    ///
    /// First the submitting side is released. Then the workers are joined in
    /// ascending order of their numbers, up to the first whose thread has not
    /// returned. The answer names that worker, or says that the teardown is
    /// over.
    pub fn teardown(&mut self) -> (progress: Teardown)
        requires
            old(self).wf(),
        ensures
            final(self).wf(),
            final(self)@ == old(self)@.teardown(),
            progress == (if final(self)@.torn_down() {
                Teardown::Complete
            } else {
                Teardown::WaitingFor(final(self)@.joined as usize)
            }),
    {
        self.shutdown();
        while self.joined < self.workers.len()
            invariant
                self.wf(),
                !self@.is_open(),
                self@.join_ready() == old(self)@.teardown(),
            decreases self.workers@.len() - self.joined,
        {
            match self.workers[self.joined].state() {
                WorkerState::Terminated => {},
                _ => {
                    return Teardown::WaitingFor(self.joined);
                },
            }
            proof {
                lemma_join_inv(self@);
            }
            let ghost before = self@;
            self.joined = self.joined + 1;
            assert(self@ =~= before.join());
        }
        Teardown::Complete
    }

    /// The number of workers.
    pub fn size(&self) -> (size: usize)
        requires
            self.wf(),
        ensures
            size == self@.size(),
            size > 0,
    {
        self.workers.len()
    }

    /// Whether the pool still accepts jobs.
    pub fn is_open(&self) -> (open: bool)
        ensures
            open == self@.is_open(),
    {
        match self.queue.lifecycle() {
            Lifecycle::Open => true,
            Lifecycle::Closed => false,
        }
    }

    /// The number of jobs that wait in the queue.
    pub fn pending(&self) -> (pending: usize)
        ensures
            pending == self@.queue.jobs.len(),
    {
        self.queue.len()
    }

    /// The record of the worker numbered `id`, if there is one.
    pub fn worker(&self, id: usize) -> (worker: Option<Worker>)
        requires
            self.wf(),
        ensures
            worker is Some <==> id < self@.size(),
            worker matches Some(found) ==> found@ == self@.workers[id as int] && found.spec_id()
                == id,
    {
        if id < self.workers.len() {
            Some(self.workers[id])
        } else {
            None
        }
    }
}

} // verus!
