//! The dispatch queue: an unbounded first-in-first-out channel that carries
//! jobs from the submitting side to whichever worker asks next.

use std::collections::VecDeque;
use vstd::prelude::*;

verus! {

/// Whether the submitting side of the queue is still held.
///
/// The only transition is from `Open` to `Closed`.
#[derive(Clone, Copy, Debug, PartialEq, Eq, Structural)]
pub enum Lifecycle {
    /// Jobs are accepted.
    Open,
    /// The submitting side was released: nothing more is accepted, and once
    /// the queue has drained the receiving side sees the disconnection.
    Closed,
}

/// What one attempt to receive from the queue yields.
pub enum Received<J> {
    /// The oldest pending job, now owned by the receiver.
    Job(J),
    /// Nothing is pending but the queue is still open: the receiver has to
    /// wait and ask again.
    Empty,
    /// Nothing is pending and nothing will ever come.
    Disconnected,
}

/// The queue as a mathematical value: the pending jobs, oldest first, and the
/// state of the submitting side.
#[verifier::ext_equal]
pub struct QueueView<J> {
    pub jobs: Seq<J>,
    pub lifecycle: Lifecycle,
}

impl<J> QueueView<J> {
    /// An open queue with nothing pending.
    pub open spec fn empty() -> Self {
        QueueView { jobs: Seq::empty(), lifecycle: Lifecycle::Open }
    }

    /// The queue after `job` was offered to it: appended behind everything
    /// pending while the queue is open, refused once it is closed.
    pub open spec fn send(self, job: J) -> Self {
        match self.lifecycle {
            Lifecycle::Open => QueueView { jobs: self.jobs.push(job), ..self },
            Lifecycle::Closed => self,
        }
    }

    /// What the next attempt to receive yields.
    pub open spec fn next(self) -> Received<J> {
        if self.jobs.len() > 0 {
            Received::Job(self.jobs[0])
        } else {
            match self.lifecycle {
                Lifecycle::Open => Received::Empty,
                Lifecycle::Closed => Received::Disconnected,
            }
        }
    }

    /// The queue after one attempt to receive: without its oldest job, if it
    /// had one.
    pub open spec fn receive(self) -> Self {
        if self.jobs.len() > 0 {
            QueueView { jobs: self.jobs.drop_first(), ..self }
        } else {
            self
        }
    }

    /// The queue after the submitting side was released. Pending jobs stay.
    pub open spec fn close(self) -> Self {
        QueueView { lifecycle: Lifecycle::Closed, ..self }
    }
}

/// An unbounded first-in-first-out queue of jobs with a submitting side that
/// can be released once.
pub struct DispatchQueue<J> {
    jobs: VecDeque<J>,
    lifecycle: Lifecycle,
}

impl<J> View for DispatchQueue<J> {
    type V = QueueView<J>;

    closed spec fn view(&self) -> QueueView<J> {
        QueueView { jobs: self.jobs@, lifecycle: self.lifecycle }
    }
}

impl<J> DispatchQueue<J> {
    /// Creates an open queue with nothing pending.
    pub fn new() -> (queue: Self)
        ensures
            queue@ == QueueView::<J>::empty(),
    {
        DispatchQueue { jobs: VecDeque::new(), lifecycle: Lifecycle::Open }
    }

    /// Offers `job` to the queue. An open queue takes it behind everything
    /// pending; a closed queue hands it back untouched.
    pub fn send(&mut self, job: J) -> (result: Result<(), J>)
        ensures
            final(self)@ == old(self)@.send(job),
            result == (match old(self)@.lifecycle {
                Lifecycle::Open => Ok::<(), J>(()),
                Lifecycle::Closed => Err::<(), J>(job),
            }),
    {
        match self.lifecycle {
            Lifecycle::Open => {
                self.jobs.push_back(job);
                Ok(())
            },
            Lifecycle::Closed => Err(job),
        }
    }

    /// Makes one attempt to receive. Never waits: where a blocking receive
    /// would wait, the answer is `Received::Empty`.
    pub fn receive(&mut self) -> (received: Received<J>)
        ensures
            final(self)@ == old(self)@.receive(),
            received == old(self)@.next(),
    {
        match self.jobs.pop_front() {
            Some(job) => Received::Job(job),
            None => match self.lifecycle {
                Lifecycle::Open => Received::Empty,
                Lifecycle::Closed => Received::Disconnected,
            },
        }
    }

    /// Releases the submitting side. Jobs already pending stay in the queue.
    pub fn close(&mut self)
        ensures
            final(self)@ == old(self)@.close(),
    {
        self.lifecycle = Lifecycle::Closed;
    }

    /// The number of pending jobs.
    pub fn len(&self) -> (len: usize)
        ensures
            len == self@.jobs.len(),
    {
        self.jobs.len()
    }

    /// The state of the submitting side.
    pub fn lifecycle(&self) -> (lifecycle: Lifecycle)
        ensures
            lifecycle == self@.lifecycle,
    {
        self.lifecycle
    }
}

} // verus!
