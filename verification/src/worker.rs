//! One worker of the pool: its identity and the state machine that its
//! thread of execution walks through.

use vstd::prelude::*;

verus! {

/// Where a worker stands in its life.
///
/// A worker starts `Running`, becomes `ShuttingDown` when it sees the queue
/// disconnected, and `Terminated` when its thread has returned. It never
/// goes back.
#[derive(Clone, Copy, Debug, PartialEq, Eq, Structural)]
pub enum WorkerState {
    /// The worker takes jobs from the queue and runs them.
    Running,
    /// The worker saw the disconnection and is leaving its loop.
    ShuttingDown,
    /// The worker's thread has returned.
    Terminated,
}

impl WorkerState {
    /// How far along its life a worker in this state is.
    pub open spec fn rank(self) -> nat {
        match self {
            WorkerState::Running => 0,
            WorkerState::ShuttingDown => 1,
            WorkerState::Terminated => 2,
        }
    }
}

/// A worker as a mathematical value: its state and, while it runs a job, the
/// serial number of that job (its position among all jobs ever accepted).
pub struct WorkerView {
    pub state: WorkerState,
    pub current: Option<nat>,
}

impl WorkerView {
    /// A worker that was just spawned: running, with no job in hand.
    pub open spec fn fresh() -> Self {
        WorkerView { state: WorkerState::Running, current: None }
    }

    /// The worker is running and has no job in hand, so its next move is an
    /// attempt to receive one.
    pub open spec fn is_idle(self) -> bool {
        self.state is Running && self.current is None
    }

    /// The worker has a job in hand.
    pub open spec fn is_busy(self) -> bool {
        self.current is Some
    }

    /// The number of moves that the worker makes from here until its thread
    /// has returned, if it gets no further job: the end of the job in its
    /// hand, the attempt to receive that tells it of the disconnection, and
    /// the return of its thread.
    pub open spec fn remaining(self) -> nat {
        match self.state {
            WorkerState::Running => if self.is_busy() {
                3
            } else {
                2
            },
            WorkerState::ShuttingDown => 1,
            WorkerState::Terminated => 0,
        }
    }

    /// The worker after it received the job with serial number `serial`.
    pub open spec fn start(self, serial: nat) -> Self {
        WorkerView { current: Some(serial), ..self }
    }

    /// The worker after the job in its hand ran to its end.
    pub open spec fn finish(self) -> Self {
        WorkerView { current: None, ..self }
    }

    /// The worker after it saw the queue disconnected.
    pub open spec fn disconnect(self) -> Self {
        WorkerView { state: WorkerState::ShuttingDown, ..self }
    }

    /// The worker after its thread returned.
    pub open spec fn exit(self) -> Self {
        WorkerView { state: WorkerState::Terminated, ..self }
    }
}

/// The pool's record of one worker.
#[derive(Clone, Copy)]
pub struct Worker {
    id: usize,
    state: WorkerState,
    busy: bool,
    serial: Ghost<nat>,
}

impl View for Worker {
    type V = WorkerView;

    closed spec fn view(&self) -> WorkerView {
        WorkerView {
            state: self.state,
            current: if self.busy {
                Some(self.serial@)
            } else {
                None
            },
        }
    }
}

impl Worker {
    /// The worker's number within its pool.
    pub closed spec fn spec_id(&self) -> usize {
        self.id
    }

    /// Records a freshly spawned worker under the number `id`.
    pub fn new(id: usize) -> (worker: Worker)
        ensures
            worker@ == WorkerView::fresh(),
            worker.spec_id() == id,
    {
        Worker { id, state: WorkerState::Running, busy: false, serial: Ghost(0) }
    }

    /// The worker's number within its pool.
    #[verifier::when_used_as_spec(spec_id)]
    pub fn id(&self) -> (id: usize)
        ensures
            id == self.spec_id(),
    {
        self.id
    }

    /// Where the worker stands in its life.
    pub fn state(&self) -> (state: WorkerState)
        ensures
            state == self@.state,
    {
        self.state
    }

    /// Whether the worker has a job in hand.
    pub fn is_busy(&self) -> (busy: bool)
        ensures
            busy == self@.is_busy(),
    {
        self.busy
    }

    /// The record after the worker received the job numbered `serial`.
    pub(crate) fn start(&self, serial: Ghost<nat>) -> (worker: Worker)
        ensures
            worker@ == self@.start(serial@),
            worker.spec_id() == self.spec_id(),
    {
        Worker { id: self.id, state: self.state, busy: true, serial }
    }

    /// The record after the job in the worker's hand ran to its end.
    pub(crate) fn finish(&self) -> (worker: Worker)
        ensures
            worker@ == self@.finish(),
            worker.spec_id() == self.spec_id(),
    {
        Worker { id: self.id, state: self.state, busy: false, serial: self.serial }
    }

    /// The record after the worker saw the queue disconnected.
    pub(crate) fn disconnect(&self) -> (worker: Worker)
        ensures
            worker@ == self@.disconnect(),
            worker.spec_id() == self.spec_id(),
    {
        Worker { id: self.id, state: WorkerState::ShuttingDown, busy: self.busy, serial: self.serial }
    }

    /// The record after the worker's thread returned.
    pub(crate) fn exit(&self) -> (worker: Worker)
        ensures
            worker@ == self@.exit(),
            worker.spec_id() == self.spec_id(),
    {
        Worker { id: self.id, state: WorkerState::Terminated, busy: self.busy, serial: self.serial }
    }
}

} // verus!
