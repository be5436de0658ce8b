//! Workers, seen from both ends: the record the pool keeps of each worker
//! thread, and the consumption loop that runs on that thread.

use crate::channel::{DispatchChannel, ReceiveError};
use crate::message::Message;
use vstd::prelude::*;

verus! {

/// The pool's record of one worker: its index and, until the pool joins it,
/// the handle of its thread.
///
/// `H` is whatever the caller's threading primitive hands back when a thread
/// is created; the pool only stores it and gives it back for joining.
pub struct Worker<H> {
    /// Position of the worker in the pool, counted from zero.
    pub id: usize,
    /// The handle to join the worker's thread with; `None` once taken.
    pub thread: Option<H>,
}

impl<H> Worker<H> {
    /// Records a worker whose thread was created unconditionally.
    pub fn new(id: usize, thread: H) -> (worker: Self)
        ensures
            worker == (Worker { id, thread: Some(thread) }),
    {
        Worker { id, thread: Some(thread) }
    }

    /// Records a worker from the outcome of a thread creation that may have
    /// failed: a worker holding the handle on success, and the creation's own
    /// error, untouched, on failure.
    pub fn build<E>(id: usize, spawned: Result<H, E>) -> (outcome: Result<Self, E>)
        ensures
            outcome == match spawned {
                Ok(thread) => Ok::<Self, E>(Worker { id, thread: Some(thread) }),
                Err(cause) => Err::<Self, E>(cause),
            },
    {
        match spawned {
            Ok(thread) => Ok(Worker { id, thread: Some(thread) }),
            Err(cause) => Err(cause),
        }
    }

    /// Takes the thread handle out of the record, leaving `None` behind.
    pub fn take_thread(&mut self) -> (thread: Option<H>)
        ensures
            thread == old(self).thread,
            *final(self) == (Worker { id: old(self).id, thread: None::<H> }),
    {
        self.thread.take()
    }
}

/// Where a worker's consumption loop stands.
#[derive(Clone, Copy, Debug, PartialEq, Eq, Structural)]
pub enum WorkerState {
    /// Waiting for the next message.
    Idle,
    /// Running the task of the message received last.
    Executing,
    /// Out of the loop for good.
    Stopped,
}

/// What the thread that drives a worker's loop does next.
pub enum Step<T> {
    /// Run the task inside, away from the channel, then report completion.
    Run(T),
    /// Nothing is queued yet: wait until a message is sent, then poll again.
    Wait,
    /// Leave the loop; the thread ends.
    Stop,
}

/// How an idle worker reacts to the outcome of one receive: the state it
/// moves to and what its thread does next.
pub open spec fn reaction<T>(incoming: Result<Message<T>, ReceiveError>) -> (WorkerState, Step<T>) {
    match incoming {
        Ok(Message::NewJob(task)) => (WorkerState::Executing, Step::Run(task)),
        Ok(Message::Terminate) => (WorkerState::Stopped, Step::Stop),
        Err(ReceiveError::Empty) => (WorkerState::Idle, Step::Wait),
        Err(ReceiveError::Disconnected) => (WorkerState::Stopped, Step::Stop),
    }
}

/// The consumption loop of one worker, as a state machine that the worker's
/// thread drives: poll the channel while idle, run what comes out, report
/// completion, and stop when told to.
///
/// A task that fails while running takes its thread down with it; the loop
/// is then never told and the worker is lost to the pool.
pub struct WorkerLoop {
    id: usize,
    state: WorkerState,
}

impl View for WorkerLoop {
    type V = WorkerState;

    closed spec fn view(&self) -> WorkerState {
        self.state
    }
}

impl WorkerLoop {
    /// The index the loop was created with.
    pub closed spec fn spec_id(&self) -> usize {
        self.id
    }

    /// Starts the loop of worker `id`, idle.
    pub fn new(id: usize) -> (worker: Self)
        ensures
            worker@ == WorkerState::Idle,
            worker.id() == id,
    {
        WorkerLoop { id, state: WorkerState::Idle }
    }

    /// The index of the worker this loop belongs to.
    #[verifier::when_used_as_spec(spec_id)]
    pub fn id(&self) -> (id: usize)
        ensures
            id == self.spec_id(),
    {
        self.id
    }

    /// The state the loop is in.
    pub fn state(&self) -> (state: WorkerState)
        ensures
            state == self@,
    {
        self.state
    }

    /// One turn of an idle worker at the channel: extracts at most one
    /// message and reacts to it. The caller holds exclusive access to the
    /// channel for this call only, and runs a task it is handed after giving
    /// that access up.
    pub fn poll<T>(&mut self, channel: &mut DispatchChannel<Message<T>>) -> (step: Step<T>)
        requires
            old(self)@ == WorkerState::Idle,
        ensures
            final(channel)@ == old(channel)@.receive(),
            (final(self)@, step) == reaction(old(channel)@.next()),
            final(self).id() == old(self).id(),
    {
        match channel.receive() {
            Ok(Message::NewJob(task)) => {
                self.state = WorkerState::Executing;
                Step::Run(task)
            },
            Ok(Message::Terminate) => {
                self.state = WorkerState::Stopped;
                Step::Stop
            },
            Err(ReceiveError::Empty) => Step::Wait,
            Err(ReceiveError::Disconnected) => {
                self.state = WorkerState::Stopped;
                Step::Stop
            },
        }
    }

    /// Reports that the task handed out by the last poll has run to its end:
    /// the worker is idle again.
    pub fn complete(&mut self)
        requires
            old(self)@ == WorkerState::Executing,
        ensures
            final(self)@ == WorkerState::Idle,
            final(self).id() == old(self).id(),
    {
        self.state = WorkerState::Idle;
    }
}

} // verus!
