//! The pool, its channel and its workers as one transition system.
//!
//! Each transition is one call of the executable interface, stated with the
//! same functions that the interface's contracts use: a submission is
//! `ChannelView::send` of a new job, a worker's turn is `ChannelView::receive`
//! followed by `reaction`, shutdown is `ChannelView::send_all` of
//! `terminations` followed by `ChannelView::close_sender`. Threads may take
//! their turns in any order, so what is proved here of every sequence of
//! enabled events holds of every interleaving.

use crate::channel::{ChannelView, ReceiveError};
use crate::message::Message;
use crate::pool::terminations;
use crate::tally::tally;
use crate::worker::{reaction, Step, WorkerState};
use vstd::prelude::*;

verus! {

/// What one worker thread is doing, with the task it has in hand.
pub enum Activity<T> {
    /// Waiting at the channel.
    Idle,
    /// Running the task it holds.
    Executing(T),
    /// Its thread has ended.
    Stopped,
}

impl<T> Activity<T> {
    /// The state of the worker's loop.
    pub open spec fn state(self) -> WorkerState {
        match self {
            Activity::Idle => WorkerState::Idle,
            Activity::Executing(_) => WorkerState::Executing,
            Activity::Stopped => WorkerState::Stopped,
        }
    }

    /// What a worker does once its poll has told its thread `step`.
    pub open spec fn from_step(step: Step<T>) -> Self {
        match step {
            Step::Run(task) => Activity::Executing(task),
            Step::Wait => Activity::Idle,
            Step::Stop => Activity::Stopped,
        }
    }
}

/// The activity the model gives a worker after a turn at the channel is in
/// the state that the worker's own loop moves to.
pub proof fn lemma_activity_follows_loop<T>(incoming: Result<Message<T>, ReceiveError>)
    ensures
        Activity::from_step(reaction(incoming).1).state() == reaction(incoming).0,
{
}

/// The state of a pool, its channel and its workers from the moment the last
/// worker has been created. For a pool whose assembly was aborted the workers
/// are those created before the failure, and nothing is ever submitted.
pub struct System<T> {
    /// The dispatch channel.
    pub channel: ChannelView<Message<T>>,
    /// The worker threads, by worker index.
    pub workers: Seq<Activity<T>>,
    /// The pool has not been shut down.
    pub running: bool,
    /// How many workers shutdown has joined, in worker order.
    pub joined: nat,
    /// Every task submitted, in order of submission.
    pub submitted: Seq<T>,
    /// Every task that has run to its end, in order of completion.
    pub completed: Seq<T>,
    /// Every task that failed while running and took its worker down.
    pub failed: Seq<T>,
}

/// One thing that happens to the system.
pub enum Event<T> {
    /// The pool's owner submits a task.
    Submit(T),
    /// The worker with this index, idle, gets its turn at the channel and
    /// finds a message or a disconnected channel.
    Poll(int),
    /// The worker with this index finishes its task.
    Complete(int),
    /// The task of the worker with this index fails; its thread ends.
    Fail(int),
    /// The last worker thread has ended: the receiving side is withdrawn.
    Withdraw,
    /// The pool is shut down: terminate signals are sent and the sending
    /// side is disposed of.
    Shutdown,
    /// Shutdown joins the next worker, whose thread has ended.
    Join,
}

/// Counts terminate signals.
pub open spec fn is_terminate<T>() -> spec_fn(Message<T>) -> nat {
    |m: Message<T>|
        if m is Terminate {
            1nat
        } else {
            0nat
        }
}

/// Counts the messages that carry `task`.
pub open spec fn carries<T>(task: T) -> spec_fn(Message<T>) -> nat {
    |m: Message<T>|
        if m == Message::NewJob(task) {
            1nat
        } else {
            0nat
        }
}

/// Counts the workers whose thread has ended.
pub open spec fn is_stopped<T>() -> spec_fn(Activity<T>) -> nat {
    |a: Activity<T>|
        if a is Stopped {
            1nat
        } else {
            0nat
        }
}

/// Counts the workers that are running `task`.
pub open spec fn holds<T>(task: T) -> spec_fn(Activity<T>) -> nat {
    |a: Activity<T>|
        if a == Activity::Executing(task) {
            1nat
        } else {
            0nat
        }
}

/// Counts the occurrences of `task`.
pub open spec fn is_task<T>(task: T) -> spec_fn(T) -> nat {
    |t: T|
        if t == task {
            1nat
        } else {
            0nat
        }
}

/// What a message still costs until it is dealt with: a job is received,
/// run and answered by a return to the channel, a terminate signal is only
/// received.
pub open spec fn message_cost<T>() -> spec_fn(Message<T>) -> nat {
    |m: Message<T>|
        if m is Terminate {
            1nat
        } else {
            3nat
        }
}

/// How many steps a worker has ahead of it before it next waits for nothing.
pub open spec fn activity_cost<T>() -> spec_fn(Activity<T>) -> nat {
    |a: Activity<T>|
        match a {
            Activity::Idle => 1nat,
            Activity::Executing(_) => 2nat,
            Activity::Stopped => 0nat,
        }
}

impl<T> System<T> {
    /// A pool of `size` workers right after its creation: every worker idle,
    /// nothing submitted.
    pub open spec fn start(size: nat) -> Self {
        System {
            channel: ChannelView::opened(),
            workers: Seq::new(size, |i: int| Activity::Idle),
            running: true,
            joined: 0,
            submitted: Seq::empty(),
            completed: Seq::empty(),
            failed: Seq::empty(),
        }
    }

    /// Whether `event` can happen now.
    pub open spec fn enabled(self, event: Event<T>) -> bool {
        match event {
            Event::Submit(_) => self.running && self.channel.accepts(),
            Event::Poll(i) => {
                &&& 0 <= i < self.workers.len()
                &&& self.workers[i] is Idle
                &&& self.channel.next() != Err::<Message<T>, ReceiveError>(ReceiveError::Empty)
            },
            Event::Complete(i) => 0 <= i < self.workers.len() && self.workers[i] is Executing,
            Event::Fail(i) => 0 <= i < self.workers.len() && self.workers[i] is Executing,
            Event::Withdraw => {
                &&& self.channel.receiver_open
                &&& forall|i: int| 0 <= i < self.workers.len() ==> self.workers[i] is Stopped
            },
            Event::Shutdown => self.running && self.channel.accepts(),
            Event::Join => {
                &&& !self.running
                &&& self.joined < self.workers.len()
                &&& self.workers[self.joined as int] is Stopped
            },
        }
    }

    /// The state after `event`.
    pub open spec fn step(self, event: Event<T>) -> Self {
        match event {
            Event::Submit(task) => System {
                channel: self.channel.send(Message::NewJob(task)),
                submitted: self.submitted.push(task),
                ..self
            },
            Event::Poll(i) => System {
                channel: self.channel.receive(),
                workers: self.workers.update(
                    i,
                    Activity::from_step(reaction(self.channel.next()).1),
                ),
                ..self
            },
            Event::Complete(i) => System {
                workers: self.workers.update(i, Activity::Idle),
                completed: self.completed.push(self.workers[i]->0),
                ..self
            },
            Event::Fail(i) => System {
                workers: self.workers.update(i, Activity::Stopped),
                failed: self.failed.push(self.workers[i]->0),
                ..self
            },
            Event::Withdraw => System { channel: self.channel.close_receiver(), ..self },
            Event::Shutdown => System {
                channel: self.channel.send_all(
                    terminations(self.workers.len()),
                ).close_sender(),
                running: false,
                ..self
            },
            Event::Join => System { joined: self.joined + 1, ..self },
        }
    }

    /// The state after `events`, one after the other.
    pub open spec fn run(self, events: Seq<Event<T>>) -> Self
        decreases events.len(),
    {
        if events.len() == 0 {
            self
        } else {
            self.run(events.drop_last()).step(events.last())
        }
    }

    /// Whether each of `events` can happen when its turn comes.
    pub open spec fn admits(self, events: Seq<Event<T>>) -> bool
        decreases events.len(),
    {
        if events.len() == 0 {
            true
        } else {
            &&& self.admits(events.drop_last())
            &&& self.run(events.drop_last()).enabled(events.last())
        }
    }

    /// Shutdown has run to its end: every worker has been joined.
    pub open spec fn finished(self) -> bool {
        !self.running && self.joined == self.workers.len()
    }

    /// The sides of the channel and the joins agree with the stage the pool
    /// is in, and no job waits behind a terminate signal.
    pub open spec fn shaped(self) -> bool {
        &&& self.workers.len() > 0
        &&& self.channel.sender_open == self.running
        &&& self.joined <= self.workers.len()
        &&& self.running ==> self.joined == 0
        &&& forall|i: int| 0 <= i < self.joined ==> self.workers[i] is Stopped
        &&& !self.channel.receiver_open ==> forall|i: int|
            0 <= i < self.workers.len() ==> self.workers[i] is Stopped
        &&& self.running ==> forall|j: int|
            0 <= j < self.channel.queue.len() ==> self.channel.queue[j] is NewJob
        &&& forall|i: int, j: int|
            0 <= i <= j < self.channel.queue.len() && self.channel.queue[i] is Terminate
                ==> self.channel.queue[j] is Terminate
    }

    /// The terminate signals still queued and the workers already stopped
    /// add up: after shutdown to one signal per worker, and always one
    /// stopped worker more for each failed task.
    pub open spec fn signalled(self) -> bool {
        tally(self.channel.queue, is_terminate()) + tally(self.workers, is_stopped()) == (
        if self.running {
            0
        } else {
            self.workers.len()
        }) + self.failed.len()
    }

    /// Every submitted task is in exactly one place: queued, in the hands of
    /// a worker, completed or failed.
    pub open spec fn accounted(self) -> bool {
        forall|task: T| #[trigger]
            tally(self.submitted, is_task(task)) == tally(self.channel.queue, carries(task))
                + tally(self.workers, holds(task)) + tally(self.completed, is_task(task))
                + tally(self.failed, is_task(task))
    }

    /// Once a worker has taken a terminate signal, no job is queued.
    pub open spec fn drained(self) -> bool {
        !self.running && tally(self.channel.queue, is_terminate()) < self.workers.len()
            ==> forall|j: int|
            0 <= j < self.channel.queue.len() ==> self.channel.queue[j] is Terminate
    }

    /// What holds of the system whatever has happened.
    pub open spec fn inv(self) -> bool {
        &&& self.shaped()
        &&& self.signalled()
        &&& self.accounted()
        &&& self.drained()
    }

    /// A bound on the number of events, other than submissions and the
    /// shutdown itself, that can still happen.
    pub open spec fn rank(self) -> nat {
        (tally(self.channel.queue, message_cost()) + tally(self.workers, activity_cost()) + (
        self.workers.len() - self.joined) + if self.channel.receiver_open {
            1int
        } else {
            0int
        }) as nat
    }
}

} // verus!
