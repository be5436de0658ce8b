//! The pool: a fixed number of workers and the sending side of their
//! dispatch channel, from assembly through submission to shutdown.
//!
//! Creating and joining threads is the caller's part. The pool decides which
//! worker is created next, what a failed creation means, which message a
//! submission puts on the channel, and what shutdown sends and hands back
//! for joining.

use crate::channel::DispatchChannel;
use crate::message::Message;
use crate::worker::Worker;
use vstd::prelude::*;

verus! {

/// Why a pool could not be created.
#[derive(Debug, PartialEq, Eq)]
pub enum PoolCreationError {
    /// A pool of no workers was asked for.
    ZeroSize,
    /// The thread of the worker with this index could not be created, for
    /// the cause given. No worker after it was attempted.
    WorkerCreationFailed(usize, String),
}

/// The stage of its life a pool is in.
#[derive(Clone, Copy, Debug, PartialEq, Eq, Structural)]
pub enum PoolPhase {
    /// Workers are still being created; nothing can be submitted yet.
    Assembling,
    /// All workers exist; submissions are accepted.
    Running,
    /// A worker could not be created; the pool only waits to be shut down.
    Aborted,
    /// Shutdown has run; the sending side is gone.
    Closed,
}

/// `count` terminate signals in a row.
pub open spec fn terminations<T>(count: nat) -> Seq<Message<T>> {
    Seq::new(count, |i: int| Message::Terminate)
}

/// The mathematical state of a pool.
pub struct PoolView<S, H> {
    /// The number of workers the pool was asked to have.
    pub size: nat,
    /// The workers created so far, in order of creation.
    pub workers: Seq<Worker<H>>,
    /// The sending side of the dispatch channel, until shutdown disposes of it.
    pub sender: Option<S>,
    /// A worker creation has failed.
    pub aborted: bool,
}

impl<S, H> PoolView<S, H> {
    /// What holds of every pool: it was asked for at least one worker, has no
    /// more than it was asked for, numbers them from zero, and holds the
    /// thread handle of each exactly as long as it holds the sender.
    pub open spec fn wf(self) -> bool {
        &&& 0 < self.size <= usize::MAX
        &&& self.workers.len() <= self.size
        &&& forall|i: int|
            0 <= i < self.workers.len() ==> (#[trigger] self.workers[i]).id == i
        &&& forall|i: int|
            0 <= i < self.workers.len() ==> ((#[trigger] self.workers[i]).thread is Some
                <==> self.sender is Some)
    }

    /// The stage of its life the pool is in.
    pub open spec fn phase(self) -> PoolPhase {
        if self.sender is None {
            PoolPhase::Closed
        } else if self.aborted {
            PoolPhase::Aborted
        } else if self.workers.len() < self.size {
            PoolPhase::Assembling
        } else {
            PoolPhase::Running
        }
    }

    /// A pool asked to have `size` workers, before the first is created.
    pub open spec fn assembling(size: nat, sender: S) -> Self {
        PoolView { size, workers: Seq::empty(), sender: Some(sender), aborted: false }
    }

    /// The pool with one more worker, numbered after those it has and
    /// holding `thread`.
    pub open spec fn add_worker(self, thread: H) -> Self {
        PoolView {
            workers: self.workers.push(
                Worker { id: self.workers.len() as usize, thread: Some(thread) },
            ),
            ..self
        }
    }

    /// The pool with one more worker for each of `threads`, in order.
    pub open spec fn add_workers(self, threads: Seq<H>) -> Self
        decreases threads.len(),
    {
        if threads.len() == 0 {
            self
        } else {
            self.add_workers(threads.drop_last()).add_worker(threads.last())
        }
    }

    /// The pool after a worker creation has failed.
    pub open spec fn abort(self) -> Self {
        PoolView { aborted: true, ..self }
    }

    /// The thread handles of the workers, in worker order.
    pub open spec fn handles(self) -> Seq<H> {
        Seq::new(self.workers.len(), |i: int| self.workers[i].thread->0)
    }

    /// The pool after shutdown: the sender disposed of and every thread
    /// handle handed out.
    pub open spec fn shut_down(self) -> Self {
        PoolView {
            workers: Seq::new(
                self.workers.len(),
                |i: int| Worker { id: self.workers[i].id, thread: None },
            ),
            sender: None,
            ..self
        }
    }
}

/// While a pool is assembling, the workers it has are those it was given,
/// numbered in order, each holding its thread.
pub proof fn lemma_assembly<S, H>(size: nat, sender: S, threads: Seq<H>)
    requires
        0 < size <= usize::MAX,
        threads.len() <= size,
    ensures
        ({
            let pool = PoolView::assembling(size, sender).add_workers(threads);
            &&& pool.wf()
            &&& pool.size == size
            &&& pool.sender == Some(sender)
            &&& !pool.aborted
            &&& pool.workers.len() == threads.len()
            &&& pool.handles() == threads
        }),
    decreases threads.len(),
{
    let pool = PoolView::assembling(size, sender).add_workers(threads);
    if threads.len() > 0 {
        lemma_assembly(size, sender, threads.drop_last());
        let before = PoolView::assembling(size, sender).add_workers(threads.drop_last());
        assert(pool == before.add_worker(threads.last()));
        assert(before.handles() == threads.drop_last());
        assert forall|i: int| 0 <= i < threads.len() implies pool.handles()[i] == threads[i] by {
            if i < threads.len() - 1 {
                assert(pool.workers[i] == before.workers[i]);
                assert(before.handles()[i] == threads.drop_last()[i]);
            }
        }
    }
    assert(pool.handles() =~= threads);
}

/// A pool asks for exactly as many threads as its size, and shutdown hands
/// back exactly those: a pool of `size` workers is assembling, asking for
/// worker `k`, after `k < size` threads, is running once it has `size`
/// threads, and then sends `size` terminate signals and hands out the same
/// threads, in the same order, to be joined.
pub proof fn law_spawned_are_joined<S, H>(size: nat, sender: S, threads: Seq<H>)
    requires
        0 < size <= usize::MAX,
        threads.len() == size,
    ensures
        forall|k: int|
            0 <= k < size ==> {
                let partial = #[trigger] PoolView::assembling(size, sender).add_workers(
                    threads.take(k),
                );
                partial.phase() == PoolPhase::Assembling && partial.workers.len() == k
            },
        ({
            let pool = PoolView::assembling(size, sender).add_workers(threads);
            &&& pool.phase() == PoolPhase::Running
            &&& pool.handles() == threads
            &&& pool.handles().len() == size
            &&& pool.shut_down().wf()
            &&& pool.shut_down().phase() == PoolPhase::Closed
            &&& pool.shut_down().workers.len() == size
        }),
{
    lemma_assembly(size, sender, threads);
    assert forall|k: int| 0 <= k < size implies {
        let partial = #[trigger] PoolView::assembling(size, sender).add_workers(threads.take(k));
        partial.phase() == PoolPhase::Assembling && partial.workers.len() == k
    } by {
        lemma_assembly(size, sender, threads.take(k));
    }
}

/// A failed creation leaves no worker beyond the failure and loses none
/// before it: a pool whose worker `k` could not be created holds the `k`
/// workers created before, asks for no further one, accepts no submission,
/// and at shutdown hands out exactly those `k` threads to be joined.
pub proof fn law_failure_keeps_earlier_workers<S, H>(size: nat, sender: S, threads: Seq<H>)
    requires
        0 < size <= usize::MAX,
        threads.len() < size,
    ensures
        ({
            let before = PoolView::assembling(size, sender).add_workers(threads);
            let pool = before.abort();
            &&& before.phase() == PoolPhase::Assembling
            &&& pool.wf()
            &&& pool.phase() == PoolPhase::Aborted
            &&& pool.workers.len() == threads.len()
            &&& pool.handles() == threads
            &&& pool.shut_down().wf()
            &&& pool.shut_down().phase() == PoolPhase::Closed
        }),
{
    lemma_assembly(size, sender, threads);
    let pool = PoolView::assembling(size, sender).add_workers(threads).abort();
    assert(pool.handles() =~= threads);
}

/// A pool of a fixed number of workers.
///
/// `S` is the caller's handle on the sending side of the dispatch channel and
/// `H` the handle of a worker thread. The pool stores both and hands them
/// back; it never looks inside.
pub struct ThreadPool<S, H> {
    size: usize,
    workers: Vec<Worker<H>>,
    sender: Option<S>,
    aborted: bool,
}

impl<S, H> View for ThreadPool<S, H> {
    type V = PoolView<S, H>;

    closed spec fn view(&self) -> PoolView<S, H> {
        PoolView {
            size: self.size as nat,
            workers: self.workers@,
            sender: self.sender,
            aborted: self.aborted,
        }
    }
}

impl<S, H> ThreadPool<S, H> {
    #[verifier::type_invariant]
    spec fn well_formed(self) -> bool {
        self@.wf()
    }

    /// Starts a pool of `size` workers around the sending side `sender`.
    /// The pool comes back with no worker yet: the caller creates the thread
    /// of each worker that `next_worker` names and reports it with
    /// `add_worker`.
    pub fn new(size: usize, sender: S) -> (pool: Self)
        requires
            size > 0,
        ensures
            pool@ == PoolView::<S, H>::assembling(size as nat, sender),
    {
        ThreadPool { size, workers: Vec::new(), sender: Some(sender), aborted: false }
    }

    /// Starts a pool of `size` workers as `new` does, but answers a size of
    /// zero with `ZeroSize` instead of leaving it to the caller to avoid.
    /// Creation failures are then reported with `try_add_worker`.
    pub fn build(size: usize, sender: S) -> (outcome: Result<Self, PoolCreationError>)
        ensures
            size == 0 ==> outcome == Err::<Self, PoolCreationError>(PoolCreationError::ZeroSize),
            size > 0 ==> (outcome matches Ok(pool) && pool@ == PoolView::<S, H>::assembling(
                size as nat,
                sender,
            )),
    {
        if size == 0 {
            Err(PoolCreationError::ZeroSize)
        } else {
            Ok(Self::new(size, sender))
        }
    }

    /// The number of workers the pool was asked to have.
    pub fn size(&self) -> (size: usize)
        ensures
            size == self@.size,
    {
        self.size
    }

    /// The number of workers created so far.
    pub fn worker_count(&self) -> (count: usize)
        ensures
            count == self@.workers.len(),
    {
        self.workers.len()
    }

    /// The stage of its life the pool is in.
    pub fn phase(&self) -> (phase: PoolPhase)
        ensures
            phase == self@.phase(),
            self@.wf(),
    {
        proof {
            use_type_invariant(self);
        }
        if self.sender.is_none() {
            PoolPhase::Closed
        } else if self.aborted {
            PoolPhase::Aborted
        } else if self.workers.len() < self.size {
            PoolPhase::Assembling
        } else {
            PoolPhase::Running
        }
    }

    /// The sending side of the dispatch channel, while the pool holds it.
    pub fn sender(&self) -> (sender: Option<&S>)
        ensures
            sender == match self@.sender {
                Some(s) => Some(&s),
                None => None,
            },
    {
        self.sender.as_ref()
    }

    /// The index of the worker whose thread is to be created next, or `None`
    /// once the pool is no longer assembling.
    pub fn next_worker(&self) -> (next: Option<usize>)
        ensures
            next == if self@.phase() == PoolPhase::Assembling {
                Some(self@.workers.len() as usize)
            } else {
                None
            },
    {
        if self.sender.is_some() && !self.aborted && self.workers.len() < self.size {
            Some(self.workers.len())
        } else {
            None
        }
    }

    /// Appends `worker`, which both ways of adding a worker have numbered and
    /// given its thread.
    fn install(&mut self, worker: Worker<H>)
        requires
            old(self)@.phase() == PoolPhase::Assembling,
            worker.id == old(self)@.workers.len(),
            worker.thread is Some,
        ensures
            final(self)@ == (PoolView {
                workers: old(self)@.workers.push(worker),
                ..old(self)@
            }),
    {
        proof {
            use_type_invariant(&*self);
        }
        let mut workers: Vec<Worker<H>> = Vec::new();
        std::mem::swap(&mut self.workers, &mut workers);
        workers.push(worker);
        std::mem::swap(&mut self.workers, &mut workers);
    }

    /// Records the next worker, whose thread was created unconditionally.
    pub fn add_worker(&mut self, thread: H)
        requires
            old(self)@.phase() == PoolPhase::Assembling,
        ensures
            final(self)@ == old(self)@.add_worker(thread),
    {
        let id = self.workers.len();
        self.install(Worker::new(id, thread));
    }

    /// Records the outcome of creating the next worker's thread. On success
    /// the worker joins the pool. On failure the pool is aborted and the
    /// error names the worker and carries the cause; the workers created
    /// before it stay in the pool until shutdown tears them down.
    pub fn try_add_worker(&mut self, spawned: Result<H, String>) -> (outcome: Result<
        (),
        PoolCreationError,
    >)
        requires
            old(self)@.phase() == PoolPhase::Assembling,
        ensures
            match spawned {
                Ok(thread) => {
                    &&& outcome is Ok
                    &&& final(self)@ == old(self)@.add_worker(thread)
                },
                Err(cause) => {
                    &&& outcome == Err::<(), PoolCreationError>(
                        PoolCreationError::WorkerCreationFailed(
                            old(self)@.workers.len() as usize,
                            cause,
                        ),
                    )
                    &&& final(self)@ == old(self)@.abort()
                },
            },
    {
        proof {
            use_type_invariant(&*self);
        }
        let id = self.workers.len();
        match Worker::build(id, spawned) {
            Ok(worker) => {
                self.install(worker);
                Ok(())
            },
            Err(cause) => {
                self.aborted = true;
                Err(PoolCreationError::WorkerCreationFailed(id, cause))
            },
        }
    }

    /// Submits `task`: wraps it as a new job and puts it on the channel
    /// behind everything sent before. Returns at once; nothing is reported
    /// back about the task.
    pub fn execute<T>(&self, channel: &mut DispatchChannel<Message<T>>, task: T)
        requires
            self@.phase() == PoolPhase::Running,
            old(channel)@.accepts(),
        ensures
            final(channel)@ == old(channel)@.send(Message::NewJob(task)),
    {
        let _ = channel.send(Message::job(task));
    }

    /// Shuts the pool down: sends one terminate signal per worker behind
    /// everything already on the channel, disposes of the sending side, and
    /// hands back the thread handle of every worker, in worker order, for
    /// the caller to join. A second shutdown does nothing.
    pub fn shutdown<T>(&mut self, channel: &mut DispatchChannel<Message<T>>) -> (handles: Vec<H>)
        requires
            old(self)@.phase() != PoolPhase::Closed && old(self)@.workers.len() > 0 ==> old(
                channel,
            )@.accepts(),
        ensures
            old(self)@.phase() == PoolPhase::Closed ==> {
                &&& final(self)@ == old(self)@
                &&& final(channel)@ == old(channel)@
                &&& handles@ == Seq::<H>::empty()
            },
            old(self)@.phase() != PoolPhase::Closed ==> {
                &&& final(self)@ == old(self)@.shut_down()
                &&& final(channel)@ == old(channel)@.send_all(
                    terminations(old(self)@.workers.len()),
                ).close_sender()
                &&& handles@ == old(self)@.handles()
            },
    {
        proof {
            use_type_invariant(&*self);
        }
        let mut handles: Vec<H> = Vec::new();
        if self.sender.is_none() {
            return handles;
        }
        let count = self.workers.len();
        let mut sent: usize = 0;
        assert(old(channel)@.queue + terminations::<T>(0) =~= old(channel)@.queue);
        while sent < count
            invariant
                sent <= count,
                count > 0 ==> old(channel)@.accepts(),
                channel@ == old(channel)@.send_all(terminations(sent as nat)),
            decreases count - sent,
        {
            let _ = channel.send(Message::Terminate);
            sent = sent + 1;
            assert(channel@.queue =~= old(channel)@.queue + terminations::<T>(sent as nat));
        }
        channel.close_sender();

        let mut workers: Vec<Worker<H>> = Vec::new();
        std::mem::swap(&mut self.workers, &mut workers);
        self.sender = None;
        let mut i: usize = 0;
        while i < count
            invariant
                i <= count,
                count == workers@.len(),
                workers@.len() == old(self)@.workers.len(),
                handles@.len() == i,
                forall|j: int| 0 <= j < i ==> handles@[j] == old(self)@.handles()[j],
                forall|j: int|
                    0 <= j < i ==> workers@[j] == (Worker {
                        id: old(self)@.workers[j].id,
                        thread: None::<H>,
                    }),
                forall|j: int| i <= j < count ==> workers@[j] == old(self)@.workers[j],
                forall|j: int| 0 <= j < count ==> old(self)@.workers[j].thread is Some,
            decreases count - i,
        {
            let thread = workers[i].take_thread();
            handles.push(thread.unwrap());
            i = i + 1;
        }
        std::mem::swap(&mut self.workers, &mut workers);
        assert(self@.workers =~= old(self)@.shut_down().workers);
        assert(handles@ =~= old(self)@.handles());
        handles
    }
}

} // verus!
