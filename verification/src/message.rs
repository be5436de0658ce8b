//! The control messages carried by the dispatch channel.

use vstd::prelude::*;

verus! {

/// What travels from the pool to its workers: one task, or the signal to stop.
pub enum Message<T> {
    /// A task to be run once by the worker that receives it.
    NewJob(T),
    /// The receiving worker leaves its loop.
    Terminate,
}

impl<T> Message<T> {
    /// Wraps a task for dispatch.
    pub fn job(task: T) -> (message: Self)
        ensures
            message == Message::NewJob(task),
    {
        Message::NewJob(task)
    }
}

} // verus!
