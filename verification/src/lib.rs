//! A fixed-size worker pool, without the threads.
//!
//! The crate holds everything a worker pool decides: what the dispatch
//! channel does with a message ([`channel`]), how a worker reacts to what it
//! receives ([`worker`]), and how the pool is assembled, takes submissions
//! and shuts down ([`pool`]). Creating threads, locking the channel and
//! waiting on it are left to the caller, who drives these state machines.
//!
//! [`protocol`] puts the three together as one transition system and [`laws`]
//! proves what it guarantees under every interleaving: no task runs twice,
//! none is lost, and shutdown always comes to an end with every worker
//! joined.

pub mod channel;
pub mod laws;
pub mod message;
pub mod pool;
pub mod protocol;
pub mod tally;
pub mod worker;

pub use channel::{ChannelView, DispatchChannel, ReceiveError};
pub use message::Message;
pub use pool::{PoolCreationError, PoolPhase, PoolView, ThreadPool};
pub use worker::{Step, Worker, WorkerLoop, WorkerState};
