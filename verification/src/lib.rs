//! The sequential core of a fixed-size worker pool: the dispatch queue, the
//! state machine of each worker, and the shutdown protocol, with their
//! contracts. A threaded shell drives this core under a lock; nothing here
//! spawns, blocks or joins.

pub mod history;
pub mod laws;
pub mod message;
pub mod model;
pub mod pool;
pub mod worker;

pub use message::Message;
pub use model::PoolView;
pub use pool::ThreadPool;
pub use worker::{Action, Worker, WorkerState};
