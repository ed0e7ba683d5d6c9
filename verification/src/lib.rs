//! Concurrency core of a worker pool.
//!
//! [`pool::execute_manager`] is the batching queue. Requests wait in a buffer
//! and leave it for the executor in batches of at most
//! [`pool::execute_manager::BATCH_CAPACITY`], oldest first, either because
//! the buffer has reached that capacity or because a worker has become free.
//!
//! [`pool::worker_watcher`] is the liveness watcher. It counts the busy
//! workers from the events that report a worker starting and finishing work,
//! and stops with a fault when a worker finishes work that never started.
//!
//! The library decides and leaves the waiting to its caller: it neither
//! spawns a task nor takes a lock. The caller runs the background tasks,
//! feeds what their event streams deliver to the two components, and carries
//! out what they answer.

pub mod pool;
