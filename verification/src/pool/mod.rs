//! The two components of the pool and the values they exchange.

use vstd::prelude::*;

pub mod execute_manager;
pub mod worker_watcher;

pub use execute_manager::ExecuteManager;
pub use worker_watcher::WorkerWatcher;

verus! {

/// `vk_method::Method`, one request. The pool never looks inside a request:
/// it only stores it and hands it on.
#[verifier::external_type_specification]
#[verifier::external_body]
pub struct ExMethod(vk_method::Method);

/// `tokio::sync::mpsc::UnboundedSender`, the sending half of the channel that
/// leads to the executor.
#[verifier::external_type_specification]
#[verifier::external_body]
#[verifier::reject_recursive_types(T)]
pub struct ExUnboundedSender<T>(tokio::sync::mpsc::UnboundedSender<T>);

/// What the pool sends to the executor. `S` is the channel on which the
/// outcome of one request travels back to whoever submitted it.
#[derive(Debug)]
pub enum Message<S> {
    /// One batch: the requests, and for each request, at the same position,
    /// its result channel.
    NewExecute(Vec<vk_method::Method>, Vec<S>),
}

/// The channel on which batches leave the pool.
pub type TaskSender<S> = tokio::sync::mpsc::UnboundedSender<Message<S>>;

impl<S> Message<S> {
    /// The requests of the batch, in order.
    pub open spec fn methods(self) -> Seq<vk_method::Method> {
        match self {
            Message::NewExecute(methods, _) => methods@,
        }
    }

    /// The result channels of the batch, in order.
    pub open spec fn senders(self) -> Seq<S> {
        match self {
            Message::NewExecute(_, senders) => senders@,
        }
    }
}

} // verus!
