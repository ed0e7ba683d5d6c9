//! The batching queue: requests wait in a buffer and leave it in groups of
//! at most `BATCH_CAPACITY`, oldest first.
//!
//! A batch leaves the buffer for one of two reasons: a push has made the
//! buffer reach the capacity, or a worker has reported that it is free.
//! Taking a batch out of the buffer and sending it are separate steps, so
//! that a caller who guards the buffer with a lock can send after it has
//! released the lock.

use super::{Message, TaskSender};
use vk_method::Method;
use vstd::prelude::*;

verus! {

/// The largest number of requests that one batch may carry.
pub const BATCH_CAPACITY: usize = 25;

/// Why a flush, or a push that had to flush, did not succeed.
#[derive(Debug, Clone, Copy, PartialEq, Eq, Structural)]
pub enum ExecuteError {
    /// A flush was asked for while nothing was pending.
    EmptyQueue,
    /// The executor has closed its end of the dispatch channel.
    DispatchClosed,
}

/// What wakes the queue from outside.
#[derive(Debug, Clone, Copy, PartialEq, Eq, Structural)]
pub enum Event {
    /// A worker has become free and can take a batch.
    FreeWorker,
}

/// How many entries a flush takes from a buffer that holds `pending` of them.
pub open spec fn batch_len(pending: nat) -> nat {
    if pending < BATCH_CAPACITY as nat {
        pending
    } else {
        BATCH_CAPACITY as nat
    }
}

/// The entries that a flush takes: the oldest `batch_len` of them.
pub open spec fn flushed<E>(pending: Seq<E>) -> Seq<E> {
    pending.take(batch_len(pending.len()) as int)
}

/// The entries that a flush leaves behind.
pub open spec fn retained<E>(pending: Seq<E>) -> Seq<E> {
    pending.skip(batch_len(pending.len()) as int)
}

/// The batch that a flush of `pending` hands out, if it hands one out.
pub open spec fn flush_batch<E>(pending: Seq<E>) -> Option<Seq<E>> {
    if pending.len() == 0 {
        None
    } else {
        Some(flushed(pending))
    }
}

/// Whether appending one entry to a buffer of `pending` entries makes the
/// buffer flush at once.
pub open spec fn reaches_capacity(pending: nat) -> bool {
    pending + 1 >= BATCH_CAPACITY as nat
}

/// The batch that leaves at once when `entry` is appended to `pending`, if
/// one does.
pub open spec fn enqueue_batch<E>(pending: Seq<E>, entry: E) -> Option<Seq<E>> {
    if reaches_capacity(pending.len()) {
        Some(flushed(pending.push(entry)))
    } else {
        None
    }
}

/// The buffer after `entry` has been appended to `pending` and the batch
/// that this set off, if any, has left.
pub open spec fn after_enqueue<E>(pending: Seq<E>, entry: E) -> Seq<E> {
    if reaches_capacity(pending.len()) {
        retained(pending.push(entry))
    } else {
        pending.push(entry)
    }
}

/// One thing that happens to the buffer.
pub enum Op<E> {
    /// An entry is pushed.
    Enqueue(E),
    /// A worker reports that it is free.
    FreeWorker,
}

/// The buffer after `op`.
pub open spec fn pending_after_op<E>(pending: Seq<E>, op: Op<E>) -> Seq<E> {
    match op {
        Op::Enqueue(entry) => after_enqueue(pending, entry),
        Op::FreeWorker => retained(pending),
    }
}

/// The batch that `op` makes leave the buffer, if it makes one leave.
pub open spec fn batch_of_op<E>(pending: Seq<E>, op: Op<E>) -> Option<Seq<E>> {
    match op {
        Op::Enqueue(entry) => enqueue_batch(pending, entry),
        Op::FreeWorker => flush_batch(pending),
    }
}

/// The buffer after `ops` have happened, in order, to an empty buffer.
pub open spec fn pending_after<E>(ops: Seq<Op<E>>) -> Seq<E>
    decreases ops.len(),
{
    if ops.len() == 0 {
        Seq::empty()
    } else {
        pending_after_op(pending_after(ops.drop_last()), ops.last())
    }
}

/// The batches that have left the buffer while `ops` happened, in the order
/// in which they left.
pub open spec fn dispatched<E>(ops: Seq<Op<E>>) -> Seq<Seq<E>>
    decreases ops.len(),
{
    if ops.len() == 0 {
        Seq::empty()
    } else {
        match batch_of_op(pending_after(ops.drop_last()), ops.last()) {
            Some(batch) => dispatched(ops.drop_last()).push(batch),
            None => dispatched(ops.drop_last()),
        }
    }
}

/// The entries that `ops` push, in the order in which they are pushed.
pub open spec fn enqueued<E>(ops: Seq<Op<E>>) -> Seq<E>
    decreases ops.len(),
{
    if ops.len() == 0 {
        Seq::empty()
    } else {
        match ops.last() {
            Op::Enqueue(entry) => enqueued(ops.drop_last()).push(entry),
            Op::FreeWorker => enqueued(ops.drop_last()),
        }
    }
}

/// The requests of `entries`, in order.
pub open spec fn requests_of<S>(entries: Seq<(Method, S)>) -> Seq<Method> {
    entries.map_values(|entry: (Method, S)| entry.0)
}

/// The result channels of `entries`, in order.
pub open spec fn channels_of<S>(entries: Seq<(Method, S)>) -> Seq<S> {
    entries.map_values(|entry: (Method, S)| entry.1)
}

/// Whether `message` carries exactly the entries `batch`, each request at the
/// position of its result channel.
pub open spec fn carries<S>(message: Message<S>, batch: Seq<(Method, S)>) -> bool {
    &&& message.methods() == requests_of(batch)
    &&& message.senders() == channels_of(batch)
}

/// What becomes of a message that was handed to the dispatch channel.
pub open spec fn dispatch_result<S>(sent: Result<(), Message<S>>) -> Result<(), ExecuteError> {
    match sent {
        Ok(_) => Ok(()),
        Err(_) => Err(ExecuteError::DispatchClosed),
    }
}

/// Calls `tokio::sync::mpsc::UnboundedSender::send`, which does not wait. When
/// the receiving half is closed or gone, `send` gives the message back inside
/// its error, and so does this function. Whether it is closed cannot be known
/// beforehand, so nothing is said of when the call succeeds. (`send` aborts
/// the process once about `usize::MAX / 2` messages wait in the channel.)
#[verifier::external_body]
fn send_message<S>(work_sender: &TaskSender<S>, message: Message<S>) -> (sent: Result<
    (),
    Message<S>,
>)
    ensures
        sent matches Err(returned) ==> returned == message,
{
    match work_sender.send(message) {
        Ok(()) => Ok(()),
        Err(tokio::sync::mpsc::error::SendError(returned)) => Err(returned),
    }
}

/// The buffer and the dispatch channel of one pool. The manager flushes as
/// soon as `BATCH_CAPACITY` entries are pending, so fewer than that are pending
/// whenever it is at rest.
#[verifier::reject_recursive_types(S)]
pub struct ExecuteManager<S> {
    queue: Vec<(Method, S)>,
    sender: TaskSender<S>,
}

impl<S> View for ExecuteManager<S> {
    type V = Seq<(Method, S)>;

    /// The pending entries, oldest first.
    closed spec fn view(&self) -> Seq<(Method, S)> {
        self.queue@
    }
}

impl<S> ExecuteManager<S> {
    #[verifier::type_invariant]
    spec fn below_capacity(self) -> bool {
        self.queue@.len() < BATCH_CAPACITY
    }

    /// The channel on which the manager dispatches.
    pub closed spec fn channel(&self) -> TaskSender<S> {
        self.sender
    }

    /// A manager with nothing pending that dispatches on `task_sender`.
    pub fn new(task_sender: TaskSender<S>) -> (manager: Self)
        ensures
            manager@ == Seq::<(Method, S)>::empty(),
            manager.channel() == task_sender,
    {
        ExecuteManager { queue: Vec::new(), sender: task_sender }
    }

    /// The number of pending entries.
    pub fn pending(&self) -> (count: usize)
        ensures
            count == self@.len(),
            count < BATCH_CAPACITY,
    {
        proof {
            use_type_invariant(self);
        }
        self.queue.len()
    }

    /// Takes the oldest entries of `queue`, at most `BATCH_CAPACITY` of
    /// them, and packs them as one message. Fails, and leaves `queue` as it
    /// is, exactly when `queue` is empty.
    pub fn take_batch(queue: &mut Vec<(Method, S)>) -> (taken: Result<Message<S>, ExecuteError>)
        ensures
            final(queue)@ == retained(old(queue)@),
            match flush_batch(old(queue)@) {
                Some(batch) => taken is Ok && carries(taken->Ok_0, batch),
                None => taken == Err::<Message<S>, ExecuteError>(ExecuteError::EmptyQueue)
                    && final(queue)@ == old(queue)@,
            },
            taken is Ok ==> 1 <= taken->Ok_0.methods().len() <= BATCH_CAPACITY,
    {
        if queue.len() == 0 {
            assert(retained(queue@) =~= queue@);
            return Err(ExecuteError::EmptyQueue);
        }
        let methods_len: usize = if queue.len() < BATCH_CAPACITY {
            queue.len()
        } else {
            BATCH_CAPACITY
        };
        let mut batch = queue.split_off(methods_len);
        core::mem::swap(queue, &mut batch);
        let ghost entries = batch@;

        let mut methods: Vec<Method> = Vec::new();
        let mut senders: Vec<S> = Vec::new();
        for entry in it: batch
            invariant
                methods@.len() == it.index(),
                senders@.len() == it.index(),
                it.seq() == entries,
                forall|i: int|
                    0 <= i < it.index() ==> methods@[i] == (#[trigger] entries[i]).0
                        && senders@[i] == entries[i].1,
        {
            let (method, sender) = entry;
            methods.push(method);
            senders.push(sender);
        }
        assert(entries =~= flushed(old(queue)@));
        assert(methods@ =~= requests_of(entries));
        assert(senders@ =~= channels_of(entries));
        Ok(Message::NewExecute(methods, senders))
    }

    /// Appends one entry to `queue`. If `queue` then holds `BATCH_CAPACITY`
    /// entries or more, takes the oldest batch out again and returns it.
    pub fn enqueue(queue: &mut Vec<(Method, S)>, method: Method, sender: S) -> (flush: Option<
        Message<S>,
    >)
        ensures
            final(queue)@ == after_enqueue(old(queue)@, (method, sender)),
            match enqueue_batch(old(queue)@, (method, sender)) {
                Some(batch) => flush is Some && carries(flush->Some_0, batch),
                None => flush is None,
            },
            flush is Some ==> 1 <= flush->Some_0.methods().len() <= BATCH_CAPACITY,
    {
        queue.push((method, sender));
        if queue.len() >= BATCH_CAPACITY {
            match Self::take_batch(queue) {
                Ok(message) => Some(message),
                Err(_) => None,
            }
        } else {
            None
        }
    }

    /// Takes out of `queue` what `event` asks for: a free worker asks for
    /// the oldest batch.
    pub fn take_for_event(queue: &mut Vec<(Method, S)>, event: Event) -> (taken: Result<
        Message<S>,
        ExecuteError,
    >)
        ensures
            final(queue)@ == retained(old(queue)@),
            match flush_batch(old(queue)@) {
                Some(batch) => taken is Ok && carries(taken->Ok_0, batch),
                None => taken == Err::<Message<S>, ExecuteError>(ExecuteError::EmptyQueue)
                    && final(queue)@ == old(queue)@,
            },
            taken is Ok ==> 1 <= taken->Ok_0.methods().len() <= BATCH_CAPACITY,
    {
        match event {
            Event::FreeWorker => Self::take_batch(queue),
        }
    }

    /// Says what a send on the dispatch channel amounts to: success, or the
    /// executor is gone. The message that came back is dropped with its
    /// entries.
    pub fn dispatch_outcome(sent: Result<(), Message<S>>) -> (outcome: Result<(), ExecuteError>)
        ensures
            outcome == dispatch_result(sent),
    {
        match sent {
            Ok(_) => Ok(()),
            Err(_) => Err(ExecuteError::DispatchClosed),
        }
    }

    /// Sends `message` to the executor. Fails with `DispatchClosed` when the
    /// executor has closed the channel, and with nothing else.
    pub fn dispatch(work_sender: &TaskSender<S>, message: Message<S>) -> (outcome: Result<
        (),
        ExecuteError,
    >)
        ensures
            outcome is Err ==> outcome == Err::<(), ExecuteError>(ExecuteError::DispatchClosed),
    {
        Self::dispatch_outcome(send_message(work_sender, message))
    }

    /// Flushes `queue`: takes the oldest batch and sends it on `work_sender`.
    /// Fails with `EmptyQueue`, and sends nothing, exactly when nothing is
    /// pending. The batch has left `queue` whether or not the send succeeds.
    pub fn push_execute(queue: &mut Vec<(Method, S)>, work_sender: &TaskSender<S>) -> (outcome:
        Result<(), ExecuteError>)
        ensures
            final(queue)@ == retained(old(queue)@),
            old(queue)@.len() == 0 <==> outcome == Err::<(), ExecuteError>(
                ExecuteError::EmptyQueue,
            ),
            outcome is Err ==> outcome == Err::<(), ExecuteError>(ExecuteError::EmptyQueue)
                || outcome == Err::<(), ExecuteError>(ExecuteError::DispatchClosed),
    {
        match Self::take_batch(queue) {
            Ok(message) => Self::dispatch(work_sender, message),
            Err(error) => Err(error),
        }
    }

    /// Appends one entry. If that makes `BATCH_CAPACITY` entries pending,
    /// flushes them before it returns; it can fail only then, and only with
    /// `DispatchClosed`.
    pub fn push(&mut self, method: Method, sender: S) -> (pushed: Result<(), ExecuteError>)
        ensures
            final(self)@ == after_enqueue(old(self)@, (method, sender)),
            final(self)@.len() < BATCH_CAPACITY,
            final(self).channel() == old(self).channel(),
            !reaches_capacity(old(self)@.len()) ==> pushed is Ok,
            pushed is Err ==> pushed == Err::<(), ExecuteError>(ExecuteError::DispatchClosed),
    {
        proof {
            use_type_invariant(&*self);
        }
        // The buffer may reach the capacity only while it is out of the manager.
        let mut queue: Vec<(Method, S)> = Vec::new();
        core::mem::swap(&mut self.queue, &mut queue);
        let flush = Self::enqueue(&mut queue, method, sender);
        core::mem::swap(&mut self.queue, &mut queue);
        match flush {
            Some(message) => Self::dispatch(&self.sender, message),
            None => Ok(()),
        }
    }

    /// Reacts to one event: for a free worker, flushes what is pending.
    /// Fails with `EmptyQueue`, and sends nothing, exactly when nothing is
    /// pending.
    pub fn handle_event(&mut self, event: Event) -> (handled: Result<(), ExecuteError>)
        ensures
            final(self)@ == retained(old(self)@),
            final(self)@.len() == 0,
            final(self).channel() == old(self).channel(),
            old(self)@.len() == 0 <==> handled == Err::<(), ExecuteError>(
                ExecuteError::EmptyQueue,
            ),
            handled is Err ==> handled == Err::<(), ExecuteError>(ExecuteError::EmptyQueue)
                || handled == Err::<(), ExecuteError>(ExecuteError::DispatchClosed),
    {
        proof {
            use_type_invariant(&*self);
        }
        let mut queue: Vec<(Method, S)> = Vec::new();
        core::mem::swap(&mut self.queue, &mut queue);
        let taken = Self::take_for_event(&mut queue, event);
        core::mem::swap(&mut self.queue, &mut queue);
        match taken {
            Ok(message) => Self::dispatch(&self.sender, message),
            Err(error) => Err(error),
        }
    }
}

/// In a message that carries `batch`, the request at each position travels
/// with the result channel that was pushed with it.
pub proof fn lemma_pairing<S>(message: Message<S>, batch: Seq<(Method, S)>, i: int)
    requires
        carries(message, batch),
        0 <= i < batch.len(),
    ensures
        message.methods().len() == batch.len(),
        message.senders().len() == batch.len(),
        (message.methods()[i], message.senders()[i]) == batch[i],
{
}

/// A flush splits the buffer: the batch, then what stays, is the buffer as it
/// was.
pub proof fn lemma_flush_splits<E>(pending: Seq<E>)
    ensures
        flushed(pending) + retained(pending) == pending,
        flushed(pending).len() == batch_len(pending.len()),
        retained(pending).len() == pending.len() - batch_len(pending.len()),
{
    assert(flushed(pending) + retained(pending) =~= pending);
}

/// Whatever is pushed and whenever workers become free, every batch that
/// leaves the buffer holds at least one entry and at most `BATCH_CAPACITY`.
pub proof fn lemma_batch_cap<E>(ops: Seq<Op<E>>, i: int)
    requires
        0 <= i < dispatched(ops).len(),
    ensures
        1 <= dispatched(ops)[i].len() <= BATCH_CAPACITY,
    decreases ops.len(),
{
    if ops.len() > 0 {
        let earlier = ops.drop_last();
        if i < dispatched(earlier).len() {
            lemma_batch_cap(earlier, i);
        }
    }
}

/// Between two operations fewer than `BATCH_CAPACITY` entries are pending.
pub proof fn lemma_pending_below_capacity<E>(ops: Seq<Op<E>>)
    ensures
        pending_after(ops).len() < BATCH_CAPACITY,
    decreases ops.len(),
{
    if ops.len() > 0 {
        lemma_pending_below_capacity(ops.drop_last());
    }
}

/// The batches in the order in which they left, followed by what is still
/// pending, are the pushed entries in the order in which they were pushed.
/// So the buffer loses no entry, lets none leave twice, and lets none
/// overtake another.
pub proof fn lemma_fifo<E>(ops: Seq<Op<E>>)
    ensures
        dispatched(ops).flatten() + pending_after(ops) == enqueued(ops),
    decreases ops.len(),
{
    if ops.len() == 0 {
        assert(dispatched(ops).flatten() + pending_after(ops) =~= enqueued(ops));
    } else {
        let earlier = ops.drop_last();
        let before = pending_after(earlier);
        lemma_fifo(earlier);
        let grown = match ops.last() {
            Op::Enqueue(entry) => before.push(entry),
            Op::FreeWorker => before,
        };
        assert(dispatched(earlier).flatten() + grown =~= enqueued(ops));
        match batch_of_op(before, ops.last()) {
            Some(batch) => {
                lemma_flush_splits(grown);
                dispatched(earlier).lemma_flatten_push(batch);
                assert(batch == flushed(grown));
                assert(pending_after(ops) == retained(grown));
                assert(dispatched(ops).flatten() + pending_after(ops) =~= dispatched(
                    earlier,
                ).flatten() + (flushed(grown) + retained(grown)));
            },
            None => {
                assert(pending_after(ops) =~= grown);
            },
        }
    }
}

/// The push that makes the `BATCH_CAPACITY`th pending entry sends all of
/// them off as one batch and leaves nothing pending.
pub proof fn lemma_threshold_trigger<E>(pending: Seq<E>, entry: E)
    requires
        pending.len() + 1 == BATCH_CAPACITY,
    ensures
        enqueue_batch(pending, entry) == Some(pending.push(entry)),
        after_enqueue(pending, entry) == Seq::<E>::empty(),
{
    assert(flushed(pending.push(entry)) =~= pending.push(entry));
    assert(retained(pending.push(entry)) =~= Seq::<E>::empty());
}

/// A push below the threshold only appends: no batch leaves.
pub proof fn lemma_below_threshold<E>(pending: Seq<E>, entry: E)
    requires
        pending.len() + 1 < BATCH_CAPACITY,
    ensures
        enqueue_batch(pending, entry) == None::<Seq<E>>,
        after_enqueue(pending, entry) == pending.push(entry),
{
}

/// A free worker that finds the buffer empty gets no batch, and the buffer
/// stays empty.
pub proof fn lemma_reactive_empty<E>(pending: Seq<E>)
    requires
        pending.len() == 0,
    ensures
        flush_batch(pending) == None::<Seq<E>>,
        retained(pending) == pending,
{
    assert(retained(pending) =~= pending);
}

/// A free worker that finds fewer than `BATCH_CAPACITY` entries pending gets
/// all of them, however few, and nothing stays behind.
pub proof fn lemma_reactive_partial<E>(pending: Seq<E>)
    requires
        0 < pending.len() < BATCH_CAPACITY,
    ensures
        flush_batch(pending) == Some(pending),
        retained(pending) == Seq::<E>::empty(),
{
    assert(flushed(pending) =~= pending);
    assert(retained(pending) =~= Seq::<E>::empty());
}

} // verus!
