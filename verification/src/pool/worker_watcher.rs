//! The liveness watcher: a count of the workers that are busy, kept from the
//! events that report a worker starting or finishing work.
//!
//! The watcher is a state machine. Whoever runs the background task feeds it
//! what the event stream delivers, one receipt at a time, and asks it what to
//! do with the task when the watcher is read or disposed of.

use vstd::prelude::*;

verus! {

/// What a worker reports.
#[derive(Debug, Clone, Copy, PartialEq, Eq, Structural)]
pub enum Event {
    /// A worker has started to work on a batch.
    GotWork,
    /// A worker has finished its batch.
    DoneWork,
}

/// Where the background task of a watcher stands.
#[derive(Debug, Clone, Copy, PartialEq, Eq, Structural)]
pub enum TaskStatus {
    /// The task waits for the next event.
    Running,
    /// The event stream has closed and the task has ended without a fault.
    Ended,
    /// A worker reported the end of work that never started. The task has
    /// aborted, and the count is no longer meaningful.
    Faulted,
}

/// What to do with the background task when the watcher is torn down.
#[derive(Debug, Clone, Copy, PartialEq, Eq, Structural)]
pub enum Teardown {
    /// The task still runs: cancel it at once, whatever it has not yet
    /// taken from the stream.
    Cancel,
    /// The task has ended well: join it.
    Join,
    /// The task has aborted: join it and raise its fault again in the caller.
    Reraise,
}

/// The state of a watcher as contracts see it.
pub struct WatcherState {
    pub status: TaskStatus,
    pub count: nat,
}

/// The count after one event; `None` when the event would take it below zero.
pub open spec fn counted(count: nat, event: Event) -> Option<nat> {
    match event {
        Event::GotWork => Some(count + 1),
        Event::DoneWork => if count > 0 {
            Some((count - 1) as nat)
        } else {
            None
        },
    }
}

/// The state of a watcher that has not seen anything yet.
pub open spec fn initial() -> WatcherState {
    WatcherState { status: TaskStatus::Running, count: 0 }
}

/// The state after the stream has delivered `received`: an event, or `None`
/// for a stream that has closed. Once the task has ended, nothing that
/// arrives changes the state.
pub open spec fn step(state: WatcherState, received: Option<Event>) -> WatcherState {
    match state.status {
        TaskStatus::Running => match received {
            None => WatcherState { status: TaskStatus::Ended, count: state.count },
            Some(event) => match counted(state.count, event) {
                Some(count) => WatcherState { status: TaskStatus::Running, count },
                None => WatcherState { status: TaskStatus::Faulted, count: state.count },
            },
        },
        _ => state,
    }
}

/// The state after the stream has delivered `receipts`, one after the other.
pub open spec fn run(state: WatcherState, receipts: Seq<Option<Event>>) -> WatcherState
    decreases receipts.len(),
{
    if receipts.len() == 0 {
        state
    } else {
        step(run(state, receipts.drop_last()), receipts.last())
    }
}

/// `events` as the receipts of a stream that stays open.
pub open spec fn delivered(events: Seq<Event>) -> Seq<Option<Event>> {
    events.map_values(|event: Event| Some(event))
}

/// How often `event` occurs in `events`.
pub open spec fn occurrences(events: Seq<Event>, event: Event) -> nat
    decreases events.len(),
{
    if events.len() == 0 {
        0
    } else {
        occurrences(events.drop_last(), event) + if events.last() == event {
            1nat
        } else {
            0nat
        }
    }
}

/// Whether no worker in `events` finishes work before it has started it: at
/// every point of the sequence at least as many have started as finished.
pub open spec fn causal(events: Seq<Event>) -> bool {
    forall|k: int|
        0 <= k <= events.len() ==> occurrences(#[trigger] events.take(k), Event::DoneWork)
            <= occurrences(events.take(k), Event::GotWork)
}

/// What teardown does with the task. `status` is what the watcher knows of
/// the task from the receipts it has taken in, `task_finished` is what the
/// owner of the task sees: whether the task has come to its end. A task that
/// has come to its end while the watcher still counts on it has died of
/// something else than the events, and that is raised again as well.
pub open spec fn teardown_of(status: TaskStatus, task_finished: bool) -> Teardown {
    match status {
        TaskStatus::Running => if task_finished {
            Teardown::Reraise
        } else {
            Teardown::Cancel
        },
        TaskStatus::Ended => Teardown::Join,
        TaskStatus::Faulted => Teardown::Reraise,
    }
}

/// What a read of the count does with the task before it reads: nothing
/// while the task runs, the teardown as soon as the task has stopped.
pub open spec fn teardown_before_read_of(status: TaskStatus, task_finished: bool) -> Option<
    Teardown,
> {
    if status == TaskStatus::Running && !task_finished {
        None
    } else {
        Some(teardown_of(status, task_finished))
    }
}

/// The count of busy workers and the status of the task that keeps it.
pub struct WorkerWatcher {
    running_workers: usize,
    task: TaskStatus,
}

impl View for WorkerWatcher {
    type V = WatcherState;

    closed spec fn view(&self) -> WatcherState {
        WatcherState { status: self.task, count: self.running_workers as nat }
    }
}

impl WorkerWatcher {
    /// A watcher whose task runs and that counts no busy worker.
    pub fn new() -> (watcher: Self)
        ensures
            watcher@ == initial(),
    {
        WorkerWatcher { running_workers: 0, task: TaskStatus::Running }
    }

    /// Takes in what the event stream has delivered, `None` standing for a
    /// closed stream, and returns the status that the task has from now on.
    /// The task goes on while the status is `Running`.
    pub fn observe(&mut self, received: Option<Event>) -> (status: TaskStatus)
        requires
            old(self)@.status == TaskStatus::Running && received == Some(Event::GotWork)
                ==> old(self)@.count < usize::MAX,
        ensures
            final(self)@ == step(old(self)@, received),
            status == final(self)@.status,
    {
        match self.task {
            TaskStatus::Running => match received {
                None => {
                    self.task = TaskStatus::Ended;
                },
                Some(Event::GotWork) => {
                    self.running_workers = self.running_workers + 1;
                },
                Some(Event::DoneWork) => {
                    if self.running_workers > 0 {
                        self.running_workers = self.running_workers - 1;
                    } else {
                        self.task = TaskStatus::Faulted;
                    }
                },
            },
            _ => {},
        }
        self.task
    }

    /// The status of the background task.
    pub fn status(&self) -> (status: TaskStatus)
        ensures
            status == self@.status,
    {
        self.task
    }

    /// Whether the task has aborted on a count that would have gone below
    /// zero.
    pub fn is_faulted(&self) -> (faulted: bool)
        ensures
            faulted <==> self@.status == TaskStatus::Faulted,
    {
        match self.task {
            TaskStatus::Faulted => true,
            _ => false,
        }
    }

    /// The number of busy workers. A watcher whose task has aborted has no
    /// count to give: its fault is to be raised instead.
    pub fn running_workers(&self) -> (count: usize)
        requires
            self@.status != TaskStatus::Faulted,
        ensures
            count == self@.count,
    {
        self.running_workers
    }

    /// What disposing of the watcher does with its task. `task_finished`
    /// says whether the task has come to its end.
    pub fn teardown(&self, task_finished: bool) -> (action: Teardown)
        ensures
            action == teardown_of(self@.status, task_finished),
    {
        match self.task {
            TaskStatus::Running => if task_finished {
                Teardown::Reraise
            } else {
                Teardown::Cancel
            },
            TaskStatus::Ended => Teardown::Join,
            TaskStatus::Faulted => Teardown::Reraise,
        }
    }

    /// What a read of the count does with the task before it reads. A task
    /// that has stopped is torn down at once, so that a fault shows at the
    /// first read after it and not only when the watcher is disposed of.
    pub fn teardown_before_read(&self, task_finished: bool) -> (action: Option<Teardown>)
        ensures
            action == teardown_before_read_of(self@.status, task_finished),
    {
        match self.task {
            TaskStatus::Running => if task_finished {
                Some(Teardown::Reraise)
            } else {
                None
            },
            TaskStatus::Ended => Some(Teardown::Join),
            TaskStatus::Faulted => Some(Teardown::Reraise),
        }
    }
}

/// Delivering one more receipt is one more step.
pub proof fn lemma_run_push(
    state: WatcherState,
    receipts: Seq<Option<Event>>,
    received: Option<Event>,
)
    ensures
        run(state, receipts.push(received)) == step(run(state, receipts), received),
{
    assert(receipts.push(received).drop_last() =~= receipts);
}

/// When a stream that stays open has delivered `events`, and no worker in
/// them finishes before it starts, the task still runs and the count is the
/// number of `GotWork` less the number of `DoneWork`, in whatever order the
/// events came.
pub proof fn lemma_counter_accuracy(events: Seq<Event>)
    requires
        causal(events),
    ensures
        run(initial(), delivered(events)).status == TaskStatus::Running,
        run(initial(), delivered(events)).count == occurrences(events, Event::GotWork)
            - occurrences(events, Event::DoneWork),
    decreases events.len(),
{
    if events.len() > 0 {
        let earlier = events.drop_last();
        assert forall|k: int| 0 <= k <= earlier.len() implies occurrences(
            #[trigger] earlier.take(k),
            Event::DoneWork,
        ) <= occurrences(earlier.take(k), Event::GotWork) by {
            assert(earlier.take(k) =~= events.take(k));
        }
        lemma_counter_accuracy(earlier);
        assert(delivered(events) =~= delivered(earlier).push(Some(events.last())));
        lemma_run_push(initial(), delivered(earlier), Some(events.last()));
        assert(events.take(events.len() as int) =~= events);
    }
}

/// A stream that stays open leaves the task running exactly when no worker in
/// it finishes before it starts; otherwise the task aborts.
pub proof fn lemma_faults_unless_causal(events: Seq<Event>)
    ensures
        causal(events) <==> run(initial(), delivered(events)).status == TaskStatus::Running,
        !causal(events) <==> run(initial(), delivered(events)).status == TaskStatus::Faulted,
    decreases events.len(),
{
    if events.len() == 0 {
        assert forall|k: int| 0 <= k <= events.len() implies occurrences(
            #[trigger] events.take(k),
            Event::DoneWork,
        ) <= occurrences(events.take(k), Event::GotWork) by {
            assert(events.take(k) =~= events);
        }
    } else {
        let earlier = events.drop_last();
        let whole = events.len() as int;
        lemma_faults_unless_causal(earlier);
        assert(delivered(events) =~= delivered(earlier).push(Some(events.last())));
        lemma_run_push(initial(), delivered(earlier), Some(events.last()));
        assert(events.take(whole) =~= events);
        assert forall|k: int| 0 <= k <= earlier.len() implies #[trigger] earlier.take(k)
            == events.take(k) by {
            assert(earlier.take(k) =~= events.take(k));
        }
        if causal(earlier) {
            lemma_counter_accuracy(earlier);
            assert(earlier.take(earlier.len() as int) =~= earlier);
            if run(initial(), delivered(events)).status == TaskStatus::Running {
                assert forall|k: int| 0 <= k <= events.len() implies occurrences(
                    #[trigger] events.take(k),
                    Event::DoneWork,
                ) <= occurrences(events.take(k), Event::GotWork) by {
                    if k < whole {
                        assert(earlier.take(k) == events.take(k));
                    }
                }
            } else {
                assert(occurrences(events.take(whole), Event::DoneWork) > occurrences(
                    events.take(whole),
                    Event::GotWork,
                ));
            }
        } else {
            let k = choose|k: int|
                0 <= k <= earlier.len() && !(occurrences(
                    #[trigger] earlier.take(k),
                    Event::DoneWork,
                ) <= occurrences(earlier.take(k), Event::GotWork));
            assert(earlier.take(k) == events.take(k));
        }
    }
}

/// A task that has stopped stays as it is: whatever the stream delivers
/// afterwards, neither the status nor the count changes.
pub proof fn lemma_stopped_stays(state: WatcherState, receipts: Seq<Option<Event>>)
    requires
        state.status != TaskStatus::Running,
    ensures
        run(state, receipts) == state,
    decreases receipts.len(),
{
    if receipts.len() > 0 {
        lemma_stopped_stays(state, receipts.drop_last());
    }
}

/// When a running watcher that counts no busy worker is told that a worker
/// has finished, its task aborts and the count stays at zero, not below.
/// After that, whatever else arrives and whether or not the task has come to
/// its end, every read tears the watcher down first, and every teardown
/// raises the fault.
pub proof fn lemma_underflow_faults(
    state: WatcherState,
    later: Seq<Option<Event>>,
    task_finished: bool,
)
    requires
        state.status == TaskStatus::Running,
        state.count == 0,
    ensures
        step(state, Some(Event::DoneWork)) == (WatcherState {
            status: TaskStatus::Faulted,
            count: 0,
        }),
        run(step(state, Some(Event::DoneWork)), later) == step(state, Some(Event::DoneWork)),
        teardown_of(run(step(state, Some(Event::DoneWork)), later).status, task_finished)
            == Teardown::Reraise,
        teardown_before_read_of(
            run(step(state, Some(Event::DoneWork)), later).status,
            task_finished,
        ) == Some(Teardown::Reraise),
{
    lemma_stopped_stays(step(state, Some(Event::DoneWork)), later);
}

/// The count never goes below zero and a fault comes from nothing but an
/// underflow: a step from a running watcher ends in `Faulted` exactly when a
/// worker finishes while the count is zero.
pub proof fn lemma_fault_only_on_underflow(state: WatcherState, received: Option<Event>)
    requires
        state.status == TaskStatus::Running,
    ensures
        step(state, received).status == TaskStatus::Faulted <==> (received == Some(Event::DoneWork)
            && state.count == 0),
        step(state, received).status == TaskStatus::Ended <==> received.is_none(),
{
}

} // verus!
