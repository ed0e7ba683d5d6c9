use worker_pool::pool::worker_watcher::{Event, TaskStatus, Teardown};
use worker_pool::pool::WorkerWatcher;

fn deliver(watcher: &mut WorkerWatcher, events: &[Event]) {
    for event in events {
        watcher.observe(Some(*event));
    }
}

#[test]
fn got_work_two_times() {
    let mut worker_watcher = WorkerWatcher::new();

    worker_watcher.observe(Some(Event::GotWork));
    worker_watcher.observe(Some(Event::GotWork));

    assert_eq!(worker_watcher.running_workers(), 2);
}

#[test]
fn one_of_two_done_work() {
    let mut worker_watcher = WorkerWatcher::new();

    worker_watcher.observe(Some(Event::GotWork));
    worker_watcher.observe(Some(Event::GotWork));

    worker_watcher.observe(Some(Event::DoneWork));

    assert_eq!(worker_watcher.running_workers(), 1);
}

#[test]
fn two_done_work() {
    let mut worker_watcher = WorkerWatcher::new();

    worker_watcher.observe(Some(Event::GotWork));
    worker_watcher.observe(Some(Event::GotWork));

    worker_watcher.observe(Some(Event::DoneWork));
    worker_watcher.observe(Some(Event::DoneWork));

    assert_eq!(worker_watcher.running_workers(), 0);
}

#[test]
#[should_panic]
fn done_more_than_got() {
    let mut worker_watcher = WorkerWatcher::new();

    worker_watcher.observe(Some(Event::GotWork));
    worker_watcher.observe(Some(Event::GotWork));

    worker_watcher.observe(Some(Event::DoneWork));
    worker_watcher.observe(Some(Event::DoneWork));
    worker_watcher.observe(Some(Event::DoneWork));

    // Disposal raises the fault of the task again.
    if worker_watcher.teardown(true) == Teardown::Reraise {
        panic!("a worker finished work that never started");
    }
}

#[test]
fn new_watcher_runs_and_counts_nothing() {
    let watcher = WorkerWatcher::new();

    assert_eq!(watcher.status(), TaskStatus::Running);
    assert!(!watcher.is_faulted());
    assert_eq!(watcher.running_workers(), 0);
    assert_eq!(watcher.teardown(false), Teardown::Cancel);
    assert_eq!(watcher.teardown_before_read(false), None);
}

#[test]
fn observe_returns_the_status_of_the_task() {
    let mut watcher = WorkerWatcher::new();

    assert_eq!(watcher.observe(Some(Event::GotWork)), TaskStatus::Running);
    assert_eq!(watcher.observe(Some(Event::DoneWork)), TaskStatus::Running);
    assert_eq!(watcher.observe(Some(Event::DoneWork)), TaskStatus::Faulted);
    assert_eq!(watcher.observe(None), TaskStatus::Faulted);
}

#[test]
fn underflow_faults_and_keeps_the_count_at_zero() {
    let mut watcher = WorkerWatcher::new();

    assert_eq!(watcher.observe(Some(Event::DoneWork)), TaskStatus::Faulted);

    assert!(watcher.is_faulted());
    assert_eq!(watcher.status(), TaskStatus::Faulted);
    assert_eq!(watcher.teardown(true), Teardown::Reraise);
    assert_eq!(watcher.teardown(false), Teardown::Reraise);
    assert_eq!(watcher.teardown_before_read(true), Some(Teardown::Reraise));
    assert_eq!(watcher.teardown_before_read(false), Some(Teardown::Reraise));
}

#[test]
fn fault_is_permanent() {
    let mut watcher = WorkerWatcher::new();
    deliver(&mut watcher, &[Event::GotWork, Event::DoneWork, Event::DoneWork]);
    assert!(watcher.is_faulted());

    assert_eq!(watcher.observe(Some(Event::GotWork)), TaskStatus::Faulted);
    assert_eq!(watcher.observe(Some(Event::GotWork)), TaskStatus::Faulted);
    assert_eq!(watcher.observe(None), TaskStatus::Faulted);

    assert!(watcher.is_faulted());
    assert_eq!(watcher.teardown(true), Teardown::Reraise);
}

#[test]
fn closed_stream_ends_the_task_and_keeps_the_count() {
    let mut watcher = WorkerWatcher::new();
    deliver(&mut watcher, &[Event::GotWork, Event::GotWork, Event::GotWork, Event::DoneWork]);

    assert_eq!(watcher.observe(None), TaskStatus::Ended);

    assert_eq!(watcher.status(), TaskStatus::Ended);
    assert!(!watcher.is_faulted());
    assert_eq!(watcher.running_workers(), 2);
    assert_eq!(watcher.teardown(true), Teardown::Join);
    assert_eq!(watcher.teardown(false), Teardown::Join);
    assert_eq!(watcher.teardown_before_read(true), Some(Teardown::Join));
    assert_eq!(watcher.teardown_before_read(false), Some(Teardown::Join));
}

#[test]
fn ended_task_ignores_what_arrives_later() {
    let mut watcher = WorkerWatcher::new();
    deliver(&mut watcher, &[Event::GotWork]);
    watcher.observe(None);

    assert_eq!(watcher.observe(Some(Event::GotWork)), TaskStatus::Ended);
    assert_eq!(watcher.observe(Some(Event::DoneWork)), TaskStatus::Ended);
    assert_eq!(watcher.observe(Some(Event::DoneWork)), TaskStatus::Ended);

    assert_eq!(watcher.running_workers(), 1);
    assert_eq!(watcher.teardown(true), Teardown::Join);
}

#[test]
fn count_is_started_less_finished_for_interleaved_events() {
    let mut watcher = WorkerWatcher::new();
    let events = [
        Event::GotWork,
        Event::GotWork,
        Event::DoneWork,
        Event::GotWork,
        Event::DoneWork,
        Event::GotWork,
        Event::GotWork,
        Event::DoneWork,
        Event::DoneWork,
        Event::GotWork,
    ];
    deliver(&mut watcher, &events);

    assert_eq!(watcher.status(), TaskStatus::Running);
    assert_eq!(watcher.running_workers(), 6 - 4);
}

#[test]
fn count_returns_to_zero_and_rises_again() {
    let mut watcher = WorkerWatcher::new();

    deliver(&mut watcher, &[Event::GotWork, Event::DoneWork]);
    assert_eq!(watcher.running_workers(), 0);
    assert_eq!(watcher.status(), TaskStatus::Running);

    deliver(&mut watcher, &[Event::GotWork]);
    assert_eq!(watcher.running_workers(), 1);
}

#[test]
fn many_workers_are_counted() {
    let mut watcher = WorkerWatcher::new();
    for _ in 0..1000 {
        watcher.observe(Some(Event::GotWork));
    }
    for _ in 0..400 {
        watcher.observe(Some(Event::DoneWork));
    }

    assert_eq!(watcher.running_workers(), 600);
}

#[test]
fn running_task_is_cancelled_and_a_dead_one_is_joined() {
    let mut watcher = WorkerWatcher::new();
    deliver(&mut watcher, &[Event::GotWork]);

    assert_eq!(watcher.teardown(false), Teardown::Cancel);
    assert_eq!(watcher.teardown_before_read(false), None);

    assert_eq!(watcher.teardown(true), Teardown::Reraise);
    assert_eq!(watcher.teardown_before_read(true), Some(Teardown::Reraise));
    assert_eq!(watcher.running_workers(), 1);
}
