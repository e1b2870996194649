//! The local task pool: spawning, draining, panic isolation, teardown.

use em_bindgen::runtime::{JoinError, JoinPoll, LocalRuntime, PollOutcome};

#[test]
fn spawn_schedules_one_drain_callback() {
    let mut rt: LocalRuntime<i32> = LocalRuntime::new();
    let (_h1, schedule1) = rt.spawn();
    let (_h2, schedule2) = rt.spawn();
    // Only the first spawn must ask the host for a callback.
    assert!(schedule1);
    assert!(!schedule2);
}

#[test]
fn drain_runs_tasks_and_join_returns_output() {
    let mut rt: LocalRuntime<i32> = LocalRuntime::new();
    let (h, schedule) = rt.spawn();
    assert!(schedule);
    rt.begin_drain();
    let id = rt.current_task().expect("one task is due");
    assert_eq!(id, h.id());
    rt.report_poll(PollOutcome::Ready(33));
    assert!(rt.current_task().is_none());
    rt.end_drain();
    match h.try_join(&mut rt) {
        JoinPoll::Done(Ok(v)) => assert_eq!(v, 33),
        _ => panic!("the task finished with 33"),
    }
}

#[test]
fn pending_task_stays_for_the_next_pass() {
    let mut rt: LocalRuntime<&'static str> = LocalRuntime::new();
    let (h, _) = rt.spawn();
    rt.begin_drain();
    rt.report_poll(PollOutcome::Pending);
    assert!(rt.current_task().is_none());
    rt.end_drain();
    let h = match h.try_join(&mut rt) {
        JoinPoll::Waiting(h) => h,
        JoinPoll::Done(_) => panic!("the task is still pending"),
    };
    // A wake re-arms the drain; the next pass completes the task.
    assert!(rt.enqueue());
    rt.begin_drain();
    rt.report_poll(PollOutcome::Ready("late"));
    rt.end_drain();
    match h.try_join(&mut rt) {
        JoinPoll::Done(Ok(v)) => assert_eq!(v, "late"),
        _ => panic!("the task finished on the second pass"),
    }
}

#[test]
fn panic_is_reported_and_other_tasks_still_run() {
    let mut rt: LocalRuntime<u8> = LocalRuntime::new();
    let (bad, _) = rt.spawn();
    let (good, _) = rt.spawn();
    rt.begin_drain();
    assert_eq!(rt.current_task(), Some(bad.id()));
    rt.report_poll(PollOutcome::Panicked);
    // The pool is not corrupted: the next task is polled in the same pass.
    assert_eq!(rt.current_task(), Some(good.id()));
    rt.report_poll(PollOutcome::Ready(7));
    rt.end_drain();
    match bad.try_join(&mut rt) {
        JoinPoll::Done(Err(JoinError::Panic)) => {},
        _ => panic!("the panicked task must report JoinError::Panic"),
    }
    match good.try_join(&mut rt) {
        JoinPoll::Done(Ok(v)) => assert_eq!(v, 7),
        _ => panic!("the healthy task still ran"),
    }
    // And tasks spawned afterwards run too.
    let (after, schedule) = rt.spawn();
    assert!(schedule);
    rt.begin_drain();
    rt.report_poll(PollOutcome::Ready(9));
    rt.end_drain();
    match after.try_join(&mut rt) {
        JoinPoll::Done(Ok(v)) => assert_eq!(v, 9),
        _ => panic!("a later task still runs after a panic"),
    }
}

#[test]
fn tasks_spawned_during_a_drain_wait_in_the_backlog() {
    let mut rt: LocalRuntime<u32> = LocalRuntime::new();
    let (first, _) = rt.spawn();
    rt.begin_drain();
    // Spawned mid-drain: not visible to this pass.
    let (second, schedule) = rt.spawn();
    assert!(!schedule);
    assert_eq!(rt.current_task(), Some(first.id()));
    rt.report_poll(PollOutcome::Ready(1));
    assert!(rt.current_task().is_none());
    rt.end_drain();
    // Visible to the next pass.
    assert!(rt.enqueue());
    rt.begin_drain();
    assert_eq!(rt.current_task(), Some(second.id()));
    rt.report_poll(PollOutcome::Ready(2));
    rt.end_drain();
    match second.try_join(&mut rt) {
        JoinPoll::Done(Ok(v)) => assert_eq!(v, 2),
        _ => panic!("the backlogged task ran in the next pass"),
    }
}

#[test]
fn shutdown_aborts_unfinished_tasks() {
    let mut rt: LocalRuntime<i16> = LocalRuntime::new();
    let (h, _) = rt.spawn();
    rt.shutdown();
    match h.try_join(&mut rt) {
        JoinPoll::Done(Err(JoinError::Aborted)) => {},
        _ => panic!("teardown reports Aborted"),
    }
}
