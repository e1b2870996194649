//! The proxying queue: the four submission modes and the callback/cancel
//! discipline.

use em_bindgen::proxying::{BlockingOutcome, Queue, RunAction};

const MAIN: u64 = 1;
const WORKER: u64 = 2;

#[test]
fn proxy_queues_for_the_target_thread() {
    let mut q: Queue<()> = Queue::new();
    assert!(q.proxy(WORKER, 10));
    // Nothing is due on the main thread.
    assert!(q.execute(MAIN).is_none());
    // The worker gets the job, exactly once.
    match q.execute(WORKER) {
        Some(RunAction::Run { job, .. }) => assert_eq!(job, 10),
        _ => panic!("the worker has one job to run"),
    }
    assert!(q.execute(WORKER).is_none());
}

#[test]
fn proxy_local_targets_the_calling_thread() {
    let mut q: Queue<()> = Queue::new();
    assert!(q.proxy_local(MAIN, 77));
    match q.execute(MAIN) {
        Some(RunAction::Run { job, .. }) => assert_eq!(job, 77),
        _ => panic!("the job was queued for this thread"),
    }
}

#[test]
fn execute_is_fifo_per_thread() {
    let mut q: Queue<()> = Queue::new();
    assert!(q.proxy(WORKER, 1));
    assert!(q.proxy(MAIN, 2));
    assert!(q.proxy(WORKER, 3));
    let jobs: Vec<u64> = std::iter::from_fn(|| match q.execute(WORKER) {
        Some(RunAction::Run { job, .. }) => Some(job),
        _ => None,
    })
    .collect();
    assert_eq!(jobs, vec![1, 3]);
}

#[test]
fn proxy_blocking_short_circuits_on_the_same_thread() {
    let mut q: Queue<()> = Queue::new();
    let mut ran = false;
    let out = q.proxy_blocking(MAIN, MAIN, 5, || {
        ran = true;
        123
    });
    match out {
        BlockingOutcome::Ran(v) => assert_eq!(v, 123),
        _ => panic!("the closure runs in line when the target is this thread"),
    }
    assert!(ran);
    // No queue round-trip happened.
    assert!(q.execute(MAIN).is_none());
}

#[test]
fn proxy_blocking_cross_thread_submits() {
    let mut q: Queue<()> = Queue::new();
    match q.proxy_blocking(MAIN, WORKER, 5, || 0) {
        BlockingOutcome::Submitted => {},
        _ => panic!("a cross-thread blocking proxy queues the job"),
    }
    match q.execute(WORKER) {
        Some(RunAction::Run { job, .. }) => assert_eq!(job, 5),
        _ => panic!("the worker runs the submitted job"),
    }
}

#[test]
fn rejected_proxy_never_runs() {
    let mut q: Queue<()> = Queue::new();
    let cancelled = q.close();
    assert!(cancelled.is_empty());
    let mut ran = false;
    assert!(!q.proxy(WORKER, 10));
    match q.proxy_blocking(MAIN, WORKER, 11, || {
        ran = true;
    }) {
        BlockingOutcome::Rejected => {},
        _ => panic!("a closed queue refuses submissions"),
    }
    assert!(!ran);
    assert!(q.execute(WORKER).is_none());
    assert!(q.execute(MAIN).is_none());
}

#[test]
fn callback_fires_after_the_call_phase() {
    let mut q: Queue<&'static str> = Queue::new();
    assert!(q.proxy_callback(WORKER, MAIN, 40, "receiver"));
    // Call phase on the worker.
    match q.execute(WORKER) {
        Some(RunAction::Run { job, .. }) => assert_eq!(job, 40),
        _ => panic!("the call phase runs on the worker"),
    }
    // Callback phase on the origin, consuming the receiver.
    match q.execute(MAIN) {
        Some(RunAction::DeliverCallback { job, recv, .. }) => {
            assert_eq!(job, 40);
            assert_eq!(recv, "receiver");
        },
        _ => panic!("the callback is delivered on the origin"),
    }
    // Exactly once: nothing else fires, and teardown cancels nothing.
    assert!(q.execute(MAIN).is_none());
    assert!(q.execute(WORKER).is_none());
    assert!(q.close().is_empty());
}

#[test]
fn context_defers_the_callback_until_finish() {
    let mut q: Queue<u32> = Queue::new();
    assert!(q.proxy_callback_with_ctx(WORKER, MAIN, 50, 900));
    let ctx = match q.execute(WORKER) {
        Some(RunAction::RunWithCtx { job, ctx, .. }) => {
            assert_eq!(job, 50);
            ctx
        },
        _ => panic!("the call phase receives a context"),
    };
    // Until the context finishes, no callback is due.
    assert!(q.execute(MAIN).is_none());
    ctx.finish(&mut q);
    match q.execute(MAIN) {
        Some(RunAction::DeliverCallback { recv, .. }) => assert_eq!(recv, 900),
        _ => panic!("finishing the context queues the callback"),
    }
}

#[test]
fn close_cancels_pending_receivers_exactly_once() {
    let mut q: Queue<&'static str> = Queue::new();
    assert!(q.proxy_callback(WORKER, MAIN, 60, "left"));
    assert!(q.proxy_callback(WORKER, MAIN, 61, "right"));
    assert!(q.proxy(WORKER, 62));
    // The first submission completes its call and callback phases.
    assert!(matches!(q.execute(WORKER), Some(RunAction::Run { job: 60, .. })));
    assert!(matches!(
        q.execute(MAIN),
        Some(RunAction::DeliverCallback { recv: "left", .. })
    ));
    // Teardown: only the still-pending receiver goes to the cancel phase.
    let cancelled = q.close();
    assert_eq!(cancelled, vec!["right"]);
    // And the queue hands out no further work at all.
    assert!(q.execute(WORKER).is_none());
    assert!(q.execute(MAIN).is_none());
    assert!(q.close().is_empty());
}
