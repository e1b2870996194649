//! The cooperative mutex: mutual exclusion and FIFO wake order.

use em_bindgen::sync::mutex::{LockAttempt, Mutex};

#[test]
fn try_lock_fails_while_held() {
    let mut m = Mutex::new(0u32);
    let g = m.try_lock().expect("the lock is free");
    assert!(m.try_lock().is_none());
    assert!(m.unlock(g).is_none());
    assert!(m.try_lock().is_some());
}

#[test]
fn contended_lock_parks_and_wakes_in_fifo_order() {
    let mut m = Mutex::new(0u32);
    let g = match m.lock(101) {
        LockAttempt::Acquired(g) => g,
        LockAttempt::Parked => panic!("the lock was free"),
    };
    assert!(matches!(m.lock(201), LockAttempt::Parked));
    assert!(matches!(m.lock(301), LockAttempt::Parked));
    // Unlock wakes the earliest-parked waiter first.
    assert_eq!(m.unlock(g), Some(201));
    let g2 = match m.lock(201) {
        LockAttempt::Acquired(g) => g,
        LockAttempt::Parked => panic!("the woken waiter finds the lock free"),
    };
    assert_eq!(m.unlock(g2), Some(301));
}

#[test]
fn n_queued_attempts_yield_n_exclusive_acquisitions() {
    // Three cooperative tasks all want the lock; a counter incremented only
    // under the lock ends at exactly three.
    let mut m = Mutex::new(0u32);
    let mut acquisitions = 0;
    let mut woken: Vec<u64> = vec![11, 22, 33];
    while let Some(task) = woken.first().copied() {
        woken.remove(0);
        match m.lock(task) {
            LockAttempt::Acquired(g) => {
                // No one else can get in while the guard lives.
                assert!(m.try_lock().is_none());
                let v = *m.get(&g);
                m.set(&g, v + 1);
                acquisitions += 1;
                if let Some(next) = m.unlock(g) {
                    woken.push(next);
                }
            },
            LockAttempt::Parked => {
                // The mutex holds the waiter; it comes back through a wake.
            },
        }
    }
    assert_eq!(acquisitions, 3);
    let g = m.try_lock().expect("everything is released at the end");
    assert_eq!(*m.get(&g), 3);
}

#[test]
fn guard_epochs_distinguish_acquisitions() {
    let mut m = Mutex::new(());
    let g1 = m.try_lock().expect("free");
    m.unlock(g1);
    let g2 = m.try_lock().expect("free again");
    // The second acquisition carries a fresh stamp; releasing it works.
    assert!(m.unlock(g2).is_none());
}
