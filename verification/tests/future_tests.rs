//! The promise/event pair: single fulfilment, consumption, abandonment.

use em_bindgen::future::{event, FulfillError, Promise, PromisePool, SlotPhase};

#[test]
fn fulfill_then_block_on_yields_value() {
    let mut pool: PromisePool<i32> = PromisePool::new();
    let (ev, pr) = event(&mut pool);
    ev.fulfill(&mut pool, 42);
    assert_eq!(pool.phase(0), SlotPhase::Fulfilled);
    let got = pr.block_on(&mut pool);
    assert_eq!(got, 42);
    assert_eq!(pool.phase(0), SlotPhase::Consumed);
}

#[test]
fn try_take_returns_promise_while_pending() {
    let mut pool: PromisePool<String> = PromisePool::new();
    let (ev, pr) = event(&mut pool);
    let pr = match pr.try_take(&mut pool) {
        Ok(_) => panic!("nothing was fulfilled yet"),
        Err(p) => p,
    };
    ev.fulfill(&mut pool, String::from("done"));
    match pr.try_take(&mut pool) {
        Ok(v) => assert_eq!(v, "done"),
        Err(_) => panic!("the cell was fulfilled"),
    }
}

#[test]
fn abandoned_promise_frees_late_fulfilment() {
    let mut pool: PromisePool<Vec<u8>> = PromisePool::new();
    let (ev, pr) = event(&mut pool);
    pr.abandon(&mut pool);
    assert_eq!(pool.phase(0), SlotPhase::Abandoned);
    ev.fulfill(&mut pool, vec![1, 2, 3]);
    assert_eq!(pool.phase(0), SlotPhase::Freed);
}

#[test]
fn abandoning_a_fulfilled_promise_frees_it() {
    let mut pool: PromisePool<u8> = PromisePool::new();
    let (ev, pr) = event(&mut pool);
    ev.fulfill(&mut pool, 9);
    pr.abandon(&mut pool);
    assert_eq!(pool.phase(0), SlotPhase::Freed);
}

#[test]
fn fulfill_ref_refuses_second_settlement() {
    let mut pool: PromisePool<u32> = PromisePool::new();
    let (ev, _pr) = event(&mut pool);
    assert!(ev.fulfill_ref(&mut pool, 1).is_ok());
    match ev.fulfill_ref(&mut pool, 2) {
        Err(FulfillError::AlreadyFulfilled(v)) => assert_eq!(v, 2),
        Ok(()) => panic!("the second settlement must be refused"),
    }
    assert_eq!(pool.phase(0), SlotPhase::Fulfilled);
}

#[test]
fn raw_round_trip_preserves_the_cell() {
    let mut pool: PromisePool<i64> = PromisePool::new();
    let (ev, pr) = event(&mut pool);
    let raw = pr.into_raw();
    assert_eq!(raw, 0);
    let pr: Promise<i64> = Promise::from_raw(raw);
    ev.fulfill(&mut pool, -7);
    assert_eq!(pr.block_on(&mut pool), -7);
}

#[test]
fn wake_cycle_chains_the_blocked_thread_forward() {
    let mut pool: PromisePool<usize> = PromisePool::new();
    let (ev, pr) = event(&mut pool);
    // A wake: the old cell is fulfilled with the index of the fresh cell.
    let next_ev = em_bindgen::future::wake_cycle(&mut pool, ev);
    let next_raw = pr.block_on(&mut pool);
    assert_eq!(next_raw, 1);
    assert_eq!(next_ev.id(), 1);
    assert_eq!(pool.phase(1), SlotPhase::Pending);
    // The next wake moves the parked thread on again.
    let pr: Promise<usize> = Promise::from_raw(next_raw);
    let _ev3 = em_bindgen::future::wake_cycle(&mut pool, next_ev);
    assert_eq!(pr.block_on(&mut pool), 2);
}
