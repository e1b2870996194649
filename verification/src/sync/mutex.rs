//! A mutex for cooperative tasks: a failed lock attempt parks the task on a
//! FIFO waiter queue instead of blocking the thread.
//!
//! Acquisition hands out a move-only `MutexGuard` stamped with the
//! acquisition's epoch; unlocking consumes the guard and reports which
//! parked waiter to wake, the head of the queue. A woken waiter still races
//! any fresh attempt for the lock, so wake order is FIFO but acquisition
//! order is best effort — exactly the host runtime's discipline.

use vstd::prelude::*;

verus! {

/// The mathematical state of a `Mutex`.
pub struct MutexModel<T> {
    /// Whether the lock is held.
    pub locked: bool,
    /// How many acquisitions have happened; the live guard carries this
    /// stamp.
    pub epoch: u64,
    /// Parked waiters' wake tokens, in arrival order.
    pub waiters: Seq<u64>,
    /// The protected value.
    pub value: T,
}

/// Proof that the lock is held: issued at acquisition, consumed at release.
pub struct MutexGuard {
    epoch: u64,
}

impl MutexGuard {
    /// The acquisition this guard belongs to.
    pub closed spec fn spec_epoch(self) -> u64 {
        self.epoch
    }
}

/// A guard is valid for a mutex state when the lock is held and the guard
/// carries the current acquisition's stamp.
pub open spec fn guard_valid<T>(m: MutexModel<T>, g: MutexGuard) -> bool {
    m.locked && g.spec_epoch() == m.epoch
}

/// What a cooperative lock attempt produced.
pub enum LockAttempt {
    /// The lock was free: it is now held and here is the guard.
    Acquired(MutexGuard),
    /// The lock was held: the wake token was parked at the back of the
    /// waiter queue and the task must suspend until woken, then retry.
    Parked,
}

/// A mutex designed to block the thread as little as possible: contended
/// attempts suspend the asking task instead of spinning or blocking.
pub struct Mutex<T> {
    locked: bool,
    epoch: u64,
    waiters: Vec<u64>,
    value: T,
}

impl<T> View for Mutex<T> {
    type V = MutexModel<T>;

    closed spec fn view(&self) -> MutexModel<T> {
        MutexModel {
            locked: self.locked,
            epoch: self.epoch,
            waiters: self.waiters@,
            value: self.value,
        }
    }
}

impl<T> Mutex<T> {
    /// A new unlocked mutex protecting `val`.
    pub fn new(val: T) -> (r: Mutex<T>)
        ensures
            r@ == (MutexModel { locked: false, epoch: 0u64, waiters: Seq::empty(), value: val }),
    {
        let m = Mutex { locked: false, epoch: 0, waiters: Vec::new(), value: val };
        proof {
            assert(m@.waiters =~= Seq::<u64>::empty());
        }
        m
    }

    /// Tries to take the lock without waiting: succeeds exactly when the
    /// lock is free, and then stamps and returns the guard.
    pub fn try_lock(&mut self) -> (r: Option<MutexGuard>)
        requires
            old(self)@.epoch < u64::MAX,
        ensures
            old(self)@.locked ==> (r is None && final(self)@ == old(self)@),
            !old(self)@.locked ==> (r matches Some(g) && g.spec_epoch() == old(self)@.epoch + 1
                && final(self)@ == (MutexModel {
                locked: true,
                epoch: (old(self)@.epoch + 1) as u64,
                ..old(self)@
            }) && guard_valid(final(self)@, g)),
    {
        if self.locked {
            return None;
        }
        self.locked = true;
        self.epoch = self.epoch + 1;
        Some(MutexGuard { epoch: self.epoch })
    }

    /// One cooperative lock attempt: takes the lock if free; otherwise
    /// parks `waiter` (the task's wake token) at the back of the queue —
    /// the task must then suspend until the token is woken and retry.
    pub fn lock(&mut self, waiter: u64) -> (r: LockAttempt)
        requires
            old(self)@.epoch < u64::MAX,
        ensures
            !old(self)@.locked ==> (r matches LockAttempt::Acquired(g) && g.spec_epoch() == old(
                self,
            )@.epoch + 1 && final(self)@ == (MutexModel {
                locked: true,
                epoch: (old(self)@.epoch + 1) as u64,
                ..old(self)@
            }) && guard_valid(final(self)@, g)),
            old(self)@.locked ==> (r is Parked && final(self)@ == (MutexModel {
                waiters: old(self)@.waiters.push(waiter),
                ..old(self)@
            })),
    {
        if self.locked {
            self.waiters.push(waiter);
            return LockAttempt::Parked;
        }
        self.locked = true;
        self.epoch = self.epoch + 1;
        LockAttempt::Acquired(MutexGuard { epoch: self.epoch })
    }

    /// Releases the lock, consuming its guard, and reports the wake token
    /// of the waiter to wake: the head of the queue, in FIFO order. The
    /// woken task retries its lock attempt and may still lose the race to a
    /// fresh attempt.
    pub fn unlock(&mut self, guard: MutexGuard) -> (r: Option<u64>)
        requires
            guard_valid(old(self)@, guard),
        ensures
            !final(self)@.locked,
            final(self)@.epoch == old(self)@.epoch,
            final(self)@.value == old(self)@.value,
            old(self)@.waiters.len() == 0 ==> (r is None && final(self)@.waiters
                == old(self)@.waiters),
            old(self)@.waiters.len() > 0 ==> (r == Some(old(self)@.waiters[0])
                && final(self)@.waiters == old(self)@.waiters.drop_first()),
    {
        self.locked = false;
        if self.waiters.len() > 0 {
            let woken = self.waiters.remove(0);
            proof {
                assert(self@.waiters =~= old(self)@.waiters.drop_first());
            }
            Some(woken)
        } else {
            None
        }
    }

    /// Reads the protected value; asking requires holding the lock.
    pub fn get(&self, guard: &MutexGuard) -> (r: &T)
        requires
            guard_valid(self@, *guard),
        ensures
            *r == self@.value,
    {
        &self.value
    }

    /// Replaces the protected value, returning the old one; asking requires
    /// holding the lock. Nothing else about the mutex changes.
    pub fn set(&mut self, guard: &MutexGuard, val: T) -> (r: T)
        requires
            guard_valid(old(self)@, *guard),
        ensures
            r == old(self)@.value,
            final(self)@ == (MutexModel { value: val, ..old(self)@ }),
            guard_valid(final(self)@, *guard),
    {
        let mut r = val;
        core::mem::swap(&mut self.value, &mut r);
        r
    }
}

/// Law: mutual exclusion. Two guards valid for the same mutex state are
/// the same guard — at most one guard is live at any time, because every
/// acquisition advances the epoch and validity demands the current stamp.
pub proof fn lemma_guard_unique<T>(m: MutexModel<T>, g1: MutexGuard, g2: MutexGuard)
    requires
        guard_valid(m, g1),
        guard_valid(m, g2),
    ensures
        g1 == g2,
{
}

/// Law: a guard from an earlier acquisition can never validate again —
/// the epoch only grows, so once a later acquisition happens the old guard
/// is dead, and double release is impossible.
pub proof fn lemma_stale_guard_dead<T>(m: MutexModel<T>, m2: MutexModel<T>, g: MutexGuard)
    requires
        guard_valid(m, g),
        m2.epoch > m.epoch,
    ensures
        !guard_valid(m2, g),
{
}

/// Law: FIFO wake, each waiter at most once. Releasing wakes exactly the
/// head of the waiter queue; if the parked tokens are distinct, the woken
/// token is no longer among the waiters, so it cannot be woken twice.
pub proof fn lemma_fifo_wake_once(waiters: Seq<u64>)
    requires
        waiters.len() > 0,
        forall|i: int, j: int|
            0 <= i < j < waiters.len() ==> #[trigger] waiters[i] != #[trigger] waiters[j],
    ensures
        !waiters.drop_first().contains(waiters[0]),
{
    let rest = waiters.drop_first();
    if rest.contains(waiters[0]) {
        let k = choose|k: int| 0 <= k < rest.len() && rest[k] == waiters[0];
        assert(waiters[0] == waiters[k + 1]);
        assert(false);
    }
}

} // verus!
