//! Single-fulfilment promise cells and the `Event`/`Promise` capability pair.
//!
//! A `PromisePool` is the per-thread arena of promise cells. `event` creates
//! one cell and returns the two capabilities over it: the `Event` may fulfil
//! it exactly once, the `Promise` may consume the settled value exactly once.
//! Both capabilities are move-only tokens, so double fulfilment and double
//! consumption are ruled out structurally; `fulfill_ref` is the escape hatch
//! for shared producers and reports `AlreadyFulfilled` instead.

use vstd::prelude::*;
use core::marker::PhantomData;

verus! {

/// The lifecycle of one promise cell.
pub enum PromiseSlot<T> {
    /// Created; neither fulfilled nor abandoned yet.
    Pending,
    /// Fulfilled with a value that has not been consumed.
    Fulfilled(T),
    /// The consumer was dropped before fulfilment; a continuation that frees
    /// the eventual payload is armed.
    Abandoned,
    /// The consumer took the value.
    Consumed,
    /// The payload was released by the drop continuation.
    Freed,
}

/// The arena of promise cells owned by one thread.
pub struct PromisePool<T> {
    slots: Vec<PromiseSlot<T>>,
}

impl<T> View for PromisePool<T> {
    type V = Seq<PromiseSlot<T>>;

    closed spec fn view(&self) -> Seq<PromiseSlot<T>> {
        self.slots@
    }
}

/// What fulfilling cell `id` with `v` does to the arena: a pending cell
/// stores the value, an abandoned cell releases it at once; settled cells are
/// left alone (fulfilment of them is refused by the operations below).
pub open spec fn fulfill_transition<T>(s: Seq<PromiseSlot<T>>, id: int, v: T) -> Seq<
    PromiseSlot<T>,
> {
    if 0 <= id < s.len() {
        match s[id] {
            PromiseSlot::Pending => s.update(id, PromiseSlot::Fulfilled(v)),
            PromiseSlot::Abandoned => s.update(id, PromiseSlot::Freed),
            _ => s,
        }
    } else {
        s
    }
}

/// What consuming cell `id` does to the arena: a fulfilled cell becomes
/// consumed; every other cell is left alone.
pub open spec fn take_transition<T>(s: Seq<PromiseSlot<T>>, id: int) -> Seq<PromiseSlot<T>> {
    if 0 <= id < s.len() && s[id] is Fulfilled {
        s.update(id, PromiseSlot::Consumed)
    } else {
        s
    }
}

/// What dropping the consumer of cell `id` does to the arena: a pending cell
/// arms the drop continuation, a fulfilled cell releases its value at once.
pub open spec fn abandon_transition<T>(s: Seq<PromiseSlot<T>>, id: int) -> Seq<PromiseSlot<T>> {
    if 0 <= id < s.len() {
        match s[id] {
            PromiseSlot::Pending => s.update(id, PromiseSlot::Abandoned),
            PromiseSlot::Fulfilled(_) => s.update(id, PromiseSlot::Freed),
            _ => s,
        }
    } else {
        s
    }
}

/// The single-use fulfilment capability of one promise cell.
pub struct Event<T> {
    id: usize,
    _marker: PhantomData<T>,
}

/// The single-use consumption capability of one promise cell.
pub struct Promise<T> {
    id: usize,
    _marker: PhantomData<T>,
}

/// Refusal of a shared-producer fulfilment; the payload comes back with it.
pub enum FulfillError<T> {
    /// The cell had already been settled; the rejected payload is returned.
    AlreadyFulfilled(T),
}

/// The phase of a promise cell, without its payload.
#[derive(Debug, Clone, Copy, PartialEq, Eq, Structural)]
pub enum SlotPhase {
    /// Neither fulfilled nor abandoned.
    Pending,
    /// Holding an unconsumed value.
    Fulfilled,
    /// Consumer dropped before fulfilment.
    Abandoned,
    /// Value taken by the consumer.
    Consumed,
    /// Payload released by the drop continuation.
    Freed,
}

impl<T> PromisePool<T> {
    /// An empty arena.
    pub fn new() -> (r: PromisePool<T>)
        ensures
            r@ == Seq::<PromiseSlot<T>>::empty(),
    {
        PromisePool { slots: Vec::new() }
    }

    /// How many cells have been created.
    pub fn len(&self) -> (r: usize)
        ensures
            r == self@.len(),
    {
        self.slots.len()
    }

    /// The phase cell `id` is in.
    pub fn phase(&self, id: usize) -> (r: SlotPhase)
        requires
            id < self@.len(),
        ensures
            self@[id as int] is Pending <==> r is Pending,
            self@[id as int] is Fulfilled <==> r is Fulfilled,
            self@[id as int] is Abandoned <==> r is Abandoned,
            self@[id as int] is Consumed <==> r is Consumed,
            self@[id as int] is Freed <==> r is Freed,
    {
        match &self.slots[id] {
            PromiseSlot::Pending => SlotPhase::Pending,
            PromiseSlot::Fulfilled(_) => SlotPhase::Fulfilled,
            PromiseSlot::Abandoned => SlotPhase::Abandoned,
            PromiseSlot::Consumed => SlotPhase::Consumed,
            PromiseSlot::Freed => SlotPhase::Freed,
        }
    }
}

/// Creates one pending promise cell and returns the matched producer and
/// consumer capabilities over it.
pub fn event<T>(pool: &mut PromisePool<T>) -> (r: (Event<T>, Promise<T>))
    ensures
        final(pool)@ == old(pool)@.push(PromiseSlot::Pending),
        r.0.spec_id() == old(pool)@.len(),
        r.1.spec_id() == old(pool)@.len(),
{
    let id = pool.slots.len();
    pool.slots.push(PromiseSlot::Pending);
    (Event { id, _marker: PhantomData }, Promise { id, _marker: PhantomData })
}

impl<T> Event<T> {
    /// The cell this capability fulfils.
    pub closed spec fn spec_id(self) -> usize {
        self.id
    }

    /// The cell index, for handing the capability across the host boundary.
    pub fn id(&self) -> (r: usize)
        ensures
            r == self.spec_id(),
    {
        self.id
    }

    /// Fulfils the cell with `val`, consuming the capability. If the
    /// consumer was already dropped the payload is released immediately.
    pub fn fulfill(self, pool: &mut PromisePool<T>, val: T)
        requires
            self.spec_id() < old(pool)@.len(),
            old(pool)@[self.spec_id() as int] is Pending || old(pool)@[self.spec_id() as int]
                is Abandoned,
        ensures
            final(pool)@ == fulfill_transition(old(pool)@, self.spec_id() as int, val),
    {
        let id = self.id;
        let slot = pool.slots.remove(id);
        match slot {
            PromiseSlot::Pending => {
                pool.slots.insert(id, PromiseSlot::Fulfilled(val));
                proof {
                    assert(pool@ =~= fulfill_transition(old(pool)@, id as int, val));
                }
            },
            PromiseSlot::Abandoned => {
                pool.slots.insert(id, PromiseSlot::Freed);
                proof {
                    assert(pool@ =~= fulfill_transition(old(pool)@, id as int, val));
                }
            },
            _ => {
                proof {
                    assert(false);
                }
            },
        }
    }

    /// Fulfils the cell through a shared reference. The first settlement
    /// wins; any later attempt is refused and the payload handed back.
    pub fn fulfill_ref(&self, pool: &mut PromisePool<T>, val: T) -> (r: Result<
        (),
        FulfillError<T>,
    >)
        requires
            self.spec_id() < old(pool)@.len(),
        ensures
            (old(pool)@[self.spec_id() as int] is Pending || old(pool)@[self.spec_id() as int]
                is Abandoned) ==> r is Ok && final(pool)@ == fulfill_transition(
                old(pool)@,
                self.spec_id() as int,
                val,
            ),
            !(old(pool)@[self.spec_id() as int] is Pending || old(pool)@[self.spec_id() as int]
                is Abandoned) ==> r == Result::<(), FulfillError<T>>::Err(
                FulfillError::AlreadyFulfilled(val),
            ) && final(pool)@ == old(pool)@,
    {
        let id = self.id;
        let slot = pool.slots.remove(id);
        match slot {
            PromiseSlot::Pending => {
                pool.slots.insert(id, PromiseSlot::Fulfilled(val));
                proof {
                    assert(pool@ =~= fulfill_transition(old(pool)@, id as int, val));
                }
                Ok(())
            },
            PromiseSlot::Abandoned => {
                pool.slots.insert(id, PromiseSlot::Freed);
                proof {
                    assert(pool@ =~= fulfill_transition(old(pool)@, id as int, val));
                }
                Ok(())
            },
            other => {
                pool.slots.insert(id, other);
                proof {
                    assert(pool@ =~= old(pool)@);
                }
                Err(FulfillError::AlreadyFulfilled(val))
            },
        }
    }
}

impl<T> Promise<T> {
    /// The cell this capability consumes.
    pub closed spec fn spec_id(self) -> usize {
        self.id
    }

    /// The cell index, for handing the capability across the host boundary.
    pub fn id(&self) -> (r: usize)
        ensures
            r == self.spec_id(),
    {
        self.id
    }

    /// Gives up the capability as a bare cell index.
    pub fn into_raw(self) -> (r: usize)
        ensures
            r == self.spec_id(),
    {
        self.id
    }

    /// Rebuilds the capability from a bare cell index. The caller owes the
    /// guarantee that `raw` came from `into_raw` and was not reused.
    pub fn from_raw(raw: usize) -> (r: Promise<T>)
        ensures
            r.spec_id() == raw,
    {
        Promise { id: raw, _marker: PhantomData }
    }

    /// Consumes the settled value. In the host environment this drives the
    /// event loop until the cell is fulfilled; in the model the fulfilment
    /// must already have happened.
    pub fn block_on(self, pool: &mut PromisePool<T>) -> (r: T)
        requires
            self.spec_id() < old(pool)@.len(),
            old(pool)@[self.spec_id() as int] is Fulfilled,
        ensures
            old(pool)@[self.spec_id() as int] == PromiseSlot::Fulfilled(r),
            final(pool)@ == take_transition(old(pool)@, self.spec_id() as int),
    {
        let id = self.id;
        let slot = pool.slots.remove(id);
        match slot {
            PromiseSlot::Fulfilled(val) => {
                pool.slots.insert(id, PromiseSlot::Consumed);
                proof {
                    assert(pool@ =~= take_transition(old(pool)@, id as int));
                }
                val
            },
            _ => {
                proof {
                    assert(false);
                }
                vstd::pervasive::unreached()
            },
        }
    }

    /// Consumes the settled value if there is one; otherwise hands the
    /// capability back so the caller can park and retry.
    pub fn try_take(self, pool: &mut PromisePool<T>) -> (r: Result<T, Promise<T>>)
        requires
            self.spec_id() < old(pool)@.len(),
        ensures
            old(pool)@[self.spec_id() as int] is Fulfilled ==> (r matches Ok(v) && old(
                pool,
            )@[self.spec_id() as int] == PromiseSlot::Fulfilled(v) && final(pool)@
                == take_transition(old(pool)@, self.spec_id() as int)),
            !(old(pool)@[self.spec_id() as int] is Fulfilled) ==> (r matches Err(p)
                && p.spec_id() == self.spec_id() && final(pool)@ == old(pool)@),
    {
        let id = self.id;
        let slot = pool.slots.remove(id);
        match slot {
            PromiseSlot::Fulfilled(val) => {
                pool.slots.insert(id, PromiseSlot::Consumed);
                proof {
                    assert(pool@ =~= take_transition(old(pool)@, id as int));
                }
                Ok(val)
            },
            other => {
                pool.slots.insert(id, other);
                proof {
                    assert(pool@ =~= old(pool)@);
                }
                Err(self)
            },
        }
    }

    /// The drop path of the consumer: a pending cell arms the continuation
    /// that will free the eventual payload, a fulfilled cell releases its
    /// value right here.
    pub fn abandon(self, pool: &mut PromisePool<T>)
        requires
            self.spec_id() < old(pool)@.len(),
        ensures
            final(pool)@ == abandon_transition(old(pool)@, self.spec_id() as int),
    {
        let id = self.id;
        let slot = pool.slots.remove(id);
        match slot {
            PromiseSlot::Pending => {
                pool.slots.insert(id, PromiseSlot::Abandoned);
                proof {
                    assert(pool@ =~= abandon_transition(old(pool)@, id as int));
                }
            },
            PromiseSlot::Fulfilled(_) => {
                pool.slots.insert(id, PromiseSlot::Freed);
                proof {
                    assert(pool@ =~= abandon_transition(old(pool)@, id as int));
                }
            },
            other => {
                pool.slots.insert(id, other);
                proof {
                    assert(pool@ =~= abandon_transition(old(pool)@, id as int));
                }
            },
        }
    }
}

/// One wake cycle of the blocking executor. The blocked thread parks on
/// the current cell; a wake makes a fresh event/promise pair, keeps the
/// new event as the cell to fulfil on the next wake, and fulfils the old
/// cell with the new promise's raw index — which is exactly what the
/// blocked thread picks up to park on next.
pub fn wake_cycle(pool: &mut PromisePool<usize>, current: Event<usize>) -> (r: Event<usize>)
    requires
        current.spec_id() < old(pool)@.len(),
        old(pool)@[current.spec_id() as int] is Pending || old(pool)@[current.spec_id() as int]
            is Abandoned,
    ensures
        r.spec_id() == old(pool)@.len(),
        final(pool)@ == fulfill_transition(
            old(pool)@.push(PromiseSlot::Pending),
            current.spec_id() as int,
            old(pool)@.len() as usize,
        ),
        final(pool)@[r.spec_id() as int] is Pending,
        old(pool)@[current.spec_id() as int] is Pending ==> final(pool)@[current.spec_id() as int]
            == PromiseSlot::Fulfilled(old(pool)@.len() as usize),
{
    let (next_event, next_promise) = event(pool);
    let raw = next_promise.into_raw();
    current.fulfill(pool, raw);
    next_event
}

/// Law: fulfilling a pending cell exactly once and then consuming it yields
/// the fulfilled value, leaves the cell consumed, and touches no other cell.
pub proof fn lemma_fulfill_then_take<T>(s: Seq<PromiseSlot<T>>, id: int, v: T)
    requires
        0 <= id < s.len(),
        s[id] is Pending,
    ensures
        fulfill_transition(s, id, v)[id] == PromiseSlot::Fulfilled(v),
        take_transition(fulfill_transition(s, id, v), id)[id] is Consumed,
        forall|j: int|
            0 <= j < s.len() && j != id ==> take_transition(fulfill_transition(s, id, v), id)[j]
                == s[j],
{
}

/// Law: dropping the consumer of a pending cell and fulfilling it later
/// releases the payload exactly once — the cell ends freed, a state from
/// which neither fulfilment nor consumption moves it again — and touches no
/// other cell.
pub proof fn lemma_abandon_then_fulfill<T>(s: Seq<PromiseSlot<T>>, id: int, v: T, w: T)
    requires
        0 <= id < s.len(),
        s[id] is Pending,
    ensures
        abandon_transition(s, id)[id] is Abandoned,
        fulfill_transition(abandon_transition(s, id), id, v)[id] is Freed,
        fulfill_transition(fulfill_transition(abandon_transition(s, id), id, v), id, w)
            == fulfill_transition(abandon_transition(s, id), id, v),
        take_transition(fulfill_transition(abandon_transition(s, id), id, v), id)
            == fulfill_transition(abandon_transition(s, id), id, v),
        forall|j: int|
            0 <= j < s.len() && j != id ==> fulfill_transition(abandon_transition(s, id), id, v)[j]
                == s[j],
{
}

/// Law: a settled cell is final — once consumed or freed, no fulfilment,
/// consumption or abandonment changes the arena through that cell.
pub proof fn lemma_settled_is_final<T>(s: Seq<PromiseSlot<T>>, id: int, v: T)
    requires
        0 <= id < s.len(),
        s[id] is Consumed || s[id] is Freed,
    ensures
        fulfill_transition(s, id, v) == s,
        take_transition(s, id) == s,
        abandon_transition(s, id) == s,
{
}

} // verus!
