//! The local task pool behind `spawn_local`, as an explicit state machine.
//!
//! One `LocalRuntime` runs per thread. Spawning registers a task and, when no
//! drain callback is pending, asks the host to schedule one. A drain walks
//! the pool one task at a time: the host polls the task's future and reports
//! the outcome — still pending, finished with a value, or panicked (the panic
//! is caught and parked for the task's `JoinHandle` instead of tearing the
//! pool down). Tasks spawned while a drain holds the pool go to a backlog and
//! join the pool when the drain ends, so they are eventually polled even if
//! not in the same pass.

use vstd::prelude::*;
use core::marker::PhantomData;

verus! {

/// The lifecycle of one spawned task.
pub enum TaskState<T> {
    /// Spawned and not yet run to completion.
    Active,
    /// The future completed; the output waits for the join handle.
    Finished(T),
    /// The future panicked; the caught panic waits for the join handle.
    Panicked,
    /// The outcome was delivered through the join handle.
    Joined,
    /// The runtime was torn down before the task completed.
    Dropped,
}

/// What the host observed when it polled the current task.
pub enum PollOutcome<T> {
    /// The future is not ready; the task stays in the pool.
    Pending,
    /// The future completed with this output.
    Ready(T),
    /// The future panicked and the panic was caught.
    Panicked,
}

/// The mathematical state of a `LocalRuntime`.
pub struct RuntimeModel<T> {
    /// Every task ever spawned, by identifier.
    pub tasks: Seq<TaskState<T>>,
    /// Identifiers of the tasks currently in the pool, in poll order.
    pub pool: Seq<usize>,
    /// Identifiers of tasks spawned while a drain held the pool.
    pub backlog: Seq<usize>,
    /// Whether a drain callback is scheduled with the host.
    pub is_running: bool,
    /// Whether a drain currently holds the pool.
    pub draining: bool,
    /// During a drain, the pool position to poll next.
    pub cursor: nat,
}

impl<T> RuntimeModel<T> {
    /// `id` names a task that is alive in the pool sense.
    pub open spec fn task_live(self, id: usize) -> bool {
        id < self.tasks.len() && self.tasks[id as int] is Active
    }

    /// Well-formedness: pool and backlog hold distinct, live task
    /// identifiers, the cursor stays on the pool, and a drain only runs
    /// under a scheduled callback.
    pub open spec fn wf(self) -> bool {
        &&& forall|i: int| 0 <= i < self.pool.len() ==> #[trigger] self.task_live(self.pool[i])
        &&& forall|i: int|
            0 <= i < self.backlog.len() ==> #[trigger] self.task_live(self.backlog[i])
        &&& forall|i: int, j: int|
            0 <= i < j < self.pool.len() ==> #[trigger] self.pool[i] != #[trigger] self.pool[j]
        &&& forall|i: int, j: int|
            0 <= i < j < self.backlog.len() ==> #[trigger] self.backlog[i]
                != #[trigger] self.backlog[j]
        &&& forall|i: int, j: int|
            0 <= i < self.pool.len() && 0 <= j < self.backlog.len() ==> #[trigger] self.pool[i]
                != #[trigger] self.backlog[j]
        &&& self.cursor <= self.pool.len()
        &&& (self.draining ==> self.is_running)
    }
}

/// Spawning: the new task is registered, goes to the backlog while a drain
/// holds the pool and to the pool otherwise, and a drain callback is
/// scheduled if none is pending.
pub open spec fn spawn_transition<T>(m: RuntimeModel<T>) -> RuntimeModel<T> {
    let id = m.tasks.len() as usize;
    RuntimeModel {
        tasks: m.tasks.push(TaskState::Active),
        pool: if m.draining {
            m.pool
        } else {
            m.pool.push(id)
        },
        backlog: if m.draining {
            m.backlog.push(id)
        } else {
            m.backlog
        },
        is_running: true,
        ..m
    }
}

/// Beginning a drain: the scheduled callback takes the pool and starts
/// polling at its head.
pub open spec fn begin_drain_transition<T>(m: RuntimeModel<T>) -> RuntimeModel<T> {
    RuntimeModel { draining: true, cursor: 0, ..m }
}

/// One poll report: a pending task is stepped over; a finished or panicked
/// task records its outcome and leaves the pool.
pub open spec fn poll_transition<T>(m: RuntimeModel<T>, outcome: PollOutcome<T>) -> RuntimeModel<
    T,
> {
    let id = m.pool[m.cursor as int];
    match outcome {
        PollOutcome::Pending => RuntimeModel { cursor: m.cursor + 1, ..m },
        PollOutcome::Ready(v) => RuntimeModel {
            tasks: m.tasks.update(id as int, TaskState::Finished(v)),
            pool: m.pool.remove(m.cursor as int),
            ..m
        },
        PollOutcome::Panicked => RuntimeModel {
            tasks: m.tasks.update(id as int, TaskState::Panicked),
            pool: m.pool.remove(m.cursor as int),
            ..m
        },
    }
}

/// Ending a drain: the callback is spent, and the backlog becomes visible to
/// the next pass.
pub open spec fn end_drain_transition<T>(m: RuntimeModel<T>) -> RuntimeModel<T> {
    RuntimeModel {
        pool: m.pool + m.backlog,
        backlog: Seq::empty(),
        is_running: false,
        draining: false,
        cursor: 0,
        ..m
    }
}

/// The per-thread cooperative task pool.
pub struct LocalRuntime<T> {
    tasks: Vec<TaskState<T>>,
    pool: Vec<usize>,
    backlog: Vec<usize>,
    is_running: bool,
    draining: bool,
    cursor: usize,
}

impl<T> View for LocalRuntime<T> {
    type V = RuntimeModel<T>;

    closed spec fn view(&self) -> RuntimeModel<T> {
        RuntimeModel {
            tasks: self.tasks@,
            pool: self.pool@,
            backlog: self.backlog@,
            is_running: self.is_running,
            draining: self.draining,
            cursor: self.cursor as nat,
        }
    }
}

/// The receiving end of one task's outcome; consumed by `try_join`.
/// Dropping it abandons the outcome but does not stop the task.
pub struct JoinHandle<T> {
    id: usize,
    _marker: PhantomData<T>,
}

/// The result of polling a join handle.
pub enum JoinPoll<T> {
    /// The task has settled; here is its outcome.
    Done(Result<T, JoinError>),
    /// The task is still running; the handle comes back unconsumed.
    Waiting(JoinHandle<T>),
}

/// The outcome a join handle reports for a task in the given state; `None`
/// while the task is still active. A task joined twice would report
/// `Aborted`, but the move of the handle into `try_join` rules that out.
pub open spec fn join_outcome<T>(t: TaskState<T>) -> Option<Result<T, JoinError>> {
    match t {
        TaskState::Active => None,
        TaskState::Finished(v) => Some(Ok(v)),
        TaskState::Panicked => Some(Err(JoinError::Panic)),
        TaskState::Dropped => Some(Err(JoinError::Aborted)),
        TaskState::Joined => Some(Err(JoinError::Aborted)),
    }
}

/// The runtime after task `id` has been joined.
pub open spec fn joined_model<T>(m: RuntimeModel<T>, id: usize) -> RuntimeModel<T> {
    RuntimeModel { tasks: m.tasks.update(id as int, TaskState::Joined), ..m }
}

/// Why a join produced no output.
pub enum JoinError {
    /// The runtime was torn down before the task completed.
    Aborted,
    /// The task panicked; the panic was caught by the pool.
    Panic,
}

impl<T> JoinHandle<T> {
    /// The task this handle joins.
    pub closed spec fn spec_id(self) -> usize {
        self.id
    }

    /// The task identifier.
    pub fn id(&self) -> (r: usize)
        ensures
            r == self.spec_id(),
    {
        self.id
    }

    /// Takes the task's outcome once it has one: the output, or the panic or
    /// teardown notice as a `JoinError`. While the task is still active the
    /// handle comes back unconsumed.
    pub fn try_join(self, rt: &mut LocalRuntime<T>) -> (r: JoinPoll<T>)
        requires
            self.spec_id() < old(rt)@.tasks.len(),
        ensures
            old(rt)@.tasks[self.spec_id() as int] is Active ==> (r matches JoinPoll::Waiting(h)
                && h.spec_id() == self.spec_id() && final(rt)@ == old(rt)@),
            !(old(rt)@.tasks[self.spec_id() as int] is Active) ==> (r matches JoinPoll::Done(out)
                && Some(out) == join_outcome(old(rt)@.tasks[self.spec_id() as int]) && final(rt)@
                == joined_model(old(rt)@, self.spec_id())),
    {
        let id = self.id;
        let slot = rt.tasks.remove(id);
        match slot {
            TaskState::Active => {
                rt.tasks.insert(id, TaskState::Active);
                proof {
                    assert(rt@.tasks =~= old(rt)@.tasks);
                    assert(rt@ =~= old(rt)@);
                }
                JoinPoll::Waiting(self)
            },
            TaskState::Finished(v) => {
                rt.tasks.insert(id, TaskState::Joined);
                proof {
                    assert(rt@.tasks =~= old(rt)@.tasks.update(id as int, TaskState::Joined));
                }
                JoinPoll::Done(Ok(v))
            },
            TaskState::Panicked => {
                rt.tasks.insert(id, TaskState::Joined);
                proof {
                    assert(rt@.tasks =~= old(rt)@.tasks.update(id as int, TaskState::Joined));
                }
                JoinPoll::Done(Err(JoinError::Panic))
            },
            TaskState::Dropped => {
                rt.tasks.insert(id, TaskState::Joined);
                proof {
                    assert(rt@.tasks =~= old(rt)@.tasks.update(id as int, TaskState::Joined));
                }
                JoinPoll::Done(Err(JoinError::Aborted))
            },
            TaskState::Joined => {
                rt.tasks.insert(id, TaskState::Joined);
                proof {
                    assert(rt@.tasks =~= old(rt)@.tasks.update(id as int, TaskState::Joined));
                }
                JoinPoll::Done(Err(JoinError::Aborted))
            },
        }
    }
}

impl<T> LocalRuntime<T> {
    /// A fresh runtime with no tasks and no scheduled drain.
    pub fn new() -> (r: LocalRuntime<T>)
        ensures
            r@ == (RuntimeModel {
                tasks: Seq::<TaskState<T>>::empty(),
                pool: Seq::<usize>::empty(),
                backlog: Seq::<usize>::empty(),
                is_running: false,
                draining: false,
                cursor: 0nat,
            }),
            r@.wf(),
    {
        let r = LocalRuntime {
            tasks: Vec::new(),
            pool: Vec::new(),
            backlog: Vec::new(),
            is_running: false,
            draining: false,
            cursor: 0,
        };
        proof {
            assert(r@.tasks =~= Seq::<TaskState<T>>::empty());
            assert(r@.pool =~= Seq::<usize>::empty());
            assert(r@.backlog =~= Seq::<usize>::empty());
        }
        r
    }

    /// Registers a new task and returns its join handle, together with
    /// whether the caller must ask the host to schedule a drain callback
    /// (true exactly when none was pending).
    pub fn spawn(&mut self) -> (r: (JoinHandle<T>, bool))
        requires
            old(self)@.wf(),
            old(self)@.tasks.len() < usize::MAX,
        ensures
            final(self)@ == spawn_transition(old(self)@),
            final(self)@.wf(),
            r.0.spec_id() == old(self)@.tasks.len(),
            r.1 == !old(self)@.is_running,
    {
        let id = self.tasks.len();
        self.tasks.push(TaskState::Active);
        if self.draining {
            self.backlog.push(id);
        } else {
            self.pool.push(id);
        }
        let schedule = !self.is_running;
        self.is_running = true;
        proof {
            let m = old(self)@;
            let m2 = self@;
            assert(m2 =~= spawn_transition(m));
            assert forall|i: int| 0 <= i < m2.pool.len() implies #[trigger] m2.task_live(
                m2.pool[i],
            ) by {
                if i < m.pool.len() {
                    assert(m.task_live(m.pool[i]));
                }
            }
            assert forall|i: int| 0 <= i < m2.backlog.len() implies #[trigger] m2.task_live(
                m2.backlog[i],
            ) by {
                if i < m.backlog.len() {
                    assert(m.task_live(m.backlog[i]));
                }
            }
            assert forall|i: int, j: int| 0 <= i < j < m2.pool.len() implies #[trigger] m2.pool[i]
                != #[trigger] m2.pool[j] by {
                if j < m.pool.len() {
                } else {
                    assert(m.task_live(m.pool[i]));
                }
            }
            assert forall|i: int, j: int|
                0 <= i < j < m2.backlog.len() implies #[trigger] m2.backlog[i]
                != #[trigger] m2.backlog[j] by {
                if j < m.backlog.len() {
                } else {
                    assert(m.task_live(m.backlog[i]));
                }
            }
            assert forall|i: int, j: int|
                0 <= i < m2.pool.len() && 0 <= j < m2.backlog.len() implies #[trigger] m2.pool[i]
                != #[trigger] m2.backlog[j] by {
                if m.draining {
                    if j < m.backlog.len() {
                    } else {
                        assert(m.task_live(m.pool[i]));
                    }
                } else {
                    if i < m.pool.len() {
                    } else {
                        assert(m.task_live(m.backlog[j]));
                    }
                }
            }
        }
        (JoinHandle { id, _marker: PhantomData }, schedule)
    }

    /// Marks a drain callback as scheduled; returns whether the caller must
    /// actually schedule one with the host (true exactly when none was
    /// pending). This is the re-arm path taken by cross-thread wakes.
    pub fn enqueue(&mut self) -> (r: bool)
        requires
            old(self)@.wf(),
        ensures
            final(self)@ == (RuntimeModel { is_running: true, ..old(self)@ }),
            final(self)@.wf(),
            r == !old(self)@.is_running,
    {
        let schedule = !self.is_running;
        self.is_running = true;
        proof {
            assert(self@ =~= (RuntimeModel { is_running: true, ..old(self)@ }));
            lemma_wf_frame(old(self)@, self@);
        }
        schedule
    }

    /// The scheduled drain callback has fired: take the pool and start
    /// polling at its head.
    pub fn begin_drain(&mut self)
        requires
            old(self)@.wf(),
            old(self)@.is_running,
            !old(self)@.draining,
        ensures
            final(self)@ == begin_drain_transition(old(self)@),
            final(self)@.wf(),
    {
        self.draining = true;
        self.cursor = 0;
        proof {
            assert(self@ =~= begin_drain_transition(old(self)@));
            lemma_wf_frame(old(self)@, self@);
        }
    }

    /// During a drain, the identifier of the task the host must poll next,
    /// or `None` when the pass is over.
    pub fn current_task(&self) -> (r: Option<usize>)
        requires
            self@.wf(),
            self@.draining,
        ensures
            self@.cursor < self@.pool.len() ==> r == Some(self@.pool[self@.cursor as int]),
            self@.cursor >= self@.pool.len() ==> r is None,
    {
        if self.cursor < self.pool.len() {
            Some(self.pool[self.cursor])
        } else {
            None
        }
    }

    /// Records what polling the current task produced. A pending task is
    /// stepped over and stays in the pool; a finished or panicked task
    /// stores its outcome for the join handle and leaves the pool. No other
    /// task is touched.
    pub fn report_poll(&mut self, outcome: PollOutcome<T>)
        requires
            old(self)@.wf(),
            old(self)@.draining,
            old(self)@.cursor < old(self)@.pool.len(),
        ensures
            final(self)@ == poll_transition(old(self)@, outcome),
            final(self)@.wf(),
            forall|j: int|
                0 <= j < old(self)@.tasks.len() && j != old(self)@.pool[old(self)@.cursor as int]
                    ==> final(self)@.tasks[j] == old(self)@.tasks[j],
    {
        let ghost m = old(self)@;
        let ghost id_g = m.pool[m.cursor as int];
        match outcome {
            PollOutcome::Pending => {
                let l = self.pool.len();
                proof {
                    assert(self.cursor < l);
                }
                self.cursor = self.cursor + 1;
                proof {
                    assert(self@ =~= poll_transition(m, PollOutcome::Pending));
                }
            },
            PollOutcome::Ready(v) => {
                let id = self.pool.remove(self.cursor);
                proof {
                    assert(m.task_live(id));
                }
                let _settled = self.tasks.remove(id);
                self.tasks.insert(id, TaskState::Finished(v));
                proof {
                    assert(self@.tasks =~= m.tasks.update(id as int, TaskState::Finished(v)));
                    assert(self@ =~= poll_transition(m, PollOutcome::Ready(v)));
                }
            },
            PollOutcome::Panicked => {
                let id = self.pool.remove(self.cursor);
                proof {
                    assert(m.task_live(id));
                }
                let _settled = self.tasks.remove(id);
                self.tasks.insert(id, TaskState::Panicked);
                proof {
                    assert(self@.tasks =~= m.tasks.update(id as int, TaskState::Panicked));
                    assert(self@ =~= poll_transition(m, PollOutcome::Panicked));
                }
            },
        }
        proof {
            lemma_poll_preserves_wf(m, outcome);
        }
    }

    /// The drain pass is over: release the pool, spend the scheduled
    /// callback, and let the backlog join the pool for the next pass.
    pub fn end_drain(&mut self)
        requires
            old(self)@.wf(),
            old(self)@.draining,
            old(self)@.cursor >= old(self)@.pool.len(),
        ensures
            final(self)@ == end_drain_transition(old(self)@),
            final(self)@.wf(),
    {
        self.is_running = false;
        self.draining = false;
        self.cursor = 0;
        let ghost m = old(self)@;
        while self.backlog.len() > 0
            invariant
                self.tasks@ == m.tasks,
                self.pool@ + self.backlog@ == m.pool + m.backlog,
                !self.is_running,
                !self.draining,
                self.cursor == 0,
            decreases self.backlog@.len(),
        {
            let id = self.backlog.remove(0);
            self.pool.push(id);
            proof {
                assert(self.pool@ + self.backlog@ =~= m.pool + m.backlog);
            }
        }
        proof {
            assert(self.backlog@ =~= Seq::<usize>::empty());
            assert(self.pool@ =~= m.pool + m.backlog);
            assert(self@ =~= end_drain_transition(m));
            let m2 = self@;
            assert forall|i: int| 0 <= i < m2.pool.len() implies #[trigger] m2.task_live(
                m2.pool[i],
            ) by {
                if i < m.pool.len() {
                    assert(m.task_live(m.pool[i]));
                } else {
                    assert(m2.pool[i] == m.backlog[i - m.pool.len()]);
                    assert(m.task_live(m.backlog[i - m.pool.len()]));
                }
            }
            assert forall|i: int, j: int| 0 <= i < j < m2.pool.len() implies #[trigger] m2.pool[i]
                != #[trigger] m2.pool[j] by {
                if j < m.pool.len() {
                } else if i >= m.pool.len() {
                } else {
                    assert(m2.pool[i] == m.pool[i]);
                    assert(m2.pool[j] == m.backlog[j - m.pool.len()]);
                }
            }
        }
    }

    /// Tears the runtime down: every task still active is dropped without
    /// running further, and its join handle will report `Aborted`.
    pub fn shutdown(&mut self)
        requires
            old(self)@.wf(),
        ensures
            final(self)@.tasks.len() == old(self)@.tasks.len(),
            forall|j: int|
                0 <= j < old(self)@.tasks.len() ==> final(self)@.tasks[j] == (if old(
                    self,
                )@.tasks[j] is Active {
                    TaskState::Dropped
                } else {
                    old(self)@.tasks[j]
                }),
            final(self)@.pool == Seq::<usize>::empty(),
            final(self)@.backlog == Seq::<usize>::empty(),
            !final(self)@.is_running,
            !final(self)@.draining,
            final(self)@.wf(),
    {
        let ghost m = old(self)@;
        self.pool = Vec::new();
        self.backlog = Vec::new();
        self.is_running = false;
        self.draining = false;
        self.cursor = 0;
        let n = self.tasks.len();
        let mut i: usize = 0;
        while i < n
            invariant
                n == self.tasks@.len(),
                n == m.tasks.len(),
                i <= n,
                self.pool@.len() == 0,
                self.backlog@.len() == 0,
                !self.is_running,
                !self.draining,
                self.cursor == 0,
                forall|j: int|
                    0 <= j < i ==> self.tasks@[j] == (if m.tasks[j] is Active {
                        TaskState::Dropped
                    } else {
                        m.tasks[j]
                    }),
                forall|j: int| i <= j < n ==> self.tasks@[j] == m.tasks[j],
            decreases n - i,
        {
            let slot = self.tasks.remove(i);
            match slot {
                TaskState::Active => {
                    self.tasks.insert(i, TaskState::Dropped);
                },
                other => {
                    self.tasks.insert(i, other);
                },
            }
            i = i + 1;
        }
        proof {
            assert(self@.pool =~= Seq::<usize>::empty());
            assert(self@.backlog =~= Seq::<usize>::empty());
        }
    }
}

/// Well-formedness depends only on the task table, the two queues, the
/// cursor bound and the drain flags; this transfers it across a change of
/// the remaining fields.
proof fn lemma_wf_frame<T>(m: RuntimeModel<T>, m2: RuntimeModel<T>)
    requires
        m.wf(),
        m2.tasks == m.tasks,
        m2.pool == m.pool,
        m2.backlog == m.backlog,
        m2.cursor <= m2.pool.len(),
        m2.draining ==> m2.is_running,
    ensures
        m2.wf(),
{
    assert forall|i: int| 0 <= i < m2.pool.len() implies #[trigger] m2.task_live(m2.pool[i]) by {
        assert(m.task_live(m.pool[i]));
    }
    assert forall|i: int| 0 <= i < m2.backlog.len() implies #[trigger] m2.task_live(
        m2.backlog[i],
    ) by {
        assert(m.task_live(m.backlog[i]));
    }
}

/// Law: one poll report keeps the runtime well formed.
proof fn lemma_poll_preserves_wf<T>(m: RuntimeModel<T>, outcome: PollOutcome<T>)
    requires
        m.wf(),
        m.draining,
        m.cursor < m.pool.len(),
    ensures
        poll_transition(m, outcome).wf(),
{
    let m2 = poll_transition(m, outcome);
    let c = m.cursor as int;
    let id = m.pool[c];
    match outcome {
        PollOutcome::Pending => {
            lemma_wf_frame(m, m2);
        },
        _ => {
            assert(m.task_live(m.pool[c]));
            assert(m2.pool == m.pool.remove(c));
            m.pool.remove_ensures(c);
            match outcome {
                PollOutcome::Ready(v) => {
                    assert(m2.tasks == m.tasks.update(id as int, TaskState::Finished(v)));
                },
                PollOutcome::Panicked => {
                    assert(m2.tasks == m.tasks.update(id as int, TaskState::Panicked));
                },
                PollOutcome::Pending => {
                    assert(false);
                },
            }
            assert(m2.tasks.len() == m.tasks.len());
            assert forall|p: int| 0 <= p < m.tasks.len() && p != id implies m2.tasks[p]
                == m.tasks[p] by {}
            assert forall|i: int| 0 <= i < m2.pool.len() implies #[trigger] m2.task_live(
                m2.pool[i],
            ) by {
                let oi = if i < c {
                    i
                } else {
                    i + 1
                };
                assert(m2.pool[i] == m.pool.remove(c)[i]);
                assert(m2.pool[i] == m.pool[oi]);
                assert(m.task_live(m.pool[oi]));
                assert(m.pool[oi] != id);
                assert(m2.tasks[m.pool[oi] as int] == m.tasks[m.pool[oi] as int]);
            }
            assert forall|i: int| 0 <= i < m2.backlog.len() implies #[trigger] m2.task_live(
                m2.backlog[i],
            ) by {
                assert(m.task_live(m.backlog[i]));
                assert(m.backlog[i] != id);
                assert(m2.tasks[m.backlog[i] as int] == m.tasks[m.backlog[i] as int]);
            }
            assert forall|i: int, j: int| 0 <= i < j < m2.pool.len() implies #[trigger] m2.pool[i]
                != #[trigger] m2.pool[j] by {
                let oi = if i < c {
                    i
                } else {
                    i + 1
                };
                let oj = if j < c {
                    j
                } else {
                    j + 1
                };
                assert(m2.pool[i] == m.pool.remove(c)[i]);
                assert(m2.pool[j] == m.pool.remove(c)[j]);
                assert(m2.pool[i] == m.pool[oi]);
                assert(m2.pool[j] == m.pool[oj]);
            }
            assert forall|i: int, j: int|
                0 <= i < m2.pool.len() && 0 <= j < m2.backlog.len() implies #[trigger] m2.pool[i]
                != #[trigger] m2.backlog[j] by {
                let oi = if i < c {
                    i
                } else {
                    i + 1
                };
                assert(m2.pool[i] == m.pool.remove(c)[i]);
                assert(m2.pool[i] == m.pool[oi]);
            }
        },
    }
}

/// Law: a panic inside one task is confined to it. The panicked task leaves
/// the pool with its panic parked for the join handle, every other task's
/// state is untouched, the backlog is untouched, and joining the panicked
/// task reports `JoinError::Panic` — the pool itself keeps working.
pub proof fn lemma_panic_is_isolated<T>(m: RuntimeModel<T>)
    requires
        m.wf(),
        m.draining,
        m.cursor < m.pool.len(),
    ensures
        ({
            let id = m.pool[m.cursor as int];
            let m2 = poll_transition(m, PollOutcome::<T>::Panicked);
            &&& m2.wf()
            &&& m2.tasks[id as int] is Panicked
            &&& forall|j: int| 0 <= j < m.tasks.len() && j != id ==> m2.tasks[j] == m.tasks[j]
            &&& m2.backlog == m.backlog
            &&& !m2.pool.contains(id)
        }),
{
    let id = m.pool[m.cursor as int];
    let c = m.cursor as int;
    let m2 = poll_transition(m, PollOutcome::<T>::Panicked);
    lemma_poll_preserves_wf(m, PollOutcome::<T>::Panicked);
    m.pool.remove_ensures(c);
    assert(m.task_live(id));
    assert forall|i: int| 0 <= i < m2.pool.len() implies m2.pool[i] != id by {
        let oi = if i < c {
            i
        } else {
            i + 1
        };
        assert(m2.pool[i] == m.pool.remove(c)[i]);
        assert(m2.pool[i] == m.pool[oi]);
    }
    if m2.pool.contains(id) {
        let w = choose|i: int| 0 <= i < m2.pool.len() && m2.pool[i] == id;
        assert(false);
    }
}

/// Law: a task spawned after any number of other operations is live — it is
/// registered as active and stands in the pool or the backlog, so a later
/// drain pass will poll it. In particular an earlier panic does not stop
/// later tasks from being spawned and run.
pub proof fn lemma_spawn_always_runs<T>(m: RuntimeModel<T>)
    requires
        m.wf(),
        m.tasks.len() < usize::MAX,
    ensures
        ({
            let id = m.tasks.len() as usize;
            let m2 = spawn_transition(m);
            &&& m2.tasks[id as int] is Active
            &&& if m.draining {
                m2.backlog.last() == id
            } else {
                m2.pool.last() == id
            }
            &&& end_drain_transition(m2).pool.contains(id)
        }),
{
    let id = m.tasks.len() as usize;
    let m2 = spawn_transition(m);
    let p = end_drain_transition(m2).pool;
    if m.draining {
        assert(p[m2.pool.len() + m2.backlog.len() - 1] == id);
    } else {
        assert(p[m2.pool.len() - 1] == id);
    }
}

} // verus!
