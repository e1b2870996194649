//! The cross-thread proxying queue, as an explicit state machine.
//!
//! A `Queue` accepts closures for execution on a chosen thread. The host's
//! dispatcher drives it: `execute` hands back, one at a time, the work that
//! is due on the calling thread. Four submission modes exist — fire-and-
//! forget (`proxy`, `proxy_local`), synchronous (`proxy_blocking`, which
//! short-circuits to an in-line call when the target is the calling thread),
//! and the two three-phase callback modes (`proxy_callback`,
//! `proxy_callback_with_ctx`), in which a `call` phase runs on the target
//! thread and then exactly one of `callback` or `cancel` consumes the
//! submission's receiver resource on the originating thread.
//!
//! Threads are named by plain identifiers and a closure crossing threads is
//! named by a job identifier the host resolves; the receiver resource `R` is
//! held inside the queue and handed out exactly once.

use vstd::prelude::*;

verus! {

/// Which submission mode an entry was made under.
pub enum SubKind {
    /// Fire-and-forget: run on the target thread, nothing comes back.
    Fire,
    /// Three-phase: run on the target thread, then deliver the receiver to
    /// `callback` on the originating thread.
    WithCallback,
    /// Three-phase with a deferred finish: the call phase receives a
    /// `Context` and the callback is queued only when the context finishes.
    WithCallbackCtx,
    /// Synchronous with a deferred finish: the submitter is unblocked when
    /// the context finishes; no receiver travels back.
    BlockingCtx,
}

/// How far a submission has progressed.
pub enum SubState {
    /// Waiting for the target thread to pick it up.
    Queued,
    /// The call phase ran and handed out a `Context`; waiting for `finish`.
    AwaitingFinish,
    /// Waiting for the originating thread to deliver the callback.
    CallbackQueued,
    /// Ran to completion (and the callback, if any, was delivered).
    Done,
    /// The queue was torn down first; the cancel path consumed the receiver.
    Cancelled,
}

/// One accepted submission. `job` names the closure on the host side;
/// `recv` is the receiver resource of the callback modes, present exactly
/// until the callback or cancel consumes it.
pub struct Submission<R> {
    /// The thread that must run the call phase.
    pub target: u64,
    /// The thread that receives the callback or cancel.
    pub origin: u64,
    /// The host-side name of the submitted closure.
    pub job: u64,
    /// The submission mode.
    pub kind: SubKind,
    /// Progress so far.
    pub state: SubState,
    /// The receiver resource, if this mode carries one and it has not been
    /// consumed yet.
    pub recv: Option<R>,
}

/// The mathematical state of a `Queue`.
pub struct QueueModel<R> {
    /// Whether the queue still accepts submissions.
    pub open: bool,
    /// Every submission ever accepted, in submission order.
    pub subs: Seq<Submission<R>>,
}

impl<R> QueueModel<R> {
    /// Well-formedness: receivers are present exactly while their
    /// submission can still deliver or cancel, and each mode only reaches
    /// its own states.
    pub open spec fn wf(self) -> bool {
        forall|i: int|
            0 <= i < self.subs.len() ==> #[trigger] sub_wf(self.subs[i])
    }
}

/// The per-submission part of well-formedness.
pub open spec fn sub_wf<R>(s: Submission<R>) -> bool {
    &&& (s.kind is Fire ==> s.recv is None && !(s.state is AwaitingFinish) && !(
    s.state is CallbackQueued))
    &&& (s.kind is BlockingCtx ==> s.recv is None && !(s.state is CallbackQueued))
    &&& (s.kind is WithCallback ==> !(s.state is AwaitingFinish))
    &&& ((s.kind is WithCallback || s.kind is WithCallbackCtx) ==> (s.recv is Some <==> !(
    s.state is Done) && !(s.state is Cancelled)))
}

/// A submission is due on thread `t` either for its call phase (on the
/// target) or for its callback delivery (on the origin).
pub open spec fn runnable<R>(s: Submission<R>, t: u64) -> bool {
    (s.state is Queued && s.target == t) || (s.state is CallbackQueued && s.origin == t)
}

/// The state after the call phase ran on the target thread.
pub open spec fn after_call_state(k: SubKind) -> SubState {
    match k {
        SubKind::Fire => SubState::Done,
        SubKind::WithCallback => SubState::CallbackQueued,
        SubKind::WithCallbackCtx => SubState::AwaitingFinish,
        SubKind::BlockingCtx => SubState::AwaitingFinish,
    }
}

/// What one dispatch step does to the submission it picked: a queued entry
/// runs its call phase; a callback-queued entry delivers its receiver and is
/// done.
pub open spec fn dispatch_step<R>(s: Submission<R>) -> Submission<R> {
    if s.state is Queued {
        Submission { state: after_call_state(s.kind), ..s }
    } else {
        Submission { state: SubState::Done, recv: None, ..s }
    }
}

/// What tearing the queue down does to one submission: anything not yet
/// done is cancelled and gives up its receiver; settled entries are left
/// alone.
pub open spec fn close_step<R>(s: Submission<R>) -> Submission<R> {
    if s.state is Done || s.state is Cancelled {
        s
    } else {
        Submission { state: SubState::Cancelled, recv: None, ..s }
    }
}

/// Whether tearing down hands this submission's receiver to the cancel
/// path.
pub open spec fn cancel_takes<R>(s: Submission<R>) -> bool {
    !(s.state is Done) && !(s.state is Cancelled) && s.recv is Some
}

/// The receivers that a teardown hands to the cancel path, in submission
/// order.
pub open spec fn cancelled_receivers<R>(s: Seq<Submission<R>>) -> Seq<R>
    decreases s.len(),
{
    if s.len() == 0 {
        Seq::empty()
    } else {
        let rest = cancelled_receivers(s.drop_last());
        if cancel_takes(s.last()) {
            rest.push(s.last().recv->Some_0)
        } else {
            rest
        }
    }
}

/// The work `execute` hands to the host dispatcher.
pub enum RunAction<R> {
    /// Run job `job` (submission `sub`) on this thread now.
    Run { sub: usize, job: u64 },
    /// Run job `job` now, handing it this finish context.
    RunWithCtx { sub: usize, job: u64, ctx: Context },
    /// Deliver `recv` to the submission's `callback` on this thread.
    DeliverCallback { sub: usize, job: u64, recv: R },
}

/// The single-use finish capability of a deferred-completion submission.
pub struct Context {
    sub: usize,
}

/// The outcome of a synchronous proxy attempt.
pub enum BlockingOutcome<T> {
    /// The target was the calling thread: the closure ran in line.
    Ran(T),
    /// The closure was queued for the target thread; the caller blocks until
    /// the host reports completion.
    Submitted,
    /// The queue no longer accepts work; the closure never ran.
    Rejected,
}

/// The cross-thread proxying queue. `R` is the receiver resource type of
/// the callback submission modes.
pub struct Queue<R> {
    open: bool,
    subs: Vec<Submission<R>>,
}

impl<R> View for Queue<R> {
    type V = QueueModel<R>;

    closed spec fn view(&self) -> QueueModel<R> {
        QueueModel { open: self.open, subs: self.subs@ }
    }
}

/// A submission accepted into an open queue, in its initial state.
pub open spec fn fresh_sub<R>(
    target: u64,
    origin: u64,
    job: u64,
    kind: SubKind,
    recv: Option<R>,
) -> Submission<R> {
    Submission { target, origin, job, kind, state: SubState::Queued, recv }
}

impl<R> Queue<R> {
    /// A fresh, open, empty queue.
    pub fn new() -> (r: Queue<R>)
        ensures
            r@.open,
            r@.subs == Seq::<Submission<R>>::empty(),
            r@.wf(),
    {
        let q = Queue { open: true, subs: Vec::new() };
        proof {
            assert(q@.subs =~= Seq::<Submission<R>>::empty());
        }
        q
    }

    /// Fire-and-forget submission of `job` to `target`. Returns whether the
    /// queue accepted it; on `false` the queue is unchanged, so the closure
    /// is never run.
    pub fn proxy(&mut self, target: u64, job: u64) -> (r: bool)
        requires
            old(self)@.wf(),
        ensures
            r == old(self)@.open,
            r ==> final(self)@ == (QueueModel {
                open: true,
                subs: old(self)@.subs.push(fresh_sub(target, target, job, SubKind::Fire, None)),
            }),
            !r ==> final(self)@ == old(self)@,
            final(self)@.wf(),
    {
        if !self.open {
            return false;
        }
        self.subs.push(
            Submission {
                target,
                origin: target,
                job,
                kind: SubKind::Fire,
                state: SubState::Queued,
                recv: None,
            },
        );
        proof {
            lemma_push_wf(old(self)@, self@);
        }
        true
    }

    /// Fire-and-forget submission to the calling thread itself; used to
    /// schedule continuation work without unbounded recursion.
    pub fn proxy_local(&mut self, current: u64, job: u64) -> (r: bool)
        requires
            old(self)@.wf(),
        ensures
            r == old(self)@.open,
            r ==> final(self)@ == (QueueModel {
                open: true,
                subs: old(self)@.subs.push(fresh_sub(current, current, job, SubKind::Fire, None)),
            }),
            !r ==> final(self)@ == old(self)@,
            final(self)@.wf(),
    {
        self.proxy(current, job)
    }

    /// Synchronous submission. When `target` is the calling thread the
    /// closure runs in line, with no queue round-trip, and its result comes
    /// back at once. Otherwise `job` is queued and the caller blocks until
    /// the host has run it on the target thread — or is refused outright if
    /// the queue is closed, in which case the closure never runs.
    pub fn proxy_blocking<T, F: FnOnce() -> T>(
        &mut self,
        current: u64,
        target: u64,
        job: u64,
        f: F,
    ) -> (r: BlockingOutcome<T>)
        requires
            old(self)@.wf(),
            target == current ==> call_requires(f, ()),
        ensures
            target == current ==> (r matches BlockingOutcome::Ran(v) && call_ensures(f, (), v)
                && final(self)@ == old(self)@),
            target != current && old(self)@.open ==> (r is Submitted && final(self)@
                == (QueueModel {
                open: true,
                subs: old(self)@.subs.push(fresh_sub(target, current, job, SubKind::Fire, None)),
            })),
            target != current && !old(self)@.open ==> (r is Rejected && final(self)@ == old(
                self,
            )@),
            final(self)@.wf(),
    {
        if target == current {
            return BlockingOutcome::Ran(f());
        }
        if !self.open {
            return BlockingOutcome::Rejected;
        }
        self.subs.push(
            Submission {
                target,
                origin: current,
                job,
                kind: SubKind::Fire,
                state: SubState::Queued,
                recv: None,
            },
        );
        proof {
            lemma_push_wf(old(self)@, self@);
        }
        BlockingOutcome::Submitted
    }

    /// Synchronous submission whose call phase receives a finish context;
    /// the caller stays blocked until the context finishes, not merely until
    /// the call phase returns. Returns whether the queue accepted it.
    pub fn proxy_blocking_with_ctx(&mut self, current: u64, target: u64, job: u64) -> (r: bool)
        requires
            old(self)@.wf(),
        ensures
            r == old(self)@.open,
            r ==> final(self)@ == (QueueModel {
                open: true,
                subs: old(self)@.subs.push(
                    fresh_sub(target, current, job, SubKind::BlockingCtx, None),
                ),
            }),
            !r ==> final(self)@ == old(self)@,
            final(self)@.wf(),
    {
        if !self.open {
            return false;
        }
        self.subs.push(
            Submission {
                target,
                origin: current,
                job,
                kind: SubKind::BlockingCtx,
                state: SubState::Queued,
                recv: None,
            },
        );
        proof {
            lemma_push_wf(old(self)@, self@);
        }
        true
    }

    /// Three-phase submission: `job` runs on `target`, after which the
    /// receiver is delivered to the `callback` phase on `origin`; if the
    /// queue is torn down first, the `cancel` phase gets it instead. On
    /// refusal the receiver is dropped without any phase running.
    pub fn proxy_callback(&mut self, target: u64, origin: u64, job: u64, recv: R) -> (r: bool)
        requires
            old(self)@.wf(),
        ensures
            r == old(self)@.open,
            r ==> final(self)@ == (QueueModel {
                open: true,
                subs: old(self)@.subs.push(
                    fresh_sub(target, origin, job, SubKind::WithCallback, Some(recv)),
                ),
            }),
            !r ==> final(self)@ == old(self)@,
            final(self)@.wf(),
    {
        if !self.open {
            return false;
        }
        self.subs.push(
            Submission {
                target,
                origin,
                job,
                kind: SubKind::WithCallback,
                state: SubState::Queued,
                recv: Some(recv),
            },
        );
        proof {
            lemma_push_wf(old(self)@, self@);
        }
        true
    }

    /// Like `proxy_callback`, but the call phase receives a `Context` and
    /// the callback is queued only when that context finishes, so completion
    /// can be signalled after an inner asynchronous operation.
    pub fn proxy_callback_with_ctx(&mut self, target: u64, origin: u64, job: u64, recv: R) -> (r:
        bool)
        requires
            old(self)@.wf(),
        ensures
            r == old(self)@.open,
            r ==> final(self)@ == (QueueModel {
                open: true,
                subs: old(self)@.subs.push(
                    fresh_sub(target, origin, job, SubKind::WithCallbackCtx, Some(recv)),
                ),
            }),
            !r ==> final(self)@ == old(self)@,
            final(self)@.wf(),
    {
        if !self.open {
            return false;
        }
        self.subs.push(
            Submission {
                target,
                origin,
                job,
                kind: SubKind::WithCallbackCtx,
                state: SubState::Queued,
                recv: Some(recv),
            },
        );
        proof {
            lemma_push_wf(old(self)@, self@);
        }
        true
    }

    /// One dispatch step on thread `current`: the earliest submission due
    /// on this thread advances and the host is told what to do — run a call
    /// phase (with or without a finish context) or deliver a callback. The
    /// host calls this until it returns `None`.
    pub fn execute(&mut self, current: u64) -> (r: Option<RunAction<R>>)
        requires
            old(self)@.wf(),
        ensures
            final(self)@.wf(),
            final(self)@.open == old(self)@.open,
            r is None ==> final(self)@ == old(self)@ && (forall|j: int|
                0 <= j < old(self)@.subs.len() ==> !runnable(#[trigger] old(self)@.subs[j], current)),
            r matches Some(a) ==> ({
                let i = action_sub(a);
                &&& 0 <= i < old(self)@.subs.len()
                &&& runnable(old(self)@.subs[i], current)
                &&& (forall|j: int| 0 <= j < i ==> !runnable(#[trigger] old(self)@.subs[j], current))
                &&& final(self)@.subs == old(self)@.subs.update(i, dispatch_step(old(self)@.subs[i]))
                &&& action_matches(a, i, old(self)@.subs[i])
            }),
    {
        let n = self.subs.len();
        let mut i: usize = 0;
        while i < n
            invariant
                self@ == old(self)@,
                self@.wf(),
                n == self@.subs.len(),
                i <= n,
                forall|j: int| 0 <= j < i ==> !runnable(#[trigger] self@.subs[j], current),
            decreases n - i,
        {
            let due = {
                let s = &self.subs[i];
                let call_due = matches!(s.state, SubState::Queued) && s.target == current;
                let cb_due = matches!(s.state, SubState::CallbackQueued) && s.origin == current;
                call_due || cb_due
            };
            if due {
                let sub = self.subs.remove(i);
                proof {
                    assert(sub_wf(old(self)@.subs[i as int]));
                }
                let Submission { target, origin, job, kind, state, recv } = sub;
                match state {
                    SubState::Queued => {
                        match kind {
                            SubKind::Fire => {
                                self.subs.insert(
                                    i,
                                    Submission {
                                        target,
                                        origin,
                                        job,
                                        kind: SubKind::Fire,
                                        state: SubState::Done,
                                        recv,
                                    },
                                );
                                proof {
                                    lemma_update_wf(old(self)@, self@, i as int);
                                }
                                return Some(RunAction::Run { sub: i, job });
                            },
                            SubKind::WithCallback => {
                                self.subs.insert(
                                    i,
                                    Submission {
                                        target,
                                        origin,
                                        job,
                                        kind: SubKind::WithCallback,
                                        state: SubState::CallbackQueued,
                                        recv,
                                    },
                                );
                                proof {
                                    lemma_update_wf(old(self)@, self@, i as int);
                                }
                                return Some(RunAction::Run { sub: i, job });
                            },
                            SubKind::WithCallbackCtx => {
                                self.subs.insert(
                                    i,
                                    Submission {
                                        target,
                                        origin,
                                        job,
                                        kind: SubKind::WithCallbackCtx,
                                        state: SubState::AwaitingFinish,
                                        recv,
                                    },
                                );
                                proof {
                                    lemma_update_wf(old(self)@, self@, i as int);
                                }
                                return Some(
                                    RunAction::RunWithCtx { sub: i, job, ctx: Context { sub: i } },
                                );
                            },
                            SubKind::BlockingCtx => {
                                self.subs.insert(
                                    i,
                                    Submission {
                                        target,
                                        origin,
                                        job,
                                        kind: SubKind::BlockingCtx,
                                        state: SubState::AwaitingFinish,
                                        recv,
                                    },
                                );
                                proof {
                                    lemma_update_wf(old(self)@, self@, i as int);
                                }
                                return Some(
                                    RunAction::RunWithCtx { sub: i, job, ctx: Context { sub: i } },
                                );
                            },
                        }
                    },
                    SubState::CallbackQueued => {
                        let out = match recv {
                            Some(out) => out,
                            None => {
                                proof {
                                    assert(false);
                                }
                                vstd::pervasive::unreached()
                            },
                        };
                        self.subs.insert(
                            i,
                            Submission {
                                target,
                                origin,
                                job,
                                kind,
                                state: SubState::Done,
                                recv: None,
                            },
                        );
                        proof {
                            lemma_update_wf(old(self)@, self@, i as int);
                        }
                        return Some(RunAction::DeliverCallback { sub: i, job, recv: out });
                    },
                    _ => {
                        proof {
                            assert(false);
                        }
                        vstd::pervasive::unreached()
                    },
                }
            }
            i = i + 1;
        }
        None
    }

    /// Tears the queue down. Every submission not yet settled is cancelled;
    /// the receivers of the cancelled callback submissions come back, in
    /// submission order, for the host to run their `cancel` phases. New
    /// submissions are refused from here on.
    pub fn close(&mut self) -> (r: Vec<R>)
        requires
            old(self)@.wf(),
        ensures
            !final(self)@.open,
            final(self)@.subs.len() == old(self)@.subs.len(),
            forall|i: int|
                0 <= i < old(self)@.subs.len() ==> final(self)@.subs[i] == close_step(
                    #[trigger] old(self)@.subs[i],
                ),
            r@ == cancelled_receivers(old(self)@.subs),
            final(self)@.wf(),
    {
        self.open = false;
        let ghost orig = self@.subs;
        let mut out: Vec<R> = Vec::new();
        let n = self.subs.len();
        let mut i: usize = 0;
        while i < n
            invariant
                n == self@.subs.len(),
                n == orig.len(),
                i <= n,
                !self@.open,
                self@.wf(),
                forall|j: int| 0 <= j < i ==> self@.subs[j] == close_step(#[trigger] orig[j]),
                forall|j: int| i <= j < n ==> self@.subs[j] == #[trigger] orig[j],
                out@ == cancelled_receivers(orig.take(i as int)),
            decreases n - i,
        {
            let sub = self.subs.remove(i);
            proof {
                assert(sub_wf(orig[i as int]));
            }
            let Submission { target, origin, job, kind, state, recv } = sub;
            let settled = matches!(state, SubState::Done) || matches!(state, SubState::Cancelled);
            if settled {
                self.subs.insert(
                    i,
                    Submission { target, origin, job, kind, state, recv },
                );
            } else {
                if let Some(got) = recv {
                    out.push(got);
                } else {
                }
                self.subs.insert(
                    i,
                    Submission {
                        target,
                        origin,
                        job,
                        kind,
                        state: SubState::Cancelled,
                        recv: None,
                    },
                );
            }
            proof {
                assert(self@.subs =~= self@.subs);
                assert(orig.take(i + 1).drop_last() =~= orig.take(i as int));
                assert(orig.take(i + 1).last() == orig[i as int]);
                lemma_close_wf_at(self@, i as int);
            }
            i = i + 1;
        }
        proof {
            assert(orig.take(n as int) =~= orig);
        }
        out
    }
}

/// The submission index an action names.
pub open spec fn action_sub<R>(a: RunAction<R>) -> int {
    match a {
        RunAction::Run { sub, .. } => sub as int,
        RunAction::RunWithCtx { sub, .. } => sub as int,
        RunAction::DeliverCallback { sub, .. } => sub as int,
    }
}

/// The action returned by one dispatch step describes the submission it
/// advanced.
pub open spec fn action_matches<R>(a: RunAction<R>, i: int, s: Submission<R>) -> bool {
    match a {
        RunAction::Run { sub, job } => sub == i && job == s.job && s.state is Queued && (
        s.kind is Fire || s.kind is WithCallback),
        RunAction::RunWithCtx { sub, job, ctx } => sub == i && job == s.job && ctx.spec_sub() == i
            && s.state is Queued && (s.kind is WithCallbackCtx || s.kind is BlockingCtx),
        RunAction::DeliverCallback { sub, job, recv } => sub == i && job == s.job
            && s.state is CallbackQueued && s.recv == Some(recv),
    }
}

impl Context {
    /// The submission this context completes.
    pub closed spec fn spec_sub(self) -> usize {
        self.sub
    }

    /// The submission index, for inspection by the host.
    pub fn sub(&self) -> (r: usize)
        ensures
            r == self.spec_sub(),
    {
        self.sub
    }

    /// Signals completion of a deferred submission, consuming the context:
    /// a callback submission has its callback queued for the originating
    /// thread, a blocking one unblocks its submitter. This is also what
    /// dropping a live context does on the host, so it happens exactly once.
    pub fn finish<R>(self, q: &mut Queue<R>)
        requires
            old(q)@.wf(),
            self.spec_sub() < old(q)@.subs.len(),
            old(q)@.subs[self.spec_sub() as int].state is AwaitingFinish,
        ensures
            final(q)@.open == old(q)@.open,
            final(q)@.subs == old(q)@.subs.update(
                self.spec_sub() as int,
                finish_step(old(q)@.subs[self.spec_sub() as int]),
            ),
            final(q)@.wf(),
    {
        let i = self.sub;
        let sub = q.subs.remove(i);
        proof {
            assert(sub_wf(old(q)@.subs[i as int]));
        }
        let Submission { target, origin, job, kind, state, recv } = sub;
        let next = match kind {
            SubKind::WithCallbackCtx => SubState::CallbackQueued,
            _ => SubState::Done,
        };
        let keep = match kind {
            SubKind::WithCallbackCtx => recv,
            _ => None,
        };
        q.subs.insert(i, Submission { target, origin, job, kind, state: next, recv: keep });
        proof {
            assert(q@.subs =~= old(q)@.subs.update(
                i as int,
                finish_step(old(q)@.subs[i as int]),
            ));
            lemma_finish_wf(old(q)@, q@, i as int);
        }
    }
}

/// What finishing a context does to its submission.
pub open spec fn finish_step<R>(s: Submission<R>) -> Submission<R> {
    if s.kind is WithCallbackCtx {
        Submission { state: SubState::CallbackQueued, ..s }
    } else {
        Submission { state: SubState::Done, recv: None, ..s }
    }
}

/// Splits a value into the part that runs on the target thread and the
/// receiver that the callback or cancel phase consumes on the originating
/// thread.
pub trait IntoCallback {
    /// The callback type the value splits into.
    type Callback: Callback;

    /// Performs the split.
    fn into_callback(self) -> (Self::Callback, <Self::Callback as Callback>::Receiver);
}

/// A three-phase callback: `call` runs once on the target thread, then
/// exactly one of `callback` and `cancel` consumes the receiver on the
/// originating thread.
pub trait Callback: Send {
    /// The resource consumed by `callback` or `cancel`.
    type Receiver;

    /// The call phase, on the target thread.
    fn call(self);

    /// The success phase, on the originating thread.
    fn callback(this: Self::Receiver);

    /// The teardown phase, on the originating thread.
    fn cancel(this: Self::Receiver);
}

/// Like `IntoCallback`, for callbacks whose call phase receives a finish
/// context.
pub trait IntoCallbackWithCtx {
    /// The callback type the value splits into.
    type Callback: CallbackWithCtx;

    /// Performs the split.
    fn into_callback_with_ctx(self) -> (
        Self::Callback,
        <Self::Callback as CallbackWithCtx>::Receiver,
    );
}

/// A three-phase callback whose call phase receives a `Context`, so it can
/// defer completion until an inner asynchronous operation ends.
pub trait CallbackWithCtx: Send {
    /// The resource consumed by `callback` or `cancel`.
    type Receiver;

    /// The call phase, on the target thread; completion is signalled
    /// through `ctx`.
    fn call(self, ctx: Context);

    /// The success phase, on the originating thread.
    fn callback(this: Self::Receiver);

    /// The teardown phase, on the originating thread.
    fn cancel(this: Self::Receiver);
}

impl<C: Callback> IntoCallback for (C, C::Receiver) {
    type Callback = C;

    fn into_callback(self) -> (Self::Callback, <Self::Callback as Callback>::Receiver) {
        self
    }
}

impl<C: CallbackWithCtx> IntoCallbackWithCtx for (C, C::Receiver) {
    type Callback = C;

    fn into_callback_with_ctx(self) -> (
        Self::Callback,
        <Self::Callback as CallbackWithCtx>::Receiver,
    ) {
        self
    }
}

/// Accepting a fresh submission preserves well-formedness.
proof fn lemma_push_wf<R>(m: QueueModel<R>, m2: QueueModel<R>)
    requires
        m.wf(),
        m2.subs.len() == m.subs.len() + 1,
        forall|i: int| 0 <= i < m.subs.len() ==> m2.subs[i] == #[trigger] m.subs[i],
        sub_wf(m2.subs[m.subs.len() as int]),
    ensures
        m2.wf(),
{
    assert forall|i: int| 0 <= i < m2.subs.len() implies #[trigger] sub_wf(m2.subs[i]) by {
        if i < m.subs.len() {
            assert(sub_wf(m.subs[i]));
        }
    }
}

/// A single-submission update preserves well-formedness when the new entry
/// is itself well formed.
proof fn lemma_update_wf<R>(m: QueueModel<R>, m2: QueueModel<R>, at: int)
    requires
        m.wf(),
        0 <= at < m.subs.len(),
        m2.subs.len() == m.subs.len(),
        forall|i: int| 0 <= i < m.subs.len() && i != at ==> m2.subs[i] == #[trigger] m.subs[i],
        sub_wf(m2.subs[at]),
    ensures
        m2.wf(),
{
    assert forall|i: int| 0 <= i < m2.subs.len() implies #[trigger] sub_wf(m2.subs[i]) by {
        if i != at {
            assert(sub_wf(m.subs[i]));
        }
    }
}

/// Well-formedness after a finish step.
proof fn lemma_finish_wf<R>(m: QueueModel<R>, m2: QueueModel<R>, at: int)
    requires
        m.wf(),
        0 <= at < m.subs.len(),
        m.subs[at].state is AwaitingFinish,
        m2.subs == m.subs.update(at, finish_step(m.subs[at])),
    ensures
        m2.wf(),
{
    assert(sub_wf(m.subs[at]));
    lemma_update_wf(m, m2, at);
}

/// Mid-teardown well-formedness: the entry just rewritten is well formed.
proof fn lemma_close_wf_at<R>(m: QueueModel<R>, at: int)
    requires
        0 <= at < m.subs.len(),
        forall|i: int| 0 <= i < m.subs.len() && i != at ==> sub_wf(#[trigger] m.subs[i]),
        sub_wf(m.subs[at]),
    ensures
        m.wf(),
{
}

/// No submission in the queue names this job.
pub open spec fn job_absent<R>(m: QueueModel<R>, job: u64) -> bool {
    forall|i: int| 0 <= i < m.subs.len() ==> (#[trigger] m.subs[i]).job != job
}

/// The job an action asks the host to touch.
pub open spec fn action_job<R>(a: RunAction<R>) -> u64 {
    match a {
        RunAction::Run { job, .. } => job,
        RunAction::RunWithCtx { job, .. } => job,
        RunAction::DeliverCallback { job, .. } => job,
    }
}

/// Law: a refused submission is never run. `proxy` returning false leaves
/// the queue exactly as it was, so the refused job is absent from it; a job
/// absent from the queue is never named by any action `execute` hands out,
/// and stays absent under every dispatch and finish step (teardown keeps
/// jobs unchanged too, by `close`'s contract).
pub proof fn lemma_rejected_never_runs<R>(m: QueueModel<R>, i: int, a: RunAction<R>, job: u64)
    requires
        job_absent(m, job),
        0 <= i < m.subs.len(),
        action_matches(a, i, m.subs[i]),
    ensures
        action_job(a) != job,
        job_absent(
            QueueModel { open: m.open, subs: m.subs.update(i, dispatch_step(m.subs[i])) },
            job,
        ),
        job_absent(
            QueueModel { open: m.open, subs: m.subs.update(i, finish_step(m.subs[i])) },
            job,
        ),
{
    assert(m.subs[i].job != job);
    let m2 = QueueModel { open: m.open, subs: m.subs.update(i, dispatch_step(m.subs[i])) };
    assert forall|k: int| 0 <= k < m2.subs.len() implies (#[trigger] m2.subs[k]).job != job by {
        assert(m.subs[k].job != job);
    }
    let m3 = QueueModel { open: m.open, subs: m.subs.update(i, finish_step(m.subs[i])) };
    assert forall|k: int| 0 <= k < m3.subs.len() implies (#[trigger] m3.subs[k]).job != job by {
        assert(m.subs[k].job != job);
    }
}

/// Law: per submission, `callback` and `cancel` are mutually exclusive and
/// each fires at most once. `Done` is reached only by delivering the
/// callback and `Cancelled` only by teardown; both are absorbing — no
/// dispatch step applies to them and teardown leaves them alone — and each
/// strips the receiver, so the receiver resource leaves the queue at most
/// once.
pub proof fn lemma_callback_cancel_exclusive<R>(s: Submission<R>, t: u64)
    requires
        sub_wf(s),
    ensures
        s.state is Done || s.state is Cancelled ==> !runnable(s, t),
        s.state is Done || s.state is Cancelled ==> close_step(s) == s,
        s.state is Done || s.state is Cancelled ==> !cancel_takes(s),
        (s.kind is WithCallback || s.kind is WithCallbackCtx) ==> ((s.state is Done
            || s.state is Cancelled) <==> s.recv is None),
        s.state is CallbackQueued ==> dispatch_step(s).state is Done && dispatch_step(
            s,
        ).recv is None,
        !(s.state is Done) && !(s.state is Cancelled) ==> close_step(s).state is Cancelled
            && close_step(s).recv is None,
{
}

} // verus!
