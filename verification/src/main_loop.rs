//! The finite main loop's per-frame decision machine.
//!
//! The host calls the loop body back once per frame. Every `delay`-th frame
//! runs the user function; the others are skipped. A tick may ask to cancel
//! the loop, and a panic in the user function is caught: either way the
//! loop stops, its completion event fires, and a caught panic is resumed
//! once the thread that waits on the event resumes.

use vstd::prelude::*;

verus! {

/// The mathematical state of a `FiniteLoop`.
pub struct FiniteLoopModel {
    /// Run the user function every `delay`-th frame; at least 1.
    pub delay: u32,
    /// Frames left until the next run; between 1 and `delay`.
    pub remaining: u32,
    /// The loop has stopped and its completion event has fired.
    pub done: bool,
    /// The loop stopped because the user function panicked; the caught
    /// payload must be resumed after the completion event is consumed.
    pub panicked: bool,
}

impl FiniteLoopModel {
    /// Well-formedness: the frame countdown stays within its cycle and a
    /// recorded panic implies the loop has stopped.
    pub open spec fn wf(self) -> bool {
        &&& 1 <= self.remaining <= self.delay
        &&& (self.panicked ==> self.done)
    }
}

/// What one executed tick of the user function reported.
pub enum TickOutcome {
    /// The user function returned; `cancel_requested` tells whether it
    /// asked to cancel the main loop.
    Completed { cancel_requested: bool },
    /// The user function panicked; the panic was caught.
    Panicked,
}

/// The frame interval a finite loop runs its body at under the given
/// timing: every n-th animation frame under `Raf(n)`, every callback
/// otherwise (timeout and set-immediate pacing fire the callback exactly
/// when the body is due).
pub fn frame_delay_for(timing: &crate::Timing) -> (r: u32)
    requires
        timing.wf(),
    ensures
        *timing matches crate::Timing::Raf(n) ==> r == n,
        !(*timing is Raf) ==> r == 1,
        r >= 1,
{
    match timing {
        crate::Timing::Raf(n) => *n,
        _ => 1,
    }
}

/// The per-frame state of one finite main loop.
pub struct FiniteLoop {
    delay: u32,
    remaining: u32,
    done: bool,
    panicked: bool,
}

impl View for FiniteLoop {
    type V = FiniteLoopModel;

    closed spec fn view(&self) -> FiniteLoopModel {
        FiniteLoopModel {
            delay: self.delay,
            remaining: self.remaining,
            done: self.done,
            panicked: self.panicked,
        }
    }
}

impl FiniteLoop {
    /// A loop that runs its body every `delay`-th frame, starting after
    /// `delay` frames.
    pub fn new(delay: u32) -> (r: FiniteLoop)
        requires
            delay >= 1,
        ensures
            r@ == (FiniteLoopModel { delay, remaining: delay, done: false, panicked: false }),
            r@.wf(),
    {
        FiniteLoop { delay, remaining: delay, done: false, panicked: false }
    }

    /// A frame begins: decides whether this frame runs the user function.
    /// Off-cycle frames only count down; the on-cycle frame rewinds the
    /// countdown and runs.
    pub fn frame_begins(&mut self) -> (run: bool)
        requires
            old(self)@.wf(),
            !old(self)@.done,
        ensures
            final(self)@.wf(),
            run == (old(self)@.remaining == 1),
            !run ==> final(self)@ == (FiniteLoopModel {
                remaining: (old(self)@.remaining - 1) as u32,
                ..old(self)@
            }),
            run ==> final(self)@ == (FiniteLoopModel { remaining: old(self)@.delay, ..old(self)@ }),
    {
        if self.remaining > 1 {
            self.remaining = self.remaining - 1;
            false
        } else {
            self.remaining = self.delay;
            true
        }
    }

    /// The user function ran this frame: records its outcome and decides
    /// whether the host keeps the loop alive. A panic or a cancel request
    /// stops the loop, which fires its completion event; a panic is
    /// additionally parked for resumption.
    pub fn frame_ends(&mut self, outcome: TickOutcome) -> (keep_going: bool)
        requires
            old(self)@.wf(),
            !old(self)@.done,
        ensures
            final(self)@.wf(),
            final(self)@.delay == old(self)@.delay,
            final(self)@.remaining == old(self)@.remaining,
            outcome matches TickOutcome::Completed { cancel_requested } ==> (keep_going
                == !cancel_requested && final(self)@.done == cancel_requested
                && !final(self)@.panicked),
            outcome is Panicked ==> (!keep_going && final(self)@.done && final(self)@.panicked),
    {
        match outcome {
            TickOutcome::Completed { cancel_requested } => {
                if cancel_requested {
                    self.done = true;
                }
                !cancel_requested
            },
            TickOutcome::Panicked => {
                self.done = true;
                self.panicked = true;
                false
            },
        }
    }

    /// Whether the loop has stopped (and its completion event fired).
    pub fn is_done(&self) -> (r: bool)
        ensures
            r == self@.done,
    {
        self.done
    }

    /// Whether a caught panic waits to be resumed by the thread that
    /// blocked on the loop's completion.
    pub fn must_resume_panic(&self) -> (r: bool)
        ensures
            r == self@.panicked,
    {
        self.panicked
    }
}

} // verus!
