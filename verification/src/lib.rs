//! A model of a browser-hosted cooperative runtime: single-fulfilment
//! promise/event pairs, a local task pool, a cross-thread proxying queue and a
//! cooperative mutex, together with the pure decision logic of the main-loop,
//! console, fetch and file-dialog layers that surround it.
//!
//! The host environment (the event loop that dispatches callbacks, runs
//! proxied closures and settles promises) is not part of the library: every
//! type here is an explicit state machine over plain values, and the functions
//! that advance it return the actions the host must perform.

pub mod chrono;
pub mod console;
pub mod fetch;
pub mod future;
pub mod main_loop;
pub mod proxying;
pub mod runtime;
pub mod sync;
pub mod utils;
pub mod value;

use vstd::prelude::*;

verus! {

/// Host encoding of the timeout-driven timing mode.
pub const TIMING_MODE_SET_TIMEOUT: i32 = 0;

/// Host encoding of the animation-frame timing mode.
pub const TIMING_MODE_RAF: i32 = 1;

/// Host encoding of the set-immediate timing mode.
pub const TIMING_MODE_SET_IMMEDIATE: i32 = 2;

/// How the host paces ticks of the main loop.
#[derive(Debug, Clone, Copy, PartialEq, Eq, Hash, Structural)]
pub enum Timing {
    /// Wait this many milliseconds between ticks, off the display's vsync.
    SetTimeout(u64),
    /// Pace ticks by the set-immediate primitive. Deprecated by the host
    /// environments themselves; kept for completeness.
    SetImmediate,
    /// Tick on every n-th animation frame (vsync); n is at least 1.
    Raf(u32),
}

impl Timing {
    /// The timing is meaningful to the host: an animation-frame interval is
    /// never zero.
    pub open spec fn wf(self) -> bool {
        self matches Timing::Raf(n) ==> n >= 1
    }
}

/// `n` clamped into the host's non-negative 32-bit range.
pub open spec fn clamped_to_i32(n: nat) -> i32 {
    if n > i32::MAX as nat {
        i32::MAX
    } else {
        n as i32
    }
}

/// A millisecond count clamped for the host's timeout argument, which is a
/// 32-bit integer; anything larger saturates.
pub fn clamp_millis(ms: u128) -> (r: i32)
    ensures
        r == clamped_to_i32(ms as nat),
{
    if ms > i32::MAX as u128 {
        i32::MAX
    } else {
        ms as i32
    }
}

/// The (mode, value) pair handed to the host's set-main-loop-timing call:
/// timeouts pass their clamped millisecond count, animation frames their
/// clamped swap interval, set-immediate passes zero.
pub fn timing_mode_value(timing: &Timing) -> (r: (i32, i32))
    ensures
        *timing matches Timing::SetTimeout(ms) ==> r == (
            TIMING_MODE_SET_TIMEOUT,
            clamped_to_i32(ms as nat),
        ),
        *timing is SetImmediate ==> r == (TIMING_MODE_SET_IMMEDIATE, 0i32),
        *timing matches Timing::Raf(n) ==> r == (TIMING_MODE_RAF, clamped_to_i32(n as nat)),
{
    match timing {
        Timing::SetTimeout(ms) => (TIMING_MODE_SET_TIMEOUT, clamp_millis(*ms as u128)),
        Timing::SetImmediate => (TIMING_MODE_SET_IMMEDIATE, 0),
        Timing::Raf(n) => {
            let v = if *n > i32::MAX as u32 {
                i32::MAX
            } else {
                *n as i32
            };
            (TIMING_MODE_RAF, v)
        },
    }
}

/// Splits a sleep of `millis` milliseconds into what the host's 32-bit
/// sleep call can take: a remainder slept first, then `r.1` full sleeps of
/// the 32-bit maximum.
pub fn sleep_chunks(millis: u128) -> (r: (u32, u128))
    ensures
        r.0 == millis % 0xffff_ffffu128,
        r.1 == millis / 0xffff_ffffu128,
        millis == r.1 * 0xffff_ffffu128 + r.0,
{
    let limit: u128 = 0xffff_ffff;
    let rem = millis % limit;
    let div = millis / limit;
    proof {
        vstd::arithmetic::div_mod::lemma_fundamental_div_mod(millis as int, limit as int);
    }
    (rem as u32, div)
}

/// `r` is `s` cut at its first NUL byte (or whole, if it has none), with
/// the terminating NUL appended: the form a C string of `s` must take.
pub open spec fn nul_terminated_form(s: Seq<u8>, r: Seq<u8>) -> bool {
    &&& r.len() >= 1
    &&& r.len() <= s.len() + 1
    &&& r.last() == 0u8
    &&& forall|i: int| 0 <= i < r.len() - 1 ==> #[trigger] r[i] == s[i] && s[i] != 0
    &&& (r.len() <= s.len() ==> s[r.len() - 1] == 0)
}

/// Builds the C-string bytes of a name for the host's bookkeeping: the
/// bytes up to the first NUL — everything, if there is none — plus the
/// terminator.
pub fn name_with_nul(name: &Vec<u8>) -> (r: Vec<u8>)
    ensures
        nul_terminated_form(name@, r@),
{
    let mut out: Vec<u8> = Vec::new();
    let n = name.len();
    let mut i: usize = 0;
    while i < n
        invariant
            n == name@.len(),
            i <= n,
            out@.len() == i,
            forall|j: int| 0 <= j < i ==> #[trigger] out@[j] == name@[j] && name@[j] != 0,
        decreases n - i,
    {
        let b = name[i];
        if b == 0 {
            out.push(0);
            return out;
        }
        out.push(b);
        i = i + 1;
    }
    out.push(0);
    out
}

/// Law: the C-string form of a byte sequence is unique — the contract of
/// `name_with_nul` pins its result completely.
pub proof fn lemma_nul_form_unique(s: Seq<u8>, r1: Seq<u8>, r2: Seq<u8>)
    requires
        nul_terminated_form(s, r1),
        nul_terminated_form(s, r2),
    ensures
        r1 == r2,
{
    if r1.len() < r2.len() {
        assert(r2[r1.len() - 1] == s[r1.len() - 1]);
        assert(false);
    }
    if r2.len() < r1.len() {
        assert(r1[r2.len() - 1] == s[r2.len() - 1]);
        assert(false);
    }
    assert(r1 =~= r2);
}

} // verus!
