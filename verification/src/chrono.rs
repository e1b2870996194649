//! Local date and time from the host clock.
//!
//! The host supplies the instant and the local offset; what the library
//! owns is the normalisation of years handed to the host's offset query:
//! query years from 0 to 99 would be read as 1900 to 1999, so such years
//! are shifted up by whole 400-year cycles — which leave the calendar
//! unchanged — until they are at least 100.

use vstd::prelude::*;

verus! {

/// The local time zone, as the host reports it.
#[derive(Debug, Clone)]
pub struct Local;

/// An instant together with the local offset that was in force at it.
pub struct LocalDateTime {
    /// Milliseconds since the epoch, in universal time.
    pub timestamp_millis: i64,
    /// The local offset at that instant: local minus universal, in
    /// seconds, strictly between minus and plus one day.
    pub offset_seconds: i32,
}

impl LocalDateTime {
    /// The offset is a fraction of a day in either direction.
    pub open spec fn wf(self) -> bool {
        -86400 < self.offset_seconds < 86400
    }
}

/// Relies on `chrono::Local::now`: the clock instant is arbitrary, but the
/// offset comes from a `chrono::FixedOffset`, which is only ever built
/// from a count of seconds strictly between minus and plus one day.
#[verifier::external_body]
fn host_local_now() -> (r: (i64, i32))
    ensures
        -86400 < r.1 < 86400,
{
    let now = chrono::Local::now();
    (now.timestamp_millis(), now.offset().local_minus_utc())
}

impl Local {
    /// The current local date and time: the instant now, paired with the
    /// local offset in force at it.
    pub fn now() -> (r: LocalDateTime)
        ensures
            r.wf(),
    {
        let (timestamp_millis, offset_seconds) = host_local_now();
        LocalDateTime { timestamp_millis, offset_seconds }
    }
}

/// The year as the host's offset query must receive it: years of at least
/// 100 pass through, anything below is raised by whole 400-year cycles
/// into the range from 100 to 499 — same calendar, unambiguous reading.
pub fn query_year(year: i32) -> (r: i32)
    ensures
        year >= 100 ==> r == year,
        year < 100 ==> 100 <= r < 500,
        (r - year) % 400 == 0,
{
    if year >= 100 {
        proof {
            assert((year - year) % 400 == 0);
        }
        return year;
    }
    let y = year as i64;
    let d = 499 - y;
    let k = d / 400;
    proof {
        vstd::arithmetic::div_mod::lemma_fundamental_div_mod(d as int, 400);
        assert(d == 400 * (d as int / 400) + d as int % 400);
        assert(0 <= d as int % 400 < 400);
    }
    let r64 = y + k * 400;
    proof {
        assert(r64 == 499 - (d as int % 400));
        assert(100 <= r64 < 500);
        assert(r64 - y == 400 * (d as int / 400) - (0 as int));
        assert((r64 - y) % 400 == 0) by {
            let q = d as int / 400;
            assert(r64 - y == 400 * q);
            assert((400 * q) % 400 == 0) by (nonlinear_arith);
        }
    }
    r64 as i32
}

} // verus!
