//! The session clock: how long a capture or a timer has been running.
//!
//! The clock belongs to the command layer. It reads nothing that the
//! real-time callback uses, so asking for the elapsed time never contends
//! with the audio thread.

use vstd::prelude::*;
use crate::audio::sample::div_toward_zero;

verus! {

/// Nanoseconds in a second.
pub const NANOS_PER_SECOND: u32 = 1_000_000_000;

/// A point in time: seconds since the Unix epoch and the nanoseconds into
/// that second.
#[derive(Clone, Copy, Debug, PartialEq, Eq)]
pub struct Timestamp {
    secs: i64,
    nanos: u32,
}

/// Whole seconds in a span of nanoseconds; the fraction is cut off, toward
/// zero.
pub open spec fn whole_seconds(nanos: int) -> int {
    div_toward_zero(nanos, 1_000_000_000)
}

/// The 32-bit signed integer that has the low 32 bits of `x`.
pub open spec fn wrapped_i32(x: int) -> int {
    (x + 0x8000_0000) % 0x1_0000_0000 - 0x8000_0000
}

/// Elapsed seconds of a session that has been paused for `pause_duration`
/// seconds in all: the pause snapshot while it is paused, else the time
/// since the start less the pauses.
pub open spec fn session_elapsed(is_paused: bool, pause_duration: int, since_start: int) -> int {
    if is_paused {
        pause_duration
    } else {
        wrapped_i32(wrapped_i32(since_start) - pause_duration)
    }
}

impl Timestamp {
    #[verifier::type_invariant]
    closed spec fn well_formed(self) -> bool {
        self.nanos < 1_000_000_000
    }

    /// Seconds since the epoch.
    pub closed spec fn seconds(self) -> int {
        self.secs as int
    }

    /// Nanoseconds into the second; always less than a second.
    pub closed spec fn subsec_nanos(self) -> int {
        self.nanos as int
    }

    /// Nanoseconds since the epoch.
    pub open spec fn total_nanos(self) -> int {
        self.seconds() * 1_000_000_000 + self.subsec_nanos()
    }

    /// The timestamp with these parts, or `None` where `nanos` is not less
    /// than a second.
    pub fn new(secs: i64, nanos: u32) -> (t: Option<Timestamp>)
        ensures
            t is Some <==> nanos < 1_000_000_000,
            t is Some ==> t->Some_0.seconds() == secs && t->Some_0.subsec_nanos() == nanos,
    {
        if nanos < NANOS_PER_SECOND {
            Some(Timestamp { secs, nanos })
        } else {
            None
        }
    }

    /// Seconds since the epoch.
    pub fn secs(&self) -> (s: i64)
        ensures
            s == self.seconds(),
    {
        self.secs
    }

    /// Nanoseconds into the second.
    pub fn nanos(&self) -> (n: u32)
        ensures
            n == self.subsec_nanos(),
            n < 1_000_000_000,
    {
        proof {
            use_type_invariant(self);
        }
        self.nanos
    }

    /// Whole seconds from `start` to `self`, negative where `self` is the
    /// earlier of the two.
    pub fn seconds_since(&self, start: &Timestamp) -> (s: i128)
        ensures
            s == whole_seconds(self.total_nanos() - start.total_nanos()),
    {
        proof {
            use_type_invariant(self);
            use_type_invariant(start);
        }
        let later: i128 = (self.secs as i128) * 1_000_000_000 + (self.nanos as i128);
        let earlier: i128 = (start.secs as i128) * 1_000_000_000 + (start.nanos as i128);
        (later - earlier) / 1_000_000_000
    }
}

/// The low 32 bits of `x`, read as a signed integer.
pub fn wrap_to_i32(x: i128) -> (r: i32)
    requires
        -0x1_0000_0000_0000_0000_0000 <= x <= 0x1_0000_0000_0000_0000_0000,
    ensures
        r == wrapped_i32(x as int),
{
    let shifted: i128 = x + 0x1_0000_0000_0000_0000_0000 + 0x8000_0000;
    let low: i128 = shifted % 0x1_0000_0000;
    proof {
        assert((x + 0x1_0000_0000_0000_0000_0000 + 0x8000_0000) % 0x1_0000_0000 == (x + 0x8000_0000)
            % 0x1_0000_0000) by (nonlinear_arith)
            requires
                -0x1_0000_0000_0000_0000_0000 <= x <= 0x1_0000_0000_0000_0000_0000,
        ;
    }
    (low - 0x8000_0000) as i32
}

/// Seconds that a recording has been running, as the recording state
/// reports them: the whole seconds from `start` to `now` in 32 bits.
pub fn elapsed_seconds(start: &Timestamp, now: &Timestamp) -> (e: i32)
    ensures
        e == wrapped_i32(whole_seconds(now.total_nanos() - start.total_nanos())),
{
    let whole = now.seconds_since(start);
    proof {
        use_type_invariant(start);
        use_type_invariant(now);
        lemma_whole_seconds_bound(now.total_nanos() - start.total_nanos());
    }
    wrap_to_i32(whole)
}

/// Elapsed seconds of a timer session: the pause snapshot while the
/// session is paused, else the whole seconds since its start less the
/// seconds spent paused.
pub fn timer_elapsed(is_paused: bool, pause_duration: i32, start: &Timestamp, now: &Timestamp) -> (e: i32)
    ensures
        e == session_elapsed(
            is_paused,
            pause_duration as int,
            whole_seconds(now.total_nanos() - start.total_nanos()),
        ),
{
    if is_paused {
        pause_duration
    } else {
        let running = elapsed_seconds(start, now);
        wrap_to_i32(running as i128 - pause_duration as i128)
    }
}

/// Elapsed seconds of a review timer session: as for a timer session, but
/// never negative.
pub fn review_timer_elapsed(is_paused: bool, pause_duration: i32, start: &Timestamp, now: &Timestamp) -> (e: i32)
    ensures
        e == vstd::math::max(
            0,
            session_elapsed(
                is_paused,
                pause_duration as int,
                whole_seconds(now.total_nanos() - start.total_nanos()),
            ),
        ),
{
    let elapsed = timer_elapsed(is_paused, pause_duration, start, now);
    if elapsed < 0 {
        0
    } else {
        elapsed
    }
}

/// Whole seconds are no larger in magnitude than the nanoseconds they come
/// from.
proof fn lemma_whole_seconds_bound(nanos: int)
    ensures
        nanos >= 0 ==> 0 <= whole_seconds(nanos) <= nanos,
        nanos < 0 ==> nanos <= whole_seconds(nanos) <= 0,
{
    if nanos >= 0 {
        assert(0 <= nanos / 1_000_000_000 <= nanos) by (nonlinear_arith)
            requires
                nanos >= 0,
        ;
    } else {
        assert(0 <= (-nanos) / 1_000_000_000 <= -nanos) by (nonlinear_arith)
            requires
                nanos < 0,
        ;
    }
}

/// While a session runs without a pause on record and within the range of
/// 32 bits, its elapsed time is the whole seconds since its start.
pub proof fn lemma_elapsed_of_running_session(since_start: int)
    requires
        -0x8000_0000 <= since_start < 0x8000_0000,
    ensures
        session_elapsed(false, 0, since_start) == since_start,
        wrapped_i32(since_start) == since_start,
{
}

/// While a session is paused its elapsed time does not move with the clock.
pub proof fn lemma_elapsed_of_paused_session(pause_duration: int, earlier: int, later: int)
    ensures
        session_elapsed(true, pause_duration, earlier) == session_elapsed(true, pause_duration, later),
{
}

} // verus!
