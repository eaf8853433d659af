//! Bookkeeping of the running timer.

use vstd::prelude::*;
use vstd::string::StringExecFns;
use crate::audio::session::{review_timer_elapsed, session_elapsed, timer_elapsed, whole_seconds, Timestamp};
use crate::models::{TimerSession, TimerState};

verus! {

/// The message of a timer command that finds no timer running.
pub open spec fn no_timer() -> Seq<char> {
    "No active timer session"@
}

/// The elapsed seconds that a session reports at `now`.
pub open spec fn elapsed_at(session: TimerSession, now: Timestamp) -> int {
    session_elapsed(
        session.is_paused,
        session.pause_duration as int,
        whole_seconds(now.total_nanos() - session.start_time.total_nanos()),
    )
}

/// The state reported while no timer is running.
pub fn idle_timer_state() -> (state: TimerState)
    ensures
        state == (TimerState {
            is_running: false,
            is_paused: false,
            current_session_id: None,
            session_start_time: None,
            elapsed_time: 0,
        }),
{
    TimerState {
        is_running: false,
        is_paused: false,
        current_session_id: None,
        session_start_time: None,
        elapsed_time: 0,
    }
}

/// The session for a timer that has just been started: running, with no
/// pause on record.
pub fn start_timer_session(id: String, card_id: String, start_time: Timestamp) -> (r: (TimerSession, TimerState))
    ensures
        r.0 == (TimerSession { id, card_id, start_time, is_paused: false, pause_duration: 0 }),
        r.1.is_running && !r.1.is_paused && r.1.elapsed_time == 0,
        r.1.session_start_time == Some(start_time),
        r.1.current_session_id is Some && r.1.current_session_id->Some_0@ == id@,
{
    let state = TimerState {
        is_running: true,
        is_paused: false,
        current_session_id: Some(id.clone()),
        session_start_time: Some(start_time),
        elapsed_time: 0,
    };
    (TimerSession { id, card_id, start_time, is_paused: false, pause_duration: 0 }, state)
}

/// Marks the running timer as paused or as running again. Without a timer
/// nothing changes and the command is refused.
fn set_paused(slot: &mut Option<TimerSession>, paused: bool, done: &str) -> (r: Result<String, String>)
    ensures
        match *old(slot) {
            Some(session) => *final(slot) == Some(TimerSession { is_paused: paused, ..session }) && r is Ok
                && r->Ok_0@ == done@,
            None => *final(slot) == *old(slot) && r is Err && r->Err_0@ == no_timer(),
        },
{
    match slot {
        Some(session) => {
            session.is_paused = paused;
            Ok(String::from_str(done))
        },
        None => Err(String::from_str("No active timer session")),
    }
}

/// Pauses the running timer.
pub fn pause_timer_session(slot: &mut Option<TimerSession>) -> (r: Result<String, String>)
    ensures
        match *old(slot) {
            Some(session) => *final(slot) == Some(TimerSession { is_paused: true, ..session }) && r is Ok
                && r->Ok_0@ == "Timer session paused"@,
            None => *final(slot) == *old(slot) && r is Err && r->Err_0@ == no_timer(),
        },
{
    set_paused(slot, true, "Timer session paused")
}

/// Lets the paused timer run again.
pub fn resume_timer_session(slot: &mut Option<TimerSession>) -> (r: Result<String, String>)
    ensures
        match *old(slot) {
            Some(session) => *final(slot) == Some(TimerSession { is_paused: false, ..session }) && r is Ok
                && r->Ok_0@ == "Timer session resumed"@,
            None => *final(slot) == *old(slot) && r is Err && r->Err_0@ == no_timer(),
        },
{
    set_paused(slot, false, "Timer session resumed")
}

/// Takes the running timer out of its slot so that it can be ended.
/// Without a timer the command is refused.
pub fn stop_timer_session(slot: &mut Option<TimerSession>) -> (r: Result<TimerSession, String>)
    ensures
        *final(slot) == None::<TimerSession>,
        match *old(slot) {
            Some(session) => r == Ok::<TimerSession, String>(session),
            None => r is Err && r->Err_0@ == no_timer(),
        },
{
    match slot.take() {
        Some(session) => Ok(session),
        None => Err(String::from_str("No active timer session")),
    }
}

/// What is reported of the timer at `now`: the elapsed time of the running
/// session, or the idle state.
pub fn get_timer_state(slot: &Option<TimerSession>, now: &Timestamp) -> (state: TimerState)
    ensures
        match *slot {
            Some(session) => {
                &&& state.is_running
                &&& state.is_paused == session.is_paused
                &&& state.current_session_id is Some
                &&& state.current_session_id->Some_0@ == session.id@
                &&& state.session_start_time == Some(session.start_time)
                &&& state.elapsed_time == elapsed_at(session, *now)
            },
            None => state == (TimerState {
                is_running: false,
                is_paused: false,
                current_session_id: None,
                session_start_time: None,
                elapsed_time: 0,
            }),
        },
{
    match slot {
        Some(session) => TimerState {
            is_running: true,
            is_paused: session.is_paused,
            current_session_id: Some(session.id.clone()),
            session_start_time: Some(session.start_time),
            elapsed_time: timer_elapsed(session.is_paused, session.pause_duration, &session.start_time, now),
        },
        None => idle_timer_state(),
    }
}

/// What is reported of the review timer at `now`: as for the timer, but
/// with an elapsed time that is never negative.
pub fn get_review_timer_state(slot: &Option<TimerSession>, now: &Timestamp) -> (state: TimerState)
    ensures
        match *slot {
            Some(session) => {
                &&& state.is_running
                &&& state.is_paused == session.is_paused
                &&& state.current_session_id is Some
                &&& state.current_session_id->Some_0@ == session.id@
                &&& state.session_start_time == Some(session.start_time)
                &&& state.elapsed_time == vstd::math::max(0, elapsed_at(session, *now))
            },
            None => state == (TimerState {
                is_running: false,
                is_paused: false,
                current_session_id: None,
                session_start_time: None,
                elapsed_time: 0,
            }),
        },
{
    match slot {
        Some(session) => TimerState {
            is_running: true,
            is_paused: session.is_paused,
            current_session_id: Some(session.id.clone()),
            session_start_time: Some(session.start_time),
            elapsed_time: review_timer_elapsed(
                session.is_paused,
                session.pause_duration,
                &session.start_time,
                now,
            ),
        },
        None => idle_timer_state(),
    }
}

} // verus!
