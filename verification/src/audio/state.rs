//! The state that the capture controller shares with the real-time
//! callback.

use vstd::prelude::*;

verus! {

/// Whether incoming buffers are persisted. The capture controller writes this
/// flag; the real-time callback only reads it.
#[derive(Clone, Copy, Debug, PartialEq, Eq, Structural)]
pub enum RecordingState {
    Recording,
    Paused,
    Stopped,
}

/// What the real-time callback saw when it probed the shared state cell
/// without blocking: `None` when the cell was held by someone else.
pub open spec fn persists(probe: Option<RecordingState>) -> bool {
    probe == Some(RecordingState::Recording)
}

/// Decides whether a buffer is persisted. A probe that could not take the
/// lock skips the buffer, as does any state but `Recording`.
pub fn should_persist(probe: Option<RecordingState>) -> (keep: bool)
    ensures
        keep == persists(probe),
{
    match probe {
        Some(RecordingState::Recording) => true,
        _ => false,
    }
}

/// Whether a probe of the state cell saw a paused capture; a probe that
/// found the cell busy saw none.
pub fn probe_is_paused(probe: Option<RecordingState>) -> (b: bool)
    ensures
        b == (probe == Some(RecordingState::Paused)),
{
    match probe {
        Some(RecordingState::Paused) => true,
        _ => false,
    }
}

/// Whether a probe of the state cell saw a running capture; a probe that
/// found the cell busy saw none.
pub fn probe_is_recording(probe: Option<RecordingState>) -> (b: bool)
    ensures
        b == persists(probe),
{
    should_persist(probe)
}

impl RecordingState {
    /// The state a fresh capture starts in.
    pub fn initial() -> (s: RecordingState)
        ensures
            s == RecordingState::Recording,
    {
        RecordingState::Recording
    }

    pub fn is_recording(&self) -> (b: bool)
        ensures
            b == (*self == RecordingState::Recording),
    {
        match self {
            RecordingState::Recording => true,
            _ => false,
        }
    }

    pub fn is_paused(&self) -> (b: bool)
        ensures
            b == (*self == RecordingState::Paused),
    {
        match self {
            RecordingState::Paused => true,
            _ => false,
        }
    }
}

} // verus!
