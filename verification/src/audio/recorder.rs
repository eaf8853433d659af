//! Settings and file-level figures of a recording.

use vstd::prelude::*;
use vstd::string::StringExecFns;
use crate::audio::session::{elapsed_seconds, whole_seconds, wrapped_i32, Timestamp};
use crate::audio::state::RecordingState;
use crate::audio::stream::{container_for, container_spec, ContainerSpec, NegotiatedConfig};

verus! {

/// The settings a recorder asks for before a device has stated its own.
#[derive(Debug, Clone, Copy, PartialEq, Eq)]
pub struct AudioRecorder {
    sample_rate: u32,
    channels: u16,
}

impl AudioRecorder {
    /// The sample rate asked for, in Hz.
    pub closed spec fn rate(self) -> u32 {
        self.sample_rate
    }

    /// The channel count asked for.
    pub closed spec fn channel_count(self) -> u16 {
        self.channels
    }

    /// A recorder that asks for 48 kHz stereo.
    pub fn new() -> (r: Self)
        ensures
            r.rate() == 48000,
            r.channel_count() == 2,
    {
        Self { sample_rate: 48000, channels: 2 }
    }

    /// The sample rate asked for, in Hz.
    pub fn sample_rate(&self) -> (rate: u32)
        ensures
            rate == self.rate(),
    {
        self.sample_rate
    }

    /// The channel count asked for.
    pub fn channels(&self) -> (count: u16)
        ensures
            count == self.channel_count(),
    {
        self.channels
    }

    /// Header of the container for a recording from a device that stated
    /// `negotiated`. What the recorder asks for yields to what the device
    /// states: the container has the device's rate, and the one channel
    /// that the pipeline writes.
    pub fn container(&self, negotiated: &NegotiatedConfig) -> (spec: ContainerSpec)
        ensures
            spec == container_spec(*negotiated),
    {
        container_for(negotiated)
    }

    /// The handle for a recording that has just been started.
    pub fn start_recording(&self, output_path: String, start_time: Timestamp) -> (handle: RecordingHandle)
        ensures
            handle.state() == RecordingState::Recording,
            handle.path() == output_path@,
            handle.started() == start_time,
    {
        RecordingHandle { state: RecordingState::Recording, output_path, start_time }
    }
}

/// What is known of a recording while it runs: its state, its file and its
/// start.
#[derive(Debug)]
pub struct RecordingHandle {
    state: RecordingState,
    output_path: String,
    start_time: Timestamp,
}

impl RecordingHandle {
    /// The state of the recording.
    pub closed spec fn state(self) -> RecordingState {
        self.state
    }

    /// The path of the file.
    pub closed spec fn path(self) -> Seq<char> {
        self.output_path@
    }

    /// The start of the recording.
    pub closed spec fn started(self) -> Timestamp {
        self.start_time
    }

    /// Pauses the recording: buffers are dropped from now on.
    pub fn pause(&mut self)
        ensures
            final(self).state() == RecordingState::Paused,
            final(self).path() == old(self).path(),
            final(self).started() == old(self).started(),
    {
        self.state = RecordingState::Paused;
    }

    /// Lets the recording run again: buffers are persisted from now on.
    pub fn resume(&mut self)
        ensures
            final(self).state() == RecordingState::Recording,
            final(self).path() == old(self).path(),
            final(self).started() == old(self).started(),
    {
        self.state = RecordingState::Recording;
    }

    /// Marks the recording as stopped before its stream is halted and its
    /// container finalized.
    pub fn mark_stopped(&mut self)
        ensures
            final(self).state() == RecordingState::Stopped,
            final(self).path() == old(self).path(),
            final(self).started() == old(self).started(),
    {
        self.state = RecordingState::Stopped;
    }

    /// Ends the recording and gives the path of its file.
    pub fn stop(self) -> (path: String)
        ensures
            path@ == self.path(),
    {
        self.output_path
    }

    /// The state that the callback is to act on.
    pub fn current_state(&self) -> (state: RecordingState)
        ensures
            state == self.state(),
    {
        self.state
    }

    /// Whole seconds since the start of the recording, in 32 bits.
    pub fn get_elapsed_time(&self, now: &Timestamp) -> (seconds: i32)
        ensures
            seconds == wrapped_i32(whole_seconds(now.total_nanos() - self.started().total_nanos())),
    {
        elapsed_seconds(&self.start_time, now)
    }

    /// Whether the recording is paused.
    pub fn is_paused(&self) -> (b: bool)
        ensures
            b == (self.state() == RecordingState::Paused),
    {
        self.state.is_paused()
    }

    /// Whether the recording is running.
    pub fn is_recording(&self) -> (b: bool)
        ensures
            b == (self.state() == RecordingState::Recording),
    {
        self.state.is_recording()
    }
}

/// Whole seconds of audio in a container that holds `samples` samples over
/// all channels. A container that declares no rate or no channels lasts
/// forever unless it is empty; a duration beyond 32 bits is cut to the
/// largest value.
pub open spec fn audio_duration(samples: u32, sample_rate: u32, channels: u16) -> int {
    let per_second = sample_rate as int * channels as int;
    if per_second == 0 {
        if samples == 0 {
            0
        } else {
            i32::MAX as int
        }
    } else if samples as int / per_second > i32::MAX {
        i32::MAX as int
    } else {
        samples as int / per_second
    }
}

/// Duration in whole seconds of a container, from the figures in its
/// header.
pub fn duration_seconds(samples: u32, sample_rate: u32, channels: u16) -> (seconds: i32)
    ensures
        seconds == audio_duration(samples, sample_rate, channels),
{
    assert(sample_rate as int * channels as int <= 0xffff_ffff * 0xffff) by (nonlinear_arith)
        requires
            0 <= sample_rate as int <= 0xffff_ffff,
            0 <= channels as int <= 0xffff,
    ;
    let per_second: u64 = (sample_rate as u64) * (channels as u64);
    if per_second == 0 {
        if samples == 0 {
            0
        } else {
            i32::MAX
        }
    } else {
        let whole: u64 = (samples as u64) / per_second;
        if whole > 2147483647 {
            i32::MAX
        } else {
            whole as i32
        }
    }
}

/// Name of the file for a recording started at the time that `timestamp`
/// spells out.
pub fn recording_filename(timestamp: &str) -> (name: String)
    ensures
        name@ == "recording_"@ + timestamp@ + ".wav"@,
{
    let mut name = String::from_str("recording_");
    name.append(timestamp);
    name.append(".wav");
    name
}

} // verus!
