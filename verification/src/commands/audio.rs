//! Bookkeeping of the recording under way, and what the recording commands
//! hand to the capture controller.

use vstd::prelude::*;
use vstd::string::StringExecFns;
use crate::audio::session::{
    elapsed_seconds, session_elapsed, timer_elapsed, whole_seconds, wrapped_i32, Timestamp,
};
use crate::encoding::{base64_text, encode_standard};
use crate::models::{AudioCommand, AudioCommandView, RecordingInfo, RecordingSession, RecordingState};
use crate::path_resolver::{join_path, joined_path, stored_form, PathResolver};
use crate::text::{
    byte_len, char_width, chars_of, lemma_byte_len_concat, prefixed, string_between,
};

verus! {

/// Sample rate that a start command asks for. The device's own rate is
/// what counts in the end.
pub const REQUESTED_SAMPLE_RATE: u32 = 44100;

/// Channel count that a start command asks for.
pub const REQUESTED_CHANNELS: u16 = 1;

/// The message of a recording command that finds no recording under way.
pub open spec fn no_recording() -> Seq<char> {
    "No active recording"@
}

/// The part of a card's identifier that goes into file names: the longest
/// beginning of it that takes no more than eight bytes.
pub open spec fn card_prefix(card_id: Seq<char>) -> Seq<char>
    decreases card_id.len(),
{
    if byte_len(card_id) <= 8 || card_id.len() == 0 {
        card_id
    } else {
        card_prefix(card_id.drop_last())
    }
}

/// Name of the file for a recording of a card, started at the time that
/// `timestamp` spells out.
pub open spec fn card_recording_name(card_id: Seq<char>, timestamp: Seq<char>) -> Seq<char> {
    "recording_"@ + card_prefix(card_id) + "_"@ + timestamp + ".wav"@
}

/// A beginning of at most eight bytes that cannot be made longer is the
/// card prefix.
proof fn lemma_card_prefix(s: Seq<char>, i: int)
    requires
        0 <= i <= s.len(),
        byte_len(s.take(i)) <= 8,
        i < s.len() ==> byte_len(s.take(i + 1)) > 8,
    ensures
        card_prefix(s) == s.take(i),
    decreases s.len() - i,
{
    if i == s.len() {
        assert(s.take(i) =~= s);
    } else {
        assert(s =~= s.take(i + 1) + s.skip(i + 1));
        lemma_byte_len_concat(s.take(i + 1), s.skip(i + 1));
        let front = s.drop_last();
        assert(front.take(i) =~= s.take(i));
        if i < front.len() {
            assert(front.take(i + 1) =~= s.take(i + 1));
        }
        lemma_card_prefix(front, i);
    }
}

/// Name of the file for a recording of a card. The name carries the
/// beginning of the card's identifier, so that recordings of different
/// cards started in the same second do not collide.
pub fn card_recording_filename(card_id: &str, timestamp: &str) -> (name: String)
    ensures
        name@ == card_recording_name(card_id@, timestamp@),
{
    let chars = chars_of(card_id);
    let mut taken: usize = 0;
    let mut bytes: u64 = 0;
    assert(chars@.take(0) =~= Seq::<char>::empty());
    while taken < chars.len() && bytes + char_width(chars[taken]) <= 8
        invariant
            taken <= chars.len(),
            bytes == byte_len(chars@.take(taken as int)),
            bytes <= 8,
        decreases chars.len() - taken,
    {
        proof {
            assert(chars@.take(taken + 1).drop_last() =~= chars@.take(taken as int));
        }
        bytes = bytes + char_width(chars[taken]);
        taken = taken + 1;
    }
    proof {
        if taken < chars.len() {
            assert(chars@.take(taken + 1).drop_last() =~= chars@.take(taken as int));
        }
        lemma_card_prefix(chars@, taken as int);
    }
    let prefix = string_between(&chars, 0, taken);
    assert(chars@.subrange(0, taken as int) =~= chars@.take(taken as int));
    let mut name = String::from_str("recording_");
    name.append(prefix.as_str());
    name.append("_");
    name.append(timestamp);
    name.append(".wav");
    name
}

/// What starting a recording gives: the command for the capture
/// controller and what the caller is told.
#[derive(Debug)]
pub struct StartedRecording {
    pub command: AudioCommand,
    pub info: RecordingInfo,
}

/// Whole seconds from the start of a recording to `now`.
pub open spec fn since_start(session: RecordingSession, now: Timestamp) -> int {
    whole_seconds(now.total_nanos() - session.start_time.total_nanos())
}

/// The paused time that the clock of a recording goes by: while the
/// recording is paused, the elapsed time at which it stands; else the
/// seconds spent in the pauses that have ended.
pub open spec fn paused_seconds(session: RecordingSession) -> int {
    if session.is_paused {
        session.pause_snapshot as int
    } else {
        session.pause_duration as int
    }
}

/// Elapsed seconds of a recording at `now`: while it is paused, the value
/// at which the clock stood when the pause began; else the time since its
/// start less the time spent paused.
pub open spec fn recording_elapsed(session: RecordingSession, now: Timestamp) -> int {
    session_elapsed(session.is_paused, paused_seconds(session), since_start(session, now))
}

/// A recording once it has been paused at `now`: the clock stands at the
/// elapsed time of that moment. A recording that is paused already stays
/// as it is.
pub open spec fn paused_at(session: RecordingSession, now: Timestamp) -> RecordingSession {
    if session.is_paused {
        session
    } else {
        RecordingSession { is_paused: true, pause_snapshot: recording_elapsed(session, now) as i32, ..session }
    }
}

/// A recording once it has been resumed at `now`: the time spent paused
/// is what separates the time since the start from the value at which the
/// clock stood, so that the clock goes on from there. A recording that is
/// not paused stays as it is.
pub open spec fn resumed_at(session: RecordingSession, now: Timestamp) -> RecordingSession {
    if session.is_paused {
        RecordingSession {
            is_paused: false,
            pause_duration: session_elapsed(false, session.pause_snapshot as int, since_start(session, now)) as i32,
            ..session
        }
    } else {
        session
    }
}

/// The elapsed seconds of a recording at `now`.
pub fn elapsed_recording_time(session: &RecordingSession, now: &Timestamp) -> (elapsed: i32)
    ensures
        elapsed == recording_elapsed(*session, *now),
{
    let paused = if session.is_paused {
        session.pause_snapshot
    } else {
        session.pause_duration
    };
    timer_elapsed(session.is_paused, paused, &session.start_time, now)
}

/// Begins the bookkeeping of a recording for a card and prepares the
/// command that starts the capture.
///
/// The file is named after the card and the time, and lies in the
/// directory of the recordings. The recording runs, with no pause on
/// record. A recording that was under way is no longer kept track of.
pub fn start_recording(
    slot: &mut Option<RecordingSession>,
    resolver: &PathResolver,
    card_id: String,
    session_id: String,
    now: Timestamp,
    timestamp: &str,
) -> (started: StartedRecording)
    ensures
        ({
            let filename = card_recording_name(card_id@, timestamp@);
            let filepath = joined_path(joined_path(resolver.base(), "recordings"@), filename);
            &&& *final(slot) matches Some(session) && session.id == session_id && session.card_id == card_id
                && session.start_time == now && !session.is_paused && session.pause_duration == 0
                && session.pause_snapshot == 0 && session.filename@ == filename && session.filepath@ == filepath
            &&& started.command@ == (AudioCommandView::StartRecording {
                filepath,
                sample_rate: 44100,
                channels: 1,
            })
            &&& started.info.filename@ == filename
            &&& started.info.filepath@ == stored_form(resolver.environment(), resolver.base(), filepath)
        }),
{
    let filename = card_recording_filename(card_id.as_str(), timestamp);
    let directory = resolver.get_recordings_dir();
    let filepath = join_path(directory.as_str(), filename.as_str());
    let stored = resolver.to_relative_path(filepath.as_str());
    *slot = Some(
        RecordingSession {
            id: session_id,
            card_id,
            start_time: now,
            is_paused: false,
            pause_duration: 0,
            pause_snapshot: 0,
            filename: filename.clone(),
            filepath: filepath.clone(),
        },
    );
    StartedRecording {
        command: AudioCommand::StartRecording {
            filepath,
            sample_rate: REQUESTED_SAMPLE_RATE,
            channels: REQUESTED_CHANNELS,
        },
        info: RecordingInfo { filename, filepath: stored },
    }
}

/// What is stored of a recording that has been stopped, and the command
/// that stops the capture.
#[derive(Debug)]
pub struct StoppedRecording {
    /// The command to send to the capture controller.
    pub command: AudioCommand,
    pub card_id: String,
    pub filename: String,
    /// The stored form of the file's path.
    pub relative_path: String,
    /// Whole seconds from the start of the recording to its end.
    pub duration: i32,
}

/// Ends the bookkeeping of the recording under way, says what is to be
/// stored of it and hands back the command that stops the capture. Without
/// a recording the command is refused.
pub fn stop_recording(slot: &mut Option<RecordingSession>, resolver: &PathResolver, now: &Timestamp) -> (r: Result<
    StoppedRecording,
    String,
>)
    ensures
        *final(slot) == None::<RecordingSession>,
        match *old(slot) {
            Some(session) => r matches Ok(stopped) && stopped.command@ == AudioCommandView::StopRecording
                && stopped.card_id == session.card_id && stopped.filename == session.filename
                && stopped.relative_path@ == stored_form(
                resolver.environment(),
                resolver.base(),
                joined_path(joined_path(resolver.base(), "recordings"@), session.filename@),
            ) && stopped.duration == wrapped_i32(since_start(session, *now)),
            None => r is Err && r->Err_0@ == no_recording(),
        },
{
    match slot.take() {
        Some(session) => {
            let duration = elapsed_seconds(&session.start_time, now);
            let directory = resolver.get_recordings_dir();
            let full_path = join_path(directory.as_str(), session.filename.as_str());
            let relative_path = resolver.to_relative_path(full_path.as_str());
            Ok(
                StoppedRecording {
                    command: AudioCommand::StopRecording,
                    card_id: session.card_id,
                    filename: session.filename,
                    relative_path,
                    duration,
                },
            )
        },
        None => Err(String::from_str("No active recording")),
    }
}

/// What a pause or a resume gives: the words for the caller and the
/// command to send to the capture controller.
#[derive(Debug)]
pub struct Transition {
    pub message: String,
    pub command: AudioCommand,
}

/// Pauses the recording under way at `now` and hands back the command
/// that pauses the capture. The clock of the recording stands from now on
/// at the elapsed time of this moment. Without a recording the command is
/// refused.
pub fn pause_recording(slot: &mut Option<RecordingSession>, now: &Timestamp) -> (r: Result<Transition, String>)
    ensures
        match *old(slot) {
            Some(session) => {
                &&& *final(slot) == Some(paused_at(session, *now))
                &&& r is Ok
                &&& r->Ok_0.message@ == "Recording paused"@
                &&& r->Ok_0.command@ == AudioCommandView::PauseRecording
            },
            None => *final(slot) == *old(slot) && r is Err && r->Err_0@ == no_recording(),
        },
{
    match slot {
        Some(session) => {
            if !session.is_paused {
                let snapshot = elapsed_recording_time(session, now);
                session.pause_snapshot = snapshot;
                session.is_paused = true;
            }
            Ok(Transition { message: String::from_str("Recording paused"), command: AudioCommand::PauseRecording })
        },
        None => Err(String::from_str("No active recording")),
    }
}

/// Resumes the recording under way at `now` and hands back the command
/// that resumes the capture. The time since the pause began counts as
/// paused, so that the clock goes on from where it stood. Without a
/// recording the command is refused.
pub fn resume_recording(slot: &mut Option<RecordingSession>, now: &Timestamp) -> (r: Result<Transition, String>)
    ensures
        match *old(slot) {
            Some(session) => {
                &&& *final(slot) == Some(resumed_at(session, *now))
                &&& r is Ok
                &&& r->Ok_0.message@ == "Recording resumed"@
                &&& r->Ok_0.command@ == AudioCommandView::ResumeRecording
            },
            None => *final(slot) == *old(slot) && r is Err && r->Err_0@ == no_recording(),
        },
{
    match slot {
        Some(session) => {
            if session.is_paused {
                let paused = timer_elapsed(false, session.pause_snapshot, &session.start_time, now);
                session.pause_duration = paused;
                session.is_paused = false;
            }
            Ok(Transition { message: String::from_str("Recording resumed"), command: AudioCommand::ResumeRecording })
        },
        None => Err(String::from_str("No active recording")),
    }
}

/// What is reported of the recording at `now`: while one is under way, its
/// elapsed time, which is the time since its start less the time spent
/// paused and which stands still while it is paused; else the idle state.
pub fn get_recording_state(slot: &Option<RecordingSession>, now: &Timestamp) -> (state: RecordingState)
    ensures
        match *slot {
            Some(session) => {
                &&& state.is_recording
                &&& state.is_paused == session.is_paused
                &&& state.current_recording_id is Some
                &&& state.current_recording_id->Some_0@ == session.id@
                &&& state.recording_start_time == Some(session.start_time)
                &&& state.elapsed_recording_time == recording_elapsed(session, *now)
            },
            None => state == (RecordingState {
                is_recording: false,
                is_paused: false,
                current_recording_id: None,
                recording_start_time: None,
                elapsed_recording_time: 0,
            }),
        },
{
    match slot {
        Some(session) => RecordingState {
            is_recording: true,
            is_paused: session.is_paused,
            current_recording_id: Some(session.id.clone()),
            recording_start_time: Some(session.start_time),
            elapsed_recording_time: elapsed_recording_time(session, now),
        },
        None => RecordingState {
            is_recording: false,
            is_paused: false,
            current_recording_id: None,
            recording_start_time: None,
            elapsed_recording_time: 0,
        },
    }
}

/// While a recording is paused, its elapsed time does not move with the
/// clock.
pub proof fn lemma_paused_recording_stands_still(session: RecordingSession, earlier: Timestamp, later: Timestamp)
    requires
        session.is_paused,
    ensures
        recording_elapsed(session, earlier) == recording_elapsed(session, later),
        recording_elapsed(session, later) == session.pause_snapshot,
{
}

/// A pause keeps the elapsed time of the moment at which it begins: at
/// whatever time a recording that was paused at `at` is asked, it reports
/// what it would have reported at `at` without the pause.
pub proof fn lemma_pause_takes_a_snapshot(session: RecordingSession, at: Timestamp, later: Timestamp)
    ensures
        recording_elapsed(paused_at(session, at), later) == recording_elapsed(session, at),
        paused_at(session, at).is_paused,
{
    lemma_elapsed_in_range(session, at);
}

/// A resume lets the clock go on from where it stood: at the moment of the
/// resume the recording reports the value of the pause.
pub proof fn lemma_resume_goes_on_from_the_snapshot(session: RecordingSession, at: Timestamp)
    requires
        session.is_paused,
    ensures
        !resumed_at(session, at).is_paused,
        recording_elapsed(resumed_at(session, at), at) == session.pause_snapshot,
{
    let since = wrapped_i32(since_start(session, at));
    let snapshot = session.pause_snapshot as int;
    let paused = wrapped_i32(since - snapshot);
    lemma_wrapped_in_range(since - snapshot);
    lemma_wrapped_in_range(since_start(session, at));
    assert(resumed_at(session, at).pause_duration == paused);
    lemma_wrapped_back(since, snapshot);
}

/// While a recording runs and its times stay within 32 bits, it reports
/// the time since its start less the time spent paused.
pub proof fn lemma_running_recording_subtracts_pauses(session: RecordingSession, now: Timestamp)
    requires
        !session.is_paused,
        -0x8000_0000 <= since_start(session, now) < 0x8000_0000,
        -0x8000_0000 <= since_start(session, now) - session.pause_duration < 0x8000_0000,
    ensures
        recording_elapsed(session, now) == since_start(session, now) - session.pause_duration,
{
}

/// A pause that begins at `from` and ends at `to` adds the whole seconds
/// between the two to the time spent paused, as long as the times stay
/// within 32 bits.
pub proof fn lemma_pauses_add_up(session: RecordingSession, from: Timestamp, to: Timestamp)
    requires
        !session.is_paused,
        -0x8000_0000 <= since_start(session, from) < 0x8000_0000,
        -0x8000_0000 <= since_start(session, to) < 0x8000_0000,
        -0x8000_0000 <= since_start(session, from) - session.pause_duration < 0x8000_0000,
        -0x8000_0000 <= session.pause_duration + (since_start(session, to) - since_start(session, from))
            < 0x8000_0000,
    ensures
        resumed_at(paused_at(session, from), to).pause_duration == session.pause_duration + (since_start(
            session,
            to,
        ) - since_start(session, from)),
{
}

/// The low 32 bits of a number, read as a signed integer, are within 32
/// bits.
pub proof fn lemma_wrapped_in_range(x: int)
    ensures
        -0x8000_0000 <= wrapped_i32(x) < 0x8000_0000,
{
}

/// Taking away from a number what separates it from another gives the
/// other, also where the difference wraps around.
proof fn lemma_wrapped_back(a: int, b: int)
    requires
        -0x8000_0000 <= b < 0x8000_0000,
    ensures
        wrapped_i32(a - wrapped_i32(a - b)) == b,
{
    let m = 0x1_0000_0000int;
    let q = (a - b + 0x8000_0000) / m;
    vstd::arithmetic::div_mod::lemma_fundamental_div_mod(a - b + 0x8000_0000, m);
    assert(wrapped_i32(a - b) == a - b - m * q);
    assert(a - wrapped_i32(a - b) == b + m * q);
    vstd::arithmetic::div_mod::lemma_mod_multiples_vanish(q, b + 0x8000_0000, m);
    assert((m * q + (b + 0x8000_0000)) % m == (b + 0x8000_0000) % m);
    assert(b + m * q + 0x8000_0000 == m * q + (b + 0x8000_0000));
}

/// The elapsed time of a recording is within 32 bits.
proof fn lemma_elapsed_in_range(session: RecordingSession, now: Timestamp)
    ensures
        -0x8000_0000 <= recording_elapsed(session, now) < 0x8000_0000,
{
}

/// The data URL under which the bytes of a recording are handed to the
/// player.
pub fn audio_data_url(bytes: &[u8]) -> (url: String)
    requires
        bytes@.len() <= isize::MAX,
    ensures
        url@ == "data:audio/wav;base64,"@ + base64_text(bytes@),
{
    let encoded = encode_standard(bytes);
    let url = crate::commands::images::data_url("audio/wav", encoded.as_str());
    proof {
        assert("data:"@ + "audio/wav"@ == "data:audio/wav"@) by {
            reveal_strlit("data:");
            reveal_strlit("audio/wav");
            reveal_strlit("data:audio/wav");
            assert("data:"@ + "audio/wav"@ =~= "data:audio/wav"@);
        }
        assert("data:audio/wav"@ + ";base64,"@ == "data:audio/wav;base64,"@) by {
            reveal_strlit("data:audio/wav");
            reveal_strlit(";base64,");
            reveal_strlit("data:audio/wav;base64,");
            assert("data:audio/wav"@ + ";base64,"@ =~= "data:audio/wav;base64,"@);
        }
    }
    url
}

/// The message for a recording that has been deleted from the store,
/// according to whether its file could be deleted too.
pub fn deleted_recording_message(file_deleted: bool) -> (message: String)
    ensures
        message@ == if file_deleted {
            "Recording deleted successfully from database and file system"@
        } else {
            "Recording deleted from database (file was already missing or inaccessible)"@
        },
{
    if file_deleted {
        String::from_str("Recording deleted successfully from database and file system")
    } else {
        String::from_str("Recording deleted from database (file was already missing or inaccessible)")
    }
}

/// The message for a request to switch devices that has been handed on.
pub fn switch_audio_device(device_name: &str) -> (r: (AudioCommand, String))
    ensures
        r.0@ == (AudioCommandView::SwitchDevice { device_name: device_name@ }),
        r.1@ == "Switched to device: "@ + device_name@,
{
    (
        AudioCommand::SwitchDevice { device_name: String::from_str(device_name) },
        prefixed("Switched to device: ", device_name),
    )
}

} // verus!
