//! What holds of the capture engine as a whole.

use vstd::prelude::*;
use crate::audio::controller::{
    effect_step, idle_step, reply_step, run, statuses, AudioResponseView, Attempt, ControllerView, EffectView, EventView,
    OpenStage, Phase, Purpose, StepView,
};
use crate::audio::devices::DeviceSnapshotView;
use crate::audio::ieee::{
    binary_exponent, exponent_field, fraction_field, is_nan, lemma_one_times_full_scale, lemma_unpack,
    lemma_whole_part_of_rounded, lemma_within_full_scale, lemma_zero_is_silence, limited, pcm_of_ieee, sign_bit,
    significand, times_full_scale, whole_part,
};
use crate::audio::pipeline::{captured, mono_ieee};
use crate::audio::rounding::{
    lemma_pow2_monotone, lemma_rounded_in_units, lemma_whole_of_value_monotone, pack, whole_of_value,
};
use crate::audio::single::{mean, quotient, sum, total};
use crate::audio::sample::{
    all_in_i16, downmix, frame_at, frame_count, frame_mean, lemma_frame_mean_in_range,
    lemma_opposite_channels_cancel, mono,
};
use crate::audio::state::RecordingState;
use crate::audio::stream::{container_spec, NegotiatedConfig};
use crate::models::AudioCommandView;

verus! {

/// The steps of opening a capture that are still ahead at `stage`, the
/// current one included.
pub open spec fn stages_left(stage: OpenStage) -> nat {
    match stage {
        OpenStage::Negotiate => 5,
        OpenStage::CreateFile => 4,
        OpenStage::CreateWriter => 3,
        OpenStage::BuildStream => 2,
        OpenStage::StartStream => 1,
    }
}

/// An upper bound on the number of events that the controller takes before
/// it is ready for the next command.
pub open spec fn events_left(phase: Phase) -> nat {
    match phase {
        Phase::Ready => 0,
        Phase::Enumerating(Purpose::Initialise) => 1,
        Phase::Enumerating(Purpose::Command) => 1,
        Phase::Discarding(Attempt::Retry) => 1,
        Phase::Opening(stage, Attempt::Retry) => 1 + stages_left(stage),
        Phase::Enumerating(Purpose::Retry) => 7,
        Phase::Discarding(Attempt::First) => 8,
        Phase::Opening(stage, Attempt::First) => 8 + stages_left(stage),
    }
}

/// A `StopRecording` with no capture open reports `Stopped`, asks for
/// nothing and leaves the controller as it was.
pub proof fn lemma_stop_when_idle(c: ControllerView)
    requires
        c.phase == Phase::Ready,
        c.session is None,
    ensures
        c.react(EventView::Command(AudioCommandView::StopRecording)) == (
            c,
            reply_step(AudioResponseView::Stopped),
        ),
{
}

/// `StopRecording` is idempotent: whatever the first one found, a second
/// one right after it changes nothing and reports `Stopped` again.
pub proof fn lemma_stop_twice(c: ControllerView)
    requires
        c.phase == Phase::Ready,
    ensures
        ({
            let stop = EventView::Command(AudioCommandView::StopRecording);
            let (once, first) = c.react(stop);
            &&& first.reply == Some(AudioResponseView::Stopped)
            &&& once.session is None
            &&& once.phase == Phase::Ready
            &&& once.react(stop) == (once, reply_step(AudioResponseView::Stopped))
        }),
{
}

/// `PauseRecording` and `ResumeRecording` touch nothing but the state of
/// the open capture: a pause makes it `Paused`, a resume `Recording`, and
/// both are reported whether or not a capture is open.
pub proof fn lemma_pause_and_resume(c: ControllerView)
    requires
        c.phase == Phase::Ready,
    ensures
        ({
            let (paused, first) = c.react(EventView::Command(AudioCommandView::PauseRecording));
            let (resumed, second) = paused.react(EventView::Command(AudioCommandView::ResumeRecording));
            &&& paused == c.with_state(RecordingState::Paused)
            &&& first.reply == Some(AudioResponseView::Paused)
            &&& resumed == c.with_state(RecordingState::Recording)
            &&& second.reply == Some(AudioResponseView::Resumed)
            &&& c.session is Some ==> paused.session->Some_0.state == RecordingState::Paused
                && resumed.session->Some_0.state == RecordingState::Recording
                && first.effect == EffectView::SetState(RecordingState::Paused)
                && second.effect == EffectView::SetState(RecordingState::Recording)
            &&& c.session is None ==> paused == c && resumed == c
        }),
{
}

/// A `RefreshDevices` that finds the selected device gone selects the
/// platform default and reports the device list, not an error, as long as
/// the platform has a default.
pub proof fn lemma_refresh_command_falls_back(c: ControllerView, snapshot: DeviceSnapshotView)
    requires
        c.phase == Phase::Ready,
        c.registry.current is Some,
        !snapshot.available().contains(c.registry.current_name()),
        !(snapshot.default_device is Missing),
    ensures
        ({
            let (asked, first) = c.react(EventView::Command(AudioCommandView::RefreshDevices));
            let (done, second) = asked.react(EventView::Enumerated(Ok(snapshot)));
            &&& first == effect_step(EffectView::Enumerate)
            &&& second.reply is Some
            &&& second.reply->Some_0 is DevicesRefreshed
            &&& done.registry.current == Some(snapshot.default_ref())
            &&& done.registry.available == snapshot.available()
            &&& done.phase == Phase::Ready
            &&& done.session == c.session
        }),
{
}

/// No refresh reports an error while the platform has a default device.
pub proof fn lemma_refresh_command_succeeds_with_default(c: ControllerView, snapshot: DeviceSnapshotView)
    requires
        c.phase == Phase::Enumerating(Purpose::Command),
        !(snapshot.default_device is Missing),
    ensures
        c.react(EventView::Enumerated(Ok(snapshot))).1.reply->Some_0 is DevicesRefreshed,
        c.react(EventView::Enumerated(Ok(snapshot))).0.registry.current is Some,
{
}

/// An event that the controller is not waiting for is not taken. In
/// particular no command is taken before the one under way has been
/// answered.
pub proof fn lemma_command_waits_its_turn(c: ControllerView, command: AudioCommandView)
    requires
        c.phase != Phase::Ready,
    ensures
        c.react(EventView::Command(command)) == (c, idle_step()),
{
}

/// A status is reported only by the step that makes the controller ready
/// for the next command.
pub proof fn lemma_status_ends_command(c: ControllerView, event: EventView)
    ensures
        c.react(event).1.reply is Some ==> c.react(event).0.phase == Phase::Ready,
{
}

/// Once a command has been taken, the step that makes the controller ready
/// again reports a status; the steps before it report none.
pub proof fn lemma_one_status_per_command(c: ControllerView, event: EventView)
    requires
        c.awaits(event),
        c.phase != Phase::Enumerating(Purpose::Initialise),
    ensures
        c.react(event).1.reply is Some <==> c.react(event).0.phase == Phase::Ready,
        c.react(event).0.phase != Phase::Enumerating(Purpose::Initialise),
{
}

/// The controller waits for the outcome of the effect that it asked for,
/// and for a command after an effect that has none.
pub proof fn lemma_effect_tells_what_comes_next(c: ControllerView, event: EventView)
    requires
        c.awaits(event),
    ensures
        c.react(event).1.effect.has_outcome() <==> c.react(event).0.phase != Phase::Ready,
        c.react(event).1.effect is Enumerate ==> c.react(event).0.phase is Enumerating,
        c.react(event).1.effect is DiscardPending ==> c.react(event).0.phase is Discarding,
        c.react(event).1.effect is Negotiate ==> c.react(event).0.phase matches Phase::Opening(
            OpenStage::Negotiate,
            _,
        ),
        c.react(event).1.effect is CreateFile ==> c.react(event).0.phase matches Phase::Opening(
            OpenStage::CreateFile,
            _,
        ),
        c.react(event).1.effect is CreateWriter ==> c.react(event).0.phase matches Phase::Opening(
            OpenStage::CreateWriter,
            _,
        ),
        c.react(event).1.effect is BuildStream ==> c.react(event).0.phase matches Phase::Opening(
            OpenStage::BuildStream,
            _,
        ),
        c.react(event).1.effect is StartStream ==> c.react(event).0.phase matches Phase::Opening(
            OpenStage::StartStream,
            _,
        ),
{
}

/// Every awaited event brings the controller closer to being ready: a
/// command is answered after at most thirteen further events, whatever
/// they are.
pub proof fn lemma_command_is_answered(c: ControllerView, event: EventView)
    requires
        c.awaits(event),
    ensures
        c.phase != Phase::Ready ==> events_left(c.react(event).0.phase) < events_left(c.phase),
        events_left(c.react(event).0.phase) <= 13,
{
}

/// A first failure to open a capture is never reported by itself: the
/// devices are refreshed and the capture is tried once more.
pub proof fn lemma_first_failure_is_retried(c: ControllerView)
    requires
        c.phase == Phase::Discarding(Attempt::First),
    ensures
        c.react(EventView::Discarded).1 == effect_step(EffectView::Enumerate),
        c.react(EventView::Discarded).0.phase == Phase::Enumerating(Purpose::Retry),
        c.react(EventView::Discarded).0.first_error == c.failure,
{
}

/// A capture that is started while another is open takes its place only
/// once the other has been closed: the step that opens it asks for the open
/// stream to be dropped and its container to be finalized first. A capture
/// that is started while none is open is installed as it is. Either way one
/// capture is open afterwards, the new one.
pub proof fn lemma_start_while_open_closes_first(c: ControllerView, attempt: Attempt)
    requires
        c.phase == Phase::Opening(OpenStage::StartStream, attempt),
    ensures
        ({
            let (after, step) = c.react(EventView::StreamStarted(Ok(())));
            &&& step.effect == if c.session is Some {
                EffectView::ReplaceSession
            } else {
                EffectView::InstallSession
            }
            &&& step.reply == Some(AudioResponseView::Started)
            &&& after.phase == Phase::Ready
            &&& after.session == Some(
                crate::audio::controller::ActiveSessionView {
                    state: RecordingState::Recording,
                    config: c.pending_config,
                    filepath: c.pending_path,
                },
            )
        }),
{
}

/// The open capture is replaced by no step but the one that asks for it to
/// be closed first: whenever a step leaves another capture open than it
/// found, it is `ReplaceSession`; and whenever it finds one and leaves
/// none, it is `CloseSession`.
pub proof fn lemma_open_capture_is_closed_before_it_goes(c: ControllerView, event: EventView)
    requires
        c.session is Some,
        c.react(event).0.session != c.session,
    ensures
        c.react(event).0.session is Some ==> c.react(event).1.effect is ReplaceSession || c.react(
            event,
        ).1.effect is SetState,
        c.react(event).0.session is None ==> c.react(event).1.effect is CloseSession,
        c.react(event).1.effect is SetState ==> c.react(event).0.session->Some_0.config == c.session->Some_0.config
            && c.react(event).0.session->Some_0.filepath == c.session->Some_0.filepath,
{
}

/// The second attempt never lacks a device: a refresh that raises no error
/// leaves a device selected, so that a failed capture is either tried once
/// more or reported with the reason of its first failure.
pub proof fn lemma_retry_has_device(c: ControllerView, snapshot: DeviceSnapshotView)
    requires
        c.phase == Phase::Enumerating(Purpose::Retry),
        c.registry.refresh_error(snapshot) is None,
    ensures
        c.react(EventView::Enumerated(Ok(snapshot))).0.registry.current is Some,
        c.react(EventView::Enumerated(Ok(snapshot))).0.phase == Phase::Opening(
            OpenStage::Negotiate,
            Attempt::Retry,
        ),
        c.react(EventView::Enumerated(Ok(snapshot))).1.effect is Negotiate,
        c.react(EventView::Enumerated(Ok(snapshot))).1.reply is None,
{
}

/// A failed capture never disturbs the one that is open, and never counts
/// as open itself: until a stream has been started the session is what it
/// was.
pub proof fn lemma_session_changes_only_on_success(c: ControllerView, event: EventView)
    requires
        c.phase != Phase::Ready,
    ensures
        c.react(event).0.session != c.session ==> {
            &&& c.phase is Opening
            &&& c.phase->Opening_0 == OpenStage::StartStream
            &&& event is StreamStarted
            &&& event->StreamStarted_0 is Ok
            &&& c.react(event).1.reply == Some(AudioResponseView::Started)
            &&& c.react(event).0.session->Some_0.state == RecordingState::Recording
            &&& c.react(event).0.session->Some_0.config == c.pending_config
        },
{
}

/// The container is always created for what the pipeline writes: one
/// channel of 16 bits at the rate that the device stated.
pub proof fn lemma_container_matches_pipeline(c: ControllerView, event: EventView)
    ensures
        c.react(event).1.effect matches EffectView::CreateWriter(spec) ==> {
            &&& spec == container_spec(c.pending_config)
            &&& spec.channels == 1
            &&& spec.bits_per_sample == 16
            &&& spec.sample_format == crate::audio::stream::SampleEncoding::Int
            &&& spec.sample_rate == c.pending_config.sample_rate
        },
        c.react(event).1.effect is CreateFile ==> c.phase == Phase::Opening(
            OpenStage::Negotiate,
            c.phase->Opening_1,
        ) && event is Negotiated,
{
}

/// The events of a capture that opens without a failure, is paused,
/// resumed and stopped.
pub open spec fn orderly_session(filepath: Seq<char>, config: NegotiatedConfig) -> Seq<EventView> {
    seq![
        EventView::Command(AudioCommandView::StartRecording { filepath, sample_rate: 44100, channels: 1 }),
        EventView::Negotiated(Ok(config)),
        EventView::FileCreated(Ok(())),
        EventView::WriterCreated(Ok(())),
        EventView::StreamBuilt(Ok(())),
        EventView::StreamStarted(Ok(())),
        EventView::Command(AudioCommandView::PauseRecording),
        EventView::Command(AudioCommandView::ResumeRecording),
        EventView::Command(AudioCommandView::StopRecording),
    ]
}

/// A start, a pause, a resume and a stop that are taken in this order are
/// answered in this order, each by its own status, and leave no capture
/// open: the pause and the resume find the capture that the start opened,
/// and the stop closes it.
pub proof fn lemma_orderly_session(c: ControllerView, filepath: Seq<char>, config: NegotiatedConfig)
    requires
        c.phase == Phase::Ready,
        c.registry.current is Some,
        config.format.supported(),
    ensures
        statuses(run(c, orderly_session(filepath, config)).1) == seq![
            AudioResponseView::Started,
            AudioResponseView::Paused,
            AudioResponseView::Resumed,
            AudioResponseView::Stopped,
        ],
        run(c, orderly_session(filepath, config)).0.session is None,
        run(c, orderly_session(filepath, config)).0.phase == Phase::Ready,
        run(c, orderly_session(filepath, config).take(6)).0.session == Some(
            crate::audio::controller::ActiveSessionView { state: RecordingState::Recording, config, filepath },
        ),
        run(c, orderly_session(filepath, config).take(7)).0.session->Some_0.state == RecordingState::Paused,
        run(c, orderly_session(filepath, config).take(8)).0.session->Some_0.state == RecordingState::Recording,
{
    let events = orderly_session(filepath, config);
    let e0 = events.take(0);
    let e1 = events.take(1);
    let e2 = events.take(2);
    let e3 = events.take(3);
    let e4 = events.take(4);
    let e5 = events.take(5);
    let e6 = events.take(6);
    let e7 = events.take(7);
    let e8 = events.take(8);
    assert(e1.drop_last() =~= e0);
    assert(e2.drop_last() =~= e1);
    assert(e3.drop_last() =~= e2);
    assert(e4.drop_last() =~= e3);
    assert(e5.drop_last() =~= e4);
    assert(e6.drop_last() =~= e5);
    assert(e7.drop_last() =~= e6);
    assert(e8.drop_last() =~= e7);
    assert(events.drop_last() =~= e8);
    assert(run(c, e0) == (c, Seq::<StepView>::empty()));
    let (c1, s1) = run(c, e1);
    assert(c1.phase == Phase::Opening(OpenStage::Negotiate, Attempt::First));
    let (c2, s2) = run(c, e2);
    assert(c2.phase == Phase::Opening(OpenStage::CreateFile, Attempt::First));
    let (c3, s3) = run(c, e3);
    assert(c3.phase == Phase::Opening(OpenStage::CreateWriter, Attempt::First));
    let (c4, s4) = run(c, e4);
    assert(c4.phase == Phase::Opening(OpenStage::BuildStream, Attempt::First));
    let (c5, s5) = run(c, e5);
    assert(c5.phase == Phase::Opening(OpenStage::StartStream, Attempt::First));
    let (c6, s6) = run(c, e6);
    assert(c6.phase == Phase::Ready);
    assert(c6.session is Some);
    let (c7, s7) = run(c, e7);
    let (c8, s8) = run(c, e8);
    let (c9, s9) = run(c, events);
    assert(s1.drop_last() =~= Seq::<StepView>::empty());
    assert(s2.drop_last() =~= s1);
    assert(s3.drop_last() =~= s2);
    assert(s4.drop_last() =~= s3);
    assert(s5.drop_last() =~= s4);
    assert(s6.drop_last() =~= s5);
    assert(s7.drop_last() =~= s6);
    assert(s8.drop_last() =~= s7);
    assert(s9.drop_last() =~= s8);
    assert(statuses(Seq::<StepView>::empty()) =~= Seq::<AudioResponseView>::empty());
    assert(s1.last().reply is None);
    assert(statuses(s1) =~= Seq::<AudioResponseView>::empty());
    assert(statuses(s2) =~= Seq::<AudioResponseView>::empty());
    assert(statuses(s3) =~= Seq::<AudioResponseView>::empty());
    assert(statuses(s4) =~= Seq::<AudioResponseView>::empty());
    assert(statuses(s5) =~= Seq::<AudioResponseView>::empty());
    assert(statuses(s6) =~= seq![AudioResponseView::Started]);
    assert(statuses(s7) =~= seq![AudioResponseView::Started, AudioResponseView::Paused]);
    assert(statuses(s8) =~= seq![
        AudioResponseView::Started,
        AudioResponseView::Paused,
        AudioResponseView::Resumed,
    ]);
    assert(statuses(s9) =~= seq![
        AudioResponseView::Started,
        AudioResponseView::Paused,
        AudioResponseView::Resumed,
        AudioResponseView::Stopped,
    ]);
}

/// Running two runs of events one after the other is running them as one:
/// events are taken strictly in the order given, and the statuses come out
/// in that order.
pub proof fn lemma_run_in_order(c: ControllerView, first: Seq<EventView>, second: Seq<EventView>)
    ensures
        run(c, first + second).0 == run(run(c, first).0, second).0,
        run(c, first + second).1 == run(c, first).1 + run(run(c, first).0, second).1,
    decreases second.len(),
{
    if second.len() == 0 {
        assert(first + second =~= first);
        assert(run(c, first).1 + Seq::<StepView>::empty() =~= run(c, first).1);
    } else {
        let all = first + second;
        assert(all.drop_last() =~= first + second.drop_last());
        assert(all.last() == second.last());
        lemma_run_in_order(c, first, second.drop_last());
        let mid = run(c, first).0;
        let (before, steps) = run(mid, second.drop_last());
        let (after, step) = before.react(second.last());
        assert(run(c, first).1 + steps.push(step) =~= (run(c, first).1 + steps).push(step));
    }
}

/// A run of one event is that event's answer.
pub proof fn lemma_run_single(c: ControllerView, event: EventView)
    ensures
        run(c, seq![event]) == (c.react(event).0, seq![c.react(event).1]),
{
    let events = seq![event];
    assert(events.drop_last() =~= Seq::<EventView>::empty());
    assert(run(c, events.drop_last()) == (c, Seq::<StepView>::empty()));
    assert(Seq::<StepView>::empty().push(c.react(event).1) =~= seq![c.react(event).1]);
}

/// What a run of callback invocations contributes to the output while the
/// shared state stays as probed: the contributions of the buffers, in order.
pub open spec fn captured_all(probe: Option<RecordingState>, buffers: Seq<Seq<int>>, channels: nat) -> Seq<int>
    decreases buffers.len(),
{
    if buffers.len() == 0 {
        Seq::empty()
    } else {
        captured_all(probe, buffers.drop_last(), channels) + captured(probe, buffers.last(), channels)
    }
}

/// The mono output holds one sample for each sample of a single-channel
/// buffer and one for each whole frame of a multi-channel buffer, which is
/// what a single-channel container declares.
pub proof fn lemma_mono_len(samples: Seq<int>, channels: nat)
    ensures
        mono(samples, channels).len() == if channels <= 1 {
            samples.len()
        } else {
            frame_count(samples.len(), channels)
        },
{
}

/// The `k`-th sample of a downmix is the mean of the channels of the `k`-th
/// frame.
pub proof fn lemma_downmix_is_mean(samples: Seq<int>, channels: nat, k: int)
    requires
        channels > 1,
        0 <= k < frame_count(samples.len(), channels),
    ensures
        downmix(samples, channels)[k] == frame_mean(frame_at(samples, channels, k)),
        mono(samples, channels)[k] == frame_mean(frame_at(samples, channels, k)),
{
}

/// Whether the two channels of the `k`-th frame of a stereo buffer cancel.
pub open spec fn channels_cancel(samples: Seq<int>, k: int) -> bool {
    samples[2 * k] + samples[2 * k + 1] == 0
}

/// A stereo buffer whose channels cancel in every frame is downmixed to
/// silence.
pub proof fn lemma_cancelling_stereo_is_silent(samples: Seq<int>)
    requires
        forall|k: int| 0 <= k < frame_count(samples.len(), 2) ==> #[trigger] channels_cancel(samples, k),
    ensures
        forall|k: int| 0 <= k < frame_count(samples.len(), 2) ==> (#[trigger] mono(samples, 2)[k]) == 0,
{
    assert forall|k: int| 0 <= k < frame_count(samples.len(), 2) implies (#[trigger] mono(samples, 2)[k]) == 0 by {
        let frame = frame_at(samples, 2, k);
        assert(channels_cancel(samples, k));
        assert(frame =~= seq![samples[2 * k], samples[2 * k + 1]]);
        lemma_opposite_channels_cancel(samples[2 * k], samples[2 * k + 1]);
    }
}

/// Converting 16-bit input never leaves the 16-bit range: every sample of
/// the mono output is a 16-bit value.
pub proof fn lemma_mono_in_range(samples: Seq<int>, channels: nat)
    requires
        all_in_i16(samples),
    ensures
        all_in_i16(mono(samples, channels)),
{
    if channels > 1 {
        assert forall|k: int| 0 <= k < mono(samples, channels).len() implies -32768 <= #[trigger] mono(
            samples,
            channels,
        )[k] <= 32767 by {
            let frame = frame_at(samples, channels, k);
            assert((k + 1) * channels <= samples.len()) by (nonlinear_arith)
                requires
                    channels > 0,
                    0 <= k < samples.len() / channels,
            ;
            assert(0 <= k * channels) by (nonlinear_arith)
                requires
                    k >= 0,
            ;
            assert((k + 1) * channels == k * channels + channels) by (nonlinear_arith);
            assert forall|i: int| 0 <= i < frame.len() implies -32768 <= #[trigger] frame[i] <= 32767 by {
                assert(frame[i] == samples[k * channels + i]);
            }
            lemma_frame_mean_in_range(frame);
        }
    }
}

/// A 32-bit IEEE-754 sample of magnitude one or more, infinite ones
/// included, comes out at full scale with its own sign: it is limited,
/// never wrapped.
pub proof fn lemma_out_of_range_sample_is_limited(bits: u32)
    requires
        !is_nan(bits),
        exponent_field(bits) >= 127,
    ensures
        pcm_of_ieee(bits) == if sign_bit(bits) {
            -32767int
        } else {
            32767int
        },
{
    let negative = sign_bit(bits);
    lemma_unpack(negative, 127, 0);
    let one = limited(bits);
    assert(significand(one) == 0x80_0000 && binary_exponent(one) == -23 && sign_bit(one) == negative);
    lemma_one_times_full_scale(negative);
    lemma_within_full_scale(0x80_0000, -23);
    lemma_whole_part_of_rounded(negative, 0x80_0000 * 32767, -23);
}

/// No sample is converted to more than full scale, whatever its pattern.
pub proof fn lemma_conversion_is_limited(bits: u32)
    ensures
        -32767 <= pcm_of_ieee(bits) <= 32767,
{
    if is_nan(bits) {
        assert(pcm_of_ieee(bits) == 0);
    } else {
        let sample = limited(bits);
        let negative = sign_bit(bits);
        if exponent_field(bits) >= 127 {
            lemma_out_of_range_sample_is_limited(bits);
            assert(-32767 <= pcm_of_ieee(bits) <= 32767);
        } else if significand(bits) == 0 {
            vstd::arithmetic::power2::lemma2_to64();
            lemma_unpack(negative, 0, 0);
            vstd::arithmetic::power2::lemma_pow2_pos(149);
            assert(0nat / vstd::arithmetic::power2::pow2(149) == 0) by (nonlinear_arith)
                requires
                    vstd::arithmetic::power2::pow2(149) > 0,
            ;
            assert(sample == bits);
            assert(times_full_scale(sample) == crate::audio::rounding::pack(negative, 0, 0));
            assert(whole_part(times_full_scale(sample)) == 0);
            assert(pcm_of_ieee(bits) == 0);
        } else {
            assert(significand(bits) * 32767 < 0x80_0000_0000) by (nonlinear_arith)
                requires
                    significand(bits) < 0x100_0000,
            ;
            lemma_within_full_scale(significand(bits), binary_exponent(bits));
            lemma_whole_part_of_rounded(negative, significand(bits) * 32767, binary_exponent(bits));
            let product = times_full_scale(sample);
            assert(sample == bits);
            assert(binary_exponent(product) < 0);
            let magnitude = significand(product) / vstd::arithmetic::power2::pow2(
                (-binary_exponent(product)) as nat,
            );
            assert(magnitude <= 32767);
            assert(sign_bit(product) == negative);
            assert(whole_part(product) == if negative {
                -(magnitude as int)
            } else {
                magnitude as int
            });
            let whole = whole_part(product);
            vstd::arithmetic::power2::lemma_pow2_pos((-binary_exponent(product)) as nat);
            assert(0 <= magnitude as int <= 32767);
            if negative {
                assert(whole == -(magnitude as int));
                assert(whole >= -32767);
            } else {
                assert(whole == magnitude as int);
                assert(whole <= 32767);
            }
            assert(pcm_of_ieee(bits) == whole);
            assert(-32767 <= whole <= 32767);
        }
    }
}

/// The pattern without its sign bit. For patterns of one sign, a larger
/// magnitude has the larger pattern.
pub open spec fn magnitude_bits(bits: u32) -> nat {
    (bits as nat) % 0x8000_0000
}

/// Whether the value of the first pattern is not above that of the second,
/// for patterns that are numbers. The two zeros are equal.
pub open spec fn not_above(a: u32, b: u32) -> bool {
    if sign_bit(a) {
        !sign_bit(b) || magnitude_bits(a) >= magnitude_bits(b)
    } else if sign_bit(b) {
        magnitude_bits(a) == 0 && magnitude_bits(b) == 0
    } else {
        magnitude_bits(a) <= magnitude_bits(b)
    }
}

/// The magnitude of a finite sample below one, times full scale, in units
/// of the smallest step that rounding can tell apart.
pub open spec fn scaled_value(bits: u32) -> nat {
    (significand(bits) * 32767) * vstd::arithmetic::power2::pow2(40) * vstd::arithmetic::power2::pow2(
        (binary_exponent(bits) + 149) as nat,
    )
}

/// The magnitude of the 16-bit sample for a pattern that is a number: full
/// scale for a magnitude of one or more, nothing for zero, else the whole
/// part of the magnitude times full scale, rounded to single precision.
pub open spec fn loudness(bits: u32) -> int {
    if exponent_field(bits) >= 127 {
        32767
    } else if significand(bits) == 0 {
        0
    } else {
        whole_of_value(scaled_value(bits), 189) as int
    }
}

/// The 16-bit sample for a pattern that is a number is its loudness with
/// the sign of the pattern, and the loudness is at most full scale.
pub proof fn lemma_sample_is_signed_loudness(bits: u32)
    requires
        !is_nan(bits),
    ensures
        0 <= loudness(bits) <= 32767,
        pcm_of_ieee(bits) == if sign_bit(bits) {
            -loudness(bits)
        } else {
            loudness(bits)
        },
{
    let negative = sign_bit(bits);
    if exponent_field(bits) >= 127 {
        lemma_out_of_range_sample_is_limited(bits);
    } else if significand(bits) == 0 {
        vstd::arithmetic::power2::lemma2_to64();
        lemma_unpack(negative, 0, 0);
        vstd::arithmetic::power2::lemma_pow2_pos(149);
        assert(0nat / vstd::arithmetic::power2::pow2(149) == 0) by (nonlinear_arith)
            requires
                vstd::arithmetic::power2::pow2(149) > 0,
        ;
        assert(limited(bits) == bits);
        assert(times_full_scale(bits) == pack(negative, 0, 0));
        assert(whole_part(times_full_scale(bits)) == 0);
    } else {
        let m = significand(bits);
        let x = binary_exponent(bits);
        assert(m * 32767 < 0x80_0000_0000) by (nonlinear_arith)
            requires
                m < 0x100_0000,
        ;
        assert(m * 32767 > 0) by (nonlinear_arith)
            requires
                m > 0,
        ;
        lemma_within_full_scale(m, x);
        lemma_whole_part_of_rounded(negative, m * 32767, x);
        lemma_rounded_in_units(m * 32767, x);
        let product = times_full_scale(bits);
        assert(limited(bits) == bits);
        let magnitude = significand(product) / vstd::arithmetic::power2::pow2((-binary_exponent(product)) as nat);
        vstd::arithmetic::power2::lemma_pow2_pos((-binary_exponent(product)) as nat);
        assert(magnitude == whole_of_value(scaled_value(bits), 189));
        assert(0 <= magnitude as int <= 32767);
        assert(sign_bit(product) == negative);
        assert(whole_part(product) == if negative {
            -(magnitude as int)
        } else {
            magnitude as int
        });
        assert(pcm_of_ieee(bits) == whole_part(product));
    }
}

/// A pattern without its sign bit is its exponent field followed by its
/// fraction.
proof fn lemma_magnitude_bits(bits: u32)
    ensures
        magnitude_bits(bits) == exponent_field(bits) * 0x80_0000 + fraction_field(bits),
        exponent_field(bits) <= 255,
        fraction_field(bits) < 0x80_0000,
{
    let whole = bits as nat;
    let upper = whole / 0x80_0000;
    assert(whole == upper * 0x80_0000 + whole % 0x80_0000);
    assert(upper < 512);
    assert(upper == (upper / 256) * 256 + upper % 256);
    assert(upper / 256 == 0 || upper / 256 == 1);
    let low = (upper % 256) * 0x80_0000 + whole % 0x80_0000;
    assert(low < 0x8000_0000);
    assert(whole == (upper / 256) * 0x8000_0000 + low);
    vstd::arithmetic::div_mod::lemma_fundamental_div_mod_converse(
        whole as int,
        0x8000_0000,
        (upper / 256) as int,
        low as int,
    );
}

/// Among finite samples below one, a larger pattern has a larger value.
proof fn lemma_scaled_value_monotone(a: u32, b: u32)
    requires
        exponent_field(a) < 127,
        exponent_field(b) < 127,
        magnitude_bits(a) <= magnitude_bits(b),
        significand(a) > 0,
    ensures
        0 < scaled_value(a) <= scaled_value(b),
{
    use_pow2_facts();
    lemma_magnitude_bits(a);
    lemma_magnitude_bits(b);
    let fa = exponent_field(a);
    let fb = exponent_field(b);
    assert(fa <= fb);
    let sa = (binary_exponent(a) + 149) as nat;
    let sb = (binary_exponent(b) + 149) as nat;
    let ma = significand(a);
    let mb = significand(b);
    let pa = vstd::arithmetic::power2::pow2(sa);
    let pb = vstd::arithmetic::power2::pow2(sb);
    vstd::arithmetic::power2::lemma_pow2_pos(sa);
    vstd::arithmetic::power2::lemma_pow2_pos(sb);
    assert(ma * pa <= mb * pb) by {
        if fa == fb {
            assert(ma <= mb);
            assert(ma * pa <= mb * pa) by (nonlinear_arith)
                requires
                    ma <= mb,
                    pa > 0,
            ;
        } else if fa == 0 {
            assert(sa == 0);
            assert(pa == 1);
            assert(ma < 0x80_0000);
            assert(mb >= 0x80_0000);
            assert(ma * pa <= mb * pb) by (nonlinear_arith)
                requires
                    pa == 1,
                    ma < 0x80_0000,
                    mb >= 0x80_0000,
                    pb >= 1,
            ;
        } else {
            assert(sa + 1 <= sb);
            lemma_pow2_monotone(sa + 1, sb);
            vstd::arithmetic::power2::lemma_pow2_unfold(sa + 1);
            assert(ma * pa <= mb * pb) by (nonlinear_arith)
                requires
                    ma < 0x100_0000,
                    mb >= 0x80_0000,
                    pb >= 2 * pa,
                    pa > 0,
            ;
        }
    }
    let c = 32767 * vstd::arithmetic::power2::pow2(40);
    assert(scaled_value(a) == (ma * pa) * c) by (nonlinear_arith)
        requires
            scaled_value(a) == (ma * 32767) * vstd::arithmetic::power2::pow2(40) * pa,
            c == 32767 * vstd::arithmetic::power2::pow2(40),
    ;
    assert(scaled_value(b) == (mb * pb) * c) by (nonlinear_arith)
        requires
            scaled_value(b) == (mb * 32767) * vstd::arithmetic::power2::pow2(40) * pb,
            c == 32767 * vstd::arithmetic::power2::pow2(40),
    ;
    assert(c > 0);
    assert(ma * pa > 0) by (nonlinear_arith)
        requires
            ma > 0,
            pa > 0,
    ;
    assert(0 < (ma * pa) * c <= (mb * pb) * c) by (nonlinear_arith)
        requires
            0 < ma * pa <= mb * pb,
            c > 0,
    ;
}

/// The small powers of two.
proof fn use_pow2_facts()
    ensures
        vstd::arithmetic::power2::pow2(0) == 1,
        vstd::arithmetic::power2::pow2(40) == 0x100_0000_0000,
{
    vstd::arithmetic::power2::lemma2_to64();
    vstd::arithmetic::power2::lemma2_to64_rest();
}

/// Of two patterns that are numbers, the one of the larger magnitude gives
/// the sample of the larger magnitude, or of the same.
pub proof fn lemma_loudness_grows_with_magnitude(a: u32, b: u32)
    requires
        !is_nan(a),
        !is_nan(b),
        magnitude_bits(a) <= magnitude_bits(b),
    ensures
        loudness(a) <= loudness(b),
{
    lemma_sample_is_signed_loudness(a);
    lemma_sample_is_signed_loudness(b);
    lemma_magnitude_bits(a);
    lemma_magnitude_bits(b);
    if exponent_field(b) < 127 {
        assert(exponent_field(a) <= exponent_field(b));
        if significand(a) > 0 {
            lemma_scaled_value_monotone(a, b);
            assert(significand(b) > 0) by {
                if significand(b) == 0 {
                    assert(scaled_value(b) == 0) by (nonlinear_arith)
                        requires
                            scaled_value(b) == (significand(b) * 32767) * vstd::arithmetic::power2::pow2(40)
                                * vstd::arithmetic::power2::pow2((binary_exponent(b) + 149) as nat),
                            significand(b) == 0,
                    ;
                }
            }
            lemma_whole_of_value_monotone(scaled_value(a), scaled_value(b), 189);
        }
    }
}

/// Limiting is monotone as a whole: of two samples that are numbers, the
/// larger never gives the smaller 16-bit sample. Together with the range
/// of the conversion this is what keeps any input from wrapping around: a
/// sample, or a frame mean, that grows beyond one stays at full scale, and
/// one that falls below minus one stays at minus full scale.
pub proof fn lemma_larger_sample_is_not_smaller(a: u32, b: u32)
    requires
        !is_nan(a),
        !is_nan(b),
        not_above(a, b),
    ensures
        pcm_of_ieee(a) <= pcm_of_ieee(b),
{
    lemma_sample_is_signed_loudness(a);
    lemma_sample_is_signed_loudness(b);
    if sign_bit(a) && sign_bit(b) {
        lemma_loudness_grows_with_magnitude(b, a);
    } else if !sign_bit(a) && !sign_bit(b) {
        lemma_loudness_grows_with_magnitude(a, b);
    } else if !sign_bit(a) && sign_bit(b) {
        lemma_magnitude_bits(a);
        lemma_magnitude_bits(b);
        assert(exponent_field(a) == 0 && fraction_field(a) == 0) by (nonlinear_arith)
            requires
                exponent_field(a) * 0x80_0000 + fraction_field(a) == 0,
        ;
        assert(exponent_field(b) == 0 && fraction_field(b) == 0) by (nonlinear_arith)
            requires
                exponent_field(b) * 0x80_0000 + fraction_field(b) == 0,
        ;
    }
}

/// A larger frame mean never gives a smaller sample: of two frames whose
/// means are numbers, the one with the larger mean is downmixed to the
/// larger 16-bit sample, or to the same.
pub proof fn lemma_larger_mean_is_not_smaller(quieter: Seq<u32>, louder: Seq<u32>)
    requires
        !is_nan(mean(quieter)),
        !is_nan(mean(louder)),
        not_above(mean(quieter), mean(louder)),
    ensures
        pcm_of_ieee(mean(quieter)) <= pcm_of_ieee(mean(louder)),
        -32767 <= pcm_of_ieee(mean(quieter)),
        pcm_of_ieee(mean(louder)) <= 32767,
{
    lemma_larger_sample_is_not_smaller(mean(quieter), mean(louder));
    lemma_conversion_is_limited(mean(quieter));
    lemma_conversion_is_limited(mean(louder));
}

/// Whether two patterns are a value and its negative: the same but for the
/// sign bit.
pub open spec fn opposite(a: u32, b: u32) -> bool {
    exponent_field(a) == exponent_field(b) && fraction_field(a) == fraction_field(b) && sign_bit(a) != sign_bit(b)
}

/// A stereo frame of 32-bit IEEE-754 samples whose channels are a finite
/// value and its negative is downmixed to silence: the output is the mean
/// of the channels, not either channel alone.
pub proof fn lemma_opposite_channels_are_silent(left: u32, right: u32)
    requires
        opposite(left, right),
        exponent_field(left) < 255,
    ensures
        mean(seq![left, right]) == 0,
        pcm_of_ieee(mean(seq![left, right])) == 0,
        mono_ieee(seq![left, right], 2) == seq![0int],
{
    let frame = seq![left, right];
    assert(frame.drop_last() =~= seq![left]);
    assert(seq![left].drop_last() =~= Seq::<u32>::empty());
    assert(total(Seq::<u32>::empty()) == 0);
    assert(exponent_field(0) == 0 && fraction_field(0) == 0 && !sign_bit(0));
    assert(significand(0) == 0);
    let first = sum(0, left);
    assert(total(seq![left]) == first);
    vstd::arithmetic::power2::lemma2_to64();
    if significand(left) == 0 {
        assert(exponent_field(left) == 0 && fraction_field(left) == 0);
        assert(first == pack(false, 0, 0));
        assert(first == 0);
        assert(significand(right) == 0);
        assert(sum(first, right) == pack(false, 0, 0));
    } else {
        assert(first == left);
        assert(significand(right) == significand(left));
        assert(binary_exponent(right) == binary_exponent(left));
        assert(significand(left) * vstd::arithmetic::power2::pow2(0) == significand(left)) by (nonlinear_arith)
            requires
                vstd::arithmetic::power2::pow2(0) == 1,
        ;
        assert(sum(left, right) == pack(false, 0, 0));
    }
    assert(total(frame) == 0);
    assert(quotient(0, 2) == pack(false, 0, 0));
    assert(mean(frame) == 0);
    lemma_zero_is_silence();
    assert(frame.subrange(0, 2) =~= frame);
    assert(mono_ieee(frame, 2) =~= seq![0int]);
}

/// A buffer contributes nothing unless the state was probed as `Recording`:
/// not while paused, not once stopped, and not when the probe found the
/// state cell busy.
pub proof fn lemma_only_recording_persists(probe: Option<RecordingState>, buffers: Seq<Seq<int>>, channels: nat)
    requires
        probe != Some(RecordingState::Recording),
    ensures
        captured_all(probe, buffers, channels) == Seq::<int>::empty(),
    decreases buffers.len(),
{
    if buffers.len() > 0 {
        lemma_only_recording_persists(probe, buffers.drop_last(), channels);
        assert(Seq::<int>::empty() + Seq::<int>::empty() =~= Seq::<int>::empty());
    }
}

/// The contribution of two runs of buffers is that of the first followed by
/// that of the second.
pub proof fn lemma_captured_all_concat(
    probe: Option<RecordingState>,
    first: Seq<Seq<int>>,
    second: Seq<Seq<int>>,
    channels: nat,
)
    ensures
        captured_all(probe, first + second, channels) == captured_all(probe, first, channels) + captured_all(
            probe,
            second,
            channels,
        ),
    decreases second.len(),
{
    if second.len() == 0 {
        assert(first + second =~= first);
        assert(captured_all(probe, first, channels) + Seq::<int>::empty() =~= captured_all(probe, first, channels));
    } else {
        let all = first + second;
        assert(all.drop_last() =~= first + second.drop_last());
        assert(all.last() == second.last());
        lemma_captured_all_concat(probe, first, second.drop_last(), channels);
        let a = captured_all(probe, first, channels);
        let b = captured_all(probe, second.drop_last(), channels);
        let c = captured(probe, second.last(), channels);
        assert((a + b) + c =~= a + (b + c));
    }
}

/// Buffers that arrive while the capture is paused leave no trace: the
/// output after recording, pausing and recording again is the output of the
/// buffers that arrived while recording, and of no others.
pub proof fn lemma_pause_leaves_no_trace(
    before: Seq<Seq<int>>,
    during: Seq<Seq<int>>,
    after: Seq<Seq<int>>,
    channels: nat,
)
    ensures
        captured_all(Some(RecordingState::Recording), before, channels) + captured_all(
            Some(RecordingState::Paused),
            during,
            channels,
        ) + captured_all(Some(RecordingState::Recording), after, channels) == captured_all(
            Some(RecordingState::Recording),
            before + after,
            channels,
        ),
{
    let recording = Some(RecordingState::Recording);
    lemma_only_recording_persists(Some(RecordingState::Paused), during, channels);
    lemma_captured_all_concat(recording, before, after, channels);
    assert(captured_all(recording, before, channels) + Seq::<int>::empty() =~= captured_all(
        recording,
        before,
        channels,
    ));
}

} // verus!
