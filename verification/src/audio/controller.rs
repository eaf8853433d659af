//! The capture controller: the single owner of the input device and of the
//! open stream.
//!
//! The controller performs no input or output itself. It is handed one event
//! at a time, decides, and answers with the one effect that its caller is to
//! carry out next and, once a command is done with, the status to report for
//! it. While an effect with an outcome is under way the controller waits for
//! that outcome and for nothing else, so commands are taken strictly one
//! after the other, each only when the one before has been answered.
//!
//! A `StartRecording` that arrives while a capture is open opens a second
//! stream. If that succeeds, the controller asks for the first capture to be
//! closed, its stream dropped and its container finalized, before the second
//! takes its place; if it fails, the first capture goes on undisturbed.

use vstd::prelude::*;
use crate::audio::devices::{
    DeviceRef, DeviceRefView, DeviceRegistry, DeviceRegistryView, DeviceSnapshot, DeviceSnapshotView,
    listing,
};
use crate::audio::state::RecordingState;
use crate::audio::stream::{
    container_spec, stream_settings, ContainerSpec, NegotiatedConfig, SampleFormat, StreamSettings,
};
use crate::audio::devices::DefaultDevice;
use crate::audio::stream::{container_for, settings_for};
use crate::models::{device_views, AudioCommand, AudioCommandView, AudioDevice, AudioDeviceView};
use crate::text::prefixed;
use vstd::string::StringExecFns;

verus! {

/// The status reported for a command.
#[derive(Debug)]
pub enum AudioResponse {
    Started,
    Stopped,
    Paused,
    Resumed,
    DevicesRefreshed(Vec<AudioDevice>),
    DeviceSwitched(String),
    Error(String),
}

/// Mathematical value of an [`AudioResponse`].
pub enum AudioResponseView {
    Started,
    Stopped,
    Paused,
    Resumed,
    DevicesRefreshed(Seq<AudioDeviceView>),
    DeviceSwitched(Seq<char>),
    Error(Seq<char>),
}

impl View for AudioResponse {
    type V = AudioResponseView;

    open spec fn view(&self) -> AudioResponseView {
        match *self {
            AudioResponse::Started => AudioResponseView::Started,
            AudioResponse::Stopped => AudioResponseView::Stopped,
            AudioResponse::Paused => AudioResponseView::Paused,
            AudioResponse::Resumed => AudioResponseView::Resumed,
            AudioResponse::DevicesRefreshed(list) => AudioResponseView::DevicesRefreshed(device_views(list@)),
            AudioResponse::DeviceSwitched(name) => AudioResponseView::DeviceSwitched(name@),
            AudioResponse::Error(message) => AudioResponseView::Error(message@),
        }
    }
}

/// The steps of opening a capture, in the order in which they are taken.
/// The container is created only after the device has stated its own
/// configuration, so that its header never rests on what a caller asked for.
#[derive(Clone, Copy, Debug, PartialEq, Eq, Structural)]
pub enum OpenStage {
    Negotiate,
    CreateFile,
    CreateWriter,
    BuildStream,
    StartStream,
}

/// Whether a capture is being opened for the first time for a command or
/// once more after the devices were refreshed.
#[derive(Clone, Copy, Debug, PartialEq, Eq, Structural)]
pub enum Attempt {
    First,
    Retry,
}

/// Why the devices are being enumerated.
#[derive(Clone, Copy, Debug, PartialEq, Eq, Structural)]
pub enum Purpose {
    /// The controller has just been created.
    Initialise,
    /// A `RefreshDevices` command asked for it.
    Command,
    /// A capture failed to open and is about to be tried once more.
    Retry,
}

/// What the controller is waiting for.
#[derive(Clone, Copy, Debug, PartialEq, Eq, Structural)]
pub enum Phase {
    /// The next command.
    Ready,
    /// The outcome of an enumeration.
    Enumerating(Purpose),
    /// The outcome of one step of opening a capture.
    Opening(OpenStage, Attempt),
    /// Word that what a failed attempt had created is gone.
    Discarding(Attempt),
}

/// What the controller's caller is to carry out.
#[derive(Debug)]
pub enum Effect {
    /// Nothing.
    Nothing,
    /// Enumerate the input devices and the platform default; answered by
    /// `Enumerated`.
    Enumerate,
    /// Ask the device for its own input configuration; answered by
    /// `Negotiated`.
    Negotiate(DeviceRef),
    /// Create the output file at this path; answered by `FileCreated`.
    CreateFile(String),
    /// Start a container with this header in the file; answered by
    /// `WriterCreated`.
    CreateWriter(ContainerSpec),
    /// Build the input stream, with the callback for this format; answered
    /// by `StreamBuilt`.
    BuildStream(StreamSettings, SampleFormat),
    /// Start the stream; answered by `StreamStarted`.
    StartStream,
    /// Drop whatever the failed attempt created; answered by `Discarded`.
    DiscardPending,
    /// Make the stream just started the open capture. No other is open.
    InstallSession,
    /// Close the open capture first: drop its stream and finalize its
    /// container. Only then make the stream just started the open capture,
    /// so that never more than one is held and no container is left
    /// unfinalized.
    ReplaceSession,
    /// Drop the stream and finalize the container.
    CloseSession,
    /// Store this state in the cell that the callback reads.
    SetState(RecordingState),
}

/// Mathematical value of an [`Effect`].
pub enum EffectView {
    Nothing,
    Enumerate,
    Negotiate(DeviceRefView),
    CreateFile(Seq<char>),
    CreateWriter(ContainerSpec),
    BuildStream(StreamSettings, SampleFormat),
    StartStream,
    DiscardPending,
    InstallSession,
    ReplaceSession,
    CloseSession,
    SetState(RecordingState),
}

impl View for Effect {
    type V = EffectView;

    open spec fn view(&self) -> EffectView {
        match *self {
            Effect::Nothing => EffectView::Nothing,
            Effect::Enumerate => EffectView::Enumerate,
            Effect::Negotiate(device) => EffectView::Negotiate(device@),
            Effect::CreateFile(path) => EffectView::CreateFile(path@),
            Effect::CreateWriter(spec) => EffectView::CreateWriter(spec),
            Effect::BuildStream(settings, format) => EffectView::BuildStream(settings, format),
            Effect::StartStream => EffectView::StartStream,
            Effect::DiscardPending => EffectView::DiscardPending,
            Effect::InstallSession => EffectView::InstallSession,
            Effect::ReplaceSession => EffectView::ReplaceSession,
            Effect::CloseSession => EffectView::CloseSession,
            Effect::SetState(state) => EffectView::SetState(state),
        }
    }
}

impl EffectView {
    /// Whether carrying out the effect has an outcome that the controller
    /// waits for.
    pub open spec fn has_outcome(self) -> bool {
        match self {
            EffectView::Enumerate => true,
            EffectView::Negotiate(_) => true,
            EffectView::CreateFile(_) => true,
            EffectView::CreateWriter(_) => true,
            EffectView::BuildStream(_, _) => true,
            EffectView::StartStream => true,
            EffectView::DiscardPending => true,
            _ => false,
        }
    }
}

impl Effect {
    /// Whether carrying out the effect has an outcome that the controller
    /// waits for. After an effect without one the controller takes the
    /// next command.
    pub fn has_outcome(&self) -> (b: bool)
        ensures
            b == self@.has_outcome(),
    {
        match self {
            Effect::Enumerate => true,
            Effect::Negotiate(_) => true,
            Effect::CreateFile(_) => true,
            Effect::CreateWriter(_) => true,
            Effect::BuildStream(_, _) => true,
            Effect::StartStream => true,
            Effect::DiscardPending => true,
            _ => false,
        }
    }
}

/// The controller's answer to one event.
#[derive(Debug)]
pub struct Step {
    pub effect: Effect,
    pub reply: Option<AudioResponse>,
}

/// Mathematical value of a [`Step`].
pub struct StepView {
    pub effect: EffectView,
    pub reply: Option<AudioResponseView>,
}

/// The value of an optional status.
pub open spec fn reply_view(reply: Option<AudioResponse>) -> Option<AudioResponseView> {
    match reply {
        Some(r) => Some(r@),
        None => None,
    }
}

impl View for Step {
    type V = StepView;

    open spec fn view(&self) -> StepView {
        StepView { effect: self.effect@, reply: reply_view(self.reply) }
    }
}

/// What the controller is told.
#[derive(Debug)]
pub enum ControllerEvent {
    /// The next command from the queue.
    Command(AudioCommand),
    /// Outcome of `Enumerate`.
    Enumerated(Result<DeviceSnapshot, String>),
    /// Outcome of `Negotiate`.
    Negotiated(Result<NegotiatedConfig, String>),
    /// Outcome of `CreateFile`.
    FileCreated(Result<(), String>),
    /// Outcome of `CreateWriter`.
    WriterCreated(Result<(), String>),
    /// Outcome of `BuildStream`.
    StreamBuilt(Result<(), String>),
    /// Outcome of `StartStream`.
    StreamStarted(Result<(), String>),
    /// `DiscardPending` was carried out.
    Discarded,
}

/// Mathematical value of a [`ControllerEvent`].
pub enum EventView {
    Command(AudioCommandView),
    Enumerated(Result<DeviceSnapshotView, Seq<char>>),
    Negotiated(Result<NegotiatedConfig, Seq<char>>),
    FileCreated(Result<(), Seq<char>>),
    WriterCreated(Result<(), Seq<char>>),
    StreamBuilt(Result<(), Seq<char>>),
    StreamStarted(Result<(), Seq<char>>),
    Discarded,
}

/// The value of the outcome of a step that yields nothing but success.
pub open spec fn outcome_view(outcome: Result<(), String>) -> Result<(), Seq<char>> {
    match outcome {
        Ok(_) => Ok(()),
        Err(e) => Err(e@),
    }
}

impl View for ControllerEvent {
    type V = EventView;

    open spec fn view(&self) -> EventView {
        match *self {
            ControllerEvent::Command(c) => EventView::Command(c@),
            ControllerEvent::Enumerated(r) => EventView::Enumerated(outcome_of(r)),
            ControllerEvent::Negotiated(r) => EventView::Negotiated(
                match r {
                    Ok(config) => Ok(config),
                    Err(e) => Err(e@),
                },
            ),
            ControllerEvent::FileCreated(r) => EventView::FileCreated(outcome_view(r)),
            ControllerEvent::WriterCreated(r) => EventView::WriterCreated(outcome_view(r)),
            ControllerEvent::StreamBuilt(r) => EventView::StreamBuilt(outcome_view(r)),
            ControllerEvent::StreamStarted(r) => EventView::StreamStarted(outcome_view(r)),
            ControllerEvent::Discarded => EventView::Discarded,
        }
    }
}

/// The one capture that is open.
#[derive(Debug)]
pub struct ActiveSession {
    /// What the callback is told to do with incoming buffers.
    pub state: RecordingState,
    /// The configuration the device stated, which the stream runs with.
    pub config: NegotiatedConfig,
    /// Where the container is being written.
    pub filepath: String,
}

/// Mathematical value of an [`ActiveSession`].
pub struct ActiveSessionView {
    pub state: RecordingState,
    pub config: NegotiatedConfig,
    pub filepath: Seq<char>,
}

impl View for ActiveSession {
    type V = ActiveSessionView;

    open spec fn view(&self) -> ActiveSessionView {
        ActiveSessionView { state: self.state, config: self.config, filepath: self.filepath@ }
    }
}

/// The value of an optional session.
pub open spec fn session_view(session: Option<ActiveSession>) -> Option<ActiveSessionView> {
    match session {
        Some(s) => Some(s@),
        None => None,
    }
}

/// The configuration held before any device has stated one.
pub open spec fn no_config() -> NegotiatedConfig {
    NegotiatedConfig { sample_rate: 0, channels: 0, format: SampleFormat::Other }
}

/// The message for a step of opening a capture that failed for `reason`.
pub open spec fn stage_failure(stage: OpenStage, reason: Seq<char>) -> Seq<char> {
    match stage {
        OpenStage::Negotiate => "Failed to get default input config: "@ + reason,
        OpenStage::CreateFile => "Failed to create audio file: "@ + reason,
        OpenStage::CreateWriter => "Failed to create WAV writer: "@ + reason,
        OpenStage::BuildStream => "Failed to build input stream: "@ + reason,
        OpenStage::StartStream => "Failed to start stream: "@ + reason,
    }
}

/// The message for a capture that failed to open twice.
pub open spec fn retry_failure(first: Seq<char>, second: Seq<char>) -> Seq<char> {
    "Audio start failed: "@ + first + " (retry: "@ + second + ")"@
}

/// The message for a switch to a name that is not listed.
pub open spec fn not_found(name: Seq<char>) -> Seq<char> {
    "Device '"@ + name + "' not found"@
}

/// The step that carries out nothing and reports nothing.
pub open spec fn idle_step() -> StepView {
    StepView { effect: EffectView::Nothing, reply: None }
}

/// The step that only reports a status.
pub open spec fn reply_step(reply: AudioResponseView) -> StepView {
    StepView { effect: EffectView::Nothing, reply: Some(reply) }
}

/// The step that only carries out an effect.
pub open spec fn effect_step(effect: EffectView) -> StepView {
    StepView { effect, reply: None }
}

/// Mathematical value of a [`Controller`].
pub struct ControllerView {
    pub registry: DeviceRegistryView,
    pub session: Option<ActiveSessionView>,
    pub phase: Phase,
    /// Path of the capture being opened.
    pub pending_path: Seq<char>,
    /// Configuration stated by the device for the capture being opened.
    pub pending_config: NegotiatedConfig,
    /// Why the first attempt of the command under way failed.
    pub first_error: Seq<char>,
    /// Why the attempt being discarded failed.
    pub failure: Seq<char>,
}

impl EventView {
    /// Whether this event is the outcome of the given step of opening a
    /// capture.
    pub open spec fn completes(self, stage: OpenStage) -> bool {
        match stage {
            OpenStage::Negotiate => self is Negotiated,
            OpenStage::CreateFile => self is FileCreated,
            OpenStage::CreateWriter => self is WriterCreated,
            OpenStage::BuildStream => self is StreamBuilt,
            OpenStage::StartStream => self is StreamStarted,
        }
    }

    /// Why the step that this event completes failed, if it did.
    pub open spec fn failure(self) -> Option<Seq<char>> {
        match self {
            EventView::Negotiated(Err(e)) => Some(e),
            EventView::FileCreated(Err(e)) => Some(e),
            EventView::WriterCreated(Err(e)) => Some(e),
            EventView::StreamBuilt(Err(e)) => Some(e),
            EventView::StreamStarted(Err(e)) => Some(e),
            _ => None,
        }
    }
}

impl ControllerView {
    /// The controller as it is created: nothing known, nothing selected,
    /// waiting for the first enumeration.
    pub open spec fn initial() -> ControllerView {
        ControllerView {
            registry: DeviceRegistryView { available: Seq::empty(), current: None },
            session: None,
            phase: Phase::Enumerating(Purpose::Initialise),
            pending_path: Seq::empty(),
            pending_config: no_config(),
            first_error: Seq::empty(),
            failure: Seq::empty(),
        }
    }

    /// Whether `event` is what the controller is waiting for.
    pub open spec fn awaits(self, event: EventView) -> bool {
        match self.phase {
            Phase::Ready => event is Command,
            Phase::Enumerating(_) => event is Enumerated,
            Phase::Opening(stage, _) => event.completes(stage),
            Phase::Discarding(_) => event is Discarded,
        }
    }

    /// This controller in another phase.
    pub open spec fn in_phase(self, phase: Phase) -> ControllerView {
        ControllerView { phase, ..self }
    }

    /// The open capture with its state set to `state`, if there is one.
    pub open spec fn with_state(self, state: RecordingState) -> ControllerView {
        match self.session {
            Some(s) => ControllerView { session: Some(ActiveSessionView { state, ..s }), ..self },
            None => self,
        }
    }

    /// An attempt to open a capture fails with `message`: what it created is
    /// to be discarded before anything else happens.
    pub open spec fn fail(self, attempt: Attempt, message: Seq<char>) -> (ControllerView, StepView) {
        (
            ControllerView { phase: Phase::Discarding(attempt), failure: message, ..self },
            effect_step(EffectView::DiscardPending),
        )
    }

    /// Opening begins: the selected device is asked for its configuration.
    pub open spec fn begin_open(self, attempt: Attempt, device: DeviceRefView) -> (ControllerView, StepView) {
        (self.in_phase(Phase::Opening(OpenStage::Negotiate, attempt)), effect_step(EffectView::Negotiate(device)))
    }

    /// The answer to a command taken from the queue.
    pub open spec fn on_command(self, command: AudioCommandView) -> (ControllerView, StepView) {
        match command {
            AudioCommandView::StartRecording { filepath, sample_rate, channels } => match self.registry.current {
                Some(device) => ControllerView { pending_path: filepath, ..self }.begin_open(Attempt::First, device),
                None => (self, reply_step(AudioResponseView::Error("No audio device available"@))),
            },
            AudioCommandView::StopRecording => (
                ControllerView { session: None, ..self },
                StepView {
                    effect: if self.session is Some {
                        EffectView::CloseSession
                    } else {
                        EffectView::Nothing
                    },
                    reply: Some(AudioResponseView::Stopped),
                },
            ),
            AudioCommandView::PauseRecording => (
                self.with_state(RecordingState::Paused),
                StepView {
                    effect: if self.session is Some {
                        EffectView::SetState(RecordingState::Paused)
                    } else {
                        EffectView::Nothing
                    },
                    reply: Some(AudioResponseView::Paused),
                },
            ),
            AudioCommandView::ResumeRecording => (
                self.with_state(RecordingState::Recording),
                StepView {
                    effect: if self.session is Some {
                        EffectView::SetState(RecordingState::Recording)
                    } else {
                        EffectView::Nothing
                    },
                    reply: Some(AudioResponseView::Resumed),
                },
            ),
            AudioCommandView::RefreshDevices => (
                self.in_phase(Phase::Enumerating(Purpose::Command)),
                effect_step(EffectView::Enumerate),
            ),
            AudioCommandView::SwitchDevice { device_name } => (
                ControllerView { registry: self.registry.switched(device_name), ..self },
                reply_step(
                    if self.registry.available.contains(device_name) {
                        AudioResponseView::DeviceSwitched(device_name)
                    } else {
                        AudioResponseView::Error(not_found(device_name))
                    },
                ),
            ),
        }
    }

    /// The registry after an enumeration with this outcome.
    pub open spec fn registry_after(self, outcome: Result<DeviceSnapshotView, Seq<char>>) -> DeviceRegistryView {
        match outcome {
            Ok(snapshot) => self.registry.refreshed(snapshot),
            Err(_) => self.registry.emptied(),
        }
    }

    /// Why an enumeration with this outcome leaves no usable selection, if
    /// it does.
    pub open spec fn refresh_failure(self, outcome: Result<DeviceSnapshotView, Seq<char>>) -> Option<Seq<char>> {
        match outcome {
            Ok(snapshot) => match self.registry.refresh_error(snapshot) {
                Some(e) => Some(e.text()),
                None => None,
            },
            Err(reason) => Some("Failed to enumerate input devices: "@ + reason),
        }
    }

    /// The answer to the outcome of an enumeration.
    pub open spec fn on_enumerated(self, purpose: Purpose, outcome: Result<DeviceSnapshotView, Seq<char>>) -> (
        ControllerView,
        StepView,
    ) {
        let registry = self.registry_after(outcome);
        let settled = ControllerView { registry, phase: Phase::Ready, ..self };
        match purpose {
            Purpose::Initialise => (
                settled,
                StepView {
                    effect: EffectView::Nothing,
                    reply: match self.refresh_failure(outcome) {
                        Some(e) => Some(AudioResponseView::Error("Failed to initialize audio devices: "@ + e)),
                        None => None,
                    },
                },
            ),
            Purpose::Command => (
                settled,
                reply_step(
                    match self.refresh_failure(outcome) {
                        Some(e) => AudioResponseView::Error("Failed to refresh devices: "@ + e),
                        None => AudioResponseView::DevicesRefreshed(
                            listing(registry.available, outcome->Ok_0.default_label(), registry.current_name()),
                        ),
                    },
                ),
            ),
            Purpose::Retry => if self.refresh_failure(outcome) is Some {
                (settled, reply_step(AudioResponseView::Error("Audio start failed: "@ + self.first_error)))
            } else {
                match registry.current {
                    Some(device) => settled.begin_open(Attempt::Retry, device),
                    None => (
                        settled,
                        reply_step(
                            AudioResponseView::Error(
                                "No audio device available after refresh: "@ + self.first_error,
                            ),
                        ),
                    ),
                }
            },
        }
    }

    /// The answer to the outcome of one step of opening a capture.
    pub open spec fn on_opened(self, stage: OpenStage, attempt: Attempt, event: EventView) -> (
        ControllerView,
        StepView,
    ) {
        match event.failure() {
            Some(reason) => self.fail(attempt, stage_failure(stage, reason)),
            None => match stage {
                OpenStage::Negotiate => (
                    ControllerView {
                        pending_config: event->Negotiated_0->Ok_0,
                        phase: Phase::Opening(OpenStage::CreateFile, attempt),
                        ..self
                    },
                    effect_step(EffectView::CreateFile(self.pending_path)),
                ),
                OpenStage::CreateFile => (
                    self.in_phase(Phase::Opening(OpenStage::CreateWriter, attempt)),
                    effect_step(EffectView::CreateWriter(container_spec(self.pending_config))),
                ),
                OpenStage::CreateWriter => if self.pending_config.format.supported() {
                    (
                        self.in_phase(Phase::Opening(OpenStage::BuildStream, attempt)),
                        effect_step(
                            EffectView::BuildStream(stream_settings(self.pending_config), self.pending_config.format),
                        ),
                    )
                } else {
                    self.fail(attempt, "Unsupported sample format"@)
                },
                OpenStage::BuildStream => (
                    self.in_phase(Phase::Opening(OpenStage::StartStream, attempt)),
                    effect_step(EffectView::StartStream),
                ),
                OpenStage::StartStream => (
                    ControllerView {
                        session: Some(
                            ActiveSessionView {
                                state: RecordingState::Recording,
                                config: self.pending_config,
                                filepath: self.pending_path,
                            },
                        ),
                        phase: Phase::Ready,
                        ..self
                    },
                    StepView {
                        effect: if self.session is Some {
                            EffectView::ReplaceSession
                        } else {
                            EffectView::InstallSession
                        },
                        reply: Some(AudioResponseView::Started),
                    },
                ),
            },
        }
    }

    /// The answer to the word that a failed attempt has been discarded: the
    /// first failure of a command leads to one refresh of the devices and one
    /// more attempt, the second is reported together with the first.
    pub open spec fn on_discarded(self, attempt: Attempt) -> (ControllerView, StepView) {
        match attempt {
            Attempt::First => (
                ControllerView { first_error: self.failure, phase: Phase::Enumerating(Purpose::Retry), ..self },
                effect_step(EffectView::Enumerate),
            ),
            Attempt::Retry => (
                self.in_phase(Phase::Ready),
                reply_step(AudioResponseView::Error(retry_failure(self.first_error, self.failure))),
            ),
        }
    }

    /// The controller after `event`, and its answer. An event that the
    /// controller is not waiting for changes nothing and is answered by
    /// nothing.
    pub open spec fn react(self, event: EventView) -> (ControllerView, StepView) {
        if !self.awaits(event) {
            (self, idle_step())
        } else {
            match self.phase {
                Phase::Ready => self.on_command(event->Command_0),
                Phase::Enumerating(purpose) => self.on_enumerated(purpose, event->Enumerated_0),
                Phase::Opening(stage, attempt) => self.on_opened(stage, attempt, event),
                Phase::Discarding(attempt) => self.on_discarded(attempt),
            }
        }
    }
}

/// The controller after a run of events, and its answers in order.
pub open spec fn run(c: ControllerView, events: Seq<EventView>) -> (ControllerView, Seq<StepView>)
    decreases events.len(),
{
    if events.len() == 0 {
        (c, Seq::empty())
    } else {
        let (before, steps) = run(c, events.drop_last());
        let (after, step) = before.react(events.last());
        (after, steps.push(step))
    }
}

/// The statuses reported in a run of answers, in order.
pub open spec fn statuses(steps: Seq<StepView>) -> Seq<AudioResponseView>
    decreases steps.len(),
{
    if steps.len() == 0 {
        Seq::empty()
    } else {
        match steps.last().reply {
            Some(r) => statuses(steps.drop_last()).push(r),
            None => statuses(steps.drop_last()),
        }
    }
}

/// The views of a run of events.
pub open spec fn event_views(events: Seq<ControllerEvent>) -> Seq<EventView> {
    events.map_values(|e: ControllerEvent| e@)
}

/// The views of a run of answers.
pub open spec fn step_views(steps: Seq<Step>) -> Seq<StepView> {
    steps.map_values(|s: Step| s@)
}

/// The capture controller.
#[derive(Debug)]
pub struct Controller {
    registry: DeviceRegistry,
    session: Option<ActiveSession>,
    phase: Phase,
    pending_path: String,
    pending_config: NegotiatedConfig,
    first_error: String,
    failure: String,
}

impl View for Controller {
    type V = ControllerView;

    closed spec fn view(&self) -> ControllerView {
        ControllerView {
            registry: self.registry@,
            session: session_view(self.session),
            phase: self.phase,
            pending_path: self.pending_path@,
            pending_config: self.pending_config,
            first_error: self.first_error@,
            failure: self.failure@,
        }
    }
}

impl Step {
    /// Carries out nothing and reports nothing.
    pub fn idle() -> (step: Step)
        ensures
            step@ == idle_step(),
    {
        Step { effect: Effect::Nothing, reply: None }
    }

    /// Only carries out `effect`.
    pub fn perform(effect: Effect) -> (step: Step)
        ensures
            step@ == effect_step(effect@),
    {
        Step { effect, reply: None }
    }

    /// Only reports `reply`.
    pub fn report(reply: AudioResponse) -> (step: Step)
        ensures
            step@ == reply_step(reply@),
    {
        Step { effect: Effect::Nothing, reply: Some(reply) }
    }
}

impl Controller {
    /// A controller that knows no device yet, together with its first
    /// request: to enumerate the devices.
    pub fn new() -> (r: (Controller, Step))
        ensures
            r.0@ == ControllerView::initial(),
            r.1@ == effect_step(EffectView::Enumerate),
    {
        let controller = Controller {
            registry: DeviceRegistry::new(),
            session: None,
            phase: Phase::Enumerating(Purpose::Initialise),
            pending_path: String::new(),
            pending_config: NegotiatedConfig { sample_rate: 0, channels: 0, format: SampleFormat::Other },
            first_error: String::new(),
            failure: String::new(),
        };
        (controller, Step::perform(Effect::Enumerate))
    }

    /// What the controller is waiting for.
    pub fn phase(&self) -> (p: Phase)
        ensures
            p == self@.phase,
    {
        self.phase
    }

    /// Whether the controller is waiting for the next command.
    pub fn is_ready(&self) -> (b: bool)
        ensures
            b == (self@.phase == Phase::Ready),
    {
        match self.phase {
            Phase::Ready => true,
            _ => false,
        }
    }

    /// Whether a capture is open.
    pub fn is_active(&self) -> (b: bool)
        ensures
            b == (self@.session is Some),
    {
        self.session.is_some()
    }

    /// The open capture, if there is one.
    pub fn session(&self) -> (s: &Option<ActiveSession>)
        ensures
            session_view(*s) == self@.session,
    {
        &self.session
    }

    /// The state of the open capture, if there is one.
    pub fn recording_state(&self) -> (s: Option<RecordingState>)
        ensures
            s == match self@.session {
                Some(session) => Some(session.state),
                None => None,
            },
    {
        match &self.session {
            Some(session) => Some(session.state),
            None => None,
        }
    }

    /// The known devices and the selection.
    pub fn registry(&self) -> (r: &DeviceRegistry)
        ensures
            r@ == self@.registry,
    {
        &self.registry
    }

    fn fail(&mut self, attempt: Attempt, message: String) -> (step: Step)
        ensures
            (final(self)@, step@) == old(self)@.fail(attempt, message@),
    {
        self.phase = Phase::Discarding(attempt);
        self.failure = message;
        Step::perform(Effect::DiscardPending)
    }

    fn begin_open(&mut self, attempt: Attempt, device: DeviceRef) -> (step: Step)
        ensures
            (final(self)@, step@) == old(self)@.begin_open(attempt, device@),
    {
        self.phase = Phase::Opening(OpenStage::Negotiate, attempt);
        Step::perform(Effect::Negotiate(device))
    }

    fn set_state(&mut self, state: RecordingState) -> (effect: Effect)
        ensures
            final(self)@ == old(self)@.with_state(state),
            effect@ == if old(self)@.session is Some {
                EffectView::SetState(state)
            } else {
                EffectView::Nothing
            },
    {
        match &mut self.session {
            Some(session) => {
                session.state = state;
                Effect::SetState(state)
            },
            None => Effect::Nothing,
        }
    }

    fn on_command(&mut self, command: AudioCommand) -> (step: Step)
        ensures
            (final(self)@, step@) == old(self)@.on_command(command@),
    {
        match command {
            AudioCommand::StartRecording { filepath, sample_rate, channels } => {
                match self.registry.selection() {
                    Some(device) => {
                        self.pending_path = filepath;
                        self.begin_open(Attempt::First, device)
                    },
                    None => Step::report(AudioResponse::Error(String::from_str("No audio device available"))),
                }
            },
            AudioCommand::StopRecording => {
                let effect = if self.session.is_some() {
                    Effect::CloseSession
                } else {
                    Effect::Nothing
                };
                self.session = None;
                Step { effect, reply: Some(AudioResponse::Stopped) }
            },
            AudioCommand::PauseRecording => {
                let effect = self.set_state(RecordingState::Paused);
                Step { effect, reply: Some(AudioResponse::Paused) }
            },
            AudioCommand::ResumeRecording => {
                let effect = self.set_state(RecordingState::Recording);
                Step { effect, reply: Some(AudioResponse::Resumed) }
            },
            AudioCommand::RefreshDevices => {
                self.phase = Phase::Enumerating(Purpose::Command);
                Step::perform(Effect::Enumerate)
            },
            AudioCommand::SwitchDevice { device_name } => {
                if self.registry.switch_to(device_name.as_str()) {
                    Step::report(AudioResponse::DeviceSwitched(device_name))
                } else {
                    let mut message = prefixed("Device '", device_name.as_str());
                    message.append("' not found");
                    Step::report(AudioResponse::Error(message))
                }
            },
        }
    }

    /// Applies the outcome of an enumeration to the registry and says why it
    /// leaves no usable selection, if it does; with it the default device's
    /// name as device lists report it.
    fn apply_enumeration(&mut self, outcome: Result<DeviceSnapshot, String>) -> (r: (Option<String>, String))
        ensures
            final(self)@ == (ControllerView { registry: old(self)@.registry_after(outcome_of(outcome)), ..old(self)@ }),
            match old(self)@.refresh_failure(outcome_of(outcome)) {
                Some(e) => r.0 is Some && r.0->Some_0@ == e,
                None => r.0 is None,
            },
            outcome is Ok ==> r.1@ == outcome->Ok_0@.default_label(),
    {
        match outcome {
            Ok(snapshot) => {
                let label = match &snapshot.default_device {
                    DefaultDevice::Named(d) => d.clone(),
                    _ => String::from_str("Unknown"),
                };
                match self.registry.refresh(&snapshot) {
                    Ok(_) => (None, label),
                    Err(e) => (Some(e.message()), label),
                }
            },
            Err(reason) => {
                self.registry.clear();
                (Some(prefixed("Failed to enumerate input devices: ", reason.as_str())), String::new())
            },
        }
    }

    fn on_enumerated(&mut self, purpose: Purpose, outcome: Result<DeviceSnapshot, String>) -> (step: Step)
        ensures
            (final(self)@, step@) == old(self)@.on_enumerated(purpose, outcome_of(outcome)),
    {
        let (failure, label) = self.apply_enumeration(outcome);
        self.phase = Phase::Ready;
        match purpose {
            Purpose::Initialise => {
                match failure {
                    Some(e) => Step::report(
                        AudioResponse::Error(prefixed("Failed to initialize audio devices: ", e.as_str())),
                    ),
                    None => Step::idle(),
                }
            },
            Purpose::Command => {
                match failure {
                    Some(e) => Step::report(AudioResponse::Error(prefixed("Failed to refresh devices: ", e.as_str()))),
                    None => Step::report(AudioResponse::DevicesRefreshed(self.registry.device_list(label.as_str()))),
                }
            },
            Purpose::Retry => {
                if failure.is_some() {
                    Step::report(AudioResponse::Error(prefixed("Audio start failed: ", self.first_error.as_str())))
                } else {
                    match self.registry.selection() {
                        Some(device) => self.begin_open(Attempt::Retry, device),
                        None => Step::report(
                            AudioResponse::Error(
                                prefixed("No audio device available after refresh: ", self.first_error.as_str()),
                            ),
                        ),
                    }
                }
            },
        }
    }

    fn advance(&mut self, stage: OpenStage, attempt: Attempt, effect: Effect) -> (step: Step)
        ensures
            final(self)@ == old(self)@.in_phase(Phase::Opening(stage, attempt)),
            step@ == effect_step(effect@),
    {
        self.phase = Phase::Opening(stage, attempt);
        Step::perform(effect)
    }

    fn on_opened(&mut self, stage: OpenStage, attempt: Attempt, event: ControllerEvent) -> (step: Step)
        ensures
            (final(self)@, step@) == if event@.completes(stage) {
                old(self)@.on_opened(stage, attempt, event@)
            } else {
                (old(self)@, idle_step())
            },
    {
        match stage {
            OpenStage::Negotiate => match event {
                ControllerEvent::Negotiated(Ok(config)) => {
                    self.pending_config = config;
                    let path = self.pending_path.clone();
                    self.advance(OpenStage::CreateFile, attempt, Effect::CreateFile(path))
                },
                ControllerEvent::Negotiated(Err(e)) => self.fail(
                    attempt,
                    prefixed("Failed to get default input config: ", e.as_str()),
                ),
                _ => Step::idle(),
            },
            OpenStage::CreateFile => match event {
                ControllerEvent::FileCreated(Ok(_)) => {
                    let spec = container_for(&self.pending_config);
                    self.advance(OpenStage::CreateWriter, attempt, Effect::CreateWriter(spec))
                },
                ControllerEvent::FileCreated(Err(e)) => self.fail(
                    attempt,
                    prefixed("Failed to create audio file: ", e.as_str()),
                ),
                _ => Step::idle(),
            },
            OpenStage::CreateWriter => match event {
                ControllerEvent::WriterCreated(Ok(_)) => {
                    if self.pending_config.format.is_supported() {
                        let settings = settings_for(&self.pending_config);
                        let format = self.pending_config.format;
                        self.advance(OpenStage::BuildStream, attempt, Effect::BuildStream(settings, format))
                    } else {
                        self.fail(attempt, String::from_str("Unsupported sample format"))
                    }
                },
                ControllerEvent::WriterCreated(Err(e)) => self.fail(
                    attempt,
                    prefixed("Failed to create WAV writer: ", e.as_str()),
                ),
                _ => Step::idle(),
            },
            OpenStage::BuildStream => match event {
                ControllerEvent::StreamBuilt(Ok(_)) => self.advance(
                    OpenStage::StartStream,
                    attempt,
                    Effect::StartStream,
                ),
                ControllerEvent::StreamBuilt(Err(e)) => self.fail(
                    attempt,
                    prefixed("Failed to build input stream: ", e.as_str()),
                ),
                _ => Step::idle(),
            },
            OpenStage::StartStream => match event {
                ControllerEvent::StreamStarted(Ok(_)) => {
                    let effect = if self.session.is_some() {
                        Effect::ReplaceSession
                    } else {
                        Effect::InstallSession
                    };
                    self.session = Some(
                        ActiveSession {
                            state: RecordingState::Recording,
                            config: self.pending_config,
                            filepath: self.pending_path.clone(),
                        },
                    );
                    self.phase = Phase::Ready;
                    Step { effect, reply: Some(AudioResponse::Started) }
                },
                ControllerEvent::StreamStarted(Err(e)) => self.fail(
                    attempt,
                    prefixed("Failed to start stream: ", e.as_str()),
                ),
                _ => Step::idle(),
            },
        }
    }

    fn on_discarded(&mut self, attempt: Attempt) -> (step: Step)
        ensures
            (final(self)@, step@) == old(self)@.on_discarded(attempt),
    {
        match attempt {
            Attempt::First => {
                self.first_error = self.failure.clone();
                self.phase = Phase::Enumerating(Purpose::Retry);
                Step::perform(Effect::Enumerate)
            },
            Attempt::Retry => {
                self.phase = Phase::Ready;
                let mut message = prefixed("Audio start failed: ", self.first_error.as_str());
                message.append(" (retry: ");
                message.append(self.failure.as_str());
                message.append(")");
                Step::report(AudioResponse::Error(message))
            },
        }
    }

    /// Takes a run of events one after the other, in the order given, and
    /// answers each.
    pub fn run(&mut self, events: Vec<ControllerEvent>) -> (steps: Vec<Step>)
        ensures
            (final(self)@, step_views(steps@)) == run(old(self)@, event_views(events@)),
    {
        let ghost all = event_views(events@);
        let mut rest = events;
        let mut steps: Vec<Step> = Vec::new();
        let ghost mut taken: int = 0;
        proof {
            assert(all.take(0) =~= Seq::<EventView>::empty());
            assert(step_views(steps@) =~= Seq::<StepView>::empty());
            assert(all.skip(0) =~= all);
        }
        while rest.len() > 0
            invariant
                0 <= taken <= all.len(),
                event_views(rest@) == all.skip(taken),
                (self@, step_views(steps@)) == run(old(self)@, all.take(taken)),
            decreases rest.len(),
        {
            let ghost before = steps@;
            let ghost held = rest@;
            let event = rest.remove(0);
            proof {
                assert(event_views(held).len() == held.len());
                assert(all.skip(taken).len() == held.len());
                assert(taken < all.len());
                assert(event@ == event_views(held)[0]);
                assert(event_views(held)[0] == all.skip(taken)[0]);
                assert(event@ == all[taken]);
                assert(rest@ =~= held.remove(0));
                assert forall|i: int| 0 <= i < rest@.len() implies event_views(rest@)[i] == all.skip(taken + 1)[i] by {
                    assert(rest@[i] == held[i + 1]);
                    assert(event_views(held)[i + 1] == all.skip(taken)[i + 1]);
                }
                assert(event_views(rest@) =~= all.skip(taken + 1));
                assert(all.take(taken + 1).drop_last() =~= all.take(taken));
            }
            let step = self.handle(event);
            steps.push(step);
            proof {
                assert(step_views(steps@) =~= step_views(before).push(step@));
                taken = taken + 1;
            }
        }
        proof {
            assert(all.take(taken) =~= all);
        }
        steps
    }

    /// Takes one event and answers with the effect to carry out next and,
    /// if a command is done with, the status to report for it.
    ///
    /// An event that the controller is not waiting for is answered by
    /// nothing and changes nothing.
    pub fn handle(&mut self, event: ControllerEvent) -> (step: Step)
        ensures
            (final(self)@, step@) == old(self)@.react(event@),
    {
        match self.phase {
            Phase::Ready => match event {
                ControllerEvent::Command(command) => self.on_command(command),
                _ => Step::idle(),
            },
            Phase::Enumerating(purpose) => match event {
                ControllerEvent::Enumerated(outcome) => self.on_enumerated(purpose, outcome),
                _ => Step::idle(),
            },
            Phase::Opening(stage, attempt) => self.on_opened(stage, attempt, event),
            Phase::Discarding(attempt) => match event {
                ControllerEvent::Discarded => self.on_discarded(attempt),
                _ => Step::idle(),
            },
        }
    }
}

/// The value of the outcome of an enumeration.
pub open spec fn outcome_of(outcome: Result<DeviceSnapshot, String>) -> Result<DeviceSnapshotView, Seq<char>> {
    match outcome {
        Ok(snapshot) => Ok(snapshot@),
        Err(e) => Err(e@),
    }
}

} // verus!
