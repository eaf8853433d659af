//! Plain data exchanged between the command layer and the library.

use vstd::prelude::*;
use crate::audio::session::Timestamp;
use crate::text::texts;

verus! {

/// A request to the capture controller. Requests are handled strictly in the
/// order in which they were enqueued.
#[derive(Debug)]
pub enum AudioCommand {
    StartRecording { filepath: String, sample_rate: u32, channels: u16 },
    StopRecording,
    PauseRecording,
    ResumeRecording,
    RefreshDevices,
    SwitchDevice { device_name: String },
}

/// Mathematical value of an [`AudioCommand`].
pub enum AudioCommandView {
    StartRecording { filepath: Seq<char>, sample_rate: u32, channels: u16 },
    StopRecording,
    PauseRecording,
    ResumeRecording,
    RefreshDevices,
    SwitchDevice { device_name: Seq<char> },
}

impl View for AudioCommand {
    type V = AudioCommandView;

    open spec fn view(&self) -> AudioCommandView {
        match *self {
            AudioCommand::StartRecording { filepath, sample_rate, channels } => AudioCommandView::StartRecording {
                filepath: filepath@,
                sample_rate,
                channels,
            },
            AudioCommand::StopRecording => AudioCommandView::StopRecording,
            AudioCommand::PauseRecording => AudioCommandView::PauseRecording,
            AudioCommand::ResumeRecording => AudioCommandView::ResumeRecording,
            AudioCommand::RefreshDevices => AudioCommandView::RefreshDevices,
            AudioCommand::SwitchDevice { device_name } => AudioCommandView::SwitchDevice {
                device_name: device_name@,
            },
        }
    }
}

/// An input device as shown to the user.
#[derive(Debug, Clone)]
pub struct AudioDevice {
    pub name: String,
    pub is_default: bool,
    pub is_current: bool,
}

/// Mathematical value of an [`AudioDevice`].
pub struct AudioDeviceView {
    pub name: Seq<char>,
    pub is_default: bool,
    pub is_current: bool,
}

impl View for AudioDevice {
    type V = AudioDeviceView;

    open spec fn view(&self) -> AudioDeviceView {
        AudioDeviceView { name: self.name@, is_default: self.is_default, is_current: self.is_current }
    }
}

/// The views of a list of devices.
pub open spec fn device_views(devices: Seq<AudioDevice>) -> Seq<AudioDeviceView> {
    devices.map_values(|d: AudioDevice| d@)
}

/// The device list together with the name of the device in use.
#[derive(Debug)]
pub struct AudioDeviceList {
    pub devices: Vec<AudioDevice>,
    pub current_device: Option<String>,
}

/// A recording that is under way, as the command layer keeps track of it.
#[derive(Debug, Clone)]
pub struct RecordingSession {
    pub id: String,
    pub card_id: String,
    pub start_time: Timestamp,
    pub is_paused: bool,
    /// Seconds spent in the pauses that have ended.
    pub pause_duration: i32,
    /// Elapsed seconds at which the clock stands while the recording is
    /// paused: the elapsed time when the pause began.
    pub pause_snapshot: i32,
    pub filename: String,
    pub filepath: String,
}

/// What the command layer reports of the recording under way.
#[derive(Debug)]
pub struct RecordingState {
    pub is_recording: bool,
    pub is_paused: bool,
    pub current_recording_id: Option<String>,
    pub recording_start_time: Option<Timestamp>,
    pub elapsed_recording_time: i32,
}

/// A timer that is running, as the command layer keeps track of it.
/// `pause_duration` is in seconds.
#[derive(Debug, Clone)]
pub struct TimerSession {
    pub id: String,
    pub card_id: String,
    pub start_time: Timestamp,
    pub is_paused: bool,
    pub pause_duration: i32,
}

/// What the command layer reports of the running timer; `elapsed_time` is
/// in seconds.
#[derive(Debug)]
pub struct TimerState {
    pub is_running: bool,
    pub is_paused: bool,
    pub current_session_id: Option<String>,
    pub session_start_time: Option<Timestamp>,
    pub elapsed_time: i32,
}

/// Name and stored path of a recording that has just been started.
#[derive(Debug)]
pub struct RecordingInfo {
    pub filename: String,
    pub filepath: String,
}

/// A request to create a problem.
#[derive(Debug)]
pub struct CreateProblemRequest {
    pub title: String,
    pub description: String,
    pub difficulty: String,
    pub topic: Vec<String>,
    pub leetcode_url: Option<String>,
    pub constraints: Vec<String>,
    pub hints: Vec<String>,
    pub related_problem_ids: Option<Vec<String>>,
}

/// A request to change a problem; a field that is `None` is left as it is.
#[derive(Debug)]
pub struct UpdateProblemRequest {
    pub id: String,
    pub title: Option<String>,
    pub description: Option<String>,
    pub difficulty: Option<String>,
    pub topic: Option<Vec<String>>,
    pub leetcode_url: Option<String>,
    pub constraints: Option<Vec<String>>,
    pub hints: Option<Vec<String>>,
    pub related_problem_ids: Option<Vec<String>>,
}

/// A request to create a card for a problem.
#[derive(Debug)]
pub struct CreateCardRequest {
    pub problem_id: String,
    pub language: Option<String>,
    pub parent_card_id: Option<String>,
}

/// A request to change a card; a field that is `None` is left as it is.
#[derive(Debug)]
pub struct UpdateCardRequest {
    pub id: String,
    pub code: Option<String>,
    pub language: Option<String>,
    pub notes: Option<String>,
    pub status: Option<String>,
}

/// Counts over the whole store.
#[derive(Debug, Clone, Copy, PartialEq, Eq, Structural)]
pub struct DatabaseStats {
    pub problem_count: i32,
    pub total_cards: i32,
    pub main_cards: i32,
    pub child_cards: i32,
}

/// A card with its place among the cards of its problem.
#[derive(Debug)]
pub struct CardHierarchy {
    pub card_id: String,
    pub problem_id: String,
    pub problem_title: String,
    pub card_number: i32,
    pub parent_card_id: Option<String>,
    pub child_count: i32,
}

/// Card counts of one problem.
#[derive(Debug)]
pub struct CardCountPerProblem {
    pub problem_id: String,
    pub problem_title: String,
    pub total_cards: i32,
    pub main_cards: i32,
    pub child_cards: i32,
}

/// The card that holds the solution of a problem.
#[derive(Debug, Clone)]
pub struct SolutionCard {
    pub id: String,
    pub problem_id: String,
    pub card_number: i32,
    pub code: String,
    pub language: String,
    pub notes: String,
    pub status: String,
    pub total_duration: i32,
    pub created_at: String,
    pub last_modified: String,
    pub is_solution: bool,
}

/// A request to store an image, given as a data URL or as bare base64.
#[derive(Debug)]
pub struct SaveImageRequest {
    pub problem_id: String,
    pub image_data: String,
    pub caption: Option<String>,
    pub position: Option<i32>,
}

/// A request to delete an image.
#[derive(Debug)]
pub struct DeleteImageRequest {
    pub image_id: String,
}

/// A tag that problems can carry.
#[derive(Debug, Clone)]
pub struct Tag {
    pub id: String,
    pub name: String,
    pub color: Option<String>,
    pub category: String,
}

/// A request to tag a problem.
#[derive(Debug)]
pub struct AddProblemTagRequest {
    pub problem_id: String,
    pub tag_name: String,
    pub color: Option<String>,
    pub category: Option<String>,
}

/// A request to take a tag off a problem.
#[derive(Debug)]
pub struct RemoveProblemTagRequest {
    pub problem_id: String,
    pub tag_id: String,
}

/// A request for tag names that match a query.
#[derive(Debug)]
pub struct GetTagSuggestionsRequest {
    pub query: String,
    pub limit: Option<i32>,
}

/// The outcome of importing problems from text.
#[derive(Debug)]
pub struct ImportResult {
    pub success: bool,
    pub imported_count: i32,
    pub skipped_count: i32,
    pub error_count: i32,
    pub duplicates: Vec<String>,
    pub errors: Vec<ImportError>,
}

/// One thing that went wrong during an import. `line` counts the problems
/// of the text from one; it is zero where the text as a whole was refused.
#[derive(Debug)]
pub struct ImportError {
    pub line: i32,
    pub field: Option<String>,
    pub message: String,
    pub severity: String,
}

/// Mathematical value of an [`ImportError`].
pub struct ImportErrorView {
    pub line: i32,
    pub field: Option<Seq<char>>,
    pub message: Seq<char>,
    pub severity: Seq<char>,
}

impl View for ImportError {
    type V = ImportErrorView;

    open spec fn view(&self) -> ImportErrorView {
        ImportErrorView {
            line: self.line,
            field: optional_text(self.field),
            message: self.message@,
            severity: self.severity@,
        }
    }
}

/// Mathematical value of an [`ImportResult`].
pub struct ImportResultView {
    pub success: bool,
    pub imported_count: i32,
    pub skipped_count: i32,
    pub error_count: i32,
    pub duplicates: Seq<Seq<char>>,
    pub errors: Seq<ImportErrorView>,
}

impl View for ImportResult {
    type V = ImportResultView;

    open spec fn view(&self) -> ImportResultView {
        ImportResultView {
            success: self.success,
            imported_count: self.imported_count,
            skipped_count: self.skipped_count,
            error_count: self.error_count,
            duplicates: texts(self.duplicates@),
            errors: self.errors@.map_values(|e: ImportError| e@),
        }
    }
}

/// A problem as read from text.
#[derive(Debug, Clone)]
pub struct ParsedProblem {
    pub title: String,
    pub description: String,
    pub difficulty: String,
    pub topics: Vec<String>,
    pub tags: Vec<String>,
    pub leetcode_url: Option<String>,
    pub constraints: Vec<String>,
    pub hints: Vec<String>,
}

/// Mathematical value of a [`ParsedProblem`].
pub struct ParsedProblemView {
    pub title: Seq<char>,
    pub description: Seq<char>,
    pub difficulty: Seq<char>,
    pub topics: Seq<Seq<char>>,
    pub tags: Seq<Seq<char>>,
    pub leetcode_url: Option<Seq<char>>,
    pub constraints: Seq<Seq<char>>,
    pub hints: Seq<Seq<char>>,
}

/// The value of an optional string.
pub open spec fn optional_text(s: Option<String>) -> Option<Seq<char>> {
    match s {
        Some(t) => Some(t@),
        None => None,
    }
}

impl View for ParsedProblem {
    type V = ParsedProblemView;

    open spec fn view(&self) -> ParsedProblemView {
        ParsedProblemView {
            title: self.title@,
            description: self.description@,
            difficulty: self.difficulty@,
            topics: texts(self.topics@),
            tags: texts(self.tags@),
            leetcode_url: optional_text(self.leetcode_url),
            constraints: texts(self.constraints@),
            hints: texts(self.hints@),
        }
    }
}

impl ParsedProblemView {
    /// The problem of which nothing has been read yet.
    pub open spec fn empty() -> ParsedProblemView {
        ParsedProblemView {
            title: Seq::empty(),
            description: Seq::empty(),
            difficulty: Seq::empty(),
            topics: Seq::empty(),
            tags: Seq::empty(),
            leetcode_url: None,
            constraints: Seq::empty(),
            hints: Seq::empty(),
        }
    }
}

impl ParsedProblem {
    /// A problem of which nothing has been read yet: every text empty, every
    /// list empty, no link.
    pub fn new() -> (p: Self)
        ensures
            p@ == ParsedProblemView::empty(),
    {
        let p = Self {
            title: String::new(),
            description: String::new(),
            difficulty: String::new(),
            topics: Vec::new(),
            tags: Vec::new(),
            leetcode_url: None,
            constraints: Vec::new(),
            hints: Vec::new(),
        };
        assert(texts(p.topics@) =~= Seq::<Seq<char>>::empty());
        assert(texts(p.tags@) =~= Seq::<Seq<char>>::empty());
        assert(texts(p.constraints@) =~= Seq::<Seq<char>>::empty());
        assert(texts(p.hints@) =~= Seq::<Seq<char>>::empty());
        p
    }
}

/// What deleting a problem would take with it.
#[derive(Debug, Clone, Copy, PartialEq, Eq, Structural)]
pub struct ProblemDeleteStats {
    pub total_cards: i32,
    pub main_cards: i32,
    pub child_cards: i32,
    pub recordings_count: i32,
    pub images_count: i32,
    pub total_duration: i32,
}

/// Figures of the dashboard; times are in seconds.
#[derive(Debug, Clone, Copy, PartialEq, Eq, Structural)]
pub struct DashboardStats {
    pub total_problems: i32,
    pub total_study_time: i32,
    pub problems_worked_today: i32,
    pub completed_problems: i32,
}

/// Number of problems worked on a day, given as `YYYY-MM-DD`.
#[derive(Debug, Clone)]
pub struct ProblemsWorkedTodayResponse {
    pub count: i32,
    pub date: String,
}

/// Work done on a day, given as `YYYY-MM-DD`; the time is in seconds.
#[derive(Debug, Clone)]
pub struct DailyWorkStats {
    pub problems_worked: i32,
    pub total_study_time_today: i32,
    pub date: String,
}

/// Where the application keeps its data, for diagnosis.
#[derive(Debug)]
pub struct PathDebugInfo {
    pub is_debug_mode: bool,
    pub path_resolver_base_dir: String,
    pub recordings_dir: String,
    pub images_dir: String,
    pub sample_resolved_path: String,
    pub cfg_debug_assertions: bool,
}

} // verus!
