//! The records that the application keeps of inputs, tasks and notes.
//!
//! A path is a text as its components make it up: no separator at its end or twice in
//! a row, and no `.` within. Two such texts are equal exactly where the paths are.
use crate::text::same;
use vstd::prelude::*;

verus! {

/// The pages of the main window.
#[derive(Clone, Copy, Debug, PartialEq, Eq, Structural)]
pub enum Page {
    New,
    Task,
    Library,
    Settings,
    Result,
}

/// Where a subtitle comes from.
#[derive(Clone, Copy, Debug, PartialEq, Eq, Structural)]
pub enum SubtitleOrigin {
    Remote,
    File,
}

/// A subtitle that can be read.
#[derive(Clone, Debug, PartialEq, Eq)]
pub struct SubtitleTrack {
    pub id: String,
    pub label: String,
    pub origin: SubtitleOrigin,
}

/// What is known of the subtitles of a video.
#[derive(Clone, Debug, PartialEq, Eq)]
pub enum SubtitleEvidence {
    Unchecked,
    Found { tracks: Vec<SubtitleTrack>, warning: Option<String> },
    NoneFound,
    Unsupported { message: String },
    Failed { message: String },
}

/// Why a subtitle was not read; the message is what a person is told.
#[derive(Clone, Debug, PartialEq, Eq)]
pub enum SubtitleReadError {
    Cancelled,
    Failed { message: String },
}

/// A subtitle whose text has been read and confirmed.
#[derive(Clone, Debug, PartialEq, Eq)]
pub struct CachedSubtitle {
    pub source_identity: String,
    pub track_id: String,
    pub label: String,
    pub path: String,
}

/// A video that has been inspected.
#[derive(Clone, Debug, PartialEq, Eq)]
pub struct Source {
    pub input: String,
    pub identity: String,
    pub title: String,
    pub author: String,
    pub online: bool,
    pub subtitles: SubtitleEvidence,
    pub selected_subtitle: Option<CachedSubtitle>,
    pub subtitle_request: Option<SubtitleTrack>,
    pub subtitle_read_error: Option<SubtitleReadError>,
}

/// The choices for one conversion. Text comes from the source's subtitles or from
/// speech as mode 0 decides, from subtitles in mode 1, from speech in mode 2. The
/// formats are Markdown, HTML and JSON.
#[derive(Clone, Copy, Debug, PartialEq, Eq)]
pub struct ConversionOptions {
    pub provider: usize,
    pub source_mode: usize,
    pub llm: bool,
    pub summarize: bool,
    pub vision: bool,
    pub keep_video: bool,
    pub resume: bool,
    pub formats: [bool; 3],
}

impl ConversionOptions {
    /// The same choices throughout.
    pub open spec fn equals(self, other: ConversionOptions) -> bool {
        &&& self.provider == other.provider
        &&& self.source_mode == other.source_mode
        &&& self.llm == other.llm
        &&& self.summarize == other.summarize
        &&& self.vision == other.vision
        &&& self.keep_video == other.keep_video
        &&& self.resume == other.resume
        &&& self.formats[0] == other.formats[0]
        &&& self.formats[1] == other.formats[1]
        &&& self.formats[2] == other.formats[2]
    }

    /// Whether two sets of choices are the same.
    pub fn same_choices(&self, other: &ConversionOptions) -> (result: bool)
        ensures
            result == self.equals(*other),
    {
        self.provider == other.provider && self.source_mode == other.source_mode && self.llm
            == other.llm && self.summarize == other.summarize && self.vision == other.vision
            && self.keep_video == other.keep_video && self.resume == other.resume
            && self.formats[0] == other.formats[0] && self.formats[1] == other.formats[1]
            && self.formats[2] == other.formats[2]
    }
}

/// What a task does.
#[derive(Clone, Debug, PartialEq, Eq)]
pub enum Operation {
    Convert,
    Reprocess {
        base_version_dir: String,
        components: Vec<String>,
        prior_work_dir: Option<String>,
    },
}

/// What a task was asked to make. `subtitle` stands for the confirmed subtitle:
/// equal texts, equal subtitles.
#[derive(Clone, Debug, PartialEq, Eq)]
pub struct TaskPlan {
    pub operation: Operation,
    pub source: Source,
    pub source_id: String,
    pub title: String,
    pub library_id: String,
    pub folder: Option<u64>,
    pub options: ConversionOptions,
    pub subtitle: Option<String>,
    pub asr_service: Option<String>,
    pub ai_service: Option<String>,
}

#[derive(Clone, Copy, Debug, PartialEq, Eq, Structural)]
pub enum TaskState {
    Queued,
    Running,
    Pausing,
    Paused,
    NeedsAttention,
    Uncertain,
    Complete,
    Partial,
    Cancelled,
}

impl TaskState {
    /// Nothing more will happen to the task by itself.
    pub open spec fn is_finished(self) -> bool {
        self is Complete || self is Partial || self is Cancelled
    }

    pub fn finished(&self) -> (result: bool)
        ensures
            result == self.is_finished(),
    {
        matches!(self, TaskState::Complete | TaskState::Partial | TaskState::Cancelled)
    }

    /// The task has ended with something to read.
    pub open spec fn is_published(self) -> bool {
        self is Complete || self is Partial
    }

    pub fn published(&self) -> (result: bool)
        ensures
            result == self.is_published(),
    {
        matches!(self, TaskState::Complete | TaskState::Partial)
    }
}

/// A request that a task could not settle by itself.
#[derive(Clone, Debug, PartialEq, Eq)]
pub struct BlockedRequest {
    pub reason: String,
    pub request_id: Option<String>,
    pub purpose: Option<String>,
    pub description: String,
    pub message: String,
}

#[derive(Clone, Debug, PartialEq, Eq)]
pub struct TaskRecord {
    pub id: String,
    pub plan: TaskPlan,
    pub state: TaskState,
    pub updated: u64,
    pub parent: Option<String>,
    pub handled_by: Option<String>,
    pub error: Option<String>,
    pub artifact: Option<String>,
    pub unread: bool,
    pub blocked: Vec<BlockedRequest>,
}

/// The texts of all components are "exports".
pub open spec fn only_exports(components: Seq<String>) -> bool {
    components.len() > 0 && forall|i: int|
        0 <= i < components.len() ==> (#[trigger] components[i])@ == "exports"@
}

impl TaskRecord {
    /// One of the blocked requests may or may not have been carried out.
    pub open spec fn has_uncertain_request(self) -> bool {
        exists|i: int| 0 <= i < self.blocked@.len() && (#[trigger] self.blocked@[i]).reason@ == "uncertain"@
    }

    pub fn uncertain_request(&self) -> (result: bool)
        ensures
            result == self.has_uncertain_request(),
    {
        let mut i: usize = 0;
        while i < self.blocked.len()
            invariant
                i <= self.blocked@.len(),
                forall|j: int| 0 <= j < i ==> (#[trigger] self.blocked@[j]).reason@ != "uncertain"@,
            decreases self.blocked@.len() - i,
        {
            if same(self.blocked[i].reason.as_str(), "uncertain") {
                return true;
            }
            i += 1;
        }
        false
    }

    /// The task only writes files beside an existing note.
    pub open spec fn is_exports_only(self) -> bool {
        self.plan.operation matches Operation::Reprocess { components, .. } && only_exports(
            components@,
        )
    }

    pub fn exports_only(&self) -> (result: bool)
        ensures
            result == self.is_exports_only(),
    {
        match &self.plan.operation {
            Operation::Convert => false,
            Operation::Reprocess { components, .. } => {
                if components.is_empty() {
                    return false;
                }
                let mut i: usize = 0;
                while i < components.len()
                    invariant
                        i <= components@.len(),
                        forall|j: int| 0 <= j < i ==> (#[trigger] components@[j])@ == "exports"@,
                        self.plan.operation matches Operation::Reprocess { components: own, .. }
                            && own == *components,
                    decreases components@.len() - i,
                {
                    if !same(components[i].as_str(), "exports") {
                        return false;
                    }
                    i += 1;
                }
                true
            },
        }
    }
}

/// An input that has not been, or has just been, submitted.
#[derive(Clone, Debug, PartialEq, Eq)]
pub struct Draft {
    pub id: String,
    pub revision: u64,
    pub online: bool,
    pub input: String,
    pub source: Option<Source>,
    pub title: String,
    pub custom_title: bool,
    pub options: ConversionOptions,
    pub library_id: String,
    pub folder: Option<u64>,
    pub subtitle: Option<String>,
    pub asr_service: Option<String>,
    pub ai_service: Option<String>,
    pub submitted_task: Option<String>,
}

/// A folder on disk that holds notes.
#[derive(Clone, Debug, PartialEq, Eq)]
pub struct LibraryLocation {
    pub id: String,
    pub name: String,
    pub root: String,
}

/// The text of an optional string.
pub open spec fn text_of(value: Option<String>) -> Option<Seq<char>> {
    match value {
        Some(text) => Some(text@),
        None => None,
    }
}

/// Whether two optional strings are equal.
pub fn same_option(a: &Option<String>, b: &Option<String>) -> (result: bool)
    ensures
        result == (text_of(*a) == text_of(*b)),
{
    match (a, b) {
        (Some(left), Some(right)) => same(left.as_str(), right.as_str()),
        (None, None) => true,
        _ => false,
    }
}

/// Whether an optional string is there and equal to `text`.
pub fn is_text(value: &Option<String>, text: &str) -> (result: bool)
    ensures
        result == (text_of(*value) == Some(text@)),
{
    match value {
        Some(own) => same(own.as_str(), text),
        None => false,
    }
}

} // verus!
