//! What the workbench shows and offers for its input: a start, the task that works
//! on it, or what stands in the way.
use crate::conversion::ServicePurpose;
use crate::environment::Environment;
use crate::follow::ConversionFollow;
use crate::input_task::{is_history, retired_input_task};
use crate::notes::Course;
use crate::text::{join3, join_all, joined, same, slices};
use crate::workspace::{
    is_text, text_of, ConversionOptions, Draft, LibraryLocation, Source, TaskRecord, TaskState,
};
use vstd::prelude::*;
use vstd::string::*;

verus! {

// --------------------------------------------------------------- existing notes

/// The note was made from this video.
pub open spec fn is_note_of(course: Course, identity: Seq<char>) -> bool {
    course.manifest matches Some(manifest) && manifest.source_id@ == identity
}

/// The note at `i` is the one to show for a video: the first of its notes in the
/// library that the input is for, else the first of them.
pub open spec fn is_existing_note(
    courses: Seq<Course>,
    within: Seq<bool>,
    identity: Seq<char>,
    i: int,
) -> bool {
    &&& 0 <= i < courses.len()
    &&& is_note_of(courses[i], identity)
    &&& forall|j: int|
        0 <= j < courses.len() && is_note_of(#[trigger] courses[j], identity) ==> {
            ||| within[i] && !within[j]
            ||| within[i] == within[j] && i <= j
        }
}

/// The place of the note that a video has already. `within` tells of each note
/// whether it lies in the library that the input is for.
pub fn existing_source_note(courses: &Vec<Course>, within: &Vec<bool>, source: Option<&Source>) -> (result:
    Option<usize>)
    requires
        within@.len() == courses@.len(),
    ensures
        match (source, result) {
            (Some(own), Some(i)) => is_existing_note(courses@, within@, own.identity@, i as int),
            (Some(own), None) => forall|j: int|
                0 <= j < courses@.len() ==> !is_note_of(#[trigger] courses@[j], own.identity@),
            (None, found) => found is None,
        },
{
    let source = match source {
        Some(own) => own,
        None => {
            return None;
        },
    };
    let mut best: Option<usize> = None;
    let mut i: usize = 0;
    while i < courses.len()
        invariant
            i <= courses@.len(),
            within@.len() == courses@.len(),
            match best {
                Some(b) => b < i && is_note_of(courses@[b as int], source.identity@) && forall|j: int|
                    0 <= j < i && is_note_of(#[trigger] courses@[j], source.identity@) ==> {
                        ||| within@[b as int] && !within@[j]
                        ||| within@[b as int] == within@[j] && b <= j
                    },
                None => forall|j: int|
                    0 <= j < i ==> !is_note_of(#[trigger] courses@[j], source.identity@),
            },
        decreases courses@.len() - i,
    {
        let own = match &courses[i].manifest {
            Some(manifest) => same(manifest.source_id.as_str(), source.identity.as_str()),
            None => false,
        };
        if own {
            let better = match best {
                Some(b) => within[i] && !within[b],
                None => true,
            };
            if better {
                best = Some(i);
            }
        }
        i += 1;
    }
    best
}

// ------------------------------------------------------------------------ start

/// The task does not keep the input from being started again: it is complete or
/// cancelled, and its result is not about to open.
pub open spec fn is_done_with(
    task: TaskRecord,
    reading: bool,
    following: Option<ConversionFollow>,
    generation: u64,
) -> bool {
    &&& task.state is Complete || task.state is Cancelled
    &&& !(reading && following is Some && following->0.is_following(task.id@, generation))
}

/// Whether a start is offered.
pub fn can_start_input(
    online: bool,
    input: &str,
    preview_failed: bool,
    existing_note: bool,
    task: Option<&TaskRecord>,
    reading: bool,
    following: &Option<ConversionFollow>,
    generation: u64,
) -> (result: bool)
    ensures
        result == ((online || input@.len() > 0) && !preview_failed && !existing_note && (task is None
            || is_done_with(*task->0, reading, *following, generation))),
{
    if !(online || !input.is_empty()) || preview_failed || existing_note {
        return false;
    }
    match task {
        Some(own) => {
            let opening = reading && match following {
                Some(follow) => follow.follows(own.id.as_str(), generation),
                None => false,
            };
            matches!(own.state, TaskState::Complete | TaskState::Cancelled) && !opening
        },
        None => true,
    }
}

/// How the task of the input is shown.
#[derive(Clone, Copy, Debug, PartialEq, Eq, Structural)]
pub enum TaskPanel {
    OpeningResult,
    Running,
    Attention,
}

/// The task takes the place of the options: its result is opening, it is not over,
/// or its result lacks something.
pub open spec fn shows_task(task: TaskRecord, opening: bool, failures: nat) -> bool {
    ||| opening && task.state.is_published()
    ||| !task.state.is_finished()
    ||| task.state is Partial && task.artifact is Some && failures > 0
}

/// How the task of the input is shown; not at all once there is nothing to do about
/// it. `failures` is the number of parts that its result lacks.
pub fn task_panel(task: &TaskRecord, opening: bool, failures: usize) -> (result: Option<TaskPanel>)
    ensures
        result == (if !shows_task(*task, opening, failures as nat) {
            None
        } else if opening && task.state.is_published() {
            Some(TaskPanel::OpeningResult)
        } else if task.state is Queued || task.state is Running || task.state is Pausing {
            Some(TaskPanel::Running)
        } else {
            Some(TaskPanel::Attention)
        }),
{
    let published = task.state.published();
    if !((opening && published) || !task.state.finished() || (matches!(
        task.state,
        TaskState::Partial
    ) && task.artifact.is_some() && failures > 0)) {
        return None;
    }
    if opening && published {
        Some(TaskPanel::OpeningResult)
    } else if matches!(
        task.state,
        TaskState::Queued | TaskState::Running | TaskState::Pausing
    ) {
        Some(TaskPanel::Running)
    } else {
        Some(TaskPanel::Attention)
    }
}

/// What entering the workbench does to its input.
pub enum WorkbenchEntry {
    /// The input stays.
    Keep,
    /// A fresh input takes its place, for this folder of the default library.
    Reset(Option<u64>),
}

/// The input stays while a conversion is prepared or followed, and unless it is
/// history. A fresh one is for the same folder where that is in the default library.
pub fn workbench_entry(
    pending: bool,
    following: bool,
    draft: Option<&Draft>,
    tasks: &[TaskRecord],
    input: &str,
    default_library: &str,
) -> (result: WorkbenchEntry)
    ensures
        ({
            let history = draft is Some && is_history(*draft->0, tasks@, input@);
            match result {
                WorkbenchEntry::Keep => pending || following || !history,
                WorkbenchEntry::Reset(folder) => !pending && !following && history && folder == (
                if draft->0.library_id@ == default_library@ {
                    draft->0.folder
                } else {
                    None
                }),
            }
        }),
{
    if pending || following {
        return WorkbenchEntry::Keep;
    }
    match draft {
        Some(own) => match retired_input_task(own, tasks, input) {
            Some(_) => {
                if same(own.library_id.as_str(), default_library) {
                    WorkbenchEntry::Reset(own.folder)
                } else {
                    WorkbenchEntry::Reset(None)
                }
            },
            None => WorkbenchEntry::Keep,
        },
        None => WorkbenchEntry::Keep,
    }
}

/// Whether the default model has to be looked at: local recognition is used, or its
/// options are open.
pub fn needs_model_check(
    options: &ConversionOptions,
    has_task: bool,
    recognises_speech: bool,
    options_open: bool,
) -> (result: bool)
    ensures
        result == (!has_task && options.provider != 5 && (recognises_speech || (options_open
            && options.source_mode != 1))),
{
    !has_task && options.provider != 5 && (recognises_speech || (options_open
        && options.source_mode != 1))
}

// ------------------------------------------------------------------------ files

/// The names of the formats that are asked for.
pub open spec fn format_names(formats: [bool; 3]) -> Seq<Seq<char>> {
    let first = if formats[0] {
        seq!["Markdown 包"@]
    } else {
        Seq::empty()
    };
    let second = if formats[1] {
        first.push("网页文件"@)
    } else {
        first
    };
    if formats[2] {
        second.push("JSON 数据"@)
    } else {
        second
    }
}

/// The line on the files that are written beside the note; nothing where none is.
pub fn export_summary(options: &ConversionOptions) -> (result: Option<String>)
    ensures
        result is Some == (format_names(options.formats).len() > 0),
        result matches Some(text) ==> text@ == joined(format_names(options.formats), " · "@),
{
    let mut names: Vec<&'static str> = Vec::new();
    if options.formats[0] {
        names.push("Markdown 包");
    }
    if options.formats[1] {
        names.push("网页文件");
    }
    if options.formats[2] {
        names.push("JSON 数据");
    }
    assert(slices(names@) =~= format_names(options.formats));
    if names.is_empty() {
        return None;
    }
    Some(join_all(&names, " · "))
}

/// The name of the place where a note is saved.
pub fn destination_label(selected: Option<&LibraryLocation>) -> (result: String)
    ensures
        result@ == (match selected {
            Some(library) => library.name@,
            None => "选择保存位置"@,
        }),
{
    match selected {
        Some(library) => library.name.clone(),
        None => "选择保存位置".to_owned(),
    }
}

// --------------------------------------------------------------------- recovery

/// What stands in the way of a conversion.
pub enum RecoveryChoice {
    /// A task does the same already.
    MatchingTask { task: usize, notice: String },
    /// The video has a note. A new version can be made, unless something is in its
    /// way; it may have to wait for other work.
    ExistingNote { notice: String, can_renew: bool, queued: bool },
    /// A service has to be set up first.
    MissingService(ServicePurpose),
    Nothing,
}

/// What the recovery area shows and offers.
pub struct RecoveryPlan {
    pub repair_components: bool,
    /// The label of the button that repairs the saved options.
    pub repair_preferences: Option<&'static str>,
    pub reassociate: Option<ReassociateButton>,
    pub choice: RecoveryChoice,
    pub retry: bool,
    pub cancel: bool,
    /// What a person is told; a check that is under way is no error.
    pub message: Option<String>,
    pub checking_components: bool,
}

/// The button that finds the place to save to again.
#[derive(Clone, Copy, Debug, PartialEq, Eq, Structural)]
pub struct ReassociateButton {
    pub disabled: bool,
}

/// The saved options cannot be used.
pub struct PreferencesIssue {
    pub message: String,
    pub can_retry: bool,
}

/// What the recovery area is made from.
pub struct RecoveryInput {
    pub environment: Option<Environment>,
    pub online: bool,
    pub pending: bool,
    pub reading: bool,
    pub job: bool,
    pub validation: bool,
    pub has_workspace: bool,
    pub has_source: bool,
    pub needs_attention: bool,
    pub preferences_issue: Option<PreferencesIssue>,
    /// What keeps the input from being submitted.
    pub submission_issue: Option<String>,
    /// The place to save to has to be found again.
    pub needs_reassociation: bool,
    /// Libraries are being moved or found again.
    pub storage_busy: bool,
    pub matching_task: Option<usize>,
    pub matching_library: Option<String>,
    pub existing_note: bool,
    pub existing_library: Option<String>,
    pub missing_service: Option<ServicePurpose>,
}

/// A task waits or runs.
pub open spec fn has_work(tasks: Seq<TaskRecord>) -> bool {
    exists|i: int|
        0 <= i < tasks.len() && ((#[trigger] tasks[i]).state is Queued || tasks[i].state is Running)
}

fn any_work(tasks: &Vec<TaskRecord>) -> (result: bool)
    ensures
        result == has_work(tasks@),
{
    let mut i: usize = 0;
    while i < tasks.len()
        invariant
            i <= tasks@.len(),
            forall|j: int|
                0 <= j < i ==> !((#[trigger] tasks@[j]).state is Queued || tasks@[j].state
                    is Running),
        decreases tasks@.len() - i,
    {
        if matches!(tasks[i].state, TaskState::Queued | TaskState::Running) {
            return true;
        }
        i += 1;
    }
    false
}

/// Something that every conversion needs is missing.
pub open spec fn lacks_components(environment: Environment, online: bool) -> bool {
    !environment.engine || !environment.ffmpeg || !environment.ffprobe || (online
        && !environment.ytdlp)
}

impl RecoveryInput {
    /// What a person is told: first what is wrong with the saved options, then, once
    /// the source is settled, what keeps it from being submitted.
    pub open spec fn told(self) -> Option<Seq<char>> {
        match self.preferences_issue {
            Some(issue) => Some(issue.message@),
            None => if self.has_source && !self.reading && !self.needs_attention {
                text_of(self.submission_issue)
            } else {
                None
            },
        }
    }

    /// The recovery area shows this: first a task that does the same, then a note
    /// that is there already, then a service that is missing.
    pub open spec fn is_plan(self, tasks: Seq<TaskRecord>, plan: RecoveryPlan) -> bool {
        &&& plan.repair_components == (self.environment is Some && lacks_components(
            self.environment->0,
            self.online,
        ))
        &&& match self.matching_task {
            Some(i) => plan.choice matches RecoveryChoice::MatchingTask { task, notice } && task == i
                && notice@ == "已有相同处理任务：《"@ + tasks[i as int].plan.title@ + "》（"@ + (
            match self.matching_library {
                Some(name) => name@,
                None => "原保存位置"@,
            }) + "）"@,
            None => if self.existing_note {
                plan.choice matches RecoveryChoice::ExistingNote { notice, can_renew, queued }
                    && queued == (self.job || has_work(tasks)) && can_renew == (!self.reading
                    && self.has_workspace && self.preferences_issue is None) && notice@ == "这个视频已有笔记，保存在「"@ + (
                match self.existing_library {
                    Some(name) => name@,
                    None => "课程库"@,
                }) + "」。生成新版会保留原笔记。"@
            } else {
                match self.missing_service {
                    Some(purpose) => plan.choice == RecoveryChoice::MissingService(purpose),
                    None => plan.choice is Nothing,
                }
            },
        }
        &&& plan.retry == (self.pending && self.validation && !self.reading && self.missing_service
            is None && !self.existing_note && self.matching_task is None)
        &&& plan.cancel == (self.pending && !self.reading)
        &&& match plan.repair_preferences {
            Some(label) => self.preferences_issue matches Some(issue) && label@ == (
            if issue.can_retry {
                "重试保存生成选项"@
            } else {
                "保留原文件并重置生成选项"@
            }),
            None => self.preferences_issue is None,
        }
        &&& plan.reassociate == (if self.needs_reassociation {
            Some(ReassociateButton { disabled: self.storage_busy })
        } else {
            None
        })
        &&& text_of(plan.message) == self.told()
        &&& plan.checking_components == (self.preferences_issue is None && self.environment is None
            && self.told() == Some("正在检查生成笔记需要的组件，请稍候"@))
    }

    pub fn conversion_recovery(&self, tasks: &Vec<TaskRecord>) -> (result: RecoveryPlan)
        requires
            self.matching_task matches Some(i) ==> i < tasks@.len(),
        ensures
            self.is_plan(tasks@, result),
    {
        let message = match &self.preferences_issue {
            Some(issue) => Some(issue.message.clone()),
            None => {
                if self.has_source && !self.reading && !self.needs_attention {
                    match &self.submission_issue {
                        Some(issue) => Some(issue.clone()),
                        None => None,
                    }
                } else {
                    None
                }
            },
        };
        let repair_preferences = match &self.preferences_issue {
            Some(issue) => Some(
                if issue.can_retry {
                    "重试保存生成选项"
                } else {
                    "保留原文件并重置生成选项"
                },
            ),
            None => None,
        };
        let checking_components = self.preferences_issue.is_none() && self.environment.is_none()
            && is_text(&message, "正在检查生成笔记需要的组件，请稍候");
        let repair_components = match &self.environment {
            Some(found) => !found.engine || !found.ffmpeg || !found.ffprobe || (self.online
                && !found.ytdlp),
            None => false,
        };
        let choice = match self.matching_task {
            Some(task) => {
                let mut notice = "已有相同处理任务：《".to_owned();
                notice.append(tasks[task].plan.title.as_str());
                notice.append("》（");
                notice.append(
                    match &self.matching_library {
                        Some(name) => name.as_str(),
                        None => "原保存位置",
                    },
                );
                notice.append("）");
                RecoveryChoice::MatchingTask { task, notice }
            },
            None => {
                if self.existing_note {
                    let location = match &self.existing_library {
                        Some(name) => name.as_str(),
                        None => "课程库",
                    };
                    RecoveryChoice::ExistingNote {
                        notice: join3(
                            "这个视频已有笔记，保存在「",
                            location,
                            "」。生成新版会保留原笔记。",
                        ),
                        can_renew: !self.reading && self.has_workspace
                            && self.preferences_issue.is_none(),
                        queued: self.job || any_work(tasks),
                    }
                } else {
                    match self.missing_service {
                        Some(purpose) => RecoveryChoice::MissingService(purpose),
                        None => RecoveryChoice::Nothing,
                    }
                }
            },
        };
        RecoveryPlan {
            repair_components,
            choice,
            retry: self.pending && self.validation && !self.reading && self.missing_service.is_none()
                && !self.existing_note && self.matching_task.is_none(),
            cancel: self.pending && !self.reading,
            repair_preferences,
            reassociate: if self.needs_reassociation {
                Some(ReassociateButton { disabled: self.storage_busy })
            } else {
                None
            },
            message,
            checking_components,
        }
    }
}

/// The label of the button that sets a service up.
pub fn service_label(purpose: ServicePurpose) -> (result: &'static str)
    ensures
        result@ == (match purpose {
            ServicePurpose::Speech => "设置语音服务"@,
            ServicePurpose::Ai => "设置 AI 服务"@,
        }),
{
    match purpose {
        ServicePurpose::Speech => "设置语音服务",
        ServicePurpose::Ai => "设置 AI 服务",
    }
}

/// While the saved options cannot be used, nothing new is made of a video that has a
/// note, and the person is told of them.
pub proof fn unusable_options_block_a_new_version(
    input: RecoveryInput,
    tasks: Seq<TaskRecord>,
    plan: RecoveryPlan,
)
    requires
        input.is_plan(tasks, plan),
        input.preferences_issue is Some,
    ensures
        plan.message is Some,
        plan.choice matches RecoveryChoice::ExistingNote { can_renew, .. } ==> !can_renew,
        !plan.checking_components,
{
}

/// A retry is offered only where nothing else has to be settled first.
pub proof fn a_retry_has_nothing_before_it(
    input: RecoveryInput,
    tasks: Seq<TaskRecord>,
    plan: RecoveryPlan,
)
    requires
        input.is_plan(tasks, plan),
        plan.retry,
    ensures
        plan.choice is Nothing,
        plan.cancel,
{
}

/// The note that is shown for a video is one of its notes, and lies in the library
/// that the input is for wherever one of them does.
pub proof fn an_existing_note_prefers_its_library(
    courses: Seq<Course>,
    within: Seq<bool>,
    identity: Seq<char>,
    i: int,
    j: int,
)
    requires
        within.len() == courses.len(),
        is_existing_note(courses, within, identity, i),
        0 <= j < courses.len(),
        is_note_of(courses[j], identity),
        within[j],
    ensures
        within[i],
        is_note_of(courses[i], identity),
{
}

// ------------------------------------------------------------- what can be started

/// A video has a note already exactly where one was made from it; a note in the library that
/// the input is for comes before all others, and the first of those.
pub proof fn a_note_of_the_video_is_found(
    courses: Vec<Course>,
    within: Vec<bool>,
    source: Source,
    found: Option<usize>,
    i: int,
)
    requires
        within@.len() == courses@.len(),
        call_ensures(existing_source_note, (&courses, &within, Some(&source)), found),
    ensures
        found matches Some(k) ==> k < courses@.len() && courses@[k as int].manifest is Some
            && courses@[k as int].manifest->0.source_id@ == source.identity@,
        0 <= i < courses@.len() && courses@[i].manifest is Some
            && courses@[i].manifest->0.source_id@ == source.identity@ ==> found is Some && (
        within@[i] ==> within@[found->0 as int]) && (within@[i] == within@[found->0 as int]
            ==> found->0 <= i),
{
    let given = (&courses, &within, Some(&source));
    if 0 <= i < courses@.len() && courses@[i].manifest is Some
        && courses@[i].manifest->0.source_id@ == source.identity@ {
        assert(is_note_of(given.0@[i], source.identity@));
    }
}

/// A conversion can be started where there is an input that can be read and has no note yet,
/// and no task of it is under way or waits for a person.
pub proof fn a_conversion_can_be_started(
    online: bool,
    input: &str,
    failed: bool,
    existing: bool,
    task: Option<&TaskRecord>,
    reading: bool,
    following: Option<ConversionFollow>,
    generation: u64,
    can: bool,
)
    requires
        call_ensures(
            can_start_input,
            (online, input, failed, existing, task, reading, &following, generation),
            can,
        ),
    ensures
        failed || existing ==> !can,
        !online && input@.len() == 0 ==> !can,
        task is Some && !(task->0.state is Complete || task->0.state is Cancelled) ==> !can,
        (online || input@.len() > 0) && !failed && !existing && task is None ==> can,
        (online || input@.len() > 0) && !failed && !existing && task is Some && (task->0.state
            is Complete || task->0.state is Cancelled) && !reading ==> can,
        (online || input@.len() > 0) && !failed && !existing && task is Some && (task->0.state
            is Complete || task->0.state is Cancelled) && following is None ==> can,
{
}

/// What the workbench shows of a task: that its result opens, that it is under way, or that it
/// waits for a person; nothing of one that has ended and lacks nothing.
pub proof fn a_task_is_shown_while_it_matters(
    task: TaskRecord,
    opening: bool,
    failures: usize,
    panel: Option<TaskPanel>,
)
    requires
        call_ensures(task_panel, (&task, opening, failures), panel),
    ensures
        panel == Some(TaskPanel::OpeningResult) <==> opening && (task.state is Complete || task.state
            is Partial),
        panel == Some(TaskPanel::Running) <==> task.state is Queued || task.state is Running
            || task.state is Pausing,
        task.state is Paused || task.state is NeedsAttention || task.state is Uncertain ==> panel
            == Some(TaskPanel::Attention),
        task.state is Cancelled ==> panel is None,
        task.state is Complete && !opening ==> panel is None,
        task.state is Partial && !opening ==> (panel is Some <==> task.artifact is Some && failures
            > 0),
{
}

/// Entering the workbench clears an input that is history, and no other: never one that waits,
/// is followed, or was changed. The folder is kept for the next input in the same library.
#[verifier::rlimit(40)]
pub proof fn only_history_is_cleared(
    pending: bool,
    following: bool,
    draft: Option<&Draft>,
    tasks: &[TaskRecord],
    input: &str,
    default_library: &str,
    entry: WorkbenchEntry,
    retired: Option<&TaskRecord>,
)
    requires
        call_ensures(
            workbench_entry,
            (pending, following, draft, tasks, input, default_library),
            entry,
        ),
        draft is Some ==> call_ensures(
            crate::input_task::retired_input_task,
            (draft->0, tasks, input),
            retired,
        ),
    ensures
        pending || following || draft is None ==> entry is Keep,
        draft is Some && retired is None ==> entry is Keep,
        draft is Some && retired is Some && !pending && !following ==> entry is Reset,
        entry matches WorkbenchEntry::Reset(folder) ==> folder == (if draft->0.library_id@
            == default_library@ {
            draft->0.folder
        } else {
            None
        }),
{
}

/// The model is looked at where speech would be recognised on this computer and nothing is
/// under way.
pub proof fn the_model_is_looked_at_where_it_is_used(
    options: ConversionOptions,
    task: bool,
    speech: bool,
    open: bool,
    checks: bool,
)
    requires
        call_ensures(needs_model_check, (&options, task, speech, open), checks),
    ensures
        task || options.provider == 5 ==> !checks,
        !task && options.provider != 5 && speech ==> checks,
        !speech && !open ==> !checks,
        !speech && options.source_mode == 1 ==> !checks,
{
}

/// What stands in the way of a conversion is told one at a time: an equal task first, then a
/// note of the video, then a service that is missing. A note can be made anew where nothing is
/// being read and the options can be used.
pub proof fn what_is_in_the_way_is_told(input: RecoveryInput, tasks: Vec<TaskRecord>, plan: RecoveryPlan)
    requires
        input.matching_task matches Some(i) ==> i < tasks@.len(),
        call_ensures(RecoveryInput::conversion_recovery, (&input, &tasks), plan),
    ensures
        plan.choice is MatchingTask <==> input.matching_task is Some,
        plan.choice is ExistingNote <==> input.matching_task is None && input.existing_note,
        plan.choice is MissingService <==> input.matching_task is None && !input.existing_note
            && input.missing_service is Some,
        plan.choice matches RecoveryChoice::MatchingTask { task, .. } ==> Some(task)
            == input.matching_task,
        plan.choice matches RecoveryChoice::MissingService(purpose) ==> Some(purpose)
            == input.missing_service,
        plan.choice matches RecoveryChoice::ExistingNote { can_renew, .. } ==> (can_renew <==>
            !input.reading && input.has_workspace && input.preferences_issue is None),
        plan.cancel <==> input.pending && !input.reading,
        plan.retry ==> input.pending && !input.reading && input.validation && plan.choice is Nothing,
        input.pending && !input.reading && input.validation && input.matching_task is None
            && !input.existing_note && input.missing_service is None ==> plan.retry,
        plan.repair_components <==> (input.environment matches Some(found) && (!found.engine
            || !found.ffmpeg || !found.ffprobe || (input.online && !found.ytdlp))),
        plan.repair_preferences is Some <==> input.preferences_issue is Some,
        plan.reassociate is Some <==> input.needs_reassociation,
        input.preferences_issue matches Some(issue) ==> text_of(plan.message) == Some(
            issue.message@,
        ),
        input.preferences_issue is None && (!input.has_source || input.reading
            || input.needs_attention) ==> plan.message is None,
        input.preferences_issue is None && input.has_source && !input.reading
            && !input.needs_attention ==> text_of(plan.message) == text_of(input.submission_issue),
{
}

/// The files that are written besides the note are named, and nothing is where none is.
pub proof fn the_files_are_named(options: ConversionOptions, summary: Option<String>)
    requires
        call_ensures(export_summary, (&options,), summary),
    ensures
        summary is Some <==> options.formats[0] || options.formats[1] || options.formats[2],
        options.formats[0] && !options.formats[1] && !options.formats[2] ==> summary->0@
            == "Markdown 包"@,
        !options.formats[0] && options.formats[1] && !options.formats[2] ==> summary->0@
            == "网页文件"@,
        !options.formats[0] && !options.formats[1] && options.formats[2] ==> summary->0@
            == "JSON 数据"@,
{
    let names = format_names(options.formats);
    if !options.formats[0] && options.formats[1] && !options.formats[2] {
        assert(names =~= seq!["网页文件"@]);
    }
    if !options.formats[0] && !options.formats[1] && options.formats[2] {
        assert(names =~= seq!["JSON 数据"@]);
    }
    if options.formats[0] && !options.formats[1] && !options.formats[2] {
        assert(names =~= seq!["Markdown 包"@]);
    }
}

/// A new version of a note waits in line while the engine or another task is at work.
pub proof fn a_new_version_waits_in_line(
    input: RecoveryInput,
    tasks: Vec<TaskRecord>,
    plan: RecoveryPlan,
    i: int,
)
    requires
        input.matching_task is None,
        call_ensures(RecoveryInput::conversion_recovery, (&input, &tasks), plan),
        plan.choice is ExistingNote,
    ensures
        input.job ==> plan.choice->queued,
        0 <= i < tasks@.len() && (tasks@[i].state is Queued || tasks@[i].state is Running)
            ==> plan.choice->queued,
        !input.job && tasks@.len() == 0 ==> !plan.choice->queued,
{
    if 0 <= i < tasks@.len() && (tasks@[i].state is Queued || tasks@[i].state is Running) {
        assert(has_work(tasks@));
    }
}

} // verus!
