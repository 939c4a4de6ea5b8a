//! Exports of folders, from the person's side: when one begins, what its worker
//! reports, and what is told of it at the end.
use crate::folder_export::{
    classify_failure, error_cause, export_failure, failure_text, feedback_text, tone_of,
    ExportFailure, Failure, Feedback, FeedbackTone, FolderKey, Pending, Report, Snapshot, State,
};
use crate::table::{Key, Table};
use crate::text::{decimal, number, texts};
use crate::workbench::next_generation;
use crate::workspace::text_of;
use vstd::prelude::*;
use vstd::string::*;

verus! {

/// What the worker of an export reports.
pub enum WorkerEvent {
    Started { folder_name: String, total: usize },
    Advanced(usize),
    Finished { folder_name: String, result: Result<Report, String> },
}

/// The worker reports that an export has begun.
pub open spec fn is_begun(event: WorkerEvent, name: Seq<char>, count: nat) -> bool {
    event matches WorkerEvent::Started { folder_name, total } && folder_name@ == name && total
        == count
}

/// The worker reports that an export could not be carried out.
pub open spec fn is_failed(event: WorkerEvent, name: Seq<char>, failure: ExportFailure) -> bool {
    event matches WorkerEvent::Finished { folder_name, result: Err(told) } && folder_name@ == name
        && told@ == failure_text(failure)
}

/// How the worker of an export begins: what it reports at once, and whether notes are
/// written then.
pub struct WorkerStart {
    pub events: Vec<WorkerEvent>,
    pub exports: bool,
}

/// The worker begins, where `snapshot` is what could be read of the folder and
/// `initial_name` how the folder was called when the export was asked for. It ends at
/// once where the folder could not be read or holds no notes.
pub fn worker_start(initial_name: &str, snapshot: Option<&Snapshot>) -> (result: WorkerStart)
    ensures
        match snapshot {
            None => {
                &&& !result.exports
                &&& result.events@.len() == 1
                &&& is_failed(result.events@[0], initial_name@, ExportFailure::Unreadable)
            },
            Some(own) => {
                let count = own.notes@.len();
                &&& result.exports == (count > 0)
                &&& result.events@.len() == (if count > 0 {
                    1int
                } else {
                    2int
                })
                &&& is_begun(result.events@[0], own.folder_name@, count)
                &&& count == 0 ==> is_failed(
                    result.events@[1],
                    own.folder_name@,
                    ExportFailure::Empty,
                )
            },
        },
{
    let mut events: Vec<WorkerEvent> = Vec::new();
    match snapshot {
        None => {
            events.push(
                WorkerEvent::Finished {
                    folder_name: initial_name.to_owned(),
                    result: Err(export_failure(ExportFailure::Unreadable).to_owned()),
                },
            );
            WorkerStart { events, exports: false }
        },
        Some(own) => {
            let total: usize = own.notes.len();
            events.push(WorkerEvent::Started { folder_name: own.folder_name.clone(), total });
            if total == 0 {
                events.push(
                    WorkerEvent::Finished {
                        folder_name: own.folder_name.clone(),
                        result: Err(export_failure(ExportFailure::Empty).to_owned()),
                    },
                );
            }
            WorkerStart { events, exports: total > 0 }
        },
    }
}

/// The worker has ended: its report, or what a person is told where an error stopped
/// it.
pub fn worker_end(snapshot: &Snapshot, outcome: Result<Report, String>) -> (result: WorkerEvent)
    ensures
        match outcome {
            Ok(report) => result matches WorkerEvent::Finished { folder_name, result: Ok(told) }
                && folder_name@ == snapshot.folder_name@ && told == report,
            Err(error) => is_failed(result, snapshot.folder_name@, error_cause(error@)),
        },
{
    WorkerEvent::Finished {
        folder_name: snapshot.folder_name.clone(),
        result: match outcome {
            Ok(report) => Ok(report),
            Err(error) => Err(export_failure(classify_failure(error.as_str())).to_owned()),
        },
    }
}

impl State {
    /// Begins the export of a folder, where it holds notes, its library can be
    /// reached and no other export is under way.
    pub fn begin_folder_export(
        &mut self,
        key: FolderKey,
        folders: &Table<u64, String>,
        count: usize,
        online: bool,
    ) -> (result: Option<u64>)
        requires
            old(self).wf(),
            folders.wf(),
        ensures
            final(self).wf(),
            result is Some == (count > 0 && online && old(self).pending is None),
            result is None ==> *final(self) == *old(self),
            result matches Some(generation) ==> {
                &&& generation == next_generation(old(self).generation)
                &&& final(self).generation == generation
                &&& final(self).pending matches Some(pending) && {
                    &&& pending == (Pending {
                        generation,
                        key,
                        folder_name: pending.folder_name,
                        completed: 0,
                        total: None,
                    })
                    &&& pending.folder_name@ == (if folders.map().contains_key(key.folder_id) {
                        folders.map()[key.folder_id]@
                    } else {
                        "文件夹"@
                    })
                }
                &&& final(self).feedback.map() == old(self).feedback.map().remove(key.id())
                &&& final(self).details_open.map() == old(self).details_open.map().remove(key.id())
            },
    {
        if count == 0 || !online {
            return None;
        }
        let folder_name = match folders.get(&key.folder_id) {
            Some(name) => name.clone(),
            None => "文件夹".to_owned(),
        };
        self.begin(key, folder_name)
    }

    /// No place to export to could be chosen: the export ends, and the person is told.
    pub fn picker_failed(&mut self, generation: u64, key: &FolderKey) -> (result: bool)
        requires
            old(self).wf(),
        ensures
            final(self).wf(),
            result == old(self).is_under_way(generation, *key),
            !result ==> *final(self) == *old(self),
            result ==> {
                &&& *final(self) == (State {
                    pending: None,
                    feedback: final(self).feedback,
                    ..*old(self)
                })
                &&& final(self).feedback.map().dom() == old(self).feedback.map().dom().insert(
                    key.id(),
                )
                &&& final(self).feedback.map().remove(key.id()) == old(self).feedback.map().remove(
                    key.id(),
                )
                &&& final(self).feedback.map()[key.id()].folder_name@
                    == old(self).pending->0.folder_name@
                &&& final(self).feedback.map()[key.id()].result matches Err(message) && message@
                    == "无法打开目录选择器，请重试。"@
            },
    {
        let folder_name = match &self.pending {
            Some(pending) => pending.folder_name.clone(),
            None => "文件夹".to_owned(),
        };
        let feedback = Feedback {
            folder_name,
            result: Err(export_failure(ExportFailure::NoChooser).to_owned()),
        };
        let counted = self.finish(generation, key, feedback);
        proof {
            if counted {
                let before = old(self).feedback.map();
                assert(before.insert(key.id(), feedback).remove(key.id()) =~= before.remove(
                    key.id(),
                ));
            }
        }
        counted
    }

    /// Takes a report of the worker, where its export is still the one under way.
    /// Says whether it counted.
    pub fn take(&mut self, generation: u64, key: &FolderKey, event: WorkerEvent) -> (result: bool)
        requires
            old(self).wf(),
        ensures
            final(self).wf(),
            result == old(self).is_under_way(generation, *key),
            !result ==> *final(self) == *old(self),
            result ==> match event {
                WorkerEvent::Started { folder_name, total } => *final(self) == (State {
                    pending: Some(
                        Pending { folder_name, total: Some(total), ..old(self).pending->0 },
                    ),
                    ..*old(self)
                }),
                WorkerEvent::Advanced(completed) => *final(self) == (State {
                    pending: Some(Pending { completed, ..old(self).pending->0 }),
                    ..*old(self)
                }),
                WorkerEvent::Finished { folder_name, result } => {
                    &&& final(self).feedback.map() == old(self).feedback.map().insert(
                        key.id(),
                        Feedback { folder_name, result },
                    )
                    &&& *final(self) == (State {
                        pending: None,
                        feedback: final(self).feedback,
                        ..*old(self)
                    })
                },
            },
    {
        match event {
            WorkerEvent::Started { folder_name, total } => self.start_progress(
                generation,
                key,
                folder_name,
                total,
            ),
            WorkerEvent::Advanced(completed) => self.advance(generation, key, completed),
            WorkerEvent::Finished { folder_name, result } => self.finish(
                generation,
                key,
                Feedback { folder_name, result },
            ),
        }
    }
}

// ------------------------------------------------------------------------ feedback

/// What is told at the end of an export.
pub struct FeedbackView {
    pub id: String,
    pub tone: FeedbackTone,
    pub label: String,
    /// The directory that was written, and can be opened.
    pub output: Option<String>,
    pub can_retry: bool,
    pub retry_disabled: bool,
    /// The label of the button that opens the details.
    pub details_toggle: Option<&'static str>,
    /// One line for each note that was not exported, while the details are open.
    pub details: Vec<String>,
}

/// One line for each note that was not exported.
pub open spec fn failure_lines(failures: Seq<Failure>) -> Seq<Seq<char>> {
    Seq::new(
        failures.len(),
        |i: int| "《"@ + failures[i].title@ + "》："@ + failures[i].reason@,
    )
}

fn lines_of(failures: &Vec<Failure>) -> (result: Vec<String>)
    ensures
        texts(result@) == failure_lines(failures@),
{
    let mut result: Vec<String> = Vec::new();
    let mut i: usize = 0;
    while i < failures.len()
        invariant
            i <= failures@.len(),
            result@.len() == i,
            forall|j: int|
                0 <= j < i ==> (#[trigger] result@[j])@ == "《"@ + failures@[j].title@ + "》："@
                    + failures@[j].reason@,
        decreases failures@.len() - i,
    {
        let mut line = "《".to_owned();
        line.append(failures[i].title.as_str());
        line.append("》：");
        line.append(failures[i].reason.as_str());
        result.push(line);
        i += 1;
    }
    assert(texts(result@) =~= failure_lines(failures@));
    result
}

impl State {
    /// What is told of the last export of a folder.
    pub open spec fn shows_feedback(self, key: FolderKey, view: FeedbackView) -> bool {
        let feedback = self.feedback.map()[key.id()];
        let failures = match feedback.result {
            Ok(report) => report.failures@,
            Err(_) => Seq::empty(),
        };
        let open = self.details_open.map().contains_key(key.id());
        &&& view.id@ == "folder-export:"@ + key.library_id@ + ":"@ + decimal(key.folder_id as nat)
        &&& view.tone == tone_of(feedback)
        &&& view.label@ == feedback_text(feedback)
        &&& text_of(view.output) == (match feedback.result {
            Ok(report) => text_of(report.output),
            Err(_) => None,
        })
        &&& view.can_retry == (feedback.result is Err || failures.len() > 0)
        &&& view.retry_disabled == self.pending is Some
        &&& match view.details_toggle {
            Some(label) => failures.len() > 0 && label@ == (if open {
                "收起详情"@
            } else {
                "查看详情"@
            }),
            None => failures.len() == 0,
        }
        &&& texts(view.details@) == (if open {
            failure_lines(failures)
        } else {
            Seq::empty()
        })
    }

    /// What is told of the last export of the folder that is shown, until a person
    /// has read it. `key` is the folder's; there is none where no folder is shown.
    pub fn folder_export_feedback(&self, key: &FolderKey) -> (result: Option<FeedbackView>)
        requires
            self.wf(),
        ensures
            match result {
                Some(view) => key.folder_id != 0 && self.feedback.map().contains_key(key.id())
                    && self.shows_feedback(*key, view),
                None => key.folder_id == 0 || !self.feedback.map().contains_key(key.id()),
            },
    {
        if key.folder_id == 0 {
            return None;
        }
        let feedback = match self.feedback.get(key) {
            Some(feedback) => feedback,
            None => {
                return None;
            },
        };
        let open = self.details_open.contains(key);
        let mut id = "folder-export:".to_owned();
        id.append(key.library_id.as_str());
        id.append(":");
        id.append(number(key.folder_id).as_str());
        let output = match &feedback.result {
            Ok(report) => match &report.output {
                Some(path) => Some(path.clone()),
                None => None,
            },
            Err(_) => None,
        };
        let details = match &feedback.result {
            Ok(report) => {
                if open {
                    lines_of(&report.failures)
                } else {
                    Vec::new()
                }
            },
            Err(_) => Vec::new(),
        };
        proof {
            if details@.len() == 0 {
                assert(texts(details@) =~= Seq::empty());
                assert(failure_lines(Seq::empty()) =~= Seq::empty());
            }
        }
        Some(
            FeedbackView {
                id,
                tone: feedback.tone(),
                label: feedback.label(),
                output,
                can_retry: feedback.can_retry(),
                retry_disabled: self.pending.is_some(),
                details_toggle: if feedback.has_details() {
                    Some(
                        if open {
                            "收起详情"
                        } else {
                            "查看详情"
                        },
                    )
                } else {
                    None
                },
                details,
            },
        )
    }
}

/// Where an export can be tried again, something was left out; where everything was
/// exported, nothing has to be.
pub proof fn a_retry_has_a_reason(state: State, key: FolderKey, view: FeedbackView)
    requires
        state.shows_feedback(key, view),
    ensures
        view.tone is Success ==> !view.can_retry,
        view.tone is Warning ==> view.can_retry,
{
}

/// An export begins exactly where its button can be pressed.
pub proof fn a_button_that_can_be_pressed_begins(
    state: &mut State,
    key: FolderKey,
    folders: Table<u64, String>,
    count: usize,
    online: bool,
    begun: Option<u64>,
    button: crate::folder_export::ExportButton,
)
    requires
        old(state).wf(),
        folders.wf(),
        call_ensures(State::folder_export_button, (&*old(state), &key, count, online), button),
        call_ensures(State::begin_folder_export, (state, key, &folders, count, online), begun),
    ensures
        begun is Some <==> !button.disabled,
        begun is Some ==> final(state).is_under_way(begun->0, key) && final(
            state).pending->0.completed == 0 && final(state).pending->0.total is None,
        begun is Some && folders.map().contains_key(key.folder_id) ==> final(
            state).pending->0.folder_name@ == folders.map()[key.folder_id]@,
        begun is None ==> *final(state) == *old(state),
{
}

/// What the worker reports is shown of its export: how many notes there are, how far it is, and
/// how it ended; a report of another export changes nothing.
pub proof fn a_report_is_shown_of_its_export(
    state: &mut State,
    generation: u64,
    key: FolderKey,
    event: WorkerEvent,
    counted: bool,
)
    requires
        old(state).wf(),
        call_ensures(State::take, (state, generation, &key, event), counted),
    ensures
        counted <==> (old(state).pending matches Some(pending) && pending.generation == generation
            && pending.key.id() == key.id()),
        !counted ==> *final(state) == *old(state),
        counted && event is Started ==> final(state).pending->0.total == Some(event->total)
            && final(state).pending->0.completed == old(state).pending->0.completed,
        counted && event is Advanced ==> final(state).pending->0.completed == event->Advanced_0
            && final(state).pending->0.total == old(state).pending->0.total,
        counted && !(event is Finished) ==> final(state).pending is Some && final(state).feedback
            == old(state).feedback,
        counted && event is Finished ==> final(state).pending is None && final(
            state).feedback.map().contains_key(key.id()) && final(
            state).feedback.map()[key.id()].result == event->result,
{
}

/// A worker that could not read its folder, or found nothing in it, has failed and writes
/// nothing; any other reports how many notes there are and goes on. It ends with its report, or
/// with what went wrong.
pub proof fn a_worker_reports_what_it_does(
    name: &str,
    snapshot: Option<&Snapshot>,
    start: WorkerStart,
    outcome: Result<Report, String>,
    end: WorkerEvent,
)
    requires
        call_ensures(worker_start, (name, snapshot), start),
        snapshot is Some ==> call_ensures(worker_end, (snapshot->0, outcome), end),
    ensures
        start.exports <==> snapshot is Some && snapshot->0.notes@.len() > 0,
        start.events@.len() > 0,
        !start.exports ==> start.events@.last() is Finished && start.events@.last()->result is Err,
        snapshot is Some ==> start.events@[0] is Started && start.events@[0]->total
            == snapshot->0.notes@.len(),
        start.exports ==> start.events@.len() == 1,
        snapshot is Some ==> end is Finished && (end->result is Ok <==> outcome is Ok),
        snapshot is Some && outcome is Ok ==> end->result->Ok_0 == outcome->Ok_0,
{
}

/// What is told of an export is told beside its folder: every failure in the details once they
/// are open, and the directory that was written.
pub proof fn feedback_is_shown_of_its_folder(
    state: State,
    key: FolderKey,
    view: Option<FeedbackView>,
    i: int,
)
    requires
        state.wf(),
        call_ensures(State::folder_export_feedback, (&state, &key), view),
    ensures
        view is Some <==> key.folder_id != 0 && state.feedback.map().contains_key(key.id()),
        view matches Some(shown) ==> {
            let result = state.feedback.map()[key.id()].result;
            &&& shown.retry_disabled <==> state.pending is Some
            &&& result is Err ==> shown.can_retry && shown.details@.len() == 0 && shown.output
                is None
            &&& result matches Ok(report) ==> {
                &&& text_of(shown.output) == text_of(report.output)
                &&& shown.can_retry <==> report.failures@.len() > 0
                &&& shown.details_toggle is Some <==> report.failures@.len() > 0
                &&& state.details_open.map().contains_key(key.id()) ==> shown.details@.len()
                    == report.failures@.len()
                &&& !state.details_open.map().contains_key(key.id()) ==> shown.details@.len() == 0
                &&& state.details_open.map().contains_key(key.id()) && 0 <= i
                    < report.failures@.len() ==> shown.details@[i]@ == "《"@
                    + report.failures@[i].title@ + "》："@ + report.failures@[i].reason@
            }
        },
{
    if let Some(shown) = view {
        let told = texts(shown.details@);
        assert(told.len() == shown.details@.len());
        if 0 <= i < shown.details@.len() {
            assert(told[i] == shown.details@[i]@);
        }
    }
}

/// A chooser that could not be opened is told of the export that asked for it, which can be
/// tried again.
pub proof fn a_failed_chooser_is_told(
    state: &mut State,
    generation: u64,
    key: FolderKey,
    counted: bool,
)
    requires
        old(state).wf(),
        call_ensures(State::picker_failed, (state, generation, &key), counted),
    ensures
        counted ==> final(state).pending is None && final(state).feedback.map().contains_key(
            key.id(),
        ) && final(state).feedback.map()[key.id()].result is Err,
        !counted ==> *final(state) == *old(state),
        old(state).pending is None ==> !counted,
{
    if counted {
        assert(final(state).feedback.map().dom().contains(key.id()));
    }
}

} // verus!
