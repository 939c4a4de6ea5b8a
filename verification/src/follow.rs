//! Which conversion a person is following, and when its result may open by itself.
use crate::input_task::{completed_input_task, current_task, is_readable, only_current};
use crate::text::same;
use crate::workspace::{is_text, text_of, Draft, Operation, Page, TaskRecord};
use vstd::prelude::*;

verus! {

/// A live navigation intent is separate from the saved task. Leaving its
/// originating input or note ends following without cancelling the work.
#[derive(Clone, Debug, PartialEq, Eq)]
pub enum ConversionFollow {
    Preparing(u64),
    Task { id: String, source_revision: u64 },
    ReaderTask { id: String, base_version: String, reader_revision: u64 },
}

/// The task repairs this version of a note and will publish a new one.
pub open spec fn repairs(task: TaskRecord, version: Seq<char>) -> bool {
    task.plan.operation matches Operation::Reprocess { base_version_dir, components, .. }
        && base_version_dir@ == version && components@.len() > 0 && !task.is_exports_only()
}

fn is_repair(task: &TaskRecord, version: &str) -> (result: bool)
    ensures
        result == repairs(*task, version@),
{
    match &task.plan.operation {
        Operation::Reprocess { base_version_dir, components, .. } => same(
            base_version_dir.as_str(),
            version,
        ) && !components.is_empty() && !task.exports_only(),
        Operation::Convert => false,
    }
}

/// The text of an optional string slice.
pub open spec fn slice_of(value: Option<&str>) -> Option<Seq<char>> {
    match value {
        Some(text) => Some(text@),
        None => None,
    }
}

impl ConversionFollow {
    /// Opening a viewer owns the old version until the person closes it. This
    /// intent is not restored afterwards, even if a read is still under way.
    pub fn interrupt_for_reader_viewer(follow: &mut Option<ConversionFollow>)
        ensures
            *final(follow) == (if *old(follow) is Some && old(follow)->0 is ReaderTask {
                None
            } else {
                *old(follow)
            }),
    {
        if matches!(follow, Some(ConversionFollow::ReaderTask { .. })) {
            *follow = None;
        }
    }

    /// The intent after a submission: only the preparation for this revision goes
    /// on to follow the task.
    pub fn submitted(self, revision: u64, id: String) -> (result: Option<ConversionFollow>)
        ensures
            result == (if self == ConversionFollow::Preparing(revision) {
                Some(ConversionFollow::Task { id, source_revision: revision })
            } else {
                None
            }),
    {
        match self {
            ConversionFollow::Preparing(current) if current == revision => Some(
                ConversionFollow::Task { id, source_revision: revision },
            ),
            _ => None,
        }
    }

    /// The given task is followed, for the given revision of the input.
    pub open spec fn is_following(self, id: Seq<char>, revision: u64) -> bool {
        self matches ConversionFollow::Task { id: followed, source_revision } && followed@ == id
            && source_revision == revision
    }

    pub fn follows(&self, id: &str, revision: u64) -> (result: bool)
        ensures
            result == self.is_following(id@, revision),
    {
        match self {
            ConversionFollow::Task { id: followed, source_revision } => same(followed.as_str(), id)
                && *source_revision == revision,
            _ => false,
        }
    }

    /// The intent to wait for the repair of a note that is being read.
    pub fn reader_reprocess(task: &TaskRecord, version: &str, revision: u64) -> (result: Option<
        ConversionFollow,
    >)
        ensures
            result is Some == repairs(*task, version@),
            result matches Some(follow) ==> (follow matches ConversionFollow::ReaderTask {
                id,
                base_version,
                reader_revision,
            } && id@ == task.id@ && base_version@ == version@ && reader_revision == revision),
    {
        if is_repair(task, version) {
            Some(
                ConversionFollow::ReaderTask {
                    id: task.id.clone(),
                    base_version: version.to_owned(),
                    reader_revision: revision,
                },
            )
        } else {
            None
        }
    }

    /// The person is still where the intent began.
    pub open spec fn is_current(
        self,
        page: Page,
        source_revision: u64,
        reader_revision: u64,
        version: Option<Seq<char>>,
    ) -> bool {
        match self {
            ConversionFollow::Preparing(_) => false,
            ConversionFollow::Task { source_revision: expected, .. } => page is New && expected
                == source_revision,
            ConversionFollow::ReaderTask { base_version, reader_revision: expected, .. } => page
                is Result && expected == reader_revision && version == Some(base_version@),
        }
    }

    /// Checked both before an automatic read and after it has loaded.
    pub fn context_is_current(
        &self,
        page: Page,
        source_revision: u64,
        reader_revision: u64,
        version: Option<&str>,
    ) -> (result: bool)
        ensures
            result == self.is_current(page, source_revision, reader_revision, slice_of(version)),
    {
        match self {
            ConversionFollow::Preparing(_) => false,
            ConversionFollow::Task { source_revision: expected, .. } => matches!(page, Page::New)
                && *expected == source_revision,
            ConversionFollow::ReaderTask { base_version, reader_revision: expected, .. } => {
                matches!(page, Page::Result) && *expected == reader_revision && match version {
                    Some(shown) => same(shown, base_version.as_str()),
                    None => false,
                }
            },
        }
    }

    /// The repair that is waited for has published a version of its own, and the
    /// note that it repairs is still open.
    pub open spec fn is_repaired(
        self,
        task: TaskRecord,
        page: Page,
        reader_revision: u64,
        version: Option<Seq<char>>,
    ) -> bool {
        &&& self matches ConversionFollow::ReaderTask { id, base_version, .. } && task.id@ == id@
            && repairs(task, base_version@) && text_of(task.artifact) != Some(base_version@)
        &&& self.is_current(page, 0, reader_revision, version)
        &&& is_readable(task)
    }

    pub fn completed_reader_task(
        &self,
        task: &TaskRecord,
        page: Page,
        reader_revision: u64,
        version: Option<&str>,
    ) -> (result: bool)
        ensures
            result == self.is_repaired(*task, page, reader_revision, slice_of(version)),
    {
        match self {
            ConversionFollow::ReaderTask { id, base_version, .. } => same(
                task.id.as_str(),
                id.as_str(),
            ) && self.context_is_current(page, 0, reader_revision, version) && is_repair(
                task,
                base_version.as_str(),
            ) && task.state.published() && task.artifact.is_some() && !is_text(
                &task.artifact,
                base_version.as_str(),
            ),
            _ => false,
        }
    }

    /// The result that opens by itself: the readable one of the input that is
    /// still followed on the workbench.
    pub fn completed_task<'a>(
        &self,
        on_workbench: bool,
        revision: u64,
        draft: &Draft,
        tasks: &'a [TaskRecord],
        input: &str,
    ) -> (result: Option<&'a TaskRecord>)
        ensures
            match result {
                Some(task) => on_workbench && self.is_following(task.id@, revision) && is_readable(
                    *task,
                ) && exists|i: int|
                    current_task(*draft, tasks@, input@, i) && *task == #[trigger] tasks@[i],
                None => forall|i: int|
                    current_task(*draft, tasks@, input@, i) && is_readable(#[trigger] tasks@[i])
                        ==> !(on_workbench && self.is_following(tasks@[i].id@, revision)),
            },
    {
        match completed_input_task(draft, tasks, input) {
            Some(task) => {
                if on_workbench && self.follows(task.id.as_str(), revision) {
                    Some(task)
                } else {
                    proof {
                        crate::input_task::only_current(*draft, tasks@, input@, *task);
                    }
                    None
                }
            },
            None => None,
        }
    }
}

/// An intent that was interrupted by a viewer never counts as a finished repair.
pub proof fn only_repairs_are_interrupted(follow: ConversionFollow, id: Seq<char>, revision: u64)
    ensures
        follow is ReaderTask ==> !follow.is_following(id, revision),
        follow.is_following(id, revision) ==> follow is Task,
{
}

/// A preparation is never current: nothing opens before its task was submitted.
pub proof fn preparation_opens_nothing(
    revision: u64,
    page: Page,
    source_revision: u64,
    reader_revision: u64,
    version: Option<Seq<char>>,
)
    ensures
        !ConversionFollow::Preparing(revision).is_current(
            page,
            source_revision,
            reader_revision,
            version,
        ),
{
}

/// A repair opens at most once the reader shows it: after the reader has moved on
/// to another read, the intent is no longer current.
pub proof fn a_new_read_ends_following(
    follow: ConversionFollow,
    task: TaskRecord,
    page: Page,
    revision: u64,
    version: Option<Seq<char>>,
)
    requires
        follow is ReaderTask,
        follow.is_repaired(task, page, revision, version),
    ensures
        forall|other: u64| other != revision ==> !follow.is_repaired(task, page, other, version),
        forall|elsewhere: Page|
            elsewhere != page ==> !follow.is_repaired(task, elsewhere, revision, version),
{
}

// -------------------------------------------------------- what opens by itself

/// What was prepared for an input is followed once its task is submitted, for that input
/// and that task alone. Anything else is followed no more.
pub proof fn a_submitted_task_is_followed(
    before: ConversionFollow,
    revision: u64,
    id: String,
    after: Option<ConversionFollow>,
    other: &str,
    later: u64,
    follows: bool,
)
    requires
        call_ensures(ConversionFollow::submitted, (before, revision, id), after),
        after is Some ==> call_ensures(ConversionFollow::follows, (&after->0, other, later), follows),
    ensures
        after is Some <==> before == ConversionFollow::Preparing(revision),
        after is Some ==> (follows <==> other@ == id@ && later == revision),
{
}

/// A result opens by itself only on the workbench, for the task that is followed, once the
/// task of the input can be read; and then it does.
pub proof fn a_followed_result_opens(
    follow: ConversionFollow,
    on_workbench: bool,
    revision: u64,
    draft: Draft,
    tasks: &[TaskRecord],
    input: &str,
    readable: Option<&TaskRecord>,
    opened: Option<&TaskRecord>,
)
    requires
        call_ensures(completed_input_task, (&draft, tasks, input), readable),
        call_ensures(
            ConversionFollow::completed_task,
            (&follow, on_workbench, revision, &draft, tasks, input),
            opened,
        ),
    ensures
        opened is Some <==> on_workbench && readable is Some && (
        follow matches ConversionFollow::Task { id, source_revision } && id@ == readable->0.id@
            && source_revision == revision),
        opened is Some ==> *opened->0 == *readable->0,
{
    if readable is Some {
        only_current(draft, tasks@, input@, *readable->0);
        let i = choose|i: int|
            current_task(draft, tasks@, input@, i) && *readable->0 == #[trigger] tasks@[i];
        assert(is_readable(tasks@[i]));
    }
    if opened is Some {
        only_current(draft, tasks@, input@, *opened->0);
        let i = choose|i: int|
            current_task(draft, tasks@, input@, i) && *opened->0 == #[trigger] tasks@[i];
        assert(is_readable(tasks@[i]));
    }
}

/// A repair of the version that is read is followed where it makes something of the note
/// anew; files beside the note are no repair.
pub proof fn a_repair_is_followed(
    task: TaskRecord,
    version: &str,
    revision: u64,
    follow: Option<ConversionFollow>,
)
    requires
        call_ensures(ConversionFollow::reader_reprocess, (&task, version, revision), follow),
    ensures
        task.plan.operation is Convert ==> follow is None,
        task.plan.operation matches Operation::Reprocess { base_version_dir, components, .. } ==> {
            &&& base_version_dir@ != version@ ==> follow is None
            &&& components@.len() == 0 ==> follow is None
            &&& (forall|i: int|
                0 <= i < components@.len() ==> (#[trigger] components@[i])@ == "exports"@) ==> follow
                is None
            &&& base_version_dir@ == version@ && (exists|i: int|
                0 <= i < components@.len() && (#[trigger] components@[i])@ != "exports"@) ==> follow
                is Some
        },
        follow is Some ==> (follow->0 matches ConversionFollow::ReaderTask {
            id,
            base_version,
            reader_revision,
        } && id@ == task.id@ && base_version@ == version@ && reader_revision == revision),
{
}

/// What a repair made opens while the version it was made from is still the one that is
/// read, in the same read of it; never in place of itself, and never before it can be
/// read.
pub proof fn a_repaired_version_opens(
    follow: ConversionFollow,
    task: TaskRecord,
    page: Page,
    revision: u64,
    version: Option<&str>,
    opens: bool,
)
    requires
        call_ensures(
            ConversionFollow::completed_reader_task,
            (&follow, &task, page, revision, version),
            opens,
        ),
    ensures
        !(follow is ReaderTask) ==> !opens,
        !(page is Result) ==> !opens,
        !(task.state is Complete || task.state is Partial) ==> !opens,
        task.artifact is None ==> !opens,
        version is None ==> !opens,
        follow matches ConversionFollow::ReaderTask { id, base_version, reader_revision } ==> {
            &&& id@ != task.id@ || reader_revision != revision ==> !opens
            &&& version is Some && version->0@ != base_version@ ==> !opens
            &&& text_of(task.artifact) == Some(base_version@) ==> !opens
        },
        opens ==> task.plan.operation is Reprocess,
{
}

/// A repair that can be read opens where nothing has changed since it was asked for.
pub proof fn a_finished_repair_opens(
    follow: ConversionFollow,
    asked: TaskRecord,
    task: TaskRecord,
    revision: u64,
    version: &str,
    opens: bool,
)
    requires
        call_ensures(ConversionFollow::reader_reprocess, (&asked, version, revision), Some(follow)),
        call_ensures(
            ConversionFollow::completed_reader_task,
            (&follow, &task, Page::Result, revision, Some(version)),
            opens,
        ),
        task.id@ == asked.id@,
        task.plan == asked.plan,
        task.state is Complete || task.state is Partial,
        task.artifact is Some && task.artifact->0@ != version@,
    ensures
        opens,
{
}

/// What is followed counts only where the person still is: a task on the workbench with the
/// input it was made from, a repair in the reader with the version it repairs.
pub proof fn following_ends_elsewhere(
    follow: ConversionFollow,
    page: Page,
    source_revision: u64,
    reader_revision: u64,
    version: Option<&str>,
    current: bool,
)
    requires
        call_ensures(
            ConversionFollow::context_is_current,
            (&follow, page, source_revision, reader_revision, version),
            current,
        ),
    ensures
        follow is Preparing ==> !current,
        follow matches ConversionFollow::Task { source_revision: own, .. } ==> (current <==> page
            is New && own == source_revision),
        follow matches ConversionFollow::ReaderTask { base_version, reader_revision: own, .. } ==> (
        current <==> page is Result && own == reader_revision && version is Some && version->0@
            == base_version@),
{
}

/// Looking at a picture ends the following of a repair, and of nothing else.
pub proof fn a_viewer_ends_a_repair(follow: &mut Option<ConversionFollow>)
    requires
        call_ensures(ConversionFollow::interrupt_for_reader_viewer, (follow,), ()),
    ensures
        is_repair_of_reader(*old(follow)) ==> *final(follow) is None,
        !is_repair_of_reader(*old(follow)) ==> *final(follow) == *old(follow),
{
}

/// A repair of the version that is read is followed.
pub open spec fn is_repair_of_reader(follow: Option<ConversionFollow>) -> bool {
    follow is Some && follow->0 is ReaderTask
}

} // verus!
