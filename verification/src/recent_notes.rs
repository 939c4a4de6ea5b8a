//! The recent notes on the workbench: tasks that need attention first, then notes
//! that can be read.
use crate::notes::Course;
use crate::text::{blank, is_blank, join_all, joined, same, slices};
use crate::workspace::{is_text, text_of, TaskRecord, TaskState};
use vstd::prelude::*;
use vstd::string::*;

verus! {

/// The task waits for a person: it is not the one that the workbench shows, nobody
/// took it over, and it is held up or its result is incomplete.
pub open spec fn needs_attention(
    task: TaskRecord,
    failures: nat,
    linked: Option<Seq<char>>,
) -> bool {
    &&& linked != Some(task.id@)
    &&& task.handled_by is None
    &&& task.state is NeedsAttention || task.state is Uncertain || task.state is Paused || (
    task.state is Partial && task.artifact is Some && failures > 0)
}

fn waits(task: &TaskRecord, failures: usize, linked: &Option<String>) -> (result: bool)
    ensures
        result == needs_attention(*task, failures as nat, text_of(*linked)),
{
    !is_text(linked, task.id.as_str()) && task.handled_by.is_none() && (matches!(
        task.state,
        TaskState::NeedsAttention | TaskState::Uncertain | TaskState::Paused
    ) || (matches!(task.state, TaskState::Partial) && task.artifact.is_some() && failures > 0))
}

/// `list` with the task at `i` placed before the first that was updated earlier.
pub open spec fn placed_by_update(tasks: Seq<TaskRecord>, list: Seq<usize>, i: usize) -> Seq<usize>
    decreases list.len(),
{
    if list.len() == 0 {
        seq![i]
    } else if tasks[list[0] as int].updated < tasks[i as int].updated {
        seq![i] + list
    } else {
        seq![list[0]] + placed_by_update(tasks, list.skip(1), i)
    }
}

/// The tasks among the first `n` that wait for a person, the last updated first;
/// equal ones keep their order.
pub open spec fn waiting(
    tasks: Seq<TaskRecord>,
    failures: Seq<usize>,
    linked: Option<Seq<char>>,
    n: nat,
) -> Seq<usize>
    decreases n,
{
    if n == 0 {
        Seq::empty()
    } else {
        let before = waiting(tasks, failures, linked, (n - 1) as nat);
        if needs_attention(tasks[n - 1], failures[n - 1] as nat, linked) {
            placed_by_update(tasks, before, (n - 1) as usize)
        } else {
            before
        }
    }
}

/// The tasks that are shown: at most two.
pub open spec fn attention(
    tasks: Seq<TaskRecord>,
    failures: Seq<usize>,
    linked: Option<Seq<char>>,
) -> Seq<usize> {
    let all = waiting(tasks, failures, linked, tasks.len());
    if all.len() > 2 {
        all.take(2)
    } else {
        all
    }
}

proof fn placed_at(tasks: Seq<TaskRecord>, list: Seq<usize>, i: usize, at: int)
    requires
        0 <= at <= list.len(),
        forall|j: int|
            0 <= j < at ==> tasks[(#[trigger] list[j]) as int].updated >= tasks[i as int].updated,
        at < list.len() ==> tasks[list[at] as int].updated < tasks[i as int].updated,
    ensures
        placed_by_update(tasks, list, i) == list.insert(at, i),
    decreases list.len(),
{
    if list.len() == 0 {
        assert(list.insert(at, i) =~= seq![i]);
    } else if at == 0 {
        assert(list.insert(0, i) =~= seq![i] + list);
    } else {
        let rest = list.skip(1);
        assert forall|j: int| 0 <= j < at - 1 implies tasks[(#[trigger] rest[j]) as int].updated
            >= tasks[i as int].updated by {
            assert(rest[j] == list[j + 1]);
        }
        assert(tasks[list[0] as int].updated >= tasks[i as int].updated);
        placed_at(tasks, rest, i, at - 1);
        assert(list.insert(at, i) =~= seq![list[0]] + rest.insert(at - 1, i));
    }
}

/// The places of the tasks that are shown. `failures` gives for each task the
/// number of parts that its result lacks.
pub fn attention_tasks(tasks: &Vec<TaskRecord>, failures: &Vec<usize>, linked: &Option<String>) -> (result:
    Vec<usize>)
    requires
        failures@.len() == tasks@.len(),
    ensures
        result@ == attention(tasks@, failures@, text_of(*linked)),
        forall|k: int| 0 <= k < result@.len() ==> (#[trigger] result@[k]) < tasks@.len(),
{
    let mut list: Vec<usize> = Vec::new();
    let mut i: usize = 0;
    while i < tasks.len()
        invariant
            i <= tasks@.len(),
            failures@.len() == tasks@.len(),
            list@ == waiting(tasks@, failures@, text_of(*linked), i as nat),
            forall|k: int| 0 <= k < list@.len() ==> (#[trigger] list@[k]) < tasks@.len(),
        decreases tasks@.len() - i,
    {
        if waits(&tasks[i], failures[i], linked) {
            let mut at: usize = 0;
            while at < list.len() && tasks[list[at]].updated >= tasks[i].updated
                invariant
                    at <= list@.len(),
                    i < tasks@.len(),
                    forall|k: int| 0 <= k < list@.len() ==> (#[trigger] list@[k]) < tasks@.len(),
                    forall|j: int|
                        0 <= j < at ==> tasks@[(#[trigger] list@[j]) as int].updated
                            >= tasks@[i as int].updated,
                decreases list@.len() - at,
            {
                at += 1;
            }
            proof {
                placed_at(tasks@, list@, i, at as int);
            }
            let ghost before = list@;
            list.insert(at, i);
            assert forall|k: int| 0 <= k < list@.len() implies (#[trigger] list@[k])
                < tasks@.len() by {
                if k < at {
                    assert(list@[k] == before[k]);
                } else if k > at {
                    assert(list@[k] == before[k - 1]);
                }
            }
        }
        i += 1;
    }
    if list.len() > 2 {
        let ghost all = list@;
        list.truncate(2);
        assert(list@ =~= all.take(2));
    }
    list
}

/// One of the shown tasks made this note.
pub open spec fn is_result_of(
    tasks: Seq<TaskRecord>,
    shown: Seq<usize>,
    dir: Seq<char>,
) -> bool {
    exists|k: int|
        0 <= k < shown.len() && text_of(tasks[(#[trigger] shown[k]) as int].artifact) == Some(dir)
}

/// The places of notes among the first `n` that no shown task made.
pub open spec fn other_notes(
    courses: Seq<Course>,
    tasks: Seq<TaskRecord>,
    shown: Seq<usize>,
    n: nat,
) -> Seq<usize>
    decreases n,
{
    if n == 0 {
        Seq::empty()
    } else {
        let before = other_notes(courses, tasks, shown, (n - 1) as nat);
        if is_result_of(tasks, shown, courses[n - 1].dir@) {
            before
        } else {
            before.push((n - 1) as usize)
        }
    }
}

fn made_by(tasks: &Vec<TaskRecord>, shown: &Vec<usize>, dir: &str) -> (result: bool)
    requires
        forall|k: int| 0 <= k < shown@.len() ==> (#[trigger] shown@[k]) < tasks@.len(),
    ensures
        result == is_result_of(tasks@, shown@, dir@),
{
    let mut k: usize = 0;
    while k < shown.len()
        invariant
            k <= shown@.len(),
            forall|j: int| 0 <= j < shown@.len() ==> (#[trigger] shown@[j]) < tasks@.len(),
            forall|j: int|
                0 <= j < k ==> text_of(tasks@[(#[trigger] shown@[j]) as int].artifact) != Some(dir@),
        decreases shown@.len() - k,
    {
        let place = shown[k];
        assert(shown@[k as int] == place);
        if is_text(&tasks[place].artifact, dir) {
            return true;
        }
        k += 1;
    }
    false
}

/// The places of the notes that are shown: the first five that no shown task made.
pub fn recent_notes(courses: &Vec<Course>, tasks: &Vec<TaskRecord>, shown: &Vec<usize>) -> (result:
    Vec<usize>)
    requires
        forall|k: int| 0 <= k < shown@.len() ==> (#[trigger] shown@[k]) < tasks@.len(),
    ensures
        ({
            let all = other_notes(courses@, tasks@, shown@, courses@.len());
            result@ == (if all.len() > 5 {
                all.take(5)
            } else {
                all
            })
        }),
{
    let mut list: Vec<usize> = Vec::new();
    let mut i: usize = 0;
    while i < courses.len() && list.len() < 5
        invariant
            i <= courses@.len(),
            list@.len() <= 5,
            forall|j: int| 0 <= j < shown@.len() ==> (#[trigger] shown@[j]) < tasks@.len(),
            list@ == other_notes(courses@, tasks@, shown@, i as nat),
        decreases courses@.len() - i,
    {
        if !made_by(tasks, shown, courses[i].dir.as_str()) {
            list.push(i);
        }
        i += 1;
    }
    proof {
        other_notes_begin(courses@, tasks@, shown@, i as nat, courses@.len());
        let all = other_notes(courses@, tasks@, shown@, courses@.len());
        if all.len() > 5 {
            assert(list@ =~= all.take(5));
        } else {
            assert(list@ =~= all);
        }
    }
    list
}

proof fn other_notes_begin(
    courses: Seq<Course>,
    tasks: Seq<TaskRecord>,
    shown: Seq<usize>,
    n: nat,
    m: nat,
)
    requires
        n <= m,
    ensures
        other_notes(courses, tasks, shown, n).len() <= other_notes(courses, tasks, shown, m).len(),
        other_notes(courses, tasks, shown, m).take(
            other_notes(courses, tasks, shown, n).len() as int,
        ) == other_notes(courses, tasks, shown, n),
        n == m ==> other_notes(courses, tasks, shown, n) == other_notes(courses, tasks, shown, m),
    decreases m,
{
    let short = other_notes(courses, tasks, shown, n);
    let long = other_notes(courses, tasks, shown, m);
    if n == m {
        assert(long.take(short.len() as int) =~= short);
    } else {
        other_notes_begin(courses, tasks, shown, n, (m - 1) as nat);
        let before = other_notes(courses, tasks, shown, (m - 1) as nat);
        assert(long.take(short.len() as int) =~= before.take(short.len() as int));
    }
}

/// What is offered for a task that waits.
#[derive(Clone, Debug, PartialEq, Eq)]
pub enum RecentAction {
    /// Repair the service and make what is missing.
    Repair,
    /// Make what is missing; the text is the button's.
    Retry(&'static str),
    Resume,
    View,
}

/// A request of the task may or may not have been carried out.
pub open spec fn is_uncertain(task: TaskRecord) -> bool {
    task.state is Uncertain || task.has_uncertain_request()
}

/// The label for making what is missing.
pub open spec fn retry_label(components: Seq<String>) -> Seq<char> {
    if components.len() != 1 {
        "补全未完成部分"@
    } else if components[0]@ == "screenshots"@ {
        "补生成截图"@
    } else if components[0]@ == "proofreading"@ {
        "重试 AI 校对"@
    } else if components[0]@ == "summary"@ {
        "补生成摘要"@
    } else if components[0]@ == "exports"@ {
        "仅补导出"@
    } else {
        "补全未完成部分"@
    }
}

/// What is offered for a task that waits. Nothing is repeated while it is uncertain
/// whether a request was carried out.
pub fn recent_action(task: &TaskRecord, components: &Vec<String>, requires_repair: bool) -> (result:
    RecentAction)
    ensures
        is_action_for(*task, components@, requires_repair, result),
{
    let uncertain = matches!(task.state, TaskState::Uncertain) || task.uncertain_request();
    if uncertain {
        return RecentAction::View;
    }
    if requires_repair {
        return RecentAction::Repair;
    }
    if matches!(task.state, TaskState::Partial) && task.artifact.is_some()
        && !components.is_empty() {
        return RecentAction::Retry(missing_label(components));
    }
    if matches!(task.state, TaskState::Paused) {
        RecentAction::Resume
    } else {
        RecentAction::View
    }
}

fn missing_label(components: &Vec<String>) -> (result: &'static str)
    ensures
        result@ == retry_label(components@),
{
    if components.len() != 1 {
        return "补全未完成部分";
    }
    let component = components[0].as_str();
    if same(component, "screenshots") {
        "补生成截图"
    } else if same(component, "proofreading") {
        "重试 AI 校对"
    } else if same(component, "summary") {
        "补生成摘要"
    } else if same(component, "exports") {
        "仅补导出"
    } else {
        "补全未完成部分"
    }
}

/// What the button for an action says.
pub open spec fn action_text(action: RecentAction) -> Seq<char> {
    match action {
        RecentAction::Repair => "修复 AI 服务并补做"@,
        RecentAction::Retry(label) => label@,
        RecentAction::Resume => "继续处理"@,
        RecentAction::View => "查看任务"@,
    }
}

fn action_label(action: &RecentAction) -> (result: &'static str)
    ensures
        result@ == action_text(*action),
{
    match action {
        RecentAction::Repair => "修复 AI 服务并补做",
        RecentAction::Retry(label) => label,
        RecentAction::Resume => "继续处理",
        RecentAction::View => "查看任务",
    }
}

/// The label of the button that opens a note: it tells a note that was begun from one
/// that was not.
pub open spec fn reading_label(has_position: bool, first: Seq<char>) -> Seq<char> {
    if has_position {
        "继续阅读"@
    } else {
        first
    }
}

/// A task that waits, as it is shown: the note that it made so far, where that can be
/// read, with the label of the button that opens it, and what is offered.
pub struct RecentTask {
    pub task: usize,
    pub note: Option<usize>,
    pub read_label: Option<&'static str>,
    pub action: RecentAction,
    pub label: &'static str,
}

/// The recent notes: tasks that wait, then notes, by their places.
pub struct RecentSection {
    pub tasks: Vec<RecentTask>,
    pub notes: Vec<usize>,
}

/// The note at `i` is the first that is read from this directory.
pub open spec fn first_note(courses: Seq<Course>, dir: Seq<char>, i: int) -> bool {
    &&& 0 <= i < courses.len()
    &&& courses[i].dir@ == dir
    &&& forall|j: int| 0 <= j < i ==> (#[trigger] courses[j]).dir@ != dir
}

/// What is offered for a task that waits, where these parts are missing.
pub open spec fn is_action_for(
    task: TaskRecord,
    components: Seq<String>,
    requires_repair: bool,
    action: RecentAction,
) -> bool {
    let missing = task.state is Partial && task.artifact is Some && components.len() > 0;
    if !is_uncertain(task) && requires_repair {
        action is Repair
    } else if !is_uncertain(task) && missing {
        action matches RecentAction::Retry(label) && label@ == retry_label(components)
    } else if !is_uncertain(task) && task.state is Paused {
        action is Resume
    } else {
        action is View
    }
}

/// A task is shown like this.
pub open spec fn shows_waiting(
    tasks: Seq<TaskRecord>,
    courses: Seq<Course>,
    positions: Seq<bool>,
    missing: Seq<Vec<String>>,
    repairs: Seq<bool>,
    place: usize,
    view: RecentTask,
) -> bool {
    let task = tasks[place as int];
    &&& view.task == place
    &&& match view.note {
        Some(i) => task.artifact is Some && first_note(courses, task.artifact->0@, i as int),
        None => task.artifact is None || forall|j: int|
            0 <= j < courses.len() ==> (#[trigger] courses[j]).dir@ != task.artifact->0@,
    }
    &&& match view.read_label {
        Some(label) => view.note is Some && label@ == reading_label(
            positions[view.note->0 as int],
            "阅读笔记"@,
        ),
        None => view.note is None,
    }
    &&& is_action_for(task, missing[place as int]@, repairs[place as int], view.action)
    &&& view.label@ == action_text(view.action)
}

/// The number of parts that the result of each task lacks.
pub open spec fn missing_counts(missing: Seq<Vec<String>>) -> Seq<usize> {
    Seq::new(missing.len(), |i: int| missing[i]@.len() as usize)
}

fn note_at(courses: &Vec<Course>, dir: &str) -> (result: Option<usize>)
    ensures
        match result {
            Some(i) => first_note(courses@, dir@, i as int),
            None => forall|j: int| 0 <= j < courses@.len() ==> (#[trigger] courses@[j]).dir@ != dir@,
        },
{
    let mut i: usize = 0;
    while i < courses.len()
        invariant
            i <= courses@.len(),
            forall|j: int| 0 <= j < i ==> (#[trigger] courses@[j]).dir@ != dir@,
        decreases courses@.len() - i,
    {
        if same(courses[i].dir.as_str(), dir) {
            return Some(i);
        }
        i += 1;
    }
    None
}

/// The recent notes: the tasks that wait, then the notes that none of them made.
/// Nothing where there is neither. `positions` says of each note whether a reading
/// position is known, `missing` gives for each task the parts that its
/// result lacks, `repairs` whether a service has to be repaired first, `linked` is
/// the task that the workbench shows itself.
pub fn recent_notes_section(
    courses: &Vec<Course>,
    positions: &Vec<bool>,
    tasks: &Vec<TaskRecord>,
    missing: &Vec<Vec<String>>,
    repairs: &Vec<bool>,
    linked: &Option<String>,
) -> (result: Option<RecentSection>)
    requires
        positions@.len() == courses@.len(),
        missing@.len() == tasks@.len(),
        repairs@.len() == tasks@.len(),
    ensures
        ({
            let shown = attention(tasks@, missing_counts(missing@), text_of(*linked));
            let others = other_notes(courses@, tasks@, shown, courses@.len());
            let notes = if others.len() > 5 {
                others.take(5)
            } else {
                others
            };
            match result {
                Some(section) => {
                    &&& section.tasks@.len() == shown.len()
                    &&& forall|i: int|
                        0 <= i < shown.len() ==> shows_waiting(
                            tasks@,
                            courses@,
                            positions@,
                            missing@,
                            repairs@,
                            shown[i],
                            #[trigger] section.tasks@[i],
                        )
                    &&& section.notes@ == notes
                    &&& shown.len() > 0 || notes.len() > 0
                },
                None => shown.len() == 0 && notes.len() == 0,
            }
        }),
{
    let mut counts: Vec<usize> = Vec::new();
    let mut k: usize = 0;
    while k < missing.len()
        invariant
            k <= missing@.len(),
            counts@.len() == k,
            forall|j: int| 0 <= j < k ==> (#[trigger] counts@[j]) == missing@[j]@.len(),
        decreases missing@.len() - k,
    {
        counts.push(missing[k].len());
        k += 1;
    }
    assert(counts@ =~= missing_counts(missing@));
    let shown = attention_tasks(tasks, &counts, linked);
    let notes = recent_notes(courses, tasks, &shown);
    if shown.len() == 0 && notes.len() == 0 {
        return None;
    }
    let mut views: Vec<RecentTask> = Vec::new();
    let mut i: usize = 0;
    while i < shown.len()
        invariant
            i <= shown@.len(),
            views@.len() == i,
            positions@.len() == courses@.len(),
            missing@.len() == tasks@.len(),
            repairs@.len() == tasks@.len(),
            forall|j: int| 0 <= j < shown@.len() ==> (#[trigger] shown@[j]) < tasks@.len(),
            forall|j: int|
                0 <= j < i ==> shows_waiting(
                    tasks@,
                    courses@,
                    positions@,
                    missing@,
                    repairs@,
                    shown@[j],
                    #[trigger] views@[j],
                ),
        decreases shown@.len() - i,
    {
        let place = shown[i];
        assert(shown@[i as int] == place);
        let note = match &tasks[place].artifact {
            Some(dir) => note_at(courses, dir.as_str()),
            None => None,
        };
        let action = recent_action(&tasks[place], &missing[place], repairs[place]);
        let label = action_label(&action);
        let read_label = match note {
            Some(at) => if positions[at] {
                Some("继续阅读")
            } else {
                Some("阅读笔记")
            },
            None => None,
        };
        views.push(
            RecentTask { task: place, note, read_label, action, label },
        );
        i += 1;
    }
    Some(RecentSection { tasks: views, notes })
}

/// The parts of the line under a note's title, apart from its day.
pub open spec fn meta_parts(source: Option<(Seq<char>, Option<Seq<char>>, bool)>) -> Seq<Seq<char>> {
    match source {
        Some((author, duration, online)) => {
            let first = if is_blank(author) {
                Seq::empty()
            } else {
                seq![author]
            };
            let second = match duration {
                Some(text) => first.push(text),
                None => first,
            };
            if online {
                second
            } else {
                second.push("本地视频"@)
            }
        },
        None => Seq::empty(),
    }
}

/// What is known of the source of a note.
pub struct SourceMeta {
    pub author: String,
    pub duration: Option<String>,
    pub online: bool,
}

pub open spec fn source_model(source: Option<&SourceMeta>) -> Option<
    (Seq<char>, Option<Seq<char>>, bool),
> {
    match source {
        Some(own) => Some((own.author@, text_of(own.duration), own.online)),
        None => None,
    }
}

/// The line under a note's title: who made the video, how long it is, whether it is
/// a file, and the day of the note.
pub fn course_meta(source: Option<&SourceMeta>, day: &str) -> (result: String)
    ensures
        result@ == joined(meta_parts(source_model(source)).push(day@), " · "@),
{
    let mut parts: Vec<&str> = Vec::new();
    if let Some(own) = source {
        if !blank(own.author.as_str()) {
            parts.push(own.author.as_str());
        }
        if let Some(duration) = &own.duration {
            parts.push(duration.as_str());
        }
        if !own.online {
            parts.push("本地视频");
        }
    }
    assert(slices(parts@) =~= meta_parts(source_model(source)));
    parts.push(day);
    assert(slices(parts@) =~= meta_parts(source_model(source)).push(day@));
    join_all(&parts, " · ")
}

/// A task that is shown waits for a person, and no more than two are shown.
pub proof fn only_waiting_tasks_are_shown(
    tasks: Seq<TaskRecord>,
    failures: Seq<usize>,
    linked: Option<Seq<char>>,
    k: int,
)
    requires
        failures.len() == tasks.len(),
        tasks.len() <= usize::MAX,
        0 <= k < attention(tasks, failures, linked).len(),
    ensures
        attention(tasks, failures, linked).len() <= 2,
        ({
            let i = attention(tasks, failures, linked)[k] as int;
            0 <= i < tasks.len() && needs_attention(tasks[i], failures[i] as nat, linked)
        }),
{
    let all = waiting(tasks, failures, linked, tasks.len());
    assert(attention(tasks, failures, linked)[k] == all[k]);
    waiting_wait(tasks, failures, linked, tasks.len(), k);
}

proof fn waiting_wait(
    tasks: Seq<TaskRecord>,
    failures: Seq<usize>,
    linked: Option<Seq<char>>,
    n: nat,
    k: int,
)
    requires
        failures.len() == tasks.len(),
        n <= tasks.len() <= usize::MAX,
        0 <= k < waiting(tasks, failures, linked, n).len(),
    ensures
        ({
            let i = waiting(tasks, failures, linked, n)[k] as int;
            0 <= i < n && needs_attention(tasks[i], failures[i] as nat, linked)
        }),
    decreases n,
{
    if n > 0 {
        let m = (n - 1) as nat;
        let before = waiting(tasks, failures, linked, m);
        let all = waiting(tasks, failures, linked, n);
        if needs_attention(tasks[m as int], failures[m as int] as nat, linked) {
            placed_is_in(tasks, before, m as usize, k);
            if all[k] != m as usize {
                let j = before.index_of(all[k]);
                waiting_wait(tasks, failures, linked, m, j);
            }
        } else {
            waiting_wait(tasks, failures, linked, m, k);
        }
    }
}

proof fn placed_is_in(tasks: Seq<TaskRecord>, list: Seq<usize>, i: usize, k: int)
    requires
        0 <= k < placed_by_update(tasks, list, i).len(),
    ensures
        placed_by_update(tasks, list, i)[k] == i || list.contains(
            placed_by_update(tasks, list, i)[k],
        ),
    decreases list.len(),
{
    let all = placed_by_update(tasks, list, i);
    if list.len() > 0 {
        if tasks[list[0] as int].updated < tasks[i as int].updated {
            if k > 0 {
                assert(list[k - 1] == all[k]);
            }
        } else if k == 0 {
            assert(list[0] == all[0]);
        } else {
            let rest = list.skip(1);
            placed_is_in(tasks, rest, i, k - 1);
            if all[k] != i {
                let j = rest.index_of(all[k]);
                assert(list[j + 1] == all[k]);
            }
        }
    }
}

// ------------------------------------------------------------ what waits first

#[verifier::rlimit(40)]
proof fn placed_by_update_is(tasks: Seq<TaskRecord>, list: Seq<usize>, i: usize)
    requires
        i < tasks.len(),
        forall|k: int| 0 <= k < list.len() ==> (#[trigger] list[k]) < tasks.len(),
        forall|k: int, l: int|
            0 <= k < l < list.len() ==> tasks[(#[trigger] list[k]) as int].updated >= tasks[(
            #[trigger] list[l]) as int].updated,
    ensures
        placed_by_update(tasks, list, i).len() == list.len() + 1,
        forall|k: int|
            0 <= k < placed_by_update(tasks, list, i).len() ==> (#[trigger] placed_by_update(
                tasks,
                list,
                i,
            )[k]) < tasks.len(),
        forall|k: int, l: int|
            0 <= k < l < placed_by_update(tasks, list, i).len() ==> tasks[(
            #[trigger] placed_by_update(tasks, list, i)[k]) as int].updated >= tasks[(
            #[trigger] placed_by_update(tasks, list, i)[l]) as int].updated,
        forall|other: usize| #[trigger]
            placed_by_update(tasks, list, i).contains(other) <==> other == i || list.contains(
                other,
            ),
        list.len() > 0 && tasks[list[0] as int].updated >= tasks[i as int].updated
            ==> placed_by_update(tasks, list, i)[0] == list[0],
        list.len() == 0 || tasks[list[0] as int].updated < tasks[i as int].updated
            ==> placed_by_update(tasks, list, i)[0] == i,
    decreases list.len(),
{
    let placed = placed_by_update(tasks, list, i);
    if list.len() == 0 {
        assert forall|other: usize| #[trigger] placed.contains(other) <==> other == i
            || list.contains(other) by {
            if other == i {
                assert(placed[0] == other);
            }
        }
    } else if tasks[list[0] as int].updated < tasks[i as int].updated {
        assert forall|other: usize| #[trigger] placed.contains(other) <==> other == i
            || list.contains(other) by {
            if other == i {
                assert(placed[0] == other);
            }
            if list.contains(other) {
                let k = choose|k: int| 0 <= k < list.len() && list[k] == other;
                assert(placed[k + 1] == other);
            }
        }
        assert forall|k: int, l: int| 0 <= k < l < placed.len() implies tasks[(
        #[trigger] placed[k]) as int].updated >= tasks[(#[trigger] placed[l]) as int].updated by {
            assert(placed[l] == list[l - 1]);
            if k > 0 {
                assert(placed[k] == list[k - 1]);
            } else if l > 1 {
                assert(tasks[list[0] as int].updated >= tasks[list[l - 1] as int].updated);
            }
        }
    } else {
        let rest = list.skip(1);
        assert forall|k: int| 0 <= k < rest.len() implies (#[trigger] rest[k]) < tasks.len() by {
            assert(rest[k] == list[k + 1]);
        }
        assert forall|k: int, l: int| 0 <= k < l < rest.len() implies tasks[(
        #[trigger] rest[k]) as int].updated >= tasks[(#[trigger] rest[l]) as int].updated by {
            assert(rest[k] == list[k + 1] && rest[l] == list[l + 1]);
        }
        placed_by_update_is(tasks, rest, i);
        let tail = placed_by_update(tasks, rest, i);
        assert forall|other: usize| #[trigger] placed.contains(other) <==> other == i
            || list.contains(other) by {
            if placed.contains(other) {
                let k = choose|k: int| 0 <= k < placed.len() && placed[k] == other;
                if k > 0 {
                    assert(tail[k - 1] == other);
                    assert(tail.contains(other));
                    if other != i {
                        let l = choose|l: int| 0 <= l < rest.len() && rest[l] == other;
                        assert(list[l + 1] == other);
                    }
                }
            }
            if list.contains(other) || other == i {
                if list[0] == other {
                    assert(placed[0] == other);
                } else {
                    if list.contains(other) {
                        let l = choose|l: int| 0 <= l < list.len() && list[l] == other;
                        assert(rest[l - 1] == other);
                    }
                    assert(tail.contains(other));
                    let k = choose|k: int| 0 <= k < tail.len() && tail[k] == other;
                    assert(placed[k + 1] == other);
                }
            }
        }
        assert forall|k: int, l: int| 0 <= k < l < placed.len() implies tasks[(
        #[trigger] placed[k]) as int].updated >= tasks[(#[trigger] placed[l]) as int].updated by {
            assert(placed[l] == tail[l - 1]);
            if k > 0 {
                assert(placed[k] == tail[k - 1]);
            } else {
                if rest.len() > 0 && tasks[rest[0] as int].updated >= tasks[i as int].updated {
                    assert(tail[0] == rest[0] && rest[0] == list[1]);
                } else {
                    assert(tail[0] == i);
                }
                if l > 1 {
                    assert(tasks[tail[0] as int].updated >= tasks[tail[l - 1] as int].updated);
                }
            }
        }
        assert forall|k: int| 0 <= k < placed.len() implies (#[trigger] placed[k]) < tasks.len() by {
            if k > 0 {
                assert(placed[k] == tail[k - 1]);
            }
        }
    }
}

#[verifier::rlimit(40)]
proof fn waiting_is(
    tasks: Seq<TaskRecord>,
    failures: Seq<usize>,
    linked: Option<Seq<char>>,
    n: nat,
)
    requires
        n <= tasks.len() <= usize::MAX,
        failures.len() == tasks.len(),
    ensures
        forall|k: int|
            0 <= k < waiting(tasks, failures, linked, n).len() ==> (#[trigger] waiting(
                tasks,
                failures,
                linked,
                n,
            )[k]) < tasks.len(),
        forall|k: int, l: int|
            0 <= k < l < waiting(tasks, failures, linked, n).len() ==> tasks[(#[trigger] waiting(
                tasks,
                failures,
                linked,
                n,
            )[k]) as int].updated >= tasks[(#[trigger] waiting(
                tasks,
                failures,
                linked,
                n,
            )[l]) as int].updated,
        forall|i: usize| #[trigger]
            waiting(tasks, failures, linked, n).contains(i) <==> i < n && needs_attention(
                tasks[i as int],
                failures[i as int] as nat,
                linked,
            ),
    decreases n,
{
    if n > 0 {
        let m = (n - 1) as nat;
        waiting_is(tasks, failures, linked, m);
        if needs_attention(tasks[m as int], failures[m as int] as nat, linked) {
            placed_by_update_is(tasks, waiting(tasks, failures, linked, m), m as usize);
        }
        assert forall|i: usize| #[trigger] waiting(tasks, failures, linked, n).contains(i) <==> i < n
            && needs_attention(tasks[i as int], failures[i as int] as nat, linked) by {
            assert(waiting(tasks, failures, linked, m).contains(i) <==> i < m && needs_attention(
                tasks[i as int],
                failures[i as int] as nat,
                linked,
            ));
        }
    }
}

/// The tasks that are shown are the latest two of those that wait for a person: held up,
/// uncertain or paused, or with a result that lacks something; taken over by no other, and
/// not the one that the workbench shows itself.
#[verifier::rlimit(40)]
pub proof fn the_latest_waiting_tasks_are_shown(
    tasks: Vec<TaskRecord>,
    failures: Vec<usize>,
    linked: Option<String>,
    shown: Vec<usize>,
    i: usize,
)
    requires
        failures@.len() == tasks@.len() <= usize::MAX,
        call_ensures(attention_tasks, (&tasks, &failures, &linked), shown),
        i < tasks@.len(),
    ensures
        shown@.len() <= 2,
        shown@.contains(i) ==> {
            let task = tasks@[i as int];
            &&& task.handled_by is None
            &&& text_of(linked) != Some(task.id@)
            &&& task.state is NeedsAttention || task.state is Uncertain || task.state is Paused
                || task.state is Partial
            &&& task.state is Partial ==> task.artifact is Some && failures@[i as int] > 0
        },
        ({
            let task = tasks@[i as int];
            &&& !shown@.contains(i)
            &&& task.handled_by is None
            &&& text_of(linked) != Some(task.id@)
            &&& task.state is NeedsAttention || task.state is Uncertain || task.state is Paused || (
            task.state is Partial && task.artifact is Some && failures@[i as int] > 0)
        }) ==> shown@.len() == 2 && tasks@[shown@[0] as int].updated >= tasks@[i as int].updated
            && tasks@[shown@[1] as int].updated >= tasks@[i as int].updated,
        shown@.len() == 2 ==> tasks@[shown@[0] as int].updated >= tasks@[shown@[1] as int].updated,
{
    let own = text_of(linked);
    let all = waiting(tasks@, failures@, own, tasks@.len());
    waiting_is(tasks@, failures@, own, tasks@.len());
    if shown@.contains(i) {
        let k = choose|k: int| 0 <= k < shown@.len() && shown@[k] == i;
        assert(all[k] == i);
        assert(all.contains(i));
    }
    if needs_attention(tasks@[i as int], failures@[i as int] as nat, own) && !shown@.contains(i) {
        assert(all.contains(i));
        let k = choose|k: int| 0 <= k < all.len() && all[k] == i;
        if k < shown@.len() {
            assert(shown@[k] == i);
        }
        assert(shown@[0] == all[0] && shown@[1] == all[1]);
        assert(tasks@[all[0] as int].updated >= tasks@[all[k] as int].updated);
        assert(tasks@[all[1] as int].updated >= tasks@[all[k] as int].updated);
    }
    if shown@.len() == 2 {
        assert(shown@[0] == all[0] && shown@[1] == all[1]);
    }
}

proof fn other_notes_are(
    courses: Seq<Course>,
    tasks: Seq<TaskRecord>,
    shown: Seq<usize>,
    n: nat,
    i: usize,
)
    requires
        n <= courses.len() <= usize::MAX,
    ensures
        other_notes(courses, tasks, shown, n).contains(i) <==> i < n && !is_result_of(
            tasks,
            shown,
            courses[i as int].dir@,
        ),
        forall|k: int, l: int|
            0 <= k < l < other_notes(courses, tasks, shown, n).len() ==> (#[trigger] other_notes(
                courses,
                tasks,
                shown,
                n,
            )[k]) < (#[trigger] other_notes(courses, tasks, shown, n)[l]),
        forall|k: int|
            0 <= k < other_notes(courses, tasks, shown, n).len() ==> (#[trigger] other_notes(
                courses,
                tasks,
                shown,
                n,
            )[k]) < n,
    decreases n,
{
    let all = other_notes(courses, tasks, shown, n);
    if n > 0 {
        let m = (n - 1) as nat;
        other_notes_are(courses, tasks, shown, m, i);
        let before = other_notes(courses, tasks, shown, m);
        if all.contains(i) {
            let k = choose|k: int| 0 <= k < all.len() && all[k] == i;
            if k < before.len() {
                assert(before[k] == i);
            }
        }
        if i < n && !is_result_of(tasks, shown, courses[i as int].dir@) {
            if i < m {
                let k = choose|k: int| 0 <= k < before.len() && before[k] == i;
                assert(all[k] == i);
            } else {
                assert(all[before.len() as int] == i);
            }
        }
    }
}

/// The first five notes are shown, in the order of the library, apart from those that a task
/// above has made: no note is shown twice.
pub proof fn no_note_is_shown_twice(
    courses: Vec<Course>,
    tasks: Vec<TaskRecord>,
    shown: Vec<usize>,
    notes: Vec<usize>,
    i: usize,
    k: int,
)
    requires
        forall|j: int| 0 <= j < shown@.len() ==> (#[trigger] shown@[j]) < tasks@.len(),
        call_ensures(recent_notes, (&courses, &tasks, &shown), notes),
        courses@.len() <= usize::MAX,
        i < courses@.len(),
        0 <= k < shown@.len(),
    ensures
        notes@.len() <= 5,
        text_of(tasks@[shown@[k] as int].artifact) == Some(courses@[i as int].dir@)
            ==> !notes@.contains(i),
        (forall|j: int|
            0 <= j < shown@.len() ==> text_of(tasks@[(#[trigger] shown@[j]) as int].artifact) != Some(
                courses@[i as int].dir@,
            )) && notes@.len() < 5 ==> notes@.contains(i),
{
    let all = other_notes(courses@, tasks@, shown@, courses@.len());
    other_notes_are(courses@, tasks@, shown@, courses@.len(), i);
    if notes@.contains(i) {
        let j = choose|j: int| 0 <= j < notes@.len() && notes@[j] == i;
        assert(all[j] == i);
    }
}

/// What is offered for a task that waits: nothing is done again while it is uncertain
/// whether it was done; a service is repaired before anything else; what is missing is made
/// where there is a result; a paused task goes on.
pub proof fn nothing_uncertain_is_done_again(
    task: TaskRecord,
    components: Vec<String>,
    repair: bool,
    action: RecentAction,
)
    requires
        call_ensures(recent_action, (&task, &components, repair), action),
    ensures
        task.state is Uncertain ==> action is View,
        (exists|i: int|
            0 <= i < task.blocked@.len() && (#[trigger] task.blocked@[i]).reason@ == "uncertain"@)
            ==> action is View,
        action is Retry ==> task.state is Partial && task.artifact is Some && components@.len() > 0
            && !repair,
        action is Resume ==> task.state is Paused && !repair,
        action is Repair ==> repair,
        task.state is Paused && task.blocked@.len() == 0 ==> action is Resume || action is Repair,
        repair && !(task.state is Uncertain) && task.blocked@.len() == 0 ==> action is Repair,
        action is Retry && components@.len() > 1 ==> action->Retry_0@ == "补全未完成部分"@,
{
}

/// A task that is shown offers its note where it can be read, and reads on where it was left.
pub proof fn a_waiting_task_offers_its_note(
    courses: Vec<Course>,
    positions: Vec<bool>,
    tasks: Vec<TaskRecord>,
    missing: Vec<Vec<String>>,
    repairs: Vec<bool>,
    linked: Option<String>,
    section: RecentSection,
    k: int,
)
    requires
        positions@.len() == courses@.len(),
        missing@.len() == tasks@.len(),
        repairs@.len() == tasks@.len(),
        call_ensures(
            recent_notes_section,
            (&courses, &positions, &tasks, &missing, &repairs, &linked),
            Some(section),
        ),
        0 <= k < section.tasks@.len(),
    ensures
        section.tasks@.len() <= 2,
        section.notes@.len() <= 5,
        ({
            let view = section.tasks@[k];
            let task = tasks@[view.task as int];
            &&& view.note matches Some(i) ==> i < courses@.len() && text_of(task.artifact) == Some(
                courses@[i as int].dir@,
            ) && view.read_label is Some && view.read_label->0@ == (if positions@[i as int] {
                "继续阅读"@
            } else {
                "阅读笔记"@
            })
            &&& view.note is None ==> view.read_label is None
            &&& view.action is Resume ==> view.label@ == "继续处理"@
            &&& view.action is View ==> view.label@ == "查看任务"@
        }),
{
    let given = (&courses, &positions, &tasks, &missing, &repairs, &linked);
    let shown = attention(tasks@, missing_counts(missing@), text_of(linked));
    assert(section.tasks@.len() == shown.len());
    assert(shows_waiting(
        given.2@,
        given.0@,
        given.1@,
        given.3@,
        given.4@,
        shown[k],
        section.tasks@[k],
    ));
}

/// The line under a title ends with the day of the note; where nothing is known of its video it is
/// the day alone, and a name stands first where there is one.
pub proof fn the_line_ends_with_the_day(
    source: Option<&SourceMeta>,
    day: &str,
    line: String,
)
    requires
        call_ensures(course_meta, (source, day), line),
    ensures
        source is None ==> line@ == day@,
        source is Some && is_blank(source->0.author@) && source->0.duration is None
            && source->0.online ==> line@ == day@,
        source is Some && !is_blank(source->0.author@) && source->0.duration is None
            && source->0.online ==> line@ == source->0.author@ + " · "@ + day@,
        source is Some && is_blank(source->0.author@) && source->0.duration is Some
            && source->0.online ==> line@ == source->0.duration->0@ + " · "@ + day@,
        source is Some && is_blank(source->0.author@) && source->0.duration is None
            && !source->0.online ==> line@ == "本地视频"@ + " · "@ + day@,
        source is Some && !is_blank(source->0.author@) && source->0.duration is Some
            && !source->0.online ==> line@ == source->0.author@ + " · "@
            + source->0.duration->0@ + " · "@ + "本地视频"@ + " · "@ + day@,
{
    let parts = meta_parts(source_model(source));
    let dot = " · "@;
    if let Some(own) = source {
        let author = own.author@;
        if own.duration is None && own.online && !is_blank(author) {
            assert(parts =~= seq![author]);
        }
        if own.duration is Some && own.online && is_blank(author) {
            assert(parts =~= seq![own.duration->0@]);
        }
        if own.duration is None && !own.online && is_blank(author) {
            assert(parts =~= seq!["本地视频"@]);
        }
        if own.duration is Some && !own.online && !is_blank(author) {
            assert(parts =~= seq![author, own.duration->0@, "本地视频"@]);
            let two = seq![author, own.duration->0@];
            assert(parts.drop_last() =~= two);
            assert(two.drop_last() =~= seq![author]);
            assert(joined(seq![author], dot) == author);
            assert(joined(two, dot) == author + dot + own.duration->0@);
            assert(joined(parts, dot) == joined(two, dot) + dot + "本地视频"@);
            assert(parts.push(day@).drop_last() =~= parts);
            assert(joined(parts.push(day@), dot) == joined(parts, dot) + dot + day@);
        }
    }
    assert(parts.push(day@).drop_last() =~= parts);
    assert(parts.push(day@).last() == day@);
    if parts.len() == 1 {
        assert(joined(parts, dot) == parts[0]);
        assert(joined(parts.push(day@), dot) == parts[0] + dot + day@);
    }
}

} // verus!
