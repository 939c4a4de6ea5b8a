//! Which task belongs to the input on the workbench, and which result a person is
//! still waiting for.
use crate::table::places_are_few;
use crate::text::{blank, is_blank, same};
use crate::workspace::{is_text, same_option, text_of, Draft, TaskRecord};
use vstd::prelude::*;

verus! {

// ------------------------------------------------------------ recovery chains

/// The task at `i` is the only one with this id.
pub open spec fn only_task(tasks: Seq<TaskRecord>, id: Seq<char>, i: int) -> bool {
    &&& 0 <= i < tasks.len()
    &&& tasks[i].id@ == id
    &&& forall|j: int| 0 <= j < tasks.len() && j != i ==> (#[trigger] tasks[j]).id@ != id
}

/// The task at `i` works on the source with this identity and of this kind.
pub open spec fn works_on(tasks: Seq<TaskRecord>, i: int, source_id: Seq<char>, online: bool) -> bool {
    &&& tasks[i].plan.source_id@ == source_id
    &&& tasks[i].plan.source.identity@ == source_id
    &&& tasks[i].plan.source.online == online
}

/// The task at `from` was handed on to the one at `to`, and both sides say so.
pub open spec fn handed_on(tasks: Seq<TaskRecord>, from: int, to: int) -> bool {
    &&& tasks[from].handled_by matches Some(next) && only_task(tasks, next@, to)
    &&& text_of(tasks[to].parent) == Some(tasks[from].id@)
}

/// The task at `i` is the one that the draft submitted, for this very input.
pub open spec fn submission(draft: Draft, tasks: Seq<TaskRecord>, input: Seq<char>, i: int) -> bool {
    &&& draft.input@ == input
    &&& !is_blank(input)
    &&& draft.submitted_task matches Some(id) && only_task(tasks, id@, i)
    &&& tasks[i].plan.source_id@.len() > 0
    &&& tasks[i].plan.source.input@ == input
    &&& tasks[i].plan.source.online == draft.online
    &&& draft.source matches Some(source) ==> source.identity@ == tasks[i].plan.source_id@
        && source.online == draft.online
}

/// A chain of tasks from the submitted one to one that nobody took over: each
/// works on the submitted source and was handed on to the next.
pub open spec fn recovery_chain(
    draft: Draft,
    tasks: Seq<TaskRecord>,
    input: Seq<char>,
    chain: Seq<int>,
) -> bool {
    &&& chain.len() > 0
    &&& submission(draft, tasks, input, chain[0])
    &&& forall|k: int|
        0 <= k < chain.len() ==> 0 <= #[trigger] chain[k] < tasks.len() && works_on(
            tasks,
            chain[k],
            tasks[chain[0]].plan.source_id@,
            draft.online,
        )
    &&& forall|k: int| 0 <= k < chain.len() - 1 ==> handed_on(tasks, #[trigger] chain[k], chain[k + 1])
    &&& tasks[chain.last()].handled_by is None
}

/// The task at `i` is the current one for the input: a recovery chain ends there.
pub open spec fn current_task(draft: Draft, tasks: Seq<TaskRecord>, input: Seq<char>, i: int) -> bool {
    exists|chain: Seq<int>| #[trigger] recovery_chain(draft, tasks, input, chain) && chain.last() == i
}

/// Two recovery chains of one input agree as far as the shorter one goes.
proof fn chains_agree(
    draft: Draft,
    tasks: Seq<TaskRecord>,
    input: Seq<char>,
    a: Seq<int>,
    b: Seq<int>,
    n: int,
)
    requires
        recovery_chain(draft, tasks, input, a),
        recovery_chain(draft, tasks, input, b),
        0 <= n < a.len(),
        n < b.len(),
    ensures
        a[n] == b[n],
    decreases n,
{
    if n > 0 {
        chains_agree(draft, tasks, input, a, b, n - 1);
        assert(handed_on(tasks, a[n - 1], a[n - 1 + 1]));
        assert(handed_on(tasks, b[n - 1], b[n - 1 + 1]));
    }
}

/// An input has at most one current task.
pub proof fn current_task_is_unique(
    draft: Draft,
    tasks: Seq<TaskRecord>,
    input: Seq<char>,
    i: int,
    j: int,
)
    requires
        current_task(draft, tasks, input, i),
        current_task(draft, tasks, input, j),
    ensures
        i == j,
{
    let a = choose|chain: Seq<int>| #[trigger]
        recovery_chain(draft, tasks, input, chain) && chain.last() == i;
    let b = choose|chain: Seq<int>| #[trigger]
        recovery_chain(draft, tasks, input, chain) && chain.last() == j;
    let n = if a.len() <= b.len() {
        a.len() - 1
    } else {
        b.len() - 1
    };
    chains_agree(draft, tasks, input, a, b, n);
    if n < a.len() - 1 {
        assert(handed_on(tasks, a[n], a[n + 1]));
    }
    if n < b.len() - 1 {
        assert(handed_on(tasks, b[n], b[n + 1]));
    }
}

/// The tasks reached so far cannot lead to a current task when every one of them
/// was handed on, and only among themselves.
proof fn closed_walk_has_no_end(
    draft: Draft,
    tasks: Seq<TaskRecord>,
    input: Seq<char>,
    walk: Seq<int>,
)
    requires
        walk.len() > 0,
        submission(draft, tasks, input, walk[0]),
        forall|k: int|
            0 <= k < walk.len() ==> 0 <= #[trigger] walk[k] < tasks.len()
                && tasks[walk[k]].handled_by is Some,
        forall|k: int, to: int|
            0 <= k < walk.len() && handed_on(tasks, #[trigger] walk[k], to) && 0 <= to < tasks.len()
                && #[trigger] works_on(
                tasks,
                to,
                tasks[walk[0]].plan.source_id@,
                draft.online,
            ) ==> walk.contains(to),
    ensures
        forall|i: int| !current_task(draft, tasks, input, i),
{
    assert forall|i: int| !current_task(draft, tasks, input, i) by {
        if current_task(draft, tasks, input, i) {
            let chain = choose|chain: Seq<int>| #[trigger]
                recovery_chain(draft, tasks, input, chain) && chain.last() == i;
            assert(chain[0] == walk[0]);
            chain_stays(draft, tasks, input, walk, chain, chain.len() - 1);
            let k = walk.index_of(chain.last());
            assert(tasks[walk[k]].handled_by is Some);
        }
    }
}

proof fn chain_stays(
    draft: Draft,
    tasks: Seq<TaskRecord>,
    input: Seq<char>,
    walk: Seq<int>,
    chain: Seq<int>,
    n: int,
)
    requires
        recovery_chain(draft, tasks, input, chain),
        0 <= n < chain.len(),
        walk.len() > 0,
        chain[0] == walk[0],
        forall|k: int, to: int|
            0 <= k < walk.len() && handed_on(tasks, #[trigger] walk[k], to) && 0 <= to < tasks.len()
                && #[trigger] works_on(
                tasks,
                to,
                tasks[walk[0]].plan.source_id@,
                draft.online,
            ) ==> walk.contains(to),
    ensures
        walk.contains(chain[n]),
    decreases n,
{
    if n == 0 {
        assert(walk[0] == chain[0]);
    } else {
        chain_stays(draft, tasks, input, walk, chain, n - 1);
        let k = walk.index_of(chain[n - 1]);
        assert(handed_on(tasks, chain[n - 1], chain[n - 1 + 1]));
        assert(handed_on(tasks, walk[k], chain[n]));
        assert(works_on(tasks, chain[n], tasks[chain[0]].plan.source_id@, draft.online));
    }
}

/// The position of the only task with an id.
fn find_task(tasks: &[TaskRecord], id: &str) -> (result: Option<usize>)
    ensures
        match result {
            Some(i) => only_task(tasks@, id@, i as int),
            None => forall|i: int| !only_task(tasks@, id@, i),
        },
{
    let mut found: Option<usize> = None;
    let mut i: usize = 0;
    while i < tasks.len()
        invariant
            i <= tasks@.len(),
            match found {
                Some(at) => at < i && tasks@[at as int].id@ == id@ && forall|j: int|
                    0 <= j < i && j != at ==> (#[trigger] tasks@[j]).id@ != id@,
                None => forall|j: int| 0 <= j < i ==> (#[trigger] tasks@[j]).id@ != id@,
            },
        decreases tasks@.len() - i,
    {
        if same(tasks[i].id.as_str(), id) {
            if let Some(at) = found {
                assert(tasks@[at as int].id@ == id@ && tasks@[i as int].id@ == id@);
                return None;
            }
            found = Some(i);
        }
        i += 1;
    }
    found
}

pub open spec fn positions(walk: Seq<usize>) -> Seq<int> {
    Seq::new(walk.len(), |i: int| walk[i] as int)
}

/// Following the submitted task led along `walk` to `at`.
pub open spec fn walked(
    draft: Draft,
    tasks: Seq<TaskRecord>,
    input: Seq<char>,
    walk: Seq<int>,
    at: int,
) -> bool {
    let whole = walk.push(at);
    &&& submission(draft, tasks, input, whole[0])
    &&& 0 <= at < tasks.len()
    &&& forall|k: int|
        0 <= k < walk.len() ==> 0 <= #[trigger] walk[k] < tasks.len() && works_on(
            tasks,
            walk[k],
            tasks[whole[0]].plan.source_id@,
            draft.online,
        ) && handed_on(tasks, walk[k], whole[k + 1])
}

/// A task that was met before, or that works on something else, ends the search.
proof fn walk_fails_at(
    draft: Draft,
    tasks: Seq<TaskRecord>,
    input: Seq<char>,
    walk: Seq<int>,
    at: int,
)
    requires
        walked(draft, tasks, input, walk, at),
        walk.contains(at) || !works_on(
            tasks,
            at,
            tasks[walk.push(at)[0]].plan.source_id@,
            draft.online,
        ),
    ensures
        forall|i: int| !current_task(draft, tasks, input, i),
{
    let whole = walk.push(at);
    if walk.len() == 0 {
        assert forall|i: int| !current_task(draft, tasks, input, i) by {
            if current_task(draft, tasks, input, i) {
                let chain = choose|chain: Seq<int>| #[trigger]
                    recovery_chain(draft, tasks, input, chain) && chain.last() == i;
                assert(chain[0] == at);
                assert(works_on(tasks, chain[0], tasks[chain[0]].plan.source_id@, draft.online));
            }
        }
    } else {
        assert(whole[0] == walk[0]);
        assert forall|k: int, to: int|
            0 <= k < walk.len() && handed_on(tasks, #[trigger] walk[k], to) && 0 <= to < tasks.len()
                && #[trigger] works_on(
                tasks,
                to,
                tasks[walk[0]].plan.source_id@,
                draft.online,
            ) implies walk.contains(to) by {
            assert(handed_on(tasks, walk[k], whole[k + 1]));
            if k + 1 < walk.len() {
                assert(walk[k + 1] == to);
            }
        }
        closed_walk_has_no_end(draft, tasks, input, walk);
    }
}

/// A task whose successor cannot be told ends the search.
proof fn walk_fails_after(
    draft: Draft,
    tasks: Seq<TaskRecord>,
    input: Seq<char>,
    walk: Seq<int>,
    at: int,
)
    requires
        walked(draft, tasks, input, walk, at),
        tasks[at].handled_by is Some,
        forall|to: int| !handed_on(tasks, at, to),
    ensures
        forall|i: int| !current_task(draft, tasks, input, i),
{
    let whole = walk.push(at);
    assert forall|k: int| 0 <= k < whole.len() implies 0 <= #[trigger] whole[k] < tasks.len()
        && tasks[whole[k]].handled_by is Some by {
        if k < walk.len() {
            assert(whole[k] == walk[k]);
        }
    }
    assert forall|k: int, to: int|
        0 <= k < whole.len() && handed_on(tasks, #[trigger] whole[k], to) && 0 <= to < tasks.len()
            && #[trigger] works_on(
            tasks,
            to,
            tasks[whole[0]].plan.source_id@,
            draft.online,
        ) implies whole.contains(to) by {
        if k < walk.len() {
            assert(whole[k] == walk[k]);
            assert(handed_on(tasks, walk[k], whole[k + 1]));
            assert(whole[k + 1] == to);
        }
    }
    closed_walk_has_no_end(draft, tasks, input, whole);
}

/// A task that nobody took over is the current one.
proof fn walk_ends_at(
    draft: Draft,
    tasks: Seq<TaskRecord>,
    input: Seq<char>,
    walk: Seq<int>,
    at: int,
)
    requires
        walked(draft, tasks, input, walk, at),
        works_on(tasks, at, tasks[walk.push(at)[0]].plan.source_id@, draft.online),
        tasks[at].handled_by is None,
    ensures
        current_task(draft, tasks, input, at),
{
    let whole = walk.push(at);
    assert forall|k: int| 0 <= k < whole.len() implies 0 <= #[trigger] whole[k] < tasks.len()
        && works_on(tasks, whole[k], tasks[whole[0]].plan.source_id@, draft.online) by {
        if k < walk.len() {
            assert(whole[k] == walk[k]);
        }
    }
    assert forall|k: int| 0 <= k < whole.len() - 1 implies handed_on(
        tasks,
        #[trigger] whole[k],
        whole[k + 1],
    ) by {
        assert(whole[k] == walk[k]);
    }
    assert(recovery_chain(draft, tasks, input, whole));
    assert(whole.last() == at);
}

/// One more step along the chain.
proof fn walk_goes_on(
    draft: Draft,
    tasks: Seq<TaskRecord>,
    input: Seq<char>,
    walk: Seq<int>,
    at: int,
    to: int,
)
    requires
        walked(draft, tasks, input, walk, at),
        works_on(tasks, at, tasks[walk.push(at)[0]].plan.source_id@, draft.online),
        handed_on(tasks, at, to),
        walk.no_duplicates(),
        !walk.contains(at),
    ensures
        walked(draft, tasks, input, walk.push(at), to),
        walk.push(at).no_duplicates(),
        walk.len() < tasks.len(),
{
    let whole = walk.push(at);
    let more = whole.push(to);
    assert(more[0] == whole[0]);
    assert forall|k: int| 0 <= k < whole.len() implies 0 <= #[trigger] whole[k] < tasks.len()
        && works_on(tasks, whole[k], tasks[more[0]].plan.source_id@, draft.online) && handed_on(
        tasks,
        whole[k],
        more[k + 1],
    ) by {
        if k < walk.len() {
            assert(whole[k] == walk[k]);
            assert(more[k + 1] == whole[k + 1]);
        }
    }
    places_are_few(whole, tasks.len() as int);
}

/// The current task of an input, found by following the tasks that took over from
/// the submitted one. Neither a matching link nor a selected task is enough.
pub fn submitted_input_task<'a>(
    draft: &Draft,
    tasks: &'a [TaskRecord],
    input: &str,
) -> (result: Option<&'a TaskRecord>)
    ensures
        match result {
            Some(task) => exists|i: int|
                current_task(*draft, tasks@, input@, i) && *task == #[trigger] tasks@[i],
            None => forall|i: int| !current_task(*draft, tasks@, input@, i),
        },
        forall|i: int|
            current_task(*draft, tasks@, input@, i) ==> result is Some && *result->0
                == #[trigger] tasks@[i],
{
    let first = match submitted_position(draft, tasks, input) {
        Some(first) => first,
        None => {
            return None;
        },
    };
    let source_id = tasks[first].plan.source_id.as_str();
    let online = draft.online;
    let mut visited: Vec<usize> = Vec::new();
    let mut at: usize = first;
    loop
        invariant
            walked(*draft, tasks@, input@, positions(visited@), at as int),
            positions(visited@).no_duplicates(),
            positions(visited@).push(at as int)[0] == first as int,
            first < tasks@.len(),
            source_id@ == tasks@[first as int].plan.source_id@,
            online == draft.online,
        decreases tasks@.len() - visited@.len(),
    {
        let ghost walk = positions(visited@);
        let task = &tasks[at];
        if visited_before(&visited, at) || !same(task.plan.source_id.as_str(), source_id) || !same(
            task.plan.source.identity.as_str(),
            source_id,
        ) || task.plan.source.online != online {
            proof {
                walk_fails_at(*draft, tasks@, input@, walk, at as int);
            }
            return None;
        }
        let next = match &task.handled_by {
            Some(next) => next,
            None => {
                proof {
                    walk_ends_at(*draft, tasks@, input@, walk, at as int);
                    only_current(*draft, tasks@, input@, *task);
                }
                return Some(task);
            },
        };
        match find_task(tasks, next.as_str()) {
            Some(to) if is_text(&tasks[to].parent, task.id.as_str()) => {
                proof {
                    walk_goes_on(*draft, tasks@, input@, walk, at as int, to as int);
                }
                visited.push(at);
                assert(positions(visited@) =~= walk.push(at as int));
                at = to;
            },
            _ => {
                proof {
                    walk_fails_after(*draft, tasks@, input@, walk, at as int);
                }
                return None;
            },
        }
    }
}

/// The position of the task that the draft submitted for this very input.
fn submitted_position(draft: &Draft, tasks: &[TaskRecord], input: &str) -> (result: Option<usize>)
    ensures
        match result {
            Some(i) => i < tasks@.len() && submission(*draft, tasks@, input@, i as int),
            None => forall|i: int| !current_task(*draft, tasks@, input@, i),
        },
{
    proof {
        assert forall|i: int| current_task(*draft, tasks@, input@, i) implies exists|first: int|
            submission(*draft, tasks@, input@, first) by {
            let chain = choose|chain: Seq<int>| #[trigger]
                recovery_chain(*draft, tasks@, input@, chain) && chain.last() == i;
            assert(submission(*draft, tasks@, input@, chain[0]));
        }
    }
    if !same(draft.input.as_str(), input) || blank(input) {
        return None;
    }
    let id = match &draft.submitted_task {
        Some(id) => id,
        None => {
            return None;
        },
    };
    let first = match find_task(tasks, id.as_str()) {
        Some(first) => first,
        None => {
            return None;
        },
    };
    assert(forall|i: int| submission(*draft, tasks@, input@, i) ==> i == first as int);
    let plan = &tasks[first].plan;
    if plan.source_id.as_str().is_empty() || !same(plan.source.input.as_str(), input)
        || plan.source.online != draft.online {
        return None;
    }
    if let Some(source) = &draft.source {
        if !same(source.identity.as_str(), plan.source_id.as_str()) || source.online
            != draft.online {
            return None;
        }
    }
    Some(first)
}

/// The task has ended with something that can be read.
pub open spec fn is_readable(task: TaskRecord) -> bool {
    task.state.is_published() && task.artifact is Some
}

/// The current task of an input, once there is a result to read.
pub fn completed_input_task<'a>(
    draft: &Draft,
    tasks: &'a [TaskRecord],
    input: &str,
) -> (result: Option<&'a TaskRecord>)
    ensures
        match result {
            Some(task) => is_readable(*task) && exists|i: int|
                current_task(*draft, tasks@, input@, i) && *task == #[trigger] tasks@[i],
            None => forall|i: int|
                current_task(*draft, tasks@, input@, i) ==> !is_readable(#[trigger] tasks@[i]),
        },
{
    match submitted_input_task(draft, tasks, input) {
        Some(task) => {
            if task.state.published() && task.artifact.is_some() {
                Some(task)
            } else {
                proof {
                    only_current(*draft, tasks@, input@, *task);
                }
                None
            }
        },
        None => None,
    }
}

/// The current task is the one that was found.
pub proof fn only_current(draft: Draft, tasks: Seq<TaskRecord>, input: Seq<char>, task: TaskRecord)
    requires
        exists|i: int| current_task(draft, tasks, input, i) && task == #[trigger] tasks[i],
    ensures
        forall|i: int| current_task(draft, tasks, input, i) ==> task == #[trigger] tasks[i],
{
    let i = choose|i: int| current_task(draft, tasks, input, i) && task == #[trigger] tasks[i];
    assert forall|j: int| current_task(draft, tasks, input, j) implies task == #[trigger] tasks[j] by {
        current_task_is_unique(draft, tasks, input, i, j);
    }
}

/// The task is over, nothing about it is open, and it was either given up or has
/// a result.
pub open spec fn is_settled(task: TaskRecord) -> bool {
    &&& task.state.is_finished()
    &&& !task.has_uncertain_request()
    &&& task.state is Cancelled || task.artifact is Some
}

/// Nothing in the draft was changed after the given task was submitted from it.
pub open spec fn is_unchanged(draft: Draft, submitted: TaskRecord) -> bool {
    &&& draft.title@ == submitted.plan.title@
    &&& draft.options.equals(submitted.plan.options)
    &&& draft.library_id@ == submitted.plan.library_id@
    &&& draft.folder == submitted.plan.folder
    &&& text_of(draft.subtitle) == text_of(submitted.plan.subtitle)
    &&& draft.asr_service is Some ==> text_of(draft.asr_service) == text_of(
        submitted.plan.asr_service,
    )
    &&& draft.ai_service is Some ==> text_of(draft.ai_service) == text_of(submitted.plan.ai_service)
}

/// The task at `i` is the current one of the input, and the input is history: it
/// is settled and the form still says what was submitted.
pub open spec fn is_retired(draft: Draft, tasks: Seq<TaskRecord>, input: Seq<char>, i: int) -> bool {
    &&& current_task(draft, tasks, input, i)
    &&& is_settled(tasks[i])
    &&& forall|first: int| #[trigger]
        submission(draft, tasks, input, first) ==> is_unchanged(draft, tasks[first])
}

/// The current task of an input that is history when the workbench is entered. A
/// running or paused recovery, an uncertain request, and any change after the
/// submission keep the input in place.
pub fn retired_input_task<'a>(
    draft: &Draft,
    tasks: &'a [TaskRecord],
    input: &str,
) -> (result: Option<&'a TaskRecord>)
    ensures
        match result {
            Some(task) => exists|i: int|
                is_retired(*draft, tasks@, input@, i) && *task == #[trigger] tasks@[i],
            None => forall|i: int| !is_retired(*draft, tasks@, input@, i),
        },
        forall|i: int|
            is_retired(*draft, tasks@, input@, i) ==> result is Some && *result->0
                == #[trigger] tasks@[i],
        result is Some == is_history(*draft, tasks@, input@),
{
    reveal(is_history);
    let task = match submitted_input_task(draft, tasks, input) {
        Some(task) => task,
        None => {
            return None;
        },
    };
    proof {
        only_current(*draft, tasks@, input@, *task);
    }
    if !task.state.finished() || task.uncertain_request() || (!matches!(
        task.state,
        crate::workspace::TaskState::Cancelled
    ) && task.artifact.is_none()) {
        assert(!is_settled(*task));
        return None;
    }
    let submitted = match submitted_position(draft, tasks, input) {
        Some(first) => &tasks[first],
        None => {
            return None;
        },
    };
    if unchanged(draft, submitted) {
        assert forall|first: int| #[trigger] submission(*draft, tasks@, input@, first) implies
            is_unchanged(*draft, tasks@[first]) by {}
        let ghost i = choose|i: int|
            current_task(*draft, tasks@, input@, i) && *task == #[trigger] tasks@[i];
        assert(is_retired(*draft, tasks@, input@, i));
        Some(task)
    } else {
        None
    }
}

fn unchanged(draft: &Draft, submitted: &TaskRecord) -> (result: bool)
    ensures
        result == is_unchanged(*draft, *submitted),
{
    let plan = &submitted.plan;
    same(draft.title.as_str(), plan.title.as_str()) && draft.options.same_choices(&plan.options)
        && same(draft.library_id.as_str(), plan.library_id.as_str()) && same_folder(
        draft.folder,
        plan.folder,
    ) && same_option(&draft.subtitle, &plan.subtitle) && (draft.asr_service.is_none()
        || same_option(&draft.asr_service, &plan.asr_service)) && (draft.ai_service.is_none()
        || same_option(&draft.ai_service, &plan.ai_service))
}

/// Whether two folder choices are the same.
pub fn same_folder(a: Option<u64>, b: Option<u64>) -> (result: bool)
    ensures
        result == (a == b),
{
    match (a, b) {
        (Some(left), Some(right)) => left == right,
        (None, None) => true,
        _ => false,
    }
}

/// Whatever is retired was readable or given up, and neither runs nor waits.
pub proof fn retired_is_over(draft: Draft, tasks: Seq<TaskRecord>, input: Seq<char>, i: int)
    requires
        is_retired(draft, tasks, input, i),
    ensures
        tasks[i].state is Cancelled || is_readable(tasks[i]),
{
}

/// A task belongs to an input only while the form shows that very input.
pub proof fn another_input_has_no_task(
    draft: Draft,
    tasks: Seq<TaskRecord>,
    input: Seq<char>,
    i: int,
)
    requires
        draft.input@ != input || is_blank(input),
    ensures
        !current_task(draft, tasks, input, i),
{
    if current_task(draft, tasks, input, i) {
        let chain = choose|chain: Seq<int>| #[trigger]
            recovery_chain(draft, tasks, input, chain) && chain.last() == i;
        assert(submission(draft, tasks, input, chain[0]));
    }
}

/// The current task is never one that was handed on, and works on the source that
/// was submitted.
pub proof fn current_task_is_the_last(
    draft: Draft,
    tasks: Seq<TaskRecord>,
    input: Seq<char>,
    i: int,
    first: int,
)
    requires
        current_task(draft, tasks, input, i),
        submission(draft, tasks, input, first),
    ensures
        0 <= i < tasks.len(),
        tasks[i].handled_by is None,
        works_on(tasks, i, tasks[first].plan.source_id@, draft.online),
{
    let chain = choose|chain: Seq<int>| #[trigger]
        recovery_chain(draft, tasks, input, chain) && chain.last() == i;
    assert(chain[0] == first);
    assert(chain[chain.len() - 1] == i);
}

fn visited_before(visited: &Vec<usize>, at: usize) -> (result: bool)
    ensures
        result == positions(visited@).contains(at as int),
{
    let mut i: usize = 0;
    while i < visited.len()
        invariant
            i <= visited@.len(),
            forall|j: int| 0 <= j < i ==> #[trigger] visited@[j] != at,
        decreases visited@.len() - i,
    {
        if visited[i] == at {
            assert(positions(visited@)[i as int] == at as int);
            return true;
        }
        i += 1;
    }
    assert forall|j: int| 0 <= j < visited@.len() implies positions(visited@)[j] != at as int by {
        assert(visited@[j] != at);
    }
    false
}

// -------------------------------------------------------------- what may change

/// The two records say the same of who works on what for whom. Their state, error,
/// result and requests may differ.
pub open spec fn same_links(a: TaskRecord, b: TaskRecord) -> bool {
    &&& a.id@ == b.id@
    &&& text_of(a.parent) == text_of(b.parent)
    &&& text_of(a.handled_by) == text_of(b.handled_by)
    &&& a.plan.source_id@ == b.plan.source_id@
    &&& a.plan.source.identity@ == b.plan.source.identity@
    &&& a.plan.source.input@ == b.plan.source.input@
    &&& a.plan.source.online == b.plan.source.online
}

/// Nothing leads to a record with this id: neither was it submitted, nor did it take
/// over from one of the tasks.
pub open spec fn is_unrelated(draft: Draft, tasks: Seq<TaskRecord>, id: Seq<char>) -> bool {
    &&& text_of(draft.submitted_task) != Some(id)
    &&& forall|k: int|
        0 <= k < tasks.len() ==> text_of((#[trigger] tasks[k]).handled_by) != Some(id)
}

/// `after` holds the tasks, the one at `k` at `places[k]`, in any order and with
/// unrelated records among them.
pub open spec fn keeps_links(
    draft: Draft,
    tasks: Seq<TaskRecord>,
    after: Seq<TaskRecord>,
    places: Seq<int>,
) -> bool {
    &&& places.len() == tasks.len()
    &&& places.no_duplicates()
    &&& forall|k: int|
        0 <= k < tasks.len() ==> 0 <= #[trigger] places[k] < after.len() && same_links(
            tasks[k],
            after[places[k]],
        )
    &&& forall|j: int|
        0 <= j < after.len() && !places.contains(j) ==> is_unrelated(
            draft,
            tasks,
            (#[trigger] after[j]).id@,
        )
}

proof fn only_task_is_kept(
    draft: Draft,
    tasks: Seq<TaskRecord>,
    after: Seq<TaskRecord>,
    places: Seq<int>,
    id: Seq<char>,
    i: int,
)
    requires
        keeps_links(draft, tasks, after, places),
        only_task(tasks, id, i),
        !is_unrelated(draft, tasks, id),
    ensures
        only_task(after, id, places[i]),
{
    assert(same_links(tasks[i], after[places[i]]));
    assert forall|j: int| 0 <= j < after.len() && j != places[i] implies (#[trigger] after[j]).id@
        != id by {
        if places.contains(j) {
            let k = places.index_of(j);
            assert(places[k] == j);
            assert(same_links(tasks[k], after[places[k]]));
        }
    }
}

/// The current task stays the current one.
proof fn current_task_is_kept(
    draft: Draft,
    tasks: Seq<TaskRecord>,
    after: Seq<TaskRecord>,
    places: Seq<int>,
    input: Seq<char>,
    i: int,
)
    requires
        keeps_links(draft, tasks, after, places),
        current_task(draft, tasks, input, i),
    ensures
        current_task(draft, after, input, places[i]),
{
    let chain = choose|chain: Seq<int>| #[trigger]
        recovery_chain(draft, tasks, input, chain) && chain.last() == i;
    let moved = Seq::new(chain.len(), |k: int| places[chain[k]]);
    let first = chain[0];
    assert(same_links(tasks[first], after[places[first]]));
    only_task_is_kept(draft, tasks, after, places, draft.submitted_task->0@, first);
    assert forall|k: int| 0 <= k < moved.len() implies 0 <= #[trigger] moved[k] < after.len()
        && works_on(after, moved[k], after[moved[0]].plan.source_id@, draft.online) by {
        let at = chain[k];
        assert(works_on(tasks, chain[k], tasks[chain[0]].plan.source_id@, draft.online));
        assert(same_links(tasks[at], after[places[at]]));
    }
    assert forall|k: int| 0 <= k < moved.len() - 1 implies handed_on(
        after,
        #[trigger] moved[k],
        moved[k + 1],
    ) by {
        let (from, to) = (chain[k], chain[k + 1]);
        assert(handed_on(tasks, chain[k], chain[k + 1]));
        assert(same_links(tasks[from], after[places[from]]));
        assert(same_links(tasks[to], after[places[to]]));
        only_task_is_kept(draft, tasks, after, places, tasks[from].handled_by->0@, to);
    }
    let last = chain.last();
    assert(same_links(tasks[last], after[places[last]]));
    assert(recovery_chain(draft, after, input, moved));
}

proof fn chain_was_there(
    draft: Draft,
    tasks: Seq<TaskRecord>,
    after: Seq<TaskRecord>,
    places: Seq<int>,
    input: Seq<char>,
    chain: Seq<int>,
    k: int,
)
    requires
        keeps_links(draft, tasks, after, places),
        recovery_chain(draft, after, input, chain),
        0 <= k < chain.len(),
    ensures
        places.contains(chain[k]),
    decreases k,
{
    assert(0 <= chain[k] < after.len());
    if k > 0 {
        chain_was_there(draft, tasks, after, places, input, chain, k - 1);
        let at = places.index_of(chain[k - 1]);
        assert(places[at] == chain[k - 1]);
        assert(handed_on(after, chain[k - 1], chain[k - 1 + 1]));
        assert(same_links(tasks[at], after[places[at]]));
        assert(text_of(tasks[at].handled_by) == Some(after[chain[k]].id@));
    }
}

proof fn only_task_was_there(
    draft: Draft,
    tasks: Seq<TaskRecord>,
    after: Seq<TaskRecord>,
    places: Seq<int>,
    id: Seq<char>,
    i: int,
)
    requires
        keeps_links(draft, tasks, after, places),
        0 <= i < tasks.len(),
        only_task(after, id, places[i]),
    ensures
        only_task(tasks, id, i),
{
    assert(same_links(tasks[i], after[places[i]]));
    assert forall|k: int| 0 <= k < tasks.len() && k != i implies (#[trigger] tasks[k]).id@ != id by {
        assert(places[k] != places[i]);
        assert(same_links(tasks[k], after[places[k]]));
        assert(after[places[k]].id@ != id);
    }
}

/// What is the current task was it before.
proof fn current_task_was_there(
    draft: Draft,
    tasks: Seq<TaskRecord>,
    after: Seq<TaskRecord>,
    places: Seq<int>,
    input: Seq<char>,
    j: int,
) -> (i: int)
    requires
        keeps_links(draft, tasks, after, places),
        current_task(draft, after, input, j),
    ensures
        0 <= i < tasks.len(),
        places[i] == j,
        current_task(draft, tasks, input, i),
{
    let chain = choose|chain: Seq<int>| #[trigger]
        recovery_chain(draft, after, input, chain) && chain.last() == j;
    let back = Seq::new(chain.len(), |k: int| places.index_of(chain[k]));
    assert forall|k: int| 0 <= k < chain.len() implies 0 <= #[trigger] back[k] < tasks.len()
        && places[back[k]] == chain[k] && same_links(tasks[back[k]], after[chain[k]]) by {
        chain_was_there(draft, tasks, after, places, input, chain, k);
        assert(places[back[k]] == chain[k]);
    }
    assert(places[back[0]] == chain[0]);
    only_task_was_there(draft, tasks, after, places, draft.submitted_task->0@, back[0]);
    assert forall|k: int| 0 <= k < back.len() implies 0 <= #[trigger] back[k] < tasks.len()
        && works_on(tasks, back[k], tasks[back[0]].plan.source_id@, draft.online) by {
        assert(works_on(after, chain[k], after[chain[0]].plan.source_id@, draft.online));
        assert(same_links(tasks[back[k]], after[chain[k]]));
        assert(same_links(tasks[back[0]], after[chain[0]]));
    }
    assert forall|k: int| 0 <= k < back.len() - 1 implies handed_on(
        tasks,
        #[trigger] back[k],
        back[k + 1],
    ) by {
        assert(handed_on(after, chain[k], chain[k + 1]));
        assert(same_links(tasks[back[k]], after[chain[k]]));
        assert(same_links(tasks[back[k + 1]], after[chain[k + 1]]));
        assert(places[back[k + 1]] == chain[k + 1]);
        only_task_was_there(
            draft,
            tasks,
            after,
            places,
            after[chain[k]].handled_by->0@,
            back[k + 1],
        );
    }
    let last = chain.len() - 1;
    assert(same_links(tasks[back[last]], after[chain[last]]));
    assert(recovery_chain(draft, tasks, input, back));
    back.last()
}

/// Which task belongs to an input does not change when the tasks are put in another
/// order, when their state, error, result or requests change, or when records join
/// them to which nothing leads: there is one before if and only if there is one
/// after, and it has the same id.
pub proof fn other_records_do_not_count(
    draft: Draft,
    tasks: Seq<TaskRecord>,
    after: Seq<TaskRecord>,
    places: Seq<int>,
    input: Seq<char>,
)
    requires
        keeps_links(draft, tasks, after, places),
    ensures
        (exists|i: int| current_task(draft, tasks, input, i)) <==> (exists|j: int|
            current_task(draft, after, input, j)),
        forall|i: int, j: int|
            current_task(draft, tasks, input, i) && current_task(draft, after, input, j) ==> j
                == places[i] && tasks[i].id@ == after[j].id@,
{
    assert forall|i: int| current_task(draft, tasks, input, i) implies 0 <= i < tasks.len()
        && current_task(draft, after, input, places[i]) by {
        current_task_is_kept(draft, tasks, after, places, input, i);
        let chain = choose|chain: Seq<int>| #[trigger]
            recovery_chain(draft, tasks, input, chain) && chain.last() == i;
        assert(0 <= chain[chain.len() - 1] < tasks.len());
    }
    assert forall|j: int| current_task(draft, after, input, j) implies exists|i: int|
        current_task(draft, tasks, input, i) by {
        let i = current_task_was_there(draft, tasks, after, places, input, j);
        assert(current_task(draft, tasks, input, i));
    }
    assert forall|i: int, j: int|
        current_task(draft, tasks, input, i) && current_task(draft, after, input, j) implies j
        == places[i] && tasks[i].id@ == after[j].id@ by {
        current_task_is_kept(draft, tasks, after, places, input, i);
        current_task_is_unique(draft, after, input, places[i], j);
        assert(same_links(tasks[i], after[places[i]]));
    }
}

// ------------------------------------------------------------ after a submission

/// An input is history only while the form says what was submitted: whatever choice on
/// it differs from the plan keeps the input on the workbench.
pub proof fn a_changed_form_is_not_history(
    draft: Draft,
    tasks: &[TaskRecord],
    input: &str,
    found: Option<&TaskRecord>,
    first: int,
)
    requires
        call_ensures(retired_input_task, (&draft, tasks, input), found),
        submission(draft, tasks@, input@, first),
        ({
            let plan = tasks@[first].plan;
            ||| draft.title@ != plan.title@
            ||| draft.library_id@ != plan.library_id@
            ||| draft.folder != plan.folder
            ||| text_of(draft.subtitle) != text_of(plan.subtitle)
            ||| draft.options.provider != plan.options.provider
            ||| draft.options.source_mode != plan.options.source_mode
            ||| draft.options.llm != plan.options.llm
            ||| draft.options.summarize != plan.options.summarize
            ||| draft.options.vision != plan.options.vision
            ||| draft.options.keep_video != plan.options.keep_video
            ||| draft.options.resume != plan.options.resume
            ||| draft.options.formats[0] != plan.options.formats[0]
            ||| draft.options.formats[1] != plan.options.formats[1]
            ||| draft.options.formats[2] != plan.options.formats[2]
            ||| draft.asr_service is Some && text_of(draft.asr_service) != text_of(plan.asr_service)
            ||| draft.ai_service is Some && text_of(draft.ai_service) != text_of(plan.ai_service)
        }),
    ensures
        found is None,
{
    if found is Some {
        let i = choose|i: int|
            is_retired(draft, tasks@, input@, i) && *found->0 == #[trigger] tasks@[i];
        assert(is_unchanged(draft, tasks@[first]));
    }
}

/// Two forms that are both as they were submitted say the same, but for a service that
/// one of them leaves open.
pub proof fn unchanged_forms_agree(a: Draft, b: Draft, submitted: TaskRecord)
    requires
        is_unchanged(a, submitted),
        is_unchanged(b, submitted),
    ensures
        a.title@ == b.title@,
        a.library_id@ == b.library_id@,
        a.folder == b.folder,
        text_of(a.subtitle) == text_of(b.subtitle),
        a.options.provider == b.options.provider,
        a.options.source_mode == b.options.source_mode,
        a.options.llm == b.options.llm,
        a.options.summarize == b.options.summarize,
        a.options.vision == b.options.vision,
        a.options.keep_video == b.options.keep_video,
        a.options.resume == b.options.resume,
        a.options.formats[0] == b.options.formats[0],
        a.options.formats[1] == b.options.formats[1],
        a.options.formats[2] == b.options.formats[2],
        a.asr_service is Some && b.asr_service is Some ==> text_of(a.asr_service) == text_of(
            b.asr_service,
        ),
        a.ai_service is Some && b.ai_service is Some ==> text_of(a.ai_service) == text_of(
            b.ai_service,
        ),
{
}

/// An input whose task was given up or has a result, with nothing open about it, is
/// history while the form still says what was submitted.
#[verifier::rlimit(40)]
pub proof fn a_settled_input_is_history(
    draft: Draft,
    tasks: &[TaskRecord],
    input: &str,
    current: Option<&TaskRecord>,
    found: Option<&TaskRecord>,
    first: int,
)
    requires
        call_ensures(submitted_input_task, (&draft, tasks, input), current),
        call_ensures(retired_input_task, (&draft, tasks, input), found),
        submission(draft, tasks@, input@, first),
        ({
            let plan = tasks@[first].plan;
            &&& draft.title@ == plan.title@
            &&& draft.library_id@ == plan.library_id@
            &&& draft.folder == plan.folder
            &&& text_of(draft.subtitle) == text_of(plan.subtitle)
            &&& draft.options == plan.options
            &&& draft.asr_service is None || text_of(draft.asr_service) == text_of(plan.asr_service)
            &&& draft.ai_service is None || text_of(draft.ai_service) == text_of(plan.ai_service)
        }),
        current is Some,
        current->0.state is Cancelled || ((current->0.state is Complete || current->0.state
            is Partial) && current->0.artifact is Some),
        forall|i: int|
            0 <= i < current->0.blocked@.len() ==> (#[trigger] current->0.blocked@[i]).reason@
                != "uncertain"@,
    ensures
        found matches Some(task) && *task == *current->0,
{
    let task = *current->0;
    let i = choose|i: int|
        current_task(draft, tasks@, input@, i) && task == #[trigger] tasks@[i];
    assert forall|other: int| #[trigger] submission(draft, tasks@, input@, other) implies
        is_unchanged(draft, tasks@[other]) by {
        assert(other == first);
    }
    assert(is_retired(draft, tasks@, input@, i));
    if found is Some {
        let j = choose|j: int|
            is_retired(draft, tasks@, input@, j) && *found->0 == #[trigger] tasks@[j];
        current_task_is_unique(draft, tasks@, input@, i, j);
    }
}

/// What is history has ended, is not open in any request, and was given up or can be
/// read.
#[verifier::rlimit(40)]
pub proof fn history_has_ended(
    draft: Draft,
    tasks: &[TaskRecord],
    input: &str,
    found: Option<&TaskRecord>,
)
    requires
        call_ensures(retired_input_task, (&draft, tasks, input), found),
    ensures
        found matches Some(task) ==> {
            &&& task.state is Cancelled || ((task.state is Complete || task.state is Partial)
                && task.artifact is Some)
            &&& forall|i: int|
                0 <= i < task.blocked@.len() ==> (#[trigger] task.blocked@[i]).reason@
                    != "uncertain"@
            &&& task.handled_by is None
        },
{
    if found is Some {
        let i = choose|i: int|
            is_retired(draft, tasks@, input@, i) && *found->0 == #[trigger] tasks@[i];
        let chain = choose|chain: Seq<int>| #[trigger]
            recovery_chain(draft, tasks@, input@, chain) && chain.last() == i;
        assert(tasks@[chain.last()].handled_by is None);
    }
}

/// A result of an input can be read exactly where the task that belongs to the input
/// has ended with one, and it is that task's.
#[verifier::rlimit(40)]
pub proof fn a_result_is_the_current_task(
    draft: Draft,
    tasks: &[TaskRecord],
    input: &str,
    current: Option<&TaskRecord>,
    completed: Option<&TaskRecord>,
)
    requires
        call_ensures(submitted_input_task, (&draft, tasks, input), current),
        call_ensures(completed_input_task, (&draft, tasks, input), completed),
    ensures
        completed is Some <==> (current matches Some(task) && (task.state is Complete || task.state
            is Partial) && task.artifact is Some),
        completed is Some ==> *completed->0 == *current->0,
{
    if current is Some {
        only_current(draft, tasks@, input@, *current->0);
    }
    if completed is Some {
        only_current(draft, tasks@, input@, *completed->0);
        let i = choose|i: int|
            current_task(draft, tasks@, input@, i) && *completed->0 == #[trigger] tasks@[i];
        assert(current is Some);
    }
    if current is Some {
        let i = choose|i: int|
            current_task(draft, tasks@, input@, i) && *current->0 == #[trigger] tasks@[i];
        assert(tasks@[i] == *current->0);
    }
}

proof fn current_is_found(
    draft: Draft,
    tasks: &[TaskRecord],
    input: &str,
    found: Option<&TaskRecord>,
    i: int,
)
    requires
        call_ensures(submitted_input_task, (&draft, tasks, input), found),
        current_task(draft, tasks@, input@, i),
    ensures
        found matches Some(task) && *task == tasks@[i],
{
    if found is Some {
        only_current(draft, tasks@, input@, *found->0);
        assert(*found->0 == tasks@[i]);
    }
}

/// The submitted task belongs to the input for as long as nobody took it over.
pub proof fn the_submitted_task_belongs_to_its_input(
    draft: Draft,
    tasks: &[TaskRecord],
    input: &str,
    found: Option<&TaskRecord>,
    i: int,
)
    requires
        call_ensures(submitted_input_task, (&draft, tasks, input), found),
        0 <= i < tasks@.len(),
        forall|j: int| 0 <= j < tasks@.len() && j != i ==> (#[trigger] tasks@[j]).id@ != tasks@[i].id@,
        text_of(draft.submitted_task) == Some(tasks@[i].id@),
        draft.input@ == input@ && !is_blank(input@),
        tasks@[i].handled_by is None,
        ({
            let plan = tasks@[i].plan;
            &&& plan.source.input@ == input@
            &&& plan.source.online == draft.online
            &&& plan.source_id@.len() > 0
            &&& plan.source.identity@ == plan.source_id@
            &&& draft.source matches Some(source) ==> source.identity@ == plan.source_id@
                && source.online == draft.online
        }),
    ensures
        found matches Some(task) && *task == tasks@[i],
{
    let chain = seq![i];
    assert(recovery_chain(draft, tasks@, input@, chain));
    assert(chain.last() == i);
    assert(current_task(draft, tasks@, input@, i));
    current_is_found(draft, tasks, input, found, i);
}

/// A task that took over belongs to the input in place of the one before: following
/// from the one that was taken over leads where following from its successor leads.
#[verifier::rlimit(40)]
pub proof fn a_recovery_is_followed(
    draft: Draft,
    tasks: Seq<TaskRecord>,
    input: Seq<char>,
    later: Draft,
    from: int,
    to: int,
    i: int,
)
    requires
        submission(draft, tasks, input, from),
        submission(later, tasks, input, to),
        later.online == draft.online,
        text_of(tasks[from].handled_by) == Some(tasks[to].id@),
        text_of(tasks[to].parent) == Some(tasks[from].id@),
        tasks[from].plan.source.identity@ == tasks[from].plan.source_id@,
        tasks[from].plan.source_id@ == tasks[to].plan.source_id@,
    ensures
        current_task(later, tasks, input, i) <==> current_task(draft, tasks, input, i),
{
    assert(handed_on(tasks, from, to));
    if current_task(later, tasks, input, i) {
        let rest = choose|chain: Seq<int>| #[trigger]
            recovery_chain(later, tasks, input, chain) && chain.last() == i;
        assert(rest[0] == to);
        let chain = seq![from] + rest;
        assert(chain[0] == from);
        assert forall|k: int| 0 <= k < chain.len() implies 0 <= #[trigger] chain[k] < tasks.len()
            && works_on(tasks, chain[k], tasks[chain[0]].plan.source_id@, draft.online) by {
            if k > 0 {
                assert(chain[k] == rest[k - 1]);
            }
        }
        assert forall|k: int| 0 <= k < chain.len() - 1 implies handed_on(
            tasks,
            #[trigger] chain[k],
            chain[k + 1],
        ) by {
            assert(chain[k + 1] == rest[k]);
            if k > 0 {
                assert(chain[k] == rest[k - 1]);
                assert(handed_on(tasks, rest[k - 1], rest[k - 1 + 1]));
            }
        }
        assert(chain.last() == rest.last());
        assert(recovery_chain(draft, tasks, input, chain));
    }
    if current_task(draft, tasks, input, i) {
        let chain = choose|chain: Seq<int>| #[trigger]
            recovery_chain(draft, tasks, input, chain) && chain.last() == i;
        assert(chain[0] == from);
        assert(tasks[from].handled_by is Some);
        assert(chain.len() > 1);
        assert(handed_on(tasks, chain[0], chain[0int + 1]));
        let rest = chain.skip(1);
        assert(rest[0] == chain[1] && chain[1] == to);
        assert forall|k: int| 0 <= k < rest.len() implies 0 <= #[trigger] rest[k] < tasks.len()
            && works_on(tasks, rest[k], tasks[rest[0]].plan.source_id@, later.online) by {
            assert(rest[k] == chain[k + 1]);
        }
        assert forall|k: int| 0 <= k < rest.len() - 1 implies handed_on(
            tasks,
            #[trigger] rest[k],
            rest[k + 1],
        ) by {
            assert(rest[k] == chain[k + 1]);
            assert(handed_on(tasks, chain[k + 1], chain[k + 1 + 1]));
        }
        assert(rest.last() == chain.last());
        assert(recovery_chain(later, tasks, input, rest));
    }
}

/// What belongs to an input was submitted for it: an input without a submission, or
/// whose submitted record cannot be told, has no task.
pub proof fn without_a_submission_there_is_no_task(
    draft: Draft,
    tasks: &[TaskRecord],
    input: &str,
    found: Option<&TaskRecord>,
)
    requires
        call_ensures(submitted_input_task, (&draft, tasks, input), found),
        found is Some,
    ensures
        draft.input@ == input@,
        draft.submitted_task is Some,
        exists|i: int|
            0 <= i < tasks@.len() && (#[trigger] tasks@[i]).id@ == draft.submitted_task->0@
                && tasks@[i].plan.source.input@ == input@ && tasks@[i].plan.source_id@
                == found->0.plan.source_id@,
        found->0.plan.source.online == draft.online,
        found->0.handled_by is None,
{
    let i = choose|i: int|
        current_task(draft, tasks@, input@, i) && *found->0 == #[trigger] tasks@[i];
    let chain = choose|chain: Seq<int>| #[trigger]
        recovery_chain(draft, tasks@, input@, chain) && chain.last() == i;
    assert(submission(draft, tasks@, input@, chain[0]));
    assert(tasks@[chain[0]].id@ == draft.submitted_task->0@);
    assert(works_on(tasks@, chain[chain.len() - 1], tasks@[chain[0]].plan.source_id@, draft.online));
}

/// The input is history: one of the tasks is its current one, and settled, and the form
/// still says what was submitted.
#[verifier::opaque]
pub open spec fn is_history(draft: Draft, tasks: Seq<TaskRecord>, input: Seq<char>) -> bool {
    exists|i: int| is_retired(draft, tasks, input, i)
}

} // verus!
