//! Reading notes: which read still counts, what is told of it, and where reading
//! goes on.
use crate::follow::{slice_of, ConversionFollow};
use crate::notes::Course;
use crate::table::Table;
use crate::text::{begins, same, starts_with};
use crate::workbench::{following_generation, next_generation};
use crate::workspace::{is_text, text_of, LibraryLocation, Page, TaskRecord};
use vstd::prelude::*;
use vstd::string::*;

verus! {

// ------------------------------------------------------------------- positions

/// The key of a reading position: the note, its version, and the way of reading.
pub open spec fn position_key(course: Seq<char>, version: Seq<char>, tab: bool) -> Seq<char> {
    course + ":"@ + version + ":"@ + (if tab {
        "1"@
    } else {
        "0"@
    })
}

/// The key of a reading position.
pub fn reading_key(course: &str, version: &str, tab: bool) -> (result: String)
    ensures
        result@ == position_key(course@, version@, tab),
{
    let mut key = course.to_owned();
    key.append(":");
    key.append(version);
    key.append(":");
    key.append(
        if tab {
            "1"
        } else {
            "0"
        },
    );
    key
}

/// The positions after the one of an old version was carried over to a new version,
/// where the new one has none.
pub open spec fn carried<V>(
    positions: Map<Seq<char>, V>,
    from: Seq<char>,
    to: Seq<char>,
) -> Map<Seq<char>, V> {
    if positions.contains_key(from) && !positions.contains_key(to) {
        positions.insert(to, positions[from])
    } else {
        positions
    }
}

/// The positions after a repair: both ways of reading go on in the new version.
pub open spec fn carried_over<V>(
    positions: Map<Seq<char>, V>,
    previous: (Seq<char>, Seq<char>),
    next: (Seq<char>, Seq<char>),
) -> Map<Seq<char>, V> {
    if previous.0 != next.0 || previous.1 == next.1 {
        positions
    } else {
        let first = carried(
            positions,
            position_key(previous.0, previous.1, false),
            position_key(next.0, next.1, false),
        );
        carried(
            first,
            position_key(previous.0, previous.1, true),
            position_key(next.0, next.1, true),
        )
    }
}

/// Carries the reading positions of a note over to its repaired version. What the
/// new version has already is kept.
pub fn carry_repaired_reading_positions<V: Copy>(
    positions: &mut Table<String, V>,
    previous: (&str, &str),
    next: (&str, &str),
)
    requires
        old(positions).wf(),
    ensures
        final(positions).wf(),
        final(positions).map() == carried_over(
            old(positions).map(),
            (previous.0@, previous.1@),
            (next.0@, next.1@),
        ),
{
    if !same(previous.0, next.0) || same(previous.1, next.1) {
        return ;
    }
    carry(positions, reading_key(previous.0, previous.1, false), reading_key(next.0, next.1, false));
    carry(positions, reading_key(previous.0, previous.1, true), reading_key(next.0, next.1, true));
}

fn carry<V: Copy>(positions: &mut Table<String, V>, from: String, to: String)
    requires
        old(positions).wf(),
    ensures
        final(positions).wf(),
        final(positions).map() == carried(old(positions).map(), from@, to@),
{
    let found = match positions.get(&from) {
        Some(position) => Some(*position),
        None => None,
    };
    if let Some(position) = found {
        if !positions.contains(&to) {
            positions.insert(to, position);
        }
    }
}

/// Carrying positions over loses and changes none, adds only those of the new
/// version, and does the same twice as once.
pub proof fn carrying_over_only_adds<V>(
    positions: Map<Seq<char>, V>,
    previous: (Seq<char>, Seq<char>),
    next: (Seq<char>, Seq<char>),
    key: Seq<char>,
)
    ensures
        positions.contains_key(key) ==> carried_over(positions, previous, next).contains_key(key)
            && carried_over(positions, previous, next)[key] == positions[key],
        carried_over(positions, previous, next).contains_key(key) && !positions.contains_key(key)
            ==> key == position_key(next.0, next.1, false) || key == position_key(
            next.0,
            next.1,
            true,
        ),
        carried_over(carried_over(positions, previous, next), previous, next) == carried_over(
            positions,
            previous,
            next,
        ),
{
    tabs_differ(previous, next);
}

proof fn tabs_differ(a: (Seq<char>, Seq<char>), b: (Seq<char>, Seq<char>))
    ensures
        position_key(a.0, a.1, false) != position_key(b.0, b.1, true),
        position_key(b.0, b.1, false) != position_key(a.0, a.1, true),
{
    reveal_strlit("0");
    reveal_strlit("1");
    assert(position_key(a.0, a.1, false).last() == '0');
    assert(position_key(b.0, b.1, true).last() == '1');
    assert(position_key(b.0, b.1, false).last() == '0');
    assert(position_key(a.0, a.1, true).last() == '1');
}

// --------------------------------------------------------------------- notices

/// A read that succeeded clears a notice only if it is its own: that of its earlier
/// failure, or the one that was there when it began to follow.
pub open spec fn owns_notice(
    message: Option<Seq<char>>,
    failure: Option<Seq<char>>,
    followed: Option<Seq<char>>,
) -> bool {
    message is Some && (message == failure || message == followed)
}

/// Settles the notices after a read that succeeded. Newer, unrelated feedback stays.
pub fn settle_reader_notice(
    current: &mut Option<String>,
    failure: &mut Option<String>,
    followed_notice: Option<&str>,
)
    ensures
        *final(failure) is None,
        *final(current) == (if owns_notice(
            text_of(*old(current)),
            text_of(*old(failure)),
            slice_of(followed_notice),
        ) {
            None
        } else {
            *old(current)
        }),
{
    let failed = failure.take();
    let own = match current.as_ref() {
        Some(message) => is_text(&failed, message.as_str()) || match followed_notice {
            Some(followed) => same(followed, message.as_str()),
            None => false,
        },
        None => false,
    };
    if own {
        *current = None;
    }
}

/// Why a note could not be read.
#[derive(Clone, Copy, Debug, PartialEq, Eq, Structural)]
pub enum ReadFailure {
    NotFound,
    PermissionDenied,
    Other,
}

pub open spec fn failure_text(failure: ReadFailure) -> Seq<char> {
    match failure {
        ReadFailure::NotFound => "笔记文件暂时无法访问。请重新连接保存位置或恢复文件后再次阅读，也可刷新课程库。"@,
        ReadFailure::PermissionDenied => "暂时无法读取这份笔记。请检查保存位置的访问权限后再次阅读，也可刷新课程库。"@,
        ReadFailure::Other => "这份笔记暂时无法读取。请检查保存位置中的文件，恢复可读版本后再次阅读，也可刷新课程库。"@,
    }
}

fn failure_message(failure: ReadFailure) -> (result: String)
    ensures
        result@ == failure_text(failure),
{
    match failure {
        ReadFailure::NotFound => {
            "笔记文件暂时无法访问。请重新连接保存位置或恢复文件后再次阅读，也可刷新课程库。".to_owned()
        },
        ReadFailure::PermissionDenied => {
            "暂时无法读取这份笔记。请检查保存位置的访问权限后再次阅读，也可刷新课程库。".to_owned()
        },
        ReadFailure::Other => {
            "这份笔记暂时无法读取。请检查保存位置中的文件，恢复可读版本后再次阅读，也可刷新课程库。".to_owned()
        },
    }
}

// ----------------------------------------------------------------------- reads

impl ConversionFollow {
    /// Both are the same intent.
    pub open spec fn is_same(self, other: ConversionFollow) -> bool {
        match (self, other) {
            (ConversionFollow::Preparing(a), ConversionFollow::Preparing(b)) => a == b,
            (
                ConversionFollow::Task { id: a, source_revision: m },
                ConversionFollow::Task { id: b, source_revision: n },
            ) => a@ == b@ && m == n,
            (
                ConversionFollow::ReaderTask { id: a, base_version: v, reader_revision: m },
                ConversionFollow::ReaderTask { id: b, base_version: w, reader_revision: n },
            ) => a@ == b@ && v@ == w@ && m == n,
            _ => false,
        }
    }

    pub fn same_intent(&self, other: &ConversionFollow) -> (result: bool)
        ensures
            result == self.is_same(*other),
    {
        match (self, other) {
            (ConversionFollow::Preparing(a), ConversionFollow::Preparing(b)) => *a == *b,
            (
                ConversionFollow::Task { id: a, source_revision: m },
                ConversionFollow::Task { id: b, source_revision: n },
            ) => same(a.as_str(), b.as_str()) && *m == *n,
            (
                ConversionFollow::ReaderTask { id: a, base_version: v, reader_revision: m },
                ConversionFollow::ReaderTask { id: b, base_version: w, reader_revision: n },
            ) => same(a.as_str(), b.as_str()) && same(v.as_str(), w.as_str()) && *m == *n,
            _ => false,
        }
    }
}

/// Where the person is, and which note is being read. The generation counts the
/// reads; the result of an earlier one is ignored.
pub struct ReaderState {
    pub page: Page,
    pub result_origin: Page,
    pub read_generation: u64,
    pub reading: bool,
    pub opening_course: Option<String>,
    pub course_error: Option<(String, String)>,
    pub following: Option<ConversionFollow>,
    pub message: Option<String>,
    pub failure_notice: Option<String>,
    pub shown_version: Option<String>,
    pub transient_result: bool,
}

/// What identifies one read.
pub struct ReadTicket {
    pub generation: u64,
    pub reader_revision: u64,
    pub origin: Page,
    pub dir: String,
    pub follow: Option<ConversionFollow>,
    pub followed_notice: Option<String>,
}

/// Where a note leads back to: to where it was opened from, or, where another note
/// was open, to where that one leads.
pub open spec fn leads_back(page: Page, result_origin: Page) -> Page {
    if page is Result {
        if result_origin is Result {
            Page::Library
        } else {
            result_origin
        }
    } else {
        page
    }
}

impl ReaderState {
    /// Where the application opens: on the workbench, with nothing under way.
    pub fn new() -> (result: ReaderState)
        ensures
            result == (ReaderState {
                page: Page::New,
                result_origin: Page::Library,
                read_generation: 0,
                reading: false,
                opening_course: None,
                course_error: None,
                following: None,
                message: None,
                failure_notice: None,
                shown_version: None,
                transient_result: false,
            }),
    {
        ReaderState {
            page: Page::New,
            result_origin: Page::Library,
            read_generation: 0,
            reading: false,
            opening_course: None,
            course_error: None,
            following: None,
            message: None,
            failure_notice: None,
            shown_version: None,
            transient_result: false,
        }
    }

    /// The state once a result that was about to open over the workbench no longer
    /// counts.
    pub open spec fn without_opening(self) -> ReaderState {
        if self.reading && self.page is New {
            ReaderState {
                read_generation: next_generation(self.read_generation),
                reading: false,
                ..self
            }
        } else {
            self
        }
    }

    /// A start command: a result that is about to open over the workbench waits no
    /// longer.
    pub fn stay_on_workbench(&mut self)
        ensures
            *final(self) == old(self).without_opening(),
    {
        if self.reading && matches!(self.page, Page::New) {
            self.read_generation = following_generation(self.read_generation);
            self.reading = false;
        }
    }

    /// Another input was entered: nothing is followed any more, and a result that is
    /// about to open over the workbench waits no longer.
    pub fn input_changed(&mut self)
        ensures
            *final(self) == (ReaderState { following: None, ..old(self).without_opening() }),
    {
        self.following = None;
        self.stay_on_workbench();
    }

    /// Goes to another page. A read that is under way no longer counts, and only the
    /// workbench keeps following a conversion.
    pub fn navigate(&mut self, page: Page)
        ensures
            *final(self) == (ReaderState {
                transient_result: false,
                following: if !(page is New) || (old(self).following is Some && old(
                    self,
                ).following->0 is ReaderTask) {
                    None
                } else {
                    old(self).following
                },
                read_generation: next_generation(old(self).read_generation),
                reading: false,
                opening_course: None,
                page,
                message: None,
                ..*old(self)
            }),
    {
        self.transient_result = false;
        if !matches!(page, Page::New) || matches!(
            self.following,
            Some(ConversionFollow::ReaderTask { .. })
        ) {
            self.following = None;
        }
        self.read_generation = following_generation(self.read_generation);
        self.reading = false;
        self.opening_course = None;
        self.page = page;
        self.message = None;
    }

    /// Begins to read a note. `follow` is the intent that the read belongs to; a
    /// notice that a task was added is then remembered as its own.
    pub fn open_course_with_conversion_guard(&mut self, dir: String, follow: Option<ConversionFollow>) -> (result:
        ReadTicket)
        ensures
            result.generation == next_generation(old(self).read_generation),
            result.reader_revision == old(self).read_generation,
            result.origin == old(self).page,
            result.dir == dir,
            result.follow == follow,
            text_of(result.followed_notice) == (if follow is Some && old(self).message is Some
                && begins(old(self).message->0@, "已加入任务"@) {
                text_of(old(self).message)
            } else {
                None
            }),
            *final(self) == (ReaderState {
                reading: true,
                opening_course: Some(dir),
                course_error: None,
                read_generation: next_generation(old(self).read_generation),
                result_origin: leads_back(old(self).page, old(self).result_origin),
                ..*old(self)
            }),
    {
        let reader_revision = self.read_generation;
        let followed_notice = match (&follow, &self.message) {
            (Some(_), Some(message)) => {
                if starts_with(message.as_str(), "已加入任务") {
                    Some(message.clone())
                } else {
                    None
                }
            },
            _ => None,
        };
        self.reading = true;
        self.opening_course = Some(dir.clone());
        self.course_error = None;
        self.read_generation = following_generation(self.read_generation);
        self.result_origin = match self.page {
            Page::Result => match self.result_origin {
                Page::Result => Page::Library,
                origin => origin,
            },
            page => page,
        };
        ReadTicket {
            generation: self.read_generation,
            reader_revision,
            origin: self.page,
            dir,
            follow,
            followed_notice,
        }
    }

    /// Opens a note by hand: whatever was followed is no longer.
    pub fn open_course(&mut self, dir: String) -> (result: ReadTicket)
        ensures
            result.generation == next_generation(old(self).read_generation),
            result.reader_revision == old(self).read_generation,
            result.origin == old(self).page,
            result.dir == dir,
            result.follow is None,
            result.followed_notice is None,
            *final(self) == (ReaderState {
                following: None,
                reading: true,
                opening_course: Some(dir),
                course_error: None,
                read_generation: next_generation(old(self).read_generation),
                result_origin: leads_back(old(self).page, old(self).result_origin),
                ..*old(self)
            }),
    {
        self.following = None;
        self.open_course_with_conversion_guard(dir, None)
    }

    /// The read is the latest one, and the person has stayed.
    pub open spec fn read_is_current(self, ticket: ReadTicket) -> bool {
        self.read_generation == ticket.generation && self.page == ticket.origin
    }

    /// The intent that the read belongs to still holds.
    pub open spec fn intent_holds(self, ticket: ReadTicket, preview_generation: u64) -> bool {
        ticket.follow matches Some(follow) ==> {
            &&& self.following matches Some(own) && own.is_same(follow)
            &&& follow.is_current(
                self.page,
                preview_generation,
                ticket.reader_revision,
                text_of(self.shown_version),
            )
        }
    }

    /// The state after a current read has come back: nothing is being read, and a
    /// viewer that is open has ended the waiting for a repair.
    pub open spec fn after_read(self, viewer_open: bool) -> ReaderState {
        ReaderState {
            reading: false,
            opening_course: None,
            following: if viewer_open && self.following is Some && self.following->0
                is ReaderTask {
                None
            } else {
                self.following
            },
            ..self
        }
    }

    /// Takes a read that has come back. Says whether its result is to be shown.
    pub fn accept_read(&mut self, ticket: &ReadTicket, viewer_open: bool, preview_generation: u64) -> (result:
        bool)
        ensures
            !old(self).read_is_current(*ticket) ==> !result && *final(self) == *old(self),
            old(self).read_is_current(*ticket) ==> {
                &&& *final(self) == old(self).after_read(viewer_open)
                &&& result == old(self).after_read(viewer_open).intent_holds(
                    *ticket,
                    preview_generation,
                )
            },
    {
        if self.read_generation != ticket.generation || self.page != ticket.origin {
            return false;
        }
        self.reading = false;
        self.opening_course = None;
        if viewer_open {
            ConversionFollow::interrupt_for_reader_viewer(&mut self.following);
        }
        match &ticket.follow {
            Some(follow) => {
                let held = match &self.following {
                    Some(own) => own.same_intent(follow),
                    None => false,
                };
                let version = match &self.shown_version {
                    Some(dir) => Some(dir.as_str()),
                    None => None,
                };
                held && follow.context_is_current(
                    self.page,
                    preview_generation,
                    ticket.reader_revision,
                    version,
                )
            },
            None => true,
        }
    }

    /// The note is shown. Says whether a notice that it was opened was given.
    pub fn show_note(&mut self, ticket: ReadTicket) -> (result: bool)
        ensures
            ({
                let kept = if owns_notice(
                    text_of(old(self).message),
                    text_of(old(self).failure_notice),
                    text_of(ticket.followed_notice),
                ) {
                    None
                } else {
                    old(self).message
                };
                &&& result == (ticket.follow is Some && kept is None)
                &&& result ==> text_of(final(self).message) == Some("笔记已打开"@)
                &&& !result ==> final(self).message == kept
                &&& *final(self) == (ReaderState {
                    following: None,
                    message: final(self).message,
                    failure_notice: None,
                    shown_version: Some(ticket.dir),
                    page: Page::Result,
                    ..*old(self)
                })
            }),
    {
        let followed = match &ticket.followed_notice {
            Some(notice) => Some(notice.as_str()),
            None => None,
        };
        settle_reader_notice(&mut self.message, &mut self.failure_notice, followed);
        self.following = None;
        self.shown_version = Some(ticket.dir);
        self.page = Page::Result;
        if ticket.follow.is_some() && self.message.is_none() {
            self.message = Some("笔记已打开".to_owned());
            true
        } else {
            false
        }
    }

    /// The note could not be read. The library tells it beside the note; elsewhere it
    /// is told in a notice.
    pub fn fail_read(&mut self, ticket: ReadTicket, failure: ReadFailure)
        ensures
            final(self).course_error matches Some((dir, message)) && dir == ticket.dir && message@
                == failure_text(failure),
            ticket.origin is Library ==> *final(self) == (ReaderState {
                course_error: final(self).course_error,
                ..*old(self)
            }),
            !(ticket.origin is Library) ==> {
                &&& text_of(final(self).message) == Some(failure_text(failure))
                &&& text_of(final(self).failure_notice) == Some(failure_text(failure))
                &&& *final(self) == (ReaderState {
                    course_error: final(self).course_error,
                    message: final(self).message,
                    failure_notice: final(self).failure_notice,
                    ..*old(self)
                })
            },
    {
        let message = failure_message(failure);
        if !matches!(ticket.origin, Page::Library) {
            self.message = Some(message.clone());
            self.failure_notice = Some(message.clone());
        }
        self.course_error = Some((ticket.dir, message));
    }

    /// The error beside a note, where it is the note that could not be read.
    pub fn error_beside(&self, course: &Course) -> (result: Option<&String>)
        ensures
            match (self.course_error, result) {
                (Some((dir, message)), Some(shown)) => dir@ == course.dir@ && *shown == message,
                (Some((dir, _)), None) => dir@ != course.dir@,
                (None, shown) => shown is None,
            },
    {
        match &self.course_error {
            Some((dir, message)) => {
                if same(dir.as_str(), course.dir.as_str()) {
                    Some(message)
                } else {
                    None
                }
            },
            None => None,
        }
    }
}

/// A note that is shown is no longer new: the tasks that made it are read.
pub fn mark_read(tasks: &mut Vec<TaskRecord>, artifact: &str)
    ensures
        final(tasks)@.len() == old(tasks)@.len(),
        forall|i: int|
            0 <= i < old(tasks)@.len() ==> #[trigger] final(tasks)@[i] == (TaskRecord {
                unread: old(tasks)@[i].unread && text_of(old(tasks)@[i].artifact) != Some(artifact@),
                ..old(tasks)@[i]
            }),
{
    let mut i: usize = 0;
    while i < tasks.len()
        invariant
            i <= tasks@.len(),
            tasks@.len() == old(tasks)@.len(),
            forall|j: int|
                0 <= j < i ==> #[trigger] tasks@[j] == (TaskRecord {
                    unread: old(tasks)@[j].unread && text_of(old(tasks)@[j].artifact) != Some(
                        artifact@,
                    ),
                    ..old(tasks)@[j]
                }),
            forall|j: int| i <= j < tasks@.len() ==> #[trigger] tasks@[j] == old(tasks)@[j],
        decreases tasks@.len() - i,
    {
        if is_text(&tasks[i].artifact, artifact) {
            tasks[i].unread = false;
        }
        i += 1;
    }
}

// ------------------------------------------------------------------- libraries

/// `list` with a note placed before the first that is older.
pub open spec fn placed_by_age(list: Seq<Course>, course: Course) -> Seq<Course>
    decreases list.len(),
{
    if list.len() == 0 {
        seq![course]
    } else if list[0].modified < course.modified {
        seq![course] + list
    } else {
        seq![list[0]] + placed_by_age(list.skip(1), course)
    }
}

/// Notes from the newest to the oldest; equal ones keep their order.
pub open spec fn newest_first(courses: Seq<Course>) -> Seq<Course>
    decreases courses.len(),
{
    if courses.len() == 0 {
        Seq::empty()
    } else {
        placed_by_age(newest_first(courses.drop_last()), courses.last())
    }
}

proof fn placed_at(list: Seq<Course>, course: Course, at: int)
    requires
        0 <= at <= list.len(),
        forall|j: int| 0 <= j < at ==> (#[trigger] list[j]).modified >= course.modified,
        at < list.len() ==> list[at].modified < course.modified,
    ensures
        placed_by_age(list, course) == list.insert(at, course),
    decreases list.len(),
{
    if list.len() == 0 {
        assert(list.insert(at, course) =~= seq![course]);
    } else if at == 0 {
        assert(list.insert(0, course) =~= seq![course] + list);
    } else {
        let rest = list.skip(1);
        assert forall|j: int| 0 <= j < at - 1 implies (#[trigger] rest[j]).modified
            >= course.modified by {
            assert(rest[j] == list[j + 1]);
        }
        assert(list[0].modified >= course.modified);
        placed_at(rest, course, at - 1);
        assert(list.insert(at, course) =~= seq![list[0]] + rest.insert(at - 1, course));
    }
}

/// Sorts notes from the newest to the oldest.
pub fn sort_courses(courses: Vec<Course>) -> (result: Vec<Course>)
    ensures
        result@ == newest_first(courses@),
{
    let ghost all = courses@;
    let mut list: Vec<Course> = Vec::new();
    assert(all.take(0) =~= Seq::empty());
    for course in it: courses
        invariant
            it.seq() == all,
            list@ == newest_first(all.take(it.index() as int)),
    {
        let ghost n = it.index() as int;
        assert(all.take(n + 1).drop_last() =~= all.take(n));
        let mut at: usize = 0;
        while at < list.len() && list[at].modified >= course.modified
            invariant
                at <= list@.len(),
                forall|j: int| 0 <= j < at ==> (#[trigger] list@[j]).modified >= course.modified,
            decreases list@.len() - at,
        {
            at += 1;
        }
        proof {
            placed_at(list@, course, at as int);
        }
        list.insert(at, course);
    }
    assert(all.take(all.len() as int) =~= all);
    list
}

/// Which library is shown once all were read.
#[derive(Clone, Copy, Debug, PartialEq, Eq, Structural)]
pub enum ShownLibrary {
    /// The one that was shown.
    Same,
    /// The first that is registered.
    First,
    /// None: its folders could not be read.
    Unreadable,
}

/// The library that was shown stays where its folders could be read; else the first
/// registered one is shown where its folders could be.
pub fn shown_library<V>(
    indexes: &Table<String, V>,
    library_root: &String,
    libraries: &Vec<LibraryLocation>,
) -> (result: ShownLibrary)
    ensures
        result == (if indexes.map().contains_key(library_root@) {
            ShownLibrary::Same
        } else if libraries@.len() > 0 && indexes.map().contains_key(libraries@[0].root@) {
            ShownLibrary::First
        } else {
            ShownLibrary::Unreadable
        }),
{
    if indexes.contains(library_root) {
        ShownLibrary::Same
    } else if libraries.len() > 0 && indexes.contains(&libraries[0].root) {
        ShownLibrary::First
    } else {
        ShownLibrary::Unreadable
    }
}

// ----------------------------------------------------------------------- laws

/// A read that the person has left behind is never shown: neither after another read
/// was begun, nor after going to another page.
pub proof fn a_read_left_behind_is_not_current(state: ReaderState, ticket: ReadTicket)
    requires
        state.read_is_current(ticket),
    ensures
        forall|later: ReaderState| #[trigger]
            later.read_is_current(ticket) ==> later.read_generation == state.read_generation
                && later.page == state.page,
        next_generation(state.read_generation) != ticket.generation,
{
}

/// A note never leads back to itself.
pub proof fn a_note_leads_elsewhere(page: Page, result_origin: Page)
    ensures
        !(leads_back(page, result_origin) is Result),
{
}

/// A read clears no notice but its own, and never brings one back.
pub proof fn only_own_notices_are_cleared(
    message: Option<Seq<char>>,
    failure: Option<Seq<char>>,
    followed: Option<Seq<char>>,
)
    ensures
        owns_notice(message, failure, followed) ==> message is Some && (message == failure
            || message == followed),
        message is None ==> !owns_notice(message, failure, followed),
        failure is None && followed is None ==> !owns_notice(message, failure, followed),
{
}

/// Sorting keeps every note: one more note makes the list one longer, and it is in
/// it.
pub proof fn sorting_keeps_every_note(courses: Seq<Course>, course: Course)
    ensures
        newest_first(courses).len() == courses.len(),
        courses.contains(course) <==> newest_first(courses).contains(course),
    decreases courses.len(),
{
    if courses.len() > 0 {
        let rest = courses.drop_last();
        sorting_keeps_every_note(rest, course);
        placed_holds(newest_first(rest), courses.last(), course);
        if courses.contains(course) {
            let i = courses.index_of(course);
            if i < rest.len() {
                assert(rest[i] == course);
            }
        }
        if rest.contains(course) {
            let i = rest.index_of(course);
            assert(courses[i] == course);
        }
        assert(courses[courses.len() - 1] == courses.last());
    }
}

proof fn placed_holds(list: Seq<Course>, added: Course, course: Course)
    ensures
        placed_by_age(list, added).len() == list.len() + 1,
        placed_by_age(list, added).contains(course) <==> course == added || list.contains(course),
    decreases list.len(),
{
    let all = placed_by_age(list, added);
    if list.len() == 0 {
        assert(all[0] == added);
    } else if list[0].modified < added.modified {
        assert(all[0] == added);
        if list.contains(course) {
            let i = list.index_of(course);
            assert(all[i + 1] == course);
        }
        if all.contains(course) && course != added {
            let i = all.index_of(course);
            assert(list[i - 1] == course);
        }
    } else {
        let rest = list.skip(1);
        placed_holds(rest, added, course);
        let tail = placed_by_age(rest, added);
        if all.contains(course) {
            let i = all.index_of(course);
            if i > 0 {
                assert(tail[i - 1] == course);
                if rest.contains(course) {
                    let j = rest.index_of(course);
                    assert(list[j + 1] == course);
                }
            } else {
                assert(list[0] == course);
            }
        }
        if list.contains(course) {
            let j = list.index_of(course);
            if j == 0 {
                assert(all[0] == course);
            } else {
                assert(rest[j - 1] == course);
            }
        }
        if tail.contains(course) {
            let i = tail.index_of(course);
            assert(all[i + 1] == course);
        }
    }
}

// ---------------------------------------------------------------- what is read

#[verifier::rlimit(40)]
proof fn placed_is_in_order(list: Seq<Course>, course: Course)
    requires
        forall|i: int, j: int|
            0 <= i < j < list.len() ==> (#[trigger] list[i]).modified >= (
            #[trigger] list[j]).modified,
    ensures
        placed_by_age(list, course).len() == list.len() + 1,
        forall|i: int, j: int|
            0 <= i < j < placed_by_age(list, course).len() ==> (#[trigger] placed_by_age(
                list,
                course,
            )[i]).modified >= (#[trigger] placed_by_age(list, course)[j]).modified,
        list.len() > 0 && list[0].modified >= course.modified ==> placed_by_age(list, course)[0]
            == list[0],
        list.len() == 0 || list[0].modified < course.modified ==> placed_by_age(list, course)[0]
            == course,
        (forall|i: int| 0 <= i < list.len() ==> (#[trigger] list[i]).modified >= course.modified)
            ==> placed_by_age(list, course) == list.push(course),
    decreases list.len(),
{
    let placed = placed_by_age(list, course);
    if list.len() == 0 {
        assert(placed =~= list.push(course));
    } else if list[0].modified < course.modified {
        assert forall|i: int, j: int| 0 <= i < j < placed.len() implies (#[trigger] placed[i]).modified
            >= (#[trigger] placed[j]).modified by {
            assert(placed[j] == list[j - 1]);
            if i > 0 {
                assert(placed[i] == list[i - 1]);
            } else if j > 1 {
                assert(list[0].modified >= list[j - 1].modified);
            }
        }
    } else {
        let rest = list.skip(1);
        assert forall|i: int, j: int| 0 <= i < j < rest.len() implies (#[trigger] rest[i]).modified
            >= (#[trigger] rest[j]).modified by {
            assert(rest[i] == list[i + 1] && rest[j] == list[j + 1]);
        }
        placed_is_in_order(rest, course);
        let tail = placed_by_age(rest, course);
        assert forall|i: int, j: int| 0 <= i < j < placed.len() implies (#[trigger] placed[i]).modified
            >= (#[trigger] placed[j]).modified by {
            assert(placed[j] == tail[j - 1]);
            if i > 0 {
                assert(placed[i] == tail[i - 1]);
            } else {
                if rest.len() > 0 && rest[0].modified >= course.modified {
                    assert(tail[0] == rest[0] && rest[0] == list[1]);
                } else {
                    assert(tail[0] == course);
                }
                if j > 1 {
                    assert(tail[0].modified >= tail[j - 1].modified);
                }
            }
        }
        if forall|i: int| 0 <= i < list.len() ==> (#[trigger] list[i]).modified >= course.modified {
            assert forall|i: int| 0 <= i < rest.len() implies (#[trigger] rest[i]).modified
                >= course.modified by {
                assert(rest[i] == list[i + 1]);
            }
            assert(placed =~= list.push(course));
        }
    }
}

#[verifier::rlimit(40)]
proof fn newest_come_first(courses: Seq<Course>)
    ensures
        newest_first(courses).len() == courses.len(),
        forall|i: int, j: int|
            0 <= i < j < courses.len() ==> (#[trigger] newest_first(courses)[i]).modified >= (
            #[trigger] newest_first(courses)[j]).modified,
        (forall|i: int, j: int|
            0 <= i < j < courses.len() ==> (#[trigger] courses[i]).modified >= (
            #[trigger] courses[j]).modified) ==> newest_first(courses) == courses,
    decreases courses.len(),
{
    if courses.len() > 0 {
        let front = courses.drop_last();
        newest_come_first(front);
        placed_is_in_order(newest_first(front), courses.last());
        if forall|i: int, j: int|
            0 <= i < j < courses.len() ==> (#[trigger] courses[i]).modified >= (
            #[trigger] courses[j]).modified {
            assert forall|i: int, j: int| 0 <= i < j < front.len() implies (
            #[trigger] front[i]).modified >= (#[trigger] front[j]).modified by {
                assert(front[i] == courses[i] && front[j] == courses[j]);
            }
            assert forall|i: int| 0 <= i < front.len() implies (#[trigger] front[i]).modified
                >= courses.last().modified by {
                assert(courses[i].modified >= courses[courses.len() - 1].modified);
            }
            assert(front.push(courses.last()) =~= courses);
        }
    } else {
        assert(newest_first(courses) =~= courses);
    }
}

/// Notes are listed by age, the latest first; notes that are in this order already stay as
/// they are, so that notes of one age keep their order. No note is lost.
pub proof fn the_latest_note_comes_first(courses: Vec<Course>, sorted: Vec<Course>, i: int, j: int)
    requires
        call_ensures(sort_courses, (courses,), sorted),
    ensures
        sorted@.len() == courses@.len(),
        0 <= i < j < sorted@.len() ==> sorted@[i].modified >= sorted@[j].modified,
        0 <= i < courses@.len() ==> sorted@.contains(courses@[i]),
        0 <= i < sorted@.len() ==> courses@.contains(sorted@[i]),
        (forall|k: int, l: int|
            0 <= k < l < courses@.len() ==> (#[trigger] courses@[k]).modified >= (
            #[trigger] courses@[l]).modified) ==> sorted@ == courses@,
{
    newest_come_first(courses@);
    if 0 <= i < courses@.len() {
        sorting_keeps_every_note(courses@, courses@[i]);
        sorting_keeps_every_note(courses@, sorted@[i]);
        assert(courses@.contains(courses@[i]));
        assert(sorted@.contains(sorted@[i]));
    }
}

/// A note that is opened is shown where nothing came between: its read is the current one,
/// and it stays on the page until it was read.
pub proof fn an_opened_note_is_read(
    state: &mut ReaderState,
    dir: String,
    ticket: ReadTicket,
)
    requires
        call_ensures(ReaderState::open_course, (state, dir), ticket),
    ensures
        final(state).reading,
        final(state).opening_course == Some(dir),
        final(state).page == old(state).page,
        final(state).following is None,
        final(state).course_error is None,
        ticket.dir == dir,
        ticket.generation == final(state).read_generation,
        ticket.generation != old(state).read_generation,
        ticket.origin == final(state).page,
        ticket.follow is None,
        final(state).shown_version == old(state).shown_version,
        !(final(state).result_origin is Result),
        !(old(state).page is Result) ==> final(state).result_origin == old(state).page,
{
}

/// What was read is shown only where its read is still the current one, on the page it was
/// asked from; and what is followed must still be followed. Otherwise nothing changes, or
/// the read ends without a note.
pub proof fn a_read_counts_where_it_was_asked_for(
    state: &mut ReaderState,
    ticket: ReadTicket,
    viewer: bool,
    preview: u64,
    accepted: bool,
)
    requires
        call_ensures(ReaderState::accept_read, (state, &ticket, viewer, preview), accepted),
    ensures
        old(state).read_generation != ticket.generation ==> !accepted && *final(state) == *old(
            state),
        old(state).page != ticket.origin ==> !accepted && *final(state) == *old(state),
        old(state).read_generation == ticket.generation && old(state).page == ticket.origin
            && ticket.follow is None ==> accepted,
        accepted ==> !final(state).reading && final(state).opening_course is None,
        accepted && ticket.follow is Some ==> old(state).following is Some,
        ticket.follow is Some && old(state).following is None ==> !accepted,
        final(state).page == old(state).page,
        final(state).shown_version == old(state).shown_version,
        final(state).message == old(state).message,
{
}

/// A page that is left ends what was being opened there; what is followed is followed only
/// on the workbench.
pub proof fn leaving_a_page_ends_its_read(
    state: &mut ReaderState,
    page: Page,
    ticket: ReadTicket,
)
    requires
        call_ensures(ReaderState::navigate, (state, page), ()),
        ticket.generation == old(state).read_generation,
    ensures
        final(state).page == page,
        !final(state).reading,
        final(state).opening_course is None,
        final(state).read_generation != ticket.generation,
        final(state).message is None,
        !(page is New) ==> final(state).following is None,
        page is New && (old(state).following is None || !(old(state).following->0 is ReaderTask))
            ==> final(state).following == old(state).following,
        final(state).shown_version == old(state).shown_version,
{
}

/// A note that is shown is the one that was read; following ends with it, and only notices of
/// the reader's own are taken down.
pub proof fn the_note_that_was_read_is_shown(
    state: &mut ReaderState,
    ticket: ReadTicket,
    told: bool,
)
    requires
        call_ensures(ReaderState::show_note, (state, ticket), told),
    ensures
        final(state).page is Result,
        final(state).shown_version == Some(ticket.dir),
        final(state).following is None,
        final(state).failure_notice is None,
        ticket.follow is None ==> !told,
        told ==> text_of(final(state).message) == Some("笔记已打开"@),
        ticket.follow is None && old(state).failure_notice is None && ticket.followed_notice is None
            ==> final(state).message == old(state).message,
        old(state).message is Some && text_of(old(state).message) != text_of(
            old(state).failure_notice) && text_of(old(state).message) != text_of(
            ticket.followed_notice,
        ) ==> final(state).message == old(state).message,
        final(state).read_generation == old(state).read_generation,
{
}

/// A note that could not be read is told beside it; outside the library also as a message.
/// The page stays.
pub proof fn a_failed_read_is_told_beside_the_note(
    state: &mut ReaderState,
    ticket: ReadTicket,
    failure: ReadFailure,
    course: Course,
    beside: Option<&String>,
)
    requires
        call_ensures(ReaderState::fail_read, (state, ticket, failure), ()),
        call_ensures(ReaderState::error_beside, (&*final(state), &course), beside),
    ensures
        beside is Some <==> course.dir@ == ticket.dir@,
        final(state).page == old(state).page,
        final(state).shown_version == old(state).shown_version,
        ticket.origin is Library ==> final(state).message == old(state).message,
        !(ticket.origin is Library) && course.dir@ == ticket.dir@ ==> text_of(
            final(state).message) == Some(beside->0@),
{
}

/// A note that was read is unread no more, and nothing else of any task changes.
pub proof fn reading_marks_the_note(tasks: &mut Vec<TaskRecord>, artifact: &str, i: int)
    requires
        call_ensures(mark_read, (tasks, artifact), ()),
        0 <= i < old(tasks)@.len(),
    ensures
        final(tasks)@.len() == old(tasks)@.len(),
        text_of(old(tasks)@[i].artifact) == Some(artifact@) ==> !final(tasks)@[i].unread,
        text_of(old(tasks)@[i].artifact) != Some(artifact@) ==> final(tasks)@[i] == old(tasks)@[i],
        final(tasks)@[i] == (TaskRecord { unread: final(tasks)@[i].unread, ..old(tasks)@[i] }),
{
}

/// The input that changed is followed no more, and what was opening on the workbench opens no
/// more; elsewhere a read goes on.
pub proof fn a_changed_input_is_not_followed(state: &mut ReaderState)
    requires
        call_ensures(ReaderState::input_changed, (state,), ()),
    ensures
        final(state).following is None,
        old(state).reading && old(state).page is New ==> !final(state).reading && final(
            state).read_generation != old(state).read_generation,
        !(old(state).page is New) ==> final(state).reading == old(state).reading && final(
            state).read_generation == old(state).read_generation,
        final(state).page == old(state).page,
        final(state).message == old(state).message,
{
}

/// The library that is shown stays while its folders can be read; the first takes its place
/// where that can be read.
pub proof fn the_shown_library_stays<V>(
    indexes: Table<String, V>,
    root: String,
    libraries: Vec<LibraryLocation>,
    shown: ShownLibrary,
)
    requires
        call_ensures(shown_library::<V>, (&indexes, &root, &libraries), shown),
    ensures
        shown is Same <==> indexes.map().contains_key(root@),
        shown is First ==> libraries@.len() > 0 && indexes.map().contains_key(libraries@[0].root@),
        shown is Unreadable ==> libraries@.len() == 0 || !indexes.map().contains_key(
            libraries@[0].root@,
        ),
        !indexes.map().contains_key(root@) && libraries@.len() > 0 && indexes.map().contains_key(
            libraries@[0].root@,
        ) ==> shown is First,
{
}

/// The position in each of the two views of a version is kept apart.
pub proof fn each_view_has_its_position(course: &str, version: &str, text: String, pictures: String)
    requires
        call_ensures(reading_key, (course, version, false), text),
        call_ensures(reading_key, (course, version, true), pictures),
    ensures
        text@ != pictures@,
{
    reveal_strlit("0");
    reveal_strlit("1");
    assert(text@.last() == '0');
    assert(pictures@.last() == '1');
}

/// A repaired version is read on from where the version before it was left, unless it has a
/// position of its own; another note takes nothing over.
pub proof fn a_repaired_version_is_read_on<V: Copy>(
    positions: &mut Table<String, V>,
    course: &str,
    before: &str,
    other: &str,
    after: &str,
    tab: bool,
    from: String,
    to: String,
)
    requires
        old(positions).wf(),
        call_ensures(
            carry_repaired_reading_positions::<V>,
            (positions, (course, before), (other, after)),
            (),
        ),
        call_ensures(reading_key, (course, before, tab), from),
        call_ensures(reading_key, (other, after, tab), to),
    ensures
        course@ != other@ ==> final(positions).map() == old(positions).map(),
        course@ == other@ && old(positions).map().contains_key(from@) && !old(
            positions).map().contains_key(to@) && before@ != after@ ==> final(
            positions).map().contains_key(to@) && final(positions).map()[to@] == old(
            positions).map()[from@],
        old(positions).map().contains_key(to@) ==> final(positions).map().contains_key(to@) && final(
            positions).map()[to@] == old(positions).map()[to@],
        old(positions).map().contains_key(from@) ==> final(positions).map().contains_key(from@)
            && final(positions).map()[from@] == old(positions).map()[from@],
{
    let previous = (course@, before@);
    let next = (other@, after@);
    carrying_over_only_adds(old(positions).map(), previous, next, to@);
    carrying_over_only_adds(old(positions).map(), previous, next, from@);
    reveal_strlit("0");
    reveal_strlit("1");
    assert(position_key(course@, before@, false).last() == '0');
    assert(position_key(course@, before@, true).last() == '1');
    assert(position_key(other@, after@, false).last() == '0');
    assert(position_key(other@, after@, true).last() == '1');
}

/// A note that opens by itself is read like any other, remembers what was followed and the read
/// it took the place of, and takes down the notice of its own task alone.
pub proof fn a_followed_note_is_read(
    state: &mut ReaderState,
    dir: String,
    follow: Option<ConversionFollow>,
    ticket: ReadTicket,
)
    requires
        call_ensures(
            ReaderState::open_course_with_conversion_guard,
            (state, dir, follow),
            ticket,
        ),
    ensures
        ticket.dir == dir && ticket.follow == follow,
        ticket.generation == final(state).read_generation && ticket.generation != old(
            state).read_generation,
        ticket.reader_revision == old(state).read_generation,
        ticket.origin == old(state).page && final(state).page == old(state).page,
        final(state).reading && final(state).opening_course == Some(dir),
        final(state).following == old(state).following,
        final(state).message == old(state).message,
        ticket.followed_notice is Some ==> follow is Some && text_of(ticket.followed_notice)
            == text_of(old(state).message),
        follow is None ==> ticket.followed_notice is None,
        !(final(state).result_origin is Result),
{
}

/// Only a notice that is the reader's own is taken down, and a failure is settled either way.
pub proof fn only_the_readers_notice_is_settled(
    message: &mut Option<String>,
    failure: &mut Option<String>,
    followed: Option<&str>,
)
    requires
        call_ensures(settle_reader_notice, (message, failure, followed), ()),
    ensures
        *final(failure) is None,
        text_of(*old(message)) != text_of(*old(failure)) && (followed is None || text_of(
            *old(message)) != Some(followed->0@)) ==> *final(message) == *old(message),
        *old(message) is Some && text_of(*old(message)) == text_of(*old(failure)) ==> *final(
            message) is None,
        followed is Some && text_of(*old(message)) == Some(followed->0@) ==> *final(
            message) is None,
{
}

/// Two intents are one where they are of one kind and follow the same task in the same read.
pub proof fn intents_are_one_where_all_agrees(a: ConversionFollow, b: ConversionFollow, one: bool)
    requires
        call_ensures(ConversionFollow::same_intent, (&a, &b), one),
    ensures
        a == b ==> one,
        one && a is Preparing ==> a == b,
        one && a is Task ==> b is Task && a->Task_id@ == b->Task_id@ && a->source_revision
            == b->source_revision,
        one && a is ReaderTask ==> b is ReaderTask && a->ReaderTask_id@ == b->ReaderTask_id@
            && a->base_version@ == b->base_version@ && a->reader_revision == b->reader_revision,
{
}

/// Who stays on the workbench is not taken to a note that was opening there; elsewhere a read
/// goes on.
pub proof fn staying_on_the_workbench_ends_the_opening(state: &mut ReaderState)
    requires
        call_ensures(ReaderState::stay_on_workbench, (state,), ()),
    ensures
        old(state).page is New ==> !final(state).reading,
        old(state).page is New && old(state).reading ==> final(state).read_generation != old(
            state).read_generation,
        !(old(state).page is New) ==> *final(state) == *old(state),
        final(state).following == old(state).following,
        final(state).page == old(state).page,
{
}

/// Looking at a picture meanwhile ends the following of a repair, so that it does not open, and
/// the following of nothing else.
pub proof fn a_picture_keeps_a_repair_from_opening(
    state: &mut ReaderState,
    ticket: ReadTicket,
    viewer: bool,
    preview: u64,
    accepted: bool,
)
    requires
        call_ensures(ReaderState::accept_read, (state, &ticket, viewer, preview), accepted),
        old(state).read_generation == ticket.generation,
        old(state).page == ticket.origin,
    ensures
        viewer && ticket.follow is Some && ticket.follow->0 is ReaderTask ==> !accepted,
        viewer && old(state).following is Some && old(state).following->0 is ReaderTask ==> final(
            state).following is None,
        !viewer ==> final(state).following == old(state).following,
        old(state).following is Some && !(old(state).following->0 is ReaderTask) ==> final(
            state).following == old(state).following,
        ticket.follow matches Some(follow) && !viewer && old(state).following == Some(
            ticket.follow->0,
        ) && ticket.follow->0 is Task && old(state).page is New
            && ticket.follow->0->source_revision == preview ==> accepted,
{
}

} // verus!
