//! Exporting the notes of a folder: what is exported, under which names, and what
//! a person is told of it.
use crate::table::{places_are_few, Key, Table};
use crate::text::{
    begins, blank_trims_to_nothing, chars_of, contains, decimal, holds, is_blank, is_space,
    lowercase, lowercased, number, numbered, numbered_is_injective, numbered_name, same, texts,
    trim, trimmed, trimmed_text_stays, trimming_takes_only_space,
};
use crate::workbench::{following_generation, next_generation};
use crate::workspace::LibraryLocation;
use vstd::prelude::*;
use vstd::string::*;

verus! {

// --------------------------------------------------------------- export state

/// A folder of a library.
#[derive(Clone, Debug, PartialEq, Eq)]
pub struct FolderKey {
    pub library_id: String,
    pub root: String,
    pub folder_id: u64,
}

impl Key for FolderKey {
    type Id = (Seq<char>, Seq<char>, u64);

    open spec fn id(&self) -> (Seq<char>, Seq<char>, u64) {
        (self.library_id@, self.root@, self.folder_id)
    }

    fn same_key(&self, other: &FolderKey) -> (result: bool) {
        self.library_id == other.library_id && self.root == other.root && self.folder_id
            == other.folder_id
    }
}

impl FolderKey {
    /// The same key again.
    pub fn copy(&self) -> (result: FolderKey)
        ensures
            result == *self,
    {
        FolderKey {
            library_id: self.library_id.clone(),
            root: self.root.clone(),
            folder_id: self.folder_id,
        }
    }
}

/// An export that is under way.
#[derive(Clone, Debug)]
pub struct Pending {
    pub generation: u64,
    pub key: FolderKey,
    pub folder_name: String,
    pub completed: usize,
    pub total: Option<usize>,
}

/// A note that was not exported.
#[derive(Clone, Debug)]
pub struct Failure {
    pub title: String,
    pub reason: String,
}

/// What became of an export.
#[derive(Clone, Debug)]
pub struct Report {
    pub output: Option<String>,
    pub total: usize,
    pub failures: Vec<Failure>,
}

impl Report {
    pub open spec fn successes(self) -> nat {
        if self.total >= self.failures@.len() {
            (self.total - self.failures@.len()) as nat
        } else {
            0
        }
    }

    /// The number of notes that were exported.
    pub fn succeeded(&self) -> (result: usize)
        ensures
            result == self.successes(),
    {
        if self.total >= self.failures.len() {
            self.total - self.failures.len()
        } else {
            0
        }
    }
}

/// What a person is told after an export.
#[derive(Debug)]
pub struct Feedback {
    pub folder_name: String,
    pub result: Result<Report, String>,
}

/// The exports of folders: at most one is under way, and each folder keeps the
/// feedback of its last one.
pub struct State {
    pub generation: u64,
    pub pending: Option<Pending>,
    pub feedback: Table<FolderKey, Feedback>,
    pub details_open: Table<FolderKey, ()>,
}

impl Default for State {
    fn default() -> (result: State)
        ensures
            result.wf(),
            result.generation == 0,
            result.pending is None,
            result.feedback.map() == Map::<(Seq<char>, Seq<char>, u64), Feedback>::empty(),
            result.details_open.map() == Map::<(Seq<char>, Seq<char>, u64), ()>::empty(),
    {
        State { generation: 0, pending: None, feedback: Table::new(), details_open: Table::new() }
    }
}

impl State {
    /// An export under way belongs to the latest generation.
    pub open spec fn wf(self) -> bool {
        &&& self.feedback.wf()
        &&& self.details_open.wf()
        &&& self.pending matches Some(pending) ==> pending.generation == self.generation
    }

    /// The export under way is the one that was begun with this generation for this
    /// folder.
    pub open spec fn is_under_way(self, generation: u64, key: FolderKey) -> bool {
        self.pending matches Some(pending) && pending.generation == generation && pending.key.id()
            == key.id()
    }

    /// Begins an export, unless one is under way. What was said of the folder's last
    /// export is gone.
    pub fn begin(&mut self, key: FolderKey, folder_name: String) -> (result: Option<u64>)
        requires
            old(self).wf(),
        ensures
            final(self).wf(),
            old(self).pending is Some ==> result is None && *final(self) == *old(self),
            old(self).pending is None ==> {
                let generation = next_generation(old(self).generation);
                &&& result == Some(generation)
                &&& final(self).generation == generation
                &&& final(self).pending == Some(
                    Pending { generation, key, folder_name, completed: 0, total: None },
                )
                &&& final(self).feedback.map() == old(self).feedback.map().remove(key.id())
                &&& final(self).details_open.map() == old(self).details_open.map().remove(key.id())
            },
    {
        if self.pending.is_some() {
            return None;
        }
        self.generation = following_generation(self.generation);
        let _ = self.feedback.remove(&key);
        let _ = self.details_open.remove(&key);
        self.pending = Some(
            Pending { generation: self.generation, key, folder_name, completed: 0, total: None },
        );
        Some(self.generation)
    }

    pub fn matches(&self, generation: u64, key: &FolderKey) -> (result: bool)
        ensures
            result == self.is_under_way(generation, *key),
    {
        match &self.pending {
            Some(pending) => pending.generation == generation && pending.key.same_key(key),
            None => false,
        }
    }

    /// Ends the export under way without a word, if it is this one.
    pub fn cancel(&mut self, generation: u64, key: &FolderKey) -> (result: bool)
        requires
            old(self).wf(),
        ensures
            final(self).wf(),
            result == old(self).is_under_way(generation, *key),
            *final(self) == (if result {
                State { pending: None, ..*old(self) }
            } else {
                *old(self)
            }),
    {
        if !self.matches(generation, key) {
            return false;
        }
        self.pending = None;
        true
    }

    /// The notes to export are known.
    pub fn start_progress(
        &mut self,
        generation: u64,
        key: &FolderKey,
        folder_name: String,
        total: usize,
    ) -> (result: bool)
        requires
            old(self).wf(),
        ensures
            final(self).wf(),
            result == old(self).is_under_way(generation, *key),
            *final(self) == (if result {
                State {
                    pending: Some(
                        Pending { folder_name, total: Some(total), ..old(self).pending->0 },
                    ),
                    ..*old(self)
                }
            } else {
                *old(self)
            }),
    {
        if !self.matches(generation, key) {
            return false;
        }
        if let Some(pending) = &mut self.pending {
            pending.folder_name = folder_name;
            pending.total = Some(total);
        }
        true
    }

    /// Some notes have been dealt with.
    pub fn advance(&mut self, generation: u64, key: &FolderKey, completed: usize) -> (result: bool)
        requires
            old(self).wf(),
        ensures
            final(self).wf(),
            result == old(self).is_under_way(generation, *key),
            *final(self) == (if result {
                State {
                    pending: Some(Pending { completed, ..old(self).pending->0 }),
                    ..*old(self)
                }
            } else {
                *old(self)
            }),
    {
        if !self.matches(generation, key) {
            return false;
        }
        if let Some(pending) = &mut self.pending {
            pending.completed = completed;
        }
        true
    }

    /// Ends the export under way with feedback, if it is this one.
    pub fn finish(&mut self, generation: u64, key: &FolderKey, feedback: Feedback) -> (result: bool)
        requires
            old(self).wf(),
        ensures
            final(self).wf(),
            result == old(self).is_under_way(generation, *key),
            !result ==> *final(self) == *old(self),
            result ==> {
                &&& final(self).feedback.map() == old(self).feedback.map().insert(
                    key.id(),
                    feedback,
                )
                &&& *final(self) == (State {
                    pending: None,
                    feedback: final(self).feedback,
                    ..*old(self)
                })
            },
    {
        if !self.cancel(generation, key) {
            return false;
        }
        self.feedback.insert(key.copy(), feedback);
        true
    }

    /// A person has read the feedback of a folder.
    pub fn dismiss(&mut self, key: &FolderKey)
        requires
            old(self).wf(),
        ensures
            final(self).wf(),
            final(self).feedback.map() == old(self).feedback.map().remove(key.id()),
            final(self).details_open.map() == old(self).details_open.map().remove(key.id()),
            final(self).pending == old(self).pending,
            final(self).generation == old(self).generation,
    {
        let _ = self.feedback.remove(key);
        let _ = self.details_open.remove(key);
    }

    /// Opens the details of a folder's feedback, or closes them.
    pub fn toggle_details(&mut self, key: &FolderKey)
        requires
            old(self).wf(),
        ensures
            final(self).wf(),
            final(self).details_open.map() == (if old(self).details_open.map().contains_key(
                key.id(),
            ) {
                old(self).details_open.map().remove(key.id())
            } else {
                old(self).details_open.map().insert(key.id(), ())
            }),
            *final(self) == (State { details_open: final(self).details_open, ..*old(self) }),
    {
        if self.details_open.remove(key).is_none() {
            self.details_open.insert(key.copy(), ());
            assert(self.details_open.map() =~= old(self).details_open.map().insert(key.id(), ()));
        }
    }
}

/// A result that comes late is ignored: once another export was begun, nothing that
/// was begun before counts, and a cancelled export cannot finish.
pub proof fn a_late_export_does_not_count(
    before: State,
    generation: u64,
    key: FolderKey,
    after: State,
    other: FolderKey,
)
    requires
        before.wf(),
        before.is_under_way(generation, key),
        after.wf(),
        after.generation == next_generation(before.generation) || after.pending is None,
    ensures
        !after.is_under_way(generation, other),
{
}

// -------------------------------------------------------------------- titles

/// A title on one line.
pub open spec fn on_one_line(s: Seq<char>) -> Seq<char> {
    Seq::new(
        s.len(),
        |i: int|
            if s[i] == '\r' || s[i] == '\n' {
                ' '
            } else {
                s[i]
            },
    )
}

/// A title that can be shown: on one line, without white space around it.
pub open spec fn shown_title(s: Seq<char>) -> Seq<char> {
    let line = trimmed(on_one_line(s));
    if line.len() == 0 {
        "未命名笔记"@
    } else {
        line
    }
}

pub fn safe_title(value: &str) -> (result: String)
    ensures
        result@ == shown_title(value@),
{
    let chars = chars_of(value);
    let mut line = String::new();
    let mut i: usize = 0;
    while i < chars.len()
        invariant
            i <= chars@.len(),
            line@ == on_one_line(chars@).take(i as int),
        decreases chars@.len() - i,
    {
        let c = if chars[i] == '\r' || chars[i] == '\n' {
            ' '
        } else {
            chars[i]
        };
        line.push(c);
        assert(on_one_line(chars@).take(i + 1) =~= on_one_line(chars@).take(i as int).push(
            on_one_line(chars@)[i as int],
        ));
        i += 1;
    }
    assert(line@ =~= on_one_line(value@));
    let title = trim(line.as_str());
    if title.as_str().is_empty() {
        "未命名笔记".to_owned()
    } else {
        title
    }
}

/// A shown title is never empty.
pub proof fn a_shown_title_says_something(s: Seq<char>)
    ensures
        shown_title(s).len() > 0,
{
    reveal_strlit("未命名笔记");
}

// ------------------------------------------------------------------ snapshots

/// One component of a relative path.
#[derive(Clone, Debug, PartialEq, Eq)]
pub enum PathPart {
    Normal(String),
    Other,
}

/// A note that the library's index lists, and what could be read of it.
pub struct FiledNote {
    pub folder: u64,
    pub parts: Vec<PathPart>,
    pub fallback: String,
    pub alias: Option<String>,
    pub course: Option<ReadCourse>,
}

/// A note whose text could be read.
pub struct ReadCourse {
    pub title: String,
    pub dir: String,
}

/// A note that is to be exported, or the reason why it cannot be.
pub struct SnapshotNote {
    pub title: String,
    pub version: Result<String, String>,
}

impl View for SnapshotNote {
    type V = (Seq<char>, Result<Seq<char>, Seq<char>>);

    open spec fn view(&self) -> (Seq<char>, Result<Seq<char>, Seq<char>>) {
        (
            self.title@,
            match self.version {
                Ok(dir) => Ok(dir@),
                Err(reason) => Err(reason@),
            },
        )
    }
}

/// The notes of a folder at one moment.
pub struct Snapshot {
    pub root: String,
    pub folder_name: String,
    pub notes: Vec<SnapshotNote>,
}

/// A note lies below its library: its path is not empty and only goes down.
pub open spec fn goes_down(parts: Seq<PathPart>) -> bool {
    parts.len() > 0 && forall|i: int| 0 <= i < parts.len() ==> (#[trigger] parts[i]) is Normal
}

pub fn valid_location(parts: &Vec<PathPart>) -> (result: bool)
    ensures
        result == goes_down(parts@),
{
    if parts.is_empty() {
        return false;
    }
    let mut i: usize = 0;
    while i < parts.len()
        invariant
            i <= parts@.len(),
            forall|j: int| 0 <= j < i ==> (#[trigger] parts@[j]) is Normal,
        decreases parts@.len() - i,
    {
        match &parts[i] {
            PathPart::Normal(_) => {},
            PathPart::Other => {
                return false;
            },
        }
        i += 1;
    }
    true
}

/// How a listed note enters a snapshot. A name that the person gave comes first,
/// then the note's own title, then the name of its directory.
pub open spec fn snapshot_of(note: FiledNote) -> (Seq<char>, Result<Seq<char>, Seq<char>>) {
    let named = |own: Seq<char>|
        shown_title(
            match note.alias {
                Some(alias) => alias@,
                None => own,
            },
        );
    if !goes_down(note.parts@) {
        (named(note.fallback@), Err("笔记位置无效"@))
    } else {
        match note.course {
            Some(course) => (named(course.title@), Ok(course.dir@)),
            None => (named(note.fallback@), Err("笔记正文无法读取"@)),
        }
    }
}

fn snapshot_note(note: &FiledNote) -> (result: SnapshotNote)
    ensures
        result@ == snapshot_of(*note),
{
    if !valid_location(&note.parts) {
        return SnapshotNote {
            title: named_note(&note.alias, &note.fallback),
            version: Err("笔记位置无效".to_owned()),
        };
    }
    match &note.course {
        Some(course) => SnapshotNote {
            title: named_note(&note.alias, &course.title),
            version: Ok(course.dir.clone()),
        },
        None => SnapshotNote {
            title: named_note(&note.alias, &note.fallback),
            version: Err("笔记正文无法读取".to_owned()),
        },
    }
}

fn named_note(alias: &Option<String>, own: &String) -> (result: String)
    ensures
        result@ == shown_title(
            match *alias {
                Some(name) => name@,
                None => own@,
            },
        ),
{
    match alias {
        Some(name) => safe_title(name.as_str()),
        None => safe_title(own.as_str()),
    }
}

/// The notes of one folder, in the order of the index.
pub open spec fn notes_in(notes: Seq<FiledNote>, folder: u64) -> Seq<
    (Seq<char>, Result<Seq<char>, Seq<char>>),
>
    decreases notes.len(),
{
    if notes.len() == 0 {
        Seq::empty()
    } else {
        let before = notes_in(notes.drop_last(), folder);
        if notes.last().folder == folder {
            before.push(snapshot_of(notes.last()))
        } else {
            before
        }
    }
}

/// What the notes of a snapshot say.
pub open spec fn note_views(notes: Seq<SnapshotNote>) -> Seq<
    (Seq<char>, Result<Seq<char>, Seq<char>>),
> {
    Seq::new(notes.len(), |i: int| notes[i]@)
}

/// The notes of a folder as the index lists them; nothing where the folder is gone.
pub fn snapshot(
    key: &FolderKey,
    root: String,
    folders: &Table<u64, String>,
    notes: &Vec<FiledNote>,
) -> (result: Option<Snapshot>)
    requires
        folders.wf(),
    ensures
        result is Some == folders.map().contains_key(key.folder_id),
        result matches Some(taken) ==> taken.root@ == root@ && taken.folder_name@
            == folders.map()[key.folder_id]@ && note_views(taken.notes@) == notes_in(
            notes@,
            key.folder_id,
        ),
{
    let folder_name = match folders.get(&key.folder_id) {
        Some(name) => name.clone(),
        None => {
            return None;
        },
    };
    let mut taken: Vec<SnapshotNote> = Vec::new();
    let mut i: usize = 0;
    assert(note_views(taken@) =~= notes_in(notes@.take(0), key.folder_id));
    while i < notes.len()
        invariant
            i <= notes@.len(),
            note_views(taken@) == notes_in(notes@.take(i as int), key.folder_id),
        decreases notes@.len() - i,
    {
        let ghost part = notes@.take(i + 1);
        let ghost before = note_views(taken@);
        assert(part.drop_last() =~= notes@.take(i as int));
        if notes[i].folder == key.folder_id {
            taken.push(snapshot_note(&notes[i]));
            assert(note_views(taken@) =~= before.push(snapshot_of(notes@[i as int])));
        }
        i += 1;
    }
    assert(notes@.take(notes@.len() as int) =~= notes@);
    Some(Snapshot { root, folder_name, notes: taken })
}

/// The number of notes in a folder.
pub open spec fn count_in(folders: Seq<u64>, folder: u64) -> nat
    decreases folders.len(),
{
    if folders.len() == 0 {
        0
    } else {
        count_in(folders.drop_last(), folder) + (if folders.last() == folder {
            1nat
        } else {
            0nat
        })
    }
}

proof fn count_within(folders: Seq<u64>, folder: u64)
    ensures
        count_in(folders, folder) <= folders.len(),
    decreases folders.len(),
{
    if folders.len() > 0 {
        count_within(folders.drop_last(), folder);
    }
}

/// Counts the notes of a folder; `folders` gives the folder of each note.
pub fn folder_note_count(folders: &Vec<u64>, folder_id: u64) -> (result: usize)
    ensures
        result == count_in(folders@, folder_id),
{
    let mut count: usize = 0;
    let mut i: usize = 0;
    while i < folders.len()
        invariant
            i <= folders@.len(),
            count <= i,
            count == count_in(folders@.take(i as int), folder_id),
        decreases folders@.len() - i,
    {
        assert(folders@.take(i + 1).drop_last() =~= folders@.take(i as int));
        if folders[i] == folder_id {
            count += 1;
        }
        i += 1;
    }
    assert(folders@.take(folders@.len() as int) =~= folders@);
    count
}

// ---------------------------------------------------------------------- names

/// Gives out file names that do not collide on the disk they are written to.
pub struct NameAllocator {
    pub used: Vec<String>,
    pub case_sensitive: bool,
}

/// The names of the attachments and of the report on what was not exported.
pub open spec fn reserved_names(case_sensitive: bool) -> Set<Seq<char>> {
    set![name_key(case_sensitive, "assets"@), name_key(case_sensitive, "_导出未完成"@)]
}

/// The `n`th name is the first that is not taken.
pub open spec fn is_first_free(taken: Set<Seq<char>>, base: Seq<char>, n: nat) -> bool {
    &&& n >= 1
    &&& !taken.contains(numbered(base, n))
    &&& forall|k: nat| 1 <= k < n ==> taken.contains(#[trigger] numbered(base, k))
}

/// How a disk tells names apart.
pub open spec fn name_key(case_sensitive: bool, name: Seq<char>) -> Seq<char> {
    if case_sensitive {
        name
    } else {
        lowercased(name)
    }
}

impl NameAllocator {
    /// The names that are taken, as the disk tells them apart.
    pub open spec fn taken(self) -> Set<Seq<char>> {
        texts(self.used@).to_set()
    }

    /// The `n`th name for a stem is the first that is free.
    pub open spec fn first_free(self, stem: Seq<char>, n: nat) -> bool {
        is_first_free(self.taken(), name_key(self.case_sensitive, stem), n)
    }

    /// A name was given out for a stem, without its ending: the first that is free.
    pub open spec fn gives_out(self, after: NameAllocator, stem: Seq<char>, name: Seq<char>) -> bool {
        let key = name_key(self.case_sensitive, name);
        &&& after.case_sensitive == self.case_sensitive
        &&& !self.taken().contains(key)
        &&& after.taken() == self.taken().insert(key)
        &&& exists|n: nat| #[trigger] self.first_free(stem, n) && name == numbered(stem, n)
    }

    /// Nothing is taken but the names of the attachments and of the report.
    pub fn new(case_sensitive: bool) -> (result: NameAllocator)
        ensures
            result.case_sensitive == case_sensitive,
            result.taken() == reserved_names(case_sensitive),
            result.used@.len() <= 2,
    {
        let mut this = NameAllocator { used: Vec::new(), case_sensitive };
        assert(this.taken() =~= Set::<Seq<char>>::empty());
        this.reserve("assets");
        this.reserve("_导出未完成");
        assert(this.taken() =~= set![
            name_key(case_sensitive, "assets"@),
            name_key(case_sensitive, "_导出未完成"@),
        ]);
        this
    }

    /// How the disk tells this name apart. A numbered name keeps its number.
    pub fn key(&self, name: &str) -> (result: String)
        ensures
            result@ == name_key(self.case_sensitive, name@),
            forall|stem: Seq<char>, n: nat|
                name@ == #[trigger] numbered(stem, n) ==> result@ == numbered(
                    name_key(self.case_sensitive, stem),
                    n,
                ),
    {
        if self.case_sensitive {
            name.to_owned()
        } else {
            lowercase(name)
        }
    }

    fn take_name(&mut self, key: String) -> (result: bool)
        ensures
            final(self).case_sensitive == old(self).case_sensitive,
            result == !old(self).taken().contains(key@),
            final(self).taken() == old(self).taken().insert(key@),
            final(self).used@.len() <= old(self).used@.len() + 1,
    {
        let mut i: usize = 0;
        while i < self.used.len()
            invariant
                i <= self.used@.len(),
                *self == *old(self),
                forall|j: int| 0 <= j < i ==> (#[trigger] self.used@[j])@ != key@,
            decreases self.used@.len() - i,
        {
            if self.used[i] == key {
                proof {
                    assert(texts(self.used@)[i as int] == key@);
                    assert(self.taken() =~= self.taken().insert(key@));
                }
                return false;
            }
            i += 1;
        }
        proof {
            if self.taken().contains(key@) {
                let j = texts(self.used@).index_of(key@);
                assert(self.used@[j]@ == key@);
            }
        }
        let ghost before = texts(self.used@);
        let ghost added = key@;
        self.used.push(key);
        proof {
            let after = texts(self.used@);
            assert(after =~= before.push(added));
            assert(after.to_set() =~= before.to_set().insert(added)) by {
                assert forall|x: Seq<char>| after.to_set().contains(x) == before.to_set().insert(
                    added,
                ).contains(x) by {
                    if after.contains(x) {
                        let j = after.index_of(x);
                        if j < before.len() {
                            assert(before[j] == x);
                        }
                    }
                    if before.contains(x) {
                        let j = before.index_of(x);
                        assert(after[j] == x);
                    }
                    assert(after[before.len() as int] == added);
                }
            }
        }
        true
    }

    /// Takes a name out of use.
    pub fn reserve(&mut self, name: &str)
        ensures
            final(self).case_sensitive == old(self).case_sensitive,
            final(self).taken() == old(self).taken().insert(
                name_key(old(self).case_sensitive, name@),
            ),
            final(self).used@.len() <= old(self).used@.len() + 1,
    {
        let key = self.key(name);
        let _ = self.take_name(key);
    }

    /// Gives out the first free name for a stem, as a Markdown file.
    pub fn allocate(&mut self, stem: &str) -> (result: String)
        requires
            old(self).used@.len() < usize::MAX,
        ensures
            final(self).case_sensitive == old(self).case_sensitive,
            final(self).used@.len() <= old(self).used@.len() + 1,
            exists|n: nat| #[trigger]
                old(self).first_free(stem@, n) && result@ == numbered(stem@, n) + ".md"@
                    && final(self).taken() == old(self).taken().insert(
                    numbered(name_key(old(self).case_sensitive, stem@), n),
                ),
            exists|name: Seq<char>| #[trigger]
                old(self).gives_out(*final(self), stem@, name) && result@ == name + ".md"@,
    {
        let ghost base = name_key(self.case_sensitive, stem@);
        let ghost start = *self;
        let mut index: u64 = 1;
        loop
            invariant
                self.case_sensitive == start.case_sensitive,
                base == name_key(start.case_sensitive, stem@),
                self.taken() == start.taken(),
                self.used@ == start.used@,
                start == *old(self),
                self.used@.len() < usize::MAX,
                1 <= index <= self.used@.len() + 1,
                forall|k: nat|
                    1 <= k < index ==> self.taken().contains(#[trigger] numbered(base, k)),
            decreases self.used@.len() + 1 - index,
        {
            let candidate = numbered_name(stem, index);
            let key = self.key(candidate.as_str());
            assert(key@ == numbered(base, index as nat));
            let ghost used_before = self.used@;
            if self.is_free(&key) {
                let _ = self.take_name(key);
                let mut result = candidate;
                result.append(".md");
                assert(old(self).first_free(stem@, index as nat));
                assert(old(self).gives_out(*self, stem@, numbered(stem@, index as nat)));
                return result;
            }
            proof {
                tries_are_few(texts(self.used@), base, index as nat);
            }
            index += 1;
        }
    }

    fn is_free(&self, key: &String) -> (result: bool)
        ensures
            result == !self.taken().contains(key@),
    {
        let mut i: usize = 0;
        while i < self.used.len()
            invariant
                i <= self.used@.len(),
                forall|j: int| 0 <= j < i ==> (#[trigger] self.used@[j])@ != key@,
            decreases self.used@.len() - i,
        {
            if self.used[i] == *key {
                assert(texts(self.used@)[i as int] == key@);
                return false;
            }
            i += 1;
        }
        proof {
            if self.taken().contains(key@) {
                let j = texts(self.used@).index_of(key@);
                assert(self.used@[j]@ == key@);
            }
        }
        true
    }
}

/// Names that were tried and taken are no more than the names that are taken.
proof fn tries_are_few(used: Seq<Seq<char>>, base: Seq<char>, n: nat)
    requires
        forall|k: nat| 1 <= k <= n ==> used.to_set().contains(#[trigger] numbered(base, k)),
    ensures
        n <= used.len(),
{
    let places = Seq::new(n, |i: int| used.index_of(numbered(base, (i + 1) as nat)));
    assert forall|i: int| 0 <= i < places.len() implies 0 <= #[trigger] places[i] < used.len() by {
        assert(used.to_set().contains(numbered(base, (i + 1) as nat)));
    }
    assert forall|i: int, j: int| 0 <= i < j < places.len() implies places[i] != places[j] by {
        let a = (i + 1) as nat;
        let b = (j + 1) as nat;
        assert(used.to_set().contains(numbered(base, a)));
        assert(used.to_set().contains(numbered(base, b)));
        if places[i] == places[j] {
            assert(used[places[i]] == numbered(base, a));
            assert(used[places[j]] == numbered(base, b));
            numbered_is_injective(base, a, b);
        }
    }
    places_are_few(places, used.len() as int);
}

/// The names that are taken once the first `n` stems have theirs.
pub open spec fn taken_after(
    case_sensitive: bool,
    stems: Seq<Seq<char>>,
    numbers: Seq<nat>,
    n: nat,
) -> Set<Seq<char>>
    decreases n,
{
    if n == 0 {
        reserved_names(case_sensitive)
    } else {
        let last = (n - 1) as nat;
        taken_after(case_sensitive, stems, numbers, last).insert(
            numbered(name_key(case_sensitive, stems[last as int]), numbers[last as int]),
        )
    }
}

/// Each stem has the first name that the stems before it left free.
pub open spec fn is_allocation(
    case_sensitive: bool,
    stems: Seq<Seq<char>>,
    numbers: Seq<nat>,
) -> bool {
    &&& numbers.len() == stems.len()
    &&& forall|i: int|
        0 <= i < stems.len() ==> is_first_free(
            taken_after(case_sensitive, stems, numbers, i as nat),
            name_key(case_sensitive, #[trigger] stems[i]),
            numbers[i],
        )
}

/// The file names of the notes of an export, in order.
pub fn file_names(case_sensitive: bool, stems: &Vec<String>) -> (result: Vec<String>)
    requires
        stems@.len() + 2 < usize::MAX,
    ensures
        result@.len() == stems@.len(),
        exists|numbers: Seq<nat>| #[trigger]
            is_allocation(case_sensitive, texts(stems@), numbers) && forall|i: int|
                0 <= i < stems@.len() ==> (#[trigger] result@[i])@ == numbered(
                    stems@[i]@,
                    numbers[i],
                ) + ".md"@,
{
    let mut names = NameAllocator::new(case_sensitive);
    let mut result: Vec<String> = Vec::new();
    let ghost mut numbers: Seq<nat> = Seq::empty();
    let mut i: usize = 0;
    while i < stems.len()
        invariant
            i <= stems@.len(),
            stems@.len() + 2 < usize::MAX,
            names.case_sensitive == case_sensitive,
            names.used@.len() <= i + 2,
            names.taken() == taken_after(case_sensitive, texts(stems@), numbers, i as nat),
            numbers.len() == i,
            result@.len() == i,
            forall|j: int|
                0 <= j < i ==> is_first_free(
                    taken_after(case_sensitive, texts(stems@), numbers, j as nat),
                    name_key(case_sensitive, #[trigger] texts(stems@)[j]),
                    numbers[j],
                ),
            forall|j: int|
                0 <= j < i ==> (#[trigger] result@[j])@ == numbered(stems@[j]@, numbers[j]) + ".md"@,
        decreases stems@.len() - i,
    {
        let ghost before = names;
        let name = names.allocate(stems[i].as_str());
        proof {
            let stem = texts(stems@)[i as int];
            let n = choose|n: nat| #[trigger]
                before.first_free(stem, n) && name@ == numbered(stem, n) + ".md"@ && names.taken()
                    == before.taken().insert(numbered(name_key(case_sensitive, stem), n));
            let more = numbers.push(n);
            assert forall|j: nat| j <= i implies taken_after(
                case_sensitive,
                texts(stems@),
                more,
                j,
            ) == taken_after(case_sensitive, texts(stems@), numbers, j) by {
                taken_after_ignores_later(case_sensitive, texts(stems@), numbers, n, j);
            }
            assert forall|j: int| 0 <= j < i + 1 implies is_first_free(
                taken_after(case_sensitive, texts(stems@), more, j as nat),
                name_key(case_sensitive, #[trigger] texts(stems@)[j]),
                more[j],
            ) by {
                assert(taken_after(case_sensitive, texts(stems@), more, j as nat) == taken_after(
                    case_sensitive,
                    texts(stems@),
                    numbers,
                    j as nat,
                ));
                if j < i {
                    assert(more[j] == numbers[j]);
                }
            }
            numbers = more;
        }
        result.push(name);
        i += 1;
    }
    assert(is_allocation(case_sensitive, texts(stems@), numbers));
    result
}

proof fn taken_after_ignores_later(
    case_sensitive: bool,
    stems: Seq<Seq<char>>,
    numbers: Seq<nat>,
    more: nat,
    n: nat,
)
    requires
        n <= numbers.len(),
    ensures
        taken_after(case_sensitive, stems, numbers.push(more), n) == taken_after(
            case_sensitive,
            stems,
            numbers,
            n,
        ),
    decreases n,
{
    if n > 0 {
        taken_after_ignores_later(case_sensitive, stems, numbers, more, (n - 1) as nat);
        assert(numbers.push(more)[n - 1] == numbers[n - 1]);
    }
}

proof fn taken_after_grows(
    case_sensitive: bool,
    stems: Seq<Seq<char>>,
    numbers: Seq<nat>,
    n: nat,
    m: nat,
    name: Seq<char>,
)
    requires
        n <= m,
        taken_after(case_sensitive, stems, numbers, n).contains(name),
    ensures
        taken_after(case_sensitive, stems, numbers, m).contains(name),
    decreases m,
{
    if n < m {
        taken_after_grows(case_sensitive, stems, numbers, n, (m - 1) as nat, name);
    }
}

/// No two notes of an export get names that the disk takes for the same.
pub proof fn exported_names_differ(
    case_sensitive: bool,
    stems: Seq<Seq<char>>,
    numbers: Seq<nat>,
    i: int,
    j: int,
)
    requires
        is_allocation(case_sensitive, stems, numbers),
        0 <= i < j < stems.len(),
    ensures
        numbered(name_key(case_sensitive, stems[i]), numbers[i]) != numbered(
            name_key(case_sensitive, stems[j]),
            numbers[j],
        ),
{
    let first = numbered(name_key(case_sensitive, stems[i]), numbers[i]);
    taken_after_grows(case_sensitive, stems, numbers, (i + 1) as nat, j as nat, first);
    assert(is_first_free(
        taken_after(case_sensitive, stems, numbers, j as nat),
        name_key(case_sensitive, stems[j]),
        numbers[j],
    ));
}

/// No note gets the name of the attachments or of the report.
pub proof fn reserved_names_are_not_given_out(
    case_sensitive: bool,
    stems: Seq<Seq<char>>,
    numbers: Seq<nat>,
    i: int,
)
    requires
        is_allocation(case_sensitive, stems, numbers),
        0 <= i < stems.len(),
    ensures
        !reserved_names(case_sensitive).contains(
            numbered(name_key(case_sensitive, stems[i]), numbers[i]),
        ),
{
    let name = numbered(name_key(case_sensitive, stems[i]), numbers[i]);
    assert(is_first_free(
        taken_after(case_sensitive, stems, numbers, i as nat),
        name_key(case_sensitive, stems[i]),
        numbers[i],
    ));
    if reserved_names(case_sensitive).contains(name) {
        taken_after_grows(case_sensitive, stems, numbers, 0, i as nat, name);
    }
}

/// Names are given out one after the other: `states` are the allocators between them.
pub open spec fn give_out(
    states: Seq<NameAllocator>,
    stems: Seq<Seq<char>>,
    names: Seq<Seq<char>>,
) -> bool {
    &&& states.len() == stems.len() + 1
    &&& names.len() == stems.len()
    &&& forall|i: int|
        0 <= i < stems.len() ==> (#[trigger] states[i]).gives_out(states[i + 1], stems[i], names[i])
}

proof fn names_stay_taken(
    states: Seq<NameAllocator>,
    stems: Seq<Seq<char>>,
    names: Seq<Seq<char>>,
    i: int,
    j: int,
)
    requires
        give_out(states, stems, names),
        0 <= i <= j < states.len(),
    ensures
        states[j].case_sensitive == states[i].case_sensitive,
        states[i].taken().subset_of(states[j].taken()),
    decreases j - i,
{
    if i < j {
        names_stay_taken(states, stems, names, i, j - 1);
        assert(states[j - 1].gives_out(states[j - 1 + 1], stems[j - 1], names[j - 1]));
    }
}

/// However many names an allocator gives out, one after the other and for whatever
/// stems, no two of them are the same to the disk or at all, and none is the name of
/// the attachments or of the report.
pub proof fn names_given_out_differ(
    states: Seq<NameAllocator>,
    stems: Seq<Seq<char>>,
    names: Seq<Seq<char>>,
    i: int,
    j: int,
)
    requires
        give_out(states, stems, names),
        states[0].taken() == reserved_names(states[0].case_sensitive),
        0 <= i < j < names.len(),
    ensures
        ({
            let disk = states[0].case_sensitive;
            &&& name_key(disk, names[i]) != name_key(disk, names[j])
            &&& names[i] + ".md"@ != names[j] + ".md"@
            &&& !reserved_names(disk).contains(name_key(disk, names[i]))
            &&& !reserved_names(disk).contains(name_key(disk, names[j]))
        }),
{
    assert(states[i].gives_out(states[i + 1], stems[i], names[i]));
    assert(states[j].gives_out(states[j + 1], stems[j], names[j]));
    names_stay_taken(states, stems, names, 0, i);
    names_stay_taken(states, stems, names, 0, j);
    names_stay_taken(states, stems, names, i + 1, j);
    let key = name_key(states[0].case_sensitive, names[i]);
    assert(states[i + 1].taken().contains(key));
    if names[i] + ".md"@ == names[j] + ".md"@ {
        let a = names[i] + ".md"@;
        let b = names[j] + ".md"@;
        assert(names[i] =~= a.take(a.len() - ".md"@.len()));
        assert(names[j] =~= b.take(b.len() - ".md"@.len()));
    }
}

// ------------------------------------------------------------------ exporting

/// A directory lies within another one: the components of its path begin with the
/// other's.
pub open spec fn lies_within(parent: Seq<Seq<char>>, root: Seq<Seq<char>>) -> bool {
    root.len() <= parent.len() && forall|i: int| 0 <= i < root.len() ==> parent[i] == #[trigger] root[i]
}

/// Whether a place for an export lies within the library itself.
pub fn within_library(parent: &Vec<String>, root: &Vec<String>) -> (result: bool)
    ensures
        result == lies_within(texts(parent@), texts(root@)),
{
    if root.len() > parent.len() {
        return false;
    }
    let mut i: usize = 0;
    while i < root.len()
        invariant
            i <= root@.len() <= parent@.len(),
            forall|j: int| 0 <= j < i ==> texts(parent@)[j] == #[trigger] texts(root@)[j],
        decreases root@.len() - i,
    {
        if !(parent[i] == root[i]) {
            assert(texts(parent@)[i as int] != texts(root@)[i as int]);
            return false;
        }
        i += 1;
    }
    true
}

/// Why a note was not exported; nothing where it was.
pub open spec fn failure_of(note: SnapshotNote, exported: bool) -> Option<Seq<char>> {
    match note.version {
        Err(reason) => Some(reason@),
        Ok(_) => if exported {
            None
        } else {
            Some("笔记正文或图片暂时无法读取"@)
        },
    }
}

/// The failures among the first `n` notes, in order.
pub open spec fn failures_of(notes: Seq<SnapshotNote>, exported: Seq<bool>, n: nat) -> Seq<
    (Seq<char>, Seq<char>),
>
    decreases n,
{
    if n == 0 {
        Seq::empty()
    } else {
        let last = n - 1;
        let before = failures_of(notes, exported, last as nat);
        match failure_of(notes[last], exported[last]) {
            Some(reason) => before.push((notes[last].title@, reason)),
            None => before,
        }
    }
}

/// What failures say.
pub open spec fn failure_views(failures: Seq<Failure>) -> Seq<(Seq<char>, Seq<char>)> {
    Seq::new(failures.len(), |i: int| (failures[i].title@, failures[i].reason@))
}

/// The report on an export; `exported` tells of each note whether its text and
/// images could be written.
pub fn export_report(snapshot: &Snapshot, exported: &Vec<bool>) -> (result: Report)
    requires
        exported@.len() == snapshot.notes@.len(),
    ensures
        result.output is None,
        result.total == snapshot.notes@.len(),
        failure_views(result.failures@) == failures_of(
            snapshot.notes@,
            exported@,
            snapshot.notes@.len(),
        ),
        result.failures@.len() <= result.total,
{
    let mut failures: Vec<Failure> = Vec::new();
    let mut i: usize = 0;
    assert(failure_views(failures@) =~= Seq::empty());
    while i < snapshot.notes.len()
        invariant
            i <= snapshot.notes@.len(),
            exported@.len() == snapshot.notes@.len(),
            failures@.len() <= i,
            failure_views(failures@) == failures_of(snapshot.notes@, exported@, i as nat),
        decreases snapshot.notes@.len() - i,
    {
        let note = &snapshot.notes[i];
        let ghost before = failure_views(failures@);
        let reason = match &note.version {
            Err(reason) => Some(reason.clone()),
            Ok(_) => {
                if exported[i] {
                    None
                } else {
                    Some("笔记正文或图片暂时无法读取".to_owned())
                }
            },
        };
        if let Some(reason) = reason {
            let ghost shown = reason@;
            failures.push(Failure { title: note.title.clone(), reason });
            assert(failure_views(failures@) =~= before.push((note.title@, shown)));
        }
        i += 1;
    }
    Report { output: None, total: snapshot.notes.len(), failures }
}

/// What is done with the files of an export.
#[derive(Clone, Copy, Debug, PartialEq, Eq, Structural)]
pub enum Publication {
    /// No note could be exported, so nothing is kept.
    Nothing,
    /// Every note was exported.
    Complete,
    /// The report on what is missing is written beside the notes.
    WithReport,
}

/// Nothing is published where no note was exported; a report goes with what is
/// incomplete.
pub fn publication(report: &Report) -> (result: Publication)
    ensures
        result == (if report.successes() == 0 {
            Publication::Nothing
        } else if report.failures@.len() > 0 {
            Publication::WithReport
        } else {
            Publication::Complete
        }),
{
    if report.succeeded() == 0 {
        Publication::Nothing
    } else if !report.failures.is_empty() {
        Publication::WithReport
    } else {
        Publication::Complete
    }
}

/// The lines of a report on the first `n` failures.
pub open spec fn failure_lines(failures: Seq<Failure>, n: nat) -> Seq<char>
    decreases n,
{
    if n == 0 {
        Seq::empty()
    } else {
        failure_lines(failures, (n - 1) as nat) + "\n- 《"@ + failures[n - 1].title@ + "》："@
            + failures[n - 1].reason@ + "\n"@
    }
}

/// The text of a report on an incomplete export.
pub open spec fn report_text(report: Report) -> Seq<char> {
    "# 导出未完成\n\n已导出 "@ + decimal(report.successes()) + "/"@ + decimal(report.total as nat)
        + " 篇笔记。\n"@ + failure_lines(report.failures@, report.failures@.len())
}

pub fn incomplete_report(report: &Report) -> (result: String)
    ensures
        result@ == report_text(*report),
{
    let mut text = "# 导出未完成\n\n已导出 ".to_owned();
    text.append(number(report.succeeded() as u64).as_str());
    text.append("/");
    text.append(number(report.total as u64).as_str());
    text.append(" 篇笔记。\n");
    let ghost head = text@;
    let mut i: usize = 0;
    assert(head + Seq::<char>::empty() =~= head);
    while i < report.failures.len()
        invariant
            i <= report.failures@.len(),
            text@ == head + failure_lines(report.failures@, i as nat),
        decreases report.failures@.len() - i,
    {
        let ghost before = text@;
        text.append("\n- 《");
        text.append(report.failures[i].title.as_str());
        text.append("》：");
        text.append(report.failures[i].reason.as_str());
        text.append("\n");
        assert(text@ =~= head + failure_lines(report.failures@, (i + 1) as nat));
        i += 1;
    }
    text
}

/// Why an export could not be carried out.
#[derive(Clone, Copy, Debug, PartialEq, Eq, Structural)]
pub enum ExportFailure {
    /// The notes of the folder could not be listed.
    Unreadable,
    /// The folder holds no notes.
    Empty,
    /// The chosen place lies within the library.
    WithinLibrary,
    /// The directory chooser could not be opened.
    NoChooser,
    /// Anything else.
    NotWritten,
}

/// What a person is told of an export that could not be carried out.
pub open spec fn failure_text(failure: ExportFailure) -> Seq<char> {
    match failure {
        ExportFailure::Unreadable => "文件夹内容暂时无法读取，请刷新课程库后重试。"@,
        ExportFailure::Empty => "文件夹中没有可导出的笔记。"@,
        ExportFailure::WithinLibrary => "请选择课程库以外的位置后重试。"@,
        ExportFailure::NoChooser => "无法打开目录选择器，请重试。"@,
        ExportFailure::NotWritten => "无法在所选位置完成导出，请检查访问权限后重试。"@,
    }
}

pub fn export_failure(failure: ExportFailure) -> (result: &'static str)
    ensures
        result@ == failure_text(failure),
{
    match failure {
        ExportFailure::Unreadable => "文件夹内容暂时无法读取，请刷新课程库后重试。",
        ExportFailure::Empty => "文件夹中没有可导出的笔记。",
        ExportFailure::WithinLibrary => "请选择课程库以外的位置后重试。",
        ExportFailure::NoChooser => "无法打开目录选择器，请重试。",
        ExportFailure::NotWritten => "无法在所选位置完成导出，请检查访问权限后重试。",
    }
}

/// Why an error of an export arose, as its text tells.
pub open spec fn error_cause(error: Seq<char>) -> ExportFailure {
    if holds(error, "课程库以外"@) {
        ExportFailure::WithinLibrary
    } else {
        ExportFailure::NotWritten
    }
}

pub fn classify_failure(error: &str) -> (result: ExportFailure)
    ensures
        result == error_cause(error@),
{
    if contains(error, "课程库以外") {
        ExportFailure::WithinLibrary
    } else {
        ExportFailure::NotWritten
    }
}

// ------------------------------------------------------------------- controls

/// The library with this root, first in the list.
pub open spec fn library_at(libraries: Seq<LibraryLocation>, root: Seq<char>) -> Option<
    LibraryLocation,
>
    decreases libraries.len(),
{
    if libraries.len() == 0 {
        None
    } else if libraries[0].root@ == root {
        Some(libraries[0])
    } else {
        library_at(libraries.skip(1), root)
    }
}

/// The place of the first library with a root.
pub fn find_library(libraries: &Vec<LibraryLocation>, root: &str) -> (result: Option<usize>)
    ensures
        match result {
            Some(i) => i < libraries@.len() && library_at(libraries@, root@) == Some(
                libraries@[i as int],
            ),
            None => library_at(libraries@, root@) is None,
        },
{
    let mut i: usize = 0;
    assert(libraries@.skip(0) =~= libraries@);
    while i < libraries.len()
        invariant
            i <= libraries@.len(),
            library_at(libraries@.skip(i as int), root@) == library_at(libraries@, root@),
        decreases libraries@.len() - i,
    {
        assert(libraries@.skip(i as int)[0] == libraries@[i as int]);
        if same(libraries[i].root.as_str(), root) {
            return Some(i);
        }
        assert(libraries@.skip(i as int).skip(1) =~= libraries@.skip(i + 1));
        i += 1;
    }
    None
}

/// The key of a folder in the library that is shown; a library that is not
/// registered is known by its root.
pub fn selected_folder_key(
    libraries: &Vec<LibraryLocation>,
    library_root: &str,
    folder_id: u64,
) -> (result: FolderKey)
    ensures
        result.id() == (
            match library_at(libraries@, library_root@) {
                Some(library) => library.id@,
                None => library_root@,
            },
            library_root@,
            folder_id,
        ),
{
    let library_id = match find_library(libraries, library_root) {
        Some(i) => libraries[i].id.clone(),
        None => library_root.to_owned(),
    };
    FolderKey { library_id, root: library_root.to_owned(), folder_id }
}

/// How the export button looks.
pub struct ExportButton {
    pub label: String,
    pub tooltip: &'static str,
    pub loading: bool,
    pub disabled: bool,
}

impl State {
    /// The export under way is of this folder.
    pub open spec fn exports(self, key: FolderKey) -> bool {
        self.pending matches Some(pending) && pending.key.id() == key.id()
    }

    /// The label of the export button of a folder.
    pub open spec fn button_label(self, key: FolderKey) -> Seq<char> {
        if self.exports(key) {
            match self.pending->0.total {
                Some(total) => "正在导出 "@ + decimal(self.pending->0.completed as nat) + "/"@
                    + decimal(total as nat),
                None => "正在选择位置…"@,
            }
        } else {
            "导出文件夹"@
        }
    }

    /// The export button of a folder that holds `count` notes.
    pub fn folder_export_button(&self, key: &FolderKey, count: usize, online: bool) -> (result: ExportButton)
        ensures
            result.label@ == self.button_label(*key),
            result.loading == self.exports(*key),
            result.disabled == (!online || count == 0 || self.pending is Some),
            result.tooltip@ == (if !online {
                "课程库暂时无法访问"@
            } else if count == 0 {
                "文件夹中没有可导出的笔记"@
            } else if self.pending is Some && !self.exports(*key) {
                "当前正在导出另一个文件夹"@
            } else {
                "导出文件夹中的全部笔记"@
            }),
    {
        let current = match &self.pending {
            Some(pending) => pending.key.same_key(key),
            None => false,
        };
        let label = match &self.pending {
            Some(pending) if current => match pending.total {
                Some(total) => {
                    let mut text = "正在导出 ".to_owned();
                    text.append(number(pending.completed as u64).as_str());
                    text.append("/");
                    text.append(number(total as u64).as_str());
                    text
                },
                None => "正在选择位置…".to_owned(),
            },
            _ => "导出文件夹".to_owned(),
        };
        let tooltip = if !online {
            "课程库暂时无法访问"
        } else if count == 0 {
            "文件夹中没有可导出的笔记"
        } else if self.pending.is_some() && !current {
            "当前正在导出另一个文件夹"
        } else {
            "导出文件夹中的全部笔记"
        };
        ExportButton {
            label,
            tooltip,
            loading: current,
            disabled: !online || count == 0 || self.pending.is_some(),
        }
    }
}

#[derive(Clone, Copy, Debug, PartialEq, Eq, Structural)]
pub enum FeedbackTone {
    Success,
    Warning,
    Danger,
}

/// How feedback sounds.
pub open spec fn tone_of(feedback: Feedback) -> FeedbackTone {
    match feedback.result {
        Ok(report) => if report.output is None {
            FeedbackTone::Danger
        } else if report.failures@.len() == 0 {
            FeedbackTone::Success
        } else {
            FeedbackTone::Warning
        },
        Err(_) => FeedbackTone::Danger,
    }
}

/// What feedback says.
pub open spec fn feedback_text(feedback: Feedback) -> Seq<char> {
    match feedback.result {
        Ok(report) => {
            let done = decimal(report.successes());
            let all = decimal(report.total as nat);
            let missing = report.failures@.len();
            if report.output is Some {
                if missing == 0 {
                    "已导出 "@ + done + " 篇笔记"@
                } else if missing == 1 {
                    "已导出 "@ + done + "/"@ + all + " 篇；《"@ + report.failures@[0].title@
                        + "》未完成"@
                } else {
                    "已导出 "@ + done + "/"@ + all + " 篇；"@ + decimal(missing) + " 篇未完成"@
                }
            } else if missing > 0 {
                "未能导出“"@ + feedback.folder_name@ + "”："@ + report.failures@[0].reason@
            } else {
                "未能导出“"@ + feedback.folder_name@ + "”"@
            }
        },
        Err(error) => "未能导出“"@ + feedback.folder_name@ + "”："@ + error@,
    }
}

impl Feedback {
    pub fn tone(&self) -> (result: FeedbackTone)
        ensures
            result == tone_of(*self),
    {
        match &self.result {
            Ok(report) => {
                if report.output.is_none() {
                    FeedbackTone::Danger
                } else if report.failures.is_empty() {
                    FeedbackTone::Success
                } else {
                    FeedbackTone::Warning
                }
            },
            Err(_) => FeedbackTone::Danger,
        }
    }

    pub fn label(&self) -> (result: String)
        ensures
            result@ == feedback_text(*self),
    {
        match &self.result {
            Ok(report) => {
                if report.output.is_some() {
                    let mut text = "已导出 ".to_owned();
                    text.append(number(report.succeeded() as u64).as_str());
                    if report.failures.is_empty() {
                        text.append(" 篇笔记");
                        return text;
                    }
                    text.append("/");
                    text.append(number(report.total as u64).as_str());
                    if report.failures.len() == 1 {
                        text.append(" 篇；《");
                        text.append(report.failures[0].title.as_str());
                        text.append("》未完成");
                    } else {
                        text.append(" 篇；");
                        text.append(number(report.failures.len() as u64).as_str());
                        text.append(" 篇未完成");
                    }
                    text
                } else {
                    let mut text = "未能导出“".to_owned();
                    text.append(self.folder_name.as_str());
                    if report.failures.is_empty() {
                        text.append("”");
                    } else {
                        text.append("”：");
                        text.append(report.failures[0].reason.as_str());
                    }
                    text
                }
            },
            Err(error) => {
                let mut text = "未能导出“".to_owned();
                text.append(self.folder_name.as_str());
                text.append("”：");
                text.append(error.as_str());
                text
            },
        }
    }

    /// Whether the export is offered again: whenever something is missing.
    pub fn can_retry(&self) -> (result: bool)
        ensures
            result == (self.result is Err || self.result->Ok_0.failures@.len() > 0),
    {
        match &self.result {
            Ok(report) => !report.failures.is_empty(),
            Err(_) => true,
        }
    }

    /// Whether there are details on single notes.
    pub fn has_details(&self) -> (result: bool)
        ensures
            result == (self.result is Ok && self.result->Ok_0.failures@.len() > 0),
    {
        match &self.result {
            Ok(report) => !report.failures.is_empty(),
            Err(_) => false,
        }
    }
}

/// What succeeded is never offered again, and whatever is incomplete is.
pub proof fn only_success_is_final(feedback: Feedback)
    ensures
        tone_of(feedback) is Success ==> feedback.result is Ok
            && feedback.result->Ok_0.failures@.len() == 0,
        tone_of(feedback) is Warning ==> feedback.result->Ok_0.failures@.len() > 0,
{
}

// ------------------------------------------------------------- what is exported

/// The places are those of `n` that are chosen, in their order.
pub open spec fn picks(places: Seq<int>, n: nat, chosen: spec_fn(int) -> bool) -> bool {
    &&& forall|k: int, l: int| 0 <= k < l < places.len() ==> #[trigger] places[k] < #[trigger] places[l]
    &&& forall|k: int| 0 <= k < places.len() ==> 0 <= #[trigger] places[k] < n && chosen(places[k])
    &&& forall|i: int| 0 <= i < n && #[trigger] chosen(i) ==> places.contains(i)
}

/// The note can be read: it lies below its library, and its text was found.
pub open spec fn can_be_read(note: FiledNote) -> bool {
    &&& note.parts@.len() > 0
    &&& forall|i: int| 0 <= i < note.parts@.len() ==> (#[trigger] note.parts@[i]) is Normal
    &&& note.course is Some
}

#[verifier::rlimit(40)]
proof fn listed_notes(notes: Seq<FiledNote>, folder: u64) -> (places: Seq<int>)
    ensures
        picks(places, notes.len(), |i: int| notes[i].folder == folder),
        notes_in(notes, folder).len() == places.len(),
        forall|k: int|
            0 <= k < places.len() ==> #[trigger] notes_in(notes, folder)[k] == snapshot_of(
                notes[places[k]],
            ),
    decreases notes.len(),
{
    if notes.len() == 0 {
        let places = Seq::<int>::empty();
        assert(picks(places, 0, |i: int| notes[i].folder == folder));
        places
    } else {
        let front = notes.drop_last();
        let last = notes.len() - 1;
        let before = listed_notes(front, folder);
        let chosen = |i: int| notes[i].folder == folder;
        let earlier = |i: int| front[i].folder == folder;
        let places = if notes.last().folder == folder {
            before.push(last)
        } else {
            before
        };
        assert forall|k: int| 0 <= k < places.len() implies 0 <= #[trigger] places[k] < notes.len()
            && chosen(places[k]) by {
            if k < before.len() {
                assert(places[k] == before[k]);
                assert(earlier(before[k]));
            }
        }
        assert forall|k: int, l: int| 0 <= k < l < places.len() implies #[trigger] places[k]
            < #[trigger] places[l] by {
            assert(places[k] == before[k]);
            if l < before.len() {
                assert(places[l] == before[l]);
            }
        }
        assert forall|i: int| 0 <= i < notes.len() && #[trigger] chosen(i) implies places.contains(
            i,
        ) by {
            if i < last {
                assert(earlier(i));
                let k = choose|k: int| 0 <= k < before.len() && before[k] == i;
                assert(places[k] == i);
            } else {
                assert(places[before.len() as int] == i);
            }
        }
        assert forall|k: int| 0 <= k < places.len() implies #[trigger] notes_in(notes, folder)[k]
            == snapshot_of(notes[places[k]]) by {
            if k < before.len() {
                assert(notes_in(notes, folder)[k] == notes_in(front, folder)[k]);
                assert(front[before[k]] == notes[places[k]]);
            }
        }
        places
    }
}

/// A snapshot holds the notes of the folder and no others, in their order. A note to
/// which a person gave a name is taken under that name, whether or not it can be read;
/// any other under the title in its text, or under its path where that cannot be read.
/// What can be read is exported from where it was found.
#[verifier::rlimit(40)]
pub proof fn a_snapshot_holds_the_notes_of_the_folder(
    key: FolderKey,
    root: String,
    folders: Table<u64, String>,
    notes: Vec<FiledNote>,
    taken: Snapshot,
) -> (places: Seq<int>)
    requires
        folders.wf(),
        call_ensures(snapshot, (&key, root, &folders, &notes), Some(taken)),
    ensures
        taken.root@ == root@,
        taken.folder_name@ == folders.map()[key.folder_id]@,
        picks(places, notes@.len(), |i: int| notes@[i].folder == key.folder_id),
        taken.notes@.len() == places.len(),
        forall|k: int|
            0 <= k < places.len() ==> {
                let note = notes@[places[k]];
                let shown = #[trigger] taken.notes@[k];
                &&& note.alias matches Some(name) ==> shown.title@ == shown_title(name@)
                &&& note.alias is None && can_be_read(note) ==> shown.title@ == shown_title(
                    note.course->0.title@,
                )
                &&& note.alias is None && !can_be_read(note) ==> shown.title@ == shown_title(
                    note.fallback@,
                )
                &&& shown.version is Ok <==> can_be_read(note)
                &&& can_be_read(note) ==> shown.version->Ok_0@ == note.course->0.dir@
            },
{
    let places = listed_notes(notes@, key.folder_id);
    assert(note_views(taken.notes@).len() == taken.notes@.len());
    assert forall|k: int| 0 <= k < places.len() implies {
        let note = notes@[places[k]];
        let shown = #[trigger] taken.notes@[k];
        &&& note.alias matches Some(name) ==> shown.title@ == shown_title(name@)
        &&& note.alias is None && can_be_read(note) ==> shown.title@ == shown_title(
            note.course->0.title@,
        )
        &&& note.alias is None && !can_be_read(note) ==> shown.title@ == shown_title(note.fallback@)
        &&& shown.version is Ok <==> can_be_read(note)
        &&& can_be_read(note) ==> shown.version->Ok_0@ == note.course->0.dir@
    } by {
        assert(note_views(taken.notes@)[k] == taken.notes@[k]@);
        assert(notes_in(notes@, key.folder_id)[k] == snapshot_of(notes@[places[k]]));
    }
    places
}

/// A folder that is known can be exported, and no other.
pub proof fn a_known_folder_has_a_snapshot(
    key: FolderKey,
    root: String,
    folders: Table<u64, String>,
    notes: Vec<FiledNote>,
    taken: Option<Snapshot>,
)
    requires
        folders.wf(),
        call_ensures(snapshot, (&key, root, &folders, &notes), taken),
    ensures
        taken is Some <==> folders.map().contains_key(key.folder_id),
{
}

/// A title is shown on one line, without white space around it, and says something.
#[verifier::rlimit(40)]
pub proof fn a_title_is_shown_on_one_line(value: &str, result: String, i: int)
    requires
        call_ensures(safe_title, (value,), result),
        0 <= i < result@.len(),
    ensures
        result@[i] != '\n' && result@[i] != '\r',
        !is_space(result@[0]) && !is_space(result@.last()),
{
    let line = on_one_line(value@);
    let ends = trimming_takes_only_space(line);
    let shown = line.subrange(ends.0, ends.1);
    if trimmed(line).len() > 0 {
        assert(result@ == shown);
        assert(shown[i] == line[ends.0 + i]);
        assert(shown[0] == line[ends.0]);
        assert(shown.last() == line[ends.1 - 1]);
    } else {
        reveal_strlit("未命名笔记");
    }
}

/// A title that is on one line already, without white space around it, is shown as it is; a
/// blank one is told as such.
pub proof fn a_proper_title_is_shown_as_it_is(value: &str, result: String)
    requires
        call_ensures(safe_title, (value,), result),
    ensures
        result@.len() > 0,
        value@.len() > 0 && !is_space(value@[0]) && !is_space(value@.last()) && (forall|i: int|
            0 <= i < value@.len() ==> #[trigger] value@[i] != '\n' && value@[i] != '\r')
            ==> result@ == value@,
        is_blank(value@) ==> result@ == "未命名笔记"@,
{
    a_shown_title_says_something(value@);
    let line = on_one_line(value@);
    if is_blank(value@) {
        assert forall|i: int| 0 <= i < line.len() implies is_space(#[trigger] line[i]) by {
            assert(is_space(value@[i]));
        }
        blank_trims_to_nothing(line);
    }
    if value@.len() > 0 && !is_space(value@[0]) && !is_space(value@.last()) && (forall|i: int|
        0 <= i < value@.len() ==> #[trigger] value@[i] != '\n' && value@[i] != '\r') {
        assert(line =~= value@);
        trimmed_text_stays(value@);
    }
}

/// A break in a line counts as a space in a title.
pub proof fn a_break_counts_as_a_space(value: &str, other: &str, result: String, again: String)
    requires
        call_ensures(safe_title, (value,), result),
        call_ensures(safe_title, (other,), again),
        value@.len() == other@.len(),
        forall|i: int|
            0 <= i < value@.len() ==> {
                ||| #[trigger] value@[i] == other@[i]
                ||| value@[i] == '\n' && other@[i] == ' '
                ||| value@[i] == '\r' && other@[i] == ' '
            },
    ensures
        result@ == again@,
{
    assert(on_one_line(value@) =~= on_one_line(other@));
}

proof fn counted_notes(notes: Seq<FiledNote>, folders: Seq<u64>, folder: u64)
    requires
        folders.len() == notes.len(),
        forall|i: int| 0 <= i < notes.len() ==> #[trigger] folders[i] == notes[i].folder,
    ensures
        count_in(folders, folder) == notes_in(notes, folder).len(),
    decreases notes.len(),
{
    if notes.len() > 0 {
        counted_notes(notes.drop_last(), folders.drop_last(), folder);
        assert(folders[folders.len() - 1] == notes[notes.len() - 1].folder);
    }
}

/// The number of notes that is told of a folder is the number of notes that its export
/// takes.
pub proof fn the_count_is_what_is_exported(
    key: FolderKey,
    root: String,
    folders: Table<u64, String>,
    notes: Vec<FiledNote>,
    taken: Snapshot,
    filed: Vec<u64>,
    count: usize,
)
    requires
        folders.wf(),
        call_ensures(snapshot, (&key, root, &folders, &notes), Some(taken)),
        filed@.len() == notes@.len(),
        forall|i: int| 0 <= i < notes@.len() ==> #[trigger] filed@[i] == notes@[i].folder,
        call_ensures(folder_note_count, (&filed, key.folder_id), count),
    ensures
        count == taken.notes@.len(),
{
    counted_notes(notes@, filed@, key.folder_id);
    assert(note_views(taken.notes@).len() == taken.notes@.len());
}

/// The note was written: it could be read, and its export succeeded.
pub open spec fn was_written(note: SnapshotNote, exported: bool) -> bool {
    note.version is Ok && exported
}

#[verifier::rlimit(40)]
proof fn failed_notes(notes: Seq<SnapshotNote>, exported: Seq<bool>, n: nat) -> (places: Seq<int>)
    requires
        n <= notes.len(),
        exported.len() == notes.len(),
    ensures
        picks(places, n, |i: int| !was_written(notes[i], exported[i])),
        failures_of(notes, exported, n).len() == places.len(),
        forall|k: int|
            0 <= k < places.len() ==> {
                let note = notes[places[k]];
                let failure = #[trigger] failures_of(notes, exported, n)[k];
                &&& failure.0 == note.title@
                &&& note.version matches Err(reason) ==> failure.1 == reason@
                &&& note.version is Ok ==> failure.1 == "笔记正文或图片暂时无法读取"@
            },
    decreases n,
{
    if n == 0 {
        let places = Seq::<int>::empty();
        assert(picks(places, 0, |i: int| !was_written(notes[i], exported[i])));
        places
    } else {
        let m = (n - 1) as nat;
        let before = failed_notes(notes, exported, m);
        let chosen = |i: int| !was_written(notes[i], exported[i]);
        let places = if !was_written(notes[m as int], exported[m as int]) {
            before.push(m as int)
        } else {
            before
        };
        assert forall|k: int| 0 <= k < places.len() implies 0 <= #[trigger] places[k] < n && chosen(
            places[k],
        ) by {
            if k < before.len() {
                assert(places[k] == before[k]);
                assert(chosen(before[k]));
            }
        }
        assert forall|k: int, l: int| 0 <= k < l < places.len() implies #[trigger] places[k]
            < #[trigger] places[l] by {
            assert(places[k] == before[k]);
            if l < before.len() {
                assert(places[l] == before[l]);
            }
        }
        assert forall|i: int| 0 <= i < n && #[trigger] chosen(i) implies places.contains(i) by {
            if i < m {
                let k = choose|k: int| 0 <= k < before.len() && before[k] == i;
                assert(places[k] == i);
            } else {
                assert(places[before.len() as int] == i);
            }
        }
        assert forall|k: int| 0 <= k < places.len() implies {
            let note = notes[places[k]];
            let failure = #[trigger] failures_of(notes, exported, n)[k];
            &&& failure.0 == note.title@
            &&& note.version matches Err(reason) ==> failure.1 == reason@
            &&& note.version is Ok ==> failure.1 == "笔记正文或图片暂时无法读取"@
        } by {
            if k < before.len() {
                assert(failures_of(notes, exported, n)[k] == failures_of(notes, exported, m)[k]);
            }
        }
        places
    }
}

/// A report tells of exactly the notes that were not written, in their order, each under
/// its title and with the reason why it could not be read where that is known.
pub proof fn a_report_tells_what_was_not_written(
    snapshot: Snapshot,
    exported: Vec<bool>,
    report: Report,
) -> (places: Seq<int>)
    requires
        exported@.len() == snapshot.notes@.len(),
        call_ensures(export_report, (&snapshot, &exported), report),
    ensures
        report.total == snapshot.notes@.len(),
        report.output is None,
        picks(
            places,
            snapshot.notes@.len(),
            |i: int| !was_written(snapshot.notes@[i], exported@[i]),
        ),
        report.failures@.len() == places.len(),
        forall|k: int|
            0 <= k < places.len() ==> {
                let note = snapshot.notes@[places[k]];
                let failure = #[trigger] report.failures@[k];
                &&& failure.title@ == note.title@
                &&& note.version matches Err(reason) ==> failure.reason@ == reason@
                &&& note.version is Ok ==> failure.reason@ == "笔记正文或图片暂时无法读取"@
            },
{
    let places = failed_notes(snapshot.notes@, exported@, snapshot.notes@.len());
    let told = failure_views(report.failures@);
    assert(told.len() == report.failures@.len());
    assert forall|k: int| 0 <= k < places.len() implies {
        let note = snapshot.notes@[places[k]];
        let failure = #[trigger] report.failures@[k];
        &&& failure.title@ == note.title@
        &&& note.version matches Err(reason) ==> failure.reason@ == reason@
        &&& note.version is Ok ==> failure.reason@ == "笔记正文或图片暂时无法读取"@
    } by {
        assert(told[k] == (report.failures@[k].title@, report.failures@[k].reason@));
        assert(failures_of(snapshot.notes@, exported@, snapshot.notes@.len())[k] == told[k]);
    }
    places
}

proof fn picks_all_or_none(places: Seq<int>, n: nat, chosen: spec_fn(int) -> bool)
    requires
        picks(places, n, chosen),
    ensures
        places.len() <= n,
        places.len() == 0 <==> forall|i: int| 0 <= i < n ==> !#[trigger] chosen(i),
        places.len() == n <==> forall|i: int| 0 <= i < n ==> #[trigger] chosen(i),
{
    assert(places.no_duplicates());
    places_are_few(places, n as int);
    if places.len() == 0 {
        assert forall|i: int| 0 <= i < n implies !#[trigger] chosen(i) by {
            if chosen(i) {
                assert(places.contains(i));
            }
        }
    } else {
        assert(chosen(places[0]));
    }
    if places.len() == n {
        assert forall|i: int| 0 <= i < n implies #[trigger] chosen(i) by {
            climbs(places, n, chosen, i);
        }
    }
    if forall|i: int| 0 <= i < n ==> #[trigger] chosen(i) {
        assert forall|i: int| 0 <= i < n implies places.contains(i) by {
            assert(chosen(i));
        }
        covers(places, n);
    }
}

proof fn climbs(places: Seq<int>, n: nat, chosen: spec_fn(int) -> bool, i: int)
    requires
        picks(places, n, chosen),
        places.len() == n,
        0 <= i < n,
    ensures
        places[i] == i,
        chosen(i),
{
    climbs_from_below(places, n, chosen, i);
    climbs_from_above(places, n, chosen, n - 1 - i);
}

proof fn climbs_from_below(places: Seq<int>, n: nat, chosen: spec_fn(int) -> bool, i: int)
    requires
        picks(places, n, chosen),
        0 <= i < places.len(),
    ensures
        places[i] >= i,
    decreases i,
{
    if i > 0 {
        climbs_from_below(places, n, chosen, i - 1);
        assert(places[i - 1] < places[i]);
    }
}

proof fn climbs_from_above(places: Seq<int>, n: nat, chosen: spec_fn(int) -> bool, back: int)
    requires
        picks(places, n, chosen),
        places.len() == n,
        0 <= back < n,
    ensures
        places[n - 1 - back] <= n - 1 - back,
    decreases back,
{
    if back > 0 {
        climbs_from_above(places, n, chosen, back - 1);
        assert(places[n - 1 - back] < places[n - back]);
    }
}

proof fn covers(places: Seq<int>, n: nat)
    requires
        forall|i: int| 0 <= i < n ==> places.contains(i),
    ensures
        places.len() >= n,
{
    let at = Seq::new(n, |i: int| places.index_of(i));
    assert forall|i: int| 0 <= i < n implies 0 <= #[trigger] at[i] < places.len() && places[at[i]]
        == i by {
        assert(places.contains(i));
    }
    assert(at.no_duplicates()) by {
        assert forall|i: int, j: int| 0 <= i < n && 0 <= j < n && i != j implies at[i] != at[j] by {
            assert(places[at[i]] == i && places[at[j]] == j);
        }
    }
    places_are_few(at, places.len() as int);
}

/// A directory is published only where a note was written, and it holds a report of what
/// is missing exactly where a note was not.
#[verifier::rlimit(40)]
pub proof fn what_was_written_is_published(
    snapshot: Snapshot,
    exported: Vec<bool>,
    report: Report,
    result: Publication,
)
    requires
        exported@.len() == snapshot.notes@.len(),
        call_ensures(export_report, (&snapshot, &exported), report),
        call_ensures(publication, (&report,), result),
    ensures
        result is Nothing <==> forall|i: int|
            0 <= i < snapshot.notes@.len() ==> !#[trigger] was_written(
                snapshot.notes@[i],
                exported@[i],
            ),
        result is Complete <==> snapshot.notes@.len() > 0 && forall|i: int|
            0 <= i < snapshot.notes@.len() ==> #[trigger] was_written(
                snapshot.notes@[i],
                exported@[i],
            ),
        result is WithReport <==> (exists|i: int|
            0 <= i < snapshot.notes@.len() && #[trigger] was_written(
                snapshot.notes@[i],
                exported@[i],
            )) && (exists|i: int|
            0 <= i < snapshot.notes@.len() && !#[trigger] was_written(
                snapshot.notes@[i],
                exported@[i],
            )),
{
    let places = a_report_tells_what_was_not_written(snapshot, exported, report);
    let chosen = |i: int| !was_written(snapshot.notes@[i], exported@[i]);
    let n = snapshot.notes@.len();
    picks_all_or_none(places, n, chosen);
    assert((forall|i: int| 0 <= i < n ==> #[trigger] chosen(i)) <==> (forall|i: int|
        0 <= i < n ==> !#[trigger] was_written(snapshot.notes@[i], exported@[i]))) by {
        if forall|i: int| 0 <= i < n ==> #[trigger] chosen(i) {
            assert forall|i: int| 0 <= i < n implies !#[trigger] was_written(
                snapshot.notes@[i],
                exported@[i],
            ) by {
                assert(chosen(i));
            }
        }
    }
    assert((forall|i: int| 0 <= i < n ==> !#[trigger] chosen(i)) <==> (forall|i: int|
        0 <= i < n ==> #[trigger] was_written(snapshot.notes@[i], exported@[i]))) by {
        if forall|i: int| 0 <= i < n ==> !#[trigger] chosen(i) {
            assert forall|i: int| 0 <= i < n implies #[trigger] was_written(
                snapshot.notes@[i],
                exported@[i],
            ) by {
                assert(!chosen(i));
            }
        }
    }
}

/// What is told of an export: success exactly where a directory was written and nothing is
/// missing, a warning where something is, an error where no directory was written. It can
/// be tried again exactly where it was no success.
pub proof fn the_tone_tells_the_outcome(
    feedback: Feedback,
    tone: FeedbackTone,
    retry: bool,
    details: bool,
)
    requires
        call_ensures(Feedback::tone, (&feedback,), tone),
        call_ensures(Feedback::can_retry, (&feedback,), retry),
        call_ensures(Feedback::has_details, (&feedback,), details),
    ensures
        tone is Success <==> (feedback.result matches Ok(report) && report.output is Some
            && report.failures@.len() == 0),
        tone is Warning <==> (feedback.result matches Ok(report) && report.output is Some
            && report.failures@.len() > 0),
        tone is Danger <==> (feedback.result matches Ok(report) ==> report.output is None),
        tone is Success ==> !retry,
        tone is Warning ==> retry && details,
        feedback.result is Err ==> retry && !details,
{
}

/// A place lies within a library exactly where its path goes on from the library's.
pub proof fn a_place_within_goes_on_from_the_root(
    parent: Vec<String>,
    root: Vec<String>,
    within: bool,
    below: Seq<Seq<char>>,
)
    requires
        call_ensures(within_library, (&parent, &root), within),
    ensures
        texts(parent@) == texts(root@) + below ==> within,
        within ==> texts(parent@) == texts(root@) + texts(parent@).skip(root@.len() as int),
        within ==> root@.len() <= parent@.len(),
{
    let a = texts(parent@);
    let b = texts(root@);
    if a == b + below {
        assert forall|i: int| 0 <= i < b.len() implies a[i] == #[trigger] b[i] by {
            assert((b + below)[i] == b[i]);
        }
    }
    if within {
        assert(a =~= b + a.skip(b.len() as int));
    }
}

/// An export that has begun is the one under way, and only what it reports counts. What
/// was told of the folder before is taken down; nothing is told of another.
pub proof fn an_export_that_has_begun_counts(
    state: &mut State,
    key: FolderKey,
    name: String,
    begun: Option<u64>,
    other: FolderKey,
)
    requires
        old(state).wf(),
        call_ensures(State::begin, (state, key, name), begun),
    ensures
        begun is Some <==> old(state).pending is None,
        begun matches Some(generation) ==> {
            &&& final(state).is_under_way(generation, key)
            &&& !final(state).is_under_way(old(state).generation, key) || generation == old(
                state).generation
            &&& !final(state).feedback.map().contains_key(key.id())
            &&& final(state).pending->0.completed == 0
            &&& final(state).pending->0.total is None
            &&& final(state).pending->0.folder_name@ == name@
            &&& other.id() != key.id() ==> {
                &&& !final(state).is_under_way(generation, other)
                &&& final(state).feedback.map().contains_key(other.id()) <==> old(
                    state).feedback.map().contains_key(other.id())
            }
        },
        begun is None ==> *final(state) == *old(state),
{
}

/// The end of an export is told of its folder, and nothing is under way then; an end that
/// does not count changes nothing.
pub proof fn the_end_of_an_export_is_told(
    state: &mut State,
    generation: u64,
    key: FolderKey,
    feedback: Feedback,
    counted: bool,
    other: FolderKey,
)
    requires
        old(state).wf(),
        call_ensures(State::finish, (state, generation, &key, feedback), counted),
    ensures
        counted <==> (old(state).pending matches Some(pending) && pending.generation == generation
            && pending.key.id() == key.id()),
        counted ==> final(state).pending is None && final(state).feedback.map()[key.id()] == feedback
            && final(state).feedback.map().contains_key(key.id()),
        other.id() != key.id() ==> (final(state).feedback.map().contains_key(other.id()) <==> old(
            state).feedback.map().contains_key(other.id())),
        !counted ==> *final(state) == *old(state),
{
}

/// Progress is shown of the export that is under way, and of no other.
pub proof fn progress_counts_for_its_export(
    state: &mut State,
    generation: u64,
    key: FolderKey,
    completed: usize,
    counted: bool,
)
    requires
        old(state).wf(),
        call_ensures(State::advance, (state, generation, &key, completed), counted),
    ensures
        counted ==> final(state).pending->0.completed == completed && final(state).pending->0.total
            == old(state).pending->0.total && final(state).is_under_way(generation, key),
        counted <==> old(state).is_under_way(generation, key),
        !counted ==> *final(state) == *old(state),
        final(state).feedback == old(state).feedback,
{
}

/// Opening the details twice leaves them as they were.
pub proof fn opening_details_twice_undoes(
    first: &mut State,
    second: &mut State,
    key: FolderKey,
)
    requires
        old(first).wf(),
        call_ensures(State::toggle_details, (first, &key), ()),
        *old(second) == *final(first),
        call_ensures(State::toggle_details, (second, &key), ()),
    ensures
        final(first).details_open.map().contains_key(key.id()) <==> !old(
            first).details_open.map().contains_key(key.id()),
        final(second).details_open.map() == old(first).details_open.map(),
        final(first).pending == old(first).pending,
{
    assert(final(second).details_open.map() =~= old(first).details_open.map());
}

/// A stem that no disk name stands in the way of is taken as it is; the first note of an
/// export is never numbered.
pub proof fn the_first_name_is_not_numbered(
    case_sensitive: bool,
    stems: Vec<String>,
    names: Vec<String>,
)
    requires
        stems@.len() + 2 < usize::MAX,
        call_ensures(file_names, (case_sensitive, &stems), names),
    ensures
        names@.len() == stems@.len(),
        stems@.len() > 0 && !reserved_names(case_sensitive).contains(
            name_key(case_sensitive, stems@[0]@),
        ) ==> names@[0]@ == stems@[0]@ + ".md"@,
        forall|i: int|
            0 <= i < names@.len() ==> begins((#[trigger] names@[i])@, stems@[i]@),
{
    let numbers = choose|numbers: Seq<nat>| #[trigger]
        is_allocation(case_sensitive, texts(stems@), numbers) && forall|i: int|
            0 <= i < stems@.len() ==> (#[trigger] names@[i])@ == numbered(stems@[i]@, numbers[i])
                + ".md"@;
    if stems@.len() > 0 {
        let first = texts(stems@)[0];
        assert(is_first_free(
            taken_after(case_sensitive, texts(stems@), numbers, 0),
            name_key(case_sensitive, first),
            numbers[0],
        ));
        if numbers[0] > 1 {
            assert(reserved_names(case_sensitive).contains(
                numbered(name_key(case_sensitive, first), 1),
            ));
        }
    }
    assert forall|i: int| 0 <= i < names@.len() implies begins(
        (#[trigger] names@[i])@,
        stems@[i]@,
    ) by {
        let stem = stems@[i]@;
        assert(names@[i]@.subrange(0, stem.len() as int) =~= stem);
    }
}

/// The button of a folder can be pressed exactly where its library is there, it holds
/// notes and nothing is exported.
pub proof fn the_button_is_for_what_can_be_exported(
    state: State,
    key: FolderKey,
    count: usize,
    online: bool,
    button: ExportButton,
)
    requires
        call_ensures(State::folder_export_button, (&state, &key, count, online), button),
    ensures
        !button.disabled <==> online && count > 0 && state.pending is None,
        button.loading <==> (state.pending matches Some(pending) && pending.key.id() == key.id()),
        button.loading ==> button.disabled,
{
}

/// What succeeded and what failed make up all notes, and the report and what is told count the
/// same.
pub proof fn what_is_told_adds_up(report: Report, written: usize, text: String)
    requires
        report.failures@.len() <= report.total,
        call_ensures(Report::succeeded, (&report,), written),
        call_ensures(incomplete_report, (&report,), text),
    ensures
        written + report.failures@.len() == report.total,
        begins(
            text@,
            "# 导出未完成\n\n已导出 "@ + decimal(written as nat) + "/"@ + decimal(
                report.total as nat,
            ) + " 篇笔记。\n"@,
        ),
{
    let head = "# 导出未完成\n\n已导出 "@ + decimal(written as nat) + "/"@ + decimal(
        report.total as nat,
    ) + " 篇笔记。\n"@;
    assert(text@.subrange(0, head.len() as int) =~= head);
}

proof fn failure_is_in_the_lines(failures: Seq<Failure>, n: nat, i: int)
    requires
        0 <= i < n <= failures.len(),
    ensures
        holds(
            failure_lines(failures, n),
            "\n- 《"@ + failures[i].title@ + "》："@ + failures[i].reason@ + "\n"@,
        ),
    decreases n,
{
    let m = (n - 1) as nat;
    let before = failure_lines(failures, m);
    let all = failure_lines(failures, n);
    let line = "\n- 《"@ + failures[i].title@ + "》："@ + failures[i].reason@ + "\n"@;
    if i == m {
        assert(all =~= before + line);
        assert(all.subrange(before.len() as int, (before.len() + line.len()) as int) =~= line);
        assert(crate::text::occurs_at(all, line, before.len() as int));
    } else {
        failure_is_in_the_lines(failures, m, i);
        let at = choose|at: int| #[trigger] crate::text::occurs_at(before, line, at);
        assert(all.subrange(at, at + line.len()) =~= before.subrange(at, at + line.len()));
        assert(crate::text::occurs_at(all, line, at));
    }
}

/// The report that is left with an export names every note that is missing, and why.
pub proof fn the_report_names_what_is_missing(report: Report, text: String, i: int)
    requires
        call_ensures(incomplete_report, (&report,), text),
        0 <= i < report.failures@.len(),
    ensures
        holds(
            text@,
            "\n- 《"@ + report.failures@[i].title@ + "》："@ + report.failures@[i].reason@ + "\n"@,
        ),
{
    let lines = failure_lines(report.failures@, report.failures@.len());
    let line = "\n- 《"@ + report.failures@[i].title@ + "》："@ + report.failures@[i].reason@
        + "\n"@;
    failure_is_in_the_lines(report.failures@, report.failures@.len(), i);
    let at = choose|at: int| #[trigger] crate::text::occurs_at(lines, line, at);
    let shift = text@.len() - lines.len();
    assert(text@.subrange(shift + at, shift + at + line.len()) =~= lines.subrange(
        at,
        at + line.len(),
    ));
    assert(crate::text::occurs_at(text@, line, shift + at));
}

/// What is told of an export that was written counts the notes that were; one that failed is
/// told with its folder and the reason.
pub proof fn the_label_tells_how_many_were_written(feedback: Feedback, label: String)
    requires
        call_ensures(Feedback::label, (&feedback,), label),
    ensures
        feedback.result matches Ok(report) && report.output is Some ==> begins(
            label@,
            "已导出 "@ + decimal(feedback.result->Ok_0.successes()),
        ),
        feedback.result matches Err(error) ==> label@ == "未能导出“"@ + feedback.folder_name@
            + "”："@ + error@,
        (feedback.result matches Ok(report) && report.output is None) ==> begins(
            label@,
            "未能导出“"@ + feedback.folder_name@,
        ),
{
    if let Ok(report) = feedback.result {
        if report.output is Some {
            let head = "已导出 "@ + decimal(report.successes());
            let missing = report.failures@.len();
            let all = decimal(report.total as nat);
            let rest = if missing == 0 {
                " 篇笔记"@
            } else if missing == 1 {
                "/"@ + all + " 篇；《"@ + report.failures@[0].title@ + "》未完成"@
            } else {
                "/"@ + all + " 篇；"@ + decimal(missing) + " 篇未完成"@
            };
            assert(label@ =~= head + rest);
            assert((head + rest).subrange(0, head.len() as int) =~= head);
        } else {
            let head = "未能导出“"@ + feedback.folder_name@;
            assert(label@.subrange(0, head.len() as int) =~= head);
        }
    }
}

/// A folder is known by the first registered library with its root, and by the root alone where
/// there is none.
pub proof fn a_folder_is_known_by_its_library(
    libraries: Vec<LibraryLocation>,
    root: &str,
    folder: u64,
    key: FolderKey,
    i: int,
)
    requires
        call_ensures(selected_folder_key, (&libraries, root, folder), key),
    ensures
        key.root@ == root@ && key.folder_id == folder,
        libraries@.len() == 0 ==> key.library_id@ == root@,
        0 <= i < libraries@.len() && libraries@[i].root@ == root@ && (forall|j: int|
            0 <= j < i ==> (#[trigger] libraries@[j]).root@ != root@) ==> key.library_id@
            == libraries@[i].id@,
{
    if 0 <= i < libraries@.len() && libraries@[i].root@ == root@ && (forall|j: int|
        0 <= j < i ==> (#[trigger] libraries@[j]).root@ != root@) {
        library_is_at(libraries@, root@, i);
    }
}

proof fn library_is_at(libraries: Seq<LibraryLocation>, root: Seq<char>, i: int)
    requires
        0 <= i < libraries.len(),
        libraries[i].root@ == root,
        forall|j: int| 0 <= j < i ==> (#[trigger] libraries[j]).root@ != root,
    ensures
        library_at(libraries, root) == Some(libraries[i]),
    decreases libraries.len(),
{
    if i > 0 {
        let rest = libraries.skip(1);
        assert(libraries[0].root@ != root);
        assert(rest[i - 1] == libraries[i]);
        assert forall|j: int| 0 <= j < i - 1 implies (#[trigger] rest[j]).root@ != root by {
            assert(rest[j] == libraries[j + 1]);
        }
        library_is_at(rest, root, i - 1);
    }
}

/// A chosen place within the library is told as such; whatever else went wrong is told as
/// something that could not be written.
pub proof fn a_place_within_the_library_is_told(error: &str, cause: ExportFailure, told: &'static str)
    requires
        call_ensures(classify_failure, (error,), cause),
        call_ensures(export_failure, (cause,), told),
    ensures
        cause is WithinLibrary <==> holds(error@, "课程库以外"@),
        cause is WithinLibrary ==> told@ == "请选择课程库以外的位置后重试。"@,
        !(cause is WithinLibrary) ==> told@ == "无法在所选位置完成导出，请检查访问权限后重试。"@,
{
}

} // verus!
