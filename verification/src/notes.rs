//! The notes that were found, where they lie, and how they are called.
use crate::table::Table;
use crate::text::{join3, same, texts};
use crate::workspace::LibraryLocation;
use vstd::prelude::*;
use vstd::string::*;

verus! {

/// What a note says of itself.
#[derive(Clone, Debug, PartialEq, Eq)]
pub struct Manifest {
    pub course_id: String,
    pub version_id: String,
    pub task_id: String,
    pub source_id: String,
    pub created_at_ms: u64,
}

/// A note. `dir` is the version that is read, `storage` where the note is kept.
#[derive(Clone, Debug, PartialEq, Eq)]
pub struct Course {
    pub dir: String,
    pub storage: String,
    pub title: String,
    pub modified: u64,
    pub manifest: Option<Manifest>,
}

impl Course {
    /// The same note again.
    pub fn copy(&self) -> (result: Course)
        ensures
            result == *self,
    {
        let manifest = match &self.manifest {
            Some(own) => Some(
                Manifest {
                    course_id: own.course_id.clone(),
                    version_id: own.version_id.clone(),
                    task_id: own.task_id.clone(),
                    source_id: own.source_id.clone(),
                    created_at_ms: own.created_at_ms,
                },
            ),
            None => None,
        };
        Course {
            dir: self.dir.clone(),
            storage: self.storage.clone(),
            title: self.title.clone(),
            modified: self.modified,
            manifest,
        }
    }
}

/// The library that a note belongs to, and its path within. `depth` is the number
/// of components of the library's root.
#[derive(Clone, Debug, PartialEq, Eq)]
pub struct CourseLocation {
    pub id: String,
    pub root: String,
    pub relative: String,
    pub depth: usize,
}

impl CourseLocation {
    /// The same location again.
    pub fn copy(&self) -> (result: CourseLocation)
        ensures
            result == *self,
    {
        CourseLocation {
            id: self.id.clone(),
            root: self.root.clone(),
            relative: self.relative.clone(),
            depth: self.depth,
        }
    }
}

/// A record that could not be read, and whether there is a backup of it.
#[derive(Clone, Copy, Debug, PartialEq, Eq, Structural)]
pub struct Recovery {
    pub has_backup: bool,
}

/// What was found out about libraries on disk.
pub struct LibraryViewCache {
    pub locations: Table<String, CourseLocation>,
    pub recovery: Table<String, Recovery>,
    pub title_recovery: Table<String, Recovery>,
    pub aliases: Table<String, Table<String, String>>,
    pub alias_issues: Vec<String>,
}

/// A note that a scan found: its path within the library where it has one, and all
/// the paths by which it may be met.
pub struct ScannedNote {
    pub relative: Option<String>,
    pub paths: Vec<String>,
}

/// What was read of one library.
pub struct LibraryFindings {
    pub depth: usize,
    pub recovery: Option<Recovery>,
    pub title_recovery: Option<Recovery>,
    pub aliases: Result<Table<String, String>, String>,
    pub notes: Vec<ScannedNote>,
}

/// The places of the first `n` paths of a note.
pub open spec fn with_paths(
    places: Map<Seq<char>, CourseLocation>,
    paths: Seq<String>,
    n: nat,
    location: CourseLocation,
) -> Map<Seq<char>, CourseLocation>
    decreases n,
{
    if n == 0 {
        places
    } else {
        with_paths(places, paths, (n - 1) as nat, location).insert(paths[n - 1]@, location)
    }
}

/// The note at `i` lies within its library and is met by this path.
pub open spec fn is_met(notes: Seq<ScannedNote>, path: Seq<char>, i: int) -> bool {
    0 <= i < notes.len() && notes[i].relative is Some && texts(notes[i].paths@).contains(path)
}

/// The note at `i` is the last that is met by this path.
pub open spec fn is_last_met(notes: Seq<ScannedNote>, path: Seq<char>, i: int) -> bool {
    is_met(notes, path, i) && forall|j: int| j > i ==> !is_met(notes, path, j)
}

/// A note of this library lies at `relative`.
pub open spec fn lies_at(
    location: CourseLocation,
    library: LibraryLocation,
    depth: usize,
    relative: Seq<char>,
) -> bool {
    location.id@ == library.id@ && location.root@ == library.root@ && location.relative@ == relative
        && location.depth == depth
}

impl LibraryViewCache {
    pub open spec fn wf(self) -> bool {
        &&& self.locations.wf()
        &&& self.recovery.wf()
        &&& self.title_recovery.wf()
        &&& self.aliases.wf()
        &&& forall|root: Seq<char>| #[trigger]
            self.aliases.map().contains_key(root) ==> self.aliases.map()[root].wf()
    }

    pub fn new() -> (result: LibraryViewCache)
        ensures
            result.wf(),
            result@ == CacheModel::nothing(),
    {
        LibraryViewCache {
            locations: Table::new(),
            recovery: Table::new(),
            title_recovery: Table::new(),
            aliases: Table::new(),
            alias_issues: Vec::new(),
        }
    }

    /// Every path of every note that lies within the library leads to it, and no
    /// other path does. Of two notes that are met by one path the later counts.
    pub open spec fn places_notes(
        self,
        library: LibraryLocation,
        depth: usize,
        notes: Seq<ScannedNote>,
    ) -> bool {
        &&& forall|path: Seq<char>| #[trigger]
            self.locations.map().contains_key(path) <==> exists|i: int| #[trigger]
                is_met(notes, path, i)
        &&& forall|path: Seq<char>, i: int| #[trigger]
            is_last_met(notes, path, i) ==> lies_at(
                self.locations.map()[path],
                library,
                depth,
                notes[i].relative->0@,
            )
    }

    /// What the findings about one library come to. A record that could not be read
    /// is remembered with its backup; names that could not be read are an issue.
    pub fn inspect(library: &LibraryLocation, findings: LibraryFindings) -> (result:
        LibraryViewCache)
        requires
            findings.aliases matches Ok(names) ==> names.wf(),
        ensures
            result.wf(),
            result.places_notes(*library, findings.depth, findings.notes@),
            result.recovery.map() == (match findings.recovery {
                Some(recovery) => Map::<Seq<char>, Recovery>::empty().insert(library.root@, recovery),
                None => Map::<Seq<char>, Recovery>::empty(),
            }),
            result.title_recovery.map() == (match findings.title_recovery {
                Some(recovery) => Map::<Seq<char>, Recovery>::empty().insert(library.root@, recovery),
                None => Map::<Seq<char>, Recovery>::empty(),
            }),
            match findings.aliases {
                Ok(names) => result.aliases.map() == Map::<
                    Seq<char>,
                    Table<String, String>,
                >::empty().insert(library.root@, names) && result.alias_issues@.len() == 0,
                Err(error) => result.aliases.map() == Map::<
                    Seq<char>,
                    Table<String, String>,
                >::empty() && result.alias_issues@.len() == 1 && result.alias_issues@[0]@
                    == library.name@ + "的显示名称尚未读取："@ + error@,
            },
    {
        let mut cache = LibraryViewCache::new();
        if let Some(recovery) = findings.recovery {
            cache.recovery.insert(library.root.clone(), recovery);
        }
        if let Some(recovery) = findings.title_recovery {
            cache.title_recovery.insert(library.root.clone(), recovery);
        }
        match findings.aliases {
            Ok(names) => {
                cache.aliases.insert(library.root.clone(), names);
            },
            Err(error) => {
                cache.alias_issues.push(
                    join3(library.name.as_str(), "的显示名称尚未读取：", error.as_str()),
                );
            },
        }
        let depth = findings.depth;
        let notes = findings.notes;
        let ghost fixed = cache;
        let mut i: usize = 0;
        while i < notes.len()
            invariant
                i <= notes@.len(),
                cache.locations.wf(),
                cache == (LibraryViewCache { locations: cache.locations, ..fixed }),
                cache.places_notes(*library, depth, notes@.take(i as int)),
            decreases notes@.len() - i,
        {
            let ghost before = cache;
            let ghost done = notes@.take(i as int);
            let ghost more = notes@.take(i + 1);
            proof {
                assert(more =~= done.push(notes@[i as int]));
            }
            if let Some(relative) = &notes[i].relative {
                let location = CourseLocation {
                    id: library.id.clone(),
                    root: library.root.clone(),
                    relative: relative.clone(),
                    depth,
                };
                let paths = &notes[i].paths;
                let mut k: usize = 0;
                while k < paths.len()
                    invariant
                        k <= paths@.len(),
                        cache.locations.wf(),
                        cache == (LibraryViewCache { locations: cache.locations, ..fixed }),
                        cache.locations.map() == with_paths(
                            before.locations.map(),
                            paths@,
                            k as nat,
                            location,
                        ),
                    decreases paths@.len() - k,
                {
                    cache.locations.insert(paths[k].clone(), location.copy());
                    k += 1;
                }
                proof {
                    let after = cache.locations.map();
                    let places = before.locations.map();
                    assert forall|path: Seq<char>| #[trigger] after.contains_key(path)
                        <==> exists|j: int| #[trigger] is_met(more, path, j) by {
                        with_paths_at(places, paths@, paths@.len(), location, path);
                        met_by_more(done, notes@[i as int], path);
                    }
                    assert forall|path: Seq<char>, j: int| #[trigger]
                        is_last_met(more, path, j) implies lies_at(
                        after[path],
                        *library,
                        depth,
                        more[j].relative->0@,
                    ) by {
                        with_paths_at(places, paths@, paths@.len(), location, path);
                        assert(more[i as int] == notes@[i as int]);
                        if texts(paths@).contains(path) {
                            assert(is_met(more, path, i as int));
                        } else {
                            last_met_before(done, notes@[i as int], path, j);
                            assert(is_met(done, path, j));
                        }
                    }
                }
            } else {
                proof {
                    assert forall|path: Seq<char>| #[trigger]
                        cache.locations.map().contains_key(path) <==> exists|j: int| #[trigger]
                            is_met(more, path, j) by {
                        met_by_more(done, notes@[i as int], path);
                    }
                    assert forall|path: Seq<char>, j: int| #[trigger]
                        is_last_met(more, path, j) implies lies_at(
                        cache.locations.map()[path],
                        *library,
                        depth,
                        more[j].relative->0@,
                    ) by {
                        assert(more[i as int] == notes@[i as int]);
                        last_met_before(done, notes@[i as int], path, j);
                    }
                }
            }
            i += 1;
        }
        assert(notes@.take(notes@.len() as int) =~= notes@);
        cache
    }
}

proof fn met_by_more(notes: Seq<ScannedNote>, note: ScannedNote, path: Seq<char>)
    ensures
        (exists|j: int| #[trigger] is_met(notes.push(note), path, j)) <==> (note.relative is Some
            && texts(note.paths@).contains(path)) || (exists|j: int| #[trigger]
            is_met(notes, path, j)),
{
    let more = notes.push(note);
    let n = notes.len() as int;
    if exists|j: int| #[trigger] is_met(more, path, j) {
        let j = choose|j: int| #[trigger] is_met(more, path, j);
        if j < n {
            assert(is_met(notes, path, j));
        }
    }
    if exists|j: int| #[trigger] is_met(notes, path, j) {
        let j = choose|j: int| #[trigger] is_met(notes, path, j);
        assert(is_met(more, path, j));
    }
    if note.relative is Some && texts(note.paths@).contains(path) {
        assert(is_met(more, path, n));
    }
}

proof fn last_met_before(notes: Seq<ScannedNote>, note: ScannedNote, path: Seq<char>, j: int)
    requires
        is_last_met(notes.push(note), path, j),
        note.relative is None || !texts(note.paths@).contains(path),
    ensures
        is_last_met(notes, path, j),
        notes[j] == notes.push(note)[j],
{
    let more = notes.push(note);
    assert(j != notes.len());
    assert forall|k: int| k > j implies !is_met(notes, path, k) by {
        if is_met(notes, path, k) {
            assert(is_met(more, path, k));
        }
    }
}

proof fn with_paths_at(
    places: Map<Seq<char>, CourseLocation>,
    paths: Seq<String>,
    n: nat,
    location: CourseLocation,
    path: Seq<char>,
)
    requires
        n <= paths.len(),
    ensures
        ({
            let after = with_paths(places, paths, n, location);
            let own = texts(paths).take(n as int).contains(path);
            &&& after.contains_key(path) == (own || places.contains_key(path))
            &&& own ==> after[path] == location
            &&& !own && places.contains_key(path) ==> after[path] == places[path]
        }),
        texts(paths).take(paths.len() as int) == texts(paths),
    decreases n,
{
    assert(texts(paths).take(paths.len() as int) =~= texts(paths));
    if n > 0 {
        let m = (n - 1) as nat;
        with_paths_at(places, paths, m, location, path);
        let part = texts(paths).take(m as int);
        let more = texts(paths).take(n as int);
        assert(more =~= part.push(paths[m as int]@));
        if more.contains(path) {
            let i = more.index_of(path);
            if i < m {
                assert(part[i] == path);
            }
        }
        if part.contains(path) {
            let i = part.index_of(path);
            assert(more[i] == path);
        }
        assert(more[m as int] == paths[m as int]@);
    }
}


/// The places of notes after two findings are put together: where both know a
/// path, the library that lies deeper counts, and the first where neither does.
pub open spec fn merged_places(
    own: Map<Seq<char>, CourseLocation>,
    other: Map<Seq<char>, CourseLocation>,
) -> Map<Seq<char>, CourseLocation> {
    Map::new(
        |path: Seq<char>| own.contains_key(path) || other.contains_key(path),
        |path: Seq<char>|
            if !own.contains_key(path) || (other.contains_key(path) && other[path].depth
                > own[path].depth) {
                other[path]
            } else {
                own[path]
            },
    )
}

/// What was found out, as it is looked up.
pub struct CacheModel {
    pub locations: Map<Seq<char>, CourseLocation>,
    pub recovery: Map<Seq<char>, Recovery>,
    pub title_recovery: Map<Seq<char>, Recovery>,
    pub aliases: Map<Seq<char>, Table<String, String>>,
    pub alias_issues: Seq<String>,
}

impl CacheModel {
    /// Nothing was found out.
    pub open spec fn nothing() -> CacheModel {
        CacheModel {
            locations: Map::empty(),
            recovery: Map::empty(),
            title_recovery: Map::empty(),
            aliases: Map::empty(),
            alias_issues: Seq::empty(),
        }
    }

    /// Two findings put together.
    pub open spec fn merged(self, other: CacheModel) -> CacheModel {
        CacheModel {
            locations: merged_places(self.locations, other.locations),
            recovery: self.recovery.union_prefer_right(other.recovery),
            title_recovery: self.title_recovery.union_prefer_right(other.title_recovery),
            aliases: self.aliases.union_prefer_right(other.aliases),
            alias_issues: self.alias_issues + other.alias_issues,
        }
    }
}

impl View for LibraryViewCache {
    type V = CacheModel;

    open spec fn view(&self) -> CacheModel {
        CacheModel {
            locations: self.locations.map(),
            recovery: self.recovery.map(),
            title_recovery: self.title_recovery.map(),
            aliases: self.aliases.map(),
            alias_issues: self.alias_issues@,
        }
    }
}

impl LibraryViewCache {
    /// Takes over what was found out about another library.
    pub fn merge(&mut self, other: LibraryViewCache)
        requires
            old(self).wf(),
            other.wf(),
        ensures
            final(self).wf(),
            final(self)@ == old(self)@.merged(other@),
    {
        let LibraryViewCache { locations, recovery, title_recovery, aliases, alias_issues } = other;
        let ghost whole = locations;
        let ghost start = self.locations.map();
        proof {
            whole.first_is_all();
            assert(start =~= merged_places(start, whole.first(0)));
        }
        for entry in it: locations.entries
            invariant
                it.seq() == whole.entries@,
                whole.wf(),
                self.locations.wf(),
                *self == (LibraryViewCache { locations: self.locations, ..*old(self) }),
                self.locations.map() == merged_places(start, whole.first(it.index() as int)),
        {
            let (path, location) = entry;
            let ghost n = it.index() as int;
            proof {
                whole.first_grows(n);
            }
            let replace = match self.locations.get(&path) {
                Some(previous) => location.depth > previous.depth,
                None => true,
            };
            if replace {
                self.locations.insert(path, location);
            }
            assert(self.locations.map() =~= merged_places(start, whole.first(n + 1)));
        }
        proof {
            whole.first_is_all();
        }
        self.recovery.extend(recovery);
        self.title_recovery.extend(title_recovery);
        self.aliases.extend(aliases);
        let mut more = alias_issues;
        self.alias_issues.append(&mut more);
    }
}

/// Putting findings together twice changes nothing, and whatever the order, each
/// path leads to a library that lies no less deep than any other that knows it.
pub proof fn the_deepest_library_counts(
    own: Map<Seq<char>, CourseLocation>,
    other: Map<Seq<char>, CourseLocation>,
    path: Seq<char>,
)
    ensures
        merged_places(merged_places(own, other), other) == merged_places(own, other),
        own.contains_key(path) ==> merged_places(own, other).contains_key(path) && merged_places(
            own,
            other,
        )[path].depth >= own[path].depth,
        other.contains_key(path) ==> merged_places(own, other).contains_key(path) && merged_places(
            own,
            other,
        )[path].depth >= other[path].depth,
        merged_places(own, other).contains_key(path) ==> merged_places(own, other)[path].depth
            == merged_places(other, own)[path].depth,
{
    assert(merged_places(merged_places(own, other), other) =~= merged_places(own, other));
}

// --------------------------------------------------------------------- titles

/// The title of the first note that is kept at a place.
pub open spec fn title_at(courses: Seq<Course>, storage: Seq<char>) -> Option<Seq<char>>
    decreases courses.len(),
{
    if courses.len() == 0 {
        None
    } else if courses[0].storage@ == storage {
        Some(courses[0].title@)
    } else {
        title_at(courses.skip(1), storage)
    }
}

/// How a note is called: as the library lists it, else as it calls itself.
pub open spec fn display_title(courses: Seq<Course>, course: Course) -> Seq<char> {
    match title_at(courses, course.storage@) {
        Some(title) => title,
        None => course.title@,
    }
}

/// The note that is open is called as the library lists it, and stays as it is
/// otherwise.
pub open spec fn is_retitled(
    before: Option<Course>,
    after: Option<Course>,
    courses: Seq<Course>,
) -> bool {
    match (before, after) {
        (Some(course), Some(retitled)) => {
            &&& retitled.title@ == display_title(courses, course)
            &&& retitled == (Course { title: retitled.title, ..course })
        },
        (None, None) => true,
        _ => false,
    }
}

/// How a note is called: as the library lists it, else as it calls itself.
pub fn course_display_title(courses: &Vec<Course>, course: &Course) -> (result: String)
    ensures
        result@ == display_title(courses@, *course),
{
    let mut i: usize = 0;
    assert(courses@.skip(0) =~= courses@);
    while i < courses.len()
        invariant
            i <= courses@.len(),
            title_at(courses@.skip(i as int), course.storage@) == title_at(
                courses@,
                course.storage@,
            ),
        decreases courses@.len() - i,
    {
        assert(courses@.skip(i as int)[0] == courses@[i as int]);
        if same(courses[i].storage.as_str(), course.storage.as_str()) {
            return courses[i].title.clone();
        }
        assert(courses@.skip(i as int).skip(1) =~= courses@.skip(i + 1));
        i += 1;
    }
    course.title.clone()
}

impl LibraryViewCache {
    /// The name that a person gave to the note that is kept at a place.
    pub open spec fn alias_at(self, storage: Seq<char>) -> Option<String> {
        if self.locations.map().contains_key(storage) {
            let location = self.locations.map()[storage];
            if self.aliases.map().contains_key(location.root@) {
                let names = self.aliases.map()[location.root@].map();
                if names.contains_key(location.relative@) {
                    Some(names[location.relative@])
                } else {
                    None
                }
            } else {
                None
            }
        } else {
            None
        }
    }

    pub fn alias(&self, storage: &String) -> (result: Option<&String>)
        requires
            self.wf(),
        ensures
            result is Some == self.alias_at(storage@) is Some,
            result matches Some(name) ==> Some(*name) == self.alias_at(storage@),
    {
        match self.locations.get(storage) {
            Some(location) => match self.aliases.get(&location.root) {
                Some(names) => names.get(&location.relative),
                None => None,
            },
            None => None,
        }
    }

    /// A note under the name that a person gave to it.
    pub open spec fn renamed(self, course: Course) -> Course {
        match self.alias_at(course.storage@) {
            Some(name) => Course { title: name, ..course },
            None => course,
        }
    }

    /// Calls the notes by the names that were read, and the note that is open as the
    /// library then lists it; what could not be read joins the issues of the library.
    pub fn apply_course_title_aliases(
        &self,
        courses: &mut Vec<Course>,
        opened: &mut Option<Course>,
        issues: &mut Vec<String>,
    )
        requires
            self.wf(),
        ensures
            final(courses)@.len() == old(courses)@.len(),
            forall|i: int|
                0 <= i < old(courses)@.len() ==> #[trigger] final(courses)@[i] == self.renamed(
                    old(courses)@[i],
                ),
            is_retitled(*old(opened), *final(opened), final(courses)@),
            texts(final(issues)@) == texts(old(issues)@) + texts(self.alias_issues@),
    {
        let ghost start = texts(issues@);
        let mut k: usize = 0;
        assert(start + texts(self.alias_issues@).take(0) =~= start);
        while k < self.alias_issues.len()
            invariant
                k <= self.alias_issues@.len(),
                texts(issues@) == start + texts(self.alias_issues@).take(k as int),
            decreases self.alias_issues@.len() - k,
        {
            let ghost before = texts(issues@);
            issues.push(self.alias_issues[k].clone());
            assert(texts(issues@) =~= before.push(self.alias_issues@[k as int]@));
            assert(texts(issues@) =~= start + texts(self.alias_issues@).take(k + 1));
            k += 1;
        }
        assert(texts(self.alias_issues@).take(self.alias_issues@.len() as int) =~= texts(
            self.alias_issues@,
        ));
        let mut i: usize = 0;
        while i < courses.len()
            invariant
                self.wf(),
                i <= courses@.len(),
                courses@.len() == old(courses)@.len(),
                forall|j: int|
                    0 <= j < i ==> #[trigger] courses@[j] == self.renamed(old(courses)@[j]),
                forall|j: int|
                    i <= j < courses@.len() ==> #[trigger] courses@[j] == old(courses)@[j],
            decreases courses@.len() - i,
        {
            let name = match self.alias(&courses[i].storage) {
                Some(name) => Some(name.clone()),
                None => None,
            };
            if let Some(name) = name {
                courses[i].title = name;
            }
            i += 1;
        }
        if let Some(course) = opened {
            course.title = course_display_title(courses, course);
        }
    }
}

/// A given name changes nothing of a note but its title, and giving it twice is
/// giving it once.
pub proof fn renaming_keeps_the_note(cache: LibraryViewCache, course: Course)
    ensures
        cache.renamed(course) == (Course { title: cache.renamed(course).title, ..course }),
        cache.renamed(cache.renamed(course)) == cache.renamed(course),
{
}

// ------------------------------------------------------------------ locations

/// The registered library that a note belongs to: the first with the id and root
/// under which the note was found.
pub open spec fn registered(libraries: Seq<LibraryLocation>, location: CourseLocation) -> Option<
    LibraryLocation,
>
    decreases libraries.len(),
{
    if libraries.len() == 0 {
        None
    } else if libraries[0].id@ == location.id@ && libraries[0].root@ == location.root@ {
        Some(libraries[0])
    } else {
        registered(libraries.skip(1), location)
    }
}

impl LibraryViewCache {
    /// The registered library of the note that is kept at a place.
    pub open spec fn library_of(self, libraries: Seq<LibraryLocation>, storage: Seq<char>) -> Option<
        LibraryLocation,
    > {
        if self.locations.map().contains_key(storage) {
            registered(libraries, self.locations.map()[storage])
        } else {
            None
        }
    }

    pub fn course_location<'a>(&self, libraries: &'a Vec<LibraryLocation>, storage: &String) -> (result:
        Option<&'a LibraryLocation>)
        requires
            self.wf(),
        ensures
            result is Some == self.library_of(libraries@, storage@) is Some,
            result matches Some(library) ==> Some(*library) == self.library_of(
                libraries@,
                storage@,
            ),
    {
        let cached = match self.locations.get(storage) {
            Some(cached) => cached,
            None => {
                return None;
            },
        };
        let mut i: usize = 0;
        assert(libraries@.skip(0) =~= libraries@);
        while i < libraries.len()
            invariant
                i <= libraries@.len(),
                self.locations.map().contains_key(storage@),
                *cached == self.locations.map()[storage@],
                registered(libraries@.skip(i as int), *cached) == registered(libraries@, *cached),
            decreases libraries@.len() - i,
        {
            assert(libraries@.skip(i as int)[0] == libraries@[i as int]);
            if same(libraries[i].id.as_str(), cached.id.as_str()) && same(
                libraries[i].root.as_str(),
                cached.root.as_str(),
            ) {
                return Some(&libraries[i]);
            }
            assert(libraries@.skip(i as int).skip(1) =~= libraries@.skip(i + 1));
            i += 1;
        }
        None
    }
}

// -------------------------------------------------------------------- folders

/// The folders of a library, and the folder of each note by its path within.
pub struct Library {
    pub folders: Table<u64, String>,
    pub courses: Table<String, u64>,
}

impl Library {
    pub open spec fn wf(self) -> bool {
        self.folders.wf() && self.courses.wf()
    }

    /// The folder of the note at a path.
    pub fn folder_key(&self, relative: &String) -> (result: Option<u64>)
        requires
            self.wf(),
        ensures
            result == (if self.courses.map().contains_key(relative@) {
                Some(self.courses.map()[relative@])
            } else {
                None
            }),
    {
        match self.courses.get(relative) {
            Some(folder) => Some(*folder),
            None => None,
        }
    }
}

/// The two libraries have the same folders and the same notes in them.
pub open spec fn same_library(a: Library, b: Library) -> bool {
    a.wf() && a.folders.map() == b.folders.map() && a.courses.map() == b.courses.map()
}

/// The same folders again.
pub fn copy_folders(folders: &Table<u64, String>) -> (result: Table<u64, String>)
    requires
        folders.wf(),
    ensures
        result.wf(),
        result.map() == folders.map(),
{
    let mut result: Table<u64, String> = Table::new();
    proof {
        folders.first_is_all();
    }
    let mut i: usize = 0;
    while i < folders.entries.len()
        invariant
            folders.wf(),
            result.wf(),
            i <= folders.entries@.len(),
            result.map() == folders.first(i as int),
        decreases folders.entries@.len() - i,
    {
        proof {
            folders.first_grows(i as int);
        }
        result.insert(folders.entries[i].0, folders.entries[i].1.clone());
        i += 1;
    }
    proof {
        folders.first_is_all();
    }
    result
}

impl Library {
    /// The same library again.
    pub fn copy(&self) -> (result: Library)
        requires
            self.wf(),
        ensures
            same_library(result, *self),
    {
        let folders = copy_folders(&self.folders);
        let mut courses: Table<String, u64> = Table::new();
        proof {
            self.courses.first_is_all();
        }
        let mut k: usize = 0;
        while k < self.courses.entries.len()
            invariant
                self.wf(),
                courses.wf(),
                k <= self.courses.entries@.len(),
                courses.map() == self.courses.first(k as int),
            decreases self.courses.entries@.len() - k,
        {
            proof {
                self.courses.first_grows(k as int);
            }
            courses.insert(self.courses.entries[k].0.clone(), self.courses.entries[k].1);
            k += 1;
        }
        proof {
            self.courses.first_is_all();
        }
        Library { folders, courses }
    }
}

/// The list holds the folders, in the order of their ids.
pub open spec fn lists_folders(list: Seq<(u64, String)>, folders: Map<u64, String>) -> bool {
    &&& forall|i: int, j: int| 0 <= i < j < list.len() ==> (#[trigger] list[i]).0 < (
    #[trigger] list[j]).0
    &&& forall|id: u64| #[trigger]
        folders.contains_key(id) <==> exists|i: int|
            0 <= i < list.len() && (#[trigger] list[i]).0 == id
    &&& forall|i: int| 0 <= i < list.len() ==> (#[trigger] list[i]).1@ == folders[list[i].0]@
}

/// The folders in the order of their ids.
pub fn folders_in_order(folders: &Table<u64, String>) -> (result: Vec<(u64, String)>)
    requires
        folders.wf(),
    ensures
        lists_folders(result@, folders.map()),
{
    let mut list: Vec<(u64, String)> = Vec::new();
    let mut n: usize = 0;
    proof {
        folders.first_is_all();
    }
    while n < folders.entries.len()
        invariant
            folders.wf(),
            n <= folders.entries@.len(),
            lists_folders(list@, folders.first(n as int)),
        decreases folders.entries@.len() - n,
    {
        let id = folders.entries[n].0;
        let ghost known = folders.first(n as int);
        proof {
            folders.first_grows(n as int);
        }
        let mut at: usize = 0;
        while at < list.len() && list[at].0 < id
            invariant
                at <= list@.len(),
                forall|j: int| 0 <= j < at ==> (#[trigger] list@[j]).0 < id,
            decreases list@.len() - at,
        {
            at += 1;
        }
        let ghost before = list@;
        list.insert(at, (id, folders.entries[n].1.clone()));
        proof {
            folder_is_placed(before, known, at as int, (id, folders.entries@[n as int].1), list@);
        }
        n += 1;
    }
    proof {
        folders.first_is_all();
    }
    list
}

proof fn folder_is_placed(
    before: Seq<(u64, String)>,
    known: Map<u64, String>,
    at: int,
    folder: (u64, String),
    after: Seq<(u64, String)>,
)
    requires
        lists_folders(before, known),
        !known.contains_key(folder.0),
        0 <= at <= before.len(),
        forall|j: int| 0 <= j < at ==> (#[trigger] before[j]).0 < folder.0,
        at < before.len() ==> before[at].0 >= folder.0,
        after == before.insert(at, folder),
    ensures
        lists_folders(after, known.insert(folder.0, folder.1)),
{
    let (id, name) = folder;
    let more = known.insert(id, name);
    assert forall|j: int| at <= j < before.len() implies id < (#[trigger] before[j]).0 by {
        assert(known.contains_key(before[j].0));
        if j > at {
            assert(before[at].0 < before[j].0);
        }
    }
    assert forall|other: u64| #[trigger] more.contains_key(other) <==> exists|i: int|
        0 <= i < after.len() && (#[trigger] after[i]).0 == other by {
        if known.contains_key(other) {
            let i = choose|i: int| 0 <= i < before.len() && (#[trigger] before[i]).0 == other;
            if i < at {
                assert(after[i].0 == other);
            } else {
                assert(after[i + 1].0 == other);
            }
        }
        assert(after[at].0 == id);
        if exists|i: int| 0 <= i < after.len() && (#[trigger] after[i]).0 == other {
            let i = choose|i: int| 0 <= i < after.len() && (#[trigger] after[i]).0 == other;
            if i < at {
                assert(before[i].0 == other);
            } else if i > at {
                assert(before[i - 1].0 == other);
            }
        }
    }
    assert forall|i: int| 0 <= i < after.len() implies (#[trigger] after[i]).1@
        == more[after[i].0]@ by {
        if i < at {
            assert(known.contains_key(before[i].0));
        } else if i > at {
            assert(known.contains_key(before[i - 1].0));
        }
    }
    assert forall|i: int, j: int| 0 <= i < j < after.len() implies (#[trigger] after[i]).0 < (
    #[trigger] after[j]).0 by {
        if i < at && j < at {
            assert(before[i].0 < before[j].0);
        } else if i < at && j > at {
            assert(before[i].0 < before[j - 1].0);
        } else if i > at {
            assert(before[i - 1].0 < before[j - 1].0);
        }
    }
}

/// The folders of each library, by its root.
pub open spec fn indexes_wf(indexes: Table<String, Library>) -> bool {
    indexes.wf() && forall|root: Seq<char>| #[trigger]
        indexes.map().contains_key(root) ==> indexes.map()[root].wf()
}

impl LibraryViewCache {
    /// The folder of the note that is kept at a place, in its registered library.
    pub open spec fn folder_of(
        self,
        libraries: Seq<LibraryLocation>,
        indexes: Table<String, Library>,
        storage: Seq<char>,
    ) -> Option<u64> {
        match self.library_of(libraries, storage) {
            Some(library) => if indexes.map().contains_key(library.root@) {
                let filed = indexes.map()[library.root@].courses.map();
                let relative = self.locations.map()[storage].relative@;
                if filed.contains_key(relative) {
                    Some(filed[relative])
                } else {
                    None
                }
            } else {
                None
            },
            None => None,
        }
    }

    pub fn course_folder(
        &self,
        libraries: &Vec<LibraryLocation>,
        indexes: &Table<String, Library>,
        storage: &String,
    ) -> (result: Option<u64>)
        requires
            self.wf(),
            indexes_wf(*indexes),
        ensures
            result == self.folder_of(libraries@, *indexes, storage@),
    {
        match self.course_location(libraries, storage) {
            Some(library) => match indexes.get(&library.root) {
                Some(index) => match self.locations.get(storage) {
                    Some(cached) => index.folder_key(&cached.relative),
                    None => None,
                },
                None => None,
            },
            None => None,
        }
    }
}

// ------------------------------------------------------------ what is known of notes

/// A note belongs to the registered library under whose id and root it was found, and to
/// none where that is not registered.
pub proof fn a_note_belongs_where_it_was_found(
    cache: LibraryViewCache,
    libraries: Vec<LibraryLocation>,
    storage: String,
    found: Option<&LibraryLocation>,
    i: int,
)
    requires
        cache.wf(),
        call_ensures(
            LibraryViewCache::course_location,
            (&cache, &libraries, &storage),
            found,
        ),
    ensures
        found matches Some(library) ==> cache.locations.map().contains_key(storage@) && library.id@
            == cache.locations.map()[storage@].id@ && library.root@
            == cache.locations.map()[storage@].root@ && libraries@.contains(*library),
        cache.locations.map().contains_key(storage@) && 0 <= i < libraries@.len()
            && libraries@[i].id@ == cache.locations.map()[storage@].id@ && libraries@[i].root@
            == cache.locations.map()[storage@].root@ ==> found is Some,
        !cache.locations.map().contains_key(storage@) ==> found is None,
{
    if cache.locations.map().contains_key(storage@) {
        registered_is(libraries@, cache.locations.map()[storage@], i);
    }
}

proof fn registered_is(libraries: Seq<LibraryLocation>, location: CourseLocation, i: int)
    ensures
        registered(libraries, location) matches Some(library) ==> library.id@ == location.id@
            && library.root@ == location.root@ && libraries.contains(library),
        0 <= i < libraries.len() && libraries[i].id@ == location.id@ && libraries[i].root@
            == location.root@ ==> registered(libraries, location) is Some,
    decreases libraries.len(),
{
    if libraries.len() > 0 {
        let rest = libraries.skip(1);
        registered_is(rest, location, i - 1);
        if i > 0 && i < libraries.len() {
            assert(rest[i - 1] == libraries[i]);
        }
        assert(libraries.contains(libraries[0]));
        if registered(rest, location) is Some {
            let library = registered(rest, location)->0;
            if rest.contains(library) {
                let k = choose|k: int| 0 <= k < rest.len() && rest[k] == library;
                assert(libraries[k + 1] == library);
            }
        }
    }
}

/// A note is in the folder under which its library files its path; in none where the library
/// does not file it, is not known, or could not be read.
pub proof fn a_note_is_filed_by_its_library(
    cache: LibraryViewCache,
    libraries: Vec<LibraryLocation>,
    indexes: Table<String, Library>,
    storage: String,
    found: Option<&LibraryLocation>,
    folder: Option<u64>,
)
    requires
        cache.wf(),
        indexes_wf(indexes),
        call_ensures(LibraryViewCache::course_location, (&cache, &libraries, &storage), found),
        call_ensures(
            LibraryViewCache::course_folder,
            (&cache, &libraries, &indexes, &storage),
            folder,
        ),
    ensures
        found is None ==> folder is None,
        found matches Some(library) ==> {
            let relative = cache.locations.map()[storage@].relative@;
            &&& !indexes.map().contains_key(library.root@) ==> folder is None
            &&& indexes.map().contains_key(library.root@) ==> {
                let filed = indexes.map()[library.root@].courses.map();
                &&& folder is Some <==> filed.contains_key(relative)
                &&& folder is Some ==> folder->0 == filed[relative]
            }
        },
{
}

/// A name that was given to a note is its title wherever it is listed, and in the note that is
/// open; any other note keeps its title. Nothing else of a note changes, and what could not be
/// read is told after what was told before.
pub proof fn given_names_are_shown(
    cache: LibraryViewCache,
    courses: &mut Vec<Course>,
    opened: &mut Option<Course>,
    issues: &mut Vec<String>,
    i: int,
)
    requires
        cache.wf(),
        call_ensures(
            LibraryViewCache::apply_course_title_aliases,
            (&cache, courses, opened, issues),
            (),
        ),
        0 <= i < old(courses)@.len(),
    ensures
        final(courses)@.len() == old(courses)@.len(),
        ({
            let before = old(courses)@[i];
            let after = final(courses)@[i];
            let places = cache.locations.map();
            &&& after.dir == before.dir && after.storage == before.storage && after.modified
                == before.modified && after.manifest == before.manifest
            &&& !places.contains_key(before.storage@) ==> after.title == before.title
            &&& places.contains_key(before.storage@) ==> {
                let place = places[before.storage@];
                let names = cache.aliases.map()[place.root@].map();
                &&& cache.aliases.map().contains_key(place.root@) && names.contains_key(
                    place.relative@,
                ) ==> after.title == names[place.relative@]
                &&& !(cache.aliases.map().contains_key(place.root@) && names.contains_key(
                    place.relative@,
                )) ==> after.title == before.title
            }
        }),
        opened_title_follows(*old(opened), *final(opened), final(courses)@, i),
        texts(final(issues)@) == texts(old(issues)@) + texts(cache.alias_issues@),
{
    assert(final(courses)@[i] == cache.renamed(old(courses)@[i]));
    if final(courses)@[i].storage@ == (*old(opened))->0.storage@ && (forall|j: int|
        0 <= j < i ==> (#[trigger] final(courses)@[j]).storage@ != (*old(opened))->0.storage@) {
        first_title(final(courses)@, (*old(opened))->0.storage@, i);
    }
}

/// The open note is called as the first listed note that is kept at the same place, here the
/// one at `i`.
pub open spec fn opened_title_follows(
    before: Option<Course>,
    after: Option<Course>,
    courses: Seq<Course>,
    i: int,
) -> bool {
    &&& before is Some <==> after is Some
    &&& before is Some ==> after->0.dir == before->0.dir && after->0.storage == before->0.storage
    &&& before is Some && courses[i].storage@ == before->0.storage@ && (forall|j: int|
        0 <= j < i ==> (#[trigger] courses[j]).storage@ != before->0.storage@) ==> after->0.title@
        == courses[i].title@
}

proof fn first_title(courses: Seq<Course>, storage: Seq<char>, i: int)
    requires
        0 <= i < courses.len(),
        courses[i].storage@ == storage,
        forall|j: int| 0 <= j < i ==> (#[trigger] courses[j]).storage@ != storage,
    ensures
        title_at(courses, storage) == Some(courses[i].title@),
    decreases courses.len(),
{
    if i > 0 {
        let rest = courses.skip(1);
        assert(courses[0].storage@ != storage);
        assert(rest[i - 1] == courses[i]);
        assert forall|j: int| 0 <= j < i - 1 implies (#[trigger] rest[j]).storage@ != storage by {
            assert(rest[j] == courses[j + 1]);
        }
        first_title(rest, storage, i - 1);
    }
}

proof fn no_title(courses: Seq<Course>, storage: Seq<char>)
    requires
        forall|j: int| 0 <= j < courses.len() ==> (#[trigger] courses[j]).storage@ != storage,
    ensures
        title_at(courses, storage) is None,
    decreases courses.len(),
{
    if courses.len() > 0 {
        let rest = courses.skip(1);
        assert(courses[0].storage@ != storage);
        assert forall|j: int| 0 <= j < rest.len() implies (#[trigger] rest[j]).storage@ != storage by {
            assert(rest[j] == courses[j + 1]);
        }
        no_title(rest, storage);
    }
}

/// A note is called as the library lists what is kept at its place, and by its own title where
/// nothing is.
pub proof fn a_note_is_called_as_it_is_listed(
    courses: Vec<Course>,
    course: Course,
    title: String,
    i: int,
)
    requires
        call_ensures(course_display_title, (&courses, &course), title),
    ensures
        (forall|j: int|
            0 <= j < courses@.len() ==> (#[trigger] courses@[j]).storage@ != course.storage@)
            ==> title@ == course.title@,
        0 <= i < courses@.len() && courses@[i].storage@ == course.storage@ && (forall|j: int|
            0 <= j < i ==> (#[trigger] courses@[j]).storage@ != course.storage@) ==> title@
            == courses@[i].title@,
{
    if 0 <= i < courses@.len() && courses@[i].storage@ == course.storage@ && (forall|j: int|
        0 <= j < i ==> (#[trigger] courses@[j]).storage@ != course.storage@) {
        first_title(courses@, course.storage@, i);
    }
    if forall|j: int|
        0 <= j < courses@.len() ==> (#[trigger] courses@[j]).storage@ != course.storage@ {
        no_title(courses@, course.storage@);
    }
}

/// What was found out about two libraries is known of both: notes, records to recover, names,
/// and what could not be read.
pub proof fn nothing_found_is_lost(
    cache: &mut LibraryViewCache,
    other: LibraryViewCache,
    path: Seq<char>,
    root: Seq<char>,
)
    requires
        old(cache).wf(),
        other.wf(),
        call_ensures(LibraryViewCache::merge, (cache, other), ()),
    ensures
        final(cache).locations.map().contains_key(path) <==> old(
            cache).locations.map().contains_key(path) || other.locations.map().contains_key(path),
        !other.locations.map().contains_key(path) && old(cache).locations.map().contains_key(path)
            ==> final(cache).locations.map()[path] == old(cache).locations.map()[path],
        !old(cache).locations.map().contains_key(path) && other.locations.map().contains_key(path)
            ==> final(cache).locations.map()[path] == other.locations.map()[path],
        final(cache).recovery.map().contains_key(root) <==> old(cache).recovery.map().contains_key(
            root,
        ) || other.recovery.map().contains_key(root),
        final(cache).title_recovery.map().contains_key(root) <==> old(
            cache).title_recovery.map().contains_key(root)
            || other.title_recovery.map().contains_key(root),
        other.aliases.map().contains_key(root) ==> final(cache).aliases.map().contains_key(root)
            && final(cache).aliases.map()[root] == other.aliases.map()[root],
        old(cache).aliases.map().contains_key(root) && !other.aliases.map().contains_key(root)
            ==> final(cache).aliases.map().contains_key(root) && final(cache).aliases.map()[root]
            == old(cache).aliases.map()[root],
        final(cache).alias_issues@ == old(cache).alias_issues@ + other.alias_issues@,
{
    let before = old(cache)@;
    let after = final(cache)@;
    assert(after == before.merged(other@));
    assert(after.locations == merged_places(before.locations, other@.locations));
}

/// A scan of a library knows its notes by every path they may be met by, and no others; what
/// has to be recovered, and names that were given, are known of that library alone.
pub proof fn a_scan_knows_its_notes(
    library: LibraryLocation,
    findings: LibraryFindings,
    cache: LibraryViewCache,
    path: Seq<char>,
    i: int,
)
    requires
        findings.aliases matches Ok(names) ==> names.wf(),
        call_ensures(LibraryViewCache::inspect, (&library, findings), cache),
    ensures
        cache.wf(),
        0 <= i < findings.notes@.len() && findings.notes@[i].relative is Some && texts(
            findings.notes@[i].paths@,
        ).contains(path) ==> cache.locations.map().contains_key(path),
        0 <= i < findings.notes@.len() && findings.notes@[i].relative is Some && texts(
            findings.notes@[i].paths@,
        ).contains(path) && (forall|j: int|
            i < j < findings.notes@.len() ==> !texts((#[trigger] findings.notes@[j]).paths@).contains(
                path,
            )) ==> {
            let place = cache.locations.map()[path];
            &&& place.id@ == library.id@ && place.root@ == library.root@
            &&& place.relative@ == findings.notes@[i].relative->0@
            &&& place.depth == findings.depth
        },
        (forall|j: int|
            0 <= j < findings.notes@.len() ==> !texts((#[trigger] findings.notes@[j]).paths@).contains(
                path,
            )) ==> !cache.locations.map().contains_key(path),
        cache.recovery.map().contains_key(path) <==> findings.recovery is Some && path
            == library.root@,
        cache.title_recovery.map().contains_key(path) <==> findings.title_recovery is Some && path
            == library.root@,
        findings.aliases is Ok ==> cache.aliases.map().contains_key(library.root@)
            && cache.alias_issues@.len() == 0,
        findings.aliases is Err ==> cache.alias_issues@.len() == 1,
{
    let given = (&library, findings);
    let notes = given.1.notes@;
    assert(cache.places_notes(*given.0, given.1.depth, notes));
    if 0 <= i < notes.len() && notes[i].relative is Some && texts(notes[i].paths@).contains(path) {
        assert(is_met(notes, path, i));
        if forall|j: int|
            i < j < notes.len() ==> !texts((#[trigger] notes[j]).paths@).contains(path) {
            assert(is_last_met(notes, path, i));
        }
    }
    if forall|j: int| 0 <= j < notes.len() ==> !texts((#[trigger] notes[j]).paths@).contains(path) {
        assert(forall|j: int| !is_met(notes, path, j));
    }
}

} // verus!
