//! A scan of all libraries: which scan counts, and what the application knows of its
//! notes once the scan has ended.
use crate::notes::{indexes_wf, is_retitled, CacheModel, Course, Library, LibraryViewCache};
use crate::reader::{newest_first, shown_library, sort_courses, ShownLibrary};
use crate::table::Table;
use crate::text::{join3, texts};
use crate::workbench::{following_generation, next_generation};
use crate::workspace::{text_of, LibraryLocation};
use vstd::prelude::*;
use vstd::string::*;

verus! {

/// The notes of one library, and what could not be read among them.
pub struct LibraryScan {
    pub courses: Vec<Course>,
    pub issues: Vec<String>,
}

/// What came of one library.
pub struct LocationResult {
    pub location: LibraryLocation,
    pub scan: Result<LibraryScan, String>,
    pub organization: Result<Library, String>,
    pub cache: LibraryViewCache,
}

impl LocationResult {
    pub open spec fn wf(self) -> bool {
        self.cache.wf() && (self.organization matches Ok(library) ==> library.wf())
    }

    pub open spec fn notes(self) -> Seq<Course> {
        match self.scan {
            Ok(scan) => scan.courses@,
            Err(_) => Seq::empty(),
        }
    }

    /// What a person is told of this library.
    pub open spec fn problems(self) -> Seq<Seq<char>> {
        let unread = match self.scan {
            Ok(scan) => texts(scan.issues@),
            Err(error) => seq![self.location.name@ + "暂时无法读取："@ + error@],
        };
        match self.organization {
            Ok(_) => unread,
            Err(error) => unread.push(
                self.location.name@ + "的文件夹记录暂时无法读取："@ + error@,
            ),
        }
    }
}

/// The notes of all libraries, in the order of the libraries.
pub open spec fn all_notes(results: Seq<LocationResult>) -> Seq<Course>
    decreases results.len(),
{
    if results.len() == 0 {
        Seq::empty()
    } else {
        all_notes(results.drop_last()) + results.last().notes()
    }
}

/// What a person is told of all libraries.
pub open spec fn all_problems(results: Seq<LocationResult>) -> Seq<Seq<char>>
    decreases results.len(),
{
    if results.len() == 0 {
        Seq::empty()
    } else {
        all_problems(results.drop_last()) + results.last().problems()
    }
}

/// What was found out about all libraries.
pub open spec fn all_findings(results: Seq<LocationResult>) -> CacheModel
    decreases results.len(),
{
    if results.len() == 0 {
        CacheModel::nothing()
    } else {
        all_findings(results.drop_last()).merged(results.last().cache@)
    }
}

/// The folders of each library whose record could be read.
pub open spec fn all_indexes(results: Seq<LocationResult>) -> Map<Seq<char>, Library>
    decreases results.len(),
{
    if results.len() == 0 {
        Map::empty()
    } else {
        match results.last().organization {
            Ok(library) => all_indexes(results.drop_last()).insert(
                results.last().location.root@,
                library,
            ),
            Err(_) => all_indexes(results.drop_last()),
        }
    }
}

/// What the application knows of its libraries. The generation counts the scans; the
/// result of an earlier one is ignored.
pub struct Shelf {
    pub generation: u64,
    pub loading: bool,
    pub courses: Vec<Course>,
    pub issues: Vec<String>,
    pub indexes: Table<String, Library>,
    pub cache: LibraryViewCache,
    pub root: String,
    pub error: Option<String>,
    /// The note that is open.
    pub opened: Option<Course>,
}

/// What the end of a scan leads to.
#[derive(Clone, Copy, Debug, PartialEq, Eq, Structural)]
pub enum ScanStep {
    /// A later scan is under way.
    Ignored,
    /// The libraries have changed meanwhile: scan once more.
    Again,
    Done,
}

impl Shelf {
    pub open spec fn wf(self) -> bool {
        self.cache.wf() && indexes_wf(self.indexes)
    }

    /// Nothing was read yet.
    pub fn new(root: String) -> (result: Shelf)
        ensures
            result.wf(),
            result.courses@.len() == 0,
            result.issues@.len() == 0,
            result.indexes.map() == Map::<Seq<char>, Library>::empty(),
            result.cache@ == CacheModel::nothing(),
            result == (Shelf {
                generation: 0,
                loading: false,
                courses: result.courses,
                issues: result.issues,
                indexes: result.indexes,
                cache: result.cache,
                root,
                error: None,
                opened: None,
            }),
    {
        Shelf {
            generation: 0,
            loading: false,
            courses: Vec::new(),
            issues: Vec::new(),
            indexes: Table::new(),
            cache: LibraryViewCache::new(),
            root,
            error: None,
            opened: None,
        }
    }

    /// Begins a scan; an earlier one no longer counts.
    pub fn refresh_library(&mut self) -> (result: u64)
        ensures
            result == next_generation(old(self).generation),
            *final(self) == (Shelf { generation: result, loading: true, ..*old(self) }),
    {
        self.generation = following_generation(self.generation);
        self.loading = true;
        self.generation
    }

    /// What is known after a scan, of these libraries.
    pub open spec fn holds(
        self,
        results: Seq<LocationResult>,
        before: Shelf,
        libraries: Seq<LibraryLocation>,
    ) -> bool {
        let sorted = newest_first(all_notes(results));
        &&& self.wf()
        &&& self.generation == before.generation
        &&& !self.loading
        &&& self.cache@ == all_findings(results)
        &&& self.indexes.map() == all_indexes(results)
        &&& self.courses@ == Seq::new(sorted.len(), |i: int| self.cache.renamed(sorted[i]))
        &&& is_retitled(before.opened, self.opened, self.courses@)
        &&& texts(self.issues@) == all_problems(results) + texts(self.cache.alias_issues@)
        &&& if all_indexes(results).contains_key(before.root@) {
            self.root@ == before.root@ && self.error is None
        } else if libraries.len() > 0 && all_indexes(results).contains_key(libraries[0].root@) {
            self.root@ == libraries[0].root@ && self.error is None
        } else {
            self.root@ == before.root@ && text_of(self.error) == Some(
                "当前库的文件夹信息暂时无法读取"@,
            )
        }
    }

    /// The end of a scan. `unchanged` says that the libraries are still those that
    /// were scanned. The note that is open is called as the library now lists it.
    pub fn finish_refresh(
        &mut self,
        generation: u64,
        unchanged: bool,
        results: Vec<LocationResult>,
        libraries: &Vec<LibraryLocation>,
    ) -> (result: ScanStep)
        requires
            old(self).wf(),
            forall|i: int| 0 <= i < results@.len() ==> (#[trigger] results@[i]).wf(),
        ensures
            result == (if generation != old(self).generation {
                ScanStep::Ignored
            } else if !unchanged {
                ScanStep::Again
            } else {
                ScanStep::Done
            }),
            !(result is Done) ==> *final(self) == *old(self),
            result is Done ==> final(self).holds(results@, *old(self), libraries@),
    {
        if generation != self.generation {
            return ScanStep::Ignored;
        }
        if !unchanged {
            return ScanStep::Again;
        }
        let ghost all = results@;
        let mut cache = LibraryViewCache::new();
        let mut courses: Vec<Course> = Vec::new();
        let mut issues: Vec<String> = Vec::new();
        let mut indexes: Table<String, Library> = Table::new();
        assert(all.take(0) =~= Seq::empty());
        assert(texts(issues@) =~= Seq::empty());
        for result in it: results
            invariant
                it.seq() == all,
                forall|i: int| 0 <= i < all.len() ==> (#[trigger] all[i]).wf(),
                cache.wf(),
                indexes_wf(indexes),
                cache@ == all_findings(all.take(it.index() as int)),
                courses@ == all_notes(all.take(it.index() as int)),
                texts(issues@) == all_problems(all.take(it.index() as int)),
                indexes.map() == all_indexes(all.take(it.index() as int)),
        {
            let ghost n = it.index() as int;
            let ghost part = all.take(n + 1);
            proof {
                assert(part.drop_last() =~= all.take(n));
                assert(part.last() == result && all[n].wf());
            }
            let ghost told = texts(issues@);
            let ghost known = indexes;
            let LocationResult { location, scan, organization, cache: own } = result;
            cache.merge(own);
            match scan {
                Ok(found) => {
                    let LibraryScan { courses: more, issues: unread } = found;
                    let ghost added = unread@;
                    let mut more = more;
                    let mut unread = unread;
                    courses.append(&mut more);
                    let ghost before = issues@;
                    issues.append(&mut unread);
                    assert(texts(issues@) =~= texts(before) + texts(added));
                },
                Err(error) => {
                    let message = join3(
                        location.name.as_str(),
                        "暂时无法读取：",
                        error.as_str(),
                    );
                    let ghost before = issues@;
                    issues.push(message);
                    assert(texts(issues@) =~= texts(before) + seq![message@]);
                    assert(courses@ + Seq::empty() =~= courses@);
                },
            }
            let ghost unread = texts(issues@);
            match organization {
                Ok(library) => {
                    indexes.insert(location.root, library);
                    assert(texts(issues@) == told + part.last().problems());
                },
                Err(error) => {
                    let message = join3(
                        location.name.as_str(),
                        "的文件夹记录暂时无法读取：",
                        error.as_str(),
                    );
                    let ghost before = issues@;
                    issues.push(message);
                    assert(texts(issues@) =~= unread.push(message@));
                    assert(texts(issues@) =~= told + part.last().problems());
                },
            }
        }
        assert(all.take(all.len() as int) =~= all);
        self.courses = sort_courses(courses);
        self.loading = false;
        self.issues = issues;
        self.indexes = indexes;
        self.cache = cache;
        let ghost sorted = self.courses@;
        self.cache.apply_course_title_aliases(
            &mut self.courses,
            &mut self.opened,
            &mut self.issues,
        );
        assert(self.courses@ =~= Seq::new(sorted.len(), |i: int| self.cache.renamed(sorted[i])));
        match shown_library(&self.indexes, &self.root, libraries) {
            ShownLibrary::Same => {
                self.error = None;
            },
            ShownLibrary::First => {
                self.root = libraries[0].root.clone();
                self.error = None;
            },
            ShownLibrary::Unreadable => {
                self.error = Some("当前库的文件夹信息暂时无法读取".to_owned());
            },
        }
        ScanStep::Done
    }
}

// ----------------------------------------------------------------------- laws

/// Beginning a scan makes the one before it not count.
pub proof fn a_new_scan_voids_the_one_before(before: Shelf, after: Shelf)
    requires
        after.generation == next_generation(before.generation),
    ensures
        after.generation != before.generation,
{
}

/// Whatever could not be read of a library is told.
pub proof fn problems_are_told(results: Seq<LocationResult>, i: int)
    requires
        0 <= i < results.len(),
    ensures
        results[i].scan matches Err(error) ==> all_problems(results).contains(
            results[i].location.name@ + "暂时无法读取："@ + error@,
        ),
        results[i].organization matches Err(error) ==> all_problems(results).contains(
            results[i].location.name@ + "的文件夹记录暂时无法读取："@ + error@,
        ),
    decreases results.len(),
{
    let before = all_problems(results.drop_last());
    let own = results.last().problems();
    let all = before + own;
    if i == results.len() - 1 {
        if results[i].scan is Err {
            assert(own[0] == results[i].location.name@ + "暂时无法读取："@ + (results[i].scan->Err_0)@);
            assert(all[before.len() as int] == own[0]);
        }
        if results[i].organization is Err {
            let last = own.len() - 1;
            assert(own[last] == results[i].location.name@ + "的文件夹记录暂时无法读取："@ + (
            results[i].organization->Err_0)@);
            assert(all[before.len() + last] == own[last]);
        }
    } else {
        problems_are_told(results.drop_last(), i);
        assert(results.drop_last()[i] == results[i]);
        assert forall|text: Seq<char>| before.contains(text) implies all.contains(text) by {
            let k = before.index_of(text);
            assert(all[k] == text);
        }
    }
}

proof fn note_is_among(results: Seq<LocationResult>, i: int, k: int)
    requires
        0 <= i < results.len(),
        0 <= k < results[i].notes().len(),
    ensures
        all_notes(results).contains(results[i].notes()[k]),
    decreases results.len(),
{
    let front = results.drop_last();
    let before = all_notes(front);
    let all = all_notes(results);
    let note = results[i].notes()[k];
    if i == results.len() - 1 {
        assert(all[before.len() + k] == note);
    } else {
        assert(front[i] == results[i]);
        note_is_among(front, i, k);
        let j = choose|j: int| 0 <= j < before.len() && before[j] == note;
        assert(all[j] == note);
    }
}

proof fn index_is_known(results: Seq<LocationResult>, i: int)
    requires
        0 <= i < results.len(),
        results[i].organization is Ok,
    ensures
        all_indexes(results).contains_key(results[i].location.root@),
        (forall|j: int|
            i < j < results.len() ==> (#[trigger] results[j]).location.root@
                != results[i].location.root@) ==> all_indexes(results)[results[i].location.root@]
            == results[i].organization->Ok_0,
    decreases results.len(),
{
    let front = results.drop_last();
    if i < results.len() - 1 {
        assert(front[i] == results[i]);
        index_is_known(front, i);
        if forall|j: int|
            i < j < results.len() ==> (#[trigger] results[j]).location.root@
                != results[i].location.root@ {
            assert(results[results.len() - 1].location.root@ != results[i].location.root@);
            assert forall|j: int| i < j < front.len() implies (#[trigger] front[j]).location.root@
                != front[i].location.root@ by {
                assert(front[j] == results[j]);
            }
        }
    }
}

/// Once a scan has ended every note that it found is listed, by age and under the name that was
/// given to it; the folders of every library that could be read are known; and what could not
/// be read is told. An earlier scan, or one of other libraries, changes nothing.
#[verifier::rlimit(40)]
pub proof fn a_scan_lists_every_note(
    shelf: &mut Shelf,
    generation: u64,
    unchanged: bool,
    results: Vec<LocationResult>,
    libraries: Vec<LibraryLocation>,
    step: ScanStep,
    i: int,
    k: int,
)
    requires
        old(shelf).wf(),
        forall|j: int| 0 <= j < results@.len() ==> (#[trigger] results@[j]).wf(),
        call_ensures(
            Shelf::finish_refresh,
            (shelf, generation, unchanged, results, &libraries),
            step,
        ),
        0 <= i < results@.len(),
    ensures
        step is Done <==> generation == old(shelf).generation && unchanged,
        step is Again <==> generation == old(shelf).generation && !unchanged,
        !(step is Done) ==> *final(shelf) == *old(shelf),
        step is Done ==> {
            &&& !final(shelf).loading
            &&& results@[i].scan is Ok && 0 <= k < results@[i].scan->Ok_0.courses@.len()
                ==> final(shelf).courses@.contains(
                final(shelf).cache.renamed(results@[i].scan->Ok_0.courses@[k]),
            )
            &&& results@[i].organization is Ok ==> final(shelf).indexes.map().contains_key(
                results@[i].location.root@,
            )
            &&& results@[i].organization is Ok && (forall|j: int|
                i < j < results@.len() ==> (#[trigger] results@[j]).location.root@
                    != results@[i].location.root@) ==> final(
                shelf).indexes.map()[results@[i].location.root@] == results@[i].organization->Ok_0
            &&& results@[i].scan is Err ==> texts(final(shelf).issues@).contains(
                results@[i].location.name@ + "暂时无法读取："@ + results@[i].scan->Err_0@,
            )
            &&& results@[i].organization is Err ==> texts(final(shelf).issues@).contains(
                results@[i].location.name@ + "的文件夹记录暂时无法读取："@
                    + results@[i].organization->Err_0@,
            )
        },
{
    if step is Done {
        let after = *final(shelf);
        assert(after.holds(results@, *old(shelf), libraries@));
        let all = all_notes(results@);
        let sorted = newest_first(all);
        if results@[i].scan is Ok && 0 <= k < results@[i].scan->Ok_0.courses@.len() {
            note_is_among(results@, i, k);
            let note = results@[i].notes()[k];
            crate::reader::sorting_keeps_every_note(all, note);
            let at = choose|at: int| 0 <= at < sorted.len() && sorted[at] == note;
            assert(after.courses@[at] == after.cache.renamed(note));
        }
        if results@[i].organization is Ok {
            index_is_known(results@, i);
        }
        problems_are_told(results@, i);
        let told = all_problems(results@);
        let issues = texts(after.issues@);
        if results@[i].scan is Err {
            let text = results@[i].location.name@ + "暂时无法读取："@ + results@[i].scan->Err_0@;
            let at = choose|at: int| 0 <= at < told.len() && told[at] == text;
            assert(issues[at] == text);
        }
        if results@[i].organization is Err {
            let text = results@[i].location.name@ + "的文件夹记录暂时无法读取："@
                + results@[i].organization->Err_0@;
            let at = choose|at: int| 0 <= at < told.len() && told[at] == text;
            assert(issues[at] == text);
        }
    }
}

/// A scan that begins is the one that counts, and the notes stay until it has ended.
pub proof fn a_scan_that_begins_counts(shelf: &mut Shelf, generation: u64)
    requires
        call_ensures(Shelf::refresh_library, (shelf,), generation),
    ensures
        generation != old(shelf).generation,
        final(shelf).generation == generation,
        final(shelf).loading,
        final(shelf).courses == old(shelf).courses,
        final(shelf).indexes == old(shelf).indexes,
        final(shelf).issues == old(shelf).issues,
{
}

/// The library that is shown after a scan is the one from before where its folders could be read,
/// else the first where those could; otherwise the person is told.
pub proof fn the_shown_library_can_be_read(
    shelf: &mut Shelf,
    generation: u64,
    results: Vec<LocationResult>,
    libraries: Vec<LibraryLocation>,
    i: int,
)
    requires
        old(shelf).wf(),
        forall|j: int| 0 <= j < results@.len() ==> (#[trigger] results@[j]).wf(),
        call_ensures(
            Shelf::finish_refresh,
            (shelf, generation, true, results, &libraries),
            ScanStep::Done,
        ),
        0 <= i < results@.len(),
        results@[i].organization is Ok,
    ensures
        results@[i].location.root@ == old(shelf).root@ ==> final(shelf).root@ == old(shelf).root@
            && final(shelf).error is None,
        final(shelf).error is None ==> final(shelf).indexes.map().contains_key(final(shelf).root@),
        final(shelf).error is Some ==> final(shelf).root@ == old(shelf).root@
            && results@[i].location.root@ != old(shelf).root@,
        libraries@.len() > 0 && results@[i].location.root@ == libraries@[0].root@ ==> final(
            shelf).error is None,
{
    index_is_known(results@, i);
}

} // verus!
