//! The library page: which notes it shows, in which rows, and under which notices.
use crate::folder_export::{find_library, library_at};
use crate::notes::{indexes_wf, Course, Library, LibraryViewCache, Recovery};
use crate::table::Table;
use crate::text::{
    begins, contains, decimal, holds, join2, join3, lowercase, lowercased, number, same,
    starts_with, texts,
};
use crate::workspace::LibraryLocation;
use vstd::prelude::*;
use vstd::string::*;

verus! {

// ----------------------------------------------------------------------- rows

/// The header of a folder group.
#[derive(Clone, Debug, PartialEq, Eq)]
pub struct LibraryGroupHeader {
    pub index: usize,
    pub key: String,
    pub name: String,
    pub count: usize,
    pub collapsed: bool,
}

/// The body of a folder group: its notes, by their places in the library.
#[derive(Clone, Debug, PartialEq, Eq)]
pub struct LibraryGroupBody {
    pub index: usize,
    pub key: String,
    pub collapsed: bool,
    pub entries: Vec<(usize, Course)>,
}

/// One row of the library page.
#[derive(Clone, Debug, PartialEq, Eq)]
pub enum LibraryItem {
    Checking,
    Recovery,
    Coverage(String),
    Issues(Vec<String>),
    Loading,
    Empty { partial: bool },
    SearchScope(String),
    GroupHeader(Box<LibraryGroupHeader>),
    GroupBody(Box<LibraryGroupBody>),
    CardRow(Vec<(usize, Course)>),
    ListRow(usize, Box<Course>),
}

/// What a row says.
pub enum ItemModel {
    Checking,
    Recovery,
    Coverage(Seq<char>),
    Issues(Seq<Seq<char>>),
    Loading,
    Empty { partial: bool },
    SearchScope(Seq<char>),
    GroupHeader { index: usize, key: Seq<char>, name: Seq<char>, count: usize, collapsed: bool },
    GroupBody { index: usize, key: Seq<char>, collapsed: bool, entries: Seq<(usize, Course)> },
    CardRow(Seq<(usize, Course)>),
    ListRow(usize, Course),
}

impl View for LibraryItem {
    type V = ItemModel;

    open spec fn view(&self) -> ItemModel {
        match *self {
            LibraryItem::Checking => ItemModel::Checking,
            LibraryItem::Recovery => ItemModel::Recovery,
            LibraryItem::Coverage(message) => ItemModel::Coverage(message@),
            LibraryItem::Issues(messages) => ItemModel::Issues(texts(messages@)),
            LibraryItem::Loading => ItemModel::Loading,
            LibraryItem::Empty { partial } => ItemModel::Empty { partial },
            LibraryItem::SearchScope(message) => ItemModel::SearchScope(message@),
            LibraryItem::GroupHeader(header) => ItemModel::GroupHeader {
                index: header.index,
                key: header.key@,
                name: header.name@,
                count: header.count,
                collapsed: header.collapsed,
            },
            LibraryItem::GroupBody(body) => ItemModel::GroupBody {
                index: body.index,
                key: body.key@,
                collapsed: body.collapsed,
                entries: body.entries@,
            },
            LibraryItem::CardRow(row) => ItemModel::CardRow(row@),
            LibraryItem::ListRow(index, course) => ItemModel::ListRow(index, *course),
        }
    }
}

pub open spec fn item_views(items: Seq<LibraryItem>) -> Seq<ItemModel> {
    Seq::new(items.len(), |i: int| items[i]@)
}

/// The identity of a row: it stays while the row means the same content, so that
/// what was measured of it can be kept.
pub open spec fn item_key(item: ItemModel, columns: usize) -> Seq<char> {
    match item {
        ItemModel::Checking => "checking"@,
        ItemModel::Recovery => "recovery"@,
        ItemModel::Coverage(_) => "coverage"@,
        ItemModel::Issues(_) => "issues"@,
        ItemModel::Loading => "loading"@,
        ItemModel::Empty { .. } => "empty"@,
        ItemModel::SearchScope(_) => "search-scope"@,
        ItemModel::GroupHeader { key, .. } => "group-h-"@ + key,
        ItemModel::GroupBody { key, .. } => "group-b-"@ + key,
        ItemModel::CardRow(row) => "row-"@ + decimal(columns as nat) + "-"@ + decimal(row.len())
            + "-"@ + (if row.len() > 0 {
            row[0].1.dir@
        } else {
            Seq::empty()
        }),
        ItemModel::ListRow(_, course) => "card-"@ + course.dir@,
    }
}

impl LibraryItem {
    pub fn key(&self, columns: usize) -> (result: String)
        ensures
            result@ == item_key(self@, columns),
    {
        match self {
            LibraryItem::Checking => "checking".to_owned(),
            LibraryItem::Recovery => "recovery".to_owned(),
            LibraryItem::Coverage(_) => "coverage".to_owned(),
            LibraryItem::Issues(_) => "issues".to_owned(),
            LibraryItem::Loading => "loading".to_owned(),
            LibraryItem::Empty { .. } => "empty".to_owned(),
            LibraryItem::SearchScope(_) => "search-scope".to_owned(),
            LibraryItem::GroupHeader(header) => join2("group-h-", header.key.as_str()),
            LibraryItem::GroupBody(body) => join2("group-b-", body.key.as_str()),
            LibraryItem::CardRow(row) => {
                let mut key = "row-".to_owned();
                key.append(number(columns as u64).as_str());
                key.append("-");
                key.append(number(row.len() as u64).as_str());
                key.append("-");
                if row.len() > 0 {
                    key.append(row[0].1.dir.as_str());
                } else {
                    assert(key@ + Seq::<char>::empty() =~= key@);
                }
                key
            },
            LibraryItem::ListRow(_, course) => join2("card-", course.dir.as_str()),
        }
    }
}

/// A row of cards keeps its identity while its length and first note stay, whatever
/// the others; the columns tell rows apart.
pub proof fn a_card_row_is_known_by_its_first_note(
    a: Seq<(usize, Course)>,
    b: Seq<(usize, Course)>,
    columns: usize,
)
    requires
        a.len() == b.len(),
        a.len() > 0,
        a[0].1.dir@ == b[0].1.dir@,
    ensures
        item_key(ItemModel::CardRow(a), columns) == item_key(ItemModel::CardRow(b), columns),
{
}

// ---------------------------------------------------------------------- input

/// What the page is made from. `root_order` lists the roots in the order of their
/// paths; the locations are none while they are being checked.
pub struct LibraryView {
    pub registered: bool,
    pub libraries: Vec<LibraryLocation>,
    pub access: Option<LibraryAccess>,
    pub library_root: String,
    pub root_order: Vec<String>,
    pub folder_filter: Option<u64>,
    pub courses: Vec<Course>,
    pub cache: LibraryViewCache,
    pub indexes: Table<String, Library>,
    pub issues: Vec<String>,
    pub library_error: Option<String>,
    pub loading: bool,
    pub search: String,
    pub collapsed: Table<String, ()>,
    pub group_folders: bool,
    pub cards: bool,
    pub stacked: bool,
    pub columns: usize,
}

/// The libraries that can and cannot be reached.
pub struct LibraryAccess {
    pub available: Vec<String>,
    pub unavailable: Vec<String>,
}

/// How much of what is asked for can be reached.
#[derive(Clone, Copy, Debug, PartialEq, Eq, Structural)]
pub enum LibraryCoverage {
    Complete,
    Partial,
    Unavailable,
}

pub open spec fn coverage_of(available: nat, unavailable: nat) -> LibraryCoverage {
    if unavailable == 0 {
        LibraryCoverage::Complete
    } else if available == 0 {
        LibraryCoverage::Unavailable
    } else {
        LibraryCoverage::Partial
    }
}

impl LibraryAccess {
    pub fn coverage(&self) -> (result: LibraryCoverage)
        ensures
            result == coverage_of(self.available@.len(), self.unavailable@.len()),
    {
        if self.unavailable.is_empty() {
            LibraryCoverage::Complete
        } else if self.available.is_empty() {
            LibraryCoverage::Unavailable
        } else {
            LibraryCoverage::Partial
        }
    }
}

fn has_text(list: &Vec<String>, text: &str) -> (result: bool)
    ensures
        result == texts(list@).contains(text@),
{
    let mut i: usize = 0;
    while i < list.len()
        invariant
            i <= list@.len(),
            forall|j: int| 0 <= j < i ==> texts(list@)[j] != text@,
        decreases list@.len() - i,
    {
        if same(list[i].as_str(), text) {
            assert(texts(list@)[i as int] == text@);
            return true;
        }
        i += 1;
    }
    false
}

/// The roots among the first `n` that the filter asks for.
pub open spec fn roots_in_scope(
    roots: Seq<Seq<char>>,
    filtered: bool,
    root: Seq<char>,
    n: nat,
) -> Seq<Seq<char>>
    decreases n,
{
    if n == 0 {
        Seq::empty()
    } else {
        let before = roots_in_scope(roots, filtered, root, (n - 1) as nat);
        if !filtered || roots[n - 1] == root {
            before.push(roots[n - 1])
        } else {
            before
        }
    }
}

fn scoped(roots: &Vec<String>, filtered: bool, root: &str) -> (result: Vec<String>)
    ensures
        texts(result@) == roots_in_scope(texts(roots@), filtered, root@, roots@.len()),
{
    let mut result: Vec<String> = Vec::new();
    let mut i: usize = 0;
    assert(texts(result@) =~= Seq::empty());
    while i < roots.len()
        invariant
            i <= roots@.len(),
            texts(result@) == roots_in_scope(texts(roots@), filtered, root@, i as nat),
        decreases roots@.len() - i,
    {
        let ghost before = texts(result@);
        if !filtered || same(roots[i].as_str(), root) {
            result.push(roots[i].clone());
            assert(texts(result@) =~= before.push(roots@[i as int]@));
        }
        i += 1;
    }
    result
}

impl LibraryView {
    pub open spec fn wf(self) -> bool {
        &&& self.cache.wf()
        &&& indexes_wf(self.indexes)
        &&& self.columns >= 1
        &&& texts(self.root_order@).no_duplicates()
        &&& texts(self.root_order@).contains(self.library_root@)
        &&& forall|i: int|
            0 <= i < self.libraries@.len() ==> texts(self.root_order@).contains(
                (#[trigger] self.libraries@[i]).root@,
            )
    }

    /// What is searched for.
    pub open spec fn query(self) -> Seq<char> {
        lowercased(self.search@)
    }

    /// The roots that can be reached and are asked for.
    pub open spec fn reachable(self) -> Seq<Seq<char>> {
        match self.access {
            Some(access) => roots_in_scope(
                texts(access.available@),
                self.folder_filter is Some,
                self.library_root@,
                access.available@.len(),
            ),
            None => Seq::empty(),
        }
    }

    /// The roots that cannot be reached and are asked for.
    pub open spec fn unreachable(self) -> Seq<Seq<char>> {
        match self.access {
            Some(access) => roots_in_scope(
                texts(access.unavailable@),
                self.folder_filter is Some,
                self.library_root@,
                access.unavailable@.len(),
            ),
            None => Seq::empty(),
        }
    }

    pub open spec fn coverage(self) -> LibraryCoverage {
        coverage_of(self.reachable().len(), self.unreachable().len())
    }

    /// The root under which a note was found.
    pub open spec fn root_of(self, course: Course) -> Option<Seq<char>> {
        match self.cache.library_of(self.libraries@, course.storage@) {
            Some(library) => Some(library.root@),
            None => None,
        }
    }

    /// The note lies in a library that can be reached. Where no libraries are
    /// registered, the place where it was found counts.
    pub open spec fn is_reachable(self, course: Course) -> bool {
        match self.root_of(course) {
            Some(root) => self.reachable().contains(root),
            None => !self.registered && self.cache.locations.map().contains_key(course.storage@)
                && self.reachable().contains(self.cache.locations.map()[course.storage@].root@),
        }
    }

    /// The note is in the folder that is asked for. Where the folders of the library
    /// could not be read, all its notes count.
    pub open spec fn is_in_folder(self, course: Course) -> bool {
        match self.folder_filter {
            None => true,
            Some(id) => self.root_of(course) == Some(self.library_root@) && (
            !self.indexes.map().contains_key(self.library_root@) || self.folder(course) == id),
        }
    }

    /// The folder of a note; 0 where it is in none.
    pub open spec fn folder(self, course: Course) -> u64 {
        match self.cache.folder_of(self.libraries@, self.indexes, course.storage@) {
            Some(folder) => folder,
            None => 0,
        }
    }

    /// The page shows this note.
    pub open spec fn is_shown(self, course: Course) -> bool {
        &&& self.is_reachable(course)
        &&& holds(lowercased(course.title@), self.query())
        &&& self.is_in_folder(course)
    }

    /// The notes among the first `n` that the page shows, with their places.
    pub open spec fn shown(self, n: nat) -> Seq<(usize, Course)>
        decreases n,
    {
        if n == 0 {
            Seq::empty()
        } else {
            let before = self.shown((n - 1) as nat);
            if self.is_shown(self.courses@[n - 1]) {
                before.push(((n - 1) as usize, self.courses@[n - 1]))
            } else {
                before
            }
        }
    }

    fn shows_course(&self, course: &Course, query: &str, reachable: &Vec<String>) -> (result: bool)
        requires
            self.wf(),
            query@ == self.query(),
            texts(reachable@) == self.reachable(),
        ensures
            result == self.is_shown(*course),
    {
        let location = self.cache.course_location(&self.libraries, &course.storage);
        let reached = match location {
            Some(library) => has_text(reachable, library.root.as_str()),
            None => !self.registered && match self.cache.locations.get(&course.storage) {
                Some(place) => has_text(reachable, place.root.as_str()),
                None => false,
            },
        };
        if !reached || !contains(lowercase(course.title.as_str()).as_str(), query) {
            return false;
        }
        match self.folder_filter {
            None => true,
            Some(id) => {
                let here = match location {
                    Some(library) => same(library.root.as_str(), self.library_root.as_str()),
                    None => false,
                };
                if !here {
                    return false;
                }
                if !self.indexes.contains(&self.library_root) {
                    return true;
                }
                let folder: u64 = match self.cache.course_folder(
                    &self.libraries,
                    &self.indexes,
                    &course.storage,
                ) {
                    Some(folder) => folder,
                    None => 0,
                };
                folder == id
            },
        }
    }

    fn shown_courses(&self, query: &str, reachable: &Vec<String>) -> (result: Vec<(usize, Course)>)
        requires
            self.wf(),
            query@ == self.query(),
            texts(reachable@) == self.reachable(),
        ensures
            result@ == self.shown(self.courses@.len()),
    {
        let mut result: Vec<(usize, Course)> = Vec::new();
        let mut i: usize = 0;
        while i < self.courses.len()
            invariant
                self.wf(),
                query@ == self.query(),
                texts(reachable@) == self.reachable(),
                i <= self.courses@.len(),
                result@ == self.shown(i as nat),
            decreases self.courses@.len() - i,
        {
            if self.shows_course(&self.courses[i], query, reachable) {
                result.push((i, self.courses[i].copy()));
            }
            i += 1;
        }
        result
    }
}


// -------------------------------------------------------------------- notices

/// A notice about one library, by its place in the list.
pub enum RecoveryNotice {
    Unavailable { index: usize },
    Classification { index: usize, has_backup: bool, diagnostics: Vec<String> },
    Names { index: usize, has_backup: bool, diagnostics: Vec<String> },
}

pub enum NoticeModel {
    Unavailable { index: usize },
    Classification { index: usize, has_backup: bool, diagnostics: Seq<Seq<char>> },
    Names { index: usize, has_backup: bool, diagnostics: Seq<Seq<char>> },
}

impl View for RecoveryNotice {
    type V = NoticeModel;

    open spec fn view(&self) -> NoticeModel {
        match *self {
            RecoveryNotice::Unavailable { index } => NoticeModel::Unavailable { index },
            RecoveryNotice::Classification { index, has_backup, diagnostics } =>
                NoticeModel::Classification { index, has_backup, diagnostics: texts(diagnostics@) },
            RecoveryNotice::Names { index, has_backup, diagnostics } => NoticeModel::Names {
                index,
                has_backup,
                diagnostics: texts(diagnostics@),
            },
        }
    }
}

pub open spec fn notice_views(notices: Seq<RecoveryNotice>) -> Seq<NoticeModel> {
    Seq::new(notices.len(), |i: int| notices[i]@)
}

/// The issues among the first `n` that begin with a text.
pub open spec fn issues_with(issues: Seq<Seq<char>>, prefix: Seq<char>, n: nat) -> Seq<Seq<char>>
    decreases n,
{
    if n == 0 {
        Seq::empty()
    } else {
        let before = issues_with(issues, prefix, (n - 1) as nat);
        if begins(issues[n - 1], prefix) {
            before.push(issues[n - 1])
        } else {
            before
        }
    }
}

fn diagnostics(issues: &Vec<String>, prefix: &str) -> (result: Vec<String>)
    ensures
        texts(result@) == issues_with(texts(issues@), prefix@, issues@.len()),
{
    let mut result: Vec<String> = Vec::new();
    let mut i: usize = 0;
    assert(texts(result@) =~= Seq::empty());
    while i < issues.len()
        invariant
            i <= issues@.len(),
            texts(result@) == issues_with(texts(issues@), prefix@, i as nat),
        decreases issues@.len() - i,
    {
        let ghost before = texts(result@);
        if starts_with(issues[i].as_str(), prefix) {
            result.push(issues[i].clone());
            assert(texts(result@) =~= before.push(issues@[i as int]@));
        }
        i += 1;
    }
    result
}

/// How an issue about the folders of a library begins.
pub open spec fn folder_issue(library: LibraryLocation) -> Seq<char> {
    library.name@ + "的文件夹记录暂时无法读取："@
}

/// How an issue about the names of the notes of a library begins.
pub open spec fn name_issue(library: LibraryLocation) -> Seq<char> {
    library.name@ + "的显示名称尚未读取："@
}

impl LibraryView {
    /// The library cannot be reached.
    pub open spec fn is_cut_off(self, library: LibraryLocation) -> bool {
        self.access matches Some(access) && texts(access.unavailable@).contains(library.root@)
    }

    /// The notices about one library.
    pub open spec fn notices_about(self, index: usize) -> Seq<NoticeModel> {
        let library = self.libraries@[index as int];
        let root = library.root@;
        let issues = texts(self.issues@);
        if self.is_cut_off(library) {
            seq![NoticeModel::Unavailable { index }]
        } else {
            let folders = if self.cache.recovery.map().contains_key(root) {
                seq![
                    NoticeModel::Classification {
                        index,
                        has_backup: self.cache.recovery.map()[root].has_backup,
                        diagnostics: issues_with(issues, folder_issue(library), issues.len()),
                    },
                ]
            } else {
                Seq::empty()
            };
            let names = if self.cache.title_recovery.map().contains_key(root) {
                seq![
                    NoticeModel::Names {
                        index,
                        has_backup: self.cache.title_recovery.map()[root].has_backup,
                        diagnostics: issues_with(issues, name_issue(library), issues.len()),
                    },
                ]
            } else {
                Seq::empty()
            };
            folders + names
        }
    }

    /// The notices about the first `n` libraries.
    pub open spec fn notices(self, n: nat) -> Seq<NoticeModel>
        decreases n,
    {
        if n == 0 {
            Seq::empty()
        } else {
            self.notices((n - 1) as nat) + self.notices_about((n - 1) as usize)
        }
    }

    /// What has to be recovered, and what cannot be reached.
    pub fn recovery_notices(&self) -> (result: Vec<RecoveryNotice>)
        requires
            self.wf(),
        ensures
            notice_views(result@) == (if self.registered {
                self.notices(self.libraries@.len())
            } else {
                Seq::empty()
            }),
    {
        let mut result: Vec<RecoveryNotice> = Vec::new();
        assert(notice_views(result@) =~= Seq::empty());
        if !self.registered {
            return result;
        }
        let mut index: usize = 0;
        while index < self.libraries.len()
            invariant
                self.wf(),
                index <= self.libraries@.len(),
                notice_views(result@) == self.notices(index as nat),
            decreases self.libraries@.len() - index,
        {
            let library = &self.libraries[index];
            let ghost before = notice_views(result@);
            let cut_off = match &self.access {
                Some(access) => has_text(&access.unavailable, library.root.as_str()),
                None => false,
            };
            if cut_off {
                result.push(RecoveryNotice::Unavailable { index });
                assert(notice_views(result@) =~= before + self.notices_about(index));
            } else {
                if let Some(recovery) = self.cache.recovery.get(&library.root) {
                    let prefix = join2(library.name.as_str(), "的文件夹记录暂时无法读取：");
                    let diagnostics = diagnostics(&self.issues, prefix.as_str());
                    result.push(
                        RecoveryNotice::Classification {
                            index,
                            has_backup: recovery.has_backup,
                            diagnostics,
                        },
                    );
                }
                if let Some(recovery) = self.cache.title_recovery.get(&library.root) {
                    let prefix = join2(library.name.as_str(), "的显示名称尚未读取：");
                    let diagnostics = diagnostics(&self.issues, prefix.as_str());
                    result.push(
                        RecoveryNotice::Names {
                            index,
                            has_backup: recovery.has_backup,
                            diagnostics,
                        },
                    );
                }
                assert(notice_views(result@) =~= before + self.notices_about(index));
            }
            index += 1;
        }
        result
    }

    /// A notice about one of the libraries shows this issue already.
    pub open spec fn is_told(self, issue: Seq<char>) -> bool {
        self.registered && exists|i: int|
            0 <= i < self.libraries@.len() && self.tells(#[trigger] self.libraries@[i], issue)
    }

    /// The notice about this library shows the issue.
    pub open spec fn tells(self, library: LibraryLocation, issue: Seq<char>) -> bool {
        !self.is_cut_off(library) && ((self.cache.recovery.map().contains_key(library.root@)
            && begins(issue, folder_issue(library))) || (
        self.cache.title_recovery.map().contains_key(library.root@) && begins(
            issue,
            name_issue(library),
        )))
    }

    fn told(&self, issue: &str) -> (result: bool)
        requires
            self.wf(),
        ensures
            result == self.is_told(issue@),
    {
        if !self.registered {
            return false;
        }
        let mut i: usize = 0;
        while i < self.libraries.len()
            invariant
                self.wf(),
                self.registered,
                i <= self.libraries@.len(),
                forall|j: int| 0 <= j < i ==> !self.tells(#[trigger] self.libraries@[j], issue@),
            decreases self.libraries@.len() - i,
        {
            let library = &self.libraries[i];
            let cut_off = match &self.access {
                Some(access) => has_text(&access.unavailable, library.root.as_str()),
                None => false,
            };
            let folders = join2(library.name.as_str(), "的文件夹记录暂时无法读取：");
            let names = join2(library.name.as_str(), "的显示名称尚未读取：");
            if !cut_off && ((self.cache.recovery.contains(&library.root) && starts_with(
                issue,
                folders.as_str(),
            )) || (self.cache.title_recovery.contains(&library.root) && starts_with(
                issue,
                names.as_str(),
            ))) {
                assert(self.tells(self.libraries@[i as int], issue@));
                return true;
            }
            i += 1;
        }
        false
    }

    /// The issues among the first `n` that no notice shows.
    pub open spec fn untold(self, n: nat) -> Seq<Seq<char>>
        decreases n,
    {
        if n == 0 {
            Seq::empty()
        } else {
            let before = self.untold((n - 1) as nat);
            if self.is_told(self.issues@[n - 1]@) {
                before
            } else {
                before.push(self.issues@[n - 1]@)
            }
        }
    }

    fn remaining_issues(&self) -> (result: Vec<String>)
        requires
            self.wf(),
        ensures
            texts(result@) == self.untold(self.issues@.len()),
    {
        let mut result: Vec<String> = Vec::new();
        let mut i: usize = 0;
        assert(texts(result@) =~= Seq::empty());
        while i < self.issues.len()
            invariant
                self.wf(),
                i <= self.issues@.len(),
                texts(result@) == self.untold(i as nat),
            decreases self.issues@.len() - i,
        {
            let ghost before = texts(result@);
            if !self.told(self.issues[i].as_str()) {
                result.push(self.issues[i].clone());
                assert(texts(result@) =~= before.push(self.issues@[i as int]@));
            }
            i += 1;
        }
        result
    }
}

/// What a person is told where not everything can be reached.
pub open spec fn coverage_text(
    coverage: LibraryCoverage,
    searching: bool,
    available: nat,
    unavailable: nat,
) -> Seq<char> {
    if coverage is Unavailable {
        if searching {
            "当前范围的保存位置暂时无法访问，尚未搜索笔记。关键词已保留，重新连接后可继续搜索。"@
        } else {
            "当前范围的保存位置暂时无法访问，笔记列表尚未读取。重新连接后可继续浏览。"@
        }
    } else if searching {
        "当前仅搜索 "@ + decimal(available) + " 个可访问的保存位置；另外 "@ + decimal(unavailable)
            + " 个位置尚未纳入搜索结果。"@
    } else {
        "当前仅显示 "@ + decimal(available) + " 个可访问位置中的笔记；另外 "@ + decimal(unavailable)
            + " 个位置尚未读取。"@
    }
}

fn coverage_message(
    coverage: LibraryCoverage,
    searching: bool,
    available: usize,
    unavailable: usize,
) -> (result: String)
    ensures
        result@ == coverage_text(coverage, searching, available as nat, unavailable as nat),
{
    if matches!(coverage, LibraryCoverage::Unavailable) {
        return if searching {
            "当前范围的保存位置暂时无法访问，尚未搜索笔记。关键词已保留，重新连接后可继续搜索。".to_owned()
        } else {
            "当前范围的保存位置暂时无法访问，笔记列表尚未读取。重新连接后可继续浏览。".to_owned()
        };
    }
    let (head, middle, tail) = if searching {
        ("当前仅搜索 ", " 个可访问的保存位置；另外 ", " 个位置尚未纳入搜索结果。")
    } else {
        ("当前仅显示 ", " 个可访问位置中的笔记；另外 ", " 个位置尚未读取。")
    };
    let mut text = head.to_owned();
    text.append(number(available as u64).as_str());
    text.append(middle);
    text.append(number(unavailable as u64).as_str());
    text.append(tail);
    text
}

/// What a search came to.
pub open spec fn search_text(search: Seq<char>, filtered: bool, count: nat) -> Seq<char> {
    (if filtered {
        "在当前文件夹中搜索「"@
    } else {
        "在全部笔记中搜索「"@
    }) + search + "」，找到 "@ + decimal(count) + " 篇笔记。"@
}

fn search_message(search: &str, filtered: bool, count: usize) -> (result: String)
    ensures
        result@ == search_text(search@, filtered, count as nat),
{
    let mut text = if filtered {
        "在当前文件夹中搜索「".to_owned()
    } else {
        "在全部笔记中搜索「".to_owned()
    };
    text.append(search);
    text.append("」，找到 ");
    text.append(number(count as u64).as_str());
    text.append(" 篇笔记。");
    text
}


// --------------------------------------------------------------------- groups

/// The notes of one folder of one library. `rank` is the place of the library's
/// root in the order of the roots.
pub struct Group {
    pub rank: usize,
    pub folder: u64,
    pub entries: Vec<(usize, Course)>,
}

/// One group comes before another: by the library, then by the folder.
pub open spec fn group_before(a: Group, b: Group) -> bool {
    a.rank < b.rank || (a.rank == b.rank && a.folder < b.folder)
}

impl LibraryView {
    /// The root under which a note is listed.
    pub open spec fn listed_root(self, course: Course) -> Seq<char> {
        match self.root_of(course) {
            Some(root) => root,
            None => self.library_root@,
        }
    }

    /// The note belongs to this library and folder.
    pub open spec fn belongs(self, entry: (usize, Course), rank: usize, folder: u64) -> bool {
        &&& rank < self.root_order@.len()
        &&& self.root_order@[rank as int]@ == self.listed_root(entry.1)
        &&& self.folder(entry.1) == folder
    }

    /// The notes that belong to one library and folder, in their order.
    pub open spec fn members(self, entries: Seq<(usize, Course)>, rank: usize, folder: u64) -> Seq<
        (usize, Course),
    >
        decreases entries.len(),
    {
        if entries.len() == 0 {
            Seq::empty()
        } else {
            let before = self.members(entries.drop_last(), rank, folder);
            if self.belongs(entries.last(), rank, folder) {
                before.push(entries.last())
            } else {
                before
            }
        }
    }

    /// The groups hold the notes by library and folder: in order, each note in its
    /// group, no group without a note.
    pub open spec fn is_grouping(
        self,
        groups: Seq<Group>,
        entries: Seq<(usize, Course)>,
    ) -> bool {
        &&& forall|a: int, b: int|
            0 <= a < b < groups.len() ==> group_before(#[trigger] groups[a], #[trigger] groups[b])
        &&& forall|g: int|
            0 <= g < groups.len() ==> {
                &&& (#[trigger] groups[g]).entries@ == self.members(
                    entries,
                    groups[g].rank,
                    groups[g].folder,
                )
                &&& groups[g].entries@.len() > 0
                &&& groups[g].rank < self.root_order@.len()
            }
        &&& forall|i: int|
            0 <= i < entries.len() ==> self.is_grouped(groups, #[trigger] entries[i])
    }

    /// One of the groups is the note's.
    pub open spec fn is_grouped(self, groups: Seq<Group>, entry: (usize, Course)) -> bool {
        exists|g: int|
            0 <= g < groups.len() && self.belongs(
                entry,
                (#[trigger] groups[g]).rank,
                groups[g].folder,
            )
    }

    /// The place of the note's root in the order of the roots.
    fn rank_of(&self, course: &Course) -> (result: usize)
        requires
            self.wf(),
        ensures
            result < self.root_order@.len(),
            self.root_order@[result as int]@ == self.listed_root(*course),
    {
        let root = match self.cache.course_location(&self.libraries, &course.storage) {
            Some(library) => {
                proof {
                    self.registered_is_listed(course.storage@);
                }
                library.root.as_str()
            },
            None => self.library_root.as_str(),
        };
        assert(texts(self.root_order@).contains(root@));
        let mut i: usize = 0;
        while i < self.root_order.len()
            invariant
                i <= self.root_order@.len(),
                root@ == self.listed_root(*course),
                texts(self.root_order@).contains(root@),
                forall|j: int| 0 <= j < i ==> texts(self.root_order@)[j] != root@,
            decreases self.root_order@.len() - i,
        {
            if same(self.root_order[i].as_str(), root) {
                return i;
            }
            assert(texts(self.root_order@)[i as int] != root@);
            i += 1;
        }
        proof {
            let k = texts(self.root_order@).index_of(root@);
            assert(texts(self.root_order@)[k] == root@);
        }
        0
    }

    /// A registered library is in the list of libraries, and so its root is in the
    /// order of the roots.
    proof fn registered_is_listed(self, storage: Seq<char>)
        requires
            self.wf(),
            self.cache.library_of(self.libraries@, storage) is Some,
        ensures
            texts(self.root_order@).contains(
                self.cache.library_of(self.libraries@, storage)->0.root@,
            ),
    {
        registered_is_in(self.libraries@, self.cache.locations.map()[storage]);
        let library = self.cache.library_of(self.libraries@, storage)->0;
        let k = self.libraries@.index_of(library);
        assert(self.libraries@[k].root@ == library.root@);
    }

    /// Groups notes by library and folder.
    fn grouped(&self, entries: Vec<(usize, Course)>) -> (result: Vec<Group>)
        requires
            self.wf(),
        ensures
            self.is_grouping(result@, entries@),
    {
        let mut groups: Vec<Group> = Vec::new();
        let ghost all = entries@;
        for entry in it: entries
            invariant
                self.wf(),
                it.seq() == all,
                self.is_grouping(groups@, all.take(it.index() as int)),
        {
            let ghost n = it.index() as int;
            let ghost done = all.take(n);
            let ghost e = entry;
            assert(all.take(n + 1) =~= done.push(entry));
            let rank = self.rank_of(&entry.1);
            let folder: u64 = match self.cache.course_folder(
                &self.libraries,
                &self.indexes,
                &entry.1.storage,
            ) {
                Some(folder) => folder,
                None => 0,
            };
            let ghost before = groups@;
            let mut at: usize = 0;
            while at < groups.len() && (groups[at].rank < rank || (groups[at].rank == rank
                && groups[at].folder < folder))
                invariant
                    at <= groups@.len(),
                    groups@ == before,
                    forall|g: int|
                        0 <= g < at ==> (#[trigger] before[g]).rank < rank || (before[g].rank
                            == rank && before[g].folder < folder),
                decreases groups@.len() - at,
            {
                at += 1;
            }
            if at < groups.len() && groups[at].rank == rank && groups[at].folder == folder {
                groups[at].entries.push(entry);
                proof {
                    self.grouping_grows_in_place(before, groups@, done, e, at as int);
                }
            } else {
                let mut own: Vec<(usize, Course)> = Vec::new();
                own.push(entry);
                let ghost fresh = Group { rank, folder, entries: own };
                groups.insert(at, Group { rank, folder, entries: own });
                proof {
                    assert(fresh.entries@ =~= seq![e]);
                    self.grouping_grows_by_one(before, fresh, done, e, at as int);
                    assert(groups@ =~= before.insert(at as int, fresh));
                }
            }
        }
        assert(all.take(all.len() as int) =~= all);
        groups
    }

    /// Another member changes the members of its own group, and of no other.
    proof fn members_grow(
        self,
        entries: Seq<(usize, Course)>,
        entry: (usize, Course),
        rank: usize,
        folder: u64,
    )
        ensures
            self.members(entries.push(entry), rank, folder) == (if self.belongs(
                entry,
                rank,
                folder,
            ) {
                self.members(entries, rank, folder).push(entry)
            } else {
                self.members(entries, rank, folder)
            }),
    {
        assert(entries.push(entry).drop_last() =~= entries);
    }

    proof fn no_members(self, entries: Seq<(usize, Course)>, rank: usize, folder: u64)
        requires
            forall|i: int|
                0 <= i < entries.len() ==> !self.belongs(#[trigger] entries[i], rank, folder),
        ensures
            self.members(entries, rank, folder).len() == 0,
        decreases entries.len(),
    {
        if entries.len() > 0 {
            let rest = entries.drop_last();
            assert forall|i: int| 0 <= i < rest.len() implies !self.belongs(
                #[trigger] rest[i],
                rank,
                folder,
            ) by {
                assert(rest[i] == entries[i]);
            }
            self.no_members(rest, rank, folder);
            assert(entries[entries.len() - 1] == entries.last());
        }
    }

    /// A note belongs to one library and folder only.
    proof fn one_group(self, entry: (usize, Course), a: usize, b: u64, c: usize, d: u64)
        requires
            self.wf(),
            self.belongs(entry, a, b),
            self.belongs(entry, c, d),
        ensures
            a == c && b == d,
    {
        assert(texts(self.root_order@)[a as int] == texts(self.root_order@)[c as int]);
    }

    proof fn grouping_grows_in_place(
        self,
        before: Seq<Group>,
        after: Seq<Group>,
        done: Seq<(usize, Course)>,
        entry: (usize, Course),
        at: int,
    )
        requires
            self.wf(),
            self.is_grouping(before, done),
            0 <= at < before.len(),
            after.len() == before.len(),
            self.belongs(entry, before[at].rank, before[at].folder),
            after[at].rank == before[at].rank,
            after[at].folder == before[at].folder,
            after[at].entries@ == before[at].entries@.push(entry),
            forall|g: int| 0 <= g < after.len() && g != at ==> #[trigger] after[g] == before[g],
        ensures
            self.is_grouping(after, done.push(entry)),
    {
        let more = done.push(entry);
        assert forall|g: int| 0 <= g < after.len() implies {
            &&& (#[trigger] after[g]).entries@ == self.members(
                more,
                after[g].rank,
                after[g].folder,
            )
            &&& after[g].entries@.len() > 0
            &&& after[g].rank < self.root_order@.len()
        } by {
            let own = before[g];
            self.members_grow(done, entry, own.rank, own.folder);
            if g != at {
                assert(after[g] == before[g]);
                if self.belongs(entry, own.rank, own.folder) {
                    self.one_group(
                        entry,
                        own.rank,
                        own.folder,
                        before[at].rank,
                        before[at].folder,
                    );
                    if g < at {
                        assert(group_before(before[g], before[at]));
                    } else {
                        assert(group_before(before[at], before[g]));
                    }
                }
            }
        }
        assert forall|a: int, b: int| 0 <= a < b < after.len() implies group_before(
            #[trigger] after[a],
            #[trigger] after[b],
        ) by {
            assert(group_before(before[a], before[b]));
        }
        assert forall|i: int| 0 <= i < more.len() implies self.is_grouped(after, #[trigger] more[i]) by {
            if i < done.len() {
                assert(more[i] == done[i]);
                assert(self.is_grouped(before, done[i]));
                let g = choose|g: int|
                    0 <= g < before.len() && self.belongs(
                        done[i],
                        (#[trigger] before[g]).rank,
                        before[g].folder,
                    );
                assert(after[g].rank == before[g].rank && after[g].folder == before[g].folder);
            } else {
                assert(self.belongs(entry, after[at].rank, after[at].folder));
            }
        }
    }

    proof fn grouping_grows_by_one(
        self,
        before: Seq<Group>,
        fresh: Group,
        done: Seq<(usize, Course)>,
        entry: (usize, Course),
        at: int,
    )
        requires
            self.wf(),
            self.is_grouping(before, done),
            0 <= at <= before.len(),
            self.belongs(entry, fresh.rank, fresh.folder),
            fresh.entries@ == seq![entry],
            forall|g: int| 0 <= g < at ==> group_before(#[trigger] before[g], fresh),
            at < before.len() ==> group_before(fresh, before[at]),
        ensures
            self.is_grouping(before.insert(at, fresh), done.push(entry)),
    {
        let after = before.insert(at, fresh);
        let more = done.push(entry);
        assert forall|g: int| at <= g < before.len() implies group_before(fresh, #[trigger] before[g]) by {
            if g > at {
                assert(group_before(before[at], before[g]));
            }
        }
        assert forall|i: int| 0 <= i < done.len() implies !self.belongs(
            #[trigger] done[i],
            fresh.rank,
            fresh.folder,
        ) by {
            if self.belongs(done[i], fresh.rank, fresh.folder) {
                assert(self.is_grouped(before, done[i]));
                let g = choose|g: int|
                    0 <= g < before.len() && self.belongs(
                        done[i],
                        (#[trigger] before[g]).rank,
                        before[g].folder,
                    );
                self.one_group(
                    done[i],
                    fresh.rank,
                    fresh.folder,
                    before[g].rank,
                    before[g].folder,
                );
                if g < at {
                    assert(group_before(before[g], fresh));
                } else {
                    assert(group_before(fresh, before[g]));
                }
            }
        }
        self.no_members(done, fresh.rank, fresh.folder);
        self.members_grow(done, entry, fresh.rank, fresh.folder);
        assert(self.members(done, fresh.rank, fresh.folder) =~= Seq::empty());
        assert(self.members(more, fresh.rank, fresh.folder) =~= seq![entry]);
        assert forall|g: int| 0 <= g < after.len() implies {
            &&& (#[trigger] after[g]).entries@ == self.members(
                more,
                after[g].rank,
                after[g].folder,
            )
            &&& after[g].entries@.len() > 0
            &&& after[g].rank < self.root_order@.len()
        } by {
            if g != at {
                let k = if g < at {
                    g
                } else {
                    g - 1
                };
                let own = before[k];
                assert(after[g] == own);
                self.members_grow(done, entry, own.rank, own.folder);
                if self.belongs(entry, own.rank, own.folder) {
                    self.one_group(entry, own.rank, own.folder, fresh.rank, fresh.folder);
                    if k < at {
                        assert(group_before(before[k], fresh));
                    } else {
                        assert(group_before(fresh, before[k]));
                    }
                }
            }
        }
        assert forall|a: int, b: int| 0 <= a < b < after.len() implies group_before(
            #[trigger] after[a],
            #[trigger] after[b],
        ) by {
            let i = if a < at {
                a
            } else {
                a - 1
            };
            let j = if b < at {
                b
            } else {
                b - 1
            };
            if a != at && b != at {
                assert(after[a] == before[i] && after[b] == before[j]);
                assert(group_before(before[i], before[j]));
            } else if a == at {
                assert(after[b] == before[j]);
            } else {
                assert(after[a] == before[i]);
            }
        }
        assert forall|i: int| 0 <= i < more.len() implies self.is_grouped(after, #[trigger] more[i]) by {
            if i < done.len() {
                assert(more[i] == done[i]);
                assert(self.is_grouped(before, done[i]));
                let g = choose|g: int|
                    0 <= g < before.len() && self.belongs(
                        done[i],
                        (#[trigger] before[g]).rank,
                        before[g].folder,
                    );
                let k = if g < at {
                    g
                } else {
                    g + 1
                };
                assert(after[k] == before[g]);
            } else {
                assert(after[at] == fresh);
            }
        }
    }
}

/// A library that was found in a list is in it.
proof fn registered_is_in(
    libraries: Seq<LibraryLocation>,
    location: crate::notes::CourseLocation,
)
    requires
        crate::notes::registered(libraries, location) is Some,
    ensures
        libraries.contains(crate::notes::registered(libraries, location)->0),
    decreases libraries.len(),
{
    let found = crate::notes::registered(libraries, location)->0;
    if libraries[0].id@ == location.id@ && libraries[0].root@ == location.root@ {
        assert(libraries[0] == found);
    } else {
        let rest = libraries.skip(1);
        registered_is_in(rest, location);
        let k = rest.index_of(found);
        assert(libraries[k + 1] == found);
    }
}

// ------------------------------------------------------------------- assembly

fn list_items(entries: Vec<(usize, Course)>, items: &mut Vec<LibraryItem>)
    ensures
        item_views(final(items)@) == item_views(old(items)@) + list_rows(entries@),
{
    let ghost all = entries@;
    let ghost front = item_views(items@);
    assert(front + list_rows(all.take(0)) =~= front);
    for entry in it: entries
        invariant
            it.seq() == all,
            item_views(items@) == front + list_rows(all.take(it.index() as int)),
    {
        let ghost n = it.index() as int;
        let ghost before = item_views(items@);
        let (index, course) = entry;
        let ghost row = ItemModel::ListRow(index, course);
        items.push(LibraryItem::ListRow(index, Box::new(course)));
        assert(item_views(items@) =~= before.push(row));
        assert(list_rows(all.take(n + 1)) =~= list_rows(all.take(n)).push(row));
        assert(item_views(items@) =~= front + list_rows(all.take(n + 1)));
    }
    assert(all.take(all.len() as int) =~= all);
}

/// Notes in rows of cards.
pub open spec fn card_rows(entries: Seq<(usize, Course)>, columns: nat) -> Seq<ItemModel>
    decreases entries.len(),
{
    if entries.len() == 0 || columns == 0 {
        Seq::empty()
    } else if entries.len() <= columns {
        seq![ItemModel::CardRow(entries)]
    } else {
        seq![ItemModel::CardRow(entries.take(columns as int))] + card_rows(
            entries.skip(columns as int),
            columns,
        )
    }
}

/// Notes in a list.
pub open spec fn list_rows(entries: Seq<(usize, Course)>) -> Seq<ItemModel> {
    Seq::new(entries.len(), |i: int| ItemModel::ListRow(entries[i].0, entries[i].1))
}

impl LibraryView {
    /// The identity of a group: its library and folder.
    pub open spec fn group_key(self, group: Group) -> Seq<char> {
        let root = self.root_order@[group.rank as int]@;
        (match library_at(self.libraries@, root) {
            Some(library) => library.id@,
            None => root,
        }) + ":"@ + decimal(group.folder as nat)
    }

    /// The group is folded away; a search unfolds every group.
    pub open spec fn is_collapsed(self, group: Group) -> bool {
        self.query().len() == 0 && self.registered && self.collapsed.map().contains_key(
            self.group_key(group),
        )
    }

    /// The name of a group's folder.
    pub open spec fn folder_name(self, group: Group) -> Seq<char> {
        let root = self.root_order@[group.rank as int]@;
        if self.indexes.map().contains_key(root) {
            let folders = self.indexes.map()[root].folders.map();
            if folders.contains_key(group.folder) {
                folders[group.folder]@
            } else {
                "未分类"@
            }
        } else {
            "分类记录暂不可用"@
        }
    }

    /// The name of a group: with its library where there are several.
    pub open spec fn group_name(self, group: Group) -> Seq<char> {
        let root = self.root_order@[group.rank as int]@;
        if self.registered && self.libraries@.len() > 1 {
            (match library_at(self.libraries@, root) {
                Some(library) => library.name@,
                None => "课程库"@,
            }) + " · "@ + self.folder_name(group)
        } else {
            self.folder_name(group)
        }
    }

    /// The rows of the first `n` groups.
    pub open spec fn group_rows(self, groups: Seq<Group>, n: nat) -> Seq<ItemModel>
        decreases n,
    {
        if n == 0 {
            Seq::empty()
        } else {
            let group = groups[n - 1];
            let key = self.group_key(group);
            let collapsed = self.is_collapsed(group);
            self.group_rows(groups, (n - 1) as nat).push(
                ItemModel::GroupHeader {
                    index: (n - 1) as usize,
                    key,
                    name: self.group_name(group),
                    count: group.entries@.len() as usize,
                    collapsed,
                },
            ).push(
                ItemModel::GroupBody {
                    index: (n - 1) as usize,
                    key,
                    collapsed,
                    entries: group.entries@,
                },
            )
        }
    }

    /// The rows with the notes themselves.
    pub open spec fn is_body(self, rows: Seq<ItemModel>, entries: Seq<(usize, Course)>) -> bool {
        if self.group_folders && self.folder_filter is None && self.library_error is None {
            exists|groups: Seq<Group>| #[trigger]
                self.is_grouping(groups, entries) && rows == self.group_rows(groups, groups.len())
        } else if !self.cards || self.stacked {
            rows == list_rows(entries)
        } else {
            rows == card_rows(entries, self.columns as nat)
        }
    }

    /// The notices above the notes.
    pub open spec fn head(self) -> Seq<ItemModel> {
        let coverage = self.coverage();
        let recovery = if self.registered && self.notices(self.libraries@.len()).len() > 0 {
            seq![ItemModel::Recovery]
        } else {
            Seq::empty()
        };
        let reach = if coverage is Complete {
            Seq::empty()
        } else {
            seq![
                ItemModel::Coverage(
                    coverage_text(
                        coverage,
                        self.query().len() > 0,
                        self.reachable().len(),
                        self.unreachable().len(),
                    ),
                ),
            ]
        };
        let untold = self.untold(self.issues@.len());
        let issues = if untold.len() > 0 && !(coverage is Unavailable) {
            seq![ItemModel::Issues(untold)]
        } else {
            Seq::empty()
        };
        recovery + reach + issues
    }

    /// The rows of the page.
    pub open spec fn is_page(self, rows: Seq<ItemModel>) -> bool {
        let entries = self.shown(self.courses@.len());
        let coverage = self.coverage();
        let searching = self.query().len() > 0;
        if self.access is None {
            rows == seq![ItemModel::Checking]
        } else if self.loading {
            rows == self.head().push(ItemModel::Loading)
        } else if coverage is Unavailable {
            rows == self.head()
        } else if entries.len() == 0 {
            if !searching && (coverage is Partial || self.issues@.len() > 0) {
                rows == self.head()
            } else {
                rows == self.head().push(ItemModel::Empty { partial: coverage is Partial })
            }
        } else {
            let front = if searching {
                self.head().push(
                    ItemModel::SearchScope(
                        search_text(self.search@, self.folder_filter is Some, entries.len()),
                    ),
                )
            } else {
                self.head()
            };
            exists|body: Seq<ItemModel>| #[trigger]
                self.is_body(body, entries) && rows == front + body
        }
    }

    fn group_items(&self, groups: Vec<Group>, items: &mut Vec<LibraryItem>)
        requires
            self.wf(),
            forall|g: int|
                0 <= g < groups@.len() ==> (#[trigger] groups@[g]).rank < self.root_order@.len(),
        ensures
            item_views(final(items)@) == item_views(old(items)@) + self.group_rows(
                groups@,
                groups@.len(),
            ),
    {
        let query = lowercase(self.search.as_str());
        let searching = !query.as_str().is_empty();
        let ghost all = groups@;
        let ghost front = item_views(items@);
        let total: usize = groups.len();
        let mut index: usize = 0;
        assert(front + self.group_rows(all, 0) =~= front);
        for group in it: groups
            invariant
                self.wf(),
                it.seq() == all,
                total == all.len(),
                index == it.index(),
                searching == (self.query().len() > 0),
                forall|g: int|
                    0 <= g < all.len() ==> (#[trigger] all[g]).rank < self.root_order@.len(),
                item_views(items@) == front + self.group_rows(all, it.index() as nat),
        {
            let ghost own = group;
            assert(own == all[index as int]);
            let root = &self.root_order[group.rank];
            let location = find_library(&self.libraries, root.as_str());
            let mut key = match location {
                Some(i) => self.libraries[i].id.clone(),
                None => root.clone(),
            };
            key.append(":");
            key.append(number(group.folder).as_str());
            assert(key@ == self.group_key(own));
            let collapsed = !searching && self.registered && self.collapsed.contains(&key);
            let folder = match self.indexes.get(root) {
                Some(index) => match index.folders.get(&group.folder) {
                    Some(name) => name.clone(),
                    None => "未分类".to_owned(),
                },
                None => "分类记录暂不可用".to_owned(),
            };
            let name = if self.registered && self.libraries.len() > 1 {
                let library = match location {
                    Some(i) => self.libraries[i].name.as_str(),
                    None => "课程库",
                };
                join3(library, " · ", folder.as_str())
            } else {
                folder
            };
            let count = group.entries.len();
            let ghost before = item_views(items@);
            items.push(
                LibraryItem::GroupHeader(
                    Box::new(
                        LibraryGroupHeader { index, key: key.clone(), name, count, collapsed },
                    ),
                ),
            );
            items.push(
                LibraryItem::GroupBody(
                    Box::new(LibraryGroupBody { index, key, collapsed, entries: group.entries }),
                ),
            );
            proof {
                let header = ItemModel::GroupHeader {
                    index,
                    key: self.group_key(own),
                    name: self.group_name(own),
                    count,
                    collapsed,
                };
                let body = ItemModel::GroupBody {
                    index,
                    key: self.group_key(own),
                    collapsed,
                    entries: own.entries@,
                };
                assert(item_views(items@) =~= before.push(header).push(body));
                let rows = self.group_rows(all, index as nat);
                assert(self.group_rows(all, (index + 1) as nat) == rows.push(header).push(body));
                assert((front + rows).push(header).push(body) =~= front + rows.push(header).push(
                    body,
                ));
            }
            assert(index < total);
            index += 1;
        }
    }

    fn body_items(&self, entries: Vec<(usize, Course)>, items: &mut Vec<LibraryItem>)
        requires
            self.wf(),
        ensures
            exists|body: Seq<ItemModel>| #[trigger]
                self.is_body(body, entries@) && item_views(final(items)@) == item_views(
                    old(items)@,
                ) + body,
    {
        let ghost all = entries@;
        let ghost front = item_views(items@);
        if self.group_folders && self.folder_filter.is_none() && self.library_error.is_none() {
            let groups = self.grouped(entries);
            let ghost made = groups@;
            self.group_items(groups, items);
            assert(self.is_grouping(made, all));
            assert(self.is_body(self.group_rows(made, made.len()), all));
        } else if !self.cards || self.stacked {
            list_items(entries, items);
            assert(self.is_body(list_rows(all), all));
        } else {
            self.card_items(entries, items);
            assert(self.is_body(card_rows(all, self.columns as nat), all));
        }
    }

    /// The notes of a group: in a list, or in rows of cards.
    pub fn course_collection(&self, entries: Vec<(usize, Course)>) -> (result: Vec<LibraryItem>)
        requires
            self.columns >= 1,
        ensures
            item_views(result@) == (if !self.cards || self.stacked {
                list_rows(entries@)
            } else {
                card_rows(entries@, self.columns as nat)
            }),
    {
        let ghost all = entries@;
        let mut items: Vec<LibraryItem> = Vec::new();
        assert(item_views(items@) =~= Seq::empty());
        if !self.cards || self.stacked {
            list_items(entries, &mut items);
            assert(Seq::<ItemModel>::empty() + list_rows(all) =~= list_rows(all));
        } else {
            self.card_items(entries, &mut items);
            assert(Seq::<ItemModel>::empty() + card_rows(all, self.columns as nat) =~= card_rows(
                all,
                self.columns as nat,
            ));
        }
        items
    }

    fn card_items(&self, entries: Vec<(usize, Course)>, items: &mut Vec<LibraryItem>)
        requires
            self.columns >= 1,
        ensures
            item_views(final(items)@) == item_views(old(items)@) + card_rows(
                entries@,
                self.columns as nat,
            ),
    {
        let columns = self.columns;
        let mut rest = entries;
        let ghost front = item_views(items@);
        let ghost all = rest@;
        while rest.len() > columns
            invariant
                columns >= 1,
                columns == self.columns,
                item_views(items@) + card_rows(rest@, columns as nat) == front + card_rows(
                    all,
                    columns as nat,
                ),
            decreases rest@.len(),
        {
            let ghost before = rest@;
            let ghost shown = item_views(items@);
            let tail = rest.split_off(columns);
            let ghost row = ItemModel::CardRow(before.take(columns as int));
            assert(rest@ =~= before.take(columns as int));
            assert(tail@ =~= before.skip(columns as int));
            items.push(LibraryItem::CardRow(rest));
            assert(item_views(items@) =~= shown.push(row));
            rest = tail;
            assert(shown + (seq![row] + card_rows(rest@, columns as nat)) =~= shown.push(row)
                + card_rows(rest@, columns as nat));
        }
        if rest.len() > 0 {
            let ghost shown = item_views(items@);
            let ghost row = ItemModel::CardRow(rest@);
            items.push(LibraryItem::CardRow(rest));
            assert(item_views(items@) =~= shown + seq![row]);
        } else {
            assert(item_views(items@) + Seq::<ItemModel>::empty() =~= item_views(items@));
        }
    }

    /// The rows of the library page.
    pub fn library_page(&self) -> (result: Vec<LibraryItem>)
        requires
            self.wf(),
        ensures
            self.is_page(item_views(result@)),
    {
        let mut items: Vec<LibraryItem> = Vec::new();
        let access = match &self.access {
            Some(access) => access,
            None => {
                items.push(LibraryItem::Checking);
                assert(item_views(items@) =~= seq![ItemModel::Checking]);
                return items;
            },
        };
        let filtered = self.folder_filter.is_some();
        let scope = LibraryAccess {
            available: scoped(&access.available, filtered, self.library_root.as_str()),
            unavailable: scoped(&access.unavailable, filtered, self.library_root.as_str()),
        };
        assert(texts(scope.available@).len() == scope.available@.len());
        assert(texts(scope.unavailable@).len() == scope.unavailable@.len());
        let coverage = scope.coverage();
        let query = lowercase(self.search.as_str());
        let searching = !query.as_str().is_empty();
        let entries = self.shown_courses(query.as_str(), &scope.available);
        let notices = self.recovery_notices();
        assert(notice_views(notices@).len() == notices@.len());
        if !notices.is_empty() {
            items.push(LibraryItem::Recovery);
        }
        if !matches!(coverage, LibraryCoverage::Complete) {
            items.push(
                LibraryItem::Coverage(
                    coverage_message(
                        coverage,
                        searching,
                        scope.available.len(),
                        scope.unavailable.len(),
                    ),
                ),
            );
        }
        let untold = self.remaining_issues();
        assert(texts(untold@).len() == untold@.len());
        if !untold.is_empty() && !matches!(coverage, LibraryCoverage::Unavailable) {
            items.push(LibraryItem::Issues(untold));
        }
        assert(item_views(items@) =~= self.head());
        let ghost head = item_views(items@);
        if self.loading {
            items.push(LibraryItem::Loading);
            assert(item_views(items@) =~= head.push(ItemModel::Loading));
            return items;
        }
        if matches!(coverage, LibraryCoverage::Unavailable) {
            return items;
        }
        let partial = matches!(coverage, LibraryCoverage::Partial);
        if entries.is_empty() {
            if !searching && (partial || !self.issues.is_empty()) {
                return items;
            }
            items.push(LibraryItem::Empty { partial });
            assert(item_views(items@) =~= head.push(ItemModel::Empty { partial }));
            return items;
        }
        if searching {
            items.push(
                LibraryItem::SearchScope(
                    search_message(self.search.as_str(), filtered, entries.len()),
                ),
            );
            assert(item_views(items@) =~= head.push(
                ItemModel::SearchScope(search_text(self.search@, filtered, entries@.len())),
            ));
        }
        self.body_items(entries, &mut items);
        items
    }
}


/// Folds a group away, or unfolds it. Says whether it was folded.
pub fn toggle_group(collapsed: &mut Table<String, ()>, key: &String) -> (result: bool)
    requires
        old(collapsed).wf(),
    ensures
        final(collapsed).wf(),
        result == !old(collapsed).map().contains_key(key@),
        final(collapsed).map() == (if result {
            old(collapsed).map().insert(key@, ())
        } else {
            old(collapsed).map().remove(key@)
        }),
{
    let folded = collapsed.remove(key).is_none();
    if folded {
        collapsed.insert(key.clone(), ());
        assert(collapsed.map() =~= old(collapsed).map().insert(key@, ()));
    }
    folded
}

/// Whether the search and the filters are shown: not while the library is empty and
/// nothing narrows it.
pub fn library_controls_visible(
    courses: usize,
    folder_filter: Option<u64>,
    search: &str,
    failed: bool,
    issues: usize,
    loading: bool,
) -> (result: bool)
    ensures
        result == (courses > 0 || folder_filter is Some || search@.len() > 0 || failed || issues > 0
            || loading),
{
    courses > 0 || folder_filter.is_some() || !search.is_empty() || failed || issues > 0 || loading
}

/// What an empty page says: its heading and its description.
pub fn empty_texts(searching: bool, partial: bool, has_issues: bool, filtered: bool) -> (result: (
    &'static str,
    &'static str,
))
    ensures
        result.0@ == (if searching {
            if partial || has_issues {
                "已读取的笔记中没有匹配的笔记。"@
            } else {
                "没有匹配的笔记"@
            }
        } else if filtered {
            "这个文件夹还没有笔记"@
        } else {
            "还没有笔记"@
        }),
        result.1@ == (if searching {
            if partial {
                "未连接的位置尚未搜索。可以重新连接保存位置，或调整关键词。"@
            } else {
                "试试更短的关键词。"@
            }
        } else if filtered {
            "从全部笔记中选择内容，移到这个文件夹。"@
        } else {
            "导入视频，生成的内容会保存在这里"@
        }),
{
    let heading = if searching {
        if partial || has_issues {
            "已读取的笔记中没有匹配的笔记。"
        } else {
            "没有匹配的笔记"
        }
    } else if filtered {
        "这个文件夹还没有笔记"
    } else {
        "还没有笔记"
    };
    let description = if searching {
        if partial {
            "未连接的位置尚未搜索。可以重新连接保存位置，或调整关键词。"
        } else {
            "试试更短的关键词。"
        }
    } else if filtered {
        "从全部笔记中选择内容，移到这个文件夹。"
    } else {
        "导入视频，生成的内容会保存在这里"
    };
    (heading, description)
}

/// What a person is told after the folders of a library were recovered.
pub fn recovered_message(rebuilt: bool, preserved: &str) -> (result: String)
    ensures
        result@ == "分类已"@ + (if rebuilt {
            "重建"@
        } else {
            "恢复"@
        }) + "，原损坏记录保留在 "@ + preserved@ + "。笔记正文和显示名称仍保留。"@,
{
    let mut text = "分类已".to_owned();
    text.append(
        if rebuilt {
            "重建"
        } else {
            "恢复"
        },
    );
    text.append("，原损坏记录保留在 ");
    text.append(preserved);
    text.append("。笔记正文和显示名称仍保留。");
    text
}

// ----------------------------------------------------------------------- laws

/// The notes in rows of cards, one row after the other.
pub open spec fn cards_in(rows: Seq<ItemModel>) -> Seq<(usize, Course)>
    decreases rows.len(),
{
    if rows.len() == 0 {
        Seq::empty()
    } else {
        (match rows[0] {
            ItemModel::CardRow(row) => row,
            _ => Seq::empty(),
        }) + cards_in(rows.skip(1))
    }
}

/// Rows of cards show every note once and in its order, and no row is wider than
/// the page.
pub proof fn cards_show_every_note(entries: Seq<(usize, Course)>, columns: nat)
    requires
        columns >= 1,
    ensures
        cards_in(card_rows(entries, columns)) == entries,
        forall|i: int|
            0 <= i < card_rows(entries, columns).len() ==> ((#[trigger] card_rows(
                entries,
                columns,
            )[i]) matches ItemModel::CardRow(row) && 0 < row.len() <= columns),
    decreases entries.len(),
{
    let rows = card_rows(entries, columns);
    if entries.len() == 0 {
        assert(cards_in(rows) =~= entries);
    } else if entries.len() <= columns {
        assert(rows.skip(1) =~= Seq::empty());
        assert(cards_in(rows.skip(1)) =~= Seq::empty());
        assert(cards_in(rows) =~= entries);
    } else {
        let rest = entries.skip(columns as int);
        cards_show_every_note(rest, columns);
        let tail = card_rows(rest, columns);
        assert(rows.skip(1) =~= tail);
        assert(cards_in(rows) =~= entries);
        assert forall|i: int| 0 <= i < rows.len() implies ((
        #[trigger] rows[i]) matches ItemModel::CardRow(row) && 0 < row.len() <= columns) by {
            if i > 0 {
                assert(rows[i] == tail[i - 1]);
            }
        }
    }
}

/// The notice about a library that cannot be read owns the issues about it: what was
/// said of its folders or of its names is in no other place.
pub proof fn a_notice_owns_its_issues(view: LibraryView, i: int, error: Seq<char>)
    requires
        view.registered,
        0 <= i < view.libraries@.len(),
        !view.is_cut_off(view.libraries@[i]),
    ensures
        view.cache.recovery.map().contains_key(view.libraries@[i].root@) ==> !view.untold(
            view.issues@.len(),
        ).contains(view.libraries@[i].name@ + "的文件夹记录暂时无法读取："@ + error),
        view.cache.title_recovery.map().contains_key(view.libraries@[i].root@) ==> !view.untold(
            view.issues@.len(),
        ).contains(view.libraries@[i].name@ + "的显示名称尚未读取："@ + error),
{
    let library = view.libraries@[i];
    let folders = folder_issue(library) + error;
    let names = name_issue(library) + error;
    assert(folders.subrange(0, folder_issue(library).len() as int) =~= folder_issue(library));
    assert(names.subrange(0, name_issue(library).len() as int) =~= name_issue(library));
    if view.cache.recovery.map().contains_key(library.root@) {
        assert(view.tells(library, folders));
        untold_is_not_told(view, view.issues@.len(), folders);
    }
    if view.cache.title_recovery.map().contains_key(library.root@) {
        assert(view.tells(library, names));
        untold_is_not_told(view, view.issues@.len(), names);
    }
}

proof fn untold_is_not_told(view: LibraryView, n: nat, issue: Seq<char>)
    requires
        view.is_told(issue),
    ensures
        !view.untold(n).contains(issue),
    decreases n,
{
    if n > 0 {
        untold_is_not_told(view, (n - 1) as nat, issue);
        let before = view.untold((n - 1) as nat);
        let all = view.untold(n);
        if all.contains(issue) {
            let k = choose|k: int| 0 <= k < all.len() && all[k] == issue;
            if k < before.len() {
                assert(before[k] == issue);
            }
        }
    }
}

/// Each shown note is in one group, and in one only.
pub proof fn each_note_is_in_one_group(
    view: LibraryView,
    groups: Seq<Group>,
    entries: Seq<(usize, Course)>,
    i: int,
    a: int,
    b: int,
)
    requires
        view.wf(),
        view.is_grouping(groups, entries),
        0 <= i < entries.len(),
        0 <= a < groups.len(),
        0 <= b < groups.len(),
        view.belongs(entries[i], groups[a].rank, groups[a].folder),
        view.belongs(entries[i], groups[b].rank, groups[b].folder),
    ensures
        a == b,
        view.is_grouped(groups, entries[i]),
{
    view.one_group(
        entries[i],
        groups[a].rank,
        groups[a].folder,
        groups[b].rank,
        groups[b].folder,
    );
    if a < b {
        assert(group_before(groups[a], groups[b]));
    }
    if b < a {
        assert(group_before(groups[b], groups[a]));
    }
}

/// A narrower search shows no other notes: what holds the longer text holds each
/// part of it.
pub proof fn a_longer_search_shows_fewer_notes(title: Seq<char>, query: Seq<char>, part: Seq<char>)
    requires
        holds(title, query),
        holds(query, part),
    ensures
        holds(title, part),
{
    let i = choose|i: int| #[trigger] crate::text::occurs_at(title, query, i);
    let j = choose|j: int| #[trigger] crate::text::occurs_at(query, part, j);
    assert(title.subrange(i + j, i + j + part.len()) =~= query.subrange(j, j + part.len()));
    assert(crate::text::occurs_at(title, part, i + j));
}

// ------------------------------------------------------------- notes on the page

/// The row shows this note, under this place.
pub open spec fn row_shows(row: ItemModel, entry: (usize, Course)) -> bool {
    match row {
        ItemModel::GroupBody { entries, .. } => entries.contains(entry),
        ItemModel::CardRow(entries) => entries.contains(entry),
        ItemModel::ListRow(place, course) => entry == (place, course),
        _ => false,
    }
}

/// One of the rows shows this note, under this place.
pub open spec fn page_shows(rows: Seq<ItemModel>, entry: (usize, Course)) -> bool {
    exists|r: int| 0 <= r < rows.len() && row_shows(#[trigger] rows[r], entry)
}

proof fn shown_are_courses(view: LibraryView, n: nat, k: int)
    requires
        n <= view.courses@.len() <= usize::MAX,
        0 <= k < view.shown(n).len(),
    ensures
        view.shown(n)[k].0 < n,
        view.shown(n)[k].1 == view.courses@[view.shown(n)[k].0 as int],
        view.is_shown(view.shown(n)[k].1),
        forall|j: int| 0 <= j < k ==> (#[trigger] view.shown(n)[j]).0 < view.shown(n)[k].0,
    decreases n,
{
    if n > 0 {
        let before = view.shown((n - 1) as nat);
        assert forall|j: int| 0 <= j < k implies (#[trigger] view.shown(n)[j]).0 < view.shown(
            n,
        )[k].0 by {
            if k < before.len() {
                shown_are_courses(view, (n - 1) as nat, k);
                assert(view.shown(n)[j] == before[j]);
            } else {
                shown_are_courses(view, (n - 1) as nat, j);
            }
        }
        if k < before.len() {
            shown_are_courses(view, (n - 1) as nat, k);
            assert(view.shown(n)[k] == before[k]);
        }
    }
}

proof fn courses_are_shown(view: LibraryView, n: nat, place: usize)
    requires
        place < n <= view.courses@.len() <= usize::MAX,
        view.is_shown(view.courses@[place as int]),
    ensures
        view.shown(n).contains((place, view.courses@[place as int])),
    decreases n,
{
    let before = view.shown((n - 1) as nat);
    let all = view.shown(n);
    let entry = (place, view.courses@[place as int]);
    if place == n - 1 {
        assert(all[before.len() as int] == entry);
    } else {
        courses_are_shown(view, (n - 1) as nat, place);
        let k = choose|k: int| 0 <= k < before.len() && before[k] == entry;
        assert(all[k] == entry);
    }
}

#[verifier::rlimit(40)]
proof fn cards_show_their_notes(entries: Seq<(usize, Course)>, columns: nat, entry: (usize, Course))
    requires
        columns >= 1,
    ensures
        page_shows(card_rows(entries, columns), entry) <==> entries.contains(entry),
    decreases entries.len(),
{
    let rows = card_rows(entries, columns);
    if entries.len() > 0 && entries.len() <= columns {
        assert(rows[0] == ItemModel::CardRow(entries));
        if entries.contains(entry) {
            assert(row_shows(rows[0], entry));
        }
    } else if entries.len() > 0 {
        let first = entries.take(columns as int);
        let rest = entries.skip(columns as int);
        let tail = card_rows(rest, columns);
        cards_show_their_notes(rest, columns, entry);
        assert(rows[0] == ItemModel::CardRow(first));
        if entries.contains(entry) {
            let k = choose|k: int| 0 <= k < entries.len() && entries[k] == entry;
            if k < columns {
                assert(first[k] == entry);
                assert(row_shows(rows[0], entry));
            } else {
                assert(rest[k - columns] == entry);
                let r = choose|r: int| 0 <= r < tail.len() && row_shows(#[trigger] tail[r], entry);
                assert(rows[r + 1] == tail[r]);
            }
        }
        if page_shows(rows, entry) {
            let r = choose|r: int| 0 <= r < rows.len() && row_shows(#[trigger] rows[r], entry);
            if r == 0 {
                let k = choose|k: int| 0 <= k < first.len() && first[k] == entry;
                assert(entries[k] == entry);
            } else {
                assert(rows[r] == tail[r - 1]);
                let k = choose|k: int| 0 <= k < rest.len() && rest[k] == entry;
                assert(entries[k + columns] == entry);
            }
        }
    }
}

proof fn members_are(
    view: LibraryView,
    entries: Seq<(usize, Course)>,
    rank: usize,
    folder: u64,
    entry: (usize, Course),
)
    ensures
        view.members(entries, rank, folder).contains(entry) <==> entries.contains(entry)
            && view.belongs(entry, rank, folder),
    decreases entries.len(),
{
    if entries.len() > 0 {
        let front = entries.drop_last();
        members_are(view, front, rank, folder, entry);
        let before = view.members(front, rank, folder);
        let all = view.members(entries, rank, folder);
        if all.contains(entry) {
            let k = choose|k: int| 0 <= k < all.len() && all[k] == entry;
            if k < before.len() {
                assert(before[k] == entry);
                let j = choose|j: int| 0 <= j < front.len() && front[j] == entry;
                assert(entries[j] == entry);
            } else {
                assert(entries[entries.len() - 1] == entry);
            }
        }
        if entries.contains(entry) && view.belongs(entry, rank, folder) {
            let j = choose|j: int| 0 <= j < entries.len() && entries[j] == entry;
            if j < front.len() {
                assert(front[j] == entry);
                let k = choose|k: int| 0 <= k < before.len() && before[k] == entry;
                assert(all[k] == entry);
            } else {
                assert(all[before.len() as int] == entry);
            }
        }
    }
}

proof fn group_rows_are(view: LibraryView, groups: Seq<Group>, n: nat, r: int)
    requires
        n <= groups.len(),
        0 <= r < view.group_rows(groups, n).len(),
    ensures
        view.group_rows(groups, n).len() == 2 * n,
        r % 2 == 0 ==> view.group_rows(groups, n)[r] is GroupHeader && view.group_rows(
            groups,
            n,
        )[r]->GroupHeader_count == groups[r / 2].entries@.len() as usize,
        r % 2 == 1 ==> view.group_rows(groups, n)[r] is GroupBody && view.group_rows(
            groups,
            n,
        )[r]->GroupBody_entries == groups[r / 2].entries@,
    decreases n,
{
    group_rows_len(view, groups, n);
    if n > 0 {
        let m = (n - 1) as nat;
        group_rows_len(view, groups, m);
        let before = view.group_rows(groups, m);
        if r < before.len() {
            group_rows_are(view, groups, m, r);
            assert(view.group_rows(groups, n)[r] == before[r]);
        }
    }
}

proof fn group_rows_len(view: LibraryView, groups: Seq<Group>, n: nat)
    ensures
        view.group_rows(groups, n).len() == 2 * n,
    decreases n,
{
    if n > 0 {
        group_rows_len(view, groups, (n - 1) as nat);
    }
}

#[verifier::rlimit(40)]
proof fn body_shows(
    view: LibraryView,
    rows: Seq<ItemModel>,
    entries: Seq<(usize, Course)>,
    entry: (usize, Course),
)
    requires
        view.wf(),
        view.is_body(rows, entries),
    ensures
        page_shows(rows, entry) <==> entries.contains(entry),
{
    if view.group_folders && view.folder_filter is None && view.library_error is None {
        let groups = choose|groups: Seq<Group>| #[trigger]
            view.is_grouping(groups, entries) && rows == view.group_rows(groups, groups.len());
        group_rows_len(view, groups, groups.len());
        if page_shows(rows, entry) {
            let r = choose|r: int| 0 <= r < rows.len() && row_shows(#[trigger] rows[r], entry);
            group_rows_are(view, groups, groups.len(), r);
            let g = r / 2;
            assert(groups[g].entries@.contains(entry));
            members_are(view, entries, groups[g].rank, groups[g].folder, entry);
        }
        if entries.contains(entry) {
            let i = choose|i: int| 0 <= i < entries.len() && entries[i] == entry;
            assert(view.is_grouped(groups, entries[i]));
            let g = choose|g: int|
                0 <= g < groups.len() && view.belongs(
                    entry,
                    (#[trigger] groups[g]).rank,
                    groups[g].folder,
                );
            members_are(view, entries, groups[g].rank, groups[g].folder, entry);
            group_rows_are(view, groups, groups.len(), 2 * g + 1);
            assert((2 * g + 1) / 2 == g);
            assert(row_shows(rows[2 * g + 1], entry));
        }
    } else if !view.cards || view.stacked {
        if page_shows(rows, entry) {
            let r = choose|r: int| 0 <= r < rows.len() && row_shows(#[trigger] rows[r], entry);
            assert(entries[r] == entry);
        }
        if entries.contains(entry) {
            let i = choose|i: int| 0 <= i < entries.len() && entries[i] == entry;
            assert(row_shows(rows[i], entry));
        }
    } else {
        cards_show_their_notes(entries, view.columns as nat, entry);
    }
}

proof fn front_shows_nothing(front: Seq<ItemModel>, body: Seq<ItemModel>, entry: (usize, Course))
    requires
        forall|r: int| 0 <= r < front.len() ==> !row_shows(#[trigger] front[r], entry),
    ensures
        page_shows(front + body, entry) <==> page_shows(body, entry),
{
    let rows = front + body;
    if page_shows(rows, entry) {
        let r = choose|r: int| 0 <= r < rows.len() && row_shows(#[trigger] rows[r], entry);
        if r < front.len() {
            assert(rows[r] == front[r]);
        } else {
            assert(rows[r] == body[r - front.len()]);
        }
    }
    if page_shows(body, entry) {
        let r = choose|r: int| 0 <= r < body.len() && row_shows(#[trigger] body[r], entry);
        assert(rows[front.len() + r] == body[r]);
    }
}

#[verifier::rlimit(40)]
proof fn page_shows_the_shown(view: LibraryView, rows: Seq<ItemModel>, entry: (usize, Course))
    requires
        view.wf(),
        view.is_page(rows),
    ensures
        page_shows(rows, entry) ==> view.shown(view.courses@.len()).contains(entry),
        view.access is Some && !view.loading && !(view.coverage() is Unavailable) ==> (page_shows(
            rows,
            entry,
        ) <==> view.shown(view.courses@.len()).contains(entry)),
{
    let entries = view.shown(view.courses@.len());
    let head = view.head();
    assert forall|r: int| 0 <= r < head.len() implies !row_shows(#[trigger] head[r], entry) by {}
    front_shows_nothing(head, Seq::empty(), entry);
    assert(head + Seq::<ItemModel>::empty() =~= head);
    if view.access is Some && !view.loading && !(view.coverage() is Unavailable) && entries.len()
        > 0 {
        let front = if view.query().len() > 0 {
            head.push(
                ItemModel::SearchScope(
                    search_text(view.search@, view.folder_filter is Some, entries.len()),
                ),
            )
        } else {
            head
        };
        let body = choose|body: Seq<ItemModel>| #[trigger]
            view.is_body(body, entries) && rows == front + body;
        assert forall|r: int| 0 <= r < front.len() implies !row_shows(#[trigger] front[r], entry) by {
            if r < head.len() {
                assert(front[r] == head[r]);
            }
        }
        front_shows_nothing(front, body, entry);
        body_shows(view, body, entries, entry);
    } else if page_shows(rows, entry) {
        let r = choose|r: int| 0 <= r < rows.len() && row_shows(#[trigger] rows[r], entry);
        if r < head.len() {
            assert(view.access is Some ==> rows[r] == head[r]);
        }
    }
}

proof fn scope_is(roots: Seq<Seq<char>>, filtered: bool, root: Seq<char>, n: nat, one: Seq<char>)
    requires
        n <= roots.len(),
    ensures
        roots_in_scope(roots, filtered, root, n).contains(one) <==> roots.take(n as int).contains(one)
            && (!filtered || one == root),
    decreases n,
{
    let all = roots_in_scope(roots, filtered, root, n);
    if n > 0 {
        let m = (n - 1) as nat;
        scope_is(roots, filtered, root, m, one);
        let before = roots_in_scope(roots, filtered, root, m);
        if all.contains(one) {
            let k = choose|k: int| 0 <= k < all.len() && all[k] == one;
            if k < before.len() {
                assert(before[k] == one);
                let j = choose|j: int| 0 <= j < m && roots.take(m as int)[j] == one;
                assert(roots.take(n as int)[j] == one);
            } else {
                assert(roots.take(n as int)[m as int] == one);
            }
        }
        if roots.take(n as int).contains(one) && (!filtered || one == root) {
            let j = choose|j: int| 0 <= j < n && roots.take(n as int)[j] == one;
            if j < m {
                assert(roots.take(m as int)[j] == one);
                let k = choose|k: int| 0 <= k < before.len() && before[k] == one;
                assert(all[k] == one);
            } else {
                assert(all[before.len() as int] == one);
            }
        }
    }
}

proof fn reachable_is(view: LibraryView, access: LibraryAccess, root: Seq<char>)
    requires
        view.access == Some(access),
    ensures
        view.reachable().contains(root) <==> texts(access.available@).contains(root) && (
        view.folder_filter is Some ==> root == view.library_root@),
{
    let roots = texts(access.available@);
    scope_is(roots, view.folder_filter is Some, view.library_root@, roots.len(), root);
    assert(roots.take(roots.len() as int) =~= roots);
}

/// Every note on the page is one of the library's, under its own place. Its title holds
/// what is searched for, whatever the case of the letters and whatever folder is chosen;
/// its library can be reached; and where a folder is chosen, it is a note of that folder
/// and of the library that is shown.
#[verifier::rlimit(40)]
pub proof fn what_the_page_shows_was_asked_for(
    view: LibraryView,
    items: Vec<LibraryItem>,
    place: usize,
    course: Course,
)
    requires
        view.wf(),
        call_ensures(LibraryView::library_page, (&view,), items),
        page_shows(item_views(items@), (place, course)),
        view.courses@.len() <= usize::MAX,
    ensures
        place < view.courses@.len(),
        course == view.courses@[place as int],
        holds(lowercased(course.title@), lowercased(view.search@)),
        view.access is Some,
        view.registered ==> view.cache.library_of(view.libraries@, course.storage@) is Some,
        view.cache.locations.map().contains_key(course.storage@),
        view.cache.library_of(view.libraries@, course.storage@) matches Some(library) ==> texts(
            view.access->0.available@,
        ).contains(library.root@),
        view.folder_filter matches Some(id) ==> {
            let library = view.cache.library_of(view.libraries@, course.storage@);
            let filed = view.cache.folder_of(view.libraries@, view.indexes, course.storage@);
            &&& library is Some && library->0.root@ == view.library_root@
            &&& view.indexes.map().contains_key(view.library_root@) ==> filed == Some(id) || (filed
                is None && id == 0)
        },
{
    let rows = item_views(items@);
    let entry = (place, course);
    page_shows_the_shown(view, rows, entry);
    let entries = view.shown(view.courses@.len());
    let k = choose|k: int| 0 <= k < entries.len() && entries[k] == entry;
    shown_are_courses(view, view.courses@.len(), k);
    let access = view.access->0;
    let root = view.root_of(course);
    if view.access is Some && root is Some {
        reachable_is(view, access, root->0);
    }
}

/// Every note that is asked for and can be reached is on the page: one whose title holds
/// what is searched for, in a library that can be reached, and in the folder that is
/// chosen where one is; where the folders could not be read, all notes of the library.
#[verifier::rlimit(40)]
pub proof fn what_is_asked_for_is_on_the_page(
    view: LibraryView,
    items: Vec<LibraryItem>,
    place: usize,
    library: LibraryLocation,
)
    requires
        view.wf(),
        call_ensures(LibraryView::library_page, (&view,), items),
        view.access is Some && !view.loading,
        place < view.courses@.len() <= usize::MAX,
        ({
            let course = view.courses@[place as int];
            &&& view.cache.library_of(view.libraries@, course.storage@) == Some(library)
            &&& texts(view.access->0.available@).contains(library.root@)
            &&& holds(lowercased(course.title@), lowercased(view.search@))
            &&& view.folder_filter matches Some(id) ==> {
                &&& library.root@ == view.library_root@
                &&& !view.indexes.map().contains_key(library.root@) || view.cache.folder_of(
                    view.libraries@,
                    view.indexes,
                    course.storage@,
                ) == (if id == 0 {
                    None
                } else {
                    Some(id)
                })
            }
        }),
    ensures
        page_shows(item_views(items@), (place, view.courses@[place as int])),
{
    let course = view.courses@[place as int];
    reachable_is(view, view.access->0, library.root@);
    assert(view.root_of(course) == Some(library.root@));
    assert(view.is_shown(course));
    courses_are_shown(view, view.courses@.len(), place);
    page_shows_the_shown(view, item_views(items@), (place, course));
    let reachable = view.reachable();
    let k = choose|k: int| 0 <= k < reachable.len() && reachable[k] == library.root@;
    assert(reachable.len() > 0);
}

/// Choosing a folder only takes notes away from the page: what is shown with the folder
/// chosen is shown without it.
#[verifier::rlimit(40)]
pub proof fn a_folder_only_narrows_the_page(
    narrow: LibraryView,
    wide: LibraryView,
    narrowed: Vec<LibraryItem>,
    widened: Vec<LibraryItem>,
    entry: (usize, Course),
)
    requires
        narrow.wf(),
        wide == (LibraryView { folder_filter: None, ..narrow }),
        !wide.loading,
        narrow.courses@.len() <= usize::MAX,
        call_ensures(LibraryView::library_page, (&narrow,), narrowed),
        call_ensures(LibraryView::library_page, (&wide,), widened),
        page_shows(item_views(narrowed@), entry),
    ensures
        page_shows(item_views(widened@), entry),
{
    let all = narrow.courses@.len();
    page_shows_the_shown(narrow, item_views(narrowed@), entry);
    let entries = narrow.shown(all);
    let k = choose|k: int| 0 <= k < entries.len() && entries[k] == entry;
    shown_are_courses(narrow, all, k);
    assert(wide.wf());
    let access = narrow.access->0;
    let root = match narrow.root_of(entry.1) {
        Some(root) => root,
        None => narrow.cache.locations.map()[entry.1.storage@].root@,
    };
    assert(narrow.reachable().contains(root));
    assert(narrow.access is Some);
    reachable_is(narrow, access, root);
    reachable_is(wide, access, root);
    assert(wide.root_of(entry.1) == narrow.root_of(entry.1));
    assert(wide.is_shown(entry.1));
    courses_are_shown(wide, all, entry.0);
    let reachable = wide.reachable();
    let j = choose|j: int| 0 <= j < reachable.len() && reachable[j] == root;
    assert(reachable.len() > 0);
    page_shows_the_shown(wide, item_views(widened@), entry);
}

/// While the libraries are being checked, or notes are being read, the page shows no
/// notes and says so.
pub proof fn an_unread_page_says_so(view: LibraryView, items: Vec<LibraryItem>, entry: (usize, Course))
    requires
        view.wf(),
        call_ensures(LibraryView::library_page, (&view,), items),
    ensures
        view.access is None ==> item_views(items@) == seq![ItemModel::Checking],
        view.access is Some && view.loading ==> items@.len() > 0 && items@.last()@
            == ItemModel::Loading && !page_shows(item_views(items@), entry),
{
    let rows = item_views(items@);
    let head = view.head();
    assert(forall|r: int| 0 <= r < head.len() ==> !row_shows(#[trigger] head[r], entry));
    if view.access is Some && view.loading {
        assert(rows.last() == items@.last()@);
        if page_shows(rows, entry) {
            let r = choose|r: int| 0 <= r < rows.len() && row_shows(#[trigger] rows[r], entry);
            if r < head.len() {
                assert(rows[r] == head[r]);
            }
        }
    }
}

/// A page without notes says why, unless it tells of something that cannot be reached or
/// read: an empty library is told as such.
pub proof fn an_empty_page_says_so(view: LibraryView, items: Vec<LibraryItem>)
    requires
        view.wf(),
        call_ensures(LibraryView::library_page, (&view,), items),
        view.access is Some && !view.loading,
        view.access->0.unavailable@.len() == 0,
        view.courses@.len() == 0,
    ensures
        view.issues@.len() == 0 || lowercased(view.search@).len() > 0 ==> items@.len() > 0 && items@.last()@ == (ItemModel::Empty { partial: false }),
{
    assert(texts(view.access->0.unavailable@).len() == 0);
    assert(view.unreachable() =~= Seq::empty());
    let rows = item_views(items@);
    assert(view.coverage() is Complete);
    assert(view.shown(0) =~= Seq::empty());
    if view.issues@.len() == 0 || lowercased(view.search@).len() > 0 {
        assert(rows == view.head().push(ItemModel::Empty { partial: false }));
        assert(rows.len() == items@.len());
        assert(rows.last() == items@.last()@);
    }
}

/// Folding a group twice leaves it as it was, and touches no other.
pub proof fn folding_twice_undoes(
    first: &mut Table<String, ()>,
    second: &mut Table<String, ()>,
    key: String,
    folded: bool,
    unfolded: bool,
    other: Seq<char>,
)
    requires
        old(first).wf(),
        call_ensures(toggle_group, (first, &key), folded),
        *old(second) == *final(first),
        call_ensures(toggle_group, (second, &key), unfolded),
    ensures
        folded != unfolded,
        folded <==> final(first).map().contains_key(key@),
        final(second).map() == old(first).map(),
        other != key@ ==> (final(first).map().contains_key(other) <==> old(first).map().contains_key(
            other,
        )),
{
    assert(final(second).map() =~= old(first).map());
}

proof fn notices_are(view: LibraryView, n: nat, index: usize, k: int)
    requires
        index < n <= view.libraries@.len() <= usize::MAX,
        0 <= k < view.notices_about(index).len(),
    ensures
        view.notices(n).contains(view.notices_about(index)[k]),
    decreases n,
{
    let m = (n - 1) as nat;
    let before = view.notices(m);
    let all = view.notices(n);
    let notice = view.notices_about(index)[k];
    if index == m {
        assert(all[before.len() + k] == notice);
    } else {
        notices_are(view, m, index, k);
        let j = choose|j: int| 0 <= j < before.len() && before[j] == notice;
        assert(all[j] == notice);
    }
}

/// A library that cannot be reached is told as such, and nothing else is told of it; one whose
/// records cannot be read is told with each record that has to be recovered, and whether there
/// is a backup of it.
pub proof fn what_cannot_be_read_is_told(
    view: LibraryView,
    notices: Vec<RecoveryNotice>,
    index: usize,
)
    requires
        view.wf(),
        view.registered,
        index < view.libraries@.len() <= usize::MAX,
        call_ensures(LibraryView::recovery_notices, (&view,), notices),
    ensures
        ({
            let root = view.libraries@[index as int].root@;
            let cut_off = view.access is Some && texts(view.access->0.unavailable@).contains(root);
            &&& cut_off ==> notice_views(notices@).contains(NoticeModel::Unavailable { index })
            &&& !cut_off && view.cache.recovery.map().contains_key(root) ==> exists|k: int|
                0 <= k < notices@.len() && ((#[trigger] notices@[k])@ matches
                NoticeModel::Classification { index: own, has_backup, .. } && own == index
                    && has_backup == view.cache.recovery.map()[root].has_backup)
            &&& !cut_off && view.cache.title_recovery.map().contains_key(root) ==> exists|k: int|
                0 <= k < notices@.len() && ((#[trigger] notices@[k])@ matches NoticeModel::Names {
                    index: own,
                    has_backup,
                    ..
                } && own == index && has_backup == view.cache.title_recovery.map()[root].has_backup)
        }),
{
    let all = view.libraries@.len();
    let about = view.notices_about(index);
    let said = notice_views(notices@);
    let library = view.libraries@[index as int];
    let root = library.root@;
    if view.is_cut_off(library) {
        notices_are(view, all, index, 0);
        assert(about[0] == NoticeModel::Unavailable { index });
    } else {
        if view.cache.recovery.map().contains_key(root) {
            notices_are(view, all, index, 0);
            let k = choose|k: int| 0 <= k < said.len() && said[k] == about[0];
            assert(said[k] == notices@[k]@);
        }
        if view.cache.title_recovery.map().contains_key(root) {
            let last = about.len() - 1;
            notices_are(view, all, index, last);
            let k = choose|k: int| 0 <= k < said.len() && said[k] == about[last];
            assert(said[k] == notices@[k]@);
        }
    }
}

/// A search unfolds every group: while something is searched for none is folded away, and none
/// that was not folded ever is.
pub proof fn a_search_unfolds_every_group(view: LibraryView, group: Group)
    ensures
        lowercased(view.search@).len() > 0 ==> !view.is_collapsed(group),
        view.is_collapsed(group) ==> view.registered && view.collapsed.map().contains_key(
            view.group_key(group),
        ),
        lowercased(view.search@).len() == 0 && view.registered && view.collapsed.map().contains_key(
            view.group_key(group),
        ) ==> view.is_collapsed(group),
{
}

/// How much of what is asked for can be reached: all of it where nothing is cut off, nothing
/// where nothing else is there.
pub proof fn coverage_is_what_can_be_reached(access: LibraryAccess, coverage: LibraryCoverage)
    requires
        call_ensures(LibraryAccess::coverage, (&access,), coverage),
    ensures
        coverage is Complete <==> access.unavailable@.len() == 0,
        coverage is Unavailable <==> access.unavailable@.len() > 0 && access.available@.len() == 0,
        coverage is Partial <==> access.unavailable@.len() > 0 && access.available@.len() > 0,
{
}

proof fn head_comes_first(view: LibraryView, rows: Seq<ItemModel>, r: int)
    requires
        view.is_page(rows),
        view.access is Some,
        0 <= r < view.head().len(),
    ensures
        r < rows.len(),
        rows[r] == view.head()[r],
{
    let entries = view.shown(view.courses@.len());
    if !view.loading && !(view.coverage() is Unavailable) && entries.len() > 0 {
        let front = if view.query().len() > 0 {
            view.head().push(
                ItemModel::SearchScope(
                    search_text(view.search@, view.folder_filter is Some, entries.len()),
                ),
            )
        } else {
            view.head()
        };
        let body = choose|body: Seq<ItemModel>| #[trigger]
            view.is_body(body, entries) && rows == front + body;
        assert(rows[r] == front[r]);
    }
}

/// A page on which something cannot be reached says so.
pub proof fn a_page_tells_what_is_cut_off(view: LibraryView, items: Vec<LibraryItem>, root: Seq<char>)
    requires
        view.wf(),
        call_ensures(LibraryView::library_page, (&view,), items),
        view.access is Some,
        texts(view.access->0.unavailable@).contains(root),
        view.folder_filter is Some ==> root == view.library_root@,
    ensures
        exists|r: int| 0 <= r < items@.len() && (#[trigger] items@[r])@ is Coverage,
{
    let roots = texts(view.access->0.unavailable@);
    scope_is(roots, view.folder_filter is Some, view.library_root@, roots.len(), root);
    assert(roots.take(roots.len() as int) =~= roots);
    let cut = view.unreachable();
    let k = choose|k: int| 0 <= k < cut.len() && cut[k] == root;
    assert(!(view.coverage() is Complete));
    let head = view.head();
    let rows = item_views(items@);
    let first = if view.registered && view.notices(view.libraries@.len()).len() > 0 {
        1int
    } else {
        0int
    };
    assert(head[first] is Coverage);
    head_comes_first(view, rows, first);
    assert(rows.len() == items@.len());
    assert(rows[first] == items@[first]@);
    assert(items@[first]@ is Coverage);
}

/// An issue that no notice tells is on the page, once something can be reached.
pub proof fn an_issue_that_is_not_told_is_shown(
    view: LibraryView,
    items: Vec<LibraryItem>,
    i: int,
)
    requires
        view.wf(),
        call_ensures(LibraryView::library_page, (&view,), items),
        view.access is Some,
        view.access->0.unavailable@.len() == 0,
        !view.registered,
        0 <= i < view.issues@.len(),
    ensures
        exists|r: int|
            0 <= r < items@.len() && ((#[trigger] items@[r])@ matches ItemModel::Issues(told)
                && told.contains(view.issues@[i]@)),
{
    untold_without_notices(view, view.issues@.len(), i);
    assert(texts(view.access->0.unavailable@).len() == 0);
    assert(view.unreachable() =~= Seq::empty());
    assert(view.coverage() is Complete);
    let untold = view.untold(view.issues@.len());
    let k = choose|k: int| 0 <= k < untold.len() && untold[k] == view.issues@[i]@;
    let head = view.head();
    let rows = item_views(items@);
    assert(head[0] == ItemModel::Issues(untold));
    head_comes_first(view, rows, 0);
    assert(rows.len() == items@.len());
    assert(rows[0] == items@[0]@);
    assert(items@[0]@ == ItemModel::Issues(untold));
}

proof fn untold_without_notices(view: LibraryView, n: nat, i: int)
    requires
        !view.registered,
        0 <= i < n <= view.issues@.len(),
    ensures
        view.untold(n).contains(view.issues@[i]@),
    decreases n,
{
    let m = (n - 1) as nat;
    let before = view.untold(m);
    let all = view.untold(n);
    if i == m {
        assert(all[before.len() as int] == view.issues@[i]@);
    } else {
        untold_without_notices(view, m, i);
        let k = choose|k: int| 0 <= k < before.len() && before[k] == view.issues@[i]@;
        assert(all[k] == view.issues@[i]@);
    }
}

/// Where no libraries are registered, every note that was found in a place that can be reached
/// and holds what is searched for is on the page.
pub proof fn without_libraries_what_was_found_is_shown(
    view: LibraryView,
    items: Vec<LibraryItem>,
    place: usize,
)
    requires
        view.wf(),
        call_ensures(LibraryView::library_page, (&view,), items),
        view.access is Some && !view.loading,
        !view.registered && view.libraries@.len() == 0 && view.folder_filter is None,
        place < view.courses@.len() <= usize::MAX,
        ({
            let course = view.courses@[place as int];
            &&& view.cache.locations.map().contains_key(course.storage@)
            &&& texts(view.access->0.available@).contains(
                view.cache.locations.map()[course.storage@].root@,
            )
            &&& holds(lowercased(course.title@), lowercased(view.search@))
        }),
    ensures
        page_shows(item_views(items@), (place, view.courses@[place as int])),
{
    let course = view.courses@[place as int];
    let root = view.cache.locations.map()[course.storage@].root@;
    reachable_is(view, view.access->0, root);
    assert(view.root_of(course) is None);
    assert(view.is_shown(course));
    courses_are_shown(view, view.courses@.len(), place);
    page_shows_the_shown(view, item_views(items@), (place, course));
    let reachable = view.reachable();
    let k = choose|k: int| 0 <= k < reachable.len() && reachable[k] == root;
    assert(reachable.len() > 0);
}

/// A search that found something says in which notes it looked, what for, and how many notes it
/// found: as many as the page shows.
#[verifier::rlimit(40)]
pub proof fn a_search_tells_how_many_it_found(
    view: LibraryView,
    items: Vec<LibraryItem>,
    entry: (usize, Course),
) -> (places: Seq<usize>)
    requires
        view.wf(),
        call_ensures(LibraryView::library_page, (&view,), items),
        lowercased(view.search@).len() > 0,
        page_shows(item_views(items@), entry),
        view.courses@.len() <= usize::MAX,
    ensures
        forall|k: int, l: int|
            0 <= k < l < places.len() ==> #[trigger] places[k] < #[trigger] places[l],
        forall|p: usize|
            p < view.courses@.len() ==> (places.contains(p) <==> #[trigger] page_shows(
                item_views(items@),
                (p, view.courses@[p as int]),
            )),
        item_views(items@).contains(
            ItemModel::SearchScope(
                (if view.folder_filter is Some {
                    "在当前文件夹中搜索「"@
                } else {
                    "在全部笔记中搜索「"@
                }) + view.search@ + "」，找到 "@ + decimal(places.len()) + " 篇笔记。"@,
            ),
        ),
{
    let rows = item_views(items@);
    let all = view.courses@.len();
    let entries = view.shown(all);
    page_shows_the_shown(view, rows, entry);
    let at = choose|k: int| 0 <= k < entries.len() && entries[k] == entry;
    let places = Seq::new(entries.len(), |k: int| entries[k].0);
    let head = view.head();
    let ready = view.access is Some && !view.loading && !(view.coverage() is Unavailable);
    if !ready {
        assert forall|r: int| 0 <= r < rows.len() implies !row_shows(#[trigger] rows[r], entry) by {
            if view.access is Some && r < head.len() {
                assert(rows[r] == head[r]);
            }
        }
    }
    assert(ready);
    let scope = ItemModel::SearchScope(
        search_text(view.search@, view.folder_filter is Some, entries.len()),
    );
    let front = head.push(scope);
    let body = choose|body: Seq<ItemModel>| #[trigger]
        view.is_body(body, entries) && rows == front + body;
    assert(rows[head.len() as int] == scope);
    assert forall|k: int, l: int| 0 <= k < l < places.len() implies #[trigger] places[k]
        < #[trigger] places[l] by {
        shown_are_courses(view, all, l);
        assert(entries[k].0 < entries[l].0);
    }
    assert forall|p: usize| p < all implies (places.contains(p) <==> #[trigger] page_shows(
        rows,
        (p, view.courses@[p as int]),
    )) by {
        let one = (p, view.courses@[p as int]);
        page_shows_the_shown(view, rows, one);
        if places.contains(p) {
            let k = choose|k: int| 0 <= k < places.len() && places[k] == p;
            shown_are_courses(view, all, k);
            assert(entries[k] == one);
        }
        if entries.contains(one) {
            let k = choose|k: int| 0 <= k < entries.len() && entries[k] == one;
            assert(places[k] == p);
        }
    }
    places
}

/// A group is called by the name of its folder, and where there are several libraries also by
/// the name of its library; notes without a folder are told apart from folders that could not be
/// read.
pub proof fn a_group_is_called_by_its_folder(view: LibraryView, group: Group, library: LibraryLocation)
    requires
        group.rank < view.root_order@.len(),
        library_at(view.libraries@, view.root_order@[group.rank as int]@) == Some(library),
    ensures
        ({
            let root = view.root_order@[group.rank as int]@;
            let known = view.indexes.map().contains_key(root);
            let folders = view.indexes.map()[root].folders.map();
            let name = if !known {
                "分类记录暂不可用"@
            } else if folders.contains_key(group.folder) {
                folders[group.folder]@
            } else {
                "未分类"@
            };
            &&& view.registered && view.libraries@.len() > 1 ==> view.group_name(group)
                == library.name@ + " · "@ + name
            &&& view.libraries@.len() <= 1 ==> view.group_name(group) == name
        }),
{
}

/// The controls are there unless the library is empty and nothing narrows it or is to be told.
pub proof fn the_controls_are_there_unless_all_is_empty(
    courses: usize,
    filter: Option<u64>,
    search: &str,
    failed: bool,
    issues: usize,
    loading: bool,
    shown: bool,
)
    requires
        call_ensures(
            library_controls_visible,
            (courses, filter, search, failed, issues, loading),
            shown,
        ),
    ensures
        courses > 0 || filter is Some || search@.len() > 0 ==> shown,
        failed || issues > 0 || loading ==> shown,
        courses == 0 && filter is None && search@.len() == 0 && !failed && issues == 0 && !loading
            ==> !shown,
{
}

/// What cannot be reached is told by its number, and a search that could not look everywhere says
/// so: no number is told where nothing can be reached.
pub proof fn what_is_cut_off_is_counted(available: nat, unavailable: nat, searching: bool)
    ensures
        searching ==> coverage_text(LibraryCoverage::Partial, searching, available, unavailable)
            == "当前仅搜索 "@ + decimal(available) + " 个可访问的保存位置；另外 "@ + decimal(unavailable)
            + " 个位置尚未纳入搜索结果。"@,
        !searching ==> coverage_text(LibraryCoverage::Partial, searching, available, unavailable)
            == "当前仅显示 "@ + decimal(available) + " 个可访问位置中的笔记；另外 "@ + decimal(
            unavailable,
        ) + " 个位置尚未读取。"@,
        searching ==> coverage_text(
            LibraryCoverage::Unavailable,
            searching,
            available,
            unavailable,
        )
            == "当前范围的保存位置暂时无法访问，尚未搜索笔记。关键词已保留，重新连接后可继续搜索。"@,
{
}

} // verus!
