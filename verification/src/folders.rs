//! Folders: where a note or an input belongs, and how folders are made, renamed and
//! removed.
use crate::folder_export::{find_library, library_at};
use crate::notes::{
    copy_folders, folders_in_order, indexes_wf, lists_folders, same_library, Course, Library,
    LibraryViewCache,
};
use crate::table::Table;
use crate::text::{join2, join3, same};
use crate::workspace::{text_of, Draft, LibraryLocation, Page};
use vstd::prelude::*;
use vstd::string::*;

verus! {

/// Which library a folder is chosen in, and for which input.
#[derive(Clone, Debug, PartialEq, Eq)]
pub struct FolderOrigin {
    pub root: String,
    pub draft_id: Option<String>,
}

/// The name of a folder among those that are known.
pub open spec fn name_of_folder(folders: Map<u64, String>, id: Option<u64>) -> Seq<char> {
    match id {
        Some(own) if own != 0 => if folders.contains_key(own) {
            folders[own]@
        } else {
            "已删除的文件夹"@
        },
        _ => "未分类"@,
    }
}

pub fn folder_name(folders: &Table<u64, String>, id: Option<u64>) -> (result: String)
    requires
        folders.wf(),
    ensures
        result@ == name_of_folder(folders.map(), id),
{
    match id {
        Some(own) if own != 0 => match folders.get(&own) {
            Some(name) => name.clone(),
            None => "已删除的文件夹".to_owned(),
        },
        _ => "未分类".to_owned(),
    }
}

/// The library with an id, first in the list.
pub open spec fn library_with_id(libraries: Seq<LibraryLocation>, id: Seq<char>) -> Option<
    LibraryLocation,
>
    decreases libraries.len(),
{
    if libraries.len() == 0 {
        None
    } else if libraries[0].id@ == id {
        Some(libraries[0])
    } else {
        library_with_id(libraries.skip(1), id)
    }
}

/// The place of the first library with an id.
pub fn find_id(libraries: &Vec<LibraryLocation>, id: &str) -> (result: Option<usize>)
    ensures
        match result {
            Some(i) => i < libraries@.len() && library_with_id(libraries@, id@) == Some(
                libraries@[i as int],
            ),
            None => library_with_id(libraries@, id@) is None,
        },
{
    let mut i: usize = 0;
    assert(libraries@.skip(0) =~= libraries@);
    while i < libraries.len()
        invariant
            i <= libraries@.len(),
            library_with_id(libraries@.skip(i as int), id@) == library_with_id(libraries@, id@),
        decreases libraries@.len() - i,
    {
        assert(libraries@.skip(i as int)[0] == libraries@[i as int]);
        if same(libraries[i].id.as_str(), id) {
            return Some(i);
        }
        assert(libraries@.skip(i as int).skip(1) =~= libraries@.skip(i + 1));
        i += 1;
    }
    None
}

/// The library and input that a folder is chosen for: on the workbench those of the
/// draft, where its library is registered; the library that is shown elsewhere.
pub open spec fn origin_of(
    page: Page,
    draft: Option<&Draft>,
    libraries: Seq<LibraryLocation>,
    library_root: Seq<char>,
) -> (Seq<char>, Option<Seq<char>>) {
    match draft {
        Some(own) if page is New && library_with_id(libraries, own.library_id@) is Some => (
            library_with_id(libraries, own.library_id@)->0.root@,
            Some(own.id@),
        ),
        _ => (library_root, None),
    }
}

pub fn current_folder_origin(
    page: Page,
    draft: Option<&Draft>,
    libraries: &Vec<LibraryLocation>,
    library_root: &str,
) -> (result: FolderOrigin)
    ensures
        (result.root@, text_of(result.draft_id)) == origin_of(
            page,
            draft,
            libraries@,
            library_root@,
        ),
{
    if matches!(page, Page::New) {
        if let Some(own) = draft {
            if let Some(i) = find_id(libraries, own.library_id.as_str()) {
                return FolderOrigin {
                    root: libraries[i].root.clone(),
                    draft_id: Some(own.id.clone()),
                };
            }
        }
    }
    FolderOrigin { root: library_root.to_owned(), draft_id: None }
}

/// The libraries, among the first `n`, in which a folder can be made or renamed: all
/// of them while all notes are shown and a folder is new, else the one it is in.
pub open spec fn targets_of(
    libraries: Seq<LibraryLocation>,
    any: bool,
    root: Seq<char>,
    n: nat,
) -> Seq<LibraryLocation>
    decreases n,
{
    if n == 0 {
        Seq::empty()
    } else {
        let before = targets_of(libraries, any, root, (n - 1) as nat);
        if any || libraries[n - 1].root@ == root {
            before.push(libraries[n - 1])
        } else {
            before
        }
    }
}

impl LibraryLocation {
    /// The same library again.
    pub fn copy(&self) -> (result: LibraryLocation)
        ensures
            result == *self,
    {
        LibraryLocation { id: self.id.clone(), name: self.name.clone(), root: self.root.clone() }
    }
}

fn targets(libraries: &Vec<LibraryLocation>, any: bool, root: &str) -> (result: Vec<
    LibraryLocation,
>)
    ensures
        result@ == targets_of(libraries@, any, root@, libraries@.len()),
{
    let mut result: Vec<LibraryLocation> = Vec::new();
    let mut i: usize = 0;
    while i < libraries.len()
        invariant
            i <= libraries@.len(),
            result@ == targets_of(libraries@, any, root@, i as nat),
        decreases libraries@.len() - i,
    {
        if any || same(libraries[i].root.as_str(), root) {
            result.push(libraries[i].copy());
        }
        i += 1;
    }
    result
}

/// The editor of a folder. `editing` holds the folder that is renamed, or none for
/// a new one.
pub struct FolderEditor {
    pub editing: Option<Option<u64>>,
    pub origin: Option<FolderOrigin>,
    pub targets: Vec<LibraryLocation>,
    pub saving: bool,
    pub error: Option<String>,
    pub deleting: Option<u64>,
}

impl FolderEditor {
    /// Opens the editor, unless a folder is being saved. Gives the name that the
    /// field starts with. On any page but the workbench the library is shown with it,
    /// so that a new folder can be made in every library while all notes are shown.
    pub fn begin_folder(
        &mut self,
        id: Option<u64>,
        origin: FolderOrigin,
        page: Page,
        folder_filter: Option<u64>,
        libraries: &Vec<LibraryLocation>,
        indexes: &Table<String, Library>,
    ) -> (result: Option<String>)
        requires
            indexes_wf(*indexes),
        ensures
            result is Some == !old(self).saving,
            old(self).saving ==> *final(self) == *old(self),
            !old(self).saving ==> {
                let any = !(page is New) && id is None && folder_filter is None;
                let offered = targets_of(libraries@, any, origin.root@, libraries@.len());
                let root = if offered.len() > 0 {
                    offered[0].root@
                } else {
                    origin.root@
                };
                &&& final(self).targets@ == offered
                &&& final(self).origin matches Some(own) && own.root@ == root && text_of(
                    own.draft_id,
                ) == text_of(origin.draft_id)
                &&& final(self).editing == Some(id)
                &&& final(self).error is None
                &&& final(self).deleting is None
                &&& !final(self).saving
                &&& result->0@ == (if id is Some && indexes.map().contains_key(root)
                    && indexes.map()[root].folders.map().contains_key(id->0) {
                    indexes.map()[root].folders.map()[id->0]@
                } else {
                    Seq::empty()
                })
            },
    {
        if self.saving {
            return None;
        }
        let any = !matches!(page, Page::New) && id.is_none() && folder_filter.is_none();
        let mut origin = origin;
        self.targets = targets(libraries, any, origin.root.as_str());
        if self.targets.len() > 0 {
            origin.root = self.targets[0].root.clone();
        }
        let name = match id {
            Some(own) => match indexes.get(&origin.root) {
                Some(index) => match index.folders.get(&own) {
                    Some(name) => name.clone(),
                    None => String::new(),
                },
                None => String::new(),
            },
            None => String::new(),
        };
        self.origin = Some(origin);
        self.editing = Some(id);
        self.error = None;
        self.deleting = None;
        Some(name)
    }

    /// The title of the dialog.
    pub fn title(&self) -> (result: &'static str)
        ensures
            result@ == (if self.editing matches Some(Some(_)) {
                "重命名文件夹"@
            } else {
                "新建文件夹"@
            }),
    {
        match self.editing {
            Some(Some(_)) => "重命名文件夹",
            _ => "新建文件夹",
        }
    }

    /// Closes the editor.
    pub fn close(&mut self)
        ensures
            *final(self) == (FolderEditor { editing: None, origin: None, error: None, ..*old(self) }),
    {
        self.editing = None;
        self.origin = None;
        self.error = None;
    }

    /// Another library is chosen for the folder, unless it is being saved.
    pub fn retarget(&mut self, root: String) -> (result: bool)
        ensures
            result == (!old(self).saving && old(self).origin is Some),
            *final(self) == (if result {
                FolderEditor {
                    origin: Some(FolderOrigin { root, ..old(self).origin->0 }),
                    error: None,
                    ..*old(self)
                }
            } else {
                *old(self)
            }),
    {
        if self.saving {
            return false;
        }
        if let Some(origin) = &mut self.origin {
            origin.root = root;
            self.error = None;
            true
        } else {
            false
        }
    }

    /// Begins to save: gives the folder, the library and the input it is for.
    pub fn save_folder(&mut self) -> (result: Option<(Option<u64>, FolderOrigin)>)
        ensures
            result is Some == (!old(self).saving && old(self).editing is Some && old(
                self,
            ).origin is Some),
            result is None ==> *final(self) == *old(self),
            result matches Some((id, origin)) ==> Some(id) == old(self).editing && origin == old(
                self,
            ).origin->0 && *final(self) == (FolderEditor {
                saving: true,
                error: None,
                ..*old(self)
            }),
    {
        if self.saving {
            return None;
        }
        let id = match self.editing {
            Some(id) => id,
            None => {
                return None;
            },
        };
        let origin = match &self.origin {
            Some(origin) => FolderOrigin {
                root: origin.root.clone(),
                draft_id: match &origin.draft_id {
                    Some(draft) => Some(draft.clone()),
                    None => None,
                },
            },
            None => {
                return None;
            },
        };
        self.saving = true;
        self.error = None;
        Some((id, origin))
    }

    /// The label of the library that a folder is made in.
    pub fn library_label(&self) -> (result: Option<String>)
        ensures
            result is Some == self.origin is Some,
            result matches Some(label) ==> label@ == (match library_at(
                self.targets@,
                self.origin->0.root@,
            ) {
                Some(library) => library.name@ + " · "@ + library.root@,
                None => self.origin->0.root@,
            }),
    {
        match &self.origin {
            Some(origin) => match find_library(&self.targets, origin.root.as_str()) {
                Some(i) => Some(
                    join3(self.targets[i].name.as_str(), " · ", self.targets[i].root.as_str()),
                ),
                None => Some(origin.root.clone()),
            },
            None => None,
        }
    }
}

/// Where the person is, and which folders are shown and chosen. `library` are the
/// folders of the library that is shown, `search` is what is looked for in it.
pub struct LibraryPlace {
    pub library_root: String,
    pub library: Library,
    pub search: String,
    pub folder_filter: Option<u64>,
    pub target_folder: Option<u64>,
    pub page: Page,
}

impl FolderEditor {
    /// A folder was saved, and `library` are now the folders of its library. For an
    /// input the folder is chosen, unless that was refused: the editor then stays open
    /// with the reason. Otherwise the library shows it, whatever was looked for. Says
    /// whether the editor closes.
    pub fn finish_folder_save(
        &mut self,
        place: &mut LibraryPlace,
        indexes: &mut Table<String, Library>,
        origin: FolderOrigin,
        library: Library,
        saved: Option<u64>,
        current_draft: &str,
        refusal: Option<&str>,
    ) -> (result: bool)
        requires
            indexes_wf(*old(indexes)),
            library.wf(),
        ensures
            indexes_wf(*final(indexes)),
            final(indexes).map() == old(indexes).map().insert(origin.root@, library),
            !final(self).saving,
            result == !(origin.draft_id is Some && refusal is Some),
            *final(self) == (if result {
                FolderEditor {
                    saving: false,
                    editing: None,
                    origin: None,
                    error: None,
                    ..*old(self)
                }
            } else {
                FolderEditor {
                    saving: false,
                    editing: Some(saved),
                    error: final(self).error,
                    ..*old(self)
                }
            }),
            !result ==> text_of(final(self).error) == Some(
                "文件夹已创建，保存位置尚未更新："@ + refusal->0@,
            ),
            ({
                let shown = origin.draft_id is None || old(place).library_root@ == origin.root@;
                &&& shown ==> same_library(final(place).library, library)
                &&& !shown ==> final(place).library == old(place).library
            }),
            match origin.draft_id {
                Some(draft) => *final(place) == (LibraryPlace {
                    library: final(place).library,
                    target_folder: if result && draft@ == current_draft@ {
                        saved
                    } else {
                        old(place).target_folder
                    },
                    ..*old(place)
                }),
                None => final(place).search@.len() == 0 && *final(place) == (LibraryPlace {
                    library_root: origin.root,
                    library: final(place).library,
                    search: final(place).search,
                    folder_filter: saved,
                    page: Page::Library,
                    ..*old(place)
                }),
            },
    {
        self.saving = false;
        if same(place.library_root.as_str(), origin.root.as_str()) {
            place.library = library.copy();
        }
        match origin.draft_id {
            Some(draft) => {
                indexes.insert(origin.root, library);
                if let Some(reason) = refusal {
                    self.error = Some(join2("文件夹已创建，保存位置尚未更新：", reason));
                    self.editing = Some(saved);
                    return false;
                }
                if same(draft.as_str(), current_draft) {
                    place.target_folder = saved;
                }
            },
            None => {
                place.library = library.copy();
                indexes.insert(origin.root.clone(), library);
                place.library_root = origin.root;
                place.folder_filter = saved;
                place.search = String::new();
                place.page = Page::Library;
            },
        }
        self.editing = None;
        self.origin = None;
        self.error = None;
        true
    }

    /// The folder could not be saved; the editor stays open with the reason.
    pub fn fail_save(&mut self, error: String)
        ensures
            *final(self) == (FolderEditor { saving: false, error: Some(error), ..*old(self) }),
    {
        self.saving = false;
        self.error = Some(error);
    }
}

// ----------------------------------------------------------- drafts and folders

/// Why a saved folder was not given to the input it was made for.
#[derive(Clone, Copy, Debug, PartialEq, Eq, Structural)]
pub enum FolderRefusal {
    InputGone,
    InputSubmitted,
    LibraryGone,
    LibraryChanged,
}

impl FolderRefusal {
    pub open spec fn text(self) -> Seq<char> {
        match self {
            FolderRefusal::InputGone => "原输入已改变，请在当前输入中重新选择文件夹"@,
            FolderRefusal::InputSubmitted => "原输入已提交，请在新输入中选择文件夹"@,
            FolderRefusal::LibraryGone => "原课程库已不存在"@,
            FolderRefusal::LibraryChanged => "输入的课程库已改变，请重新选择文件夹"@,
        }
    }

    pub fn message(&self) -> (result: &'static str)
        ensures
            result@ == self.text(),
    {
        match self {
            FolderRefusal::InputGone => "原输入已改变，请在当前输入中重新选择文件夹",
            FolderRefusal::InputSubmitted => "原输入已提交，请在新输入中选择文件夹",
            FolderRefusal::LibraryGone => "原课程库已不存在",
            FolderRefusal::LibraryChanged => "输入的课程库已改变，请重新选择文件夹",
        }
    }
}

/// The draft at `i` is the first with this id.
pub open spec fn first_draft(drafts: Seq<Draft>, id: Seq<char>, i: int) -> bool {
    &&& 0 <= i < drafts.len()
    &&& drafts[i].id@ == id
    &&& forall|j: int| 0 <= j < i ==> (#[trigger] drafts[j]).id@ != id
}

/// Why the draft at `i` cannot take a folder of the library with this root.
pub open spec fn refuses(
    draft: Draft,
    libraries: Seq<LibraryLocation>,
    root: Seq<char>,
) -> Option<FolderRefusal> {
    if draft.submitted_task is Some {
        Some(FolderRefusal::InputSubmitted)
    } else {
        match library_with_id(libraries, draft.library_id@) {
            None => Some(FolderRefusal::LibraryGone),
            Some(library) => if library.root@ == root {
                None
            } else {
                Some(FolderRefusal::LibraryChanged)
            },
        }
    }
}

/// Gives a saved folder to the input it was made for, if that input is still there,
/// not submitted, and in the same library.
pub fn assign_saved_folder(
    drafts: &mut Vec<Draft>,
    libraries: &Vec<LibraryLocation>,
    draft_id: &str,
    root: &str,
    saved: Option<u64>,
) -> (result: Result<(), FolderRefusal>)
    ensures
        match result {
            Ok(_) => exists|i: int| #[trigger]
                first_draft(old(drafts)@, draft_id@, i) && refuses(
                    old(drafts)@[i],
                    libraries@,
                    root@,
                ) is None && final(drafts)@ == old(drafts)@.update(
                    i,
                    Draft { folder: saved, ..old(drafts)@[i] },
                ),
            Err(refusal) => {
                &&& final(drafts)@ == old(drafts)@
                &&& refusal is InputGone ==> forall|i: int| !first_draft(old(drafts)@, draft_id@, i)
                &&& !(refusal is InputGone) ==> exists|i: int| #[trigger]
                    first_draft(old(drafts)@, draft_id@, i) && refuses(
                        old(drafts)@[i],
                        libraries@,
                        root@,
                    ) == Some(refusal)
            },
        },
{
    let mut i: usize = 0;
    while i < drafts.len() && !same(drafts[i].id.as_str(), draft_id)
        invariant
            i <= drafts@.len(),
            drafts@ == old(drafts)@,
            forall|j: int| 0 <= j < i ==> (#[trigger] drafts@[j]).id@ != draft_id@,
        decreases drafts@.len() - i,
    {
        i += 1;
    }
    if i >= drafts.len() {
        return Err(FolderRefusal::InputGone);
    }
    assert(first_draft(old(drafts)@, draft_id@, i as int));
    if drafts[i].submitted_task.is_some() {
        return Err(FolderRefusal::InputSubmitted);
    }
    match find_id(libraries, drafts[i].library_id.as_str()) {
        None => {
            return Err(FolderRefusal::LibraryGone);
        },
        Some(k) => {
            if !same(libraries[k].root.as_str(), root) {
                return Err(FolderRefusal::LibraryChanged);
            }
        },
    }
    drafts[i].folder = saved;
    assert(drafts@ =~= old(drafts)@.update(
        i as int,
        Draft { folder: saved, ..old(drafts)@[i as int] },
    ));
    Ok(())
}

/// What is shown of the library after a folder was removed: its notes are in no
/// folder now.
pub fn filter_after_removal(
    library_root: &str,
    root: &str,
    folder_filter: Option<u64>,
    removed: u64,
) -> (result: Option<u64>)
    ensures
        result == (if library_root@ == root@ && folder_filter == Some(removed) {
            Some(0u64)
        } else {
            folder_filter
        }),
{
    match folder_filter {
        Some(id) if id == removed => {
            if same(library_root, root) {
                Some(0)
            } else {
                folder_filter
            }
        },
        _ => folder_filter,
    }
}

// -------------------------------------------------------------------- contexts

/// What a folder picker shows.
pub struct FolderContext {
    pub storage: Option<String>,
    pub origin: FolderOrigin,
    pub folder: Option<u64>,
    pub load_error: Option<String>,
    pub label: String,
    /// The folders of the library, where they were read.
    pub folders: Table<u64, String>,
}

/// The place where the note that is met at a path is kept.
pub open spec fn kept_at(courses: Seq<Course>, path: Seq<char>) -> Seq<char>
    decreases courses.len(),
{
    if courses.len() == 0 {
        path
    } else if courses[0].dir@ == path || courses[0].storage@ == path {
        courses[0].storage@
    } else {
        kept_at(courses.skip(1), path)
    }
}

fn storage_of(courses: &Vec<Course>, path: &String) -> (result: String)
    ensures
        result@ == kept_at(courses@, path@),
{
    let mut i: usize = 0;
    assert(courses@.skip(0) =~= courses@);
    while i < courses.len()
        invariant
            i <= courses@.len(),
            kept_at(courses@.skip(i as int), path@) == kept_at(courses@, path@),
        decreases courses@.len() - i,
    {
        assert(courses@.skip(i as int)[0] == courses@[i as int]);
        if courses[i].dir == *path || courses[i].storage == *path {
            return courses[i].storage.clone();
        }
        assert(courses@.skip(i as int).skip(1) =~= courses@.skip(i + 1));
        i += 1;
    }
    path.clone()
}

/// The folder of the note that is kept at a place, within one library.
pub open spec fn filed_under(
    cache: LibraryViewCache,
    indexes: Table<String, Library>,
    storage: Seq<char>,
    root: Seq<char>,
) -> Option<u64> {
    if cache.locations.map().contains_key(storage) && cache.locations.map()[storage].root@ == root
        && indexes.map().contains_key(root) {
        let filed = indexes.map()[root].courses.map();
        let relative = cache.locations.map()[storage].relative@;
        if filed.contains_key(relative) {
            Some(filed[relative])
        } else {
            None
        }
    } else {
        None
    }
}

/// What a folder picker says.
pub open spec fn picker_label(
    indexes: Table<String, Library>,
    root: Seq<char>,
    loading: bool,
    folder: Option<u64>,
) -> Seq<char> {
    if indexes.map().contains_key(root) {
        match folder {
            Some(id) => if indexes.map()[root].folders.map().contains_key(id) {
                indexes.map()[root].folders.map()[id]@
            } else {
                "文件夹已删除，请重新选择"@
            },
            None => "未分类"@,
        }
    } else if loading {
        "正在读取文件夹…"@
    } else {
        "文件夹暂不可用"@
    }
}

/// The folder of a note, or of the input where no note is given.
pub fn folder_context(
    course: Option<&String>,
    courses: &Vec<Course>,
    cache: &LibraryViewCache,
    indexes: &Table<String, Library>,
    library_root: &str,
    input: FolderOrigin,
    target_folder: Option<u64>,
    loading: bool,
) -> (result: FolderContext)
    requires
        cache.wf(),
        indexes_wf(*indexes),
    ensures
        match course {
            Some(path) => {
                let storage = kept_at(courses@, path@);
                &&& text_of(result.storage) == Some(storage)
                &&& result.origin.draft_id is None
                &&& result.origin.root@ == (if cache.locations.map().contains_key(storage) {
                    cache.locations.map()[storage].root@
                } else {
                    library_root@
                })
                &&& result.folder == filed_under(*cache, *indexes, storage, result.origin.root@)
            },
            None => {
                &&& result.storage is None
                &&& result.origin == input
                &&& result.folder == target_folder
            },
        },
        result.label@ == picker_label(*indexes, result.origin.root@, loading, result.folder),
        result.load_error is Some == (!indexes.map().contains_key(result.origin.root@) && !loading),
        result.load_error matches Some(message) ==> message@ == "文件夹暂不可用，请刷新课程库。"@,
        result.folders.wf(),
        result.folders.map() == (if indexes.map().contains_key(result.origin.root@) {
            indexes.map()[result.origin.root@].folders.map()
        } else {
            Map::empty()
        }),
{
    let storage = match course {
        Some(path) => Some(storage_of(courses, path)),
        None => None,
    };
    let (origin, folder) = match &storage {
        Some(path) => {
            let place = cache.locations.get(path);
            let root = match place {
                Some(location) => location.root.clone(),
                None => library_root.to_owned(),
            };
            let folder = match place {
                Some(location) => match indexes.get(&root) {
                    Some(index) => index.folder_key(&location.relative),
                    None => None,
                },
                None => None,
            };
            (FolderOrigin { root, draft_id: None }, folder)
        },
        None => (input, target_folder),
    };
    let loaded = indexes.get(&origin.root);
    let label = match loaded {
        Some(index) => match folder {
            Some(id) => match index.folders.get(&id) {
                Some(name) => name.clone(),
                None => "文件夹已删除，请重新选择".to_owned(),
            },
            None => "未分类".to_owned(),
        },
        None => {
            if loading {
                "正在读取文件夹…".to_owned()
            } else {
                "文件夹暂不可用".to_owned()
            }
        },
    };
    let load_error = if loaded.is_none() && !loading {
        Some("文件夹暂不可用，请刷新课程库。".to_owned())
    } else {
        None
    };
    let folders = match loaded {
        Some(index) => copy_folders(&index.folders),
        None => Table::new(),
    };
    FolderContext { storage, origin, folder, load_error, label, folders }
}

/// One entry of the folder menu; the folder of `None` is no folder.
pub struct FolderEntry {
    pub id: Option<u64>,
    pub name: String,
    pub checked: bool,
}

/// The menu after its first entry offers the listed folders.
pub open spec fn offers_folders(
    entries: Seq<FolderEntry>,
    list: Seq<(u64, String)>,
    current: Option<u64>,
) -> bool {
    &&& entries.len() == list.len() + 1
    &&& forall|i: int|
        0 <= i < list.len() ==> {
            let (id, name) = #[trigger] list[i];
            &&& entries[i + 1].id == Some(id)
            &&& entries[i + 1].name@ == name@
            &&& entries[i + 1].checked == (current == Some(id))
        }
}

/// The entries of the folder menu: no folder, then the folders in the order of their
/// ids.
pub fn folder_entries(folders: &Table<u64, String>, current: Option<u64>) -> (result: Vec<
    FolderEntry,
>)
    requires
        folders.wf(),
    ensures
        result@.len() > 0,
        result@[0].id is None && result@[0].name@ == "未分类"@ && result@[0].checked == (current
            is None),
        exists|list: Seq<(u64, String)>| #[trigger]
            lists_folders(list, folders.map()) && offers_folders(result@, list, current),
{
    let list = folders_in_order(folders);
    let mut result: Vec<FolderEntry> = Vec::new();
    result.push(
        FolderEntry { id: None, name: "未分类".to_owned(), checked: current.is_none() },
    );
    let mut i: usize = 0;
    while i < list.len()
        invariant
            i <= list@.len(),
            result@.len() == i + 1,
            result@[0].id is None && result@[0].name@ == "未分类"@ && result@[0].checked == (current
                is None),
            forall|j: int|
                0 <= j < i ==> {
                    let (id, name) = #[trigger] list@[j];
                    &&& result@[j + 1].id == Some(id)
                    &&& result@[j + 1].name@ == name@
                    &&& result@[j + 1].checked == (current == Some(id))
                },
        decreases list@.len() - i,
    {
        let (id, name) = &list[i];
        let checked = match current {
            Some(own) => own == *id,
            None => false,
        };
        result.push(FolderEntry { id: Some(*id), name: name.clone(), checked });
        i += 1;
    }
    assert(offers_folders(result@, list@, current));
    result
}

// ----------------------------------------------------------------------- laws

/// An input that was submitted never changes its folder afterwards.
pub proof fn a_submitted_input_keeps_its_folder(
    draft: Draft,
    libraries: Seq<LibraryLocation>,
    root: Seq<char>,
)
    requires
        draft.submitted_task is Some,
    ensures
        refuses(draft, libraries, root) is Some,
{
}

/// A folder is only ever given to an input of the library that holds the folder.
pub proof fn a_folder_stays_in_its_library(
    draft: Draft,
    libraries: Seq<LibraryLocation>,
    root: Seq<char>,
)
    requires
        refuses(draft, libraries, root) is None,
    ensures
        library_with_id(libraries, draft.library_id@) is Some,
        library_with_id(libraries, draft.library_id@)->0.root@ == root,
{
}

/// A folder is chosen for a note only in the library it lies in, and the first entry stands
/// for no folder; exactly the entry of the folder that the note is in is marked.
pub proof fn the_mark_is_on_the_folder(
    folders: Table<u64, String>,
    current: Option<u64>,
    entries: Vec<FolderEntry>,
    id: u64,
)
    requires
        folders.wf(),
        call_ensures(folder_entries, (&folders, current), entries),
    ensures
        entries@.len() > 0,
        entries@[0].id is None,
        entries@[0].checked <==> current is None,
        folders.map().contains_key(id) <==> exists|i: int|
            0 < i < entries@.len() && (#[trigger] entries@[i]).id == Some(id),
        forall|i: int|
            0 < i < entries@.len() ==> (#[trigger] entries@[i]).id is Some && entries@[i].checked
                == (current == entries@[i].id) && entries@[i].name@
                == folders.map()[entries@[i].id->0]@,
{
    let list = choose|list: Seq<(u64, String)>| #[trigger]
        lists_folders(list, folders.map()) && offers_folders(entries@, list, current);
    assert forall|i: int| 0 < i < entries@.len() implies (#[trigger] entries@[i]).id is Some
        && entries@[i].checked == (current == entries@[i].id) && entries@[i].name@
        == folders.map()[entries@[i].id->0]@ by {
        let (own, name) = list[i - 1];
        assert(entries@[i - 1 + 1].id == Some(own));
    }
    if folders.map().contains_key(id) {
        let k = choose|k: int| 0 <= k < list.len() && (#[trigger] list[k]).0 == id;
        let (own, name) = list[k];
        assert(entries@[k + 1].id == Some(id));
    }
    if exists|i: int| 0 < i < entries@.len() && (#[trigger] entries@[i]).id == Some(id) {
        let i = choose|i: int| 0 < i < entries@.len() && (#[trigger] entries@[i]).id == Some(id);
        let (own, name) = list[i - 1];
        assert(entries@[i - 1 + 1].id == Some(own));
        assert(list[i - 1].0 == id);
    }
}

/// The folder of a note is the one that its library files it under; the folder of the input
/// is the one that was chosen. Only the folders of that library are offered.
pub proof fn a_note_has_the_folder_of_its_library(
    path: String,
    courses: Vec<Course>,
    cache: LibraryViewCache,
    indexes: Table<String, Library>,
    root: &str,
    input: FolderOrigin,
    target: Option<u64>,
    loading: bool,
    context: FolderContext,
    i: int,
)
    requires
        cache.wf(),
        indexes_wf(indexes),
        call_ensures(
            folder_context,
            (Some(&path), &courses, &cache, &indexes, root, input, target, loading),
            context,
        ),
        0 <= i < courses@.len(),
        courses@[i].dir@ == path@ || courses@[i].storage@ == path@,
        forall|j: int|
            0 <= j < i ==> (#[trigger] courses@[j]).dir@ != path@ && courses@[j].storage@ != path@,
        cache.locations.map().contains_key(courses@[i].storage@),
    ensures
        ({
            let place = cache.locations.map()[courses@[i].storage@];
            &&& text_of(context.storage) == Some(courses@[i].storage@)
            &&& context.origin.root@ == place.root@
            &&& context.origin.draft_id is None
            &&& indexes.map().contains_key(place.root@) ==> {
                let index = indexes.map()[place.root@];
                &&& index.courses.map().contains_key(place.relative@) ==> context.folder == Some(
                    index.courses.map()[place.relative@],
                )
                &&& !index.courses.map().contains_key(place.relative@) ==> context.folder is None
                    && context.label@ == "未分类"@
                &&& context.folders.map() == index.folders.map()
                &&& context.load_error is None
            }
            &&& !indexes.map().contains_key(place.root@) ==> context.folder is None
            &&& !indexes.map().contains_key(place.root@) && !loading ==> context.load_error is Some
        }),
{
    found_note_is_kept(courses@, path@, i);
}

proof fn found_note_is_kept(courses: Seq<Course>, path: Seq<char>, i: int)
    requires
        0 <= i < courses.len(),
        courses[i].dir@ == path || courses[i].storage@ == path,
        forall|j: int|
            0 <= j < i ==> (#[trigger] courses[j]).dir@ != path && courses[j].storage@ != path,
    ensures
        kept_at(courses, path) == courses[i].storage@,
    decreases courses.len(),
{
    if i > 0 {
        let rest = courses.skip(1);
        assert(rest[i - 1] == courses[i]);
        assert(courses[0].dir@ != path);
        assert forall|j: int| 0 <= j < i - 1 implies (#[trigger] rest[j]).dir@ != path
            && rest[j].storage@ != path by {
            assert(rest[j] == courses[j + 1]);
        }
        found_note_is_kept(rest, path, i - 1);
    }
}

/// The folder of the input is the one that was chosen for it.
pub proof fn the_input_has_its_own_folder(
    courses: Vec<Course>,
    cache: LibraryViewCache,
    indexes: Table<String, Library>,
    root: &str,
    input: FolderOrigin,
    target: Option<u64>,
    loading: bool,
    context: FolderContext,
)
    requires
        cache.wf(),
        indexes_wf(indexes),
        call_ensures(
            folder_context,
            (None, &courses, &cache, &indexes, root, input, target, loading),
            context,
        ),
    ensures
        context.folder == target,
        context.origin == input,
        context.storage is None,
        target is Some && indexes.map().contains_key(input.root@) && indexes.map()[input.root@].folders.map().contains_key(
            target->0,
        ) ==> context.label@ == indexes.map()[input.root@].folders.map()[target->0]@,
{
}

/// A folder that was saved for an input is given to that input and to no other, and only
/// where the input was not submitted and is still for the library it was made in.
pub proof fn a_saved_folder_goes_to_its_input(
    drafts: &mut Vec<Draft>,
    libraries: Vec<LibraryLocation>,
    id: &str,
    root: &str,
    saved: Option<u64>,
    given: Result<(), FolderRefusal>,
    i: int,
)
    requires
        call_ensures(assign_saved_folder, (drafts, &libraries, id, root, saved), given),
        0 <= i < old(drafts)@.len(),
    ensures
        final(drafts)@.len() == old(drafts)@.len(),
        given is Err ==> final(drafts)@ == old(drafts)@,
        old(drafts)@[i].id@ != id@ ==> final(drafts)@[i] == old(drafts)@[i],
        old(drafts)@[i].submitted_task is Some ==> final(drafts)@[i] == old(drafts)@[i],
        final(drafts)@[i] == old(drafts)@[i] || final(drafts)@[i] == (Draft {
            folder: saved,
            ..old(drafts)@[i]
        }),
        given is Ok ==> exists|k: int|
            0 <= k < final(drafts)@.len() && (#[trigger] final(drafts)@[k]).id@ == id@ && final(
                drafts)@[k].folder == saved,
{
    if given is Ok {
        let k = choose|k: int| #[trigger]
            first_draft(old(drafts)@, id@, k) && refuses(
                old(drafts)@[k],
                libraries@,
                root@,
            ) is None && final(drafts)@ == old(drafts)@.update(
                k,
                Draft { folder: saved, ..old(drafts)@[k] },
            );
        assert(final(drafts)@[k].folder == saved);
        assert(final(drafts)@[k].id@ == id@);
    }
}

/// On the workbench a folder is chosen for the input and its library; anywhere else for the
/// library that is shown.
pub proof fn a_folder_is_for_where_it_is_chosen(
    page: Page,
    draft: Option<&Draft>,
    libraries: Vec<LibraryLocation>,
    shown: &str,
    origin: FolderOrigin,
)
    requires
        call_ensures(current_folder_origin, (page, draft, &libraries, shown), origin),
    ensures
        !(page is New) || draft is None ==> origin.root@ == shown@ && origin.draft_id is None,
        origin.draft_id is Some ==> page is New && draft is Some && origin.draft_id->0@
            == draft->0.id@,
{
}

/// A folder that was saved is there, in the library it was saved in and in no other. For an
/// input it is chosen where nothing refused it; otherwise the library shows it.
pub proof fn a_saved_folder_is_there(
    editor: &mut FolderEditor,
    place: &mut LibraryPlace,
    indexes: &mut Table<String, Library>,
    origin: FolderOrigin,
    library: Library,
    saved: Option<u64>,
    draft: &str,
    refusal: Option<&str>,
    closed: bool,
    other: Seq<char>,
)
    requires
        indexes_wf(*old(indexes)),
        library.wf(),
        call_ensures(
            FolderEditor::finish_folder_save,
            (editor, place, indexes, origin, library, saved, draft, refusal),
            closed,
        ),
    ensures
        final(indexes).map().contains_key(origin.root@) && final(indexes).map()[origin.root@]
            == library,
        other != origin.root@ ==> (final(indexes).map().contains_key(other) <==> old(
            indexes).map().contains_key(other)),
        closed <==> final(editor).editing is None,
        origin.draft_id is None ==> closed && final(place).folder_filter == saved && final(
            place).library_root@ == origin.root@ && final(place).page is Library && final(
            place).search@.len() == 0 && final(place).target_folder == old(place).target_folder,
        origin.draft_id is Some ==> final(place).folder_filter == old(place).folder_filter && final(
            place).page == old(place).page && final(place).library_root@ == old(
            place).library_root@,
        origin.draft_id is Some && origin.draft_id->0@ != draft@ ==> final(place).target_folder
            == old(place).target_folder,
        origin.draft_id is Some && origin.draft_id->0@ == draft@ && refusal is None ==> final(
            place).target_folder == saved,
        origin.draft_id is Some && refusal is Some ==> !closed && final(editor).error is Some
            && final(place).target_folder == old(place).target_folder,
        !final(editor).saving,
{
}

/// A folder is saved once at a time, where one is edited; while it is saved nothing else of it
/// can be changed.
pub proof fn a_folder_is_saved_once(
    editor: &mut FolderEditor,
    saved: Option<(Option<u64>, FolderOrigin)>,
    again: &mut FolderEditor,
    twice: Option<(Option<u64>, FolderOrigin)>,
    moved: &mut FolderEditor,
    root: String,
    elsewhere: bool,
)
    requires
        call_ensures(FolderEditor::save_folder, (editor,), saved),
        *old(again) == *final(editor),
        call_ensures(FolderEditor::save_folder, (again,), twice),
        *old(moved) == *final(editor),
        call_ensures(FolderEditor::retarget, (moved, root), elsewhere),
    ensures
        saved is Some ==> twice is None && !elsewhere && old(editor).editing == Some((saved->0).0),
        saved is Some ==> old(editor).origin == Some((saved->0).1),
        saved is None ==> *final(editor) == *old(editor),
        !old(editor).saving && old(editor).editing is Some && old(editor).origin is Some ==> saved
            is Some,
{
}

/// The editor opens empty for a new folder and with the name of the folder for one that is
/// renamed. On the workbench, and for a folder that is there, only its own library is
/// offered.
pub proof fn the_editor_opens_with_the_name(
    editor: &mut FolderEditor,
    id: Option<u64>,
    origin: FolderOrigin,
    page: Page,
    filter: Option<u64>,
    libraries: Vec<LibraryLocation>,
    indexes: Table<String, Library>,
    name: Option<String>,
    i: int,
)
    requires
        indexes_wf(indexes),
        call_ensures(
            FolderEditor::begin_folder,
            (editor, id, origin, page, filter, &libraries, &indexes),
            name,
        ),
        !old(editor).saving,
    ensures
        name is Some,
        id is None ==> name->0@.len() == 0,
        final(editor).editing == Some(id),
        final(editor).error is None,
        page is New || id is Some || filter is Some ==> (0 <= i < final(editor).targets@.len()
            ==> final(editor).targets@[i].root@ == origin.root@),
        page is New || id is Some || filter is Some ==> final(editor).origin->0.root@
            == origin.root@,
        !(page is New) && id is None && filter is None ==> final(editor).targets@ == libraries@,
        id is Some && indexes.map().contains_key(origin.root@) && indexes.map()[origin.root@].folders.map().contains_key(
            id->0,
        ) ==> name->0@ == indexes.map()[origin.root@].folders.map()[id->0]@,
{
    let any = !(page is New) && id is None && filter is None;
    let offered = targets_of(libraries@, any, origin.root@, libraries@.len());
    if !any {
        targets_have_the_root(libraries@, origin.root@, libraries@.len());
    } else {
        all_are_targets(libraries@, origin.root@, libraries@.len());
        assert(libraries@.take(libraries@.len() as int) =~= libraries@);
    }
}

proof fn targets_have_the_root(libraries: Seq<LibraryLocation>, root: Seq<char>, n: nat)
    ensures
        forall|i: int|
            0 <= i < targets_of(libraries, false, root, n).len() ==> (#[trigger] targets_of(
                libraries,
                false,
                root,
                n,
            )[i]).root@ == root,
    decreases n,
{
    if n > 0 {
        let before = targets_of(libraries, false, root, (n - 1) as nat);
        let all = targets_of(libraries, false, root, n);
        targets_have_the_root(libraries, root, (n - 1) as nat);
        assert forall|i: int| 0 <= i < all.len() implies (#[trigger] all[i]).root@ == root by {
            if i < before.len() {
                assert(all[i] == before[i]);
            }
        }
    }
}

proof fn all_are_targets(libraries: Seq<LibraryLocation>, root: Seq<char>, n: nat)
    requires
        n <= libraries.len(),
    ensures
        targets_of(libraries, true, root, n) == libraries.take(n as int),
    decreases n,
{
    if n > 0 {
        all_are_targets(libraries, root, (n - 1) as nat);
        assert(libraries.take(n - 1).push(libraries[n - 1]) =~= libraries.take(n as int));
    } else {
        assert(libraries.take(0) =~= Seq::empty());
    }
}

/// A folder that was removed is shown no more: its notes are shown without a folder, and any
/// other choice stays.
pub proof fn a_removed_folder_is_not_shown(
    shown: &str,
    root: &str,
    filter: Option<u64>,
    removed: u64,
    result: Option<u64>,
)
    requires
        call_ensures(filter_after_removal, (shown, root, filter, removed), result),
    ensures
        filter != Some(removed) || shown@ != root@ ==> result == filter,
        filter == Some(removed) && shown@ == root@ ==> result == Some(0u64),
{
}

/// A folder is called by its name; no folder, and one that is gone, are told apart.
pub proof fn a_folder_is_called_by_its_name(folders: Table<u64, String>, id: Option<u64>, name: String)
    requires
        folders.wf(),
        call_ensures(folder_name, (&folders, id), name),
    ensures
        id is None || id == Some(0u64) ==> name@ == "未分类"@,
        id is Some && id->0 != 0 && folders.map().contains_key(id->0) ==> name@
            == folders.map()[id->0]@,
        id is Some && id->0 != 0 && !folders.map().contains_key(id->0) ==> name@
            == "已删除的文件夹"@,
{
}

} // verus!
