//! The dialogs and menus about folders, and what a choice in them does.
use crate::folders::{
    filter_after_removal, folder_name, name_of_folder, FolderContext, FolderEditor, FolderOrigin,
    LibraryPlace,
};
use crate::folder_export::library_at;
use crate::notes::{indexes_wf, same_library, Library};
use crate::table::Table;
use crate::text::{join2, join3, same};
use crate::workspace::{text_of, Draft, LibraryLocation};
use vstd::prelude::*;
use vstd::string::*;

verus! {

// ------------------------------------------------------------------------- editor

/// A library in which a folder can be made.
pub struct TargetEntry {
    pub root: String,
    pub label: String,
    pub checked: bool,
}

/// The editor of a folder.
pub struct FolderEditorView {
    /// The library that the folder is in.
    pub library: Option<String>,
    /// The libraries it can be made in, where there is a choice.
    pub targets: Option<Vec<TargetEntry>>,
    pub saving: bool,
    pub error: Option<String>,
    pub save_label: &'static str,
}

/// A library is offered like this.
pub open spec fn offers_target(library: LibraryLocation, root: Seq<char>, entry: TargetEntry) -> bool {
    &&& entry.root@ == library.root@
    &&& entry.label@ == library.name@ + " · "@ + library.root@
    &&& entry.checked == (library.root@ == root)
}

fn target_entries(targets: &Vec<LibraryLocation>, root: &str) -> (result: Vec<TargetEntry>)
    ensures
        result@.len() == targets@.len(),
        forall|i: int|
            0 <= i < targets@.len() ==> offers_target(targets@[i], root@, #[trigger] result@[i]),
{
    let mut result: Vec<TargetEntry> = Vec::new();
    let mut i: usize = 0;
    while i < targets.len()
        invariant
            i <= targets@.len(),
            result@.len() == i,
            forall|j: int|
                0 <= j < i ==> offers_target(targets@[j], root@, #[trigger] result@[j]),
        decreases targets@.len() - i,
    {
        let library = &targets[i];
        result.push(
            TargetEntry {
                root: library.root.clone(),
                label: join3(library.name.as_str(), " · ", library.root.as_str()),
                checked: same(library.root.as_str(), root),
            },
        );
        i += 1;
    }
    result
}

/// What a person is asked before a folder is deleted, and the two answers.
pub struct DeleteView {
    /// The library that the folder is in.
    pub root: String,
    pub folder: u64,
    pub title: String,
    pub description: &'static str,
    pub keep: &'static str,
    pub delete: &'static str,
}

/// What the folder dialog shows: the editor while a folder is edited, and the question
/// while one is to be deleted.
pub struct FolderDialogView {
    pub editor: Option<FolderEditorView>,
    pub deletion: Option<DeleteView>,
}

/// The name of a folder in the library that it is in, else among the folders that
/// are shown.
pub open spec fn known_folder_name(
    indexes: Map<Seq<char>, Library>,
    root: Seq<char>,
    shown: Map<u64, String>,
    id: u64,
) -> Seq<char> {
    if indexes.contains_key(root) && indexes[root].folders.map().contains_key(id) {
        indexes[root].folders.map()[id]@
    } else {
        name_of_folder(shown, Some(id))
    }
}

fn known_name(
    indexes: &Table<String, Library>,
    root: &String,
    shown: &Table<u64, String>,
    id: u64,
) -> (result: String)
    requires
        indexes_wf(*indexes),
        shown.wf(),
    ensures
        result@ == known_folder_name(indexes.map(), root@, shown.map(), id),
{
    match indexes.get(root) {
        Some(index) => match index.folders.get(&id) {
            Some(name) => name.clone(),
            None => folder_name(shown, Some(id)),
        },
        None => folder_name(shown, Some(id)),
    }
}

impl FolderEditor {
    /// The editor as it is shown. Another library can be chosen for a new folder only.
    pub open spec fn shows_editor(self, view: FolderEditorView) -> bool {
        let renaming = self.editing->0 is Some;
        &&& text_of(view.library) == (match self.origin {
            Some(origin) => Some(
                match library_at(self.targets@, origin.root@) {
                    Some(library) => library.name@ + " · "@ + library.root@,
                    None => origin.root@,
                },
            ),
            None => None,
        })
        &&& match view.targets {
            Some(entries) => {
                &&& self.origin is Some && self.targets@.len() > 1 && !renaming
                &&& entries@.len() == self.targets@.len()
                &&& forall|i: int|
                    0 <= i < entries@.len() ==> offers_target(
                        self.targets@[i],
                        self.origin->0.root@,
                        #[trigger] entries@[i],
                    )
            },
            None => self.origin is None || self.targets@.len() <= 1 || renaming,
        }
        &&& view.saving == self.saving
        &&& text_of(view.error) == text_of(self.error)
        &&& view.save_label@ == (if renaming {
            "保存名称"@
        } else {
            "创建文件夹"@
        })
    }

    /// The library of the folder that is to be deleted: the one that the dialog was
    /// opened for, else the current one.
    pub open spec fn deletes_in(self, current: Seq<char>) -> Seq<char> {
        match self.origin {
            Some(origin) => origin.root@,
            None => current,
        }
    }

    /// What the folder dialog shows. `current` is the library that a folder is chosen
    /// for at present, `shown` are the folders of the library that is shown.
    pub fn folder_editor_view(
        &self,
        indexes: &Table<String, Library>,
        current: &String,
        shown: &Table<u64, String>,
    ) -> (result: FolderDialogView)
        requires
            indexes_wf(*indexes),
            shown.wf(),
        ensures
            result.editor is Some == self.editing is Some,
            result.editor matches Some(view) ==> self.shows_editor(view),
            result.deletion is Some == self.deleting is Some,
            result.deletion matches Some(view) ==> {
                &&& view.root@ == self.deletes_in(current@)
                &&& Some(view.folder) == self.deleting
                &&& view.title@ == "删除「"@ + known_folder_name(
                    indexes.map(),
                    view.root@,
                    shown.map(),
                    view.folder,
                ) + "」文件夹？"@
                &&& view.description@ == "其中的课程会回到未分类，笔记和原视频都会保留。"@
                &&& view.keep@ == "保留文件夹"@
                &&& view.delete@ == "删除文件夹，保留课程"@
            },
    {
        let editor = match self.editing {
            Some(id) => Some(self.editor(id)),
            None => None,
        };
        let deletion = match self.deleting {
            Some(id) => {
                let root = match &self.origin {
                    Some(origin) => origin.root.clone(),
                    None => current.clone(),
                };
                let name = known_name(indexes, &root, shown, id);
                Some(
                    DeleteView {
                        root,
                        folder: id,
                        title: join3("删除「", name.as_str(), "」文件夹？"),
                        description: "其中的课程会回到未分类，笔记和原视频都会保留。",
                        keep: "保留文件夹",
                        delete: "删除文件夹，保留课程",
                    },
                )
            },
            None => None,
        };
        FolderDialogView { editor, deletion }
    }

    fn editor(&self, id: Option<u64>) -> (result: FolderEditorView)
        requires
            self.editing == Some(id),
        ensures
            self.shows_editor(result),
    {
        let targets = match &self.origin {
            Some(origin) => {
                if self.targets.len() > 1 && id.is_none() {
                    Some(target_entries(&self.targets, origin.root.as_str()))
                } else {
                    None
                }
            },
            None => None,
        };
        FolderEditorView {
            library: self.library_label(),
            targets,
            saving: self.saving,
            error: match &self.error {
                Some(error) => Some(error.clone()),
                None => None,
            },
            save_label: if id.is_some() {
                "保存名称"
            } else {
                "创建文件夹"
            },
        }
    }

    /// The person keeps a folder after all.
    pub fn keep_folder(&mut self)
        ensures
            *final(self) == (FolderEditor { deleting: None, origin: None, ..*old(self) }),
    {
        self.deleting = None;
        self.origin = None;
    }

    /// The folder that the dialog asked about was deleted, and `library` are now the
    /// folders of its library; the dialog asks no more.
    pub fn finish_delete(
        &mut self,
        place: &mut LibraryPlace,
        indexes: &mut Table<String, Library>,
        root: String,
        library: Library,
        id: u64,
    )
        requires
            indexes_wf(*old(indexes)),
            library.wf(),
        ensures
            *final(self) == (FolderEditor { deleting: None, origin: None, ..*old(self) }),
            indexes_wf(*final(indexes)),
            final(indexes).map() == old(indexes).map().insert(root@, library),
            is_after_removal(*old(place), *final(place), root@, library, id),
    {
        self.keep_folder();
        folder_removed(place, indexes, root, library, id);
    }
}

/// What is shown once a folder was deleted. In the library it was in, its notes are
/// looked at without a folder now; inputs that name the folder keep naming it.
pub open spec fn is_after_removal(
    before: LibraryPlace,
    after: LibraryPlace,
    root: Seq<char>,
    library: Library,
    id: u64,
) -> bool {
    let shown = before.library_root@ == root;
    &&& shown ==> same_library(after.library, library)
    &&& !shown ==> after.library == before.library
    &&& after == (LibraryPlace {
        library: after.library,
        folder_filter: if shown && before.folder_filter == Some(id) {
            Some(0u64)
        } else {
            before.folder_filter
        },
        ..before
    })
}

/// A folder was deleted, and `library` are now the folders of its library.
pub fn folder_removed(
    place: &mut LibraryPlace,
    indexes: &mut Table<String, Library>,
    root: String,
    library: Library,
    id: u64,
)
    requires
        indexes_wf(*old(indexes)),
        library.wf(),
    ensures
        indexes_wf(*final(indexes)),
        final(indexes).map() == old(indexes).map().insert(root@, library),
        is_after_removal(*old(place), *final(place), root@, library, id),
{
    if same(place.library_root.as_str(), root.as_str()) {
        place.library = library.copy();
    }
    place.folder_filter = filter_after_removal(
        place.library_root.as_str(),
        root.as_str(),
        place.folder_filter,
        id,
    );
    indexes.insert(root, library);
}

/// What a person is asked before a folder of a library is deleted.
pub fn begin_delete_folder(
    indexes: &Table<String, Library>,
    root: &String,
    shown: &Table<u64, String>,
    id: u64,
) -> (result: DeleteView)
    requires
        indexes_wf(*indexes),
        shown.wf(),
    ensures
        result.root@ == root@,
        result.folder == id,
        result.title@ == "删除「"@ + known_folder_name(indexes.map(), root@, shown.map(), id)
            + "」文件夹？"@,
        result.description@ == "其中的笔记会回到未分类，笔记正文和原视频都会保留。"@,
        result.keep@ == "保留文件夹"@,
        result.delete@ == "删除文件夹"@,
{
    let name = known_name(indexes, root, shown, id);
    DeleteView {
        root: root.clone(),
        folder: id,
        title: join3("删除「", name.as_str(), "」文件夹？"),
        description: "其中的笔记会回到未分类，笔记正文和原视频都会保留。",
        keep: "保留文件夹",
        delete: "删除文件夹",
    }
}

// ------------------------------------------------------------------------- picker

/// The button that opens the folder menu.
pub struct FolderPickerView {
    pub label: String,
    pub description: String,
    pub disabled: bool,
    pub error: Option<String>,
}

/// The button that opens the folder menu: while libraries are read, or where the
/// folders cannot be, it is disabled.
pub fn folder_picker(context: &FolderContext, loading: bool) -> (result: FolderPickerView)
    ensures
        result.label@ == context.label@,
        result.description@ == "保存到文件夹："@ + context.label@,
        result.disabled == (loading || context.load_error is Some),
        text_of(result.error) == text_of(context.load_error),
{
    FolderPickerView {
        label: context.label.clone(),
        description: join2("保存到文件夹：", context.label.as_str()),
        disabled: loading || context.load_error.is_some(),
        error: match &context.load_error {
            Some(error) => Some(error.clone()),
            None => None,
        },
    }
}

/// What a choice in the folder menu does.
#[derive(Clone, Copy, Debug, PartialEq, Eq, Structural)]
pub enum FolderChoice {
    /// The note is moved.
    MoveNote,
    /// The input is for this folder from now on.
    SetTarget,
    /// The menu was opened for an input that is no longer there.
    Nothing,
}

/// A choice in the folder menu: it moves the note that the menu is for, or else sets
/// the folder of the input, where that is still the current one.
pub fn folder_menu(
    target_folder: &mut Option<u64>,
    for_note: bool,
    draft: Option<&Draft>,
    origin: &FolderOrigin,
    id: Option<u64>,
) -> (result: FolderChoice)
    ensures
        result == (if for_note {
            FolderChoice::MoveNote
        } else if draft is Some && text_of(origin.draft_id) == Some(draft->0.id@) {
            FolderChoice::SetTarget
        } else {
            FolderChoice::Nothing
        }),
        *final(target_folder) == (if result is SetTarget {
            id
        } else {
            *old(target_folder)
        }),
{
    if for_note {
        return FolderChoice::MoveNote;
    }
    let current = match draft {
        Some(own) => match &origin.draft_id {
            Some(draft_id) => same(draft_id.as_str(), own.id.as_str()),
            None => false,
        },
        None => false,
    };
    if current {
        *target_folder = id;
        FolderChoice::SetTarget
    } else {
        FolderChoice::Nothing
    }
}

// -------------------------------------------------------------------------- batch

/// Several files that are converted one after the other. They need a folder first.
pub struct BatchImport {
    pub files: Vec<String>,
    pub next: usize,
    pub queued: usize,
    pub failures: Vec<String>,
    pub folder: Option<u64>,
    pub first_task: Option<String>,
    pub current: Option<String>,
}

/// There is a batch, and it has no folder yet.
pub open spec fn lacks_folder(batch: Option<BatchImport>) -> bool {
    batch is Some && batch->0.folder is None
}

/// Closing the folder editor ends a batch that has no folder yet; the person is told.
pub fn close_folder_dialog(
    editor: &mut FolderEditor,
    batch: &mut Option<BatchImport>,
    message: &mut Option<String>,
)
    ensures
        *final(editor) == (FolderEditor { editing: None, origin: None, error: None, ..*old(editor) }),
        ({
            let ends = lacks_folder(*old(batch));
            &&& *final(batch) == (if ends {
                None
            } else {
                *old(batch)
            })
            &&& ends ==> text_of(*final(message)) == Some(
                "批量处理已取消；必须新建一个笔记文件夹才能继续"@,
            )
            &&& !ends ==> *final(message) == *old(message)
        }),
{
    let ends = match batch {
        Some(own) => own.folder.is_none(),
        None => false,
    };
    if ends {
        *batch = None;
        *message = Some("批量处理已取消；必须新建一个笔记文件夹才能继续".to_owned());
    }
    editor.close();
}

/// The folder in which a waiting batch starts once a folder was saved.
pub fn batch_folder(saved: Option<u64>, waiting: bool) -> (result: Option<u64>)
    ensures
        result == (if waiting {
            saved
        } else {
            None
        }),
{
    if waiting {
        saved
    } else {
        None
    }
}

/// A batch never goes on without a folder: once the dialog for it is closed, what is
/// left of a batch has one.
pub proof fn a_batch_has_a_folder(before: Option<BatchImport>, after: Option<BatchImport>)
    requires
        after == (if lacks_folder(before) {
            None
        } else {
            before
        }),
    ensures
        !lacks_folder(after),
{
}

// ------------------------------------------------------------- what a choice does

/// The dialog asks about the folder that is to be deleted by its name in the library it is in,
/// and about none where none is.
pub proof fn the_question_names_the_folder(
    editor: FolderEditor,
    indexes: Table<String, Library>,
    current: String,
    shown: Table<u64, String>,
    view: FolderDialogView,
)
    requires
        indexes_wf(indexes),
        shown.wf(),
        call_ensures(
            FolderEditor::folder_editor_view,
            (&editor, &indexes, &current, &shown),
            view,
        ),
    ensures
        view.editor is Some <==> editor.editing is Some,
        view.deletion is Some <==> editor.deleting is Some,
        view.deletion matches Some(asked) ==> {
            &&& Some(asked.folder) == editor.deleting
            &&& editor.origin is None ==> asked.root@ == current@
            &&& editor.origin matches Some(origin) ==> asked.root@ == origin.root@
            &&& indexes.map().contains_key(asked.root@)
                && indexes.map()[asked.root@].folders.map().contains_key(asked.folder)
                ==> asked.title@ == "删除「"@
                + indexes.map()[asked.root@].folders.map()[asked.folder]@ + "」文件夹？"@
        },
        view.editor matches Some(own) ==> own.saving == editor.saving && (own.targets is Some
            ==> own.targets->0@.len() == editor.targets@.len() && editor.editing == Some(
            None::<u64>,
        )),
{
}

/// A choice in the menu moves the note it was opened for; otherwise it sets the folder of the
/// input, where that is still the one it was opened for.
pub proof fn a_choice_is_for_what_the_menu_was_opened_for(
    target: &mut Option<u64>,
    for_note: bool,
    draft: Option<&Draft>,
    origin: FolderOrigin,
    id: Option<u64>,
    choice: FolderChoice,
)
    requires
        call_ensures(folder_menu, (target, for_note, draft, &origin, id), choice),
    ensures
        choice is MoveNote <==> for_note,
        choice is SetTarget ==> *final(target) == id && draft is Some && origin.draft_id is Some
            && origin.draft_id->0@ == draft->0.id@,
        !(choice is SetTarget) ==> *final(target) == *old(target),
        !for_note && draft is Some && origin.draft_id is Some && origin.draft_id->0@ == draft->0.id@
            ==> choice is SetTarget,
{
}

/// The button cannot be pressed while libraries are read or where the folders cannot be, and it
/// says where the note is.
pub proof fn the_button_says_where_the_note_is(
    context: FolderContext,
    loading: bool,
    view: FolderPickerView,
)
    requires
        call_ensures(folder_picker, (&context, loading), view),
    ensures
        !view.disabled <==> !loading && context.load_error is None,
        view.label@ == context.label@,
        view.description@ == "保存到文件夹："@ + context.label@,
        text_of(view.error) == text_of(context.load_error),
{
}

/// Closing the dialog ends a batch that has no folder, and tells so; any other batch goes on.
pub proof fn closing_ends_a_batch_without_a_folder(
    editor: &mut FolderEditor,
    batch: &mut Option<BatchImport>,
    message: &mut Option<String>,
)
    requires
        call_ensures(close_folder_dialog, (editor, batch, message), ()),
    ensures
        lacks_folder(*old(batch)) ==> *final(batch) is None && *final(message) is Some,
        !lacks_folder(*old(batch)) ==> *final(batch) == *old(batch) && *final(message) == *old(
            message),
        final(editor).editing is None,
        final(editor).origin is None,
{
}

/// What was deleted is gone from what is shown of its library, and nothing of another library
/// changes.
pub proof fn a_deletion_is_seen_in_its_library(
    place: &mut LibraryPlace,
    indexes: &mut Table<String, Library>,
    root: String,
    library: Library,
    id: u64,
    other: Seq<char>,
)
    requires
        indexes_wf(*old(indexes)),
        library.wf(),
        call_ensures(folder_removed, (place, indexes, root, library, id), ()),
    ensures
        final(indexes).map()[root@] == library && final(indexes).map().contains_key(root@),
        other != root@ ==> (final(indexes).map().contains_key(other) <==> old(
            indexes).map().contains_key(other)),
        old(place).library_root@ == root@ ==> final(place).library.folders.map()
            == library.folders.map() && final(place).folder_filter != Some(id) || id == 0,
        old(place).library_root@ != root@ ==> *final(place) == *old(place),
        final(place).target_folder == old(place).target_folder,
        final(place).search == old(place).search,
        old(place).folder_filter != Some(id) ==> final(place).folder_filter == old(
            place).folder_filter,
{
}

/// A batch that waits starts in the folder that was saved for it.
pub proof fn a_batch_starts_in_its_folder(saved: Option<u64>, waiting: bool, folder: Option<u64>)
    requires
        call_ensures(batch_folder, (saved, waiting), folder),
    ensures
        waiting ==> folder == saved,
        !waiting ==> folder is None,
{
}

/// The libraries in which a folder can be made are offered each under its name and place, and the
/// one it will be made in is marked.
pub proof fn the_library_of_a_new_folder_is_marked(
    editor: FolderEditor,
    indexes: Table<String, Library>,
    current: String,
    shown: Table<u64, String>,
    view: FolderDialogView,
    i: int,
)
    requires
        indexes_wf(indexes),
        shown.wf(),
        call_ensures(
            FolderEditor::folder_editor_view,
            (&editor, &indexes, &current, &shown),
            view,
        ),
        view.editor is Some && view.editor->0.targets is Some,
        0 <= i < editor.targets@.len(),
    ensures
        ({
            let entry = view.editor->0.targets->0@[i];
            &&& entry.root@ == editor.targets@[i].root@
            &&& entry.checked <==> editor.targets@[i].root@ == editor.origin->0.root@
            &&& entry.label@ == editor.targets@[i].name@ + " · "@ + editor.targets@[i].root@
        }),
        editor.origin is Some && editor.targets@.len() > 1,
        text_of(view.editor->0.error) == text_of(editor.error),
{
    assert(editor.shows_editor(view.editor->0));
    assert(offers_target(
        editor.targets@[i],
        editor.origin->0.root@,
        view.editor->0.targets->0@[i],
    ));
}

} // verus!
