//! What the library page shows of its rows: filters and tools, notices, groups, and
//! the notes themselves.
use crate::course_library::{
    filter_entries, filter_views, library_filter_options, library_filter_selected,
    library_layout_choice, selected_value, FilterSection, LibraryFilterOption,
};
use crate::folders::LibraryPlace;
use crate::library_page::{
    empty_texts, library_controls_visible, LibraryItem, NoticeModel, RecoveryNotice,
};
use crate::notes::{
    course_display_title, folders_in_order, indexes_wf, lists_folders, same_library, title_at, Course,
    Library, LibraryViewCache,
};
use crate::recent_notes::reading_label;
use crate::table::Table;
use crate::text::{decimal, join2, join3, number, same, trim, trimmed};
use crate::workspace::{is_text, text_of, LibraryLocation, TaskRecord};
use vstd::prelude::*;
use vstd::string::*;

verus! {

// ------------------------------------------------------------------------- filter

/// The libraries among the first `n` whose folders could be read.
pub open spec fn readable(
    libraries: Seq<LibraryLocation>,
    indexes: Map<Seq<char>, Library>,
    n: nat,
) -> Seq<LibraryLocation>
    decreases n,
{
    if n == 0 {
        Seq::empty()
    } else {
        let before = readable(libraries, indexes, (n - 1) as nat);
        if indexes.contains_key(libraries[n - 1].root@) {
            before.push(libraries[n - 1])
        } else {
            before
        }
    }
}

/// A section of the filter: a library with its folders.
pub open spec fn is_section(
    section: FilterSection,
    root: Seq<char>,
    name: Seq<char>,
    folders: Map<u64, String>,
) -> bool {
    section.0@ == root && section.1@ == name && lists_folders(section.2@, folders)
}

/// The sections of the filter: the libraries that could be read, else the one that is
/// shown.
pub open spec fn are_sections(
    sections: Seq<FilterSection>,
    libraries: Seq<LibraryLocation>,
    indexes: Map<Seq<char>, Library>,
    library_root: Seq<char>,
    shown: Map<u64, String>,
) -> bool {
    let known = readable(libraries, indexes, libraries.len());
    if known.len() > 0 {
        &&& sections.len() == known.len()
        &&& forall|i: int|
            0 <= i < known.len() ==> is_section(
                #[trigger] sections[i],
                known[i].root@,
                known[i].name@,
                indexes[known[i].root@].folders.map(),
            )
    } else {
        sections.len() == 1 && is_section(sections[0], library_root, "课程库"@, shown)
    }
}

fn filter_sections(
    libraries: &Vec<LibraryLocation>,
    indexes: &Table<String, Library>,
    library_root: &str,
    shown: &Table<u64, String>,
) -> (result: Vec<FilterSection>)
    requires
        indexes_wf(*indexes),
        shown.wf(),
    ensures
        are_sections(result@, libraries@, indexes.map(), library_root@, shown.map()),
{
    let mut sections: Vec<FilterSection> = Vec::new();
    let mut i: usize = 0;
    while i < libraries.len()
        invariant
            i <= libraries@.len(),
            indexes_wf(*indexes),
            sections@.len() == readable(libraries@, indexes.map(), i as nat).len(),
            forall|j: int|
                0 <= j < sections@.len() ==> is_section(
                    #[trigger] sections@[j],
                    readable(libraries@, indexes.map(), i as nat)[j].root@,
                    readable(libraries@, indexes.map(), i as nat)[j].name@,
                    indexes.map()[readable(
                        libraries@,
                        indexes.map(),
                        i as nat,
                    )[j].root@].folders.map(),
                ),
        decreases libraries@.len() - i,
    {
        let library = &libraries[i];
        if let Some(index) = indexes.get(&library.root) {
            sections.push(
                (library.root.clone(), library.name.clone(), folders_in_order(&index.folders)),
            );
        }
        i += 1;
    }
    if sections.len() == 0 {
        sections.push((library_root.to_owned(), "课程库".to_owned(), folders_in_order(shown)));
    }
    sections
}

/// The filter by folders: its entries, and the one that is marked.
pub struct FilterControl {
    pub options: Vec<LibraryFilterOption>,
    pub selected: String,
}

/// The filter by folders, over all libraries that could be read. `shown` are the
/// folders of the library that is shown.
pub fn folder_filter_control(
    libraries: &Vec<LibraryLocation>,
    indexes: &Table<String, Library>,
    library_root: &str,
    shown: &Table<u64, String>,
    folder_filter: Option<u64>,
) -> (result: FilterControl)
    requires
        indexes_wf(*indexes),
        shown.wf(),
    ensures
        exists|sections: Seq<FilterSection>|
            {
                &&& #[trigger] are_sections(
                    sections,
                    libraries@,
                    indexes.map(),
                    library_root@,
                    shown.map(),
                )
                &&& filter_views(result.options@) == filter_entries(
                    sections,
                    library_root@,
                    libraries@.len() > 1,
                    sections.len(),
                )
            },
        result.selected@ == selected_value(
            filter_views(result.options@),
            library_root@,
            folder_filter,
        ),
{
    let sections = filter_sections(libraries, indexes, library_root, shown);
    let options = library_filter_options(
        sections.as_slice(),
        library_root,
        libraries.len() > 1,
    );
    let selected = library_filter_selected(options.as_slice(), library_root, folder_filter);
    FilterControl { options, selected }
}

/// An entry of the filter was chosen. Where the folders of its library could be read,
/// they are shown.
pub fn choose_filter(
    place: &mut LibraryPlace,
    option: &LibraryFilterOption,
    indexes: &Table<String, Library>,
)
    requires
        indexes_wf(*indexes),
    ensures
        final(place).library_root@ == option.root@,
        *final(place) == (LibraryPlace {
            library_root: final(place).library_root,
            library: final(place).library,
            folder_filter: option.folder,
            ..*old(place)
        }),
        indexes.map().contains_key(option.root@) ==> same_library(
            final(place).library,
            indexes.map()[option.root@],
        ),
        !indexes.map().contains_key(option.root@) ==> final(place).library == old(place).library,
{
    place.library_root = option.root.clone();
    if let Some(library) = indexes.get(&option.root) {
        place.library = library.copy();
    }
    place.folder_filter = option.folder;
}

// -------------------------------------------------------------------------- tools

/// The tools above the notes.
pub struct ToolbarView {
    /// The folder that can be renamed or deleted.
    pub managed_folder: Option<u64>,
    pub layout: &'static str,
    /// The label of the button that groups the notes by folders.
    pub group_label: Option<&'static str>,
}

/// The tools above the notes; none while the library is empty and nothing narrows it.
pub fn library_toolbar(
    courses: usize,
    folder_filter: Option<u64>,
    search: &str,
    failed: bool,
    issues: usize,
    loading: bool,
    cards: bool,
    grouped: bool,
) -> (result: Option<ToolbarView>)
    ensures
        result is Some == (courses > 0 || folder_filter is Some || search@.len() > 0 || failed
            || issues > 0 || loading),
        result matches Some(view) ==> {
            &&& view.managed_folder == (if folder_filter == Some(0u64) {
                None
            } else {
                folder_filter
            })
            &&& view.layout@ == (if cards {
                "cards"@
            } else {
                "list"@
            })
            &&& match view.group_label {
                Some(label) => folder_filter is None && !failed && label@ == (if grouped {
                    "取消按文件夹分组"@
                } else {
                    "按文件夹分组"@
                }),
                None => folder_filter is Some || failed,
            }
        },
{
    if !library_controls_visible(courses, folder_filter, search, failed, issues, loading) {
        return None;
    }
    Some(
        ToolbarView {
            managed_folder: match folder_filter {
                Some(id) => {
                    if id != 0 {
                        Some(id)
                    } else {
                        None
                    }
                },
                None => None,
            },
            layout: library_layout_choice(cards),
            group_label: if folder_filter.is_none() && !failed {
                Some(
                    if grouped {
                        "取消按文件夹分组"
                    } else {
                        "按文件夹分组"
                    },
                )
            } else {
                None
            },
        },
    )
}

// --------------------------------------------------------------------------- rows

/// What an empty page offers.
#[derive(Clone, Copy, Debug, PartialEq, Eq, Structural)]
pub enum EmptyAction {
    ClearSearch,
    ImportVideo,
    AllNotes,
}

/// The space below a row.
#[derive(Clone, Copy, Debug, PartialEq, Eq, Structural)]
pub enum Gap {
    Nothing,
    /// Between a header and its group, and between notes in a list.
    Narrow,
    /// Between rows of cards.
    Cards,
    /// Between groups.
    Group,
    /// Around notices.
    Wide,
}

/// What a row shows.
pub enum ItemView {
    Checking,
    Recovery,
    Text(String),
    Issues { messages: usize },
    Loading,
    /// An empty page; it moves in only once while it stays empty.
    Empty {
        heading: &'static str,
        description: &'static str,
        action: EmptyAction,
        animated: bool,
    },
    SearchScope(String),
    Header { label: String, name: String, count: String, collapsed: bool },
    /// A group: hidden, or shown for the first time since it was opened, or as before.
    Body { hidden: bool, animated: bool },
    Cards,
    Note,
}

/// The space below a row; the last row has none.
pub open spec fn gap_below(item: LibraryItem, last: bool) -> Gap {
    if last {
        Gap::Nothing
    } else {
        match item {
            LibraryItem::GroupHeader(_) | LibraryItem::ListRow(_, _) => Gap::Narrow,
            LibraryItem::GroupBody(_) => Gap::Group,
            LibraryItem::CardRow(_) => Gap::Cards,
            _ => Gap::Wide,
        }
    }
}

/// The label of a group's header.
pub open spec fn header_label(name: Seq<char>, count: usize, collapsed: bool) -> Seq<char> {
    (if collapsed {
        "展开"@
    } else {
        "收起"@
    }) + " "@ + name + "，"@ + decimal(count as nat) + " 篇笔记"@
}

/// The name under which it is remembered that a group was opened.
pub open spec fn disclosure_key(index: usize) -> Seq<char> {
    "folder-disclosure-"@ + decimal(index as nat)
}

/// The name under which it is remembered that the page was shown empty.
pub open spec fn empty_state() -> Seq<char> {
    "library-empty-state"@
}

/// A row shows this. `entered` is what was shown before.
pub open spec fn shows_item(
    item: LibraryItem,
    searching: bool,
    has_issues: bool,
    filtered: bool,
    entered: Map<Seq<char>, ()>,
    view: ItemView,
) -> bool {
    match item {
        LibraryItem::Checking => view is Checking,
        LibraryItem::Recovery => view is Recovery,
        LibraryItem::Coverage(message) => view matches ItemView::Text(text) && text@ == message@,
        LibraryItem::Issues(messages) => view == (ItemView::Issues { messages: messages.len() }),
        LibraryItem::Loading => view is Loading,
        LibraryItem::Empty { partial } => view matches ItemView::Empty {
            heading,
            description,
            action,
            animated,
        } && (heading@, description@) == empty_page(searching, partial, has_issues, filtered)
            && animated == !entered.contains_key(empty_state()) && action == (if searching {
            EmptyAction::ClearSearch
        } else if filtered {
            EmptyAction::AllNotes
        } else {
            EmptyAction::ImportVideo
        }),
        LibraryItem::SearchScope(message) => view matches ItemView::SearchScope(text) && text@
            == message@,
        LibraryItem::GroupHeader(header) => view matches ItemView::Header {
            label,
            name,
            count,
            collapsed,
        } && collapsed == header.collapsed && name@ == header.name@ && count@ == decimal(
            header.count as nat,
        ) && label@ == header_label(header.name@, header.count, header.collapsed),
        LibraryItem::GroupBody(body) => view == (ItemView::Body {
            hidden: body.collapsed,
            animated: !body.collapsed && !entered.contains_key(disclosure_key(body.index)),
        }),
        LibraryItem::CardRow(_) => view is Cards,
        LibraryItem::ListRow(_, _) => view is Note,
    }
}

/// What an empty page says: its heading and its description.
pub open spec fn empty_page(
    searching: bool,
    partial: bool,
    has_issues: bool,
    filtered: bool,
) -> (Seq<char>, Seq<char>) {
    if searching {
        (
            if partial || has_issues {
                "已读取的笔记中没有匹配的笔记。"@
            } else {
                "没有匹配的笔记"@
            },
            if partial {
                "未连接的位置尚未搜索。可以重新连接保存位置，或调整关键词。"@
            } else {
                "试试更短的关键词。"@
            },
        )
    } else if filtered {
        ("这个文件夹还没有笔记"@, "从全部笔记中选择内容，移到这个文件夹。"@)
    } else {
        ("还没有笔记"@, "导入视频，生成的内容会保存在这里"@)
    }
}

impl LibraryItem {
    /// What the row shows, and the space below it. A group or an empty page that is
    /// shown is remembered, so that it moves in only once.
    pub fn library_item(
        &self,
        last: bool,
        searching: bool,
        has_issues: bool,
        filtered: bool,
        entered: &mut Table<String, ()>,
    ) -> (result: (ItemView, Gap))
        requires
            old(entered).wf(),
        ensures
            final(entered).wf(),
            shows_item(*self, searching, has_issues, filtered, old(entered).map(), result.0),
            result.1 == gap_below(*self, last),
            final(entered).map() == (match *self {
                LibraryItem::GroupBody(body) if !body.collapsed => old(entered).map().insert(
                    disclosure_key(body.index),
                    (),
                ),
                LibraryItem::Empty { .. } => old(entered).map().insert(empty_state(), ()),
                _ => old(entered).map(),
            }),
    {
        let gap = if last {
            Gap::Nothing
        } else {
            match self {
                LibraryItem::GroupHeader(_) | LibraryItem::ListRow(_, _) => Gap::Narrow,
                LibraryItem::GroupBody(_) => Gap::Group,
                LibraryItem::CardRow(_) => Gap::Cards,
                _ => Gap::Wide,
            }
        };
        let view = match self {
            LibraryItem::Checking => ItemView::Checking,
            LibraryItem::Recovery => ItemView::Recovery,
            LibraryItem::Coverage(message) => ItemView::Text(message.clone()),
            LibraryItem::Issues(messages) => ItemView::Issues { messages: messages.len() },
            LibraryItem::Loading => ItemView::Loading,
            LibraryItem::Empty { partial } => {
                let (heading, description) = empty_texts(
                    searching,
                    *partial,
                    has_issues,
                    filtered,
                );
                let key = "library-empty-state".to_owned();
                let known = entered.contains(&key);
                entered.insert(key, ());
                ItemView::Empty {
                    heading,
                    description,
                    animated: !known,
                    action: if searching {
                        EmptyAction::ClearSearch
                    } else if filtered {
                        EmptyAction::AllNotes
                    } else {
                        EmptyAction::ImportVideo
                    },
                }
            },
            LibraryItem::SearchScope(message) => ItemView::SearchScope(message.clone()),
            LibraryItem::GroupHeader(header) => {
                let count = number(header.count as u64);
                let mut label = if header.collapsed {
                    "展开".to_owned()
                } else {
                    "收起".to_owned()
                };
                label.append(" ");
                label.append(header.name.as_str());
                label.append("，");
                label.append(count.as_str());
                label.append(" 篇笔记");
                ItemView::Header {
                    label,
                    name: header.name.clone(),
                    count,
                    collapsed: header.collapsed,
                }
            },
            LibraryItem::GroupBody(body) => {
                if body.collapsed {
                    ItemView::Body { hidden: true, animated: false }
                } else {
                    let key = join2("folder-disclosure-", number(body.index as u64).as_str());
                    let known = entered.contains(&key);
                    entered.insert(key, ());
                    ItemView::Body { hidden: false, animated: !known }
                }
            },
            LibraryItem::CardRow(_) => ItemView::Cards,
            LibraryItem::ListRow(_, _) => ItemView::Note,
        };
        (view, gap)
    }
}

/// The page shows notes, in groups or outside.
pub open spec fn shows_notes(items: Seq<LibraryItem>) -> bool {
    exists|i: int| 0 <= i < items.len() && is_note_row(#[trigger] items[i])
}

pub open spec fn is_note_row(item: LibraryItem) -> bool {
    item is GroupHeader || item is CardRow || item is ListRow
}

/// Once the page shows notes again, it is forgotten that it was empty.
pub fn leave_empty_state(items: &Vec<LibraryItem>, entered: &mut Table<String, ()>)
    requires
        old(entered).wf(),
    ensures
        final(entered).wf(),
        final(entered).map() == (if shows_notes(items@) {
            old(entered).map().remove(empty_state())
        } else {
            old(entered).map()
        }),
{
    let mut i: usize = 0;
    while i < items.len()
        invariant
            i <= items@.len(),
            old(entered).wf(),
            *entered == *old(entered),
            forall|j: int| 0 <= j < i ==> !is_note_row(#[trigger] items@[j]),
        decreases items@.len() - i,
    {
        if matches!(
            items[i],
            LibraryItem::GroupHeader(_) | LibraryItem::CardRow(_) | LibraryItem::ListRow(_, _)
        ) {
            assert(is_note_row(items@[i as int]));
            let _ = entered.remove(&"library-empty-state".to_owned());
            return;
        }
        i += 1;
    }
}

/// The place of the first row of notes that stands outside groups, and whether it is
/// a row of cards.
pub open spec fn first_flat_row(items: Seq<LibraryItem>) -> Option<(bool, usize)>
    decreases items.len(),
{
    if items.len() == 0 {
        None
    } else {
        match items[0] {
            LibraryItem::CardRow(row) => Some(
                (
                    true,
                    if row@.len() > 0 {
                        row@[0].0
                    } else {
                        0
                    },
                ),
            ),
            LibraryItem::ListRow(index, _) => Some((false, index)),
            _ => first_flat_row(items.skip(1)),
        }
    }
}

/// What the notes outside groups are known by: whether they are cards, and the first
/// of them.
pub fn library_list_page(items: &Vec<LibraryItem>) -> (result: Option<(bool, usize)>)
    ensures
        result == first_flat_row(items@),
{
    let mut i: usize = 0;
    assert(items@.skip(0) =~= items@);
    while i < items.len()
        invariant
            i <= items@.len(),
            first_flat_row(items@.skip(i as int)) == first_flat_row(items@),
        decreases items@.len() - i,
    {
        assert(items@.skip(i as int)[0] == items@[i as int]);
        match &items[i] {
            LibraryItem::CardRow(row) => {
                return Some(
                    (
                        true,
                        if row.len() > 0 {
                            row[0].0
                        } else {
                            0
                        },
                    ),
                );
            },
            LibraryItem::ListRow(index, _) => {
                return Some((false, *index));
            },
            _ => {},
        }
        assert(items@.skip(i as int).skip(1) =~= items@.skip(i + 1));
        i += 1;
    }
    None
}

// ------------------------------------------------------------------------- notices

/// What a notice about a library says and offers.
pub struct NoticeView {
    pub badge: &'static str,
    pub text: String,
    /// The library is looked at once more.
    pub can_check: bool,
    /// A backup can be restored.
    pub restore: Option<&'static str>,
    /// The record can be made anew.
    pub rebuild: Option<&'static str>,
    /// Making it anew is what is suggested.
    pub rebuild_first: bool,
    pub diagnostics: bool,
}

/// What a notice about this library says and offers.
pub open spec fn shows_notice(notice: NoticeModel, name: Seq<char>, view: NoticeView) -> bool {
    match notice {
        NoticeModel::Unavailable { .. } => {
            &&& view.badge@ == "保存位置不可用"@
            &&& view.text@ == name + " 暂时无法访问。连接后可继续浏览笔记。"@
            &&& view.can_check
            &&& view.restore is None && view.rebuild is None
            &&& !view.rebuild_first && !view.diagnostics
        },
        NoticeModel::Classification { has_backup, diagnostics, .. } => {
            &&& view.badge@ == "分类需要恢复"@
            &&& view.text@ == name
                + " 的分类记录无法读取。已读取的笔记仍可阅读，文件夹分类暂不可用。"@
            &&& !view.can_check
            &&& match view.restore {
                Some(label) => has_backup && label@ == "恢复最近分类备份"@,
                None => !has_backup,
            }
            &&& view.rebuild matches Some(label) && label@ == "保留损坏记录并重建分类"@
            &&& view.rebuild_first == !has_backup
            &&& view.diagnostics == (diagnostics.len() > 0)
        },
        NoticeModel::Names { has_backup, diagnostics, .. } => {
            &&& view.badge@ == "笔记名称需要恢复"@
            &&& view.text@ == name + " 的笔记名称记录无法读取，现有正文文件会保留。"@
            &&& !view.can_check
            &&& match view.restore {
                Some(label) => has_backup && label@ == "恢复最近名称备份"@,
                None => !has_backup,
            }
            &&& view.rebuild matches Some(label) && label@ == "保留损坏记录并恢复原名称"@
            &&& !view.rebuild_first
            &&& view.diagnostics == (diagnostics.len() > 0)
        },
    }
}

impl RecoveryNotice {
    /// What the notice says of the library with this name.
    pub fn library_recovery_view(&self, name: &str) -> (result: NoticeView)
        ensures
            shows_notice(self@, name@, result),
    {
        match self {
            RecoveryNotice::Unavailable { index: _ } => NoticeView {
                badge: "保存位置不可用",
                text: join2(name, " 暂时无法访问。连接后可继续浏览笔记。"),
                can_check: true,
                restore: None,
                rebuild: None,
                rebuild_first: false,
                diagnostics: false,
            },
            RecoveryNotice::Classification { index: _, has_backup, diagnostics } => NoticeView {
                badge: "分类需要恢复",
                text: join2(
                    name,
                    " 的分类记录无法读取。已读取的笔记仍可阅读，文件夹分类暂不可用。",
                ),
                can_check: false,
                restore: if *has_backup {
                    Some("恢复最近分类备份")
                } else {
                    None
                },
                rebuild: Some("保留损坏记录并重建分类"),
                rebuild_first: !*has_backup,
                diagnostics: diagnostics.len() > 0,
            },
            RecoveryNotice::Names { index: _, has_backup, diagnostics } => NoticeView {
                badge: "笔记名称需要恢复",
                text: join2(name, " 的笔记名称记录无法读取，现有正文文件会保留。"),
                can_check: false,
                restore: if *has_backup {
                    Some("恢复最近名称备份")
                } else {
                    None
                },
                rebuild: Some("保留损坏记录并恢复原名称"),
                rebuild_first: false,
                diagnostics: diagnostics.len() > 0,
            },
        }
    }
}

// --------------------------------------------------------------------------- notes

/// How a note is shown.
pub struct NoteView {
    pub label: String,
    pub line: String,
    /// The label of the button that opens it; an icon alone where space is short.
    pub action: Option<&'static str>,
    /// It is being opened.
    pub opening: bool,
    pub shows_folder: bool,
}

/// A note on a card. `meta` and `description` are the lines about it.
pub fn library_card(
    course: &Course,
    meta: &str,
    has_position: bool,
    opening_course: &Option<String>,
) -> (result: NoteView)
    ensures
        result.label@ == "阅读 "@ + course.title@,
        result.line@ == meta@,
        result.action matches Some(label) && label@ == reading_label(has_position, "阅读笔记"@),
        result.opening == (text_of(*opening_course) == Some(course.dir@)),
        result.shows_folder,
{
    NoteView {
        label: join2("阅读 ", course.title.as_str()),
        line: meta.to_owned(),
        action: Some(
            if has_position {
                "继续阅读"
            } else {
                "阅读笔记"
            },
        ),
        opening: is_text(opening_course, course.dir.as_str()),
        shows_folder: true,
    }
}

/// The number of empty places that keep the last row of cards as wide as the others.
pub fn library_card_row(cards: usize, columns: usize) -> (result: usize)
    ensures
        result == (if cards < columns {
            columns - cards
        } else {
            0
        }),
{
    if cards < columns {
        columns - cards
    } else {
        0
    }
}

/// A note in a list. In a group its folder is not shown, since the header names it;
/// the button has a label unless the list is narrow and unstacked.
pub fn library_list_row(
    course: &Course,
    meta: &str,
    description: &str,
    has_position: bool,
    opening_course: &Option<String>,
    grouped: bool,
    compact: bool,
    stacked: bool,
) -> (result: NoteView)
    ensures
        result.label@ == "阅读 "@ + course.title@,
        result.line@ == meta@ + " · "@ + description@,
        match result.action {
            Some(label) => (!compact || stacked) && label@ == reading_label(
                has_position,
                "阅读"@,
            ),
            None => compact && !stacked,
        },
        result.opening == (text_of(*opening_course) == Some(course.dir@)),
        result.shows_folder == !grouped,
{
    NoteView {
        label: join2("阅读 ", course.title.as_str()),
        line: join3(meta, " · ", description),
        action: if !compact || stacked {
            Some(
                if has_position {
                    "继续阅读"
                } else {
                    "阅读"
                },
            )
        } else {
            None
        },
        opening: is_text(opening_course, course.dir.as_str()),
        shows_folder: !grouped,
    }
}

/// A note among the recent ones.
pub fn recent_note_row(course: &Course, meta: &str, description: &str) -> (result: NoteView)
    ensures
        result.label@ == "阅读 "@ + course.title@,
        result.line@ == description@ + " · "@ + meta@,
        result.action matches Some(label) && label@ == "阅读笔记"@,
        !result.opening,
        !result.shows_folder,
{
    NoteView {
        label: join2("阅读 ", course.title.as_str()),
        line: join3(description, " · ", meta),
        action: Some("阅读笔记"),
        opening: false,
        shows_folder: false,
    }
}

/// The first task with this id is at `i`.
pub open spec fn first_task(tasks: Seq<TaskRecord>, id: Seq<char>, i: int) -> bool {
    &&& 0 <= i < tasks.len()
    &&& tasks[i].id@ == id
    &&& forall|j: int| 0 <= j < i ==> (#[trigger] tasks[j]).id@ != id
}

/// The place of the task that made a note.
pub fn note_task(course: &Course, tasks: &Vec<TaskRecord>) -> (result: Option<usize>)
    ensures
        match result {
            Some(i) => course.manifest is Some && first_task(
                tasks@,
                course.manifest->0.task_id@,
                i as int,
            ),
            None => course.manifest is None || forall|j: int|
                0 <= j < tasks@.len() ==> (#[trigger] tasks@[j]).id@
                    != course.manifest->0.task_id@,
        },
{
    let manifest = match &course.manifest {
        Some(manifest) => manifest,
        None => {
            return None;
        },
    };
    let mut i: usize = 0;
    while i < tasks.len()
        invariant
            i <= tasks@.len(),
            course.manifest == Some(*manifest),
            forall|j: int| 0 <= j < i ==> (#[trigger] tasks@[j]).id@ != manifest.task_id@,
        decreases tasks@.len() - i,
    {
        if same(tasks[i].id.as_str(), manifest.task_id.as_str()) {
            return Some(i);
        }
        i += 1;
    }
    None
}

// -------------------------------------------------------------------------- rename

/// The start of renaming a note: the library it is in and the name it has.
pub struct RenameStart {
    pub root: String,
    pub name: String,
}

/// The start of renaming a note; where its library is not known, what a person is
/// told.
pub fn begin_course_rename(
    cache: &LibraryViewCache,
    libraries: &Vec<LibraryLocation>,
    courses: &Vec<Course>,
    course: &Course,
) -> (result: Result<RenameStart, &'static str>)
    requires
        cache.wf(),
    ensures
        match result {
            Ok(start) => {
                &&& cache.library_of(libraries@, course.storage@) matches Some(library)
                    && start.root@ == library.root@
                &&& start.name@ == (match title_at(courses@, course.storage@) {
                    Some(title) => title,
                    None => course.title@,
                })
            },
            Err(message) => cache.library_of(libraries@, course.storage@) is None && message@
                == "这份笔记的保存位置暂时无法确认，请重新检查课程库。"@,
        },
{
    match cache.course_location(libraries, &course.storage) {
        Some(library) => Ok(
            RenameStart {
                root: library.root.clone(),
                name: course_display_title(courses, course),
            },
        ),
        None => Err("这份笔记的保存位置暂时无法确认，请重新检查课程库。"),
    }
}

/// What a person is told once a note has its new name.
pub fn renamed_message(name: &str) -> (result: String)
    ensures
        result@ == "笔记已更名为「"@ + trimmed(name@) + "」。"@,
{
    join3("笔记已更名为「", trim(name).as_str(), "」。")
}

// ---------------------------------------------------------------------------- laws

/// A group that was shown once is not opened with a motion again, until it is closed
/// by a person.
pub proof fn a_group_opens_once(
    item: LibraryItem,
    entered: Map<Seq<char>, ()>,
    searching: bool,
    has_issues: bool,
    filtered: bool,
    view: ItemView,
)
    requires
        item matches LibraryItem::GroupBody(body) && entered.contains_key(
            disclosure_key(body.index),
        ),
        shows_item(item, searching, has_issues, filtered, entered, view),
    ensures
        view matches ItemView::Body { animated, .. } && !animated,
{
}

/// Choosing an entry of the filter shows that folder of that library, and its folders where they
/// were read; what is searched for stays.
pub proof fn choosing_a_filter_shows_its_folder(
    place: &mut LibraryPlace,
    option: LibraryFilterOption,
    indexes: Table<String, Library>,
)
    requires
        indexes_wf(indexes),
        call_ensures(choose_filter, (place, &option, &indexes), ()),
    ensures
        final(place).folder_filter == option.folder,
        final(place).library_root@ == option.root@,
        final(place).search == old(place).search,
        final(place).target_folder == old(place).target_folder,
        final(place).page == old(place).page,
        indexes.map().contains_key(option.root@) ==> final(place).library.folders.map()
            == indexes.map()[option.root@].folders.map() && final(place).library.courses.map()
            == indexes.map()[option.root@].courses.map(),
{
}

/// A folder can be managed exactly where one is chosen; notes can be grouped where none is; and
/// the controls are there while anything narrows the page or anything is to be told.
pub proof fn the_toolbar_is_for_what_is_shown(
    courses: usize,
    filter: Option<u64>,
    search: &str,
    failed: bool,
    issues: usize,
    loading: bool,
    cards: bool,
    grouped: bool,
    toolbar: Option<ToolbarView>,
)
    requires
        call_ensures(
            library_toolbar,
            (courses, filter, search, failed, issues, loading, cards, grouped),
            toolbar,
        ),
    ensures
        toolbar is None <==> courses == 0 && filter is None && search@.len() == 0 && !failed && issues
            == 0 && !loading,
        toolbar matches Some(view) ==> {
            &&& view.managed_folder is Some <==> filter is Some && filter->0 != 0
            &&& view.managed_folder is Some ==> view.managed_folder == filter
            &&& view.group_label is Some <==> filter is None && !failed
            &&& view.layout@ == "cards"@ <==> cards
        },
{
    reveal_strlit("cards");
    reveal_strlit("list");
    assert("cards"@[0] != "list"@[0]);
}

/// The task of a note is the one that made it, and a note of another version has none of it.
pub proof fn a_note_has_the_task_that_made_it(
    course: Course,
    tasks: Vec<TaskRecord>,
    found: Option<usize>,
    i: int,
)
    requires
        call_ensures(note_task, (&course, &tasks), found),
    ensures
        found matches Some(k) ==> course.manifest is Some && k < tasks@.len()
            && tasks@[k as int].id@ == course.manifest->0.task_id@,
        course.manifest is Some && 0 <= i < tasks@.len() && tasks@[i].id@
            == course.manifest->0.task_id@ ==> found is Some && found->0 <= i,
{
    let given = (&course, &tasks);
    if 0 <= i < tasks@.len() {
        assert(given.1@[i] == tasks@[i]);
    }
}

/// A note can be renamed exactly where it is known which library it lies in, starting from the
/// name it is listed under.
pub proof fn a_note_is_renamed_in_its_library(
    cache: LibraryViewCache,
    libraries: Vec<LibraryLocation>,
    courses: Vec<Course>,
    course: Course,
    start: Result<RenameStart, &'static str>,
    place: Option<&LibraryLocation>,
    title: String,
)
    requires
        cache.wf(),
        call_ensures(begin_course_rename, (&cache, &libraries, &courses, &course), start),
        call_ensures(
            LibraryViewCache::course_location,
            (&cache, &libraries, &course.storage),
            place,
        ),
        call_ensures(course_display_title, (&courses, &course), title),
    ensures
        start is Ok <==> place is Some,
        start matches Ok(begun) ==> begun.root@ == place->0.root@ && begun.name@ == title@,
{
}

/// A record that cannot be read is restored only from a backup that is there, and can always be
/// made anew; a library that cannot be reached can be looked for again.
pub proof fn a_record_is_restored_from_a_backup(notice: RecoveryNotice, name: &str, view: NoticeView)
    requires
        call_ensures(RecoveryNotice::library_recovery_view, (&notice, name), view),
    ensures
        view.can_check <==> notice is Unavailable,
        notice is Unavailable ==> view.restore is None && view.rebuild is None,
        notice matches RecoveryNotice::Classification { has_backup, .. } ==> (view.restore is Some
            <==> has_backup) && view.rebuild is Some && (view.rebuild_first <==> !has_backup),
        notice matches RecoveryNotice::Names { has_backup, .. } ==> (view.restore is Some
            <==> has_backup) && view.rebuild is Some,
{
}

/// A note on a card or in a list says its own title, whether it is being opened, and that it is
/// read on where it was begun.
pub proof fn a_note_says_its_title(
    course: Course,
    meta: &str,
    description: &str,
    begun: bool,
    opening: Option<String>,
    grouped: bool,
    compact: bool,
    stacked: bool,
    card: NoteView,
    row: NoteView,
)
    requires
        call_ensures(library_card, (&course, meta, begun, &opening), card),
        call_ensures(
            library_list_row,
            (&course, meta, description, begun, &opening, grouped, compact, stacked),
            row,
        ),
    ensures
        card.label@ == "阅读 "@ + course.title@ && row.label@ == card.label@,
        card.opening <==> opening is Some && opening->0@ == course.dir@,
        row.opening == card.opening,
        begun ==> card.action is Some && card.action->0@ == "继续阅读"@,
        !begun ==> card.action is Some && card.action->0@ == "阅读笔记"@,
        row.action is Some <==> !compact || stacked,
        begun && row.action is Some ==> row.action->0@ == "继续阅读"@,
        row.shows_folder <==> !grouped,
{
}

/// An empty page leads on: a search is cleared, a folder is left, and an empty library asks for
/// a video.
pub proof fn an_empty_page_leads_on(
    partial: bool,
    last: bool,
    searching: bool,
    issues: bool,
    filtered: bool,
    entered: &mut Table<String, ()>,
    shown: (ItemView, Gap),
)
    requires
        old(entered).wf(),
        call_ensures(
            LibraryItem::library_item,
            (&LibraryItem::Empty { partial }, last, searching, issues, filtered, entered),
            shown,
        ),
    ensures
        shown.0 is Empty,
        searching ==> shown.0->action is ClearSearch,
        !searching && filtered ==> shown.0->action is AllNotes,
        !searching && !filtered ==> shown.0->action is ImportVideo,
{
}

/// A library whose folders were read is offered with every folder it has, and the folder that is
/// shown is among what is offered where it is known.
pub proof fn the_filter_offers_every_library(
    libraries: Vec<LibraryLocation>,
    indexes: Table<String, Library>,
    root: &str,
    shown: Table<u64, String>,
    filter: Option<u64>,
    control: FilterControl,
)
    requires
        indexes_wf(indexes),
        shown.wf(),
        call_ensures(
            folder_filter_control,
            (&libraries, &indexes, root, &shown, filter),
            control,
        ),
    ensures
        exists|i: int|
            0 <= i < control.options@.len() && (#[trigger] control.options@[i]).value@
                == control.selected@,
{
    let sections = choose|sections: Seq<FilterSection>|
        {
            &&& #[trigger] are_sections(
                sections,
                libraries@,
                indexes.map(),
                root@,
                shown.map(),
            )
            &&& filter_views(control.options@) == filter_entries(
                sections,
                root@,
                libraries@.len() > 1,
                sections.len(),
            )
        };
    let said = filter_views(control.options@);
    crate::course_library::the_selected_filter_is_offered(
        sections,
        root@,
        libraries@.len() > 1,
        filter,
    );
    let i = choose|i: int|
        0 <= i < said.len() && (#[trigger] said[i]).value == selected_value(said, root@, filter);
    assert(said[i] == control.options@[i]@);
    assert(control.options@[i].value@ == control.selected@);
}

/// The page of an empty library is forgotten once notes are shown again, and only then.
pub proof fn an_empty_page_is_forgotten_with_notes(
    items: Vec<LibraryItem>,
    entered: &mut Table<String, ()>,
    i: int,
    other: Seq<char>,
)
    requires
        old(entered).wf(),
        call_ensures(leave_empty_state, (&items, entered), ()),
        0 <= i < items@.len(),
    ensures
        items@[i] is GroupHeader || items@[i] is CardRow || items@[i] is ListRow ==> !final(
            entered).map().contains_key("library-empty-state"@),
        other != "library-empty-state"@ ==> (final(entered).map().contains_key(other) <==> old(
            entered).map().contains_key(other)),
        items@.len() == 1 && !(items@[0] is GroupHeader || items@[0] is CardRow || items@[0]
            is ListRow) ==> final(entered).map() == old(entered).map(),
{
    if is_note_row(items@[i]) {
        assert(shows_notes(items@));
    }
}

/// The first row of notes decides how the page scrolls: by cards or by rows, from the note it
/// begins with.
pub proof fn the_first_row_of_notes_decides(items: Vec<LibraryItem>, page: Option<(bool, usize)>)
    requires
        call_ensures(library_list_page, (&items,), page),
        items@.len() > 0,
    ensures
        items@[0] matches LibraryItem::ListRow(place, _) ==> page == Some((false, place)),
        items@[0] is CardRow && items@[0]->CardRow_0@.len() > 0 ==> page == Some(
            (true, items@[0]->CardRow_0@[0].0),
        ),
        items@.len() == 1 && !(items@[0] is CardRow || items@[0] is ListRow) ==> page is None,
{
    reveal_with_fuel(first_flat_row, 2);
}

/// A row of cards is filled up to the columns.
pub proof fn a_row_is_filled_up(cards: usize, columns: usize, missing: usize)
    requires
        call_ensures(library_card_row, (cards, columns), missing),
    ensures
        cards <= columns ==> cards + missing == columns,
        cards > columns ==> missing == 0,
{
}

proof fn readable_are(
    libraries: Seq<LibraryLocation>,
    indexes: Map<Seq<char>, Library>,
    n: nat,
    i: int,
) -> (at: int)
    requires
        0 <= i < n <= libraries.len(),
        indexes.contains_key(libraries[i].root@),
    ensures
        0 <= at < readable(libraries, indexes, n).len(),
        readable(libraries, indexes, n)[at] == libraries[i],
    decreases n,
{
    let m = (n - 1) as nat;
    if i == m {
        readable(libraries, indexes, m).len() as int
    } else {
        readable_are(libraries, indexes, m, i)
    }
}

/// Every folder of every library that was read can be chosen in the filter, for that library.
pub proof fn every_folder_can_be_chosen(
    libraries: Vec<LibraryLocation>,
    indexes: Table<String, Library>,
    root: &str,
    shown: Table<u64, String>,
    filter: Option<u64>,
    control: FilterControl,
    i: int,
    folder: u64,
)
    requires
        indexes_wf(indexes),
        shown.wf(),
        call_ensures(
            folder_filter_control,
            (&libraries, &indexes, root, &shown, filter),
            control,
        ),
        0 <= i < libraries@.len(),
        indexes.map().contains_key(libraries@[i].root@),
        indexes.map()[libraries@[i].root@].folders.map().contains_key(folder),
    ensures
        exists|k: int|
            0 <= k < control.options@.len() && (#[trigger] control.options@[k]).root@
                == libraries@[i].root@ && control.options@[k].folder == Some(folder),
{
    let sections = choose|sections: Seq<FilterSection>|
        {
            &&& #[trigger] are_sections(
                sections,
                libraries@,
                indexes.map(),
                root@,
                shown.map(),
            )
            &&& filter_views(control.options@) == filter_entries(
                sections,
                root@,
                libraries@.len() > 1,
                sections.len(),
            )
        };
    let at = readable_are(libraries@, indexes.map(), libraries@.len(), i);
    let known = readable(libraries@, indexes.map(), libraries@.len());
    assert(is_section(
        sections[at],
        known[at].root@,
        known[at].name@,
        indexes.map()[known[at].root@].folders.map(),
    ));
    let list = sections[at].2@;
    let f = choose|f: int| 0 <= f < list.len() && (#[trigger] list[f]).0 == folder;
    let k = crate::course_library::a_folder_has_an_entry(
        sections,
        root@,
        libraries@.len() > 1,
        at,
        f + 1,
    );
    let said = filter_views(control.options@);
    assert(said[k] == control.options@[k]@);
}

} // verus!
