//! The library: filters, rows, places of notes, folders.
use course2md_desktop::course_library::{
    filter_with_value, library_filter_options, library_filter_selected, library_layout_choice,
};
use course2md_desktop::folders::{
    assign_saved_folder, current_folder_origin, filter_after_removal, folder_context,
    folder_entries, folder_name, FolderEditor, FolderOrigin, FolderRefusal, LibraryPlace,
};
use course2md_desktop::library_page::{
    empty_texts, library_controls_visible, recovered_message, toggle_group, LibraryAccess,
    LibraryGroupBody, LibraryGroupHeader, LibraryItem, LibraryView, RecoveryNotice,
};
use course2md_desktop::notes::{
    course_display_title, Course, CourseLocation, Library, LibraryFindings, LibraryViewCache,
    Recovery, ScannedNote,
};
use course2md_desktop::table::Table;
use course2md_desktop::workspace::{ConversionOptions, Draft, LibraryLocation, Page};

fn course(dir: &str) -> Course {
    Course {
        dir: dir.into(),
        storage: dir.into(),
        title: dir.into(),
        modified: 0,
        manifest: None,
    }
}

#[test]
fn library_item_keys_follow_content_identity_and_columns() {
    let row = vec![(0, course("/lib/a")), (1, course("/lib/b"))];
    let items = [
        LibraryItem::Coverage("m".into()),
        LibraryItem::CardRow(row.clone()),
        LibraryItem::ListRow(0, Box::new(course("/lib/a"))),
        LibraryItem::GroupHeader(Box::new(LibraryGroupHeader {
            index: 0,
            key: "lib:0".into(),
            name: "未分类".into(),
            count: 2,
            collapsed: false,
        })),
        LibraryItem::GroupBody(Box::new(LibraryGroupBody {
            index: 0,
            key: "lib:0".into(),
            collapsed: false,
            entries: row.clone(),
        })),
    ];
    let keys: Vec<String> = items.iter().map(|item| item.key(3)).collect();
    let unique: std::collections::HashSet<_> = keys.iter().collect();
    assert_eq!(unique.len(), keys.len(), "library rows need distinct keys");
    // Regrouping for a new column count replaces the affected rows.
    assert_ne!(
        LibraryItem::CardRow(row.clone()).key(3),
        LibraryItem::CardRow(row.clone()).key(2)
    );
    // Content edits keep the row identity keyed by its first course; the
    // row re-measures when it is visible.
    let mut changed = row.clone();
    changed[1] = (1, course("/lib/c"));
    assert_eq!(
        LibraryItem::CardRow(changed).key(3),
        LibraryItem::CardRow(row).key(3)
    );
}

#[test]
fn library_filters_are_surfaced_as_one_level_choices() {
    let root = "/notes".to_owned();
    let options = library_filter_options(
        &[(root.clone(), "课程库".into(), vec![(2, "讲座".into())])],
        &root,
        false,
    );
    assert_eq!(options[0].label, "全部笔记");
    assert_eq!(options[1].folder, Some(0));
    assert_eq!(options[2].label, "讲座");
    assert_eq!(library_filter_selected(&options, &root, None), "all");
    assert_eq!(library_filter_selected(&options, &root, Some(2)), "f-0-2");
    assert_eq!(library_layout_choice(false), "list");
    assert_eq!(library_layout_choice(true), "cards");
}

#[test]
fn filters_of_several_libraries_differ() {
    let sections = vec![
        ("/a".to_owned(), "甲".to_owned(), vec![(1, "x".to_owned())]),
        ("/b".into(), "乙".into(), vec![(1, "x".into()), (11, "y".into())]),
    ];
    let options = library_filter_options(&sections, "/a", true);
    let values: Vec<&str> = options.iter().map(|option| option.value.as_str()).collect();
    assert_eq!(values, ["all", "f-0-0", "f-0-1", "f-1-0", "f-1-1", "f-1-11"]);
    assert_eq!(options[1].label, "甲 · 未分类");
    assert_eq!(options[5].label, "乙 · y");
    assert_eq!(library_filter_selected(&options, "/b", Some(1)), "f-1-1");
    assert_eq!(library_filter_selected(&options, "/c", Some(1)), "all");
    assert_eq!(filter_with_value(&options, "f-1-0"), Some(3));
    assert_eq!(filter_with_value(&options, "f-2-0"), None);
}

#[test]
fn card_rows_are_keyed_exactly() {
    assert_eq!(
        LibraryItem::CardRow(vec![(0, course("/lib/a"))]).key(12),
        "row-12-1-/lib/a"
    );
    assert_eq!(LibraryItem::CardRow(Vec::new()).key(1), "row-1-0-");
    assert_eq!(LibraryItem::Checking.key(1), "checking");
    assert_eq!(LibraryItem::SearchScope("x".into()).key(1), "search-scope");
}

fn library(id: &str, name: &str, root: &str) -> LibraryLocation {
    LibraryLocation {
        id: id.into(),
        name: name.into(),
        root: root.into(),
    }
}

fn findings(notes: Vec<ScannedNote>) -> LibraryFindings {
    LibraryFindings {
        depth: 2,
        recovery: None,
        title_recovery: None,
        aliases: Ok(Table::new()),
        notes,
    }
}

fn scanned(relative: Option<&str>, paths: &[&str]) -> ScannedNote {
    ScannedNote {
        relative: relative.map(str::to_owned),
        paths: paths.iter().map(|path| path.to_string()).collect(),
    }
}

#[test]
fn notes_are_placed_by_every_path_they_are_met_by() {
    let cache = LibraryViewCache::inspect(
        &library("id", "库", "/lib"),
        findings(vec![
            scanned(Some("a"), &["/lib/a", "/lib/a/v1"]),
            scanned(None, &["/elsewhere"]),
            scanned(Some("b"), &["/lib/b", "/lib/a"]),
        ]),
    );
    assert_eq!(
        cache.locations.get(&"/lib/a/v1".to_owned()).unwrap().relative,
        "a"
    );
    assert_eq!(
        cache.locations.get(&"/lib/a".to_owned()).unwrap().relative,
        "b"
    );
    assert!(cache.locations.get(&"/elsewhere".to_owned()).is_none());
}

#[test]
fn unread_names_are_an_issue() {
    let cache = LibraryViewCache::inspect(
        &library("id", "库", "/lib"),
        LibraryFindings {
            aliases: Err("坏".into()),
            recovery: Some(Recovery { has_backup: true }),
            ..findings(Vec::new())
        },
    );
    assert_eq!(cache.alias_issues, ["库的显示名称尚未读取：坏"]);
    assert!(cache.recovery.get(&"/lib".to_owned()).unwrap().has_backup);
    assert!(cache.title_recovery.get(&"/lib".to_owned()).is_none());
}

fn placed(path: &str, root: &str, depth: usize) -> LibraryViewCache {
    let mut cache = LibraryViewCache::new();
    cache.locations.insert(
        path.into(),
        CourseLocation {
            id: root.into(),
            root: root.into(),
            relative: "n".into(),
            depth,
        },
    );
    cache
}

#[test]
fn the_deeper_library_keeps_a_shared_note() {
    let path = "/lib/inner/n".to_owned();
    for (first, second) in [(("/lib", 2), ("/lib/inner", 3)), (("/lib/inner", 3), ("/lib", 2))] {
        let mut cache = placed(&path, first.0, first.1);
        cache.merge(placed(&path, second.0, second.1));
        assert_eq!(cache.locations.get(&path).unwrap().root, "/lib/inner");
    }
    let mut tie = placed(&path, "/one", 2);
    tie.merge(placed(&path, "/two", 2));
    assert_eq!(tie.locations.get(&path).unwrap().root, "/one");
}

#[test]
fn given_names_take_the_place_of_titles() {
    let mut names = Table::new();
    names.insert("a".to_owned(), "新名".to_owned());
    let cache = LibraryViewCache::inspect(
        &library("id", "库", "/lib"),
        LibraryFindings {
            aliases: Ok(names),
            ..findings(vec![scanned(Some("a"), &["/lib/a"])])
        },
    );
    let mut courses = vec![course("/lib/a"), course("/lib/b")];
    let mut issues = Vec::new();
    let mut opened = Some(Course {
        dir: "/lib/a/old".into(),
        storage: "/lib/a".into(),
        ..course("/lib/a")
    });
    cache.apply_course_title_aliases(&mut courses, &mut opened, &mut issues);
    let opened = opened.unwrap();
    assert_eq!((opened.title.as_str(), opened.dir.as_str()), ("新名", "/lib/a/old"));
    let mut closed = None;
    cache.apply_course_title_aliases(&mut courses, &mut closed, &mut issues);
    assert!(closed.is_none());
    assert_eq!(courses[0].title, "新名");
    assert_eq!(courses[1].title, "/lib/b");
    assert!(issues.is_empty());
    assert_eq!(course_display_title(&courses, &course("/lib/a")), "新名");
    assert_eq!(course_display_title(&courses, &course("/lib/x")), "/lib/x");
}

fn view() -> LibraryView {
    let libraries = vec![library("one", "甲", "/one"), library("two", "乙", "/two")];
    let mut cache = LibraryViewCache::inspect(
        &libraries[0],
        findings(vec![
            scanned(Some("a"), &["/one/a"]),
            scanned(Some("b"), &["/one/b"]),
        ]),
    );
    cache.merge(LibraryViewCache::inspect(
        &libraries[1],
        findings(vec![scanned(Some("c"), &["/two/c"])]),
    ));
    let mut folders = Table::new();
    folders.insert(4, "讲座".to_owned());
    let mut filed = Table::new();
    filed.insert("b".to_owned(), 4);
    let mut indexes = Table::new();
    indexes.insert(
        "/one".to_owned(),
        Library {
            folders,
            courses: filed,
        },
    );
    LibraryView {
        registered: true,
        libraries,
        access: Some(LibraryAccess {
            available: vec!["/one".into(), "/two".into()],
            unavailable: Vec::new(),
        }),
        library_root: "/one".into(),
        root_order: vec!["/one".into(), "/two".into()],
        folder_filter: None,
        courses: vec![course("/two/c"), course("/one/b"), course("/one/a")],
        cache,
        indexes,
        issues: Vec::new(),
        library_error: None,
        loading: false,
        search: String::new(),
        collapsed: Table::new(),
        group_folders: false,
        cards: true,
        stacked: false,
        columns: 2,
    }
}

#[test]
fn notes_are_shown_in_rows_of_cards() {
    let items = view().library_page();
    assert_eq!(
        items,
        vec![
            LibraryItem::CardRow(vec![(0, course("/two/c")), (1, course("/one/b"))]),
            LibraryItem::CardRow(vec![(2, course("/one/a"))]),
        ]
    );
    let mut stacked = view();
    stacked.stacked = true;
    assert_eq!(stacked.library_page().len(), 3);
    assert!(matches!(stacked.library_page()[0], LibraryItem::ListRow(0, _)));
    let entries = || vec![(4, course("a")), (5, course("b")), (6, course("c"))];
    assert_eq!(stacked.course_collection(entries()).len(), 3);
    assert_eq!(
        view().course_collection(entries()),
        vec![
            LibraryItem::CardRow(vec![(4, course("a")), (5, course("b"))]),
            LibraryItem::CardRow(vec![(6, course("c"))]),
        ]
    );
}

#[test]
fn notes_are_grouped_by_library_and_folder() {
    let mut grouped = view();
    grouped.group_folders = true;
    grouped.collapsed.insert("one:4".into(), ());
    let items = grouped.library_page();
    let headers: Vec<(usize, String, String, usize, bool)> = items
        .iter()
        .filter_map(|item| match item {
            LibraryItem::GroupHeader(header) => Some((
                header.index,
                header.key.clone(),
                header.name.clone(),
                header.count,
                header.collapsed,
            )),
            _ => None,
        })
        .collect();
    assert_eq!(
        headers,
        vec![
            (0, "one:0".to_owned(), "甲 · 未分类".to_owned(), 1, false),
            (1, "one:4".into(), "甲 · 讲座".into(), 1, true),
            (2, "two:0".into(), "乙 · 分类记录暂不可用".into(), 1, false),
        ]
    );
    assert!(matches!(&items[1], LibraryItem::GroupBody(body)
        if body.entries == vec![(2, course("/one/a"))]));
}

#[test]
fn a_search_narrows_the_notes_and_says_so() {
    let mut searched = view();
    searched.search = "ONE/A".into();
    assert_eq!(
        searched.library_page(),
        vec![
            LibraryItem::SearchScope("在全部笔记中搜索「ONE/A」，找到 1 篇笔记。".into()),
            LibraryItem::CardRow(vec![(2, course("/one/a"))]),
        ]
    );
    searched.search = "missing".into();
    assert_eq!(
        searched.library_page(),
        vec![LibraryItem::Empty { partial: false }]
    );
    searched.folder_filter = Some(4);
    searched.search = "b".into();
    assert_eq!(
        searched.library_page()[0],
        LibraryItem::SearchScope("在当前文件夹中搜索「b」，找到 1 篇笔记。".into())
    );
}

#[test]
fn what_cannot_be_reached_is_told() {
    let mut partial = view();
    partial.access = Some(LibraryAccess {
        available: vec!["/one".into()],
        unavailable: vec!["/two".into()],
    });
    let items = partial.library_page();
    assert_eq!(items[0], LibraryItem::Recovery);
    assert_eq!(
        items[1],
        LibraryItem::Coverage(
            "当前仅显示 1 个可访问位置中的笔记；另外 1 个位置尚未读取。".into()
        )
    );
    assert_eq!(items.len(), 3);
    partial.folder_filter = Some(0);
    assert_eq!(partial.library_page().len(), 2);
    let mut cut_off = view();
    cut_off.access = Some(LibraryAccess {
        available: Vec::new(),
        unavailable: vec!["/one".into(), "/two".into()],
    });
    assert_eq!(cut_off.library_page().len(), 2);
    let mut checking = view();
    checking.access = None;
    assert_eq!(checking.library_page(), vec![LibraryItem::Checking]);
    let mut loading = view();
    loading.loading = true;
    assert_eq!(loading.library_page(), vec![LibraryItem::Loading]);
}

#[test]
fn issues_are_told_once() {
    let mut broken = view();
    broken
        .cache
        .recovery
        .insert("/one".into(), Recovery { has_backup: false });
    broken.issues = vec![
        "甲的文件夹记录暂时无法读取：坏".into(),
        "乙暂时无法读取：坏".into(),
    ];
    let items = broken.library_page();
    assert_eq!(items[0], LibraryItem::Recovery);
    assert_eq!(
        items[1],
        LibraryItem::Issues(vec!["乙暂时无法读取：坏".into()])
    );
    let notices = broken.recovery_notices();
    assert_eq!(notices.len(), 1);
    assert!(matches!(
        &notices[0],
        RecoveryNotice::Classification { index: 0, has_backup: false, diagnostics }
            if diagnostics.len() == 1
    ));
}

#[test]
fn a_notice_about_names_owns_its_issue() {
    let mut broken = view();
    broken
        .cache
        .title_recovery
        .insert("/two".into(), Recovery { has_backup: true });
    broken.issues = vec![
        "乙的显示名称尚未读取：坏".into(),
        "/two的显示名称尚未读取：坏".into(),
        "甲的显示名称尚未读取：坏".into(),
    ];
    let notices = broken.recovery_notices();
    assert_eq!(notices.len(), 1);
    assert!(matches!(
        &notices[0],
        RecoveryNotice::Names { index: 1, has_backup: true, diagnostics }
            if diagnostics[..] == ["乙的显示名称尚未读取：坏".to_owned()]
    ));
    assert_eq!(
        broken.library_page()[1],
        LibraryItem::Issues(vec![
            "/two的显示名称尚未读取：坏".into(),
            "甲的显示名称尚未读取：坏".into()
        ])
    );
}

#[test]
fn an_empty_library_says_what_to_do() {
    let mut empty = view();
    empty.courses = Vec::new();
    assert_eq!(empty.library_page(), vec![LibraryItem::Empty { partial: false }]);
    empty.issues = vec!["x".into()];
    assert_eq!(empty.library_page(), vec![LibraryItem::Issues(vec!["x".into()])]);
    assert_eq!(
        empty_texts(false, false, false, false),
        ("还没有笔记", "导入视频，生成的内容会保存在这里")
    );
    assert_eq!(empty_texts(true, false, true, false).0, "已读取的笔记中没有匹配的笔记。");
    assert!(!library_controls_visible(0, None, "", false, 0, false));
    assert!(library_controls_visible(0, Some(0), "", false, 0, false));
    assert_eq!(
        recovered_message(true, "/lib/x"),
        "分类已重建，原损坏记录保留在 /lib/x。笔记正文和显示名称仍保留。"
    );
}

#[test]
fn groups_fold_and_unfold() {
    let mut collapsed = Table::new();
    assert!(toggle_group(&mut collapsed, &"k".to_owned()));
    assert!(collapsed.contains(&"k".to_owned()));
    assert!(!toggle_group(&mut collapsed, &"k".to_owned()));
    assert!(!collapsed.contains(&"k".to_owned()));
}

fn draft(id: &str, library_id: &str) -> Draft {
    Draft {
        id: id.into(),
        revision: 0,
        online: true,
        input: String::new(),
        source: None,
        title: String::new(),
        custom_title: false,
        options: ConversionOptions::default(),
        library_id: library_id.into(),
        folder: None,
        subtitle: None,
        asr_service: None,
        ai_service: None,
        submitted_task: None,
    }
}

#[test]
fn a_saved_folder_goes_to_the_input_it_was_made_for() {
    let libraries = vec![library("one", "甲", "/one")];
    let mut drafts = vec![draft("d", "one"), draft("e", "gone")];
    assert_eq!(
        assign_saved_folder(&mut drafts, &libraries, "d", "/one", Some(3)),
        Ok(())
    );
    assert_eq!(drafts[0].folder, Some(3));
    assert_eq!(
        assign_saved_folder(&mut drafts, &libraries, "x", "/one", Some(3)),
        Err(FolderRefusal::InputGone)
    );
    assert_eq!(
        assign_saved_folder(&mut drafts, &libraries, "e", "/one", Some(3)),
        Err(FolderRefusal::LibraryGone)
    );
    assert_eq!(
        assign_saved_folder(&mut drafts, &libraries, "d", "/two", Some(4)),
        Err(FolderRefusal::LibraryChanged)
    );
    drafts[0].submitted_task = Some("t".into());
    let refusal =
        assign_saved_folder(&mut drafts, &libraries, "d", "/one", Some(4)).unwrap_err();
    assert_eq!(refusal.message(), "原输入已提交，请在新输入中选择文件夹");
    assert_eq!(drafts[0].folder, Some(3));
}

fn editor() -> FolderEditor {
    FolderEditor {
        editing: None,
        origin: None,
        targets: Vec::new(),
        saving: false,
        error: None,
        deleting: Some(9),
    }
}

#[test]
fn the_folder_editor_opens_saves_and_closes() {
    let libraries = vec![library("one", "甲", "/one"), library("two", "乙", "/two")];
    let indexes = view().indexes;
    let own = draft("d", "two");
    let origin = current_folder_origin(Page::New, Some(&own), &libraries, "/one");
    assert_eq!(origin.root, "/two");
    assert_eq!(origin.draft_id.as_deref(), Some("d"));
    let shown = current_folder_origin(Page::Library, Some(&own), &libraries, "/one");
    assert_eq!(shown.draft_id, None);
    let mut editor = editor();
    assert_eq!(
        editor
            .begin_folder(Some(4), shown.clone(), Page::Library, None, &libraries, &indexes)
            .as_deref(),
        Some("讲座")
    );
    assert_eq!(editor.title(), "重命名文件夹");
    assert_eq!(editor.targets.len(), 1);
    assert_eq!(editor.deleting, None);
    assert_eq!(
        editor
            .begin_folder(None, shown, Page::Library, None, &libraries, &indexes)
            .as_deref(),
        Some("")
    );
    assert_eq!(editor.targets.len(), 2);
    let elsewhere = current_folder_origin(Page::Task, Some(&own), &libraries, "/one");
    editor.begin_folder(None, elsewhere, Page::Task, None, &libraries, &indexes);
    assert_eq!(editor.targets.len(), 2);
    assert!(editor.retarget("/two".into()));
    assert_eq!(editor.library_label().as_deref(), Some("乙 · /two"));
    let (id, origin) = editor.save_folder().unwrap();
    assert_eq!(id, None);
    assert!(editor.saving && editor.save_folder().is_none());
    assert!(!editor.retarget("/one".into()));
    let saved = || {
        let mut folders = Table::new();
        folders.insert(5, "新".to_owned());
        Library {
            folders,
            courses: Table::new(),
        }
    };
    let mut indexes = indexes;
    let mut place = LibraryPlace {
        library_root: "/one".into(),
        library: Library {
            folders: Table::new(),
            courses: Table::new(),
        },
        search: "词".into(),
        folder_filter: None,
        target_folder: None,
        page: Page::Settings,
    };
    assert!(editor.finish_folder_save(
        &mut place,
        &mut indexes,
        origin,
        saved(),
        Some(5),
        "d",
        None
    ));
    assert_eq!(place.library_root, "/two");
    assert_eq!(place.folder_filter, Some(5));
    assert_eq!(place.search, "");
    assert!(place.page == Page::Library && place.library.folders.contains(&5));
    assert!(indexes.get(&"/two".to_owned()).unwrap().folders.contains(&5));
    assert!(editor.editing.is_none());
    let input = FolderOrigin {
        root: "/one".into(),
        draft_id: Some("d".into()),
    };
    place.search = "词".into();
    assert!(editor.finish_folder_save(
        &mut place,
        &mut indexes,
        input.clone(),
        Library {
            folders: Table::new(),
            courses: Table::new()
        },
        Some(6),
        "d",
        None
    ));
    assert_eq!(place.target_folder, Some(6));
    assert_eq!(place.search, "词");
    assert!(place.library.folders.contains(&5));
    assert!(!editor.finish_folder_save(
        &mut place,
        &mut indexes,
        input,
        saved(),
        Some(7),
        "d",
        Some("原课程库已不存在")
    ));
    assert_eq!(place.target_folder, Some(6));
    assert!(indexes.get(&"/one".to_owned()).unwrap().folders.contains(&5));
    assert_eq!(
        editor.error.as_deref(),
        Some("文件夹已创建，保存位置尚未更新：原课程库已不存在")
    );
    editor.close();
    assert!(editor.error.is_none());
    editor.fail_save("名称重复".into());
    assert_eq!(editor.error.as_deref(), Some("名称重复"));
}

#[test]
fn a_removed_folder_leaves_its_notes_in_none() {
    assert_eq!(filter_after_removal("/a", "/a", Some(3), 3), Some(0));
    assert_eq!(filter_after_removal("/a", "/b", Some(3), 3), Some(3));
    assert_eq!(filter_after_removal("/a", "/a", None, 3), None);
}

#[test]
fn a_folder_picker_says_where_a_note_is() {
    let view = view();
    let input = FolderOrigin {
        root: "/one".into(),
        draft_id: Some("d".into()),
    };
    let note = "/one/b".to_owned();
    let context = folder_context(
        Some(&note),
        &view.courses,
        &view.cache,
        &view.indexes,
        "/one",
        input.clone(),
        None,
        false,
    );
    assert_eq!(context.folder, Some(4));
    assert_eq!(context.label, "讲座");
    assert_eq!(context.load_error, None);
    assert_eq!(context.folders.get(&4).map(String::as_str), Some("讲座"));
    assert_eq!(context.folders.entries.len(), 1);
    let other = "/two/c".to_owned();
    let context = folder_context(
        Some(&other),
        &view.courses,
        &view.cache,
        &view.indexes,
        "/one",
        input.clone(),
        None,
        false,
    );
    assert_eq!(context.label, "文件夹暂不可用");
    assert!(context.load_error.is_some());
    assert!(context.folders.entries.is_empty());
    let context = folder_context(
        None,
        &view.courses,
        &view.cache,
        &view.indexes,
        "/one",
        input,
        Some(99),
        true,
    );
    assert_eq!(context.label, "文件夹已删除，请重新选择");
    let folders = &view.indexes.get(&"/one".to_owned()).unwrap().folders;
    assert_eq!(folder_name(folders, Some(4)), "讲座");
    assert_eq!(folder_name(folders, Some(5)), "已删除的文件夹");
    assert_eq!(folder_name(folders, Some(0)), "未分类");
    let entries = folder_entries(folders, Some(4));
    assert_eq!(entries.len(), 2);
    assert!(!entries[0].checked && entries[1].checked);
}
