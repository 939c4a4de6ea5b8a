//! Exports of folders.
use course2md_desktop::folder_export::{
    classify_failure, export_failure, export_report, file_names, folder_note_count,
    incomplete_report, publication, safe_title, selected_folder_key, snapshot, within_library,
    ExportFailure, Failure, Feedback, FeedbackTone, FiledNote, FolderKey, NameAllocator, PathPart,
    Publication, ReadCourse, Report, Snapshot, SnapshotNote, State,
};
use course2md_desktop::table::Table;
use course2md_desktop::workspace::LibraryLocation;

#[test]
fn names_cover_reserved_case_conflicts_and_completion_generations() {
    let mut names = NameAllocator::new(false);
    assert_eq!(names.allocate("Lesson"), "Lesson.md");
    assert_eq!(names.allocate("lesson"), "lesson (2).md");
    assert_eq!(names.allocate("assets"), "assets (2).md");
    // Names that a disk keeps for devices come with an underscore in front.
    assert_eq!(names.allocate("_CON"), "_CON.md");

    let key = FolderKey {
        library_id: "library".into(),
        root: "library".into(),
        folder_id: 7,
    };
    let other = FolderKey {
        folder_id: 8,
        ..key.clone()
    };
    let mut state = State::default();
    let old = state.begin(key.clone(), "One".into()).unwrap();
    assert!(state.cancel(old, &key));
    let current = state.begin(other.clone(), "Two".into()).unwrap();
    assert!(!state.finish(
        old,
        &key,
        Feedback {
            folder_name: "One".into(),
            result: Err("late".into()),
        }
    ));
    assert!(state.matches(current, &other));
}

#[test]
fn a_disk_that_tells_cases_apart_needs_no_numbers() {
    let stems = vec!["A".to_owned(), "a".into(), "A".into(), "Assets".into()];
    assert_eq!(
        file_names(true, &stems),
        ["A.md", "a.md", "A (2).md", "Assets.md"]
    );
    assert_eq!(
        file_names(false, &stems),
        ["A.md", "a (2).md", "A (3).md", "Assets (2).md"]
    );
}

fn key() -> FolderKey {
    FolderKey {
        library_id: "library".into(),
        root: "/lib".into(),
        folder_id: 7,
    }
}

#[test]
fn one_export_at_a_time() {
    let mut state = State::default();
    let generation = state.begin(key(), "One".into()).unwrap();
    assert!(state.begin(key(), "Two".into()).is_none());
    assert!(state.start_progress(generation, &key(), "Renamed".into(), 3));
    assert!(state.advance(generation, &key(), 2));
    assert!(!state.advance(generation + 1, &key(), 3));
    let button = state.folder_export_button(&key(), 3, true);
    assert_eq!(button.label, "正在导出 2/3");
    assert!(button.loading && button.disabled);
    assert!(state.finish(
        generation,
        &key(),
        Feedback {
            folder_name: "Renamed".into(),
            result: Err("x".into()),
        }
    ));
    assert_eq!(
        state.feedback.get(&key()).unwrap().label(),
        "未能导出“Renamed”：x"
    );
    let button = state.folder_export_button(&key(), 3, true);
    assert_eq!(button.label, "导出文件夹");
    assert_eq!(button.tooltip, "导出文件夹中的全部笔记");
    assert!(!button.disabled);
    assert_eq!(state.folder_export_button(&key(), 0, true).tooltip, "文件夹中没有可导出的笔记");
    assert_eq!(state.folder_export_button(&key(), 3, false).tooltip, "课程库暂时无法访问");
    state.toggle_details(&key());
    assert!(state.details_open.contains(&key()));
    state.toggle_details(&key());
    assert!(!state.details_open.contains(&key()));
    state.dismiss(&key());
    assert!(state.feedback.get(&key()).is_none());
}

#[test]
fn titles_are_shown_on_one_line() {
    assert_eq!(safe_title("  a\r\nb\n"), "a  b");
    assert_eq!(safe_title("\n \u{3000}"), "未命名笔记");
}

fn filed(folder: u64, parts: Vec<PathPart>, alias: Option<&str>, course: bool) -> FiledNote {
    FiledNote {
        folder,
        parts,
        fallback: "目录".into(),
        alias: alias.map(str::to_owned),
        course: if course {
            Some(ReadCourse {
                title: "标题".into(),
                dir: "/lib/note/v1".into(),
            })
        } else {
            None
        },
    }
}

#[test]
fn a_snapshot_holds_the_notes_of_its_folder() {
    let mut folders: Table<u64, String> = Table::new();
    folders.insert(7, "讲座".into());
    let notes = vec![
        filed(7, vec![PathPart::Normal("note".into())], None, true),
        filed(8, vec![PathPart::Normal("other".into())], None, true),
        filed(7, vec![PathPart::Other], Some("别名"), true),
        filed(7, vec![PathPart::Normal("gone".into())], None, false),
        filed(7, Vec::new(), None, true),
    ];
    let taken = snapshot(&key(), "/lib".into(), &folders, &notes).unwrap();
    assert_eq!(taken.folder_name, "讲座");
    let shown: Vec<(String, Result<String, String>)> = taken
        .notes
        .into_iter()
        .map(|note| (note.title, note.version))
        .collect();
    assert_eq!(
        shown,
        vec![
            ("标题".to_owned(), Ok("/lib/note/v1".to_owned())),
            ("别名".into(), Err("笔记位置无效".into())),
            ("目录".into(), Err("笔记正文无法读取".into())),
            ("目录".into(), Err("笔记位置无效".into())),
        ]
    );
    let gone: Table<u64, String> = Table::new();
    assert!(snapshot(&key(), "/lib".into(), &gone, &notes).is_none());
    assert_eq!(folder_note_count(&vec![7, 8, 7], 7), 2);
}

fn exported() -> Snapshot {
    Snapshot {
        root: "/lib".into(),
        folder_name: "课程".into(),
        notes: vec![
            SnapshotNote {
                title: "Lesson".into(),
                version: Ok("v1".into()),
            },
            SnapshotNote {
                title: "lesson".into(),
                version: Ok("v1".into()),
            },
            SnapshotNote {
                title: "坏笔记".into(),
                version: Err("笔记正文无法读取".into()),
            },
        ],
    }
}

#[test]
fn reports_tell_what_was_not_exported() {
    let report = export_report(&exported(), &vec![true, true, true]);
    assert_eq!(report.succeeded(), 2);
    assert_eq!(publication(&report), Publication::WithReport);
    assert_eq!(
        incomplete_report(&report),
        "# 导出未完成\n\n已导出 2/3 篇笔记。\n\n- 《坏笔记》：笔记正文无法读取\n"
    );
    let worse = export_report(&exported(), &vec![true, false, false]);
    assert_eq!(worse.failures[0].reason, "笔记正文或图片暂时无法读取");
    let failed = Report {
        output: None,
        total: 1,
        failures: vec![Failure {
            title: "坏笔记".into(),
            reason: "笔记正文无法读取".into(),
        }],
    };
    assert_eq!(publication(&failed), Publication::Nothing);
    let complete = Report {
        output: None,
        total: 1,
        failures: Vec::new(),
    };
    assert_eq!(publication(&complete), Publication::Complete);
    let odd = Report {
        output: None,
        total: 0,
        failures: failed.failures.clone(),
    };
    assert_eq!(odd.succeeded(), 0);
}

fn feedback(output: bool, total: usize, failures: usize) -> Feedback {
    Feedback {
        folder_name: "课程".into(),
        result: Ok(Report {
            output: if output { Some("/out".into()) } else { None },
            total,
            failures: (0..failures)
                .map(|index| Failure {
                    title: format!("笔记{index}"),
                    reason: "坏".into(),
                })
                .collect(),
        }),
    }
}

#[test]
fn feedback_tells_how_an_export_ended() {
    let done = feedback(true, 4, 0);
    assert_eq!(done.label(), "已导出 4 篇笔记");
    assert_eq!(done.tone(), FeedbackTone::Success);
    assert!(!done.can_retry() && !done.has_details());
    let one = feedback(true, 4, 1);
    assert_eq!(one.label(), "已导出 3/4 篇；《笔记0》未完成");
    assert_eq!(one.tone(), FeedbackTone::Warning);
    assert!(one.can_retry() && one.has_details());
    assert_eq!(feedback(true, 12, 2).label(), "已导出 10/12 篇；2 篇未完成");
    assert_eq!(feedback(false, 1, 1).label(), "未能导出“课程”：坏");
    assert_eq!(feedback(false, 0, 0).label(), "未能导出“课程”");
    assert_eq!(feedback(false, 1, 1).tone(), FeedbackTone::Danger);
    assert_eq!(
        export_failure(classify_failure("请选择课程库以外的位置")),
        "请选择课程库以外的位置后重试。"
    );
    assert_eq!(classify_failure("denied"), ExportFailure::NotWritten);
    assert_eq!(
        export_failure(ExportFailure::Empty),
        "文件夹中没有可导出的笔记。"
    );
}

#[test]
fn an_export_may_not_go_into_the_library() {
    let root = vec!["/".to_owned(), "lib".into()];
    let inside = vec!["/".to_owned(), "lib".into(), "out".into()];
    let beside = vec!["/".to_owned(), "lib-out".into()];
    assert!(within_library(&inside, &root));
    assert!(within_library(&root, &root));
    assert!(!within_library(&beside, &root));
    assert!(!within_library(&root, &inside));
}

#[test]
fn a_folder_is_known_by_its_library() {
    let libraries = vec![LibraryLocation {
        id: "id-1".into(),
        name: "课程库".into(),
        root: "/lib".into(),
    }];
    assert_eq!(selected_folder_key(&libraries, "/lib", 3).library_id, "id-1");
    assert_eq!(selected_folder_key(&libraries, "/x", 3).library_id, "/x");
}

#[test]
fn names_differ_however_many_are_given_out() {
    for case_sensitive in [false, true] {
        let mut names = NameAllocator::new(case_sensitive);
        let mut given: Vec<String> = Vec::new();
        for stem in ["a", "A", "a (2)", "assets", "Assets", "a", "_导出未完成", "A (2)"] {
            given.push(names.allocate(stem));
        }
        let mut keys: Vec<String> = given.iter().map(|name| names.key(name)).collect();
        keys.push(names.key("assets.md"));
        keys.push(names.key("_导出未完成.md"));
        let unique: std::collections::HashSet<_> = keys.iter().collect();
        assert_eq!(unique.len(), keys.len(), "{given:?}");
    }
}
