//! What the pages show.
use course2md_desktop::account::{AccountProfile, AccountStatus, AccountUi, QrDialogState};
use course2md_desktop::account_views::QrVisual;
use course2md_desktop::choice_group::{GroupRole, SingleChoiceGroup};
use course2md_desktop::conversion::{text_id, AsrProvider};
use course2md_desktop::course_library::LibraryFilterOption;
use course2md_desktop::environment::Environment;
use course2md_desktop::export_views::{worker_end, worker_start, WorkerEvent};
use course2md_desktop::fields::{
    enter_pressed, field_edited, field_error, input_fields, output, EnterAction, Field,
    ServiceFields,
};
use course2md_desktop::folder_export::{
    Failure, FeedbackTone, FolderKey, Report, Snapshot, SnapshotNote, State,
};
use course2md_desktop::folder_views::{
    batch_folder, begin_delete_folder, close_folder_dialog, folder_menu, folder_picker,
    folder_removed, BatchImport, FolderChoice,
};
use course2md_desktop::folders::{FolderContext, FolderEditor, FolderOrigin, LibraryPlace};
use course2md_desktop::library_page::{
    LibraryGroupBody, LibraryGroupHeader, LibraryItem, RecoveryNotice,
};
use course2md_desktop::library_scan::{LibraryScan, LocationResult, ScanStep, Shelf};
use course2md_desktop::library_views::{
    begin_course_rename, choose_filter, folder_filter_control, leave_empty_state, library_card,
    library_card_row, library_list_page, library_list_row, library_toolbar, note_task, recent_note_row, renamed_message, EmptyAction,
    Gap, ItemView,
};
use course2md_desktop::model_diagnostics::{
    CachePart, CacheState, LocalModelStatus, Request, RuntimeRepair,
};
use course2md_desktop::model_diagnostics::State as Models;
use course2md_desktop::model_panels::{
    model_hardware_details, shows_model_stage, EngineUse, StageProgress,
};
use course2md_desktop::notes::{Course, Library, LibraryFindings, LibraryViewCache, Manifest, ScannedNote};
use course2md_desktop::recent_notes::{recent_notes_section, RecentAction};
use course2md_desktop::table::Table;
use course2md_desktop::workbench::{SourceCandidate, SubtitlePick, Workbench};
use course2md_desktop::workbench_options::{
    choose_destination, import_destination, import_exports, import_speech_options, set_format,
    AiServiceView, DestinationView, SpeechView, TextSourcePlace,
};
use course2md_desktop::workbench_page::TaskPanel;
use course2md_desktop::workbench_views::{LoginFailures, SourceField};
use course2md_desktop::workspace::{
    CachedSubtitle, ConversionOptions, Draft, LibraryLocation, Operation, Page, Source,
    SubtitleEvidence, SubtitleOrigin, SubtitleTrack, TaskPlan, TaskRecord, TaskState,
};

fn bench() -> Workbench {
    Workbench::new(ConversionOptions::default())
}

fn source() -> Source {
    Source {
        input: "link".into(),
        identity: "video".into(),
        title: "标题".into(),
        author: String::new(),
        online: true,
        subtitles: SubtitleEvidence::NoneFound,
        selected_subtitle: None,
        subtitle_request: None,
        subtitle_read_error: None,
    }
}

fn library(id: &str, name: &str, root: &str) -> LibraryLocation {
    LibraryLocation {
        id: id.into(),
        name: name.into(),
        root: root.into(),
    }
}

fn draft() -> Draft {
    Draft {
        id: "d".into(),
        revision: 0,
        online: true,
        input: "link".into(),
        source: None,
        title: String::new(),
        custom_title: false,
        options: ConversionOptions::default(),
        library_id: "one".into(),
        folder: Some(3),
        subtitle: None,
        asr_service: None,
        ai_service: None,
        submitted_task: None,
    }
}

fn course(dir: &str) -> Course {
    Course {
        dir: dir.into(),
        storage: dir.into(),
        title: dir.into(),
        modified: 0,
        manifest: None,
    }
}

fn task(id: &str, state: TaskState) -> TaskRecord {
    TaskRecord {
        id: id.into(),
        plan: TaskPlan {
            operation: Operation::Convert,
            source: source(),
            source_id: "video".into(),
            title: id.into(),
            library_id: "one".into(),
            folder: None,
            options: ConversionOptions::default(),
            subtitle: None,
            asr_service: None,
            ai_service: None,
        },
        state,
        updated: 0,
        parent: None,
        handled_by: None,
        error: None,
        artifact: Some(format!("/lib/{id}")),
        unread: false,
        blocked: Vec::new(),
    }
}

// ---------------------------------------------------------------------- workbench

#[test]
fn the_field_for_a_video_follows_what_was_entered() {
    let mut own = bench();
    own.source_validation = Some("先粘贴视频链接".into());
    let view = own.box_source_input("", None, true, false, false);
    assert!(matches!(
        view.field,
        SourceField::Link { validation: Some(message), start: true } if message == "先粘贴视频链接"
    ));
    assert!(!view.reading && view.collection.is_none() && view.error.is_none());
    own.source_preview = Some(source());
    let view = own.box_source_input("link", None, false, false, false);
    assert!(matches!(
        view.field,
        SourceField::Link { validation: None, start: false }
    ));
    own.online = false;
    own.source_preview = None;
    assert!(matches!(
        own.box_source_input("", None, true, false, false).field,
        SourceField::DropZone
    ));
    assert!(matches!(
        own.box_source_input("/a/b.mp4", Some("b.mp4"), true, false, false).field,
        SourceField::File { name, .. } if name == "b.mp4"
    ));
    assert!(matches!(
        own.box_source_input("/a/..", Some(""), true, false, false).field,
        SourceField::File { name, .. } if name == "/a/.."
    ));
}

#[test]
fn candidates_and_errors_are_shown_apart() {
    let mut own = bench();
    own.preview_error = Some("ERROR: 412".into());
    let view = own.box_source_input("l", None, true, true, true);
    let error = view.error.unwrap();
    assert_eq!(error.summary, "视频需要登录后读取，请登录后重试转换");
    assert!(error.offers_login);
    assert_eq!(error.details_label, "技术详情");
    own.source_collection_title = Some("合集".into());
    own.source_candidates = vec![
        SourceCandidate {
            input: "a".into(),
            title: " a ".into(),
            identity: None,
        },
        SourceCandidate {
            input: "b".into(),
            title: "第二课".into(),
            identity: None,
        },
    ];
    let view = own.box_source_input("l", None, true, false, true);
    assert!(view.error.is_none());
    assert_eq!(view.hint.as_deref(), Some("ERROR: 412"));
    let (title, offered) = view.collection.unwrap();
    assert_eq!(title, "合集");
    assert_eq!(offered[0].title, "视频 1");
    assert_eq!(offered[0].link.as_deref(), Some("a"));
    assert_eq!(offered[1].label, "选择 第二课");
    assert_eq!(offered[1].link, None);
}

#[test]
fn the_selected_video_can_be_changed() {
    let mut own = bench();
    assert!(own.box_selected_video("link", true, true).is_none());
    own.source_preview = Some(source());
    let view = own.box_selected_video("link", true, true).unwrap();
    assert!(view.shows_account && view.shows_start && !view.can_close_field && view.can_reread);
    assert_eq!(view.change_label, "更换视频");
    assert!(own.change_source("link"));
    let view = own.box_selected_video("link", true, false).unwrap();
    assert!(view.can_close_field && !view.shows_start && !view.shows_account);
    assert_eq!(view.change_label, "收起输入");
    assert!(!own.change_source("link"));
    assert!(!own.source_editor_open);
}

#[test]
fn the_text_source_says_what_is_open() {
    let logins = LoginFailures {
        failure: true,
        warning: false,
        known: true,
    };
    let mut own = bench();
    assert!(own.text_source_view(false, true, logins).is_none());
    own.source_preview = Some(source());
    let view = own.text_source_view(false, true, logins).unwrap();
    assert_eq!(view.description, "识别视频声音");
    assert_eq!(view.toggle, Some("更换"));
    assert_eq!(view.note.as_deref(), Some("未找到可直接读取的字幕"));
    assert!(!view.choices_open && !view.offers_login && view.speech);
    let open = own.text_source_view(true, true, logins).unwrap();
    assert_eq!(open.toggle, Some("收起"));
    assert_eq!(open.note, None);
    assert_eq!(
        open.finding.as_deref(),
        Some("未找到可直接读取的字幕，可以识别视频声音。")
    );
    own.task_options.source_mode = 1;
    own.subtitle_error = Some("需要登录".into());
    own.source_preview = Some(Source {
        selected_subtitle: Some(CachedSubtitle {
            source_identity: "video".into(),
            track_id: "a".into(),
            label: "中文".into(),
            path: String::new(),
        }),
        ..source()
    });
    let view = own.text_source_view(false, true, logins).unwrap();
    assert!(view.choices_open && view.toggle.is_none() && view.offers_login);
    assert_eq!(view.previous.as_deref(), Some("中文"));
    let issue = view.failure.unwrap();
    assert_eq!(issue.summary, "字幕需要登录后才能读取；可以登录，或改用语音识别");
    assert_eq!(issue.id, text_id("subtitle-read", "需要登录"));
    assert!(!issue.expanded);
    own.toggle_issue(issue.id.clone());
    assert!(own.subtitle_issue("subtitle-read", "需要登录", true).expanded);
    own.toggle_issue(issue.id);
    assert!(own.expanded_subtitle_issue.is_none());
}

#[test]
fn a_warning_about_some_subtitles_is_told() {
    let mut own = bench();
    own.source_preview = Some(Source {
        online: false,
        subtitles: SubtitleEvidence::Found {
            tracks: vec![SubtitleTrack {
                id: "a".into(),
                label: "中文".into(),
                origin: SubtitleOrigin::Remote,
            }],
            warning: Some("缺一".into()),
        },
        ..source()
    });
    let logins = LoginFailures {
        failure: false,
        warning: false,
        known: false,
    };
    let view = own.text_source_view(false, true, logins).unwrap();
    assert_eq!(view.warning.unwrap().summary, "部分字幕尚未确认：缺一");
    assert!(view.can_attach && view.can_retry);
    assert_eq!(view.choices.len(), 2);
    own.subtitle_error = Some("坏".into());
    assert!(own
        .text_source_view(false, true, logins)
        .unwrap()
        .warning
        .is_none());
}

#[test]
fn a_chosen_file_is_attached_and_asked_for() {
    let track = || SubtitleTrack {
        id: "f".into(),
        label: "f.srt".into(),
        origin: SubtitleOrigin::File,
    };
    let mut own = bench();
    own.source_preview = Some(source());
    assert!(own
        .choose_attached_subtitle(1, "video", SubtitlePick::Subtitle(track()))
        .is_none());
    assert!(own
        .choose_attached_subtitle(0, "other", SubtitlePick::Other)
        .is_none());
    assert!(own.subtitle_error.is_none());
    own.choose_attached_subtitle(0, "video", SubtitlePick::Nothing);
    assert!(own.subtitle_error.is_none());
    own.choose_attached_subtitle(0, "video", SubtitlePick::Other);
    assert_eq!(own.subtitle_error.as_deref(), Some("请选择 SRT 或 VTT 字幕文件"));
    own.choose_attached_subtitle(0, "video", SubtitlePick::Failed("坏".into()));
    assert_eq!(own.subtitle_error.as_deref(), Some("坏"));
    let ticket = own
        .choose_attached_subtitle(0, "video", SubtitlePick::Subtitle(track()))
        .unwrap();
    assert!(ticket.explicit && own.subtitle_loading && own.subtitle_error.is_none());
    assert_eq!(own.task_options.source_mode, 1);
    let shown = own.source_preview.unwrap();
    assert_eq!(shown.subtitle_request, Some(track()));
    assert_eq!(
        shown.subtitles,
        SubtitleEvidence::Found {
            tracks: vec![track()],
            warning: None
        }
    );
}

#[test]
fn content_options_follow_the_choices() {
    let mut own = bench();
    own.task_options.llm = true;
    let view = own.import_content_options(
        &ConversionOptions::default(),
        Some(("校对", "host")),
        &Some("规则".into()),
    );
    assert_eq!(view.mode, "0");
    assert!(view.shows_speech && view.shows_vision && view.own_rules && view.overridden);
    assert!(matches!(
        view.ai_service,
        AiServiceView::Chosen { notice: Some(text) } if text == "校对文字将发送到「校对」（host）。"
    ));
    own.task_options.llm = false;
    own.task_options.source_mode = 1;
    let view =
        own.import_content_options(&ConversionOptions::default(), None, &Some("规则".into()));
    assert!(!view.shows_speech && !view.own_rules && !view.overridden && !view.shows_ai_service);
    assert!(matches!(view.ai_service, AiServiceView::Missing));
    assert!(own.choose_text_mode(2) == false && own.task_options.source_mode == 2);
    assert!(!own.choose_text_mode(1));
}

#[test]
fn speech_and_destination_are_offered() {
    let mut options = ConversionOptions::default();
    match import_speech_options(&options, &None, AsrProvider::Cpu) {
        SpeechView::Local {
            current,
            engines,
            selected,
        } => {
            assert_eq!(current, "当前方式：CPU");
            assert_eq!(engines.len(), 2);
            assert_eq!(engines[1].value, "3");
            assert_eq!(engines[0].label, "应用推荐方式");
            assert_eq!(selected, "0");
        }
        SpeechView::Cloud => panic!("speech is local"),
    }
    options.provider = 5;
    assert!(matches!(
        import_speech_options(&options, &None, AsrProvider::Cpu),
        SpeechView::Cloud
    ));
    let libraries = vec![library("one", "甲", "/one"), library("two", "乙", "/two")];
    match import_destination(&libraries, Some(&"two".to_owned())) {
        DestinationView::Choice { label, entries } => {
            assert_eq!(label, "乙");
            assert_eq!(entries[0].label, "甲 · /one");
            assert!(!entries[0].checked && entries[1].checked);
        }
        _ => panic!("there is a choice"),
    }
    assert!(matches!(
        import_destination(&vec![library("one", "甲", "/one")], Some(&"one".to_owned())),
        DestinationView::Only(name) if name == "甲"
    ));
    assert!(matches!(
        import_destination(&Vec::new(), None),
        DestinationView::Unknown
    ));
    let mut own = draft();
    choose_destination(&mut own, "two".into());
    assert_eq!((own.library_id.as_str(), own.folder), ("two", None));
}

#[test]
fn exports_are_listed() {
    let mut options = ConversionOptions::default();
    set_format(&mut options, 1, true);
    let view = import_exports(&options, false, true);
    assert_eq!(view.toggle, "同时导出文件");
    assert_eq!(view.summary.as_deref(), Some("网页文件"));
    assert!(view.rows[1].checked && !view.rows[0].checked);
    assert_eq!(view.rows[2].description, "供其他程序读取和处理");
    assert_eq!(view.keep_video, Some(false));
    assert_eq!(import_exports(&options, true, false).keep_video, None);
}

#[test]
fn the_workbench_is_made_up_of_what_is_due() {
    let mut own = bench();
    let page = own.new_page(None, false);
    assert!(page.shows_field && page.shows_options_toggle && !page.shows_options);
    assert_eq!(page.text_source, TextSourcePlace::Nowhere);
    assert!(!page.checks_model);
    own.generation_options_open = true;
    own.source_preview = Some(source());
    let page = own.new_page(None, false);
    assert!(!page.shows_field && page.shows_video && page.shows_options && page.checks_model);
    assert_eq!(page.text_source, TextSourcePlace::Options);
    own.subtitle_error = Some("坏".into());
    assert_eq!(own.new_page(None, false).text_source, TextSourcePlace::Section);
    let running = task("t", TaskState::Running);
    let page = own.new_page(Some((&running, 0)), false);
    assert_eq!(page.task, Some(TaskPanel::Running));
    assert!(page.offers_another_video && !page.can_close_field && !page.shows_options_toggle);
    assert!(!page.checks_model && !page.shows_video);
    let cancelled = task("t", TaskState::Cancelled);
    let page = own.new_page(Some((&cancelled, 0)), false);
    assert!(page.cancelled && page.task.is_none());
}

#[test]
fn a_new_source_takes_over() {
    let mut own = bench();
    own.source_preview = Some(source());
    own.previewing = true;
    assert!(own.take_source("other".into()).preview);
    assert_eq!(own.last_source_input, "other");
    assert!(own.source_preview.is_none() && own.preview_generation == 1);
    own.completed_source = Some("x".into());
    let mut options = ConversionOptions::default();
    options.llm = true;
    own.prepare_next_import(options);
    assert!(own.completed_source.is_none() && own.task_options.llm);
    own.prepare_workbench_input();
    assert!(own.source_editor_open && own.preview_generation == 3);
}

// ------------------------------------------------------------------------- fields

#[test]
fn fields_are_set_up_and_edited() {
    let services = ServiceFields {
        asr_url: "u".into(),
        asr_key: "k".into(),
        asr_model: "m".into(),
        llm_url: "v".into(),
        llm_key: "l".into(),
        llm_model: "n".into(),
    };
    let fields = input_fields("/out", &services);
    assert_eq!(fields.len(), 11);
    assert_eq!(fields[2].field, Field::Output);
    assert_eq!(fields[2].value, "/out");
    assert!(fields[6].masked && fields[9].masked && !fields[5].masked);
    assert_eq!(fields[9].value, "l");
    assert_eq!(fields[0].placeholder, "粘贴 YouTube 或 Bilibili 视频链接");
    assert!(field_edited(Field::Source, true, "a", "b", &None).is_none());
    let edit = field_edited(Field::Source, false, "a", "b", &None).unwrap();
    assert!(edit.source_changed && edit.saves_input && !edit.scrolls_library);
    let wanted = Some("请填写笔记名称".to_owned());
    let edit = field_edited(Field::Title, false, "名", "b", &wanted).unwrap();
    assert!(edit.clears_validation && !edit.source_changed);
    assert!(
        !field_edited(Field::Title, false, "", "b", &wanted)
            .unwrap()
            .clears_validation
    );
    assert_eq!(
        enter_pressed(Field::Source, Page::New, true),
        EnterAction::Start
    );
    assert_eq!(
        enter_pressed(Field::Source, Page::New, false),
        EnterAction::Nothing
    );
    assert_eq!(
        enter_pressed(Field::FolderName, Page::Library, false),
        EnterAction::SaveFolder
    );
    assert_eq!(
        field_error(Field::AsrUrl, "未保存：x", Some((Field::AsrUrl, "坏"))),
        Some("坏")
    );
    assert_eq!(
        field_error(Field::AsrUrl, "已保存", Some((Field::AsrUrl, "坏"))),
        None
    );
    let libraries = vec![library("one", "甲", "/one")];
    assert_eq!(output(Some(&libraries), "one", "/x"), "/one");
    assert_eq!(output(Some(&libraries), "two", "/x"), "/x");
    assert_eq!(output(None, "one", "/x"), "/x");
}

// ------------------------------------------------------------------------ library

fn findings(notes: Vec<ScannedNote>, names: Result<Table<String, String>, String>) -> LibraryFindings {
    LibraryFindings {
        depth: 1,
        recovery: None,
        title_recovery: None,
        aliases: names,
        notes,
    }
}

fn index(folders: &[(u64, &str)]) -> Library {
    let mut table = Table::new();
    for (id, name) in folders {
        table.insert(*id, name.to_string());
    }
    Library {
        folders: table,
        courses: Table::new(),
    }
}

#[test]
fn a_scan_fills_the_shelf() {
    let mut shelf = Shelf::new("/gone".into());
    shelf.opened = Some(Course {
        dir: "/one/a/v1".into(),
        storage: "/one/a".into(),
        ..course("/one/a")
    });
    let generation = shelf.refresh_library();
    assert!(shelf.loading);
    let libraries = vec![library("one", "甲", "/one"), library("two", "乙", "/two")];
    let results = || {
        let mut names = Table::new();
        names.insert("a".to_owned(), "新名".to_owned());
        vec![
            LocationResult {
                location: library("one", "甲", "/one"),
                scan: Ok(LibraryScan {
                    courses: vec![
                        Course {
                            modified: 1,
                            ..course("/one/a")
                        },
                        Course {
                            modified: 5,
                            ..course("/one/b")
                        },
                    ],
                    issues: vec!["甲缺一".into()],
                }),
                organization: Ok(index(&[(1, "讲座")])),
                cache: LibraryViewCache::inspect(
                    &library("one", "甲", "/one"),
                    findings(
                        vec![ScannedNote {
                            relative: Some("a".into()),
                            paths: vec!["/one/a".into()],
                        }],
                        Ok(names),
                    ),
                ),
            },
            LocationResult {
                location: library("two", "乙", "/two"),
                scan: Err("断".into()),
                organization: Err("坏".into()),
                cache: LibraryViewCache::inspect(
                    &library("two", "乙", "/two"),
                    findings(Vec::new(), Err("名坏".into())),
                ),
            },
        ]
    };
    assert_eq!(
        shelf.finish_refresh(generation + 1, true, results(), &libraries),
        ScanStep::Ignored
    );
    assert_eq!(
        shelf.finish_refresh(generation, false, results(), &libraries),
        ScanStep::Again
    );
    assert!(shelf.loading);
    assert_eq!(
        shelf.finish_refresh(generation, true, results(), &libraries),
        ScanStep::Done
    );
    assert!(!shelf.loading && shelf.error.is_none());
    assert_eq!(shelf.root, "/one");
    let titles: Vec<&str> = shelf.courses.iter().map(|note| note.title.as_str()).collect();
    assert_eq!(titles, ["/one/b", "新名"]);
    let opened = shelf.opened.as_ref().unwrap();
    assert_eq!((opened.title.as_str(), opened.dir.as_str()), ("新名", "/one/a/v1"));
    assert_eq!(
        shelf.issues,
        [
            "甲缺一",
            "乙暂时无法读取：断",
            "乙的文件夹记录暂时无法读取：坏",
            "乙的显示名称尚未读取：名坏"
        ]
    );
    let generation = shelf.refresh_library();
    assert_eq!(
        shelf.finish_refresh(generation, true, Vec::new(), &libraries),
        ScanStep::Done
    );
    assert_eq!(shelf.error.as_deref(), Some("当前库的文件夹信息暂时无法读取"));
    assert_eq!(shelf.root, "/one");
}

#[test]
fn the_filter_lists_folders_by_their_ids() {
    let libraries = vec![library("one", "甲", "/one"), library("two", "乙", "/two")];
    let mut indexes = Table::new();
    let shown = index(&[(4, "丁")]);
    let control = folder_filter_control(&libraries, &indexes, "/x", &shown.folders, Some(4));
    let labels: Vec<&str> = control.options.iter().map(|o| o.label.as_str()).collect();
    assert_eq!(labels, ["全部笔记", "课程库 · 未分类", "课程库 · 丁"]);
    assert_eq!(control.selected, "f-0-4");
    indexes.insert("/two".to_owned(), index(&[(9, "九"), (2, "二")]));
    let control = folder_filter_control(&libraries, &indexes, "/two", &shown.folders, None);
    let labels: Vec<&str> = control.options.iter().map(|o| o.label.as_str()).collect();
    assert_eq!(labels, ["全部笔记", "乙 · 未分类", "乙 · 二", "乙 · 九"]);
    assert_eq!(control.selected, "all");
    let mut place = LibraryPlace {
        library: index(&[]),
        search: String::new(),
        library_root: "/one".into(),
        folder_filter: None,
        target_folder: None,
        page: Page::Library,
    };
    choose_filter(
        &mut place,
        &LibraryFilterOption {
            value: "f-0-9".into(),
            label: "九".into(),
            root: "/two".into(),
            folder: Some(9),
        },
        &indexes,
    );
    assert!(place.library.folders.contains(&9));
    assert_eq!((place.library_root.as_str(), place.folder_filter), ("/two", Some(9)));
}

#[test]
fn tools_are_shown_where_they_help() {
    assert!(library_toolbar(0, None, "", false, 0, false, true, false).is_none());
    let view = library_toolbar(3, None, "", false, 0, false, true, true).unwrap();
    assert_eq!(view.group_label, Some("取消按文件夹分组"));
    assert_eq!(view.layout, "cards");
    let view = library_toolbar(3, Some(0), "", false, 0, false, false, false).unwrap();
    assert_eq!(view.managed_folder, None);
    assert_eq!(view.group_label, None);
    let view = library_toolbar(3, Some(7), "", false, 0, false, false, false).unwrap();
    assert_eq!(view.managed_folder, Some(7));
}

#[test]
fn rows_show_what_they_stand_for() {
    let mut entered = Table::new();
    let (view, gap) = LibraryItem::Empty { partial: true }.library_item(
        false,
        true,
        false,
        false,
        &mut entered,
    );
    assert_eq!(gap, Gap::Wide);
    assert!(matches!(
        view,
        ItemView::Empty { heading: "已读取的笔记中没有匹配的笔记。", action: EmptyAction::ClearSearch, animated: true, .. }
    ));
    let again = LibraryItem::Empty { partial: false };
    let (view, _) = again.library_item(false, false, false, false, &mut entered);
    assert!(matches!(view, ItemView::Empty { animated: false, .. }));
    leave_empty_state(&vec![LibraryItem::Loading], &mut entered);
    assert!(entered.contains(&"library-empty-state".to_owned()));
    leave_empty_state(
        &vec![LibraryItem::ListRow(0, Box::new(course("a")))],
        &mut entered,
    );
    assert!(!entered.contains(&"library-empty-state".to_owned()));
    let header = LibraryItem::GroupHeader(Box::new(LibraryGroupHeader {
        index: 2,
        key: "k".into(),
        name: "讲座".into(),
        count: 12,
        collapsed: true,
    }));
    let (view, gap) = header.library_item(false, false, false, false, &mut entered);
    assert_eq!(gap, Gap::Narrow);
    assert!(matches!(view, ItemView::Header { label, .. } if label == "展开 讲座，12 篇笔记"));
    let body = LibraryItem::GroupBody(Box::new(LibraryGroupBody {
        index: 2,
        key: "k".into(),
        collapsed: false,
        entries: Vec::new(),
    }));
    for animated_once in [true, false] {
        let (view, gap) = body.library_item(true, false, false, false, &mut entered);
        assert_eq!(gap, Gap::Nothing);
        assert!(matches!(
            view,
            ItemView::Body { hidden: false, animated } if animated == animated_once
        ));
    }
    assert!(entered.contains(&"folder-disclosure-2".to_owned()));
    let rows = vec![
        LibraryItem::Loading,
        LibraryItem::CardRow(vec![(7, course("a"))]),
        LibraryItem::ListRow(8, Box::new(course("b"))),
    ];
    assert_eq!(library_list_page(&rows), Some((true, 7)));
    assert_eq!(library_list_page(&vec![LibraryItem::Checking]), None);
}

#[test]
fn notices_offer_a_way_out() {
    let view = RecoveryNotice::Unavailable { index: 0 }.library_recovery_view("甲");
    assert_eq!(view.text, "甲 暂时无法访问。连接后可继续浏览笔记。");
    assert!(view.can_check && view.rebuild.is_none());
    let view = RecoveryNotice::Classification {
        index: 0,
        has_backup: false,
        diagnostics: vec!["x".into()],
    }
    .library_recovery_view("甲");
    assert!(view.restore.is_none() && view.rebuild_first && view.diagnostics);
    let view = RecoveryNotice::Names {
        index: 0,
        has_backup: true,
        diagnostics: Vec::new(),
    }
    .library_recovery_view("甲");
    assert_eq!(view.restore, Some("恢复最近名称备份"));
    assert_eq!(view.rebuild, Some("保留损坏记录并恢复原名称"));
    assert!(!view.rebuild_first && !view.diagnostics);
}

#[test]
fn notes_are_shown_on_cards_and_in_lists() {
    let note = course("/one/a");
    let card = library_card(&note, "讲师 · 2026-01-01", true, &Some("/one/a".into()));
    assert_eq!(card.label, "阅读 /one/a");
    assert_eq!(card.action, Some("继续阅读"));
    assert!(card.opening && card.shows_folder);
    assert_eq!(library_card_row(2, 3), 1);
    assert_eq!(library_card_row(3, 3), 0);
    let row = library_list_row(&note, "m", "d", false, &None, true, false, false);
    assert_eq!(row.line, "m · d");
    assert_eq!(row.action, Some("阅读"));
    assert!(!row.opening && !row.shows_folder);
    let narrow = library_list_row(&note, "m", "d", false, &None, false, true, false);
    assert_eq!(narrow.action, None);
    let recent = recent_note_row(&note, "m", "d");
    assert_eq!(recent.line, "d · m");
    assert_eq!(recent.action, Some("阅读笔记"));
    let made = Course {
        manifest: Some(Manifest {
            course_id: "c".into(),
            version_id: "v".into(),
            task_id: "b".into(),
            source_id: "s".into(),
            created_at_ms: 0,
        }),
        ..course("/lib/b")
    };
    let tasks = vec![task("a", TaskState::Complete), task("b", TaskState::Complete)];
    assert_eq!(note_task(&made, &tasks), Some(1));
    assert_eq!(note_task(&note, &tasks), None);
}

#[test]
fn renaming_starts_from_the_shown_name() {
    let libraries = vec![library("one", "甲", "/one")];
    let cache = LibraryViewCache::inspect(
        &libraries[0],
        findings(
            vec![ScannedNote {
                relative: Some("a".into()),
                paths: vec!["/one/a".into()],
            }],
            Ok(Table::new()),
        ),
    );
    let listed = vec![Course {
        title: "列表名".into(),
        ..course("/one/a")
    }];
    let start = begin_course_rename(&cache, &libraries, &listed, &course("/one/a"));
    assert!(matches!(start, Ok(start) if start.root == "/one" && start.name == "列表名"));
    assert_eq!(
        begin_course_rename(&cache, &libraries, &listed, &course("/x")).err(),
        Some("这份笔记的保存位置暂时无法确认，请重新检查课程库。")
    );
    assert_eq!(renamed_message("  新 "), "笔记已更名为「新」。");
}

#[test]
fn recent_notes_hold_tasks_and_notes() {
    let tasks = vec![task("a", TaskState::Partial), task("b", TaskState::Complete)];
    let courses = vec![course("/lib/x"), course("/lib/a")];
    let missing = vec![vec!["summary".to_owned()], Vec::new()];
    let begun = vec![false, true];
    let section =
        recent_notes_section(&courses, &begun, &tasks, &missing, &vec![false, false], &None)
            .unwrap();
    assert_eq!(section.tasks.len(), 1);
    assert_eq!(section.tasks[0].note, Some(1));
    assert_eq!(section.tasks[0].read_label, Some("继续阅读"));
    assert_eq!(section.tasks[0].action, RecentAction::Retry("补生成摘要"));
    assert_eq!(section.tasks[0].label, "补生成摘要");
    assert_eq!(section.notes, vec![0]);
    let unread = vec![true, false];
    let section =
        recent_notes_section(&courses, &unread, &tasks, &missing, &vec![true, false], &None)
            .unwrap();
    assert_eq!(section.tasks[0].read_label, Some("阅读笔记"));
    assert_eq!(section.tasks[0].action, RecentAction::Repair);
    assert_eq!(section.tasks[0].label, "修复 AI 服务并补做");
    let none = Vec::new();
    let section =
        recent_notes_section(&none, &Vec::new(), &tasks, &missing, &vec![false, false], &None)
            .unwrap();
    assert_eq!((section.tasks[0].note, section.tasks[0].read_label), (None, None));
    assert!(recent_notes_section(
        &none,
        &Vec::new(),
        &Vec::new(),
        &Vec::new(),
        &Vec::new(),
        &None
    )
    .is_none());
    let linked = Some("a".to_owned());
    let section =
        recent_notes_section(&courses, &begun, &tasks, &missing, &vec![false, false], &linked)
            .unwrap();
    assert!(section.tasks.is_empty());
    assert_eq!(section.notes, vec![0, 1]);
}

// ------------------------------------------------------------------------ folders

#[test]
fn the_folder_editor_is_shown() {
    let mut editor = FolderEditor {
        editing: None,
        origin: Some(FolderOrigin {
            root: "/two".into(),
            draft_id: None,
        }),
        targets: vec![library("one", "甲", "/one"), library("two", "乙", "/two")],
        saving: false,
        error: Some("坏".into()),
        deleting: Some(4),
    };
    let mut indexes = Table::new();
    indexes.insert("/one".to_owned(), index(&[(4, "讲座")]));
    indexes.insert("/two".to_owned(), index(&[(4, "乙四"), (6, "六")]));
    let shown = index(&[(5, "五")]);
    let current = "/one".to_owned();
    let view = editor.folder_editor_view(&indexes, &current, &shown.folders);
    assert!(view.editor.is_none());
    let deletion = view.deletion.unwrap();
    assert_eq!((deletion.root.as_str(), deletion.folder), ("/two", 4));
    assert_eq!(deletion.title, "删除「乙四」文件夹？");
    assert_eq!(
        deletion.description,
        "其中的课程会回到未分类，笔记和原视频都会保留。"
    );
    assert_eq!(deletion.keep, "保留文件夹");
    assert_eq!(deletion.delete, "删除文件夹，保留课程");
    editor.editing = Some(None);
    let view = editor.folder_editor_view(&indexes, &current, &shown.folders);
    assert!(view.deletion.is_some());
    let view = view.editor.unwrap();
    assert_eq!(view.library.as_deref(), Some("乙 · /two"));
    let targets = view.targets.unwrap();
    assert!(!targets[0].checked && targets[1].checked);
    assert_eq!(view.save_label, "创建文件夹");
    assert_eq!(view.error.as_deref(), Some("坏"));
    editor.editing = Some(Some(4));
    let view = editor
        .folder_editor_view(&indexes, &current, &shown.folders)
        .editor
        .unwrap();
    assert!(view.targets.is_none());
    assert_eq!(view.save_label, "保存名称");
    editor.keep_folder();
    assert!(editor.deleting.is_none() && editor.origin.is_none());
    let view = editor.folder_editor_view(&indexes, &current, &shown.folders);
    assert!(view.deletion.is_none());
    // Without a place of its own the folder is one of the current library.
    editor.deleting = Some(4);
    let view = editor.folder_editor_view(&indexes, &current, &shown.folders);
    assert_eq!(view.deletion.unwrap().title, "删除「讲座」文件夹？");
}

#[test]
fn a_person_is_asked_before_a_folder_is_deleted() {
    let mut indexes = Table::new();
    indexes.insert("/one".to_owned(), index(&[(4, "讲座")]));
    let shown = index(&[(5, "五")]);
    let question = begin_delete_folder(&indexes, &"/one".to_owned(), &shown.folders, 4);
    assert_eq!(question.title, "删除「讲座」文件夹？");
    assert_eq!(
        question.description,
        "其中的笔记会回到未分类，笔记正文和原视频都会保留。"
    );
    assert_eq!((question.delete, question.keep), ("删除文件夹", "保留文件夹"));
    let question = begin_delete_folder(&indexes, &"/two".to_owned(), &shown.folders, 5);
    assert_eq!(question.title, "删除「五」文件夹？");
    assert_eq!((question.root.as_str(), question.folder), ("/two", 5));
}

#[test]
fn a_deleted_folder_is_no_longer_shown() {
    let mut indexes = Table::new();
    indexes.insert("/one".to_owned(), index(&[(4, "讲座")]));
    let place = |filter| LibraryPlace {
        library: index(&[(4, "讲座")]),
        search: "x".into(),
        library_root: "/one".into(),
        folder_filter: filter,
        target_folder: Some(4),
        page: Page::Library,
    };
    let mut editor = FolderEditor {
        editing: None,
        origin: None,
        targets: Vec::new(),
        saving: false,
        error: None,
        deleting: Some(4),
    };
    let mut shown = place(Some(4));
    editor.finish_delete(&mut shown, &mut indexes, "/one".into(), index(&[]), 4);
    assert!(editor.deleting.is_none());
    assert_eq!(shown.folder_filter, Some(0));
    assert!(shown.library.folders.entries.is_empty());
    // The input keeps the folder that is gone.
    assert_eq!(shown.target_folder, Some(4));
    assert!(indexes.get(&"/one".to_owned()).unwrap().folders.entries.is_empty());
    let mut elsewhere = place(Some(4));
    folder_removed(&mut elsewhere, &mut indexes, "/two".into(), index(&[]), 4);
    assert_eq!(elsewhere.folder_filter, Some(4));
    assert_eq!(elsewhere.library.folders.entries.len(), 1);
    assert!(indexes.get(&"/two".to_owned()).is_some());
}

#[test]
fn folders_are_picked_for_notes_and_inputs() {
    let context = FolderContext {
        storage: None,
        origin: FolderOrigin {
            root: "/one".into(),
            draft_id: Some("d".into()),
        },
        folder: None,
        load_error: Some("坏".into()),
        label: "未分类".into(),
        folders: Table::new(),
    };
    let view = folder_picker(&context, false);
    assert_eq!(view.description, "保存到文件夹：未分类");
    assert!(view.disabled);
    let mut target = None;
    let own = draft();
    assert_eq!(
        folder_menu(&mut target, true, Some(&own), &context.origin, Some(3)),
        FolderChoice::MoveNote
    );
    assert_eq!(
        folder_menu(&mut target, false, Some(&own), &context.origin, Some(3)),
        FolderChoice::SetTarget
    );
    assert_eq!(target, Some(3));
    assert_eq!(
        folder_menu(&mut target, false, None, &context.origin, None),
        FolderChoice::Nothing
    );
    assert_eq!(target, Some(3));
}

#[test]
fn a_batch_without_a_folder_ends_with_the_dialog() {
    let batch = |folder| {
        Some(BatchImport {
            files: vec!["a.mp4".into()],
            next: 0,
            queued: 0,
            failures: Vec::new(),
            folder,
            first_task: None,
            current: None,
        })
    };
    let mut editor = FolderEditor {
        editing: Some(None),
        origin: None,
        targets: Vec::new(),
        saving: false,
        error: None,
        deleting: None,
    };
    let mut message = None;
    let mut waiting = batch(None);
    close_folder_dialog(&mut editor, &mut waiting, &mut message);
    assert!(waiting.is_none() && editor.editing.is_none());
    assert_eq!(
        message.as_deref(),
        Some("批量处理已取消；必须新建一个笔记文件夹才能继续")
    );
    let mut running = batch(Some(3));
    let mut message = None;
    close_folder_dialog(&mut editor, &mut running, &mut message);
    assert!(running.is_some() && message.is_none());
    assert_eq!(batch_folder(Some(4), true), Some(4));
    assert_eq!(batch_folder(Some(4), false), None);
}

// ------------------------------------------------------------------------- exports

#[test]
fn an_export_ends_at_once_where_nothing_can_be_written() {
    let snapshot = |notes| Snapshot {
        root: "/one".into(),
        folder_name: "新名".into(),
        notes,
    };
    let start = worker_start("旧名", None);
    assert!(!start.exports);
    assert!(matches!(
        &start.events[..],
        [WorkerEvent::Finished { folder_name, result: Err(told) }]
            if folder_name == "旧名" && told == "文件夹内容暂时无法读取，请刷新课程库后重试。"
    ));
    let start = worker_start("旧名", Some(&snapshot(Vec::new())));
    assert!(!start.exports);
    assert!(matches!(
        &start.events[..],
        [
            WorkerEvent::Started { folder_name, total: 0 },
            WorkerEvent::Finished { result: Err(told), .. },
        ] if folder_name == "新名" && told == "文件夹中没有可导出的笔记。"
    ));
    let full = snapshot(vec![SnapshotNote {
        title: "一".into(),
        version: Ok("/one/a".into()),
    }]);
    let start = worker_start("旧名", Some(&full));
    assert!(start.exports);
    assert!(matches!(
        &start.events[..],
        [WorkerEvent::Started { folder_name, total: 1 }] if folder_name == "新名"
    ));
    assert!(matches!(
        worker_end(&full, Err("请选择课程库以外的位置".into())),
        WorkerEvent::Finished { folder_name, result: Err(told) }
            if folder_name == "新名" && told == "请选择课程库以外的位置后重试。"
    ));
    assert!(matches!(
        worker_end(&full, Err("denied".into())),
        WorkerEvent::Finished { result: Err(told), .. }
            if told == "无法在所选位置完成导出，请检查访问权限后重试。"
    ));
    let report = Report {
        output: Some("/out".into()),
        total: 1,
        failures: Vec::new(),
    };
    assert!(matches!(
        worker_end(&full, Ok(report)),
        WorkerEvent::Finished { result: Ok(report), .. } if report.output.as_deref() == Some("/out")
    ));
}

#[test]
fn an_export_is_reported_step_by_step() {
    let key = || FolderKey {
        library_id: "one".into(),
        root: "/one".into(),
        folder_id: 7,
    };
    let folders = index(&[(7, "讲座")]).folders;
    let mut state = State::default();
    assert!(state.begin_folder_export(key(), &folders, 0, true).is_none());
    assert!(state.begin_folder_export(key(), &folders, 2, false).is_none());
    let generation = state.begin_folder_export(key(), &folders, 2, true).unwrap();
    assert_eq!(state.pending.as_ref().unwrap().folder_name, "讲座");
    assert!(state.take(
        generation,
        &key(),
        WorkerEvent::Started {
            folder_name: "讲座".into(),
            total: 2
        }
    ));
    assert!(state.take(generation, &key(), WorkerEvent::Advanced(1)));
    assert!(state.folder_export_feedback(&key()).is_none());
    assert!(state.take(
        generation,
        &key(),
        WorkerEvent::Finished {
            folder_name: "讲座".into(),
            result: Ok(Report {
                output: Some("/out".into()),
                total: 2,
                failures: vec![Failure {
                    title: "坏".into(),
                    reason: "断".into(),
                }],
            }),
        }
    ));
    assert!(!state.take(generation, &key(), WorkerEvent::Advanced(2)));
    let view = state.folder_export_feedback(&key()).unwrap();
    assert_eq!(view.id, "folder-export:one:7");
    assert_eq!(view.tone, FeedbackTone::Warning);
    assert_eq!(view.label, "已导出 1/2 篇；《坏》未完成");
    assert_eq!(view.output.as_deref(), Some("/out"));
    assert_eq!(view.details_toggle, Some("查看详情"));
    assert!(view.can_retry && !view.retry_disabled && view.details.is_empty());
    state.toggle_details(&key());
    let view = state.folder_export_feedback(&key()).unwrap();
    assert_eq!(view.details, ["《坏》：断"]);
    let generation = state.begin_folder_export(key(), &folders, 2, true).unwrap();
    assert!(state.picker_failed(generation, &key()));
    assert!(!state.picker_failed(generation, &key()));
    assert_eq!(
        state.folder_export_feedback(&key()).unwrap().label,
        "未能导出“讲座”：无法打开目录选择器，请重试。"
    );
}

// ------------------------------------------------------------------------- account

#[test]
fn the_account_is_summed_up() {
    let mut account = AccountUi::default();
    let view = account.account_summary(true);
    assert_eq!(view.heading, "账号状态");
    assert_eq!(view.detail, None);
    assert_eq!(view.login, Some("登录 Bilibili"));
    assert!(!view.can_log_out);
    account.has_saved_login = true;
    account.status = Some(AccountStatus::Expired);
    let view = account.account_summary(false);
    assert_eq!(view.badge.1, "登录已失效");
    assert_eq!(
        view.policy,
        "读取字幕和视频时使用此账号的权限。退出登录不会删除课程和笔记。"
    );
    assert_eq!(account.source_account_row().status, "Bilibili：登录已失效");
}

#[test]
fn the_login_dialog_shows_its_state() {
    let mut account = AccountUi {
        dialog: Some(QrDialogState::Confirming(9)),
        ..Default::default()
    };
    let view = account.account_dialog_content(false);
    assert_eq!(view.visual, QrVisual::Spinner);
    assert!(view.waits_for_phone && !view.offers_new_code);
    assert_eq!(view.hint.as_deref(), Some("请在约 9 秒内确认"));
    account.dialog = None;
    assert_eq!(account.account_dialog_content(false).hint, None);
    account.dialog = Some(QrDialogState::Expired);
    let view = account.account_dialog_content(false);
    assert_eq!(view.visual, QrVisual::Warning);
    assert!(view.offers_new_code);
    assert!(!account.close_account_dialog(true));
    account.dialog = Some(QrDialogState::Success(AccountProfile { name: "名".into() }));
    let view = account.account_dialog_content(true);
    assert_eq!(view.close_label, "继续转换");
    assert!(view.close_first);
    assert!(account.close_account_dialog(true));
    assert!(account.dialog.is_none());
}

// -------------------------------------------------------------------------- models

fn environment() -> Environment {
    Environment {
        engine: true,
        ffmpeg: true,
        ffprobe: true,
        ytdlp: true,
        llama: true,
        apple: false,
        gpu: Some("RTX".into()),
        npu: false,
        npu_device: true,
        npu_runtime: false,
    }
}

#[test]
fn a_model_panel_says_what_is_known() {
    let idle = EngineUse {
        job: false,
        models: false,
        cancelling: false,
    };
    let found = environment();
    let mut state = Models::default();
    let request = Request::new(AsrProvider::Gpu, None, "/m");
    let generation = state.check_model_request(&request, false).unwrap();
    state.finish_check(
        &request.key(),
        generation,
        Ok(LocalModelStatus {
            state: CacheState::Partial,
            bytes: 5,
            can_prepare: true,
            last_error: Some("断".into()),
        }),
        vec![CachePart {
            name: "权重".into(),
            path: "/m/w".into(),
            missing: vec!["a".into(), "b".into()],
            is_directory: true,
        }],
    );
    let stage = |stage: &str, has_samples, done| StageProgress {
        stage: stage.into(),
        title: format!("题{stage}"),
        detail: "3/9".into(),
        has_samples,
        done,
    };
    let progress = vec![
        stage("asr", true, false),
        stage("llama-download", true, false),
        stage("model-a", false, false),
        stage("model-b", true, true),
        stage("model-c", true, false),
    ];
    let panel = state.model_readiness_panel(&request, Some(&found), false, idle, &progress);
    assert!(panel.progress.is_empty());
    assert_eq!(panel.provider, "GPU");
    assert_eq!(panel.model, "Qwen3-ASR 1.7B");
    assert_eq!(panel.state.unwrap().1, "待准备");
    assert_eq!(panel.last_error.as_deref(), Some("未完成：断"));
    let cache = panel.cache.unwrap();
    assert_eq!(cache.bytes, Some(5));
    assert_eq!(cache.parts[0].missing.as_deref(), Some("缺少或尚未验证：a、b"));
    assert_eq!(
        cache.parts[0].open_label.as_deref(),
        Some("打开 权重 的缓存位置：/m/w")
    );
    assert_eq!(
        panel.prepare_label.as_deref(),
        Some("继续准备模型：GPU · qwen3-1.7b")
    );
    assert!(panel.network_note && panel.active.is_none() && panel.stop.is_none());
    state.begin_model_preparation(request.clone(), false);
    let busy = EngineUse {
        job: true,
        models: true,
        cancelling: true,
    };
    let panel = state.model_readiness_panel(&request, Some(&found), false, busy, &progress);
    let lines: Vec<(usize, &str)> = panel
        .progress
        .iter()
        .map(|line| (line.place, line.text.as_str()))
        .collect();
    assert_eq!(
        lines,
        [(1, "题llama-download · 3/9"), (4, "题model-c · 3/9")]
    );
    assert_eq!(panel.active.as_deref(), Some("正在准备 qwen3-1.7b"));
    assert_eq!(panel.stop.unwrap().label, "正在停止…");
    assert!(panel.prepare.is_none());
    let npu = Request::new(AsrProvider::Npu, None, "/m");
    let panel = state.model_readiness_panel(&npu, Some(&found), false, idle, &progress);
    assert_eq!(panel.repair, RuntimeRepair::InstallLauncher);
    assert!(panel.device_issue.is_some() && panel.checking);
    let failed = state.check_model_request(&npu, true).unwrap();
    state.finish_check(&npu.key(), failed, Err("坏".into()), Vec::new());
    let panel = state.model_readiness_panel(&npu, Some(&found), false, idle, &progress);
    assert_eq!(panel.check_error.as_deref(), Some("模型缓存检查未完成：坏"));
    state.details = true;
    let page = state.model_diagnostics_panel(&npu, busy, &vec!["一".into(), "二".into()]);
    assert!(page.other_active && !page.by_service);
    assert_eq!(page.details_toggle, Some("收起准备详情"));
    assert_eq!(page.log.as_deref(), Some("一\n二"));
}

#[test]
fn hardware_is_listed() {
    let found = environment();
    let view = model_hardware_details(Some(&found), AsrProvider::Npu, "x86_64", false, false).unwrap();
    let ids: Vec<&str> = view.rows.iter().map(|row| row.id).collect();
    assert_eq!(ids, ["cpu-device", "gpu-device", "npu-device", "npu-runtime"]);
    assert_eq!(view.rows[1].value, "RTX");
    assert_eq!(view.available.as_deref(), Some("GPU、CPU"));
    assert_eq!(view.alternatives, vec![AsrProvider::Gpu, AsrProvider::Cpu]);
    let view = model_hardware_details(Some(&found), AsrProvider::Cpu, "arm64", true, true).unwrap();
    let ids: Vec<&str> = view.rows.iter().map(|row| row.id).collect();
    assert_eq!(ids, ["cpu-device", "apple-device", "gpu-device", "apple-runtime"]);
    assert!(view.alternatives.is_empty());
    assert!(model_hardware_details(None, AsrProvider::Cpu, "arm64", true, true).is_none());
    assert!(shows_model_stage("model-x", true, false));
    assert!(shows_model_stage("pre-download", true, false));
    assert!(!shows_model_stage("asr", true, false));
    assert!(!shows_model_stage("model-x", true, true));
}

// ------------------------------------------------------------------------- choices

#[test]
fn a_choice_group_is_shown_with_one_entry_point() {
    let group = SingleChoiceGroup::new("g".into(), "组".into())
        .options(vec![
            ("a".into(), "甲".into()),
            ("b".into(), "乙".into()),
            ("c".into(), "丙".into()),
        ])
        .selected("b".into())
        .icon("c".into(), "icons/c.svg".into())
        .disable_option("a");
    let view = group.render();
    assert_eq!(view.role, GroupRole::RadioGroup);
    assert_eq!((view.label.as_str(), view.indicator), ("组", Some(1)));
    assert!(!view.vertical && !view.full_width);
    let shown = view.options;
    assert_eq!(shown.len(), 3);
    assert!(shown[0].disabled && !shown[0].tab_stop);
    assert!(shown[1].checked && shown[1].tab_stop && shown[1].place == 2);
    assert_eq!(shown[2].icon.as_deref(), Some("icons/c.svg"));
    assert!(!group.press(0) && !group.press(1) && group.press(2));
    let tabs = group.tabs().activate_selected();
    assert!(tabs.press(1));
    assert_eq!(tabs.render().role, GroupRole::TabList);
}
