//! Reading notes, recent notes, long lists, and the engine's events.
use course2md_desktop::follow::ConversionFollow;
use course2md_desktop::jobs::{
    close_step, expire_opened_notice, poll_delay, repaint, transient_result_over, CloseStep,
    Completed, Event, JobAction, JobState, Kind, Repaint, StartStep,
};
use course2md_desktop::lists::reconcile_list_items;
use course2md_desktop::notes::Course;
use course2md_desktop::reader::{
    carry_repaired_reading_positions, mark_read, settle_reader_notice, shown_library,
    sort_courses, ReadFailure, ReaderState, ShownLibrary,
};
use course2md_desktop::recent_notes::{
    attention_tasks, course_meta, recent_action, recent_notes, RecentAction, SourceMeta,
};
use course2md_desktop::table::Table;
use course2md_desktop::workspace::{
    ConversionOptions, LibraryLocation, Operation, Page, Source, SubtitleEvidence, TaskPlan,
    TaskRecord, TaskState,
};

#[derive(Clone, Debug, PartialEq, Default)]
struct ReadingPosition {
    paragraph: Option<String>,
    seconds: Option<f64>,
    offset: f32,
    fraction: Option<f32>,
}

#[test]
fn repair_position_handoff_uses_the_latest_old_position_and_keeps_existing_versions() {
    let start = ReadingPosition {
        seconds: Some(12.),
        offset: -120.,
        ..Default::default()
    };
    let latest = ReadingPosition {
        paragraph: Some("section-80".into()),
        seconds: Some(80.),
        offset: -840.,
        fraction: Some(0.4),
    };
    let gallery = ReadingPosition {
        seconds: Some(36.),
        offset: -300.,
        ..Default::default()
    };
    let mut positions: Table<String, &ReadingPosition> = Table::new();
    positions.insert("course:old:0".into(), &start);
    positions.insert("course:old:1".into(), &gallery);
    // The user keeps scrolling while the new version is read. Completion
    // saves this latest old-note position before performing the handoff.
    positions.insert("course:old:0".into(), &latest);
    carry_repaired_reading_positions(&mut positions, ("course", "old"), ("course", "new"));
    assert_eq!(**positions.get(&"course:new:0".into()).unwrap(), latest);
    assert_eq!(**positions.get(&"course:new:1".into()).unwrap(), gallery);
    assert_eq!(**positions.get(&"course:old:0".into()).unwrap(), latest);
    assert_eq!(**positions.get(&"course:old:1".into()).unwrap(), gallery);

    positions.insert("course:new:0".into(), &start);
    carry_repaired_reading_positions(&mut positions, ("course", "old"), ("course", "new"));
    assert_eq!(**positions.get(&"course:new:0".into()).unwrap(), start);
    let snapshot = positions.clone();
    carry_repaired_reading_positions(&mut positions, ("course", "old"), ("different", "new"));
    carry_repaired_reading_positions(&mut positions, ("course", "old"), ("course", "old"));
    assert_eq!(positions, snapshot);
}

#[test]
fn successful_retry_clears_its_failed_read_notice() {
    let mut message = Some("笔记文件暂时无法访问".into());
    let mut failure = message.clone();
    settle_reader_notice(&mut message, &mut failure, None);
    assert!(message.is_none());
    assert!(failure.is_none());
}

#[test]
fn successful_retry_preserves_newer_unrelated_feedback() {
    for newer in ["分类已恢复", "已加入任务：另一份笔记"] {
        let mut message = Some(newer.into());
        let mut failure = Some("笔记文件暂时无法访问".into());
        settle_reader_notice(&mut message, &mut failure, None);
        assert_eq!(message.as_deref(), Some(newer));
        assert!(failure.is_none());
    }
}

#[test]
fn followed_completion_only_clears_its_captured_notice() {
    let followed = "已加入任务：当前笔记";
    for (current, expected) in [
        (followed, None),
        ("已加入任务：另一份笔记", Some("已加入任务：另一份笔记")),
    ] {
        let mut message = Some(current.into());
        settle_reader_notice(&mut message, &mut None, Some(followed));
        assert_eq!(message.as_deref(), expected);
    }
}

#[test]
fn success_does_not_recreate_dismissed_or_clear_unowned_messages() {
    let mut dismissed = None;
    let mut failure = Some("笔记文件暂时无法访问".into());
    settle_reader_notice(&mut dismissed, &mut failure, None);
    assert!(dismissed.is_none());
    assert!(failure.is_none());

    let mut unowned = Some("笔记文件暂时无法访问".into());
    settle_reader_notice(&mut unowned, &mut None, None);
    assert!(unowned.is_some());
}

fn keys(text: &str) -> Vec<String> {
    text.chars().map(|key| key.to_string()).collect()
}

#[test]
fn a_splice_keeps_the_rows_that_stay() {
    let mut list = keys("abcd");
    let splice = reconcile_list_items(&mut list, keys("axybcd")).unwrap();
    assert_eq!((splice.start, splice.end, splice.added), (1, 1, 2));
    assert_eq!(list, keys("axybcd"));
    assert!(reconcile_list_items(&mut list, keys("axybcd")).is_none());
    let splice = reconcile_list_items(&mut list, keys("abcd")).unwrap();
    assert_eq!((splice.start, splice.end, splice.added), (1, 3, 0));
    let mut repeated = keys("aa");
    let splice = reconcile_list_items(&mut repeated, keys("aaa")).unwrap();
    assert_eq!((splice.start, splice.end, splice.added), (2, 2, 1));
    let splice = reconcile_list_items(&mut repeated, Vec::new()).unwrap();
    assert_eq!((splice.start, splice.end, splice.added), (0, 3, 0));
}

fn state() -> ReaderState {
    ReaderState {
        page: Page::Library,
        result_origin: Page::New,
        read_generation: 5,
        reading: false,
        opening_course: None,
        course_error: None,
        following: Some(ConversionFollow::Preparing(1)),
        message: None,
        failure_notice: None,
        shown_version: None,
        transient_result: true,
    }
}

#[test]
fn a_note_is_read_and_shown() {
    let mut state = state();
    let ticket = state.open_course("/lib/a".into());
    assert!(state.reading && state.following.is_none());
    assert_eq!(ticket.generation, 6);
    assert_eq!(ticket.reader_revision, 5);
    assert_eq!(state.result_origin, Page::Library);
    assert!(state.accept_read(&ticket, false, 0));
    assert!(!state.show_note(ticket));
    assert_eq!(state.page, Page::Result);
    assert_eq!(state.shown_version.as_deref(), Some("/lib/a"));
    assert_eq!(state.message, None);
    // From one note to the next the way back stays.
    let ticket = state.open_course("/lib/b".into());
    assert_eq!(state.result_origin, Page::Library);
    state.navigate(Page::Library);
    assert!(!state.accept_read(&ticket, false, 0));
    assert!(!state.transient_result);
}

#[test]
fn a_followed_note_opens_only_while_it_is_followed() {
    let mut state = state();
    state.page = Page::New;
    let follow = ConversionFollow::Task {
        id: "t".into(),
        source_revision: 3,
    };
    state.following = Some(follow.clone());
    state.message = Some("已加入任务：笔记".into());
    let ticket = state.open_course_with_conversion_guard("/lib/a".into(), Some(follow.clone()));
    assert_eq!(ticket.followed_notice.as_deref(), Some("已加入任务：笔记"));
    assert!(state.accept_read(&ticket, true, 3));
    assert!(state.show_note(ticket));
    assert_eq!(state.message.as_deref(), Some("笔记已打开"));
    state.page = Page::New;
    state.following = Some(follow.clone());
    let ticket = state.open_course_with_conversion_guard("/lib/a".into(), Some(follow.clone()));
    assert!(!state.accept_read(&ticket, false, 4));
    let ticket = state.open_course_with_conversion_guard("/lib/a".into(), Some(follow));
    state.following = None;
    assert!(!state.accept_read(&ticket, false, 3));
    assert!(!state.reading);
}

#[test]
fn a_failed_read_is_told_where_the_person_is() {
    let mut state = state();
    let ticket = state.open_course("/lib/a".into());
    state.fail_read(ticket, ReadFailure::PermissionDenied);
    assert_eq!(state.message, None);
    let note = Course {
        dir: "/lib/a".into(),
        storage: "/lib/a".into(),
        title: String::new(),
        modified: 0,
        manifest: None,
    };
    assert_eq!(
        state.error_beside(&note).unwrap(),
        "暂时无法读取这份笔记。请检查保存位置的访问权限后再次阅读，也可刷新课程库。"
    );
    state.page = Page::New;
    let ticket = state.open_course("/lib/b".into());
    state.fail_read(ticket, ReadFailure::NotFound);
    assert!(state.error_beside(&note).is_none());
    assert_eq!(state.message, state.failure_notice);
    assert!(state.message.unwrap().starts_with("笔记文件暂时无法访问。"));
}

fn task(id: &str, state: TaskState, updated: u64) -> TaskRecord {
    TaskRecord {
        id: id.into(),
        plan: TaskPlan {
            operation: Operation::Convert,
            source: Source {
                input: String::new(),
                identity: String::new(),
                title: String::new(),
                author: String::new(),
                online: true,
                subtitles: SubtitleEvidence::Unchecked,
                selected_subtitle: None,
                subtitle_request: None,
                subtitle_read_error: None,
            },
            source_id: String::new(),
            title: id.into(),
            library_id: String::new(),
            folder: None,
            options: ConversionOptions::default(),
            subtitle: None,
            asr_service: None,
            ai_service: None,
        },
        state,
        updated,
        parent: None,
        handled_by: None,
        error: None,
        artifact: Some(format!("/lib/{id}")),
        unread: true,
        blocked: Vec::new(),
    }
}

fn note(dir: &str, modified: u64) -> Course {
    Course {
        dir: dir.into(),
        storage: dir.into(),
        title: dir.into(),
        modified,
        manifest: None,
    }
}

#[test]
fn tasks_that_wait_come_first_and_their_notes_only_once() {
    let tasks = vec![
        task("a", TaskState::Paused, 1),
        task("b", TaskState::Complete, 9),
        task("c", TaskState::Uncertain, 3),
        task("d", TaskState::Partial, 3),
        task("e", TaskState::Partial, 8),
        task("f", TaskState::NeedsAttention, 7),
    ];
    let failures = vec![0, 0, 0, 2, 0, 0];
    assert_eq!(
        attention_tasks(&tasks, &failures, &Some("f".into())),
        vec![2, 3]
    );
    let shown = attention_tasks(&tasks, &failures, &None);
    assert_eq!(shown, vec![5, 2]);
    let courses: Vec<Course> = ["c", "x", "y", "f", "z", "v", "w", "u"]
        .iter()
        .map(|name| note(&format!("/lib/{name}"), 0))
        .collect();
    assert_eq!(recent_notes(&courses, &tasks, &shown), vec![1, 2, 4, 5, 6]);
}

#[test]
fn a_waiting_task_offers_what_helps() {
    let paused = task("a", TaskState::Paused, 0);
    assert_eq!(
        recent_action(&paused, &Vec::new(), false),
        RecentAction::Resume
    );
    assert_eq!(
        recent_action(&paused, &Vec::new(), true),
        RecentAction::Repair
    );
    let partial = task("b", TaskState::Partial, 0);
    for (component, label) in [
        ("screenshots", "补生成截图"),
        ("proofreading", "重试 AI 校对"),
        ("summary", "补生成摘要"),
        ("exports", "仅补导出"),
        ("other", "补全未完成部分"),
    ] {
        assert_eq!(
            recent_action(&partial, &vec![component.to_owned()], false),
            RecentAction::Retry(label)
        );
    }
    assert_eq!(
        recent_action(&partial, &vec!["summary".into(), "exports".into()], false),
        RecentAction::Retry("补全未完成部分")
    );
    let uncertain = task("c", TaskState::Uncertain, 0);
    assert_eq!(
        recent_action(&uncertain, &Vec::new(), true),
        RecentAction::View
    );
}

#[test]
fn the_line_under_a_title_holds_what_is_known() {
    let meta = SourceMeta {
        author: "讲师".into(),
        duration: Some("01:00".into()),
        online: false,
    };
    assert_eq!(
        course_meta(Some(&meta), "2026-01-02"),
        "讲师 · 01:00 · 本地视频 · 2026-01-02"
    );
    assert_eq!(course_meta(None, "2026-01-02"), "2026-01-02");
    let bare = SourceMeta {
        author: "  ".into(),
        duration: None,
        online: true,
    };
    assert_eq!(course_meta(Some(&bare), "2026-01-02"), "2026-01-02");
}

#[test]
fn notes_are_sorted_and_read() {
    let sorted = sort_courses(vec![note("a", 1), note("b", 3), note("c", 3), note("d", 2)]);
    let order: Vec<&str> = sorted.iter().map(|course| course.dir.as_str()).collect();
    assert_eq!(order, ["b", "c", "d", "a"]);
    let mut tasks = vec![task("a", TaskState::Complete, 0), task("b", TaskState::Complete, 0)];
    mark_read(&mut tasks, "/lib/b");
    assert!(tasks[0].unread && !tasks[1].unread);
    let mut indexes: Table<String, u8> = Table::new();
    let libraries = vec![LibraryLocation {
        id: "x".into(),
        name: "x".into(),
        root: "/x".into(),
    }];
    assert_eq!(
        shown_library(&indexes, &"/own".to_owned(), &libraries),
        ShownLibrary::Unreadable
    );
    indexes.insert("/x".into(), 0);
    assert_eq!(
        shown_library(&indexes, &"/own".to_owned(), &libraries),
        ShownLibrary::First
    );
    indexes.insert("/own".into(), 0);
    assert_eq!(
        shown_library(&indexes, &"/own".to_owned(), &libraries),
        ShownLibrary::Same
    );
}

fn job(active: Option<&str>, kind: Kind) -> JobState {
    JobState {
        running: true,
        cancelling: true,
        kind,
        active_task: active.map(str::to_owned),
        task_error: None,
        task_status: String::new(),
        message: None,
        logs: Vec::new(),
        pending_done: None,
    }
}

#[test]
fn events_change_the_job() {
    let mut state = job(Some("t"), Kind::Convert);
    let step = state.apply(Event::Stage {
        stage: "asr".into(),
        status: "start".into(),
    });
    assert!(step.save && step.immediate && step.flush == Some(true));
    assert!(matches!(&step.actions[..], [JobAction::BeginStage(stage)] if stage == "asr"));
    let step = state.apply(Event::Progress {
        stage: "asr".into(),
        current: 3,
        total: 9,
        message: None,
    });
    assert!(step.save && !step.immediate && step.flush.is_none());
    assert!(matches!(
        &step.actions[..],
        [JobAction::Advance { stage, current: 3, total: 9, message: None }] if stage == "asr"
    ));
    let step = state.apply(Event::Workers {
        stage: "asr".into(),
        workers: 2,
    });
    assert!(matches!(
        &step.actions[..],
        [JobAction::SetWorkers { stage, workers: 2 }] if stage == "asr"
    ));
    let step = state.apply(Event::Done(Completed {
        out_dir: "/out".into(),
        title: "课".into(),
        slides: 1,
        segments: 2,
        partial: None,
        outcomes: None,
    }));
    assert!(step.immediate && step.flush.is_none());
    assert_eq!(state.pending_done.as_ref().unwrap().out_dir, "/out");
    state.apply(Event::Error {
        message: "坏".into(),
    });
    assert_eq!(state.task_error.as_deref(), Some("坏"));
    assert_eq!(state.logs, ["坏"]);
    let step = state.apply(Event::Exit {
        success: false,
        cancelled: true,
    });
    assert!(matches!(
        &step.actions[..],
        [
            JobAction::FinishTask { id, success: false, cancelled: true },
            JobAction::RefreshModels,
        ] if id == "t"
    ));
    assert!(!state.running && !state.cancelling && state.active_task.is_none());
}

#[test]
fn a_check_that_ended_well_looks_at_the_computer_again() {
    let mut state = job(None, Kind::Doctor);
    let step = state.apply(Event::Exit {
        success: true,
        cancelled: false,
    });
    assert!(matches!(&step.actions[..], [JobAction::RefreshEnvironment]));
    assert_eq!(state.message.as_deref(), Some("已完成"));
    let mut models = job(None, Kind::Models);
    let step = models.apply(Event::Exit {
        success: false,
        cancelled: false,
    });
    assert!(matches!(
        &step.actions[..],
        [
            JobAction::FinishModels { success: false, cancelled: false },
            JobAction::RefreshModels,
        ]
    ));
    assert_eq!(models.message, None);
    assert_eq!(models.task_status, "未完成");
    assert_eq!(models.start(Kind::Convert), StartStep::OpenWorkbench);
    assert_eq!(models.start(Kind::Doctor), StartStep::Run);
    models.started(Kind::Doctor);
    assert_eq!(models.task_status, "正在检查运行环境");
    assert_eq!(models.start(Kind::Models), StartStep::Busy);
    assert_eq!(
        models.message.as_deref(),
        Some("当前任务正在处理，结束后可以进行这项操作。")
    );
    assert!(matches!(
        &models.start_failed(Kind::Models, "坏".into())[..],
        [
            JobAction::FinishModels { success: false, cancelled: false },
            JobAction::RefreshModels,
        ]
    ));
    assert!(models.start_failed(Kind::Doctor, "更坏".into()).is_empty());
    assert_eq!(models.message.as_deref(), Some("更坏"));
    assert_eq!(models.task_error.as_deref(), Some("更坏"));
}

#[test]
fn a_round_of_events_is_summed_up() {
    let mut state = job(Some("t"), Kind::Convert);
    let round = state.poll(vec![
        Event::Error {
            message: "坏".into(),
        },
        Event::Log {
            message: "x".into(),
        },
        Event::Exit {
            success: false,
            cancelled: false,
        },
        Event::Stage {
            stage: "s".into(),
            status: "start".into(),
        },
    ]);
    // The stage after the end is not recorded, and has the last word on flushing.
    assert!(round.save && round.immediate && !round.flush);
    assert!(matches!(
        &round.actions[..],
        [
            JobAction::FinishTask { id, .. },
            JobAction::RefreshModels,
            JobAction::BeginStage(stage),
        ] if id == "t" && stage == "s"
    ));
    assert!(state.active_task.is_none());
    let quiet = JobState::new().poll(Vec::new());
    assert!(!quiet.save && !quiet.immediate && !quiet.flush && quiet.actions.is_empty());
    let mut recording = job(Some("t"), Kind::Convert);
    let round = recording.poll(vec![Event::Blocked {
        reason: "uncertain".into(),
        request_id: None,
        purpose: None,
        description: None,
        message: "等".into(),
    }]);
    assert!(round.save && round.flush);
    assert_eq!(recording.task_error.as_deref(), Some("等"));
    assert!(recording.logs.is_empty());
}

#[test]
fn notices_leave_after_a_while() {
    let mut message = Some("笔记已打开".to_owned());
    assert!(!expire_opened_notice(&mut message, Some(4)));
    assert!(message.is_some());
    assert!(expire_opened_notice(&mut message, Some(5)));
    assert!(message.is_none());
    let mut newer = Some("别的".to_owned());
    assert!(expire_opened_notice(&mut newer, Some(9)));
    assert_eq!(newer.as_deref(), Some("别的"));
    assert!(!transient_result_over(None) && transient_result_over(Some(8)));
    assert_eq!((poll_delay(true), poll_delay(false)), (100, 500));
}

#[test]
fn an_input_that_changes_ends_the_opening_of_a_result() {
    let mut state = ReaderState::new();
    state.reading = true;
    state.following = Some(ConversionFollow::Preparing(1));
    let mut started = ReaderState::new();
    started.reading = true;
    started.following = Some(ConversionFollow::Preparing(1));
    state.input_changed();
    assert!(!state.reading && state.read_generation == 1 && state.following.is_none());
    started.stay_on_workbench();
    assert!(!started.reading && started.following.is_some());
    started.stay_on_workbench();
    assert_eq!(started.read_generation, 1);
}

#[test]
fn only_the_latest_lines_are_kept() {
    let mut state = job(None, Kind::Models);
    for index in 0..403 {
        state.apply(Event::Log {
            message: index.to_string(),
        });
    }
    assert_eq!(state.logs.len(), 400);
    assert_eq!(state.logs[0], "3");
    assert_eq!(state.logs[399], "402");
}

#[test]
fn the_window_is_drawn_when_it_is_due() {
    assert_eq!(repaint(true, false, true, false, false, 249), Repaint::Later);
    assert_eq!(repaint(true, false, true, false, false, 250), Repaint::Now);
    assert_eq!(repaint(false, true, false, false, false, 0), Repaint::Now);
    assert_eq!(repaint(false, false, true, false, false, 999), Repaint::Keep);
    assert_eq!(repaint(false, false, true, false, true, 250), Repaint::Now);
    assert_eq!(repaint(false, false, false, false, false, 9999), Repaint::Keep);
    assert_eq!(close_step(false, true, 3, true), CloseStep::Continue);
    assert_eq!(close_step(true, false, 0, false), CloseStep::Quit);
    assert_eq!(close_step(true, false, 1, false), CloseStep::Wait);
    assert_eq!(close_step(true, true, 0, true), CloseStep::CancelAndQuit);
}
