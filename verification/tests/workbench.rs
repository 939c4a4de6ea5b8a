//! The workbench: reads of sources and subtitles, starts, and what stands in the way.
use course2md_desktop::conversion::{ConversionGate, ServicePurpose};
use course2md_desktop::environment::Environment;
use course2md_desktop::follow::ConversionFollow;
use course2md_desktop::notes::{Course, Manifest};
use course2md_desktop::workbench::{
    needs_next_import, note_title, DropStep, InspectStep, SourceCandidate, StartStep, Workbench,
};
use course2md_desktop::workbench_page::{
    can_start_input, destination_label, existing_source_note, export_summary, needs_model_check,
    service_label, task_panel, workbench_entry, PreferencesIssue, RecoveryChoice, RecoveryInput, TaskPanel, WorkbenchEntry,
};
use course2md_desktop::workspace::{
    CachedSubtitle, ConversionOptions, Draft, Operation, Page, Source, SubtitleEvidence,
    SubtitleOrigin, SubtitleReadError, SubtitleTrack, TaskPlan, TaskRecord, TaskState,
};

fn track(id: &str, origin: SubtitleOrigin) -> SubtitleTrack {
    SubtitleTrack {
        id: id.into(),
        label: id.into(),
        origin,
    }
}

fn cached(id: &str) -> CachedSubtitle {
    CachedSubtitle {
        source_identity: "video".into(),
        track_id: id.into(),
        label: id.into(),
        path: String::new(),
    }
}

fn source() -> Source {
    Source {
        input: "link".into(),
        identity: "video".into(),
        title: "标题".into(),
        author: String::new(),
        online: true,
        subtitles: SubtitleEvidence::Found {
            tracks: vec![
                track("a", SubtitleOrigin::Remote),
                track("b", SubtitleOrigin::Remote),
            ],
            warning: None,
        },
        selected_subtitle: None,
        subtitle_request: None,
        subtitle_read_error: None,
    }
}

fn workbench() -> Workbench {
    Workbench {
        online: true,
        last_source_input: String::new(),
        completed_source: None,
        source_preview: None,
        source_candidates: Vec::new(),
        source_collection_title: None,
        source_editor_open: false,
        source_validation: None,
        previewing: false,
        preview_generation: 7,
        preview_error: None,
        preview_workers: 0,
        show_preview_details: false,
        subtitle_loading: false,
        subtitle_reading: false,
        subtitle_generation: 3,
        subtitle_error: None,
        expanded_subtitle_issue: None,
        generation_options_open: false,
        pending_conversion: None,
        task_options: ConversionOptions::default(),
    }
}

#[test]
fn an_abandoned_source_takes_its_reads_along() {
    let mut bench = workbench();
    bench.source_preview = Some(source());
    let ticket = bench
        .confirm_subtitle(track("a", SubtitleOrigin::Remote), true)
        .unwrap();
    assert_eq!(bench.task_options.source_mode, 1);
    let cancelled = bench.invalidate_source();
    assert!(cancelled.subtitle && !cancelled.preview);
    assert_eq!(bench.preview_generation, 8);
    assert!(!bench.finish_subtitle(&ticket, true, Ok(cached("a"))));
    assert!(bench.source_preview.is_none());
    let mut last = workbench();
    last.preview_generation = u64::MAX;
    last.invalidate_source();
    assert_eq!(last.preview_generation, 0);
}

#[test]
fn inputs_are_checked_before_they_are_read() {
    let mut bench = workbench();
    let (step, _) = bench.inspect_source("", &Vec::new());
    assert!(matches!(step, InspectStep::Refused));
    assert_eq!(bench.source_validation.as_deref(), Some("先粘贴视频链接"));
    let links = vec!["l1".to_owned(), "l2".to_owned()];
    let (step, _) = bench.inspect_source("l1 l2", &links);
    assert!(matches!(step, InspectStep::Choose));
    assert_eq!(bench.source_candidates.len(), 2);
    assert_eq!(
        bench.source_collection_title.as_deref(),
        Some("分享内容中有多个链接，请选择一个视频")
    );
    let (step, _) = bench.inspect_source("看 l1", &vec!["l1".to_owned()]);
    assert!(matches!(&step, InspectStep::Check(target) if target == "l1"));
    assert!(!bench.accept_input("l1".into(), Some("链接无效".into())));
    assert_eq!(bench.source_validation.as_deref(), Some("链接无效"));
    assert!(bench.accept_input("l1".into(), None));
    let generation = bench.inspection_started();
    assert_eq!(bench.preview_workers, 1);
    let (step, cancelled) = bench.inspect_source("l1", &vec!["l1".to_owned()]);
    assert!(matches!(step, InspectStep::Ignored) && cancelled.is_none());
    assert!(bench.inspection_is_current(generation, "l1", "l1", true));
    assert!(!bench.inspection_is_current(generation, "l1", "l2", true));
    bench.worker_ended();
    bench.worker_ended();
    assert_eq!(bench.preview_workers, 0);
    bench.online = false;
    let (step, cancelled) = bench.inspect_source("", &Vec::new());
    assert!(matches!(step, InspectStep::Refused) && cancelled.unwrap().preview);
    assert_eq!(bench.source_validation.as_deref(), Some("先选择一个视频"));
}

#[test]
fn a_video_that_is_read_again_keeps_what_was_confirmed() {
    let mut bench = workbench();
    let mut previous = source();
    previous.selected_subtitle = Some(cached("b"));
    let next = bench.finish_single(source(), Some(previous.clone()));
    assert_eq!(next.unwrap().id, "b");
    let shown = bench.source_preview.clone().unwrap();
    assert_eq!(shown.selected_subtitle, Some(cached("b")));
    // A file that was attached before is found again among the earlier tracks.
    previous.subtitles = SubtitleEvidence::Found {
        tracks: vec![track("file", SubtitleOrigin::File)],
        warning: None,
    };
    previous.subtitle_request = Some(track("file", SubtitleOrigin::File));
    let next = bench.finish_single(source(), Some(previous.clone()));
    assert_eq!(next.unwrap().id, "file");
    previous.subtitle_request = Some(track("lost", SubtitleOrigin::Remote));
    assert!(bench.finish_single(source(), Some(previous.clone())).is_none());
    assert!(bench.subtitle_error.is_some());
    // Another video starts afresh.
    previous.identity = "other".into();
    let next = bench.finish_single(source(), Some(previous));
    assert_eq!(next.unwrap().id, "a");
    bench.task_options.source_mode = 2;
    assert!(bench.finish_single(source(), None).is_none());
}

#[test]
fn lists_leave_the_choice_to_the_person() {
    let mut bench = workbench();
    bench.finish_collection(String::new(), Vec::new(), 3);
    assert_eq!(
        bench.preview_error.as_deref(),
        Some("还无法确定要处理哪个视频。请复制具体视频的链接。")
    );
    assert_eq!(
        bench.source_collection_title.as_deref(),
        Some("请选择本次处理的视频")
    );
    let candidate = SourceCandidate {
        input: "l".into(),
        title: "t".into(),
        identity: None,
    };
    bench.finish_collection("合集".into(), vec![candidate], 12);
    assert_eq!(
        bench.preview_error.as_deref(),
        Some("另有 12 个条目暂时无法确认。可选择下列视频，或复制具体视频的链接。")
    );
    bench.finish_failed("失败".into());
    assert_eq!(bench.preview_error.as_deref(), Some("失败"));
}

#[test]
fn subtitles_are_read_confirmed_and_retried() {
    let mut bench = workbench();
    assert!(bench
        .confirm_subtitle(track("a", SubtitleOrigin::Remote), false)
        .is_none());
    bench.source_preview = Some(source());
    let ticket = bench
        .confirm_subtitle(track("a", SubtitleOrigin::Remote), false)
        .unwrap();
    assert!(bench.subtitle_attention_required());
    assert!(!bench.finish_subtitle(&ticket, false, Ok(cached("a"))));
    assert!(bench.finish_subtitle(
        &ticket,
        true,
        Err(SubtitleReadError::Failed {
            message: "坏".into()
        })
    ));
    assert_eq!(bench.subtitle_error.as_deref(), Some("坏"));
    assert!(bench.subtitle_attention_required());
    let ticket = bench
        .confirm_subtitle(track("a", SubtitleOrigin::Remote), false)
        .unwrap();
    assert!(bench.finish_subtitle(&ticket, true, Ok(cached("a"))));
    assert!(!bench.subtitle_attention_required());
    let retry = bench.retry_subtitles().unwrap();
    let (counted, next) = bench.finish_retry(
        &retry,
        true,
        SubtitleEvidence::Found {
            tracks: vec![track("b", SubtitleOrigin::Remote)],
            warning: None,
        },
    );
    assert!(counted && next.is_none());
    assert_eq!(
        bench.subtitle_error.as_deref(),
        Some("原来选择的字幕已无法重新读取。已确认的正文仍保留；可以继续使用它，或明确选择其他文字来源。")
    );
    assert!(bench.use_confirmed_subtitle());
    assert_eq!(bench.task_options.source_mode, 1);
    assert!(!bench.subtitle_attention_required());
    let retry = bench.retry_subtitles().unwrap();
    assert!(bench.fail_retry(&retry, true, "网络".into()));
    assert_eq!(bench.subtitle_error.as_deref(), Some("网络"));
    assert!(!bench.use_speech());
    assert_eq!(bench.task_options.source_mode, 2);
    let retry = bench.retry_subtitles().unwrap();
    bench.pending_conversion = Some(7);
    assert!(bench.cancel_subtitle_read());
    assert_eq!(bench.pending_conversion, None);
    assert!(!bench.fail_retry(&retry, true, "晚".into()));
    bench.subtitle_not_started();
    assert!(!bench.subtitle_loading);
}

#[test]
fn attached_files_join_the_tracks_once() {
    let mut bench = workbench();
    let file = track("file", SubtitleOrigin::File);
    bench.attach_track(&file);
    bench.source_preview = Some(Source {
        subtitles: SubtitleEvidence::NoneFound,
        ..source()
    });
    bench.attach_track(&file);
    bench.attach_track(&file);
    assert_eq!(
        bench.source_preview.unwrap().subtitles,
        SubtitleEvidence::Found {
            tracks: vec![file],
            warning: None
        }
    );
}

#[test]
fn a_start_goes_through_the_gate() {
    let mut bench = workbench();
    assert_eq!(bench.start_conversion("").step, StartStep::Refused);
    assert_eq!(bench.start_conversion("link").step, StartStep::Inspect);
    bench.source_preview = Some(source());
    let start = bench.start_conversion("link");
    assert_eq!(start.step, StartStep::Go);
    assert!(start.cancelled.is_none());
    assert_eq!(bench.advance_conversion(true, true, false), None);
    assert_eq!(
        bench.arm(Page::New),
        Some(ConversionFollow::Preparing(8))
    );
    assert_eq!(bench.arm(Page::Library), None);
    assert_eq!(
        bench.advance_conversion(true, true, false),
        Some(ConversionGate::Wait)
    );
    bench.subtitle_error = Some("需要登录".into());
    assert!(bench.fall_back_if_due());
    assert!(!bench.fall_back_if_due() || bench.subtitle_error.is_none());
    assert_eq!(
        bench.advance_conversion(true, true, false),
        Some(ConversionGate::Submit)
    );
    assert_eq!(
        bench.advance_conversion(true, true, true),
        Some(ConversionGate::Stop)
    );
    assert_eq!(bench.pending_conversion, None);
    bench.arm(Page::New);
    bench.abandon_start();
    assert_eq!(bench.pending_conversion, None);
}

#[test]
fn a_start_never_goes_on_with_another_video() {
    let mut bench = workbench();
    bench.last_source_input = "old".into();
    bench.source_preview = Some(source());
    bench.previewing = true;
    bench.pending_conversion = Some(7);
    let start = bench.start_conversion("new");
    assert_eq!(start.step, StartStep::Inspect);
    assert!(start.cancelled.unwrap().preview);
    assert!(bench.source_preview.is_none() && bench.pending_conversion.is_none());
    assert_eq!(bench.last_source_input, "new");
    assert_eq!(bench.preview_generation, 8);
    bench.source_preview = Some(source());
    let start = bench.start_conversion("");
    assert_eq!(start.step, StartStep::Refused);
    assert!(start.cancelled.is_some() && bench.source_preview.is_none());
    assert_eq!(bench.source_validation.as_deref(), Some("先粘贴视频链接"));
}

#[test]
fn dropped_files_are_entered_or_chosen_among() {
    let file = |input: &str| SourceCandidate {
        input: input.into(),
        title: input.into(),
        identity: None,
    };
    let mut bench = workbench();
    assert!(matches!(
        bench.drop_source_files(Vec::new()),
        DropStep::Nothing
    ));
    assert!(matches!(
        bench.drop_source_files(vec![file("a.mp4")]),
        DropStep::Enter(input) if input == "a.mp4"
    ));
    assert!(!bench.online);
    bench.online = true;
    bench.previewing = true;
    assert!(matches!(
        bench.drop_source_files(vec![file("a.mp4"), file("b.mp4")]),
        DropStep::Choose(cancelled) if cancelled.preview
    ));
    assert!(!bench.online);
    assert_eq!(bench.source_candidates.len(), 2);
    assert_eq!(
        bench.source_collection_title.as_deref(),
        Some("拖入了多个文件，请选择本次处理的视频")
    );
}

fn draft() -> Draft {
    Draft {
        id: "d".into(),
        revision: 0,
        online: true,
        input: "link".into(),
        source: None,
        title: "自己的".into(),
        custom_title: true,
        options: ConversionOptions::default(),
        library_id: "lib".into(),
        folder: Some(3),
        subtitle: None,
        asr_service: None,
        ai_service: None,
        submitted_task: Some("t".into()),
    }
}

fn task(state: TaskState) -> TaskRecord {
    TaskRecord {
        id: "t".into(),
        plan: TaskPlan {
            operation: Operation::Convert,
            source: source(),
            source_id: "video".into(),
            title: "自己的".into(),
            library_id: "lib".into(),
            folder: Some(3),
            options: ConversionOptions::default(),
            subtitle: None,
            asr_service: None,
            ai_service: None,
        },
        state,
        updated: 0,
        parent: None,
        handled_by: None,
        error: None,
        artifact: Some("v".into()),
        unread: false,
        blocked: Vec::new(),
    }
}

#[test]
fn a_note_is_named_by_the_person_first() {
    let mut own = draft();
    assert_eq!(note_title(Some(&own), &source()), "自己的");
    own.custom_title = false;
    assert_eq!(note_title(Some(&own), &source()), "标题");
    assert_eq!(note_title(None, &source()), "标题");
    assert!(needs_next_import(Some(&own), "other"));
    assert!(!needs_next_import(Some(&own), "link"));
    own.submitted_task = None;
    assert!(!needs_next_import(Some(&own), "other"));
}

#[test]
fn an_input_that_is_history_makes_way() {
    let tasks = [task(TaskState::Complete)];
    assert!(matches!(
        workbench_entry(false, false, Some(&draft()), &tasks, "link", "lib"),
        WorkbenchEntry::Reset(Some(3))
    ));
    assert!(matches!(
        workbench_entry(false, false, Some(&draft()), &tasks, "link", "other"),
        WorkbenchEntry::Reset(None)
    ));
    assert!(matches!(
        workbench_entry(true, false, Some(&draft()), &tasks, "link", "lib"),
        WorkbenchEntry::Keep
    ));
    let running = [task(TaskState::Running)];
    assert!(matches!(
        workbench_entry(false, false, Some(&draft()), &running, "link", "lib"),
        WorkbenchEntry::Keep
    ));
}

fn note(dir: &str, source_id: &str) -> Course {
    Course {
        dir: dir.into(),
        storage: dir.into(),
        title: dir.into(),
        modified: 0,
        manifest: Some(Manifest {
            course_id: "c".into(),
            version_id: "v".into(),
            task_id: "t".into(),
            source_id: source_id.into(),
            created_at_ms: 0,
        }),
    }
}

#[test]
fn an_existing_note_is_found_in_its_library_first() {
    let courses = vec![
        note("/x/a", "other"),
        note("/x/b", "video"),
        note("/own/c", "video"),
        note("/own/d", "video"),
    ];
    let within = vec![false, false, true, true];
    let own = source();
    assert_eq!(existing_source_note(&courses, &within, Some(&own)), Some(2));
    let outside = vec![false; 4];
    assert_eq!(existing_source_note(&courses, &outside, Some(&own)), Some(1));
    assert_eq!(existing_source_note(&courses, &within, None), None);
    let mut unknown = source();
    unknown.identity = "none".into();
    assert_eq!(existing_source_note(&courses, &within, Some(&unknown)), None);
}

#[test]
fn a_start_is_offered_once_the_last_task_is_done() {
    let following = Some(ConversionFollow::Task {
        id: "t".into(),
        source_revision: 7,
    });
    let complete = task(TaskState::Complete);
    assert!(can_start_input(true, "", false, false, None, false, &None, 7));
    assert!(!can_start_input(false, "", false, false, None, false, &None, 7));
    assert!(!can_start_input(true, "x", true, false, None, false, &None, 7));
    assert!(!can_start_input(true, "x", false, true, None, false, &None, 7));
    assert!(can_start_input(true, "x", false, false, Some(&complete), false, &following, 7));
    assert!(!can_start_input(true, "x", false, false, Some(&complete), true, &following, 7));
    let running = task(TaskState::Running);
    assert!(!can_start_input(true, "x", false, false, Some(&running), false, &None, 7));
    assert_eq!(task_panel(&running, false, 0), Some(TaskPanel::Running));
    assert_eq!(task_panel(&complete, true, 0), Some(TaskPanel::OpeningResult));
    assert_eq!(task_panel(&complete, false, 0), None);
    let partial = task(TaskState::Partial);
    assert_eq!(task_panel(&partial, false, 1), Some(TaskPanel::Attention));
    assert_eq!(task_panel(&partial, false, 0), None);
    assert_eq!(
        task_panel(&task(TaskState::Paused), false, 0),
        Some(TaskPanel::Attention)
    );
}

#[test]
fn files_and_models_follow_the_options() {
    let mut options = ConversionOptions::default();
    assert_eq!(export_summary(&options), None);
    options.formats = [true, false, true];
    assert_eq!(
        export_summary(&options).as_deref(),
        Some("Markdown 包 · JSON 数据")
    );
    assert!(needs_model_check(&options, false, true, false));
    assert!(needs_model_check(&options, false, false, true));
    options.provider = 5;
    assert!(!needs_model_check(&options, false, true, true));
    assert_eq!(destination_label(None), "选择保存位置");
}

fn recovery() -> RecoveryInput {
    RecoveryInput {
        environment: None,
        online: true,
        pending: true,
        reading: false,
        job: false,
        validation: true,
        has_workspace: true,
        has_source: true,
        needs_attention: false,
        preferences_issue: None,
        submission_issue: Some("正在检查生成笔记需要的组件，请稍候".into()),
        needs_reassociation: false,
        storage_busy: false,
        matching_task: None,
        matching_library: None,
        existing_note: false,
        existing_library: None,
        missing_service: None,
    }
}

#[test]
fn what_stands_in_the_way_is_told_in_order() {
    let tasks = vec![task(TaskState::Queued)];
    let plan = recovery().conversion_recovery(&tasks);
    assert!(plan.checking_components && plan.retry && plan.cancel && !plan.repair_components);
    assert!(matches!(plan.choice, RecoveryChoice::Nothing));
    let plan = RecoveryInput {
        missing_service: Some(ServicePurpose::Ai),
        environment: Some(Environment {
            engine: true,
            ffmpeg: true,
            ffprobe: true,
            ytdlp: false,
            llama: false,
            apple: false,
            gpu: None,
            npu: false,
            npu_device: false,
            npu_runtime: false,
        }),
        ..recovery()
    }
    .conversion_recovery(&tasks);
    assert!(plan.repair_components && !plan.retry);
    assert!(matches!(
        plan.choice,
        RecoveryChoice::MissingService(ServicePurpose::Ai)
    ));
    assert_eq!(service_label(ServicePurpose::Ai), "设置 AI 服务");
    let plan = RecoveryInput {
        existing_note: true,
        missing_service: Some(ServicePurpose::Ai),
        ..recovery()
    }
    .conversion_recovery(&tasks);
    assert!(matches!(
        &plan.choice,
        RecoveryChoice::ExistingNote { notice, can_renew: true, queued: true }
            if notice == "这个视频已有笔记，保存在「课程库」。生成新版会保留原笔记。"
    ));
    let plan = RecoveryInput {
        existing_note: true,
        preferences_issue: Some(PreferencesIssue {
            message: "选项无法读取".into(),
            can_retry: false,
        }),
        needs_reassociation: true,
        storage_busy: true,
        ..recovery()
    }
    .conversion_recovery(&tasks);
    assert_eq!(plan.message.as_deref(), Some("选项无法读取"));
    assert_eq!(plan.repair_preferences, Some("保留原文件并重置生成选项"));
    assert!(plan.reassociate.unwrap().disabled && !plan.checking_components);
    assert!(matches!(
        plan.choice,
        RecoveryChoice::ExistingNote { can_renew: false, .. }
    ));
    let plan = RecoveryInput {
        needs_attention: true,
        ..recovery()
    }
    .conversion_recovery(&tasks);
    assert_eq!(plan.message, None);
    let plan = RecoveryInput {
        matching_task: Some(0),
        matching_library: Some("甲".into()),
        existing_note: true,
        ..recovery()
    }
    .conversion_recovery(&tasks);
    assert!(matches!(
        &plan.choice,
        RecoveryChoice::MatchingTask { task: 0, notice }
            if notice == "已有相同处理任务：《自己的》（甲）"
    ));
}
