//! Tasks of an input, and the conversions that a person follows.
use course2md_desktop::follow::ConversionFollow;
use course2md_desktop::input_task::{
    completed_input_task, retired_input_task, submitted_input_task,
};
use course2md_desktop::workspace::{
    BlockedRequest, ConversionOptions, Draft, Operation, Page, Source, SubtitleEvidence, TaskPlan,
    TaskRecord, TaskState,
};

fn source() -> Source {
    Source {
        input: "https://www.bilibili.com/video/BVfixture".into(),
        identity: "video-fixture".into(),
        title: String::new(),
        author: String::new(),
        online: true,
        subtitles: SubtitleEvidence::Unchecked,
        selected_subtitle: None,
        subtitle_request: None,
        subtitle_read_error: None,
    }
}

fn draft(source: &Source) -> Draft {
    Draft {
        id: "draft".into(),
        revision: 1,
        online: true,
        input: source.input.clone(),
        source: Some(source.clone()),
        title: String::new(),
        custom_title: false,
        options: ConversionOptions::default(),
        library_id: "library".into(),
        folder: None,
        subtitle: None,
        asr_service: None,
        ai_service: None,
        submitted_task: Some("original".into()),
    }
}

fn submitted_recovery_chain() -> (Draft, Vec<TaskRecord>) {
    let source = source();
    let draft = draft(&source);
    let mut original = TaskRecord {
        id: "original".into(),
        plan: TaskPlan {
            operation: Operation::Convert,
            source_id: source.identity.clone(),
            source,
            title: "已提交的课程".into(),
            library_id: "library".into(),
            folder: None,
            options: ConversionOptions::default(),
            subtitle: None,
            asr_service: None,
            ai_service: None,
        },
        state: TaskState::Uncertain,
        updated: 0,
        parent: None,
        handled_by: None,
        error: Some("原摘要请求结果未确认".into()),
        artifact: Some("versions/original".into()),
        unread: false,
        blocked: Vec::new(),
    };
    let mut recovery = original.clone();
    recovery.id = "recovery".into();
    recovery.parent = Some(original.id.clone());
    recovery.state = TaskState::Queued;
    recovery.error = None;
    recovery.artifact = None;
    recovery.plan.operation = Operation::Reprocess {
        base_version_dir: "versions/original".into(),
        components: vec!["summary".into()],
        prior_work_dir: Some("work/original".into()),
    };
    original.handled_by = Some(recovery.id.clone());
    (draft, vec![original, recovery])
}

#[test]
fn explicit_new_version_follows_new_task_instead_of_previous_result() {
    let (mut draft, mut tasks) = submitted_recovery_chain();
    tasks[0].state = TaskState::Complete;
    tasks[0].artifact = Some("versions/previous".into());
    tasks[0].handled_by = None;
    tasks[0].error = None;
    tasks[1].id = "new-version".into();
    tasks[1].parent = None;
    tasks[1].plan.operation = Operation::Convert;
    draft.submitted_task = Some(tasks[1].id.clone());
    let following = ConversionFollow::Preparing(7)
        .submitted(7, tasks[1].id.clone())
        .unwrap();
    // The old version remains readable but is not the explicit new intent.
    assert!(following
        .completed_task(true, 7, &draft, &tasks, &draft.input)
        .is_none());
    tasks[1].state = TaskState::Complete;
    tasks[1].artifact = Some("versions/new-version".into());
    assert_eq!(
        following
            .completed_task(true, 7, &draft, &tasks, &draft.input)
            .unwrap()
            .id,
        "new-version",
    );
}

#[test]
fn completion_opens_only_the_result_still_followed_in_the_current_input() {
    let (draft, mut tasks) = submitted_recovery_chain();
    let followed = ConversionFollow::Preparing(7)
        .submitted(7, "recovery".into())
        .unwrap();
    assert!(ConversionFollow::Preparing(7)
        .submitted(8, "recovery".into())
        .is_none());
    assert!(followed
        .completed_task(true, 7, &draft, &tasks, &draft.input)
        .is_none());
    tasks[1].state = TaskState::Complete;
    assert!(followed
        .completed_task(true, 7, &draft, &tasks, &draft.input)
        .is_none());
    tasks[1].artifact = Some("versions/recovery".into());
    assert_eq!(
        followed
            .completed_task(true, 7, &draft, &tasks, &draft.input)
            .unwrap()
            .id,
        "recovery"
    );
    assert!(followed
        .completed_task(false, 7, &draft, &tasks, &draft.input)
        .is_none());
    assert!(followed
        .completed_task(true, 8, &draft, &tasks, &draft.input)
        .is_none());
    assert!(followed
        .completed_task(true, 7, &draft, &tasks, "new video")
        .is_none());
    let other = ConversionFollow::Task {
        id: "original".into(),
        source_revision: 7,
    };
    assert!(other
        .completed_task(true, 7, &draft, &tasks, &draft.input)
        .is_none());
    tasks[1].state = TaskState::Partial;
    assert!(followed
        .completed_task(true, 7, &draft, &tasks, &draft.input)
        .is_some());
}

#[test]
fn reader_repair_opens_the_new_version_only_while_the_original_note_is_still_open() {
    let (_, mut tasks) = submitted_recovery_chain();
    let original = "versions/original";
    let follow = ConversionFollow::reader_reprocess(&tasks[1], original, 12).unwrap();
    // Submitting a recovery is not enough: it must publish a readable result.
    assert!(!follow.completed_reader_task(&tasks[1], Page::Result, 12, Some(original)));
    tasks[1].artifact = Some("versions/recovery".into());
    for state in [TaskState::Complete, TaskState::Partial] {
        tasks[1].state = state;
        assert!(follow.completed_reader_task(&tasks[1], Page::Result, 12, Some(original)));
    }
    for page in [Page::New, Page::Library, Page::Task, Page::Settings] {
        assert!(!follow.completed_reader_task(&tasks[1], page, 12, Some(original)));
    }
    // Leaving and returning to the same note has a new read generation.
    assert!(!follow.completed_reader_task(&tasks[1], Page::Result, 13, Some(original)));
    assert!(!follow.completed_reader_task(
        &tasks[1],
        Page::Result,
        12,
        Some("versions/another-note"),
    ));
    assert!(!follow.completed_reader_task(&tasks[1], Page::Result, 12, None));
    let mut unrelated = tasks[1].clone();
    unrelated.id = "another-repair".into();
    assert!(!follow.completed_reader_task(&unrelated, Page::Result, 12, Some(original)));
    for state in [TaskState::Running, TaskState::Paused, TaskState::Uncertain] {
        tasks[1].state = state;
        assert!(!follow.completed_reader_task(&tasks[1], Page::Result, 12, Some(original)));
    }
}

#[test]
fn reader_repair_guard_excludes_exports_and_rechecks_the_note_when_loading_finishes() {
    let (_, mut tasks) = submitted_recovery_chain();
    let original = "versions/original";
    let follow = ConversionFollow::reader_reprocess(&tasks[1], original, 12).unwrap();
    assert!(follow.context_is_current(Page::Result, 99, 12, Some(original)));
    assert!(!follow.context_is_current(Page::Result, 99, 13, Some(original)));
    assert!(!follow.context_is_current(Page::Library, 99, 12, Some(original)));
    assert!(!follow.context_is_current(Page::Result, 99, 12, Some("versions/other")));

    if let Operation::Reprocess { components, .. } = &mut tasks[1].plan.operation {
        *components = vec!["exports".into()];
    } else {
        unreachable!();
    }
    tasks[1].state = TaskState::Complete;
    tasks[1].artifact = Some(original.to_owned());
    assert!(ConversionFollow::reader_reprocess(&tasks[1], original, 12).is_none());
    assert!(!follow.completed_reader_task(&tasks[1], Page::Result, 12, Some(original)));
    // Even a spurious new artifact cannot turn an export-only task into navigation.
    tasks[1].artifact = Some("versions/recovery".into());
    assert!(!follow.completed_reader_task(&tasks[1], Page::Result, 12, Some(original)));
    tasks[1].plan.operation = Operation::Convert;
    assert!(ConversionFollow::reader_reprocess(&tasks[1], original, 12).is_none());
}

#[test]
fn opening_a_reader_viewer_ends_repair_following_even_if_it_closes_before_the_read_finishes() {
    let (_, mut tasks) = submitted_recovery_chain();
    let original = "versions/original";
    let captured = ConversionFollow::reader_reprocess(&tasks[1], original, 12).unwrap();
    tasks[1].state = TaskState::Complete;
    tasks[1].artifact = Some("versions/recovery".into());
    for read_started in [false, true] {
        let mut active = Some(captured.clone());
        if read_started {
            assert!(active.as_ref().unwrap().completed_reader_task(
                &tasks[1],
                Page::Result,
                12,
                Some(original),
            ));
        }
        ConversionFollow::interrupt_for_reader_viewer(&mut active);
        assert!(active.is_none());
        // Closing the viewer only restores its underlying note. The old
        // asynchronous callback still has a ticket, but no longer owns intent.
        assert_ne!(active.as_ref(), Some(&captured));
        assert!(!active
            .as_ref()
            .is_some_and(|follow| follow.completed_reader_task(
                &tasks[1],
                Page::Result,
                12,
                Some(original),
            )));
    }
    // A viewer must not cancel a distinct workbench conversion.
    let mut input = Some(ConversionFollow::Task {
        id: "conversion".into(),
        source_revision: 7,
    });
    let expected = input.clone();
    ConversionFollow::interrupt_for_reader_viewer(&mut input);
    assert_eq!(input, expected);
}

#[test]
fn completion_belongs_to_the_submitted_input_and_requires_a_readable_result() {
    let source = source();
    let plan = TaskPlan {
        operation: Operation::Convert,
        source: source.clone(),
        source_id: source.identity.clone(),
        title: "已提交的标题".into(),
        library_id: "library".into(),
        folder: None,
        options: ConversionOptions::default(),
        subtitle: None,
        asr_service: None,
        ai_service: None,
    };
    let id = "task-1".to_owned();
    let mut tasks = vec![TaskRecord {
        id: id.clone(),
        plan: plan.clone(),
        state: TaskState::Queued,
        updated: 0,
        parent: None,
        handled_by: None,
        error: None,
        artifact: None,
        unread: false,
        blocked: Vec::new(),
    }];
    let mut draft = draft(&source);
    draft.source = None;
    draft.submitted_task = Some(id.clone());
    assert!(completed_input_task(&draft, &tasks, &source.input).is_none());
    tasks[0].state = TaskState::Complete;
    assert!(completed_input_task(&draft, &tasks, &source.input).is_none());
    tasks[0].artifact = Some("published-version".into());
    assert_eq!(
        completed_input_task(&draft, &tasks, &source.input)
            .unwrap()
            .id,
        id,
    );
    // The text can change before its observer replaces the submitted draft.
    // That next input must remain visible even during this intermediate state.
    for next in ["", "https://www.bilibili.com/video/BVnext"] {
        assert!(completed_input_task(&draft, &tasks, next).is_none());
    }
    tasks[0].state = TaskState::Partial;
    assert!(completed_input_task(&draft, &tasks, &source.input).is_some());
    tasks[0].state = TaskState::Complete;
    draft.input = "https://www.bilibili.com/video/BVnext".into();
    draft.submitted_task = None;
    assert!(completed_input_task(&draft, &tasks, &source.input).is_none());
    assert!(tasks[0].plan == plan);
}

#[test]
fn workbench_entry_retires_only_unchanged_terminal_inputs() {
    let (mut draft, mut tasks) = submitted_recovery_chain();
    draft.title = tasks[0].plan.title.clone();
    for state in [
        TaskState::Complete,
        TaskState::Partial,
        TaskState::Cancelled,
    ] {
        tasks[1].state = state;
        tasks[1].artifact = Some("versions/recovery".into());
        assert_eq!(
            retired_input_task(&draft, &tasks, &draft.input).unwrap().id,
            "recovery"
        );
    }
    for state in [
        TaskState::Queued,
        TaskState::Running,
        TaskState::Pausing,
        TaskState::Paused,
        TaskState::NeedsAttention,
        TaskState::Uncertain,
    ] {
        tasks[1].state = state;
        assert!(retired_input_task(&draft, &tasks, &draft.input).is_none());
    }
    tasks[1].state = TaskState::Partial;
    let unchanged = draft.clone();
    draft.title = "尚未提交的新名称".into();
    assert!(retired_input_task(&draft, &tasks, &draft.input).is_none());
    draft = unchanged.clone();
    draft.options.vision = !draft.options.vision;
    assert!(retired_input_task(&draft, &tasks, &draft.input).is_none());
    draft = unchanged.clone();
    draft.folder = Some(42);
    assert!(retired_input_task(&draft, &tasks, &draft.input).is_none());
    draft = unchanged;
    assert!(retired_input_task(&draft, &tasks, "新视频").is_none());
    tasks[1].blocked.push(BlockedRequest {
        reason: "uncertain".into(),
        request_id: Some("pending-summary".into()),
        purpose: Some("summary".into()),
        description: "摘要".into(),
        message: "结果未知".into(),
    });
    assert!(retired_input_task(&draft, &tasks, &draft.input).is_none());
    tasks[1].blocked.clear();
    tasks[1].artifact = None;
    assert!(retired_input_task(&draft, &tasks, &draft.input).is_none());
}

#[test]
fn workbench_follows_the_same_recovery_for_queued_running_and_completed_results() {
    let (draft, mut tasks) = submitted_recovery_chain();
    let original = tasks[0].clone();
    for state in [TaskState::Queued, TaskState::Running] {
        tasks[1].state = state;
        assert_eq!(
            submitted_input_task(&draft, &tasks, &draft.input)
                .unwrap()
                .id,
            "recovery"
        );
        assert!(completed_input_task(&draft, &tasks, &draft.input).is_none());
    }
    tasks[1].state = TaskState::Complete;
    assert!(completed_input_task(&draft, &tasks, &draft.input).is_none());
    tasks[1].artifact = Some("versions/recovery".into());
    assert_eq!(
        completed_input_task(&draft, &tasks, &draft.input)
            .unwrap()
            .id,
        "recovery"
    );

    let mut final_attempt = tasks[1].clone();
    final_attempt.id = "final-attempt".into();
    final_attempt.parent = Some("recovery".into());
    final_attempt.state = TaskState::Running;
    final_attempt.artifact = None;
    tasks[1].state = TaskState::Uncertain;
    tasks[1].handled_by = Some(final_attempt.id.clone());
    tasks.push(final_attempt);
    assert_eq!(
        submitted_input_task(&draft, &tasks, &draft.input)
            .unwrap()
            .id,
        "final-attempt"
    );
    assert!(completed_input_task(&draft, &tasks, &draft.input).is_none());
    tasks[2].state = TaskState::Complete;
    tasks[2].artifact = Some("versions/final-attempt".into());
    assert_eq!(
        completed_input_task(&draft, &tasks, &draft.input)
            .unwrap()
            .id,
        "final-attempt"
    );
    // A cancelled recovery still belongs to this input for inline feedback,
    // but must not fall back to an older readable result or follow new input.
    tasks[2].state = TaskState::Cancelled;
    tasks[2].artifact = None;
    assert_eq!(
        submitted_input_task(&draft, &tasks, &draft.input)
            .unwrap()
            .id,
        "final-attempt"
    );
    assert!(completed_input_task(&draft, &tasks, &draft.input).is_none());
    assert!(submitted_input_task(&draft, &tasks, "another-video").is_none());
    assert!(tasks[0] == original);
    assert_eq!(draft.submitted_task.as_deref(), Some("original"));
}

#[test]
fn recovery_lookup_rejects_broken_cycles_or_unrelated_task_links() {
    for case in [
        "missing",
        "self-cycle",
        "cycle",
        "wrong-parent",
        "other-source",
        "inconsistent-source",
        "other-kind",
        "duplicate-id",
        "unrelated-submission",
    ] {
        let (mut draft, mut tasks) = submitted_recovery_chain();
        match case {
            "missing" => tasks[0].handled_by = Some("missing".into()),
            "self-cycle" => {
                tasks[0].handled_by = Some("original".into());
                tasks[0].parent = Some("original".into());
            }
            "cycle" => {
                tasks[1].handled_by = Some("original".into());
                tasks[0].parent = Some("recovery".into());
            }
            "wrong-parent" => tasks[1].parent = Some("unrelated".into()),
            "other-source" => {
                tasks[1].plan.source_id = "other-video".into();
                tasks[1].plan.source.identity = "other-video".into();
            }
            "inconsistent-source" => tasks[1].plan.source.identity = "other-video".into(),
            "other-kind" => tasks[1].plan.source.online = false,
            "duplicate-id" => tasks.push(tasks[1].clone()),
            "unrelated-submission" => {
                tasks[1].plan.source_id = "other-video".into();
                tasks[1].plan.source.identity = "other-video".into();
                draft.submitted_task = Some("recovery".into());
            }
            _ => unreachable!(),
        }
        assert!(
            submitted_input_task(&draft, &tasks, &draft.input).is_none(),
            "{case}"
        );
        assert!(
            completed_input_task(&draft, &tasks, &draft.input).is_none(),
            "{case}"
        );
    }
}

#[test]
fn a_recovered_result_cannot_replace_new_or_changed_input() {
    let (mut draft, mut tasks) = submitted_recovery_chain();
    tasks[1].state = TaskState::Complete;
    tasks[1].artifact = Some("versions/recovery".into());
    for input in ["", "https://www.bilibili.com/video/BVnext"] {
        assert!(submitted_input_task(&draft, &tasks, input).is_none());
        assert!(completed_input_task(&draft, &tasks, input).is_none());
    }
    draft.source.as_mut().unwrap().identity = "newly-inspected-content".into();
    assert!(submitted_input_task(&draft, &tasks, &draft.input).is_none());
    draft.source = None;
    draft.input = "https://www.bilibili.com/video/BVnext".into();
    assert!(submitted_input_task(&draft, &tasks, &draft.input).is_none());
}

#[test]
fn a_blank_input_has_no_task_even_where_the_draft_is_blank_too() {
    let (mut draft, mut tasks) = submitted_recovery_chain();
    draft.input = " \t".into();
    draft.source = None;
    tasks[0].plan.source.input = " \t".into();
    assert!(submitted_input_task(&draft, &tasks, " \t").is_none());
}

#[test]
fn services_chosen_after_the_submission_keep_the_input_in_place() {
    let (mut draft, mut tasks) = submitted_recovery_chain();
    draft.title = tasks[0].plan.title.clone();
    tasks[1].state = TaskState::Complete;
    tasks[1].artifact = Some("versions/recovery".into());
    draft.ai_service = Some("service-2".into());
    assert!(retired_input_task(&draft, &tasks, &draft.input).is_none());
    tasks[0].plan.ai_service = Some("service-2".into());
    assert!(retired_input_task(&draft, &tasks, &draft.input).is_some());
    draft.ai_service = None;
    assert!(retired_input_task(&draft, &tasks, &draft.input).is_some());
    draft.subtitle = Some("subtitle".into());
    assert!(retired_input_task(&draft, &tasks, &draft.input).is_none());
}

#[test]
fn a_preparation_is_never_current() {
    let preparing = ConversionFollow::Preparing(3);
    assert!(!preparing.context_is_current(Page::New, 3, 3, None));
    assert!(!preparing.follows("task", 3));
    let task = ConversionFollow::Task {
        id: "task".into(),
        source_revision: 3,
    };
    assert!(task.context_is_current(Page::New, 3, 9, None));
    assert!(!task.context_is_current(Page::New, 4, 9, None));
    assert!(!task.context_is_current(Page::Result, 3, 9, None));
}

#[test]
fn other_records_do_not_change_the_task_of_an_input() {
    let (draft, tasks) = submitted_recovery_chain();
    let found = submitted_input_task(&draft, &tasks, &draft.input)
        .unwrap()
        .id
        .clone();
    let mut others = vec![tasks[1].clone(), tasks[0].clone()];
    others[0].state = TaskState::Partial;
    others[0].artifact = Some("elsewhere".into());
    others[1].error = None;
    let mut unrelated = tasks[0].clone();
    unrelated.id = "unrelated".into();
    unrelated.handled_by = Some("recovery".into());
    others.insert(1, unrelated.clone());
    others.push(unrelated);
    assert_eq!(
        submitted_input_task(&draft, &others, &draft.input)
            .unwrap()
            .id,
        found
    );
}
