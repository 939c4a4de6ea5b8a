//! The engine's process.
use course2md_desktop::jobs::{Event, JobState};
use course2md_desktop::process::{
    decoded, probe, resolve_cli, supervise, Candidate, LineStep, ProbeStep, ProcessState,
    Supervision,
};
use course2md_desktop::redaction::Redactions;

#[test]
fn lines_become_events() {
    let redactions = Redactions(vec!["key".into()]);
    assert!(matches!(
        redactions.read_line(Ok(" \t".into()), true),
        LineStep::Skip
    ));
    assert!(matches!(
        redactions.read_line(Ok("my key".into()), false),
        LineStep::Tell(Event::Log { message }) if message == "my [已隐藏密钥]"
    ));
    assert!(matches!(
        redactions.read_line(Ok("{\"type\":\"log\",\"message\":\"key\"}".into()), true),
        LineStep::Decode(line) if line == "{\"message\":\"[已隐藏密钥]\",\"type\":\"log\"}"
    ));
    assert!(matches!(
        redactions.read_line(Err("断".into()), true),
        LineStep::Tell(Event::Error { message }) if message == "读取任务输出失败：断"
    ));
    assert!(matches!(
        decoded("x".into(), None),
        Event::Log { message } if message == "x"
    ));
    assert!(matches!(
        decoded("x".into(), Some(Event::Exit { success: true, cancelled: false })),
        Event::Exit { success: true, .. }
    ));
}

#[test]
fn a_process_that_ended_is_left_alone() {
    assert!(matches!(
        supervise(ProcessState::Ended { success: true }, true),
        Supervision::Over { stop: false, error: None, success: true, cancelled: false }
    ));
    assert!(matches!(
        supervise(ProcessState::Running, false),
        Supervision::Wait
    ));
    assert!(matches!(
        supervise(ProcessState::Running, true),
        Supervision::Over { stop: true, error: None, success: false, cancelled: true }
    ));
    assert!(matches!(
        supervise(ProcessState::Unknown("坏".into()), false),
        Supervision::Over { stop: true, error: Some(_), success: false, cancelled: false }
    ));
}

#[test]
fn tools_are_waited_for_up_to_a_limit() {
    assert_eq!(probe(&ProcessState::Running, 4999), ProbeStep::Wait);
    assert_eq!(
        probe(&ProcessState::Running, 5000),
        ProbeStep::GiveUp { stop: true }
    );
    assert_eq!(
        probe(&ProcessState::Ended { success: true }, 9000),
        ProbeStep::Read
    );
    assert_eq!(
        probe(&ProcessState::Ended { success: false }, 1),
        ProbeStep::GiveUp { stop: false }
    );
    assert_eq!(
        probe(&ProcessState::Unknown("x".into()), 1),
        ProbeStep::GiveUp { stop: true }
    );
}

#[test]
fn the_engine_is_found_where_it_is() {
    let file = |path: &str, is_file| Candidate {
        path: path.into(),
        is_file,
    };
    let all = vec![file("/a", false), file("/b", true), file("/c", true)];
    assert_eq!(resolve_cli(None, &all).unwrap(), "/b");
    assert_eq!(resolve_cli(Some(&file("/x", true)), &all).unwrap(), "/x");
    assert_eq!(
        resolve_cli(Some(&file("/x", false)), &all).unwrap_err(),
        "COURSE2MD_BIN 指向的文件不存在：/x"
    );
    assert_eq!(
        resolve_cli(None, &Vec::new()).unwrap_err(),
        "找不到 course2md 引擎。请将 CLI 放在应用旁，或设置 COURSE2MD_BIN。"
    );
}

#[test]
fn quitting_leaves_a_task_to_its_end() {
    let mut idle = JobState::new();
    assert!(idle.request_close(0).quit_now);
    assert!(!idle.request_close(1).quit_now);
    assert_eq!(idle.message.as_deref(), Some("正在保存进度并退出…"));
    let mut check = JobState::new();
    check.running = true;
    assert!(check.request_close(0).cancel_job);
    check.active_task = Some("t".into());
    let plan = check.request_close(0);
    assert!(!plan.cancel_job && !plan.quit_now);
}
