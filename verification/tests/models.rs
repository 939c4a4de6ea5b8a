//! Speech models.
use course2md_desktop::account::BadgeKind;
use course2md_desktop::conversion::AsrProvider;
use course2md_desktop::environment::Environment;
use course2md_desktop::model_diagnostics::{
    available_providers, cache_state_texts, model_device_issue, model_name, provider_name,
    model_runtime_repair, CacheState, LocalModelStatus, Request, RuntimeRepair, State,
};

fn environment() -> Environment {
    Environment {
        engine: true,
        ffmpeg: true,
        ffprobe: true,
        ytdlp: true,
        llama: true,
        apple: false,
        gpu: None,
        npu: false,
        npu_device: true,
        npu_runtime: false,
    }
}

fn status(state: CacheState) -> LocalModelStatus {
    LocalModelStatus {
        state,
        bytes: 0,
        can_prepare: true,
        last_error: None,
    }
}

#[test]
fn requests_are_told_apart() {
    let request = Request::new(AsrProvider::Cpu, Some(" "), "/models");
    assert_eq!(request.key(), "cpu:qwen3-1.7b:/models");
    assert_eq!(
        Request::new(AsrProvider::Npu, Some("own"), "/m").key(),
        "npu:own:/m"
    );
    assert_eq!(
        request.preparation_args(),
        [
            "models",
            "prepare",
            "--provider",
            "cpu",
            "--model",
            "qwen3-1.7b",
            "--dir",
            "/models",
            "--json"
        ]
    );
    assert_eq!(model_name("qwen3-0.6b"), "Qwen3-ASR 0.6B");
    assert_eq!(model_name("other"), "other");
    assert_eq!(provider_name(AsrProvider::Api), "语音服务");
}

#[test]
fn only_the_latest_check_counts() {
    let mut state = State::default();
    let request = Request::new(AsrProvider::Cpu, None, "/m");
    let key = request.key();
    assert_eq!(state.check_model_request(&request, false), Some(1));
    assert_eq!(state.check_model_request(&request, false), None);
    assert_eq!(state.check_model_request(&request, true), Some(2));
    assert!(!state.finish_check(&key, 1, Ok(status(CacheState::Loaded)), Vec::new()));
    assert_eq!(
        state.default_model_conclusion(&request, false),
        (true, "正在检查识别模型…")
    );
    assert!(state.finish_check(&key, 2, Ok(status(CacheState::Loaded)), Vec::new()));
    assert_eq!(
        state.default_model_conclusion(&request, false),
        (true, "识别模型已就绪。")
    );
    assert_eq!(
        state.default_model_conclusion(&request, true).1,
        "所选识别方式暂不可用，可在模型管理中查看原因。"
    );
    let api = Request::new(AsrProvider::Api, None, "/m");
    assert_eq!(state.check_model_request(&api, true), None);
    assert!(state.default_model_conclusion(&api, true).0);
    let requests = state.refresh_model_diagnostics(Request::new(AsrProvider::Gpu, None, "/m"));
    assert_eq!(requests.entries.len(), 2);
    let mut preparing = State::default();
    preparing.begin_model_preparation(Request::new(AsrProvider::Npu, Some("own"), "/m"), false);
    let requests = preparing.refresh_model_diagnostics(request.clone());
    assert!(requests.contains(&"npu:own:/m".to_owned()));
    assert_eq!(requests.entries.len(), 2);
}

#[test]
fn a_preparation_is_begun_and_told_of() {
    let mut state = State::default();
    let request = Request::new(AsrProvider::Gpu, Some("own"), "/m");
    let default = Request::new(AsrProvider::Cpu, None, "/m");
    assert!(state
        .begin_model_preparation(request.clone(), true)
        .unwrap()
        .starts_with("当前处理结束后"));
    assert_eq!(state.model_preparation_args(&default)[3], "cpu");
    assert_eq!(state.begin_model_preparation(request.clone(), false), None);
    assert_eq!(state.model_preparation_args(&default)[3], "gpu");
    state.model_preparation_finished(true, true, &default, None);
    assert_eq!(
        state.result,
        Some((
            "GPU · own 的准备已完成，正在重新检查缓存。".to_owned(),
            false
        ))
    );
    assert!(!state.cancelled);
    state.model_preparation_finished(false, true, &default, None);
    assert!(state.cancelled);
    assert_eq!(
        state.result.as_ref().unwrap().0,
        "own 的准备已停止。已下载完成的文件保留，可以继续准备。"
    );
    state.model_preparation_finished(false, false, &default, Some("磁盘已满"));
    assert_eq!(
        state.result,
        Some((
            "own 的准备未完成：磁盘已满。已下载完成的文件保留。".to_owned(),
            true
        ))
    );
    let snapshot = state.setup_model_snapshot(&request, None, true);
    assert!(snapshot.checking && snapshot.preparing && !snapshot.cancelled);
    assert!(snapshot.notice.unwrap().1);
    let other = state.setup_model_snapshot(&default, Some("x".into()), true);
    assert!(!other.preparing && other.notice.is_none());
    assert_eq!(other.device_issue.as_deref(), Some("x"));
}

#[test]
fn devices_have_their_problems() {
    assert_eq!(model_device_issue(None, AsrProvider::Gpu, false), None);
    let found = environment();
    assert_eq!(
        model_device_issue(Some(&found), AsrProvider::Gpu, false),
        Some("已选择 GPU，但识别运行时没有报告可用的 GPU。选择仍保留；可以明确改用 CPU。")
    );
    assert_eq!(model_device_issue(Some(&found), AsrProvider::Cpu, false), None);
    assert!(model_device_issue(Some(&found), AsrProvider::Npu, false)
        .unwrap()
        .contains("缺少 uv 或 Python"));
    assert!(model_device_issue(Some(&found), AsrProvider::Coreml, false)
        .unwrap()
        .contains("当前系统无法使用"));
    assert!(model_device_issue(Some(&found), AsrProvider::Coreml, true)
        .unwrap()
        .contains("没有检测到完整的 Apple"));
    let mut broken = environment();
    broken.engine = false;
    assert_eq!(
        model_device_issue(Some(&broken), AsrProvider::Api, false),
        Some("转换程序无法运行，请先恢复应用内的转换程序。")
    );
    assert_eq!(available_providers(&found), vec![AsrProvider::Cpu]);
    assert_eq!(
        model_runtime_repair(Some(&found), AsrProvider::Npu, false),
        RuntimeRepair::InstallLauncher
    );
    assert_eq!(
        model_runtime_repair(Some(&broken), AsrProvider::Cpu, false),
        RuntimeRepair::Reinstall
    );
    assert_eq!(
        model_runtime_repair(Some(&found), AsrProvider::Cpu, false),
        RuntimeRepair::Nothing
    );
    assert_eq!(
        model_runtime_repair(None, AsrProvider::Cpu, false),
        RuntimeRepair::Nothing
    );
}

#[test]
fn a_model_can_be_prepared_when_nothing_stands_against_it() {
    let mut state = State::default();
    let request = Request::new(AsrProvider::Cpu, None, "/m");
    let generation = state.check_model_request(&request, false).unwrap();
    let panel = state.readiness(&request, true, false, false, false);
    assert!(panel.checking && panel.recheck_disabled && panel.prepare.is_none());
    state.finish_check(&request.key(), generation, Ok(status(CacheState::Cached)), Vec::new());
    let panel = state.readiness(&request, true, false, false, false);
    let button = panel.prepare.unwrap();
    assert_eq!(button.label, "检查模型文件");
    assert!(button.primary && !button.disabled);
    assert!(state
        .readiness(&request, true, true, false, false)
        .prepare
        .is_none());
    state.begin_model_preparation(request.clone(), false);
    let panel = state.readiness(&request, true, false, true, true);
    assert!(panel.active && panel.prepare.is_none());
    assert_eq!(
        cache_state_texts(CacheState::Partial),
        (
            BadgeKind::Warning,
            "待准备",
            "尚未下载完整，继续准备会复用已有文件。"
        )
    );
    state.toggle_cache_details(&request.key());
    assert!(state.cache_details.contains(&request.key()));
    state.toggle_cache_details(&request.key());
    assert!(!state.cache_details.contains(&request.key()));
}
