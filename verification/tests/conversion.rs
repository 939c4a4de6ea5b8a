//! The options of a conversion, and when a start command goes on.
use std::hash::{Hash, Hasher};

use course2md_desktop::conversion::{
    actual_local_provider, ai_overridden, apply_conversion_ai_option, apply_local_engine,
    apply_speech_location, apply_text_source_mode, asr_provider_from_index, box_section,
    conversion_ai_option_composes_leading_icon, conversion_ai_option_enabled,
    conversion_ai_option_label, conversion_gate, engine_choice_label, engine_choices,
    idle_workbench_options_chrome, import_model, local_engine_choices_use_nested_disclosure,
    local_engine_name, missing_import_service, provider_label, remembered_local_provider,
    reset_task_ai_overrides, service_destination, text_id, AsrProvider, ConfigFile, ConversionAiOption,
    ConversionGate, OutputFormat, SectionIcon, ServicePurpose, TranscriptSource,
    CLOUD_PROVIDER_INDEX,
};
use course2md_desktop::environment::Environment;
use course2md_desktop::workspace::ConversionOptions;

#[test]
fn one_start_continues_metadata_subtitles_and_environment_without_a_confirmation_stage() {
    // The same Start revision survives each independently completing prerequisite.
    let start = 7;
    for (reading, source, text_choice, environment) in [
        (true, false, false, false),
        (true, true, true, true),
        (false, true, false, false),
        (false, true, true, true),
    ] {
        assert_eq!(
            conversion_gate(
                start,
                7,
                reading,
                source,
                text_choice,
                environment,
                true,
                false
            ),
            ConversionGate::Wait,
        );
    }
    assert_eq!(
        conversion_gate(start, 7, false, true, false, true, true, false),
        ConversionGate::Submit
    );
    // Source replacement and duplicate content require a fresh intent/choice.
    assert_eq!(
        conversion_gate(start, 8, true, false, false, true, true, false),
        ConversionGate::Stop
    );
    assert_eq!(
        conversion_gate(start, 7, false, true, false, true, true, true),
        ConversionGate::Stop
    );
    assert_eq!(
        conversion_gate(start, 7, false, false, false, true, true, false),
        ConversionGate::Stop
    );
}

#[test]
fn first_start_waits_for_library_scan_before_existing_note_decision() {
    // A restored source and the environment can be ready before the async
    // library scan replaces its initially empty (or stale) note list.
    let start = 7;
    for cached_note in [false, true] {
        assert_eq!(
            conversion_gate(start, 7, false, true, false, true, false, cached_note),
            ConversionGate::Wait,
        );
    }
    // The original Start is still pending when the scan reports a result.
    assert_eq!(
        conversion_gate(start, 7, false, true, false, true, true, true),
        ConversionGate::Stop,
    );
    assert_eq!(
        conversion_gate(start, 7, false, true, false, true, true, false),
        ConversionGate::Submit,
    );
    assert_eq!(
        conversion_gate(start, 8, false, true, false, true, false, false),
        ConversionGate::Stop,
    );
}

#[test]
fn idle_workbench_omits_conversion_defaults_callout() {
    let chrome = idle_workbench_options_chrome();
    assert!(
        !chrome.conversion_defaults_callout,
        "idle 工作台 must not show the unused conversion-defaults callout"
    );
    assert!(
        chrome.advanced_options_toggle,
        "高级选项 remains the opt-in disclosure for conversion controls"
    );
}

#[test]
fn open_advanced_options_shows_recognition_without_nested_disclosure() {
    assert!(
        !local_engine_choices_use_nested_disclosure(),
        "recognition/engine controls belong at the 高级选项 level"
    );
    let mut options = ConversionOptions::default();
    let initial_mode = options.source_mode;
    let next_mode = if initial_mode == 0 { 1 } else { 0 };
    apply_text_source_mode(&mut options, next_mode);
    assert_eq!(options.source_mode, next_mode);
    apply_text_source_mode(&mut options, 2);
    assert_eq!(options.source_mode, 2);

    let local_provider = 3;
    apply_speech_location(&mut options, true, local_provider);
    assert_eq!(options.provider, 5);
    apply_speech_location(&mut options, false, local_provider);
    assert_eq!(options.provider, local_provider);
    apply_local_engine(&mut options, 0);
    assert_eq!(options.provider, 0);
    apply_local_engine(&mut options, 1);
    assert_eq!(options.provider, 1);
}

#[test]
fn conversion_ai_rows_have_no_leading_icon_column_and_toggles_update_options() {
    assert!(
        !conversion_ai_option_composes_leading_icon(),
        "AI option rows must not compose an extra leading icon column"
    );
    assert_eq!(
        conversion_ai_option_label(ConversionAiOption::Proofread),
        "AI 校对"
    );
    assert_eq!(
        conversion_ai_option_label(ConversionAiOption::Vision),
        "发送截图辅助校对"
    );
    assert_eq!(
        conversion_ai_option_label(ConversionAiOption::Summary),
        "生成摘要"
    );
    let mut options = ConversionOptions::default();
    for option in [
        ConversionAiOption::Proofread,
        ConversionAiOption::Vision,
        ConversionAiOption::Summary,
    ] {
        let before = conversion_ai_option_enabled(&options, option);
        apply_conversion_ai_option(&mut options, option, !before);
        assert_eq!(
            conversion_ai_option_enabled(&options, option),
            !before,
            "{} must update conversion options",
            conversion_ai_option_label(option)
        );
        apply_conversion_ai_option(&mut options, option, before);
        assert_eq!(
            conversion_ai_option_enabled(&options, option),
            before,
            "{} must restore conversion options",
            conversion_ai_option_label(option)
        );
    }
}

#[test]
fn options_follow_the_saved_settings() {
    let options = ConversionOptions::from_config(&ConfigFile {
        provider: Some(AsrProvider::Npu),
        transcript_source: Some(TranscriptSource::Asr),
        llm_enabled: true,
        summarize: false,
        vision: true,
        keep_video: Some(true),
        formats: Some(vec![OutputFormat::Json]),
    });
    assert_eq!(options.provider, 4);
    assert_eq!(options.source_mode, 2);
    assert!(options.llm && !options.summarize && options.vision);
    assert!(options.keep_video && options.resume);
    assert_eq!(options.formats, [false, false, true]);
    let usual = ConversionOptions::from_config(&ConfigFile::default());
    assert_eq!(usual.formats, [true, true, false]);
    assert_eq!(ConversionOptions::default().formats, [false; 3]);
    let mut cloud = usual;
    cloud.provider = CLOUD_PROVIDER_INDEX;
    assert!(cloud.uses_cloud_provider() && !usual.uses_cloud_provider());
}

#[test]
fn providers_and_their_places_name_one_another() {
    for provider in [
        AsrProvider::Coreml,
        AsrProvider::Gpu,
        AsrProvider::Cpu,
        AsrProvider::Npu,
        AsrProvider::Api,
    ] {
        assert_eq!(asr_provider_from_index(provider.index()), Some(provider));
    }
    assert_eq!(asr_provider_from_index(0), None);
    assert_eq!(asr_provider_from_index(6), None);
    assert_eq!(provider_label(None), "自动");
    assert_eq!(provider_label(Some(AsrProvider::Api)), "云端 API");
    assert_eq!(AsrProvider::Coreml.as_str(), "coreml");
}

fn environment() -> Environment {
    Environment {
        engine: true,
        ffmpeg: true,
        ffprobe: true,
        ytdlp: true,
        llama: true,
        apple: false,
        gpu: Some("GPU".into()),
        npu: false,
        npu_device: false,
        npu_runtime: false,
    }
}

#[test]
fn engines_are_offered_where_they_work_or_are_chosen() {
    assert_eq!(engine_choices(0, &None), vec![0, 3]);
    assert_eq!(engine_choices(0, &Some(environment())), vec![0, 2, 3]);
    assert_eq!(engine_choices(4, &Some(environment())), vec![0, 2, 3, 4]);
    assert_eq!(engine_choice_label(0), "应用推荐方式");
    assert_eq!(engine_choice_label(4), "Intel NPU");
    assert_eq!(
        actual_local_provider(0, AsrProvider::Gpu),
        AsrProvider::Gpu
    );
    assert_eq!(
        actual_local_provider(3, AsrProvider::Gpu),
        AsrProvider::Cpu
    );
    assert_eq!(local_engine_name(AsrProvider::Api), "识别服务");
    assert_eq!(remembered_local_provider(Some(2)), 2);
    assert_eq!(remembered_local_provider(Some(5)), 0);
    assert_eq!(remembered_local_provider(None), 0);
}

#[test]
fn a_blank_model_gives_way_to_the_usual_one() {
    assert_eq!(
        import_model(&Some("  ".into()), AsrProvider::Cpu, "npu"),
        "qwen3-1.7b"
    );
    assert_eq!(import_model(&None, AsrProvider::Npu, "npu"), "npu");
    assert_eq!(
        import_model(&Some("own".into()), AsrProvider::Npu, "npu"),
        "own"
    );
}

#[test]
fn speech_comes_before_ai_among_missing_services() {
    let mut options = ConversionOptions::default();
    assert_eq!(
        missing_import_service(&options, true, false, false, false),
        None
    );
    options.provider = 5;
    options.summarize = true;
    assert_eq!(
        missing_import_service(&options, true, false, false, false),
        Some(ServicePurpose::Speech)
    );
    assert_eq!(
        missing_import_service(&options, true, true, false, false),
        Some(ServicePurpose::Ai)
    );
    assert_eq!(
        missing_import_service(&options, true, false, true, true),
        None
    );
}

#[test]
fn overrides_are_told_and_taken_back() {
    let defaults = ConversionOptions::default();
    let mut options = defaults;
    options.keep_video = true;
    assert!(!ai_overridden(&options, &defaults));
    options.vision = true;
    assert!(ai_overridden(&options, &defaults));
    reset_task_ai_overrides(&mut options, &defaults);
    assert!(!ai_overridden(&options, &defaults));
    assert!(options.keep_video);
}

#[test]
fn a_service_is_named_with_its_host() {
    assert_eq!(
        service_destination("api.example.com", "api.example.com"),
        "「api.example.com」"
    );
    assert_eq!(
        service_destination("校对", "api.example.com"),
        "「校对」（api.example.com）"
    );
}

#[test]
fn sections_have_their_icons() {
    assert_eq!(box_section("所选视频"), SectionIcon::Movie);
    assert_eq!(box_section("文字来源"), SectionIcon::Subtitles);
    assert_eq!(box_section("名称与保存"), SectionIcon::Folder);
    assert_eq!(box_section("导出与视频"), SectionIcon::Download);
    assert_eq!(box_section("本次任务"), SectionIcon::Task);
    assert_eq!(box_section("其他"), SectionIcon::Info);
}

#[test]
fn text_ids_hold_the_kind_and_the_hash_of_the_text() {
    let mut hasher = std::collections::hash_map::DefaultHasher::new();
    "提示".hash(&mut hasher);
    assert_eq!(
        text_id("issue", "提示"),
        format!("import-issue-{:x}", hasher.finish())
    );
    assert_ne!(text_id("issue", "提示"), text_id("issue", "其他"));
}
