//! Subtitles, speech, and the texts about them.
use course2md_desktop::subtitles::{
    automatic_subtitle_fallback, candidate_title, chosen_text_source, source_error_summary,
    subtitle_issue, subtitle_needs_confirmation, text_source_choices, text_source_description,
    text_source_failure, text_source_selected, uses_speech, TextSourceAction,
};
use course2md_desktop::workspace::{
    CachedSubtitle, Source, SubtitleEvidence, SubtitleOrigin, SubtitleReadError, SubtitleTrack,
};

fn source() -> Source {
    Source {
        input: String::new(),
        identity: String::new(),
        title: String::new(),
        author: String::new(),
        online: false,
        subtitles: SubtitleEvidence::Unchecked,
        selected_subtitle: None,
        subtitle_request: None,
        subtitle_read_error: None,
    }
}

fn file_track(path: &str) -> SubtitleTrack {
    SubtitleTrack {
        id: path.into(),
        label: path.into(),
        origin: SubtitleOrigin::File,
    }
}

#[test]
fn automatic_mode_uses_speech_after_login_or_download_failure() {
    let track = file_track("lesson.srt");
    for metadata_failed in [true, false] {
        let mut source = Source {
            subtitles: if metadata_failed {
                SubtitleEvidence::Failed {
                    message: "WARNING: subtitles require login".into(),
                }
            } else {
                SubtitleEvidence::Found {
                    tracks: vec![track.clone()],
                    warning: None,
                }
            },
            subtitle_request: if metadata_failed {
                None
            } else {
                Some(track.clone())
            },
            subtitle_read_error: if metadata_failed {
                None
            } else {
                Some(SubtitleReadError::Failed {
                    message: "字幕文件没有下载成功".into(),
                })
            },
            ..source()
        };
        assert!(automatic_subtitle_fallback(&mut source, 0, None));
        assert!(uses_speech(&source, 0));
        assert!(!subtitle_needs_confirmation(&source, 0));
        assert!(source.subtitle_request.is_none());
        assert!(source.subtitle_read_error.is_none());
    }
}

#[test]
fn explicit_subtitle_and_cancelled_reads_never_fall_back_to_speech() {
    let mut source = Source {
        subtitles: SubtitleEvidence::Failed {
            message: "字幕需要登录".into(),
        },
        subtitle_read_error: Some(SubtitleReadError::Failed {
            message: "字幕需要登录".into(),
        }),
        ..source()
    };
    let original = source.clone();
    assert!(!automatic_subtitle_fallback(&mut source, 1, None));
    assert_eq!(source, original);
    assert!(subtitle_needs_confirmation(&source, 1));

    source.subtitle_read_error = Some(SubtitleReadError::Cancelled);
    let cancelled = source.clone();
    assert!(!automatic_subtitle_fallback(&mut source, 0, None));
    assert_eq!(source, cancelled);
    assert!(!uses_speech(&source, 0));
}

#[test]
fn pending_or_failed_subtitles_remain_required_even_with_cached_text() {
    let track = file_track("lesson.srt");
    let mut source = Source {
        identity: "lesson".into(),
        subtitles: SubtitleEvidence::Found {
            tracks: vec![track.clone()],
            warning: None,
        },
        ..source()
    };
    assert!(subtitle_needs_confirmation(&source, 0));
    source.selected_subtitle = Some(CachedSubtitle {
        source_identity: source.identity.clone(),
        track_id: track.id.clone(),
        label: "已读取字幕".into(),
        path: "lesson.srt".into(),
    });
    assert!(!subtitle_needs_confirmation(&source, 0));

    source.subtitle_request = Some(track);
    assert!(subtitle_needs_confirmation(&source, 0));
    source.subtitle_request = None;
    source.subtitle_read_error = Some(SubtitleReadError::Failed {
        message: "无法读取新字幕，原正文仍保留".into(),
    });
    assert!(subtitle_needs_confirmation(&source, 0));

    // Cancelling the replacement or choosing the cached text restores the
    // confirmed source without opening unrelated generation preferences.
    source.subtitle_read_error = None;
    assert!(!subtitle_needs_confirmation(&source, 1));
    source.selected_subtitle = None;
    assert!(subtitle_needs_confirmation(&source, 1));
    assert!(!subtitle_needs_confirmation(&source, 2));
}

#[test]
fn caption_intent_and_unconfirmed_reads_never_imply_speech_recognition() {
    let mut source = Source {
        subtitles: SubtitleEvidence::NoneFound,
        ..source()
    };
    assert!(uses_speech(&source, 0));
    assert!(!uses_speech(&source, 1));
    source.subtitle_request = Some(file_track("lesson.srt"));
    assert!(!uses_speech(&source, 0));
    assert!(!uses_speech(&source, 1));
    source.subtitle_request = None;
    source.subtitle_read_error = Some(SubtitleReadError::Failed {
        message: "字幕文件无法读取".into(),
    });
    assert!(!uses_speech(&source, 0));
    assert!(uses_speech(&source, 2));
    source.subtitle_read_error = None;
    source.subtitles = SubtitleEvidence::Unchecked;
    assert!(!uses_speech(&source, 0));
    source.subtitles = SubtitleEvidence::Failed {
        message: "请求失败".into(),
    };
    assert!(uses_speech(&source, 0));
    assert!(!uses_speech(&source, 1));
}

#[test]
fn the_given_error_comes_before_what_is_known() {
    let mut source = Source {
        subtitles: SubtitleEvidence::Failed {
            message: "older".into(),
        },
        ..source()
    };
    assert!(automatic_subtitle_fallback(&mut source, 0, Some("newer")));
    assert_eq!(
        source.subtitles,
        SubtitleEvidence::Failed {
            message: "newer".into()
        }
    );
}

#[test]
fn the_text_source_is_described() {
    let mut source = source();
    assert_eq!(
        text_source_description(&source, 0, false),
        "尚未检查可读取的字幕"
    );
    assert_eq!(text_source_description(&source, 0, true), "正在读取字幕…");
    assert_eq!(text_source_description(&source, 2, false), "识别视频声音");
    source.subtitle_request = Some(file_track("a.srt"));
    assert_eq!(
        text_source_description(&source, 1, false),
        "所选字幕尚未确认"
    );
    source.subtitle_request = None;
    source.subtitles = SubtitleEvidence::NoneFound;
    assert_eq!(
        text_source_description(&source, 1, false),
        "尚未选择文字来源"
    );
    source.selected_subtitle = Some(CachedSubtitle {
        source_identity: String::new(),
        track_id: "a".into(),
        label: "中文".into(),
        path: String::new(),
    });
    assert_eq!(text_source_description(&source, 1, false), "中文");
    assert_eq!(
        text_source_failure(&source, 1, Some("错误")).as_deref(),
        Some("错误")
    );
    assert_eq!(text_source_failure(&source, 1, None), None);
}

#[test]
fn technical_messages_are_summed_up_and_kept_as_details() {
    let (summary, details) = subtitle_issue("ERROR: 403\nmore", false);
    assert_eq!(summary, "暂时无法读取字幕；可以重试，或改用语音识别");
    assert_eq!(details.as_deref(), Some("ERROR: 403\nmore"));
    let (summary, details) = subtitle_issue("第一行\r\n第二行", false);
    assert_eq!(summary, "第一行");
    assert_eq!(details.as_deref(), Some("第一行\r\n第二行"));
    let (summary, details) = subtitle_issue("一行", false);
    assert_eq!(summary, "一行");
    assert_eq!(details, None);
    assert_eq!(
        subtitle_issue("一行", true).0,
        "字幕需要登录后才能读取；可以登录，或改用语音识别"
    );
    assert_eq!(
        source_error_summary("WARNING: x", false),
        "暂时无法读取这个视频，请检查链接或稍后重试"
    );
    assert_eq!(source_error_summary("行\n二", false), "行");
}

#[test]
fn a_candidate_is_numbered_unless_its_title_says_more() {
    assert_eq!(candidate_title(" link ", "link", 0), ("视频 1".into(), true));
    assert_eq!(candidate_title("", "link", 11), ("视频 12".into(), true));
    assert_eq!(candidate_title("标题", "link", 0), ("标题".into(), false));
}

#[test]
fn text_sources_are_offered_and_chosen() {
    let mut source = Source {
        subtitles: SubtitleEvidence::Found {
            tracks: vec![file_track("a"), file_track("b")],
            warning: None,
        },
        subtitle_request: Some(file_track("c")),
        ..source()
    };
    source.selected_subtitle = Some(CachedSubtitle {
        source_identity: String::new(),
        track_id: "d".into(),
        label: "已读".into(),
        path: String::new(),
    });
    let choices: Vec<(String, String)> = text_source_choices(&source)
        .into_iter()
        .map(|choice| (choice.value, choice.label))
        .collect();
    let values: Vec<&str> = choices.iter().map(|choice| choice.0.as_str()).collect();
    assert_eq!(
        values,
        ["track:a", "track:b", "track:c", "track:d", "speech"]
    );
    assert_eq!(choices[3].1, "已读");
    assert_eq!(
        text_source_selected(&source, 0).as_deref(),
        Some("track:c")
    );
    assert_eq!(text_source_selected(&source, 2).as_deref(), Some("speech"));
    assert!(matches!(
        chosen_text_source(&source, "track:b"),
        TextSourceAction::Confirm(track) if track.id == "b"
    ));
    assert!(matches!(
        chosen_text_source(&source, "track:d"),
        TextSourceAction::UseConfirmed
    ));
    assert!(matches!(
        chosen_text_source(&source, "speech"),
        TextSourceAction::UseSpeech
    ));
    assert!(matches!(
        chosen_text_source(&source, "track:x"),
        TextSourceAction::Nothing
    ));
    assert!(matches!(
        chosen_text_source(&source, "a"),
        TextSourceAction::Nothing
    ));
}
