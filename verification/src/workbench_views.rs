//! What the workbench shows of its video: the field for it, what was read of it,
//! and where its text comes from.
use crate::conversion::{id_of_text, text_id};
use crate::subtitles::{
    candidate_title, entries, given, is_untitled, marked_entry, needs_confirmation,
    recognises_speech, shown_failure, source_entries, source_error_summary, source_summary,
    subtitle_issue, subtitle_needs_confirmation, subtitle_summary, text_source_choices,
    text_source_description, text_source_failure, text_source_selected, text_source_state,
    uses_speech, Choice,
};
use crate::text::{decimal, is_blank, join2, same};
use crate::workbench::Workbench;
use crate::workspace::{is_text, text_of, Source, SubtitleEvidence};
use vstd::prelude::*;
use vstd::string::*;

verus! {

// ---------------------------------------------------------------------- the field

/// The field for the video.
pub enum SourceField {
    /// A link can be entered.
    Link { validation: Option<String>, start: bool },
    /// A file can be dropped or chosen.
    DropZone,
    /// A file was chosen.
    File { name: String, validation: Option<String>, start: bool },
}

/// A candidate as it is offered. Its link is shown where its title says nothing.
pub struct CandidateView {
    pub input: String,
    pub title: String,
    pub label: String,
    pub link: Option<String>,
}

/// A video that could not be read.
pub struct SourceErrorView {
    pub summary: String,
    pub details: String,
    pub details_label: &'static str,
    pub offers_login: bool,
}

/// The field for the video, and what its last read came to.
pub struct SourceInputView {
    pub field: SourceField,
    pub reading: bool,
    pub collection: Option<(String, Vec<CandidateView>)>,
    pub hint: Option<String>,
    pub error: Option<SourceErrorView>,
}

/// The name under which the candidate at `i` is offered.
pub open spec fn candidate_name(bench: Workbench, i: int) -> Seq<char> {
    let candidate = bench.source_candidates@[i];
    if is_untitled(candidate.title@, candidate.input@) {
        "视频 "@ + decimal((i + 1) as nat)
    } else {
        candidate.title@
    }
}

/// The candidate at `i` is offered like this.
pub open spec fn offers_candidate(bench: Workbench, i: int, shown: CandidateView) -> bool {
    let candidate = bench.source_candidates@[i];
    &&& shown.input@ == candidate.input@
    &&& shown.title@ == candidate_name(bench, i)
    &&& shown.label@ == "选择 "@ + candidate_name(bench, i)
    &&& text_of(shown.link) == (if is_untitled(candidate.title@, candidate.input@) {
        Some(candidate.input@)
    } else {
        None
    })
}

/// What stands beside the button that opens and closes details.
pub open spec fn details_label(open: bool, closed: Seq<char>) -> Seq<char> {
    if open {
        "收起详情"@
    } else {
        closed
    }
}

impl Workbench {
    /// What was wrong with the input, where nothing was read of it.
    pub open spec fn shown_validation(self) -> Option<Seq<char>> {
        if self.source_preview is None {
            text_of(self.source_validation)
        } else {
            None
        }
    }

    fn validation(&self) -> (result: Option<String>)
        ensures
            text_of(result) == self.shown_validation(),
    {
        if self.source_preview.is_none() {
            match &self.source_validation {
                Some(message) => Some(message.clone()),
                None => None,
            }
        } else {
            None
        }
    }

    fn offered_candidates(&self) -> (result: Vec<CandidateView>)
        ensures
            result@.len() == self.source_candidates@.len(),
            forall|i: int|
                0 <= i < result@.len() ==> offers_candidate(*self, i, #[trigger] result@[i]),
    {
        let total: usize = self.source_candidates.len();
        let mut result: Vec<CandidateView> = Vec::new();
        let mut i: usize = 0;
        while i < total
            invariant
                i <= total,
                total == self.source_candidates@.len(),
                result@.len() == i,
                forall|j: int| 0 <= j < i ==> offers_candidate(*self, j, #[trigger] result@[j]),
            decreases total - i,
        {
            let candidate = &self.source_candidates[i];
            let (title, untitled) = candidate_title(
                candidate.title.as_str(),
                candidate.input.as_str(),
                i,
            );
            let label = join2("选择 ", title.as_str());
            result.push(
                CandidateView {
                    input: candidate.input.clone(),
                    title,
                    label,
                    link: if untitled {
                        Some(candidate.input.clone())
                    } else {
                        None
                    },
                },
            );
            i += 1;
        }
        result
    }

    /// The field for the video. `file_name` is the name of a chosen file where its
    /// path has one; `login_failure` says that the last read failed for want of a
    /// login, `bilibili` that the link leads there.
    pub open spec fn is_source_input(
        self,
        input: Seq<char>,
        file_name: Option<Seq<char>>,
        can_start: bool,
        login_failure: bool,
        bilibili: bool,
        view: SourceInputView,
    ) -> bool {
        &&& match view.field {
            SourceField::Link { validation, start } => self.online && text_of(validation)
                == self.shown_validation() && start == can_start,
            SourceField::DropZone => !self.online && input.len() == 0,
            SourceField::File { name, validation, start } => !self.online && input.len() > 0
                && name@ == (match file_name {
                Some(own) if own.len() > 0 => own,
                _ => input,
            }) && text_of(validation) == self.shown_validation() && start == can_start,
        }
        &&& view.reading == self.previewing
        &&& match view.collection {
            Some((title, offered)) => {
                &&& text_of(self.source_collection_title) == Some(title@)
                &&& offered@.len() == self.source_candidates@.len()
                &&& forall|i: int|
                    0 <= i < offered@.len() ==> offers_candidate(self, i, #[trigger] offered@[i])
            },
            None => self.source_collection_title is None,
        }
        &&& text_of(view.hint) == (if self.source_candidates@.len() > 0 {
            text_of(self.preview_error)
        } else {
            None
        })
        &&& match view.error {
            Some(error) => {
                &&& self.source_candidates@.len() == 0
                &&& self.preview_error matches Some(message) && {
                    &&& error.summary@ == source_summary(message@, login_failure)
                    &&& error.details@ == message@
                    &&& error.details_label@ == details_label(
                        self.show_preview_details,
                        "技术详情"@,
                    )
                    &&& error.offers_login == (self.online && login_failure && bilibili)
                }
            },
            None => self.preview_error is None || self.source_candidates@.len() > 0,
        }
    }

    pub fn box_source_input(
        &self,
        input: &str,
        file_name: Option<&str>,
        can_start: bool,
        login_failure: bool,
        bilibili: bool,
    ) -> (result: SourceInputView)
        ensures
            self.is_source_input(
                input@,
                given(file_name),
                can_start,
                login_failure,
                bilibili,
                result,
            ),
    {
        let field = if self.online {
            SourceField::Link { validation: self.validation(), start: can_start }
        } else if input.is_empty() {
            SourceField::DropZone
        } else {
            let name = match file_name {
                Some(own) => {
                    if own.is_empty() {
                        input.to_owned()
                    } else {
                        own.to_owned()
                    }
                },
                None => input.to_owned(),
            };
            SourceField::File { name, validation: self.validation(), start: can_start }
        };
        let collection = match &self.source_collection_title {
            Some(title) => Some((title.clone(), self.offered_candidates())),
            None => None,
        };
        let several = self.source_candidates.len() > 0;
        let hint = match &self.preview_error {
            Some(message) => {
                if several {
                    Some(message.clone())
                } else {
                    None
                }
            },
            None => None,
        };
        let error = match &self.preview_error {
            Some(message) => {
                if several {
                    None
                } else {
                    Some(
                        SourceErrorView {
                            summary: source_error_summary(message.as_str(), login_failure),
                            details: message.clone(),
                            details_label: if self.show_preview_details {
                                "收起详情"
                            } else {
                                "技术详情"
                            },
                            offers_login: self.online && login_failure && bilibili,
                        },
                    )
                }
            },
            None => None,
        };
        SourceInputView { field, reading: self.previewing, collection, hint, error }
    }
}

// --------------------------------------------------------------- the selected video

/// The video that was read.
pub struct SelectedVideoView {
    pub title: String,
    pub link: String,
    pub shows_account: bool,
    pub shows_start: bool,
    /// The field can be closed: it is open and still holds this video.
    pub can_close_field: bool,
    pub change_label: &'static str,
    pub details_label: &'static str,
    pub can_reread: bool,
}

impl Workbench {
    /// What is shown of the video that was read; nothing before that.
    pub fn box_selected_video(&self, input: &str, can_start: bool, bilibili: bool) -> (result: Option<
        SelectedVideoView,
    >)
        ensures
            result is Some == self.source_preview is Some,
            result matches Some(view) ==> {
                let source = self.source_preview->0;
                &&& view.title@ == source.title@
                &&& view.link@ == source.input@
                &&& view.shows_account == (source.online && bilibili)
                &&& view.shows_start == (!self.source_editor_open && can_start)
                &&& view.can_close_field == (self.source_editor_open && input@ == source.input@)
                &&& view.change_label@ == (if view.can_close_field {
                    "收起输入"@
                } else {
                    "更换视频"@
                })
                &&& view.details_label@ == details_label(self.show_preview_details, "来源详情"@)
                &&& view.can_reread == self.online
            },
    {
        match &self.source_preview {
            Some(source) => {
                let can_close_field = self.source_editor_open && same(
                    input,
                    source.input.as_str(),
                );
                Some(
                    SelectedVideoView {
                        title: source.title.clone(),
                        link: source.input.clone(),
                        shows_account: source.online && bilibili,
                        shows_start: !self.source_editor_open && can_start,
                        can_close_field,
                        change_label: if can_close_field {
                            "收起输入"
                        } else {
                            "更换视频"
                        },
                        details_label: if self.show_preview_details {
                            "收起详情"
                        } else {
                            "来源详情"
                        },
                        can_reread: self.online,
                    },
                )
            },
            None => None,
        }
    }

    /// Opens or closes the field for another video.
    pub fn change_source(&mut self, input: &str) -> (result: bool)
        ensures
            result == !(old(self).source_editor_open && old(self).source_preview is Some
                && input@ == old(self).source_preview->0.input@),
            *final(self) == (Workbench { source_editor_open: result, ..*old(self) }),
    {
        let can_close = self.source_editor_open && match &self.source_preview {
            Some(source) => same(input, source.input.as_str()),
            None => false,
        };
        self.source_editor_open = !can_close;
        !can_close
    }
}

// -------------------------------------------------------------------- the text source

/// A problem with a subtitle. Its details can be opened where the message says more
/// than the summary.
pub struct IssueView {
    pub id: String,
    pub summary: String,
    pub details: Option<String>,
    pub expanded: bool,
}

impl Workbench {
    /// A problem with a subtitle is shown like this.
    pub open spec fn is_issue(
        self,
        kind: Seq<char>,
        message: Seq<char>,
        login_failure: bool,
        view: IssueView,
    ) -> bool {
        &&& view.id@ == id_of_text(kind, message)
        &&& view.summary@ == subtitle_summary(message, login_failure)
        &&& text_of(view.details) == (if view.summary@ != message && !is_blank(message) {
            Some(message)
        } else {
            None
        })
        &&& view.expanded == (text_of(self.expanded_subtitle_issue) == Some(view.id@))
    }

    pub fn subtitle_issue(&self, kind: &str, message: &str, login_failure: bool) -> (result:
        IssueView)
        ensures
            self.is_issue(kind@, message@, login_failure, result),
    {
        let id = text_id(kind, message);
        let (summary, details) = subtitle_issue(message, login_failure);
        let expanded = is_text(&self.expanded_subtitle_issue, id.as_str());
        IssueView { id, summary, details, expanded }
    }

    /// Opens the details of a problem, or closes them.
    pub fn toggle_issue(&mut self, id: String)
        ensures
            final(self).expanded_subtitle_issue == (if text_of(old(self).expanded_subtitle_issue)
                == Some(id@) {
                None
            } else {
                Some(id)
            }),
            *final(self) == (Workbench {
                expanded_subtitle_issue: final(self).expanded_subtitle_issue,
                ..*old(self)
            }),
    {
        self.expanded_subtitle_issue = if is_text(&self.expanded_subtitle_issue, id.as_str()) {
            None
        } else {
            Some(id)
        };
    }
}

/// What is known of the messages that are shown: whether each tells of a missing
/// login.
#[derive(Clone, Copy)]
pub struct LoginFailures {
    /// The failure that is shown.
    pub failure: bool,
    /// The warning about some of the subtitles.
    pub warning: bool,
    /// The error of the last read, or else why no subtitles were found.
    pub known: bool,
}

/// Where the text comes from, and what can be done about it.
pub struct TextSourceView {
    pub description: String,
    pub speech: bool,
    pub loading: bool,
    /// The label of the button that opens and closes the choices; a choice that is
    /// needed keeps them open.
    pub toggle: Option<&'static str>,
    pub failure: Option<IssueView>,
    /// The subtitle that was read before and can be used after a failure.
    pub previous: Option<String>,
    /// Why speech is recognised, while the choices are closed.
    pub note: Option<String>,
    pub choices_open: bool,
    pub choices: Vec<Choice>,
    pub selected: Option<String>,
    pub warning: Option<IssueView>,
    /// What was found out about subtitles, among the choices.
    pub finding: Option<String>,
    pub can_retry: bool,
    pub can_attach: bool,
    pub offers_login: bool,
}

/// A text source has to be chosen.
pub open spec fn needs_text_choice(bench: Workbench, source: Source) -> bool {
    needs_confirmation(source, bench.task_options.source_mode) || shown_failure(
        source,
        bench.task_options.source_mode,
        text_of(bench.subtitle_error),
    ) is Some
}

/// Why speech is recognised, in one line.
pub open spec fn speech_note(evidence: SubtitleEvidence) -> Option<Seq<char>> {
    match evidence {
        SubtitleEvidence::NoneFound => Some("未找到可直接读取的字幕"@),
        SubtitleEvidence::Unsupported { message } => Some(message@),
        _ => None,
    }
}

/// What was found out about subtitles where none can be chosen.
pub open spec fn subtitle_finding(evidence: SubtitleEvidence) -> Option<Seq<char>> {
    match evidence {
        SubtitleEvidence::NoneFound => Some("未找到可直接读取的字幕，可以识别视频声音。"@),
        SubtitleEvidence::Unsupported { message } => Some(message@),
        _ => None,
    }
}

impl Workbench {
    /// The warning about some of the subtitles, unless an error is shown.
    pub open spec fn shown_warning(self, source: Source) -> Option<Seq<char>> {
        match source.subtitles {
            SubtitleEvidence::Found { tracks: _, warning: Some(message) } if self.subtitle_error
                is None => Some("部分字幕尚未确认："@ + message@),
            _ => None,
        }
    }

    /// The last read failed, or no subtitles were found for a reason.
    pub open spec fn has_known_failure(self, source: Source) -> bool {
        self.subtitle_error is Some || source.subtitles is Failed
    }

    pub open spec fn is_text_source(
        self,
        source: Source,
        show_options: bool,
        bilibili: bool,
        logins: LoginFailures,
        view: TextSourceView,
    ) -> bool {
        let mode = self.task_options.source_mode;
        let speech = recognises_speech(source, mode);
        let failure = shown_failure(source, mode, text_of(self.subtitle_error));
        let needed = needs_text_choice(self, source);
        &&& view.description@ == text_source_state(source, mode, self.subtitle_loading)
        &&& view.speech == speech
        &&& view.loading == self.subtitle_loading
        &&& match view.toggle {
            Some(label) => !needed && label@ == (if show_options {
                "收起"@
            } else {
                "更换"@
            }),
            None => needed,
        }
        &&& match view.failure {
            Some(issue) => failure is Some && self.is_issue(
                "subtitle-read"@,
                failure->0,
                logins.failure,
                issue,
            ),
            None => failure is None,
        }
        &&& text_of(view.previous) == (match source.selected_subtitle {
            Some(cached) if failure is Some => Some(cached.label@),
            _ => None,
        })
        &&& view.choices_open == (show_options || needed)
        &&& text_of(view.note) == (if speech && !view.choices_open {
            speech_note(source.subtitles)
        } else {
            None
        })
        &&& entries(view.choices@) == source_entries(source)
        &&& text_of(view.selected) == marked_entry(source, mode)
        &&& match view.warning {
            Some(issue) => self.shown_warning(source) is Some && self.is_issue(
                "subtitle-warning"@,
                self.shown_warning(source)->0,
                logins.warning,
                issue,
            ),
            None => self.shown_warning(source) is None,
        }
        &&& text_of(view.finding) == subtitle_finding(source.subtitles)
        &&& view.can_retry == !self.subtitle_loading
        &&& view.can_attach == !source.online
        &&& view.offers_login == (source.online && bilibili && self.has_known_failure(source)
            && logins.known)
    }

    /// Where the text of the video comes from; nothing before a video was read.
    pub fn text_source_view(&self, show_options: bool, bilibili: bool, logins: LoginFailures) -> (result:
        Option<TextSourceView>)
        ensures
            match result {
                Some(view) => self.source_preview is Some && self.is_text_source(
                    self.source_preview->0,
                    show_options,
                    bilibili,
                    logins,
                    view,
                ),
                None => self.source_preview is None,
            },
    {
        let source = match &self.source_preview {
            Some(source) => source,
            None => {
                return None;
            },
        };
        let mode = self.task_options.source_mode;
        let speech = uses_speech(source, mode);
        let error = match &self.subtitle_error {
            Some(message) => Some(message.as_str()),
            None => None,
        };
        assert(given(error) == text_of(self.subtitle_error));
        let failure = text_source_failure(source, mode, error);
        let needed = subtitle_needs_confirmation(source, mode) || failure.is_some();
        let choices_open = show_options || needed;
        let previous = match &source.selected_subtitle {
            Some(cached) => {
                if failure.is_some() {
                    Some(cached.label.clone())
                } else {
                    None
                }
            },
            None => None,
        };
        let note = if speech && !choices_open {
            match &source.subtitles {
                SubtitleEvidence::NoneFound => Some("未找到可直接读取的字幕".to_owned()),
                SubtitleEvidence::Unsupported { message } => Some(message.clone()),
                _ => None,
            }
        } else {
            None
        };
        let warning = match &source.subtitles {
            SubtitleEvidence::Found { tracks: _, warning: Some(message) } => {
                if self.subtitle_error.is_none() {
                    let text = join2("部分字幕尚未确认：", message.as_str());
                    Some(self.subtitle_issue("subtitle-warning", text.as_str(), logins.warning))
                } else {
                    None
                }
            },
            _ => None,
        };
        let finding = match &source.subtitles {
            SubtitleEvidence::NoneFound => Some(
                "未找到可直接读取的字幕，可以识别视频声音。".to_owned(),
            ),
            SubtitleEvidence::Unsupported { message } => Some(message.clone()),
            _ => None,
        };
        let failure_view = match &failure {
            Some(message) => Some(
                self.subtitle_issue("subtitle-read", message.as_str(), logins.failure),
            ),
            None => None,
        };
        Some(
            TextSourceView {
                description: text_source_description(source, mode, self.subtitle_loading),
                speech,
                loading: self.subtitle_loading,
                toggle: if needed {
                    None
                } else if show_options {
                    Some("收起")
                } else {
                    Some("更换")
                },
                failure: failure_view,
                previous,
                note,
                choices_open,
                choices: text_source_choices(source),
                selected: text_source_selected(source, mode),
                warning,
                finding,
                can_retry: !self.subtitle_loading,
                can_attach: !source.online,
                offers_login: source.online && bilibili && (self.subtitle_error.is_some()
                    || matches!(source.subtitles, SubtitleEvidence::Failed { .. }))
                    && logins.known,
            },
        )
    }
}

// ----------------------------------------------------------------------- laws

/// Where a text source has to be chosen, the choices are open and cannot be closed.
pub proof fn a_needed_choice_stays_open(
    bench: Workbench,
    source: Source,
    show_options: bool,
    bilibili: bool,
    logins: LoginFailures,
    view: TextSourceView,
)
    requires
        bench.is_text_source(source, show_options, bilibili, logins, view),
        needs_confirmation(source, bench.task_options.source_mode) || bench.subtitle_error is Some,
    ensures
        view.choices_open,
        view.toggle is None,
{
}

// ---------------------------------------------------------------- what is shown

/// The field is for a link or for a file; what was wrong is told beside it until a video was
/// read, candidates are offered all and in their order, and an error is told whole in its
/// details.
pub proof fn the_input_is_shown(
    bench: Workbench,
    input: &str,
    file: Option<&str>,
    can_start: bool,
    login: bool,
    bilibili: bool,
    view: SourceInputView,
    i: int,
)
    requires
        call_ensures(
            Workbench::box_source_input,
            (&bench, input, file, can_start, login, bilibili),
            view,
        ),
    ensures
        view.field is Link <==> bench.online,
        view.field is DropZone <==> !bench.online && input@.len() == 0,
        view.field matches SourceField::Link { validation, start } ==> start == can_start && (
        bench.source_preview is Some ==> validation is None) && (bench.source_preview is None
            ==> text_of(validation) == text_of(bench.source_validation)),
        view.reading == bench.previewing,
        view.collection is Some <==> bench.source_collection_title is Some,
        view.collection matches Some((_, offered)) ==> offered@.len()
            == bench.source_candidates@.len() && (0 <= i < offered@.len() ==> offered@[i].input@
            == bench.source_candidates@[i].input@),
        view.error is Some <==> bench.preview_error is Some && bench.source_candidates@.len() == 0,
        view.error matches Some(error) ==> error.details@ == bench.preview_error->0@ && (
        error.offers_login <==> bench.online && login && bilibili),
        view.hint is Some ==> bench.source_candidates@.len() > 0,
{
    if let Some((title, offered)) = view.collection {
        if 0 <= i < offered@.len() {
            assert(offers_candidate(bench, i, offered@[i]));
        }
    }
}

/// The video that was read is shown under its own title and link; the field opens to change it,
/// and closes only where it still says the same.
pub proof fn the_video_is_shown(
    bench: &mut Workbench,
    input: &str,
    can_start: bool,
    bilibili: bool,
    view: Option<SelectedVideoView>,
    opened: bool,
)
    requires
        call_ensures(Workbench::box_selected_video, (&*old(bench), input, can_start, bilibili), view),
        call_ensures(Workbench::change_source, (bench, input), opened),
    ensures
        view is Some <==> old(bench).source_preview is Some,
        view matches Some(shown) ==> {
            let source = old(bench).source_preview->0;
            &&& shown.title@ == source.title@ && shown.link@ == source.input@
            &&& shown.can_close_field <==> old(bench).source_editor_open && input@ == source.input@
            &&& shown.can_close_field <==> !opened
            &&& shown.shows_start ==> can_start && !old(bench).source_editor_open
        },
        final(bench).source_editor_open == opened,
        final(bench).source_preview == old(bench).source_preview,
        old(bench).source_preview is None ==> opened,
{
}

/// Opening an issue closes the one before, and opening it again closes it.
pub proof fn one_issue_is_open_at_a_time(
    first: &mut Workbench,
    second: &mut Workbench,
    id: String,
    kind: &str,
    message: &str,
    login: bool,
    view: IssueView,
)
    requires
        call_ensures(Workbench::toggle_issue, (first, id), ()),
        *old(second) == *final(first),
        call_ensures(Workbench::toggle_issue, (second, id), ()),
        call_ensures(Workbench::subtitle_issue, (&*final(first), kind, message, login), view),
    ensures
        text_of(old(first).expanded_subtitle_issue) != Some(id@) ==> (view.expanded <==> view.id@
            == id@),
        text_of(old(first).expanded_subtitle_issue) == Some(id@) ==> !view.expanded,
        text_of(old(first).expanded_subtitle_issue) != Some(id@) ==> final(
            second).expanded_subtitle_issue is None,
{
}

/// Where the text comes from is shown with everything that is offered; while something is open
/// about it the choices stay open, and what was confirmed before is named.
pub proof fn the_text_source_is_shown(
    bench: Workbench,
    open: bool,
    bilibili: bool,
    logins: LoginFailures,
    view: Option<TextSourceView>,
    speech: bool,
    unsettled: bool,
)
    requires
        call_ensures(Workbench::text_source_view, (&bench, open, bilibili, logins), view),
        bench.source_preview is Some ==> call_ensures(
            crate::subtitles::uses_speech,
            (&bench.source_preview->0, bench.task_options.source_mode),
            speech,
        ),
        bench.source_preview is Some ==> call_ensures(
            crate::subtitles::subtitle_needs_confirmation,
            (&bench.source_preview->0, bench.task_options.source_mode),
            unsettled,
        ),
    ensures
        view is Some <==> bench.source_preview is Some,
        view matches Some(shown) ==> {
            &&& shown.speech == speech
            &&& shown.loading == bench.subtitle_loading
            &&& open || unsettled || bench.subtitle_error is Some ==> shown.choices_open
            &&& !open && !unsettled && bench.subtitle_error is None ==> !shown.choices_open
            &&& bench.subtitle_error is Some ==> shown.failure is Some
            &&& shown.can_retry <==> !bench.subtitle_loading
            &&& shown.can_attach <==> !bench.source_preview->0.online
            &&& shown.offers_login ==> bench.source_preview->0.online && bilibili && logins.known
            &&& shown.choices@.len() > 0
            &&& shown.previous is Some ==> bench.source_preview->0.selected_subtitle is Some
        },
{
    if let Some(shown) = view {
        assert(entries(shown.choices@).len() == shown.choices@.len());
    }
}

} // verus!
