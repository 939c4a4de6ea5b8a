//! The options of a conversion as the workbench shows them, and what the workbench
//! is made up of.
use crate::conversion::{
    ai_overridden, conversion_ai_option_enabled, destination_of, engine_choice_label,
    engine_choices, idle_workbench_options_chrome, label_of, local_engine_name, offered_engines,
    provider_at, service_destination, AsrProvider, ConversionAiOption, CLOUD_PROVIDER_INDEX,
    LOCAL_PROVIDERS,
};
use crate::environment::Environment;
use crate::folders::{find_id, library_with_id};
use crate::subtitles::{recognises_speech, uses_speech, Choice};
use crate::text::{blank, decimal, is_blank, join2, join3, joined, number, same};
use crate::workbench::Workbench;
use crate::workbench_page::{
    destination_label, export_summary, format_names, needs_model_check, shows_task, task_panel,
    TaskPanel,
};
use crate::workspace::{text_of, ConversionOptions, Draft, LibraryLocation, TaskRecord, TaskState};
use vstd::prelude::*;
use vstd::string::*;

verus! {

// ------------------------------------------------------------------------ content

/// What is said of the service that proofreads and summarises.
pub enum AiServiceView {
    Missing,
    /// Where the text is sent to, if it is sent.
    Chosen { notice: Option<String> },
}

/// The options on what a note holds.
pub struct ContentOptionsView {
    pub mode: String,
    pub shows_speech: bool,
    pub proofread: bool,
    pub shows_vision: bool,
    pub vision: bool,
    pub summary: bool,
    pub shows_ai_service: bool,
    pub ai_service: AiServiceView,
    pub own_rules: bool,
    /// The choices on AI differ from the saved ones.
    pub overridden: bool,
}

impl Workbench {
    /// Speech will be recognised, as far as is known before a video was read.
    pub open spec fn expects_speech(self) -> bool {
        match self.source_preview {
            Some(source) => recognises_speech(source, self.task_options.source_mode),
            None => self.task_options.source_mode != 1,
        }
    }

    /// Speech of the video that was read is recognised.
    pub open spec fn imports_speech(self) -> bool {
        self.source_preview is Some && recognises_speech(
            self.source_preview->0,
            self.task_options.source_mode,
        )
    }

    pub fn import_uses_speech(&self) -> (result: bool)
        ensures
            result == self.imports_speech(),
    {
        match &self.source_preview {
            Some(source) => uses_speech(source, self.task_options.source_mode),
            None => false,
        }
    }

    /// The options on what a note holds. `service` is the name and the host of the
    /// chosen AI service, `prompt` the saved rules for proofreading.
    pub fn import_content_options(
        &self,
        defaults: &ConversionOptions,
        service: Option<(&str, &str)>,
        prompt: &Option<String>,
    ) -> (result: ContentOptionsView)
        ensures
            ({
                let options = self.task_options;
                &&& result.mode@ == decimal(options.source_mode as nat)
                &&& result.shows_speech == self.expects_speech()
                &&& result.proofread == options.llm
                &&& result.shows_vision == options.llm
                &&& result.vision == options.vision
                &&& result.summary == options.summarize
                &&& result.shows_ai_service == (options.llm || options.summarize)
                &&& match result.ai_service {
                    AiServiceView::Missing => service is None,
                    AiServiceView::Chosen { notice } => service is Some && text_of(notice) == (
                    if options.llm {
                        Some(
                            "校对文字将发送到"@ + destination_of(
                                (service->0).0@,
                                (service->0).1@,
                            ) + "。"@,
                        )
                    } else {
                        None
                    }),
                }
                &&& result.own_rules == (options.llm && (prompt matches Some(rules) && !is_blank(
                    rules@,
                )))
                &&& result.overridden == (options.llm != defaults.llm || options.summarize
                    != defaults.summarize || options.vision != defaults.vision)
            }),
    {
        let shows_speech = match &self.source_preview {
            Some(source) => uses_speech(source, self.task_options.source_mode),
            None => self.task_options.source_mode != 1,
        };
        let ai_service = match service {
            Some((name, host)) => AiServiceView::Chosen {
                notice: if self.task_options.llm {
                    Some(
                        join3(
                            "校对文字将发送到",
                            service_destination(name, host).as_str(),
                            "。",
                        ),
                    )
                } else {
                    None
                },
            },
            None => AiServiceView::Missing,
        };
        let own_rules = self.task_options.llm && match prompt {
            Some(rules) => !blank(rules.as_str()),
            None => false,
        };
        ContentOptionsView {
            mode: number(self.task_options.source_mode as u64),
            shows_speech,
            proofread: conversion_ai_option_enabled(
                &self.task_options,
                ConversionAiOption::Proofread,
            ),
            shows_vision: self.task_options.llm,
            vision: conversion_ai_option_enabled(&self.task_options, ConversionAiOption::Vision),
            summary: conversion_ai_option_enabled(&self.task_options, ConversionAiOption::Summary),
            shows_ai_service: self.task_options.llm || self.task_options.summarize,
            ai_service,
            own_rules,
            overridden: ai_overridden(&self.task_options, defaults),
        }
    }
}

// ------------------------------------------------------------------------- speech

/// Where speech is recognised.
pub enum SpeechView {
    /// By a service.
    Cloud,
    /// On this computer, by one of these engines.
    Local { current: String, engines: Vec<Choice>, selected: String },
}

/// The choices are these engines.
pub open spec fn lists_engines(choices: Seq<Choice>, engines: Seq<usize>) -> bool {
    &&& choices.len() == engines.len()
    &&& forall|i: int|
        0 <= i < choices.len() ==> (#[trigger] choices[i])@ == (
            decimal(engines[i] as nat),
            if engines[i] == 0 {
                "应用推荐方式"@
            } else {
                label_of(provider_at(engines[i]))
            },
        )
}

proof fn engines_are_local(n: nat, chosen: usize, environment: Option<Environment>)
    requires
        n <= LOCAL_PROVIDERS,
    ensures
        forall|i: int|
            0 <= i < offered_engines(n, chosen, environment).len() ==> (
            #[trigger] offered_engines(n, chosen, environment)[i]) < n,
    decreases n,
{
    if n > 0 {
        let before = offered_engines((n - 1) as nat, chosen, environment);
        let all = offered_engines(n, chosen, environment);
        engines_are_local((n - 1) as nat, chosen, environment);
        assert forall|i: int| 0 <= i < all.len() implies (#[trigger] all[i]) < n by {
            if i < before.len() {
                assert(all[i] == before[i]);
            }
        }
    }
}

/// Where speech is recognised. `actual` is the engine that the choice comes to.
pub fn import_speech_options(
    options: &ConversionOptions,
    environment: &Option<Environment>,
    actual: AsrProvider,
) -> (result: SpeechView)
    ensures
        match result {
            SpeechView::Cloud => options.provider == CLOUD_PROVIDER_INDEX,
            SpeechView::Local { current, engines, selected } => {
                &&& options.provider != CLOUD_PROVIDER_INDEX
                &&& current@ == "当前方式："@ + (match actual {
                    AsrProvider::Api => "识别服务"@,
                    _ => label_of(Some(actual)),
                })
                &&& lists_engines(
                    engines@,
                    offered_engines(LOCAL_PROVIDERS as nat, options.provider, *environment),
                )
                &&& selected@ == decimal(options.provider as nat)
            },
        },
{
    if options.provider == CLOUD_PROVIDER_INDEX {
        return SpeechView::Cloud;
    }
    let offered = engine_choices(options.provider, environment);
    proof {
        engines_are_local(LOCAL_PROVIDERS as nat, options.provider, *environment);
    }
    let mut engines: Vec<Choice> = Vec::new();
    let mut i: usize = 0;
    while i < offered.len()
        invariant
            i <= offered@.len(),
            engines@.len() == i,
            forall|j: int| 0 <= j < offered@.len() ==> (#[trigger] offered@[j]) < LOCAL_PROVIDERS,
            forall|j: int|
                0 <= j < i ==> (#[trigger] engines@[j])@ == (
                    decimal(offered@[j] as nat),
                    if offered@[j] == 0 {
                        "应用推荐方式"@
                    } else {
                        label_of(provider_at(offered@[j]))
                    },
                ),
        decreases offered@.len() - i,
    {
        engines.push(
            Choice {
                value: number(offered[i] as u64),
                label: engine_choice_label(offered[i]).to_owned(),
            },
        );
        i += 1;
    }
    SpeechView::Local {
        current: join2("当前方式：", local_engine_name(actual)),
        engines,
        selected: number(options.provider as u64),
    }
}

// -------------------------------------------------------------------- destination

/// A place to save to, in a menu.
pub struct DestinationEntry {
    pub id: String,
    pub label: String,
    pub checked: bool,
}

/// Where a note is saved.
pub enum DestinationView {
    /// There are several libraries to choose among.
    Choice { label: String, entries: Vec<DestinationEntry> },
    /// There is one library, and it is the one.
    Only(String),
    /// The library that was chosen is not there.
    Unknown,
}

/// The library at `i` is offered like this.
pub open spec fn offers_library(
    library: LibraryLocation,
    current: Option<Seq<char>>,
    entry: DestinationEntry,
) -> bool {
    &&& entry.id@ == library.id@
    &&& entry.label@ == library.name@ + " · "@ + library.root@
    &&& entry.checked == (current == Some(library.id@))
}

/// The id that is given, if one is.
pub open spec fn id_given(current: Option<&String>) -> Option<Seq<char>> {
    match current {
        Some(own) => Some(own@),
        None => None,
    }
}

/// The library that is chosen, among those that are registered.
pub open spec fn chosen_library(
    libraries: Seq<LibraryLocation>,
    current: Option<Seq<char>>,
) -> Option<LibraryLocation> {
    match current {
        Some(id) => library_with_id(libraries, id),
        None => None,
    }
}

/// Where a note is saved: the library that the input is for, among all of them.
pub fn import_destination(libraries: &Vec<LibraryLocation>, current: Option<&String>) -> (result:
    DestinationView)
    ensures
        ({
            let id = id_given(current);
            match result {
                DestinationView::Choice { label, entries } => {
                    &&& libraries@.len() > 1
                    &&& entries@.len() == libraries@.len()
                    &&& forall|i: int|
                        0 <= i < entries@.len() ==> offers_library(
                            libraries@[i],
                            id,
                            #[trigger] entries@[i],
                        )
                    &&& label@ == (match chosen_library(libraries@, id) {
                        Some(library) => library.name@,
                        None => "选择保存位置"@,
                    })
                },
                DestinationView::Only(name) => libraries@.len() <= 1 && (match chosen_library(
                    libraries@,
                    id,
                ) {
                    Some(library) => name@ == library.name@,
                    None => false,
                }),
                DestinationView::Unknown => libraries@.len() <= 1 && chosen_library(
                    libraries@,
                    id,
                ) is None,
            }
        }),
{
    let ghost id = id_given(current);
    let selected: Option<&LibraryLocation> = match current {
        Some(own) => match find_id(libraries, own.as_str()) {
            Some(i) => Some(&libraries[i]),
            None => None,
        },
        None => None,
    };
    assert(match selected {
        Some(library) => chosen_library(libraries@, id) == Some(*library),
        None => chosen_library(libraries@, id) is None,
    });
    let total: usize = libraries.len();
    if total > 1 {
        let mut entries: Vec<DestinationEntry> = Vec::new();
        let mut i: usize = 0;
        while i < total
            invariant
                i <= total,
                total == libraries@.len(),
                id == id_given(current),
                entries@.len() == i,
                forall|j: int|
                    0 <= j < i ==> offers_library(libraries@[j], id, #[trigger] entries@[j]),
            decreases total - i,
        {
            let library = &libraries[i];
            let checked = match current {
                Some(own) => same(own.as_str(), library.id.as_str()),
                None => false,
            };
            entries.push(
                DestinationEntry {
                    id: library.id.clone(),
                    label: join3(library.name.as_str(), " · ", library.root.as_str()),
                    checked,
                },
            );
            i += 1;
        }
        return DestinationView::Choice { label: destination_label(selected), entries };
    }
    match selected {
        Some(library) => DestinationView::Only(library.name.clone()),
        None => DestinationView::Unknown,
    }
}

/// Another library is chosen for the input; a folder of the former one is none of
/// the new one.
pub fn choose_destination(draft: &mut Draft, id: String)
    ensures
        *final(draft) == (Draft { library_id: id, folder: None, ..*old(draft) }),
{
    draft.library_id = id;
    draft.folder = None;
}

// ---------------------------------------------------------------------- exports

/// A format in which a note can be written beside the library.
pub struct FormatRow {
    pub label: &'static str,
    pub description: &'static str,
    pub checked: bool,
}

/// The files that are written beside the note.
pub struct ExportsView {
    pub toggle: &'static str,
    pub summary: Option<String>,
    pub rows: Vec<FormatRow>,
    /// Whether a downloaded video is kept; nothing to decide for a local one.
    pub keep_video: Option<bool>,
}

pub open spec fn format_label(index: int) -> Seq<char> {
    if index == 0 {
        "Markdown 包"@
    } else if index == 1 {
        "网页文件"@
    } else {
        "JSON 数据"@
    }
}

pub open spec fn format_description(index: int) -> Seq<char> {
    if index == 0 {
        "便于在笔记软件中编辑，包含文稿和图片"@
    } else if index == 1 {
        "单个文件，便于阅读与分享"@
    } else {
        "供其他程序读取和处理"@
    }
}

/// The files that are written beside the note.
pub fn import_exports(options: &ConversionOptions, open: bool, online: bool) -> (result: ExportsView)
    ensures
        result.toggle@ == (if open {
            "收起导出选项"@
        } else {
            "同时导出文件"@
        }),
        text_of(result.summary) == (if format_names(options.formats).len() > 0 {
            Some(joined(format_names(options.formats), " · "@))
        } else {
            None
        }),
        result.rows@.len() == 3,
        forall|i: int|
            0 <= i < 3 ==> {
                &&& (#[trigger] result.rows@[i]).label@ == format_label(i)
                &&& result.rows@[i].description@ == format_description(i)
                &&& result.rows@[i].checked == options.formats[i]
            },
        result.keep_video == (if online {
            Some(options.keep_video)
        } else {
            None
        }),
{
    let mut rows: Vec<FormatRow> = Vec::new();
    rows.push(
        FormatRow {
            label: "Markdown 包",
            description: "便于在笔记软件中编辑，包含文稿和图片",
            checked: options.formats[0],
        },
    );
    rows.push(
        FormatRow {
            label: "网页文件",
            description: "单个文件，便于阅读与分享",
            checked: options.formats[1],
        },
    );
    rows.push(
        FormatRow {
            label: "JSON 数据",
            description: "供其他程序读取和处理",
            checked: options.formats[2],
        },
    );
    ExportsView {
        toggle: if open {
            "收起导出选项"
        } else {
            "同时导出文件"
        },
        summary: export_summary(options),
        rows,
        keep_video: if online {
            Some(options.keep_video)
        } else {
            None
        },
    }
}

/// Turns a format on or off.
pub fn set_format(options: &mut ConversionOptions, index: usize, value: bool)
    requires
        index < 3,
    ensures
        final(options).formats@ == old(options).formats@.update(index as int, value),
        *final(options) == (ConversionOptions { formats: final(options).formats, ..*old(options) }),
{
    options.formats[index] = value;
}

// ------------------------------------------------------------------------- page

/// Where the text source is shown.
#[derive(Clone, Copy, Debug, PartialEq, Eq, Structural)]
pub enum TextSourcePlace {
    /// In a section of its own, since something about it is open.
    Section,
    /// Among the options.
    Options,
    Nowhere,
}

/// What the workbench is made up of.
pub struct WorkbenchPage {
    /// The task of the input takes the place of everything that prepares one.
    pub task: Option<TaskPanel>,
    pub checks_model: bool,
    pub shows_field: bool,
    pub cancelled: bool,
    pub can_close_field: bool,
    pub offers_another_video: bool,
    pub shows_video: bool,
    pub text_source: TextSourcePlace,
    pub shows_options: bool,
    pub shows_options_toggle: bool,
}

/// The task of the input, with the number of parts that its result lacks, is shown.
pub open spec fn task_is_shown(task: Option<(TaskRecord, usize)>, opening: bool) -> bool {
    task is Some && shows_task((task->0).0, opening, (task->0).1 as nat)
}

impl Workbench {
    /// What the workbench is made up of. `task` is the task of the input with the
    /// number of parts that its result lacks; `opening` says that a result that is
    /// followed is about to open.
    pub fn new_page(&self, task: Option<(&TaskRecord, usize)>, opening: bool) -> (result:
        WorkbenchPage)
        ensures
            ({
                let own: Option<(TaskRecord, usize)> = match task {
                    Some((record, failures)) => Some((*record, failures)),
                    None => None,
                };
                let shown = task_is_shown(own, opening);
                let prepared = self.source_preview is Some;
                let field = !prepared || self.source_editor_open;
                let idle = !shown && !self.previewing && self.source_candidates@.len() == 0;
                &&& result.task is Some == shown
                &&& result.task matches Some(panel) ==> panel == (if opening && (own->0).0.state
                    .is_published() {
                    TaskPanel::OpeningResult
                } else if (own->0).0.state is Queued || (own->0).0.state is Running || (own->0)
                    .0.state is Pausing {
                    TaskPanel::Running
                } else {
                    TaskPanel::Attention
                })
                &&& result.checks_model == (!shown && self.task_options.provider != 5 && (
                self.imports_speech() || (self.generation_options_open
                    && self.task_options.source_mode != 1)))
                &&& result.shows_field == field
                &&& result.cancelled == (own is Some && (own->0).0.state is Cancelled)
                &&& result.can_close_field == (shown && field)
                &&& result.offers_another_video == (shown && !field)
                &&& result.shows_video == (!shown && prepared)
                &&& result.text_source == (if shown {
                    TextSourcePlace::Nowhere
                } else if self.needs_attention() {
                    TextSourcePlace::Section
                } else if prepared && idle {
                    TextSourcePlace::Options
                } else {
                    TextSourcePlace::Nowhere
                })
                &&& result.shows_options == (idle && self.generation_options_open)
                &&& result.shows_options_toggle == idle
            }),
    {
        let panel = match task {
            Some((record, failures)) => task_panel(record, opening, failures),
            None => None,
        };
        let shown = panel.is_some();
        let cancelled = match task {
            Some((record, _)) => matches!(record.state, TaskState::Cancelled),
            None => false,
        };
        let prepared = self.source_preview.is_some();
        let field = !prepared || self.source_editor_open;
        let idle = !shown && !self.previewing && self.source_candidates.len() == 0;
        let text_source = if shown {
            TextSourcePlace::Nowhere
        } else if self.subtitle_attention_required() {
            TextSourcePlace::Section
        } else if prepared && idle {
            TextSourcePlace::Options
        } else {
            TextSourcePlace::Nowhere
        };
        WorkbenchPage {
            task: panel,
            checks_model: needs_model_check(
                &self.task_options,
                shown,
                self.import_uses_speech(),
                self.generation_options_open,
            ),
            shows_field: field,
            cancelled,
            can_close_field: shown && field,
            offers_another_video: shown && !field,
            shows_video: !shown && prepared,
            text_source,
            shows_options: idle && self.generation_options_open,
            shows_options_toggle: idle && idle_workbench_options_chrome().advanced_options_toggle,
        }
    }
}

// --------------------------------------------------------- what the options say

/// The options are shown as they are: each switch by its own choice, what depends on the
/// language model only where that is on, and a service only where one is used. A difference
/// from the defaults is told.
pub proof fn the_options_are_shown_as_they_are(
    bench: Workbench,
    defaults: ConversionOptions,
    service: Option<(&str, &str)>,
    prompt: Option<String>,
    view: ContentOptionsView,
)
    requires
        call_ensures(
            Workbench::import_content_options,
            (&bench, &defaults, service, &prompt),
            view,
        ),
    ensures
        view.proofread == bench.task_options.llm,
        view.vision == bench.task_options.vision,
        view.summary == bench.task_options.summarize,
        view.shows_vision == bench.task_options.llm,
        view.shows_ai_service <==> bench.task_options.llm || bench.task_options.summarize,
        view.ai_service is Missing <==> service is None,
        view.own_rules ==> prompt is Some && bench.task_options.llm,
        !view.overridden ==> bench.task_options.llm == defaults.llm && bench.task_options.summarize
            == defaults.summarize && bench.task_options.vision == defaults.vision,
        bench.task_options == defaults ==> !view.overridden,
        bench.source_preview is None ==> (view.shows_speech <==> bench.task_options.source_mode
            != 1),
        bench.task_options.source_mode == 2 ==> view.shows_speech,
{
}

/// Choosing a library changes the library of the input and nothing else but its folder, which
/// is one of the other library.
pub proof fn choosing_a_library_leaves_its_folder(draft: &mut Draft, id: String)
    requires
        call_ensures(choose_destination, (draft, id), ()),
    ensures
        final(draft).library_id == id,
        final(draft).folder is None,
        final(draft).input == old(draft).input,
        final(draft).options == old(draft).options,
        final(draft).title == old(draft).title,
        final(draft).submitted_task == old(draft).submitted_task,
{
}

/// Switching a format switches that one and no other.
pub proof fn a_format_is_switched_alone(
    options: &mut ConversionOptions,
    index: usize,
    value: bool,
    other: int,
)
    requires
        index < 3,
        call_ensures(set_format, (options, index, value), ()),
        0 <= other < 3,
    ensures
        final(options).formats@[index as int] == value,
        other != index ==> final(options).formats@[other] == old(options).formats@[other],
        final(options).provider == old(options).provider,
        final(options).source_mode == old(options).source_mode,
        final(options).llm == old(options).llm,
        final(options).keep_video == old(options).keep_video,
{
}

/// The libraries are offered where there is more than one, each under its name and place, and
/// the one that the input is for is marked.
pub proof fn the_library_of_the_input_is_marked(
    libraries: Vec<LibraryLocation>,
    current: Option<&String>,
    view: DestinationView,
    i: int,
)
    requires
        call_ensures(import_destination, (&libraries, current), view),
    ensures
        view is Choice <==> libraries@.len() > 1,
        view is Choice && 0 <= i < libraries@.len() ==> {
            let entry = view->entries@[i];
            &&& view->entries@.len() == libraries@.len()
            &&& entry.id@ == libraries@[i].id@
            &&& entry.checked <==> current is Some && current->0@ == libraries@[i].id@
        },
{
    if view is Choice && 0 <= i < libraries@.len() {
        let given = (&libraries, current);
        assert(offers_library(given.0@[i], id_given(given.1), view->entries@[i]));
    }
}

/// Where speech is recognised in the cloud no engine is offered; otherwise the chosen one is
/// among those offered, and marked.
pub proof fn the_chosen_engine_is_marked(
    options: ConversionOptions,
    environment: Option<Environment>,
    actual: AsrProvider,
    view: SpeechView,
)
    requires
        call_ensures(import_speech_options, (&options, &environment, actual), view),
    ensures
        view is Cloud <==> options.provider == 5,
        view is Local ==> view->selected@ == decimal(options.provider as nat),
        view is Local && options.provider < 5 ==> exists|i: int|
            0 <= i < view->engines@.len() && (#[trigger] view->engines@[i]).value@
                == view->selected@,
{
    if view is Local && options.provider < 5 {
        let offered = offered_engines(LOCAL_PROVIDERS as nat, options.provider, environment);
        crate::conversion::the_chosen_engine_is_offered(
            LOCAL_PROVIDERS as nat,
            options.provider,
            environment,
        );
        let i = choose|i: int| 0 <= i < offered.len() && offered[i] == options.provider;
        assert(view->engines@[i]@ == (
            decimal(offered[i] as nat),
            if offered[i] == 0 {
                "应用推荐方式"@
            } else {
                label_of(provider_at(offered[i]))
            },
        ));
        assert(view->engines@[i].value@ == view->selected@);
    }
}

/// While a task is shown the workbench shows neither the video nor its options; what is open
/// about the text is asked in a place of its own.
pub proof fn a_shown_task_takes_the_page(
    bench: Workbench,
    task: Option<(&TaskRecord, usize)>,
    opening: bool,
    page: WorkbenchPage,
    asked: bool,
    panel: Option<TaskPanel>,
)
    requires
        call_ensures(Workbench::new_page, (&bench, task, opening), page),
        call_ensures(Workbench::subtitle_attention_required, (&bench,), asked),
        task is Some ==> call_ensures(
            crate::workbench_page::task_panel,
            ((task->0).0, opening, (task->0).1),
            panel,
        ),
    ensures
        task is None ==> page.task is None,
        task is Some ==> page.task == panel,
        page.task is Some ==> !page.shows_video && !page.shows_options && !page.checks_model
            && page.text_source is Nowhere,
        page.task is None && asked ==> page.text_source is Section,
        page.task is None ==> (page.shows_video <==> bench.source_preview is Some),
        bench.source_preview is None ==> page.shows_field,
        page.shows_options ==> bench.generation_options_open && !bench.previewing,
        page.can_close_field ==> page.shows_field && page.task is Some,
        page.cancelled <==> task is Some && (task->0).0.state is Cancelled,
{
}

/// Speech is recognised for an import exactly where the video that was read needs it.
pub proof fn an_import_recognises_speech_where_it_must(
    bench: Workbench,
    uses: bool,
    speech: bool,
)
    requires
        call_ensures(Workbench::import_uses_speech, (&bench,), uses),
        bench.source_preview is Some ==> call_ensures(
            crate::subtitles::uses_speech,
            (&bench.source_preview->0, bench.task_options.source_mode),
            speech,
        ),
    ensures
        bench.source_preview is None ==> !uses,
        bench.source_preview is Some ==> uses == speech,
{
}

/// The files that can be written are offered with what is chosen; a video is kept only where it
/// comes from the network.
pub proof fn the_formats_are_offered(options: ConversionOptions, open: bool, online: bool, view: ExportsView, i: int)
    requires
        call_ensures(import_exports, (&options, open, online), view),
        0 <= i < 3,
    ensures
        view.rows@.len() == 3,
        view.rows@[i].checked == options.formats[i],
        view.keep_video is Some <==> online,
        view.keep_video is Some ==> view.keep_video->0 == options.keep_video,
        view.summary is Some <==> options.formats[0] || options.formats[1] || options.formats[2],
{
    let row = view.rows@[i];
}

} // verus!
