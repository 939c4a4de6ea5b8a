//! The choices for a conversion, and when a start command may submit one.
use crate::environment::Environment;
use crate::text::{blank, hex_number, hexadecimal, is_blank, same};
use crate::workspace::{text_of, ConversionOptions};
use std::collections::hash_map::DefaultHasher;
use std::hash::{Hash, Hasher};
use vstd::prelude::*;
use vstd::std_specs::hash::*;
use vstd::string::*;

verus! {

// ------------------------------------------------------------------ providers

/// The ways in which speech can be recognised.
#[derive(Clone, Copy, Debug, PartialEq, Eq, Structural)]
pub enum AsrProvider {
    Coreml,
    Gpu,
    Cpu,
    Npu,
    Api,
}

/// Where the service stands in the list of providers: those before it are local.
pub const CLOUD_PROVIDER_INDEX: usize = 5;

/// The number of local entries in the list of providers, the automatic one included.
pub const LOCAL_PROVIDERS: usize = 5;

impl AsrProvider {
    pub open spec fn id(self) -> Seq<char> {
        match self {
            AsrProvider::Coreml => "coreml"@,
            AsrProvider::Gpu => "gpu"@,
            AsrProvider::Cpu => "cpu"@,
            AsrProvider::Npu => "npu"@,
            AsrProvider::Api => "api"@,
        }
    }

    /// The provider's id, as the engine spells it.
    pub fn as_str(&self) -> (result: &'static str)
        ensures
            result@ == self.id(),
    {
        match self {
            AsrProvider::Coreml => "coreml",
            AsrProvider::Gpu => "gpu",
            AsrProvider::Cpu => "cpu",
            AsrProvider::Npu => "npu",
            AsrProvider::Api => "api",
        }
    }

    /// The place of the provider in the list; the automatic choice has place 0.
    pub open spec fn place(self) -> usize {
        match self {
            AsrProvider::Coreml => 1,
            AsrProvider::Gpu => 2,
            AsrProvider::Cpu => 3,
            AsrProvider::Npu => 4,
            AsrProvider::Api => CLOUD_PROVIDER_INDEX,
        }
    }

    pub fn index(&self) -> (result: usize)
        ensures
            result == self.place(),
    {
        match self {
            AsrProvider::Coreml => 1,
            AsrProvider::Gpu => 2,
            AsrProvider::Cpu => 3,
            AsrProvider::Npu => 4,
            AsrProvider::Api => CLOUD_PROVIDER_INDEX,
        }
    }
}

/// The provider at a place in the list; none for the automatic choice and beyond.
pub open spec fn provider_at(index: usize) -> Option<AsrProvider> {
    if index == 1 {
        Some(AsrProvider::Coreml)
    } else if index == 2 {
        Some(AsrProvider::Gpu)
    } else if index == 3 {
        Some(AsrProvider::Cpu)
    } else if index == 4 {
        Some(AsrProvider::Npu)
    } else if index == 5 {
        Some(AsrProvider::Api)
    } else {
        None
    }
}

pub fn asr_provider_from_index(index: usize) -> (result: Option<AsrProvider>)
    ensures
        result == provider_at(index),
{
    match index {
        1 => Some(AsrProvider::Coreml),
        2 => Some(AsrProvider::Gpu),
        3 => Some(AsrProvider::Cpu),
        4 => Some(AsrProvider::Npu),
        5 => Some(AsrProvider::Api),
        _ => None,
    }
}

pub open spec fn label_of(provider: Option<AsrProvider>) -> Seq<char> {
    match provider {
        None => "自动"@,
        Some(AsrProvider::Coreml) => "Apple 原生"@,
        Some(AsrProvider::Gpu) => "GPU"@,
        Some(AsrProvider::Cpu) => "CPU"@,
        Some(AsrProvider::Npu) => "Intel NPU"@,
        Some(AsrProvider::Api) => "云端 API"@,
    }
}

/// The name of a provider wherever one is chosen or described.
pub fn provider_label(provider: Option<AsrProvider>) -> (result: &'static str)
    ensures
        result@ == label_of(provider),
{
    match provider {
        None => "自动",
        Some(AsrProvider::Coreml) => "Apple 原生",
        Some(AsrProvider::Gpu) => "GPU",
        Some(AsrProvider::Cpu) => "CPU",
        Some(AsrProvider::Npu) => "Intel NPU",
        Some(AsrProvider::Api) => "云端 API",
    }
}

/// The list of providers and the providers themselves name one another.
pub proof fn providers_and_places_agree(provider: AsrProvider, index: usize)
    ensures
        provider_at(provider.place()) == Some(provider),
        provider_at(index) matches Some(found) ==> found.place() == index,
{
}

// -------------------------------------------------------------------- options

/// Where the text of a note comes from, as it is saved in the settings.
#[derive(Clone, Copy, Debug, PartialEq, Eq, Structural)]
pub enum TranscriptSource {
    Auto,
    Subtitle,
    Asr,
}

#[derive(Clone, Copy, Debug, PartialEq, Eq, Structural)]
pub enum OutputFormat {
    Md,
    Html,
    Json,
}

/// The saved settings that a new conversion starts from.
pub struct ConfigFile {
    pub provider: Option<AsrProvider>,
    pub transcript_source: Option<TranscriptSource>,
    pub llm_enabled: bool,
    pub summarize: bool,
    pub vision: bool,
    pub keep_video: Option<bool>,
    pub formats: Option<Vec<OutputFormat>>,
}

impl Default for ConfigFile {
    fn default() -> (result: ConfigFile)
        ensures
            result == (ConfigFile {
                provider: None,
                transcript_source: None,
                llm_enabled: false,
                summarize: false,
                vision: false,
                keep_video: None,
                formats: None,
            }),
    {
        ConfigFile {
            provider: None,
            transcript_source: None,
            llm_enabled: false,
            summarize: false,
            vision: false,
            keep_video: None,
            formats: None,
        }
    }
}

/// The number of a text source in the conversion options.
pub open spec fn mode_of(source: Option<TranscriptSource>) -> usize {
    match source {
        Some(TranscriptSource::Subtitle) => 1,
        Some(TranscriptSource::Asr) => 2,
        _ => 0,
    }
}

/// Whether a format is asked for; without a list, `unless_listed` holds.
pub open spec fn wants(
    formats: Option<Vec<OutputFormat>>,
    format: OutputFormat,
    unless_listed: bool,
) -> bool {
    match formats {
        Some(list) => list@.contains(format),
        None => unless_listed,
    }
}

fn has_format(formats: &Option<Vec<OutputFormat>>, format: OutputFormat, unless_listed: bool) -> (result:
    bool)
    ensures
        result == wants(*formats, format, unless_listed),
{
    match formats {
        Some(list) => {
            let mut i: usize = 0;
            while i < list.len()
                invariant
                    i <= list@.len(),
                    forall|j: int| 0 <= j < i ==> #[trigger] list@[j] != format,
                    *formats == Some(*list),
                decreases list@.len() - i,
            {
                if list[i] == format {
                    return true;
                }
                i += 1;
            }
            false
        },
        None => unless_listed,
    }
}

/// The options are those that the settings ask for. Work is always resumed.
pub open spec fn follows_config(options: ConversionOptions, config: ConfigFile) -> bool {
    &&& options.provider == (match config.provider {
        Some(provider) => provider.place(),
        None => 0,
    })
    &&& options.source_mode == mode_of(config.transcript_source)
    &&& options.llm == config.llm_enabled
    &&& options.summarize == config.summarize
    &&& options.vision == config.vision
    &&& options.keep_video == (config.keep_video == Some(true))
    &&& options.resume
    &&& options.formats[0] == wants(config.formats, OutputFormat::Md, true)
    &&& options.formats[1] == wants(config.formats, OutputFormat::Html, true)
    &&& options.formats[2] == wants(config.formats, OutputFormat::Json, false)
}

impl ConversionOptions {
    /// The options that the settings ask for: Markdown and HTML unless the
    /// settings list the formats.
    pub fn from_config(config: &ConfigFile) -> (result: ConversionOptions)
        ensures
            follows_config(result, *config),
    {
        let provider: usize = match config.provider {
            Some(provider) => provider.index(),
            None => 0,
        };
        let source_mode: usize = match config.transcript_source {
            Some(TranscriptSource::Subtitle) => 1,
            Some(TranscriptSource::Asr) => 2,
            _ => 0,
        };
        let keep_video = match config.keep_video {
            Some(keep) => keep,
            None => false,
        };
        ConversionOptions {
            provider,
            source_mode,
            llm: config.llm_enabled,
            summarize: config.summarize,
            vision: config.vision,
            keep_video,
            resume: true,
            formats: [
                has_format(&config.formats, OutputFormat::Md, true),
                has_format(&config.formats, OutputFormat::Html, true),
                has_format(&config.formats, OutputFormat::Json, false),
            ],
        }
    }

    /// Whether the speech service is used.
    pub fn uses_cloud_provider(&self) -> (result: bool)
        ensures
            result == (self.provider == CLOUD_PROVIDER_INDEX),
    {
        self.provider == CLOUD_PROVIDER_INDEX
    }
}

impl Default for ConversionOptions {
    /// Everything automatic, nothing extra, no files beside the note.
    fn default() -> (result: ConversionOptions)
        ensures
            result.provider == 0,
            result.source_mode == 0,
            !result.llm && !result.summarize && !result.vision && !result.keep_video,
            result.resume,
            !result.formats[0] && !result.formats[1] && !result.formats[2],
    {
        let config = ConfigFile::default();
        let mut value = ConversionOptions::from_config(&config);
        value.formats = [false, false, false];
        value
    }
}

/// The options of a conversion that use artificial intelligence.
#[derive(Clone, Copy, Debug, PartialEq, Eq, Structural)]
pub enum ConversionAiOption {
    Proofread,
    Vision,
    Summary,
}

pub open spec fn ai_option(options: ConversionOptions, option: ConversionAiOption) -> bool {
    match option {
        ConversionAiOption::Proofread => options.llm,
        ConversionAiOption::Vision => options.vision,
        ConversionAiOption::Summary => options.summarize,
    }
}

pub open spec fn with_ai_option(
    options: ConversionOptions,
    option: ConversionAiOption,
    enabled: bool,
) -> ConversionOptions {
    match option {
        ConversionAiOption::Proofread => ConversionOptions { llm: enabled, ..options },
        ConversionAiOption::Vision => ConversionOptions { vision: enabled, ..options },
        ConversionAiOption::Summary => ConversionOptions { summarize: enabled, ..options },
    }
}

pub fn conversion_ai_option_label(option: ConversionAiOption) -> (result: &'static str)
    ensures
        result@ == (match option {
            ConversionAiOption::Proofread => "AI 校对"@,
            ConversionAiOption::Vision => "发送截图辅助校对"@,
            ConversionAiOption::Summary => "生成摘要"@,
        }),
{
    match option {
        ConversionAiOption::Proofread => "AI 校对",
        ConversionAiOption::Vision => "发送截图辅助校对",
        ConversionAiOption::Summary => "生成摘要",
    }
}

/// The rows of these options show no icon in front.
pub fn conversion_ai_option_composes_leading_icon() -> (result: bool)
    ensures
        !result,
{
    false
}

pub fn conversion_ai_option_enabled(options: &ConversionOptions, option: ConversionAiOption) -> (result:
    bool)
    ensures
        result == ai_option(*options, option),
{
    match option {
        ConversionAiOption::Proofread => options.llm,
        ConversionAiOption::Vision => options.vision,
        ConversionAiOption::Summary => options.summarize,
    }
}

pub fn apply_conversion_ai_option(
    options: &mut ConversionOptions,
    option: ConversionAiOption,
    enabled: bool,
)
    ensures
        *final(options) == with_ai_option(*old(options), option, enabled),
{
    match option {
        ConversionAiOption::Proofread => {
            options.llm = enabled;
        },
        ConversionAiOption::Vision => {
            options.vision = enabled;
        },
        ConversionAiOption::Summary => {
            options.summarize = enabled;
        },
    }
}

/// Setting an option shows, leaves the others alone, and can be taken back.
pub proof fn ai_options_are_independent(
    options: ConversionOptions,
    option: ConversionAiOption,
    enabled: bool,
    other: ConversionAiOption,
)
    ensures
        ai_option(with_ai_option(options, option, enabled), option) == enabled,
        other != option ==> ai_option(with_ai_option(options, option, enabled), other) == ai_option(
            options,
            other,
        ),
        with_ai_option(with_ai_option(options, option, enabled), option, ai_option(options, option))
            == options,
{
}

pub fn apply_text_source_mode(options: &mut ConversionOptions, mode: usize)
    ensures
        *final(options) == (ConversionOptions { source_mode: mode, ..*old(options) }),
{
    options.source_mode = mode;
}

/// Recognition moves to the service, or back to a local provider.
pub fn apply_speech_location(options: &mut ConversionOptions, cloud: bool, local_provider: usize)
    ensures
        *final(options) == (ConversionOptions {
            provider: if cloud {
                CLOUD_PROVIDER_INDEX
            } else {
                local_provider
            },
            ..*old(options)
        }),
{
    options.provider = if cloud {
        CLOUD_PROVIDER_INDEX
    } else {
        local_provider
    };
}

pub fn apply_local_engine(options: &mut ConversionOptions, provider: usize)
    ensures
        *final(options) == (ConversionOptions { provider, ..*old(options) }),
{
    options.provider = provider;
}

/// The local provider to return to: the remembered one if it is local, else the
/// automatic choice.
pub fn remembered_local_provider(remembered: Option<usize>) -> (result: usize)
    ensures
        result == (match remembered {
            Some(provider) if provider < LOCAL_PROVIDERS => provider,
            _ => 0,
        }),
        result < LOCAL_PROVIDERS,
{
    match remembered {
        Some(provider) if provider < LOCAL_PROVIDERS => provider,
        _ => 0,
    }
}

/// Whether this conversion differs from the defaults in what it sends to an AI.
pub fn ai_overridden(options: &ConversionOptions, defaults: &ConversionOptions) -> (result: bool)
    ensures
        result == exists|option: ConversionAiOption|
            ai_option(*options, option) != ai_option(*defaults, option),
{
    let result = options.llm != defaults.llm || options.summarize != defaults.summarize
        || options.vision != defaults.vision;
    proof {
        let a = ConversionAiOption::Proofread;
        let b = ConversionAiOption::Vision;
        let c = ConversionAiOption::Summary;
        assert(ai_option(*options, a) != ai_option(*defaults, a) || ai_option(*options, b)
            != ai_option(*defaults, b) || ai_option(*options, c) != ai_option(*defaults, c)
            || !result);
    }
    result
}

/// Takes the defaults back for what is sent to an AI, and for nothing else.
pub fn reset_task_ai_overrides(options: &mut ConversionOptions, defaults: &ConversionOptions)
    ensures
        *final(options) == (ConversionOptions {
            llm: defaults.llm,
            summarize: defaults.summarize,
            vision: defaults.vision,
            ..*old(options)
        }),
{
    options.llm = defaults.llm;
    options.summarize = defaults.summarize;
    options.vision = defaults.vision;
}

// -------------------------------------------------------------------- engines

/// The local entry at `index` can be chosen: the automatic one and the processor
/// always, the chosen one as well, and the others where the device is there.
pub open spec fn engine_offered(
    index: usize,
    chosen: usize,
    environment: Option<Environment>,
) -> bool {
    ||| index == 0
    ||| index == 3
    ||| index == chosen
    ||| (environment matches Some(found) && {
        ||| index == 1 && found.apple
        ||| index == 2 && found.gpu is Some
        ||| index == 4 && found.npu
    })
}

fn offers_engine(index: usize, chosen: usize, environment: &Option<Environment>) -> (result: bool)
    ensures
        result == engine_offered(index, chosen, *environment),
{
    index == 0 || index == 3 || index == chosen || match environment {
        Some(found) => (index == 1 && found.apple) || (index == 2 && found.gpu.is_some()) || (index
            == 4 && found.npu),
        None => false,
    }
}

/// The local engines that can be chosen, in the order of the list.
pub open spec fn offered_engines(n: nat, chosen: usize, environment: Option<Environment>) -> Seq<
    usize,
>
    decreases n,
{
    if n == 0 {
        Seq::empty()
    } else {
        let before = offered_engines((n - 1) as nat, chosen, environment);
        if engine_offered((n - 1) as usize, chosen, environment) {
            before.push((n - 1) as usize)
        } else {
            before
        }
    }
}

/// The local engines that can be chosen, in the order of the list.
pub fn engine_choices(chosen: usize, environment: &Option<Environment>) -> (result: Vec<usize>)
    ensures
        result@ == offered_engines(LOCAL_PROVIDERS as nat, chosen, *environment),
{
    let mut result: Vec<usize> = Vec::new();
    let mut index: usize = 0;
    while index < LOCAL_PROVIDERS
        invariant
            index <= LOCAL_PROVIDERS,
            result@ == offered_engines(index as nat, chosen, *environment),
        decreases LOCAL_PROVIDERS - index,
    {
        if offers_engine(index, chosen, environment) {
            result.push(index);
        }
        index += 1;
    }
    result
}

/// A chosen local engine stays on offer, whatever the computer can run.
pub proof fn the_chosen_engine_is_offered(
    n: nat,
    chosen: usize,
    environment: Option<Environment>,
)
    requires
        chosen < n <= usize::MAX,
    ensures
        offered_engines(n, chosen, environment).contains(chosen),
    decreases n,
{
    let m = (n - 1) as nat;
    let all = offered_engines(n, chosen, environment);
    if chosen == m {
        assert(all[all.len() - 1] == chosen);
    } else {
        the_chosen_engine_is_offered(m, chosen, environment);
        let before = offered_engines(m, chosen, environment);
        let i = before.index_of(chosen);
        assert(all[i] == chosen);
    }
}

/// The label of an engine among the choices.
pub fn engine_choice_label(index: usize) -> (result: &'static str)
    requires
        index < LOCAL_PROVIDERS,
    ensures
        result@ == (if index == 0 {
            "应用推荐方式"@
        } else {
            label_of(provider_at(index))
        }),
{
    if index == 0 {
        "应用推荐方式"
    } else {
        provider_label(asr_provider_from_index(index))
    }
}

/// The provider that a local choice stands for; the automatic choice and the
/// service stand for the recommended one.
pub fn actual_local_provider(provider: usize, recommended: AsrProvider) -> (result: AsrProvider)
    ensures
        result == (match provider_at(provider) {
            Some(found) if !(found is Api) => found,
            _ => recommended,
        }),
{
    match provider {
        1 => AsrProvider::Coreml,
        2 => AsrProvider::Gpu,
        3 => AsrProvider::Cpu,
        4 => AsrProvider::Npu,
        _ => recommended,
    }
}

/// The name of the provider that will recognise speech.
pub fn local_engine_name(provider: AsrProvider) -> (result: &'static str)
    ensures
        result@ == (match provider {
            AsrProvider::Api => "识别服务"@,
            _ => label_of(Some(provider)),
        }),
{
    match provider {
        AsrProvider::Api => "识别服务",
        _ => provider_label(Some(provider)),
    }
}

/// The model for recognition: the configured one unless it is blank, else the one
/// that suits a neural processor, else the usual one.
pub open spec fn recognition_model(
    configured: Option<Seq<char>>,
    provider: AsrProvider,
    npu_model: Seq<char>,
) -> Seq<char> {
    match configured {
        Some(model) if !is_blank(model) => model,
        _ => if provider is Npu {
            npu_model
        } else {
            "qwen3-1.7b"@
        },
    }
}

pub fn import_model(configured: &Option<String>, provider: AsrProvider, npu_model: &str) -> (result:
    String)
    ensures
        result@ == recognition_model(
            text_of(*configured),
            provider,
            npu_model@,
        ),
{
    if let Some(model) = configured {
        if !blank(model.as_str()) {
            return model.clone();
        }
    }
    match provider {
        AsrProvider::Npu => npu_model.to_owned(),
        _ => "qwen3-1.7b".to_owned(),
    }
}

// ------------------------------------------------------------------- services

#[derive(Clone, Copy, Debug, PartialEq, Eq, Structural)]
pub enum ServicePurpose {
    Speech,
    Ai,
}

/// The service that must be set up before a conversion can be submitted: speech
/// first. A service counts as ready if one is selected that is not retired.
pub fn missing_import_service(
    options: &ConversionOptions,
    recognises_speech: bool,
    separate_subtitle: bool,
    speech_ready: bool,
    ai_ready: bool,
) -> (result: Option<ServicePurpose>)
    ensures
        result == (if options.provider == CLOUD_PROVIDER_INDEX && recognises_speech && !(
        options.source_mode != 2 && separate_subtitle) && !speech_ready {
            Some(ServicePurpose::Speech)
        } else if (options.llm || options.summarize) && !ai_ready {
            Some(ServicePurpose::Ai)
        } else {
            None
        }),
{
    if options.provider == CLOUD_PROVIDER_INDEX && recognises_speech && !(options.source_mode != 2
        && separate_subtitle) && !speech_ready {
        Some(ServicePurpose::Speech)
    } else if (options.llm || options.summarize) && !ai_ready {
        Some(ServicePurpose::Ai)
    } else {
        None
    }
}

/// How a service is named where it is told where text or sound is sent: its host
/// follows a name of its own.
pub open spec fn destination_of(name: Seq<char>, host: Seq<char>) -> Seq<char> {
    if name == host {
        "「"@ + host + "」"@
    } else {
        "「"@ + name + "」（"@ + host + "）"@
    }
}

pub fn service_destination(name: &str, host: &str) -> (result: String)
    ensures
        result@ == destination_of(name@, host@),
{
    let mut result = "「".to_owned();
    if same(name, host) {
        result.append(host);
        result.append("」");
    } else {
        result.append(name);
        result.append("」（");
        result.append(host);
        result.append("）");
    }
    result
}

// ------------------------------------------------------------------- headings

/// What an idle workbench shows of the conversion options.
#[derive(Clone, Copy, Debug, PartialEq, Eq, Structural)]
pub struct IdleWorkbenchOptionsChrome {
    pub conversion_defaults_callout: bool,
    pub advanced_options_toggle: bool,
}

/// The advanced options are the only disclosure; the defaults live there.
pub fn idle_workbench_options_chrome() -> (result: IdleWorkbenchOptionsChrome)
    ensures
        !result.conversion_defaults_callout,
        result.advanced_options_toggle,
{
    IdleWorkbenchOptionsChrome { conversion_defaults_callout: false, advanced_options_toggle: true }
}

/// Recognition and engine controls stand at the level of the advanced options.
pub fn local_engine_choices_use_nested_disclosure() -> (result: bool)
    ensures
        !result,
{
    false
}

#[derive(Clone, Copy, Debug, PartialEq, Eq, Structural)]
pub enum SectionIcon {
    Movie,
    Subtitles,
    Folder,
    Download,
    Task,
    Info,
}

pub open spec fn icon_of_section(label: Seq<char>) -> SectionIcon {
    if label == "所选视频"@ {
        SectionIcon::Movie
    } else if label == "笔记内容"@ || label == "文字来源"@ {
        SectionIcon::Subtitles
    } else if label == "名称与保存"@ {
        SectionIcon::Folder
    } else if label == "导出与视频"@ {
        SectionIcon::Download
    } else if label == "本次任务"@ {
        SectionIcon::Task
    } else {
        SectionIcon::Info
    }
}

/// The icon of a heading for related conversion options.
pub fn box_section(label: &str) -> (result: SectionIcon)
    ensures
        result == icon_of_section(label@),
{
    if same(label, "所选视频") {
        SectionIcon::Movie
    } else if same(label, "笔记内容") || same(label, "文字来源") {
        SectionIcon::Subtitles
    } else if same(label, "名称与保存") {
        SectionIcon::Folder
    } else if same(label, "导出与视频") {
        SectionIcon::Download
    } else if same(label, "本次任务") {
        SectionIcon::Task
    } else {
        SectionIcon::Info
    }
}

/// What a string feeds into a hasher.
pub uninterp spec fn hash_input(value: Seq<char>) -> Seq<Seq<u8>>;

/// `std::hash::Hash::hash` on a string slice: feeds the string into the hasher,
/// behind what was fed before. What it feeds is a function of the string.
#[verifier::external_body]
fn feed(hasher: &mut DefaultHasher, value: &str)
    ensures
        final(hasher)@ == old(hasher)@ + hash_input(value@),
{
    value.hash(hasher)
}

/// The id of a text element: its kind and the hash of what it says.
pub open spec fn id_of_text(kind: Seq<char>, value: Seq<char>) -> Seq<char> {
    "import-"@ + kind + "-"@ + hexadecimal(DefaultHasher::spec_finish(hash_input(value)) as nat)
}

pub fn text_id(kind: &str, value: &str) -> (result: String)
    ensures
        result@ == id_of_text(kind@, value@),
{
    let mut hasher = DefaultHasher::new();
    feed(&mut hasher, value);
    assert(hasher@ =~= hash_input(value@));
    let mut result = "import-".to_owned();
    result.append(kind);
    result.append("-");
    result.append(hex_number(hasher.finish()).as_str());
    result
}

// ----------------------------------------------------------------------- gate

#[derive(Clone, Copy, Debug, PartialEq, Eq, Structural)]
pub enum ConversionGate {
    Wait,
    Stop,
    Submit,
}

/// What becomes of a start command. Normal asynchronous stages keep it; only an
/// abandoned source or an existing note ends the automatic continuation.
pub open spec fn gate(
    requested_revision: u64,
    current_revision: u64,
    reading: bool,
    has_source: bool,
    needs_text_choice: bool,
    environment_ready: bool,
    library_ready: bool,
    existing_note: bool,
) -> ConversionGate {
    let ready = !needs_text_choice && environment_ready && library_ready;
    if requested_revision != current_revision || (!reading && !has_source) {
        ConversionGate::Stop
    } else if reading || !ready {
        ConversionGate::Wait
    } else if existing_note {
        ConversionGate::Stop
    } else {
        ConversionGate::Submit
    }
}

pub fn conversion_gate(
    requested_revision: u64,
    current_revision: u64,
    reading: bool,
    has_source: bool,
    needs_text_choice: bool,
    environment_ready: bool,
    library_ready: bool,
    existing_note: bool,
) -> (result: ConversionGate)
    ensures
        result == gate(
            requested_revision,
            current_revision,
            reading,
            has_source,
            needs_text_choice,
            environment_ready,
            library_ready,
            existing_note,
        ),
{
    if requested_revision != current_revision {
        ConversionGate::Stop
    } else if reading {
        ConversionGate::Wait
    } else if !has_source {
        ConversionGate::Stop
    } else if needs_text_choice || !environment_ready || !library_ready {
        ConversionGate::Wait
    } else if existing_note {
        ConversionGate::Stop
    } else {
        ConversionGate::Submit
    }
}

/// A conversion is submitted exactly when everything it needs is there, for the
/// revision that was started.
pub proof fn submission_needs_everything(
    requested: u64,
    current: u64,
    reading: bool,
    has_source: bool,
    needs_text_choice: bool,
    environment_ready: bool,
    library_ready: bool,
    existing_note: bool,
)
    ensures
        gate(
            requested,
            current,
            reading,
            has_source,
            needs_text_choice,
            environment_ready,
            library_ready,
            existing_note,
        ) is Submit <==> requested == current && !reading && has_source && !needs_text_choice
            && environment_ready && library_ready && !existing_note,
{
}

/// An existing note is not decided upon before the library has been scanned, and
/// neither is anything else while the source is being read.
pub proof fn nothing_is_decided_early(
    revision: u64,
    reading: bool,
    has_source: bool,
    needs_text_choice: bool,
    environment_ready: bool,
    library_ready: bool,
    existing_note: bool,
)
    requires
        reading || (has_source && !library_ready),
    ensures
        gate(
            revision,
            revision,
            reading,
            has_source,
            needs_text_choice,
            environment_ready,
            library_ready,
            existing_note,
        ) is Wait,
{
}

// ----------------------------------------------------- what the choices stand for

/// The options of a new input say what the settings say: the provider is found again by
/// its place, subtitles alone and speech alone are modes of their own, and each switch is
/// the setting of that name.
pub proof fn options_say_what_the_settings_say(
    config: ConfigFile,
    options: ConversionOptions,
    provider: Option<AsrProvider>,
    cloud: bool,
)
    requires
        call_ensures(ConversionOptions::from_config, (&config,), options),
        call_ensures(asr_provider_from_index, (options.provider,), provider),
        call_ensures(ConversionOptions::uses_cloud_provider, (&options,), cloud),
    ensures
        provider == config.provider,
        cloud <==> config.provider == Some(AsrProvider::Api),
        options.source_mode == 1 <==> config.transcript_source == Some(TranscriptSource::Subtitle),
        options.source_mode == 2 <==> config.transcript_source == Some(TranscriptSource::Asr),
        options.source_mode == 0 <==> config.transcript_source is None || config.transcript_source
            == Some(TranscriptSource::Auto),
        options.llm == config.llm_enabled,
        options.summarize == config.summarize,
        options.vision == config.vision,
        options.keep_video <==> config.keep_video == Some(true),
        options.resume,
        config.formats matches Some(listed) ==> {
            &&& options.formats[0] == listed@.contains(OutputFormat::Md)
            &&& options.formats[1] == listed@.contains(OutputFormat::Html)
            &&& options.formats[2] == listed@.contains(OutputFormat::Json)
        },
        config.formats is None ==> options.formats[0] && options.formats[1] && !options.formats[2],
{
}

/// Each provider has a place and a name of its own, and is found again by its place;
/// what has no place is left to the application.
pub proof fn providers_have_places_and_names(
    a: AsrProvider,
    b: AsrProvider,
    place: usize,
    other: usize,
    found: Option<AsrProvider>,
)
    requires
        call_ensures(AsrProvider::index, (&a,), place),
        call_ensures(AsrProvider::index, (&b,), other),
        call_ensures(asr_provider_from_index, (place,), found),
    ensures
        found == Some(a),
        place == other ==> a == b,
        1 <= place <= 5,
        place == 5 <==> a is Api,
{
}

/// Switching an AI option is seen on that option and on nothing else: proofreading is the
/// language model's switch, screenshots are vision's, and the summary is its own.
pub proof fn a_switch_turns_its_own_option(
    options: &mut ConversionOptions,
    option: ConversionAiOption,
    enabled: bool,
    other: ConversionAiOption,
    seen: bool,
    before: bool,
    after: bool,
)
    requires
        call_ensures(apply_conversion_ai_option, (options, option, enabled), ()),
        call_ensures(conversion_ai_option_enabled, (&*final(options), option), seen),
        call_ensures(conversion_ai_option_enabled, (&*old(options), other), before),
        call_ensures(conversion_ai_option_enabled, (&*final(options), other), after),
    ensures
        seen == enabled,
        other != option ==> after == before,
        option is Proofread ==> *final(options) == (ConversionOptions {
            llm: enabled,
            ..*old(options)
        }),
        option is Vision ==> *final(options) == (ConversionOptions {
            vision: enabled,
            ..*old(options)
        }),
        option is Summary ==> *final(options) == (ConversionOptions {
            summarize: enabled,
            ..*old(options)
        }),
{
}

/// Where speech is recognised changes the provider and nothing else: in the cloud, or by
/// the engine that is given.
pub proof fn the_place_of_recognition_is_the_provider(
    options: &mut ConversionOptions,
    cloud: bool,
    local: usize,
    found: Option<AsrProvider>,
)
    requires
        call_ensures(apply_speech_location, (options, cloud, local), ()),
        call_ensures(asr_provider_from_index, (final(options).provider,), found),
    ensures
        cloud ==> found == Some(AsrProvider::Api),
        !cloud ==> final(options).provider == local,
        *final(options) == (ConversionOptions { provider: final(options).provider, ..*old(options) }),
{
}

/// Choosing where the text comes from changes that and nothing else.
pub proof fn the_text_source_is_the_mode(options: &mut ConversionOptions, mode: usize)
    requires
        call_ensures(apply_text_source_mode, (options, mode), ()),
    ensures
        final(options).source_mode == mode,
        final(options).provider == old(options).provider,
        final(options).llm == old(options).llm,
        final(options).summarize == old(options).summarize,
        final(options).vision == old(options).vision,
        final(options).keep_video == old(options).keep_video,
        final(options).formats == old(options).formats,
{
}

/// Taking the AI options back to the defaults leaves no difference in them, and every
/// other choice as it was. A difference in one of them alone is seen.
pub proof fn taking_back_leaves_no_difference(
    options: &mut ConversionOptions,
    defaults: ConversionOptions,
    before: bool,
    after: bool,
)
    requires
        call_ensures(ai_overridden, (&*old(options), &defaults), before),
        call_ensures(reset_task_ai_overrides, (options, &defaults), ()),
        call_ensures(ai_overridden, (&*final(options), &defaults), after),
    ensures
        !after,
        before <==> old(options).llm != defaults.llm || old(options).vision != defaults.vision
            || old(options).summarize != defaults.summarize,
        final(options).llm == defaults.llm,
        final(options).vision == defaults.vision,
        final(options).summarize == defaults.summarize,
        final(options).provider == old(options).provider,
        final(options).source_mode == old(options).source_mode,
        final(options).keep_video == old(options).keep_video,
        final(options).formats == old(options).formats,
{
    let options_before = *old(options);
    let options_after = *final(options);
    assert(forall|option: ConversionAiOption|
        ai_option(options_after, option) == ai_option(defaults, option));
    let given = (&options_before, &defaults);
    assert(ai_option(*given.0, ConversionAiOption::Proofread) == options_before.llm);
    assert(ai_option(*given.0, ConversionAiOption::Vision) == options_before.vision);
    assert(ai_option(*given.0, ConversionAiOption::Summary) == options_before.summarize);
    assert(ai_option(*given.1, ConversionAiOption::Proofread) == defaults.llm);
    assert(ai_option(*given.1, ConversionAiOption::Vision) == defaults.vision);
    assert(ai_option(*given.1, ConversionAiOption::Summary) == defaults.summarize);
}

proof fn offered_is(n: nat, chosen: usize, environment: Option<Environment>, index: usize)
    requires
        n <= usize::MAX,
    ensures
        offered_engines(n, chosen, environment).contains(index) <==> index < n && engine_offered(
            index,
            chosen,
            environment,
        ),
    decreases n,
{
    let all = offered_engines(n, chosen, environment);
    if n > 0 {
        let m = (n - 1) as nat;
        offered_is(m, chosen, environment, index);
        let before = offered_engines(m, chosen, environment);
        if all.contains(index) {
            let k = choose|k: int| 0 <= k < all.len() && all[k] == index;
            if k < before.len() {
                assert(before[k] == index);
            }
        }
        if index < n && engine_offered(index, chosen, environment) {
            if index < m {
                let k = choose|k: int| 0 <= k < before.len() && before[k] == index;
                assert(all[k] == index);
            } else {
                assert(all[before.len() as int] == index);
            }
        }
    }
}

/// The engines that are offered: the recommendation and the processor always, the chosen
/// one so that it can be seen, and any other only where this computer has it. The cloud is
/// no engine.
pub proof fn engines_are_offered_where_they_are(
    chosen: usize,
    environment: Option<Environment>,
    offered: Vec<usize>,
)
    requires
        call_ensures(engine_choices, (chosen, &environment), offered),
    ensures
        offered@.contains(0) && offered@.contains(3),
        chosen < 5 ==> offered@.contains(chosen),
        !offered@.contains(5),
        chosen != 1 ==> (offered@.contains(1) <==> environment is Some && environment->0.apple),
        chosen != 2 ==> (offered@.contains(2) <==> environment is Some && environment->0.gpu
            is Some),
        chosen != 4 ==> (offered@.contains(4) <==> environment is Some && environment->0.npu),
{
    offered_is(LOCAL_PROVIDERS as nat, chosen, environment, 0);
    offered_is(LOCAL_PROVIDERS as nat, chosen, environment, 1);
    offered_is(LOCAL_PROVIDERS as nat, chosen, environment, 2);
    offered_is(LOCAL_PROVIDERS as nat, chosen, environment, 3);
    offered_is(LOCAL_PROVIDERS as nat, chosen, environment, 4);
    offered_is(LOCAL_PROVIDERS as nat, chosen, environment, 5);
    offered_is(LOCAL_PROVIDERS as nat, chosen, environment, chosen);
}

/// The engine that does the work is the chosen one, and the recommended one where none is
/// chosen; the cloud never does it on this computer.
pub proof fn the_chosen_engine_works(chosen: AsrProvider, place: usize, recommended: AsrProvider, works: AsrProvider)
    requires
        call_ensures(AsrProvider::index, (&chosen,), place),
        call_ensures(actual_local_provider, (place, recommended), works),
    ensures
        !(chosen is Api) ==> works == chosen,
        chosen is Api ==> works == recommended,
{
}

/// Where no place is chosen the recommended engine does the work.
pub proof fn the_recommended_engine_works(recommended: AsrProvider, works: AsrProvider)
    requires
        call_ensures(actual_local_provider, (0, recommended), works),
    ensures
        works == recommended,
{
}

/// An engine is remembered only where it is one of this computer's.
pub proof fn only_local_engines_are_remembered(remembered: Option<usize>, result: usize)
    requires
        call_ensures(remembered_local_provider, (remembered,), result),
    ensures
        result < 5,
        remembered is Some && remembered->0 < 5 ==> result == remembered->0,
        remembered is None ==> result == 0,
{
}

/// A service is missed only where it would be used: for speech where the cloud is to
/// recognise it and no subtitle takes its place, for AI where a text is to be corrected or
/// summed up. What is ready is never missed, and speech comes first.
pub proof fn only_used_services_are_missed(
    options: ConversionOptions,
    recognises: bool,
    subtitle: bool,
    speech_ready: bool,
    ai_ready: bool,
    missing: Option<ServicePurpose>,
)
    requires
        call_ensures(
            missing_import_service,
            (&options, recognises, subtitle, speech_ready, ai_ready),
            missing,
        ),
    ensures
        missing == Some(ServicePurpose::Speech) ==> !speech_ready && recognises && options.provider
            == 5 && (options.source_mode == 2 || !subtitle),
        missing == Some(ServicePurpose::Ai) ==> !ai_ready && (options.llm || options.summarize),
        speech_ready && ai_ready ==> missing is None,
        !speech_ready && recognises && options.provider == 5 && !subtitle ==> missing == Some(
            ServicePurpose::Speech,
        ),
        !speech_ready && recognises && options.provider == 5 && options.source_mode == 2 ==> missing
            == Some(ServicePurpose::Speech),
        !ai_ready && (options.llm || options.summarize) ==> missing is Some,
{
}

/// A model that is configured is used, whatever the engine; otherwise every engine but the
/// neural one has the same.
pub proof fn a_configured_model_is_used(
    configured: Option<String>,
    provider: AsrProvider,
    npu_model: &str,
    model: String,
)
    requires
        call_ensures(import_model, (&configured, provider, npu_model), model),
    ensures
        configured is Some && !is_blank(configured->0@) ==> model@ == configured->0@,
        configured is None && provider is Npu ==> model@ == npu_model@,
        configured is None && !(provider is Npu) ==> model@ == "qwen3-1.7b"@,
        configured is Some && is_blank(configured->0@) && provider is Npu ==> model@ == npu_model@,
{
}

/// A conversion goes on only for the input it was asked for: whatever else holds, a change
/// of the input ends it, and so does an input that could not be read.
pub proof fn another_input_ends_the_conversion(
    requested: u64,
    current: u64,
    reading: bool,
    has_source: bool,
    needs_text_choice: bool,
    environment_ready: bool,
    library_ready: bool,
    existing_note: bool,
    result: ConversionGate,
)
    requires
        call_ensures(
            conversion_gate,
            (
                requested,
                current,
                reading,
                has_source,
                needs_text_choice,
                environment_ready,
                library_ready,
                existing_note,
            ),
            result,
        ),
    ensures
        requested != current ==> result is Stop,
        !reading && !has_source ==> result is Stop,
        requested == current && reading ==> result is Wait,
        requested == current && has_source && (needs_text_choice || !environment_ready
            || !library_ready) ==> result is Wait,
        result is Submit ==> !existing_note && has_source && !reading,
        requested == current && !reading && has_source && !needs_text_choice && environment_ready
            && library_ready ==> (result is Stop <==> existing_note),
        requested == current && !reading && has_source && !needs_text_choice && environment_ready
            && library_ready ==> (result is Submit <==> !existing_note),
{
}

} // verus!
