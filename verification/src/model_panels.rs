//! The panels about speech models: whether a model is ready, what is being prepared,
//! and what this computer can do.
use crate::account::BadgeKind;
use crate::conversion::AsrProvider;
use crate::environment::Environment;
use crate::model_diagnostics::{
    available_among, available_providers, badge_texts, cache_state_texts, device_problem,
    is_available, local_providers, model_device_issue, model_name, name_of_model, name_of_provider, prepare_label,
    provider_name, repair_for, model_runtime_repair, CachePart, CacheState, PrepareButton, Request, RuntimeRepair,
    State,
};
use crate::text::{
    begins, contains, holds, join2, join3, join_all, join_texts, joined, slices, starts_with, texts,
};
use crate::workspace::text_of;
use vstd::prelude::*;
use vstd::string::*;

verus! {

/// One part of a model in the cache.
pub struct PartView {
    pub name: String,
    pub path: String,
    /// The label of the button that opens its directory, where that is there.
    pub open_label: Option<String>,
    /// What it lacks.
    pub missing: Option<String>,
}

/// What a model takes on disk.
pub struct CacheView {
    pub toggle: &'static str,
    pub open: bool,
    /// The size, where it is not nothing.
    pub bytes: Option<u64>,
    pub parts: Vec<PartView>,
}

/// The button that stops a preparation.
pub struct StopButton {
    pub label: &'static str,
    pub disabled: bool,
}

/// The panel of a model.
pub struct ModelPanel {
    pub provider: &'static str,
    pub model: String,
    pub device_issue: Option<&'static str>,
    pub repair: RuntimeRepair,
    pub checking: bool,
    pub check_error: Option<String>,
    pub state: Option<(BadgeKind, &'static str, &'static str)>,
    pub cache: Option<CacheView>,
    pub last_error: Option<String>,
    /// What is being prepared, while it is.
    pub active: Option<String>,
    /// How far the stages of the preparation are.
    pub progress: Vec<ProgressLine>,
    pub stop: Option<StopButton>,
    pub recheck_disabled: bool,
    pub prepare: Option<PrepareButton>,
    pub prepare_label: Option<String>,
    /// A preparation may download the model.
    pub network_note: bool,
}

/// A part is shown like this.
pub open spec fn shows_part(part: CachePart, view: PartView) -> bool {
    &&& view.name@ == part.name@
    &&& view.path@ == part.path@
    &&& text_of(view.open_label) == (if part.is_directory {
        Some("打开 "@ + part.name@ + " 的缓存位置："@ + part.path@)
    } else {
        None
    })
    &&& text_of(view.missing) == (if part.missing@.len() > 0 {
        Some("缺少或尚未验证："@ + joined(texts(part.missing@), "、"@))
    } else {
        None
    })
}

fn part_view(part: &CachePart) -> (result: PartView)
    ensures
        shows_part(*part, result),
{
    PartView {
        name: part.name.clone(),
        path: part.path.clone(),
        open_label: if part.is_directory {
            let mut label = "打开 ".to_owned();
            label.append(part.name.as_str());
            label.append(" 的缓存位置：");
            label.append(part.path.as_str());
            Some(label)
        } else {
            None
        },
        missing: if part.missing.len() > 0 {
            Some(join2("缺少或尚未验证：", join_texts(&part.missing, "、").as_str()))
        } else {
            None
        },
    }
}

fn part_views(parts: &Vec<CachePart>) -> (result: Vec<PartView>)
    ensures
        result@.len() == parts@.len(),
        forall|i: int| 0 <= i < parts@.len() ==> shows_part(parts@[i], #[trigger] result@[i]),
{
    let mut result: Vec<PartView> = Vec::new();
    let mut i: usize = 0;
    while i < parts.len()
        invariant
            i <= parts@.len(),
            result@.len() == i,
            forall|j: int| 0 <= j < i ==> shows_part(parts@[j], #[trigger] result@[j]),
        decreases parts@.len() - i,
    {
        result.push(part_view(&parts[i]));
        i += 1;
    }
    result
}

/// A stage of the engine, with its title and what is said of how far it is.
pub struct StageProgress {
    pub stage: String,
    pub title: String,
    pub detail: String,
    /// It has begun to count.
    pub has_samples: bool,
    pub done: bool,
}

/// A line about a stage, and the place of that stage among all.
pub struct ProgressLine {
    pub place: usize,
    pub text: String,
}

/// Whether a stage of the engine is shown while a model is prepared: it is about a
/// model or a download, has begun to count, and is not done.
pub open spec fn is_model_stage(stage: Seq<char>, has_samples: bool, done: bool) -> bool {
    (begins(stage, "model"@) || holds(stage, "download"@)) && has_samples && !done
}

/// The lines about the first `n` stages, in the order of the stages.
pub open spec fn model_lines(progress: Seq<StageProgress>, n: nat) -> Seq<(usize, Seq<char>)>
    decreases n,
{
    if n == 0 {
        Seq::empty()
    } else {
        let before = model_lines(progress, (n - 1) as nat);
        let own = progress[n - 1];
        if is_model_stage(own.stage@, own.has_samples, own.done) {
            before.push(((n - 1) as usize, own.title@ + " · "@ + own.detail@))
        } else {
            before
        }
    }
}

pub open spec fn line_views(lines: Seq<ProgressLine>) -> Seq<(usize, Seq<char>)> {
    lines.map_values(|line: ProgressLine| (line.place, line.text@))
}

fn progress_lines(progress: &Vec<StageProgress>) -> (result: Vec<ProgressLine>)
    ensures
        line_views(result@) == model_lines(progress@, progress@.len()),
{
    let mut result: Vec<ProgressLine> = Vec::new();
    let mut i: usize = 0;
    assert(line_views(result@) =~= Seq::empty());
    while i < progress.len()
        invariant
            i <= progress@.len(),
            line_views(result@) == model_lines(progress@, i as nat),
        decreases progress@.len() - i,
    {
        let own = &progress[i];
        let ghost before = line_views(result@);
        if shows_model_stage(own.stage.as_str(), own.has_samples, own.done) {
            let text = join3(own.title.as_str(), " · ", own.detail.as_str());
            result.push(ProgressLine { place: i, text });
            assert(line_views(result@) =~= before.push((i, text@)));
        }
        i += 1;
    }
    result
}

/// What else is under way.
#[derive(Clone, Copy)]
pub struct EngineUse {
    /// The engine is at work.
    pub job: bool,
    /// It was last asked to prepare a model.
    pub models: bool,
    /// It was told to stop.
    pub cancelling: bool,
}

impl State {
    /// This request is being prepared.
    pub open spec fn is_active(self, request: Request, engine: EngineUse) -> bool {
        engine.models && engine.job && self.preparing is Some && self.preparing->0.id()
            == request.id()
    }

    /// Why the check of a request failed.
    pub open spec fn error_of(self, request: Request) -> Option<Seq<char>> {
        if self.entries.map().contains_key(request.id()) {
            match self.entries.map()[request.id()].result {
                Some(Err(error)) => Some(error@),
                _ => None,
            }
        } else {
            None
        }
    }

    pub open spec fn is_panel(
        self,
        request: Request,
        environment: Option<Environment>,
        apple_silicon: bool,
        engine: EngineUse,
        progress: Seq<StageProgress>,
        panel: ModelPanel,
    ) -> bool {
        let key = request.id();
        let known = self.entries.map().contains_key(key);
        let issue = match environment {
            Some(found) => device_problem(found, request.provider, apple_silicon),
            None => None,
        };
        let active = self.is_active(request, engine);
        let status = self.status_of(request);
        let loaded = status is Some && status->0.state is Loaded;
        &&& panel.provider@ == name_of_provider(request.provider)
        &&& panel.model@ == name_of_model(request.model@)
        &&& match panel.device_issue {
            Some(told) => issue == Some(told@),
            None => issue is None,
        }
        &&& panel.repair == (if issue is Some {
            repair_for(environment, request.provider, apple_silicon)
        } else {
            RuntimeRepair::Nothing
        })
        &&& panel.checking == (!known || self.entries.map()[key].checking)
        &&& text_of(panel.check_error) == (match self.error_of(request) {
            Some(error) => Some("模型缓存检查未完成："@ + error),
            None => None,
        })
        &&& match panel.state {
            Some((kind, label, line)) => status is Some && (kind, label@, line@) == badge_texts(
                status->0.state,
            ),
            None => status is None,
        }
        &&& match panel.cache {
            Some(cache) => {
                let parts = self.entries.map()[key].parts@;
                &&& status is Some
                &&& cache.open == self.cache_details.map().contains_key(key)
                &&& cache.toggle@ == (if cache.open {
                    "收起缓存详情"@
                } else {
                    "查看缓存详情"@
                })
                &&& cache.bytes == (if status->0.bytes > 0 {
                    Some(status->0.bytes)
                } else {
                    None
                })
                &&& cache.parts@.len() == parts.len()
                &&& forall|i: int|
                    0 <= i < parts.len() ==> shows_part(parts[i], #[trigger] cache.parts@[i])
            },
            None => status is None,
        }
        &&& text_of(panel.last_error) == (match status {
            Some(own) => match own.last_error {
                Some(error) => Some("未完成："@ + error@),
                None => None,
            },
            None => None,
        })
        &&& text_of(panel.active) == (if active {
            Some("正在准备 "@ + request.model@)
        } else {
            None
        })
        &&& line_views(panel.progress@) == (if active {
            model_lines(progress, progress.len())
        } else {
            Seq::empty()
        })
        &&& match panel.stop {
            Some(button) => active && button.disabled == engine.cancelling && button.label@ == (
            if engine.cancelling {
                "正在停止…"@
            } else {
                "暂停准备"@
            }),
            None => !active,
        }
        &&& panel.recheck_disabled == (panel.checking || active)
        &&& panel.prepare is Some == (!active && environment is Some && issue is None && status
            is Some && status->0.can_prepare)
        &&& panel.prepare matches Some(button) ==> {
            &&& button.label@ == prepare_label(status->0.state, request.provider)
            &&& button.primary == !loaded
            &&& button.disabled == engine.job
            &&& button.waits_for_job == (engine.job && !loaded)
        }
        &&& text_of(panel.prepare_label) == (match panel.prepare {
            Some(button) => Some(
                button.label@ + "："@ + name_of_provider(request.provider) + " · "@
                    + request.model@,
            ),
            None => None,
        })
        &&& panel.network_note == (panel.prepare is Some && !loaded)
    }

    /// The panel of a model: how it is recognised with, what is known of it, how far its
    /// preparation is, and what can be done. `progress` are the stages of the engine.
    pub fn model_readiness_panel(
        &self,
        request: &Request,
        environment: Option<&Environment>,
        apple_silicon: bool,
        engine: EngineUse,
        progress: &Vec<StageProgress>,
    ) -> (result: ModelPanel)
        requires
            self.wf(),
        ensures
            self.is_panel(
                *request,
                match environment {
                    Some(found) => Some(*found),
                    None => None,
                },
                apple_silicon,
                engine,
                progress@,
                result,
            ),
    {
        let key = request.key();
        let device_issue = model_device_issue(environment, request.provider, apple_silicon);
        let repair = if device_issue.is_some() {
            model_runtime_repair(environment, request.provider, apple_silicon)
        } else {
            RuntimeRepair::Nothing
        };
        let ready = self.readiness(
            request,
            environment.is_some(),
            device_issue.is_some(),
            engine.job,
            engine.models,
        );
        let mut check_error: Option<String> = None;
        let mut state: Option<(BadgeKind, &'static str, &'static str)> = None;
        let mut cache: Option<CacheView> = None;
        let mut last_error: Option<String> = None;
        let mut loaded = false;
        if let Some(entry) = self.entries.get(&key) {
            match &entry.result {
                Some(Ok(status)) => {
                    let open = self.cache_details.contains(&key);
                    loaded = matches!(status.state, CacheState::Loaded);
                    state = Some(cache_state_texts(status.state));
                    cache = Some(
                        CacheView {
                            toggle: if open {
                                "收起缓存详情"
                            } else {
                                "查看缓存详情"
                            },
                            open,
                            bytes: if status.bytes > 0 {
                                Some(status.bytes)
                            } else {
                                None
                            },
                            parts: part_views(&entry.parts),
                        },
                    );
                    if let Some(error) = &status.last_error {
                        last_error = Some(join2("未完成：", error.as_str()));
                    }
                },
                Some(Err(error)) => {
                    check_error = Some(join2("模型缓存检查未完成：", error.as_str()));
                },
                None => {},
            }
        }
        let provider = provider_name(request.provider);
        let prepare_label = match &ready.prepare {
            Some(button) => {
                let mut label = button.label.to_owned();
                label.append("：");
                label.append(provider);
                label.append(" · ");
                label.append(request.model.as_str());
                Some(label)
            },
            None => None,
        };
        let network_note = ready.prepare.is_some() && !loaded;
        let lines = if ready.active {
            progress_lines(progress)
        } else {
            Vec::new()
        };
        assert(!ready.active ==> line_views(lines@) =~= Seq::empty());
        ModelPanel {
            provider,
            model: model_name(request.model.as_str()),
            device_issue,
            repair,
            checking: ready.checking,
            check_error,
            state,
            cache,
            last_error,
            active: if ready.active {
                Some(join2("正在准备 ", request.model.as_str()))
            } else {
                None
            },
            progress: lines,
            stop: if ready.active {
                Some(
                    StopButton {
                        label: if engine.cancelling {
                            "正在停止…"
                        } else {
                            "暂停准备"
                        },
                        disabled: engine.cancelling,
                    },
                )
            } else {
                None
            },
            recheck_disabled: ready.recheck_disabled,
            prepare: ready.prepare,
            prepare_label,
            network_note,
        }
    }
}

/// Whether a stage of the engine is shown while a model is prepared: it is about a
/// model or a download, has begun to count, and is not done.
pub fn shows_model_stage(stage: &str, has_samples: bool, done: bool) -> (result: bool)
    ensures
        result == is_model_stage(stage@, has_samples, done),
{
    (starts_with(stage, "model") || contains(stage, "download")) && has_samples && !done
}

// ----------------------------------------------------------------- all models

/// The page about models.
pub struct DiagnosticsPanel {
    /// The default model is a service; there is nothing on this computer.
    pub by_service: bool,
    /// Another model than the default is being prepared.
    pub other_active: bool,
    /// How the last preparation ended, and whether that was an error.
    pub notice: Option<(String, bool)>,
    /// The label of the button that opens the log.
    pub details_toggle: Option<&'static str>,
    pub log: Option<String>,
}

impl State {
    pub fn model_diagnostics_panel(
        &self,
        default: &Request,
        engine: EngineUse,
        logs: &Vec<String>,
    ) -> (result: DiagnosticsPanel)
        ensures
            result.by_service == (default.provider is Api),
            result.other_active == (engine.models && engine.job && self.preparing is Some
                && self.preparing->0.id() != default.id()),
            match result.notice {
                Some((message, error)) => self.result is Some && message@ == (self.result->0).0@
                    && error == (self.result->0).1,
                None => self.result is None,
            },
            ({
                let has_log = self.preparing is Some && logs@.len() > 0 && engine.models;
                &&& match result.details_toggle {
                    Some(label) => has_log && label@ == (if self.details {
                        "收起准备详情"@
                    } else {
                        "查看准备详情"@
                    }),
                    None => !has_log,
                }
                &&& text_of(result.log) == (if has_log && self.details {
                    Some(joined(texts(logs@), "\n"@))
                } else {
                    None
                })
            }),
    {
        let other_active = engine.models && engine.job && match &self.preparing {
            Some(own) => own.key() != default.key(),
            None => false,
        };
        let notice = match &self.result {
            Some((message, error)) => Some((message.clone(), *error)),
            None => None,
        };
        let has_log = self.preparing.is_some() && logs.len() > 0 && engine.models;
        DiagnosticsPanel {
            by_service: matches!(default.provider, AsrProvider::Api),
            other_active,
            notice,
            details_toggle: if has_log {
                Some(
                    if self.details {
                        "收起准备详情"
                    } else {
                        "查看准备详情"
                    },
                )
            } else {
                None
            },
            log: if has_log && self.details {
                Some(join_texts(logs, "\n"))
            } else {
                None
            },
        }
    }
}

// ------------------------------------------------------------------- hardware

/// A line about a device or a runtime.
pub struct HardwareRow {
    pub id: &'static str,
    pub label: &'static str,
    pub value: String,
}

/// The lines about devices and runtimes, in order.
#[derive(Clone, Copy, Debug, PartialEq, Eq, Structural)]
pub enum Hardware {
    Cpu,
    ApplePlatform,
    Gpu,
    NpuDevice,
    NpuRuntime,
    AppleRuntime,
}

/// The line is shown: Apple's on a Mac, those of the neural processor elsewhere or
/// where it was chosen.
pub open spec fn is_relevant(line: Hardware, mac: bool, chosen: AsrProvider) -> bool {
    match line {
        Hardware::ApplePlatform | Hardware::AppleRuntime => mac,
        Hardware::NpuDevice | Hardware::NpuRuntime => !mac || chosen is Npu,
        _ => true,
    }
}

pub open spec fn hardware_lines() -> Seq<Hardware> {
    seq![
        Hardware::Cpu,
        Hardware::ApplePlatform,
        Hardware::Gpu,
        Hardware::NpuDevice,
        Hardware::NpuRuntime,
        Hardware::AppleRuntime,
    ]
}

/// What a line says: its id, its label and its value.
pub open spec fn hardware_text(
    line: Hardware,
    environment: Environment,
    architecture: Seq<char>,
    apple_silicon: bool,
) -> (Seq<char>, Seq<char>, Seq<char>) {
    match line {
        Hardware::Cpu => ("cpu-device"@, "CPU 架构"@, architecture),
        Hardware::ApplePlatform => (
            "apple-device"@,
            "Apple 平台"@,
            if apple_silicon {
                "原生运行于 Apple 芯片"@
            } else {
                "当前平台不适用"@
            },
        ),
        Hardware::Gpu => (
            "gpu-device"@,
            "GPU"@,
            match environment.gpu {
                Some(name) => name@,
                None => if environment.llama {
                    "识别运行时未报告可用设备"@
                } else {
                    "缺少 llama-server，尚无法检查"@
                },
            },
        ),
        Hardware::NpuDevice => (
            "npu-device"@,
            "Intel NPU"@,
            if environment.npu_device {
                "已检测到设备"@
            } else {
                "未检测到设备"@
            },
        ),
        Hardware::NpuRuntime => (
            "npu-runtime"@,
            "NPU 启动器"@,
            if environment.npu_runtime {
                "已找到；首次准备时验证 OpenVINO 及设备编译"@
            } else {
                "未找到 uv 或 Python"@
            },
        ),
        Hardware::AppleRuntime => (
            "apple-runtime"@,
            "Apple 识别程序"@,
            if environment.apple {
                "已检测到原生运行时与 Metal 资源"@
            } else {
                "未检测到完整运行时与 Metal 资源"@
            },
        ),
    }
}

impl View for HardwareRow {
    type V = (Seq<char>, Seq<char>, Seq<char>);

    open spec fn view(&self) -> (Seq<char>, Seq<char>, Seq<char>) {
        (self.id@, self.label@, self.value@)
    }
}

fn hardware_row(
    line: Hardware,
    environment: &Environment,
    architecture: &str,
    apple_silicon: bool,
) -> (result: HardwareRow)
    ensures
        result@ == hardware_text(line, *environment, architecture@, apple_silicon),
{
    let (id, label, value) = match line {
        Hardware::Cpu => ("cpu-device", "CPU 架构", architecture),
        Hardware::ApplePlatform => (
            "apple-device",
            "Apple 平台",
            if apple_silicon {
                "原生运行于 Apple 芯片"
            } else {
                "当前平台不适用"
            },
        ),
        Hardware::Gpu => (
            "gpu-device",
            "GPU",
            match &environment.gpu {
                Some(name) => name.as_str(),
                None => if environment.llama {
                    "识别运行时未报告可用设备"
                } else {
                    "缺少 llama-server，尚无法检查"
                },
            },
        ),
        Hardware::NpuDevice => (
            "npu-device",
            "Intel NPU",
            if environment.npu_device {
                "已检测到设备"
            } else {
                "未检测到设备"
            },
        ),
        Hardware::NpuRuntime => (
            "npu-runtime",
            "NPU 启动器",
            if environment.npu_runtime {
                "已找到；首次准备时验证 OpenVINO 及设备编译"
            } else {
                "未找到 uv 或 Python"
            },
        ),
        Hardware::AppleRuntime => (
            "apple-runtime",
            "Apple 识别程序",
            if environment.apple {
                "已检测到原生运行时与 Metal 资源"
            } else {
                "未检测到完整运行时与 Metal 资源"
            },
        ),
    };
    HardwareRow { id, label, value: value.to_owned() }
}

/// The lines that are shown, among the first `n`.
pub open spec fn relevant_lines(n: nat, mac: bool, chosen: AsrProvider) -> Seq<Hardware>
    decreases n,
{
    if n == 0 {
        Seq::empty()
    } else {
        let before = relevant_lines((n - 1) as nat, mac, chosen);
        if is_relevant(hardware_lines()[n - 1], mac, chosen) {
            before.push(hardware_lines()[n - 1])
        } else {
            before
        }
    }
}

/// What this computer can do.
pub struct HardwareView {
    pub rows: Vec<HardwareRow>,
    /// The ways of recognition that work, in one line.
    pub available: Option<String>,
    /// The ways that can be used in place of a default that does not work.
    pub alternatives: Vec<AsrProvider>,
}

/// The names of ways of recognition.
pub open spec fn provider_names(providers: Seq<AsrProvider>) -> Seq<Seq<char>> {
    Seq::new(providers.len(), |i: int| name_of_provider(providers[i]))
}

/// Those of the first `n` local ways that work, other than the chosen one.
pub open spec fn other_ways(environment: Environment, chosen: AsrProvider, n: nat) -> Seq<AsrProvider>
    decreases n,
{
    if n == 0 {
        Seq::empty()
    } else {
        let before = other_ways(environment, chosen, (n - 1) as nat);
        let way = local_providers()[n - 1];
        if is_available(environment, way) && way != chosen {
            before.push(way)
        } else {
            before
        }
    }
}

/// The local ways that work, other than the chosen one.
fn other_providers(environment: &Environment, chosen: AsrProvider) -> (result: Vec<AsrProvider>)
    ensures
        result@ == other_ways(*environment, chosen, 4),
{
    reveal_with_fuel(other_ways, 5);
    let mut result: Vec<AsrProvider> = Vec::new();
    if environment.apple && chosen != AsrProvider::Coreml {
        result.push(AsrProvider::Coreml);
    }
    if environment.gpu.is_some() && environment.llama && chosen != AsrProvider::Gpu {
        result.push(AsrProvider::Gpu);
    }
    if environment.llama && chosen != AsrProvider::Cpu {
        result.push(AsrProvider::Cpu);
    }
    if environment.npu && chosen != AsrProvider::Npu {
        result.push(AsrProvider::Npu);
    }
    result
}

/// What this computer can do; nothing before it was looked at. `chosen` is the way of
/// recognition of the default model.
pub fn model_hardware_details(
    environment: Option<&Environment>,
    chosen: AsrProvider,
    architecture: &str,
    mac: bool,
    apple_silicon: bool,
) -> (result: Option<HardwareView>)
    ensures
        result is Some == environment is Some,
        result matches Some(view) ==> {
            let found = *environment->0;
            let lines = relevant_lines(6, mac, chosen);
            let ways = available_among(found, 4);
            &&& view.rows@.len() == lines.len()
            &&& forall|i: int|
                0 <= i < lines.len() ==> (#[trigger] view.rows@[i])@ == hardware_text(
                    lines[i],
                    found,
                    architecture@,
                    apple_silicon,
                )
            &&& text_of(view.available) == (if ways.len() > 0 {
                Some(joined(provider_names(ways), "、"@))
            } else {
                None
            })
            &&& view.alternatives@ == (if device_problem(found, chosen, apple_silicon) is Some {
                other_ways(found, chosen, 4)
            } else {
                Seq::empty()
            })
        },
{
    let found = match environment {
        Some(found) => found,
        None => {
            return None;
        },
    };
    let lines = [
        Hardware::Cpu,
        Hardware::ApplePlatform,
        Hardware::Gpu,
        Hardware::NpuDevice,
        Hardware::NpuRuntime,
        Hardware::AppleRuntime,
    ];
    assert(lines@ =~= hardware_lines());
    let mut rows: Vec<HardwareRow> = Vec::new();
    let mut i: usize = 0;
    while i < 6
        invariant
            i <= 6,
            lines@ == hardware_lines(),
            lines@.len() == 6,
            rows@.len() == relevant_lines(i as nat, mac, chosen).len(),
            forall|j: int|
                0 <= j < rows@.len() ==> (#[trigger] rows@[j])@ == hardware_text(
                    relevant_lines(i as nat, mac, chosen)[j],
                    *found,
                    architecture@,
                    apple_silicon,
                ),
        decreases 6 - i,
    {
        let line = lines[i];
        let relevant = match line {
            Hardware::ApplePlatform | Hardware::AppleRuntime => mac,
            Hardware::NpuDevice | Hardware::NpuRuntime => !mac || matches!(
                chosen,
                AsrProvider::Npu
            ),
            _ => true,
        };
        if relevant {
            rows.push(hardware_row(line, found, architecture, apple_silicon));
        }
        i += 1;
    }
    let ways = available_providers(found);
    let mut names: Vec<&str> = Vec::new();
    let mut k: usize = 0;
    while k < ways.len()
        invariant
            k <= ways@.len(),
            names@.len() == k,
            forall|j: int| 0 <= j < k ==> (#[trigger] names@[j])@ == name_of_provider(ways@[j]),
        decreases ways@.len() - k,
    {
        names.push(provider_name(ways[k]));
        k += 1;
    }
    assert(slices(names@) =~= provider_names(ways@));
    let alternatives = if model_device_issue(environment, chosen, apple_silicon).is_some() {
        other_providers(found, chosen)
    } else {
        Vec::new()
    };
    let available = if names.is_empty() {
        None
    } else {
        Some(join_all(&names, "、"))
    };
    Some(HardwareView { rows, available, alternatives })
}

/// A way that is offered in place of the chosen one works on this computer, and is
/// another one.
pub proof fn alternatives_work(environment: Environment, chosen: AsrProvider, n: nat, i: int)
    requires
        n <= 4,
        0 <= i < other_ways(environment, chosen, n).len(),
    ensures
        is_available(environment, other_ways(environment, chosen, n)[i]),
        other_ways(environment, chosen, n)[i] != chosen,
    decreases n,
{
    let before = other_ways(environment, chosen, (n - 1) as nat);
    if i < before.len() {
        alternatives_work(environment, chosen, (n - 1) as nat, i);
        assert(other_ways(environment, chosen, n)[i] == before[i]);
    }
}

/// A panel offers to stop exactly while its model is prepared, and to prepare it only where that
/// is not so, this computer can do it, and the model can be prepared. Stages are shown only while
/// it is prepared.
pub proof fn a_panel_offers_what_can_be_done(
    state: State,
    request: Request,
    environment: Option<&Environment>,
    apple_silicon: bool,
    engine: EngineUse,
    progress: Vec<StageProgress>,
    panel: ModelPanel,
    issue: Option<&'static str>,
)
    requires
        state.wf(),
        call_ensures(
            State::model_readiness_panel,
            (&state, &request, environment, apple_silicon, engine, &progress),
            panel,
        ),
        call_ensures(model_device_issue, (environment, request.provider, apple_silicon), issue),
    ensures
        panel.stop is Some <==> engine.models && engine.job && state.preparing is Some
            && state.preparing->0.id() == request.id(),
        panel.stop is Some ==> panel.prepare is None && panel.active is Some
            && panel.recheck_disabled,
        panel.stop is None ==> panel.progress@.len() == 0 && panel.active is None,
        panel.prepare is Some ==> environment is Some && issue is None
            && state.entries.map().contains_key(request.id()),
        panel.prepare matches Some(button) ==> button.disabled == engine.job,
        panel.device_issue is Some <==> issue is Some,
        !state.entries.map().contains_key(request.id()) ==> panel.checking && panel.state is None
            && panel.cache is None,
        panel.stop matches Some(button) ==> button.disabled == engine.cancelling,
{
    if panel.stop is None {
        assert(line_views(panel.progress@).len() == panel.progress@.len());
    }
}

#[verifier::rlimit(40)]
proof fn lines_are(progress: Seq<StageProgress>, n: nat, i: int)
    requires
        n <= progress.len() <= usize::MAX,
        0 <= i < n,
    ensures
        is_model_stage(progress[i].stage@, progress[i].has_samples, progress[i].done)
            <==> exists|k: int|
            0 <= k < model_lines(progress, n).len() && (#[trigger] model_lines(progress, n)[k]).0
                == i,
        forall|k: int|
            0 <= k < model_lines(progress, n).len() ==> (#[trigger] model_lines(progress, n)[k]).0
                < n && model_lines(progress, n)[k].1 == progress[model_lines(
                progress,
                n,
            )[k].0 as int].title@ + " · "@ + progress[model_lines(
                progress,
                n,
            )[k].0 as int].detail@,
    decreases n,
{
    let m = (n - 1) as nat;
    let all = model_lines(progress, n);
    let before = model_lines(progress, m);
    if m > 0 {
        lines_are(progress, m, if i < m { i } else { 0 });
    }
    if i < m {
        if exists|k: int| 0 <= k < before.len() && (#[trigger] before[k]).0 == i {
            let k = choose|k: int| 0 <= k < before.len() && (#[trigger] before[k]).0 == i;
            assert(all[k].0 == i);
        }
        if exists|k: int| 0 <= k < all.len() && (#[trigger] all[k]).0 == i {
            let k = choose|k: int| 0 <= k < all.len() && (#[trigger] all[k]).0 == i;
            assert(k < before.len());
            assert(before[k].0 == i);
        }
    } else {
        if is_model_stage(progress[i].stage@, progress[i].has_samples, progress[i].done) {
            assert(all[before.len() as int].0 == i);
        }
        if exists|k: int| 0 <= k < all.len() && (#[trigger] all[k]).0 == i {
            let k = choose|k: int| 0 <= k < all.len() && (#[trigger] all[k]).0 == i;
            if k < before.len() {
                assert(before[k].0 < m);
            }
        }
    }
    assert forall|k: int| 0 <= k < all.len() implies (#[trigger] all[k]).0 < n && all[k].1
        == progress[all[k].0 as int].title@ + " · "@ + progress[all[k].0 as int].detail@ by {
        if k < before.len() {
            assert(all[k] == before[k]);
        }
    }
}

/// While a model is prepared every stage that is about a model or a download, has begun and is
/// not done is shown under its own title, and no other.
#[verifier::rlimit(40)]
pub proof fn the_stages_of_a_preparation_are_shown(
    state: State,
    request: Request,
    environment: Option<&Environment>,
    apple_silicon: bool,
    engine: EngineUse,
    progress: Vec<StageProgress>,
    panel: ModelPanel,
    i: int,
)
    requires
        state.wf(),
        call_ensures(
            State::model_readiness_panel,
            (&state, &request, environment, apple_silicon, engine, &progress),
            panel,
        ),
        panel.stop is Some,
        0 <= i < progress@.len() <= usize::MAX,
    ensures
        (exists|k: int| 0 <= k < panel.progress@.len() && (#[trigger] panel.progress@[k]).place == i)
            <==> (begins(progress@[i].stage@, "model"@) || holds(progress@[i].stage@, "download"@))
            && progress@[i].has_samples && !progress@[i].done,
        forall|k: int|
            0 <= k < panel.progress@.len() ==> (#[trigger] panel.progress@[k]).place
                < progress@.len() && panel.progress@[k].text@
                == progress@[panel.progress@[k].place as int].title@ + " · "@
                + progress@[panel.progress@[k].place as int].detail@,
{
    let lines = model_lines(progress@, progress@.len());
    lines_are(progress@, progress@.len(), i);
    let said = line_views(panel.progress@);
    assert(said == lines);
    assert forall|k: int| 0 <= k < panel.progress@.len() implies (
    #[trigger] panel.progress@[k]).place < progress@.len() && panel.progress@[k].text@
        == progress@[panel.progress@[k].place as int].title@ + " · "@
        + progress@[panel.progress@[k].place as int].detail@ by {
        assert(said[k] == (panel.progress@[k].place, panel.progress@[k].text@));
        assert(lines[k] == said[k]);
    }
    if exists|k: int| 0 <= k < lines.len() && (#[trigger] lines[k]).0 == i {
        let k = choose|k: int| 0 <= k < lines.len() && (#[trigger] lines[k]).0 == i;
        assert(said[k].0 == i);
        assert(panel.progress@[k].place == i);
    }
    if exists|k: int| 0 <= k < panel.progress@.len() && (#[trigger] panel.progress@[k]).place == i {
        let k = choose|k: int|
            0 <= k < panel.progress@.len() && (#[trigger] panel.progress@[k]).place == i;
        assert(said[k].0 == i);
        assert(lines[k].0 == i);
    }
}

/// The page tells how the last preparation ended, and keeps its lines for who asks.
pub proof fn the_page_tells_of_the_last_preparation(
    state: State,
    default: Request,
    engine: EngineUse,
    logs: Vec<String>,
    panel: DiagnosticsPanel,
)
    requires
        call_ensures(State::model_diagnostics_panel, (&state, &default, engine, &logs), panel),
    ensures
        panel.notice is Some <==> state.result is Some,
        panel.notice matches Some((message, error)) ==> message@ == (state.result->0).0@ && error
            == (state.result->0).1,
        panel.other_active ==> engine.job && engine.models && state.preparing is Some,
        panel.log is Some ==> state.details && logs@.len() > 0,
        panel.details_toggle is Some <==> state.preparing is Some && logs@.len() > 0
            && engine.models,
        panel.by_service <==> default.provider is Api,
{
}

proof fn other_ways_are(environment: Environment, chosen: AsrProvider, n: nat, i: int)
    requires
        0 <= i < n <= 4,
        is_available(environment, local_providers()[i]),
        local_providers()[i] != chosen,
    ensures
        other_ways(environment, chosen, n).contains(local_providers()[i]),
    decreases n,
{
    let m = (n - 1) as nat;
    let before = other_ways(environment, chosen, m);
    let all = other_ways(environment, chosen, n);
    let way = local_providers()[i];
    if i == m {
        assert(all[before.len() as int] == way);
    } else {
        other_ways_are(environment, chosen, m, i);
        let k = choose|k: int| 0 <= k < before.len() && before[k] == way;
        assert(all[k] == way);
    }
}

/// Where the chosen way of recognition does not work, every other that does is offered; where it
/// works none is. The processor and the graphics processor are always told.
pub proof fn other_ways_are_offered_where_one_fails(
    environment: Environment,
    chosen: AsrProvider,
    architecture: &str,
    mac: bool,
    apple_silicon: bool,
    view: HardwareView,
    issue: Option<&'static str>,
    available: Vec<AsrProvider>,
    i: int,
)
    requires
        call_ensures(
            model_hardware_details,
            (Some(&environment), chosen, architecture, mac, apple_silicon),
            Some(view),
        ),
        call_ensures(model_device_issue, (Some(&environment), chosen, apple_silicon), issue),
        0 <= i < 4,
    ensures
        issue is None ==> view.alternatives@.len() == 0,
        issue is Some && is_available(environment, local_providers()[i]) && local_providers()[i]
            != chosen ==> view.alternatives@.contains(local_providers()[i]),
        view.rows@.len() >= 2,
        view.rows@[0].value@ == architecture@,
{
    if is_available(environment, local_providers()[i]) && local_providers()[i] != chosen {
        other_ways_are(environment, chosen, 4, i);
    }
    let lines = hardware_lines();
    assert(lines[0] == Hardware::Cpu && lines[2] == Hardware::Gpu && lines[1]
        == Hardware::ApplePlatform && lines[3] == Hardware::NpuDevice && lines[4]
        == Hardware::NpuRuntime && lines[5] == Hardware::AppleRuntime);
    reveal_with_fuel(relevant_lines, 7);
    let told = relevant_lines(6, mac, chosen);
    assert(told[0] == Hardware::Cpu);
    assert(view.rows@[0]@ == hardware_text(told[0], environment, architecture@, apple_silicon));
}

} // verus!
