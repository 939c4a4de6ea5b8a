//! Speech models: what is known of them, and what can be done about them.
use crate::account::BadgeKind;
use crate::conversion::AsrProvider;
use crate::environment::Environment;
use crate::table::Table;
use crate::text::{blank, holds, is_blank, join2, same, texts};
use vstd::prelude::*;
use vstd::string::*;

verus! {

// ------------------------------------------------------------------- requests

/// A model for a way of recognition, below a directory.
#[derive(Clone, Debug, PartialEq, Eq)]
pub struct Request {
    pub provider: AsrProvider,
    pub model: String,
    pub root: String,
}

/// The model that is meant: the usual one where none is named.
pub open spec fn meant_model(model: Option<Seq<char>>) -> Seq<char> {
    match model {
        Some(own) if !is_blank(own) => own,
        _ => "qwen3-1.7b"@,
    }
}

/// What tells requests apart.
pub open spec fn request_key(provider: AsrProvider, model: Seq<char>, root: Seq<char>) -> Seq<char> {
    provider.id() + ":"@ + model + ":"@ + root
}

impl Request {
    pub fn new(provider: AsrProvider, model: Option<&str>, root: &str) -> (result: Request)
        ensures
            result.provider == provider,
            result.model@ == meant_model(
                match model {
                    Some(own) => Some(own@),
                    None => None,
                },
            ),
            result.root@ == root@,
    {
        let model = match model {
            Some(own) => {
                if blank(own) {
                    "qwen3-1.7b".to_owned()
                } else {
                    own.to_owned()
                }
            },
            None => "qwen3-1.7b".to_owned(),
        };
        Request { provider, model, root: root.to_owned() }
    }

    pub open spec fn id(self) -> Seq<char> {
        request_key(self.provider, self.model@, self.root@)
    }

    pub fn key(&self) -> (result: String)
        ensures
            result@ == self.id(),
    {
        let mut key = self.provider.as_str().to_owned();
        key.append(":");
        key.append(self.model.as_str());
        key.append(":");
        key.append(self.root.as_str());
        key
    }

    /// The same request again.
    pub fn copy(&self) -> (result: Request)
        ensures
            result == *self,
    {
        Request { provider: self.provider, model: self.model.clone(), root: self.root.clone() }
    }

    /// The arguments with which the engine prepares the model.
    pub open spec fn arguments(self) -> Seq<Seq<char>> {
        seq![
            "models"@,
            "prepare"@,
            "--provider"@,
            self.provider.id(),
            "--model"@,
            self.model@,
            "--dir"@,
            self.root@,
            "--json"@,
        ]
    }

    pub fn preparation_args(&self) -> (result: Vec<String>)
        ensures
            texts(result@) == self.arguments(),
    {
        let mut args: Vec<String> = Vec::new();
        args.push("models".to_owned());
        args.push("prepare".to_owned());
        args.push("--provider".to_owned());
        args.push(self.provider.as_str().to_owned());
        args.push("--model".to_owned());
        args.push(self.model.clone());
        args.push("--dir".to_owned());
        args.push(self.root.clone());
        args.push("--json".to_owned());
        assert(texts(args@) =~= self.arguments());
        args
    }
}

pub open spec fn name_of_provider(provider: AsrProvider) -> Seq<char> {
    match provider {
        AsrProvider::Coreml => "Apple 原生"@,
        AsrProvider::Gpu => "GPU"@,
        AsrProvider::Cpu => "CPU"@,
        AsrProvider::Npu => "Intel NPU"@,
        AsrProvider::Api => "语音服务"@,
    }
}

pub fn provider_name(provider: AsrProvider) -> (result: &'static str)
    ensures
        result@ == name_of_provider(provider),
{
    match provider {
        AsrProvider::Coreml => "Apple 原生",
        AsrProvider::Gpu => "GPU",
        AsrProvider::Cpu => "CPU",
        AsrProvider::Npu => "Intel NPU",
        AsrProvider::Api => "语音服务",
    }
}

/// How a model is called.
pub open spec fn name_of_model(model: Seq<char>) -> Seq<char> {
    if model == "qwen3-1.7b"@ {
        "Qwen3-ASR 1.7B"@
    } else if model == "qwen3-0.6b"@ {
        "Qwen3-ASR 0.6B"@
    } else {
        model
    }
}

pub fn model_name(model: &str) -> (result: String)
    ensures
        result@ == name_of_model(model@),
{
    if same(model, "qwen3-1.7b") {
        "Qwen3-ASR 1.7B".to_owned()
    } else if same(model, "qwen3-0.6b") {
        "Qwen3-ASR 0.6B".to_owned()
    } else {
        model.to_owned()
    }
}

// ----------------------------------------------------------------- the state

/// What is on disk of a model.
#[derive(Clone, Copy, Debug, PartialEq, Eq, Structural)]
pub enum CacheState {
    Missing,
    Partial,
    Cached,
    Loaded,
    Unsupported,
}

/// The outcome of a check.
#[derive(Clone, Debug, PartialEq, Eq)]
pub struct LocalModelStatus {
    pub state: CacheState,
    pub bytes: u64,
    pub can_prepare: bool,
    pub last_error: Option<String>,
}

impl LocalModelStatus {
    /// The same status again.
    pub fn copy(&self) -> (result: LocalModelStatus)
        ensures
            result == *self,
    {
        LocalModelStatus {
            state: self.state,
            bytes: self.bytes,
            can_prepare: self.can_prepare,
            last_error: match &self.last_error {
                Some(error) => Some(error.clone()),
                None => None,
            },
        }
    }
}

/// One part of a model on disk: what it lacks, and whether its directory is there.
pub struct CachePart {
    pub name: String,
    pub path: String,
    pub missing: Vec<String>,
    pub is_directory: bool,
}

/// What is known of a request. The generation counts its checks.
pub struct Entry {
    pub request: Request,
    pub generation: u64,
    pub checking: bool,
    pub result: Option<Result<LocalModelStatus, String>>,
    pub parts: Vec<CachePart>,
}

/// What is known of all requests, and which one is being prepared. A notice tells
/// how the last preparation ended, and whether that was an error.
pub struct State {
    pub entries: Table<String, Entry>,
    pub preparing: Option<Request>,
    pub result: Option<(String, bool)>,
    pub cancelled: bool,
    pub details: bool,
    pub cache_details: Table<String, ()>,
}

/// What the setup shows of a model.
pub struct ModelSetupSnapshot {
    pub checking: bool,
    pub result: Option<Result<LocalModelStatus, String>>,
    pub device_issue: Option<String>,
    pub preparing: bool,
    pub notice: Option<(String, bool)>,
    pub cancelled: bool,
}

impl Default for State {
    fn default() -> (result: State)
        ensures
            result.wf(),
            result.entries.map() == Map::<Seq<char>, Entry>::empty(),
            result.preparing is None,
            result.result is None,
            !result.cancelled && !result.details,
            result.cache_details.map() == Map::<Seq<char>, ()>::empty(),
    {
        State {
            entries: Table::new(),
            preparing: None,
            result: None,
            cancelled: false,
            details: false,
            cache_details: Table::new(),
        }
    }
}

fn copy_result(result: &Option<Result<LocalModelStatus, String>>) -> (copy: Option<
    Result<LocalModelStatus, String>,
>)
    ensures
        copy == *result,
{
    match result {
        Some(Ok(status)) => Some(Ok(status.copy())),
        Some(Err(error)) => Some(Err(error.clone())),
        None => None,
    }
}

impl State {
    pub open spec fn wf(self) -> bool {
        self.entries.wf() && self.cache_details.wf()
    }

    /// A check of this request begins: it is local, and it is either not known or to
    /// be checked anew.
    pub open spec fn check_begins(self, request: Request, force: bool) -> bool {
        !(request.provider is Api) && (force || !self.entries.map().contains_key(request.id()))
    }

    /// Begins a check. What comes back must carry the key and the generation.
    pub fn check_model_request(&mut self, request: &Request, force: bool) -> (result: Option<u64>)
        requires
            old(self).wf(),
            old(self).entries.map().contains_key(request.id()) ==> old(
                self,
            ).entries.map()[request.id()].generation < u64::MAX,
        ensures
            final(self).wf(),
            result is Some == old(self).check_begins(*request, force),
            result is None ==> *final(self) == *old(self),
            result matches Some(generation) ==> {
                &&& generation == (if old(self).entries.map().contains_key(request.id()) {
                    old(self).entries.map()[request.id()].generation + 1
                } else {
                    1
                })
                &&& final(self).entries.map()[request.id()].parts@.len() == 0
                &&& final(self).entries.map() == old(self).entries.map().insert(
                    request.id(),
                    Entry {
                        request: *request,
                        generation,
                        checking: true,
                        result: None,
                        parts: final(self).entries.map()[request.id()].parts,
                    },
                )
                &&& *final(self) == (State { entries: final(self).entries, ..*old(self) })
            },
    {
        if matches!(request.provider, AsrProvider::Api) {
            return None;
        }
        let key = request.key();
        let generation: u64 = match self.entries.get(&key) {
            Some(entry) => {
                if !force {
                    return None;
                }
                entry.generation + 1
            },
            None => 1,
        };
        self.entries.insert(
            key,
            Entry {
                request: request.copy(),
                generation,
                checking: true,
                result: None,
                parts: Vec::new(),
            },
        );
        Some(generation)
    }

    /// The outcome of this check still counts.
    pub open spec fn check_counts(self, key: Seq<char>, generation: u64) -> bool {
        self.entries.map().contains_key(key) && self.entries.map()[key].generation == generation
    }

    /// Takes the outcome of a check. Says whether it counted.
    pub fn finish_check(
        &mut self,
        key: &String,
        generation: u64,
        outcome: Result<LocalModelStatus, String>,
        parts: Vec<CachePart>,
    ) -> (result: bool)
        requires
            old(self).wf(),
        ensures
            final(self).wf(),
            result == old(self).check_counts(key@, generation),
            !result ==> *final(self) == *old(self),
            result ==> {
                &&& final(self).entries.map() == old(self).entries.map().insert(
                    key@,
                    Entry {
                        checking: false,
                        result: Some(outcome),
                        parts,
                        ..old(self).entries.map()[key@]
                    },
                )
                &&& *final(self) == (State { entries: final(self).entries, ..*old(self) })
            },
    {
        let request = match self.entries.get(key) {
            Some(entry) => {
                if entry.generation != generation {
                    return false;
                }
                entry.request.copy()
            },
            None => {
                return false;
            },
        };
        self.entries.insert(
            key.clone(),
            Entry { request, generation, checking: false, result: Some(outcome), parts },
        );
        true
    }

    /// The requests of the first `n` entries by their keys; of two with one key the
    /// later counts.
    pub open spec fn known_requests(self, n: nat) -> Map<Seq<char>, Request>
        decreases n,
    {
        if n == 0 || n > self.entries.entries@.len() {
            Map::empty()
        } else {
            let request = self.entries.entries@[n - 1].1.request;
            self.known_requests((n - 1) as nat).insert(request.id(), request)
        }
    }

    /// What is checked anew when everything is: all known requests, the default, and
    /// the one that is being prepared, each once. Of two with one key the one that is
    /// being prepared counts, then the default.
    pub fn refresh_model_diagnostics(&self, default: Request) -> (result: Table<String, Request>)
        requires
            self.wf(),
        ensures
            result.wf(),
            ({
                let known = self.known_requests(self.entries.entries@.len()).insert(
                    default.id(),
                    default,
                );
                result.map() == (match self.preparing {
                    Some(request) => known.insert(request.id(), request),
                    None => known,
                })
            }),
    {
        let mut requests: Table<String, Request> = Table::new();
        let mut i: usize = 0;
        while i < self.entries.entries.len()
            invariant
                self.wf(),
                i <= self.entries.entries@.len(),
                requests.wf(),
                requests.map() == self.known_requests(i as nat),
            decreases self.entries.entries@.len() - i,
        {
            let request = &self.entries.entries[i].1.request;
            requests.insert(request.key(), request.copy());
            i += 1;
        }
        requests.insert(default.key(), default);
        if let Some(request) = &self.preparing {
            requests.insert(request.key(), request.copy());
        }
        requests
    }

    /// Begins to prepare a model, unless a job is under way.
    pub fn begin_model_preparation(&mut self, request: Request, busy: bool) -> (result: Option<&'static str>)
        ensures
            result is Some == busy,
            result matches Some(message) ==> message@ == "当前处理结束后可以准备模型。已下载的文件会保留。"@,
            *final(self) == (if busy {
                *old(self)
            } else {
                State {
                    preparing: Some(request),
                    result: None,
                    cancelled: false,
                    details: false,
                    ..*old(self)
                }
            }),
    {
        if busy {
            return Some("当前处理结束后可以准备模型。已下载的文件会保留。");
        }
        self.preparing = Some(request);
        self.result = None;
        self.cancelled = false;
        self.details = false;
        None
    }

    /// The request that is being prepared, else the default.
    pub open spec fn active(self, default: Request) -> Request {
        match self.preparing {
            Some(request) => request,
            None => default,
        }
    }

    /// The arguments for the engine.
    pub fn model_preparation_args(&self, default: &Request) -> (result: Vec<String>)
        ensures
            texts(result@) == self.active(*default).arguments(),
    {
        match &self.preparing {
            Some(request) => request.preparation_args(),
            None => default.preparation_args(),
        }
    }

    /// How a preparation ended: what is told, and whether it was an error.
    pub fn model_preparation_finished(
        &mut self,
        success: bool,
        cancelled: bool,
        default: &Request,
        error: Option<&str>,
    )
        ensures
            final(self).result matches Some((message, failed)) && failed == (!success && !cancelled)
                && message@ == preparation_text(
                old(self).active(*default),
                success,
                cancelled,
                match error {
                    Some(text) => Some(text@),
                    None => None,
                },
            ),
            *final(self) == (State {
                cancelled: cancelled && !success,
                result: final(self).result,
                ..*old(self)
            }),
    {
        let message = {
            let request = match &self.preparing {
                Some(request) => request,
                None => default,
            };
            if success {
                let mut text = provider_name(request.provider).to_owned();
                text.append(" · ");
                text.append(request.model.as_str());
                text.append(" 的准备已完成，正在重新检查缓存。");
                text
            } else if cancelled {
                join2(
                    request.model.as_str(),
                    " 的准备已停止。已下载完成的文件保留，可以继续准备。",
                )
            } else {
                let mut text = request.model.clone();
                text.append(" 的准备未完成：");
                text.append(
                    match error {
                        Some(reason) => reason,
                        None => "转换程序没有返回成功结果",
                    },
                );
                text.append("。已下载完成的文件保留。");
                text
            }
        };
        self.cancelled = cancelled && !success;
        self.result = Some((message, !success && !cancelled));
    }

    /// The state that the setup shows of a request.
    pub fn setup_model_snapshot(
        &self,
        request: &Request,
        device_issue: Option<String>,
        preparing_job: bool,
    ) -> (result: ModelSetupSnapshot)
        requires
            self.wf(),
        ensures
            ({
                let known = self.entries.map().contains_key(request.id());
                let entry = self.entries.map()[request.id()];
                let active = self.preparing is Some && self.preparing->0.id() == request.id();
                &&& result.checking == (!known || entry.checking)
                &&& result.result == (if known {
                    entry.result
                } else {
                    None
                })
                &&& result.device_issue == device_issue
                &&& result.preparing == (active && preparing_job)
                &&& result.notice == (if active {
                    self.result
                } else {
                    None
                })
                &&& result.cancelled == (active && self.cancelled)
            }),
    {
        let key = request.key();
        let active = match &self.preparing {
            Some(own) => own.key() == key,
            None => false,
        };
        let (checking, outcome) = match self.entries.get(&key) {
            Some(entry) => (entry.checking, copy_result(&entry.result)),
            None => (true, None),
        };
        let notice = if active {
            match &self.result {
                Some((message, failed)) => Some((message.clone(), *failed)),
                None => None,
            }
        } else {
            None
        };
        ModelSetupSnapshot {
            checking,
            result: outcome,
            device_issue,
            preparing: active && preparing_job,
            notice,
            cancelled: active && self.cancelled,
        }
    }

    /// One line on whether the default model is ready, and whether that is fine.
    pub fn default_model_conclusion(&self, request: &Request, has_device_issue: bool) -> (result: (
        bool,
        &'static str,
    ))
        requires
            self.wf(),
        ensures
            (result.0, result.1@) == conclusion(
                *request,
                has_device_issue,
                if self.entries.map().contains_key(request.id()) {
                    Some(self.entries.map()[request.id()])
                } else {
                    None
                },
            ),
    {
        if matches!(request.provider, AsrProvider::Api) {
            return (true, "当前使用语音服务识别，本机模型不参与。");
        }
        if has_device_issue {
            return (false, "所选识别方式暂不可用，可在模型管理中查看原因。");
        }
        match self.entries.get(&request.key()) {
            None => (true, "正在检查识别模型…"),
            Some(entry) => {
                if entry.checking {
                    return (true, "正在检查识别模型…");
                }
                match &entry.result {
                    Some(Err(_)) => (
                        false,
                        "模型检查未完成，可在模型管理中查看原因并重试。",
                    ),
                    Some(Ok(status)) => match status.state {
                        CacheState::Loaded => (true, "识别模型已就绪。"),
                        CacheState::Cached => (true, "模型已下载，尚未验证加载。"),
                        CacheState::Missing | CacheState::Partial => (
                            true,
                            "首次识别时会自动下载所选模型。",
                        ),
                        CacheState::Unsupported => (
                            false,
                            "当前识别方式不支持所选模型，请选择其他模型。",
                        ),
                    },
                    None => (true, "尚未检查识别模型。"),
                }
            },
        }
    }

    /// Opens the details of a model's cache, or closes them.
    pub fn toggle_cache_details(&mut self, key: &String)
        requires
            old(self).wf(),
        ensures
            final(self).wf(),
            final(self).cache_details.map() == (if old(self).cache_details.map().contains_key(
                key@,
            ) {
                old(self).cache_details.map().remove(key@)
            } else {
                old(self).cache_details.map().insert(key@, ())
            }),
            *final(self) == (State { cache_details: final(self).cache_details, ..*old(self) }),
    {
        if self.cache_details.remove(key).is_none() {
            self.cache_details.insert(key.clone(), ());
            assert(self.cache_details.map() =~= old(self).cache_details.map().insert(key@, ()));
        }
    }
}

/// What is told at the end of a preparation. Downloaded files are kept in any case.
pub open spec fn preparation_text(
    request: Request,
    success: bool,
    cancelled: bool,
    error: Option<Seq<char>>,
) -> Seq<char> {
    if success {
        name_of_provider(request.provider) + " · "@ + request.model@
            + " 的准备已完成，正在重新检查缓存。"@
    } else if cancelled {
        request.model@ + " 的准备已停止。已下载完成的文件保留，可以继续准备。"@
    } else {
        request.model@ + " 的准备未完成："@ + (match error {
            Some(reason) => reason,
            None => "转换程序没有返回成功结果"@,
        }) + "。已下载完成的文件保留。"@
    }
}

/// Whether the default model is ready.
pub open spec fn conclusion(
    request: Request,
    has_device_issue: bool,
    entry: Option<Entry>,
) -> (bool, Seq<char>) {
    if request.provider is Api {
        (true, "当前使用语音服务识别，本机模型不参与。"@)
    } else if has_device_issue {
        (false, "所选识别方式暂不可用，可在模型管理中查看原因。"@)
    } else if entry is None || entry->0.checking {
        (true, "正在检查识别模型…"@)
    } else {
        match entry->0.result {
            Some(Err(_)) => (false, "模型检查未完成，可在模型管理中查看原因并重试。"@),
            Some(Ok(status)) => match status.state {
                CacheState::Loaded => (true, "识别模型已就绪。"@),
                CacheState::Cached => (true, "模型已下载，尚未验证加载。"@),
                CacheState::Missing | CacheState::Partial => (
                    true,
                    "首次识别时会自动下载所选模型。"@,
                ),
                CacheState::Unsupported => (
                    false,
                    "当前识别方式不支持所选模型，请选择其他模型。"@,
                ),
            },
            None => (true, "尚未检查识别模型。"@),
        }
    }
}

// -------------------------------------------------------------------- devices

/// Why a way of recognition cannot be used on this computer.
pub open spec fn device_problem(
    environment: Environment,
    provider: AsrProvider,
    apple_silicon: bool,
) -> Option<Seq<char>> {
    if !environment.engine {
        Some("转换程序无法运行，请先恢复应用内的转换程序。"@)
    } else {
        match provider {
            AsrProvider::Coreml => if environment.apple {
                None
            } else if !apple_silicon {
                Some("已选择 Apple 原生，但当前系统无法使用这套识别方式。选择仍保留，请选择本机可用的识别方式。"@)
            } else {
                Some("已选择 Apple 原生，但本机没有检测到完整的 Apple 识别运行时。选择仍保留；安装完整应用可以恢复组件，也可以明确选择其他可用方式。"@)
            },
            AsrProvider::Gpu => if !environment.llama {
                Some("已选择 GPU，但未检测到 llama-server 识别运行时。选择仍保留；安装运行时后重新检查。"@)
            } else if environment.gpu is None {
                Some("已选择 GPU，但识别运行时没有报告可用的 GPU。选择仍保留；可以明确改用 CPU。"@)
            } else {
                None
            },
            AsrProvider::Cpu => if environment.llama {
                None
            } else {
                Some("已选择 CPU，但未检测到 llama-server 识别运行时。安装完成后可以使用已缓存的模型。"@)
            },
            AsrProvider::Npu => if !environment.npu_device {
                Some("已选择 Intel NPU，但本机未检测到可用的 Intel NPU 设备。选择仍保留，请选择本机可用的识别方式。"@)
            } else if !environment.npu_runtime {
                Some("已选择 Intel NPU，已检测到设备，但缺少 uv 或 Python 启动器。安装完成后重新检查；选择仍保留。"@)
            } else {
                None
            },
            AsrProvider::Api => None,
        }
    }
}

/// Why a way of recognition cannot be used; nothing before the computer was looked
/// at.
pub fn model_device_issue(
    environment: Option<&Environment>,
    provider: AsrProvider,
    apple_silicon: bool,
) -> (result: Option<&'static str>)
    ensures
        match environment {
            None => result is None,
            Some(found) => (match result {
                Some(text) => Some(text@) == device_problem(*found, provider, apple_silicon),
                None => device_problem(*found, provider, apple_silicon) is None,
            }),
        },
{
    let environment = match environment {
        Some(found) => found,
        None => {
            return None;
        },
    };
    if !environment.engine {
        return Some("转换程序无法运行，请先恢复应用内的转换程序。");
    }
    match provider {
        AsrProvider::Coreml => {
            if environment.apple {
                None
            } else if !apple_silicon {
                Some("已选择 Apple 原生，但当前系统无法使用这套识别方式。选择仍保留，请选择本机可用的识别方式。")
            } else {
                Some("已选择 Apple 原生，但本机没有检测到完整的 Apple 识别运行时。选择仍保留；安装完整应用可以恢复组件，也可以明确选择其他可用方式。")
            }
        },
        AsrProvider::Gpu => {
            if !environment.llama {
                Some("已选择 GPU，但未检测到 llama-server 识别运行时。选择仍保留；安装运行时后重新检查。")
            } else if environment.gpu.is_none() {
                Some("已选择 GPU，但识别运行时没有报告可用的 GPU。选择仍保留；可以明确改用 CPU。")
            } else {
                None
            }
        },
        AsrProvider::Cpu => {
            if environment.llama {
                None
            } else {
                Some("已选择 CPU，但未检测到 llama-server 识别运行时。安装完成后可以使用已缓存的模型。")
            }
        },
        AsrProvider::Npu => {
            if !environment.npu_device {
                Some("已选择 Intel NPU，但本机未检测到可用的 Intel NPU 设备。选择仍保留，请选择本机可用的识别方式。")
            } else if !environment.npu_runtime {
                Some("已选择 Intel NPU，已检测到设备，但缺少 uv 或 Python 启动器。安装完成后重新检查；选择仍保留。")
            } else {
                None
            }
        },
        AsrProvider::Api => None,
    }
}

/// The way of recognition works on this computer.
pub open spec fn is_available(environment: Environment, provider: AsrProvider) -> bool {
    match provider {
        AsrProvider::Coreml => environment.apple,
        AsrProvider::Gpu => environment.gpu is Some && environment.llama,
        AsrProvider::Cpu => environment.llama,
        AsrProvider::Npu => environment.npu,
        AsrProvider::Api => false,
    }
}

/// The local ways of recognition, in the order in which they are offered.
pub open spec fn local_providers() -> Seq<AsrProvider> {
    seq![AsrProvider::Coreml, AsrProvider::Gpu, AsrProvider::Cpu, AsrProvider::Npu]
}

/// Those of the first `n` local ways that work on this computer.
pub open spec fn available_among(environment: Environment, n: nat) -> Seq<AsrProvider>
    decreases n,
{
    if n == 0 {
        Seq::empty()
    } else {
        let before = available_among(environment, (n - 1) as nat);
        if is_available(environment, local_providers()[n - 1]) {
            before.push(local_providers()[n - 1])
        } else {
            before
        }
    }
}

/// The local ways of recognition that work on this computer.
pub fn available_providers(environment: &Environment) -> (result: Vec<AsrProvider>)
    ensures
        result@ == available_among(*environment, 4),
{
    let mut result: Vec<AsrProvider> = Vec::new();
    reveal_with_fuel(available_among, 5);
    if environment.apple {
        result.push(AsrProvider::Coreml);
    }
    if environment.gpu.is_some() && environment.llama {
        result.push(AsrProvider::Gpu);
    }
    if environment.llama {
        result.push(AsrProvider::Cpu);
    }
    if environment.npu {
        result.push(AsrProvider::Npu);
    }
    result
}

/// A way of recognition that works has no problem, once the engine runs; one that
/// has a problem does not work. The neural processor is found by both its parts.
pub proof fn available_ways_have_no_problem(
    environment: Environment,
    provider: AsrProvider,
    apple_silicon: bool,
)
    requires
        environment.engine,
        environment.npu == (environment.npu_device && environment.npu_runtime),
        !(provider is Api),
    ensures
        is_available(environment, provider) <==> device_problem(
            environment,
            provider,
            apple_silicon,
        ) is None,
{
}

// ------------------------------------------------------------------ readiness

/// The badge and the line on the state of a model.
pub open spec fn badge_texts(state: CacheState) -> (BadgeKind, Seq<char>, Seq<char>) {
    match state {
        CacheState::Missing => (BadgeKind::Neutral, "待下载"@, "首次识别时自动准备。"@),
        CacheState::Partial => (
            BadgeKind::Warning,
            "待准备"@,
            "尚未下载完整，继续准备会复用已有文件。"@,
        ),
        CacheState::Cached => (BadgeKind::Neutral, "已下载"@, "尚未验证加载。"@),
        CacheState::Loaded => (BadgeKind::Success, "已验证可加载"@, "验证后模型文件未改变。"@),
        CacheState::Unsupported => (
            BadgeKind::Warning,
            "不支持"@,
            "这种识别方式不支持当前模型。原选择保留，请明确选择支持的模型。"@,
        ),
    }
}

pub fn cache_state_texts(state: CacheState) -> (result: (BadgeKind, &'static str, &'static str))
    ensures
        (result.0, result.1@, result.2@) == badge_texts(state),
{
    match state {
        CacheState::Missing => (BadgeKind::Neutral, "待下载", "首次识别时自动准备。"),
        CacheState::Partial => (
            BadgeKind::Warning,
            "待准备",
            "尚未下载完整，继续准备会复用已有文件。",
        ),
        CacheState::Cached => (BadgeKind::Neutral, "已下载", "尚未验证加载。"),
        CacheState::Loaded => (BadgeKind::Success, "已验证可加载", "验证后模型文件未改变。"),
        CacheState::Unsupported => (
            BadgeKind::Warning,
            "不支持",
            "这种识别方式不支持当前模型。原选择保留，请明确选择支持的模型。",
        ),
    }
}

/// What the panel of a model shows and offers.
pub struct ReadinessPanel {
    pub checking: bool,
    pub recheck_disabled: bool,
    pub active: bool,
    pub prepare: Option<PrepareButton>,
}

/// The button that prepares a model.
pub struct PrepareButton {
    pub label: &'static str,
    pub primary: bool,
    pub disabled: bool,
    pub waits_for_job: bool,
}

/// The label of the button that prepares a model.
pub open spec fn prepare_label(state: CacheState, provider: AsrProvider) -> Seq<char> {
    match state {
        CacheState::Missing => "下载并准备模型"@,
        CacheState::Loaded => "重新验证加载"@,
        CacheState::Cached => if provider is Cpu || provider is Gpu {
            "检查模型文件"@
        } else {
            "验证模型加载"@
        },
        _ => "继续准备模型"@,
    }
}

impl State {
    /// The status of a request, where a check ended well.
    pub open spec fn status_of(self, request: Request) -> Option<LocalModelStatus> {
        if self.entries.map().contains_key(request.id()) {
            match self.entries.map()[request.id()].result {
                Some(Ok(status)) => Some(status),
                _ => None,
            }
        } else {
            None
        }
    }

    /// What the panel of a model shows: a model can be prepared once the computer
    /// was looked at, nothing stands against it, and the check says so.
    pub fn readiness(
        &self,
        request: &Request,
        environment_known: bool,
        has_device_issue: bool,
        job: bool,
        models_job: bool,
    ) -> (result: ReadinessPanel)
        requires
            self.wf(),
        ensures
            ({
                let known = self.entries.map().contains_key(request.id());
                let active = models_job && job && self.preparing is Some
                    && self.preparing->0.id() == request.id();
                let status = self.status_of(*request);
                let allowed = environment_known && !has_device_issue && status is Some
                    && status->0.can_prepare;
                &&& result.checking == (!known || self.entries.map()[request.id()].checking)
                &&& result.active == active
                &&& result.recheck_disabled == (result.checking || active)
                &&& result.prepare is Some == (!active && allowed)
                &&& result.prepare matches Some(button) ==> {
                    let loaded = status->0.state is Loaded;
                    &&& button.label@ == prepare_label(status->0.state, request.provider)
                    &&& button.primary == !loaded
                    &&& button.disabled == job
                    &&& button.waits_for_job == (job && !loaded)
                }
            }),
    {
        let key = request.key();
        let entry = self.entries.get(&key);
        let checking = match entry {
            Some(own) => own.checking,
            None => true,
        };
        let active = models_job && job && match &self.preparing {
            Some(own) => own.key() == key,
            None => false,
        };
        let mut prepare: Option<PrepareButton> = None;
        if !active && environment_known && !has_device_issue {
            if let Some(own) = entry {
                if let Some(Ok(status)) = &own.result {
                    if status.can_prepare {
                        let loaded = matches!(status.state, CacheState::Loaded);
                        let label = match status.state {
                            CacheState::Missing => "下载并准备模型",
                            CacheState::Loaded => "重新验证加载",
                            CacheState::Cached => {
                                if matches!(request.provider, AsrProvider::Cpu | AsrProvider::Gpu) {
                                    "检查模型文件"
                                } else {
                                    "验证模型加载"
                                }
                            },
                            _ => "继续准备模型",
                        };
                        prepare = Some(
                            PrepareButton {
                                label,
                                primary: !loaded,
                                disabled: job,
                                waits_for_job: job && !loaded,
                            },
                        );
                    }
                }
            }
        }
        ReadinessPanel { checking, recheck_disabled: checking || active, active, prepare }
    }
}

/// What helps a runtime that is missing.
#[derive(Clone, Copy, Debug, PartialEq, Eq, Structural)]
pub enum RuntimeRepair {
    Nothing,
    Reinstall,
    InstallLlama,
    InstallLauncher,
}

/// What helps where a way of recognition lacks its runtime.
pub open spec fn repair_for(
    environment: Option<Environment>,
    provider: AsrProvider,
    apple_silicon: bool,
) -> RuntimeRepair {
    match environment {
        None => RuntimeRepair::Nothing,
        Some(found) => if !found.engine || (provider is Coreml && !found.apple && apple_silicon) {
            RuntimeRepair::Reinstall
        } else if (provider is Cpu || provider is Gpu) && !found.llama {
            RuntimeRepair::InstallLlama
        } else if provider is Npu && found.npu_device && !found.npu_runtime {
            RuntimeRepair::InstallLauncher
        } else {
            RuntimeRepair::Nothing
        },
    }
}

pub fn model_runtime_repair(environment: Option<&Environment>, provider: AsrProvider, apple_silicon: bool) -> (result:
    RuntimeRepair)
    ensures
        result == repair_for(
            match environment {
                Some(found) => Some(*found),
                None => None,
            },
            provider,
            apple_silicon,
        ),
{
    match environment {
        None => RuntimeRepair::Nothing,
        Some(found) => {
            if !found.engine || (matches!(provider, AsrProvider::Coreml) && !found.apple
                && apple_silicon) {
                RuntimeRepair::Reinstall
            } else if matches!(provider, AsrProvider::Cpu | AsrProvider::Gpu) && !found.llama {
                RuntimeRepair::InstallLlama
            } else if matches!(provider, AsrProvider::Npu) && found.npu_device
                && !found.npu_runtime {
                RuntimeRepair::InstallLauncher
            } else {
                RuntimeRepair::Nothing
            }
        },
    }
}

// ----------------------------------------------------------------------- laws

/// A check that was begun anew makes the outcome of the one before it void.
pub proof fn a_new_check_voids_the_one_before(
    before: State,
    after: State,
    request: Request,
    generation: u64,
    parts: Vec<CachePart>,
)
    requires
        before.check_counts(request.id(), generation),
        generation < u64::MAX,
        after.entries.map() == before.entries.map().insert(
            request.id(),
            Entry {
                request,
                generation: (generation + 1) as u64,
                checking: true,
                result: None,
                parts,
            },
        ),
    ensures
        !after.check_counts(request.id(), generation),
        after.status_of(request) is None,
{
}

// ------------------------------------------------------------- checks and their ends

/// A check that begins is the one that counts for its model; what was known of it is asked
/// anew, and of no other. A service has nothing to check on this computer, and what is known
/// is checked again only where that is asked for.
pub proof fn a_check_that_begins_counts(
    state: &mut State,
    request: Request,
    force: bool,
    begun: Option<u64>,
    other: Seq<char>,
)
    requires
        old(state).wf(),
        old(state).entries.map().contains_key(request.id()) ==> old(
            state).entries.map()[request.id()].generation < u64::MAX,
        call_ensures(State::check_model_request, (state, &request, force), begun),
    ensures
        request.provider is Api ==> begun is None,
        !(request.provider is Api) && force ==> begun is Some,
        !(request.provider is Api) && !force ==> (begun is Some <==> !old(
            state).entries.map().contains_key(request.id())),
        begun is None ==> *final(state) == *old(state),
        begun is Some ==> {
            let entry = final(state).entries.map()[request.id()];
            &&& final(state).entries.map().contains_key(request.id())
            &&& entry.checking && entry.result is None && entry.generation == begun->0
            &&& entry.request == request
            &&& old(state).entries.map().contains_key(request.id()) ==> begun->0 > old(
                state).entries.map()[request.id()].generation
            &&& other != request.id() ==> (final(state).entries.map().contains_key(other) <==> old(
                state).entries.map().contains_key(other))
            &&& other != request.id() && old(state).entries.map().contains_key(other) ==> final(
                state).entries.map()[other] == old(state).entries.map()[other]
            &&& final(state).preparing == old(state).preparing
        },
{
}

/// What a check found is known of its model, where the check is still the latest; anything
/// else it changes nothing of.
pub proof fn a_check_tells_of_its_model(
    state: &mut State,
    key: String,
    generation: u64,
    outcome: Result<LocalModelStatus, String>,
    parts: Vec<CachePart>,
    counted: bool,
    other: Seq<char>,
)
    requires
        old(state).wf(),
        call_ensures(State::finish_check, (state, &key, generation, outcome, parts), counted),
    ensures
        counted <==> old(state).entries.map().contains_key(key@) && old(
            state).entries.map()[key@].generation == generation,
        !counted ==> *final(state) == *old(state),
        counted ==> {
            let entry = final(state).entries.map()[key@];
            &&& entry.result == Some(outcome) && !entry.checking && entry.parts@ == parts@
            &&& entry.generation == generation
            &&& entry.request == old(state).entries.map()[key@].request
            &&& other != key@ && old(state).entries.map().contains_key(other) ==> final(
                state).entries.map()[other] == old(state).entries.map()[other]
        },
{
}

proof fn known_is(state: State, n: nat, i: int)
    requires
        0 <= i < n <= state.entries.entries@.len(),
    ensures
        state.known_requests(n).contains_key(state.entries.entries@[i].1.request.id()),
    decreases n,
{
    if i < n - 1 {
        known_is(state, (n - 1) as nat, i);
    }
}

/// When everything is checked anew every model that is known is, the default among them, and
/// the one that is being prepared.
pub proof fn every_known_model_is_checked(
    state: State,
    default: Request,
    requests: Table<String, Request>,
    i: int,
)
    requires
        state.wf(),
        call_ensures(State::refresh_model_diagnostics, (&state, default), requests),
    ensures
        requests.map().contains_key(default.id()),
        0 <= i < state.entries.entries@.len() ==> requests.map().contains_key(
            state.entries.entries@[i].1.request.id(),
        ),
        state.preparing matches Some(request) ==> requests.map().contains_key(request.id())
            && requests.map()[request.id()] == request,
        state.preparing is None ==> requests.map()[default.id()] == default,
{
    if 0 <= i < state.entries.entries@.len() {
        known_is(state, state.entries.entries@.len(), i);
    }
}

/// One model is prepared at a time; what is asked for meanwhile is refused with a word and
/// changes nothing.
pub proof fn one_model_is_prepared_at_a_time(
    state: &mut State,
    request: Request,
    busy: bool,
    refused: Option<&'static str>,
)
    requires
        call_ensures(State::begin_model_preparation, (state, request, busy), refused),
    ensures
        refused is Some <==> busy,
        busy ==> *final(state) == *old(state),
        !busy ==> final(state).preparing == Some(request) && final(state).result is None && !final(
            state).cancelled && final(state).entries == old(state).entries,
{
}

/// The engine is told to prepare the model that was asked for, and the default where none was;
/// it is told the engine, the model and the place.
pub proof fn the_engine_prepares_what_was_asked(
    state: State,
    default: Request,
    args: Vec<String>,
    wanted: Request,
    own: Vec<String>,
)
    requires
        call_ensures(State::model_preparation_args, (&state, &default), args),
        wanted == (match state.preparing {
            Some(request) => request,
            None => default,
        }),
        call_ensures(Request::preparation_args, (&wanted,), own),
    ensures
        texts(args@) == texts(own@),
        texts(own@).contains(wanted.model@),
        texts(own@).contains(wanted.root@),
        texts(own@).contains(wanted.provider.id()),
        texts(own@)[0] == "models"@ && texts(own@)[1] == "prepare"@,
{
    let said = texts(own@);
    assert(said[5] == wanted.model@);
    assert(said[7] == wanted.root@);
    assert(said[3] == wanted.provider.id());
}

/// How a preparation ended is told of the model that was prepared: only what neither succeeded
/// nor was stopped is an error, and the reason is told where there is one.
pub proof fn a_preparation_is_told_as_it_ended(
    state: &mut State,
    success: bool,
    cancelled: bool,
    default: Request,
    error: Option<&str>,
)
    requires
        call_ensures(
            State::model_preparation_finished,
            (state, success, cancelled, &default, error),
            (),
        ),
    ensures
        final(state).result is Some,
        (final(state).result->0).1 <==> !success && !cancelled,
        final(state).cancelled <==> cancelled && !success,
        final(state).preparing == old(state).preparing,
        final(state).entries == old(state).entries,
        old(state).preparing matches Some(request) ==> holds(
            (final(state).result->0).0@,
            request.model@,
        ),
        old(state).preparing is None ==> holds((final(state).result->0).0@, default.model@),
        !success && !cancelled && error is Some ==> holds(
            (final(state).result->0).0@,
            error->0@,
        ),
{
    let request = old(state).active(default);
    let text = (final(state).result->0).0@;
    let model = request.model@;
    if success {
        let at = (name_of_provider(request.provider) + " · "@).len() as int;
        assert(text.subrange(at, at + model.len()) =~= model);
        assert(crate::text::occurs_at(text, model, at));
    } else {
        assert(text.subrange(0, model.len() as int) =~= model);
        assert(crate::text::occurs_at(text, model, 0));
        if !cancelled && error is Some {
            let at = (model + " 的准备未完成："@).len() as int;
            assert(text.subrange(at, at + error->0@.len()) =~= error->0@);
            assert(crate::text::occurs_at(text, error->0@, at));
        }
    }
}

/// What a panel shows of a model is what is known of that very model: a preparation, its end
/// and a stop are told of the model that was prepared and of no other.
pub proof fn a_snapshot_is_of_its_model(
    state: State,
    request: Request,
    issue: Option<String>,
    job: bool,
    shown: ModelSetupSnapshot,
)
    requires
        state.wf(),
        call_ensures(State::setup_model_snapshot, (&state, &request, issue, job), shown),
    ensures
        state.preparing is None || state.preparing->0.id() != request.id() ==> !shown.preparing
            && shown.notice is None && !shown.cancelled,
        state.preparing is Some && state.preparing->0.id() == request.id() ==> shown.preparing == job
            && shown.notice == state.result && shown.cancelled == state.cancelled,
        !state.entries.map().contains_key(request.id()) ==> shown.checking && shown.result is None,
        state.entries.map().contains_key(request.id()) ==> shown.result
            == state.entries.map()[request.id()].result && shown.checking
            == state.entries.map()[request.id()].checking,
        shown.device_issue == issue,
{
}

/// The conclusion about the default model: a service needs none; what this computer cannot do
/// is told; and a model that can be loaded is ready.
pub proof fn the_conclusion_says_whether_it_works(
    state: State,
    request: Request,
    issue: bool,
    told: (bool, &'static str),
)
    requires
        state.wf(),
        call_ensures(State::default_model_conclusion, (&state, &request, issue), told),
    ensures
        request.provider is Api ==> told.0,
        !(request.provider is Api) && issue ==> !told.0,
        ({
            let known = state.entries.map().contains_key(request.id());
            let entry = state.entries.map()[request.id()];
            &&& !(request.provider is Api) && !issue && known && !entry.checking && entry.result
                is Some && entry.result->0 is Err ==> !told.0
            &&& !(request.provider is Api) && !issue && known && !entry.checking && entry.result
                is Some && entry.result->0 is Ok ==> (told.0 <==> !(entry.result->0->Ok_0.state
                is Unsupported))
            &&& !(request.provider is Api) && !issue && known && !entry.checking && entry.result
                is Some && entry.result->0 is Ok && entry.result->0->Ok_0.state is Loaded
                ==> told.1@ == "识别模型已就绪。"@
            &&& !(request.provider is Api) && !issue && (!known || entry.checking) ==> told.0
        }),
{
}

/// The ways of recognition that are available are those that this computer has everything
/// for; a service is none of them.
pub proof fn available_ways_are_those_it_has(
    environment: Environment,
    available: Vec<AsrProvider>,
)
    requires
        call_ensures(available_providers, (&environment,), available),
    ensures
        available@.contains(AsrProvider::Coreml) <==> environment.apple,
        available@.contains(AsrProvider::Gpu) <==> environment.gpu is Some && environment.llama,
        available@.contains(AsrProvider::Cpu) <==> environment.llama,
        available@.contains(AsrProvider::Npu) <==> environment.npu,
        !available@.contains(AsrProvider::Api),
{
    available_is(environment, 4, AsrProvider::Coreml);
    available_is(environment, 4, AsrProvider::Gpu);
    available_is(environment, 4, AsrProvider::Cpu);
    available_is(environment, 4, AsrProvider::Npu);
    available_is(environment, 4, AsrProvider::Api);
    let all = local_providers();
    assert(all[0] == AsrProvider::Coreml && all[1] == AsrProvider::Gpu && all[2]
        == AsrProvider::Cpu && all[3] == AsrProvider::Npu);
    assert(all.take(4) =~= all);
}

proof fn available_is(environment: Environment, n: nat, provider: AsrProvider)
    requires
        n <= 4,
    ensures
        available_among(environment, n).contains(provider) <==> local_providers().take(
            n as int,
        ).contains(provider) && is_available(environment, provider),
    decreases n,
{
    let all = available_among(environment, n);
    let ways = local_providers();
    if n > 0 {
        let m = (n - 1) as nat;
        available_is(environment, m, provider);
        let before = available_among(environment, m);
        if all.contains(provider) {
            let k = choose|k: int| 0 <= k < all.len() && all[k] == provider;
            if k < before.len() {
                assert(before[k] == provider);
                let j = choose|j: int| 0 <= j < m && ways.take(m as int)[j] == provider;
                assert(ways.take(n as int)[j] == provider);
            } else {
                assert(ways.take(n as int)[m as int] == provider);
            }
        }
        if ways.take(n as int).contains(provider) && is_available(environment, provider) {
            let j = choose|j: int| 0 <= j < n && ways.take(n as int)[j] == provider;
            if j < m {
                assert(ways.take(m as int)[j] == provider);
                let k = choose|k: int| 0 <= k < before.len() && before[k] == provider;
                assert(all[k] == provider);
            } else {
                assert(all[before.len() as int] == provider);
            }
        }
    }
}

/// A way of recognition has a problem exactly where this computer lacks something for it; while
/// it is not known what this computer has, nothing is told.
pub proof fn a_problem_is_something_missing(
    environment: Option<&Environment>,
    provider: AsrProvider,
    apple_silicon: bool,
    issue: Option<&'static str>,
)
    requires
        call_ensures(model_device_issue, (environment, provider, apple_silicon), issue),
    ensures
        environment is None ==> issue is None,
        environment matches Some(found) ==> {
            &&& !found.engine ==> issue is Some
            &&& found.engine && provider is Api ==> issue is None
            &&& found.engine && provider is Coreml ==> (issue is None <==> found.apple)
            &&& found.engine && provider is Gpu ==> (issue is None <==> found.llama && found.gpu
                is Some)
            &&& found.engine && provider is Cpu ==> (issue is None <==> found.llama)
            &&& found.engine && provider is Npu ==> (issue is None <==> found.npu_device
                && found.npu_runtime)
        },
{
}

/// A request without a model is for the default one, and a request for a model is for that.
pub proof fn a_request_is_for_its_model(
    provider: AsrProvider,
    model: Option<&str>,
    root: &str,
    request: Request,
)
    requires
        call_ensures(Request::new, (provider, model, root), request),
    ensures
        request.provider == provider,
        request.root@ == root@,
        model is None ==> request.model@ == "qwen3-1.7b"@,
        model is Some && is_blank(model->0@) ==> request.model@ == "qwen3-1.7b"@,
        model is Some && !is_blank(model->0@) ==> request.model@ == model->0@,
{
}

/// A model is offered to be prepared exactly where that can be done and is not under way; while
/// the engine is at work the button waits.
pub proof fn a_model_is_offered_to_be_prepared(
    state: State,
    request: Request,
    known: bool,
    issue: bool,
    job: bool,
    models: bool,
    panel: ReadinessPanel,
)
    requires
        state.wf(),
        call_ensures(State::readiness, (&state, &request, known, issue, job, models), panel),
    ensures
        ({
            let there = state.entries.map().contains_key(request.id());
            let entry = state.entries.map()[request.id()];
            let can = there && entry.result is Some && entry.result->0 is Ok
                && entry.result->0->Ok_0.can_prepare;
            &&& panel.prepare is Some <==> known && !issue && can && !panel.active
            &&& panel.prepare matches Some(button) ==> {
                let loaded = entry.result->0->Ok_0.state is Loaded;
                &&& button.disabled == job
                &&& button.primary <==> !loaded
                &&& entry.result->0->Ok_0.state is Missing ==> button.label@ == "下载并准备模型"@
                &&& loaded ==> button.label@ == "重新验证加载"@
                &&& entry.result->0->Ok_0.state is Partial ==> button.label@ == "继续准备模型"@
            }
            &&& panel.checking <==> !there || entry.checking
        }),
        panel.active <==> models && job && state.preparing is Some && state.preparing->0.id()
            == request.id(),
        panel.recheck_disabled <==> panel.checking || panel.active,
{
}

/// What helps is offered where something that can be installed is missing, and only then.
pub proof fn what_helps_is_what_is_missing(
    environment: Option<&Environment>,
    provider: AsrProvider,
    apple_silicon: bool,
    repair: RuntimeRepair,
)
    requires
        call_ensures(model_runtime_repair, (environment, provider, apple_silicon), repair),
    ensures
        environment is None ==> repair is Nothing,
        environment matches Some(found) ==> {
            &&& !found.engine ==> repair is Reinstall
            &&& found.engine && provider is Api ==> repair is Nothing
            &&& found.engine && (provider is Cpu || provider is Gpu) ==> (repair is InstallLlama
                <==> !found.llama)
            &&& found.engine && provider is Npu ==> (repair is InstallLauncher <==> found.npu_device
                && !found.npu_runtime)
            &&& found.engine && provider is Coreml ==> (repair is Reinstall <==> !found.apple
                && apple_silicon)
        },
{
}

/// What a model's state means is told: only what can be loaded is a success, and what is missing
/// or cannot be used is told as such.
pub proof fn a_state_is_told(state: CacheState, told: (BadgeKind, &'static str, &'static str))
    requires
        call_ensures(cache_state_texts, (state,), told),
    ensures
        told.0 is Success <==> state is Loaded,
        told.0 is Warning <==> state is Partial || state is Unsupported,
        state is Missing ==> told.1@ == "待下载"@,
        state is Cached ==> told.1@ == "已下载"@,
        state is Loaded ==> told.1@ == "已验证可加载"@,
{
}

/// Opening the details of a cache twice leaves them as they were, and no others are touched.
pub proof fn cache_details_open_and_close(
    first: &mut State,
    second: &mut State,
    key: String,
)
    requires
        old(first).wf(),
        call_ensures(State::toggle_cache_details, (first, &key), ()),
        *old(second) == *final(first),
        call_ensures(State::toggle_cache_details, (second, &key), ()),
    ensures
        final(first).cache_details.map().contains_key(key@) <==> !old(
            first).cache_details.map().contains_key(key@),
        final(second).cache_details.map() == old(first).cache_details.map(),
        final(first).entries == old(first).entries,
{
    assert(final(second).cache_details.map() =~= old(first).cache_details.map());
}

} // verus!
