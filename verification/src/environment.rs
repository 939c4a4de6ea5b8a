//! What this computer can run.
use crate::text::{
    before, begins, chars_of, first_index, first_index_within, index_of, same, starts_with,
    string_of, text_before, trim, trimmed,
};
use vstd::prelude::*;

verus! {

/// The tools and devices that were found.
#[derive(Clone, Debug, PartialEq, Eq)]
pub struct Environment {
    pub engine: bool,
    pub ffmpeg: bool,
    pub ffprobe: bool,
    pub ytdlp: bool,
    pub llama: bool,
    pub apple: bool,
    pub gpu: Option<String>,
    pub npu: bool,
    pub npu_device: bool,
    pub npu_runtime: bool,
}

/// What was found out by running programs and looking at files. A program's output
/// is there only if it ran and ended well.
pub struct Findings {
    pub cli_found: bool,
    pub engine_version: Option<String>,
    pub ffmpeg_version: Option<String>,
    pub ffprobe_version: Option<String>,
    pub ytdlp_version: Option<String>,
    pub devices: Option<String>,
    pub llama_on_path: bool,
    pub apple_platform: bool,
    pub metal_library: bool,
    pub npu_device: bool,
    pub npu_runtime: bool,
}

/// The device ids that name a graphics processor.
pub open spec fn names_gpu(id: Seq<char>) -> bool {
    begins(id, "MTL"@) || begins(id, "CUDA"@) || begins(id, "Vulkan"@) || begins(id, "SYCL"@)
        || begins(id, "ROCm"@)
}

/// The graphics processor that one line of a device list names: the text behind
/// the id and before any remark in brackets.
pub open spec fn gpu_of_line(line: Seq<char>) -> Option<Seq<char>> {
    let n = first_index(line, ':');
    if n < line.len() && names_gpu(line.take(n)) {
        Some(trimmed(before(line.skip(n + 1), " ("@)))
    } else {
        None
    }
}

/// The first graphics processor in a device list.
pub open spec fn first_gpu(output: Seq<char>) -> Option<Seq<char>>
    decreases output.len(),
{
    let n = first_index(output, '\n');
    match gpu_of_line(trimmed(output.take(n))) {
        Some(gpu) => Some(gpu),
        None => if 0 <= n < output.len() {
            first_gpu(output.skip(n + 1))
        } else {
            None
        },
    }
}

fn is_gpu_id(id: &str) -> (result: bool)
    ensures
        result == names_gpu(id@),
{
    starts_with(id, "MTL") || starts_with(id, "CUDA") || starts_with(id, "Vulkan") || starts_with(
        id,
        "SYCL",
    ) || starts_with(id, "ROCm")
}

fn line_gpu(line: &str) -> (result: Option<String>)
    ensures
        result is Some == gpu_of_line(line@) is Some,
        result matches Some(gpu) ==> Some(gpu@) == gpu_of_line(line@),
{
    let chars = chars_of(line);
    let n = index_of(&chars, ':', 0);
    assert(chars@.skip(0) =~= chars@);
    if n >= chars.len() {
        return None;
    }
    let id = string_of(&chars, 0, n);
    assert(chars@.subrange(0, n as int) =~= chars@.take(n as int));
    if !is_gpu_id(id.as_str()) {
        return None;
    }
    let rest = string_of(&chars, n + 1, chars.len());
    assert(chars@.subrange(n + 1, chars@.len() as int) =~= chars@.skip(n + 1));
    let name = text_before(rest.as_str(), " (");
    Some(trim(name.as_str()))
}

/// The first graphics processor that a device list names.
pub fn listed_gpu(output: &str) -> (result: Option<String>)
    ensures
        result is Some == first_gpu(output@) is Some,
        result matches Some(gpu) ==> Some(gpu@) == first_gpu(output@),
{
    let chars = chars_of(output);
    let mut from: usize = 0;
    assert(chars@.skip(0) =~= chars@);
    loop
        invariant
            from <= chars@.len(),
            first_gpu(chars@.skip(from as int)) == first_gpu(chars@),
            chars@ == output@,
        decreases chars@.len() - from,
    {
        let n = index_of(&chars, '\n', from);
        let ghost rest = chars@.skip(from as int);
        assert(chars@.subrange(from as int, n as int) =~= rest.take(n - from));
        let line = string_of(&chars, from, n);
        let line = trim(line.as_str());
        if let Some(gpu) = line_gpu(line.as_str()) {
            return Some(gpu);
        }
        if n >= chars.len() {
            return None;
        }
        assert(rest.skip(n - from + 1) =~= chars@.skip(n + 1));
        from = n + 1;
    }
}

/// Whether a device's vendor id is Intel's.
pub fn intel_device(vendor: &str) -> (result: bool)
    ensures
        result == (trimmed(vendor@) == "0x8086"@),
{
    same(trim(vendor).as_str(), "0x8086")
}

impl Environment {
    /// What the findings amount to: the engine must be there and run, and a neural
    /// processor needs both a device and something to start its runtime.
    pub fn detect(findings: &Findings) -> (result: Environment)
        ensures
            result.engine == (findings.cli_found && findings.engine_version is Some),
            result.ffmpeg == findings.ffmpeg_version is Some,
            result.ffprobe == findings.ffprobe_version is Some,
            result.ytdlp == findings.ytdlp_version is Some,
            result.llama == findings.llama_on_path,
            result.apple == (findings.apple_platform && findings.cli_found
                && findings.metal_library),
            result.npu_device == findings.npu_device,
            result.npu_runtime == findings.npu_runtime,
            result.npu == (findings.npu_device && findings.npu_runtime),
            match findings.devices {
                Some(output) => (match result.gpu {
                    Some(gpu) => first_gpu(output@) == Some(gpu@),
                    None => first_gpu(output@) is None,
                }),
                None => result.gpu is None,
            },
    {
        let gpu = match &findings.devices {
            Some(output) => listed_gpu(output.as_str()),
            None => None,
        };
        Environment {
            engine: findings.cli_found && findings.engine_version.is_some(),
            ffmpeg: findings.ffmpeg_version.is_some(),
            ffprobe: findings.ffprobe_version.is_some(),
            ytdlp: findings.ytdlp_version.is_some(),
            llama: findings.llama_on_path,
            apple: findings.apple_platform && findings.cli_found && findings.metal_library,
            gpu,
            npu: findings.npu_device && findings.npu_runtime,
            npu_device: findings.npu_device,
            npu_runtime: findings.npu_runtime,
        }
    }
}

/// A named graphics processor never carries white space at its ends.
pub proof fn gpu_name_is_trimmed(output: Seq<char>)
    requires
        first_gpu(output) is Some,
        first_gpu(output)->0.len() > 0,
    ensures
        !crate::text::is_space(first_gpu(output)->0.last()),
    decreases output.len(),
{
    first_index_within(output, '\n');
    let n = first_index(output, '\n');
    let line = trimmed(output.take(n));
    match gpu_of_line(line) {
        Some(gpu) => {
            let at = first_index(line, ':');
            crate::text::trimmed_has_no_space_at_its_end(before(line.skip(at + 1), " ("@));
        },
        None => {
            gpu_name_is_trimmed(output.skip(n + 1));
        },
    }
}

/// What this computer has is what was found: a tool where it told its version, the neural
/// processor where device and launcher are there, and Apple's way where the system, the engine
/// and its library are.
pub proof fn the_computer_has_what_was_found(findings: Findings, environment: Environment)
    requires
        call_ensures(Environment::detect, (&findings,), environment),
    ensures
        environment.engine ==> findings.cli_found && findings.engine_version is Some,
        findings.cli_found && findings.engine_version is Some ==> environment.engine,
        environment.ffmpeg <==> findings.ffmpeg_version is Some,
        environment.ffprobe <==> findings.ffprobe_version is Some,
        environment.ytdlp <==> findings.ytdlp_version is Some,
        environment.llama <==> findings.llama_on_path,
        environment.apple <==> findings.apple_platform && findings.cli_found
            && findings.metal_library,
        environment.npu ==> environment.npu_device && environment.npu_runtime,
        environment.npu_device && environment.npu_runtime ==> environment.npu,
        environment.npu_device <==> findings.npu_device,
        environment.npu_runtime <==> findings.npu_runtime,
        findings.devices is None ==> environment.gpu is None,
{
}

/// A device is a graphics processor where the name before the colon begins like one of the
/// five kinds; it is called by what follows, up to the bracket.
pub proof fn a_device_is_called_by_its_name(line: Seq<char>, id: Seq<char>, rest: Seq<char>)
    requires
        line == id + seq![':'] + rest,
        forall|i: int| 0 <= i < id.len() ==> #[trigger] id[i] != ':',
    ensures
        gpu_of_line(line) is Some <==> {
            ||| begins(id, "MTL"@)
            ||| begins(id, "CUDA"@)
            ||| begins(id, "Vulkan"@)
            ||| begins(id, "SYCL"@)
            ||| begins(id, "ROCm"@)
        },
        gpu_of_line(line) matches Some(name) ==> name == trimmed(before(rest, " ("@)),
{
    crate::text::first_index_within(line, ':');
    let n = first_index(line, ':');
    assert(line[id.len() as int] == ':');
    assert(n == id.len()) by {
        if n < id.len() {
            assert(line[n] == id[n]);
        }
        if n > id.len() {
            assert(line[id.len() as int] != ':');
        }
    }
    assert(line.take(n) =~= id);
    assert(line.skip(n + 1) =~= rest);
}

/// Devices are looked through line by line, and the first graphics processor counts.
pub proof fn the_first_device_counts(line: Seq<char>, rest: Seq<char>)
    requires
        forall|i: int| 0 <= i < line.len() ==> #[trigger] line[i] != '\n',
    ensures
        gpu_of_line(trimmed(line)) is Some ==> first_gpu(line + seq!['\n'] + rest) == gpu_of_line(
            trimmed(line),
        ),
        gpu_of_line(trimmed(line)) is None ==> first_gpu(line + seq!['\n'] + rest) == first_gpu(rest),
        first_gpu(line) == gpu_of_line(trimmed(line)),
{
    let output = line + seq!['\n'] + rest;
    crate::text::first_index_within(output, '\n');
    crate::text::first_index_within(line, '\n');
    let n = first_index(output, '\n');
    assert(output[line.len() as int] == '\n');
    assert(n == line.len()) by {
        if n < line.len() {
            assert(output[n] == line[n]);
        }
        if n > line.len() {
            assert(output[line.len() as int] != '\n');
        }
    }
    assert(output.take(n) =~= line);
    assert(output.skip(n + 1) =~= rest);
    let own = first_index(line, '\n');
    assert(own == line.len());
    assert(line.take(own) =~= line);
}

/// A device is Intel's by its vendor number, whatever white space is around it.
pub proof fn a_vendor_is_told_by_its_number(vendor: &str, intel: bool)
    requires
        call_ensures(intel_device, (vendor,), intel),
    ensures
        vendor@ == "0x8086"@ ==> intel,
        intel ==> trimmed(vendor@) == "0x8086"@,
{
    reveal_strlit("0x8086");
    if vendor@ == "0x8086"@ {
        crate::text::trimmed_text_stays(vendor@);
    }
}

/// The graphics processor is the one that the runtime lists.
pub proof fn the_graphics_processor_is_the_listed_one(
    findings: Findings,
    output: String,
    environment: Environment,
    listed: Option<String>,
    text: &str,
)
    requires
        call_ensures(Environment::detect, (&findings,), environment),
        findings.devices == Some(output),
        text@ == output@,
        call_ensures(listed_gpu, (text,), listed),
    ensures
        environment.gpu is Some <==> listed is Some,
        environment.gpu is Some ==> environment.gpu->0@ == listed->0@,
{
}

} // verus!
