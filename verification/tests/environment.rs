//! Tools and devices.
use course2md_desktop::environment::{intel_device, listed_gpu, Environment, Findings};

fn findings() -> Findings {
    Findings {
        cli_found: true,
        engine_version: Some("1".into()),
        ffmpeg_version: Some("2".into()),
        ffprobe_version: None,
        ytdlp_version: Some("3".into()),
        devices: None,
        llama_on_path: false,
        apple_platform: false,
        metal_library: false,
        npu_device: true,
        npu_runtime: false,
    }
}

#[test]
fn a_device_list_names_the_first_gpu() {
    let output = "Available devices:\r\n  CPU: something\r\n  CUDA0: NVIDIA RTX (24 GiB, free)\n  Vulkan1: Other\n";
    assert_eq!(listed_gpu(output).as_deref(), Some("NVIDIA RTX"));
    assert_eq!(listed_gpu("MTL0:   Apple M2  ").as_deref(), Some("Apple M2"));
    assert_eq!(listed_gpu("SYCL0: (x)").as_deref(), Some(""));
    assert_eq!(listed_gpu("no devices\nBLAS: x"), None);
    assert_eq!(listed_gpu(""), None);
}

#[test]
fn findings_make_an_environment() {
    let found = Environment::detect(&findings());
    assert!(found.engine && found.ffmpeg && !found.ffprobe && found.ytdlp);
    assert!(!found.llama && !found.apple);
    assert!(found.npu_device && !found.npu_runtime && !found.npu);
    assert_eq!(found.gpu, None);
    let listed = Environment::detect(&Findings {
        cli_found: false,
        devices: Some("ROCm0: AMD".into()),
        apple_platform: true,
        metal_library: true,
        npu_runtime: true,
        ..findings()
    });
    assert!(!listed.engine && !listed.apple && listed.npu);
    assert_eq!(listed.gpu.as_deref(), Some("AMD"));
}

#[test]
fn intel_devices_are_known_by_their_vendor() {
    assert!(intel_device("0x8086\n"));
    assert!(!intel_device("0x10de"));
}
