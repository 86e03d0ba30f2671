use calibrate::commands::diagnose::{
    check_apple_gpu, check_nvidia, check_platform, check_proc_visibility, find_training_pids,
    is_training_cmd, truncate, try_find_training_pids, verdict, verdict_lines, ControlDevice,
    DeviceReport, NvidiaFacts, NvmlReport, Status, Verdict,
};
use calibrate::error::CalibrateError;
use calibrate::process::discover::TrainingProcess;

#[test]
fn recognises_train_py() {
    assert!(is_training_cmd("python3 training/train.py --data /data/features.bin"));
}

#[test]
fn recognises_finetune_script() {
    assert!(is_training_cmd("python finetune.py --model llama"));
}

#[test]
fn recognises_torch_in_command() {
    assert!(is_training_cmd("python3 run.py --backend torch"));
}

#[test]
fn recognises_pytorch_lightning() {
    assert!(is_training_cmd("python3 -m lightning fit --config config.yaml"));
}

#[test]
fn does_not_match_plain_python() {
    assert!(!is_training_cmd("python3 serve.py --port 8080"));
}

#[test]
fn does_not_match_non_python_process() {
    assert!(!is_training_cmd("node train.js"));
}

#[test]
fn does_not_match_empty_string() {
    assert!(!is_training_cmd(""));
}

#[test]
fn case_insensitive_match() {
    assert!(is_training_cmd("Python3 TRAIN.PY"));
}

#[test]
fn truncate_short_string_unchanged() {
    assert_eq!(truncate("hello", 10), "hello");
}

#[test]
fn truncate_exact_length_unchanged() {
    assert_eq!(truncate("hello", 5), "hello");
}

#[test]
fn truncate_long_string_appends_ellipsis() {
    let result = truncate("abcdefghij", 5);
    assert!(result.starts_with("abcde"), "got: {result}");
    assert!(result.ends_with('…'), "got: {result}");
}

#[test]
fn truncate_zero_max_still_appends_ellipsis() {
    let result = truncate("hello", 0);
    assert_eq!(result, "…");
}

#[test]
fn status_pass_prefix_is_checkmark() {
    assert_eq!(Status::Pass("ok".into()).prefix(), "✓");
}

#[test]
fn status_fail_prefix_is_cross() {
    assert_eq!(Status::Fail("bad".into()).prefix(), "✗");
}

#[test]
fn status_warn_prefix_is_triangle() {
    assert_eq!(Status::Warn("meh".into()).prefix(), "⚠");
}

#[test]
fn status_info_prefix_is_dot() {
    assert_eq!(Status::Info("note".into()).prefix(), "·");
}

#[test]
fn only_fail_variant_is_fail() {
    assert!(Status::Fail("x".into()).is_fail());
    assert!(!Status::Pass("x".into()).is_fail());
    assert!(!Status::Warn("x".into()).is_fail());
    assert!(!Status::Info("x".into()).is_fail());
}

#[test]
fn only_warn_variant_is_warn() {
    assert!(Status::Warn("x".into()).is_warn());
    assert!(!Status::Pass("x".into()).is_warn());
    assert!(!Status::Fail("x".into()).is_warn());
    assert!(!Status::Info("x".into()).is_warn());
}

#[test]
fn nvml_init_error_mentions_modprobe() {
    let msg = CalibrateError::NvmlInit("some error".into()).message();
    assert!(msg.contains("modprobe"), "NvmlInit error must mention 'modprobe'; got: {msg}");
}

#[test]
fn nvml_init_error_mentions_diagnose() {
    let msg = CalibrateError::NvmlInit("some error".into()).message();
    assert!(
        msg.contains("diagnose"),
        "NvmlInit error must point users to 'calibrate diagnose'; got: {msg}"
    );
}

#[test]
fn process_not_found_error_mentions_pgrep() {
    let msg = CalibrateError::ProcessNotFound { pid: 99 }.message();
    assert!(msg.contains("pgrep"), "ProcessNotFound must suggest pgrep; got: {msg}");
}

#[test]
fn diagnose_permission_denied_error_mentions_sudo() {
    let msg = CalibrateError::PermissionDenied { pid: 42 }.message();
    assert!(msg.contains("sudo"), "PermissionDenied must suggest sudo; got: {msg}");
}

#[test]
fn no_gpu_process_error_is_actionable() {
    let msg = CalibrateError::NoGpuProcess { pid: 1 }.message();
    // Should explain possible causes, not just "not using GPU"
    assert!(
        msg.contains("CPU") || msg.contains("device"),
        "NoGpuProcess should explain causes; got: {msg}"
    );
}

#[test]
fn every_error_has_a_message() {
    let all = [
        CalibrateError::NvmlQuery("q".into()),
        CalibrateError::AppleGpuInit("i".into()),
        CalibrateError::AppleGpuQuery("a".into()),
        CalibrateError::ProcRead { pid: 3, source: "gone".into() },
        CalibrateError::ProcFormat { pid: 3 },
        CalibrateError::SpecFetch("f".into()),
        CalibrateError::SpecNotFound { name: "X1".into() },
        CalibrateError::ProcessExited { pid: 3 },
        CalibrateError::ChannelClosed,
        CalibrateError::Io("io".into()),
        CalibrateError::Json("json".into()),
    ];
    for e in all {
        assert!(!e.message().is_empty(), "{e:?}");
    }
    assert!(CalibrateError::SpecNotFound { name: "X1".into() }.message().contains("X1"));
}

#[test]
fn platform_check_returns_at_least_two_entries() {
    for (os, arch) in [("linux", "x86_64"), ("macos", "aarch64"), ("windows", "x86_64")] {
        let results = check_platform(os, arch);
        assert!(
            results.len() >= 2,
            "Expected at least 2 platform check results, got {}",
            results.len()
        );
    }
}

#[test]
fn platform_check_includes_os_info() {
    let results = check_platform("linux", "x86_64");
    let has_os_info =
        results.iter().any(|s| s.message().contains("OS:") && s.message().contains("arch:"));
    assert!(has_os_info, "Platform check should report OS and arch");
}

#[test]
fn proc_visibility_passes_for_own_pid() {
    let own_pid: u32 = 4242;
    let results = check_proc_visibility(own_pid, true, &vec![]);
    let pass = results
        .iter()
        .any(|s| matches!(s, Status::Pass(_)) && s.message().contains(&own_pid.to_string()));
    assert!(pass, "Own PID ({own_pid}) should be visible; got: {results:?}");
}

#[test]
fn verdict_is_the_worst_finding() {
    let pass = || Status::Pass("p".to_string());
    let warn = || Status::Warn("w".to_string());
    let fail = || Status::Fail("f".to_string());
    assert_eq!(verdict(&vec![pass(), Status::Info("i".to_string())]), Verdict::Ready);
    assert_eq!(verdict(&vec![pass(), warn()]), Verdict::Warn);
    assert_eq!(verdict(&vec![fail(), warn()]), Verdict::Fail);
    assert!(!verdict_lines(Verdict::Fail).is_empty());
    assert!(warn().line().contains("⚠"));
}

fn facts() -> NvidiaFacts {
    NvidiaFacts {
        smi_path: Some("/usr/bin/nvidia-smi".to_string()),
        smi_output: Ok("RTX 3090, 535.1".to_string()),
        nvml_library: Some("/usr/lib/libnvidia-ml.so.1".to_string()),
        control_device: ControlDevice::Mode(0o666),
        nvml: Ok(NvmlReport {
            device_count: 1,
            devices: vec![DeviceReport {
                index: 0,
                name: Some("RTX 3090".to_string()),
                memory_total_bytes: Some(24 * 1024 * 1024 * 1024),
                driver: Some("535.1".to_string()),
            }],
        }),
    }
}

#[test]
fn healthy_nvidia_software_passes() {
    let all = check_nvidia(&facts());
    assert!(!all.iter().any(|s| s.is_fail()), "{all:?}");
    assert!(all.iter().any(|s| s.message().contains("RTX 3090")), "{all:?}");
}

#[test]
fn missing_nvidia_software_fails() {
    let all = check_nvidia(&NvidiaFacts {
        smi_path: None,
        smi_output: Err("not found".to_string()),
        nvml_library: None,
        control_device: ControlDevice::Missing,
        nvml: Err("no driver".to_string()),
    });
    assert!(all.iter().any(|s| s.is_fail()), "{all:?}");
}

#[test]
fn apple_gpu_reports_the_chip() {
    let all = check_apple_gpu(&Some("Apple M3 Max".to_string()), &Some("14.1".to_string()), &Ok(()));
    assert!(all.iter().any(|s| s.message().contains("Apple M3 Max")), "{all:?}");
    let all = check_apple_gpu(&None, &None, &Err(CalibrateError::AppleGpuInit("none".to_string())));
    assert!(all.iter().any(|s| s.is_fail() || s.is_warn()), "{all:?}");
}

#[test]
fn training_processes_are_picked_out() {
    let p = |pid, command: &str| TrainingProcess { pid, command: command.to_string() };
    let found = find_training_pids(&vec![p(1, "python3 train.py"), p(2, "bash"), p(3, "python torch.py")]);
    assert_eq!(found.iter().map(|f| f.pid).collect::<Vec<_>>(), vec![1, 3]);
    let shown = check_proc_visibility(9, true, &found);
    assert!(shown.iter().any(|s| s.message().contains("train.py")), "{shown:?}");
    let odd = format!("{}é.sh", "x".repeat(79));
    let found = try_find_training_pids(&vec![p(1, &odd), p(2, "python train.py")]).unwrap();
    assert_eq!(found.iter().map(|f| f.pid).collect::<Vec<_>>(), vec![2]);
    assert!(try_find_training_pids(&vec![p(1, &format!("python train.py {odd}"))]).is_some());
    let long = format!("python train.py {}é.csv", "x".repeat(63));
    assert!(try_find_training_pids(&vec![p(1, &long)]).is_none());
}
