use calibrate::collectors::apple_gpu::{
    gpu_memory_used, read_stats, AppleGpuCollector, GpuStats, RegistryReading,
};
use calibrate::collectors::cpu_only::{on_liveness, CpuOnlyCollector, LivenessTick};
use calibrate::collectors::nvml::{
    discover_gpu_indices, sample_device, DeviceReading, NvmlCollector, Tick,
};
use calibrate::collectors::proc::{parse_cpu_ticks, ProcCollector};
use calibrate::commands::probe::{attached_lines, streaming_text, Arrival, Probe, Reaction};
use calibrate::commands::watch::{container_advisory, nvml_advisory, on_wakeup, Refresh, Wakeup};
use calibrate::error::CalibrateError;
use calibrate::float::F32;
use calibrate::metrics::units::{Mib, Percent};
use calibrate::process::attach::{attach, find_gpu_indices, ContainerContext, DeviceUse, GpuUse};
use calibrate::process::container::detect;
use calibrate::process::discover::{
    all_processes, can_show, choose_candidate, command_line, is_training_cmd, ps_processes,
    resolve_auto, resolve_pid, try_resolve_pid, ProcEntry, Resolution, TrainingProcess,
};

fn f32_of(x: f32) -> F32 {
    F32::of(x.to_bits())
}

fn process(pid: u32, command: &str) -> TrainingProcess {
    TrainingProcess { pid, command: command.to_string() }
}

// Attaching

/// A PID that can never exist on Linux (max is typically 4_194_304).
const NONEXISTENT_PID: u32 = 4_000_001;

#[test]
fn nonexistent_pid_returns_process_not_found() {
    let result =
        attach(NONEXISTENT_PID, false, false, ContainerContext::Host, Err(CalibrateError::NvmlUnavailable));
    assert!(result.is_err());
    match result.unwrap_err() {
        CalibrateError::ProcessNotFound { pid } => assert_eq!(pid, NONEXISTENT_PID),
        other => panic!("unexpected error for nonexistent PID: {other:?}"),
    }
    let isolated = attach(
        NONEXISTENT_PID,
        false,
        false,
        ContainerContext::Docker,
        Err(CalibrateError::NvmlUnavailable),
    );
    assert!(matches!(isolated, Err(CalibrateError::ContainerPidIsolation { .. })));
}

#[test]
fn process_not_found_error_message_is_actionable() {
    let msg = CalibrateError::ProcessNotFound { pid: 99999 }.message();
    assert!(msg.contains("99999"), "error message should contain the PID: {msg}");
    assert!(
        msg.contains("running"),
        "error message should mention whether process is running: {msg}"
    );
}

#[test]
fn container_isolation_error_includes_docker_exec_hint() {
    let msg = CalibrateError::ContainerPidIsolation { pid: 12345 }.message();
    assert!(msg.contains("docker"), "should mention docker: {msg}");
    assert!(msg.contains("kubectl"), "should mention kubectl: {msg}");
    assert!(msg.contains("12345"), "should include the PID: {msg}");
}

#[test]
fn attach_permission_denied_error_mentions_sudo() {
    let msg = CalibrateError::PermissionDenied { pid: 7 }.message();
    assert!(
        msg.contains("sudo") || msg.contains("permission") || msg.contains("insufficient"),
        "error should mention privilege escalation: {msg}"
    );
}

#[test]
fn nvml_init_error_mentions_driver() {
    let msg = CalibrateError::NvmlInit("library not found".to_string()).message();
    assert!(
        msg.contains("nvidia") || msg.contains("driver") || msg.contains("nvidia-smi"),
        "NVML init error should mention the driver: {msg}"
    );
}

#[test]
fn nvml_unavailable_error_is_descriptive() {
    let msg = CalibrateError::NvmlUnavailable.message();
    assert!(
        msg.contains("NVML") || msg.contains("non-NVIDIA"),
        "error should mention NVML or non-NVIDIA: {msg}"
    );
}

#[test]
fn container_context_detect_returns_a_value() {
    assert_eq!(detect(false, &None), ContainerContext::Host);
    assert_eq!(detect(true, &None), ContainerContext::Docker);
    let pod = Some("0::/kubepods/besteffort/pod1".to_string());
    assert_eq!(detect(false, &pod), ContainerContext::Kubernetes);
}

#[test]
fn unreadable_processes_are_denied() {
    let r = attach(5, true, false, ContainerContext::Host, Err(CalibrateError::NvmlUnavailable));
    assert!(matches!(r, Err(CalibrateError::PermissionDenied { pid: 5 })));
}

#[test]
fn attached_processes_name_their_gpus() {
    let gpus = GpuUse { indices: vec![1], primary_name: "RTX 3090".to_string() };
    let info = attach(5, true, true, ContainerContext::Host, Ok(gpus)).unwrap();
    assert!(info.nvml_available);
    let lines = attached_lines(&info);
    assert_eq!(lines[0], "Attached to PID 5");
    assert_eq!(lines[1], "  Primary GPU : RTX 3090");
    assert_eq!(lines[2], "  GPU indices : [1]");
    assert_eq!(lines[3], "  Container   : Host");
}

#[test]
fn gpus_are_found_by_their_processes() {
    let devices = vec![
        DeviceUse { pids: vec![1], name: Some("A".to_string()) },
        DeviceUse { pids: vec![2, 5], name: Some("B".to_string()) },
        DeviceUse { pids: vec![5], name: None },
    ];
    let found = find_gpu_indices(&devices, 5);
    assert_eq!(found.indices, vec![1, 2]);
    assert_eq!(found.primary_name, "B");
}

// Discovery

#[test]
fn resolve_pid_returns_given_pid_directly() {
    let r = resolve_pid(Some(42), None, false, &vec![]).unwrap();
    assert!(matches!(r, Resolution::Pid(42)));
}

#[test]
fn resolve_by_pattern_invalid_regex_gives_actionable_error() {
    let msg = resolve_pid(None, Some("[invalid"), false, &vec![]).unwrap_err();
    assert!(msg.contains("invalid regex"), "expected 'invalid regex' in error; got: {msg}");
    assert!(msg.contains("Examples"), "error should include usage examples; got: {msg}");
}

#[test]
fn is_training_cmd_positive_cases() {
    assert!(is_training_cmd("python3 train.py --data /data"));
    assert!(is_training_cmd("python finetune.py --model llama"));
    assert!(is_training_cmd("python3 run.py --backend torch"));
    assert!(is_training_cmd("python3 -m lightning fit --config cfg.yaml"));
}

#[test]
fn is_training_cmd_negative_cases() {
    assert!(!is_training_cmd("python3 serve.py --port 8080"));
    assert!(!is_training_cmd("node train.js"));
    assert!(!is_training_cmd(""));
}

#[test]
fn is_training_cmd_case_insensitive() {
    assert!(is_training_cmd("PYTHON3 TRAIN.PY"));
}

#[test]
fn patterns_pick_one_process() {
    let all = vec![process(7, "python3 train.py"), process(8, "bash")];
    let r = resolve_pid(None, Some("tra.n\\.py$"), false, &all).unwrap();
    assert!(matches!(r, Resolution::Pid(7)), "{r:?}");
    assert!(resolve_pid(None, Some("nothing"), false, &all).is_err());
    let many = vec![process(7, "python3 train.py"), process(8, "python3 train.py")];
    let msg = resolve_pid(None, Some("train"), false, &many).unwrap_err();
    assert!(msg.contains("7") && msg.contains("8"), "got: {msg}");
}

#[test]
fn auto_detection_asks_where_there_are_several() {
    assert!(resolve_auto(&vec![process(1, "bash")]).is_err());
    let one = resolve_auto(&vec![process(1, "bash"), process(2, "python train.py")]).unwrap();
    assert!(matches!(one, Resolution::Detected { pid: 2, .. }), "{one:?}");
    let two = vec![process(2, "python train.py"), process(3, "python finetune.py")];
    match resolve_auto(&two).unwrap() {
        Resolution::Ask { candidates, menu, .. } => {
            assert_eq!(menu.len(), 2);
            assert_eq!(choose_candidate(&candidates, " 2 \n").unwrap(), 3);
            assert!(choose_candidate(&candidates, "0").is_err());
            assert!(choose_candidate(&candidates, "3").is_err());
            assert!(choose_candidate(&candidates, "x").is_err());
        }
        other => panic!("unexpected resolution: {other:?}"),
    }
}

#[test]
fn only_commands_to_show_have_to_be_cut() {
    // The eightieth byte is the first of two of one character.
    let odd = format!("{}é.sh", "x".repeat(79));
    let all = vec![process(1, &odd), process(2, "python train.py")];
    assert!(!can_show(&all));
    assert!(can_show(&vec![process(2, "python train.py")]));
    let by_pid = try_resolve_pid(Some(42), None, false, &all).unwrap().unwrap();
    assert!(matches!(by_pid, Resolution::Pid(42)), "{by_pid:?}");
    let other = try_resolve_pid(None, Some("train"), false, &all).unwrap().unwrap();
    assert!(matches!(other, Resolution::Pid(2)), "{other:?}");
    let single = try_resolve_pid(None, Some("xxx"), false, &all).unwrap().unwrap();
    assert!(matches!(single, Resolution::Pid(1)), "{single:?}");
    let auto = try_resolve_pid(None, None, true, &all).unwrap().unwrap();
    assert!(matches!(auto, Resolution::Detected { pid: 2, .. }), "{auto:?}");
    // Both match, so both would be shown.
    assert!(try_resolve_pid(None, Some("."), false, &all).is_none());
    assert!(try_resolve_pid(None, Some("["), false, &all).unwrap().is_err());
    assert!(try_resolve_pid(None, None, false, &all).unwrap().is_err());
    let long = vec![process(3, &format!("python train.py {}é.csv", "x".repeat(63)))];
    assert!(try_resolve_pid(None, None, true, &long).is_none());
}

#[test]
fn processes_are_listed_without_this_one() {
    assert_eq!(command_line("python3\0train.py\0"), "python3 train.py");
    let entry = |name: &str, cmd: Option<&str>| ProcEntry {
        name: name.to_string(),
        cmdline: cmd.map(|c| c.to_string()),
    };
    let entries = vec![
        entry("10", Some("python3\0train.py\0")),
        entry("11", Some("calibrate\0")),
        entry("self", Some("calibrate\0")),
        entry("12", None),
        entry("13", Some("")),
    ];
    let found = all_processes(&entries, 11);
    assert_eq!(found.len(), 1);
    assert_eq!((found[0].pid, found[0].command.as_str()), (10, "python3 train.py"));
    assert!(found[0].text().contains("10"));
    let listed = ps_processes("  PID ARGS\n  10 python3 train.py\n  11 calibrate\n", 11);
    assert_eq!(listed.len(), 1);
    assert_eq!((listed[0].pid, listed[0].command.as_str()), (10, "python3 train.py"));
}

// Process statistics

#[test]
fn parse_stat_simple() {
    // Simulated /proc/PID/stat with utime=100, stime=50 at fields 14+15.
    // We construct the string with the right structure.
    let line = "1234 (python3) S 0 0 0 0 -1 0 0 0 0 0 100 50 0 0 ...";
    let ticks = parse_cpu_ticks(line, 1234).unwrap();
    assert_eq!(ticks, 150);
}

#[test]
fn parse_stat_comm_with_spaces() {
    // Process names can contain spaces: ensure the last ')' counts.
    let line = "5678 (my weird process) R 0 0 0 0 -1 0 0 0 0 0 200 80 0 0 ...";
    let ticks = parse_cpu_ticks(line, 5678).unwrap();
    assert_eq!(ticks, 280);
}

#[test]
fn malformed_statistics_are_rejected() {
    for line in ["", "1 python3 S 0", "1 (x) S 0 0", "1 (x) S 0 0 0 0 -1 0 0 0 0 0 a b"] {
        assert!(matches!(parse_cpu_ticks(line, 1), Err(CalibrateError::ProcFormat { pid: 1 })), "{line}");
    }
}

#[test]
fn cpu_time_is_read_between_samples() {
    assert!(matches!(ProcCollector::new(3, false, 100), Err(CalibrateError::ProcessNotFound { pid: 3 })));
    let mut c = ProcCollector::new(3, true, 100).unwrap();
    assert_eq!(c.stat_path(), "/proc/3/stat");
    let line = |u: u32| Ok(format!("3 (p) S 0 0 0 0 -1 0 0 0 0 0 {u} 0 0 0"));
    assert_eq!(c.sample(line(100)).unwrap(), None);
    let delta = c.sample(line(180)).unwrap().unwrap();
    assert_eq!((delta.ticks, delta.ticks_per_sec), (80, 100));
    assert!(matches!(c.sample(Err("gone".to_string())), Err(CalibrateError::ProcRead { .. })));
    assert_eq!(ProcCollector::utilization(Some(f32_of(250.0))), Percent(f32_of(250.0)));
    assert_eq!(ProcCollector::utilization(None), Percent(f32_of(0.0)));
    assert!(c.is_alive(true) && !c.is_alive(false));
}

// Collectors

#[test]
fn nvml_collector_stops_after_five_idle_ticks() {
    let mut c = NvmlCollector::new(9, 1000);
    for _ in 0..4 {
        assert!(matches!(c.on_tick(Some(vec![])), Tick::Wait));
    }
    assert!(matches!(c.on_tick(Some(vec![2])), Tick::Sample(v) if v == vec![2]));
    for _ in 0..4 {
        assert!(matches!(c.on_tick(Some(vec![])), Tick::Wait));
    }
    assert!(matches!(c.on_tick(Some(vec![])), Tick::Stop));
}

#[test]
fn failed_discoveries_do_not_count() {
    let mut c = NvmlCollector::new(9, 1000);
    for _ in 0..4 {
        assert!(matches!(c.on_tick(Some(vec![])), Tick::Wait));
        assert!(matches!(c.on_tick(None), Tick::Wait));
    }
    assert!(matches!(c.on_tick(Some(vec![])), Tick::Stop));
}

#[test]
fn nvml_errors_are_reported() {
    assert!(NvmlCollector::probe(Ok(())).is_ok());
    assert!(matches!(
        NvmlCollector::probe(Err("no lib".to_string())),
        Err(CalibrateError::NvmlInit(_))
    ));
    assert_eq!(discover_gpu_indices(&Ok(vec![vec![4], vec![9, 4], vec![]]), 9).unwrap(), vec![1]);
    assert!(matches!(
        discover_gpu_indices(&Err("down".to_string()), 9),
        Err(CalibrateError::NvmlQuery(_))
    ));
}

#[test]
fn device_readings_become_samples() {
    let d = DeviceReading {
        gpu_utilization: f32_of(77.0),
        memory_utilization: f32_of(40.0),
        sm_clock: 1500,
        sm_clock_max: 1700,
        memory_used_bytes: 3 * 1024 * 1024,
        memory_total_bytes: 8 * 1024 * 1024,
        temperature: f32_of(60.0),
        power_draw: f32_of(200.0),
        power_limit: f32_of(300.0),
        thermal_slowdown: true,
        power_cap: false,
        hardware_slowdown: false,
    };
    let s = sample_device(&d, 2, 123, Percent(f32_of(11.0)));
    assert_eq!((s.gpu_index, s.timestamp_ms), (2, 123));
    assert_eq!((s.vram_used_mib, s.vram_total_mib), (Mib(3), Mib(8)));
    assert_eq!(s.sm_utilization, Percent(f32_of(77.0)));
    assert!(s.throttle_thermal && !s.throttle_power);
}

#[test]
fn cpu_only_samples_have_no_gpu_figures() {
    let c = CpuOnlyCollector::new(4, 500);
    let s = c.sample(9, Some(Percent(f32_of(55.0))));
    assert_eq!(s.cpu_utilization, Percent(f32_of(55.0)));
    assert_eq!((s.vram_used_mib, s.sm_clock_mhz.0), (Mib(0), 0));
    assert_eq!(on_liveness(true, true), LivenessTick::Break);
    assert_eq!(on_liveness(false, false), LivenessTick::Stop);
    assert_eq!(on_liveness(false, true), LivenessTick::Sample);
}

#[test]
fn apple_readings_are_bounded() {
    let r = |d, c, m| {
        read_stats(&RegistryReading { device_utilization: d, core_utilization: c, memory_in_use: m })
    };
    assert_eq!(r(Some(140), None, Some(-5)).utilization_pct, 100);
    assert_eq!(r(Some(140), None, Some(-5)).memory_used_bytes, 0);
    assert_eq!(r(None, Some(30), Some(64)).utilization_pct, 30);
    assert_eq!(gpu_memory_used(&vec![]), Some(0));
    let stats = vec![r(Some(1), None, Some(64))];
    assert_eq!(gpu_memory_used(&stats), Some(64));
    let full = || GpuStats { utilization_pct: 0, memory_used_bytes: u64::MAX };
    assert_eq!(gpu_memory_used(&vec![full(), full()]), None);
    assert!(AppleGpuCollector::probe(Ok(stats)).is_ok());
    assert!(AppleGpuCollector::probe(Err(CalibrateError::AppleGpuQuery("x".to_string()))).is_err());
}

// The probe

#[test]
fn probes_count_their_samples() {
    let mut p = Probe::new(2);
    assert!(matches!(p.react(Arrival::Sample), Reaction::Write));
    match p.react(Arrival::Timeout) {
        Reaction::Warn(s) => assert!(s.starts_with("Timeout waiting for sample 2/2"), "got: {s}"),
        other => panic!("unexpected reaction: {other:?}"),
    }
    assert!(p.goes_on());
    assert!(matches!(p.react(Arrival::Sample), Reaction::Write));
    assert!(!p.goes_on());
    assert_eq!(p.closing_text(), "Done — 2 sample(s) received successfully.");
    assert_eq!(
        streaming_text(2, "1.0"),
        "Streaming 2 RawSample(s) at 1.0s intervals (JSON, one per line)..."
    );
}

#[test]
fn probes_end_with_their_collector() {
    let mut p = Probe::new(3);
    assert!(matches!(p.react(Arrival::Disconnected), Reaction::End(_)));
    assert!(!p.goes_on());
    assert_eq!(p.closing_text(), "Received 0/3 sample(s) before stopping.");
}

// Advice before a session

#[test]
fn containers_are_advised() {
    let docker = container_advisory(ContainerContext::Docker, 31).unwrap();
    assert!(docker.ends_with("docker exec -it <container> calibrate watch --pid 31"), "got: {docker}");
    let pod = container_advisory(ContainerContext::Kubernetes, 31).unwrap();
    assert!(pod.contains("kubectl"), "got: {pod}");
    assert!(container_advisory(ContainerContext::Host, 31).is_none());
    assert!(nvml_advisory(true).is_none());
    assert!(nvml_advisory(false).unwrap().contains("NVML unavailable"));
}

#[test]
fn the_display_follows_the_session() {
    assert_eq!(on_wakeup(Wakeup::Closed, false, true), Refresh::Stop);
    assert_eq!(on_wakeup(Wakeup::Published, true, true), Refresh::Stop);
    assert_eq!(on_wakeup(Wakeup::Interval, false, true), Refresh::Show);
    assert_eq!(on_wakeup(Wakeup::Published, false, false), Refresh::Wait);
}
