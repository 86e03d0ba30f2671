//! Errors.
use vstd::prelude::*;

use crate::text;

verus! {

broadcast use vstd::string::group_string_axioms;

/// Top-level error type.
/// Each variant captures failures at a specific subsystem boundary.
#[derive(Debug)]
pub enum CalibrateError {
    /// The process to attach to does not exist.
    ProcessNotFound { pid: u32 },
    /// The process uses no NVIDIA GPU.
    NoGpuProcess { pid: u32 },
    /// The process may not be inspected.
    PermissionDenied { pid: u32 },
    /// NVML could not be initialised.
    NvmlInit(String),
    /// An NVML query failed.
    NvmlQuery(String),
    /// There is no NVML.
    NvmlUnavailable,
    /// The Apple GPU framework could not be initialised.
    AppleGpuInit(String),
    /// An Apple GPU query failed.
    AppleGpuQuery(String),
    /// The process statistics could not be read.
    ProcRead { pid: u32, source: String },
    /// The process statistics have an unexpected format.
    ProcFormat { pid: u32 },
    /// The GPU specs could not be fetched.
    SpecFetch(String),
    /// The GPU is not in the spec database.
    SpecNotFound { name: String },
    /// The process is hidden by a container.
    ContainerPidIsolation { pid: u32 },
    /// The training process exited too early.
    ProcessExited { pid: u32 },
    /// The sampling channel is gone.
    ChannelClosed,
    /// An I/O error.
    Io(String),
    /// A JSON error.
    Json(String),
}

/// What is said of an error, with what to do about it.
pub open spec fn message_of(e: CalibrateError) -> Seq<char> {
    match e {
        CalibrateError::ProcessNotFound { pid } => "process "@
                + text::decimal(pid as nat)
                + " not found — is the training job still running?\n\nTo find the correct PID:\npgrep -f train.py          # by script name\npgrep -a -f torch          # all torch processes\ncalibrate diagnose         # auto-detect active training processes"@,
        CalibrateError::NoGpuProcess { pid } => "process "@
                + text::decimal(pid as nat)
                + " is not using any NVIDIA GPU.\n\nPossible causes:\n• Training is running on CPU — check your script for device='cpu'\n• GPU allocation happened after you ran calibrate watch — try attaching again\n• The process uses a non-NVIDIA GPU (AMD/Intel) — NVML cannot see it"@,
        CalibrateError::PermissionDenied { pid } => "insufficient permissions to read /proc/"@
                + text::decimal(pid as nat)
                + "\n\nTo fix:\nsudo calibrate watch --pid "@
                + text::decimal(pid as nat)
                + "\nOr add yourself to the process owner's group if running across users"@,
        CalibrateError::NvmlInit(detail) => "NVML initialization failed: "@
                + detail@
                + "\n\nPossible causes and fixes:\n\n1. Driver not loaded:\nsudo modprobe nvidia\n\n2. libnvidia-ml library missing:\nUbuntu/Debian: sudo apt-get install libnvidia-ml1\nRHEL/CentOS:   sudo dnf install nvidia-driver-cuda-libs\nThen reload:   sudo ldconfig\n\n3. Permission denied on /dev/nvidiactl:\nsudo usermod -aG video $USER && newgrp video\n\n4. Docker without GPU passthrough:\nUse: docker run --gpus all ... (requires nvidia-container-toolkit)\n\nRun `calibrate diagnose` for a detailed per-component report."@,
        CalibrateError::NvmlQuery(detail) => "NVML query error: "@
                + detail@
                + "\n  Run `calibrate diagnose` to verify the driver stack."@,
        CalibrateError::NvmlUnavailable => "NVML is not available on this system.\n\nIf you have an NVIDIA GPU, run `calibrate diagnose` to find the missing component.\nIf this is a non-NVIDIA system, `calibrate watch` requires Apple Silicon (macOS) or NVIDIA (Linux)."@,
        CalibrateError::AppleGpuInit(detail) => "Apple GPU initialization failed: "@
                + detail@
                + "\n\nTo resolve this:\n• Ensure the process is running on macOS 12 or later\n• Verify IOKit access is not restricted by a sandbox profile"@,
        CalibrateError::AppleGpuQuery(detail) => "Apple GPU IOKit query failed: "@
                + detail@,
        CalibrateError::ProcRead { pid, source } => "failed to read /proc/"@
                + text::decimal(pid as nat)
                + "/stat: "@
                + source@,
        CalibrateError::ProcFormat { pid } => "unexpected /proc/"@
                + text::decimal(pid as nat)
                + "/stat format"@,
        CalibrateError::SpecFetch(detail) => "GPU spec fetch failed: "@
                + detail@,
        CalibrateError::SpecNotFound { name } => "GPU model '"@
                + name@
                + "' not found in spec database — MFU will be estimated"@,
        CalibrateError::ContainerPidIsolation { pid } => "process "@
                + text::decimal(pid as nat)
                + " not found inside this container PID namespace.\n\nIf the training process is on the HOST, re-run calibrate there:\n\n• Docker : docker exec -it <container> calibrate watch --pid "@
                + text::decimal(pid as nat)
                + "\n• Kubernetes: kubectl exec -it <pod> -- calibrate watch --pid "@
                + text::decimal(pid as nat)
                + "\n• Host   : sudo calibrate watch --pid "@
                + text::decimal(pid as nat),
        CalibrateError::ProcessExited { pid } => "training process "@
                + text::decimal(pid as nat)
                + " exited before enough samples were collected"@,
        CalibrateError::ChannelClosed => "sampling channel closed unexpectedly"@,
        CalibrateError::Io(detail) => "I/O error: "@
                + detail@,
        CalibrateError::Json(detail) => "JSON error: "@
                + detail@,
    }
}

impl CalibrateError {
    /// What is said of the error, with what to do about it.
    pub fn message(&self) -> (r: String)
        ensures
            r@ == message_of(*self),
    {
        match self {
            CalibrateError::ProcessNotFound { pid } => {
                let mut m = "process ".to_owned();
                m.append(text::decimal_text(*pid as u64).as_str());
                m.append(" not found — is the training job still running?\n\nTo find the correct PID:\npgrep -f train.py          # by script name\npgrep -a -f torch          # all torch processes\ncalibrate diagnose         # auto-detect active training processes");
                m
            },
            CalibrateError::NoGpuProcess { pid } => {
                let mut m = "process ".to_owned();
                m.append(text::decimal_text(*pid as u64).as_str());
                m.append(" is not using any NVIDIA GPU.\n\nPossible causes:\n• Training is running on CPU — check your script for device='cpu'\n• GPU allocation happened after you ran calibrate watch — try attaching again\n• The process uses a non-NVIDIA GPU (AMD/Intel) — NVML cannot see it");
                m
            },
            CalibrateError::PermissionDenied { pid } => {
                let mut m = "insufficient permissions to read /proc/".to_owned();
                m.append(text::decimal_text(*pid as u64).as_str());
                m.append("\n\nTo fix:\nsudo calibrate watch --pid ");
                m.append(text::decimal_text(*pid as u64).as_str());
                m.append("\nOr add yourself to the process owner's group if running across users");
                m
            },
            CalibrateError::NvmlInit(detail) => {
                let mut m = "NVML initialization failed: ".to_owned();
                m.append(detail.as_str());
                m.append("\n\nPossible causes and fixes:\n\n1. Driver not loaded:\nsudo modprobe nvidia\n\n2. libnvidia-ml library missing:\nUbuntu/Debian: sudo apt-get install libnvidia-ml1\nRHEL/CentOS:   sudo dnf install nvidia-driver-cuda-libs\nThen reload:   sudo ldconfig\n\n3. Permission denied on /dev/nvidiactl:\nsudo usermod -aG video $USER && newgrp video\n\n4. Docker without GPU passthrough:\nUse: docker run --gpus all ... (requires nvidia-container-toolkit)\n\nRun `calibrate diagnose` for a detailed per-component report.");
                m
            },
            CalibrateError::NvmlQuery(detail) => {
                let mut m = "NVML query error: ".to_owned();
                m.append(detail.as_str());
                m.append("\n  Run `calibrate diagnose` to verify the driver stack.");
                m
            },
            CalibrateError::NvmlUnavailable => {
                "NVML is not available on this system.\n\nIf you have an NVIDIA GPU, run `calibrate diagnose` to find the missing component.\nIf this is a non-NVIDIA system, `calibrate watch` requires Apple Silicon (macOS) or NVIDIA (Linux).".to_owned()
            },
            CalibrateError::AppleGpuInit(detail) => {
                let mut m = "Apple GPU initialization failed: ".to_owned();
                m.append(detail.as_str());
                m.append("\n\nTo resolve this:\n• Ensure the process is running on macOS 12 or later\n• Verify IOKit access is not restricted by a sandbox profile");
                m
            },
            CalibrateError::AppleGpuQuery(detail) => {
                let mut m = "Apple GPU IOKit query failed: ".to_owned();
                m.append(detail.as_str());
                m
            },
            CalibrateError::ProcRead { pid, source } => {
                let mut m = "failed to read /proc/".to_owned();
                m.append(text::decimal_text(*pid as u64).as_str());
                m.append("/stat: ");
                m.append(source.as_str());
                m
            },
            CalibrateError::ProcFormat { pid } => {
                let mut m = "unexpected /proc/".to_owned();
                m.append(text::decimal_text(*pid as u64).as_str());
                m.append("/stat format");
                m
            },
            CalibrateError::SpecFetch(detail) => {
                let mut m = "GPU spec fetch failed: ".to_owned();
                m.append(detail.as_str());
                m
            },
            CalibrateError::SpecNotFound { name } => {
                let mut m = "GPU model '".to_owned();
                m.append(name.as_str());
                m.append("' not found in spec database — MFU will be estimated");
                m
            },
            CalibrateError::ContainerPidIsolation { pid } => {
                let mut m = "process ".to_owned();
                m.append(text::decimal_text(*pid as u64).as_str());
                m.append(" not found inside this container PID namespace.\n\nIf the training process is on the HOST, re-run calibrate there:\n\n• Docker : docker exec -it <container> calibrate watch --pid ");
                m.append(text::decimal_text(*pid as u64).as_str());
                m.append("\n• Kubernetes: kubectl exec -it <pod> -- calibrate watch --pid ");
                m.append(text::decimal_text(*pid as u64).as_str());
                m.append("\n• Host   : sudo calibrate watch --pid ");
                m.append(text::decimal_text(*pid as u64).as_str());
                m
            },
            CalibrateError::ProcessExited { pid } => {
                let mut m = "training process ".to_owned();
                m.append(text::decimal_text(*pid as u64).as_str());
                m.append(" exited before enough samples were collected");
                m
            },
            CalibrateError::ChannelClosed => {
                "sampling channel closed unexpectedly".to_owned()
            },
            CalibrateError::Io(detail) => {
                let mut m = "I/O error: ".to_owned();
                m.append(detail.as_str());
                m
            },
            CalibrateError::Json(detail) => {
                let mut m = "JSON error: ".to_owned();
                m.append(detail.as_str());
                m
            },
        }
    }
}

proof fn lemma_middle_occurs(a: Seq<char>, b: Seq<char>, c: Seq<char>)
    ensures
        text::occurs(a + b + c, b),
{
    let all = a + b + c;
    assert(all.subrange(a.len() as int, (a.len() + b.len()) as int) =~= b);
    assert(text::occurs_at(all, b, a.len() as int));
}

/// What is said of a process that cannot be attached to names it by its PID.
pub proof fn law_messages_name_the_process(pid: u32)
    ensures
        text::occurs(
            message_of(CalibrateError::ProcessNotFound { pid }),
            text::decimal(pid as nat),
        ),
        text::occurs(message_of(CalibrateError::NoGpuProcess { pid }), text::decimal(pid as nat)),
        text::occurs(
            message_of(CalibrateError::PermissionDenied { pid }),
            text::decimal(pid as nat),
        ),
        text::occurs(
            message_of(CalibrateError::ContainerPidIsolation { pid }),
            text::decimal(pid as nat),
        ),
{
    let d = text::decimal(pid as nat);
    assert forall|a: Seq<char>, b: Seq<char>, c: Seq<char>| #[trigger]
        text::occurs(a + b + c, b) by {
        lemma_middle_occurs(a, b, c);
    }
    let e = message_of(CalibrateError::PermissionDenied { pid });
    let tail = "\nOr add yourself to the process owner's group if running across users"@;
    let middle = "\n\nTo fix:\nsudo calibrate watch --pid "@;
    let head = "insufficient permissions to read /proc/"@;
    assert(e =~= head + d + (middle + d + tail));
    lemma_middle_occurs(head, d, middle + d + tail);
    let c = message_of(CalibrateError::ContainerPidIsolation { pid });
    let rest = c.skip(("process "@.len() + d.len()) as int);
    assert(c =~= "process "@ + d + rest);
    lemma_middle_occurs("process "@, d, rest);
}

/// What went wrong is told as it was reported, behind the name of the part that reports it.
pub proof fn law_messages_tell_the_detail(detail: String, pid: u32)
    ensures
        ("NVML initialization failed: "@ + detail@).is_prefix_of(
            message_of(CalibrateError::NvmlInit(detail)),
        ),
        ("NVML query error: "@ + detail@).is_prefix_of(
            message_of(CalibrateError::NvmlQuery(detail)),
        ),
        ("Apple GPU initialization failed: "@ + detail@).is_prefix_of(
            message_of(CalibrateError::AppleGpuInit(detail)),
        ),
        message_of(CalibrateError::AppleGpuQuery(detail)) == "Apple GPU IOKit query failed: "@
            + detail@,
        message_of(CalibrateError::SpecFetch(detail)) == "GPU spec fetch failed: "@ + detail@,
        message_of(CalibrateError::Io(detail)) == "I/O error: "@ + detail@,
        message_of(CalibrateError::Json(detail)) == "JSON error: "@ + detail@,
        message_of(CalibrateError::ProcRead { pid, source: detail }) == "failed to read /proc/"@
            + text::decimal(pid as nat) + "/stat: "@ + detail@,
        message_of(CalibrateError::ProcFormat { pid }) == "unexpected /proc/"@ + text::decimal(
            pid as nat,
        ) + "/stat format"@,
        ("training process "@ + text::decimal(pid as nat)).is_prefix_of(
            message_of(CalibrateError::ProcessExited { pid }),
        ),
        ("GPU model '"@ + detail@ + "'"@).is_prefix_of(
            message_of(CalibrateError::SpecNotFound { name: detail }),
        ),
{
    let a = message_of(CalibrateError::NvmlInit(detail));
    let p = "NVML initialization failed: "@ + detail@;
    assert(p =~= a.take(p.len() as int));
    let b = message_of(CalibrateError::NvmlQuery(detail));
    let q = "NVML query error: "@ + detail@;
    assert(q =~= b.take(q.len() as int));
    let c = message_of(CalibrateError::AppleGpuInit(detail));
    let r = "Apple GPU initialization failed: "@ + detail@;
    assert(r =~= c.take(r.len() as int));
    let d = message_of(CalibrateError::ProcessExited { pid });
    let s = "training process "@ + text::decimal(pid as nat);
    assert(s =~= d.take(s.len() as int));
    reveal_strlit("'");
    reveal_strlit("' not found in spec database — MFU will be estimated");
    let e = message_of(CalibrateError::SpecNotFound { name: detail });
    let t = "GPU model '"@ + detail@ + "'"@;
    assert(t =~= e.take(t.len() as int));
}

} // verus!
