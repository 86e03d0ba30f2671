//! Attaching to a training process.
use vstd::prelude::*;

use crate::collectors::nvml;
use crate::error::CalibrateError;

verus! {

broadcast use vstd::string::group_string_axioms;

/// Details about a successfully attached training process.
#[derive(Debug)]
pub struct ProcessInfo {
    pub pid: u32,
    /// NVML device indices the process is actively using.
    pub gpu_indices: Vec<u32>,
    /// Human-readable name of the primary GPU (e.g. "NVIDIA GeForce RTX 3090").
    pub primary_gpu_name: String,
    /// Whether the tool itself is running inside a container.
    pub container_context: ContainerContext,
    /// Whether NVML was successfully initialised. False on non-NVIDIA systems
    /// or when the nvidia driver is not loaded. GPU metrics will be absent.
    pub nvml_available: bool,
}

/// Result of container-environment detection.
#[derive(Clone, Copy, Debug, PartialEq, Eq, Structural)]
pub enum ContainerContext {
    /// Running on the host: full /proc access expected.
    Host,
    /// Running inside Docker.
    Docker,
    /// Running inside Kubernetes (Docker or containerd runtime).
    Kubernetes,
    /// Container runtime detected but type unknown.
    Unknown,
}

/// What a device reports: its compute processes, and its name where that can be
/// read.
#[derive(Debug)]
pub struct DeviceUse {
    pub pids: Vec<u32>,
    pub name: Option<String>,
}

/// The processes of each device.
pub open spec fn pids_of(devices: Seq<DeviceUse>) -> Seq<Vec<u32>> {
    devices.map_values(|d: DeviceUse| d.pids)
}

/// The name of the first device that a process runs on.
pub open spec fn primary_name(devices: Seq<DeviceUse>, pid: u32) -> Seq<char>
    decreases devices.len(),
{
    if devices.len() == 0 {
        "Unknown GPU"@
    } else if devices[0].pids@.contains(pid) {
        match devices[0].name {
            Some(n) => n@,
            None => "Unknown GPU"@,
        }
    } else {
        primary_name(devices.drop_first(), pid)
    }
}

/// The devices that a process uses, and the name of the first.
#[derive(Debug)]
pub struct GpuUse {
    pub indices: Vec<u32>,
    pub primary_name: String,
}

/// The devices that have the target PID among their compute processes.
pub fn find_gpu_indices(devices: &Vec<DeviceUse>, pid: u32) -> (r: GpuUse)
    requires
        devices@.len() <= u32::MAX,
    ensures
        r.indices@ == nvml::devices_with(pids_of(devices@), pid),
        r.primary_name@ == primary_name(devices@, pid),
{
    let mut indices: Vec<u32> = Vec::new();
    let mut name = "Unknown GPU".to_owned();
    let ghost all = pids_of(devices@);
    let mut i: usize = 0;
    assert(devices@.skip(0) =~= devices@);
    while i < devices.len()
        invariant
            i <= devices@.len() <= u32::MAX,
            all == pids_of(devices@),
            indices@ == nvml::devices_with(all.take(i as int), pid),
            indices@.len() == 0 ==> primary_name(devices@, pid) == primary_name(
                devices@.skip(i as int),
                pid,
            ) && name@ == "Unknown GPU"@,
            indices@.len() > 0 ==> name@ == primary_name(devices@, pid),
        decreases devices.len() - i,
    {
        assert(all.take(i + 1).drop_last() =~= all.take(i as int));
        assert(all.take(i + 1).last() == devices@[i as int].pids);
        assert(devices@.skip(i as int)[0] == devices@[i as int]);
        assert(devices@.skip(i as int).drop_first() =~= devices@.skip(i + 1));
        if nvml::runs_here(&devices[i].pids, pid) {
            if indices.len() == 0 {
                name = match &devices[i].name {
                    Some(n) => n.clone(),
                    None => "Unknown GPU".to_owned(),
                };
            }
            indices.push(i as u32);
        }
        i = i + 1;
    }
    assert(all.take(i as int) =~= all);
    GpuUse { indices, primary_name: name }
}

/// Whether an error only means that there is no NVML.
pub open spec fn is_nvml_missing(e: CalibrateError) -> bool {
    e is NvmlInit || e is NvmlUnavailable
}

/// Whether `r` is what an attempt to attach comes to.
pub open spec fn is_attached(
    pid: u32,
    exists: bool,
    readable: bool,
    context: ContainerContext,
    gpus: Result<GpuUse, CalibrateError>,
    r: Result<ProcessInfo, CalibrateError>,
) -> bool {
    if !exists {
        r == Err::<ProcessInfo, CalibrateError>(
            if context == ContainerContext::Host {
                CalibrateError::ProcessNotFound { pid }
            } else {
                CalibrateError::ContainerPidIsolation { pid }
            },
        )
    } else if !readable {
        r == Err::<ProcessInfo, CalibrateError>(CalibrateError::PermissionDenied { pid })
    } else {
        match gpus {
            Ok(g) => if g.indices@.len() == 0 {
                r == Err::<ProcessInfo, CalibrateError>(CalibrateError::NoGpuProcess { pid })
            } else {
                r matches Ok(info) && info.pid == pid && info.gpu_indices == g.indices
                    && info.primary_gpu_name == g.primary_name && info.container_context == context
                    && info.nvml_available
            },
            Err(e) => if is_nvml_missing(e) {
                r matches Ok(info) && info.pid == pid && info.gpu_indices@ == Seq::<u32>::empty()
                    && info.primary_gpu_name@ == "Unknown (non-NVIDIA GPU or missing driver)"@
                    && info.container_context == context && !info.nvml_available
            } else {
                r == Err::<ProcessInfo, CalibrateError>(e)
            },
        }
    }
}

/// Validates that `pid` exists and is a GPU process, and returns structured info.
///
/// `exists` and `readable` tell whether the process and its statistics can be seen,
/// `gpus` what NVML reports. A missing NVML is not fatal: monitoring degrades to
/// CPU-only mode.
pub fn attach(
    pid: u32,
    exists: bool,
    readable: bool,
    context: ContainerContext,
    gpus: Result<GpuUse, CalibrateError>,
) -> (r: Result<ProcessInfo, CalibrateError>)
    ensures
        is_attached(pid, exists, readable, context, gpus, r),
{
    if !exists {
        return match context {
            ContainerContext::Host => Err(CalibrateError::ProcessNotFound { pid }),
            _ => Err(CalibrateError::ContainerPidIsolation { pid }),
        };
    }
    if !readable {
        return Err(CalibrateError::PermissionDenied { pid });
    }
    match gpus {
        Ok(g) => {
            if g.indices.len() == 0 {
                return Err(CalibrateError::NoGpuProcess { pid });
            }
            Ok(
                ProcessInfo {
                    pid,
                    gpu_indices: g.indices,
                    primary_gpu_name: g.primary_name,
                    container_context: context,
                    nvml_available: true,
                },
            )
        },
        Err(e) => match e {
            CalibrateError::NvmlInit(_) | CalibrateError::NvmlUnavailable => Ok(
                ProcessInfo {
                    pid,
                    gpu_indices: Vec::new(),
                    primary_gpu_name: "Unknown (non-NVIDIA GPU or missing driver)".to_owned(),
                    container_context: context,
                    nvml_available: false,
                },
            ),
            other => Err(other),
        },
    }
}

/// A process is attached to exactly where it exists, can be read, and runs on a GPU or on
/// a machine without NVML; what is known of it is then what was found.
pub proof fn law_attached_processes(
    pid: u32,
    exists: bool,
    readable: bool,
    context: ContainerContext,
    gpus: Result<GpuUse, CalibrateError>,
    r: Result<ProcessInfo, CalibrateError>,
)
    requires
        is_attached(pid, exists, readable, context, gpus, r),
    ensures
        r is Ok <==> exists && readable && ((gpus is Ok && gpus->Ok_0.indices@.len() > 0) || (
        gpus is Err && (gpus->Err_0 is NvmlInit || gpus->Err_0 is NvmlUnavailable))),
        r matches Ok(info) ==> info.pid == pid && info.container_context == context
            && info.nvml_available == (gpus is Ok),
        r is Ok && gpus is Ok ==> r->Ok_0.gpu_indices@ == gpus->Ok_0.indices@
            && r->Ok_0.primary_gpu_name@ == gpus->Ok_0.primary_name@,
        r is Ok && gpus is Err ==> r->Ok_0.gpu_indices@.len() == 0 && r->Ok_0.primary_gpu_name@
            == "Unknown (non-NVIDIA GPU or missing driver)"@,
{
}

/// A process that is not seen is missing on the host and isolated in a container; one that
/// cannot be read is denied, and one on no GPU is no GPU process.
pub proof fn law_attach_errors(
    pid: u32,
    exists: bool,
    readable: bool,
    context: ContainerContext,
    gpus: Result<GpuUse, CalibrateError>,
    r: Result<ProcessInfo, CalibrateError>,
)
    requires
        is_attached(pid, exists, readable, context, gpus, r),
    ensures
        !exists && context is Host ==> r == Err::<ProcessInfo, CalibrateError>(
            CalibrateError::ProcessNotFound { pid },
        ),
        !exists && !(context is Host) ==> r == Err::<ProcessInfo, CalibrateError>(
            CalibrateError::ContainerPidIsolation { pid },
        ),
        exists && !readable ==> r == Err::<ProcessInfo, CalibrateError>(
            CalibrateError::PermissionDenied { pid },
        ),
        exists && readable && gpus is Ok && gpus->Ok_0.indices@.len() == 0 ==> r == Err::<
            ProcessInfo,
            CalibrateError,
        >(CalibrateError::NoGpuProcess { pid }),
        exists && readable && gpus is Err && !(gpus->Err_0 is NvmlInit) && !(
        gpus->Err_0 is NvmlUnavailable) ==> r == Err::<ProcessInfo, CalibrateError>(gpus->Err_0),
{
}

/// The primary GPU is the first device that the process runs on, by its own name.
pub proof fn law_primary_gpu_is_the_first(devices: Seq<DeviceUse>, pid: u32, i: int)
    requires
        0 <= i <= devices.len(),
        forall|k: int| 0 <= k < i ==> !(#[trigger] devices[k]).pids@.contains(pid),
    ensures
        i < devices.len() && devices[i].pids@.contains(pid) && devices[i].name is Some
            ==> primary_name(devices, pid) == devices[i].name->0@,
        i < devices.len() && devices[i].pids@.contains(pid) && devices[i].name is None
            ==> primary_name(devices, pid) == "Unknown GPU"@,
        i == devices.len() ==> primary_name(devices, pid) == "Unknown GPU"@,
    decreases devices.len(),
{
    if i > 0 {
        let rest = devices.drop_first();
        assert(!devices[0].pids@.contains(pid));
        assert forall|k: int| 0 <= k < i - 1 implies !(#[trigger] rest[k]).pids@.contains(
            pid,
        ) by {
            assert(rest[k] == devices[k + 1]);
        }
        law_primary_gpu_is_the_first(rest, pid, i - 1);
    }
}

} // verus!
