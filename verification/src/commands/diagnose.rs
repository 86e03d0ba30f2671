//! Checks of what a system is capable of.
use vstd::prelude::*;

use crate::error;
use crate::error::CalibrateError;
use crate::process::discover;
use crate::process::discover::TrainingProcess;
use crate::text;

pub use crate::process::discover::is_training_cmd;
pub use crate::text::truncate;

verus! {

broadcast use vstd::string::group_string_axioms;

/// The outcome of a single check.
#[derive(Debug)]
pub enum Status {
    Pass(String),
    Warn(String),
    Fail(String),
    Info(String),
}

/// What a [`Status`] says.
pub ghost enum StatusView {
    Pass(Seq<char>),
    Warn(Seq<char>),
    Fail(Seq<char>),
    Info(Seq<char>),
}

impl View for Status {
    type V = StatusView;

    open spec fn view(&self) -> StatusView {
        match *self {
            Status::Pass(m) => StatusView::Pass(m@),
            Status::Warn(m) => StatusView::Warn(m@),
            Status::Fail(m) => StatusView::Fail(m@),
            Status::Info(m) => StatusView::Info(m@),
        }
    }
}

/// What a list of outcomes says.
pub open spec fn statuses(v: Seq<Status>) -> Seq<StatusView> {
    v.map_values(|s: Status| s@)
}

broadcast proof fn lemma_statuses_push(v: Seq<Status>, s: Status)
    ensures
        #[trigger] statuses(v.push(s)) == statuses(v).push(s@),
{
    assert(statuses(v.push(s)) =~= statuses(v).push(s@));
}

broadcast proof fn lemma_statuses_empty()
    ensures
        #[trigger] statuses(Seq::<Status>::empty()) == Seq::<StatusView>::empty(),
{
    assert(statuses(Seq::<Status>::empty()) =~= Seq::<StatusView>::empty());
}

broadcast group group_statuses {
    lemma_statuses_push,
    lemma_statuses_empty,
}

/// The mark of an outcome.
pub open spec fn prefix_of(s: StatusView) -> Seq<char> {
    match s {
        StatusView::Pass(_) => "✓"@,
        StatusView::Warn(_) => "⚠"@,
        StatusView::Fail(_) => "✗"@,
        StatusView::Info(_) => "·"@,
    }
}

/// The message of an outcome.
pub open spec fn message_of(s: StatusView) -> Seq<char> {
    match s {
        StatusView::Pass(m) => m,
        StatusView::Warn(m) => m,
        StatusView::Fail(m) => m,
        StatusView::Info(m) => m,
    }
}

impl Status {
    /// The mark of the outcome.
    pub fn prefix(&self) -> (r: &'static str)
        ensures
            r@ == prefix_of(self@),
    {
        match self {
            Status::Pass(_) => "✓",
            Status::Warn(_) => "⚠",
            Status::Fail(_) => "✗",
            Status::Info(_) => "·",
        }
    }

    /// The message of the outcome.
    pub fn message(&self) -> (r: &str)
        ensures
            r@ == message_of(self@),
    {
        match self {
            Status::Pass(m) => m.as_str(),
            Status::Warn(m) => m.as_str(),
            Status::Fail(m) => m.as_str(),
            Status::Info(m) => m.as_str(),
        }
    }

    /// Whether the check failed.
    pub fn is_fail(&self) -> (r: bool)
        ensures
            r == self@ is Fail,
    {
        match self {
            Status::Fail(_) => true,
            _ => false,
        }
    }

    /// Whether the check gave a warning.
    pub fn is_warn(&self) -> (r: bool)
        ensures
            r == self@ is Warn,
    {
        match self {
            Status::Warn(_) => true,
            _ => false,
        }
    }

    /// The line that shows the outcome.
    pub fn line(&self) -> (r: String)
        ensures
            r@ == status_line(self@),
    {
        let mut s = "  ".to_owned();
        s.append(self.prefix());
        s.append("  ");
        s.append(self.message());
        s
    }
}

/// The line that shows an outcome.
pub open spec fn status_line(s: StatusView) -> Seq<char> {
    "  "@ + prefix_of(s) + "  "@ + message_of(s)
}

/// What all checks come to.
#[derive(Clone, Copy, Debug, PartialEq, Eq, Structural)]
pub enum Verdict {
    /// Something required is missing.
    Fail,
    /// Something is limited.
    Warn,
    /// Everything is there.
    Ready,
}

/// What outcomes come to: a failure outweighs warnings.
pub open spec fn verdict_of(all: Seq<StatusView>) -> Verdict {
    if exists|i: int| 0 <= i < all.len() && (#[trigger] all[i]) is Fail {
        Verdict::Fail
    } else if exists|i: int| 0 <= i < all.len() && (#[trigger] all[i]) is Warn {
        Verdict::Warn
    } else {
        Verdict::Ready
    }
}

/// What outcomes come to.
pub fn verdict(all: &Vec<Status>) -> (r: Verdict)
    ensures
        r == verdict_of(statuses(all@)),
{
    let ghost ss = statuses(all@);
    let mut any_fail = false;
    let mut any_warn = false;
    let mut i: usize = 0;
    while i < all.len()
        invariant
            i <= all@.len(),
            ss == statuses(all@),
            any_fail == (exists|k: int| 0 <= k < i && (#[trigger] ss[k]) is Fail),
            any_warn == (exists|k: int| 0 <= k < i && (#[trigger] ss[k]) is Warn),
        decreases all.len() - i,
    {
        assert(ss[i as int] == all@[i as int]@);
        if all[i].is_fail() {
            assert(ss[i as int] is Fail);
            any_fail = true;
        }
        if all[i].is_warn() {
            assert(ss[i as int] is Warn);
            any_warn = true;
        }
        i = i + 1;
    }
    if any_fail {
        Verdict::Fail
    } else if any_warn {
        Verdict::Warn
    } else {
        Verdict::Ready
    }
}

/// The lines that end a diagnosis.
pub fn verdict_lines(v: Verdict) -> (r: Vec<String>)
    ensures
        text::texts(r@) == verdict_text(v),
{
    broadcast use text::group_texts;

    let mut r: Vec<String> = Vec::new();
    match v {
        Verdict::Fail => {
            r.push("Result: FAIL — one or more required components are missing.".to_owned());
            r.push(
                "        Fix the items marked ✗ above, then re-run `calibrate diagnose`.".to_owned(),
            );
        },
        Verdict::Warn => {
            r.push("Result: WARN — calibrate will work with limited functionality.".to_owned());
            r.push("        Review the items marked ⚠ above for full support.".to_owned());
        },
        Verdict::Ready => {
            r.push("Result: OK — all checks passed. calibrate is ready to use.".to_owned());
        },
    }
    assert(text::texts(r@) =~= verdict_text(v));
    r
}

/// The lines that end a diagnosis.
pub open spec fn verdict_text(v: Verdict) -> Seq<Seq<char>> {
    match v {
        Verdict::Fail => seq![
            "Result: FAIL — one or more required components are missing."@,
            "        Fix the items marked ✗ above, then re-run `calibrate diagnose`."@,
        ],
        Verdict::Warn => seq![
            "Result: WARN — calibrate will work with limited functionality."@,
            "        Review the items marked ⚠ above for full support."@,
        ],
        Verdict::Ready => seq!["Result: OK — all checks passed. calibrate is ready to use."@],
    }
}

/// What the platform check says.
pub open spec fn platform_statuses(os: Seq<char>, arch: Seq<char>) -> Seq<StatusView> {
    seq![
        StatusView::Info("OS: "@ + os + "  arch: "@ + arch),
        if os == "linux"@ {
            StatusView::Pass("Linux — full NVIDIA NVML support available"@)
        } else if os == "macos"@ {
            StatusView::Pass("macOS — Apple Silicon GPU support via IOKit available"@)
        } else {
            StatusView::Warn(
                "Platform '"@ + os
                    + "' — only `calibrate bench` and `calibrate plan` are supported"@,
            )
        },
    ]
}

/// Checks the platform.
pub fn check_platform(os: &str, arch: &str) -> (r: Vec<Status>)
    ensures
        statuses(r@) == platform_statuses(os@, arch@),
{
    broadcast use group_statuses;

    let mut r: Vec<Status> = Vec::new();
    let mut info = "OS: ".to_owned();
    info.append(os);
    info.append("  arch: ");
    info.append(arch);
    r.push(Status::Info(info));
    if text::same_text(os, "linux") {
        r.push(Status::Pass("Linux — full NVIDIA NVML support available".to_owned()));
    } else if text::same_text(os, "macos") {
        r.push(Status::Pass("macOS — Apple Silicon GPU support via IOKit available".to_owned()));
    } else {
        let mut m = "Platform '".to_owned();
        m.append(os);
        m.append("' — only `calibrate bench` and `calibrate plan` are supported");
        r.push(Status::Warn(m));
    }
    assert(statuses(r@) =~= platform_statuses(os@, arch@));
    r
}

/// What was found of the NVIDIA control device.
#[derive(Debug)]
pub enum ControlDevice {
    Missing,
    /// It exists, with these permission bits.
    Mode(u32),
    /// It exists and cannot be inspected, for this reason.
    Unreadable(String),
}

/// What NVML reports of a device that could be opened.
#[derive(Debug)]
pub struct DeviceReport {
    pub index: u32,
    pub name: Option<String>,
    pub memory_total_bytes: Option<u64>,
    pub driver: Option<String>,
}

/// What NVML reports.
#[derive(Debug)]
pub struct NvmlReport {
    pub device_count: u32,
    pub devices: Vec<DeviceReport>,
}

/// What was found of the NVIDIA software.
#[derive(Debug)]
pub struct NvidiaFacts {
    /// The path of `nvidia-smi`.
    pub smi_path: Option<String>,
    /// What `nvidia-smi` printed of the GPUs, or how it failed.
    pub smi_output: Result<String, String>,
    /// The path of the NVML library.
    pub nvml_library: Option<String>,
    pub control_device: ControlDevice,
    /// What NVML reports, or how it failed to start.
    pub nvml: Result<NvmlReport, String>,
}

/// A number in octal.
pub open spec fn octal(n: nat) -> Seq<char>
    decreases n,
{
    if n < 8 {
        seq![text::digit_char(n)]
    } else {
        octal(n / 8).push(text::digit_char(n % 8))
    }
}

/// Writes a number in octal.
fn octal_text(n: u32) -> (r: String)
    ensures
        r@ == octal(n as nat),
    decreases n,
{
    let c = ('0' as u8 + (n % 8) as u8) as char;
    if n < 8 {
        let mut r = String::new();
        r.push(c);
        assert(r@ =~= octal(n as nat));
        r
    } else {
        let mut r = octal_text(n / 8);
        r.push(c);
        r
    }
}

/// What the check for `nvidia-smi` says.
pub open spec fn smi_status(path: Option<Seq<char>>) -> StatusView {
    match path {
        Some(p) => StatusView::Pass("nvidia-smi found: "@ + p),
        None => StatusView::Fail(
            "nvidia-smi not found in PATH\n\nTo fix:\n\nUbuntu/Debian:\nsudo apt-get install -y nvidia-driver-555\n(or latest: ubuntu-drivers autoinstall)\n\nRHEL/CentOS:\nsudo dnf install -y nvidia-driver\n\nAfter install: reboot, then re-run calibrate diagnose"@,
        ),
    }
}

/// What the run of `nvidia-smi` says: one line for each GPU.
pub open spec fn smi_run_statuses(output: Result<Seq<char>, Seq<char>>) -> Seq<StatusView> {
    match output {
        Ok(o) => if text::trim(o).len() > 0 {
            text::lines(text::trim(o)).map_values(
                |l: Seq<char>| StatusView::Pass("GPU detected: "@ + l),
            )
        } else {
            seq![
                StatusView::Warn(
                    "nvidia-smi ran but reported no GPUs — driver may not be loaded"@,
                ),
            ]
        },
        Err(e) => seq![
            StatusView::Fail(
                "nvidia-smi failed: "@ + e
                    + "\n\nTo fix:\nsudo modprobe nvidia\nIf that fails, check dmesg: sudo dmesg | grep -i nvidia"@,
            ),
        ],
    }
}

/// What the check for the NVML library says.
pub open spec fn library_status(path: Option<Seq<char>>) -> StatusView {
    match path {
        Some(p) => StatusView::Pass("NVML library: "@ + p),
        None => StatusView::Fail(
            "NVML library (libnvidia-ml.so.1) not found\n\nTo fix:\nUbuntu/Debian: sudo apt-get install -y libnvidia-ml1\nRHEL/CentOS:   sudo dnf install -y nvidia-driver-cuda-libs\nThen reload:   sudo ldconfig"@,
        ),
    }
}

/// Whether everyone may read a file with the given permission bits.
pub open spec fn is_world_readable(mode: u32) -> bool {
    (mode / 4) % 2 == 1
}

/// What the check of the control device says.
pub open spec fn device_status(d: ControlDevice) -> StatusView {
    match d {
        ControlDevice::Missing => StatusView::Fail(
            "/dev/nvidiactl not found — NVIDIA kernel module not loaded\n\nTo fix:\nsudo modprobe nvidia\nCheck for errors: sudo dmesg | tail -20"@,
        ),
        ControlDevice::Mode(mode) => if is_world_readable(mode) {
            StatusView::Pass("/dev/nvidiactl is readable"@)
        } else {
            StatusView::Warn(
                "/dev/nvidiactl is not world-readable (current mode: "@ + octal(
                    (mode % 512) as nat,
                )
                    + ")\n\nTo fix:\nsudo chmod o+rw /dev/nvidiactl\nOr add your user to the 'video' group:\nsudo usermod -aG video $USER && newgrp video"@,
            )
        },
        ControlDevice::Unreadable(e) => StatusView::Warn("Could not stat /dev/nvidiactl: "@ + e@),
    }
}

/// A text, or a word for its absence.
pub open spec fn or_word(s: Option<String>, word: Seq<char>) -> Seq<char> {
    match s {
        Some(s) => s@,
        None => word,
    }
}

/// What is said of a device.
pub open spec fn device_line(d: DeviceReport) -> StatusView {
    StatusView::Info(
        "  ["@ + text::decimal(d.index as nat) + "] "@ + or_word(d.name, "Unknown"@) + "  •  "@ + (
        match d.memory_total_bytes {
            Some(b) => text::decimal((b / 1024 / 1024) as nat) + " MiB VRAM"@,
            None => "unknown VRAM"@,
        }) + "  •  driver "@ + or_word(d.driver, "Unknown"@),
    )
}

/// What the start of NVML says.
pub open spec fn nvml_statuses(n: Result<NvmlReport, String>) -> Seq<StatusView> {
    match n {
        Ok(report) => seq![
            StatusView::Pass(
                "NVML initialized successfully — "@ + text::decimal(report.device_count as nat)
                    + " device(s) visible"@,
            ),
        ] + report.devices@.map_values(|d: DeviceReport| device_line(d)),
        Err(e) => seq![
            StatusView::Fail(
                "NVML init failed: "@ + e@
                    + "\n\nCommon causes and fixes:\n\n1. Driver not loaded:\nsudo modprobe nvidia\n\n2. libnvidia-ml not found by linker:\nsudo ldconfig\nldd $(which nvidia-smi) | grep nvidia-ml\n\n3. Running inside Docker without GPU passthrough:\ndocker run --gpus all ...\n(requires nvidia-container-toolkit)\n\n4. Permission denied:\nsudo usermod -aG video $USER && newgrp video"@,
            ),
        ],
    }
}

/// What was found as a text.
pub open spec fn text_view(s: Option<String>) -> Option<Seq<char>> {
    match s {
        Some(s) => Some(s@),
        None => None,
    }
}

/// What was printed, or how it failed, as texts.
pub open spec fn result_view(r: Result<String, String>) -> Result<Seq<char>, Seq<char>> {
    match r {
        Ok(s) => Ok(s@),
        Err(e) => Err(e@),
    }
}

/// What the NVIDIA checks say. Without `nvidia-smi` the others are not made.
pub open spec fn nvidia_statuses(f: NvidiaFacts) -> Seq<StatusView> {
    if f.smi_path is None {
        seq![smi_status(None)]
    } else {
        seq![smi_status(text_view(f.smi_path))] + smi_run_statuses(result_view(f.smi_output)) + seq![
            library_status(text_view(f.nvml_library)),
            device_status(f.control_device),
        ] + nvml_statuses(f.nvml)
    }
}

/// The run of `nvidia-smi`.
fn push_smi_run(out: &mut Vec<Status>, output: &Result<String, String>)
    ensures
        statuses(final(out)@) == statuses(old(out)@) + smi_run_statuses(result_view(*output)),
{
    broadcast use group_statuses;

    let ghost before = statuses(out@);
    match output {
        Ok(o) => {
            let t = text::trimmed(o.as_str());
            if !t.as_str().is_empty() {
                let lines = text::lines_of(t.as_str());
                let ghost all = smi_run_statuses(result_view(*output));
                let mut i: usize = 0;
                assert(text::texts(lines@).len() == lines@.len());
                assert(statuses(out@) =~= before + all.take(0));
                while i < lines.len()
                    invariant
                        i <= lines@.len(),
                        all == text::texts(lines@).map_values(
                            |l: Seq<char>| StatusView::Pass("GPU detected: "@ + l),
                        ),
                        statuses(out@) == before + all.take(i as int),
                    decreases lines.len() - i,
                {
                    broadcast use group_statuses;

                    let mut m = "GPU detected: ".to_owned();
                    m.append(lines[i].as_str());
                    assert(text::texts(lines@)[i as int] == lines@[i as int]@);
                    assert(all[i as int] == StatusView::Pass(m@));
                    out.push(Status::Pass(m));
                    assert(statuses(out@) =~= before + all.take(i + 1));
                    i = i + 1;
                }
                assert(all.take(i as int) =~= all);
            } else {
                out.push(
                    Status::Warn(
                        "nvidia-smi ran but reported no GPUs — driver may not be loaded".to_owned(),
                    ),
                );
                assert(statuses(out@) =~= before + smi_run_statuses(result_view(*output)));
            }
        },
        Err(e) => {
            let mut m = "nvidia-smi failed: ".to_owned();
            m.append(e.as_str());
            m.append(
                "\n\nTo fix:\nsudo modprobe nvidia\nIf that fails, check dmesg: sudo dmesg | grep -i nvidia",
            );
            out.push(Status::Fail(m));
            assert(statuses(out@) =~= before + smi_run_statuses(result_view(*output)));
        },
    }
}

/// The NVML library.
fn library(path: &Option<String>) -> (r: Status)
    ensures
        r@ == library_status(text_view(*path)),
{
    match path {
        Some(p) => {
            let mut m = "NVML library: ".to_owned();
            m.append(p.as_str());
            Status::Pass(m)
        },
        None => Status::Fail(
            "NVML library (libnvidia-ml.so.1) not found\n\nTo fix:\nUbuntu/Debian: sudo apt-get install -y libnvidia-ml1\nRHEL/CentOS:   sudo dnf install -y nvidia-driver-cuda-libs\nThen reload:   sudo ldconfig".to_owned(),
        ),
    }
}

/// The control device.
fn control(d: &ControlDevice) -> (r: Status)
    ensures
        r@ == device_status(*d),
{
    match d {
        ControlDevice::Missing => Status::Fail(
            "/dev/nvidiactl not found — NVIDIA kernel module not loaded\n\nTo fix:\nsudo modprobe nvidia\nCheck for errors: sudo dmesg | tail -20".to_owned(),
        ),
        ControlDevice::Mode(mode) => {
            if (*mode / 4) % 2 == 1 {
                Status::Pass("/dev/nvidiactl is readable".to_owned())
            } else {
                let mut m = "/dev/nvidiactl is not world-readable (current mode: ".to_owned();
                m.append(octal_text(*mode % 512).as_str());
                m.append(
                    ")\n\nTo fix:\nsudo chmod o+rw /dev/nvidiactl\nOr add your user to the 'video' group:\nsudo usermod -aG video $USER && newgrp video",
                );
                Status::Warn(m)
            }
        },
        ControlDevice::Unreadable(e) => {
            let mut m = "Could not stat /dev/nvidiactl: ".to_owned();
            m.append(e.as_str());
            Status::Warn(m)
        },
    }
}

/// A device.
fn device(d: &DeviceReport) -> (r: Status)
    ensures
        r@ == device_line(*d),
{
    let memory = match d.memory_total_bytes {
        Some(b) => {
            let mut s = text::decimal_text(b / 1024 / 1024);
            s.append(" MiB VRAM");
            s
        },
        None => "unknown VRAM".to_owned(),
    };
    let name = match &d.name {
        Some(n) => n.clone(),
        None => "Unknown".to_owned(),
    };
    let driver = match &d.driver {
        Some(n) => n.clone(),
        None => "Unknown".to_owned(),
    };
    let mut m = "  [".to_owned();
    m.append(text::decimal_text(d.index as u64).as_str());
    m.append("] ");
    m.append(name.as_str());
    m.append("  •  ");
    m.append(memory.as_str());
    m.append("  •  driver ");
    m.append(driver.as_str());
    Status::Info(m)
}

/// The start of NVML.
fn push_nvml(out: &mut Vec<Status>, n: &Result<NvmlReport, String>)
    ensures
        statuses(final(out)@) == statuses(old(out)@) + nvml_statuses(*n),
{
    broadcast use group_statuses;

    let ghost before = statuses(out@);
    match n {
        Ok(report) => {
            let mut m = "NVML initialized successfully — ".to_owned();
            m.append(text::decimal_text(report.device_count as u64).as_str());
            m.append(" device(s) visible");
            out.push(Status::Pass(m));
            let ghost all = nvml_statuses(*n);
            let mut i: usize = 0;
            assert(statuses(out@) =~= before + all.take(1));
            while i < report.devices.len()
                invariant
                    i <= report.devices@.len(),
                    *n == Ok::<NvmlReport, String>(*report),
                    all == nvml_statuses(*n),
                    statuses(out@) == before + all.take(i + 1),
                decreases report.devices.len() - i,
            {
                broadcast use group_statuses;

                let s = device(&report.devices[i]);
                assert(all[i + 1] == s@);
                out.push(s);
                assert(statuses(out@) =~= before + all.take(i + 2));
                i = i + 1;
            }
            assert(all.take(i + 1) =~= all);
        },
        Err(e) => {
            let mut m = "NVML init failed: ".to_owned();
            m.append(e.as_str());
            m.append(
                "\n\nCommon causes and fixes:\n\n1. Driver not loaded:\nsudo modprobe nvidia\n\n2. libnvidia-ml not found by linker:\nsudo ldconfig\nldd $(which nvidia-smi) | grep nvidia-ml\n\n3. Running inside Docker without GPU passthrough:\ndocker run --gpus all ...\n(requires nvidia-container-toolkit)\n\n4. Permission denied:\nsudo usermod -aG video $USER && newgrp video",
            );
            out.push(Status::Fail(m));
            assert(statuses(out@) =~= before + nvml_statuses(*n));
        },
    }
}

/// Checks the NVIDIA software.
pub fn check_nvidia(f: &NvidiaFacts) -> (r: Vec<Status>)
    ensures
        statuses(r@) == nvidia_statuses(*f),
{
    broadcast use group_statuses;

    let mut out: Vec<Status> = Vec::new();
    match &f.smi_path {
        Some(p) => {
            let mut m = "nvidia-smi found: ".to_owned();
            m.append(p.as_str());
            out.push(Status::Pass(m));
        },
        None => {
            out.push(
                Status::Fail(
                    "nvidia-smi not found in PATH\n\nTo fix:\n\nUbuntu/Debian:\nsudo apt-get install -y nvidia-driver-555\n(or latest: ubuntu-drivers autoinstall)\n\nRHEL/CentOS:\nsudo dnf install -y nvidia-driver\n\nAfter install: reboot, then re-run calibrate diagnose".to_owned(),
                ),
            );
            // No point continuing if smi is missing.
            assert(statuses(out@) =~= nvidia_statuses(*f));
            return out;
        },
    }
    assert(statuses(out@) =~= seq![smi_status(text_view(f.smi_path))]);
    push_smi_run(&mut out, &f.smi_output);
    let ghost run = statuses(out@);
    out.push(library(&f.nvml_library));
    out.push(control(&f.control_device));
    assert(statuses(out@) =~= run + seq![
        library_status(text_view(f.nvml_library)),
        device_status(f.control_device),
    ]);
    push_nvml(&mut out, &f.nvml);
    out
}

/// The first number among the parts of a version.
pub open spec fn first_number(parts: Seq<Seq<char>>) -> nat
    decreases parts.len(),
{
    if parts.len() == 0 {
        0
    } else {
        match text::parsed_within(parts[0], u64::MAX as nat) {
            Some(n) => n,
            None => first_number(parts.drop_first()),
        }
    }
}

/// What the version check says: GPU statistics need macOS 12.
pub open spec fn macos_status(version: Seq<char>) -> StatusView {
    let v = text::trim(version);
    if first_number(text::split_on(v, '.')) >= 12 {
        StatusView::Pass("macOS "@ + v + " — IOKit GPU stats supported"@)
    } else {
        StatusView::Warn(
            "macOS "@ + v + " — IOKit GPU stats require macOS 12 (Monterey) or later"@,
        )
    }
}

/// What the probe of the GPU service says.
pub open spec fn iokit_status(probe: Result<(), CalibrateError>) -> StatusView {
    match probe {
        Ok(_) => StatusView::Pass("IOKit GPU service found (AGXAccelerator / IOAccelerator)"@),
        Err(e) => StatusView::Fail(
            "IOKit GPU probe failed: "@ + error::message_of(e)
                + "\n\nTo fix:\n• Ensure System Preferences → Privacy → Full Disk Access is not blocking the terminal\n• If running in a sandboxed environment, use a standard Terminal.app session\n• Upgrade to macOS 12 (Monterey) or later"@,
        ),
    }
}

/// What the Apple GPU checks say.
pub open spec fn apple_statuses(
    chip: Option<Seq<char>>,
    version: Option<Seq<char>>,
    probe: Result<(), CalibrateError>,
) -> Seq<StatusView> {
    (match chip {
        Some(c) => seq![StatusView::Info("Chip: "@ + text::trim(c))],
        None => Seq::empty(),
    }) + (match version {
        Some(v) => seq![macos_status(v)],
        None => Seq::empty(),
    }) + seq![iokit_status(probe)]
}

/// The first number among the parts of a version.
fn leading_number(parts: &Vec<String>) -> (r: u64)
    ensures
        r == first_number(text::texts(parts@)),
{
    let ghost all = text::texts(parts@);
    let mut i: usize = 0;
    assert(all.skip(0) =~= all);
    while i < parts.len()
        invariant
            i <= parts@.len(),
            all == text::texts(parts@),
            first_number(all) == first_number(all.skip(i as int)),
        decreases parts.len() - i,
    {
        assert(all.skip(i as int)[0] == parts@[i as int]@);
        assert(all.skip(i as int).drop_first() =~= all.skip(i + 1));
        match text::parse_within(parts[i].as_str(), u64::MAX) {
            Some(n) => {
                return n;
            },
            None => {},
        }
        i = i + 1;
    }
    0
}

/// The version of macOS.
fn macos(version: &str) -> (r: Status)
    ensures
        r@ == macos_status(version@),
{
    let v = text::trimmed(version);
    let parts = text::split_text(v.as_str(), '.');
    let mut m = "macOS ".to_owned();
    m.append(v.as_str());
    if leading_number(&parts) >= 12 {
        m.append(" — IOKit GPU stats supported");
        Status::Pass(m)
    } else {
        m.append(" — IOKit GPU stats require macOS 12 (Monterey) or later");
        Status::Warn(m)
    }
}

/// Checks the Apple GPU: the chip and the system version where they can be read, and
/// a probe of the GPU service.
pub fn check_apple_gpu(
    chip: &Option<String>,
    version: &Option<String>,
    probe: &Result<(), CalibrateError>,
) -> (r: Vec<Status>)
    ensures
        statuses(r@) == apple_statuses(text_view(*chip), text_view(*version), *probe),
{
    broadcast use group_statuses;

    let mut out: Vec<Status> = Vec::new();
    match chip {
        Some(c) => {
            let mut m = "Chip: ".to_owned();
            m.append(text::trimmed(c.as_str()).as_str());
            out.push(Status::Info(m));
        },
        None => {},
    }
    match version {
        Some(v) => {
            out.push(macos(v.as_str()));
        },
        None => {},
    }
    match probe {
        Ok(_) => {
            out.push(
                Status::Pass("IOKit GPU service found (AGXAccelerator / IOAccelerator)".to_owned()),
            );
        },
        Err(e) => {
            let mut m = "IOKit GPU probe failed: ".to_owned();
            m.append(e.message().as_str());
            m.append(
                "\n\nTo fix:\n• Ensure System Preferences → Privacy → Full Disk Access is not blocking the terminal\n• If running in a sandboxed environment, use a standard Terminal.app session\n• Upgrade to macOS 12 (Monterey) or later",
            );
            out.push(Status::Fail(m));
        },
    }
    assert(statuses(out@) =~= apple_statuses(text_view(*chip), text_view(*version), *probe));
    out
}

/// What is said of a training process: how to watch it, and its command.
pub open spec fn process_statuses(p: discover::ProcessView) -> Seq<StatusView> {
    seq![
        StatusView::Info(
            "  PID "@ + text::decimal(p.pid as nat) + "  →  calibrate watch --pid "@
                + text::decimal(p.pid as nat),
        ),
        StatusView::Info("           cmd: "@ + p.command),
    ]
}

/// What is said of training processes.
pub open spec fn processes_statuses(ps: Seq<discover::ProcessView>) -> Seq<StatusView>
    decreases ps.len(),
{
    if ps.len() == 0 {
        Seq::empty()
    } else {
        processes_statuses(ps.drop_last()) + process_statuses(ps.last())
    }
}

/// What the check of process visibility says.
pub open spec fn visibility_statuses(
    own_pid: u32,
    visible: bool,
    training: Seq<discover::ProcessView>,
) -> Seq<StatusView> {
    let pid = text::decimal(own_pid as nat);
    let own = if visible {
        StatusView::Pass("Can observe own PID ("@ + pid + ") — process visibility OK"@)
    } else {
        StatusView::Fail(
            "Cannot observe own PID ("@ + pid
                + ") — likely running inside a container with PID namespace isolation\n\nTo fix:\nRun calibrate on the host, not inside a container.\nOr use: docker run --pid=host ..."@,
        )
    };
    if training.len() == 0 {
        seq![
            own,
            StatusView::Info(
                "No active training processes detected (python/torch not found in process list)"@,
            ),
            StatusView::Info("When training starts, find the PID with: pgrep -f train.py"@),
        ]
    } else {
        seq![
            own,
            StatusView::Info(
                "Detected "@ + text::decimal(training.len()) + " likely training process(es):"@,
            ),
        ] + processes_statuses(training)
    }
}

/// Checks that processes can be seen; `training` are those that look like training
/// jobs, with their shortened commands.
pub fn check_proc_visibility(
    own_pid: u32,
    visible: bool,
    training: &Vec<TrainingProcess>,
) -> (r: Vec<Status>)
    ensures
        statuses(r@) == visibility_statuses(
            own_pid,
            visible,
            discover::processes_view(training@),
        ),
{
    broadcast use group_statuses;

    let ghost ps = discover::processes_view(training@);
    let mut out: Vec<Status> = Vec::new();
    let pid = text::decimal_text(own_pid as u64);
    if visible {
        let mut m = "Can observe own PID (".to_owned();
        m.append(pid.as_str());
        m.append(") — process visibility OK");
        out.push(Status::Pass(m));
    } else {
        let mut m = "Cannot observe own PID (".to_owned();
        m.append(pid.as_str());
        m.append(
            ") — likely running inside a container with PID namespace isolation\n\nTo fix:\nRun calibrate on the host, not inside a container.\nOr use: docker run --pid=host ...",
        );
        out.push(Status::Fail(m));
    }
    assert(ps.len() == training@.len());
    if training.len() == 0 {
        out.push(
            Status::Info(
                "No active training processes detected (python/torch not found in process list)".to_owned(),
            ),
        );
        out.push(
            Status::Info("When training starts, find the PID with: pgrep -f train.py".to_owned()),
        );
        assert(statuses(out@) =~= visibility_statuses(own_pid, visible, ps));
        return out;
    }
    let mut m = "Detected ".to_owned();
    m.append(text::decimal_text(training.len() as u64).as_str());
    m.append(" likely training process(es):");
    out.push(Status::Info(m));
    let ghost head = statuses(out@);
    let mut i: usize = 0;
    assert(statuses(out@) =~= head + processes_statuses(ps.take(0)));
    while i < training.len()
        invariant
            i <= training@.len(),
            ps == discover::processes_view(training@),
            statuses(out@) == head + processes_statuses(ps.take(i as int)),
        decreases training.len() - i,
    {
        broadcast use group_statuses;

        let p = &training[i];
        let n = text::decimal_text(p.pid as u64);
        let mut watch = "  PID ".to_owned();
        watch.append(n.as_str());
        watch.append("  →  calibrate watch --pid ");
        watch.append(n.as_str());
        let mut cmd = "           cmd: ".to_owned();
        cmd.append(p.command.as_str());
        out.push(Status::Info(watch));
        out.push(Status::Info(cmd));
        proof {
            assert(ps.take(i + 1).drop_last() =~= ps.take(i as int));
            assert(ps.take(i + 1).last() == p@);
            assert(statuses(out@) =~= head + (processes_statuses(ps.take(i as int))
                + process_statuses(p@)));
        }
        i = i + 1;
    }
    assert(ps.take(i as int) =~= ps);
    assert(statuses(out@) =~= visibility_statuses(own_pid, visible, ps));
    out
}

/// Processes with their commands cut to be shown.
pub open spec fn shortened(ps: Seq<discover::ProcessView>) -> Seq<discover::ProcessView> {
    ps.map_values(
        |p: discover::ProcessView|
            discover::ProcessView {
                command: text::truncated(p.command, discover::COMMAND_BYTES as nat),
                ..p
            },
    )
}

/// The processes that look like training jobs, with shortened commands.
pub fn find_training_pids(processes: &Vec<TrainingProcess>) -> (r: Vec<TrainingProcess>)
    requires
        discover::are_showable(discover::training(discover::processes_view(processes@))),
    ensures
        discover::processes_view(r@) == shortened(
            discover::training(discover::processes_view(processes@)),
        ),
{
    let found = discover::select_training(processes);
    let ghost all = discover::processes_view(found@);
    let mut r: Vec<TrainingProcess> = Vec::new();
    let mut i: usize = 0;
    while i < found.len()
        invariant
            i <= found@.len(),
            all == discover::processes_view(found@),
            discover::are_showable(all),
            r@.len() == i,
            forall|k: int|
                0 <= k < i ==> (#[trigger] discover::processes_view(r@)[k]) == shortened(all)[k],
        decreases found.len() - i,
    {
        let p = &found[i];
        assert(all[i as int] == p@);
        let command = truncate(p.command.as_str(), discover::COMMAND_BYTES);
        let ghost held = discover::processes_view(r@);
        r.push(TrainingProcess { pid: p.pid, command });
        assert forall|k: int| 0 <= k < i + 1 implies (#[trigger] discover::processes_view(r@)[k])
            == shortened(all)[k] by {
            if k < i {
                assert(discover::processes_view(r@)[k] == held[k]);
            }
        }
        i = i + 1;
    }
    assert(discover::processes_view(r@) =~= shortened(all));
    r
}

/// The processes that look like training jobs as [`find_training_pids`] finds them;
/// nothing where the command of one cannot be cut.
pub fn try_find_training_pids(processes: &Vec<TrainingProcess>) -> (r: Option<
    Vec<TrainingProcess>,
>)
    ensures
        r is Some <==> discover::are_showable(
            discover::training(discover::processes_view(processes@)),
        ),
        r matches Some(found) ==> discover::processes_view(found@) == shortened(
            discover::training(discover::processes_view(processes@)),
        ),
{
    if discover::can_show(&discover::select_training(processes)) {
        Some(find_training_pids(processes))
    } else {
        None
    }
}

/// One failure makes the diagnosis fail; else one warning makes it warn; without both the
/// system is ready, whatever else was said.
pub proof fn law_failures_outweigh_warnings(all: Seq<StatusView>, i: int)
    requires
        0 <= i < all.len(),
    ensures
        all[i] is Fail ==> verdict_of(all) is Fail,
        all[i] is Warn ==> !(verdict_of(all) is Ready),
        (forall|k: int| 0 <= k < all.len() ==> !((#[trigger] all[k]) is Fail)) ==> !(verdict_of(
            all,
        ) is Fail),
        (forall|k: int|
            0 <= k < all.len() ==> (#[trigger] all[k]) is Pass || all[k] is Info) ==> verdict_of(
            all,
        ) is Ready,
        verdict_of(Seq::empty()) is Ready,
{
}

/// A line shows the mark of its outcome and then the message.
pub proof fn law_lines_show_the_outcome(m: Seq<char>)
    ensures
        status_line(StatusView::Pass(m)) == "  ✓  "@ + m,
        status_line(StatusView::Warn(m)) == "  ⚠  "@ + m,
        status_line(StatusView::Fail(m)) == "  ✗  "@ + m,
        status_line(StatusView::Info(m)) == "  ·  "@ + m,
{
    reveal_strlit("  ");
    reveal_strlit("✓");
    reveal_strlit("⚠");
    reveal_strlit("✗");
    reveal_strlit("·");
    reveal_strlit("  ✓  ");
    reveal_strlit("  ⚠  ");
    reveal_strlit("  ✗  ");
    reveal_strlit("  ·  ");
    assert("  "@ + "✓"@ + "  "@ =~= "  ✓  "@);
    assert("  "@ + "⚠"@ + "  "@ =~= "  ⚠  "@);
    assert("  "@ + "✗"@ + "  "@ =~= "  ✗  "@);
    assert("  "@ + "·"@ + "  "@ =~= "  ·  "@);
}

/// The end of a diagnosis says how it went.
pub proof fn law_verdicts_are_told()
    ensures
        verdict_text(Verdict::Fail).len() == 2,
        "Result: FAIL"@.is_prefix_of(verdict_text(Verdict::Fail)[0]),
        verdict_text(Verdict::Warn).len() == 2,
        "Result: WARN"@.is_prefix_of(verdict_text(Verdict::Warn)[0]),
        verdict_text(Verdict::Ready).len() == 1,
        "Result: OK"@.is_prefix_of(verdict_text(Verdict::Ready)[0]),
{
    reveal_strlit("Result: FAIL");
    reveal_strlit("Result: WARN");
    reveal_strlit("Result: OK");
    reveal_strlit("Result: FAIL — one or more required components are missing.");
    reveal_strlit("Result: WARN — calibrate will work with limited functionality.");
    reveal_strlit("Result: OK — all checks passed. calibrate is ready to use.");
    let f = "Result: FAIL — one or more required components are missing."@;
    let w = "Result: WARN — calibrate will work with limited functionality."@;
    let r = "Result: OK — all checks passed. calibrate is ready to use."@;
    assert("Result: FAIL"@ =~= f.take(12));
    assert("Result: WARN"@ =~= w.take(12));
    assert("Result: OK"@ =~= r.take(10));
}

/// Linux and macOS pass the check of the platform, and every other system gets a warning;
/// the check never fails.
pub proof fn law_platforms(os: Seq<char>, arch: Seq<char>)
    ensures
        platform_statuses(os, arch).len() == 2,
        platform_statuses(os, arch)[0] == StatusView::Info("OS: "@ + os + "  arch: "@ + arch),
        platform_statuses(os, arch)[1] is Pass <==> os == "linux"@ || os == "macos"@,
        platform_statuses(os, arch)[1] is Warn <==> os != "linux"@ && os != "macos"@,
        verdict_of(platform_statuses(os, arch)) is Ready <==> os == "linux"@ || os == "macos"@,
{
    let all = platform_statuses(os, arch);
    assert(all[1] is Warn ==> verdict_of(all) is Warn);
}

/// Without `nvidia-smi` that alone is reported; with it, its run comes second, and the
/// library, the control device and NVML follow.
pub proof fn law_nvidia_checks_stop_without_smi(f: NvidiaFacts)
    ensures
        f.smi_path is None ==> nvidia_statuses(f).len() == 1 && nvidia_statuses(f)[0] is Fail,
        f.smi_path is Some ==> nvidia_statuses(f)[0] == StatusView::Pass(
            "nvidia-smi found: "@ + f.smi_path->0@,
        ),
        f.smi_path is Some ==> nvidia_statuses(f).len() == 3 + smi_run_statuses(
            result_view(f.smi_output),
        ).len() + nvml_statuses(f.nvml).len(),
{
}

/// The NVIDIA checks fail where any of them fails: `nvidia-smi` is missing or fails, the
/// library or the control device is missing, or NVML does not start.
pub proof fn law_nvidia_failures(f: NvidiaFacts)
    ensures
        verdict_of(nvidia_statuses(f)) is Fail <==> f.smi_path is None || f.smi_output is Err
            || f.nvml_library is None || f.control_device is Missing || f.nvml is Err,
{
    let all = nvidia_statuses(f);
    if f.smi_path is None {
        assert(all[0] is Fail);
    } else {
        let run = smi_run_statuses(result_view(f.smi_output));
        let nvml = nvml_statuses(f.nvml);
        let n = run.len() as int;
        assert(all[0] is Pass);
        assert forall|i: int| 0 <= i < n implies (#[trigger] run[i]) is Fail <==> f.smi_output
            is Err by {}
        assert forall|i: int| 0 <= i < nvml.len() implies (#[trigger] nvml[i]) is Fail
            <==> f.nvml is Err by {}
        assert(all[1 + n] == library_status(text_view(f.nvml_library)));
        assert(all[2 + n] == device_status(f.control_device));
        if f.smi_output is Err {
            assert(all[1] == run[0]);
            assert(all[1] is Fail);
        }
        if f.nvml_library is None {
            assert(all[1 + n] is Fail);
        }
        if f.control_device is Missing {
            assert(all[2 + n] is Fail);
        }
        if f.nvml is Err {
            assert(all[3 + n] == nvml[0]);
            assert(all[3 + n] is Fail);
        }
        if exists|i: int| 0 <= i < all.len() && (#[trigger] all[i]) is Fail {
            let i = choose|i: int| 0 <= i < all.len() && (#[trigger] all[i]) is Fail;
            if 1 <= i < 1 + n {
                assert(all[i] == run[i - 1]);
            } else if i >= 3 + n {
                assert(all[i] == nvml[i - 3 - n]);
            }
        }
    }
}

/// Each line that `nvidia-smi` printed is a GPU; where it printed none there is a warning.
pub proof fn law_gpus_are_listed(o: Seq<char>, e: Seq<char>, i: int)
    ensures
        text::trim(o).len() == 0 ==> smi_run_statuses(Ok(o)).len() == 1 && smi_run_statuses(
            Ok(o),
        )[0] is Warn,
        text::trim(o).len() > 0 ==> smi_run_statuses(Ok(o)).len() == text::lines(
            text::trim(o),
        ).len(),
        text::trim(o).len() > 0 && 0 <= i < text::lines(text::trim(o)).len() ==> smi_run_statuses(
            Ok(o),
        )[i] == StatusView::Pass("GPU detected: "@ + text::lines(text::trim(o))[i]),
        smi_run_statuses(Err(e)).len() == 1 && smi_run_statuses(Err(e))[0] is Fail,
{
}

/// The control device passes exactly where the third bit of its mode from the right is
/// set: everyone may read it.
pub proof fn law_control_devices_are_world_readable(mode: u32, e: String)
    ensures
        device_status(ControlDevice::Mode(mode)) is Pass <==> mode & 4 != 0,
        device_status(ControlDevice::Mode(mode)) is Warn <==> mode & 4 == 0,
        device_status(ControlDevice::Missing) is Fail,
        device_status(ControlDevice::Unreadable(e)) is Warn,
{
    assert((mode / 4) % 2 == 1 <==> mode & 4 != 0) by (bit_vector);
}

/// Octal numbers have digits below eight, the last one last.
pub proof fn law_octal_numbers(n: nat, d: nat)
    requires
        d < 8,
    ensures
        octal(d) == text::decimal(d),
        n > 0 ==> octal(8 * n + d) == octal(n) + text::decimal(d),
{
    if n > 0 {
        assert((8 * n + d) / 8 == n);
        assert((8 * n + d) % 8 == d);
        assert(octal(8 * n + d) =~= octal(n) + text::decimal(d));
    }
}

/// NVML that started is told with the number of devices, and each device with its index,
/// name, memory in mebibytes and driver.
pub proof fn law_devices_are_told(report: NvmlReport, e: String, i: int)
    requires
        0 <= i < report.devices@.len(),
    ensures
        nvml_statuses(Ok(report)).len() == 1 + report.devices@.len(),
        nvml_statuses(Ok(report))[0] is Pass,
        nvml_statuses(Ok(report))[1 + i] == device_line(report.devices@[i]),
        nvml_statuses(Err(e)).len() == 1 && nvml_statuses(Err(e))[0] is Fail,
        ({
            let d = report.devices@[i];
            d.name is Some && d.memory_total_bytes is Some && d.driver is Some ==> device_line(d)
                == StatusView::Info(
                "  ["@ + text::decimal(d.index as nat) + "] "@ + d.name->0@ + "  •  "@
                    + text::decimal((d.memory_total_bytes->0 / 1_048_576) as nat)
                    + " MiB VRAM"@ + "  •  driver "@ + d.driver->0@,
            )
        }),
{
    let d = report.devices@[i];
    if d.name is Some && d.memory_total_bytes is Some && d.driver is Some {
        let b = d.memory_total_bytes->0;
        assert(b / 1024 / 1024 == b / 1_048_576);
        let head = "  ["@ + text::decimal(d.index as nat) + "] "@ + d.name->0@ + "  •  "@;
        let mem = text::decimal((b / 1_048_576) as nat);
        assert(head + (mem + " MiB VRAM"@) =~= head + mem + " MiB VRAM"@);
    }
}

/// GPU statistics are there from macOS 12 on.
pub proof fn law_macos_twelve_is_needed(major: nat, rest: Seq<char>)
    requires
        major <= u64::MAX,
        rest.len() > 0,
        !text::is_white(rest.last()),
    ensures
        macos_status(text::decimal(major) + seq!['.'] + rest) is Pass <==> major >= 12,
        macos_status(text::decimal(major) + seq!['.'] + rest) is Warn <==> major < 12,
{
    let d = text::decimal(major);
    let v = d + seq!['.'] + rest;
    text::lemma_decimal_read_back(major);
    text::law_numbers_are_read(major, u64::MAX as nat, Seq::empty());
    assert(text::is_digit(d[0]));
    assert(v[0] == d[0]);
    assert(text::white_len(v) == 0);
    assert(v.skip(0) =~= v);
    assert(v.last() == rest.last());
    assert(text::trim(v) == v);
    text::lemma_first_index(v, '.');
    let n = text::first_index(v, '.');
    assert(v[d.len() as int] == '.');
    if n < d.len() {
        assert(text::is_digit(d[n]));
        assert(v[n] == d[n]);
    }
    assert(v.take(n) =~= d);
    assert(text::split_on(v, '.')[0] == d);
}

/// The Apple checks end with the probe, which fails exactly where the probe did; the chip
/// and the version are told where they are known.
pub proof fn law_apple_checks(
    chip: Option<Seq<char>>,
    version: Option<Seq<char>>,
    probe: Result<(), CalibrateError>,
)
    ensures
        apple_statuses(chip, version, probe).last() is Fail <==> probe is Err,
        apple_statuses(chip, version, probe).last() is Pass <==> probe is Ok,
        verdict_of(apple_statuses(chip, version, probe)) is Fail <==> probe is Err,
        chip matches Some(c) ==> apple_statuses(chip, version, probe)[0] == StatusView::Info(
            "Chip: "@ + text::trim(c),
        ),
        apple_statuses(chip, version, probe).len() == 1 + (if chip is Some {
            1int
        } else {
            0
        }) + (if version is Some {
            1int
        } else {
            0
        }),
{
    let all = apple_statuses(chip, version, probe);
    let n = all.len() - 1;
    assert(all[n] == iokit_status(probe));
    if probe is Err {
        assert(all[n] is Fail);
    }
    if chip is Some {
        assert(all[0] is Info);
        if version is Some {
            assert(all[1] == macos_status(version->0));
        }
    } else if version is Some {
        assert(all[0] == macos_status(version->0));
    }
}

/// The check of visibility fails exactly where this process is not seen; training
/// processes are counted and listed, two lines for each.
pub proof fn law_visibility(own_pid: u32, visible: bool, training: Seq<discover::ProcessView>)
    ensures
        visibility_statuses(own_pid, visible, training)[0] is Pass <==> visible,
        visibility_statuses(own_pid, visible, training)[0] is Fail <==> !visible,
        visibility_statuses(own_pid, visible, training).len() == (if training.len() == 0 {
            3
        } else {
            2 + 2 * training.len()
        }),
        training.len() > 0 ==> visibility_statuses(own_pid, visible, training)[1]
            == StatusView::Info(
            "Detected "@ + text::decimal(training.len()) + " likely training process(es):"@,
        ),
        forall|i: int|
            0 <= i < training.len() ==> visibility_statuses(own_pid, visible, training)[2 + 2 * i]
                == StatusView::Info(
                "  PID "@ + text::decimal((#[trigger] training[i]).pid as nat)
                    + "  →  calibrate watch --pid "@ + text::decimal(training[i].pid as nat),
            ) && visibility_statuses(own_pid, visible, training)[3 + 2 * i] == StatusView::Info(
                "           cmd: "@ + training[i].command,
            ),
{
    lemma_processes_statuses(training);
    let all = visibility_statuses(own_pid, visible, training);
    let listed = processes_statuses(training);
    assert forall|i: int| 0 <= i < training.len() implies all[2 + 2 * i] == StatusView::Info(
        "  PID "@ + text::decimal((#[trigger] training[i]).pid as nat)
            + "  →  calibrate watch --pid "@ + text::decimal(training[i].pid as nat),
    ) && all[3 + 2 * i] == StatusView::Info("           cmd: "@ + training[i].command) by {
        assert(all[2 + 2 * i] == listed[2 * i]);
        assert(all[3 + 2 * i] == listed[2 * i + 1]);
        assert(listed[2 * i] == process_statuses(training[i])[0]);
    }
}

proof fn lemma_processes_statuses(ps: Seq<discover::ProcessView>)
    ensures
        processes_statuses(ps).len() == 2 * ps.len(),
        forall|i: int|
            0 <= i < ps.len() ==> processes_statuses(ps)[2 * i] == process_statuses(
                #[trigger] ps[i],
            )[0] && processes_statuses(ps)[2 * i + 1] == process_statuses(ps[i])[1],
    decreases ps.len(),
{
    if ps.len() > 0 {
        let h = ps.drop_last();
        lemma_processes_statuses(h);
        assert forall|i: int| 0 <= i < ps.len() implies processes_statuses(ps)[2 * i]
            == process_statuses(#[trigger] ps[i])[0] && processes_statuses(ps)[2 * i + 1]
            == process_statuses(ps[i])[1] by {
            if i < h.len() {
                assert(h[i] == ps[i]);
            }
        }
    }
}

/// Commands are shortened to 80 characters, where they are ASCII; the processes stay the
/// same and in order.
pub proof fn law_commands_are_shortened(ps: Seq<discover::ProcessView>, i: int)
    requires
        0 <= i < ps.len(),
        vstd::utf8::is_ascii_chars(ps[i].command),
    ensures
        shortened(ps).len() == ps.len(),
        shortened(ps)[i].pid == ps[i].pid,
        ps[i].command.len() <= 80 ==> shortened(ps)[i].command == ps[i].command,
        ps[i].command.len() > 80 ==> shortened(ps)[i].command == ps[i].command.take(80) + "…"@,
{
    text::law_ascii_is_cut_by_characters(ps[i].command, 80);
}

} // verus!
