//! What a user is told before a session starts, and when its display is refreshed.
use vstd::prelude::*;

use crate::process::attach::ContainerContext;
use crate::text;

verus! {

broadcast use vstd::string::group_string_axioms;

/// The advice for a session inside a container.
pub open spec fn container_advice(context: ContainerContext, pid: u32) -> Option<Seq<char>> {
    match context {
        ContainerContext::Docker => Some(
            "[calibrate] Note: running inside a Docker container. If the training process is on the host, run calibrate there instead:\n  docker exec -it <container> calibrate watch --pid "@
                + text::decimal(pid as nat),
        ),
        ContainerContext::Kubernetes => Some(
            "[calibrate] Note: running inside a Kubernetes pod. If the training process is on the host node, use:\n  kubectl exec -it <pod> -- calibrate watch --pid "@
                + text::decimal(pid as nat),
        ),
        ContainerContext::Host | ContainerContext::Unknown => None,
    }
}

/// The advice for a session inside a container of a known kind.
pub fn container_advisory(context: ContainerContext, pid: u32) -> (r: Option<String>)
    ensures
        match r {
            Some(s) => container_advice(context, pid) == Some(s@),
            None => container_advice(context, pid) is None,
        },
{
    let mut s = match context {
        ContainerContext::Docker =>
            "[calibrate] Note: running inside a Docker container. If the training process is on the host, run calibrate there instead:\n  docker exec -it <container> calibrate watch --pid ".to_owned(),
        ContainerContext::Kubernetes =>
            "[calibrate] Note: running inside a Kubernetes pod. If the training process is on the host node, use:\n  kubectl exec -it <pod> -- calibrate watch --pid ".to_owned(),
        ContainerContext::Host | ContainerContext::Unknown => {
            return None;
        },
    };
    s.append(text::decimal_text(pid as u64).as_str());
    Some(s)
}

/// The warning that GPU metrics are disabled.
pub fn nvml_advisory(nvml_available: bool) -> (r: Option<&'static str>)
    ensures
        nvml_available ==> r is None,
        !nvml_available ==> (r matches Some(s) && s@
            == "[calibrate] Warning: NVML unavailable — GPU metrics disabled.\nShowing CPU metrics only.  To enable full monitoring:\n• Confirm nvidia-smi is installed and the driver is loaded\n• On non-NVIDIA hardware MFU cannot be computed"@),
{
    if nvml_available {
        None
    } else {
        Some(
            "[calibrate] Warning: NVML unavailable — GPU metrics disabled.\nShowing CPU metrics only.  To enable full monitoring:\n• Confirm nvidia-smi is installed and the driver is loaded\n• On non-NVIDIA hardware MFU cannot be computed",
        )
    }
}

/// What wakes the display.
#[derive(Clone, Copy, Debug, PartialEq, Eq, Structural)]
pub enum Wakeup {
    /// A snapshot was published.
    Published,
    /// Nothing more will be published.
    Closed,
    /// An interval has passed.
    Interval,
}

/// What the display does next.
#[derive(Clone, Copy, Debug, PartialEq, Eq, Structural)]
pub enum Refresh {
    /// It ends.
    Stop,
    /// It shows the latest snapshot.
    Show,
    /// There is no snapshot yet.
    Wait,
}

/// What the display does when it wakes.
pub open spec fn refresh_of(wakeup: Wakeup, stopped: bool, has_snapshot: bool) -> Refresh {
    if wakeup == Wakeup::Closed || stopped {
        Refresh::Stop
    } else if has_snapshot {
        Refresh::Show
    } else {
        Refresh::Wait
    }
}

/// What the display does when it wakes: it ends where nothing more is published or
/// the session was stopped.
pub fn on_wakeup(wakeup: Wakeup, stopped: bool, has_snapshot: bool) -> (r: Refresh)
    ensures
        r == refresh_of(wakeup, stopped, has_snapshot),
{
    match wakeup {
        Wakeup::Closed => Refresh::Stop,
        Wakeup::Published | Wakeup::Interval => if stopped {
            Refresh::Stop
        } else if has_snapshot {
            Refresh::Show
        } else {
            Refresh::Wait
        },
    }
}

/// Only a container of a known kind is worth a note, and the note ends in the PID.
pub proof fn law_containers_are_noted(context: ContainerContext, pid: u32)
    ensures
        container_advice(context, pid) is Some <==> context == ContainerContext::Docker || context
            == ContainerContext::Kubernetes,
        container_advice(context, pid) matches Some(s) ==> text::decimal(
            pid as nat,
        ).is_suffix_of(s),
{
    if container_advice(context, pid) is Some {
        let s = container_advice(context, pid)->0;
        let d = text::decimal(pid as nat);
        assert(d =~= s.subrange(s.len() - d.len(), s.len() as int));
    }
}

/// The display ends exactly where the session was stopped or nothing more comes; before
/// that it shows whatever snapshot there is, on a publication as on an interval.
pub proof fn law_displays_show_what_there_is(wakeup: Wakeup, stopped: bool, has_snapshot: bool)
    ensures
        refresh_of(wakeup, stopped, has_snapshot) is Stop <==> stopped || wakeup is Closed,
        refresh_of(wakeup, stopped, has_snapshot) is Show <==> !stopped && has_snapshot && (
        wakeup is Published || wakeup is Interval),
        refresh_of(wakeup, stopped, has_snapshot) is Wait <==> !stopped && !has_snapshot && (
        wakeup is Published || wakeup is Interval),
{
}

} // verus!
