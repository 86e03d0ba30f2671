//! Collection of a number of raw samples.
use vstd::prelude::*;

use crate::process::attach::{ContainerContext, ProcessInfo};
use crate::text;

verus! {

broadcast use vstd::string::group_string_axioms;

/// What comes of waiting for a sample.
#[derive(Clone, Copy, Debug, PartialEq, Eq, Structural)]
pub enum Arrival {
    /// A sample.
    Sample,
    /// Nothing for ten seconds.
    Timeout,
    /// The collector is gone.
    Disconnected,
}

/// What is done about it.
#[derive(Debug)]
pub enum Reaction {
    /// The sample is written out.
    Write,
    /// The user is told, and waiting goes on.
    Warn(String),
    /// The user is told, and the probe ends.
    End(String),
}

/// The progress of a probe.
#[derive(Clone, Copy, Debug, PartialEq, Eq, Structural)]
pub struct Probe {
    /// The number of samples to collect.
    pub wanted: u32,
    /// The number of samples that have come.
    pub received: u32,
    /// Whether the collector is gone.
    pub disconnected: bool,
}

/// The warning that sample `n` of `wanted` does not come.
pub open spec fn timeout_text(n: nat, wanted: nat) -> Seq<char> {
    "Timeout waiting for sample "@ + text::decimal(n) + "/"@ + text::decimal(wanted)
        + " — is the process actively using the GPU?"@
}

impl Probe {
    /// Whether a probe has received no more than it wants.
    pub open spec fn sound(self) -> bool {
        self.received <= self.wanted
    }

    /// Whether a probe goes on.
    pub open spec fn waits(self) -> bool {
        self.received < self.wanted && !self.disconnected
    }

    /// A probe for a number of samples.
    pub fn new(wanted: u32) -> (r: Probe)
        ensures
            r == (Probe { wanted, received: 0, disconnected: false }),
            r.sound(),
    {
        Probe { wanted, received: 0, disconnected: false }
    }

    /// Whether the probe goes on waiting.
    pub fn goes_on(&self) -> (r: bool)
        ensures
            r == self.waits(),
    {
        self.received < self.wanted && !self.disconnected
    }

    /// Takes account of what came of waiting.
    pub fn react(&mut self, arrival: Arrival) -> (r: Reaction)
        requires
            old(self).sound(),
            old(self).waits(),
        ensures
            final(self).sound(),
            final(self).wanted == old(self).wanted,
            final(self).received == old(self).received + (if arrival == Arrival::Sample {
                1int
            } else {
                0
            }),
            final(self).disconnected == (arrival == Arrival::Disconnected),
            match arrival {
                Arrival::Sample => r == Reaction::Write,
                Arrival::Timeout => (r matches Reaction::Warn(s) && s@ == timeout_text(
                    (old(self).received + 1) as nat,
                    old(self).wanted as nat,
                )),
                Arrival::Disconnected => (r matches Reaction::End(s) && s@
                    == "Collector thread exited unexpectedly"@),
            },
    {
        match arrival {
            Arrival::Sample => {
                self.received = self.received + 1;
                Reaction::Write
            },
            Arrival::Timeout => {
                let mut s = "Timeout waiting for sample ".to_owned();
                s.append(text::decimal_text(self.received as u64 + 1).as_str());
                s.append("/");
                s.append(text::decimal_text(self.wanted as u64).as_str());
                s.append(" — is the process actively using the GPU?");
                Reaction::Warn(s)
            },
            Arrival::Disconnected => {
                self.disconnected = true;
                Reaction::End("Collector thread exited unexpectedly".to_owned())
            },
        }
    }

    /// What is said at the end.
    pub open spec fn closing(self) -> Seq<char> {
        if self.received == self.wanted {
            "Done — "@ + text::decimal(self.received as nat) + " sample(s) received successfully."@
        } else {
            "Received "@ + text::decimal(self.received as nat) + "/"@ + text::decimal(
                self.wanted as nat,
            ) + " sample(s) before stopping."@
        }
    }

    /// What is said at the end.
    pub fn closing_text(&self) -> (r: String)
        ensures
            r@ == self.closing(),
    {
        let received = text::decimal_text(self.received as u64);
        if self.received == self.wanted {
            let mut s = "Done — ".to_owned();
            s.append(received.as_str());
            s.append(" sample(s) received successfully.");
            s
        } else {
            let mut s = "Received ".to_owned();
            s.append(received.as_str());
            s.append("/");
            s.append(text::decimal_text(self.wanted as u64).as_str());
            s.append(" sample(s) before stopping.");
            s
        }
    }
}

/// A sound probe that has ended has all its samples, or has lost its collector.
pub proof fn law_probes_end_complete_or_cut_off(p: Probe)
    requires
        p.sound(),
        !p.waits(),
    ensures
        p.received == p.wanted || p.disconnected,
{
}

/// The name of a container context.
pub open spec fn context_name(context: ContainerContext) -> Seq<char> {
    match context {
        ContainerContext::Host => "Host"@,
        ContainerContext::Docker => "Docker"@,
        ContainerContext::Kubernetes => "Kubernetes"@,
        ContainerContext::Unknown => "Unknown"@,
    }
}

/// The indices of GPUs, in order.
pub open spec fn index_texts(indices: Seq<u32>) -> Seq<Seq<char>> {
    indices.map_values(|i: u32| text::decimal(i as nat))
}

/// What is said of the process that is probed.
pub open spec fn attached_text(info: ProcessInfo) -> Seq<Seq<char>> {
    seq![
        "Attached to PID "@ + text::decimal(info.pid as nat),
        "  Primary GPU : "@ + info.primary_gpu_name@,
        "  GPU indices : ["@ + text::joined(index_texts(info.gpu_indices@), ", "@) + "]"@,
        "  Container   : "@ + context_name(info.container_context),
    ]
}

/// What is said of the process that is probed, line by line.
pub fn attached_lines(info: &ProcessInfo) -> (r: Vec<String>)
    ensures
        text::texts(r@) == attached_text(*info),
{
    broadcast use text::group_texts;

    let ghost all = index_texts(info.gpu_indices@);
    let mut indices: Vec<String> = Vec::new();
    let mut i: usize = 0;
    assert(text::texts(indices@) =~= all.take(0));
    while i < info.gpu_indices.len()
        invariant
            i <= info.gpu_indices@.len(),
            all == index_texts(info.gpu_indices@),
            text::texts(indices@) == all.take(i as int),
        decreases info.gpu_indices.len() - i,
    {
        broadcast use text::group_texts;

        indices.push(text::decimal_text(info.gpu_indices[i] as u64));
        assert(text::texts(indices@) =~= all.take(i + 1));
        i = i + 1;
    }
    assert(all.take(i as int) =~= all);
    let mut pid = "Attached to PID ".to_owned();
    pid.append(text::decimal_text(info.pid as u64).as_str());
    let mut gpu = "  Primary GPU : ".to_owned();
    gpu.append(info.primary_gpu_name.as_str());
    let mut list = "  GPU indices : [".to_owned();
    list.append(text::join_texts(&indices, ", ").as_str());
    list.append("]");
    let mut container = "  Container   : ".to_owned();
    container.append(
        match info.container_context {
            ContainerContext::Host => "Host",
            ContainerContext::Docker => "Docker",
            ContainerContext::Kubernetes => "Kubernetes",
            ContainerContext::Unknown => "Unknown",
        },
    );
    let mut r: Vec<String> = Vec::new();
    r.push(pid);
    r.push(gpu);
    r.push(list);
    r.push(container);
    assert(text::texts(r@) =~= attached_text(*info));
    r
}

/// What is said before samples are streamed; `interval` is the seconds between them
/// to one decimal.
pub fn streaming_text(wanted: u32, interval: &str) -> (r: String)
    ensures
        r@ == "Streaming "@ + text::decimal(wanted as nat) + " RawSample(s) at "@ + interval@
            + "s intervals (JSON, one per line)..."@,
{
    let mut r = "Streaming ".to_owned();
    r.append(text::decimal_text(wanted as u64).as_str());
    r.append(" RawSample(s) at ");
    r.append(interval);
    r.append("s intervals (JSON, one per line)...");
    r
}

/// A probe waits exactly until it has what it wants or its collector is gone; it says
/// that it is done exactly where it has all.
pub proof fn law_probes_wait_for_their_samples(p: Probe)
    requires
        p.sound(),
    ensures
        p.waits() <==> p.received != p.wanted && !p.disconnected,
        p.received == p.wanted ==> "Done"@.is_prefix_of(p.closing()),
        p.received < p.wanted ==> "Received"@.is_prefix_of(p.closing()),
{
    reveal_strlit("Done");
    reveal_strlit("Done — ");
    reveal_strlit("Received");
    reveal_strlit("Received ");
    if p.received == p.wanted {
        assert("Done"@ =~= p.closing().take(4));
    } else {
        assert("Received"@ =~= p.closing().take(8));
    }
}

/// The warning names the sample that is waited for, out of all.
pub proof fn law_timeouts_name_the_sample(n: nat, wanted: nat)
    ensures
        ("Timeout waiting for sample "@ + text::decimal(n) + "/"@ + text::decimal(
            wanted,
        )).is_prefix_of(timeout_text(n, wanted)),
{
    let head = "Timeout waiting for sample "@ + text::decimal(n) + "/"@ + text::decimal(wanted);
    assert(head =~= timeout_text(n, wanted).take(head.len() as int));
}

} // verus!
