//! The registry of inference runtimes.
use vstd::prelude::*;

use crate::bench;
use crate::bench::input;
use crate::bench::input::ModelFormat;
use crate::bench::SkippedRuntime;
use crate::text;

verus! {

broadcast use vstd::string::group_string_axioms;

/// The runtimes that a model can be benchmarked on.
#[derive(Clone, Copy, Debug, PartialEq, Eq, Structural)]
pub enum RuntimeKind {
    Candle,
    OnnxRuntime,
    LlamaCpp,
    TorchScript,
    TensorRt,
}

/// The name of a runtime.
pub open spec fn runtime_name(kind: RuntimeKind) -> Seq<char> {
    match kind {
        RuntimeKind::Candle => "candle"@,
        RuntimeKind::OnnxRuntime => "onnxruntime"@,
        RuntimeKind::LlamaCpp => "llamacpp"@,
        RuntimeKind::TorchScript => "torchscript"@,
        RuntimeKind::TensorRt => "tensorrt"@,
    }
}

/// Whether a runtime can load a model of the given format. TensorRT builds its
/// engine from ONNX.
pub open spec fn loads(kind: RuntimeKind, format: ModelFormat) -> bool {
    match kind {
        RuntimeKind::Candle => format == ModelFormat::SafeTensors,
        RuntimeKind::OnnxRuntime => format == ModelFormat::Onnx,
        RuntimeKind::LlamaCpp => format == ModelFormat::Gguf,
        RuntimeKind::TorchScript => format == ModelFormat::TorchScript,
        RuntimeKind::TensorRt => format == ModelFormat::Onnx,
    }
}

impl RuntimeKind {
    /// Human-readable runtime name used in output tables and JSON reports.
    pub fn name(self) -> (r: &'static str)
        ensures
            r@ == runtime_name(self),
    {
        match self {
            RuntimeKind::Candle => "candle",
            RuntimeKind::OnnxRuntime => "onnxruntime",
            RuntimeKind::LlamaCpp => "llamacpp",
            RuntimeKind::TorchScript => "torchscript",
            RuntimeKind::TensorRt => "tensorrt",
        }
    }

    /// Whether the runtime can load a model of the given format.
    pub fn is_compatible(self, format: ModelFormat) -> (r: bool)
        ensures
            r == loads(self, format),
    {
        match self {
            RuntimeKind::Candle => format == ModelFormat::SafeTensors,
            RuntimeKind::OnnxRuntime => format == ModelFormat::Onnx,
            RuntimeKind::LlamaCpp => format == ModelFormat::Gguf,
            RuntimeKind::TorchScript => format == ModelFormat::TorchScript,
            RuntimeKind::TensorRt => format == ModelFormat::Onnx,
        }
    }
}

/// What is known of a runtime on this system.
#[derive(Clone, Copy, Debug, PartialEq, Eq, Structural)]
pub struct RuntimeDescriptor {
    pub kind: RuntimeKind,
    /// Whether the runtime binary or Python package is installed.
    pub is_available: bool,
}

/// The registered runtimes, in the order of the output table.
pub open spec fn registered() -> Seq<RuntimeKind> {
    seq![
        RuntimeKind::Candle,
        RuntimeKind::OnnxRuntime,
        RuntimeKind::LlamaCpp,
        RuntimeKind::TorchScript,
        RuntimeKind::TensorRt,
    ]
}

/// Whether a kind is among those installed.
pub open spec fn is_installed(installed: Seq<RuntimeKind>, kind: RuntimeKind) -> bool {
    kind == RuntimeKind::Candle || installed.contains(kind)
}

/// The full set of registered runtime descriptors, given what was found
/// installed. Candle is always available.
pub fn registry(installed: &Vec<RuntimeKind>) -> (r: Vec<RuntimeDescriptor>)
    ensures
        r@ == registered().map_values(
            |k: RuntimeKind| RuntimeDescriptor { kind: k, is_available: is_installed(installed@, k) },
        ),
{
    let mut r: Vec<RuntimeDescriptor> = Vec::new();
    r.push(RuntimeDescriptor { kind: RuntimeKind::Candle, is_available: true });
    r.push(
        RuntimeDescriptor {
            kind: RuntimeKind::OnnxRuntime,
            is_available: found(installed, RuntimeKind::OnnxRuntime),
        },
    );
    r.push(
        RuntimeDescriptor {
            kind: RuntimeKind::LlamaCpp,
            is_available: found(installed, RuntimeKind::LlamaCpp),
        },
    );
    r.push(
        RuntimeDescriptor {
            kind: RuntimeKind::TorchScript,
            is_available: found(installed, RuntimeKind::TorchScript),
        },
    );
    r.push(
        RuntimeDescriptor {
            kind: RuntimeKind::TensorRt,
            is_available: found(installed, RuntimeKind::TensorRt),
        },
    );
    r
}

/// Whether a kind is in a list.
fn found(installed: &Vec<RuntimeKind>, kind: RuntimeKind) -> (r: bool)
    ensures
        r == installed@.contains(kind),
{
    let mut i: usize = 0;
    while i < installed.len()
        invariant
            i <= installed@.len(),
            forall|k: int| 0 <= k < i ==> installed@[k] != kind,
        decreases installed.len() - i,
    {
        if installed[i] == kind {
            return true;
        }
        i = i + 1;
    }
    false
}

/// Whether the user asked for a runtime: by name, ignoring case, or by naming none.
pub open spec fn is_wanted(requested: Option<Seq<Seq<char>>>, kind: RuntimeKind) -> bool {
    match requested {
        Some(names) => exists|i: int|
            0 <= i < names.len() && #[trigger] text::same_but_case(names[i], runtime_name(kind)),
        None => true,
    }
}

/// Whether a runtime is to be benchmarked.
pub open spec fn is_ready(
    d: RuntimeDescriptor,
    requested: Option<Seq<Seq<char>>>,
    format: ModelFormat,
) -> bool {
    is_wanted(requested, d.kind) && d.is_available && loads(d.kind, format)
}

/// Why a runtime that was asked for is not to be benchmarked.
pub open spec fn skip_reason(d: RuntimeDescriptor, format: ModelFormat) -> Seq<char> {
    if !d.is_available {
        "not installed or not found in PATH"@
    } else {
        "incompatible with "@ + input::format_name(format) + " model format"@
    }
}

/// The runtimes to benchmark, in registry order.
pub open spec fn ready_kinds(
    descriptors: Seq<RuntimeDescriptor>,
    requested: Option<Seq<Seq<char>>>,
    format: ModelFormat,
) -> Seq<RuntimeKind>
    decreases descriptors.len(),
{
    if descriptors.len() == 0 {
        Seq::empty()
    } else {
        let before = ready_kinds(descriptors.drop_last(), requested, format);
        if is_ready(descriptors.last(), requested, format) {
            before.push(descriptors.last().kind)
        } else {
            before
        }
    }
}

/// The runtimes that were asked for and cannot run, with reasons, in registry
/// order.
pub open spec fn skips(
    descriptors: Seq<RuntimeDescriptor>,
    requested: Option<Seq<Seq<char>>>,
    format: ModelFormat,
) -> Seq<bench::SkipView>
    decreases descriptors.len(),
{
    if descriptors.len() == 0 {
        Seq::empty()
    } else {
        let before = skips(descriptors.drop_last(), requested, format);
        let d = descriptors.last();
        if is_wanted(requested, d.kind) && !is_ready(d, requested, format) {
            before.push(
                bench::SkipView { name: runtime_name(d.kind), reason: skip_reason(d, format) },
            )
        } else {
            before
        }
    }
}

/// Every runtime that was asked for is either benchmarked or reported as skipped.
pub proof fn law_every_wanted_runtime_is_accounted(
    descriptors: Seq<RuntimeDescriptor>,
    requested: Option<Seq<Seq<char>>>,
    format: ModelFormat,
)
    ensures
        ready_kinds(descriptors, requested, format).len() + skips(
            descriptors,
            requested,
            format,
        ).len() == descriptors.filter(|d: RuntimeDescriptor| is_wanted(requested, d.kind)).len(),
    decreases descriptors.len(),
{
    reveal(Seq::filter);
    if descriptors.len() > 0 {
        law_every_wanted_runtime_is_accounted(descriptors.drop_last(), requested, format);
    }
}

/// What was asked for.
pub open spec fn requested_view(requested: Option<Vec<String>>) -> Option<Seq<Seq<char>>> {
    match requested {
        Some(names) => Some(text::texts(names@)),
        None => None,
    }
}

/// Whether a runtime was asked for.
fn wanted(requested: &Option<Vec<String>>, kind: RuntimeKind) -> (r: bool)
    ensures
        r == is_wanted(requested_view(*requested), kind),
{
    match requested {
        Some(names) => {
            let mut i: usize = 0;
            while i < names.len()
                invariant
                    i <= names@.len(),
                    *requested == Some(*names),
                    forall|k: int|
                        0 <= k < i ==> !#[trigger] text::same_but_case(
                            text::texts(names@)[k],
                            runtime_name(kind),
                        ),
                decreases names.len() - i,
            {
                let same = text::same_ignoring_case(names[i].as_str(), kind.name());
                assert(text::texts(names@)[i as int] == names@[i as int]@);
                if same {
                    assert(text::same_but_case(requested_view(*requested)->0[i as int], runtime_name(kind)));
                    return true;
                }
                i = i + 1;
            }
            false
        },
        None => true,
    }
}

/// Builds the list of runtimes to benchmark.
///
/// Checks availability and format compatibility for every registered
/// descriptor. Returns the runtimes that pass and an entry for each of the
/// others that was asked for.
pub fn build_runtime_list(
    registry: &Vec<RuntimeDescriptor>,
    requested: &Option<Vec<String>>,
    format: ModelFormat,
) -> (r: (Vec<RuntimeKind>, Vec<SkippedRuntime>))
    ensures
        r.0@ == ready_kinds(registry@, requested_view(*requested), format),
        bench::skips_view(r.1@) == skips(registry@, requested_view(*requested), format),
{
    broadcast use bench::group_bench_views;

    let mut runtimes: Vec<RuntimeKind> = Vec::new();
    let mut skipped: Vec<SkippedRuntime> = Vec::new();
    let ghost names = requested_view(*requested);
    let mut i: usize = 0;
    assert(bench::skips_view(skipped@) =~= Seq::empty());
    while i < registry.len()
        invariant
            i <= registry@.len(),
            names == requested_view(*requested),
            runtimes@ == ready_kinds(registry@.take(i as int), names, format),
            bench::skips_view(skipped@) == skips(registry@.take(i as int), names, format),
        decreases registry.len() - i,
    {
        broadcast use bench::group_bench_views;

        let d = registry[i];
        assert(registry@.take(i + 1).drop_last() =~= registry@.take(i as int));
        assert(registry@.take(i + 1).last() == d);
        i = i + 1;
        if !wanted(requested, d.kind) {
            continue;
        }
        if !d.is_available {
            skipped.push(
                SkippedRuntime {
                    name: d.kind.name().to_owned(),
                    reason: "not installed or not found in PATH".to_owned(),
                },
            );
            continue;
        }
        if !d.kind.is_compatible(format) {
            let mut reason = "incompatible with ".to_owned();
            reason.append(format.as_str());
            reason.append(" model format");
            skipped.push(SkippedRuntime { name: d.kind.name().to_owned(), reason });
            continue;
        }
        runtimes.push(d.kind);
    }
    assert(registry@.take(i as int) =~= registry@);
    (runtimes, skipped)
}

/// Each format is loaded by the runtimes made for it: ONNX models by ONNX Runtime and
/// TensorRT, each other format by one runtime, and unknown ones by none.
pub proof fn law_runtimes_by_format(kind: RuntimeKind)
    ensures
        loads(kind, ModelFormat::Onnx) <==> kind == RuntimeKind::OnnxRuntime || kind
            == RuntimeKind::TensorRt,
        loads(kind, ModelFormat::Gguf) <==> kind == RuntimeKind::LlamaCpp,
        loads(kind, ModelFormat::TorchScript) <==> kind == RuntimeKind::TorchScript,
        loads(kind, ModelFormat::SafeTensors) <==> kind == RuntimeKind::Candle,
        !loads(kind, ModelFormat::Unknown),
        registered().contains(kind),
        registered().no_duplicates(),
{
    let r = registered();
    assert(r[0] == RuntimeKind::Candle && r[1] == RuntimeKind::OnnxRuntime && r[2]
        == RuntimeKind::LlamaCpp && r[3] == RuntimeKind::TorchScript && r[4]
        == RuntimeKind::TensorRt);
}

/// A runtime is benchmarked exactly when it was asked for, is installed and can load the
/// model; each that was asked for and is not is skipped, for the first of these reasons
/// that applies.
pub proof fn law_only_fit_runtimes_are_ready(
    descriptors: Seq<RuntimeDescriptor>,
    requested: Option<Seq<Seq<char>>>,
    format: ModelFormat,
    i: int,
)
    requires
        0 <= i < descriptors.len(),
    ensures
        is_wanted(requested, descriptors[i].kind) && descriptors[i].is_available && loads(
            descriptors[i].kind,
            format,
        ) ==> ready_kinds(descriptors, requested, format).contains(descriptors[i].kind),
        is_wanted(requested, descriptors[i].kind) && !descriptors[i].is_available ==> skips(
            descriptors,
            requested,
            format,
        ).contains(
            (bench::SkipView {
                name: runtime_name(descriptors[i].kind),
                reason: "not installed or not found in PATH"@,
            }),
        ),
        is_wanted(requested, descriptors[i].kind) && descriptors[i].is_available && !loads(
            descriptors[i].kind,
            format,
        ) ==> skips(descriptors, requested, format).contains(
            (bench::SkipView {
                name: runtime_name(descriptors[i].kind),
                reason: "incompatible with "@ + input::format_name(format) + " model format"@,
            }),
        ),
    decreases descriptors.len(),
{
    let head = descriptors.drop_last();
    let ready = ready_kinds(descriptors, requested, format);
    let skipped = skips(descriptors, requested, format);
    let d = descriptors[i];
    let before = ready_kinds(head, requested, format);
    let left = skips(head, requested, format);
    if i < descriptors.len() - 1 {
        law_only_fit_runtimes_are_ready(head, requested, format, i);
        assert(head[i] == d);
        assert forall|k: RuntimeKind| before.contains(k) implies ready.contains(k) by {
            let j = choose|j: int| 0 <= j < before.len() && before[j] == k;
            assert(ready[j] == k);
        }
        assert forall|s: bench::SkipView| left.contains(s) implies skipped.contains(s) by {
            let j = choose|j: int| 0 <= j < left.len() && left[j] == s;
            assert(skipped[j] == s);
        }
    } else if is_wanted(requested, d.kind) {
        if d.is_available && loads(d.kind, format) {
            assert(ready[before.len() as int] == d.kind);
        } else {
            assert(skipped[left.len() as int] == (bench::SkipView {
                name: runtime_name(d.kind),
                reason: skip_reason(d, format),
            }));
        }
    }
}

/// Nothing else is benchmarked: each ready runtime was asked for, is installed and can
/// load the model.
pub proof fn law_ready_runtimes_are_fit(
    descriptors: Seq<RuntimeDescriptor>,
    requested: Option<Seq<Seq<char>>>,
    format: ModelFormat,
    kind: RuntimeKind,
)
    requires
        ready_kinds(descriptors, requested, format).contains(kind),
    ensures
        loads(kind, format),
        is_wanted(requested, kind),
        exists|i: int|
            0 <= i < descriptors.len() && (#[trigger] descriptors[i]).kind == kind
                && descriptors[i].is_available,
    decreases descriptors.len(),
{
    if descriptors.len() > 0 {
        let head = descriptors.drop_last();
        let ready = ready_kinds(descriptors, requested, format);
        let before = ready_kinds(head, requested, format);
        let j = choose|j: int| 0 <= j < ready.len() && ready[j] == kind;
        if j < before.len() {
            assert(before[j] == kind);
            law_ready_runtimes_are_fit(head, requested, format, kind);
            let i = choose|i: int|
                0 <= i < head.len() && (#[trigger] head[i]).kind == kind && head[i].is_available;
            assert(descriptors[i].kind == kind);
        } else {
            assert(descriptors[descriptors.len() - 1].kind == kind);
        }
    }
}

/// Where no runtime was named, all are wanted; where some were, a runtime is wanted
/// under any spelling of its name, and under no other name.
pub proof fn law_runtimes_are_wanted_by_name(
    requested: Option<Seq<Seq<char>>>,
    i: int,
    kind: RuntimeKind,
)
    requires
        requested matches Some(names) ==> 0 <= i < names.len(),
    ensures
        requested is None ==> is_wanted(requested, kind),
        requested matches Some(names) ==> (text::same_but_case(names[i], runtime_name(kind))
            ==> is_wanted(requested, kind)),
        requested matches Some(names) ==> (is_wanted(requested, kind) ==> exists|k: int|
            0 <= k < names.len() && #[trigger] text::same_but_case(names[k], runtime_name(kind))),
{
}

/// Candle needs no installation; any other runtime is available where it was found.
pub proof fn law_candle_is_built_in(installed: Seq<RuntimeKind>, kind: RuntimeKind)
    ensures
        is_installed(installed, RuntimeKind::Candle),
        kind != RuntimeKind::Candle ==> (is_installed(installed, kind) <==> installed.contains(
            kind,
        )),
{
}

} // verus!
