//! The llama.cpp runtime: `llama-bench` run as a subprocess.
use vstd::prelude::*;

use crate::bench::runtimes::delegated;
use crate::bench::runtimes::delegated::{Delegated, DelegatedView};
use crate::float::F64;
use crate::json;
use crate::text;

verus! {

broadcast use vstd::string::group_string_axioms;

/// The binary to run.
pub open spec fn binary_of(has_bench: bool, has_cli: bool) -> Seq<char> {
    if has_bench {
        "llama-bench"@
    } else if has_cli {
        "llama-cli"@
    } else {
        ""@
    }
}

/// The binary to run: `llama-bench` before `llama-cli`; none is an empty name.
pub fn detect_binary(has_bench: bool, has_cli: bool) -> (r: &'static str)
    ensures
        r@ == binary_of(has_bench, has_cli),
{
    if has_bench {
        "llama-bench"
    } else if has_cli {
        "llama-cli"
    } else {
        ""
    }
}

/// What a line of JSON output says of prompt processing.
#[derive(Clone, Copy, Debug, PartialEq, Eq, Structural)]
pub struct PromptRun {
    /// Total time for prompt processing (ms).
    pub t_pp_ms: F64,
    /// Number of tokens processed; not zero.
    pub n_pp: u64,
}

/// What a line of JSON output says.
#[derive(Clone, Copy, Debug, PartialEq, Eq, Structural)]
pub struct BenchLine {
    pub t_load_ms: Option<F64>,
    pub prompt: Option<PromptRun>,
}

/// The time of prompt processing that a line gives, as bits: under its usual name, or
/// else under its other one.
pub open spec fn prompt_time(line: Seq<char>) -> Option<u64> {
    match json::number_field(line, "t_pp_ms"@) {
        Some(bits) => Some(bits),
        None => json::number_field(line, "t_p_ms"@),
    }
}

/// What a line says, by its JSON fields.
pub open spec fn line_of(line: Seq<char>) -> BenchLine {
    BenchLine {
        t_load_ms: match json::number_field(line, "t_load_ms"@) {
            Some(bits) => Some(F64::of(bits)),
            None => None,
        },
        prompt: match (prompt_time(line), json::unsigned_field(line, "n_pp"@)) {
            (Some(bits), Some(n)) => if n > 0 {
                Some(PromptRun { t_pp_ms: F64::of(bits), n_pp: n })
            } else {
                None
            },
            _ => None,
        },
    }
}

/// The lines of an output that may hold records, as what they say.
pub open spec fn lines_said(lines: Seq<Seq<char>>) -> Seq<BenchLine>
    decreases lines.len(),
{
    if lines.len() == 0 {
        Seq::empty()
    } else {
        let before = lines_said(lines.drop_last());
        if lines.last()[0] == '{' {
            before.push(line_of(lines.last()))
        } else {
            before
        }
    }
}

/// Reads one line.
fn read_line(line: &str) -> (r: BenchLine)
    ensures
        r == line_of(line@),
{
    let t_load_ms = match json::read_number(line, "t_load_ms") {
        Some(bits) => Some(F64::of(bits)),
        None => None,
    };
    let time = match json::read_number(line, "t_pp_ms") {
        Some(bits) => Some(bits),
        None => json::read_number(line, "t_p_ms"),
    };
    let prompt = match time {
        Some(bits) => match json::read_unsigned(line, "n_pp") {
            Some(n) => if n > 0 {
                Some(PromptRun { t_pp_ms: F64::of(bits), n_pp: n })
            } else {
                None
            },
            None => None,
        },
        None => None,
    };
    BenchLine { t_load_ms, prompt }
}

/// Reads the JSONL output of `llama-bench --output jsonl`: each line that begins
/// with a brace is a JSON object, and what is none says nothing.
pub fn read_bench_output(output: &str) -> (r: Vec<BenchLine>)
    ensures
        r@ == lines_said(delegated::record_lines(output@)),
{
    let lines = delegated::driver_lines(output);
    let ghost ls = text::texts(lines@);
    let mut r: Vec<BenchLine> = Vec::new();
    let mut i: usize = 0;
    proof {
        lemma_record_lines_nonempty(output@);
        assert(ls.take(0) =~= Seq::empty());
    }
    while i < lines.len()
        invariant
            i <= lines@.len(),
            ls == text::texts(lines@),
            forall|k: int| 0 <= k < ls.len() ==> (#[trigger] ls[k]).len() > 0,
            r@ == lines_said(ls.take(i as int)),
        decreases lines.len() - i,
    {
        let line = lines[i].as_str();
        proof {
            assert(ls[i as int] == line@);
            assert(ls.take(i + 1).drop_last() =~= ls.take(i as int));
            assert(ls.take(i + 1).last() == line@);
        }
        if line.get_char(0) == '{' {
            r.push(read_line(line));
        }
        i = i + 1;
    }
    assert(ls.take(i as int) =~= ls);
    r
}

proof fn lemma_record_lines_nonempty(output: Seq<char>)
    ensures
        forall|k: int|
            0 <= k < delegated::record_lines(output).len() ==> (
            #[trigger] delegated::record_lines(output)[k]).len() > 0,
{
    let all = text::lines(output).map_values(|l: Seq<char>| text::trim(l));
    let keep = |l: Seq<char>| l.len() > 0;
    assert forall|k: int| 0 <= k < all.filter(keep).len() implies (#[trigger] all.filter(
        keep,
    )[k]).len() > 0 by {
        all.lemma_filter_pred(keep, k);
    }
}

/// What the figures of a line come to.
#[derive(Clone, Copy, Debug)]
pub struct LineFigures {
    /// The load time, in whole milliseconds.
    pub load_ms: Option<u64>,
    /// The time of one run in whole microseconds, and the throughput.
    pub run: Option<(u64, F64)>,
}

/// How many samples stand for the average that a line reports.
pub const SAMPLES_PER_LINE: usize = 100;

/// The sample that a time counts as: at least one microsecond.
pub open spec fn at_least_one(us: u64) -> u64 {
    if us == 0 {
        1
    } else {
        us
    }
}

/// The runtime after the figures of a line.
pub open spec fn after_line(v: DelegatedView, f: LineFigures) -> DelegatedView {
    let loaded = match f.load_ms {
        Some(ms) => DelegatedView { load_ms: ms, ..v },
        None => v,
    };
    match f.run {
        Some((us, rps)) => DelegatedView {
            samples_us: loaded.samples_us + Seq::new(
                SAMPLES_PER_LINE as nat,
                |i: int| at_least_one(us),
            ),
            throughput_rps: rps,
            ..loaded
        },
        None => loaded,
    }
}

/// The runtime after the figures of a run of lines.
pub open spec fn after_lines(v: DelegatedView, fs: Seq<LineFigures>) -> DelegatedView
    decreases fs.len(),
{
    if fs.len() == 0 {
        v
    } else {
        after_line(after_lines(v, fs.drop_last()), fs.last())
    }
}

/// Whether a line told of a run.
pub open spec fn tells_of_run(fs: Seq<LineFigures>) -> bool {
    exists|i: int| 0 <= i < fs.len() && (#[trigger] fs[i]).run is Some
}

/// A number of microseconds, as far as they fit.
pub open spec fn micros_of(ms: u64) -> u64 {
    if ms as nat * 1000 <= u64::MAX {
        (ms * 1000) as u64
    } else {
        u64::MAX
    }
}

/// The runtime after an output. Where no line told of a run, the total elapsed
/// time is the single sample, and its inverse the throughput.
pub open spec fn after_output(
    v: DelegatedView,
    fs: Seq<LineFigures>,
    elapsed_ms: u64,
    inverse_rps: F64,
) -> DelegatedView {
    let told = after_lines(v, fs);
    if tells_of_run(fs) {
        told
    } else {
        DelegatedView {
            samples_us: told.samples_us.push(at_least_one(micros_of(elapsed_ms))),
            throughput_rps: if elapsed_ms > 0 {
                inverse_rps
            } else {
                F64::of(0)
            },
            ..told
        }
    }
}

/// Whatever `llama-bench` printed, its runtime has samples to hand out.
pub proof fn law_output_gives_samples(
    v: DelegatedView,
    fs: Seq<LineFigures>,
    elapsed_ms: u64,
    inverse_rps: F64,
)
    ensures
        after_output(v, fs, elapsed_ms, inverse_rps).samples_us.len() > 0,
    decreases fs.len(),
{
    if tells_of_run(fs) {
        lemma_runs_give_samples(v, fs);
    }
}

proof fn lemma_runs_give_samples(v: DelegatedView, fs: Seq<LineFigures>)
    requires
        tells_of_run(fs),
    ensures
        after_lines(v, fs).samples_us.len() > 0,
    decreases fs.len(),
{
    let i = choose|i: int| 0 <= i < fs.len() && (#[trigger] fs[i]).run is Some;
    if i < fs.len() - 1 {
        assert(fs.drop_last()[i].run is Some);
        lemma_runs_give_samples(v, fs.drop_last());
    }
}

/// Takes in the figures of an output; `inverse_rps` is 1000 over the elapsed
/// milliseconds. Tells whether any line told of a run.
pub fn absorb_output(
    runtime: &mut Delegated,
    figures: &Vec<LineFigures>,
    elapsed_ms: u64,
    inverse_rps: F64,
) -> (found: bool)
    ensures
        final(runtime)@ == after_output(old(runtime)@, figures@, elapsed_ms, inverse_rps),
        found == tells_of_run(figures@),
{
    let ghost before = runtime@;
    let mut found = false;
    let mut i: usize = 0;
    assert(figures@.take(0) =~= Seq::empty());
    while i < figures.len()
        invariant
            i <= figures@.len(),
            runtime@ == after_lines(before, figures@.take(i as int)),
            found == (exists|k: int| 0 <= k < i && (#[trigger] figures@[k]).run is Some),
        decreases figures.len() - i,
    {
        assert(figures@.take(i + 1).drop_last() =~= figures@.take(i as int));
        let ghost start = runtime@;
        let f = figures[i];
        match f.load_ms {
            Some(ms) => {
                runtime.load_ms = ms;
            },
            None => {},
        }
        match f.run {
            Some((us, rps)) => {
                let sample: u64 = if us == 0 {
                    1
                } else {
                    us
                };
                let mut k: usize = 0;
                let ghost loaded = runtime@;
                while k < SAMPLES_PER_LINE
                    invariant
                        k <= SAMPLES_PER_LINE,
                        runtime@ == (DelegatedView {
                            samples_us: loaded.samples_us + Seq::new(k as nat, |i: int| sample),
                            ..loaded
                        }),
                    decreases SAMPLES_PER_LINE - k,
                {
                    runtime.latency_samples_us.push(sample);
                    assert(runtime@.samples_us =~= loaded.samples_us + Seq::new(
                        (k + 1) as nat,
                        |i: int| sample,
                    ));
                    k = k + 1;
                }
                runtime.throughput_rps = rps;
                assert(runtime@.samples_us =~= loaded.samples_us + Seq::new(
                    SAMPLES_PER_LINE as nat,
                    |i: int| at_least_one(us),
                ));
                found = true;
                assert(figures@[i as int].run is Some);
            },
            None => {},
        }
        assert(runtime@ == after_line(start, f));
        i = i + 1;
    }
    assert(figures@.take(i as int) =~= figures@);
    if !found {
        let us: u64 = match elapsed_ms.checked_mul(1000) {
            Some(us) => us,
            None => u64::MAX,
        };
        let sample: u64 = if us == 0 {
            1
        } else {
            us
        };
        runtime.latency_samples_us.push(sample);
        runtime.throughput_rps = if elapsed_ms > 0 {
            inverse_rps
        } else {
            F64::of(0)
        };
    }
    found
}

/// A line tells of a run where it gives a time, under either name, and a number of
/// tokens that is not zero; the usual name comes first.
pub proof fn law_lines_tell_of_runs(line: Seq<char>)
    ensures
        line_of(line).prompt is Some <==> (json::number_field(line, "t_pp_ms"@) is Some
            || json::number_field(line, "t_p_ms"@) is Some) && (json::unsigned_field(
            line,
            "n_pp"@,
        ) matches Some(n) && n > 0),
        line_of(line).prompt matches Some(p) ==> Some(p.n_pp) == json::unsigned_field(line, "n_pp"@)
            && (json::number_field(line, "t_pp_ms"@) matches Some(b) ==> p.t_pp_ms.bits == b) && (
        json::number_field(line, "t_pp_ms"@) is None ==> Some(p.t_pp_ms.bits) == json::number_field(
            line,
            "t_p_ms"@,
        )),
        (match line_of(line).t_load_ms {
            Some(t) => Some(t.bits),
            None => None,
        }) == json::number_field(line, "t_load_ms"@),
{
}

/// A run adds a hundred samples of its time, at least one microsecond each, and sets the
/// throughput; a load time replaces the earlier one.
pub proof fn law_runs_add_a_hundred_samples(v: DelegatedView, f: LineFigures)
    ensures
        after_line(v, f).model_path == v.model_path,
        f.load_ms matches Some(ms) ==> after_line(v, f).load_ms == ms,
        f.load_ms is None ==> after_line(v, f).load_ms == v.load_ms,
        f.run is None ==> after_line(v, f).samples_us == v.samples_us && after_line(
            v,
            f,
        ).throughput_rps == v.throughput_rps,
        f.run matches Some((us, rps)) ==> after_line(v, f).throughput_rps == rps && after_line(
            v,
            f,
        ).samples_us.len() == v.samples_us.len() + 100 && after_line(v, f).samples_us.take(
            v.samples_us.len() as int,
        ) == v.samples_us && forall|i: int|
            v.samples_us.len() <= i < v.samples_us.len() + 100 ==> #[trigger] after_line(
                v,
                f,
            ).samples_us[i] == if us == 0 {
                1
            } else {
                us
            },
{
    if f.run is Some {
        assert(after_line(v, f).samples_us.take(v.samples_us.len() as int) =~= v.samples_us);
    }
}

/// An output that tells of no run leaves one sample, the elapsed time; any other leaves
/// the samples of its runs alone.
pub proof fn law_elapsed_time_stands_in(
    v: DelegatedView,
    fs: Seq<LineFigures>,
    elapsed_ms: u64,
    inverse_rps: F64,
)
    requires
        elapsed_ms as nat * 1000 <= u64::MAX,
        elapsed_ms > 0,
    ensures
        (forall|i: int| 0 <= i < fs.len() ==> (#[trigger] fs[i]).run is None) ==> after_output(
            v,
            fs,
            elapsed_ms,
            inverse_rps,
        ).samples_us == v.samples_us.push((elapsed_ms * 1000) as u64) && after_output(
            v,
            fs,
            elapsed_ms,
            inverse_rps,
        ).throughput_rps == inverse_rps,
        (exists|i: int| 0 <= i < fs.len() && (#[trigger] fs[i]).run is Some) ==> after_output(
            v,
            fs,
            elapsed_ms,
            inverse_rps,
        ) == after_lines(v, fs),
    decreases fs.len(),
{
    if forall|i: int| 0 <= i < fs.len() ==> (#[trigger] fs[i]).run is None {
        lemma_no_runs_no_samples(v, fs);
    }
}

proof fn lemma_no_runs_no_samples(v: DelegatedView, fs: Seq<LineFigures>)
    requires
        forall|i: int| 0 <= i < fs.len() ==> (#[trigger] fs[i]).run is None,
    ensures
        after_lines(v, fs).samples_us == v.samples_us,
    decreases fs.len(),
{
    if fs.len() > 0 {
        assert(fs[fs.len() - 1].run is None);
        lemma_no_runs_no_samples(v, fs.drop_last());
    }
}

/// The benchmark tool is run wherever it is there, the plain one only without it, and
/// nothing where neither is.
pub proof fn law_the_benchmark_tool_comes_first(has_bench: bool, has_cli: bool)
    ensures
        binary_of(has_bench, has_cli) == "llama-bench"@ <==> has_bench,
        binary_of(has_bench, has_cli) == "llama-cli"@ <==> !has_bench && has_cli,
        binary_of(has_bench, has_cli).len() == 0 <==> !has_bench && !has_cli,
{
    reveal_strlit("llama-bench");
    reveal_strlit("llama-cli");
    reveal_strlit("");
    assert("llama-bench"@.len() == 11 && "llama-cli"@.len() == 9 && ""@.len() == 0);
}

} // verus!
