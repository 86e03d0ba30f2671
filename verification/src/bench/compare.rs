//! Comparison of two benchmark reports.
use vstd::prelude::*;

use crate::bench;
use crate::bench::{BenchReport, BenchResult};
use crate::text;
use crate::time;

verus! {

broadcast use vstd::string::group_string_axioms;

/// How a p99 latency moved against a baseline.
#[derive(Clone, Copy, Debug, PartialEq, Eq, Structural)]
pub enum Movement {
    /// It rose by more than 5%.
    Regression,
    /// It fell by more than 5%.
    Improvement,
    /// It stayed within 5%, or there is no baseline to speak of.
    Unchanged,
}

/// The movement from one latency to another.
pub open spec fn movement(base_us: nat, current_us: nat) -> Movement {
    if base_us > 0 && 100 * current_us > 105 * base_us {
        Movement::Regression
    } else if base_us > 0 && 100 * current_us < 95 * base_us {
        Movement::Improvement
    } else {
        Movement::Unchanged
    }
}

/// How a p99 latency moved against a baseline.
pub fn p99_movement(base_us: u64, current_us: u64) -> (r: Movement)
    ensures
        r == movement(base_us as nat, current_us as nat),
{
    let base: u128 = base_us as u128;
    let current: u128 = current_us as u128;
    if base > 0 && 100 * current > 105 * base {
        Movement::Regression
    } else if base > 0 && 100 * current < 95 * base {
        Movement::Improvement
    } else {
        Movement::Unchanged
    }
}

/// A latency that rose is never an improvement, and one that fell never a
/// regression.
pub proof fn law_movement_has_the_right_sign(base_us: nat, current_us: nat)
    ensures
        current_us >= base_us ==> movement(base_us, current_us) != Movement::Improvement,
        current_us <= base_us ==> movement(base_us, current_us) != Movement::Regression,
{
}

/// What is said of a change in percent, such as "+12.3% (regression)".
pub open spec fn delta_text(base_us: u64, current_us: u64, pct: Seq<char>) -> Seq<char> {
    if base_us == 0 {
        "n/a"@
    } else {
        match movement(base_us as nat, current_us as nat) {
            Movement::Regression => pct + "% (regression)"@,
            Movement::Improvement => pct + "% (improved)"@,
            Movement::Unchanged => pct + "% (unchanged)"@,
        }
    }
}

/// A formatted delta like "+12.3% (regression)" or "-5.1% (improved)"; `pct` is the
/// change in percent, signed, to one decimal.
pub fn format_latency_delta(base: &BenchResult, current: &BenchResult, pct: &str) -> (r: String)
    ensures
        r@ == delta_text(base.stats.p99_us, current.stats.p99_us, pct@),
{
    if base.stats.p99_us == 0 {
        return "n/a".to_owned();
    }
    let mut s = pct.to_owned();
    match p99_movement(base.stats.p99_us, current.stats.p99_us) {
        Movement::Regression => s.append("% (regression)"),
        Movement::Improvement => s.append("% (improved)"),
        Movement::Unchanged => s.append("% (unchanged)"),
    }
    s
}

/// The differences of a result to its baseline, each signed and formatted.
#[derive(Debug)]
pub struct DeltaCells {
    /// Milliseconds to one decimal.
    pub p50: String,
    /// Milliseconds to one decimal.
    pub p99: String,
    /// Requests per second to one decimal.
    pub throughput: String,
    /// Mebibytes without decimals.
    pub memory: String,
}

/// Whether two results are of the same runtime and batch size.
pub open spec fn same_configuration(a: bench::ResultView, b: bench::ResultView) -> bool {
    a.runtime == b.runtime && a.batch_size == b.batch_size
}

/// The index of the first result of a configuration; the length where there is
/// none.
pub open spec fn first_of(results: Seq<bench::ResultView>, key: bench::ResultView) -> int
    decreases results.len(),
{
    if results.len() == 0 || same_configuration(results[0], key) {
        0
    } else {
        1 + first_of(results.drop_first(), key)
    }
}

/// The index of the first result of the configuration of `key`.
pub fn find_configuration(results: &Vec<BenchResult>, key: &BenchResult) -> (r: Option<usize>)
    ensures
        match r {
            Some(i) => i == first_of(bench::results_view(results@), key@) && i < results@.len()
                && same_configuration(results@[i as int]@, key@),
            None => first_of(bench::results_view(results@), key@) == results@.len(),
        },
{
    let ghost all = bench::results_view(results@);
    let mut i: usize = 0;
    assert(all.skip(0) =~= all);
    while i < results.len()
        invariant
            i <= results@.len(),
            all == bench::results_view(results@),
            first_of(all, key@) == i + first_of(all.skip(i as int), key@),
        decreases results.len() - i,
    {
        assert(all.skip(i as int)[0] == results@[i as int]@);
        assert(all.skip(i as int).drop_first() =~= all.skip(i + 1));
        if results[i].runtime == key.runtime && results[i].batch_size == key.batch_size {
            return Some(i);
        }
        i = i + 1;
    }
    None
}

/// The number of bytes of the table header; four of its characters take two.
pub const HEADER_BYTES: usize = 89;

/// The name of a row.
pub open spec fn row_label(r: bench::ResultView) -> Seq<char> {
    r.runtime + " ("@ + text::decimal(r.batch_size as nat) + ")"@
}

/// The word for a movement.
pub open spec fn movement_word(m: Movement) -> Seq<char> {
    match m {
        Movement::Regression => "REGRESSION"@,
        Movement::Improvement => "improvement"@,
        Movement::Unchanged => "unchanged"@,
    }
}

/// A row that has no counterpart.
pub open spec fn lone_row(r: bench::ResultView, word: Seq<char>) -> Seq<char> {
    text::left(row_label(r), 20) + " "@ + text::right(word, 6)
}

/// A row with a counterpart.
pub open spec fn delta_row(
    base: bench::ResultView,
    current: bench::ResultView,
    cells: DeltaCells,
) -> Seq<char> {
    text::left(row_label(current), 20) + " "@ + text::right(Seq::empty(), 6) + "  "@ + text::right(
        cells.p50@,
        8,
    ) + "ms "@ + text::right(cells.p99@, 8) + "ms "@ + text::right(cells.throughput@, 8) + "/s  "@
        + text::right(cells.memory@, 10) + "MiB  "@ + text::right(
        movement_word(movement(base.stats.p99_us as nat, current.stats.p99_us as nat)),
        11,
    )
}

/// The row of a current result.
pub open spec fn current_row(
    baseline: Seq<bench::ResultView>,
    current: bench::ResultView,
    cells: DeltaCells,
) -> Seq<char> {
    let i = first_of(baseline, current);
    if i < baseline.len() {
        delta_row(baseline[i], current, cells)
    } else {
        lone_row(current, "NEW"@)
    }
}

/// The rows of the first `n` current results.
pub open spec fn current_rows(
    baseline: Seq<bench::ResultView>,
    current: Seq<bench::ResultView>,
    cells: Seq<DeltaCells>,
    n: nat,
) -> Seq<Seq<char>> {
    Seq::new(n, |i: int| current_row(baseline, current[i], cells[i]))
}

/// The rows of baseline results that are missing from the current ones, in order.
pub open spec fn removed_rows(
    baseline: Seq<bench::ResultView>,
    current: Seq<bench::ResultView>,
) -> Seq<Seq<char>>
    decreases baseline.len(),
{
    if baseline.len() == 0 {
        Seq::empty()
    } else {
        let before = removed_rows(baseline.drop_last(), current);
        if first_of(current, baseline.last()) < current.len() {
            before
        } else {
            before.push(lone_row(baseline.last(), "REMOVED"@))
        }
    }
}

/// The lines above the rows.
pub open spec fn comparison_head(baseline: BenchReport, current: BenchReport) -> Seq<Seq<char>> {
    seq![
        "Benchmark comparison"@,
        "  Baseline : "@ + baseline.model_path@ + " ("@ + time::utc_text(
            baseline.ran_at as int,
            time::day_pattern(),
        ) + ")"@,
        "  Current  : "@ + current.model_path@ + " ("@ + time::utc_text(
            current.ran_at as int,
            time::day_pattern(),
        ) + ")"@,
        ""@,
        text::left("Runtime (batch)"@, 20) + " "@ + text::right("Change"@, 6) + "  "@ + text::right(
            "Δ p50"@,
            9,
        ) + " "@ + text::right("Δ p99"@, 9) + " "@ + text::right("Δ tput"@, 9) + "  "@
            + text::right("Δ memory"@, 12) + "  "@ + text::right("Status"@, 11),
        text::repeated('-', HEADER_BYTES as nat),
    ]
}

/// The name of a row.
fn label(r: &BenchResult) -> (s: String)
    ensures
        s@ == row_label(r@),
{
    let mut s = r.runtime.clone();
    s.append(" (");
    s.append(text::decimal_text(r.batch_size as u64).as_str());
    s.append(")");
    s
}

/// A row that has no counterpart.
fn lone(r: &BenchResult, word: &str) -> (s: String)
    ensures
        s@ == lone_row(r@, word@),
{
    let mut s = text::pad_right(label(r).as_str(), 20);
    s.append(" ");
    s.append(text::pad_left(word, 6).as_str());
    s
}

/// A row with a counterpart.
fn delta(base: &BenchResult, current: &BenchResult, cells: &DeltaCells) -> (s: String)
    ensures
        s@ == delta_row(base@, current@, *cells),
{
    let word = match p99_movement(base.stats.p99_us, current.stats.p99_us) {
        Movement::Regression => "REGRESSION",
        Movement::Improvement => "improvement",
        Movement::Unchanged => "unchanged",
    };
    let empty = String::new();
    let mut s = text::pad_right(label(current).as_str(), 20);
    s.append(" ");
    s.append(text::pad_left(empty.as_str(), 6).as_str());
    s.append("  ");
    s.append(text::pad_left(cells.p50.as_str(), 8).as_str());
    s.append("ms ");
    s.append(text::pad_left(cells.p99.as_str(), 8).as_str());
    s.append("ms ");
    s.append(text::pad_left(cells.throughput.as_str(), 8).as_str());
    s.append("/s  ");
    s.append(text::pad_left(cells.memory.as_str(), 10).as_str());
    s.append("MiB  ");
    s.append(text::pad_left(word, 11).as_str());
    s
}

/// The lines above the rows.
fn head(baseline: &BenchReport, current: &BenchReport) -> (r: Vec<String>)
    requires
        time::is_time(baseline.ran_at),
        time::is_time(current.ran_at),
    ensures
        text::texts(r@) == comparison_head(*baseline, *current),
{
    let mut b = "  Baseline : ".to_owned();
    b.append(baseline.model_path.as_str());
    b.append(" (");
    b.append(time::day_text(baseline.ran_at).as_str());
    b.append(")");
    let mut c = "  Current  : ".to_owned();
    c.append(current.model_path.as_str());
    c.append(" (");
    c.append(time::day_text(current.ran_at).as_str());
    c.append(")");
    let mut h = text::pad_right("Runtime (batch)", 20);
    h.append(" ");
    h.append(text::pad_left("Change", 6).as_str());
    h.append("  ");
    h.append(text::pad_left("Δ p50", 9).as_str());
    h.append(" ");
    h.append(text::pad_left("Δ p99", 9).as_str());
    h.append(" ");
    h.append(text::pad_left("Δ tput", 9).as_str());
    h.append("  ");
    h.append(text::pad_left("Δ memory", 12).as_str());
    h.append("  ");
    h.append(text::pad_left("Status", 11).as_str());
    let mut r: Vec<String> = Vec::new();
    r.push("Benchmark comparison".to_owned());
    r.push(b);
    r.push(c);
    r.push("".to_owned());
    r.push(h);
    r.push(text::repeat_char('-', HEADER_BYTES));
    assert(text::texts(r@) =~= comparison_head(*baseline, *current));
    r
}

/// A side-by-side diff of two benchmark reports, line by line.
///
/// `cells` holds the formatted differences of each current result to its
/// counterpart; where it has none they are not shown.
pub fn print_comparison(
    baseline: &BenchReport,
    current: &BenchReport,
    cells: &Vec<DeltaCells>,
) -> (r: Vec<String>)
    requires
        cells@.len() == current.results@.len(),
        time::is_time(baseline.ran_at),
        time::is_time(current.ran_at),
    ensures
        text::texts(r@) == comparison_head(*baseline, *current) + current_rows(
            bench::results_view(baseline.results@),
            bench::results_view(current.results@),
            cells@,
            current.results@.len(),
        ) + removed_rows(
            bench::results_view(baseline.results@),
            bench::results_view(current.results@),
        ),
{
    broadcast use text::group_texts;

    let ghost old_results = bench::results_view(baseline.results@);
    let ghost new_results = bench::results_view(current.results@);
    let ghost top = comparison_head(*baseline, *current);
    let mut r = head(baseline, current);
    let mut i: usize = 0;
    assert(text::texts(r@) =~= top + current_rows(old_results, new_results, cells@, 0));
    while i < current.results.len()
        invariant
            cells@.len() == current.results@.len(),
            i <= current.results@.len(),
            old_results == bench::results_view(baseline.results@),
            new_results == bench::results_view(current.results@),
            text::texts(r@) == top + current_rows(old_results, new_results, cells@, i as nat),
        decreases current.results.len() - i,
    {
        broadcast use text::group_texts;

        let cur = &current.results[i];
        let ghost before = text::texts(r@);
        match find_configuration(&baseline.results, cur) {
            Some(k) => r.push(delta(&baseline.results[k], cur, &cells[i])),
            None => r.push(lone(cur, "NEW")),
        }
        assert(text::texts(r@) =~= before.push(
            current_row(old_results, new_results[i as int], cells@[i as int]),
        ));
        assert(text::texts(r@) =~= top + current_rows(
            old_results,
            new_results,
            cells@,
            (i + 1) as nat,
        ));
        i = i + 1;
    }
    let ghost rows = text::texts(r@);
    let mut j: usize = 0;
    assert(text::texts(r@) =~= rows + removed_rows(old_results.take(0), new_results));
    while j < baseline.results.len()
        invariant
            j <= baseline.results@.len(),
            old_results == bench::results_view(baseline.results@),
            new_results == bench::results_view(current.results@),
            text::texts(r@) == rows + removed_rows(old_results.take(j as int), new_results),
        decreases baseline.results.len() - j,
    {
        broadcast use text::group_texts;

        let base = &baseline.results[j];
        let ghost before = removed_rows(old_results.take(j as int), new_results);
        assert(old_results.take(j + 1).drop_last() =~= old_results.take(j as int));
        assert(old_results.take(j + 1).last() == base@);
        match find_configuration(&current.results, base) {
            Some(_) => {},
            None => {
                r.push(lone(base, "REMOVED"));
                assert(text::texts(r@) =~= rows + before.push(lone_row(base@, "REMOVED"@)));
            },
        }
        j = j + 1;
    }
    assert(old_results.take(j as int) =~= old_results);
    r
}

/// A latency regressed exactly when it rose by more than a twentieth of the baseline, and
/// improved exactly when it fell by more than one; without a baseline it did neither.
pub proof fn law_movement_is_beyond_a_twentieth(base_us: nat, current_us: nat)
    ensures
        movement(base_us, current_us) == Movement::Regression <==> base_us > 0 && 20 * (current_us
            - base_us) > base_us,
        movement(base_us, current_us) == Movement::Improvement <==> base_us > 0 && 20 * (base_us
            - current_us) > base_us,
{
}

/// Only the ratio of two latencies matters.
pub proof fn law_movement_is_scale_free(base_us: nat, current_us: nat, times: nat)
    requires
        times > 0,
    ensures
        movement(times * base_us, times * current_us) == movement(base_us, current_us),
{
    let b = base_us;
    let c = current_us;
    let k = times;
    assert(100 * (k * c) > 105 * (k * b) <==> 100 * c > 105 * b) by (nonlinear_arith)
        requires
            k > 0,
    ;
    assert(100 * (k * c) < 95 * (k * b) <==> 100 * c < 95 * b) by (nonlinear_arith)
        requires
            k > 0,
    ;
    assert(k * b > 0 <==> b > 0) by (nonlinear_arith)
        requires
            k > 0,
    ;
}

/// What is said of a change: its figure and the word for it; nothing can be said
/// without a baseline.
pub proof fn law_deltas_are_named(base_us: u64, current_us: u64, pct: Seq<char>)
    ensures
        base_us == 0 ==> delta_text(base_us, current_us, pct) == "n/a"@,
        base_us > 0 && 20 * current_us > 21 * base_us ==> delta_text(base_us, current_us, pct)
            == pct + "% (regression)"@,
        base_us > 0 && 20 * current_us < 19 * base_us ==> delta_text(base_us, current_us, pct)
            == pct + "% (improved)"@,
        base_us > 0 && 19 * base_us <= 20 * current_us <= 21 * base_us ==> delta_text(
            base_us,
            current_us,
            pct,
        ) == pct + "% (unchanged)"@,
{
}

/// The counterpart of a result is the first of the same runtime and batch size.
pub proof fn law_counterpart_is_first(results: Seq<bench::ResultView>, key: bench::ResultView)
    ensures
        0 <= first_of(results, key) <= results.len(),
        forall|j: int|
            0 <= j < first_of(results, key) ==> (#[trigger] results[j]).runtime != key.runtime
                || results[j].batch_size != key.batch_size,
        first_of(results, key) < results.len() ==> results[first_of(results, key)].runtime
            == key.runtime && results[first_of(results, key)].batch_size == key.batch_size,
    decreases results.len(),
{
    if results.len() > 0 && !same_configuration(results[0], key) {
        let rest = results.drop_first();
        law_counterpart_is_first(rest, key);
        assert forall|j: int| 0 <= j < first_of(results, key) implies (
        #[trigger] results[j]).runtime != key.runtime || results[j].batch_size
            != key.batch_size by {
            if j > 0 {
                assert(results[j] == rest[j - 1]);
            }
        }
        if first_of(results, key) < results.len() {
            assert(results[first_of(results, key)] == rest[first_of(rest, key)]);
        }
    }
}

/// A result without a counterpart is new; one with a counterpart is shown with the
/// differences and the movement of its p99 latency.
pub proof fn law_current_rows_tell_the_movement(
    baseline: Seq<bench::ResultView>,
    current: bench::ResultView,
    cells: DeltaCells,
    k: int,
)
    requires
        0 <= k < baseline.len(),
        baseline[k].runtime == current.runtime,
        baseline[k].batch_size == current.batch_size,
        forall|j: int|
            0 <= j < k ==> (#[trigger] baseline[j]).runtime != current.runtime
                || baseline[j].batch_size != current.batch_size,
    ensures
        20 * current.stats.p99_us > 21 * baseline[k].stats.p99_us && baseline[k].stats.p99_us > 0
            ==> "REGRESSION"@.is_suffix_of(current_row(baseline, current, cells)),
        20 * current.stats.p99_us < 19 * baseline[k].stats.p99_us ==> "improvement"@.is_suffix_of(
            current_row(baseline, current, cells),
        ),
        19 * baseline[k].stats.p99_us <= 20 * current.stats.p99_us <= 21
            * baseline[k].stats.p99_us ==> "unchanged"@.is_suffix_of(
            current_row(baseline, current, cells),
        ),
{
    law_counterpart_is_first(baseline, current);
    let i = first_of(baseline, current);
    if i < k {
        assert(baseline[i].runtime != current.runtime || baseline[i].batch_size
            != current.batch_size);
    }
    assert(i == k);
    let m = movement_word(movement(baseline[k].stats.p99_us as nat, current.stats.p99_us as nat));
    let row = current_row(baseline, current, cells);
    assert(m =~= row.subrange(row.len() - m.len(), row.len() as int));
}

/// A result without a counterpart ends in the word for it.
pub proof fn law_lone_rows_say_why(r: bench::ResultView, word: Seq<char>)
    ensures
        word.is_suffix_of(lone_row(r, word)),
        row_label(r).is_prefix_of(lone_row(r, word)),
{
    let row = lone_row(r, word);
    assert(word =~= row.subrange(row.len() - word.len(), row.len() as int));
    assert(row_label(r) =~= row.take(row_label(r).len() as int));
}

/// A new result is said to be new, and a missing one to be removed, once for each.
pub proof fn law_changes_of_configuration_are_told(
    baseline: Seq<bench::ResultView>,
    current: Seq<bench::ResultView>,
    cells: DeltaCells,
    r: bench::ResultView,
)
    ensures
        (forall|j: int| 0 <= j < baseline.len() ==> !same_configuration(#[trigger] baseline[j], r))
            ==> current_row(baseline, r, cells) == lone_row(r, "NEW"@),
        removed_rows(baseline, current).len() == baseline.filter(
            |b: bench::ResultView| first_of(current, b) == current.len(),
        ).len(),
        baseline.contains(r) && (forall|j: int|
            0 <= j < current.len() ==> !same_configuration(#[trigger] current[j], r))
            ==> removed_rows(baseline, current).contains(lone_row(r, "REMOVED"@)),
    decreases baseline.len(),
{
    reveal(Seq::filter);
    law_counterpart_is_first(baseline, r);
    law_counterpart_is_first(current, r);
    if baseline.len() > 0 {
        let head = baseline.drop_last();
        law_changes_of_configuration_are_told(head, current, cells, r);
        law_counterpart_is_first(current, baseline.last());
        let before = removed_rows(head, current);
        let after = removed_rows(baseline, current);
        if baseline.contains(r) && forall|j: int|
            0 <= j < current.len() ==> !same_configuration(#[trigger] current[j], r) {
            let k = choose|k: int| 0 <= k < baseline.len() && baseline[k] == r;
            let row = lone_row(r, "REMOVED"@);
            if k == baseline.len() - 1 {
                assert(after == before.push(row));
                assert(after[before.len() as int] == row);
            } else {
                assert(head[k] == r);
                let m = choose|m: int| 0 <= m < before.len() && before[m] == row;
                assert(after[m] == row);
            }
        }
    }
}

} // verus!
