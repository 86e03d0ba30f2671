//! Benchmark results as a Markdown document.
use vstd::prelude::*;

use crate::bench::{BenchReport, BenchResult, Recommendation, SkippedRuntime};
use crate::output::bench_terminal as table;
use crate::output::bench_terminal::BenchCells;
use crate::text;
use crate::time;

verus! {

broadcast use vstd::string::group_string_axioms;

/// The head of the document.
pub open spec fn head_text(report: BenchReport) -> Seq<char> {
    "# calibrate bench report\n\n**Model:** `"@ + report.model_path@
        + "`  \n**Optimising for:** "@ + report.optimize_for@ + "  \n**Ran at:** "@
        + time::utc_text(report.ran_at as int, time::minute_pattern()) + "  \n\n"@
}

/// The row of a result.
pub open spec fn row_text(
    r: crate::bench::ResultView,
    rec: Option<Recommendation>,
    cells: BenchCells,
) -> Seq<char> {
    "| "@ + (if table::is_recommended(r, rec) {
        "**"@ + r.runtime + "** ✓"@
    } else {
        r.runtime
    }) + (if r.flagged_unreliable {
        " *"@
    } else {
        ""@
    }) + " | "@ + text::decimal(r.batch_size as nat) + " | "@ + table::figure(
        r.oom,
        cells.p50@,
        "ms"@,
    ) + " | "@ + table::figure(r.oom, cells.p99@, "ms"@) + " | "@ + table::figure(
        r.oom,
        cells.throughput@,
        " req/s"@,
    ) + " | "@ + table::figure(r.oom, cells.memory@, " MiB"@) + " |\n"@
}

/// The rows of the first `n` results.
pub open spec fn rows_text(
    results: Seq<BenchResult>,
    rec: Option<Recommendation>,
    cells: Seq<BenchCells>,
    n: nat,
) -> Seq<char>
    decreases n,
{
    if n == 0 {
        Seq::empty()
    } else {
        rows_text(results, rec, cells, (n - 1) as nat) + row_text(
            results[n - 1]@,
            rec,
            cells[n - 1],
        )
    }
}

/// The table of results.
pub open spec fn results_text(report: BenchReport, cells: Seq<BenchCells>) -> Seq<char> {
    if report.results@.len() == 0 {
        ""@
    } else {
        "## Results\n\n| Runtime | Batch | p50 | p99 | Throughput | Memory |\n|---------|------:|----:|----:|-----------:|-------:|\n"@
            + rows_text(report.results@, report.recommendation, cells, report.results@.len())
            + "\n"@ + (if table::any_unreliable(report.results@) {
            "> \\* High variance detected. Stop other processes and re-run for reliable results.\n\n"@
        } else {
            ""@
        })
    }
}

/// The recommendation.
pub open spec fn recommendation_text(rec: Option<Recommendation>) -> Seq<char> {
    match rec {
        Some(p) => "## Recommendation\n\n**"@ + p.runtime@ + " at batch="@ + text::decimal(
            p.batch_size as nat,
        ) + "** — "@ + p.rationale@ + "\n\n"@,
        None => ""@,
    }
}

/// The first `n` skipped runtimes.
pub open spec fn skips_text(skipped: Seq<SkippedRuntime>, n: nat) -> Seq<char>
    decreases n,
{
    if n == 0 {
        Seq::empty()
    } else {
        skips_text(skipped, (n - 1) as nat) + ("- **"@ + skipped[n - 1].name@ + "**: "@ + skipped[n
            - 1].reason@ + "\n"@)
    }
}

/// The section on skipped runtimes.
pub open spec fn skipped_text(skipped: Seq<SkippedRuntime>) -> Seq<char> {
    if skipped.len() == 0 {
        ""@
    } else {
        "## Skipped runtimes\n\n"@ + skips_text(skipped, skipped.len()) + "\n"@
    }
}

/// The document.
pub open spec fn document_text(report: BenchReport, cells: Seq<BenchCells>) -> Seq<char> {
    head_text(report) + results_text(report, cells) + recommendation_text(report.recommendation)
        + skipped_text(report.skipped@)
}

/// The row of a result.
fn row(r: &BenchResult, rec: &Option<Recommendation>, cells: &BenchCells) -> (s: String)
    ensures
        s@ == row_text(r@, *rec, *cells),
{
    let name = if table::recommended(r, rec) {
        let mut n = "**".to_owned();
        n.append(r.runtime.as_str());
        n.append("** ✓");
        n
    } else {
        r.runtime.clone()
    };
    let mut s = "| ".to_owned();
    s.append(name.as_str());
    s.append(
        if r.flagged_unreliable {
            " *"
        } else {
            ""
        },
    );
    s.append(" | ");
    s.append(text::decimal_text(r.batch_size as u64).as_str());
    s.append(" | ");
    s.append(table::figure_text(r.oom, &cells.p50, "ms").as_str());
    s.append(" | ");
    s.append(table::figure_text(r.oom, &cells.p99, "ms").as_str());
    s.append(" | ");
    s.append(table::figure_text(r.oom, &cells.throughput, " req/s").as_str());
    s.append(" | ");
    s.append(table::figure_text(r.oom, &cells.memory, " MiB").as_str());
    s.append(" |\n");
    s
}

/// The table of results.
fn results(report: &BenchReport, cells: &Vec<BenchCells>) -> (s: String)
    requires
        cells@.len() == report.results@.len(),
    ensures
        s@ == results_text(*report, cells@),
{
    if report.results.len() == 0 {
        return "".to_owned();
    }
    let mut s =
        "## Results\n\n| Runtime | Batch | p50 | p99 | Throughput | Memory |\n|---------|------:|----:|----:|-----------:|-------:|\n".to_owned();
    let ghost head = s@;
    let mut unreliable = false;
    let mut i: usize = 0;
    assert(s@ =~= head + rows_text(report.results@, report.recommendation, cells@, 0));
    while i < report.results.len()
        invariant
            i <= report.results@.len(),
            cells@.len() == report.results@.len(),
            s@ == head + rows_text(report.results@, report.recommendation, cells@, i as nat),
            unreliable == exists|j: int|
                0 <= j < i && (#[trigger] report.results@[j]).flagged_unreliable,
        decreases report.results.len() - i,
    {
        let r = &report.results[i];
        assert(report.results@[i as int] == *r);
        let ghost before = s@;
        let line = row(r, &report.recommendation, &cells[i]);
        s.append(line.as_str());
        assert(s@ =~= head + rows_text(
            report.results@,
            report.recommendation,
            cells@,
            (i + 1) as nat,
        ));
        unreliable = unreliable || r.flagged_unreliable;
        i = i + 1;
    }
    assert(unreliable == table::any_unreliable(report.results@));
    s.append("\n");
    s.append(
        if unreliable {
            "> \\* High variance detected. Stop other processes and re-run for reliable results.\n\n"
        } else {
            ""
        },
    );
    s
}

/// The recommendation.
fn recommendation(rec: &Option<Recommendation>) -> (s: String)
    ensures
        s@ == recommendation_text(*rec),
{
    match rec {
        Some(p) => {
            let mut s = "## Recommendation\n\n**".to_owned();
            s.append(p.runtime.as_str());
            s.append(" at batch=");
            s.append(text::decimal_text(p.batch_size as u64).as_str());
            s.append("** — ");
            s.append(p.rationale.as_str());
            s.append("\n\n");
            s
        },
        None => "".to_owned(),
    }
}

/// The section on skipped runtimes.
fn skipped(list: &Vec<SkippedRuntime>) -> (s: String)
    ensures
        s@ == skipped_text(list@),
{
    if list.len() == 0 {
        return "".to_owned();
    }
    let mut s = "## Skipped runtimes\n\n".to_owned();
    let ghost head = s@;
    let mut i: usize = 0;
    assert(s@ =~= head + skips_text(list@, 0));
    while i < list.len()
        invariant
            i <= list@.len(),
            s@ == head + skips_text(list@, i as nat),
        decreases list.len() - i,
    {
        let mut line = "- **".to_owned();
        line.append(list[i].name.as_str());
        line.append("**: ");
        line.append(list[i].reason.as_str());
        line.append("\n");
        s.append(line.as_str());
        assert(s@ =~= head + skips_text(list@, (i + 1) as nat));
        i = i + 1;
    }
    s.append("\n");
    s
}

/// The benchmark report as a Markdown document; `cells` holds the figures of each
/// result.
pub fn render(report: &BenchReport, cells: &Vec<BenchCells>) -> (out: String)
    requires
        cells@.len() == report.results@.len(),
        time::is_time(report.ran_at),
    ensures
        out@ == document_text(*report, cells@),
{
    let mut out = "# calibrate bench report\n\n**Model:** `".to_owned();
    out.append(report.model_path.as_str());
    out.append("`  \n**Optimising for:** ");
    out.append(report.optimize_for.as_str());
    out.append("  \n**Ran at:** ");
    out.append(time::minute_text(report.ran_at).as_str());
    out.append("  \n\n");
    out.append(results(report, cells).as_str());
    out.append(recommendation(&report.recommendation).as_str());
    out.append(skipped(&report.skipped).as_str());
    out
}

/// A row names the runtime, in bold and ticked where it is recommended, with an asterisk
/// where it is unreliable, and then the batch size and the four figures.
pub proof fn law_rows(
    r: crate::bench::ResultView,
    rec: Option<Recommendation>,
    cells: BenchCells,
)
    ensures
        !table::is_recommended(r, rec) && !r.flagged_unreliable && !r.oom ==> row_text(r, rec, cells)
            == "| "@ + r.runtime + " | "@ + text::decimal(r.batch_size as nat) + " | "@ + cells.p50@
            + "ms | "@ + cells.p99@ + "ms | "@ + cells.throughput@ + " req/s | "@ + cells.memory@
            + " MiB |\n"@,
        !table::is_recommended(r, rec) && !r.flagged_unreliable && r.oom ==> row_text(r, rec, cells)
            == "| "@ + r.runtime + " | "@ + text::decimal(r.batch_size as nat)
            + " | OOM | OOM | OOM | OOM |\n"@,
        table::is_recommended(r, rec) ==> ("| **"@ + r.runtime + "** ✓"@).is_prefix_of(
            row_text(r, rec, cells),
        ),
        !table::is_recommended(r, rec) && r.flagged_unreliable ==> ("| "@ + r.runtime
            + " * | "@).is_prefix_of(row_text(r, rec, cells)),
        table::is_recommended(r, rec) && r.flagged_unreliable ==> ("| **"@ + r.runtime
            + "** ✓ * | "@).is_prefix_of(row_text(r, rec, cells)),
{
    reveal_strlit("");
    reveal_strlit("| ");
    reveal_strlit("**");
    reveal_strlit("| **");
    reveal_strlit("** ✓");
    reveal_strlit("** ✓ * | ");
    reveal_strlit(" *");
    reveal_strlit(" * | ");
    reveal_strlit(" | ");
    reveal_strlit("ms");
    reveal_strlit("ms | ");
    reveal_strlit(" req/s");
    reveal_strlit(" req/s | ");
    reveal_strlit(" MiB");
    reveal_strlit(" |\n");
    reveal_strlit(" MiB |\n");
    reveal_strlit("OOM");
    reveal_strlit(" | OOM | OOM | OOM | OOM |\n");
    let row = row_text(r, rec, cells);
    let batch = text::decimal(r.batch_size as nat);
    assert("| "@ + "**"@ =~= "| **"@);
    assert("ms"@ + " | "@ =~= "ms | "@);
    assert(" req/s"@ + " | "@ =~= " req/s | "@);
    assert(" MiB"@ + " |\n"@ =~= " MiB |\n"@);
    assert(" *"@ + " | "@ =~= " * | "@);
    assert("** ✓"@ + " * | "@ =~= "** ✓ * | "@);
    assert(" | "@ + "OOM"@ + " | "@ + "OOM"@ + " | "@ + "OOM"@ + " | "@ + "OOM"@ + " |\n"@
        =~= " | OOM | OOM | OOM | OOM |\n"@);
    if !table::is_recommended(r, rec) && !r.flagged_unreliable && !r.oom {
        assert(row =~= "| "@ + r.runtime + " | "@ + batch + " | "@ + cells.p50@ + ("ms"@ + " | "@)
            + cells.p99@ + ("ms"@ + " | "@) + cells.throughput@ + (" req/s"@ + " | "@)
            + cells.memory@ + (" MiB"@ + " |\n"@));
    }
    if !table::is_recommended(r, rec) && !r.flagged_unreliable && r.oom {
        assert(row =~= "| "@ + r.runtime + " | "@ + batch + (" | "@ + "OOM"@ + " | "@ + "OOM"@
            + " | "@ + "OOM"@ + " | "@ + "OOM"@ + " |\n"@));
    }
    if table::is_recommended(r, rec) {
        let p = "| **"@ + r.runtime + "** ✓"@;
        assert("| "@ + ("**"@ + r.runtime + "** ✓"@) =~= p);
        assert(p =~= row.take(p.len() as int));
        if r.flagged_unreliable {
            let q = "| **"@ + r.runtime + "** ✓ * | "@;
            assert(q =~= p + (" *"@ + " | "@));
            assert(q =~= row.take(q.len() as int));
        }
    } else if r.flagged_unreliable {
        let q = "| "@ + r.runtime + " * | "@;
        assert(q =~= "| "@ + r.runtime + (" *"@ + " | "@));
        assert(q =~= row.take(q.len() as int));
    }
}

/// The document begins with the model, the goal and the time of the run; the table, the
/// recommendation and the skipped runtimes follow, each where there is something to tell.
pub proof fn law_documents(report: BenchReport, cells: Seq<BenchCells>)
    ensures
        ("# calibrate bench report\n\n**Model:** `"@ + report.model_path@
            + "`  \n**Optimising for:** "@ + report.optimize_for@
            + "  \n**Ran at:** "@).is_prefix_of(document_text(report, cells)),
        report.results@.len() == 0 && report.recommendation is None && report.skipped@.len() == 0
            ==> document_text(report, cells) == head_text(report),
        report.results@.len() > 0 ==> text::occurs(
            document_text(report, cells),
            "| Runtime | Batch | p50 | p99 | Throughput | Memory |"@,
        ),
        report.recommendation matches Some(p) ==> text::occurs(
            document_text(report, cells),
            "## Recommendation\n\n**"@ + p.runtime@ + " at batch="@ + text::decimal(
                p.batch_size as nat,
            ) + "** — "@ + p.rationale@,
        ),
        skipped_text(report.skipped@).is_suffix_of(document_text(report, cells)),
{
    reveal_strlit("");
    let all = document_text(report, cells);
    let head = head_text(report);
    let res = results_text(report, cells);
    let rec = recommendation_text(report.recommendation);
    let skip = skipped_text(report.skipped@);
    let p = "# calibrate bench report\n\n**Model:** `"@ + report.model_path@
        + "`  \n**Optimising for:** "@ + report.optimize_for@ + "  \n**Ran at:** "@;
    assert(p =~= all.take(p.len() as int));
    assert(skip =~= all.subrange(all.len() - skip.len(), all.len() as int));
    if report.results@.len() == 0 && report.recommendation is None && report.skipped@.len() == 0 {
        assert(all =~= head);
    }
    if report.results@.len() > 0 {
        let t =
            "## Results\n\n| Runtime | Batch | p50 | p99 | Throughput | Memory |\n|---------|------:|----:|----:|-----------:|-------:|\n"@;
        let h = "| Runtime | Batch | p50 | p99 | Throughput | Memory |"@;
        reveal_strlit(
            "## Results\n\n| Runtime | Batch | p50 | p99 | Throughput | Memory |\n|---------|------:|----:|----:|-----------:|-------:|\n",
        );
        reveal_strlit("| Runtime | Batch | p50 | p99 | Throughput | Memory |");
        assert(h =~= t.subrange(12, 12int + h.len()));
        assert(t =~= all.subrange(head.len() as int, (head.len() + t.len()) as int));
        assert(all.subrange(head.len() + 12int, head.len() + 12int + h.len()) =~= h);
        assert(text::occurs_at(all, h, head.len() + 12int));
    }
    if let Some(r) = report.recommendation {
        let w = "## Recommendation\n\n**"@ + r.runtime@ + " at batch="@ + text::decimal(
            r.batch_size as nat,
        ) + "** — "@ + r.rationale@;
        let n = (head.len() + res.len()) as int;
        assert(all.subrange(n, n + w.len()) =~= w);
        assert(text::occurs_at(all, w, n));
    }
}

/// One more result adds its row at the end of the table.
pub proof fn law_rows_follow_the_results(
    results: Seq<BenchResult>,
    rec: Option<Recommendation>,
    cells: Seq<BenchCells>,
    n: nat,
)
    ensures
        rows_text(results, rec, cells, 0).len() == 0,
        rows_text(results, rec, cells, n + 1) == rows_text(results, rec, cells, n) + row_text(
            results[n as int]@,
            rec,
            cells[n as int],
        ),
{
}

/// The note on variance stands below the table exactly where some result is unreliable.
pub proof fn law_variance_is_noted(report: BenchReport, cells: Seq<BenchCells>)
    requires
        report.results@.len() > 0,
    ensures
        (exists|i: int|
            0 <= i < report.results@.len() && (#[trigger] report.results@[i]).flagged_unreliable)
            ==> "> \\* High variance detected. Stop other processes and re-run for reliable results.\n\n"@.is_suffix_of(
            results_text(report, cells),
        ),
        (forall|i: int|
            0 <= i < report.results@.len() ==> !(
            #[trigger] report.results@[i]).flagged_unreliable) ==> (rows_text(
            report.results@,
            report.recommendation,
            cells,
            report.results@.len(),
        ) + "\n"@).is_suffix_of(results_text(report, cells)),
{
    reveal_strlit("");
    let all = results_text(report, cells);
    let note =
        "> \\* High variance detected. Stop other processes and re-run for reliable results.\n\n"@;
    let rows = rows_text(
        report.results@,
        report.recommendation,
        cells,
        report.results@.len(),
    ) + "\n"@;
    if table::any_unreliable(report.results@) {
        assert(note =~= all.subrange(all.len() - note.len(), all.len() as int));
    } else {
        assert(rows =~= all.subrange(all.len() - rows.len(), all.len() as int));
    }
}

/// Every skipped runtime is told with its reason, in order.
pub proof fn law_skips_are_told(skipped: Seq<SkippedRuntime>, n: nat)
    ensures
        skips_text(skipped, 0).len() == 0,
        skips_text(skipped, n + 1) == skips_text(skipped, n) + "- **"@ + skipped[n as int].name@
            + "**: "@ + skipped[n as int].reason@ + "\n"@,
{
    let line = "- **"@ + skipped[n as int].name@ + "**: "@ + skipped[n as int].reason@ + "\n"@;
    assert(skips_text(skipped, n) + line =~= skips_text(skipped, n) + "- **"@
        + skipped[n as int].name@ + "**: "@ + skipped[n as int].reason@ + "\n"@);
}

} // verus!
