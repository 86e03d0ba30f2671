//! Benchmark results as a table.
use vstd::prelude::*;

use crate::bench;
use crate::bench::{BenchReport, BenchResult, Recommendation, SkippedRuntime};
use crate::text;

verus! {

broadcast use vstd::string::group_string_axioms;

/// The figures of a result as text.
#[derive(Debug)]
pub struct BenchCells {
    /// Milliseconds to one decimal.
    pub p50: String,
    /// Milliseconds to one decimal.
    pub p99: String,
    /// Requests per second without decimals.
    pub throughput: String,
    /// Mebibytes without decimals.
    pub memory: String,
}

/// Whether a result is the recommended configuration.
pub open spec fn is_recommended(r: bench::ResultView, rec: Option<Recommendation>) -> bool {
    match rec {
        Some(p) => p.runtime@ == r.runtime && p.batch_size == r.batch_size,
        None => false,
    }
}

/// Whether a result is the recommended configuration.
pub fn recommended(r: &BenchResult, rec: &Option<Recommendation>) -> (b: bool)
    ensures
        b == is_recommended(r@, *rec),
{
    match rec {
        Some(p) => p.runtime == r.runtime && p.batch_size == r.batch_size,
        None => false,
    }
}

/// A figure with its unit, or a note that the runtime ran out of memory.
pub open spec fn figure(oom: bool, cell: Seq<char>, unit: Seq<char>) -> Seq<char> {
    if oom {
        "OOM"@
    } else {
        cell + unit
    }
}

/// A figure with its unit, or a note that the runtime ran out of memory.
pub fn figure_text(oom: bool, cell: &String, unit: &str) -> (r: String)
    ensures
        r@ == figure(oom, cell@, unit@),
{
    if oom {
        return "OOM".to_owned();
    }
    let mut r = cell.clone();
    r.append(unit);
    r
}

/// The larger of two numbers.
pub open spec fn larger(a: nat, b: nat) -> nat {
    if a < b {
        b
    } else {
        a
    }
}

/// The width of the first column: that of the longest runtime name, at least 7.
pub open spec fn runtime_width(results: Seq<bench::ResultView>) -> nat
    decreases results.len(),
{
    if results.len() == 0 {
        7
    } else {
        larger(runtime_width(results.drop_last()), text::byte_len(results.last().runtime))
    }
}

/// The head of the table.
pub open spec fn table_head(width: nat) -> Seq<Seq<char>> {
    seq![
        ""@,
        "  "@ + text::left("Runtime"@, width) + "  "@ + text::right("Batch"@, 5) + "  "@
            + text::right("p50"@, 9) + "  "@ + text::right("p99"@, 9) + "  "@ + text::right(
            "Throughput"@,
            12,
        ) + "  "@ + text::right("Memory"@, 10),
        "  "@ + text::repeated('-', width) + "  "@ + text::repeated('-', 5) + "  "@
            + text::repeated('-', 9) + "  "@ + text::repeated('-', 9) + "  "@ + text::repeated(
            '-',
            12,
        ) + "  "@ + text::repeated('-', 10),
    ]
}

/// The row of a result: the recommended one is marked with an arrow, an unreliable
/// one with an asterisk.
pub open spec fn table_row(
    r: bench::ResultView,
    rec: Option<Recommendation>,
    cells: BenchCells,
    width: nat,
) -> Seq<char> {
    (if is_recommended(r, rec) {
        ">"@
    } else {
        " "@
    }) + (if r.flagged_unreliable {
        "*"@
    } else if r.oom {
        "!"@
    } else {
        " "@
    }) + " "@ + text::left(r.runtime, width) + "  "@ + text::right(
        text::decimal(r.batch_size as nat),
        5,
    ) + "  "@ + text::right(figure(r.oom, cells.p50@, "ms"@), 9) + "  "@ + text::right(
        figure(r.oom, cells.p99@, "ms"@),
        9,
    ) + "  "@ + text::right(figure(r.oom, cells.throughput@, " req/s"@), 12) + "  "@ + text::right(
        figure(r.oom, cells.memory@, " MiB"@),
        10,
    )
}

/// The rows of the first `n` results.
pub open spec fn table_rows(report: BenchReport, cells: Seq<BenchCells>, width: nat, n: nat) -> Seq<
    Seq<char>,
> {
    Seq::new(
        n,
        |i: int| table_row(report.results@[i]@, report.recommendation, cells[i], width),
    )
}

/// Whether some result is unreliable.
pub open spec fn any_unreliable(results: Seq<BenchResult>) -> bool {
    exists|i: int| 0 <= i < results.len() && (#[trigger] results[i]).flagged_unreliable
}

/// The footnote on unreliable results.
pub open spec fn footnote(results: Seq<BenchResult>) -> Seq<Seq<char>> {
    if any_unreliable(results) {
        seq![
            "  * High variance detected — results may be unreliable."@,
            "    Stop other processes and re-run for accurate measurements."@,
            ""@,
        ]
    } else {
        Seq::empty()
    }
}

/// The lines on the recommendation.
pub open spec fn recommendation_text(report: BenchReport) -> Seq<Seq<char>> {
    match report.recommendation {
        Some(rec) => seq![
            "Recommendation (optimising for "@ + report.optimize_for@ + "): "@ + rec.runtime@
                + " at batch="@ + text::decimal(rec.batch_size as nat),
            "  "@ + rec.rationale@,
            ""@,
        ],
        None => Seq::empty(),
    }
}

/// The rows of the first `n` skipped runtimes.
pub open spec fn skipped_rows(skipped: Seq<SkippedRuntime>, n: nat) -> Seq<Seq<char>> {
    Seq::new(n, |i: int| "  "@ + skipped[i].name@ + ": "@ + skipped[i].reason@)
}

/// The lines on skipped runtimes.
pub open spec fn skipped_text(skipped: Seq<SkippedRuntime>) -> Seq<Seq<char>> {
    if skipped.len() == 0 {
        Seq::empty()
    } else {
        seq!["Skipped runtimes:"@] + skipped_rows(skipped, skipped.len()) + seq![""@]
    }
}

/// The whole table.
pub open spec fn report_text(report: BenchReport, cells: Seq<BenchCells>) -> Seq<Seq<char>> {
    if report.results@.len() == 0 {
        seq!["No benchmark results to display."@] + skipped_text(report.skipped@)
    } else {
        let width = runtime_width(bench::results_view(report.results@));
        table_head(width) + table_rows(report, cells, width, report.results@.len()) + seq![""@]
            + footnote(report.results@) + recommendation_text(report) + skipped_text(
            report.skipped@,
        )
    }
}

/// The width of the first column.
fn width_of(results: &Vec<BenchResult>) -> (r: usize)
    ensures
        r == runtime_width(bench::results_view(results@)),
{
    let ghost all = bench::results_view(results@);
    let mut width: usize = 7;
    let mut i: usize = 0;
    while i < results.len()
        invariant
            i <= results@.len(),
            all == bench::results_view(results@),
            width == runtime_width(all.take(i as int)),
        decreases results.len() - i,
    {
        assert(all.take(i + 1).drop_last() =~= all.take(i as int));
        assert(all.take(i + 1).last() == results@[i as int]@);
        let n: usize = results[i].runtime.as_str().as_bytes().len();
        if width < n {
            width = n;
        }
        i = i + 1;
    }
    assert(all.take(i as int) =~= all);
    width
}

/// The head of the table.
fn head_lines(width: usize) -> (r: Vec<String>)
    ensures
        text::texts(r@) == table_head(width as nat),
{
    broadcast use text::group_texts;

    let mut h = "  ".to_owned();
    h.append(text::pad_right("Runtime", width).as_str());
    h.append("  ");
    h.append(text::pad_left("Batch", 5).as_str());
    h.append("  ");
    h.append(text::pad_left("p50", 9).as_str());
    h.append("  ");
    h.append(text::pad_left("p99", 9).as_str());
    h.append("  ");
    h.append(text::pad_left("Throughput", 12).as_str());
    h.append("  ");
    h.append(text::pad_left("Memory", 10).as_str());
    let mut d = "  ".to_owned();
    d.append(text::repeat_char('-', width).as_str());
    d.append("  ");
    d.append(text::repeat_char('-', 5).as_str());
    d.append("  ");
    d.append(text::repeat_char('-', 9).as_str());
    d.append("  ");
    d.append(text::repeat_char('-', 9).as_str());
    d.append("  ");
    d.append(text::repeat_char('-', 12).as_str());
    d.append("  ");
    d.append(text::repeat_char('-', 10).as_str());
    let mut r: Vec<String> = Vec::new();
    r.push("".to_owned());
    r.push(h);
    r.push(d);
    assert(text::texts(r@) =~= table_head(width as nat));
    r
}

/// The row of a result.
fn row_line(result: &BenchResult, rec: &Option<Recommendation>, cells: &BenchCells, width: usize) -> (r:
    String)
    ensures
        r@ == table_row(result@, *rec, *cells, width as nat),
{
    let mut r = if recommended(result, rec) {
        ">".to_owned()
    } else {
        " ".to_owned()
    };
    r.append(
        if result.flagged_unreliable {
            "*"
        } else if result.oom {
            "!"
        } else {
            " "
        },
    );
    r.append(" ");
    r.append(text::pad_right(result.runtime.as_str(), width).as_str());
    r.append("  ");
    let batch = text::decimal_text(result.batch_size as u64);
    r.append(text::pad_left(batch.as_str(), 5).as_str());
    r.append("  ");
    let p50 = figure_text(result.oom, &cells.p50, "ms");
    r.append(text::pad_left(p50.as_str(), 9).as_str());
    r.append("  ");
    let p99 = figure_text(result.oom, &cells.p99, "ms");
    r.append(text::pad_left(p99.as_str(), 9).as_str());
    r.append("  ");
    let throughput = figure_text(result.oom, &cells.throughput, " req/s");
    r.append(text::pad_left(throughput.as_str(), 12).as_str());
    r.append("  ");
    let memory = figure_text(result.oom, &cells.memory, " MiB");
    r.append(text::pad_left(memory.as_str(), 10).as_str());
    r
}

/// The lines on the recommendation.
fn print_recommendation(report: &BenchReport) -> (r: Vec<String>)
    ensures
        text::texts(r@) == recommendation_text(*report),
{
    broadcast use text::group_texts;

    let mut r: Vec<String> = Vec::new();
    if let Some(rec) = &report.recommendation {
        let mut s = "Recommendation (optimising for ".to_owned();
        s.append(report.optimize_for.as_str());
        s.append("): ");
        s.append(rec.runtime.as_str());
        s.append(" at batch=");
        s.append(text::decimal_text(rec.batch_size as u64).as_str());
        let mut why = "  ".to_owned();
        why.append(rec.rationale.as_str());
        r.push(s);
        r.push(why);
        r.push("".to_owned());
    }
    assert(text::texts(r@) =~= recommendation_text(*report));
    r
}

/// The lines on skipped runtimes.
fn print_skipped(skipped: &Vec<SkippedRuntime>) -> (r: Vec<String>)
    ensures
        text::texts(r@) == skipped_text(skipped@),
{
    broadcast use text::group_texts;

    let mut r: Vec<String> = Vec::new();
    if skipped.len() == 0 {
        assert(text::texts(r@) =~= skipped_text(skipped@));
        return r;
    }
    r.push("Skipped runtimes:".to_owned());
    let ghost head = seq!["Skipped runtimes:"@];
    let mut i: usize = 0;
    assert(text::texts(r@) =~= head + skipped_rows(skipped@, 0));
    while i < skipped.len()
        invariant
            i <= skipped@.len(),
            text::texts(r@) == head + skipped_rows(skipped@, i as nat),
        decreases skipped.len() - i,
    {
        broadcast use text::group_texts;

        let mut s = "  ".to_owned();
        s.append(skipped[i].name.as_str());
        s.append(": ");
        s.append(skipped[i].reason.as_str());
        r.push(s);
        assert(text::texts(r@) =~= head + skipped_rows(skipped@, (i + 1) as nat));
        i = i + 1;
    }
    r.push("".to_owned());
    assert(text::texts(r@) =~= skipped_text(skipped@));
    r
}

/// The benchmark results as a formatted table, line by line; `cells` holds the
/// figures of each result.
///
/// The recommended row is marked with an arrow. Unreliable rows are marked with an
/// asterisk and a footnote appears below the table.
pub fn render(report: &BenchReport, cells: &Vec<BenchCells>) -> (r: Vec<String>)
    requires
        cells@.len() == report.results@.len(),
    ensures
        text::texts(r@) == report_text(*report, cells@),
{
    broadcast use text::group_texts;

    if report.results.len() == 0 {
        let mut r: Vec<String> = Vec::new();
        r.push("No benchmark results to display.".to_owned());
        assert(text::texts(r@) =~= seq!["No benchmark results to display."@]);
        text::extend(&mut r, print_skipped(&report.skipped));
        return r;
    }
    let width: usize = width_of(&report.results);
    let ghost head = table_head(width as nat);
    let mut r = head_lines(width);
    let mut unreliable = false;
    let mut i: usize = 0;
    assert(text::texts(r@) =~= head + table_rows(*report, cells@, width as nat, 0));
    while i < report.results.len()
        invariant
            i <= report.results@.len(),
            cells@.len() == report.results@.len(),
            text::texts(r@) == head + table_rows(*report, cells@, width as nat, i as nat),
            unreliable == exists|j: int|
                0 <= j < i && (#[trigger] report.results@[j]).flagged_unreliable,
        decreases report.results.len() - i,
    {
        broadcast use text::group_texts;

        let result = &report.results[i];
        assert(report.results@[i as int] == *result);
        r.push(row_line(result, &report.recommendation, &cells[i], width));
        assert(text::texts(r@) =~= head + table_rows(
            *report,
            cells@,
            width as nat,
            (i + 1) as nat,
        ));
        unreliable = unreliable || result.flagged_unreliable;
        i = i + 1;
    }
    let ghost rows = text::texts(r@);
    assert(unreliable == any_unreliable(report.results@));
    r.push("".to_owned());
    if unreliable {
        r.push("  * High variance detected — results may be unreliable.".to_owned());
        r.push("    Stop other processes and re-run for accurate measurements.".to_owned());
        r.push("".to_owned());
    }
    assert(text::texts(r@) =~= rows + seq![""@] + footnote(report.results@));
    text::extend(&mut r, print_recommendation(report));
    text::extend(&mut r, print_skipped(&report.skipped));
    r
}

/// A row is marked with an arrow exactly where its configuration is recommended, and with
/// an asterisk exactly where its figures are unreliable, else with an exclamation mark where
/// the runtime ran out of memory.
pub proof fn law_rows_are_marked(
    r: bench::ResultView,
    rec: Option<Recommendation>,
    cells: BenchCells,
    width: nat,
)
    ensures
        table_row(r, rec, cells, width)[0] == (if rec is Some && rec->0.runtime@ == r.runtime
            && rec->0.batch_size == r.batch_size {
            '>'
        } else {
            ' '
        }),
        table_row(r, rec, cells, width)[1] == '*' <==> r.flagged_unreliable,
        table_row(r, rec, cells, width)[1] == '!' <==> r.oom && !r.flagged_unreliable,
        r.runtime == table_row(r, rec, cells, width).subrange(3, 3int + r.runtime.len()),
{
    let a = if is_recommended(r, rec) {
        ">"@
    } else {
        " "@
    };
    let b = if r.flagged_unreliable {
        "*"@
    } else if r.oom {
        "!"@
    } else {
        " "@
    };
    let s2 = "  "@;
    let s5 = text::right(text::decimal(r.batch_size as nat), 5);
    let p50 = text::right(figure(r.oom, cells.p50@, "ms"@), 9);
    let p99 = text::right(figure(r.oom, cells.p99@, "ms"@), 9);
    let rate = text::right(figure(r.oom, cells.throughput@, " req/s"@), 12);
    let size = text::right(figure(r.oom, cells.memory@, " MiB"@), 10);
    let head = a + b + " "@ + text::left(r.runtime, width);
    let row = table_row(r, rec, cells, width);
    assert(row == head + s2 + s5 + s2 + p50 + s2 + p99 + s2 + rate + s2 + size);
    lemma_begins(head, s2, s5, s2);
    lemma_begins(head + s2 + s5 + s2, p50, s2, p99);
    lemma_begins(head + s2 + s5 + s2 + p50 + s2 + p99, s2, rate, s2);
    lemma_begins(head + s2 + s5 + s2 + p50 + s2 + p99 + s2 + rate + s2, size, ""@, ""@);
    reveal_strlit("");
    assert(row + ""@ + ""@ =~= row);
    lemma_marked(row, head, a, b, r.runtime, width);
    reveal_strlit(">");
    reveal_strlit("*");
    reveal_strlit("!");
    reveal_strlit(" ");
}

/// What is appended to a text leaves its characters.
proof fn lemma_begins(s: Seq<char>, a: Seq<char>, b: Seq<char>, c: Seq<char>)
    ensures
        s.len() <= (s + a + b + c).len(),
        forall|i: int| 0 <= i < s.len() ==> #[trigger] (s + a + b + c)[i] == s[i],
{
}

/// A text that begins with two marks, a space and a name holds them there.
proof fn lemma_marked(
    row: Seq<char>,
    head: Seq<char>,
    a: Seq<char>,
    b: Seq<char>,
    runtime: Seq<char>,
    width: nat,
)
    requires
        a == ">"@ || a == " "@,
        b == "*"@ || b == "!"@ || b == " "@,
        head == a + b + " "@ + text::left(runtime, width),
        head.len() <= row.len(),
        forall|i: int| 0 <= i < head.len() ==> #[trigger] row[i] == head[i],
    ensures
        row[0] == a[0],
        row[1] == b[0],
        runtime == row.subrange(3, 3int + runtime.len()),
{
    reveal_strlit(">");
    reveal_strlit("*");
    reveal_strlit("!");
    reveal_strlit(" ");
    assert(row[0] == head[0]);
    assert(row[1] == head[1]);
    assert(runtime =~= row.subrange(3, 3int + runtime.len()));
}

/// Behind its marks a row holds the runtime, the batch size, the median, the 99th
/// percentile, the throughput and the memory; a runtime that ran out of memory has no
/// figures.
pub proof fn law_rows_hold_the_figures(
    r: bench::ResultView,
    rec: Option<Recommendation>,
    cells: BenchCells,
    width: nat,
)
    ensures
        !r.oom ==> table_row(r, rec, cells, width).skip(3) == text::left(r.runtime, width) + "  "@
            + text::right(text::decimal(r.batch_size as nat), 5) + "  "@ + text::right(
            cells.p50@ + "ms"@,
            9,
        ) + "  "@ + text::right(cells.p99@ + "ms"@, 9) + "  "@ + text::right(
            cells.throughput@ + " req/s"@,
            12,
        ) + "  "@ + text::right(cells.memory@ + " MiB"@, 10),
        r.oom ==> table_row(r, rec, cells, width).skip(3) == text::left(r.runtime, width) + "  "@
            + text::right(text::decimal(r.batch_size as nat), 5) + "  "@ + "      OOM"@ + "  "@
            + "      OOM"@ + "  "@ + "         OOM"@ + "  "@ + "       OOM"@,
{
    reveal_strlit(">");
    reveal_strlit("*");
    reveal_strlit("!");
    reveal_strlit(" ");
    reveal_strlit("OOM");
    reveal_strlit("      OOM");
    reveal_strlit("         OOM");
    reveal_strlit("       OOM");
    assert(text::right("OOM"@, 9) =~= "      OOM"@);
    assert(text::right("OOM"@, 12) =~= "         OOM"@);
    assert(text::right("OOM"@, 10) =~= "       OOM"@);
    let row = table_row(r, rec, cells, width);
    let rest = text::left(r.runtime, width) + "  "@ + text::right(
        text::decimal(r.batch_size as nat),
        5,
    ) + "  "@ + text::right(figure(r.oom, cells.p50@, "ms"@), 9) + "  "@ + text::right(
        figure(r.oom, cells.p99@, "ms"@),
        9,
    ) + "  "@ + text::right(figure(r.oom, cells.throughput@, " req/s"@), 12) + "  "@ + text::right(
        figure(r.oom, cells.memory@, " MiB"@),
        10,
    );
    assert(row.skip(3) =~= rest);
}

/// The first column is as wide as the longest name of a runtime, and at least seven.
pub proof fn law_columns_fit_the_names(results: Seq<bench::ResultView>, i: int)
    ensures
        runtime_width(results) >= 7,
        0 <= i < results.len() ==> runtime_width(results) >= text::byte_len(results[i].runtime),
        runtime_width(results) == 7 || exists|k: int|
            0 <= k < results.len() && text::byte_len((#[trigger] results[k]).runtime)
                == runtime_width(results),
    decreases results.len(),
{
    if results.len() > 0 {
        let h = results.drop_last();
        law_columns_fit_the_names(h, i);
        if 0 <= i < h.len() {
            assert(h[i] == results[i]);
        }
        if runtime_width(results) == runtime_width(h) {
            if runtime_width(h) != 7 {
                let k = choose|k: int|
                    0 <= k < h.len() && text::byte_len((#[trigger] h[k]).runtime) == runtime_width(
                        h,
                    );
                assert(results[k] == h[k]);
            }
        } else {
            assert(results[results.len() - 1].runtime == results.last().runtime);
        }
    }
}

/// The footnote stands exactly where some result is unreliable.
pub proof fn law_footnotes(results: Seq<BenchResult>)
    ensures
        footnote(results).len() == 3 <==> exists|i: int|
            0 <= i < results.len() && (#[trigger] results[i]).flagged_unreliable,
        footnote(results).len() == 0 <==> forall|i: int|
            0 <= i < results.len() ==> !(#[trigger] results[i]).flagged_unreliable,
{
}

/// The table shows a row for every result, in order, below its head; without results it
/// says so.
pub proof fn law_tables_show_every_result(report: BenchReport, cells: Seq<BenchCells>, i: int)
    ensures
        report.results@.len() == 0 ==> report_text(report, cells)[0]
            == "No benchmark results to display."@,
        0 <= i < report.results@.len() ==> report_text(report, cells)[3 + i] == table_row(
            report.results@[i]@,
            report.recommendation,
            cells[i],
            runtime_width(bench::results_view(report.results@)),
        ),
        skipped_text(report.skipped@).is_suffix_of(report_text(report, cells)),
{
    let all = report_text(report, cells);
    let s = skipped_text(report.skipped@);
    assert(s =~= all.subrange(all.len() - s.len(), all.len() as int));
}

/// The recommendation names the goal, the runtime and the batch size, and then the reason.
pub proof fn law_recommendations_are_told(report: BenchReport)
    ensures
        report.recommendation is None ==> recommendation_text(report).len() == 0,
        report.recommendation matches Some(rec) ==> recommendation_text(report).len() == 3
            && recommendation_text(report)[0] == "Recommendation (optimising for "@
            + report.optimize_for@ + "): "@ + rec.runtime@ + " at batch="@ + text::decimal(
            rec.batch_size as nat,
        ) && recommendation_text(report)[1] == "  "@ + rec.rationale@,
{
}

/// Every skipped runtime is told with its reason, in order.
pub proof fn law_skips_are_told(skipped: Seq<SkippedRuntime>, i: int)
    ensures
        skipped.len() == 0 ==> skipped_text(skipped).len() == 0,
        skipped.len() > 0 ==> skipped_text(skipped).len() == skipped.len() + 2
            && skipped_text(skipped)[0] == "Skipped runtimes:"@,
        0 <= i < skipped.len() ==> skipped_text(skipped)[1 + i] == "  "@ + skipped[i].name@ + ": "@
            + skipped[i].reason@,
{
}

/// The rule below the names of the columns is as long as they are; a row whose figures fit
/// takes one character more, for its second mark.
pub proof fn law_tables_are_aligned(
    r: bench::ResultView,
    rec: Option<Recommendation>,
    cells: BenchCells,
    width: nat,
)
    requires
        width >= 7,
        r.runtime.len() <= width,
        text::decimal(r.batch_size as nat).len() <= 5,
        cells.p50@.len() <= 7,
        cells.p99@.len() <= 7,
        cells.throughput@.len() <= 6,
        cells.memory@.len() <= 6,
    ensures
        table_head(width)[1].len() == width + 57,
        table_head(width)[2].len() == width + 57,
        table_row(r, rec, cells, width).len() == width + 58,
{
    reveal_strlit("  ");
    reveal_strlit(" ");
    reveal_strlit(">");
    reveal_strlit("*");
    reveal_strlit("!");
    reveal_strlit("ms");
    reveal_strlit(" req/s");
    reveal_strlit(" MiB");
    reveal_strlit("OOM");
    reveal_strlit("Runtime");
    reveal_strlit("Batch");
    reveal_strlit("p50");
    reveal_strlit("p99");
    reveal_strlit("Throughput");
    reveal_strlit("Memory");
}

} // verus!
