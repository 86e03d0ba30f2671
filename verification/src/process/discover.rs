//! Finding the process to attach to.
use vstd::prelude::*;

use crate::pattern;
use crate::text;

verus! {

broadcast use vstd::string::group_string_axioms;

/// A running process.
#[derive(Debug)]
pub struct TrainingProcess {
    pub pid: u32,
    pub command: String,
}

/// What a [`TrainingProcess`] holds.
pub ghost struct ProcessView {
    pub pid: u32,
    pub command: Seq<char>,
}

impl View for TrainingProcess {
    type V = ProcessView;

    open spec fn view(&self) -> ProcessView {
        ProcessView { pid: self.pid, command: self.command@ }
    }
}

/// What a list of processes holds.
pub open spec fn processes_view(v: Seq<TrainingProcess>) -> Seq<ProcessView> {
    v.map_values(|p: TrainingProcess| p@)
}

broadcast proof fn lemma_processes_push(v: Seq<TrainingProcess>, p: TrainingProcess)
    ensures
        #[trigger] processes_view(v.push(p)) == processes_view(v).push(p@),
{
    assert(processes_view(v.push(p)) =~= processes_view(v).push(p@));
}

/// The number of bytes of a command that are shown.
pub const COMMAND_BYTES: usize = 80;

/// How a process is shown: its PID against the right edge of six characters, and
/// the beginning of its command.
pub open spec fn shown(p: ProcessView) -> Seq<char> {
    "PID "@ + text::right(text::decimal(p.pid as nat), 6) + "  "@ + text::truncated(
        p.command,
        COMMAND_BYTES as nat,
    )
}

/// Whether the commands of all processes can be cut to be shown.
pub open spec fn are_showable(v: Seq<ProcessView>) -> bool {
    forall|i: int|
        0 <= i < v.len() ==> text::is_cuttable((#[trigger] v[i]).command, COMMAND_BYTES as nat)
}

impl TrainingProcess {
    /// How the process is shown.
    pub fn text(&self) -> (r: String)
        requires
            text::is_cuttable(self.command@, COMMAND_BYTES as nat),
        ensures
            r@ == shown(self@),
    {
        let mut s = "PID ".to_owned();
        let pid = text::decimal_text(self.pid as u64);
        s.append(text::pad_left(pid.as_str(), 6).as_str());
        s.append("  ");
        s.append(text::truncate(self.command.as_str(), COMMAND_BYTES).as_str());
        s
    }

    /// A copy of the process.
    pub fn copy(&self) -> (r: Self)
        ensures
            r@ == self@,
    {
        TrainingProcess { pid: self.pid, command: self.command.clone() }
    }
}

/// The words that mark a training script.
pub open spec fn training_words() -> Seq<Seq<char>> {
    seq!["train"@, "finetune"@, "fine_tune"@, "pretrain"@]
}

/// The names of training frameworks.
pub open spec fn framework_words() -> Seq<Seq<char>> {
    seq!["torch"@, "tensorflow"@, "jax"@, "keras"@, "lightning"@]
}

/// Whether a command looks like a Python-based training job, whatever its case: it
/// names Python, and a training script or a framework.
pub open spec fn is_training(command: Seq<char>) -> bool {
    let lower = text::lowercase(command);
    text::occurs(lower, "python"@) && (text::occurs_any(lower, training_words())
        || text::occurs_any(lower, framework_words()))
}

/// Whether a text holds one of the training words.
fn has_training_word(lower: &str) -> (r: bool)
    ensures
        r == text::occurs_any(lower@, training_words()),
{
    let ghost ws = training_words();
    let a = text::contains(lower, "train");
    let b = text::contains(lower, "finetune");
    let c = text::contains(lower, "fine_tune");
    let d = text::contains(lower, "pretrain");
    assert(a == text::occurs(lower@, ws[0]));
    assert(b == text::occurs(lower@, ws[1]));
    assert(c == text::occurs(lower@, ws[2]));
    assert(d == text::occurs(lower@, ws[3]));
    a || b || c || d
}

/// Whether a text holds the name of a framework.
fn has_framework(lower: &str) -> (r: bool)
    ensures
        r == text::occurs_any(lower@, framework_words()),
{
    let ghost ws = framework_words();
    let a = text::contains(lower, "torch");
    let b = text::contains(lower, "tensorflow");
    let c = text::contains(lower, "jax");
    let d = text::contains(lower, "keras");
    let e = text::contains(lower, "lightning");
    assert(a == text::occurs(lower@, ws[0]));
    assert(b == text::occurs(lower@, ws[1]));
    assert(c == text::occurs(lower@, ws[2]));
    assert(d == text::occurs(lower@, ws[3]));
    assert(e == text::occurs(lower@, ws[4]));
    a || b || c || d || e
}

/// Returns true if `cmd` looks like a Python-based training job.
pub fn is_training_cmd(cmd: &str) -> (r: bool)
    ensures
        r == is_training(cmd@),
{
    let lower = text::lower(cmd);
    let l = lower.as_str();
    text::contains(l, "python") && (has_training_word(l) || has_framework(l))
}

/// The processes whose command matches a pattern.
pub open spec fn matching(processes: Seq<ProcessView>, pattern: Seq<char>) -> Seq<ProcessView> {
    processes.filter(|p: ProcessView| pattern::pattern_matches(pattern, p.command))
}

/// The processes that look like training jobs.
pub open spec fn training(processes: Seq<ProcessView>) -> Seq<ProcessView> {
    processes.filter(|p: ProcessView| is_training(p.command))
}

/// The processes whose command matches a pattern.
fn select_matching(processes: &Vec<TrainingProcess>, pattern: &str) -> (r: Vec<TrainingProcess>)
    requires
        pattern::pattern_fault(pattern@) is None,
    ensures
        processes_view(r@) == matching(processes_view(processes@), pattern@),
{
    broadcast use lemma_processes_push;

    let ghost all = processes_view(processes@);
    let ghost keep = |p: ProcessView| pattern::pattern_matches(pattern@, p.command);
    let mut r: Vec<TrainingProcess> = Vec::new();
    let mut i: usize = 0;
    proof {
        reveal(Seq::filter);
        assert(all.take(0) =~= Seq::empty());
        assert(processes_view(r@) =~= Seq::empty());
    }
    while i < processes.len()
        invariant
            pattern::pattern_fault(pattern@) is None,
            i <= processes@.len(),
            all == processes_view(processes@),
            keep == (|p: ProcessView| pattern::pattern_matches(pattern@, p.command)),
            processes_view(r@) == all.take(i as int).filter(keep),
        decreases processes.len() - i,
    {
        broadcast use lemma_processes_push;

        proof {
            reveal(Seq::filter);
            assert(all.take(i + 1).drop_last() =~= all.take(i as int));
            assert(all.take(i + 1).last() == processes@[i as int]@);
        }
        if pattern::is_match(pattern, processes[i].command.as_str()) {
            r.push(processes[i].copy());
        }
        i = i + 1;
    }
    assert(all.take(i as int) =~= all);
    r
}

/// The processes that look like training jobs.
pub(crate) fn select_training(processes: &Vec<TrainingProcess>) -> (r: Vec<TrainingProcess>)
    ensures
        processes_view(r@) == training(processes_view(processes@)),
{
    broadcast use lemma_processes_push;

    let ghost all = processes_view(processes@);
    let ghost keep = |p: ProcessView| is_training(p.command);
    let mut r: Vec<TrainingProcess> = Vec::new();
    let mut i: usize = 0;
    proof {
        reveal(Seq::filter);
        assert(all.take(0) =~= Seq::empty());
        assert(processes_view(r@) =~= Seq::empty());
    }
    while i < processes.len()
        invariant
            i <= processes@.len(),
            all == processes_view(processes@),
            keep == (|p: ProcessView| is_training(p.command)),
            processes_view(r@) == all.take(i as int).filter(keep),
        decreases processes.len() - i,
    {
        broadcast use lemma_processes_push;

        proof {
            reveal(Seq::filter);
            assert(all.take(i + 1).drop_last() =~= all.take(i as int));
            assert(all.take(i + 1).last() == processes@[i as int]@);
        }
        if is_training_cmd(processes[i].command.as_str()) {
            r.push(processes[i].copy());
        }
        i = i + 1;
    }
    assert(all.take(i as int) =~= all);
    r
}

/// What the search for a process comes to.
#[derive(Debug)]
pub enum Resolution {
    /// The process.
    Pid(u32),
    /// The one training process there is, and what to say of it.
    Detected { pid: u32, note: String },
    /// The user is to choose between processes.
    Ask { candidates: Vec<TrainingProcess>, menu: Vec<String>, prompt: String },
}

/// What a [`Resolution`] says.
pub ghost enum ResolutionView {
    Pid(u32),
    Detected { pid: u32, note: Seq<char> },
    Ask { candidates: Seq<ProcessView>, menu: Seq<Seq<char>>, prompt: Seq<char> },
}

impl View for Resolution {
    type V = ResolutionView;

    open spec fn view(&self) -> ResolutionView {
        match *self {
            Resolution::Pid(p) => ResolutionView::Pid(p),
            Resolution::Detected { pid, note } => ResolutionView::Detected { pid, note: note@ },
            Resolution::Ask { candidates, menu, prompt } => ResolutionView::Ask {
                candidates: processes_view(candidates@),
                menu: text::texts(menu@),
                prompt: prompt@,
            },
        }
    }
}

/// What a search, or the message of its failure, says.
pub open spec fn outcome(r: Result<Resolution, String>) -> Result<ResolutionView, Seq<char>> {
    match r {
        Ok(v) => Ok(v@),
        Err(e) => Err(e@),
    }
}

/// Processes as an indented list.
pub open spec fn process_list(processes: Seq<ProcessView>) -> Seq<Seq<char>> {
    processes.map_values(|p: ProcessView| "  "@ + shown(p))
}

/// What a search by pattern comes to: the one process that matches, or an error.
pub open spec fn by_pattern(processes: Seq<ProcessView>, pattern: Seq<char>) -> Result<
    ResolutionView,
    Seq<char>,
> {
    match pattern::pattern_fault(pattern) {
        Some(fault) => Err(
            "invalid regex '"@ + pattern + "': "@ + fault
                + "\n\nExamples of valid patterns:\n--process-name \"train\\.py\"\n--process-name \"torch|lightning\"\n--process-name \"minerva\""@,
        ),
        None => {
            let found = matching(processes, pattern);
            if found.len() == 0 {
                Err(
                    "no running process matches the pattern '"@ + pattern
                        + "'.\n\nCheck currently visible processes with:\nps aux | grep python\nOr use --auto to scan for training jobs automatically."@,
                )
            } else if found.len() == 1 {
                Ok(ResolutionView::Pid(found[0].pid))
            } else {
                Err(
                    text::decimal(found.len()) + " processes match '"@ + pattern
                        + "' — be more specific:\n\n"@ + text::joined(process_list(found), "\n"@)
                        + "\n\nUse --pid <N> to attach to a specific one, or refine your pattern.\nExample: --process-name \"train\\.py --data\""@,
                )
            }
        },
    }
}

/// A line of the menu of processes.
pub open spec fn menu_line(i: nat, p: ProcessView) -> Seq<char> {
    "  ["@ + text::right(text::decimal(i + 1), 2) + "]  "@ + shown(p)
}

/// The menu of processes.
pub open spec fn menu_of(found: Seq<ProcessView>) -> Seq<Seq<char>> {
    Seq::new(found.len(), |i: int| menu_line(i as nat, found[i]))
}

/// What an automatic search comes to: the one training process there is, a choice
/// between several, or an error.
pub open spec fn by_heuristic(processes: Seq<ProcessView>) -> Result<ResolutionView, Seq<char>> {
    let found = training(processes);
    if found.len() == 0 {
        Err(
            "no active training processes detected.\n\ncalibrate looks for Python processes that use torch, tensorflow,\njax, keras, or lightning, or whose command line contains 'train',\n'finetune', or 'pretrain'.\n\nIf your process is running, try:\ncalibrate watch --process-name \"<script_name>\"\ncalibrate watch --pid $(pgrep -f train.py)"@,
        )
    } else if found.len() == 1 {
        Ok(
            ResolutionView::Detected {
                pid: found[0].pid,
                note: "[calibrate] Auto-detected training process:\n  "@ + shown(found[0]),
            },
        )
    } else {
        Ok(
            ResolutionView::Ask {
                candidates: found,
                menu: menu_of(found),
                prompt: "Enter number [1-"@ + text::decimal(found.len()) + "]: "@,
            },
        )
    }
}

/// What a search comes to: the given PID is used directly; else the pattern decides;
/// else the heuristic, where it is asked for.
pub open spec fn resolution(
    pid: Option<u32>,
    pattern: Option<Seq<char>>,
    auto: bool,
    processes: Seq<ProcessView>,
) -> Result<ResolutionView, Seq<char>> {
    match (pid, pattern) {
        (Some(p), _) => Ok(ResolutionView::Pid(p)),
        (None, Some(s)) => by_pattern(processes, s),
        (None, None) => if auto {
            by_heuristic(processes)
        } else {
            Err("no target process specified — use --pid, --process-name, or --auto"@)
        },
    }
}

/// The processes as an indented list.
fn list_of(found: &Vec<TrainingProcess>) -> (r: Vec<String>)
    requires
        are_showable(processes_view(found@)),
    ensures
        text::texts(r@) == process_list(processes_view(found@)),
{
    broadcast use text::group_texts;

    let ghost all = process_list(processes_view(found@));
    let mut r: Vec<String> = Vec::new();
    let mut i: usize = 0;
    while i < found.len()
        invariant
            i <= found@.len(),
            are_showable(processes_view(found@)),
            all == process_list(processes_view(found@)),
            text::texts(r@) == all.take(i as int),
        decreases found.len() - i,
    {
        broadcast use text::group_texts;

        assert(processes_view(found@)[i as int] == found@[i as int]@);
        let mut line = "  ".to_owned();
        line.append(found[i].text().as_str());
        assert(all[i as int] == line@);
        r.push(line);
        assert(text::texts(r@) =~= all.take(i + 1));
        i = i + 1;
    }
    assert(all.take(i as int) =~= all);
    r
}

/// The menu of processes.
fn make_menu(found: &Vec<TrainingProcess>) -> (r: Vec<String>)
    requires
        are_showable(processes_view(found@)),
    ensures
        text::texts(r@) == menu_of(processes_view(found@)),
{
    broadcast use text::group_texts;

    let ghost all = menu_of(processes_view(found@));
    let mut r: Vec<String> = Vec::new();
    let mut i: usize = 0;
    while i < found.len()
        invariant
            i <= found@.len(),
            are_showable(processes_view(found@)),
            all == menu_of(processes_view(found@)),
            text::texts(r@) == all.take(i as int),
        decreases found.len() - i,
    {
        broadcast use text::group_texts;

        assert(processes_view(found@)[i as int] == found@[i as int]@);
        let mut line = "  [".to_owned();
        let number = text::decimal_text(i as u64 + 1);
        line.append(text::pad_left(number.as_str(), 2).as_str());
        line.append("]  ");
        line.append(found[i].text().as_str());
        assert(all[i as int] == line@);
        r.push(line);
        assert(text::texts(r@) =~= all.take(i + 1));
        i = i + 1;
    }
    assert(all.take(i as int) =~= all);
    r
}

/// Whether what a search by pattern shows can be shown: the processes that match,
/// where there are several.
pub open spec fn shows_matching(processes: Seq<ProcessView>, pattern: Seq<char>) -> bool {
    pattern::pattern_fault(pattern) is None && matching(processes, pattern).len() > 1
        ==> are_showable(matching(processes, pattern))
}

/// Searches by pattern.
pub fn resolve_by_pattern(processes: &Vec<TrainingProcess>, pattern: &str) -> (r: Result<
    Resolution,
    String,
>)
    requires
        shows_matching(processes_view(processes@), pattern@),
    ensures
        outcome(r) == by_pattern(processes_view(processes@), pattern@),
{
    match pattern::check_pattern(pattern) {
        Some(fault) => {
            let mut e = "invalid regex '".to_owned();
            e.append(pattern);
            e.append("': ");
            e.append(fault.as_str());
            e.append(
                "\n\nExamples of valid patterns:\n--process-name \"train\\.py\"\n--process-name \"torch|lightning\"\n--process-name \"minerva\"",
            );
            return Err(e);
        },
        None => {},
    }
    let found = select_matching(processes, pattern);
    let ghost fs = processes_view(found@);
    assert(fs.len() == found@.len());
    if found.len() == 0 {
        let mut e = "no running process matches the pattern '".to_owned();
        e.append(pattern);
        e.append(
            "'.\n\nCheck currently visible processes with:\nps aux | grep python\nOr use --auto to scan for training jobs automatically.",
        );
        return Err(e);
    }
    if found.len() == 1 {
        assert(fs[0] == found@[0]@);
        return Ok(Resolution::Pid(found[0].pid));
    }
    let list = list_of(&found);
    let mut e = text::decimal_text(found.len() as u64);
    e.append(" processes match '");
    e.append(pattern);
    e.append("' — be more specific:\n\n");
    e.append(text::join_texts(&list, "\n").as_str());
    e.append(
        "\n\nUse --pid <N> to attach to a specific one, or refine your pattern.\nExample: --process-name \"train\\.py --data\"",
    );
    Err(e)
}

/// Searches for training jobs.
pub fn resolve_auto(processes: &Vec<TrainingProcess>) -> (r: Result<Resolution, String>)
    requires
        are_showable(training(processes_view(processes@))),
    ensures
        outcome(r) == by_heuristic(processes_view(processes@)),
{
    let found = select_training(processes);
    let ghost fs = processes_view(found@);
    assert(fs.len() == found@.len());
    if found.len() == 0 {
        return Err(
            "no active training processes detected.\n\ncalibrate looks for Python processes that use torch, tensorflow,\njax, keras, or lightning, or whose command line contains 'train',\n'finetune', or 'pretrain'.\n\nIf your process is running, try:\ncalibrate watch --process-name \"<script_name>\"\ncalibrate watch --pid $(pgrep -f train.py)".to_owned(),
        );
    }
    if found.len() == 1 {
        assert(fs[0] == found@[0]@);
        let mut note = "[calibrate] Auto-detected training process:\n  ".to_owned();
        note.append(found[0].text().as_str());
        return Ok(Resolution::Detected { pid: found[0].pid, note });
    }
    let menu = make_menu(&found);
    let mut prompt = "Enter number [1-".to_owned();
    prompt.append(text::decimal_text(found.len() as u64).as_str());
    prompt.append("]: ");
    Ok(Resolution::Ask { candidates: found, menu, prompt })
}

/// What was asked for as a pattern.
pub open spec fn pattern_view(p: Option<&str>) -> Option<Seq<char>> {
    match p {
        Some(s) => Some(s@),
        None => None,
    }
}

/// Whether the commands of all processes can be cut to be shown.
pub fn can_show(processes: &Vec<TrainingProcess>) -> (r: bool)
    ensures
        r == are_showable(processes_view(processes@)),
{
    let ghost all = processes_view(processes@);
    let mut i: usize = 0;
    while i < processes.len()
        invariant
            i <= processes@.len(),
            all == processes_view(processes@),
            forall|k: int|
                0 <= k < i ==> text::is_cuttable(
                    (#[trigger] all[k]).command,
                    COMMAND_BYTES as nat,
                ),
        decreases processes.len() - i,
    {
        assert(all[i as int] == processes@[i as int]@);
        if !text::can_truncate(processes[i].command.as_str(), COMMAND_BYTES) {
            return false;
        }
        i = i + 1;
    }
    true
}

/// Whether what a search by pattern shows can be shown.
fn can_show_matching(processes: &Vec<TrainingProcess>, pattern: &str) -> (r: bool)
    ensures
        r == shows_matching(processes_view(processes@), pattern@),
{
    match pattern::check_pattern(pattern) {
        Some(_) => true,
        None => {
            let found = select_matching(processes, pattern);
            assert(processes_view(found@).len() == found@.len());
            found.len() <= 1 || can_show(&found)
        },
    }
}

/// Whether what a search shows can be shown: nothing for a PID; the processes that
/// match a pattern, where there are several; the training jobs of an automatic search.
pub open spec fn is_resolvable(
    pid: Option<u32>,
    pattern: Option<Seq<char>>,
    auto: bool,
    processes: Seq<ProcessView>,
) -> bool {
    match (pid, pattern) {
        (Some(_), _) => true,
        (None, Some(s)) => shows_matching(processes, s),
        (None, None) => auto ==> are_showable(training(processes)),
    }
}

/// Resolves a PID from the three possible entry-points.
///
/// Precedence:
///   1. a PID            → used directly
///   2. a name pattern   → regex scan; error if 0 or >1 match
///   3. automatic        → heuristic scan; a choice if >1 match
pub fn resolve_pid(
    pid: Option<u32>,
    process_name: Option<&str>,
    auto: bool,
    processes: &Vec<TrainingProcess>,
) -> (r: Result<Resolution, String>)
    requires
        is_resolvable(pid, pattern_view(process_name), auto, processes_view(processes@)),
    ensures
        outcome(r) == resolution(
            pid,
            pattern_view(process_name),
            auto,
            processes_view(processes@),
        ),
{
    match pid {
        Some(p) => {
            return Ok(Resolution::Pid(p));
        },
        None => {},
    }
    match process_name {
        Some(pattern) => {
            return resolve_by_pattern(processes, pattern);
        },
        None => {},
    }
    if auto {
        return resolve_auto(processes);
    }
    Err("no target process specified — use --pid, --process-name, or --auto".to_owned())
}

/// Resolves a PID as [`resolve_pid`] does, where what is shown can be shown; nothing
/// where the command of a process to show cannot be cut.
pub fn try_resolve_pid(
    pid: Option<u32>,
    process_name: Option<&str>,
    auto: bool,
    processes: &Vec<TrainingProcess>,
) -> (r: Option<Result<Resolution, String>>)
    ensures
        r is Some <==> is_resolvable(
            pid,
            pattern_view(process_name),
            auto,
            processes_view(processes@),
        ),
        r matches Some(found) ==> outcome(found) == resolution(
            pid,
            pattern_view(process_name),
            auto,
            processes_view(processes@),
        ),
{
    let fine = match (pid, process_name) {
        (Some(_), _) => true,
        (None, Some(pattern)) => can_show_matching(processes, pattern),
        (None, None) => !auto || can_show(&select_training(processes)),
    };
    if fine {
        Some(resolve_pid(pid, process_name, auto, processes))
    } else {
        None
    }
}

/// What a choice from a menu of `n` comes to: a number from 1 to `n`.
pub open spec fn chosen(input: Seq<char>, n: nat) -> Result<nat, Seq<char>> {
    match text::parsed_within(text::trim(input), usize::MAX as nat) {
        None => Err(
            "invalid selection '"@ + text::trim(input) + "' — expected a number between 1 and "@
                + text::decimal(n),
        ),
        Some(k) => if k < 1 || k > n {
            Err(
                "selection "@ + text::decimal(k) + " is out of range (1–"@ + text::decimal(n)
                    + ")"@,
            )
        } else {
            Ok(k)
        },
    }
}

/// Takes the user's choice from a menu.
pub fn choose_candidate(candidates: &Vec<TrainingProcess>, input: &str) -> (r: Result<u32, String>)
    ensures
        match chosen(input@, candidates@.len()) {
            Ok(k) => r == Ok::<u32, String>(candidates@[k - 1].pid),
            Err(m) => r matches Err(e) && e@ == m,
        },
{
    let trimmed = text::trimmed(input);
    let n: usize = candidates.len();
    match text::parse_within(trimmed.as_str(), usize::MAX as u64) {
        None => {
            let mut e = "invalid selection '".to_owned();
            e.append(trimmed.as_str());
            e.append("' — expected a number between 1 and ");
            e.append(text::decimal_text(n as u64).as_str());
            Err(e)
        },
        Some(k) => {
            if k < 1 || k > n as u64 {
                let mut e = "selection ".to_owned();
                e.append(text::decimal_text(k).as_str());
                e.append(" is out of range (1–");
                e.append(text::decimal_text(n as u64).as_str());
                e.append(")");
                return Err(e);
            }
            Ok(candidates[k as usize - 1].pid)
        },
    }
}

/// A choice that is accepted is that of a process on the menu.
pub proof fn law_choice_is_on_the_menu(input: Seq<char>, n: nat)
    ensures
        chosen(input, n) matches Ok(k) ==> 1 <= k <= n,
{
}

/// The command that a kernel command line gives: its arguments, which end at zero
/// characters, with spaces between them and without empty ones.
pub open spec fn command_of(cmdline: Seq<char>) -> Seq<char> {
    text::joined(
        text::split_on(cmdline, '\0').filter(|a: Seq<char>| a.len() > 0),
        " "@,
    )
}

/// The command that a kernel command line gives.
pub fn command_line(cmdline: &str) -> (r: String)
    ensures
        r@ == command_of(cmdline@),
{
    broadcast use text::group_texts;

    let args = text::split_text(cmdline, '\0');
    let ghost all = text::split_on(cmdline@, '\0');
    let ghost keep = |a: Seq<char>| a.len() > 0;
    let mut kept: Vec<String> = Vec::new();
    let mut i: usize = 0;
    proof {
        reveal(Seq::filter);
        assert(all.take(0) =~= Seq::empty());
        assert(text::texts(args@).len() == args@.len());
    }
    while i < args.len()
        invariant
            i <= args@.len(),
            all == text::texts(args@),
            keep == (|a: Seq<char>| a.len() > 0),
            text::texts(kept@) == all.take(i as int).filter(keep),
        decreases args.len() - i,
    {
        broadcast use text::group_texts;

        proof {
            reveal(Seq::filter);
            assert(all.take(i + 1).drop_last() =~= all.take(i as int));
            assert(all.take(i + 1).last() == args@[i as int]@);
        }
        if !args[i].as_str().is_empty() {
            kept.push(args[i].clone());
        }
        i = i + 1;
    }
    assert(all.take(i as int) =~= all);
    text::join_texts(&kept, " ")
}

/// An entry of the process directory: its name, and the command line of the process
/// where it can be read.
#[derive(Debug)]
pub struct ProcEntry {
    pub name: String,
    pub cmdline: Option<String>,
}

/// The process that an entry gives, where it gives one: its name is a PID, and its
/// command is not empty.
pub open spec fn entry_process(e: ProcEntry) -> Option<ProcessView> {
    match (text::parsed_within(e.name@, u32::MAX as nat), e.cmdline) {
        (Some(pid), Some(c)) => if command_of(c@).len() > 0 {
            Some(ProcessView { pid: pid as u32, command: command_of(c@) })
        } else {
            None
        },
        _ => None,
    }
}

/// The processes that entries give, but for this one.
pub open spec fn entry_processes(entries: Seq<ProcEntry>, own: u32) -> Seq<ProcessView>
    decreases entries.len(),
{
    if entries.len() == 0 {
        Seq::empty()
    } else {
        let before = entry_processes(entries.drop_last(), own);
        match entry_process(entries.last()) {
            Some(p) => if p.pid != own {
                before.push(p)
            } else {
                before
            },
            None => before,
        }
    }
}

/// All visible processes with their full command lines, but for this one.
pub fn all_processes(entries: &Vec<ProcEntry>, own: u32) -> (r: Vec<TrainingProcess>)
    ensures
        processes_view(r@) == entry_processes(entries@, own),
{
    broadcast use lemma_processes_push;

    let mut r: Vec<TrainingProcess> = Vec::new();
    let mut i: usize = 0;
    proof {
        assert(entries@.take(0) =~= Seq::empty());
        assert(processes_view(r@) =~= Seq::empty());
    }
    while i < entries.len()
        invariant
            i <= entries@.len(),
            processes_view(r@) == entry_processes(entries@.take(i as int), own),
        decreases entries.len() - i,
    {
        broadcast use lemma_processes_push;

        let e = &entries[i];
        proof {
            assert(entries@.take(i + 1).drop_last() =~= entries@.take(i as int));
            assert(entries@.take(i + 1).last() == e);
        }
        match text::parse_u32(e.name.as_str()) {
            Some(pid) => {
                if pid != own {
                    match &e.cmdline {
                        Some(c) => {
                            let command = command_line(c.as_str());
                            if !command.as_str().is_empty() {
                                r.push(TrainingProcess { pid, command });
                            }
                        },
                        None => {},
                    }
                }
            },
            None => {},
        }
        i = i + 1;
    }
    assert(entries@.take(i as int) =~= entries@);
    r
}

/// The process that a line of `ps -eo pid,command` gives, where it gives one: the
/// PID ends at the first space.
pub open spec fn ps_process(line: Seq<char>) -> Option<ProcessView> {
    let t = text::trim(line);
    let n = text::first_index(t, ' ');
    if n < t.len() {
        match text::parsed_within(t.take(n), u32::MAX as nat) {
            Some(pid) => Some(
                ProcessView { pid: pid as u32, command: text::trim(t.skip(n + 1)) },
            ),
            None => None,
        }
    } else {
        None
    }
}

/// The processes that lines of `ps` give, but for this one.
pub open spec fn ps_lines_processes(lines: Seq<Seq<char>>, own: u32) -> Seq<ProcessView>
    decreases lines.len(),
{
    if lines.len() == 0 {
        Seq::empty()
    } else {
        let before = ps_lines_processes(lines.drop_last(), own);
        match ps_process(lines.last()) {
            Some(p) => if p.pid != own {
                before.push(p)
            } else {
                before
            },
            None => before,
        }
    }
}

/// The lines of an output below its heading.
pub open spec fn below_heading(output: Seq<char>) -> Seq<Seq<char>> {
    let all = text::lines(output);
    if all.len() == 0 {
        all
    } else {
        all.drop_first()
    }
}

/// Reads a line of `ps`.
fn read_ps_line(line: &str) -> (r: Option<TrainingProcess>)
    ensures
        match r {
            Some(p) => ps_process(line@) == Some(p@),
            None => ps_process(line@) is None,
        },
{
    let t = text::trimmed(line);
    let cs = text::chars_of(t.as_str());
    proof {
        text::lemma_first_index(t@, ' ');
    }
    let mut n: usize = 0;
    while n < cs.len() && cs[n] != ' '
        invariant
            cs@ == t@,
            n <= cs@.len(),
            forall|k: int| 0 <= k < n ==> cs@[k] != ' ',
        decreases cs.len() - n,
    {
        n = n + 1;
    }
    proof {
        let f = text::first_index(t@, ' ');
        if f < n {
            assert(cs@[f] != ' ');
        }
        if n < f {
            assert(t@[n as int] != ' ');
        }
        assert(n == f);
    }
    if n >= cs.len() {
        return None;
    }
    let pid_text = text::text_between(&cs, 0, n);
    let rest = text::text_between(&cs, n + 1, cs.len());
    assert(pid_text@ =~= t@.take(n as int));
    assert(rest@ =~= t@.skip(n + 1));
    match text::parse_u32(pid_text.as_str()) {
        Some(pid) => Some(TrainingProcess { pid, command: text::trimmed(rest.as_str()) }),
        None => None,
    }
}

/// All processes that the output of `ps -eo pid,command` lists, but for this one.
pub fn ps_processes(output: &str, own: u32) -> (r: Vec<TrainingProcess>)
    ensures
        processes_view(r@) == ps_lines_processes(below_heading(output@), own),
{
    broadcast use lemma_processes_push;

    let lines = text::lines_of(output);
    let ghost all = text::texts(lines@);
    let ghost ls = below_heading(output@);
    let mut r: Vec<TrainingProcess> = Vec::new();
    proof {
        assert(all.len() == lines@.len());
        assert(processes_view(r@) =~= Seq::empty());
    }
    if lines.len() == 0 {
        assert(ls =~= Seq::empty());
        return r;
    }
    let mut i: usize = 1;
    assert(ls.take(0) =~= Seq::empty());
    while i < lines.len()
        invariant
            1 <= i <= lines@.len(),
            all == text::texts(lines@),
            all == text::lines(output@),
            ls == all.drop_first(),
            processes_view(r@) == ps_lines_processes(ls.take(i - 1), own),
        decreases lines.len() - i,
    {
        broadcast use lemma_processes_push;

        proof {
            assert(all[i as int] == lines@[i as int]@);
            assert(ls.take(i as int).drop_last() =~= ls.take(i - 1));
            assert(ls.take(i as int).last() == lines@[i as int]@);
        }
        match read_ps_line(lines[i].as_str()) {
            Some(p) => {
                if p.pid != own {
                    r.push(p);
                }
            },
            None => {},
        }
        i = i + 1;
    }
    assert(ls.take(lines@.len() - 1) =~= ls);
    r
}

/// A command is a training job exactly where its lower-case form holds "python" and one
/// of eight other words.
pub proof fn law_training_jobs_name_python(command: Seq<char>)
    ensures
        is_training(command) <==> text::occurs(text::lowercase(command), "python"@) && (
        text::occurs(text::lowercase(command), "train"@) || text::occurs(
            text::lowercase(command),
            "finetune"@,
        ) || text::occurs(text::lowercase(command), "fine_tune"@) || text::occurs(
            text::lowercase(command),
            "torch"@,
        ) || text::occurs(text::lowercase(command), "tensorflow"@) || text::occurs(
            text::lowercase(command),
            "jax"@,
        ) || text::occurs(text::lowercase(command), "keras"@) || text::occurs(
            text::lowercase(command),
            "lightning"@,
        )),
{
    let lower = text::lowercase(command);
    let t = training_words();
    let f = framework_words();
    reveal_strlit("train");
    reveal_strlit("pretrain");
    if text::occurs(lower, "pretrain"@) {
        let i = choose|i: int| text::occurs_at(lower, "pretrain"@, i);
        assert("train"@ =~= "pretrain"@.subrange(3, 8));
        assert(lower.subrange(i + 3, i + 8) =~= lower.subrange(i, i + 8).subrange(3, 8));
        assert(text::occurs_at(lower, "train"@, i + 3));
    }
    if text::occurs_any(lower, t) {
        let k = choose|k: int| 0 <= k < t.len() && #[trigger] text::occurs(lower, t[k]);
        assert(k == 0 || k == 1 || k == 2 || k == 3);
    }
    if text::occurs_any(lower, f) {
        let k = choose|k: int| 0 <= k < f.len() && #[trigger] text::occurs(lower, f[k]);
        assert(k == 0 || k == 1 || k == 2 || k == 3 || k == 4);
    }
    assert(text::occurs(lower, "train"@) ==> text::occurs(lower, t[0]));
    assert(text::occurs(lower, "finetune"@) ==> text::occurs(lower, t[1]));
    assert(text::occurs(lower, "fine_tune"@) ==> text::occurs(lower, t[2]));
    assert(text::occurs(lower, "torch"@) ==> text::occurs(lower, f[0]));
    assert(text::occurs(lower, "tensorflow"@) ==> text::occurs(lower, f[1]));
    assert(text::occurs(lower, "jax"@) ==> text::occurs(lower, f[2]));
    assert(text::occurs(lower, "keras"@) ==> text::occurs(lower, f[3]));
    assert(text::occurs(lower, "lightning"@) ==> text::occurs(lower, f[4]));
}

/// A given PID is taken whatever else was asked for, a pattern before the automatic
/// search, and nothing asked for is an error.
pub proof fn law_pids_come_before_patterns(
    pid: u32,
    pattern: Option<Seq<char>>,
    auto: bool,
    processes: Seq<ProcessView>,
)
    ensures
        resolution(Some(pid), pattern, auto, processes) == Ok::<ResolutionView, Seq<char>>(
            ResolutionView::Pid(pid),
        ),
        pattern is Some ==> resolution(None, pattern, auto, processes) == by_pattern(
            processes,
            pattern->0,
        ),
        resolution(None, None, true, processes) == by_heuristic(processes),
        resolution(None, None, false, processes) is Err,
{
}

/// A pattern finds a process exactly where it is a regular expression and one process
/// alone matches it: that one.
pub proof fn law_patterns_find_one_process(processes: Seq<ProcessView>, pattern: Seq<char>, i: int)
    requires
        0 <= i < processes.len(),
    ensures
        by_pattern(processes, pattern) matches Ok(r) ==> r is Pid,
        pattern::pattern_fault(pattern) is Some ==> by_pattern(processes, pattern) is Err,
        (forall|j: int|
            0 <= j < processes.len() ==> !pattern::pattern_matches(
                pattern,
                (#[trigger] processes[j]).command,
            )) ==> by_pattern(processes, pattern) is Err,
        pattern::pattern_fault(pattern) is None && pattern::pattern_matches(
            pattern,
            processes[i].command,
        ) && (forall|j: int|
            0 <= j < processes.len() && j != i ==> !pattern::pattern_matches(
                pattern,
                (#[trigger] processes[j]).command,
            )) ==> by_pattern(processes, pattern) == Ok::<ResolutionView, Seq<char>>(
            ResolutionView::Pid(processes[i].pid),
        ),
        forall|j: int|
            0 <= j < processes.len() && j != i && pattern::pattern_matches(
                pattern,
                processes[i].command,
            ) && pattern::pattern_matches(pattern, (#[trigger] processes[j]).command)
                ==> by_pattern(processes, pattern) is Err,
{
    let keep = |p: ProcessView| pattern::pattern_matches(pattern, p.command);
    lemma_filter_none(processes, keep);
    lemma_filter_one(processes, keep, i);
    assert forall|j: int|
        0 <= j < processes.len() && j != i && pattern::pattern_matches(
            pattern,
            processes[i].command,
        ) && pattern::pattern_matches(
            pattern,
            (#[trigger] processes[j]).command,
        ) implies by_pattern(processes, pattern) is Err by {
        lemma_filter_two(processes, keep, i, j);
    }
    if forall|j: int|
        0 <= j < processes.len() ==> !pattern::pattern_matches(
            pattern,
            (#[trigger] processes[j]).command,
        ) {
        assert forall|j: int| 0 <= j < processes.len() implies !keep(#[trigger] processes[j]) by {}
    }
}

proof fn lemma_filter_none(s: Seq<ProcessView>, keep: spec_fn(ProcessView) -> bool)
    ensures
        (forall|i: int| 0 <= i < s.len() ==> !keep(#[trigger] s[i])) ==> s.filter(keep).len() == 0,
    decreases s.len(),
{
    reveal(Seq::filter);
    if s.len() > 0 && (forall|i: int| 0 <= i < s.len() ==> !keep(#[trigger] s[i])) {
        let h = s.drop_last();
        assert forall|i: int| 0 <= i < h.len() implies !keep(#[trigger] h[i]) by {
            assert(h[i] == s[i]);
        }
        lemma_filter_none(h, keep);
        assert(!keep(s[s.len() - 1]));
    }
}

proof fn lemma_filter_one(s: Seq<ProcessView>, keep: spec_fn(ProcessView) -> bool, i: int)
    requires
        0 <= i < s.len(),
    ensures
        keep(s[i]) && (forall|j: int| 0 <= j < s.len() && j != i ==> !keep(#[trigger] s[j]))
            ==> s.filter(keep) == seq![s[i]],
    decreases s.len(),
{
    reveal(Seq::filter);
    if keep(s[i]) && (forall|j: int| 0 <= j < s.len() && j != i ==> !keep(#[trigger] s[j])) {
        let h = s.drop_last();
        if i == s.len() - 1 {
            assert forall|j: int| 0 <= j < h.len() implies !keep(#[trigger] h[j]) by {
                assert(h[j] == s[j]);
            }
            lemma_filter_none(h, keep);
            assert(s.filter(keep) =~= seq![s[i]]);
        } else {
            assert forall|j: int| 0 <= j < h.len() && j != i implies !keep(#[trigger] h[j]) by {
                assert(h[j] == s[j]);
            }
            lemma_filter_one(h, keep, i);
            assert(!keep(s[s.len() - 1]));
        }
    }
}

proof fn lemma_filter_two(s: Seq<ProcessView>, keep: spec_fn(ProcessView) -> bool, i: int, j: int)
    requires
        0 <= i < s.len(),
        0 <= j < s.len(),
        i != j,
        keep(s[i]),
        keep(s[j]),
    ensures
        s.filter(keep).len() >= 2,
    decreases s.len(),
{
    reveal(Seq::filter);
    let h = s.drop_last();
    if i == s.len() - 1 {
        lemma_filter_some(h, keep, j);
    } else if j == s.len() - 1 {
        lemma_filter_some(h, keep, i);
    } else {
        lemma_filter_two(h, keep, i, j);
    }
}

proof fn lemma_filter_some(s: Seq<ProcessView>, keep: spec_fn(ProcessView) -> bool, i: int)
    requires
        0 <= i < s.len(),
        keep(s[i]),
    ensures
        s.filter(keep).len() >= 1,
    decreases s.len(),
{
    reveal(Seq::filter);
    if i < s.len() - 1 {
        lemma_filter_some(s.drop_last(), keep, i);
    }
}

/// An automatic search fails exactly where no process is a training job; the only one is
/// taken, and between several the user is asked, all of them on the menu.
pub proof fn law_automatic_search_finds_the_training_jobs(
    processes: Seq<ProcessView>,
    i: int,
    j: int,
)
    requires
        0 <= i < processes.len(),
        0 <= j < processes.len(),
    ensures
        by_heuristic(processes) is Err <==> forall|k: int|
            0 <= k < processes.len() ==> !is_training((#[trigger] processes[k]).command),
        is_training(processes[i].command) && (forall|k: int|
            0 <= k < processes.len() && k != i ==> !is_training((#[trigger] processes[k]).command))
            ==> (by_heuristic(processes) matches Ok(ResolutionView::Detected { pid, .. }) && pid
            == processes[i].pid),
        i != j && is_training(processes[i].command) && is_training(processes[j].command) ==> (
        by_heuristic(processes) matches Ok(
            ResolutionView::Ask { candidates, menu, .. },
        ) && candidates.contains(processes[i]) && menu.len() == candidates.len()),
        by_heuristic(processes) matches Ok(ResolutionView::Ask { candidates, .. }) ==> forall|k: int|
            0 <= k < candidates.len() ==> is_training((#[trigger] candidates[k]).command),
{
    let keep = |p: ProcessView| is_training(p.command);
    lemma_filter_none(processes, keep);
    lemma_filter_one(processes, keep, i);
    if i != j && is_training(processes[i].command) && is_training(processes[j].command) {
        lemma_filter_two(processes, keep, i, j);
        processes.lemma_filter_contains(keep, i);
    }
    let found = training(processes);
    if forall|k: int| 0 <= k < processes.len() ==> !is_training((#[trigger] processes[k]).command) {
        assert forall|k: int| 0 <= k < processes.len() implies !keep(#[trigger] processes[k]) by {}
    } else {
        let k = choose|k: int|
            0 <= k < processes.len() && is_training((#[trigger] processes[k]).command);
        lemma_filter_some(processes, keep, k);
    }
    assert forall|k: int| 0 <= k < found.len() implies is_training(
        (#[trigger] found[k]).command,
    ) by {
        processes.lemma_filter_pred(keep, k);
    }
}

/// The menu numbers the processes from one, each line showing its process; a process is
/// shown by its PID and the beginning of its command.
pub proof fn law_menus_count_from_one(found: Seq<ProcessView>, i: int)
    requires
        0 <= i < found.len(),
        i < 9,
        vstd::utf8::is_ascii_chars(found[i].command),
    ensures
        menu_of(found).len() == found.len(),
        menu_of(found)[i] == "  [ "@ + text::decimal((i + 1) as nat) + "]  PID "@ + text::right(
            text::decimal(found[i].pid as nat),
            6,
        ) + "  "@ + (if found[i].command.len() <= 80 {
            found[i].command
        } else {
            found[i].command.take(80) + "…"@
        }),
{
    reveal_strlit("  [");
    reveal_strlit("  [ ");
    reveal_strlit("]  ");
    reveal_strlit("]  PID ");
    reveal_strlit("PID ");
    text::law_ascii_is_cut_by_characters(found[i].command, 80);
    let d = text::decimal((i + 1) as nat);
    text::law_numbers_are_written_in_decimal(0, (i + 1) as nat);
    assert(text::right(d, 2) =~= seq![' '] + d);
    assert("  ["@ + (seq![' '] + d) =~= "  [ "@ + d);
    let p = text::right(text::decimal(found[i].pid as nat), 6);
    assert("  [ "@ + d + "]  "@ + ("PID "@ + p + "  "@ + text::truncated(found[i].command, 80))
        =~= "  [ "@ + d + "]  PID "@ + p + "  "@ + text::truncated(found[i].command, 80));
}

/// A number from one to the length of the menu is a choice, with or without white space
/// around it; every other is refused.
pub proof fn law_choices_are_read(k: nat, n: nat)
    requires
        k <= usize::MAX,
    ensures
        chosen(text::decimal(k), n) is Ok <==> 1 <= k <= n,
        1 <= k <= n ==> chosen(text::decimal(k), n) == Ok::<nat, Seq<char>>(k),
        1 <= k <= n ==> chosen(text::decimal(k) + seq!['\n'], n) == Ok::<nat, Seq<char>>(k),
        chosen(Seq::empty(), n) is Err,
{
    let d = text::decimal(k);
    text::lemma_decimal_read_back(k);
    text::law_numbers_are_read(k, usize::MAX as nat, Seq::empty());
    lemma_trim_word(d, Seq::empty());
    lemma_trim_word(d, seq!['\n']);
    assert(d + Seq::<char>::empty() =~= d);
    assert(text::trim_start(Seq::<char>::empty()) =~= Seq::<char>::empty());
}

proof fn lemma_trim_word(d: Seq<char>, end: Seq<char>)
    requires
        d.len() > 0,
        forall|i: int| 0 <= i < d.len() ==> text::is_digit(#[trigger] d[i]),
        end.len() <= 1,
        forall|i: int| 0 <= i < end.len() ==> text::is_white(#[trigger] end[i]),
    ensures
        text::trim(d + end) == d,
{
    let s = d + end;
    assert(text::is_digit(d[0]));
    assert(s[0] == d[0]);
    assert(text::white_len(s) == 0);
    assert(s.skip(0) =~= s);
    assert(text::is_digit(d[d.len() - 1]));
    assert(text::trim_end(d) == d);
    if end.len() == 1 {
        assert(s.last() == end[0]);
        assert(s.drop_last() =~= d);
    } else {
        assert(s =~= d);
    }
}

/// A command line of one argument is that argument, with or without the zero behind it;
/// an argument and more are joined by a space.
pub proof fn law_arguments_are_joined_by_spaces(a: Seq<char>, rest: Seq<char>)
    requires
        a.len() > 0,
        !a.contains('\0'),
    ensures
        command_of(a) == a,
        command_of(a + seq!['\0']) == a,
        command_of(rest).len() > 0 ==> command_of(a + seq!['\0'] + rest) == a + " "@ + command_of(
            rest,
        ),
        command_of(seq!['\0'] + rest) == command_of(rest),
        command_of(Seq::empty()).len() == 0,
{
    let keep = |x: Seq<char>| x.len() > 0;
    let sep = " "@;
    lemma_split_argument(a, rest);
    lemma_split_argument(a, Seq::empty());
    lemma_split_argument(Seq::empty(), rest);
    text::lemma_first_index(a, '\0');
    assert(text::split_on(a, '\0') =~= seq![a]);
    assert(text::split_on(Seq::<char>::empty(), '\0') =~= seq![Seq::<char>::empty()]);
    lemma_filter_front(a, Seq::empty(), keep);
    assert(seq![a] + Seq::<Seq<char>>::empty() =~= seq![a]);
    reveal(Seq::filter);
    assert(Seq::<Seq<char>>::empty().filter(keep) =~= Seq::empty());
    assert(seq![a].filter(keep) =~= seq![a]);
    let none = seq![Seq::<char>::empty()];
    lemma_filter_front(Seq::empty(), Seq::empty(), keep);
    assert(none + Seq::<Seq<char>>::empty() =~= none);
    assert(none.filter(keep) =~= Seq::empty());
    lemma_filter_front(a, none, keep);
    assert(a + seq!['\0'] + Seq::<char>::empty() =~= a + seq!['\0']);
    assert((seq![a] + none).filter(keep) =~= seq![a]);
    let parts = text::split_on(rest, '\0');
    lemma_filter_front(a, parts, keep);
    lemma_filter_front(Seq::empty(), parts, keep);
    assert(Seq::<char>::empty() + seq!['\0'] + rest =~= seq!['\0'] + rest);
    if command_of(rest).len() > 0 {
        text::lemma_join_first(a, parts.filter(keep), sep);
    }
}

proof fn lemma_split_argument(a: Seq<char>, rest: Seq<char>)
    requires
        !a.contains('\0'),
    ensures
        text::split_on(a + seq!['\0'] + rest, '\0') == seq![a] + text::split_on(rest, '\0'),
{
    let all = a + seq!['\0'] + rest;
    text::lemma_first_index(all, '\0');
    let n = text::first_index(all, '\0');
    assert(all[a.len() as int] == '\0');
    if n < a.len() {
        assert(all[n] == a[n]);
    }
    assert(all.take(n) =~= a);
    assert(all.skip(n + 1) =~= rest);
}

proof fn lemma_filter_front(a: Seq<char>, rest: Seq<Seq<char>>, keep: spec_fn(Seq<char>) -> bool)
    ensures
        (seq![a] + rest).filter(keep) == (if keep(a) {
            seq![a] + rest.filter(keep)
        } else {
            rest.filter(keep)
        }),
{
    Seq::filter_distributes_over_add(seq![a], rest, keep);
    reveal(Seq::filter);
    let one = seq![a];
    assert(one.drop_last() =~= Seq::<Seq<char>>::empty());
    assert(Seq::<Seq<char>>::empty().filter(keep) =~= Seq::<Seq<char>>::empty());
    assert(one.filter(keep) =~= if keep(a) {
        one
    } else {
        Seq::empty()
    });
    assert(Seq::<Seq<char>>::empty() + rest.filter(keep) =~= rest.filter(keep));
}

/// The processes are those of the entries that are named by a PID other than this one's
/// and have a command; each is listed as it is.
pub proof fn law_other_processes_are_listed(entries: Seq<ProcEntry>, own: u32, i: int, pid: u32)
    requires
        0 <= i < entries.len(),
        entries[i].name@ == text::decimal(pid as nat),
    ensures
        pid != own && (entries[i].cmdline matches Some(c) && command_of(c@).len() > 0)
            ==> entry_processes(entries, own).contains(
            ProcessView { pid, command: command_of(entries[i].cmdline->0@) },
        ),
        forall|k: int|
            0 <= k < entry_processes(entries, own).len() ==> (#[trigger] entry_processes(
                entries,
                own,
            )[k]).pid != own && entry_processes(entries, own)[k].command.len() > 0,
        entry_processes(entries, own).len() <= entries.len(),
{
    text::law_numbers_are_read(pid as nat, u32::MAX as nat, Seq::empty());
    lemma_entry_processes(entries, own, i);
}

proof fn lemma_entry_processes(entries: Seq<ProcEntry>, own: u32, i: int)
    ensures
        0 <= i < entries.len() && (entry_process(entries[i]) matches Some(p) && p.pid != own)
            ==> entry_processes(entries, own).contains(entry_process(entries[i])->0),
        forall|k: int|
            0 <= k < entry_processes(entries, own).len() ==> (#[trigger] entry_processes(
                entries,
                own,
            )[k]).pid != own && entry_processes(entries, own)[k].command.len() > 0,
        entry_processes(entries, own).len() <= entries.len(),
    decreases entries.len(),
{
    if entries.len() > 0 {
        let h = entries.drop_last();
        lemma_entry_processes(h, own, i);
        let before = entry_processes(h, own);
        let all = entry_processes(entries, own);
        if i == entries.len() - 1 {
            if entry_process(entries[i]) is Some && entry_process(entries[i])->0.pid != own {
                assert(all[all.len() - 1] == entry_process(entries[i])->0);
            }
        } else if 0 <= i < entries.len() - 1 {
            assert(h[i] == entries[i]);
            if before.contains(entry_process(entries[i])->0) {
                let k = choose|k: int|
                    0 <= k < before.len() && before[k] == entry_process(entries[i])->0;
                assert(all[k] == before[k]);
            }
        }
    }
}

/// A line of `ps` gives the PID before its first space and the command behind it.
pub proof fn law_ps_lines_give_pid_and_command(pid: u32, command: Seq<char>)
    requires
        command.len() > 0,
        !text::is_white(command[0]),
        !text::is_white(command.last()),
    ensures
        ps_process(text::decimal(pid as nat) + seq![' '] + command) == Some(
            ProcessView { pid, command },
        ),
        ps_process(seq![' '] + (text::decimal(pid as nat) + seq![' '] + command)) == Some(
            ProcessView { pid, command },
        ),
        ps_process(text::decimal(pid as nat)) is None,
{
    let d = text::decimal(pid as nat);
    text::lemma_decimal_read_back(pid as nat);
    text::law_numbers_are_read(pid as nat, u32::MAX as nat, Seq::empty());
    assert(text::is_digit(d[0]));
    let line = d + seq![' '] + command;
    assert(line[0] == d[0]);
    assert(line.last() == command.last());
    assert(text::white_len(line) == 0);
    assert(line.skip(0) =~= line);
    assert(text::trim(line) == line);
    text::lemma_first_index(line, ' ');
    let n = text::first_index(line, ' ');
    assert(line[d.len() as int] == ' ');
    if n < d.len() {
        assert(text::is_digit(d[n]));
        assert(line[n] == d[n]);
    }
    assert(line.take(n) =~= d);
    assert(line.skip(n + 1) =~= command);
    assert(text::white_len(command) == 0);
    assert(command.skip(0) =~= command);
    assert(text::trim(command) == command);
    let spaced = seq![' '] + line;
    assert(spaced.drop_first() =~= line);
    assert(text::white_len(spaced) == 1);
    assert(spaced.skip(1) =~= line);
    lemma_trim_word(d, Seq::empty());
    assert(d + Seq::<char>::empty() =~= d);
    text::lemma_first_index(d, ' ');
    let m = text::first_index(d, ' ');
    if m < d.len() {
        assert(text::is_digit(d[m]));
    }
}

/// The heading of an output is passed over, and so is this process; every other line that
/// gives a process is listed.
pub proof fn law_ps_lists_the_others(heading: Seq<char>, output: Seq<char>, own: u32, i: int)
    requires
        heading.len() > 0,
        !heading.contains('\n'),
        heading.last() != '\r',
        0 <= i < text::lines(output).len(),
    ensures
        below_heading(heading + seq!['\n'] + output) == text::lines(output),
        (ps_process(text::lines(output)[i]) matches Some(p) && p.pid != own)
            ==> ps_lines_processes(text::lines(output), own).contains(
            ps_process(text::lines(output)[i])->0,
        ),
        forall|k: int|
            0 <= k < ps_lines_processes(text::lines(output), own).len() ==> (
            #[trigger] ps_lines_processes(text::lines(output), own)[k]).pid != own,
{
    text::law_lines(heading, output);
    let all = text::lines(heading + seq!['\n'] + output);
    assert(all.drop_first() =~= text::lines(output));
    lemma_ps_lines(text::lines(output), own, i);
}

proof fn lemma_ps_lines(lines: Seq<Seq<char>>, own: u32, i: int)
    ensures
        0 <= i < lines.len() && (ps_process(lines[i]) matches Some(p) && p.pid != own)
            ==> ps_lines_processes(lines, own).contains(ps_process(lines[i])->0),
        forall|k: int|
            0 <= k < ps_lines_processes(lines, own).len() ==> (#[trigger] ps_lines_processes(
                lines,
                own,
            )[k]).pid != own,
    decreases lines.len(),
{
    if lines.len() > 0 {
        let h = lines.drop_last();
        lemma_ps_lines(h, own, i);
        let before = ps_lines_processes(h, own);
        let all = ps_lines_processes(lines, own);
        if i == lines.len() - 1 {
            if ps_process(lines[i]) is Some && ps_process(lines[i])->0.pid != own {
                assert(all[all.len() - 1] == ps_process(lines[i])->0);
            }
        } else if 0 <= i < lines.len() - 1 {
            assert(h[i] == lines[i]);
            if before.contains(ps_process(lines[i])->0) {
                let k = choose|k: int|
                    0 <= k < before.len() && before[k] == ps_process(lines[i])->0;
                assert(all[k] == before[k]);
            }
        }
    }
}

} // verus!
