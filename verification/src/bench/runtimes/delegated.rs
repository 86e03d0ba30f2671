//! Runtimes that measure in a subprocess.
//!
//! ONNX Runtime, TorchScript, TensorRT and llama.cpp run warm-up, measurement and
//! throughput window inside a child process on the first inference, and hand the
//! recorded samples back once.
use vstd::prelude::*;

use crate::bench::harness;
use crate::bench::harness::Collected;
use crate::float::F64;
use crate::text;

verus! {

broadcast use vstd::string::group_string_axioms;

/// What a subprocess runtime holds between calls.
#[derive(Debug)]
pub struct Delegated {
    pub model_path: Option<String>,
    /// Latency samples in microseconds from the last subprocess run.
    pub latency_samples_us: Vec<u64>,
    pub throughput_rps: F64,
    pub load_ms: u64,
}

/// What a [`Delegated`] holds.
pub ghost struct DelegatedView {
    pub model_path: Option<Seq<char>>,
    pub samples_us: Seq<u64>,
    pub throughput_rps: F64,
    pub load_ms: u64,
}

impl View for Delegated {
    type V = DelegatedView;

    open spec fn view(&self) -> DelegatedView {
        DelegatedView {
            model_path: match self.model_path {
                Some(p) => Some(p@),
                None => None,
            },
            samples_us: self.latency_samples_us@,
            throughput_rps: self.throughput_rps,
            load_ms: self.load_ms,
        }
    }
}

/// A runtime that has loaded a model, or none, and run nothing.
pub open spec fn fresh(model_path: Option<Seq<char>>) -> DelegatedView {
    DelegatedView {
        model_path,
        samples_us: Seq::empty(),
        throughput_rps: F64::of(0),
        load_ms: 0,
    }
}

/// A record that a driver process reports.
#[derive(Debug)]
pub enum DriverRecord {
    LoadMs { ms: u64 },
    LatencyUs { us: u64 },
    ThroughputRps { rps: F64 },
    Error { message: String },
}

/// The runtime after a record.
pub open spec fn after_record(v: DelegatedView, r: DriverRecord) -> DelegatedView {
    match r {
        DriverRecord::LoadMs { ms } => DelegatedView { load_ms: ms, ..v },
        DriverRecord::LatencyUs { us } => DelegatedView {
            samples_us: v.samples_us.push(us),
            ..v
        },
        DriverRecord::ThroughputRps { rps } => DelegatedView { throughput_rps: rps, ..v },
        DriverRecord::Error { .. } => v,
    }
}

/// The runtime after a run of records.
pub open spec fn after_records(v: DelegatedView, rs: Seq<DriverRecord>) -> DelegatedView
    decreases rs.len(),
{
    if rs.len() == 0 {
        v
    } else {
        after_record(after_records(v, rs.drop_last()), rs.last())
    }
}

/// The messages of the errors among records, in order.
pub open spec fn error_messages(rs: Seq<DriverRecord>) -> Seq<Seq<char>>
    decreases rs.len(),
{
    if rs.len() == 0 {
        Seq::empty()
    } else {
        match rs.last() {
            DriverRecord::Error { message } => error_messages(rs.drop_last()).push(message@),
            _ => error_messages(rs.drop_last()),
        }
    }
}

/// What is to be done about an inference.
#[derive(Debug)]
pub enum Request {
    /// The samples of a run are at hand: nothing.
    Replay,
    /// No model was loaded: fail with this message.
    Fail(String),
    /// Launch the subprocess on this model.
    Run(String),
}

/// What handing out the samples gives, and leaves.
pub open spec fn collect(v: DelegatedView) -> (Option<harness::CollectedView>, DelegatedView) {
    if v.samples_us.len() == 0 {
        (None, v)
    } else {
        (
            Some(
                harness::CollectedView {
                    samples_us: v.samples_us,
                    throughput_rps: v.throughput_rps,
                    load_ms: v.load_ms,
                },
            ),
            DelegatedView { samples_us: Seq::empty(), ..v },
        )
    }
}

/// Samples are handed out once: asked again, a runtime has none.
pub proof fn law_samples_are_handed_out_once(v: DelegatedView)
    ensures
        collect(collect(v).1).0 is None,
{
}

/// A run whose records tell of no latency hands out nothing, so that its runtime
/// is measured in process.
pub proof fn law_no_latency_hands_out_nothing(path: Option<Seq<char>>, rs: Seq<DriverRecord>)
    requires
        forall|i: int| 0 <= i < rs.len() ==> !(#[trigger] rs[i] is LatencyUs),
    ensures
        collect(after_records(fresh(path), rs)).0 is None,
    decreases rs.len(),
{
    if rs.len() > 0 {
        law_no_latency_hands_out_nothing(path, rs.drop_last());
        assert(!(rs[rs.len() - 1] is LatencyUs));
    }
}

impl Delegated {
    /// A runtime without a model.
    pub fn new() -> (r: Self)
        ensures
            r@ == fresh(None),
    {
        let r = Delegated {
            model_path: None,
            latency_samples_us: Vec::new(),
            throughput_rps: F64::of(0),
            load_ms: 0,
        };
        assert(r@.samples_us =~= Seq::empty());
        r
    }

    /// Takes a model file, where it exists, and forgets earlier samples.
    pub fn load(&mut self, path: &str, exists: bool) -> (r: Result<(), String>)
        ensures
            exists ==> r is Ok && final(self)@ == fresh(Some(path@)),
            !exists ==> (r matches Err(e) && e@ == "model file not found: "@ + path@)
                && final(self)@ == old(self)@,
    {
        if !exists {
            let mut e = "model file not found: ".to_owned();
            e.append(path);
            return Err(e);
        }
        self.model_path = Some(path.to_owned());
        self.latency_samples_us = Vec::new();
        self.throughput_rps = F64::of(0);
        self.load_ms = 0;
        assert(self@.samples_us =~= Seq::empty());
        Ok(())
    }

    /// Decides on an inference; `name` is that of the runtime.
    pub fn request(&self, name: &str) -> (r: Request)
        ensures
            is_request(self@, name@, r),
    {
        if self.latency_samples_us.len() > 0 {
            return Request::Replay;
        }
        match &self.model_path {
            Some(p) => Request::Run(p.clone()),
            None => {
                let mut e = name.to_owned();
                e.append(": load() not called");
                Request::Fail(e)
            },
        }
    }

    /// Takes in the records of a run; hands back the messages of errors. A run
    /// without any succeeded.
    pub fn absorb(&mut self, records: &Vec<DriverRecord>) -> (r: Vec<String>)
        ensures
            final(self)@ == after_records(old(self)@, records@),
            text::texts(r@) == error_messages(records@),
    {
        broadcast use text::group_texts;

        let mut messages: Vec<String> = Vec::new();
        let ghost before = self@;
        let mut i: usize = 0;
        assert(records@.take(0) =~= Seq::empty());
        while i < records.len()
            invariant
                i <= records@.len(),
                self@ == after_records(before, records@.take(i as int)),
                text::texts(messages@) == error_messages(records@.take(i as int)),
            decreases records.len() - i,
        {
            broadcast use text::group_texts;

            assert(records@.take(i + 1).drop_last() =~= records@.take(i as int));
            match &records[i] {
                DriverRecord::LoadMs { ms } => {
                    self.load_ms = *ms;
                },
                DriverRecord::LatencyUs { us } => {
                    self.latency_samples_us.push(*us);
                },
                DriverRecord::ThroughputRps { rps } => {
                    self.throughput_rps = *rps;
                },
                DriverRecord::Error { message } => {
                    messages.push(message.clone());
                },
            }
            i = i + 1;
        }
        assert(records@.take(i as int) =~= records@);
        messages
    }

    /// Forgets the model and its samples.
    pub fn unload(&mut self)
        ensures
            final(self)@ == fresh(None),
    {
        self.model_path = None;
        self.latency_samples_us = Vec::new();
        self.throughput_rps = F64::of(0);
        self.load_ms = 0;
        assert(self@.samples_us =~= Seq::empty());
    }

    /// Hands the samples collected inside the subprocess out, once.
    pub fn pre_collected_samples(&mut self) -> (r: Option<Collected>)
        ensures
            harness::collected_view(r) == collect(old(self)@).0,
            final(self)@ == collect(old(self)@).1,
    {
        if self.latency_samples_us.len() == 0 {
            return None;
        }
        let mut samples_us: Vec<u64> = Vec::new();
        std::mem::swap(&mut samples_us, &mut self.latency_samples_us);
        assert(self@.samples_us =~= Seq::empty());
        Some(
            Collected { samples_us, throughput_rps: self.throughput_rps, load_ms: self.load_ms },
        )
    }
}

/// The lines of a driver's output that hold records: trimmed, without empty ones.
pub open spec fn record_lines(output: Seq<char>) -> Seq<Seq<char>> {
    text::lines(output).map_values(|l: Seq<char>| text::trim(l)).filter(
        |l: Seq<char>| l.len() > 0,
    )
}

/// The lines of a driver's output that hold records.
pub fn driver_lines(output: &str) -> (r: Vec<String>)
    ensures
        text::texts(r@) == record_lines(output@),
{
    broadcast use text::group_texts;

    let all = text::lines_of(output);
    let ghost trimmed = text::lines(output@).map_values(|l: Seq<char>| text::trim(l));
    let ghost keep = |l: Seq<char>| l.len() > 0;
    let mut r: Vec<String> = Vec::new();
    let mut i: usize = 0;
    proof {
        reveal(Seq::filter);
        assert(trimmed.take(0) =~= Seq::empty());
        assert(text::texts(all@).len() == all@.len());
    }
    while i < all.len()
        invariant
            i <= all@.len(),
            all@.len() == trimmed.len(),
            text::texts(all@) == text::lines(output@),
            trimmed == text::lines(output@).map_values(|l: Seq<char>| text::trim(l)),
            keep == (|l: Seq<char>| l.len() > 0),
            text::texts(r@) == trimmed.take(i as int).filter(keep),
        decreases all.len() - i,
    {
        broadcast use text::group_texts;

        let line = text::trimmed(all[i].as_str());
        proof {
            reveal(Seq::filter);
            assert(text::texts(all@)[i as int] == all@[i as int]@);
            assert(trimmed.take(i + 1).drop_last() =~= trimmed.take(i as int));
            assert(trimmed.take(i + 1).last() == line@);
        }
        if !line.as_str().is_empty() {
            r.push(line);
        }
        i = i + 1;
    }
    assert(trimmed.take(i as int) =~= trimmed);
    r
}

/// The batch size of an input.
pub open spec fn first_dimension(shape: Seq<usize>) -> usize {
    if shape.len() > 0 {
        shape[0]
    } else {
        1
    }
}

/// Whether `r` is what is asked for on an inference.
pub open spec fn is_request(v: DelegatedView, name: Seq<char>, r: Request) -> bool {
    match r {
        Request::Replay => v.samples_us.len() > 0,
        Request::Fail(e) => v.samples_us.len() == 0 && v.model_path is None && e@ == name
            + ": load() not called"@,
        Request::Run(p) => v.samples_us.len() == 0 && v.model_path == Some(p@),
    }
}

/// The batch size of an input: its first dimension, or one.
pub fn leading_dimension(shape: &Vec<usize>) -> (r: usize)
    ensures
        r == first_dimension(shape@),
{
    if shape.len() > 0 {
        shape[0]
    } else {
        1
    }
}

/// Records leave the model as it is. The samples are what was there before, then the
/// latencies in the order of the records; errors change nothing.
pub proof fn law_latencies_are_kept_in_order(v: DelegatedView, rs: Seq<DriverRecord>, r: DriverRecord)
    ensures
        after_records(v, Seq::empty()) == v,
        after_records(v, rs.push(r)).model_path == after_records(v, rs).model_path,
        r matches DriverRecord::LatencyUs { us } ==> after_records(v, rs.push(r)).samples_us
            == after_records(v, rs).samples_us.push(us) && after_records(
            v,
            rs.push(r),
        ).throughput_rps == after_records(v, rs).throughput_rps && after_records(
            v,
            rs.push(r),
        ).load_ms == after_records(v, rs).load_ms,
        r matches DriverRecord::LoadMs { ms } ==> after_records(v, rs.push(r)).load_ms == ms
            && after_records(v, rs.push(r)).samples_us == after_records(v, rs).samples_us
            && after_records(v, rs.push(r)).throughput_rps == after_records(v, rs).throughput_rps,
        r matches DriverRecord::ThroughputRps { rps } ==> after_records(
            v,
            rs.push(r),
        ).throughput_rps == rps && after_records(v, rs.push(r)).samples_us == after_records(
            v,
            rs,
        ).samples_us && after_records(v, rs.push(r)).load_ms == after_records(v, rs).load_ms,
        r is Error ==> after_records(v, rs.push(r)) == after_records(v, rs),
{
    assert(rs.push(r).drop_last() =~= rs);
}

/// Each error record gives its message, in order, and no other record gives one.
pub proof fn law_errors_are_reported(rs: Seq<DriverRecord>, r: DriverRecord)
    ensures
        error_messages(Seq::empty()).len() == 0,
        r matches DriverRecord::Error { message } ==> error_messages(rs.push(r)) == error_messages(
            rs,
        ).push(message@),
        !(r is Error) ==> error_messages(rs.push(r)) == error_messages(rs),
{
    assert(rs.push(r).drop_last() =~= rs);
}

/// What is handed out is exactly what was collected, and is then forgotten; a runtime
/// without samples hands out nothing and stays as it is.
pub proof fn law_everything_is_handed_out(v: DelegatedView)
    ensures
        collect(v).0 is None <==> v.samples_us.len() == 0,
        collect(v).0 matches Some(c) ==> c.samples_us == v.samples_us && c.throughput_rps
            == v.throughput_rps && c.load_ms == v.load_ms,
        collect(v).1.samples_us.len() == 0,
        collect(v).1.model_path == v.model_path,
        fresh(v.model_path).samples_us.len() == 0,
        fresh(v.model_path).model_path == v.model_path,
        fresh(v.model_path).load_ms == 0,
        fresh(v.model_path).throughput_rps == F64::of(0),
{
}

/// Samples that are there are replayed; without any the model is run, and without a model
/// the runtime complains by its name.
pub proof fn law_samples_are_replayed(v: DelegatedView, name: Seq<char>, r: Request)
    requires
        is_request(v, name, r),
    ensures
        r is Replay <==> v.samples_us.len() > 0,
        r is Run <==> v.samples_us.len() == 0 && v.model_path is Some,
        r is Fail <==> v.samples_us.len() == 0 && v.model_path is None,
        r matches Request::Run(p) ==> Some(p@) == v.model_path,
        r matches Request::Fail(e) ==> name.is_prefix_of(e@),
{
    if let Request::Fail(e) = r {
        assert(name =~= e@.take(name.len() as int));
    }
}

/// The first dimension of an input is its batch size; an input without dimensions is one.
pub proof fn law_batches_come_first(n: usize, rest: Seq<usize>)
    ensures
        first_dimension(seq![n] + rest) == n,
        first_dimension(Seq::empty()) == 1,
{
}

/// A line of output holds a record exactly where it is more than white space; records are
/// taken without the white space around them, one by one.
pub proof fn law_records_are_the_lines_that_say_something(line: Seq<char>, rest: Seq<char>)
    requires
        line.len() > 0,
        !line.contains('\n'),
        line.last() != '\r',
    ensures
        text::trim(line).len() > 0 ==> record_lines(line + seq!['\n'] + rest) == seq![
            text::trim(line),
        ] + record_lines(rest),
        text::trim(line).len() == 0 ==> record_lines(line + seq!['\n'] + rest) == record_lines(
            rest,
        ),
{
    let keep = |l: Seq<char>| l.len() > 0;
    let cut = |l: Seq<char>| text::trim(l);
    text::law_lines(line, rest);
    let one = seq![text::trim(line)];
    let others = text::lines(rest).map_values(cut);
    assert((seq![line] + text::lines(rest)).map_values(cut) =~= one + others);
    Seq::filter_distributes_over_add(one, others, keep);
    reveal(Seq::filter);
    assert(one.drop_last() =~= Seq::<Seq<char>>::empty());
    assert(Seq::<Seq<char>>::empty().filter(keep) =~= Seq::<Seq<char>>::empty());
    assert(one.filter(keep) =~= if text::trim(line).len() > 0 {
        one
    } else {
        Seq::empty()
    });
    assert(Seq::<Seq<char>>::empty() + others.filter(keep) =~= others.filter(keep));
}

} // verus!
