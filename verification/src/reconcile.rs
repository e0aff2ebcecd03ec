//! Per-worker reconciliation: what a health probe, a capability report, an
//! identity report or a drift report does to the store, and which stop
//! commands must go out in response.
//!
//! Every check is idempotent and safe to run again on the next tick; the
//! network calls themselves happen outside, and hand these functions plain
//! values.

use vstd::prelude::*;

use crate::codec::Codec;
use crate::codec::Encoder;
use crate::codec::codec_name;
use crate::model::Options;
use crate::model::LogLevel;
use crate::model::Output;
use crate::model::Stream;
use crate::model::Worker;
use crate::model::WorkerStats;
use crate::model::WorkerStatus;
use crate::model::opt_options_eq;
use crate::model::same_opt_options;
use crate::model::same_text;
use crate::model::Status;
use crate::store::appended;
use crate::store::first_worker_at;
use crate::store::has_worker;
use crate::store::record;
use crate::store::stream_shell_eq;
use crate::store::worker_index;

verus! {

/// One worker changed as `f` says; every other worker, and the order, kept.
pub open spec fn one_worker_updated(
    ws0: Seq<Worker>,
    ws1: Seq<Worker>,
    id: u128,
    f: spec_fn(Worker, Worker) -> bool,
) -> bool {
    &&& ws1.len() == ws0.len()
    &&& !has_worker(ws0, id) ==> ws1 == ws0
    &&& forall|i: int|
        first_worker_at(ws0, id, i) ==> {
            &&& (forall|k: int| 0 <= k < ws0.len() && k != i ==> ws1[k] == ws0[k])
            &&& f(ws0[i], ws1[i])
        }
}

/// All fields kept but the health status.
pub open spec fn status_becomes(a: Worker, b: Worker, status: WorkerStatus) -> bool {
    &&& b.id == a.id
    &&& b.protocol == a.protocol
    &&& b.host == a.host
    &&& b.public_ip == a.public_ip
    &&& b.udp_ports == a.udp_ports
    &&& b.codecs == a.codecs
    &&& b.encoder == a.encoder
    &&& b.status == status
    &&& b.stats == a.stats
    &&& b.server == a.server
    &&& b.streams == a.streams
}

/// A failed health probe: the worker is crashed.
pub fn mark_worker_crashed(workers: &mut Vec<Worker>, worker_id: u128)
    ensures
        one_worker_updated(
            old(workers)@,
            final(workers)@,
            worker_id,
            (|a: Worker, b: Worker| status_becomes(a, b, WorkerStatus::Crashed)),
        ),
{
    let found = worker_index(workers, worker_id);
    match found {
        Option::None => {},
        Option::Some(i) => {
            let w = crate::store::at_mut(workers, i);
            w.status = WorkerStatus::Crashed;
        },
    }
}

/// A successful health probe: the worker is up and reported this load.
pub open spec fn health_applied(a: Worker, b: Worker, stats: WorkerStats) -> bool {
    &&& b.id == a.id
    &&& b.protocol == a.protocol
    &&& b.host == a.host
    &&& b.public_ip == a.public_ip
    &&& b.udp_ports == a.udp_ports
    &&& b.codecs == a.codecs
    &&& b.encoder == a.encoder
    &&& b.status == WorkerStatus::Up
    &&& b.stats == stats
    &&& b.server == a.server
    &&& b.streams == a.streams
}

pub fn mark_worker_up(workers: &mut Vec<Worker>, worker_id: u128, stats: WorkerStats)
    ensures
        one_worker_updated(
            old(workers)@,
            final(workers)@,
            worker_id,
            (|a: Worker, b: Worker| health_applied(a, b, stats)),
        ),
{
    let found = worker_index(workers, worker_id);
    match found {
        Option::None => {},
        Option::Some(i) => {
            let w = crate::store::at_mut(workers, i);
            w.status = WorkerStatus::Up;
            w.stats = stats;
        },
    }
}

/// A capability report: the codec set is replaced, a reported encoder class
/// replaces the remembered one (an absent report keeps it), and a worker
/// that answered is up.
pub open spec fn capabilities_applied(
    a: Worker,
    b: Worker,
    codecs: Vec<Codec>,
    encoder: Option<Encoder>,
) -> bool {
    &&& b.id == a.id
    &&& b.protocol == a.protocol
    &&& b.host == a.host
    &&& b.public_ip == a.public_ip
    &&& b.udp_ports == a.udp_ports
    &&& b.codecs == codecs
    &&& b.encoder == (if encoder is Some {
        encoder
    } else {
        a.encoder
    })
    &&& b.status == WorkerStatus::Up
    &&& b.stats == a.stats
    &&& b.server == a.server
    &&& b.streams == a.streams
}

pub fn apply_worker_capabilities(
    workers: &mut Vec<Worker>,
    worker_id: u128,
    codecs: Vec<Codec>,
    encoder: Option<Encoder>,
)
    ensures
        one_worker_updated(
            old(workers)@,
            final(workers)@,
            worker_id,
            (|a: Worker, b: Worker| capabilities_applied(a, b, codecs, encoder)),
        ),
{
    let found = worker_index(workers, worker_id);
    match found {
        Option::None => {},
        Option::Some(i) => {
            let w = crate::store::at_mut(workers, i);
            w.codecs = codecs;
            w.status = WorkerStatus::Up;
            if encoder.is_some() {
                w.encoder = encoder;
            }
        },
    }
}

/// An identity report: the server string and stream count are remembered.
pub open spec fn info_applied(a: Worker, b: Worker, server: String, count: u32) -> bool {
    &&& b.id == a.id
    &&& b.protocol == a.protocol
    &&& b.host == a.host
    &&& b.public_ip == a.public_ip
    &&& b.udp_ports == a.udp_ports
    &&& b.codecs == a.codecs
    &&& b.encoder == a.encoder
    &&& b.status == a.status
    &&& b.stats == a.stats
    &&& b.server == Option::Some(server)
    &&& b.streams == Option::Some(count)
}

pub fn apply_worker_info(workers: &mut Vec<Worker>, worker_id: u128, server: String, count: u32)
    ensures
        one_worker_updated(
            old(workers)@,
            final(workers)@,
            worker_id,
            (|a: Worker, b: Worker| info_applied(a, b, server, count)),
        ),
{
    let found = worker_index(workers, worker_id);
    match found {
        Option::None => {},
        Option::Some(i) => {
            let w = crate::store::at_mut(workers, i);
            w.server = Option::Some(server);
            w.streams = Option::Some(count);
        },
    }
}

/// `true` exactly when the output is assigned to the worker.
pub fn is_assigned_to(o: &Output, worker_id: u128) -> (r: bool)
    ensures
        r == (o.worker == Option::Some(worker_id)),
{
    match o.worker {
        Option::Some(w) => w == worker_id,
        Option::None => false,
    }
}

/// The output went back to `Creating`, unassigned, with `msg` recorded as
/// an error; everything else about it kept.
pub open spec fn output_reset(o0: Output, o1: Output, msg: Seq<char>) -> bool {
    &&& o1.id == o0.id
    &&& o1.uri == o0.uri
    &&& o1.codec == o0.codec
    &&& o1.options == o0.options
    &&& o1.status == Status::Creating
    &&& o1.worker is None
    &&& appended(o0.logs@, o1.logs@, msg)
    &&& if o0.logs@.len() > 0 && o0.logs@.last().what@ == msg {
        o1.last_error == o0.last_error
    } else {
        o1.last_error == Option::Some(o1.logs@.last())
    }
}

/// Every output of the stream that was assigned to the worker went back to
/// `Creating`, unassigned, with the crash recorded; the rest kept.
pub open spec fn worker_outputs_reset(s0: Stream, s1: Stream, worker_id: u128) -> bool {
    &&& stream_shell_eq(s1, s0)
    &&& s1.output@.len() == s0.output@.len()
    &&& forall|j: int|
        0 <= j < s0.output@.len() ==> (if s0.output@[j].worker == Option::Some(worker_id) {
            output_reset(
                s0.output@[j],
                s1.output@[j],
                "Assigned worker crashed. Restarting"@,
            )
        } else {
            s1.output@[j] == s0.output@[j]
        })
}

/// After a worker crashed: every output assigned to it, in every stream,
/// goes back to `Creating` with its assignment cleared, freed for the
/// scheduler to place again; no other output is touched.
pub fn reset_outputs_of_worker(streams: &mut Vec<Stream>, worker_id: u128)
    ensures
        final(streams)@.len() == old(streams)@.len(),
        forall|i: int|
            0 <= i < old(streams)@.len() ==> worker_outputs_reset(
                old(streams)@[i],
                final(streams)@[i],
                worker_id,
            ),
{
    let n = streams.len();
    let mut i: usize = 0;
    while i < n
        invariant
            n == old(streams)@.len(),
            streams@.len() == n,
            0 <= i <= n,
            forall|a: int| i <= a < n ==> streams@[a] == old(streams)@[a],
            forall|a: int|
                0 <= a < i ==> worker_outputs_reset(old(streams)@[a], streams@[a], worker_id),
        decreases n - i,
    {
        let s = crate::store::at_mut(streams, i);
        let ghost s0: Stream = *s;
        let m = s.output.len();
        let mut j: usize = 0;
        while j < m
            invariant
                m == s0.output@.len(),
                s.output@.len() == m,
                0 <= j <= m,
                stream_shell_eq(*s, s0),
                forall|b: int| j <= b < m ==> s.output@[b] == s0.output@[b],
                forall|b: int|
                    0 <= b < j ==> (if s0.output@[b].worker == Option::Some(worker_id) {
                        output_reset(
                            s0.output@[b],
                            s.output@[b],
                            "Assigned worker crashed. Restarting"@,
                        )
                    } else {
                        s.output@[b] == s0.output@[b]
                    }),
            decreases m - j,
        {
            if is_assigned_to(&s.output[j], worker_id) {
                let o = crate::store::at_mut(&mut s.output, j);
                o.status = Status::Creating;
                o.worker = Option::None;
                record(o, "Assigned worker crashed. Restarting", LogLevel::Error);
            }
            j += 1;
        }
        i += 1;
    }
}

// The configuration-drift check.

/// One output as a worker reports it actually runs: the stream settings it
/// is applying, with the codec under its ffmpeg name.
pub struct ReportedOutput {
    pub id: u128,
    pub name: String,
    pub input: String,
    pub output: String,
    pub codec: String,
    pub options: Option<Options>,
}

/// A stop command the caller must deliver to the worker: stop `output_id`,
/// which belongs to `stream_id` where the store knows it at all (an orphan
/// carries no stream).
pub struct StopRequest {
    pub stream_id: Option<u128>,
    pub output_id: u128,
}

pub open spec fn reported_has(report: Seq<ReportedOutput>, id: u128) -> bool {
    exists|k: int| 0 <= k < report.len() && report[k].id == id
}

/// `k` is the first entry of the report carrying `id`.
pub open spec fn first_report_at(report: Seq<ReportedOutput>, id: u128, k: int) -> bool {
    &&& 0 <= k < report.len()
    &&& report[k].id == id
    &&& forall|a: int| 0 <= a < k ==> report[a].id != id
}

pub proof fn lemma_first_report_unique(report: Seq<ReportedOutput>, id: u128, k1: int, k2: int)
    requires
        first_report_at(report, id, k1),
        first_report_at(report, id, k2),
    ensures
        k1 == k2,
{
    if k1 < k2 {
        assert(report[k1].id != id);
    }
    if k2 < k1 {
        assert(report[k2].id != id);
    }
}

/// The reported configuration differs from the desired one in codec,
/// input, destination, name or options.
pub open spec fn config_drift(
    r: ReportedOutput,
    name: Seq<char>,
    input: Seq<char>,
    o: Output,
) -> bool {
    ||| r.codec@ != codec_name(o.codec)
    ||| r.input@ != input
    ||| r.output@ != o.uri@
    ||| r.name@ != name
    ||| !opt_options_eq(r.options, o.options)
}

/// Decides `config_drift` for an output against what the worker reports.
pub fn compare_configs(r: &ReportedOutput, name: &String, input: &String, o: &Output) -> (b: bool)
    ensures
        b == config_drift(*r, name@, input@, *o),
{
    !same_text(&r.codec, &o.codec.ffmpeg_name().to_owned()) || !same_text(&r.input, input)
        || !same_text(&r.output, &o.uri) || !same_text(&r.name, name) || !same_opt_options(
        &r.options,
        &o.options,
    )
}

/// Index of the first report entry with the given identifier.
fn report_index(report: &Vec<ReportedOutput>, id: u128) -> (r: Option<usize>)
    ensures
        match r {
            Option::Some(k) => first_report_at(report@, id, k as int),
            Option::None => !reported_has(report@, id),
        },
{
    for k in 0..report.len()
        invariant
            forall|a: int| 0 <= a < k ==> report@[a].id != id,
    {
        if report[k].id == id {
            return Option::Some(k);
        }
    }
    Option::None
}

/// Some output of some stream with this identifier is assigned to the worker.
pub open spec fn expected_has(ss: Seq<Stream>, worker_id: u128, oid: u128) -> bool {
    exists|i: int, j: int|
        0 <= i < ss.len() && 0 <= j < ss[i].output@.len() && ss[i].output@[j].worker
            == Option::Some(worker_id) && ss[i].output@[j].id == oid
}

/// Decides `expected_has`.
pub fn is_expected(ss: &Vec<Stream>, worker_id: u128, oid: u128) -> (r: bool)
    ensures
        r == expected_has(ss@, worker_id, oid),
{
    for i in 0..ss.len()
        invariant
            forall|a: int, b: int|
                0 <= a < i && 0 <= b < ss@[a].output@.len() ==> !(ss@[a].output@[b].worker
                    == Option::Some(worker_id) && ss@[a].output@[b].id == oid),
    {
        let s = &ss[i];
        for j in 0..s.output.len()
            invariant
                0 <= i < ss@.len(),
                *s == ss@[i as int],
                forall|a: int, b: int|
                    0 <= a < i && 0 <= b < ss@[a].output@.len() ==> !(ss@[a].output@[b].worker
                        == Option::Some(worker_id) && ss@[a].output@[b].id == oid),
                forall|b: int|
                    0 <= b < j ==> !(s.output@[b].worker == Option::Some(worker_id)
                        && s.output@[b].id == oid),
        {
            if is_assigned_to(&s.output[j], worker_id) && s.output[j].id == oid {
                return true;
            }
        }
    }
    false
}

/// The output of a disabled stream was freed: back to `Creating`,
/// unassigned, nothing else touched.
pub open spec fn output_released(o0: Output, o1: Output) -> bool {
    &&& o1.id == o0.id
    &&& o1.uri == o0.uri
    &&& o1.codec == o0.codec
    &&& o1.options == o0.options
    &&& o1.status == Status::Creating
    &&& o1.worker is None
    &&& o1.logs == o0.logs
    &&& o1.last_error == o0.last_error
}

/// What the drift check does to one output. An output not assigned to the
/// worker is untouched. One of a disabled stream is freed. One the worker
/// does not report is reset with an error logged. One reported with a
/// drifted configuration keeps its status — the stop that goes out resolves
/// it on a later tick — and the drift is logged. One reported as desired is
/// untouched.
pub open spec fn drift_checked_output(
    s0: Stream,
    o0: Output,
    o1: Output,
    worker_id: u128,
    report: Seq<ReportedOutput>,
) -> bool {
    if o0.worker != Option::Some(worker_id) {
        o1 == o0
    } else if !s0.enabled {
        output_released(o0, o1)
    } else if !reported_has(report, o0.id) {
        output_reset(o0, o1, "Output is not running on worker. Restarting"@)
    } else {
        forall|k: int|
            first_report_at(report, o0.id, k) ==> (if config_drift(
                report[k],
                s0.name@,
                s0.input@,
                o0,
            ) {
                crate::store::log_applied(
                    o0,
                    o1,
                    "Output has invalid configuration on worker. Restarting"@,
                    LogLevel::Info,
                )
            } else {
                o1 == o0
            })
    }
}

pub open spec fn drift_checked_stream(
    s0: Stream,
    s1: Stream,
    worker_id: u128,
    report: Seq<ReportedOutput>,
) -> bool {
    &&& stream_shell_eq(s1, s0)
    &&& s1.output@.len() == s0.output@.len()
    &&& forall|j: int|
        0 <= j < s0.output@.len() ==> drift_checked_output(
            s0,
            s0.output@[j],
            s1.output@[j],
            worker_id,
            report,
        )
}

/// The check owes the worker a stop for output `(i, j)`: the output is
/// assigned to it and either its stream is disabled or the worker reports
/// it with a drifted configuration.
pub open spec fn stop_due(
    ss: Seq<Stream>,
    worker_id: u128,
    report: Seq<ReportedOutput>,
    i: int,
    j: int,
) -> bool {
    &&& 0 <= i < ss.len()
    &&& 0 <= j < ss[i].output@.len()
    &&& ss[i].output@[j].worker == Option::Some(worker_id)
    &&& {
        ||| !ss[i].enabled
        ||| exists|k: int|
            #[trigger] first_report_at(report, ss[i].output@[j].id, k) && config_drift(
                report[k],
                ss[i].name@,
                ss[i].input@,
                ss[i].output@[j],
            )
    }
}

pub open spec fn stops_contain(ts: Seq<StopRequest>, sid: Option<u128>, oid: u128) -> bool {
    exists|k: int| 0 <= k < ts.len() && ts[k].stream_id == sid && ts[k].output_id == oid
}

/// Growing the stop list keeps everything it already contained.
pub proof fn lemma_stops_grow(ts0: Seq<StopRequest>, ts1: Seq<StopRequest>)
    requires
        ts0.len() <= ts1.len(),
        forall|x: int| 0 <= x < ts0.len() ==> ts1[x] == ts0[x],
    ensures
        forall|sid: Option<u128>, oid: u128|
            #[trigger] stops_contain(ts0, sid, oid) ==> stops_contain(ts1, sid, oid),
{
    assert forall|sid: Option<u128>, oid: u128|
        #[trigger] stops_contain(ts0, sid, oid) implies stops_contain(ts1, sid, oid) by {
        let x = choose|x: int|
            0 <= x < ts0.len() && ts0[x].stream_id == sid && ts0[x].output_id == oid;
        assert(0 <= x < ts1.len() && ts1[x].stream_id == sid && ts1[x].output_id == oid);
    }
}

/// Every stop the check issues is accounted for: either it is due for an
/// output the store assigned to the worker, or it stops an orphan — an
/// output the worker reports but no stream expects of it.
pub open spec fn stop_justified(
    t: StopRequest,
    ss: Seq<Stream>,
    worker_id: u128,
    report: Seq<ReportedOutput>,
) -> bool {
    match t.stream_id {
        Option::Some(sid) => exists|i: int, j: int|
            #[trigger] stop_due(ss, worker_id, report, i, j) && ss[i].id == sid
                && ss[i].output@[j].id == t.output_id,
        Option::None => reported_has(report, t.output_id) && !expected_has(
            ss,
            worker_id,
            t.output_id,
        ),
    }
}

/// The drift check for one worker, against what it reports running.
///
/// Corrects the store as `drift_checked_stream` says, and returns the stop
/// commands owed: one for each output due a stop, one for each orphan the
/// worker reports; and nothing else.
pub fn check_worker_outputs(
    streams: &mut Vec<Stream>,
    worker_id: u128,
    report: &Vec<ReportedOutput>,
) -> (stops: Vec<StopRequest>)
    ensures
        final(streams)@.len() == old(streams)@.len(),
        forall|i: int|
            0 <= i < old(streams)@.len() ==> drift_checked_stream(
                old(streams)@[i],
                final(streams)@[i],
                worker_id,
                report@,
            ),
        forall|t: int|
            0 <= t < stops@.len() ==> stop_justified(stops@[t], old(streams)@, worker_id, report@),
        forall|i: int, j: int|
            stop_due(old(streams)@, worker_id, report@, i, j) ==> stops_contain(
                stops@,
                Option::Some(old(streams)@[i].id),
                old(streams)@[i].output@[j].id,
            ),
        forall|k: int|
            0 <= k < report@.len() && !expected_has(old(streams)@, worker_id, #[trigger] report@[k].id)
                ==> stops_contain(stops@, Option::None, report@[k].id),
{
    let mut stops: Vec<StopRequest> = Vec::new();
    // Orphans first, while the store still shows the assignments the report
    // is held against.
    for k in 0..report.len()
        invariant
            streams@ == old(streams)@,
            forall|t: int|
                0 <= t < stops@.len() ==> stop_justified(
                    stops@[t],
                    old(streams)@,
                    worker_id,
                    report@,
                ),
            forall|a: int|
                0 <= a < k && !expected_has(old(streams)@, worker_id, #[trigger] report@[a].id)
                    ==> stops_contain(stops@, Option::None, report@[a].id),
            forall|t: int| 0 <= t < stops@.len() ==> stops@[t].stream_id is None,
    {
        let mut seen = false;
        for a in 0..k
            invariant
                0 <= k < report@.len(),
                seen == (exists|b: int| 0 <= b < a && report@[b].id == report@[k as int].id),
        {
            if report[a].id == report[k].id {
                seen = true;
            }
        }
        if !seen && !is_expected(streams, worker_id, report[k].id) {
            let ghost stops_pre = stops@;
            stops.push(StopRequest { stream_id: Option::None, output_id: report[k].id });
            proof {
                lemma_stops_grow(stops_pre, stops@);
                assert(stops@[stops_pre.len() as int].output_id == report@[k as int].id);
            }
        }
    }
    // Then each stream, each output assigned to this worker.
    let n = streams.len();
    let mut i: usize = 0;
    while i < n
        invariant
            n == old(streams)@.len(),
            streams@.len() == n,
            0 <= i <= n,
            forall|a: int| i <= a < n ==> streams@[a] == old(streams)@[a],
            forall|a: int|
                0 <= a < i ==> drift_checked_stream(
                    old(streams)@[a],
                    streams@[a],
                    worker_id,
                    report@,
                ),
            forall|t: int|
                0 <= t < stops@.len() ==> stop_justified(
                    stops@[t],
                    old(streams)@,
                    worker_id,
                    report@,
                ),
            forall|a: int, b: int|
                a < i && stop_due(old(streams)@, worker_id, report@, a, b) ==> stops_contain(
                    stops@,
                    Option::Some(old(streams)@[a].id),
                    old(streams)@[a].output@[b].id,
                ),
            forall|k: int|
                0 <= k < report@.len() && !expected_has(
                    old(streams)@,
                    worker_id,
                    #[trigger] report@[k].id,
                ) ==> stops_contain(stops@, Option::None, report@[k].id),
        decreases n - i,
    {
        let s = crate::store::at_mut(streams, i);
        let ghost s0: Stream = *s;
        let sid = s.id;
        let m = s.output.len();
        let mut j: usize = 0;
        while j < m
            invariant
                0 <= i < n,
                n == old(streams)@.len(),
                s0 == old(streams)@[i as int],
                m == s0.output@.len(),
                s.output@.len() == m,
                0 <= j <= m,
                stream_shell_eq(*s, s0),
                sid == s0.id,
                forall|b: int| j <= b < m ==> s.output@[b] == s0.output@[b],
                forall|b: int|
                    0 <= b < j ==> drift_checked_output(
                        s0,
                        s0.output@[b],
                        s.output@[b],
                        worker_id,
                        report@,
                    ),
                forall|t: int|
                    0 <= t < stops@.len() ==> stop_justified(
                        stops@[t],
                        old(streams)@,
                        worker_id,
                        report@,
                    ),
                forall|a: int, b: int|
                    (a < i || (a == i && b < j)) && stop_due(old(streams)@, worker_id, report@, a, b)
                        ==> stops_contain(
                        stops@,
                        Option::Some(old(streams)@[a].id),
                        old(streams)@[a].output@[b].id,
                    ),
                forall|k: int|
                    0 <= k < report@.len() && !expected_has(
                        old(streams)@,
                        worker_id,
                        #[trigger] report@[k].id,
                    ) ==> stops_contain(stops@, Option::None, report@[k].id),
            decreases m - j,
        {
            let oid = s.output[j].id;
            if is_assigned_to(&s.output[j], worker_id) {
                if !s.enabled {
                    let o = crate::store::at_mut(&mut s.output, j);
                    o.status = Status::Creating;
                    o.worker = Option::None;
                    let ghost stops_pre = stops@;
                    stops.push(StopRequest { stream_id: Option::Some(sid), output_id: oid });
                    proof {
                        lemma_stops_grow(stops_pre, stops@);
                        assert(stops@[stops_pre.len() as int].output_id == oid);
                        assert(stop_due(old(streams)@, worker_id, report@, i as int, j as int));
                    }
                } else {
                    let found = report_index(report, oid);
                    match found {
                        Option::None => {
                            let o = crate::store::at_mut(&mut s.output, j);
                            o.status = Status::Creating;
                            o.worker = Option::None;
                            record(o, "Output is not running on worker. Restarting", LogLevel::Error);
                        },
                        Option::Some(k) => {
                            if compare_configs(&report[k], &s.name, &s.input, &s.output[j]) {
                                let o = crate::store::at_mut(&mut s.output, j);
                                record(
                                    o,
                                    "Output has invalid configuration on worker. Restarting",
                                    LogLevel::Info,
                                );
                                let ghost stops_pre = stops@;
                                stops.push(
                                    StopRequest { stream_id: Option::Some(sid), output_id: oid },
                                );
                                proof {
                                    lemma_stops_grow(stops_pre, stops@);
                                    assert(stops@[stops_pre.len() as int].output_id == oid);
                                    assert(stop_due(
                                        old(streams)@,
                                        worker_id,
                                        report@,
                                        i as int,
                                        j as int,
                                    ));
                                }
                            } else {
                                proof {
                                    assert forall|k2: int|
                                        first_report_at(report@, oid, k2) implies k2 == k as int by {
                                        lemma_first_report_unique(report@, oid, k2, k as int);
                                    }
                                }
                            }
                        },
                    }
                }
            }
            j += 1;
        }
        i += 1;
    }
    stops
}

} // verus!
