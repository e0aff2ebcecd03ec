//! Operations on the two shared collections — streams and workers.
//!
//! Every lookup is by identifier (or by host, the workers' natural key)
//! and hits the first match; every mutation leaves all other entities
//! untouched, which the contracts state explicitly.

use vstd::prelude::*;

use crate::model::LogEntry;
use crate::model::LogLevel;
use crate::model::Output;
use crate::model::StateDump;
use crate::model::Status;
use crate::model::Stream;
use crate::model::Worker;
use crate::codec::Codec;
use crate::model::Options;
use crate::model::WorkerStats;
use crate::model::WorkerStatus;
use crate::model::copy_opt_options;
use crate::model::copy_stream;
use crate::model::copy_streams;
use crate::model::copy_text;
use crate::model::copy_worker;
use crate::model::copy_workers;
use crate::model::opt_options_eq;
use crate::model::opt_text_eq;
use crate::model::same_text;
use crate::model::stream_eq;
use crate::model::worker_eq;
use crate::outside::fresh_id;
use crate::outside::now_rfc3339;

verus! {

// Locating entities.

pub open spec fn has_stream(ss: Seq<Stream>, id: u128) -> bool {
    exists|i: int| 0 <= i < ss.len() && ss[i].id == id
}

/// `i` is the first index in `ss` holding the stream `id`.
pub open spec fn first_stream_at(ss: Seq<Stream>, id: u128, i: int) -> bool {
    &&& 0 <= i < ss.len()
    &&& ss[i].id == id
    &&& forall|k: int| 0 <= k < i ==> ss[k].id != id
}

pub open spec fn has_output(os: Seq<Output>, id: u128) -> bool {
    exists|j: int| 0 <= j < os.len() && os[j].id == id
}

/// `j` is the first index in `os` holding the output `id`.
pub open spec fn first_output_at(os: Seq<Output>, id: u128, j: int) -> bool {
    &&& 0 <= j < os.len()
    &&& os[j].id == id
    &&& forall|k: int| 0 <= k < j ==> os[k].id != id
}

pub open spec fn has_worker(ws: Seq<Worker>, id: u128) -> bool {
    exists|i: int| 0 <= i < ws.len() && ws[i].id == id
}

/// `i` is the first index in `ws` holding the worker `id`.
pub open spec fn first_worker_at(ws: Seq<Worker>, id: u128, i: int) -> bool {
    &&& 0 <= i < ws.len()
    &&& ws[i].id == id
    &&& forall|k: int| 0 <= k < i ==> ws[k].id != id
}

pub open spec fn has_host(ws: Seq<Worker>, host: Seq<char>) -> bool {
    exists|i: int| 0 <= i < ws.len() && ws[i].host@ == host
}

/// `i` is the first index in `ws` holding a worker whose host reads `host`.
pub open spec fn first_host_at(ws: Seq<Worker>, host: Seq<char>, i: int) -> bool {
    &&& 0 <= i < ws.len()
    &&& ws[i].host@ == host
    &&& forall|k: int| 0 <= k < i ==> ws[k].host@ != host
}

/// Index of the first stream with the given identifier.
pub fn stream_index(ss: &Vec<Stream>, id: u128) -> (r: Option<usize>)
    ensures
        match r {
            Option::Some(i) => first_stream_at(ss@, id, i as int),
            Option::None => !has_stream(ss@, id),
        },
{
    for i in 0..ss.len()
        invariant
            forall|k: int| 0 <= k < i ==> ss@[k].id != id,
    {
        if ss[i].id == id {
            return Option::Some(i);
        }
    }
    Option::None
}

/// Index of the first output with the given identifier.
pub fn output_index(os: &Vec<Output>, id: u128) -> (r: Option<usize>)
    ensures
        match r {
            Option::Some(j) => first_output_at(os@, id, j as int),
            Option::None => !has_output(os@, id),
        },
{
    for j in 0..os.len()
        invariant
            forall|k: int| 0 <= k < j ==> os@[k].id != id,
    {
        if os[j].id == id {
            return Option::Some(j);
        }
    }
    Option::None
}

/// Index of the first worker with the given identifier.
pub fn worker_index(ws: &Vec<Worker>, id: u128) -> (r: Option<usize>)
    ensures
        match r {
            Option::Some(i) => first_worker_at(ws@, id, i as int),
            Option::None => !has_worker(ws@, id),
        },
{
    for i in 0..ws.len()
        invariant
            forall|k: int| 0 <= k < i ==> ws@[k].id != id,
    {
        if ws[i].id == id {
            return Option::Some(i);
        }
    }
    Option::None
}

/// Index of the first worker with the given host.
pub fn worker_index_by_host(ws: &Vec<Worker>, host: &String) -> (r: Option<usize>)
    ensures
        match r {
            Option::Some(i) => first_host_at(ws@, host@, i as int),
            Option::None => !has_host(ws@, host@),
        },
{
    for i in 0..ws.len()
        invariant
            forall|k: int| 0 <= k < i ==> ws@[k].host@ != host@,
    {
        if same_text(&ws[i].host, host) {
            return Option::Some(i);
        }
    }
    Option::None
}

/// Mutable access to one element, leaving the rest of the vector as it was.
pub(crate) fn at_mut<T>(v: &mut Vec<T>, i: usize) -> (e: &mut T)
    requires
        i < old(v).len(),
    ensures
        *e == old(v)@[i as int],
        final(v)@ == old(v)@.update(i as int, *final(e)),
{
    &mut v[i]
}

// Output mutation.

/// The log gained `msg` — unless `msg` would repeat the latest entry,
/// in which case the log is untouched.
pub open spec fn appended(logs0: Seq<LogEntry>, logs1: Seq<LogEntry>, msg: Seq<char>) -> bool {
    if logs0.len() > 0 && logs0.last().what@ == msg {
        logs1 == logs0
    } else {
        &&& logs1.len() == logs0.len() + 1
        &&& logs1.drop_last() == logs0
        &&& logs1.last().what@ == msg
    }
}

/// How one recorded message at one level transforms an output.
pub open spec fn log_applied(o0: Output, o1: Output, msg: Seq<char>, level: LogLevel) -> bool {
    &&& o1.id == o0.id
    &&& o1.uri == o0.uri
    &&& o1.codec == o0.codec
    &&& o1.options == o0.options
    &&& o1.status == o0.status
    &&& o1.worker == o0.worker
    &&& appended(o0.logs@, o1.logs@, msg)
    &&& if o0.logs@.len() > 0 && o0.logs@.last().what@ == msg {
        o1.last_error == o0.last_error
    } else if level == LogLevel::Error {
        o1.last_error == Option::Some(o1.logs@.last())
    } else {
        o1.last_error == o0.last_error
    }
}

/// How `set_output_status` transforms the addressed output: the new status
/// and assignment are written, and entering `Running` is recorded in the log.
pub open spec fn status_set(o0: Output, o1: Output, status: Status, worker: Option<u128>) -> bool {
    &&& o1.id == o0.id
    &&& o1.uri == o0.uri
    &&& o1.codec == o0.codec
    &&& o1.options == o0.options
    &&& o1.status == status
    &&& o1.worker == worker
    &&& if status == Status::Running {
        appended(o0.logs@, o1.logs@, "Output is running"@)
    } else {
        o1.logs == o0.logs
    }
    &&& o1.last_error == o0.last_error
}

/// The stream's own fields, aside from its outputs, are as they were.
pub open spec fn stream_shell_eq(a: Stream, b: Stream) -> bool {
    &&& a.id == b.id
    &&& a.name == b.name
    &&& a.input == b.input
    &&& a.enabled == b.enabled
    &&& a.status == b.status
}

/// Full description of `set_output_status`: nothing but the first output
/// `output_id` of the first stream `stream_id` is touched, and that output
/// is transformed by `status_set`.
pub open spec fn set_output_status_post(
    ss0: Seq<Stream>,
    ss1: Seq<Stream>,
    stream_id: u128,
    output_id: u128,
    status: Status,
    worker: Option<u128>,
) -> bool {
    &&& ss1.len() == ss0.len()
    &&& !has_stream(ss0, stream_id) ==> ss1 == ss0
    &&& forall|i: int|
        first_stream_at(ss0, stream_id, i) ==> {
            &&& forall|k: int| 0 <= k < ss0.len() && k != i ==> ss1[k] == ss0[k]
            &&& stream_shell_eq(ss1[i], ss0[i])
            &&& ss1[i].output@.len() == ss0[i].output@.len()
            &&& !has_output(ss0[i].output@, output_id) ==> ss1[i] == ss0[i]
            &&& forall|j: int|
                first_output_at(ss0[i].output@, output_id, j) ==> {
                    &&& forall|l: int|
                        0 <= l < ss0[i].output@.len() && l != j
                            ==> ss1[i].output@[l] == ss0[i].output@[l]
                    &&& status_set(ss0[i].output@[j], ss1[i].output@[j], status, worker)
                }
        }
}

/// Set the status and assignment of one output.
///
/// A `Running` output is always given its worker, so the store never holds
/// a running output without an assignment.
pub fn set_output_status(
    streams: &mut Vec<Stream>,
    stream_id: u128,
    output_id: u128,
    status: Status,
    worker: Option<u128>,
)
    requires
        status == Status::Running ==> worker is Some,
    ensures
        set_output_status_post(old(streams)@, final(streams)@, stream_id, output_id, status, worker),
{
    let found = stream_index(streams, stream_id);
    match found {
        Option::None => {},
        Option::Some(i) => {
            let s = at_mut(streams, i);
            let found_out = output_index(&s.output, output_id);
            match found_out {
                Option::None => {},
                Option::Some(j) => {
                    let o = at_mut(&mut s.output, j);
                    o.worker = worker;
                    o.status = status;
                    if status == Status::Running {
                        record(o, "Output is running", LogLevel::Info);
                    }
                },
            }
        },
    }
}

/// Record `msg` at `level` in an output's log: append unless it would
/// repeat the latest entry, and remember error-level entries.
pub(crate) fn record(o: &mut Output, msg: &str, level: LogLevel)
    ensures
        log_applied(*old(o), *final(o), msg@, level),
{
    let n = o.logs.len();
    if n > 0 && same_text(&o.logs[n - 1].what, &msg.to_owned()) {
        return ;
    }
    let entry = LogEntry { when: now_rfc3339(), what: msg.to_owned() };
    if level == LogLevel::Error {
        o.last_error = Option::Some(LogEntry { when: entry.when.clone(), what: entry.what.clone() });
    }
    o.logs.push(entry);
    proof {
        assert(o.logs@.drop_last() =~= old(o).logs@);
    }
}

/// Full description of `log_output`: nothing but the log and last error of
/// the addressed output is touched.
pub open spec fn log_output_post(
    ss0: Seq<Stream>,
    ss1: Seq<Stream>,
    stream_id: u128,
    output_id: u128,
    msg: Seq<char>,
    level: LogLevel,
) -> bool {
    &&& ss1.len() == ss0.len()
    &&& !has_stream(ss0, stream_id) ==> ss1 == ss0
    &&& forall|i: int|
        first_stream_at(ss0, stream_id, i) ==> {
            &&& forall|k: int| 0 <= k < ss0.len() && k != i ==> ss1[k] == ss0[k]
            &&& stream_shell_eq(ss1[i], ss0[i])
            &&& ss1[i].output@.len() == ss0[i].output@.len()
            &&& !has_output(ss0[i].output@, output_id) ==> ss1[i] == ss0[i]
            &&& forall|j: int|
                first_output_at(ss0[i].output@, output_id, j) ==> {
                    &&& forall|l: int|
                        0 <= l < ss0[i].output@.len() && l != j
                            ==> ss1[i].output@[l] == ss0[i].output@[l]
                    &&& log_applied(ss0[i].output@[j], ss1[i].output@[j], msg, level)
                }
        }
}

/// Record a message in the log of one output.
pub fn log_output(
    streams: &mut Vec<Stream>,
    stream_id: u128,
    output_id: u128,
    msg: &str,
    level: LogLevel,
)
    ensures
        log_output_post(old(streams)@, final(streams)@, stream_id, output_id, msg@, level),
{
    let found = stream_index(streams, stream_id);
    match found {
        Option::None => {},
        Option::Some(i) => {
            let s = at_mut(streams, i);
            let found_out = output_index(&s.output, output_id);
            match found_out {
                Option::None => {},
                Option::Some(j) => {
                    let o = at_mut(&mut s.output, j);
                    record(o, msg, level);
                },
            }
        },
    }
}

// Aggregate stream status.

/// Every output of the stream is confirmed running.
pub open spec fn all_outputs_running(s: Stream) -> bool {
    forall|j: int| 0 <= j < s.output@.len() ==> s.output@[j].status == Status::Running
}

/// The stream is as it was but for its aggregate status.
pub open spec fn with_status(s0: Stream, s1: Stream, status: Status) -> bool {
    &&& s1.id == s0.id
    &&& s1.name == s0.name
    &&& s1.input == s0.input
    &&& s1.output == s0.output
    &&& s1.enabled == s0.enabled
    &&& s1.status == status
}

/// The aggregate status a stream's outputs dictate: `Running` exactly when
/// every output runs, `Creating` otherwise.
pub open spec fn computed_status(s: Stream) -> Status {
    if all_outputs_running(s) {
        Status::Running
    } else {
        Status::Creating
    }
}

/// Recompute one stream's aggregate status and report whether every output
/// of it is running. A stream that is not in the store is reported running.
pub fn check_all_outputs_running(streams: &mut Vec<Stream>, stream_id: u128) -> (r: bool)
    ensures
        final(streams)@.len() == old(streams)@.len(),
        !has_stream(old(streams)@, stream_id) ==> final(streams)@ == old(streams)@ && r,
        forall|i: int|
            first_stream_at(old(streams)@, stream_id, i) ==> {
                &&& forall|k: int|
                    0 <= k < old(streams)@.len() && k != i
                        ==> final(streams)@[k] == old(streams)@[k]
                &&& r == all_outputs_running(old(streams)@[i])
                &&& with_status(old(streams)@[i], final(streams)@[i], computed_status(old(streams)@[i]))
            },
{
    let found = stream_index(streams, stream_id);
    match found {
        Option::None => true,
        Option::Some(i) => {
            let s = at_mut(streams, i);
            let mut all_up = true;
            for j in 0..s.output.len()
                invariant
                    all_up == (forall|k: int|
                        0 <= k < j ==> s.output@[k].status == Status::Running),
                    *s == old(streams)@[i as int],
            {
                if s.output[j].status != Status::Running {
                    all_up = false;
                }
            }
            if all_up {
                s.status = Status::Running;
            } else {
                s.status = Status::Creating;
            }
            all_up
        },
    }
}

/// Recompute the aggregate status of every stream from its outputs.
pub fn update_stream_state(streams: &mut Vec<Stream>)
    ensures
        final(streams)@.len() == old(streams)@.len(),
        forall|i: int|
            0 <= i < old(streams)@.len()
                ==> with_status(
                old(streams)@[i],
                final(streams)@[i],
                computed_status(old(streams)@[i]),
            ),
{
    let n = streams.len();
    let mut i: usize = 0;
    while i < n
        invariant
            n == streams@.len() == old(streams)@.len(),
            0 <= i <= n,
            forall|k: int| i <= k < n ==> streams@[k] == old(streams)@[k],
            forall|k: int|
                0 <= k < i ==> with_status(
                    old(streams)@[k],
                    streams@[k],
                    computed_status(old(streams)@[k]),
                ),
        decreases n - i,
    {
        let s = at_mut(streams, i);
        let mut all_up = true;
        for j in 0..s.output.len()
            invariant
                all_up == (forall|k: int| 0 <= k < j ==> s.output@[k].status == Status::Running),
                *s == old(streams)@[i as int],
        {
            if s.output[j].status != Status::Running {
                all_up = false;
            }
        }
        if all_up {
            s.status = Status::Running;
        } else {
            s.status = Status::Creating;
        }
        i += 1;
    }
}

// Snapshots.

/// A point-in-time copy of both collections.
pub fn dump(streams: &Vec<Stream>, workers: &Vec<Worker>) -> (r: StateDump)
    ensures
        crate::model::streams_eq(r.streams@, streams@),
        crate::model::workers_eq(r.workers@, workers@),
{
    StateDump { streams: copy_streams(streams), workers: copy_workers(workers) }
}

// The operations the management layer is backed by.

/// Why a management operation was refused.
#[derive(Debug, Clone, Copy, PartialEq, Eq, Structural)]
pub enum StoreError {
    /// No entity carries the given identifier.
    NotFound,
    /// A worker with the given host already exists.
    Conflict,
}

/// What a new stream's output is asked to be.
pub struct NewOutput {
    pub uri: String,
    pub codec: Codec,
    pub options: Option<Options>,
}

/// The output was built from the request: desired but not yet placed.
pub open spec fn output_created(o: Output, q: NewOutput) -> bool {
    &&& o.uri@ == q.uri@
    &&& o.codec == q.codec
    &&& opt_options_eq(o.options, q.options)
    &&& o.status == Status::Creating
    &&& o.worker is None
    &&& o.logs@.len() == 0
    &&& o.last_error is None
}

/// The stream was built from the request: enabled, not yet running.
pub open spec fn stream_created(
    s: Stream,
    name: Seq<char>,
    input: Seq<char>,
    reqs: Seq<NewOutput>,
) -> bool {
    &&& s.name@ == name
    &&& s.input@ == input
    &&& s.enabled
    &&& s.status == Status::Creating
    &&& s.output@.len() == reqs.len()
    &&& forall|j: int| 0 <= j < reqs.len() ==> output_created(#[trigger] s.output@[j], reqs[j])
}

/// Append a new stream built from the request, and return a copy of it.
pub fn create_stream(
    streams: &mut Vec<Stream>,
    name: String,
    input: String,
    outputs: &Vec<NewOutput>,
) -> (r: Stream)
    ensures
        final(streams)@.len() == old(streams)@.len() + 1,
        final(streams)@.drop_last() == old(streams)@,
        stream_created(final(streams)@.last(), name@, input@, outputs@),
        stream_eq(r, final(streams)@.last()),
{
    let mut outs: Vec<Output> = Vec::new();
    for j in 0..outputs.len()
        invariant
            outs@.len() == j,
            forall|k: int| 0 <= k < j ==> output_created(#[trigger] outs@[k], outputs@[k]),
    {
        outs.push(
            Output {
                id: fresh_id(),
                uri: copy_text(&outputs[j].uri),
                codec: outputs[j].codec,
                options: copy_opt_options(&outputs[j].options),
                status: Status::Creating,
                worker: Option::None,
                logs: Vec::new(),
                last_error: Option::None,
            },
        );
    }
    let s = Stream {
        id: fresh_id(),
        name,
        input,
        output: outs,
        enabled: true,
        status: Status::Creating,
    };
    let r = copy_stream(&s);
    streams.push(s);
    proof {
        assert(final(streams)@.drop_last() =~= old(streams)@);
    }
    r
}

/// A copy of the first stream with the given identifier, if any.
pub fn get_stream(streams: &Vec<Stream>, id: u128) -> (r: Option<Stream>)
    ensures
        match r {
            Option::Some(c) => has_stream(streams@, id) && forall|i: int|
                first_stream_at(streams@, id, i) ==> stream_eq(c, streams@[i]),
            Option::None => !has_stream(streams@, id),
        },
{
    let found = stream_index(streams, id);
    match found {
        Option::Some(i) => Option::Some(copy_stream(&streams[i])),
        Option::None => Option::None,
    }
}

/// Remove the first stream with the given identifier.
pub fn remove_stream(streams: &mut Vec<Stream>, id: u128) -> (r: Result<(), StoreError>)
    ensures
        !has_stream(old(streams)@, id) ==> r == Result::<(), StoreError>::Err(StoreError::NotFound)
            && final(streams)@ == old(streams)@,
        forall|i: int|
            first_stream_at(old(streams)@, id, i) ==> r is Ok && final(streams)@ == old(
                streams,
            )@.remove(i),
{
    let found = stream_index(streams, id);
    match found {
        Option::Some(i) => {
            streams.remove(i);
            Result::Ok(())
        },
        Option::None => Result::Err(StoreError::NotFound),
    }
}

/// Replace the first stream with the given identifier by `s`.
pub fn replace_stream(streams: &mut Vec<Stream>, id: u128, s: Stream) -> (r: Result<
    (),
    StoreError,
>)
    ensures
        !has_stream(old(streams)@, id) ==> r == Result::<(), StoreError>::Err(StoreError::NotFound)
            && final(streams)@ == old(streams)@,
        forall|i: int|
            first_stream_at(old(streams)@, id, i) ==> r is Ok && final(streams)@ == old(
                streams,
            )@.update(i, s),
{
    let found = stream_index(streams, id);
    match found {
        Option::Some(i) => {
            let e = at_mut(streams, i);
            *e = s;
            Result::Ok(())
        },
        Option::None => Result::Err(StoreError::NotFound),
    }
}

/// The worker was built from the request: just configured, assumed busy
/// until it reports, with nothing observed of it yet.
pub open spec fn worker_created(
    w: Worker,
    protocol: Option<String>,
    host: Seq<char>,
    public_ip: Option<String>,
) -> bool {
    &&& w.protocol@ == (match protocol {
        Option::Some(p) => p@,
        Option::None => "http"@,
    })
    &&& w.host@ == host
    &&& opt_text_eq(w.public_ip, public_ip)
    &&& w.udp_ports@.len() == 0
    &&& w.codecs@.len() == 0
    &&& w.encoder is None
    &&& w.status == WorkerStatus::Configuring
    &&& w.stats.utilization == 100
    &&& w.stats.devices@.len() == 0
    &&& w.server is None
    &&& w.streams is None
}

/// Append a new worker unless its host is already taken, and return a copy
/// of what was appended.
pub fn create_worker(
    workers: &mut Vec<Worker>,
    protocol: Option<String>,
    host: String,
    public_ip: Option<String>,
) -> (r: Result<Worker, StoreError>)
    ensures
        has_host(old(workers)@, host@) ==> r == Result::<Worker, StoreError>::Err(
            StoreError::Conflict,
        ) && final(workers)@ == old(workers)@,
        !has_host(old(workers)@, host@) ==> {
            &&& final(workers)@.len() == old(workers)@.len() + 1
            &&& final(workers)@.drop_last() == old(workers)@
            &&& worker_created(final(workers)@.last(), protocol, host@, public_ip)
            &&& r matches Result::Ok(w) && worker_eq(w, final(workers)@.last())
        },
{
    let taken = worker_index_by_host(workers, &host);
    match taken {
        Option::Some(_) => Result::Err(StoreError::Conflict),
        Option::None => {
            let proto = match protocol {
                Option::Some(p) => p,
                Option::None => "http".to_owned(),
            };
            let w = Worker {
                id: fresh_id(),
                protocol: proto,
                host,
                public_ip,
                udp_ports: Vec::new(),
                codecs: Vec::new(),
                encoder: Option::None,
                status: WorkerStatus::Configuring,
                stats: WorkerStats { utilization: 100, devices: Vec::new() },
                server: Option::None,
                streams: Option::None,
            };
            let r = copy_worker(&w);
            workers.push(w);
            proof {
                assert(final(workers)@.drop_last() =~= old(workers)@);
            }
            Result::Ok(r)
        },
    }
}

/// A copy of the first worker with the given identifier, if any.
pub fn get_worker(workers: &Vec<Worker>, id: u128) -> (r: Option<Worker>)
    ensures
        match r {
            Option::Some(c) => has_worker(workers@, id) && forall|i: int|
                first_worker_at(workers@, id, i) ==> worker_eq(c, workers@[i]),
            Option::None => !has_worker(workers@, id),
        },
{
    let found = worker_index(workers, id);
    match found {
        Option::Some(i) => Option::Some(copy_worker(&workers[i])),
        Option::None => Option::None,
    }
}

/// Remove the first worker with the given identifier.
pub fn remove_worker(workers: &mut Vec<Worker>, id: u128) -> (r: Result<(), StoreError>)
    ensures
        !has_worker(old(workers)@, id) ==> r == Result::<(), StoreError>::Err(StoreError::NotFound)
            && final(workers)@ == old(workers)@,
        forall|i: int|
            first_worker_at(old(workers)@, id, i) ==> r is Ok && final(workers)@ == old(
                workers,
            )@.remove(i),
{
    let found = worker_index(workers, id);
    match found {
        Option::Some(i) => {
            workers.remove(i);
            Result::Ok(())
        },
        Option::None => Result::Err(StoreError::NotFound),
    }
}

/// Replace the first worker with the given identifier by `w`.
pub fn replace_worker(workers: &mut Vec<Worker>, id: u128, w: Worker) -> (r: Result<
    (),
    StoreError,
>)
    ensures
        !has_worker(old(workers)@, id) ==> r == Result::<(), StoreError>::Err(StoreError::NotFound)
            && final(workers)@ == old(workers)@,
        forall|i: int|
            first_worker_at(old(workers)@, id, i) ==> r is Ok && final(workers)@ == old(
                workers,
            )@.update(i, w),
{
    let found = worker_index(workers, id);
    match found {
        Option::Some(i) => {
            let e = at_mut(workers, i);
            *e = w;
            Result::Ok(())
        },
        Option::None => Result::Err(StoreError::NotFound),
    }
}

/// Clear both collections.
pub fn reset_state(streams: &mut Vec<Stream>, workers: &mut Vec<Worker>)
    ensures
        final(streams)@.len() == 0,
        final(workers)@.len() == 0,
{
    streams.clear();
    workers.clear();
}

} // verus!
