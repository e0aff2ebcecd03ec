//! The entities the control plane tracks: workers, streams and their
//! outputs, and the snapshot that persists them.
//!
//! Entity identifiers are 128-bit values (the management layer renders them
//! as UUIDs). Equality of entities is stated over views, so that two
//! structurally equal values compare equal whatever their allocations.

use vstd::prelude::*;

use crate::codec::Codec;
use crate::codec::Encoder;

verus! {

/// Lifecycle of a stream or of one of its outputs.
#[derive(Debug, Clone, Copy, PartialEq, Eq, Structural)]
pub enum Status {
    Creating,
    Running,
    Stopping,
    Finished,
}

/// Health of a worker as last observed.
#[derive(Debug, Clone, Copy, PartialEq, Eq, Structural)]
pub enum WorkerStatus {
    Configuring,
    Up,
    Crashed,
}

/// Severity of an output log entry.
#[derive(Debug, Clone, Copy, PartialEq, Eq, Structural)]
pub enum LogLevel {
    Debug,
    Info,
    Error,
}

/// One timestamped message in an output's log.
#[derive(Debug, Clone)]
pub struct LogEntry {
    /// When the message was recorded, as the clock rendered it.
    pub when: String,
    /// The message itself.
    pub what: String,
}

/// Optional encode settings of an output.
#[derive(Debug, Clone)]
pub struct Options {
    pub pixel_format: Option<String>,
    pub bitrate: Option<String>,
    pub framerate: Option<String>,
    pub gop_size: Option<String>,
    pub debug_text: Option<bool>,
    pub output_format: Option<String>,
}

/// One destination encode of a stream.
#[derive(Debug, Clone)]
pub struct Output {
    pub id: u128,
    /// Destination URI.
    pub uri: String,
    pub codec: Codec,
    pub options: Option<Options>,
    pub status: Status,
    /// The worker this output is assigned to, if any.
    pub worker: Option<u128>,
    /// Append-only log; consecutive duplicate messages are not recorded.
    pub logs: Vec<LogEntry>,
    /// The most recent error-level log entry, if any.
    pub last_error: Option<LogEntry>,
}

/// A named transcoding job: one input, one or more outputs.
#[derive(Debug, Clone)]
pub struct Stream {
    pub id: u128,
    pub name: String,
    /// Input source URI.
    pub input: String,
    pub output: Vec<Output>,
    pub enabled: bool,
    /// Aggregate status, recomputed from the outputs every tick.
    pub status: Status,
}

/// Load statistics a worker reports.
#[derive(Debug, Clone)]
pub struct WorkerStats {
    /// Utilization scalar; 100 is nominally full.
    pub utilization: u32,
    /// Per-device utilization.
    pub devices: Vec<u32>,
}

/// A remote transcoding process.
#[derive(Debug, Clone)]
pub struct Worker {
    pub id: u128,
    /// URI scheme used to reach the worker.
    pub protocol: String,
    /// Natural key: unique across the fleet.
    pub host: String,
    pub public_ip: Option<String>,
    pub udp_ports: Vec<u16>,
    /// Codecs the worker reported it supports.
    pub codecs: Vec<Codec>,
    /// Hardware encoder class, if the worker reported one.
    pub encoder: Option<Encoder>,
    pub status: WorkerStatus,
    pub stats: WorkerStats,
    /// Server identity string the worker last reported.
    pub server: Option<String>,
    /// Stream count the worker last reported.
    pub streams: Option<u32>,
}

/// A point-in-time copy of both collections; the unit of persistence.
#[derive(Debug, Clone)]
pub struct StateDump {
    pub streams: Vec<Stream>,
    pub workers: Vec<Worker>,
}

// View-level equality.
//
// String contents decide equality, not identity, so each entity has a
// spec predicate comparing views field by field, and an executable
// function proved to decide it.

/// The views of two optional strings agree.
pub open spec fn opt_text_eq(a: Option<String>, b: Option<String>) -> bool {
    match (a, b) {
        (Option::Some(x), Option::Some(y)) => x@ == y@,
        (Option::None, Option::None) => true,
        _ => false,
    }
}

pub open spec fn log_entry_eq(a: LogEntry, b: LogEntry) -> bool {
    a.when@ == b.when@ && a.what@ == b.what@
}

pub open spec fn logs_eq(a: Seq<LogEntry>, b: Seq<LogEntry>) -> bool {
    &&& a.len() == b.len()
    &&& forall|i: int| 0 <= i < a.len() ==> log_entry_eq(#[trigger] a[i], #[trigger] b[i])
}

pub open spec fn opt_log_entry_eq(a: Option<LogEntry>, b: Option<LogEntry>) -> bool {
    match (a, b) {
        (Option::Some(x), Option::Some(y)) => log_entry_eq(x, y),
        (Option::None, Option::None) => true,
        _ => false,
    }
}

pub open spec fn options_eq(a: Options, b: Options) -> bool {
    &&& opt_text_eq(a.pixel_format, b.pixel_format)
    &&& opt_text_eq(a.bitrate, b.bitrate)
    &&& opt_text_eq(a.framerate, b.framerate)
    &&& opt_text_eq(a.gop_size, b.gop_size)
    &&& a.debug_text == b.debug_text
    &&& opt_text_eq(a.output_format, b.output_format)
}

pub open spec fn opt_options_eq(a: Option<Options>, b: Option<Options>) -> bool {
    match (a, b) {
        (Option::Some(x), Option::Some(y)) => options_eq(x, y),
        (Option::None, Option::None) => true,
        _ => false,
    }
}

pub open spec fn output_eq(a: Output, b: Output) -> bool {
    &&& a.id == b.id
    &&& a.uri@ == b.uri@
    &&& a.codec == b.codec
    &&& opt_options_eq(a.options, b.options)
    &&& a.status == b.status
    &&& a.worker == b.worker
    &&& logs_eq(a.logs@, b.logs@)
    &&& opt_log_entry_eq(a.last_error, b.last_error)
}

pub open spec fn outputs_eq(a: Seq<Output>, b: Seq<Output>) -> bool {
    &&& a.len() == b.len()
    &&& forall|i: int| 0 <= i < a.len() ==> output_eq(#[trigger] a[i], #[trigger] b[i])
}

pub open spec fn stream_eq(a: Stream, b: Stream) -> bool {
    &&& a.id == b.id
    &&& a.name@ == b.name@
    &&& a.input@ == b.input@
    &&& outputs_eq(a.output@, b.output@)
    &&& a.enabled == b.enabled
    &&& a.status == b.status
}

pub open spec fn streams_eq(a: Seq<Stream>, b: Seq<Stream>) -> bool {
    &&& a.len() == b.len()
    &&& forall|i: int| 0 <= i < a.len() ==> stream_eq(#[trigger] a[i], #[trigger] b[i])
}

pub open spec fn worker_eq(a: Worker, b: Worker) -> bool {
    &&& a.id == b.id
    &&& a.protocol@ == b.protocol@
    &&& a.host@ == b.host@
    &&& opt_text_eq(a.public_ip, b.public_ip)
    &&& a.udp_ports@ == b.udp_ports@
    &&& a.codecs@ == b.codecs@
    &&& a.encoder == b.encoder
    &&& a.status == b.status
    &&& a.stats.utilization == b.stats.utilization
    &&& a.stats.devices@ == b.stats.devices@
    &&& opt_text_eq(a.server, b.server)
    &&& a.streams == b.streams
}

pub open spec fn workers_eq(a: Seq<Worker>, b: Seq<Worker>) -> bool {
    &&& a.len() == b.len()
    &&& forall|i: int| 0 <= i < a.len() ==> worker_eq(#[trigger] a[i], #[trigger] b[i])
}

pub open spec fn dump_eq(a: StateDump, b: StateDump) -> bool {
    streams_eq(a.streams@, b.streams@) && workers_eq(a.workers@, b.workers@)
}

// Well-formedness.

/// A running output is always assigned to some worker.
pub open spec fn output_wf(o: Output) -> bool {
    o.status == Status::Running ==> o.worker is Some
}

pub open spec fn stream_wf(s: Stream) -> bool {
    forall|i: int| 0 <= i < s.output@.len() ==> output_wf(#[trigger] s.output@[i])
}

pub open spec fn streams_wf(ss: Seq<Stream>) -> bool {
    forall|i: int| 0 <= i < ss.len() ==> stream_wf(#[trigger] ss[i])
}

// Executable equality deciders.

/// Decides equality of two strings by contents.
pub fn same_text(a: &String, b: &String) -> (r: bool)
    ensures
        r == (a@ == b@),
{
    *a == *b
}

pub fn same_opt_text(a: &Option<String>, b: &Option<String>) -> (r: bool)
    ensures
        r == opt_text_eq(*a, *b),
{
    match (a, b) {
        (Option::Some(x), Option::Some(y)) => same_text(x, y),
        (Option::None, Option::None) => true,
        _ => false,
    }
}

pub fn same_opt_bool(a: &Option<bool>, b: &Option<bool>) -> (r: bool)
    ensures
        r == (*a == *b),
{
    match (a, b) {
        (Option::Some(x), Option::Some(y)) => *x == *y,
        (Option::None, Option::None) => true,
        _ => false,
    }
}

pub fn same_opt_id(a: &Option<u128>, b: &Option<u128>) -> (r: bool)
    ensures
        r == (*a == *b),
{
    match (a, b) {
        (Option::Some(x), Option::Some(y)) => *x == *y,
        (Option::None, Option::None) => true,
        _ => false,
    }
}

pub fn same_opt_u32(a: &Option<u32>, b: &Option<u32>) -> (r: bool)
    ensures
        r == (*a == *b),
{
    match (a, b) {
        (Option::Some(x), Option::Some(y)) => *x == *y,
        (Option::None, Option::None) => true,
        _ => false,
    }
}

pub fn same_opt_encoder(a: &Option<Encoder>, b: &Option<Encoder>) -> (r: bool)
    ensures
        r == (*a == *b),
{
    match (a, b) {
        (Option::Some(x), Option::Some(y)) => *x == *y,
        (Option::None, Option::None) => true,
        _ => false,
    }
}

pub fn same_u16s(a: &Vec<u16>, b: &Vec<u16>) -> (r: bool)
    ensures
        r == (a@ == b@),
{
    if a.len() != b.len() {
        return false;
    }
    for i in 0..a.len()
        invariant
            a@.len() == b@.len(),
            forall|k: int| 0 <= k < i ==> a@[k] == b@[k],
    {
        if a[i] != b[i] {
            return false;
        }
    }
    proof {
        assert(a@ =~= b@);
    }
    true
}

pub fn same_u32s(a: &Vec<u32>, b: &Vec<u32>) -> (r: bool)
    ensures
        r == (a@ == b@),
{
    if a.len() != b.len() {
        return false;
    }
    for i in 0..a.len()
        invariant
            a@.len() == b@.len(),
            forall|k: int| 0 <= k < i ==> a@[k] == b@[k],
    {
        if a[i] != b[i] {
            return false;
        }
    }
    proof {
        assert(a@ =~= b@);
    }
    true
}

pub fn same_codecs(a: &Vec<Codec>, b: &Vec<Codec>) -> (r: bool)
    ensures
        r == (a@ == b@),
{
    if a.len() != b.len() {
        return false;
    }
    for i in 0..a.len()
        invariant
            a@.len() == b@.len(),
            forall|k: int| 0 <= k < i ==> a@[k] == b@[k],
    {
        if a[i] != b[i] {
            return false;
        }
    }
    proof {
        assert(a@ =~= b@);
    }
    true
}

pub fn same_log_entry(a: &LogEntry, b: &LogEntry) -> (r: bool)
    ensures
        r == log_entry_eq(*a, *b),
{
    same_text(&a.when, &b.when) && same_text(&a.what, &b.what)
}

pub fn same_logs(a: &Vec<LogEntry>, b: &Vec<LogEntry>) -> (r: bool)
    ensures
        r == logs_eq(a@, b@),
{
    if a.len() != b.len() {
        return false;
    }
    for i in 0..a.len()
        invariant
            a@.len() == b@.len(),
            forall|k: int| 0 <= k < i ==> log_entry_eq(#[trigger] a@[k], #[trigger] b@[k]),
    {
        if !same_log_entry(&a[i], &b[i]) {
            return false;
        }
    }
    true
}

pub fn same_opt_log_entry(a: &Option<LogEntry>, b: &Option<LogEntry>) -> (r: bool)
    ensures
        r == opt_log_entry_eq(*a, *b),
{
    match (a, b) {
        (Option::Some(x), Option::Some(y)) => same_log_entry(x, y),
        (Option::None, Option::None) => true,
        _ => false,
    }
}

pub fn same_options(a: &Options, b: &Options) -> (r: bool)
    ensures
        r == options_eq(*a, *b),
{
    same_opt_text(&a.pixel_format, &b.pixel_format)
        && same_opt_text(&a.bitrate, &b.bitrate)
        && same_opt_text(&a.framerate, &b.framerate)
        && same_opt_text(&a.gop_size, &b.gop_size)
        && same_opt_bool(&a.debug_text, &b.debug_text)
        && same_opt_text(&a.output_format, &b.output_format)
}

pub fn same_opt_options(a: &Option<Options>, b: &Option<Options>) -> (r: bool)
    ensures
        r == opt_options_eq(*a, *b),
{
    match (a, b) {
        (Option::Some(x), Option::Some(y)) => same_options(x, y),
        (Option::None, Option::None) => true,
        _ => false,
    }
}

pub fn same_output(a: &Output, b: &Output) -> (r: bool)
    ensures
        r == output_eq(*a, *b),
{
    a.id == b.id
        && same_text(&a.uri, &b.uri)
        && a.codec == b.codec
        && same_opt_options(&a.options, &b.options)
        && a.status == b.status
        && same_opt_id(&a.worker, &b.worker)
        && same_logs(&a.logs, &b.logs)
        && same_opt_log_entry(&a.last_error, &b.last_error)
}

pub fn same_outputs(a: &Vec<Output>, b: &Vec<Output>) -> (r: bool)
    ensures
        r == outputs_eq(a@, b@),
{
    if a.len() != b.len() {
        return false;
    }
    for i in 0..a.len()
        invariant
            a@.len() == b@.len(),
            forall|k: int| 0 <= k < i ==> output_eq(#[trigger] a@[k], #[trigger] b@[k]),
    {
        if !same_output(&a[i], &b[i]) {
            return false;
        }
    }
    true
}

pub fn same_stream(a: &Stream, b: &Stream) -> (r: bool)
    ensures
        r == stream_eq(*a, *b),
{
    a.id == b.id
        && same_text(&a.name, &b.name)
        && same_text(&a.input, &b.input)
        && same_outputs(&a.output, &b.output)
        && a.enabled == b.enabled
        && a.status == b.status
}

pub fn same_streams(a: &Vec<Stream>, b: &Vec<Stream>) -> (r: bool)
    ensures
        r == streams_eq(a@, b@),
{
    if a.len() != b.len() {
        return false;
    }
    for i in 0..a.len()
        invariant
            a@.len() == b@.len(),
            forall|k: int| 0 <= k < i ==> stream_eq(#[trigger] a@[k], #[trigger] b@[k]),
    {
        if !same_stream(&a[i], &b[i]) {
            return false;
        }
    }
    true
}

pub fn same_worker(a: &Worker, b: &Worker) -> (r: bool)
    ensures
        r == worker_eq(*a, *b),
{
    a.id == b.id
        && same_text(&a.protocol, &b.protocol)
        && same_text(&a.host, &b.host)
        && same_opt_text(&a.public_ip, &b.public_ip)
        && same_u16s(&a.udp_ports, &b.udp_ports)
        && same_codecs(&a.codecs, &b.codecs)
        && same_opt_encoder(&a.encoder, &b.encoder)
        && a.status == b.status
        && a.stats.utilization == b.stats.utilization
        && same_u32s(&a.stats.devices, &b.stats.devices)
        && same_opt_text(&a.server, &b.server)
        && same_opt_u32(&a.streams, &b.streams)
}

pub fn same_workers(a: &Vec<Worker>, b: &Vec<Worker>) -> (r: bool)
    ensures
        r == workers_eq(a@, b@),
{
    if a.len() != b.len() {
        return false;
    }
    for i in 0..a.len()
        invariant
            a@.len() == b@.len(),
            forall|k: int| 0 <= k < i ==> worker_eq(#[trigger] a@[k], #[trigger] b@[k]),
    {
        if !same_worker(&a[i], &b[i]) {
            return false;
        }
    }
    true
}

/// Decides whether two snapshots hold the same state.
pub fn same_dump(a: &StateDump, b: &StateDump) -> (r: bool)
    ensures
        r == dump_eq(*a, *b),
{
    same_streams(&a.streams, &b.streams) && same_workers(&a.workers, &b.workers)
}

// Deep copies.
//
// The store hands out copies, never references, so every entity has a
// copy function proved equal to its source under the predicates above.

pub fn copy_text(s: &String) -> (r: String)
    ensures
        r@ == s@,
{
    s.clone()
}

pub fn copy_opt_text(s: &Option<String>) -> (r: Option<String>)
    ensures
        opt_text_eq(r, *s),
{
    match s {
        Option::Some(x) => Option::Some(x.clone()),
        Option::None => Option::None,
    }
}

pub fn copy_log_entry(e: &LogEntry) -> (r: LogEntry)
    ensures
        log_entry_eq(r, *e),
{
    LogEntry { when: e.when.clone(), what: e.what.clone() }
}

pub fn copy_logs(l: &Vec<LogEntry>) -> (r: Vec<LogEntry>)
    ensures
        logs_eq(r@, l@),
{
    let mut r: Vec<LogEntry> = Vec::new();
    for i in 0..l.len()
        invariant
            r@.len() == i,
            forall|k: int| 0 <= k < i ==> log_entry_eq(#[trigger] r@[k], #[trigger] l@[k]),
    {
        r.push(copy_log_entry(&l[i]));
    }
    r
}

pub fn copy_opt_log_entry(e: &Option<LogEntry>) -> (r: Option<LogEntry>)
    ensures
        opt_log_entry_eq(r, *e),
{
    match e {
        Option::Some(x) => Option::Some(copy_log_entry(x)),
        Option::None => Option::None,
    }
}

pub fn copy_options(o: &Options) -> (r: Options)
    ensures
        options_eq(r, *o),
{
    Options {
        pixel_format: copy_opt_text(&o.pixel_format),
        bitrate: copy_opt_text(&o.bitrate),
        framerate: copy_opt_text(&o.framerate),
        gop_size: copy_opt_text(&o.gop_size),
        debug_text: o.debug_text,
        output_format: copy_opt_text(&o.output_format),
    }
}

pub fn copy_opt_options(o: &Option<Options>) -> (r: Option<Options>)
    ensures
        opt_options_eq(r, *o),
{
    match o {
        Option::Some(x) => Option::Some(copy_options(x)),
        Option::None => Option::None,
    }
}

pub fn copy_output(o: &Output) -> (r: Output)
    ensures
        output_eq(r, *o),
{
    Output {
        id: o.id,
        uri: o.uri.clone(),
        codec: o.codec,
        options: copy_opt_options(&o.options),
        status: o.status,
        worker: o.worker,
        logs: copy_logs(&o.logs),
        last_error: copy_opt_log_entry(&o.last_error),
    }
}

pub fn copy_outputs(l: &Vec<Output>) -> (r: Vec<Output>)
    ensures
        outputs_eq(r@, l@),
{
    let mut r: Vec<Output> = Vec::new();
    for i in 0..l.len()
        invariant
            r@.len() == i,
            forall|k: int| 0 <= k < i ==> output_eq(#[trigger] r@[k], #[trigger] l@[k]),
    {
        r.push(copy_output(&l[i]));
    }
    r
}

pub fn copy_stream(s: &Stream) -> (r: Stream)
    ensures
        stream_eq(r, *s),
{
    Stream {
        id: s.id,
        name: s.name.clone(),
        input: s.input.clone(),
        output: copy_outputs(&s.output),
        enabled: s.enabled,
        status: s.status,
    }
}

pub fn copy_streams(l: &Vec<Stream>) -> (r: Vec<Stream>)
    ensures
        streams_eq(r@, l@),
{
    let mut r: Vec<Stream> = Vec::new();
    for i in 0..l.len()
        invariant
            r@.len() == i,
            forall|k: int| 0 <= k < i ==> stream_eq(#[trigger] r@[k], #[trigger] l@[k]),
    {
        r.push(copy_stream(&l[i]));
    }
    r
}

pub fn copy_u16s(v: &Vec<u16>) -> (r: Vec<u16>)
    ensures
        r@ == v@,
{
    let mut r: Vec<u16> = Vec::new();
    for i in 0..v.len()
        invariant
            r@.len() == i,
            forall|k: int| 0 <= k < i ==> r@[k] == v@[k],
    {
        r.push(v[i]);
    }
    proof {
        assert(r@ =~= v@);
    }
    r
}

pub fn copy_u32s(v: &Vec<u32>) -> (r: Vec<u32>)
    ensures
        r@ == v@,
{
    let mut r: Vec<u32> = Vec::new();
    for i in 0..v.len()
        invariant
            r@.len() == i,
            forall|k: int| 0 <= k < i ==> r@[k] == v@[k],
    {
        r.push(v[i]);
    }
    proof {
        assert(r@ =~= v@);
    }
    r
}

pub fn copy_codecs(v: &Vec<Codec>) -> (r: Vec<Codec>)
    ensures
        r@ == v@,
{
    let mut r: Vec<Codec> = Vec::new();
    for i in 0..v.len()
        invariant
            r@.len() == i,
            forall|k: int| 0 <= k < i ==> r@[k] == v@[k],
    {
        r.push(v[i]);
    }
    proof {
        assert(r@ =~= v@);
    }
    r
}

pub fn copy_worker(w: &Worker) -> (r: Worker)
    ensures
        worker_eq(r, *w),
{
    Worker {
        id: w.id,
        protocol: w.protocol.clone(),
        host: w.host.clone(),
        public_ip: copy_opt_text(&w.public_ip),
        udp_ports: copy_u16s(&w.udp_ports),
        codecs: copy_codecs(&w.codecs),
        encoder: w.encoder,
        status: w.status,
        stats: WorkerStats { utilization: w.stats.utilization, devices: copy_u32s(&w.stats.devices) },
        server: copy_opt_text(&w.server),
        streams: w.streams,
    }
}

pub fn copy_workers(l: &Vec<Worker>) -> (r: Vec<Worker>)
    ensures
        workers_eq(r@, l@),
{
    let mut r: Vec<Worker> = Vec::new();
    for i in 0..l.len()
        invariant
            r@.len() == i,
            forall|k: int| 0 <= k < i ==> worker_eq(#[trigger] r@[k], #[trigger] l@[k]),
    {
        r.push(copy_worker(&l[i]));
    }
    r
}

} // verus!
