//! Placement: picking a worker for every output that awaits one.
//!
//! An output in `Creating` on an enabled stream is matched with an up
//! worker that supports its codec and carries the least utilization.
//! Whenever a later candidate ties the current best, a coin decides, so
//! among equally loaded workers the choice leans toward later entries of
//! the list — a deliberate, documented bias. The caller delivers the
//! start commands and reports back what the workers answered.

use vstd::prelude::*;

use crate::codec::Codec;
use crate::codec::codec_name;
use crate::model::LogLevel;
use crate::model::Options;
use crate::model::Output;
use crate::model::Status;
use crate::model::Stream;
use crate::model::Worker;
use crate::model::WorkerStatus;
use crate::model::copy_opt_options;
use crate::model::copy_text;
use crate::model::opt_options_eq;
use crate::outside::coin;
use crate::store::computed_status;
use crate::store::log_applied;
use crate::store::record;

verus! {

/// The worker can take the output: it is up and supports the codec.
pub open spec fn eligible(w: Worker, c: Codec) -> bool {
    w.status == WorkerStatus::Up && w.codecs@.contains(c)
}

pub open spec fn any_eligible(ws: Seq<Worker>, c: Codec) -> bool {
    exists|k: int| 0 <= k < ws.len() && eligible(#[trigger] ws[k], c)
}

/// Decides whether the codec list carries `c`.
pub fn contains_codec(v: &Vec<Codec>, c: Codec) -> (r: bool)
    ensures
        r == v@.contains(c),
{
    for i in 0..v.len()
        invariant
            forall|k: int| 0 <= k < i ==> v@[k] != c,
    {
        if v[i] == c {
            return true;
        }
    }
    false
}

/// Pick an eligible worker of least utilization for the codec, if any is.
///
/// Among equally loaded candidates the coin decides; whatever it shows,
/// the pick is eligible and no eligible worker is less loaded.
pub fn choose_worker(workers: &Vec<Worker>, c: Codec) -> (r: Option<usize>)
    ensures
        match r {
            Option::Some(i) => {
                &&& 0 <= i < workers@.len()
                &&& eligible(workers@[i as int], c)
                &&& forall|k: int|
                    0 <= k < workers@.len() && eligible(#[trigger] workers@[k], c)
                        ==> workers@[i as int].stats.utilization <= workers@[k].stats.utilization
            },
            Option::None => !any_eligible(workers@, c),
        },
{
    let mut best: Option<usize> = Option::None;
    let mut best_utilization: u32 = 0;
    for i in 0..workers.len()
        invariant
            match best {
                Option::Some(b) => {
                    &&& 0 <= b < i
                    &&& b < workers@.len()
                    &&& eligible(workers@[b as int], c)
                    &&& best_utilization == workers@[b as int].stats.utilization
                    &&& forall|k: int|
                        0 <= k < i && eligible(#[trigger] workers@[k], c) ==> best_utilization
                            <= workers@[k].stats.utilization
                },
                Option::None => forall|k: int| 0 <= k < i ==> !eligible(#[trigger] workers@[k], c),
            },
    {
        if workers[i].status == WorkerStatus::Up && contains_codec(&workers[i].codecs, c) {
            let u = workers[i].stats.utilization;
            match best {
                Option::None => {
                    best = Option::Some(i);
                    best_utilization = u;
                },
                Option::Some(_) => {
                    if u < best_utilization {
                        best = Option::Some(i);
                        best_utilization = u;
                    } else if u == best_utilization {
                        if coin() {
                            best = Option::Some(i);
                        }
                    }
                },
            }
        }
    }
    best
}

/// A start command the caller must deliver: run output `output_id` of
/// stream `stream_id` on the chosen worker, with this configuration.
pub struct Placement {
    pub stream_id: u128,
    pub output_id: u128,
    pub worker_id: u128,
    /// The chosen worker's scheme.
    pub protocol: String,
    /// The chosen worker's host.
    pub host: String,
    pub name: String,
    pub input: String,
    /// Destination URI of the output.
    pub uri: String,
    /// The codec under its ffmpeg name, as the worker expects it.
    pub codec: String,
    pub options: Option<Options>,
}

/// The placement pairs output `(i, j)` with worker `w`: the output awaits
/// placement, the worker is eligible and minimally loaded, and the command
/// carries exactly the desired configuration.
pub open spec fn placement_at(
    p: Placement,
    ss: Seq<Stream>,
    ws: Seq<Worker>,
    i: int,
    j: int,
    w: int,
) -> bool {
    &&& 0 <= i < ss.len()
    &&& 0 <= j < ss[i].output@.len()
    &&& 0 <= w < ws.len()
    &&& ss[i].enabled
    &&& ss[i].output@[j].status == Status::Creating
    &&& eligible(ws[w], ss[i].output@[j].codec)
    &&& forall|k: int|
        0 <= k < ws.len() && eligible(#[trigger] ws[k], ss[i].output@[j].codec)
            ==> ws[w].stats.utilization <= ws[k].stats.utilization
    &&& p.stream_id == ss[i].id
    &&& p.output_id == ss[i].output@[j].id
    &&& p.worker_id == ws[w].id
    &&& p.protocol@ == ws[w].protocol@
    &&& p.host@ == ws[w].host@
    &&& p.name@ == ss[i].name@
    &&& p.input@ == ss[i].input@
    &&& p.uri@ == ss[i].output@[j].uri@
    &&& p.codec@ == codec_name(ss[i].output@[j].codec)
    &&& opt_options_eq(p.options, ss[i].output@[j].options)
}

pub open spec fn placement_justified(p: Placement, ss: Seq<Stream>, ws: Seq<Worker>) -> bool {
    exists|i: int, j: int, w: int| placement_at(p, ss, ws, i, j, w)
}

pub open spec fn plan_contains(ps: Seq<Placement>, sid: u128, oid: u128) -> bool {
    exists|t: int| 0 <= t < ps.len() && ps[t].stream_id == sid && ps[t].output_id == oid
}

/// Growing the plan keeps everything it already contained.
pub proof fn lemma_plan_grow(ps0: Seq<Placement>, ps1: Seq<Placement>)
    requires
        ps0.len() <= ps1.len(),
        forall|x: int| 0 <= x < ps0.len() ==> ps1[x] == ps0[x],
    ensures
        forall|sid: u128, oid: u128|
            #[trigger] plan_contains(ps0, sid, oid) ==> plan_contains(ps1, sid, oid),
{
    assert forall|sid: u128, oid: u128|
        #[trigger] plan_contains(ps0, sid, oid) implies plan_contains(ps1, sid, oid) by {
        let x = choose|x: int|
            0 <= x < ps0.len() && ps0[x].stream_id == sid && ps0[x].output_id == oid;
        assert(0 <= x < ps1.len() && ps1[x].stream_id == sid && ps1[x].output_id == oid);
    }
}

/// What planning does to one output: one awaiting placement with no
/// eligible worker anywhere has the shortage logged; every other output is
/// untouched. Placements themselves change nothing until the caller
/// reports a start succeeded.
pub open spec fn planned_output(s0: Stream, o0: Output, o1: Output, ws: Seq<Worker>) -> bool {
    if s0.enabled && o0.status == Status::Creating && !any_eligible(ws, o0.codec) {
        log_applied(o0, o1, "No worker available for stream"@, LogLevel::Error)
    } else {
        o1 == o0
    }
}

/// What planning does to one stream: its aggregate status is recomputed
/// from its outputs, and each output fares as `planned_output` says.
pub open spec fn planned_stream(s0: Stream, s1: Stream, ws: Seq<Worker>) -> bool {
    &&& s1.id == s0.id
    &&& s1.name == s0.name
    &&& s1.input == s0.input
    &&& s1.enabled == s0.enabled
    &&& s1.status == computed_status(s0)
    &&& s1.output@.len() == s0.output@.len()
    &&& forall|j: int|
        0 <= j < s0.output@.len() ==> planned_output(s0, s0.output@[j], s1.output@[j], ws)
}

/// One scheduling pass.
///
/// Recomputes every stream's aggregate status, logs the shortage on every
/// output that awaits placement while no worker is eligible for it, and
/// returns a start command for every output that awaits placement and has
/// an eligible worker — paired with a least-loaded eligible one — and for
/// nothing else.
pub fn plan_placements(streams: &mut Vec<Stream>, workers: &Vec<Worker>) -> (plan: Vec<Placement>)
    ensures
        final(streams)@.len() == old(streams)@.len(),
        forall|i: int|
            0 <= i < old(streams)@.len() ==> planned_stream(
                old(streams)@[i],
                final(streams)@[i],
                workers@,
            ),
        forall|t: int|
            0 <= t < plan@.len() ==> placement_justified(plan@[t], old(streams)@, workers@),
        forall|i: int, j: int|
            0 <= i < old(streams)@.len() && 0 <= j < old(streams)@[i].output@.len() && old(
                streams,
            )@[i].enabled && old(streams)@[i].output@[j].status == Status::Creating && any_eligible(
                workers@,
                old(streams)@[i].output@[j].codec,
            ) ==> plan_contains(plan@, old(streams)@[i].id, old(streams)@[i].output@[j].id),
{
    let mut plan: Vec<Placement> = Vec::new();
    let n = streams.len();
    let mut i: usize = 0;
    while i < n
        invariant
            n == old(streams)@.len(),
            streams@.len() == n,
            0 <= i <= n,
            forall|a: int| i <= a < n ==> streams@[a] == old(streams)@[a],
            forall|a: int|
                0 <= a < i ==> planned_stream(old(streams)@[a], streams@[a], workers@),
            forall|t: int|
                0 <= t < plan@.len() ==> placement_justified(plan@[t], old(streams)@, workers@),
            forall|a: int, b: int|
                a < i && 0 <= a && 0 <= b < old(streams)@[a].output@.len() && old(
                    streams,
                )@[a].enabled && old(streams)@[a].output@[b].status == Status::Creating
                    && any_eligible(workers@, old(streams)@[a].output@[b].codec) ==> plan_contains(
                    plan@,
                    old(streams)@[a].id,
                    old(streams)@[a].output@[b].id,
                ),
        decreases n - i,
    {
        let s = crate::store::at_mut(streams, i);
        let ghost s0: Stream = *s;
        let sid = s.id;
        let m = s.output.len();
        // Aggregate status first, as the outputs stand now.
        let mut all_up = true;
        for j in 0..m
            invariant
                m == s0.output@.len(),
                *s == s0,
                all_up == (forall|k: int| 0 <= k < j ==> s0.output@[k].status == Status::Running),
        {
            if s.output[j].status != Status::Running {
                all_up = false;
            }
        }
        if all_up {
            s.status = Status::Running;
        } else {
            s.status = Status::Creating;
        }
        // Then a worker for every output that awaits one.
        let mut j: usize = 0;
        while j < m
            invariant
                0 <= i < n,
                n == old(streams)@.len(),
                s0 == old(streams)@[i as int],
                m == s0.output@.len(),
                s.output@.len() == m,
                0 <= j <= m,
                s.id == s0.id,
                s.name == s0.name,
                s.input == s0.input,
                s.enabled == s0.enabled,
                s.status == computed_status(s0),
                sid == s0.id,
                forall|b: int| j <= b < m ==> s.output@[b] == s0.output@[b],
                forall|b: int|
                    0 <= b < j ==> planned_output(s0, s0.output@[b], s.output@[b], workers@),
                forall|t: int|
                    0 <= t < plan@.len() ==> placement_justified(plan@[t], old(streams)@, workers@),
                forall|a: int, b: int|
                    (a < i || (a == i && b < j)) && 0 <= a && 0 <= b < old(
                        streams,
                    )@[a].output@.len() && old(streams)@[a].enabled && old(
                        streams,
                    )@[a].output@[b].status == Status::Creating && any_eligible(
                        workers@,
                        old(streams)@[a].output@[b].codec,
                    ) ==> plan_contains(plan@, old(streams)@[a].id, old(streams)@[a].output@[b].id),
            decreases m - j,
        {
            if s.enabled && s.output[j].status == Status::Creating {
                let found = choose_worker(workers, s.output[j].codec);
                match found {
                    Option::None => {
                        let o = crate::store::at_mut(&mut s.output, j);
                        record(o, "No worker available for stream", LogLevel::Error);
                    },
                    Option::Some(w) => {
                        let ghost plan_pre = plan@;
                        plan.push(
                            Placement {
                                stream_id: sid,
                                output_id: s.output[j].id,
                                worker_id: workers[w].id,
                                protocol: copy_text(&workers[w].protocol),
                                host: copy_text(&workers[w].host),
                                name: copy_text(&s.name),
                                input: copy_text(&s.input),
                                uri: copy_text(&s.output[j].uri),
                                codec: s.output[j].codec.ffmpeg_name().to_owned(),
                                options: copy_opt_options(&s.output[j].options),
                            },
                        );
                        proof {
                            lemma_plan_grow(plan_pre, plan@);
                            assert(placement_at(
                                plan@[plan_pre.len() as int],
                                old(streams)@,
                                workers@,
                                i as int,
                                j as int,
                                w as int,
                            ));
                            assert(plan@[plan_pre.len() as int].output_id
                                == s0.output@[j as int].id);
                        }
                    },
                }
            }
            j += 1;
        }
        i += 1;
    }
    plan
}

} // verus!