//! The properties the control plane keeps.
//!
//! The store's standing invariant — a `Running` output is always assigned
//! — is preserved by every mutation the control loop performs, and the
//! corrective passes do exactly what they owe: a crash frees everything
//! the worker held, a drift check frees everything a disabled stream held
//! and touches nothing assigned elsewhere.

use vstd::prelude::*;

use crate::model::LogLevel;
use crate::model::Output;
use crate::model::Status;
use crate::model::Stream;
use crate::model::Worker;
use crate::model::output_eq;
use crate::model::output_wf;
use crate::model::stream_eq;
use crate::model::stream_wf;
use crate::model::streams_wf;
use crate::reconcile::ReportedOutput;
use crate::reconcile::drift_checked_output;
use crate::reconcile::drift_checked_stream;
use crate::reconcile::first_report_at;
use crate::reconcile::output_reset;
use crate::reconcile::output_released;
use crate::reconcile::reported_has;
use crate::reconcile::worker_outputs_reset;
use crate::schedule::planned_output;
use crate::schedule::planned_stream;
use crate::store::first_output_at;
use crate::store::first_stream_at;
use crate::store::has_output;
use crate::store::has_stream;
use crate::store::log_applied;
use crate::store::set_output_status_post;
use crate::store::status_set;
use crate::persist::streams_restored;

verus! {

// A first match exists wherever any match does.

pub proof fn lemma_first_stream_exists(ss: Seq<Stream>, id: u128)
    requires
        has_stream(ss, id),
    ensures
        exists|i: int| first_stream_at(ss, id, i),
{
    let i0 = choose|i: int| 0 <= i < ss.len() && ss[i].id == id;
    lemma_first_stream_below(ss, id, i0);
}

proof fn lemma_first_stream_below(ss: Seq<Stream>, id: u128, i0: int)
    requires
        0 <= i0 < ss.len(),
        ss[i0].id == id,
    ensures
        exists|i: int| first_stream_at(ss, id, i),
    decreases i0,
{
    if forall|k: int| 0 <= k < i0 ==> ss[k].id != id {
        assert(first_stream_at(ss, id, i0));
    } else {
        let k = choose|k: int| 0 <= k < i0 && ss[k].id == id;
        lemma_first_stream_below(ss, id, k);
    }
}

pub proof fn lemma_first_output_exists(os: Seq<Output>, id: u128)
    requires
        has_output(os, id),
    ensures
        exists|j: int| first_output_at(os, id, j),
{
    let j0 = choose|j: int| 0 <= j < os.len() && os[j].id == id;
    lemma_first_output_below(os, id, j0);
}

proof fn lemma_first_output_below(os: Seq<Output>, id: u128, j0: int)
    requires
        0 <= j0 < os.len(),
        os[j0].id == id,
    ensures
        exists|j: int| first_output_at(os, id, j),
    decreases j0,
{
    if forall|k: int| 0 <= k < j0 ==> os[k].id != id {
        assert(first_output_at(os, id, j0));
    } else {
        let k = choose|k: int| 0 <= k < j0 && os[k].id == id;
        lemma_first_output_below(os, id, k);
    }
}

pub proof fn lemma_first_report_exists(report: Seq<ReportedOutput>, id: u128)
    requires
        reported_has(report, id),
    ensures
        exists|k: int| first_report_at(report, id, k),
{
    let k0 = choose|k: int| 0 <= k < report.len() && report[k].id == id;
    lemma_first_report_below(report, id, k0);
}

proof fn lemma_first_report_below(report: Seq<ReportedOutput>, id: u128, k0: int)
    requires
        0 <= k0 < report.len(),
        report[k0].id == id,
    ensures
        exists|k: int| first_report_at(report, id, k),
    decreases k0,
{
    if forall|a: int| 0 <= a < k0 ==> report[a].id != id {
        assert(first_report_at(report, id, k0));
    } else {
        let a = choose|a: int| 0 <= a < k0 && report[a].id == id;
        lemma_first_report_below(report, id, a);
    }
}

// A running output is always assigned: every mutation keeps it.

/// Setting an output's status keeps the store well-formed, because a
/// `Running` status is only ever written together with an assignment.
pub proof fn lemma_set_output_status_keeps_wf(
    ss0: Seq<Stream>,
    ss1: Seq<Stream>,
    stream_id: u128,
    output_id: u128,
    status: Status,
    worker: Option<u128>,
)
    requires
        set_output_status_post(ss0, ss1, stream_id, output_id, status, worker),
        status == Status::Running ==> worker is Some,
        streams_wf(ss0),
    ensures
        streams_wf(ss1),
{
    if !has_stream(ss0, stream_id) {
        assert(ss1 == ss0);
    } else {
        lemma_first_stream_exists(ss0, stream_id);
        let i = choose|i: int| first_stream_at(ss0, stream_id, i);
        assert forall|a: int| 0 <= a < ss1.len() implies stream_wf(#[trigger] ss1[a]) by {
            if a != i {
                assert(ss1[a] == ss0[a]);
            } else {
                if !has_output(ss0[i].output@, output_id) {
                    assert(ss1[i] == ss0[i]);
                } else {
                    lemma_first_output_exists(ss0[i].output@, output_id);
                    let j = choose|j: int| first_output_at(ss0[i].output@, output_id, j);
                    assert forall|l: int|
                        0 <= l < ss1[i].output@.len() implies output_wf(
                        #[trigger] ss1[i].output@[l],
                    ) by {
                        if l != j {
                            assert(ss1[i].output@[l] == ss0[i].output@[l]);
                            assert(output_wf(ss0[i].output@[l]));
                        } else {
                            assert(status_set(ss0[i].output@[j], ss1[i].output@[j], status, worker));
                        }
                    }
                }
            }
        }
    }
}

/// A crash reset keeps the store well-formed: everything it touches goes
/// to `Creating`.
pub proof fn lemma_crash_reset_keeps_wf(ss0: Seq<Stream>, ss1: Seq<Stream>, worker_id: u128)
    requires
        ss1.len() == ss0.len(),
        forall|i: int| 0 <= i < ss0.len() ==> worker_outputs_reset(ss0[i], #[trigger] ss1[i], worker_id),
        streams_wf(ss0),
    ensures
        streams_wf(ss1),
{
    assert forall|a: int| 0 <= a < ss1.len() implies stream_wf(#[trigger] ss1[a]) by {
        assert(worker_outputs_reset(ss0[a], ss1[a], worker_id));
        assert forall|j: int|
            0 <= j < ss1[a].output@.len() implies output_wf(#[trigger] ss1[a].output@[j]) by {
            assert(output_wf(ss0[a].output@[j]));
            if ss0[a].output@[j].worker == Option::Some(worker_id) {
                assert(output_reset(
                    ss0[a].output@[j],
                    ss1[a].output@[j],
                    "Assigned worker crashed. Restarting"@,
                ));
            } else {
                assert(ss1[a].output@[j] == ss0[a].output@[j]);
            }
        }
    }
}

/// The drift check keeps the store well-formed: it only frees outputs or
/// logs on them.
pub proof fn lemma_drift_check_keeps_wf(
    ss0: Seq<Stream>,
    ss1: Seq<Stream>,
    worker_id: u128,
    report: Seq<ReportedOutput>,
)
    requires
        ss1.len() == ss0.len(),
        forall|i: int|
            0 <= i < ss0.len() ==> drift_checked_stream(ss0[i], #[trigger] ss1[i], worker_id, report),
        streams_wf(ss0),
    ensures
        streams_wf(ss1),
{
    assert forall|a: int| 0 <= a < ss1.len() implies stream_wf(#[trigger] ss1[a]) by {
        assert(drift_checked_stream(ss0[a], ss1[a], worker_id, report));
        assert forall|j: int|
            0 <= j < ss1[a].output@.len() implies output_wf(#[trigger] ss1[a].output@[j]) by {
            let o0 = ss0[a].output@[j];
            let o1 = ss1[a].output@[j];
            assert(output_wf(o0));
            assert(drift_checked_output(ss0[a], o0, o1, worker_id, report));
            if o0.worker == Option::Some(worker_id) && ss0[a].enabled && reported_has(
                report,
                o0.id,
            ) {
                lemma_first_report_exists(report, o0.id);
                let k = choose|k: int| first_report_at(report, o0.id, k);
                if crate::reconcile::config_drift(report[k], ss0[a].name@, ss0[a].input@, o0) {
                    assert(log_applied(
                        o0,
                        o1,
                        "Output has invalid configuration on worker. Restarting"@,
                        LogLevel::Info,
                    ));
                } else {
                    assert(o1 == o0);
                }
            }
        }
    }
}

/// A scheduling pass keeps the store well-formed: it only logs and
/// recomputes aggregate statuses.
pub proof fn lemma_plan_keeps_wf(ss0: Seq<Stream>, ss1: Seq<Stream>, ws: Seq<Worker>)
    requires
        ss1.len() == ss0.len(),
        forall|i: int| 0 <= i < ss0.len() ==> planned_stream(ss0[i], #[trigger] ss1[i], ws),
        streams_wf(ss0),
    ensures
        streams_wf(ss1),
{
    assert forall|a: int| 0 <= a < ss1.len() implies stream_wf(#[trigger] ss1[a]) by {
        assert(planned_stream(ss0[a], ss1[a], ws));
        assert forall|j: int|
            0 <= j < ss1[a].output@.len() implies output_wf(#[trigger] ss1[a].output@[j]) by {
            assert(planned_output(ss0[a], ss0[a].output@[j], ss1[a].output@[j], ws));
            assert(output_wf(ss0[a].output@[j]));
        }
    }
}

/// A restore keeps the store well-formed when the snapshot itself is.
pub proof fn lemma_restore_keeps_wf(ss0: Seq<Stream>, add: Seq<Stream>, ss1: Seq<Stream>)
    requires
        streams_restored(ss0, add, ss1),
        streams_wf(ss0),
        streams_wf(add),
    ensures
        streams_wf(ss1),
    decreases add.len(),
{
    if add.len() == 0 {
    } else {
        assert forall|k: int| 0 <= k < add.drop_first().len() implies stream_wf(
            #[trigger] add.drop_first()[k],
        ) by {
            assert(add.drop_first()[k] == add[k + 1]);
        }
        if has_stream(ss0, add[0].id) {
            lemma_restore_keeps_wf(ss0, add.drop_first(), ss1);
        } else {
            let s = choose|s: Stream|
                #[trigger] stream_eq(s, add[0]) && streams_restored(
                    ss0.push(s),
                    add.drop_first(),
                    ss1,
                );
            assert(stream_wf(add[0]));
            assert forall|j: int| 0 <= j < s.output@.len() implies output_wf(
                #[trigger] s.output@[j],
            ) by {
                assert(output_eq(s.output@[j], add[0].output@[j]));
                assert(output_wf(add[0].output@[j]));
            }
            assert forall|k: int| 0 <= k < ss0.push(s).len() implies stream_wf(
                #[trigger] ss0.push(s)[k],
            ) by {
                if k < ss0.len() {
                    assert(ss0.push(s)[k] == ss0[k]);
                }
            }
            lemma_restore_keeps_wf(ss0.push(s), add.drop_first(), ss1);
        }
    }
}

// What the corrective passes owe.

/// After a crash reset, no output anywhere is assigned to the crashed
/// worker, and every output it held awaits placement again.
pub proof fn lemma_crash_reset_clears_worker(ss0: Seq<Stream>, ss1: Seq<Stream>, worker_id: u128)
    requires
        ss1.len() == ss0.len(),
        forall|i: int| 0 <= i < ss0.len() ==> worker_outputs_reset(ss0[i], #[trigger] ss1[i], worker_id),
    ensures
        forall|i: int, j: int|
            0 <= i < ss1.len() && 0 <= j < ss1[i].output@.len() ==> ss1[i].output@[j].worker
                != Option::Some(worker_id),
        forall|i: int, j: int|
            0 <= i < ss0.len() && 0 <= j < ss0[i].output@.len() && ss0[i].output@[j].worker
                == Option::Some(worker_id) ==> ss1[i].output@[j].status == Status::Creating
                && ss1[i].output@[j].worker is None,
{
    assert forall|i: int, j: int|
        0 <= i < ss1.len() && 0 <= j < ss1[i].output@.len() implies ss1[i].output@[j].worker
        != Option::Some(worker_id) by {
        assert(worker_outputs_reset(ss0[i], ss1[i], worker_id));
        if ss0[i].output@[j].worker == Option::Some(worker_id) {
            assert(output_reset(
                ss0[i].output@[j],
                ss1[i].output@[j],
                "Assigned worker crashed. Restarting"@,
            ));
        } else {
            assert(ss1[i].output@[j] == ss0[i].output@[j]);
        }
    }
    assert forall|i: int, j: int|
        0 <= i < ss0.len() && 0 <= j < ss0[i].output@.len() && ss0[i].output@[j].worker
        == Option::Some(worker_id) implies ss1[i].output@[j].status == Status::Creating
        && ss1[i].output@[j].worker is None by {
        assert(worker_outputs_reset(ss0[i], ss1[i], worker_id));
        assert(output_reset(
            ss0[i].output@[j],
            ss1[i].output@[j],
            "Assigned worker crashed. Restarting"@,
        ));
    }
}

/// After one drift check, a disabled stream holds nothing against the
/// checked worker: every output of it the worker held is `Creating` and
/// unassigned.
pub proof fn lemma_drift_check_frees_disabled(
    ss0: Seq<Stream>,
    ss1: Seq<Stream>,
    worker_id: u128,
    report: Seq<ReportedOutput>,
)
    requires
        ss1.len() == ss0.len(),
        forall|i: int|
            0 <= i < ss0.len() ==> drift_checked_stream(ss0[i], #[trigger] ss1[i], worker_id, report),
    ensures
        forall|i: int, j: int|
            0 <= i < ss0.len() && !ss0[i].enabled && 0 <= j < ss0[i].output@.len()
                && ss0[i].output@[j].worker == Option::Some(worker_id)
                ==> ss1[i].output@[j].status == Status::Creating
                && ss1[i].output@[j].worker is None,
{
    assert forall|i: int, j: int|
        0 <= i < ss0.len() && !ss0[i].enabled && 0 <= j < ss0[i].output@.len()
        && ss0[i].output@[j].worker == Option::Some(worker_id)
        implies ss1[i].output@[j].status == Status::Creating
        && ss1[i].output@[j].worker is None by {
        assert(drift_checked_stream(ss0[i], ss1[i], worker_id, report));
        assert(drift_checked_output(
            ss0[i],
            ss0[i].output@[j],
            ss1[i].output@[j],
            worker_id,
            report,
        ));
        assert(output_released(ss0[i].output@[j], ss1[i].output@[j]));
    }
}

/// A drift check never assigns and never promotes: an output comes out
/// either with the assignment it had or with none, and one running after
/// the check was running before it. So what one worker's check freed, no
/// other worker's check of the same cycle takes back.
pub proof fn lemma_drift_check_assigns_nothing(
    ss0: Seq<Stream>,
    ss1: Seq<Stream>,
    worker_id: u128,
    report: Seq<ReportedOutput>,
)
    requires
        ss1.len() == ss0.len(),
        forall|i: int|
            0 <= i < ss0.len() ==> drift_checked_stream(ss0[i], #[trigger] ss1[i], worker_id, report),
    ensures
        forall|i: int, j: int|
            0 <= i < ss0.len() && 0 <= j < ss0[i].output@.len() ==> (ss1[i].output@[j].worker
                == ss0[i].output@[j].worker || ss1[i].output@[j].worker is None),
        forall|i: int, j: int|
            0 <= i < ss0.len() && 0 <= j < ss0[i].output@.len() && ss1[i].output@[j].status
                == Status::Running ==> ss0[i].output@[j].status == Status::Running,
{
    assert forall|i: int, j: int|
        0 <= i < ss0.len() && 0 <= j < ss0[i].output@.len() implies (ss1[i].output@[j].worker
        == ss0[i].output@[j].worker || ss1[i].output@[j].worker is None)
        && (ss1[i].output@[j].status == Status::Running
            ==> ss0[i].output@[j].status == Status::Running) by {
        let o0 = ss0[i].output@[j];
        let o1 = ss1[i].output@[j];
        assert(drift_checked_stream(ss0[i], ss1[i], worker_id, report));
        assert(drift_checked_output(ss0[i], o0, o1, worker_id, report));
        if o0.worker == Option::Some(worker_id) && ss0[i].enabled && reported_has(
            report,
            o0.id,
        ) {
            lemma_first_report_exists(report, o0.id);
            let k = choose|k: int| first_report_at(report, o0.id, k);
            if crate::reconcile::config_drift(report[k], ss0[i].name@, ss0[i].input@, o0) {
                assert(log_applied(
                    o0,
                    o1,
                    "Output has invalid configuration on worker. Restarting"@,
                    LogLevel::Info,
                ));
            } else {
                assert(o1 == o0);
            }
        }
    }
}

/// A drift check touches nothing assigned elsewhere: every output not
/// assigned to the checked worker comes out exactly as it went in.
pub proof fn lemma_drift_check_leaves_unrelated(
    ss0: Seq<Stream>,
    ss1: Seq<Stream>,
    worker_id: u128,
    report: Seq<ReportedOutput>,
)
    requires
        ss1.len() == ss0.len(),
        forall|i: int|
            0 <= i < ss0.len() ==> drift_checked_stream(ss0[i], #[trigger] ss1[i], worker_id, report),
    ensures
        forall|i: int, j: int|
            0 <= i < ss0.len() && 0 <= j < ss0[i].output@.len() && ss0[i].output@[j].worker
                != Option::Some(worker_id) ==> ss1[i].output@[j] == ss0[i].output@[j],
{
    assert forall|i: int, j: int|
        0 <= i < ss0.len() && 0 <= j < ss0[i].output@.len() && ss0[i].output@[j].worker
        != Option::Some(worker_id) implies ss1[i].output@[j] == ss0[i].output@[j] by {
        assert(drift_checked_stream(ss0[i], ss1[i], worker_id, report));
        assert(drift_checked_output(
            ss0[i],
            ss0[i].output@[j],
            ss1[i].output@[j],
            worker_id,
            report,
        ));
    }
}

} // verus!