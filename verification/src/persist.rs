//! Restoring a snapshot into the store.
//!
//! A restore is a non-destructive merge, never an overwrite: a snapshot
//! worker joins only if its host is new, a snapshot stream only if its
//! identifier is new — each checked against the store as it then stands.
//! Restoring the same snapshot again therefore changes nothing, and a
//! store whose hosts and identifiers are unique keeps them unique.

use vstd::prelude::*;

use crate::model::StateDump;
use crate::model::Stream;
use crate::model::Worker;
use crate::model::copy_stream;
use crate::model::copy_worker;
use crate::model::stream_eq;
use crate::model::worker_eq;
use crate::store::has_host;
use crate::store::has_stream;
use crate::store::stream_index;
use crate::store::worker_index_by_host;

verus! {

/// Snapshot workers folded in, left to right: a known host changes
/// nothing, a new one appends a copy of the snapshot worker.
pub open spec fn workers_restored(ws0: Seq<Worker>, add: Seq<Worker>, ws1: Seq<Worker>) -> bool
    decreases add.len(),
{
    if add.len() == 0 {
        ws1 == ws0
    } else {
        if has_host(ws0, add[0].host@) {
            workers_restored(ws0, add.drop_first(), ws1)
        } else {
            exists|w: Worker|
                #[trigger] worker_eq(w, add[0]) && workers_restored(
                    ws0.push(w),
                    add.drop_first(),
                    ws1,
                )
        }
    }
}

/// Snapshot streams folded in, left to right: a known identifier changes
/// nothing, a new one appends a copy of the snapshot stream.
pub open spec fn streams_restored(ss0: Seq<Stream>, add: Seq<Stream>, ss1: Seq<Stream>) -> bool
    decreases add.len(),
{
    if add.len() == 0 {
        ss1 == ss0
    } else {
        if has_stream(ss0, add[0].id) {
            streams_restored(ss0, add.drop_first(), ss1)
        } else {
            exists|s: Stream|
                #[trigger] stream_eq(s, add[0]) && streams_restored(
                    ss0.push(s),
                    add.drop_first(),
                    ss1,
                )
        }
    }
}

pub proof fn lemma_workers_restored_snoc(
    ws0: Seq<Worker>,
    add: Seq<Worker>,
    a: Worker,
    ws1: Seq<Worker>,
    ws2: Seq<Worker>,
)
    requires
        workers_restored(ws0, add, ws1),
        if has_host(ws1, a.host@) {
            ws2 == ws1
        } else {
            exists|w: Worker| #[trigger] worker_eq(w, a) && ws2 == ws1.push(w)
        },
    ensures
        workers_restored(ws0, add.push(a), ws2),
    decreases add.len(),
{
    if add.len() == 0 {
        assert(ws1 == ws0);
        assert(add.push(a)[0] == a);
        assert(add.push(a).drop_first() =~= Seq::<Worker>::empty());
        if has_host(ws0, a.host@) {
            assert(ws2 == ws0);
            assert(workers_restored(ws0, add.push(a).drop_first(), ws2));
        } else {
            let w = choose|w: Worker| #[trigger] worker_eq(w, a) && ws2 == ws1.push(w);
            assert(worker_eq(w, add.push(a)[0]) && workers_restored(
                ws0.push(w),
                add.push(a).drop_first(),
                ws2,
            ));
        }
    } else {
        assert(add.push(a)[0] == add[0]);
        assert(add.push(a).drop_first() =~= add.drop_first().push(a));
        if has_host(ws0, add[0].host@) {
            lemma_workers_restored_snoc(ws0, add.drop_first(), a, ws1, ws2);
        } else {
            let w = choose|w: Worker|
                #[trigger] worker_eq(w, add[0]) && workers_restored(
                    ws0.push(w),
                    add.drop_first(),
                    ws1,
                );
            lemma_workers_restored_snoc(ws0.push(w), add.drop_first(), a, ws1, ws2);
            assert(worker_eq(w, add.push(a)[0]) && workers_restored(
                ws0.push(w),
                add.push(a).drop_first(),
                ws2,
            ));
        }
    }
}

pub proof fn lemma_streams_restored_snoc(
    ss0: Seq<Stream>,
    add: Seq<Stream>,
    a: Stream,
    ss1: Seq<Stream>,
    ss2: Seq<Stream>,
)
    requires
        streams_restored(ss0, add, ss1),
        if has_stream(ss1, a.id) {
            ss2 == ss1
        } else {
            exists|s: Stream| #[trigger] stream_eq(s, a) && ss2 == ss1.push(s)
        },
    ensures
        streams_restored(ss0, add.push(a), ss2),
    decreases add.len(),
{
    if add.len() == 0 {
        assert(ss1 == ss0);
        assert(add.push(a)[0] == a);
        assert(add.push(a).drop_first() =~= Seq::<Stream>::empty());
        if has_stream(ss0, a.id) {
            assert(ss2 == ss0);
            assert(streams_restored(ss0, add.push(a).drop_first(), ss2));
        } else {
            let s = choose|s: Stream| #[trigger] stream_eq(s, a) && ss2 == ss1.push(s);
            assert(stream_eq(s, add.push(a)[0]) && streams_restored(
                ss0.push(s),
                add.push(a).drop_first(),
                ss2,
            ));
        }
    } else {
        assert(add.push(a)[0] == add[0]);
        assert(add.push(a).drop_first() =~= add.drop_first().push(a));
        if has_stream(ss0, add[0].id) {
            lemma_streams_restored_snoc(ss0, add.drop_first(), a, ss1, ss2);
        } else {
            let s = choose|s: Stream|
                #[trigger] stream_eq(s, add[0]) && streams_restored(
                    ss0.push(s),
                    add.drop_first(),
                    ss1,
                );
            lemma_streams_restored_snoc(ss0.push(s), add.drop_first(), a, ss1, ss2);
            assert(stream_eq(s, add.push(a)[0]) && streams_restored(
                ss0.push(s),
                add.push(a).drop_first(),
                ss2,
            ));
        }
    }
}

/// Merge a snapshot into the store, non-destructively: workers join by new
/// host, streams by new identifier; nothing present is overwritten.
pub fn restore(streams: &mut Vec<Stream>, workers: &mut Vec<Worker>, dump: &StateDump)
    ensures
        streams_restored(old(streams)@, dump.streams@, final(streams)@),
        workers_restored(old(workers)@, dump.workers@, final(workers)@),
{
    let wn = dump.workers.len();
    let mut i: usize = 0;
    while i < wn
        invariant
            wn == dump.workers@.len(),
            0 <= i <= wn,
            workers_restored(old(workers)@, dump.workers@.subrange(0, i as int), workers@),
            streams@ == old(streams)@,
        decreases wn - i,
    {
        let ghost ws1 = workers@;
        let known = worker_index_by_host(workers, &dump.workers[i].host);
        match known {
            Option::Some(_) => {},
            Option::None => {
                let w = copy_worker(&dump.workers[i]);
                let ghost wg = w;
                workers.push(w);
                proof {
                    assert(worker_eq(wg, dump.workers@[i as int]) && workers@ == ws1.push(wg));
                }
            },
        }
        proof {
            lemma_workers_restored_snoc(
                old(workers)@,
                dump.workers@.subrange(0, i as int),
                dump.workers@[i as int],
                ws1,
                workers@,
            );
            assert(dump.workers@.subrange(0, i as int).push(dump.workers@[i as int])
                =~= dump.workers@.subrange(0, i as int + 1));
        }
        i += 1;
    }
    proof {
        assert(dump.workers@.subrange(0, wn as int) =~= dump.workers@);
    }
    let sn = dump.streams.len();
    let mut j: usize = 0;
    while j < sn
        invariant
            sn == dump.streams@.len(),
            0 <= j <= sn,
            streams_restored(old(streams)@, dump.streams@.subrange(0, j as int), streams@),
            workers_restored(old(workers)@, dump.workers@, workers@),
        decreases sn - j,
    {
        let ghost ss1 = streams@;
        let known = stream_index(streams, dump.streams[j].id);
        match known {
            Option::Some(_) => {},
            Option::None => {
                let s = copy_stream(&dump.streams[j]);
                let ghost sg = s;
                streams.push(s);
                proof {
                    assert(stream_eq(sg, dump.streams@[j as int]) && streams@ == ss1.push(sg));
                }
            },
        }
        proof {
            lemma_streams_restored_snoc(
                old(streams)@,
                dump.streams@.subrange(0, j as int),
                dump.streams@[j as int],
                ss1,
                streams@,
            );
            assert(dump.streams@.subrange(0, j as int).push(dump.streams@[j as int])
                =~= dump.streams@.subrange(0, j as int + 1));
        }
        j += 1;
    }
    proof {
        assert(dump.streams@.subrange(0, sn as int) =~= dump.streams@);
    }
}

// What a restore can and cannot change.

/// A restore only appends: the store it started from is a prefix of what
/// it leaves.
pub proof fn lemma_workers_restored_appends(ws0: Seq<Worker>, add: Seq<Worker>, ws1: Seq<Worker>)
    requires
        workers_restored(ws0, add, ws1),
    ensures
        ws1.len() >= ws0.len(),
        forall|i: int| 0 <= i < ws0.len() ==> ws1[i] == ws0[i],
    decreases add.len(),
{
    if add.len() == 0 {
    } else if has_host(ws0, add[0].host@) {
        lemma_workers_restored_appends(ws0, add.drop_first(), ws1);
    } else {
        let w = choose|w: Worker|
            #[trigger] worker_eq(w, add[0]) && workers_restored(ws0.push(w), add.drop_first(), ws1);
        lemma_workers_restored_appends(ws0.push(w), add.drop_first(), ws1);
    }
}

/// After a restore, every host of the snapshot is in the store.
pub proof fn lemma_workers_restored_covers(ws0: Seq<Worker>, add: Seq<Worker>, ws1: Seq<Worker>)
    requires
        workers_restored(ws0, add, ws1),
    ensures
        forall|k: int| 0 <= k < add.len() ==> has_host(ws1, #[trigger] add[k].host@),
    decreases add.len(),
{
    if add.len() == 0 {
    } else {
        assert forall|k: int|
            0 <= k < add.len() implies has_host(ws1, #[trigger] add[k].host@) by {
            if has_host(ws0, add[0].host@) {
                lemma_workers_restored_appends(ws0, add.drop_first(), ws1);
                lemma_workers_restored_covers(ws0, add.drop_first(), ws1);
                if k == 0 {
                    let x = choose|x: int| 0 <= x < ws0.len() && ws0[x].host@ == add[0].host@;
                    assert(ws1[x].host@ == add[0].host@);
                } else {
                    assert(add.drop_first()[k - 1] == add[k]);
                }
            } else {
                let w = choose|w: Worker|
                    #[trigger] worker_eq(w, add[0]) && workers_restored(
                        ws0.push(w),
                        add.drop_first(),
                        ws1,
                    );
                lemma_workers_restored_appends(ws0.push(w), add.drop_first(), ws1);
                lemma_workers_restored_covers(ws0.push(w), add.drop_first(), ws1);
                if k == 0 {
                    let x = ws0.len() as int;
                    assert(ws0.push(w)[x] == w);
                    assert(ws1[x].host@ == add[0].host@);
                } else {
                    assert(add.drop_first()[k - 1] == add[k]);
                }
            }
        }
    }
}

/// A restore of a snapshot whose hosts the store already covers changes
/// nothing.
pub proof fn lemma_workers_restore_covered_is_noop(
    ws0: Seq<Worker>,
    add: Seq<Worker>,
    ws1: Seq<Worker>,
)
    requires
        workers_restored(ws0, add, ws1),
        forall|k: int| 0 <= k < add.len() ==> has_host(ws0, #[trigger] add[k].host@),
    ensures
        ws1 == ws0,
    decreases add.len(),
{
    if add.len() == 0 {
    } else {
        assert(has_host(ws0, add[0].host@));
        assert forall|k: int|
            0 <= k < add.drop_first().len() implies has_host(
            ws0,
            #[trigger] add.drop_first()[k].host@,
        ) by {
            assert(add.drop_first()[k] == add[k + 1]);
        }
        lemma_workers_restore_covered_is_noop(ws0, add.drop_first(), ws1);
    }
}

/// Restoring the same snapshot a second time changes nothing: no worker is
/// ever duplicated by host.
pub proof fn lemma_workers_restore_idempotent(
    ws0: Seq<Worker>,
    add: Seq<Worker>,
    ws1: Seq<Worker>,
    ws2: Seq<Worker>,
)
    requires
        workers_restored(ws0, add, ws1),
        workers_restored(ws1, add, ws2),
    ensures
        ws2 == ws1,
{
    lemma_workers_restored_covers(ws0, add, ws1);
    lemma_workers_restore_covered_is_noop(ws1, add, ws2);
}

/// Every identifier of the snapshot is in the store after a restore.
pub proof fn lemma_streams_restored_appends(ss0: Seq<Stream>, add: Seq<Stream>, ss1: Seq<Stream>)
    requires
        streams_restored(ss0, add, ss1),
    ensures
        ss1.len() >= ss0.len(),
        forall|i: int| 0 <= i < ss0.len() ==> ss1[i] == ss0[i],
    decreases add.len(),
{
    if add.len() == 0 {
    } else if has_stream(ss0, add[0].id) {
        lemma_streams_restored_appends(ss0, add.drop_first(), ss1);
    } else {
        let s = choose|s: Stream|
            #[trigger] stream_eq(s, add[0]) && streams_restored(ss0.push(s), add.drop_first(), ss1);
        lemma_streams_restored_appends(ss0.push(s), add.drop_first(), ss1);
    }
}

pub proof fn lemma_streams_restored_covers(ss0: Seq<Stream>, add: Seq<Stream>, ss1: Seq<Stream>)
    requires
        streams_restored(ss0, add, ss1),
    ensures
        forall|k: int| 0 <= k < add.len() ==> has_stream(ss1, #[trigger] add[k].id),
    decreases add.len(),
{
    if add.len() == 0 {
    } else {
        assert forall|k: int| 0 <= k < add.len() implies has_stream(ss1, #[trigger] add[k].id) by {
            if has_stream(ss0, add[0].id) {
                lemma_streams_restored_appends(ss0, add.drop_first(), ss1);
                lemma_streams_restored_covers(ss0, add.drop_first(), ss1);
                if k == 0 {
                    let x = choose|x: int| 0 <= x < ss0.len() && ss0[x].id == add[0].id;
                    assert(ss1[x].id == add[0].id);
                } else {
                    assert(add.drop_first()[k - 1] == add[k]);
                }
            } else {
                let s = choose|s: Stream|
                    #[trigger] stream_eq(s, add[0]) && streams_restored(
                        ss0.push(s),
                        add.drop_first(),
                        ss1,
                    );
                lemma_streams_restored_appends(ss0.push(s), add.drop_first(), ss1);
                lemma_streams_restored_covers(ss0.push(s), add.drop_first(), ss1);
                if k == 0 {
                    let x = ss0.len() as int;
                    assert(ss0.push(s)[x] == s);
                    assert(ss1[x].id == add[0].id);
                } else {
                    assert(add.drop_first()[k - 1] == add[k]);
                }
            }
        }
    }
}

pub proof fn lemma_streams_restore_covered_is_noop(
    ss0: Seq<Stream>,
    add: Seq<Stream>,
    ss1: Seq<Stream>,
)
    requires
        streams_restored(ss0, add, ss1),
        forall|k: int| 0 <= k < add.len() ==> has_stream(ss0, #[trigger] add[k].id),
    ensures
        ss1 == ss0,
    decreases add.len(),
{
    if add.len() == 0 {
    } else {
        assert(has_stream(ss0, add[0].id));
        assert forall|k: int|
            0 <= k < add.drop_first().len() implies has_stream(
            ss0,
            #[trigger] add.drop_first()[k].id,
        ) by {
            assert(add.drop_first()[k] == add[k + 1]);
        }
        lemma_streams_restore_covered_is_noop(ss0, add.drop_first(), ss1);
    }
}

/// Restoring the same snapshot a second time changes nothing: no stream is
/// ever duplicated by identifier.
pub proof fn lemma_streams_restore_idempotent(
    ss0: Seq<Stream>,
    add: Seq<Stream>,
    ss1: Seq<Stream>,
    ss2: Seq<Stream>,
)
    requires
        streams_restored(ss0, add, ss1),
        streams_restored(ss1, add, ss2),
    ensures
        ss2 == ss1,
{
    lemma_streams_restored_covers(ss0, add, ss1);
    lemma_streams_restore_covered_is_noop(ss1, add, ss2);
}

/// Hosts unique before a restore stay unique after it.
pub open spec fn hosts_unique(ws: Seq<Worker>) -> bool {
    forall|i: int, j: int| 0 <= i < j < ws.len() ==> ws[i].host@ != ws[j].host@
}

pub proof fn lemma_workers_restore_keeps_hosts_unique(
    ws0: Seq<Worker>,
    add: Seq<Worker>,
    ws1: Seq<Worker>,
)
    requires
        workers_restored(ws0, add, ws1),
        hosts_unique(ws0),
    ensures
        hosts_unique(ws1),
    decreases add.len(),
{
    if add.len() == 0 {
    } else if has_host(ws0, add[0].host@) {
        lemma_workers_restore_keeps_hosts_unique(ws0, add.drop_first(), ws1);
    } else {
        let w = choose|w: Worker|
            #[trigger] worker_eq(w, add[0]) && workers_restored(ws0.push(w), add.drop_first(), ws1);
        assert forall|i: int, j: int|
            0 <= i < j < ws0.push(w).len() implies ws0.push(w)[i].host@ != ws0.push(
            w,
        )[j].host@ by {
            if j == ws0.len() as int {
                assert(ws0.push(w)[i] == ws0[i]);
                if ws0[i].host@ == w.host@ {
                    assert(has_host(ws0, add[0].host@));
                }
            }
        }
        lemma_workers_restore_keeps_hosts_unique(ws0.push(w), add.drop_first(), ws1);
    }
}

/// Stream identifiers unique before a restore stay unique after it.
pub open spec fn stream_ids_unique(ss: Seq<Stream>) -> bool {
    forall|i: int, j: int| 0 <= i < j < ss.len() ==> ss[i].id != ss[j].id
}

pub proof fn lemma_streams_restore_keeps_ids_unique(
    ss0: Seq<Stream>,
    add: Seq<Stream>,
    ss1: Seq<Stream>,
)
    requires
        streams_restored(ss0, add, ss1),
        stream_ids_unique(ss0),
    ensures
        stream_ids_unique(ss1),
    decreases add.len(),
{
    if add.len() == 0 {
    } else if has_stream(ss0, add[0].id) {
        lemma_streams_restore_keeps_ids_unique(ss0, add.drop_first(), ss1);
    } else {
        let s = choose|s: Stream|
            #[trigger] stream_eq(s, add[0]) && streams_restored(ss0.push(s), add.drop_first(), ss1);
        assert forall|i: int, j: int|
            0 <= i < j < ss0.push(s).len() implies ss0.push(s)[i].id != ss0.push(s)[j].id by {
            if j == ss0.len() as int {
                assert(ss0.push(s)[i] == ss0[i]);
                if ss0[i].id == s.id {
                    assert(has_stream(ss0, add[0].id));
                }
            }
        }
        lemma_streams_restore_keeps_ids_unique(ss0.push(s), add.drop_first(), ss1);
    }
}

} // verus!