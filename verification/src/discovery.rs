//! Worker discovery: one configuration string names the fleet.
//!
//! The string is `;`-separated; each entry reads `[scheme://]host[@publicIp]`.
//! The scheme defaults to `http`; scheme and host are folded to lower case,
//! so all later comparisons are case-insensitive; a malformed entry (more
//! than one `@`, or more than one `://`) is skipped. An entry whose host the
//! store already has is skipped too, never duplicated.

use vstd::prelude::*;
use vstd::string::StrSliceExecFns;

use crate::model::Worker;
use crate::model::WorkerStats;
use crate::model::WorkerStatus;
use crate::model::copy_opt_text;
use crate::model::copy_text;
use crate::model::opt_text_eq;
use crate::outside::fresh_id;
use crate::outside::lower_of;
use crate::outside::lowercase;
use crate::store::has_host;
use crate::store::worker_index_by_host;

verus! {

/// One parsed discovery entry.
pub struct Endpoint {
    pub protocol: String,
    pub host: String,
    pub public_ip: Option<String>,
}

/// What one entry means: scheme and host folded to lower case, the public
/// address as written.
pub struct EndpointMeaning {
    pub protocol: Seq<char>,
    pub host: Seq<char>,
    pub public_ip: Option<Seq<char>>,
}

pub open spec fn opt_view(o: Option<String>) -> Option<Seq<char>> {
    match o {
        Option::Some(s) => Option::Some(s@),
        Option::None => Option::None,
    }
}

pub open spec fn endpoint_matches(e: Endpoint, v: EndpointMeaning) -> bool {
    &&& e.protocol@ == v.protocol
    &&& e.host@ == v.host
    &&& opt_view(e.public_ip) == v.public_ip
}

pub open spec fn endpoints_match(es: Seq<Endpoint>, vs: Seq<EndpointMeaning>) -> bool {
    &&& es.len() == vs.len()
    &&& forall|i: int| 0 <= i < es.len() ==> endpoint_matches(#[trigger] es[i], #[trigger] vs[i])
}

/// `p` is the first position of `c` in `s`.
pub open spec fn first_char_at(s: Seq<char>, c: char, p: int) -> bool {
    &&& 0 <= p < s.len()
    &&& s[p] == c
    &&& forall|q: int| 0 <= q < p ==> s[q] != c
}

pub proof fn lemma_first_char_unique(s: Seq<char>, c: char, p1: int, p2: int)
    requires
        first_char_at(s, c, p1),
        first_char_at(s, c, p2),
    ensures
        p1 == p2,
{
    if p1 < p2 {
        assert(s[p1] != c);
    }
    if p2 < p1 {
        assert(s[p2] != c);
    }
}

/// A scheme separator `://` starts at `t`.
pub open spec fn arrow_at(s: Seq<char>, t: int) -> bool {
    &&& 0 <= t
    &&& t + 3 <= s.len()
    &&& s[t] == ':'
    &&& s[t + 1] == '/'
    &&& s[t + 2] == '/'
}

/// `t` is the first position of `://` in `s`.
pub open spec fn first_arrow_at(s: Seq<char>, t: int) -> bool {
    &&& arrow_at(s, t)
    &&& forall|q: int| 0 <= q < t ==> !arrow_at(s, q)
}

pub proof fn lemma_first_arrow_unique(s: Seq<char>, t1: int, t2: int)
    requires
        first_arrow_at(s, t1),
        first_arrow_at(s, t2),
    ensures
        t1 == t2,
{
    if t1 < t2 {
        assert(!arrow_at(s, t1));
    }
    if t2 < t1 {
        assert(!arrow_at(s, t2));
    }
}

/// The scheme-and-host part of an entry, with the public address already
/// split off: no separator means the `http` default; exactly one separates
/// scheme and host; more than one makes the entry meaningless.
pub open spec fn scheme_host_meaning(ph: Seq<char>, ip: Option<Seq<char>>) -> Option<
    EndpointMeaning,
> {
    if forall|t: int| !arrow_at(ph, t) {
        Option::Some(EndpointMeaning { protocol: "http"@, host: lower_of(ph), public_ip: ip })
    } else {
        let t = choose|t: int| first_arrow_at(ph, t);
        if exists|q: int| arrow_at(ph, q) && q != t {
            Option::None
        } else {
            Option::Some(
                EndpointMeaning {
                    protocol: lower_of(ph.subrange(0, t)),
                    host: lower_of(ph.subrange(t + 3, ph.len() as int)),
                    public_ip: ip,
                },
            )
        }
    }
}

/// What one entry means: no `@` leaves the public address absent, exactly
/// one splits it off, more than one makes the entry meaningless.
pub open spec fn entry_meaning(s: Seq<char>) -> Option<EndpointMeaning> {
    if forall|p: int| 0 <= p < s.len() ==> s[p] != '@' {
        scheme_host_meaning(s, Option::None)
    } else {
        let p = choose|p: int| first_char_at(s, '@', p);
        if exists|q: int| 0 <= q < s.len() && s[q] == '@' && q != p {
            Option::None
        } else {
            scheme_host_meaning(s.subrange(0, p), Option::Some(s.subrange(p + 1, s.len() as int)))
        }
    }
}

pub open spec fn entry_list(v: Option<EndpointMeaning>) -> Seq<EndpointMeaning> {
    match v {
        Option::Some(x) => seq![x],
        Option::None => Seq::empty(),
    }
}

/// What the whole discovery string means: the meanings of its `;`-separated
/// entries, in order, with the meaningless ones skipped.
pub open spec fn discovery_meaning(s: Seq<char>) -> Seq<EndpointMeaning>
    decreases s.len(),
{
    if forall|k: int| 0 <= k < s.len() ==> s[k] != ';' {
        entry_list(entry_meaning(s))
    } else {
        let k = choose|k: int| first_char_at(s, ';', k);
        if first_char_at(s, ';', k) {
            entry_list(entry_meaning(s.subrange(0, k))) + discovery_meaning(
                s.subrange(k + 1, s.len() as int),
            )
        } else {
            Seq::empty()
        }
    }
}

/// First position of `c` in `s` at or after `from`.
fn find_char_from(s: &str, from: usize, c: char) -> (r: Option<usize>)
    requires
        from <= s@.len(),
    ensures
        match r {
            Option::Some(k) => {
                &&& from <= k < s@.len()
                &&& s@[k as int] == c
                &&& forall|a: int| from <= a < k ==> s@[a] != c
            },
            Option::None => forall|a: int| from <= a < s@.len() ==> s@[a] != c,
        },
{
    let n = s.unicode_len();
    let mut i: usize = from;
    while i < n
        invariant
            from <= i <= n,
            n == s@.len(),
            forall|a: int| from <= a < i ==> s@[a] != c,
        decreases n - i,
    {
        if s.get_char(i) == c {
            return Option::Some(i);
        }
        i += 1;
    }
    Option::None
}

/// First position of `://` in `s` at or after `from`.
fn find_arrow_from(s: &str, from: usize) -> (r: Option<usize>)
    requires
        from <= s@.len(),
    ensures
        match r {
            Option::Some(t) => {
                &&& from <= t
                &&& arrow_at(s@, t as int)
                &&& forall|a: int| from <= a < t ==> !arrow_at(s@, a)
            },
            Option::None => forall|a: int| from <= a ==> !arrow_at(s@, a),
        },
{
    let n = s.unicode_len();
    if n < 2 {
        return Option::None;
    }
    let mut i: usize = from;
    while i < n - 2
        invariant
            from <= i,
            n == s@.len(),
            n >= 2,
            forall|a: int| from <= a < i ==> !arrow_at(s@, a),
        decreases n - i,
    {
        if s.get_char(i) == ':' && s.get_char(i + 1) == '/' && s.get_char(i + 2) == '/' {
            return Option::Some(i);
        }
        i += 1;
    }
    Option::None
}

/// Parse the scheme-and-host part, carrying the public address through.
fn parse_scheme_host(ph: &str, ip: Option<String>) -> (r: Option<Endpoint>)
    ensures
        match r {
            Option::Some(e) => scheme_host_meaning(ph@, opt_view(ip)) matches Option::Some(v)
                && endpoint_matches(e, v),
            Option::None => scheme_host_meaning(ph@, opt_view(ip)) is None,
        },
{
    let n = ph.unicode_len();
    let found = find_arrow_from(ph, 0);
    match found {
        Option::None => Option::Some(
            Endpoint { protocol: "http".to_owned(), host: lowercase(ph), public_ip: ip },
        ),
        Option::Some(t) => {
            proof {
                assert(first_arrow_at(ph@, t as int));
                assert forall|t2: int| first_arrow_at(ph@, t2) implies t2 == t as int by {
                    lemma_first_arrow_unique(ph@, t2, t as int);
                }
            }
            let second = find_arrow_from(ph, t + 1);
            match second {
                Option::Some(_) => Option::None,
                Option::None => {
                    proof {
                        assert forall|q: int| arrow_at(ph@, q) implies q == t as int by {
                            if q < t as int {
                                assert(!arrow_at(ph@, q));
                            }
                            if q > t as int {
                                assert(!arrow_at(ph@, q));
                            }
                        }
                    }
                    let scheme = ph.substring_char(0, t);
                    let host = ph.substring_char(t + 3, n);
                    Option::Some(
                        Endpoint {
                            protocol: lowercase(scheme),
                            host: lowercase(host),
                            public_ip: ip,
                        },
                    )
                },
            }
        },
    }
}

/// Parse one discovery entry; a malformed one parses to nothing.
pub fn parse_entry(s: &str) -> (r: Option<Endpoint>)
    ensures
        match r {
            Option::Some(e) => entry_meaning(s@) matches Option::Some(v) && endpoint_matches(e, v),
            Option::None => entry_meaning(s@) is None,
        },
{
    let n = s.unicode_len();
    let found = find_char_from(s, 0, '@');
    match found {
        Option::None => parse_scheme_host(s, Option::None),
        Option::Some(p) => {
            proof {
                assert(first_char_at(s@, '@', p as int));
                assert forall|p2: int| first_char_at(s@, '@', p2) implies p2 == p as int by {
                    lemma_first_char_unique(s@, '@', p2, p as int);
                }
            }
            let second = find_char_from(s, p + 1, '@');
            match second {
                Option::Some(_) => Option::None,
                Option::None => {
                    proof {
                        assert forall|q: int|
                            0 <= q < s@.len() && s@[q] == '@' implies q == p as int by {};
                    }
                    let ph = s.substring_char(0, p);
                    let ip = s.substring_char(p + 1, n).to_owned();
                    parse_scheme_host(ph, Option::Some(ip))
                },
            }
        },
    }
}

/// Parse a whole discovery string into its entries, skipping the
/// malformed ones.
pub fn parse_discovery(s: &str) -> (r: Vec<Endpoint>)
    ensures
        endpoints_match(r@, discovery_meaning(s@)),
    decreases s@.len(),
{
    let n = s.unicode_len();
    let found = find_char_from(s, 0, ';');
    match found {
        Option::None => {
            let mut r: Vec<Endpoint> = Vec::new();
            match parse_entry(s) {
                Option::Some(e) => {
                    r.push(e);
                },
                Option::None => {},
            }
            r
        },
        Option::Some(k) => {
            proof {
                assert(first_char_at(s@, ';', k as int));
                assert forall|k2: int| first_char_at(s@, ';', k2) implies k2 == k as int by {
                    lemma_first_char_unique(s@, ';', k2, k as int);
                }
            }
            let head = s.substring_char(0, k);
            let tail = s.substring_char(k + 1, n);
            let mut r: Vec<Endpoint> = Vec::new();
            match parse_entry(head) {
                Option::Some(e) => {
                    r.push(e);
                },
                Option::None => {},
            }
            let mut rest = parse_discovery(tail);
            let ghost done = r@;
            let ghost more = rest@;
            r.append(&mut rest);
            proof {
                let vs = discovery_meaning(s@);
                assert(vs == entry_list(entry_meaning(head@)) + discovery_meaning(tail@));
                assert(r@ == done + more);
                assert forall|i: int| 0 <= i < r@.len() implies endpoint_matches(
                    r@[i],
                    vs[i],
                ) by {
                    if i < done.len() {
                        assert(r@[i] == done[i]);
                        assert(vs[i] == entry_list(entry_meaning(head@))[i]);
                    } else {
                        assert(r@[i] == more[i - done.len()]);
                        assert(vs[i] == discovery_meaning(tail@)[i - done.len()]);
                    }
                }
            }
            r
        },
    }
}

// Folding discoveries into the store.

/// A worker as discovery creates it: connection settings from the entry,
/// nothing yet observed, idle until it reports load.
pub open spec fn discovered_from(w: Worker, e: Endpoint) -> bool {
    &&& w.protocol@ == e.protocol@
    &&& w.host@ == e.host@
    &&& opt_text_eq(w.public_ip, e.public_ip)
    &&& w.udp_ports@.len() == 0
    &&& w.codecs@.len() == 0
    &&& w.encoder is None
    &&& w.status == WorkerStatus::Configuring
    &&& w.stats.utilization == 0
    &&& w.stats.devices@.len() == 0
    &&& w.server is None
    &&& w.streams is None
}

/// One discovery entry folded in: a known host changes nothing, a new one
/// appends a discovered worker.
pub open spec fn discovery_step(ws1: Seq<Worker>, e: Endpoint, ws2: Seq<Worker>) -> bool {
    if has_host(ws1, e.host@) {
        ws2 == ws1
    } else {
        exists|w: Worker| #[trigger] discovered_from(w, e) && ws2 == ws1.push(w)
    }
}

/// The whole entry list folded in, left to right, each entry checked
/// against the store as it then stands — so a host repeated in the list is
/// added once.
pub open spec fn discovery_applied(ws0: Seq<Worker>, es: Seq<Endpoint>, ws1: Seq<Worker>) -> bool
    decreases es.len(),
{
    if es.len() == 0 {
        ws1 == ws0
    } else {
        if has_host(ws0, es[0].host@) {
            discovery_applied(ws0, es.drop_first(), ws1)
        } else {
            exists|w: Worker|
                #[trigger] discovered_from(w, es[0]) && discovery_applied(
                    ws0.push(w),
                    es.drop_first(),
                    ws1,
                )
        }
    }
}

pub proof fn lemma_discovery_applied_snoc(
    ws0: Seq<Worker>,
    es: Seq<Endpoint>,
    e: Endpoint,
    ws1: Seq<Worker>,
    ws2: Seq<Worker>,
)
    requires
        discovery_applied(ws0, es, ws1),
        discovery_step(ws1, e, ws2),
    ensures
        discovery_applied(ws0, es.push(e), ws2),
    decreases es.len(),
{
    if es.len() == 0 {
        assert(ws1 == ws0);
        assert(es.push(e)[0] == e);
        assert(es.push(e).drop_first() =~= Seq::<Endpoint>::empty());
        if has_host(ws0, e.host@) {
            assert(ws2 == ws0);
            assert(discovery_applied(ws0, es.push(e).drop_first(), ws2));
        } else {
            let w = choose|w: Worker| #[trigger] discovered_from(w, e) && ws2 == ws1.push(w);
            assert(discovered_from(w, es.push(e)[0]) && discovery_applied(
                ws0.push(w),
                es.push(e).drop_first(),
                ws2,
            ));
        }
    } else {
        assert(es.push(e)[0] == es[0]);
        assert(es.push(e).drop_first() =~= es.drop_first().push(e));
        if has_host(ws0, es[0].host@) {
            lemma_discovery_applied_snoc(ws0, es.drop_first(), e, ws1, ws2);
        } else {
            let w = choose|w: Worker|
                #[trigger] discovered_from(w, es[0]) && discovery_applied(
                    ws0.push(w),
                    es.drop_first(),
                    ws1,
                );
            lemma_discovery_applied_snoc(ws0.push(w), es.drop_first(), e, ws1, ws2);
            assert(discovered_from(w, es.push(e)[0]) && discovery_applied(
                ws0.push(w),
                es.push(e).drop_first(),
                ws2,
            ));
        }
    }
}

/// Fold parsed discovery entries into the worker list: each entry whose
/// host is not yet present — against the list as it then stands — appends
/// a discovered worker; the rest are skipped.
pub fn apply_discovery(workers: &mut Vec<Worker>, found: &Vec<Endpoint>)
    ensures
        discovery_applied(old(workers)@, found@, final(workers)@),
{
    let n = found.len();
    let mut i: usize = 0;
    while i < n
        invariant
            n == found@.len(),
            0 <= i <= n,
            discovery_applied(old(workers)@, found@.subrange(0, i as int), workers@),
        decreases n - i,
    {
        let ghost ws1 = workers@;
        let e = &found[i];
        let known = worker_index_by_host(workers, &e.host);
        match known {
            Option::Some(_) => {
                proof {
                    assert(discovery_step(ws1, found@[i as int], workers@));
                }
            },
            Option::None => {
                let w = Worker {
                    id: fresh_id(),
                    protocol: copy_text(&e.protocol),
                    host: copy_text(&e.host),
                    public_ip: copy_opt_text(&e.public_ip),
                    udp_ports: Vec::new(),
                    codecs: Vec::new(),
                    encoder: Option::None,
                    status: WorkerStatus::Configuring,
                    stats: WorkerStats { utilization: 0, devices: Vec::new() },
                    server: Option::None,
                    streams: Option::None,
                };
                let ghost wg = w;
                workers.push(w);
                proof {
                    assert(discovered_from(wg, found@[i as int]) && workers@ == ws1.push(wg));
                    assert(discovery_step(ws1, found@[i as int], workers@));
                }
            },
        }
        proof {
            lemma_discovery_applied_snoc(
                old(workers)@,
                found@.subrange(0, i as int),
                found@[i as int],
                ws1,
                workers@,
            );
            assert(found@.subrange(0, i as int).push(found@[i as int]) =~= found@.subrange(
                0,
                i as int + 1,
            ));
        }
        i += 1;
    }
    proof {
        assert(found@.subrange(0, n as int) =~= found@);
    }
}

// What a discovery pass can and cannot change.

/// A discovery pass only appends: the fleet it started from is a prefix
/// of what it leaves.
pub proof fn lemma_discovery_appends(ws0: Seq<Worker>, es: Seq<Endpoint>, ws1: Seq<Worker>)
    requires
        discovery_applied(ws0, es, ws1),
    ensures
        ws1.len() >= ws0.len(),
        forall|i: int| 0 <= i < ws0.len() ==> ws1[i] == ws0[i],
    decreases es.len(),
{
    if es.len() == 0 {
    } else if has_host(ws0, es[0].host@) {
        lemma_discovery_appends(ws0, es.drop_first(), ws1);
    } else {
        let w = choose|w: Worker|
            #[trigger] discovered_from(w, es[0]) && discovery_applied(
                ws0.push(w),
                es.drop_first(),
                ws1,
            );
        lemma_discovery_appends(ws0.push(w), es.drop_first(), ws1);
    }
}

/// After a discovery pass, every discovered host is in the fleet.
pub proof fn lemma_discovery_covers(ws0: Seq<Worker>, es: Seq<Endpoint>, ws1: Seq<Worker>)
    requires
        discovery_applied(ws0, es, ws1),
    ensures
        forall|k: int| 0 <= k < es.len() ==> has_host(ws1, #[trigger] es[k].host@),
    decreases es.len(),
{
    if es.len() == 0 {
    } else {
        assert forall|k: int| 0 <= k < es.len() implies has_host(ws1, #[trigger] es[k].host@) by {
            if has_host(ws0, es[0].host@) {
                lemma_discovery_appends(ws0, es.drop_first(), ws1);
                lemma_discovery_covers(ws0, es.drop_first(), ws1);
                if k == 0 {
                    let x = choose|x: int| 0 <= x < ws0.len() && ws0[x].host@ == es[0].host@;
                    assert(ws1[x].host@ == es[0].host@);
                } else {
                    assert(es.drop_first()[k - 1] == es[k]);
                }
            } else {
                let w = choose|w: Worker|
                    #[trigger] discovered_from(w, es[0]) && discovery_applied(
                        ws0.push(w),
                        es.drop_first(),
                        ws1,
                    );
                lemma_discovery_appends(ws0.push(w), es.drop_first(), ws1);
                lemma_discovery_covers(ws0.push(w), es.drop_first(), ws1);
                if k == 0 {
                    let x = ws0.len() as int;
                    assert(ws0.push(w)[x] == w);
                    assert(ws1[x].host@ == es[0].host@);
                } else {
                    assert(es.drop_first()[k - 1] == es[k]);
                }
            }
        }
    }
}

/// A discovery pass whose hosts the fleet already covers changes nothing.
pub proof fn lemma_discovery_covered_is_noop(
    ws0: Seq<Worker>,
    es: Seq<Endpoint>,
    ws1: Seq<Worker>,
)
    requires
        discovery_applied(ws0, es, ws1),
        forall|k: int| 0 <= k < es.len() ==> has_host(ws0, #[trigger] es[k].host@),
    ensures
        ws1 == ws0,
    decreases es.len(),
{
    if es.len() == 0 {
    } else {
        assert(has_host(ws0, es[0].host@));
        assert forall|k: int|
            0 <= k < es.drop_first().len() implies has_host(
            ws0,
            #[trigger] es.drop_first()[k].host@,
        ) by {
            assert(es.drop_first()[k] == es[k + 1]);
        }
        lemma_discovery_covered_is_noop(ws0, es.drop_first(), ws1);
    }
}

/// Applying the same discovery a second time changes nothing: a host is
/// never added twice.
pub proof fn lemma_discovery_idempotent(
    ws0: Seq<Worker>,
    es: Seq<Endpoint>,
    ws1: Seq<Worker>,
    ws2: Seq<Worker>,
)
    requires
        discovery_applied(ws0, es, ws1),
        discovery_applied(ws1, es, ws2),
    ensures
        ws2 == ws1,
{
    lemma_discovery_covers(ws0, es, ws1);
    lemma_discovery_covered_is_noop(ws1, es, ws2);
}

} // verus!