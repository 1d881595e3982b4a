//! How things are put into words: scripts, selectors, peers, records, suggestions.

use crate::active::check::{CheckView, NetworkTestReport};
use crate::active::script;
use crate::audit;
use crate::collect::events;
use crate::collect::policies;
use crate::collect::raw::{RawEvent, RawPeer};
use crate::guard;
use crate::guard::Asker;
use crate::labels;
use crate::model::{ClusterGraph, ServiceInfo, WorkloadInfo};
use crate::numeral;
use crate::order;
use crate::pick;
use crate::policy::rules::Environment;
use crate::rules::service;
use crate::scan;
use crate::split;
use crate::text;
use vstd::prelude::*;

verus! {

/// Does a text stand in another, with something before it and something behind it?
pub open spec fn stands_in(s: Seq<char>, p: Seq<char>) -> bool {
    exists|a: Seq<char>, b: Seq<char>| s == #[trigger] ((a + p) + b)
}

proof fn lemma_lines(checks: Seq<CheckView>, i: int, n: int)
    requires
        0 <= i < n <= checks.len(),
    ensures
        stands_in(script::script_upto(checks, n), script::script_line(checks[i])),
    decreases n,
{
    let p = script::script_line(checks[i]);
    let s = script::script_upto(checks, n - 1);
    if i < n - 1 {
        lemma_lines(checks, i, n - 1);
        let (a, b) = choose|a: Seq<char>, b: Seq<char>| s == #[trigger] ((a + p) + b);
        let c = b + script::script_line(checks[n - 1]);
        assert(s + script::script_line(checks[n - 1]) =~= (a + p) + c);
    } else {
        assert(s + p =~= (s + p) + Seq::<char>::empty());
    }
}

/// A probe asks for every check of its plan: names by their host, addresses by host,
/// port and time, endpoints by these and their path, which is the root where the
/// check gives none. At the end it says that it is done.
pub proof fn every_check_is_asked_for(checks: Seq<CheckView>, i: int)
    requires
        0 <= i < checks.len(),
    ensures
        ({
            let c = checks[i];
            let s = script::script(checks);
            let who = " '"@ + c.label + "' '"@ + c.host + "'"@;
            let rest = " "@ + numeral::dec(c.timeout as int);
            &&& c.kind == "dns"@ ==> stands_in(s, "dns"@ + who + "\n"@)
            &&& c.kind == "tcp"@ && c.port is Some ==> stands_in(
                s,
                "tcp"@ + who + " "@ + numeral::dec(c.port->0 as int) + rest + "\n"@,
            )
            &&& c.kind == "http"@ && c.port is Some && c.path is Some ==> stands_in(
                s,
                "http"@ + who + " "@ + numeral::dec(c.port->0 as int) + rest + " '"@ + c.path->0
                    + "'\n"@,
            )
            &&& c.kind == "http"@ && c.port is Some && c.path is None ==> stands_in(
                s,
                "http"@ + who + " "@ + numeral::dec(c.port->0 as int) + rest + " '/'\n"@,
            )
            &&& scan::ends_with(s, "echo DONE\n"@)
        }),
{
    let c = checks[i];
    let n = checks.len() as int;
    let s = script::script(checks);
    let u = script::script_upto(checks, n);
    let p = script::script_line(c);
    lemma_lines(checks, i, n);
    let (a, b) = choose|a: Seq<char>, b: Seq<char>| u == #[trigger] ((a + p) + b);
    let d = b + "echo DONE\n"@;
    assert(s =~= (a + p) + d);
    assert(stands_in(s, p));
    assert(s.subrange(s.len() - "echo DONE\n"@.len(), s.len() as int) =~= "echo DONE\n"@);
    lemma_line(c);
}

proof fn lemma_line(c: CheckView)
    ensures
        ({
            let p = script::script_line(c);
            let who = " '"@ + c.label + "' '"@ + c.host + "'"@;
            let rest = " "@ + numeral::dec(c.timeout as int);
            &&& c.kind == "dns"@ ==> p == "dns"@ + who + "\n"@
            &&& c.kind == "tcp"@ && c.port is Some ==> p == "tcp"@ + who + " "@ + numeral::dec(
                c.port->0 as int,
            ) + rest + "\n"@
            &&& c.kind == "http"@ && c.port is Some && c.path is Some ==> p == "http"@ + who + " "@
                + numeral::dec(c.port->0 as int) + rest + " '"@ + c.path->0 + "'\n"@
            &&& c.kind == "http"@ && c.port is Some && c.path is None ==> p == "http"@ + who + " "@
                + numeral::dec(c.port->0 as int) + rest + " '/'\n"@
        }),
{
    reveal_strlit("dns");
    reveal_strlit("tcp");
    reveal_strlit("http");
    reveal_strlit("dns ");
    reveal_strlit("tcp ");
    reveal_strlit("http ");
    reveal_strlit(" '");
    reveal_strlit("' '");
    reveal_strlit("'");
    reveal_strlit(" ");
    reveal_strlit("\n");
    reveal_strlit("'\n");
    reveal_strlit("/");
    reveal_strlit(" '/'\n");
    let p = script::script_line(c);
    let who = " '"@ + c.label + "' '"@ + c.host + "'"@;
    let rest = " "@ + numeral::dec(c.timeout as int);
    assert("dns"@[0] == 'd' && "tcp"@[0] == 't' && "http"@[0] == 'h');
    if c.kind == "dns"@ {
        assert(p =~= "dns"@ + who + "\n"@);
    } else if c.kind == "tcp"@ && c.port is Some {
        assert(p =~= "tcp"@ + who + " "@ + numeral::dec(c.port->0 as int) + rest + "\n"@);
    } else if c.kind == "http"@ && c.port is Some {
        if c.path is Some {
            assert(p =~= "http"@ + who + " "@ + numeral::dec(c.port->0 as int) + rest + " '"@
                + c.path->0 + "'\n"@);
        } else {
            assert(p =~= "http"@ + who + " "@ + numeral::dec(c.port->0 as int) + rest
                + " '/'\n"@);
        }
    }
}

/// A selector reads as its pairs, with a comma before each but the first.
pub proof fn selectors_read_as_their_pairs(
    s: Seq<(Seq<char>, Seq<char>)>,
    k: Seq<char>,
    v: Seq<char>,
)
    ensures
        labels::selector_text(s.push((k, v))) == if s.len() == 0 {
            k + "="@ + v
        } else {
            labels::selector_text(s) + ","@ + (k + "="@ + v)
        },
{
    let t = s.push((k, v));
    let n = s.len() as int;
    lemma_pairs(s, t, n);
    let a = pick::gather(n, |i: int| seq![s[i].0 + "="@ + s[i].1]);
    let b = pick::gather(n + 1, |i: int| seq![t[i].0 + "="@ + t[i].1]);
    assert(b =~= a.push(k + "="@ + v));
    assert(b.drop_last() =~= a);
    if n == 0 {
        assert(split::join(b, ","@) == b[0]);
    }
}

proof fn lemma_pairs(
    s: Seq<(Seq<char>, Seq<char>)>,
    t: Seq<(Seq<char>, Seq<char>)>,
    n: int,
)
    requires
        0 <= n <= s.len(),
        n <= t.len(),
        forall|i: int| 0 <= i < n ==> s[i] == t[i],
    ensures
        pick::gather(n, |i: int| seq![s[i].0 + "="@ + s[i].1]) == pick::gather(
            n,
            |i: int| seq![t[i].0 + "="@ + t[i].1],
        ),
        pick::gather(n, |i: int| seq![s[i].0 + "="@ + s[i].1]).len() == n,
    decreases n,
{
    if n > 0 {
        lemma_pairs(s, t, n - 1);
    }
}

/// Peers that are chosen by labels read as these.
pub proof fn narrow_peers_read_as_their_labels(p: RawPeer)
    requires
        p.ip_block is None,
    ensures
        p.namespaces is None && (p.pods matches Some(s) && s.labels@.len() > 0 && !s.expressions)
            ==> policies::peer_words(p) == "pods "@ + labels::selector_text(p.pods->0.labels@)
            + " in this namespace"@,
        p.pods is None && (p.namespaces matches Some(s) && s.labels@.len() > 0 && !s.expressions)
            ==> policies::peer_words(p) == "namespaces "@ + labels::selector_text(
            p.namespaces->0.labels@,
        ),
        (p.pods matches Some(s) && s.labels@.len() > 0 && !s.expressions) && (
        p.namespaces matches Some(m) && m.labels@.len() == 0 && !m.expressions)
            ==> policies::peer_words(p) == "pods "@ + labels::selector_text(p.pods->0.labels@)
            + " in "@ + "all namespaces"@,
        p.namespaces is None && (p.pods matches Some(s) && s.labels@.len() == 0 && s.expressions)
            ==> policies::peer_words(p) == "pods "@ + "matching expressions"@
            + " in this namespace"@,
{
}

/// Spaces before a text and behind it are dropped, and nothing else.
pub proof fn spaces_around_are_dropped(a: Seq<char>, s: Seq<char>, b: Seq<char>)
    requires
        forall|i: int| 0 <= i < a.len() ==> is_blank(#[trigger] a[i]),
        forall|i: int| 0 <= i < b.len() ==> is_blank(#[trigger] b[i]),
        s.len() > 0,
        '!' <= s[0] <= '~',
        '!' <= s.last() <= '~',
    ensures
        scan::trim(a + s + b) == s,
{
    lemma_front(a, s + b);
    assert(a + s + b =~= a + (s + b));
    lemma_back(s, b);
}

/// Is this a space, a tab or the end of a line?
pub open spec fn is_blank(c: char) -> bool {
    c == ' ' || c == '\t' || c == '\n' || c == '\r'
}

proof fn lemma_front(a: Seq<char>, s: Seq<char>)
    requires
        forall|i: int| 0 <= i < a.len() ==> is_blank(#[trigger] a[i]),
        s.len() > 0,
        '!' <= s[0] <= '~',
    ensures
        scan::trim_start(a + s) == s,
    decreases a.len(),
{
    let t = a + s;
    if a.len() > 0 {
        assert(t[0] == a[0]);
        assert(t.skip(1) =~= a.skip(1) + s);
        lemma_front(a.skip(1), s);
    } else {
        assert(t =~= s);
        assert(t[0] == s[0]);
    }
}

proof fn lemma_back(s: Seq<char>, b: Seq<char>)
    requires
        forall|i: int| 0 <= i < b.len() ==> is_blank(#[trigger] b[i]),
        s.len() > 0,
        '!' <= s.last() <= '~',
    ensures
        scan::trim_end(s + b) == s,
    decreases b.len(),
{
    let t = s + b;
    if b.len() > 0 {
        assert(t.last() == b.last());
        assert(t.drop_last() =~= s + b.drop_last());
        lemma_back(s, b.drop_last());
    } else {
        assert(t =~= s);
        assert(t.last() == s.last());
    }
}

/// The later an event was seen, the earlier it comes; events without a time come
/// last.
pub proof fn later_events_come_first(es: Seq<RawEvent>, k: int, m: int)
    requires
        0 <= k < m < es.len(),
    ensures
        ({
            let a = es[events::newest_first(es, es.len() as int)[k]];
            let b = es[events::newest_first(es, es.len() as int)[m]];
            &&& (a.last_timestamp matches Some(x) && b.last_timestamp matches Some(y))
                ==> a.last_timestamp->0@ == b.last_timestamp->0@ || order::before(
                b.last_timestamp->0@,
                a.last_timestamp->0@,
            )
            &&& a.last_timestamp is None && a.event_time is None && a.created is None
                ==> b.last_timestamp is None && b.event_time is None && b.created is None
        }),
{
    let n = es.len() as int;
    events::events_come_newest_first(es, n);
    let i = events::newest_first(es, n)[k];
    let j = events::newest_first(es, n)[m];
    if es[i].last_timestamp is Some && es[j].last_timestamp is Some {
        order::lemma_before_total(es[i].last_timestamp->0@, es[j].last_timestamp->0@);
    }
}

/// A test that was run is recorded with who asked for it, where, the pods that it
/// made and removed, and how it came out.
pub proof fn runs_are_recorded(
    asker: Asker,
    context: Seq<char>,
    e: Environment,
    r: NetworkTestReport,
)
    ensures
        ({
            let x = guard::run_record(asker, context, e, r);
            let clean = r.pods_created@.len() == r.pods_deleted@.len();
            let well = forall|i: int|
                0 <= i < r.findings@.len() ==> (#[trigger] r.findings@[i]).status@ == "ok"@;
            &&& x.time == asker.time
            &&& x.user == asker.user@
            &&& x.context == context
            &&& x.action == "network_test_run"@
            &&& x.namespace == Some(r.plan.service.namespace@)
            &&& x.target == Some("service/"@ + r.plan.service.name@)
            &&& x.pods_created == text::strs(r.pods_created@)
            &&& x.pods_deleted == text::strs(r.pods_deleted@)
            &&& e == Environment::Production ==> x.environment == "production"@
            &&& e == Environment::Staging ==> x.environment == "staging"@
            &&& e == Environment::Development ==> x.environment == "development"@
            &&& well && clean ==> x.outcome == "all checks passed"@
            &&& well && !clean ==> x.outcome == "all checks passed"@
                + "; WARNING: not every probe pod was confirmed deleted"@
            &&& !well ==> exists|n: int|
                0 < n <= r.findings@.len() && x.outcome == #[trigger] numeral::dec(n)
                    + " findings"@ + (if clean {
                    Seq::empty()
                } else {
                    "; WARNING: not every probe pod was confirmed deleted"@
                })
        }),
{
    let n = r.findings@.len() as int;
    lemma_failing(r, n);
    let m = guard::failing(r.findings@, n) as int;
    let x = guard::run_record(asker, context, e, r);
    if r.pods_created@.len() == r.pods_deleted@.len() {
        assert("all checks passed"@ + Seq::<char>::empty() =~= "all checks passed"@);
    }
    if m > 0 {
        assert(x.outcome =~= numeral::dec(m) + " findings"@ + (if r.pods_created@.len()
            == r.pods_deleted@.len() {
            Seq::empty()
        } else {
            "; WARNING: not every probe pod was confirmed deleted"@
        }));
    }
}

proof fn lemma_failing(r: NetworkTestReport, n: int)
    requires
        0 <= n <= r.findings@.len(),
    ensures
        guard::failing(r.findings@, n) <= n,
        guard::failing(r.findings@, n) == 0 <==> forall|i: int|
            0 <= i < n ==> (#[trigger] r.findings@[i]).status@ == "ok"@,
    decreases n,
{
    if n > 0 {
        lemma_failing(r, n - 1);
        let f = |i: int| r.findings@[i].status@ != "ok"@;
        assert(guard::failing(r.findings@, n) == guard::failing(r.findings@, n - 1) + (if f(n - 1) {
            1nat
        } else {
            0nat
        }));
        assert(f(n - 1) == (r.findings@[n - 1].status@ != "ok"@));
    }
}

/// The user of a record is the one that the environment names, by the first of its
/// two names.
pub proof fn users_are_known_by_their_first_name(a: Option<String>, b: Option<String>)
    ensures
        a matches Some(u) ==> audit::user_name(a, b) == u@,
        a is None && (b matches Some(u) && true) ==> audit::user_name(a, b) == b->0@,
        a is None && b is None ==> audit::user_name(a, b) == "unknown"@,
{
}

/// Lines that can't be read are passed over, and none are shown where none are
/// wanted.
pub proof fn unreadable_records_are_passed_over(lines: Seq<Option<audit::AuditEntry>>, limit: usize)
    ensures
        audit::recent(lines.push(None), limit) == audit::recent(lines, limit),
        audit::recent(lines, 0).len() == 0,
        audit::recent(lines, limit).len() <= limit,
{
    let more = lines.push(None);
    let n = lines.len() as int;
    lemma_same_entries(lines, more, n);
    assert(audit::entries(more, n + 1) =~= audit::entries(lines, n));
}

proof fn lemma_same_entries(
    a: Seq<Option<audit::AuditEntry>>,
    b: Seq<Option<audit::AuditEntry>>,
    n: int,
)
    requires
        0 <= n <= a.len(),
        n <= b.len(),
        forall|i: int| 0 <= i < n ==> a[i] == b[i],
    ensures
        audit::entries(a, n) == audit::entries(b, n),
    decreases n,
{
    if n > 0 {
        lemma_same_entries(a, b, n - 1);
    }
}

/// Is the workload in the namespace of the service, and do its pods have a label for
/// every key that the service selects by?
pub open spec fn may_be_meant(s: ServiceInfo, w: WorkloadInfo) -> bool {
    w.namespace@ == s.namespace@ && forall|j: int|
        0 <= j < s.selector@.len() ==> labels::lookup(
            w.pod_labels@,
            (#[trigger] s.selector@[j]).0,
        ) is Some
}

/// Is there a label whose value holds the one that the service selects by, or stands
/// in it, without being it?
pub open spec fn is_close(s: ServiceInfo, w: WorkloadInfo) -> bool {
    exists|j: int|
        0 <= j < s.selector@.len() && (match labels::lookup(
            w.pod_labels@,
            (#[trigger] s.selector@[j]).0,
        ) {
            Some(v) => v != s.selector@[j].1 && (scan::contains(v, s.selector@[j].1)
                || scan::contains(s.selector@[j].1, v)),
            None => false,
        })
}

proof fn lemma_meant(s: ServiceInfo, w: WorkloadInfo)
    ensures
        service::candidate(s, w) == may_be_meant(s, w),
        service::labels_resemble(s, w, s.selector@.len() as int) == is_close(s, w),
{
    let n = s.selector@.len() as int;
    let f = |j: int| labels::lookup(w.pod_labels@, s.selector@[j].0) is None;
    pick::lemma_any(n, f);
    if service::lacks_key(s, w, n) {
        let j = choose|j: int| 0 <= j < n && #[trigger] f(j);
        assert(labels::lookup(w.pod_labels@, s.selector@[j].0) is None);
    } else {
        assert forall|j: int| 0 <= j < n implies labels::lookup(
            w.pod_labels@,
            (#[trigger] s.selector@[j]).0,
        ) is Some by {
            assert(!f(j));
        }
    }
    let h = |j: int| service::label_resembles(s, w, j);
    pick::lemma_any(n, h);
    if is_close(s, w) {
        let j = choose|j: int|
            0 <= j < s.selector@.len() && (match labels::lookup(
                w.pod_labels@,
                (#[trigger] s.selector@[j]).0,
            ) {
                Some(v) => v != s.selector@[j].1 && (scan::contains(v, s.selector@[j].1)
                    || scan::contains(s.selector@[j].1, v)),
                None => false,
            });
        assert(h(j));
    }
    if service::labels_resemble(s, w, n) {
        let j = choose|j: int| 0 <= j < n && #[trigger] h(j);
        assert(service::label_resembles(s, w, j));
        assert(s.selector@[j] == s.selector@[j]);
    }
}

proof fn lemma_scored(g: ClusterGraph, s: ServiceInfo, sc: int, n: int)
    requires
        0 <= n <= g.workloads@.len(),
    ensures
        ({
            let r = service::with_score(g, s, sc, n);
            &&& forall|i: int| #[trigger]
                r.contains(i) <==> 0 <= i < n && service::candidate(s, g.workloads@[i])
                    && service::score(g, s, g.workloads@[i]) == sc
            &&& forall|a: int, b: int| 0 <= a < b < r.len() ==> #[trigger] r[a] < #[trigger] r[b]
            &&& forall|a: int| 0 <= a < r.len() ==> 0 <= #[trigger] r[a] < n
        }),
    decreases n,
{
    if n > 0 {
        lemma_scored(g, s, sc, n - 1);
        let q = service::with_score(g, s, sc, n - 1);
        let r = service::with_score(g, s, sc, n);
        let yes = service::candidate(s, g.workloads@[n - 1]) && service::score(
            g,
            s,
            g.workloads@[n - 1],
        ) == sc;
        assert(r =~= if yes {
            q.push(n - 1)
        } else {
            q
        });
        assert forall|i: int| #[trigger] r.contains(i) <==> 0 <= i < n && service::candidate(
            s,
            g.workloads@[i],
        ) && service::score(g, s, g.workloads@[i]) == sc by {
            if yes {
                assert(r[q.len() as int] == n - 1);
                if q.contains(i) {
                    let k = choose|k: int| 0 <= k < q.len() && q[k] == i;
                    assert(r[k] == i);
                }
                if r.contains(i) && i != n - 1 {
                    let k = choose|k: int| 0 <= k < r.len() && r[k] == i;
                    assert(q[k] == i);
                }
            }
        }
    }
}

/// The workloads that a service may be meant for, those with a score above a limit.
spec fn above(g: ClusterGraph, s: ServiceInfo, d: int) -> Seq<int> {
    pick::gather(d, |d: int| service::with_score(g, s, 6 - d, g.workloads@.len() as int))
}

proof fn lemma_above(g: ClusterGraph, s: ServiceInfo, d: int)
    requires
        0 <= d <= 7,
    ensures
        ({
            let r = above(g, s, d);
            &&& forall|i: int| #[trigger]
                r.contains(i) <==> 0 <= i < g.workloads@.len() && service::candidate(
                    s,
                    g.workloads@[i],
                ) && 6 - d < service::score(g, s, g.workloads@[i]) <= 6
            &&& forall|a: int, b: int|
                0 <= a < b < r.len() ==> #[trigger] r[a] != #[trigger] r[b] && service::score(
                    g,
                    s,
                    g.workloads@[r[a]],
                ) >= service::score(g, s, g.workloads@[r[b]])
        }),
    decreases d,
{
    if d > 0 {
        lemma_above(g, s, d - 1);
        let n = g.workloads@.len() as int;
        let q = above(g, s, d - 1);
        let t = service::with_score(g, s, 6 - (d - 1), n);
        let r = above(g, s, d);
        lemma_scored(g, s, 7 - d, n);
        assert(r == q + t);
        assert forall|i: int| #[trigger] r.contains(i) <==> q.contains(i) || t.contains(i) by {
            if q.contains(i) {
                let k = choose|k: int| 0 <= k < q.len() && q[k] == i;
                assert(r[k] == i);
            }
            if t.contains(i) {
                let k = choose|k: int| 0 <= k < t.len() && t[k] == i;
                assert(r[q.len() + k] == i);
            }
            if r.contains(i) {
                let k = choose|k: int| 0 <= k < r.len() && r[k] == i;
                if k < q.len() {
                    assert(q[k] == i);
                } else {
                    assert(t[k - q.len()] == i);
                }
            }
        }
        assert forall|a: int, b: int| 0 <= a < b < r.len() implies #[trigger] r[a]
            != #[trigger] r[b] && service::score(g, s, g.workloads@[r[a]]) >= service::score(
            g,
            s,
            g.workloads@[r[b]],
        ) by {
            if b < q.len() {
                assert(q[a] != q[b]);
            } else if a < q.len() {
                assert(q.contains(q[a]));
                assert(t.contains(t[b - q.len()]));
            } else {
                assert(t.contains(t[a - q.len()]));
                assert(t.contains(t[b - q.len()]));
                assert(t[a - q.len()] < t[b - q.len()]);
            }
        }
    }
}

proof fn lemma_ranked(g: ClusterGraph, s: ServiceInfo)
    ensures
        ({
            let r = service::ranked(g, s);
            &&& forall|i: int| #[trigger]
                r.contains(i) <==> 0 <= i < g.workloads@.len() && may_be_meant(s, g.workloads@[i])
            &&& forall|a: int, b: int|
                0 <= a < b < r.len() ==> #[trigger] r[a] != #[trigger] r[b] && service::score(
                    g,
                    s,
                    g.workloads@[r[a]],
                ) >= service::score(g, s, g.workloads@[r[b]])
        }),
{
    lemma_above(g, s, 7);
    assert(service::ranked(g, s) == above(g, s, 7));
    assert forall|i: int| #[trigger] service::ranked(g, s).contains(i) <==> 0 <= i
        < g.workloads@.len() && may_be_meant(s, g.workloads@[i]) by {
        lemma_meant(s, g.workloads@[i]);
    }
}

/// The workload that a service is taken to be meant for is in its namespace and has
/// its keys, and it has its name or a label that is close to what it selects by. No
/// other that may be meant has the name of the service where this one does not.
pub proof fn suggested_workloads_fit(g: ClusterGraph, s: ServiceInfo, i: int, k: int)
    requires
        service::best(g, s) == Some(i),
    ensures
        0 <= i < g.workloads@.len(),
        may_be_meant(s, g.workloads@[i]),
        g.workloads@[i].name@ == s.name@ || is_close(s, g.workloads@[i]),
        0 <= k < g.workloads@.len() && k != i && may_be_meant(s, g.workloads@[k])
            && g.workloads@[k].name@ == s.name@ ==> g.workloads@[i].name@ == s.name@,
{
    lemma_ranked(g, s);
    let r = service::ranked(g, s);
    assert(r.contains(r[0]));
    lemma_meant(s, g.workloads@[i]);
    if 0 <= k < g.workloads@.len() && k != i && may_be_meant(s, g.workloads@[k]) {
        assert(r.contains(k));
        let t = choose|t: int| 0 <= t < r.len() && r[t] == k;
        assert(t >= 1);
        if t > 1 {
            assert(r[1] != r[t]);
        }
    }
}

/// The one workload with the name of a service that it may be meant for is suggested
/// where the labels of no other come close.
pub proof fn namesakes_are_suggested(g: ClusterGraph, s: ServiceInfo, i: int)
    requires
        0 <= i < g.workloads@.len(),
        may_be_meant(s, g.workloads@[i]),
        g.workloads@[i].name@ == s.name@,
        forall|k: int|
            0 <= k < g.workloads@.len() && k != i && may_be_meant(s, #[trigger] g.workloads@[k])
                ==> g.workloads@[k].name@ != s.name@ && !is_close(s, g.workloads@[k]),
    ensures
        service::best(g, s) == Some(i),
{
    lemma_ranked(g, s);
    let r = service::ranked(g, s);
    assert(r.contains(i));
    let t = choose|t: int| 0 <= t < r.len() && r[t] == i;
    assert(r.contains(r[0]));
    lemma_meant(s, g.workloads@[r[0]]);
    if t > 0 {
        assert(r[0] != r[t]);
        assert(may_be_meant(s, g.workloads@[r[0]]));
    }
    if r.len() > 1 {
        assert(r.contains(r[1]));
        assert(r[0] != r[1]);
        lemma_meant(s, g.workloads@[r[1]]);
        assert(may_be_meant(s, g.workloads@[r[1]]));
    }
}

} // verus!
