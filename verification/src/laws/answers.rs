//! What the answers to the checks of a network test mean.

use crate::active::analysis;
use crate::active::check::{CheckResult, FindingView, PlannedCheck, ProbeRun, TestPlan};
use crate::laws::reports;
use crate::pick;
use crate::scan;
use vstd::prelude::*;

verus! {

/// Is this what a run says of a check? The first result with the check's label
/// counts.
pub open spec fn says(u: ProbeRun, label: Seq<char>, x: CheckResult) -> bool {
    exists|i: int|
        0 <= i < u.results@.len() && #[trigger] u.results@[i] == x && x.label@ == label && forall|
            j: int,
        | 0 <= j < i ==> (#[trigger] u.results@[j]).label@ != label
}

/// Is the result a status from 200 to 399, by its first digit?
pub open spec fn is_success(x: CheckResult) -> bool {
    x.result@.len() > 0 && (x.result@[0] == '2' || x.result@[0] == '3')
}

/// Is there a finding with this status and title?
pub open spec fn found(
    plan: TestPlan,
    runs: Seq<ProbeRun>,
    status: Seq<char>,
    title: Seq<char>,
) -> bool {
    exists|k: int|
        0 <= k < analysis::meaning(plan, runs).len() && (#[trigger] analysis::meaning(
            plan,
            runs,
        )[k]).status == status && analysis::meaning(plan, runs)[k].title == title
}

/// Has a run come back with results?
pub open spec fn some_came_back(runs: Seq<ProbeRun>) -> bool {
    exists|i: int| 0 <= i < runs.len() && (#[trigger] runs[i]).results@.len() > 0
}

proof fn lemma_says(u: ProbeRun, label: Seq<char>)
    ensures
        match analysis::outcome(u, label) {
            Some(x) => says(u, label, x),
            None => forall|i: int|
                0 <= i < u.results@.len() ==> (#[trigger] u.results@[i]).label@ != label,
        },
        forall|x: CheckResult|
            #[trigger] says(u, label, x) ==> analysis::outcome(u, label) == Some(x),
{
    let n = u.results@.len() as int;
    lemma_result_at(u, label, n);
    match analysis::result_at(u, label, n) {
        Some(i) => {
            let x = u.results@[i];
            assert(says(u, label, x));
            assert forall|y: CheckResult| #[trigger] says(u, label, y) implies y == x by {
                let k = choose|k: int|
                    0 <= k < n && #[trigger] u.results@[k] == y && y.label@ == label && forall|
                        j: int,
                    | 0 <= j < k ==> (#[trigger] u.results@[j]).label@ != label;
                if i < k {
                    assert(u.results@[i].label@ != label);
                }
                assert(k == i);
            }
        },
        None => {},
    }
}

proof fn lemma_result_at(u: ProbeRun, label: Seq<char>, n: int)
    ensures
        match analysis::result_at(u, label, n) {
            Some(i) => 0 <= i < n && u.results@[i].label@ == label && forall|j: int|
                0 <= j < i ==> (#[trigger] u.results@[j]).label@ != label,
            None => forall|j: int| 0 <= j < n ==> (#[trigger] u.results@[j]).label@ != label,
        },
    decreases n,
{
    if n > 0 {
        lemma_result_at(u, label, n - 1);
    }
}

proof fn lemma_check_at(plan: TestPlan, label: Seq<char>, n: int)
    ensures
        match analysis::check_at(plan, label, n) {
            Some(i) => 0 <= i < n && plan.checks@[i].label@ == label && forall|j: int|
                0 <= j < i ==> (#[trigger] plan.checks@[j]).label@ != label,
            None => forall|j: int| 0 <= j < n ==> (#[trigger] plan.checks@[j]).label@ != label,
        },
    decreases n,
{
    if n > 0 {
        lemma_check_at(plan, label, n - 1);
    }
}

proof fn lemma_digit(x: CheckResult)
    ensures
        is_success(x) <==> scan::starts_with(x.result@, "2"@) || scan::starts_with(
            x.result@,
            "3"@,
        ),
{
    reveal_strlit("2");
    reveal_strlit("3");
    let s = x.result@;
    if s.len() > 0 {
        assert(s.subrange(0, 1) =~= seq![s[0]]);
        if s[0] == '2' {
            assert("2"@ =~= seq![s[0]]);
        }
        if s[0] == '3' {
            assert("3"@ =~= seq![s[0]]);
        }
        if s.subrange(0, 1) == "2"@ {
            assert("2"@[0] == s[0]);
        }
        if s.subrange(0, 1) == "3"@ {
            assert("3"@[0] == s[0]);
        }
    }
}

proof fn lemma_unwell(runs: Seq<ProbeRun>, label: Seq<char>)
    ensures
        match analysis::first_unwell(runs, label, runs.len() as int) {
            Some(i) => 0 <= i < runs.len() && exists|x: CheckResult|
                #[trigger] says(runs[i], label, x) && !is_success(x) && analysis::outcome(
                    runs[i],
                    label,
                ) == Some(x),
            None => forall|i: int, x: CheckResult|
                0 <= i < runs.len() && #[trigger] says(runs[i], label, x) ==> is_success(x),
        },
{
    let n = runs.len() as int;
    let f = |i: int| analysis::unwell(runs[i], label);
    pick::lemma_first(n, f);
    assert(analysis::first_unwell(runs, label, n) == pick::first(n, f));
    match pick::first(n, f) {
        Some(i) => {
            assert(f(i));
            lemma_says(runs[i], label);
            lemma_digit(analysis::outcome(runs[i], label)->0);
        },
        None => {
            assert forall|i: int, x: CheckResult|
                0 <= i < n && #[trigger] says(runs[i], label, x) implies is_success(x) by {
                assert(!f(i));
                lemma_says(runs[i], label);
                lemma_digit(x);
            }
        },
    }
}

/// A health endpoint that answers with a status from 200 to 399 in every run
/// makes no finding. One that answers otherwise in some run makes exactly one,
/// a warning.
pub proof fn endpoints_are_judged_by_their_status(runs: Seq<ProbeRun>, c: PlannedCheck)
    ensures
        (forall|i: int, x: CheckResult|
            0 <= i < runs.len() && #[trigger] says(runs[i], c.label@, x) ==> is_success(x))
            <==> analysis::endpoint_finding_of(runs, c).len() == 0,
        analysis::endpoint_finding_of(runs, c).len() <= 1,
        forall|k: int|
            0 <= k < analysis::endpoint_finding_of(runs, c).len()
                ==> (#[trigger] analysis::endpoint_finding_of(runs, c)[k]).status == "warning"@,
{
    lemma_unwell(runs, c.label@);
    match analysis::first_unwell(runs, c.label@, runs.len() as int) {
        Some(i) => {
            let x = choose|x: CheckResult| #[trigger] says(runs[i], c.label@, x) && !is_success(x);
            assert(says(runs[i], c.label@, x) && !is_success(x));
        },
        None => {},
    }
}

proof fn lemma_wrong(runs: Seq<ProbeRun>, label: Seq<char>)
    ensures
        match analysis::first_wrong(runs, label, runs.len() as int) {
            Some(i) => 0 <= i < runs.len() && exists|x: CheckResult|
                #[trigger] says(runs[i], label, x) && x.result@ != "ok"@ && analysis::outcome(
                    runs[i],
                    label,
                ) == Some(x),
            None => forall|i: int, x: CheckResult|
                0 <= i < runs.len() && #[trigger] says(runs[i], label, x) ==> x.result@ == "ok"@,
        },
{
    let n = runs.len() as int;
    let f = |i: int| analysis::went_wrong(runs[i], label);
    pick::lemma_first(n, f);
    assert(analysis::first_wrong(runs, label, n) == pick::first(n, f));
    match pick::first(n, f) {
        Some(i) => {
            assert(f(i));
            lemma_says(runs[i], label);
        },
        None => {
            assert forall|i: int, x: CheckResult|
                0 <= i < n && #[trigger] says(runs[i], label, x) implies x.result@ == "ok"@ by {
                assert(!f(i));
                lemma_says(runs[i], label);
            }
        },
    }
}

proof fn lemma_answered(runs: Seq<ProbeRun>, n: int)
    requires
        0 <= n <= runs.len(),
    ensures
        analysis::answered(runs, n) > 0 <==> exists|i: int|
            0 <= i < n && (#[trigger] runs[i]).results@.len() > 0,
        analysis::answered(runs, n) <= n,
    decreases n,
{
    if n > 0 {
        lemma_answered(runs, n - 1);
        if runs[n - 1].results@.len() > 0 {
            assert(0 <= n - 1 < n && runs[n - 1].results@.len() > 0);
        }
    }
}

pub proof fn lemma_of_either(a: Seq<FindingView>, b: Seq<FindingView>, x: FindingView)
    ensures
        (a + b).contains(x) <==> a.contains(x) || b.contains(x),
{
    if a.contains(x) {
        let k = choose|k: int| 0 <= k < a.len() && a[k] == x;
        assert((a + b)[k] == x);
    }
    if b.contains(x) {
        let k = choose|k: int| 0 <= k < b.len() && b[k] == x;
        assert((a + b)[a.len() + k] == x);
    }
    if (a + b).contains(x) {
        let k = choose|k: int| 0 <= k < (a + b).len() && (a + b)[k] == x;
        if k < a.len() {
            assert(a[k] == x);
        } else {
            assert(b[k - a.len()] == x);
        }
    }
}

/// Where a run came back, every fault is found.
proof fn lemma_found(plan: TestPlan, runs: Seq<ProbeRun>, x: FindingView)
    requires
        some_came_back(runs),
        analysis::incomplete_runs(runs, runs.len() as int).contains(x) || analysis::name_findings(
            plan,
            runs,
        ).contains(x) || analysis::forwarding_findings(runs, runs.len() as int).contains(x)
            || analysis::pod_findings(plan, runs, plan.checks@.len() as int).contains(x)
            || analysis::endpoint_findings(plan, runs, plan.checks@.len() as int).contains(x),
    ensures
        analysis::meaning(plan, runs).contains(x),
        found(plan, runs, x.status, x.title),
{
    lemma_answered(runs, runs.len() as int);
    let a = analysis::incomplete_runs(runs, runs.len() as int);
    let b = analysis::name_findings(plan, runs);
    let c = analysis::forwarding_findings(runs, runs.len() as int);
    let d = analysis::pod_findings(plan, runs, plan.checks@.len() as int);
    let e = analysis::endpoint_findings(plan, runs, plan.checks@.len() as int);
    lemma_of_either(a, b, x);
    lemma_of_either(a + b, c, x);
    lemma_of_either(a + b + c, d, x);
    lemma_of_either(a + b + c + d, e, x);
    let m = analysis::meaning(plan, runs);
    assert(analysis::faults(plan, runs).contains(x));
    assert(m.contains(x));
    let k = choose|k: int| 0 <= k < m.len() && m[k] == x;
    assert(m[k].status == x.status);
}

/// A run that did not complete is told of, as a warning, with its error.
pub proof fn failed_runs_are_told_of(plan: TestPlan, runs: Seq<ProbeRun>, i: int)
    requires
        0 <= i < runs.len(),
        runs[i].error is Some,
    ensures
        exists|k: int|
            0 <= k < analysis::meaning(plan, runs).len() && (#[trigger] analysis::meaning(
                plan,
                runs,
            )[k]).status == "warning"@ && analysis::meaning(plan, runs)[k].detail
                == runs[i].error->0@,
{
    let n = runs.len() as int;
    let x = analysis::incomplete(runs[i]);
    let f = |i: int|
        if runs[i].error is Some {
            seq![analysis::incomplete(runs[i])]
        } else {
            Seq::empty()
        };
    assert(analysis::incomplete_runs(runs, n) == pick::gather(n, f));
    assert(f(i)[0] == x);
    reports::lemma_gathered(n, f, i, x);
    lemma_answered(runs, n);
    let m = analysis::meaning(plan, runs);
    if some_came_back(runs) {
        lemma_found(plan, runs, x);
    } else {
        assert(m == analysis::incomplete_runs(runs, n));
    }
    let k = choose|k: int| 0 <= k < m.len() && m[k] == x;
    assert(m[k].status == "warning"@ && m[k].detail == runs[i].error->0@);
}

/// Where no run came back with results, nothing is said of the service: there is
/// one warning for each run that failed and no more.
pub proof fn silence_means_nothing(plan: TestPlan, runs: Seq<ProbeRun>, x: FindingView)
    requires
        !some_came_back(runs),
        analysis::meaning(plan, runs).contains(x),
    ensures
        x.status == "warning"@,
        exists|i: int| 0 <= i < runs.len() && (#[trigger] runs[i]).error is Some && x.detail
            == runs[i].error->0@,
{
    let n = runs.len() as int;
    lemma_answered(runs, n);
    let f = |i: int|
        if runs[i].error is Some {
            seq![analysis::incomplete(runs[i])]
        } else {
            Seq::empty()
        };
    assert(analysis::incomplete_runs(runs, n) == pick::gather(n, f));
    pick::lemma_gather_contains(n, f, x);
    let i = choose|i: int| 0 <= i < n && (#[trigger] f(i)).contains(x);
    assert(runs[i].error is Some);
}

/// Where a run could not look up a name of the cluster, that is found, and is
/// critical.
pub proof fn broken_dns_is_found(plan: TestPlan, runs: Seq<ProbeRun>, i: int, x: CheckResult)
    requires
        0 <= i < runs.len(),
        says(runs[i], "cluster DNS"@, x),
        x.result@ != "ok"@,
    ensures
        found(
            plan,
            runs,
            "critical"@,
            "Pods in "@ + plan.source_namespace@ + " can't resolve names with cluster DNS"@,
        ),
{
    lemma_wrong(runs, "cluster DNS"@);
    let all = analysis::name_findings(plan, runs);
    assert(all.contains(all[0]));
    assert(runs[i].results@.len() > 0);
    lemma_found(plan, runs, all[0]);
}

/// Where every run could look up names of the cluster, but one could not look up
/// the service, that is found, and is critical.
pub proof fn broken_names_are_found(plan: TestPlan, runs: Seq<ProbeRun>, i: int, x: CheckResult)
    requires
        0 <= i < runs.len(),
        says(runs[i], "service name"@, x),
        x.result@ != "ok"@,
        forall|j: int, y: CheckResult|
            0 <= j < runs.len() && #[trigger] says(runs[j], "cluster DNS"@, y) ==> y.result@
                == "ok"@,
    ensures
        found(
            plan,
            runs,
            "critical"@,
            "The service name for "@ + plan.service.namespace@ + "/"@ + plan.service.name@
                + " doesn't resolve"@,
        ),
{
    lemma_wrong(runs, "cluster DNS"@);
    lemma_wrong(runs, "service name"@);
    let all = analysis::name_findings(plan, runs);
    assert(all.contains(all[0]));
    assert(runs[i].results@.len() > 0);
    lemma_found(plan, runs, all[0]);
    assert("The service name for "@ + (plan.service.namespace@ + "/"@ + plan.service.name@)
        + " doesn't resolve"@ =~= "The service name for "@ + plan.service.namespace@ + "/"@
        + plan.service.name@ + " doesn't resolve"@);
}

/// Is the result that of a connection to a pod that worked?
pub open spec fn pod_answered(x: CheckResult) -> bool {
    scan::starts_with(x.label@, "pod "@) && x.kind@ == "tcp"@ && x.result@ == "ok"@
}

/// Is the result that of a connection to the service's address that failed?
pub open spec fn service_failed(x: CheckResult) -> bool {
    scan::starts_with(x.label@, "service IP"@) && x.result@ != "ok"@
}

/// Where a run reached a pod, but not the service's address, the address does
/// not forward: that is found, and is critical.
pub proof fn addresses_that_do_not_forward_are_found(
    plan: TestPlan,
    runs: Seq<ProbeRun>,
    i: int,
    a: int,
    b: int,
)
    requires
        0 <= i < runs.len(),
        0 <= a < runs[i].results@.len(),
        0 <= b < runs[i].results@.len(),
        pod_answered(runs[i].results@[a]),
        service_failed(runs[i].results@[b]),
    ensures
        found(
            plan,
            runs,
            "critical"@,
            "The service IP isn't forwarding to healthy pods"@ + (match runs[i].node {
                Some(n) => " on node "@ + n@,
                None => Seq::empty(),
            }),
        ),
{
    let u = runs[i];
    let m = u.results@.len() as int;
    let n = runs.len() as int;
    let p = |i: int|
        scan::starts_with(u.results@[i].label@, "pod "@) && u.results@[i].kind@ == "tcp"@
            && u.results@[i].result@ == "ok"@;
    pick::lemma_any(m, p);
    assert(analysis::pod_answers(u, m) == pick::any(m, p));
    assert(p(a));
    let x = analysis::not_forwarded(u, u.results@[b]);
    let f = |i: int|
        if scan::starts_with(u.results@[i].label@, "service IP"@) && u.results@[i].result@ != "ok"@ {
            seq![analysis::not_forwarded(u, u.results@[i])]
        } else {
            Seq::empty()
        };
    assert(analysis::forwarding(u, m) == pick::gather(m, f));
    assert(f(b)[0] == x);
    reports::lemma_gathered(m, f, b, x);
    let e = |i: int|
        if analysis::pod_answers(runs[i], runs[i].results@.len() as int) {
            analysis::forwarding(runs[i], runs[i].results@.len() as int)
        } else {
            Seq::empty()
        };
    assert(analysis::forwarding_findings(runs, n) == pick::gather(n, e));
    assert(e(i).contains(x));
    reports::lemma_gathered(n, e, i, x);
    assert(runs[i].results@.len() > 0);
    lemma_found(plan, runs, x);
}

/// Did no pod answer in the run, or did the service's address not fail?
pub open spec fn shows_no_gap(u: ProbeRun) -> bool {
    (forall|a: int| 0 <= a < u.results@.len() ==> !pod_answered(#[trigger] u.results@[a])) || (
    forall|b: int| 0 <= b < u.results@.len() ==> !service_failed(#[trigger] u.results@[b]))
}

/// Nothing is said of the service's address where no pod answered, or where the
/// address did.
pub proof fn addresses_that_forward_are_left_alone(runs: Seq<ProbeRun>)
    requires
        forall|i: int| 0 <= i < runs.len() ==> shows_no_gap(#[trigger] runs[i]),
    ensures
        analysis::forwarding_findings(runs, runs.len() as int).len() == 0,
{
    let n = runs.len() as int;
    let e = |i: int|
        if analysis::pod_answers(runs[i], runs[i].results@.len() as int) {
            analysis::forwarding(runs[i], runs[i].results@.len() as int)
        } else {
            Seq::empty()
        };
    assert(analysis::forwarding_findings(runs, n) == pick::gather(n, e));
    if pick::gather(n, e).len() > 0 {
        let x = pick::gather(n, e)[0];
        assert(pick::gather(n, e).contains(x));
        pick::lemma_gather_contains(n, e, x);
        let i = choose|i: int| 0 <= i < n && (#[trigger] e(i)).contains(x);
        let u = runs[i];
        let m = u.results@.len() as int;
        let p = |i: int|
            scan::starts_with(u.results@[i].label@, "pod "@) && u.results@[i].kind@ == "tcp"@
                && u.results@[i].result@ == "ok"@;
        pick::lemma_any(m, p);
        assert(analysis::pod_answers(u, m) == pick::any(m, p));
        let a = choose|a: int| 0 <= a < m && #[trigger] p(a);
        assert(pod_answered(runs[i].results@[a]));
        let f = |i: int|
            if scan::starts_with(u.results@[i].label@, "service IP"@) && u.results@[i].result@
                != "ok"@ {
                seq![analysis::not_forwarded(u, u.results@[i])]
            } else {
                Seq::empty()
            };
        assert(analysis::forwarding(u, m) == pick::gather(m, f));
        pick::lemma_gather_contains(m, f, x);
        let b = choose|b: int| 0 <= b < m && (#[trigger] f(b)).contains(x);
        assert(service_failed(runs[i].results@[b]));
        assert(shows_no_gap(runs[i]));
    }
}

proof fn lemma_heard(runs: Seq<ProbeRun>, label: Seq<char>)
    ensures
        match analysis::first_heard(runs, label, runs.len() as int) {
            Some(i) => 0 <= i < runs.len() && exists|x: CheckResult|
                #[trigger] says(runs[i], label, x) && analysis::outcome(runs[i], label) == Some(x),
            None => forall|i: int, x: CheckResult|
                0 <= i < runs.len() ==> !(#[trigger] says(runs[i], label, x)),
        },
{
    let n = runs.len() as int;
    let f = |i: int| analysis::outcome(runs[i], label) is Some;
    pick::lemma_first(n, f);
    assert(analysis::first_heard(runs, label, n) == pick::first(n, f));
    match pick::first(n, f) {
        Some(i) => {
            assert(f(i));
            lemma_says(runs[i], label);
        },
        None => {
            assert forall|i: int, x: CheckResult| 0 <= i < n implies !(#[trigger] says(
                runs[i],
                label,
                x,
            )) by {
                assert(!f(i));
                lemma_says(runs[i], label);
            }
        },
    }
}

/// A pod that every run could connect to makes no finding. One that some run
/// could not connect to makes exactly one, and it is critical.
pub proof fn pods_are_judged_by_every_run(plan: TestPlan, runs: Seq<ProbeRun>, label: Seq<char>)
    ensures
        (forall|i: int, x: CheckResult|
            0 <= i < runs.len() && #[trigger] says(runs[i], label, x) ==> x.result@ == "ok"@)
            <==> analysis::pod_finding(plan, runs, label).len() == 0,
        analysis::pod_finding(plan, runs, label).len() <= 1,
        forall|k: int|
            0 <= k < analysis::pod_finding(plan, runs, label).len()
                ==> (#[trigger] analysis::pod_finding(plan, runs, label)[k]).status == "critical"@,
{
    lemma_wrong(runs, label);
    lemma_heard(runs, label);
    match analysis::first_wrong(runs, label, runs.len() as int) {
        Some(i) => {
            let x = choose|x: CheckResult|
                #[trigger] says(runs[i], label, x) && x.result@ != "ok"@;
            assert(says(runs[i], label, x) && x.result@ != "ok"@);
        },
        None => {},
    }
}

/// Is the check one of a connection to a pod?
pub open spec fn is_of_pod(c: PlannedCheck) -> bool {
    c.kind@ == "tcp"@ && scan::starts_with(c.label@, "pod "@)
}

proof fn lemma_pod_found(plan: TestPlan, runs: Seq<ProbeRun>, i: int)
    requires
        some_came_back(runs),
        0 <= i < plan.checks@.len(),
        is_of_pod(plan.checks@[i]),
        analysis::pod_finding(plan, runs, plan.checks@[i].label@).len() == 1,
    ensures
        found(
            plan,
            runs,
            analysis::pod_finding(plan, runs, plan.checks@[i].label@)[0].status,
            analysis::pod_finding(plan, runs, plan.checks@[i].label@)[0].title,
        ),
{
    let n = plan.checks@.len() as int;
    let x = analysis::pod_finding(plan, runs, plan.checks@[i].label@)[0];
    let f = |i: int|
        if plan.checks@[i].kind@ == "tcp"@ && scan::starts_with(plan.checks@[i].label@, "pod "@) {
            analysis::pod_finding(plan, runs, plan.checks@[i].label@)
        } else {
            Seq::empty()
        };
    assert(analysis::pod_findings(plan, runs, n) == pick::gather(n, f));
    assert(f(i)[0] == x);
    reports::lemma_gathered(n, f, i, x);
    lemma_found(plan, runs, x);
}

/// Do all runs that speak of the check name the same target?
pub open spec fn all_aim_at(runs: Seq<ProbeRun>, label: Seq<char>, target: Seq<char>) -> bool {
    forall|j: int, y: CheckResult|
        0 <= j < runs.len() && #[trigger] says(runs[j], label, y) ==> y.target@ == target
}

proof fn lemma_crossing(runs: Seq<ProbeRun>, label: Seq<char>, node: Option<Seq<char>>)
    requires
        analysis::crosses_badly(runs, label, node),
    ensures
        exists|j: int, y: CheckResult|
            0 <= j < runs.len() && #[trigger] says(runs[j], label, y) && y.result@ == "timeout"@,
{
    let n = runs.len() as int;
    let f = |i: int|
        analysis::outcome(runs[i], label) is Some && runs[i].node is Some && (crate::text::opt(
            runs[i].node,
        ) == node) == false;
    pick::lemma_first(n, f);
    assert(analysis::first_from(runs, label, node, false, n) == pick::first(n, f));
    let j = pick::first(n, f)->0;
    assert(f(j));
    lemma_says(runs[j], label);
    let y = analysis::outcome(runs[j], label)->0;
    assert(says(runs[j], label, y) && y.result@ == "timeout"@);
}

/// Where a pod refused the connection, and no run timed out on it, the finding is
/// that nothing listens there.
pub proof fn refusals_mean_that_nothing_listens(
    plan: TestPlan,
    runs: Seq<ProbeRun>,
    i: int,
    j: int,
    x: CheckResult,
    target: Seq<char>,
)
    requires
        0 <= i < plan.checks@.len(),
        is_of_pod(plan.checks@[i]),
        0 <= j < runs.len(),
        says(runs[j], plan.checks@[i].label@, x),
        all_aim_at(runs, plan.checks@[i].label@, target),
        x.result@ == "refused"@,
        forall|m: int, y: CheckResult|
            0 <= m < runs.len() && #[trigger] says(runs[m], plan.checks@[i].label@, y)
                ==> y.result@ == "ok"@ || y.result@ == "refused"@,
    ensures
        found(plan, runs, "critical"@, "Nothing is listening on "@ + target),
{
    reveal_strlit("refused");
    reveal_strlit("ok");
    reveal_strlit("timeout");
    assert("refused"@[0] != "timeout"@[0]);
    let label = plan.checks@[i].label@;
    lemma_wrong(runs, label);
    lemma_heard(runs, label);
    if analysis::crosses_badly(runs, label, analysis::node_of(plan, label)) {
        lemma_crossing(runs, label, analysis::node_of(plan, label));
    }
    assert(runs[j].results@.len() > 0);
    lemma_pod_found(plan, runs, i);
}

/// Where a run timed out on a pod, and no run could connect to it, the finding is
/// that connections to it time out.
pub proof fn timeouts_mean_that_packets_are_dropped(
    plan: TestPlan,
    runs: Seq<ProbeRun>,
    i: int,
    j: int,
    x: CheckResult,
    target: Seq<char>,
)
    requires
        0 <= i < plan.checks@.len(),
        is_of_pod(plan.checks@[i]),
        0 <= j < runs.len(),
        says(runs[j], plan.checks@[i].label@, x),
        all_aim_at(runs, plan.checks@[i].label@, target),
        forall|m: int, y: CheckResult|
            0 <= m < runs.len() && #[trigger] says(runs[m], plan.checks@[i].label@, y)
                ==> y.result@ == "timeout"@,
    ensures
        found(plan, runs, "critical"@, "Connections to "@ + target + " time out"@),
{
    reveal_strlit("refused");
    reveal_strlit("ok");
    reveal_strlit("timeout");
    assert("refused"@[0] != "timeout"@[0]);
    let label = plan.checks@[i].label@;
    let node = analysis::node_of(plan, label);
    lemma_wrong(runs, label);
    lemma_heard(runs, label);
    if analysis::crosses_badly(runs, label, node) {
        let n = runs.len() as int;
        let f = |i: int|
            analysis::outcome(runs[i], label) is Some && runs[i].node is Some && (crate::text::opt(
                runs[i].node,
            ) == node) == true;
        pick::lemma_first(n, f);
        assert(analysis::first_from(runs, label, node, true, n) == pick::first(n, f));
        let m = pick::first(n, f)->0;
        assert(f(m));
        lemma_says(runs[m], label);
        let y = analysis::outcome(runs[m], label)->0;
        assert(says(runs[m], label, y));
    }
    assert(runs[j].results@.len() > 0);
    lemma_pod_found(plan, runs, i);
}

/// Where the run on a pod's own node could connect to it, but the run on another
/// node timed out, traffic between the nodes is dropped.
pub proof fn timeouts_from_other_nodes_mean_dropped_crossings(
    plan: TestPlan,
    runs: Seq<ProbeRun>,
    i: int,
    near: int,
    far: int,
    x: CheckResult,
    y: CheckResult,
    target: Seq<char>,
)
    requires
        0 <= i < plan.checks@.len(),
        is_of_pod(plan.checks@[i]),
        forall|m: int|
            0 <= m < i ==> (#[trigger] plan.checks@[m]).label@ != plan.checks@[i].label@,
        plan.checks@[i].target_node is Some,
        runs.len() == 2,
        0 <= near < 2,
        0 <= far < 2,
        near != far,
        runs[near].node matches Some(a) && a@ == plan.checks@[i].target_node->0@,
        runs[far].node matches Some(b) && b@ != plan.checks@[i].target_node->0@,
        says(runs[near], plan.checks@[i].label@, x),
        says(runs[far], plan.checks@[i].label@, y),
        x.result@ == "ok"@,
        y.result@ == "timeout"@,
        x.target@ == target,
        y.target@ == target,
    ensures
        found(plan, runs, "critical"@, "Cross-node traffic to "@ + target + " is dropped"@),
{
    reveal_strlit("ok");
    reveal_strlit("timeout");
    let label = plan.checks@[i].label@;
    let node = analysis::node_of(plan, label);
    lemma_check_at(plan, label, plan.checks@.len() as int);
    let at = analysis::check_at(plan, label, plan.checks@.len() as int)->0;
    if at < i {
        assert(plan.checks@[at].label@ != label);
    }
    assert(at == i);
    assert(node == Some(plan.checks@[i].target_node->0@));
    lemma_says(runs[near], label);
    lemma_says(runs[far], label);
    let f = |i: int|
        analysis::outcome(runs[i], label) is Some && runs[i].node is Some && (crate::text::opt(
            runs[i].node,
        ) == node) == true;
    pick::lemma_first(2, f);
    assert(analysis::first_from(runs, label, node, true, 2) == pick::first(2, f));
    assert(f(near) && !f(far));
    let e = |i: int|
        analysis::outcome(runs[i], label) is Some && runs[i].node is Some && (crate::text::opt(
            runs[i].node,
        ) == node) == false;
    pick::lemma_first(2, e);
    assert(analysis::first_from(runs, label, node, false, 2) == pick::first(2, e));
    assert(e(far) && !e(near));
    lemma_wrong(runs, label);
    lemma_heard(runs, label);
    assert("ok"@.len() == 2 && "timeout"@.len() == 7);
    assert(analysis::first_wrong(runs, label, runs.len() as int) is Some);
    assert(analysis::first_heard(runs, label, runs.len() as int) is Some);
    assert(pick::first(2, f) == Some(near));
    assert(pick::first(2, e) == Some(far));
    assert(analysis::crosses_badly(runs, label, node));
    assert(runs[near].results@.len() > 0);
    lemma_pod_found(plan, runs, i);
}

/// Is the label that of a check of a health endpoint?
pub open spec fn of_endpoint(plan: TestPlan, label: Seq<char>) -> bool {
    exists|i: int|
        0 <= i < plan.checks@.len() && (#[trigger] plan.checks@[i]).kind@ == "http"@
            && plan.checks@[i].label@ == label
}

/// Is the label that of a look-up, of a connection to the service or of one to a
/// pod?
pub open spec fn of_connection(plan: TestPlan, label: Seq<char>) -> bool {
    label == "cluster DNS"@ || label == "service name"@ || scan::starts_with(label, "service IP"@)
        || exists|i: int|
        0 <= i < plan.checks@.len() && is_of_pod(#[trigger] plan.checks@[i])
            && plan.checks@[i].label@ == label
}

/// Did the run go well: without an error, with every look-up and connection ok
/// and a status from 200 to 399 of every health endpoint?
pub open spec fn went_well(plan: TestPlan, u: ProbeRun) -> bool {
    u.error is None && forall|k: int|
        0 <= k < u.results@.len() ==> ({
            let x = #[trigger] u.results@[k];
            &&& of_connection(plan, x.label@) ==> x.result@ == "ok"@
            &&& of_endpoint(plan, x.label@) ==> is_success(x)
        })
}

/// Where a run came back, and every run went well, there is one finding: that all
/// is well.
pub proof fn all_is_well_where_every_check_passes(plan: TestPlan, runs: Seq<ProbeRun>)
    requires
        some_came_back(runs),
        forall|i: int| 0 <= i < runs.len() ==> went_well(plan, #[trigger] runs[i]),
    ensures
        analysis::meaning(plan, runs).len() == 1,
        analysis::meaning(plan, runs)[0].status == "ok"@,
{
    lemma_answered(runs, runs.len() as int);
    let n = runs.len() as int;
    let m = plan.checks@.len() as int;
    let f = |i: int|
        if runs[i].error is Some {
            seq![analysis::incomplete(runs[i])]
        } else {
            Seq::empty()
        };
    assert(analysis::incomplete_runs(runs, n) == pick::gather(n, f));
    assert forall|i: int| 0 <= i < n implies (#[trigger] f(i)).len() == 0 by {
        assert(went_well(plan, runs[i]));
    }
    lemma_nothing(n, f);
    lemma_all_ok(plan, runs, "cluster DNS"@);
    lemma_all_ok(plan, runs, "service name"@);
    lemma_wrong(runs, "cluster DNS"@);
    lemma_wrong(runs, "service name"@);
    assert(analysis::name_findings(plan, runs).len() == 0);
    assert forall|i: int| 0 <= i < n implies shows_no_gap(#[trigger] runs[i]) by {
        assert(went_well(plan, runs[i]));
        assert forall|b: int| 0 <= b < runs[i].results@.len() implies !service_failed(
            #[trigger] runs[i].results@[b],
        ) by {
        }
    }
    addresses_that_forward_are_left_alone(runs);
    let d = |i: int|
        if plan.checks@[i].kind@ == "tcp"@ && scan::starts_with(plan.checks@[i].label@, "pod "@) {
            analysis::pod_finding(plan, runs, plan.checks@[i].label@)
        } else {
            Seq::empty()
        };
    assert(analysis::pod_findings(plan, runs, m) == pick::gather(m, d));
    assert forall|i: int| 0 <= i < m implies (#[trigger] d(i)).len() == 0 by {
        if is_of_pod(plan.checks@[i]) {
            lemma_all_ok(plan, runs, plan.checks@[i].label@);
            pods_are_judged_by_every_run(plan, runs, plan.checks@[i].label@);
        }
    }
    lemma_nothing(m, d);
    let e = |i: int|
        if plan.checks@[i].kind@ == "http"@ {
            analysis::endpoint_finding_of(runs, plan.checks@[i])
        } else {
            Seq::empty()
        };
    assert(analysis::endpoint_findings(plan, runs, m) == pick::gather(m, e));
    assert forall|i: int| 0 <= i < m implies (#[trigger] e(i)).len() == 0 by {
        let c = plan.checks@[i];
        if c.kind@ == "http"@ {
            assert(of_endpoint(plan, c.label@));
            assert forall|j: int, x: CheckResult|
                0 <= j < n && #[trigger] says(runs[j], c.label@, x) implies is_success(x) by {
                assert(went_well(plan, runs[j]));
            }
            endpoints_are_judged_by_their_status(runs, c);
        }
    }
    lemma_nothing(m, e);
    assert(analysis::faults(plan, runs).len() == 0);
}

proof fn lemma_all_ok(plan: TestPlan, runs: Seq<ProbeRun>, label: Seq<char>)
    requires
        forall|i: int| 0 <= i < runs.len() ==> went_well(plan, #[trigger] runs[i]),
        of_connection(plan, label),
    ensures
        forall|i: int, x: CheckResult|
            0 <= i < runs.len() && #[trigger] says(runs[i], label, x) ==> x.result@ == "ok"@,
{
    assert forall|i: int, x: CheckResult|
        0 <= i < runs.len() && #[trigger] says(runs[i], label, x) implies x.result@ == "ok"@ by {
        assert(went_well(plan, runs[i]));
    }
}

proof fn lemma_nothing(n: int, f: spec_fn(int) -> Seq<FindingView>)
    requires
        forall|i: int| 0 <= i < n ==> (#[trigger] f(i)).len() == 0,
    ensures
        pick::gather(n, f).len() == 0,
    decreases n,
{
    if n > 0 {
        lemma_nothing(n - 1, f);
        assert(f(n - 1).len() == 0);
    }
}

/// Where a health endpoint answers outside 200 to 399 in some run, that is found,
/// as a warning.
pub proof fn failing_endpoints_are_found(
    plan: TestPlan,
    runs: Seq<ProbeRun>,
    i: int,
    j: int,
    x: CheckResult,
)
    requires
        0 <= i < plan.checks@.len(),
        plan.checks@[i].kind@ == "http"@,
        0 <= j < runs.len(),
        says(runs[j], plan.checks@[i].label@, x),
        !is_success(x),
        forall|m: int, y: CheckResult|
            0 <= m < runs.len() && #[trigger] says(runs[m], plan.checks@[i].label@, y)
                && !is_success(y) ==> y.result@ == x.result@,
    ensures
        x.result@ != "none"@ ==> found(
            plan,
            runs,
            "warning"@,
            plan.checks@[i].label@ + " returns HTTP "@ + x.result@,
        ),
        x.result@ == "none"@ ==> found(
            plan,
            runs,
            "warning"@,
            plan.checks@[i].label@ + " didn't answer within its "@ + crate::numeral::dec(
                plan.checks@[i].timeout as int,
            ) + "s timeout"@,
        ),
{
    let n = plan.checks@.len() as int;
    let c = plan.checks@[i];
    lemma_unwell(runs, c.label@);
    let all = analysis::endpoint_finding_of(runs, c);
    let e = |i: int|
        if plan.checks@[i].kind@ == "http"@ {
            analysis::endpoint_finding_of(runs, plan.checks@[i])
        } else {
            Seq::empty()
        };
    assert(analysis::endpoint_findings(plan, runs, n) == pick::gather(n, e));
    assert(all.len() == 1);
    assert(e(i)[0] == all[0]);
    reports::lemma_gathered(n, e, i, all[0]);
    assert(runs[j].results@.len() > 0);
    lemma_found(plan, runs, all[0]);
}

} // verus!
