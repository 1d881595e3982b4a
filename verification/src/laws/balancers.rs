//! What the health of a load balancer's targets means.

use crate::laws::reports;
use crate::laws::reports::{told, told_of};
use crate::lettercase;
use crate::model::{
    ClusterGraph, IngressInfo, IssueView, LbHealth, Severity, TargetGroupHealth, TargetHealth,
};
use crate::pick;
use crate::rules::targets;
use crate::split;
use vstd::prelude::*;

verus! {

/// Does the load balancer hold the target out of service?
pub open spec fn out_of_service(x: TargetHealth) -> bool {
    x.state@ == "unhealthy"@ || x.state@ == "unavailable"@
}

/// Does the group have a target that the load balancer holds healthy?
pub open spec fn one_serves(t: TargetGroupHealth) -> bool {
    exists|j: int| 0 <= j < t.targets@.len() && (#[trigger] t.targets@[j]).state@ == "healthy"@
}

/// Is the target an address that no pod has, and that is not on its way out?
pub open spec fn left_behind(t: TargetGroupHealth, j: int) -> bool {
    t.target_type@ == "ip"@ && t.targets@[j].resolved is None && t.targets@[j].state@
        != "draining"@
}

/// The id of an issue about a group of targets.
pub open spec fn group_id(what: Seq<char>, h: LbHealth, t: TargetGroupHealth) -> Seq<char> {
    what + h.source.namespace@ + "/"@ + h.source.name@ + "/"@ + t.name@
}

proof fn lemma_group_told(g: ClusterGraph, i: int, k: int, x: IssueView)
    requires
        0 <= i < g.lb_health@.len(),
        g.lb_health@[i].error is None,
        0 <= k < g.lb_health@[i].target_groups@.len(),
        targets::group_issue(g, g.lb_health@[i], g.lb_health@[i].target_groups@[k]).contains(x),
    ensures
        targets::lb_target_issues(g).contains(x),
        told(g, x.id, x.severity),
        forall|p: Seq<char>| x.pods.contains(p) ==> #[trigger] told_of(g, x.id, x.severity, p),
{
    let h = g.lb_health@[i];
    let n = h.target_groups@.len() as int;
    let m = g.lb_health@.len() as int;
    let f = |i: int| targets::group_issue(g, h, h.target_groups@[i]);
    reports::lemma_gathered(n, f, k, x);
    assert(targets::health_issues(g, h, n) == pick::gather(n, f));
    let e = |i: int|
        if g.lb_health@[i].error is None {
            targets::health_issues(
                g,
                g.lb_health@[i],
                g.lb_health@[i].target_groups@.len() as int,
            )
        } else {
            Seq::empty()
        };
    reports::lemma_gathered(m, e, i, x);
    assert(targets::cloud_issues(g, m) == pick::gather(m, e));
    reports::lemma_either(
        targets::cloud_issues(g, m),
        targets::gce_issues(g, g.ingresses@.len() as int),
        x,
    );
    reports::lemma_told(g, x);
}

proof fn lemma_bad(t: TargetGroupHealth)
    ensures
        targets::bad_lines(t, t.targets@.len() as int).len() > 0 <==> exists|j: int|
            0 <= j < t.targets@.len() && out_of_service(#[trigger] t.targets@[j]),
        targets::stale_lines(t, t.targets@.len() as int).len() > 0 <==> exists|j: int|
            0 <= j < t.targets@.len() && #[trigger] left_behind(t, j),
        targets::any_healthy(t, t.targets@.len() as int) <==> one_serves(t),
{
    let n = t.targets@.len() as int;
    let f = |i: int|
        if targets::is_bad(t.targets@[i]) {
            seq![targets::target_line(t.targets@[i])]
        } else {
            Seq::empty()
        };
    reports::lemma_gather_len(n, f);
    assert(targets::bad_lines(t, n) == pick::gather(n, f));
    if exists|j: int| 0 <= j < n && out_of_service(#[trigger] t.targets@[j]) {
        let j = choose|j: int| 0 <= j < n && out_of_service(#[trigger] t.targets@[j]);
        assert(f(j).len() == 1);
    }
    let e = |i: int|
        if targets::is_stale(t, i) {
            seq![t.targets@[i].id@ + ": "@ + t.targets@[i].state@]
        } else {
            Seq::empty()
        };
    reports::lemma_gather_len(n, e);
    assert(targets::stale_lines(t, n) == pick::gather(n, e));
    if exists|j: int| 0 <= j < n && #[trigger] left_behind(t, j) {
        let j = choose|j: int| 0 <= j < n && #[trigger] left_behind(t, j);
        assert(e(j).len() == 1);
    }
    if targets::stale_lines(t, n).len() > 0 {
        let j = choose|j: int| 0 <= j < n && (#[trigger] e(j)).len() == 1;
        assert(left_behind(t, j));
    }
    let p = |i: int| t.targets@[i].state@ == "healthy"@;
    pick::lemma_any(n, p);
    assert(targets::any_healthy(t, n) == pick::any(n, p));
    if one_serves(t) {
        let j = choose|j: int| 0 <= j < n && (#[trigger] t.targets@[j]).state@ == "healthy"@;
        assert(p(j));
    }
}

/// A group with a target out of service is told of. It is critical exactly where
/// no target of the group is healthy.
pub proof fn targets_out_of_service_are_told_of(g: ClusterGraph, i: int, k: int, j: int)
    requires
        0 <= i < g.lb_health@.len(),
        g.lb_health@[i].error is None,
        0 <= k < g.lb_health@[i].target_groups@.len(),
        0 <= j < g.lb_health@[i].target_groups@[k].targets@.len(),
        out_of_service(g.lb_health@[i].target_groups@[k].targets@[j]),
    ensures
        told(
            g,
            group_id("lb-targets-unhealthy:"@, g.lb_health@[i], g.lb_health@[i].target_groups@[k]),
            if one_serves(g.lb_health@[i].target_groups@[k]) {
                Severity::Warning
            } else {
                Severity::Critical
            },
        ),
{
    let h = g.lb_health@[i];
    let t = h.target_groups@[k];
    lemma_bad(t);
    let x = targets::unhealthy(g, h, t);
    assert(targets::group_issue(g, h, t)[0] == x);
    lemma_group_told(g, i, k, x);
}

proof fn lemma_two_parts(a: Seq<char>, b: Seq<char>)
    requires
        !a.contains('/'),
    ensures
        split::split_max(a, '/', 2) == seq![a],
        split::split_max(a + "/"@ + b, '/', 2) == seq![a, b],
    decreases a.len() + b.len(),
{
    reveal_strlit("/");
    if b.len() == 0 {
        if a.len() > 0 {
            assert forall|c: char| a.drop_last().contains(c) implies a.contains(c) by {
                let k = choose|k: int| 0 <= k < a.drop_last().len() && a.drop_last()[k] == c;
                assert(a[k] == c);
            }
            lemma_two_parts(a.drop_last(), b);
            assert(a.contains(a.last()));
            assert(a.drop_last().push(a.last()) =~= a);
            assert(split::split_max(a, '/', 2) =~= seq![a]);
        } else {
            assert(a =~= Seq::<char>::empty());
        }
        assert(b =~= Seq::<char>::empty());
        let s = a + "/"@ + b;
        assert(s.drop_last() =~= a);
        assert(s.last() == '/');
        assert(split::split_max(a, '/', 2) =~= seq![a]);
        assert(split::split_max(s, '/', 2) == seq![a].push(Seq::empty()));
        assert(seq![a].push(b) =~= seq![a, b]);
    } else {
        lemma_two_parts(a, b.drop_last());
        let s = a + "/"@ + b;
        assert(s.drop_last() =~= a + "/"@ + b.drop_last());
        assert(s.last() == b.last());
        assert(b.drop_last().push(b.last()) =~= b);
        assert(split::split_max(s, '/', 2) =~= seq![a, b]);
    }
}

/// The pod behind a target out of service is listed.
pub proof fn pods_out_of_service_are_listed(
    g: ClusterGraph,
    i: int,
    k: int,
    j: int,
    ns: Seq<char>,
    pod: Seq<char>,
)
    requires
        0 <= i < g.lb_health@.len(),
        g.lb_health@[i].error is None,
        0 <= k < g.lb_health@[i].target_groups@.len(),
        0 <= j < g.lb_health@[i].target_groups@[k].targets@.len(),
        out_of_service(g.lb_health@[i].target_groups@[k].targets@[j]),
        g.lb_health@[i].target_groups@[k].targets@[j].resolved matches Some(r) && r@ == ns + "/"@
            + pod,
        !ns.contains('/'),
    ensures
        told_of(
            g,
            group_id("lb-targets-unhealthy:"@, g.lb_health@[i], g.lb_health@[i].target_groups@[k]),
            if one_serves(g.lb_health@[i].target_groups@[k]) {
                Severity::Warning
            } else {
                Severity::Critical
            },
            pod,
        ),
{
    let h = g.lb_health@[i];
    let t = h.target_groups@[k];
    let n = t.targets@.len() as int;
    lemma_bad(t);
    lemma_two_parts(ns, pod);
    let x = targets::unhealthy(g, h, t);
    assert(targets::group_issue(g, h, t)[0] == x);
    let f = |i: int|
        if targets::is_bad(t.targets@[i]) {
            targets::target_pods(t.targets@[i])
        } else {
            Seq::empty()
        };
    assert(f(j) == seq![pod]);
    assert(f(j)[0] == pod);
    reports::lemma_gathered(n, f, j, pod);
    assert(targets::bad_pods(t, n) == pick::gather(n, f));
    lemma_group_told(g, i, k, x);
}

/// A group without targets is told of, as critical.
pub proof fn groups_without_targets_are_told_of(g: ClusterGraph, i: int, k: int)
    requires
        0 <= i < g.lb_health@.len(),
        g.lb_health@[i].error is None,
        0 <= k < g.lb_health@[i].target_groups@.len(),
        g.lb_health@[i].target_groups@[k].targets@.len() == 0,
    ensures
        told(
            g,
            group_id("lb-no-targets:"@, g.lb_health@[i], g.lb_health@[i].target_groups@[k]),
            Severity::Critical,
        ),
{
    let h = g.lb_health@[i];
    let t = h.target_groups@[k];
    let x = targets::no_targets(h, t);
    assert(targets::group_issue(g, h, t)[0] == x);
    lemma_group_told(g, i, k, x);
}

/// A target whose address no pod has is told of, as a warning, unless it is
/// draining.
pub proof fn targets_left_behind_are_told_of(g: ClusterGraph, i: int, k: int, j: int)
    requires
        0 <= i < g.lb_health@.len(),
        g.lb_health@[i].error is None,
        0 <= k < g.lb_health@[i].target_groups@.len(),
        0 <= j < g.lb_health@[i].target_groups@[k].targets@.len(),
        left_behind(g.lb_health@[i].target_groups@[k], j),
    ensures
        told(
            g,
            group_id("lb-stale-targets:"@, g.lb_health@[i], g.lb_health@[i].target_groups@[k]),
            Severity::Warning,
        ),
{
    let h = g.lb_health@[i];
    let t = h.target_groups@[k];
    lemma_bad(t);
    let x = targets::stale_targets(h, t);
    let all = targets::group_issue(g, h, t);
    assert(all[all.len() - 1] == x);
    lemma_group_told(g, i, k, x);
}

/// Nothing is told of a group in which every target serves or drains, or waits,
/// and is known.
pub proof fn groups_in_service_are_left_alone(g: ClusterGraph, h: LbHealth, t: TargetGroupHealth)
    requires
        t.targets@.len() > 0,
        forall|j: int|
            0 <= j < t.targets@.len() ==> !out_of_service(#[trigger] t.targets@[j])
                && !left_behind(t, j),
    ensures
        targets::group_issue(g, h, t).len() == 0,
{
    lemma_bad(t);
    if exists|j: int| 0 <= j < t.targets@.len() && #[trigger] left_behind(t, j) {
        let j = choose|j: int| 0 <= j < t.targets@.len() && #[trigger] left_behind(t, j);
        assert(!out_of_service(t.targets@[j]));
    }
}

/// Does the load balancer of the cloud hold this backend unhealthy?
pub open spec fn backend_fails(ing: IngressInfo, k: int) -> bool {
    lettercase::same_letters(ing.gce_backends@[k].1@, "UNHEALTHY"@)
}

/// An issue about targets is about a load balancer whose health was read, or
/// about an ingress with a backend that fails.
pub proof fn only_what_was_read_is_told(g: ClusterGraph, x: IssueView)
    requires
        targets::lb_target_issues(g).contains(x),
    ensures
        (exists|i: int, k: int|
            0 <= i < g.lb_health@.len() && g.lb_health@[i].error is None && 0 <= k
                < g.lb_health@[i].target_groups@.len() && (#[trigger] targets::group_issue(
                g,
                g.lb_health@[i],
                g.lb_health@[i].target_groups@[k],
            )).contains(x)) || (exists|i: int, k: int|
            0 <= i < g.ingresses@.len() && 0 <= k < g.ingresses@[i].gce_backends@.len()
                && #[trigger] backend_fails(g.ingresses@[i], k) && x.id == "lb-gce-unhealthy:"@
                + g.ingresses@[i].namespace@ + "/"@ + g.ingresses@[i].name@),
{
    let m = g.lb_health@.len() as int;
    let n = g.ingresses@.len() as int;
    reports::lemma_either(targets::cloud_issues(g, m), targets::gce_issues(g, n), x);
    if targets::cloud_issues(g, m).contains(x) {
        let e = |i: int|
            if g.lb_health@[i].error is None {
                targets::health_issues(
                    g,
                    g.lb_health@[i],
                    g.lb_health@[i].target_groups@.len() as int,
                )
            } else {
                Seq::empty()
            };
        assert(targets::cloud_issues(g, m) == pick::gather(m, e));
        pick::lemma_gather_contains(m, e, x);
        let i = choose|i: int| 0 <= i < m && (#[trigger] e(i)).contains(x);
        let h = g.lb_health@[i];
        let q = h.target_groups@.len() as int;
        let f = |i: int| targets::group_issue(g, h, h.target_groups@[i]);
        assert(targets::health_issues(g, h, q) == pick::gather(q, f));
        pick::lemma_gather_contains(q, f, x);
        let k = choose|k: int| 0 <= k < q && (#[trigger] f(k)).contains(x);
        assert(targets::group_issue(g, g.lb_health@[i], g.lb_health@[i].target_groups@[k]).contains(
            x,
        ));
    } else {
        let e = |i: int| targets::gce_issue(g.ingresses@[i]);
        assert(targets::gce_issues(g, n) == pick::gather(n, e));
        pick::lemma_gather_contains(n, e, x);
        let i = choose|i: int| 0 <= i < n && (#[trigger] e(i)).contains(x);
        lemma_backends(g.ingresses@[i]);
        let k = choose|k: int|
            0 <= k < g.ingresses@[i].gce_backends@.len() && #[trigger] backend_fails(
                g.ingresses@[i],
                k,
            );
        assert(backend_fails(g.ingresses@[i], k));
    }
}

proof fn lemma_backends(ing: IngressInfo)
    ensures
        targets::gce_lines(ing, ing.gce_backends@.len() as int).len() > 0 <==> exists|k: int|
            0 <= k < ing.gce_backends@.len() && #[trigger] backend_fails(ing, k),
        targets::gce_lines(ing, ing.gce_backends@.len() as int).len() == ing.gce_backends@.len()
            <==> forall|k: int|
            0 <= k < ing.gce_backends@.len() ==> #[trigger] backend_fails(ing, k),
{
    let n = ing.gce_backends@.len() as int;
    let f = |i: int|
        if lettercase::same_letters(ing.gce_backends@[i].1@, "UNHEALTHY"@) {
            seq![ing.gce_backends@[i].0@ + ": "@ + ing.gce_backends@[i].1@]
        } else {
            Seq::empty()
        };
    assert(targets::gce_lines(ing, n) == pick::gather(n, f));
    reports::lemma_gather_len(n, f);
    assert forall|k: int| 0 <= k < n implies (#[trigger] f(k)).len() == 1 <==> backend_fails(
        ing,
        k,
    ) by {
    }
    if exists|k: int| 0 <= k < n && #[trigger] backend_fails(ing, k) {
        let k = choose|k: int| 0 <= k < n && #[trigger] backend_fails(ing, k);
        assert(f(k).len() == 1);
    }
    if pick::gather(n, f).len() == n {
        assert forall|k: int| 0 <= k < n implies #[trigger] backend_fails(ing, k) by {
            assert(f(k).len() == 1);
        }
    }
}

/// An ingress with a backend that the cloud holds unhealthy is told of. It is
/// critical exactly where all its backends are.
pub proof fn failing_backends_are_told_of(g: ClusterGraph, i: int, k: int)
    requires
        0 <= i < g.ingresses@.len(),
        0 <= k < g.ingresses@[i].gce_backends@.len(),
        backend_fails(g.ingresses@[i], k),
    ensures
        told(
            g,
            "lb-gce-unhealthy:"@ + g.ingresses@[i].namespace@ + "/"@ + g.ingresses@[i].name@,
            if forall|m: int|
                0 <= m < g.ingresses@[i].gce_backends@.len() ==> #[trigger] backend_fails(
                    g.ingresses@[i],
                    m,
                ) {
                Severity::Critical
            } else {
                Severity::Warning
            },
        ),
{
    let ing = g.ingresses@[i];
    let n = g.ingresses@.len() as int;
    let m = g.lb_health@.len() as int;
    lemma_backends(ing);
    let x = targets::gce_issue(ing)[0];
    let e = |i: int| targets::gce_issue(g.ingresses@[i]);
    assert(targets::gce_issues(g, n) == pick::gather(n, e));
    assert(e(i).contains(x));
    reports::lemma_gathered(n, e, i, x);
    reports::lemma_either(targets::cloud_issues(g, m), targets::gce_issues(g, n), x);
    reports::lemma_told(g, x);
}

} // verus!
