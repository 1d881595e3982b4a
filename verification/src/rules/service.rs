//! Services: selectors that match nothing, and services without ready
//! endpoints.

use crate::labels;
use crate::labels::fmt_selector;
use crate::model;
use crate::model::{
    emit, emit_all, issue, no_issues, target, ClusterGraph, Issue, IssueView, Layer, ServiceInfo,
    Severity, WorkloadInfo,
};
use crate::numeral;
use crate::numeral::{dec_i32, dec_u32, dec_usize};
use crate::pick;
use crate::scan;
use crate::scan::has;
use crate::split;
use crate::split::joined;
use crate::text;
use crate::text::{
    cat2, cat3, cat4, cat5, copy_list, lines2, listed, no_lines, same, say, say_all,
};
use vstd::prelude::*;

verus! {

broadcast use crate::pick::lemma_add_nothing;

/// The first workload whose pods the selector of a service would match.
pub open spec fn matched_workload(g: ClusterGraph, s: ServiceInfo, n: int) -> Option<int> {
    pick::first(n, |i: int| text::strs(s.workloads@).contains(g.workloads@[i].id@))
}

fn find_matched(g: &ClusterGraph, s: &ServiceInfo) -> (r: Option<usize>)
    ensures
        match r {
            Some(k) => k < g.workloads@.len() && matched_workload(*g, *s, g.workloads@.len() as int) == Some(
                k as int,
            ),
            None => matched_workload(*g, *s, g.workloads@.len() as int) is None,
        },
{
    let mut r: Option<usize> = None;
    let mut i: usize = 0;
    while i < g.workloads.len()
        invariant
            i <= g.workloads@.len(),
            match r {
                Some(k) => k < i && matched_workload(*g, *s, i as int) == Some(k as int),
                None => matched_workload(*g, *s, i as int) is None,
            },
        decreases g.workloads@.len() - i,
    {
        if r.is_none() && listed(&s.workloads, g.workloads[i].id.as_str()) {
            r = Some(i);
        }
        i = i + 1;
    }
    r
}

/// Do the pods of a workload lack a label that the service selects by?
pub open spec fn lacks_key(s: ServiceInfo, w: WorkloadInfo, n: int) -> bool {
    pick::any(n, |j: int| labels::lookup(w.pod_labels@, s.selector@[j].0) is None)
}

fn lacks_a_key(s: &ServiceInfo, w: &WorkloadInfo) -> (r: bool)
    ensures
        r == lacks_key(*s, *w, s.selector@.len() as int),
{
    let mut r: bool = false;
    let mut j: usize = 0;
    while j < s.selector.len()
        invariant
            j <= s.selector@.len(),
            r == lacks_key(*s, *w, j as int),
        decreases s.selector@.len() - j,
    {
        if !w.pod_labels.contains_key(s.selector.key(j).as_str()) {
            r = true;
        }
        j = j + 1;
    }
    r
}

/// Could the service be meant for a workload? It is in the same namespace and
/// its pods carry the labels that the service selects by.
pub open spec fn candidate(s: ServiceInfo, w: WorkloadInfo) -> bool {
    w.namespace@ == s.namespace@ && !lacks_key(s, w, s.selector@.len() as int)
}

fn is_candidate(s: &ServiceInfo, w: &WorkloadInfo) -> (r: bool)
    ensures
        r == candidate(*s, *w),
{
    same(w.namespace.as_str(), s.namespace.as_str()) && !lacks_a_key(s, w)
}

/// Does one text hold the other, though they differ?
pub open spec fn resembles(a: Seq<char>, b: Seq<char>) -> bool {
    a != b && (scan::contains(b, a) || scan::contains(a, b))
}

fn look_alike(a: &str, b: &str) -> (r: bool)
    ensures
        r == resembles(a@, b@),
{
    !same(a, b) && (has(b, a) || has(a, b))
}

/// Does the pod label under this key of the selector resemble what is selected?
pub open spec fn label_resembles(s: ServiceInfo, w: WorkloadInfo, j: int) -> bool {
    match labels::lookup(w.pod_labels@, s.selector@[j].0) {
        Some(v) => resembles(v, s.selector@[j].1),
        None => false,
    }
}

fn label_looks_alike(s: &ServiceInfo, w: &WorkloadInfo, j: usize) -> (r: bool)
    requires
        j < s.selector@.len(),
    ensures
        r == label_resembles(*s, *w, j as int),
{
    match w.pod_labels.get(s.selector.key(j).as_str()) {
        Some(v) => look_alike(v.as_str(), s.selector.value(j).as_str()),
        None => false,
    }
}

/// Does a label of the pods resemble what the service selects?
pub open spec fn labels_resemble(s: ServiceInfo, w: WorkloadInfo, n: int) -> bool {
    pick::any(n, |j: int| label_resembles(s, w, j))
}

fn labels_look_alike(s: &ServiceInfo, w: &WorkloadInfo) -> (r: bool)
    ensures
        r == labels_resemble(*s, *w, s.selector@.len() as int),
{
    let mut r: bool = false;
    let mut j: usize = 0;
    while j < s.selector.len()
        invariant
            j <= s.selector@.len(),
            r == labels_resemble(*s, *w, j as int),
        decreases s.selector@.len() - j,
    {
        if label_looks_alike(s, w, j) {
            r = true;
        }
        j = j + 1;
    }
    r
}

/// Does a service already lead to the workload?
pub open spec fn served(g: ClusterGraph, w: WorkloadInfo, n: int) -> bool {
    pick::any(n, |i: int| text::strs(g.services@[i].workloads@).contains(w.id@))
}

fn is_served(g: &ClusterGraph, w: &WorkloadInfo) -> (r: bool)
    ensures
        r == served(*g, *w, g.services@.len() as int),
{
    let mut r: bool = false;
    let mut i: usize = 0;
    while i < g.services.len()
        invariant
            i <= g.services@.len(),
            r == served(*g, *w, i as int),
        decreases g.services@.len() - i,
    {
        if listed(&g.services[i].workloads, w.id.as_str()) {
            r = true;
        }
        i = i + 1;
    }
    r
}

/// How likely is a workload the one that the service is meant for? It has the
/// same name, its labels resemble the selector, no service leads to it yet.
pub open spec fn score(g: ClusterGraph, s: ServiceInfo, w: WorkloadInfo) -> int {
    (if w.name@ == s.name@ {
        3int
    } else {
        0int
    }) + (if labels_resemble(s, w, s.selector@.len() as int) {
        2int
    } else {
        0int
    }) + (if served(g, w, g.services@.len() as int) {
        0int
    } else {
        1int
    })
}

fn score_of(g: &ClusterGraph, s: &ServiceInfo, w: &WorkloadInfo) -> (r: u8)
    ensures
        r == score(*g, *s, *w),
        r <= 6,
{
    let mut r: u8 = 0;
    if same(w.name.as_str(), s.name.as_str()) {
        r = r + 3;
    }
    if labels_look_alike(s, w) {
        r = r + 2;
    }
    if !is_served(g, w) {
        r = r + 1;
    }
    r
}

/// The candidates with a certain score, in the order of the cluster.
pub open spec fn with_score(g: ClusterGraph, s: ServiceInfo, sc: int, n: int) -> Seq<int> {
    pick::gather(
        n,
        |i: int|
            if candidate(s, g.workloads@[i]) && score(g, s, g.workloads@[i]) == sc {
                seq![i]
            } else {
                Seq::empty()
            },
    )
}

/// The candidates, the best first; of two with the same score the one that
/// comes first in the cluster.
pub open spec fn ranked(g: ClusterGraph, s: ServiceInfo) -> Seq<int> {
    pick::gather(7, |d: int| with_score(g, s, 6 - d, g.workloads@.len() as int))
}

/// The indices as numbers.
pub open spec fn places(v: Seq<usize>) -> Seq<int> {
    v.map_values(|i: usize| i as int)
}

fn candidates_with(g: &ClusterGraph, s: &ServiceInfo, sc: u8) -> (r: Vec<usize>)
    ensures
        places(r@) == with_score(*g, *s, sc as int, g.workloads@.len() as int),
        forall|k: int| 0 <= k < r@.len() ==> #[trigger] r@[k] < g.workloads@.len(),
{
    let mut r: Vec<usize> = Vec::new();
    let mut i: usize = 0;
    proof {
        assert(places(r@) =~= Seq::empty());
    }
    while i < g.workloads.len()
        invariant
            i <= g.workloads@.len(),
            places(r@) == with_score(*g, *s, sc as int, i as int),
            forall|k: int| 0 <= k < r@.len() ==> #[trigger] r@[k] < g.workloads@.len(),
        decreases g.workloads@.len() - i,
    {
        let w: &WorkloadInfo = &g.workloads[i];
        if is_candidate(s, w) && score_of(g, s, w) == sc {
            let ghost was = r@;
            r.push(i);
            proof {
                assert(places(r@) =~= places(was) + seq![i as int]);
            }
        }
        i = i + 1;
    }
    r
}

fn rank(g: &ClusterGraph, s: &ServiceInfo) -> (r: Vec<usize>)
    ensures
        places(r@) == ranked(*g, *s),
        forall|k: int| 0 <= k < r@.len() ==> #[trigger] r@[k] < g.workloads@.len(),
{
    let mut r: Vec<usize> = Vec::new();
    let ghost f = |d: int| with_score(*g, *s, 6 - d, g.workloads@.len() as int);
    let mut d: u8 = 0;
    proof {
        assert(places(r@) =~= Seq::empty());
    }
    while d < 7
        invariant
            d <= 7,
            f == (|d: int| with_score(*g, *s, 6 - d, g.workloads@.len() as int)),
            places(r@) == pick::gather(d as int, f),
            forall|k: int| 0 <= k < r@.len() ==> #[trigger] r@[k] < g.workloads@.len(),
        decreases 7 - d,
    {
        let mut more: Vec<usize> = candidates_with(g, s, 6 - d);
        let ghost was = r@;
        let ghost added = more@;
        r.append(&mut more);
        proof {
            assert(places(r@) =~= places(was) + places(added));
            assert(places(added) == f(d as int));
            assert forall|k: int| 0 <= k < r@.len() implies #[trigger] r@[k]
                < g.workloads@.len() by {
                if k >= was.len() {
                    assert(r@[k] == added[k - was.len()]);
                }
            }
        }
        d = d + 1;
    }
    r
}

/// The workload that the service is most likely meant for, if one stands out.
pub open spec fn best(g: ClusterGraph, s: ServiceInfo) -> Option<int> {
    let r = ranked(g, s);
    if r.len() > 0 && score(g, s, g.workloads@[r[0]]) >= 2 && (r.len() == 1 || score(
        g,
        s,
        g.workloads@[r[1]],
    ) < score(g, s, g.workloads@[r[0]])) {
        Some(r[0])
    } else {
        None
    }
}

/// The workloads to name: the one that stands out, or the three best.
pub open spec fn to_name(g: ClusterGraph, s: ServiceInfo) -> Seq<int> {
    match best(g, s) {
        Some(i) => seq![i],
        None => text::at_most(ranked(g, s), 3),
    }
}

fn label_text(s: &ServiceInfo, w: &WorkloadInfo, j: usize) -> (r: String)
    requires
        j < s.selector@.len(),
        labels::lookup(w.pod_labels@, s.selector@[j as int].0) is Some,
    ensures
        r@ == s.selector@[j as int].0 + "="@ + labels::lookup(
            w.pod_labels@,
            s.selector@[j as int].0,
        )->0,
{
    match w.pod_labels.get(s.selector.key(j).as_str()) {
        Some(v) => cat3(s.selector.key(j).as_str(), "=", v.as_str()),
        None => "".to_owned(),
    }
}

/// The labels of the pods of a workload under the keys that the service selects by.
pub open spec fn selected_labels(s: ServiceInfo, w: WorkloadInfo, n: int) -> Seq<Seq<char>> {
    pick::gather(
        n,
        |j: int|
            if labels::lookup(w.pod_labels@, s.selector@[j].0) is Some {
                seq![s.selector@[j].0 + "="@ + labels::lookup(w.pod_labels@, s.selector@[j].0)->0]
            } else {
                Seq::empty()
            },
    )
}

fn labels_of(s: &ServiceInfo, w: &WorkloadInfo) -> (r: Vec<String>)
    ensures
        text::strs(r@) == selected_labels(*s, *w, s.selector@.len() as int),
{
    let mut r: Vec<String> = no_lines();
    let mut j: usize = 0;
    while j < s.selector.len()
        invariant
            j <= s.selector@.len(),
            text::strs(r@) == selected_labels(*s, *w, j as int),
        decreases s.selector@.len() - j,
    {
        if w.pod_labels.contains_key(s.selector.key(j).as_str()) {
            say(&mut r, label_text(s, w, j));
        }
        j = j + 1;
    }
    r
}

/// Those labels as `kubectl -l` takes them.
pub open spec fn labels_text(s: ServiceInfo, w: WorkloadInfo) -> Seq<char> {
    split::join(selected_labels(s, w, s.selector@.len() as int), ","@)
}

fn labels_for(s: &ServiceInfo, w: &WorkloadInfo) -> (r: String)
    ensures
        r@ == labels_text(*s, *w),
{
    joined(&labels_of(s, w), ",")
}

/// What the pods of the workloads to name are labelled.
pub open spec fn label_evidence(g: ClusterGraph, s: ServiceInfo, at: Seq<int>, n: int) -> Seq<
    Seq<char>,
> {
    pick::gather(
        n,
        |k: int|
            seq![
                g.workloads@[at[k]].name@ + " pods are labelled "@ + labels_text(
                    s,
                    g.workloads@[at[k]],
                ),
            ],
    )
}

fn label_lines(g: &ClusterGraph, s: &ServiceInfo, at: &Vec<usize>, n: usize) -> (r: Vec<String>)
    requires
        n <= at@.len(),
        forall|k: int| 0 <= k < at@.len() ==> #[trigger] at@[k] < g.workloads@.len(),
    ensures
        text::strs(r@) == label_evidence(*g, *s, places(at@), n as int),
{
    let mut r: Vec<String> = no_lines();
    let mut k: usize = 0;
    while k < n
        invariant
            k <= n <= at@.len(),
            forall|k: int| 0 <= k < at@.len() ==> #[trigger] at@[k] < g.workloads@.len(),
            text::strs(r@) == label_evidence(*g, *s, places(at@), k as int),
        decreases n - k,
    {
        let w: &WorkloadInfo = &g.workloads[at[k]];
        proof {
            assert(places(at@)[k as int] == at@[k as int] as int);
        }
        say(
            &mut r,
            cat3(w.name.as_str(), " pods are labelled ", labels_for(s, w).as_str()),
        );
        k = k + 1;
    }
    r
}

/// How to look at a service and the pods it should have.
pub open spec fn service_commands(s: ServiceInfo) -> Seq<Seq<char>> {
    seq![
        "kubectl describe svc "@ + s.name@ + " -n "@ + s.namespace@,
        "kubectl get pods -n "@ + s.namespace@ + " -l "@ + labels::selector_text(s.selector@),
    ]
}

fn commands_for(s: &ServiceInfo) -> (r: Vec<String>)
    ensures
        text::strs(r@) == service_commands(*s),
{
    lines2(
        cat4("kubectl describe svc ", s.name.as_str(), " -n ", s.namespace.as_str()),
        cat4(
            "kubectl get pods -n ",
            s.namespace.as_str(),
            " -l ",
            fmt_selector(&s.selector).as_str(),
        ),
    )
}

/// The issue for a service whose workload runs no pods.
pub open spec fn scaled_to_zero(s: ServiceInfo, w: WorkloadInfo) -> IssueView {
    model::issue_view(
        "svc-scaled-zero:"@ + s.namespace@ + "/"@ + s.name@,
        Severity::Warning,
        Layer::Service,
        model::target_view("Service"@, s.namespace@, s.name@),
        "Service "@ + s.name@ + " has no pods: "@ + w.name@ + " is scaled to 0"@,
        "The selector matches "@ + w.kind@ + " "@ + w.name@
            + ", which currently runs no pods, so the service has no endpoints."@,
        seq![
            "selector: "@ + labels::selector_text(s.selector@),
            w.id@ + ": desired "@ + numeral::dec(w.desired as int),
        ],
        "Scale "@ + w.name@ + " up if this service should be serving traffic."@,
        service_commands(s),
        Seq::empty(),
    )
}

fn scaled_to_zero_issue(s: &ServiceInfo, w: &WorkloadInfo) -> (r: Issue)
    ensures
        r@ == scaled_to_zero(*s, *w),
{
    issue(
        cat4("svc-scaled-zero:", s.namespace.as_str(), "/", s.name.as_str()),
        Severity::Warning,
        Layer::Service,
        target("Service", s.namespace.as_str(), s.name.as_str()),
        cat5("Service ", s.name.as_str(), " has no pods: ", w.name.as_str(), " is scaled to 0"),
        cat5(
            "The selector matches ",
            w.kind.as_str(),
            " ",
            w.name.as_str(),
            ", which currently runs no pods, so the service has no endpoints.",
        ),
        lines2(
            cat2("selector: ", fmt_selector(&s.selector).as_str()),
            cat3(w.id.as_str(), ": desired ", dec_i32(w.desired).as_str()),
        ),
        cat3("Scale ", w.name.as_str(), " up if this service should be serving traffic."),
        commands_for(s),
        no_lines(),
    )
}

/// How to make the selector match.
pub open spec fn selector_advice(g: ClusterGraph, s: ServiceInfo) -> Seq<char> {
    match best(g, s) {
        Some(i) => "If this service is meant for "@ + g.workloads@[i].name@
            + ", change its selector to "@ + labels_text(s, g.workloads@[i]) + "."@,
        None => "Compare the selector with the labels on the pods this service should reach, and make them match."@,
    }
}

/// The issue for a service that selects no pods.
pub open spec fn no_match(g: ClusterGraph, s: ServiceInfo) -> IssueView {
    let named = to_name(g, s);
    model::issue_view(
        "svc-no-match:"@ + s.namespace@ + "/"@ + s.name@,
        Severity::Critical,
        Layer::Service,
        model::target_view("Service"@, s.namespace@, s.name@),
        "Service "@ + s.name@ + " selects no pods"@,
        "No pod in "@ + s.namespace@ + " has the labels "@ + labels::selector_text(s.selector@)
            + ", so the service has no endpoints and anything routed to it gets connection errors or 503s."@,
        seq!["selector: "@ + labels::selector_text(s.selector@), "endpoints: <none>"@]
            + label_evidence(g, s, named, named.len() as int),
        selector_advice(g, s),
        service_commands(s),
        Seq::empty(),
    )
}

fn no_match_issue(g: &ClusterGraph, s: &ServiceInfo) -> (r: Issue)
    ensures
        r@ == no_match(*g, *s),
{
    let order: Vec<usize> = rank(g, s);
    let ghost ranks = places(order@);
    proof {
        assert forall|k: int| 0 <= k < order@.len() implies ranks[k] == #[trigger] order@[k] by {}
        assert(ranks.len() == order@.len());
    }
    let alone: bool = order.len() > 0 && score_of(g, s, &g.workloads[order[0]]) >= 2 && (order.len()
        == 1 || score_of(g, s, &g.workloads[order[1]]) < score_of(g, s, &g.workloads[order[0]]));
    let shown: usize = if alone {
        1
    } else if order.len() < 3 {
        order.len()
    } else {
        3
    };
    let sel: String = fmt_selector(&s.selector);
    let mut evidence: Vec<String> = lines2(
        cat2("selector: ", sel.as_str()),
        "endpoints: <none>".to_owned(),
    );
    let more: Vec<String> = label_lines(g, s, &order, shown);
    proof {
        let named = to_name(*g, *s);
        assert(alone == (best(*g, *s) is Some));
        assert(named.len() == shown);
        assert forall|k: int| 0 <= k < shown implies named[k] == ranks[k] by {}
        lemma_evidence(*g, *s, ranks, named, shown as int);
    }
    say_all(&mut evidence, more);
    let suggestion: String = if alone {
        let w: &WorkloadInfo = &g.workloads[order[0]];
        cat5(
            "If this service is meant for ",
            w.name.as_str(),
            ", change its selector to ",
            labels_for(s, w).as_str(),
            ".",
        )
    } else {
        "Compare the selector with the labels on the pods this service should reach, and make them match.".to_owned()
    };
    issue(
        cat4("svc-no-match:", s.namespace.as_str(), "/", s.name.as_str()),
        Severity::Critical,
        Layer::Service,
        target("Service", s.namespace.as_str(), s.name.as_str()),
        cat3("Service ", s.name.as_str(), " selects no pods"),
        cat5(
            "No pod in ",
            s.namespace.as_str(),
            " has the labels ",
            sel.as_str(),
            ", so the service has no endpoints and anything routed to it gets connection errors or 503s.",
        ),
        evidence,
        suggestion,
        commands_for(s),
        no_lines(),
    )
}

/// The evidence depends only on the workloads that are named.
proof fn lemma_evidence(g: ClusterGraph, s: ServiceInfo, a: Seq<int>, b: Seq<int>, n: int)
    requires
        n <= a.len(),
        n <= b.len(),
        forall|k: int| 0 <= k < n ==> a[k] == b[k],
    ensures
        label_evidence(g, s, a, n) == label_evidence(g, s, b, n),
    decreases n,
{
    if n > 0 {
        lemma_evidence(g, s, a, b, n - 1);
    }
}

/// Does a pod of the service have a finding of its own?
pub open spec fn pods_explain(s: ServiceInfo, flagged: Seq<Seq<char>>, n: int) -> bool {
    pick::any(n, |i: int| flagged.contains(s.namespace@ + "/"@ + s.pods@[i]@))
}

fn explained_by_pods(s: &ServiceInfo, flagged: &Vec<String>) -> (r: bool)
    ensures
        r == pods_explain(*s, text::strs(flagged@), s.pods@.len() as int),
{
    let mut r: bool = false;
    let mut i: usize = 0;
    while i < s.pods.len()
        invariant
            i <= s.pods@.len(),
            r == pods_explain(*s, text::strs(flagged@), i as int),
        decreases s.pods@.len() - i,
    {
        if listed(flagged, cat3(s.namespace.as_str(), "/", s.pods[i].as_str()).as_str()) {
            r = true;
        }
        i = i + 1;
    }
    r
}

/// The issue for a service whose pods are not ready. It is only a warning where
/// the pods have findings of their own.
pub open spec fn no_ready(s: ServiceInfo, explained: bool) -> IssueView {
    model::issue_view(
        "svc-no-ready:"@ + s.namespace@ + "/"@ + s.name@,
        if explained {
            Severity::Warning
        } else {
            Severity::Critical
        },
        Layer::Service,
        model::target_view("Service"@, s.namespace@, s.name@),
        "Service "@ + s.name@ + " has no ready endpoints"@,
        if explained {
            "The selector matches "@ + numeral::dec(s.pods@.len() as int)
                + " pods, but none are ready. See the pod issues below for the cause."@
        } else {
            "The selector matches "@ + numeral::dec(s.pods@.len() as int)
                + " pods, but none pass their readiness checks."@
        },
        seq![
            "selector: "@ + labels::selector_text(s.selector@),
            "ready endpoints: 0, not ready: "@ + numeral::dec(s.not_ready_endpoints as int),
        ],
        "Check the readiness probe and the pods' recent events."@,
        service_commands(s),
        text::strs(s.pods@),
    )
}

fn no_ready_issue(s: &ServiceInfo, explained: bool) -> (r: Issue)
    ensures
        r@ == no_ready(*s, explained),
{
    let detail: String = if explained {
        cat3(
            "The selector matches ",
            dec_usize(s.pods.len()).as_str(),
            " pods, but none are ready. See the pod issues below for the cause.",
        )
    } else {
        cat3(
            "The selector matches ",
            dec_usize(s.pods.len()).as_str(),
            " pods, but none pass their readiness checks.",
        )
    };
    let severity: Severity = if explained {
        Severity::Warning
    } else {
        Severity::Critical
    };
    issue(
        cat4("svc-no-ready:", s.namespace.as_str(), "/", s.name.as_str()),
        severity,
        Layer::Service,
        target("Service", s.namespace.as_str(), s.name.as_str()),
        cat3("Service ", s.name.as_str(), " has no ready endpoints"),
        detail,
        lines2(
            cat2("selector: ", fmt_selector(&s.selector).as_str()),
            cat2("ready endpoints: 0, not ready: ", dec_u32(s.not_ready_endpoints).as_str()),
        ),
        "Check the readiness probe and the pods' recent events.".to_owned(),
        commands_for(s),
        copy_list(&s.pods),
    )
}

/// The issues of one service.
pub open spec fn service_issue(
    g: ClusterGraph,
    s: ServiceInfo,
    flagged: Seq<Seq<char>>,
) -> Seq<IssueView> {
    if s.selector@.len() == 0 || s.type_@ == "ExternalName"@ {
        Seq::empty()
    } else if s.pods@.len() == 0 {
        match matched_workload(g, s, g.workloads@.len() as int) {
            Some(i) => seq![scaled_to_zero(s, g.workloads@[i])],
            None => seq![no_match(g, s)],
        }
    } else if s.ready_endpoints == 0 {
        seq![no_ready(s, pods_explain(s, flagged, s.pods@.len() as int))]
    } else {
        Seq::empty()
    }
}

fn issues_of_service(g: &ClusterGraph, s: &ServiceInfo, flagged: &Vec<String>) -> (r: Vec<Issue>)
    ensures
        model::views(r@) == service_issue(*g, *s, text::strs(flagged@)),
{
    let mut r: Vec<Issue> = no_issues();
    if s.selector.is_empty() || same(s.type_.as_str(), "ExternalName") {
        return r;
    }
    if s.pods.len() == 0 {
        match find_matched(g, s) {
            Some(i) => emit(&mut r, scaled_to_zero_issue(s, &g.workloads[i])),
            None => emit(&mut r, no_match_issue(g, s)),
        }
    } else if s.ready_endpoints == 0 {
        let explained: bool = explained_by_pods(s, flagged);
        emit(&mut r, no_ready_issue(s, explained));
    }
    r
}

/// The issues of the first `n` services, given the pods with findings.
pub open spec fn service_issues(g: ClusterGraph, flagged: Seq<Seq<char>>, n: int) -> Seq<
    IssueView,
> {
    pick::gather(n, |i: int| service_issue(g, g.services@[i], flagged))
}

/// Services that lead nowhere, given the pods with findings.
pub fn service_rules(g: &ClusterGraph, flagged: &Vec<String>) -> (out: Vec<Issue>)
    ensures
        model::views(out@) == service_issues(
            *g,
            text::strs(flagged@),
            g.services@.len() as int,
        ),
{
    let mut out: Vec<Issue> = no_issues();
    let mut i: usize = 0;
    while i < g.services.len()
        invariant
            i <= g.services@.len(),
            model::views(out@) == service_issues(*g, text::strs(flagged@), i as int),
        decreases g.services@.len() - i,
    {
        emit_all(&mut out, issues_of_service(g, &g.services[i], flagged));
        i = i + 1;
    }
    out
}

} // verus!
