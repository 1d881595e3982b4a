//! Workloads that have fewer ready replicas than they want.

use crate::lettercase;
use crate::lettercase::lower;
use crate::model;
use crate::model::{
    emit, issue, no_issues, target, ClusterGraph, Issue, IssueView, Layer, PodInfo, Severity,
    WorkloadInfo,
};
use crate::numeral;
use crate::numeral::dec_i32;
use crate::pick;
use crate::rules::pod;
use crate::rules::pod::key_of;
use crate::text;
use crate::text::{cat2, cat6, cat8, lines1, listed, no_lines, opt_is};
use vstd::prelude::*;

verus! {

broadcast use crate::pick::lemma_add_nothing;

/// Does one of the first `n` pods belong to the workload and have a finding
/// of its own?
pub open spec fn pods_explain(
    g: ClusterGraph,
    w: WorkloadInfo,
    flagged: Seq<Seq<char>>,
    n: int,
) -> bool {
    pick::any(
        n,
        |i: int|
            text::opt(g.pods@[i].workload) == Some(w.id@) && flagged.contains(
                pod::pod_key(g.pods@[i]),
            ),
    )
}

fn explained_by_pods(g: &ClusterGraph, w: &WorkloadInfo, flagged: &Vec<String>) -> (r: bool)
    ensures
        r == pods_explain(*g, *w, text::strs(flagged@), g.pods@.len() as int),
{
    let mut r: bool = false;
    let mut i: usize = 0;
    while i < g.pods.len()
        invariant
            i <= g.pods@.len(),
            r == pods_explain(*g, *w, text::strs(flagged@), i as int),
        decreases g.pods@.len() - i,
    {
        let p: &PodInfo = &g.pods[i];
        if opt_is(&p.workload, w.id.as_str()) && listed(flagged, key_of(p).as_str()) {
            r = true;
        }
        i = i + 1;
    }
    r
}

/// The issue for a workload with too few ready replicas; `kind` is the kind in
/// lower case.
pub open spec fn unavailable(w: WorkloadInfo, kind: Seq<char>) -> IssueView {
    model::issue_view(
        "workload-unavailable:"@ + w.id@,
        Severity::Warning,
        Layer::Workload,
        model::target_view(w.kind@, w.namespace@, w.name@),
        w.kind@ + " "@ + w.name@ + " has "@ + numeral::dec(w.ready as int) + " of "@
            + numeral::dec(w.desired as int) + " replicas ready"@,
        "None of its pods show a specific failure, so this is often a rollout in progress or pods still starting."@,
        seq![
            "desired "@ + numeral::dec(w.desired as int) + ", ready "@
                + numeral::dec(w.ready as int) + ", available "@ + numeral::dec(w.available as int),
        ],
        "Watch the rollout. If it doesn't converge, check the pods' events."@,
        seq!["kubectl rollout status "@ + kind + "/"@ + w.name@ + " -n "@ + w.namespace@],
        Seq::empty(),
    )
}

/// Write the issue for a workload, given its kind in lower case.
pub fn unavailable_issue(w: &WorkloadInfo, kind: &str) -> (r: Issue)
    ensures
        r@ == unavailable(*w, kind@),
{
    issue(
        cat2("workload-unavailable:", w.id.as_str()),
        Severity::Warning,
        Layer::Workload,
        target(w.kind.as_str(), w.namespace.as_str(), w.name.as_str()),
        cat8(
            w.kind.as_str(),
            " ",
            w.name.as_str(),
            " has ",
            dec_i32(w.ready).as_str(),
            " of ",
            dec_i32(w.desired).as_str(),
            " replicas ready",
        ),
        "None of its pods show a specific failure, so this is often a rollout in progress or pods still starting.".to_owned(),
        lines1(
            cat6(
                "desired ",
                dec_i32(w.desired).as_str(),
                ", ready ",
                dec_i32(w.ready).as_str(),
                ", available ",
                dec_i32(w.available).as_str(),
            ),
        ),
        "Watch the rollout. If it doesn't converge, check the pods' events.".to_owned(),
        lines1(
            cat6(
                "kubectl rollout status ",
                kind,
                "/",
                w.name.as_str(),
                " -n ",
                w.namespace.as_str(),
            ),
        ),
        no_lines(),
    )
}

/// The issue of one workload. It stays quiet where the pods explain it.
pub open spec fn workload_issue(
    g: ClusterGraph,
    w: WorkloadInfo,
    flagged: Seq<Seq<char>>,
) -> Seq<IssueView> {
    if w.desired == 0 || w.ready >= w.desired || pods_explain(
        g,
        w,
        flagged,
        g.pods@.len() as int,
    ) {
        Seq::empty()
    } else {
        seq![unavailable(w, lettercase::lowercase(w.kind@))]
    }
}

/// The issues of the first `n` workloads, given the pods with findings.
pub open spec fn workload_issues(g: ClusterGraph, flagged: Seq<Seq<char>>, n: int) -> Seq<
    IssueView,
> {
    pick::gather(n, |i: int| workload_issue(g, g.workloads@[i], flagged))
}

/// Workloads with too few ready replicas, given the pods with findings.
pub fn workload_rules(g: &ClusterGraph, flagged: &Vec<String>) -> (out: Vec<Issue>)
    ensures
        model::views(out@) == workload_issues(
            *g,
            text::strs(flagged@),
            g.workloads@.len() as int,
        ),
{
    let mut out: Vec<Issue> = no_issues();
    let mut i: usize = 0;
    while i < g.workloads.len()
        invariant
            i <= g.workloads@.len(),
            model::views(out@) == workload_issues(*g, text::strs(flagged@), i as int),
        decreases g.workloads@.len() - i,
    {
        let w: &WorkloadInfo = &g.workloads[i];
        if w.desired != 0 && w.ready < w.desired && !explained_by_pods(g, w, flagged) {
            emit(&mut out, unavailable_issue(w, lower(w.kind.as_str()).as_str()));
        }
        i = i + 1;
    }
    out
}

} // verus!
