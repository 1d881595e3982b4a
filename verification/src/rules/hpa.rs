//! Autoscalers that do not scale.

use crate::model;
use crate::model::{
    emit, emit_all, issue, no_issues, target, ClusterGraph, ConditionInfo, HpaInfo, Issue,
    IssueView, Layer, Severity,
};
use crate::numeral;
use crate::numeral::dec_i32;
use crate::pick;
use crate::scan;
use crate::scan::has;
use crate::text;
use crate::text::{cat3, cat4, cat5, cat6, cat7, copy_or_empty, lines1, lines2, no_lines, same};
use vstd::prelude::*;

verus! {

broadcast use crate::pick::lemma_add_nothing;

/// The first condition of a type.
pub open spec fn condition(h: HpaInfo, t: Seq<char>, n: int) -> Option<int> {
    pick::first(n, |i: int| h.conditions@[i].type_@ == t)
}

fn find_condition(h: &HpaInfo, t: &str) -> (r: Option<usize>)
    ensures
        match r {
            Some(k) => k < h.conditions@.len() && condition(*h, t@, h.conditions@.len() as int) == Some(
                k as int,
            ),
            None => condition(*h, t@, h.conditions@.len() as int) is None,
        },
{
    let mut r: Option<usize> = None;
    let mut i: usize = 0;
    while i < h.conditions.len()
        invariant
            i <= h.conditions@.len(),
            match r {
                Some(k) => k < i && condition(*h, t@, i as int) == Some(k as int),
                None => condition(*h, t@, i as int) is None,
            },
        decreases h.conditions@.len() - i,
    {
        if r.is_none() && same(h.conditions[i].type_.as_str(), t) {
            r = Some(i);
        }
        i = i + 1;
    }
    r
}

/// A condition as evidence.
pub open spec fn condition_text(c: ConditionInfo) -> Seq<char> {
    c.type_@ + " "@ + c.status@ + ": "@ + text::or_empty(c.reason) + " "@
        + text::or_empty(c.message)
}

fn condition_line(c: &ConditionInfo) -> (r: String)
    ensures
        r@ == condition_text(*c),
{
    cat7(
        c.type_.as_str(),
        " ",
        c.status.as_str(),
        ": ",
        copy_or_empty(&c.reason).as_str(),
        " ",
        copy_or_empty(&c.message).as_str(),
    )
}

/// How to get an autoscaler its metrics, going by its condition.
pub open spec fn metrics_advice(msg: Seq<char>) -> Seq<char> {
    if scan::contains(msg, "metrics.k8s.io"@) || scan::contains(msg, "unable to fetch metrics"@) || scan::contains(msg, "unable to get metrics"@) {
        "Install or fix metrics-server, and make sure the target pods set CPU/memory requests (utilisation targets need them)."@
    } else if scan::contains(msg, "missing request"@) {
        "Set CPU or memory requests on every container in the target; utilisation targets need them."@
    } else {
        "Check the metric source named above is available."@
    }
}

fn metrics_advice_text(msg: &str) -> (r: String)
    ensures
        r@ == metrics_advice(msg@),
{
    if has(msg, "metrics.k8s.io") || has(msg, "unable to fetch metrics") || has(msg, "unable to get metrics") {
        "Install or fix metrics-server, and make sure the target pods set CPU/memory requests (utilisation targets need them).".to_owned()
    } else if has(msg, "missing request") {
        "Set CPU or memory requests on every container in the target; utilisation targets need them.".to_owned()
    } else {
        "Check the metric source named above is available.".to_owned()
    }
}

/// The issue for an autoscaler without metrics.
pub open spec fn no_metrics(h: HpaInfo, c: ConditionInfo) -> IssueView {
    model::issue_view(
        "hpa-metrics:"@ + h.namespace@ + "/"@ + h.name@,
        Severity::Warning,
        Layer::Workload,
        model::target_view("HorizontalPodAutoscaler"@, h.namespace@, h.name@),
        "Autoscaler "@ + h.name@ + " can't read metrics, so it isn't scaling"@,
        h.target@ + " stays at "@ + numeral::dec(h.current as int)
            + " replicas regardless of load."@,
        seq![condition_text(c)],
        metrics_advice(text::or_empty(c.message)),
        seq!["kubectl describe hpa "@ + h.name@ + " -n "@ + h.namespace@],
        Seq::empty(),
    )
}

fn no_metrics_issue(h: &HpaInfo, c: &ConditionInfo) -> (r: Issue)
    ensures
        r@ == no_metrics(*h, *c),
{
    issue(
        cat4("hpa-metrics:", h.namespace.as_str(), "/", h.name.as_str()),
        Severity::Warning,
        Layer::Workload,
        target("HorizontalPodAutoscaler", h.namespace.as_str(), h.name.as_str()),
        cat3("Autoscaler ", h.name.as_str(), " can't read metrics, so it isn't scaling"),
        cat4(
            h.target.as_str(),
            " stays at ",
            dec_i32(h.current).as_str(),
            " replicas regardless of load.",
        ),
        lines1(condition_line(c)),
        metrics_advice_text(copy_or_empty(&c.message).as_str()),
        lines1(cat4("kubectl describe hpa ", h.name.as_str(), " -n ", h.namespace.as_str())),
        no_lines(),
    )
}

/// The issue for an autoscaler that wants more than it may have.
pub open spec fn at_max(h: HpaInfo, c: ConditionInfo) -> IssueView {
    model::issue_view(
        "hpa-at-max:"@ + h.namespace@ + "/"@ + h.name@,
        Severity::Warning,
        Layer::Workload,
        model::target_view("HorizontalPodAutoscaler"@, h.namespace@, h.name@),
        "Autoscaler "@ + h.name@ + " is at its maximum of "@ + numeral::dec(h.max as int)
            + " replicas"@,
        "It wants more capacity but can't add pods. If latency or errors are rising, this is a likely reason."@,
        seq![
            condition_text(c),
            "current "@ + numeral::dec(h.current as int) + ", desired "@
                + numeral::dec(h.desired as int) + ", max "@ + numeral::dec(h.max as int),
        ],
        "Raise maxReplicas if the cluster has room, or look at why load per pod has grown."@,
        seq!["kubectl describe hpa "@ + h.name@ + " -n "@ + h.namespace@],
        Seq::empty(),
    )
}

fn at_max_issue(h: &HpaInfo, c: &ConditionInfo) -> (r: Issue)
    ensures
        r@ == at_max(*h, *c),
{
    issue(
        cat4("hpa-at-max:", h.namespace.as_str(), "/", h.name.as_str()),
        Severity::Warning,
        Layer::Workload,
        target("HorizontalPodAutoscaler", h.namespace.as_str(), h.name.as_str()),
        cat5(
            "Autoscaler ",
            h.name.as_str(),
            " is at its maximum of ",
            dec_i32(h.max).as_str(),
            " replicas",
        ),
        "It wants more capacity but can't add pods. If latency or errors are rising, this is a likely reason.".to_owned(),
        lines2(
            condition_line(c),
            cat6(
                "current ",
                dec_i32(h.current).as_str(),
                ", desired ",
                dec_i32(h.desired).as_str(),
                ", max ",
                dec_i32(h.max).as_str(),
            ),
        ),
        "Raise maxReplicas if the cluster has room, or look at why load per pod has grown.".to_owned(),
        lines1(cat4("kubectl describe hpa ", h.name.as_str(), " -n ", h.namespace.as_str())),
        no_lines(),
    )
}

/// The issue for an autoscaler that cannot change the number of replicas.
pub open spec fn unable(h: HpaInfo, c: ConditionInfo) -> IssueView {
    model::issue_view(
        "hpa-unable:"@ + h.namespace@ + "/"@ + h.name@,
        Severity::Warning,
        Layer::Workload,
        model::target_view("HorizontalPodAutoscaler"@, h.namespace@, h.name@),
        "Autoscaler "@ + h.name@ + " can't change the replica count"@,
        "It can't update "@ + h.target@ + "."@,
        seq![condition_text(c)],
        "Check the scale target exists and the HPA controller has permission to scale it."@,
        seq!["kubectl describe hpa "@ + h.name@ + " -n "@ + h.namespace@],
        Seq::empty(),
    )
}

fn unable_issue(h: &HpaInfo, c: &ConditionInfo) -> (r: Issue)
    ensures
        r@ == unable(*h, *c),
{
    issue(
        cat4("hpa-unable:", h.namespace.as_str(), "/", h.name.as_str()),
        Severity::Warning,
        Layer::Workload,
        target("HorizontalPodAutoscaler", h.namespace.as_str(), h.name.as_str()),
        cat3("Autoscaler ", h.name.as_str(), " can't change the replica count"),
        cat3("It can't update ", h.target.as_str(), "."),
        lines1(condition_line(c)),
        "Check the scale target exists and the HPA controller has permission to scale it.".to_owned(),
        lines1(cat4("kubectl describe hpa ", h.name.as_str(), " -n ", h.namespace.as_str())),
        no_lines(),
    )
}

/// The condition of a type, where it has this status.
pub open spec fn with_status(h: HpaInfo, t: Seq<char>, status: Seq<char>) -> Option<int> {
    match condition(h, t, h.conditions@.len() as int) {
        Some(i) => if h.conditions@[i].status@ == status {
            Some(i)
        } else {
            None
        },
        None => None,
    }
}

fn find_with_status(h: &HpaInfo, t: &str, status: &str) -> (r: Option<usize>)
    ensures
        match r {
            Some(i) => i < h.conditions@.len() && with_status(*h, t@, status@) == Some(i as int),
            None => with_status(*h, t@, status@) is None,
        },
{
    match find_condition(h, t) {
        Some(i) => if same(h.conditions[i].status.as_str(), status) {
            Some(i)
        } else {
            None
        },
        None => None,
    }
}

/// The issues of one autoscaler.
pub open spec fn hpa_issue(h: HpaInfo) -> Seq<IssueView> {
    (match with_status(h, "ScalingActive"@, "False"@) {
        Some(i) => seq![no_metrics(h, h.conditions@[i])],
        None => match with_status(h, "ScalingLimited"@, "True"@) {
            Some(i) => if h.current >= h.max {
                seq![at_max(h, h.conditions@[i])]
            } else {
                Seq::empty()
            },
            None => Seq::empty(),
        },
    }) + (match with_status(h, "AbleToScale"@, "False"@) {
        Some(i) => seq![unable(h, h.conditions@[i])],
        None => Seq::empty(),
    })
}

fn issues_of_hpa(h: &HpaInfo) -> (r: Vec<Issue>)
    ensures
        model::views(r@) == hpa_issue(*h),
{
    let mut r: Vec<Issue> = no_issues();
    match find_with_status(h, "ScalingActive", "False") {
        Some(i) => emit(&mut r, no_metrics_issue(h, &h.conditions[i])),
        None => match find_with_status(h, "ScalingLimited", "True") {
            Some(i) => {
                if h.current >= h.max {
                    emit(&mut r, at_max_issue(h, &h.conditions[i]));
                }
            },
            None => {},
        },
    }
    match find_with_status(h, "AbleToScale", "False") {
        Some(i) => emit(&mut r, unable_issue(h, &h.conditions[i])),
        None => {},
    }
    r
}

/// The issues of the first `n` autoscalers.
pub open spec fn hpa_issues(g: ClusterGraph, n: int) -> Seq<IssueView> {
    pick::gather(
        n,
        |i: int|
            hpa_issue(g.hpas@[i]),
    )
}

/// Autoscalers that do not scale.
pub fn hpa_rules(g: &ClusterGraph) -> (r: Vec<Issue>)
    ensures
        model::views(r@) == hpa_issues(*g, g.hpas@.len() as int),
{
    let mut r: Vec<Issue> = no_issues();
    let mut i: usize = 0;
    while i < g.hpas.len()
        invariant
            i <= g.hpas@.len(),
            model::views(r@) == hpa_issues(*g, i as int),
        decreases g.hpas@.len() - i,
    {
        emit_all(&mut r, issues_of_hpa(&g.hpas[i]));
        i = i + 1;
    }
    r
}

} // verus!
