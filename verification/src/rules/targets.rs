//! What cloud load balancers say about their targets.

use crate::lettercase;
use crate::lettercase::alike;
use crate::model;
use crate::model::{
    emit, emit_all, issue, no_issues, target, ClusterGraph, ContainerSpecInfo, IngressInfo,
    Issue, IssueView, Layer, LbHealth, Severity, TargetGroupHealth, TargetHealth, WorkloadInfo,
};
use crate::numeral;
use crate::numeral::{dec_i32, dec_usize};
use crate::pick;
use crate::rules::pod;
use crate::rules::pod::find_workload;
use crate::rules::storage;
use crate::rules::storage::find_pod_at;
use crate::split;
use crate::split::parts_max;
use crate::text;
use crate::text::{
    cat2, cat3, cat4, cat5, cat6, cat8, copy_or_empty, keep, lines1, lines2, no_lines, opt_copy,
    same, say, say_all,
};
use vstd::prelude::*;

verus! {

broadcast use crate::pick::lemma_add_nothing;

/// What to do about unhealthy targets, going by the reason that the load balancer gives.
pub open spec fn lb_reason_advice(
    reason: Seq<char>,
    hc: Seq<char>,
    path: Option<Seq<char>>,
) -> Seq<char> {
    if reason == "Target.ResponseCodeMismatch"@ {
        "The health check reaches the pods but gets the wrong HTTP status ("@ + hc
            + "). Make that path return a success code, or point the health check at one that does (AWS Load Balancer Controller: the alb.ingress.kubernetes.io/healthcheck-path annotation)."@
            + (match path {
                Some(p) => " Your readiness probe uses "@ + p
                    + ", which is usually the right path."@,
                None => Seq::empty(),
        })
    } else if reason == "Target.Timeout"@ {
        "The load balancer can't reach the targets in time. Most often a security group doesn't let the load balancer reach the node or pod port, or a NetworkPolicy doesn't admit the VPC CIDR."@
    } else if reason == "Target.FailedHealthChecks"@ {
        "Health check connections fail ("@ + hc
            + "). Check the app listens on that port and security groups allow it."@
    } else if reason == "Target.NotInUse"@ {
        "Targets are in an Availability Zone the load balancer isn't enabled for. Add that zone's subnet to the load balancer."@
    } else if reason == "Target.InvalidState"@ {
        "The target instances are stopped or terminated."@
    } else if reason == "Target.IpUnusable"@ {
        "The target IP is in use by a load balancer or isn't valid; the pod may have been replaced."@
    } else if reason == "Target.NotRegistered"@ {
        "Targets aren't registered. Check the TargetGroupBinding and the load balancer controller's logs."@
    } else if reason == "Instance"@ || reason == "ELB"@ {
        "The instances fail the health check ("@ + hc + ")."@
    } else {
        "Check the health check settings ("@ + hc + ") against what the app serves."@
    }
}

/// Say what to do about unhealthy targets, going by the reason that the load
/// balancer gives.
pub fn reason_advice(reason: &str, hc: &str, path: &Option<String>) -> (r: String)
    ensures
        r@ == lb_reason_advice(reason@, hc@, text::opt(*path)),
{
    if same(reason, "Target.ResponseCodeMismatch") {
        match path {
            Some(p) => cat4(
                "The health check reaches the pods but gets the wrong HTTP status (",
                hc,
                "). Make that path return a success code, or point the health check at one that does (AWS Load Balancer Controller: the alb.ingress.kubernetes.io/healthcheck-path annotation).",
                cat3(" Your readiness probe uses ", p.as_str(), ", which is usually the right path.").as_str(),
            ),
            None => cat3(
                "The health check reaches the pods but gets the wrong HTTP status (",
                hc,
                "). Make that path return a success code, or point the health check at one that does (AWS Load Balancer Controller: the alb.ingress.kubernetes.io/healthcheck-path annotation).",
            ),
        }
    } else if same(reason, "Target.Timeout") {
        "The load balancer can't reach the targets in time. Most often a security group doesn't let the load balancer reach the node or pod port, or a NetworkPolicy doesn't admit the VPC CIDR.".to_owned()
    } else if same(reason, "Target.FailedHealthChecks") {
        cat3(
            "Health check connections fail (",
            hc,
            "). Check the app listens on that port and security groups allow it.",
        )
    } else if same(reason, "Target.NotInUse") {
        "Targets are in an Availability Zone the load balancer isn't enabled for. Add that zone's subnet to the load balancer.".to_owned()
    } else if same(reason, "Target.InvalidState") {
        "The target instances are stopped or terminated.".to_owned()
    } else if same(reason, "Target.IpUnusable") {
        "The target IP is in use by a load balancer or isn't valid; the pod may have been replaced.".to_owned()
    } else if same(reason, "Target.NotRegistered") {
        "Targets aren't registered. Check the TargetGroupBinding and the load balancer controller's logs.".to_owned()
    } else if same(reason, "Instance") || same(reason, "ELB") {
        cat3("The instances fail the health check (", hc, ").")
    } else {
        cat3("Check the health check settings (", hc, ") against what the app serves.")
    }
}

/// Is a target out of service?
pub open spec fn is_bad(x: TargetHealth) -> bool {
    x.state@ == "unhealthy"@ || x.state@ == "unavailable"@
}

fn bad(x: &TargetHealth) -> (r: bool)
    ensures
        r == is_bad(*x),
{
    same(x.state.as_str(), "unhealthy") || same(x.state.as_str(), "unavailable")
}

/// Is the target at an index an address that no pod has?
pub open spec fn is_stale(t: TargetGroupHealth, i: int) -> bool {
    t.targets@[i].resolved is None && t.targets@[i].state@ != "draining"@ && t.target_type@ == "ip"@
}

fn stale(t: &TargetGroupHealth, i: usize) -> (r: bool)
    requires
        i < t.targets@.len(),
    ensures
        r == is_stale(*t, i as int),
{
    t.targets[i].resolved.is_none() && !same(t.targets[i].state.as_str(), "draining") && same(
        t.target_type.as_str(),
        "ip",
    )
}

/// Is a target in service?
pub open spec fn any_healthy(t: TargetGroupHealth, n: int) -> bool {
    pick::any(n, |i: int| t.targets@[i].state@ == "healthy"@)
}

fn is_any_healthy(t: &TargetGroupHealth) -> (r: bool)
    ensures
        r == any_healthy(*t, t.targets@.len() as int),
{
    let mut r: bool = false;
    let mut i: usize = 0;
    while i < t.targets.len()
        invariant
            i <= t.targets@.len(),
            r == any_healthy(*t, i as int),
        decreases t.targets@.len() - i,
    {
        if same(t.targets[i].state.as_str(), "healthy") {
            r = true;
        }
        i = i + 1;
    }
    r
}

/// The first target out of service that gives a reason.
pub open spec fn first_reason(t: TargetGroupHealth, n: int) -> Option<int> {
    pick::first(n, |i: int| is_bad(t.targets@[i]) && t.targets@[i].reason is Some)
}

fn find_reason(t: &TargetGroupHealth) -> (r: Option<usize>)
    ensures
        match r {
            Some(k) => k < t.targets@.len() && first_reason(*t, t.targets@.len() as int) == Some(k as int),
            None => first_reason(*t, t.targets@.len() as int) is None,
        },
{
    let mut r: Option<usize> = None;
    let mut i: usize = 0;
    while i < t.targets.len()
        invariant
            i <= t.targets@.len(),
            match r {
                Some(k) => k < i && first_reason(*t, i as int) == Some(k as int),
                None => first_reason(*t, i as int) is None,
            },
        decreases t.targets@.len() - i,
    {
        if r.is_none() && bad(&t.targets[i]) && t.targets[i].reason.is_some() {
            r = Some(i);
        }
        i = i + 1;
    }
    r
}

/// The reason that the load balancer gives.
pub open spec fn reason(t: TargetGroupHealth) -> Seq<char> {
    match first_reason(t, t.targets@.len() as int) {
        Some(i) => text::or_empty(t.targets@[i].reason),
        None => Seq::empty(),
    }
}

fn reason_of(t: &TargetGroupHealth) -> (r: String)
    ensures
        r@ == reason(*t),
{
    match find_reason(t) {
        Some(i) => copy_or_empty(&t.targets[i].reason),
        None => String::new(),
    }
}

/// The namespace and pod that a target is, where it is a pod.
pub open spec fn target_pod(x: TargetHealth) -> Option<(Seq<char>, Seq<char>)> {
    match x.resolved {
        Some(r) => {
            let parts = split::split_max(r@, '/', 2);
            if parts.len() == 2 {
                Some((parts[0], parts[1]))
            } else {
                None
            }
        },
        None => None,
    }
}

fn pod_of_target(x: &TargetHealth) -> (r: Option<(String, String)>)
    ensures
        match r {
            Some(t) => target_pod(*x) == Some((t.0@, t.1@)),
            None => target_pod(*x) is None,
        },
{
    match &x.resolved {
        Some(r) => {
            let p: Vec<String> = parts_max(r.as_str(), '/', 2);
            proof {
                assert(text::strs(p@).len() == p@.len());
                assert(forall|i: int|
                    0 <= i < p@.len() ==> text::strs(p@)[i] == (#[trigger] p@[i])@);
            }
            if p.len() == 2 {
                Some((p[0].clone(), p[1].clone()))
            } else {
                None
            }
        },
        None => None,
    }
}

/// The first readiness probe over HTTP of a container.
pub open spec fn web_probe(c: ContainerSpecInfo, n: int) -> Option<int> {
    pick::first(n, |i: int| c.probes@[i].kind@ == "readiness"@ && c.probes@[i].handler@ == "http"@)
}

fn find_web_probe(c: &ContainerSpecInfo) -> (r: Option<usize>)
    ensures
        match r {
            Some(k) => k < c.probes@.len() && web_probe(*c, c.probes@.len() as int) == Some(k as int),
            None => web_probe(*c, c.probes@.len() as int) is None,
        },
{
    let mut r: Option<usize> = None;
    let mut i: usize = 0;
    while i < c.probes.len()
        invariant
            i <= c.probes@.len(),
            match r {
                Some(k) => k < i && web_probe(*c, i as int) == Some(k as int),
                None => web_probe(*c, i as int) is None,
            },
        decreases c.probes@.len() - i,
    {
        if r.is_none() && same(c.probes[i].kind.as_str(), "readiness") && same(c.probes[i].handler.as_str(), "http") {
            r = Some(i);
        }
        i = i + 1;
    }
    r
}

/// The first container with a readiness probe over HTTP.
pub open spec fn probed_container(w: WorkloadInfo, n: int) -> Option<int> {
    pick::first(
        n,
        |i: int| web_probe(w.containers@[i], w.containers@[i].probes@.len() as int) is Some,
    )
}

fn find_probed(w: &WorkloadInfo) -> (r: Option<usize>)
    ensures
        match r {
            Some(k) => k < w.containers@.len() && probed_container(*w, w.containers@.len() as int) == Some(
                k as int,
            ),
            None => probed_container(*w, w.containers@.len() as int) is None,
        },
{
    let mut r: Option<usize> = None;
    let mut i: usize = 0;
    while i < w.containers.len()
        invariant
            i <= w.containers@.len(),
            match r {
                Some(k) => k < i && probed_container(*w, i as int) == Some(k as int),
                None => probed_container(*w, i as int) is None,
            },
        decreases w.containers@.len() - i,
    {
        if r.is_none() && find_web_probe(&w.containers[i]).is_some() {
            r = Some(i);
        }
        i = i + 1;
    }
    r
}

/// The path of the first readiness probe over HTTP of a workload, if it has
/// such a probe.
pub open spec fn probe_path(w: WorkloadInfo) -> Option<Option<Seq<char>>> {
    match probed_container(w, w.containers@.len() as int) {
        Some(i) => match web_probe(w.containers@[i], w.containers@[i].probes@.len() as int) {
            Some(k) => Some(text::opt(w.containers@[i].probes@[k].path)),
            None => None,
        },
        None => None,
    }
}

fn path_of_probe(w: &WorkloadInfo) -> (r: Option<Option<String>>)
    ensures
        match r {
            Some(p) => probe_path(*w) == Some(text::opt(p)),
            None => probe_path(*w) is None,
        },
{
    match find_probed(w) {
        Some(i) => match find_web_probe(&w.containers[i]) {
            Some(k) => Some(opt_copy(&w.containers[i].probes[k].path)),
            None => None,
        },
        None => None,
    }
}

/// The path of the readiness probe of the pod that a target is.
pub open spec fn target_path(g: ClusterGraph, x: TargetHealth) -> Option<Option<Seq<char>>> {
    match target_pod(x) {
        Some(t) => match storage::pod_at(g, t.0, t.1, g.pods@.len() as int) {
            Some(i) => match pod::workload_at(
                g,
                g.pods@[i].workload,
                g.workloads@.len() as int,
            ) {
                Some(k) => probe_path(g.workloads@[k]),
                None => None,
            },
            None => None,
        },
        None => None,
    }
}

fn path_of_target(g: &ClusterGraph, x: &TargetHealth) -> (r: Option<Option<String>>)
    ensures
        match r {
            Some(p) => target_path(*g, *x) == Some(text::opt(p)),
            None => target_path(*g, *x) is None,
        },
{
    match pod_of_target(x) {
        Some(t) => match find_pod_at(g, t.0.as_str(), t.1.as_str()) {
            Some(i) => match find_workload(g, &g.pods[i].workload) {
                Some(k) => path_of_probe(&g.workloads[k]),
                None => None,
            },
            None => None,
        },
        None => None,
    }
}

/// The first target out of service whose pod has a readiness probe over HTTP.
pub open spec fn first_path(g: ClusterGraph, t: TargetGroupHealth, n: int) -> Option<int> {
    pick::first(n, |i: int| is_bad(t.targets@[i]) && target_path(g, t.targets@[i]) is Some)
}

fn find_path(g: &ClusterGraph, t: &TargetGroupHealth) -> (r: Option<usize>)
    ensures
        match r {
            Some(k) => k < t.targets@.len() && first_path(*g, *t, t.targets@.len() as int) == Some(
                k as int,
            ),
            None => first_path(*g, *t, t.targets@.len() as int) is None,
        },
{
    let mut r: Option<usize> = None;
    let mut i: usize = 0;
    while i < t.targets.len()
        invariant
            i <= t.targets@.len(),
            match r {
                Some(k) => k < i && first_path(*g, *t, i as int) == Some(k as int),
                None => first_path(*g, *t, i as int) is None,
            },
        decreases t.targets@.len() - i,
    {
        if r.is_none() && bad(&t.targets[i]) && path_of_target(g, &t.targets[i]).is_some() {
            r = Some(i);
        }
        i = i + 1;
    }
    r
}

/// The path of the readiness probe behind a target group.
pub open spec fn readiness_path(g: ClusterGraph, t: TargetGroupHealth) -> Option<Seq<char>> {
    match first_path(g, t, t.targets@.len() as int) {
        Some(i) => match target_path(g, t.targets@[i]) {
            Some(p) => p,
            None => None,
        },
        None => None,
    }
}

fn path_behind(g: &ClusterGraph, t: &TargetGroupHealth) -> (r: Option<String>)
    ensures
        text::opt(r) == readiness_path(*g, *t),
{
    match find_path(g, t) {
        Some(i) => match path_of_target(g, &t.targets[i]) {
            Some(p) => p,
            None => None,
        },
        None => None,
    }
}

/// A target out of service as evidence.
pub open spec fn target_line(x: TargetHealth) -> Seq<char> {
    x.id@ + (match x.port {
        Some(p) => ":"@ + numeral::dec(p as int),
        None => Seq::empty(),
    }) + (match x.resolved {
        Some(r) => " ("@ + r@ + ")"@,
        None => Seq::empty(),
    }) + ": "@ + x.state@ + " "@ + text::or_empty(x.reason) + (match x.description {
        Some(d) => ": "@ + d@,
        None => Seq::empty(),
    })
}

fn target_text(x: &TargetHealth) -> (r: String)
    ensures
        r@ == target_line(*x),
{
    let port: String = match x.port {
        Some(p) => cat2(":", dec_i32(p).as_str()),
        None => String::new(),
    };
    let resolved: String = match &x.resolved {
        Some(r) => cat3(" (", r.as_str(), ")"),
        None => String::new(),
    };
    let description: String = match &x.description {
        Some(d) => cat2(": ", d.as_str()),
        None => String::new(),
    };
    cat8(
        x.id.as_str(),
        port.as_str(),
        resolved.as_str(),
        ": ",
        x.state.as_str(),
        " ",
        copy_or_empty(&x.reason).as_str(),
        description.as_str(),
    )
}

/// The targets out of service as evidence.
pub open spec fn bad_lines(t: TargetGroupHealth, n: int) -> Seq<Seq<char>> {
    pick::gather(
        n,
        |i: int|
            if is_bad(t.targets@[i]) {
                seq![target_line(t.targets@[i])]
            } else {
                Seq::empty()
            },
    )
}

fn lines_of_bad(t: &TargetGroupHealth) -> (r: Vec<String>)
    ensures
        text::strs(r@) == bad_lines(*t, t.targets@.len() as int),
{
    let mut r: Vec<String> = no_lines();
    let mut i: usize = 0;
    while i < t.targets.len()
        invariant
            i <= t.targets@.len(),
            text::strs(r@) == bad_lines(*t, i as int),
        decreases t.targets@.len() - i,
    {
        if bad(&t.targets[i]) {
            say(&mut r, target_text(&t.targets[i]));
        }
        i = i + 1;
    }
    r
}

/// The name of the pod that a target is, where it is a pod.
pub open spec fn target_pods(x: TargetHealth) -> Seq<Seq<char>> {
    match target_pod(x) {
        Some(t) => seq![t.1],
        None => Seq::empty(),
    }
}

fn name_of_target(x: &TargetHealth) -> (r: Vec<String>)
    ensures
        text::strs(r@) == target_pods(*x),
{
    match pod_of_target(x) {
        Some(t) => lines1(t.1),
        None => no_lines(),
    }
}

/// The pods that are targets out of service.
pub open spec fn bad_pods(t: TargetGroupHealth, n: int) -> Seq<Seq<char>> {
    pick::gather(
        n,
        |i: int|
            if is_bad(t.targets@[i]) {
                target_pods(t.targets@[i])
            } else {
                Seq::empty()
            },
    )
}

fn pods_of_bad(t: &TargetGroupHealth) -> (r: Vec<String>)
    ensures
        text::strs(r@) == bad_pods(*t, t.targets@.len() as int),
{
    let mut r: Vec<String> = no_lines();
    let mut i: usize = 0;
    while i < t.targets.len()
        invariant
            i <= t.targets@.len(),
            text::strs(r@) == bad_pods(*t, i as int),
        decreases t.targets@.len() - i,
    {
        if bad(&t.targets[i]) {
            say_all(&mut r, name_of_target(&t.targets[i]));
        }
        i = i + 1;
    }
    r
}

/// The addresses that no pod has, as evidence.
pub open spec fn stale_lines(t: TargetGroupHealth, n: int) -> Seq<Seq<char>> {
    pick::gather(
        n,
        |i: int|
            if is_stale(t, i) {
                seq![t.targets@[i].id@ + ": "@ + t.targets@[i].state@]
            } else {
                Seq::empty()
            },
    )
}

fn lines_of_stale(t: &TargetGroupHealth) -> (r: Vec<String>)
    ensures
        text::strs(r@) == stale_lines(*t, t.targets@.len() as int),
{
    let mut r: Vec<String> = no_lines();
    let mut i: usize = 0;
    while i < t.targets.len()
        invariant
            i <= t.targets@.len(),
            text::strs(r@) == stale_lines(*t, i as int),
        decreases t.targets@.len() - i,
    {
        if stale(t, i) {
            say(&mut r, cat3(t.targets[i].id.as_str(), ": ", t.targets[i].state.as_str()));
        }
        i = i + 1;
    }
    r
}

/// The issue for a target group without targets.
pub open spec fn no_targets(h: LbHealth, t: TargetGroupHealth) -> IssueView {
    model::issue_view(
        "lb-no-targets:"@ + h.source.namespace@ + "/"@ + h.source.name@ + "/"@ + t.name@,
        Severity::Critical,
        Layer::Entry,
        model::target_view(h.source.kind@, h.source.namespace@, h.source.name@),
        "Load balancer target group "@ + t.name@ + " has no targets"@,
        h.lb_name@ + " ("@ + h.dns_name@
            + ") has nothing to send traffic to, so every request fails with 503."@,
        seq![
            "target group "@ + t.name@ + ": 0 registered targets"@,
            "health check: "@ + t.health_check@,
        ],
        "Check the backing service has ready endpoints, and the load balancer controller's logs for registration errors."@,
        seq![
            "aws elbv2 describe-target-health --target-group-arn $(aws elbv2 describe-target-groups --names "@
                + t.name@ + " --query 'TargetGroups[0].TargetGroupArn' --output text)"@,
        ],
        Seq::empty(),
    )
}

fn no_targets_issue(h: &LbHealth, t: &TargetGroupHealth) -> (r: Issue)
    ensures
        r@ == no_targets(*h, *t),
{
    issue(
        cat6(
            "lb-no-targets:",
            h.source.namespace.as_str(),
            "/",
            h.source.name.as_str(),
            "/",
            t.name.as_str(),
        ),
        Severity::Critical,
        Layer::Entry,
        target(h.source.kind.as_str(), h.source.namespace.as_str(), h.source.name.as_str()),
        cat3("Load balancer target group ", t.name.as_str(), " has no targets"),
        cat4(
            h.lb_name.as_str(),
            " (",
            h.dns_name.as_str(),
            ") has nothing to send traffic to, so every request fails with 503.",
        ),
        lines2(
            cat3("target group ", t.name.as_str(), ": 0 registered targets"),
            cat2("health check: ", t.health_check.as_str()),
        ),
        "Check the backing service has ready endpoints, and the load balancer controller's logs for registration errors.".to_owned(),
        lines1(
            cat3(
                "aws elbv2 describe-target-health --target-group-arn $(aws elbv2 describe-target-groups --names ",
                t.name.as_str(),
                " --query 'TargetGroups[0].TargetGroupArn' --output text)",
            ),
        ),
        no_lines(),
    )
}

/// The issue for targets that the load balancer holds unhealthy.
pub open spec fn unhealthy(g: ClusterGraph, h: LbHealth, t: TargetGroupHealth) -> IssueView {
    model::issue_view(
        "lb-targets-unhealthy:"@ + h.source.namespace@ + "/"@ + h.source.name@ + "/"@ + t.name@,
        if any_healthy(t, t.targets@.len() as int) {
            Severity::Warning
        } else {
            Severity::Critical
        },
        Layer::Entry,
        model::target_view(h.source.kind@, h.source.namespace@, h.source.name@),
        numeral::dec(bad_lines(t, t.targets@.len() as int).len() as int) + " of "@
            + numeral::dec(t.targets@.len() as int)
            + " load balancer targets are unhealthy in "@ + t.name@,
        if any_healthy(t, t.targets@.len() as int) {
            "Some targets fail the load balancer's health check and receive no traffic, reducing capacity."@
        } else {
            "The cloud load balancer considers every target unhealthy, so users get 502/503 even if the pods look fine inside the cluster."@
        },
        seq!["health check: "@ + t.health_check@] + text::at_most(
            bad_lines(t, t.targets@.len() as int),
            6,
        ),
        lb_reason_advice(reason(t), t.health_check@, readiness_path(g, t)),
        seq![
            "aws elbv2 describe-target-health --target-group-arn $(aws elbv2 describe-target-groups --names "@
                + t.name@ + " --query 'TargetGroups[0].TargetGroupArn' --output text)"@,
        ],
        bad_pods(t, t.targets@.len() as int),
    )
}

fn unhealthy_issue(g: &ClusterGraph, h: &LbHealth, t: &TargetGroupHealth) -> (r: Issue)
    ensures
        r@ == unhealthy(*g, *h, *t),
{
    let healthy: bool = is_any_healthy(t);
    let mut lines: Vec<String> = lines_of_bad(t);
    proof {
        assert(text::strs(lines@).len() == lines@.len());
    }
    let count: String = dec_usize(lines.len());
    keep(&mut lines, 6);
    let mut evidence: Vec<String> = lines1(cat2("health check: ", t.health_check.as_str()));
    say_all(&mut evidence, lines);
    let detail: String = if healthy {
        "Some targets fail the load balancer's health check and receive no traffic, reducing capacity.".to_owned()
    } else {
        "The cloud load balancer considers every target unhealthy, so users get 502/503 even if the pods look fine inside the cluster.".to_owned()
    };
    let severity: Severity = if healthy {
        Severity::Warning
    } else {
        Severity::Critical
    };
    issue(
        cat6(
            "lb-targets-unhealthy:",
            h.source.namespace.as_str(),
            "/",
            h.source.name.as_str(),
            "/",
            t.name.as_str(),
        ),
        severity,
        Layer::Entry,
        target(h.source.kind.as_str(), h.source.namespace.as_str(), h.source.name.as_str()),
        cat5(
            count.as_str(),
            " of ",
            dec_usize(t.targets.len()).as_str(),
            " load balancer targets are unhealthy in ",
            t.name.as_str(),
        ),
        detail,
        evidence,
        reason_advice(
            reason_of(t).as_str(),
            t.health_check.as_str(),
            &path_behind(g, t),
        ),
        lines1(
            cat3(
                "aws elbv2 describe-target-health --target-group-arn $(aws elbv2 describe-target-groups --names ",
                t.name.as_str(),
                " --query 'TargetGroups[0].TargetGroupArn' --output text)",
            ),
        ),
        pods_of_bad(t),
    )
}

/// The issue for targets that no pod is.
pub open spec fn stale_targets(h: LbHealth, t: TargetGroupHealth) -> IssueView {
    model::issue_view(
        "lb-stale-targets:"@ + h.source.namespace@ + "/"@ + h.source.name@ + "/"@ + t.name@,
        Severity::Warning,
        Layer::Entry,
        model::target_view(h.source.kind@, h.source.namespace@, h.source.name@),
        numeral::dec(stale_lines(t, t.targets@.len() as int).len() as int)
            + " load balancer targets don't match any current pod"@,
        "The target group still lists IPs that no pod uses. The controller may be lagging or failing to deregister them, and requests to those IPs fail."@,
        text::at_most(stale_lines(t, t.targets@.len() as int), 6),
        "Check the AWS Load Balancer Controller logs for reconcile errors."@,
        seq![
            "aws elbv2 describe-target-health --target-group-arn $(aws elbv2 describe-target-groups --names "@
                + t.name@ + " --query 'TargetGroups[0].TargetGroupArn' --output text)"@,
        ],
        Seq::empty(),
    )
}

fn stale_targets_issue(h: &LbHealth, t: &TargetGroupHealth) -> (r: Issue)
    ensures
        r@ == stale_targets(*h, *t),
{
    let mut lines: Vec<String> = lines_of_stale(t);
    proof {
        assert(text::strs(lines@).len() == lines@.len());
    }
    let count: String = dec_usize(lines.len());
    keep(&mut lines, 6);
    issue(
        cat6(
            "lb-stale-targets:",
            h.source.namespace.as_str(),
            "/",
            h.source.name.as_str(),
            "/",
            t.name.as_str(),
        ),
        Severity::Warning,
        Layer::Entry,
        target(h.source.kind.as_str(), h.source.namespace.as_str(), h.source.name.as_str()),
        cat2(count.as_str(), " load balancer targets don't match any current pod"),
        "The target group still lists IPs that no pod uses. The controller may be lagging or failing to deregister them, and requests to those IPs fail.".to_owned(),
        lines,
        "Check the AWS Load Balancer Controller logs for reconcile errors.".to_owned(),
        lines1(
            cat3(
                "aws elbv2 describe-target-health --target-group-arn $(aws elbv2 describe-target-groups --names ",
                t.name.as_str(),
                " --query 'TargetGroups[0].TargetGroupArn' --output text)",
            ),
        ),
        no_lines(),
    )
}

/// The issues of one target group.
pub open spec fn group_issue(g: ClusterGraph, h: LbHealth, t: TargetGroupHealth) -> Seq<
    IssueView,
> {
    let n = t.targets@.len() as int;
    if n == 0 {
        seq![no_targets(h, t)]
    } else {
        (if bad_lines(t, n).len() > 0 {
            seq![unhealthy(g, h, t)]
        } else {
            Seq::empty()
        }) + (if stale_lines(t, n).len() > 0 {
            seq![stale_targets(h, t)]
        } else {
            Seq::empty()
        })
    }
}

fn issues_of_group(g: &ClusterGraph, h: &LbHealth, t: &TargetGroupHealth) -> (r: Vec<Issue>)
    ensures
        model::views(r@) == group_issue(*g, *h, *t),
{
    let mut r: Vec<Issue> = no_issues();
    if t.targets.len() == 0 {
        emit(&mut r, no_targets_issue(h, t));
        return r;
    }
    let bad_ones: Vec<String> = lines_of_bad(t);
    let stale_ones: Vec<String> = lines_of_stale(t);
    proof {
        assert(text::strs(bad_ones@).len() == bad_ones@.len());
        assert(text::strs(stale_ones@).len() == stale_ones@.len());
    }
    if bad_ones.len() > 0 {
        emit(&mut r, unhealthy_issue(g, h, t));
    }
    if stale_ones.len() > 0 {
        emit(&mut r, stale_targets_issue(h, t));
    }
    r
}

/// The issues of the first `n` target groups of a load balancer.
pub open spec fn health_issues(g: ClusterGraph, h: LbHealth, n: int) -> Seq<IssueView> {
    pick::gather(
        n,
        |i: int|
            group_issue(g, h, h.target_groups@[i]),
    )
}

fn issues_of_health(g: &ClusterGraph, h: &LbHealth) -> (r: Vec<Issue>)
    ensures
        model::views(r@) == health_issues(*g, *h, h.target_groups@.len() as int),
{
    let mut r: Vec<Issue> = no_issues();
    let mut i: usize = 0;
    while i < h.target_groups.len()
        invariant
            i <= h.target_groups@.len(),
            model::views(r@) == health_issues(*g, *h, i as int),
        decreases h.target_groups@.len() - i,
    {
        emit_all(&mut r, issues_of_group(g, h, &h.target_groups[i]));
        i = i + 1;
    }
    r
}

/// The issues of the first `n` load balancers whose health is known.
pub open spec fn cloud_issues(g: ClusterGraph, n: int) -> Seq<IssueView> {
    pick::gather(
        n,
        |i: int|
            if g.lb_health@[i].error is None {
                health_issues(
                    g,
                    g.lb_health@[i],
                    g.lb_health@[i].target_groups@.len() as int,
                )
            } else {
                Seq::empty()
            },
    )
}

fn cloud_rules(g: &ClusterGraph) -> (r: Vec<Issue>)
    ensures
        model::views(r@) == cloud_issues(*g, g.lb_health@.len() as int),
{
    let mut r: Vec<Issue> = no_issues();
    let mut i: usize = 0;
    while i < g.lb_health.len()
        invariant
            i <= g.lb_health@.len(),
            model::views(r@) == cloud_issues(*g, i as int),
        decreases g.lb_health@.len() - i,
    {
        if g.lb_health[i].error.is_none() {
            emit_all(&mut r, issues_of_health(g, &g.lb_health[i]));
        }
        i = i + 1;
    }
    r
}

/// The unhealthy backends that GKE publishes on an ingress.
pub open spec fn gce_lines(ing: IngressInfo, n: int) -> Seq<Seq<char>> {
    pick::gather(
        n,
        |i: int|
            if lettercase::same_letters(ing.gce_backends@[i].1@, "UNHEALTHY"@) {
                seq![ing.gce_backends@[i].0@ + ": "@ + ing.gce_backends@[i].1@]
            } else {
                Seq::empty()
            },
    )
}

fn lines_of_gce(ing: &IngressInfo) -> (r: Vec<String>)
    ensures
        text::strs(r@) == gce_lines(*ing, ing.gce_backends@.len() as int),
{
    let mut r: Vec<String> = no_lines();
    let mut i: usize = 0;
    while i < ing.gce_backends.len()
        invariant
            i <= ing.gce_backends@.len(),
            text::strs(r@) == gce_lines(*ing, i as int),
        decreases ing.gce_backends@.len() - i,
    {
        if alike(ing.gce_backends[i].1.as_str(), "UNHEALTHY") {
            say(&mut r, cat3(ing.gce_backends[i].0.as_str(), ": ", ing.gce_backends[i].1.as_str()));
        }
        i = i + 1;
    }
    r
}

/// The issue for unhealthy backends of a Google load balancer.
pub open spec fn gce_unhealthy(ing: IngressInfo, lines: Seq<Seq<char>>) -> IssueView {
    model::issue_view(
        "lb-gce-unhealthy:"@ + ing.namespace@ + "/"@ + ing.name@,
        if lines.len() == ing.gce_backends@.len() {
            Severity::Critical
        } else {
            Severity::Warning
        },
        Layer::Entry,
        model::target_view("Ingress"@, ing.namespace@, ing.name@),
        numeral::dec(lines.len() as int) + " of "@
            + numeral::dec(ing.gce_backends@.len() as int)
            + " Google load balancer backends are unhealthy"@,
        "Google's health checks fail for these backends, so the load balancer won't send them traffic."@,
        lines,
        "GKE derives the health check from the pod's readiness probe, or uses / when there isn't one. Make sure that path returns 200, or set a BackendConfig healthCheck, and that firewall rules allow Google's health check ranges."@,
        seq!["kubectl describe ingress "@ + ing.name@ + " -n "@ + ing.namespace@],
        Seq::empty(),
    )
}

fn gce_unhealthy_issue(ing: &IngressInfo, lines: Vec<String>) -> (r: Issue)
    ensures
        r@ == gce_unhealthy(*ing, text::strs(lines@)),
{
    let severity: Severity = if lines.len() == ing.gce_backends.len() {
        Severity::Critical
    } else {
        Severity::Warning
    };
    issue(
        cat4("lb-gce-unhealthy:", ing.namespace.as_str(), "/", ing.name.as_str()),
        severity,
        Layer::Entry,
        target("Ingress", ing.namespace.as_str(), ing.name.as_str()),
        cat4(
            dec_usize(lines.len()).as_str(),
            " of ",
            dec_usize(ing.gce_backends.len()).as_str(),
            " Google load balancer backends are unhealthy",
        ),
        "Google's health checks fail for these backends, so the load balancer won't send them traffic.".to_owned(),
        lines,
        "GKE derives the health check from the pod's readiness probe, or uses / when there isn't one. Make sure that path returns 200, or set a BackendConfig healthCheck, and that firewall rules allow Google's health check ranges.".to_owned(),
        lines1(
            cat4("kubectl describe ingress ", ing.name.as_str(), " -n ", ing.namespace.as_str()),
        ),
        no_lines(),
    )
}

/// The issue of the backends of one ingress.
pub open spec fn gce_issue(ing: IngressInfo) -> Seq<IssueView> {
    let lines = gce_lines(ing, ing.gce_backends@.len() as int);
    if lines.len() == 0 {
        Seq::empty()
    } else {
        seq![gce_unhealthy(ing, lines)]
    }
}

fn issues_of_gce(ing: &IngressInfo) -> (r: Vec<Issue>)
    ensures
        model::views(r@) == gce_issue(*ing),
{
    let mut r: Vec<Issue> = no_issues();
    let lines: Vec<String> = lines_of_gce(ing);
    proof {
        assert(text::strs(lines@).len() == lines@.len());
    }
    if lines.len() > 0 {
        emit(&mut r, gce_unhealthy_issue(ing, lines));
    }
    r
}

/// The issues of the backends of the first `n` ingresses.
pub open spec fn gce_issues(g: ClusterGraph, n: int) -> Seq<IssueView> {
    pick::gather(
        n,
        |i: int|
            gce_issue(g.ingresses@[i]),
    )
}

fn gce_rules(g: &ClusterGraph) -> (r: Vec<Issue>)
    ensures
        model::views(r@) == gce_issues(*g, g.ingresses@.len() as int),
{
    let mut r: Vec<Issue> = no_issues();
    let mut i: usize = 0;
    while i < g.ingresses.len()
        invariant
            i <= g.ingresses@.len(),
            model::views(r@) == gce_issues(*g, i as int),
        decreases g.ingresses@.len() - i,
    {
        emit_all(&mut r, issues_of_gce(&g.ingresses[i]));
        i = i + 1;
    }
    r
}

/// The issues of the targets of cloud load balancers.
pub open spec fn lb_target_issues(g: ClusterGraph) -> Seq<IssueView> {
    cloud_issues(g, g.lb_health@.len() as int) + gce_issues(g, g.ingresses@.len() as int)
}

/// What cloud load balancers say about their targets.
pub fn lb_target_rules(g: &ClusterGraph) -> (out: Vec<Issue>)
    ensures
        model::views(out@) == lb_target_issues(*g),
{
    let mut out: Vec<Issue> = cloud_rules(g);
    emit_all(&mut out, gce_rules(g));
    out
}

} // verus!
