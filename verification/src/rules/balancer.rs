//! Load balancers that the cloud failed to make, or has not made yet.

use crate::lettercase;
use crate::lettercase::lower;
use crate::model;
use crate::model::{
    emit, emit_all, issue, no_issues, target, ClusterGraph, EventInfo, Issue, IssueView, Layer,
    ServiceInfo, Severity,
};
use crate::pick;
use crate::scan;
use crate::scan::has;
use crate::text;
use crate::text::{cat3, cat4, keep, lines1, no_lines, same, say};
use vstd::prelude::*;

verus! {

broadcast use crate::pick::lemma_add_nothing;

/// Is the event at an index a failure to make the load balancer of a service?
pub open spec fn is_failure(g: ClusterGraph, s: ServiceInfo, i: int) -> bool {
    let e = g.events@[i];
    e.kind@ == "Service"@ && e.namespace@ == s.namespace@ && e.name@ == s.name@ && (scan::contains(
        e.reason@,
        "LoadBalancerFailed"@,
    ) || e.reason@ == "FailedDeployModel"@ || e.reason@ == "FailedBuildModel"@)
}

fn failed(g: &ClusterGraph, s: &ServiceInfo, i: usize) -> (r: bool)
    requires
        i < g.events@.len(),
    ensures
        r == is_failure(*g, *s, i as int),
{
    let e: &EventInfo = &g.events[i];
    same(e.kind.as_str(), "Service") && same(e.namespace.as_str(), s.namespace.as_str()) && same(
        e.name.as_str(),
        s.name.as_str(),
    ) && (has(e.reason.as_str(), "LoadBalancerFailed") || same(
        e.reason.as_str(),
        "FailedDeployModel",
    ) || same(e.reason.as_str(), "FailedBuildModel"))
}

/// The first failure to make the load balancer of a service.
pub open spec fn failure(g: ClusterGraph, s: ServiceInfo, n: int) -> Option<int> {
    pick::first(n, |i: int| is_failure(g, s, i))
}

fn find_failure(g: &ClusterGraph, s: &ServiceInfo) -> (r: Option<usize>)
    ensures
        match r {
            Some(k) => k < g.events@.len() && failure(*g, *s, g.events@.len() as int) == Some(k as int),
            None => failure(*g, *s, g.events@.len() as int) is None,
        },
{
    let mut r: Option<usize> = None;
    let mut i: usize = 0;
    while i < g.events.len()
        invariant
            i <= g.events@.len(),
            match r {
                Some(k) => k < i && failure(*g, *s, i as int) == Some(k as int),
                None => failure(*g, *s, i as int) is None,
            },
        decreases g.events@.len() - i,
    {
        if r.is_none() && failed(g, s, i) {
            r = Some(i);
        }
        i = i + 1;
    }
    r
}

/// The failures to make the load balancer of a service.
pub open spec fn failures(g: ClusterGraph, s: ServiceInfo, n: int) -> Seq<Seq<char>> {
    pick::gather(
        n,
        |i: int|
            if is_failure(g, s, i) {
                seq![g.events@[i].reason@ + ": "@ + g.events@[i].message@]
            } else {
                Seq::empty()
            },
    )
}

fn failure_lines(g: &ClusterGraph, s: &ServiceInfo) -> (r: Vec<String>)
    ensures
        text::strs(r@) == failures(*g, *s, g.events@.len() as int),
{
    let mut r: Vec<String> = no_lines();
    let mut i: usize = 0;
    while i < g.events.len()
        invariant
            i <= g.events@.len(),
            text::strs(r@) == failures(*g, *s, i as int),
        decreases g.events@.len() - i,
    {
        if failed(g, s, i) {
            say(&mut r, cat3(g.events[i].reason.as_str(), ": ", g.events[i].message.as_str()));
        }
        i = i + 1;
    }
    r
}

/// What to do about a failure, going by its message and by the message in lower case.
pub open spec fn failure_advice(message: Seq<char>, low: Seq<char>) -> Seq<char> {
    if scan::contains(message, "subnet"@) {
        "Check that your subnets are tagged for load balancers (on AWS: kubernetes.io/role/elb or internal-elb)."@
    } else if scan::contains(low, "quota"@) || scan::contains(message, "LimitExceeded"@) {
        "The cloud account hit a load balancer quota. Remove unused load balancers or request a higher limit."@
    } else {
        "Read the controller error above; it usually names the missing permission, subnet or annotation."@
    }
}

/// Say what to do about a failure, given its message and the message in lower case.
pub fn failure_advice_text(message: &str, low: &str) -> (r: String)
    ensures
        r@ == failure_advice(message@, low@),
{
    if has(message, "subnet") {
        "Check that your subnets are tagged for load balancers (on AWS: kubernetes.io/role/elb or internal-elb).".to_owned()
    } else if has(low, "quota") || has(message, "LimitExceeded") {
        "The cloud account hit a load balancer quota. Remove unused load balancers or request a higher limit.".to_owned()
    } else {
        "Read the controller error above; it usually names the missing permission, subnet or annotation.".to_owned()
    }
}

/// The issue for a load balancer that could not be made.
pub open spec fn lb_failed(g: ClusterGraph, s: ServiceInfo, e: EventInfo) -> IssueView {
    model::issue_view(
        "lb-failed:"@ + s.namespace@ + "/"@ + s.name@,
        Severity::Critical,
        Layer::Entry,
        model::target_view("Service"@, s.namespace@, s.name@),
        "Cloud load balancer for "@ + s.name@ + " failed to provision"@,
        "The cloud controller reported an error creating or updating the load balancer, so there is no working external entry point."@,
        text::at_most(failures(g, s, g.events@.len() as int), 3),
        failure_advice(e.message@, lettercase::lowercase(e.message@)),
        seq!["kubectl describe svc "@ + s.name@ + " -n "@ + s.namespace@],
        Seq::empty(),
    )
}

fn lb_failed_issue(g: &ClusterGraph, s: &ServiceInfo, e: &EventInfo) -> (r: Issue)
    ensures
        r@ == lb_failed(*g, *s, *e),
{
    let mut evidence: Vec<String> = failure_lines(g, s);
    keep(&mut evidence, 3);
    issue(
        cat4("lb-failed:", s.namespace.as_str(), "/", s.name.as_str()),
        Severity::Critical,
        Layer::Entry,
        target("Service", s.namespace.as_str(), s.name.as_str()),
        cat3("Cloud load balancer for ", s.name.as_str(), " failed to provision"),
        "The cloud controller reported an error creating or updating the load balancer, so there is no working external entry point.".to_owned(),
        evidence,
        failure_advice_text(e.message.as_str(), lower(e.message.as_str()).as_str()),
        lines1(cat4("kubectl describe svc ", s.name.as_str(), " -n ", s.namespace.as_str())),
        no_lines(),
    )
}

/// The issue for a load balancer without an address.
pub open spec fn lb_pending(s: ServiceInfo) -> IssueView {
    model::issue_view(
        "lb-pending:"@ + s.namespace@ + "/"@ + s.name@,
        Severity::Warning,
        Layer::Entry,
        model::target_view("Service"@, s.namespace@, s.name@),
        "LoadBalancer service "@ + s.name@ + " has no external address"@,
        "No load balancer address has been assigned yet. On a local cluster this is expected without a load balancer implementation; in the cloud it usually means provisioning is slow or failing."@,
        seq!["status.loadBalancer.ingress: <empty>"@],
        "Check the service's events and your cloud load balancer controller's logs."@,
        seq!["kubectl describe svc "@ + s.name@ + " -n "@ + s.namespace@],
        Seq::empty(),
    )
}

fn lb_pending_issue(s: &ServiceInfo) -> (r: Issue)
    ensures
        r@ == lb_pending(*s),
{
    issue(
        cat4("lb-pending:", s.namespace.as_str(), "/", s.name.as_str()),
        Severity::Warning,
        Layer::Entry,
        target("Service", s.namespace.as_str(), s.name.as_str()),
        cat3("LoadBalancer service ", s.name.as_str(), " has no external address"),
        "No load balancer address has been assigned yet. On a local cluster this is expected without a load balancer implementation; in the cloud it usually means provisioning is slow or failing.".to_owned(),
        lines1("status.loadBalancer.ingress: <empty>".to_owned()),
        "Check the service's events and your cloud load balancer controller's logs.".to_owned(),
        lines1(cat4("kubectl describe svc ", s.name.as_str(), " -n ", s.namespace.as_str())),
        no_lines(),
    )
}

/// The issue of one service.
pub open spec fn balancer_issue(g: ClusterGraph, s: ServiceInfo) -> Seq<IssueView> {
    if s.type_@ != "LoadBalancer"@ {
        Seq::empty()
    } else {
        match failure(g, s, g.events@.len() as int) {
            Some(i) => seq![lb_failed(g, s, g.events@[i])],
            None => if s.external@.len() == 0 {
                seq![lb_pending(s)]
            } else {
                Seq::empty()
            },
        }
    }
}

fn issues_of_balancer(g: &ClusterGraph, s: &ServiceInfo) -> (r: Vec<Issue>)
    ensures
        model::views(r@) == balancer_issue(*g, *s),
{
    let mut r: Vec<Issue> = no_issues();
    if same(s.type_.as_str(), "LoadBalancer") {
        match find_failure(g, s) {
            Some(i) => emit(&mut r, lb_failed_issue(g, s, &g.events[i])),
            None => {
                if s.external.len() == 0 {
                    emit(&mut r, lb_pending_issue(s));
                }
            },
        }
    }
    r
}

/// The issues of the load balancers of the first `n` services.
pub open spec fn balancer_issues(g: ClusterGraph, n: int) -> Seq<IssueView> {
    pick::gather(
        n,
        |i: int|
            balancer_issue(g, g.services@[i]),
    )
}

/// Load balancers that are not there.
pub fn load_balancer_rules(g: &ClusterGraph) -> (r: Vec<Issue>)
    ensures
        model::views(r@) == balancer_issues(*g, g.services@.len() as int),
{
    let mut r: Vec<Issue> = no_issues();
    let mut i: usize = 0;
    while i < g.services.len()
        invariant
            i <= g.services@.len(),
            model::views(r@) == balancer_issues(*g, i as int),
        decreases g.services@.len() - i,
    {
        emit_all(&mut r, issues_of_balancer(g, &g.services[i]));
        i = i + 1;
    }
    r
}

} // verus!
