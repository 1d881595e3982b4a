//! What the results of a network test mean.

use crate::active::check;
use crate::active::check::{
    CheckResult, Finding, FindingView, PlannedCheck, ProbeRun, TestPlan,
};
use crate::numeral;
use crate::numeral::{dec_i32, dec_usize};
use crate::pick;
use crate::scan;
use crate::scan::begins;
use crate::split;
use crate::split::{joined, parts};
use crate::text;
use crate::text::{
    cat2, cat3, cat4, cat5, cat6, cat7, copy_or_empty, opt_copy, opt_same, same,
};
use vstd::prelude::*;

verus! {

broadcast use crate::pick::lemma_add_nothing;

/// The finding with these texts.
pub open spec fn finding_view(
    status: Seq<char>,
    title: Seq<char>,
    detail: Seq<char>,
    suggestion: Seq<char>,
) -> FindingView {
    FindingView { status, title, detail, suggestion }
}

fn finding(status: &str, title: String, detail: String, suggestion: String) -> (r: Finding)
    ensures
        r@ == finding_view(status@, title@, detail@, suggestion@),
{
    Finding { status: status.to_owned(), title, detail, suggestion }
}

fn no_findings() -> (r: Vec<Finding>)
    ensures
        check::finding_views(r@) == Seq::<FindingView>::empty(),
{
    let r: Vec<Finding> = Vec::new();
    proof {
        assert(check::finding_views(r@) =~= Seq::<FindingView>::empty());
    }
    r
}

fn report(out: &mut Vec<Finding>, f: Finding)
    ensures
        check::finding_views(final(out)@) == check::finding_views(old(out)@) + seq![f@],
{
    let ghost was = out@;
    out.push(f);
    proof {
        assert(check::finding_views(out@) =~= check::finding_views(was) + seq![f@]);
    }
}

fn report_all(out: &mut Vec<Finding>, more: Vec<Finding>)
    ensures
        check::finding_views(final(out)@) == check::finding_views(old(out)@)
            + check::finding_views(more@),
{
    let ghost was = out@;
    let mut m = more;
    out.append(&mut m);
    proof {
        assert(check::finding_views(out@) =~= check::finding_views(was) + check::finding_views(
            more@,
        ));
    }
}

/// The first result of a run with a label.
pub open spec fn result_at(u: ProbeRun, label: Seq<char>, n: int) -> Option<int> {
    pick::first(n, |i: int| u.results@[i].label@ == label)
}

fn find_result(u: &ProbeRun, label: &str) -> (r: Option<usize>)
    ensures
        match r {
            Some(k) => k < u.results@.len() && result_at(*u, label@, u.results@.len() as int) == Some(
                k as int,
            ),
            None => result_at(*u, label@, u.results@.len() as int) is None,
        },
{
    let mut r: Option<usize> = None;
    let mut i: usize = 0;
    while i < u.results.len()
        invariant
            i <= u.results@.len(),
            match r {
                Some(k) => k < i && result_at(*u, label@, i as int) == Some(k as int),
                None => result_at(*u, label@, i as int) is None,
            },
        decreases u.results@.len() - i,
    {
        if r.is_none() && same(u.results[i].label.as_str(), label) {
            r = Some(i);
        }
        i = i + 1;
    }
    r
}

/// What a run has to say about a label.
pub open spec fn outcome(u: ProbeRun, label: Seq<char>) -> Option<CheckResult> {
    match result_at(u, label, u.results@.len() as int) {
        Some(i) => Some(u.results@[i]),
        None => None,
    }
}

/// Did the check with this label come out otherwise than well?
pub open spec fn went_wrong(u: ProbeRun, label: Seq<char>) -> bool {
    match outcome(u, label) {
        Some(x) => x.result@ != "ok"@,
        None => false,
    }
}

fn is_wrong(u: &ProbeRun, label: &str) -> (r: bool)
    ensures
        r == went_wrong(*u, label@),
{
    match find_result(u, label) {
        Some(i) => !same(u.results[i].result.as_str(), "ok"),
        None => false,
    }
}

/// The first run in which the check with a label came out otherwise than well.
pub open spec fn first_wrong(runs: Seq<ProbeRun>, label: Seq<char>, n: int) -> Option<int> {
    pick::first(n, |i: int| went_wrong(runs[i], label))
}

fn find_wrong(runs: &[ProbeRun], label: &str) -> (r: Option<usize>)
    ensures
        match r {
            Some(k) => k < runs@.len() && first_wrong(runs@, label@, runs@.len() as int) == Some(k as int),
            None => first_wrong(runs@, label@, runs@.len() as int) is None,
        },
{
    let mut r: Option<usize> = None;
    let mut i: usize = 0;
    while i < runs.len()
        invariant
            i <= runs@.len(),
            match r {
                Some(k) => k < i && first_wrong(runs@, label@, i as int) == Some(k as int),
                None => first_wrong(runs@, label@, i as int) is None,
            },
        decreases runs@.len() - i,
    {
        if r.is_none() && is_wrong(&runs[i], label) {
            r = Some(i);
        }
        i = i + 1;
    }
    r
}

/// The first run that has a result for a label.
pub open spec fn first_heard(runs: Seq<ProbeRun>, label: Seq<char>, n: int) -> Option<int> {
    pick::first(n, |i: int| outcome(runs[i], label) is Some)
}

fn find_heard(runs: &[ProbeRun], label: &str) -> (r: Option<usize>)
    ensures
        match r {
            Some(k) => k < runs@.len() && first_heard(runs@, label@, runs@.len() as int) == Some(k as int),
            None => first_heard(runs@, label@, runs@.len() as int) is None,
        },
{
    let mut r: Option<usize> = None;
    let mut i: usize = 0;
    while i < runs.len()
        invariant
            i <= runs@.len(),
            match r {
                Some(k) => k < i && first_heard(runs@, label@, i as int) == Some(k as int),
                None => first_heard(runs@, label@, i as int) is None,
            },
        decreases runs@.len() - i,
    {
        if r.is_none() && find_result(&runs[i], label).is_some() {
            r = Some(i);
        }
        i = i + 1;
    }
    r
}

/// The finding for a probe that did not complete.
pub open spec fn incomplete(u: ProbeRun) -> FindingView {
    finding_view(
        "warning"@,
        "The "@ + split::join(split::split(u.placement@, '-'), " "@) + " probe didn't complete"@,
        text::or_empty(u.error),
        "Fix the cause above and run the test again."@,
    )
}

fn incomplete_finding(u: &ProbeRun) -> (r: Finding)
    ensures
        r@ == incomplete(*u),
{
    finding(
        "warning",
        cat3(
            "The ",
            joined(&parts(u.placement.as_str(), '-'), " ").as_str(),
            " probe didn't complete",
        ),
        copy_or_empty(&u.error),
        "Fix the cause above and run the test again.".to_owned(),
    )
}

/// The findings for probes that did not complete.
pub open spec fn incomplete_runs(runs: Seq<ProbeRun>, n: int) -> Seq<FindingView> {
    pick::gather(
        n,
        |i: int|
            if runs[i].error is Some {
                seq![incomplete(runs[i])]
            } else {
                Seq::empty()
            },
    )
}

fn incomplete_findings(runs: &[ProbeRun]) -> (r: Vec<Finding>)
    ensures
        check::finding_views(r@) == incomplete_runs(runs@, runs@.len() as int),
{
    let mut r: Vec<Finding> = no_findings();
    let mut i: usize = 0;
    while i < runs.len()
        invariant
            i <= runs@.len(),
            check::finding_views(r@) == incomplete_runs(runs@, i as int),
        decreases runs@.len() - i,
    {
        if runs[i].error.is_some() {
            report(&mut r, incomplete_finding(&runs[i]));
        }
        i = i + 1;
    }
    r
}

/// The finding for a cluster DNS that does not answer.
pub open spec fn dns_broken(plan: TestPlan, x: CheckResult) -> FindingView {
    finding_view(
        "critical"@,
        "Pods in "@ + plan.source_namespace@ + " can't resolve names with cluster DNS"@,
        "Looking up kubernetes.default failed: "@ + x.detail@,
        "Check for an egress NetworkPolicy that doesn't allow port 53, and that CoreDNS pods in kube-system are ready."@,
    )
}

fn dns_broken_finding(plan: &TestPlan, x: &CheckResult) -> (r: Finding)
    ensures
        r@ == dns_broken(*plan, *x),
{
    finding(
        "critical",
        cat3("Pods in ", plan.source_namespace.as_str(), " can't resolve names with cluster DNS"),
        cat2("Looking up kubernetes.default failed: ", x.detail.as_str()),
        "Check for an egress NetworkPolicy that doesn't allow port 53, and that CoreDNS pods in kube-system are ready.".to_owned(),
    )
}

/// The service that is tested.
pub open spec fn service_text(plan: TestPlan) -> Seq<char> {
    plan.service.namespace@ + "/"@ + plan.service.name@
}

fn service_name(plan: &TestPlan) -> (r: String)
    ensures
        r@ == service_text(*plan),
{
    cat3(plan.service.namespace.as_str(), "/", plan.service.name.as_str())
}

/// The finding for a service name that does not resolve.
pub open spec fn name_broken(plan: TestPlan, x: CheckResult) -> FindingView {
    finding_view(
        "critical"@,
        "The service name for "@ + service_text(plan) + " doesn't resolve"@,
        "Cluster DNS works, but "@ + x.target@ + " didn't resolve: "@ + x.detail@,
        "Check the service still exists under that name, and that clients use the right namespace. If your cluster domain isn't cluster.local, set it in Settings."@,
    )
}

fn name_broken_finding(plan: &TestPlan, x: &CheckResult) -> (r: Finding)
    ensures
        r@ == name_broken(*plan, *x),
{
    finding(
        "critical",
        cat3("The service name for ", service_name(plan).as_str(), " doesn't resolve"),
        cat4("Cluster DNS works, but ", x.target.as_str(), " didn't resolve: ", x.detail.as_str()),
        "Check the service still exists under that name, and that clients use the right namespace. If your cluster domain isn't cluster.local, set it in Settings.".to_owned(),
    )
}

/// The finding about names: the cluster DNS first, then the service.
pub open spec fn name_findings(plan: TestPlan, runs: Seq<ProbeRun>) -> Seq<FindingView> {
    match first_wrong(runs, "cluster DNS"@, runs.len() as int) {
        Some(i) => seq![dns_broken(plan, outcome(runs[i], "cluster DNS"@)->0)],
        None => match first_wrong(runs, "service name"@, runs.len() as int) {
            Some(i) => seq![name_broken(plan, outcome(runs[i], "service name"@)->0)],
            None => Seq::empty(),
        },
    }
}

/// A run whose check came out otherwise than well has a result for it.
proof fn lemma_wrong(runs: Seq<ProbeRun>, label: Seq<char>)
    ensures
        first_wrong(runs, label, runs.len() as int) matches Some(i) ==> 0 <= i < runs.len()
            && went_wrong(runs[i], label),
{
    pick::lemma_first(runs.len() as int, |i: int| went_wrong(runs[i], label));
}

fn findings_of_names(plan: &TestPlan, runs: &[ProbeRun]) -> (r: Vec<Finding>)
    ensures
        check::finding_views(r@) == name_findings(*plan, runs@),
{
    let mut r: Vec<Finding> = no_findings();
    proof {
        lemma_wrong(runs@, "cluster DNS"@);
        lemma_wrong(runs@, "service name"@);
    }
    match find_wrong(runs, "cluster DNS") {
        Some(i) => {
            match find_result(&runs[i], "cluster DNS") {
                Some(k) => report(&mut r, dns_broken_finding(plan, &runs[i].results[k])),
                None => {},
            }
        },
        None => match find_wrong(runs, "service name") {
            Some(i) => {
                match find_result(&runs[i], "service name") {
                    Some(k) => report(&mut r, name_broken_finding(plan, &runs[i].results[k])),
                    None => {},
                }
            },
            None => {},
        },
    }
    r
}

/// Did a pod answer directly?
pub open spec fn pod_answers(u: ProbeRun, n: int) -> bool {
    pick::any(n, |i: int| scan::starts_with(u.results@[i].label@, "pod "@) && u.results@[i].kind@ == "tcp"@
            && u.results@[i].result@ == "ok"@)
}

fn does_pod_answer(u: &ProbeRun) -> (r: bool)
    ensures
        r == pod_answers(*u, u.results@.len() as int),
{
    let mut r: bool = false;
    let mut i: usize = 0;
    while i < u.results.len()
        invariant
            i <= u.results@.len(),
            r == pod_answers(*u, i as int),
        decreases u.results@.len() - i,
    {
        if begins(u.results[i].label.as_str(), "pod ") && same(
            u.results[i].kind.as_str(),
            "tcp",
        ) && same(u.results[i].result.as_str(), "ok") {
            r = true;
        }
        i = i + 1;
    }
    r
}

/// The finding for a service address that leads nowhere though pods answer.
pub open spec fn not_forwarded(u: ProbeRun, x: CheckResult) -> FindingView {
    finding_view(
        "critical"@,
        "The service IP isn't forwarding to healthy pods"@ + (match u.node {
                Some(n) => " on node "@ + n@,
                None => Seq::empty(),
        }),
        "Pod IPs answered directly, but "@ + x.label@ + " ("@ + x.target@ + ") gave "@
            + x.result@
            + ". That points at kube-proxy (or the eBPF replacement) on this node not programming the service."@,
        "Check the kube-proxy pod on this node and its logs for sync errors (on Cilium, `cilium status` and its service list). Restarting kube-proxy on the node usually resyncs rules."@,
    )
}

fn not_forwarded_finding(u: &ProbeRun, x: &CheckResult) -> (r: Finding)
    ensures
        r@ == not_forwarded(*u, *x),
{
    finding(
        "critical",
        match &u.node {
            Some(n) => cat2(
                "The service IP isn't forwarding to healthy pods",
                cat2(" on node ", n.as_str()).as_str(),
            ),
            None => "The service IP isn't forwarding to healthy pods".to_owned(),
        },
        cat7(
            "Pod IPs answered directly, but ",
            x.label.as_str(),
            " (",
            x.target.as_str(),
            ") gave ",
            x.result.as_str(),
            ". That points at kube-proxy (or the eBPF replacement) on this node not programming the service.",
        ),
        "Check the kube-proxy pod on this node and its logs for sync errors (on Cilium, `cilium status` and its service list). Restarting kube-proxy on the node usually resyncs rules.".to_owned(),
    )
}

/// The findings of one run about service addresses.
pub open spec fn forwarding(u: ProbeRun, n: int) -> Seq<FindingView> {
    pick::gather(
        n,
        |i: int|
            if scan::starts_with(u.results@[i].label@, "service IP"@) && u.results@[i].result@ != "ok"@ {
                seq![not_forwarded(u, u.results@[i])]
            } else {
                Seq::empty()
            },
    )
}

fn forwarding_of(u: &ProbeRun) -> (r: Vec<Finding>)
    ensures
        check::finding_views(r@) == forwarding(*u, u.results@.len() as int),
{
    let mut r: Vec<Finding> = no_findings();
    let mut i: usize = 0;
    while i < u.results.len()
        invariant
            i <= u.results@.len(),
            check::finding_views(r@) == forwarding(*u, i as int),
        decreases u.results@.len() - i,
    {
        if begins(u.results[i].label.as_str(), "service IP") && !same(
            u.results[i].result.as_str(),
            "ok",
        ) {
            report(&mut r, not_forwarded_finding(u, &u.results[i]));
        }
        i = i + 1;
    }
    r
}

/// The findings about service addresses, of the runs in which pods answered directly.
pub open spec fn forwarding_findings(runs: Seq<ProbeRun>, n: int) -> Seq<FindingView> {
    pick::gather(
        n,
        |i: int|
            if pod_answers(runs[i], runs[i].results@.len() as int) {
                forwarding(runs[i], runs[i].results@.len() as int)
            } else {
                Seq::empty()
            },
    )
}

fn findings_of_forwarding(runs: &[ProbeRun]) -> (r: Vec<Finding>)
    ensures
        check::finding_views(r@) == forwarding_findings(runs@, runs@.len() as int),
{
    let mut r: Vec<Finding> = no_findings();
    let mut i: usize = 0;
    while i < runs.len()
        invariant
            i <= runs@.len(),
            check::finding_views(r@) == forwarding_findings(runs@, i as int),
        decreases runs@.len() - i,
    {
        if does_pod_answer(&runs[i]) {
            report_all(&mut r, forwarding_of(&runs[i]));
        }
        i = i + 1;
    }
    r
}

/// The first check with a label.
pub open spec fn check_at(plan: TestPlan, label: Seq<char>, n: int) -> Option<int> {
    pick::first(n, |i: int| plan.checks@[i].label@ == label)
}

fn find_check(plan: &TestPlan, label: &str) -> (r: Option<usize>)
    ensures
        match r {
            Some(k) => k < plan.checks@.len() && check_at(*plan, label@, plan.checks@.len() as int) == Some(
                k as int,
            ),
            None => check_at(*plan, label@, plan.checks@.len() as int) is None,
        },
{
    let mut r: Option<usize> = None;
    let mut i: usize = 0;
    while i < plan.checks.len()
        invariant
            i <= plan.checks@.len(),
            match r {
                Some(k) => k < i && check_at(*plan, label@, i as int) == Some(k as int),
                None => check_at(*plan, label@, i as int) is None,
            },
        decreases plan.checks@.len() - i,
    {
        if r.is_none() && same(plan.checks[i].label.as_str(), label) {
            r = Some(i);
        }
        i = i + 1;
    }
    r
}

/// The node of the pod that a label is about.
pub open spec fn node_of(plan: TestPlan, label: Seq<char>) -> Option<Seq<char>> {
    match check_at(plan, label, plan.checks@.len() as int) {
        Some(i) => text::opt(plan.checks@[i].target_node),
        None => None,
    }
}

fn target_node(plan: &TestPlan, label: &str) -> (r: Option<String>)
    ensures
        text::opt(r) == node_of(*plan, label@),
{
    match find_check(plan, label) {
        Some(i) => opt_copy(&plan.checks[i].target_node),
        None => None,
    }
}

/// The first run on the node, or on another, that has a result for the label.
pub open spec fn first_from(
    runs: Seq<ProbeRun>,
    label: Seq<char>,
    node: Option<Seq<char>>,
    near: bool,
    n: int,
) -> Option<int> {
    pick::first(
        n,
        |i: int|
            outcome(runs[i], label) is Some && runs[i].node is Some && (text::opt(runs[i].node)
                == node) == near,
    )
}

fn find_from(
    runs: &[ProbeRun],
    label: &str,
    node: &Option<String>,
    near: bool,
) -> (r: Option<usize>)
    ensures
        match r {
            Some(k) => k < runs@.len() && first_from(
                runs@,
                label@,
                text::opt(*node),
                near,
                runs@.len() as int,
            ) == Some(k as int),
            None => first_from(runs@, label@, text::opt(*node), near, runs@.len() as int) is None,
        },
{
    let mut r: Option<usize> = None;
    let mut i: usize = 0;
    while i < runs.len()
        invariant
            i <= runs@.len(),
            match r {
                Some(k) => k < i && first_from(runs@, label@, text::opt(*node), near, i as int)
                    == Some(k as int),
                None => first_from(runs@, label@, text::opt(*node), near, i as int) is None,
            },
        decreases runs@.len() - i,
    {
        if r.is_none() && find_result(&runs[i], label).is_some() && runs[i].node.is_some()
            && opt_same(&runs[i].node, node) == near {
            r = Some(i);
        }
        i = i + 1;
    }
    r
}

/// What the first of those runs says.
pub open spec fn said_from(
    runs: Seq<ProbeRun>,
    label: Seq<char>,
    node: Option<Seq<char>>,
    near: bool,
) -> Option<CheckResult> {
    match first_from(runs, label, node, near, runs.len() as int) {
        Some(i) => outcome(runs[i], label),
        None => None,
    }
}

/// Does the pod answer from its own node, and time out from another?
pub open spec fn crosses_badly(
    runs: Seq<ProbeRun>,
    label: Seq<char>,
    node: Option<Seq<char>>,
) -> bool {
    match (said_from(runs, label, node, true), said_from(runs, label, node, false)) {
        (Some(a), Some(b)) => a.result@ == "ok"@ && b.result@ == "timeout"@,
        _ => false,
    }
}

fn says(runs: &[ProbeRun], i: Option<usize>, label: &str, result: &str) -> (r: bool)
    requires
        i matches Some(k) ==> k < runs@.len(),
    ensures
        r == (i matches Some(k) && outcome(runs@[k as int], label@) matches Some(x) && x.result@
            == result@),
{
    match i {
        Some(k) => match find_result(&runs[k], label) {
            Some(j) => same(runs[k].results[j].result.as_str(), result),
            None => false,
        },
        None => false,
    }
}

/// The finding for a pod that answers on its node and not from another.
pub open spec fn cross_node(
    label: Seq<char>,
    target: Seq<char>,
    here: Seq<char>,
    there: Seq<char>,
) -> FindingView {
    finding_view(
        "critical"@,
        "Cross-node traffic to "@ + target + " is dropped"@,
        label + " answers from its own node ("@ + here + ") but times out from "@ + there
            + ". Pod networking between nodes is broken, which is a CNI or node firewall problem, not the app."@,
        "Check the CNI agent pods on both nodes (aws-node, calico-node, cilium) and that node security groups allow node-to-node traffic, including the overlay port if you use one (VXLAN UDP 4789 or 8472)."@,
    )
}

fn cross_node_finding(label: &str, target: &str, here: &str, there: &str) -> (r: Finding)
    ensures
        r@ == cross_node(label@, target@, here@, there@),
{
    finding(
        "critical",
        cat3("Cross-node traffic to ", target, " is dropped"),
        cat6(
            label,
            " answers from its own node (",
            here,
            ") but times out from ",
            there,
            ". Pod networking between nodes is broken, which is a CNI or node firewall problem, not the app.",
        ),
        "Check the CNI agent pods on both nodes (aws-node, calico-node, cilium) and that node security groups allow node-to-node traffic, including the overlay port if you use one (VXLAN UDP 4789 or 8472).".to_owned(),
    )
}

/// The finding for a port that nothing listens on.
pub open spec fn not_listening(label: Seq<char>, target: Seq<char>) -> FindingView {
    finding_view(
        "critical"@,
        "Nothing is listening on "@ + target,
        label
            + ": the pod is reachable but refused the connection, so the app isn't listening on that port."@,
        "Check which port the app actually listens on, and that it binds to 0.0.0.0 rather than 127.0.0.1. Then align the service's targetPort."@,
    )
}

fn not_listening_finding(label: &str, target: &str) -> (r: Finding)
    ensures
        r@ == not_listening(label@, target@),
{
    finding(
        "critical",
        cat2("Nothing is listening on ", target),
        cat2(
            label,
            ": the pod is reachable but refused the connection, so the app isn't listening on that port.",
        ),
        "Check which port the app actually listens on, and that it binds to 0.0.0.0 rather than 127.0.0.1. Then align the service's targetPort.".to_owned(),
    )
}

/// The finding for connections that are dropped.
pub open spec fn dropped(label: Seq<char>, target: Seq<char>, policies: bool) -> FindingView {
    finding_view(
        "critical"@,
        "Connections to "@ + target + " time out"@,
        if policies {
            label + ": packets are dropped before reaching the app"@
                + ", and a NetworkPolicy selects this pod"@ + "."@
        } else {
            label + ": packets are dropped before reaching the app"@ + "."@
        },
        if policies {
            "Review the NetworkPolicies on the target pods; one probably doesn't admit traffic from this namespace on this port."@
        } else {
            "With no NetworkPolicy involved, check security groups for pods (if used) and the CNI agent on the target's node."@
        },
    )
}

fn dropped_finding(label: &str, target: &str, policies: bool) -> (r: Finding)
    ensures
        r@ == dropped(label@, target@, policies),
{
    let detail: String = if policies {
        cat4(
            label,
            ": packets are dropped before reaching the app",
            ", and a NetworkPolicy selects this pod",
            ".",
        )
    } else {
        cat3(label, ": packets are dropped before reaching the app", ".")
    };
    let suggestion: String = if policies {
        "Review the NetworkPolicies on the target pods; one probably doesn't admit traffic from this namespace on this port.".to_owned()
    } else {
        "With no NetworkPolicy involved, check security groups for pods (if used) and the CNI agent on the target's node.".to_owned()
    };
    finding(
        "critical",
        cat3("Connections to ", target, " time out"),
        detail,
        suggestion,
    )
}

/// The finding about one pod, unless every run reached it.
pub open spec fn pod_finding(plan: TestPlan, runs: Seq<ProbeRun>, label: Seq<char>) -> Seq<
    FindingView,
> {
    let n = runs.len() as int;
    match (first_wrong(runs, label, n), first_heard(runs, label, n)) {
        (Some(w), Some(h)) => {
            let target = outcome(runs[h], label)->0.target@;
            let worst = outcome(runs[w], label)->0.result@;
            let node = node_of(plan, label);
            if crosses_badly(runs, label, node) {
                let away = runs[first_from(runs, label, node, false, n)->0];
                seq![
                    cross_node(
                        label,
                        target,
                        match node {
                            Some(x) => x,
                            None => Seq::empty(),
                        },
                        text::or_empty(away.node),
                    ),
                ]
            } else if worst == "refused"@ {
                seq![not_listening(label, target)]
            } else {
                seq![dropped(label, target, plan.policies_apply)]
            }
        },
        _ => Seq::empty(),
    }
}

fn findings_of_pod(plan: &TestPlan, runs: &[ProbeRun], label: &str) -> (r: Vec<Finding>)
    ensures
        check::finding_views(r@) == pod_finding(*plan, runs@, label@),
{
    let mut r: Vec<Finding> = no_findings();
    proof {
        lemma_wrong(runs@, label@);
    }
    let wrong: usize = match find_wrong(runs, label) {
        Some(i) => i,
        None => {
            return r;
        },
    };
    let heard: usize = match find_heard(runs, label) {
        Some(i) => i,
        None => {
            return r;
        },
    };
    let target: &str = match find_result(&runs[heard], label) {
        Some(k) => runs[heard].results[k].target.as_str(),
        None => {
            proof {
                pick::lemma_first(
                    runs@.len() as int,
                    |i: int| outcome(runs@[i], label@) is Some,
                );
            }
            ""
        },
    };
    let node: Option<String> = target_node(plan, label);
    let near: Option<usize> = find_from(runs, label, &node, true);
    let far: Option<usize> = find_from(runs, label, &node, false);
    if says(runs, near, label, "ok") && says(runs, far, label, "timeout") {
        match far {
            Some(f) => {
                let here: String = copy_or_empty(&node);
                let there: String = copy_or_empty(&runs[f].node);
                report(&mut r, cross_node_finding(label, target, here.as_str(), there.as_str()));
            },
            None => {},
        }
    } else {
        let refused: bool = match find_result(&runs[wrong], label) {
            Some(k) => same(runs[wrong].results[k].result.as_str(), "refused"),
            None => false,
        };
        if refused {
            report(&mut r, not_listening_finding(label, target));
        } else {
            report(&mut r, dropped_finding(label, target, plan.policies_apply));
        }
    }
    r
}

/// The findings about the pods of the first `n` checks.
pub open spec fn pod_findings(plan: TestPlan, runs: Seq<ProbeRun>, n: int) -> Seq<FindingView> {
    pick::gather(
        n,
        |i: int|
            if plan.checks@[i].kind@ == "tcp"@ && scan::starts_with(plan.checks@[i].label@, "pod "@) {
                pod_finding(plan, runs, plan.checks@[i].label@)
            } else {
                Seq::empty()
            },
    )
}

fn findings_of_pods(plan: &TestPlan, runs: &[ProbeRun]) -> (r: Vec<Finding>)
    ensures
        check::finding_views(r@) == pod_findings(*plan, runs@, plan.checks@.len() as int),
{
    let mut r: Vec<Finding> = no_findings();
    let mut i: usize = 0;
    while i < plan.checks.len()
        invariant
            i <= plan.checks@.len(),
            check::finding_views(r@) == pod_findings(*plan, runs@, i as int),
        decreases plan.checks@.len() - i,
    {
        if same(plan.checks[i].kind.as_str(), "tcp") && begins(plan.checks[i].label.as_str(), "pod ") {
            report_all(&mut r, findings_of_pod(plan, runs, plan.checks[i].label.as_str()));
        }
        i = i + 1;
    }
    r
}

/// Did an endpoint answer otherwise than with success or a redirect?
pub open spec fn unwell(u: ProbeRun, label: Seq<char>) -> bool {
    match outcome(u, label) {
        Some(x) => !(scan::starts_with(x.result@, "2"@) || scan::starts_with(x.result@, "3"@)),
        None => false,
    }
}

fn is_unwell(u: &ProbeRun, label: &str) -> (r: bool)
    ensures
        r == unwell(*u, label@),
{
    match find_result(u, label) {
        Some(i) => !(begins(u.results[i].result.as_str(), "2") || begins(
            u.results[i].result.as_str(),
            "3",
        )),
        None => false,
    }
}

/// The first run in which an endpoint did not answer well.
pub open spec fn first_unwell(runs: Seq<ProbeRun>, label: Seq<char>, n: int) -> Option<int> {
    pick::first(n, |i: int| unwell(runs[i], label))
}

fn find_unwell(runs: &[ProbeRun], label: &str) -> (r: Option<usize>)
    ensures
        match r {
            Some(k) => k < runs@.len() && first_unwell(runs@, label@, runs@.len() as int) == Some(k as int),
            None => first_unwell(runs@, label@, runs@.len() as int) is None,
        },
{
    let mut r: Option<usize> = None;
    let mut i: usize = 0;
    while i < runs.len()
        invariant
            i <= runs@.len(),
            match r {
                Some(k) => k < i && first_unwell(runs@, label@, i as int) == Some(k as int),
                None => first_unwell(runs@, label@, i as int) is None,
            },
        decreases runs@.len() - i,
    {
        if r.is_none() && is_unwell(&runs[i], label) {
            r = Some(i);
        }
        i = i + 1;
    }
    r
}

/// The finding for a health endpoint that does not answer well.
pub open spec fn endpoint(c: PlannedCheck, x: CheckResult) -> FindingView {
    finding_view(
        "warning"@,
        if x.result@ == "none"@ {
            c.label@ + " didn't answer within its "@ + numeral::dec(c.timeout as int) + "s timeout"@
        } else {
            c.label@ + " returns HTTP "@ + x.result@
        },
        "GET "@ + x.target@ + " took "@ + x.detail@ + "."@,
        if x.result@ == "none"@ {
            "The endpoint is slower than the probe allows, so the kubelet will mark the pod unready or restart it. Make the endpoint cheaper, or raise timeoutSeconds."@
        } else {
            "The kubelet treats anything outside 200-399 as a failure. Fix the endpoint or point the probe at a path that reports health."@
        },
    )
}

fn endpoint_finding(c: &PlannedCheck, x: &CheckResult) -> (r: Finding)
    ensures
        r@ == endpoint(*c, *x),
{
    let title: String = if same(x.result.as_str(), "none") {
        cat4(
            c.label.as_str(),
            " didn't answer within its ",
            dec_i32(c.timeout).as_str(),
            "s timeout",
        )
    } else {
        cat3(c.label.as_str(), " returns HTTP ", x.result.as_str())
    };
    let suggestion: String = if same(x.result.as_str(), "none") {
        "The endpoint is slower than the probe allows, so the kubelet will mark the pod unready or restart it. Make the endpoint cheaper, or raise timeoutSeconds.".to_owned()
    } else {
        "The kubelet treats anything outside 200-399 as a failure. Fix the endpoint or point the probe at a path that reports health.".to_owned()
    };
    finding(
        "warning",
        title,
        cat5("GET ", x.target.as_str(), " took ", x.detail.as_str(), "."),
        suggestion,
    )
}

/// The finding about one health endpoint.
pub open spec fn endpoint_finding_of(runs: Seq<ProbeRun>, c: PlannedCheck) -> Seq<FindingView> {
    match first_unwell(runs, c.label@, runs.len() as int) {
        Some(i) => seq![endpoint(c, outcome(runs[i], c.label@)->0)],
        None => Seq::empty(),
    }
}

fn findings_of_endpoint(runs: &[ProbeRun], c: &PlannedCheck) -> (r: Vec<Finding>)
    ensures
        check::finding_views(r@) == endpoint_finding_of(runs@, *c),
{
    let mut r: Vec<Finding> = no_findings();
    let label: &str = c.label.as_str();
    match find_unwell(runs, label) {
        Some(i) => {
            proof {
                pick::lemma_first(runs@.len() as int, |i: int| unwell(runs@[i], label@));
            }
            match find_result(&runs[i], label) {
                Some(k) => report(&mut r, endpoint_finding(c, &runs[i].results[k])),
                None => {},
            }
        },
        None => {},
    }
    r
}

/// The findings about the health endpoints of the first `n` checks.
pub open spec fn endpoint_findings(
    plan: TestPlan,
    runs: Seq<ProbeRun>,
    n: int,
) -> Seq<FindingView> {
    pick::gather(
        n,
        |i: int|
            if plan.checks@[i].kind@ == "http"@ {
                endpoint_finding_of(runs, plan.checks@[i])
            } else {
                Seq::empty()
            },
    )
}

fn findings_of_endpoints(plan: &TestPlan, runs: &[ProbeRun]) -> (r: Vec<Finding>)
    ensures
        check::finding_views(r@) == endpoint_findings(*plan, runs@, plan.checks@.len() as int),
{
    let mut r: Vec<Finding> = no_findings();
    let mut i: usize = 0;
    while i < plan.checks.len()
        invariant
            i <= plan.checks@.len(),
            check::finding_views(r@) == endpoint_findings(*plan, runs@, i as int),
        decreases plan.checks@.len() - i,
    {
        if same(plan.checks[i].kind.as_str(), "http") {
            report_all(&mut r, findings_of_endpoint(runs, &plan.checks[i]));
        }
        i = i + 1;
    }
    r
}

/// How many of the first `n` runs have results.
pub open spec fn answered(runs: Seq<ProbeRun>, n: int) -> nat {
    pick::tally(n, |i: int| runs[i].results@.len() > 0)
}

fn count_answered(runs: &[ProbeRun]) -> (r: usize)
    ensures
        r == answered(runs@, runs@.len() as int),
{
    let mut r: usize = 0;
    let mut i: usize = 0;
    while i < runs.len()
        invariant
            r <= i <= runs@.len(),
            r == answered(runs@, i as int),
        decreases runs@.len() - i,
    {
        if runs[i].results.len() > 0 {
            r = r + 1;
        }
        i = i + 1;
    }
    r
}

/// The finding when everything answered.
pub open spec fn all_good(plan: TestPlan, count: int) -> FindingView {
    finding_view(
        "ok"@,
        if count == 1 {
            "Every check to "@ + service_text(plan) + " passed from "@ + numeral::dec(count)
                + " node"@
        } else {
            "Every check to "@ + service_text(plan) + " passed from "@ + numeral::dec(count)
                + " nodes"@
        },
        "DNS, the service IP, every tested pod and their health endpoints all responded."@,
        "If users still see errors, look at the entry point (ingress, load balancer target health) or at application-level errors in the logs."@,
    )
}

fn all_good_finding(plan: &TestPlan, count: usize) -> (r: Finding)
    ensures
        r@ == all_good(*plan, count as int),
{
    let title: String = if count == 1 {
        cat5(
            "Every check to ",
            service_name(plan).as_str(),
            " passed from ",
            dec_usize(count).as_str(),
            " node",
        )
    } else {
        cat5(
            "Every check to ",
            service_name(plan).as_str(),
            " passed from ",
            dec_usize(count).as_str(),
            " nodes",
        )
    };
    finding(
        "ok",
        title,
        "DNS, the service IP, every tested pod and their health endpoints all responded.".to_owned(),
        "If users still see errors, look at the entry point (ingress, load balancer target health) or at application-level errors in the logs.".to_owned(),
    )
}

/// Everything that the results show to be wrong.
pub open spec fn faults(plan: TestPlan, runs: Seq<ProbeRun>) -> Seq<FindingView> {
    incomplete_runs(runs, runs.len() as int) + name_findings(plan, runs) + forwarding_findings(
        runs,
        runs.len() as int,
    ) + pod_findings(plan, runs, plan.checks@.len() as int) + endpoint_findings(
        plan,
        runs,
        plan.checks@.len() as int,
    )
}

/// What the results mean. Without results only what kept the probes from
/// completing is told; when nothing is wrong, that is told.
pub open spec fn meaning(plan: TestPlan, runs: Seq<ProbeRun>) -> Seq<FindingView> {
    let count = answered(runs, runs.len() as int);
    if count == 0 {
        incomplete_runs(runs, runs.len() as int)
    } else if faults(plan, runs).len() == 0 {
        seq![all_good(plan, count as int)]
    } else {
        faults(plan, runs)
    }
}

/// Tell what the results of a test mean.
pub fn analyze(plan: &TestPlan, runs: &[ProbeRun]) -> (r: Vec<Finding>)
    ensures
        check::finding_views(r@) == meaning(*plan, runs@),
{
    let mut out: Vec<Finding> = incomplete_findings(runs);
    let count: usize = count_answered(runs);
    if count == 0 {
        return out;
    }
    report_all(&mut out, findings_of_names(plan, runs));
    report_all(&mut out, findings_of_forwarding(runs));
    report_all(&mut out, findings_of_pods(plan, runs));
    report_all(&mut out, findings_of_endpoints(plan, runs));
    proof {
        assert(check::finding_views(out@).len() == out@.len());
    }
    if out.len() == 0 {
        report(&mut out, all_good_finding(plan, count));
        proof {
            assert(check::finding_views(out@) =~= meaning(*plan, runs@));
        }
    }
    out
}

} // verus!
