//! Cluster DNS.

use crate::lettercase;
use crate::lettercase::lower;
use crate::model;
use crate::model::{
    emit, issue, no_issues, target, ClusterGraph, EventInfo, Issue, IssueView, Layer,
    ServiceInfo, Severity, WorkloadInfo,
};
use crate::numeral;
use crate::numeral::{dec_i32, dec_u32, dec_usize};
use crate::pick;
use crate::text;
use crate::text::{cat2, cat4, cat5, cat6, copy_list, lines1, lines2, no_lines, same};
use vstd::prelude::*;

verus! {

broadcast use crate::pick::lemma_add_nothing;

/// The service of the cluster DNS.
pub open spec fn dns_service(g: ClusterGraph, n: int) -> Option<int> {
    pick::first(
        n,
        |i: int| g.services@[i].namespace@ == "kube-system"@ && g.services@[i].name@ == "kube-dns"@,
    )
}

fn find_dns_service(g: &ClusterGraph) -> (r: Option<usize>)
    ensures
        match r {
            Some(k) => k < g.services@.len() && dns_service(*g, g.services@.len() as int) == Some(k as int),
            None => dns_service(*g, g.services@.len() as int) is None,
        },
{
    let mut r: Option<usize> = None;
    let mut i: usize = 0;
    while i < g.services.len()
        invariant
            i <= g.services@.len(),
            match r {
                Some(k) => k < i && dns_service(*g, i as int) == Some(k as int),
                None => dns_service(*g, i as int) is None,
            },
        decreases g.services@.len() - i,
    {
        if r.is_none() && same(g.services[i].namespace.as_str(), "kube-system")
            && same(g.services[i].name.as_str(), "kube-dns") {
            r = Some(i);
        }
        i = i + 1;
    }
    r
}

/// The issue for a cluster DNS without ready endpoints.
pub open spec fn dns_down(s: ServiceInfo) -> IssueView {
    model::issue_view(
        "dns-down:kube-system/kube-dns"@,
        Severity::Critical,
        Layer::Service,
        model::target_view("Service"@, "kube-system"@, "kube-dns"@),
        "Cluster DNS has no ready endpoints"@,
        "The kube-dns service (served by CoreDNS) has no ready pods. Every pod that looks up a hostname, including other services, gets resolution failures. This breaks almost everything at once."@,
        seq![
            "kube-dns ready endpoints: 0, not ready: "@
                + numeral::dec(s.not_ready_endpoints as int),
        ],
        "Check the CoreDNS pods in kube-system: their status, logs and whether they can be scheduled."@,
        seq![
            "kubectl get pods -n kube-system -l k8s-app=kube-dns"@,
            "kubectl logs -n kube-system -l k8s-app=kube-dns --tail=50"@,
        ],
        text::strs(s.pods@),
    )
}

fn dns_down_issue(s: &ServiceInfo) -> (r: Issue)
    ensures
        r@ == dns_down(*s),
{
    issue(
        "dns-down:kube-system/kube-dns".to_owned(),
        Severity::Critical,
        Layer::Service,
        target("Service", "kube-system", "kube-dns"),
        "Cluster DNS has no ready endpoints".to_owned(),
        "The kube-dns service (served by CoreDNS) has no ready pods. Every pod that looks up a hostname, including other services, gets resolution failures. This breaks almost everything at once.".to_owned(),
        lines1(
            cat2(
                "kube-dns ready endpoints: 0, not ready: ",
                dec_u32(s.not_ready_endpoints).as_str(),
            ),
        ),
        "Check the CoreDNS pods in kube-system: their status, logs and whether they can be scheduled.".to_owned(),
        lines2(
            "kubectl get pods -n kube-system -l k8s-app=kube-dns".to_owned(),
            "kubectl logs -n kube-system -l k8s-app=kube-dns --tail=50".to_owned(),
        ),
        copy_list(&s.pods),
    )
}

/// A DNS workload with fewer ready replicas than it wants.
pub open spec fn short_of_dns(g: ClusterGraph, n: int) -> Option<int> {
    pick::first(n, |i: int| g.workloads@[i].namespace@ == "kube-system"@ && (g.workloads@[i].name@ == "coredns"@
                || g.workloads@[i].name@ == "kube-dns"@) && g.workloads@[i].ready < g.workloads@[i].desired)
}

fn find_short_of_dns(g: &ClusterGraph) -> (r: Option<usize>)
    ensures
        match r {
            Some(k) => k < g.workloads@.len() && short_of_dns(*g, g.workloads@.len() as int) == Some(
                k as int,
            ),
            None => short_of_dns(*g, g.workloads@.len() as int) is None,
        },
{
    let mut r: Option<usize> = None;
    let mut i: usize = 0;
    while i < g.workloads.len()
        invariant
            i <= g.workloads@.len(),
            match r {
                Some(k) => k < i && short_of_dns(*g, i as int) == Some(k as int),
                None => short_of_dns(*g, i as int) is None,
            },
        decreases g.workloads@.len() - i,
    {
        if r.is_none() && same(g.workloads[i].namespace.as_str(), "kube-system") && (same(
                g.workloads[i].name.as_str(),
                "coredns",
            ) || same(g.workloads[i].name.as_str(), "kube-dns"))
            && g.workloads[i].ready < g.workloads[i].desired {
            r = Some(i);
        }
        i = i + 1;
    }
    r
}

/// The issue for a cluster DNS with too few replicas.
pub open spec fn dns_degraded(w: WorkloadInfo) -> IssueView {
    model::issue_view(
        "dns-degraded:"@ + w.id@,
        Severity::Warning,
        Layer::Workload,
        model::target_view(w.kind@, w.namespace@, w.name@),
        "Cluster DNS is degraded: "@ + numeral::dec(w.ready as int) + " of "@
            + numeral::dec(w.desired as int) + " CoreDNS replicas ready"@,
        "Lookups still work but with less capacity; under load you may see intermittent resolution timeouts."@,
        seq![
            w.name@ + ": desired "@ + numeral::dec(w.desired as int) + ", ready "@
                + numeral::dec(w.ready as int),
        ],
        "Find out why the missing CoreDNS replicas aren't ready."@,
        seq!["kubectl get pods -n kube-system -l k8s-app=kube-dns"@],
        Seq::empty(),
    )
}

fn dns_degraded_issue(w: &WorkloadInfo) -> (r: Issue)
    ensures
        r@ == dns_degraded(*w),
{
    issue(
        cat2("dns-degraded:", w.id.as_str()),
        Severity::Warning,
        Layer::Workload,
        target(w.kind.as_str(), w.namespace.as_str(), w.name.as_str()),
        cat5(
            "Cluster DNS is degraded: ",
            dec_i32(w.ready).as_str(),
            " of ",
            dec_i32(w.desired).as_str(),
            " CoreDNS replicas ready",
        ),
        "Lookups still work but with less capacity; under load you may see intermittent resolution timeouts.".to_owned(),
        lines1(
            cat5(
                w.name.as_str(),
                ": desired ",
                dec_i32(w.desired).as_str(),
                ", ready ",
                dec_i32(w.ready).as_str(),
            ),
        ),
        "Find out why the missing CoreDNS replicas aren't ready.".to_owned(),
        lines1("kubectl get pods -n kube-system -l k8s-app=kube-dns".to_owned()),
        no_lines(),
    )
}

/// The first event about a DNS configuration that is cut short.
pub open spec fn forming(g: ClusterGraph, n: int) -> Option<int> {
    pick::first(n, |i: int| g.events@[i].reason@ == "DNSConfigForming"@)
}

fn find_forming(g: &ClusterGraph) -> (r: Option<usize>)
    ensures
        match r {
            Some(k) => k < g.events@.len() && forming(*g, g.events@.len() as int) == Some(k as int),
            None => forming(*g, g.events@.len() as int) is None,
        },
{
    let mut r: Option<usize> = None;
    let mut i: usize = 0;
    while i < g.events.len()
        invariant
            i <= g.events@.len(),
            match r {
                Some(k) => k < i && forming(*g, i as int) == Some(k as int),
                None => forming(*g, i as int) is None,
            },
        decreases g.events@.len() - i,
    {
        if r.is_none() && same(g.events[i].reason.as_str(), "DNSConfigForming") {
            r = Some(i);
        }
        i = i + 1;
    }
    r
}

/// How many of the first `n` events are about a DNS configuration that is cut
/// short.
pub open spec fn formings(g: ClusterGraph, n: int) -> nat {
    pick::tally(n, |i: int| g.events@[i].reason@ == "DNSConfigForming"@)
}

fn count_formings(g: &ClusterGraph) -> (r: usize)
    ensures
        r == formings(*g, g.events@.len() as int),
{
    let mut r: usize = 0;
    let mut i: usize = 0;
    while i < g.events.len()
        invariant
            r <= i <= g.events@.len(),
            r == formings(*g, i as int),
        decreases g.events@.len() - i,
    {
        if same(g.events[i].reason.as_str(), "DNSConfigForming") {
            r = r + 1;
        }
        i = i + 1;
    }
    r
}

/// The issue for nodes whose DNS configuration is cut short; `kind` is the kind
/// of the object in lower case.
pub open spec fn dns_config(e: EventInfo, count: int, kind: Seq<char>) -> IssueView {
    model::issue_view(
        "dns-config:"@ + e.namespace@ + "/"@ + e.name@,
        Severity::Warning,
        Layer::Node,
        model::target_view(e.kind@, e.namespace@, e.name@),
        "Node DNS configuration is being truncated"@,
        numeral::dec(count)
            + " pods reported DNSConfigForming: the node's resolv.conf has more nameservers or search domains than Kubernetes allows, so some are dropped."@,
        seq!["DNSConfigForming: "@ + e.message@],
        "Reduce nameservers (max 3) or search domains on the node, or set the pod's dnsConfig explicitly."@,
        seq!["kubectl describe "@ + kind + " "@ + e.name@ + " -n "@ + e.namespace@],
        Seq::empty(),
    )
}

/// Write the issue, given the kind of the object in lower case.
pub fn dns_config_issue(e: &EventInfo, count: usize, kind: &str) -> (r: Issue)
    ensures
        r@ == dns_config(*e, count as int, kind@),
{
    issue(
        cat4("dns-config:", e.namespace.as_str(), "/", e.name.as_str()),
        Severity::Warning,
        Layer::Node,
        target(e.kind.as_str(), e.namespace.as_str(), e.name.as_str()),
        "Node DNS configuration is being truncated".to_owned(),
        cat2(
            dec_usize(count).as_str(),
            " pods reported DNSConfigForming: the node's resolv.conf has more nameservers or search domains than Kubernetes allows, so some are dropped.",
        ),
        lines1(cat2("DNSConfigForming: ", e.message.as_str())),
        "Reduce nameservers (max 3) or search domains on the node, or set the pod's dnsConfig explicitly.".to_owned(),
        lines1(cat6("kubectl describe ", kind, " ", e.name.as_str(), " -n ", e.namespace.as_str())),
        no_lines(),
    )
}

/// The issues of a DNS that is up.
pub open spec fn dns_weaknesses(g: ClusterGraph) -> Seq<IssueView> {
    (match short_of_dns(g, g.workloads@.len() as int) {
        Some(i) => seq![dns_degraded(g.workloads@[i])],
        None => Seq::empty(),
    }) + (match forming(g, g.events@.len() as int) {
        Some(i) => seq![
            dns_config(
                g.events@[i],
                formings(g, g.events@.len() as int) as int,
                lettercase::lowercase(g.events@[i].kind@),
            ),
        ],
        None => Seq::empty(),
    })
}

/// The issues of the cluster DNS. When it is down nothing else matters.
pub open spec fn dns_issues(g: ClusterGraph) -> Seq<IssueView> {
    match dns_service(g, g.services@.len() as int) {
        Some(i) => if g.services@[i].ready_endpoints == 0 {
            seq![dns_down(g.services@[i])]
        } else {
            dns_weaknesses(g)
        },
        None => dns_weaknesses(g),
    }
}

/// What is wrong with the cluster DNS.
pub fn dns_rules(g: &ClusterGraph) -> (out: Vec<Issue>)
    ensures
        model::views(out@) == dns_issues(*g),
{
    let mut out: Vec<Issue> = no_issues();
    match find_dns_service(g) {
        Some(i) => {
            if g.services[i].ready_endpoints == 0 {
                emit(&mut out, dns_down_issue(&g.services[i]));
                return out;
            }
        },
        None => {},
    }
    match find_short_of_dns(g) {
        Some(i) => emit(&mut out, dns_degraded_issue(&g.workloads[i])),
        None => {},
    }
    match find_forming(g) {
        Some(i) => {
            let e: &EventInfo = &g.events[i];
            let kind: String = lower(e.kind.as_str());
            emit(&mut out, dns_config_issue(e, count_formings(g), kind.as_str()));
        },
        None => {},
    }
    out
}

} // verus!
