//! What a diagnosis says, read from its list of issues.

use crate::diagnose;
use crate::extended;
use crate::model::{ClusterGraph, IssueView, PodInfo, Severity};
use crate::pick;
use crate::rules::admission;
use crate::rules::balancer;
use crate::rules::cni;
use crate::rules::dns;
use crate::rules::entry;
use crate::rules::eviction;
use crate::rules::hpa;
use crate::rules::ingress;
use crate::rules::mesh;
use crate::rules::network;
use crate::rules::node;
use crate::rules::pod;
use crate::rules::ports;
use crate::rules::probes;
use crate::rules::service;
use crate::rules::storage;
use crate::rules::targets;
use crate::rules::workload;
use vstd::prelude::*;

verus! {

/// Does the diagnosis hold an issue with this id and severity?
pub open spec fn told(g: ClusterGraph, id: Seq<char>, severity: Severity) -> bool {
    exists|k: int|
        0 <= k < diagnose::diagnosis(g).len() && (#[trigger] diagnose::diagnosis(g)[k]).id == id
            && diagnose::diagnosis(g)[k].severity == severity
}

/// Does the diagnosis hold an issue with this id and severity that lists the pod?
pub open spec fn told_of(
    g: ClusterGraph,
    id: Seq<char>,
    severity: Severity,
    pod: Seq<char>,
) -> bool {
    exists|k: int|
        0 <= k < diagnose::diagnosis(g).len() && (#[trigger] diagnose::diagnosis(g)[k]).id == id
            && diagnose::diagnosis(g)[k].severity == severity
            && diagnose::diagnosis(g)[k].pods.contains(pod)
}

/// Do the issues hold none with this id?
pub open spec fn untold(s: Seq<IssueView>, id: Seq<char>) -> bool {
    forall|k: int| 0 <= k < s.len() ==> (#[trigger] s[k]).id != id
}

/// The issues about a pod stand under its workload, or under the pod itself.
pub open spec fn stands_under(p: PodInfo, key: Seq<char>) -> bool {
    match p.workload {
        Some(w) => key == w@,
        None => key == "Pod"@ + "/"@ + p.namespace@ + "/"@ + p.name@,
    }
}

pub proof fn lemma_either(a: Seq<IssueView>, b: Seq<IssueView>, x: IssueView)
    ensures
        (a + b).contains(x) <==> a.contains(x) || b.contains(x),
{
    if a.contains(x) {
        let k = choose|k: int| 0 <= k < a.len() && a[k] == x;
        assert((a + b)[k] == x);
    }
    if b.contains(x) {
        let k = choose|k: int| 0 <= k < b.len() && b[k] == x;
        assert((a + b)[a.len() + k] == x);
    }
    if (a + b).contains(x) {
        let k = choose|k: int| 0 <= k < (a + b).len() && (a + b)[k] == x;
        if k < a.len() {
            assert(a[k] == x);
        } else {
            assert(b[k - a.len()] == x);
        }
    }
}

/// Does one of the rules beyond the request path write the issue?
pub open spec fn written_beyond(g: ClusterGraph, x: IssueView) -> bool {
    ||| network::policy_issues(g).contains(x)
    ||| dns::dns_issues(g).contains(x)
    ||| ingress::setup_issues(g, g.ingresses@.len() as int).contains(x)
    ||| balancer::balancer_issues(g, g.services@.len() as int).contains(x)
    ||| ports::service_port_issues(g, g.services@.len() as int).contains(x)
    ||| storage::storage_issues(g).contains(x)
    ||| admission::refusal_issues(g, g.events@.len() as int).contains(x)
    ||| hpa::hpa_issues(g, g.hpas@.len() as int).contains(x)
    ||| eviction::evicted_issues(g).contains(x)
    ||| mesh::mesh_issues(g).contains(x)
    ||| targets::lb_target_issues(g).contains(x)
    ||| cni::cni_issues(g).contains(x)
    ||| probes::probe_issues(g, g.workloads@.len() as int).contains(x)
}

/// Does one of the rules about the request path write the issue?
pub open spec fn written_on_path(g: ClusterGraph, x: IssueView) -> bool {
    let flagged = pod::flagged(g, g.pods@.len() as int);
    ||| entry::entry_issues(g, g.ingresses@.len() as int).contains(x)
    ||| pod::pod_issues(g).contains(x)
    ||| service::service_issues(g, flagged, g.services@.len() as int).contains(x)
    ||| node::node_issues(g, g.nodes@.len() as int).contains(x)
    ||| workload::workload_issues(g, flagged, g.workloads@.len() as int).contains(x)
}

/// The rules beyond the request path give exactly what each of them writes.
pub proof fn every_rule_is_heard(g: ClusterGraph, x: IssueView)
    ensures
        extended::extended_issues(g).contains(x) <==> written_beyond(g, x),
{
    let a = network::policy_issues(g);
    let b = dns::dns_issues(g);
    let c = ingress::setup_issues(g, g.ingresses@.len() as int);
    let d = balancer::balancer_issues(g, g.services@.len() as int);
    let e = ports::service_port_issues(g, g.services@.len() as int);
    lemma_either(a, b, x);
    lemma_either(a + b, c, x);
    lemma_either(a + b + c, d, x);
    lemma_either(a + b + c + d, e, x);
    let h = storage::storage_issues(g);
    let i = admission::refusal_issues(g, g.events@.len() as int);
    let j = hpa::hpa_issues(g, g.hpas@.len() as int);
    let k = eviction::evicted_issues(g);
    lemma_either(h, i, x);
    lemma_either(h + i, j, x);
    lemma_either(h + i + j, k, x);
    let m = mesh::mesh_issues(g);
    let n = targets::lb_target_issues(g);
    let o = cni::cni_issues(g);
    let p = probes::probe_issues(g, g.workloads@.len() as int);
    lemma_either(m, n, x);
    lemma_either(m + n, o, x);
    lemma_either(m + n + o, p, x);
    let t = extended::traffic_issues(g);
    let u = extended::supply_issues(g);
    let v = extended::fabric_issues(g);
    lemma_either(t, u, x);
    lemma_either(t + u, v, x);
}

/// A diagnosis holds exactly what the rules write: no issue is lost, and none is
/// made up.
pub proof fn diagnoses_hold_what_the_rules_write(g: ClusterGraph, x: IssueView)
    ensures
        diagnose::diagnosis(g).contains(x) <==> written_on_path(g, x) || written_beyond(g, x),
{
    broadcast use vstd::seq_lib::group_to_multiset_ensures;

    let flagged = pod::flagged(g, g.pods@.len() as int);
    let a = entry::entry_issues(g, g.ingresses@.len() as int);
    let b = pod::pod_issues(g);
    let c = service::service_issues(g, flagged, g.services@.len() as int);
    let d = node::node_issues(g, g.nodes@.len() as int);
    let e = workload::workload_issues(g, flagged, g.workloads@.len() as int);
    let f = extended::extended_issues(g);
    every_rule_is_heard(g, x);
    lemma_either(a, b, x);
    lemma_either(a + b, c, x);
    lemma_either(a + b + c, d, x);
    lemma_either(a + b + c + d, e, x);
    lemma_either(a + b + c + d + e, f, x);
    let s = diagnose::found(g);
    diagnose::ordering_keeps_every_issue(s);
    assert(s.to_multiset().count(x) > 0 <==> s.contains(x));
    assert(diagnose::in_order(s).to_multiset().count(x) > 0 <==> diagnose::in_order(s).contains(x));
}

/// What a rule writes is told.
pub proof fn lemma_told(g: ClusterGraph, x: IssueView)
    requires
        written_on_path(g, x) || written_beyond(g, x),
    ensures
        told(g, x.id, x.severity),
        forall|p: Seq<char>| x.pods.contains(p) ==> #[trigger] told_of(g, x.id, x.severity, p),
{
    diagnoses_hold_what_the_rules_write(g, x);
    let d = diagnose::diagnosis(g);
    let k = choose|k: int| 0 <= k < d.len() && d[k] == x;
    assert(d[k].id == x.id);
}

/// What an index gives is gathered.
pub proof fn lemma_gathered<A>(n: int, f: spec_fn(int) -> Seq<A>, i: int, x: A)
    requires
        0 <= i < n,
        f(i).contains(x),
    ensures
        pick::gather(n, f).contains(x),
{
    pick::lemma_gather_contains(n, f, x);
}

/// Where each index gives at most one thing: something is gathered where one
/// gives something, and as many as there are indices where all do.
pub proof fn lemma_gather_len<A>(n: int, f: spec_fn(int) -> Seq<A>)
    requires
        0 <= n,
        forall|i: int| 0 <= i < n ==> (#[trigger] f(i)).len() <= 1,
    ensures
        pick::gather(n, f).len() <= n,
        pick::gather(n, f).len() == n <==> forall|i: int| 0 <= i < n ==> (#[trigger] f(i)).len() == 1,
        pick::gather(n, f).len() > 0 <==> exists|i: int| 0 <= i < n && (#[trigger] f(i)).len() == 1,
    decreases n,
{
    if n > 0 {
        lemma_gather_len(n - 1, f);
        assert(f(n - 1).len() <= 1);
        if f(n - 1).len() == 1 {
            assert(0 <= n - 1 < n && f(n - 1).len() == 1);
        }
    }
}

} // verus!
