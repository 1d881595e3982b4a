//! What is told of the layers that a request travels through: ingresses,
//! services, workloads and nodes, and what they need to work.

use crate::labels;
use crate::laws::pods;
use crate::laws::pods::is_well;
use crate::laws::policies;
use crate::laws::policies::belongs;
use crate::laws::reports;
use crate::laws::reports::{told, told_of};
use crate::lettercase;
use crate::model::{
    ClusterGraph, EventInfo, IngressInfo, IssueView, PodInfo, ServiceInfo, ServicePortInfo,
    Severity, WorkloadInfo,
};
use crate::numeral;
use crate::pick;
use crate::rules::balancer;
use crate::rules::dns;
use crate::rules::entry;
use crate::rules::ingress;
use crate::rules::network;
use crate::rules::node;
use crate::rules::pod;
use crate::rules::ports;
use crate::rules::service;
use crate::rules::workload;
use crate::scan;
use crate::text;
use vstd::prelude::*;

verus! {

/// Is there a service with this name?
pub open spec fn is_service(g: ClusterGraph, ns: Seq<char>, name: Seq<char>) -> bool {
    exists|k: int|
        0 <= k < g.services@.len() && (#[trigger] g.services@[k]).namespace@ == ns
            && g.services@[k].name@ == name
}

proof fn lemma_service(g: ClusterGraph, ing: IngressInfo, j: int)
    ensures
        entry::route_broken(g, ing, j) == !is_service(
            g,
            ing.namespace@,
            ing.routes@[j].service@,
        ),
{
    let n = g.services@.len() as int;
    let f = |i: int|
        g.services@[i].namespace@ == ing.namespace@ && g.services@[i].name@
            == ing.routes@[j].service@;
    pick::lemma_any(n, f);
    assert(entry::service_exists(g, ing.namespace@, ing.routes@[j].service@) == pick::any(n, f));
    if is_service(g, ing.namespace@, ing.routes@[j].service@) {
        let k = choose|k: int|
            0 <= k < g.services@.len() && (#[trigger] g.services@[k]).namespace@ == ing.namespace@
                && g.services@[k].name@ == ing.routes@[j].service@;
        assert(f(k));
    }
}

/// The id of an issue about an ingress.
pub open spec fn ingress_id(what: Seq<char>, ing: IngressInfo) -> Seq<char> {
    what + ing.namespace@ + "/"@ + ing.name@
}

proof fn lemma_missing(g: ClusterGraph, ing: IngressInfo, svc: Seq<char>, n: int)
    requires
        0 <= n <= ing.routes@.len(),
    ensures
        entry::missing_backends(g, ing, n).contains(svc) <==> exists|j: int|
            0 <= j < n && (#[trigger] ing.routes@[j]).service@ == svc && !is_service(
                g,
                ing.namespace@,
                svc,
            ),
    decreases n,
{
    if n > 0 {
        lemma_missing(g, ing, svc, n - 1);
        lemma_service(g, ing, n - 1);
        let r = ing.routes@[n - 1];
        if entry::route_broken(g, ing, n - 1) {
            let f = |j: int|
                if entry::route_broken(g, ing, j) {
                    Some(ing.routes@[j].service@)
                } else {
                    None
                };
            pick::lemma_keys(n - 1, f);
            assert(entry::missing_backends(g, ing, n - 1) == pick::keys(n - 1, f));
            crate::order::lemma_put(entry::missing_backends(g, ing, n - 1), r.service@);
            assert(entry::missing_backends(g, ing, n) == crate::order::put(
                entry::missing_backends(g, ing, n - 1),
                r.service@,
            ));
        }
        if r.service@ == svc && !is_service(g, ing.namespace@, svc) {
            assert(ing.routes@[n - 1].service@ == svc);
        }
    }
}

/// A route to a service that does not exist is told of, as critical.
pub proof fn routes_to_nowhere_are_told_of(g: ClusterGraph, i: int, j: int)
    requires
        0 <= i < g.ingresses@.len(),
        0 <= j < g.ingresses@[i].routes@.len(),
        !is_service(g, g.ingresses@[i].namespace@, g.ingresses@[i].routes@[j].service@),
    ensures
        told(
            g,
            ingress_id("entry-missing-backend:"@, g.ingresses@[i]) + "/"@
                + g.ingresses@[i].routes@[j].service@,
            Severity::Critical,
        ),
{
    let ing = g.ingresses@[i];
    let svc = ing.routes@[j].service@;
    lemma_missing(g, ing, svc, ing.routes@.len() as int);
    let keys = entry::missing_backends(g, ing, ing.routes@.len() as int);
    let m = choose|m: int| 0 <= m < keys.len() && keys[m] == svc;
    let x = entry::missing_backend(g, ing, svc);
    let f = |k: int| seq![entry::missing_backend(g, ing, keys[k])];
    assert(f(m)[0] == x);
    reports::lemma_gathered(keys.len() as int, f, m, x);
    assert(entry::ingress_issues(g, ing) == pick::gather(keys.len() as int, f));
    let n = g.ingresses@.len() as int;
    let e = |i: int| entry::ingress_issues(g, g.ingresses@[i]);
    assert(e(i).contains(x));
    reports::lemma_gathered(n, e, i, x);
    assert(entry::entry_issues(g, n) == pick::gather(n, e));
    reports::lemma_told(g, x);
}

/// An issue about routes is about one to a service that does not exist.
pub proof fn routes_to_services_are_left_alone(g: ClusterGraph, x: IssueView)
    requires
        entry::entry_issues(g, g.ingresses@.len() as int).contains(x),
    ensures
        exists|i: int, j: int|
            0 <= i < g.ingresses@.len() && 0 <= j < g.ingresses@[i].routes@.len() && !is_service(
                g,
                g.ingresses@[i].namespace@,
                (#[trigger] g.ingresses@[i].routes@[j]).service@,
            ) && x.id == ingress_id("entry-missing-backend:"@, g.ingresses@[i]) + "/"@
                + g.ingresses@[i].routes@[j].service@,
{
    let n = g.ingresses@.len() as int;
    let e = |i: int| entry::ingress_issues(g, g.ingresses@[i]);
    assert(entry::entry_issues(g, n) == pick::gather(n, e));
    pick::lemma_gather_contains(n, e, x);
    let i = choose|i: int| 0 <= i < n && (#[trigger] e(i)).contains(x);
    let ing = g.ingresses@[i];
    let keys = entry::missing_backends(g, ing, ing.routes@.len() as int);
    let f = |k: int| seq![entry::missing_backend(g, ing, keys[k])];
    assert(entry::ingress_issues(g, ing) == pick::gather(keys.len() as int, f));
    pick::lemma_gather_contains(keys.len() as int, f, x);
    let m = choose|m: int| 0 <= m < keys.len() && (#[trigger] f(m)).contains(x);
    assert(keys.contains(keys[m]));
    lemma_missing(g, ing, keys[m], ing.routes@.len() as int);
    let j = choose|j: int| 0 <= j < ing.routes@.len() && (#[trigger] ing.routes@[j]).service@ == keys[m];
    assert(g.ingresses@[i].routes@[j].service@ == keys[m]);
}

/// The id of an issue about a service.
pub open spec fn service_id(what: Seq<char>, s: ServiceInfo) -> Seq<char> {
    what + s.namespace@ + "/"@ + s.name@
}

proof fn lemma_service_told(g: ClusterGraph, i: int, x: IssueView)
    requires
        0 <= i < g.services@.len(),
        service::service_issue(
            g,
            g.services@[i],
            pod::flagged(g, g.pods@.len() as int),
        ).contains(x),
    ensures
        told(g, x.id, x.severity),
        forall|p: Seq<char>| x.pods.contains(p) ==> #[trigger] told_of(g, x.id, x.severity, p),
{
    let flagged = pod::flagged(g, g.pods@.len() as int);
    let n = g.services@.len() as int;
    let e = |i: int| service::service_issue(g, g.services@[i], flagged);
    reports::lemma_gathered(n, e, i, x);
    assert(service::service_issues(g, flagged, n) == pick::gather(n, e));
    reports::lemma_told(g, x);
}

/// Does the service select pods by labels, and not stand for a name outside?
pub open spec fn is_selecting(s: ServiceInfo) -> bool {
    s.selector@.len() > 0 && s.type_@ != "ExternalName"@
}

/// Is the workload one that the service's selector matches?
pub open spec fn is_matched(s: ServiceInfo, w: WorkloadInfo) -> bool {
    exists|k: int| 0 <= k < s.workloads@.len() && (#[trigger] s.workloads@[k])@ == w.id@
}

proof fn lemma_matched(g: ClusterGraph, s: ServiceInfo, n: int)
    requires
        0 <= n <= g.workloads@.len(),
    ensures
        service::matched_workload(g, s, n) is Some <==> exists|i: int|
            0 <= i < n && is_matched(s, #[trigger] g.workloads@[i]),
    decreases n,
{
    if n > 0 {
        lemma_matched(g, s, n - 1);
        let w = g.workloads@[n - 1];
        let all = text::strs(s.workloads@);
        if all.contains(w.id@) {
            let k = choose|k: int| 0 <= k < all.len() && all[k] == w.id@;
            assert(s.workloads@[k]@ == w.id@);
            assert(is_matched(s, g.workloads@[n - 1]));
        }
        if is_matched(s, w) {
            let k = choose|k: int| 0 <= k < s.workloads@.len() && (#[trigger] s.workloads@[k])@ == w.id@;
            assert(all[k] == w.id@);
        }
    }
}

/// A service without pods is told of: as a warning where it matches a workload,
/// which then runs none, and as critical where it matches nothing.
pub proof fn services_without_pods_are_told_of(g: ClusterGraph, i: int)
    requires
        0 <= i < g.services@.len(),
        is_selecting(g.services@[i]),
        g.services@[i].pods@.len() == 0,
    ensures
        if exists|k: int|
            0 <= k < g.workloads@.len() && is_matched(
                g.services@[i],
                #[trigger] g.workloads@[k],
            ) {
            told(g, service_id("svc-scaled-zero:"@, g.services@[i]), Severity::Warning)
        } else {
            told(g, service_id("svc-no-match:"@, g.services@[i]), Severity::Critical)
        },
{
    let s = g.services@[i];
    lemma_matched(g, s, g.workloads@.len() as int);
    let all = service::service_issue(g, s, pod::flagged(g, g.pods@.len() as int));
    assert(all.contains(all[0]));
    lemma_service_told(g, i, all[0]);
}

/// Is a pod of the service not well?
pub open spec fn pods_are_to_blame(g: ClusterGraph, s: ServiceInfo) -> bool {
    exists|k: int, q: int|
        0 <= k < s.pods@.len() && 0 <= q < g.pods@.len() && (#[trigger] g.pods@[q]).namespace@
            + "/"@ + g.pods@[q].name@ == s.namespace@ + "/"@ + (#[trigger] s.pods@[k])@ && !is_well(
            g.pods@[q],
        )
}

proof fn lemma_blame(g: ClusterGraph, s: ServiceInfo, n: int)
    requires
        0 <= n <= s.pods@.len(),
    ensures
        service::pods_explain(s, pod::flagged(g, g.pods@.len() as int), n) <==> exists|
            k: int,
            q: int,
        |
            0 <= k < n && 0 <= q < g.pods@.len() && (#[trigger] g.pods@[q]).namespace@ + "/"@
                + g.pods@[q].name@ == s.namespace@ + "/"@ + (#[trigger] s.pods@[k])@ && !is_well(
                g.pods@[q],
            ),
    decreases n,
{
    if n > 0 {
        lemma_blame(g, s, n - 1);
        let key = s.namespace@ + "/"@ + s.pods@[n - 1]@;
        pods::only_pods_in_trouble_are_flagged(g, key);
        if pod::flagged(g, g.pods@.len() as int).contains(key) {
            let q = choose|q: int|
                0 <= q < g.pods@.len() && (#[trigger] g.pods@[q]).namespace@ + "/"@
                    + g.pods@[q].name@ == key && !is_well(g.pods@[q]);
            assert(g.pods@[q].namespace@ + "/"@ + g.pods@[q].name@ == s.namespace@ + "/"@
                + s.pods@[n - 1]@);
        }
    }
}

/// A service with pods, but without ready endpoints, is told of, with its pods: as
/// a warning where one of them is not well, and as critical where all are.
pub proof fn services_without_endpoints_are_told_of(g: ClusterGraph, i: int, k: int)
    requires
        0 <= i < g.services@.len(),
        is_selecting(g.services@[i]),
        0 <= k < g.services@[i].pods@.len(),
        g.services@[i].ready_endpoints == 0,
    ensures
        told_of(
            g,
            service_id("svc-no-ready:"@, g.services@[i]),
            if pods_are_to_blame(g, g.services@[i]) {
                Severity::Warning
            } else {
                Severity::Critical
            },
            g.services@[i].pods@[k]@,
        ),
{
    let s = g.services@[i];
    lemma_blame(g, s, s.pods@.len() as int);
    let all = service::service_issue(g, s, pod::flagged(g, g.pods@.len() as int));
    assert(all.contains(all[0]));
    assert(text::strs(s.pods@)[k] == s.pods@[k]@);
    assert(all[0].pods.contains(s.pods@[k]@));
    lemma_service_told(g, i, all[0]);
}

/// Nothing is told here of a service that selects no pods by labels, or that has
/// pods and a ready endpoint.
pub proof fn services_that_work_are_left_alone(
    g: ClusterGraph,
    s: ServiceInfo,
    flagged: Seq<Seq<char>>,
)
    ensures
        service::service_issue(g, s, flagged).len() == 0 <==> !is_selecting(s) || (s.pods@.len() > 0
            && s.ready_endpoints > 0),
{
}

/// Is a pod of the workload not well?
pub open spec fn own_pods_are_to_blame(g: ClusterGraph, w: WorkloadInfo) -> bool {
    exists|q: int| 0 <= q < g.pods@.len() && #[trigger] is_blamed(g, w, q)
}

/// Does the pod belong to the workload, and is one of its name not well?
pub open spec fn is_blamed(g: ClusterGraph, w: WorkloadInfo, q: int) -> bool {
    (g.pods@[q].workload matches Some(id) && id@ == w.id@) && exists|r: int|
        0 <= r < g.pods@.len() && (#[trigger] g.pods@[r]).namespace@ + "/"@ + g.pods@[r].name@
            == g.pods@[q].namespace@ + "/"@ + g.pods@[q].name@ && !is_well(g.pods@[r])
}

proof fn lemma_own_blame(g: ClusterGraph, w: WorkloadInfo, n: int)
    requires
        0 <= n <= g.pods@.len(),
    ensures
        workload::pods_explain(g, w, pod::flagged(g, g.pods@.len() as int), n) <==> exists|q: int|
            0 <= q < n && #[trigger] is_blamed(g, w, q),
    decreases n,
{
    if n > 0 {
        lemma_own_blame(g, w, n - 1);
        let p = g.pods@[n - 1];
        pods::only_pods_in_trouble_are_flagged(g, p.namespace@ + "/"@ + p.name@);
        assert(is_blamed(g, w, n - 1) == (text::opt(p.workload) == Some(w.id@) && pod::flagged(
            g,
            g.pods@.len() as int,
        ).contains(p.namespace@ + "/"@ + p.name@)));
    }
}

/// A workload short of replicas is told of, as a warning, exactly where none of
/// its pods is to blame.
pub proof fn workloads_short_of_replicas_are_told_of(g: ClusterGraph, i: int)
    requires
        0 <= i < g.workloads@.len(),
    ensures
        ({
            let w = g.workloads@[i];
            let flagged = pod::flagged(g, g.pods@.len() as int);
            let short = w.desired != 0 && w.ready < w.desired && !own_pods_are_to_blame(g, w);
            &&& short ==> told(g, "workload-unavailable:"@ + w.id@, Severity::Warning)
            &&& !short ==> workload::workload_issue(g, w, flagged).len() == 0
        }),
{
    let w = g.workloads@[i];
    let flagged = pod::flagged(g, g.pods@.len() as int);
    lemma_own_blame(g, w, g.pods@.len() as int);
    let all = workload::workload_issue(g, w, flagged);
    if w.desired != 0 && w.ready < w.desired && !own_pods_are_to_blame(g, w) {
        let x = all[0];
        assert(all.contains(x));
        let n = g.workloads@.len() as int;
        let e = |i: int| workload::workload_issue(g, g.workloads@[i], flagged);
        reports::lemma_gathered(n, e, i, x);
        assert(workload::workload_issues(g, flagged, n) == pick::gather(n, e));
        reports::lemma_told(g, x);
    }
}

proof fn lemma_node_told(g: ClusterGraph, i: int, x: IssueView)
    requires
        0 <= i < g.nodes@.len(),
        node::node_issue(g, g.nodes@[i]).contains(x),
    ensures
        told(g, x.id, x.severity),
{
    let n = g.nodes@.len() as int;
    let e = |i: int| node::node_issue(g, g.nodes@[i]);
    reports::lemma_gathered(n, e, i, x);
    assert(node::node_issues(g, n) == pick::gather(n, e));
    reports::lemma_told(g, x);
}

/// A node that is not ready is told of, as critical; one under pressure and one
/// that is cordoned, as a warning; one that is none of these, not at all.
pub proof fn nodes_in_trouble_are_told_of(g: ClusterGraph, i: int)
    requires
        0 <= i < g.nodes@.len(),
    ensures
        ({
            let n = g.nodes@[i];
            &&& !n.ready ==> told(g, "node-notready:"@ + n.name@, Severity::Critical)
            &&& n.pressure@.len() > 0 ==> told(g, "node-pressure:"@ + n.name@, Severity::Warning)
            &&& n.unschedulable ==> told(g, "node-cordoned:"@ + n.name@, Severity::Warning)
            &&& n.ready && n.pressure@.len() == 0 && !n.unschedulable ==> node::node_issue(
                g,
                n,
            ).len() == 0
            &&& n.ready ==> reports::untold(node::node_issue(g, n), "node-notready:"@ + n.name@)
        }),
{
    let n = g.nodes@[i];
    let all = node::node_issue(g, n);
    if !n.ready {
        assert(all.contains(all[0]));
        lemma_node_told(g, i, all[0]);
    }
    if n.pressure@.len() > 0 {
        let k = if n.ready {
            0int
        } else {
            1int
        };
        assert(all[k].id == "node-pressure:"@ + n.name@);
        assert(all.contains(all[k]));
        lemma_node_told(g, i, all[k]);
    }
    if n.unschedulable {
        let k = all.len() - 1;
        assert(all[k].id == "node-cordoned:"@ + n.name@);
        assert(all.contains(all[k]));
        lemma_node_told(g, i, all[k]);
    }
    if n.ready {
        reveal_strlit("node-notready:");
        reveal_strlit("node-pressure:");
        reveal_strlit("node-cordoned:");
        let a = "node-notready:"@ + n.name@;
        let b = "node-pressure:"@ + n.name@;
        let c = "node-cordoned:"@ + n.name@;
        assert(a[5] == 'n' && b[5] == 'p' && c[5] == 'c');
    }
}

/// Is this the first service for cluster DNS?
pub open spec fn serves_dns(g: ClusterGraph, i: int) -> bool {
    0 <= i < g.services@.len() && is_dns(g.services@[i]) && forall|j: int|
        0 <= j < i ==> !is_dns(#[trigger] g.services@[j])
}

/// Is this the service for cluster DNS?
pub open spec fn is_dns(s: ServiceInfo) -> bool {
    s.namespace@ == "kube-system"@ && s.name@ == "kube-dns"@
}

proof fn lemma_dns_service(g: ClusterGraph, n: int)
    requires
        0 <= n <= g.services@.len(),
    ensures
        match dns::dns_service(g, n) {
            Some(i) => i < n && serves_dns(g, i),
            None => forall|j: int| 0 <= j < n ==> !is_dns(#[trigger] g.services@[j]),
        },
    decreases n,
{
    if n > 0 {
        lemma_dns_service(g, n - 1);
    }
}

/// Cluster DNS without a ready endpoint is told of, as critical.
pub proof fn dns_without_endpoints_is_told_of(g: ClusterGraph, i: int)
    requires
        serves_dns(g, i),
        g.services@[i].ready_endpoints == 0,
    ensures
        told(g, "dns-down:kube-system/kube-dns"@, Severity::Critical),
{
    let n = g.services@.len() as int;
    lemma_dns_service(g, n);
    let k = dns::dns_service(g, n)->0;
    if k < i {
        assert(!is_dns(g.services@[k]));
    } else if i < k {
        assert(!is_dns(g.services@[i]));
    }
    let x = dns::dns_issues(g)[0];
    assert(dns::dns_issues(g).contains(x));
    reports::lemma_told(g, x);
}

/// Is this a workload of cluster DNS that is short of replicas?
pub open spec fn lacks_dns(w: WorkloadInfo) -> bool {
    w.namespace@ == "kube-system"@ && (w.name@ == "coredns"@ || w.name@ == "kube-dns"@) && w.ready
        < w.desired
}

proof fn lemma_short_of_dns(g: ClusterGraph, n: int)
    requires
        0 <= n <= g.workloads@.len(),
    ensures
        match dns::short_of_dns(g, n) {
            Some(i) => 0 <= i < n && lacks_dns(g.workloads@[i]) && forall|j: int|
                0 <= j < i ==> !lacks_dns(#[trigger] g.workloads@[j]),
            None => forall|j: int| 0 <= j < n ==> !lacks_dns(#[trigger] g.workloads@[j]),
        },
    decreases n,
{
    if n > 0 {
        lemma_short_of_dns(g, n - 1);
    }
}

proof fn lemma_forming(g: ClusterGraph, n: int)
    requires
        0 <= n <= g.events@.len(),
    ensures
        match dns::forming(g, n) {
            Some(i) => 0 <= i < n && g.events@[i].reason@ == "DNSConfigForming"@ && forall|j: int|
                0 <= j < i ==> (#[trigger] g.events@[j]).reason@ != "DNSConfigForming"@,
            None => forall|j: int|
                0 <= j < n ==> (#[trigger] g.events@[j]).reason@ != "DNSConfigForming"@,
        },
    decreases n,
{
    if n > 0 {
        lemma_forming(g, n - 1);
    }
}

/// Is cluster DNS up, or not known?
pub open spec fn dns_is_up(g: ClusterGraph) -> bool {
    forall|k: int| #[trigger] serves_dns(g, k) ==> g.services@[k].ready_endpoints > 0
}

proof fn lemma_dns_is_up(g: ClusterGraph)
    requires
        dns_is_up(g),
    ensures
        dns::dns_issues(g) == dns::dns_weaknesses(g),
{
    lemma_dns_service(g, g.services@.len() as int);
}

/// Is this the first workload of cluster DNS that is short of replicas?
pub open spec fn lacks_dns_first(g: ClusterGraph, i: int) -> bool {
    0 <= i < g.workloads@.len() && lacks_dns(g.workloads@[i]) && forall|j: int|
        0 <= j < i ==> !lacks_dns(#[trigger] g.workloads@[j])
}

/// Is this the first event about the configuration of DNS?
pub open spec fn forms_dns_first(g: ClusterGraph, i: int) -> bool {
    0 <= i < g.events@.len() && g.events@[i].reason@ == "DNSConfigForming"@ && forall|j: int|
        0 <= j < i ==> (#[trigger] g.events@[j]).reason@ != "DNSConfigForming"@
}

/// Where cluster DNS is not down, the first workload of it that is short of
/// replicas is told of, as a warning.
pub proof fn weak_dns_is_told_of(g: ClusterGraph, i: int)
    requires
        dns_is_up(g),
        lacks_dns_first(g, i),
    ensures
        told(g, "dns-degraded:"@ + g.workloads@[i].id@, Severity::Warning),
{
    lemma_dns_is_up(g);
    lemma_short_of_dns(g, g.workloads@.len() as int);
    let k = dns::short_of_dns(g, g.workloads@.len() as int)->0;
    if k < i {
        assert(!lacks_dns(g.workloads@[k]));
    } else if i < k {
        assert(!lacks_dns(g.workloads@[i]));
    }
    let x = dns::dns_issues(g)[0];
    assert(dns::dns_issues(g).contains(x));
    reports::lemma_told(g, x);
}

/// Where cluster DNS is not down, the first event about its configuration is told
/// of, as a warning.
pub proof fn odd_dns_is_told_of(g: ClusterGraph, i: int)
    requires
        dns_is_up(g),
        forms_dns_first(g, i),
    ensures
        told(
            g,
            "dns-config:"@ + g.events@[i].namespace@ + "/"@ + g.events@[i].name@,
            Severity::Warning,
        ),
{
    lemma_dns_is_up(g);
    lemma_forming(g, g.events@.len() as int);
    let k = dns::forming(g, g.events@.len() as int)->0;
    if k < i {
        assert(g.events@[k].reason@ != "DNSConfigForming"@);
    } else if i < k {
        assert(g.events@[i].reason@ != "DNSConfigForming"@);
    }
    lemma_config_told(g, k);
}

proof fn lemma_config_told(g: ClusterGraph, k: int)
    requires
        dns::dns_issues(g) == dns::dns_weaknesses(g),
        dns::forming(g, g.events@.len() as int) == Some(k),
    ensures
        told(
            g,
            "dns-config:"@ + g.events@[k].namespace@ + "/"@ + g.events@[k].name@,
            Severity::Warning,
        ),
{
    let e = g.events@[k];
    let x = dns::dns_config(
        e,
        dns::formings(g, g.events@.len() as int) as int,
        lettercase::lowercase(e.kind@),
    );
    let a = match dns::short_of_dns(g, g.workloads@.len() as int) {
        Some(i) => seq![dns::dns_degraded(g.workloads@[i])],
        None => Seq::empty(),
    };
    assert(dns::dns_weaknesses(g) == a + seq![x]);
    assert(seq![x][0] == x);
    reports::lemma_either(a, seq![x], x);
    reports::lemma_told(g, x);
}

/// Nothing is told of cluster DNS that is up, with all its replicas and without
/// an event about its configuration.
pub proof fn dns_that_works_is_left_alone(g: ClusterGraph)
    requires
        dns_is_up(g),
        forall|j: int| 0 <= j < g.workloads@.len() ==> !lacks_dns(#[trigger] g.workloads@[j]),
        forall|j: int|
            0 <= j < g.events@.len() ==> (#[trigger] g.events@[j]).reason@ != "DNSConfigForming"@,
    ensures
        dns::dns_issues(g).len() == 0,
{
    lemma_dns_is_up(g);
    lemma_short_of_dns(g, g.workloads@.len() as int);
    lemma_forming(g, g.events@.len() as int);
}

proof fn lemma_setup_told(g: ClusterGraph, i: int, x: IssueView)
    requires
        0 <= i < g.ingresses@.len(),
        ingress::setup_issue(g, g.ingresses@[i]).contains(x),
    ensures
        told(g, x.id, x.severity),
{
    let n = g.ingresses@.len() as int;
    let e = |i: int| ingress::setup_issue(g, g.ingresses@[i]);
    reports::lemma_gathered(n, e, i, x);
    assert(ingress::setup_issues(g, n) == pick::gather(n, e));
    reports::lemma_told(g, x);
}

/// Is the class one of the cluster's?
pub open spec fn is_class(g: ClusterGraph, class: Seq<char>) -> bool {
    exists|k: int| 0 <= k < g.ingress_classes@.len() && (#[trigger] g.ingress_classes@[k])@ == class
}

proof fn lemma_class(g: ClusterGraph, class: Seq<char>)
    ensures
        text::strs(g.ingress_classes@).contains(class) == is_class(g, class),
{
    let all = text::strs(g.ingress_classes@);
    if all.contains(class) {
        let k = choose|k: int| 0 <= k < all.len() && all[k] == class;
        assert(g.ingress_classes@[k]@ == class);
    }
    if is_class(g, class) {
        let k = choose|k: int|
            0 <= k < g.ingress_classes@.len() && (#[trigger] g.ingress_classes@[k])@ == class;
        assert(all[k] == class);
    }
}

/// Does nothing stand against the class of the ingress? Where the classes are not
/// known, nothing does.
pub open spec fn class_is_fine(g: ClusterGraph, ing: IngressInfo) -> bool {
    g.ingress_classes@.len() == 0 || (match ing.class_name {
        Some(c) => is_class(g, c@),
        None => g.default_ingress_class is Some,
    })
}

/// An ingress of a class that the cluster does not have is told of, as critical;
/// one without a class where there is no default, as a warning.
pub proof fn classes_that_nothing_serves_are_told_of(g: ClusterGraph, i: int)
    requires
        0 <= i < g.ingresses@.len(),
        !class_is_fine(g, g.ingresses@[i]),
    ensures
        g.ingresses@[i].class_name is Some ==> told(
            g,
            ingress_id("ingress-class-missing:"@, g.ingresses@[i]),
            Severity::Critical,
        ),
        g.ingresses@[i].class_name is None ==> told(
            g,
            ingress_id("ingress-class-none:"@, g.ingresses@[i]),
            Severity::Warning,
        ),
{
    let ing = g.ingresses@[i];
    if ing.class_name is Some {
        lemma_class(g, ing.class_name->0@);
    }
    let all = ingress::setup_issue(g, ing);
    assert(all[0] == ingress::class_issue(g, ing)[0]);
    assert(all.contains(all[0]));
    lemma_setup_told(g, i, all[0]);
}

/// An ingress without an address, with a route to a service that exists, and with
/// nothing against its class, is told of, as a warning.
pub proof fn ingresses_without_an_address_are_told_of(g: ClusterGraph, i: int, j: int)
    requires
        0 <= i < g.ingresses@.len(),
        class_is_fine(g, g.ingresses@[i]),
        g.ingresses@[i].addresses@.len() == 0,
        0 <= j < g.ingresses@[i].routes@.len(),
        is_service(g, g.ingresses@[i].namespace@, g.ingresses@[i].routes@[j].service@),
    ensures
        told(g, ingress_id("ingress-no-address:"@, g.ingresses@[i]), Severity::Warning),
{
    let ing = g.ingresses@[i];
    if ing.class_name is Some {
        lemma_class(g, ing.class_name->0@);
    }
    lemma_service(g, ing, j);
    let all = ingress::setup_issue(g, ing);
    assert(!entry::route_broken(g, ing, j));
    assert(ingress::class_issue(g, ing).len() == 0);
    assert(ingress::address_wanted(g, ing));
    assert(all[0] == ingress::no_address(ing));
    assert(all.contains(all[0]));
    lemma_setup_told(g, i, all[0]);
}

/// Is there a secret with this name? Only asked where the names are known.
pub open spec fn is_secret(known: Seq<String>, name: Seq<char>) -> bool {
    exists|k: int| 0 <= k < known.len() && (#[trigger] known[k])@ == name
}

/// A TLS secret that does not exist is told of, as critical, where the names of
/// the secrets are known.
pub proof fn missing_certificates_are_told_of(g: ClusterGraph, i: int, k: int)
    requires
        0 <= i < g.ingresses@.len(),
        0 <= k < g.ingresses@[i].tls_secrets@.len(),
        g.secret_names matches Some(known) && !is_secret(
            known@,
            g.ingresses@[i].namespace@ + "/"@ + g.ingresses@[i].tls_secrets@[k]@,
        ),
    ensures
        told(
            g,
            ingress_id("ingress-tls-missing:"@, g.ingresses@[i]) + "/"@
                + g.ingresses@[i].tls_secrets@[k]@,
            Severity::Critical,
        ),
{
    let ing = g.ingresses@[i];
    let known = text::strs(g.secret_names->0@);
    let name = ing.namespace@ + "/"@ + ing.tls_secrets@[k]@;
    if known.contains(name) {
        let m = choose|m: int| 0 <= m < known.len() && known[m] == name;
        assert(g.secret_names->0@[m]@ == name);
    }
    let x = ingress::tls_missing(ing, ing.tls_secrets@[k]@);
    lemma_tls(known, ing, k, ing.tls_secrets@.len() as int);
    let a = ingress::class_issue(g, ing);
    let b = if ingress::address_wanted(g, ing) {
        seq![ingress::no_address(ing)]
    } else {
        Seq::empty()
    };
    let c = ingress::tls_issues(known, ing, ing.tls_secrets@.len() as int);
    reports::lemma_either(a + b, c, x);
    lemma_setup_told(g, i, x);
}

proof fn lemma_tls(known: Seq<Seq<char>>, ing: IngressInfo, k: int, n: int)
    requires
        0 <= k < n <= ing.tls_secrets@.len(),
        !known.contains(ing.namespace@ + "/"@ + ing.tls_secrets@[k]@),
    ensures
        ingress::tls_issues(known, ing, n).contains(
            ingress::tls_missing(ing, ing.tls_secrets@[k]@),
        ),
    decreases n,
{
    let x = ingress::tls_missing(ing, ing.tls_secrets@[k]@);
    let a = ingress::tls_issues(known, ing, n - 1);
    let b = ingress::tls_issues(known, ing, n);
    if k < n - 1 {
        lemma_tls(known, ing, k, n - 1);
        let m = choose|m: int| 0 <= m < a.len() && a[m] == x;
        assert(b[m] == x);
    } else {
        assert(b[a.len() as int] == x);
    }
}

/// Nothing is told of an ingress whose class is fine, which has an address, and
/// whose secrets exist or are not known.
pub proof fn ingresses_that_are_set_up_are_left_alone(g: ClusterGraph, ing: IngressInfo)
    requires
        class_is_fine(g, ing),
        ing.addresses@.len() > 0,
        g.secret_names matches Some(known) ==> forall|k: int|
            0 <= k < ing.tls_secrets@.len() ==> is_secret(
                known@,
                ing.namespace@ + "/"@ + (#[trigger] ing.tls_secrets@[k])@,
            ),
    ensures
        ingress::setup_issue(g, ing).len() == 0,
{
    if ing.class_name is Some {
        lemma_class(g, ing.class_name->0@);
    }
    if g.secret_names is Some {
        let known = text::strs(g.secret_names->0@);
        assert forall|k: int| 0 <= k < ing.tls_secrets@.len() implies known.contains(
            ing.namespace@ + "/"@ + (#[trigger] ing.tls_secrets@[k])@,
        ) by {
            let name = ing.namespace@ + "/"@ + ing.tls_secrets@[k]@;
            let m = choose|m: int|
                0 <= m < g.secret_names->0@.len() && (#[trigger] g.secret_names->0@[m])@ == name;
            assert(known[m] == name);
        }
        lemma_no_tls(known, ing, ing.tls_secrets@.len() as int);
    }
}

proof fn lemma_no_tls(known: Seq<Seq<char>>, ing: IngressInfo, n: int)
    requires
        0 <= n <= ing.tls_secrets@.len(),
        forall|k: int|
            0 <= k < ing.tls_secrets@.len() ==> known.contains(
                ing.namespace@ + "/"@ + (#[trigger] ing.tls_secrets@[k])@,
            ),
    ensures
        ingress::tls_issues(known, ing, n).len() == 0,
    decreases n,
{
    if n > 0 {
        lemma_no_tls(known, ing, n - 1);
        assert(known.contains(ing.namespace@ + "/"@ + ing.tls_secrets@[n - 1]@));
    }
}

/// Is the event one of a load balancer for the service that could not be made?
pub open spec fn says_that_it_failed(e: EventInfo, s: ServiceInfo) -> bool {
    &&& e.kind@ == "Service"@
    &&& e.namespace@ == s.namespace@
    &&& e.name@ == s.name@
    &&& scan::contains(e.reason@, "LoadBalancerFailed"@) || e.reason@ == "FailedDeployModel"@
        || e.reason@ == "FailedBuildModel"@
}

/// A service of the type `LoadBalancer` is told of: as critical where an event
/// says that its load balancer could not be made, and else, as a warning, where it
/// has no address. Other services are not.
pub proof fn balancers_that_are_not_there_are_told_of(g: ClusterGraph, i: int)
    requires
        0 <= i < g.services@.len(),
    ensures
        ({
            let s = g.services@[i];
            let failed = exists|k: int|
                0 <= k < g.events@.len() && says_that_it_failed(#[trigger] g.events@[k], s);
            &&& s.type_@ == "LoadBalancer"@ && failed ==> told(
                g,
                service_id("lb-failed:"@, s),
                Severity::Critical,
            )
            &&& s.type_@ == "LoadBalancer"@ && !failed && s.external@.len() == 0 ==> told(
                g,
                service_id("lb-pending:"@, s),
                Severity::Warning,
            )
            &&& s.type_@ != "LoadBalancer"@ || (!failed && s.external@.len() > 0)
                ==> balancer::balancer_issue(g, s).len() == 0
        }),
{
    let s = g.services@[i];
    let m = g.events@.len() as int;
    let f = |k: int| balancer::is_failure(g, s, k);
    pick::lemma_first(m, f);
    assert(balancer::failure(g, s, m) == pick::first(m, f));
    let failed = exists|k: int|
        0 <= k < g.events@.len() && says_that_it_failed(#[trigger] g.events@[k], s);
    if failed {
        let k = choose|k: int|
            0 <= k < g.events@.len() && says_that_it_failed(#[trigger] g.events@[k], s);
        assert(f(k));
    }
    if pick::first(m, f) is Some {
        let k = pick::first(m, f)->0;
        assert(f(k));
        assert(says_that_it_failed(g.events@[k], s));
    }
    let all = balancer::balancer_issue(g, s);
    if all.len() > 0 {
        let x = all[0];
        assert(all.contains(x));
        let n = g.services@.len() as int;
        let e = |i: int| balancer::balancer_issue(g, g.services@[i]);
        reports::lemma_gathered(n, e, i, x);
        assert(balancer::balancer_issues(g, n) == pick::gather(n, e));
        reports::lemma_told(g, x);
    }
}

/// Does the pod declare the port under this name?
pub open spec fn declares_name(p: PodInfo, name: Seq<char>) -> bool {
    exists|c: int|
        0 <= c < p.container_ports@.len() && text::opt((#[trigger] p.container_ports@[c]).name)
            == Some(name)
}

/// Does the pod declare the port with this number and protocol?
pub open spec fn declares_number(p: PodInfo, port: int, protocol: Seq<char>) -> bool {
    exists|c: int|
        0 <= c < p.container_ports@.len() && (#[trigger] p.container_ports@[c]).port == port
            && lettercase::same_letters(p.container_ports@[c].protocol@, protocol)
}

proof fn lemma_declares_number(p: PodInfo, port: int, protocol: Seq<char>, n: int)
    requires
        0 <= n <= p.container_ports@.len(),
    ensures
        ports::port_declared(p, port, protocol, n) <==> exists|c: int|
            0 <= c < n && (#[trigger] p.container_ports@[c]).port == port
                && lettercase::same_letters(p.container_ports@[c].protocol@, protocol),
    decreases n,
{
    if n > 0 {
        lemma_declares_number(p, port, protocol, n - 1);
        if p.container_ports@[n - 1].port == port && lettercase::same_letters(
            p.container_ports@[n - 1].protocol@,
            protocol,
        ) {
            assert(0 <= n - 1 < n);
        }
    }
}

proof fn lemma_name_defined(g: ClusterGraph, s: ServiceInfo, name: Seq<char>, n: int)
    requires
        0 <= n <= g.pods@.len(),
    ensures
        ports::name_defined(g, s, name, n) <==> exists|q: int|
            0 <= q < n && #[trigger] belongs(g, s, q) && declares_name(g.pods@[q], name),
    decreases n,
{
    if n > 0 {
        lemma_name_defined(g, s, name, n - 1);
        policies::lemma_belongs(g, s, n - 1);
        let p = g.pods@[n - 1];
        policies::lemma_named(p, name, p.container_ports@.len() as int);
        if network::port_named(p, name, p.container_ports@.len() as int) is Some {
            let c = network::port_named(p, name, p.container_ports@.len() as int)->0;
            assert(text::opt(p.container_ports@[c].name) == Some(name));
            assert(declares_name(p, name));
        }
        if belongs(g, s, n - 1) && declares_name(p, name) {
            assert(belongs(g, s, n - 1));
        }
    }
}

/// Is this the first pod of the service?
pub open spec fn is_sample(g: ClusterGraph, s: ServiceInfo, q: int) -> bool {
    0 <= q < g.pods@.len() && belongs(g, s, q) && forall|r: int|
        0 <= r < q ==> !(#[trigger] belongs(g, s, r))
}

proof fn lemma_sample(g: ClusterGraph, s: ServiceInfo, n: int)
    requires
        0 <= n <= g.pods@.len(),
    ensures
        match ports::sample(g, s, n) {
            Some(q) => q < n && is_sample(g, s, q),
            None => forall|r: int| 0 <= r < n ==> !(#[trigger] belongs(g, s, r)),
        },
    decreases n,
{
    if n > 0 {
        lemma_sample(g, s, n - 1);
        policies::lemma_belongs(g, s, n - 1);
    }
}

proof fn lemma_target_told(g: ClusterGraph, i: int, j: int, q: int, x: IssueView)
    requires
        0 <= i < g.services@.len(),
        0 <= j < g.services@[i].ports_detail@.len(),
        is_sample(g, g.services@[i], q),
        ports::target_issue(
            g,
            g.services@[i],
            g.pods@[q],
            g.services@[i].ports_detail@[j],
        ).contains(x),
    ensures
        told(g, x.id, x.severity),
{
    let s = g.services@[i];
    lemma_sample(g, s, g.pods@.len() as int);
    let r = ports::sample(g, s, g.pods@.len() as int)->0;
    if r < q {
        assert(!belongs(g, s, r));
    } else if q < r {
        assert(!belongs(g, s, q));
    }
    let p = g.pods@[q];
    let m = s.ports_detail@.len() as int;
    let f = |j: int| ports::target_issue(g, s, p, s.ports_detail@[j]);
    reports::lemma_gathered(m, f, j, x);
    assert(ports::targets_issues(g, s, p, m) == pick::gather(m, f));
    let n = g.services@.len() as int;
    let e = |i: int| ports::service_ports(g, g.services@[i]);
    assert(e(i).contains(x));
    reports::lemma_gathered(n, e, i, x);
    assert(ports::service_port_issues(g, n) == pick::gather(n, e));
    reports::lemma_told(g, x);
}

/// The id of an issue about a service port.
pub open spec fn port_id(what: Seq<char>, s: ServiceInfo, sp: ServicePortInfo) -> Seq<char> {
    what + s.namespace@ + "/"@ + s.name@ + ":"@ + numeral::dec(sp.port as int)
}

/// A service port that leads to a name is told of, as critical, exactly where none
/// of the service's pods declares a port under the name.
pub proof fn port_names_that_no_pod_has_are_told_of(g: ClusterGraph, i: int, j: int, q: int)
    requires
        0 <= i < g.services@.len(),
        0 <= j < g.services@[i].ports_detail@.len(),
        is_sample(g, g.services@[i], q),
        numeral::parse_i32(g.services@[i].ports_detail@[j].target@) is None,
    ensures
        ({
            let s = g.services@[i];
            let sp = s.ports_detail@[j];
            if exists|r: int|
                0 <= r < g.pods@.len() && #[trigger] belongs(g, s, r) && declares_name(
                    g.pods@[r],
                    sp.target@,
                ) {
                ports::target_issue(g, s, g.pods@[q], sp).len() == 0
            } else {
                told(g, port_id("svc-port-name:"@, s, sp), Severity::Critical)
            }
        }),
{
    let s = g.services@[i];
    let sp = s.ports_detail@[j];
    lemma_name_defined(g, s, sp.target@, g.pods@.len() as int);
    let all = ports::target_issue(g, s, g.pods@[q], sp);
    if all.len() > 0 {
        assert(all.contains(all[0]));
        lemma_target_told(g, i, j, q, all[0]);
    }
}

/// A service port that leads to a number is told of, as a warning, exactly where
/// the service's first pod declares ports, but not that one.
pub proof fn port_numbers_that_the_pods_lack_are_told_of(g: ClusterGraph, i: int, j: int, q: int)
    requires
        0 <= i < g.services@.len(),
        0 <= j < g.services@[i].ports_detail@.len(),
        is_sample(g, g.services@[i], q),
        numeral::parse_i32(g.services@[i].ports_detail@[j].target@) is Some,
    ensures
        ({
            let s = g.services@[i];
            let sp = s.ports_detail@[j];
            let p = g.pods@[q];
            if p.container_ports@.len() == 0 || declares_number(
                p,
                numeral::parse_i32(sp.target@)->0,
                sp.protocol@,
            ) {
                ports::target_issue(g, s, p, sp).len() == 0
            } else {
                told(g, port_id("svc-port-mismatch:"@, s, sp), Severity::Warning)
            }
        }),
{
    let s = g.services@[i];
    let sp = s.ports_detail@[j];
    let p = g.pods@[q];
    lemma_declares_number(
        p,
        numeral::parse_i32(sp.target@)->0,
        sp.protocol@,
        p.container_ports@.len() as int,
    );
    let all = ports::target_issue(g, s, p, sp);
    if all.len() > 0 {
        assert(all.contains(all[0]));
        lemma_target_told(g, i, j, q, all[0]);
    }
}

} // verus!
