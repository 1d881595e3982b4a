//! What a graph holds of what the cluster's API listed.

use crate::collect::events;
use crate::collect::graph;
use crate::collect::ingresses;
use crate::collect::nodes;
use crate::collect::parts;
use crate::collect::pods;
use crate::collect::raw::{
    PortRef, RawBackend, RawCondition, RawContainer, RawEvent, RawIngress, RawNetworkPolicy,
    RawClass, RawNode, RawOwner, RawPeer, RawPod, RawProbe, RawReplicaSet, RawService, RawSlice,
    RawSnapshot, RawStatus,
};
use crate::collect::policies;
use crate::collect::services;
use crate::labels;
use crate::laws::reports;
use crate::model::{
    ClusterGraph, ContainerStatusInfo, IngressInfo, NetworkPolicyInfo, NodeInfo, PodInfo,
    ProbeInfo, ServiceInfo, WorkloadInfo,
};
use crate::numeral;
use crate::order;
use crate::pick;
use crate::scan;
use crate::text;
use vstd::prelude::*;

verus! {

/// Is this the owner that controls an object, the first that says so?
pub open spec fn controls(owners: Seq<RawOwner>, k: int) -> bool {
    0 <= k < owners.len() && owners[k].controller == Some(true) && forall|j: int|
        0 <= j < k ==> (#[trigger] owners[j]).controller != Some(true)
}

proof fn lemma_controller(owners: Seq<RawOwner>, n: int)
    requires
        0 <= n <= owners.len(),
    ensures
        match parts::controller_of(owners, n) {
            Some(k) => k < n && controls(owners, k),
            None => forall|j: int| 0 <= j < n ==> (#[trigger] owners[j]).controller != Some(true),
        },
    decreases n,
{
    if n > 0 {
        lemma_controller(owners, n - 1);
    }
}

proof fn lemma_one_controls(owners: Seq<RawOwner>, k: int)
    requires
        controls(owners, k),
    ensures
        parts::controller_of(owners, owners.len() as int) == Some(k),
{
    lemma_controller(owners, owners.len() as int);
    let m = parts::controller_of(owners, owners.len() as int);
    assert(owners[k].controller == Some(true));
    if m->0 < k {
        assert(owners[m->0].controller != Some(true));
    } else if k < m->0 {
        assert(owners[k].controller != Some(true));
    }
}

/// Is the text of an optional field this one? A field that is missing is empty.
pub open spec fn reads(o: Option<String>, s: Seq<char>) -> bool {
    match o {
        Some(t) => t@ == s,
        None => s.len() == 0,
    }
}

proof fn lemma_reads(o: Option<String>, s: Seq<char>)
    requires
        reads(o, s),
    ensures
        text::or_empty(o) == s,
{
    assert(text::or_empty(o) =~= s);
}

/// The id of a workload.
pub open spec fn id_of(kind: Seq<char>, ns: Seq<char>, name: Seq<char>) -> Seq<char> {
    kind + "/"@ + ns + "/"@ + name
}

/// A pod that a stateful set controls belongs to it, under the id that the graph
/// gives the stateful set.
pub proof fn pods_belong_to_their_stateful_set(
    raw: RawSnapshot,
    p: RawPod,
    x: PodInfo,
    ws: Seq<WorkloadInfo>,
    k: int,
    ns: Seq<char>,
)
    requires
        nodes::workloads_from(raw, ws),
        pods::pod_from(raw, p, x),
        reads(p.namespace, ns),
        controls(p.owners@, k),
        p.owners@[k].kind@ == "StatefulSet"@,
    ensures
        x.workload matches Some(w) && w@ == id_of(
            "StatefulSet"@,
            ns,
            p.owners@[k].name@,
        ),
        forall|m: int|
            0 <= m < raw.statefulsets@.len() && reads(
                (#[trigger] raw.statefulsets@[m]).namespace,
                ns,
            ) && reads(raw.statefulsets@[m].name, p.owners@[k].name@)
                ==> ws[raw.deployments@.len() + m].id@ == x.workload->0@,
{
    lemma_one_controls(p.owners@, k);
    lemma_reads(p.namespace, ns);
    lemma_kinds();
    assert(pods::pod_from(raw, p, x));
    assert forall|m: int|
        0 <= m < raw.statefulsets@.len() && reads(
            (#[trigger] raw.statefulsets@[m]).namespace,
            ns,
        ) && reads(raw.statefulsets@[m].name, p.owners@[k].name@) implies ws[
    raw.deployments@.len() + m].id@ == x.workload->0@ by {
        lemma_reads(raw.statefulsets@[m].namespace, ns);
        lemma_reads(raw.statefulsets@[m].name, p.owners@[k].name@);
        assert(nodes::workload_at(
            raw,
            raw.deployments@.len() + m,
            ws[raw.deployments@.len() + m],
        ));
    }
}

/// A pod that a daemon set controls belongs to it, under the id that the graph
/// gives the daemon set.
pub proof fn pods_belong_to_their_daemon_set(
    raw: RawSnapshot,
    p: RawPod,
    x: PodInfo,
    ws: Seq<WorkloadInfo>,
    k: int,
    ns: Seq<char>,
)
    requires
        nodes::workloads_from(raw, ws),
        pods::pod_from(raw, p, x),
        reads(p.namespace, ns),
        controls(p.owners@, k),
        p.owners@[k].kind@ == "DaemonSet"@,
    ensures
        x.workload matches Some(w) && w@ == id_of(
            "DaemonSet"@,
            ns,
            p.owners@[k].name@,
        ),
        forall|m: int|
            0 <= m < raw.daemonsets@.len() && reads((#[trigger] raw.daemonsets@[m]).namespace, ns)
                && reads(raw.daemonsets@[m].name, p.owners@[k].name@) ==> ws[
            raw.deployments@.len() + raw.statefulsets@.len() + m].id@ == x.workload->0@,
{
    lemma_one_controls(p.owners@, k);
    lemma_reads(p.namespace, ns);
    lemma_kinds();
    assert(pods::pod_from(raw, p, x));
    assert forall|m: int|
        0 <= m < raw.daemonsets@.len() && reads((#[trigger] raw.daemonsets@[m]).namespace, ns)
            && reads(raw.daemonsets@[m].name, p.owners@[k].name@) implies ws[
    raw.deployments@.len() + raw.statefulsets@.len() + m].id@ == x.workload->0@ by {
        lemma_reads(raw.daemonsets@[m].namespace, ns);
        lemma_reads(raw.daemonsets@[m].name, p.owners@[k].name@);
        assert(nodes::workload_at(
            raw,
            raw.deployments@.len() + raw.statefulsets@.len() + m,
            ws[raw.deployments@.len() + raw.statefulsets@.len() + m],
        ));
    }
}

proof fn lemma_kinds()
    ensures
        "StatefulSet"@ != "ReplicaSet"@,
        "DaemonSet"@ != "ReplicaSet"@,
        "Deployment"@ != "ReplicaSet"@,
{
    reveal_strlit("StatefulSet");
    reveal_strlit("DaemonSet");
    reveal_strlit("ReplicaSet");
    reveal_strlit("Deployment");
    assert("Deployment"@[0] != "ReplicaSet"@[0]);
}

/// Is this a replica set with this name that a deployment controls?
pub open spec fn is_of_deployment(
    rs: RawReplicaSet,
    ns: Seq<char>,
    name: Seq<char>,
    deployment: Seq<char>,
) -> bool {
    reads(rs.namespace, ns) && reads(rs.name, name) && exists|k: int| #[trigger]
        controls(rs.owners@, k) && rs.owners@[k].kind@ == "Deployment"@ && rs.owners@[k].name@
            == deployment
}

proof fn lemma_leads(rs: RawReplicaSet, ns: Seq<char>, name: Seq<char>)
    ensures
        pods::leads(rs, ns, name) <==> exists|d: Seq<char>| #[trigger]
            is_of_deployment(rs, ns, name, d),
        forall|d: Seq<char>| #[trigger]
            is_of_deployment(rs, ns, name, d) ==> pods::leads(rs, ns, name)
                && rs.owners@[parts::controller_of(rs.owners@, rs.owners@.len() as int)->0].name@
                == d,
{
    let n = rs.owners@.len() as int;
    lemma_controller(rs.owners@, n);
    if pods::leads(rs, ns, name) {
        let k = parts::controller_of(rs.owners@, n)->0;
        assert(controls(rs.owners@, k));
        assert(is_of_deployment(rs, ns, name, rs.owners@[k].name@));
    }
    assert forall|d: Seq<char>| #[trigger] is_of_deployment(rs, ns, name, d) implies pods::leads(
        rs,
        ns,
        name,
    ) && rs.owners@[parts::controller_of(rs.owners@, n)->0].name@ == d by {
        lemma_reads(rs.namespace, ns);
        lemma_reads(rs.name, name);
        let k = choose|k: int| #[trigger]
            controls(rs.owners@, k) && rs.owners@[k].kind@ == "Deployment"@ && rs.owners@[k].name@
                == d;
        lemma_one_controls(rs.owners@, k);
    }
}

proof fn lemma_deployment(
    rss: Seq<RawReplicaSet>,
    ns: Seq<char>,
    name: Seq<char>,
    d: Seq<char>,
    n: int,
)
    requires
        0 <= n <= rss.len(),
        forall|m: int, e: Seq<char>|
            0 <= m < n && #[trigger] is_of_deployment(rss[m], ns, name, e) ==> e == d,
    ensures
        (exists|m: int| 0 <= m < n && #[trigger] is_of_deployment(rss[m], ns, name, d))
            ==> pods::deployment_of(rss, ns, name, n) == Some(id_of("Deployment"@, ns, d)),
        (forall|m: int| 0 <= m < n ==> !(#[trigger] is_of_deployment(rss[m], ns, name, d)))
            ==> pods::deployment_of(rss, ns, name, n) is None,
    decreases n,
{
    if n > 0 {
        lemma_deployment(rss, ns, name, d, n - 1);
        lemma_leads(rss[n - 1], ns, name);
        if pods::leads(rss[n - 1], ns, name) {
            let e = choose|e: Seq<char>| #[trigger] is_of_deployment(rss[n - 1], ns, name, e);
            assert(e == d);
            assert(is_of_deployment(rss[n - 1], ns, name, d));
        } else {
            assert(!is_of_deployment(rss[n - 1], ns, name, d));
        }
    }
}

/// A pod that a replica set controls belongs to the deployment that controls the
/// replica set, under the id that the graph gives the deployment, where the
/// replica set has been listed.
pub proof fn pods_belong_to_their_deployment(
    raw: RawSnapshot,
    p: RawPod,
    x: PodInfo,
    ws: Seq<WorkloadInfo>,
    k: int,
    r: int,
    ns: Seq<char>,
    d: Seq<char>,
)
    requires
        nodes::workloads_from(raw, ws),
        pods::pod_from(raw, p, x),
        reads(p.namespace, ns),
        controls(p.owners@, k),
        p.owners@[k].kind@ == "ReplicaSet"@,
        0 <= r < raw.replicasets@.len(),
        is_of_deployment(raw.replicasets@[r], ns, p.owners@[k].name@, d),
        forall|m: int, e: Seq<char>|
            0 <= m < raw.replicasets@.len() && #[trigger] is_of_deployment(
                raw.replicasets@[m],
                ns,
                p.owners@[k].name@,
                e,
            ) ==> e == d,
    ensures
        x.workload matches Some(w) && w@ == id_of("Deployment"@, ns, d),
        forall|m: int|
            0 <= m < raw.deployments@.len() && reads((#[trigger] raw.deployments@[m]).namespace, ns)
                && reads(raw.deployments@[m].name, d) ==> ws[m].id@
                == x.workload->0@,
{
    lemma_one_controls(p.owners@, k);
    lemma_reads(p.namespace, ns);
    lemma_deployment(raw.replicasets@, ns, p.owners@[k].name@, d, raw.replicasets@.len() as int);
    assert(pods::pod_from(raw, p, x));
    assert forall|m: int|
        0 <= m < raw.deployments@.len() && reads((#[trigger] raw.deployments@[m]).namespace, ns)
            && reads(raw.deployments@[m].name, d) implies ws[m].id@
        == x.workload->0@ by {
        lemma_reads(raw.deployments@[m].namespace, ns);
        lemma_reads(raw.deployments@[m].name, d);
        assert(nodes::workload_at(raw, m, ws[m]));
    }
}

/// A pod that nothing controls, or something of another kind, belongs to no
/// workload.
pub proof fn other_pods_belong_to_no_workload(
    raw: RawSnapshot,
    p: RawPod,
    x: PodInfo,
)
    requires
        pods::pod_from(raw, p, x),
        forall|k: int| #[trigger]
            controls(p.owners@, k) ==> p.owners@[k].kind@ != "ReplicaSet"@
                && p.owners@[k].kind@ != "StatefulSet"@
                && p.owners@[k].kind@ != "DaemonSet"@,
    ensures
        x.workload is None,
{
    lemma_controller(p.owners@, p.owners@.len() as int);
    assert(pods::pod_from(raw, p, x));
}

/// Does a condition of this type hold?
pub open spec fn is_true(cs: Seq<RawCondition>, t: Seq<char>) -> bool {
    exists|i: int| 0 <= i < cs.len() && (#[trigger] cs[i]).type_@ == t && cs[i].status@ == "True"@
}

proof fn lemma_holds(cs: Seq<RawCondition>, t: Seq<char>, n: int)
    requires
        0 <= n <= cs.len(),
    ensures
        parts::holds(cs, t, n) <==> exists|i: int|
            0 <= i < n && (#[trigger] cs[i]).type_@ == t && cs[i].status@ == "True"@,
    decreases n,
{
    if n > 0 {
        lemma_holds(cs, t, n - 1);
        if cs[n - 1].type_@ == t && cs[n - 1].status@ == "True"@ {
            assert(0 <= n - 1 < n);
        }
    }
}

/// A pod keeps its namespace, name, labels, node and address; it is ready exactly
/// where its condition `Ready` holds.
pub proof fn pods_keep_what_was_listed(
    raw: RawSnapshot,
    p: RawPod,
    x: PodInfo,
)
    requires
        pods::pod_from(raw, p, x),
    ensures
        reads(p.namespace, x.namespace@),
        reads(p.name, x.name@),
        x.labels@ == p.labels@,
        x.node == p.node,
        x.pod_ip == p.pod_ip,
        x.ready <==> is_true(p.conditions@, "Ready"@),
        p.phase matches Some(f) ==> x.phase@ == f@,
        p.phase is None ==> x.phase@ == "Unknown"@,
        x.containers@.len() == p.containers@.len(),
{
    assert(pods::pod_from(raw, p, x));
    lemma_holds(p.conditions@, "Ready"@, p.conditions@.len() as int);
}

/// Is this the first status of the container?
pub open spec fn speaks_of(statuses: Seq<RawStatus>, name: Seq<char>, k: int) -> bool {
    0 <= k < statuses.len() && statuses[k].name@ == name && forall|j: int|
        0 <= j < k ==> (#[trigger] statuses[j]).name@ != name
}

proof fn lemma_first_status(statuses: Seq<RawStatus>, name: Seq<char>, k: int, n: int, f: spec_fn(int) -> bool)
    requires
        0 <= k < n <= statuses.len(),
        speaks_of(statuses, name, k),
        forall|i: int| #[trigger] f(i) == (statuses[i].name@ == name),
    ensures
        pick::first(n, f) == Some(k),
    decreases n,
{
    pick::lemma_first(n, f);
    assert(f(k));
    let m = pick::first(n, f)->0;
    if m < k {
        assert(f(m));
        assert(statuses[m].name@ != name);
    }
}

proof fn lemma_status(statuses: Seq<RawStatus>, c: RawContainer, k: int)
    requires
        speaks_of(statuses, c.name@, k),
    ensures
        pods::status_of(statuses, c.name@) == Some(statuses[k]),
{
    let f = |i: int| statuses[i].name@ == c.name@;
    lemma_first_status(statuses, c.name@, k, statuses.len() as int, f);
    assert(pods::status_of(statuses, c.name@) == Some(statuses[k]));
}

/// A container is what its status says: running without a reason, or waiting or
/// terminated with the reason that is given, with the restarts and the end of its
/// last run.
pub proof fn containers_are_what_their_status_says(
    raw: RawSnapshot,
    p: RawPod,
    x: PodInfo,
    c: int,
    k: int,
)
    requires
        pods::pod_from(raw, p, x),
        0 <= c < p.containers@.len(),
        speaks_of(p.statuses@, p.containers@[c].name@, k),
    ensures
        ({
            let st = p.statuses@[k];
            let x = x.containers@[c];
            &&& x.name@ == p.containers@[c].name@
            &&& x.ready == st.ready
            &&& x.restart_count == st.restart_count
            &&& st.state matches Some(s) ==> {
                &&& s.running ==> x.state@ == "running"@ && x.reason is None
                &&& (!s.running && s.waiting is Some) ==> x.state@ == "waiting"@ && x.reason
                    == s.waiting->0.reason && x.message == s.waiting->0.message
                &&& (!s.running && s.waiting is None && s.terminated is Some) ==> x.state@
                    == "terminated"@ && x.reason == s.terminated->0.reason && x.message
                    == s.terminated->0.message
            }
            &&& st.last matches Some(e) ==> x.last_reason == e.reason && x.last_exit_code == Some(
                e.exit_code,
            )
            &&& st.last is None ==> x.last_reason is None && x.last_exit_code is None
        }),
{
    assert(pods::pod_from(raw, p, x));
    lemma_status(p.statuses@, p.containers@[c], k);
    assert(pods::container_from(p.statuses@, p.containers@[c], x.containers@[c]));
}

/// The restarts of a pod are those of its containers together.
pub open spec fn sum_of(cs: Seq<ContainerStatusInfo>, n: int) -> int
    decreases n,
{
    if n <= 0 {
        0
    } else {
        sum_of(cs, n - 1) + cs[n - 1].restart_count
    }
}

proof fn lemma_restarts(cs: Seq<ContainerStatusInfo>, n: int)
    requires
        0 <= n <= cs.len(),
        forall|j: int| 0 <= j < cs.len() ==> (#[trigger] cs[j]).restart_count >= 0,
        sum_of(cs, n) <= i32::MAX,
    ensures
        pods::restarts(cs, n) == sum_of(cs, n),
        sum_of(cs, n) >= 0,
    decreases n,
{
    if n > 0 {
        assert(cs[n - 1].restart_count >= 0);
        lemma_restarts(cs, n - 1);
    }
}

/// A pod has been restarted as often as its containers together, where the number
/// fits.
pub proof fn restarts_add_up(raw: RawSnapshot, p: RawPod, x: PodInfo)
    requires
        pods::pod_from(raw, p, x),
        forall|j: int|
            0 <= j < x.containers@.len() ==> (#[trigger] x.containers@[j]).restart_count
                >= 0,
        sum_of(x.containers@, x.containers@.len() as int) <= i32::MAX,
    ensures
        x.restarts == sum_of(
            x.containers@,
            x.containers@.len() as int,
        ),
{
    assert(pods::pod_from(raw, p, x));
    lemma_restarts(x.containers@, x.containers@.len() as int);
}

/// The status of a pod is that it is being deleted, or the reason that is given
/// for the pod.
pub proof fn pods_show_their_status(raw: RawSnapshot, p: RawPod, x: PodInfo)
    requires
        pods::pod_from(raw, p, x),
    ensures
        p.deleting ==> x.status@ == "Terminating"@,
        !p.deleting && p.reason is Some ==> x.status@
            == p.reason->0@,
        !p.deleting && p.reason is None && p.init_statuses@.len()
            == 0 && (forall|c: int|
            0 <= c < x.containers@.len() ==> (#[trigger] x.containers@[c]).state@
                == "running"@ || x.containers@[c].reason is None) ==> x.status@
            == x.phase@,
{
    let q = x;
    assert(pods::pod_from(raw, p, q));
    let f = |i: int| pods::explains(q.containers@[i]);
    pick::lemma_first(q.containers@.len() as int, f);
    if forall|c: int|
        0 <= c < q.containers@.len() ==> (#[trigger] q.containers@[c]).state@ == "running"@
            || q.containers@[c].reason is None {
        match pick::first(q.containers@.len() as int, f) {
            Some(c) => {
                assert(f(c));
                assert(q.containers@[c].state@ == "running"@ || q.containers@[c].reason is None);
            },
            None => {},
        }
    }
}

/// Does the service select the pod? It must be in its namespace, not at its end,
/// and carry every label of the selector, of which there is one.
pub open spec fn is_selected(s: RawService, ns: Seq<char>, p: PodInfo) -> bool {
    &&& p.namespace@ == ns
    &&& p.phase@ != "Succeeded"@
    &&& p.phase@ != "Failed"@
    &&& s.selector@.len() > 0
    &&& forall|i: int|
        0 <= i < s.selector@.len() ==> labels::lookup(p.labels@, (#[trigger] s.selector@[i]).0)
            == Some(s.selector@[i].1)
}

proof fn lemma_pods_matched(ps: Seq<PodInfo>, s: RawService, ns: Seq<char>, name: Seq<char>, n: int)
    requires
        0 <= n <= ps.len(),
    ensures
        services::pods_matched(ps, ns, s.selector@, n).contains(name) <==> exists|k: int|
            0 <= k < n && is_selected(s, ns, #[trigger] ps[k]) && ps[k].name@ == name,
    decreases n,
{
    if n > 0 {
        lemma_pods_matched(ps, s, ns, name, n - 1);
        let a = services::pods_matched(ps, ns, s.selector@, n - 1);
        let b = services::pods_matched(ps, ns, s.selector@, n);
        let p = ps[n - 1];
        if a.contains(name) {
            let k = choose|k: int| 0 <= k < a.len() && a[k] == name;
            assert(b[k] == name);
        }
        if is_selected(s, ns, p) && p.name@ == name {
            assert(b[a.len() as int] == name);
            assert(0 <= n - 1 < n);
        }
        if b.contains(name) {
            let k = choose|k: int| 0 <= k < b.len() && b[k] == name;
            if k < a.len() {
                assert(a[k] == name);
            } else {
                assert(is_selected(s, ns, p) && p.name@ == name);
            }
        }
    }
}

/// The pods of a service are the pods that it selects.
pub proof fn services_have_the_pods_that_they_select(
    raw: RawSnapshot,
    pods: Seq<PodInfo>,
    ws: Seq<WorkloadInfo>,
    p: RawService,
    x: ServiceInfo,
    ns: Seq<char>,
    name: Seq<char>,
)
    requires
        services::service_from(raw, pods, ws, p, x),
        reads(p.namespace, ns),
    ensures
        x.namespace@ == ns,
        reads(p.name, x.name@),
        (exists|k: int| 0 <= k < x.pods@.len() && (#[trigger] x.pods@[k])@ == name)
            <==> exists|k: int|
            0 <= k < pods.len() && is_selected(p, ns, #[trigger] pods[k]) && pods[k].name@
                == name,
{
    let s = p;
    lemma_reads(s.namespace, ns);
    assert(services::service_from(raw, pods, ws, s, x));
    lemma_pods_matched(pods, s, ns, name, pods.len() as int);
    let all = text::strs(x.pods@);
    if exists|k: int| 0 <= k < x.pods@.len() && (#[trigger] x.pods@[k])@ == name {
        let k = choose|k: int| 0 <= k < x.pods@.len() && (#[trigger] x.pods@[k])@ == name;
        assert(all[k] == name);
    }
    if all.contains(name) {
        let k = choose|k: int| 0 <= k < all.len() && all[k] == name;
        assert(x.pods@[k]@ == name);
    }
}

/// Is this a slice of the service's endpoints?
pub open spec fn is_slice_of(s: RawSlice, ns: Seq<char>, svc: Seq<char>) -> bool {
    reads(s.namespace, ns) && labels::lookup(s.labels@, "kubernetes.io/service-name"@) == Some(svc)
}

proof fn lemma_in_slice(s: RawSlice, n: int)
    requires
        0 <= n <= s.endpoints@.len(),
    ensures
        services::endpoints_in(s, true, n) + services::endpoints_in(s, false, n) == n,
        services::endpoints_in(s, true, n) > 0 <==> exists|j: int|
            0 <= j < n && #[trigger] s.endpoints@[j] != Some(false),
        services::endpoints_in(s, false, n) > 0 <==> exists|j: int|
            0 <= j < n && #[trigger] s.endpoints@[j] == Some(false),
    decreases n,
{
    if n > 0 {
        lemma_in_slice(s, n - 1);
        assert(s.endpoints@[n - 1] == Some(false) || s.endpoints@[n - 1] != Some(false));
    }
}

proof fn lemma_endpoints(slices: Seq<RawSlice>, ns: Seq<char>, svc: Seq<char>, n: int)
    requires
        0 <= n <= slices.len(),
    ensures
        services::endpoints(slices, ns, svc, true, n) > 0 <==> exists|k: int, j: int|
            0 <= k < n && is_slice_of(#[trigger] slices[k], ns, svc) && 0 <= j
                < slices[k].endpoints@.len() && #[trigger] slices[k].endpoints@[j] != Some(false),
        services::endpoints(slices, ns, svc, false, n) > 0 <==> exists|k: int, j: int|
            0 <= k < n && is_slice_of(#[trigger] slices[k], ns, svc) && 0 <= j
                < slices[k].endpoints@.len() && #[trigger] slices[k].endpoints@[j] == Some(false),
    decreases n,
{
    if n > 0 {
        lemma_endpoints(slices, ns, svc, n - 1);
        let s = slices[n - 1];
        lemma_in_slice(s, s.endpoints@.len() as int);
        if is_slice_of(s, ns, svc) {
            lemma_reads(s.namespace, ns);
        }
        assert(services::serves(s, ns, svc) == is_slice_of(s, ns, svc));
    }
}

/// A service has ready endpoints exactly where a slice of its endpoints has one
/// that is not said to be unready, and unready ones exactly where a slice has one
/// that is.
pub proof fn endpoints_are_ready_unless_said_otherwise(
    raw: RawSnapshot,
    pods: Seq<PodInfo>,
    ws: Seq<WorkloadInfo>,
    p: RawService,
    x: ServiceInfo,
    ns: Seq<char>,
    svc: Seq<char>,
)
    requires
        services::service_from(raw, pods, ws, p, x),
        reads(p.namespace, ns),
        reads(p.name, svc),
    ensures
        x.ready_endpoints > 0 <==> exists|k: int, j: int|
            0 <= k < raw.slices@.len() && is_slice_of(#[trigger] raw.slices@[k], ns, svc) && 0 <= j
                < raw.slices@[k].endpoints@.len() && #[trigger] raw.slices@[k].endpoints@[j]
                != Some(false),
        x.not_ready_endpoints > 0 <==> exists|k: int, j: int|
            0 <= k < raw.slices@.len() && is_slice_of(#[trigger] raw.slices@[k], ns, svc) && 0 <= j
                < raw.slices@[k].endpoints@.len() && #[trigger] raw.slices@[k].endpoints@[j]
                == Some(false),
{
    let s = p;
    lemma_reads(s.namespace, ns);
    lemma_reads(s.name, svc);
    assert(services::service_from(raw, pods, ws, s, x));
    lemma_endpoints(raw.slices@, ns, svc, raw.slices@.len() as int);
}

/// Every endpoint of a service counts once, as ready or as unready.
pub proof fn endpoints_count_once(
    raw: RawSnapshot,
    pods: Seq<PodInfo>,
    ws: Seq<WorkloadInfo>,
    p: RawService,
    x: ServiceInfo,
    ns: Seq<char>,
    svc: Seq<char>,
    k: int,
)
    requires
        services::service_from(raw, pods, ws, p, x),
        reads(p.namespace, ns),
        reads(p.name, svc),
        0 <= k < raw.slices@.len(),
        is_slice_of(raw.slices@[k], ns, svc),
        forall|m: int|
            0 <= m < raw.slices@.len() && is_slice_of(#[trigger] raw.slices@[m], ns, svc) ==> m
                == k,
        raw.slices@[k].endpoints@.len() <= u32::MAX,
    ensures
        x.ready_endpoints + x.not_ready_endpoints
            == raw.slices@[k].endpoints@.len(),
{
    let s = p;
    lemma_reads(s.namespace, ns);
    lemma_reads(s.name, svc);
    assert(services::service_from(raw, pods, ws, s, x));
    lemma_reads(raw.slices@[k].namespace, ns);
    lemma_in_slice(raw.slices@[k], raw.slices@[k].endpoints@.len() as int);
    lemma_one_slice(raw.slices@, ns, svc, k, raw.slices@.len() as int);
}

proof fn lemma_one_slice(slices: Seq<RawSlice>, ns: Seq<char>, svc: Seq<char>, k: int, n: int)
    requires
        0 <= k < slices.len(),
        0 <= n <= slices.len(),
        is_slice_of(slices[k], ns, svc),
        forall|m: int|
            0 <= m < slices.len() && is_slice_of(#[trigger] slices[m], ns, svc) ==> m == k,
    ensures
        services::endpoints(slices, ns, svc, true, n) == if k < n {
            services::endpoints_in(slices[k], true, slices[k].endpoints@.len() as int)
        } else {
            0
        },
        services::endpoints(slices, ns, svc, false, n) == if k < n {
            services::endpoints_in(slices[k], false, slices[k].endpoints@.len() as int)
        } else {
            0
        },
    decreases n,
{
    if n > 0 {
        lemma_one_slice(slices, ns, svc, k, n - 1);
        let s = slices[n - 1];
        if is_slice_of(s, ns, svc) {
            lemma_reads(s.namespace, ns);
        }
        assert(services::serves(s, ns, svc) == is_slice_of(s, ns, svc));
    }
}

/// A service port leads where it says, or to its own number; its protocol is TCP
/// unless it says otherwise; a service is a `ClusterIP` unless it says otherwise.
pub proof fn services_have_the_usual_defaults(
    raw: RawSnapshot,
    pods: Seq<PodInfo>,
    ws: Seq<WorkloadInfo>,
    p: RawService,
    x: ServiceInfo,
    j: int,
)
    requires
        services::service_from(raw, pods, ws, p, x),
        0 <= j < p.ports@.len(),
    ensures
        x.ports_detail@.len() == p.ports@.len(),
        ({
            let p = p.ports@[j];
            let x = x.ports_detail@[j];
            &&& x.port == p.port
            &&& p.target is None ==> x.target@ == numeral::dec(p.port as int)
            &&& p.target matches Some(PortRef::Number(n)) ==> x.target@ == numeral::dec(n as int)
            &&& p.target matches Some(PortRef::Name(n)) ==> x.target@ == n@
            &&& p.protocol is None ==> x.protocol@ == "TCP"@
            &&& p.protocol matches Some(t) ==> x.protocol@ == t@
        }),
        p.type_ is None ==> x.type_@ == "ClusterIP"@,
        p.type_ matches Some(t) ==> x.type_@ == t@,
        x.selector@ == p.selector@,
{
    let s = p;
    assert(services::service_from(raw, pods, ws, s, x));
    assert(services::port_from(s.ports@[j], x.ports_detail@[j]));
}

/// A node is ready, and without a network, exactly where the conditions say so; it
/// is cordoned exactly where it says so.
pub proof fn nodes_are_what_their_conditions_say(
    p: RawNode,
    x: NodeInfo,
    t: Seq<char>,
)
    requires
        nodes::node_from(p, x),
    ensures
        reads(p.name, x.name@),
        x.ready <==> is_true(p.conditions@, "Ready"@),
        x.network_unavailable <==> is_true(
            p.conditions@,
            "NetworkUnavailable"@,
        ),
        x.unschedulable <==> p.unschedulable == Some(true),
        (exists|k: int| 0 <= k < x.pressure@.len() && (#[trigger] x.pressure@[k])@ == t)
            <==> is_true(p.conditions@, t) && scan::ends_with(t, "Pressure"@),
{
    let n = p;
    let m = n.conditions@.len() as int;
    assert(nodes::node_from(n, x));
    lemma_holds(n.conditions@, "Ready"@, m);
    lemma_holds(n.conditions@, "NetworkUnavailable"@, m);
    lemma_pressures(n.conditions@, t, m);
    let all = text::strs(x.pressure@);
    if exists|k: int| 0 <= k < x.pressure@.len() && (#[trigger] x.pressure@[k])@ == t {
        let k = choose|k: int| 0 <= k < x.pressure@.len() && (#[trigger] x.pressure@[k])@ == t;
        assert(all[k] == t);
    }
    if all.contains(t) {
        let k = choose|k: int| 0 <= k < all.len() && all[k] == t;
        assert(x.pressure@[k]@ == t);
    }
}

proof fn lemma_pressures(cs: Seq<RawCondition>, t: Seq<char>, n: int)
    requires
        0 <= n <= cs.len(),
    ensures
        nodes::pressures(cs, n).contains(t) <==> (exists|i: int|
            0 <= i < n && (#[trigger] cs[i]).type_@ == t && cs[i].status@ == "True"@)
            && scan::ends_with(t, "Pressure"@),
    decreases n,
{
    if n > 0 {
        lemma_pressures(cs, t, n - 1);
        let a = nodes::pressures(cs, n - 1);
        let b = nodes::pressures(cs, n);
        let c = cs[n - 1];
        reveal_strlit("Ready");
        reveal_strlit("Pressure");
        if a.contains(t) {
            let k = choose|k: int| 0 <= k < a.len() && a[k] == t;
            assert(b[k] == t);
        }
        if c.type_@ == t && c.status@ == "True"@ && scan::ends_with(t, "Pressure"@) {
            assert(t.len() >= 8);
            assert(b[a.len() as int] == t);
            assert(0 <= n - 1 < n);
        }
        if b.contains(t) {
            let k = choose|k: int| 0 <= k < b.len() && b[k] == t;
            if k < a.len() {
                assert(a[k] == t);
            }
        }
    }
}

/// A workload keeps its numbers. A deployment or a stateful set without a number
/// of replicas wants one.
pub proof fn workloads_keep_their_numbers(
    raw: RawSnapshot,
    ws: Seq<WorkloadInfo>,
    k: int,
)
    requires
        nodes::workloads_from(raw, ws),
        0 <= k < raw.deployments@.len(),
    ensures
        ws.len() == raw.deployments@.len() + raw.statefulsets@.len()
            + raw.daemonsets@.len(),
        ws[k].kind@ == "Deployment"@,
        ws[k].id@ == id_of(
            "Deployment"@,
            ws[k].namespace@,
            ws[k].name@,
        ),
        reads(raw.deployments@[k].namespace, ws[k].namespace@),
        reads(raw.deployments@[k].name, ws[k].name@),
        raw.deployments@[k].desired matches Some(n) ==> ws[k].desired == n,
        raw.deployments@[k].desired is None ==> ws[k].desired == 1,
        raw.deployments@[k].ready matches Some(n) ==> ws[k].ready == n,
        raw.deployments@[k].ready is None ==> ws[k].ready == 0,
        raw.deployments@[k].available matches Some(n) ==> ws[k].available == n,
        ws[k].pod_labels@ == raw.deployments@[k].labels@,
        ws[k].containers@.len() == raw.deployments@[k].containers@.len(),
{
    assert(nodes::workload_at(raw, k, ws[k]));
}

/// A stateful set is a workload, with the same defaults as a deployment.
pub proof fn stateful_sets_are_workloads(
    raw: RawSnapshot,
    ws: Seq<WorkloadInfo>,
    k: int,
)
    requires
        nodes::workloads_from(raw, ws),
        0 <= k < raw.statefulsets@.len(),
    ensures
        ({
            let w = ws[raw.deployments@.len() + k];
            let x = raw.statefulsets@[k];
            &&& w.kind@ == "StatefulSet"@
            &&& w.id@ == id_of("StatefulSet"@, w.namespace@, w.name@)
            &&& reads(x.namespace, w.namespace@)
            &&& reads(x.name, w.name@)
            &&& x.desired matches Some(n) ==> w.desired == n
            &&& x.desired is None ==> w.desired == 1
            &&& x.ready matches Some(n) ==> w.ready == n
            &&& x.ready is None ==> w.ready == 0
            &&& w.pod_labels@ == x.labels@
        }),
{
    assert(nodes::workload_at(
        raw,
        raw.deployments@.len() + k,
        ws[raw.deployments@.len() + k],
    ));
}

/// A daemon set is a workload; without a number of replicas it wants none.
pub proof fn daemon_sets_are_workloads(
    raw: RawSnapshot,
    ws: Seq<WorkloadInfo>,
    k: int,
)
    requires
        nodes::workloads_from(raw, ws),
        0 <= k < raw.daemonsets@.len(),
    ensures
        ({
            let w = ws[raw.deployments@.len() + raw.statefulsets@.len() + k];
            let x = raw.daemonsets@[k];
            &&& w.kind@ == "DaemonSet"@
            &&& w.id@ == id_of("DaemonSet"@, w.namespace@, w.name@)
            &&& reads(x.namespace, w.namespace@)
            &&& reads(x.name, w.name@)
            &&& x.desired matches Some(n) ==> w.desired == n
            &&& x.desired is None ==> w.desired == 0
            &&& x.ready matches Some(n) ==> w.ready == n
            &&& x.ready is None ==> w.ready == 0
            &&& w.pod_labels@ == x.labels@
        }),
{
    assert(nodes::workload_at(
        raw,
        raw.deployments@.len() + raw.statefulsets@.len() + k,
        ws[raw.deployments@.len() + raw.statefulsets@.len() + k],
    ));
}

/// A probe asks by HTTP, by a connection, by gRPC or by a command, in this order
/// of what is given; a path that is missing is the root; the times that are
/// missing are the usual ones.
pub proof fn probes_ask_what_they_say(p: RawProbe, i: ProbeInfo)
    requires
        parts::probe_from(p, i),
    ensures
        i.kind@ == p.kind@,
        p.http matches Some(h) ==> i.handler@ == "http"@ && i.path is Some && i.path->0@ == (
        match h.path {
            Some(s) => s@,
            None => "/"@,
        }) && i.port is Some && text::opt(i.scheme) == text::opt(h.scheme),
        p.http matches Some(h) ==> (h.port matches PortRef::Name(n) ==> i.port->0@ == n@) && (
        h.port matches PortRef::Number(n) ==> i.port->0@ == numeral::dec(n as int)),
        p.http is None && p.tcp is Some ==> i.handler@ == "tcp"@ && i.path is None && i.port is Some,
        p.http is None && p.tcp is None && p.grpc is Some ==> i.handler@ == "grpc"@,
        p.http is None && p.tcp is None && p.grpc is None ==> i.handler@ == "exec"@ && i.port is None,
        i.initial_delay == (match p.initial_delay {
            Some(n) => n,
            None => 0,
        }),
        i.timeout == (match p.timeout {
            Some(n) => n,
            None => 1,
        }),
        i.period == (match p.period {
            Some(n) => n,
            None => 10,
        }),
        i.failure_threshold == (match p.failure_threshold {
            Some(n) => n,
            None => 3,
        }),
{
}

/// Does the backend name this service, on this port? A number counts before a
/// name.
pub open spec fn sends_to(b: RawBackend, svc: Seq<char>, port: Option<Seq<char>>) -> bool {
    (b.service matches Some(s) && s@ == svc) && port == (match (b.port_number, b.port_name) {
        (Some(n), _) => Some(numeral::dec(n as int)),
        (None, Some(n)) => Some(n@),
        (None, None) => None,
    })
}

/// Every path of an ingress whose backend is a service makes a route to it.
pub proof fn paths_make_routes(
    p: RawIngress,
    x: IngressInfo,
    r: int,
    j: int,
    svc: Seq<char>,
    port: Option<Seq<char>>,
)
    requires
        ingresses::ingress_from(p, x),
        0 <= r < p.rules@.len(),
        0 <= j < p.rules@[r].paths@.len(),
        sends_to(p.rules@[r].paths@[j].backend, svc, port),
    ensures
        exists|k: int|
            0 <= k < x.routes@.len() && (#[trigger] x.routes@[k]).service@
                == svc && text::opt(x.routes@[k].host) == text::opt(
                p.rules@[r].host,
            ) && text::opt(x.routes@[k].port) == port && x.routes@[k].path@
                == (match p.rules@[r].paths@[j].path {
                Some(s) => s@,
                None => "/"@,
            }),
{
    let ing = p;
    let rule = ing.rules@[r];
    assert(ingresses::ingress_from(ing, x));
    let v = (
        text::opt(rule.host),
        ingresses::path_text(rule.paths@[j].path),
        svc,
        ingresses::backend_port(rule.paths@[j].backend),
    );
    let n = rule.paths@.len() as int;
    let f = |i: int|
        ingresses::route_to(
            rule.host,
            ingresses::path_text(rule.paths@[i].path),
            rule.paths@[i].backend,
        );
    assert(f(j)[0] == v);
    reports::lemma_gathered(n, f, j, v);
    assert(ingresses::rule_routes(rule, n) == pick::gather(n, f));
    let m = ing.rules@.len() as int;
    let e = |i: int| ingresses::rule_routes(ing.rules@[i], ing.rules@[i].paths@.len() as int);
    assert(e(r).contains(v));
    reports::lemma_gathered(m, e, r, v);
    let a = match ing.default_backend {
        Some(b) => ingresses::route_to(None, "/*"@, b),
        None => Seq::empty(),
    };
    let all = ingresses::routes(ing, m);
    assert(all == a + pick::gather(m, e));
    let t = choose|t: int| 0 <= t < pick::gather(m, e).len() && pick::gather(m, e)[t] == v;
    assert(all[a.len() + t] == v);
    let views = ingresses::route_views(x.routes@);
    assert(views == all && views.len() == x.routes@.len());
    assert(views[a.len() + t] == v);
    assert(ingresses::route_view(x.routes@[a.len() + t]) == v);
    assert(x.routes@[a.len() + t].service@ == svc);
}

/// The default backend of an ingress makes a route to it, for every host and path.
pub proof fn default_backends_make_routes(
    p: RawIngress,
    x: IngressInfo,
    svc: Seq<char>,
    port: Option<Seq<char>>,
)
    requires
        ingresses::ingress_from(p, x),
        p.default_backend matches Some(b) && sends_to(b, svc, port),
    ensures
        x.routes@.len() > 0,
        x.routes@[0].service@ == svc,
        x.routes@[0].host is None,
        x.routes@[0].path@ == "/*"@,
        text::opt(x.routes@[0].port) == port,
{
    let ing = p;
    assert(ingresses::ingress_from(ing, x));
    let all = ingresses::routes(ing, ing.rules@.len() as int);
    let b = ing.default_backend->0;
    let v = (None::<Seq<char>>, "/*"@, svc, ingresses::backend_port(b));
    assert(all[0] == v);
    let views = ingresses::route_views(x.routes@);
    assert(views == all && views.len() == x.routes@.len());
    assert(views[0] == v);
    assert(ingresses::route_view(x.routes@[0]) == v);
}

/// Does a list of types hold this one?
pub open spec fn names_type(ts: Seq<String>, t: Seq<char>) -> bool {
    exists|k: int| 0 <= k < ts.len() && (#[trigger] ts[k])@ == t
}

/// A policy is about what comes in and goes out as its types say. Without types it
/// is about what comes in, and about what goes out where it has rules for that.
pub proof fn policies_are_about_their_types(
    p: RawNetworkPolicy,
    x: NetworkPolicyInfo,
)
    requires
        policies::policy_from(p, x),
    ensures
        ({
            &&& reads(p.namespace, x.namespace@)
            &&& reads(p.name, x.name@)
            &&& x.pod_selector@ == p.selector.labels@
            &&& x.selector_complex == p.selector.expressions
            &&& p.types is None ==> x.ingress_type && x.egress_type == (p.egress@.len() > 0)
            &&& p.types matches Some(ts) ==> x.ingress_type == names_type(ts@, "Ingress"@)
                && x.egress_type == names_type(ts@, "Egress"@)
            &&& x.ingress@.len() == p.ingress@.len()
            &&& x.egress@.len() == p.egress@.len()
        }),
{
    assert(policies::policy_from(p, x));
    match p.types {
        Some(ts) => {
            lemma_names_type(ts@, "Ingress"@);
            lemma_names_type(ts@, "Egress"@);
        },
        None => {},
    }
}

proof fn lemma_names_type(ts: Seq<String>, t: Seq<char>)
    ensures
        text::strs(ts).contains(t) <==> names_type(ts, t),
{
    let all = text::strs(ts);
    if all.contains(t) {
        let k = choose|k: int| 0 <= k < all.len() && all[k] == t;
        assert(ts[k]@ == t);
    }
    if names_type(ts, t) {
        let k = choose|k: int| 0 <= k < ts.len() && (#[trigger] ts[k])@ == t;
        assert(all[k] == t);
    }
}

/// The ports of a rule keep their number or name, the end of their range and
/// their protocol, which is TCP where it is missing; each peer is described.
pub proof fn rules_keep_their_ports(
    p: RawNetworkPolicy,
    x: NetworkPolicyInfo,
    r: int,
    m: int,
)
    requires
        policies::policy_from(p, x),
        0 <= r < p.ingress@.len(),
        0 <= m < p.ingress@[r].ports@.len(),
    ensures
        x.ingress@[r].ports@.len()
            == p.ingress@[r].ports@.len(),
        ({
            let p = p.ingress@[r].ports@[m];
            let x = x.ingress@[r].ports@[m];
            &&& p.port is None ==> x.port is None
            &&& p.port matches Some(PortRef::Number(n)) ==> x.port is Some && x.port->0@
                == numeral::dec(n as int)
            &&& p.port matches Some(PortRef::Name(n)) ==> x.port is Some && x.port->0@ == n@
            &&& x.end_port == p.end_port
            &&& p.protocol is None ==> x.protocol@ == "TCP"@
            &&& p.protocol matches Some(t) ==> x.protocol@ == t@
        }),
{
    assert(policies::policy_from(p, x));
    assert(policies::rule_from(p.ingress@[r], x.ingress@[r]));
    assert(policies::port_from(p.ingress@[r].ports@[m], x.ingress@[r].ports@[m]));
}

/// A peer that is an address block reads as one; one that is every namespace, with
/// every pod, reads as all namespaces.
pub proof fn wide_peers_read_as_such(p: RawPeer)
    ensures
        p.ip_block is Some ==> scan::starts_with(policies::peer_words(p), "ipBlock"@),
        p.ip_block is None && p.pods is None && (p.namespaces matches Some(s) && s.labels@.len() == 0
            && !s.expressions) ==> policies::peer_words(p) == "all namespaces"@,
        p.ip_block is None && p.namespaces is None && (p.pods matches Some(s) && s.labels@.len() == 0
            && !s.expressions) ==> policies::peer_words(p) == "all pods"@ + " in this namespace"@,
{
    reveal_strlit("ipBlock ");
    reveal_strlit("ipBlock");
    if p.ip_block is Some {
        let w = policies::peer_words(p);
        assert(w.subrange(0, 7) =~= "ipBlock"@);
    }
}

/// Every event that was listed is in the graph, with its texts; its message has no
/// space around it; one without a count happened once.
pub proof fn events_keep_their_texts(e: RawEvent, i: crate::model::EventInfo)
    requires
        events::event_from(e, i),
    ensures
        reads(e.namespace, i.namespace@),
        reads(e.kind, i.kind@),
        reads(e.name, i.name@),
        reads(e.reason, i.reason@),
        e.message matches Some(m) ==> i.message@ == scan::trim(m@),
        e.count matches Some(n) ==> i.count == n,
        e.count is None ==> i.count == 1,
        e.last_timestamp is Some ==> i.last_seen == e.last_timestamp,
        e.last_timestamp is None && e.event_time is Some ==> i.last_seen == e.event_time,
        e.last_timestamp is None && e.event_time is None ==> i.last_seen == e.created,
{
}

/// The default class of ingresses is the first that is marked so.
pub proof fn the_marked_class_is_the_default(
    v: Seq<RawClass>,
    k: int,
)
    requires
        0 <= k < v.len(),
        v[k].default_mark matches Some(m) && m@ == "true"@,
        forall|j: int|
            0 <= j < k ==> text::opt((#[trigger] v[j]).default_mark) != Some(
                "true"@,
            ),
    ensures
        ingresses::default_class(v) == v[k].name,
{
    let f = |i: int| text::opt(v[i].default_mark) == Some("true"@);
    pick::lemma_first(v.len() as int, f);
    assert(f(k));
    let m = pick::first(v.len() as int, f)->0;
    if m < k {
        assert(f(m));
        assert(text::opt(v[m].default_mark) != Some("true"@));
    }
    assert(ingresses::default_class(v) == v[m].name);
}

/// Every object that was listed is in the graph, in the order of the lists; the
/// graph holds no others.
pub proof fn every_object_is_taken_over(raw: RawSnapshot, context: Seq<char>, g: ClusterGraph)
    requires
        graph::graph_from(raw, context, g),
    ensures
        g.context@ == context,
        g.pods@.len() == raw.pods@.len(),
        g.nodes@.len() == raw.nodes@.len(),
        g.services@.len() == raw.services@.len(),
        g.ingresses@.len() == raw.ingresses@.len(),
        g.network_policies@.len() == raw.network_policies@.len(),
        g.hpas@.len() == raw.hpas@.len(),
        g.namespaces@.len() == raw.namespaces@.len(),
        g.pvcs@ == raw.pvcs@,
        nodes::workloads_from(raw, g.workloads@),
        forall|i: int|
            0 <= i < raw.pods@.len() ==> pods::pod_from(raw, raw.pods@[i], #[trigger] g.pods@[i]),
        forall|i: int|
            0 <= i < raw.nodes@.len() ==> nodes::node_from(raw.nodes@[i], #[trigger] g.nodes@[i]),
        forall|i: int|
            0 <= i < raw.services@.len() ==> services::service_from(
                raw,
                g.pods@,
                g.workloads@,
                raw.services@[i],
                #[trigger] g.services@[i],
            ),
        forall|i: int|
            0 <= i < raw.ingresses@.len() ==> ingresses::ingress_from(
                raw.ingresses@[i],
                #[trigger] g.ingresses@[i],
            ),
        forall|i: int|
            0 <= i < raw.network_policies@.len() ==> policies::policy_from(
                raw.network_policies@[i],
                #[trigger] g.network_policies@[i],
            ),
        g.default_ingress_class == ingresses::default_class(raw.ingress_classes@),
        crate::model::views(g.issues@) == crate::diagnose::diagnosis(g),
{
}

} // verus!
