//! Every issue is filed under a category, and comes with commands that only look.

use crate::diagnose;
use crate::extended;
use crate::labels::Labels;
use crate::model;
use crate::model::{
    Category, ClusterGraph, ConditionInfo, ContainerSpecInfo, ContainerStatusInfo, EventInfo,
    HpaInfo, IngressInfo, IssueView, LbHealth, NodeInfo, PodInfo, ProbeInfo, PvcInfo, ServiceInfo,
    ServicePortInfo, TargetGroupHealth, VirtualServiceInfo, WorkloadInfo,
};
use crate::pick;
use crate::rules::admission;
use crate::rules::admission::Refusal;
use crate::rules::pod::PodFinding;
use crate::rules::cni::Sandbox;
use crate::rules::balancer;
use crate::rules::cni;
use crate::rules::dns;
use crate::rules::entry;
use crate::rules::eviction;
use crate::rules::hpa;
use crate::rules::ingress;
use crate::rules::mesh;
use crate::rules::network;
use crate::rules::node;
use crate::rules::pod;
use crate::rules::ports;
use crate::rules::probes;
use crate::rules::service;
use crate::rules::storage;
use crate::rules::targets;
use crate::rules::workload;
use crate::scan;
use vstd::prelude::*;

verus! {

broadcast use crate::pick::lemma_add_nothing;

/// Does the command only look? To look a name up from inside a pod counts: it
/// changes nothing in the cluster, and nothing else shows whether the pod can.
pub open spec fn read_only(c: Seq<char>) -> bool {
    ||| scan::starts_with(c, "kubectl get "@)
    ||| scan::starts_with(c, "kubectl describe "@)
    ||| scan::starts_with(c, "kubectl logs "@)
    ||| scan::starts_with(c, "kubectl -n kube-system logs "@)
    ||| scan::starts_with(c, "kubectl rollout status "@)
    ||| scan::starts_with(c, "aws elbv2 describe-"@)
    ||| scan::starts_with(c, "kubectl exec -n "@) && scan::ends_with(
        c,
        " -- nslookup kubernetes.default"@,
    )
}

/// Is the issue filed under the category of its id, and are there commands, all
/// of which only look?
pub open spec fn sound(i: IssueView) -> bool {
    &&& i.category == model::category_of(i.id)
    &&& i.category != Category::Other
    &&& i.commands.len() > 0
    &&& forall|k: int| 0 <= k < i.commands.len() ==> read_only(#[trigger] i.commands[k])
}

/// Is every issue of a list filed, and can it be checked?
pub open spec fn all_sound(s: Seq<IssueView>) -> bool {
    forall|k: int| 0 <= k < s.len() ==> sound(#[trigger] s[k])
}

proof fn lemma_each(n: int, f: spec_fn(int) -> Seq<IssueView>)
    requires
        forall|i: int| 0 <= i < n ==> all_sound(#[trigger] f(i)),
    ensures
        all_sound(pick::gather(n, f)),
    decreases n,
{
    if n > 0 {
        lemma_each(n - 1, f);
        assert(all_sound(f(n - 1)));
    }
}

broadcast proof fn admission_creation_refused(
    key: Seq<char>,
    why: Refusal,
    e: EventInfo,
    kind: Seq<char>,
)
    ensures
        sound(#[trigger] admission::creation_refused(key, why, e, kind)),
{
    reveal_strlit("quota-exceeded");
    reveal_strlit("admission-denied");
    reveal_strlit("quota-");
    reveal_strlit("admission-");
    reveal_strlit("kubectl describe ");
    reveal_strlit("kubectl describe resourcequota -n ");
    let v = admission::creation_refused(key, why, e, kind);
    if why == admission::Refusal::Quota {
        assert(v.id.subrange(0, 6) =~= "quota-"@);
    } else {
        assert(v.id.subrange(0, 10) =~= "admission-"@);
    }
    assert(v.commands[0].subrange(0, 17) =~= "kubectl describe "@);
    assert(read_only(v.commands[0]));
    if v.commands.len() > 1 {
        assert(v.commands[1].subrange(0, 17) =~= "kubectl describe "@);
        assert(read_only(v.commands[1]));
    }
}

broadcast proof fn balancer_lb_failed(g: ClusterGraph, s: ServiceInfo, e: EventInfo)
    ensures
        sound(#[trigger] balancer::lb_failed(g, s, e)),
{
    reveal_strlit("lb-failed:");
    reveal_strlit("lb-");
    reveal_strlit("kubectl describe svc ");
    reveal_strlit("kubectl describe ");
    let v = balancer::lb_failed(g, s, e);
    assert(v.id.subrange(0, 3) =~= "lb-"@);
    assert(v.commands[0].subrange(0, 17) =~= "kubectl describe "@);
    assert(read_only(v.commands[0]));
}

broadcast proof fn balancer_lb_pending(s: ServiceInfo)
    ensures
        sound(#[trigger] balancer::lb_pending(s)),
{
    reveal_strlit("lb-pending:");
    reveal_strlit("lb-");
    reveal_strlit("kubectl describe svc ");
    reveal_strlit("kubectl describe ");
    let v = balancer::lb_pending(s);
    assert(v.id.subrange(0, 3) =~= "lb-"@);
    assert(v.commands[0].subrange(0, 17) =~= "kubectl describe "@);
    assert(read_only(v.commands[0]));
}

broadcast proof fn cni_agent_unready(w: WorkloadInfo, nodes: Seq<Seq<char>>, others: int)
    ensures
        sound(#[trigger] cni::agent_unready(w, nodes, others)),
{
    reveal_strlit("kubeproxy-unready");
    reveal_strlit("cni-agent-unready");
    reveal_strlit("kubeproxy-");
    reveal_strlit("cni-");
    reveal_strlit("kubectl get pods -n kube-system -o wide | grep ");
    reveal_strlit("kubectl get ");
    reveal_strlit("kubectl logs -n kube-system ds/");
    reveal_strlit("kubectl logs ");
    let v = cni::agent_unready(w, nodes, others);
    if w.name@ == "kube-proxy"@ {
        assert(v.id.subrange(0, 10) =~= "kubeproxy-"@);
    } else {
        assert(v.id.subrange(0, 4) =~= "cni-"@);
    }
    assert(v.commands[0].subrange(0, 12) =~= "kubectl get "@);
    assert(read_only(v.commands[0]));
    if v.commands.len() > 1 {
        assert(v.commands[1].subrange(0, 13) =~= "kubectl logs "@);
        assert(read_only(v.commands[1]));
    }
}

broadcast proof fn cni_node_network(d: NodeInfo)
    ensures
        sound(#[trigger] cni::node_network(d)),
{
    reveal_strlit("cni-node-network:");
    reveal_strlit("cni-");
    reveal_strlit("kubectl describe node ");
    reveal_strlit("kubectl describe ");
    let v = cni::node_network(d);
    assert(v.id.subrange(0, 4) =~= "cni-"@);
    assert(v.commands[0].subrange(0, 17) =~= "kubectl describe "@);
    assert(read_only(v.commands[0]));
}

broadcast proof fn cni_no_address(node: Seq<char>, msg: Seq<char>, names: Seq<Seq<char>>)
    ensures
        sound(#[trigger] cni::no_address(node, msg, names)),
{
    reveal_strlit("cni-ip-exhausted:");
    reveal_strlit("cni-");
    reveal_strlit("kubectl describe node ");
    reveal_strlit("kubectl describe ");
    reveal_strlit("kubectl -n kube-system logs ds/aws-node --tail=50");
    reveal_strlit("kubectl -n kube-system logs ");
    let v = cni::no_address(node, msg, names);
    assert(v.id.subrange(0, 4) =~= "cni-"@);
    assert(v.commands[0].subrange(0, 17) =~= "kubectl describe "@);
    assert(read_only(v.commands[0]));
    if v.commands.len() > 1 {
        assert(v.commands[1].subrange(0, 28) =~= "kubectl -n kube-system logs "@);
        assert(read_only(v.commands[1]));
    }
}

broadcast proof fn cni_setup_failed(node: Seq<char>, msg: Seq<char>, names: Seq<Seq<char>>)
    ensures
        sound(#[trigger] cni::setup_failed(node, msg, names)),
{
    reveal_strlit("cni-sandbox-failed:");
    reveal_strlit("cni-");
    reveal_strlit("kubectl get pods -n kube-system -o wide --field-selector spec.nodeName=");
    reveal_strlit("kubectl get ");
    let v = cni::setup_failed(node, msg, names);
    assert(v.id.subrange(0, 4) =~= "cni-"@);
    assert(v.commands[0].subrange(0, 12) =~= "kubectl get "@);
    assert(read_only(v.commands[0]));
}

broadcast proof fn dns_dns_down(s: ServiceInfo)
    ensures
        sound(#[trigger] dns::dns_down(s)),
{
    reveal_strlit("dns-down:kube-system/kube-dns");
    reveal_strlit("dns-");
    reveal_strlit("kubectl get pods -n kube-system -l k8s-app=kube-dns");
    reveal_strlit("kubectl get ");
    reveal_strlit("kubectl logs -n kube-system -l k8s-app=kube-dns --tail=50");
    reveal_strlit("kubectl logs ");
    let v = dns::dns_down(s);
    assert(v.id.subrange(0, 4) =~= "dns-"@);
    assert(v.commands[0].subrange(0, 12) =~= "kubectl get "@);
    assert(read_only(v.commands[0]));
    if v.commands.len() > 1 {
        assert(v.commands[1].subrange(0, 13) =~= "kubectl logs "@);
        assert(read_only(v.commands[1]));
    }
}

broadcast proof fn dns_dns_degraded(w: WorkloadInfo)
    ensures
        sound(#[trigger] dns::dns_degraded(w)),
{
    reveal_strlit("dns-degraded:");
    reveal_strlit("dns-");
    reveal_strlit("kubectl get pods -n kube-system -l k8s-app=kube-dns");
    reveal_strlit("kubectl get ");
    let v = dns::dns_degraded(w);
    assert(v.id.subrange(0, 4) =~= "dns-"@);
    assert(v.commands[0].subrange(0, 12) =~= "kubectl get "@);
    assert(read_only(v.commands[0]));
}

broadcast proof fn dns_dns_config(e: EventInfo, count: int, kind: Seq<char>)
    ensures
        sound(#[trigger] dns::dns_config(e, count, kind)),
{
    reveal_strlit("dns-config:");
    reveal_strlit("dns-");
    reveal_strlit("kubectl describe ");
    let v = dns::dns_config(e, count, kind);
    assert(v.id.subrange(0, 4) =~= "dns-"@);
    assert(v.commands[0].subrange(0, 17) =~= "kubectl describe "@);
    assert(read_only(v.commands[0]));
}

broadcast proof fn entry_missing_backend(g: ClusterGraph, ing: IngressInfo, svc: Seq<char>)
    ensures
        sound(#[trigger] entry::missing_backend(g, ing, svc)),
{
    reveal_strlit("entry-missing-backend:");
    reveal_strlit("entry-");
    reveal_strlit("kubectl get ingress ");
    reveal_strlit("kubectl get ");
    reveal_strlit("kubectl get svc -n ");
    let v = entry::missing_backend(g, ing, svc);
    assert(v.id.subrange(0, 6) =~= "entry-"@);
    assert(v.commands[0].subrange(0, 12) =~= "kubectl get "@);
    assert(read_only(v.commands[0]));
    if v.commands.len() > 1 {
        assert(v.commands[1].subrange(0, 12) =~= "kubectl get "@);
        assert(read_only(v.commands[1]));
    }
}

broadcast proof fn eviction_evicted_pods(key: Seq<char>, p: PodInfo, names: Seq<Seq<char>>)
    ensures
        sound(#[trigger] eviction::evicted_pods(key, p, names)),
{
    reveal_strlit("pod-evicted:");
    reveal_strlit("pod-evicted");
    reveal_strlit("kubectl get pods -n ");
    reveal_strlit("kubectl get ");
    let v = eviction::evicted_pods(key, p, names);
    assert(v.id.subrange(0, 11) =~= "pod-evicted"@);
    assert(v.commands[0].subrange(0, 12) =~= "kubectl get "@);
    assert(read_only(v.commands[0]));
}

broadcast proof fn hpa_no_metrics(h: HpaInfo, c: ConditionInfo)
    ensures
        sound(#[trigger] hpa::no_metrics(h, c)),
{
    reveal_strlit("hpa-metrics:");
    reveal_strlit("hpa-");
    reveal_strlit("kubectl describe hpa ");
    reveal_strlit("kubectl describe ");
    let v = hpa::no_metrics(h, c);
    assert(v.id.subrange(0, 4) =~= "hpa-"@);
    assert(v.commands[0].subrange(0, 17) =~= "kubectl describe "@);
    assert(read_only(v.commands[0]));
}

broadcast proof fn hpa_at_max(h: HpaInfo, c: ConditionInfo)
    ensures
        sound(#[trigger] hpa::at_max(h, c)),
{
    reveal_strlit("hpa-at-max:");
    reveal_strlit("hpa-");
    reveal_strlit("kubectl describe hpa ");
    reveal_strlit("kubectl describe ");
    let v = hpa::at_max(h, c);
    assert(v.id.subrange(0, 4) =~= "hpa-"@);
    assert(v.commands[0].subrange(0, 17) =~= "kubectl describe "@);
    assert(read_only(v.commands[0]));
}

broadcast proof fn hpa_unable(h: HpaInfo, c: ConditionInfo)
    ensures
        sound(#[trigger] hpa::unable(h, c)),
{
    reveal_strlit("hpa-unable:");
    reveal_strlit("hpa-");
    reveal_strlit("kubectl describe hpa ");
    reveal_strlit("kubectl describe ");
    let v = hpa::unable(h, c);
    assert(v.id.subrange(0, 4) =~= "hpa-"@);
    assert(v.commands[0].subrange(0, 17) =~= "kubectl describe "@);
    assert(read_only(v.commands[0]));
}

broadcast proof fn ingress_class_missing(g: ClusterGraph, ing: IngressInfo, class: Seq<char>)
    ensures
        sound(#[trigger] ingress::class_missing(g, ing, class)),
{
    reveal_strlit("ingress-class-missing:");
    reveal_strlit("ingress-");
    reveal_strlit("kubectl describe ingress ");
    reveal_strlit("kubectl describe ");
    reveal_strlit("kubectl get ingressclass");
    reveal_strlit("kubectl get ");
    let v = ingress::class_missing(g, ing, class);
    assert(v.id.subrange(0, 8) =~= "ingress-"@);
    assert(v.commands[0].subrange(0, 17) =~= "kubectl describe "@);
    assert(read_only(v.commands[0]));
    if v.commands.len() > 1 {
        assert(v.commands[1].subrange(0, 12) =~= "kubectl get "@);
        assert(read_only(v.commands[1]));
    }
}

broadcast proof fn ingress_class_none(g: ClusterGraph, ing: IngressInfo)
    ensures
        sound(#[trigger] ingress::class_none(g, ing)),
{
    reveal_strlit("ingress-class-none:");
    reveal_strlit("ingress-");
    reveal_strlit("kubectl describe ingress ");
    reveal_strlit("kubectl describe ");
    reveal_strlit("kubectl get ingressclass");
    reveal_strlit("kubectl get ");
    let v = ingress::class_none(g, ing);
    assert(v.id.subrange(0, 8) =~= "ingress-"@);
    assert(v.commands[0].subrange(0, 17) =~= "kubectl describe "@);
    assert(read_only(v.commands[0]));
    if v.commands.len() > 1 {
        assert(v.commands[1].subrange(0, 12) =~= "kubectl get "@);
        assert(read_only(v.commands[1]));
    }
}

broadcast proof fn ingress_no_address(ing: IngressInfo)
    ensures
        sound(#[trigger] ingress::no_address(ing)),
{
    reveal_strlit("ingress-no-address:");
    reveal_strlit("ingress-");
    reveal_strlit("kubectl describe ingress ");
    reveal_strlit("kubectl describe ");
    reveal_strlit("kubectl get ingressclass");
    reveal_strlit("kubectl get ");
    let v = ingress::no_address(ing);
    assert(v.id.subrange(0, 8) =~= "ingress-"@);
    assert(v.commands[0].subrange(0, 17) =~= "kubectl describe "@);
    assert(read_only(v.commands[0]));
    if v.commands.len() > 1 {
        assert(v.commands[1].subrange(0, 12) =~= "kubectl get "@);
        assert(read_only(v.commands[1]));
    }
}

broadcast proof fn ingress_tls_missing(ing: IngressInfo, secret: Seq<char>)
    ensures
        sound(#[trigger] ingress::tls_missing(ing, secret)),
{
    reveal_strlit("ingress-tls-missing:");
    reveal_strlit("ingress-");
    reveal_strlit("kubectl get secret ");
    reveal_strlit("kubectl get ");
    reveal_strlit("kubectl get certificate -n ");
    let v = ingress::tls_missing(ing, secret);
    assert(v.id.subrange(0, 8) =~= "ingress-"@);
    assert(v.commands[0].subrange(0, 12) =~= "kubectl get "@);
    assert(read_only(v.commands[0]));
    if v.commands.len() > 1 {
        assert(v.commands[1].subrange(0, 12) =~= "kubectl get "@);
        assert(read_only(v.commands[1]));
    }
}

broadcast proof fn mesh_no_sidecar(key: Seq<char>, p: PodInfo, names: Seq<Seq<char>>)
    ensures
        sound(#[trigger] mesh::no_sidecar(key, p, names)),
{
    reveal_strlit("mesh-no-sidecar:");
    reveal_strlit("mesh-");
    reveal_strlit("kubectl get pod ");
    reveal_strlit("kubectl get ");
    let v = mesh::no_sidecar(key, p, names);
    assert(v.id.subrange(0, 5) =~= "mesh-"@);
    assert(v.commands[0].subrange(0, 12) =~= "kubectl get "@);
    assert(read_only(v.commands[0]));
}

broadcast proof fn mesh_dest_missing(
    vs: VirtualServiceInfo,
    host: Seq<char>,
    ns: Seq<char>,
    svc: Seq<char>,
)
    ensures
        sound(#[trigger] mesh::dest_missing(vs, host, ns, svc)),
{
    reveal_strlit("mesh-dest-missing:");
    reveal_strlit("mesh-");
    reveal_strlit("kubectl get virtualservice ");
    reveal_strlit("kubectl get ");
    let v = mesh::dest_missing(vs, host, ns, svc);
    assert(v.id.subrange(0, 5) =~= "mesh-"@);
    assert(v.commands[0].subrange(0, 12) =~= "kubectl get "@);
    assert(read_only(v.commands[0]));
}

broadcast proof fn mesh_subset_missing(
    vs: VirtualServiceInfo,
    host: Seq<char>,
    sub: Seq<char>,
    defined: Seq<char>,
)
    ensures
        sound(#[trigger] mesh::subset_missing(vs, host, sub, defined)),
{
    reveal_strlit("mesh-subset-missing:");
    reveal_strlit("mesh-");
    reveal_strlit("kubectl get virtualservice ");
    reveal_strlit("kubectl get ");
    let v = mesh::subset_missing(vs, host, sub, defined);
    assert(v.id.subrange(0, 5) =~= "mesh-"@);
    assert(v.commands[0].subrange(0, 12) =~= "kubectl get "@);
    assert(read_only(v.commands[0]));
}

broadcast proof fn mesh_subset_empty(
    vs: VirtualServiceInfo,
    host: Seq<char>,
    sub: Seq<char>,
    svc: Seq<char>,
    l: Labels,
)
    ensures
        sound(#[trigger] mesh::subset_empty(vs, host, sub, svc, l)),
{
    reveal_strlit("mesh-subset-empty:");
    reveal_strlit("mesh-");
    reveal_strlit("kubectl get virtualservice ");
    reveal_strlit("kubectl get ");
    let v = mesh::subset_empty(vs, host, sub, svc, l);
    assert(v.id.subrange(0, 5) =~= "mesh-"@);
    assert(v.commands[0].subrange(0, 12) =~= "kubectl get "@);
    assert(read_only(v.commands[0]));
}

broadcast proof fn network_port_blocked(
    g: ClusterGraph,
    s: ServiceInfo,
    sp: ServicePortInfo,
    names: Seq<Seq<char>>,
    total: int,
)
    ensures
        sound(#[trigger] network::port_blocked(g, s, sp, names, total)),
{
    reveal_strlit("np-ingress-blocked:");
    reveal_strlit("np-");
    reveal_strlit("kubectl get networkpolicy -n ");
    reveal_strlit("kubectl get ");
    reveal_strlit("kubectl describe svc ");
    reveal_strlit("kubectl describe ");
    let v = network::port_blocked(g, s, sp, names, total);
    assert(v.id.subrange(0, 3) =~= "np-"@);
    assert(v.commands[0].subrange(0, 12) =~= "kubectl get "@);
    assert(read_only(v.commands[0]));
    if v.commands.len() > 1 {
        assert(v.commands[1].subrange(0, 17) =~= "kubectl describe "@);
        assert(read_only(v.commands[1]));
    }
}

broadcast proof fn network_port_restricted(
    g: ClusterGraph,
    s: ServiceInfo,
    sp: ServicePortInfo,
    peers: Seq<Seq<char>>,
)
    ensures
        sound(#[trigger] network::port_restricted(g, s, sp, peers)),
{
    reveal_strlit("np-ingress-restricted:");
    reveal_strlit("np-");
    reveal_strlit("kubectl get networkpolicy -n ");
    reveal_strlit("kubectl get ");
    reveal_strlit("kubectl describe svc ");
    reveal_strlit("kubectl describe ");
    let v = network::port_restricted(g, s, sp, peers);
    assert(v.id.subrange(0, 3) =~= "np-"@);
    assert(v.commands[0].subrange(0, 12) =~= "kubectl get "@);
    assert(read_only(v.commands[0]));
    if v.commands.len() > 1 {
        assert(v.commands[1].subrange(0, 17) =~= "kubectl describe "@);
        assert(read_only(v.commands[1]));
    }
}

broadcast proof fn network_dns_blocked(
    g: ClusterGraph,
    key: Seq<char>,
    p: PodInfo,
    names: Seq<Seq<char>>,
)
    ensures
        sound(#[trigger] network::dns_blocked(g, key, p, names)),
{
    reveal_strlit("np-egress-dns:");
    reveal_strlit("np-");
    reveal_strlit("kubectl get networkpolicy -n ");
    reveal_strlit("kubectl get ");
    reveal_strlit("kubectl exec -n ");
    reveal_strlit(" -- nslookup kubernetes.default");
    let v = network::dns_blocked(g, key, p, names);
    assert(v.id.subrange(0, 3) =~= "np-"@);
    assert(v.commands[0].subrange(0, 12) =~= "kubectl get "@);
    assert(read_only(v.commands[0]));
    let c = v.commands[1];
    let tail = " -- nslookup kubernetes.default"@;
    assert(c.subrange(0, 16) =~= "kubectl exec -n "@);
    assert(c.subrange(c.len() - tail.len(), c.len() as int) =~= tail);
    assert(read_only(c));
}

broadcast proof fn node_not_ready(n: NodeInfo, on: int)
    ensures
        sound(#[trigger] node::not_ready(n, on)),
{
    reveal_strlit("node-notready:");
    reveal_strlit("node-");
    reveal_strlit("kubectl describe node ");
    reveal_strlit("kubectl describe ");
    let v = node::not_ready(n, on);
    assert(v.id.subrange(0, 5) =~= "node-"@);
    assert(v.commands[0].subrange(0, 17) =~= "kubectl describe "@);
    assert(read_only(v.commands[0]));
}

broadcast proof fn node_under_pressure(n: NodeInfo)
    ensures
        sound(#[trigger] node::under_pressure(n)),
{
    reveal_strlit("node-pressure:");
    reveal_strlit("node-");
    reveal_strlit("kubectl describe node ");
    reveal_strlit("kubectl describe ");
    let v = node::under_pressure(n);
    assert(v.id.subrange(0, 5) =~= "node-"@);
    assert(v.commands[0].subrange(0, 17) =~= "kubectl describe "@);
    assert(read_only(v.commands[0]));
}

broadcast proof fn node_cordoned(n: NodeInfo)
    ensures
        sound(#[trigger] node::cordoned(n)),
{
    reveal_strlit("node-cordoned:");
    reveal_strlit("node-");
    reveal_strlit("kubectl describe node ");
    reveal_strlit("kubectl describe ");
    let v = node::cordoned(n);
    assert(v.id.subrange(0, 5) =~= "node-"@);
    assert(v.commands[0].subrange(0, 17) =~= "kubectl describe "@);
    assert(read_only(v.commands[0]));
}

broadcast proof fn pod_oom(
    key: Seq<char>,
    p: PodInfo,
    c: ContainerStatusInfo,
    restarts: int,
    names: Seq<Seq<char>>,
)
    ensures
        sound(#[trigger] pod::oom(key, p, c, restarts, names)),
{
    reveal_strlit("pod-oom:");
    reveal_strlit("pod-");
    reveal_strlit("kubectl describe pod ");
    reveal_strlit("kubectl describe ");
    reveal_strlit("kubectl logs ");
    let v = pod::oom(key, p, c, restarts, names);
    assert(v.id.subrange(0, 4) =~= "pod-"@);
    assert(v.commands[0].subrange(0, 17) =~= "kubectl describe "@);
    assert(read_only(v.commands[0]));
    if v.commands.len() > 1 {
        assert(v.commands[1].subrange(0, 13) =~= "kubectl logs "@);
        assert(read_only(v.commands[1]));
    }
}

broadcast proof fn pod_crash_loop(
    g: ClusterGraph,
    key: Seq<char>,
    p: PodInfo,
    c: ContainerStatusInfo,
    names: Seq<Seq<char>>,
)
    ensures
        sound(#[trigger] pod::crash_loop(g, key, p, c, names)),
{
    reveal_strlit("pod-crashloop:");
    reveal_strlit("pod-");
    reveal_strlit("kubectl describe pod ");
    reveal_strlit("kubectl describe ");
    reveal_strlit("kubectl logs ");
    let v = pod::crash_loop(g, key, p, c, names);
    assert(v.id.subrange(0, 4) =~= "pod-"@);
    assert(v.commands[0].subrange(0, 17) =~= "kubectl describe "@);
    assert(read_only(v.commands[0]));
    if v.commands.len() > 1 {
        assert(v.commands[1].subrange(0, 13) =~= "kubectl logs "@);
        assert(read_only(v.commands[1]));
    }
}

broadcast proof fn pod_image_pull(
    key: Seq<char>,
    p: PodInfo,
    c: ContainerStatusInfo,
    names: Seq<Seq<char>>,
)
    ensures
        sound(#[trigger] pod::image_pull(key, p, c, names)),
{
    reveal_strlit("pod-imagepull:");
    reveal_strlit("pod-imagepull");
    reveal_strlit("kubectl describe pod ");
    reveal_strlit("kubectl describe ");
    let v = pod::image_pull(key, p, c, names);
    assert(v.id.subrange(0, 13) =~= "pod-imagepull"@);
    assert(v.commands[0].subrange(0, 17) =~= "kubectl describe "@);
    assert(read_only(v.commands[0]));
}

broadcast proof fn pod_config_error(
    key: Seq<char>,
    p: PodInfo,
    c: ContainerStatusInfo,
    names: Seq<Seq<char>>,
)
    ensures
        sound(#[trigger] pod::config_error(key, p, c, names)),
{
    reveal_strlit("pod-config:");
    reveal_strlit("pod-config");
    reveal_strlit("kubectl describe pod ");
    reveal_strlit("kubectl describe ");
    let v = pod::config_error(key, p, c, names);
    assert(v.id.subrange(0, 10) =~= "pod-config"@);
    assert(v.commands[0].subrange(0, 17) =~= "kubectl describe "@);
    assert(read_only(v.commands[0]));
}

broadcast proof fn pod_unschedulable(
    g: ClusterGraph,
    key: Seq<char>,
    p: PodInfo,
    names: Seq<Seq<char>>,
)
    ensures
        sound(#[trigger] pod::unschedulable(g, key, p, names)),
{
    reveal_strlit("pod-unschedulable:");
    reveal_strlit("pod-unschedulable");
    reveal_strlit("kubectl describe pod ");
    reveal_strlit("kubectl describe ");
    let v = pod::unschedulable(g, key, p, names);
    assert(v.id.subrange(0, 17) =~= "pod-unschedulable"@);
    assert(v.commands[0].subrange(0, 17) =~= "kubectl describe "@);
    assert(read_only(v.commands[0]));
}

broadcast proof fn pod_not_ready(g: ClusterGraph, key: Seq<char>, p: PodInfo, names: Seq<Seq<char>>)
    ensures
        sound(#[trigger] pod::not_ready(g, key, p, names)),
{
    reveal_strlit("pod-notready:");
    reveal_strlit("pod-");
    reveal_strlit("kubectl describe pod ");
    reveal_strlit("kubectl describe ");
    let v = pod::not_ready(g, key, p, names);
    assert(v.id.subrange(0, 4) =~= "pod-"@);
    assert(v.commands[0].subrange(0, 17) =~= "kubectl describe "@);
    assert(read_only(v.commands[0]));
}

broadcast proof fn ports_name_undefined(s: ServiceInfo, sp: ServicePortInfo, p: PodInfo)
    ensures
        sound(#[trigger] ports::name_undefined(s, sp, p)),
{
    reveal_strlit("svc-port-name:");
    reveal_strlit("svc-");
    reveal_strlit("kubectl get svc ");
    reveal_strlit("kubectl get ");
    reveal_strlit("kubectl get pod ");
    let v = ports::name_undefined(s, sp, p);
    assert(v.id.subrange(0, 4) =~= "svc-"@);
    assert(v.commands[0].subrange(0, 12) =~= "kubectl get "@);
    assert(read_only(v.commands[0]));
    if v.commands.len() > 1 {
        assert(v.commands[1].subrange(0, 12) =~= "kubectl get "@);
        assert(read_only(v.commands[1]));
    }
}

broadcast proof fn ports_port_mismatch(s: ServiceInfo, sp: ServicePortInfo, p: PodInfo, port: int)
    ensures
        sound(#[trigger] ports::port_mismatch(s, sp, p, port)),
{
    reveal_strlit("svc-port-mismatch:");
    reveal_strlit("svc-");
    reveal_strlit("kubectl get svc ");
    reveal_strlit("kubectl get ");
    reveal_strlit("kubectl get pod ");
    let v = ports::port_mismatch(s, sp, p, port);
    assert(v.id.subrange(0, 4) =~= "svc-"@);
    assert(v.commands[0].subrange(0, 12) =~= "kubectl get "@);
    assert(read_only(v.commands[0]));
    if v.commands.len() > 1 {
        assert(v.commands[1].subrange(0, 12) =~= "kubectl get "@);
        assert(read_only(v.commands[1]));
    }
}

broadcast proof fn probes_port_undefined(
    w: WorkloadInfo,
    kind: Seq<char>,
    c: ContainerSpecInfo,
    pr: ProbeInfo,
    port: Seq<char>,
)
    ensures
        sound(#[trigger] probes::port_undefined(w, kind, c, pr, port)),
{
    reveal_strlit("probe-port-undefined:");
    reveal_strlit("probe-");
    reveal_strlit("kubectl get ");
    let v = probes::port_undefined(w, kind, c, pr, port);
    assert(v.id.subrange(0, 6) =~= "probe-"@);
    assert(v.commands[0].subrange(0, 12) =~= "kubectl get "@);
    assert(read_only(v.commands[0]));
}

broadcast proof fn probes_probe_timeout(
    w: WorkloadInfo,
    kind: Seq<char>,
    c: ContainerSpecInfo,
    pr: ProbeInfo,
    msg: Seq<char>,
)
    ensures
        sound(#[trigger] probes::probe_timeout(w, kind, c, pr, msg)),
{
    reveal_strlit("probe-timeout:");
    reveal_strlit("probe-");
    reveal_strlit("kubectl get ");
    let v = probes::probe_timeout(w, kind, c, pr, msg);
    assert(v.id.subrange(0, 6) =~= "probe-"@);
    assert(v.commands[0].subrange(0, 12) =~= "kubectl get "@);
    assert(read_only(v.commands[0]));
}

broadcast proof fn probes_equal_probes(
    w: WorkloadInfo,
    kind: Seq<char>,
    c: ContainerSpecInfo,
    l: ProbeInfo,
    restarts: int,
)
    ensures
        sound(#[trigger] probes::equal_probes(w, kind, c, l, restarts)),
{
    reveal_strlit("probe-liveness-equals-readiness:");
    reveal_strlit("probe-");
    reveal_strlit("kubectl get ");
    let v = probes::equal_probes(w, kind, c, l, restarts);
    assert(v.id.subrange(0, 6) =~= "probe-"@);
    assert(v.commands[0].subrange(0, 12) =~= "kubectl get "@);
    assert(read_only(v.commands[0]));
}

broadcast proof fn probes_no_startup(
    w: WorkloadInfo,
    kind: Seq<char>,
    c: ContainerSpecInfo,
    l: ProbeInfo,
)
    ensures
        sound(#[trigger] probes::no_startup(w, kind, c, l)),
{
    reveal_strlit("probe-no-startup:");
    reveal_strlit("probe-");
    reveal_strlit("kubectl get ");
    let v = probes::no_startup(w, kind, c, l);
    assert(v.id.subrange(0, 6) =~= "probe-"@);
    assert(v.commands[0].subrange(0, 12) =~= "kubectl get "@);
    assert(read_only(v.commands[0]));
}

broadcast proof fn service_scaled_to_zero(s: ServiceInfo, w: WorkloadInfo)
    ensures
        sound(#[trigger] service::scaled_to_zero(s, w)),
{
    reveal_strlit("svc-scaled-zero:");
    reveal_strlit("svc-");
    reveal_strlit("kubectl describe svc ");
    reveal_strlit("kubectl describe ");
    reveal_strlit("kubectl get pods -n ");
    reveal_strlit("kubectl get ");
    let v = service::scaled_to_zero(s, w);
    assert(v.id.subrange(0, 4) =~= "svc-"@);
    assert(v.commands[0].subrange(0, 17) =~= "kubectl describe "@);
    assert(read_only(v.commands[0]));
    if v.commands.len() > 1 {
        assert(v.commands[1].subrange(0, 12) =~= "kubectl get "@);
        assert(read_only(v.commands[1]));
    }
}

broadcast proof fn service_no_match(g: ClusterGraph, s: ServiceInfo)
    ensures
        sound(#[trigger] service::no_match(g, s)),
{
    reveal_strlit("svc-no-match:");
    reveal_strlit("svc-");
    reveal_strlit("kubectl describe svc ");
    reveal_strlit("kubectl describe ");
    reveal_strlit("kubectl get pods -n ");
    reveal_strlit("kubectl get ");
    let v = service::no_match(g, s);
    assert(v.id.subrange(0, 4) =~= "svc-"@);
    assert(v.commands[0].subrange(0, 17) =~= "kubectl describe "@);
    assert(read_only(v.commands[0]));
    if v.commands.len() > 1 {
        assert(v.commands[1].subrange(0, 12) =~= "kubectl get "@);
        assert(read_only(v.commands[1]));
    }
}

broadcast proof fn service_no_ready(s: ServiceInfo, explained: bool)
    ensures
        sound(#[trigger] service::no_ready(s, explained)),
{
    reveal_strlit("svc-no-ready:");
    reveal_strlit("svc-");
    reveal_strlit("kubectl describe svc ");
    reveal_strlit("kubectl describe ");
    reveal_strlit("kubectl get pods -n ");
    reveal_strlit("kubectl get ");
    let v = service::no_ready(s, explained);
    assert(v.id.subrange(0, 4) =~= "svc-"@);
    assert(v.commands[0].subrange(0, 17) =~= "kubectl describe "@);
    assert(read_only(v.commands[0]));
    if v.commands.len() > 1 {
        assert(v.commands[1].subrange(0, 12) =~= "kubectl get "@);
        assert(read_only(v.commands[1]));
    }
}

broadcast proof fn storage_claim_pending(c: PvcInfo, users: Seq<Seq<char>>, events: Seq<Seq<char>>)
    ensures
        sound(#[trigger] storage::claim_pending(c, users, events)),
{
    reveal_strlit("storage-pvc-pending:");
    reveal_strlit("storage-");
    reveal_strlit("kubectl describe pvc ");
    reveal_strlit("kubectl describe ");
    reveal_strlit("kubectl get storageclass");
    reveal_strlit("kubectl get ");
    let v = storage::claim_pending(c, users, events);
    assert(v.id.subrange(0, 8) =~= "storage-"@);
    assert(v.commands[0].subrange(0, 17) =~= "kubectl describe "@);
    assert(read_only(v.commands[0]));
    if v.commands.len() > 1 {
        assert(v.commands[1].subrange(0, 12) =~= "kubectl get "@);
        assert(read_only(v.commands[1]));
    }
}

broadcast proof fn storage_mount_failed(
    key: Seq<char>,
    config: bool,
    p: PodInfo,
    msg: Seq<char>,
    names: Seq<Seq<char>>,
)
    ensures
        sound(#[trigger] storage::mount_failed(key, config, p, msg, names)),
{
    reveal_strlit("config-missing");
    reveal_strlit("storage-mount-failed");
    reveal_strlit("config-");
    reveal_strlit("storage-");
    reveal_strlit("kubectl describe pod ");
    reveal_strlit("kubectl describe ");
    let v = storage::mount_failed(key, config, p, msg, names);
    if config {
        assert(v.id.subrange(0, 7) =~= "config-"@);
    } else {
        assert(v.id.subrange(0, 8) =~= "storage-"@);
    }
    assert(v.commands[0].subrange(0, 17) =~= "kubectl describe "@);
    assert(read_only(v.commands[0]));
}

broadcast proof fn targets_no_targets(h: LbHealth, t: TargetGroupHealth)
    ensures
        sound(#[trigger] targets::no_targets(h, t)),
{
    reveal_strlit("lb-no-targets:");
    reveal_strlit("lb-");
    reveal_strlit("aws elbv2 describe-target-health --target-group-arn $(aws elbv2 describe-target-groups --names ");
    reveal_strlit("aws elbv2 describe-");
    let v = targets::no_targets(h, t);
    assert(v.id.subrange(0, 3) =~= "lb-"@);
    assert(v.commands[0].subrange(0, 19) =~= "aws elbv2 describe-"@);
    assert(read_only(v.commands[0]));
}

broadcast proof fn targets_unhealthy(g: ClusterGraph, h: LbHealth, t: TargetGroupHealth)
    ensures
        sound(#[trigger] targets::unhealthy(g, h, t)),
{
    reveal_strlit("lb-targets-unhealthy:");
    reveal_strlit("lb-");
    reveal_strlit("aws elbv2 describe-target-health --target-group-arn $(aws elbv2 describe-target-groups --names ");
    reveal_strlit("aws elbv2 describe-");
    let v = targets::unhealthy(g, h, t);
    assert(v.id.subrange(0, 3) =~= "lb-"@);
    assert(v.commands[0].subrange(0, 19) =~= "aws elbv2 describe-"@);
    assert(read_only(v.commands[0]));
}

broadcast proof fn targets_stale_targets(h: LbHealth, t: TargetGroupHealth)
    ensures
        sound(#[trigger] targets::stale_targets(h, t)),
{
    reveal_strlit("lb-stale-targets:");
    reveal_strlit("lb-");
    reveal_strlit("aws elbv2 describe-target-health --target-group-arn $(aws elbv2 describe-target-groups --names ");
    reveal_strlit("aws elbv2 describe-");
    let v = targets::stale_targets(h, t);
    assert(v.id.subrange(0, 3) =~= "lb-"@);
    assert(v.commands[0].subrange(0, 19) =~= "aws elbv2 describe-"@);
    assert(read_only(v.commands[0]));
}

broadcast proof fn targets_gce_unhealthy(ing: IngressInfo, lines: Seq<Seq<char>>)
    ensures
        sound(#[trigger] targets::gce_unhealthy(ing, lines)),
{
    reveal_strlit("lb-gce-unhealthy:");
    reveal_strlit("lb-");
    reveal_strlit("kubectl describe ingress ");
    reveal_strlit("kubectl describe ");
    let v = targets::gce_unhealthy(ing, lines);
    assert(v.id.subrange(0, 3) =~= "lb-"@);
    assert(v.commands[0].subrange(0, 17) =~= "kubectl describe "@);
    assert(read_only(v.commands[0]));
}

broadcast proof fn workload_unavailable(w: WorkloadInfo, kind: Seq<char>)
    ensures
        sound(#[trigger] workload::unavailable(w, kind)),
{
    reveal_strlit("workload-unavailable:");
    reveal_strlit("workload-");
    reveal_strlit("kubectl rollout status ");
    let v = workload::unavailable(w, kind);
    assert(v.id.subrange(0, 9) =~= "workload-"@);
    assert(v.commands[0].subrange(0, 23) =~= "kubectl rollout status "@);
    assert(read_only(v.commands[0]));
}

broadcast proof fn all_admission_refusal_issue(g: ClusterGraph, i: int)
    ensures
        all_sound(#[trigger] admission::refusal_issue(g, i)),
{
    broadcast use {admission_creation_refused};

}

broadcast proof fn all_admission_refusal_issues(g: ClusterGraph, n: int)
    ensures
        all_sound(#[trigger] admission::refusal_issues(g, n)),
    decreases n,
{
    broadcast use {all_admission_refusal_issue};

    if n > 0 {
        all_admission_refusal_issues(g, n - 1);
    }
}

broadcast proof fn all_balancer_balancer_issue(g: ClusterGraph, s: ServiceInfo)
    ensures
        all_sound(#[trigger] balancer::balancer_issue(g, s)),
{
    broadcast use {balancer_lb_failed, balancer_lb_pending};

}

broadcast proof fn all_balancer_balancer_issues(g: ClusterGraph, n: int)
    ensures
        all_sound(#[trigger] balancer::balancer_issues(g, n)),
    decreases n,
{
    broadcast use {all_balancer_balancer_issue};

    if n > 0 {
        all_balancer_balancer_issues(g, n - 1);
    }
}

broadcast proof fn cni_agent_issue(g: ClusterGraph, w: WorkloadInfo)
    ensures
        sound(#[trigger] cni::agent_issue(g, w)),
{
    broadcast use {cni_agent_unready};

}

broadcast proof fn all_cni_agent_issues(g: ClusterGraph, n: int)
    ensures
        all_sound(#[trigger] cni::agent_issues(g, n)),
    decreases n,
{
    broadcast use {cni_agent_issue};

    if n > 0 {
        all_cni_agent_issues(g, n - 1);
    }
}

broadcast proof fn all_cni_node_issues(g: ClusterGraph, n: int)
    ensures
        all_sound(#[trigger] cni::node_issues(g, n)),
    decreases n,
{
    broadcast use {cni_node_network};

    if n > 0 {
        all_cni_node_issues(g, n - 1);
    }
}

broadcast proof fn all_cni_sandbox_issue(g: ClusterGraph, why: Sandbox, node: Seq<char>)
    ensures
        all_sound(#[trigger] cni::sandbox_issue(g, why, node)),
{
    broadcast use {cni_no_address, cni_setup_failed};

}

broadcast proof fn all_cni_sandbox_issues(g: ClusterGraph, why: Sandbox)
    ensures
        all_sound(#[trigger] cni::sandbox_issues(g, why)),
{
    broadcast use {all_cni_sandbox_issue};

    let keys = cni::failing_nodes(g, why, g.events@.len() as int);
    let f = |k: int| cni::sandbox_issue(g, why, keys[k]);
    lemma_each(keys.len() as int, f);
}

broadcast proof fn all_cni_cni_issues(g: ClusterGraph)
    ensures
        all_sound(#[trigger] cni::cni_issues(g)),
{
    broadcast use {all_cni_agent_issues, all_cni_node_issues, all_cni_sandbox_issues};

}

broadcast proof fn all_dns_dns_weaknesses(g: ClusterGraph)
    ensures
        all_sound(#[trigger] dns::dns_weaknesses(g)),
{
    broadcast use {dns_dns_config, dns_dns_degraded};

}

broadcast proof fn all_dns_dns_issues(g: ClusterGraph)
    ensures
        all_sound(#[trigger] dns::dns_issues(g)),
{
    broadcast use {dns_dns_down, all_dns_dns_weaknesses};

}

broadcast proof fn all_entry_ingress_issues(g: ClusterGraph, ing: IngressInfo)
    ensures
        all_sound(#[trigger] entry::ingress_issues(g, ing)),
{
    broadcast use {entry_missing_backend};

    let keys = entry::missing_backends(g, ing, ing.routes@.len() as int);
    let f = |k: int| seq![entry::missing_backend(g, ing, keys[k])];
    lemma_each(keys.len() as int, f);
}

broadcast proof fn all_entry_entry_issues(g: ClusterGraph, n: int)
    ensures
        all_sound(#[trigger] entry::entry_issues(g, n)),
    decreases n,
{
    broadcast use {all_entry_ingress_issues};

    if n > 0 {
        all_entry_entry_issues(g, n - 1);
    }
}

broadcast proof fn all_eviction_evicted_of(g: ClusterGraph, key: Seq<char>)
    ensures
        all_sound(#[trigger] eviction::evicted_of(g, key)),
{
    broadcast use {eviction_evicted_pods};

}

broadcast proof fn all_eviction_evicted_issues(g: ClusterGraph)
    ensures
        all_sound(#[trigger] eviction::evicted_issues(g)),
{
    broadcast use {all_eviction_evicted_of};

    let keys = eviction::evicted_owners(g, g.pods@.len() as int);
    let f = |k: int| eviction::evicted_of(g, keys[k]);
    lemma_each(keys.len() as int, f);
}

broadcast proof fn all_hpa_hpa_issue(h: HpaInfo)
    ensures
        all_sound(#[trigger] hpa::hpa_issue(h)),
{
    broadcast use {hpa_at_max, hpa_no_metrics, hpa_unable};

}

broadcast proof fn all_hpa_hpa_issues(g: ClusterGraph, n: int)
    ensures
        all_sound(#[trigger] hpa::hpa_issues(g, n)),
    decreases n,
{
    broadcast use {all_hpa_hpa_issue};

    if n > 0 {
        all_hpa_hpa_issues(g, n - 1);
    }
}

broadcast proof fn all_ingress_class_issue(g: ClusterGraph, ing: IngressInfo)
    ensures
        all_sound(#[trigger] ingress::class_issue(g, ing)),
{
    broadcast use {ingress_class_missing, ingress_class_none};

}

broadcast proof fn all_ingress_tls_issues(known: Seq<Seq<char>>, ing: IngressInfo, n: int)
    ensures
        all_sound(#[trigger] ingress::tls_issues(known, ing, n)),
    decreases n,
{
    broadcast use {ingress_tls_missing};

    if n > 0 {
        all_ingress_tls_issues(known, ing, n - 1);
    }
}

broadcast proof fn all_ingress_setup_issue(g: ClusterGraph, ing: IngressInfo)
    ensures
        all_sound(#[trigger] ingress::setup_issue(g, ing)),
{
    broadcast use {all_ingress_class_issue, ingress_no_address, all_ingress_tls_issues};

}

broadcast proof fn all_ingress_setup_issues(g: ClusterGraph, n: int)
    ensures
        all_sound(#[trigger] ingress::setup_issues(g, n)),
    decreases n,
{
    broadcast use {all_ingress_setup_issue};

    if n > 0 {
        all_ingress_setup_issues(g, n - 1);
    }
}

broadcast proof fn all_mesh_bare_of(g: ClusterGraph, key: Seq<char>)
    ensures
        all_sound(#[trigger] mesh::bare_of(g, key)),
{
    broadcast use {mesh_no_sidecar};

}

broadcast proof fn all_mesh_bare_issues(g: ClusterGraph)
    ensures
        all_sound(#[trigger] mesh::bare_issues(g)),
{
    broadcast use {all_mesh_bare_of};

    let keys = mesh::bare_owners(g, g.pods@.len() as int);
    let f = |k: int| mesh::bare_of(g, keys[k]);
    lemma_each(keys.len() as int, f);
}

broadcast proof fn all_mesh_subset_issue(
    g: ClusterGraph,
    vs: VirtualServiceInfo,
    host: Seq<char>,
    sub: Seq<char>,
    s: ServiceInfo,
    to: (Seq<char>, Seq<char>),
)
    ensures
        all_sound(#[trigger] mesh::subset_issue(g, vs, host, sub, s, to)),
{
    broadcast use {mesh_subset_empty, mesh_subset_missing};

}

broadcast proof fn all_mesh_destination_issue(g: ClusterGraph, vs: VirtualServiceInfo, j: int)
    ensures
        all_sound(#[trigger] mesh::destination_issue(g, vs, j)),
{
    broadcast use {mesh_dest_missing, all_mesh_subset_issue};

}

broadcast proof fn all_mesh_destination_issues(g: ClusterGraph, vs: VirtualServiceInfo, n: int)
    ensures
        all_sound(#[trigger] mesh::destination_issues(g, vs, n)),
    decreases n,
{
    broadcast use {all_mesh_destination_issue};

    if n > 0 {
        all_mesh_destination_issues(g, vs, n - 1);
    }
}

broadcast proof fn all_mesh_virtual_issues(g: ClusterGraph, n: int)
    ensures
        all_sound(#[trigger] mesh::virtual_issues(g, n)),
    decreases n,
{
    broadcast use {all_mesh_destination_issues};

    if n > 0 {
        all_mesh_virtual_issues(g, n - 1);
    }
}

broadcast proof fn all_mesh_mesh_issues(g: ClusterGraph)
    ensures
        all_sound(#[trigger] mesh::mesh_issues(g)),
{
    broadcast use {all_mesh_bare_issues, all_mesh_virtual_issues};

}

broadcast proof fn all_network_port_issue(g: ClusterGraph, s: ServiceInfo, sp: ServicePortInfo)
    ensures
        all_sound(#[trigger] network::port_issue(g, s, sp)),
{
    broadcast use {network_port_blocked, network_port_restricted};

}

broadcast proof fn all_network_ports_issues(g: ClusterGraph, s: ServiceInfo, n: int)
    ensures
        all_sound(#[trigger] network::ports_issues(g, s, n)),
    decreases n,
{
    broadcast use {all_network_port_issue};

    if n > 0 {
        all_network_ports_issues(g, s, n - 1);
    }
}

broadcast proof fn all_network_inbound_issues(g: ClusterGraph, n: int)
    ensures
        all_sound(#[trigger] network::inbound_issues(g, n)),
    decreases n,
{
    broadcast use {all_network_ports_issues};

    if n > 0 {
        all_network_inbound_issues(g, n - 1);
    }
}

broadcast proof fn all_network_outbound_of(g: ClusterGraph, key: Seq<char>)
    ensures
        all_sound(#[trigger] network::outbound_of(g, key)),
{
    broadcast use {network_dns_blocked};

}

broadcast proof fn all_network_outbound_issues(g: ClusterGraph)
    ensures
        all_sound(#[trigger] network::outbound_issues(g)),
{
    broadcast use {all_network_outbound_of};

    let keys = network::outbound_owners(g, g.pods@.len() as int);
    let f = |k: int| network::outbound_of(g, keys[k]);
    lemma_each(keys.len() as int, f);
}

broadcast proof fn all_network_policy_issues(g: ClusterGraph)
    ensures
        all_sound(#[trigger] network::policy_issues(g)),
{
    broadcast use {all_network_inbound_issues, all_network_outbound_issues};

}

broadcast proof fn all_node_node_issue(g: ClusterGraph, n: NodeInfo)
    ensures
        all_sound(#[trigger] node::node_issue(g, n)),
{
    broadcast use {node_cordoned, node_not_ready, node_under_pressure};

}

broadcast proof fn all_node_node_issues(g: ClusterGraph, n: int)
    ensures
        all_sound(#[trigger] node::node_issues(g, n)),
    decreases n,
{
    broadcast use {all_node_node_issue};

    if n > 0 {
        all_node_node_issues(g, n - 1);
    }
}

broadcast proof fn pod_group_issue(g: ClusterGraph, key: Seq<char>, f: PodFinding, i: int)
    ensures
        sound(#[trigger] pod::group_issue(g, key, f, i)),
{
    broadcast use {
        pod_config_error,
        pod_crash_loop,
        pod_image_pull,
        pod_not_ready,
        pod_oom,
        pod_unschedulable,
    };

}

broadcast proof fn all_pod_group_issues(g: ClusterGraph, key: Seq<char>, f: PodFinding)
    ensures
        all_sound(#[trigger] pod::group_issues(g, key, f)),
{
    broadcast use {pod_group_issue};

}

broadcast proof fn all_pod_owner_issues(g: ClusterGraph, key: Seq<char>)
    ensures
        all_sound(#[trigger] pod::owner_issues(g, key)),
{
    broadcast use {all_pod_group_issues};

}

broadcast proof fn all_pod_pod_issues(g: ClusterGraph)
    ensures
        all_sound(#[trigger] pod::pod_issues(g)),
{
    broadcast use {all_pod_owner_issues};

    let keys = pod::owners(g, g.pods@.len() as int);
    let f = |k: int| pod::owner_issues(g, keys[k]);
    lemma_each(keys.len() as int, f);
}

broadcast proof fn all_ports_target_issue(
    g: ClusterGraph,
    s: ServiceInfo,
    p: PodInfo,
    sp: ServicePortInfo,
)
    ensures
        all_sound(#[trigger] ports::target_issue(g, s, p, sp)),
{
    broadcast use {ports_name_undefined, ports_port_mismatch};

}

broadcast proof fn all_ports_targets_issues(g: ClusterGraph, s: ServiceInfo, p: PodInfo, n: int)
    ensures
        all_sound(#[trigger] ports::targets_issues(g, s, p, n)),
    decreases n,
{
    broadcast use {all_ports_target_issue};

    if n > 0 {
        all_ports_targets_issues(g, s, p, n - 1);
    }
}

broadcast proof fn all_ports_service_ports(g: ClusterGraph, s: ServiceInfo)
    ensures
        all_sound(#[trigger] ports::service_ports(g, s)),
{
    broadcast use {all_ports_targets_issues};

}

broadcast proof fn all_ports_service_port_issues(g: ClusterGraph, n: int)
    ensures
        all_sound(#[trigger] ports::service_port_issues(g, n)),
    decreases n,
{
    broadcast use {all_ports_service_ports};

    if n > 0 {
        all_ports_service_port_issues(g, n - 1);
    }
}

broadcast proof fn all_probes_port_issue(
    w: WorkloadInfo,
    kind: Seq<char>,
    c: ContainerSpecInfo,
    pr: ProbeInfo,
)
    ensures
        all_sound(#[trigger] probes::port_issue(w, kind, c, pr)),
{
    broadcast use {probes_port_undefined};

}

broadcast proof fn all_probes_ports_issues(
    w: WorkloadInfo,
    kind: Seq<char>,
    c: ContainerSpecInfo,
    n: int,
)
    ensures
        all_sound(#[trigger] probes::ports_issues(w, kind, c, n)),
    decreases n,
{
    broadcast use {all_probes_port_issue};

    if n > 0 {
        all_probes_ports_issues(w, kind, c, n - 1);
    }
}

broadcast proof fn all_probes_timeout_issue(
    g: ClusterGraph,
    w: WorkloadInfo,
    kind: Seq<char>,
    c: ContainerSpecInfo,
)
    ensures
        all_sound(#[trigger] probes::timeout_issue(g, w, kind, c)),
{
    broadcast use {probes_probe_timeout};

}

broadcast proof fn all_probes_liveness_issue(
    g: ClusterGraph,
    w: WorkloadInfo,
    kind: Seq<char>,
    c: ContainerSpecInfo,
)
    ensures
        all_sound(#[trigger] probes::liveness_issue(g, w, kind, c)),
{
    broadcast use {probes_equal_probes, probes_no_startup};

}

broadcast proof fn all_probes_container_issue(
    g: ClusterGraph,
    w: WorkloadInfo,
    kind: Seq<char>,
    c: ContainerSpecInfo,
)
    ensures
        all_sound(#[trigger] probes::container_issue(g, w, kind, c)),
{
    broadcast use {all_probes_liveness_issue, all_probes_ports_issues, all_probes_timeout_issue};

}

broadcast proof fn all_probes_workload_probes(
    g: ClusterGraph,
    w: WorkloadInfo,
    kind: Seq<char>,
    n: int,
)
    ensures
        all_sound(#[trigger] probes::workload_probes(g, w, kind, n)),
    decreases n,
{
    broadcast use {all_probes_container_issue};

    if n > 0 {
        all_probes_workload_probes(g, w, kind, n - 1);
    }
}

broadcast proof fn all_probes_probe_issues(g: ClusterGraph, n: int)
    ensures
        all_sound(#[trigger] probes::probe_issues(g, n)),
    decreases n,
{
    broadcast use {all_probes_workload_probes};

    if n > 0 {
        all_probes_probe_issues(g, n - 1);
    }
}

broadcast proof fn all_service_service_issue(
    g: ClusterGraph,
    s: ServiceInfo,
    flagged: Seq<Seq<char>>,
)
    ensures
        all_sound(#[trigger] service::service_issue(g, s, flagged)),
{
    broadcast use {service_no_match, service_no_ready, service_scaled_to_zero};

}

broadcast proof fn all_service_service_issues(g: ClusterGraph, flagged: Seq<Seq<char>>, n: int)
    ensures
        all_sound(#[trigger] service::service_issues(g, flagged, n)),
    decreases n,
{
    broadcast use {all_service_service_issue};

    if n > 0 {
        all_service_service_issues(g, flagged, n - 1);
    }
}

broadcast proof fn storage_claim_issue(g: ClusterGraph, c: PvcInfo)
    ensures
        sound(#[trigger] storage::claim_issue(g, c)),
{
    broadcast use {storage_claim_pending};

}

broadcast proof fn all_storage_claim_issues(g: ClusterGraph, n: int)
    ensures
        all_sound(#[trigger] storage::claim_issues(g, n)),
    decreases n,
{
    broadcast use {storage_claim_issue};

    if n > 0 {
        all_storage_claim_issues(g, n - 1);
    }
}

broadcast proof fn all_storage_mount_issue(g: ClusterGraph, key: Seq<char>, config: bool)
    ensures
        all_sound(#[trigger] storage::mount_issue(g, key, config)),
{
    broadcast use {storage_mount_failed};

}

broadcast proof fn all_storage_owner_mounts(g: ClusterGraph, key: Seq<char>)
    ensures
        all_sound(#[trigger] storage::owner_mounts(g, key)),
{
    broadcast use {all_storage_mount_issue};

}

broadcast proof fn all_storage_mount_issues(g: ClusterGraph)
    ensures
        all_sound(#[trigger] storage::mount_issues(g)),
{
    broadcast use {all_storage_owner_mounts};

    let keys = storage::stuck_owners(g, g.events@.len() as int);
    let f = |k: int| storage::owner_mounts(g, keys[k]);
    lemma_each(keys.len() as int, f);
}

broadcast proof fn all_storage_storage_issues(g: ClusterGraph)
    ensures
        all_sound(#[trigger] storage::storage_issues(g)),
{
    broadcast use {all_storage_claim_issues, all_storage_mount_issues};

}

broadcast proof fn all_targets_group_issue(g: ClusterGraph, h: LbHealth, t: TargetGroupHealth)
    ensures
        all_sound(#[trigger] targets::group_issue(g, h, t)),
{
    broadcast use {targets_no_targets, targets_stale_targets, targets_unhealthy};

}

broadcast proof fn all_targets_health_issues(g: ClusterGraph, h: LbHealth, n: int)
    ensures
        all_sound(#[trigger] targets::health_issues(g, h, n)),
    decreases n,
{
    broadcast use {all_targets_group_issue};

    if n > 0 {
        all_targets_health_issues(g, h, n - 1);
    }
}

broadcast proof fn all_targets_cloud_issues(g: ClusterGraph, n: int)
    ensures
        all_sound(#[trigger] targets::cloud_issues(g, n)),
    decreases n,
{
    broadcast use {all_targets_health_issues};

    if n > 0 {
        all_targets_cloud_issues(g, n - 1);
    }
}

broadcast proof fn all_targets_gce_issue(ing: IngressInfo)
    ensures
        all_sound(#[trigger] targets::gce_issue(ing)),
{
    broadcast use {targets_gce_unhealthy};

}

broadcast proof fn all_targets_gce_issues(g: ClusterGraph, n: int)
    ensures
        all_sound(#[trigger] targets::gce_issues(g, n)),
    decreases n,
{
    broadcast use {all_targets_gce_issue};

    if n > 0 {
        all_targets_gce_issues(g, n - 1);
    }
}

broadcast proof fn all_targets_lb_target_issues(g: ClusterGraph)
    ensures
        all_sound(#[trigger] targets::lb_target_issues(g)),
{
    broadcast use {all_targets_cloud_issues, all_targets_gce_issues};

}

broadcast proof fn all_workload_workload_issue(
    g: ClusterGraph,
    w: WorkloadInfo,
    flagged: Seq<Seq<char>>,
)
    ensures
        all_sound(#[trigger] workload::workload_issue(g, w, flagged)),
{
    broadcast use {workload_unavailable};

}

broadcast proof fn all_workload_workload_issues(g: ClusterGraph, flagged: Seq<Seq<char>>, n: int)
    ensures
        all_sound(#[trigger] workload::workload_issues(g, flagged, n)),
    decreases n,
{
    broadcast use {all_workload_workload_issue};

    if n > 0 {
        all_workload_workload_issues(g, flagged, n - 1);
    }
}

proof fn lemma_join(a: Seq<IssueView>, b: Seq<IssueView>)
    requires
        all_sound(a),
        all_sound(b),
    ensures
        all_sound(a + b),
{
}

proof fn all_extended(g: ClusterGraph)
    ensures
        all_sound(extended::extended_issues(g)),
{
    broadcast use {
        all_network_policy_issues,
        all_dns_dns_issues,
        all_ingress_setup_issues,
        all_balancer_balancer_issues,
        all_ports_service_port_issues,
        all_storage_storage_issues,
        all_admission_refusal_issues,
        all_hpa_hpa_issues,
        all_eviction_evicted_issues,
        all_mesh_mesh_issues,
        all_targets_lb_target_issues,
        all_cni_cni_issues,
        all_probes_probe_issues,
    };

    assert(all_sound(extended::traffic_issues(g)));
    assert(all_sound(extended::supply_issues(g)));
    assert(all_sound(extended::fabric_issues(g)));
}

proof fn lemma_in_order(s: Seq<IssueView>)
    requires
        all_sound(s),
    ensures
        all_sound(diagnose::in_order(s)),
{
    broadcast use vstd::seq_lib::group_to_multiset_ensures;

    diagnose::ordering_keeps_every_issue(s);
    let r = diagnose::in_order(s);
    assert forall|k: int| 0 <= k < r.len() implies sound(#[trigger] r[k]) by {
        assert(r.contains(r[k]));
        assert(r.to_multiset().count(r[k]) > 0);
        assert(s.contains(r[k]));
    }
}

/// Every issue of a diagnosis is filed under the category that its id stands
/// for, none under `Other`, and each comes with commands with which the user can
/// confirm it, all of which only look.
pub proof fn every_issue_is_filed_and_can_be_checked(g: ClusterGraph)
    ensures
        all_sound(diagnose::diagnosis(g)),
{
    let flagged = pod::flagged(g, g.pods@.len() as int);
    let a = entry::entry_issues(g, g.ingresses@.len() as int);
    let b = pod::pod_issues(g);
    let c = service::service_issues(g, flagged, g.services@.len() as int);
    let d = node::node_issues(g, g.nodes@.len() as int);
    let e = workload::workload_issues(g, flagged, g.workloads@.len() as int);
    let f = extended::extended_issues(g);
    all_entry_entry_issues(g, g.ingresses@.len() as int);
    all_pod_pod_issues(g);
    all_service_service_issues(g, flagged, g.services@.len() as int);
    all_node_node_issues(g, g.nodes@.len() as int);
    all_workload_workload_issues(g, flagged, g.workloads@.len() as int);
    all_extended(g);
    lemma_join(a, b);
    lemma_join(a + b, c);
    lemma_join(a + b + c, d);
    lemma_join(a + b + c + d, e);
    lemma_join(a + b + c + d + e, f);
    lemma_in_order(diagnose::found(g));
}

} // verus!
