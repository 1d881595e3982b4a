//! What a diagnosis depends on: the cluster, and not the issues that a graph
//! holds already.

use crate::diagnose;
use crate::extended;
use crate::model::{
    ClusterGraph, ContainerStatusInfo, EventInfo, IngressInfo, LbHealth, PodInfo, ServiceInfo,
    ServicePortInfo, TargetGroupHealth, VirtualServiceInfo, WorkloadInfo,
};
use crate::pick;
use crate::rules::admission;
use crate::rules::admission::Refusal;
use crate::rules::balancer;
use crate::rules::cni;
use crate::rules::cni::Sandbox;
use crate::rules::entry;
use crate::rules::eviction;
use crate::rules::ingress;
use crate::rules::mesh;
use crate::rules::network;
use crate::rules::node;
use crate::rules::pod;
use crate::rules::pod::PodFinding;
use crate::rules::ports;
use crate::rules::probes;
use crate::rules::service;
use crate::rules::storage;
use crate::rules::targets;
use crate::rules::workload;
use vstd::prelude::*;

verus! {

/// Are the graphs the same but for the issues that they hold?
pub open spec fn alike(g: ClusterGraph, h: ClusterGraph) -> bool {
    h == ClusterGraph { issues: h.issues, ..g }
}

proof fn lemma_same_parts<A>(n: int, a: spec_fn(int) -> Seq<A>, b: spec_fn(int) -> Seq<A>)
    requires
        forall|i: int| #[trigger] a(i) == b(i),
    ensures
        pick::gather(n, a) == pick::gather(n, b),
    decreases n,
{
    if n > 0 {
        lemma_same_parts(n - 1, a, b);
        assert(a(n - 1) == b(n - 1));
    }
}

broadcast proof fn same_admission_longest(g: ClusterGraph, h: ClusterGraph, e: EventInfo, n: int)
    requires
        #[trigger] alike(g, h),
    ensures
        #[trigger] admission::longest(g, e, n) == admission::longest(h, e, n),
    decreases n,
{
    if n > 0 {
        same_admission_longest(g, h, e, n - 1);
    }
}

broadcast proof fn same_admission_told_before(
    g: ClusterGraph,
    h: ClusterGraph,
    r: Option<Refusal>,
    owner: Seq<char>,
    n: int,
)
    requires
        #[trigger] alike(g, h),
    ensures
        #[trigger] admission::told_before(g, r, owner, n) == admission::told_before(h, r, owner, n),
    decreases n,
{
    broadcast use {same_admission_longest};

    if n > 0 {
        same_admission_told_before(g, h, r, owner, n - 1);
    }
}

broadcast proof fn same_admission_refusal_issues(g: ClusterGraph, h: ClusterGraph, n: int)
    requires
        #[trigger] alike(g, h),
    ensures
        #[trigger] admission::refusal_issues(g, n) == admission::refusal_issues(h, n),
    decreases n,
{
    broadcast use {same_admission_longest, same_admission_told_before};

    if n > 0 {
        same_admission_refusal_issues(g, h, n - 1);
    }
}

broadcast proof fn same_balancer_failure(g: ClusterGraph, h: ClusterGraph, s: ServiceInfo, n: int)
    requires
        #[trigger] alike(g, h),
    ensures
        #[trigger] balancer::failure(g, s, n) == balancer::failure(h, s, n),
    decreases n,
{
    if n > 0 {
        same_balancer_failure(g, h, s, n - 1);
    }
}

broadcast proof fn same_balancer_failures(g: ClusterGraph, h: ClusterGraph, s: ServiceInfo, n: int)
    requires
        #[trigger] alike(g, h),
    ensures
        #[trigger] balancer::failures(g, s, n) == balancer::failures(h, s, n),
    decreases n,
{
    if n > 0 {
        same_balancer_failures(g, h, s, n - 1);
    }
}

broadcast proof fn same_balancer_balancer_issues(g: ClusterGraph, h: ClusterGraph, n: int)
    requires
        #[trigger] alike(g, h),
    ensures
        #[trigger] balancer::balancer_issues(g, n) == balancer::balancer_issues(h, n),
    decreases n,
{
    broadcast use {same_balancer_failure, same_balancer_failures};

    if n > 0 {
        same_balancer_balancer_issues(g, h, n - 1);
    }
}

broadcast proof fn same_cni_affected(
    g: ClusterGraph,
    h: ClusterGraph,
    nodes: Seq<Seq<char>>,
    n: int,
)
    requires
        #[trigger] alike(g, h),
    ensures
        #[trigger] cni::affected(g, nodes, n) == cni::affected(h, nodes, n),
    decreases n,
{
    if n > 0 {
        same_cni_affected(g, h, nodes, n - 1);
    }
}

broadcast proof fn same_cni_agent_issues(g: ClusterGraph, h: ClusterGraph, n: int)
    requires
        #[trigger] alike(g, h),
    ensures
        #[trigger] cni::agent_issues(g, n) == cni::agent_issues(h, n),
    decreases n,
{
    broadcast use {same_cni_affected};

    if n > 0 {
        same_cni_agent_issues(g, h, n - 1);
    }
}

broadcast proof fn same_cni_failing_nodes(g: ClusterGraph, h: ClusterGraph, why: Sandbox, n: int)
    requires
        #[trigger] alike(g, h),
    ensures
        #[trigger] cni::failing_nodes(g, why, n) == cni::failing_nodes(h, why, n),
    decreases n,
{
    if n > 0 {
        same_cni_failing_nodes(g, h, why, n - 1);
    }
}

broadcast proof fn same_cni_failing_pods(
    g: ClusterGraph,
    h: ClusterGraph,
    why: Sandbox,
    node: Seq<char>,
    n: int,
)
    requires
        #[trigger] alike(g, h),
    ensures
        #[trigger] cni::failing_pods(g, why, node, n) == cni::failing_pods(h, why, node, n),
    decreases n,
{
    if n > 0 {
        same_cni_failing_pods(g, h, why, node, n - 1);
    }
}

broadcast proof fn same_cni_first_failure(
    g: ClusterGraph,
    h: ClusterGraph,
    why: Sandbox,
    node: Seq<char>,
    n: int,
)
    requires
        #[trigger] alike(g, h),
    ensures
        #[trigger] cni::first_failure(g, why, node, n) == cni::first_failure(h, why, node, n),
    decreases n,
{
    if n > 0 {
        same_cni_first_failure(g, h, why, node, n - 1);
    }
}

broadcast proof fn same_cni_sandbox_issues(g: ClusterGraph, h: ClusterGraph, why: Sandbox)
    requires
        #[trigger] alike(g, h),
    ensures
        #[trigger] cni::sandbox_issues(g, why) == cni::sandbox_issues(h, why),
{
    broadcast use {same_cni_failing_nodes, same_cni_failing_pods, same_cni_first_failure};

    let keys = cni::failing_nodes(g, why, g.events@.len() as int);
    assert(cni::failing_nodes(h, why, h.events@.len() as int) == keys);
    let a = |k: int| cni::sandbox_issue(g, why, keys[k]);
    let b = |k: int| cni::sandbox_issue(h, why, keys[k]);
    assert forall|k: int| #[trigger] a(k) == b(k) by {}
    lemma_same_parts(keys.len() as int, a, b);
}

broadcast proof fn same_entry_missing_backends(
    g: ClusterGraph,
    h: ClusterGraph,
    ing: IngressInfo,
    n: int,
)
    requires
        #[trigger] alike(g, h),
    ensures
        #[trigger] entry::missing_backends(g, ing, n) == entry::missing_backends(h, ing, n),
    decreases n,
{
    if n > 0 {
        same_entry_missing_backends(g, h, ing, n - 1);
    }
}

broadcast proof fn same_entry_routes_to(
    g: ClusterGraph,
    h: ClusterGraph,
    ing: IngressInfo,
    svc: Seq<char>,
    n: int,
)
    requires
        #[trigger] alike(g, h),
    ensures
        #[trigger] entry::routes_to(g, ing, svc, n) == entry::routes_to(h, ing, svc, n),
    decreases n,
{
    if n > 0 {
        same_entry_routes_to(g, h, ing, svc, n - 1);
    }
}

broadcast proof fn same_entry_ingress_issues(g: ClusterGraph, h: ClusterGraph, ing: IngressInfo)
    requires
        #[trigger] alike(g, h),
    ensures
        #[trigger] entry::ingress_issues(g, ing) == entry::ingress_issues(h, ing),
{
    broadcast use {same_entry_missing_backends, same_entry_routes_to};

    let keys = entry::missing_backends(g, ing, ing.routes@.len() as int);
    assert(entry::missing_backends(h, ing, ing.routes@.len() as int) == keys);
    let a = |k: int| seq![entry::missing_backend(g, ing, keys[k])];
    let b = |k: int| seq![entry::missing_backend(h, ing, keys[k])];
    assert forall|k: int| #[trigger] a(k) == b(k) by {}
    lemma_same_parts(keys.len() as int, a, b);
}

broadcast proof fn same_entry_entry_issues(g: ClusterGraph, h: ClusterGraph, n: int)
    requires
        #[trigger] alike(g, h),
    ensures
        #[trigger] entry::entry_issues(g, n) == entry::entry_issues(h, n),
    decreases n,
{
    broadcast use {same_entry_ingress_issues};

    if n > 0 {
        same_entry_entry_issues(g, h, n - 1);
    }
}

broadcast proof fn same_eviction_evicted_issues(g: ClusterGraph, h: ClusterGraph)
    requires
        #[trigger] alike(g, h),
    ensures
        #[trigger] eviction::evicted_issues(g) == eviction::evicted_issues(h),
{
    let keys = eviction::evicted_owners(g, g.pods@.len() as int);
    assert(eviction::evicted_owners(h, h.pods@.len() as int) == keys);
    let a = |k: int| eviction::evicted_of(g, keys[k]);
    let b = |k: int| eviction::evicted_of(h, keys[k]);
    assert forall|k: int| #[trigger] a(k) == b(k) by {}
    lemma_same_parts(keys.len() as int, a, b);
}

broadcast proof fn same_ingress_all_broken(
    g: ClusterGraph,
    h: ClusterGraph,
    ing: IngressInfo,
    n: int,
)
    requires
        #[trigger] alike(g, h),
    ensures
        #[trigger] ingress::all_broken(g, ing, n) == ingress::all_broken(h, ing, n),
{
    assert forall|j: int| #[trigger]
        entry::route_broken(g, ing, j) == entry::route_broken(h, ing, j) by {}
    assert forall|j: int| #[trigger]
        entry::route_broken(h, ing, j) == entry::route_broken(g, ing, j) by {}
}

broadcast proof fn same_ingress_setup_issues(g: ClusterGraph, h: ClusterGraph, n: int)
    requires
        #[trigger] alike(g, h),
    ensures
        #[trigger] ingress::setup_issues(g, n) == ingress::setup_issues(h, n),
    decreases n,
{
    broadcast use {same_ingress_all_broken};

    if n > 0 {
        same_ingress_setup_issues(g, h, n - 1);
    }
}

broadcast proof fn same_mesh_injected(g: ClusterGraph, h: ClusterGraph, ns: Seq<char>, n: int)
    requires
        #[trigger] alike(g, h),
    ensures
        #[trigger] mesh::injected(g, ns, n) == mesh::injected(h, ns, n),
    decreases n,
{
    if n > 0 {
        same_mesh_injected(g, h, ns, n - 1);
    }
}

broadcast proof fn same_mesh_bare_first(g: ClusterGraph, h: ClusterGraph, key: Seq<char>, n: int)
    requires
        #[trigger] alike(g, h),
    ensures
        #[trigger] mesh::bare_first(g, key, n) == mesh::bare_first(h, key, n),
    decreases n,
{
    broadcast use {same_mesh_injected};

    if n > 0 {
        same_mesh_bare_first(g, h, key, n - 1);
    }
}

broadcast proof fn same_mesh_bare_names(g: ClusterGraph, h: ClusterGraph, key: Seq<char>, n: int)
    requires
        #[trigger] alike(g, h),
    ensures
        #[trigger] mesh::bare_names(g, key, n) == mesh::bare_names(h, key, n),
    decreases n,
{
    broadcast use {same_mesh_injected};

    if n > 0 {
        same_mesh_bare_names(g, h, key, n - 1);
    }
}

broadcast proof fn same_mesh_bare_owners(g: ClusterGraph, h: ClusterGraph, n: int)
    requires
        #[trigger] alike(g, h),
    ensures
        #[trigger] mesh::bare_owners(g, n) == mesh::bare_owners(h, n),
    decreases n,
{
    broadcast use {same_mesh_injected};

    if n > 0 {
        same_mesh_bare_owners(g, h, n - 1);
    }
}

broadcast proof fn same_mesh_bare_issues(g: ClusterGraph, h: ClusterGraph)
    requires
        #[trigger] alike(g, h),
    ensures
        #[trigger] mesh::bare_issues(g) == mesh::bare_issues(h),
{
    broadcast use {same_mesh_bare_first, same_mesh_bare_names, same_mesh_bare_owners};

    let keys = mesh::bare_owners(g, g.pods@.len() as int);
    assert(mesh::bare_owners(h, h.pods@.len() as int) == keys);
    let a = |k: int| mesh::bare_of(g, keys[k]);
    let b = |k: int| mesh::bare_of(h, keys[k]);
    assert forall|k: int| #[trigger] a(k) == b(k) by {}
    lemma_same_parts(keys.len() as int, a, b);
}

broadcast proof fn same_mesh_destination_rule(
    g: ClusterGraph,
    h: ClusterGraph,
    ns: Seq<char>,
    name: Seq<char>,
    n: int,
)
    requires
        #[trigger] alike(g, h),
    ensures
        #[trigger] mesh::destination_rule(g, ns, name, n) == mesh::destination_rule(h, ns, name, n),
    decreases n,
{
    if n > 0 {
        same_mesh_destination_rule(g, h, ns, name, n - 1);
    }
}

broadcast proof fn same_mesh_destination_issues(
    g: ClusterGraph,
    h: ClusterGraph,
    vs: VirtualServiceInfo,
    n: int,
)
    requires
        #[trigger] alike(g, h),
    ensures
        #[trigger] mesh::destination_issues(g, vs, n) == mesh::destination_issues(h, vs, n),
    decreases n,
{
    broadcast use {same_mesh_destination_rule};

    if n > 0 {
        same_mesh_destination_issues(g, h, vs, n - 1);
    }
}

broadcast proof fn same_mesh_virtual_issues(g: ClusterGraph, h: ClusterGraph, n: int)
    requires
        #[trigger] alike(g, h),
    ensures
        #[trigger] mesh::virtual_issues(g, n) == mesh::virtual_issues(h, n),
    decreases n,
{
    broadcast use {same_mesh_destination_issues};

    if n > 0 {
        same_mesh_virtual_issues(g, h, n - 1);
    }
}

broadcast proof fn same_network_guarded(g: ClusterGraph, h: ClusterGraph, p: PodInfo, n: int)
    requires
        #[trigger] alike(g, h),
    ensures
        #[trigger] network::guarded(g, p, n) == network::guarded(h, p, n),
    decreases n,
{
    if n > 0 {
        same_network_guarded(g, h, p, n - 1);
    }
}

broadcast proof fn same_network_let_in(
    g: ClusterGraph,
    h: ClusterGraph,
    p: PodInfo,
    port: int,
    name: Option<Seq<char>>,
    protocol: Seq<char>,
    n: int,
)
    requires
        #[trigger] alike(g, h),
    ensures
        #[trigger] network::let_in(g, p, port, name, protocol, n) == network::let_in(h, p, port, name, protocol, n),
    decreases n,
{
    if n > 0 {
        same_network_let_in(g, h, p, port, name, protocol, n - 1);
    }
}

broadcast proof fn same_network_blocked(
    g: ClusterGraph,
    h: ClusterGraph,
    s: ServiceInfo,
    sp: ServicePortInfo,
    n: int,
)
    requires
        #[trigger] alike(g, h),
    ensures
        #[trigger] network::blocked(g, s, sp, n) == network::blocked(h, s, sp, n),
    decreases n,
{
    broadcast use {same_network_guarded, same_network_let_in};

    if n > 0 {
        same_network_blocked(g, h, s, sp, n - 1);
    }
}

broadcast proof fn same_network_confined(g: ClusterGraph, h: ClusterGraph, p: PodInfo, n: int)
    requires
        #[trigger] alike(g, h),
    ensures
        #[trigger] network::confined(g, p, n) == network::confined(h, p, n),
    decreases n,
{
    if n > 0 {
        same_network_confined(g, h, p, n - 1);
    }
}

broadcast proof fn same_network_confining_lines(
    g: ClusterGraph,
    h: ClusterGraph,
    p: PodInfo,
    n: int,
)
    requires
        #[trigger] alike(g, h),
    ensures
        #[trigger] network::confining_lines(g, p, n) == network::confining_lines(h, p, n),
    decreases n,
{
    if n > 0 {
        same_network_confining_lines(g, h, p, n - 1);
    }
}

broadcast proof fn same_network_guard_names(g: ClusterGraph, h: ClusterGraph, p: PodInfo, n: int)
    requires
        #[trigger] alike(g, h),
    ensures
        #[trigger] network::guard_names(g, p, n) == network::guard_names(h, p, n),
    decreases n,
{
    if n > 0 {
        same_network_guard_names(g, h, p, n - 1);
    }
}

broadcast proof fn same_network_pods_behind(
    g: ClusterGraph,
    h: ClusterGraph,
    s: ServiceInfo,
    n: int,
)
    requires
        #[trigger] alike(g, h),
    ensures
        #[trigger] network::pods_behind(g, s, n) == network::pods_behind(h, s, n),
    decreases n,
{
    if n > 0 {
        same_network_pods_behind(g, h, s, n - 1);
    }
}

broadcast proof fn same_network_let_in_widely(
    g: ClusterGraph,
    h: ClusterGraph,
    p: PodInfo,
    port: int,
    name: Option<Seq<char>>,
    protocol: Seq<char>,
    n: int,
)
    requires
        #[trigger] alike(g, h),
    ensures
        #[trigger] network::let_in_widely(g, p, port, name, protocol, n) == network::let_in_widely(h, p, port, name, protocol, n),
    decreases n,
{
    if n > 0 {
        same_network_let_in_widely(g, h, p, port, name, protocol, n - 1);
    }
}

broadcast proof fn same_network_peers_of(
    g: ClusterGraph,
    h: ClusterGraph,
    p: PodInfo,
    port: int,
    name: Option<Seq<char>>,
    protocol: Seq<char>,
    n: int,
)
    requires
        #[trigger] alike(g, h),
    ensures
        #[trigger] network::peers_of(g, p, port, name, protocol, n) == network::peers_of(h, p, port, name, protocol, n),
    decreases n,
{
    if n > 0 {
        same_network_peers_of(g, h, p, port, name, protocol, n - 1);
    }
}

broadcast proof fn same_network_restricted(
    g: ClusterGraph,
    h: ClusterGraph,
    s: ServiceInfo,
    sp: ServicePortInfo,
    n: int,
)
    requires
        #[trigger] alike(g, h),
    ensures
        #[trigger] network::restricted(g, s, sp, n) == network::restricted(h, s, sp, n),
    decreases n,
{
    broadcast use {
        same_network_guarded,
        same_network_let_in,
        same_network_let_in_widely,
        same_network_peers_of,
    };

    if n > 0 {
        same_network_restricted(g, h, s, sp, n - 1);
    }
}

broadcast proof fn same_network_routed(g: ClusterGraph, h: ClusterGraph, s: ServiceInfo, n: int)
    requires
        #[trigger] alike(g, h),
    ensures
        #[trigger] network::routed(g, s, n) == network::routed(h, s, n),
    decreases n,
{
    if n > 0 {
        same_network_routed(g, h, s, n - 1);
    }
}

broadcast proof fn same_network_service_guards(
    g: ClusterGraph,
    h: ClusterGraph,
    s: ServiceInfo,
    n: int,
)
    requires
        #[trigger] alike(g, h),
    ensures
        #[trigger] network::service_guards(g, s, n) == network::service_guards(h, s, n),
    decreases n,
{
    broadcast use {same_network_guard_names};

    if n > 0 {
        same_network_service_guards(g, h, s, n - 1);
    }
}

broadcast proof fn same_network_ports_issues(
    g: ClusterGraph,
    h: ClusterGraph,
    s: ServiceInfo,
    n: int,
)
    requires
        #[trigger] alike(g, h),
    ensures
        #[trigger] network::ports_issues(g, s, n) == network::ports_issues(h, s, n),
    decreases n,
{
    broadcast use {
        same_network_blocked,
        same_network_pods_behind,
        same_network_restricted,
        same_network_routed,
        same_network_service_guards,
    };

    if n > 0 {
        same_network_ports_issues(g, h, s, n - 1);
    }
}

broadcast proof fn same_network_inbound_issues(g: ClusterGraph, h: ClusterGraph, n: int)
    requires
        #[trigger] alike(g, h),
    ensures
        #[trigger] network::inbound_issues(g, n) == network::inbound_issues(h, n),
    decreases n,
{
    broadcast use {same_network_ports_issues};

    if n > 0 {
        same_network_inbound_issues(g, h, n - 1);
    }
}

broadcast proof fn same_network_may_reach_dns(g: ClusterGraph, h: ClusterGraph, p: PodInfo, n: int)
    requires
        #[trigger] alike(g, h),
    ensures
        #[trigger] network::may_reach_dns(g, p, n) == network::may_reach_dns(h, p, n),
    decreases n,
{
    if n > 0 {
        same_network_may_reach_dns(g, h, p, n - 1);
    }
}

broadcast proof fn same_network_reaches_dns(g: ClusterGraph, h: ClusterGraph, p: PodInfo, n: int)
    requires
        #[trigger] alike(g, h),
    ensures
        #[trigger] network::reaches_dns(g, p, n) == network::reaches_dns(h, p, n),
    decreases n,
{
    if n > 0 {
        same_network_reaches_dns(g, h, p, n - 1);
    }
}

broadcast proof fn same_network_outbound_first(
    g: ClusterGraph,
    h: ClusterGraph,
    key: Seq<char>,
    n: int,
)
    requires
        #[trigger] alike(g, h),
    ensures
        #[trigger] network::outbound_first(g, key, n) == network::outbound_first(h, key, n),
    decreases n,
{
    broadcast use {same_network_confined, same_network_may_reach_dns, same_network_reaches_dns};

    if n > 0 {
        same_network_outbound_first(g, h, key, n - 1);
    }
}

broadcast proof fn same_network_outbound_names(
    g: ClusterGraph,
    h: ClusterGraph,
    key: Seq<char>,
    n: int,
)
    requires
        #[trigger] alike(g, h),
    ensures
        #[trigger] network::outbound_names(g, key, n) == network::outbound_names(h, key, n),
    decreases n,
{
    broadcast use {same_network_confined, same_network_may_reach_dns, same_network_reaches_dns};

    if n > 0 {
        same_network_outbound_names(g, h, key, n - 1);
    }
}

broadcast proof fn same_network_outbound_owners(g: ClusterGraph, h: ClusterGraph, n: int)
    requires
        #[trigger] alike(g, h),
    ensures
        #[trigger] network::outbound_owners(g, n) == network::outbound_owners(h, n),
    decreases n,
{
    broadcast use {same_network_confined, same_network_may_reach_dns, same_network_reaches_dns};

    if n > 0 {
        same_network_outbound_owners(g, h, n - 1);
    }
}

broadcast proof fn same_network_reaches_some(g: ClusterGraph, h: ClusterGraph, p: PodInfo, n: int)
    requires
        #[trigger] alike(g, h),
    ensures
        #[trigger] network::reaches_some(g, p, n) == network::reaches_some(h, p, n),
    decreases n,
{
    if n > 0 {
        same_network_reaches_some(g, h, p, n - 1);
    }
}

broadcast proof fn same_network_outbound_issues(g: ClusterGraph, h: ClusterGraph)
    requires
        #[trigger] alike(g, h),
    ensures
        #[trigger] network::outbound_issues(g) == network::outbound_issues(h),
{
    broadcast use {
        same_network_confining_lines,
        same_network_outbound_first,
        same_network_outbound_names,
        same_network_outbound_owners,
        same_network_reaches_some,
    };

    let keys = network::outbound_owners(g, g.pods@.len() as int);
    assert(network::outbound_owners(h, h.pods@.len() as int) == keys);
    let a = |k: int| network::outbound_of(g, keys[k]);
    let b = |k: int| network::outbound_of(h, keys[k]);
    assert forall|k: int| #[trigger] a(k) == b(k) by {}
    lemma_same_parts(keys.len() as int, a, b);
}

broadcast proof fn same_node_node_issues(g: ClusterGraph, h: ClusterGraph, n: int)
    requires
        #[trigger] alike(g, h),
    ensures
        #[trigger] node::node_issues(g, n) == node::node_issues(h, n),
    decreases n,
{
    if n > 0 {
        same_node_node_issues(g, h, n - 1);
    }
}

broadcast proof fn same_pod_crash_loop(
    g: ClusterGraph,
    h: ClusterGraph,
    key: Seq<char>,
    p: PodInfo,
    c: ContainerStatusInfo,
    names: Seq<Seq<char>>,
)
    requires
        #[trigger] alike(g, h),
    ensures
        #[trigger] pod::crash_loop(g, key, p, c, names) == pod::crash_loop(h, key, p, c, names),
{
}

broadcast proof fn same_pod_first_pod(
    g: ClusterGraph,
    h: ClusterGraph,
    key: Seq<char>,
    f: PodFinding,
    n: int,
)
    requires
        #[trigger] alike(g, h),
    ensures
        #[trigger] pod::first_pod(g, key, f, n) == pod::first_pod(h, key, f, n),
    decreases n,
{
    if n > 0 {
        same_pod_first_pod(g, h, key, f, n - 1);
    }
}

broadcast proof fn same_pod_group_names(
    g: ClusterGraph,
    h: ClusterGraph,
    key: Seq<char>,
    f: PodFinding,
    n: int,
)
    requires
        #[trigger] alike(g, h),
    ensures
        #[trigger] pod::group_names(g, key, f, n) == pod::group_names(h, key, f, n),
    decreases n,
{
    if n > 0 {
        same_pod_group_names(g, h, key, f, n - 1);
    }
}

broadcast proof fn same_pod_group_restarts(
    g: ClusterGraph,
    h: ClusterGraph,
    key: Seq<char>,
    f: PodFinding,
    n: int,
)
    requires
        #[trigger] alike(g, h),
    ensures
        #[trigger] pod::group_restarts(g, key, f, n) == pod::group_restarts(h, key, f, n),
    decreases n,
{
    if n > 0 {
        same_pod_group_restarts(g, h, key, f, n - 1);
    }
}

broadcast proof fn same_pod_not_ready(
    g: ClusterGraph,
    h: ClusterGraph,
    key: Seq<char>,
    p: PodInfo,
    names: Seq<Seq<char>>,
)
    requires
        #[trigger] alike(g, h),
    ensures
        #[trigger] pod::not_ready(g, key, p, names) == pod::not_ready(h, key, p, names),
{
}

broadcast proof fn same_pod_unschedulable(
    g: ClusterGraph,
    h: ClusterGraph,
    key: Seq<char>,
    p: PodInfo,
    names: Seq<Seq<char>>,
)
    requires
        #[trigger] alike(g, h),
    ensures
        #[trigger] pod::unschedulable(g, key, p, names) == pod::unschedulable(h, key, p, names),
{
}

broadcast proof fn same_pod_group_issue(
    g: ClusterGraph,
    h: ClusterGraph,
    key: Seq<char>,
    f: PodFinding,
    i: int,
)
    requires
        #[trigger] alike(g, h),
    ensures
        #[trigger] pod::group_issue(g, key, f, i) == pod::group_issue(h, key, f, i),
{
    broadcast use {
        same_pod_crash_loop,
        same_pod_group_names,
        same_pod_group_restarts,
        same_pod_not_ready,
        same_pod_unschedulable,
    };

}

broadcast proof fn same_pod_group_issues(
    g: ClusterGraph,
    h: ClusterGraph,
    key: Seq<char>,
    f: PodFinding,
)
    requires
        #[trigger] alike(g, h),
    ensures
        #[trigger] pod::group_issues(g, key, f) == pod::group_issues(h, key, f),
{
    broadcast use {same_pod_first_pod, same_pod_group_issue};

}

broadcast proof fn same_pod_owner_issues(g: ClusterGraph, h: ClusterGraph, key: Seq<char>)
    requires
        #[trigger] alike(g, h),
    ensures
        #[trigger] pod::owner_issues(g, key) == pod::owner_issues(h, key),
{
    broadcast use {same_pod_group_issues};

}

broadcast proof fn same_pod_pod_issues(g: ClusterGraph, h: ClusterGraph)
    requires
        #[trigger] alike(g, h),
    ensures
        #[trigger] pod::pod_issues(g) == pod::pod_issues(h),
{
    broadcast use {same_pod_owner_issues};

    let keys = pod::owners(g, g.pods@.len() as int);
    assert(pod::owners(h, h.pods@.len() as int) == keys);
    let a = |k: int| pod::owner_issues(g, keys[k]);
    let b = |k: int| pod::owner_issues(h, keys[k]);
    assert forall|k: int| #[trigger] a(k) == b(k) by {}
    lemma_same_parts(keys.len() as int, a, b);
}

broadcast proof fn same_ports_name_defined(
    g: ClusterGraph,
    h: ClusterGraph,
    s: ServiceInfo,
    name: Seq<char>,
    n: int,
)
    requires
        #[trigger] alike(g, h),
    ensures
        #[trigger] ports::name_defined(g, s, name, n) == ports::name_defined(h, s, name, n),
    decreases n,
{
    if n > 0 {
        same_ports_name_defined(g, h, s, name, n - 1);
    }
}

broadcast proof fn same_ports_sample(g: ClusterGraph, h: ClusterGraph, s: ServiceInfo, n: int)
    requires
        #[trigger] alike(g, h),
    ensures
        #[trigger] ports::sample(g, s, n) == ports::sample(h, s, n),
    decreases n,
{
    if n > 0 {
        same_ports_sample(g, h, s, n - 1);
    }
}

broadcast proof fn same_ports_targets_issues(
    g: ClusterGraph,
    h: ClusterGraph,
    s: ServiceInfo,
    p: PodInfo,
    n: int,
)
    requires
        #[trigger] alike(g, h),
    ensures
        #[trigger] ports::targets_issues(g, s, p, n) == ports::targets_issues(h, s, p, n),
    decreases n,
{
    broadcast use {same_ports_name_defined};

    if n > 0 {
        same_ports_targets_issues(g, h, s, p, n - 1);
    }
}

broadcast proof fn same_ports_service_port_issues(g: ClusterGraph, h: ClusterGraph, n: int)
    requires
        #[trigger] alike(g, h),
    ensures
        #[trigger] ports::service_port_issues(g, n) == ports::service_port_issues(h, n),
    decreases n,
{
    broadcast use {same_ports_sample, same_ports_targets_issues};

    if n > 0 {
        same_ports_service_port_issues(g, h, n - 1);
    }
}

broadcast proof fn same_probes_first_timeout(
    g: ClusterGraph,
    h: ClusterGraph,
    w: WorkloadInfo,
    n: int,
)
    requires
        #[trigger] alike(g, h),
    ensures
        #[trigger] probes::first_timeout(g, w, n) == probes::first_timeout(h, w, n),
    decreases n,
{
    if n > 0 {
        same_probes_first_timeout(g, h, w, n - 1);
    }
}

broadcast proof fn same_probes_liveness_kills(
    g: ClusterGraph,
    h: ClusterGraph,
    w: WorkloadInfo,
    n: int,
)
    requires
        #[trigger] alike(g, h),
    ensures
        #[trigger] probes::liveness_kills(g, w, n) == probes::liveness_kills(h, w, n),
    decreases n,
{
    if n > 0 {
        same_probes_liveness_kills(g, h, w, n - 1);
    }
}

broadcast proof fn same_probes_workload_probes(
    g: ClusterGraph,
    h: ClusterGraph,
    w: WorkloadInfo,
    kind: Seq<char>,
    n: int,
)
    requires
        #[trigger] alike(g, h),
    ensures
        #[trigger] probes::workload_probes(g, w, kind, n) == probes::workload_probes(h, w, kind, n),
    decreases n,
{
    broadcast use {same_probes_first_timeout, same_probes_liveness_kills};

    if n > 0 {
        same_probes_workload_probes(g, h, w, kind, n - 1);
    }
}

broadcast proof fn same_probes_probe_issues(g: ClusterGraph, h: ClusterGraph, n: int)
    requires
        #[trigger] alike(g, h),
    ensures
        #[trigger] probes::probe_issues(g, n) == probes::probe_issues(h, n),
    decreases n,
{
    broadcast use {same_probes_workload_probes};

    if n > 0 {
        same_probes_probe_issues(g, h, n - 1);
    }
}

broadcast proof fn same_service_with_score(
    g: ClusterGraph,
    h: ClusterGraph,
    s: ServiceInfo,
    sc: int,
    n: int,
)
    requires
        #[trigger] alike(g, h),
    ensures
        #[trigger] service::with_score(g, s, sc, n) == service::with_score(h, s, sc, n),
    decreases n,
{
    if n > 0 {
        same_service_with_score(g, h, s, sc, n - 1);
    }
}

broadcast proof fn same_service_ranked(g: ClusterGraph, h: ClusterGraph, s: ServiceInfo)
    requires
        #[trigger] alike(g, h),
    ensures
        #[trigger] service::ranked(g, s) == service::ranked(h, s),
{
    broadcast use {same_service_with_score};

    let a = |d: int| service::with_score(g, s, 6 - d, g.workloads@.len() as int);
    let b = |d: int| service::with_score(h, s, 6 - d, h.workloads@.len() as int);
    assert forall|d: int| #[trigger] a(d) == b(d) by {}
    lemma_same_parts(7, a, b);
}

broadcast proof fn same_service_service_issues(
    g: ClusterGraph,
    h: ClusterGraph,
    flagged: Seq<Seq<char>>,
    n: int,
)
    requires
        #[trigger] alike(g, h),
    ensures
        #[trigger] service::service_issues(g, flagged, n) == service::service_issues(h, flagged, n),
    decreases n,
{
    broadcast use {same_service_ranked};

    if n > 0 {
        same_service_service_issues(g, h, flagged, n - 1);
    }
}

broadcast proof fn same_storage_claim_issues(g: ClusterGraph, h: ClusterGraph, n: int)
    requires
        #[trigger] alike(g, h),
    ensures
        #[trigger] storage::claim_issues(g, n) == storage::claim_issues(h, n),
    decreases n,
{
    if n > 0 {
        same_storage_claim_issues(g, h, n - 1);
    }
}

broadcast proof fn same_storage_first_stuck(
    g: ClusterGraph,
    h: ClusterGraph,
    key: Seq<char>,
    config: bool,
    n: int,
)
    requires
        #[trigger] alike(g, h),
    ensures
        #[trigger] storage::first_stuck(g, key, config, n) == storage::first_stuck(h, key, config, n),
    decreases n,
{
    if n > 0 {
        same_storage_first_stuck(g, h, key, config, n - 1);
    }
}

broadcast proof fn same_storage_named_before(
    g: ClusterGraph,
    h: ClusterGraph,
    key: Seq<char>,
    config: bool,
    name: Seq<char>,
    n: int,
)
    requires
        #[trigger] alike(g, h),
    ensures
        #[trigger] storage::named_before(g, key, config, name, n) == storage::named_before(h, key, config, name, n),
    decreases n,
{
    if n > 0 {
        same_storage_named_before(g, h, key, config, name, n - 1);
    }
}

broadcast proof fn same_storage_stuck_names(
    g: ClusterGraph,
    h: ClusterGraph,
    key: Seq<char>,
    config: bool,
    n: int,
)
    requires
        #[trigger] alike(g, h),
    ensures
        #[trigger] storage::stuck_names(g, key, config, n) == storage::stuck_names(h, key, config, n),
    decreases n,
{
    broadcast use {same_storage_named_before};

    if n > 0 {
        same_storage_stuck_names(g, h, key, config, n - 1);
    }
}

broadcast proof fn same_storage_stuck_owners(g: ClusterGraph, h: ClusterGraph, n: int)
    requires
        #[trigger] alike(g, h),
    ensures
        #[trigger] storage::stuck_owners(g, n) == storage::stuck_owners(h, n),
    decreases n,
{
    if n > 0 {
        same_storage_stuck_owners(g, h, n - 1);
    }
}

broadcast proof fn same_storage_mount_issues(g: ClusterGraph, h: ClusterGraph)
    requires
        #[trigger] alike(g, h),
    ensures
        #[trigger] storage::mount_issues(g) == storage::mount_issues(h),
{
    broadcast use {same_storage_first_stuck, same_storage_stuck_names, same_storage_stuck_owners};

    let keys = storage::stuck_owners(g, g.events@.len() as int);
    assert(storage::stuck_owners(h, h.events@.len() as int) == keys);
    let a = |k: int| storage::owner_mounts(g, keys[k]);
    let b = |k: int| storage::owner_mounts(h, keys[k]);
    assert forall|k: int| #[trigger] a(k) == b(k) by {}
    lemma_same_parts(keys.len() as int, a, b);
}

broadcast proof fn same_targets_first_path(
    g: ClusterGraph,
    h: ClusterGraph,
    t: TargetGroupHealth,
    n: int,
)
    requires
        #[trigger] alike(g, h),
    ensures
        #[trigger] targets::first_path(g, t, n) == targets::first_path(h, t, n),
    decreases n,
{
    if n > 0 {
        same_targets_first_path(g, h, t, n - 1);
    }
}

broadcast proof fn same_targets_health_issues(g: ClusterGraph, h: ClusterGraph, l: LbHealth, n: int)
    requires
        #[trigger] alike(g, h),
    ensures
        #[trigger] targets::health_issues(g, l, n) == targets::health_issues(h, l, n),
    decreases n,
{
    broadcast use {same_targets_first_path};

    if n > 0 {
        same_targets_health_issues(g, h, l, n - 1);
    }
}

broadcast proof fn same_targets_cloud_issues(g: ClusterGraph, h: ClusterGraph, n: int)
    requires
        #[trigger] alike(g, h),
    ensures
        #[trigger] targets::cloud_issues(g, n) == targets::cloud_issues(h, n),
    decreases n,
{
    broadcast use {same_targets_health_issues};

    if n > 0 {
        same_targets_cloud_issues(g, h, n - 1);
    }
}

broadcast proof fn same_workload_workload_issues(
    g: ClusterGraph,
    h: ClusterGraph,
    flagged: Seq<Seq<char>>,
    n: int,
)
    requires
        #[trigger] alike(g, h),
    ensures
        #[trigger] workload::workload_issues(g, flagged, n) == workload::workload_issues(h, flagged, n),
    decreases n,
{
    if n > 0 {
        same_workload_workload_issues(g, h, flagged, n - 1);
    }
}

proof fn same_traffic_issues(g: ClusterGraph, h: ClusterGraph)
    requires
        alike(g, h),
    ensures
        extended::traffic_issues(g) == extended::traffic_issues(h),
{
    broadcast use {
        same_balancer_balancer_issues,
        same_ingress_setup_issues,
        same_network_inbound_issues,
        same_network_outbound_issues,
        same_ports_service_port_issues,
    };

}

proof fn same_supply_issues(g: ClusterGraph, h: ClusterGraph)
    requires
        alike(g, h),
    ensures
        extended::supply_issues(g) == extended::supply_issues(h),
{
    broadcast use {
        same_admission_refusal_issues,
        same_eviction_evicted_issues,
        same_storage_claim_issues,
        same_storage_mount_issues,
    };

}

proof fn same_fabric_issues(g: ClusterGraph, h: ClusterGraph)
    requires
        alike(g, h),
    ensures
        extended::fabric_issues(g) == extended::fabric_issues(h),
{
    broadcast use {
        same_cni_agent_issues,
        same_cni_sandbox_issues,
        same_mesh_bare_issues,
        same_mesh_virtual_issues,
        same_probes_probe_issues,
        same_targets_cloud_issues,
    };

}

/// A diagnosis does not depend on the issues that the graph holds already.
pub proof fn diagnoses_do_not_depend_on_issues(g: ClusterGraph, h: ClusterGraph)
    requires
        alike(g, h),
    ensures
        diagnose::diagnosis(g) == diagnose::diagnosis(h),
{
    broadcast use {
        same_entry_entry_issues,
        same_node_node_issues,
        same_pod_pod_issues,
        same_service_service_issues,
        same_workload_workload_issues,
    };

    same_traffic_issues(g, h);
    same_supply_issues(g, h);
    same_fabric_issues(g, h);
}

} // verus!
