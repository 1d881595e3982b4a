//! Rules beyond the core request path: network policies, cluster DNS, ingress
//! and cloud load balancer setup, service ports, storage, admission and quota,
//! autoscaling, evictions and service mesh (Istio).
//!
//! Every rule here is conservative: when the API data can't prove a problem
//! (for example a NetworkPolicy using matchExpressions), it stays quiet rather
//! than guessing.

use crate::model;
use crate::model::{emit_all, ClusterGraph, Issue, IssueView};
use crate::rules::admission;
use crate::rules::admission::admission_and_quota_rules;
use crate::rules::balancer;
use crate::rules::balancer::load_balancer_rules;
use crate::rules::cni;
use crate::rules::cni::cni_rules;
use crate::rules::dns;
use crate::rules::dns::dns_rules;
use crate::rules::eviction;
use crate::rules::eviction::eviction_rules;
use crate::rules::hpa;
use crate::rules::hpa::hpa_rules;
use crate::rules::ingress;
use crate::rules::ingress::ingress_setup_rules;
use crate::rules::mesh;
use crate::rules::mesh::mesh_rules;
use crate::rules::network;
use crate::rules::network::network_policy_rules;
use crate::rules::ports;
use crate::rules::ports::service_port_rules;
use crate::rules::probes;
use crate::rules::probes::probe_rules;
use crate::rules::storage;
use crate::rules::storage::storage_rules;
use crate::rules::targets;
use crate::rules::targets::lb_target_rules;
use vstd::prelude::*;

verus! {

/// The issues about the network: policies, DNS, ingresses, load balancers and
/// service ports.
pub open spec fn traffic_issues(g: ClusterGraph) -> Seq<IssueView> {
    network::policy_issues(g) + dns::dns_issues(g) + ingress::setup_issues(
        g,
        g.ingresses@.len() as int,
    ) + balancer::balancer_issues(g, g.services@.len() as int) + ports::service_port_issues(
        g,
        g.services@.len() as int,
    )
}

/// The issues about what workloads need to run: storage, admission, scaling
/// and room on the nodes.
pub open spec fn supply_issues(g: ClusterGraph) -> Seq<IssueView> {
    storage::storage_issues(g) + admission::refusal_issues(g, g.events@.len() as int)
        + hpa::hpa_issues(g, g.hpas@.len() as int) + eviction::evicted_issues(g)
}

/// The issues of the mesh, of load balancer targets, of pod networking and of
/// probes.
pub open spec fn fabric_issues(g: ClusterGraph) -> Seq<IssueView> {
    mesh::mesh_issues(g) + targets::lb_target_issues(g) + cni::cni_issues(g) + probes::probe_issues(
        g,
        g.workloads@.len() as int,
    )
}

/// The issues of all these rules, in the order in which the rules run.
pub open spec fn extended_issues(g: ClusterGraph) -> Seq<IssueView> {
    traffic_issues(g) + supply_issues(g) + fabric_issues(g)
}

fn traffic_rules(g: &ClusterGraph) -> (out: Vec<Issue>)
    ensures
        model::views(out@) == traffic_issues(*g),
{
    let mut out: Vec<Issue> = network_policy_rules(g);
    emit_all(&mut out, dns_rules(g));
    emit_all(&mut out, ingress_setup_rules(g));
    emit_all(&mut out, load_balancer_rules(g));
    emit_all(&mut out, service_port_rules(g));
    out
}

fn supply_rules(g: &ClusterGraph) -> (out: Vec<Issue>)
    ensures
        model::views(out@) == supply_issues(*g),
{
    let mut out: Vec<Issue> = storage_rules(g);
    emit_all(&mut out, admission_and_quota_rules(g));
    emit_all(&mut out, hpa_rules(g));
    emit_all(&mut out, eviction_rules(g));
    out
}

fn fabric_rules(g: &ClusterGraph) -> (out: Vec<Issue>)
    ensures
        model::views(out@) == fabric_issues(*g),
{
    let mut out: Vec<Issue> = mesh_rules(g);
    emit_all(&mut out, lb_target_rules(g));
    emit_all(&mut out, cni_rules(g));
    emit_all(&mut out, probe_rules(g));
    out
}

/// Run these rules and add what they find to the list.
pub fn run(g: &ClusterGraph, out: &mut Vec<Issue>)
    ensures
        model::views(final(out)@) == model::views(old(out)@) + extended_issues(*g),
{
    let mut found: Vec<Issue> = traffic_rules(g);
    emit_all(&mut found, supply_rules(g));
    emit_all(&mut found, fabric_rules(g));
    emit_all(out, found);
}

} // verus!
