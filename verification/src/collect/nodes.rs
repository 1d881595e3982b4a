//! Nodes and workloads.

use crate::collect::parts;
use crate::collect::parts::{amount_bytes, amount_cpu, convert_containers, condition_true};
use crate::collect::raw::{RawCondition, RawNode, RawWorkload, RawSnapshot};
use crate::labels;
use crate::model;
use crate::model::{NodeInfo, WorkloadInfo, workload_id};
use crate::pick;
use crate::scan;
use crate::scan::ends;
use crate::split;
use crate::text;
use crate::text::{copy_or_empty, no_lines, same, say};
use vstd::prelude::*;

verus! {

broadcast use crate::pick::lemma_add_nothing;

/// The conditions among the first `n` that say that the node runs short of
/// something.
pub open spec fn pressures(cs: Seq<RawCondition>, n: int) -> Seq<Seq<char>> {
    pick::gather(
        n,
        |i: int|
            if cs[i].type_@ != "Ready"@ && cs[i].status@ == "True"@ && scan::ends_with(
                cs[i].type_@,
                "Pressure"@,
            ) {
                seq![cs[i].type_@]
            } else {
                Seq::empty()
            },
    )
}

fn pressures_of(cs: &Vec<RawCondition>) -> (r: Vec<String>)
    ensures
        text::strs(r@) == pressures(cs@, cs@.len() as int),
{
    let mut r: Vec<String> = no_lines();
    let mut i: usize = 0;
    while i < cs.len()
        invariant
            i <= cs@.len(),
            text::strs(r@) == pressures(cs@, i as int),
        decreases cs@.len() - i,
    {
        if !same(cs[i].type_.as_str(), "Ready") && same(cs[i].status.as_str(), "True") && ends(
            cs[i].type_.as_str(),
            "Pressure",
        ) {
            say(&mut r, cs[i].type_.clone());
        }
        i = i + 1;
    }
    r
}

/// The machine of a node: the last part of its provider id.
pub open spec fn machine(id: Option<String>) -> Option<Seq<char>> {
    match id {
        Some(s) => Some(split::split(s@, '/').last()),
        None => None,
    }
}

fn machine_of(id: &Option<String>) -> (r: Option<String>)
    ensures
        text::opt(r) == machine(*id),
{
    match id {
        Some(s) => {
            let p: Vec<String> = crate::split::parts(s.as_str(), '/');
            let n: usize = p.len();
            proof {
                assert(text::strs(p@)[n - 1] == p@[n - 1]@);
            }
            Some(p[n - 1].clone())
        },
        None => None,
    }
}

/// The amount, or nothing.
pub open spec fn or_zero(v: Option<int>) -> int {
    match v {
        Some(n) => n,
        None => 0,
    }
}

fn amount_or_zero(v: Option<i64>) -> (r: i64)
    ensures
        r == match v {
            Some(n) => n,
            None => 0,
        },
{
    match v {
        Some(n) => n,
        None => 0,
    }
}

/// What a node makes.
pub open spec fn node_from(n: RawNode, i: NodeInfo) -> bool {
    &&& i.name@ == text::or_empty(n.name)
    &&& i.ready == parts::holds(n.conditions@, "Ready"@, n.conditions@.len() as int)
    &&& i.unschedulable == (n.unschedulable == Some(true))
    &&& text::opt(i.instance_type) == labels::lookup(
        n.labels@,
        "node.kubernetes.io/instance-type"@,
    )
    &&& text::opt(i.instance_id) == machine(n.provider_id)
    &&& i.cpu_allocatable_milli == or_zero(parts::cpu(n.cpu))
    &&& i.memory_allocatable_bytes == or_zero(parts::memory(n.memory))
    &&& text::strs(i.pressure@) == pressures(n.conditions@, n.conditions@.len() as int)
    &&& i.network_unavailable == parts::holds(
        n.conditions@,
        "NetworkUnavailable"@,
        n.conditions@.len() as int,
    )
}

fn convert_node(n: &RawNode) -> (r: NodeInfo)
    ensures
        node_from(*n, r),
{
    let instance_type: Option<String> = match n.labels.get("node.kubernetes.io/instance-type") {
        Some(t) => Some(t.clone()),
        None => None,
    };
    let unschedulable: bool = match n.unschedulable {
        Some(b) => b,
        None => false,
    };
    NodeInfo {
        name: copy_or_empty(&n.name),
        ready: condition_true(&n.conditions, "Ready"),
        unschedulable,
        instance_type,
        instance_id: machine_of(&n.provider_id),
        cpu_allocatable_milli: amount_or_zero(amount_cpu(&n.cpu)),
        memory_allocatable_bytes: amount_or_zero(amount_bytes(&n.memory)),
        pressure: pressures_of(&n.conditions),
        network_unavailable: condition_true(&n.conditions, "NetworkUnavailable"),
    }
}

/// What the nodes make.
pub open spec fn nodes_from(v: Seq<RawNode>, r: Seq<NodeInfo>) -> bool {
    r.len() == v.len() && forall|i: int| 0 <= i < v.len() ==> node_from(v[i], #[trigger] r[i])
}

pub fn convert_nodes(v: &Vec<RawNode>) -> (r: Vec<NodeInfo>)
    ensures
        nodes_from(v@, r@),
{
    let mut r: Vec<NodeInfo> = Vec::new();
    let mut i: usize = 0;
    while i < v.len()
        invariant
            i <= v@.len(),
            r@.len() == i,
            forall|j: int| 0 <= j < i ==> node_from(v@[j], #[trigger] r@[j]),
        decreases v@.len() - i,
    {
        let x: NodeInfo = convert_node(&v[i]);
        r.push(x);
        i = i + 1;
    }
    r
}

/// The number, or a default.
pub open spec fn or_else(v: Option<i32>, d: i32) -> i32 {
    match v {
        Some(n) => n,
        None => d,
    }
}

/// What a workload of a kind makes, where so many replicas are wanted if
/// nothing is said.
pub open spec fn workload_from(kind: Seq<char>, d: i32, w: RawWorkload, i: WorkloadInfo) -> bool {
    let ns = text::or_empty(w.namespace);
    let name = text::or_empty(w.name);
    &&& i.id@ == model::workload_key(kind, ns, name)
    &&& i.kind@ == kind
    &&& i.namespace@ == ns
    &&& i.name@ == name
    &&& i.desired == or_else(w.desired, d)
    &&& i.ready == or_else(w.ready, 0)
    &&& i.available == or_else(w.available, 0)
    &&& i.pod_labels@ == w.labels@
    &&& parts::containers_from(w.containers@, i.containers@)
}

fn number_or(v: Option<i32>, d: i32) -> (r: i32)
    ensures
        r == or_else(v, d),
{
    match v {
        Some(n) => n,
        None => d,
    }
}

fn convert_workload(kind: &str, d: i32, w: &RawWorkload) -> (r: WorkloadInfo)
    ensures
        workload_from(kind@, d, *w, r),
{
    let namespace: String = copy_or_empty(&w.namespace);
    let name: String = copy_or_empty(&w.name);
    WorkloadInfo {
        id: workload_id(kind, namespace.as_str(), name.as_str()),
        kind: kind.to_owned(),
        namespace,
        name,
        desired: number_or(w.desired, d),
        ready: number_or(w.ready, 0),
        available: number_or(w.available, 0),
        pod_labels: w.labels.copy(),
        containers: convert_containers(&w.containers),
    }
}

/// The workload at an index of the graph: deployments come first, then
/// stateful sets, then daemon sets.
pub open spec fn workload_at(raw: RawSnapshot, k: int, i: WorkloadInfo) -> bool {
    let a = raw.deployments@.len();
    let b = raw.statefulsets@.len();
    if k < a {
        workload_from("Deployment"@, 1, raw.deployments@[k], i)
    } else if k < a + b {
        workload_from("StatefulSet"@, 1, raw.statefulsets@[k - a], i)
    } else {
        workload_from("DaemonSet"@, 0, raw.daemonsets@[k - a - b], i)
    }
}

/// What the workloads make.
pub open spec fn workloads_from(raw: RawSnapshot, r: Seq<WorkloadInfo>) -> bool {
    r.len() == raw.deployments@.len() + raw.statefulsets@.len() + raw.daemonsets@.len()
        && forall|k: int| 0 <= k < r.len() ==> workload_at(raw, k, #[trigger] r[k])
}

/// Convert the workloads.
pub fn convert_workloads(raw: &RawSnapshot) -> (r: Vec<WorkloadInfo>)
    ensures
        workloads_from(*raw, r@),
{
    let mut r: Vec<WorkloadInfo> = Vec::new();
    let mut i: usize = 0;
    while i < raw.deployments.len()
        invariant
            i <= raw.deployments@.len(),
            r@.len() == i,
            forall|k: int| 0 <= k < i ==> workload_at(*raw, k, #[trigger] r@[k]),
        decreases raw.deployments@.len() - i,
    {
        let w: WorkloadInfo = convert_workload("Deployment", 1, &raw.deployments[i]);
        r.push(w);
        i = i + 1;
    }
    let mut i: usize = 0;
    while i < raw.statefulsets.len()
        invariant
            i <= raw.statefulsets@.len(),
            r@.len() == raw.deployments@.len() + i,
            forall|k: int| 0 <= k < r@.len() ==> workload_at(*raw, k, #[trigger] r@[k]),
        decreases raw.statefulsets@.len() - i,
    {
        let w: WorkloadInfo = convert_workload("StatefulSet", 1, &raw.statefulsets[i]);
        r.push(w);
        i = i + 1;
    }
    let mut i: usize = 0;
    while i < raw.daemonsets.len()
        invariant
            i <= raw.daemonsets@.len(),
            r@.len() == raw.deployments@.len() + raw.statefulsets@.len() + i,
            forall|k: int| 0 <= k < r@.len() ==> workload_at(*raw, k, #[trigger] r@[k]),
        decreases raw.daemonsets@.len() - i,
    {
        let w: WorkloadInfo = convert_workload("DaemonSet", 0, &raw.daemonsets[i]);
        r.push(w);
        i = i + 1;
    }
    r
}

} // verus!
