//! Nodes: not ready, under pressure, or closed to new pods.

use crate::model;
use crate::model::{
    emit, emit_all, issue, no_issues, target, ClusterGraph, Issue, IssueView, Layer, NodeInfo,
    Severity,
};
use crate::numeral;
use crate::numeral::dec_usize;
use crate::pick;
use crate::split;
use crate::split::joined;
use crate::text;
use crate::text::{cat2, cat3, cat4, cat5, lines1, no_lines, opt_is, say};
use vstd::prelude::*;

verus! {

broadcast use crate::pick::lemma_add_nothing;

/// How many of the first `n` pods are on a node.
pub open spec fn pods_on(g: ClusterGraph, node: Seq<char>, n: int) -> nat {
    pick::tally(n, |i: int| text::opt(g.pods@[i].node) == Some(node))
}

fn count_pods_on(g: &ClusterGraph, node: &str) -> (r: usize)
    ensures
        r == pods_on(*g, node@, g.pods@.len() as int),
{
    let mut r: usize = 0;
    let mut i: usize = 0;
    while i < g.pods.len()
        invariant
            r <= i <= g.pods@.len(),
            r == pods_on(*g, node@, i as int),
        decreases g.pods@.len() - i,
    {
        if opt_is(&g.pods[i].node, node) {
            r = r + 1;
        }
        i = i + 1;
    }
    r
}

/// The issue for a node that is not ready.
pub open spec fn not_ready(n: NodeInfo, on: int) -> IssueView {
    model::issue_view(
        "node-notready:"@ + n.name@,
        Severity::Critical,
        Layer::Node,
        model::target_view("Node"@, ""@, n.name@),
        "Node "@ + n.name@ + " is not ready"@,
        "The kubelet on "@ + n.name@ + " isn't reporting Ready. "@ + numeral::dec(on)
            + " pods are assigned to it."@,
        seq!["condition Ready: not True"@],
        "Check the node's kubelet and network. Pods on it will be evicted if it stays NotReady."@,
        seq!["kubectl describe node "@ + n.name@],
        Seq::empty(),
    )
}

fn not_ready_issue(n: &NodeInfo, on: usize) -> (r: Issue)
    ensures
        r@ == not_ready(*n, on as int),
{
    issue(
        cat2("node-notready:", n.name.as_str()),
        Severity::Critical,
        Layer::Node,
        target("Node", "", n.name.as_str()),
        cat3("Node ", n.name.as_str(), " is not ready"),
        cat5(
            "The kubelet on ",
            n.name.as_str(),
            " isn't reporting Ready. ",
            dec_usize(on).as_str(),
            " pods are assigned to it.",
        ),
        lines1("condition Ready: not True".to_owned()),
        "Check the node's kubelet and network. Pods on it will be evicted if it stays NotReady.".to_owned(),
        lines1(cat2("kubectl describe node ", n.name.as_str())),
        no_lines(),
    )
}

/// The conditions that are True on a node, as evidence.
pub open spec fn pressure_evidence(d: NodeInfo, n: int) -> Seq<Seq<char>> {
    pick::gather(
        n,
        |i: int|
            seq!["condition "@ + d.pressure@[i]@ + ": True"@],
    )
}

fn pressure_lines(d: &NodeInfo) -> (r: Vec<String>)
    ensures
        text::strs(r@) == pressure_evidence(*d, d.pressure@.len() as int),
{
    let mut r: Vec<String> = no_lines();
    let mut i: usize = 0;
    while i < d.pressure.len()
        invariant
            i <= d.pressure@.len(),
            text::strs(r@) == pressure_evidence(*d, i as int),
        decreases d.pressure@.len() - i,
    {
        say(&mut r, cat3("condition ", d.pressure[i].as_str(), ": True"));
        i = i + 1;
    }
    r
}

/// The issue for a node that runs short of something.
pub open spec fn under_pressure(n: NodeInfo) -> IssueView {
    model::issue_view(
        "node-pressure:"@ + n.name@,
        Severity::Warning,
        Layer::Node,
        model::target_view("Node"@, ""@, n.name@),
        "Node "@ + n.name@ + " reports "@ + split::join(text::strs(n.pressure@), ", "@),
        "The kubelet may evict pods from this node until the pressure clears."@,
        pressure_evidence(n, n.pressure@.len() as int),
        "Find the heaviest pods on the node and give them accurate requests and limits."@,
        seq!["kubectl describe node "@ + n.name@],
        Seq::empty(),
    )
}

fn under_pressure_issue(n: &NodeInfo) -> (r: Issue)
    ensures
        r@ == under_pressure(*n),
{
    issue(
        cat2("node-pressure:", n.name.as_str()),
        Severity::Warning,
        Layer::Node,
        target("Node", "", n.name.as_str()),
        cat4("Node ", n.name.as_str(), " reports ", joined(&n.pressure, ", ").as_str()),
        "The kubelet may evict pods from this node until the pressure clears.".to_owned(),
        pressure_lines(n),
        "Find the heaviest pods on the node and give them accurate requests and limits.".to_owned(),
        lines1(cat2("kubectl describe node ", n.name.as_str())),
        no_lines(),
    )
}

/// The issue for a node that takes no new pods.
pub open spec fn cordoned(n: NodeInfo) -> IssueView {
    model::issue_view(
        "node-cordoned:"@ + n.name@,
        Severity::Warning,
        Layer::Node,
        model::target_view("Node"@, ""@, n.name@),
        "Node "@ + n.name@ + " is cordoned"@,
        "No new pods will be scheduled here until it is uncordoned."@,
        seq!["spec.unschedulable: true"@],
        "If maintenance is finished, uncordon the node."@,
        seq!["kubectl describe node "@ + n.name@],
        Seq::empty(),
    )
}

fn cordoned_issue(n: &NodeInfo) -> (r: Issue)
    ensures
        r@ == cordoned(*n),
{
    issue(
        cat2("node-cordoned:", n.name.as_str()),
        Severity::Warning,
        Layer::Node,
        target("Node", "", n.name.as_str()),
        cat3("Node ", n.name.as_str(), " is cordoned"),
        "No new pods will be scheduled here until it is uncordoned.".to_owned(),
        lines1("spec.unschedulable: true".to_owned()),
        "If maintenance is finished, uncordon the node.".to_owned(),
        lines1(cat2("kubectl describe node ", n.name.as_str())),
        no_lines(),
    )
}

/// The issues of one node.
pub open spec fn node_issue(g: ClusterGraph, n: NodeInfo) -> Seq<IssueView> {
    (if !n.ready {
        seq![not_ready(n, pods_on(g, n.name@, g.pods@.len() as int) as int)]
    } else {
        Seq::empty()
    }) + (if n.pressure@.len() > 0 {
        seq![under_pressure(n)]
    } else {
        Seq::empty()
    }) + (if n.unschedulable {
        seq![cordoned(n)]
    } else {
        Seq::empty()
    })
}

fn issues_of_node(g: &ClusterGraph, n: &NodeInfo) -> (r: Vec<Issue>)
    ensures
        model::views(r@) == node_issue(*g, *n),
{
    let mut r: Vec<Issue> = no_issues();
    if !n.ready {
        let on: usize = count_pods_on(g, n.name.as_str());
        emit(&mut r, not_ready_issue(n, on));
    }
    if n.pressure.len() > 0 {
        emit(&mut r, under_pressure_issue(n));
    }
    if n.unschedulable {
        emit(&mut r, cordoned_issue(n));
    }
    proof {
        assert(model::views(r@) =~= node_issue(*g, *n));
    }
    r
}

/// The issues of the first `n` nodes.
pub open spec fn node_issues(g: ClusterGraph, n: int) -> Seq<IssueView> {
    pick::gather(
        n,
        |i: int|
            node_issue(g, g.nodes@[i]),
    )
}

/// What is wrong with the nodes.
pub fn node_rules(g: &ClusterGraph) -> (r: Vec<Issue>)
    ensures
        model::views(r@) == node_issues(*g, g.nodes@.len() as int),
{
    let mut r: Vec<Issue> = no_issues();
    let mut i: usize = 0;
    while i < g.nodes.len()
        invariant
            i <= g.nodes@.len(),
            model::views(r@) == node_issues(*g, i as int),
        decreases g.nodes@.len() - i,
    {
        emit_all(&mut r, issues_of_node(g, &g.nodes[i]));
        i = i + 1;
    }
    r
}

} // verus!
