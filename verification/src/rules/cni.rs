//! Pod networking: the agents of the network plugin, kube-proxy, and pods that
//! get no network.

use crate::lettercase;
use crate::lettercase::lower;
use crate::model;
use crate::model::{
    emit, emit_all, issue, no_issues, target, ClusterGraph, EventInfo, Issue, IssueView, Layer,
    NodeInfo, Severity, WorkloadInfo,
};
use crate::numeral;
use crate::numeral::{dec_i32, dec_i64, dec_usize};
use crate::order::insert_key;
use crate::pick;
use crate::rules::storage;
use crate::rules::storage::find_pod_at;
use crate::scan;
use crate::scan::has;
use crate::split;
use crate::split::joined;
use crate::text;
use crate::text::{
    cat2, cat3, cat5, cat6, copy_or_empty, lines1, lines2, listed, no_lines, opt_is, same, say,
};
use vstd::prelude::*;

verus! {

broadcast use crate::pick::lemma_add_nothing;

/// The names of the agents of network plugins.
pub open spec fn is_cni_agent(name: Seq<char>) -> bool {
    name == "aws-node"@
        || name == "calico-node"@
        || name == "cilium"@
        || name == "kube-flannel-ds"@
        || name == "kube-flannel"@
        || name == "weave-net"@
        || name == "canal"@
        || name == "antrea-agent"@
        || name == "kube-router"@
        || name == "ovnkube-node"@
        || name == "azure-cni"@
}

fn cni_agent(name: &str) -> (r: bool)
    ensures
        r == is_cni_agent(name@),
{
    same(name, "aws-node")
        || same(name, "calico-node")
        || same(name, "cilium")
        || same(name, "kube-flannel-ds")
        || same(name, "kube-flannel")
        || same(name, "weave-net")
        || same(name, "canal")
        || same(name, "antrea-agent")
        || same(name, "kube-router")
        || same(name, "ovnkube-node")
        || same(name, "azure-cni")
}

/// The nodes on which a pod of the workload is not ready.
pub open spec fn bad_nodes(g: ClusterGraph, w: WorkloadInfo, n: int) -> Seq<Seq<char>> {
    pick::gather(
        n,
        |i: int|
            if text::opt(g.pods@[i].workload) == Some(w.id@) && !g.pods@[i].ready && g.pods@[i].node is Some {
                seq![text::or_empty(g.pods@[i].node)]
            } else {
                Seq::empty()
            },
    )
}

fn bad_nodes_of(g: &ClusterGraph, w: &WorkloadInfo) -> (r: Vec<String>)
    ensures
        text::strs(r@) == bad_nodes(*g, *w, g.pods@.len() as int),
{
    let mut r: Vec<String> = no_lines();
    let mut i: usize = 0;
    while i < g.pods.len()
        invariant
            i <= g.pods@.len(),
            text::strs(r@) == bad_nodes(*g, *w, i as int),
        decreases g.pods@.len() - i,
    {
        if opt_is(&g.pods[i].workload, w.id.as_str()) && !g.pods[i].ready && g.pods[i].node.is_some() {
            say(&mut r, copy_or_empty(&g.pods[i].node));
        }
        i = i + 1;
    }
    r
}

/// Is the pod at an index on one of these nodes, and not part of the cluster's
/// own namespace?
pub open spec fn is_affected(g: ClusterGraph, nodes: Seq<Seq<char>>, i: int) -> bool {
    g.pods@[i].node is Some && nodes.contains(text::or_empty(g.pods@[i].node))
        && g.pods@[i].namespace@ != "kube-system"@
}

/// How many of the first `n` pods are.
pub open spec fn affected(g: ClusterGraph, nodes: Seq<Seq<char>>, n: int) -> nat {
    pick::tally(n, |i: int| is_affected(g, nodes, i))
}

fn count_affected(g: &ClusterGraph, nodes: &Vec<String>) -> (r: usize)
    ensures
        r == affected(*g, text::strs(nodes@), g.pods@.len() as int),
{
    let mut r: usize = 0;
    let mut i: usize = 0;
    while i < g.pods.len()
        invariant
            r <= i <= g.pods@.len(),
            r == affected(*g, text::strs(nodes@), i as int),
        decreases g.pods@.len() - i,
    {
        let here: bool = match &g.pods[i].node {
            Some(n) => listed(nodes, n.as_str()),
            None => false,
        };
        if here && !same(g.pods[i].namespace.as_str(), "kube-system") {
            r = r + 1;
        }
        i = i + 1;
    }
    r
}

/// The issue for an agent that is not ready on some nodes.
pub open spec fn agent_unready(w: WorkloadInfo, nodes: Seq<Seq<char>>, others: int) -> IssueView {
    model::issue_view(
        (if w.name@ == "kube-proxy"@ {
                "kubeproxy-unready"@
            } else {
                "cni-agent-unready"@
        }) + ":"@ + w.id@,
        Severity::Critical,
        Layer::Node,
        model::target_view(w.kind@, w.namespace@, w.name@),
        numeral::dec(w.desired - w.ready) + " of "@ + numeral::dec(w.desired as int) + " "@
            + w.name@ + " pods aren't ready"@,
        if w.name@ == "kube-proxy"@ {
            "kube-proxy isn't running properly on "@ + (if nodes.len() == 0 {
                    "some nodes"@
                } else {
                    split::join(nodes, ", "@)
            }) + ". Service IPs may stop working on those nodes: new or changed services aren't programmed, so pods there can't reach them."@
        } else {
            "the CNI agent isn't running properly on "@ + (if nodes.len() == 0 {
                    "some nodes"@
                } else {
                    split::join(nodes, ", "@)
            }) + ". Pods on those nodes can't get IP addresses or reach the network; new pods there get stuck in ContainerCreating."@
        },
        seq![
            w.name@ + ": desired "@ + numeral::dec(w.desired as int) + ", ready "@
                + numeral::dec(w.ready as int),
            "other pods on affected nodes: "@ + numeral::dec(others),
        ],
        if w.name@ == "kube-proxy"@ {
            "Check the kube-proxy pod logs on the affected nodes."@
        } else if w.name@ == "aws-node"@ {
            "Check the aws-node logs and the node role's permissions for the VPC CNI (AmazonEKS_CNI_Policy), and that the add-on version matches the cluster."@
        } else {
            "Check the CNI agent's logs on the affected nodes."@
        },
        seq![
            "kubectl get pods -n kube-system -o wide | grep "@ + w.name@,
            "kubectl logs -n kube-system ds/"@ + w.name@ + " --tail=50"@,
        ],
        Seq::empty(),
    )
}

fn agent_unready_issue(w: &WorkloadInfo, nodes: Vec<String>, others: usize) -> (r: Issue)
    ensures
        r@ == agent_unready(*w, text::strs(nodes@), others as int),
{
    let proxy: bool = same(w.name.as_str(), "kube-proxy");
    let places: String = if nodes.len() == 0 {
        "some nodes".to_owned()
    } else {
        joined(&nodes, ", ")
    };
    let detail: String = if proxy {
        cat3(
            "kube-proxy isn't running properly on ",
            places.as_str(),
            ". Service IPs may stop working on those nodes: new or changed services aren't programmed, so pods there can't reach them.",
        )
    } else {
        cat3(
            "the CNI agent isn't running properly on ",
            places.as_str(),
            ". Pods on those nodes can't get IP addresses or reach the network; new pods there get stuck in ContainerCreating.",
        )
    };
    let suggestion: String = if proxy {
        "Check the kube-proxy pod logs on the affected nodes.".to_owned()
    } else if same(w.name.as_str(), "aws-node") {
        "Check the aws-node logs and the node role's permissions for the VPC CNI (AmazonEKS_CNI_Policy), and that the add-on version matches the cluster.".to_owned()
    } else {
        "Check the CNI agent's logs on the affected nodes.".to_owned()
    };
    issue(
        cat3(
            if proxy {
                "kubeproxy-unready"
            } else {
                "cni-agent-unready"
            },
            ":",
            w.id.as_str(),
        ),
        Severity::Critical,
        Layer::Node,
        target(w.kind.as_str(), w.namespace.as_str(), w.name.as_str()),
        cat6(
            dec_i64(w.desired as i64 - w.ready as i64).as_str(),
            " of ",
            dec_i32(w.desired).as_str(),
            " ",
            w.name.as_str(),
            " pods aren't ready",
        ),
        detail,
        lines2(
            cat5(
                w.name.as_str(),
                ": desired ",
                dec_i32(w.desired).as_str(),
                ", ready ",
                dec_i32(w.ready).as_str(),
            ),
            cat2("other pods on affected nodes: ", dec_usize(others).as_str()),
        ),
        suggestion,
        lines2(
            cat2("kubectl get pods -n kube-system -o wide | grep ", w.name.as_str()),
            cat3("kubectl logs -n kube-system ds/", w.name.as_str(), " --tail=50"),
        ),
        no_lines(),
    )
}

/// Is a workload an agent of the network that is not ready everywhere?
pub open spec fn is_unready_agent(w: WorkloadInfo) -> bool {
    w.kind@ == "DaemonSet"@ && w.namespace@ == "kube-system"@ && (is_cni_agent(w.name@) || w.name@
        == "kube-proxy"@) && w.ready < w.desired
}

fn unready_agent(w: &WorkloadInfo) -> (r: bool)
    ensures
        r == is_unready_agent(*w),
{
    same(w.kind.as_str(), "DaemonSet") && same(w.namespace.as_str(), "kube-system") && (cni_agent(
        w.name.as_str(),
    ) || same(w.name.as_str(), "kube-proxy")) && w.ready < w.desired
}

/// The issue of one agent.
pub open spec fn agent_issue(g: ClusterGraph, w: WorkloadInfo) -> IssueView {
    let nodes = bad_nodes(g, w, g.pods@.len() as int);
    agent_unready(w, nodes, affected(g, nodes, g.pods@.len() as int) as int)
}

fn issue_of_agent(g: &ClusterGraph, w: &WorkloadInfo) -> (r: Issue)
    ensures
        r@ == agent_issue(*g, *w),
{
    let nodes: Vec<String> = bad_nodes_of(g, w);
    let others: usize = count_affected(g, &nodes);
    agent_unready_issue(w, nodes, others)
}

/// The issues of the agents among the first `n` workloads.
pub open spec fn agent_issues(g: ClusterGraph, n: int) -> Seq<IssueView> {
    pick::gather(
        n,
        |i: int|
            if is_unready_agent(g.workloads@[i]) {
                seq![agent_issue(g, g.workloads@[i])]
            } else {
                Seq::empty()
            },
    )
}

fn agent_rules(g: &ClusterGraph) -> (r: Vec<Issue>)
    ensures
        model::views(r@) == agent_issues(*g, g.workloads@.len() as int),
{
    let mut r: Vec<Issue> = no_issues();
    let mut i: usize = 0;
    while i < g.workloads.len()
        invariant
            i <= g.workloads@.len(),
            model::views(r@) == agent_issues(*g, i as int),
        decreases g.workloads@.len() - i,
    {
        if unready_agent(&g.workloads[i]) {
            emit(&mut r, issue_of_agent(g, &g.workloads[i]));
        }
        i = i + 1;
    }
    r
}

/// The issue for a node without a network.
pub open spec fn node_network(d: NodeInfo) -> IssueView {
    model::issue_view(
        "cni-node-network:"@ + d.name@,
        Severity::Critical,
        Layer::Node,
        model::target_view("Node"@, ""@, d.name@),
        "Node "@ + d.name@ + " reports NetworkUnavailable"@,
        "The network plugin hasn't configured routes for this node, so its pods can't talk to the rest of the cluster."@,
        seq!["condition NetworkUnavailable: True"@],
        "Check the CNI agent pod on this node."@,
        seq!["kubectl describe node "@ + d.name@],
        Seq::empty(),
    )
}

fn node_network_issue(d: &NodeInfo) -> (r: Issue)
    ensures
        r@ == node_network(*d),
{
    issue(
        cat2("cni-node-network:", d.name.as_str()),
        Severity::Critical,
        Layer::Node,
        target("Node", "", d.name.as_str()),
        cat3("Node ", d.name.as_str(), " reports NetworkUnavailable"),
        "The network plugin hasn't configured routes for this node, so its pods can't talk to the rest of the cluster.".to_owned(),
        lines1("condition NetworkUnavailable: True".to_owned()),
        "Check the CNI agent pod on this node.".to_owned(),
        lines1(cat2("kubectl describe node ", d.name.as_str())),
        no_lines(),
    )
}

/// The issues of the first `n` nodes without a network.
pub open spec fn node_issues(g: ClusterGraph, n: int) -> Seq<IssueView> {
    pick::gather(
        n,
        |i: int|
            if g.nodes@[i].network_unavailable {
                seq![node_network(g.nodes@[i])]
            } else {
                Seq::empty()
            },
    )
}

fn node_rules(g: &ClusterGraph) -> (r: Vec<Issue>)
    ensures
        model::views(r@) == node_issues(*g, g.nodes@.len() as int),
{
    let mut r: Vec<Issue> = no_issues();
    let mut i: usize = 0;
    while i < g.nodes.len()
        invariant
            i <= g.nodes@.len(),
            model::views(r@) == node_issues(*g, i as int),
        decreases g.nodes@.len() - i,
    {
        if g.nodes[i].network_unavailable {
            emit(&mut r, node_network_issue(&g.nodes[i]));
        }
        i = i + 1;
    }
    r
}

/// Why the network of a pod could not be set up.
#[derive(Debug, Clone, Copy, PartialEq, Eq, Structural)]
pub enum Sandbox {
    NoAddress,
    Setup,
}

/// Why the network could not be set up, going by the message in lower case.
pub open spec fn sandbox(low: Seq<char>) -> Option<Sandbox> {
    if scan::contains(low, "assign an ip"@) || scan::contains(low, "no available ip"@)
        || scan::contains(low, "insufficientfreeaddresses"@) || scan::contains(
        low,
        "failed to allocate"@,
    ) {
        Some(Sandbox::NoAddress)
    } else if scan::contains(low, "network"@) || scan::contains(low, "cni"@) {
        Some(Sandbox::Setup)
    } else {
        None
    }
}

/// Tell why the network could not be set up, going by the message in lower
/// case.
pub fn sandbox_of(low: &str) -> (r: Option<Sandbox>)
    ensures
        r == sandbox(low@),
{
    if has(low, "assign an ip") || has(low, "no available ip") || has(
        low,
        "insufficientfreeaddresses",
    ) || has(low, "failed to allocate") {
        Some(Sandbox::NoAddress)
    } else if has(low, "network") || has(low, "cni") {
        Some(Sandbox::Setup)
    } else {
        None
    }
}

/// The pending pod that the event at an index says has no network.
pub open spec fn pod_of(g: ClusterGraph, i: int) -> Option<int> {
    let e = g.events@[i];
    if e.kind@ == "Pod"@ && e.reason@ == "FailedCreatePodSandBox"@ {
        match storage::pod_at(g, e.namespace@, e.name@, g.pods@.len() as int) {
            Some(k) => if g.pods@[k].phase@ == "Pending"@ {
                Some(k)
            } else {
                None
            },
            None => None,
        }
    } else {
        None
    }
}

fn find_pod(g: &ClusterGraph, i: usize) -> (r: Option<usize>)
    requires
        i < g.events@.len(),
    ensures
        match r {
            Some(k) => k < g.pods@.len() && pod_of(*g, i as int) == Some(k as int),
            None => pod_of(*g, i as int) is None,
        },
{
    let e: &EventInfo = &g.events[i];
    if same(e.kind.as_str(), "Pod") && same(e.reason.as_str(), "FailedCreatePodSandBox") {
        match find_pod_at(g, e.namespace.as_str(), e.name.as_str()) {
            Some(k) => if same(g.pods[k].phase.as_str(), "Pending") {
                Some(k)
            } else {
                None
            },
            None => None,
        }
    } else {
        None
    }
}

/// The node of the pod that the event at an index says has no network, for
/// this reason.
pub open spec fn node_failing(g: ClusterGraph, why: Sandbox, i: int) -> Option<Seq<char>> {
    match pod_of(g, i) {
        Some(k) => if sandbox(lettercase::lowercase(g.events@[i].message@)) == Some(why) {
            Some(
                match g.pods@[k].node {
                    Some(n) => n@,
                    None => "unknown"@,
                },
            )
        } else {
            None
        },
        None => None,
    }
}

fn failing_node(g: &ClusterGraph, why: Sandbox, i: usize) -> (r: Option<String>)
    requires
        i < g.events@.len(),
    ensures
        text::opt(r) == node_failing(*g, why, i as int),
{
    match find_pod(g, i) {
        Some(k) => {
            let hit: bool = match sandbox_of(lower(g.events[i].message.as_str()).as_str()) {
                Some(x) => x == why,
                None => false,
            };
            if hit {
                match &g.pods[k].node {
                    Some(n) => Some(n.clone()),
                    None => Some("unknown".to_owned()),
                }
            } else {
                None
            }
        },
        None => None,
    }
}

/// The nodes on which pods get no network for this reason.
pub open spec fn failing_nodes(g: ClusterGraph, why: Sandbox, n: int) -> Seq<Seq<char>> {
    pick::keys(n, |i: int| node_failing(g, why, i))
}

fn nodes_failing(g: &ClusterGraph, why: Sandbox) -> (r: Vec<String>)
    ensures
        text::strs(r@) == failing_nodes(*g, why, g.events@.len() as int),
{
    let mut r: Vec<String> = no_lines();
    let mut i: usize = 0;
    while i < g.events.len()
        invariant
            i <= g.events@.len(),
            text::strs(r@) == failing_nodes(*g, why, i as int),
        decreases g.events@.len() - i,
    {
        match failing_node(g, why, i) {
            Some(k) => insert_key(&mut r, k),
            None => {},
        }
        i = i + 1;
    }
    r
}

fn fails_on(g: &ClusterGraph, why: Sandbox, node: &str, i: usize) -> (r: bool)
    requires
        i < g.events@.len(),
    ensures
        r == (node_failing(*g, why, i as int) == Some(node@)),
{
    opt_is(&failing_node(g, why, i), node)
}

/// The first event of a node.
pub open spec fn first_failure(
    g: ClusterGraph,
    why: Sandbox,
    node: Seq<char>,
    n: int,
) -> Option<int> {
    pick::first(n, |i: int| node_failing(g, why, i) == Some(node))
}

fn find_failure(g: &ClusterGraph, why: Sandbox, node: &str) -> (r: Option<usize>)
    ensures
        match r {
            Some(k) => k < g.events@.len() && first_failure(*g, why, node@, g.events@.len() as int) == Some(
                k as int,
            ),
            None => first_failure(*g, why, node@, g.events@.len() as int) is None,
        },
{
    let mut r: Option<usize> = None;
    let mut i: usize = 0;
    while i < g.events.len()
        invariant
            i <= g.events@.len(),
            match r {
                Some(k) => k < i && first_failure(*g, why, node@, i as int) == Some(k as int),
                None => first_failure(*g, why, node@, i as int) is None,
            },
        decreases g.events@.len() - i,
    {
        if r.is_none() && fails_on(g, why, node, i) {
            r = Some(i);
        }
        i = i + 1;
    }
    r
}

/// The pods of a node that get no network, one for each event.
pub open spec fn failing_pods(
    g: ClusterGraph,
    why: Sandbox,
    node: Seq<char>,
    n: int,
) -> Seq<Seq<char>> {
    pick::gather(
        n,
        |i: int|
            if node_failing(g, why, i) == Some(node) {
                seq![g.events@[i].name@]
            } else {
                Seq::empty()
            },
    )
}

fn pods_failing(g: &ClusterGraph, why: Sandbox, node: &str) -> (r: Vec<String>)
    ensures
        text::strs(r@) == failing_pods(*g, why, node@, g.events@.len() as int),
{
    let mut r: Vec<String> = no_lines();
    let mut i: usize = 0;
    while i < g.events.len()
        invariant
            i <= g.events@.len(),
            text::strs(r@) == failing_pods(*g, why, node@, i as int),
        decreases g.events@.len() - i,
    {
        if fails_on(g, why, node, i) {
            say(&mut r, g.events[i].name.clone());
        }
        i = i + 1;
    }
    r
}

/// The issue for a node that has no addresses left for pods.
pub open spec fn no_address(node: Seq<char>, msg: Seq<char>, names: Seq<Seq<char>>) -> IssueView {
    model::issue_view(
        "cni-ip-exhausted:"@ + node,
        Severity::Critical,
        Layer::Node,
        model::target_view("Node"@, ""@, node),
        "Pods on "@ + node + " can't get an IP address"@,
        numeral::dec(names.len() as int)
            + " pods are stuck in ContainerCreating because the network plugin has no free IPs to give them."@,
        seq![msg],
        "On EKS with the VPC CNI: enable prefix delegation (ENABLE_PREFIX_DELEGATION=true), add larger subnets or a secondary CIDR, or lower WARM_IP_TARGET. Also check the node's max-pods matches its ENI limits."@,
        seq![
            "kubectl describe node "@ + node,
            "kubectl -n kube-system logs ds/aws-node --tail=50"@,
        ],
        names,
    )
}

fn no_address_issue(node: &str, msg: &str, names: Vec<String>) -> (r: Issue)
    ensures
        r@ == no_address(node@, msg@, text::strs(names@)),
{
    issue(
        cat2("cni-ip-exhausted:", node),
        Severity::Critical,
        Layer::Node,
        target("Node", "", node),
        cat3("Pods on ", node, " can't get an IP address"),
        cat2(
            dec_usize(names.len()).as_str(),
            " pods are stuck in ContainerCreating because the network plugin has no free IPs to give them.",
        ),
        lines1(msg.to_owned()),
        "On EKS with the VPC CNI: enable prefix delegation (ENABLE_PREFIX_DELEGATION=true), add larger subnets or a secondary CIDR, or lower WARM_IP_TARGET. Also check the node's max-pods matches its ENI limits.".to_owned(),
        lines2(
            cat2("kubectl describe node ", node),
            "kubectl -n kube-system logs ds/aws-node --tail=50".to_owned(),
        ),
        names,
    )
}

/// The issue for a node that cannot set up the network of pods.
pub open spec fn setup_failed(node: Seq<char>, msg: Seq<char>, names: Seq<Seq<char>>) -> IssueView {
    model::issue_view(
        "cni-sandbox-failed:"@ + node,
        Severity::Critical,
        Layer::Node,
        model::target_view("Node"@, ""@, node),
        "Pods on "@ + node + " fail network setup"@,
        numeral::dec(names.len() as int)
            + " pods can't start because the network plugin failed to set up their sandbox."@,
        seq![msg],
        "Check the CNI agent pod on this node and its logs; restarting it often clears stale state."@,
        seq!["kubectl get pods -n kube-system -o wide --field-selector spec.nodeName="@ + node],
        names,
    )
}

fn setup_failed_issue(node: &str, msg: &str, names: Vec<String>) -> (r: Issue)
    ensures
        r@ == setup_failed(node@, msg@, text::strs(names@)),
{
    issue(
        cat2("cni-sandbox-failed:", node),
        Severity::Critical,
        Layer::Node,
        target("Node", "", node),
        cat3("Pods on ", node, " fail network setup"),
        cat2(
            dec_usize(names.len()).as_str(),
            " pods can't start because the network plugin failed to set up their sandbox.",
        ),
        lines1(msg.to_owned()),
        "Check the CNI agent pod on this node and its logs; restarting it often clears stale state.".to_owned(),
        lines1(
            cat2("kubectl get pods -n kube-system -o wide --field-selector spec.nodeName=", node),
        ),
        names,
    )
}

/// The issue of one node.
pub open spec fn sandbox_issue(g: ClusterGraph, why: Sandbox, node: Seq<char>) -> Seq<IssueView> {
    let n = g.events@.len() as int;
    match first_failure(g, why, node, n) {
        Some(i) => seq![
            match why {
                Sandbox::NoAddress => no_address(
                    node,
                    g.events@[i].message@,
                    failing_pods(g, why, node, n),
                ),
                Sandbox::Setup => setup_failed(
                    node,
                    g.events@[i].message@,
                    failing_pods(g, why, node, n),
                ),
            },
        ],
        None => Seq::empty(),
    }
}

fn issues_of_sandbox(g: &ClusterGraph, why: Sandbox, node: &str) -> (r: Vec<Issue>)
    ensures
        model::views(r@) == sandbox_issue(*g, why, node@),
{
    let mut r: Vec<Issue> = no_issues();
    match find_failure(g, why, node) {
        Some(i) => {
            let names: Vec<String> = pods_failing(g, why, node);
            let msg: &str = g.events[i].message.as_str();
            match why {
                Sandbox::NoAddress => emit(&mut r, no_address_issue(node, msg, names)),
                Sandbox::Setup => emit(&mut r, setup_failed_issue(node, msg, names)),
            }
        },
        None => {},
    }
    r
}

/// The issues for one reason, by node in rising order.
pub open spec fn sandbox_issues(g: ClusterGraph, why: Sandbox) -> Seq<IssueView> {
    let keys = failing_nodes(g, why, g.events@.len() as int);
    pick::gather(keys.len() as int, |k: int| sandbox_issue(g, why, keys[k]))
}

/// Pods that get no network, for one reason.
pub fn sandbox_rules(g: &ClusterGraph, why: Sandbox) -> (out: Vec<Issue>)
    ensures
        model::views(out@) == sandbox_issues(*g, why),
{
    let keys: Vec<String> = nodes_failing(g, why);
    let ghost ks = text::strs(keys@);
    let ghost f = |k: int| sandbox_issue(*g, why, ks[k]);
    let mut out: Vec<Issue> = no_issues();
    let mut k: usize = 0;
    while k < keys.len()
        invariant
            k <= keys.len(),
            ks == text::strs(keys@),
            f == (|k: int| sandbox_issue(*g, why, ks[k])),
            model::views(out@) == pick::gather(k as int, f),
        decreases keys.len() - k,
    {
        let part: Vec<Issue> = issues_of_sandbox(g, why, keys[k].as_str());
        emit_all(&mut out, part);
        k = k + 1;
    }
    out
}

/// The issues of pod networking.
pub open spec fn cni_issues(g: ClusterGraph) -> Seq<IssueView> {
    agent_issues(g, g.workloads@.len() as int) + node_issues(g, g.nodes@.len() as int)
        + sandbox_issues(g, Sandbox::NoAddress) + sandbox_issues(g, Sandbox::Setup)
}

/// What is wrong with pod networking.
pub fn cni_rules(g: &ClusterGraph) -> (out: Vec<Issue>)
    ensures
        model::views(out@) == cni_issues(*g),
{
    let mut out: Vec<Issue> = agent_rules(g);
    emit_all(&mut out, node_rules(g));
    emit_all(&mut out, sandbox_rules(g, Sandbox::NoAddress));
    emit_all(&mut out, sandbox_rules(g, Sandbox::Setup));
    out
}

} // verus!
