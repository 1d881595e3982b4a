//! The snapshot of a cluster that the rules read, and the issues they write.
//! Everything here is plain data.

use crate::labels::Labels;
use crate::scan;
use crate::scan::begins;
use crate::text;
use crate::text::cat5;
use vstd::prelude::*;

verus! {

#[derive(Debug, Clone, Default)]
pub struct ClusterGraph {
    pub context: String,
    pub server_version: Option<String>,
    /// Unix seconds when the snapshot was taken.
    pub fetched_at: String,
    pub nodes: Vec<NodeInfo>,
    pub ingresses: Vec<IngressInfo>,
    pub services: Vec<ServiceInfo>,
    pub workloads: Vec<WorkloadInfo>,
    pub pods: Vec<PodInfo>,
    pub events: Vec<EventInfo>,
    pub network_policies: Vec<NetworkPolicyInfo>,
    pub ingress_classes: Vec<String>,
    pub default_ingress_class: Option<String>,
    /// `namespace/name` of every secret, when the names may be listed.
    pub secret_names: Option<Vec<String>>,
    pub pvcs: Vec<PvcInfo>,
    pub hpas: Vec<HpaInfo>,
    pub namespaces: Vec<NamespaceInfo>,
    pub mesh: MeshInfo,
    pub lb_health: Vec<LbHealth>,
    pub issues: Vec<Issue>,
    /// Non-fatal problems while collecting, such as RBAC denials.
    pub warnings: Vec<String>,
}

#[derive(Debug, Clone, Default)]
pub struct NodeInfo {
    pub name: String,
    pub ready: bool,
    pub unschedulable: bool,
    pub instance_type: Option<String>,
    /// The cloud provider's id of the machine.
    pub instance_id: Option<String>,
    pub cpu_allocatable_milli: i64,
    pub memory_allocatable_bytes: i64,
    /// Conditions such as MemoryPressure that are currently True.
    pub pressure: Vec<String>,
    /// Whether the NetworkUnavailable condition is True.
    pub network_unavailable: bool,
}

#[derive(Debug, Clone, Default)]
pub struct IngressInfo {
    pub namespace: String,
    pub name: String,
    pub class_name: Option<String>,
    pub addresses: Vec<String>,
    pub routes: Vec<Route>,
    pub tls_secrets: Vec<String>,
    /// Backends and their health, as GKE's ingress controller publishes them.
    pub gce_backends: Vec<(String, String)>,
}

#[derive(Debug, Clone, Default)]
pub struct Route {
    pub host: Option<String>,
    pub path: String,
    pub service: String,
    pub port: Option<String>,
}

#[derive(Debug, Clone, Default)]
pub struct ServiceInfo {
    pub namespace: String,
    pub name: String,
    pub type_: String,
    pub cluster_ip: Option<String>,
    pub selector: Labels,
    pub ports: Vec<String>,
    pub ports_detail: Vec<ServicePortInfo>,
    pub external: Vec<String>,
    pub ready_endpoints: u32,
    pub not_ready_endpoints: u32,
    /// Names of pods in the same namespace that the selector matches.
    pub pods: Vec<String>,
    /// Ids of workloads whose pod template the selector matches.
    pub workloads: Vec<String>,
}

#[derive(Debug, Clone, Default)]
pub struct ServicePortInfo {
    pub port: i32,
    /// A port number, or the name of a container port.
    pub target: String,
    pub protocol: String,
}

#[derive(Debug, Clone, Default)]
pub struct WorkloadInfo {
    /// `Kind/namespace/name`
    pub id: String,
    pub kind: String,
    pub namespace: String,
    pub name: String,
    pub desired: i32,
    pub ready: i32,
    pub available: i32,
    pub pod_labels: Labels,
    pub containers: Vec<ContainerSpecInfo>,
}

#[derive(Debug, Clone, Default)]
pub struct ContainerSpecInfo {
    pub name: String,
    pub image: String,
    pub cpu_request_milli: Option<i64>,
    pub memory_request_bytes: Option<i64>,
    pub memory_limit_bytes: Option<i64>,
    pub ports: Vec<ContainerPortInfo>,
    pub probes: Vec<ProbeInfo>,
}

#[derive(Debug, Clone, Default)]
pub struct ContainerPortInfo {
    pub name: Option<String>,
    pub port: i32,
    pub protocol: String,
}

#[derive(Debug, Clone, Default)]
pub struct ProbeInfo {
    /// liveness, readiness or startup
    pub kind: String,
    /// http, tcp, grpc or exec
    pub handler: String,
    pub path: Option<String>,
    /// A port number, or the name of a container port.
    pub port: Option<String>,
    pub scheme: Option<String>,
    pub initial_delay: i32,
    pub timeout: i32,
    pub period: i32,
    pub failure_threshold: i32,
}

#[derive(Debug, Clone, Default)]
pub struct PodInfo {
    pub namespace: String,
    pub name: String,
    /// What `kubectl get pods` would print in the STATUS column.
    pub status: String,
    pub phase: String,
    pub ready: bool,
    pub restarts: i32,
    pub node: Option<String>,
    /// Owning workload id, if any.
    pub workload: Option<String>,
    pub labels: Labels,
    pub pod_ip: Option<String>,
    pub created: Option<String>,
    /// The status message, for example why the pod was evicted.
    pub message: Option<String>,
    pub containers: Vec<ContainerStatusInfo>,
    /// Names of the init containers.
    pub init_containers: Vec<String>,
    pub container_ports: Vec<ContainerPortInfo>,
    /// Names of the volume claims the pod mounts.
    pub pvcs: Vec<String>,
}

#[derive(Debug, Clone, Default)]
pub struct ContainerStatusInfo {
    pub name: String,
    pub image: String,
    pub ready: bool,
    pub restart_count: i32,
    /// running, waiting or terminated
    pub state: String,
    pub reason: Option<String>,
    pub message: Option<String>,
    pub last_reason: Option<String>,
    pub last_exit_code: Option<i32>,
    pub cpu_request_milli: Option<i64>,
    pub memory_limit_bytes: Option<i64>,
}

#[derive(Debug, Clone, Default)]
pub struct EventInfo {
    pub namespace: String,
    pub kind: String,
    pub name: String,
    pub type_: String,
    pub reason: String,
    pub message: String,
    pub count: i32,
    pub last_seen: Option<String>,
}

#[derive(Debug, Clone, Default)]
pub struct NetworkPolicyInfo {
    pub namespace: String,
    pub name: String,
    pub pod_selector: Labels,
    /// Whether the pod selector also uses match expressions.
    pub selector_complex: bool,
    pub ingress_type: bool,
    pub egress_type: bool,
    pub ingress: Vec<NpRule>,
    pub egress: Vec<NpRule>,
}

#[derive(Debug, Clone, Default)]
pub struct NpRule {
    /// A description of each peer; none means any.
    pub peers: Vec<String>,
    /// None means all ports.
    pub ports: Vec<NpPort>,
}

#[derive(Debug, Clone, Default)]
pub struct NpPort {
    /// A port number or name; none means every port of the protocol.
    pub port: Option<String>,
    pub end_port: Option<i32>,
    pub protocol: String,
}

#[derive(Debug, Clone, Default)]
pub struct PvcInfo {
    pub namespace: String,
    pub name: String,
    pub phase: String,
    pub storage_class: Option<String>,
}

#[derive(Debug, Clone, Default)]
pub struct HpaInfo {
    pub namespace: String,
    pub name: String,
    /// `Kind/name` of what it scales.
    pub target: String,
    pub min: i32,
    pub max: i32,
    pub current: i32,
    pub desired: i32,
    pub conditions: Vec<ConditionInfo>,
}

#[derive(Debug, Clone, Default)]
pub struct ConditionInfo {
    pub type_: String,
    pub status: String,
    pub reason: Option<String>,
    pub message: Option<String>,
}

#[derive(Debug, Clone, Default)]
pub struct NamespaceInfo {
    pub name: String,
    pub labels: Labels,
}

#[derive(Debug, Clone, Default)]
pub struct MeshInfo {
    pub installed: bool,
    pub virtual_services: Vec<VirtualServiceInfo>,
    pub destination_rules: Vec<DestinationRuleInfo>,
}

#[derive(Debug, Clone, Default)]
pub struct VirtualServiceInfo {
    pub namespace: String,
    pub name: String,
    pub hosts: Vec<String>,
    /// Destination hosts, each with the subset it names.
    pub destinations: Vec<(String, Option<String>)>,
}

#[derive(Debug, Clone, Default)]
pub struct DestinationRuleInfo {
    pub namespace: String,
    pub name: String,
    pub host: String,
    /// Subset names with the labels they select.
    pub subsets: Vec<(String, Labels)>,
}

#[derive(Debug, Clone, Default)]
pub struct LbHealth {
    pub provider: String,
    /// The ingress or service the load balancer belongs to.
    pub source: Target,
    pub lb_name: String,
    pub dns_name: String,
    pub target_groups: Vec<TargetGroupHealth>,
    pub error: Option<String>,
}

#[derive(Debug, Clone, Default)]
pub struct TargetGroupHealth {
    pub name: String,
    /// instance or ip
    pub target_type: String,
    pub port: Option<i32>,
    pub health_check: String,
    pub targets: Vec<TargetHealth>,
}

#[derive(Debug, Clone, Default)]
pub struct TargetHealth {
    pub id: String,
    pub port: Option<i32>,
    pub state: String,
    pub reason: Option<String>,
    pub description: Option<String>,
    /// `namespace/pod` or `node:name` that the target is, if it is known.
    pub resolved: Option<String>,
}

#[derive(Debug, Clone, Copy, PartialEq, Eq, PartialOrd, Ord, Structural)]
pub enum Severity {
    Critical,
    Warning,
}

impl Severity {
    /// Position in the order of issues.
    pub open spec fn rank(self) -> int {
        match self {
            Severity::Critical => 0,
            Severity::Warning => 1,
        }
    }

    /// The place of the severity in the order of issues.
    pub fn place(self) -> (r: u8)
        ensures
            r == self.rank(),
    {
        match self {
            Severity::Critical => 0,
            Severity::Warning => 1,
        }
    }
}

/// Layers in the order a request travels through them.
#[derive(Debug, Clone, Copy, PartialEq, Eq, PartialOrd, Ord, Structural)]
pub enum Layer {
    Entry,
    Service,
    Workload,
    Pod,
    Node,
}

impl Layer {
    /// Position in the order a request travels.
    pub open spec fn rank(self) -> int {
        match self {
            Layer::Entry => 0,
            Layer::Service => 1,
            Layer::Workload => 2,
            Layer::Pod => 3,
            Layer::Node => 4,
        }
    }

    /// The place of the layer in the order a request travels.
    pub fn place(self) -> (r: u8)
        ensures
            r == self.rank(),
    {
        match self {
            Layer::Entry => 0,
            Layer::Service => 1,
            Layer::Workload => 2,
            Layer::Pod => 3,
            Layer::Node => 4,
        }
    }
}

/// What an issue is about, for filtering the list.
#[derive(Debug, Clone, Copy, PartialEq, Eq, PartialOrd, Ord, Structural)]
pub enum Category {
    Routing,
    Network,
    Dns,
    Mesh,
    Images,
    Config,
    Storage,
    Scheduling,
    Capacity,
    Scaling,
    Health,
    Nodes,
    Other,
}

/// The category of a rule, by the start of the issue's id.
pub open spec fn category_of(id: Seq<char>) -> Category {
    if scan::starts_with(id, "np-"@) || scan::starts_with(id, "cni-"@) || scan::starts_with(
        id,
        "kubeproxy-"@,
    ) {
        Category::Network
    } else if scan::starts_with(id, "dns-"@) {
        Category::Dns
    } else if scan::starts_with(id, "mesh-"@) {
        Category::Mesh
    } else if scan::starts_with(id, "pod-imagepull"@) {
        Category::Images
    } else if scan::starts_with(id, "config-"@) || scan::starts_with(id, "pod-config"@)
        || scan::starts_with(id, "admission-"@) {
        Category::Config
    } else if scan::starts_with(id, "storage-"@) {
        Category::Storage
    } else if scan::starts_with(id, "pod-unschedulable"@) {
        Category::Scheduling
    } else if scan::starts_with(id, "quota-"@) {
        Category::Capacity
    } else if scan::starts_with(id, "hpa-"@) {
        Category::Scaling
    } else if scan::starts_with(id, "pod-evicted"@) || scan::starts_with(id, "node-"@) {
        Category::Nodes
    } else if scan::starts_with(id, "pod-"@) || scan::starts_with(id, "probe-"@)
        || scan::starts_with(id, "workload-"@) {
        Category::Health
    } else if scan::starts_with(id, "entry-"@) || scan::starts_with(id, "ingress-"@)
        || scan::starts_with(id, "lb-"@) || scan::starts_with(id, "svc-"@) {
        Category::Routing
    } else {
        Category::Other
    }
}

impl Category {
    /// The category of the rule that an issue id belongs to.
    pub fn for_rule(id: &str) -> (r: Category)
        ensures
            r == category_of(id@),
    {
        if begins(id, "np-") || begins(id, "cni-") || begins(id, "kubeproxy-") {
            Category::Network
        } else if begins(id, "dns-") {
            Category::Dns
        } else if begins(id, "mesh-") {
            Category::Mesh
        } else if begins(id, "pod-imagepull") {
            Category::Images
        } else if begins(id, "config-") || begins(id, "pod-config") || begins(id, "admission-") {
            Category::Config
        } else if begins(id, "storage-") {
            Category::Storage
        } else if begins(id, "pod-unschedulable") {
            Category::Scheduling
        } else if begins(id, "quota-") {
            Category::Capacity
        } else if begins(id, "hpa-") {
            Category::Scaling
        } else if begins(id, "pod-evicted") || begins(id, "node-") {
            Category::Nodes
        } else if begins(id, "pod-") || begins(id, "probe-") || begins(id, "workload-") {
            Category::Health
        } else if begins(id, "entry-") || begins(id, "ingress-") || begins(id, "lb-") || begins(
            id,
            "svc-",
        ) {
            Category::Routing
        } else {
            Category::Other
        }
    }
}

#[derive(Debug, Clone, Default, PartialEq, Eq)]
pub struct Target {
    pub kind: String,
    pub namespace: String,
    pub name: String,
}

/// The texts of a target.
#[verifier::ext_equal]
pub struct TargetView {
    pub kind: Seq<char>,
    pub namespace: Seq<char>,
    pub name: Seq<char>,
}

impl View for Target {
    type V = TargetView;

    open spec fn view(&self) -> TargetView {
        TargetView { kind: self.kind@, namespace: self.namespace@, name: self.name@ }
    }
}

impl Target {
    /// A copy of the target.
    pub fn copy(&self) -> (r: Target)
        ensures
            r@ == self@,
    {
        Target {
            kind: self.kind.clone(),
            namespace: self.namespace.clone(),
            name: self.name.clone(),
        }
    }
}

/// What an issue points at.
pub open spec fn target_view(kind: Seq<char>, ns: Seq<char>, name: Seq<char>) -> TargetView {
    TargetView { kind, namespace: ns, name }
}

/// Name what an issue points at.
pub fn target(kind: &str, ns: &str, name: &str) -> (r: Target)
    ensures
        r@ == target_view(kind@, ns@, name@),
{
    Target { kind: kind.to_owned(), namespace: ns.to_owned(), name: name.to_owned() }
}

#[derive(Debug, Clone)]
pub struct Issue {
    pub id: String,
    pub severity: Severity,
    pub layer: Layer,
    pub category: Category,
    pub target: Target,
    pub title: String,
    pub detail: String,
    pub evidence: Vec<String>,
    pub suggestion: String,
    /// Read-only commands the user can run to confirm the finding.
    pub commands: Vec<String>,
    /// Pods this issue covers, when it is grouped per workload.
    pub pods: Vec<String>,
}

/// The texts of an issue.
#[verifier::ext_equal]
pub struct IssueView {
    pub id: Seq<char>,
    pub severity: Severity,
    pub layer: Layer,
    pub category: Category,
    pub target: TargetView,
    pub title: Seq<char>,
    pub detail: Seq<char>,
    pub evidence: Seq<Seq<char>>,
    pub suggestion: Seq<char>,
    pub commands: Seq<Seq<char>>,
    pub pods: Seq<Seq<char>>,
}

impl View for Issue {
    type V = IssueView;

    open spec fn view(&self) -> IssueView {
        IssueView {
            id: self.id@,
            severity: self.severity,
            layer: self.layer,
            category: self.category,
            target: self.target@,
            title: self.title@,
            detail: self.detail@,
            evidence: text::strs(self.evidence@),
            suggestion: self.suggestion@,
            commands: text::strs(self.commands@),
            pods: text::strs(self.pods@),
        }
    }
}

/// The texts of a list of issues.
pub open spec fn views(v: Seq<Issue>) -> Seq<IssueView> {
    v.map_values(|i: Issue| i@)
}

/// An issue, filed under the category of its id.
pub open spec fn issue_view(
    id: Seq<char>,
    severity: Severity,
    layer: Layer,
    target: TargetView,
    title: Seq<char>,
    detail: Seq<char>,
    evidence: Seq<Seq<char>>,
    suggestion: Seq<char>,
    commands: Seq<Seq<char>>,
    pods: Seq<Seq<char>>,
) -> IssueView {
    IssueView {
        id,
        severity,
        layer,
        category: category_of(id),
        target,
        title,
        detail,
        evidence,
        suggestion,
        commands,
        pods,
    }
}

/// Write an issue, filed under the category of its id.
pub fn issue(
    id: String,
    severity: Severity,
    layer: Layer,
    t: Target,
    title: String,
    detail: String,
    evidence: Vec<String>,
    suggestion: String,
    commands: Vec<String>,
    pods: Vec<String>,
) -> (r: Issue)
    ensures
        r@ == issue_view(
            id@,
            severity,
            layer,
            t@,
            title@,
            detail@,
            text::strs(evidence@),
            suggestion@,
            text::strs(commands@),
            text::strs(pods@),
        ),
{
    let category: Category = Category::for_rule(id.as_str());
    Issue {
        id,
        severity,
        layer,
        category,
        target: t,
        title,
        detail,
        evidence,
        suggestion,
        commands,
        pods,
    }
}

/// Add an issue to a list.
pub fn emit(out: &mut Vec<Issue>, i: Issue)
    ensures
        views(final(out)@) == views(old(out)@).push(i@),
        views(final(out)@) == views(old(out)@) + seq![i@],
{
    let ghost was = out@;
    out.push(i);
    proof {
        assert(views(out@) =~= views(was).push(i@));
        assert(views(out@) =~= views(was) + seq![i@]);
    }
}

/// Add a list of issues to a list.
pub fn emit_all(out: &mut Vec<Issue>, more: Vec<Issue>)
    ensures
        views(final(out)@) == views(old(out)@) + views(more@),
{
    let ghost was = out@;
    let mut m = more;
    out.append(&mut m);
    proof {
        assert(views(out@) =~= views(was) + views(more@));
    }
}

/// No issues.
pub fn no_issues() -> (r: Vec<Issue>)
    ensures
        views(r@) == Seq::<IssueView>::empty(),
{
    let r: Vec<Issue> = Vec::new();
    proof {
        assert(views(r@) =~= Seq::<IssueView>::empty());
    }
    r
}

/// The id of a workload: `Kind/namespace/name`.
pub open spec fn workload_key(kind: Seq<char>, namespace: Seq<char>, name: Seq<char>) -> Seq<char> {
    kind + "/"@ + namespace + "/"@ + name
}

/// Make the id of a workload.
pub fn workload_id(kind: &str, namespace: &str, name: &str) -> (r: String)
    ensures
        r@ == workload_key(kind@, namespace@, name@),
{
    cat5(kind, "/", namespace, "/", name)
}

} // verus!
