//! What the cluster's API returned, as plain values: the parts of each object
//! that the graph is made of.

use crate::labels::Labels;
use crate::model::{ConditionInfo, MeshInfo, NamespaceInfo, PvcInfo};
use vstd::prelude::*;

verus! {

/// What to look at beyond the cluster itself.
#[derive(Debug, Clone, Default)]
pub struct CollectOptions {
    /// Whether to ask the cloud about its load balancers.
    pub cloud_checks: bool,
    /// The AWS profile and region to use in place of the kubeconfig's.
    pub aws_profile: Option<String>,
    pub aws_region: Option<String>,
}

/// The objects of a cluster as they were listed.
#[derive(Debug, Clone, Default)]
pub struct RawSnapshot {
    pub nodes: Vec<RawNode>,
    pub pods: Vec<RawPod>,
    pub services: Vec<RawService>,
    pub slices: Vec<RawSlice>,
    pub ingresses: Vec<RawIngress>,
    pub deployments: Vec<RawWorkload>,
    pub statefulsets: Vec<RawWorkload>,
    pub daemonsets: Vec<RawWorkload>,
    pub replicasets: Vec<RawReplicaSet>,
    pub events: Vec<RawEvent>,
    pub network_policies: Vec<RawNetworkPolicy>,
    pub ingress_classes: Vec<RawClass>,
    /// `namespace/name` of every secret, when the names may be listed.
    pub secret_names: Option<Vec<String>>,
    pub pvcs: Vec<PvcInfo>,
    pub hpas: Vec<RawHpa>,
    pub namespaces: Vec<NamespaceInfo>,
    pub mesh: MeshInfo,
}

/// A condition of a node or a pod.
#[derive(Debug, Clone, Default)]
pub struct RawCondition {
    pub type_: String,
    pub status: String,
}

#[derive(Debug, Clone, Default)]
pub struct RawNode {
    pub name: Option<String>,
    pub labels: Labels,
    pub unschedulable: Option<bool>,
    /// For example `aws:///us-east-1a/i-0abc`.
    pub provider_id: Option<String>,
    pub conditions: Vec<RawCondition>,
    /// What pods may use of the node, as quantities.
    pub cpu: Option<String>,
    pub memory: Option<String>,
}

/// A reference to the owner of an object.
#[derive(Debug, Clone, Default)]
pub struct RawOwner {
    pub kind: String,
    pub name: String,
    pub controller: Option<bool>,
}

#[derive(Debug, Clone, Default)]
pub struct RawPort {
    pub name: Option<String>,
    pub port: i32,
    pub protocol: Option<String>,
}

/// A container of a pod or of a pod template, with its resources as
/// quantities.
#[derive(Debug, Clone, Default)]
pub struct RawContainer {
    pub name: String,
    pub image: Option<String>,
    pub cpu_request: Option<String>,
    pub memory_request: Option<String>,
    pub memory_limit: Option<String>,
    pub ports: Vec<RawPort>,
    pub probes: Vec<RawProbe>,
}

/// How a probe asks over HTTP.
#[derive(Debug, Clone)]
pub struct RawHttp {
    pub path: Option<String>,
    pub port: PortRef,
    pub scheme: Option<String>,
}

/// A probe of a container. It asks over HTTP, TCP or gRPC, or runs a command.
#[derive(Debug, Clone, Default)]
pub struct RawProbe {
    /// liveness, readiness or startup
    pub kind: String,
    pub http: Option<RawHttp>,
    pub tcp: Option<PortRef>,
    pub grpc: Option<i32>,
    pub initial_delay: Option<i32>,
    pub timeout: Option<i32>,
    pub period: Option<i32>,
    pub failure_threshold: Option<i32>,
}

/// A deployment, a stateful set or a daemon set.
#[derive(Debug, Clone, Default)]
pub struct RawWorkload {
    pub namespace: Option<String>,
    pub name: Option<String>,
    pub desired: Option<i32>,
    pub ready: Option<i32>,
    pub available: Option<i32>,
    /// The labels of its pod template.
    pub labels: Labels,
    pub containers: Vec<RawContainer>,
}

#[derive(Debug, Clone, Default)]
pub struct RawReplicaSet {
    pub namespace: Option<String>,
    pub name: Option<String>,
    pub owners: Vec<RawOwner>,
}

/// Why a container waits or ended.
#[derive(Debug, Clone, Default)]
pub struct RawReason {
    pub reason: Option<String>,
    pub message: Option<String>,
}

/// The state of a container.
#[derive(Debug, Clone, Default)]
pub struct RawState {
    pub running: bool,
    pub waiting: Option<RawReason>,
    pub terminated: Option<RawReason>,
}

/// How a container ended the last time.
#[derive(Debug, Clone, Default)]
pub struct RawEnd {
    pub reason: Option<String>,
    pub exit_code: i32,
}

#[derive(Debug, Clone, Default)]
pub struct RawStatus {
    pub name: String,
    pub ready: bool,
    pub restart_count: i32,
    pub state: Option<RawState>,
    pub last: Option<RawEnd>,
}

#[derive(Debug, Clone, Default)]
pub struct RawPod {
    pub namespace: Option<String>,
    pub name: Option<String>,
    pub labels: Labels,
    pub owners: Vec<RawOwner>,
    pub created: Option<String>,
    /// Whether the pod is being deleted.
    pub deleting: bool,
    pub node: Option<String>,
    pub containers: Vec<RawContainer>,
    /// Names of the init containers.
    pub init_containers: Vec<String>,
    /// Names of the volume claims the pod mounts.
    pub claims: Vec<String>,
    pub phase: Option<String>,
    pub reason: Option<String>,
    pub message: Option<String>,
    pub pod_ip: Option<String>,
    pub conditions: Vec<RawCondition>,
    pub statuses: Vec<RawStatus>,
    pub init_statuses: Vec<RawStatus>,
}

/// A port by number or by name.
#[derive(Debug, Clone)]
pub enum PortRef {
    Number(i32),
    Name(String),
}

#[derive(Debug, Clone, Default)]
pub struct RawServicePort {
    pub port: i32,
    pub target: Option<PortRef>,
    pub protocol: Option<String>,
}

/// An address that a load balancer has.
#[derive(Debug, Clone, Default)]
pub struct RawAddress {
    pub hostname: Option<String>,
    pub ip: Option<String>,
}

#[derive(Debug, Clone, Default)]
pub struct RawService {
    pub namespace: Option<String>,
    pub name: Option<String>,
    pub type_: Option<String>,
    pub cluster_ip: Option<String>,
    pub selector: Labels,
    pub ports: Vec<RawServicePort>,
    pub addresses: Vec<RawAddress>,
}

/// An endpoint slice: for each endpoint, whether it is ready.
#[derive(Debug, Clone, Default)]
pub struct RawSlice {
    pub namespace: Option<String>,
    pub labels: Labels,
    pub endpoints: Vec<Option<bool>>,
}

/// What an ingress route leads to, where that is a service.
#[derive(Debug, Clone, Default)]
pub struct RawBackend {
    pub service: Option<String>,
    pub port_number: Option<i32>,
    pub port_name: Option<String>,
}

#[derive(Debug, Clone, Default)]
pub struct RawPath {
    pub path: Option<String>,
    pub backend: RawBackend,
}

#[derive(Debug, Clone, Default)]
pub struct RawRule {
    pub host: Option<String>,
    pub paths: Vec<RawPath>,
}

#[derive(Debug, Clone, Default)]
pub struct RawIngress {
    pub namespace: Option<String>,
    pub name: Option<String>,
    pub class_name: Option<String>,
    pub default_backend: Option<RawBackend>,
    pub rules: Vec<RawRule>,
    pub addresses: Vec<RawAddress>,
    pub tls_secrets: Vec<String>,
    /// What GKE's ingress controller says of the backends: JSON text.
    pub gce_status: Option<String>,
}

/// An ingress class, and what its annotation says about being the default.
#[derive(Debug, Clone, Default)]
pub struct RawClass {
    pub name: Option<String>,
    pub default_mark: Option<String>,
}

/// A horizontal pod autoscaler.
#[derive(Debug, Clone, Default)]
pub struct RawHpa {
    pub namespace: Option<String>,
    pub name: Option<String>,
    pub target_kind: String,
    pub target_name: String,
    pub min: Option<i32>,
    pub max: i32,
    pub current: Option<i32>,
    pub desired: i32,
    pub conditions: Vec<ConditionInfo>,
}

/// An event, with its times as text.
#[derive(Debug, Clone, Default)]
pub struct RawEvent {
    pub namespace: Option<String>,
    pub kind: Option<String>,
    pub name: Option<String>,
    pub type_: Option<String>,
    pub reason: Option<String>,
    pub message: Option<String>,
    pub count: Option<i32>,
    pub last_timestamp: Option<String>,
    pub event_time: Option<String>,
    pub created: Option<String>,
}

/// A label selector.
#[derive(Debug, Clone, Default)]
pub struct RawSelector {
    pub labels: Labels,
    /// Whether it also uses match expressions.
    pub expressions: bool,
}

/// A peer of a network policy rule.
#[derive(Debug, Clone, Default)]
pub struct RawPeer {
    pub pods: Option<RawSelector>,
    pub namespaces: Option<RawSelector>,
    /// The CIDR of an IP block.
    pub ip_block: Option<String>,
}

#[derive(Debug, Clone, Default)]
pub struct RawNpPort {
    pub port: Option<PortRef>,
    pub end_port: Option<i32>,
    pub protocol: Option<String>,
}

#[derive(Debug, Clone, Default)]
pub struct RawNpRule {
    pub peers: Vec<RawPeer>,
    pub ports: Vec<RawNpPort>,
}

#[derive(Debug, Clone, Default)]
pub struct RawNetworkPolicy {
    pub namespace: Option<String>,
    pub name: Option<String>,
    pub selector: RawSelector,
    /// The policy types, where they are given.
    pub types: Option<Vec<String>>,
    pub ingress: Vec<RawNpRule>,
    pub egress: Vec<RawNpRule>,
}

} // verus!
