//! Core engine for Tessera: builds a traffic-path snapshot of a Kubernetes
//! cluster out of what its API returned, and diagnoses where requests break.

pub mod active;
pub mod advice;
pub mod audit;
pub mod clock;
pub mod cloud;
pub mod collect;
pub mod decimal;
pub mod diagnose;
pub mod extended;
pub mod guard;
pub mod json;
pub mod kubeconfig;
pub mod labels;
pub mod laws;
pub mod lettercase;
pub mod model;
pub mod numeral;
pub mod order;
pub mod pick;
pub mod policy;
pub mod quantity;
pub mod reading;
pub mod rules;
pub mod scan;
pub mod shell_env;
pub mod split;
pub mod text;

pub use crate::advice::explain_error;
pub use crate::collect::{build_graph, build_graph_at, CollectOptions, RawSnapshot};
pub use crate::diagnose::diagnose;
pub use crate::kubeconfig::{list_contexts, ContextInfo, Contexts};
pub use crate::labels::{labels_match, Labels};
pub use crate::model::{
    workload_id, Category, ClusterGraph, ConditionInfo, ContainerPortInfo, ContainerSpecInfo,
    ContainerStatusInfo, DestinationRuleInfo, EventInfo, HpaInfo, IngressInfo, Issue, Layer,
    LbHealth, MeshInfo, NamespaceInfo, NetworkPolicyInfo, NodeInfo, NpPort, NpRule, PodInfo,
    ProbeInfo, PvcInfo, Route, ServiceInfo, ServicePortInfo, Severity, Target, TargetGroupHealth,
    TargetHealth, VirtualServiceInfo, WorkloadInfo,
};
