//! Active network tests.
//!
//! This is the only part of Tessera that creates anything in a cluster. It
//! runs only when the user asks for a test and approves the plan, which
//! includes the exact pod manifests. Each test creates short-lived probe pods
//! (busybox, non-root, no service account token, no capabilities, 90-second
//! deadline), reads their output, and deletes them.
//!
//! One probe runs on the node of a target pod and, when possible, one on a
//! different node. Comparing what each can reach separates:
//! - DNS problems (names don't resolve),
//! - kube-proxy problems (pod IPs work, the service IP doesn't),
//! - CNI problems (same-node works, cross-node doesn't),
//! - NetworkPolicy or security group drops (connections time out),
//! - app problems (connections refused, health endpoints returning errors).

pub mod analysis;
pub mod check;
pub mod planning;
pub mod running;
pub mod script;

pub use crate::active::analysis::analyze;
pub use crate::active::check::{
    CheckResult, Finding, NetworkTestReport, NetworkTestRequest, PlannedCheck, PlannedProbe,
    ProbeRun, TestPlan,
};
pub use crate::active::planning::plan;
pub use crate::active::running::{Action, Event, TestRun, Waiting};
pub use crate::active::script::{
    manifest, parse_output, safe_host, safe_path, script_for, DEFAULT_IMAGE, PROBE_LABEL,
};
