//! Converts what the cluster's API returned into a cluster graph.

pub mod copies;
pub mod events;
pub mod graph;
pub mod ingresses;
pub mod nodes;
pub mod parts;
pub mod pods;
pub mod policies;
pub mod raw;
pub mod services;

pub use graph::{build_graph, build_graph_at, describe_err, describe_failure, take, with_health};
pub use raw::{CollectOptions, RawSnapshot};
