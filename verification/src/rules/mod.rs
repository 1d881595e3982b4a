//! The diagnosis rules, by what they look at.

pub mod admission;
pub mod balancer;
pub mod cni;
pub mod dns;
pub mod entry;
pub mod eviction;
pub mod hpa;
pub mod ingress;
pub mod mesh;
pub mod network;
pub mod node;
pub mod pod;
pub mod ports;
pub mod probes;
pub mod service;
pub mod storage;
pub mod targets;
pub mod workload;
