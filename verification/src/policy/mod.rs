//! Environment guardrails: which contexts are production, what is allowed
//! where, and an organisation policy that users can't override.

pub mod pattern;
pub mod rules;

pub use pattern::glob;
pub use rules::{Environment, Policy, PolicyFile, PolicySource};
