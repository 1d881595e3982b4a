//! Health of cloud load balancers, read through the cloud's own command line.

pub mod access;
pub mod calls;
pub mod health;
pub mod names;

pub use access::AwsEnv;
pub use calls::{read_reply, Answered, AwsCall, CliOutcome};
pub use health::{load_balancer_health, Progress};
pub use names::{aws_load_balancers, explain_aws_error, region_from_dns};
