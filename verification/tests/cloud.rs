//! Tests for the cloud checks.

use tessera_core::cloud::{explain_aws_error, region_from_dns};

#[test]
fn regions() {
    assert_eq!(
        region_from_dns("k8s-web-edge-1a2b3c-123456.us-east-1.elb.amazonaws.com").as_deref(),
        Some("us-east-1")
    );
    assert_eq!(region_from_dns("k8s-web-nlb-abc.elb.eu-west-2.amazonaws.com").as_deref(), Some("eu-west-2"));
    assert_eq!(region_from_dns("a1b2c3-99.us-gov-west-1.elb.amazonaws.com").as_deref(), Some("us-gov-west-1"));
    assert_eq!(region_from_dns("example.com"), None);
}

#[test]
fn errors_are_explained() {
    assert!(explain_aws_error("An error occurred (ExpiredToken) when calling").contains("aws sso login"));
    assert!(explain_aws_error("An error occurred (AccessDenied)").contains("Describe"));
}

use tessera_core::cloud::health::find_name;
use tessera_core::cloud::{
    aws_load_balancers, load_balancer_health, read_reply, Answered, AwsCall, AwsEnv, CliOutcome,
    Progress,
};
use tessera_core::kubeconfig::{EnvVar, ExecPlugin, KubeConfig, KubeContext, KubeUser};
use tessera_core::{ClusterGraph, CollectOptions, IngressInfo, LbHealth, NodeInfo, PodInfo, ServiceInfo};

const DNS: &str = "k8s-web-1.us-east-1.elb.amazonaws.com";

fn ingress(name: &str, addresses: &[&str]) -> IngressInfo {
    IngressInfo {
        namespace: "web".into(),
        name: name.into(),
        addresses: addresses.iter().map(|s| s.to_string()).collect(),
        ..Default::default()
    }
}

fn graph() -> ClusterGraph {
    ClusterGraph {
        ingresses: vec![ingress("edge", &[DNS])],
        nodes: vec![NodeInfo {
            name: "node-a".into(),
            instance_id: Some("i-0abc".into()),
            ..Default::default()
        }],
        pods: vec![PodInfo {
            namespace: "web".into(),
            name: "shop-1".into(),
            pod_ip: Some("10.0.1.5".into()),
            ..Default::default()
        }],
        ..Default::default()
    }
}

fn said(text: &str) -> CliOutcome {
    CliOutcome::Exited { success: true, stdout: text.as_bytes().to_vec(), stderr: String::new() }
}

/// Answers every call by its second argument.
fn check(
    g: &ClusterGraph,
    env: &AwsEnv,
    answer: &dyn Fn(&AwsCall) -> CliOutcome,
) -> (Vec<LbHealth>, Vec<AwsCall>) {
    let mut known: Vec<Answered> = Vec::new();
    let mut asked: Vec<AwsCall> = Vec::new();
    loop {
        match load_balancer_health(g, env, &known) {
            Progress::Done(v) => return (v, asked),
            Progress::Ask(call) => {
                assert!(known.len() < 50, "asks for ever");
                asked.push(call.clone());
                known.push(Answered { reply: read_reply(&answer(&call)), call });
            }
        }
    }
}

#[test]
fn load_balancers_are_listed_once() {
    let mut g = graph();
    g.ingresses.push(ingress("other", &[DNS, "example.com", "1.2.3.4"]));
    g.services = vec![
        ServiceInfo {
            namespace: "web".into(),
            name: "public".into(),
            type_: "LoadBalancer".into(),
            external: vec!["a-1.eu-west-1.elb.amazonaws.com".into()],
            ..Default::default()
        },
        ServiceInfo {
            namespace: "web".into(),
            name: "inner".into(),
            type_: "ClusterIP".into(),
            external: vec!["b-1.eu-west-1.elb.amazonaws.com".into()],
            ..Default::default()
        },
    ];
    let v = aws_load_balancers(&g);
    assert_eq!(v.len(), 2);
    assert_eq!((v[0].0.kind.as_str(), v[0].0.name.as_str(), v[0].1.as_str()), ("Ingress", "edge", DNS));
    assert_eq!(v[1].0.name, "public");
}

#[test]
fn a_modern_balancer_is_read() {
    let g = graph();
    let (v, asked) = check(&g, &AwsEnv::default(), &|c| {
        said(match c.args[1].as_str() {
            // The name is compared without its case, prefix and last dot.
            "describe-load-balancers" => {
                r#"{"LoadBalancers": [{"DNSName": "other"}, {"DNSName":
                "dualstack.K8S-web-1.us-east-1.elb.amazonaws.com.",
                "LoadBalancerName": "k8s-web", "LoadBalancerArn": "arn:lb"}]}"#
            }
            "describe-target-groups" => {
                r#"{"TargetGroups": [
                {"TargetGroupArn": "arn:tg1", "TargetGroupName": "tg1", "TargetType": "ip", "Port": 8080,
                 "HealthCheckProtocol": "HTTP", "HealthCheckPath": "/healthz",
                 "HealthCheckPort": "traffic-port", "Matcher": {"HttpCode": "200"}},
                {"TargetGroupArn": "arn:tg2"}]}"#
            }
            _ => {
                if c.args[3] == "arn:tg1" {
                    r#"{"TargetHealthDescriptions": [{"Target": {"Id": "10.0.1.5", "Port": 8080},
                    "TargetHealth": {"State": "unhealthy", "Reason": "Target.Timeout",
                    "Description": "Request timed out"}}]}"#
                } else {
                    r#"{"TargetHealthDescriptions": [{"Target": {"Id": "i-0abc"}}]}"#
                }
            }
        })
    });
    assert_eq!(v.len(), 1);
    let h = &v[0];
    assert_eq!((h.provider.as_str(), h.lb_name.as_str(), h.dns_name.as_str()), ("aws", "k8s-web", DNS));
    assert_eq!(h.error, None);
    assert_eq!(h.target_groups.len(), 2);
    let t = &h.target_groups[0];
    assert_eq!(t.health_check, "HTTP /healthz on port traffic-port, expects 200");
    assert_eq!((t.name.as_str(), t.target_type.as_str(), t.port), ("tg1", "ip", Some(8080)));
    assert_eq!(t.targets[0].resolved.as_deref(), Some("web/shop-1"));
    assert_eq!(t.targets[0].state, "unhealthy");
    assert_eq!(t.targets[0].reason.as_deref(), Some("Target.Timeout"));
    let u = &h.target_groups[1];
    assert_eq!(u.health_check, "TCP on port traffic-port");
    assert_eq!(u.target_type, "instance");
    assert_eq!(u.targets[0].resolved.as_deref(), Some("node:node-a"));
    assert_eq!((u.targets[0].state.as_str(), u.targets[0].port), ("unknown", None));
    assert_eq!(asked.len(), 4);
    assert_eq!(
        asked[1].command_args(),
        vec![
            "elbv2",
            "describe-target-groups",
            "--load-balancer-arn",
            "arn:lb",
            "--region",
            "us-east-1",
            "--output",
            "json"
        ]
    );
}

#[test]
fn a_classic_balancer_is_read() {
    let g = graph();
    let (v, asked) = check(&g, &AwsEnv::default(), &|c| {
        said(match (c.args[0].as_str(), c.args[1].as_str()) {
            ("elbv2", _) => r#"{"LoadBalancers": []}"#,
            ("elb", "describe-load-balancers") => {
                r#"{"LoadBalancerDescriptions": [{"DNSName": "k8s-web-1.us-east-1.elb.amazonaws.com",
                "LoadBalancerName": "old", "HealthCheck": {"Target": "TCP:30080"}}]}"#
            }
            _ => {
                r#"{"InstanceStates": [
                {"InstanceId": "i-0abc", "State": "InService", "ReasonCode": "N/A", "Description": "N/A"},
                {"InstanceId": "i-9", "State": "OutOfService", "ReasonCode": "Instance",
                 "Description": "failed"}]}"#
            }
        })
    });
    let h = &v[0];
    assert_eq!((h.lb_name.as_str(), h.error.as_deref()), ("old", None));
    let t = &h.target_groups[0];
    assert_eq!((t.name.as_str(), t.health_check.as_str()), ("old", "TCP:30080"));
    assert_eq!(t.targets[0].state, "healthy");
    assert_eq!(t.targets[0].reason, None);
    assert_eq!(t.targets[0].resolved.as_deref(), Some("node:node-a"));
    assert_eq!(t.targets[1].state, "unhealthy");
    assert_eq!(t.targets[1].description.as_deref(), Some("failed"));
    assert_eq!(t.targets[1].resolved, None);
    assert_eq!(asked[2].args, vec!["elb", "describe-instance-health", "--load-balancer-name", "old"]);
}

#[test]
fn failures_are_told() {
    let mut g = graph();
    // Found nowhere.
    let (v, _) = check(&g, &AwsEnv::default(), &|_| said("{}"));
    assert_eq!(
        v[0].error.as_deref(),
        Some("Couldn't find the load balancer k8s-web-1.us-east-1.elb.amazonaws.com in us-east-1 with your AWS identity.")
    );
    // The first call fails, in every way it can.
    let cases = [
        (CliOutcome::TimedOut, "The aws CLI didn't answer within 30 seconds."),
        (
            CliOutcome::NotInstalled,
            "Cloud checks need the aws CLI, which isn't installed or isn't on PATH.",
        ),
        (CliOutcome::Broken("no".into()), "Couldn't run the aws CLI: no"),
        (
            CliOutcome::Exited { success: false, stdout: vec![], stderr: "one\ntwo\n".into() },
            "AWS CLI error: two",
        ),
        (
            CliOutcome::Exited { success: false, stdout: vec![], stderr: "  ".into() },
            "AWS CLI error: ",
        ),
    ];
    for (outcome, told) in cases {
        let (v, asked) = check(&g, &AwsEnv::default(), &|_| outcome.clone());
        assert_eq!(v[0].error.as_deref(), Some(told));
        assert_eq!(asked.len(), 1);
    }
    let (v, _) = check(&g, &AwsEnv::default(), &|_| said("not json"));
    assert!(v[0].error.as_deref().unwrap().starts_with("Unexpected aws CLI output: expected"));
    // One region is asked about once, and the error of a group does not hide the others.
    g.ingresses.push(ingress("two", &["k8s-web-2.us-east-1.elb.amazonaws.com"]));
    let (v, asked) = check(&g, &AwsEnv::default(), &|c| match c.args[1].as_str() {
        "describe-load-balancers" => said(
            r#"{"LoadBalancers": [{"DNSName": "k8s-web-1.us-east-1.elb.amazonaws.com"},
            {"DNSName": "k8s-web-2.us-east-1.elb.amazonaws.com"}]}"#,
        ),
        "describe-target-groups" => said(r#"{"TargetGroups": [{"TargetGroupName": "tg"}]}"#),
        _ => CliOutcome::TimedOut,
    });
    assert_eq!(asked.len(), 5);
    assert_eq!(v[1].target_groups[0].name, "tg");
    assert!(v[1].error.is_some());
    // No region at all.
    g.ingresses = vec![ingress("edge", &["x.elb.amazonaws.com"])];
    let (v, asked) = check(&g, &AwsEnv::default(), &|_| said("{}"));
    assert_eq!(
        v[0].error.as_deref(),
        Some("Couldn't tell which AWS region x.elb.amazonaws.com is in. Set a region in settings.")
    );
    assert!(asked.is_empty());
    let env = AwsEnv { region: Some("eu-west-3".into()), ..Default::default() };
    let (_, asked) = check(&g, &env, &|_| said("{}"));
    assert_eq!(asked[0].region, "eu-west-3");
}

#[test]
fn only_describe_commands_are_asked() {
    let mut g = graph();
    g.ingresses.push(ingress("two", &["k8s-web-2.eu-west-1.elb.amazonaws.com"]));
    let (_, asked) = check(&g, &AwsEnv::default(), &|c| match c.args[1].as_str() {
        "describe-load-balancers" => said(
            r#"{"LoadBalancers": [{"DNSName": "k8s-web-1.us-east-1.elb.amazonaws.com"}],
            "LoadBalancerDescriptions": [{"DNSName": "k8s-web-2.eu-west-1.elb.amazonaws.com"}]}"#,
        ),
        _ => said(r#"{"TargetGroups": [{}, {}]}"#),
    });
    assert!(asked.iter().all(|c| c.is_read_only()));
    let other = AwsCall { region: "r".into(), args: vec!["elb".into(), "delete-load-balancer".into()], place: None };
    assert!(!other.is_read_only());
    assert!(!AwsCall { args: vec!["elb".into()], ..other }.is_read_only());
    let verbs: Vec<String> = asked.iter().map(|c| format!("{} {}", c.args[0], c.args[1])).collect();
    assert_eq!(
        verbs,
        vec![
            "elbv2 describe-load-balancers",
            "elbv2 describe-target-groups",
            "elbv2 describe-target-health",
            "elbv2 describe-target-health",
            "elbv2 describe-load-balancers",
            "elb describe-load-balancers",
            "elb describe-instance-health",
        ]
    );
}

#[test]
fn names_are_found_as_they_are() {
    let names = vec![None, Some("a".to_string()), Some("b".to_string()), Some("b".to_string())];
    assert_eq!(find_name(&names, "b"), Some(2));
    assert_eq!(find_name(&names, "B"), None);
}

#[test]
fn the_identity_of_a_context_is_used() {
    let var = |n: &str, v: &str| EnvVar { name: Some(n.into()), value: Some(v.into()) };
    let config = KubeConfig {
        current: None,
        contexts: vec![
            KubeContext { name: "dev".into(), user: Some("d".into()), ..Default::default() },
            KubeContext { name: "prod".into(), user: Some("p".into()), ..Default::default() },
            KubeContext { name: "bare".into(), ..Default::default() },
        ],
        users: vec![
            KubeUser {
                name: "d".into(),
                plugin: Some(ExecPlugin {
                    args: ["eks", "--region", "us-east-1", "--profile", "dev-sso"].map(String::from).to_vec(),
                    env: vec![var("AWS_REGION", "x"), var("AWS_PROFILE", "first"), var("AWS_PROFILE", "last")],
                }),
            },
            KubeUser {
                name: "p".into(),
                plugin: Some(ExecPlugin {
                    args: ["eks", "--profile"].map(String::from).to_vec(),
                    env: vec![var("AWS_DEFAULT_REGION", "eu-west-1"), var("AWS_REGION", "eu-west-2")],
                }),
            },
        ],
    };
    let opts = CollectOptions::default();
    let dev = AwsEnv::for_context("dev", &opts, Some(&config));
    assert_eq!((dev.profile.as_deref(), dev.region.as_deref()), (Some("last"), Some("us-east-1")));
    let prod = AwsEnv::for_context("prod", &opts, Some(&config));
    assert_eq!((prod.profile.as_deref(), prod.region.as_deref()), (None, Some("eu-west-1")));
    for (context, config) in [("bare", Some(&config)), ("gone", Some(&config)), ("dev", None)] {
        let e = AwsEnv::for_context(context, &opts, config);
        assert_eq!((e.profile, e.region), (None, None));
    }
    let set = CollectOptions {
        aws_profile: Some("mine".into()),
        aws_region: Some("".into()),
        ..Default::default()
    };
    let e = AwsEnv::for_context("dev", &set, Some(&config));
    assert_eq!((e.profile.as_deref(), e.region.as_deref()), (Some("mine"), Some("us-east-1")));
    assert_eq!(
        e.command_env(),
        vec![("AWS_PAGER".to_string(), "".to_string()), ("AWS_PROFILE".to_string(), "mine".to_string())]
    );
}

#[test]
fn unknown_aws_errors_keep_their_last_line() {
    assert_eq!(explain_aws_error("a\nb\r\n\n"), "AWS CLI error: b");
    assert!(explain_aws_error("Unable to locate credentials").contains("No AWS credentials"));
    assert!(explain_aws_error("UnauthorizedOperation").contains("isn't allowed"));
}

#[test]
fn names_that_look_like_regions_are_no_regions() {
    let region = |dns: &str| region_from_dns(dns);
    assert_eq!(region("my-app-1234567890.us-east-1.elb.amazonaws.com").as_deref(), Some("us-east-1"));
    assert_eq!(region("my-app-1.elb.eu-west-2.amazonaws.com").as_deref(), Some("eu-west-2"));
    assert_eq!(region("dualstack.my-app-1.ap-south-1.elb.amazonaws.com.").as_deref(), Some("ap-south-1"));
    assert_eq!(region("x.elb.amazonaws.com"), None);
    // Without a region beside `elb`, the first part that looks like one counts.
    assert_eq!(region("us-east-1").as_deref(), Some("us-east-1"));
    assert_eq!(region("x.us-east-1.amazonaws.com").as_deref(), Some("us-east-1"));
    assert_eq!(region("us-west-2.x.elb.amazonaws.com").as_deref(), Some("us-west-2"));
    assert_eq!(region("").as_deref(), None);
}
