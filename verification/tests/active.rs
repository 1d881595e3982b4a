//! Tests for network tests.

use tessera_core::active::{
    analyze, manifest, parse_output, safe_host, safe_path, script_for, CheckResult, PlannedCheck,
    ProbeRun, TestPlan, DEFAULT_IMAGE,
};
use tessera_core::json::Json;
use tessera_core::Target;

fn value(j: &Json) -> serde_json::Value {
    match j {
        Json::Null => serde_json::Value::Null,
        Json::Bool(b) => serde_json::Value::Bool(*b),
        Json::Int(n) => serde_json::Value::from(*n),
        Json::Decimal(s) => serde_json::from_str(s).unwrap(),
        Json::Text(s) => serde_json::Value::String(s.clone()),
        Json::List(v) => serde_json::Value::Array(v.iter().map(value).collect()),
        Json::Object(v) => {
            serde_json::Value::Object(v.iter().map(|(k, x)| (k.clone(), value(x))).collect())
        }
    }
}

fn cr(label: &str, result: &str) -> CheckResult {
    CheckResult {
        kind: if label.contains("probe") {
            "http"
        } else if label.contains("DNS") || label == "service name" {
            "dns"
        } else {
            "tcp"
        }
        .into(),
        label: label.into(),
        target: "10.0.1.5:8080".into(),
        result: result.into(),
        detail: "0s".into(),
    }
}

fn plan_with(policies: bool) -> TestPlan {
    let chk = |kind: &str, label: &str, node: Option<&str>| PlannedCheck {
        kind: kind.into(),
        label: label.into(),
        host: "10.0.1.5".into(),
        port: Some(8080),
        path: None,
        timeout: 3,
        target_node: node.map(String::from),
    };
    TestPlan {
        service: Target { kind: "Service".into(), namespace: "web".into(), name: "shop".into() },
        source_namespace: "web".into(),
        image: DEFAULT_IMAGE.into(),
        checks: vec![
            chk("dns", "cluster DNS", None),
            chk("tcp", "service IP port 80", None),
            chk("tcp", "pod shop-1 port 8080", Some("node-a")),
        ],
        probes: vec![],
        policies_apply: policies,
        notes: vec![],
    }
}

fn run(node: &str, results: Vec<CheckResult>) -> ProbeRun {
    ProbeRun {
        node: Some(node.into()),
        placement: if node == "node-a" { "same-node" } else { "other-node" }.into(),
        results,
        error: None,
    }
}

#[test]
fn parses_probe_output() {
    let r = parse_output("R|dns|cluster DNS|kubernetes.default.svc.cluster.local|ok|10.100.0.1\nnoise\nR|tcp|pod a port 8080|10.0.1.5:8080|timeout|3s\nDONE\n");
    assert_eq!(r.len(), 2);
    assert_eq!(r[1].result, "timeout");
}

#[test]
fn kube_proxy_fault() {
    let runs = vec![run(
        "node-a",
        vec![cr("cluster DNS", "ok"), cr("service IP port 80", "timeout"), cr("pod shop-1 port 8080", "ok")],
    )];
    let f = analyze(&plan_with(false), &runs);
    assert!(f.iter().any(|x| x.title.contains("service IP isn't forwarding")), "{f:?}");
}

#[test]
fn cni_cross_node() {
    let runs = vec![
        run(
            "node-a",
            vec![cr("cluster DNS", "ok"), cr("service IP port 80", "ok"), cr("pod shop-1 port 8080", "ok")],
        ),
        run(
            "node-b",
            vec![cr("cluster DNS", "ok"), cr("service IP port 80", "ok"), cr("pod shop-1 port 8080", "timeout")],
        ),
    ];
    let f = analyze(&plan_with(false), &runs);
    assert!(f.iter().any(|x| x.title.contains("Cross-node")), "{f:?}");
}

#[test]
fn refused_means_app_not_listening() {
    let runs = vec![run(
        "node-a",
        vec![cr("cluster DNS", "ok"), cr("service IP port 80", "refused"), cr("pod shop-1 port 8080", "refused")],
    )];
    let f = analyze(&plan_with(false), &runs);
    assert!(f.iter().any(|x| x.title.contains("Nothing is listening")), "{f:?}");
    assert!(!f.iter().any(|x| x.title.contains("service IP isn't forwarding")));
}

#[test]
fn timeouts_with_policy() {
    let runs = vec![run(
        "node-a",
        vec![cr("cluster DNS", "ok"), cr("service IP port 80", "timeout"), cr("pod shop-1 port 8080", "timeout")],
    )];
    let f = analyze(&plan_with(true), &runs);
    assert!(f.iter().any(|x| x.suggestion.contains("NetworkPolic")), "{f:?}");
}

#[test]
fn all_good() {
    let runs = vec![run(
        "node-a",
        vec![cr("cluster DNS", "ok"), cr("service IP port 80", "ok"), cr("pod shop-1 port 8080", "ok")],
    )];
    let f = analyze(&plan_with(false), &runs);
    assert_eq!(f.len(), 1);
    assert_eq!(f[0].status, "ok");
}

#[test]
fn script_quotes_and_refuses_unsafe_values() {
    assert!(!safe_path("/health; rm -rf /"));
    assert!(!safe_host("$(reboot)"));
    assert!(safe_path("/healthz?full=1"));
    let s = script_for(&[PlannedCheck {
        kind: "http".into(),
        label: "readiness probe /healthz on pod a".into(),
        host: "10.0.0.1".into(),
        port: Some(8080),
        path: Some("/healthz".into()),
        timeout: 2,
        target_node: None,
    }]);
    assert!(s.contains("http 'readiness probe /healthz on pod a' '10.0.0.1' 8080 2 '/healthz'"));
}

#[test]
fn manifest_is_locked_down() {
    let m = manifest("web", Some("node-a"), DEFAULT_IMAGE, "echo hi");
    let pod: k8s_openapi::api::core::v1::Pod = serde_json::from_value(value(&m)).unwrap();
    let spec = pod.spec.unwrap();
    assert_eq!(spec.automount_service_account_token, Some(false));
    assert_eq!(spec.active_deadline_seconds, Some(90));
    let sc = spec.containers[0].security_context.clone().unwrap();
    assert_eq!(sc.allow_privilege_escalation, Some(false));
    assert_eq!(sc.capabilities.unwrap().drop.unwrap(), vec!["ALL"]);
}
