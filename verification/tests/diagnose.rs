//! Tests for the rules along the path of a request.

use tessera_core::{
    diagnose, workload_id, ClusterGraph, ContainerStatusInfo, EventInfo, IngressInfo, Issue,
    Labels, Layer, NodeInfo, PodInfo, Route, ServiceInfo, Severity, WorkloadInfo,
};

fn labels(pairs: &[(&str, &str)]) -> Labels {
    Labels::from_pairs(pairs.iter().map(|(k, v)| (k.to_string(), v.to_string())).collect())
}

fn workload(ns: &str, name: &str, desired: i32, ready: i32) -> WorkloadInfo {
    WorkloadInfo {
        id: workload_id("Deployment", ns, name),
        kind: "Deployment".into(),
        namespace: ns.into(),
        name: name.into(),
        desired,
        ready,
        available: ready,
        pod_labels: labels(&[("app", name)]),
        containers: vec![],
    }
}

fn pod(ns: &str, name: &str, wl: &str) -> PodInfo {
    PodInfo {
        namespace: ns.into(),
        name: name.into(),
        status: "Running".into(),
        phase: "Running".into(),
        ready: true,
        node: Some("node-a".into()),
        workload: Some(workload_id("Deployment", ns, wl)),
        labels: labels(&[("app", wl)]),
        containers: vec![ContainerStatusInfo {
            name: wl.into(),
            image: format!("{wl}:1"),
            ready: true,
            state: "running".into(),
            ..Default::default()
        }],
        ..Default::default()
    }
}

fn node(name: &str, cpu: i64) -> NodeInfo {
    NodeInfo {
        name: name.into(),
        ready: true,
        cpu_allocatable_milli: cpu,
        memory_allocatable_bytes: 16 << 30,
        ..Default::default()
    }
}

#[test]
fn selector_mismatch_names_the_fix() {
    let g = ClusterGraph {
        workloads: vec![workload("web", "catalog", 2, 2)],
        pods: vec![pod("web", "catalog-1", "catalog")],
        services: vec![ServiceInfo {
            namespace: "web".into(),
            name: "catalog".into(),
            type_: "ClusterIP".into(),
            selector: labels(&[("app", "catalog-svc")]),
            ..Default::default()
        }],
        ..Default::default()
    };
    let issues = diagnose(&g);
    assert_eq!(issues.len(), 1);
    let i = &issues[0];
    assert_eq!(i.layer, Layer::Service);
    assert_eq!(i.severity, Severity::Critical);
    assert!(i.suggestion.contains("app=catalog."), "{}", i.suggestion);
}

#[test]
fn oom_is_grouped_per_workload() {
    let mut p1 = pod("pay", "api-1", "api");
    let mut p2 = pod("pay", "api-2", "api");
    for p in [&mut p1, &mut p2] {
        p.ready = false;
        p.status = "CrashLoopBackOff".into();
        p.restarts = 5;
        let c = &mut p.containers[0];
        c.state = "waiting".into();
        c.reason = Some("CrashLoopBackOff".into());
        c.last_reason = Some("OOMKilled".into());
        c.last_exit_code = Some(137);
        c.restart_count = 5;
        c.memory_limit_bytes = Some(256 << 20);
    }
    let g = ClusterGraph {
        workloads: vec![workload("pay", "api", 2, 0)],
        pods: vec![p1, p2],
        services: vec![ServiceInfo {
            namespace: "pay".into(),
            name: "api".into(),
            type_: "ClusterIP".into(),
            selector: labels(&[("app", "api")]),
            pods: vec!["api-1".into(), "api-2".into()],
            workloads: vec![workload_id("Deployment", "pay", "api")],
            ..Default::default()
        }],
        ..Default::default()
    };
    let issues = diagnose(&g);
    let oom: Vec<_> = issues.iter().filter(|i| i.id.starts_with("pod-oom")).collect();
    assert_eq!(oom.len(), 1);
    assert_eq!(oom[0].pods.len(), 2);
    assert!(oom[0].suggestion.contains("512Mi"));
    // The service symptom is downgraded because the pods explain it.
    let svc = issues.iter().find(|i| i.layer == Layer::Service).unwrap();
    assert_eq!(svc.severity, Severity::Warning);
    // The workload rule stays quiet because pods explain it.
    assert!(!issues.iter().any(|i| i.layer == Layer::Workload));
}

#[test]
fn unschedulable_compares_to_largest_node() {
    let mut p = pod("ml", "rec-1", "rec");
    p.phase = "Pending".into();
    p.status = "Pending".into();
    p.ready = false;
    p.node = None;
    p.containers[0].state = "waiting".into();
    p.containers[0].cpu_request_milli = Some(6000);
    let g = ClusterGraph {
        nodes: vec![node("node-a", 3920), node("node-b", 3920)],
        workloads: vec![workload("ml", "rec", 1, 0)],
        pods: vec![p],
        events: vec![EventInfo {
            namespace: "ml".into(),
            kind: "Pod".into(),
            name: "rec-1".into(),
            type_: "Warning".into(),
            reason: "FailedScheduling".into(),
            message: "0/2 nodes are available: 2 Insufficient cpu.".into(),
            count: 3,
            last_seen: None,
        }],
        ..Default::default()
    };
    let issues = diagnose(&g);
    let i = issues.iter().find(|i| i.id.starts_with("pod-unschedulable")).unwrap();
    assert_eq!(i.layer, Layer::Node);
    assert!(i.evidence.iter().any(|e| e.contains("largest node allocatable: 3.92")));
    assert!(i.suggestion.contains("No node is big enough"));
}

#[test]
fn missing_ingress_backend() {
    let g = ClusterGraph {
        ingresses: vec![IngressInfo {
            namespace: "web".into(),
            name: "edge".into(),
            routes: vec![Route {
                host: Some("shop.example.com".into()),
                path: "/api".into(),
                service: "gone".into(),
                port: None,
            }],
            ..Default::default()
        }],
        ..Default::default()
    };
    let issues = diagnose(&g);
    assert_eq!(issues.len(), 1);
    assert_eq!(issues[0].layer, Layer::Entry);
}

#[test]
fn healthy_cluster_has_no_issues() {
    let g = ClusterGraph {
        nodes: vec![node("node-a", 4000)],
        workloads: vec![workload("web", "shop", 1, 1)],
        pods: vec![pod("web", "shop-1", "shop")],
        services: vec![ServiceInfo {
            namespace: "web".into(),
            name: "shop".into(),
            type_: "ClusterIP".into(),
            selector: labels(&[("app", "shop")]),
            ready_endpoints: 1,
            pods: vec!["shop-1".into()],
            workloads: vec![workload_id("Deployment", "web", "shop")],
            ..Default::default()
        }],
        ..Default::default()
    };
    assert!(diagnose(&g).is_empty());
}

#[test]
fn issues_come_by_severity() {
    let mut g = ClusterGraph::default();
    g.nodes.push(NodeInfo { ready: false, ..node("n1", 4000) });
    for i in 0..3 {
        let mut p = pod("shop", &format!("cart-{i}"), "cart");
        p.ready = false;
        p.status = "CrashLoopBackOff".into();
        p.containers[0].state = "waiting".into();
        p.containers[0].reason = Some("CrashLoopBackOff".into());
        g.pods.push(p);
    }
    g.ingresses.push(IngressInfo {
        namespace: "shop".into(),
        name: "edge".into(),
        routes: vec![Route { host: None, path: "/".into(), service: "nope".into(), ..Default::default() }],
        ..Default::default()
    });
    let all = diagnose(&g);
    let ranks: Vec<Severity> = all.iter().map(|i| i.severity).collect();
    let mut sorted = ranks.clone();
    sorted.sort();
    assert_eq!(ranks, sorted);
    assert!(all.len() >= 3);
    // Every issue can be confirmed.
    assert!(all.iter().all(|i| !i.commands.is_empty() && !i.suggestion.is_empty()));
    // The pods of one workload share one issue.
    let crash: Vec<&Issue> = all.iter().filter(|i| i.pods.contains(&"cart-1".to_string())).collect();
    assert_eq!(crash.len(), 1);
    assert_eq!(crash[0].pods.len(), 3);
}
