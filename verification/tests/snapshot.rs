//! From listed objects to a diagnosed graph.

use tessera_core::collect::raw::{
    PortRef, RawAddress, RawBackend, RawClass, RawCondition, RawContainer, RawEnd, RawEvent, RawHpa, RawHttp,
    RawIngress, RawNode,
    RawOwner, RawPath, RawPod, RawProbe, RawReason, RawReplicaSet, RawRule, RawService, RawServicePort,
    RawSlice, RawState, RawStatus, RawWorkload,
};
use tessera_core::collect::{take, with_health};
use tessera_core::{build_graph, build_graph_at, Labels, Layer, LbHealth, RawSnapshot, Target, TargetGroupHealth};

fn labels(pairs: &[(&str, &str)]) -> Labels {
    Labels::from_pairs(pairs.iter().map(|(k, v)| (k.to_string(), v.to_string())).collect())
}

fn some(s: &str) -> Option<String> {
    Some(s.to_string())
}

fn container(name: &str, mem: &str) -> RawContainer {
    RawContainer {
        name: name.into(),
        image: Some(format!("{name}:1.0")),
        cpu_request: some("250m"),
        memory_request: some(mem),
        memory_limit: some(mem),
        ..Default::default()
    }
}

fn fixture() -> RawSnapshot {
    let deploy = |name: &str, mem: &str| RawWorkload {
        name: some(name),
        namespace: some("shop"),
        desired: Some(2),
        ready: Some(0),
        available: None,
        labels: labels(&[("app", name)]),
        containers: vec![container(name, mem)],
    };
    let rs = |name: &str| RawReplicaSet {
        name: Some(format!("{name}-7d9f")),
        namespace: some("shop"),
        owners: vec![RawOwner {
            kind: "Deployment".into(),
            name: name.into(),
            controller: Some(true),
        }],
    };
    let pod = |name: &str, app: &str, ready: &str, ip: Option<String>, status: RawStatus| RawPod {
        name: some(name),
        namespace: some("shop"),
        labels: labels(&[("app", app)]),
        owners: vec![RawOwner {
            kind: "ReplicaSet".into(),
            name: format!("{app}-7d9f"),
            controller: Some(true),
        }],
        node: some("node-a"),
        containers: vec![container(app, "256Mi")],
        phase: some("Running"),
        pod_ip: ip,
        conditions: vec![RawCondition { type_: "Ready".into(), status: ready.into() }],
        statuses: vec![status],
        ..Default::default()
    };
    let oom_status = || RawStatus {
        name: "payments".into(),
        ready: false,
        restart_count: 7,
        state: Some(RawState {
            waiting: Some(RawReason {
                reason: some("CrashLoopBackOff"),
                message: some("back-off 5m0s"),
            }),
            ..Default::default()
        }),
        last: Some(RawEnd { reason: some("OOMKilled"), exit_code: 137 }),
    };
    let ok_status = RawStatus {
        name: "catalog".into(),
        ready: true,
        restart_count: 0,
        state: Some(RawState { running: true, ..Default::default() }),
        last: None,
    };
    let service = |name: &str, app: &str| RawService {
        name: some(name),
        namespace: some("shop"),
        selector: labels(&[("app", app)]),
        ports: vec![RawServicePort {
            port: 80,
            target: Some(PortRef::Number(8080)),
            protocol: None,
        }],
        ..Default::default()
    };
    let path = |path: &str, service: &str| RawPath {
        path: some(path),
        backend: RawBackend { service: some(service), port_number: Some(80), port_name: None },
    };
    RawSnapshot {
        nodes: vec![RawNode {
            name: some("node-a"),
            labels: labels(&[("node.kubernetes.io/instance-type", "m6i.xlarge")]),
            cpu: some("3920m"),
            memory: some("15564212Ki"),
            conditions: vec![
                RawCondition { type_: "Ready".into(), status: "True".into() },
                RawCondition { type_: "MemoryPressure".into(), status: "False".into() },
            ],
            ..Default::default()
        }],
        deployments: vec![deploy("payments", "256Mi"), deploy("catalog", "256Mi")],
        replicasets: vec![rs("payments"), rs("catalog")],
        pods: vec![
            pod("payments-7d9f-aaaaa", "payments", "False", None, oom_status()),
            pod("payments-7d9f-bbbbb", "payments", "False", None, oom_status()),
            pod("catalog-7d9f-ccccc", "catalog", "True", some("10.0.1.5"), ok_status),
        ],
        services: vec![service("payments", "payments"), service("catalog", "catalog-svc")],
        slices: vec![RawSlice {
            namespace: some("shop"),
            labels: labels(&[("kubernetes.io/service-name", "payments")]),
            endpoints: vec![Some(false), Some(false)],
        }],
        ingresses: vec![RawIngress {
            name: some("edge"),
            namespace: some("shop"),
            class_name: some("alb"),
            rules: vec![RawRule {
                host: some("shop.example.com"),
                paths: vec![
                    path("/api/pay", "payments"),
                    path("/api/catalog", "catalog"),
                    path("/api/cart", "cart"),
                ],
            }],
            addresses: vec![RawAddress {
                hostname: some("k8s-edge-123.elb.amazonaws.com"),
                ip: None,
            }],
            ..Default::default()
        }],
        ..Default::default()
    }
}

#[test]
fn builds_and_diagnoses_a_realistic_snapshot() {
    let g = build_graph(&fixture(), "test");

    // Ownership: pods resolve through their ReplicaSet to the Deployment.
    assert!(g.pods.iter().all(|p| p.workload.as_deref().unwrap_or("").starts_with("Deployment/shop/")));
    let oom_pod = g.pods.iter().find(|p| p.name == "payments-7d9f-aaaaa").unwrap();
    assert_eq!(oom_pod.status, "CrashLoopBackOff");
    assert_eq!(oom_pod.containers[0].memory_limit_bytes, Some(256 << 20));

    // Service wiring and endpoint counts.
    let pay = g.services.iter().find(|s| s.name == "payments").unwrap();
    assert_eq!(pay.pods.len(), 2);
    assert_eq!((pay.ready_endpoints, pay.not_ready_endpoints), (0, 2));
    assert_eq!(pay.ports, vec!["80→8080/TCP"]);
    let cat = g.services.iter().find(|s| s.name == "catalog").unwrap();
    assert!(cat.pods.is_empty());

    // Ingress routes and address.
    assert_eq!(g.ingresses[0].routes.len(), 3);
    assert_eq!(g.ingresses[0].addresses, vec!["k8s-edge-123.elb.amazonaws.com"]);
    assert_eq!(g.nodes[0].cpu_allocatable_milli, 3920);

    // One issue per broken layer.
    let ids: Vec<&str> = g.issues.iter().map(|i| i.id.as_str()).collect();
    assert!(ids.contains(&"pod-oom:Deployment/shop/payments"), "{ids:?}");
    assert!(ids.contains(&"svc-no-match:shop/catalog"), "{ids:?}");
    assert!(ids.contains(&"entry-missing-backend:shop/edge/cart"), "{ids:?}");
    let entry = g.issues.iter().find(|i| i.layer == Layer::Entry).unwrap();
    assert!(entry.detail.contains("shop.example.com/api/cart"));
    let cat_issue = g.issues.iter().find(|i| i.id == "svc-no-match:shop/catalog").unwrap();
    assert!(cat_issue.suggestion.contains("app=catalog."), "{}", cat_issue.suggestion);
}

#[test]
fn events_come_newest_first() {
    let event = |name: &str, last: Option<&str>, time: Option<&str>, created: Option<&str>| RawEvent {
        name: some(name),
        message: some("  text \n"),
        last_timestamp: last.map(String::from),
        event_time: time.map(String::from),
        created: created.map(String::from),
        ..Default::default()
    };
    let raw = RawSnapshot {
        events: vec![
            event("none", None, None, None),
            event("old", Some("2024-01-01T00:00:00Z"), Some("2025-01-01T00:00:00Z"), None),
            event("new", None, Some("2024-03-01T00:00:00Z"), Some("2023-01-01T00:00:00Z")),
            event("tied", None, None, Some("2024-01-01T00:00:00Z")),
        ],
        ..Default::default()
    };
    let g = build_graph_at(&raw, "ctx", 99);
    let names: Vec<&str> = g.events.iter().map(|e| e.name.as_str()).collect();
    assert_eq!(names, vec!["new", "old", "tied", "none"]);
    assert_eq!((g.events[0].message.as_str(), g.events[0].count), ("text", 1));
    assert_eq!((g.context.as_str(), g.fetched_at.as_str()), ("ctx", "99"));
    assert!(g.issues.is_empty());
}

#[test]
fn graphs_have_the_time() {
    assert!(build_graph(&RawSnapshot::default(), "c").fetched_at.parse::<u64>().unwrap() > 1_600_000_000);
}

#[test]
fn what_could_not_be_listed_is_a_warning() {
    let mut warnings = vec!["first".to_string()];
    assert_eq!(take(Ok(vec![1, 2]), &mut warnings), vec![1, 2]);
    assert_eq!(warnings.len(), 1);
    let none: Vec<i32> = take(Err("second".to_string()), &mut warnings);
    assert!(none.is_empty());
    assert_eq!(warnings, vec!["first", "second"]);
}

#[test]
fn load_balancer_health_is_diagnosed() {
    let g = build_graph_at(&fixture(), "ctx", 1);
    let (before, pods) = (g.issues.len(), g.pods.len());
    let health = LbHealth {
        provider: "aws".into(),
        source: Target { kind: "Ingress".into(), namespace: "shop".into(), name: "edge".into() },
        lb_name: "lb".into(),
        dns_name: "lb.example".into(),
        target_groups: vec![TargetGroupHealth {
            name: "tg".into(),
            target_type: "ip".into(),
            health_check: "TCP".into(),
            ..Default::default()
        }],
        ..Default::default()
    };
    let h = with_health(g, vec![health]);
    assert_eq!((h.context.as_str(), h.pods.len(), h.lb_health.len()), ("ctx", pods, 1));
    assert!(h.issues.len() > before, "{:?}", h.issues);
}

#[test]
fn backends_of_gke_are_read() {
    let backends = |status: Option<&str>| {
        let raw = RawSnapshot {
            ingresses: vec![RawIngress {
                gce_status: status.map(String::from),
                ..Default::default()
            }],
            ..Default::default()
        };
        build_graph_at(&raw, "c", 0).ingresses.remove(0).gce_backends
    };
    let pair = |k: &str, v: &str| (k.to_string(), v.to_string());
    assert_eq!(
        backends(Some(r#"{"b": "HEALTHY", "a": "UNHEALTHY"}"#)),
        vec![pair("a", "UNHEALTHY"), pair("b", "HEALTHY")]
    );
    for odd in [None, Some(""), Some("[]"), Some(r#"{"a": "HEALTHY", "b": 1}"#)] {
        assert!(backends(odd).is_empty());
    }
    assert!(tessera_core::collect::ingresses::backends_of(&Err("bad".to_string())).is_empty());
}

#[test]
fn classes_and_their_default_are_found() {
    let class = |name: &str, mark: Option<&str>| RawClass {
        name: some(name),
        default_mark: mark.map(String::from),
    };
    let raw = RawSnapshot {
        ingress_classes: vec![
            class("a", None),
            class("b", Some("false")),
            RawClass::default(),
            class("c", Some("true")),
            class("d", Some("true")),
        ],
        ..Default::default()
    };
    let g = build_graph_at(&raw, "c", 0);
    assert_eq!(g.ingress_classes, vec!["a", "b", "c", "d"]);
    assert_eq!(g.default_ingress_class.as_deref(), Some("c"));
}

#[test]
fn probes_have_the_usual_defaults() {
    let probe = |kind: &str| RawProbe { kind: kind.into(), ..Default::default() };
    let c = RawContainer {
        probes: vec![
            RawProbe {
                http: Some(RawHttp { path: None, port: PortRef::Name("web".into()), scheme: some("HTTPS") }),
                tcp: Some(PortRef::Number(1)),
                ..probe("liveness")
            },
            RawProbe { tcp: Some(PortRef::Number(9)), timeout: Some(4), ..probe("readiness") },
            RawProbe { grpc: Some(50), ..probe("startup") },
            probe("liveness"),
        ],
        ..container("app", "1Mi")
    };
    let raw = RawSnapshot {
        deployments: vec![RawWorkload { containers: vec![c], ..Default::default() }],
        ..Default::default()
    };
    let g = build_graph_at(&raw, "c", 0);
    let p = &g.workloads[0].containers[0].probes;
    let all: Vec<(&str, &str, Option<&str>, Option<&str>)> = p
        .iter()
        .map(|x| (x.kind.as_str(), x.handler.as_str(), x.path.as_deref(), x.port.as_deref()))
        .collect();
    assert_eq!(
        all,
        vec![
            ("liveness", "http", Some("/"), Some("web")),
            ("readiness", "tcp", None, Some("9")),
            ("startup", "grpc", None, Some("50")),
            ("liveness", "exec", None, None),
        ]
    );
    assert_eq!(p[0].scheme.as_deref(), Some("HTTPS"));
    assert_eq!((p[1].initial_delay, p[1].timeout, p[1].period, p[1].failure_threshold), (0, 4, 10, 3));
    assert_eq!(p[2].timeout, 1);
}

#[test]
fn autoscalers_have_the_usual_defaults() {
    let raw = RawSnapshot {
        hpas: vec![
            RawHpa {
                namespace: some("web"),
                name: some("shop"),
                target_kind: "Deployment".into(),
                target_name: "shop".into(),
                max: 5,
                desired: 2,
                ..Default::default()
            },
            RawHpa { min: Some(3), current: Some(4), ..Default::default() },
        ],
        ..Default::default()
    };
    let g = build_graph_at(&raw, "c", 0);
    let h = &g.hpas[0];
    assert_eq!((h.namespace.as_str(), h.name.as_str(), h.target.as_str()), ("web", "shop", "Deployment/shop"));
    assert_eq!((h.min, h.max, h.current, h.desired), (1, 5, 0, 2));
    assert_eq!((g.hpas[1].min, g.hpas[1].current), (3, 4));
}
