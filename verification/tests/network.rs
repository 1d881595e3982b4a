//! Tests for planning a network test and going through it.

use tessera_core::active::{
    analyze, parse_output, plan, Action, CheckResult, Event, NetworkTestRequest, PlannedCheck,
    PlannedProbe, ProbeRun, TestPlan, TestRun, Waiting, DEFAULT_IMAGE,
};
use tessera_core::json::Json;
use tessera_core::{
    ClusterGraph, ContainerPortInfo, ContainerSpecInfo, Labels, NetworkPolicyInfo, NodeInfo,
    PodInfo, ProbeInfo, ServiceInfo, ServicePortInfo, Target, WorkloadInfo,
};

fn some(s: &str) -> Option<String> {
    Some(s.to_string())
}

fn labels(app: &str) -> Labels {
    Labels::from_pairs(vec![("app".to_string(), app.to_string())])
}

fn node(name: &str) -> NodeInfo {
    NodeInfo { name: name.into(), ready: true, ..Default::default() }
}

fn pod(name: &str, ip: &str, node: &str) -> PodInfo {
    PodInfo {
        namespace: "web".into(),
        name: name.into(),
        node: some(node),
        pod_ip: some(ip),
        workload: some("Deployment/web/shop"),
        container_ports: vec![ContainerPortInfo {
            name: some("http"),
            port: 8080,
            protocol: "TCP".into(),
        }],
        ..Default::default()
    }
}

fn probe(kind: &str, path: &str, scheme: Option<&str>, timeout: i32) -> ProbeInfo {
    ProbeInfo {
        kind: kind.into(),
        handler: "http".into(),
        path: some(path),
        port: some("http"),
        scheme: scheme.map(String::from),
        timeout,
        ..Default::default()
    }
}

fn graph(probes: Vec<ProbeInfo>) -> ClusterGraph {
    ClusterGraph {
        services: vec![ServiceInfo {
            namespace: "web".into(),
            name: "shop".into(),
            type_: "ClusterIP".into(),
            cluster_ip: some("10.100.0.9"),
            ports_detail: vec![
                ServicePortInfo { port: 80, target: "http".into(), protocol: "TCP".into() },
                ServicePortInfo { port: 53, target: "53".into(), protocol: "UDP".into() },
            ],
            pods: vec!["shop-1".into(), "shop-2".into()],
            ..Default::default()
        }],
        pods: vec![
            pod("shop-1", "10.0.1.5", "node-a"),
            pod("shop-2", "10.0.2.6", "node-b"),
            pod("other", "10.0.3.7", "node-a"),
        ],
        nodes: vec![node("node-a"), node("node-b"), node("node-c")],
        workloads: vec![WorkloadInfo {
            id: "Deployment/web/shop".into(),
            containers: vec![ContainerSpecInfo {
                name: "app".into(),
                probes,
                ..Default::default()
            }],
            ..Default::default()
        }],
        ..Default::default()
    }
}

fn request() -> NetworkTestRequest {
    NetworkTestRequest { namespace: "web".into(), service: "shop".into(), ..Default::default() }
}

fn labels_of(p: &TestPlan) -> Vec<&str> {
    p.checks.iter().map(|c| c.label.as_str()).collect()
}

#[test]
fn a_service_is_planned() {
    let g = graph(vec![
        probe("readiness", "/ready", None, 30),
        probe("liveness", "/live", Some("HTTPS"), 1),
        probe("liveness", "/a b", None, 1),
        probe("liveness", "/ready", None, 1),
        probe("startup", "/up", None, 1),
    ]);
    let p = plan(&g, &request()).unwrap();
    assert_eq!((p.service.kind.as_str(), p.service.namespace.as_str(), p.service.name.as_str()), ("Service", "web", "shop"));
    assert_eq!((p.source_namespace.as_str(), p.image.as_str()), ("web", DEFAULT_IMAGE));
    assert_eq!(
        labels_of(&p),
        vec![
            "cluster DNS",
            "service name",
            "service IP port 80",
            "pod shop-1 port 8080",
            "pod shop-2 port 8080",
            "readiness probe /ready on pod shop-1",
            "readiness probe /ready on pod shop-2",
        ]
    );
    assert_eq!(p.checks[0].host, "kubernetes.default.svc.cluster.local");
    assert_eq!(p.checks[1].host, "shop.web.svc.cluster.local");
    assert_eq!(
        p.checks[4],
        PlannedCheck {
            kind: "tcp".into(),
            label: "pod shop-2 port 8080".into(),
            host: "10.0.2.6".into(),
            port: Some(8080),
            path: None,
            timeout: 3,
            target_node: some("node-b"),
        }
    );
    assert_eq!((p.checks[5].timeout, p.checks[5].path.as_deref()), (10, Some("/ready")));
    let https = "The liveness probe on app uses HTTPS, which the probe image can't test.";
    let unsafe_path = "The liveness probe path on app has characters Tessera won't put in a shell command, so it isn't tested.";
    assert_eq!(
        p.notes,
        vec![
            "Port 53/UDP isn't tested; only TCP is supported.",
            https,
            unsafe_path,
            https,
            unsafe_path,
            "Probes run as pods in web labelled app.kubernetes.io/managed-by=tessera. NetworkPolicies that admit only specific pod labels will treat them differently from your real clients.",
        ]
    );
    // The other node is one without a pod of the service.
    let places: Vec<(Option<&str>, &str)> =
        p.probes.iter().map(|x| (x.node.as_deref(), x.placement.as_str())).collect();
    assert_eq!(places, vec![(Some("node-a"), "same-node"), (Some("node-c"), "other-node")]);
    assert!(!p.policies_apply);
}

#[test]
fn at_most_four_endpoints_are_called() {
    let probes = ["/1", "/2", "/3", "/4", "/5"].map(|x| probe("readiness", x, None, 2)).to_vec();
    let p = plan(&graph(probes), &request()).unwrap();
    assert_eq!(p.checks.iter().filter(|c| c.kind == "http").count(), 4);
}

#[test]
fn requests_are_checked() {
    let g = graph(vec![]);
    let missing = NetworkTestRequest { service: "gone".into(), ..request() };
    assert_eq!(plan(&g, &missing).unwrap_err(), "Service web/gone isn't in the current snapshot.");
    let bad = NetworkTestRequest { source_namespace: some("a b"), ..request() };
    assert_eq!(plan(&g, &bad).unwrap_err(), "Invalid source namespace.");
    let odd = NetworkTestRequest {
        source_namespace: some(""),
        image: some("  "),
        cluster_domain: some("$(x)"),
        ..request()
    };
    let p = plan(&g, &odd).unwrap();
    assert_eq!((p.source_namespace.as_str(), p.image.as_str()), ("web", DEFAULT_IMAGE));
    assert_eq!(p.checks[1].host, "shop.web.svc.cluster.local");
    let set = NetworkTestRequest {
        source_namespace: some("tools"),
        image: some("mirror/busybox"),
        cluster_domain: some("corp.example"),
        ..request()
    };
    let p = plan(&g, &set).unwrap();
    assert_eq!((p.source_namespace.as_str(), p.image.as_str()), ("tools", "mirror/busybox"));
    assert_eq!(p.checks[0].host, "kubernetes.default.svc.corp.example");
}

#[test]
fn headless_services_and_missing_ports_are_noted() {
    let mut g = graph(vec![]);
    g.services[0].cluster_ip = some("None");
    g.services[0].ports_detail[0].target = "metrics".into();
    g.nodes = vec![node("node-a"), NodeInfo { ready: false, ..node("node-b") }];
    let p = plan(&g, &request()).unwrap();
    assert_eq!(labels_of(&p), vec!["cluster DNS", "service name"]);
    assert_eq!(p.notes[0], "Pod shop-1 doesn't define port metrics, so it isn't tested.");
    assert_eq!(
        p.notes[3],
        "Headless service: there's no service IP to test, so only DNS and pod IPs are checked."
    );
    assert_eq!(p.notes[4], "Only one usable node, so cross-node networking can't be compared.");
    assert_eq!(p.probes.len(), 1);
    g.nodes = vec![];
    let p = plan(&g, &request()).unwrap();
    assert_eq!((p.probes[0].node.as_deref(), p.probes[0].placement.as_str()), (None, "any"));
}

#[test]
fn policies_on_the_pods_are_seen() {
    let mut g = graph(vec![]);
    g.pods[0].labels = labels("shop");
    g.network_policies = vec![NetworkPolicyInfo {
        namespace: "web".into(),
        name: "np".into(),
        ingress_type: true,
        pod_selector: labels("shop"),
        ..Default::default()
    }];
    assert!(plan(&g, &request()).unwrap().policies_apply);
    g.network_policies[0].pod_selector = labels("db");
    assert!(!plan(&g, &request()).unwrap().policies_apply);
    g.network_policies[0].pod_selector = Labels::default();
    assert!(plan(&g, &request()).unwrap().policies_apply);
    g.network_policies[0].ingress_type = false;
    assert!(!plan(&g, &request()).unwrap().policies_apply);
}

#[test]
fn checks_with_unsafe_labels_are_left_out() {
    let mut g = graph(vec![probe("it's", "/x", None, 1), probe("it's", "/y", Some("HTTPS"), 1)]);
    g.pods[0].name = "shop'; reboot".into();
    g.services[0].pods = vec!["shop'; reboot".into(), "shop-2".into()];
    let p = plan(&g, &request()).unwrap();
    assert_eq!(
        labels_of(&p),
        vec!["cluster DNS", "service name", "service IP port 80", "pod shop-2 port 8080"]
    );
    assert!(p.checks.iter().all(|c| !c.label.contains('\'')));
    // Notes and places are as for any other pod.
    let https = "The it's probe on app uses HTTPS, which the probe image can't test.";
    assert_eq!(p.notes.iter().filter(|n| *n == https).count(), 2);
    assert_eq!(p.probes[0].node.as_deref(), Some("node-a"));
}

#[test]
fn pods_with_odd_names_still_count() {
    let mut g = graph(vec![]);
    g.pods = vec![pod("my_pod", "10.0.1.5", "node-a")];
    g.services[0].pods = vec!["my_pod".into()];
    g.services[0].ports_detail.push(ServicePortInfo {
        port: 81,
        target: "metrics".into(),
        protocol: "TCP".into(),
    });
    g.network_policies =
        vec![NetworkPolicyInfo { namespace: "web".into(), ingress_type: true, ..Default::default() }];
    let p = plan(&g, &request()).unwrap();
    assert_eq!(p.probes[0].placement, "same-node");
    assert!(p.policies_apply);
    assert!(p.notes.contains(&"Pod my_pod doesn't define port metrics, so it isn't tested.".to_string()));
    assert!(!p.checks.iter().any(|c| c.label.contains("my_pod")));
}

fn small_plan(n: usize) -> TestPlan {
    TestPlan {
        service: Target { kind: "Service".into(), namespace: "web".into(), name: "shop".into() },
        source_namespace: "web".into(),
        image: "img".into(),
        checks: vec![],
        probes: (0..n)
            .map(|i| PlannedProbe {
                node: Some(format!("node-{i}")),
                placement: "same-node".into(),
                manifest: Json::Null,
            })
            .collect(),
        policies_apply: false,
        notes: vec![],
    }
}

fn name(s: &str) -> String {
    s.to_string()
}

#[test]
fn pods_are_created_read_and_deleted() {
    let mut t = TestRun::begin(small_plan(2));
    assert!(matches!(t.action(), Action::Create(0)));
    t.handle(Event::Created(name("a")));
    assert!(matches!(t.action(), Action::Create(1)));
    t.handle(Event::Created(name("b")));
    assert!(matches!(t.action(), Action::Clock));
    t.handle(Event::Elapsed(0));
    assert!(matches!(t.action(), Action::Rest));
    t.handle(Event::Rested);
    assert!(matches!(t.action(), Action::Look(n) if n == "a"));
    t.handle(Event::Seen(name("Running"), vec![]));
    assert!(matches!(t.action(), Action::Look(n) if n == "b"));
    t.handle(Event::Seen(name("Succeeded"), vec![]));
    assert!(matches!(t.action(), Action::Read(n) if n == "b"));
    t.handle(Event::Output(name("R|dns|cluster DNS|x|ok|1\nDONE\n")));
    assert!(matches!(t.action(), Action::Clock));
    t.handle(Event::Elapsed(1500));
    t.handle(Event::Rested);
    assert!(matches!(t.action(), Action::Look(n) if n == "a"));
    t.handle(Event::Unseen);
    t.handle(Event::Elapsed(79_999));
    t.handle(Event::Rested);
    t.handle(Event::Seen(name("Failed"), vec![]));
    t.handle(Event::Output(name("R|dns|cluster DNS|x|fail|no")));
    assert!(matches!(t.action(), Action::Delete(n) if n == "a"));
    t.handle(Event::Deleted);
    assert!(matches!(t.action(), Action::Delete(n) if n == "b"));
    t.handle(Event::NotDeleted);
    assert!(matches!(t.action(), Action::Finish));
    let r = t.report();
    assert_eq!(r.pods_created, vec!["a", "b"]);
    assert_eq!(r.pods_deleted, vec!["a"]);
    assert_eq!(r.runs[0].error.as_deref(), Some("The probe stopped before finishing all checks."));
    assert_eq!(r.runs[0].results[0].result, "fail");
    assert_eq!((r.runs[1].error.as_deref(), r.runs[1].node.as_deref()), (None, Some("node-1")));
    assert_eq!(r.runs[1].results[0].detail, "1");
    assert_eq!(r.findings[0].title, "The same node probe didn't complete");
}

#[test]
fn what_goes_wrong_is_told() {
    let mut t = TestRun::begin(small_plan(6));
    t.handle(Event::Refused(name("pods is forbidden")));
    t.handle(Event::Refused(name("conflict")));
    t.handle(Event::Malformed(name("bad")));
    t.handle(Event::Created(name("d")));
    t.handle(Event::Created(name("e")));
    t.handle(Event::Created(name("f")));
    t.handle(Event::Elapsed(3));
    t.handle(Event::Rested);
    let waiting = |r: Option<&str>, m: Option<&str>| Waiting {
        reason: r.map(String::from),
        message: m.map(String::from),
    };
    t.handle(Event::Seen(
        name("Pending"),
        vec![waiting(None, Some("x")), waiting(Some("ImagePullBackOff"), Some("slow"))],
    ));
    t.handle(Event::Seen(name("Succeeded"), vec![]));
    t.handle(Event::Unreadable(name("gone")));
    t.handle(Event::Seen(name("Pending"), vec![waiting(Some("ContainerCreating"), None)]));
    assert!(matches!(t.action(), Action::Clock));
    t.handle(Event::Elapsed(80_000));
    for n in ["d", "e", "f"] {
        assert!(matches!(t.action(), Action::Delete(x) if x == n));
        t.handle(Event::Deleted);
    }
    assert!(matches!(t.action(), Action::Finish));
    let r = t.report();
    let errors: Vec<&str> = r.runs.iter().map(|x| x.error.as_deref().unwrap()).collect();
    assert_eq!(
        errors,
        vec![
            "Your credentials can't create pods in web, so the test couldn't run there. pods is forbidden",
            "Couldn't create the probe pod: conflict",
            "Invalid probe manifest: bad",
            "The probe image img couldn't be pulled (ImagePullBackOff: slow). If your cluster can't reach Docker Hub, set a mirrored busybox image in Settings.",
            "Couldn't read probe output: gone",
            "The probe didn't finish within 80 seconds (it may not have been scheduled).",
        ]
    );
    assert_eq!(r.pods_deleted, vec!["d", "e", "f"]);
    assert_eq!(r.findings.len(), 6);
}

#[test]
fn tests_without_pods_end_at_once() {
    let t = TestRun::begin(small_plan(0));
    assert!(matches!(t.action(), Action::Finish));
    let mut t = TestRun::begin(small_plan(1));
    t.handle(Event::Refused(name("403")));
    assert!(matches!(t.action(), Action::Finish));
    let r = t.report();
    assert!(r.pods_created.is_empty());
    assert!(r.runs[0].error.as_deref().unwrap().starts_with("Your credentials can't"));
}

#[test]
fn odd_output_is_skipped() {
    let r = parse_output("R|a|b|c|d|e|f \r\nR|a|b|c|d\n R|a|b|c|d|e\nR|||||\n");
    assert_eq!(r.len(), 2);
    assert_eq!(r[0].detail, "e|f");
    assert_eq!((r[1].kind.as_str(), r[1].detail.as_str()), ("", ""));
}

#[test]
fn endpoints_and_names_are_judged() {
    let check = |label: &str, timeout: i32| PlannedCheck {
        kind: "http".into(),
        label: label.into(),
        host: "h".into(),
        port: Some(1),
        path: some("/"),
        timeout,
        target_node: None,
    };
    let mut p = small_plan(0);
    p.checks = vec![check("slow", 4), check("broken", 1), check("fine", 1)];
    let result = |label: &str, result: &str| CheckResult {
        kind: "x".into(),
        label: label.into(),
        target: "h:1/".into(),
        result: result.into(),
        detail: "7s".into(),
    };
    let run = |results: Vec<CheckResult>| ProbeRun {
        node: None,
        placement: "any".into(),
        results,
        error: None,
    };
    let f = analyze(
        &p,
        &vec![run(vec![
            result("cluster DNS", "ok"),
            result("service name", "fail"),
            result("slow", "none"),
            result("broken", "503"),
            result("fine", "302"),
        ])],
    );
    let titles: Vec<&str> = f.iter().map(|x| x.title.as_str()).collect();
    assert_eq!(
        titles,
        vec![
            "The service name for web/shop doesn't resolve",
            "slow didn't answer within its 4s timeout",
            "broken returns HTTP 503",
        ]
    );
    assert_eq!(f[0].detail, "Cluster DNS works, but h:1/ didn't resolve: 7s");
    assert_eq!(f[1].detail, "GET h:1/ took 7s.");
    let f = analyze(&p, &vec![run(vec![result("cluster DNS", "fail"), result("service name", "fail")])]);
    assert_eq!(f.len(), 1);
    assert_eq!(f[0].title, "Pods in web can't resolve names with cluster DNS");
    assert_eq!(f[0].detail, "Looking up kubernetes.default failed: 7s");
    let f = analyze(&p, &vec![run(vec![result("a", "x")]), run(vec![result("a", "x")]), run(vec![])]);
    assert_eq!(f[0].title, "Every check to web/shop passed from 2 nodes");
}
