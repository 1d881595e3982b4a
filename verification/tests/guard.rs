//! Tests for the guardrails around network tests.

use tessera_core::active::{Finding, NetworkTestReport, NetworkTestRequest, TestPlan};
use tessera_core::guard::{
    audit_limit, check_context, env_name, may_plan, permitted, record_run, requires_confirmation,
    start_run, tail_lines, Asker, PlanStore, PlannedTest,
};
use tessera_core::policy::{Environment, Policy, PolicyFile, PolicySource};
use tessera_core::{CollectOptions, Target};

fn asker() -> Asker {
    Asker { time: 42, user: "me".into() }
}

fn plan() -> TestPlan {
    TestPlan {
        service: Target { kind: "Service".into(), namespace: "web".into(), name: "shop".into() },
        source_namespace: "web".into(),
        image: "busybox".into(),
        checks: vec![],
        probes: vec![],
        policies_apply: false,
        notes: vec![],
    }
}

fn planned(context: &str, environment: Environment) -> PlannedTest {
    PlannedTest { context: context.into(), environment, plan: plan() }
}

fn request() -> NetworkTestRequest {
    NetworkTestRequest { namespace: "web".into(), service: "shop".into(), ..Default::default() }
}

fn with(f: PolicyFile) -> Policy {
    Policy::from_files(Some(&PolicySource { path: "p".into(), content: Ok(f) }), None)
}

#[test]
fn production_is_not_planned_by_default() {
    let p = Policy::default();
    let r = may_plan(&p, &asker(), "prod-a", &request(), Some(Environment::Development));
    let e = r.unwrap_err();
    assert!(e.reason.starts_with("Network tests are turned off for production contexts."));
    let entry = e.entry.unwrap();
    assert_eq!((entry.time, entry.user.as_str(), entry.context.as_str()), (42, "me", "prod-a"));
    assert_eq!((entry.environment.as_str(), entry.action.as_str()), ("production", "network_test_blocked"));
    assert_eq!((entry.namespace.as_deref(), entry.target.as_deref()), (Some("web"), Some("service/shop")));
    assert_eq!(entry.outcome, e.reason);
    let quiet = with(PolicyFile { audit_log: Some(false), ..Default::default() });
    assert!(may_plan(&quiet, &asker(), "prod-a", &request(), None).unwrap_err().entry.is_none());
    assert_eq!(
        may_plan(&p, &asker(), "dev-a", &request(), None).unwrap(),
        Environment::Development
    );
    assert_eq!(
        may_plan(&p, &asker(), "dev-a", &request(), Some(Environment::Staging)).unwrap(),
        Environment::Staging
    );
    assert!(may_plan(&p, &asker(), "dev-a", &request(), Some(Environment::Production)).is_err());
}

#[test]
fn hidden_contexts_are_refused() {
    let p = with(PolicyFile { hidden_contexts: Some(vec!["old-*".into()]), ..Default::default() });
    assert_eq!(
        check_context(&p, "old-a").unwrap_err(),
        "The context old-a isn't allowed by your Tessera policy."
    );
    assert!(check_context(&p, "new-a").is_ok());
    let e = may_plan(&p, &asker(), "old-a", &request(), None).unwrap_err();
    assert_eq!(e.reason, "The context old-a isn't allowed by your Tessera policy.");
    assert!(e.entry.is_none());
}

#[test]
fn a_plan_is_run_once() {
    let p = Policy::default();
    let mut store = PlanStore::new();
    store.insert("1".into(), planned("dev-a", Environment::Development));
    store.insert("2".into(), planned("dev-b", Environment::Development));
    store.insert("2".into(), planned("dev-c", Environment::Development));
    assert_eq!(start_run(&mut store, &p, &asker(), "1", &None).unwrap().context, "dev-a");
    let again = start_run(&mut store, &p, &asker(), "1", &None).unwrap_err();
    assert_eq!(again.reason, "That test plan has expired. Plan the test again.");
    assert!(start_run(&mut store, &p, &asker(), "3", &None).is_err());
    assert_eq!(start_run(&mut store, &p, &asker(), "2", &None).unwrap().context, "dev-c");
    assert!(store.take("2").is_none());
}

#[test]
fn production_needs_the_exact_name() {
    let p = with(PolicyFile {
        allow_network_tests_in_production: Some(true),
        ..Default::default()
    });
    let mut store = PlanStore::new();
    for confirmation in [None, Some("prod".to_string()), Some("PROD-A".to_string())] {
        store.insert("1".into(), planned("prod-a", Environment::Production));
        let e = start_run(&mut store, &p, &asker(), "1", &confirmation).unwrap_err();
        assert_eq!(
            e.reason,
            "This is a production context. Type the context name exactly to confirm the test."
        );
        assert!(store.take("1").is_none(), "the plan is gone");
    }
    store.insert("1".into(), planned("prod-a", Environment::Production));
    assert!(start_run(&mut store, &p, &asker(), "1", &Some("prod-a".into())).is_ok());
    assert!(requires_confirmation(Environment::Production));
    assert!(!requires_confirmation(Environment::Staging));
}

#[test]
fn the_policy_is_asked_again_and_a_block_is_recorded() {
    let p = Policy::default();
    let mut store = PlanStore::new();
    store.insert("1".into(), planned("prod-a", Environment::Production));
    let e = start_run(&mut store, &p, &asker(), "1", &Some("prod-a".into())).unwrap_err();
    let entry = e.entry.unwrap();
    assert_eq!((entry.action.as_str(), entry.target.as_deref()), ("network_test_blocked", Some("service/shop")));
    let hidden = with(PolicyFile { hidden_contexts: Some(vec!["*".into()]), ..Default::default() });
    store.insert("1".into(), planned("dev-a", Environment::Development));
    let e = start_run(&mut store, &hidden, &asker(), "1", &None).unwrap_err();
    assert_eq!(e.reason, "The context dev-a isn't allowed by your Tessera policy.");
}

#[test]
fn runs_are_recorded() {
    let finding = |s: &str| Finding {
        status: s.into(),
        title: String::new(),
        detail: String::new(),
        suggestion: String::new(),
    };
    let report = |statuses: &[&str], created: &[&str], deleted: &[&str]| NetworkTestReport {
        plan: plan(),
        runs: vec![],
        findings: statuses.iter().map(|s| finding(s)).collect(),
        pods_created: created.iter().map(|s| s.to_string()).collect(),
        pods_deleted: deleted.iter().map(|s| s.to_string()).collect(),
    };
    let p = Policy::default();
    let record = |r: &NetworkTestReport| record_run(&p, &asker(), "dev-a", Environment::Other, r);
    let e = record(&report(&["ok"], &["a"], &["a"])).unwrap();
    assert_eq!((e.action.as_str(), e.outcome.as_str()), ("network_test_run", "all checks passed"));
    assert_eq!((e.namespace.as_deref(), e.target.as_deref()), (Some("web"), Some("service/shop")));
    assert_eq!((e.environment.as_str(), e.pods_created, e.pods_deleted), ("other", vec!["a".to_string()], vec!["a".to_string()]));
    let e = record(&report(&["critical", "warning", "ok"], &["a", "b"], &["a"])).unwrap();
    assert_eq!(e.outcome, "2 findings; WARNING: not every probe pod was confirmed deleted");
    let quiet = with(PolicyFile { audit_log: Some(false), ..Default::default() });
    assert!(record_run(&quiet, &asker(), "c", Environment::Other, &report(&[], &[], &[])).is_none());
}

#[test]
fn numbers_are_kept_in_bounds() {
    assert_eq!(tail_lines(None), 500);
    assert_eq!(tail_lines(Some(-3)), 10);
    assert_eq!(tail_lines(Some(77)), 77);
    assert_eq!(tail_lines(Some(1 << 40)), 5000);
    assert_eq!(audit_limit(None), 100);
    assert_eq!(audit_limit(Some(7)), 7);
    assert_eq!(audit_limit(Some(5000)), 1000);
    assert_eq!(env_name(Environment::Staging), "staging");
    let p = with(PolicyFile { allow_cloud_checks: Some(false), ..Default::default() });
    let asked = CollectOptions { cloud_checks: true, aws_profile: Some("x".into()), aws_region: None };
    assert!(!permitted(&asked, &p).cloud_checks);
    assert!(permitted(&asked, &Policy::default()).cloud_checks);
    assert_eq!(permitted(&asked, &p).aws_profile.as_deref(), Some("x"));
}
