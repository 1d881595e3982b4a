//! Tests for the policy.

use tessera_core::policy::{glob, Environment, Policy, PolicyFile, PolicySource};

#[test]
fn globbing() {
    assert!(glob("*prod*", "arn:aws:eks:us-west-2:1:cluster/prod-payments"));
    assert!(glob("kind-*", "kind-tessera-lab"));
    assert!(!glob("kind-*", "my-kind-lab"));
    assert!(glob("minikube", "minikube"));
    assert!(glob("a*c*e", "abcde"));
    assert!(!glob("a*c*e", "abcd"));
}

#[test]
fn classification_prefers_production() {
    let p = Policy::default();
    assert_eq!(p.classify("prod-usw2-payments"), Environment::Production);
    assert_eq!(p.classify("dev-copy-of-prod"), Environment::Production);
    assert_eq!(p.classify("stg-use1-api"), Environment::Staging);
    assert_eq!(p.classify("kind-tessera-lab"), Environment::Development);
    assert_eq!(p.classify("payments-east"), Environment::Other);
}

#[test]
fn overrides_can_only_raise_protection() {
    assert_eq!(Environment::Development.stricter(Some(Environment::Production)), Environment::Production);
    assert_eq!(Environment::Production.stricter(Some(Environment::Development)), Environment::Production);
}

#[test]
fn production_blocks_network_tests_by_default() {
    let p = Policy::default();
    assert!(p.network_test_blocked(Environment::Production).is_some());
    assert!(p.network_test_blocked(Environment::Development).is_none());
}

fn source(path: &str, content: Result<PolicyFile, String>) -> PolicySource {
    PolicySource { path: path.into(), content }
}

#[test]
fn system_file_overrides_user_and_locks() {
    let user = source(
        "user.json",
        Ok(PolicyFile {
            allow_network_tests_in_production: Some(true),
            hidden_contexts: Some(vec!["old-*".into()]),
            ..Default::default()
        }),
    );
    let system = source(
        "system.json",
        Ok(PolicyFile {
            allow_network_tests_in_production: Some(false),
            allowed_contexts: Some(vec!["*-payments".into(), "old-*".into()]),
            ..Default::default()
        }),
    );
    let p = Policy::from_files(Some(&user), Some(&system));
    assert!(!p.allow_network_tests_in_production);
    assert!(p.locked.contains(&"allowNetworkTestsInProduction".to_string()));
    assert!(p.context_allowed("prod-usw2-payments"));
    assert!(!p.context_allowed("prod-usw2-orders"));
    assert!(!p.context_allowed("old-payments"), "hidden wins over allowed");
    let unreadable = source("system.json", Err("key must be a string at line 1 column 3".into()));
    let broken = Policy::from_files(None, Some(&unreadable));
    assert!(!broken.allow_network_tests && !broken.allow_cloud_checks, "fails safe");
    assert_eq!(broken.errors.len(), 1);
}

use tessera_core::policy::rules::{allowed_among, environment_among};

fn texts(v: &[&str]) -> Vec<String> {
    v.iter().map(|s| s.to_string()).collect()
}

#[test]
fn stars_match_any_run() {
    assert!(glob("*", ""));
    assert!(glob("**", "x"));
    assert!(glob("a*", "a"));
    assert!(!glob("a*a", "a"));
    assert!(glob("a*a", "aa"));
    assert!(glob("*ab*ab*", "abab"));
    assert!(!glob("*ab*ab*", "aba"));
    assert!(glob("*é*", "café!"));
    assert!(glob("", ""));
    assert!(!glob("", "a"));
    assert!(!glob("abc", "ab"));
    assert!(glob("a*b*c", "a-b-b-c"));
}

#[test]
fn long_patterns_end_soon() {
    let p = "*a".repeat(60) + "b";
    assert!(!glob(&p, &"a".repeat(200)));
}

#[test]
fn case_does_not_matter() {
    let p = Policy::default();
    assert_eq!(p.classify("PROD-Payments"), Environment::Production);
    assert_eq!(p.classify("MiniKube"), Environment::Development);
    let file = source(
        "p",
        Ok(PolicyFile { hidden_contexts: Some(texts(&["*-LEGACY-*"])), ..Default::default() }),
    );
    let p = Policy::from_files(Some(&file), None);
    assert!(!p.context_allowed("a-legacy-b"));
    assert!(p.context_allowed("a-new-b"));
}

#[test]
fn environments_go_by_the_patterns() {
    let (prod, stag, dev) = (texts(&["p*"]), texts(&["*s"]), texts(&["*d*"]));
    assert_eq!(environment_among("pds", &prod, &stag, &dev), Environment::Production);
    assert_eq!(environment_among("ds", &prod, &stag, &dev), Environment::Staging);
    assert_eq!(environment_among("xdx", &prod, &stag, &dev), Environment::Development);
    assert_eq!(environment_among("xx", &prod, &stag, &dev), Environment::Other);
    assert!(allowed_among("a", &texts(&[]), &texts(&["b"])));
    assert!(!allowed_among("b", &texts(&["*"]), &texts(&["b"])));
    assert!(!allowed_among("a", &texts(&["b"]), &texts(&[])));
}

#[test]
fn wishes_never_lower_protection() {
    let all = [
        Environment::Development,
        Environment::Other,
        Environment::Staging,
        Environment::Production,
    ];
    for (i, e) in all.iter().enumerate() {
        assert_eq!(e.stricter(None), *e);
        for (j, w) in all.iter().enumerate() {
            assert_eq!(e.stricter(Some(*w)), all[i.max(j)]);
        }
    }
}

#[test]
fn files_apply_in_order() {
    let user = source(
        "u",
        Ok(PolicyFile {
            allow_network_tests: Some(false),
            audit_log: Some(false),
            staging_context_patterns: Some(texts(&["a"])),
            ..Default::default()
        }),
    );
    let system = source(
        "s",
        Ok(PolicyFile {
            allow_network_tests: Some(true),
            development_context_patterns: Some(texts(&[])),
            ..Default::default()
        }),
    );
    let p = Policy::from_files(Some(&user), Some(&system));
    assert!(p.allow_network_tests);
    assert!(!p.audit_log);
    assert_eq!(p.staging_context_patterns, vec!["a"]);
    assert!(p.development_context_patterns.is_empty());
    assert_eq!(p.sources, vec!["u", "s"]);
    assert_eq!(p.locked, vec!["allowNetworkTests", "developmentContextPatterns"]);
    let broken = source("u", Err("bad".into()));
    let p = Policy::from_files(Some(&broken), None);
    assert!(p.allow_network_tests && p.allow_cloud_checks);
    assert_eq!(p.errors, vec!["Couldn't read u: bad"]);
    assert!(p.locked.is_empty());
}

#[test]
fn blocks_say_why() {
    let mut p = Policy::default();
    assert_eq!(
        p.network_test_blocked(Environment::Production).as_deref(),
        Some("Network tests are turned off for production contexts. An administrator can allow them with allowNetworkTestsInProduction in the policy file.")
    );
    p.allow_network_tests_in_production = true;
    assert_eq!(p.network_test_blocked(Environment::Production), None);
    p.allow_network_tests = false;
    assert_eq!(
        p.network_test_blocked(Environment::Other).as_deref(),
        Some("Network tests are turned off by policy.")
    );
}
