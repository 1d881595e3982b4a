//! Tests for the audit log.

use tessera_core::audit::{read, AuditEntry};

#[test]
fn round_trip() {
    let mut a = AuditEntry::new("dev-a", "development", "network_test_run", "2 checks failed", "me");
    a.pods_created = vec!["tessera-probe-abc".into()];
    a.pods_deleted = vec!["tessera-probe-abc".into()];
    let b = AuditEntry::new(
        "prod-b",
        "production",
        "network_test_blocked",
        "blocked by policy",
        "me",
    );
    let r = read(vec![Some(a), Some(b)], 10);
    assert_eq!(r.len(), 2);
    assert_eq!(r[0].context, "prod-b", "newest first");
    assert_eq!(r[1].pods_deleted, vec!["tessera-probe-abc"]);
}

use tessera_core::audit::login_name;

#[test]
fn the_newest_entries_come_first_up_to_a_limit() {
    let entry = |c: &str| Some(AuditEntry::at(7, "me", c, "other", "network_test_run", "ok"));
    let lines = || vec![entry("a"), None, entry("b"), entry("c")];
    let contexts = |limit: usize| -> Vec<String> {
        read(lines(), limit).into_iter().map(|e| e.context).collect()
    };
    assert_eq!(contexts(10), vec!["c", "b", "a"]);
    assert_eq!(contexts(2), vec!["c", "b"]);
    assert!(contexts(0).is_empty());
    assert!(read(vec![], 5).is_empty());
    assert_eq!(read(lines(), 1)[0].time, 7);
}

#[test]
fn new_entries_have_the_time() {
    let e = AuditEntry::new("c", "other", "network_test_run", "ok", "me");
    assert!(e.time > 1_600_000_000, "{}", e.time);
    assert_eq!((e.user.as_str(), e.namespace, e.target), ("me", None, None));
}

#[test]
fn users_have_a_name() {
    let some = |s: &str| Some(s.to_string());
    assert_eq!(login_name(&some("a"), &some("b")), "a");
    assert_eq!(login_name(&None, &some("b")), "b");
    assert_eq!(login_name(&None, &None), "unknown");
}
