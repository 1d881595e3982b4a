//! Tests for what the user is told about errors.

use tessera_core::explain_error;

#[test]
fn explains_common_errors() {
    assert!(explain_error("ServiceError: client error (Connect)").starts_with("Can't reach this cluster"));
    assert!(explain_error("dns error: failed to lookup address information").starts_with("Can't find"));
    assert!(explain_error("ApiError: Unauthorized: 401").contains("rejected your credentials"));
    assert!(explain_error("An error occurred (ExpiredToken)").contains("aws sso login"));
    assert!(explain_error("failed to exec auth plugin: No such file or directory").contains("login helper"));
    assert_eq!(explain_error("something else"), "something else");
}

use tessera_core::advice::explain_lowered;
use tessera_core::collect::{describe_err, describe_failure};

#[test]
fn every_kind_of_error_is_explained() {
    let cases = [
        ("SSO Session ended", "Your cloud login has expired."),
        ("401", "The cluster rejected your credentials."),
        ("FORBIDDEN", "You're connected, but"),
        ("credential helper not found", "Couldn't run the login helper"),
        ("nodename nor servname provided", "Can't find this cluster's API server address."),
        ("operation timed out", "Can't reach this cluster's API server."),
        ("bad Certificate", "Couldn't verify the cluster's TLS certificate."),
    ];
    for (raw, told) in cases {
        let e = explain_error(raw);
        assert!(e.starts_with(told), "{e}");
        assert!(e.ends_with(&format!(" (Details: {raw})")), "{e}");
    }
    assert_eq!(
        explain_lowered("  x  ", "tls"),
        "Couldn't verify the cluster's TLS certificate. The kubeconfig may be out of date for this cluster. (Details: x)"
    );
}

#[test]
fn listing_failures_are_described() {
    assert_eq!(
        describe_err("pods", "ApiError: Forbidden"),
        "Your credentials can't list pods across namespaces, so they're missing from the map."
    );
    assert_eq!(describe_err("pods", "error 404"), "This cluster doesn't serve pods.");
    assert_eq!(describe_err("pods", "boom"), "Couldn't list pods: boom");
    assert_eq!(
        describe_failure("x", "E", "forbidden"),
        "Your credentials can't list x across namespaces, so they're missing from the map."
    );
}
