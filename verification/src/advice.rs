//! What to tell the user about an error of the cluster's client.

use crate::lettercase;
use crate::lettercase::lower;
use crate::scan;
use crate::scan::{has, trimmed};
use crate::text::cat4;
use vstd::prelude::*;

verus! {

/// What the user can do about an error, by its text in lower case.
pub open spec fn remedy(l: Seq<char>) -> Option<Seq<char>> {
    if scan::contains(l, "expiredtoken"@) || scan::contains(l, "token has expired"@)
        || scan::contains(l, "sso session"@) {
        Some(
            "Your cloud login has expired. Run `aws sso login` (or your provider's login command), then select Refresh."@,
        )
    } else if scan::contains(l, "unauthorized"@) || scan::contains(l, "401"@) {
        Some(
            "The cluster rejected your credentials. Check that your kubeconfig user is still valid for this cluster."@,
        )
    } else if scan::contains(l, "forbidden"@) || scan::contains(l, "403"@) {
        Some(
            "You're connected, but your credentials aren't allowed to read this cluster. See docs/rbac.yaml for the permissions Tessera needs."@,
        )
    } else if (scan::contains(l, "exec"@) || scan::contains(l, "credential"@)) && (scan::contains(
        l,
        "no such file"@,
    ) || scan::contains(l, "not found"@)) {
        Some(
            "Couldn't run the login helper your kubeconfig uses (for example `aws` or `gke-gcloud-auth-plugin`). Check it's installed and on your PATH."@,
        )
    } else if scan::contains(l, "dns error"@) || scan::contains(l, "failed to lookup"@)
        || scan::contains(l, "nodename nor servname"@) || scan::contains(
        l,
        "name or service not known"@,
    ) {
        Some(
            "Can't find this cluster's API server address. The cluster may have been deleted, or you may need a VPN or private DNS."@,
        )
    } else if scan::contains(l, "connect"@) || scan::contains(l, "connection refused"@)
        || scan::contains(l, "timed out"@) || scan::contains(l, "unreachable"@) {
        Some(
            "Can't reach this cluster's API server. It may have been deleted or stopped, or you may need a VPN or network access."@,
        )
    } else if scan::contains(l, "certificate"@) || scan::contains(l, "tls"@) {
        Some(
            "Couldn't verify the cluster's TLS certificate. The kubeconfig may be out of date for this cluster."@,
        )
    } else {
        None
    }
}

/// What to tell the user about an error, with its own text at the end.
pub open spec fn explanation(raw: Seq<char>, lowered: Seq<char>) -> Seq<char> {
    match remedy(lowered) {
        Some(m) => m + " (Details: "@ + scan::trim(raw) + ")"@,
        None => raw,
    }
}

/// What the user can do about an error, by its text in lower case.
pub fn find_remedy(l: &str) -> (r: Option<&'static str>)
    ensures
        match r {
            Some(m) => remedy(l@) == Some(m@),
            None => remedy(l@) is None,
        },
{
    if has(l, "expiredtoken") || has(l, "token has expired") || has(l, "sso session") {
        Some(
            "Your cloud login has expired. Run `aws sso login` (or your provider's login command), then select Refresh.",
        )
    } else if has(l, "unauthorized") || has(l, "401") {
        Some(
            "The cluster rejected your credentials. Check that your kubeconfig user is still valid for this cluster.",
        )
    } else if has(l, "forbidden") || has(l, "403") {
        Some(
            "You're connected, but your credentials aren't allowed to read this cluster. See docs/rbac.yaml for the permissions Tessera needs.",
        )
    } else if (has(l, "exec") || has(l, "credential")) && (has(l, "no such file") || has(
        l,
        "not found",
    )) {
        Some(
            "Couldn't run the login helper your kubeconfig uses (for example `aws` or `gke-gcloud-auth-plugin`). Check it's installed and on your PATH.",
        )
    } else if has(l, "dns error") || has(l, "failed to lookup") || has(l, "nodename nor servname")
        || has(l, "name or service not known") {
        Some(
            "Can't find this cluster's API server address. The cluster may have been deleted, or you may need a VPN or private DNS.",
        )
    } else if has(l, "connect") || has(l, "connection refused") || has(l, "timed out") || has(
        l,
        "unreachable",
    ) {
        Some(
            "Can't reach this cluster's API server. It may have been deleted or stopped, or you may need a VPN or network access.",
        )
    } else if has(l, "certificate") || has(l, "tls") {
        Some(
            "Couldn't verify the cluster's TLS certificate. The kubeconfig may be out of date for this cluster.",
        )
    } else {
        None
    }
}

/// Explain an error, given also in lower case. The text of the error is kept at
/// the end, for bug reports.
pub fn explain_lowered(raw: &str, lowered: &str) -> (r: String)
    ensures
        r@ == explanation(raw@, lowered@),
{
    match find_remedy(lowered) {
        Some(m) => cat4(m, " (Details: ", trimmed(raw).as_str(), ")"),
        None => raw.to_owned(),
    }
}

/// Turn an error of the client into something a person can act on. The text of
/// the error is kept at the end, for bug reports.
pub fn explain_error(raw: &str) -> (r: String)
    ensures
        r@ == explanation(raw@, lettercase::lowercase(raw@)),
{
    let l: String = lower(raw);
    explain_lowered(raw, l.as_str())
}

/// Whatever an explanation says, it holds the text of the error.
pub proof fn explanations_keep_the_error(raw: Seq<char>, lowered: Seq<char>)
    ensures
        scan::contains(explanation(raw, lowered), scan::trim(raw)) || explanation(raw, lowered)
            == raw,
        remedy(lowered) is None ==> explanation(raw, lowered) == raw,
{
    match remedy(lowered) {
        Some(m) => {
            let t = scan::trim(raw);
            let e = m + " (Details: "@ + t + ")"@;
            let i = (m + " (Details: "@).len() as int;
            assert(e.subrange(i, i + t.len()) =~= t);
            assert(scan::occurs_at(e, t, i));
        },
        None => {},
    }
}

} // verus!
