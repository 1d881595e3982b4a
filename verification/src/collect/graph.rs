//! The graph of a snapshot, and what to say when something could not be
//! listed.

use crate::clock::seconds_since_epoch;
use crate::collect::copies;
use crate::collect::copies::{convert_hpas, copy_claims, copy_mesh, copy_namespaces};
use crate::collect::events;
use crate::collect::events::convert_events;
use crate::collect::ingresses;
use crate::collect::ingresses::{convert_ingresses, find_default_class, names_of_classes};
use crate::collect::nodes;
use crate::collect::nodes::{convert_nodes, convert_workloads};
use crate::collect::pods;
use crate::collect::pods::convert_pods;
use crate::collect::policies;
use crate::collect::policies::convert_policies;
use crate::collect::raw::RawSnapshot;
use crate::collect::services;
use crate::collect::services::convert_services;
use crate::diagnose;
use crate::laws::standing;
use crate::lettercase;
use crate::lettercase::lower;
use crate::model;
use crate::model::{ClusterGraph, Issue, LbHealth, PodInfo, WorkloadInfo};
use crate::numeral;
use crate::numeral::dec_u64;
use crate::scan;
use crate::scan::has;
use crate::text;
use crate::text::{cat3, cat4, copy_list, no_lines, say};
use vstd::prelude::*;

verus! {

/// Is the list of secret names the same?
pub open spec fn same_secrets(x: Option<Vec<String>>, r: Option<Vec<String>>) -> bool {
    match (x, r) {
        (Some(a), Some(b)) => b@ == a@,
        (None, None) => true,
        _ => false,
    }
}

fn copy_secrets(x: &Option<Vec<String>>) -> (r: Option<Vec<String>>)
    ensures
        same_secrets(*x, r),
{
    match x {
        Some(v) => Some(copy_list(v)),
        None => None,
    }
}

/// Is this the graph of a snapshot, as far as it comes from the snapshot
/// alone? Its issues are its own diagnosis.
pub open spec fn graph_from(raw: RawSnapshot, context: Seq<char>, g: ClusterGraph) -> bool {
    &&& g.context@ == context
    &&& g.server_version is None
    &&& nodes::nodes_from(raw.nodes@, g.nodes@)
    &&& nodes::workloads_from(raw, g.workloads@)
    &&& pods::pods_from(raw, raw.pods@, g.pods@)
    &&& services::services_from(raw, g.pods@, g.workloads@, g.services@)
    &&& ingresses::ingresses_from(raw.ingresses@, g.ingresses@)
    &&& events::events_from(raw.events@, g.events@)
    &&& policies::policies_from(raw.network_policies@, g.network_policies@)
    &&& text::strs(g.ingress_classes@) == ingresses::class_names(
        raw.ingress_classes@,
        raw.ingress_classes@.len() as int,
    )
    &&& g.default_ingress_class == ingresses::default_class(raw.ingress_classes@)
    &&& same_secrets(raw.secret_names, g.secret_names)
    &&& g.pvcs@ == raw.pvcs@
    &&& copies::hpas_from(raw.hpas@, g.hpas@)
    &&& copies::same_namespaces(raw.namespaces@, g.namespaces@)
    &&& copies::same_mesh(raw.mesh, g.mesh)
    &&& g.lb_health@.len() == 0
    &&& g.warnings@.len() == 0
    &&& model::views(g.issues@) == diagnose::diagnosis(g)
}

/// Convert a snapshot that was taken at a time, in seconds since 1970, and
/// diagnose it.
pub fn build_graph_at(raw: &RawSnapshot, context: &str, now: u64) -> (g: ClusterGraph)
    ensures
        graph_from(*raw, context@, g),
        g.fetched_at@ == numeral::dec(now as int),
{
    let workloads: Vec<WorkloadInfo> = convert_workloads(raw);
    let pods: Vec<PodInfo> = convert_pods(raw, &raw.pods);
    let mut g: ClusterGraph = ClusterGraph {
        context: context.to_owned(),
        server_version: None,
        fetched_at: dec_u64(now),
        nodes: convert_nodes(&raw.nodes),
        ingresses: convert_ingresses(&raw.ingresses),
        services: convert_services(raw, &pods, &workloads),
        workloads,
        pods,
        events: convert_events(&raw.events),
        network_policies: convert_policies(&raw.network_policies),
        ingress_classes: names_of_classes(&raw.ingress_classes),
        default_ingress_class: find_default_class(&raw.ingress_classes),
        secret_names: copy_secrets(&raw.secret_names),
        pvcs: copy_claims(&raw.pvcs),
        hpas: convert_hpas(&raw.hpas),
        namespaces: copy_namespaces(&raw.namespaces),
        mesh: copy_mesh(&raw.mesh),
        lb_health: Vec::new(),
        issues: Vec::new(),
        warnings: no_lines(),
    };
    let ghost bare = g;
    let issues: Vec<Issue> = diagnose(&g);
    g.issues = issues;
    proof {
        standing::diagnoses_do_not_depend_on_issues(bare, g);
    }
    g
}

/// Convert a snapshot that was taken just now, and diagnose it.
pub fn build_graph(raw: &RawSnapshot, context: &str) -> (g: ClusterGraph)
    ensures
        graph_from(*raw, context@, g),
        exists|now: u64| g.fetched_at@ == #[trigger] numeral::dec(now as int),
{
    let now: u64 = seconds_since_epoch();
    let g: ClusterGraph = build_graph_at(raw, context, now);
    proof {
        assert(g.fetched_at@ == numeral::dec(now as int));
    }
    g
}

/// What was listed. What could not be is left out, with a warning.
pub fn take<T>(r: Result<Vec<T>, String>, warnings: &mut Vec<String>) -> (v: Vec<T>)
    ensures
        match r {
            Ok(x) => v@ == x@ && text::strs(final(warnings)@) == text::strs(old(warnings)@),
            Err(w) => v@.len() == 0 && text::strs(final(warnings)@) == text::strs(
                old(warnings)@,
            ).push(w@),
        },
{
    match r {
        Ok(x) => x,
        Err(w) => {
            say(warnings, w);
            Vec::new()
        },
    }
}

/// Add what the cloud says of its load balancers, and diagnose again.
pub fn with_health(g: ClusterGraph, health: Vec<LbHealth>) -> (r: ClusterGraph)
    ensures
        r == (ClusterGraph { lb_health: health, issues: r.issues, ..g }),
        model::views(r.issues@) == diagnose::diagnosis(r),
{
    let mut g: ClusterGraph = g;
    g.lb_health = health;
    let ghost before = g;
    let issues: Vec<Issue> = diagnose(&g);
    g.issues = issues;
    proof {
        standing::diagnoses_do_not_depend_on_issues(before, g);
    }
    g
}

/// What to say when `what` could not be listed, for an error as it reads and
/// as it reads in lower case.
pub open spec fn failure(what: Seq<char>, error: Seq<char>, lowered: Seq<char>) -> Seq<char> {
    if scan::contains(error, "403"@) || scan::contains(lowered, "forbidden"@) {
        "Your credentials can't list "@ + what
            + " across namespaces, so they're missing from the map."@
    } else if scan::contains(error, "404"@) || scan::contains(
        error,
        "the server could not find"@,
    ) {
        "This cluster doesn't serve "@ + what + "."@
    } else {
        "Couldn't list "@ + what + ": "@ + error
    }
}

/// What to say when `what` could not be listed, for an error as it reads and
/// as it reads in lower case.
pub fn describe_failure(what: &str, error: &str, lowered: &str) -> (r: String)
    ensures
        r@ == failure(what@, error@, lowered@),
{
    if has(error, "403") || has(lowered, "forbidden") {
        cat3(
            "Your credentials can't list ",
            what,
            " across namespaces, so they're missing from the map.",
        )
    } else if has(error, "404") || has(error, "the server could not find") {
        cat3("This cluster doesn't serve ", what, ".")
    } else {
        cat4("Couldn't list ", what, ": ", error)
    }
}

/// What to say when `what` could not be listed.
pub fn describe_err(what: &str, error: &str) -> (r: String)
    ensures
        r@ == failure(what@, error@, lettercase::lowercase(error@)),
{
    let lowered: String = lower(error);
    describe_failure(what, error, lowered.as_str())
}

} // verus!
