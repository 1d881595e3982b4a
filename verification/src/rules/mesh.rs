//! Service mesh: missing sidecars, and routes to services or subsets that are
//! not there.

use crate::labels;
use crate::labels::{fmt_selector, labels_match, Labels};
use crate::model;
use crate::model::{
    emit, emit_all, issue, no_issues, target, ClusterGraph, DestinationRuleInfo, Issue,
    IssueView, Layer, PodInfo, ServiceInfo, Severity, VirtualServiceInfo,
};
use crate::numeral;
use crate::numeral::dec_usize;
use crate::order::insert_key;
use crate::pick;
use crate::rules::pod;
use crate::rules::pod::owner_of;
use crate::scan;
use crate::scan::without_ends;
use crate::split;
use crate::split::{joined, owner_label, parts, split_id};
use crate::text;
use crate::text::{
    cat2, cat3, cat4, cat5, cat6, cat8, lines1, lines2, listed, no_lines, opt_same, same, say,
};
use vstd::prelude::*;

verus! {

broadcast use crate::pick::lemma_add_nothing;

/// Is the proxy one of the containers of a pod?
pub open spec fn proxy_runs(p: PodInfo, n: int) -> bool {
    pick::any(n, |i: int| p.containers@[i].name@ == "istio-proxy"@)
}

fn is_proxy_running(p: &PodInfo) -> (r: bool)
    ensures
        r == proxy_runs(*p, p.containers@.len() as int),
{
    let mut r: bool = false;
    let mut i: usize = 0;
    while i < p.containers.len()
        invariant
            i <= p.containers@.len(),
            r == proxy_runs(*p, i as int),
        decreases p.containers@.len() - i,
    {
        if same(p.containers[i].name.as_str(), "istio-proxy") {
            r = true;
        }
        i = i + 1;
    }
    r
}

/// Does a pod have the sidecar, as a container or as an init container?
pub open spec fn has_sidecar(p: PodInfo) -> bool {
    proxy_runs(p, p.containers@.len() as int) || text::strs(p.init_containers@).contains(
        "istio-proxy"@,
    )
}

fn with_sidecar(p: &PodInfo) -> (r: bool)
    ensures
        r == has_sidecar(*p),
{
    is_proxy_running(p) || listed(&p.init_containers, "istio-proxy")
}

/// Does a pod of the cluster have the sidecar?
pub open spec fn sidecar_seen(g: ClusterGraph, n: int) -> bool {
    pick::any(n, |i: int| has_sidecar(g.pods@[i]))
}

fn is_sidecar_seen(g: &ClusterGraph) -> (r: bool)
    ensures
        r == sidecar_seen(*g, g.pods@.len() as int),
{
    let mut r: bool = false;
    let mut i: usize = 0;
    while i < g.pods.len()
        invariant
            i <= g.pods@.len(),
            r == sidecar_seen(*g, i as int),
        decreases g.pods@.len() - i,
    {
        if with_sidecar(&g.pods[i]) {
            r = true;
        }
        i = i + 1;
    }
    r
}

/// The service that a destination host names: a bare name is in the namespace
/// of the rule, a name and a namespace say so, anything longer is outside.
pub open spec fn resolve_host(host: Seq<char>, ns: Seq<char>) -> Option<(Seq<char>, Seq<char>)> {
    let parts = split::split(
        scan::strip_ends(scan::strip_ends(host, ".cluster.local"@), ".svc"@),
        '.',
    );
    if parts.len() == 1 {
        Some((ns, parts[0]))
    } else if parts.len() == 2 {
        Some((parts[1], parts[0]))
    } else {
        None
    }
}

/// Find the namespace and name of the service that a destination host names.
pub fn host_of(host: &str, ns: &str) -> (r: Option<(String, String)>)
    ensures
        match r {
            Some(t) => resolve_host(host@, ns@) == Some((t.0@, t.1@)),
            None => resolve_host(host@, ns@) is None,
        },
{
    let bare: String = without_ends(without_ends(host, ".cluster.local").as_str(), ".svc");
    let p: Vec<String> = parts(bare.as_str(), '.');
    proof {
        assert(text::strs(p@).len() == p@.len());
        assert(forall|i: int| 0 <= i < p@.len() ==> text::strs(p@)[i] == (#[trigger] p@[i])@);
    }
    if p.len() == 1 {
        Some((ns.to_owned(), p[0].clone()))
    } else if p.len() == 2 {
        Some((p[1].clone(), p[0].clone()))
    } else {
        None
    }
}

/// Does a namespace have sidecars injected?
pub open spec fn injects(g: ClusterGraph, i: int) -> bool {
    let l = g.namespaces@[i].labels@;
    labels::lookup(l, "istio-injection"@) == Some("enabled"@) || labels::lookup(
        l,
        "istio.io/rev"@,
    ) is Some
}

fn is_injecting(g: &ClusterGraph, i: usize) -> (r: bool)
    requires
        i < g.namespaces@.len(),
    ensures
        r == injects(*g, i as int),
{
    let l: &Labels = &g.namespaces[i].labels;
    let enabled: bool = match l.get("istio-injection") {
        Some(v) => same(v.as_str(), "enabled"),
        None => false,
    };
    enabled || l.contains_key("istio.io/rev")
}

/// Does the namespace of this name have sidecars injected?
pub open spec fn injected(g: ClusterGraph, ns: Seq<char>, n: int) -> bool {
    pick::any(n, |i: int| g.namespaces@[i].name@ == ns && injects(g, i))
}

fn is_injected(g: &ClusterGraph, ns: &str) -> (r: bool)
    ensures
        r == injected(*g, ns@, g.namespaces@.len() as int),
{
    let mut r: bool = false;
    let mut i: usize = 0;
    while i < g.namespaces.len()
        invariant
            i <= g.namespaces@.len(),
            r == injected(*g, ns@, i as int),
        decreases g.namespaces@.len() - i,
    {
        if same(g.namespaces[i].name.as_str(), ns) && is_injecting(g, i) {
            r = true;
        }
        i = i + 1;
    }
    r
}

/// Does a pod lack the sidecar that its namespace should have given it?
pub open spec fn bare(g: ClusterGraph, p: PodInfo) -> bool {
    injected(g, p.namespace@, g.namespaces@.len() as int) && p.phase@ == "Running"@ && !has_sidecar(
        p,
    ) && labels::lookup(p.labels@, "sidecar.istio.io/inject"@) != Some("false"@)
}

fn is_bare(g: &ClusterGraph, p: &PodInfo) -> (r: bool)
    ensures
        r == bare(*g, *p),
{
    let opted_out: bool = match p.labels.get("sidecar.istio.io/inject") {
        Some(v) => same(v.as_str(), "false"),
        None => false,
    };
    is_injected(g, p.namespace.as_str()) && same(p.phase.as_str(), "Running") && !with_sidecar(p)
        && !opted_out
}

/// The owners of the pods without the sidecar.
pub open spec fn bare_owners(g: ClusterGraph, n: int) -> Seq<Seq<char>> {
    pick::keys(
        n,
        |i: int|
            if bare(g, g.pods@[i]) {
                Some(pod::owner(g.pods@[i]))
            } else {
                None
            },
    )
}

fn bare_owner_list(g: &ClusterGraph) -> (r: Vec<String>)
    ensures
        text::strs(r@) == bare_owners(*g, g.pods@.len() as int),
{
    let mut r: Vec<String> = no_lines();
    let mut i: usize = 0;
    while i < g.pods.len()
        invariant
            i <= g.pods@.len(),
            text::strs(r@) == bare_owners(*g, i as int),
        decreases g.pods@.len() - i,
    {
        if is_bare(g, &g.pods[i]) {
            insert_key(&mut r, owner_of(&g.pods[i]));
        }
        i = i + 1;
    }
    r
}

/// The first of the pods of one owner.
pub open spec fn bare_first(g: ClusterGraph, key: Seq<char>, n: int) -> Option<int> {
    pick::first(n, |i: int| bare(g, g.pods@[i]) && pod::owner(g.pods@[i]) == key)
}

fn bare_first_of(g: &ClusterGraph, key: &str) -> (r: Option<usize>)
    ensures
        match r {
            Some(k) => k < g.pods@.len() && bare_first(*g, key@, g.pods@.len() as int) == Some(k as int),
            None => bare_first(*g, key@, g.pods@.len() as int) is None,
        },
{
    let mut r: Option<usize> = None;
    let mut i: usize = 0;
    while i < g.pods.len()
        invariant
            i <= g.pods@.len(),
            match r {
                Some(k) => k < i && bare_first(*g, key@, i as int) == Some(k as int),
                None => bare_first(*g, key@, i as int) is None,
            },
        decreases g.pods@.len() - i,
    {
        if r.is_none() && is_bare(g, &g.pods[i]) && same(owner_of(&g.pods[i]).as_str(), key) {
            r = Some(i);
        }
        i = i + 1;
    }
    r
}

/// The names of the pods of one owner.
pub open spec fn bare_names(g: ClusterGraph, key: Seq<char>, n: int) -> Seq<Seq<char>> {
    pick::gather(
        n,
        |i: int|
            if bare(g, g.pods@[i]) && pod::owner(g.pods@[i]) == key {
                seq![g.pods@[i].name@]
            } else {
                Seq::empty()
            },
    )
}

fn bare_names_of(g: &ClusterGraph, key: &str) -> (r: Vec<String>)
    ensures
        text::strs(r@) == bare_names(*g, key@, g.pods@.len() as int),
{
    let mut r: Vec<String> = no_lines();
    let mut i: usize = 0;
    while i < g.pods.len()
        invariant
            i <= g.pods@.len(),
            text::strs(r@) == bare_names(*g, key@, i as int),
        decreases g.pods@.len() - i,
    {
        if is_bare(g, &g.pods[i]) && same(owner_of(&g.pods[i]).as_str(), key) {
            say(&mut r, g.pods[i].name.clone());
        }
        i = i + 1;
    }
    r
}

/// The issue for the pods of one owner without the sidecar.
pub open spec fn no_sidecar(key: Seq<char>, p: PodInfo, names: Seq<Seq<char>>) -> IssueView {
    model::issue_view(
        "mesh-no-sidecar:"@ + key,
        Severity::Warning,
        Layer::Pod,
        model::target_view(split::id_part(key, 0), p.namespace@, split::id_part(key, 2)),
        split::owner_name(key) + " runs without the Istio sidecar in an injected namespace"@,
        "These pods started before injection was enabled, or injection failed. With STRICT mTLS, calls to and from them are rejected, and mesh routing rules don't apply to them."@,
        seq![
            "namespace "@ + p.namespace@ + " has sidecar injection enabled"@,
            numeral::dec(names.len() as int) + " pods without istio-proxy"@,
        ],
        "Restart the workload so new pods get the sidecar. If they still don't, check the injector webhook."@,
        seq![
            "kubectl get pod "@ + p.name@ + " -n "@ + p.namespace@
                + " -o jsonpath='{.spec.containers[*].name}'"@,
        ],
        names,
    )
}

fn no_sidecar_issue(key: &str, p: &PodInfo, names: Vec<String>) -> (r: Issue)
    ensures
        r@ == no_sidecar(key@, *p, text::strs(names@)),
{
    let id: (String, String, String) = split_id(key);
    let who: String = owner_label(key);
    issue(
        cat2("mesh-no-sidecar:", key),
        Severity::Warning,
        Layer::Pod,
        target(id.0.as_str(), p.namespace.as_str(), id.2.as_str()),
        cat2(who.as_str(), " runs without the Istio sidecar in an injected namespace"),
        "These pods started before injection was enabled, or injection failed. With STRICT mTLS, calls to and from them are rejected, and mesh routing rules don't apply to them.".to_owned(),
        lines2(
            cat3("namespace ", p.namespace.as_str(), " has sidecar injection enabled"),
            cat2(dec_usize(names.len()).as_str(), " pods without istio-proxy"),
        ),
        "Restart the workload so new pods get the sidecar. If they still don't, check the injector webhook.".to_owned(),
        lines1(
            cat5(
                "kubectl get pod ",
                p.name.as_str(),
                " -n ",
                p.namespace.as_str(),
                " -o jsonpath='{.spec.containers[*].name}'",
            ),
        ),
        names,
    )
}

/// The issue for the pods of one owner.
pub open spec fn bare_of(g: ClusterGraph, key: Seq<char>) -> Seq<IssueView> {
    let n = g.pods@.len() as int;
    match bare_first(g, key, n) {
        Some(i) => seq![no_sidecar(key, g.pods@[i], bare_names(g, key, n))],
        None => Seq::empty(),
    }
}

fn bare_issue_of(g: &ClusterGraph, key: &str) -> (r: Vec<Issue>)
    ensures
        model::views(r@) == bare_of(*g, key@),
{
    let mut r: Vec<Issue> = no_issues();
    match bare_first_of(g, key) {
        Some(i) => {
            let names: Vec<String> = bare_names_of(g, key);
            emit(&mut r, no_sidecar_issue(key, &g.pods[i], names));
        },
        None => {},
    }
    r
}

/// The issues for pods without the sidecar, by owner in rising order.
pub open spec fn bare_issues(g: ClusterGraph) -> Seq<IssueView> {
    let keys = bare_owners(g, g.pods@.len() as int);
    pick::gather(keys.len() as int, |k: int| bare_of(g, keys[k]))
}

/// Pods without the sidecar.
pub fn bare_rules(g: &ClusterGraph) -> (out: Vec<Issue>)
    ensures
        model::views(out@) == bare_issues(*g),
{
    let keys: Vec<String> = bare_owner_list(g);
    let ghost ks = text::strs(keys@);
    let ghost f = |k: int| bare_of(*g, ks[k]);
    let mut out: Vec<Issue> = no_issues();
    let mut k: usize = 0;
    while k < keys.len()
        invariant
            k <= keys.len(),
            ks == text::strs(keys@),
            f == (|k: int| bare_of(*g, ks[k])),
            model::views(out@) == pick::gather(k as int, f),
        decreases keys.len() - k,
    {
        let part: Vec<Issue> = bare_issue_of(g, keys[k].as_str());
        emit_all(&mut out, part);
        k = k + 1;
    }
    out
}

/// The issue for a route to a service that does not exist.
pub open spec fn dest_missing(
    vs: VirtualServiceInfo,
    host: Seq<char>,
    ns: Seq<char>,
    svc: Seq<char>,
) -> IssueView {
    model::issue_view(
        "mesh-dest-missing:"@ + vs.namespace@ + "/"@ + vs.name@ + "/"@ + host,
        Severity::Critical,
        Layer::Entry,
        model::target_view("VirtualService"@, vs.namespace@, vs.name@),
        "VirtualService "@ + vs.name@ + " routes to "@ + host + ", which doesn't exist"@,
        "Requests matching this route get 503 (no healthy upstream) from the sidecar or gateway."@,
        seq!["destination.host: "@ + host, "looked for service "@ + ns + "/"@ + svc],
        "Fix the destination host, or create the service."@,
        seq!["kubectl get virtualservice "@ + vs.name@ + " -n "@ + vs.namespace@ + " -o yaml"@],
        Seq::empty(),
    )
}

fn dest_missing_issue(vs: &VirtualServiceInfo, host: &str, ns: &str, svc: &str) -> (r: Issue)
    ensures
        r@ == dest_missing(*vs, host@, ns@, svc@),
{
    issue(
        cat6("mesh-dest-missing:", vs.namespace.as_str(), "/", vs.name.as_str(), "/", host),
        Severity::Critical,
        Layer::Entry,
        target("VirtualService", vs.namespace.as_str(), vs.name.as_str()),
        cat5("VirtualService ", vs.name.as_str(), " routes to ", host, ", which doesn't exist"),
        "Requests matching this route get 503 (no healthy upstream) from the sidecar or gateway.".to_owned(),
        lines2(cat2("destination.host: ", host), cat4("looked for service ", ns, "/", svc)),
        "Fix the destination host, or create the service.".to_owned(),
        lines1(
            cat5(
                "kubectl get virtualservice ",
                vs.name.as_str(),
                " -n ",
                vs.namespace.as_str(),
                " -o yaml",
            ),
        ),
        no_lines(),
    )
}

/// The names of the first `n` subsets of a destination rule.
pub open spec fn subset_names(d: DestinationRuleInfo, n: int) -> Seq<Seq<char>> {
    pick::gather(n, |i: int| seq![d.subsets@[i].0@])
}

fn names_of_subsets(d: &DestinationRuleInfo) -> (r: Vec<String>)
    ensures
        text::strs(r@) == subset_names(*d, d.subsets@.len() as int),
{
    let mut r: Vec<String> = no_lines();
    let mut i: usize = 0;
    while i < d.subsets.len()
        invariant
            i <= d.subsets@.len(),
            text::strs(r@) == subset_names(*d, i as int),
        decreases d.subsets@.len() - i,
    {
        say(&mut r, d.subsets[i].0.clone());
        i = i + 1;
    }
    r
}

/// What is defined for a host.
pub open spec fn defined_line(g: ClusterGraph, rule: Option<int>, host: Seq<char>) -> Seq<char> {
    match rule {
        Some(i) => "DestinationRule "@ + g.mesh.destination_rules@[i].name@ + " defines: "@
            + split::join(
            subset_names(
                g.mesh.destination_rules@[i],
                g.mesh.destination_rules@[i].subsets@.len() as int,
            ),
            ", "@,
        ),
        None => "no DestinationRule for "@ + host,
    }
}

fn defined_text(g: &ClusterGraph, rule: Option<usize>, host: &str) -> (r: String)
    requires
        rule matches Some(i) ==> i < g.mesh.destination_rules@.len(),
    ensures
        r@ == defined_line(*g, place(rule), host@),
{
    match rule {
        Some(i) => cat4(
            "DestinationRule ",
            g.mesh.destination_rules[i].name.as_str(),
            " defines: ",
            joined(&names_of_subsets(&g.mesh.destination_rules[i]), ", ").as_str(),
        ),
        None => cat2("no DestinationRule for ", host),
    }
}

/// An index as a number.
pub open spec fn place(i: Option<usize>) -> Option<int> {
    match i {
        Some(k) => Some(k as int),
        None => None,
    }
}

/// The issue for a route to a subset that is not defined.
pub open spec fn subset_missing(
    vs: VirtualServiceInfo,
    host: Seq<char>,
    sub: Seq<char>,
    defined: Seq<char>,
) -> IssueView {
    model::issue_view(
        "mesh-subset-missing:"@ + vs.namespace@ + "/"@ + vs.name@ + "/"@ + host + "/"@ + sub,
        Severity::Critical,
        Layer::Entry,
        model::target_view("VirtualService"@, vs.namespace@, vs.name@),
        "VirtualService "@ + vs.name@ + " uses subset "@ + sub
            + ", which no DestinationRule defines"@,
        "Istio can't resolve the subset, so traffic to it fails with 503."@,
        seq!["destination: "@ + host + ", subset "@ + sub, defined],
        "Add subset "@ + sub + " to the DestinationRule for "@ + host
            + ", or change the route to an existing subset."@,
        seq!["kubectl get virtualservice "@ + vs.name@ + " -n "@ + vs.namespace@ + " -o yaml"@],
        Seq::empty(),
    )
}

fn subset_missing_issue(vs: &VirtualServiceInfo, host: &str, sub: &str, defined: &str) -> (r: Issue)
    ensures
        r@ == subset_missing(*vs, host@, sub@, defined@),
{
    issue(
        cat8(
            "mesh-subset-missing:",
            vs.namespace.as_str(),
            "/",
            vs.name.as_str(),
            "/",
            host,
            "/",
            sub,
        ),
        Severity::Critical,
        Layer::Entry,
        target("VirtualService", vs.namespace.as_str(), vs.name.as_str()),
        cat5(
            "VirtualService ",
            vs.name.as_str(),
            " uses subset ",
            sub,
            ", which no DestinationRule defines",
        ),
        "Istio can't resolve the subset, so traffic to it fails with 503.".to_owned(),
        lines2(cat4("destination: ", host, ", subset ", sub), defined.to_owned()),
        cat5(
            "Add subset ",
            sub,
            " to the DestinationRule for ",
            host,
            ", or change the route to an existing subset.",
        ),
        lines1(
            cat5(
                "kubectl get virtualservice ",
                vs.name.as_str(),
                " -n ",
                vs.namespace.as_str(),
                " -o yaml",
            ),
        ),
        no_lines(),
    )
}

/// The issue for a route to a subset without pods.
pub open spec fn subset_empty(
    vs: VirtualServiceInfo,
    host: Seq<char>,
    sub: Seq<char>,
    svc: Seq<char>,
    l: Labels,
) -> IssueView {
    model::issue_view(
        "mesh-subset-empty:"@ + vs.namespace@ + "/"@ + vs.name@ + "/"@ + host + "/"@ + sub,
        Severity::Critical,
        Layer::Entry,
        model::target_view("VirtualService"@, vs.namespace@, vs.name@),
        "Subset "@ + sub + " of "@ + svc + " matches no pods"@,
        "The route is valid but its subset selects nothing, so its share of traffic fails with 503. This often happens after a version label changes during a canary."@,
        seq!["subset "@ + sub + " labels: "@ + labels::selector_text(l@)],
        "Point the subset at labels the current pods carry, or shift its weight to zero."@,
        seq!["kubectl get virtualservice "@ + vs.name@ + " -n "@ + vs.namespace@ + " -o yaml"@],
        Seq::empty(),
    )
}

fn subset_empty_issue(
    vs: &VirtualServiceInfo,
    host: &str,
    sub: &str,
    svc: &str,
    l: &Labels,
) -> (r: Issue)
    ensures
        r@ == subset_empty(*vs, host@, sub@, svc@, *l),
{
    issue(
        cat8(
            "mesh-subset-empty:",
            vs.namespace.as_str(),
            "/",
            vs.name.as_str(),
            "/",
            host,
            "/",
            sub,
        ),
        Severity::Critical,
        Layer::Entry,
        target("VirtualService", vs.namespace.as_str(), vs.name.as_str()),
        cat5("Subset ", sub, " of ", svc, " matches no pods"),
        "The route is valid but its subset selects nothing, so its share of traffic fails with 503. This often happens after a version label changes during a canary.".to_owned(),
        lines1(cat4("subset ", sub, " labels: ", fmt_selector(l).as_str())),
        "Point the subset at labels the current pods carry, or shift its weight to zero.".to_owned(),
        lines1(
            cat5(
                "kubectl get virtualservice ",
                vs.name.as_str(),
                " -n ",
                vs.namespace.as_str(),
                " -o yaml",
            ),
        ),
        no_lines(),
    )
}

/// The first service with a namespace and a name.
pub open spec fn service_at(
    g: ClusterGraph,
    ns: Seq<char>,
    name: Seq<char>,
    n: int,
) -> Option<int> {
    pick::first(n, |i: int| g.services@[i].namespace@ == ns && g.services@[i].name@ == name)
}

fn find_service_at(g: &ClusterGraph, ns: &str, name: &str) -> (r: Option<usize>)
    ensures
        match r {
            Some(k) => k < g.services@.len() && service_at(*g, ns@, name@, g.services@.len() as int) == Some(
                k as int,
            ),
            None => service_at(*g, ns@, name@, g.services@.len() as int) is None,
        },
{
    let mut r: Option<usize> = None;
    let mut i: usize = 0;
    while i < g.services.len()
        invariant
            i <= g.services@.len(),
            match r {
                Some(k) => k < i && service_at(*g, ns@, name@, i as int) == Some(k as int),
                None => service_at(*g, ns@, name@, i as int) is None,
            },
        decreases g.services@.len() - i,
    {
        if r.is_none() && same(g.services[i].namespace.as_str(), ns) && same(g.services[i].name.as_str(), name) {
            r = Some(i);
        }
        i = i + 1;
    }
    r
}

/// Is the destination rule at an index for this service?
pub open spec fn rule_for(g: ClusterGraph, ns: Seq<char>, name: Seq<char>, i: int) -> bool {
    let d = g.mesh.destination_rules@[i];
    resolve_host(d.host@, d.namespace@) == Some((ns, name))
}

fn is_rule_for(g: &ClusterGraph, ns: &str, name: &str, i: usize) -> (r: bool)
    requires
        i < g.mesh.destination_rules@.len(),
    ensures
        r == rule_for(*g, ns@, name@, i as int),
{
    let d: &DestinationRuleInfo = &g.mesh.destination_rules[i];
    match host_of(d.host.as_str(), d.namespace.as_str()) {
        Some(t) => same(t.0.as_str(), ns) && same(t.1.as_str(), name),
        None => false,
    }
}

/// The first destination rule for a service.
pub open spec fn destination_rule(
    g: ClusterGraph,
    ns: Seq<char>,
    name: Seq<char>,
    n: int,
) -> Option<int> {
    pick::first(n, |i: int| rule_for(g, ns, name, i))
}

fn find_rule(g: &ClusterGraph, ns: &str, name: &str) -> (r: Option<usize>)
    ensures
        match r {
            Some(k) => k < g.mesh.destination_rules@.len() && destination_rule(*g, ns@, name@, g.mesh.destination_rules@.len() as int) == Some(
                k as int,
            ),
            None => destination_rule(*g, ns@, name@, g.mesh.destination_rules@.len() as int) is None,
        },
{
    let mut r: Option<usize> = None;
    let mut i: usize = 0;
    while i < g.mesh.destination_rules.len()
        invariant
            i <= g.mesh.destination_rules@.len(),
            match r {
                Some(k) => k < i && destination_rule(*g, ns@, name@, i as int) == Some(k as int),
                None => destination_rule(*g, ns@, name@, i as int) is None,
            },
        decreases g.mesh.destination_rules@.len() - i,
    {
        if r.is_none() && is_rule_for(g, ns, name, i) {
            r = Some(i);
        }
        i = i + 1;
    }
    r
}

/// The first subset of a name.
pub open spec fn subset(d: DestinationRuleInfo, sub: Seq<char>, n: int) -> Option<int> {
    pick::first(n, |i: int| d.subsets@[i].0@ == sub)
}

fn find_subset(d: &DestinationRuleInfo, sub: &str) -> (r: Option<usize>)
    ensures
        match r {
            Some(k) => k < d.subsets@.len() && subset(*d, sub@, d.subsets@.len() as int) == Some(k as int),
            None => subset(*d, sub@, d.subsets@.len() as int) is None,
        },
{
    let mut r: Option<usize> = None;
    let mut i: usize = 0;
    while i < d.subsets.len()
        invariant
            i <= d.subsets@.len(),
            match r {
                Some(k) => k < i && subset(*d, sub@, i as int) == Some(k as int),
                None => subset(*d, sub@, i as int) is None,
            },
        decreases d.subsets@.len() - i,
    {
        if r.is_none() && same(d.subsets[i].0.as_str(), sub) {
            r = Some(i);
        }
        i = i + 1;
    }
    r
}

/// Does one of the first `n` pods of the namespace carry these labels?
pub open spec fn any_pod(
    g: ClusterGraph,
    ns: Seq<char>,
    sel: Seq<(Seq<char>, Seq<char>)>,
    n: int,
) -> bool {
    pick::any(
        n,
        |i: int| g.pods@[i].namespace@ == ns && labels::selects(sel, g.pods@[i].labels@),
    )
}

fn has_pod(g: &ClusterGraph, ns: &str, sel: &Labels) -> (r: bool)
    ensures
        r == any_pod(*g, ns@, sel@, g.pods@.len() as int),
{
    let mut r: bool = false;
    let mut i: usize = 0;
    while i < g.pods.len()
        invariant
            i <= g.pods@.len(),
            r == any_pod(*g, ns@, sel@, i as int),
        decreases g.pods@.len() - i,
    {
        if same(g.pods[i].namespace.as_str(), ns) && labels_match(sel, &g.pods[i].labels) {
            r = true;
        }
        i = i + 1;
    }
    r
}

/// The issue of a route to a subset of a service.
pub open spec fn subset_issue(
    g: ClusterGraph,
    vs: VirtualServiceInfo,
    host: Seq<char>,
    sub: Seq<char>,
    s: ServiceInfo,
    to: (Seq<char>, Seq<char>),
) -> Seq<IssueView> {
    let rule = destination_rule(g, to.0, to.1, g.mesh.destination_rules@.len() as int);
    let found = match rule {
        Some(i) => subset(
            g.mesh.destination_rules@[i],
            sub,
            g.mesh.destination_rules@[i].subsets@.len() as int,
        ),
        None => None,
    };
    match found {
        Some(k) => {
            let l = g.mesh.destination_rules@[rule->0].subsets@[k].1;
            if any_pod(g, to.0, labels::with_all(s.selector@, l@), g.pods@.len() as int) {
                Seq::empty()
            } else {
                seq![subset_empty(vs, host, sub, to.1, l)]
            }
        },
        None => seq![subset_missing(vs, host, sub, defined_line(g, rule, host))],
    }
}

fn issues_of_subset(
    g: &ClusterGraph,
    vs: &VirtualServiceInfo,
    host: &str,
    sub: &str,
    s: &ServiceInfo,
    to: &(String, String),
) -> (r: Vec<Issue>)
    ensures
        model::views(r@) == subset_issue(*g, *vs, host@, sub@, *s, (to.0@, to.1@)),
{
    let mut r: Vec<Issue> = no_issues();
    let rule: Option<usize> = find_rule(g, to.0.as_str(), to.1.as_str());
    let found: Option<usize> = match rule {
        Some(i) => find_subset(&g.mesh.destination_rules[i], sub),
        None => None,
    };
    match rule {
        Some(i) => {
            match found {
                Some(k) => {
                    let l: &Labels = &g.mesh.destination_rules[i].subsets[k].1;
                    let mut sel: Labels = s.selector.copy();
                    sel.extend(l);
                    if !has_pod(g, to.0.as_str(), &sel) {
                        emit(&mut r, subset_empty_issue(vs, host, sub, to.1.as_str(), l));
                    }
                    return r;
                },
                None => {},
            }
        },
        None => {},
    }
    let defined: String = defined_text(g, rule, host);
    emit(&mut r, subset_missing_issue(vs, host, sub, defined.as_str()));
    r
}

/// Is the destination at an index the same as an earlier one?
pub open spec fn repeated(vs: VirtualServiceInfo, j: int, n: int) -> bool {
    pick::any(
        n,
        |i: int|
            vs.destinations@[i].0@ == vs.destinations@[j].0@ && text::opt(vs.destinations@[i].1)
                == text::opt(vs.destinations@[j].1),
    )
}

fn is_repeated(vs: &VirtualServiceInfo, j: usize) -> (r: bool)
    requires
        j < vs.destinations@.len(),
    ensures
        r == repeated(*vs, j as int, j as int),
{
    let mut r: bool = false;
    let mut i: usize = 0;
    while i < j
        invariant
            i <= j < vs.destinations@.len(),
            r == repeated(*vs, j as int, i as int),
        decreases j - i,
    {
        if same(vs.destinations[i].0.as_str(), vs.destinations[j].0.as_str()) && opt_same(
            &vs.destinations[i].1,
            &vs.destinations[j].1,
        ) {
            r = true;
        }
        i = i + 1;
    }
    r
}

/// The issue of the destination at an index. What is outside the cluster, or
/// was looked at before, is left alone.
pub open spec fn destination_issue(g: ClusterGraph, vs: VirtualServiceInfo, j: int) -> Seq<
    IssueView,
> {
    let host = vs.destinations@[j].0@;
    match resolve_host(host, vs.namespace@) {
        Some(to) => if repeated(vs, j, j) {
            Seq::empty()
        } else {
            match service_at(g, to.0, to.1, g.services@.len() as int) {
                Some(i) => match vs.destinations@[j].1 {
                    Some(sub) => subset_issue(g, vs, host, sub@, g.services@[i], to),
                    None => Seq::empty(),
                },
                None => seq![dest_missing(vs, host, to.0, to.1)],
            }
        },
        None => Seq::empty(),
    }
}

fn issues_of_destination(g: &ClusterGraph, vs: &VirtualServiceInfo, j: usize) -> (r: Vec<Issue>)
    requires
        j < vs.destinations@.len(),
    ensures
        model::views(r@) == destination_issue(*g, *vs, j as int),
{
    let mut r: Vec<Issue> = no_issues();
    let host: &str = vs.destinations[j].0.as_str();
    match host_of(host, vs.namespace.as_str()) {
        Some(to) => {
            if !is_repeated(vs, j) {
                match find_service_at(g, to.0.as_str(), to.1.as_str()) {
                    Some(i) => {
                        match &vs.destinations[j].1 {
                            Some(sub) => {
                                return issues_of_subset(
                                    g,
                                    vs,
                                    host,
                                    sub.as_str(),
                                    &g.services[i],
                                    &to,
                                );
                            },
                            None => {},
                        }
                    },
                    None => emit(
                        &mut r,
                        dest_missing_issue(vs, host, to.0.as_str(), to.1.as_str()),
                    ),
                }
            }
        },
        None => {},
    }
    r
}

/// The issues of the first `n` destinations of a virtual service.
pub open spec fn destination_issues(
    g: ClusterGraph,
    vs: VirtualServiceInfo,
    n: int,
) -> Seq<IssueView> {
    pick::gather(
        n,
        |j: int|
            destination_issue(g, vs, j),
    )
}

fn issues_of_destinations(g: &ClusterGraph, vs: &VirtualServiceInfo) -> (r: Vec<Issue>)
    ensures
        model::views(r@) == destination_issues(*g, *vs, vs.destinations@.len() as int),
{
    let mut r: Vec<Issue> = no_issues();
    let mut j: usize = 0;
    while j < vs.destinations.len()
        invariant
            j <= vs.destinations@.len(),
            model::views(r@) == destination_issues(*g, *vs, j as int),
        decreases vs.destinations@.len() - j,
    {
        emit_all(&mut r, issues_of_destination(g, vs, j));
        j = j + 1;
    }
    r
}

/// The issues of the first `n` virtual services.
pub open spec fn virtual_issues(g: ClusterGraph, n: int) -> Seq<IssueView> {
    pick::gather(
        n,
        |i: int|
            destination_issues(
                g,
                g.mesh.virtual_services@[i],
                g.mesh.virtual_services@[i].destinations@.len() as int,
            ),
    )
}

fn virtual_rules(g: &ClusterGraph) -> (r: Vec<Issue>)
    ensures
        model::views(r@) == virtual_issues(*g, g.mesh.virtual_services@.len() as int),
{
    let mut r: Vec<Issue> = no_issues();
    let mut i: usize = 0;
    while i < g.mesh.virtual_services.len()
        invariant
            i <= g.mesh.virtual_services@.len(),
            model::views(r@) == virtual_issues(*g, i as int),
        decreases g.mesh.virtual_services@.len() - i,
    {
        emit_all(&mut r, issues_of_destinations(g, &g.mesh.virtual_services[i]));
        i = i + 1;
    }
    r
}

/// The issues of the mesh, if there is one.
pub open spec fn mesh_issues(g: ClusterGraph) -> Seq<IssueView> {
    if g.mesh.installed || sidecar_seen(g, g.pods@.len() as int) {
        bare_issues(g) + virtual_issues(g, g.mesh.virtual_services@.len() as int)
    } else {
        Seq::empty()
    }
}

/// What is wrong with the service mesh.
pub fn mesh_rules(g: &ClusterGraph) -> (out: Vec<Issue>)
    ensures
        model::views(out@) == mesh_issues(*g),
{
    if !g.mesh.installed && !is_sidecar_seen(g) {
        return no_issues();
    }
    let mut out: Vec<Issue> = bare_rules(g);
    emit_all(&mut out, virtual_rules(g));
    out
}

} // verus!
