//! How ingresses are set up: classes, addresses and certificates.

use crate::model;
use crate::model::{
    emit, emit_all, issue, no_issues, target, ClusterGraph, IngressInfo, Issue, IssueView,
    Layer, Severity,
};
use crate::pick;
use crate::rules::entry;
use crate::rules::entry::has_service;
use crate::split;
use crate::split::joined;
use crate::text;
use crate::text::{cat2, cat3, cat4, cat5, cat6, lines1, lines2, listed, no_lines};
use vstd::prelude::*;

verus! {

broadcast use crate::pick::lemma_add_nothing;

/// How to look at an ingress and the classes.
pub open spec fn ingress_commands(ing: IngressInfo) -> Seq<Seq<char>> {
    seq![
        "kubectl describe ingress "@ + ing.name@ + " -n "@ + ing.namespace@,
        "kubectl get ingressclass"@,
    ]
}

fn commands_for(ing: &IngressInfo) -> (r: Vec<String>)
    ensures
        text::strs(r@) == ingress_commands(*ing),
{
    lines2(
        cat4("kubectl describe ingress ", ing.name.as_str(), " -n ", ing.namespace.as_str()),
        "kubectl get ingressclass".to_owned(),
    )
}

/// The issue for an ingress of a class that does not exist.
pub open spec fn class_missing(g: ClusterGraph, ing: IngressInfo, class: Seq<char>) -> IssueView {
    model::issue_view(
        "ingress-class-missing:"@ + ing.namespace@ + "/"@ + ing.name@,
        Severity::Critical,
        Layer::Entry,
        model::target_view("Ingress"@, ing.namespace@, ing.name@),
        "Ingress "@ + ing.name@ + " uses class "@ + class + ", which doesn't exist"@,
        "No ingress controller watches this class, so nothing will ever serve these routes."@,
        seq![
            "ingressClassName: "@ + class,
            "classes in cluster: "@ + split::join(text::strs(g.ingress_classes@), ", "@),
        ],
        "Set ingressClassName to one of: "@
            + split::join(text::strs(g.ingress_classes@), ", "@) + "."@,
        ingress_commands(ing),
        Seq::empty(),
    )
}

fn class_missing_issue(g: &ClusterGraph, ing: &IngressInfo, class: &str) -> (r: Issue)
    ensures
        r@ == class_missing(*g, *ing, class@),
{
    issue(
        cat4("ingress-class-missing:", ing.namespace.as_str(), "/", ing.name.as_str()),
        Severity::Critical,
        Layer::Entry,
        target("Ingress", ing.namespace.as_str(), ing.name.as_str()),
        cat5("Ingress ", ing.name.as_str(), " uses class ", class, ", which doesn't exist"),
        "No ingress controller watches this class, so nothing will ever serve these routes.".to_owned(),
        lines2(
            cat2("ingressClassName: ", class),
            cat2("classes in cluster: ", joined(&g.ingress_classes, ", ").as_str()),
        ),
        cat3("Set ingressClassName to one of: ", joined(&g.ingress_classes, ", ").as_str(), "."),
        commands_for(ing),
        no_lines(),
    )
}

/// The issue for an ingress without a class where there is no default.
pub open spec fn class_none(g: ClusterGraph, ing: IngressInfo) -> IssueView {
    model::issue_view(
        "ingress-class-none:"@ + ing.namespace@ + "/"@ + ing.name@,
        Severity::Warning,
        Layer::Entry,
        model::target_view("Ingress"@, ing.namespace@, ing.name@),
        "Ingress "@ + ing.name@ + " has no class and the cluster has no default class"@,
        "Unless a controller is configured to watch class-less ingresses, nothing serves it."@,
        seq!["classes in cluster: "@ + split::join(text::strs(g.ingress_classes@), ", "@)],
        "Set spec.ingressClassName, or mark one IngressClass as the default."@,
        ingress_commands(ing),
        Seq::empty(),
    )
}

fn class_none_issue(g: &ClusterGraph, ing: &IngressInfo) -> (r: Issue)
    ensures
        r@ == class_none(*g, *ing),
{
    issue(
        cat4("ingress-class-none:", ing.namespace.as_str(), "/", ing.name.as_str()),
        Severity::Warning,
        Layer::Entry,
        target("Ingress", ing.namespace.as_str(), ing.name.as_str()),
        cat3("Ingress ", ing.name.as_str(), " has no class and the cluster has no default class"),
        "Unless a controller is configured to watch class-less ingresses, nothing serves it.".to_owned(),
        lines1(cat2("classes in cluster: ", joined(&g.ingress_classes, ", ").as_str())),
        "Set spec.ingressClassName, or mark one IngressClass as the default.".to_owned(),
        commands_for(ing),
        no_lines(),
    )
}

/// The issue for an ingress without an address.
pub open spec fn no_address(ing: IngressInfo) -> IssueView {
    model::issue_view(
        "ingress-no-address:"@ + ing.namespace@ + "/"@ + ing.name@,
        Severity::Warning,
        Layer::Entry,
        model::target_view("Ingress"@, ing.namespace@, ing.name@),
        "Ingress "@ + ing.name@ + " has no address yet"@,
        "The controller hasn't published an address for it. Either it is still provisioning a load balancer, or the controller isn't running or failed to reconcile it."@,
        seq!["status.loadBalancer.ingress: <empty>"@],
        "Check the ingress controller's pods and logs, and the ingress's events for reconcile errors."@,
        ingress_commands(ing),
        Seq::empty(),
    )
}

fn no_address_issue(ing: &IngressInfo) -> (r: Issue)
    ensures
        r@ == no_address(*ing),
{
    issue(
        cat4("ingress-no-address:", ing.namespace.as_str(), "/", ing.name.as_str()),
        Severity::Warning,
        Layer::Entry,
        target("Ingress", ing.namespace.as_str(), ing.name.as_str()),
        cat3("Ingress ", ing.name.as_str(), " has no address yet"),
        "The controller hasn't published an address for it. Either it is still provisioning a load balancer, or the controller isn't running or failed to reconcile it.".to_owned(),
        lines1("status.loadBalancer.ingress: <empty>".to_owned()),
        "Check the ingress controller's pods and logs, and the ingress's events for reconcile errors.".to_owned(),
        commands_for(ing),
        no_lines(),
    )
}

/// The issue for a certificate that does not exist.
pub open spec fn tls_missing(ing: IngressInfo, secret: Seq<char>) -> IssueView {
    model::issue_view(
        "ingress-tls-missing:"@ + ing.namespace@ + "/"@ + ing.name@ + "/"@ + secret,
        Severity::Critical,
        Layer::Entry,
        model::target_view("Ingress"@, ing.namespace@, ing.name@),
        "TLS secret "@ + secret + " for ingress "@ + ing.name@ + " doesn't exist"@,
        "HTTPS on these hosts will fail or fall back to the controller's default certificate, which browsers reject."@,
        seq!["spec.tls secretName: "@ + secret, "namespace: "@ + ing.namespace@],
        "Create the secret (or check your cert-manager Certificate is Ready), in the same namespace as the ingress."@,
        seq![
            "kubectl get secret "@ + secret + " -n "@ + ing.namespace@,
            "kubectl get certificate -n "@ + ing.namespace@,
        ],
        Seq::empty(),
    )
}

fn tls_missing_issue(ing: &IngressInfo, secret: &str) -> (r: Issue)
    ensures
        r@ == tls_missing(*ing, secret@),
{
    issue(
        cat6("ingress-tls-missing:", ing.namespace.as_str(), "/", ing.name.as_str(), "/", secret),
        Severity::Critical,
        Layer::Entry,
        target("Ingress", ing.namespace.as_str(), ing.name.as_str()),
        cat5("TLS secret ", secret, " for ingress ", ing.name.as_str(), " doesn't exist"),
        "HTTPS on these hosts will fail or fall back to the controller's default certificate, which browsers reject.".to_owned(),
        lines2(cat2("spec.tls secretName: ", secret), cat2("namespace: ", ing.namespace.as_str())),
        "Create the secret (or check your cert-manager Certificate is Ready), in the same namespace as the ingress.".to_owned(),
        lines2(
            cat4("kubectl get secret ", secret, " -n ", ing.namespace.as_str()),
            cat2("kubectl get certificate -n ", ing.namespace.as_str()),
        ),
        no_lines(),
    )
}

/// The issue about the class of an ingress. Nothing is said while the classes
/// of the cluster are unknown.
pub open spec fn class_issue(g: ClusterGraph, ing: IngressInfo) -> Seq<IssueView> {
    if g.ingress_classes@.len() == 0 {
        Seq::empty()
    } else {
        match ing.class_name {
            Some(c) => if text::strs(g.ingress_classes@).contains(c@) {
                Seq::empty()
            } else {
                seq![class_missing(g, ing, c@)]
            },
            None => if g.default_ingress_class is None {
                seq![class_none(g, ing)]
            } else {
                Seq::empty()
            },
        }
    }
}

fn issues_of_class(g: &ClusterGraph, ing: &IngressInfo) -> (r: Vec<Issue>)
    ensures
        model::views(r@) == class_issue(*g, *ing),
{
    let mut r: Vec<Issue> = no_issues();
    if g.ingress_classes.len() > 0 {
        match &ing.class_name {
            Some(c) => {
                if !listed(&g.ingress_classes, c.as_str()) {
                    emit(&mut r, class_missing_issue(g, ing, c.as_str()));
                }
            },
            None => {
                if g.default_ingress_class.is_none() {
                    emit(&mut r, class_none_issue(g, ing));
                }
            },
        }
    }
    r
}

/// Do all of the first `n` routes lead to services that do not exist?
pub open spec fn all_broken(g: ClusterGraph, ing: IngressInfo, n: int) -> bool {
    forall|j: int| 0 <= j < n ==> #[trigger] entry::route_broken(g, ing, j)
}

fn is_all_broken(g: &ClusterGraph, ing: &IngressInfo) -> (r: bool)
    ensures
        r == all_broken(*g, *ing, ing.routes@.len() as int),
{
    let mut r: bool = true;
    let mut j: usize = 0;
    while j < ing.routes.len()
        invariant
            j <= ing.routes@.len(),
            r == all_broken(*g, *ing, j as int),
        decreases ing.routes@.len() - j,
    {
        proof {
            assert(all_broken(*g, *ing, j + 1) == (all_broken(*g, *ing, j as int)
                && entry::route_broken(*g, *ing, j as int)));
        }
        if has_service(g, ing.namespace.as_str(), ing.routes[j].service.as_str()) {
            r = false;
        }
        j = j + 1;
    }
    r
}

/// The issues about certificates of an ingress that do not exist, where the
/// names of the secrets are known.
pub open spec fn tls_issues(known: Seq<Seq<char>>, ing: IngressInfo, n: int) -> Seq<IssueView> {
    pick::gather(
        n,
        |k: int|
            if known.contains(ing.namespace@ + "/"@ + ing.tls_secrets@[k]@) {
                Seq::empty()
            } else {
                seq![tls_missing(ing, ing.tls_secrets@[k]@)]
            },
    )
}

fn issues_of_tls(known: &Vec<String>, ing: &IngressInfo) -> (r: Vec<Issue>)
    ensures
        model::views(r@) == tls_issues(text::strs(known@), *ing, ing.tls_secrets@.len() as int),
{
    let mut r: Vec<Issue> = no_issues();
    let mut k: usize = 0;
    while k < ing.tls_secrets.len()
        invariant
            k <= ing.tls_secrets@.len(),
            model::views(r@) == tls_issues(text::strs(known@), *ing, k as int),
        decreases ing.tls_secrets@.len() - k,
    {
        let name: String = cat3(ing.namespace.as_str(), "/", ing.tls_secrets[k].as_str());
        if !listed(known, name.as_str()) {
            emit(&mut r, tls_missing_issue(ing, ing.tls_secrets[k].as_str()));
        }
        k = k + 1;
    }
    r
}

/// Is a missing address worth an issue? Not while the class already explains
/// it, or no route leads anywhere.
pub open spec fn address_wanted(g: ClusterGraph, ing: IngressInfo) -> bool {
    ing.addresses@.len() == 0 && ing.routes@.len() > 0 && class_issue(g, ing).len() == 0
        && !all_broken(g, ing, ing.routes@.len() as int)
}

/// The issues of the set-up of one ingress.
pub open spec fn setup_issue(g: ClusterGraph, ing: IngressInfo) -> Seq<IssueView> {
    class_issue(g, ing) + (if address_wanted(g, ing) {
        seq![no_address(ing)]
    } else {
        Seq::empty()
    }) + (match g.secret_names {
        Some(known) => tls_issues(text::strs(known@), ing, ing.tls_secrets@.len() as int),
        None => Seq::empty(),
    })
}

fn issues_of_setup(g: &ClusterGraph, ing: &IngressInfo) -> (r: Vec<Issue>)
    ensures
        model::views(r@) == setup_issue(*g, *ing),
{
    let mut r: Vec<Issue> = issues_of_class(g, ing);
    proof {
        assert(model::views(r@).len() == r@.len());
    }
    if ing.addresses.len() == 0 && ing.routes.len() > 0 && r.len() == 0 && !is_all_broken(g, ing) {
        emit(&mut r, no_address_issue(ing));
    }
    match &g.secret_names {
        Some(known) => emit_all(&mut r, issues_of_tls(known, ing)),
        None => {},
    }
    r
}

/// The issues of the set-up of the first `n` ingresses.
pub open spec fn setup_issues(g: ClusterGraph, n: int) -> Seq<IssueView> {
    pick::gather(
        n,
        |i: int|
            setup_issue(g, g.ingresses@[i]),
    )
}

/// What is wrong with how ingresses are set up.
pub fn ingress_setup_rules(g: &ClusterGraph) -> (r: Vec<Issue>)
    ensures
        model::views(r@) == setup_issues(*g, g.ingresses@.len() as int),
{
    let mut r: Vec<Issue> = no_issues();
    let mut i: usize = 0;
    while i < g.ingresses.len()
        invariant
            i <= g.ingresses@.len(),
            model::views(r@) == setup_issues(*g, i as int),
        decreases g.ingresses@.len() - i,
    {
        emit_all(&mut r, issues_of_setup(g, &g.ingresses[i]));
        i = i + 1;
    }
    r
}

} // verus!
