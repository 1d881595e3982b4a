//! Entry: ingress routes that lead nowhere.

use crate::model;
use crate::model::{
    emit, emit_all, issue, no_issues, target, ClusterGraph, IngressInfo, Issue, IssueView, Layer,
    Severity,
};
use crate::order::insert_key;
use crate::pick;
use crate::split;
use crate::split::joined;
use crate::text;
use crate::text::{cat2, cat4, cat5, cat6, cat8, keep, lines2, no_lines, same, say};
use vstd::prelude::*;

verus! {

broadcast use crate::pick::lemma_add_nothing;

/// Is there a service of this name in the namespace?
pub open spec fn service_exists(g: ClusterGraph, ns: Seq<char>, name: Seq<char>) -> bool {
    pick::any(
        g.services@.len() as int,
        |i: int| g.services@[i].namespace@ == ns && g.services@[i].name@ == name,
    )
}

/// Is there a service of this name in the namespace?
pub fn has_service(g: &ClusterGraph, ns: &str, name: &str) -> (r: bool)
    ensures
        r == service_exists(*g, ns@, name@),
{
    let mut r: bool = false;
    let mut i: usize = 0;
    let ghost p = |i: int| g.services@[i].namespace@ == ns@ && g.services@[i].name@ == name@;
    while i < g.services.len()
        invariant
            i <= g.services.len(),
            p == (|i: int| g.services@[i].namespace@ == ns@ && g.services@[i].name@ == name@),
            r == pick::any(i as int, p),
        decreases g.services.len() - i,
    {
        if same(g.services[i].namespace.as_str(), ns) && same(g.services[i].name.as_str(), name) {
            r = true;
        }
        i = i + 1;
    }
    r
}

/// Does the route at this index lead to a service that does not exist?
pub open spec fn route_broken(g: ClusterGraph, ing: IngressInfo, j: int) -> bool {
    !service_exists(g, ing.namespace@, ing.routes@[j].service@)
}

/// The missing services that the first `n` routes of an ingress lead to.
pub open spec fn missing_backends(g: ClusterGraph, ing: IngressInfo, n: int) -> Seq<Seq<char>> {
    pick::keys(
        n,
        |j: int|
            if route_broken(g, ing, j) {
                Some(ing.routes@[j].service@)
            } else {
                None
            },
    )
}

/// The host and path of a route; no host means any.
pub open spec fn route_text(ing: IngressInfo, j: int) -> Seq<char> {
    (match ing.routes@[j].host {
        Some(h) => h@,
        None => "*"@,
    }) + ing.routes@[j].path@
}

/// The first `n` routes that lead to a missing service.
pub open spec fn routes_to(g: ClusterGraph, ing: IngressInfo, svc: Seq<char>, n: int) -> Seq<
    Seq<char>,
> {
    pick::gather(
        n,
        |j: int|
            if route_broken(g, ing, j) && ing.routes@[j].service@ == svc {
                seq![route_text(ing, j)]
            } else {
                Seq::empty()
            },
    )
}

/// The names of the services in a namespace.
pub open spec fn services_in(g: ClusterGraph, ns: Seq<char>, n: int) -> Seq<Seq<char>> {
    pick::gather(
        n,
        |i: int|
            if g.services@[i].namespace@ == ns {
                seq![g.services@[i].name@]
            } else {
                Seq::empty()
            },
    )
}

/// The list, or a word for nothing when it is empty.
pub open spec fn names_or_none(names: Seq<Seq<char>>) -> Seq<char> {
    if names.len() == 0 {
        "<none>"@
    } else {
        split::join(names, ", "@)
    }
}

/// Join the names, or say that there are none.
pub fn names_text(names: &Vec<String>) -> (r: String)
    ensures
        r@ == names_or_none(text::strs(names@)),
{
    if names.len() == 0 {
        "<none>".to_owned()
    } else {
        joined(names, ", ")
    }
}

/// The issue for routes of an ingress to a missing service.
pub open spec fn missing_backend(g: ClusterGraph, ing: IngressInfo, svc: Seq<char>) -> IssueView {
    let ns = ing.namespace@;
    let name = ing.name@;
    model::issue_view(
        "entry-missing-backend:"@ + ns + "/"@ + name + "/"@ + svc,
        Severity::Critical,
        Layer::Entry,
        model::target_view("Ingress"@, ns, name),
        "Ingress routes to a service that doesn't exist: "@ + svc,
        name + " sends "@ + split::join(routes_to(g, ing, svc, ing.routes@.len() as int), ", "@)
            + " to service "@ + svc + ", but there is no service with that name in "@ + ns
            + ". Requests on these routes fail at the ingress controller."@,
        seq![
            "backend service: "@ + svc,
            "services in "@ + ns + ": "@ + names_or_none(
                text::at_most(services_in(g, ns, g.services@.len() as int), 8),
            ),
        ],
        "Create service "@ + svc + " in "@ + ns
            + ", or change the ingress backend to one of the existing services."@,
        seq![
            "kubectl get ingress "@ + name + " -n "@ + ns + " -o yaml"@,
            "kubectl get svc -n "@ + ns,
        ],
        Seq::empty(),
    )
}

/// The issues of one ingress: one for each missing service.
pub open spec fn ingress_issues(g: ClusterGraph, ing: IngressInfo) -> Seq<IssueView> {
    let keys = missing_backends(g, ing, ing.routes@.len() as int);
    pick::gather(keys.len() as int, |k: int| seq![missing_backend(g, ing, keys[k])])
}

/// The issues of the first `n` ingresses.
pub open spec fn entry_issues(g: ClusterGraph, n: int) -> Seq<IssueView> {
    pick::gather(n, |i: int| ingress_issues(g, g.ingresses@[i]))
}

fn backend_keys(g: &ClusterGraph, ing: &IngressInfo) -> (r: Vec<String>)
    ensures
        text::strs(r@) == missing_backends(*g, *ing, ing.routes@.len() as int),
{
    let mut r: Vec<String> = no_lines();
    let mut j: usize = 0;
    while j < ing.routes.len()
        invariant
            j <= ing.routes.len(),
            text::strs(r@) == missing_backends(*g, *ing, j as int),
        decreases ing.routes.len() - j,
    {
        if !has_service(g, ing.namespace.as_str(), ing.routes[j].service.as_str()) {
            insert_key(&mut r, ing.routes[j].service.clone());
        }
        j = j + 1;
    }
    r
}

fn paths_to(g: &ClusterGraph, ing: &IngressInfo, svc: &str) -> (r: Vec<String>)
    ensures
        text::strs(r@) == routes_to(*g, *ing, svc@, ing.routes@.len() as int),
{
    let mut r: Vec<String> = no_lines();
    let mut j: usize = 0;
    while j < ing.routes.len()
        invariant
            j <= ing.routes.len(),
            text::strs(r@) == routes_to(*g, *ing, svc@, j as int),
        decreases ing.routes.len() - j,
    {
        if same(ing.routes[j].service.as_str(), svc) && !has_service(
            g,
            ing.namespace.as_str(),
            ing.routes[j].service.as_str(),
        ) {
            let t: String = match &ing.routes[j].host {
                Some(h) => cat2(h.as_str(), ing.routes[j].path.as_str()),
                None => cat2("*", ing.routes[j].path.as_str()),
            };
            say(&mut r, t);
        }
        j = j + 1;
    }
    r
}

fn names_in(g: &ClusterGraph, ns: &str) -> (r: Vec<String>)
    ensures
        text::strs(r@) == services_in(*g, ns@, g.services@.len() as int),
{
    let mut r: Vec<String> = no_lines();
    let mut i: usize = 0;
    while i < g.services.len()
        invariant
            i <= g.services.len(),
            text::strs(r@) == services_in(*g, ns@, i as int),
        decreases g.services.len() - i,
    {
        if same(g.services[i].namespace.as_str(), ns) {
            say(&mut r, g.services[i].name.clone());
        }
        i = i + 1;
    }
    r
}

fn missing_backend_issue(g: &ClusterGraph, ing: &IngressInfo, svc: &str) -> (r: Issue)
    ensures
        r@ == missing_backend(*g, *ing, svc@),
{
    let ns: &str = ing.namespace.as_str();
    let name: &str = ing.name.as_str();
    let paths: Vec<String> = paths_to(g, ing, svc);
    let mut existing: Vec<String> = names_in(g, ns);
    keep(&mut existing, 8);
    issue(
        cat6("entry-missing-backend:", ns, "/", name, "/", svc),
        Severity::Critical,
        Layer::Entry,
        target("Ingress", ns, name),
        cat2("Ingress routes to a service that doesn't exist: ", svc),
        cat8(
            name,
            " sends ",
            joined(&paths, ", ").as_str(),
            " to service ",
            svc,
            ", but there is no service with that name in ",
            ns,
            ". Requests on these routes fail at the ingress controller.",
        ),
        lines2(
            cat2("backend service: ", svc),
            cat4("services in ", ns, ": ", names_text(&existing).as_str()),
        ),
        cat5(
            "Create service ",
            svc,
            " in ",
            ns,
            ", or change the ingress backend to one of the existing services.",
        ),
        lines2(
            cat5("kubectl get ingress ", name, " -n ", ns, " -o yaml"),
            cat2("kubectl get svc -n ", ns),
        ),
        no_lines(),
    )
}

/// Ingress backends that point at services that don't exist.
pub fn entry_rules(g: &ClusterGraph) -> (out: Vec<Issue>)
    ensures
        model::views(out@) == entry_issues(*g, g.ingresses@.len() as int),
{
    let mut out: Vec<Issue> = no_issues();
    let mut i: usize = 0;
    while i < g.ingresses.len()
        invariant
            i <= g.ingresses.len(),
            model::views(out@) == entry_issues(*g, i as int),
        decreases g.ingresses.len() - i,
    {
        let ing: &IngressInfo = &g.ingresses[i];
        let keys: Vec<String> = backend_keys(g, ing);
        let ghost ks = text::strs(keys@);
        let ghost f = |k: int| seq![missing_backend(*g, *ing, ks[k])];
        let mut part: Vec<Issue> = no_issues();
        let mut k: usize = 0;
        while k < keys.len()
            invariant
                k <= keys.len(),
                ks == text::strs(keys@),
                f == (|k: int| seq![missing_backend(*g, *ing, ks[k])]),
                model::views(part@) == pick::gather(k as int, f),
            decreases keys.len() - k,
        {
            let e: Issue = missing_backend_issue(g, ing, keys[k].as_str());
            emit(&mut part, e);
            k = k + 1;
        }
        emit_all(&mut out, part);
        i = i + 1;
    }
    out
}

} // verus!
