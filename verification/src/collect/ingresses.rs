//! Ingresses and their routes.

use crate::collect::parts;
use crate::collect::parts::addresses_of;
use crate::collect::raw::{RawBackend, RawClass, RawIngress, RawPath, RawRule};
use crate::json;
use crate::json::{parse_json, Json, JsonView};
use crate::model::{IngressInfo, Route};
use crate::numeral;
use crate::numeral::dec_i32;
use crate::pick;
use crate::text;
use crate::text::{copy_list, copy_or_empty, no_lines, opt_copy, opt_is, say};
use vstd::prelude::*;

verus! {

broadcast use crate::pick::lemma_add_nothing;

/// The port of a backend: its number before its name.
pub open spec fn backend_port(b: RawBackend) -> Option<Seq<char>> {
    match b.port_number {
        Some(n) => Some(numeral::dec(n as int)),
        None => text::opt(b.port_name),
    }
}

/// A route as its host, path, service and port.
pub type RouteView = (Option<Seq<char>>, Seq<char>, Seq<char>, Option<Seq<char>>);

/// The texts of a route.
pub open spec fn route_view(r: Route) -> RouteView {
    (text::opt(r.host), r.path@, r.service@, text::opt(r.port))
}

/// The texts of routes.
pub open spec fn route_views(v: Seq<Route>) -> Seq<RouteView> {
    v.map_values(|r: Route| route_view(r))
}

/// The route to a backend, where that is a service.
pub open spec fn route_to(host: Option<String>, path: Seq<char>, b: RawBackend) -> Seq<RouteView> {
    match b.service {
        Some(s) => seq![(text::opt(host), path, s@, backend_port(b))],
        None => Seq::empty(),
    }
}

/// The path of a route; no path means everything.
pub open spec fn path_text(p: Option<String>) -> Seq<char> {
    match p {
        Some(s) => s@,
        None => "/"@,
    }
}

/// The routes of the first `n` paths of a rule.
pub open spec fn rule_routes(rule: RawRule, n: int) -> Seq<RouteView> {
    pick::gather(
        n,
        |i: int| route_to(rule.host, path_text(rule.paths@[i].path), rule.paths@[i].backend),
    )
}

/// The routes of an ingress: the default backend first, then those of the
/// first `n` rules.
pub open spec fn routes(ing: RawIngress, n: int) -> Seq<RouteView> {
    (match ing.default_backend {
        Some(b) => route_to(None, "/*"@, b),
        None => Seq::empty(),
    }) + pick::gather(n, |i: int| rule_routes(ing.rules@[i], ing.rules@[i].paths@.len() as int))
}

fn backend(b: &RawBackend) -> (r: Option<(String, Option<String>)>)
    ensures
        match (r, b.service) {
            (Some(e), Some(s)) => e.0@ == s@ && text::opt(e.1) == backend_port(*b),
            (None, None) => true,
            _ => false,
        },
{
    match &b.service {
        Some(s) => {
            let port: Option<String> = match b.port_number {
                Some(n) => Some(dec_i32(n)),
                None => opt_copy(&b.port_name),
            };
            Some((s.clone(), port))
        },
        None => None,
    }
}

fn lead_to(r: &mut Vec<Route>, host: &Option<String>, path: &str, b: &RawBackend)
    ensures
        route_views(final(r)@) == route_views(old(r)@) + route_to(*host, path@, *b),
{
    match backend(b) {
        Some((service, port)) => {
            let route: Route = Route { host: opt_copy(host), path: path.to_owned(), service, port };
            r.push(route);
            proof {
                assert(route_views(r@) =~= route_views(old(r)@) + route_to(*host, path@, *b));
            }
        },
        None => {},
    }
}

fn routes_of(ing: &RawIngress) -> (r: Vec<Route>)
    ensures
        route_views(r@) == routes(*ing, ing.rules@.len() as int),
{
    let mut r: Vec<Route> = Vec::new();
    proof {
        assert(route_views(r@) =~= Seq::empty());
    }
    match &ing.default_backend {
        Some(b) => {
            lead_to(&mut r, &None, "/*", b);
            proof {
                assert(route_views(r@) =~= route_to(None, "/*"@, *b));
            }
        },
        None => {},
    }
    let ghost before = route_views(r@);
    let ghost f = |i: int| rule_routes(ing.rules@[i], ing.rules@[i].paths@.len() as int);
    let mut i: usize = 0;
    while i < ing.rules.len()
        invariant
            i <= ing.rules@.len(),
            f == (|i: int| rule_routes(ing.rules@[i], ing.rules@[i].paths@.len() as int)),
            route_views(r@) == before + pick::gather(i as int, f),
        decreases ing.rules@.len() - i,
    {
        let rule: &RawRule = &ing.rules[i];
        let ghost so_far = route_views(r@);
        let mut j: usize = 0;
        while j < rule.paths.len()
            invariant
                j <= rule.paths@.len(),
                route_views(r@) == so_far + rule_routes(*rule, j as int),
            decreases rule.paths@.len() - j,
        {
            let p: &RawPath = &rule.paths[j];
            let path: String = match &p.path {
                Some(s) => s.clone(),
                None => "/".to_owned(),
            };
            lead_to(&mut r, &rule.host, path.as_str(), &p.backend);
            proof {
                assert(so_far + rule_routes(*rule, j + 1) =~= so_far + rule_routes(*rule, j as int)
                    + route_to(rule.host, path@, p.backend));
            }
            j = j + 1;
        }
        proof {
            assert(before + pick::gather(i + 1, f) =~= before + pick::gather(i as int, f) + f(
                i as int,
            ));
        }
        i = i + 1;
    }
    r
}

/// The texts of pairs.
pub open spec fn pairs(v: Seq<(String, String)>) -> Seq<(Seq<char>, Seq<char>)> {
    v.map_values(|p: (String, String)| (p.0@, p.1@))
}

/// Is every field a text?
pub open spec fn all_texts(f: Seq<(Seq<char>, JsonView)>, n: int) -> bool {
    forall|i: int| 0 <= i < n ==> (#[trigger] f[i]).1 is Text
}

/// The backends and their health in what was read: an object of texts. Anything
/// else says nothing.
pub open spec fn backends_in(r: Result<JsonView, Seq<char>>) -> Seq<(Seq<char>, Seq<char>)> {
    match r {
        Ok(JsonView::Object(f)) => if all_texts(f, f.len() as int) {
            f.map_values(|e: (Seq<char>, JsonView)| (e.0, e.1->Text_0))
        } else {
            Seq::empty()
        },
        _ => Seq::empty(),
    }
}

/// The backends and their health, as GKE's ingress controller publishes them.
pub open spec fn gce_backends(status: Option<String>) -> Seq<(Seq<char>, Seq<char>)> {
    match status {
        Some(t) => backends_in(json::parsed(vstd::utf8::encode_utf8(t@))),
        None => Seq::empty(),
    }
}

fn no_pairs() -> (r: Vec<(String, String)>)
    ensures
        pairs(r@) == Seq::<(Seq<char>, Seq<char>)>::empty(),
{
    let r: Vec<(String, String)> = Vec::new();
    proof {
        assert(pairs(r@) =~= Seq::empty());
    }
    r
}

/// The backends and their health in what was read.
pub fn backends_of(read: &Result<Json, String>) -> (r: Vec<(String, String)>)
    ensures
        pairs(r@) == backends_in(json::outcome(*read)),
{
    match read {
        Ok(Json::Object(v)) => {
            let ghost f = json::fields(v@);
            let ghost all = f.map_values(|e: (Seq<char>, JsonView)| (e.0, e.1->Text_0));
            proof {
                json::lemma_fields(v@);
            }
            let mut r: Vec<(String, String)> = no_pairs();
            let mut i: usize = 0;
            proof {
                assert(all.take(0) =~= Seq::empty());
            }
            while i < v.len()
                invariant
                    i <= v@.len(),
                    *read matches Ok(Json::Object(w)) && w == v,
                    f == json::fields(v@),
                    f.len() == v@.len(),
                    all == f.map_values(|e: (Seq<char>, JsonView)| (e.0, e.1->Text_0)),
                    forall|j: int|
                        0 <= j < v@.len() ==> #[trigger] f[j] == (v@[j].0@, json::content(v@[j].1)),
                    all_texts(f, i as int),
                    pairs(r@) == all.take(i as int),
                decreases v@.len() - i,
            {
                let ghost was = r@;
                proof {
                    assert(f[i as int] == (v@[i as int].0@, json::content(v@[i as int].1)));
                }
                match &v[i].1 {
                    Json::Text(t) => {
                        r.push((v[i].0.clone(), t.clone()));
                        proof {
                            assert(pairs(r@) =~= pairs(was).push(all[i as int]));
                            assert(all.take(i + 1) =~= all.take(i as int).push(all[i as int]));
                        }
                    },
                    _ => {
                        proof {
                            assert(!all_texts(f, f.len() as int));
                        }
                        return no_pairs();
                    },
                }
                i = i + 1;
            }
            proof {
                assert(all.take(i as int) =~= all);
            }
            r
        },
        _ => no_pairs(),
    }
}

/// The names of the first `n` classes that have one.
pub open spec fn class_names(v: Seq<RawClass>, n: int) -> Seq<Seq<char>> {
    pick::gather(
        n,
        |i: int|
            match v[i].name {
                Some(s) => seq![s@],
                None => Seq::empty(),
            },
    )
}

/// The names of the ingress classes.
pub fn names_of_classes(v: &Vec<RawClass>) -> (r: Vec<String>)
    ensures
        text::strs(r@) == class_names(v@, v@.len() as int),
{
    let mut r: Vec<String> = no_lines();
    let mut i: usize = 0;
    while i < v.len()
        invariant
            i <= v@.len(),
            text::strs(r@) == class_names(v@, i as int),
        decreases v@.len() - i,
    {
        match &v[i].name {
            Some(s) => say(&mut r, s.clone()),
            None => {},
        }
        i = i + 1;
    }
    r
}

/// The name of the default class: the first that is marked so.
pub open spec fn default_class(v: Seq<RawClass>) -> Option<String> {
    match pick::first(v.len() as int, |i: int| text::opt(v[i].default_mark) == Some("true"@)) {
        Some(i) => v[i].name,
        None => None,
    }
}

/// The name of the default class.
pub fn find_default_class(v: &Vec<RawClass>) -> (r: Option<String>)
    ensures
        r == default_class(v@),
{
    let ghost q = |i: int| text::opt(v@[i].default_mark) == Some("true"@);
    let mut i: usize = 0;
    while i < v.len()
        invariant
            i <= v@.len(),
            q == (|i: int| text::opt(v@[i].default_mark) == Some("true"@)),
            forall|j: int| 0 <= j < i ==> !#[trigger] q(j),
        decreases v@.len() - i,
    {
        if opt_is(&v[i].default_mark, "true") {
            proof {
                assert(q(i as int));
                pick::lemma_first(v@.len() as int, q);
            }
            return opt_copy(&v[i].name);
        }
        i = i + 1;
    }
    proof {
        pick::lemma_first(v@.len() as int, q);
    }
    None
}

/// What an ingress makes.
pub open spec fn ingress_from(ing: RawIngress, i: IngressInfo) -> bool {
    &&& i.namespace@ == text::or_empty(ing.namespace)
    &&& i.name@ == text::or_empty(ing.name)
    &&& i.class_name == ing.class_name
    &&& text::strs(i.addresses@) == parts::addresses(ing.addresses@, ing.addresses@.len() as int)
    &&& route_views(i.routes@) == routes(ing, ing.rules@.len() as int)
    &&& i.tls_secrets@ == ing.tls_secrets@
    &&& pairs(i.gce_backends@) == gce_backends(ing.gce_status)
}

fn gce_backends_of(status: &Option<String>) -> (r: Vec<(String, String)>)
    ensures
        pairs(r@) == gce_backends(*status),
{
    match status {
        Some(t) => backends_of(&parse_json(&t.as_str().as_bytes_vec())),
        None => no_pairs(),
    }
}

fn convert_ingress(ing: &RawIngress) -> (r: IngressInfo)
    ensures
        ingress_from(*ing, r),
{
    IngressInfo {
        namespace: copy_or_empty(&ing.namespace),
        name: copy_or_empty(&ing.name),
        class_name: opt_copy(&ing.class_name),
        addresses: addresses_of(&ing.addresses),
        routes: routes_of(ing),
        tls_secrets: copy_list(&ing.tls_secrets),
        gce_backends: gce_backends_of(&ing.gce_status),
    }
}

/// What the ingresses make.
pub open spec fn ingresses_from(v: Seq<RawIngress>, r: Seq<IngressInfo>) -> bool {
    r.len() == v.len() && forall|i: int| 0 <= i < v.len() ==> ingress_from(v[i], #[trigger] r[i])
}

pub fn convert_ingresses(v: &Vec<RawIngress>) -> (r: Vec<IngressInfo>)
    ensures
        ingresses_from(v@, r@),
{
    let mut r: Vec<IngressInfo> = Vec::new();
    let mut i: usize = 0;
    while i < v.len()
        invariant
            i <= v@.len(),
            r@.len() == i,
            forall|j: int| 0 <= j < i ==> ingress_from(v@[j], #[trigger] r@[j]),
        decreases v@.len() - i,
    {
        let x: IngressInfo = convert_ingress(&v[i]);
        r.push(x);
        i = i + 1;
    }
    r
}

} // verus!
