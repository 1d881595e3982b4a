//! Network policies that keep traffic from pods, or pods from DNS. A policy
//! that selects by more than labels is never held against anything, and what it
//! allows counts as allowed: it may select the pod.

use crate::labels;
use crate::labels::labels_match;
use crate::lettercase;
use crate::lettercase::alike;
use crate::model;
use crate::model::{
    emit, emit_all, issue, no_issues, target, ClusterGraph, Issue, IssueView, Layer,
    NetworkPolicyInfo, NpPort, NpRule, PodInfo, ServiceInfo, ServicePortInfo, Severity,
};
use crate::numeral;
use crate::numeral::{dec_i32, dec_usize, read_i32};
use crate::order::insert_key;
use crate::pick;
use crate::pick::sorted_distinct;
use crate::rules::pod;
use crate::rules::pod::owner_of;
use crate::scan;
use crate::scan::begins;
use crate::split;
use crate::split::{joined, owner_label, split_id};
use crate::text;
use crate::text::{
    cat2, cat3, cat4, cat5, cat6, cat7, cat8, copy_list, lines2, listed, no_lines, opt_copy,
    opt_is, same, say, say_all,
};
use vstd::prelude::*;

verus! {

broadcast use crate::pick::lemma_add_nothing;

/// Does a policy apply to a pod? Only one whose selector is made of labels is
/// known to; one with no labels applies to every pod of its namespace.
pub open spec fn np_selects(np: NetworkPolicyInfo, p: PodInfo) -> bool {
    np.namespace@ == p.namespace@ && !np.selector_complex && (np.pod_selector@.len() == 0
        || labels::selects(np.pod_selector@, p.labels@))
}

fn applies_to(np: &NetworkPolicyInfo, p: &PodInfo) -> (r: bool)
    ensures
        r == np_selects(*np, *p),
{
    same(np.namespace.as_str(), p.namespace.as_str()) && !np.selector_complex && (
    np.pod_selector.is_empty() || labels_match(&np.pod_selector, &p.labels))
}

/// May a policy apply to a pod, though that is not known? One with match
/// expressions may apply to any pod of its namespace.
pub open spec fn may_select(np: NetworkPolicyInfo, p: PodInfo) -> bool {
    np.namespace@ == p.namespace@ && np.selector_complex
}

fn may_apply_to(np: &NetworkPolicyInfo, p: &PodInfo) -> (r: bool)
    ensures
        r == may_select(*np, *p),
{
    np.selector_complex && same(np.namespace.as_str(), p.namespace.as_str())
}

/// Does a port of a policy cover a port with this number, name and protocol?
pub open spec fn port_covers(
    pp: NpPort,
    port: int,
    name: Option<Seq<char>>,
    protocol: Seq<char>,
) -> bool {
    lettercase::same_letters(pp.protocol@, protocol) && match pp.port {
        None => true,
        Some(v) => match numeral::parse_i32(v@) {
            Some(n) => port == n || (pp.end_port is Some && n <= port <= pp.end_port->0),
            None => name == Some(v@),
        },
    }
}

fn covers(pp: &NpPort, port: i32, name: &Option<String>, protocol: &str) -> (r: bool)
    ensures
        r == port_covers(*pp, port as int, text::opt(*name), protocol@),
{
    if !alike(pp.protocol.as_str(), protocol) {
        return false;
    }
    match &pp.port {
        None => true,
        Some(v) => match read_i32(v.as_str()) {
            Some(n) => port == n || match pp.end_port {
                Some(e) => port >= n && port <= e,
                None => false,
            },
            None => opt_is(name, v.as_str()),
        },
    }
}

/// Does one of the first `n` ports of a rule cover the port?
pub open spec fn ports_cover(
    r: NpRule,
    port: int,
    name: Option<Seq<char>>,
    protocol: Seq<char>,
    n: int,
) -> bool {
    pick::any(n, |k: int| port_covers(r.ports@[k], port, name, protocol))
}

/// Does a rule let a port through? One without ports lets all through.
pub open spec fn rule_allows_port(
    r: NpRule,
    port: int,
    name: Option<Seq<char>>,
    protocol: Seq<char>,
) -> bool {
    r.ports@.len() == 0 || ports_cover(r, port, name, protocol, r.ports@.len() as int)
}

fn allows(r: &NpRule, port: i32, name: &Option<String>, protocol: &str) -> (b: bool)
    ensures
        b == rule_allows_port(*r, port as int, text::opt(*name), protocol@),
{
    let mut b: bool = false;
    let mut k: usize = 0;
    while k < r.ports.len()
        invariant
            k <= r.ports@.len(),
            b == ports_cover(*r, port as int, text::opt(*name), protocol@, k as int),
        decreases r.ports@.len() - k,
    {
        if covers(&r.ports[k], port, name, protocol) {
            b = true;
        }
        k = k + 1;
    }
    b || r.ports.len() == 0
}

fn port_text(p: &NpPort) -> (r: String)
    ensures
        r@ == (match p.port {
            Some(v) => v@,
            None => "*"@,
        }) + "/"@ + p.protocol@,
{
    match &p.port {
        Some(v) => cat3(v.as_str(), "/", p.protocol.as_str()),
        None => cat3("*", "/", p.protocol.as_str()),
    }
}

/// The ports of a rule as text.
pub open spec fn port_texts(r: NpRule, n: int) -> Seq<Seq<char>> {
    pick::gather(
        n,
        |k: int|
            seq![(match r.ports@[k].port {
                        Some(p) => p@,
                        None => "*"@,
                }) + "/"@ + r.ports@[k].protocol@],
    )
}

fn port_lines(r: &NpRule) -> (out: Vec<String>)
    ensures
        text::strs(out@) == port_texts(*r, r.ports@.len() as int),
{
    let mut out: Vec<String> = no_lines();
    let mut k: usize = 0;
    while k < r.ports.len()
        invariant
            k <= r.ports@.len(),
            text::strs(out@) == port_texts(*r, k as int),
        decreases r.ports@.len() - k,
    {
        say(&mut out, port_text(&r.ports[k]));
        k = k + 1;
    }
    out
}

/// A rule in one line: from whom, and on which ports.
pub open spec fn rule_summary(r: NpRule) -> Seq<char> {
    (if r.peers@.len() == 0 {
        "any source"@
    } else {
        split::join(text::strs(r.peers@), "; "@)
    }) + " on "@ + (if r.ports@.len() == 0 {
        "all ports"@
    } else {
        split::join(port_texts(r, r.ports@.len() as int), ", "@)
    })
}

fn summary(r: &NpRule) -> (s: String)
    ensures
        s@ == rule_summary(*r),
{
    let peers: String = if r.peers.len() == 0 {
        "any source".to_owned()
    } else {
        joined(&r.peers, "; ")
    };
    let ports: String = if r.ports.len() == 0 {
        "all ports".to_owned()
    } else {
        joined(&port_lines(r), ", ")
    };
    cat3(peers.as_str(), " on ", ports.as_str())
}

/// The first `n` rules, one line each.
pub open spec fn rule_lines(rules: Seq<NpRule>, n: int) -> Seq<Seq<char>> {
    pick::gather(n, |i: int| seq![rule_summary(rules[i])])
}

fn lines_of_rules(rules: &Vec<NpRule>) -> (r: Vec<String>)
    ensures
        text::strs(r@) == rule_lines(rules@, rules@.len() as int),
{
    let mut r: Vec<String> = no_lines();
    let mut i: usize = 0;
    while i < rules.len()
        invariant
            i <= rules@.len(),
            text::strs(r@) == rule_lines(rules@, i as int),
        decreases rules@.len() - i,
    {
        say(&mut r, summary(&rules[i]));
        i = i + 1;
    }
    r
}

/// What the rules of a policy allow in one direction.
pub open spec fn policy_line(name: Seq<char>, rules: Seq<NpRule>, none: Seq<char>) -> Seq<char> {
    if rules.len() == 0 {
        name + none
    } else {
        name + ": allows "@ + split::join(rule_lines(rules, rules.len() as int), " | "@)
    }
}

fn policy_text(name: &str, rules: &Vec<NpRule>, none: &str) -> (r: String)
    ensures
        r@ == policy_line(name@, rules@, none@),
{
    if rules.len() == 0 {
        cat2(name, none)
    } else {
        cat3(name, ": allows ", joined(&lines_of_rules(rules), " | ").as_str())
    }
}

/// The first declared port of a pod with a number.
pub open spec fn port_numbered(p: PodInfo, port: int, n: int) -> Option<int> {
    pick::first(n, |i: int| p.container_ports@[i].port == port)
}

fn find_numbered(p: &PodInfo, port: i32) -> (r: Option<usize>)
    ensures
        match r {
            Some(k) => k < p.container_ports@.len() && port_numbered(*p, port as int, p.container_ports@.len() as int) == Some(
                k as int,
            ),
            None => port_numbered(*p, port as int, p.container_ports@.len() as int) is None,
        },
{
    let mut r: Option<usize> = None;
    let mut i: usize = 0;
    while i < p.container_ports.len()
        invariant
            i <= p.container_ports@.len(),
            match r {
                Some(k) => k < i && port_numbered(*p, port as int, i as int) == Some(k as int),
                None => port_numbered(*p, port as int, i as int) is None,
            },
        decreases p.container_ports@.len() - i,
    {
        if r.is_none() && p.container_ports[i].port == port {
            r = Some(i);
        }
        i = i + 1;
    }
    r
}

/// The first declared port of a pod with a name.
pub open spec fn port_named(p: PodInfo, name: Seq<char>, n: int) -> Option<int> {
    pick::first(n, |i: int| text::opt(p.container_ports@[i].name) == Some(name))
}

/// Find the first declared port of a pod with a name.
pub fn find_named(p: &PodInfo, name: &str) -> (r: Option<usize>)
    ensures
        match r {
            Some(k) => k < p.container_ports@.len() && port_named(*p, name@, p.container_ports@.len() as int) == Some(
                k as int,
            ),
            None => port_named(*p, name@, p.container_ports@.len() as int) is None,
        },
{
    let mut r: Option<usize> = None;
    let mut i: usize = 0;
    while i < p.container_ports.len()
        invariant
            i <= p.container_ports@.len(),
            match r {
                Some(k) => k < i && port_named(*p, name@, i as int) == Some(k as int),
                None => port_named(*p, name@, i as int) is None,
            },
        decreases p.container_ports@.len() - i,
    {
        if r.is_none() && opt_is(&p.container_ports[i].name, name) {
            r = Some(i);
        }
        i = i + 1;
    }
    r
}

/// The port of a pod that a service port leads to, with its name. A target
/// that is a number is taken as it is; a name is looked up on the pod.
pub open spec fn resolve_target(sp: ServicePortInfo, p: PodInfo) -> Option<
    (int, Option<Seq<char>>),
> {
    match numeral::parse_i32(sp.target@) {
        Some(n) => Some(
            (
                n,
                match port_numbered(p, n, p.container_ports@.len() as int) {
                    Some(i) => text::opt(p.container_ports@[i].name),
                    None => None,
                },
            ),
        ),
        None => match port_named(p, sp.target@, p.container_ports@.len() as int) {
            Some(i) => Some(
                (p.container_ports@[i].port as int, text::opt(p.container_ports@[i].name)),
            ),
            None => None,
        },
    }
}

fn resolve(sp: &ServicePortInfo, p: &PodInfo) -> (r: Option<(i32, Option<String>)>)
    ensures
        match r {
            Some(t) => resolve_target(*sp, *p) == Some((t.0 as int, text::opt(t.1))),
            None => resolve_target(*sp, *p) is None,
        },
{
    match read_i32(sp.target.as_str()) {
        Some(n) => {
            let name: Option<String> = match find_numbered(p, n) {
                Some(i) => opt_copy(&p.container_ports[i].name),
                None => None,
            };
            Some((n, name))
        },
        None => match find_named(p, sp.target.as_str()) {
            Some(i) => Some((p.container_ports[i].port, opt_copy(&p.container_ports[i].name))),
            None => None,
        },
    }
}

/// Is the pod at an index one of a service?
pub open spec fn behind(g: ClusterGraph, s: ServiceInfo, i: int) -> bool {
    g.pods@[i].namespace@ == s.namespace@ && text::strs(s.pods@).contains(g.pods@[i].name@)
}

/// Is the pod at an index one of a service?
pub fn is_behind(g: &ClusterGraph, s: &ServiceInfo, i: usize) -> (r: bool)
    requires
        i < g.pods@.len(),
    ensures
        r == behind(*g, *s, i as int),
{
    same(g.pods[i].namespace.as_str(), s.namespace.as_str()) && listed(
        &s.pods,
        g.pods[i].name.as_str(),
    )
}

/// How many of the first `n` pods are behind a service.
pub open spec fn pods_behind(g: ClusterGraph, s: ServiceInfo, n: int) -> nat {
    pick::tally(n, |i: int| behind(g, s, i))
}

fn count_behind(g: &ClusterGraph, s: &ServiceInfo) -> (r: usize)
    ensures
        r == pods_behind(*g, *s, g.pods@.len() as int),
{
    let mut r: usize = 0;
    let mut i: usize = 0;
    while i < g.pods.len()
        invariant
            r <= i <= g.pods@.len(),
            r == pods_behind(*g, *s, i as int),
        decreases g.pods@.len() - i,
    {
        if is_behind(g, s, i) {
            r = r + 1;
        }
        i = i + 1;
    }
    r
}

/// Does the policy at an index restrict what reaches a pod?
pub open spec fn guards(g: ClusterGraph, p: PodInfo, k: int) -> bool {
    g.network_policies@[k].ingress_type && np_selects(g.network_policies@[k], p)
}

fn is_guard(g: &ClusterGraph, p: &PodInfo, k: usize) -> (r: bool)
    requires
        k < g.network_policies@.len(),
    ensures
        r == guards(*g, *p, k as int),
{
    g.network_policies[k].ingress_type && applies_to(&g.network_policies[k], p)
}

/// Does a policy restrict what reaches a pod?
pub open spec fn guarded(g: ClusterGraph, p: PodInfo, n: int) -> bool {
    pick::any(n, |k: int| guards(g, p, k))
}

fn is_guarded(g: &ClusterGraph, p: &PodInfo) -> (r: bool)
    ensures
        r == guarded(*g, *p, g.network_policies@.len() as int),
{
    let mut r: bool = false;
    let mut k: usize = 0;
    while k < g.network_policies.len()
        invariant
            k <= g.network_policies@.len(),
            r == guarded(*g, *p, k as int),
        decreases g.network_policies@.len() - k,
    {
        if is_guard(g, p, k) {
            r = true;
        }
        k = k + 1;
    }
    r
}

/// Does one of the rules let a port through?
pub open spec fn rules_allow(
    rules: Seq<NpRule>,
    port: int,
    name: Option<Seq<char>>,
    protocol: Seq<char>,
    n: int,
) -> bool {
    pick::any(n, |i: int| rule_allows_port(rules[i], port, name, protocol))
}

fn any_rule_allows(
    rules: &Vec<NpRule>,
    port: i32,
    name: &Option<String>,
    protocol: &str,
) -> (r: bool)
    ensures
        r == rules_allow(rules@, port as int, text::opt(*name), protocol@, rules@.len() as int),
{
    let mut r: bool = false;
    let mut i: usize = 0;
    while i < rules.len()
        invariant
            i <= rules@.len(),
            r == rules_allow(rules@, port as int, text::opt(*name), protocol@, i as int),
        decreases rules@.len() - i,
    {
        if allows(&rules[i], port, name, protocol) {
            r = true;
        }
        i = i + 1;
    }
    r
}

/// Does one of the first `n` peers of a rule take in everything outside?
pub open spec fn broad_peer(r: NpRule, n: int) -> bool {
    pick::any(
        n,
        |i: int| r.peers@[i]@ == "all namespaces"@ || scan::starts_with(r.peers@[i]@, "ipBlock"@),
    )
}

/// Does a rule admit more than particular pods? One without peers admits all.
pub open spec fn is_broad(r: NpRule) -> bool {
    r.peers@.len() == 0 || broad_peer(r, r.peers@.len() as int)
}

fn broad(r: &NpRule) -> (b: bool)
    ensures
        b == is_broad(*r),
{
    let mut b: bool = false;
    let mut i: usize = 0;
    while i < r.peers.len()
        invariant
            i <= r.peers@.len(),
            b == broad_peer(*r, i as int),
        decreases r.peers@.len() - i,
    {
        if same(r.peers[i].as_str(), "all namespaces") || begins(r.peers[i].as_str(), "ipBlock") {
            b = true;
        }
        i = i + 1;
    }
    b || r.peers.len() == 0
}

/// Does one of the rules let a port through from more than particular pods?
pub open spec fn rules_open(
    rules: Seq<NpRule>,
    port: int,
    name: Option<Seq<char>>,
    protocol: Seq<char>,
    n: int,
) -> bool {
    pick::any(n, |i: int| rule_allows_port(rules[i], port, name, protocol) && is_broad(rules[i]))
}

fn any_rule_opens(
    rules: &Vec<NpRule>,
    port: i32,
    name: &Option<String>,
    protocol: &str,
) -> (r: bool)
    ensures
        r == rules_open(rules@, port as int, text::opt(*name), protocol@, rules@.len() as int),
{
    let mut r: bool = false;
    let mut i: usize = 0;
    while i < rules.len()
        invariant
            i <= rules@.len(),
            r == rules_open(rules@, port as int, text::opt(*name), protocol@, i as int),
        decreases rules@.len() - i,
    {
        if allows(&rules[i], port, name, protocol) && broad(&rules[i]) {
            r = true;
        }
        i = i + 1;
    }
    r
}

/// The peers of the rules that let a port through.
pub open spec fn admitted(
    rules: Seq<NpRule>,
    port: int,
    name: Option<Seq<char>>,
    protocol: Seq<char>,
    n: int,
) -> Seq<Seq<char>> {
    pick::gather(
        n,
        |i: int|
            if rule_allows_port(rules[i], port, name, protocol) {
                text::strs(rules[i].peers@)
            } else {
                Seq::empty()
            },
    )
}

fn peers_admitted(
    rules: &Vec<NpRule>,
    port: i32,
    name: &Option<String>,
    protocol: &str,
) -> (r: Vec<String>)
    ensures
        text::strs(r@) == admitted(rules@, port as int, text::opt(*name), protocol@, rules@.len() as int),
{
    let mut r: Vec<String> = no_lines();
    let mut i: usize = 0;
    while i < rules.len()
        invariant
            i <= rules@.len(),
            text::strs(r@) == admitted(rules@, port as int, text::opt(*name), protocol@, i as int),
        decreases rules@.len() - i,
    {
        if allows(&rules[i], port, name, protocol) {
            say_all(&mut r, copy_list(&rules[i].peers));
        }
        i = i + 1;
    }
    r
}

/// Does a policy of the pod let the port through?
pub open spec fn let_in(
    g: ClusterGraph,
    p: PodInfo,
    port: int,
    name: Option<Seq<char>>,
    protocol: Seq<char>,
    n: int,
) -> bool {
    pick::any(
        n,
        |k: int| guards(g, p, k) && rules_allow(
            g.network_policies@[k].ingress@,
            port,
            name,
            protocol,
            g.network_policies@[k].ingress@.len() as int,
        ),
    )
}

fn is_let_in(
    g: &ClusterGraph,
    p: &PodInfo,
    port: i32,
    name: &Option<String>,
    protocol: &str,
) -> (r: bool)
    ensures
        r == let_in(*g, *p, port as int, text::opt(*name), protocol@, g.network_policies@.len() as int),
{
    let mut r: bool = false;
    let mut k: usize = 0;
    while k < g.network_policies.len()
        invariant
            k <= g.network_policies@.len(),
            r == let_in(*g, *p, port as int, text::opt(*name), protocol@, k as int),
        decreases g.network_policies@.len() - k,
    {
        if is_guard(g, p, k) && any_rule_allows(&g.network_policies[k].ingress, port, name, protocol) {
            r = true;
        }
        k = k + 1;
    }
    r
}

/// Does a policy of the pod let the port through from more than particular pods?
pub open spec fn let_in_widely(
    g: ClusterGraph,
    p: PodInfo,
    port: int,
    name: Option<Seq<char>>,
    protocol: Seq<char>,
    n: int,
) -> bool {
    pick::any(
        n,
        |k: int| guards(g, p, k) && rules_open(
            g.network_policies@[k].ingress@,
            port,
            name,
            protocol,
            g.network_policies@[k].ingress@.len() as int,
        ),
    )
}

fn is_let_in_widely(
    g: &ClusterGraph,
    p: &PodInfo,
    port: i32,
    name: &Option<String>,
    protocol: &str,
) -> (r: bool)
    ensures
        r == let_in_widely(
            *g,
            *p,
            port as int,
            text::opt(*name),
            protocol@,
            g.network_policies@.len() as int,
        ),
{
    let mut r: bool = false;
    let mut k: usize = 0;
    while k < g.network_policies.len()
        invariant
            k <= g.network_policies@.len(),
            r == let_in_widely(*g, *p, port as int, text::opt(*name), protocol@, k as int),
        decreases g.network_policies@.len() - k,
    {
        if is_guard(g, p, k) && any_rule_opens(&g.network_policies[k].ingress, port, name, protocol) {
            r = true;
        }
        k = k + 1;
    }
    r
}

/// The peers from which the policies of the pod let the port through.
pub open spec fn peers_of(
    g: ClusterGraph,
    p: PodInfo,
    port: int,
    name: Option<Seq<char>>,
    protocol: Seq<char>,
    n: int,
) -> Seq<Seq<char>> {
    pick::gather(
        n,
        |k: int|
            if guards(g, p, k) {
                admitted(
                    g.network_policies@[k].ingress@,
                    port,
                    name,
                    protocol,
                    g.network_policies@[k].ingress@.len() as int,
                )
            } else {
                Seq::empty()
            },
    )
}

fn peers_of_pod(
    g: &ClusterGraph,
    p: &PodInfo,
    port: i32,
    name: &Option<String>,
    protocol: &str,
) -> (r: Vec<String>)
    ensures
        text::strs(r@) == peers_of(
            *g,
            *p,
            port as int,
            text::opt(*name),
            protocol@,
            g.network_policies@.len() as int,
        ),
{
    let mut r: Vec<String> = no_lines();
    let mut k: usize = 0;
    while k < g.network_policies.len()
        invariant
            k <= g.network_policies@.len(),
            text::strs(r@) == peers_of(*g, *p, port as int, text::opt(*name), protocol@, k as int),
        decreases g.network_policies@.len() - k,
    {
        if is_guard(g, p, k) {
            say_all(&mut r, peers_admitted(&g.network_policies[k].ingress, port, name, protocol));
        }
        k = k + 1;
    }
    r
}

/// Does a policy that may apply to the pod let the port through?
pub open spec fn may_let_in(
    g: ClusterGraph,
    p: PodInfo,
    port: int,
    name: Option<Seq<char>>,
    protocol: Seq<char>,
    n: int,
) -> bool {
    pick::any(
        n,
        |k: int|
            g.network_policies@[k].ingress_type && may_select(g.network_policies@[k], p)
                && rules_allow(
                g.network_policies@[k].ingress@,
                port,
                name,
                protocol,
                g.network_policies@[k].ingress@.len() as int,
            ),
    )
}

fn is_perhaps_let_in(
    g: &ClusterGraph,
    p: &PodInfo,
    port: i32,
    name: &Option<String>,
    protocol: &str,
) -> (r: bool)
    ensures
        r == may_let_in(
            *g,
            *p,
            port as int,
            text::opt(*name),
            protocol@,
            g.network_policies@.len() as int,
        ),
{
    let mut r: bool = false;
    let mut k: usize = 0;
    while k < g.network_policies.len()
        invariant
            k <= g.network_policies@.len(),
            r == may_let_in(*g, *p, port as int, text::opt(*name), protocol@, k as int),
        decreases g.network_policies@.len() - k,
    {
        let np: &NetworkPolicyInfo = &g.network_policies[k];
        if np.ingress_type && may_apply_to(np, p) && any_rule_allows(
            &np.ingress,
            port,
            name,
            protocol,
        ) {
            r = true;
        }
        k = k + 1;
    }
    r
}

/// Is the pod kept from what a service port sends it, whichever pods the
/// policies with match expressions select?
pub open spec fn shut_off(g: ClusterGraph, sp: ServicePortInfo, p: PodInfo) -> bool {
    let n = g.network_policies@.len() as int;
    guarded(g, p, n) && match resolve_target(sp, p) {
        Some(t) => !let_in(g, p, t.0, t.1, sp.protocol@, n) && !may_let_in(
            g,
            p,
            t.0,
            t.1,
            sp.protocol@,
            n,
        ),
        None => false,
    }
}

fn is_shut_off(g: &ClusterGraph, sp: &ServicePortInfo, p: &PodInfo) -> (r: bool)
    ensures
        r == shut_off(*g, *sp, *p),
{
    is_guarded(g, p) && match resolve(sp, p) {
        Some(t) => !is_let_in(g, p, t.0, &t.1, sp.protocol.as_str()) && !is_perhaps_let_in(
            g,
            p,
            t.0,
            &t.1,
            sp.protocol.as_str(),
        ),
        None => false,
    }
}

/// The only peers that may reach the pod through a service port, where the
/// port is open to some but not widely, and no policy with match expressions can
/// add to them.
pub open spec fn only_from(g: ClusterGraph, sp: ServicePortInfo, p: PodInfo) -> Seq<Seq<char>> {
    let n = g.network_policies@.len() as int;
    match resolve_target(sp, p) {
        Some(t) => if guarded(g, p, n) && let_in(g, p, t.0, t.1, sp.protocol@, n) && !let_in_widely(
            g,
            p,
            t.0,
            t.1,
            sp.protocol@,
            n,
        ) && !may_let_in(g, p, t.0, t.1, sp.protocol@, n) {
            peers_of(g, p, t.0, t.1, sp.protocol@, n)
        } else {
            Seq::empty()
        },
        None => Seq::empty(),
    }
}

fn only_peers(g: &ClusterGraph, sp: &ServicePortInfo, p: &PodInfo) -> (r: Vec<String>)
    ensures
        text::strs(r@) == only_from(*g, *sp, *p),
{
    match resolve(sp, p) {
        Some(t) => {
            let proto: &str = sp.protocol.as_str();
            if is_guarded(g, p) && is_let_in(g, p, t.0, &t.1, proto) && !is_let_in_widely(
                g,
                p,
                t.0,
                &t.1,
                proto,
            ) && !is_perhaps_let_in(g, p, t.0, &t.1, proto) {
                peers_of_pod(g, p, t.0, &t.1, proto)
            } else {
                no_lines()
            }
        },
        None => no_lines(),
    }
}

/// The pods of a service that are kept from what a port of it sends them.
pub open spec fn blocked(
    g: ClusterGraph,
    s: ServiceInfo,
    sp: ServicePortInfo,
    n: int,
) -> Seq<Seq<char>> {
    pick::gather(
        n,
        |i: int|
            if behind(g, s, i) && shut_off(g, sp, g.pods@[i]) {
                seq![g.pods@[i].name@]
            } else {
                Seq::empty()
            },
    )
}

fn blocked_pods(g: &ClusterGraph, s: &ServiceInfo, sp: &ServicePortInfo) -> (r: Vec<String>)
    ensures
        text::strs(r@) == blocked(*g, *s, *sp, g.pods@.len() as int),
{
    let mut r: Vec<String> = no_lines();
    let mut i: usize = 0;
    while i < g.pods.len()
        invariant
            i <= g.pods@.len(),
            text::strs(r@) == blocked(*g, *s, *sp, i as int),
        decreases g.pods@.len() - i,
    {
        if is_behind(g, s, i) && is_shut_off(g, sp, &g.pods[i]) {
            say(&mut r, g.pods[i].name.clone());
        }
        i = i + 1;
    }
    r
}

/// The only peers that may reach pods of a service through a port of it.
pub open spec fn restricted(
    g: ClusterGraph,
    s: ServiceInfo,
    sp: ServicePortInfo,
    n: int,
) -> Seq<Seq<char>> {
    pick::gather(
        n,
        |i: int|
            if behind(g, s, i) {
                only_from(g, sp, g.pods@[i])
            } else {
                Seq::empty()
            },
    )
}

fn restricted_peers(g: &ClusterGraph, s: &ServiceInfo, sp: &ServicePortInfo) -> (r: Vec<String>)
    ensures
        text::strs(r@) == restricted(*g, *s, *sp, g.pods@.len() as int),
{
    let mut r: Vec<String> = no_lines();
    let mut i: usize = 0;
    while i < g.pods.len()
        invariant
            i <= g.pods@.len(),
            text::strs(r@) == restricted(*g, *s, *sp, i as int),
        decreases g.pods@.len() - i,
    {
        if is_behind(g, s, i) {
            say_all(&mut r, only_peers(g, sp, &g.pods[i]));
        }
        i = i + 1;
    }
    r
}

/// The names of the policies that restrict what reaches a pod.
pub open spec fn guard_names(g: ClusterGraph, p: PodInfo, n: int) -> Seq<Seq<char>> {
    pick::gather(
        n,
        |k: int|
            if guards(g, p, k) {
                seq![g.network_policies@[k].name@]
            } else {
                Seq::empty()
            },
    )
}

fn guard_names_of(g: &ClusterGraph, p: &PodInfo) -> (r: Vec<String>)
    ensures
        text::strs(r@) == guard_names(*g, *p, g.network_policies@.len() as int),
{
    let mut r: Vec<String> = no_lines();
    let mut k: usize = 0;
    while k < g.network_policies.len()
        invariant
            k <= g.network_policies@.len(),
            text::strs(r@) == guard_names(*g, *p, k as int),
        decreases g.network_policies@.len() - k,
    {
        if is_guard(g, p, k) {
            say(&mut r, g.network_policies[k].name.clone());
        }
        k = k + 1;
    }
    r
}

/// The names of the policies that restrict what reaches the pods of a service.
pub open spec fn service_guards(g: ClusterGraph, s: ServiceInfo, n: int) -> Seq<Seq<char>> {
    pick::gather(
        n,
        |i: int|
            if behind(g, s, i) {
                guard_names(g, g.pods@[i], g.network_policies@.len() as int)
            } else {
                Seq::empty()
            },
    )
}

fn service_guard_names(g: &ClusterGraph, s: &ServiceInfo) -> (r: Vec<String>)
    ensures
        text::strs(r@) == service_guards(*g, *s, g.pods@.len() as int),
{
    let mut r: Vec<String> = no_lines();
    let mut i: usize = 0;
    while i < g.pods.len()
        invariant
            i <= g.pods@.len(),
            text::strs(r@) == service_guards(*g, *s, i as int),
        decreases g.pods@.len() - i,
    {
        if is_behind(g, s, i) {
            say_all(&mut r, guard_names_of(g, &g.pods[i]));
        }
        i = i + 1;
    }
    r
}

/// What the policies that restrict a service allow.
pub open spec fn guard_lines(
    g: ClusterGraph,
    s: ServiceInfo,
    names: Seq<Seq<char>>,
    n: int,
) -> Seq<Seq<char>> {
    pick::gather(
        n,
        |k: int|
            if g.network_policies@[k].namespace@ == s.namespace@ && names.contains(g.network_policies@[k].name@) {
                seq![
                    policy_line(
                        g.network_policies@[k].name@,
                        g.network_policies@[k].ingress@,
                        ": ingress rules: none (denies all inbound)"@,
                    ),
                ]
            } else {
                Seq::empty()
            },
    )
}

fn lines_of_guards(g: &ClusterGraph, s: &ServiceInfo, names: &Vec<String>) -> (r: Vec<String>)
    ensures
        text::strs(r@) == guard_lines(*g, *s, text::strs(names@), g.network_policies@.len() as int),
{
    let mut r: Vec<String> = no_lines();
    let mut k: usize = 0;
    while k < g.network_policies.len()
        invariant
            k <= g.network_policies@.len(),
            text::strs(r@) == guard_lines(*g, *s, text::strs(names@), k as int),
        decreases g.network_policies@.len() - k,
    {
        let np: &NetworkPolicyInfo = &g.network_policies[k];
        if same(np.namespace.as_str(), s.namespace.as_str()) && listed(names, np.name.as_str()) {
            say(
                &mut r,
                policy_text(
                    np.name.as_str(),
                    &np.ingress,
                    ": ingress rules: none (denies all inbound)",
                ),
            );
        }
        k = k + 1;
    }
    r
}

/// What the policies in front of a service allow.
pub open spec fn guard_evidence(g: ClusterGraph, s: ServiceInfo) -> Seq<Seq<char>> {
    guard_lines(g, s, service_guards(g, s, g.pods@.len() as int), g.network_policies@.len() as int)
}

fn guard_evidence_of(g: &ClusterGraph, s: &ServiceInfo) -> (r: Vec<String>)
    ensures
        text::strs(r@) == guard_evidence(*g, *s),
{
    let names: Vec<String> = service_guard_names(g, s);
    lines_of_guards(g, s, &names)
}

/// How to look at the policies of a service.
pub open spec fn policy_commands(s: ServiceInfo) -> Seq<Seq<char>> {
    seq![
        "kubectl get networkpolicy -n "@ + s.namespace@ + " -o yaml"@,
        "kubectl describe svc "@ + s.name@ + " -n "@ + s.namespace@,
    ]
}

fn commands_for(s: &ServiceInfo) -> (r: Vec<String>)
    ensures
        text::strs(r@) == policy_commands(*s),
{
    lines2(
        cat3("kubectl get networkpolicy -n ", s.namespace.as_str(), " -o yaml"),
        cat4("kubectl describe svc ", s.name.as_str(), " -n ", s.namespace.as_str()),
    )
}

/// The issue for a service port that a policy shuts off for the pods in `names`.
pub open spec fn port_blocked(
    g: ClusterGraph,
    s: ServiceInfo,
    sp: ServicePortInfo,
    names: Seq<Seq<char>>,
    total: int,
) -> IssueView {
    model::issue_view(
        "np-ingress-blocked:"@ + s.namespace@ + "/"@ + s.name@ + ":"@
            + numeral::dec(sp.port as int),
        if names.len() == total {
            Severity::Critical
        } else {
            Severity::Warning
        },
        Layer::Pod,
        model::target_view("Service"@, s.namespace@, s.name@),
        "NetworkPolicy blocks traffic to "@ + s.name@ + " on port "@ + sp.target@,
        numeral::dec(names.len() as int) + " of "@ + numeral::dec(total) + " pods behind "@
            + s.name@
            + " are selected by a NetworkPolicy that allows no inbound traffic on port "@
            + sp.target@
            + ". Connections are silently dropped, so callers see timeouts rather than errors."@,
        guard_evidence(g, s),
        "Add an ingress rule to one of these policies that allows port "@ + sp.target@
            + "/"@ + sp.protocol@ + " from the callers of "@ + s.name@
            + " (for routed services, the ingress controller's namespace)."@,
        policy_commands(s),
        names,
    )
}

fn port_blocked_issue(
    g: &ClusterGraph,
    s: &ServiceInfo,
    sp: &ServicePortInfo,
    names: Vec<String>,
    total: usize,
) -> (r: Issue)
    ensures
        r@ == port_blocked(*g, *s, *sp, text::strs(names@), total as int),
{
    let severity: Severity = if names.len() == total {
        Severity::Critical
    } else {
        Severity::Warning
    };
    issue(
        cat6(
            "np-ingress-blocked:",
            s.namespace.as_str(),
            "/",
            s.name.as_str(),
            ":",
            dec_i32(sp.port).as_str(),
        ),
        severity,
        Layer::Pod,
        target("Service", s.namespace.as_str(), s.name.as_str()),
        cat4("NetworkPolicy blocks traffic to ", s.name.as_str(), " on port ", sp.target.as_str()),
        cat8(
            dec_usize(names.len()).as_str(),
            " of ",
            dec_usize(total).as_str(),
            " pods behind ",
            s.name.as_str(),
            " are selected by a NetworkPolicy that allows no inbound traffic on port ",
            sp.target.as_str(),
            ". Connections are silently dropped, so callers see timeouts rather than errors.",
        ),
        guard_evidence_of(g, s),
        cat7(
            "Add an ingress rule to one of these policies that allows port ",
            sp.target.as_str(),
            "/",
            sp.protocol.as_str(),
            " from the callers of ",
            s.name.as_str(),
            " (for routed services, the ingress controller's namespace).",
        ),
        commands_for(s),
        names,
    )
}

/// The peers as evidence.
pub open spec fn allowed_from(peers: Seq<Seq<char>>, n: int) -> Seq<Seq<char>> {
    pick::gather(n, |i: int| seq!["allowed from: "@ + peers[i]])
}

fn allowed_lines(peers: &Vec<String>) -> (r: Vec<String>)
    ensures
        text::strs(r@) == allowed_from(text::strs(peers@), peers@.len() as int),
{
    let mut r: Vec<String> = no_lines();
    let mut i: usize = 0;
    while i < peers.len()
        invariant
            i <= peers@.len(),
            text::strs(r@) == allowed_from(text::strs(peers@), i as int),
        decreases peers@.len() - i,
    {
        say(&mut r, cat2("allowed from: ", peers[i].as_str()));
        i = i + 1;
    }
    r
}

/// The issue for a routed service port that only the given peers may reach.
pub open spec fn port_restricted(
    g: ClusterGraph,
    s: ServiceInfo,
    sp: ServicePortInfo,
    peers: Seq<Seq<char>>,
) -> IssueView {
    model::issue_view(
        "np-ingress-restricted:"@ + s.namespace@ + "/"@ + s.name@ + ":"@
            + numeral::dec(sp.port as int),
        Severity::Warning,
        Layer::Pod,
        model::target_view("Service"@, s.namespace@, s.name@),
        "Only specific sources may reach "@ + s.name@
            + "; check the ingress controller is one of them"@,
        s.name@
            + " is routed from an ingress, but NetworkPolicies only admit the sources below on port "@
            + sp.target@
            + ". If the ingress controller's pods or namespace aren't included, requests through the ingress time out."@,
        allowed_from(peers, peers.len() as int) + guard_evidence(g, s),
        "Confirm the ingress controller's namespace (for example ingress-nginx) or, for AWS ALB in IP mode, the VPC CIDR is allowed."@,
        policy_commands(s),
        Seq::empty(),
    )
}

fn port_restricted_issue(
    g: &ClusterGraph,
    s: &ServiceInfo,
    sp: &ServicePortInfo,
    peers: Vec<String>,
) -> (r: Issue)
    ensures
        r@ == port_restricted(*g, *s, *sp, text::strs(peers@)),
{
    let mut evidence: Vec<String> = allowed_lines(&peers);
    say_all(&mut evidence, guard_evidence_of(g, s));
    issue(
        cat6(
            "np-ingress-restricted:",
            s.namespace.as_str(),
            "/",
            s.name.as_str(),
            ":",
            dec_i32(sp.port).as_str(),
        ),
        Severity::Warning,
        Layer::Pod,
        target("Service", s.namespace.as_str(), s.name.as_str()),
        cat3(
            "Only specific sources may reach ",
            s.name.as_str(),
            "; check the ingress controller is one of them",
        ),
        cat4(
            s.name.as_str(),
            " is routed from an ingress, but NetworkPolicies only admit the sources below on port ",
            sp.target.as_str(),
            ". If the ingress controller's pods or namespace aren't included, requests through the ingress time out.",
        ),
        evidence,
        "Confirm the ingress controller's namespace (for example ingress-nginx) or, for AWS ALB in IP mode, the VPC CIDR is allowed.".to_owned(),
        commands_for(s),
        no_lines(),
    )
}

/// Does one of the first `n` routes of an ingress lead to a service?
pub open spec fn routes_lead_to(g: ClusterGraph, i: int, s: ServiceInfo, n: int) -> bool {
    pick::any(n, |j: int| g.ingresses@[i].routes@[j].service@ == s.name@)
}

fn any_route_leads(g: &ClusterGraph, i: usize, s: &ServiceInfo) -> (r: bool)
    requires
        i < g.ingresses@.len(),
    ensures
        r == routes_lead_to(*g, i as int, *s, g.ingresses@[i as int].routes@.len() as int),
{
    let mut r: bool = false;
    let mut j: usize = 0;
    while j < g.ingresses[i].routes.len()
        invariant
            i < g.ingresses@.len(),
            j <= g.ingresses@[i as int].routes@.len(),
            r == routes_lead_to(*g, i as int, *s, j as int),
        decreases g.ingresses@[i as int].routes@.len() - j,
    {
        if same(g.ingresses[i].routes[j].service.as_str(), s.name.as_str()) {
            r = true;
        }
        j = j + 1;
    }
    r
}

/// Does an ingress of the same namespace lead to a service?
pub open spec fn routed(g: ClusterGraph, s: ServiceInfo, n: int) -> bool {
    pick::any(n, |i: int| g.ingresses@[i].namespace@ == s.namespace@ && routes_lead_to(
            g,
            i,
            s,
            g.ingresses@[i].routes@.len() as int,
    ))
}

fn is_routed(g: &ClusterGraph, s: &ServiceInfo) -> (r: bool)
    ensures
        r == routed(*g, *s, g.ingresses@.len() as int),
{
    let mut r: bool = false;
    let mut i: usize = 0;
    while i < g.ingresses.len()
        invariant
            i <= g.ingresses@.len(),
            r == routed(*g, *s, i as int),
        decreases g.ingresses@.len() - i,
    {
        if same(g.ingresses[i].namespace.as_str(), s.namespace.as_str()) && any_route_leads(g, i, s) {
            r = true;
        }
        i = i + 1;
    }
    r
}

/// The issue of one port of a service.
pub open spec fn port_issue(g: ClusterGraph, s: ServiceInfo, sp: ServicePortInfo) -> Seq<
    IssueView,
> {
    let n = g.pods@.len() as int;
    let names = blocked(g, s, sp, n);
    let peers = restricted(g, s, sp, n);
    if names.len() > 0 {
        seq![port_blocked(g, s, sp, names, pods_behind(g, s, n) as int)]
    } else if peers.len() > 0 && routed(g, s, g.ingresses@.len() as int) {
        seq![port_restricted(g, s, sp, pick::distinct(peers))]
    } else {
        Seq::empty()
    }
}

fn issues_of_port(g: &ClusterGraph, s: &ServiceInfo, sp: &ServicePortInfo) -> (r: Vec<Issue>)
    ensures
        model::views(r@) == port_issue(*g, *s, *sp),
{
    let mut r: Vec<Issue> = no_issues();
    let names: Vec<String> = blocked_pods(g, s, sp);
    let peers: Vec<String> = restricted_peers(g, s, sp);
    proof {
        assert(text::strs(names@).len() == names@.len());
        assert(text::strs(peers@).len() == peers@.len());
    }
    if names.len() > 0 {
        let total: usize = count_behind(g, s);
        emit(&mut r, port_blocked_issue(g, s, sp, names, total));
    } else if peers.len() > 0 && is_routed(g, s) {
        emit(&mut r, port_restricted_issue(g, s, sp, sorted_distinct(&peers)));
    }
    r
}

/// The issues of the first `n` ports of a service.
pub open spec fn ports_issues(g: ClusterGraph, s: ServiceInfo, n: int) -> Seq<IssueView> {
    pick::gather(
        n,
        |j: int|
            port_issue(g, s, s.ports_detail@[j]),
    )
}

fn issues_of_ports(g: &ClusterGraph, s: &ServiceInfo) -> (r: Vec<Issue>)
    ensures
        model::views(r@) == ports_issues(*g, *s, s.ports_detail@.len() as int),
{
    let mut r: Vec<Issue> = no_issues();
    let mut j: usize = 0;
    while j < s.ports_detail.len()
        invariant
            j <= s.ports_detail@.len(),
            model::views(r@) == ports_issues(*g, *s, j as int),
        decreases s.ports_detail@.len() - j,
    {
        emit_all(&mut r, issues_of_port(g, s, &s.ports_detail[j]));
        j = j + 1;
    }
    r
}

/// The issues of the first `n` services whose pods are known.
pub open spec fn inbound_issues(g: ClusterGraph, n: int) -> Seq<IssueView> {
    pick::gather(
        n,
        |i: int|
            if g.services@[i].pods@.len() > 0 {
                ports_issues(
                    g,
                    g.services@[i],
                    g.services@[i].ports_detail@.len() as int,
                )
            } else {
                Seq::empty()
            },
    )
}

fn inbound_rules(g: &ClusterGraph) -> (r: Vec<Issue>)
    ensures
        model::views(r@) == inbound_issues(*g, g.services@.len() as int),
{
    let mut r: Vec<Issue> = no_issues();
    let mut i: usize = 0;
    while i < g.services.len()
        invariant
            i <= g.services@.len(),
            model::views(r@) == inbound_issues(*g, i as int),
        decreases g.services@.len() - i,
    {
        if g.services[i].pods.len() > 0 {
            emit_all(&mut r, issues_of_ports(g, &g.services[i]));
        }
        i = i + 1;
    }
    r
}

/// Does the policy at an index restrict what a pod reaches?
pub open spec fn confines(g: ClusterGraph, p: PodInfo, k: int) -> bool {
    g.network_policies@[k].egress_type && np_selects(g.network_policies@[k], p)
}

fn is_confining(g: &ClusterGraph, p: &PodInfo, k: usize) -> (r: bool)
    requires
        k < g.network_policies@.len(),
    ensures
        r == confines(*g, *p, k as int),
{
    g.network_policies[k].egress_type && applies_to(&g.network_policies[k], p)
}

/// Does a rule let DNS through, over either protocol?
pub open spec fn allows_dns(r: NpRule) -> bool {
    rule_allows_port(r, 53, Some("dns"@), "UDP"@) || rule_allows_port(
        r,
        53,
        Some("dns-tcp"@),
        "TCP"@,
    )
}

fn lets_dns(r: &NpRule) -> (b: bool)
    ensures
        b == allows_dns(*r),
{
    allows(r, 53, &Some("dns".to_owned()), "UDP") || allows(r, 53, &Some("dns-tcp".to_owned()), "TCP")
}

/// Does one of the first `n` rules let DNS through?
pub open spec fn rules_allow_dns(rules: Seq<NpRule>, n: int) -> bool {
    pick::any(n, |i: int| allows_dns(rules[i]))
}

fn any_rule_lets_dns(rules: &Vec<NpRule>) -> (r: bool)
    ensures
        r == rules_allow_dns(rules@, rules@.len() as int),
{
    let mut r: bool = false;
    let mut i: usize = 0;
    while i < rules.len()
        invariant
            i <= rules@.len(),
            r == rules_allow_dns(rules@, i as int),
        decreases rules@.len() - i,
    {
        if lets_dns(&rules[i]) {
            r = true;
        }
        i = i + 1;
    }
    r
}

/// Does a policy restrict what a pod reaches?
pub open spec fn confined(g: ClusterGraph, p: PodInfo, n: int) -> bool {
    pick::any(n, |k: int| confines(g, p, k))
}

fn is_confined(g: &ClusterGraph, p: &PodInfo) -> (r: bool)
    ensures
        r == confined(*g, *p, g.network_policies@.len() as int),
{
    let mut r: bool = false;
    let mut k: usize = 0;
    while k < g.network_policies.len()
        invariant
            k <= g.network_policies@.len(),
            r == confined(*g, *p, k as int),
        decreases g.network_policies@.len() - k,
    {
        if is_confining(g, p, k) {
            r = true;
        }
        k = k + 1;
    }
    r
}

/// Does a policy of the pod let DNS through?
pub open spec fn reaches_dns(g: ClusterGraph, p: PodInfo, n: int) -> bool {
    pick::any(n, |k: int| confines(g, p, k) && rules_allow_dns(
            g.network_policies@[k].egress@,
            g.network_policies@[k].egress@.len() as int,
    ))
}

fn can_reach_dns(g: &ClusterGraph, p: &PodInfo) -> (r: bool)
    ensures
        r == reaches_dns(*g, *p, g.network_policies@.len() as int),
{
    let mut r: bool = false;
    let mut k: usize = 0;
    while k < g.network_policies.len()
        invariant
            k <= g.network_policies@.len(),
            r == reaches_dns(*g, *p, k as int),
        decreases g.network_policies@.len() - k,
    {
        if is_confining(g, p, k) && any_rule_lets_dns(&g.network_policies[k].egress) {
            r = true;
        }
        k = k + 1;
    }
    r
}

/// Does the policy at an index perhaps restrict what a pod reaches?
pub open spec fn may_confine(g: ClusterGraph, p: PodInfo, k: int) -> bool {
    g.network_policies@[k].egress_type && may_select(g.network_policies@[k], p)
}

fn is_perhaps_confining(g: &ClusterGraph, p: &PodInfo, k: usize) -> (r: bool)
    requires
        k < g.network_policies@.len(),
    ensures
        r == may_confine(*g, *p, k as int),
{
    g.network_policies[k].egress_type && may_apply_to(&g.network_policies[k], p)
}

/// Does a policy that may apply to the pod let DNS through?
pub open spec fn may_reach_dns(g: ClusterGraph, p: PodInfo, n: int) -> bool {
    pick::any(
        n,
        |k: int|
            may_confine(g, p, k) && rules_allow_dns(
                g.network_policies@[k].egress@,
                g.network_policies@[k].egress@.len() as int,
            ),
    )
}

fn can_perhaps_reach_dns(g: &ClusterGraph, p: &PodInfo) -> (r: bool)
    ensures
        r == may_reach_dns(*g, *p, g.network_policies@.len() as int),
{
    let mut r: bool = false;
    let mut k: usize = 0;
    while k < g.network_policies.len()
        invariant
            k <= g.network_policies@.len(),
            r == may_reach_dns(*g, *p, k as int),
        decreases g.network_policies@.len() - k,
    {
        if is_perhaps_confining(g, p, k) && any_rule_lets_dns(&g.network_policies[k].egress) {
            r = true;
        }
        k = k + 1;
    }
    r
}

/// Does a policy that applies to the pod, or may, let anything out?
pub open spec fn reaches_some(g: ClusterGraph, p: PodInfo, n: int) -> bool {
    pick::any(
        n,
        |k: int|
            (confines(g, p, k) || may_confine(g, p, k)) && g.network_policies@[k].egress@.len() > 0,
    )
}

fn can_reach_some(g: &ClusterGraph, p: &PodInfo) -> (r: bool)
    ensures
        r == reaches_some(*g, *p, g.network_policies@.len() as int),
{
    let mut r: bool = false;
    let mut k: usize = 0;
    while k < g.network_policies.len()
        invariant
            k <= g.network_policies@.len(),
            r == reaches_some(*g, *p, k as int),
        decreases g.network_policies@.len() - k,
    {
        if (is_confining(g, p, k) || is_perhaps_confining(g, p, k))
            && g.network_policies[k].egress.len() > 0 {
            r = true;
        }
        k = k + 1;
    }
    r
}

/// What the policies that restrict what a pod reaches allow.
pub open spec fn confining_lines(g: ClusterGraph, p: PodInfo, n: int) -> Seq<Seq<char>> {
    pick::gather(
        n,
        |k: int|
            if confines(g, p, k) {
                seq![policy_line(
                        g.network_policies@[k].name@,
                        g.network_policies@[k].egress@,
                        ": egress rules: none (denies all outbound)"@,
                )]
            } else {
                Seq::empty()
            },
    )
}

fn lines_of_confining(g: &ClusterGraph, p: &PodInfo) -> (r: Vec<String>)
    ensures
        text::strs(r@) == confining_lines(*g, *p, g.network_policies@.len() as int),
{
    let mut r: Vec<String> = no_lines();
    let mut k: usize = 0;
    while k < g.network_policies.len()
        invariant
            k <= g.network_policies@.len(),
            text::strs(r@) == confining_lines(*g, *p, k as int),
        decreases g.network_policies@.len() - k,
    {
        if is_confining(g, p, k) {
            say(&mut r, policy_text(
                    g.network_policies[k].name.as_str(),
                    &g.network_policies[k].egress,
                    ": egress rules: none (denies all outbound)",
            ));
        }
        k = k + 1;
    }
    r
}

/// Is a pod kept from DNS, whichever pods the policies with match expressions
/// select?
pub open spec fn without_dns(g: ClusterGraph, p: PodInfo) -> bool {
    let n = g.network_policies@.len() as int;
    (p.phase@ == "Running"@ || p.phase@ == "Pending"@) && confined(g, p, n) && !reaches_dns(g, p, n)
        && !may_reach_dns(g, p, n)
}

fn is_without_dns(g: &ClusterGraph, p: &PodInfo) -> (r: bool)
    ensures
        r == without_dns(*g, *p),
{
    (same(p.phase.as_str(), "Running") || same(p.phase.as_str(), "Pending")) && is_confined(g, p)
        && !can_reach_dns(g, p) && !can_perhaps_reach_dns(g, p)
}

/// The owners of the pods that are kept from DNS.
pub open spec fn outbound_owners(g: ClusterGraph, n: int) -> Seq<Seq<char>> {
    pick::keys(
        n,
        |i: int|
            if without_dns(g, g.pods@[i]) {
                Some(pod::owner(g.pods@[i]))
            } else {
                None
            },
    )
}

fn outbound_owner_list(g: &ClusterGraph) -> (r: Vec<String>)
    ensures
        text::strs(r@) == outbound_owners(*g, g.pods@.len() as int),
{
    let mut r: Vec<String> = no_lines();
    let mut i: usize = 0;
    while i < g.pods.len()
        invariant
            i <= g.pods@.len(),
            text::strs(r@) == outbound_owners(*g, i as int),
        decreases g.pods@.len() - i,
    {
        if is_without_dns(g, &g.pods[i]) {
            insert_key(&mut r, owner_of(&g.pods[i]));
        }
        i = i + 1;
    }
    r
}

/// The first of the pods of one owner.
pub open spec fn outbound_first(g: ClusterGraph, key: Seq<char>, n: int) -> Option<int> {
    pick::first(n, |i: int| without_dns(g, g.pods@[i]) && pod::owner(g.pods@[i]) == key)
}

fn outbound_first_of(g: &ClusterGraph, key: &str) -> (r: Option<usize>)
    ensures
        match r {
            Some(k) => k < g.pods@.len() && outbound_first(*g, key@, g.pods@.len() as int) == Some(
                k as int,
            ),
            None => outbound_first(*g, key@, g.pods@.len() as int) is None,
        },
{
    let mut r: Option<usize> = None;
    let mut i: usize = 0;
    while i < g.pods.len()
        invariant
            i <= g.pods@.len(),
            match r {
                Some(k) => k < i && outbound_first(*g, key@, i as int) == Some(k as int),
                None => outbound_first(*g, key@, i as int) is None,
            },
        decreases g.pods@.len() - i,
    {
        if r.is_none() && is_without_dns(g, &g.pods[i]) && same(owner_of(&g.pods[i]).as_str(), key) {
            r = Some(i);
        }
        i = i + 1;
    }
    r
}

/// The names of the pods of one owner.
pub open spec fn outbound_names(g: ClusterGraph, key: Seq<char>, n: int) -> Seq<Seq<char>> {
    pick::gather(
        n,
        |i: int|
            if without_dns(g, g.pods@[i]) && pod::owner(g.pods@[i]) == key {
                seq![g.pods@[i].name@]
            } else {
                Seq::empty()
            },
    )
}

fn outbound_names_of(g: &ClusterGraph, key: &str) -> (r: Vec<String>)
    ensures
        text::strs(r@) == outbound_names(*g, key@, g.pods@.len() as int),
{
    let mut r: Vec<String> = no_lines();
    let mut i: usize = 0;
    while i < g.pods.len()
        invariant
            i <= g.pods@.len(),
            text::strs(r@) == outbound_names(*g, key@, i as int),
        decreases g.pods@.len() - i,
    {
        if is_without_dns(g, &g.pods[i]) && same(owner_of(&g.pods[i]).as_str(), key) {
            say(&mut r, g.pods[i].name.clone());
        }
        i = i + 1;
    }
    r
}

/// The issue for the pods of one owner that are kept from DNS.
pub open spec fn dns_blocked(
    g: ClusterGraph,
    key: Seq<char>,
    p: PodInfo,
    names: Seq<Seq<char>>,
) -> IssueView {
    model::issue_view(
        "np-egress-dns:"@ + key,
        Severity::Critical,
        Layer::Pod,
        model::target_view(split::id_part(key, 0), p.namespace@, split::id_part(key, 2)),
        if reaches_some(g, p, g.network_policies@.len() as int) {
            "NetworkPolicy blocks DNS lookups from "@ + split::owner_name(key)
        } else {
            "NetworkPolicy blocks all outbound traffic from "@ + split::owner_name(key)
                + ", including DNS"@
        },
        "Egress policies select these pods but none allow port 53. Every hostname lookup fails, including other services in the cluster, so calls fail with name-resolution errors even though the targets are healthy."@,
        confining_lines(g, p, g.network_policies@.len() as int),
        "Add an egress rule allowing UDP and TCP port 53 to the kube-system namespace (where CoreDNS runs)."@,
        seq![
            "kubectl get networkpolicy -n "@ + p.namespace@ + " -o yaml"@,
            "kubectl exec -n "@ + p.namespace@ + " "@ + p.name@
                + " -- nslookup kubernetes.default"@,
        ],
        names,
    )
}

fn dns_blocked_issue(g: &ClusterGraph, key: &str, p: &PodInfo, names: Vec<String>) -> (r: Issue)
    ensures
        r@ == dns_blocked(*g, key@, *p, text::strs(names@)),
{
    let id: (String, String, String) = split_id(key);
    let who: String = owner_label(key);
    let title: String = if can_reach_some(g, p) {
        cat2("NetworkPolicy blocks DNS lookups from ", who.as_str())
    } else {
        cat3("NetworkPolicy blocks all outbound traffic from ", who.as_str(), ", including DNS")
    };
    issue(
        cat2("np-egress-dns:", key),
        Severity::Critical,
        Layer::Pod,
        target(id.0.as_str(), p.namespace.as_str(), id.2.as_str()),
        title,
        "Egress policies select these pods but none allow port 53. Every hostname lookup fails, including other services in the cluster, so calls fail with name-resolution errors even though the targets are healthy.".to_owned(),
        lines_of_confining(g, p),
        "Add an egress rule allowing UDP and TCP port 53 to the kube-system namespace (where CoreDNS runs).".to_owned(),
        lines2(
            cat3("kubectl get networkpolicy -n ", p.namespace.as_str(), " -o yaml"),
            cat5(
                "kubectl exec -n ",
                p.namespace.as_str(),
                " ",
                p.name.as_str(),
                " -- nslookup kubernetes.default",
            ),
        ),
        names,
    )
}

/// The issue for the pods of one owner.
pub open spec fn outbound_of(g: ClusterGraph, key: Seq<char>) -> Seq<IssueView> {
    match outbound_first(g, key, g.pods@.len() as int) {
        Some(i) => seq![
            dns_blocked(g, key, g.pods@[i], outbound_names(g, key, g.pods@.len() as int)),
        ],
        None => Seq::empty(),
    }
}

fn outbound_issue_of(g: &ClusterGraph, key: &str) -> (r: Vec<Issue>)
    ensures
        model::views(r@) == outbound_of(*g, key@),
{
    let mut r: Vec<Issue> = no_issues();
    match outbound_first_of(g, key) {
        Some(i) => {
            let names: Vec<String> = outbound_names_of(g, key);
            emit(&mut r, dns_blocked_issue(g, key, &g.pods[i], names));
        },
        None => {},
    }
    r
}

/// The issues for pods that are kept from DNS, by owner in rising order.
pub open spec fn outbound_issues(g: ClusterGraph) -> Seq<IssueView> {
    let keys = outbound_owners(g, g.pods@.len() as int);
    pick::gather(keys.len() as int, |k: int| outbound_of(g, keys[k]))
}

/// Pods that a policy keeps from DNS.
pub fn outbound_rules(g: &ClusterGraph) -> (out: Vec<Issue>)
    ensures
        model::views(out@) == outbound_issues(*g),
{
    let keys: Vec<String> = outbound_owner_list(g);
    let ghost ks = text::strs(keys@);
    let ghost f = |k: int| outbound_of(*g, ks[k]);
    let mut out: Vec<Issue> = no_issues();
    let mut k: usize = 0;
    while k < keys.len()
        invariant
            k <= keys.len(),
            ks == text::strs(keys@),
            f == (|k: int| outbound_of(*g, ks[k])),
            model::views(out@) == pick::gather(k as int, f),
        decreases keys.len() - k,
    {
        let part: Vec<Issue> = outbound_issue_of(g, keys[k].as_str());
        emit_all(&mut out, part);
        k = k + 1;
    }
    out
}

/// The issues that network policies cause.
pub open spec fn policy_issues(g: ClusterGraph) -> Seq<IssueView> {
    if g.network_policies@.len() == 0 {
        Seq::empty()
    } else {
        inbound_issues(g, g.services@.len() as int) + outbound_issues(g)
    }
}

/// What network policies keep from getting through.
pub fn network_policy_rules(g: &ClusterGraph) -> (out: Vec<Issue>)
    ensures
        model::views(out@) == policy_issues(*g),
{
    if g.network_policies.len() == 0 {
        return no_issues();
    }
    let mut out: Vec<Issue> = inbound_rules(g);
    emit_all(&mut out, outbound_rules(g));
    out
}

} // verus!
