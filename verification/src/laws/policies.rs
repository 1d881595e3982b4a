//! What network policies let through, and what is told of what they don't.

use crate::labels;
use crate::laws::reports;
use crate::laws::reports::{stands_under, told, told_of};
use crate::lettercase;
use crate::model::{
    ClusterGraph, IssueView, NetworkPolicyInfo, NpPort, NpRule, PodInfo, ServiceInfo,
    ServicePortInfo, Severity,
};
use crate::numeral;
use crate::pick;
use crate::rules::network;
use crate::rules::pod;
use crate::scan;
use crate::text;
use vstd::prelude::*;

verus! {

/// Does a port of a rule stand for this port of a pod? One of the same protocol
/// does where it has no port, where it has the port's number or a range with the
/// number in it, and where it has the name that the pod gives the port.
pub open spec fn stands_for(
    pp: NpPort,
    port: int,
    name: Option<Seq<char>>,
    protocol: Seq<char>,
) -> bool {
    &&& lettercase::same_letters(pp.protocol@, protocol)
    &&& {
        ||| pp.port is None
        ||| numeral::parse_i32(pp.port->0@) == Some(port)
        ||| (pp.end_port is Some && numeral::parse_i32(pp.port->0@) is Some
            && numeral::parse_i32(pp.port->0@)->0 <= port <= pp.end_port->0)
        ||| (numeral::parse_i32(pp.port->0@) is None && name == Some(pp.port->0@))
    }
}

/// Does a rule admit the port? One without ports admits all.
pub open spec fn admits(r: NpRule, port: int, name: Option<Seq<char>>, protocol: Seq<char>) -> bool {
    r.ports@.len() == 0 || exists|m: int|
        0 <= m < r.ports@.len() && stands_for(#[trigger] r.ports@[m], port, name, protocol)
}

/// Does one of the rules admit the port?
pub open spec fn one_admits(
    rules: Seq<NpRule>,
    port: int,
    name: Option<Seq<char>>,
    protocol: Seq<char>,
) -> bool {
    exists|r: int| 0 <= r < rules.len() && admits(#[trigger] rules[r], port, name, protocol)
}

/// Does the policy choose the pod by its labels? Without labels it chooses every
/// pod of its namespace.
pub open spec fn chooses(np: NetworkPolicyInfo, p: PodInfo) -> bool {
    np.namespace@ == p.namespace@ && !np.selector_complex && forall|i: int|
        0 <= i < np.pod_selector@.len() ==> labels::lookup(
            p.labels@,
            (#[trigger] np.pod_selector@[i]).0,
        ) == Some(np.pod_selector@[i].1)
}

/// Might the policy choose the pod? One with match expressions might.
pub open spec fn might_choose(np: NetworkPolicyInfo, p: PodInfo) -> bool {
    np.namespace@ == p.namespace@ && np.selector_complex
}

/// Does the service port lead to this port of the pod, with this name?
pub open spec fn leads_to(
    sp: ServicePortInfo,
    p: PodInfo,
    port: int,
    name: Option<Seq<char>>,
) -> bool {
    if numeral::parse_i32(sp.target@) is Some {
        port == numeral::parse_i32(sp.target@)->0 && ({
            ||| (exists|c: int| #[trigger] first_numbered(p, port, c) && name == text::opt(
                p.container_ports@[c].name,
            ))
            ||| (name is None && forall|c: int|
                0 <= c < p.container_ports@.len() ==> (#[trigger] p.container_ports@[c]).port
                    != port)
        })
    } else {
        name == Some(sp.target@) && exists|c: int| #[trigger]
            first_named(p, sp.target@, c) && port == p.container_ports@[c].port
    }
}

/// Is this the first container port with the number?
pub open spec fn first_numbered(p: PodInfo, port: int, c: int) -> bool {
    0 <= c < p.container_ports@.len() && p.container_ports@[c].port == port && forall|d: int|
        0 <= d < c ==> (#[trigger] p.container_ports@[d]).port != port
}

/// Is this the first container port with the name?
pub open spec fn first_named(p: PodInfo, name: Seq<char>, c: int) -> bool {
    0 <= c < p.container_ports@.len() && text::opt(p.container_ports@[c].name) == Some(name)
        && forall|d: int|
        0 <= d < c ==> text::opt((#[trigger] p.container_ports@[d]).name) != Some(name)
}

/// Does an ingress policy choose the pod?
pub open spec fn is_guarded(g: ClusterGraph, p: PodInfo) -> bool {
    exists|k: int|
        0 <= k < g.network_policies@.len() && (#[trigger] g.network_policies@[k]).ingress_type
            && chooses(g.network_policies@[k], p)
}

/// Does an ingress policy that chooses the pod, or might, admit the port?
pub open spec fn is_open(
    g: ClusterGraph,
    p: PodInfo,
    port: int,
    name: Option<Seq<char>>,
    protocol: Seq<char>,
) -> bool {
    exists|k: int|
        0 <= k < g.network_policies@.len() && (#[trigger] g.network_policies@[k]).ingress_type && (
        chooses(g.network_policies@[k], p) || might_choose(g.network_policies@[k], p))
            && one_admits(g.network_policies@[k].ingress@, port, name, protocol)
}

proof fn lemma_covers(pp: NpPort, port: int, name: Option<Seq<char>>, protocol: Seq<char>)
    ensures
        network::port_covers(pp, port, name, protocol) == stands_for(pp, port, name, protocol),
{
}

proof fn lemma_admits(r: NpRule, port: int, name: Option<Seq<char>>, protocol: Seq<char>)
    ensures
        network::rule_allows_port(r, port, name, protocol) == admits(r, port, name, protocol),
{
    let n = r.ports@.len() as int;
    let f = |k: int| network::port_covers(r.ports@[k], port, name, protocol);
    pick::lemma_any(n, f);
    assert(network::ports_cover(r, port, name, protocol, n) == pick::any(n, f));
    if pick::any(n, f) {
        let m = choose|m: int| 0 <= m < n && #[trigger] f(m);
        lemma_covers(r.ports@[m], port, name, protocol);
    }
    if exists|m: int| 0 <= m < n && stands_for(#[trigger] r.ports@[m], port, name, protocol) {
        let m = choose|m: int|
            0 <= m < n && stands_for(#[trigger] r.ports@[m], port, name, protocol);
        lemma_covers(r.ports@[m], port, name, protocol);
        assert(f(m));
    }
}

proof fn lemma_rules(rules: Seq<NpRule>, port: int, name: Option<Seq<char>>, protocol: Seq<char>)
    ensures
        network::rules_allow(rules, port, name, protocol, rules.len() as int) == one_admits(
            rules,
            port,
            name,
            protocol,
        ),
{
    let n = rules.len() as int;
    let f = |i: int| network::rule_allows_port(rules[i], port, name, protocol);
    pick::lemma_any(n, f);
    assert(network::rules_allow(rules, port, name, protocol, n) == pick::any(n, f));
    if pick::any(n, f) {
        let m = choose|m: int| 0 <= m < n && #[trigger] f(m);
        lemma_admits(rules[m], port, name, protocol);
    }
    if one_admits(rules, port, name, protocol) {
        let m = choose|m: int| 0 <= m < n && admits(#[trigger] rules[m], port, name, protocol);
        lemma_admits(rules[m], port, name, protocol);
        assert(f(m));
    }
}

proof fn lemma_chooses(np: NetworkPolicyInfo, p: PodInfo)
    ensures
        network::np_selects(np, p) == chooses(np, p),
        network::may_select(np, p) == might_choose(np, p),
{
}

proof fn lemma_guarded(g: ClusterGraph, p: PodInfo)
    ensures
        network::guarded(g, p, g.network_policies@.len() as int) == is_guarded(g, p),
{
    let n = g.network_policies@.len() as int;
    let f = |k: int| network::guards(g, p, k);
    pick::lemma_any(n, f);
    assert(network::guarded(g, p, n) == pick::any(n, f));
    if pick::any(n, f) {
        let k = choose|k: int| 0 <= k < n && #[trigger] f(k);
        lemma_chooses(g.network_policies@[k], p);
    }
    if is_guarded(g, p) {
        let k = choose|k: int|
            0 <= k < n && (#[trigger] g.network_policies@[k]).ingress_type && chooses(
                g.network_policies@[k],
                p,
            );
        lemma_chooses(g.network_policies@[k], p);
        assert(f(k));
    }
}

proof fn lemma_open(
    g: ClusterGraph,
    p: PodInfo,
    port: int,
    name: Option<Seq<char>>,
    protocol: Seq<char>,
    n: int,
)
    requires
        0 <= n <= g.network_policies@.len(),
    ensures
        network::let_in(g, p, port, name, protocol, n) <==> exists|k: int|
            0 <= k < n && (#[trigger] g.network_policies@[k]).ingress_type && chooses(
                g.network_policies@[k],
                p,
            ) && one_admits(g.network_policies@[k].ingress@, port, name, protocol),
        network::may_let_in(g, p, port, name, protocol, n) <==> exists|k: int|
            0 <= k < n && (#[trigger] g.network_policies@[k]).ingress_type && might_choose(
                g.network_policies@[k],
                p,
            ) && one_admits(g.network_policies@[k].ingress@, port, name, protocol),
    decreases n,
{
    if n > 0 {
        lemma_open(g, p, port, name, protocol, n - 1);
        let np = g.network_policies@[n - 1];
        lemma_chooses(np, p);
        lemma_rules(np.ingress@, port, name, protocol);
        if np.ingress_type && (chooses(np, p) || might_choose(np, p)) && one_admits(
            np.ingress@,
            port,
            name,
            protocol,
        ) {
            assert(g.network_policies@[n - 1].ingress_type);
        }
    }
}

proof fn lemma_numbered(p: PodInfo, port: int, n: int)
    requires
        0 <= n <= p.container_ports@.len(),
    ensures
        match network::port_numbered(p, port, n) {
            Some(c) => c < n && first_numbered(p, port, c),
            None => forall|c: int|
                0 <= c < n ==> (#[trigger] p.container_ports@[c]).port != port,
        },
    decreases n,
{
    if n > 0 {
        lemma_numbered(p, port, n - 1);
    }
}

pub proof fn lemma_named(p: PodInfo, name: Seq<char>, n: int)
    requires
        0 <= n <= p.container_ports@.len(),
    ensures
        match network::port_named(p, name, n) {
            Some(c) => c < n && first_named(p, name, c),
            None => forall|c: int|
                0 <= c < n ==> text::opt((#[trigger] p.container_ports@[c]).name) != Some(name),
        },
    decreases n,
{
    if n > 0 {
        lemma_named(p, name, n - 1);
    }
}

/// A service port leads to one port of a pod at most.
proof fn lemma_leads(sp: ServicePortInfo, p: PodInfo)
    ensures
        forall|port: int, name: Option<Seq<char>>| #[trigger]
            leads_to(sp, p, port, name) <==> network::resolve_target(sp, p) == Some((port, name)),
{
    let n = p.container_ports@.len() as int;
    if numeral::parse_i32(sp.target@) is Some {
        lemma_numbered(p, numeral::parse_i32(sp.target@)->0, n);
    } else {
        lemma_named(p, sp.target@, n);
    }
    assert forall|port: int, name: Option<Seq<char>>| #[trigger]
        leads_to(sp, p, port, name) <==> network::resolve_target(sp, p) == Some((port, name)) by {
        if numeral::parse_i32(sp.target@) is Some {
            let q = numeral::parse_i32(sp.target@)->0;
            match network::port_numbered(p, q, n) {
                Some(c) => {
                    assert(first_numbered(p, q, c));
                    if leads_to(sp, p, port, name) {
                        assert(p.container_ports@[c].port == port);
                        let d = choose|d: int| #[trigger]
                            first_numbered(p, port, d) && name == text::opt(
                                p.container_ports@[d].name,
                            );
                        if d < c {
                            assert(p.container_ports@[d].port != port);
                        } else if c < d {
                            assert(p.container_ports@[c].port != port);
                        }
                    }
                },
                None => {},
            }
        } else {
            match network::port_named(p, sp.target@, n) {
                Some(c) => {
                    assert(first_named(p, sp.target@, c));
                    if leads_to(sp, p, port, name) {
                        let d = choose|d: int| #[trigger]
                            first_named(p, sp.target@, d) && port == p.container_ports@[d].port;
                        if d < c {
                            assert(text::opt(p.container_ports@[d].name) != Some(sp.target@));
                        } else if c < d {
                            assert(text::opt(p.container_ports@[c].name) != Some(sp.target@));
                        }
                    }
                },
                None => {},
            }
        }
    }
}

/// Is the pod shut off from what comes through the service port: chosen by an
/// ingress policy, with no policy that admits the port?
pub open spec fn is_shut(g: ClusterGraph, sp: ServicePortInfo, p: PodInfo) -> bool {
    is_guarded(g, p) && exists|port: int, name: Option<Seq<char>>| #[trigger]
        leads_to(sp, p, port, name) && !is_open(g, p, port, name, sp.protocol@)
}

/// A pod counts as shut off from a service port exactly where an ingress policy
/// chooses it and no rule of a policy that chooses it, or might, admits the port.
pub proof fn pods_are_shut_off_where_no_rule_admits_them(
    g: ClusterGraph,
    sp: ServicePortInfo,
    p: PodInfo,
)
    ensures
        network::shut_off(g, sp, p) <==> is_shut(g, sp, p),
{
    let n = g.network_policies@.len() as int;
    lemma_guarded(g, p);
    lemma_leads(sp, p);
    match network::resolve_target(sp, p) {
        Some(t) => {
            assert(leads_to(sp, p, t.0, t.1));
            lemma_open(g, p, t.0, t.1, sp.protocol@, n);
            if is_open(g, p, t.0, t.1, sp.protocol@) {
                let k = choose|k: int|
                    0 <= k < n && (#[trigger] g.network_policies@[k]).ingress_type && (chooses(
                        g.network_policies@[k],
                        p,
                    ) || might_choose(g.network_policies@[k], p)) && one_admits(
                        g.network_policies@[k].ingress@,
                        t.0,
                        t.1,
                        sp.protocol@,
                    );
                assert(g.network_policies@[k].ingress_type);
            }
        },
        None => {},
    }
}

/// A rule that names a port by the name that the pod gives it admits the port:
/// the pod is not shut off.
pub proof fn named_ports_are_admitted(
    g: ClusterGraph,
    sp: ServicePortInfo,
    p: PodInfo,
    port: int,
    k: int,
    r: int,
    m: int,
)
    requires
        0 <= k < g.network_policies@.len(),
        g.network_policies@[k].ingress_type,
        chooses(g.network_policies@[k], p) || might_choose(g.network_policies@[k], p),
        0 <= r < g.network_policies@[k].ingress@.len(),
        0 <= m < g.network_policies@[k].ingress@[r].ports@.len(),
        g.network_policies@[k].ingress@[r].ports@[m].port is Some,
        numeral::parse_i32(g.network_policies@[k].ingress@[r].ports@[m].port->0@) is None,
        lettercase::same_letters(
            g.network_policies@[k].ingress@[r].ports@[m].protocol@,
            sp.protocol@,
        ),
        leads_to(sp, p, port, Some(g.network_policies@[k].ingress@[r].ports@[m].port->0@)),
    ensures
        !network::shut_off(g, sp, p),
{
    let rule = g.network_policies@[k].ingress@[r];
    let name = Some(rule.ports@[m].port->0@);
    assert(stands_for(rule.ports@[m], port, name, sp.protocol@));
    assert(admits(rule, port, name, sp.protocol@));
    assert(one_admits(g.network_policies@[k].ingress@, port, name, sp.protocol@));
    assert(is_open(g, p, port, name, sp.protocol@));
    pods_are_shut_off_where_no_rule_admits_them(g, sp, p);
    lemma_leads(sp, p);
}

/// Is the pod at an index one of the service's?
pub open spec fn belongs(g: ClusterGraph, s: ServiceInfo, i: int) -> bool {
    g.pods@[i].namespace@ == s.namespace@ && exists|k: int|
        0 <= k < s.pods@.len() && (#[trigger] s.pods@[k])@ == g.pods@[i].name@
}

pub proof fn lemma_belongs(g: ClusterGraph, s: ServiceInfo, i: int)
    ensures
        network::behind(g, s, i) == belongs(g, s, i),
{
    let all = text::strs(s.pods@);
    if all.contains(g.pods@[i].name@) {
        let k = choose|k: int| 0 <= k < all.len() && all[k] == g.pods@[i].name@;
        assert(s.pods@[k]@ == g.pods@[i].name@);
    }
    if exists|k: int| 0 <= k < s.pods@.len() && (#[trigger] s.pods@[k])@ == g.pods@[i].name@ {
        let k = choose|k: int| 0 <= k < s.pods@.len() && (#[trigger] s.pods@[k])@ == g.pods@[i].name@;
        assert(all[k] == g.pods@[i].name@);
    }
}

/// Are all pods of the service shut off from the port?
pub open spec fn all_shut(g: ClusterGraph, s: ServiceInfo, sp: ServicePortInfo, n: int) -> bool {
    forall|i: int| 0 <= i < n && #[trigger] belongs(g, s, i) ==> is_shut(g, sp, g.pods@[i])
}

/// Is a pod of the service shut off from the port?
pub open spec fn one_shut(g: ClusterGraph, s: ServiceInfo, sp: ServicePortInfo, n: int) -> bool {
    exists|i: int| 0 <= i < n && #[trigger] belongs(g, s, i) && is_shut(g, sp, g.pods@[i])
}

proof fn lemma_blocked(g: ClusterGraph, s: ServiceInfo, sp: ServicePortInfo, n: int)
    requires
        0 <= n <= g.pods@.len(),
    ensures
        network::blocked(g, s, sp, n).len() <= network::pods_behind(g, s, n),
        network::blocked(g, s, sp, n).len() == network::pods_behind(g, s, n) <==> all_shut(
            g,
            s,
            sp,
            n,
        ),
        network::blocked(g, s, sp, n).len() > 0 <==> one_shut(g, s, sp, n),
        forall|i: int|
            0 <= i < n && #[trigger] belongs(g, s, i) && is_shut(g, sp, g.pods@[i])
                ==> network::blocked(g, s, sp, n).contains(g.pods@[i].name@),
    decreases n,
{
    if n > 0 {
        lemma_blocked(g, s, sp, n - 1);
        lemma_belongs(g, s, n - 1);
        pods_are_shut_off_where_no_rule_admits_them(g, sp, g.pods@[n - 1]);
        let a = network::blocked(g, s, sp, n - 1);
        let b = network::blocked(g, s, sp, n);
        if belongs(g, s, n - 1) && is_shut(g, sp, g.pods@[n - 1]) {
            assert(b[a.len() as int] == g.pods@[n - 1].name@);
        }
        assert forall|i: int|
            0 <= i < n && #[trigger] belongs(g, s, i) && is_shut(g, sp, g.pods@[i]) implies b.contains(
            g.pods@[i].name@,
        ) by {
            if i < n - 1 {
                let k = choose|k: int| 0 <= k < a.len() && a[k] == g.pods@[i].name@;
                assert(b[k] == g.pods@[i].name@);
            }
        }
    }
}

/// The id of an issue about a service port.
pub open spec fn port_id(what: Seq<char>, s: ServiceInfo, sp: ServicePortInfo) -> Seq<char> {
    what + s.namespace@ + "/"@ + s.name@ + ":"@ + numeral::dec(sp.port as int)
}

proof fn lemma_port_told(g: ClusterGraph, i: int, j: int, x: IssueView)
    requires
        0 <= i < g.services@.len(),
        0 <= j < g.services@[i].ports_detail@.len(),
        g.services@[i].pods@.len() > 0,
        g.network_policies@.len() > 0,
        network::port_issue(g, g.services@[i], g.services@[i].ports_detail@[j]).contains(x),
    ensures
        told(g, x.id, x.severity),
        forall|p: Seq<char>| x.pods.contains(p) ==> #[trigger] told_of(g, x.id, x.severity, p),
{
    let s = g.services@[i];
    let n = s.ports_detail@.len() as int;
    let m = g.services@.len() as int;
    let f = |j: int| network::port_issue(g, s, s.ports_detail@[j]);
    reports::lemma_gathered(n, f, j, x);
    assert(network::ports_issues(g, s, n) == pick::gather(n, f));
    let e = |i: int|
        if g.services@[i].pods@.len() > 0 {
            network::ports_issues(g, g.services@[i], g.services@[i].ports_detail@.len() as int)
        } else {
            Seq::empty()
        };
    reports::lemma_gathered(m, e, i, x);
    assert(network::inbound_issues(g, m) == pick::gather(m, e));
    reports::lemma_either(network::inbound_issues(g, m), network::outbound_issues(g), x);
    reports::lemma_told(g, x);
}

/// A pod of a service that the policies shut off from a port of the service is
/// told of. That is critical exactly where all pods of the service are.
pub proof fn blocked_ports_are_told_of(g: ClusterGraph, i: int, j: int, q: int)
    requires
        0 <= i < g.services@.len(),
        0 <= j < g.services@[i].ports_detail@.len(),
        0 <= q < g.pods@.len(),
        belongs(g, g.services@[i], q),
        is_shut(g, g.services@[i].ports_detail@[j], g.pods@[q]),
    ensures
        told_of(
            g,
            port_id("np-ingress-blocked:"@, g.services@[i], g.services@[i].ports_detail@[j]),
            if all_shut(
                g,
                g.services@[i],
                g.services@[i].ports_detail@[j],
                g.pods@.len() as int,
            ) {
                Severity::Critical
            } else {
                Severity::Warning
            },
            g.pods@[q].name@,
        ),
{
    let s = g.services@[i];
    let sp = s.ports_detail@[j];
    lemma_blocked(g, s, sp, g.pods@.len() as int);
    let x = network::port_issue(g, s, sp)[0];
    assert(network::port_issue(g, s, sp).contains(x));
    lemma_port_told(g, i, j, x);
}

/// Does an ingress of the namespace route to the service?
pub open spec fn is_routed(g: ClusterGraph, s: ServiceInfo) -> bool {
    exists|i: int, j: int|
        0 <= i < g.ingresses@.len() && 0 <= j < g.ingresses@[i].routes@.len()
            && #[trigger] routes_to(g, i, j, s)
}

/// Does the route lead to the service?
pub open spec fn routes_to(g: ClusterGraph, i: int, j: int, s: ServiceInfo) -> bool {
    g.ingresses@[i].namespace@ == s.namespace@ && g.ingresses@[i].routes@[j].service@ == s.name@
}

proof fn lemma_routes(g: ClusterGraph, i: int, s: ServiceInfo, n: int)
    requires
        0 <= i < g.ingresses@.len(),
        0 <= n <= g.ingresses@[i].routes@.len(),
        g.ingresses@[i].namespace@ == s.namespace@,
    ensures
        network::routes_lead_to(g, i, s, n) <==> exists|j: int|
            0 <= j < n && #[trigger] routes_to(g, i, j, s),
    decreases n,
{
    if n > 0 {
        lemma_routes(g, i, s, n - 1);
        if g.ingresses@[i].routes@[n - 1].service@ == s.name@ {
            assert(routes_to(g, i, n - 1, s));
        }
    }
}

proof fn lemma_routed(g: ClusterGraph, s: ServiceInfo, n: int)
    requires
        0 <= n <= g.ingresses@.len(),
    ensures
        network::routed(g, s, n) <==> exists|i: int, j: int|
            0 <= i < n && 0 <= j < g.ingresses@[i].routes@.len() && #[trigger] routes_to(
                g,
                i,
                j,
                s,
            ),
    decreases n,
{
    if n > 0 {
        lemma_routed(g, s, n - 1);
        if g.ingresses@[n - 1].namespace@ == s.namespace@ {
            lemma_routes(g, n - 1, s, g.ingresses@[n - 1].routes@.len() as int);
        }
    }
}

/// Nothing is told of a service port from which no pod is shut off, where no
/// ingress routes to the service.
pub proof fn open_ports_are_left_alone(g: ClusterGraph, s: ServiceInfo, sp: ServicePortInfo)
    requires
        !one_shut(g, s, sp, g.pods@.len() as int),
        !is_routed(g, s),
    ensures
        network::port_issue(g, s, sp).len() == 0,
{
    lemma_blocked(g, s, sp, g.pods@.len() as int);
    lemma_routed(g, s, g.ingresses@.len() as int);
}

/// Is the rule open to sources that are not particular ones: without peers, or
/// with all namespaces or an address block among them?
pub open spec fn is_wide(r: NpRule) -> bool {
    r.peers@.len() == 0 || exists|k: int|
        0 <= k < r.peers@.len() && ((#[trigger] r.peers@[k])@ == "all namespaces"@
            || scan::starts_with(r.peers@[k]@, "ipBlock"@))
}

proof fn lemma_wide(r: NpRule, n: int)
    requires
        0 <= n <= r.peers@.len(),
    ensures
        network::broad_peer(r, n) <==> exists|k: int|
            0 <= k < n && ((#[trigger] r.peers@[k])@ == "all namespaces"@ || scan::starts_with(
                r.peers@[k]@,
                "ipBlock"@,
            )),
    decreases n,
{
    if n > 0 {
        lemma_wide(r, n - 1);
        if r.peers@[n - 1]@ == "all namespaces"@ || scan::starts_with(
            r.peers@[n - 1]@,
            "ipBlock"@,
        ) {
            assert(0 <= n - 1 < n);
        }
    }
}

/// Is the pod open on the port to particular sources only, one of them this one?
pub open spec fn is_open_to(
    g: ClusterGraph,
    sp: ServicePortInfo,
    p: PodInfo,
    port: int,
    name: Option<Seq<char>>,
    peer: Seq<char>,
) -> bool {
    &&& leads_to(sp, p, port, name)
    &&& exists|k: int, r: int, m: int| #[trigger]
        peer_admitted(g, p, port, name, sp.protocol@, k, r, m) && g.network_policies@[k].ingress@[r].peers@[m]@
            == peer
    &&& forall|k: int, r: int|
        0 <= k < g.network_policies@.len() && g.network_policies@[k].ingress_type && 0 <= r
            < g.network_policies@[k].ingress@.len() && #[trigger] admits(
            g.network_policies@[k].ingress@[r],
            port,
            name,
            sp.protocol@,
        ) ==> !might_choose(g.network_policies@[k], p) && (chooses(g.network_policies@[k], p)
            ==> !is_wide(g.network_policies@[k].ingress@[r]))
}

/// Is this a peer of a rule that admits the port, of a policy that chooses the
/// pod?
pub open spec fn peer_admitted(
    g: ClusterGraph,
    p: PodInfo,
    port: int,
    name: Option<Seq<char>>,
    protocol: Seq<char>,
    k: int,
    r: int,
    m: int,
) -> bool {
    &&& 0 <= k < g.network_policies@.len()
    &&& g.network_policies@[k].ingress_type
    &&& chooses(g.network_policies@[k], p)
    &&& 0 <= r < g.network_policies@[k].ingress@.len()
    &&& admits(g.network_policies@[k].ingress@[r], port, name, protocol)
    &&& 0 <= m < g.network_policies@[k].ingress@[r].peers@.len()
}

proof fn lemma_not_wide(
    g: ClusterGraph,
    p: PodInfo,
    port: int,
    name: Option<Seq<char>>,
    protocol: Seq<char>,
    n: int,
)
    requires
        0 <= n <= g.network_policies@.len(),
        forall|k: int, r: int|
            0 <= k < g.network_policies@.len() && g.network_policies@[k].ingress_type && 0 <= r
                < g.network_policies@[k].ingress@.len() && #[trigger] admits(
                g.network_policies@[k].ingress@[r],
                port,
                name,
                protocol,
            ) ==> !might_choose(g.network_policies@[k], p) && (chooses(g.network_policies@[k], p)
                ==> !is_wide(g.network_policies@[k].ingress@[r])),
    ensures
        !network::let_in_widely(g, p, port, name, protocol, n),
    decreases n,
{
    if n > 0 {
        lemma_not_wide(g, p, port, name, protocol, n - 1);
        let np = g.network_policies@[n - 1];
        lemma_chooses(np, p);
        let m = np.ingress@.len() as int;
        let f = |i: int|
            network::rule_allows_port(np.ingress@[i], port, name, protocol) && network::is_broad(
                np.ingress@[i],
            );
        pick::lemma_any(m, f);
        assert(network::rules_open(np.ingress@, port, name, protocol, m) == pick::any(m, f));
        if network::guards(g, p, n - 1) && pick::any(m, f) {
            let r = choose|r: int| 0 <= r < m && #[trigger] f(r);
            lemma_admits(np.ingress@[r], port, name, protocol);
            lemma_wide(np.ingress@[r], np.ingress@[r].peers@.len() as int);
            assert(admits(g.network_policies@[n - 1].ingress@[r], port, name, protocol));
        }
    }
}

/// Where a pod of a routed service is open to particular sources only, and none
/// of its pods is shut off, the sources are told of, as a warning.
pub proof fn restricted_ports_are_told_of(
    g: ClusterGraph,
    i: int,
    j: int,
    q: int,
    port: int,
    name: Option<Seq<char>>,
    peer: Seq<char>,
)
    requires
        0 <= i < g.services@.len(),
        0 <= j < g.services@[i].ports_detail@.len(),
        0 <= q < g.pods@.len(),
        belongs(g, g.services@[i], q),
        !one_shut(g, g.services@[i], g.services@[i].ports_detail@[j], g.pods@.len() as int),
        is_routed(g, g.services@[i]),
        is_open_to(g, g.services@[i].ports_detail@[j], g.pods@[q], port, name, peer),
    ensures
        told(
            g,
            port_id("np-ingress-restricted:"@, g.services@[i], g.services@[i].ports_detail@[j]),
            Severity::Warning,
        ),
{
    let s = g.services@[i];
    let sp = s.ports_detail@[j];
    let p = g.pods@[q];
    let n = g.pods@.len() as int;
    let m = g.network_policies@.len() as int;
    lemma_blocked(g, s, sp, n);
    lemma_routed(g, s, g.ingresses@.len() as int);
    lemma_leads(sp, p);
    lemma_guarded(g, p);
    lemma_open(g, p, port, name, sp.protocol@, m);
    lemma_not_wide(g, p, port, name, sp.protocol@, m);
    let (k, r, t) = choose|k: int, r: int, t: int| #[trigger]
        peer_admitted(g, p, port, name, sp.protocol@, k, r, t) && g.network_policies@[k].ingress@[r].peers@[t]@
            == peer;
    let np = g.network_policies@[k];
    assert(np.ingress_type);
    assert(admits(np.ingress@[r], port, name, sp.protocol@));
    assert(one_admits(np.ingress@, port, name, sp.protocol@));
    assert(network::let_in(g, p, port, name, sp.protocol@, m)) by {
        assert(g.network_policies@[k].ingress_type);
    }
    if network::may_let_in(g, p, port, name, sp.protocol@, m) {
        let a = choose|a: int|
            0 <= a < m && (#[trigger] g.network_policies@[a]).ingress_type && might_choose(
                g.network_policies@[a],
                p,
            ) && one_admits(g.network_policies@[a].ingress@, port, name, sp.protocol@);
        let b = choose|b: int|
            0 <= b < g.network_policies@[a].ingress@.len() && admits(
                #[trigger] g.network_policies@[a].ingress@[b],
                port,
                name,
                sp.protocol@,
            );
        assert(admits(g.network_policies@[a].ingress@[b], port, name, sp.protocol@));
    }
    // the peer is among those of the pod, and so of the service
    lemma_chooses(np, p);
    lemma_admits(np.ingress@[r], port, name, sp.protocol@);
    let f = |i: int|
        if network::rule_allows_port(np.ingress@[i], port, name, sp.protocol@) {
            text::strs(np.ingress@[i].peers@)
        } else {
            Seq::empty()
        };
    assert(f(r)[t] == peer);
    reports::lemma_gathered(np.ingress@.len() as int, f, r, peer);
    assert(network::admitted(np.ingress@, port, name, sp.protocol@, np.ingress@.len() as int)
        == pick::gather(np.ingress@.len() as int, f));
    let e = |k: int|
        if network::guards(g, p, k) {
            network::admitted(
                g.network_policies@[k].ingress@,
                port,
                name,
                sp.protocol@,
                g.network_policies@[k].ingress@.len() as int,
            )
        } else {
            Seq::empty()
        };
    assert(e(k).contains(peer));
    reports::lemma_gathered(m, e, k, peer);
    assert(network::peers_of(g, p, port, name, sp.protocol@, m) == pick::gather(m, e));
    assert(network::only_from(g, sp, p).contains(peer));
    lemma_belongs(g, s, q);
    let d = |i: int|
        if network::behind(g, s, i) {
            network::only_from(g, sp, g.pods@[i])
        } else {
            Seq::empty()
        };
    assert(d(q).contains(peer));
    reports::lemma_gathered(n, d, q, peer);
    assert(network::restricted(g, s, sp, n) == pick::gather(n, d));
    assert(network::restricted(g, s, sp, n).len() > 0);
    let x = network::port_issue(g, s, sp)[0];
    assert(network::port_issue(g, s, sp).contains(x));
    lemma_port_told(g, i, j, x);
}

/// Does the rule let DNS out?
pub open spec fn lets_dns_out(r: NpRule) -> bool {
    admits(r, 53, Some("dns"@), "UDP"@) || admits(r, 53, Some("dns-tcp"@), "TCP"@)
}

/// Does one of the policy's egress rules let DNS out?
pub open spec fn knows_dns(np: NetworkPolicyInfo) -> bool {
    exists|r: int| 0 <= r < np.egress@.len() && lets_dns_out(#[trigger] np.egress@[r])
}

/// Is the pod kept from DNS: alive, chosen by an egress policy, with no policy
/// that chooses it, or might, and lets DNS out?
pub open spec fn is_kept_from_dns(g: ClusterGraph, p: PodInfo) -> bool {
    &&& p.phase@ == "Running"@ || p.phase@ == "Pending"@
    &&& exists|k: int|
        0 <= k < g.network_policies@.len() && (#[trigger] g.network_policies@[k]).egress_type
            && chooses(g.network_policies@[k], p)
    &&& forall|k: int|
        0 <= k < g.network_policies@.len() && (#[trigger] g.network_policies@[k]).egress_type && (
        chooses(g.network_policies@[k], p) || might_choose(g.network_policies@[k], p))
            ==> !knows_dns(g.network_policies@[k])
}

proof fn lemma_knows_dns(np: NetworkPolicyInfo)
    ensures
        network::rules_allow_dns(np.egress@, np.egress@.len() as int) == knows_dns(np),
{
    let n = np.egress@.len() as int;
    let f = |i: int| network::allows_dns(np.egress@[i]);
    pick::lemma_any(n, f);
    assert(network::rules_allow_dns(np.egress@, n) == pick::any(n, f));
    if pick::any(n, f) {
        let r = choose|r: int| 0 <= r < n && #[trigger] f(r);
        lemma_admits(np.egress@[r], 53, Some("dns"@), "UDP"@);
        lemma_admits(np.egress@[r], 53, Some("dns-tcp"@), "TCP"@);
    }
    if knows_dns(np) {
        let r = choose|r: int| 0 <= r < n && lets_dns_out(#[trigger] np.egress@[r]);
        lemma_admits(np.egress@[r], 53, Some("dns"@), "UDP"@);
        lemma_admits(np.egress@[r], 53, Some("dns-tcp"@), "TCP"@);
        assert(f(r));
    }
}

proof fn lemma_outbound(g: ClusterGraph, p: PodInfo, n: int)
    requires
        0 <= n <= g.network_policies@.len(),
    ensures
        network::confined(g, p, n) <==> exists|k: int|
            0 <= k < n && (#[trigger] g.network_policies@[k]).egress_type && chooses(
                g.network_policies@[k],
                p,
            ),
        network::reaches_dns(g, p, n) || network::may_reach_dns(g, p, n) <==> exists|k: int|
            0 <= k < n && (#[trigger] g.network_policies@[k]).egress_type && (chooses(
                g.network_policies@[k],
                p,
            ) || might_choose(g.network_policies@[k], p)) && knows_dns(g.network_policies@[k]),
    decreases n,
{
    if n > 0 {
        lemma_outbound(g, p, n - 1);
        let np = g.network_policies@[n - 1];
        lemma_chooses(np, p);
        lemma_knows_dns(np);
        if np.egress_type {
            assert(g.network_policies@[n - 1].egress_type);
        }
    }
}

/// A pod counts as kept from DNS exactly where an egress policy chooses it and no
/// rule of a policy that chooses it, or might, lets DNS out.
pub proof fn pods_are_kept_from_dns_where_no_rule_lets_it_out(g: ClusterGraph, p: PodInfo)
    ensures
        network::without_dns(g, p) <==> is_kept_from_dns(g, p),
{
    lemma_outbound(g, p, g.network_policies@.len() as int);
}

/// A pod that is kept from DNS is told of, as critical.
pub proof fn pods_kept_from_dns_are_told_of(g: ClusterGraph, i: int, key: Seq<char>)
    requires
        0 <= i < g.pods@.len(),
        stands_under(g.pods@[i], key),
        is_kept_from_dns(g, g.pods@[i]),
    ensures
        told_of(g, "np-egress-dns:"@ + key, Severity::Critical, g.pods@[i].name@),
{
    let n = g.pods@.len() as int;
    pods_are_kept_from_dns_where_no_rule_lets_it_out(g, g.pods@[i]);
    assert(key == pod::owner(g.pods@[i]));
    let keys = network::outbound_owners(g, n);
    let own = |i: int|
        if network::without_dns(g, g.pods@[i]) {
            Some(pod::owner(g.pods@[i]))
        } else {
            None
        };
    pick::lemma_keys(n, own);
    assert(keys == pick::keys(n, own));
    assert(own(i) == Some(key));
    assert(keys.contains(key));
    let m = choose|m: int| 0 <= m < keys.len() && keys[m] == key;
    lemma_outbound_first(g, key, i, n);
    let x = network::outbound_of(g, key)[0];
    let all = |k: int| network::outbound_of(g, keys[k]);
    assert(all(m).contains(x));
    reports::lemma_gathered(keys.len() as int, all, m, x);
    assert(network::outbound_issues(g) == pick::gather(keys.len() as int, all));
    reports::lemma_either(
        network::inbound_issues(g, g.services@.len() as int),
        network::outbound_issues(g),
        x,
    );
    assert(g.network_policies@.len() > 0);
    reports::lemma_told(g, x);
}

proof fn lemma_outbound_first(g: ClusterGraph, key: Seq<char>, i: int, n: int)
    requires
        0 <= i < n,
        network::without_dns(g, g.pods@[i]),
        pod::owner(g.pods@[i]) == key,
    ensures
        network::outbound_first(g, key, n) is Some,
        network::outbound_names(g, key, n).contains(g.pods@[i].name@),
    decreases n,
{
    let a = network::outbound_names(g, key, n - 1);
    let b = network::outbound_names(g, key, n);
    if i < n - 1 {
        lemma_outbound_first(g, key, i, n - 1);
        let k = choose|k: int| 0 <= k < a.len() && a[k] == g.pods@[i].name@;
        assert(b[k] == g.pods@[i].name@);
    } else {
        assert(b[a.len() as int] == g.pods@[i].name@);
    }
}

/// An issue about policies is about a service port that is blocked or restricted,
/// or about pods that are kept from DNS.
pub proof fn only_what_policies_keep_out_is_told(g: ClusterGraph, x: IssueView)
    requires
        network::policy_issues(g).contains(x),
    ensures
        (exists|i: int, j: int|
            0 <= i < g.services@.len() && 0 <= j < g.services@[i].ports_detail@.len()
                && (#[trigger] network::port_issue(
                g,
                g.services@[i],
                g.services@[i].ports_detail@[j],
            )).contains(x)) || (exists|i: int|
            0 <= i < g.pods@.len() && is_kept_from_dns(g, #[trigger] g.pods@[i]) && x.id
                == "np-egress-dns:"@ + pod::owner(g.pods@[i])),
{
    let m = g.services@.len() as int;
    reports::lemma_either(network::inbound_issues(g, m), network::outbound_issues(g), x);
    if network::inbound_issues(g, m).contains(x) {
        let e = |i: int|
            if g.services@[i].pods@.len() > 0 {
                network::ports_issues(g, g.services@[i], g.services@[i].ports_detail@.len() as int)
            } else {
                Seq::empty()
            };
        assert(network::inbound_issues(g, m) == pick::gather(m, e));
        pick::lemma_gather_contains(m, e, x);
        let i = choose|i: int| 0 <= i < m && (#[trigger] e(i)).contains(x);
        let s = g.services@[i];
        let n = s.ports_detail@.len() as int;
        let f = |j: int| network::port_issue(g, s, s.ports_detail@[j]);
        assert(network::ports_issues(g, s, n) == pick::gather(n, f));
        pick::lemma_gather_contains(n, f, x);
        let j = choose|j: int| 0 <= j < n && (#[trigger] f(j)).contains(x);
        assert(network::port_issue(g, g.services@[i], g.services@[i].ports_detail@[j]).contains(x));
    } else {
        let n = g.pods@.len() as int;
        let keys = network::outbound_owners(g, n);
        let all = |k: int| network::outbound_of(g, keys[k]);
        assert(network::outbound_issues(g) == pick::gather(keys.len() as int, all));
        pick::lemma_gather_contains(keys.len() as int, all, x);
        let k = choose|k: int| 0 <= k < keys.len() && (#[trigger] all(k)).contains(x);
        let own = |i: int|
            if network::without_dns(g, g.pods@[i]) {
                Some(pod::owner(g.pods@[i]))
            } else {
                None
            };
        pick::lemma_keys(n, own);
        assert(keys == pick::keys(n, own));
        assert(keys.contains(keys[k]));
        let i = choose|i: int| 0 <= i < n && #[trigger] own(i) == Some(keys[k]);
        pods_are_kept_from_dns_where_no_rule_lets_it_out(g, g.pods@[i]);
        assert(x.id == "np-egress-dns:"@ + pod::owner(g.pods@[i]));
    }
}

} // verus!
