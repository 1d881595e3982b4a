//! Network policies.

use crate::collect::parts;
use crate::collect::parts::{protocol_or_tcp, port_name};
use crate::collect::raw::{RawNetworkPolicy, RawNpPort, RawNpRule, RawPeer, RawSelector};
use crate::labels;
use crate::labels::fmt_selector;
use crate::model::{NetworkPolicyInfo, NpPort, NpRule};
use crate::pick;
use crate::text;
use crate::text::{cat2, cat3, copy_or_empty, listed, no_lines, say};
use vstd::prelude::*;

verus! {

broadcast use crate::pick::lemma_add_nothing;

/// A selector in words.
pub open spec fn selector_words(s: RawSelector) -> Seq<char> {
    if !s.expressions {
        labels::selector_text(s.labels@)
    } else if s.labels@.len() == 0 {
        "matching expressions"@
    } else {
        labels::selector_text(s.labels@) + " and matching expressions"@
    }
}

/// Does the selector choose everything?
pub open spec fn chooses_all(s: RawSelector) -> bool {
    s.labels@.len() == 0 && !s.expressions
}

/// The pods of a peer in words.
pub open spec fn pods_words(s: RawSelector) -> Seq<char> {
    if chooses_all(s) {
        "all pods"@
    } else {
        "pods "@ + selector_words(s)
    }
}

/// The namespaces of a peer in words.
pub open spec fn namespaces_words(s: RawSelector) -> Seq<char> {
    if chooses_all(s) {
        "all namespaces"@
    } else {
        "namespaces "@ + selector_words(s)
    }
}

/// A peer in words. A pod selector alone means pods of the policy's own
/// namespace.
pub open spec fn peer_words(p: RawPeer) -> Seq<char> {
    match (p.ip_block, p.namespaces, p.pods) {
        (Some(cidr), _, _) => "ipBlock "@ + cidr@,
        (None, Some(n), Some(s)) => pods_words(s) + " in "@ + namespaces_words(n),
        (None, Some(n), None) => namespaces_words(n),
        (None, None, Some(s)) => pods_words(s) + " in this namespace"@,
        (None, None, None) => "nothing"@,
    }
}

/// The first `n` peers in words.
pub open spec fn peers_words(ps: Seq<RawPeer>, n: int) -> Seq<Seq<char>> {
    pick::gather(n, |i: int| seq![peer_words(ps[i])])
}

fn words(s: &RawSelector) -> (r: String)
    ensures
        r@ == selector_words(*s),
{
    if !s.expressions {
        fmt_selector(&s.labels)
    } else if s.labels.is_empty() {
        "matching expressions".to_owned()
    } else {
        cat2(fmt_selector(&s.labels).as_str(), " and matching expressions")
    }
}

fn name_pods(s: &RawSelector) -> (r: String)
    ensures
        r@ == pods_words(*s),
{
    if s.labels.is_empty() && !s.expressions {
        "all pods".to_owned()
    } else {
        cat2("pods ", words(s).as_str())
    }
}

fn name_namespaces(s: &RawSelector) -> (r: String)
    ensures
        r@ == namespaces_words(*s),
{
    if s.labels.is_empty() && !s.expressions {
        "all namespaces".to_owned()
    } else {
        cat2("namespaces ", words(s).as_str())
    }
}

fn name_peer(p: &RawPeer) -> (r: String)
    ensures
        r@ == peer_words(*p),
{
    match (&p.ip_block, &p.namespaces, &p.pods) {
        (Some(cidr), _, _) => cat2("ipBlock ", cidr.as_str()),
        (None, Some(n), Some(s)) => cat3(
            name_pods(s).as_str(),
            " in ",
            name_namespaces(n).as_str(),
        ),
        (None, Some(n), None) => name_namespaces(n),
        (None, None, Some(s)) => cat2(name_pods(s).as_str(), " in this namespace"),
        (None, None, None) => "nothing".to_owned(),
    }
}

fn name_peers(ps: &Vec<RawPeer>) -> (r: Vec<String>)
    ensures
        text::strs(r@) == peers_words(ps@, ps@.len() as int),
{
    let mut r: Vec<String> = no_lines();
    let mut i: usize = 0;
    while i < ps.len()
        invariant
            i <= ps@.len(),
            text::strs(r@) == peers_words(ps@, i as int),
        decreases ps@.len() - i,
    {
        say(&mut r, name_peer(&ps[i]));
        i = i + 1;
    }
    r
}

/// What a port of a rule makes.
pub open spec fn port_from(p: RawNpPort, i: NpPort) -> bool {
    &&& text::opt(i.port) == match p.port {
        Some(t) => Some(parts::port_text(t)),
        None => None,
    }
    &&& i.end_port == p.end_port
    &&& i.protocol@ == parts::protocol(p.protocol)
}

fn convert_port(p: &RawNpPort) -> (r: NpPort)
    ensures
        port_from(*p, r),
{
    NpPort {
        port: match &p.port {
            Some(t) => Some(port_name(t)),
            None => None,
        },
        end_port: p.end_port,
        protocol: protocol_or_tcp(&p.protocol),
    }
}

/// What the ports of a rule make.
pub open spec fn ports_from(v: Seq<RawNpPort>, r: Seq<NpPort>) -> bool {
    r.len() == v.len() && forall|i: int| 0 <= i < v.len() ==> port_from(v[i], #[trigger] r[i])
}

fn convert_rule_ports(v: &Vec<RawNpPort>) -> (r: Vec<NpPort>)
    ensures
        ports_from(v@, r@),
{
    let mut r: Vec<NpPort> = Vec::new();
    let mut i: usize = 0;
    while i < v.len()
        invariant
            i <= v@.len(),
            r@.len() == i,
            forall|j: int| 0 <= j < i ==> port_from(v@[j], #[trigger] r@[j]),
        decreases v@.len() - i,
    {
        let x: NpPort = convert_port(&v[i]);
        r.push(x);
        i = i + 1;
    }
    r
}

/// What a rule makes.
pub open spec fn rule_from(x: RawNpRule, i: NpRule) -> bool {
    text::strs(i.peers@) == peers_words(x.peers@, x.peers@.len() as int) && ports_from(
        x.ports@,
        i.ports@,
    )
}

fn convert_rule(x: &RawNpRule) -> (r: NpRule)
    ensures
        rule_from(*x, r),
{
    NpRule { peers: name_peers(&x.peers), ports: convert_rule_ports(&x.ports) }
}

/// What the rules make.
pub open spec fn rules_from(v: Seq<RawNpRule>, r: Seq<NpRule>) -> bool {
    r.len() == v.len() && forall|i: int| 0 <= i < v.len() ==> rule_from(v[i], #[trigger] r[i])
}

fn convert_rules(v: &Vec<RawNpRule>) -> (r: Vec<NpRule>)
    ensures
        rules_from(v@, r@),
{
    let mut r: Vec<NpRule> = Vec::new();
    let mut i: usize = 0;
    while i < v.len()
        invariant
            i <= v@.len(),
            r@.len() == i,
            forall|j: int| 0 <= j < i ==> rule_from(v@[j], #[trigger] r@[j]),
        decreases v@.len() - i,
    {
        let x: NpRule = convert_rule(&v[i]);
        r.push(x);
        i = i + 1;
    }
    r
}

/// Does the policy restrict what comes in? Where the types are not given, it
/// does.
pub open spec fn covers_ingress(p: RawNetworkPolicy) -> bool {
    match p.types {
        Some(ts) => text::strs(ts@).contains("Ingress"@),
        None => true,
    }
}

/// Does the policy restrict what goes out? Where the types are not given, it
/// does if it has a rule for it.
pub open spec fn covers_egress(p: RawNetworkPolicy) -> bool {
    match p.types {
        Some(ts) => text::strs(ts@).contains("Egress"@),
        None => p.egress@.len() > 0,
    }
}

/// What a network policy makes.
pub open spec fn policy_from(p: RawNetworkPolicy, i: NetworkPolicyInfo) -> bool {
    &&& i.namespace@ == text::or_empty(p.namespace)
    &&& i.name@ == text::or_empty(p.name)
    &&& i.pod_selector@ == p.selector.labels@
    &&& i.selector_complex == p.selector.expressions
    &&& i.ingress_type == covers_ingress(p)
    &&& i.egress_type == covers_egress(p)
    &&& rules_from(p.ingress@, i.ingress@)
    &&& rules_from(p.egress@, i.egress@)
}

fn convert_policy(p: &RawNetworkPolicy) -> (r: NetworkPolicyInfo)
    ensures
        policy_from(*p, r),
{
    let ingress_type: bool = match &p.types {
        Some(ts) => listed(ts, "Ingress"),
        None => true,
    };
    let egress_type: bool = match &p.types {
        Some(ts) => listed(ts, "Egress"),
        None => p.egress.len() > 0,
    };
    NetworkPolicyInfo {
        namespace: copy_or_empty(&p.namespace),
        name: copy_or_empty(&p.name),
        pod_selector: p.selector.labels.copy(),
        selector_complex: p.selector.expressions,
        ingress_type,
        egress_type,
        ingress: convert_rules(&p.ingress),
        egress: convert_rules(&p.egress),
    }
}

/// What the network policies make.
pub open spec fn policies_from(v: Seq<RawNetworkPolicy>, r: Seq<NetworkPolicyInfo>) -> bool {
    r.len() == v.len() && forall|i: int| 0 <= i < v.len() ==> policy_from(v[i], #[trigger] r[i])
}

pub fn convert_policies(v: &Vec<RawNetworkPolicy>) -> (r: Vec<NetworkPolicyInfo>)
    ensures
        policies_from(v@, r@),
{
    let mut r: Vec<NetworkPolicyInfo> = Vec::new();
    let mut i: usize = 0;
    while i < v.len()
        invariant
            i <= v@.len(),
            r@.len() == i,
            forall|j: int| 0 <= j < i ==> policy_from(v@[j], #[trigger] r@[j]),
        decreases v@.len() - i,
    {
        let x: NetworkPolicyInfo = convert_policy(&v[i]);
        r.push(x);
        i = i + 1;
    }
    r
}

} // verus!
