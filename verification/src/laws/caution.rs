//! Rules stay quiet where the data can't prove a problem.

use crate::labels;
use crate::model::{ClusterGraph, IssueView, PodInfo, ServiceInfo, ServicePortInfo};
use crate::rules::network;
use vstd::prelude::*;

verus! {

/// Does every network policy choose its pods by match expressions?
pub open spec fn all_complex(g: ClusterGraph) -> bool {
    forall|k: int| 0 <= k < g.network_policies@.len() ==> (#[trigger]
    g.network_policies@[k]).selector_complex
}

proof fn lemma_free(g: ClusterGraph, p: PodInfo, n: int)
    requires
        all_complex(g),
        n <= g.network_policies@.len(),
    ensures
        !network::guarded(g, p, n),
        !network::confined(g, p, n),
    decreases n,
{
    if n > 0 {
        lemma_free(g, p, n - 1);
        assert(g.network_policies@[n - 1].selector_complex);
    }
}

proof fn lemma_port(g: ClusterGraph, s: ServiceInfo, sp: ServicePortInfo, n: int)
    requires
        all_complex(g),
    ensures
        network::blocked(g, s, sp, n).len() == 0,
        network::restricted(g, s, sp, n).len() == 0,
    decreases n,
{
    if n > 0 {
        lemma_port(g, s, sp, n - 1);
        lemma_free(g, g.pods@[n - 1], g.network_policies@.len() as int);
    }
}

proof fn lemma_ports(g: ClusterGraph, s: ServiceInfo, n: int)
    requires
        all_complex(g),
    ensures
        network::ports_issues(g, s, n).len() == 0,
    decreases n,
{
    if n > 0 {
        lemma_ports(g, s, n - 1);
        lemma_port(g, s, s.ports_detail@[n - 1], g.pods@.len() as int);
    }
}

proof fn lemma_inbound(g: ClusterGraph, n: int)
    requires
        all_complex(g),
    ensures
        network::inbound_issues(g, n).len() == 0,
    decreases n,
{
    if n > 0 {
        lemma_inbound(g, n - 1);
        lemma_ports(g, g.services@[n - 1], g.services@[n - 1].ports_detail@.len() as int);
    }
}

proof fn lemma_outbound(g: ClusterGraph, n: int)
    requires
        all_complex(g),
    ensures
        network::outbound_owners(g, n).len() == 0,
    decreases n,
{
    if n > 0 {
        lemma_outbound(g, n - 1);
        lemma_free(g, g.pods@[n - 1], g.network_policies@.len() as int);
    }
}

/// A network policy with match expressions proves nothing about a pod: where all
/// policies are like that, no issue about policies is told.
pub proof fn match_expressions_prove_nothing(g: ClusterGraph)
    requires
        all_complex(g),
    ensures
        network::policy_issues(g) == Seq::<IssueView>::empty(),
{
    lemma_inbound(g, g.services@.len() as int);
    lemma_outbound(g, g.pods@.len() as int);
    assert(network::outbound_issues(g).len() == 0);
    assert(network::policy_issues(g) =~= Seq::<IssueView>::empty());
}

/// Does the policy at an index apply to a pod, if those with match expressions
/// apply where `chosen` says so?
pub open spec fn selects_if(
    g: ClusterGraph,
    p: PodInfo,
    chosen: spec_fn(int) -> bool,
    k: int,
) -> bool {
    network::np_selects(g.network_policies@[k], p) || (network::may_select(
        g.network_policies@[k],
        p,
    ) && chosen(k))
}

/// Does one of the first `n` policies then let the port in?
pub open spec fn let_in_if(
    g: ClusterGraph,
    p: PodInfo,
    port: int,
    name: Option<Seq<char>>,
    protocol: Seq<char>,
    chosen: spec_fn(int) -> bool,
    n: int,
) -> bool {
    exists|k: int|
        0 <= k < n && g.network_policies@[k].ingress_type && #[trigger] selects_if(g, p, chosen, k)
            && network::rules_allow(
            g.network_policies@[k].ingress@,
            port,
            name,
            protocol,
            g.network_policies@[k].ingress@.len() as int,
        )
}

/// Does one of the first `n` policies then let DNS out?
pub open spec fn reaches_dns_if(
    g: ClusterGraph,
    p: PodInfo,
    chosen: spec_fn(int) -> bool,
    n: int,
) -> bool {
    exists|k: int|
        0 <= k < n && g.network_policies@[k].egress_type && #[trigger] selects_if(g, p, chosen, k)
            && network::rules_allow_dns(
            g.network_policies@[k].egress@,
            g.network_policies@[k].egress@.len() as int,
        )
}

proof fn lemma_let_in(
    g: ClusterGraph,
    p: PodInfo,
    port: int,
    name: Option<Seq<char>>,
    protocol: Seq<char>,
    chosen: spec_fn(int) -> bool,
    n: int,
)
    requires
        !network::let_in(g, p, port, name, protocol, n),
        !network::may_let_in(g, p, port, name, protocol, n),
    ensures
        !let_in_if(g, p, port, name, protocol, chosen, n),
    decreases n,
{
    if n > 0 {
        lemma_let_in(g, p, port, name, protocol, chosen, n - 1);
        if let_in_if(g, p, port, name, protocol, chosen, n) {
            let k = choose|k: int|
                0 <= k < n && g.network_policies@[k].ingress_type && #[trigger] selects_if(
                    g,
                    p,
                    chosen,
                    k,
                ) && network::rules_allow(
                    g.network_policies@[k].ingress@,
                    port,
                    name,
                    protocol,
                    g.network_policies@[k].ingress@.len() as int,
                );
            if k < n - 1 {
                assert(let_in_if(g, p, port, name, protocol, chosen, n - 1));
            }
        }
    }
}

proof fn lemma_dns(g: ClusterGraph, p: PodInfo, chosen: spec_fn(int) -> bool, n: int)
    requires
        !network::reaches_dns(g, p, n),
        !network::may_reach_dns(g, p, n),
    ensures
        !reaches_dns_if(g, p, chosen, n),
    decreases n,
{
    if n > 0 {
        lemma_dns(g, p, chosen, n - 1);
        if reaches_dns_if(g, p, chosen, n) {
            let k = choose|k: int|
                0 <= k < n && g.network_policies@[k].egress_type && #[trigger] selects_if(
                    g,
                    p,
                    chosen,
                    k,
                ) && network::rules_allow_dns(
                    g.network_policies@[k].egress@,
                    g.network_policies@[k].egress@.len() as int,
                );
            if k < n - 1 {
                assert(reaches_dns_if(g, p, chosen, n - 1));
            }
        }
    }
}

/// A pod that counts as shut off from a service port is: whichever pods the
/// policies with match expressions select, no policy lets the port in.
pub proof fn shut_off_pods_are_shut_off(
    g: ClusterGraph,
    sp: ServicePortInfo,
    p: PodInfo,
    chosen: spec_fn(int) -> bool,
)
    requires
        network::shut_off(g, sp, p),
    ensures
        network::resolve_target(sp, p) matches Some(t) && !let_in_if(
            g,
            p,
            t.0,
            t.1,
            sp.protocol@,
            chosen,
            g.network_policies@.len() as int,
        ),
{
    let t = network::resolve_target(sp, p)->0;
    lemma_let_in(g, p, t.0, t.1, sp.protocol@, chosen, g.network_policies@.len() as int);
}

proof fn lemma_not_perhaps(
    g: ClusterGraph,
    p: PodInfo,
    port: int,
    name: Option<Seq<char>>,
    protocol: Seq<char>,
    n: int,
    k: int,
)
    requires
        !network::may_let_in(g, p, port, name, protocol, n),
        0 <= k < n,
    ensures
        !(g.network_policies@[k].ingress_type && network::may_select(g.network_policies@[k], p)
            && network::rules_allow(
            g.network_policies@[k].ingress@,
            port,
            name,
            protocol,
            g.network_policies@[k].ingress@.len() as int,
        )),
    decreases n,
{
    if k < n - 1 {
        lemma_not_perhaps(g, p, port, name, protocol, n - 1, k);
    }
}

/// Where a pod counts as open to particular peers only, every policy that lets
/// the port in is one that is known to select the pod, whichever pods the
/// policies with match expressions select: the list of peers is complete.
pub proof fn lists_of_peers_are_complete(
    g: ClusterGraph,
    sp: ServicePortInfo,
    p: PodInfo,
    chosen: spec_fn(int) -> bool,
    k: int,
)
    requires
        network::only_from(g, sp, p).len() > 0,
        0 <= k < g.network_policies@.len(),
        g.network_policies@[k].ingress_type,
        selects_if(g, p, chosen, k),
    ensures
        network::resolve_target(sp, p) matches Some(t) && (network::rules_allow(
            g.network_policies@[k].ingress@,
            t.0,
            t.1,
            sp.protocol@,
            g.network_policies@[k].ingress@.len() as int,
        ) ==> network::np_selects(g.network_policies@[k], p)),
{
    let t = network::resolve_target(sp, p)->0;
    lemma_not_perhaps(g, p, t.0, t.1, sp.protocol@, g.network_policies@.len() as int, k);
}

/// A pod that counts as kept from DNS is: whichever pods the policies with match
/// expressions select, no policy lets DNS out.
pub proof fn pods_without_dns_are_without_dns(
    g: ClusterGraph,
    p: PodInfo,
    chosen: spec_fn(int) -> bool,
)
    requires
        network::without_dns(g, p),
    ensures
        !reaches_dns_if(g, p, chosen, g.network_policies@.len() as int),
{
    lemma_dns(g, p, chosen, g.network_policies@.len() as int);
}

/// Only pods that are shut off are named in an issue about a blocked port.
pub proof fn only_shut_off_pods_are_named(
    g: ClusterGraph,
    s: ServiceInfo,
    sp: ServicePortInfo,
    n: int,
    x: Seq<char>,
)
    requires
        n <= g.pods@.len(),
        network::blocked(g, s, sp, n).contains(x),
    ensures
        exists|i: int|
            0 <= i < n && #[trigger] network::behind(g, s, i) && g.pods@[i].name@ == x
                && network::shut_off(g, sp, g.pods@[i]),
    decreases n,
{
    let all = network::blocked(g, s, sp, n);
    let k = choose|k: int| 0 <= k < all.len() && all[k] == x;
    if n > 0 {
        let before = network::blocked(g, s, sp, n - 1);
        if k < before.len() {
            assert(before[k] == x);
            only_shut_off_pods_are_named(g, s, sp, n - 1, x);
        } else {
            assert(network::behind(g, s, n - 1));
        }
    }
}

/// A selector without labels selects nothing.
pub proof fn empty_selectors_select_nothing(l: Seq<(Seq<char>, Seq<char>)>)
    ensures
        !labels::selects(Seq::empty(), l),
{
}

} // verus!
