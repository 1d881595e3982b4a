//! What the plan of a network test holds.

use crate::active::check::{CheckView, NetworkTestRequest};
use crate::active::planning;
use crate::active::planning::WebState;
use crate::active::script;
use crate::labels;
use crate::laws::policies;
use crate::laws::policies::{belongs, first_named};
use crate::laws::reports;
use crate::model::{
    ClusterGraph, ContainerSpecInfo, NetworkPolicyInfo, NodeInfo, PodInfo, ProbeInfo, ServiceInfo,
    WorkloadInfo,
};
use crate::numeral;
use crate::pick;
use crate::rules::network;
use crate::rules::pod;
use crate::text;
use vstd::prelude::*;

verus! {

/// Is this the service that the request names, the first with the name?
pub open spec fn is_asked_for(g: ClusterGraph, req: NetworkTestRequest, i: int) -> bool {
    0 <= i < g.services@.len() && g.services@[i].namespace@ == req.namespace@
        && g.services@[i].name@ == req.service@ && forall|j: int|
        0 <= j < i ==> !((#[trigger] g.services@[j]).namespace@ == req.namespace@
            && g.services@[j].name@ == req.service@)
}

proof fn lemma_service_named(g: ClusterGraph, ns: Seq<char>, name: Seq<char>, n: int)
    requires
        0 <= n <= g.services@.len(),
    ensures
        match planning::service_named(g, ns, name, n) {
            Some(i) => 0 <= i < n && g.services@[i].namespace@ == ns && g.services@[i].name@ == name
                && forall|j: int|
                0 <= j < i ==> !((#[trigger] g.services@[j]).namespace@ == ns
                    && g.services@[j].name@ == name),
            None => forall|j: int|
                0 <= j < n ==> !((#[trigger] g.services@[j]).namespace@ == ns
                    && g.services@[j].name@ == name),
        },
    decreases n,
{
    if n > 0 {
        lemma_service_named(g, ns, name, n - 1);
    }
}

/// A test of a service that is not there is refused.
pub proof fn unknown_services_are_refused(g: ClusterGraph, req: NetworkTestRequest)
    requires
        forall|j: int|
            0 <= j < g.services@.len() ==> !((#[trigger] g.services@[j]).namespace@
                == req.namespace@ && g.services@[j].name@ == req.service@),
    ensures
        planning::answer(g, req) is Err,
{
    lemma_service_named(g, req.namespace@, req.service@, g.services@.len() as int);
}

/// A test of a service that is there is planned, for that service and from the
/// namespace that is asked for, or else from the service's own, where the name of
/// the namespace can stand in a command.
pub proof fn known_services_are_planned(g: ClusterGraph, req: NetworkTestRequest, i: int)
    requires
        is_asked_for(g, req, i),
    ensures
        ({
            let s = g.services@[i];
            let own = req.source_namespace is None || req.source_namespace->0@.len() == 0;
            let from = if own {
                s.namespace@
            } else {
                req.source_namespace->0@
            };
            &&& script::is_safe_host(from) <==> planning::answer(g, req) is Ok
            &&& planning::answer(g, req) matches Ok(p) ==> {
                &&& p.source_namespace == from
                &&& p.service.kind == "Service"@
                &&& p.service.namespace == s.namespace@
                &&& p.service.name == s.name@
                &&& p == planning::plan_of(g, s, req)
            }
        }),
{
    let n = g.services@.len() as int;
    lemma_service_named(g, req.namespace@, req.service@, n);
    let k = planning::service_named(g, req.namespace@, req.service@, n)->0;
    assert(g.services@[i].namespace@ == req.namespace@);
    if k < i {
        assert(!(g.services@[k].namespace@ == req.namespace@ && g.services@[k].name@
            == req.service@));
    } else if i < k {
        assert(!(g.services@[i].namespace@ == req.namespace@ && g.services@[i].name@
            == req.service@));
    }
}

/// Can the check stand in a command?
pub open spec fn can_stand(c: CheckView) -> bool {
    script::is_safe_host(c.host) && script::is_safe_label(c.label)
}

/// A plan holds exactly the checks that were thought of and can stand in a command.
pub proof fn plans_hold_what_can_stand(
    g: ClusterGraph,
    s: ServiceInfo,
    req: NetworkTestRequest,
    c: CheckView,
)
    ensures
        planning::plan_of(g, s, req).checks.contains(c) <==> planning::planned(
            g,
            s,
            req,
        ).checks.contains(c) && can_stand(c),
{
    let all = planning::planned(g, s, req).checks;
    let n = all.len() as int;
    let f = |i: int|
        if script::is_safe_host(all[i].host) && script::is_safe_label(all[i].label) {
            seq![all[i]]
        } else {
            Seq::empty()
        };
    assert(planning::safe_checks(all, n) == pick::gather(n, f));
    pick::lemma_gather_contains(n, f, c);
    if pick::gather(n, f).contains(c) {
        let i = choose|i: int| 0 <= i < n && (#[trigger] f(i)).contains(c);
        assert(all[i] == c);
    }
    if all.contains(c) && can_stand(c) {
        let i = choose|i: int| 0 <= i < n && all[i] == c;
        assert(f(i)[0] == c);
        assert(f(i).contains(c));
    }
}

/// Does one list of checks begin with another?
pub open spec fn begins_with(a: Seq<CheckView>, b: Seq<CheckView>) -> bool {
    b.len() <= a.len() && forall|i: int| 0 <= i < b.len() ==> #[trigger] a[i] == b[i]
}

proof fn lemma_probe_grows(p: PodInfo, c: ContainerSpecInfo, pr: ProbeInfo, st: WebState)
    ensures
        begins_with(planning::web_probe(p, c, pr, st).checks, st.checks),
        planning::web_probe(p, c, pr, st).checks.len() - st.checks.len()
            == planning::web_probe(p, c, pr, st).count - st.count,
        st.count <= 4 ==> planning::web_probe(p, c, pr, st).count <= 4,
{
}

proof fn lemma_probes_grow(p: PodInfo, c: ContainerSpecInfo, st: WebState, n: int)
    ensures
        begins_with(planning::web_probes(p, c, st, n).checks, st.checks),
        planning::web_probes(p, c, st, n).checks.len() - st.checks.len() == planning::web_probes(
            p,
            c,
            st,
            n,
        ).count - st.count,
        st.count <= 4 ==> planning::web_probes(p, c, st, n).count <= 4,
    decreases n,
{
    if n > 0 {
        lemma_probes_grow(p, c, st, n - 1);
        lemma_probe_grows(p, c, c.probes@[n - 1], planning::web_probes(p, c, st, n - 1));
        let a = planning::web_probes(p, c, st, n).checks;
        let b = planning::web_probes(p, c, st, n - 1).checks;
        assert forall|i: int| 0 <= i < st.checks.len() implies #[trigger] a[i] == st.checks[i] by {
            assert(b[i] == st.checks[i]);
        }
    }
}

proof fn lemma_containers_grow(p: PodInfo, w: WorkloadInfo, st: WebState, n: int)
    ensures
        begins_with(planning::web_containers(p, w, st, n).checks, st.checks),
        planning::web_containers(p, w, st, n).checks.len() - st.checks.len()
            == planning::web_containers(p, w, st, n).count - st.count,
        st.count <= 4 ==> planning::web_containers(p, w, st, n).count <= 4,
    decreases n,
{
    if n > 0 {
        lemma_containers_grow(p, w, st, n - 1);
        let c = w.containers@[n - 1];
        let t = planning::web_containers(p, w, st, n - 1);
        lemma_probes_grow(p, c, t, c.probes@.len() as int);
        let a = planning::web_containers(p, w, st, n).checks;
        assert forall|i: int| 0 <= i < st.checks.len() implies #[trigger] a[i] == st.checks[i] by {
            assert(t.checks[i] == st.checks[i]);
        }
    }
}

proof fn lemma_pods_grow(g: ClusterGraph, at: Seq<int>, st: WebState, n: int)
    ensures
        begins_with(planning::web_pods(g, at, st, n).checks, st.checks),
        planning::web_pods(g, at, st, n).checks.len() - st.checks.len() == planning::web_pods(
            g,
            at,
            st,
            n,
        ).count - st.count,
        st.count <= 4 ==> planning::web_pods(g, at, st, n).count <= 4,
    decreases n,
{
    if n > 0 {
        lemma_pods_grow(g, at, st, n - 1);
        let p = g.pods@[at[n - 1]];
        let t = planning::web_pods(g, at, st, n - 1);
        match pod::workload_at(g, p.workload, g.workloads@.len() as int) {
            Some(i) => {
                lemma_containers_grow(
                    p,
                    g.workloads@[i],
                    t,
                    g.workloads@[i].containers@.len() as int,
                );
            },
            None => {},
        }
        let a = planning::web_pods(g, at, st, n).checks;
        assert forall|i: int| 0 <= i < st.checks.len() implies #[trigger] a[i] == st.checks[i] by {
            assert(t.checks[i] == st.checks[i]);
        }
    }
}

/// The checks before those of health endpoints are thought of whatever the probes.
proof fn lemma_thought_of(
    g: ClusterGraph,
    s: ServiceInfo,
    req: NetworkTestRequest,
    c: CheckView,
)
    requires
        (planning::name_checks(s, planning::domain_for(req)) + planning::all_port_checks(
            g,
            s,
            planning::tested_pods(g, s),
            planning::service_address(s),
            s.ports_detail@.len() as int,
        )).contains(c),
    ensures
        planning::planned(g, s, req).checks.contains(c),
{
    let at = planning::tested_pods(g, s);
    let n = s.ports_detail@.len() as int;
    let ip = planning::service_address(s);
    let st = WebState {
        checks: planning::name_checks(s, planning::domain_for(req)) + planning::all_port_checks(
            g,
            s,
            at,
            ip,
            n,
        ),
        notes: planning::all_port_notes(g, s, at, n) + (if ip is None {
            seq![
                "Headless service: there's no service IP to test, so only DNS and pod IPs are checked."@,
            ]
        } else {
            Seq::empty()
        }),
        count: 0,
    };
    lemma_pods_grow(g, at, st, at.len() as int);
    let all = planning::planned(g, s, req).checks;
    assert(all == planning::web_pods(g, at, st, at.len() as int).checks);
    let k = choose|k: int| 0 <= k < st.checks.len() && st.checks[k] == c;
    assert(all[k] == c);
}

/// Every plan looks up a name of the cluster and the name of the service, in the
/// domain that is asked for where it can stand in a command, and else in the usual
/// one.
pub proof fn plans_look_up_names(g: ClusterGraph, s: ServiceInfo, req: NetworkTestRequest)
    ensures
        ({
            let domain = if req.cluster_domain is Some && script::is_safe_host(
                req.cluster_domain->0@,
            ) {
                req.cluster_domain->0@
            } else {
                "cluster.local"@
            };
            let all = planning::planned(g, s, req).checks;
            &&& exists|k: int|
                0 <= k < all.len() && (#[trigger] all[k]).kind == "dns"@ && all[k].label
                    == "cluster DNS"@ && all[k].host == "kubernetes.default.svc."@ + domain
            &&& exists|k: int|
                0 <= k < all.len() && (#[trigger] all[k]).kind == "dns"@ && all[k].label
                    == "service name"@ && all[k].host == s.name@ + "."@ + s.namespace@ + ".svc."@
                    + domain
        }),
{
    let names = planning::name_checks(s, planning::domain_for(req));
    let b = planning::all_port_checks(
        g,
        s,
        planning::tested_pods(g, s),
        planning::service_address(s),
        s.ports_detail@.len() as int,
    );
    assert((names + b)[0] == names[0]);
    assert((names + b)[1] == names[1]);
    lemma_thought_of(g, s, req, names[0]);
    lemma_thought_of(g, s, req, names[1]);
    let all = planning::planned(g, s, req).checks;
    let i = choose|i: int| 0 <= i < all.len() && all[i] == names[0];
    let j = choose|j: int| 0 <= j < all.len() && all[j] == names[1];
    assert(all[i].kind == "dns"@ && all[j].kind == "dns"@);
}

proof fn lemma_port_thought_of(
    g: ClusterGraph,
    s: ServiceInfo,
    req: NetworkTestRequest,
    j: int,
    c: CheckView,
)
    requires
        0 <= j < s.ports_detail@.len(),
        planning::port_checks(
            g,
            planning::tested_pods(g, s),
            planning::service_address(s),
            s.ports_detail@[j],
        ).contains(c),
    ensures
        planning::planned(g, s, req).checks.contains(c),
{
    let at = planning::tested_pods(g, s);
    let n = s.ports_detail@.len() as int;
    let ip = planning::service_address(s);
    let f = |i: int| planning::port_checks(g, at, ip, s.ports_detail@[i]);
    reports::lemma_gathered(n, f, j, c);
    let b = planning::all_port_checks(g, s, at, ip, n);
    assert(b == pick::gather(n, f));
    let a = planning::name_checks(s, planning::domain_for(req));
    let k = choose|k: int| 0 <= k < b.len() && b[k] == c;
    assert((a + b)[a.len() + k] == c);
    lemma_thought_of(g, s, req, c);
}

/// Every TCP port of a service with an address is checked at the address.
pub proof fn plans_check_the_service_address(
    g: ClusterGraph,
    s: ServiceInfo,
    req: NetworkTestRequest,
    j: int,
)
    requires
        0 <= j < s.ports_detail@.len(),
        s.ports_detail@[j].protocol@ == "TCP"@,
        s.cluster_ip matches Some(ip) && ip@ != "None"@ && script::is_safe_host(ip@),
    ensures
        ({
            let all = planning::planned(g, s, req).checks;
            let sp = s.ports_detail@[j];
            exists|k: int|
                0 <= k < all.len() && (#[trigger] all[k]).kind == "tcp"@ && all[k].label
                    == "service IP port "@ + numeral::dec(sp.port as int) && all[k].host
                    == s.cluster_ip->0@ && all[k].port == Some(sp.port)
        }),
{
    let sp = s.ports_detail@[j];
    let checks = planning::port_checks(
        g,
        planning::tested_pods(g, s),
        planning::service_address(s),
        sp,
    );
    assert(checks.contains(checks[0]));
    lemma_port_thought_of(g, s, req, j, checks[0]);
    let all = planning::planned(g, s, req).checks;
    let k = choose|k: int| 0 <= k < all.len() && all[k] == checks[0];
    assert(all[k].kind == "tcp"@);
}

/// Is the pod one that can be tested: one of the service's, with an address?
pub open spec fn can_be_tested(g: ClusterGraph, s: ServiceInfo, i: int) -> bool {
    belongs(g, s, i) && g.pods@[i].pod_ip is Some
}

/// The pods that are tested are the first six that can be.
pub proof fn the_first_pods_are_tested(g: ClusterGraph, s: ServiceInfo)
    ensures
        planning::tested_pods(g, s).len() <= 6,
        forall|k: int|
            0 <= k < planning::tested_pods(g, s).len() ==> {
                &&& 0 <= (#[trigger] planning::tested_pods(g, s)[k]) < g.pods@.len()
                &&& can_be_tested(g, s, planning::tested_pods(g, s)[k])
            },
        planning::tested_pods(g, s).len() < 6 ==> forall|i: int|
            0 <= i < g.pods@.len() && #[trigger] can_be_tested(g, s, i) ==> planning::tested_pods(
                g,
                s,
            ).contains(i),
        forall|i: int|
            0 <= i < g.pods@.len() && #[trigger] can_be_tested(g, s, i) && (forall|j: int|
                0 <= j < i ==> !(#[trigger] can_be_tested(g, s, j))) ==> planning::tested_pods(
                g,
                s,
            ).len() > 0 && planning::tested_pods(g, s)[0] == i,
{
    let n = g.pods@.len() as int;
    lemma_testable(g, s, n);
    let all = planning::testable_pods(g, s, n);
    let at = planning::tested_pods(g, s);
    assert forall|k: int| 0 <= k < at.len() implies 0 <= (#[trigger] at[k]) < g.pods@.len()
        && can_be_tested(g, s, at[k]) by {
        assert(at[k] == all[k]);
    }
    assert forall|i: int|
        0 <= i < n && #[trigger] can_be_tested(g, s, i) && (forall|j: int|
            0 <= j < i ==> !(#[trigger] can_be_tested(g, s, j))) implies at.len() > 0 && at[0]
        == i by {
        assert(all.contains(i));
        let k = choose|k: int| 0 <= k < all.len() && all[k] == i;
        assert(can_be_tested(g, s, all[0]));
        if k > 0 {
            assert(all[0] < all[k]);
        }
    }
}

proof fn lemma_testable(g: ClusterGraph, s: ServiceInfo, n: int)
    requires
        0 <= n <= g.pods@.len(),
    ensures
        forall|k: int|
            0 <= k < planning::testable_pods(g, s, n).len() ==> 0
                <= (#[trigger] planning::testable_pods(g, s, n)[k]) < n && can_be_tested(
                g,
                s,
                planning::testable_pods(g, s, n)[k],
            ),
        forall|j: int, k: int|
            0 <= j < k < planning::testable_pods(g, s, n).len()
                ==> (#[trigger] planning::testable_pods(g, s, n)[j])
                < #[trigger] planning::testable_pods(g, s, n)[k],
        forall|i: int|
            0 <= i < n && #[trigger] can_be_tested(g, s, i) ==> planning::testable_pods(
                g,
                s,
                n,
            ).contains(i),
    decreases n,
{
    if n > 0 {
        lemma_testable(g, s, n - 1);
        policies::lemma_belongs(g, s, n - 1);
        let a = planning::testable_pods(g, s, n - 1);
        let b = planning::testable_pods(g, s, n);
        assert forall|i: int| 0 <= i < n && #[trigger] can_be_tested(g, s, i) implies b.contains(
            i,
        ) by {
            if i < n - 1 {
                let k = choose|k: int| 0 <= k < a.len() && a[k] == i;
                assert(b[k] == i);
            } else {
                assert(b[a.len() as int] == i);
            }
        }
    }
}

/// Is this the port of the pod that a number or a name stands for?
pub open spec fn stands_for_port(t: Seq<char>, p: PodInfo, port: int) -> bool {
    if numeral::parse_i32(t) is Some {
        port == numeral::parse_i32(t)->0
    } else {
        exists|c: int| #[trigger] first_named(p, t, c) && port == p.container_ports@[c].port
    }
}

proof fn lemma_port_on(t: Seq<char>, p: PodInfo)
    ensures
        forall|port: int| #[trigger]
            stands_for_port(t, p, port) <==> planning::port_on(t, p) == Some(port),
{
    let n = p.container_ports@.len() as int;
    policies::lemma_named(p, t, n);
    assert forall|port: int| #[trigger]
        stands_for_port(t, p, port) <==> planning::port_on(t, p) == Some(port) by {
        if numeral::parse_i32(t) is None {
            match network::port_named(p, t, n) {
                Some(c) => {
                    if stands_for_port(t, p, port) {
                        let d = choose|d: int| #[trigger]
                            first_named(p, t, d) && port == p.container_ports@[d].port;
                        if d < c {
                            assert(text::opt(p.container_ports@[d].name) != Some(t));
                        } else if c < d {
                            assert(text::opt(p.container_ports@[c].name) != Some(t));
                        }
                    }
                },
                None => {},
            }
        }
    }
}

/// Every tested pod is checked on the port that each TCP port of the service leads
/// to, at its own address.
pub proof fn plans_check_every_pod(
    g: ClusterGraph,
    s: ServiceInfo,
    req: NetworkTestRequest,
    j: int,
    k: int,
    port: int,
)
    requires
        0 <= j < s.ports_detail@.len(),
        s.ports_detail@[j].protocol@ == "TCP"@,
        0 <= k < planning::tested_pods(g, s).len(),
        stands_for_port(
            s.ports_detail@[j].target@,
            g.pods@[planning::tested_pods(g, s)[k]],
            port,
        ),
        i32::MIN <= port <= i32::MAX,
    ensures
        ({
            let all = planning::planned(g, s, req).checks;
            let p = g.pods@[planning::tested_pods(g, s)[k]];
            exists|m: int|
                0 <= m < all.len() && (#[trigger] all[m]).kind == "tcp"@ && all[m].label
                    == "pod "@ + p.name@ + " port "@ + numeral::dec(port) && all[m].host
                    == p.pod_ip->0@ && all[m].port == Some(port as i32) && all[m].target_node
                    == text::opt(p.node)
        }),
{
    let at = planning::tested_pods(g, s);
    let p = g.pods@[at[k]];
    let sp = s.ports_detail@[j];
    the_first_pods_are_tested(g, s);
    assert(can_be_tested(g, s, at[k]));
    lemma_port_on(sp.target@, p);
    let c = planning::pod_check(p, port);
    let n = at.len() as int;
    let f = |k: int|
        match planning::port_on(sp.target@, g.pods@[at[k]]) {
            Some(port) => seq![planning::pod_check(g.pods@[at[k]], port)],
            None => Seq::empty(),
        };
    assert(f(k)[0] == c);
    assert(f(k).contains(c));
    reports::lemma_gathered(n, f, k, c);
    let b = planning::pod_checks(g, at, sp, n);
    assert(b == pick::gather(n, f));
    let all_of_port = planning::port_checks(g, at, planning::service_address(s), sp);
    let m = choose|m: int| 0 <= m < b.len() && b[m] == c;
    assert(all_of_port[all_of_port.len() - b.len() + m] == c);
    lemma_port_thought_of(g, s, req, j, c);
    let all = planning::planned(g, s, req).checks;
    let i = choose|i: int| 0 <= i < all.len() && all[i] == c;
    assert(all[i].kind == "tcp"@);
}

/// Can the probe's endpoint be asked by a check: by plain HTTP, not at the start
/// alone, on a port that is known and a path that can stand in a command?
pub open spec fn can_be_asked(pr: ProbeInfo, p: PodInfo, port: int) -> bool {
    &&& pr.handler@ == "http"@
    &&& pr.kind@ != "startup"@
    &&& text::opt(pr.scheme) != Some("HTTPS"@)
    &&& pr.port matches Some(x) && stands_for_port(x@, p, port)
    &&& pr.path matches Some(x) && script::is_safe_path(x@)
}

/// Does a check of the list ask this endpoint?
pub open spec fn is_asked(checks: Seq<CheckView>, host: Seq<char>, path: Seq<char>, port: i32) -> bool {
    exists|i: int|
        0 <= i < checks.len() && (#[trigger] checks[i]).kind == "http"@ && checks[i].host == host
            && checks[i].path == Some(path) && checks[i].port == Some(port)
}

proof fn lemma_endpoint(
    checks: Seq<CheckView>,
    host: Seq<char>,
    path: Seq<char>,
    port: int,
    n: int,
)
    requires
        0 <= n <= checks.len(),
    ensures
        planning::endpoint_planned(checks, host, path, port, n) <==> exists|i: int|
            0 <= i < n && (#[trigger] checks[i]).kind == "http"@ && checks[i].host == host
                && checks[i].path == Some(path) && checks[i].port == Some(port as i32),
    decreases n,
{
    if n > 0 {
        lemma_endpoint(checks, host, path, port, n - 1);
        let c = checks[n - 1];
        if c.kind == "http"@ && c.host == host && c.path == Some(path) && c.port == Some(
            port as i32,
        ) {
            assert(0 <= n - 1 < n);
        }
    }
}

/// Where fewer than four health endpoints are planned, one more that can be asked
/// is, once; others add no check.
pub proof fn endpoints_are_asked_once(
    p: PodInfo,
    c: ContainerSpecInfo,
    pr: ProbeInfo,
    st: WebState,
    port: int,
)
    requires
        st.count < 4,
        p.pod_ip is Some,
        i32::MIN <= port <= i32::MAX,
        can_be_asked(pr, p, port),
    ensures
        ({
            let after = planning::web_probe(p, c, pr, st);
            let asked = is_asked(st.checks, p.pod_ip->0@, pr.path->0@, port as i32);
            &&& is_asked(after.checks, p.pod_ip->0@, pr.path->0@, port as i32)
            &&& asked ==> after == st
            &&& !asked ==> after.checks.len() == st.checks.len() + 1 && after.count == st.count + 1
        }),
{
    let after = planning::web_probe(p, c, pr, st);
    lemma_port_on(pr.port->0@, p);
    lemma_endpoint(
        st.checks,
        p.pod_ip->0@,
        pr.path->0@,
        port,
        st.checks.len() as int,
    );
    if !is_asked(st.checks, p.pod_ip->0@, pr.path->0@, port as i32) {
        let k = st.checks.len() as int;
        assert(after.checks[k].kind == "http"@);
        assert(after.checks[k].host == p.pod_ip->0@);
    }
}

/// A probe that is no HTTP probe, is one of the start, or can't be asked, adds no
/// check; nor does any beyond the fourth.
pub proof fn other_probes_add_no_check(
    p: PodInfo,
    c: ContainerSpecInfo,
    pr: ProbeInfo,
    st: WebState,
)
    requires
        st.count >= 4 || forall|port: int| !(#[trigger] can_be_asked(pr, p, port)),
    ensures
        planning::web_probe(p, c, pr, st).checks == st.checks,
        planning::web_probe(p, c, pr, st).count == st.count,
{
    if pr.port is Some {
        lemma_port_on(pr.port->0@, p);
        match planning::port_on(pr.port->0@, p) {
            Some(port) => {
                assert(stands_for_port(pr.port->0@, p, port));
                assert(st.count < 4 ==> !can_be_asked(pr, p, port));
            },
            None => {},
        }
    }
}

/// A check of an endpoint gives it the time that its probe does, of at least one
/// second and at most ten.
pub proof fn endpoints_have_the_time_of_their_probe(t: i32)
    ensures
        1 <= planning::web_timeout(t) <= 10,
        1 <= t <= 10 ==> planning::web_timeout(t) == t,
        t < 1 ==> planning::web_timeout(t) == 1,
        t > 10 ==> planning::web_timeout(t) == 10,
{
}

/// Can a pod be placed on the node?
pub open spec fn takes_pods(n: NodeInfo) -> bool {
    n.ready && !n.unschedulable
}

/// Is there a node of this name that takes pods?
pub open spec fn is_usable(g: ClusterGraph, name: Seq<char>) -> bool {
    exists|i: int|
        0 <= i < g.nodes@.len() && takes_pods(#[trigger] g.nodes@[i]) && g.nodes@[i].name@ == name
}

proof fn lemma_usable(g: ClusterGraph, name: Seq<char>, n: int)
    requires
        0 <= n <= g.nodes@.len(),
    ensures
        planning::usable_named(g, name, n) <==> exists|i: int|
            0 <= i < n && takes_pods(#[trigger] g.nodes@[i]) && g.nodes@[i].name@ == name,
    decreases n,
{
    if n > 0 {
        lemma_usable(g, name, n - 1);
        if takes_pods(g.nodes@[n - 1]) && g.nodes@[n - 1].name@ == name {
            assert(0 <= n - 1 < n);
        }
    }
}

/// Is this the node of the first tested pod that has one?
pub open spec fn is_home(g: ClusterGraph, at: Seq<int>, name: Seq<char>) -> bool {
    exists|k: int|
        0 <= k < at.len() && (g.pods@[#[trigger] at[k]].node matches Some(n) && n@ == name)
            && forall|j: int| 0 <= j < k ==> g.pods@[#[trigger] at[j]].node is None
}

proof fn lemma_home(g: ClusterGraph, at: Seq<int>, name: Seq<char>)
    requires
        is_home(g, at, name),
    ensures
        planning::same_node(g, at) == if is_usable(g, name) {
            Some(name)
        } else {
            None
        },
{
    let n = at.len() as int;
    let f = |k: int| g.pods@[at[k]].node is Some;
    pick::lemma_first(n, f);
    assert(planning::placed_pod(g, at, n) == pick::first(n, f));
    let k = choose|k: int|
        0 <= k < at.len() && (g.pods@[#[trigger] at[k]].node matches Some(n) && n@ == name)
            && forall|j: int| 0 <= j < k ==> g.pods@[#[trigger] at[j]].node is None;
    assert(f(k));
    let m = pick::first(n, f)->0;
    if m < k {
        assert(f(m));
        assert(g.pods@[at[m]].node is None);
    }
    lemma_usable(g, name, g.nodes@.len() as int);
}

/// The first probe runs on the node of the first tested pod that has one, where
/// that node takes pods.
pub proof fn the_first_probe_runs_beside_the_pod(
    g: ClusterGraph,
    s: ServiceInfo,
    req: NetworkTestRequest,
    name: Seq<char>,
)
    requires
        is_home(g, planning::tested_pods(g, s), name),
        is_usable(g, name),
    ensures
        planning::plan_of(g, s, req).probes.len() > 0,
        planning::plan_of(g, s, req).probes[0].node == Some(name),
        planning::plan_of(g, s, req).probes[0].placement == "same-node"@,
{
    lemma_home(g, planning::tested_pods(g, s), name);
}

/// Where the node of the tested pods takes no pods, or is not known, there is one
/// probe, which runs anywhere.
pub proof fn else_one_probe_runs_anywhere(
    g: ClusterGraph,
    s: ServiceInfo,
    req: NetworkTestRequest,
)
    requires
        forall|name: Seq<char>| #[trigger]
            is_home(g, planning::tested_pods(g, s), name) ==> !is_usable(g, name),
    ensures
        planning::plan_of(g, s, req).probes.len() == 1,
        planning::plan_of(g, s, req).probes[0].node is None,
        planning::plan_of(g, s, req).probes[0].placement == "any"@,
{
    let at = planning::tested_pods(g, s);
    let n = at.len() as int;
    let f = |k: int| g.pods@[at[k]].node is Some;
    pick::lemma_first(n, f);
    assert(planning::placed_pod(g, at, n) == pick::first(n, f));
    match pick::first(n, f) {
        Some(k) => {
            assert(f(k));
            let name = g.pods@[at[k]].node->0@;
            assert forall|j: int| 0 <= j < k implies g.pods@[#[trigger] at[j]].node is None by {
                assert(!f(j));
            }
            assert(g.pods@[at[k]].node matches Some(n) && n@ == name);
            assert(is_home(g, at, name));
            lemma_home(g, at, name);
        },
        None => {},
    }
}

/// Where a second node takes pods, a second probe runs on one that does, other than
/// the first; and there is none where no other node does.
pub proof fn the_second_probe_runs_elsewhere(
    g: ClusterGraph,
    s: ServiceInfo,
    req: NetworkTestRequest,
    name: Seq<char>,
)
    requires
        is_home(g, planning::tested_pods(g, s), name),
        is_usable(g, name),
    ensures
        ({
            let p = planning::plan_of(g, s, req);
            let second = exists|i: int|
                0 <= i < g.nodes@.len() && takes_pods(#[trigger] g.nodes@[i]) && g.nodes@[i].name@
                    != name;
            &&& second ==> p.probes.len() == 2 && p.probes[1].placement == "other-node"@ && (
            p.probes[1].node matches Some(n) && n != name && is_usable(g, n))
            &&& !second ==> p.probes.len() == 1
        }),
{
    let at = planning::tested_pods(g, s);
    let near = planning::same_node(g, at);
    lemma_home(g, at, name);
    let n = g.nodes@.len() as int;
    lemma_other(g, at, near);
    let second = exists|i: int|
        0 <= i < g.nodes@.len() && takes_pods(#[trigger] g.nodes@[i]) && g.nodes@[i].name@ != name;
    if second {
        let i = choose|i: int|
            0 <= i < g.nodes@.len() && takes_pods(#[trigger] g.nodes@[i]) && g.nodes@[i].name@
                != name;
        assert(planning::elsewhere(g, near, i));
    }
    match planning::other_node(g, at, near) {
        Some(i) => {
            assert(planning::elsewhere(g, near, i));
            assert(takes_pods(g.nodes@[i]));
            assert(is_usable(g, g.nodes@[i].name@));
        },
        None => {},
    }
}

proof fn lemma_last(n: int, p: spec_fn(int) -> bool)
    ensures
        match pick::last(n, p) {
            Some(i) => 0 <= i < n && p(i) && (forall|j: int| i < j < n ==> !#[trigger] p(j)),
            None => forall|j: int| 0 <= j < n ==> !#[trigger] p(j),
        },
    decreases n,
{
    if n > 0 {
        lemma_last(n - 1, p);
    }
}

proof fn lemma_other(g: ClusterGraph, at: Seq<int>, near: Option<Seq<char>>)
    ensures
        match planning::other_node(g, at, near) {
            Some(i) => 0 <= i < g.nodes@.len() && planning::elsewhere(g, near, i),
            None => forall|i: int|
                0 <= i < g.nodes@.len() ==> !(#[trigger] planning::elsewhere(g, near, i)),
        },
{
    let n = g.nodes@.len() as int;
    let a = |i: int|
        planning::elsewhere(g, near, i) && !planning::hosts_target(
            g,
            at,
            g.nodes@[i].name@,
            at.len() as int,
        );
    let b = |i: int| planning::elsewhere(g, near, i);
    lemma_last(n, a);
    lemma_last(n, b);
    assert(planning::other_node(g, at, near) == match pick::last(n, a) {
        Some(i) => Some(i),
        None => pick::last(n, b),
    });
    if planning::other_node(g, at, near) is None {
        assert forall|i: int| 0 <= i < n implies !(#[trigger] planning::elsewhere(g, near, i)) by {
            assert(!b(i));
        }
    }
}

/// Does the policy choose the pod, by every label that it asks for?
pub open spec fn reaches(np: NetworkPolicyInfo, p: PodInfo) -> bool {
    forall|i: int|
        0 <= i < np.pod_selector@.len() ==> labels::lookup(
            p.labels@,
            (#[trigger] np.pod_selector@[i]).0,
        ) == Some(np.pod_selector@[i].1)
}

/// A plan says that policies apply exactly where an ingress policy of the service's
/// namespace chooses one of the tested pods.
pub proof fn plans_say_whether_policies_apply(
    g: ClusterGraph,
    s: ServiceInfo,
    req: NetworkTestRequest,
)
    ensures
        planning::plan_of(g, s, req).policies_apply <==> exists|k: int, j: int|
            0 <= k < g.network_policies@.len() && 0 <= j < planning::tested_pods(g, s).len()
                && (#[trigger] g.network_policies@[k]).namespace@ == s.namespace@
                && g.network_policies@[k].ingress_type && reaches(
                g.network_policies@[k],
                g.pods@[#[trigger] planning::tested_pods(g, s)[j]],
            ),
{
    lemma_policies(g, s, planning::tested_pods(g, s), g.network_policies@.len() as int);
}

proof fn lemma_selects(g: ClusterGraph, at: Seq<int>, k: int, n: int)
    requires
        0 <= n <= at.len(),
    ensures
        planning::policy_selects(g, at, k, n) <==> exists|j: int|
            0 <= j < n && reaches(g.network_policies@[k], g.pods@[#[trigger] at[j]]),
    decreases n,
{
    if n > 0 {
        lemma_selects(g, at, k, n - 1);
        if reaches(g.network_policies@[k], g.pods@[at[n - 1]]) {
            assert(0 <= n - 1 < n);
        }
    }
}

proof fn lemma_policies(g: ClusterGraph, s: ServiceInfo, at: Seq<int>, n: int)
    requires
        0 <= n <= g.network_policies@.len(),
    ensures
        planning::policies_apply(g, s, at, n) <==> exists|k: int, j: int|
            0 <= k < n && 0 <= j < at.len() && (#[trigger] g.network_policies@[k]).namespace@
                == s.namespace@ && g.network_policies@[k].ingress_type && reaches(
                g.network_policies@[k],
                g.pods@[#[trigger] at[j]],
            ),
    decreases n,
{
    if n > 0 {
        lemma_policies(g, s, at, n - 1);
        lemma_selects(g, at, n - 1, at.len() as int);
        let np = g.network_policies@[n - 1];
        if np.namespace@ == s.namespace@ && np.ingress_type && planning::policy_selects(
            g,
            at,
            n - 1,
            at.len() as int,
        ) {
            let j = choose|j: int|
                0 <= j < at.len() && reaches(g.network_policies@[n - 1], g.pods@[#[trigger] at[j]]);
            assert(g.network_policies@[n - 1].namespace@ == s.namespace@);
        }
    }
}

/// A plan holds at most four checks of health endpoints beside those of names and
/// ports.
pub proof fn few_endpoints_are_asked(g: ClusterGraph, at: Seq<int>, st: WebState)
    requires
        st.count == 0,
    ensures
        planning::web_pods(g, at, st, at.len() as int).checks.len() <= st.checks.len() + 4,
        begins_with(planning::web_pods(g, at, st, at.len() as int).checks, st.checks),
{
    lemma_pods_grow(g, at, st, at.len() as int);
}

} // verus!
