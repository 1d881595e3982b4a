//! Planning a network test.

use crate::active::check;
use crate::active::check::{
    add_check, add_checks, no_checks, CheckView, NetworkTestRequest, PlanView, PlannedCheck,
    PlannedProbe, ProbeView, TestPlan,
};
use crate::active::script;
use crate::active::script::{
    manifest, safe_host, safe_label, safe_path, script_for, DEFAULT_IMAGE, PROBE_LABEL,
};
use crate::labels;
use crate::labels::labels_match;
use crate::model;
use crate::model::{
    target, ClusterGraph, ContainerSpecInfo, PodInfo, ProbeInfo, ServiceInfo, ServicePortInfo,
    WorkloadInfo,
};
use crate::numeral;
use crate::numeral::{dec_i32, read_i32};
use crate::pick;
use crate::rules::network;
use crate::rules::network::find_named;
use crate::rules::pod;
use crate::rules::pod::find_workload;
use crate::scan;
use crate::scan::trimmed;
use crate::text;
use crate::text::{
    cat2, cat4, cat5, copy_or_empty, listed, no_lines, opt_copy, opt_is, same, say, say_all,
};
use vstd::prelude::*;

verus! {

broadcast use crate::pick::lemma_add_nothing;

/// How many pods are tested at most.
pub const MAX_PODS: usize = 6;

/// How many health endpoints are called at most.
pub const MAX_HTTP: usize = 4;

/// The port that a port number or name stands for on a pod.
pub open spec fn port_on(port: Seq<char>, p: PodInfo) -> Option<int> {
    match numeral::parse_i32(port) {
        Some(n) => Some(n),
        None => match network::port_named(p, port, p.container_ports@.len() as int) {
            Some(i) => Some(p.container_ports@[i].port as int),
            None => None,
        },
    }
}

fn resolve_port(port: &str, p: &PodInfo) -> (r: Option<i32>)
    ensures
        match r {
            Some(n) => port_on(port@, *p) == Some(n as int),
            None => port_on(port@, *p) is None,
        },
{
    match read_i32(port) {
        Some(n) => Some(n),
        None => match find_named(p, port) {
            Some(i) => Some(p.container_ports[i].port),
            None => None,
        },
    }
}

/// The check with these values.
pub open spec fn check_view(
    kind: Seq<char>,
    label: Seq<char>,
    host: Seq<char>,
    port: Option<i32>,
    path: Option<Seq<char>>,
    timeout: i32,
    node: Option<Seq<char>>,
) -> CheckView {
    CheckView { kind, label, host, port, path, timeout, target_node: node }
}

fn check_of(
    kind: &str,
    label: String,
    host: String,
    port: Option<i32>,
    path: Option<String>,
    timeout: i32,
    node: &Option<String>,
) -> (r: PlannedCheck)
    ensures
        r@ == check_view(
            kind@,
            label@,
            host@,
            port,
            text::opt(path),
            timeout,
            text::opt(*node),
        ),
{
    PlannedCheck {
        kind: kind.to_owned(),
        label,
        host,
        port,
        path,
        timeout,
        target_node: opt_copy(node),
    }
}

/// Is the pod at an index one that a test of the service can reach?
pub open spec fn testable(g: ClusterGraph, s: ServiceInfo, i: int) -> bool {
    let p = g.pods@[i];
    p.namespace@ == s.namespace@ && text::strs(s.pods@).contains(p.name@) && p.pod_ip is Some
}

/// The pods among the first `n` that a test of the service can reach.
pub open spec fn testable_pods(g: ClusterGraph, s: ServiceInfo, n: int) -> Seq<int> {
    pick::gather(
        n,
        |i: int|
            if testable(g, s, i) {
                seq![i]
            } else {
                Seq::empty()
            },
    )
}

/// The pods that are tested.
pub open spec fn tested_pods(g: ClusterGraph, s: ServiceInfo) -> Seq<int> {
    text::at_most(testable_pods(g, s, g.pods@.len() as int), MAX_PODS as int)
}

/// The indices as numbers.
pub open spec fn places(v: Seq<usize>) -> Seq<int> {
    v.map_values(|i: usize| i as int)
}

/// Are these indices of pods with an address?
pub open spec fn pods_with_address(g: ClusterGraph, at: Seq<usize>) -> bool {
    forall|k: int|
        0 <= k < at.len() ==> (#[trigger] at[k]) < g.pods@.len() && g.pods@[at[k] as int].pod_ip
            is Some
}

fn pods_to_test(g: &ClusterGraph, s: &ServiceInfo) -> (r: Vec<usize>)
    ensures
        places(r@) == tested_pods(*g, *s),
        pods_with_address(*g, r@),
        r@.len() <= MAX_PODS,
{
    let mut r: Vec<usize> = Vec::new();
    let ghost mut all: Seq<int> = Seq::empty();
    let mut i: usize = 0;
    proof {
        assert(places(r@) =~= Seq::empty());
    }
    while i < g.pods.len()
        invariant
            i <= g.pods@.len(),
            all == testable_pods(*g, *s, i as int),
            places(r@) == text::at_most(all, MAX_PODS as int),
            pods_with_address(*g, r@),
            r@.len() <= MAX_PODS,
        decreases g.pods@.len() - i,
    {
        let p: &PodInfo = &g.pods[i];
        proof {
            assert(places(r@).len() == r@.len());
        }
        if same(p.namespace.as_str(), s.namespace.as_str()) && listed(&s.pods, p.name.as_str())
            && p.pod_ip.is_some() {
            let ghost before = all;
            proof {
                all = all + seq![i as int];
            }
            if r.len() < MAX_PODS {
                let ghost was = r@;
                r.push(i);
                proof {
                    assert(places(r@) =~= places(was) + seq![i as int]);
                    assert(text::at_most(before, MAX_PODS as int) =~= before);
                    assert(text::at_most(all, MAX_PODS as int) =~= all);
                }
            } else {
                proof {
                    assert(text::at_most(all, MAX_PODS as int) =~= text::at_most(
                        before,
                        MAX_PODS as int,
                    ));
                }
            }
        }
        i = i + 1;
    }
    r
}

/// The checks of names: the cluster DNS, and the service.
pub open spec fn name_checks(s: ServiceInfo, domain: Seq<char>) -> Seq<CheckView> {
    seq![
        check_view(
            "dns"@,
            "cluster DNS"@,
            "kubernetes.default.svc."@ + domain,
            None,
            None,
            3,
            None,
        ),
        check_view(
            "dns"@,
            "service name"@,
            s.name@ + "."@ + s.namespace@ + ".svc."@ + domain,
            None,
            None,
            3,
            None,
        ),
    ]
}

fn checks_of_names(s: &ServiceInfo, domain: &str) -> (r: Vec<PlannedCheck>)
    ensures
        check::check_views(r@) == name_checks(*s, domain@),
{
    let none: Option<String> = None;
    let a: PlannedCheck = check_of(
        "dns",
        "cluster DNS".to_owned(),
        cat2("kubernetes.default.svc.", domain),
        None,
        None,
        3,
        &none,
    );
    let b: PlannedCheck = check_of(
        "dns",
        "service name".to_owned(),
        cat5(s.name.as_str(), ".", s.namespace.as_str(), ".svc.", domain),
        None,
        None,
        3,
        &none,
    );
    let mut r: Vec<PlannedCheck> = no_checks();
    add_check(&mut r, a);
    add_check(&mut r, b);
    proof {
        assert(check::check_views(r@) =~= name_checks(*s, domain@));
    }
    r
}

/// The address of a service, if it has one that can be tested.
pub open spec fn service_address(s: ServiceInfo) -> Option<Seq<char>> {
    match s.cluster_ip {
        Some(ip) => if ip@ != "None"@ && script::is_safe_host(ip@) {
            Some(ip@)
        } else {
            None
        },
        None => None,
    }
}

fn address_of(s: &ServiceInfo) -> (r: Option<String>)
    ensures
        text::opt(r) == service_address(*s),
{
    match &s.cluster_ip {
        Some(ip) => if !same(ip.as_str(), "None") && safe_host(ip.as_str()) {
            Some(ip.clone())
        } else {
            None
        },
        None => None,
    }
}

/// The check of a port of one pod.
pub open spec fn pod_check(p: PodInfo, port: int) -> CheckView {
    check_view(
        "tcp"@,
        "pod "@ + p.name@ + " port "@ + numeral::dec(port),
        text::or_empty(p.pod_ip),
        Some(port as i32),
        None,
        3,
        text::opt(p.node),
    )
}

/// The checks of a port on the first `n` of the pods.
pub open spec fn pod_checks(g: ClusterGraph, at: Seq<int>, sp: ServicePortInfo, n: int) -> Seq<
    CheckView,
> {
    pick::gather(
        n,
        |k: int|
            match port_on(sp.target@, g.pods@[at[k]]) {
                Some(port) => seq![pod_check(g.pods@[at[k]], port)],
                None => Seq::empty(),
            },
    )
}

/// The notes about the first `n` of the pods that do not have the port.
pub open spec fn pod_notes(g: ClusterGraph, at: Seq<int>, sp: ServicePortInfo, n: int) -> Seq<
    Seq<char>,
> {
    pick::gather(
        n,
        |k: int|
            match port_on(sp.target@, g.pods@[at[k]]) {
                Some(port) => Seq::empty(),
                None => seq![
                    "Pod "@ + g.pods@[at[k]].name@ + " doesn't define port "@ + sp.target@
                        + ", so it isn't tested."@,
                ],
            },
    )
}

/// The checks of one port of a service.
pub open spec fn port_checks(
    g: ClusterGraph,
    at: Seq<int>,
    ip: Option<Seq<char>>,
    sp: ServicePortInfo,
) -> Seq<CheckView> {
    if sp.protocol@ != "TCP"@ {
        Seq::empty()
    } else {
        (match ip {
            Some(host) => seq![
                check_view(
                    "tcp"@,
                    "service IP port "@ + numeral::dec(sp.port as int),
                    host,
                    Some(sp.port),
                    None,
                    3,
                    None,
                ),
            ],
            None => Seq::empty(),
        }) + pod_checks(g, at, sp, at.len() as int)
    }
}

/// The notes about one port of a service.
pub open spec fn port_notes(g: ClusterGraph, at: Seq<int>, sp: ServicePortInfo) -> Seq<Seq<char>> {
    if sp.protocol@ != "TCP"@ {
        seq![
            "Port "@ + numeral::dec(sp.port as int) + "/"@ + sp.protocol@
                + " isn't tested; only TCP is supported."@,
        ]
    } else {
        pod_notes(g, at, sp, at.len() as int)
    }
}

fn plan_port(
    g: &ClusterGraph,
    at: &Vec<usize>,
    ip: &Option<String>,
    sp: &ServicePortInfo,
    checks: &mut Vec<PlannedCheck>,
    notes: &mut Vec<String>,
)
    requires
        pods_with_address(*g, at@),
    ensures
        check::check_views(final(checks)@) == check::check_views(old(checks)@) + port_checks(
            *g,
            places(at@),
            text::opt(*ip),
            *sp,
        ),
        text::strs(final(notes)@) == text::strs(old(notes)@) + port_notes(*g, places(at@), *sp),
{
    if !same(sp.protocol.as_str(), "TCP") {
        say(
            notes,
            cat5(
                "Port ",
                dec_i32(sp.port).as_str(),
                "/",
                sp.protocol.as_str(),
                " isn't tested; only TCP is supported.",
            ),
        );
        return;
    }
    let ghost at0 = places(at@);
    let ghost notes0 = text::strs(notes@);
    let mut mine: Vec<PlannedCheck> = no_checks();
    let mut said: Vec<String> = no_lines();
    let mut k: usize = 0;
    while k < at.len()
        invariant
            k <= at@.len(),
            at0 == places(at@),
            pods_with_address(*g, at@),
            check::check_views(mine@) == pod_checks(*g, at0, *sp, k as int),
            text::strs(said@) == pod_notes(*g, at0, *sp, k as int),
        decreases at@.len() - k,
    {
        let p: &PodInfo = &g.pods[at[k]];
        proof {
            assert(at0[k as int] == at@[k as int] as int);
        }
        match resolve_port(sp.target.as_str(), p) {
            Some(port) => add_check(
                &mut mine,
                check_of(
                    "tcp",
                    cat4("pod ", p.name.as_str(), " port ", dec_i32(port).as_str()),
                    copy_or_empty(&p.pod_ip),
                    Some(port),
                    None,
                    3,
                    &p.node,
                ),
            ),
            None => say(
                &mut said,
                cat5(
                    "Pod ",
                    p.name.as_str(),
                    " doesn't define port ",
                    sp.target.as_str(),
                    ", so it isn't tested.",
                ),
            ),
        }
        k = k + 1;
    }
    let mut part: Vec<PlannedCheck> = no_checks();
    match ip {
        Some(host) => {
            let none: Option<String> = None;
            add_check(
                &mut part,
                check_of(
                    "tcp",
                    cat2("service IP port ", dec_i32(sp.port).as_str()),
                    host.clone(),
                    Some(sp.port),
                    None,
                    3,
                    &none,
                ),
            );
        },
        None => {},
    }
    add_checks(&mut part, mine);
    add_checks(checks, part);
    say_all(notes, said);
}

/// The checks of the first `n` ports of a service.
pub open spec fn all_port_checks(
    g: ClusterGraph,
    s: ServiceInfo,
    at: Seq<int>,
    ip: Option<Seq<char>>,
    n: int,
) -> Seq<CheckView> {
    pick::gather(n, |i: int| port_checks(g, at, ip, s.ports_detail@[i]))
}

/// The notes about the first `n` ports of a service.
pub open spec fn all_port_notes(g: ClusterGraph, s: ServiceInfo, at: Seq<int>, n: int) -> Seq<
    Seq<char>,
> {
    pick::gather(n, |i: int| port_notes(g, at, s.ports_detail@[i]))
}

/// What has been planned while the health endpoints are gone through.
#[verifier::ext_equal]
pub struct WebState {
    pub checks: Seq<CheckView>,
    pub notes: Seq<Seq<char>>,
    pub count: nat,
}

/// Is the same endpoint among the first `n` checks?
pub open spec fn endpoint_planned(
    checks: Seq<CheckView>,
    host: Seq<char>,
    path: Seq<char>,
    port: int,
    n: int,
) -> bool {
    pick::any(
        n,
        |i: int|
            checks[i].kind == "http"@ && checks[i].host == host && checks[i].path == Some(path)
                && checks[i].port == Some(port as i32),
    )
}

fn is_endpoint_planned(checks: &Vec<PlannedCheck>, host: &str, path: &str, port: i32) -> (r: bool)
    ensures
        r == endpoint_planned(
            check::check_views(checks@),
            host@,
            path@,
            port as int,
            checks@.len() as int,
        ),
{
    let ghost views = check::check_views(checks@);
    let mut r: bool = false;
    let mut i: usize = 0;
    while i < checks.len()
        invariant
            i <= checks@.len(),
            views == check::check_views(checks@),
            r == endpoint_planned(views, host@, path@, port as int, i as int),
        decreases checks@.len() - i,
    {
        let c: &PlannedCheck = &checks[i];
        proof {
            assert(views[i as int] == c@);
        }
        let same_port: bool = match c.port {
            Some(q) => q == port,
            None => false,
        };
        if same(c.kind.as_str(), "http") && same(c.host.as_str(), host) && opt_is(&c.path, path)
            && same_port {
            r = true;
        }
        i = i + 1;
    }
    r
}

/// The timeout of a probe, between one second and ten.
pub open spec fn web_timeout(t: i32) -> i32 {
    if t < 1 {
        1
    } else if t > 10 {
        10
    } else {
        t
    }
}

/// The port of a probe on a pod.
pub open spec fn probe_port(pr: ProbeInfo, p: PodInfo) -> Option<int> {
    match pr.port {
        Some(x) => port_on(x@, p),
        None => None,
    }
}

/// One probe of a container: its endpoint is planned on the pod, unless
/// enough are planned, it cannot be tested, or it is planned already.
pub open spec fn web_probe(
    p: PodInfo,
    c: ContainerSpecInfo,
    pr: ProbeInfo,
    st: WebState,
) -> WebState {
    if pr.handler@ != "http"@ || pr.kind@ == "startup"@ || st.count >= MAX_HTTP {
        st
    } else if text::opt(pr.scheme) == Some("HTTPS"@) {
        WebState {
            notes: st.notes.push(
                "The "@ + pr.kind@ + " probe on "@ + c.name@
                    + " uses HTTPS, which the probe image can't test."@,
            ),
            ..st
        }
    } else {
        match (probe_port(pr, p), pr.path) {
            (Some(port), Some(path)) => if !script::is_safe_path(path@) {
                WebState {
                    notes: st.notes.push(
                        "The "@ + pr.kind@ + " probe path on "@ + c.name@
                            + " has characters Tessera won't put in a shell command, so it isn't tested."@,
                    ),
                    ..st
                }
            } else if endpoint_planned(
                st.checks,
                text::or_empty(p.pod_ip),
                path@,
                port,
                st.checks.len() as int,
            ) {
                st
            } else {
                WebState {
                    checks: st.checks.push(
                        check_view(
                            "http"@,
                            pr.kind@ + " probe "@ + path@ + " on pod "@ + p.name@,
                            text::or_empty(p.pod_ip),
                            Some(port as i32),
                            Some(path@),
                            web_timeout(pr.timeout),
                            text::opt(p.node),
                        ),
                    ),
                    notes: st.notes,
                    count: st.count + 1,
                }
            },
            _ => st,
        }
    }
}

/// The first `n` probes of a container.
pub open spec fn web_probes(p: PodInfo, c: ContainerSpecInfo, st: WebState, n: int) -> WebState
    decreases n,
{
    if n <= 0 {
        st
    } else {
        web_probe(p, c, c.probes@[n - 1], web_probes(p, c, st, n - 1))
    }
}

/// The first `n` containers of a workload.
pub open spec fn web_containers(p: PodInfo, w: WorkloadInfo, st: WebState, n: int) -> WebState
    decreases n,
{
    if n <= 0 {
        st
    } else {
        web_probes(
            p,
            w.containers@[n - 1],
            web_containers(p, w, st, n - 1),
            w.containers@[n - 1].probes@.len() as int,
        )
    }
}

/// The first `n` of the tested pods.
pub open spec fn web_pods(g: ClusterGraph, at: Seq<int>, st: WebState, n: int) -> WebState
    decreases n,
{
    if n <= 0 {
        st
    } else {
        let p = g.pods@[at[n - 1]];
        let before = web_pods(g, at, st, n - 1);
        match pod::workload_at(g, p.workload, g.workloads@.len() as int) {
            Some(i) => web_containers(
                p,
                g.workloads@[i],
                before,
                g.workloads@[i].containers@.len() as int,
            ),
            None => before,
        }
    }
}

/// What has been planned.
pub open spec fn web_state(
    checks: Seq<PlannedCheck>,
    notes: Seq<String>,
    count: usize,
) -> WebState {
    WebState {
        checks: check::check_views(checks),
        notes: text::strs(notes),
        count: count as nat,
    }
}

fn plan_probe(
    p: &PodInfo,
    c: &ContainerSpecInfo,
    pr: &ProbeInfo,
    checks: &mut Vec<PlannedCheck>,
    notes: &mut Vec<String>,
    count: &mut usize,
)
    requires
        *old(count) <= MAX_HTTP,
    ensures
        *final(count) <= MAX_HTTP,
        web_state(final(checks)@, final(notes)@, *final(count)) == web_probe(
            *p,
            *c,
            *pr,
            web_state(old(checks)@, old(notes)@, *old(count)),
        ),
{
    proof {
        assert(check::check_views(checks@).len() == checks@.len());
    }
    if !same(pr.handler.as_str(), "http") || same(pr.kind.as_str(), "startup") || *count >= MAX_HTTP {
        return;
    }
    if opt_is(&pr.scheme, "HTTPS") {
        say(
            notes,
            cat5(
                "The ",
                pr.kind.as_str(),
                " probe on ",
                c.name.as_str(),
                " uses HTTPS, which the probe image can't test.",
            ),
        );
        return;
    }
    let port: Option<i32> = match &pr.port {
        Some(x) => resolve_port(x.as_str(), p),
        None => None,
    };
    match (port, &pr.path) {
        (Some(port), Some(path)) => {
            if !safe_path(path.as_str()) {
                say(
                    notes,
                    cat5(
                        "The ",
                        pr.kind.as_str(),
                        " probe path on ",
                        c.name.as_str(),
                        " has characters Tessera won't put in a shell command, so it isn't tested.",
                    ),
                );
                return;
            }
            let host: String = copy_or_empty(&p.pod_ip);
            if is_endpoint_planned(checks, host.as_str(), path.as_str(), port) {
                return;
            }
            let t: i32 = if pr.timeout < 1 {
                1
            } else if pr.timeout > 10 {
                10
            } else {
                pr.timeout
            };
            let label: String = cat5(
                pr.kind.as_str(),
                " probe ",
                path.as_str(),
                " on pod ",
                p.name.as_str(),
            );
            add_check(
                checks,
                check_of("http", label, host, Some(port), Some(path.clone()), t, &p.node),
            );
            *count = *count + 1;
        },
        _ => {},
    }
}

fn plan_pod(
    p: &PodInfo,
    w: &WorkloadInfo,
    checks: &mut Vec<PlannedCheck>,
    notes: &mut Vec<String>,
    count: &mut usize,
)
    requires
        *old(count) <= MAX_HTTP,
    ensures
        *final(count) <= MAX_HTTP,
        web_state(final(checks)@, final(notes)@, *final(count)) == web_containers(
            *p,
            *w,
            web_state(old(checks)@, old(notes)@, *old(count)),
            w.containers@.len() as int,
        ),
{
    let ghost st = web_state(checks@, notes@, *count);
    let mut i: usize = 0;
    while i < w.containers.len()
        invariant
            i <= w.containers@.len(),
            *count <= MAX_HTTP,
            web_state(checks@, notes@, *count) == web_containers(*p, *w, st, i as int),
        decreases w.containers@.len() - i,
    {
        let c: &ContainerSpecInfo = &w.containers[i];
        let ghost sub = web_state(checks@, notes@, *count);
        let mut j: usize = 0;
        while j < c.probes.len()
            invariant
                j <= c.probes@.len(),
                *count <= MAX_HTTP,
                web_state(checks@, notes@, *count) == web_probes(*p, *c, sub, j as int),
            decreases c.probes@.len() - j,
        {
            plan_probe(p, c, &c.probes[j], checks, notes, count);
            j = j + 1;
        }
        i = i + 1;
    }
}

/// The checks whose host and label can be put into a shell command.
pub open spec fn safe_checks(checks: Seq<CheckView>, n: int) -> Seq<CheckView> {
    pick::gather(
        n,
        |i: int|
            if script::is_safe_host(checks[i].host) && script::is_safe_label(checks[i].label) {
                seq![checks[i]]
            } else {
                Seq::empty()
            },
    )
}

fn keep_safe(checks: &Vec<PlannedCheck>) -> (r: Vec<PlannedCheck>)
    ensures
        check::check_views(r@) == safe_checks(
            check::check_views(checks@),
            checks@.len() as int,
        ),
{
    let ghost views = check::check_views(checks@);
    let mut r: Vec<PlannedCheck> = no_checks();
    let mut i: usize = 0;
    while i < checks.len()
        invariant
            i <= checks@.len(),
            views == check::check_views(checks@),
            check::check_views(r@) == safe_checks(views, i as int),
        decreases checks@.len() - i,
    {
        proof {
            assert(views[i as int] == checks@[i as int]@);
        }
        if safe_host(checks[i].host.as_str()) && safe_label(checks[i].label.as_str()) {
            add_check(&mut r, checks[i].copy());
        }
        i = i + 1;
    }
    r
}

/// Can the node at an index take a probe?
pub open spec fn usable(g: ClusterGraph, i: int) -> bool {
    g.nodes@[i].ready && !g.nodes@[i].unschedulable
}

/// Is there a node of this name that can take a probe, among the first `n`?
pub open spec fn usable_named(g: ClusterGraph, name: Seq<char>, n: int) -> bool {
    pick::any(n, |i: int| usable(g, i) && g.nodes@[i].name@ == name)
}

fn is_usable_named(g: &ClusterGraph, name: &str) -> (r: bool)
    ensures
        r == usable_named(*g, name@, g.nodes@.len() as int),
{
    let mut r: bool = false;
    let mut i: usize = 0;
    while i < g.nodes.len()
        invariant
            i <= g.nodes@.len(),
            r == usable_named(*g, name@, i as int),
        decreases g.nodes@.len() - i,
    {
        if g.nodes[i].ready && !g.nodes[i].unschedulable && same(g.nodes[i].name.as_str(), name) {
            r = true;
        }
        i = i + 1;
    }
    r
}

/// The first of the tested pods that is on a node.
pub open spec fn placed_pod(g: ClusterGraph, at: Seq<int>, n: int) -> Option<int> {
    pick::first(n, |k: int| g.pods@[at[k]].node is Some)
}

fn find_placed(g: &ClusterGraph, at: &Vec<usize>) -> (r: Option<usize>)
    requires
        pods_with_address(*g, at@),
    ensures
        match r {
            Some(k) => k < at@.len() && placed_pod(*g, places(at@), at@.len() as int) == Some(
                k as int,
            ),
            None => placed_pod(*g, places(at@), at@.len() as int) is None,
        },
{
    let ghost at0 = places(at@);
    let mut r: Option<usize> = None;
    let mut k: usize = 0;
    while k < at.len()
        invariant
            k <= at@.len(),
            at0 == places(at@),
            pods_with_address(*g, at@),
            match r {
                Some(m) => m < k && placed_pod(*g, at0, k as int) == Some(m as int),
                None => placed_pod(*g, at0, k as int) is None,
            },
        decreases at@.len() - k,
    {
        proof {
            assert(at0[k as int] == at@[k as int] as int);
        }
        if r.is_none() && g.pods[at[k]].node.is_some() {
            r = Some(k);
        }
        k = k + 1;
    }
    r
}

/// The node for the probe next to a tested pod, if it can take one.
pub open spec fn same_node(g: ClusterGraph, at: Seq<int>) -> Option<Seq<char>> {
    match placed_pod(g, at, at.len() as int) {
        Some(k) => {
            let name = text::or_empty(g.pods@[at[k]].node);
            if usable_named(g, name, g.nodes@.len() as int) {
                Some(name)
            } else {
                None
            }
        },
        None => None,
    }
}

fn node_of_target(g: &ClusterGraph, at: &Vec<usize>) -> (r: Option<String>)
    requires
        pods_with_address(*g, at@),
    ensures
        text::opt(r) == same_node(*g, places(at@)),
{
    match find_placed(g, at) {
        Some(k) => {
            let name: String = copy_or_empty(&g.pods[at[k]].node);
            proof {
                assert(places(at@)[k as int] == at@[k as int] as int);
            }
            if is_usable_named(g, name.as_str()) {
                Some(name)
            } else {
                None
            }
        },
        None => None,
    }
}

/// Is one of the first `n` tested pods on a node of this name?
pub open spec fn hosts_target(g: ClusterGraph, at: Seq<int>, name: Seq<char>, n: int) -> bool {
    pick::any(n, |k: int| text::opt(g.pods@[at[k]].node) == Some(name))
}

fn is_host(g: &ClusterGraph, at: &Vec<usize>, name: &str) -> (r: bool)
    requires
        pods_with_address(*g, at@),
    ensures
        r == hosts_target(*g, places(at@), name@, at@.len() as int),
{
    let ghost at0 = places(at@);
    let mut r: bool = false;
    let mut k: usize = 0;
    while k < at.len()
        invariant
            k <= at@.len(),
            at0 == places(at@),
            pods_with_address(*g, at@),
            r == hosts_target(*g, at0, name@, k as int),
        decreases at@.len() - k,
    {
        proof {
            assert(at0[k as int] == at@[k as int] as int);
        }
        if opt_is(&g.pods[at[k]].node, name) {
            r = true;
        }
        k = k + 1;
    }
    r
}

/// Can the node at an index take a probe, and is it another one?
pub open spec fn elsewhere(g: ClusterGraph, same: Option<Seq<char>>, i: int) -> bool {
    usable(g, i) && Some(g.nodes@[i].name@) != same
}

/// The node for the probe from elsewhere: the last without a tested pod, or
/// else the last.
pub open spec fn other_node(g: ClusterGraph, at: Seq<int>, same: Option<Seq<char>>) -> Option<int> {
    let n = g.nodes@.len() as int;
    match pick::last(
        n,
        |i: int|
            elsewhere(g, same, i) && !hosts_target(g, at, g.nodes@[i].name@, at.len() as int),
    ) {
        Some(i) => Some(i),
        None => pick::last(n, |i: int| elsewhere(g, same, i)),
    }
}

fn node_elsewhere(g: &ClusterGraph, at: &Vec<usize>, near: &Option<String>) -> (r: Option<usize>)
    requires
        pods_with_address(*g, at@),
    ensures
        match r {
            Some(i) => i < g.nodes@.len() && other_node(*g, places(at@), text::opt(*near)) == Some(
                i as int,
            ),
            None => other_node(*g, places(at@), text::opt(*near)) is None,
        },
{
    let ghost at0 = places(at@);
    let ghost same0 = text::opt(*near);
    let ghost p = |i: int|
        elsewhere(*g, same0, i) && !hosts_target(*g, at0, g.nodes@[i].name@, at0.len() as int);
    let ghost q = |i: int| elsewhere(*g, same0, i);
    let mut free: Option<usize> = None;
    let mut any: Option<usize> = None;
    let mut i: usize = 0;
    while i < g.nodes.len()
        invariant
            i <= g.nodes@.len(),
            at0 == places(at@),
            same0 == text::opt(*near),
            pods_with_address(*g, at@),
            p == (|i: int|
                elsewhere(*g, same0, i) && !hosts_target(
                    *g,
                    at0,
                    g.nodes@[i].name@,
                    at0.len() as int,
                )),
            q == (|i: int| elsewhere(*g, same0, i)),
            match free {
                Some(k) => k < i && pick::last(i as int, p) == Some(k as int),
                None => pick::last(i as int, p) is None,
            },
            match any {
                Some(k) => k < i && pick::last(i as int, q) == Some(k as int),
                None => pick::last(i as int, q) is None,
            },
        decreases g.nodes@.len() - i,
    {
        let name: &str = g.nodes[i].name.as_str();
        proof {
            assert(at0.len() == at@.len());
        }
        if g.nodes[i].ready && !g.nodes[i].unschedulable && !opt_is(near, name) {
            any = Some(i);
            if !is_host(g, at, name) {
                free = Some(i);
            }
        }
        i = i + 1;
    }
    match free {
        Some(k) => Some(k),
        None => any,
    }
}

/// Does the policy select one of the first `n` tested pods?
pub open spec fn policy_selects(g: ClusterGraph, at: Seq<int>, k: int, n: int) -> bool {
    let sel = g.network_policies@[k].pod_selector@;
    pick::any(n, |j: int| sel.len() == 0 || labels::selects(sel, g.pods@[at[j]].labels@))
}

fn does_policy_select(g: &ClusterGraph, at: &Vec<usize>, k: usize) -> (r: bool)
    requires
        k < g.network_policies@.len(),
        pods_with_address(*g, at@),
    ensures
        r == policy_selects(*g, places(at@), k as int, at@.len() as int),
{
    let ghost at0 = places(at@);
    let mut r: bool = false;
    let mut j: usize = 0;
    while j < at.len()
        invariant
            j <= at@.len(),
            k < g.network_policies@.len(),
            at0 == places(at@),
            pods_with_address(*g, at@),
            r == policy_selects(*g, at0, k as int, j as int),
        decreases at@.len() - j,
    {
        proof {
            assert(at0[j as int] == at@[j as int] as int);
        }
        if g.network_policies[k].pod_selector.is_empty() || labels_match(
            &g.network_policies[k].pod_selector,
            &g.pods[at[j]].labels,
        ) {
            r = true;
        }
        j = j + 1;
    }
    r
}

/// Does one of the first `n` policies restrict what reaches a tested pod?
pub open spec fn policies_apply(g: ClusterGraph, s: ServiceInfo, at: Seq<int>, n: int) -> bool {
    pick::any(
        n,
        |k: int|
            g.network_policies@[k].namespace@ == s.namespace@ && g.network_policies@[k].ingress_type
                && policy_selects(g, at, k, at.len() as int),
    )
}

fn do_policies_apply(g: &ClusterGraph, s: &ServiceInfo, at: &Vec<usize>) -> (r: bool)
    requires
        pods_with_address(*g, at@),
    ensures
        r == policies_apply(*g, *s, places(at@), g.network_policies@.len() as int),
{
    let mut r: bool = false;
    let mut k: usize = 0;
    while k < g.network_policies.len()
        invariant
            k <= g.network_policies@.len(),
            pods_with_address(*g, at@),
            r == policies_apply(*g, *s, places(at@), k as int),
        decreases g.network_policies@.len() - k,
    {
        proof {
            assert(places(at@).len() == at@.len());
        }
        if same(g.network_policies[k].namespace.as_str(), s.namespace.as_str())
            && g.network_policies[k].ingress_type && does_policy_select(g, at, k) {
            r = true;
        }
        k = k + 1;
    }
    r
}

/// The namespace that probes run in.
pub open spec fn source(s: ServiceInfo, req: NetworkTestRequest) -> Seq<char> {
    match req.source_namespace {
        Some(n) => if n@.len() == 0 {
            s.namespace@
        } else {
            n@
        },
        None => s.namespace@,
    }
}

/// The image that probes run.
pub open spec fn image_for(req: NetworkTestRequest) -> Seq<char> {
    match req.image {
        Some(i) => if scan::trim(i@).len() == 0 {
            DEFAULT_IMAGE@
        } else {
            i@
        },
        None => DEFAULT_IMAGE@,
    }
}

/// The domain of the cluster.
pub open spec fn domain_for(req: NetworkTestRequest) -> Seq<char> {
    match req.cluster_domain {
        Some(d) => if script::is_safe_host(d@) {
            d@
        } else {
            "cluster.local"@
        },
        None => "cluster.local"@,
    }
}

fn source_of(s: &ServiceInfo, req: &NetworkTestRequest) -> (r: String)
    ensures
        r@ == source(*s, *req),
{
    match &req.source_namespace {
        Some(n) => if n.as_str().unicode_len() == 0 {
            s.namespace.clone()
        } else {
            n.clone()
        },
        None => s.namespace.clone(),
    }
}

fn image_of(req: &NetworkTestRequest) -> (r: String)
    ensures
        r@ == image_for(*req),
{
    match &req.image {
        Some(i) => if trimmed(i.as_str()).as_str().unicode_len() == 0 {
            DEFAULT_IMAGE.to_owned()
        } else {
            i.clone()
        },
        None => DEFAULT_IMAGE.to_owned(),
    }
}

fn domain_of(req: &NetworkTestRequest) -> (r: String)
    ensures
        r@ == domain_for(*req),
{
    match &req.cluster_domain {
        Some(d) => if safe_host(d.as_str()) {
            d.clone()
        } else {
            "cluster.local".to_owned()
        },
        None => "cluster.local".to_owned(),
    }
}

/// What is planned for a service: all checks and notes, before the checks with
/// unsafe hosts are dropped.
pub open spec fn planned(g: ClusterGraph, s: ServiceInfo, req: NetworkTestRequest) -> WebState {
    let at = tested_pods(g, s);
    let n = s.ports_detail@.len() as int;
    let ip = service_address(s);
    web_pods(
        g,
        at,
        WebState {
            checks: name_checks(s, domain_for(req)) + all_port_checks(g, s, at, ip, n),
            notes: all_port_notes(g, s, at, n) + (if ip is None {
                seq![
                    "Headless service: there's no service IP to test, so only DNS and pod IPs are checked."@,
                ]
            } else {
                Seq::empty()
            }),
            count: 0,
        },
        at.len() as int,
    )
}

/// The checks of a plan.
pub open spec fn plan_checks(g: ClusterGraph, s: ServiceInfo, req: NetworkTestRequest) -> Seq<
    CheckView,
> {
    let all = planned(g, s, req).checks;
    safe_checks(all, all.len() as int)
}

/// A probe on a node, or on any.
pub open spec fn probe_view(
    src: Seq<char>,
    node: Option<Seq<char>>,
    placement: Seq<char>,
    image: Seq<char>,
    script: Seq<char>,
) -> ProbeView {
    ProbeView { node, placement, manifest: script::manifest_of(src, node, image, script) }
}

/// Where the probes of a plan run, and how they are called.
pub open spec fn placements(g: ClusterGraph, at: Seq<int>) -> Seq<(Option<Seq<char>>, Seq<char>)> {
    let near = same_node(g, at);
    match near {
        Some(n) => match other_node(g, at, near) {
            Some(i) => seq![
                (Some(n), "same-node"@),
                (Some(g.nodes@[i].name@), "other-node"@),
            ],
            None => seq![(Some(n), "same-node"@)],
        },
        None => seq![(None, "any"@)],
    }
}

/// The probes for a list of places.
pub open spec fn probes_at(
    src: Seq<char>,
    image: Seq<char>,
    script: Seq<char>,
    at: Seq<(Option<Seq<char>>, Seq<char>)>,
) -> Seq<ProbeView> {
    at.map_values(
        |p: (Option<Seq<char>>, Seq<char>)| probe_view(src, p.0, p.1, image, script),
    )
}

/// The plan of a test of a service.
pub open spec fn plan_of(g: ClusterGraph, s: ServiceInfo, req: NetworkTestRequest) -> PlanView {
    let at = tested_pods(g, s);
    let src = source(s, req);
    let image = image_for(req);
    let checks = plan_checks(g, s, req);
    let near = same_node(g, at);
    PlanView {
        service: model::target_view("Service"@, s.namespace@, s.name@),
        source_namespace: src,
        image,
        checks,
        probes: probes_at(src, image, script::script(checks), placements(g, at)),
        policies_apply: policies_apply(g, s, at, g.network_policies@.len() as int),
        notes: planned(g, s, req).notes + (if near is Some && other_node(g, at, near) is None {
            seq!["Only one usable node, so cross-node networking can't be compared."@]
        } else {
            Seq::empty()
        }) + seq![
            "Probes run as pods in "@ + src + " labelled "@ + PROBE_LABEL@
                + "=tessera. NetworkPolicies that admit only specific pod labels will treat them differently from your real clients."@,
        ],
    }
}

/// The first service with a namespace and a name, among the first `n`.
pub open spec fn service_named(g: ClusterGraph, ns: Seq<char>, name: Seq<char>, n: int) -> Option<
    int,
> {
    pick::first(n, |i: int| g.services@[i].namespace@ == ns && g.services@[i].name@ == name)
}

/// The plan that a request gets, or why it gets none: the service is not
/// there, or the namespace for the probes is not one.
pub open spec fn answer(g: ClusterGraph, req: NetworkTestRequest) -> Result<PlanView, Seq<char>> {
    match service_named(g, req.namespace@, req.service@, g.services@.len() as int) {
        Some(i) => if script::is_safe_host(source(g.services@[i], req)) {
            Ok(plan_of(g, g.services@[i], req))
        } else {
            Err("Invalid source namespace."@)
        },
        None => Err(
            "Service "@ + req.namespace@ + "/"@ + req.service@
                + " isn't in the current snapshot."@,
        ),
    }
}

fn find_service(g: &ClusterGraph, ns: &str, name: &str) -> (r: Option<usize>)
    ensures
        match r {
            Some(k) => k < g.services@.len() && service_named(
                *g,
                ns@,
                name@,
                g.services@.len() as int,
            ) == Some(k as int),
            None => service_named(*g, ns@, name@, g.services@.len() as int) is None,
        },
{
    let mut r: Option<usize> = None;
    let mut i: usize = 0;
    while i < g.services.len()
        invariant
            i <= g.services@.len(),
            match r {
                Some(k) => k < i && service_named(*g, ns@, name@, i as int) == Some(k as int),
                None => service_named(*g, ns@, name@, i as int) is None,
            },
        decreases g.services@.len() - i,
    {
        if r.is_none() && same(g.services[i].namespace.as_str(), ns) && same(
            g.services[i].name.as_str(),
            name,
        ) {
            r = Some(i);
        }
        i = i + 1;
    }
    r
}

fn plan_service(
    g: &ClusterGraph,
    s: &ServiceInfo,
    req: &NetworkTestRequest,
    at: &Vec<usize>,
    notes: &mut Vec<String>,
) -> (r: Vec<PlannedCheck>)
    requires
        places(at@) == tested_pods(*g, *s),
        pods_with_address(*g, at@),
        text::strs(old(notes)@) == Seq::<Seq<char>>::empty(),
    ensures
        check::check_views(r@) == plan_checks(*g, *s, *req),
        text::strs(final(notes)@) == planned(*g, *s, *req).notes,
{
    let ip: Option<String> = address_of(s);
    let domain: String = domain_of(req);
    let mut checks: Vec<PlannedCheck> = checks_of_names(s, domain.as_str());
    let ghost at0 = places(at@);
    let ghost ip0 = text::opt(ip);
    let ghost names = check::check_views(checks@);
    let mut i: usize = 0;
    while i < s.ports_detail.len()
        invariant
            i <= s.ports_detail@.len(),
            at0 == places(at@),
            ip0 == text::opt(ip),
            pods_with_address(*g, at@),
            check::check_views(checks@) == names + all_port_checks(*g, *s, at0, ip0, i as int),
            text::strs(notes@) == all_port_notes(*g, *s, at0, i as int),
        decreases s.ports_detail@.len() - i,
    {
        let ghost before = check::check_views(checks@);
        plan_port(g, at, &ip, &s.ports_detail[i], &mut checks, notes);
        proof {
            assert(check::check_views(checks@) =~= names + all_port_checks(
                *g,
                *s,
                at0,
                ip0,
                i + 1,
            ));
        }
        i = i + 1;
    }
    if ip.is_none() {
        say(
            notes,
            "Headless service: there's no service IP to test, so only DNS and pod IPs are checked.".to_owned(),
        );
    }
    let mut count: usize = 0;
    let ghost st = web_state(checks@, notes@, count);
    let mut k: usize = 0;
    while k < at.len()
        invariant
            k <= at@.len(),
            at0 == places(at@),
            pods_with_address(*g, at@),
            count <= MAX_HTTP,
            web_state(checks@, notes@, count) == web_pods(*g, at0, st, k as int),
        decreases at@.len() - k,
    {
        let p: &PodInfo = &g.pods[at[k]];
        proof {
            assert(at0[k as int] == at@[k as int] as int);
        }
        match find_workload(g, &p.workload) {
            Some(w) => plan_pod(p, &g.workloads[w], &mut checks, notes, &mut count),
            None => {},
        }
        k = k + 1;
    }
    proof {
        assert(at0.len() == at@.len());
        assert(web_state(checks@, notes@, count) == planned(*g, *s, *req));
        assert(check::check_views(checks@).len() == checks@.len());
    }
    keep_safe(&checks)
}

fn probe_at(
    src: &str,
    node: Option<String>,
    placement: &str,
    image: &str,
    script: &str,
) -> (r: PlannedProbe)
    ensures
        r@ == probe_view(src@, text::opt(node), placement@, image@, script@),
{
    let m = match &node {
        Some(n) => manifest(src, Some(n.as_str()), image, script),
        None => manifest(src, None, image, script),
    };
    PlannedProbe { node, placement: placement.to_owned(), manifest: m }
}

/// Plan a test: what is checked, and the exact pods that check it. Nothing is
/// created yet.
pub fn plan(g: &ClusterGraph, req: &NetworkTestRequest) -> (r: Result<TestPlan, String>)
    ensures
        match r {
            Ok(p) => answer(*g, *req) == Ok::<PlanView, Seq<char>>(p@),
            Err(e) => answer(*g, *req) == Err::<PlanView, Seq<char>>(e@),
        },
{
    let s: &ServiceInfo = match find_service(g, req.namespace.as_str(), req.service.as_str()) {
        Some(i) => &g.services[i],
        None => {
            return Err(
                cat5(
                    "Service ",
                    req.namespace.as_str(),
                    "/",
                    req.service.as_str(),
                    " isn't in the current snapshot.",
                ),
            );
        },
    };
    let src: String = source_of(s, req);
    if !safe_host(src.as_str()) {
        return Err("Invalid source namespace.".to_owned());
    }
    let image: String = image_of(req);
    let at: Vec<usize> = pods_to_test(g, s);
    let mut notes: Vec<String> = no_lines();
    let checks: Vec<PlannedCheck> = plan_service(g, s, req, &at, &mut notes);
    let script: String = script_for(checks.as_slice());
    let near: Option<String> = node_of_target(g, &at);
    let far: Option<usize> = node_elsewhere(g, &at, &near);
    let mut probes: Vec<PlannedProbe> = Vec::new();
    let ghost at0 = tested_pods(*g, *s);
    match near {
        Some(n) => {
            probes.push(
                probe_at(src.as_str(), Some(n), "same-node", image.as_str(), script.as_str()),
            );
            match far {
                Some(i) => probes.push(
                    probe_at(
                        src.as_str(),
                        Some(g.nodes[i].name.clone()),
                        "other-node",
                        image.as_str(),
                        script.as_str(),
                    ),
                ),
                None => say(
                    &mut notes,
                    "Only one usable node, so cross-node networking can't be compared.".to_owned(),
                ),
            }
        },
        None => probes.push(
            probe_at(src.as_str(), None, "any", image.as_str(), script.as_str()),
        ),
    }
    proof {
        assert(check::probe_views(probes@) =~= probes_at(
            src@,
            image@,
            script@,
            placements(*g, at0),
        ));
    }
    let policies_apply: bool = do_policies_apply(g, s, &at);
    say(
        &mut notes,
        cat5(
            "Probes run as pods in ",
            src.as_str(),
            " labelled ",
            PROBE_LABEL,
            "=tessera. NetworkPolicies that admit only specific pod labels will treat them differently from your real clients.",
        ),
    );
    let p: TestPlan = TestPlan {
        service: target("Service", s.namespace.as_str(), s.name.as_str()),
        source_namespace: src,
        image,
        checks,
        probes,
        policies_apply,
        notes,
    };
    proof {
        assert(p@ =~= plan_of(*g, *s, *req));
    }
    Ok(p)
}

} // verus!
