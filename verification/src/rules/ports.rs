//! Service ports that lead to no port of the pods.

use crate::lettercase;
use crate::lettercase::alike;
use crate::model;
use crate::model::{
    emit, emit_all, issue, no_issues, target, ClusterGraph, ContainerPortInfo, Issue, IssueView,
    Layer, PodInfo, ServiceInfo, ServicePortInfo, Severity,
};
use crate::numeral;
use crate::numeral::{dec_i32, read_i32};
use crate::pick;
use crate::rules::entry;
use crate::rules::entry::names_text;
use crate::rules::network;
use crate::rules::network::{find_named, is_behind};
use crate::split;
use crate::split::joined;
use crate::text;
use crate::text::{cat2, cat3, cat4, cat5, cat6, lines2, no_lines, say};
use vstd::prelude::*;

verus! {

broadcast use crate::pick::lemma_add_nothing;

/// The first pod behind a service.
pub open spec fn sample(g: ClusterGraph, s: ServiceInfo, n: int) -> Option<int> {
    pick::first(n, |i: int| network::behind(g, s, i))
}

fn find_sample(g: &ClusterGraph, s: &ServiceInfo) -> (r: Option<usize>)
    ensures
        match r {
            Some(k) => k < g.pods@.len() && sample(*g, *s, g.pods@.len() as int) == Some(k as int),
            None => sample(*g, *s, g.pods@.len() as int) is None,
        },
{
    let mut r: Option<usize> = None;
    let mut i: usize = 0;
    while i < g.pods.len()
        invariant
            i <= g.pods@.len(),
            match r {
                Some(k) => k < i && sample(*g, *s, i as int) == Some(k as int),
                None => sample(*g, *s, i as int) is None,
            },
        decreases g.pods@.len() - i,
    {
        if r.is_none() && is_behind(g, s, i) {
            r = Some(i);
        }
        i = i + 1;
    }
    r
}

/// A declared port as text.
pub open spec fn declared_port(c: ContainerPortInfo) -> Seq<char> {
    match c.name {
        Some(n) => n@ + "="@ + numeral::dec(c.port as int) + "/"@ + c.protocol@,
        None => numeral::dec(c.port as int) + "/"@ + c.protocol@,
    }
}

fn declared_text(c: &ContainerPortInfo) -> (r: String)
    ensures
        r@ == declared_port(*c),
{
    match &c.name {
        Some(n) => cat5(n.as_str(), "=", dec_i32(c.port).as_str(), "/", c.protocol.as_str()),
        None => cat3(dec_i32(c.port).as_str(), "/", c.protocol.as_str()),
    }
}

/// The declared ports of a pod as text.
pub open spec fn declared(p: PodInfo, n: int) -> Seq<Seq<char>> {
    pick::gather(
        n,
        |i: int|
            seq![declared_port(p.container_ports@[i])],
    )
}

fn declared_ports(p: &PodInfo) -> (r: Vec<String>)
    ensures
        text::strs(r@) == declared(*p, p.container_ports@.len() as int),
{
    let mut r: Vec<String> = no_lines();
    let mut i: usize = 0;
    while i < p.container_ports.len()
        invariant
            i <= p.container_ports@.len(),
            text::strs(r@) == declared(*p, i as int),
        decreases p.container_ports@.len() - i,
    {
        say(&mut r, declared_text(&p.container_ports[i]));
        i = i + 1;
    }
    r
}

/// Does a pod behind the service declare a port of this name?
pub open spec fn name_defined(g: ClusterGraph, s: ServiceInfo, name: Seq<char>, n: int) -> bool {
    pick::any(n, |i: int| network::behind(g, s, i) && network::port_named(
            g.pods@[i],
            name,
            g.pods@[i].container_ports@.len() as int,
        ) is Some)
}

fn is_name_defined(g: &ClusterGraph, s: &ServiceInfo, name: &str) -> (r: bool)
    ensures
        r == name_defined(*g, *s, name@, g.pods@.len() as int),
{
    let mut r: bool = false;
    let mut i: usize = 0;
    while i < g.pods.len()
        invariant
            i <= g.pods@.len(),
            r == name_defined(*g, *s, name@, i as int),
        decreases g.pods@.len() - i,
    {
        if is_behind(g, s, i) && find_named(&g.pods[i], name).is_some() {
            r = true;
        }
        i = i + 1;
    }
    r
}

/// Does the pod declare a port with this number and protocol?
pub open spec fn port_declared(p: PodInfo, port: int, protocol: Seq<char>, n: int) -> bool {
    pick::any(n, |i: int| p.container_ports@[i].port == port && lettercase::same_letters(
            p.container_ports@[i].protocol@,
            protocol,
    ))
}

fn is_port_declared(p: &PodInfo, port: i32, protocol: &str) -> (r: bool)
    ensures
        r == port_declared(*p, port as int, protocol@, p.container_ports@.len() as int),
{
    let mut r: bool = false;
    let mut i: usize = 0;
    while i < p.container_ports.len()
        invariant
            i <= p.container_ports@.len(),
            r == port_declared(*p, port as int, protocol@, i as int),
        decreases p.container_ports@.len() - i,
    {
        if p.container_ports[i].port == port && alike(
            p.container_ports[i].protocol.as_str(),
            protocol,
        ) {
            r = true;
        }
        i = i + 1;
    }
    r
}

/// The issue for a service port that leads to a name that no pod declares.
pub open spec fn name_undefined(s: ServiceInfo, sp: ServicePortInfo, p: PodInfo) -> IssueView {
    model::issue_view(
        "svc-port-name:"@ + s.namespace@ + "/"@ + s.name@ + ":"@ + numeral::dec(sp.port as int),
        Severity::Critical,
        Layer::Service,
        model::target_view("Service"@, s.namespace@, s.name@),
        "Service "@ + s.name@ + " targets port name \""@ + sp.target@ + "\", which no pod defines"@,
        "A named targetPort must match a named containerPort. Because none does, the service has no endpoints for this port."@,
        seq!["service port "@ + numeral::dec(sp.port as int) + " targetPort: "@ + sp.target@, "container ports on "@ + p.name@ + ": "@ + entry::names_or_none(
                declared(p, p.container_ports@.len() as int),
        )],
        "Name the container port to match, or change targetPort to the number the app listens on."@,
        seq![
            "kubectl get svc "@ + s.name@ + " -n "@ + s.namespace@ + " -o yaml"@,
            "kubectl get pod "@ + p.name@ + " -n "@ + s.namespace@
                + " -o jsonpath='{.spec.containers[*].ports}'"@,
        ],
        Seq::empty(),
    )
}

fn name_undefined_issue(s: &ServiceInfo, sp: &ServicePortInfo, p: &PodInfo) -> (r: Issue)
    ensures
        r@ == name_undefined(*s, *sp, *p),
{
    issue(
        cat6(
            "svc-port-name:",
            s.namespace.as_str(),
            "/",
            s.name.as_str(),
            ":",
            dec_i32(sp.port).as_str(),
        ),
        Severity::Critical,
        Layer::Service,
        target("Service", s.namespace.as_str(), s.name.as_str()),
        cat5(
            "Service ",
            s.name.as_str(),
            " targets port name \"",
            sp.target.as_str(),
            "\", which no pod defines",
        ),
        "A named targetPort must match a named containerPort. Because none does, the service has no endpoints for this port.".to_owned(),
        lines2(
            cat4("service port ", dec_i32(sp.port).as_str(), " targetPort: ", sp.target.as_str()),
            cat4(
                "container ports on ",
                p.name.as_str(),
                ": ",
                names_text(&declared_ports(p)).as_str(),
            ),
        ),
        "Name the container port to match, or change targetPort to the number the app listens on.".to_owned(),
        lines2(
            cat5("kubectl get svc ", s.name.as_str(), " -n ", s.namespace.as_str(), " -o yaml"),
            cat5(
                "kubectl get pod ",
                p.name.as_str(),
                " -n ",
                s.namespace.as_str(),
                " -o jsonpath='{.spec.containers[*].ports}'",
            ),
        ),
        no_lines(),
    )
}

/// The issue for a service port that leads to a number that the pods do not declare.
pub open spec fn port_mismatch(
    s: ServiceInfo,
    sp: ServicePortInfo,
    p: PodInfo,
    port: int,
) -> IssueView {
    model::issue_view(
        "svc-port-mismatch:"@ + s.namespace@ + "/"@ + s.name@ + ":"@ + numeral::dec(sp.port as int),
        Severity::Warning,
        Layer::Service,
        model::target_view("Service"@, s.namespace@, s.name@),
        "Service "@ + s.name@ + " sends to port "@ + numeral::dec(port)
            + ", but the pods declare "@
            + split::join(declared(p, p.container_ports@.len() as int), ", "@),
        "Declared container ports are informational, so this may be fine. But if the app really listens only on the declared port, connections through the service are refused."@,
        seq![
            "service port "@ + numeral::dec(sp.port as int) + " targetPort: "@
                + numeral::dec(port) + "/"@ + sp.protocol@,
            "container ports: "@ + split::join(declared(p, p.container_ports@.len() as int), ", "@),
        ],
        "Make targetPort match the port the application actually listens on."@,
        seq![
            "kubectl get svc "@ + s.name@ + " -n "@ + s.namespace@ + " -o yaml"@,
            "kubectl get pod "@ + p.name@ + " -n "@ + s.namespace@
                + " -o jsonpath='{.spec.containers[*].ports}'"@,
        ],
        Seq::empty(),
    )
}

fn port_mismatch_issue(s: &ServiceInfo, sp: &ServicePortInfo, p: &PodInfo, port: i32) -> (r: Issue)
    ensures
        r@ == port_mismatch(*s, *sp, *p, port as int),
{
    issue(
        cat6(
            "svc-port-mismatch:",
            s.namespace.as_str(),
            "/",
            s.name.as_str(),
            ":",
            dec_i32(sp.port).as_str(),
        ),
        Severity::Warning,
        Layer::Service,
        target("Service", s.namespace.as_str(), s.name.as_str()),
        cat6(
            "Service ",
            s.name.as_str(),
            " sends to port ",
            dec_i32(port).as_str(),
            ", but the pods declare ",
            joined(&declared_ports(p), ", ").as_str(),
        ),
        "Declared container ports are informational, so this may be fine. But if the app really listens only on the declared port, connections through the service are refused.".to_owned(),
        lines2(
            cat6(
                "service port ",
                dec_i32(sp.port).as_str(),
                " targetPort: ",
                dec_i32(port).as_str(),
                "/",
                sp.protocol.as_str(),
            ),
            cat2("container ports: ", joined(&declared_ports(p), ", ").as_str()),
        ),
        "Make targetPort match the port the application actually listens on.".to_owned(),
        lines2(
            cat5("kubectl get svc ", s.name.as_str(), " -n ", s.namespace.as_str(), " -o yaml"),
            cat5(
                "kubectl get pod ",
                p.name.as_str(),
                " -n ",
                s.namespace.as_str(),
                " -o jsonpath='{.spec.containers[*].ports}'",
            ),
        ),
        no_lines(),
    )
}

/// The issue of one port of a service, where `p` is the first pod behind it.
pub open spec fn target_issue(
    g: ClusterGraph,
    s: ServiceInfo,
    p: PodInfo,
    sp: ServicePortInfo,
) -> Seq<IssueView> {
    match numeral::parse_i32(sp.target@) {
        None => if name_defined(g, s, sp.target@, g.pods@.len() as int) {
            Seq::empty()
        } else {
            seq![name_undefined(s, sp, p)]
        },
        Some(n) => if p.container_ports@.len() == 0 || port_declared(
            p,
            n,
            sp.protocol@,
            p.container_ports@.len() as int,
        ) {
            Seq::empty()
        } else {
            seq![port_mismatch(s, sp, p, n)]
        },
    }
}

fn issues_of_target(
    g: &ClusterGraph,
    s: &ServiceInfo,
    p: &PodInfo,
    sp: &ServicePortInfo,
) -> (r: Vec<Issue>)
    ensures
        model::views(r@) == target_issue(*g, *s, *p, *sp),
{
    let mut r: Vec<Issue> = no_issues();
    match read_i32(sp.target.as_str()) {
        None => {
            if !is_name_defined(g, s, sp.target.as_str()) {
                emit(&mut r, name_undefined_issue(s, sp, p));
            }
        },
        Some(n) => {
            if p.container_ports.len() > 0 && !is_port_declared(p, n, sp.protocol.as_str()) {
                emit(&mut r, port_mismatch_issue(s, sp, p, n));
            }
        },
    }
    r
}

/// The issues of the first `n` ports of a service.
pub open spec fn targets_issues(
    g: ClusterGraph,
    s: ServiceInfo,
    p: PodInfo,
    n: int,
) -> Seq<IssueView> {
    pick::gather(
        n,
        |j: int|
            target_issue(g, s, p, s.ports_detail@[j]),
    )
}

fn issues_of_targets(g: &ClusterGraph, s: &ServiceInfo, p: &PodInfo) -> (r: Vec<Issue>)
    ensures
        model::views(r@) == targets_issues(*g, *s, *p, s.ports_detail@.len() as int),
{
    let mut r: Vec<Issue> = no_issues();
    let mut j: usize = 0;
    while j < s.ports_detail.len()
        invariant
            j <= s.ports_detail@.len(),
            model::views(r@) == targets_issues(*g, *s, *p, j as int),
        decreases s.ports_detail@.len() - j,
    {
        emit_all(&mut r, issues_of_target(g, s, p, &s.ports_detail[j]));
        j = j + 1;
    }
    r
}

/// The issues of the ports of one service, if it has pods.
pub open spec fn service_ports(g: ClusterGraph, s: ServiceInfo) -> Seq<IssueView> {
    match sample(g, s, g.pods@.len() as int) {
        Some(i) => targets_issues(g, s, g.pods@[i], s.ports_detail@.len() as int),
        None => Seq::empty(),
    }
}

fn issues_of_service(g: &ClusterGraph, s: &ServiceInfo) -> (r: Vec<Issue>)
    ensures
        model::views(r@) == service_ports(*g, *s),
{
    match find_sample(g, s) {
        Some(i) => issues_of_targets(g, s, &g.pods[i]),
        None => no_issues(),
    }
}

/// The issues of the ports of the first `n` services.
pub open spec fn service_port_issues(g: ClusterGraph, n: int) -> Seq<IssueView> {
    pick::gather(
        n,
        |i: int|
            service_ports(g, g.services@[i]),
    )
}

/// Service ports that lead nowhere.
pub fn service_port_rules(g: &ClusterGraph) -> (r: Vec<Issue>)
    ensures
        model::views(r@) == service_port_issues(*g, g.services@.len() as int),
{
    let mut r: Vec<Issue> = no_issues();
    let mut i: usize = 0;
    while i < g.services.len()
        invariant
            i <= g.services@.len(),
            model::views(r@) == service_port_issues(*g, i as int),
        decreases g.services@.len() - i,
    {
        emit_all(&mut r, issues_of_service(g, &g.services[i]));
        i = i + 1;
    }
    r
}

} // verus!
