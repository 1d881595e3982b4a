//! Services: what their selectors match, their ports and their endpoints.

use crate::collect::parts;
use crate::collect::parts::{protocol_or_tcp, port_name, addresses_of};
use crate::collect::raw::{RawService, RawServicePort, RawSlice, RawSnapshot};
use crate::labels;
use crate::labels::labels_match;
use crate::model::{PodInfo, ServiceInfo, ServicePortInfo, WorkloadInfo};
use crate::numeral;
use crate::numeral::dec_i32;
use crate::pick;
use crate::text;
use crate::text::{cat3, cat5, copy_or_empty, no_lines, opt_copy, same, say};
use crate::labels::Labels;
use vstd::prelude::*;

verus! {

broadcast use crate::pick::lemma_add_nothing;

/// Does the slice hold endpoints of this service?
pub open spec fn serves(s: RawSlice, ns: Seq<char>, svc: Seq<char>) -> bool {
    text::or_empty(s.namespace) == ns && labels::lookup(
        s.labels@,
        "kubernetes.io/service-name"@,
    ) == Some(svc)
}

/// How many of the first `n` endpoints are ready, or are not. One that does
/// not say is ready.
pub open spec fn endpoints_in(s: RawSlice, ready: bool, n: int) -> nat {
    pick::tally(n, |j: int| (s.endpoints@[j] != Some(false)) == ready)
}

/// How many endpoints of a service the first `n` slices hold that are ready,
/// or are not.
pub open spec fn endpoints(
    slices: Seq<RawSlice>,
    ns: Seq<char>,
    svc: Seq<char>,
    ready: bool,
    n: int,
) -> nat
    decreases n,
{
    if n <= 0 {
        0
    } else {
        endpoints(slices, ns, svc, ready, n - 1) + if serves(slices[n - 1], ns, svc) {
            endpoints_in(slices[n - 1], ready, slices[n - 1].endpoints@.len() as int)
        } else {
            0
        }
    }
}

/// A count, as far as 32 bits hold it.
pub open spec fn capped(n: nat) -> int {
    if n > u32::MAX {
        u32::MAX as int
    } else {
        n as int
    }
}

fn endpoints_of(slices: &Vec<RawSlice>, ns: &str, svc: &str, ready: bool) -> (r: u32)
    ensures
        r == capped(endpoints(slices@, ns@, svc@, ready, slices@.len() as int)),
{
    let mut r: u32 = 0;
    let mut i: usize = 0;
    while i < slices.len()
        invariant
            i <= slices@.len(),
            r == capped(endpoints(slices@, ns@, svc@, ready, i as int)),
        decreases slices@.len() - i,
    {
        let s: &RawSlice = &slices[i];
        let named: bool = match s.labels.get("kubernetes.io/service-name") {
            Some(n) => same(n.as_str(), svc),
            None => false,
        };
        if named && same(copy_or_empty(&s.namespace).as_str(), ns) {
            let mut j: usize = 0;
            while j < s.endpoints.len()
                invariant
                    i < slices@.len(),
                    *s == slices@[i as int],
                    j <= s.endpoints@.len(),
                    r == capped(
                        endpoints(slices@, ns@, svc@, ready, i as int) + endpoints_in(
                            *s,
                            ready,
                            j as int,
                        ),
                    ),
                decreases s.endpoints@.len() - j,
            {
                let is_ready: bool = match s.endpoints[j] {
                    Some(b) => b,
                    None => true,
                };
                if is_ready == ready && r < u32::MAX {
                    r = r + 1;
                }
                j = j + 1;
            }
        }
        i = i + 1;
    }
    r
}

/// The names of the first `n` pods that the selector matches and that have not
/// finished.
pub open spec fn pods_matched(
    pods: Seq<PodInfo>,
    ns: Seq<char>,
    selector: Seq<(Seq<char>, Seq<char>)>,
    n: int,
) -> Seq<Seq<char>> {
    pick::gather(
        n,
        |i: int|
            if pods[i].namespace@ == ns && pods[i].phase@ != "Succeeded"@ && pods[i].phase@
                != "Failed"@ && labels::selects(selector, pods[i].labels@) {
                seq![pods[i].name@]
            } else {
                Seq::empty()
            },
    )
}

fn match_pods(pods: &Vec<PodInfo>, ns: &str, selector: &Labels) -> (r: Vec<String>)
    ensures
        text::strs(r@) == pods_matched(pods@, ns@, selector@, pods@.len() as int),
{
    let mut r: Vec<String> = no_lines();
    let mut i: usize = 0;
    while i < pods.len()
        invariant
            i <= pods@.len(),
            text::strs(r@) == pods_matched(pods@, ns@, selector@, i as int),
        decreases pods@.len() - i,
    {
        let p: &PodInfo = &pods[i];
        if same(p.namespace.as_str(), ns) && !same(p.phase.as_str(), "Succeeded") && !same(
            p.phase.as_str(),
            "Failed",
        ) && labels_match(selector, &p.labels) {
            say(&mut r, p.name.clone());
        }
        i = i + 1;
    }
    r
}

/// The ids of the first `n` workloads whose pod template the selector matches.
pub open spec fn workloads_matched(
    ws: Seq<WorkloadInfo>,
    ns: Seq<char>,
    selector: Seq<(Seq<char>, Seq<char>)>,
    n: int,
) -> Seq<Seq<char>> {
    pick::gather(
        n,
        |i: int|
            if ws[i].namespace@ == ns && labels::selects(selector, ws[i].pod_labels@) {
                seq![ws[i].id@]
            } else {
                Seq::empty()
            },
    )
}

fn match_workloads(ws: &Vec<WorkloadInfo>, ns: &str, selector: &Labels) -> (r: Vec<String>)
    ensures
        text::strs(r@) == workloads_matched(ws@, ns@, selector@, ws@.len() as int),
{
    let mut r: Vec<String> = no_lines();
    let mut i: usize = 0;
    while i < ws.len()
        invariant
            i <= ws@.len(),
            text::strs(r@) == workloads_matched(ws@, ns@, selector@, i as int),
        decreases ws@.len() - i,
    {
        let w: &WorkloadInfo = &ws[i];
        if same(w.namespace.as_str(), ns) && labels_match(selector, &w.pod_labels) {
            say(&mut r, w.id.clone());
        }
        i = i + 1;
    }
    r
}

/// The port on the pods that a service port leads to: its own number where
/// nothing else is said.
pub open spec fn target_of(p: RawServicePort) -> Seq<char> {
    match p.target {
        Some(t) => parts::port_text(t),
        None => numeral::dec(p.port as int),
    }
}

/// A service port as text, such as `80→8080/TCP`.
pub open spec fn port_line(p: RawServicePort) -> Seq<char> {
    let port = numeral::dec(p.port as int);
    if target_of(p) != port {
        port + "→"@ + target_of(p) + "/"@ + parts::protocol(p.protocol)
    } else {
        port + "/"@ + parts::protocol(p.protocol)
    }
}

/// The first `n` service ports as text.
pub open spec fn port_lines(ports: Seq<RawServicePort>, n: int) -> Seq<Seq<char>> {
    pick::gather(n, |i: int| seq![port_line(ports[i])])
}

fn find_target(p: &RawServicePort) -> (r: String)
    ensures
        r@ == target_of(*p),
{
    match &p.target {
        Some(t) => port_name(t),
        None => dec_i32(p.port),
    }
}

fn write_ports(ports: &Vec<RawServicePort>) -> (r: Vec<String>)
    ensures
        text::strs(r@) == port_lines(ports@, ports@.len() as int),
{
    let mut r: Vec<String> = no_lines();
    let mut i: usize = 0;
    while i < ports.len()
        invariant
            i <= ports@.len(),
            text::strs(r@) == port_lines(ports@, i as int),
        decreases ports@.len() - i,
    {
        let p: &RawServicePort = &ports[i];
        let port: String = dec_i32(p.port);
        let target: String = find_target(p);
        let protocol: String = protocol_or_tcp(&p.protocol);
        let line: String = if same(target.as_str(), port.as_str()) {
            cat3(port.as_str(), "/", protocol.as_str())
        } else {
            cat5(port.as_str(), "→", target.as_str(), "/", protocol.as_str())
        };
        say(&mut r, line);
        i = i + 1;
    }
    r
}

/// What a service port makes.
pub open spec fn port_from(p: RawServicePort, i: ServicePortInfo) -> bool {
    i.port == p.port && i.target@ == target_of(p) && i.protocol@ == parts::protocol(p.protocol)
}

fn convert_port(p: &RawServicePort) -> (r: ServicePortInfo)
    ensures
        port_from(*p, r),
{
    ServicePortInfo {
        port: p.port,
        target: find_target(p),
        protocol: protocol_or_tcp(&p.protocol),
    }
}

/// What the service ports make.
pub open spec fn ports_from(v: Seq<RawServicePort>, r: Seq<ServicePortInfo>) -> bool {
    r.len() == v.len() && forall|i: int| 0 <= i < v.len() ==> port_from(v[i], #[trigger] r[i])
}

fn convert_service_ports(v: &Vec<RawServicePort>) -> (r: Vec<ServicePortInfo>)
    ensures
        ports_from(v@, r@),
{
    let mut r: Vec<ServicePortInfo> = Vec::new();
    let mut i: usize = 0;
    while i < v.len()
        invariant
            i <= v@.len(),
            r@.len() == i,
            forall|j: int| 0 <= j < i ==> port_from(v@[j], #[trigger] r@[j]),
        decreases v@.len() - i,
    {
        let x: ServicePortInfo = convert_port(&v[i]);
        r.push(x);
        i = i + 1;
    }
    r
}

/// What a service makes, among these pods and workloads.
pub open spec fn service_from(
    raw: RawSnapshot,
    pods: Seq<PodInfo>,
    ws: Seq<WorkloadInfo>,
    s: RawService,
    i: ServiceInfo,
) -> bool {
    let ns = text::or_empty(s.namespace);
    let name = text::or_empty(s.name);
    let slices = raw.slices@;
    &&& i.namespace@ == ns
    &&& i.name@ == name
    &&& i.type_@ == match s.type_ {
        Some(t) => t@,
        None => "ClusterIP"@,
    }
    &&& i.cluster_ip == s.cluster_ip
    &&& i.selector@ == s.selector@
    &&& text::strs(i.ports@) == port_lines(s.ports@, s.ports@.len() as int)
    &&& ports_from(s.ports@, i.ports_detail@)
    &&& text::strs(i.external@) == parts::addresses(s.addresses@, s.addresses@.len() as int)
    &&& i.ready_endpoints == capped(endpoints(slices, ns, name, true, slices.len() as int))
    &&& i.not_ready_endpoints == capped(endpoints(slices, ns, name, false, slices.len() as int))
    &&& text::strs(i.pods@) == pods_matched(pods, ns, s.selector@, pods.len() as int)
    &&& text::strs(i.workloads@) == workloads_matched(ws, ns, s.selector@, ws.len() as int)
}

fn convert_service(
    raw: &RawSnapshot,
    pods: &Vec<PodInfo>,
    ws: &Vec<WorkloadInfo>,
    s: &RawService,
) -> (r: ServiceInfo)
    ensures
        service_from(*raw, pods@, ws@, *s, r),
{
    let namespace: String = copy_or_empty(&s.namespace);
    let name: String = copy_or_empty(&s.name);
    let type_: String = match &s.type_ {
        Some(t) => t.clone(),
        None => "ClusterIP".to_owned(),
    };
    let pods: Vec<String> = match_pods(pods, namespace.as_str(), &s.selector);
    let workloads: Vec<String> = match_workloads(ws, namespace.as_str(), &s.selector);
    let ready: u32 = endpoints_of(&raw.slices, namespace.as_str(), name.as_str(), true);
    let not_ready: u32 = endpoints_of(&raw.slices, namespace.as_str(), name.as_str(), false);
    ServiceInfo {
        namespace,
        name,
        type_,
        cluster_ip: opt_copy(&s.cluster_ip),
        selector: s.selector.copy(),
        ports: write_ports(&s.ports),
        ports_detail: convert_service_ports(&s.ports),
        external: addresses_of(&s.addresses),
        ready_endpoints: ready,
        not_ready_endpoints: not_ready,
        pods,
        workloads,
    }
}

/// What the services make.
pub open spec fn services_from(
    raw: RawSnapshot,
    pods: Seq<PodInfo>,
    ws: Seq<WorkloadInfo>,
    r: Seq<ServiceInfo>,
) -> bool {
    r.len() == raw.services@.len() && forall|i: int|
        0 <= i < r.len() ==> service_from(raw, pods, ws, raw.services@[i], #[trigger] r[i])
}

/// Convert the services.
pub fn convert_services(raw: &RawSnapshot, pods: &Vec<PodInfo>, ws: &Vec<WorkloadInfo>) -> (r: Vec<
    ServiceInfo,
>)
    ensures
        services_from(*raw, pods@, ws@, r@),
{
    let mut r: Vec<ServiceInfo> = Vec::new();
    let mut i: usize = 0;
    while i < raw.services.len()
        invariant
            i <= raw.services@.len(),
            r@.len() == i,
            forall|j: int|
                0 <= j < i ==> service_from(*raw, pods@, ws@, raw.services@[j], #[trigger] r@[j]),
        decreases raw.services@.len() - i,
    {
        let s: ServiceInfo = convert_service(raw, pods, ws, &raw.services[i]);
        r.push(s);
        i = i + 1;
    }
    r
}

} // verus!
