//! The parts that several objects share: quantities, conditions, owners, ports.

use crate::collect::raw::{
    PortRef, RawAddress, RawCondition, RawContainer, RawOwner, RawPort, RawProbe,
};
use crate::model::{ContainerPortInfo, ContainerSpecInfo, ProbeInfo};
use crate::numeral;
use crate::numeral::dec_i32;
use crate::pick;
use crate::quantity;
use crate::quantity::{bytes, cpu_milli};
use crate::scan;
use crate::text;
use crate::text::{copy_or_empty, no_lines, opt_copy, same, say};
use vstd::prelude::*;

verus! {

broadcast use crate::pick::lemma_add_nothing;

/// Is a number the one that is meant?
pub open spec fn is_amount(o: Option<i64>, v: Option<int>) -> bool {
    match o {
        Some(n) => v == Some(n as int),
        None => v is None,
    }
}

/// The thousandths of a CPU quantity, if it is there and can be read.
pub open spec fn cpu(q: Option<String>) -> Option<int> {
    match q {
        Some(s) => quantity::amount(quantity::cpu_unit(scan::trim(s@))),
        None => None,
    }
}

/// The bytes of a memory quantity, if it is there and can be read.
pub open spec fn memory(q: Option<String>) -> Option<int> {
    match q {
        Some(s) => quantity::amount(quantity::memory_unit(scan::trim(s@))),
        None => None,
    }
}

/// Read a CPU quantity, if it is there.
pub fn amount_cpu(q: &Option<String>) -> (r: Option<i64>)
    ensures
        is_amount(r, cpu(*q)),
{
    match q {
        Some(s) => cpu_milli(s.as_str()),
        None => None,
    }
}

/// Read a memory quantity, if it is there.
pub fn amount_bytes(q: &Option<String>) -> (r: Option<i64>)
    ensures
        is_amount(r, memory(*q)),
{
    match q {
        Some(s) => bytes(s.as_str()),
        None => None,
    }
}

/// Is one of the first `n` conditions of this type, and True?
pub open spec fn holds(cs: Seq<RawCondition>, t: Seq<char>, n: int) -> bool {
    pick::any(n, |i: int| cs[i].type_@ == t && cs[i].status@ == "True"@)
}

/// Is a condition of this type True?
pub fn condition_true(cs: &Vec<RawCondition>, t: &str) -> (r: bool)
    ensures
        r == holds(cs@, t@, cs@.len() as int),
{
    let mut r: bool = false;
    let mut i: usize = 0;
    while i < cs.len()
        invariant
            i <= cs@.len(),
            r == holds(cs@, t@, i as int),
        decreases cs@.len() - i,
    {
        if same(cs[i].type_.as_str(), t) && same(cs[i].status.as_str(), "True") {
            r = true;
        }
        i = i + 1;
    }
    r
}

/// The controller among the first `n` owners.
pub open spec fn controller_of(owners: Seq<RawOwner>, n: int) -> Option<int> {
    pick::first(n, |i: int| owners[i].controller == Some(true))
}

/// Find the controller among the owners.
pub fn controller(owners: &Vec<RawOwner>) -> (r: Option<usize>)
    ensures
        match r {
            Some(k) => k < owners@.len() && controller_of(owners@, owners@.len() as int) == Some(
                k as int,
            ),
            None => controller_of(owners@, owners@.len() as int) is None,
        },
{
    let mut r: Option<usize> = None;
    let mut i: usize = 0;
    while i < owners.len()
        invariant
            i <= owners@.len(),
            match r {
                Some(k) => k < i && controller_of(owners@, i as int) == Some(k as int),
                None => controller_of(owners@, i as int) is None,
            },
        decreases owners@.len() - i,
    {
        let controls: bool = match owners[i].controller {
            Some(b) => b,
            None => false,
        };
        if r.is_none() && controls {
            r = Some(i);
        }
        i = i + 1;
    }
    r
}

/// A protocol; TCP where none is given.
pub open spec fn protocol(p: Option<String>) -> Seq<char> {
    match p {
        Some(s) => s@,
        None => "TCP"@,
    }
}

/// A protocol; TCP where none is given.
pub fn protocol_or_tcp(p: &Option<String>) -> (r: String)
    ensures
        r@ == protocol(*p),
{
    match p {
        Some(s) => s.clone(),
        None => "TCP".to_owned(),
    }
}

/// A port by number or by name, as text.
pub open spec fn port_text(p: PortRef) -> Seq<char> {
    match p {
        PortRef::Number(n) => numeral::dec(n as int),
        PortRef::Name(s) => s@,
    }
}

/// A port by number or by name, as text.
pub fn port_name(p: &PortRef) -> (r: String)
    ensures
        r@ == port_text(*p),
{
    match p {
        PortRef::Number(n) => dec_i32(*n),
        PortRef::Name(s) => s.clone(),
    }
}

/// The addresses of a load balancer, of the first `n`: host names before IP
/// addresses.
pub open spec fn addresses(v: Seq<RawAddress>, n: int) -> Seq<Seq<char>> {
    pick::gather(
        n,
        |i: int|
            match (v[i].hostname, v[i].ip) {
                (Some(h), _) => seq![h@],
                (None, Some(ip)) => seq![ip@],
                (None, None) => Seq::empty(),
            },
    )
}

/// The addresses of a load balancer.
pub fn addresses_of(v: &Vec<RawAddress>) -> (r: Vec<String>)
    ensures
        text::strs(r@) == addresses(v@, v@.len() as int),
{
    let mut r: Vec<String> = no_lines();
    let mut i: usize = 0;
    while i < v.len()
        invariant
            i <= v@.len(),
            text::strs(r@) == addresses(v@, i as int),
        decreases v@.len() - i,
    {
        match (&v[i].hostname, &v[i].ip) {
            (Some(h), _) => say(&mut r, h.clone()),
            (None, Some(ip)) => say(&mut r, ip.clone()),
            (None, None) => {},
        }
        i = i + 1;
    }
    r
}

/// The declared port that a container port makes.
pub open spec fn port_from(p: RawPort, i: ContainerPortInfo) -> bool {
    i.name == p.name && i.port == p.port && i.protocol@ == protocol(p.protocol)
}

fn convert_port(p: &RawPort) -> (r: ContainerPortInfo)
    ensures
        port_from(*p, r),
{
    ContainerPortInfo {
        name: opt_copy(&p.name),
        port: p.port,
        protocol: protocol_or_tcp(&p.protocol),
    }
}

/// The declared ports that container ports make.
pub open spec fn ports_from(v: Seq<RawPort>, r: Seq<ContainerPortInfo>) -> bool {
    r.len() == v.len() && forall|i: int| 0 <= i < v.len() ==> port_from(v[i], #[trigger] r[i])
}

pub fn convert_ports(v: &Vec<RawPort>) -> (r: Vec<ContainerPortInfo>)
    ensures
        ports_from(v@, r@),
{
    let mut r: Vec<ContainerPortInfo> = Vec::new();
    let mut i: usize = 0;
    while i < v.len()
        invariant
            i <= v@.len(),
            r@.len() == i,
            forall|j: int| 0 <= j < i ==> port_from(v@[j], #[trigger] r@[j]),
        decreases v@.len() - i,
    {
        let x: ContainerPortInfo = convert_port(&v[i]);
        r.push(x);
        i = i + 1;
    }
    r
}

/// A number, or what it is when it is not given.
pub open spec fn given(n: Option<i32>, other: i32) -> i32 {
    match n {
        Some(v) => v,
        None => other,
    }
}

/// A number, or what it is when it is not given.
pub fn given_or(n: Option<i32>, other: i32) -> (r: i32)
    ensures
        r == given(n, other),
{
    match n {
        Some(v) => v,
        None => other,
    }
}

/// How a probe asks, and where: the handler, the path, the port and the scheme.
pub open spec fn asks(p: RawProbe) -> (
    Seq<char>,
    Option<Seq<char>>,
    Option<Seq<char>>,
    Option<Seq<char>>,
) {
    match (p.http, p.tcp, p.grpc) {
        (Some(h), _, _) => (
            "http"@,
            Some(
                match h.path {
                    Some(s) => s@,
                    None => "/"@,
                },
            ),
            Some(port_text(h.port)),
            text::opt(h.scheme),
        ),
        (None, Some(t), _) => ("tcp"@, None, Some(port_text(t)), None),
        (None, None, Some(n)) => ("grpc"@, None, Some(numeral::dec(n as int)), None),
        (None, None, None) => ("exec"@, None, None, None),
    }
}

/// What a probe makes. What it does not say is as Kubernetes has it by default.
pub open spec fn probe_from(p: RawProbe, i: ProbeInfo) -> bool {
    &&& i.kind@ == p.kind@
    &&& (i.handler@, text::opt(i.path), text::opt(i.port), text::opt(i.scheme)) == asks(p)
    &&& i.initial_delay == given(p.initial_delay, 0)
    &&& i.timeout == given(p.timeout, 1)
    &&& i.period == given(p.period, 10)
    &&& i.failure_threshold == given(p.failure_threshold, 3)
}

fn convert_probe(p: &RawProbe) -> (r: ProbeInfo)
    ensures
        probe_from(*p, r),
{
    let (handler, path, port, scheme): (
        &str,
        Option<String>,
        Option<String>,
        Option<String>,
    ) = match (&p.http, &p.tcp, &p.grpc) {
        (Some(h), _, _) => {
            let path: String = match &h.path {
                Some(s) => s.clone(),
                None => "/".to_owned(),
            };
            ("http", Some(path), Some(port_name(&h.port)), opt_copy(&h.scheme))
        },
        (None, Some(t), _) => ("tcp", None, Some(port_name(t)), None),
        (None, None, Some(n)) => ("grpc", None, Some(dec_i32(*n)), None),
        (None, None, None) => ("exec", None, None, None),
    };
    ProbeInfo {
        kind: p.kind.clone(),
        handler: handler.to_owned(),
        path,
        port,
        scheme,
        initial_delay: given_or(p.initial_delay, 0),
        timeout: given_or(p.timeout, 1),
        period: given_or(p.period, 10),
        failure_threshold: given_or(p.failure_threshold, 3),
    }
}

/// What the probes of a container make.
pub open spec fn probes_from(v: Seq<RawProbe>, r: Seq<ProbeInfo>) -> bool {
    r.len() == v.len() && forall|i: int| 0 <= i < v.len() ==> probe_from(v[i], #[trigger] r[i])
}

fn convert_probes(v: &Vec<RawProbe>) -> (r: Vec<ProbeInfo>)
    ensures
        probes_from(v@, r@),
{
    let mut r: Vec<ProbeInfo> = Vec::new();
    let mut i: usize = 0;
    while i < v.len()
        invariant
            i <= v@.len(),
            r@.len() == i,
            forall|j: int| 0 <= j < i ==> probe_from(v@[j], #[trigger] r@[j]),
        decreases v@.len() - i,
    {
        let x: ProbeInfo = convert_probe(&v[i]);
        r.push(x);
        i = i + 1;
    }
    r
}

/// What a container of a pod template makes.
pub open spec fn container_from(c: RawContainer, i: ContainerSpecInfo) -> bool {
    &&& i.name@ == c.name@
    &&& i.image@ == text::or_empty(c.image)
    &&& is_amount(i.cpu_request_milli, cpu(c.cpu_request))
    &&& is_amount(i.memory_request_bytes, memory(c.memory_request))
    &&& is_amount(i.memory_limit_bytes, memory(c.memory_limit))
    &&& ports_from(c.ports@, i.ports@)
    &&& probes_from(c.probes@, i.probes@)
}

fn convert_container(c: &RawContainer) -> (r: ContainerSpecInfo)
    ensures
        container_from(*c, r),
{
    ContainerSpecInfo {
        name: c.name.clone(),
        image: copy_or_empty(&c.image),
        cpu_request_milli: amount_cpu(&c.cpu_request),
        memory_request_bytes: amount_bytes(&c.memory_request),
        memory_limit_bytes: amount_bytes(&c.memory_limit),
        ports: convert_ports(&c.ports),
        probes: convert_probes(&c.probes),
    }
}

/// What the containers of a pod template make.
pub open spec fn containers_from(v: Seq<RawContainer>, r: Seq<ContainerSpecInfo>) -> bool {
    r.len() == v.len() && forall|i: int| 0 <= i < v.len() ==> container_from(v[i], #[trigger] r[i])
}

pub fn convert_containers(v: &Vec<RawContainer>) -> (r: Vec<ContainerSpecInfo>)
    ensures
        containers_from(v@, r@),
{
    let mut r: Vec<ContainerSpecInfo> = Vec::new();
    let mut i: usize = 0;
    while i < v.len()
        invariant
            i <= v@.len(),
            r@.len() == i,
            forall|j: int| 0 <= j < i ==> container_from(v@[j], #[trigger] r@[j]),
        decreases v@.len() - i,
    {
        let x: ContainerSpecInfo = convert_container(&v[i]);
        r.push(x);
        i = i + 1;
    }
    r
}

} // verus!
