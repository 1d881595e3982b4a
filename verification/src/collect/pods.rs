//! Pods: their containers, their owner and what `kubectl get pods` would say of them.

use crate::collect::parts;
use crate::collect::parts::{amount_bytes, amount_cpu, convert_ports, condition_true, controller};
use crate::collect::raw::{
    RawContainer, RawOwner, RawPod, RawReplicaSet, RawSnapshot, RawState, RawStatus,
};
use crate::model;
use crate::model::{ContainerPortInfo, ContainerStatusInfo, PodInfo, workload_id};
use crate::pick;
use crate::text;
use crate::text::{cat2, copy_list, copy_or_empty, opt_copy, same};
use vstd::prelude::*;

verus! {

broadcast use crate::pick::lemma_add_nothing;

/// The status of the container of this name.
pub open spec fn status_of(statuses: Seq<RawStatus>, name: Seq<char>) -> Option<RawStatus> {
    match pick::first(statuses.len() as int, |i: int| statuses[i].name@ == name) {
        Some(i) => Some(statuses[i]),
        None => None,
    }
}

fn find_status<'a>(statuses: &'a Vec<RawStatus>, name: &str) -> (r: Option<&'a RawStatus>)
    ensures
        match r {
            Some(s) => status_of(statuses@, name@) == Some(*s),
            None => status_of(statuses@, name@) is None,
        },
{
    let ghost p = |i: int| statuses@[i].name@ == name@;
    let mut i: usize = 0;
    while i < statuses.len()
        invariant
            i <= statuses@.len(),
            p == (|i: int| statuses@[i].name@ == name@),
            forall|j: int| 0 <= j < i ==> !#[trigger] p(j),
        decreases statuses@.len() - i,
    {
        if same(statuses[i].name.as_str(), name) {
            proof {
                pick::lemma_first(statuses@.len() as int, p);
                assert(p(i as int));
            }
            return Some(&statuses[i]);
        }
        i = i + 1;
    }
    proof {
        pick::lemma_first(statuses@.len() as int, p);
    }
    None
}

/// The name of a state: running before waiting before terminated. A state
/// that says nothing counts as waiting.
pub open spec fn state_name(s: Option<RawState>) -> Seq<char> {
    match s {
        Some(s) => if s.running {
            "running"@
        } else if s.waiting is Some {
            "waiting"@
        } else if s.terminated is Some {
            "terminated"@
        } else {
            "waiting"@
        },
        None => "waiting"@,
    }
}

/// Why a container is in its state; a running one gives no reason.
pub open spec fn state_reason(s: Option<RawState>) -> Option<String> {
    match s {
        Some(s) => if s.running {
            None
        } else {
            match (s.waiting, s.terminated) {
                (Some(w), _) => w.reason,
                (None, Some(t)) => t.reason,
                (None, None) => None,
            }
        },
        None => None,
    }
}

/// The message that goes with the reason.
pub open spec fn state_message(s: Option<RawState>) -> Option<String> {
    match s {
        Some(s) => if s.running {
            None
        } else {
            match (s.waiting, s.terminated) {
                (Some(w), _) => w.message,
                (None, Some(t)) => t.message,
                (None, None) => None,
            }
        },
        None => None,
    }
}

fn read_state(s: &Option<RawState>) -> (r: (String, Option<String>, Option<String>))
    ensures
        r.0@ == state_name(*s),
        r.1 == state_reason(*s),
        r.2 == state_message(*s),
{
    match s {
        Some(s) => {
            if s.running {
                ("running".to_owned(), None, None)
            } else {
                match (&s.waiting, &s.terminated) {
                    (Some(w), _) => (
                        "waiting".to_owned(),
                        opt_copy(&w.reason),
                        opt_copy(&w.message),
                    ),
                    (None, Some(t)) => (
                        "terminated".to_owned(),
                        opt_copy(&t.reason),
                        opt_copy(&t.message),
                    ),
                    (None, None) => ("waiting".to_owned(), None, None),
                }
            }
        },
        None => ("waiting".to_owned(), None, None),
    }
}

/// What a container of a pod makes, with its status where there is one.
pub open spec fn container_from(
    statuses: Seq<RawStatus>,
    c: RawContainer,
    i: ContainerStatusInfo,
) -> bool {
    let st = status_of(statuses, c.name@);
    let state = match st {
        Some(s) => s.state,
        None => None,
    };
    &&& i.name@ == c.name@
    &&& i.image@ == text::or_empty(c.image)
    &&& i.ready == (st is Some && st->0.ready)
    &&& i.restart_count == match st {
        Some(s) => s.restart_count,
        None => 0,
    }
    &&& i.state@ == state_name(state)
    &&& i.reason == state_reason(state)
    &&& i.message == state_message(state)
    &&& i.last_reason == match st {
        Some(s) => match s.last {
            Some(e) => e.reason,
            None => None,
        },
        None => None,
    }
    &&& i.last_exit_code == match st {
        Some(s) => match s.last {
            Some(e) => Some(e.exit_code),
            None => None,
        },
        None => None,
    }
    &&& parts::is_amount(i.cpu_request_milli, parts::cpu(c.cpu_request))
    &&& parts::is_amount(i.memory_limit_bytes, parts::memory(c.memory_limit))
}

fn convert_container(statuses: &Vec<RawStatus>, c: &RawContainer) -> (r: ContainerStatusInfo)
    ensures
        container_from(statuses@, *c, r),
{
    match find_status(statuses, c.name.as_str()) {
        Some(s) => {
            let (state, reason, message) = read_state(&s.state);
            let (last_reason, last_exit_code): (Option<String>, Option<i32>) = match &s.last {
                Some(e) => (opt_copy(&e.reason), Some(e.exit_code)),
                None => (None, None),
            };
            ContainerStatusInfo {
                name: c.name.clone(),
                image: copy_or_empty(&c.image),
                ready: s.ready,
                restart_count: s.restart_count,
                state,
                reason,
                message,
                last_reason,
                last_exit_code,
                cpu_request_milli: amount_cpu(&c.cpu_request),
                memory_limit_bytes: amount_bytes(&c.memory_limit),
            }
        },
        None => ContainerStatusInfo {
            name: c.name.clone(),
            image: copy_or_empty(&c.image),
            ready: false,
            restart_count: 0,
            state: "waiting".to_owned(),
            reason: None,
            message: None,
            last_reason: None,
            last_exit_code: None,
            cpu_request_milli: amount_cpu(&c.cpu_request),
            memory_limit_bytes: amount_bytes(&c.memory_limit),
        },
    }
}

/// What the containers of a pod make.
pub open spec fn containers_from(
    statuses: Seq<RawStatus>,
    v: Seq<RawContainer>,
    r: Seq<ContainerStatusInfo>,
) -> bool {
    r.len() == v.len() && forall|i: int| 0 <= i < v.len() ==> container_from(
        statuses,
        v[i],
        #[trigger] r[i],
    )
}

fn convert_all(statuses: &Vec<RawStatus>, v: &Vec<RawContainer>) -> (r: Vec<ContainerStatusInfo>)
    ensures
        containers_from(statuses@, v@, r@),
{
    let mut r: Vec<ContainerStatusInfo> = Vec::new();
    let mut i: usize = 0;
    while i < v.len()
        invariant
            i <= v@.len(),
            r@.len() == i,
            forall|j: int| 0 <= j < i ==> container_from(statuses@, v@[j], #[trigger] r@[j]),
        decreases v@.len() - i,
    {
        let x: ContainerStatusInfo = convert_container(statuses, &v[i]);
        r.push(x);
        i = i + 1;
    }
    r
}

/// The restarts of the first `n` containers together, as far as 32 bits hold.
pub open spec fn restarts(cs: Seq<ContainerStatusInfo>, n: int) -> int
    decreases n,
{
    if n <= 0 {
        0
    } else {
        clamp32(restarts(cs, n - 1) + cs[n - 1].restart_count)
    }
}

/// The nearest number that 32 bits hold.
pub open spec fn clamp32(n: int) -> int {
    if n > i32::MAX {
        i32::MAX as int
    } else if n < i32::MIN {
        i32::MIN as int
    } else {
        n
    }
}

fn restarts_of(cs: &Vec<ContainerStatusInfo>) -> (r: i32)
    ensures
        r == restarts(cs@, cs@.len() as int),
{
    let mut r: i32 = 0;
    let mut i: usize = 0;
    while i < cs.len()
        invariant
            i <= cs@.len(),
            r == restarts(cs@, i as int),
        decreases cs@.len() - i,
    {
        let sum: i64 = r as i64 + cs[i].restart_count as i64;
        r = if sum > 2147483647 {
            i32::MAX
        } else if sum < -2147483648 {
            i32::MIN
        } else {
            sum as i32
        };
        i = i + 1;
    }
    r
}

/// The declared ports of the first `n` containers, one container after the
/// other.
pub open spec fn ports_from(cs: Seq<RawContainer>, n: int, r: Seq<ContainerPortInfo>) -> bool
    decreases n,
{
    if n <= 0 {
        r.len() == 0
    } else {
        let k = r.len() - cs[n - 1].ports@.len();
        k >= 0 && ports_from(cs, n - 1, r.take(k)) && parts::ports_from(
            cs[n - 1].ports@,
            r.skip(k),
        )
    }
}

fn ports_of(cs: &Vec<RawContainer>) -> (r: Vec<ContainerPortInfo>)
    ensures
        ports_from(cs@, cs@.len() as int, r@),
{
    let mut r: Vec<ContainerPortInfo> = Vec::new();
    let mut i: usize = 0;
    while i < cs.len()
        invariant
            i <= cs@.len(),
            ports_from(cs@, i as int, r@),
        decreases cs@.len() - i,
    {
        let mut more: Vec<ContainerPortInfo> = convert_ports(&cs[i].ports);
        let ghost a = r@;
        let ghost b = more@;
        r.append(&mut more);
        proof {
            assert(r@.take(a.len() as int) =~= a);
            assert(r@.skip(a.len() as int) =~= b);
        }
        i = i + 1;
    }
    r
}

/// The reason to show for an init container that waits, among the first `n`.
pub open spec fn init_reason(statuses: Seq<RawStatus>, n: int) -> Option<Seq<char>> {
    match pick::first(n, |i: int| held_up(statuses[i]) is Some) {
        Some(i) => held_up(statuses[i]),
        None => None,
    }
}

/// Why an init container waits, other than for its turn.
pub open spec fn held_up(s: RawStatus) -> Option<Seq<char>> {
    match s.state {
        Some(st) => match st.waiting {
            Some(w) => match w.reason {
                Some(r) => if r@ != "PodInitializing"@ {
                    Some(r@)
                } else {
                    None
                },
                None => None,
            },
            None => None,
        },
        None => None,
    }
}

fn waits_for(s: &RawStatus) -> (r: Option<String>)
    ensures
        text::opt(r) == held_up(*s),
{
    match &s.state {
        Some(st) => match &st.waiting {
            Some(w) => match &w.reason {
                Some(r) => {
                    if same(r.as_str(), "PodInitializing") {
                        None
                    } else {
                        Some(r.clone())
                    }
                },
                None => None,
            },
            None => None,
        },
        None => None,
    }
}

fn init_waits(statuses: &Vec<RawStatus>) -> (r: Option<String>)
    ensures
        text::opt(r) == init_reason(statuses@, statuses@.len() as int),
{
    let mut r: Option<String> = None;
    let mut i: usize = 0;
    while i < statuses.len()
        invariant
            i <= statuses@.len(),
            text::opt(r) == init_reason(statuses@, i as int),
            r is None <==> pick::first(i as int, |i: int| held_up(statuses@[i]) is Some) is None,
        decreases statuses@.len() - i,
    {
        proof {
            pick::lemma_first(i as int, |i: int| held_up(statuses@[i]) is Some);
        }
        if r.is_none() {
            r = waits_for(&statuses[i]);
        }
        i = i + 1;
    }
    r
}

/// Does the container not run, and say why?
pub open spec fn explains(c: ContainerStatusInfo) -> bool {
    c.state@ != "running"@ && c.reason is Some
}

/// What the STATUS column of `kubectl get pods` says, about.
pub open spec fn shown_status(p: RawPod, phase: Seq<char>, cs: Seq<ContainerStatusInfo>) -> Seq<
    char,
> {
    if p.deleting {
        "Terminating"@
    } else if p.reason is Some {
        p.reason->0@
    } else if init_reason(p.init_statuses@, p.init_statuses@.len() as int) is Some {
        "Init:"@ + init_reason(p.init_statuses@, p.init_statuses@.len() as int)->0
    } else {
        match pick::first(cs.len() as int, |i: int| explains(cs[i])) {
            Some(i) => cs[i].reason->0@,
            None => phase,
        }
    }
}

/// What the STATUS column of `kubectl get pods` says, about.
fn display_status(p: &RawPod, phase: &str, containers: &Vec<ContainerStatusInfo>) -> (r: String)
    ensures
        r@ == shown_status(*p, phase@, containers@),
{
    if p.deleting {
        return "Terminating".to_owned();
    }
    match &p.reason {
        Some(r) => {
            return r.clone();
        },
        None => {},
    }
    match init_waits(&p.init_statuses) {
        Some(w) => {
            return cat2("Init:", w.as_str());
        },
        None => {},
    }
    let ghost q = |i: int| explains(containers@[i]);
    let mut i: usize = 0;
    while i < containers.len()
        invariant
            i <= containers@.len(),
            q == (|i: int| explains(containers@[i])),
            forall|j: int| 0 <= j < i ==> !#[trigger] q(j),
            !p.deleting,
            p.reason is None,
            init_reason(p.init_statuses@, p.init_statuses@.len() as int) is None,
        decreases containers@.len() - i,
    {
        if !same(containers[i].state.as_str(), "running") {
            match &containers[i].reason {
                Some(r) => {
                    proof {
                        pick::lemma_first(containers@.len() as int, q);
                        assert(q(i as int));
                    }
                    return r.clone();
                },
                None => {},
            }
        }
        i = i + 1;
    }
    proof {
        pick::lemma_first(containers@.len() as int, q);
    }
    phase.to_owned()
}

/// Does the replica set have this name, and a deployment as its controller?
pub open spec fn leads(rs: RawReplicaSet, ns: Seq<char>, name: Seq<char>) -> bool {
    let k = parts::controller_of(rs.owners@, rs.owners@.len() as int);
    text::or_empty(rs.namespace) == ns && text::or_empty(rs.name) == name && k is Some
        && rs.owners@[k->0].kind@ == "Deployment"@
}

/// The deployment that a replica set belongs to.
pub open spec fn deployment_of(
    rss: Seq<RawReplicaSet>,
    ns: Seq<char>,
    name: Seq<char>,
    n: int,
) -> Option<Seq<char>> {
    match pick::last(n, |i: int| leads(rss[i], ns, name)) {
        Some(i) => Some(
            model::workload_key(
                "Deployment"@,
                ns,
                rss[i].owners@[parts::controller_of(
                    rss[i].owners@,
                    rss[i].owners@.len() as int,
                )->0].name@,
            ),
        ),
        None => None,
    }
}

fn find_deployment(rss: &Vec<RawReplicaSet>, ns: &str, name: &str) -> (r: Option<String>)
    ensures
        text::opt(r) == deployment_of(rss@, ns@, name@, rss@.len() as int),
{
    let mut r: Option<String> = None;
    let mut i: usize = 0;
    while i < rss.len()
        invariant
            i <= rss@.len(),
            text::opt(r) == deployment_of(rss@, ns@, name@, i as int),
        decreases rss@.len() - i,
    {
        let rs: &RawReplicaSet = &rss[i];
        if same(copy_or_empty(&rs.namespace).as_str(), ns) && same(
            copy_or_empty(&rs.name).as_str(),
            name,
        ) {
            match controller(&rs.owners) {
                Some(k) => {
                    if same(rs.owners[k].kind.as_str(), "Deployment") {
                        r = Some(workload_id("Deployment", ns, rs.owners[k].name.as_str()));
                    }
                },
                None => {},
            }
        }
        i = i + 1;
    }
    r
}

/// The workload that a pod belongs to. Pods of a replica set belong to its
/// deployment.
pub open spec fn workload_of(raw: RawSnapshot, p: RawPod) -> Option<Seq<char>> {
    let ns = text::or_empty(p.namespace);
    match parts::controller_of(p.owners@, p.owners@.len() as int) {
        Some(k) => {
            let owner = p.owners@[k];
            if owner.kind@ == "ReplicaSet"@ {
                deployment_of(raw.replicasets@, ns, owner.name@, raw.replicasets@.len() as int)
            } else if owner.kind@ == "StatefulSet"@ || owner.kind@ == "DaemonSet"@ {
                Some(model::workload_key(owner.kind@, ns, owner.name@))
            } else {
                None
            }
        },
        None => None,
    }
}

fn find_workload(raw: &RawSnapshot, p: &RawPod) -> (r: Option<String>)
    ensures
        text::opt(r) == workload_of(*raw, *p),
{
    let ns: String = copy_or_empty(&p.namespace);
    match controller(&p.owners) {
        Some(k) => {
            let owner: &RawOwner = &p.owners[k];
            if same(owner.kind.as_str(), "ReplicaSet") {
                find_deployment(&raw.replicasets, ns.as_str(), owner.name.as_str())
            } else if same(owner.kind.as_str(), "StatefulSet") || same(
                owner.kind.as_str(),
                "DaemonSet",
            ) {
                Some(workload_id(owner.kind.as_str(), ns.as_str(), owner.name.as_str()))
            } else {
                None
            }
        },
        None => None,
    }
}

/// The phase of a pod, or a word for one that has none.
pub open spec fn phase_of(p: RawPod) -> Seq<char> {
    match p.phase {
        Some(s) => s@,
        None => "Unknown"@,
    }
}

/// What a pod makes.
pub open spec fn pod_from(raw: RawSnapshot, p: RawPod, i: PodInfo) -> bool {
    &&& i.namespace@ == text::or_empty(p.namespace)
    &&& i.name@ == text::or_empty(p.name)
    &&& i.status@ == shown_status(p, phase_of(p), i.containers@)
    &&& i.phase@ == phase_of(p)
    &&& i.ready == parts::holds(p.conditions@, "Ready"@, p.conditions@.len() as int)
    &&& i.restarts == restarts(i.containers@, i.containers@.len() as int)
    &&& i.node == p.node
    &&& text::opt(i.workload) == workload_of(raw, p)
    &&& i.labels@ == p.labels@
    &&& i.pod_ip == p.pod_ip
    &&& i.created == p.created
    &&& i.message == p.message
    &&& containers_from(p.statuses@, p.containers@, i.containers@)
    &&& text::strs(i.init_containers@) == text::strs(p.init_containers@)
    &&& ports_from(p.containers@, p.containers@.len() as int, i.container_ports@)
    &&& text::strs(i.pvcs@) == text::strs(p.claims@)
}

fn convert_pod(raw: &RawSnapshot, p: &RawPod) -> (r: PodInfo)
    ensures
        pod_from(*raw, *p, r),
{
    let phase: String = match &p.phase {
        Some(s) => s.clone(),
        None => "Unknown".to_owned(),
    };
    let containers: Vec<ContainerStatusInfo> = convert_all(&p.statuses, &p.containers);
    PodInfo {
        namespace: copy_or_empty(&p.namespace),
        name: copy_or_empty(&p.name),
        status: display_status(p, phase.as_str(), &containers),
        phase,
        ready: condition_true(&p.conditions, "Ready"),
        restarts: restarts_of(&containers),
        node: opt_copy(&p.node),
        workload: find_workload(raw, p),
        labels: p.labels.copy(),
        pod_ip: opt_copy(&p.pod_ip),
        created: opt_copy(&p.created),
        message: opt_copy(&p.message),
        containers,
        init_containers: copy_list(&p.init_containers),
        container_ports: ports_of(&p.containers),
        pvcs: copy_list(&p.claims),
    }
}

/// What the pods make.
pub open spec fn pods_from(raw: RawSnapshot, v: Seq<RawPod>, r: Seq<PodInfo>) -> bool {
    r.len() == v.len() && forall|i: int| 0 <= i < v.len() ==> pod_from(raw, v[i], #[trigger] r[i])
}

pub fn convert_pods(raw: &RawSnapshot, v: &Vec<RawPod>) -> (r: Vec<PodInfo>)
    ensures
        pods_from(*raw, v@, r@),
{
    let mut r: Vec<PodInfo> = Vec::new();
    let mut i: usize = 0;
    while i < v.len()
        invariant
            i <= v@.len(),
            r@.len() == i,
            forall|j: int| 0 <= j < i ==> pod_from(*raw, v@[j], #[trigger] r@[j]),
        decreases v@.len() - i,
    {
        let x: PodInfo = convert_pod(raw, &v[i]);
        r.push(x);
        i = i + 1;
    }
    r
}

} // verus!
