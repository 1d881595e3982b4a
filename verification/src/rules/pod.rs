//! Pods: what is wrong with a pod, and one issue for each workload and finding.

use crate::lettercase;
use crate::lettercase::lower;
use crate::model;
use crate::model::{
    emit, emit_all, issue, no_issues, target, workload_id, ClusterGraph, ContainerStatusInfo, Issue,
    IssueView, Layer, PodInfo, Severity, WorkloadInfo,
};
use crate::numeral;
use crate::numeral::{clamp_i64, dec_i32, dec_i64, dec_usize, plus};
use crate::order::insert_key;
use crate::pick;
use crate::quantity;
use crate::quantity::{fmt_bytes, fmt_cpu};
use crate::scan;
use crate::scan::{begins, has};
use crate::split;
use crate::split::{owner_label, split_id};
use crate::text;
use crate::text::{
    cat2, cat3, cat4, cat5, cat6, cat7, copy_or_empty, lines1, lines2, lines3, no_lines, opt_is, same,
    say, say_all,
};
use vstd::prelude::*;

verus! {

broadcast use crate::pick::lemma_add_nothing;

/// What can be wrong with a pod, worst first.
#[derive(Debug, Clone, Copy, PartialEq, Eq, Structural)]
pub enum PodFinding {
    OomKilled,
    CrashLoop,
    ImagePull,
    ConfigError,
    Unschedulable,
    NotReady,
}

/// What the status of a container can show.
#[derive(Debug, Clone, Copy, PartialEq, Eq, Structural)]
pub enum Sign {
    /// It is down because it used too much memory.
    OutOfMemory,
    /// It was killed for its memory, now or the last time.
    OomTrace,
    CrashLoop,
    ImagePull,
    ConfigError,
    /// It is not running.
    Stopped,
}

/// The reasons of a container that cannot get its image.
pub open spec fn is_image_pull(r: Option<Seq<char>>) -> bool {
    r == Some("ImagePullBackOff"@) || r == Some("ErrImagePull"@) || r == Some("InvalidImageName"@)
        || r == Some("ErrImageNeverPull"@)
}

/// Does a container show a sign?
pub open spec fn shows(c: ContainerStatusInfo, s: Sign) -> bool {
    match s {
        Sign::OutOfMemory => text::opt(c.reason) == Some("OOMKilled"@) || (text::opt(c.reason)
            == Some("CrashLoopBackOff"@) && text::opt(c.last_reason) == Some("OOMKilled"@)),
        Sign::OomTrace => text::opt(c.last_reason) == Some("OOMKilled"@) || text::opt(c.reason)
            == Some("OOMKilled"@),
        Sign::CrashLoop => text::opt(c.reason) == Some("CrashLoopBackOff"@),
        Sign::ImagePull => is_image_pull(text::opt(c.reason)),
        Sign::ConfigError => text::opt(c.reason) == Some("CreateContainerConfigError"@),
        Sign::Stopped => c.state@ != "running"@,
    }
}

fn shown(c: &ContainerStatusInfo, s: Sign) -> (r: bool)
    ensures
        r == shows(*c, s),
{
    match s {
        Sign::OutOfMemory => opt_is(&c.reason, "OOMKilled") || (opt_is(
            &c.reason,
            "CrashLoopBackOff",
        ) && opt_is(&c.last_reason, "OOMKilled")),
        Sign::OomTrace => opt_is(&c.last_reason, "OOMKilled") || opt_is(&c.reason, "OOMKilled"),
        Sign::CrashLoop => opt_is(&c.reason, "CrashLoopBackOff"),
        Sign::ImagePull => opt_is(&c.reason, "ImagePullBackOff") || opt_is(
            &c.reason,
            "ErrImagePull",
        ) || opt_is(&c.reason, "InvalidImageName") || opt_is(&c.reason, "ErrImageNeverPull"),
        Sign::ConfigError => opt_is(&c.reason, "CreateContainerConfigError"),
        Sign::Stopped => !same(c.state.as_str(), "running"),
    }
}

/// The first container of a pod that shows a sign.
pub open spec fn first_with(p: PodInfo, s: Sign, n: int) -> Option<int> {
    pick::first(n, |i: int| shows(p.containers@[i], s))
}

/// Find the first container that shows a sign.
pub fn find_with(p: &PodInfo, s: Sign) -> (r: Option<usize>)
    ensures
        match r {
            Some(k) => k < p.containers@.len() && first_with(*p, s, p.containers@.len() as int) == Some(
                k as int,
            ),
            None => first_with(*p, s, p.containers@.len() as int) is None,
        },
{
    let mut r: Option<usize> = None;
    let mut i: usize = 0;
    while i < p.containers.len()
        invariant
            i <= p.containers@.len(),
            match r {
                Some(k) => k < i && first_with(*p, s, i as int) == Some(k as int),
                None => first_with(*p, s, i as int) is None,
            },
        decreases p.containers@.len() - i,
    {
        if r.is_none() && shown(&p.containers[i], s) {
            r = Some(i);
        }
        i = i + 1;
    }
    r
}


/// Does a container of the pod show a sign?
pub open spec fn has_sign(p: PodInfo, s: Sign) -> bool {
    first_with(p, s, p.containers@.len() as int) is Some
}

/// What is wrong with a pod. A container that ran out of memory once and is
/// healthy again is not a finding; only one that is down because of it.
pub open spec fn finding(p: PodInfo) -> Option<PodFinding> {
    if p.phase@ == "Succeeded"@ {
        None
    } else if has_sign(p, Sign::OutOfMemory) {
        Some(PodFinding::OomKilled)
    } else if has_sign(p, Sign::CrashLoop) {
        Some(PodFinding::CrashLoop)
    } else if has_sign(p, Sign::ImagePull) {
        Some(PodFinding::ImagePull)
    } else if has_sign(p, Sign::ConfigError) {
        Some(PodFinding::ConfigError)
    } else if p.phase@ == "Pending"@ && p.node is None {
        Some(PodFinding::Unschedulable)
    } else if p.phase@ == "Running"@ && !p.ready && !has_sign(p, Sign::Stopped) {
        Some(PodFinding::NotReady)
    } else {
        None
    }
}

/// Find what is wrong with a pod.
pub fn classify(p: &PodInfo) -> (r: Option<PodFinding>)
    ensures
        r == finding(*p),
{
    if same(p.phase.as_str(), "Succeeded") {
        None
    } else if find_with(p, Sign::OutOfMemory).is_some() {
        Some(PodFinding::OomKilled)
    } else if find_with(p, Sign::CrashLoop).is_some() {
        Some(PodFinding::CrashLoop)
    } else if find_with(p, Sign::ImagePull).is_some() {
        Some(PodFinding::ImagePull)
    } else if find_with(p, Sign::ConfigError).is_some() {
        Some(PodFinding::ConfigError)
    } else if same(p.phase.as_str(), "Pending") && p.node.is_none() {
        Some(PodFinding::Unschedulable)
    } else if same(p.phase.as_str(), "Running") && !p.ready && find_with(
        p,
        Sign::Stopped,
    ).is_none() {
        Some(PodFinding::NotReady)
    } else {
        None
    }
}

/// The sign by which the container of a finding is known.
pub open spec fn sign_of(f: PodFinding) -> Sign {
    match f {
        PodFinding::OomKilled => Sign::OomTrace,
        PodFinding::CrashLoop => Sign::CrashLoop,
        PodFinding::ImagePull => Sign::ImagePull,
        _ => Sign::ConfigError,
    }
}

/// A pod that was found to have a container in trouble has one.
proof fn lemma_culprit(p: PodInfo, f: PodFinding)
    requires
        finding(p) == Some(f),
        f != PodFinding::Unschedulable,
        f != PodFinding::NotReady,
    ensures
        has_sign(p, sign_of(f)),
{
    if f == PodFinding::OomKilled {
        let n = p.containers@.len() as int;
        let s = |i: int| shows(p.containers@[i], Sign::OutOfMemory);
        let t = |i: int| shows(p.containers@[i], Sign::OomTrace);
        pick::lemma_first(n, s);
        pick::lemma_first(n, t);
        let i = pick::first(n, s)->0;
        assert(s(i) ==> t(i));
    }
}

/// Who a pod belongs to: its workload, or itself.
pub open spec fn owner(p: PodInfo) -> Seq<char> {
    match p.workload {
        Some(w) => w@,
        None => model::workload_key("Pod"@, p.namespace@, p.name@),
    }
}

/// Name who a pod belongs to.
pub fn owner_of(p: &PodInfo) -> (r: String)
    ensures
        r@ == owner(*p),
{
    match &p.workload {
        Some(w) => w.clone(),
        None => workload_id("Pod", p.namespace.as_str(), p.name.as_str()),
    }
}

/// The name of a pod with its namespace.
pub open spec fn pod_key(p: PodInfo) -> Seq<char> {
    p.namespace@ + "/"@ + p.name@
}

/// Name a pod with its namespace.
pub fn key_of(p: &PodInfo) -> (r: String)
    ensures
        r@ == pod_key(*p),
{
    cat3(p.namespace.as_str(), "/", p.name.as_str())
}

/// The pods with a finding, as `namespace/name`.
pub open spec fn flagged(g: ClusterGraph, n: int) -> Seq<Seq<char>> {
    pick::keys(
        n,
        |i: int|
            if finding(g.pods@[i]) is Some {
                Some(pod_key(g.pods@[i]))
            } else {
                None
            },
    )
}

pub fn flagged_pods(g: &ClusterGraph) -> (r: Vec<String>)
    ensures
        text::strs(r@) == flagged(*g, g.pods@.len() as int),
{
    let mut r: Vec<String> = no_lines();
    let mut i: usize = 0;
    while i < g.pods.len()
        invariant
            i <= g.pods@.len(),
            text::strs(r@) == flagged(*g, i as int),
        decreases g.pods@.len() - i,
    {
        if classify(&g.pods[i]).is_some() {
            insert_key(&mut r, key_of(&g.pods[i]));
        }
        i = i + 1;
    }
    r
}

/// The owners of the pods with a finding.
pub open spec fn owners(g: ClusterGraph, n: int) -> Seq<Seq<char>> {
    pick::keys(
        n,
        |i: int|
            if finding(g.pods@[i]) is Some {
                Some(owner(g.pods@[i]))
            } else {
                None
            },
    )
}

fn troubled_owners(g: &ClusterGraph) -> (r: Vec<String>)
    ensures
        text::strs(r@) == owners(*g, g.pods@.len() as int),
{
    let mut r: Vec<String> = no_lines();
    let mut i: usize = 0;
    while i < g.pods.len()
        invariant
            i <= g.pods@.len(),
            text::strs(r@) == owners(*g, i as int),
        decreases g.pods@.len() - i,
    {
        if classify(&g.pods[i]).is_some() {
            insert_key(&mut r, owner_of(&g.pods[i]));
        }
        i = i + 1;
    }
    r
}

/// Does the pod at an index belong to an owner and have a finding?
pub open spec fn in_group(g: ClusterGraph, key: Seq<char>, f: PodFinding, i: int) -> bool {
    finding(g.pods@[i]) == Some(f) && owner(g.pods@[i]) == key
}

fn grouped(g: &ClusterGraph, key: &str, f: PodFinding, i: usize) -> (r: bool)
    requires
        i < g.pods@.len(),
    ensures
        r == in_group(*g, key@, f, i as int),
{
    let same_finding: bool = match classify(&g.pods[i]) {
        Some(x) => x == f,
        None => false,
    };
    same_finding && same(owner_of(&g.pods[i]).as_str(), key)
}

/// The first pod of a group.
pub open spec fn first_pod(g: ClusterGraph, key: Seq<char>, f: PodFinding, n: int) -> Option<int> {
    pick::first(n, |i: int| in_group(g, key, f, i))
}

fn find_pod(g: &ClusterGraph, key: &str, f: PodFinding) -> (r: Option<usize>)
    ensures
        match r {
            Some(k) => k < g.pods@.len() && first_pod(*g, key@, f, g.pods@.len() as int) == Some(k as int),
            None => first_pod(*g, key@, f, g.pods@.len() as int) is None,
        },
{
    let mut r: Option<usize> = None;
    let mut i: usize = 0;
    while i < g.pods.len()
        invariant
            i <= g.pods@.len(),
            match r {
                Some(k) => k < i && first_pod(*g, key@, f, i as int) == Some(k as int),
                None => first_pod(*g, key@, f, i as int) is None,
            },
        decreases g.pods@.len() - i,
    {
        if r.is_none() && grouped(g, key, f, i) {
            r = Some(i);
        }
        i = i + 1;
    }
    r
}

/// The names of the pods of a group.
pub open spec fn group_names(
    g: ClusterGraph,
    key: Seq<char>,
    f: PodFinding,
    n: int,
) -> Seq<Seq<char>> {
    pick::gather(
        n,
        |i: int|
            if in_group(g, key, f, i) {
                seq![g.pods@[i].name@]
            } else {
                Seq::empty()
            },
    )
}

fn names_of(g: &ClusterGraph, key: &str, f: PodFinding) -> (r: Vec<String>)
    ensures
        text::strs(r@) == group_names(*g, key@, f, g.pods@.len() as int),
{
    let mut r: Vec<String> = no_lines();
    let mut i: usize = 0;
    while i < g.pods.len()
        invariant
            i <= g.pods@.len(),
            text::strs(r@) == group_names(*g, key@, f, i as int),
        decreases g.pods@.len() - i,
    {
        if grouped(g, key, f, i) {
            say(&mut r, g.pods[i].name.clone());
        }
        i = i + 1;
    }
    r
}

/// How often the pods of a group have restarted in all.
pub open spec fn group_restarts(g: ClusterGraph, key: Seq<char>, f: PodFinding, n: int) -> int {
    pick::sum64(
        n,
        |i: int|
            if in_group(g, key, f, i) {
                g.pods@[i].restarts as int
            } else {
                0
            },
    )
}

fn restarts_of(g: &ClusterGraph, key: &str, f: PodFinding) -> (r: i64)
    ensures
        r == group_restarts(*g, key@, f, g.pods@.len() as int),
{
    let mut r: i64 = 0;
    let mut i: usize = 0;
    while i < g.pods.len()
        invariant
            i <= g.pods@.len(),
            r == group_restarts(*g, key@, f, i as int),
        decreases g.pods@.len() - i,
    {
        let v: i64 = if grouped(g, key, f, i) {
            g.pods[i].restarts as i64
        } else {
            0
        };
        r = plus(r, v);
        i = i + 1;
    }
    r
}

/// A number of pods in words.
pub open spec fn count_text(n: nat) -> Seq<char> {
    if n == 1 {
        "1 pod"@
    } else {
        numeral::dec(n as int) + " pods"@
    }
}

/// Say how many pods there are.
pub fn count_of(n: usize) -> (r: String)
    ensures
        r@ == count_text(n as nat),
{
    if n == 1 {
        "1 pod".to_owned()
    } else {
        cat2(dec_usize(n).as_str(), " pods")
    }
}

/// How to look at a pod.
pub open spec fn describe_pod(p: PodInfo) -> Seq<char> {
    "kubectl describe pod "@ + p.name@ + " -n "@ + p.namespace@
}

/// The command to look at a pod.
pub fn describe_command(p: &PodInfo) -> (r: String)
    ensures
        r@ == describe_pod(*p),
{
    cat4("kubectl describe pod ", p.name.as_str(), " -n ", p.namespace.as_str())
}

/// How to read what a container wrote before its last restart.
pub open spec fn previous_logs(p: PodInfo, c: ContainerStatusInfo) -> Seq<char> {
    "kubectl logs "@ + p.name@ + " -n "@ + p.namespace@ + " -c "@ + c.name@ + " --previous"@
}

/// The command to read what a container wrote before its last restart.
pub fn logs_command(p: &PodInfo, c: &ContainerStatusInfo) -> (r: String)
    ensures
        r@ == previous_logs(*p, *c),
{
    cat7(
        "kubectl logs ",
        p.name.as_str(),
        " -n ",
        p.namespace.as_str(),
        " -c ",
        c.name.as_str(),
        " --previous",
    )
}

/// What happened to a container without enough memory.
pub open spec fn oom_detail(c: ContainerStatusInfo, count: Seq<char>) -> Seq<char> {
    match c.memory_limit_bytes {
        Some(l) => "Container "@ + c.name@ + " in "@ + count
            + " was killed for using more than its "@
            + quantity::size_text(l as int) + " memory limit, then restarted."@,
        None => "Container "@ + c.name@ + " in "@ + count
            + " was OOMKilled without a memory limit, which means the node itself ran low on memory."@,
    }
}

fn oom_detail_text(c: &ContainerStatusInfo, count: &str) -> (r: String)
    ensures
        r@ == oom_detail(*c, count@),
{
    match c.memory_limit_bytes {
        Some(l) => cat7(
            "Container ",
            c.name.as_str(),
            " in ",
            count,
            " was killed for using more than its ",
            fmt_bytes(l).as_str(),
            " memory limit, then restarted.",
        ),
        None => cat5(
            "Container ",
            c.name.as_str(),
            " in ",
            count,
            " was OOMKilled without a memory limit, which means the node itself ran low on memory.",
        ),
    }
}

/// How to give a container enough memory.
pub open spec fn oom_advice(c: ContainerStatusInfo) -> Seq<char> {
    match c.memory_limit_bytes {
        Some(l) => "Raise the memory limit for "@ + c.name@ + " (for example to "@
            + quantity::size_text(numeral::clamp64(l * 2))
            + ") and set the request to match, or find what grew the process's memory."@,
        None => "Set a memory request and limit on "@ + c.name@
            + " so the scheduler can place it safely."@,
    }
}

fn oom_advice_text(c: &ContainerStatusInfo) -> (r: String)
    ensures
        r@ == oom_advice(*c),
{
    match c.memory_limit_bytes {
        Some(l) => cat5(
            "Raise the memory limit for ",
            c.name.as_str(),
            " (for example to ",
            fmt_bytes(clamp_i64((l as i128) * 2)).as_str(),
            ") and set the request to match, or find what grew the process's memory.",
        ),
        None => cat3(
            "Set a memory request and limit on ",
            c.name.as_str(),
            " so the scheduler can place it safely.",
        ),
    }
}

/// The issue for pods that run out of memory.
pub open spec fn oom(
    key: Seq<char>,
    p: PodInfo,
    c: ContainerStatusInfo,
    restarts: int,
    names: Seq<Seq<char>>,
) -> IssueView {
    model::issue_view(
        "pod-oom:"@ + key,
        Severity::Critical,
        Layer::Pod,
        model::target_view(split::id_part(key, 0), split::id_part(key, 1), split::id_part(key, 2)),
        split::owner_name(key) + " is running out of memory"@,
        oom_detail(c, count_text(names.len())),
        seq![
            "container: "@ + c.name@,
            "last state: Terminated, reason OOMKilled, exit code 137"@,
            "restarts across affected pods: "@ + numeral::dec(restarts),
        ] + (match c.memory_limit_bytes {
                Some(l) => seq!["memory limit: "@ + quantity::size_text(l as int)],
                None => Seq::empty(),
        }),
        oom_advice(c),
        seq![describe_pod(p), previous_logs(p, c)],
        names,
    )
}

fn oom_issue(
    key: &str,
    p: &PodInfo,
    c: &ContainerStatusInfo,
    restarts: i64,
    names: Vec<String>,
) -> (r: Issue)
    ensures
        r@ == oom(key@, *p, *c, restarts as int, text::strs(names@)),
{
    let id: (String, String, String) = split_id(key);
    let who: String = owner_label(key);
    let count: String = count_of(names.len());
    let mut evidence: Vec<String> = lines3(
        cat2("container: ", c.name.as_str()),
        "last state: Terminated, reason OOMKilled, exit code 137".to_owned(),
        cat2("restarts across affected pods: ", dec_i64(restarts).as_str()),
    );
    match c.memory_limit_bytes {
        Some(l) => {
            say(&mut evidence, cat2("memory limit: ", fmt_bytes(l).as_str()));
        },
        None => {},
    }
    issue(
        cat2("pod-oom:", key),
        Severity::Critical,
        Layer::Pod,
        target(id.0.as_str(), id.1.as_str(), id.2.as_str()),
        cat2(who.as_str(), " is running out of memory"),
        oom_detail_text(c, count.as_str()),
        evidence,
        oom_advice_text(c),
        lines2(describe_command(p), logs_command(p, c)),
        names,
    )
}

/// What an exit code usually means.
pub open spec fn exit_hint(code: Option<i32>) -> Seq<char> {
    if code == Some(1i32) {
        "Exit code 1 usually means the application hit an error on start-up."@
    } else if code == Some(126i32) {
        "Exit code 126: the command exists but can't be executed (permissions or architecture)."@
    } else if code == Some(127i32) {
        "Exit code 127: the command or entrypoint wasn't found in the image."@
    } else if code == Some(137i32) {
        "Exit code 137: the process was killed, often by a failing liveness probe."@
    } else if code == Some(139i32) {
        "Exit code 139: the process crashed with a segmentation fault."@
    } else if code == Some(143i32) {
        "Exit code 143: the process was stopped with SIGTERM."@
    } else {
        "The container keeps exiting shortly after it starts."@
    }
}

/// Say what an exit code usually means.
pub fn exit_hint_text(code: Option<i32>) -> (r: &'static str)
    ensures
        r@ == exit_hint(code),
{
    match code {
        Some(1) => "Exit code 1 usually means the application hit an error on start-up.",
        Some(126) => "Exit code 126: the command exists but can't be executed (permissions or architecture).",
        Some(127) => "Exit code 127: the command or entrypoint wasn't found in the image.",
        Some(137) => "Exit code 137: the process was killed, often by a failing liveness probe.",
        Some(139) => "Exit code 139: the process crashed with a segmentation fault.",
        Some(143) => "Exit code 143: the process was stopped with SIGTERM.",
        _ => "The container keeps exiting shortly after it starts.",
    }
}

/// The first event of a pod with a reason, and a message that starts in a certain way.
pub open spec fn pod_event(
    g: ClusterGraph,
    p: PodInfo,
    reason: Seq<char>,
    start: Seq<char>,
    n: int,
) -> Option<int> {
    pick::first(n, |i: int| g.events@[i].kind@ == "Pod"@ && g.events@[i].namespace@ == p.namespace@
            && g.events@[i].name@ == p.name@ && g.events@[i].reason@ == reason
            && scan::starts_with(g.events@[i].message@, start))
}

/// Find the first event of a pod with a reason and the start of its message.
pub fn find_event(g: &ClusterGraph, p: &PodInfo, reason: &str, start: &str) -> (r: Option<usize>)
    ensures
        match r {
            Some(k) => k < g.events@.len() && pod_event(*g, *p, reason@, start@, g.events@.len() as int) == Some(
                k as int,
            ),
            None => pod_event(*g, *p, reason@, start@, g.events@.len() as int) is None,
        },
{
    let mut r: Option<usize> = None;
    let mut i: usize = 0;
    while i < g.events.len()
        invariant
            i <= g.events@.len(),
            match r {
                Some(k) => k < i && pod_event(*g, *p, reason@, start@, i as int) == Some(k as int),
                None => pod_event(*g, *p, reason@, start@, i as int) is None,
            },
        decreases g.events@.len() - i,
    {
        if r.is_none() && same(g.events[i].kind.as_str(), "Pod")
            && same(g.events[i].namespace.as_str(), p.namespace.as_str())
            && same(g.events[i].name.as_str(), p.name.as_str())
            && same(g.events[i].reason.as_str(), reason)
            && begins(g.events[i].message.as_str(), start) {
            r = Some(i);
        }
        i = i + 1;
    }
    r
}

/// The message of that event, if there is one.
pub open spec fn event_message(
    g: ClusterGraph,
    p: PodInfo,
    reason: Seq<char>,
    start: Seq<char>,
) -> Option<Seq<char>> {
    match pod_event(g, p, reason, start, g.events@.len() as int) {
        Some(i) => Some(g.events@[i].message@),
        None => None,
    }
}

/// Look up the message of that event.
pub fn message_of(g: &ClusterGraph, p: &PodInfo, reason: &str, start: &str) -> (r: Option<String>)
    ensures
        text::opt(r) == event_message(*g, *p, reason@, start@),
{
    match find_event(g, p, reason, start) {
        Some(i) => Some(g.events[i].message.clone()),
        None => None,
    }
}

/// A failed probe as evidence.
pub open spec fn unhealthy(message: Option<Seq<char>>) -> Seq<Seq<char>> {
    match message {
        Some(m) => seq!["Unhealthy: "@ + m],
        None => Seq::empty(),
    }
}

fn unhealthy_lines(message: &Option<String>) -> (r: Vec<String>)
    ensures
        text::strs(r@) == unhealthy(text::opt(*message)),
{
    match message {
        Some(m) => lines1(cat2("Unhealthy: ", m.as_str())),
        None => no_lines(),
    }
}

/// How a container ended the last time.
pub open spec fn last_state(c: ContainerStatusInfo) -> Seq<char> {
    "last state: Terminated, reason "@ + (match c.last_reason {
        Some(r) => r@,
        None => "unknown"@,
    }) + ", exit code "@ + (match c.last_exit_code {
        Some(n) => numeral::dec(n as int),
        None => "unknown"@,
    })
}

fn last_state_text(c: &ContainerStatusInfo) -> (r: String)
    ensures
        r@ == last_state(*c),
{
    let reason: String = match &c.last_reason {
        Some(r) => r.clone(),
        None => "unknown".to_owned(),
    };
    let code: String = match c.last_exit_code {
        Some(n) => dec_i32(n),
        None => "unknown".to_owned(),
    };
    cat4("last state: Terminated, reason ", reason.as_str(), ", exit code ", code.as_str())
}

/// The issue for pods that keep crashing. A failed liveness probe is named as evidence.
pub open spec fn crash_loop(
    g: ClusterGraph,
    key: Seq<char>,
    p: PodInfo,
    c: ContainerStatusInfo,
    names: Seq<Seq<char>>,
) -> IssueView {
    model::issue_view(
        "pod-crashloop:"@ + key,
        Severity::Critical,
        Layer::Pod,
        model::target_view(split::id_part(key, 0), split::id_part(key, 1), split::id_part(key, 2)),
        split::owner_name(key) + " is crash looping"@,
        "Container "@ + c.name@ + " in "@ + count_text(names.len())
            + " keeps exiting and restarting. "@ + exit_hint(c.last_exit_code),
        seq![
            "container: "@ + c.name@,
            last_state(c),
            "restart count: "@ + numeral::dec(c.restart_count as int),
        ]
            + unhealthy(
            event_message(g, p, "Unhealthy"@, "Liveness"@),
        ),
        "Read the previous container's logs to see why it exited."@,
        seq![describe_pod(p), previous_logs(p, c)],
        names,
    )
}

fn crash_loop_issue(
    g: &ClusterGraph,
    key: &str,
    p: &PodInfo,
    c: &ContainerStatusInfo,
    names: Vec<String>,
) -> (r: Issue)
    ensures
        r@ == crash_loop(*g, key@, *p, *c, text::strs(names@)),
{
    let id: (String, String, String) = split_id(key);
    let who: String = owner_label(key);
    let count: String = count_of(names.len());
    let mut evidence: Vec<String> = lines3(
        cat2("container: ", c.name.as_str()),
        last_state_text(c),
        cat2("restart count: ", dec_i32(c.restart_count).as_str()),
    );
    say_all(&mut evidence, unhealthy_lines(&message_of(g, p, "Unhealthy", "Liveness")));
    issue(
        cat2("pod-crashloop:", key),
        Severity::Critical,
        Layer::Pod,
        target(id.0.as_str(), id.1.as_str(), id.2.as_str()),
        cat2(who.as_str(), " is crash looping"),
        cat6(
            "Container ",
            c.name.as_str(),
            " in ",
            count.as_str(),
            " keeps exiting and restarting. ",
            exit_hint_text(c.last_exit_code),
        ),
        evidence,
        "Read the previous container's logs to see why it exited.".to_owned(),
        lines2(describe_command(p), logs_command(p, c)),
        names,
    )
}

/// What to do about an image that cannot be pulled, going by the message in
/// lower case.
pub open spec fn image_advice(lower: Seq<char>, image: Seq<char>) -> Seq<char> {
    if scan::contains(lower, "not found"@) || scan::contains(lower, "manifest unknown"@) {
        "The tag in "@ + image
            + " doesn't exist in the registry. Fix the tag or push the image, then roll out again."@
    } else if scan::contains(lower, "unauthorized"@) || scan::contains(lower, "denied"@)
        || scan::contains(lower, "403"@) {
        "The node can't authenticate to the registry. Check imagePullSecrets or the node's registry permissions."@
    } else {
        "Check the image name and tag, and that nodes can reach and authenticate to the registry."@
    }
}

/// Say what to do about an image that cannot be pulled, going by the message
/// in lower case.
pub fn image_advice_text(lower: &str, image: &str) -> (r: String)
    ensures
        r@ == image_advice(lower@, image@),
{
    if has(lower, "not found") || has(lower, "manifest unknown") {
        cat3(
            "The tag in ",
            image,
            " doesn't exist in the registry. Fix the tag or push the image, then roll out again.",
        )
    } else if has(lower, "unauthorized") || has(lower, "denied") || has(lower, "403") {
        "The node can't authenticate to the registry. Check imagePullSecrets or the node's registry permissions.".to_owned()
    } else {
        "Check the image name and tag, and that nodes can reach and authenticate to the registry.".to_owned()
    }
}

/// The issue for pods whose image cannot be pulled.
pub open spec fn image_pull(
    key: Seq<char>,
    p: PodInfo,
    c: ContainerStatusInfo,
    names: Seq<Seq<char>>,
) -> IssueView {
    model::issue_view(
        "pod-imagepull:"@ + key,
        Severity::Critical,
        Layer::Pod,
        model::target_view(split::id_part(key, 0), split::id_part(key, 1), split::id_part(key, 2)),
        split::owner_name(key) + " can't pull its image"@,
        count_text(names.len()) + " can't start because the image for container "@ + c.name@
            + " can't be pulled."@,
        seq!["image: "@ + c.image@, "reason: "@ + text::or_empty(c.reason)]
            + (if text::or_empty(c.message) != ""@ {
                seq!["message: "@ + text::or_empty(c.message)]
            } else {
                Seq::empty()
        }),
        image_advice(lettercase::lowercase(text::or_empty(c.message)), c.image@),
        seq![describe_pod(p)],
        names,
    )
}

fn image_pull_issue(
    key: &str,
    p: &PodInfo,
    c: &ContainerStatusInfo,
    names: Vec<String>,
) -> (r: Issue)
    ensures
        r@ == image_pull(key@, *p, *c, text::strs(names@)),
{
    let id: (String, String, String) = split_id(key);
    let who: String = owner_label(key);
    let count: String = count_of(names.len());
    let msg: String = copy_or_empty(&c.message);
    let reason: String = copy_or_empty(&c.reason);
    let mut evidence: Vec<String> = lines2(
        cat2("image: ", c.image.as_str()),
        cat2("reason: ", reason.as_str()),
    );
    if !same(msg.as_str(), "") {
        say(&mut evidence, cat2("message: ", msg.as_str()));
    }
    issue(
        cat2("pod-imagepull:", key),
        Severity::Critical,
        Layer::Pod,
        target(id.0.as_str(), id.1.as_str(), id.2.as_str()),
        cat2(who.as_str(), " can't pull its image"),
        cat4(
            count.as_str(),
            " can't start because the image for container ",
            c.name.as_str(),
            " can't be pulled.",
        ),
        evidence,
        image_advice_text(lower(msg.as_str()).as_str(), c.image.as_str()),
        lines1(describe_command(p)),
        names,
    )
}

/// The issue for pods whose configuration is missing.
pub open spec fn config_error(
    key: Seq<char>,
    p: PodInfo,
    c: ContainerStatusInfo,
    names: Seq<Seq<char>>,
) -> IssueView {
    model::issue_view(
        "pod-config:"@ + key,
        Severity::Critical,
        Layer::Pod,
        model::target_view(split::id_part(key, 0), split::id_part(key, 1), split::id_part(key, 2)),
        split::owner_name(key) + " can't create its container"@,
        "Container "@ + c.name@ + " in "@ + count_text(names.len())
            + " references configuration that doesn't exist or can't be read."@,
        seq!["message: "@ + text::or_empty(c.message)],
        "Create the missing ConfigMap or Secret, or fix the key it references."@,
        seq![describe_pod(p)],
        names,
    )
}

fn config_error_issue(
    key: &str,
    p: &PodInfo,
    c: &ContainerStatusInfo,
    names: Vec<String>,
) -> (r: Issue)
    ensures
        r@ == config_error(key@, *p, *c, text::strs(names@)),
{
    let id: (String, String, String) = split_id(key);
    let who: String = owner_label(key);
    let count: String = count_of(names.len());
    let msg: String = copy_or_empty(&c.message);
    issue(
        cat2("pod-config:", key),
        Severity::Critical,
        Layer::Pod,
        target(id.0.as_str(), id.1.as_str(), id.2.as_str()),
        cat2(who.as_str(), " can't create its container"),
        cat5(
            "Container ",
            c.name.as_str(),
            " in ",
            count.as_str(),
            " references configuration that doesn't exist or can't be read.",
        ),
        lines1(cat2("message: ", msg.as_str())),
        "Create the missing ConfigMap or Secret, or fix the key it references.".to_owned(),
        lines1(describe_command(p)),
        names,
    )
}

/// The CPU that a pod asks for, in thousandths.
pub open spec fn cpu_wanted(p: PodInfo, n: int) -> int {
    pick::sum64(
        n,
        |i: int|
            match p.containers@[i].cpu_request_milli {
                Some(m) => m as int,
                None => 0,
            },
    )
}

fn cpu_wanted_by(p: &PodInfo) -> (r: i64)
    ensures
        r == cpu_wanted(*p, p.containers@.len() as int),
{
    let mut r: i64 = 0;
    let mut i: usize = 0;
    while i < p.containers.len()
        invariant
            i <= p.containers@.len(),
            r == cpu_wanted(*p, i as int),
        decreases p.containers@.len() - i,
    {
        let v: i64 = match p.containers[i].cpu_request_milli {
            Some(m) => m,
            None => 0,
        };
        r = plus(r, v);
        i = i + 1;
    }
    r
}

/// The memory that a workload asks for in each pod.
pub open spec fn memory_of(w: WorkloadInfo, n: int) -> int {
    pick::sum64(
        n,
        |i: int|
            match w.containers@[i].memory_request_bytes {
                Some(m) => m as int,
                None => 0,
            },
    )
}

fn memory_of_template(w: &WorkloadInfo) -> (r: i64)
    ensures
        r == memory_of(*w, w.containers@.len() as int),
{
    let mut r: i64 = 0;
    let mut i: usize = 0;
    while i < w.containers.len()
        invariant
            i <= w.containers@.len(),
            r == memory_of(*w, i as int),
        decreases w.containers@.len() - i,
    {
        let v: i64 = match w.containers[i].memory_request_bytes {
            Some(m) => m,
            None => 0,
        };
        r = plus(r, v);
        i = i + 1;
    }
    r
}

/// The first workload with an id.
pub open spec fn workload_at(g: ClusterGraph, id: Option<String>, n: int) -> Option<int> {
    pick::first(n, |i: int| id is Some && g.workloads@[i].id@ == id->0@)
}

/// Find the first workload with an id.
pub fn find_workload(g: &ClusterGraph, id: &Option<String>) -> (r: Option<usize>)
    ensures
        match r {
            Some(k) => k < g.workloads@.len() && workload_at(*g, *id, g.workloads@.len() as int) == Some(
                k as int,
            ),
            None => workload_at(*g, *id, g.workloads@.len() as int) is None,
        },
{
    let mut r: Option<usize> = None;
    let mut i: usize = 0;
    while i < g.workloads.len()
        invariant
            i <= g.workloads@.len(),
            match r {
                Some(k) => k < i && workload_at(*g, *id, i as int) == Some(k as int),
                None => workload_at(*g, *id, i as int) is None,
            },
        decreases g.workloads@.len() - i,
    {
        if r.is_none() && opt_is(id, g.workloads[i].id.as_str()) {
            r = Some(i);
        }
        i = i + 1;
    }
    r
}

/// The memory that the workload of a pod asks for in each pod.
pub open spec fn memory_wanted(g: ClusterGraph, p: PodInfo) -> int {
    match workload_at(g, p.workload, g.workloads@.len() as int) {
        Some(i) => memory_of(g.workloads@[i], g.workloads@[i].containers@.len() as int),
        None => 0,
    }
}

fn memory_wanted_by(g: &ClusterGraph, p: &PodInfo) -> (r: i64)
    ensures
        r == memory_wanted(*g, *p),
{
    match find_workload(g, &p.workload) {
        Some(i) => memory_of_template(&g.workloads[i]),
        None => 0,
    }
}

/// The CPU of the largest node, in thousandths.
pub open spec fn largest_cpu(g: ClusterGraph) -> int {
    match pick::largest(g.nodes@.len() as int, |i: int| g.nodes@[i].cpu_allocatable_milli as int) {
        Some(m) => m,
        None => 0,
    }
}

fn largest_cpu_of(g: &ClusterGraph) -> (r: i64)
    ensures
        r == largest_cpu(*g),
{
    let mut best: Option<i64> = None;
    let ghost f = |i: int| g.nodes@[i].cpu_allocatable_milli as int;
    let mut i: usize = 0;
    while i < g.nodes.len()
        invariant
            i <= g.nodes.len(),
            f == (|i: int| g.nodes@[i].cpu_allocatable_milli as int),
            match best {
                Some(m) => pick::largest(i as int, f) == Some(m as int),
                None => pick::largest(i as int, f) is None,
            },
        decreases g.nodes.len() - i,
    {
        let v: i64 = g.nodes[i].cpu_allocatable_milli;
        best = match best {
            Some(m) => Some(
                if v > m {
                    v
                } else {
                    m
                },
            ),
            None => Some(v),
        };
        i = i + 1;
    }
    match best {
        Some(m) => m,
        None => 0,
    }
}

/// The memory of the largest node.
pub open spec fn largest_memory(g: ClusterGraph) -> int {
    match pick::largest(g.nodes@.len() as int, |i: int| g.nodes@[i].memory_allocatable_bytes as int) {
        Some(m) => m,
        None => 0,
    }
}

fn largest_memory_of(g: &ClusterGraph) -> (r: i64)
    ensures
        r == largest_memory(*g),
{
    let mut best: Option<i64> = None;
    let ghost f = |i: int| g.nodes@[i].memory_allocatable_bytes as int;
    let mut i: usize = 0;
    while i < g.nodes.len()
        invariant
            i <= g.nodes.len(),
            f == (|i: int| g.nodes@[i].memory_allocatable_bytes as int),
            match best {
                Some(m) => pick::largest(i as int, f) == Some(m as int),
                None => pick::largest(i as int, f) is None,
            },
        decreases g.nodes.len() - i,
    {
        let v: i64 = g.nodes[i].memory_allocatable_bytes;
        best = match best {
            Some(m) => Some(
                if v > m {
                    v
                } else {
                    m
                },
            ),
            None => Some(v),
        };
        i = i + 1;
    }
    match best {
        Some(m) => m,
        None => 0,
    }
}

/// What to do about a pod that no node takes, going by the scheduler and the
/// largest node.
pub open spec fn schedule_advice(msg: Seq<char>, cpu: int, node_cpu: int) -> Seq<char> {
    if scan::contains(msg, "Insufficient cpu"@) {
        if cpu > node_cpu && node_cpu > 0 {
            "No node is big enough for a "@ + quantity::cpu_text(cpu)
                + " CPU request. Lower the request or add a node group with larger instances."@
        } else {
            "Nodes are full on CPU. Lower requests, remove idle workloads, or add nodes (check the cluster autoscaler)."@
        }
    } else if scan::contains(msg, "Insufficient memory"@) {
        "Nodes don't have enough free memory for this request. Lower it or add capacity."@
    } else if scan::contains(msg, "untolerated taint"@) {
        "The pod has no toleration for the taints on the available nodes. Add a toleration or schedule it onto untainted nodes."@
    } else if scan::contains(msg, "affinity"@) || scan::contains(msg, "node selector"@) {
        "No node matches the pod's nodeSelector or affinity rules. Check the labels on your nodes."@
    } else if scan::contains(msg, "PersistentVolumeClaim"@) {
        "The pod is waiting on a PersistentVolumeClaim that isn't bound. Check the claim and its storage class."@
    } else if msg == ""@ {
        "The scheduler hasn't placed the pod yet and there's no scheduling event. Check the scheduler and the pod's events."@
    } else {
        "Read the scheduler message above; it names what every node is missing."@
    }
}

fn schedule_advice_text(msg: &str, cpu: i64, node_cpu: i64) -> (r: String)
    ensures
        r@ == schedule_advice(msg@, cpu as int, node_cpu as int),
{
    if has(msg, "Insufficient cpu") {
        if cpu > node_cpu && node_cpu > 0 {
            cat3(
                "No node is big enough for a ",
                fmt_cpu(cpu).as_str(),
                " CPU request. Lower the request or add a node group with larger instances.",
            )
        } else {
            "Nodes are full on CPU. Lower requests, remove idle workloads, or add nodes (check the cluster autoscaler).".to_owned()
        }
    } else if has(msg, "Insufficient memory") {
        "Nodes don't have enough free memory for this request. Lower it or add capacity.".to_owned()
    } else if has(msg, "untolerated taint") {
        "The pod has no toleration for the taints on the available nodes. Add a toleration or schedule it onto untainted nodes.".to_owned()
    } else if has(msg, "affinity") || has(msg, "node selector") {
        "No node matches the pod's nodeSelector or affinity rules. Check the labels on your nodes.".to_owned()
    } else if has(msg, "PersistentVolumeClaim") {
        "The pod is waiting on a PersistentVolumeClaim that isn't bound. Check the claim and its storage class.".to_owned()
    } else if same(msg, "") {
        "The scheduler hasn't placed the pod yet and there's no scheduling event. Check the scheduler and the pod's events.".to_owned()
    } else {
        "Read the scheduler message above; it names what every node is missing.".to_owned()
    }
}

/// What the scheduler said, and what was asked for against the largest node.
pub open spec fn schedule_evidence(
    msg: Seq<char>,
    cpu: int,
    node_cpu: int,
    mem: int,
    node_mem: int,
) -> Seq<Seq<char>> {
    (if msg != ""@ {
            seq!["FailedScheduling: "@ + msg]
        } else {
            Seq::empty()
    }) + (if scan::contains(msg, "Insufficient cpu"@) {
            if cpu > 0 && node_cpu > 0 {
                seq![
                    "requested cpu: "@ + quantity::cpu_text(cpu) + ", largest node allocatable: "@
                        + quantity::cpu_text(node_cpu),
                ]
            } else {
                Seq::empty()
            }
        } else if scan::contains(msg, "Insufficient memory"@) && mem > 0 && node_mem > 0 {
            seq![
                "requested memory: "@ + quantity::size_text(mem) + ", largest node allocatable: "@
                    + quantity::size_text(node_mem),
            ]
        } else {
            Seq::empty()
    })
}

fn schedule_lines(msg: &str, cpu: i64, node_cpu: i64, mem: i64, node_mem: i64) -> (r: Vec<String>)
    ensures
        text::strs(r@) == schedule_evidence(msg@, cpu as int, node_cpu as int, mem as int, node_mem as int),
{
    {
        let mut lines: Vec<String> = if !same(msg, "") {
            lines1(cat2("FailedScheduling: ", msg))
        } else {
            no_lines()
        };
        if has(msg, "Insufficient cpu") {
            if cpu > 0 && node_cpu > 0 {
                say(
                    &mut lines,
                    cat4(
                        "requested cpu: ",
                        fmt_cpu(cpu).as_str(),
                        ", largest node allocatable: ",
                        fmt_cpu(node_cpu).as_str(),
                    ),
                );
            }
        } else if has(msg, "Insufficient memory") && mem > 0 && node_mem > 0 {
            say(
                &mut lines,
                cat4(
                    "requested memory: ",
                    fmt_bytes(mem).as_str(),
                    ", largest node allocatable: ",
                    fmt_bytes(node_mem).as_str(),
                ),
            );
        }
        lines
    }
}

/// What the scheduler said about a pod.
pub open spec fn scheduling_message(g: ClusterGraph, p: PodInfo) -> Seq<char> {
    match event_message(g, p, "FailedScheduling"@, ""@) {
        Some(m) => m,
        None => ""@,
    }
}

fn scheduling_event(g: &ClusterGraph, p: &PodInfo) -> (r: String)
    ensures
        r@ == scheduling_message(*g, *p),
{
    match message_of(g, p, "FailedScheduling", "") {
        Some(m) => m,
        None => "".to_owned(),
    }
}

/// The issue for pods that no node can take.
pub open spec fn unschedulable(
    g: ClusterGraph,
    key: Seq<char>,
    p: PodInfo,
    names: Seq<Seq<char>>,
) -> IssueView {
    model::issue_view(
        "pod-unschedulable:"@ + key,
        Severity::Critical,
        Layer::Node,
        model::target_view(split::id_part(key, 0), split::id_part(key, 1), split::id_part(key, 2)),
        split::owner_name(key) + " can't be scheduled"@,
        count_text(names.len()) + " stuck in Pending because no node can take them."@,
        schedule_evidence(
            scheduling_message(g, p),
            cpu_wanted(p, p.containers@.len() as int),
            largest_cpu(g),
            memory_wanted(g, p),
            largest_memory(g),
        ),
        schedule_advice(
            scheduling_message(g, p),
            cpu_wanted(p, p.containers@.len() as int),
            largest_cpu(g),
        ),
        seq![describe_pod(p)],
        names,
    )
}

fn unschedulable_issue(g: &ClusterGraph, key: &str, p: &PodInfo, names: Vec<String>) -> (r: Issue)
    ensures
        r@ == unschedulable(*g, key@, *p, text::strs(names@)),
{
    let id: (String, String, String) = split_id(key);
    let who: String = owner_label(key);
    let count: String = count_of(names.len());
    let msg: String = scheduling_event(g, p);
    let cpu: i64 = cpu_wanted_by(p);
    let node_cpu: i64 = largest_cpu_of(g);
    issue(
        cat2("pod-unschedulable:", key),
        Severity::Critical,
        Layer::Node,
        target(id.0.as_str(), id.1.as_str(), id.2.as_str()),
        cat2(who.as_str(), " can't be scheduled"),
        cat2(count.as_str(), " stuck in Pending because no node can take them."),
        schedule_lines(msg.as_str(), cpu, node_cpu, memory_wanted_by(g, p), largest_memory_of(g)),
        schedule_advice_text(msg.as_str(), cpu, node_cpu),
        lines1(describe_command(p)),
        names,
    )
}

/// The issue for pods that run but are not ready.
pub open spec fn not_ready(
    g: ClusterGraph,
    key: Seq<char>,
    p: PodInfo,
    names: Seq<Seq<char>>,
) -> IssueView {
    model::issue_view(
        "pod-notready:"@ + key,
        Severity::Warning,
        Layer::Pod,
        model::target_view(split::id_part(key, 0), split::id_part(key, 1), split::id_part(key, 2)),
        split::owner_name(key) + " is failing readiness checks"@,
        count_text(names.len())
            + " are running but not ready, so they receive no service traffic."@,
        unhealthy(event_message(g, p, "Unhealthy"@, ""@)),
        "Check the readiness probe's path, port and timing against what the app actually serves."@,
        seq![describe_pod(p)],
        names,
    )
}

fn not_ready_issue(g: &ClusterGraph, key: &str, p: &PodInfo, names: Vec<String>) -> (r: Issue)
    ensures
        r@ == not_ready(*g, key@, *p, text::strs(names@)),
{
    let id: (String, String, String) = split_id(key);
    let who: String = owner_label(key);
    let count: String = count_of(names.len());
    issue(
        cat2("pod-notready:", key),
        Severity::Warning,
        Layer::Pod,
        target(id.0.as_str(), id.1.as_str(), id.2.as_str()),
        cat2(who.as_str(), " is failing readiness checks"),
        cat2(count.as_str(), " are running but not ready, so they receive no service traffic."),
        unhealthy_lines(&message_of(g, p, "Unhealthy", "")),
        "Check the readiness probe's path, port and timing against what the app actually serves.".to_owned(),
        lines1(describe_command(p)),
        names,
    )
}

/// The issue for the pods of one owner with one finding.
pub open spec fn group_issue(g: ClusterGraph, key: Seq<char>, f: PodFinding, i: int) -> IssueView {
    let p = g.pods@[i];
    let c = p.containers@[first_with(p, sign_of(f), p.containers@.len() as int)->0];
    let n = g.pods@.len() as int;
    let names = group_names(g, key, f, n);
    match f {
        PodFinding::OomKilled => oom(key, p, c, group_restarts(g, key, f, n), names),
        PodFinding::CrashLoop => crash_loop(g, key, p, c, names),
        PodFinding::ImagePull => image_pull(key, p, c, names),
        PodFinding::ConfigError => config_error(key, p, c, names),
        PodFinding::Unschedulable => unschedulable(g, key, p, names),
        PodFinding::NotReady => not_ready(g, key, p, names),
    }
}

fn culprit(p: &PodInfo, f: PodFinding, s: Sign) -> (r: usize)
    requires
        finding(*p) == Some(f),
        f != PodFinding::Unschedulable,
        f != PodFinding::NotReady,
        s == sign_of(f),
    ensures
        r < p.containers@.len(),
        first_with(*p, s, p.containers@.len() as int) == Some(r as int),
{
    proof {
        lemma_culprit(*p, f);
    }
    match find_with(p, s) {
        Some(i) => i,
        None => 0,
    }
}

fn issue_of_group(g: &ClusterGraph, key: &str, f: PodFinding, i: usize) -> (r: Issue)
    requires
        i < g.pods@.len(),
        finding(g.pods@[i as int]) == Some(f),
    ensures
        r@ == group_issue(*g, key@, f, i as int),
{
    let p: &PodInfo = &g.pods[i];
    let names: Vec<String> = names_of(g, key, f);
    match f {
        PodFinding::OomKilled => oom_issue(
            key,
            p,
            &p.containers[culprit(p, f, Sign::OomTrace)],
            restarts_of(g, key, f),
            names,
        ),
        PodFinding::CrashLoop => crash_loop_issue(
            g,
            key,
            p,
            &p.containers[culprit(p, f, Sign::CrashLoop)],
            names,
        ),
        PodFinding::ImagePull => image_pull_issue(
            key,
            p,
            &p.containers[culprit(p, f, Sign::ImagePull)],
            names,
        ),
        PodFinding::ConfigError => config_error_issue(
            key,
            p,
            &p.containers[culprit(p, f, Sign::ConfigError)],
            names,
        ),
        PodFinding::Unschedulable => unschedulable_issue(g, key, p, names),
        PodFinding::NotReady => not_ready_issue(g, key, p, names),
    }
}

/// The issue of a group, if the group has pods.
pub open spec fn group_issues(g: ClusterGraph, key: Seq<char>, f: PodFinding) -> Seq<IssueView> {
    match first_pod(g, key, f, g.pods@.len() as int) {
        Some(i) => seq![group_issue(g, key, f, i)],
        None => Seq::empty(),
    }
}

fn issues_of_group(g: &ClusterGraph, key: &str, f: PodFinding) -> (r: Vec<Issue>)
    ensures
        model::views(r@) == group_issues(*g, key@, f),
{
    let mut r: Vec<Issue> = no_issues();
    match find_pod(g, key, f) {
        Some(i) => {
            proof {
                pick::lemma_first(
                    g.pods@.len() as int,
                    |i: int| in_group(*g, key@, f, i),
                );
            }
            emit(&mut r, issue_of_group(g, key, f, i));
        },
        None => {},
    }
    r
}

/// The issues of one owner, in the order of the findings.
pub open spec fn owner_issues(g: ClusterGraph, key: Seq<char>) -> Seq<IssueView> {
    group_issues(g, key, PodFinding::OomKilled) + group_issues(g, key, PodFinding::CrashLoop)
        + group_issues(g, key, PodFinding::ImagePull) + group_issues(
        g,
        key,
        PodFinding::ConfigError,
    ) + group_issues(g, key, PodFinding::Unschedulable) + group_issues(
        g,
        key,
        PodFinding::NotReady,
    )
}

fn issues_of_owner(g: &ClusterGraph, key: &str) -> (r: Vec<Issue>)
    ensures
        model::views(r@) == owner_issues(*g, key@),
{
    let mut r: Vec<Issue> = issues_of_group(g, key, PodFinding::OomKilled);
    emit_all(&mut r, issues_of_group(g, key, PodFinding::CrashLoop));
    emit_all(&mut r, issues_of_group(g, key, PodFinding::ImagePull));
    emit_all(&mut r, issues_of_group(g, key, PodFinding::ConfigError));
    emit_all(&mut r, issues_of_group(g, key, PodFinding::Unschedulable));
    emit_all(&mut r, issues_of_group(g, key, PodFinding::NotReady));
    r
}

/// The issues of all pods: for each owner, in rising order, one for each finding.
pub open spec fn pod_issues(g: ClusterGraph) -> Seq<IssueView> {
    let keys = owners(g, g.pods@.len() as int);
    pick::gather(keys.len() as int, |k: int| owner_issues(g, keys[k]))
}

/// What is wrong with the cluster's pods, grouped by owner and finding.
#[verifier::spinoff_prover]
#[verifier::rlimit(40)]
pub fn pod_rules(g: &ClusterGraph) -> (out: Vec<Issue>)
    ensures
        model::views(out@) == pod_issues(*g),
{
    let keys: Vec<String> = troubled_owners(g);
    let ghost ks = text::strs(keys@);
    let ghost f = |k: int| owner_issues(*g, ks[k]);
    let mut out: Vec<Issue> = no_issues();
    let mut k: usize = 0;
    while k < keys.len()
        invariant
            k <= keys.len(),
            ks == text::strs(keys@),
            f == (|k: int| owner_issues(*g, ks[k])),
            model::views(out@) == pick::gather(k as int, f),
        decreases keys.len() - k,
    {
        let part: Vec<Issue> = issues_of_owner(g, keys[k].as_str());
        emit_all(&mut out, part);
        k = k + 1;
    }
    out
}

} // verus!
