//! Which trouble of a pod is told, and which pods an issue lists.

use crate::laws::grouping;
use crate::laws::reports;
use crate::laws::reports::{stands_under, told_of};
use crate::model::{ClusterGraph, ContainerStatusInfo, IssueView, PodInfo, Severity};
use crate::pick;
use crate::rules::pod;
use crate::rules::pod::{PodFinding, Sign};
use vstd::prelude::*;

verus! {

/// Does the container give this reason for not running?
pub open spec fn gives(c: ContainerStatusInfo, reason: Seq<char>) -> bool {
    c.reason matches Some(r) && r@ == reason
}

/// Was the container killed for its memory, or does it crash after that?
pub open spec fn ran_out(c: ContainerStatusInfo) -> bool {
    gives(c, "OOMKilled"@) || (gives(c, "CrashLoopBackOff"@) && (c.last_reason matches Some(r)
        && r@ == "OOMKilled"@))
}

/// Can the container's image not be had?
pub open spec fn lacks_image(c: ContainerStatusInfo) -> bool {
    gives(c, "ImagePullBackOff"@) || gives(c, "ErrImagePull"@) || gives(c, "InvalidImageName"@)
        || gives(c, "ErrImageNeverPull"@)
}

/// Has no container run out of memory?
pub open spec fn memory_suffices(p: PodInfo) -> bool {
    forall|j: int| 0 <= j < p.containers@.len() ==> !ran_out(#[trigger] p.containers@[j])
}

/// Does no container crash in a loop?
pub open spec fn none_loops(p: PodInfo) -> bool {
    forall|j: int|
        0 <= j < p.containers@.len() ==> !gives(#[trigger] p.containers@[j], "CrashLoopBackOff"@)
}

/// Has every container its image?
pub open spec fn images_come(p: PodInfo) -> bool {
    forall|j: int| 0 <= j < p.containers@.len() ==> !lacks_image(#[trigger] p.containers@[j])
}

/// Has every container its configuration?
pub open spec fn config_is_there(p: PodInfo) -> bool {
    forall|j: int|
        0 <= j < p.containers@.len() ==> !gives(
            #[trigger] p.containers@[j],
            "CreateContainerConfigError"@,
        )
}

proof fn lemma_sign(p: PodInfo, s: Sign)
    ensures
        pod::has_sign(p, s) <==> exists|j: int|
            0 <= j < p.containers@.len() && pod::shows(#[trigger] p.containers@[j], s),
{
    let f = |i: int| pod::shows(p.containers@[i], s);
    pick::lemma_first(p.containers@.len() as int, f);
    if pod::has_sign(p, s) {
        let j = pod::first_with(p, s, p.containers@.len() as int)->0;
        assert(f(j));
        assert(pod::shows(p.containers@[j], s));
    } else {
        assert forall|j: int| 0 <= j < p.containers@.len() implies !pod::shows(
            #[trigger] p.containers@[j],
            s,
        ) by {
            assert(!f(j));
        }
    }
}

/// The signs of a pod, as its containers give them.
proof fn lemma_signs(p: PodInfo)
    ensures
        pod::has_sign(p, Sign::OutOfMemory) <==> !memory_suffices(p),
        pod::has_sign(p, Sign::CrashLoop) <==> !none_loops(p),
        pod::has_sign(p, Sign::ImagePull) <==> !images_come(p),
        pod::has_sign(p, Sign::ConfigError) <==> !config_is_there(p),
        pod::has_sign(p, Sign::Stopped) <==> exists|j: int|
            0 <= j < p.containers@.len() && (#[trigger] p.containers@[j]).state@ != "running"@,
{
    lemma_sign(p, Sign::OutOfMemory);
    lemma_sign(p, Sign::CrashLoop);
    lemma_sign(p, Sign::ImagePull);
    lemma_sign(p, Sign::ConfigError);
    lemma_sign(p, Sign::Stopped);
    assert forall|j: int| 0 <= j < p.containers@.len() implies ({
        let c = #[trigger] p.containers@[j];
        &&& pod::shows(c, Sign::OutOfMemory) == ran_out(c)
        &&& pod::shows(c, Sign::CrashLoop) == gives(c, "CrashLoopBackOff"@)
        &&& pod::shows(c, Sign::ImagePull) == lacks_image(c)
        &&& pod::shows(c, Sign::ConfigError) == gives(c, "CreateContainerConfigError"@)
        &&& pod::shows(c, Sign::Stopped) == (c.state@ != "running"@)
    }) by {
    }
}

/// How bad a finding is.
pub open spec fn weight(f: PodFinding) -> Severity {
    match f {
        PodFinding::NotReady => Severity::Warning,
        _ => Severity::Critical,
    }
}

proof fn lemma_told(g: ClusterGraph, i: int, f: PodFinding, key: Seq<char>)
    requires
        0 <= i < g.pods@.len(),
        pod::finding(g.pods@[i]) == Some(f),
        stands_under(g.pods@[i], key),
    ensures
        told_of(g, grouping::prefix(f) + key, weight(f), g.pods@[i].name@),
{
    assert(key == pod::owner(g.pods@[i]));
    grouping::every_pod_in_trouble_is_told_of(g, i, f);
    let all = pod::pod_issues(g);
    let k = choose|k: int|
        0 <= k < all.len() && grouping::about(#[trigger] all[k], f, key) && all[k].pods.contains(
            g.pods@[i].name@,
        );
    let x = all[k];
    lemma_cause(g, x);
    let (e, j) = choose|e: PodFinding, j: Seq<char>|
        #![trigger grouping::about(x, e, j)]
        grouping::about(x, e, j) && x.severity == weight(e);
    grouping::lemma_ids(f, key, e, j);
    assert(all.contains(x));
    reports::lemma_told(g, x);
}

/// Every issue about pods is about one finding under one owner, with the
/// severity of the finding, and lists the pods of that owner with that finding.
proof fn lemma_cause(g: ClusterGraph, x: IssueView)
    requires
        pod::pod_issues(g).contains(x),
    ensures
        exists|e: PodFinding, j: Seq<char>|
            #![trigger grouping::about(x, e, j)]
            grouping::about(x, e, j) && x.severity == weight(e) && x.pods == pod::group_names(
                g,
                j,
                e,
                g.pods@.len() as int,
            ),
{
    let keys = pod::owners(g, g.pods@.len() as int);
    let all = |k: int| pod::owner_issues(g, keys[k]);
    pick::lemma_gather_contains(keys.len() as int, all, x);
    let k = choose|k: int| 0 <= k < keys.len() && (#[trigger] all(k)).contains(x);
    let key = keys[k];
    let w = lemma_which(g, key, x);
    lemma_group(g, key, w, x);
    assert(grouping::about(x, w, key));
}

proof fn lemma_which(g: ClusterGraph, key: Seq<char>, x: IssueView) -> (w: PodFinding)
    requires
        pod::owner_issues(g, key).contains(x),
    ensures
        pod::group_issues(g, key, w).contains(x),
{
    let a = pod::group_issues(g, key, PodFinding::OomKilled);
    let b = pod::group_issues(g, key, PodFinding::CrashLoop);
    let c = pod::group_issues(g, key, PodFinding::ImagePull);
    let d = pod::group_issues(g, key, PodFinding::ConfigError);
    let e = pod::group_issues(g, key, PodFinding::Unschedulable);
    let f = pod::group_issues(g, key, PodFinding::NotReady);
    reports::lemma_either(a, b, x);
    reports::lemma_either(a + b, c, x);
    reports::lemma_either(a + b + c, d, x);
    reports::lemma_either(a + b + c + d, e, x);
    reports::lemma_either(a + b + c + d + e, f, x);
    let w = if a.contains(x) {
        PodFinding::OomKilled
    } else if b.contains(x) {
        PodFinding::CrashLoop
    } else if c.contains(x) {
        PodFinding::ImagePull
    } else if d.contains(x) {
        PodFinding::ConfigError
    } else if e.contains(x) {
        PodFinding::Unschedulable
    } else {
        PodFinding::NotReady
    };
    w
}

proof fn lemma_group(g: ClusterGraph, key: Seq<char>, f: PodFinding, x: IssueView)
    requires
        pod::group_issues(g, key, f).contains(x),
    ensures
        grouping::about(x, f, key),
        x.severity == weight(f),
        x.pods == pod::group_names(g, key, f, g.pods@.len() as int),
{
}

proof fn lemma_phases()
    ensures
        "Pending"@ != "Succeeded"@,
        "Running"@ != "Succeeded"@,
        "Running"@ != "Pending"@,
{
    reveal_strlit("Running");
    reveal_strlit("Succeeded");
    reveal_strlit("Pending");
    assert("Running"@[0] != "Pending"@[0]);
}

/// A pod with a container that ran out of memory is told of, as critical, unless
/// the pod has succeeded.
pub proof fn pods_out_of_memory_are_told_of(g: ClusterGraph, i: int, key: Seq<char>)
    requires
        0 <= i < g.pods@.len(),
        stands_under(g.pods@[i], key),
        g.pods@[i].phase@ != "Succeeded"@,
        !memory_suffices(g.pods@[i]),
    ensures
        told_of(g, "pod-oom:"@ + key, Severity::Critical, g.pods@[i].name@),
{
    lemma_signs(g.pods@[i]);
    lemma_told(g, i, PodFinding::OomKilled, key);
}

/// A pod with a container that crashes in a loop is told of, as critical.
pub proof fn crash_loops_are_told_of(g: ClusterGraph, i: int, key: Seq<char>)
    requires
        0 <= i < g.pods@.len(),
        stands_under(g.pods@[i], key),
        g.pods@[i].phase@ != "Succeeded"@,
        memory_suffices(g.pods@[i]),
        !none_loops(g.pods@[i]),
    ensures
        told_of(g, "pod-crashloop:"@ + key, Severity::Critical, g.pods@[i].name@),
{
    lemma_signs(g.pods@[i]);
    lemma_told(g, i, PodFinding::CrashLoop, key);
}

/// A pod with a container whose image can't be pulled is told of, as critical.
pub proof fn failed_pulls_are_told_of(g: ClusterGraph, i: int, key: Seq<char>)
    requires
        0 <= i < g.pods@.len(),
        stands_under(g.pods@[i], key),
        g.pods@[i].phase@ != "Succeeded"@,
        memory_suffices(g.pods@[i]),
        none_loops(g.pods@[i]),
        !images_come(g.pods@[i]),
    ensures
        told_of(g, "pod-imagepull:"@ + key, Severity::Critical, g.pods@[i].name@),
{
    lemma_signs(g.pods@[i]);
    lemma_told(g, i, PodFinding::ImagePull, key);
}

/// A pod with a container that lacks its configuration is told of, as critical.
pub proof fn missing_configuration_is_told_of(g: ClusterGraph, i: int, key: Seq<char>)
    requires
        0 <= i < g.pods@.len(),
        stands_under(g.pods@[i], key),
        g.pods@[i].phase@ != "Succeeded"@,
        memory_suffices(g.pods@[i]),
        none_loops(g.pods@[i]),
        images_come(g.pods@[i]),
        !config_is_there(g.pods@[i]),
    ensures
        told_of(g, "pod-config:"@ + key, Severity::Critical, g.pods@[i].name@),
{
    lemma_signs(g.pods@[i]);
    lemma_told(g, i, PodFinding::ConfigError, key);
}

/// Does no container give a reason that the rules know?
pub open spec fn gives_no_reason(p: PodInfo) -> bool {
    memory_suffices(p) && none_loops(p) && images_come(p) && config_is_there(p)
}

/// A pod that waits for a node is told of, as critical.
pub proof fn pods_without_a_node_are_told_of(g: ClusterGraph, i: int, key: Seq<char>)
    requires
        0 <= i < g.pods@.len(),
        stands_under(g.pods@[i], key),
        g.pods@[i].phase@ == "Pending"@,
        g.pods@[i].node is None,
        gives_no_reason(g.pods@[i]),
    ensures
        told_of(g, "pod-unschedulable:"@ + key, Severity::Critical, g.pods@[i].name@),
{
    assert(pod::finding(g.pods@[i]) == Some(PodFinding::Unschedulable)) by {
        lemma_phases();
        lemma_signs(g.pods@[i]);
    }
    lemma_told(g, i, PodFinding::Unschedulable, key);
}

/// A pod that runs, with all its containers, but is not ready is told of, as a
/// warning.
pub proof fn pods_that_are_not_ready_are_told_of(g: ClusterGraph, i: int, key: Seq<char>)
    requires
        0 <= i < g.pods@.len(),
        stands_under(g.pods@[i], key),
        g.pods@[i].phase@ == "Running"@,
        !g.pods@[i].ready,
        gives_no_reason(g.pods@[i]),
        forall|j: int|
            0 <= j < g.pods@[i].containers@.len() ==> (#[trigger] g.pods@[i].containers@[j]).state@
                == "running"@,
    ensures
        told_of(g, "pod-notready:"@ + key, Severity::Warning, g.pods@[i].name@),
{
    assert(pod::finding(g.pods@[i]) == Some(PodFinding::NotReady)) by {
        lemma_phases();
        lemma_signs(g.pods@[i]);
    }
    lemma_told(g, i, PodFinding::NotReady, key);
}

/// Is nothing wrong with the pod itself?
pub open spec fn is_well(p: PodInfo) -> bool {
    p.phase@ == "Succeeded"@ || (gives_no_reason(p) && !(p.phase@ == "Pending"@ && p.node is None)
        && (p.phase@ == "Running"@ && !p.ready ==> exists|j: int|
        0 <= j < p.containers@.len() && (#[trigger] p.containers@[j]).state@ != "running"@))
}

/// An issue about pods lists no pod that is well: each pod that it lists stands
/// under its owner and has something wrong with it.
pub proof fn pods_that_are_well_are_left_alone(g: ClusterGraph, x: IssueView, name: Seq<char>)
    requires
        pod::pod_issues(g).contains(x),
        x.pods.contains(name),
    ensures
        exists|i: int|
            0 <= i < g.pods@.len() && (#[trigger] g.pods@[i]).name@ == name && !is_well(g.pods@[i])
                && stands_under(g.pods@[i], pod::owner(g.pods@[i])),
{
    lemma_cause(g, x);
    let (f, key) = choose|f: PodFinding, key: Seq<char>|
        #![trigger grouping::about(x, f, key)]
        grouping::about(x, f, key) && x.severity == weight(f) && x.pods == pod::group_names(
            g,
            key,
            f,
            g.pods@.len() as int,
        );
    let n = g.pods@.len() as int;
    let each = |i: int|
        if pod::in_group(g, key, f, i) {
            seq![g.pods@[i].name@]
        } else {
            Seq::empty()
        };
    pick::lemma_gather_contains(n, each, name);
    assert(pod::group_names(g, key, f, n) == pick::gather(n, each));
    let i = choose|i: int| 0 <= i < n && (#[trigger] each(i)).contains(name);
    assert(pod::in_group(g, key, f, i));
    lemma_signs(g.pods@[i]);
    assert(g.pods@[i].name@ == name);
}

/// A pod that is well is not flagged: it explains nothing.
pub proof fn only_pods_in_trouble_are_flagged(g: ClusterGraph, name: Seq<char>)
    ensures
        pod::flagged(g, g.pods@.len() as int).contains(name) <==> exists|i: int|
            0 <= i < g.pods@.len() && (#[trigger] g.pods@[i]).namespace@ + "/"@ + g.pods@[i].name@
                == name && !is_well(g.pods@[i]),
{
    let n = g.pods@.len() as int;
    let f = |i: int|
        if pod::finding(g.pods@[i]) is Some {
            Some(pod::pod_key(g.pods@[i]))
        } else {
            None
        };
    pick::lemma_keys(n, f);
    assert(pod::flagged(g, n) == pick::keys(n, f));
    if pod::flagged(g, n).contains(name) {
        let i = choose|i: int| 0 <= i < n && #[trigger] f(i) == Some(name);
        lemma_signs(g.pods@[i]);
        assert(g.pods@[i].namespace@ + "/"@ + g.pods@[i].name@ == name);
    }
    if exists|i: int|
        0 <= i < n && (#[trigger] g.pods@[i]).namespace@ + "/"@ + g.pods@[i].name@ == name
            && !is_well(g.pods@[i]) {
        let i = choose|i: int|
            0 <= i < n && (#[trigger] g.pods@[i]).namespace@ + "/"@ + g.pods@[i].name@ == name
                && !is_well(g.pods@[i]);
        lemma_signs(g.pods@[i]);
        assert(f(i) == Some(name));
    }
}

} // verus!
