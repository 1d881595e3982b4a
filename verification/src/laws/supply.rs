//! What is told of what workloads need to run: storage, admission, scaling, room
//! on the nodes, and pod networking.

use crate::laws::reports;
use crate::laws::reports::{stands_under, told, told_of};
use crate::lettercase;
use crate::model::{
    ClusterGraph, EventInfo, HpaInfo, IssueView, PodInfo, PvcInfo, Severity, WorkloadInfo,
};
use crate::pick;
use crate::rules::admission;
use crate::rules::admission::Refusal;
use crate::rules::cni;
use crate::rules::cni::Sandbox;
use crate::rules::eviction;
use crate::rules::hpa;
use crate::rules::pod;
use crate::rules::storage;
use crate::scan;
use crate::text;
use vstd::prelude::*;

verus! {

/// Does the pod mount the claim?
pub open spec fn mounts(p: PodInfo, c: PvcInfo) -> bool {
    p.namespace@ == c.namespace@ && exists|k: int|
        0 <= k < p.pvcs@.len() && (#[trigger] p.pvcs@[k])@ == c.name@
}

proof fn lemma_users(g: ClusterGraph, c: PvcInfo, n: int)
    requires
        0 <= n <= g.pods@.len(),
    ensures
        storage::claim_users(g, c, n).len() > 0 <==> exists|i: int|
            0 <= i < n && mounts(#[trigger] g.pods@[i], c),
        forall|i: int|
            0 <= i < n && mounts(#[trigger] g.pods@[i], c) ==> storage::claim_users(
                g,
                c,
                n,
            ).contains(g.pods@[i].name@),
    decreases n,
{
    if n > 0 {
        lemma_users(g, c, n - 1);
        let p = g.pods@[n - 1];
        let all = text::strs(p.pvcs@);
        if all.contains(c.name@) {
            let k = choose|k: int| 0 <= k < all.len() && all[k] == c.name@;
            assert(p.pvcs@[k]@ == c.name@);
        }
        if mounts(p, c) {
            let k = choose|k: int| 0 <= k < p.pvcs@.len() && (#[trigger] p.pvcs@[k])@ == c.name@;
            assert(all[k] == c.name@);
        }
        let a = storage::claim_users(g, c, n - 1);
        let b = storage::claim_users(g, c, n);
        assert forall|i: int| 0 <= i < n && mounts(#[trigger] g.pods@[i], c) implies b.contains(
            g.pods@[i].name@,
        ) by {
            if i < n - 1 {
                let k = choose|k: int| 0 <= k < a.len() && a[k] == g.pods@[i].name@;
                assert(b[k] == g.pods@[i].name@);
            } else {
                assert(b[a.len() as int] == g.pods@[i].name@);
            }
        }
    }
}

proof fn lemma_storage_told(g: ClusterGraph, x: IssueView)
    requires
        storage::claim_issues(g, g.pvcs@.len() as int).contains(x) || storage::mount_issues(
            g,
        ).contains(x),
    ensures
        told(g, x.id, x.severity),
        forall|p: Seq<char>| x.pods.contains(p) ==> #[trigger] told_of(g, x.id, x.severity, p),
{
    reports::lemma_either(
        storage::claim_issues(g, g.pvcs@.len() as int),
        storage::mount_issues(g),
        x,
    );
    reports::lemma_told(g, x);
}

/// A claim that waits for its volume is told of, with the pods that mount it. It is
/// critical exactly where there are such pods.
pub proof fn claims_that_wait_are_told_of(g: ClusterGraph, i: int)
    requires
        0 <= i < g.pvcs@.len(),
        g.pvcs@[i].phase@ == "Pending"@,
    ensures
        ({
            let c = g.pvcs@[i];
            let id = "storage-pvc-pending:"@ + c.namespace@ + "/"@ + c.name@;
            &&& (exists|k: int| 0 <= k < g.pods@.len() && mounts(#[trigger] g.pods@[k], c))
                ==> told(g, id, Severity::Critical)
            &&& !(exists|k: int| 0 <= k < g.pods@.len() && mounts(#[trigger] g.pods@[k], c))
                ==> told(g, id, Severity::Warning)
            &&& forall|k: int|
                0 <= k < g.pods@.len() && mounts(#[trigger] g.pods@[k], c) ==> told_of(
                    g,
                    id,
                    Severity::Critical,
                    g.pods@[k].name@,
                )
        }),
{
    let c = g.pvcs@[i];
    let n = g.pvcs@.len() as int;
    lemma_users(g, c, g.pods@.len() as int);
    let x = storage::claim_issue(g, c);
    let f = |i: int|
        if g.pvcs@[i].phase@ == "Pending"@ {
            seq![storage::claim_issue(g, g.pvcs@[i])]
        } else {
            Seq::empty()
        };
    assert(f(i)[0] == x);
    reports::lemma_gathered(n, f, i, x);
    assert(storage::claim_issues(g, n) == pick::gather(n, f));
    lemma_storage_told(g, x);
}

/// An issue about a claim is about one that waits.
pub proof fn bound_claims_are_left_alone(g: ClusterGraph, x: IssueView)
    requires
        storage::claim_issues(g, g.pvcs@.len() as int).contains(x),
    ensures
        exists|i: int|
            0 <= i < g.pvcs@.len() && (#[trigger] g.pvcs@[i]).phase@ == "Pending"@ && x.id
                == "storage-pvc-pending:"@ + g.pvcs@[i].namespace@ + "/"@ + g.pvcs@[i].name@,
{
    let n = g.pvcs@.len() as int;
    let f = |i: int|
        if g.pvcs@[i].phase@ == "Pending"@ {
            seq![storage::claim_issue(g, g.pvcs@[i])]
        } else {
            Seq::empty()
        };
    assert(storage::claim_issues(g, n) == pick::gather(n, f));
    pick::lemma_gather_contains(n, f, x);
    let i = choose|i: int| 0 <= i < n && (#[trigger] f(i)).contains(x);
    assert(g.pvcs@[i].phase@ == "Pending"@);
}

/// Is this the first pod with the name?
pub open spec fn is_pod(g: ClusterGraph, ns: Seq<char>, name: Seq<char>, k: int) -> bool {
    0 <= k < g.pods@.len() && g.pods@[k].namespace@ == ns && g.pods@[k].name@ == name && forall|
        j: int,
    |
        0 <= j < k ==> !((#[trigger] g.pods@[j]).namespace@ == ns && g.pods@[j].name@ == name)
}

proof fn lemma_pod_at(g: ClusterGraph, ns: Seq<char>, name: Seq<char>, n: int)
    requires
        0 <= n <= g.pods@.len(),
    ensures
        match storage::pod_at(g, ns, name, n) {
            Some(k) => k < n && is_pod(g, ns, name, k),
            None => forall|j: int|
                0 <= j < n ==> !((#[trigger] g.pods@[j]).namespace@ == ns && g.pods@[j].name@
                    == name),
        },
    decreases n,
{
    if n > 0 {
        lemma_pod_at(g, ns, name, n - 1);
    }
}

proof fn lemma_is_pod(g: ClusterGraph, ns: Seq<char>, name: Seq<char>, k: int)
    requires
        is_pod(g, ns, name, k),
    ensures
        storage::pod_at(g, ns, name, g.pods@.len() as int) == Some(k),
{
    lemma_pod_at(g, ns, name, g.pods@.len() as int);
    let m = storage::pod_at(g, ns, name, g.pods@.len() as int)->0;
    if m < k {
        assert(!(g.pods@[m].namespace@ == ns && g.pods@[m].name@ == name));
    } else if k < m {
        assert(!(g.pods@[k].namespace@ == ns && g.pods@[k].name@ == name));
    }
}

/// Does the event say that a volume of the pod can't be mounted?
pub open spec fn cannot_mount(e: EventInfo) -> bool {
    e.kind@ == "Pod"@ && (e.reason@ == "FailedMount"@ || e.reason@ == "FailedAttachVolume"@)
}

/// Is the volume one of configuration that is not there?
pub open spec fn lacks_configuration(e: EventInfo) -> bool {
    let low = lettercase::lowercase(e.message@);
    (scan::contains(low, "configmap"@) || scan::contains(low, "secret"@)) && scan::contains(
        low,
        "not found"@,
    )
}

proof fn lemma_stuck_names(g: ClusterGraph, key: Seq<char>, config: bool, i: int, n: int)
    requires
        0 <= i < n <= g.events@.len(),
        storage::is_stuck(g, key, config, i),
    ensures
        storage::first_stuck(g, key, config, n) is Some,
        storage::stuck_names(g, key, config, n).contains(g.events@[i].name@),
    decreases n, i,
{
    let name = g.events@[i].name@;
    let f = |i: int| storage::is_stuck(g, key, config, i);
    pick::lemma_first(n, f);
    assert(f(i));
    assert(storage::first_stuck(g, key, config, n) == pick::first(n, f));
    let a = storage::stuck_names(g, key, config, n - 1);
    let b = storage::stuck_names(g, key, config, n);
    if i < n - 1 {
        lemma_stuck_names(g, key, config, i, n - 1);
        let k = choose|k: int| 0 <= k < a.len() && a[k] == name;
        assert(b[k] == name);
    } else {
        if storage::named_before(g, key, config, name, i) {
            lemma_named_before(g, key, config, name, i);
            let j = choose|j: int|
                0 <= j < i && #[trigger] storage::is_stuck(g, key, config, j) && g.events@[j].name@
                    == name;
            lemma_stuck_names(g, key, config, j, n - 1);
            let k = choose|k: int| 0 <= k < a.len() && a[k] == name;
            assert(b[k] == name);
        } else {
            assert(b[a.len() as int] == name);
        }
    }
}

proof fn lemma_named_before(
    g: ClusterGraph,
    key: Seq<char>,
    config: bool,
    name: Seq<char>,
    n: int,
)
    requires
        storage::named_before(g, key, config, name, n),
    ensures
        exists|j: int|
            0 <= j < n && #[trigger] storage::is_stuck(g, key, config, j) && g.events@[j].name@
                == name,
    decreases n,
{
    if n > 0 {
        if storage::named_before(g, key, config, name, n - 1) {
            lemma_named_before(g, key, config, name, n - 1);
        } else {
            assert(storage::is_stuck(g, key, config, n - 1));
        }
    }
}

/// A pod that waits for a volume that can't be mounted is told of, as critical:
/// under its configuration where that is not there, and else under its storage.
pub proof fn failed_mounts_are_told_of(g: ClusterGraph, i: int, k: int, key: Seq<char>)
    requires
        0 <= i < g.events@.len(),
        cannot_mount(g.events@[i]),
        is_pod(g, g.events@[i].namespace@, g.events@[i].name@, k),
        !(g.pods@[k].phase@ == "Running"@ && g.pods@[k].ready),
        stands_under(g.pods@[k], key),
    ensures
        lacks_configuration(g.events@[i]) ==> told_of(
            g,
            "config-missing"@ + ":"@ + key,
            Severity::Critical,
            g.pods@[k].name@,
        ),
        !lacks_configuration(g.events@[i]) ==> told_of(
            g,
            "storage-mount-failed"@ + ":"@ + key,
            Severity::Critical,
            g.pods@[k].name@,
        ),
{
    let e = g.events@[i];
    let n = g.events@.len() as int;
    let config = lacks_configuration(e);
    lemma_is_pod(g, e.namespace@, e.name@, k);
    assert(key == pod::owner(g.pods@[k]));
    assert(storage::stuck_pod(g, i) == Some(k));
    assert(storage::is_stuck(g, key, config, i));
    lemma_stuck_names(g, key, config, i, n);
    let keys = storage::stuck_owners(g, n);
    let own = |i: int| storage::owner_stuck(g, i);
    pick::lemma_keys(n, own);
    assert(keys == pick::keys(n, own));
    assert(own(i) == Some(key));
    assert(keys.contains(key));
    let m = choose|m: int| 0 <= m < keys.len() && keys[m] == key;
    lemma_first_stuck(g, key, config, n);
    let x = storage::mount_issue(g, key, config)[0];
    assert(storage::mount_issue(g, key, config).contains(x));
    reports::lemma_either(
        storage::mount_issue(g, key, false),
        storage::mount_issue(g, key, true),
        x,
    );
    let all = |k: int| storage::owner_mounts(g, keys[k]);
    assert(all(m).contains(x));
    reports::lemma_gathered(keys.len() as int, all, m, x);
    assert(storage::mount_issues(g) == pick::gather(keys.len() as int, all));
    lemma_storage_told(g, x);
}

proof fn lemma_first_stuck(g: ClusterGraph, key: Seq<char>, config: bool, n: int)
    requires
        storage::first_stuck(g, key, config, n) is Some,
    ensures
        storage::stuck_pod(g, storage::first_stuck(g, key, config, n)->0) is Some,
{
    let f = |i: int| storage::is_stuck(g, key, config, i);
    pick::lemma_first(n, f);
    assert(storage::first_stuck(g, key, config, n) == pick::first(n, f));
    assert(f(pick::first(n, f)->0));
}

/// A pod that runs and is ready does not wait for a volume: an event about it is
/// not held against it.
pub proof fn ready_pods_wait_for_nothing(g: ClusterGraph, i: int, k: int)
    requires
        0 <= i < g.events@.len(),
        is_pod(g, g.events@[i].namespace@, g.events@[i].name@, k),
        g.pods@[k].phase@ == "Running"@,
        g.pods@[k].ready,
    ensures
        storage::stuck_pod(g, i) is None,
{
    lemma_is_pod(g, g.events@[i].namespace@, g.events@[i].name@, k);
}

/// Does the event say that pods were refused for the quota of the namespace?
pub open spec fn is_over_quota(e: EventInfo) -> bool {
    e.reason@ == "FailedCreate"@ && scan::contains(
        lettercase::lowercase(e.message@),
        "exceeded quota"@,
    )
}

/// Does the event say that pods were refused by a policy of the cluster?
pub open spec fn is_denied(e: EventInfo) -> bool {
    let low = lettercase::lowercase(e.message@);
    e.reason@ == "FailedCreate"@ && !scan::contains(low, "exceeded quota"@) && (scan::contains(
        low,
        "admission webhook"@,
    ) || scan::contains(low, "violates podsecurity"@) || scan::contains(low, "forbidden"@))
}

proof fn lemma_told_before(
    g: ClusterGraph,
    r: Option<Refusal>,
    owner: Seq<char>,
    n: int,
) -> (j: int)
    requires
        admission::told_before(g, r, owner, n),
    ensures
        0 <= j < n,
        admission::alike_refusals(admission::refused(g, j), r),
        admission::event_owner(g, g.events@[j]) == owner,
    decreases n,
{
    if admission::told_before(g, r, owner, n - 1) {
        lemma_told_before(g, r, owner, n - 1)
    } else {
        n - 1
    }
}

proof fn lemma_refused(g: ClusterGraph, i: int)
    requires
        0 <= i < g.events@.len(),
        admission::refused(g, i) is Some,
    ensures
        told(
            g,
            (if admission::refused(g, i) == Some(Refusal::Quota) {
                "quota-exceeded"@
            } else {
                "admission-denied"@
            }) + ":"@ + admission::event_owner(g, g.events@[i]),
            Severity::Critical,
        ),
    decreases i,
{
    let r = admission::refused(g, i);
    let owner = admission::event_owner(g, g.events@[i]);
    if admission::told_before(g, r, owner, i) {
        let j = lemma_told_before(g, r, owner, i);
        lemma_refused(g, j);
    } else {
        let n = g.events@.len() as int;
        let x = admission::refusal_issue(g, i)[0];
        assert(admission::refusal_issue(g, i).contains(x));
        let f = |i: int| admission::refusal_issue(g, i);
        reports::lemma_gathered(n, f, i, x);
        assert(admission::refusal_issues(g, n) == pick::gather(n, f));
        reports::lemma_told(g, x);
    }
}

/// A workload whose pods are refused, for the quota or by a policy, is told of, as
/// critical, under the owner of the event. Other events are not.
pub proof fn refusals_are_told_of(g: ClusterGraph, i: int)
    requires
        0 <= i < g.events@.len(),
    ensures
        ({
            let e = g.events@[i];
            let key = admission::event_owner(g, e);
            &&& is_over_quota(e) ==> told(g, "quota-exceeded"@ + ":"@ + key, Severity::Critical)
            &&& is_denied(e) ==> told(g, "admission-denied"@ + ":"@ + key, Severity::Critical)
            &&& !is_over_quota(e) && !is_denied(e) ==> admission::refusal_issue(g, i).len() == 0
        }),
{
    if admission::refused(g, i) is Some {
        lemma_refused(g, i);
    }
}

/// Is this the first workload that the event is about by name?
pub open spec fn is_about(g: ClusterGraph, e: EventInfo, k: int) -> bool {
    0 <= k < g.workloads@.len() && matches_event(e, g.workloads@[k]) && forall|j: int|
        0 <= j < k ==> !matches_event(e, #[trigger] g.workloads@[j])
}

/// Is the event about the workload, by kind and name?
pub open spec fn matches_event(e: EventInfo, w: WorkloadInfo) -> bool {
    w.kind@ == e.kind@ && w.namespace@ == e.namespace@ && w.name@ == e.name@
}

proof fn lemma_named_workload(g: ClusterGraph, e: EventInfo, n: int)
    requires
        0 <= n <= g.workloads@.len(),
    ensures
        match admission::named(g, e, n) {
            Some(k) => k < n && is_about(g, e, k),
            None => forall|j: int| 0 <= j < n ==> !matches_event(e, #[trigger] g.workloads@[j]),
        },
    decreases n,
{
    if n > 0 {
        lemma_named_workload(g, e, n - 1);
    }
}

/// Might the replica set be one of the deployment's, by its name?
pub open spec fn may_be_of(e: EventInfo, w: WorkloadInfo) -> bool {
    w.kind@ == "Deployment"@ && w.namespace@ == e.namespace@ && scan::starts_with(
        e.name@,
        w.name@ + "-"@,
    )
}

proof fn lemma_longest(g: ClusterGraph, e: EventInfo, n: int)
    requires
        0 <= n <= g.workloads@.len(),
    ensures
        match admission::longest(g, e, n) {
            Some(k) => 0 <= k < n && may_be_of(e, g.workloads@[k]) && forall|j: int|
                0 <= j < n && may_be_of(e, #[trigger] g.workloads@[j]) ==> g.workloads@[j].name@.len()
                    <= g.workloads@[k].name@.len(),
            None => forall|j: int| 0 <= j < n ==> !may_be_of(e, #[trigger] g.workloads@[j]),
        },
    decreases n,
{
    if n > 0 {
        lemma_longest(g, e, n - 1);
    }
}

/// The owner of an event about a replica set is the deployment with the longest
/// name that the replica set's name begins with; that of another event is the
/// workload with its kind and name. Where there is none, it is the object itself.
pub proof fn events_belong_to_their_workload(g: ClusterGraph, e: EventInfo)
    ensures
        ({
            let key = admission::event_owner(g, e);
            let itself = e.kind@ + "/"@ + e.namespace@ + "/"@ + e.name@;
            if e.kind@ == "ReplicaSet"@ {
                if exists|k: int|
                    0 <= k < g.workloads@.len() && may_be_of(e, #[trigger] g.workloads@[k]) {
                    exists|k: int|
                        0 <= k < g.workloads@.len() && may_be_of(e, #[trigger] g.workloads@[k])
                            && key == g.workloads@[k].id@ && forall|j: int|
                            0 <= j < g.workloads@.len() && may_be_of(e, #[trigger] g.workloads@[j])
                                ==> g.workloads@[j].name@.len() <= g.workloads@[k].name@.len()
                } else {
                    key == itself
                }
            } else {
                &&& forall|k: int| #[trigger] is_about(g, e, k) ==> key == g.workloads@[k].id@
                &&& (forall|k: int|
                    0 <= k < g.workloads@.len() ==> !matches_event(e, #[trigger] g.workloads@[k]))
                    ==> key == itself
            }
        }),
{
    let n = g.workloads@.len() as int;
    if e.kind@ == "ReplicaSet"@ {
        lemma_longest(g, e, n);
        match admission::longest(g, e, n) {
            Some(k) => {
                assert(may_be_of(e, g.workloads@[k]));
            },
            None => {},
        }
    } else {
        lemma_named_workload(g, e, n);
        assert forall|k: int| #[trigger] is_about(g, e, k) implies admission::event_owner(g, e)
            == g.workloads@[k].id@ by {
            let m = admission::named(g, e, n)->0;
            assert(matches_event(e, g.workloads@[k]));
            if m < k {
                assert(!matches_event(e, g.workloads@[m]));
            } else if k < m {
                assert(!matches_event(e, g.workloads@[k]));
            }
        }
    }
}

/// Is this the status of the first condition of the type?
pub open spec fn condition_is(h: HpaInfo, t: Seq<char>, status: Seq<char>) -> bool {
    exists|k: int| #[trigger] first_condition(h, t, k) && h.conditions@[k].status@ == status
}

/// Is this the first condition of the type?
pub open spec fn first_condition(h: HpaInfo, t: Seq<char>, k: int) -> bool {
    0 <= k < h.conditions@.len() && h.conditions@[k].type_@ == t && forall|j: int|
        0 <= j < k ==> (#[trigger] h.conditions@[j]).type_@ != t
}

proof fn lemma_condition(h: HpaInfo, t: Seq<char>, n: int)
    requires
        0 <= n <= h.conditions@.len(),
    ensures
        match hpa::condition(h, t, n) {
            Some(k) => k < n && first_condition(h, t, k),
            None => forall|j: int| 0 <= j < n ==> (#[trigger] h.conditions@[j]).type_@ != t,
        },
    decreases n,
{
    if n > 0 {
        lemma_condition(h, t, n - 1);
    }
}

proof fn lemma_condition_is(h: HpaInfo, t: Seq<char>, status: Seq<char>)
    ensures
        hpa::with_status(h, t, status) is Some <==> condition_is(h, t, status),
{
    lemma_condition(h, t, h.conditions@.len() as int);
    let m = hpa::condition(h, t, h.conditions@.len() as int);
    if condition_is(h, t, status) {
        let k = choose|k: int| #[trigger]
            first_condition(h, t, k) && h.conditions@[k].status@ == status;
        if m->0 < k {
            assert(h.conditions@[m->0].type_@ != t);
        } else if k < m->0 {
            assert(h.conditions@[k].type_@ != t);
        }
    }
    if hpa::with_status(h, t, status) is Some {
        assert(first_condition(h, t, m->0));
    }
}

/// An autoscaler that is not active is told of; one that is, but is limited, at its
/// maximum; and one that can't scale. All are warnings, and others are not told of.
pub proof fn autoscalers_in_trouble_are_told_of(g: ClusterGraph, i: int)
    requires
        0 <= i < g.hpas@.len(),
    ensures
        ({
            let h = g.hpas@[i];
            let id = h.namespace@ + "/"@ + h.name@;
            let idle = condition_is(h, "ScalingActive"@, "False"@);
            let full = condition_is(h, "ScalingLimited"@, "True"@) && h.current >= h.max;
            let stuck = condition_is(h, "AbleToScale"@, "False"@);
            &&& idle ==> told(g, "hpa-metrics:"@ + h.namespace@ + "/"@ + h.name@, Severity::Warning)
            &&& !idle && full ==> told(
                g,
                "hpa-at-max:"@ + h.namespace@ + "/"@ + h.name@,
                Severity::Warning,
            )
            &&& stuck ==> told(g, "hpa-unable:"@ + h.namespace@ + "/"@ + h.name@, Severity::Warning)
            &&& !idle && !full && !stuck ==> hpa::hpa_issue(h).len() == 0
            &&& hpa::hpa_issue(h).len() == (if idle || full {
                1int
            } else {
                0int
            }) + (if stuck {
                1int
            } else {
                0int
            })
        }),
{
    let h = g.hpas@[i];
    lemma_condition_is(h, "ScalingActive"@, "False"@);
    lemma_condition_is(h, "ScalingLimited"@, "True"@);
    lemma_condition_is(h, "AbleToScale"@, "False"@);
    let all = hpa::hpa_issue(h);
    let n = g.hpas@.len() as int;
    let f = |i: int| hpa::hpa_issue(g.hpas@[i]);
    assert(hpa::hpa_issues(g, n) == pick::gather(n, f));
    if all.len() > 0 {
        assert(all.contains(all[0]));
        reports::lemma_gathered(n, f, i, all[0]);
        reports::lemma_told(g, all[0]);
        let x = all[all.len() - 1];
        assert(all.contains(x));
        reports::lemma_gathered(n, f, i, x);
        reports::lemma_told(g, x);
    }
}

proof fn lemma_evicted(g: ClusterGraph, key: Seq<char>, i: int, n: int)
    requires
        0 <= i < n <= g.pods@.len(),
        g.pods@[i].status@ == "Evicted"@,
        pod::owner(g.pods@[i]) == key,
    ensures
        eviction::evicted_first(g, key, n) is Some,
        eviction::evicted_names(g, key, n).contains(g.pods@[i].name@),
    decreases n,
{
    let a = eviction::evicted_names(g, key, n - 1);
    let b = eviction::evicted_names(g, key, n);
    if i < n - 1 {
        lemma_evicted(g, key, i, n - 1);
        let k = choose|k: int| 0 <= k < a.len() && a[k] == g.pods@[i].name@;
        assert(b[k] == g.pods@[i].name@);
    } else {
        assert(b[a.len() as int] == g.pods@[i].name@);
    }
}

/// A pod that was evicted is told of, as a warning.
pub proof fn evicted_pods_are_told_of(g: ClusterGraph, i: int, key: Seq<char>)
    requires
        0 <= i < g.pods@.len(),
        stands_under(g.pods@[i], key),
        g.pods@[i].status@ == "Evicted"@,
    ensures
        told_of(g, "pod-evicted:"@ + key, Severity::Warning, g.pods@[i].name@),
{
    let n = g.pods@.len() as int;
    assert(key == pod::owner(g.pods@[i]));
    lemma_evicted(g, key, i, n);
    let keys = eviction::evicted_owners(g, n);
    let own = |i: int|
        if g.pods@[i].status@ == "Evicted"@ {
            Some(pod::owner(g.pods@[i]))
        } else {
            None
        };
    pick::lemma_keys(n, own);
    assert(keys == pick::keys(n, own));
    assert(own(i) == Some(key));
    assert(keys.contains(key));
    let m = choose|m: int| 0 <= m < keys.len() && keys[m] == key;
    let x = eviction::evicted_of(g, key)[0];
    let all = |k: int| eviction::evicted_of(g, keys[k]);
    assert(all(m).contains(x));
    reports::lemma_gathered(keys.len() as int, all, m, x);
    assert(eviction::evicted_issues(g) == pick::gather(keys.len() as int, all));
    reports::lemma_told(g, x);
}

/// An issue about evictions is about an owner with a pod that was evicted.
pub proof fn pods_that_stay_are_left_alone(g: ClusterGraph, x: IssueView)
    requires
        eviction::evicted_issues(g).contains(x),
    ensures
        exists|i: int|
            0 <= i < g.pods@.len() && (#[trigger] g.pods@[i]).status@ == "Evicted"@ && x.id
                == "pod-evicted:"@ + pod::owner(g.pods@[i]),
{
    let n = g.pods@.len() as int;
    let keys = eviction::evicted_owners(g, n);
    let all = |k: int| eviction::evicted_of(g, keys[k]);
    assert(eviction::evicted_issues(g) == pick::gather(keys.len() as int, all));
    pick::lemma_gather_contains(keys.len() as int, all, x);
    let k = choose|k: int| 0 <= k < keys.len() && (#[trigger] all(k)).contains(x);
    let own = |i: int|
        if g.pods@[i].status@ == "Evicted"@ {
            Some(pod::owner(g.pods@[i]))
        } else {
            None
        };
    pick::lemma_keys(n, own);
    assert(keys == pick::keys(n, own));
    assert(keys.contains(keys[k]));
    let i = choose|i: int| 0 <= i < n && #[trigger] own(i) == Some(keys[k]);
    assert(g.pods@[i].status@ == "Evicted"@);
}

/// Is this an agent of the pod network?
pub open spec fn is_agent(name: Seq<char>) -> bool {
    ||| name == "aws-node"@
    ||| name == "calico-node"@
    ||| name == "cilium"@
    ||| name == "kube-flannel-ds"@
    ||| name == "kube-flannel"@
    ||| name == "weave-net"@
    ||| name == "canal"@
    ||| name == "antrea-agent"@
    ||| name == "kube-router"@
    ||| name == "ovnkube-node"@
    ||| name == "azure-cni"@
}

/// Is the workload a daemon set of the system that is short of pods?
pub open spec fn is_short(w: WorkloadInfo) -> bool {
    w.kind@ == "DaemonSet"@ && w.namespace@ == "kube-system"@ && w.ready < w.desired
}

proof fn lemma_cni_told(g: ClusterGraph, x: IssueView)
    requires
        cni::agent_issues(g, g.workloads@.len() as int).contains(x) || cni::node_issues(
            g,
            g.nodes@.len() as int,
        ).contains(x) || cni::sandbox_issues(g, Sandbox::NoAddress).contains(x)
            || cni::sandbox_issues(g, Sandbox::Setup).contains(x),
    ensures
        told(g, x.id, x.severity),
        forall|p: Seq<char>| x.pods.contains(p) ==> #[trigger] told_of(g, x.id, x.severity, p),
{
    let a = cni::agent_issues(g, g.workloads@.len() as int);
    let b = cni::node_issues(g, g.nodes@.len() as int);
    let c = cni::sandbox_issues(g, Sandbox::NoAddress);
    let d = cni::sandbox_issues(g, Sandbox::Setup);
    reports::lemma_either(a, b, x);
    reports::lemma_either(a + b, c, x);
    reports::lemma_either(a + b + c, d, x);
    reports::lemma_told(g, x);
}

/// An agent of the pod network, or the proxy of services, that is short of pods is
/// told of, as critical.
pub proof fn agents_that_are_down_are_told_of(g: ClusterGraph, i: int)
    requires
        0 <= i < g.workloads@.len(),
        is_short(g.workloads@[i]),
    ensures
        is_agent(g.workloads@[i].name@) ==> told(
            g,
            "cni-agent-unready"@ + ":"@ + g.workloads@[i].id@,
            Severity::Critical,
        ),
        g.workloads@[i].name@ == "kube-proxy"@ ==> told(
            g,
            "kubeproxy-unready"@ + ":"@ + g.workloads@[i].id@,
            Severity::Critical,
        ),
{
    let w = g.workloads@[i];
    let n = g.workloads@.len() as int;
    if is_agent(w.name@) || w.name@ == "kube-proxy"@ {
        lemma_not_proxy();
        let x = cni::agent_issue(g, w);
        let f = |i: int|
            if cni::is_unready_agent(g.workloads@[i]) {
                seq![cni::agent_issue(g, g.workloads@[i])]
            } else {
                Seq::empty()
            };
        assert(f(i)[0] == x);
        reports::lemma_gathered(n, f, i, x);
        assert(cni::agent_issues(g, n) == pick::gather(n, f));
        lemma_cni_told(g, x);
    }
}

proof fn lemma_not_proxy()
    ensures
        !is_agent("kube-proxy"@),
{
    reveal_strlit("kube-proxy");
    reveal_strlit("aws-node");
    reveal_strlit("calico-node");
    reveal_strlit("cilium");
    reveal_strlit("kube-flannel-ds");
    reveal_strlit("kube-flannel");
    reveal_strlit("weave-net");
    reveal_strlit("canal");
    reveal_strlit("antrea-agent");
    reveal_strlit("kube-router");
    reveal_strlit("ovnkube-node");
    reveal_strlit("azure-cni");
    assert("kube-proxy"@.len() == 10);
    assert("aws-node"@.len() == 8 && "calico-node"@.len() == 11 && "cilium"@.len() == 6);
    assert("kube-flannel-ds"@.len() == 15 && "kube-flannel"@.len() == 12);
    assert("weave-net"@.len() == 9 && "canal"@.len() == 5 && "antrea-agent"@.len() == 12);
    assert("kube-router"@.len() == 11 && "ovnkube-node"@.len() == 12 && "azure-cni"@.len() == 9);
}

/// An issue about an agent is about a daemon set of the system that is short of
/// pods.
pub proof fn agents_that_are_up_are_left_alone(g: ClusterGraph, x: IssueView)
    requires
        cni::agent_issues(g, g.workloads@.len() as int).contains(x),
    ensures
        exists|i: int|
            0 <= i < g.workloads@.len() && is_short(#[trigger] g.workloads@[i]) && (is_agent(
                g.workloads@[i].name@,
            ) || g.workloads@[i].name@ == "kube-proxy"@),
{
    let n = g.workloads@.len() as int;
    let f = |i: int|
        if cni::is_unready_agent(g.workloads@[i]) {
            seq![cni::agent_issue(g, g.workloads@[i])]
        } else {
            Seq::empty()
        };
    assert(cni::agent_issues(g, n) == pick::gather(n, f));
    pick::lemma_gather_contains(n, f, x);
    let i = choose|i: int| 0 <= i < n && (#[trigger] f(i)).contains(x);
    assert(is_short(g.workloads@[i]));
}

/// A node without a network is told of, as critical.
pub proof fn nodes_without_a_network_are_told_of(g: ClusterGraph, i: int)
    requires
        0 <= i < g.nodes@.len(),
        g.nodes@[i].network_unavailable,
    ensures
        told(g, "cni-node-network:"@ + g.nodes@[i].name@, Severity::Critical),
{
    let n = g.nodes@.len() as int;
    let x = cni::node_network(g.nodes@[i]);
    let f = |i: int|
        if g.nodes@[i].network_unavailable {
            seq![cni::node_network(g.nodes@[i])]
        } else {
            Seq::empty()
        };
    assert(f(i)[0] == x);
    reports::lemma_gathered(n, f, i, x);
    assert(cni::node_issues(g, n) == pick::gather(n, f));
    lemma_cni_told(g, x);
}

/// Does the message say that there is no address for a pod?
pub open spec fn says_no_address(low: Seq<char>) -> bool {
    scan::contains(low, "assign an ip"@) || scan::contains(low, "no available ip"@)
        || scan::contains(low, "insufficientfreeaddresses"@) || scan::contains(
        low,
        "failed to allocate"@,
    )
}

/// Does the message say that the network of a pod could not be set up?
pub open spec fn says_no_network(low: Seq<char>) -> bool {
    scan::contains(low, "network"@) || scan::contains(low, "cni"@)
}

proof fn lemma_failing(g: ClusterGraph, why: Sandbox, node: Seq<char>, i: int, n: int)
    requires
        0 <= i < n <= g.events@.len(),
        cni::node_failing(g, why, i) == Some(node),
    ensures
        cni::first_failure(g, why, node, n) is Some,
        cni::failing_pods(g, why, node, n).contains(g.events@[i].name@),
    decreases n,
{
    let a = cni::failing_pods(g, why, node, n - 1);
    let b = cni::failing_pods(g, why, node, n);
    if i < n - 1 {
        lemma_failing(g, why, node, i, n - 1);
        let k = choose|k: int| 0 <= k < a.len() && a[k] == g.events@[i].name@;
        assert(b[k] == g.events@[i].name@);
    } else {
        assert(b[a.len() as int] == g.events@[i].name@);
    }
}

proof fn lemma_sandbox_told(g: ClusterGraph, why: Sandbox, node: Seq<char>, i: int)
    requires
        0 <= i < g.events@.len(),
        cni::node_failing(g, why, i) == Some(node),
    ensures
        told_of(
            g,
            (match why {
                Sandbox::NoAddress => "cni-ip-exhausted:"@,
                Sandbox::Setup => "cni-sandbox-failed:"@,
            }) + node,
            Severity::Critical,
            g.events@[i].name@,
        ),
{
    let n = g.events@.len() as int;
    lemma_failing(g, why, node, i, n);
    let keys = cni::failing_nodes(g, why, n);
    let own = |i: int| cni::node_failing(g, why, i);
    pick::lemma_keys(n, own);
    assert(keys == pick::keys(n, own));
    assert(own(i) == Some(node));
    assert(keys.contains(node));
    let m = choose|m: int| 0 <= m < keys.len() && keys[m] == node;
    let x = cni::sandbox_issue(g, why, node)[0];
    let all = |k: int| cni::sandbox_issue(g, why, keys[k]);
    assert(all(m).contains(x));
    reports::lemma_gathered(keys.len() as int, all, m, x);
    assert(cni::sandbox_issues(g, why) == pick::gather(keys.len() as int, all));
    lemma_cni_told(g, x);
}

/// A pod that is pending because its network can't be set up is told of, as
/// critical, under its node: for want of addresses, or for the set-up itself.
pub proof fn pods_without_a_network_are_told_of(g: ClusterGraph, i: int, k: int, node: Seq<char>)
    requires
        0 <= i < g.events@.len(),
        g.events@[i].kind@ == "Pod"@,
        g.events@[i].reason@ == "FailedCreatePodSandBox"@,
        is_pod(g, g.events@[i].namespace@, g.events@[i].name@, k),
        g.pods@[k].phase@ == "Pending"@,
        node == (match g.pods@[k].node {
            Some(n) => n@,
            None => "unknown"@,
        }),
    ensures
        ({
            let low = lettercase::lowercase(g.events@[i].message@);
            &&& says_no_address(low) ==> told_of(
                g,
                "cni-ip-exhausted:"@ + node,
                Severity::Critical,
                g.pods@[k].name@,
            )
            &&& !says_no_address(low) && says_no_network(low) ==> told_of(
                g,
                "cni-sandbox-failed:"@ + node,
                Severity::Critical,
                g.pods@[k].name@,
            )
            &&& !says_no_address(low) && !says_no_network(low) ==> cni::node_failing(
                g,
                Sandbox::NoAddress,
                i,
            ) is None && cni::node_failing(g, Sandbox::Setup, i) is None
        }),
{
    let low = lettercase::lowercase(g.events@[i].message@);
    lemma_is_pod(g, g.events@[i].namespace@, g.events@[i].name@, k);
    if says_no_address(low) {
        lemma_sandbox_told(g, Sandbox::NoAddress, node, i);
    } else if says_no_network(low) {
        lemma_sandbox_told(g, Sandbox::Setup, node, i);
    }
}

/// An event about a pod that is no longer pending is not held against its network.
pub proof fn started_pods_have_their_network(g: ClusterGraph, i: int, k: int, why: Sandbox)
    requires
        0 <= i < g.events@.len(),
        is_pod(g, g.events@[i].namespace@, g.events@[i].name@, k),
        g.pods@[k].phase@ != "Pending"@,
    ensures
        cni::node_failing(g, why, i) is None,
{
    lemma_is_pod(g, g.events@[i].namespace@, g.events@[i].name@, k);
}

/// Only an event that says that a volume of a pod can't be mounted is held against
/// a pod.
pub proof fn other_events_hold_up_no_pod(g: ClusterGraph, i: int)
    requires
        0 <= i < g.events@.len(),
        !cannot_mount(g.events@[i]),
    ensures
        storage::stuck_pod(g, i) is None,
{
}

} // verus!
