//! Pods that the API server refuses to create.

use crate::lettercase;
use crate::lettercase::lower;
use crate::model;
use crate::model::{
    emit, emit_all, issue, no_issues, target, workload_id, ClusterGraph, EventInfo, Issue,
    IssueView, Layer, Severity, WorkloadInfo,
};
use crate::pick;
use crate::scan;
use crate::scan::{begins, has};
use crate::split;
use crate::split::{owner_label, split_id};
use crate::text::{cat2, cat3, cat6, lines1, lines2, no_lines, same};
use vstd::prelude::*;

verus! {

broadcast use crate::pick::lemma_add_nothing;

/// Why the API server refuses to create pods.
#[derive(Debug, Clone, Copy, PartialEq, Eq, Structural)]
pub enum Refusal {
    Quota,
    Admission,
    PodSecurity,
}

/// Why pods are refused, going by the message in lower case.
pub open spec fn refusal(low: Seq<char>) -> Option<Refusal> {
    if scan::contains(low, "exceeded quota"@) {
        Some(Refusal::Quota)
    } else if scan::contains(low, "admission webhook"@) || scan::contains(
        low,
        "violates podsecurity"@,
    ) || scan::contains(low, "forbidden"@) {
        if scan::contains(low, "podsecurity"@) {
            Some(Refusal::PodSecurity)
        } else {
            Some(Refusal::Admission)
        }
    } else {
        None
    }
}

/// Tell why pods are refused, going by the message in lower case.
pub fn refusal_of(low: &str) -> (r: Option<Refusal>)
    ensures
        r == refusal(low@),
{
    if has(low, "exceeded quota") {
        Some(Refusal::Quota)
    } else if has(low, "admission webhook") || has(low, "violates podsecurity") || has(
        low,
        "forbidden",
    ) {
        if has(low, "podsecurity") {
            Some(Refusal::PodSecurity)
        } else {
            Some(Refusal::Admission)
        }
    } else {
        None
    }
}

/// Could a replica set of this name belong to the workload at an index?
pub open spec fn may_own(g: ClusterGraph, e: EventInfo, i: int) -> bool {
    let w = g.workloads@[i];
    w.kind@ == "Deployment"@ && w.namespace@ == e.namespace@ && scan::starts_with(
        e.name@,
        w.name@ + "-"@,
    )
}

fn could_own(g: &ClusterGraph, e: &EventInfo, i: usize) -> (r: bool)
    requires
        i < g.workloads@.len(),
    ensures
        r == may_own(*g, *e, i as int),
{
    let w: &WorkloadInfo = &g.workloads[i];
    same(w.kind.as_str(), "Deployment") && same(w.namespace.as_str(), e.namespace.as_str())
        && begins(e.name.as_str(), cat2(w.name.as_str(), "-").as_str())
}

/// The deployment with the longest name that a replica set may belong to; of
/// two with the same name the last.
pub open spec fn longest(g: ClusterGraph, e: EventInfo, n: int) -> Option<int>
    decreases n,
{
    if n <= 0 {
        None
    } else {
        match longest(g, e, n - 1) {
            Some(m) => if may_own(g, e, n - 1) && g.workloads@[n - 1].name@.len()
                >= g.workloads@[m].name@.len() {
                Some(n - 1)
            } else {
                Some(m)
            },
            None => if may_own(g, e, n - 1) {
                Some(n - 1)
            } else {
                None
            },
        }
    }
}

fn find_longest(g: &ClusterGraph, e: &EventInfo) -> (r: Option<usize>)
    ensures
        match r {
            Some(m) => m < g.workloads@.len() && longest(*g, *e, g.workloads@.len() as int) == Some(
                m as int,
            ),
            None => longest(*g, *e, g.workloads@.len() as int) is None,
        },
{
    let mut r: Option<usize> = None;
    let mut i: usize = 0;
    while i < g.workloads.len()
        invariant
            i <= g.workloads@.len(),
            match r {
                Some(m) => m < i && longest(*g, *e, i as int) == Some(m as int),
                None => longest(*g, *e, i as int) is None,
            },
        decreases g.workloads@.len() - i,
    {
        if could_own(g, e, i) {
            match r {
                Some(m) => {
                    if g.workloads[i].name.as_str().unicode_len()
                        >= g.workloads[m].name.as_str().unicode_len() {
                        r = Some(i);
                    }
                },
                None => {
                    r = Some(i);
                },
            }
        }
        i = i + 1;
    }
    r
}

/// The workload that an event is about.
pub open spec fn named(g: ClusterGraph, e: EventInfo, n: int) -> Option<int> {
    pick::first(n, |i: int| g.workloads@[i].kind@ == e.kind@ && g.workloads@[i].namespace@ == e.namespace@
            && g.workloads@[i].name@ == e.name@)
}

fn find_named(g: &ClusterGraph, e: &EventInfo) -> (r: Option<usize>)
    ensures
        match r {
            Some(k) => k < g.workloads@.len() && named(*g, *e, g.workloads@.len() as int) == Some(k as int),
            None => named(*g, *e, g.workloads@.len() as int) is None,
        },
{
    let mut r: Option<usize> = None;
    let mut i: usize = 0;
    while i < g.workloads.len()
        invariant
            i <= g.workloads@.len(),
            match r {
                Some(k) => k < i && named(*g, *e, i as int) == Some(k as int),
                None => named(*g, *e, i as int) is None,
            },
        decreases g.workloads@.len() - i,
    {
        if r.is_none() && same(g.workloads[i].kind.as_str(), e.kind.as_str())
            && same(g.workloads[i].namespace.as_str(), e.namespace.as_str())
            && same(g.workloads[i].name.as_str(), e.name.as_str()) {
            r = Some(i);
        }
        i = i + 1;
    }
    r
}

/// Who an event is about: the deployment of a replica set, the workload, or
/// else the object itself.
pub open spec fn event_owner(g: ClusterGraph, e: EventInfo) -> Seq<char> {
    let n = g.workloads@.len() as int;
    match if e.kind@ == "ReplicaSet"@ {
        longest(g, e, n)
    } else {
        named(g, e, n)
    } {
        Some(i) => g.workloads@[i].id@,
        None => model::workload_key(e.kind@, e.namespace@, e.name@),
    }
}

fn owner_of_event(g: &ClusterGraph, e: &EventInfo) -> (r: String)
    ensures
        r@ == event_owner(*g, *e),
{
    let found: Option<usize> = if same(e.kind.as_str(), "ReplicaSet") {
        find_longest(g, e)
    } else {
        find_named(g, e)
    };
    match found {
        Some(i) => g.workloads[i].id.clone(),
        None => workload_id(e.kind.as_str(), e.namespace.as_str(), e.name.as_str()),
    }
}

/// Why the event at an index says that pods are refused, if it does.
pub open spec fn refused(g: ClusterGraph, i: int) -> Option<Refusal> {
    if g.events@[i].reason@ == "FailedCreate"@ {
        refusal(lettercase::lowercase(g.events@[i].message@))
    } else {
        None
    }
}

fn refused_at(g: &ClusterGraph, i: usize) -> (r: Option<Refusal>)
    requires
        i < g.events@.len(),
    ensures
        r == refused(*g, i as int),
{
    if same(g.events[i].reason.as_str(), "FailedCreate") {
        refusal_of(lower(g.events[i].message.as_str()).as_str())
    } else {
        None
    }
}

/// Do two refusals make one issue?
pub open spec fn alike_refusals(a: Option<Refusal>, b: Option<Refusal>) -> bool {
    a is Some && b is Some && (a->0 == Refusal::Quota) == (b->0 == Refusal::Quota)
}

/// Does one of the first `n` events already tell of the same kind of refusal
/// for the same owner?
pub open spec fn told_before(g: ClusterGraph, r: Option<Refusal>, owner: Seq<char>, n: int) -> bool {
    pick::any(
        n,
        |j: int| alike_refusals(refused(g, j), r) && event_owner(g, g.events@[j]) == owner,
    )
}

fn is_told_before(g: &ClusterGraph, why: Refusal, owner: &str, n: usize) -> (r: bool)
    requires
        n <= g.events@.len(),
    ensures
        r == told_before(*g, Some(why), owner@, n as int),
{
    let mut r: bool = false;
    let mut j: usize = 0;
    while j < n
        invariant
            j <= n <= g.events@.len(),
            r == told_before(*g, Some(why), owner@, j as int),
        decreases n - j,
    {
        let hit: bool = match refused_at(g, j) {
            Some(x) => (x == Refusal::Quota) == (why == Refusal::Quota),
            None => false,
        };
        if hit && same(owner_of_event(g, &g.events[j]).as_str(), owner) {
            r = true;
        }
        j = j + 1;
    }
    r
}

/// The issue for an owner whose pods are refused; `kind` is the kind of the
/// object in lower case.
pub open spec fn creation_refused(
    key: Seq<char>,
    why: Refusal,
    e: EventInfo,
    kind: Seq<char>,
) -> IssueView {
    model::issue_view(
        (if why == Refusal::Quota {
                "quota-exceeded"@
            } else {
                "admission-denied"@
        }) + ":"@ + key,
        Severity::Critical,
        Layer::Workload,
        model::target_view(split::id_part(key, 0), e.namespace@, split::id_part(key, 2)),
        if why == Refusal::Quota {
            split::owner_name(key) + " can't create pods: namespace quota exceeded"@
        } else {
            split::owner_name(key) + " can't create pods: rejected by an admission policy"@
        },
        "The controller keeps trying to create pods, but the API server refuses every attempt, so the workload stays below its desired replicas."@,
        seq!["FailedCreate on "@ + kind + "/"@ + e.name@ + ": "@ + e.message@],
        if why == Refusal::Quota {
            "Raise the ResourceQuota, lower this workload's requests, or free capacity in the namespace."@
        } else if why == Refusal::PodSecurity {
            "The pod spec breaks the namespace's Pod Security level. Fix the securityContext fields named above, or change the namespace's pod-security label."@
        } else {
            "A policy engine or webhook (for example Kyverno, Gatekeeper) rejected the pod. Fix the field it names, or ask for an exception."@
        },
        seq![
            "kubectl describe "@ + kind + " "@ + e.name@ + " -n "@ + e.namespace@,
            "kubectl describe resourcequota -n "@ + e.namespace@,
        ],
        Seq::empty(),
    )
}

/// Write the issue, given the kind of the object in lower case.
pub fn creation_refused_issue(key: &str, why: Refusal, e: &EventInfo, kind: &str) -> (r: Issue)
    ensures
        r@ == creation_refused(key@, why, *e, kind@),
{
    let id: (String, String, String) = split_id(key);
    let who: String = owner_label(key);
    let rule: &str = if why == Refusal::Quota {
        "quota-exceeded"
    } else {
        "admission-denied"
    };
    let suggestion: String = if why == Refusal::Quota {
        "Raise the ResourceQuota, lower this workload's requests, or free capacity in the namespace.".to_owned()
    } else if why == Refusal::PodSecurity {
        "The pod spec breaks the namespace's Pod Security level. Fix the securityContext fields named above, or change the namespace's pod-security label.".to_owned()
    } else {
        "A policy engine or webhook (for example Kyverno, Gatekeeper) rejected the pod. Fix the field it names, or ask for an exception.".to_owned()
    };
    let title: String = if why == Refusal::Quota {
        cat2(who.as_str(), " can't create pods: namespace quota exceeded")
    } else {
        cat2(who.as_str(), " can't create pods: rejected by an admission policy")
    };
    issue(
        cat3(rule, ":", key),
        Severity::Critical,
        Layer::Workload,
        target(id.0.as_str(), e.namespace.as_str(), id.2.as_str()),
        title,
        "The controller keeps trying to create pods, but the API server refuses every attempt, so the workload stays below its desired replicas.".to_owned(),
        lines1(cat6("FailedCreate on ", kind, "/", e.name.as_str(), ": ", e.message.as_str())),
        suggestion,
        lines2(
            cat6("kubectl describe ", kind, " ", e.name.as_str(), " -n ", e.namespace.as_str()),
            cat2("kubectl describe resourcequota -n ", e.namespace.as_str()),
        ),
        no_lines(),
    )
}

/// The issue of the event at an index, unless an earlier one told of it.
pub open spec fn refusal_issue(g: ClusterGraph, i: int) -> Seq<IssueView> {
    let e = g.events@[i];
    match refused(g, i) {
        Some(why) => if told_before(g, Some(why), event_owner(g, e), i) {
            Seq::empty()
        } else {
            seq![
                creation_refused(event_owner(g, e), why, e, lettercase::lowercase(e.kind@)),
            ]
        },
        None => Seq::empty(),
    }
}

fn issues_of_refusal(g: &ClusterGraph, i: usize) -> (r: Vec<Issue>)
    requires
        i < g.events@.len(),
    ensures
        model::views(r@) == refusal_issue(*g, i as int),
{
    let mut r: Vec<Issue> = no_issues();
    match refused_at(g, i) {
        Some(why) => {
            let e: &EventInfo = &g.events[i];
            let owner: String = owner_of_event(g, e);
            if !is_told_before(g, why, owner.as_str(), i) {
                let kind: String = lower(e.kind.as_str());
                emit(&mut r, creation_refused_issue(owner.as_str(), why, e, kind.as_str()));
            }
        },
        None => {},
    }
    r
}

/// The issues for pods that are refused, by the first `n` events.
pub open spec fn refusal_issues(g: ClusterGraph, n: int) -> Seq<IssueView> {
    pick::gather(
        n,
        |i: int|
            refusal_issue(g, i),
    )
}

/// Pods that the API server refuses to create.
pub fn admission_and_quota_rules(g: &ClusterGraph) -> (r: Vec<Issue>)
    ensures
        model::views(r@) == refusal_issues(*g, g.events@.len() as int),
{
    let mut r: Vec<Issue> = no_issues();
    let mut i: usize = 0;
    while i < g.events.len()
        invariant
            i <= g.events@.len(),
            model::views(r@) == refusal_issues(*g, i as int),
        decreases g.events@.len() - i,
    {
        emit_all(&mut r, issues_of_refusal(g, i));
        i = i + 1;
    }
    r
}

} // verus!
