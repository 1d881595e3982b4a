//! Pods with the same trouble under the same owner make one issue, and what
//! pods explain is not told again.

use crate::model::{ClusterGraph, IssueView, Severity};
use crate::pick;
use crate::order;
use crate::rules::pod;
use crate::rules::pod::PodFinding;
use crate::rules::service;
use crate::rules::workload;
use vstd::prelude::*;

verus! {

/// What the id of an issue about pods starts with.
pub open spec fn prefix(f: PodFinding) -> Seq<char> {
    match f {
        PodFinding::OomKilled => "pod-oom:"@,
        PodFinding::CrashLoop => "pod-crashloop:"@,
        PodFinding::ImagePull => "pod-imagepull:"@,
        PodFinding::ConfigError => "pod-config:"@,
        PodFinding::Unschedulable => "pod-unschedulable:"@,
        PodFinding::NotReady => "pod-notready:"@,
    }
}

/// The place of a finding among the issues of an owner.
spec fn rank(f: PodFinding) -> int {
    match f {
        PodFinding::OomKilled => 0,
        PodFinding::CrashLoop => 1,
        PodFinding::ImagePull => 2,
        PodFinding::ConfigError => 3,
        PodFinding::Unschedulable => 4,
        PodFinding::NotReady => 5,
    }
}

/// The id of an issue about pods holds the finding and the owner.
pub proof fn lemma_ids(f: PodFinding, k: Seq<char>, e: PodFinding, j: Seq<char>)
    requires
        prefix(f) + k == prefix(e) + j,
    ensures
        f == e,
        k == j,
{
    reveal_strlit("pod-oom:");
    reveal_strlit("pod-crashloop:");
    reveal_strlit("pod-imagepull:");
    reveal_strlit("pod-config:");
    reveal_strlit("pod-unschedulable:");
    reveal_strlit("pod-notready:");
    let a = prefix(f) + k;
    let b = prefix(e) + j;
    assert(a[4] == prefix(f)[4] && a[5] == prefix(f)[5]);
    assert(b[4] == prefix(e)[4] && b[5] == prefix(e)[5]);
    let n = prefix(f).len() as int;
    assert(a.skip(n) =~= k);
    assert(b.skip(n) =~= j);
}

/// Is the issue about this finding under this owner?
pub open spec fn about(i: IssueView, f: PodFinding, key: Seq<char>) -> bool {
    i.id == prefix(f) + key
}

proof fn lemma_group(g: ClusterGraph, key: Seq<char>, f: PodFinding)
    ensures
        pod::group_issues(g, key, f).len() <= 1,
        forall|i: int|
            0 <= i < pod::group_issues(g, key, f).len() ==> about(
                #[trigger] pod::group_issues(g, key, f)[i],
                f,
                key,
            ) && pod::group_issues(g, key, f)[i].pods == pod::group_names(
                g,
                key,
                f,
                g.pods@.len() as int,
            ),
{
}

/// Does each id occur once?
pub open spec fn ids_differ(s: Seq<IssueView>) -> bool {
    forall|i: int, j: int| 0 <= i < j < s.len() ==> (#[trigger] s[i]).id != (#[trigger] s[j]).id
}

/// What an issue about pods is about: a finding under an owner.
type Tag = (PodFinding, Seq<char>);

/// Does the first tag come before the second: by owner, then by finding?
spec fn tag_before(a: Tag, b: Tag) -> bool {
    order::before(a.1, b.1) || (a.1 == b.1 && rank(a.0) < rank(b.0))
}

/// Do the tags say what the issues are about, each before the next?
spec fn tagged(s: Seq<IssueView>, tags: Seq<Tag>) -> bool {
    &&& s.len() == tags.len()
    &&& forall|i: int| 0 <= i < s.len() ==> about(#[trigger] s[i], tags[i].0, tags[i].1)
    &&& forall|i: int, j: int|
        0 <= i < j < tags.len() ==> tag_before(#[trigger] tags[i], #[trigger] tags[j])
}

/// The tags of a group.
spec fn group_tags(g: ClusterGraph, key: Seq<char>, f: PodFinding) -> Seq<Tag> {
    if pod::group_issues(g, key, f).len() == 0 {
        Seq::empty()
    } else {
        seq![(f, key)]
    }
}

/// Tags up to a finding under an owner, put before those that follow.
proof fn lemma_tagged(s: Seq<IssueView>, a: Seq<Tag>, t: Seq<IssueView>, b: Seq<Tag>)
    requires
        tagged(s, a),
        tagged(t, b),
        forall|i: int, j: int|
            0 <= i < a.len() && 0 <= j < b.len() ==> tag_before(#[trigger] a[i], #[trigger] b[j]),
    ensures
        tagged(s + t, a + b),
{
    let u = s + t;
    let c = a + b;
    assert forall|i: int| 0 <= i < u.len() implies about(#[trigger] u[i], c[i].0, c[i].1) by {
        if i < s.len() {
            assert(u[i] == s[i]);
        } else {
            assert(u[i] == t[i - s.len()]);
        }
    }
    assert forall|i: int, j: int| 0 <= i < j < c.len() implies tag_before(
        #[trigger] c[i],
        #[trigger] c[j],
    ) by {
        if j < a.len() {
            assert(c[i] == a[i] && c[j] == a[j]);
        } else if i >= a.len() {
            assert(c[i] == b[i - a.len()] && c[j] == b[j - a.len()]);
        } else {
            assert(c[i] == a[i] && c[j] == b[j - a.len()]);
        }
    }
}

/// Are all tags those of an owner, with findings before a place?
spec fn up_to(a: Seq<Tag>, key: Seq<char>, r: int) -> bool {
    forall|i: int| 0 <= i < a.len() ==> (#[trigger] a[i]).1 == key && rank(a[i].0) < r
}

proof fn lemma_one_more(
    s: Seq<IssueView>,
    a: Seq<Tag>,
    g: ClusterGraph,
    key: Seq<char>,
    f: PodFinding,
)
    requires
        tagged(s, a),
        up_to(a, key, rank(f)),
    ensures
        tagged(s + pod::group_issues(g, key, f), a + group_tags(g, key, f)),
        up_to(a + group_tags(g, key, f), key, rank(f) + 1),
{
    lemma_group(g, key, f);
    assert(tagged(pod::group_issues(g, key, f), group_tags(g, key, f)));
    lemma_tagged(s, a, pod::group_issues(g, key, f), group_tags(g, key, f));
}

/// The tags of an owner.
spec fn owner_tags(g: ClusterGraph, key: Seq<char>) -> Seq<Tag> {
    group_tags(g, key, PodFinding::OomKilled) + group_tags(g, key, PodFinding::CrashLoop)
        + group_tags(g, key, PodFinding::ImagePull) + group_tags(g, key, PodFinding::ConfigError)
        + group_tags(g, key, PodFinding::Unschedulable) + group_tags(g, key, PodFinding::NotReady)
}

proof fn lemma_owner(g: ClusterGraph, key: Seq<char>)
    ensures
        tagged(pod::owner_issues(g, key), owner_tags(g, key)),
        up_to(owner_tags(g, key), key, 6),
{
    let s1 = Seq::<IssueView>::empty();
    let a1 = Seq::<Tag>::empty();
    lemma_one_more(s1, a1, g, key, PodFinding::OomKilled);
    let s2 = pod::group_issues(g, key, PodFinding::OomKilled);
    let a2 = group_tags(g, key, PodFinding::OomKilled);
    assert(s1 + s2 =~= s2);
    assert(a1 + a2 =~= a2);
    lemma_one_more(s2, a2, g, key, PodFinding::CrashLoop);
    let s3 = s2 + pod::group_issues(g, key, PodFinding::CrashLoop);
    let a3 = a2 + group_tags(g, key, PodFinding::CrashLoop);
    lemma_one_more(s3, a3, g, key, PodFinding::ImagePull);
    let s4 = s3 + pod::group_issues(g, key, PodFinding::ImagePull);
    let a4 = a3 + group_tags(g, key, PodFinding::ImagePull);
    lemma_one_more(s4, a4, g, key, PodFinding::ConfigError);
    let s5 = s4 + pod::group_issues(g, key, PodFinding::ConfigError);
    let a5 = a4 + group_tags(g, key, PodFinding::ConfigError);
    lemma_one_more(s5, a5, g, key, PodFinding::Unschedulable);
    let s6 = s5 + pod::group_issues(g, key, PodFinding::Unschedulable);
    let a6 = a5 + group_tags(g, key, PodFinding::Unschedulable);
    lemma_one_more(s6, a6, g, key, PodFinding::NotReady);
}

/// The tags of the first `n` owners.
spec fn tags_upto(g: ClusterGraph, keys: Seq<Seq<char>>, n: int) -> Seq<Tag>
    decreases n,
{
    if n <= 0 {
        Seq::empty()
    } else {
        tags_upto(g, keys, n - 1) + owner_tags(g, keys[n - 1])
    }
}

/// Are all tags those of the first `n` owners?
spec fn of_owners(a: Seq<Tag>, keys: Seq<Seq<char>>, n: int) -> bool {
    forall|i: int| 0 <= i < a.len() ==> keys.take(n).contains((#[trigger] a[i]).1)
}

proof fn lemma_owners(
    g: ClusterGraph,
    keys: Seq<Seq<char>>,
    f: spec_fn(int) -> Seq<IssueView>,
    n: int,
)
    requires
        order::rising(keys),
        0 <= n <= keys.len(),
        forall|k: int| 0 <= k < keys.len() ==> #[trigger] f(k) == pod::owner_issues(g, keys[k]),
    ensures
        tagged(pick::gather(n, f), tags_upto(g, keys, n)),
        of_owners(tags_upto(g, keys, n), keys, n),
    decreases n,
{
    if n > 0 {
        lemma_owners(g, keys, f, n - 1);
        let s = pick::gather(n - 1, f);
        let a = tags_upto(g, keys, n - 1);
        let key = keys[n - 1];
        let earlier = keys.take(n - 1);
        let b = owner_tags(g, key);
        lemma_owner(g, key);
        assert(f(n - 1) == pod::owner_issues(g, key));
        assert forall|i: int, j: int| 0 <= i < a.len() && 0 <= j < b.len() implies tag_before(
            #[trigger] a[i],
            #[trigger] b[j],
        ) by {
            assert(earlier.contains(a[i].1));
            let m = choose|m: int| 0 <= m < n - 1 && earlier[m] == a[i].1;
            assert(keys[m] == a[i].1);
            assert(order::before(keys[m], keys[n - 1]));
        }
        lemma_tagged(s, a, pod::owner_issues(g, key), b);
        let c = a + b;
        assert forall|i: int| 0 <= i < c.len() implies keys.take(n).contains(
            (#[trigger] c[i]).1,
        ) by {
            if i < a.len() {
                assert(c[i] == a[i]);
                assert(earlier.contains(a[i].1));
                let m = choose|m: int| 0 <= m < n - 1 && earlier[m] == a[i].1;
                assert(keys.take(n)[m] == c[i].1);
            } else {
                assert(c[i] == b[i - a.len()]);
                assert(keys.take(n)[n - 1] == key);
            }
        }
    }
}

proof fn lemma_tags_differ(s: Seq<IssueView>, tags: Seq<Tag>)
    requires
        tagged(s, tags),
    ensures
        ids_differ(s),
{
    assert forall|i: int, j: int| 0 <= i < j < s.len() implies (#[trigger] s[i]).id
        != (#[trigger] s[j]).id by {
        let a = tags[i];
        let b = tags[j];
        assert(tag_before(a, b));
        if s[i].id == s[j].id {
            lemma_ids(a.0, a.1, b.0, b.1);
            order::lemma_before_irreflexive(a.1);
        }
    }
}

/// No two issues about pods have the same id: there is at most one for each
/// owner and finding.
pub proof fn pod_issues_differ(g: ClusterGraph)
    ensures
        ids_differ(pod::pod_issues(g)),
{
    let n = g.pods@.len() as int;
    let keys = pod::owners(g, n);
    pick::lemma_keys(
        n,
        |i: int|
            if pod::finding(g.pods@[i]) is Some {
                Some(pod::owner(g.pods@[i]))
            } else {
                None
            },
    );
    let f = |k: int| pod::owner_issues(g, keys[k]);
    lemma_owners(g, keys, f, keys.len() as int);
    lemma_tags_differ(pod::pod_issues(g), tags_upto(g, keys, keys.len() as int));
}

/// Every pod with a finding is told of: there is an issue about its finding under
/// its owner, and the issue lists the pod.
pub proof fn every_pod_in_trouble_is_told_of(g: ClusterGraph, i: int, f: PodFinding)
    requires
        0 <= i < g.pods@.len(),
        pod::finding(g.pods@[i]) == Some(f),
    ensures
        exists|k: int|
            0 <= k < pod::pod_issues(g).len() && about(
                #[trigger] pod::pod_issues(g)[k],
                f,
                pod::owner(g.pods@[i]),
            ) && pod::pod_issues(g)[k].pods.contains(g.pods@[i].name@),
{
    let n = g.pods@.len() as int;
    let keys = pod::owners(g, n);
    let key = pod::owner(g.pods@[i]);
    let own = |i: int|
        if pod::finding(g.pods@[i]) is Some {
            Some(pod::owner(g.pods@[i]))
        } else {
            None
        };
    pick::lemma_keys(n, own);
    assert(own(i) == Some(key));
    assert(keys.contains(key));
    let m = choose|m: int| 0 <= m < keys.len() && keys[m] == key;
    let mine = |i: int| pod::in_group(g, key, f, i);
    pick::lemma_first(n, mine);
    assert(mine(i));
    let x = pod::group_issues(g, key, f)[0];
    lemma_group(g, key, f);
    assert(pod::group_issues(g, key, f).len() == 1);
    assert(x.pods.contains(g.pods@[i].name@)) by {
        lemma_name(g, key, f, i, n);
    }
    assert(pod::owner_issues(g, key).contains(x)) by {
        lemma_in_owner(g, key, f);
    }
    let all = |k: int| pod::owner_issues(g, keys[k]);
    pick::lemma_gather_contains(keys.len() as int, all, x);
    assert(all(m).contains(x));
    assert(pod::pod_issues(g).contains(x));
    let k = choose|k: int| 0 <= k < pod::pod_issues(g).len() && pod::pod_issues(g)[k] == x;
    assert(about(pod::pod_issues(g)[k], f, key));
}

proof fn lemma_name(g: ClusterGraph, key: Seq<char>, f: PodFinding, i: int, n: int)
    requires
        0 <= i < n,
        pod::in_group(g, key, f, i),
    ensures
        pod::group_names(g, key, f, n).contains(g.pods@[i].name@),
    decreases n,
{
    let name = g.pods@[i].name@;
    let a = pod::group_names(g, key, f, n - 1);
    let s = pod::group_names(g, key, f, n);
    if i < n - 1 {
        lemma_name(g, key, f, i, n - 1);
        let k = choose|k: int| 0 <= k < a.len() && a[k] == name;
        assert(s[k] == name);
    } else {
        assert(s[a.len() as int] == name);
    }
}

proof fn lemma_in_owner(g: ClusterGraph, key: Seq<char>, f: PodFinding)
    requires
        pod::group_issues(g, key, f).len() == 1,
    ensures
        pod::owner_issues(g, key).contains(pod::group_issues(g, key, f)[0]),
{
    let x = pod::group_issues(g, key, f)[0];
    let a = pod::group_issues(g, key, PodFinding::OomKilled);
    let b = pod::group_issues(g, key, PodFinding::CrashLoop);
    let c = pod::group_issues(g, key, PodFinding::ImagePull);
    let d = pod::group_issues(g, key, PodFinding::ConfigError);
    let e = pod::group_issues(g, key, PodFinding::Unschedulable);
    let h = pod::group_issues(g, key, PodFinding::NotReady);
    let all = pod::owner_issues(g, key);
    let at = match f {
        PodFinding::OomKilled => 0,
        PodFinding::CrashLoop => a.len() as int,
        PodFinding::ImagePull => a.len() + b.len() as int,
        PodFinding::ConfigError => a.len() + b.len() + c.len() as int,
        PodFinding::Unschedulable => a.len() + b.len() + c.len() + d.len() as int,
        PodFinding::NotReady => a.len() + b.len() + c.len() + d.len() + e.len() as int,
    };
    assert(all[at] == x);
}

/// A service that has pods, but none ready, is only a warning where one of its
/// pods has a finding of its own. Where none has, it is critical.
pub proof fn explained_services_are_warnings(g: ClusterGraph, i: int)
    requires
        0 <= i < g.services@.len(),
        g.services@[i].selector@.len() > 0,
        g.services@[i].type_@ != "ExternalName"@,
        g.services@[i].pods@.len() > 0,
        g.services@[i].ready_endpoints == 0,
    ensures
        ({
            let s = g.services@[i];
            let flagged = pod::flagged(g, g.pods@.len() as int);
            let told = service::service_issue(g, s, flagged);
            told.len() == 1 && (told[0].severity == Severity::Warning <==> exists|k: int|
                0 <= k < s.pods@.len() && flagged.contains(
                    s.namespace@ + "/"@ + (#[trigger] s.pods@[k])@,
                ))
        }),
{
    let s = g.services@[i];
    let flagged = pod::flagged(g, g.pods@.len() as int);
    let q = |k: int| flagged.contains(s.namespace@ + "/"@ + s.pods@[k]@);
    pick::lemma_any(s.pods@.len() as int, q);
    if exists|k: int|
        0 <= k < s.pods@.len() && flagged.contains(
            s.namespace@ + "/"@ + (#[trigger] s.pods@[k])@,
        ) {
        let k = choose|k: int|
            0 <= k < s.pods@.len() && flagged.contains(
                s.namespace@ + "/"@ + (#[trigger] s.pods@[k])@,
            );
        assert(q(k));
    }
}

/// A workload short of replicas is not told of where one of its pods has a
/// finding of its own.
pub proof fn explained_workloads_stay_quiet(g: ClusterGraph, i: int, k: int)
    requires
        0 <= i < g.workloads@.len(),
        0 <= k < g.pods@.len(),
        crate::text::opt(g.pods@[k].workload) == Some(g.workloads@[i].id@),
        pod::finding(g.pods@[k]) is Some,
    ensures
        workload::workload_issue(
            g,
            g.workloads@[i],
            pod::flagged(g, g.pods@.len() as int),
        ).len() == 0,
{
    let n = g.pods@.len() as int;
    let flagged = pod::flagged(g, n);
    let w = g.workloads@[i];
    let f = |i: int|
        if pod::finding(g.pods@[i]) is Some {
            Some(pod::pod_key(g.pods@[i]))
        } else {
            None
        };
    pick::lemma_keys(n, f);
    assert(f(k) == Some(pod::pod_key(g.pods@[k])));
    assert(flagged.contains(pod::pod_key(g.pods@[k])));
    lemma_explains(g, w, flagged, k, n);
}

proof fn lemma_explains(
    g: ClusterGraph,
    w: crate::model::WorkloadInfo,
    flagged: Seq<Seq<char>>,
    k: int,
    n: int,
)
    requires
        0 <= k < n,
        crate::text::opt(g.pods@[k].workload) == Some(w.id@),
        flagged.contains(pod::pod_key(g.pods@[k])),
    ensures
        workload::pods_explain(g, w, flagged, n),
    decreases n,
{
    if k < n - 1 {
        lemma_explains(g, w, flagged, k, n - 1);
    }
}

} // verus!
