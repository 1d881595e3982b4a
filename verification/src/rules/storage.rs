//! Storage: volume claims that are not bound, and volumes that do not mount.

use crate::lettercase;
use crate::lettercase::lower;
use crate::model;
use crate::model::{
    emit, emit_all, issue, no_issues, target, ClusterGraph, EventInfo, Issue, IssueView, Layer,
    PodInfo, PvcInfo, Severity,
};
use crate::numeral;
use crate::numeral::dec_usize;
use crate::order::insert_key;
use crate::pick;
use crate::rules::pod;
use crate::rules::pod::owner_of;
use crate::scan;
use crate::scan::has;
use crate::split;
use crate::split::{joined, owner_label, split_id};
use crate::text;
use crate::text::{cat2, cat3, cat4, keep, lines1, lines2, listed, no_lines, same, say, say_all};
use vstd::prelude::*;

verus! {

broadcast use crate::pick::lemma_add_nothing;

/// The names of the pods that mount a claim.
pub open spec fn claim_users(g: ClusterGraph, c: PvcInfo, n: int) -> Seq<Seq<char>> {
    pick::gather(
        n,
        |i: int|
            if g.pods@[i].namespace@ == c.namespace@ && text::strs(g.pods@[i].pvcs@).contains(c.name@) {
                seq![g.pods@[i].name@]
            } else {
                Seq::empty()
            },
    )
}

fn users_of(g: &ClusterGraph, c: &PvcInfo) -> (r: Vec<String>)
    ensures
        text::strs(r@) == claim_users(*g, *c, g.pods@.len() as int),
{
    let mut r: Vec<String> = no_lines();
    let mut i: usize = 0;
    while i < g.pods.len()
        invariant
            i <= g.pods@.len(),
            text::strs(r@) == claim_users(*g, *c, i as int),
        decreases g.pods@.len() - i,
    {
        if same(g.pods[i].namespace.as_str(), c.namespace.as_str())
            && listed(&g.pods[i].pvcs, c.name.as_str()) {
            say(&mut r, g.pods[i].name.clone());
        }
        i = i + 1;
    }
    r
}

/// The events of a claim.
pub open spec fn claim_events(g: ClusterGraph, c: PvcInfo, n: int) -> Seq<Seq<char>> {
    pick::gather(
        n,
        |i: int|
            if g.events@[i].kind@ == "PersistentVolumeClaim"@ && g.events@[i].namespace@ == c.namespace@
                && g.events@[i].name@ == c.name@ {
                seq![g.events@[i].reason@ + ": "@ + g.events@[i].message@]
            } else {
                Seq::empty()
            },
    )
}

fn events_of(g: &ClusterGraph, c: &PvcInfo) -> (r: Vec<String>)
    ensures
        text::strs(r@) == claim_events(*g, *c, g.events@.len() as int),
{
    let mut r: Vec<String> = no_lines();
    let mut i: usize = 0;
    while i < g.events.len()
        invariant
            i <= g.events@.len(),
            text::strs(r@) == claim_events(*g, *c, i as int),
        decreases g.events@.len() - i,
    {
        if same(g.events[i].kind.as_str(), "PersistentVolumeClaim")
            && same(g.events[i].namespace.as_str(), c.namespace.as_str())
            && same(g.events[i].name.as_str(), c.name.as_str()) {
            say(&mut r, cat3(g.events[i].reason.as_str(), ": ", g.events[i].message.as_str()));
        }
        i = i + 1;
    }
    r
}

/// What to do about a claim, going by its events.
pub open spec fn claim_advice(msg: Seq<char>) -> Seq<char> {
    if scan::contains(msg, "not found"@) && scan::contains(msg, "storageclass"@) {
        "The storage class doesn't exist. Use one from kubectl get storageclass."@
    } else if scan::contains(msg, "waiting for a volume to be created"@) || scan::contains(msg, "ExternalProvisioning"@) {
        "The CSI driver hasn't created the volume. Check the driver's controller pods (for EBS: ebs-csi-controller) and its IAM permissions."@
    } else {
        "Check the storage class exists and its provisioner is running."@
    }
}

fn claim_advice_text(msg: &str) -> (r: String)
    ensures
        r@ == claim_advice(msg@),
{
    if has(msg, "not found") && has(msg, "storageclass") {
        "The storage class doesn't exist. Use one from kubectl get storageclass.".to_owned()
    } else if has(msg, "waiting for a volume to be created") || has(msg, "ExternalProvisioning") {
        "The CSI driver hasn't created the volume. Check the driver's controller pods (for EBS: ebs-csi-controller) and its IAM permissions.".to_owned()
    } else {
        "Check the storage class exists and its provisioner is running.".to_owned()
    }
}

/// The issue for a claim that is not bound, with the pods that wait for it and
/// its events.
pub open spec fn claim_pending(
    c: PvcInfo,
    users: Seq<Seq<char>>,
    events: Seq<Seq<char>>,
) -> IssueView {
    model::issue_view(
        "storage-pvc-pending:"@ + c.namespace@ + "/"@ + c.name@,
        if users.len() == 0 {
            Severity::Warning
        } else {
            Severity::Critical
        },
        Layer::Pod,
        model::target_view("PersistentVolumeClaim"@, c.namespace@, c.name@),
        "Volume claim "@ + c.name@ + " isn't bound"@,
        if users.len() == 0 {
            "No pod uses it yet. With WaitForFirstConsumer storage classes this is normal until a pod is scheduled."@
        } else {
            numeral::dec(users.len() as int) + " pods can't start until the claim gets a volume."@
        },
        seq!["storageClassName: "@ + (match c.storage_class {
                    Some(x) => x@,
                    None => "<default>"@,
        })] + events,
        claim_advice(split::join(events, " "@)),
        seq![
            "kubectl describe pvc "@ + c.name@ + " -n "@ + c.namespace@,
            "kubectl get storageclass"@,
        ],
        users,
    )
}

fn claim_pending_issue(c: &PvcInfo, users: Vec<String>, events: Vec<String>) -> (r: Issue)
    ensures
        r@ == claim_pending(*c, text::strs(users@), text::strs(events@)),
{
    let class: String = match &c.storage_class {
        Some(x) => x.clone(),
        None => "<default>".to_owned(),
    };
    let suggestion: String = claim_advice_text(joined(&events, " ").as_str());
    let mut evidence: Vec<String> = lines1(cat2("storageClassName: ", class.as_str()));
    say_all(&mut evidence, events);
    let detail: String = if users.len() == 0 {
        "No pod uses it yet. With WaitForFirstConsumer storage classes this is normal until a pod is scheduled.".to_owned()
    } else {
        cat2(dec_usize(users.len()).as_str(), " pods can't start until the claim gets a volume.")
    };
    let severity: Severity = if users.len() == 0 {
        Severity::Warning
    } else {
        Severity::Critical
    };
    issue(
        cat4("storage-pvc-pending:", c.namespace.as_str(), "/", c.name.as_str()),
        severity,
        Layer::Pod,
        target("PersistentVolumeClaim", c.namespace.as_str(), c.name.as_str()),
        cat3("Volume claim ", c.name.as_str(), " isn't bound"),
        detail,
        evidence,
        suggestion,
        lines2(
            cat4("kubectl describe pvc ", c.name.as_str(), " -n ", c.namespace.as_str()),
            "kubectl get storageclass".to_owned(),
        ),
        users,
    )
}

/// The issue of one claim.
pub open spec fn claim_issue(g: ClusterGraph, c: PvcInfo) -> IssueView {
    claim_pending(
        c,
        claim_users(g, c, g.pods@.len() as int),
        text::at_most(claim_events(g, c, g.events@.len() as int), 3),
    )
}

fn issue_of_claim(g: &ClusterGraph, c: &PvcInfo) -> (r: Issue)
    ensures
        r@ == claim_issue(*g, *c),
{
    let mut events: Vec<String> = events_of(g, c);
    keep(&mut events, 3);
    claim_pending_issue(c, users_of(g, c), events)
}

/// The issues of the first `n` claims.
pub open spec fn claim_issues(g: ClusterGraph, n: int) -> Seq<IssueView> {
    pick::gather(
        n,
        |i: int|
            if g.pvcs@[i].phase@ == "Pending"@ {
                seq![claim_issue(g, g.pvcs@[i])]
            } else {
                Seq::empty()
            },
    )
}

fn claim_rules(g: &ClusterGraph) -> (r: Vec<Issue>)
    ensures
        model::views(r@) == claim_issues(*g, g.pvcs@.len() as int),
{
    let mut r: Vec<Issue> = no_issues();
    let mut i: usize = 0;
    while i < g.pvcs.len()
        invariant
            i <= g.pvcs@.len(),
            model::views(r@) == claim_issues(*g, i as int),
        decreases g.pvcs@.len() - i,
    {
        if same(g.pvcs[i].phase.as_str(), "Pending") {
            emit(&mut r, issue_of_claim(g, &g.pvcs[i]));
        }
        i = i + 1;
    }
    r
}

/// The first pod with a namespace and a name.
pub open spec fn pod_at(g: ClusterGraph, ns: Seq<char>, name: Seq<char>, n: int) -> Option<int> {
    pick::first(n, |i: int| g.pods@[i].namespace@ == ns && g.pods@[i].name@ == name)
}

/// Find the first pod with a namespace and a name.
pub fn find_pod_at(g: &ClusterGraph, ns: &str, name: &str) -> (r: Option<usize>)
    ensures
        match r {
            Some(k) => k < g.pods@.len() && pod_at(*g, ns@, name@, g.pods@.len() as int) == Some(k as int),
            None => pod_at(*g, ns@, name@, g.pods@.len() as int) is None,
        },
{
    let mut r: Option<usize> = None;
    let mut i: usize = 0;
    while i < g.pods.len()
        invariant
            i <= g.pods@.len(),
            match r {
                Some(k) => k < i && pod_at(*g, ns@, name@, i as int) == Some(k as int),
                None => pod_at(*g, ns@, name@, i as int) is None,
            },
        decreases g.pods@.len() - i,
    {
        if r.is_none() && same(g.pods[i].namespace.as_str(), ns) && same(g.pods[i].name.as_str(), name) {
            r = Some(i);
        }
        i = i + 1;
    }
    r
}

/// The pod that the event at an index keeps from starting: its volume does not
/// mount.
pub open spec fn stuck_pod(g: ClusterGraph, i: int) -> Option<int> {
    let e = g.events@[i];
    if e.kind@ == "Pod"@ && (e.reason@ == "FailedMount"@ || e.reason@ == "FailedAttachVolume"@) {
        match pod_at(g, e.namespace@, e.name@, g.pods@.len() as int) {
            Some(k) => if g.pods@[k].phase@ == "Running"@ && g.pods@[k].ready {
                None
            } else {
                Some(k)
            },
            None => None,
        }
    } else {
        None
    }
}

fn find_stuck(g: &ClusterGraph, i: usize) -> (r: Option<usize>)
    requires
        i < g.events@.len(),
    ensures
        match r {
            Some(k) => k < g.pods@.len() && stuck_pod(*g, i as int) == Some(k as int),
            None => stuck_pod(*g, i as int) is None,
        },
{
    let e: &EventInfo = &g.events[i];
    if same(e.kind.as_str(), "Pod") && (same(e.reason.as_str(), "FailedMount") || same(
        e.reason.as_str(),
        "FailedAttachVolume",
    )) {
        match find_pod_at(g, e.namespace.as_str(), e.name.as_str()) {
            Some(k) => if same(g.pods[k].phase.as_str(), "Running") && g.pods[k].ready {
                None
            } else {
                Some(k)
            },
            None => None,
        }
    } else {
        None
    }
}

/// Is it configuration that is missing, going by the message in lower case?
pub open spec fn is_config(low: Seq<char>) -> bool {
    (scan::contains(low, "configmap"@) || scan::contains(low, "secret"@)) && scan::contains(
        low,
        "not found"@,
    )
}

/// Is it configuration that is missing, going by the message in lower case?
pub fn config_missing(low: &str) -> (r: bool)
    ensures
        r == is_config(low@),
{
    (has(low, "configmap") || has(low, "secret")) && has(low, "not found")
}

/// Does the event at an index keep a pod of this owner from starting, for want
/// of configuration or for another reason?
pub open spec fn is_stuck(g: ClusterGraph, key: Seq<char>, config: bool, i: int) -> bool {
    match stuck_pod(g, i) {
        Some(k) => pod::owner(g.pods@[k]) == key && is_config(
            lettercase::lowercase(g.events@[i].message@),
        ) == config,
        None => false,
    }
}

fn stuck(g: &ClusterGraph, key: &str, config: bool, i: usize) -> (r: bool)
    requires
        i < g.events@.len(),
    ensures
        r == is_stuck(*g, key@, config, i as int),
{
    match find_stuck(g, i) {
        Some(k) => same(owner_of(&g.pods[k]).as_str(), key) && config_missing(
            lower(g.events[i].message.as_str()).as_str(),
        ) == config,
        None => false,
    }
}

fn stuck_owner(g: &ClusterGraph, i: usize) -> (r: Option<String>)
    requires
        i < g.events@.len(),
    ensures
        text::opt(r) == owner_stuck(*g, i as int),
{
    match find_stuck(g, i) {
        Some(k) => Some(owner_of(&g.pods[k])),
        None => None,
    }
}

/// The owner of the pod that the event at an index keeps from starting.
pub open spec fn owner_stuck(g: ClusterGraph, i: int) -> Option<Seq<char>> {
    match stuck_pod(g, i) {
        Some(k) => Some(pod::owner(g.pods@[k])),
        None => None,
    }
}

/// The owners of the pods that do not start because of a volume.
pub open spec fn stuck_owners(g: ClusterGraph, n: int) -> Seq<Seq<char>> {
    pick::keys(n, |i: int| owner_stuck(g, i))
}

fn owners_stuck(g: &ClusterGraph) -> (r: Vec<String>)
    ensures
        text::strs(r@) == stuck_owners(*g, g.events@.len() as int),
{
    let mut r: Vec<String> = no_lines();
    let mut i: usize = 0;
    while i < g.events.len()
        invariant
            i <= g.events@.len(),
            text::strs(r@) == stuck_owners(*g, i as int),
        decreases g.events@.len() - i,
    {
        match stuck_owner(g, i) {
            Some(k) => insert_key(&mut r, k),
            None => {},
        }
        i = i + 1;
    }
    r
}

/// The first event of a group.
pub open spec fn first_stuck(g: ClusterGraph, key: Seq<char>, config: bool, n: int) -> Option<int> {
    pick::first(n, |i: int| is_stuck(g, key, config, i))
}

fn find_first_stuck(g: &ClusterGraph, key: &str, config: bool) -> (r: Option<usize>)
    ensures
        match r {
            Some(k) => k < g.events@.len() && first_stuck(*g, key@, config, g.events@.len() as int) == Some(
                k as int,
            ),
            None => first_stuck(*g, key@, config, g.events@.len() as int) is None,
        },
{
    let mut r: Option<usize> = None;
    let mut i: usize = 0;
    while i < g.events.len()
        invariant
            i <= g.events@.len(),
            match r {
                Some(k) => k < i && first_stuck(*g, key@, config, i as int) == Some(k as int),
                None => first_stuck(*g, key@, config, i as int) is None,
            },
        decreases g.events@.len() - i,
    {
        if r.is_none() && stuck(g, key, config, i) {
            r = Some(i);
        }
        i = i + 1;
    }
    r
}

/// Does one of the first `n` events of a group name this pod?
pub open spec fn named_before(
    g: ClusterGraph,
    key: Seq<char>,
    config: bool,
    name: Seq<char>,
    n: int,
) -> bool {
    pick::any(n, |i: int| is_stuck(g, key, config, i) && g.events@[i].name@ == name)
}

fn is_named_before(g: &ClusterGraph, key: &str, config: bool, name: &str, n: usize) -> (r: bool)
    requires
        n <= g.events@.len(),
    ensures
        r == named_before(*g, key@, config, name@, n as int),
{
    let mut r: bool = false;
    let mut i: usize = 0;
    while i < n
        invariant
            i <= n <= g.events@.len(),
            r == named_before(*g, key@, config, name@, i as int),
        decreases n - i,
    {
        if stuck(g, key, config, i) && same(g.events[i].name.as_str(), name) {
            r = true;
        }
        i = i + 1;
    }
    r
}

/// The names of the pods of a group, each once, in the order of the events.
pub open spec fn stuck_names(
    g: ClusterGraph,
    key: Seq<char>,
    config: bool,
    n: int,
) -> Seq<Seq<char>> {
    pick::gather(
        n,
        |i: int|
            if is_stuck(g, key, config, i) && !named_before(g, key, config, g.events@[i].name@, i) {
                seq![g.events@[i].name@]
            } else {
                Seq::empty()
            },
    )
}

fn names_stuck(g: &ClusterGraph, key: &str, config: bool) -> (r: Vec<String>)
    ensures
        text::strs(r@) == stuck_names(*g, key@, config, g.events@.len() as int),
{
    let mut r: Vec<String> = no_lines();
    let mut i: usize = 0;
    while i < g.events.len()
        invariant
            i <= g.events@.len(),
            text::strs(r@) == stuck_names(*g, key@, config, i as int),
        decreases g.events@.len() - i,
    {
        if stuck(g, key, config, i) && !is_named_before(
            g,
            key,
            config,
            g.events[i].name.as_str(),
            i,
        ) {
            say(&mut r, g.events[i].name.clone());
        }
        i = i + 1;
    }
    r
}

/// The namespace of an owner, or else of its pod.
pub open spec fn mount_ns(key: Seq<char>, p: PodInfo) -> Seq<char> {
    if split::id_part(key, 1) == ""@ {
        p.namespace@
    } else {
        split::id_part(key, 1)
    }
}

/// The issue for the pods of one owner that wait for configuration or for a volume.
pub open spec fn mount_failed(
    key: Seq<char>,
    config: bool,
    p: PodInfo,
    msg: Seq<char>,
    names: Seq<Seq<char>>,
) -> IssueView {
    model::issue_view(
        (if config {
                "config-missing"@
            } else {
                "storage-mount-failed"@
        }) + ":"@ + key,
        Severity::Critical,
        Layer::Pod,
        model::target_view(split::id_part(key, 0), mount_ns(key, p), split::id_part(key, 2)),
        if config {
            split::owner_name(key) + " mounts a ConfigMap or Secret that doesn't exist"@
        } else {
            split::owner_name(key) + " can't mount its volume"@
        },
        numeral::dec(names.len() as int)
            + " pods are stuck in ContainerCreating until the volume mounts."@,
        seq![msg],
        if config {
            "Create the missing ConfigMap or Secret in the same namespace, or fix the name in the pod spec."@
        } else if scan::contains(msg, "Multi-Attach"@) {
            "A ReadWriteOnce volume is still attached to another node, often from the old pod during a rollout. Wait for it to detach, or use a Recreate strategy for this workload."@
        } else {
            "Check the CSI driver's node pods on this node and the volume's state in your cloud console."@
        },
        seq!["kubectl describe pod "@ + p.name@ + " -n "@ + mount_ns(key, p)],
        names,
    )
}

fn mount_failed_issue(
    key: &str,
    config: bool,
    p: &PodInfo,
    msg: &str,
    names: Vec<String>,
) -> (r: Issue)
    ensures
        r@ == mount_failed(key@, config, *p, msg@, text::strs(names@)),
{
    let id: (String, String, String) = split_id(key);
    let who: String = owner_label(key);
    let ns: String = if same(id.1.as_str(), "") {
        p.namespace.clone()
    } else {
        id.1.clone()
    };
    let rule: &str = if config {
        "config-missing"
    } else {
        "storage-mount-failed"
    };
    let suggestion: String = if config {
        "Create the missing ConfigMap or Secret in the same namespace, or fix the name in the pod spec.".to_owned()
    } else if has(msg, "Multi-Attach") {
        "A ReadWriteOnce volume is still attached to another node, often from the old pod during a rollout. Wait for it to detach, or use a Recreate strategy for this workload.".to_owned()
    } else {
        "Check the CSI driver's node pods on this node and the volume's state in your cloud console.".to_owned()
    };
    let title: String = if config {
        cat2(who.as_str(), " mounts a ConfigMap or Secret that doesn't exist")
    } else {
        cat2(who.as_str(), " can't mount its volume")
    };
    issue(
        cat3(rule, ":", key),
        Severity::Critical,
        Layer::Pod,
        target(id.0.as_str(), ns.as_str(), id.2.as_str()),
        title,
        cat2(
            dec_usize(names.len()).as_str(),
            " pods are stuck in ContainerCreating until the volume mounts.",
        ),
        lines1(msg.to_owned()),
        suggestion,
        lines1(cat4("kubectl describe pod ", p.name.as_str(), " -n ", ns.as_str())),
        names,
    )
}

/// The issue of one group, if it has events.
pub open spec fn mount_issue(g: ClusterGraph, key: Seq<char>, config: bool) -> Seq<IssueView> {
    let n = g.events@.len() as int;
    match first_stuck(g, key, config, n) {
        Some(i) => match stuck_pod(g, i) {
            Some(k) => seq![
                mount_failed(
                    key,
                    config,
                    g.pods@[k],
                    g.events@[i].message@,
                    stuck_names(g, key, config, n),
                ),
            ],
            None => Seq::empty(),
        },
        None => Seq::empty(),
    }
}

fn issues_of_mount(g: &ClusterGraph, key: &str, config: bool) -> (r: Vec<Issue>)
    ensures
        model::views(r@) == mount_issue(*g, key@, config),
{
    let mut r: Vec<Issue> = no_issues();
    match find_first_stuck(g, key, config) {
        Some(i) => {
            match find_stuck(g, i) {
                Some(k) => {
                    let names: Vec<String> = names_stuck(g, key, config);
                    let msg: &str = g.events[i].message.as_str();
                    emit(&mut r, mount_failed_issue(key, config, &g.pods[k], msg, names));
                },
                None => {},
            }
        },
        None => {},
    }
    r
}

/// The issues of one owner: volumes first, then configuration.
pub open spec fn owner_mounts(g: ClusterGraph, key: Seq<char>) -> Seq<IssueView> {
    mount_issue(g, key, false) + mount_issue(g, key, true)
}

fn mounts_of_owner(g: &ClusterGraph, key: &str) -> (r: Vec<Issue>)
    ensures
        model::views(r@) == owner_mounts(*g, key@),
{
    let mut r: Vec<Issue> = issues_of_mount(g, key, false);
    emit_all(&mut r, issues_of_mount(g, key, true));
    r
}

/// The issues for volumes that do not mount, by owner in rising order.
pub open spec fn mount_issues(g: ClusterGraph) -> Seq<IssueView> {
    let keys = stuck_owners(g, g.events@.len() as int);
    pick::gather(keys.len() as int, |k: int| owner_mounts(g, keys[k]))
}

/// Volumes that do not mount.
pub fn mount_rules(g: &ClusterGraph) -> (out: Vec<Issue>)
    ensures
        model::views(out@) == mount_issues(*g),
{
    let keys: Vec<String> = owners_stuck(g);
    let ghost ks = text::strs(keys@);
    let ghost f = |k: int| owner_mounts(*g, ks[k]);
    let mut out: Vec<Issue> = no_issues();
    let mut k: usize = 0;
    while k < keys.len()
        invariant
            k <= keys.len(),
            ks == text::strs(keys@),
            f == (|k: int| owner_mounts(*g, ks[k])),
            model::views(out@) == pick::gather(k as int, f),
        decreases keys.len() - k,
    {
        let part: Vec<Issue> = mounts_of_owner(g, keys[k].as_str());
        emit_all(&mut out, part);
        k = k + 1;
    }
    out
}

/// The issues of storage.
pub open spec fn storage_issues(g: ClusterGraph) -> Seq<IssueView> {
    claim_issues(g, g.pvcs@.len() as int) + mount_issues(g)
}

/// What is wrong with storage.
pub fn storage_rules(g: &ClusterGraph) -> (out: Vec<Issue>)
    ensures
        model::views(out@) == storage_issues(*g),
{
    let mut out: Vec<Issue> = claim_rules(g);
    emit_all(&mut out, mount_rules(g));
    out
}

} // verus!
