//! Pods that the kubelet evicted.

use crate::model;
use crate::model::{
    emit, emit_all, issue, no_issues, target, ClusterGraph, Issue, IssueView, Layer, PodInfo,
    Severity,
};
use crate::numeral;
use crate::numeral::dec_usize;
use crate::order::insert_key;
use crate::pick;
use crate::rules::pod;
use crate::rules::pod::owner_of;
use crate::scan;
use crate::scan::has;
use crate::split;
use crate::split::{owner_label, split_id};
use crate::text;
use crate::text::{cat2, cat3, cat4, copy_or_empty, lines1, no_lines, same, say};
use vstd::prelude::*;

verus! {

broadcast use crate::pick::lemma_add_nothing;

/// The owners of the evicted pods.
pub open spec fn evicted_owners(g: ClusterGraph, n: int) -> Seq<Seq<char>> {
    pick::keys(
        n,
        |i: int|
            if g.pods@[i].status@ == "Evicted"@ {
                Some(pod::owner(g.pods@[i]))
            } else {
                None
            },
    )
}

fn evicted_owner_list(g: &ClusterGraph) -> (r: Vec<String>)
    ensures
        text::strs(r@) == evicted_owners(*g, g.pods@.len() as int),
{
    let mut r: Vec<String> = no_lines();
    let mut i: usize = 0;
    while i < g.pods.len()
        invariant
            i <= g.pods@.len(),
            text::strs(r@) == evicted_owners(*g, i as int),
        decreases g.pods@.len() - i,
    {
        if same(g.pods[i].status.as_str(), "Evicted") {
            insert_key(&mut r, owner_of(&g.pods[i]));
        }
        i = i + 1;
    }
    r
}

/// The first of the pods of one owner.
pub open spec fn evicted_first(g: ClusterGraph, key: Seq<char>, n: int) -> Option<int> {
    pick::first(n, |i: int| g.pods@[i].status@ == "Evicted"@ && pod::owner(g.pods@[i]) == key)
}

fn evicted_first_of(g: &ClusterGraph, key: &str) -> (r: Option<usize>)
    ensures
        match r {
            Some(k) => k < g.pods@.len() && evicted_first(*g, key@, g.pods@.len() as int) == Some(k as int),
            None => evicted_first(*g, key@, g.pods@.len() as int) is None,
        },
{
    let mut r: Option<usize> = None;
    let mut i: usize = 0;
    while i < g.pods.len()
        invariant
            i <= g.pods@.len(),
            match r {
                Some(k) => k < i && evicted_first(*g, key@, i as int) == Some(k as int),
                None => evicted_first(*g, key@, i as int) is None,
            },
        decreases g.pods@.len() - i,
    {
        if r.is_none() && same(g.pods[i].status.as_str(), "Evicted") && same(owner_of(&g.pods[i]).as_str(), key) {
            r = Some(i);
        }
        i = i + 1;
    }
    r
}

/// The names of the pods of one owner.
pub open spec fn evicted_names(g: ClusterGraph, key: Seq<char>, n: int) -> Seq<Seq<char>> {
    pick::gather(
        n,
        |i: int|
            if g.pods@[i].status@ == "Evicted"@ && pod::owner(g.pods@[i]) == key {
                seq![g.pods@[i].name@]
            } else {
                Seq::empty()
            },
    )
}

fn evicted_names_of(g: &ClusterGraph, key: &str) -> (r: Vec<String>)
    ensures
        text::strs(r@) == evicted_names(*g, key@, g.pods@.len() as int),
{
    let mut r: Vec<String> = no_lines();
    let mut i: usize = 0;
    while i < g.pods.len()
        invariant
            i <= g.pods@.len(),
            text::strs(r@) == evicted_names(*g, key@, i as int),
        decreases g.pods@.len() - i,
    {
        if same(g.pods[i].status.as_str(), "Evicted") && same(owner_of(&g.pods[i]).as_str(), key) {
            say(&mut r, g.pods[i].name.clone());
        }
        i = i + 1;
    }
    r
}

/// How to keep pods from being evicted, going by the message.
pub open spec fn eviction_advice(msg: Seq<char>) -> Seq<char> {
    if scan::contains(msg, "ephemeral-storage"@) {
        "Set ephemeral-storage requests and limits, and stop the app writing large files to its container filesystem."@
    } else if scan::contains(msg, "memory"@) {
        "Set memory requests that reflect real usage so the scheduler doesn't overpack nodes."@
    } else {
        "Check the node's pressure conditions around the eviction time."@
    }
}

fn eviction_advice_text(msg: &str) -> (r: String)
    ensures
        r@ == eviction_advice(msg@),
{
    if has(msg, "ephemeral-storage") {
        "Set ephemeral-storage requests and limits, and stop the app writing large files to its container filesystem.".to_owned()
    } else if has(msg, "memory") {
        "Set memory requests that reflect real usage so the scheduler doesn't overpack nodes.".to_owned()
    } else {
        "Check the node's pressure conditions around the eviction time.".to_owned()
    }
}

/// The issue for the evicted pods of one owner.
pub open spec fn evicted_pods(key: Seq<char>, p: PodInfo, names: Seq<Seq<char>>) -> IssueView {
    model::issue_view(
        "pod-evicted:"@ + key,
        Severity::Warning,
        Layer::Node,
        model::target_view(split::id_part(key, 0), p.namespace@, split::id_part(key, 2)),
        split::owner_name(key) + " had "@ + numeral::dec(names.len() as int) + " pods evicted"@,
        "The kubelet evicted these pods to protect the node, usually because it ran low on memory or disk."@,
        if text::or_empty(p.message).len() == 0 {
            Seq::empty()
        } else {
            seq!["message: "@ + text::or_empty(p.message)]
        },
        eviction_advice(text::or_empty(p.message)),
        seq!["kubectl get pods -n "@ + p.namespace@ + " --field-selector=status.phase=Failed"@],
        names,
    )
}

fn evicted_pods_issue(key: &str, p: &PodInfo, names: Vec<String>) -> (r: Issue)
    ensures
        r@ == evicted_pods(key@, *p, text::strs(names@)),
{
    let id: (String, String, String) = split_id(key);
    let who: String = owner_label(key);
    let msg: String = copy_or_empty(&p.message);
    let evidence: Vec<String> = if msg.as_str().unicode_len() == 0 {
        no_lines()
    } else {
        lines1(cat2("message: ", msg.as_str()))
    };
    issue(
        cat2("pod-evicted:", key),
        Severity::Warning,
        Layer::Node,
        target(id.0.as_str(), p.namespace.as_str(), id.2.as_str()),
        cat4(who.as_str(), " had ", dec_usize(names.len()).as_str(), " pods evicted"),
        "The kubelet evicted these pods to protect the node, usually because it ran low on memory or disk.".to_owned(),
        evidence,
        eviction_advice_text(msg.as_str()),
        lines1(
            cat3(
                "kubectl get pods -n ",
                p.namespace.as_str(),
                " --field-selector=status.phase=Failed",
            ),
        ),
        names,
    )
}

/// The issue for the pods of one owner.
pub open spec fn evicted_of(g: ClusterGraph, key: Seq<char>) -> Seq<IssueView> {
    match evicted_first(g, key, g.pods@.len() as int) {
        Some(i) => seq![
            evicted_pods(key, g.pods@[i], evicted_names(g, key, g.pods@.len() as int)),
        ],
        None => Seq::empty(),
    }
}

fn evicted_issue_of(g: &ClusterGraph, key: &str) -> (r: Vec<Issue>)
    ensures
        model::views(r@) == evicted_of(*g, key@),
{
    let mut r: Vec<Issue> = no_issues();
    match evicted_first_of(g, key) {
        Some(i) => {
            let names: Vec<String> = evicted_names_of(g, key);
            emit(&mut r, evicted_pods_issue(key, &g.pods[i], names));
        },
        None => {},
    }
    r
}

/// The issues for evicted pods, by owner in rising order.
pub open spec fn evicted_issues(g: ClusterGraph) -> Seq<IssueView> {
    let keys = evicted_owners(g, g.pods@.len() as int);
    pick::gather(keys.len() as int, |k: int| evicted_of(g, keys[k]))
}

/// Pods that were evicted.
pub fn eviction_rules(g: &ClusterGraph) -> (out: Vec<Issue>)
    ensures
        model::views(out@) == evicted_issues(*g),
{
    let keys: Vec<String> = evicted_owner_list(g);
    let ghost ks = text::strs(keys@);
    let ghost f = |k: int| evicted_of(*g, ks[k]);
    let mut out: Vec<Issue> = no_issues();
    let mut k: usize = 0;
    while k < keys.len()
        invariant
            k <= keys.len(),
            ks == text::strs(keys@),
            f == (|k: int| evicted_of(*g, ks[k])),
            model::views(out@) == pick::gather(k as int, f),
        decreases keys.len() - k,
    {
        let part: Vec<Issue> = evicted_issue_of(g, keys[k].as_str());
        emit_all(&mut out, part);
        k = k + 1;
    }
    out
}

} // verus!
