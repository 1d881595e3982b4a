//! Rule-based diagnosis over a [`ClusterGraph`].
//!
//! Each rule looks at one layer of the traffic path (entry, service,
//! workload, pod, node) and writes an [`Issue`] with evidence, a suggested fix
//! and read-only commands to confirm it. Pod findings are grouped per
//! workload so a 20-replica crash loop is one issue, not twenty.

use crate::extended;
use crate::extended::run;
use crate::model;
use crate::model::{emit_all, ClusterGraph, Issue, IssueView};
use crate::order;
use crate::order::precedes;
use crate::rules::entry;
use crate::rules::entry::entry_rules;
use crate::rules::node;
use crate::rules::node::node_rules;
use crate::rules::pod;
use crate::rules::pod::{flagged_pods, pod_rules};
use crate::rules::service;
use crate::rules::service::service_rules;
use crate::rules::workload;
use crate::rules::workload::workload_rules;
use vstd::prelude::*;

verus! {

/// Does an issue come before another in the list? By severity, then by layer,
/// then by the namespace and the name of what it points at.
pub open spec fn ahead(a: IssueView, b: IssueView) -> bool {
    if a.severity != b.severity {
        a.severity.rank() < b.severity.rank()
    } else if a.layer != b.layer {
        a.layer.rank() < b.layer.rank()
    } else if a.target.namespace != b.target.namespace {
        order::before(a.target.namespace, b.target.namespace)
    } else {
        order::before(a.target.name, b.target.name)
    }
}

fn is_ahead(a: &Issue, b: &Issue) -> (r: bool)
    ensures
        r == ahead(a@, b@),
{
    if a.severity != b.severity {
        a.severity.place() < b.severity.place()
    } else if a.layer != b.layer {
        a.layer.place() < b.layer.place()
    } else if a.target.namespace != b.target.namespace {
        precedes(a.target.namespace.as_str(), b.target.namespace.as_str())
    } else {
        precedes(a.target.name.as_str(), b.target.name.as_str())
    }
}

/// Are two issues at the same place of the order?
pub open spec fn level(a: IssueView, b: IssueView) -> bool {
    !ahead(a, b) && !ahead(b, a)
}

/// An issue put into an ordered list, behind those that it is not ahead of.
pub open spec fn slot(s: Seq<IssueView>, x: IssueView) -> Seq<IssueView>
    decreases s.len(),
{
    if s.len() == 0 || !ahead(x, s.last()) {
        s.push(x)
    } else {
        slot(s.drop_last(), x).push(s.last())
    }
}

/// The issues in order; those at the same place stay as they were found.
pub open spec fn in_order(s: Seq<IssueView>) -> Seq<IssueView>
    decreases s.len(),
{
    if s.len() == 0 {
        s
    } else {
        slot(in_order(s.drop_last()), s.last())
    }
}

/// Everything the rules find, in the order in which they run.
pub open spec fn found(g: ClusterGraph) -> Seq<IssueView> {
    let flagged = pod::flagged(g, g.pods@.len() as int);
    entry::entry_issues(g, g.ingresses@.len() as int) + pod::pod_issues(g)
        + service::service_issues(g, flagged, g.services@.len() as int) + node::node_issues(
        g,
        g.nodes@.len() as int,
    ) + workload::workload_issues(g, flagged, g.workloads@.len() as int)
        + extended::extended_issues(g)
}

/// What is wrong with a cluster: everything the rules find, in order.
pub open spec fn diagnosis(g: ClusterGraph) -> Seq<IssueView> {
    in_order(found(g))
}

/// Where an issue goes in an ordered list.
proof fn lemma_slot(s: Seq<IssueView>, x: IssueView, p: int)
    requires
        0 <= p <= s.len(),
        p == 0 || !ahead(x, s[p - 1]),
        forall|k: int| p <= k < s.len() ==> ahead(x, #[trigger] s[k]),
    ensures
        slot(s, x) == s.insert(p, x),
    decreases s.len(),
{
    if p == s.len() {
        assert(s.push(x) =~= s.insert(p, x));
    } else {
        lemma_slot(s.drop_last(), x, p);
        assert(s.drop_last().insert(p, x).push(s.last()) =~= s.insert(p, x));
    }
}

/// Put an issue into an ordered list.
fn settle(out: &mut Vec<Issue>, x: Issue)
    ensures
        model::views(final(out)@) == slot(model::views(old(out)@), x@),
{
    let ghost was = model::views(out@);
    let ghost list = out@;
    let mut p: usize = out.len();
    let mut going: bool = true;
    while going && p > 0
        invariant
            out@ == list,
            was == model::views(list),
            p <= list.len(),
            forall|k: int| p <= k < was.len() ==> ahead(x@, #[trigger] was[k]),
            !going ==> p > 0 && !ahead(x@, was[p - 1]),
        decreases p, (if going { 1int } else { 0int }),
    {
        if is_ahead(&x, &out[p - 1]) {
            p = p - 1;
        } else {
            going = false;
        }
    }
    proof {
        lemma_slot(was, x@, p as int);
    }
    out.insert(p, x);
    proof {
        assert(model::views(out@) =~= was.insert(p as int, x@));
    }
}

/// Put the issues in order.
fn sort(issues: Vec<Issue>) -> (out: Vec<Issue>)
    ensures
        model::views(out@) == in_order(model::views(issues@)),
{
    let ghost all = model::views(issues@);
    let mut rest: Vec<Issue> = issues;
    let mut out: Vec<Issue> = Vec::new();
    let ghost mut n: int = 0;
    proof {
        assert(model::views(out@) =~= all.take(0));
        assert(model::views(rest@) =~= all.skip(0));
    }
    while rest.len() > 0
        invariant
            0 <= n <= all.len(),
            model::views(rest@) == all.skip(n),
            model::views(out@) == in_order(all.take(n)),
        decreases rest.len(),
    {
        let ghost before = rest@;
        let x: Issue = rest.remove(0);
        proof {
            assert(all.skip(n)[0] == before[0]@);
            assert(model::views(rest@) =~= all.skip(n).skip(1));
            assert(all.skip(n).skip(1) =~= all.skip(n + 1));
            assert(all.take(n + 1).drop_last() =~= all.take(n));
            assert(all.take(n + 1).last() == x@);
        }
        settle(&mut out, x);
        proof {
            n = n + 1;
        }
    }
    proof {
        assert(all.skip(n).len() == 0);
        assert(all.take(n) =~= all);
    }
    out
}

/// Find everything that is wrong with a cluster.
pub fn diagnose(g: &ClusterGraph) -> (issues: Vec<Issue>)
    ensures
        model::views(issues@) == diagnosis(*g),
{
    let flagged: Vec<String> = flagged_pods(g);
    let mut out: Vec<Issue> = entry_rules(g);
    emit_all(&mut out, pod_rules(g));
    emit_all(&mut out, service_rules(g, &flagged));
    emit_all(&mut out, node_rules(g));
    emit_all(&mut out, workload_rules(g, &flagged));
    run(g, &mut out);
    sort(out)
}

/// Being level or ahead is transitive.
proof fn lemma_ahead(a: IssueView, b: IssueView, c: IssueView)
    requires
        !ahead(b, a),
        !ahead(c, b),
    ensures
        !ahead(c, a),
{
    order::lemma_before_total(a.target.namespace, b.target.namespace);
    order::lemma_before_total(b.target.namespace, c.target.namespace);
    order::lemma_before_total(a.target.namespace, c.target.namespace);
    order::lemma_before_total(a.target.name, b.target.name);
    order::lemma_before_total(b.target.name, c.target.name);
    order::lemma_before_total(a.target.name, c.target.name);
    if order::before(a.target.namespace, b.target.namespace) && order::before(
        b.target.namespace,
        c.target.namespace,
    ) {
        order::lemma_before_transitive(
            a.target.namespace,
            b.target.namespace,
            c.target.namespace,
        );
    }
    if order::before(a.target.name, b.target.name) && order::before(b.target.name, c.target.name) {
        order::lemma_before_transitive(a.target.name, b.target.name, c.target.name);
    }
}

/// Is no issue behind one that it is ahead of?
pub open spec fn ordered(s: Seq<IssueView>) -> bool {
    forall|i: int, j: int| 0 <= i < j < s.len() ==> !ahead(#[trigger] s[j], #[trigger] s[i])
}

proof fn lemma_slot_ordered(s: Seq<IssueView>, x: IssueView)
    requires
        ordered(s),
    ensures
        ordered(slot(s, x)),
        slot(s, x).len() == s.len() + 1,
        forall|i: int|
            0 <= i <= s.len() ==> #[trigger] slot(s, x)[i] == x || s.contains(slot(s, x)[i]),
    decreases s.len(),
{
    let r = slot(s, x);
    if s.len() == 0 {
    } else if !ahead(x, s.last()) {
        assert forall|i: int, j: int| 0 <= i < j < r.len() implies !ahead(
            #[trigger] r[j],
            #[trigger] r[i],
        ) by {
            if j == s.len() {
                if i < s.len() - 1 {
                    assert(!ahead(s[s.len() - 1], s[i]));
                    lemma_ahead(s[i], s.last(), x);
                }
            } else {
                assert(!ahead(s[j], s[i]));
            }
        }
        assert forall|i: int| 0 <= i <= s.len() implies #[trigger] r[i] == x || s.contains(r[i]) by {
            if i < s.len() {
                assert(r[i] == s[i]);
            }
        }
    } else {
        let t = s.drop_last();
        lemma_slot_ordered(t, x);
        let u = slot(t, x);
        assert forall|i: int, j: int| 0 <= i < j < r.len() implies !ahead(
            #[trigger] r[j],
            #[trigger] r[i],
        ) by {
            if j == s.len() {
                assert(u[i] == x || t.contains(u[i]));
                if u[i] == x {
                    lemma_asymmetric(x, s.last());
                } else {
                    let k = choose|k: int| 0 <= k < t.len() && t[k] == u[i];
                    assert(!ahead(s[s.len() - 1], s[k]));
                }
            } else {
                assert(!ahead(u[j], u[i]));
            }
        }
        assert forall|i: int| 0 <= i <= s.len() implies #[trigger] r[i] == x || s.contains(r[i]) by {
            if i < s.len() {
                assert(r[i] == u[i]);
                if u[i] != x {
                    let k = choose|k: int| 0 <= k < t.len() && t[k] == u[i];
                    assert(s[k] == r[i]);
                }
            } else {
                assert(r[i] == s[s.len() - 1]);
            }
        }
    }
}

proof fn lemma_asymmetric(a: IssueView, b: IssueView)
    requires
        ahead(a, b),
    ensures
        !ahead(b, a),
{
    order::lemma_before_total(a.target.namespace, b.target.namespace);
    order::lemma_before_total(a.target.name, b.target.name);
}

/// Issues are listed in the order a request travels within each severity: no
/// issue stands behind one that it is ahead of.
pub proof fn issues_come_in_order(s: Seq<IssueView>)
    ensures
        ordered(in_order(s)),
        in_order(s).len() == s.len(),
    decreases s.len(),
{
    if s.len() > 0 {
        issues_come_in_order(s.drop_last());
        lemma_slot_ordered(in_order(s.drop_last()), s.last());
    }
}

/// The issues of a list that are level with one.
pub open spec fn level_with(s: Seq<IssueView>, y: IssueView) -> Seq<IssueView> {
    s.filter(|e: IssueView| level(e, y))
}

proof fn lemma_slot_stable(s: Seq<IssueView>, x: IssueView, y: IssueView)
    ensures
        level_with(slot(s, x), y) == level_with(s.push(x), y),
    decreases s.len(),
{
    let p = |e: IssueView| level(e, y);
    reveal(Seq::filter);
    if s.len() > 0 && ahead(x, s.last()) {
        let t = s.drop_last();
        let l = s.last();
        lemma_slot_stable(t, x, y);
        assert(slot(t, x).push(l).drop_last() =~= slot(t, x));
        assert(t.push(x).drop_last() =~= t);
        assert(s.push(x).drop_last() =~= s);
        if level(x, y) && level(l, y) {
            lemma_ahead(l, y, x);
        }
        assert(s.push(x).filter(p) == if p(x) {
            s.filter(p).push(x)
        } else {
            s.filter(p)
        });
        assert(t.push(x).filter(p) == if p(x) {
            t.filter(p).push(x)
        } else {
            t.filter(p)
        });
        assert(s.filter(p) == if p(l) {
            t.filter(p).push(l)
        } else {
            t.filter(p)
        });
        assert(slot(t, x).push(l).filter(p) == if p(l) {
            slot(t, x).filter(p).push(l)
        } else {
            slot(t, x).filter(p)
        });
    }
}

/// Putting the issues in order keeps those at the same place as they were
/// found.
pub proof fn level_issues_keep_their_order(s: Seq<IssueView>, y: IssueView)
    ensures
        level_with(in_order(s), y) == level_with(s, y),
    decreases s.len(),
{
    if s.len() > 0 {
        let t = s.drop_last();
        level_issues_keep_their_order(t, y);
        lemma_slot_stable(in_order(t), s.last(), y);
        reveal(Seq::filter);
        assert(in_order(t).push(s.last()).drop_last() =~= in_order(t));
        assert(s =~= t.push(s.last()));
    }
}

proof fn lemma_slot_multiset(s: Seq<IssueView>, x: IssueView)
    ensures
        slot(s, x).to_multiset() == s.to_multiset().insert(x),
    decreases s.len(),
{
    if s.len() == 0 || !ahead(x, s.last()) {
        vstd::seq_lib::to_multiset_build(s, x);
    } else {
        let t = s.drop_last();
        lemma_slot_multiset(t, x);
        vstd::seq_lib::to_multiset_build(slot(t, x), s.last());
        vstd::seq_lib::to_multiset_build(t, s.last());
        assert(t.push(s.last()) =~= s);
        assert(t.to_multiset().insert(x).insert(s.last()) =~= t.to_multiset().insert(
            s.last(),
        ).insert(x));
    }
}

/// Putting the issues in order loses none, adds none and repeats none.
pub proof fn ordering_keeps_every_issue(s: Seq<IssueView>)
    ensures
        in_order(s).to_multiset() == s.to_multiset(),
    decreases s.len(),
{
    if s.len() > 0 {
        let t = s.drop_last();
        ordering_keeps_every_issue(t);
        lemma_slot_multiset(in_order(t), s.last());
        vstd::seq_lib::to_multiset_build(t, s.last());
        assert(t.push(s.last()) =~= s);
    }
}

} // verus!
