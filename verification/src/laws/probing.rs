//! How a network test goes on from what happens to its probe pods.

use crate::active::check::{ResultView, RunView};
use crate::active::running;
use crate::active::running::{ActionView, Event, RunState, Stage, Waiting};
use crate::active::script;
use crate::pick;
use crate::scan;
use crate::split;
use vstd::prelude::*;

verus! {

/// A pod that was created is looked at later, and deleted in the end: it is put on
/// both lists under the probe that it is for.
pub proof fn created_pods_are_kept_track_of(s: RunState, i: usize, name: String)
    requires
        s.stage == Stage::Creating(i),
        i < s.probes,
    ensures
        ({
            let t = running::next(s, Event::Created(name));
            &&& t.created == s.created.push((i as int, name@))
            &&& t.round == s.round.push((i as int, name@))
            &&& t.runs == s.runs
            &&& i + 1 < s.probes <= usize::MAX ==> running::action_in(t) == ActionView::Create(
                i + 1,
            )
            &&& i + 1 == s.probes && s.probes <= usize::MAX ==> running::action_in(t)
                == ActionView::Clock
        }),
{
}

/// Does the error say that pods may not be created there?
pub open spec fn says_forbidden(e: Seq<char>) -> bool {
    scan::contains(e, "403"@) || scan::contains(e, "forbidden"@)
}

/// A pod that was refused leaves an error in its run, and no pod to look at or to
/// delete; the error says so where the cluster forbids it.
pub proof fn refused_pods_leave_an_error(s: RunState, i: usize, e: String)
    requires
        s.stage == Stage::Creating(i),
        i < s.probes,
        i < s.runs.len(),
    ensures
        ({
            let t = running::next(s, Event::Refused(e));
            &&& t.created == s.created
            &&& t.runs.len() == s.runs.len()
            &&& t.runs[i as int].results == s.runs[i as int].results
            &&& says_forbidden(e@) ==> t.runs[i as int].error == Some(
                "Your credentials can't create pods in "@ + s.source
                    + ", so the test couldn't run there. "@ + e@,
            )
            &&& !says_forbidden(e@) ==> t.runs[i as int].error == Some(
                "Couldn't create the probe pod: "@ + e@,
            )
            &&& forall|j: int|
                0 <= j < s.runs.len() && j != i ==> #[trigger] t.runs[j] == s.runs[j]
        }),
{
}

/// A round begins only while less than eighty seconds have passed.
pub proof fn rounds_go_on_while_there_is_time(s: RunState, ms: u64)
    requires
        s.stage == Stage::Waiting,
    ensures
        ms < 80_000 <==> running::action_in(running::next(s, Event::Elapsed(ms)))
            == ActionView::Rest,
{
}

/// Once the time is up, every run whose pod has not ended has an error, and keeps
/// one that it had; the other runs stay as they are.
pub proof fn late_runs_have_an_error(s: RunState, ms: u64, k: int)
    requires
        s.stage == Stage::Waiting,
        ms >= 80_000,
        0 <= k < s.runs.len(),
    ensures
        ({
            let t = running::next(s, Event::Elapsed(ms));
            let late = exists|j: int| 0 <= j < s.round.len() && (#[trigger] s.round[j]).0 == k;
            &&& t.runs.len() == s.runs.len()
            &&& late ==> t.runs[k].error is Some
            &&& !late ==> t.runs[k] == s.runs[k]
            &&& s.runs[k].error is Some ==> t.runs[k] == s.runs[k]
            &&& t.runs[k].results == s.runs[k].results
        }),
{
    lemma_expired(s.runs, s.round, k, s.round.len() as int);
}

proof fn lemma_expired(runs: Seq<RunView>, late: Seq<(int, Seq<char>)>, k: int, n: int)
    requires
        0 <= n <= late.len(),
        0 <= k < runs.len(),
    ensures
        ({
            let t = running::expired(runs, late, n);
            let in_it = exists|j: int| 0 <= j < n && (#[trigger] late[j]).0 == k;
            &&& t.len() == runs.len()
            &&& in_it ==> t[k].error is Some
            &&& !in_it ==> t[k] == runs[k]
            &&& runs[k].error is Some ==> t[k] == runs[k]
            &&& t[k].results == runs[k].results
        }),
    decreases n,
{
    if n > 0 {
        lemma_expired(runs, late, k, n - 1);
        if late[n - 1].0 == k {
            assert(late[n - 1].0 == k);
        }
    }
}

/// A pod that has ended, well or not, is read; one that could not be seen is left
/// for the next round.
pub proof fn pods_that_have_ended_are_read(s: RunState, phase: String, w: Vec<Waiting>)
    requires
        s.stage == Stage::Looking,
        s.round.len() > 0,
        phase@ == "Succeeded"@ || phase@ == "Failed"@,
    ensures
        running::action_in(running::next(s, Event::Seen(phase, w))) == ActionView::Read(
            s.round[0].1,
        ),
        running::next(s, Event::Seen(phase, w)).runs == s.runs,
{
}

/// Does the reason say that the image of a pod can't be pulled?
pub open spec fn says_no_image(r: Seq<char>) -> bool {
    scan::contains(r, "ImagePull"@) || r == "ErrImagePull"@ || r == "InvalidImageName"@
}

/// Is this the first container that says why it waits?
pub open spec fn first_to_say(w: Seq<Waiting>, k: int) -> bool {
    0 <= k < w.len() && w[k].reason is Some && forall|j: int|
        0 <= j < k ==> (#[trigger] w[j]).reason is None
}

/// A pod that waits for its image for good leaves an error in its run and is not
/// looked at again; one that waits for anything else is looked at again.
pub proof fn pods_without_their_image_are_given_up(
    s: RunState,
    phase: String,
    w: Vec<Waiting>,
    k: int,
)
    requires
        s.stage == Stage::Looking,
        s.round.len() > 0,
        0 <= s.round[0].0 < s.runs.len(),
        phase@ != "Succeeded"@,
        phase@ != "Failed"@,
        first_to_say(w@, k),
    ensures
        ({
            let t = running::step(s, Event::Seen(phase, w));
            &&& says_no_image(w@[k].reason->0@) ==> t.runs[s.round[0].0].error is Some && t.later
                == s.later
            &&& !says_no_image(w@[k].reason->0@) ==> t.runs == s.runs && t.later == s.later.push(
                s.round[0],
            )
            &&& t.round == s.round.skip(1)
            &&& t.created == s.created
        }),
{
    let n = w@.len() as int;
    let f = |i: int| w@[i].reason is Some;
    pick::lemma_first(n, f);
    assert(running::first_reason(w@, n) == pick::first(n, f));
    assert(f(k));
    let m = pick::first(n, f)->0;
    if m < k {
        assert(f(m));
        assert(w@[m].reason is None);
    }
}

/// A pod that could not be seen, or that says nothing, is looked at in the next
/// round.
pub proof fn other_pods_are_looked_at_again(s: RunState, e: Event)
    requires
        s.stage == Stage::Looking,
        s.round.len() > 0,
        e is Unseen || (e matches Event::Seen(phase, w) && phase@ != "Succeeded"@ && phase@
            != "Failed"@ && forall|j: int| 0 <= j < w@.len() ==> (#[trigger] w@[j]).reason is None),
    ensures
        running::step(s, e).later == s.later.push(s.round[0]),
        running::step(s, e).round == s.round.skip(1),
        running::step(s, e).runs == s.runs,
{
    if e is Seen {
        let w = e->Seen_1;
        let n = w@.len() as int;
        let f = |i: int| w@[i].reason is Some;
        pick::lemma_first(n, f);
        assert(running::first_reason(w@, n) == pick::first(n, f));
        if pick::first(n, f) is Some {
            let m = pick::first(n, f)->0;
            assert(f(m));
            assert(w@[m].reason is None);
        }
    }
}

/// What a pod wrote becomes the results of its run. The run has an error exactly
/// where it had one or the pod did not come to the end of its checks.
pub proof fn output_becomes_results(s: RunState, out: String)
    requires
        s.stage == Stage::Reading,
        s.round.len() > 0,
        0 <= s.round[0].0 < s.runs.len(),
    ensures
        ({
            let t = running::step(s, Event::Output(out));
            let i = s.round[0].0;
            &&& t.runs[i].results == script::results_of(out@)
            &&& t.runs[i].node == s.runs[i].node
            &&& scan::contains(out@, "DONE"@) ==> t.runs[i].error == s.runs[i].error
            &&& !scan::contains(out@, "DONE"@) ==> t.runs[i].error == Some(
                "The probe stopped before finishing all checks."@,
            )
            &&& t.round == s.round.skip(1)
            &&& forall|j: int|
                0 <= j < s.runs.len() && j != i ==> #[trigger] t.runs[j] == s.runs[j]
        }),
{
}

/// Output that can't be read leaves an error in the run.
pub proof fn unreadable_output_leaves_an_error(s: RunState, e: String)
    requires
        s.stage == Stage::Reading,
        s.round.len() > 0,
        0 <= s.round[0].0 < s.runs.len(),
    ensures
        running::step(s, Event::Unreadable(e)).runs[s.round[0].0].error == Some(
            "Couldn't read probe output: "@ + e@,
        ),
        running::step(s, Event::Unreadable(e)).runs[s.round[0].0].results
            == s.runs[s.round[0].0].results,
{
}

/// A pod counts as deleted exactly where that was confirmed; either way the next
/// one is deleted.
pub proof fn confirmed_deletions_are_noted(s: RunState, k: usize)
    requires
        s.stage == Stage::Deleting(k),
        k < s.created.len(),
        k < usize::MAX,
    ensures
        running::next(s, Event::Deleted).deleted == s.deleted.push(s.created[k as int].1),
        running::next(s, Event::NotDeleted).deleted == s.deleted,
        k + 1 < s.created.len() ==> running::action_in(running::next(s, Event::Deleted))
            == ActionView::Delete(s.created[k + 1].1) && running::action_in(
            running::next(s, Event::NotDeleted),
        ) == ActionView::Delete(s.created[k + 1].1),
        k + 1 == s.created.len() ==> running::action_in(running::next(s, Event::Deleted))
            == ActionView::Finish,
{
}

/// What stands before a separator is a part of its own.
pub proof fn lemma_split_off(a: Seq<char>, b: Seq<char>, c: char, max: nat)
    requires
        !a.contains(c),
        max >= 2,
    ensures
        split::split_max(a, c, max) == seq![a],
        split::split_max(a.push(c) + b, c, max) == seq![a] + split::split_max(
            b,
            c,
            (max - 1) as nat,
        ),
    decreases a.len() + b.len(),
{
    let s = a.push(c) + b;
    let n = (max - 1) as nat;
    split::lemma_split_len(b, c, n);
    if b.len() == 0 {
        if a.len() > 0 {
            assert forall|x: char| a.drop_last().contains(x) implies a.contains(x) by {
                let k = choose|k: int| 0 <= k < a.drop_last().len() && a.drop_last()[k] == x;
                assert(a[k] == x);
            }
            lemma_split_off(a.drop_last(), b, c, max);
            assert(a.contains(a.last()));
            assert(a.drop_last().push(a.last()) =~= a);
            assert(split::split_max(a, c, max) =~= seq![a]);
        } else {
            assert(a =~= Seq::<char>::empty());
            assert(split::split_max(a, c, max) =~= seq![a]);
        }
        assert(s.drop_last() =~= a);
        assert(s.last() == c);
        assert(split::split_max(s, c, max) == seq![a].push(Seq::empty()));
        assert(split::split_max(b, c, n) == seq![Seq::<char>::empty()]);
        assert(seq![a].push(Seq::empty()) =~= seq![a] + seq![Seq::<char>::empty()]);
    } else {
        let d = b.drop_last();
        lemma_split_off(a, d, c, max);
        split::lemma_split_len(d, c, n);
        let p = split::split_max(d, c, n);
        assert(s.drop_last() =~= a.push(c) + d);
        assert(s.last() == b.last());
        let q = seq![a] + p;
        assert(split::split_max(s.drop_last(), c, max) == q);
        assert(q.last() == p.last());
        assert(q.drop_last() =~= seq![a] + p.drop_last());
        if b.last() == c && p.len() < n {
            assert(q.push(Seq::empty()) =~= seq![a] + p.push(Seq::empty()));
        } else {
            assert(q.drop_last().push(q.last().push(b.last())) =~= seq![a] + p.drop_last().push(
                p.last().push(b.last()),
            ));
        }
    }
}

/// A line of a probe gives back what was written into it: the kind, the label, the
/// target and the result, none of which holds the separator, and the detail
/// without the space around it.
pub proof fn lines_give_back_what_was_written(
    kind: Seq<char>,
    label: Seq<char>,
    target: Seq<char>,
    result: Seq<char>,
    detail: Seq<char>,
)
    requires
        !kind.contains('|'),
        !label.contains('|'),
        !target.contains('|'),
        !result.contains('|'),
    ensures
        script::result_of_line(
            "R|"@ + (kind.push('|') + (label.push('|') + (target.push('|') + (result.push('|')
                + detail)))),
        ) == seq![ResultView { kind, label, target, result, detail: scan::trim(detail) }],
{
    reveal_strlit("R|");
    let d = result.push('|') + detail;
    let c = target.push('|') + d;
    let b = label.push('|') + c;
    let a = kind.push('|') + b;
    let line = "R|"@ + a;
    assert(line.subrange(0, 2) =~= "R|"@);
    assert(line.skip(2) =~= a);
    lemma_split_off(kind, b, '|', 5);
    lemma_split_off(label, c, '|', 4);
    lemma_split_off(target, d, '|', 3);
    lemma_split_off(result, detail, '|', 2);
    lemma_whole(detail);
    assert(split::split_max(d, '|', 2) =~= seq![result, detail]);
    assert(split::split_max(c, '|', 3) =~= seq![target, result, detail]);
    assert(split::split_max(b, '|', 4) =~= seq![label, target, result, detail]);
    let f = split::split_max(a, '|', 5);
    assert(f =~= seq![kind, label, target, result, detail]);
    assert(script::result_of_line(line) =~= seq![
        ResultView { kind: f[0], label: f[1], target: f[2], result: f[3], detail: scan::trim(f[4]) },
    ]);
}

proof fn lemma_whole(s: Seq<char>)
    ensures
        split::split_max(s, '|', 1) == seq![s],
    decreases s.len(),
{
    if s.len() > 0 {
        lemma_whole(s.drop_last());
        assert(s.drop_last().push(s.last()) =~= s);
        assert(split::split_max(s, '|', 1) =~= seq![s]);
    } else {
        assert(s =~= Seq::<char>::empty());
    }
}

/// A line that does not begin with the mark of a result gives none.
pub proof fn other_lines_give_nothing(l: Seq<char>)
    requires
        !scan::starts_with(l, "R|"@),
    ensures
        script::result_of_line(l).len() == 0,
{
}

/// Every result of a line is among the results of the output.
pub proof fn every_line_counts(out: Seq<char>, i: int, x: ResultView)
    requires
        0 <= i < split::lines(out).len(),
        script::result_of_line(split::lines(out)[i]).contains(x),
    ensures
        script::results_of(out).contains(x),
{
    let ls = split::lines(out);
    let n = ls.len() as int;
    let f = |i: int| script::result_of_line(ls[i]);
    crate::laws::reports::lemma_gathered(n, f, i, x);
    assert(script::results_of_lines(ls, n) == pick::gather(n, f));
}

} // verus!
