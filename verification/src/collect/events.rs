//! Events, the newest first.

use crate::collect::raw::RawEvent;
use crate::model::EventInfo;
use crate::order;
use crate::order::precedes;
use crate::pick;
use crate::scan;
use crate::scan::trimmed;
use crate::text;
use crate::text::{copy_or_empty, opt_copy};
use vstd::prelude::*;

verus! {

broadcast use crate::pick::lemma_add_nothing;

/// When an event was last seen.
pub open spec fn last_seen(e: RawEvent) -> Option<String> {
    match (e.last_timestamp, e.event_time) {
        (Some(t), _) => Some(t),
        (None, Some(t)) => Some(t),
        (None, None) => e.created,
    }
}

fn seen(e: &RawEvent) -> (r: Option<String>)
    ensures
        r == last_seen(*e),
{
    match (&e.last_timestamp, &e.event_time) {
        (Some(t), _) => Some(t.clone()),
        (None, Some(t)) => Some(t.clone()),
        (None, None) => opt_copy(&e.created),
    }
}

/// What an event makes.
pub open spec fn event_from(e: RawEvent, i: EventInfo) -> bool {
    &&& i.namespace@ == text::or_empty(e.namespace)
    &&& i.kind@ == text::or_empty(e.kind)
    &&& i.name@ == text::or_empty(e.name)
    &&& i.type_@ == text::or_empty(e.type_)
    &&& i.reason@ == text::or_empty(e.reason)
    &&& i.message@ == scan::trim(text::or_empty(e.message))
    &&& i.count == match e.count {
        Some(n) => n,
        None => 1,
    }
    &&& i.last_seen == last_seen(e)
}

fn convert_event(e: &RawEvent) -> (r: EventInfo)
    ensures
        event_from(*e, r),
{
    EventInfo {
        namespace: copy_or_empty(&e.namespace),
        kind: copy_or_empty(&e.kind),
        name: copy_or_empty(&e.name),
        type_: copy_or_empty(&e.type_),
        reason: copy_or_empty(&e.reason),
        message: trimmed(copy_or_empty(&e.message).as_str()),
        count: match e.count {
            Some(n) => n,
            None => 1,
        },
        last_seen: seen(e),
    }
}

/// Is the first time later? Any time is later than none.
pub open spec fn later(a: Option<String>, b: Option<String>) -> bool {
    match (a, b) {
        (Some(x), Some(y)) => order::before(y@, x@),
        (Some(_), None) => true,
        (None, _) => false,
    }
}

fn is_later(a: &Option<String>, b: &Option<String>) -> (r: bool)
    ensures
        r == later(*a, *b),
{
    match (a, b) {
        (Some(x), Some(y)) => precedes(y.as_str(), x.as_str()),
        (Some(_), None) => true,
        (None, _) => false,
    }
}

/// Is the event at the first index newer than the one at the second?
pub open spec fn newer(es: Seq<RawEvent>, a: int, b: int) -> bool {
    later(last_seen(es[a]), last_seen(es[b]))
}

/// An index put in front of the first event that it is newer than.
pub open spec fn placed(es: Seq<RawEvent>, s: Seq<int>, k: int) -> Seq<int> {
    match pick::first(s.len() as int, |p: int| newer(es, k, s[p])) {
        Some(p) => s.insert(p, k),
        None => s.push(k),
    }
}

/// The indices of the first `n` events, the newest first. Events of one time
/// stay as they were listed.
pub open spec fn newest_first(es: Seq<RawEvent>, n: int) -> Seq<int>
    decreases n,
{
    if n <= 0 {
        Seq::empty()
    } else {
        placed(es, newest_first(es, n - 1), n - 1)
    }
}

/// What the events make.
pub open spec fn events_from(es: Seq<RawEvent>, r: Seq<EventInfo>) -> bool {
    let order = newest_first(es, es.len() as int);
    r.len() == order.len() && forall|k: int|
        0 <= k < r.len() ==> event_from(es[order[k]], #[trigger] r[k])
}

/// Convert the events.
pub fn convert_events(es: &Vec<RawEvent>) -> (r: Vec<EventInfo>)
    ensures
        events_from(es@, r@),
{
    let mut r: Vec<EventInfo> = Vec::new();
    let mut i: usize = 0;
    while i < es.len()
        invariant
            i <= es@.len(),
            r@.len() == newest_first(es@, i as int).len(),
            forall|k: int|
                0 <= k < r@.len() ==> event_from(
                    es@[newest_first(es@, i as int)[k]],
                    #[trigger] r@[k],
                ),
        decreases es@.len() - i,
    {
        let e: EventInfo = convert_event(&es[i]);
        let ghost s = newest_first(es@, i as int);
        let ghost q = |p: int| newer(es@, i as int, s[p]);
        let mut p: usize = 0;
        while p < r.len() && !is_later(&e.last_seen, &r[p].last_seen)
            invariant
                p <= r@.len(),
                r@.len() == s.len(),
                s == newest_first(es@, i as int),
                q == (|p: int| newer(es@, i as int, s[p])),
                event_from(es@[i as int], e),
                forall|k: int|
                    0 <= k < r@.len() ==> event_from(
                        es@[newest_first(es@, i as int)[k]],
                        #[trigger] r@[k],
                    ),
                forall|k: int| 0 <= k < p ==> !#[trigger] q(k),
            decreases r@.len() - p,
        {
            proof {
                assert(event_from(es@[s[p as int]], r@[p as int]));
                assert(!q(p as int));
            }
            p = p + 1;
        }
        let ghost before = r@;
        let ghost t = placed(es@, s, i as int);
        proof {
            pick::lemma_first(s.len() as int, q);
            if p < r@.len() {
                assert(event_from(es@[s[p as int]], r@[p as int]));
                assert(q(p as int));
                assert(t == s.insert(p as int, i as int));
            } else {
                assert(t == s.push(i as int));
                assert(s.push(i as int) =~= s.insert(p as int, i as int));
            }
        }
        r.insert(p, e);
        proof {
            assert forall|k: int| 0 <= k < r@.len() implies event_from(
                es@[t[k]],
                #[trigger] r@[k],
            ) by {
                if k < p {
                    assert(r@[k] == before[k]);
                } else if k > p {
                    assert(r@[k] == before[k - 1]);
                }
            }
        }
        i = i + 1;
    }
    r
}

proof fn lemma_later(a: Option<String>, b: Option<String>, c: Option<String>)
    ensures
        !later(b, a) && !later(c, b) ==> !later(c, a),
        later(a, b) ==> !later(b, a),
        later(a, b) && !later(c, b) ==> later(a, c),
{
    if a is Some && b is Some {
        order::lemma_before_total(a->0@, b->0@);
    }
    if b is Some && c is Some {
        order::lemma_before_total(b->0@, c->0@);
    }
    if a is Some && c is Some {
        order::lemma_before_total(a->0@, c->0@);
    }
    if a is Some && b is Some && c is Some {
        if order::before(a->0@, b->0@) && order::before(b->0@, c->0@) {
            order::lemma_before_transitive(a->0@, b->0@, c->0@);
        }
        if order::before(c->0@, b->0@) && order::before(b->0@, a->0@) {
            order::lemma_before_transitive(c->0@, b->0@, a->0@);
        }
        if order::before(b->0@, c->0@) && order::before(c->0@, a->0@) {
            order::lemma_before_transitive(b->0@, c->0@, a->0@);
        }
        if order::before(b->0@, a->0@) && order::before(a->0@, c->0@) {
            order::lemma_before_transitive(b->0@, a->0@, c->0@);
        }
        if order::before(a->0@, c->0@) && order::before(c->0@, b->0@) {
            order::lemma_before_transitive(a->0@, c->0@, b->0@);
        }
    }
}

/// Every event is there once. None stands behind an older one, and two events
/// of one time stand as they were listed.
pub proof fn events_come_newest_first(es: Seq<RawEvent>, n: int)
    requires
        0 <= n <= es.len(),
    ensures
        newest_first(es, n).len() == n,
        forall|k: int| 0 <= k < n ==> 0 <= #[trigger] newest_first(es, n)[k] < n,
        forall|k: int, m: int|
            0 <= k < m < n ==> {
                let a = #[trigger] newest_first(es, n)[k];
                let b = #[trigger] newest_first(es, n)[m];
                a != b && !newer(es, b, a) && (a < b || newer(es, a, b))
            },
    decreases n,
{
    if n > 0 {
        events_come_newest_first(es, n - 1);
        let s = newest_first(es, n - 1);
        let q = |p: int| newer(es, n - 1, s[p]);
        pick::lemma_first(s.len() as int, q);
        let t = newest_first(es, n);
        let at = match pick::first(s.len() as int, q) {
            Some(p) => p,
            None => s.len() as int,
        };
        assert(t =~= s.insert(at, n - 1));
        assert forall|k: int| 0 <= k < n implies 0 <= #[trigger] t[k] < n by {
            if k < at {
                assert(t[k] == s[k]);
            } else if k > at {
                assert(t[k] == s[k - 1]);
            }
        }
        assert forall|k: int, m: int| 0 <= k < m < n implies {
            let a = #[trigger] t[k];
            let b = #[trigger] t[m];
            a != b && !newer(es, b, a) && (a < b || newer(es, a, b))
        } by {
            if k < at && m == at {
                assert(t[k] == s[k]);
                assert(!q(k));
            } else if k == at {
                assert(t[m] == s[m - 1]);
                assert(q(at));
                if at < m - 1 {
                    assert(!newer(es, s[m - 1], s[at]));
                }
                lemma_later(last_seen(es[n - 1]), last_seen(es[s[at]]), last_seen(es[s[m - 1]]));
                lemma_later(last_seen(es[n - 1]), last_seen(es[s[m - 1]]), None);
            } else {
                let k0 = if k < at {
                    k
                } else {
                    k - 1
                };
                let m0 = if m < at {
                    m
                } else {
                    m - 1
                };
                assert(t[k] == s[k0] && t[m] == s[m0]);
            }
        }
    }
}

} // verus!
