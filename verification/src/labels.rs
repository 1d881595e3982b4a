//! Label sets: keys with values, kept in the order of their keys.

use crate::order;
use crate::order::precedes;
use crate::pick;
use crate::split;
use crate::split::joined;
use crate::text;
use crate::text::{cat3, no_lines, same, say};
use vstd::prelude::*;

verus! {

/// The texts of a list of string pairs.
pub open spec fn pairs(v: Seq<(String, String)>) -> Seq<(Seq<char>, Seq<char>)> {
    v.map_values(|e: (String, String)| (e.0@, e.1@))
}

/// A set of labels. Each key occurs once, and keys are in rising order.
#[derive(Debug, Clone, Default)]
pub struct Labels {
    entries: Vec<(String, String)>,
}

impl View for Labels {
    type V = Seq<(Seq<char>, Seq<char>)>;

    closed spec fn view(&self) -> Seq<(Seq<char>, Seq<char>)> {
        pairs(self.entries@)
    }
}

/// Is it the label of this key?
pub open spec fn is_key(e: (Seq<char>, Seq<char>), k: Seq<char>) -> bool {
    e.0 == k
}

/// The value under a key.
pub open spec fn lookup(s: Seq<(Seq<char>, Seq<char>)>, k: Seq<char>) -> Option<Seq<char>> {
    match pick::first(s.len() as int, |i: int| is_key(s[i], k)) {
        Some(i) => Some(s[i].1),
        None => None,
    }
}

/// The labels with one more: in place of the old value where the key is there
/// already, else where the key belongs.
pub open spec fn with(
    s: Seq<(Seq<char>, Seq<char>)>,
    k: Seq<char>,
    v: Seq<char>,
) -> Seq<(Seq<char>, Seq<char>)>
    decreases s.len(),
{
    if s.len() == 0 {
        seq![(k, v)]
    } else if s[0].0 == k {
        seq![(k, v)] + s.skip(1)
    } else if order::before(k, s[0].0) {
        seq![(k, v)] + s
    } else {
        seq![s[0]] + with(s.skip(1), k, v)
    }
}

/// The labels with all of `more` put in, one after the other.
pub open spec fn with_all(
    s: Seq<(Seq<char>, Seq<char>)>,
    more: Seq<(Seq<char>, Seq<char>)>,
) -> Seq<(Seq<char>, Seq<char>)>
    decreases more.len(),
{
    if more.len() == 0 {
        s
    } else {
        with(with_all(s, more.drop_last()), more.last().0, more.last().1)
    }
}

/// Are the keys in rising order, each once?
pub open spec fn keys_rise(s: Seq<(Seq<char>, Seq<char>)>) -> bool {
    forall|i: int, j: int| 0 <= i < j < s.len() ==> order::before(#[trigger] s[i].0, #[trigger] s[j].0)
}

/// Every pair that `with` holds is the new one or was there before.
proof fn lemma_with_members(
    s: Seq<(Seq<char>, Seq<char>)>,
    k: Seq<char>,
    v: Seq<char>,
    j: int,
)
    requires
        0 <= j < with(s, k, v).len(),
    ensures
        with(s, k, v)[j] == (k, v) || s.contains(with(s, k, v)[j]),
    decreases s.len(),
{
    let r = with(s, k, v);
    if s.len() == 0 {
    } else if s[0].0 == k {
        if j > 0 {
            assert(s[j] == r[j]);
        }
    } else if order::before(k, s[0].0) {
        if j > 0 {
            assert(s[j - 1] == r[j]);
        }
    } else if j == 0 {
        assert(s[0] == r[0]);
    } else {
        lemma_with_members(s.skip(1), k, v, j - 1);
        let t = s.skip(1);
        if t.contains(r[j]) {
            let m = choose|m: int| 0 <= m < t.len() && t[m] == r[j];
            assert(s[m + 1] == r[j]);
        }
    }
}

/// Putting a label in keeps the keys in rising order.
pub proof fn lemma_with_rises(s: Seq<(Seq<char>, Seq<char>)>, k: Seq<char>, v: Seq<char>)
    requires
        keys_rise(s),
    ensures
        keys_rise(with(s, k, v)),
    decreases s.len(),
{
    let r = with(s, k, v);
    if s.len() == 0 {
    } else if s[0].0 == k {
        assert forall|i: int, j: int| 0 <= i < j < r.len() implies order::before(
            #[trigger] r[i].0,
            #[trigger] r[j].0,
        ) by {
            assert(order::before(s[i].0, s[j].0));
        }
    } else if order::before(k, s[0].0) {
        assert forall|i: int, j: int| 0 <= i < j < r.len() implies order::before(
            #[trigger] r[i].0,
            #[trigger] r[j].0,
        ) by {
            if i == 0 {
                if j > 1 {
                    assert(order::before(s[0].0, s[j - 1].0));
                    order::lemma_before_transitive(k, s[0].0, s[j - 1].0);
                }
            } else {
                assert(order::before(s[i - 1].0, s[j - 1].0));
            }
        }
    } else {
        let t = s.skip(1);
        assert forall|i: int, j: int| 0 <= i < j < t.len() implies order::before(
            #[trigger] t[i].0,
            #[trigger] t[j].0,
        ) by {
            assert(order::before(s[i + 1].0, s[j + 1].0));
        }
        lemma_with_rises(t, k, v);
        order::lemma_before_total(k, s[0].0);
        let u = with(t, k, v);
        assert forall|i: int, j: int| 0 <= i < j < r.len() implies order::before(
            #[trigger] r[i].0,
            #[trigger] r[j].0,
        ) by {
            if i > 0 {
                assert(order::before(u[i - 1].0, u[j - 1].0));
            } else {
                assert(r[j] == u[j - 1]);
                lemma_with_members(t, k, v, j - 1);
                if u[j - 1] != (k, v) {
                    let m = choose|m: int| 0 <= m < t.len() && t[m] == u[j - 1];
                    assert(order::before(s[0].0, s[m + 1].0));
                }
            }
        }
    }
}

/// Skipping pairs whose keys come before `k` does not change where `k` goes.
proof fn lemma_with_skip(s: Seq<(Seq<char>, Seq<char>)>, k: Seq<char>, v: Seq<char>, i: int)
    requires
        0 <= i <= s.len(),
        forall|j: int| 0 <= j < i ==> order::before((#[trigger] s[j]).0, k),
    ensures
        with(s, k, v) == s.take(i) + with(s.skip(i), k, v),
    decreases i,
{
    if i == 0 {
        assert(s.skip(0) =~= s);
        assert(s.take(0) + with(s.skip(0), k, v) =~= with(s, k, v));
    } else {
        assert(order::before(s[0].0, k));
        order::lemma_before_total(s[0].0, k);
        let t = s.skip(1);
        assert forall|j: int| 0 <= j < i - 1 implies order::before((#[trigger] t[j]).0, k) by {
            assert(order::before(s[j + 1].0, k));
        }
        lemma_with_skip(t, k, v, i - 1);
        assert(t.skip(i - 1) =~= s.skip(i));
        assert(seq![s[0]] + (t.take(i - 1) + with(s.skip(i), k, v)) =~= s.take(i) + with(
            s.skip(i),
            k,
            v,
        ));
    }
}

impl Labels {
    /// No labels.
    pub fn new() -> (r: Labels)
        ensures
            r@ == Seq::<(Seq<char>, Seq<char>)>::empty(),
            keys_rise(r@),
    {
        let r = Labels { entries: Vec::new() };
        proof {
            assert(r@ =~= Seq::<(Seq<char>, Seq<char>)>::empty());
        }
        r
    }

    /// The labels in a list of pairs; a later pair replaces an earlier one
    /// with the same key.
    pub fn from_pairs(v: Vec<(String, String)>) -> (r: Labels)
        ensures
            r@ == with_all(Seq::empty(), pairs(v@)),
            keys_rise(r@),
    {
        let mut r = Labels::new();
        r.add_pairs(&v);
        r
    }

    fn add_pairs(&mut self, v: &Vec<(String, String)>)
        ensures
            final(self)@ == with_all(old(self)@, pairs(v@)),
            keys_rise(old(self)@) ==> keys_rise(final(self)@),
    {
        let ghost start = self@;
        let mut i: usize = 0;
        proof {
            assert(pairs(v@).take(0).len() == 0);
        }
        while i < v.len()
            invariant
                i <= v.len(),
                self@ == with_all(start, pairs(v@).take(i as int)),
                keys_rise(start) ==> keys_rise(self@),
            decreases v.len() - i,
        {
            proof {
                let t = pairs(v@);
                assert(t.take(i + 1).drop_last() =~= t.take(i as int));
                assert(t.take(i + 1).last() == (v@[i as int].0@, v@[i as int].1@));
            }
            self.insert(v[i].0.clone(), v[i].1.clone());
            i = i + 1;
        }
        proof {
            assert(pairs(v@).take(i as int) =~= pairs(v@));
        }
    }

    /// Put all labels of another set in.
    pub fn extend(&mut self, more: &Labels)
        ensures
            final(self)@ == with_all(old(self)@, more@),
            keys_rise(old(self)@) ==> keys_rise(final(self)@),
    {
        self.add_pairs(&more.entries);
    }

    /// Put a label in.
    pub fn insert(&mut self, k: String, v: String)
        ensures
            final(self)@ == with(old(self)@, k@, v@),
            keys_rise(old(self)@) ==> keys_rise(final(self)@),
    {
        let ghost s = self@;
        let mut i: usize = 0;
        while i < self.entries.len() && precedes(self.entries[i].0.as_str(), k.as_str())
            invariant
                i <= self.entries.len(),
                self@ == s,
                forall|j: int| 0 <= j < i ==> order::before((#[trigger] s[j]).0, k@),
            decreases self.entries.len() - i,
        {
            i = i + 1;
        }
        proof {
            lemma_with_skip(s, k@, v@, i as int);
            if keys_rise(s) {
                lemma_with_rises(s, k@, v@);
            }
            if i < s.len() {
                assert(s.skip(i as int)[0] == s[i as int]);
                order::lemma_before_total(s[i as int].0, k@);
            }
        }
        if i < self.entries.len() && self.entries[i].0 == k {
            self.entries.set(i, (k, v));
            proof {
                assert(self@ =~= s.take(i as int) + (seq![(k@, v@)] + s.skip(i as int).skip(1)));
            }
        } else {
            self.entries.insert(i, (k, v));
            proof {
                assert(self@ =~= s.take(i as int) + (seq![(k@, v@)] + s.skip(i as int)));
                if i == s.len() {
                    assert(seq![(k@, v@)] + s.skip(i as int) =~= seq![(k@, v@)]);
                }
            }
        }
    }

    /// The value under a key.
    pub fn get(&self, k: &str) -> (r: Option<&String>)
        ensures
            match r {
                Some(v) => lookup(self@, k@) == Some(v@),
                None => lookup(self@, k@) is None,
            },
    {
        let mut r: Option<&String> = None;
        let mut i: usize = 0;
        let ghost p = |i: int| is_key(self@[i], k@);
        while i < self.entries.len()
            invariant
                i <= self.entries.len(),
                p == (|i: int| is_key(self@[i], k@)),
                match r {
                    Some(v) => pick::first(i as int, p) matches Some(m) && 0 <= m < i
                        && self@[m].1 == v@,
                    None => pick::first(i as int, p) is None,
                },
            decreases self.entries.len() - i,
        {
            if r.is_none() && same(self.entries[i].0.as_str(), k) {
                r = Some(&self.entries[i].1);
            }
            i = i + 1;
        }
        r
    }

    /// Is there a label with this key?
    pub fn contains_key(&self, k: &str) -> (r: bool)
        ensures
            r == (lookup(self@, k@) is Some),
    {
        self.get(k).is_some()
    }

    /// How many labels are there?
    pub fn len(&self) -> (r: usize)
        ensures
            r == self@.len(),
    {
        self.entries.len()
    }

    /// Are there no labels?
    pub fn is_empty(&self) -> (r: bool)
        ensures
            r == (self@.len() == 0),
    {
        self.entries.len() == 0
    }

    /// The key at a position.
    pub fn key(&self, i: usize) -> (r: &String)
        requires
            i < self@.len(),
        ensures
            r@ == self@[i as int].0,
    {
        &self.entries[i].0
    }

    /// The value at a position.
    pub fn value(&self, i: usize) -> (r: &String)
        requires
            i < self@.len(),
        ensures
            r@ == self@[i as int].1,
    {
        &self.entries[i].1
    }

    /// A copy of the labels.
    pub fn copy(&self) -> (r: Labels)
        ensures
            r@ == self@,
    {
        let mut entries: Vec<(String, String)> = Vec::new();
        let mut i: usize = 0;
        while i < self.entries.len()
            invariant
                i <= self.entries.len(),
                pairs(entries@) =~= self@.take(i as int),
            decreases self.entries.len() - i,
        {
            let ghost was = entries@;
            entries.push((self.entries[i].0.clone(), self.entries[i].1.clone()));
            proof {
                assert(pairs(entries@) =~= pairs(was).push(self@[i as int]));
                assert(self@.take(i + 1) =~= self@.take(i as int).push(self@[i as int]));
            }
            i = i + 1;
        }
        proof {
            assert(self@.take(i as int) =~= self@);
        }
        Labels { entries }
    }
}

/// Does a selector pick an object with these labels? Each of its labels must
/// be there with the same value. An empty selector picks nothing.
pub open spec fn selects(
    selector: Seq<(Seq<char>, Seq<char>)>,
    labels: Seq<(Seq<char>, Seq<char>)>,
) -> bool {
    &&& selector.len() > 0
    &&& forall|i: int|
        0 <= i < selector.len() ==> lookup(labels, (#[trigger] selector[i]).0) == Some(
            selector[i].1,
        )
}

/// Does the selector pick an object with these labels?
pub fn labels_match(selector: &Labels, labels: &Labels) -> (r: bool)
    ensures
        r == selects(selector@, labels@),
{
    if selector.is_empty() {
        return false;
    }
    let mut i: usize = 0;
    while i < selector.len()
        invariant
            i <= selector@.len(),
            forall|j: int|
                0 <= j < i ==> lookup(labels@, (#[trigger] selector@[j]).0) == Some(selector@[j].1),
        decreases selector@.len() - i,
    {
        let found: bool = match labels.get(selector.key(i).as_str()) {
            Some(v) => *v == *selector.value(i),
            None => false,
        };
        if !found {
            return false;
        }
        i = i + 1;
    }
    true
}

/// A label set as `kubectl -l` takes it: `key=value` pairs between commas.
pub open spec fn selector_text(s: Seq<(Seq<char>, Seq<char>)>) -> Seq<char> {
    split::join(pick::gather(s.len() as int, |i: int| seq![s[i].0 + "="@ + s[i].1]), ","@)
}

/// Write a label set as `kubectl -l` takes it.
pub fn fmt_selector(s: &Labels) -> (r: String)
    ensures
        r@ == selector_text(s@),
{
    let mut out: Vec<String> = no_lines();
    let mut i: usize = 0;
    let ghost f = |i: int| seq![s@[i].0 + "="@ + s@[i].1];
    while i < s.len()
        invariant
            i <= s@.len(),
            f == (|i: int| seq![s@[i].0 + "="@ + s@[i].1]),
            text::strs(out@) == pick::gather(i as int, f),
        decreases s@.len() - i,
    {
        let t: String = cat3(s.key(i).as_str(), "=", s.value(i).as_str());
        proof {
            assert(text::strs(out@).push(t@) =~= text::strs(out@) + f(i as int));
        }
        say(&mut out, t);
        i = i + 1;
    }
    joined(&out, ",")
}

proof fn lemma_first_label(
    e: (Seq<char>, Seq<char>),
    t: Seq<(Seq<char>, Seq<char>)>,
    j: Seq<char>,
)
    ensures
        lookup(seq![e] + t, j) == if e.0 == j {
            Some(e.1)
        } else {
            lookup(t, j)
        },
{
    let s = seq![e] + t;
    let p = |i: int| is_key(s[i], j);
    let q = |i: int| is_key(t[i], j);
    pick::lemma_first(s.len() as int, p);
    pick::lemma_first(t.len() as int, q);
    assert(p(0) == (e.0 == j));
    assert forall|i: int| 0 <= i < t.len() implies q(i) == #[trigger] p(i + 1) by {
        assert(s[i + 1] == t[i]);
    }
    if e.0 != j {
        match (pick::first(s.len() as int, p), pick::first(t.len() as int, q)) {
            (Some(m), Some(n)) => {
                assert(m > 0);
                assert(p(n + 1));
                assert(p((m - 1) + 1));
                assert(q(m - 1));
                if m - 1 < n {
                    assert(!q(m - 1));
                } else if n < m - 1 {
                    assert(!p(n + 1));
                }
                assert(s[m] == t[m - 1]);
            },
            (Some(m), None) => {
                assert(m > 0);
                assert(p((m - 1) + 1));
                assert(q(m - 1));
            },
            (None, Some(n)) => {
                assert(p(n + 1));
            },
            (None, None) => {},
        }
    }
}

/// A label that is put in is found under its key, and every other key keeps its
/// value.
pub proof fn labels_hold_what_is_put_in(
    s: Seq<(Seq<char>, Seq<char>)>,
    k: Seq<char>,
    v: Seq<char>,
    j: Seq<char>,
)
    requires
        keys_rise(s),
    ensures
        lookup(with(s, k, v), k) == Some(v),
        j != k ==> lookup(with(s, k, v), j) == lookup(s, j),
    decreases s.len(),
{
    let e = (k, v);
    let none = Seq::<(Seq<char>, Seq<char>)>::empty();
    if s.len() == 0 {
        assert(seq![e] + none =~= seq![e]);
        assert(s =~= none);
        lemma_first_label(e, none, k);
        lemma_first_label(e, none, j);
    } else {
        let t = s.skip(1);
        assert(seq![s[0]] + t =~= s);
        lemma_first_label(s[0], t, j);
        if s[0].0 == k {
            lemma_first_label(e, t, k);
            lemma_first_label(e, t, j);
        } else if order::before(k, s[0].0) {
            lemma_first_label(e, s, k);
            lemma_first_label(e, s, j);
        } else {
            assert forall|a: int, b: int| 0 <= a < b < t.len() implies order::before(
                #[trigger] t[a].0,
                #[trigger] t[b].0,
            ) by {
                assert(order::before(s[a + 1].0, s[b + 1].0));
            }
            labels_hold_what_is_put_in(t, k, v, j);
            lemma_first_label(s[0], with(t, k, v), k);
            lemma_first_label(s[0], with(t, k, v), j);
        }
    }
}

} // verus!
