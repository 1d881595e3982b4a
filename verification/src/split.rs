//! Breaking text into parts, and putting parts together.

use crate::scan::{chars_of, cut};
use crate::text;
use crate::text::{cat3, no_lines, say};
use vstd::prelude::*;

verus! {

/// The parts of `s` between the separators `c`, at most `max` of them: once
/// there are that many, further separators belong to the last part.
pub open spec fn split_max(s: Seq<char>, c: char, max: nat) -> Seq<Seq<char>>
    decreases s.len(),
{
    if s.len() == 0 {
        seq![Seq::empty()]
    } else {
        let parts = split_max(s.drop_last(), c, max);
        if s.last() == c && parts.len() < max {
            parts.push(Seq::empty())
        } else {
            parts.drop_last().push(parts.last().push(s.last()))
        }
    }
}

/// The parts of `s` between the separators `c`.
pub open spec fn split(s: Seq<char>, c: char) -> Seq<Seq<char>> {
    split_max(s, c, s.len() + 1)
}

/// There is always a part, and never more than the limit.
pub proof fn lemma_split_len(s: Seq<char>, c: char, max: nat)
    requires
        max >= 1,
    ensures
        1 <= split_max(s, c, max).len() <= max,
        split_max(s, c, max).len() <= s.len() + 1,
    decreases s.len(),
{
    if s.len() > 0 {
        lemma_split_len(s.drop_last(), c, max);
    }
}

/// A limit that is not reached does not count.
proof fn lemma_enough(s: Seq<char>, c: char, a: nat, b: nat)
    requires
        s.len() < a,
        s.len() < b,
    ensures
        split_max(s, c, a) == split_max(s, c, b),
    decreases s.len(),
{
    if s.len() > 0 {
        lemma_enough(s.drop_last(), c, a, b);
        lemma_split_len(s.drop_last(), c, a);
    }
}

/// A text without the separator is one part.
pub proof fn lemma_one_part(s: Seq<char>, c: char)
    requires
        !s.contains(c),
    ensures
        split(s, c) == seq![s],
    decreases s.len(),
{
    if s.len() > 0 {
        let t = s.drop_last();
        assert forall|i: int| 0 <= i < t.len() implies t[i] != c by {
            assert(s.contains(s[i]));
        }
        lemma_one_part(t, c);
        lemma_enough(t, c, t.len() + 1, s.len() + 1);
        assert(s.contains(s.last()));
        assert(t.push(s.last()) =~= s);
        let p = split_max(t, c, s.len() + 1);
        assert(p == seq![t]);
        assert(p.drop_last().push(p.last().push(s.last())) =~= seq![s]);
    } else {
        assert(s =~= Seq::<char>::empty());
    }
}

/// A separator, and what has none behind it, are one more part.
pub proof fn lemma_next_part(s: Seq<char>, c: char, t: Seq<char>)
    requires
        !t.contains(c),
    ensures
        split(s + seq![c] + t, c) == split(s, c).push(t),
    decreases t.len(),
{
    let a = s + seq![c] + t;
    let b = a.drop_last();
    lemma_split_len(s, c, s.len() + 1);
    lemma_enough(b, c, b.len() + 1, a.len() + 1);
    if t.len() == 0 {
        assert(b =~= s);
        assert(a.last() == c);
        assert(t =~= Seq::<char>::empty());
    } else {
        let u = t.drop_last();
        assert forall|i: int| 0 <= i < u.len() implies u[i] != c by {
            assert(t.contains(t[i]));
        }
        lemma_next_part(s, c, u);
        assert(b =~= s + seq![c] + u);
        assert(t.contains(t.last()));
        assert(a.last() == t.last());
        assert(u.push(t.last()) =~= t);
        let p = split_max(b, c, a.len() + 1);
        assert(p == split(s, c).push(u));
        assert(p.drop_last().push(p.last().push(a.last())) =~= split(s, c).push(t));
    }
}

/// Every character is a separator or stands in a part.
pub proof fn lemma_in_part(s: Seq<char>, c: char, max: nat, i: int)
    requires
        max >= 1,
        0 <= i < s.len(),
        s[i] != c,
    ensures
        exists|k: int|
            0 <= k < split_max(s, c, max).len() && (#[trigger] split_max(s, c, max)[k]).contains(
                s[i],
            ),
    decreases s.len(),
{
    let before = split_max(s.drop_last(), c, max);
    let all = split_max(s, c, max);
    lemma_split_len(s.drop_last(), c, max);
    if i == s.len() - 1 {
        let k = before.len() - 1;
        assert(all[k] == before.last().push(s.last()));
        assert(all[k][before.last().len() as int] == s[i]);
        assert(all[k].contains(s[i]));
    } else {
        lemma_in_part(s.drop_last(), c, max, i);
        let k = choose|k: int| 0 <= k < before.len() && (#[trigger] before[k]).contains(s[i]);
        let m = choose|m: int| 0 <= m < before[k].len() && before[k][m] == s[i];
        assert(all[k][m] == s[i]);
        assert(all[k].contains(s[i]));
    }
}

fn parts_upto(s: &str, c: char, max: u128) -> (r: Vec<String>)
    requires
        max >= 1,
    ensures
        text::strs(r@) == split_max(s@, c, max as nat),
        1 <= r.len() <= max,
{
    let v: Vec<char> = chars_of(s);
    let mut done: Vec<String> = no_lines();
    let mut start: usize = 0;
    let mut i: usize = 0;
    proof {
        assert(s@.take(0).len() == 0);
        assert(s@.subrange(0, 0) =~= Seq::<char>::empty());
        assert(text::strs(done@).push(s@.subrange(0, 0)) =~= split_max(s@.take(0), c, max as nat));
    }
    while i < v.len()
        invariant
            start <= i <= v.len(),
            v@ == s@,
            1 <= max,
            done.len() < max,
            text::strs(done@).push(s@.subrange(start as int, i as int)) == split_max(
                s@.take(i as int),
                c,
                max as nat,
            ),
        decreases v.len() - i,
    {
        let ghost before = split_max(s@.take(i as int), c, max as nat);
        let ghost was = text::strs(done@);
        proof {
            assert(s@.take(i + 1).drop_last() =~= s@.take(i as int));
            assert(before.drop_last() =~= was);
        }
        if v[i] == c && (done.len() as u128) + 1 < max {
            say(&mut done, cut(s, start, i));
            start = i + 1;
            proof {
                assert(s@.subrange(start as int, i + 1) =~= Seq::<char>::empty());
                assert(text::strs(done@) =~= before);
            }
        } else {
            proof {
                assert(s@.subrange(start as int, i + 1) =~= s@.subrange(
                    start as int,
                    i as int,
                ).push(v@[i as int]));
            }
        }
        i = i + 1;
    }
    say(&mut done, cut(s, start, i));
    proof {
        assert(s@.take(i as int) =~= s@);
    }
    done
}

/// Break `s` at the separators `c` into at most `max` parts.
pub fn parts_max(s: &str, c: char, max: usize) -> (r: Vec<String>)
    requires
        max >= 1,
    ensures
        text::strs(r@) == split_max(s@, c, max as nat),
        1 <= r.len() <= max,
{
    parts_upto(s, c, max as u128)
}

/// Break `s` at the separators `c`.
pub fn parts(s: &str, c: char) -> (r: Vec<String>)
    ensures
        text::strs(r@) == split(s@, c),
        1 <= r.len(),
{
    let n: usize = chars_of(s).len();
    parts_upto(s, c, n as u128 + 1)
}

/// The text joined from the parts, with `sep` between them.
pub open spec fn join(parts: Seq<Seq<char>>, sep: Seq<char>) -> Seq<char>
    decreases parts.len(),
{
    if parts.len() == 0 {
        Seq::empty()
    } else if parts.len() == 1 {
        parts[0]
    } else {
        join(parts.drop_last(), sep) + sep + parts.last()
    }
}

/// Join the parts, with `sep` between them.
pub fn joined(v: &Vec<String>, sep: &str) -> (r: String)
    ensures
        r@ == join(text::strs(v@), sep@),
{
    let mut r: String = String::new();
    let mut i: usize = 0;
    proof {
        assert(text::strs(v@).take(0).len() == 0);
    }
    while i < v.len()
        invariant
            i <= v.len(),
            r@ == join(text::strs(v@).take(i as int), sep@),
        decreases v.len() - i,
    {
        proof {
            let t = text::strs(v@);
            assert(t.take(i + 1).drop_last() =~= t.take(i as int));
            assert(t.take(i + 1).last() == v@[i as int]@);
        }
        if i == 0 {
            r = v[i].clone();
        } else {
            r.append(sep);
            r.append(v[i].as_str());
        }
        i = i + 1;
    }
    proof {
        assert(text::strs(v@).take(i as int) =~= text::strs(v@));
    }
    r
}

/// A line without the carriage return before its line feed.
pub open spec fn strip_cr(s: Seq<char>) -> Seq<char> {
    if s.len() > 0 && s.last() == '\r' {
        s.drop_last()
    } else {
        s
    }
}

/// The lines of a text: each ends with a line feed, or a carriage return and a
/// line feed, which is optional after the last line.
pub open spec fn lines(s: Seq<char>) -> Seq<Seq<char>> {
    let p = split(s, '\n');
    p.drop_last().map_values(|l: Seq<char>| strip_cr(l)) + (if p.last().len() == 0 {
        Seq::empty()
    } else {
        seq![p.last()]
    })
}

/// The lines of a text.
pub fn lines_of(s: &str) -> (r: Vec<String>)
    ensures
        text::strs(r@) == lines(s@),
{
    let p: Vec<String> = parts(s, '\n');
    let mut r: Vec<String> = no_lines();
    let mut i: usize = 0;
    let ghost t = text::strs(p@).drop_last().map_values(|l: Seq<char>| strip_cr(l));
    proof {
        assert(t.take(0) =~= Seq::<Seq<char>>::empty());
    }
    while i + 1 < p.len()
        invariant
            i < p.len(),
            t == text::strs(p@).drop_last().map_values(|l: Seq<char>| strip_cr(l)),
            text::strs(r@) == t.take(i as int),
        decreases p.len() - i,
    {
        let cs: Vec<char> = chars_of(p[i].as_str());
        let l: String = if cs.len() > 0 && cs[cs.len() - 1] == '\r' {
            proof {
                assert(p@[i as int]@.subrange(0, cs@.len() - 1) =~= p@[i as int]@.drop_last());
            }
            cut(p[i].as_str(), 0, cs.len() - 1)
        } else {
            p[i].clone()
        };
        say(&mut r, l);
        proof {
            assert(t[i as int] == strip_cr(p@[i as int]@));
            assert(t.take(i + 1) =~= t.take(i as int).push(t[i as int]));
        }
        i = i + 1;
    }
    proof {
        assert(t.take(i as int) =~= t);
        assert(text::strs(p@).last() == p@[i as int]@);
    }
    if !p[i].as_str().is_empty() {
        say(&mut r, p[i].clone());
    }
    proof {
        assert(text::strs(r@) =~= lines(s@));
    }
    r
}

/// One part of an id of the form `Kind/namespace/name`, counted from 0.
pub open spec fn id_part(id: Seq<char>, k: int) -> Seq<char> {
    let p = split_max(id, '/', 3);
    if k < p.len() {
        p[k]
    } else {
        Seq::empty()
    }
}

/// The three parts of an id of the form `Kind/namespace/name`; the name may
/// hold further slashes.
pub fn split_id(id: &str) -> (r: (String, String, String))
    ensures
        r.0@ == id_part(id@, 0),
        r.1@ == id_part(id@, 1),
        r.2@ == id_part(id@, 2),
{
    let p: Vec<String> = parts_max(id, '/', 3);
    proof {
        assert(forall|i: int| 0 <= i < p@.len() ==> text::strs(p@)[i] == p@[i]@);
    }
    let a: String = p[0].clone();
    let b: String = if p.len() > 1 {
        p[1].clone()
    } else {
        String::new()
    };
    let c: String = if p.len() > 2 {
        p[2].clone()
    } else {
        String::new()
    };
    (a, b, c)
}

/// How an owner is called in titles: its kind and name.
pub open spec fn owner_name(id: Seq<char>) -> Seq<char> {
    id_part(id, 0) + " "@ + id_part(id, 2)
}

/// The kind and name of an owner.
pub fn owner_label(id: &str) -> (r: String)
    ensures
        r@ == owner_name(id@),
{
    let p: (String, String, String) = split_id(id);
    cat3(p.0.as_str(), " ", p.2.as_str())
}

} // verus!
