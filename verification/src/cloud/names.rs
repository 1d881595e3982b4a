//! What the names of load balancers say, and which of them the cluster points
//! at.

use crate::model;
use crate::model::{target, ClusterGraph, Target, TargetView};
use crate::pick;
use crate::scan;
use crate::scan::{chars_of, ends, has, trimmed};
use crate::split;
use crate::split::{lines_of, parts};
use crate::text;
use crate::text::{cat2, same};
use vstd::prelude::*;

verus! {

broadcast use crate::pick::lemma_add_nothing;

/// What the last line of a text says; an empty text says nothing.
pub open spec fn last_line(s: Seq<char>) -> Seq<char> {
    if split::lines(s).len() == 0 {
        s
    } else {
        split::lines(s).last()
    }
}

/// What to tell the user about an error of the AWS CLI.
pub open spec fn aws_advice(stderr: Seq<char>) -> Seq<char> {
    let e = scan::trim(stderr);
    if scan::contains(e, "ExpiredToken"@) || scan::contains(e, "expired"@) || scan::contains(
        e,
        "Token has expired"@,
    ) {
        "Your AWS session has expired. Run `aws sso login` (or refresh your credentials), then refresh Tessera."@
    } else if scan::contains(e, "AccessDenied"@) || scan::contains(e, "UnauthorizedOperation"@)
        || scan::contains(e, "not authorized"@) {
        "Your AWS identity isn't allowed to read load balancers. It needs elasticloadbalancing:Describe* permissions."@
    } else if scan::contains(e, "Unable to locate credentials"@) || scan::contains(
        e,
        "could not be found"@,
    ) {
        "No AWS credentials were found for cloud checks. Set a profile in Tessera's settings or in your kubeconfig."@
    } else {
        "AWS CLI error: "@ + last_line(e)
    }
}

/// Explain an error of the AWS CLI.
pub fn explain_aws_error(stderr: &str) -> (r: String)
    ensures
        r@ == aws_advice(stderr@),
{
    let e: String = trimmed(stderr);
    let s: &str = e.as_str();
    if has(s, "ExpiredToken") || has(s, "expired") || has(s, "Token has expired") {
        "Your AWS session has expired. Run `aws sso login` (or refresh your credentials), then refresh Tessera.".to_owned()
    } else if has(s, "AccessDenied") || has(s, "UnauthorizedOperation") || has(s, "not authorized") {
        "Your AWS identity isn't allowed to read load balancers. It needs elasticloadbalancing:Describe* permissions.".to_owned()
    } else if has(s, "Unable to locate credentials") || has(s, "could not be found") {
        "No AWS credentials were found for cloud checks. Set a profile in Tessera's settings or in your kubeconfig.".to_owned()
    } else {
        let lines: Vec<String> = lines_of(s);
        let n: usize = lines.len();
        if n == 0 {
            cat2("AWS CLI error: ", s)
        } else {
            proof {
                assert(text::strs(lines@)[n - 1] == lines@[n - 1]@);
            }
            cat2("AWS CLI error: ", lines[n - 1].as_str())
        }
    }
}

/// Is it two small letters?
pub open spec fn is_area(s: Seq<char>) -> bool {
    s.len() == 2 && 'a' <= s[0] <= 'z' && 'a' <= s[1] <= 'z'
}

/// Is it a number, with at least one digit?
pub open spec fn is_number(s: Seq<char>) -> bool {
    s.len() > 0 && forall|i: int| 0 <= i < s.len() ==> '0' <= #[trigger] s[i] <= '9'
}

/// Does it look like a region, such as `us-east-1`?
pub open spec fn is_region(s: Seq<char>) -> bool {
    let p = split::split(s, '-');
    p.len() >= 3 && is_area(p[0]) && is_number(p.last())
}

/// The region beside the part at an index: the part behind it if that looks like
/// one, else the part before it.
pub open spec fn region_beside(p: Seq<Seq<char>>, i: int) -> Option<Seq<char>> {
    if i + 1 < p.len() && is_region(p[i + 1]) {
        Some(p[i + 1])
    } else if 0 < i && is_region(p[i - 1]) {
        Some(p[i - 1])
    } else {
        None
    }
}

/// Is it the part that all names of load balancers have?
pub open spec fn is_mark(p: Seq<char>) -> bool {
    p == "elb"@
}

/// The region beside the part that all names of load balancers have.
pub open spec fn region_at_mark(p: Seq<Seq<char>>) -> Option<Seq<char>> {
    match pick::last(p.len() as int, |i: int| is_mark(p[i])) {
        Some(i) => region_beside(p, i),
        None => None,
    }
}

/// The first part that looks like a region.
pub open spec fn first_region(p: Seq<Seq<char>>) -> Option<Seq<char>> {
    match pick::first(p.len() as int, |i: int| is_region(p[i])) {
        Some(i) => Some(p[i]),
        None => None,
    }
}

/// The region that a DNS name holds. In the name of a load balancer, such as
/// `name.region.elb.amazonaws.com` or `name.elb.region.amazonaws.com`, it is the
/// part beside `elb`. Where no region stands there, it is the first part that
/// looks like one.
pub open spec fn region_in(dns: Seq<char>) -> Option<Seq<char>> {
    let p = split::split(dns, '.');
    match region_at_mark(p) {
        Some(r) => Some(r),
        None => first_region(p),
    }
}

fn area(s: &str) -> (r: bool)
    ensures
        r == is_area(s@),
{
    let c: Vec<char> = chars_of(s);
    c.len() == 2 && 'a' <= c[0] && c[0] <= 'z' && 'a' <= c[1] && c[1] <= 'z'
}

fn number(s: &str) -> (r: bool)
    ensures
        r == is_number(s@),
{
    let c: Vec<char> = chars_of(s);
    let mut i: usize = 0;
    while i < c.len()
        invariant
            i <= c@.len(),
            c@ == s@,
            forall|j: int| 0 <= j < i ==> '0' <= #[trigger] s@[j] <= '9',
        decreases c@.len() - i,
    {
        if !('0' <= c[i] && c[i] <= '9') {
            return false;
        }
        i = i + 1;
    }
    c.len() > 0
}

fn looks_like_region(s: &str) -> (r: bool)
    ensures
        r == is_region(s@),
{
    let p: Vec<String> = parts(s, '-');
    let n: usize = p.len();
    proof {
        let v = text::strs(p@);
        if n >= 3 {
            assert(v[0] == p@[0]@);
            assert(v[n - 1] == p@[n - 1]@);
        }
    }
    n >= 3 && area(p[0].as_str()) && number(p[n - 1].as_str())
}

fn mark_at(p: &Vec<String>) -> (r: Option<usize>)
    ensures
        match r {
            Some(k) => k < p@.len() && pick::last(
                p@.len() as int,
                |i: int| is_mark(text::strs(p@)[i]),
            ) == Some(k as int),
            None => pick::last(p@.len() as int, |i: int| is_mark(text::strs(p@)[i])) is None,
        },
{
    let ghost v = text::strs(p@);
    let ghost q = |i: int| is_mark(v[i]);
    let mut r: Option<usize> = None;
    let mut i: usize = 0;
    while i < p.len()
        invariant
            i <= p@.len(),
            v == text::strs(p@),
            q == (|i: int| is_mark(v[i])),
            match r {
                Some(k) => k < i && pick::last(i as int, q) == Some(k as int),
                None => pick::last(i as int, q) is None,
            },
        decreases p@.len() - i,
    {
        proof {
            assert(v[i as int] == p@[i as int]@);
        }
        if same(p[i].as_str(), "elb") {
            r = Some(i);
        }
        i = i + 1;
    }
    r
}

fn region_near_mark(p: &Vec<String>) -> (r: Option<String>)
    ensures
        text::opt(r) == region_at_mark(text::strs(p@)),
{
    match mark_at(p) {
        Some(i) => {
            proof {
                let v = text::strs(p@);
                assert(i + 1 < p@.len() ==> v[i + 1] == p@[i + 1]@);
                assert(i > 0 ==> v[i - 1] == p@[i - 1]@);
            }
            if p.len() - i > 1 && looks_like_region(p[i + 1].as_str()) {
                Some(p[i + 1].clone())
            } else if i > 0 && looks_like_region(p[i - 1].as_str()) {
                Some(p[i - 1].clone())
            } else {
                None
            }
        },
        None => None,
    }
}

fn find_region(p: &Vec<String>) -> (r: Option<String>)
    ensures
        text::opt(r) == first_region(text::strs(p@)),
{
    let ghost v = text::strs(p@);
    let ghost q = |i: int| is_region(v[i]);
    let mut i: usize = 0;
    while i < p.len()
        invariant
            i <= p@.len(),
            v == text::strs(p@),
            q == (|i: int| is_region(v[i])),
            forall|j: int| 0 <= j < i ==> !#[trigger] q(j),
        decreases p@.len() - i,
    {
        proof {
            assert(v[i as int] == p@[i as int]@);
        }
        if looks_like_region(p[i].as_str()) {
            proof {
                assert(q(i as int));
                pick::lemma_first(v.len() as int, q);
            }
            return Some(p[i].clone());
        }
        i = i + 1;
    }
    proof {
        pick::lemma_first(v.len() as int, q);
    }
    None
}

/// Extract the AWS region from the DNS name of a load balancer.
pub fn region_from_dns(dns: &str) -> (r: Option<String>)
    ensures
        text::opt(r) == region_in(dns@),
{
    let p: Vec<String> = parts(dns, '.');
    match region_near_mark(&p) {
        Some(r) => Some(r),
        None => find_region(&p),
    }
}

/// The parts of a DNS name with one more part.
proof fn lemma_label(s: Seq<char>, dotted: Seq<char>, t: Seq<char>)
    requires
        dotted == seq!['.'] + t,
        !t.contains('.'),
    ensures
        split::split(s + dotted, '.') == split::split(s, '.').push(t),
{
    split::lemma_next_part(s, '.', t);
    assert(s + dotted =~= s + seq!['.'] + t);
}

/// A load balancer is in the region of its name, whatever else the name says.
pub proof fn balancers_are_in_the_region_of_their_name(name: Seq<char>, region: Seq<char>)
    requires
        is_region(region),
        !region.contains('.'),
    ensures
        region_in(name + "."@ + region + ".elb.amazonaws.com"@) == Some(region),
        region_in(name + ".elb."@ + region + ".amazonaws.com"@) == Some(region),
{
    reveal_strlit(".");
    reveal_strlit("elb");
    reveal_strlit(".elb.");
    reveal_strlit(".amazonaws.com");
    reveal_strlit(".elb.amazonaws.com");
    let elb = seq!['e', 'l', 'b'];
    let aws = seq!['a', 'm', 'a', 'z', 'o', 'n', 'a', 'w', 's'];
    let com = seq!['c', 'o', 'm'];
    let n = split::split(name, '.');
    let dot = seq!['.'];
    assert("elb"@ =~= elb);
    split::lemma_one_part(aws, '-');

    let a = name + (dot + region);
    lemma_label(name, dot + region, region);
    lemma_label(a, dot + elb, elb);
    lemma_label(a + (dot + elb), dot + aws, aws);
    lemma_label(a + (dot + elb) + (dot + aws), dot + com, com);
    let x = a + (dot + elb) + (dot + aws) + (dot + com);
    assert(x =~= name + "."@ + region + ".elb.amazonaws.com"@);
    let p = split::split(x, '.');
    let m = n.len() as int;
    let q = |i: int| is_mark(p[i]);
    reveal_with_fuel(pick::last, 4);
    assert(p.len() == m + 4 && p[m] == region && p[m + 1] == elb && p[m + 2] == aws && p[m + 3]
        == com);
    assert(!q(m + 3) && !q(m + 2) && q(m + 1)) by {
        assert(com[0] == 'c' && elb[0] == 'e' && aws[0] == 'a');
    }
    assert(pick::last(p.len() as int, q) == Some(m + 1));

    lemma_label(name, dot + elb, elb);
    lemma_label(name + (dot + elb), dot + region, region);
    lemma_label(name + (dot + elb) + (dot + region), dot + aws, aws);
    lemma_label(name + (dot + elb) + (dot + region) + (dot + aws), dot + com, com);
    let y = name + (dot + elb) + (dot + region) + (dot + aws) + (dot + com);
    assert(y =~= name + ".elb."@ + region + ".amazonaws.com"@);
    let o = split::split(y, '.');
    let u = |i: int| is_mark(o[i]);
    assert(o.len() == m + 4 && o[m] == elb && o[m + 1] == region && o[m + 2] == aws && o[m + 3]
        == com);
    assert(!u(m + 3) && !u(m + 2) && u(m)) by {
        assert(com[0] == 'c' && elb[0] == 'e' && aws[0] == 'a');
    }
    assert(!u(m + 1)) by {
        if region == elb {
            split::lemma_one_part(elb, '-');
        }
    }
    assert(pick::last(o.len() as int, u) == Some(m));
}

/// Objects with the DNS names that they have.
pub open spec fn named(v: Seq<(Target, String)>) -> Seq<(TargetView, Seq<char>)> {
    v.map_values(|e: (Target, String)| (e.0@, e.1@))
}

/// An object with each of the first `n` DNS names.
pub open spec fn with_names(t: TargetView, names: Seq<String>, n: int) -> Seq<
    (TargetView, Seq<char>),
> {
    pick::gather(n, |i: int| seq![(t, names[i]@)])
}

/// The addresses of the first `n` ingresses.
pub open spec fn of_ingresses(g: ClusterGraph, n: int) -> Seq<(TargetView, Seq<char>)> {
    pick::gather(
        n,
        |i: int|
            with_names(
                model::target_view(
                    "Ingress"@,
                    g.ingresses@[i].namespace@,
                    g.ingresses@[i].name@,
                ),
                g.ingresses@[i].addresses@,
                g.ingresses@[i].addresses@.len() as int,
            ),
    )
}

/// The addresses of those of the first `n` services that have a load balancer.
pub open spec fn of_services(g: ClusterGraph, n: int) -> Seq<(TargetView, Seq<char>)> {
    pick::gather(
        n,
        |i: int|
            if g.services@[i].type_@ == "LoadBalancer"@ {
                with_names(
                    model::target_view(
                        "Service"@,
                        g.services@[i].namespace@,
                        g.services@[i].name@,
                    ),
                    g.services@[i].external@,
                    g.services@[i].external@.len() as int,
                )
            } else {
                Seq::empty()
            },
    )
}

/// Does the name belong to a load balancer of AWS?
pub open spec fn is_elb(dns: Seq<char>) -> bool {
    scan::contains(dns, ".elb."@) && scan::ends_with(dns, "amazonaws.com"@)
}

/// Those of the first `n` that belong to a load balancer of AWS. A name that
/// occurs again counts for the first object alone.
pub open spec fn elbs(c: Seq<(TargetView, Seq<char>)>, n: int) -> Seq<(TargetView, Seq<char>)> {
    pick::gather(
        n,
        |k: int|
            if is_elb(c[k].1) && forall|j: int| 0 <= j < k ==> (#[trigger] c[j]).1 != c[k].1 {
                seq![c[k]]
            } else {
                Seq::empty()
            },
    )
}

/// The load balancers of AWS that the cluster points at, each with the object
/// that has it.
pub open spec fn balancers(g: ClusterGraph) -> Seq<(TargetView, Seq<char>)> {
    let c = of_ingresses(g, g.ingresses@.len() as int) + of_services(g, g.services@.len() as int);
    elbs(c, c.len() as int)
}

fn name_all(out: &mut Vec<(Target, String)>, kind: &str, ns: &str, name: &str, v: &Vec<String>)
    ensures
        named(final(out)@) == named(old(out)@) + with_names(
            model::target_view(kind@, ns@, name@),
            v@,
            v@.len() as int,
        ),
{
    let ghost was = named(out@);
    let ghost t = model::target_view(kind@, ns@, name@);
    let mut i: usize = 0;
    while i < v.len()
        invariant
            i <= v@.len(),
            t == model::target_view(kind@, ns@, name@),
            named(out@) == was + with_names(t, v@, i as int),
        decreases v@.len() - i,
    {
        let ghost now = out@;
        out.push((target(kind, ns, name), v[i].clone()));
        proof {
            assert(named(out@) =~= named(now).push((t, v@[i as int]@)));
            assert(was + with_names(t, v@, i + 1) =~= (was + with_names(t, v@, i as int)).push(
                (t, v@[i as int]@),
            ));
        }
        i = i + 1;
    }
}

fn candidates(g: &ClusterGraph) -> (r: Vec<(Target, String)>)
    ensures
        named(r@) == of_ingresses(*g, g.ingresses@.len() as int) + of_services(
            *g,
            g.services@.len() as int,
        ),
{
    let mut r: Vec<(Target, String)> = Vec::new();
    let mut i: usize = 0;
    proof {
        assert(named(r@) =~= of_ingresses(*g, 0));
    }
    while i < g.ingresses.len()
        invariant
            i <= g.ingresses@.len(),
            named(r@) == of_ingresses(*g, i as int),
        decreases g.ingresses@.len() - i,
    {
        name_all(
            &mut r,
            "Ingress",
            g.ingresses[i].namespace.as_str(),
            g.ingresses[i].name.as_str(),
            &g.ingresses[i].addresses,
        );
        i = i + 1;
    }
    let ghost was = named(r@);
    let mut i: usize = 0;
    proof {
        assert(named(r@) =~= was + of_services(*g, 0));
    }
    while i < g.services.len()
        invariant
            i <= g.services@.len(),
            named(r@) == was + of_services(*g, i as int),
        decreases g.services@.len() - i,
    {
        if same(g.services[i].type_.as_str(), "LoadBalancer") {
            let ghost now = named(r@);
            name_all(
                &mut r,
                "Service",
                g.services[i].namespace.as_str(),
                g.services[i].name.as_str(),
                &g.services[i].external,
            );
            proof {
                assert(named(r@) =~= was + of_services(*g, i + 1));
            }
        }
        i = i + 1;
    }
    r
}

fn seen_before(c: &Vec<(Target, String)>, k: usize) -> (r: bool)
    requires
        k < c@.len(),
    ensures
        r == !(forall|j: int| 0 <= j < k ==> (#[trigger] named(c@)[j]).1 != named(c@)[k as int].1),
{
    let ghost s = named(c@);
    let mut j: usize = 0;
    while j < k
        invariant
            j <= k < c@.len(),
            s == named(c@),
            forall|m: int| 0 <= m < j ==> (#[trigger] s[m]).1 != s[k as int].1,
        decreases k - j,
    {
        proof {
            assert(s[j as int].1 == c@[j as int].1@);
            assert(s[k as int].1 == c@[k as int].1@);
        }
        if same(c[j].1.as_str(), c[k].1.as_str()) {
            return true;
        }
        j = j + 1;
    }
    false
}

/// Load balancers that the cluster points at, with the object that owns each.
pub fn aws_load_balancers(g: &ClusterGraph) -> (r: Vec<(Target, String)>)
    ensures
        named(r@) == balancers(*g),
{
    let c: Vec<(Target, String)> = candidates(g);
    let ghost s = named(c@);
    let mut r: Vec<(Target, String)> = Vec::new();
    let mut k: usize = 0;
    proof {
        assert(named(r@) =~= elbs(s, 0));
    }
    while k < c.len()
        invariant
            k <= c@.len(),
            s == named(c@),
            named(r@) == elbs(s, k as int),
        decreases c@.len() - k,
    {
        proof {
            assert(s[k as int] == (c@[k as int].0@, c@[k as int].1@));
        }
        let dns: &str = c[k].1.as_str();
        if has(dns, ".elb.") && ends(dns, "amazonaws.com") && !seen_before(&c, k) {
            let ghost now = r@;
            r.push((c[k].0.copy(), c[k].1.clone()));
            proof {
                assert(named(r@) =~= named(now).push(s[k as int]));
                assert(elbs(s, k + 1) =~= elbs(s, k as int).push(s[k as int]));
            }
        }
        k = k + 1;
    }
    r
}

} // verus!
