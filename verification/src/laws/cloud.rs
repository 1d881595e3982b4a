//! What is asked of the cloud, as whom, and what its replies mean.

use crate::cloud::access;
use crate::cloud::access::AwsEnv;
use crate::cloud::calls;
use crate::cloud::calls::{Answered, CallView, CliOutcome};
use crate::cloud::health;
use crate::cloud::names;
use crate::collect::raw::CollectOptions;
use crate::json;
use crate::json::JsonView;
use crate::kubeconfig::{EnvVar, ExecPlugin, KubeConfig};
use crate::laws::reports;
use crate::model::{ClusterGraph, TargetHealth, TargetView};
use crate::pick;
use crate::scan;
use crate::text;
use vstd::prelude::*;

verus! {

/// Is this the first node with the machine's id?
pub open spec fn is_machine(g: ClusterGraph, id: Seq<char>, i: int) -> bool {
    0 <= i < g.nodes@.len() && text::opt(g.nodes@[i].instance_id) == Some(id) && forall|j: int|
        0 <= j < i ==> text::opt((#[trigger] g.nodes@[j]).instance_id) != Some(id)
}

/// Is this the first pod with the address?
pub open spec fn is_at(g: ClusterGraph, id: Seq<char>, i: int) -> bool {
    0 <= i < g.pods@.len() && text::opt(g.pods@[i].pod_ip) == Some(id) && forall|j: int|
        0 <= j < i ==> text::opt((#[trigger] g.pods@[j]).pod_ip) != Some(id)
}

/// A target that is a machine is known by its node, and one that is an address by
/// its pod; one that is neither is not known.
pub proof fn targets_are_known_by_node_or_pod(g: ClusterGraph, t: Seq<char>, h: TargetHealth)
    ensures
        t == "instance"@ ==> (forall|i: int| #[trigger]
            is_machine(g, h.id@, i) ==> health::resolved(g, t, h.id@) == Some(
                "node:"@ + g.nodes@[i].name@,
            )) && ((forall|i: int|
            0 <= i < g.nodes@.len() ==> text::opt((#[trigger] g.nodes@[i]).instance_id) != Some(
                h.id@,
            )) ==> health::resolved(g, t, h.id@) is None),
        t != "instance"@ ==> (forall|i: int| #[trigger]
            is_at(g, h.id@, i) ==> health::resolved(g, t, h.id@) == Some(
                g.pods@[i].namespace@ + "/"@ + g.pods@[i].name@,
            )) && ((forall|i: int|
            0 <= i < g.pods@.len() ==> text::opt((#[trigger] g.pods@[i]).pod_ip) != Some(h.id@))
            ==> health::resolved(g, t, h.id@) is None),
{
    let n = g.nodes@.len() as int;
    let m = g.pods@.len() as int;
    let a = |i: int| text::opt(g.nodes@[i].instance_id) == Some(h.id@);
    let b = |i: int| text::opt(g.pods@[i].pod_ip) == Some(h.id@);
    pick::lemma_first(n, a);
    pick::lemma_first(m, b);
    if t == "instance"@ {
        assert(health::resolved(g, t, h.id@) == match pick::first(n, a) {
            Some(i) => Some("node:"@ + g.nodes@[i].name@),
            None => None,
        });
        assert forall|i: int| #[trigger] is_machine(g, h.id@, i) implies health::resolved(
            g,
            t,
            h.id@,
        ) == Some("node:"@ + g.nodes@[i].name@) by {
            assert(a(i));
            let k = pick::first(n, a)->0;
            if k < i {
                assert(a(k));
                assert(text::opt(g.nodes@[k].instance_id) != Some(h.id@));
            }
        }
        if forall|i: int|
            0 <= i < g.nodes@.len() ==> text::opt((#[trigger] g.nodes@[i]).instance_id) != Some(
                h.id@,
            ) {
            if pick::first(n, a) is Some {
                let k = pick::first(n, a)->0;
                assert(a(k));
                assert(text::opt(g.nodes@[k].instance_id) != Some(h.id@));
            }
        }
    } else {
        assert(health::resolved(g, t, h.id@) == match pick::first(m, b) {
            Some(i) => Some(g.pods@[i].namespace@ + "/"@ + g.pods@[i].name@),
            None => None,
        });
        assert forall|i: int| #[trigger] is_at(g, h.id@, i) implies health::resolved(g, t, h.id@)
            == Some(g.pods@[i].namespace@ + "/"@ + g.pods@[i].name@) by {
            assert(b(i));
            let k = pick::first(m, b)->0;
            if k < i {
                assert(b(k));
                assert(text::opt(g.pods@[k].pod_ip) != Some(h.id@));
            }
        }
        if forall|i: int|
            0 <= i < g.pods@.len() ==> text::opt((#[trigger] g.pods@[i]).pod_ip) != Some(h.id@) {
            if pick::first(m, b) is Some {
                let k = pick::first(m, b)->0;
                assert(b(k));
                assert(text::opt(g.pods@[k].pod_ip) != Some(h.id@));
            }
        }
    }
}

/// The text in a field of a field of a reply.
pub open spec fn text_in(d: JsonView, a: Seq<char>, b: Seq<char>) -> Option<Seq<char>> {
    json::as_text(json::index(json::index(d, a), b))
}

/// A target is what the reply says of it: its id, state, reason and description. A
/// state that is missing is unknown.
pub proof fn targets_are_what_the_reply_says(g: ClusterGraph, t: Seq<char>, d: JsonView)
    ensures
        ({
            let x = health::target_of(g, t, d);
            &&& text_in(d, "Target"@, "Id"@) matches Some(s) ==> x.id == s
            &&& text_in(d, "TargetHealth"@, "State"@) matches Some(s) ==> x.state == s
            &&& text_in(d, "TargetHealth"@, "State"@) is None ==> x.state == "unknown"@
            &&& x.reason == text_in(d, "TargetHealth"@, "Reason"@)
            &&& x.description == text_in(d, "TargetHealth"@, "Description"@)
            &&& x.resolved == health::resolved(g, t, x.id)
        }),
{
}

/// An instance of a classic load balancer is healthy exactly where it is in
/// service; a reason that is not applicable is none.
pub proof fn instances_are_healthy_in_service(g: ClusterGraph, s: JsonView)
    ensures
        ({
            let x = health::instance_of(g, s);
            let state = json::as_text(json::index(s, "State"@));
            &&& x.state == "healthy"@ <==> state == Some("InService"@)
            &&& state != Some("InService"@) ==> x.state == "unhealthy"@
            &&& json::as_text(json::index(s, "InstanceId"@)) matches Some(id) ==> x.id == id
            &&& json::as_text(json::index(s, "ReasonCode"@)) == Some("N/A"@) ==> x.reason is None
            &&& json::as_text(json::index(s, "ReasonCode"@)) matches Some(r) ==> (r != "N/A"@
                ==> x.reason == Some(r))
            &&& x.resolved == health::resolved(g, "instance"@, x.id)
        }),
{
    reveal_strlit("healthy");
    reveal_strlit("unhealthy");
    assert("healthy"@.len() != "unhealthy"@.len());
}

/// A load balancer whose region can't be told is not asked about: that is said.
pub proof fn balancers_without_a_region_are_not_asked_about(
    g: ClusterGraph,
    env: AwsEnv,
    lb: (TargetView, Seq<char>),
    i: usize,
    known: Seq<Answered>,
)
    requires
        names::region_in(lb.1) is None,
        env.region is None,
    ensures
        health::health_of(g, env, lb, i, known) matches Ok(h) && h.error is Some && h.source == lb.0
            && h.dns_name == lb.1 && h.target_groups.len() == 0,
{
}

/// Where the first question about a load balancer fails, its health holds the error
/// and no groups.
pub proof fn failed_questions_are_told(
    g: ClusterGraph,
    env: AwsEnv,
    lb: (TargetView, Seq<char>),
    i: usize,
    known: Seq<Answered>,
    region: Seq<char>,
    e: Seq<char>,
)
    requires
        names::region_in(lb.1) == Some(region) || (names::region_in(lb.1) is None && text::opt(
            env.region,
        ) == Some(region)),
        calls::answer(known, calls::list_v2(region)) == Some(
            Err::<JsonView, Seq<char>>(e),
        ),
    ensures
        health::health_of(g, env, lb, i, known) matches Ok(h) && h.error == Some(e)
            && h.target_groups.len() == 0 && h.provider == "aws"@,
{
}

/// Where every question about the groups of a load balancer is answered, each group
/// of the reply is there, in order; where one of the answers is an error, the error
/// is told.
pub proof fn every_group_is_there(
    g: ClusterGraph,
    region: Seq<char>,
    i: usize,
    tgs: Seq<JsonView>,
    known: Seq<Answered>,
    n: int,
)
    requires
        0 <= n <= tgs.len(),
        health::groups_of(g, region, i, tgs, known, n) is Ok,
    ensures
        ({
            let (gs, error) = health::groups_of(g, region, i, tgs, known, n)->Ok_0;
            &&& gs.len() == n
            &&& forall|k: int|
                0 <= k < n ==> (#[trigger] gs[k]).name == health::or_none(
                    json::as_text(json::index(tgs[k], "TargetGroupName"@)),
                )
            &&& (exists|k: int|
                0 <= k < n && (#[trigger] health_reply(region, i, tgs, known, k)) is Err)
                ==> error is Some
            &&& (forall|k: int|
                0 <= k < n ==> (#[trigger] health_reply(region, i, tgs, known, k)) is Ok)
                ==> error is None
        }),
    decreases n,
{
    if n > 0 {
        every_group_is_there(g, region, i, tgs, known, n - 1);
        let (gs, error) = health::groups_of(g, region, i, tgs, known, n)->Ok_0;
        let (hs, before) = health::groups_of(g, region, i, tgs, known, n - 1)->Ok_0;
        assert(gs.len() == hs.len() + 1);
        assert forall|k: int| 0 <= k < n implies (#[trigger] gs[k]).name == health::or_none(
            json::as_text(json::index(tgs[k], "TargetGroupName"@)),
        ) by {
            if k < n - 1 {
                assert(gs[k] == hs[k]);
            }
        }
        if exists|k: int| 0 <= k < n && (#[trigger] health_reply(region, i, tgs, known, k)) is Err {
            let k = choose|k: int|
                0 <= k < n && (#[trigger] health_reply(region, i, tgs, known, k)) is Err;
            if k < n - 1 {
                assert(health_reply(region, i, tgs, known, k) is Err);
                assert(before is Some);
            }
        }
        if forall|k: int|
            0 <= k < n ==> (#[trigger] health_reply(region, i, tgs, known, k)) is Ok {
            assert(health_reply(region, i, tgs, known, n - 1) is Ok);
        }
    }
}

/// The answer about the health of a group, where there is one.
pub open spec fn health_reply(
    region: Seq<char>,
    i: usize,
    tgs: Seq<JsonView>,
    known: Seq<Answered>,
    k: int,
) -> Result<JsonView, Seq<char>> {
    calls::answer(
        known,
        calls::list_health(region, i, k as usize, health::group_arn(tgs[k])),
    )->0
}

/// Is this the name of a load balancer of the cloud?
pub open spec fn is_balancer_name(dns: Seq<char>) -> bool {
    scan::contains(dns, ".elb."@) && scan::ends_with(dns, "amazonaws.com"@)
}

proof fn lemma_elbs(c: Seq<(TargetView, Seq<char>)>, dns: Seq<char>, n: int)
    requires
        0 <= n <= c.len(),
    ensures
        (exists|k: int| 0 <= k < names::elbs(c, n).len() && (#[trigger] names::elbs(c, n)[k]).1 == dns)
            <==> is_balancer_name(dns) && exists|k: int| 0 <= k < n && (#[trigger] c[k]).1 == dns,
        forall|j: int, k: int|
            0 <= j < k < names::elbs(c, n).len() ==> (#[trigger] names::elbs(c, n)[j]).1
                != (#[trigger] names::elbs(c, n)[k]).1,
        forall|k: int|
            0 <= k < names::elbs(c, n).len() ==> exists|m: int|
                0 <= m < n && c[m] == #[trigger] names::elbs(c, n)[k] && is_balancer_name(c[m].1),
    decreases n,
{
    if n > 0 {
        lemma_elbs(c, dns, n - 1);
        let a = names::elbs(c, n - 1);
        let b = names::elbs(c, n);
        let x = c[n - 1];
        let added = names::is_elb(x.1) && forall|j: int| 0 <= j < n - 1 ==> (#[trigger] c[j]).1 != x.1;
        assert(b == if added {
            a + seq![x]
        } else {
            a + Seq::<(TargetView, Seq<char>)>::empty()
        });
        assert forall|k: int| 0 <= k < b.len() implies exists|m: int|
            0 <= m < n && c[m] == #[trigger] b[k] && is_balancer_name(c[m].1) by {
            if k < a.len() {
                assert(b[k] == a[k]);
                let m = choose|m: int|
                    0 <= m < n - 1 && c[m] == #[trigger] a[k] && is_balancer_name(c[m].1);
                assert(c[m] == b[k]);
            } else {
                assert(c[n - 1] == b[k]);
            }
        }
        assert forall|j: int, k: int| 0 <= j < k < b.len() implies (#[trigger] b[j]).1
            != (#[trigger] b[k]).1 by {
            assert(b[j] == a[j]);
            if k < a.len() {
                assert(b[k] == a[k]);
            } else {
                let m = choose|m: int|
                    0 <= m < n - 1 && c[m] == #[trigger] a[j] && is_balancer_name(c[m].1);
                assert(c[m].1 != x.1);
            }
        }
        if exists|k: int| 0 <= k < b.len() && (#[trigger] b[k]).1 == dns {
            let k = choose|k: int| 0 <= k < b.len() && (#[trigger] b[k]).1 == dns;
            let m = choose|m: int|
                0 <= m < n && c[m] == #[trigger] b[k] && is_balancer_name(c[m].1);
            assert(c[m].1 == dns);
        }
        if is_balancer_name(dns) && exists|k: int| 0 <= k < n && (#[trigger] c[k]).1 == dns {
            if exists|k: int| 0 <= k < n - 1 && (#[trigger] c[k]).1 == dns {
                let k = choose|k: int| 0 <= k < a.len() && (#[trigger] a[k]).1 == dns;
                assert(b[k].1 == dns);
            } else {
                assert(c[n - 1].1 == dns);
                assert forall|j: int| 0 <= j < n - 1 implies (#[trigger] c[j]).1 != x.1 by {
                }
                assert(b[a.len() as int].1 == dns);
            }
        }
    }
}

/// Every address of an ingress that is the name of a load balancer of the cloud is
/// among those whose health is read, and no name is there twice.
pub proof fn balancers_of_ingresses_are_read(g: ClusterGraph, i: int, k: int)
    requires
        0 <= i < g.ingresses@.len(),
        0 <= k < g.ingresses@[i].addresses@.len(),
        is_balancer_name(g.ingresses@[i].addresses@[k]@),
    ensures
        exists|m: int|
            0 <= m < names::balancers(g).len() && (#[trigger] names::balancers(g)[m]).1
                == g.ingresses@[i].addresses@[k]@,
        forall|m: int, n: int|
            0 <= m < n < names::balancers(g).len() ==> (#[trigger] names::balancers(g)[m]).1
                != (#[trigger] names::balancers(g)[n]).1,
{
    let a = names::of_ingresses(g, g.ingresses@.len() as int);
    let b = names::of_services(g, g.services@.len() as int);
    let ing = g.ingresses@[i];
    let t = crate::model::target_view("Ingress"@, ing.namespace@, ing.name@);
    let x = (t, ing.addresses@[k]@);
    let f = |k: int| seq![(t, ing.addresses@[k]@)];
    assert(f(k)[0] == x);
    reports::lemma_gathered(ing.addresses@.len() as int, f, k, x);
    assert(names::with_names(t, ing.addresses@, ing.addresses@.len() as int) == pick::gather(
        ing.addresses@.len() as int,
        f,
    ));
    let e = |i: int|
        names::with_names(
            crate::model::target_view(
                "Ingress"@,
                g.ingresses@[i].namespace@,
                g.ingresses@[i].name@,
            ),
            g.ingresses@[i].addresses@,
            g.ingresses@[i].addresses@.len() as int,
        );
    assert(e(i).contains(x));
    reports::lemma_gathered(g.ingresses@.len() as int, e, i, x);
    assert(a == pick::gather(g.ingresses@.len() as int, e));
    let m = choose|m: int| 0 <= m < a.len() && a[m] == x;
    assert((a + b)[m] == x && (a + b)[m].1 == x.1);
    let c = a + b;
    let n = c.len() as int;
    lemma_elbs(c, x.1, n);
    assert(exists|q: int| 0 <= q < n && (#[trigger] c[q]).1 == x.1);
    let r = choose|r: int|
        0 <= r < names::elbs(c, n).len() && (#[trigger] names::elbs(c, n)[r]).1 == x.1;
    assert(names::balancers(g)[r].1 == x.1);
}

/// Every address of a service of the type `LoadBalancer` that is the name of a load
/// balancer of the cloud is among those whose health is read.
pub proof fn balancers_of_services_are_read(g: ClusterGraph, i: int, k: int)
    requires
        0 <= i < g.services@.len(),
        g.services@[i].type_@ == "LoadBalancer"@,
        0 <= k < g.services@[i].external@.len(),
        is_balancer_name(g.services@[i].external@[k]@),
    ensures
        exists|m: int|
            0 <= m < names::balancers(g).len() && (#[trigger] names::balancers(g)[m]).1
                == g.services@[i].external@[k]@,
{
    let a = names::of_ingresses(g, g.ingresses@.len() as int);
    let b = names::of_services(g, g.services@.len() as int);
    let s = g.services@[i];
    let t = crate::model::target_view("Service"@, s.namespace@, s.name@);
    let x = (t, s.external@[k]@);
    let f = |k: int| seq![(t, s.external@[k]@)];
    assert(f(k)[0] == x);
    reports::lemma_gathered(s.external@.len() as int, f, k, x);
    assert(names::with_names(t, s.external@, s.external@.len() as int) == pick::gather(
        s.external@.len() as int,
        f,
    ));
    let e = |i: int|
        if g.services@[i].type_@ == "LoadBalancer"@ {
            names::with_names(
                crate::model::target_view(
                    "Service"@,
                    g.services@[i].namespace@,
                    g.services@[i].name@,
                ),
                g.services@[i].external@,
                g.services@[i].external@.len() as int,
            )
        } else {
            Seq::empty()
        };
    assert(e(i).contains(x));
    reports::lemma_gathered(g.services@.len() as int, e, i, x);
    assert(b == pick::gather(g.services@.len() as int, e));
    let m = choose|m: int| 0 <= m < b.len() && b[m] == x;
    assert((a + b)[a.len() + m] == x && (a + b)[a.len() + m].1 == x.1);
    let c = a + b;
    let n = c.len() as int;
    lemma_elbs(c, x.1, n);
    assert(exists|q: int| 0 <= q < n && (#[trigger] c[q]).1 == x.1);
    let r = choose|r: int|
        0 <= r < names::elbs(c, n).len() && (#[trigger] names::elbs(c, n)[r]).1 == x.1;
    assert(names::balancers(g)[r].1 == x.1);
}

/// Is this the value that follows the first such argument?
pub open spec fn follows(args: Seq<String>, name: Seq<char>, i: int) -> bool {
    0 <= i && i + 1 < args.len() && args[i]@ == name && forall|j: int|
        0 <= j < i ==> (#[trigger] args[j])@ != name
}

/// Does the variable have this name, and a value?
pub open spec fn is_set(e: EnvVar, name: Seq<char>) -> bool {
    e.value is Some && (e.name matches Some(n) && n@ == name)
}

/// A profile that is set in the options is used, whatever the kubeconfig says.
pub proof fn options_come_first(
    config: Option<KubeConfig>,
    context: Seq<char>,
    opts: CollectOptions,
)
    ensures
        opts.aws_profile matches Some(p) ==> (p@.len() > 0 ==> access::profile_for(
            config,
            context,
            opts,
        ) == Some(p@)),
        opts.aws_region matches Some(r) ==> (r@.len() > 0 ==> access::region_for(
            config,
            context,
            opts,
        ) == Some(r@)),
        config is None && (opts.aws_profile is None || opts.aws_profile->0@.len() == 0)
            ==> access::profile_for(config, context, opts) is None,
        config is None && (opts.aws_region is None || opts.aws_region->0@.len() == 0)
            ==> access::region_for(config, context, opts) is None,
{
}

/// The profile of a plugin is that of the last variable that sets it, and else the
/// one that follows the argument for it.
pub proof fn the_last_variable_sets_the_profile(p: ExecPlugin, i: int)
    requires
        0 <= i < p.env@.len(),
        is_set(p.env@[i], "AWS_PROFILE"@),
        forall|j: int| i < j < p.env@.len() ==> !is_set(#[trigger] p.env@[j], "AWS_PROFILE"@),
    ensures
        access::plugin_profile(p, p.env@.len() as int) == Some(p.env@[i].value->0@),
{
    lemma_profile(p, i, p.env@.len() as int);
}

proof fn lemma_profile(p: ExecPlugin, i: int, n: int)
    requires
        0 <= i < n <= p.env@.len(),
        is_set(p.env@[i], "AWS_PROFILE"@),
        forall|j: int| i < j < p.env@.len() ==> !is_set(#[trigger] p.env@[j], "AWS_PROFILE"@),
    ensures
        access::plugin_profile(p, n) == Some(p.env@[i].value->0@),
    decreases n,
{
    if i < n - 1 {
        assert(!is_set(p.env@[n - 1], "AWS_PROFILE"@));
        lemma_profile(p, i, n - 1);
    }
}

/// Without such a variable, the profile is the value that follows its argument.
pub proof fn else_the_argument_sets_the_profile(p: ExecPlugin, i: int)
    requires
        forall|j: int| 0 <= j < p.env@.len() ==> !is_set(#[trigger] p.env@[j], "AWS_PROFILE"@),
        follows(p.args@, "--profile"@, i),
    ensures
        access::plugin_profile(p, p.env@.len() as int) == Some(p.args@[i + 1]@),
{
    lemma_no_profile(p, p.env@.len() as int);
    lemma_flag(p.args, "--profile", i);
}

proof fn lemma_no_profile(p: ExecPlugin, n: int)
    requires
        0 <= n <= p.env@.len(),
        forall|j: int| 0 <= j < p.env@.len() ==> !is_set(#[trigger] p.env@[j], "AWS_PROFILE"@),
    ensures
        access::plugin_profile(p, n) == access::flag(p.args@, "--profile"@),
    decreases n,
{
    if n > 0 {
        assert(!is_set(p.env@[n - 1], "AWS_PROFILE"@));
        lemma_no_profile(p, n - 1);
    }
}

proof fn lemma_flag(args: Vec<String>, name: &str, i: int)
    requires
        follows(args@, name@, i),
    ensures
        access::flag(args@, name@) == Some(args@[i + 1]@),
{
    let f = |i: int| args@[i]@ == name@;
    pick::lemma_first(args@.len() as int, f);
    assert(f(i));
    let k = pick::first(args@.len() as int, f)->0;
    if k < i {
        assert(f(k));
        assert(args@[k]@ != name@);
    }
    assert(pick::first(args@.len() as int, f) == Some(i));
}

/// The region of a plugin is the value that follows its argument, whatever the
/// variables.
pub proof fn the_argument_sets_the_region(p: ExecPlugin, i: int)
    requires
        follows(p.args@, "--region"@, i),
    ensures
        access::plugin_region(p, p.env@.len() as int) == Some(p.args@[i + 1]@),
{
    lemma_flag(p.args, "--region", i);
}

/// A command that ended well is read; one that did not is explained; one that could
/// not be run, or took too long, is told as such.
pub proof fn replies_are_read_or_explained(o: CliOutcome, output: Result<JsonView, Seq<char>>)
    ensures
        (o matches CliOutcome::Exited { success, stdout, stderr } && success && output is Ok)
            <==> calls::reply(o, output) is Ok,
        calls::reply(o, output) is Ok ==> calls::reply(o, output) == output,
        (o matches CliOutcome::Exited { success, stdout, stderr } && !success) ==> calls::reply(
            o,
            output,
        ) == Err::<JsonView, Seq<char>>(names::aws_advice(o->stderr@)),
{
}

/// Every command names the region that it asks in and how to answer.
pub proof fn commands_name_their_region(c: CallView)
    ensures
        ({
            let args = calls::command_args(c);
            let n = c.args.len() as int;
            &&& args.len() == n + 4
            &&& forall|i: int| 0 <= i < n ==> #[trigger] args[i] == c.args[i]
            &&& args[n] == "--region"@
            &&& args[n + 1] == c.region
            &&& args[n + 2] == "--output"@
            &&& args[n + 3] == "json"@
        }),
{
}

/// A session that has expired, an identity without permission and missing
/// credentials are explained as such, in this order; anything else is passed on.
pub proof fn errors_of_the_cloud_are_explained(stderr: Seq<char>)
    ensures
        ({
            let e = scan::trim(stderr);
            let expired = scan::contains(e, "ExpiredToken"@) || scan::contains(e, "expired"@)
                || scan::contains(e, "Token has expired"@);
            let denied = scan::contains(e, "AccessDenied"@) || scan::contains(
                e,
                "UnauthorizedOperation"@,
            ) || scan::contains(e, "not authorized"@);
            let lost = scan::contains(e, "Unable to locate credentials"@) || scan::contains(
                e,
                "could not be found"@,
            );
            &&& expired ==> names::aws_advice(stderr)
                == "Your AWS session has expired. Run `aws sso login` (or refresh your credentials), then refresh Tessera."@
            &&& !expired && denied ==> names::aws_advice(stderr)
                == "Your AWS identity isn't allowed to read load balancers. It needs elasticloadbalancing:Describe* permissions."@
            &&& !expired && !denied && lost ==> names::aws_advice(stderr)
                == "No AWS credentials were found for cloud checks. Set a profile in Tessera's settings or in your kubeconfig."@
            &&& !expired && !denied && !lost ==> names::aws_advice(stderr) == "AWS CLI error: "@
                + names::last_line(e)
        }),
{
}

} // verus!
