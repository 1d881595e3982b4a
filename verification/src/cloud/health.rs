//! Health of the load balancers that the cluster points at.

use crate::cloud::access::AwsEnv;
use crate::cloud::calls;
use crate::cloud::calls::{
    call_list_groups, call_list_health, call_list_instances, call_list_v1, call_list_v2,
    find_answer, Answered, AwsCall, CallView,
};
use crate::cloud::names;
use crate::cloud::names::{aws_load_balancers, region_from_dns};
use crate::json;
use crate::json::{Json, JsonView};
use crate::lettercase;
use crate::lettercase::lower;
use crate::model::{
    ClusterGraph, LbHealth, Target, TargetGroupHealth, TargetHealth, TargetView,
};
use crate::pick;
use crate::scan;
use crate::scan::{without_ends, without_starts};
use crate::text;
use crate::text::{cat2, cat3, cat5, copy_or_empty, opt_copy, opt_is, same};
use vstd::prelude::*;

verus! {

broadcast use crate::pick::lemma_add_nothing;

/// What is known of a target.
#[verifier::ext_equal]
pub struct TargetHealthView {
    pub id: Seq<char>,
    pub port: Option<i32>,
    pub state: Seq<char>,
    pub reason: Option<Seq<char>>,
    pub description: Option<Seq<char>>,
    pub resolved: Option<Seq<char>>,
}

/// What is known of a target.
pub open spec fn target_view(t: TargetHealth) -> TargetHealthView {
    TargetHealthView {
        id: t.id@,
        port: t.port,
        state: t.state@,
        reason: text::opt(t.reason),
        description: text::opt(t.description),
        resolved: text::opt(t.resolved),
    }
}

/// What is known of targets.
pub open spec fn target_views(v: Seq<TargetHealth>) -> Seq<TargetHealthView> {
    v.map_values(|t: TargetHealth| target_view(t))
}

/// What is known of a target group.
#[verifier::ext_equal]
pub struct GroupView {
    pub name: Seq<char>,
    pub target_type: Seq<char>,
    pub port: Option<i32>,
    pub health_check: Seq<char>,
    pub targets: Seq<TargetHealthView>,
}

/// What is known of a target group.
pub open spec fn group_view(t: TargetGroupHealth) -> GroupView {
    GroupView {
        name: t.name@,
        target_type: t.target_type@,
        port: t.port,
        health_check: t.health_check@,
        targets: target_views(t.targets@),
    }
}

/// What is known of target groups.
pub open spec fn group_views(v: Seq<TargetGroupHealth>) -> Seq<GroupView> {
    v.map_values(|t: TargetGroupHealth| group_view(t))
}

/// What is known of a load balancer.
#[verifier::ext_equal]
pub struct HealthView {
    pub provider: Seq<char>,
    pub source: TargetView,
    pub lb_name: Seq<char>,
    pub dns_name: Seq<char>,
    pub target_groups: Seq<GroupView>,
    pub error: Option<Seq<char>>,
}

/// What is known of a load balancer.
pub open spec fn health_view(h: LbHealth) -> HealthView {
    HealthView {
        provider: h.provider@,
        source: h.source@,
        lb_name: h.lb_name@,
        dns_name: h.dns_name@,
        target_groups: group_views(h.target_groups@),
        error: text::opt(h.error),
    }
}

/// What is known of load balancers.
pub open spec fn health_views(v: Seq<LbHealth>) -> Seq<HealthView> {
    v.map_values(|h: LbHealth| health_view(h))
}

/// The text, or nothing.
pub open spec fn or_none(s: Option<Seq<char>>) -> Seq<char> {
    match s {
        Some(t) => t,
        None => Seq::empty(),
    }
}

/// The text, or a default.
pub open spec fn or_text(s: Option<Seq<char>>, d: Seq<char>) -> Seq<char> {
    match s {
        Some(t) => t,
        None => d,
    }
}

fn text_or(s: Option<String>, d: &str) -> (r: String)
    ensures
        r@ == or_text(text::opt(s), d@),
{
    match s {
        Some(t) => t,
        None => d.to_owned(),
    }
}

/// The node or pod that a target is.
pub open spec fn resolved(g: ClusterGraph, target_type: Seq<char>, id: Seq<char>) -> Option<
    Seq<char>,
> {
    if target_type == "instance"@ {
        match pick::first(
            g.nodes@.len() as int,
            |i: int| text::opt(g.nodes@[i].instance_id) == Some(id),
        ) {
            Some(i) => Some("node:"@ + g.nodes@[i].name@),
            None => None,
        }
    } else {
        match pick::first(
            g.pods@.len() as int,
            |i: int| text::opt(g.pods@[i].pod_ip) == Some(id),
        ) {
            Some(i) => Some(g.pods@[i].namespace@ + "/"@ + g.pods@[i].name@),
            None => None,
        }
    }
}

fn resolve(g: &ClusterGraph, target_type: &str, id: &str) -> (r: Option<String>)
    ensures
        text::opt(r) == resolved(*g, target_type@, id@),
{
    if same(target_type, "instance") {
        let ghost q = |i: int| text::opt(g.nodes@[i].instance_id) == Some(id@);
        let mut i: usize = 0;
        while i < g.nodes.len()
            invariant
                i <= g.nodes@.len(),
                target_type@ == "instance"@,
                q == (|i: int| text::opt(g.nodes@[i].instance_id) == Some(id@)),
                forall|j: int| 0 <= j < i ==> !#[trigger] q(j),
            decreases g.nodes@.len() - i,
        {
            if opt_is(&g.nodes[i].instance_id, id) {
                proof {
                    assert(q(i as int));
                    pick::lemma_first(g.nodes@.len() as int, q);
                }
                return Some(cat2("node:", g.nodes[i].name.as_str()));
            }
            i = i + 1;
        }
        proof {
            pick::lemma_first(g.nodes@.len() as int, q);
        }
        None
    } else {
        let ghost q = |i: int| text::opt(g.pods@[i].pod_ip) == Some(id@);
        let mut i: usize = 0;
        while i < g.pods.len()
            invariant
                i <= g.pods@.len(),
                target_type@ != "instance"@,
                q == (|i: int| text::opt(g.pods@[i].pod_ip) == Some(id@)),
                forall|j: int| 0 <= j < i ==> !#[trigger] q(j),
            decreases g.pods@.len() - i,
        {
            if opt_is(&g.pods[i].pod_ip, id) {
                proof {
                    assert(q(i as int));
                    pick::lemma_first(g.pods@.len() as int, q);
                }
                return Some(
                    cat3(g.pods[i].namespace.as_str(), "/", g.pods[i].name.as_str()),
                );
            }
            i = i + 1;
        }
        proof {
            pick::lemma_first(g.pods@.len() as int, q);
        }
        None
    }
}

/// A port number, cut to 32 bits.
pub open spec fn port_of(n: Option<int>) -> Option<i32> {
    match n {
        Some(n) => Some((n as i64) as i32),
        None => None,
    }
}

fn cut_port(n: Option<i64>) -> (r: Option<i32>)
    ensures
        r == port_of(
            match n {
                Some(x) => Some(x as int),
                None => None,
            },
        ),
{
    match n {
        Some(x) => Some(#[verifier::truncate] (x as i32)),
        None => None,
    }
}

/// What a described target is.
pub open spec fn target_of(g: ClusterGraph, target_type: Seq<char>, d: JsonView) -> TargetHealthView {
    let t = json::index(d, "Target"@);
    let h = json::index(d, "TargetHealth"@);
    let id = or_none(json::as_text(json::index(t, "Id"@)));
    TargetHealthView {
        id,
        port: port_of(json::as_int(json::index(t, "Port"@))),
        state: or_text(json::as_text(json::index(h, "State"@)), "unknown"@),
        reason: json::as_text(json::index(h, "Reason"@)),
        description: json::as_text(json::index(h, "Description"@)),
        resolved: resolved(g, target_type, id),
    }
}

/// What the first `n` described targets are.
pub open spec fn targets_of(
    g: ClusterGraph,
    target_type: Seq<char>,
    ds: Seq<JsonView>,
    n: int,
) -> Seq<TargetHealthView> {
    pick::gather(n, |i: int| seq![target_of(g, target_type, ds[i])])
}

fn read_target(g: &ClusterGraph, target_type: &str, d: &Json) -> (r: TargetHealth)
    ensures
        target_view(r) == target_of(*g, target_type@, d@),
{
    let id: String = copy_or_empty(&d.text_in("Target", "Id"));
    let r: TargetHealth = TargetHealth {
        resolved: resolve(g, target_type, id.as_str()),
        id,
        port: cut_port(d.int_in("Target", "Port")),
        state: text_or(d.text_in("TargetHealth", "State"), "unknown"),
        reason: d.text_in("TargetHealth", "Reason"),
        description: d.text_in("TargetHealth", "Description"),
    };
    proof {
        reveal_strlit("");
        assert(target_view(r) =~= target_of(*g, target_type@, d@));
    }
    r
}

/// What the targets in a reply are.
pub fn read_targets(g: &ClusterGraph, target_type: &str, reply: &Json) -> (r: Vec<TargetHealth>)
    ensures
        ({
            let ds = json::as_list(json::index(reply@, "TargetHealthDescriptions"@));
            target_views(r@) == targets_of(*g, target_type@, ds, ds.len() as int)
        }),
{
    let mut r: Vec<TargetHealth> = Vec::new();
    let ghost ds = json::as_list(json::index(reply@, "TargetHealthDescriptions"@));
    proof {
        assert(target_views(r@) =~= Seq::empty());
    }
    match reply.list_at("TargetHealthDescriptions") {
        Some(v) => {
            proof {
                json::lemma_items(v@);
            }
            let mut i: usize = 0;
            while i < v.len()
                invariant
                    i <= v@.len(),
                    ds == json::items(v@),
                    ds.len() == v@.len(),
                    forall|j: int| 0 <= j < v@.len() ==> ds[j] == #[trigger] json::content(v@[j]),
                    target_views(r@) == targets_of(*g, target_type@, ds, i as int),
                decreases v@.len() - i,
            {
                let ghost was = r@;
                let t: TargetHealth = read_target(g, target_type, &v[i]);
                r.push(t);
                proof {
                    assert(ds[i as int] == json::content(v@[i as int]));
                    assert(target_views(r@) =~= target_views(was) + seq![target_view(t)]);
                }
                i = i + 1;
            }
        },
        None => {},
    }
    r
}

/// How the health of a group is checked, in words.
pub open spec fn check_words(tg: JsonView) -> Seq<char> {
    let m = json::index(tg, "Matcher"@);
    let codes = match json::as_text(json::index(m, "HttpCode"@)) {
        Some(c) => Some(c),
        None => json::as_text(json::index(m, "GrpcCode"@)),
    };
    or_text(json::as_text(json::index(tg, "HealthCheckProtocol"@)), "TCP"@) + (match json::as_text(
        json::index(tg, "HealthCheckPath"@),
    ) {
        Some(p) => " "@ + p,
        None => Seq::empty(),
    }) + " on port "@ + or_text(
        json::as_text(json::index(tg, "HealthCheckPort"@)),
        "traffic-port"@,
    ) + (match codes {
        Some(c) => ", expects "@ + c,
        None => Seq::empty(),
    })
}

fn health_check(tg: &Json) -> (r: String)
    ensures
        r@ == check_words(tg@),
{
    proof {
        reveal_strlit("");
        assert(""@ =~= Seq::empty());
    }
    let protocol: String = text_or(tg.text_at("HealthCheckProtocol"), "TCP");
    let path: String = match tg.text_at("HealthCheckPath") {
        Some(p) => cat2(" ", p.as_str()),
        None => "".to_owned(),
    };
    let port: String = text_or(tg.text_at("HealthCheckPort"), "traffic-port");
    let codes: Option<String> = match tg.text_in("Matcher", "HttpCode") {
        Some(c) => Some(c),
        None => tg.text_in("Matcher", "GrpcCode"),
    };
    let expects: String = match codes {
        Some(c) => cat2(", expects ", c.as_str()),
        None => "".to_owned(),
    };
    cat5(protocol.as_str(), path.as_str(), " on port ", port.as_str(), expects.as_str())
}

/// The kind of targets that a group has.
pub open spec fn type_of(tg: JsonView) -> Seq<char> {
    or_text(json::as_text(json::index(tg, "TargetType"@)), "instance"@)
}

/// What a group is, with these targets.
pub open spec fn group_of(tg: JsonView, targets: Seq<TargetHealthView>) -> GroupView {
    GroupView {
        name: or_none(json::as_text(json::index(tg, "TargetGroupName"@))),
        target_type: type_of(tg),
        port: port_of(json::as_int(json::index(tg, "Port"@))),
        health_check: check_words(tg),
        targets,
    }
}

/// The arn of a group.
pub open spec fn group_arn(tg: JsonView) -> Seq<char> {
    or_none(json::as_text(json::index(tg, "TargetGroupArn"@)))
}

/// What the first `n` groups of a load balancer are, and the last error on the
/// way; or the first call whose reply is not known yet.
pub open spec fn groups_of(
    g: ClusterGraph,
    region: Seq<char>,
    i: usize,
    tgs: Seq<JsonView>,
    known: Seq<Answered>,
    n: int,
) -> Result<(Seq<GroupView>, Option<Seq<char>>), CallView>
    decreases n,
{
    if n <= 0 {
        Ok((Seq::empty(), None))
    } else {
        match groups_of(g, region, i, tgs, known, n - 1) {
            Err(c) => Err(c),
            Ok((gs, error)) => {
                let tg = tgs[n - 1];
                let c = calls::list_health(region, i, (n - 1) as usize, group_arn(tg));
                match calls::answer(known, c) {
                    None => Err(c),
                    Some(Ok(reply)) => {
                        let ds = json::as_list(json::index(reply, "TargetHealthDescriptions"@));
                        let ts = targets_of(g, type_of(tg), ds, ds.len() as int);
                        Ok((gs.push(group_of(tg, ts)), error))
                    },
                    Some(Err(e)) => Ok((gs.push(group_of(tg, Seq::empty())), Some(e))),
                }
            },
        }
    }
}

proof fn lemma_groups_stop(
    g: ClusterGraph,
    region: Seq<char>,
    i: usize,
    tgs: Seq<JsonView>,
    known: Seq<Answered>,
    k: int,
    n: int,
)
    requires
        k <= n,
        groups_of(g, region, i, tgs, known, k) is Err,
    ensures
        groups_of(g, region, i, tgs, known, n) == groups_of(g, region, i, tgs, known, k),
    decreases n - k,
{
    if k < n {
        lemma_groups_stop(g, region, i, tgs, known, k, n - 1);
    }
}

fn make_group(tg: &Json, target_type: String, targets: Vec<TargetHealth>) -> (r: TargetGroupHealth)
    requires
        target_type@ == type_of(tg@),
    ensures
        group_view(r) == group_of(tg@, target_views(targets@)),
{
    let r: TargetGroupHealth = TargetGroupHealth {
        name: copy_or_empty(&tg.text_at("TargetGroupName")),
        target_type,
        port: cut_port(tg.int_at("Port")),
        health_check: health_check(tg),
        targets,
    };
    proof {
        reveal_strlit("");
        assert(group_view(r) =~= group_of(tg@, target_views(targets@)));
    }
    r
}

fn read_groups(
    g: &ClusterGraph,
    region: &str,
    i: usize,
    tgs: &Vec<Json>,
    known: &Vec<Answered>,
) -> (r: Result<(Vec<TargetGroupHealth>, Option<String>), AwsCall>)
    ensures
        match (
            r,
            groups_of(*g, region@, i, json::items(tgs@), known@, tgs@.len() as int),
        ) {
            (Ok((gs, error)), Ok((vs, e))) => group_views(gs@) == vs && text::opt(error) == e,
            (Err(c), Err(d)) => c@ == d,
            _ => false,
        },
{
    let ghost ds = json::items(tgs@);
    let ghost many = tgs@.len() as int;
    let mut gs: Vec<TargetGroupHealth> = Vec::new();
    let mut error: Option<String> = None;
    proof {
        json::lemma_items(tgs@);
        assert(group_views(gs@) =~= Seq::empty());
    }
    let mut k: usize = 0;
    while k < tgs.len()
        invariant
            k <= tgs@.len(),
            many == tgs@.len(),
            ds == json::items(tgs@),
            ds.len() == tgs@.len(),
            forall|j: int| 0 <= j < tgs@.len() ==> ds[j] == #[trigger] json::content(tgs@[j]),
            groups_of(*g, region@, i, ds, known@, k as int) == Ok::<
                (Seq<GroupView>, Option<Seq<char>>),
                CallView,
            >((group_views(gs@), text::opt(error))),
        decreases tgs@.len() - k,
    {
        let tg: &Json = &tgs[k];
        proof {
            assert(ds[k as int] == json::content(tgs@[k as int]));
            reveal_strlit("");
            assert(""@ =~= Seq::empty());
        }
        let target_type: String = text_or(tg.text_at("TargetType"), "instance");
        let arn: String = text_or(tg.text_at("TargetGroupArn"), "");
        let c: AwsCall = call_list_health(region, i, k, arn.as_str());
        let ghost was = gs@;
        match find_answer(known, &c) {
            None => {
                proof {
                    lemma_groups_stop(*g, region@, i, ds, known@, k + 1, many);
                }
                return Err(c);
            },
            Some(Ok(reply)) => {
                let targets: Vec<TargetHealth> = read_targets(g, target_type.as_str(), reply);
                let t: TargetGroupHealth = make_group(tg, target_type, targets);
                gs.push(t);
                proof {
                    assert(group_views(gs@) =~= group_views(was).push(group_view(t)));
                }
            },
            Some(Err(e)) => {
                error = Some(e.clone());
                let targets: Vec<TargetHealth> = Vec::new();
                proof {
                    assert(target_views(targets@) =~= Seq::empty());
                }
                let t: TargetGroupHealth = make_group(tg, target_type, targets);
                gs.push(t);
                proof {
                    assert(group_views(gs@) =~= group_views(was).push(group_view(t)));
                }
            },
        }
        k = k + 1;
    }
    Ok((gs, error))
}

/// A load balancer of which nothing is known yet.
pub open spec fn unknown(source: TargetView, dns: Seq<char>) -> HealthView {
    HealthView {
        provider: "aws"@,
        source,
        lb_name: Seq::empty(),
        dns_name: dns,
        target_groups: Seq::empty(),
        error: None,
    }
}

/// What is known of a newer load balancer, or the first call whose reply is
/// not known yet.
pub open spec fn modern(
    g: ClusterGraph,
    source: TargetView,
    dns: Seq<char>,
    region: Seq<char>,
    i: usize,
    lb: JsonView,
    known: Seq<Answered>,
) -> Result<HealthView, CallView> {
    let arn = or_none(json::as_text(json::index(lb, "LoadBalancerArn"@)));
    let named = HealthView {
        lb_name: or_none(json::as_text(json::index(lb, "LoadBalancerName"@))),
        ..unknown(source, dns)
    };
    let c = calls::list_groups(region, i, arn);
    match calls::answer(known, c) {
        None => Err(c),
        Some(Err(e)) => Ok(HealthView { error: Some(e), ..named }),
        Some(Ok(reply)) => {
            let tgs = json::as_list(json::index(reply, "TargetGroups"@));
            match groups_of(g, region, i, tgs, known, tgs.len() as int) {
                Err(c) => Err(c),
                Ok((gs, error)) => Ok(HealthView { target_groups: gs, error, ..named }),
            }
        },
    }
}

fn empty_health(source: &Target, dns: &str) -> (r: LbHealth)
    ensures
        health_view(r) == unknown(source@, dns@),
{
    let r: LbHealth = LbHealth {
        provider: "aws".to_owned(),
        source: source.copy(),
        lb_name: "".to_owned(),
        dns_name: dns.to_owned(),
        target_groups: Vec::new(),
        error: None,
    };
    proof {
        reveal_strlit("");
        assert(health_view(r) =~= unknown(source@, dns@));
    }
    r
}

/// Read what is known of a newer load balancer.
pub fn modern_health(
    g: &ClusterGraph,
    source: &Target,
    dns: &str,
    region: &str,
    i: usize,
    lb: &Json,
    known: &Vec<Answered>,
) -> (r: Result<LbHealth, AwsCall>)
    ensures
        match (r, modern(*g, source@, dns@, region@, i, lb@, known@)) {
            (Ok(h), Ok(v)) => health_view(h) == v,
            (Err(c), Err(d)) => c@ == d,
            _ => false,
        },
{
    proof {
        reveal_strlit("");
        assert(""@ =~= Seq::empty());
    }
    let mut h: LbHealth = empty_health(source, dns);
    h.lb_name = text_or(lb.text_at("LoadBalancerName"), "");
    let arn: String = text_or(lb.text_at("LoadBalancerArn"), "");
    let c: AwsCall = call_list_groups(region, i, arn.as_str());
    match find_answer(known, &c) {
        None => Err(c),
        Some(Err(e)) => {
            h.error = Some(e.clone());
            proof {
                assert(health_view(h) =~= modern(
                    *g,
                    source@,
                    dns@,
                    region@,
                    i,
                    lb@,
                    known@,
                )->Ok_0);
            }
            Ok(h)
        },
        Some(Ok(reply)) => {
            match reply.list_at("TargetGroups") {
                Some(tgs) => {
                    proof {
                        json::lemma_items(tgs@);
                    }
                    match read_groups(g, region, i, tgs, known) {
                        Err(c) => Err(c),
                        Ok((gs, error)) => {
                            h.target_groups = gs;
                            h.error = error;
                            proof {
                                assert(health_view(h) =~= modern(
                                    *g,
                                    source@,
                                    dns@,
                                    region@,
                                    i,
                                    lb@,
                                    known@,
                                )->Ok_0);
                            }
                            Ok(h)
                        },
                    }
                },
                None => {
                    proof {
                        assert(health_view(h) =~= modern(
                            *g,
                            source@,
                            dns@,
                            region@,
                            i,
                            lb@,
                            known@,
                        )->Ok_0);
                    }
                    Ok(h)
                },
            }
        },
    }
}

/// A text that says something; the cloud writes `N/A` for nothing.
pub open spec fn told(s: Option<Seq<char>>) -> Option<Seq<char>> {
    match s {
        Some(t) => if t == "N/A"@ {
            None
        } else {
            Some(t)
        },
        None => None,
    }
}

fn tell(s: Option<String>) -> (r: Option<String>)
    ensures
        text::opt(r) == told(text::opt(s)),
{
    match s {
        Some(t) => {
            if same(t.as_str(), "N/A") {
                None
            } else {
                Some(t)
            }
        },
        None => None,
    }
}

/// What a described instance is.
pub open spec fn instance_of(g: ClusterGraph, s: JsonView) -> TargetHealthView {
    let id = or_none(json::as_text(json::index(s, "InstanceId"@)));
    TargetHealthView {
        id,
        port: None,
        state: if json::as_text(json::index(s, "State"@)) == Some("InService"@) {
            "healthy"@
        } else {
            "unhealthy"@
        },
        reason: told(json::as_text(json::index(s, "ReasonCode"@))),
        description: told(json::as_text(json::index(s, "Description"@))),
        resolved: resolved(g, "instance"@, id),
    }
}

/// What the first `n` described instances are.
pub open spec fn instances_of(g: ClusterGraph, ss: Seq<JsonView>, n: int) -> Seq<TargetHealthView> {
    pick::gather(n, |i: int| seq![instance_of(g, ss[i])])
}

fn read_instance(g: &ClusterGraph, s: &Json) -> (r: TargetHealth)
    ensures
        target_view(r) == instance_of(*g, s@),
{
    proof {
        reveal_strlit("");
        assert(""@ =~= Seq::empty());
    }
    let id: String = text_or(s.text_at("InstanceId"), "");
    let state: String = if opt_is(&s.text_at("State"), "InService") {
        "healthy".to_owned()
    } else {
        "unhealthy".to_owned()
    };
    let r: TargetHealth = TargetHealth {
        resolved: resolve(g, "instance", id.as_str()),
        id,
        port: None,
        state,
        reason: tell(s.text_at("ReasonCode")),
        description: tell(s.text_at("Description")),
    };
    proof {
        assert(target_view(r) =~= instance_of(*g, s@));
    }
    r
}

/// What the instances in a reply are.
pub fn read_instances(g: &ClusterGraph, reply: &Json) -> (r: Vec<TargetHealth>)
    ensures
        ({
            let ss = json::as_list(json::index(reply@, "InstanceStates"@));
            target_views(r@) == instances_of(*g, ss, ss.len() as int)
        }),
{
    let mut r: Vec<TargetHealth> = Vec::new();
    let ghost ss = json::as_list(json::index(reply@, "InstanceStates"@));
    proof {
        assert(target_views(r@) =~= Seq::empty());
    }
    match reply.list_at("InstanceStates") {
        Some(v) => {
            proof {
                json::lemma_items(v@);
            }
            let mut i: usize = 0;
            while i < v.len()
                invariant
                    i <= v@.len(),
                    ss == json::items(v@),
                    ss.len() == v@.len(),
                    forall|j: int| 0 <= j < v@.len() ==> ss[j] == #[trigger] json::content(v@[j]),
                    target_views(r@) == instances_of(*g, ss, i as int),
                decreases v@.len() - i,
            {
                let ghost was = r@;
                let t: TargetHealth = read_instance(g, &v[i]);
                r.push(t);
                proof {
                    assert(ss[i as int] == json::content(v@[i as int]));
                    assert(target_views(r@) =~= target_views(was) + seq![target_view(t)]);
                }
                i = i + 1;
            }
        },
        None => {},
    }
    r
}

/// What is known of a classic load balancer, or the call whose reply is not
/// known yet.
pub open spec fn classic(
    g: ClusterGraph,
    source: TargetView,
    dns: Seq<char>,
    region: Seq<char>,
    i: usize,
    lb: JsonView,
    known: Seq<Answered>,
) -> Result<HealthView, CallView> {
    let name = or_none(json::as_text(json::index(lb, "LoadBalancerName"@)));
    let named = HealthView { lb_name: name, ..unknown(source, dns) };
    let c = calls::list_instances(region, i, name);
    match calls::answer(known, c) {
        None => Err(c),
        Some(Err(e)) => Ok(HealthView { error: Some(e), ..named }),
        Some(Ok(reply)) => {
            let ss = json::as_list(json::index(reply, "InstanceStates"@));
            let group = GroupView {
                name,
                target_type: "instance"@,
                port: None,
                health_check: or_none(
                    json::as_text(json::index(json::index(lb, "HealthCheck"@), "Target"@)),
                ),
                targets: instances_of(g, ss, ss.len() as int),
            };
            Ok(HealthView { target_groups: seq![group], ..named })
        },
    }
}

/// Read what is known of a classic load balancer.
pub fn classic_health(
    g: &ClusterGraph,
    source: &Target,
    dns: &str,
    region: &str,
    i: usize,
    lb: &Json,
    known: &Vec<Answered>,
) -> (r: Result<LbHealth, AwsCall>)
    ensures
        match (r, classic(*g, source@, dns@, region@, i, lb@, known@)) {
            (Ok(h), Ok(v)) => health_view(h) == v,
            (Err(c), Err(d)) => c@ == d,
            _ => false,
        },
{
    proof {
        reveal_strlit("");
        assert(""@ =~= Seq::empty());
    }
    let ghost wanted = classic(*g, source@, dns@, region@, i, lb@, known@);
    let mut h: LbHealth = empty_health(source, dns);
    let name: String = text_or(lb.text_at("LoadBalancerName"), "");
    h.lb_name = name.clone();
    let c: AwsCall = call_list_instances(region, i, name.as_str());
    match find_answer(known, &c) {
        None => Err(c),
        Some(Err(e)) => {
            h.error = Some(e.clone());
            proof {
                assert(health_view(h) =~= wanted->Ok_0);
            }
            Ok(h)
        },
        Some(Ok(reply)) => {
            let group: TargetGroupHealth = TargetGroupHealth {
                name,
                target_type: "instance".to_owned(),
                port: None,
                health_check: text_or(lb.text_in("HealthCheck", "Target"), ""),
                targets: read_instances(g, reply),
            };
            let ghost was = h.target_groups@;
            h.target_groups.push(group);
            proof {
                assert(group_views(was) =~= Seq::empty());
                assert(was.len() == 0);
                assert(group_view(group) =~= wanted->Ok_0.target_groups[0]);
                assert(group_views(h.target_groups@) =~= seq![group_view(group)]);
                assert(health_view(h) =~= wanted->Ok_0);
            }
            Ok(h)
        },
    }
}

/// A DNS name in the form in which names are compared, before its letters are
/// made small.
pub open spec fn bare_name(s: Seq<char>) -> Seq<char> {
    scan::strip_starts(scan::strip_ends(s, "."@), "dualstack."@)
}

/// A DNS name in the form in which names are compared.
pub open spec fn norm_name(s: Seq<char>) -> Seq<char> {
    lettercase::lowercase(bare_name(s))
}

fn norm_dns(s: &str) -> (r: String)
    ensures
        r@ == norm_name(s@),
{
    proof {
        reveal_strlit(".");
        reveal_strlit("dualstack.");
    }
    let a: String = without_ends(s, ".");
    let b: String = without_starts(a.as_str(), "dualstack.");
    lower(b.as_str())
}

/// The names of load balancers in the form in which they are compared.
pub open spec fn norm_names(lbs: Seq<JsonView>) -> Seq<Option<Seq<char>>> {
    lbs.map_values(
        |lb: JsonView|
            match json::as_text(json::index(lb, "DNSName"@)) {
                Some(s) => Some(norm_name(s)),
                None => None,
            },
    )
}

/// The texts of names that may be missing.
pub open spec fn opts(v: Seq<Option<String>>) -> Seq<Option<Seq<char>>> {
    v.map_values(|o: Option<String>| text::opt(o))
}

/// The first of the names that is this one.
pub open spec fn position(names: Seq<Option<Seq<char>>>, wanted: Seq<char>) -> Option<int> {
    pick::first(names.len() as int, |i: int| names[i] == Some(wanted))
}

/// Find the first of the names that is this one.
pub fn find_name(names: &Vec<Option<String>>, wanted: &str) -> (r: Option<usize>)
    ensures
        match r {
            Some(k) => k < names@.len() && position(opts(names@), wanted@) == Some(k as int),
            None => position(opts(names@), wanted@) is None,
        },
{
    let ghost s = opts(names@);
    let ghost q = |i: int| s[i] == Some(wanted@);
    let mut i: usize = 0;
    while i < names.len()
        invariant
            i <= names@.len(),
            s == opts(names@),
            q == (|i: int| s[i] == Some(wanted@)),
            forall|j: int| 0 <= j < i ==> !#[trigger] q(j),
        decreases names@.len() - i,
    {
        proof {
            assert(s[i as int] == text::opt(names@[i as int]));
        }
        if opt_is(&names[i], wanted) {
            proof {
                assert(q(i as int));
                pick::lemma_first(s.len() as int, q);
            }
            return Some(i);
        }
        proof {
            assert(!q(i as int));
        }
        i = i + 1;
    }
    proof {
        pick::lemma_first(s.len() as int, q);
    }
    None
}

fn list_names(lbs: &Vec<Json>) -> (r: Vec<Option<String>>)
    ensures
        opts(r@) == norm_names(json::items(lbs@)),
{
    let ghost s = json::items(lbs@);
    let mut r: Vec<Option<String>> = Vec::new();
    proof {
        json::lemma_items(lbs@);
        assert(opts(r@) =~= norm_names(s.take(0)));
    }
    let mut i: usize = 0;
    while i < lbs.len()
        invariant
            i <= lbs@.len(),
            s == json::items(lbs@),
            s.len() == lbs@.len(),
            forall|j: int| 0 <= j < lbs@.len() ==> s[j] == #[trigger] json::content(lbs@[j]),
            opts(r@) == norm_names(s.take(i as int)),
        decreases lbs@.len() - i,
    {
        let n: Option<String> = match lbs[i].text_at("DNSName") {
            Some(d) => Some(norm_dns(d.as_str())),
            None => None,
        };
        let ghost was = r@;
        r.push(n);
        proof {
            assert(s[i as int] == json::content(lbs@[i as int]));
            assert(opts(r@) =~= opts(was).push(text::opt(n)));
            assert(norm_names(s.take(i + 1)) =~= norm_names(s.take(i as int)).push(text::opt(n)));
        }
        i = i + 1;
    }
    proof {
        assert(s.take(i as int) =~= s);
    }
    r
}

/// The load balancer of a DNS name in a reply.
pub open spec fn balancer_in(reply: JsonView, key: Seq<char>, dns: Seq<char>) -> Option<JsonView> {
    let lbs = json::as_list(json::index(reply, key));
    match position(norm_names(lbs), norm_name(dns)) {
        Some(i) => Some(lbs[i]),
        None => None,
    }
}

fn find_balancer<'a>(reply: &'a Json, key: &str, dns: &str) -> (r: Option<&'a Json>)
    ensures
        match r {
            Some(lb) => balancer_in(reply@, key@, dns@) == Some(lb@),
            None => balancer_in(reply@, key@, dns@) is None,
        },
{
    match reply.list_at(key) {
        Some(lbs) => {
            proof {
                json::lemma_items(lbs@);
            }
            let names: Vec<Option<String>> = list_names(lbs);
            let wanted: String = norm_dns(dns);
            match find_name(&names, wanted.as_str()) {
                Some(k) => {
                    proof {
                        assert(opts(names@).len() == names@.len());
                        assert(norm_names(json::items(lbs@)).len() == lbs@.len());
                        assert(json::items(lbs@)[k as int] == json::content(lbs@[k as int]));
                    }
                    Some(&lbs[k])
                },
                None => None,
            }
        },
        None => None,
    }
}

/// The region of a load balancer: the one that its name holds, else the one to
/// use.
pub open spec fn region_for(dns: Seq<char>, env: AwsEnv) -> Option<Seq<char>> {
    match names::region_in(dns) {
        Some(r) => Some(r),
        None => text::opt(env.region),
    }
}

/// What is known of the load balancer at a place in the list, or the first call
/// whose reply is not known yet.
pub open spec fn health_of(
    g: ClusterGraph,
    env: AwsEnv,
    lb: (TargetView, Seq<char>),
    i: usize,
    known: Seq<Answered>,
) -> Result<HealthView, CallView> {
    let bare = unknown(lb.0, lb.1);
    match region_for(lb.1, env) {
        None => Ok(
            HealthView {
                error: Some(
                    "Couldn't tell which AWS region "@ + lb.1
                        + " is in. Set a region in settings."@,
                ),
                ..bare
            },
        ),
        Some(region) => match calls::answer(known, calls::list_v2(region)) {
            None => Err(calls::list_v2(region)),
            Some(Err(e)) => Ok(HealthView { error: Some(e), ..bare }),
            Some(Ok(reply)) => match balancer_in(reply, "LoadBalancers"@, lb.1) {
                Some(found) => modern(g, lb.0, lb.1, region, i, found, known),
                None => match calls::answer(known, calls::list_v1(region)) {
                    None => Err(calls::list_v1(region)),
                    Some(old_reply) => match classic_in(old_reply, lb.1) {
                        Some(found) => classic(g, lb.0, lb.1, region, i, found, known),
                        None => Ok(
                            HealthView {
                                error: Some(
                                    "Couldn't find the load balancer "@ + lb.1 + " in "@ + region
                                        + " with your AWS identity."@,
                                ),
                                ..bare
                            },
                        ),
                    },
                },
            },
        },
    }
}

/// The classic load balancer of a DNS name, where they could be listed.
pub open spec fn classic_in(reply: Result<JsonView, Seq<char>>, dns: Seq<char>) -> Option<
    JsonView,
> {
    match reply {
        Ok(r) => balancer_in(r, "LoadBalancerDescriptions"@, dns),
        Err(_) => None,
    }
}

fn find_classic<'a>(reply: &'a Result<Json, String>, dns: &str) -> (r: Option<&'a Json>)
    ensures
        match r {
            Some(lb) => classic_in(json::outcome(*reply), dns@) == Some(lb@),
            None => classic_in(json::outcome(*reply), dns@) is None,
        },
{
    match reply {
        Ok(r) => find_balancer(r, "LoadBalancerDescriptions", dns),
        Err(_) => None,
    }
}

fn read_health(
    g: &ClusterGraph,
    env: &AwsEnv,
    source: &Target,
    dns: &str,
    i: usize,
    known: &Vec<Answered>,
) -> (r: Result<LbHealth, AwsCall>)
    ensures
        match (r, health_of(*g, *env, (source@, dns@), i, known@)) {
            (Ok(h), Ok(v)) => health_view(h) == v,
            (Err(c), Err(d)) => c@ == d,
            _ => false,
        },
{
    let ghost wanted = health_of(*g, *env, (source@, dns@), i, known@);
    let mut h: LbHealth = empty_health(source, dns);
    let found_region: Option<String> = match region_from_dns(dns) {
        Some(r) => Some(r),
        None => opt_copy(&env.region),
    };
    let region: String = match found_region {
        Some(r) => r,
        None => {
            h.error = Some(
                cat3(
                    "Couldn't tell which AWS region ",
                    dns,
                    " is in. Set a region in settings.",
                ),
            );
            proof {
                assert(health_view(h) =~= wanted->Ok_0);
            }
            return Ok(h);
        },
    };
    let c: AwsCall = call_list_v2(region.as_str());
    match find_answer(known, &c) {
        None => Err(c),
        Some(Err(e)) => {
            h.error = Some(e.clone());
            proof {
                assert(health_view(h) =~= wanted->Ok_0);
            }
            Ok(h)
        },
        Some(Ok(reply)) => match find_balancer(reply, "LoadBalancers", dns) {
            Some(lb) => modern_health(g, source, dns, region.as_str(), i, lb, known),
            None => {
                let c: AwsCall = call_list_v1(region.as_str());
                match find_answer(known, &c) {
                    None => Err(c),
                    Some(old_reply) => match find_classic(old_reply, dns) {
                        Some(lb) => classic_health(g, source, dns, region.as_str(), i, lb, known),
                        None => {
                            h.error = Some(
                                cat5(
                                    "Couldn't find the load balancer ",
                                    dns,
                                    " in ",
                                    region.as_str(),
                                    " with your AWS identity.",
                                ),
                            );
                            proof {
                                assert(health_view(h) =~= wanted->Ok_0);
                            }
                            Ok(h)
                        },
                    },
                }
            },
        },
    }
}

/// What is known of the first `n` load balancers, or the first call whose reply
/// is not known yet.
pub open spec fn healths(
    g: ClusterGraph,
    env: AwsEnv,
    lbs: Seq<(TargetView, Seq<char>)>,
    known: Seq<Answered>,
    n: int,
) -> Result<Seq<HealthView>, CallView>
    decreases n,
{
    if n <= 0 {
        Ok(Seq::empty())
    } else {
        match healths(g, env, lbs, known, n - 1) {
            Err(c) => Err(c),
            Ok(hs) => match health_of(g, env, lbs[n - 1], (n - 1) as usize, known) {
                Err(c) => Err(c),
                Ok(h) => Ok(hs.push(h)),
            },
        }
    }
}

proof fn lemma_healths_stop(
    g: ClusterGraph,
    env: AwsEnv,
    lbs: Seq<(TargetView, Seq<char>)>,
    known: Seq<Answered>,
    k: int,
    n: int,
)
    requires
        k <= n,
        healths(g, env, lbs, known, k) is Err,
    ensures
        healths(g, env, lbs, known, n) == healths(g, env, lbs, known, k),
    decreases n - k,
{
    if k < n {
        lemma_healths_stop(g, env, lbs, known, k, n - 1);
    }
}

/// How far the check of the load balancers has come.
#[derive(Debug)]
pub enum Progress {
    /// The reply to this call is needed.
    Ask(AwsCall),
    /// This is what is known.
    Done(Vec<LbHealth>),
}

/// How far the check of the load balancers of a cluster has come, given replies
/// to calls.
pub open spec fn progress(g: ClusterGraph, env: AwsEnv, known: Seq<Answered>) -> Result<
    Seq<HealthView>,
    CallView,
> {
    let lbs = names::balancers(g);
    healths(g, env, lbs, known, lbs.len() as int)
}

/// Check the load balancers that the cluster points at: either name the next
/// call whose reply is needed, or tell their health from the replies.
pub fn load_balancer_health(g: &ClusterGraph, env: &AwsEnv, known: &Vec<Answered>) -> (r: Progress)
    ensures
        match (r, progress(*g, *env, known@)) {
            (Progress::Done(hs), Ok(vs)) => health_views(hs@) == vs,
            (Progress::Ask(c), Err(d)) => c@ == d,
            _ => false,
        },
{
    let lbs: Vec<(Target, String)> = aws_load_balancers(g);
    let ghost s = names::named(lbs@);
    let ghost many = lbs@.len() as int;
    let mut out: Vec<LbHealth> = Vec::new();
    proof {
        assert(health_views(out@) =~= Seq::empty());
    }
    let mut i: usize = 0;
    while i < lbs.len()
        invariant
            i <= lbs@.len(),
            many == lbs@.len(),
            s == names::named(lbs@),
            s == names::balancers(*g),
            healths(*g, *env, s, known@, i as int) == Ok::<Seq<HealthView>, CallView>(
                health_views(out@),
            ),
        decreases lbs@.len() - i,
    {
        proof {
            assert(s[i as int] == (lbs@[i as int].0@, lbs@[i as int].1@));
        }
        match read_health(g, env, &lbs[i].0, lbs[i].1.as_str(), i, known) {
            Ok(h) => {
                let ghost was = out@;
                out.push(h);
                proof {
                    assert(health_views(out@) =~= health_views(was).push(health_view(h)));
                }
            },
            Err(c) => {
                proof {
                    lemma_healths_stop(*g, *env, s, known@, i + 1, many);
                }
                return Progress::Ask(c);
            },
        }
        i = i + 1;
    }
    Progress::Done(out)
}

proof fn lemma_groups_ask(
    g: ClusterGraph,
    region: Seq<char>,
    i: usize,
    tgs: Seq<JsonView>,
    known: Seq<Answered>,
    n: int,
)
    ensures
        groups_of(g, region, i, tgs, known, n) matches Err(c) ==> calls::read_only(c)
            && calls::answer(known, c) is None,
        groups_of(g, region, i, tgs, known, n) matches Ok((gs, e)) ==> n >= 0 ==> gs.len() == n,
    decreases n,
{
    if n > 0 {
        lemma_groups_ask(g, region, i, tgs, known, n - 1);
    }
}

proof fn lemma_healths_ask(
    g: ClusterGraph,
    env: AwsEnv,
    lbs: Seq<(TargetView, Seq<char>)>,
    known: Seq<Answered>,
    n: int,
)
    ensures
        healths(g, env, lbs, known, n) matches Err(c) ==> calls::read_only(c) && calls::answer(
            known,
            c,
        ) is None,
        healths(g, env, lbs, known, n) matches Ok(hs) ==> {
            &&& n >= 0 ==> hs.len() == n
            &&& forall|i: int|
                0 <= i < n ==> (#[trigger] hs[i]).source == lbs[i].0 && hs[i].dns_name == lbs[i].1
        },
    decreases n,
{
    if n > 0 {
        lemma_healths_ask(g, env, lbs, known, n - 1);
        let lb = lbs[n - 1];
        match region_for(lb.1, env) {
            Some(region) => match calls::answer(known, calls::list_v2(region)) {
                Some(Ok(reply)) => match balancer_in(reply, "LoadBalancers"@, lb.1) {
                    Some(found) => {
                        let arn = or_none(json::as_text(json::index(found, "LoadBalancerArn"@)));
                        match calls::answer(
                            known,
                            calls::list_groups(region, (n - 1) as usize, arn),
                        ) {
                            Some(Ok(r)) => {
                                let tgs = json::as_list(json::index(r, "TargetGroups"@));
                                lemma_groups_ask(
                                    g,
                                    region,
                                    (n - 1) as usize,
                                    tgs,
                                    known,
                                    tgs.len() as int,
                                );
                            },
                            _ => {},
                        }
                    },
                    None => {},
                },
                _ => {},
            },
            None => {},
        }
    }
}

/// Whatever the cluster and the replies hold, only the five read-only commands
/// are ever asked for, and none twice.
pub proof fn only_new_read_only_calls_are_asked(
    g: ClusterGraph,
    env: AwsEnv,
    known: Seq<Answered>,
    c: CallView,
)
    requires
        progress(g, env, known) == Err::<Seq<HealthView>, CallView>(c),
    ensures
        calls::read_only(c),
        forall|i: int| 0 <= i < known.len() ==> (#[trigger] known[i]).call@ != c,
{
    let lbs = names::balancers(g);
    lemma_healths_ask(g, env, lbs, known, lbs.len() as int);
    calls::lemma_unanswered(known, c);
}

/// Every load balancer that the cluster points at is told of once, in order.
pub proof fn every_load_balancer_is_told_of(
    g: ClusterGraph,
    env: AwsEnv,
    known: Seq<Answered>,
    hs: Seq<HealthView>,
)
    requires
        progress(g, env, known) == Ok::<Seq<HealthView>, CallView>(hs),
    ensures
        hs.len() == names::balancers(g).len(),
        forall|i: int|
            0 <= i < hs.len() ==> (#[trigger] hs[i]).source == names::balancers(g)[i].0
                && hs[i].dns_name == names::balancers(g)[i].1,
{
    let lbs = names::balancers(g);
    lemma_healths_ask(g, env, lbs, known, lbs.len() as int);
}

} // verus!
