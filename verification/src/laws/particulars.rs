//! Particulars: images, notes, ports, counts, numbers and lists.

use crate::active::analysis;
use crate::active::check::{CheckResult, NetworkTestRequest, PlannedCheck};
use crate::active::planning;
use crate::cloud::access;
use crate::cloud::health;
use crate::cloud::names;
use crate::collect::ingresses;
use crate::collect::pods;
use crate::collect::raw::{PortRef, RawClass, RawPod, RawService, RawServicePort, RawSnapshot};
use crate::collect::services;
use crate::json;
use crate::json::JsonView;
use crate::kubeconfig::ExecPlugin;
use crate::labels;
use crate::laws::probing;
use crate::laws::wording;
use crate::model::{
    ClusterGraph, EventInfo, IssueView, LbHealth, PodInfo, PvcInfo, ServiceInfo, ServicePortInfo, TargetGroupHealth, TargetHealth,
    WorkloadInfo,
};
use crate::numeral;
use crate::pick;
use crate::reading;
use crate::policy::rules;
use crate::policy::rules::PolicyFile;
use crate::rules::cni;
use crate::rules::dns;
use crate::rules::entry;
use crate::rules::node;
use crate::rules::pod;
use crate::rules::storage;
use crate::rules::targets;
use crate::scan;
use crate::split;
use crate::text;
use vstd::prelude::*;

verus! {

/// Probes run the image that was asked for, and the usual one where none was, or
/// only blanks.
pub proof fn blank_images_mean_the_usual_one(req: NetworkTestRequest)
    ensures
        req.image is None ==> planning::image_for(req) == "busybox:1.36.1"@,
        req.image matches Some(i) ==> ((forall|k: int|
            0 <= k < i@.len() ==> wording::is_blank(#[trigger] i@[k])) ==> planning::image_for(req)
            == "busybox:1.36.1"@),
        req.image matches Some(i) ==> (i@.len() > 0 && '!' <= i@[0] <= '~' && '!' <= i@.last()
            <= '~' ==> planning::image_for(req) == i@),
{
    if req.image is Some {
        let i = req.image->0@;
        if forall|k: int| 0 <= k < i.len() ==> wording::is_blank(#[trigger] i[k]) {
            lemma_all_blank(i);
        }
        if i.len() > 0 && '!' <= i[0] <= '~' && '!' <= i.last() <= '~' {
            let e = Seq::<char>::empty();
            wording::spaces_around_are_dropped(e, i, e);
            assert(e + i + e =~= i);
        }
    }
}

proof fn lemma_all_blank(s: Seq<char>)
    requires
        forall|k: int| 0 <= k < s.len() ==> wording::is_blank(#[trigger] s[k]),
    ensures
        scan::trim(s).len() == 0,
        scan::trim_start(s).len() == 0,
    decreases s.len(),
{
    if s.len() > 0 {
        assert(wording::is_blank(s[0]));
        lemma_all_blank(s.skip(1));
    }
}

/// A port that is not TCP is not tested, and the plan says so; of a TCP port the plan
/// notes the pods that don't define it, and no others.
pub proof fn plans_note_what_is_not_tested(
    g: ClusterGraph,
    at: Seq<int>,
    sp: ServicePortInfo,
    k: int,
)
    ensures
        sp.protocol@ != "TCP"@ ==> planning::port_notes(g, at, sp) == seq![
            "Port "@ + numeral::dec(sp.port as int) + "/"@ + sp.protocol@
                + " isn't tested; only TCP is supported."@,
        ],
        sp.protocol@ == "TCP"@ && 0 <= k < at.len() && planning::port_on(
            sp.target@,
            g.pods@[at[k]],
        ) is None ==> planning::port_notes(g, at, sp).contains(
            "Pod "@ + g.pods@[at[k]].name@ + " doesn't define port "@ + sp.target@
                + ", so it isn't tested."@,
        ),
        sp.protocol@ == "TCP"@ && (forall|j: int|
            0 <= j < at.len() ==> planning::port_on(sp.target@, g.pods@[#[trigger] at[j]]) is Some)
            ==> planning::port_notes(g, at, sp).len() == 0,
{
    lemma_notes(g, at, sp, k, at.len() as int);
}

proof fn lemma_notes(g: ClusterGraph, at: Seq<int>, sp: ServicePortInfo, k: int, n: int)
    requires
        0 <= n <= at.len(),
    ensures
        0 <= k < n && planning::port_on(sp.target@, g.pods@[at[k]]) is None ==> planning::pod_notes(
            g,
            at,
            sp,
            n,
        ).contains(
            "Pod "@ + g.pods@[at[k]].name@ + " doesn't define port "@ + sp.target@
                + ", so it isn't tested."@,
        ),
        (forall|j: int|
            0 <= j < n ==> planning::port_on(sp.target@, g.pods@[#[trigger] at[j]]) is Some)
            ==> planning::pod_notes(g, at, sp, n).len() == 0,
    decreases n,
{
    if n > 0 {
        lemma_notes(g, at, sp, k, n - 1);
        let a = planning::pod_notes(g, at, sp, n - 1);
        let b = planning::pod_notes(g, at, sp, n);
        if 0 <= k < n && planning::port_on(sp.target@, g.pods@[at[k]]) is None {
            let x = "Pod "@ + g.pods@[at[k]].name@ + " doesn't define port "@ + sp.target@
                + ", so it isn't tested."@;
            if k < n - 1 {
                let j = choose|j: int| 0 <= j < a.len() && a[j] == x;
                assert(b[j] == x);
            } else {
                assert(b[a.len() as int] == x);
            }
        }
    }
}

/// A pod that an init container holds up shows why; that the pod is initializing is
/// no reason.
pub proof fn init_containers_are_shown(raw: RawSnapshot, p: RawPod, x: PodInfo, k: int)
    requires
        pods::pod_from(raw, p, x),
        !p.deleting,
        p.reason is None,
        0 <= k < p.init_statuses@.len(),
        p.init_statuses@[k].state matches Some(s) && s.waiting matches Some(w) && w.reason matches Some(r)
            && r@ != "PodInitializing"@,
        forall|j: int|
            0 <= j < k ==> ((#[trigger] p.init_statuses@[j]).state matches Some(s) && s.waiting matches Some(w)
                ==> w.reason is None || w.reason->0@ == "PodInitializing"@),
    ensures
        x.status@ == "Init:"@ + p.init_statuses@[k].state->0.waiting->0.reason->0@,
{
    let n = p.init_statuses@.len() as int;
    let f = |i: int| pods::held_up(p.init_statuses@[i]) is Some;
    pick::lemma_first(n, f);
    assert(f(k));
    let m = pick::first(n, f)->0;
    if m < k {
        assert(f(m));
        let s = p.init_statuses@[m];
        assert(s.state is Some);
    }
    assert(pods::init_reason(p.init_statuses@, n) == pods::held_up(p.init_statuses@[k]));
}

/// The workloads of a service are those of its namespace whose pods it selects.
pub proof fn services_have_the_workloads_that_they_select(
    raw: RawSnapshot,
    ps: Seq<PodInfo>,
    ws: Seq<WorkloadInfo>,
    s: RawService,
    x: ServiceInfo,
    id: Seq<char>,
)
    requires
        services::service_from(raw, ps, ws, s, x),
    ensures
        (exists|k: int| 0 <= k < x.workloads@.len() && (#[trigger] x.workloads@[k])@ == id)
            <==> exists|k: int|
            0 <= k < ws.len() && chooses(s, x.namespace@, #[trigger] ws[k]) && ws[k].id@ == id,
{
    lemma_matched(ws, s, x.namespace@, id, ws.len() as int);
    let all = text::strs(x.workloads@);
    if exists|k: int| 0 <= k < x.workloads@.len() && (#[trigger] x.workloads@[k])@ == id {
        let k = choose|k: int| 0 <= k < x.workloads@.len() && (#[trigger] x.workloads@[k])@ == id;
        assert(all[k] == id);
    }
    if all.contains(id) {
        let k = choose|k: int| 0 <= k < all.len() && all[k] == id;
        assert(x.workloads@[k]@ == id);
    }
}

/// Is the workload in the namespace, and do its pods have every label that the
/// service selects by, of which there is one?
pub open spec fn chooses(s: RawService, ns: Seq<char>, w: WorkloadInfo) -> bool {
    &&& w.namespace@ == ns
    &&& s.selector@.len() > 0
    &&& forall|i: int|
        0 <= i < s.selector@.len() ==> labels::lookup(w.pod_labels@, (#[trigger] s.selector@[i]).0)
            == Some(s.selector@[i].1)
}

proof fn lemma_matched(
    ws: Seq<WorkloadInfo>,
    s: RawService,
    ns: Seq<char>,
    id: Seq<char>,
    n: int,
)
    requires
        0 <= n <= ws.len(),
    ensures
        services::workloads_matched(ws, ns, s.selector@, n).contains(id) <==> exists|k: int|
            0 <= k < n && chooses(s, ns, #[trigger] ws[k]) && ws[k].id@ == id,
    decreases n,
{
    if n > 0 {
        lemma_matched(ws, s, ns, id, n - 1);
        let a = services::workloads_matched(ws, ns, s.selector@, n - 1);
        let b = services::workloads_matched(ws, ns, s.selector@, n);
        let w = ws[n - 1];
        if a.contains(id) {
            let k = choose|k: int| 0 <= k < a.len() && a[k] == id;
            assert(b[k] == id);
        }
        if chooses(s, ns, w) && w.id@ == id {
            assert(b[a.len() as int] == id);
            assert(0 <= n - 1 < n);
        }
        if b.contains(id) {
            let k = choose|k: int| 0 <= k < b.len() && b[k] == id;
            if k < a.len() {
                assert(a[k] == id);
            } else {
                assert(chooses(s, ns, w) && w.id@ == id);
            }
        }
    }
}

/// A port of a service reads as its number and its protocol, which is TCP where none
/// is given, with the port that it leads to where that is another.
pub proof fn ports_read_as_they_lead(p: RawServicePort)
    ensures
        p.target is None && p.protocol is None ==> services::port_line(p) == numeral::dec(
            p.port as int,
        ) + "/"@ + "TCP"@,
        (p.target matches Some(PortRef::Number(n)) && n == p.port && p.protocol is None)
            ==> services::port_line(p) == numeral::dec(p.port as int) + "/"@ + "TCP"@,
        (p.target matches Some(PortRef::Name(s)) && s@ != numeral::dec(p.port as int)
            && p.protocol is Some) ==> services::port_line(p) == numeral::dec(p.port as int) + "→"@
            + p.target->0->Name_0@ + "/"@ + p.protocol->0@,
{
}

/// The pods of a node are counted.
pub proof fn pods_of_a_node_are_counted(g: ClusterGraph, name: Seq<char>, n: int)
    requires
        0 <= n <= g.pods@.len(),
    ensures
        node::pods_on(g, name, n) == Seq::new(n as nat, |i: int| i).filter(
            |i: int| g.pods@[i].node matches Some(x) && x@ == name,
        ).len(),
    decreases n,
{
    let p = |i: int| g.pods@[i].node matches Some(x) && x@ == name;
    reveal(Seq::filter);
    if n > 0 {
        pods_of_a_node_are_counted(g, name, n - 1);
        let a = Seq::new((n - 1) as nat, |i: int| i);
        let b = Seq::new(n as nat, |i: int| i);
        assert(b.drop_last() =~= a);
        assert(b.last() == n - 1);
        let f = |i: int| text::opt(g.pods@[i].node) == Some(name);
        assert(f(n - 1) == p(n - 1));
    }
}

/// What a pod asks of the processor is what its containers ask for: nothing where
/// none asks, and what one asks for where it is the only one.
pub proof fn requests_for_processors_add_up(p: PodInfo, k: int, n: int)
    requires
        0 <= k < p.containers@.len(),
        0 <= n <= p.containers@.len(),
        forall|j: int|
            0 <= j < p.containers@.len() && j != k ==> (#[trigger] p.containers@[j]).cpu_request_milli
                is None,
    ensures
        pod::cpu_wanted(p, n) == match p.containers@[k].cpu_request_milli {
            Some(m) => if k < n {
                m as int
            } else {
                0
            },
            None => 0,
        },
    decreases n,
{
    if n > 0 {
        requests_for_processors_add_up(p, k, n - 1);
        assert(n - 1 != k ==> p.containers@[n - 1].cpu_request_milli is None);
    }
}

/// The services of a namespace are all named.
pub proof fn services_of_a_namespace_are_named(
    g: ClusterGraph,
    ns: Seq<char>,
    name: Seq<char>,
    n: int,
)
    requires
        0 <= n <= g.services@.len(),
    ensures
        entry::services_in(g, ns, n).contains(name) <==> exists|i: int|
            0 <= i < n && (#[trigger] g.services@[i]).namespace@ == ns && g.services@[i].name@ == name,
    decreases n,
{
    if n > 0 {
        services_of_a_namespace_are_named(g, ns, name, n - 1);
        let a = entry::services_in(g, ns, n - 1);
        let b = entry::services_in(g, ns, n);
        let s = g.services@[n - 1];
        if a.contains(name) {
            let k = choose|k: int| 0 <= k < a.len() && a[k] == name;
            assert(b[k] == name);
        }
        if s.namespace@ == ns && s.name@ == name {
            assert(b[a.len() as int] == name);
        }
        if b.contains(name) {
            let k = choose|k: int| 0 <= k < b.len() && b[k] == name;
            if k < a.len() {
                assert(a[k] == name);
            } else {
                assert(s.namespace@ == ns && s.name@ == name);
            }
        }
    }
}

/// The classes of ingresses are all named.
pub proof fn classes_are_named(v: Seq<RawClass>, name: Seq<char>, n: int)
    requires
        0 <= n <= v.len(),
    ensures
        ingresses::class_names(v, n).contains(name) <==> exists|i: int|
            0 <= i < n && ((#[trigger] v[i]).name matches Some(s) && s@ == name),
    decreases n,
{
    if n > 0 {
        classes_are_named(v, name, n - 1);
        let a = ingresses::class_names(v, n - 1);
        let b = ingresses::class_names(v, n);
        let c = v[n - 1];
        if a.contains(name) {
            let k = choose|k: int| 0 <= k < a.len() && a[k] == name;
            assert(b[k] == name);
        }
        if c.name matches Some(s) && s@ == name {
            assert(b[a.len() as int] == name);
        }
        if b.contains(name) {
            let k = choose|k: int| 0 <= k < b.len() && b[k] == name;
            if k < a.len() {
                assert(a[k] == name);
            } else {
                assert(c.name is Some && c.name->0@ == name);
            }
        }
    }
}

/// A field of an object is read under its key, and each kind of value gives back
/// what it holds and is no other kind.
pub proof fn values_give_back_what_they_hold(
    f: Seq<(Seq<char>, JsonView)>,
    i: int,
    n: int,
    s: Seq<char>,
    l: Seq<JsonView>,
)
    requires
        0 <= i < f.len(),
        forall|j: int| 0 <= j < i ==> (#[trigger] f[j]).0 != f[i].0,
    ensures
        json::index(JsonView::Object(f), f[i].0) == f[i].1,
        json::as_text(JsonView::Text(s)) == Some(s),
        json::as_int(JsonView::Int(n)) == Some(n),
        json::as_list(JsonView::List(l)) == l,
        json::as_text(JsonView::Int(n)) is None,
        json::as_int(JsonView::Text(s)) is None,
        json::as_list(JsonView::Text(s)).len() == 0,
        json::index(JsonView::Text(s), f[i].0) == JsonView::Null,
{
    json::lemma_field(f, i);
}

/// A point in a number moves it by the digits behind it, and an exponent by what it
/// says, backwards where it is negative.
pub proof fn points_and_exponents_move_numbers(a: Seq<char>, b: Seq<char>, x: Seq<char>)
    requires
        a.len() > 0,
        x.len() > 0,
        numeral::all_digits(a),
        numeral::all_digits(b),
        numeral::all_digits(x),
    ensures
        reading::unsigned(a) == Some((a, 0int)),
        reading::unsigned(a.push('.') + b) == Some((a + b, -(b.len() as int))),
        reading::unsigned(a.push('e') + x) == Some((a, numeral::value(x) as int)),
        reading::unsigned(a.push('e').push('-') + x) == Some((a, -(numeral::value(x) as int))),
{
    lemma_mantissa(a, b);
    lemma_no_mark(a);
    assert(a.len() + Seq::<char>::empty().len() > 0);
    let d = a.push('.') + b;
    lemma_no_mark(d);
    let e = a.push('e') + x;
    lemma_mark(e, a.len() as int);
    assert(e.take(a.len() as int) =~= a);
    assert(e.skip(a.len() as int + 1) =~= x);
    let h = a.push('e').push('-') + x;
    lemma_mark(h, a.len() as int);
    assert(h.take(a.len() as int) =~= a);
    let y = h.skip(a.len() as int + 1);
    assert(y =~= seq!['-'] + x);
    assert(y[0] == '-');
    assert(y.skip(1) =~= x);
    assert('0' <= x[0] <= '9');
    assert(reading::exponent(x) == Some(numeral::value(x) as int));
    assert(reading::exponent(y) == Some(-(numeral::value(x) as int)));
}

proof fn lemma_mantissa(a: Seq<char>, b: Seq<char>)
    requires
        a.len() > 0,
        numeral::all_digits(a),
        numeral::all_digits(b),
    ensures
        reading::mantissa(a) == Some((a, 0int)),
        reading::mantissa(a.push('.') + b) == Some((a + b, b.len() as int)),
{
    let f = |i: int| a[i] == '.';
    pick::lemma_first(a.len() as int, f);
    assert forall|i: int| 0 <= i < a.len() implies !#[trigger] f(i) by {
        assert(numeral::is_digit(a[i]));
    }
    assert(a + Seq::<char>::empty() =~= a);
    let d = a.push('.') + b;
    let k = a.len() as int;
    let h = |i: int| d[i] == '.';
    pick::lemma_first(d.len() as int, h);
    assert(h(k));
    assert forall|i: int| 0 <= i < k implies !#[trigger] h(i) by {
        assert(d[i] == a[i]);
        assert(numeral::is_digit(a[i]));
    }
    assert(pick::first(d.len() as int, h) == Some(k));
    assert(d.take(k) =~= a);
    assert(d.skip(k + 1) =~= b);
}

proof fn lemma_no_mark(s: Seq<char>)
    requires
        forall|i: int| 0 <= i < s.len() ==> #[trigger] s[i] != 'e' && s[i] != 'E',
    ensures
        reading::unsigned(s) == match reading::mantissa(s) {
            Some(m) => Some((m.0, -m.1)),
            None => None,
        },
{
    let f = |i: int| s[i] == 'e' || s[i] == 'E';
    pick::lemma_first(s.len() as int, f);
    if pick::first(s.len() as int, f) is Some {
        assert(f(pick::first(s.len() as int, f)->0));
    }
}

proof fn lemma_mark(s: Seq<char>, k: int)
    requires
        0 <= k < s.len(),
        s[k] == 'e',
        forall|i: int| 0 <= i < k ==> #[trigger] s[i] != 'e' && s[i] != 'E',
    ensures
        reading::unsigned(s) == match (
            reading::mantissa(s.take(k)),
            reading::exponent(s.skip(k + 1)),
        ) {
            (Some(m), Some(x)) => Some((m.0, x - m.1)),
            _ => None,
        },
{
    let f = |i: int| s[i] == 'e' || s[i] == 'E';
    pick::lemma_first(s.len() as int, f);
    assert(f(k));
    let m = pick::first(s.len() as int, f)->0;
    if m < k {
        assert(f(m));
    }
    assert(pick::first(s.len() as int, f) == Some(k));
}

/// Without an argument for it, the region is what the first variable says that names
/// one.
pub proof fn else_a_variable_sets_the_region(p: ExecPlugin, k: int)
    requires
        forall|i: int| 0 <= i < p.args@.len() ==> (#[trigger] p.args@[i])@ != "--region"@,
        0 <= k < p.env@.len(),
        p.env@[k].value is Some,
        p.env@[k].name matches Some(x) && (x@ == "AWS_REGION"@ || x@ == "AWS_DEFAULT_REGION"@),
        forall|j: int|
            0 <= j < k ==> (#[trigger] p.env@[j]).value is None || text::opt(p.env@[j].name)
                != Some("AWS_REGION"@) && text::opt(p.env@[j].name) != Some("AWS_DEFAULT_REGION"@),
    ensures
        access::plugin_region(p, p.env@.len() as int) == Some(p.env@[k].value->0@),
{
    lemma_no_flag(p.args, "--region");
    let n = p.env@.len() as int;
    let f = |i: int| access::sets_region(p.env@[i]);
    pick::lemma_first(n, f);
    assert(f(k));
    let m = pick::first(n, f)->0;
    if m < k {
        assert(f(m));
        assert(access::sets_region(p.env@[m]));
    }
    assert(pick::first(n, f) == Some(k));
}

proof fn lemma_no_flag(args: Vec<String>, name: &str)
    requires
        forall|i: int| 0 <= i < args@.len() ==> (#[trigger] args@[i])@ != name@,
    ensures
        access::flag(args@, name@) is None,
{
    let f = |i: int| args@[i]@ == name@;
    pick::lemma_first(args@.len() as int, f);
    if pick::first(args@.len() as int, f) is Some {
        assert(f(pick::first(args@.len() as int, f)->0));
    }
}

/// A health check reads as its protocol, its path, its port and the codes that it
/// expects; without these, as a TCP check on the port that takes the traffic.
pub proof fn health_checks_read_as_they_are(
    tg: JsonView,
    protocol: Seq<char>,
    path: Seq<char>,
    port: Seq<char>,
    codes: Seq<char>,
)
    ensures
        json::index(tg, "HealthCheckProtocol"@) == JsonView::Text(protocol) && json::index(
            tg,
            "HealthCheckPath"@,
        ) == JsonView::Text(path) && json::index(tg, "HealthCheckPort"@) == JsonView::Text(port)
            && json::index(json::index(tg, "Matcher"@), "HttpCode"@) == JsonView::Text(codes)
            ==> health::check_words(tg) == protocol + " "@ + path + " on port "@ + port
            + ", expects "@ + codes,
        json::index(tg, "HealthCheckProtocol"@) == JsonView::Null && json::index(
            tg,
            "HealthCheckPath"@,
        ) == JsonView::Null && json::index(tg, "HealthCheckPort"@) == JsonView::Null && json::index(
            tg,
            "Matcher"@,
        ) == JsonView::Null ==> health::check_words(tg) == "TCP"@ + " on port "@
            + "traffic-port"@,
        json::index(tg, "TargetType"@) == JsonView::Text(path) ==> health::type_of(tg) == path,
        json::index(tg, "TargetType"@) == JsonView::Null ==> health::type_of(tg) == "instance"@,
{
    let w = health::check_words(tg);
    if json::index(tg, "HealthCheckProtocol"@) == JsonView::Text(protocol) && json::index(
        tg,
        "HealthCheckPath"@,
    ) == JsonView::Text(path) && json::index(tg, "HealthCheckPort"@) == JsonView::Text(port)
        && json::index(json::index(tg, "Matcher"@), "HttpCode"@) == JsonView::Text(codes) {
        assert(w =~= protocol + " "@ + path + " on port "@ + port + ", expects "@ + codes);
    }
    if json::index(tg, "Matcher"@) == JsonView::Null && json::index(tg, "HealthCheckPath"@)
        == JsonView::Null && json::index(tg, "HealthCheckPort"@) == JsonView::Null && json::index(
        tg,
        "HealthCheckProtocol"@,
    ) == JsonView::Null {
        assert(w =~= "TCP"@ + " on port "@ + "traffic-port"@);
    }
}

/// The title about targets out of service counts these and all.
pub proof fn targets_out_of_service_are_counted(g: ClusterGraph, h: LbHealth, t: TargetGroupHealth)
    ensures
        ({
            let n = t.targets@.filter(
                |x: TargetHealth|
                    x.state@ == "unhealthy"@ || x.state@ == "unavailable"@,
            ).len();
            targets::unhealthy(g, h, t).title == numeral::dec(n as int) + " of "@ + numeral::dec(
                t.targets@.len() as int,
            ) + " load balancer targets are unhealthy in "@ + t.name@
        }),
{
    lemma_bad(t, t.targets@.len() as int);
    assert(t.targets@.take(t.targets@.len() as int) =~= t.targets@);
}

proof fn lemma_bad(t: TargetGroupHealth, n: int)
    requires
        0 <= n <= t.targets@.len(),
    ensures
        targets::bad_lines(t, n).len() == t.targets@.take(n).filter(
            |x: TargetHealth| x.state@ == "unhealthy"@ || x.state@ == "unavailable"@,
        ).len(),
    decreases n,
{
    reveal(Seq::filter);
    if n > 0 {
        lemma_bad(t, n - 1);
        assert(t.targets@.take(n).drop_last() =~= t.targets@.take(n - 1));
        assert(t.targets@.take(n).last() == t.targets@[n - 1]);
    }
}

/// Where packets to a pod are dropped, the policies are to be looked at exactly where
/// one applies.
pub proof fn dropped_packets_point_at_policies(label: Seq<char>, target: Seq<char>)
    ensures
        analysis::dropped(label, target, true).suggestion
            == "Review the NetworkPolicies on the target pods; one probably doesn't admit traffic from this namespace on this port."@,
        analysis::dropped(label, target, false).suggestion
            == "With no NetworkPolicy involved, check security groups for pods (if used) and the CNI agent on the target's node."@,
{
}

/// An endpoint without an answer is told of as slow, with the time that it has; one
/// with an answer, with its status.
pub proof fn endpoints_are_told_of_by_their_answer(c: PlannedCheck, x: CheckResult)
    ensures
        x.result@ == "none"@ ==> analysis::endpoint(c, x).title == c.label@
            + " didn't answer within its "@ + numeral::dec(c.timeout as int) + "s timeout"@
            && analysis::endpoint(c, x).suggestion
            == "The endpoint is slower than the probe allows, so the kubelet will mark the pod unready or restart it. Make the endpoint cheaper, or raise timeoutSeconds."@,
        x.result@ != "none"@ ==> analysis::endpoint(c, x).title == c.label@ + " returns HTTP "@
            + x.result@ && analysis::endpoint(c, x).suggestion
            == "The kubelet treats anything outside 200-399 as a failure. Fix the endpoint or point the probe at a path that reports health."@,
{
}

/// A service without an address has none to check.
pub proof fn headless_services_have_no_address(
    g: ClusterGraph,
    s: ServiceInfo,
    sp: ServicePortInfo,
)
    requires
        s.cluster_ip is None || s.cluster_ip->0@ == "None"@,
    ensures
        planning::service_address(s) is None,
        planning::port_checks(g, Seq::empty(), planning::service_address(s), sp).len() == 0,
{
}

/// A pod is asked for a connection, within three seconds, at its address and its
/// port.
pub proof fn pods_are_asked_at_their_address(p: PodInfo, port: i32)
    ensures
        ({
            let c = planning::pod_check(p, port as int);
            &&& c.kind == "tcp"@
            &&& c.label == "pod "@ + p.name@ + " port "@ + numeral::dec(port as int)
            &&& p.pod_ip matches Some(ip) ==> c.host == ip@
            &&& c.port == Some(port)
            &&& c.timeout == 3
            &&& c.target_node == text::opt(p.node)
        }),
{
}

/// The notes of a plan end with where its probes run, before which stands that nodes
/// can't be compared exactly where there is one node beside the pod and no other.
pub proof fn plans_note_where_their_probes_run(
    g: ClusterGraph,
    s: ServiceInfo,
    req: NetworkTestRequest,
)
    ensures
        ({
            let at = planning::tested_pods(g, s);
            let near = planning::same_node(g, at);
            let p = planning::plan_of(g, s, req);
            let alone = near is Some && planning::placements(g, at).len() == 1;
            let few = "Only one usable node, so cross-node networking can't be compared."@;
            let old = planning::planned(g, s, req).notes;
            &&& p.notes.last() == "Probes run as pods in "@ + p.source_namespace + " labelled "@
                + "app.kubernetes.io/managed-by"@
                + "=tessera. NetworkPolicies that admit only specific pod labels will treat them differently from your real clients."@
            &&& alone ==> p.notes == old.push(few).push(p.notes.last())
            &&& !alone ==> p.notes == old.push(p.notes.last())
        }),
{
    let at = planning::tested_pods(g, s);
    let near = planning::same_node(g, at);
    let p = planning::plan_of(g, s, req);
    let few = "Only one usable node, so cross-node networking can't be compared."@;
    let old = planning::planned(g, s, req).notes;
    if near is Some && planning::other_node(g, at, near) is None {
        assert(p.notes =~= old.push(few).push(p.notes.last()));
    } else {
        assert(p.notes =~= old.push(p.notes.last()));
    }
}

/// Only a node whose network is unavailable is told of for it.
pub proof fn nodes_with_a_network_are_left_alone(g: ClusterGraph, x: IssueView, n: int)
    requires
        0 <= n <= g.nodes@.len(),
        cni::node_issues(g, n).contains(x),
    ensures
        exists|i: int|
            0 <= i < n && (#[trigger] g.nodes@[i]).network_unavailable && x.id
                == "cni-node-network:"@ + g.nodes@[i].name@,
    decreases n,
{
    let a = cni::node_issues(g, n - 1);
    let b = cni::node_issues(g, n);
    let k = choose|k: int| 0 <= k < b.len() && b[k] == x;
    if n > 0 {
        if k < a.len() {
            assert(a[k] == x);
            nodes_with_a_network_are_left_alone(g, x, n - 1);
        } else {
            assert(g.nodes@[n - 1].network_unavailable);
        }
    }
}

/// The nodes without their agent are those of its pods that are not ready.
pub proof fn nodes_without_their_agent_are_named(
    g: ClusterGraph,
    w: WorkloadInfo,
    name: Seq<char>,
    n: int,
)
    requires
        0 <= n <= g.pods@.len(),
    ensures
        cni::bad_nodes(g, w, n).contains(name) <==> exists|i: int|
            0 <= i < n && text::opt((#[trigger] g.pods@[i]).workload) == Some(w.id@)
                && !g.pods@[i].ready && text::opt(g.pods@[i].node) == Some(name),
    decreases n,
{
    if n > 0 {
        nodes_without_their_agent_are_named(g, w, name, n - 1);
        let a = cni::bad_nodes(g, w, n - 1);
        let b = cni::bad_nodes(g, w, n);
        let p = g.pods@[n - 1];
        let yes = text::opt(p.workload) == Some(w.id@) && !p.ready && text::opt(p.node) == Some(
            name,
        );
        if a.contains(name) {
            let k = choose|k: int| 0 <= k < a.len() && a[k] == name;
            assert(b[k] == name);
        }
        if yes {
            assert(b[a.len() as int] == name);
        }
        if b.contains(name) {
            let k = choose|k: int| 0 <= k < b.len() && b[k] == name;
            if k < a.len() {
                assert(a[k] == name);
            } else {
                assert(yes);
            }
        }
    }
}

/// The pods on such nodes are counted, without those of the system.
pub proof fn pods_beside_a_failed_agent_are_counted(
    g: ClusterGraph,
    nodes: Seq<Seq<char>>,
    n: int,
)
    requires
        0 <= n <= g.pods@.len(),
    ensures
        cni::affected(g, nodes, n) == g.pods@.take(n).filter(
            |p: PodInfo|
                p.namespace@ != "kube-system"@ && (p.node matches Some(x) && nodes.contains(x@)),
        ).len(),
    decreases n,
{
    reveal(Seq::filter);
    if n > 0 {
        pods_beside_a_failed_agent_are_counted(g, nodes, n - 1);
        assert(g.pods@.take(n).drop_last() =~= g.pods@.take(n - 1));
        assert(g.pods@.take(n).last() == g.pods@[n - 1]);
    }
}

/// What a workload asks of the memory is what its containers ask for: nothing where
/// none asks, and what one asks for where it is the only one.
pub proof fn requests_for_memory_add_up(w: WorkloadInfo, k: int, n: int)
    requires
        0 <= k < w.containers@.len(),
        0 <= n <= w.containers@.len(),
        forall|j: int|
            0 <= j < w.containers@.len() && j != k
                ==> (#[trigger] w.containers@[j]).memory_request_bytes is None,
    ensures
        pod::memory_of(w, n) == match w.containers@[k].memory_request_bytes {
            Some(m) => if k < n {
                m as int
            } else {
                0
            },
            None => 0,
        },
    decreases n,
{
    if n > 0 {
        requests_for_memory_add_up(w, k, n - 1);
        assert(n - 1 != k ==> w.containers@[n - 1].memory_request_bytes is None);
    }
}

/// The restarts that are told with a finding are those of its pods: where only one
/// pod has restarted, they are its own, if it is one of them, and else none.
pub proof fn restarts_of_other_pods_do_not_count(
    g: ClusterGraph,
    key: Seq<char>,
    f: pod::PodFinding,
    k: int,
    n: int,
)
    requires
        0 <= k < g.pods@.len(),
        0 <= n <= g.pods@.len(),
        forall|j: int|
            0 <= j < g.pods@.len() && j != k ==> (#[trigger] g.pods@[j]).restarts == 0,
    ensures
        pod::group_restarts(g, key, f, n) == if k < n && pod::finding(g.pods@[k]) == Some(f)
            && pod::owner(g.pods@[k]) == key {
            g.pods@[k].restarts as int
        } else {
            0
        },
    decreases n,
{
    if n > 0 {
        restarts_of_other_pods_do_not_count(g, key, f, k, n - 1);
        assert(n - 1 != k ==> g.pods@[n - 1].restarts == 0);
    }
}

/// The event of a pod that is quoted is about that pod, for the reason, and begins as
/// wanted.
pub proof fn quoted_events_are_about_the_pod(
    g: ClusterGraph,
    p: PodInfo,
    reason: Seq<char>,
    start: Seq<char>,
    n: int,
)
    requires
        0 <= n <= g.events@.len(),
    ensures
        match pod::pod_event(g, p, reason, start, n) {
            Some(i) => 0 <= i < n && g.events@[i].kind@ == "Pod"@ && g.events@[i].namespace@
                == p.namespace@ && g.events@[i].name@ == p.name@ && g.events@[i].reason@ == reason
                && scan::starts_with(g.events@[i].message@, start),
            None => forall|i: int|
                0 <= i < n ==> !((#[trigger] g.events@[i]).kind@ == "Pod"@
                    && g.events@[i].namespace@ == p.namespace@ && g.events@[i].name@ == p.name@
                    && g.events@[i].reason@ == reason && scan::starts_with(
                    g.events@[i].message@,
                    start,
                )),
        },
    decreases n,
{
    if n > 0 {
        quoted_events_are_about_the_pod(g, p, reason, start, n - 1);
    }
}

/// Events about the configuration of DNS are counted.
pub proof fn odd_dns_is_counted(g: ClusterGraph, n: int)
    requires
        0 <= n <= g.events@.len(),
    ensures
        dns::formings(g, n) == g.events@.take(n).filter(
            |e: EventInfo| e.reason@ == "DNSConfigForming"@,
        ).len(),
    decreases n,
{
    reveal(Seq::filter);
    if n > 0 {
        odd_dns_is_counted(g, n - 1);
        assert(g.events@.take(n).drop_last() =~= g.events@.take(n - 1));
        assert(g.events@.take(n).last() == g.events@[n - 1]);
    }
}

/// The events that are quoted with a claim are those about it.
pub proof fn events_of_a_claim_are_quoted(g: ClusterGraph, c: PvcInfo, i: int, n: int)
    requires
        0 <= i < n <= g.events@.len(),
    ensures
        ({
            let e = g.events@[i];
            e.kind@ == "PersistentVolumeClaim"@ && e.namespace@ == c.namespace@ && e.name@
                == c.name@ ==> storage::claim_events(g, c, n).contains(
                e.reason@ + ": "@ + e.message@,
            )
        }),
        (forall|j: int|
            0 <= j < n ==> (#[trigger] g.events@[j]).kind@ != "PersistentVolumeClaim"@
                || g.events@[j].namespace@ != c.namespace@ || g.events@[j].name@ != c.name@)
            ==> storage::claim_events(g, c, n).len() == 0,
    decreases n,
{
    let a = storage::claim_events(g, c, n - 1);
    let b = storage::claim_events(g, c, n);
    let e = g.events@[i];
    let x = e.reason@ + ": "@ + e.message@;
    if i < n - 1 {
        events_of_a_claim_are_quoted(g, c, i, n - 1);
        if a.contains(x) {
            let k = choose|k: int| 0 <= k < a.len() && a[k] == x;
            assert(b[k] == x);
        }
    } else {
        if n > 1 {
            events_of_a_claim_are_quoted(g, c, 0, n - 1);
        }
        if e.kind@ == "PersistentVolumeClaim"@ && e.namespace@ == c.namespace@ && e.name@
            == c.name@ {
            assert(b[a.len() as int] == x);
        }
    }
}

/// A setting is locked where the file that locks gives it, or it was locked before;
/// a file that does not lock locks nothing.
pub proof fn given_settings_are_locked(old: Seq<Seq<char>>, f: PolicyFile, lock: bool)
    ensures
        ({
            let r = rules::locks(old, f, lock);
            &&& lock && f.allow_network_tests is Some ==> r.contains("allowNetworkTests"@)
            &&& lock && f.allow_network_tests_in_production is Some ==> r.contains(
                "allowNetworkTestsInProduction"@,
            )
            &&& lock && f.allow_cloud_checks is Some ==> r.contains("allowCloudChecks"@)
            &&& lock && f.production_context_patterns is Some ==> r.contains(
                "productionContextPatterns"@,
            )
            &&& lock && f.staging_context_patterns is Some ==> r.contains("stagingContextPatterns"@)
            &&& lock && f.development_context_patterns is Some ==> r.contains(
                "developmentContextPatterns"@,
            )
            &&& lock && f.allowed_contexts is Some ==> r.contains("allowedContexts"@)
            &&& lock && f.hidden_contexts is Some ==> r.contains("hiddenContexts"@)
            &&& lock && f.audit_log is Some ==> r.contains("auditLog"@)
            &&& forall|x: Seq<char>| old.contains(x) ==> #[trigger] r.contains(x)
            &&& !lock ==> r == old
        }),
{
    let l0 = rules::with_lock(old, "allowNetworkTests"@, lock && f.allow_network_tests is Some);
    let l1 = rules::with_lock(
        l0,
        "allowNetworkTestsInProduction"@,
        lock && f.allow_network_tests_in_production is Some,
    );
    let l2 = rules::with_lock(l1, "allowCloudChecks"@, lock && f.allow_cloud_checks is Some);
    let l3 = rules::with_lock(
        l2,
        "productionContextPatterns"@,
        lock && f.production_context_patterns is Some,
    );
    let l4 = rules::with_lock(
        l3,
        "stagingContextPatterns"@,
        lock && f.staging_context_patterns is Some,
    );
    let l5 = rules::with_lock(
        l4,
        "developmentContextPatterns"@,
        lock && f.development_context_patterns is Some,
    );
    let l6 = rules::with_lock(l5, "allowedContexts"@, lock && f.allowed_contexts is Some);
    let l7 = rules::with_lock(l6, "hiddenContexts"@, lock && f.hidden_contexts is Some);
    lemma_locked(old, "allowNetworkTests"@, lock && f.allow_network_tests is Some);
    lemma_locked(
        l0,
        "allowNetworkTestsInProduction"@,
        lock && f.allow_network_tests_in_production is Some,
    );
    lemma_locked(l1, "allowCloudChecks"@, lock && f.allow_cloud_checks is Some);
    lemma_locked(
        l2,
        "productionContextPatterns"@,
        lock && f.production_context_patterns is Some,
    );
    lemma_locked(l3, "stagingContextPatterns"@, lock && f.staging_context_patterns is Some);
    lemma_locked(l4, "developmentContextPatterns"@, lock && f.development_context_patterns is Some);
    lemma_locked(l5, "allowedContexts"@, lock && f.allowed_contexts is Some);
    lemma_locked(l6, "hiddenContexts"@, lock && f.hidden_contexts is Some);
    lemma_locked(l7, "auditLog"@, lock && f.audit_log is Some);
}

proof fn lemma_locked(s: Seq<Seq<char>>, name: Seq<char>, add: bool)
    ensures
        add ==> rules::with_lock(s, name, add).contains(name),
        !add ==> rules::with_lock(s, name, add) == s,
        forall|x: Seq<char>| #[trigger]
            s.contains(x) ==> rules::with_lock(s, name, add).contains(x),
{
    let t = rules::with_lock(s, name, add);
    if add && !s.contains(name) {
        assert(t[s.len() as int] == name);
        assert forall|x: Seq<char>| #[trigger] s.contains(x) implies t.contains(x) by {
            let k = choose|k: int| 0 <= k < s.len() && s[k] == x;
            assert(t[k] == x);
        }
    }
}

/// A region has an area of two letters, a place and a number; what lacks the place
/// or the number is none.
pub proof fn regions_have_an_area_a_place_and_a_number(
    area: Seq<char>,
    place: Seq<char>,
    number: Seq<char>,
)
    requires
        !area.contains('-'),
        !place.contains('-'),
        !number.contains('-'),
    ensures
        names::is_region(area.push('-') + (place.push('-') + number)) <==> area.len() == 2 && 'a'
            <= area[0] <= 'z' && 'a' <= area[1] <= 'z' && number.len() > 0 && forall|i: int|
            0 <= i < number.len() ==> '0' <= #[trigger] number[i] <= '9',
        !names::is_region(area.push('-') + number),
        !names::is_region(area),
{
    let b = place.push('-') + number;
    let s = area.push('-') + b;
    probing::lemma_split_off(area, b, '-', s.len() + 1);
    probing::lemma_split_off(place, number, '-', s.len());
    if s.len() >= 3 {
        probing::lemma_split_off(number, Seq::empty(), '-', (s.len() - 1) as nat);
    } else {
        lemma_single(number);
    }
    let p = split::split(s, '-');
    assert(p =~= seq![area, place, number]);
    assert(p.last() == number);
    let t = area.push('-') + number;
    probing::lemma_split_off(area, number, '-', t.len() + 1);
    if t.len() >= 2 {
        probing::lemma_split_off(number, Seq::empty(), '-', t.len());
    } else {
        lemma_single(number);
    }
    assert(split::split(t, '-') =~= seq![area, number]);
    if area.len() >= 1 {
        probing::lemma_split_off(area, Seq::empty(), '-', area.len() + 1);
    } else {
        lemma_single(area);
    }
}

proof fn lemma_single(s: Seq<char>)
    requires
        s.len() == 0,
    ensures
        split::split_max(s, '-', 1) == seq![s],
{
    assert(s =~= Seq::<char>::empty());
}

} // verus!
