//! What is told of the mesh and of probes.

use crate::labels;
use crate::laws::reports;
use crate::laws::reports::{stands_under, told, told_of};
use crate::lettercase;
use crate::model::{
    ClusterGraph, ContainerSpecInfo, EventInfo, IssueView, NamespaceInfo, PodInfo, ProbeInfo,
    ServiceInfo, Severity, VirtualServiceInfo, WorkloadInfo,
};
use crate::numeral;
use crate::pick;
use crate::rules::mesh;
use crate::rules::pod;
use crate::rules::probes;
use crate::scan;
use crate::text;
use vstd::prelude::*;

verus! {

/// Does the pod run the mesh's proxy, as a container or as one that starts first?
pub open spec fn runs_proxy(p: PodInfo) -> bool {
    (exists|j: int|
        0 <= j < p.containers@.len() && (#[trigger] p.containers@[j]).name@ == "istio-proxy"@) || (
    exists|j: int|
        0 <= j < p.init_containers@.len() && (#[trigger] p.init_containers@[j])@
            == "istio-proxy"@)
}

proof fn lemma_proxy_runs(p: PodInfo, n: int)
    requires
        0 <= n <= p.containers@.len(),
    ensures
        mesh::proxy_runs(p, n) <==> exists|j: int|
            0 <= j < n && (#[trigger] p.containers@[j]).name@ == "istio-proxy"@,
    decreases n,
{
    if n > 0 {
        lemma_proxy_runs(p, n - 1);
        if p.containers@[n - 1].name@ == "istio-proxy"@ {
            assert(0 <= n - 1 < n);
        }
    }
}

proof fn lemma_sidecar(p: PodInfo)
    ensures
        mesh::has_sidecar(p) == runs_proxy(p),
{
    lemma_proxy_runs(p, p.containers@.len() as int);
    let all = text::strs(p.init_containers@);
    if all.contains("istio-proxy"@) {
        let k = choose|k: int| 0 <= k < all.len() && all[k] == "istio-proxy"@;
        assert(p.init_containers@[k]@ == "istio-proxy"@);
    }
    if exists|j: int|
        0 <= j < p.init_containers@.len() && (#[trigger] p.init_containers@[j])@ == "istio-proxy"@ {
        let k = choose|j: int|
            0 <= j < p.init_containers@.len() && (#[trigger] p.init_containers@[j])@
                == "istio-proxy"@;
        assert(all[k] == "istio-proxy"@);
    }
}

/// Is the mesh in use: installed, or with a pod that runs its proxy?
pub open spec fn mesh_is_used(g: ClusterGraph) -> bool {
    g.mesh.installed || exists|i: int| 0 <= i < g.pods@.len() && runs_proxy(#[trigger] g.pods@[i])
}

proof fn lemma_used(g: ClusterGraph)
    ensures
        (g.mesh.installed || mesh::sidecar_seen(g, g.pods@.len() as int)) == mesh_is_used(g),
{
    let n = g.pods@.len() as int;
    let f = |i: int| mesh::has_sidecar(g.pods@[i]);
    pick::lemma_any(n, f);
    assert(mesh::sidecar_seen(g, n) == pick::any(n, f));
    if pick::any(n, f) {
        let i = choose|i: int| 0 <= i < n && #[trigger] f(i);
        lemma_sidecar(g.pods@[i]);
        assert(runs_proxy(g.pods@[i]));
    }
    if exists|i: int| 0 <= i < n && runs_proxy(#[trigger] g.pods@[i]) {
        let i = choose|i: int| 0 <= i < n && runs_proxy(#[trigger] g.pods@[i]);
        lemma_sidecar(g.pods@[i]);
        assert(f(i));
    }
}

/// Nothing is told of a mesh that is not in use.
pub proof fn a_mesh_that_is_not_used_is_left_alone(g: ClusterGraph)
    requires
        !mesh_is_used(g),
    ensures
        mesh::mesh_issues(g).len() == 0,
{
    lemma_used(g);
}

/// Does the namespace ask for the proxy in its pods?
pub open spec fn asks_for_proxy(n: NamespaceInfo) -> bool {
    labels::lookup(n.labels@, "istio-injection"@) == Some("enabled"@) || labels::lookup(
        n.labels@,
        "istio.io/rev"@,
    ) is Some
}

/// Does the pod run without the proxy, though its namespace asks for it and the
/// pod does not refuse it?
pub open spec fn lacks_proxy(g: ClusterGraph, p: PodInfo) -> bool {
    &&& exists|k: int|
        0 <= k < g.namespaces@.len() && (#[trigger] g.namespaces@[k]).name@ == p.namespace@
            && asks_for_proxy(g.namespaces@[k])
    &&& p.phase@ == "Running"@
    &&& !runs_proxy(p)
    &&& labels::lookup(p.labels@, "sidecar.istio.io/inject"@) != Some("false"@)
}

proof fn lemma_injected(g: ClusterGraph, ns: Seq<char>, n: int)
    requires
        0 <= n <= g.namespaces@.len(),
    ensures
        mesh::injected(g, ns, n) <==> exists|k: int|
            0 <= k < n && (#[trigger] g.namespaces@[k]).name@ == ns && asks_for_proxy(
                g.namespaces@[k],
            ),
    decreases n,
{
    if n > 0 {
        lemma_injected(g, ns, n - 1);
        if g.namespaces@[n - 1].name@ == ns && asks_for_proxy(g.namespaces@[n - 1]) {
            assert(0 <= n - 1 < n);
        }
    }
}

proof fn lemma_bare(g: ClusterGraph, p: PodInfo)
    ensures
        mesh::bare(g, p) == lacks_proxy(g, p),
{
    lemma_sidecar(p);
    lemma_injected(g, p.namespace@, g.namespaces@.len() as int);
}

proof fn lemma_mesh_told(g: ClusterGraph, x: IssueView)
    requires
        mesh_is_used(g),
        mesh::bare_issues(g).contains(x) || mesh::virtual_issues(
            g,
            g.mesh.virtual_services@.len() as int,
        ).contains(x),
    ensures
        told(g, x.id, x.severity),
        forall|p: Seq<char>| x.pods.contains(p) ==> #[trigger] told_of(g, x.id, x.severity, p),
{
    lemma_used(g);
    reports::lemma_either(
        mesh::bare_issues(g),
        mesh::virtual_issues(g, g.mesh.virtual_services@.len() as int),
        x,
    );
    reports::lemma_told(g, x);
}

proof fn lemma_bare_names(g: ClusterGraph, key: Seq<char>, i: int, n: int)
    requires
        0 <= i < n <= g.pods@.len(),
        mesh::bare(g, g.pods@[i]),
        pod::owner(g.pods@[i]) == key,
    ensures
        mesh::bare_first(g, key, n) is Some,
        mesh::bare_names(g, key, n).contains(g.pods@[i].name@),
    decreases n,
{
    let a = mesh::bare_names(g, key, n - 1);
    let b = mesh::bare_names(g, key, n);
    if i < n - 1 {
        lemma_bare_names(g, key, i, n - 1);
        let k = choose|k: int| 0 <= k < a.len() && a[k] == g.pods@[i].name@;
        assert(b[k] == g.pods@[i].name@);
    } else {
        assert(b[a.len() as int] == g.pods@[i].name@);
    }
}

/// A pod that lacks the proxy of a mesh in use is told of, as a warning.
pub proof fn pods_without_their_proxy_are_told_of(g: ClusterGraph, i: int, key: Seq<char>)
    requires
        mesh_is_used(g),
        0 <= i < g.pods@.len(),
        lacks_proxy(g, g.pods@[i]),
        stands_under(g.pods@[i], key),
    ensures
        told_of(g, "mesh-no-sidecar:"@ + key, Severity::Warning, g.pods@[i].name@),
{
    let n = g.pods@.len() as int;
    assert(key == pod::owner(g.pods@[i]));
    lemma_bare(g, g.pods@[i]);
    lemma_bare_names(g, key, i, n);
    let keys = mesh::bare_owners(g, n);
    let own = |i: int|
        if mesh::bare(g, g.pods@[i]) {
            Some(pod::owner(g.pods@[i]))
        } else {
            None
        };
    pick::lemma_keys(n, own);
    assert(keys == pick::keys(n, own));
    assert(own(i) == Some(key));
    assert(keys.contains(key));
    let m = choose|m: int| 0 <= m < keys.len() && keys[m] == key;
    let x = mesh::bare_of(g, key)[0];
    let all = |k: int| mesh::bare_of(g, keys[k]);
    assert(all(m).contains(x));
    reports::lemma_gathered(keys.len() as int, all, m, x);
    assert(mesh::bare_issues(g) == pick::gather(keys.len() as int, all));
    lemma_mesh_told(g, x);
}

/// An issue about a missing proxy is about an owner with a pod that lacks it.
pub proof fn pods_with_their_proxy_are_left_alone(g: ClusterGraph, x: IssueView)
    requires
        mesh::bare_issues(g).contains(x),
    ensures
        exists|i: int|
            0 <= i < g.pods@.len() && lacks_proxy(g, #[trigger] g.pods@[i]) && x.id
                == "mesh-no-sidecar:"@ + pod::owner(g.pods@[i]),
{
    let n = g.pods@.len() as int;
    let keys = mesh::bare_owners(g, n);
    let all = |k: int| mesh::bare_of(g, keys[k]);
    assert(mesh::bare_issues(g) == pick::gather(keys.len() as int, all));
    pick::lemma_gather_contains(keys.len() as int, all, x);
    let k = choose|k: int| 0 <= k < keys.len() && (#[trigger] all(k)).contains(x);
    let own = |i: int|
        if mesh::bare(g, g.pods@[i]) {
            Some(pod::owner(g.pods@[i]))
        } else {
            None
        };
    pick::lemma_keys(n, own);
    assert(keys == pick::keys(n, own));
    assert(keys.contains(keys[k]));
    let i = choose|i: int| 0 <= i < n && #[trigger] own(i) == Some(keys[k]);
    lemma_bare(g, g.pods@[i]);
    assert(lacks_proxy(g, g.pods@[i]));
}

/// Is this the first service with the name?
pub open spec fn is_service_at(g: ClusterGraph, to: (Seq<char>, Seq<char>), k: int) -> bool {
    0 <= k < g.services@.len() && is_named(g.services@[k], to) && forall|j: int|
        0 <= j < k ==> !is_named(#[trigger] g.services@[j], to)
}

/// Is the service in this namespace, under this name?
pub open spec fn is_named(s: ServiceInfo, to: (Seq<char>, Seq<char>)) -> bool {
    s.namespace@ == to.0 && s.name@ == to.1
}

proof fn lemma_service_at(g: ClusterGraph, to: (Seq<char>, Seq<char>), n: int)
    requires
        0 <= n <= g.services@.len(),
    ensures
        match mesh::service_at(g, to.0, to.1, n) {
            Some(k) => k < n && is_service_at(g, to, k),
            None => forall|j: int| 0 <= j < n ==> !is_named(#[trigger] g.services@[j], to),
        },
    decreases n,
{
    if n > 0 {
        lemma_service_at(g, to, n - 1);
    }
}

/// Do two destinations of a virtual service say the same?
pub open spec fn same_destination(vs: VirtualServiceInfo, i: int, j: int) -> bool {
    vs.destinations@[i].0@ == vs.destinations@[j].0@ && text::opt(vs.destinations@[i].1)
        == text::opt(vs.destinations@[j].1)
}

proof fn lemma_repeated(vs: VirtualServiceInfo, j: int, n: int)
    requires
        0 <= n <= j < vs.destinations@.len(),
    ensures
        mesh::repeated(vs, j, n) <==> exists|i: int|
            0 <= i < n && #[trigger] same_destination(vs, i, j),
    decreases n,
{
    if n > 0 {
        lemma_repeated(vs, j, n - 1);
        if same_destination(vs, n - 1, j) {
            assert(same_destination(vs, n - 1, j));
        }
    }
}

proof fn lemma_destination_told(g: ClusterGraph, v: int, j: int, x: IssueView)
    requires
        mesh_is_used(g),
        0 <= v < g.mesh.virtual_services@.len(),
        0 <= j < g.mesh.virtual_services@[v].destinations@.len(),
        mesh::destination_issue(g, g.mesh.virtual_services@[v], j).contains(x),
    ensures
        told(g, x.id, x.severity),
{
    let vs = g.mesh.virtual_services@[v];
    let n = vs.destinations@.len() as int;
    let f = |j: int| mesh::destination_issue(g, vs, j);
    reports::lemma_gathered(n, f, j, x);
    assert(mesh::destination_issues(g, vs, n) == pick::gather(n, f));
    let m = g.mesh.virtual_services@.len() as int;
    let e = |i: int|
        mesh::destination_issues(
            g,
            g.mesh.virtual_services@[i],
            g.mesh.virtual_services@[i].destinations@.len() as int,
        );
    assert(e(v).contains(x));
    reports::lemma_gathered(m, e, v, x);
    assert(mesh::virtual_issues(g, m) == pick::gather(m, e));
    lemma_mesh_told(g, x);
}

/// Is this the first destination of its kind that the virtual service has?
pub open spec fn is_first(vs: VirtualServiceInfo, j: int) -> bool {
    0 <= j < vs.destinations@.len() && forall|i: int|
        0 <= i < j ==> !(#[trigger] same_destination(vs, i, j))
}

/// A destination that stands for a service that does not exist is told of, as
/// critical. One without a subset that stands for a service that does is not.
pub proof fn destinations_that_do_not_exist_are_told_of(
    g: ClusterGraph,
    v: int,
    j: int,
    to: (Seq<char>, Seq<char>),
)
    requires
        mesh_is_used(g),
        0 <= v < g.mesh.virtual_services@.len(),
        is_first(g.mesh.virtual_services@[v], j),
        mesh::resolve_host(
            g.mesh.virtual_services@[v].destinations@[j].0@,
            g.mesh.virtual_services@[v].namespace@,
        ) == Some(to),
    ensures
        ({
            let vs = g.mesh.virtual_services@[v];
            let there = exists|k: int|
                0 <= k < g.services@.len() && is_named(#[trigger] g.services@[k], to);
            &&& !there ==> told(
                g,
                "mesh-dest-missing:"@ + vs.namespace@ + "/"@ + vs.name@ + "/"@
                    + vs.destinations@[j].0@,
                Severity::Critical,
            )
            &&& there && vs.destinations@[j].1 is None ==> mesh::destination_issue(g, vs, j).len()
                == 0
        }),
{
    let vs = g.mesh.virtual_services@[v];
    lemma_service_at(g, to, g.services@.len() as int);
    lemma_repeated(vs, j, j);
    let all = mesh::destination_issue(g, vs, j);
    if !(exists|k: int| 0 <= k < g.services@.len() && is_named(#[trigger] g.services@[k], to)) {
        if mesh::service_at(g, to.0, to.1, g.services@.len() as int) is Some {
            let k = mesh::service_at(g, to.0, to.1, g.services@.len() as int)->0;
            assert(is_named(g.services@[k], to));
        }
        assert(all.contains(all[0]));
        lemma_destination_told(g, v, j, all[0]);
    }
}

/// Is the rule at an index the first for the service?
pub open spec fn is_rule_for(g: ClusterGraph, to: (Seq<char>, Seq<char>), r: int) -> bool {
    0 <= r < g.mesh.destination_rules@.len() && mesh::rule_for(g, to.0, to.1, r) && forall|q: int|
        0 <= q < r ==> !(#[trigger] mesh::rule_for(g, to.0, to.1, q))
}

/// Does the rule define the subset at this index first?
pub open spec fn defines(g: ClusterGraph, r: int, sub: Seq<char>, k: int) -> bool {
    let d = g.mesh.destination_rules@[r];
    0 <= k < d.subsets@.len() && d.subsets@[k].0@ == sub && forall|q: int|
        0 <= q < k ==> (#[trigger] d.subsets@[q]).0@ != sub
}

proof fn lemma_rule(g: ClusterGraph, to: (Seq<char>, Seq<char>), n: int)
    requires
        0 <= n <= g.mesh.destination_rules@.len(),
    ensures
        match mesh::destination_rule(g, to.0, to.1, n) {
            Some(r) => r < n && is_rule_for(g, to, r),
            None => forall|q: int| 0 <= q < n ==> !(#[trigger] mesh::rule_for(g, to.0, to.1, q)),
        },
    decreases n,
{
    if n > 0 {
        lemma_rule(g, to, n - 1);
    }
}

proof fn lemma_subset(g: ClusterGraph, r: int, sub: Seq<char>, n: int)
    requires
        0 <= r < g.mesh.destination_rules@.len(),
        0 <= n <= g.mesh.destination_rules@[r].subsets@.len(),
    ensures
        match mesh::subset(g.mesh.destination_rules@[r], sub, n) {
            Some(k) => k < n && defines(g, r, sub, k),
            None => forall|q: int|
                0 <= q < n ==> (#[trigger] g.mesh.destination_rules@[r].subsets@[q]).0@ != sub,
        },
    decreases n,
{
    if n > 0 {
        lemma_subset(g, r, sub, n - 1);
    }
}

/// Is no rule for the service there, or is the subset not in the first?
pub open spec fn is_undefined(g: ClusterGraph, to: (Seq<char>, Seq<char>), sub: Seq<char>) -> bool {
    forall|r: int, k: int|
        !(#[trigger] is_rule_for(g, to, r) && #[trigger] defines(g, r, sub, k))
}

/// A subset that no rule for the service defines is told of, as critical.
pub proof fn subsets_that_are_not_defined_are_told_of(
    g: ClusterGraph,
    v: int,
    j: int,
    to: (Seq<char>, Seq<char>),
    s: int,
)
    requires
        mesh_is_used(g),
        0 <= v < g.mesh.virtual_services@.len(),
        is_first(g.mesh.virtual_services@[v], j),
        mesh::resolve_host(
            g.mesh.virtual_services@[v].destinations@[j].0@,
            g.mesh.virtual_services@[v].namespace@,
        ) == Some(to),
        0 <= s < g.services@.len(),
        is_named(g.services@[s], to),
        g.mesh.virtual_services@[v].destinations@[j].1 is Some,
        is_undefined(g, to, g.mesh.virtual_services@[v].destinations@[j].1->0@),
    ensures
        ({
            let vs = g.mesh.virtual_services@[v];
            told(
                g,
                "mesh-subset-missing:"@ + vs.namespace@ + "/"@ + vs.name@ + "/"@
                    + vs.destinations@[j].0@ + "/"@ + vs.destinations@[j].1->0@,
                Severity::Critical,
            )
        }),
{
    let vs = g.mesh.virtual_services@[v];
    let sub = vs.destinations@[j].1->0@;
    lemma_service_at(g, to, g.services@.len() as int);
    lemma_repeated(vs, j, j);
    lemma_rule(g, to, g.mesh.destination_rules@.len() as int);
    match mesh::destination_rule(g, to.0, to.1, g.mesh.destination_rules@.len() as int) {
        Some(r) => {
            lemma_subset(g, r, sub, g.mesh.destination_rules@[r].subsets@.len() as int);
            match mesh::subset(
                g.mesh.destination_rules@[r],
                sub,
                g.mesh.destination_rules@[r].subsets@.len() as int,
            ) {
                Some(k) => {
                    assert(is_rule_for(g, to, r) && defines(g, r, sub, k));
                },
                None => {},
            }
        },
        None => {},
    }
    let all = mesh::destination_issue(g, vs, j);
    assert(all.contains(all[0]));
    lemma_destination_told(g, v, j, all[0]);
}

/// Is there a pod in the namespace with all these labels?
pub open spec fn some_pod_has(
    g: ClusterGraph,
    ns: Seq<char>,
    sel: Seq<(Seq<char>, Seq<char>)>,
) -> bool {
    exists|i: int|
        0 <= i < g.pods@.len() && (#[trigger] g.pods@[i]).namespace@ == ns && labels::selects(
            sel,
            g.pods@[i].labels@,
        )
}

proof fn lemma_any_pod(
    g: ClusterGraph,
    ns: Seq<char>,
    sel: Seq<(Seq<char>, Seq<char>)>,
    n: int,
)
    requires
        0 <= n <= g.pods@.len(),
    ensures
        mesh::any_pod(g, ns, sel, n) <==> exists|i: int|
            0 <= i < n && (#[trigger] g.pods@[i]).namespace@ == ns && labels::selects(
                sel,
                g.pods@[i].labels@,
            ),
    decreases n,
{
    if n > 0 {
        lemma_any_pod(g, ns, sel, n - 1);
        if g.pods@[n - 1].namespace@ == ns && labels::selects(sel, g.pods@[n - 1].labels@) {
            assert(0 <= n - 1 < n);
        }
    }
}

/// A subset is told of, as critical, exactly where no pod has the labels of the
/// service together with those of the subset.
pub proof fn subsets_without_pods_are_told_of(
    g: ClusterGraph,
    v: int,
    j: int,
    to: (Seq<char>, Seq<char>),
    s: int,
    r: int,
    k: int,
)
    requires
        mesh_is_used(g),
        0 <= v < g.mesh.virtual_services@.len(),
        is_first(g.mesh.virtual_services@[v], j),
        mesh::resolve_host(
            g.mesh.virtual_services@[v].destinations@[j].0@,
            g.mesh.virtual_services@[v].namespace@,
        ) == Some(to),
        is_service_at(g, to, s),
        g.mesh.virtual_services@[v].destinations@[j].1 is Some,
        is_rule_for(g, to, r),
        defines(g, r, g.mesh.virtual_services@[v].destinations@[j].1->0@, k),
    ensures
        ({
            let vs = g.mesh.virtual_services@[v];
            let l = g.mesh.destination_rules@[r].subsets@[k].1;
            if some_pod_has(g, to.0, labels::with_all(g.services@[s].selector@, l@)) {
                mesh::destination_issue(g, vs, j).len() == 0
            } else {
                told(
                    g,
                    "mesh-subset-empty:"@ + vs.namespace@ + "/"@ + vs.name@ + "/"@
                        + vs.destinations@[j].0@ + "/"@ + vs.destinations@[j].1->0@,
                    Severity::Critical,
                )
            }
        }),
{
    let vs = g.mesh.virtual_services@[v];
    let sub = vs.destinations@[j].1->0@;
    let n = g.mesh.destination_rules@.len() as int;
    let l = g.mesh.destination_rules@[r].subsets@[k].1;
    lemma_service_at(g, to, g.services@.len() as int);
    let a = mesh::service_at(g, to.0, to.1, g.services@.len() as int)->0;
    assert(is_named(g.services@[s], to));
    if a < s {
        assert(!is_named(g.services@[a], to));
    } else if s < a {
        assert(!is_named(g.services@[s], to));
    }
    lemma_repeated(vs, j, j);
    lemma_rule(g, to, n);
    let b = mesh::destination_rule(g, to.0, to.1, n)->0;
    assert(mesh::rule_for(g, to.0, to.1, r));
    if b < r {
        assert(!mesh::rule_for(g, to.0, to.1, b));
    } else if r < b {
        assert(!mesh::rule_for(g, to.0, to.1, r));
    }
    let d = g.mesh.destination_rules@[r];
    lemma_subset(g, r, sub, d.subsets@.len() as int);
    let c = mesh::subset(d, sub, d.subsets@.len() as int)->0;
    assert(d.subsets@[k].0@ == sub);
    if c < k {
        assert(d.subsets@[c].0@ != sub);
    } else if k < c {
        assert(d.subsets@[k].0@ != sub);
    }
    lemma_any_pod(
        g,
        to.0,
        labels::with_all(g.services@[s].selector@, l@),
        g.pods@.len() as int,
    );
    let all = mesh::destination_issue(g, vs, j);
    if all.len() > 0 {
        assert(all.contains(all[0]));
        lemma_destination_told(g, v, j, all[0]);
    }
}

proof fn lemma_probe_told(g: ClusterGraph, i: int, c: int, x: IssueView)
    requires
        0 <= i < g.workloads@.len(),
        0 <= c < g.workloads@[i].containers@.len(),
        probes::container_issue(
            g,
            g.workloads@[i],
            lettercase::lowercase(g.workloads@[i].kind@),
            g.workloads@[i].containers@[c],
        ).contains(x),
    ensures
        told(g, x.id, x.severity),
{
    let w = g.workloads@[i];
    let kind = lettercase::lowercase(w.kind@);
    let n = w.containers@.len() as int;
    let f = |i: int| probes::container_issue(g, w, kind, w.containers@[i]);
    reports::lemma_gathered(n, f, c, x);
    assert(probes::workload_probes(g, w, kind, n) == pick::gather(n, f));
    let m = g.workloads@.len() as int;
    let e = |i: int|
        probes::workload_probes(
            g,
            g.workloads@[i],
            lettercase::lowercase(g.workloads@[i].kind@),
            g.workloads@[i].containers@.len() as int,
        );
    assert(e(i).contains(x));
    reports::lemma_gathered(m, e, i, x);
    assert(probes::probe_issues(g, m) == pick::gather(m, e));
    reports::lemma_told(g, x);
}

proof fn lemma_of_container(
    g: ClusterGraph,
    w: WorkloadInfo,
    kind: Seq<char>,
    c: ContainerSpecInfo,
    x: IssueView,
)
    requires
        probes::ports_issues(w, kind, c, c.probes@.len() as int).contains(x)
            || probes::timeout_issue(g, w, kind, c).contains(x) || probes::liveness_issue(
            g,
            w,
            kind,
            c,
        ).contains(x),
    ensures
        probes::container_issue(g, w, kind, c).contains(x),
{
    let a = probes::ports_issues(w, kind, c, c.probes@.len() as int);
    let b = probes::timeout_issue(g, w, kind, c);
    let d = probes::liveness_issue(g, w, kind, c);
    reports::lemma_either(a, b, x);
    reports::lemma_either(a + b, d, x);
}

/// Does the container declare a port under this name?
pub open spec fn has_port(c: ContainerSpecInfo, name: Seq<char>) -> bool {
    exists|k: int|
        0 <= k < c.ports@.len() && text::opt((#[trigger] c.ports@[k]).name) == Some(name)
}

proof fn lemma_has_port(c: ContainerSpecInfo, name: Seq<char>, n: int)
    requires
        0 <= n <= c.ports@.len(),
    ensures
        probes::port_defined(c, name, n) <==> exists|k: int|
            0 <= k < n && text::opt((#[trigger] c.ports@[k]).name) == Some(name),
    decreases n,
{
    if n > 0 {
        lemma_has_port(c, name, n - 1);
        if text::opt(c.ports@[n - 1].name) == Some(name) {
            assert(0 <= n - 1 < n);
        }
    }
}

/// The id of an issue about a probe.
pub open spec fn probe_id(
    what: Seq<char>,
    w: WorkloadInfo,
    c: ContainerSpecInfo,
    p: ProbeInfo,
) -> Seq<char> {
    what + w.id@ + ":"@ + c.name@ + ":"@ + p.kind@
}

/// A probe of a port is told of, as critical, exactly where the port is a name that
/// its container does not declare.
pub proof fn probes_of_unknown_ports_are_told_of(g: ClusterGraph, i: int, c: int, k: int)
    requires
        0 <= i < g.workloads@.len(),
        0 <= c < g.workloads@[i].containers@.len(),
        0 <= k < g.workloads@[i].containers@[c].probes@.len(),
    ensures
        ({
            let w = g.workloads@[i];
            let x = w.containers@[c];
            let p = x.probes@[k];
            let unknown = p.port is Some && numeral::parse_i32(p.port->0@) is None && !has_port(
                x,
                p.port->0@,
            );
            &&& unknown ==> told(g, probe_id("probe-port-undefined:"@, w, x, p), Severity::Critical)
            &&& !unknown ==> probes::port_issue(w, lettercase::lowercase(w.kind@), x, p).len() == 0
        }),
{
    let w = g.workloads@[i];
    let kind = lettercase::lowercase(w.kind@);
    let x = w.containers@[c];
    let p = x.probes@[k];
    if p.port is Some {
        lemma_has_port(x, p.port->0@, x.ports@.len() as int);
    }
    let all = probes::port_issue(w, kind, x, p);
    if all.len() > 0 {
        assert(all.contains(all[0]));
        let n = x.probes@.len() as int;
        let f = |i: int| probes::port_issue(w, kind, x, x.probes@[i]);
        reports::lemma_gathered(n, f, k, all[0]);
        assert(probes::ports_issues(w, kind, x, n) == pick::gather(n, f));
        lemma_of_container(g, w, kind, x, all[0]);
        lemma_probe_told(g, i, c, all[0]);
    }
}

/// Is this the container's first probe of the kind?
pub open spec fn is_probe(c: ContainerSpecInfo, kind: Seq<char>, k: int) -> bool {
    0 <= k < c.probes@.len() && c.probes@[k].kind@ == kind && forall|j: int|
        0 <= j < k ==> (#[trigger] c.probes@[j]).kind@ != kind
}

proof fn lemma_probe_of(c: ContainerSpecInfo, kind: Seq<char>, n: int)
    requires
        0 <= n <= c.probes@.len(),
    ensures
        match probes::probe_of(c, kind, n) {
            Some(k) => k < n && is_probe(c, kind, k),
            None => forall|j: int| 0 <= j < n ==> (#[trigger] c.probes@[j]).kind@ != kind,
        },
    decreases n,
{
    if n > 0 {
        lemma_probe_of(c, kind, n - 1);
    }
}

proof fn lemma_is_probe(c: ContainerSpecInfo, kind: Seq<char>, k: int)
    requires
        is_probe(c, kind, k),
    ensures
        probes::probe_of(c, kind, c.probes@.len() as int) == Some(k),
{
    lemma_probe_of(c, kind, c.probes@.len() as int);
    let m = probes::probe_of(c, kind, c.probes@.len() as int)->0;
    assert(c.probes@[k].kind@ == kind);
    if m < k {
        assert(c.probes@[m].kind@ != kind);
    } else if k < m {
        assert(c.probes@[k].kind@ != kind);
    }
}

/// Is the event one of a failed probe of a pod of the workload?
pub open spec fn is_failed_probe(g: ClusterGraph, w: WorkloadInfo, e: EventInfo) -> bool {
    &&& e.reason@ == "Unhealthy"@
    &&& e.namespace@ == w.namespace@
    &&& exists|q: int|
        0 <= q < g.pods@.len() && text::opt((#[trigger] g.pods@[q]).workload) == Some(w.id@)
            && g.pods@[q].name@ == e.name@
}

proof fn lemma_pod_named(g: ClusterGraph, w: WorkloadInfo, name: Seq<char>, n: int)
    requires
        0 <= n <= g.pods@.len(),
    ensures
        probes::pod_named(g, w, name, n) <==> exists|q: int|
            0 <= q < n && text::opt((#[trigger] g.pods@[q]).workload) == Some(w.id@)
                && g.pods@[q].name@ == name,
    decreases n,
{
    if n > 0 {
        lemma_pod_named(g, w, name, n - 1);
        if text::opt(g.pods@[n - 1].workload) == Some(w.id@) && g.pods@[n - 1].name@ == name {
            assert(0 <= n - 1 < n);
        }
    }
}

/// Does the message say that the probe ran out of time?
pub open spec fn ran_out_of_time(m: Seq<char>) -> bool {
    scan::contains(m, "context deadline exceeded"@) || scan::contains(m, "Client.Timeout"@)
        || scan::contains(m, "timeout"@)
}

/// Is this the first event of a probe of the workload that ran out of time?
pub open spec fn is_timeout(g: ClusterGraph, w: WorkloadInfo, i: int) -> bool {
    0 <= i < g.events@.len() && is_failed_probe(g, w, g.events@[i]) && ran_out_of_time(
        g.events@[i].message@,
    ) && forall|j: int|
        0 <= j < i ==> !(is_failed_probe(g, w, #[trigger] g.events@[j]) && ran_out_of_time(
            g.events@[j].message@,
        ))
}

/// The kind of probe that a message is about, by how it begins.
pub open spec fn is_of_kind(m: Seq<char>, kind: Seq<char>) -> bool {
    if scan::starts_with(m, "Liveness"@) {
        kind == "liveness"@
    } else if scan::starts_with(m, "Startup"@) {
        kind == "startup"@
    } else {
        kind == "readiness"@
    }
}

proof fn lemma_first_timeout(g: ClusterGraph, w: WorkloadInfo, i: int)
    requires
        is_timeout(g, w, i),
    ensures
        probes::first_timeout(g, w, g.events@.len() as int) == Some(i),
{
    let n = g.events@.len() as int;
    let f = |i: int| probes::probe_failed(g, w, i) && probes::timed_out(g.events@[i].message@);
    pick::lemma_first(n, f);
    assert(probes::first_timeout(g, w, n) == pick::first(n, f));
    lemma_pod_named(g, w, g.events@[i].name@, g.pods@.len() as int);
    assert(f(i));
    let m = pick::first(n, f)->0;
    if m < i {
        assert(f(m));
        lemma_pod_named(g, w, g.events@[m].name@, g.pods@.len() as int);
        assert(is_failed_probe(g, w, g.events@[m]));
    }
}

/// The first probe of a workload that ran out of time is told of, as a warning, for
/// each container with a probe of the kind that the event is about.
pub proof fn probes_that_run_out_of_time_are_told_of(
    g: ClusterGraph,
    i: int,
    c: int,
    k: int,
    e: int,
)
    requires
        0 <= i < g.workloads@.len(),
        0 <= c < g.workloads@[i].containers@.len(),
        is_timeout(g, g.workloads@[i], e),
        0 <= k < g.workloads@[i].containers@[c].probes@.len(),
        is_of_kind(g.events@[e].message@, g.workloads@[i].containers@[c].probes@[k].kind@),
        is_probe(
            g.workloads@[i].containers@[c],
            g.workloads@[i].containers@[c].probes@[k].kind@,
            k,
        ),
    ensures
        told(
            g,
            probe_id(
                "probe-timeout:"@,
                g.workloads@[i],
                g.workloads@[i].containers@[c],
                g.workloads@[i].containers@[c].probes@[k],
            ),
            Severity::Warning,
        ),
{
    let w = g.workloads@[i];
    let kind = lettercase::lowercase(w.kind@);
    let x = w.containers@[c];
    lemma_first_timeout(g, w, e);
    lemma_is_probe(x, x.probes@[k].kind@, k);
    let all = probes::timeout_issue(g, w, kind, x);
    assert(all.contains(all[0]));
    lemma_of_container(g, w, kind, x, all[0]);
    lemma_probe_told(g, i, c, all[0]);
}

/// Do two probes make the same check?
pub open spec fn check_the_same(a: ProbeInfo, b: ProbeInfo) -> bool {
    a.handler@ == b.handler@ && text::opt(a.path) == text::opt(b.path) && text::opt(a.port)
        == text::opt(b.port)
}

/// A container whose liveness and readiness probes make the same check, other than
/// a command, is told of, as a warning, where pods of its workload have restarted.
pub proof fn equal_probes_are_told_of(g: ClusterGraph, i: int, c: int, l: int, r: int)
    requires
        0 <= i < g.workloads@.len(),
        0 <= c < g.workloads@[i].containers@.len(),
        is_probe(g.workloads@[i].containers@[c], "liveness"@, l),
        is_probe(g.workloads@[i].containers@[c], "readiness"@, r),
        check_the_same(
            g.workloads@[i].containers@[c].probes@[l],
            g.workloads@[i].containers@[c].probes@[r],
        ),
        g.workloads@[i].containers@[c].probes@[l].handler@ != "exec"@,
        probes::restarts(g, g.workloads@[i], g.pods@.len() as int) > 0,
    ensures
        told(
            g,
            "probe-liveness-equals-readiness:"@ + g.workloads@[i].id@ + ":"@
                + g.workloads@[i].containers@[c].name@,
            Severity::Warning,
        ),
{
    let w = g.workloads@[i];
    let kind = lettercase::lowercase(w.kind@);
    let x = w.containers@[c];
    lemma_is_probe(x, "liveness"@, l);
    lemma_is_probe(x, "readiness"@, r);
    let all = probes::liveness_issue(g, w, kind, x);
    assert(all[0] == probes::equal_probes(
        w,
        kind,
        x,
        x.probes@[l],
        probes::restarts(g, w, g.pods@.len() as int),
    ));
    assert(all.contains(all[0]));
    lemma_of_container(g, w, kind, x, all[0]);
    lemma_probe_told(g, i, c, all[0]);
}

proof fn lemma_kills(g: ClusterGraph, w: WorkloadInfo, e: int, n: int)
    requires
        0 <= e < n <= g.events@.len(),
        is_failed_probe(g, w, g.events@[e]),
        scan::starts_with(g.events@[e].message@, "Liveness"@),
    ensures
        probes::liveness_kills(g, w, n),
    decreases n,
{
    lemma_pod_named(g, w, g.events@[e].name@, g.pods@.len() as int);
    if e < n - 1 {
        lemma_kills(g, w, e, n - 1);
    }
}

/// A container with a liveness probe that begins within fifteen seconds, and
/// without a startup probe, is told of, as a warning, where the probe has failed
/// and pods of its workload have restarted.
pub proof fn early_liveness_probes_are_told_of(g: ClusterGraph, i: int, c: int, l: int, e: int)
    requires
        0 <= i < g.workloads@.len(),
        0 <= c < g.workloads@[i].containers@.len(),
        is_probe(g.workloads@[i].containers@[c], "liveness"@, l),
        g.workloads@[i].containers@[c].probes@[l].initial_delay < 15,
        forall|j: int|
            0 <= j < g.workloads@[i].containers@[c].probes@.len()
                ==> (#[trigger] g.workloads@[i].containers@[c].probes@[j]).kind@ != "startup"@,
        0 <= e < g.events@.len(),
        is_failed_probe(g, g.workloads@[i], g.events@[e]),
        scan::starts_with(g.events@[e].message@, "Liveness"@),
        probes::restarts(g, g.workloads@[i], g.pods@.len() as int) > 0,
    ensures
        told(
            g,
            "probe-no-startup:"@ + g.workloads@[i].id@ + ":"@
                + g.workloads@[i].containers@[c].name@,
            Severity::Warning,
        ),
{
    let w = g.workloads@[i];
    let kind = lettercase::lowercase(w.kind@);
    let x = w.containers@[c];
    lemma_is_probe(x, "liveness"@, l);
    lemma_probe_of(x, "startup"@, x.probes@.len() as int);
    lemma_kills(g, w, e, g.events@.len() as int);
    let all = probes::liveness_issue(g, w, kind, x);
    let y = all[all.len() - 1];
    assert(y == probes::no_startup(w, kind, x, x.probes@[l]));
    assert(all.contains(y));
    lemma_of_container(g, w, kind, x, y);
    lemma_probe_told(g, i, c, y);
}

/// The restarts of the pods of a workload count together; those of other pods do
/// not. Where none of its pods has restarted, nothing is said of its liveness.
pub proof fn workloads_without_restarts_are_left_alone(
    g: ClusterGraph,
    w: WorkloadInfo,
    kind: Seq<char>,
    c: ContainerSpecInfo,
)
    requires
        forall|q: int|
            0 <= q < g.pods@.len() && text::opt((#[trigger] g.pods@[q]).workload) == Some(w.id@)
                ==> g.pods@[q].restarts == 0,
    ensures
        probes::liveness_issue(g, w, kind, c).len() == 0,
{
    lemma_no_restarts(g, w, g.pods@.len() as int);
}

proof fn lemma_no_restarts(g: ClusterGraph, w: WorkloadInfo, n: int)
    requires
        0 <= n <= g.pods@.len(),
        forall|q: int|
            0 <= q < g.pods@.len() && text::opt((#[trigger] g.pods@[q]).workload) == Some(w.id@)
                ==> g.pods@[q].restarts == 0,
    ensures
        probes::restarts(g, w, n) == 0,
    decreases n,
{
    if n > 0 {
        lemma_no_restarts(g, w, n - 1);
        assert(text::opt(g.pods@[n - 1].workload) == Some(w.id@) ==> g.pods@[n - 1].restarts == 0);
    }
}

/// Where a pod of a workload has restarted, and none less than never, the workload
/// has.
pub proof fn restarts_of_pods_count_for_their_workload(
    g: ClusterGraph,
    w: WorkloadInfo,
    q: int,
)
    requires
        0 <= q < g.pods@.len(),
        text::opt(g.pods@[q].workload) == Some(w.id@),
        g.pods@[q].restarts > 0,
        forall|r: int| 0 <= r < g.pods@.len() ==> (#[trigger] g.pods@[r]).restarts >= 0,
    ensures
        probes::restarts(g, w, g.pods@.len() as int) > 0,
{
    lemma_restarts(g, w, q, g.pods@.len() as int);
}

proof fn lemma_restarts(g: ClusterGraph, w: WorkloadInfo, q: int, n: int)
    requires
        0 <= n <= g.pods@.len(),
        0 <= q < g.pods@.len(),
        text::opt(g.pods@[q].workload) == Some(w.id@),
        g.pods@[q].restarts > 0,
        forall|r: int| 0 <= r < g.pods@.len() ==> (#[trigger] g.pods@[r]).restarts >= 0,
    ensures
        probes::restarts(g, w, n) >= 0,
        q < n ==> probes::restarts(g, w, n) > 0,
    decreases n,
{
    if n > 0 {
        lemma_restarts(g, w, q, n - 1);
        assert(g.pods@[n - 1].restarts >= 0);
    }
}

/// Nothing is said of a container's liveness probe where its readiness probe checks
/// something else, and it begins late, has not failed or waits for a startup probe.
pub proof fn careful_probes_are_left_alone(
    g: ClusterGraph,
    w: WorkloadInfo,
    kind: Seq<char>,
    c: ContainerSpecInfo,
    l: int,
    r: int,
)
    requires
        is_probe(c, "liveness"@, l),
        is_probe(c, "readiness"@, r),
        c.probes@[l].handler@ == "exec"@ || !check_the_same(c.probes@[l], c.probes@[r]),
        c.probes@[l].initial_delay >= 15 || (exists|j: int|
            0 <= j < c.probes@.len() && (#[trigger] c.probes@[j]).kind@ == "startup"@) || (forall|
            e: int,
        |
            0 <= e < g.events@.len() && is_failed_probe(g, w, #[trigger] g.events@[e])
                ==> !scan::starts_with(g.events@[e].message@, "Liveness"@)),
    ensures
        probes::liveness_issue(g, w, kind, c).len() == 0,
{
    lemma_is_probe(c, "liveness"@, l);
    lemma_is_probe(c, "readiness"@, r);
    lemma_probe_of(c, "startup"@, c.probes@.len() as int);
    let n = g.events@.len() as int;
    let f = |i: int|
        probes::probe_failed(g, w, i) && scan::starts_with(g.events@[i].message@, "Liveness"@);
    pick::lemma_any(n, f);
    if probes::liveness_kills(g, w, n) {
        let e = choose|e: int| 0 <= e < n && #[trigger] f(e);
        lemma_pod_named(g, w, g.events@[e].name@, g.pods@.len() as int);
        assert(is_failed_probe(g, w, g.events@[e]));
    }
}

/// Nothing is said of the time that the probes of a workload take where no probe of
/// its pods has run out of time.
pub proof fn probes_in_time_are_left_alone(
    g: ClusterGraph,
    w: WorkloadInfo,
    kind: Seq<char>,
    c: ContainerSpecInfo,
)
    requires
        forall|e: int|
            0 <= e < g.events@.len() && is_failed_probe(g, w, #[trigger] g.events@[e])
                ==> !scan::contains(g.events@[e].message@, "context deadline exceeded"@)
                && !scan::contains(g.events@[e].message@, "Client.Timeout"@) && !scan::contains(
                g.events@[e].message@,
                "timeout"@,
            ),
    ensures
        probes::timeout_issue(g, w, kind, c).len() == 0,
{
    let n = g.events@.len() as int;
    let f = |i: int| probes::probe_failed(g, w, i) && probes::timed_out(g.events@[i].message@);
    pick::lemma_first(n, f);
    assert(probes::first_timeout(g, w, n) == pick::first(n, f));
    if pick::first(n, f) is Some {
        let e = pick::first(n, f)->0;
        assert(f(e));
        lemma_pod_named(g, w, g.events@[e].name@, g.pods@.len() as int);
        assert(is_failed_probe(g, w, g.events@[e]));
    }
}

/// Nothing is said of a host that stands for no service of the cluster.
pub proof fn hosts_outside_are_left_alone(g: ClusterGraph, v: VirtualServiceInfo, j: int)
    requires
        0 <= j < v.destinations@.len(),
        mesh::resolve_host(v.destinations@[j].0@, v.namespace@) is None,
    ensures
        mesh::destination_issue(g, v, j).len() == 0,
{
}

} // verus!
