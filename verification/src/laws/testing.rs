//! Network tests: what a plan may hold, and what a probe may do.

use crate::active::check::{CheckView, NetworkTestRequest, PlanView};
use crate::active::planning;
use crate::active::planning::WebState;
use crate::active::script;
use crate::json;
use crate::json::JsonView;
use crate::model::{
    ClusterGraph, ContainerSpecInfo, PodInfo, ServiceInfo, ServicePortInfo, WorkloadInfo,
};
use crate::rules::pod;
use crate::split;
use vstd::prelude::*;

verus! {

/// Does the manifest of a pod keep it from doing harm? It runs as nobody in
/// particular, without the token of a service account, without capabilities and
/// on a file system it can't write, and for no longer than 90 seconds.
pub open spec fn locked_down(m: JsonView) -> bool {
    let spec = json::index(m, "spec"@);
    let containers = json::as_list(json::index(spec, "containers"@));
    let rights = json::index(containers[0], "securityContext"@);
    &&& json::index(spec, "automountServiceAccountToken"@) == JsonView::Bool(false)
    &&& json::index(spec, "activeDeadlineSeconds"@) == JsonView::Int(90)
    &&& json::index(spec, "restartPolicy"@) == JsonView::Text("Never"@)
    &&& json::index(json::index(spec, "securityContext"@), "runAsNonRoot"@) == JsonView::Bool(true)
    &&& containers.len() == 1
    &&& json::index(rights, "allowPrivilegeEscalation"@) == JsonView::Bool(false)
    &&& json::index(rights, "readOnlyRootFilesystem"@) == JsonView::Bool(true)
    &&& json::index(json::index(rights, "capabilities"@), "drop"@) == JsonView::List(
        seq![JsonView::Text("ALL"@)],
    )
}

/// Whatever the namespace, the node, the image and the script, the manifest of a
/// probe is locked down.
pub proof fn probes_are_locked_down(
    namespace: Seq<char>,
    node: Option<Seq<char>>,
    image: Seq<char>,
    code: Seq<char>,
)
    ensures
        locked_down(script::manifest_of(namespace, node, image, code)),
{
    let m = script::manifest_of(namespace, node, image, code);
    let spec = script::pod_spec(node, image, code);
    let container = script::container(image, code);
    reveal_strlit("apiVersion");
    reveal_strlit("kind");
    reveal_strlit("metadata");
    reveal_strlit("spec");
    assert("apiVersion"@.len() == 10 && "metadata"@.len() == 8 && "spec"@.len() == 4);
    assert("kind"@[0] == 'k' && "spec"@[0] == 's');
    json::lemma_field(m->Object_0, 3);
    assert(json::index(m, "spec"@) == JsonView::Object(spec));
    reveal_strlit("restartPolicy");
    reveal_strlit("activeDeadlineSeconds");
    reveal_strlit("terminationGracePeriodSeconds");
    reveal_strlit("automountServiceAccountToken");
    reveal_strlit("enableServiceLinks");
    reveal_strlit("tolerations");
    reveal_strlit("securityContext");
    reveal_strlit("containers");
    assert("restartPolicy"@.len() == 13 && "activeDeadlineSeconds"@.len() == 21);
    assert("terminationGracePeriodSeconds"@.len() == 29);
    assert("automountServiceAccountToken"@.len() == 28 && "enableServiceLinks"@.len() == 18);
    assert("tolerations"@.len() == 11 && "securityContext"@.len() == 15);
    assert("containers"@.len() == 10);
    json::lemma_field(spec, 0);
    json::lemma_field(spec, 1);
    json::lemma_field(spec, 3);
    json::lemma_field(spec, 6);
    json::lemma_field(spec, 7);
    reveal_strlit("runAsNonRoot");
    json::lemma_field(script::pod_security()->Object_0, 0);
    reveal_strlit("name");
    reveal_strlit("image");
    reveal_strlit("command");
    reveal_strlit("resources");
    assert("name"@.len() == 4 && "image"@.len() == 5);
    assert("command"@.len() == 7 && "resources"@.len() == 9);
    json::lemma_field(container->Object_0, 4);
    reveal_strlit("allowPrivilegeEscalation");
    reveal_strlit("readOnlyRootFilesystem");
    reveal_strlit("capabilities");
    reveal_strlit("drop");
    assert("allowPrivilegeEscalation"@.len() == 24 && "readOnlyRootFilesystem"@.len() == 22);
    assert("capabilities"@.len() == 12);
    let rights = script::container_security();
    json::lemma_field(rights->Object_0, 0);
    json::lemma_field(rights->Object_0, 1);
    json::lemma_field(rights->Object_0, 2);
    json::lemma_field(seq![("drop"@, JsonView::List(seq![JsonView::Text("ALL"@)]))], 0);
}

/// Has the text no quote that could end the quotes that it stands in?
pub open spec fn quotable(s: Seq<char>) -> bool {
    !s.contains('\'')
}

/// Is the path of a check, if it has one, safe in a shell command?
pub open spec fn path_safe(c: CheckView) -> bool {
    c.path matches Some(p) ==> script::is_safe_path(p)
}

/// Are all their paths safe?
pub open spec fn paths_safe(s: Seq<CheckView>) -> bool {
    forall|i: int| 0 <= i < s.len() ==> path_safe(#[trigger] s[i])
}

/// Are the host, the path and the label of a check safe in a shell command?
pub open spec fn check_safe(c: CheckView) -> bool {
    script::is_safe_host(c.host) && path_safe(c) && script::is_safe_label(c.label) && quotable(
        c.label,
    )
}

/// A safe label has no quote.
proof fn lemma_label(s: Seq<char>)
    requires
        script::is_safe_label(s),
    ensures
        quotable(s),
{
    let words = split::split(s, ' ');
    assert forall|i: int| 0 <= i < s.len() implies s[i] != '\'' by {
        if s[i] == '\'' {
            split::lemma_in_part(s, ' ', s.len() + 1, i);
            let k = choose|k: int| 0 <= k < words.len() && (#[trigger] words[k]).contains(s[i]);
            assert(script::is_safe_word(words[k]));
            safe_values_have_no_quotes(words[k]);
        }
    }
}

proof fn lemma_pod_checks(g: ClusterGraph, at: Seq<int>, sp: ServicePortInfo, n: int)
    ensures
        paths_safe(planning::pod_checks(g, at, sp, n)),
    decreases n,
{
    if n > 0 {
        lemma_pod_checks(g, at, sp, n - 1);
    }
}

proof fn lemma_port_checks(
    g: ClusterGraph,
    s: ServiceInfo,
    at: Seq<int>,
    ip: Option<Seq<char>>,
    n: int,
)
    ensures
        paths_safe(planning::all_port_checks(g, s, at, ip, n)),
    decreases n,
{
    if n > 0 {
        lemma_port_checks(g, s, at, ip, n - 1);
        lemma_pod_checks(g, at, s.ports_detail@[n - 1], at.len() as int);
        assert(paths_safe(planning::port_checks(g, at, ip, s.ports_detail@[n - 1])));
    }
}

proof fn lemma_web_probes(p: PodInfo, c: ContainerSpecInfo, st: WebState, n: int)
    requires
        paths_safe(st.checks),
    ensures
        paths_safe(planning::web_probes(p, c, st, n).checks),
    decreases n,
{
    if n > 0 {
        lemma_web_probes(p, c, st, n - 1);
    }
}

proof fn lemma_web_containers(p: PodInfo, w: WorkloadInfo, st: WebState, n: int)
    requires
        paths_safe(st.checks),
    ensures
        paths_safe(planning::web_containers(p, w, st, n).checks),
    decreases n,
{
    if n > 0 {
        lemma_web_containers(p, w, st, n - 1);
        let c = w.containers@[n - 1];
        lemma_web_probes(
            p,
            c,
            planning::web_containers(p, w, st, n - 1),
            c.probes@.len() as int,
        );
    }
}

proof fn lemma_web_pods(g: ClusterGraph, at: Seq<int>, st: WebState, n: int)
    requires
        paths_safe(st.checks),
    ensures
        paths_safe(planning::web_pods(g, at, st, n).checks),
    decreases n,
{
    if n > 0 {
        lemma_web_pods(g, at, st, n - 1);
        let p = g.pods@[at[n - 1]];
        match pod::workload_at(g, p.workload, g.workloads@.len() as int) {
            Some(i) => {
                lemma_web_containers(
                    p,
                    g.workloads@[i],
                    planning::web_pods(g, at, st, n - 1),
                    g.workloads@[i].containers@.len() as int,
                );
            },
            None => {},
        }
    }
}

proof fn lemma_safe_checks(all: Seq<CheckView>, n: int)
    requires
        paths_safe(all),
        n <= all.len(),
    ensures
        forall|i: int|
            0 <= i < planning::safe_checks(all, n).len() ==> check_safe(
                #[trigger] planning::safe_checks(all, n)[i],
            ),
    decreases n,
{
    if n > 0 {
        lemma_safe_checks(all, n - 1);
        if script::is_safe_label(all[n - 1].label) {
            lemma_label(all[n - 1].label);
        }
        assert(path_safe(all[n - 1]));
        let before = planning::safe_checks(all, n - 1);
        let now = planning::safe_checks(all, n);
        assert forall|i: int| 0 <= i < now.len() implies check_safe(#[trigger] now[i]) by {
            if i < before.len() {
                assert(now[i] == before[i]);
            } else {
                assert(now[i] == all[n - 1]);
            }
        }
    }
}

/// Whatever a snapshot and a request hold, a plan has one probe or two, each
/// locked down and running the script of the plan's checks in the namespace for
/// probes. Every host, path and label of its checks is safe in a shell command,
/// and no label holds a single quote.
pub proof fn plans_are_safe(g: ClusterGraph, req: NetworkTestRequest, p: PlanView)
    requires
        planning::answer(g, req) == Ok::<PlanView, Seq<char>>(p),
    ensures
        script::is_safe_host(p.source_namespace),
        forall|i: int| 0 <= i < p.checks.len() ==> check_safe(#[trigger] p.checks[i]),
        1 <= p.probes.len() <= 2,
        forall|i: int|
            0 <= i < p.probes.len() ==> (#[trigger] p.probes[i]).manifest == script::manifest_of(
                p.source_namespace,
                p.probes[i].node,
                p.image,
                script::script(p.checks),
            ) && locked_down(p.probes[i].manifest),
{
    let i = planning::service_named(g, req.namespace@, req.service@, g.services@.len() as int)->0;
    let s = g.services@[i];
    let at = planning::tested_pods(g, s);
    let n = s.ports_detail@.len() as int;
    let ip = planning::service_address(s);
    let names = planning::name_checks(s, planning::domain_for(req));
    lemma_port_checks(g, s, at, ip, n);
    assert(paths_safe(names + planning::all_port_checks(g, s, at, ip, n)));
    let st = WebState {
        checks: names + planning::all_port_checks(g, s, at, ip, n),
        notes: planning::all_port_notes(g, s, at, n) + (if ip is None {
            seq![
                "Headless service: there's no service IP to test, so only DNS and pod IPs are checked."@,
            ]
        } else {
            Seq::empty()
        }),
        count: 0,
    };
    lemma_web_pods(g, at, st, at.len() as int);
    let all = planning::planned(g, s, req).checks;
    assert(paths_safe(all));
    lemma_safe_checks(all, all.len() as int);
    assert(p.checks == planning::safe_checks(all, all.len() as int));
    assert forall|k: int| 0 <= k < p.probes.len() implies (#[trigger] p.probes[k]).manifest
        == script::manifest_of(
        p.source_namespace,
        p.probes[k].node,
        p.image,
        script::script(p.checks),
    ) && locked_down(p.probes[k].manifest) by {
        probes_are_locked_down(
            p.source_namespace,
            p.probes[k].node,
            p.image,
            script::script(p.checks),
        );
    }
}

/// A safe host or path has no quote, so it can't end the quotes that it stands
/// in.
pub proof fn safe_values_have_no_quotes(s: Seq<char>)
    requires
        script::is_safe_host(s) || script::is_safe_path(s),
    ensures
        !s.contains('\''),
        !s.contains('"'),
        !s.contains('$'),
        !s.contains('`'),
        !s.contains(';'),
        !s.contains(' '),
        !s.contains('\n'),
{
    assert forall|i: int| 0 <= i < s.len() implies script::host_char(#[trigger] s[i])
        || script::path_char(s[i]) by {}
}

} // verus!
