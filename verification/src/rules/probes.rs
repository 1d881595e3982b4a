//! How probes are set up.

use crate::lettercase;
use crate::lettercase::lower;
use crate::model;
use crate::model::{
    emit, emit_all, issue, no_issues, target, ClusterGraph, ContainerSpecInfo, EventInfo, Issue,
    IssueView, Layer, ProbeInfo, Severity, WorkloadInfo,
};
use crate::numeral;
use crate::numeral::{dec_i32, dec_i64, plus, read_i32};
use crate::pick;
use crate::rules::entry;
use crate::rules::entry::names_text;
use crate::scan;
use crate::scan::{begins, has};
use crate::text;
use crate::text::{
    cat2, cat3, cat4, cat5, cat6, cat7, copy_or_empty, lines1, lines2, no_lines, opt_is,
    opt_same, same, say,
};
use vstd::prelude::*;

verus! {

broadcast use crate::pick::lemma_add_nothing;

/// How often the pods of a workload have restarted in all.
pub open spec fn restarts(g: ClusterGraph, w: WorkloadInfo, n: int) -> int {
    pick::sum64(
        n,
        |i: int|
            if text::opt(g.pods@[i].workload) == Some(w.id@) {
                g.pods@[i].restarts as int
            } else {
                0
            },
    )
}

fn restarts_of(g: &ClusterGraph, w: &WorkloadInfo) -> (r: i64)
    ensures
        r == restarts(*g, *w, g.pods@.len() as int),
{
    let mut r: i64 = 0;
    let mut i: usize = 0;
    while i < g.pods.len()
        invariant
            i <= g.pods@.len(),
            r == restarts(*g, *w, i as int),
        decreases g.pods@.len() - i,
    {
        let v: i64 = if opt_is(&g.pods[i].workload, w.id.as_str()) {
            g.pods[i].restarts as i64
        } else {
            0
        };
        r = plus(r, v);
        i = i + 1;
    }
    r
}

/// Does the container name a port so?
pub open spec fn port_defined(c: ContainerSpecInfo, name: Seq<char>, n: int) -> bool {
    pick::any(n, |i: int| text::opt(c.ports@[i].name) == Some(name))
}

fn is_port_defined(c: &ContainerSpecInfo, name: &str) -> (r: bool)
    ensures
        r == port_defined(*c, name@, c.ports@.len() as int),
{
    let mut r: bool = false;
    let mut i: usize = 0;
    while i < c.ports.len()
        invariant
            i <= c.ports@.len(),
            r == port_defined(*c, name@, i as int),
        decreases c.ports@.len() - i,
    {
        if opt_is(&c.ports[i].name, name) {
            r = true;
        }
        i = i + 1;
    }
    r
}

/// The ports of a container as text.
pub open spec fn port_lines(c: ContainerSpecInfo, n: int) -> Seq<Seq<char>> {
    pick::gather(
        n,
        |i: int|
            seq![text::or_empty(c.ports@[i].name) + "="@ + numeral::dec(c.ports@[i].port as int)],
    )
}

fn lines_of_ports(c: &ContainerSpecInfo) -> (r: Vec<String>)
    ensures
        text::strs(r@) == port_lines(*c, c.ports@.len() as int),
{
    let mut r: Vec<String> = no_lines();
    let mut i: usize = 0;
    while i < c.ports.len()
        invariant
            i <= c.ports@.len(),
            text::strs(r@) == port_lines(*c, i as int),
        decreases c.ports@.len() - i,
    {
        say(
            &mut r,
            cat3(copy_or_empty(&c.ports[i].name).as_str(), "=", dec_i32(c.ports[i].port).as_str()),
        );
        i = i + 1;
    }
    r
}

/// The issue for a probe of a port that the container does not name; `kind` is
/// the kind of the workload in lower case.
pub open spec fn port_undefined(
    w: WorkloadInfo,
    kind: Seq<char>,
    c: ContainerSpecInfo,
    pr: ProbeInfo,
    port: Seq<char>,
) -> IssueView {
    model::issue_view(
        "probe-port-undefined:"@ + w.id@ + ":"@ + c.name@ + ":"@ + pr.kind@,
        Severity::Critical,
        Layer::Pod,
        model::target_view(w.kind@, w.namespace@, w.name@),
        "The "@ + pr.kind@ + " probe on "@ + c.name@ + " uses port \""@ + port
            + "\", which the container doesn't define"@,
        "A named probe port must match a named containerPort, so this probe can never succeed."@,
        seq![pr.kind@ + " probe port: "@ + port, "container ports: "@ + entry::names_or_none(
                port_lines(c, c.ports@.len() as int),
        )],
        "Name the container port to match, or use the port number in the probe."@,
        seq!["kubectl get "@ + kind + " "@ + w.name@ + " -n "@ + w.namespace@ + " -o yaml"@],
        Seq::empty(),
    )
}

fn port_undefined_issue(
    w: &WorkloadInfo,
    kind: &str,
    c: &ContainerSpecInfo,
    pr: &ProbeInfo,
    port: &str,
) -> (r: Issue)
    ensures
        r@ == port_undefined(*w, kind@, *c, *pr, port@),
{
    issue(
        cat6("probe-port-undefined:", w.id.as_str(), ":", c.name.as_str(), ":", pr.kind.as_str()),
        Severity::Critical,
        Layer::Pod,
        target(w.kind.as_str(), w.namespace.as_str(), w.name.as_str()),
        cat7(
            "The ",
            pr.kind.as_str(),
            " probe on ",
            c.name.as_str(),
            " uses port \"",
            port,
            "\", which the container doesn't define",
        ),
        "A named probe port must match a named containerPort, so this probe can never succeed.".to_owned(),
        lines2(
            cat3(pr.kind.as_str(), " probe port: ", port),
            cat2("container ports: ", names_text(&lines_of_ports(c)).as_str()),
        ),
        "Name the container port to match, or use the port number in the probe.".to_owned(),
        lines1(
            cat7(
                "kubectl get ",
                kind,
                " ",
                w.name.as_str(),
                " -n ",
                w.namespace.as_str(),
                " -o yaml",
            ),
        ),
        no_lines(),
    )
}

/// The issue of the port of one probe.
pub open spec fn port_issue(
    w: WorkloadInfo,
    kind: Seq<char>,
    c: ContainerSpecInfo,
    pr: ProbeInfo,
) -> Seq<IssueView> {
    match pr.port {
        Some(port) => if numeral::parse_i32(port@) is None && !port_defined(
            c,
            port@,
            c.ports@.len() as int,
        ) {
            seq![port_undefined(w, kind, c, pr, port@)]
        } else {
            Seq::empty()
        },
        None => Seq::empty(),
    }
}

fn issues_of_port(
    w: &WorkloadInfo,
    kind: &str,
    c: &ContainerSpecInfo,
    pr: &ProbeInfo,
) -> (r: Vec<Issue>)
    ensures
        model::views(r@) == port_issue(*w, kind@, *c, *pr),
{
    let mut r: Vec<Issue> = no_issues();
    match &pr.port {
        Some(port) => {
            if read_i32(port.as_str()).is_none() && !is_port_defined(c, port.as_str()) {
                emit(&mut r, port_undefined_issue(w, kind, c, pr, port.as_str()));
            }
        },
        None => {},
    }
    r
}

/// The issues of the ports of the first `n` probes of a container.
pub open spec fn ports_issues(
    w: WorkloadInfo,
    kind: Seq<char>,
    c: ContainerSpecInfo,
    n: int,
) -> Seq<IssueView> {
    pick::gather(
        n,
        |i: int|
            port_issue(w, kind, c, c.probes@[i]),
    )
}

fn issues_of_ports(w: &WorkloadInfo, kind: &str, c: &ContainerSpecInfo) -> (r: Vec<Issue>)
    ensures
        model::views(r@) == ports_issues(*w, kind@, *c, c.probes@.len() as int),
{
    let mut r: Vec<Issue> = no_issues();
    let mut i: usize = 0;
    while i < c.probes.len()
        invariant
            i <= c.probes@.len(),
            model::views(r@) == ports_issues(*w, kind@, *c, i as int),
        decreases c.probes@.len() - i,
    {
        emit_all(&mut r, issues_of_port(w, kind, c, &c.probes[i]));
        i = i + 1;
    }
    r
}

/// The first probe of a kind.
pub open spec fn probe_of(c: ContainerSpecInfo, what: Seq<char>, n: int) -> Option<int> {
    pick::first(n, |i: int| c.probes@[i].kind@ == what)
}

fn find_probe(c: &ContainerSpecInfo, what: &str) -> (r: Option<usize>)
    ensures
        match r {
            Some(k) => k < c.probes@.len() && probe_of(*c, what@, c.probes@.len() as int) == Some(k as int),
            None => probe_of(*c, what@, c.probes@.len() as int) is None,
        },
{
    let mut r: Option<usize> = None;
    let mut i: usize = 0;
    while i < c.probes.len()
        invariant
            i <= c.probes@.len(),
            match r {
                Some(k) => k < i && probe_of(*c, what@, i as int) == Some(k as int),
                None => probe_of(*c, what@, i as int) is None,
            },
        decreases c.probes@.len() - i,
    {
        if r.is_none() && same(c.probes[i].kind.as_str(), what) {
            r = Some(i);
        }
        i = i + 1;
    }
    r
}

/// Is one of the first `n` pods of this name a pod of the workload?
pub open spec fn pod_named(g: ClusterGraph, w: WorkloadInfo, name: Seq<char>, n: int) -> bool {
    pick::any(
        n,
        |i: int| text::opt(g.pods@[i].workload) == Some(w.id@) && g.pods@[i].name@ == name,
    )
}

fn has_pod_named(g: &ClusterGraph, w: &WorkloadInfo, name: &str) -> (r: bool)
    ensures
        r == pod_named(*g, *w, name@, g.pods@.len() as int),
{
    let mut r: bool = false;
    let mut i: usize = 0;
    while i < g.pods.len()
        invariant
            i <= g.pods@.len(),
            r == pod_named(*g, *w, name@, i as int),
        decreases g.pods@.len() - i,
    {
        if opt_is(&g.pods[i].workload, w.id.as_str()) && same(g.pods[i].name.as_str(), name) {
            r = true;
        }
        i = i + 1;
    }
    r
}

/// Does the event at an index tell of a failed probe of the workload?
pub open spec fn probe_failed(g: ClusterGraph, w: WorkloadInfo, i: int) -> bool {
    let e = g.events@[i];
    e.reason@ == "Unhealthy"@ && e.namespace@ == w.namespace@ && pod_named(
        g,
        w,
        e.name@,
        g.pods@.len() as int,
    )
}

fn is_probe_failed(g: &ClusterGraph, w: &WorkloadInfo, i: usize) -> (r: bool)
    requires
        i < g.events@.len(),
    ensures
        r == probe_failed(*g, *w, i as int),
{
    let e: &EventInfo = &g.events[i];
    same(e.reason.as_str(), "Unhealthy") && same(e.namespace.as_str(), w.namespace.as_str())
        && has_pod_named(g, w, e.name.as_str())
}

/// Does a message tell of a probe that took too long?
pub open spec fn timed_out(m: Seq<char>) -> bool {
    scan::contains(m, "context deadline exceeded"@) || scan::contains(m, "Client.Timeout"@)
        || scan::contains(m, "timeout"@)
}

fn is_timed_out(m: &str) -> (r: bool)
    ensures
        r == timed_out(m@),
{
    has(m, "context deadline exceeded") || has(m, "Client.Timeout") || has(m, "timeout")
}

/// The first event about a probe that took too long.
pub open spec fn first_timeout(g: ClusterGraph, w: WorkloadInfo, n: int) -> Option<int> {
    pick::first(n, |i: int| probe_failed(g, w, i) && timed_out(g.events@[i].message@))
}

fn find_timeout(g: &ClusterGraph, w: &WorkloadInfo) -> (r: Option<usize>)
    ensures
        match r {
            Some(k) => k < g.events@.len() && first_timeout(*g, *w, g.events@.len() as int) == Some(
                k as int,
            ),
            None => first_timeout(*g, *w, g.events@.len() as int) is None,
        },
{
    let mut r: Option<usize> = None;
    let mut i: usize = 0;
    while i < g.events.len()
        invariant
            i <= g.events@.len(),
            match r {
                Some(k) => k < i && first_timeout(*g, *w, i as int) == Some(k as int),
                None => first_timeout(*g, *w, i as int) is None,
            },
        decreases g.events@.len() - i,
    {
        if r.is_none() && is_probe_failed(g, w, i) && is_timed_out(g.events[i].message.as_str()) {
            r = Some(i);
        }
        i = i + 1;
    }
    r
}

/// Did a liveness probe of the workload fail?
pub open spec fn liveness_kills(g: ClusterGraph, w: WorkloadInfo, n: int) -> bool {
    pick::any(
        n,
        |i: int| probe_failed(g, w, i) && scan::starts_with(g.events@[i].message@, "Liveness"@),
    )
}

fn is_liveness_killing(g: &ClusterGraph, w: &WorkloadInfo) -> (r: bool)
    ensures
        r == liveness_kills(*g, *w, g.events@.len() as int),
{
    let mut r: bool = false;
    let mut i: usize = 0;
    while i < g.events.len()
        invariant
            i <= g.events@.len(),
            r == liveness_kills(*g, *w, i as int),
        decreases g.events@.len() - i,
    {
        if is_probe_failed(g, w, i) && begins(g.events[i].message.as_str(), "Liveness") {
            r = true;
        }
        i = i + 1;
    }
    r
}

/// The issue for a probe that takes too long.
pub open spec fn probe_timeout(
    w: WorkloadInfo,
    kind: Seq<char>,
    c: ContainerSpecInfo,
    pr: ProbeInfo,
    msg: Seq<char>,
) -> IssueView {
    model::issue_view(
        "probe-timeout:"@ + w.id@ + ":"@ + c.name@ + ":"@ + pr.kind@,
        Severity::Warning,
        Layer::Pod,
        model::target_view(w.kind@, w.namespace@, w.name@),
        "The "@ + pr.kind@ + " probe on "@ + c.name@ + " is timing out after "@
            + numeral::dec(pr.timeout as int) + "s"@,
        "The endpoint answers slower than the probe allows. Under load this marks pods unready or restarts them, which adds more load to the rest."@,
        seq![
            "Unhealthy: "@ + msg,
            "timeoutSeconds: "@ + numeral::dec(pr.timeout as int) + ", periodSeconds: "@
                + numeral::dec(pr.period as int) + ", failureThreshold: "@
                + numeral::dec(pr.failure_threshold as int),
        ],
        "Make the endpoint cheap (no database or downstream calls in a liveness check), or raise timeoutSeconds."@,
        seq!["kubectl get "@ + kind + " "@ + w.name@ + " -n "@ + w.namespace@ + " -o yaml"@],
        Seq::empty(),
    )
}

fn probe_timeout_issue(
    w: &WorkloadInfo,
    kind: &str,
    c: &ContainerSpecInfo,
    pr: &ProbeInfo,
    msg: &str,
) -> (r: Issue)
    ensures
        r@ == probe_timeout(*w, kind@, *c, *pr, msg@),
{
    issue(
        cat6("probe-timeout:", w.id.as_str(), ":", c.name.as_str(), ":", pr.kind.as_str()),
        Severity::Warning,
        Layer::Pod,
        target(w.kind.as_str(), w.namespace.as_str(), w.name.as_str()),
        cat7(
            "The ",
            pr.kind.as_str(),
            " probe on ",
            c.name.as_str(),
            " is timing out after ",
            dec_i32(pr.timeout).as_str(),
            "s",
        ),
        "The endpoint answers slower than the probe allows. Under load this marks pods unready or restarts them, which adds more load to the rest.".to_owned(),
        lines2(
            cat2("Unhealthy: ", msg),
            cat6(
                "timeoutSeconds: ",
                dec_i32(pr.timeout).as_str(),
                ", periodSeconds: ",
                dec_i32(pr.period).as_str(),
                ", failureThreshold: ",
                dec_i32(pr.failure_threshold).as_str(),
            ),
        ),
        "Make the endpoint cheap (no database or downstream calls in a liveness check), or raise timeoutSeconds.".to_owned(),
        lines1(
            cat7(
                "kubectl get ",
                kind,
                " ",
                w.name.as_str(),
                " -n ",
                w.namespace.as_str(),
                " -o yaml",
            ),
        ),
        no_lines(),
    )
}

/// The kind of probe that the message of a failed probe is about.
pub open spec fn probe_kind(m: Seq<char>) -> Seq<char> {
    if scan::starts_with(m, "Liveness"@) {
        "liveness"@
    } else if scan::starts_with(m, "Startup"@) {
        "startup"@
    } else {
        "readiness"@
    }
}

fn kind_of_probe(m: &str) -> (r: &'static str)
    ensures
        r@ == probe_kind(m@),
{
    if begins(m, "Liveness") {
        "liveness"
    } else if begins(m, "Startup") {
        "startup"
    } else {
        "readiness"
    }
}

/// The issue of a container about probes that take too long.
pub open spec fn timeout_issue(
    g: ClusterGraph,
    w: WorkloadInfo,
    kind: Seq<char>,
    c: ContainerSpecInfo,
) -> Seq<IssueView> {
    match first_timeout(g, w, g.events@.len() as int) {
        Some(i) => match probe_of(
            c,
            probe_kind(g.events@[i].message@),
            c.probes@.len() as int,
        ) {
            Some(k) => seq![
                probe_timeout(w, kind, c, c.probes@[k], g.events@[i].message@),
            ],
            None => Seq::empty(),
        },
        None => Seq::empty(),
    }
}

fn issues_of_timeout(
    g: &ClusterGraph,
    w: &WorkloadInfo,
    kind: &str,
    c: &ContainerSpecInfo,
) -> (r: Vec<Issue>)
    ensures
        model::views(r@) == timeout_issue(*g, *w, kind@, *c),
{
    let mut r: Vec<Issue> = no_issues();
    match find_timeout(g, w) {
        Some(i) => {
            let msg: &str = g.events[i].message.as_str();
            match find_probe(c, kind_of_probe(msg)) {
                Some(k) => emit(&mut r, probe_timeout_issue(w, kind, c, &c.probes[k], msg)),
                None => {},
            }
        },
        None => {},
    }
    r
}

/// Do two probes check the same thing?
pub open spec fn same_check(a: ProbeInfo, b: ProbeInfo) -> bool {
    a.handler@ == b.handler@ && text::opt(a.path) == text::opt(b.path) && text::opt(a.port)
        == text::opt(b.port)
}

fn is_same_check(a: &ProbeInfo, b: &ProbeInfo) -> (r: bool)
    ensures
        r == same_check(*a, *b),
{
    same(a.handler.as_str(), b.handler.as_str()) && opt_same(&a.path, &b.path) && opt_same(
        &a.port,
        &b.port,
    )
}

/// What a probe checks.
pub open spec fn check_text(l: ProbeInfo) -> Seq<char> {
    "liveness and readiness: "@ + l.handler@ + " "@ + text::or_empty(l.path) + (match l.port {
        Some(p) => " port "@ + p@,
        None => Seq::empty(),
    })
}

fn check_line(l: &ProbeInfo) -> (r: String)
    ensures
        r@ == check_text(*l),
{
    let port: String = match &l.port {
        Some(p) => cat2(" port ", p.as_str()),
        None => String::new(),
    };
    cat5(
        "liveness and readiness: ",
        l.handler.as_str(),
        " ",
        copy_or_empty(&l.path).as_str(),
        port.as_str(),
    )
}

/// The issue for a container whose liveness probe is its readiness probe.
pub open spec fn equal_probes(
    w: WorkloadInfo,
    kind: Seq<char>,
    c: ContainerSpecInfo,
    l: ProbeInfo,
    restarts: int,
) -> IssueView {
    model::issue_view(
        "probe-liveness-equals-readiness:"@ + w.id@ + ":"@ + c.name@,
        Severity::Warning,
        Layer::Pod,
        model::target_view(w.kind@, w.namespace@, w.name@),
        c.name@ + " uses the same check for liveness and readiness, and is restarting"@,
        "When the app is busy or a dependency is slow, the shared check fails and the kubelet restarts the pod instead of just taking it out of rotation. "@
            + numeral::dec(restarts) + " restarts so far."@,
        seq![check_text(l)],
        "Keep readiness as is, and make liveness a lighter check that only fails if the process is truly stuck."@,
        seq!["kubectl get "@ + kind + " "@ + w.name@ + " -n "@ + w.namespace@ + " -o yaml"@],
        Seq::empty(),
    )
}

fn equal_probes_issue(
    w: &WorkloadInfo,
    kind: &str,
    c: &ContainerSpecInfo,
    l: &ProbeInfo,
    restarts: i64,
) -> (r: Issue)
    ensures
        r@ == equal_probes(*w, kind@, *c, *l, restarts as int),
{
    issue(
        cat4("probe-liveness-equals-readiness:", w.id.as_str(), ":", c.name.as_str()),
        Severity::Warning,
        Layer::Pod,
        target(w.kind.as_str(), w.namespace.as_str(), w.name.as_str()),
        cat2(c.name.as_str(), " uses the same check for liveness and readiness, and is restarting"),
        cat3(
            "When the app is busy or a dependency is slow, the shared check fails and the kubelet restarts the pod instead of just taking it out of rotation. ",
            dec_i64(restarts).as_str(),
            " restarts so far.",
        ),
        lines1(check_line(l)),
        "Keep readiness as is, and make liveness a lighter check that only fails if the process is truly stuck.".to_owned(),
        lines1(
            cat7(
                "kubectl get ",
                kind,
                " ",
                w.name.as_str(),
                " -n ",
                w.namespace.as_str(),
                " -o yaml",
            ),
        ),
        no_lines(),
    )
}

/// The issue for a container that a liveness probe may kill while it starts.
pub open spec fn no_startup(
    w: WorkloadInfo,
    kind: Seq<char>,
    c: ContainerSpecInfo,
    l: ProbeInfo,
) -> IssueView {
    model::issue_view(
        "probe-no-startup:"@ + w.id@ + ":"@ + c.name@,
        Severity::Warning,
        Layer::Pod,
        model::target_view(w.kind@, w.namespace@, w.name@),
        c.name@ + " may be killed while it's still starting"@,
        "Liveness checks begin after "@ + numeral::dec(l.initial_delay as int)
            + "s and there's no startupProbe, so a slow start looks like a hang and the kubelet restarts it."@,
        seq![
            "liveness: initialDelaySeconds "@ + numeral::dec(l.initial_delay as int)
                + ", periodSeconds "@ + numeral::dec(l.period as int) + ", failureThreshold "@
                + numeral::dec(l.failure_threshold as int),
        ],
        "Add a startupProbe with the same check and a generous failureThreshold; liveness then only starts once the app is up."@,
        seq!["kubectl get "@ + kind + " "@ + w.name@ + " -n "@ + w.namespace@ + " -o yaml"@],
        Seq::empty(),
    )
}

fn no_startup_issue(
    w: &WorkloadInfo,
    kind: &str,
    c: &ContainerSpecInfo,
    l: &ProbeInfo,
) -> (r: Issue)
    ensures
        r@ == no_startup(*w, kind@, *c, *l),
{
    issue(
        cat4("probe-no-startup:", w.id.as_str(), ":", c.name.as_str()),
        Severity::Warning,
        Layer::Pod,
        target(w.kind.as_str(), w.namespace.as_str(), w.name.as_str()),
        cat2(c.name.as_str(), " may be killed while it's still starting"),
        cat3(
            "Liveness checks begin after ",
            dec_i32(l.initial_delay).as_str(),
            "s and there's no startupProbe, so a slow start looks like a hang and the kubelet restarts it.",
        ),
        lines1(
            cat6(
                "liveness: initialDelaySeconds ",
                dec_i32(l.initial_delay).as_str(),
                ", periodSeconds ",
                dec_i32(l.period).as_str(),
                ", failureThreshold ",
                dec_i32(l.failure_threshold).as_str(),
            ),
        ),
        "Add a startupProbe with the same check and a generous failureThreshold; liveness then only starts once the app is up.".to_owned(),
        lines1(
            cat7(
                "kubectl get ",
                kind,
                " ",
                w.name.as_str(),
                " -n ",
                w.namespace.as_str(),
                " -o yaml",
            ),
        ),
        no_lines(),
    )
}

/// The issues of a container about its liveness probe, while its pods restart.
pub open spec fn liveness_issue(
    g: ClusterGraph,
    w: WorkloadInfo,
    kind: Seq<char>,
    c: ContainerSpecInfo,
) -> Seq<IssueView> {
    let n = c.probes@.len() as int;
    let total = restarts(g, w, g.pods@.len() as int);
    match probe_of(c, "liveness"@, n) {
        Some(k) => {
            let l = c.probes@[k];
            (match probe_of(c, "readiness"@, n) {
                Some(j) => if same_check(l, c.probes@[j]) && total > 0 && l.handler@ != "exec"@ {
                    seq![equal_probes(w, kind, c, l, total)]
                } else {
                    Seq::empty()
                },
                None => Seq::empty(),
            }) + (if probe_of(c, "startup"@, n) is None && liveness_kills(
                g,
                w,
                g.events@.len() as int,
            ) && total > 0 && l.initial_delay < 15 {
                seq![no_startup(w, kind, c, l)]
            } else {
                Seq::empty()
            })
        },
        None => Seq::empty(),
    }
}

fn issues_of_liveness(
    g: &ClusterGraph,
    w: &WorkloadInfo,
    kind: &str,
    c: &ContainerSpecInfo,
) -> (r: Vec<Issue>)
    ensures
        model::views(r@) == liveness_issue(*g, *w, kind@, *c),
{
    let mut r: Vec<Issue> = no_issues();
    match find_probe(c, "liveness") {
        Some(k) => {
            let l: &ProbeInfo = &c.probes[k];
            let total: i64 = restarts_of(g, w);
            match find_probe(c, "readiness") {
                Some(j) => {
                    if is_same_check(l, &c.probes[j]) && total > 0 && !same(
                        l.handler.as_str(),
                        "exec",
                    ) {
                        emit(&mut r, equal_probes_issue(w, kind, c, l, total));
                    }
                },
                None => {},
            }
            if find_probe(c, "startup").is_none() && is_liveness_killing(g, w) && total > 0
                && l.initial_delay < 15 {
                emit(&mut r, no_startup_issue(w, kind, c, l));
            }
        },
        None => {},
    }
    r
}

/// The issues of the probes of one container; `kind` is the kind of the
/// workload in lower case.
pub open spec fn container_issue(
    g: ClusterGraph,
    w: WorkloadInfo,
    kind: Seq<char>,
    c: ContainerSpecInfo,
) -> Seq<IssueView> {
    ports_issues(w, kind, c, c.probes@.len() as int) + timeout_issue(g, w, kind, c)
        + liveness_issue(g, w, kind, c)
}

/// What is wrong with the probes of one container, given the kind of the
/// workload in lower case.
pub fn issues_of_container(
    g: &ClusterGraph,
    w: &WorkloadInfo,
    kind: &str,
    c: &ContainerSpecInfo,
) -> (r: Vec<Issue>)
    ensures
        model::views(r@) == container_issue(*g, *w, kind@, *c),
{
    let mut r: Vec<Issue> = issues_of_ports(w, kind, c);
    emit_all(&mut r, issues_of_timeout(g, w, kind, c));
    emit_all(&mut r, issues_of_liveness(g, w, kind, c));
    r
}

/// The issues of the probes of the first `n` containers of a workload.
pub open spec fn workload_probes(
    g: ClusterGraph,
    w: WorkloadInfo,
    kind: Seq<char>,
    n: int,
) -> Seq<IssueView> {
    pick::gather(
        n,
        |i: int|
            container_issue(g, w, kind, w.containers@[i]),
    )
}

fn issues_of_workload(g: &ClusterGraph, w: &WorkloadInfo, kind: &str) -> (r: Vec<Issue>)
    ensures
        model::views(r@) == workload_probes(*g, *w, kind@, w.containers@.len() as int),
{
    let mut r: Vec<Issue> = no_issues();
    let mut i: usize = 0;
    while i < w.containers.len()
        invariant
            i <= w.containers@.len(),
            model::views(r@) == workload_probes(*g, *w, kind@, i as int),
        decreases w.containers@.len() - i,
    {
        emit_all(&mut r, issues_of_container(g, w, kind, &w.containers[i]));
        i = i + 1;
    }
    r
}

/// The issues of the probes of the first `n` workloads.
pub open spec fn probe_issues(g: ClusterGraph, n: int) -> Seq<IssueView> {
    pick::gather(
        n,
        |i: int|
            workload_probes(
                g,
                g.workloads@[i],
                lettercase::lowercase(g.workloads@[i].kind@),
                g.workloads@[i].containers@.len() as int,
            ),
    )
}

/// What is wrong with how probes are set up.
pub fn probe_rules(g: &ClusterGraph) -> (r: Vec<Issue>)
    ensures
        model::views(r@) == probe_issues(*g, g.workloads@.len() as int),
{
    let mut r: Vec<Issue> = no_issues();
    let mut i: usize = 0;
    while i < g.workloads.len()
        invariant
            i <= g.workloads@.len(),
            model::views(r@) == probe_issues(*g, i as int),
        decreases g.workloads@.len() - i,
    {
        emit_all(&mut r, issues_of_workload(
                g,
                &g.workloads[i],
                lower(g.workloads[i].kind.as_str()).as_str(),
        ));
        i = i + 1;
    }
    r
}

} // verus!
