//! What a network test is asked for, plans, finds and reports.

use crate::json::{Json, JsonView};
use crate::model::{Target, TargetView};
use crate::text;
use crate::text::opt_copy;
use vstd::prelude::*;

verus! {

#[derive(Debug, Clone, Default)]
pub struct NetworkTestRequest {
    pub namespace: String,
    pub service: String,
    /// Namespace to run probes from; defaults to the service's namespace.
    pub source_namespace: Option<String>,
    /// Image override for registries that can't pull from Docker Hub.
    pub image: Option<String>,
    pub cluster_domain: Option<String>,
}

#[derive(Debug, Clone, PartialEq)]
pub struct PlannedCheck {
    /// dns, tcp or http
    pub kind: String,
    pub label: String,
    pub host: String,
    pub port: Option<i32>,
    pub path: Option<String>,
    pub timeout: i32,
    /// For pod checks: the node the target pod runs on.
    pub target_node: Option<String>,
}

/// The texts of a check.
#[verifier::ext_equal]
pub struct CheckView {
    pub kind: Seq<char>,
    pub label: Seq<char>,
    pub host: Seq<char>,
    pub port: Option<i32>,
    pub path: Option<Seq<char>>,
    pub timeout: i32,
    pub target_node: Option<Seq<char>>,
}

impl View for PlannedCheck {
    type V = CheckView;

    open spec fn view(&self) -> CheckView {
        CheckView {
            kind: self.kind@,
            label: self.label@,
            host: self.host@,
            port: self.port,
            path: text::opt(self.path),
            timeout: self.timeout,
            target_node: text::opt(self.target_node),
        }
    }
}

impl PlannedCheck {
    /// A copy of the check.
    pub fn copy(&self) -> (r: PlannedCheck)
        ensures
            r@ == self@,
    {
        PlannedCheck {
            kind: self.kind.clone(),
            label: self.label.clone(),
            host: self.host.clone(),
            port: self.port,
            path: opt_copy(&self.path),
            timeout: self.timeout,
            target_node: opt_copy(&self.target_node),
        }
    }
}

/// The texts of a list of checks.
pub open spec fn check_views(v: Seq<PlannedCheck>) -> Seq<CheckView> {
    v.map_values(|c: PlannedCheck| c@)
}

/// Add a check to a list.
pub fn add_check(v: &mut Vec<PlannedCheck>, c: PlannedCheck)
    ensures
        check_views(final(v)@) == check_views(old(v)@).push(c@),
        check_views(final(v)@) == check_views(old(v)@) + seq![c@],
{
    let ghost was = v@;
    v.push(c);
    proof {
        assert(check_views(v@) =~= check_views(was).push(c@));
        assert(check_views(v@) =~= check_views(was) + seq![c@]);
    }
}

/// Add a list of checks to a list.
pub fn add_checks(v: &mut Vec<PlannedCheck>, more: Vec<PlannedCheck>)
    ensures
        check_views(final(v)@) == check_views(old(v)@) + check_views(more@),
{
    let ghost was = v@;
    let mut m = more;
    v.append(&mut m);
    proof {
        assert(check_views(v@) =~= check_views(was) + check_views(more@));
    }
}

/// No checks.
pub fn no_checks() -> (r: Vec<PlannedCheck>)
    ensures
        check_views(r@) == Seq::<CheckView>::empty(),
{
    let r: Vec<PlannedCheck> = Vec::new();
    proof {
        assert(check_views(r@) =~= Seq::<CheckView>::empty());
    }
    r
}

#[derive(Debug)]
pub struct PlannedProbe {
    pub node: Option<String>,
    /// same-node, other-node or any
    pub placement: String,
    pub manifest: Json,
}

/// What a planned probe holds.
#[verifier::ext_equal]
pub struct ProbeView {
    pub node: Option<Seq<char>>,
    pub placement: Seq<char>,
    pub manifest: JsonView,
}

impl View for PlannedProbe {
    type V = ProbeView;

    open spec fn view(&self) -> ProbeView {
        ProbeView {
            node: text::opt(self.node),
            placement: self.placement@,
            manifest: self.manifest@,
        }
    }
}

/// What a list of planned probes holds.
pub open spec fn probe_views(v: Seq<PlannedProbe>) -> Seq<ProbeView> {
    v.map_values(|p: PlannedProbe| p@)
}

#[derive(Debug)]
pub struct TestPlan {
    pub service: Target,
    pub source_namespace: String,
    pub image: String,
    pub checks: Vec<PlannedCheck>,
    pub probes: Vec<PlannedProbe>,
    /// Whether a NetworkPolicy selects the target pods (for interpreting drops).
    pub policies_apply: bool,
    pub notes: Vec<String>,
}

/// What a plan holds.
#[verifier::ext_equal]
pub struct PlanView {
    pub service: TargetView,
    pub source_namespace: Seq<char>,
    pub image: Seq<char>,
    pub checks: Seq<CheckView>,
    pub probes: Seq<ProbeView>,
    pub policies_apply: bool,
    pub notes: Seq<Seq<char>>,
}

impl View for TestPlan {
    type V = PlanView;

    open spec fn view(&self) -> PlanView {
        PlanView {
            service: self.service@,
            source_namespace: self.source_namespace@,
            image: self.image@,
            checks: check_views(self.checks@),
            probes: probe_views(self.probes@),
            policies_apply: self.policies_apply,
            notes: text::strs(self.notes@),
        }
    }
}

#[derive(Debug, Clone, PartialEq)]
pub struct CheckResult {
    pub kind: String,
    pub label: String,
    pub target: String,
    /// ok, fail, timeout, refused, none, or an HTTP status code
    pub result: String,
    pub detail: String,
}

/// The texts of the result of a check.
#[verifier::ext_equal]
pub struct ResultView {
    pub kind: Seq<char>,
    pub label: Seq<char>,
    pub target: Seq<char>,
    pub result: Seq<char>,
    pub detail: Seq<char>,
}

impl View for CheckResult {
    type V = ResultView;

    open spec fn view(&self) -> ResultView {
        ResultView {
            kind: self.kind@,
            label: self.label@,
            target: self.target@,
            result: self.result@,
            detail: self.detail@,
        }
    }
}

/// The texts of a list of results.
pub open spec fn result_views(v: Seq<CheckResult>) -> Seq<ResultView> {
    v.map_values(|r: CheckResult| r@)
}

#[derive(Debug, Clone)]
pub struct ProbeRun {
    pub node: Option<String>,
    pub placement: String,
    pub results: Vec<CheckResult>,
    pub error: Option<String>,
}

/// What the run of a probe holds.
#[verifier::ext_equal]
pub struct RunView {
    pub node: Option<Seq<char>>,
    pub placement: Seq<char>,
    pub results: Seq<ResultView>,
    pub error: Option<Seq<char>>,
}

impl View for ProbeRun {
    type V = RunView;

    open spec fn view(&self) -> RunView {
        RunView {
            node: text::opt(self.node),
            placement: self.placement@,
            results: result_views(self.results@),
            error: text::opt(self.error),
        }
    }
}

/// What a list of runs holds.
pub open spec fn run_views(v: Seq<ProbeRun>) -> Seq<RunView> {
    v.map_values(|r: ProbeRun| r@)
}

#[derive(Debug, Clone, PartialEq)]
pub struct Finding {
    /// critical, warning or ok
    pub status: String,
    pub title: String,
    pub detail: String,
    pub suggestion: String,
}

/// The texts of a finding.
#[verifier::ext_equal]
pub struct FindingView {
    pub status: Seq<char>,
    pub title: Seq<char>,
    pub detail: Seq<char>,
    pub suggestion: Seq<char>,
}

impl View for Finding {
    type V = FindingView;

    open spec fn view(&self) -> FindingView {
        FindingView {
            status: self.status@,
            title: self.title@,
            detail: self.detail@,
            suggestion: self.suggestion@,
        }
    }
}

/// The texts of a list of findings.
pub open spec fn finding_views(v: Seq<Finding>) -> Seq<FindingView> {
    v.map_values(|f: Finding| f@)
}

#[derive(Debug)]
pub struct NetworkTestReport {
    pub plan: TestPlan,
    pub runs: Vec<ProbeRun>,
    pub findings: Vec<Finding>,
    /// Names of the probe pods that were created.
    pub pods_created: Vec<String>,
    /// Names of the probe pods that were confirmed deleted.
    pub pods_deleted: Vec<String>,
}

} // verus!
