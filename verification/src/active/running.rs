//! Running a network test: which step comes next, and what its outcome means.
//!
//! The steps themselves (creating a pod, waiting, reading) are carried out by
//! the caller, who performs [`TestRun::action`] and hands the outcome to
//! [`TestRun::handle`] until the action is [`Action::Finish`].

use crate::active::analysis;
use crate::active::analysis::analyze;
use crate::active::check;
use crate::active::check::{
    Finding, NetworkTestReport, ProbeRun, ResultView, RunView, TestPlan,
};
use crate::active::script;
use crate::active::script::parse_output;
use crate::pick;
use crate::scan;
use crate::scan::has;
use crate::text;
use crate::text::{cat2, cat4, cat7, copy_or_empty, no_lines, opt_copy, same, say};
use vstd::prelude::*;

verus! {

/// How long probes may take, in milliseconds.
pub const TIME_LIMIT: u64 = 80_000;

/// Where a test is.
#[derive(Debug, Clone, Copy, PartialEq, Eq, Structural)]
pub enum Stage {
    /// Creating the pod of the probe at an index.
    Creating(usize),
    /// Between two rounds, asking for the time.
    Waiting,
    /// Between two rounds, with time left.
    Resting,
    /// Looking at the first pod of the round.
    Looking,
    /// Reading the output of the first pod of the round.
    Reading,
    /// Deleting the created pod at an index.
    Deleting(usize),
    Done,
}

/// What the caller has to do next.
#[derive(Debug)]
pub enum Action {
    /// Create the pod of the probe at this index.
    Create(usize),
    /// Tell how long ago the last pod was created.
    Clock,
    /// Wait for the next round.
    Rest,
    /// Get the status of this pod.
    Look(String),
    /// Read the output of this pod.
    Read(String),
    /// Delete this pod.
    Delete(String),
    Finish,
}

/// What the caller has to do next, with the name of the pod.
pub enum ActionView {
    Create(int),
    Clock,
    Rest,
    Look(Seq<char>),
    Read(Seq<char>),
    Delete(Seq<char>),
    Finish,
}

impl View for Action {
    type V = ActionView;

    open spec fn view(&self) -> ActionView {
        match self {
            Action::Create(i) => ActionView::Create(*i as int),
            Action::Clock => ActionView::Clock,
            Action::Rest => ActionView::Rest,
            Action::Look(n) => ActionView::Look(n@),
            Action::Read(n) => ActionView::Read(n@),
            Action::Delete(n) => ActionView::Delete(n@),
            Action::Finish => ActionView::Finish,
        }
    }
}

/// Why a container waits, as its status says.
#[derive(Debug)]
pub struct Waiting {
    pub reason: Option<String>,
    pub message: Option<String>,
}

/// What came of a step.
#[derive(Debug)]
pub enum Event {
    /// The pod was created under this name.
    Created(String),
    /// The cluster refused to create it.
    Refused(String),
    /// The manifest is not that of a pod.
    Malformed(String),
    /// The milliseconds since the last pod was created.
    Elapsed(u64),
    /// It is time for the next round.
    Rested,
    /// The pod's phase, and why its containers wait.
    Seen(String, Vec<Waiting>),
    /// The pod could not be looked at.
    Unseen,
    /// The pod's output.
    Output(String),
    /// The output could not be read.
    Unreadable(String),
    /// The pod is deleted.
    Deleted,
    /// The pod could not be deleted.
    NotDeleted,
}

/// A pod in a list: the index of its probe, and its name.
pub open spec fn pods(v: Seq<(usize, String)>) -> Seq<(int, Seq<char>)> {
    v.map_values(|p: (usize, String)| (p.0 as int, p.1@))
}

/// The names of the pods in a list.
pub open spec fn names(s: Seq<(int, Seq<char>)>) -> Seq<Seq<char>> {
    s.map_values(|p: (int, Seq<char>)| p.1)
}

/// A test on its way.
#[derive(Debug)]
pub struct TestRun {
    plan: TestPlan,
    runs: Vec<ProbeRun>,
    created: Vec<(usize, String)>,
    round: Vec<(usize, String)>,
    later: Vec<(usize, String)>,
    deleted: Vec<String>,
    stage: Stage,
}

/// What a test on its way holds.
#[verifier::ext_equal]
pub struct RunState {
    /// How many probes the plan has.
    pub probes: nat,
    pub source: Seq<char>,
    pub image: Seq<char>,
    pub runs: Seq<RunView>,
    /// The pods that were created.
    pub created: Seq<(int, Seq<char>)>,
    /// The pods still to be looked at in this round.
    pub round: Seq<(int, Seq<char>)>,
    /// The pods that are left for the next round.
    pub later: Seq<(int, Seq<char>)>,
    /// The pods that were confirmed deleted.
    pub deleted: Seq<Seq<char>>,
    pub stage: Stage,
}

impl View for TestRun {
    type V = RunState;

    closed spec fn view(&self) -> RunState {
        RunState {
            probes: self.plan.probes@.len(),
            source: self.plan.source_namespace@,
            image: self.plan.image@,
            runs: check::run_views(self.runs@),
            created: pods(self.created@),
            round: pods(self.round@),
            later: pods(self.later@),
            deleted: text::strs(self.deleted@),
            stage: self.stage,
        }
    }
}

/// A state with another stage.
pub open spec fn at(s: RunState, stage: Stage) -> RunState {
    RunState { stage, ..s }
}

/// Clean up, whatever happened; without pods there is nothing to do.
pub open spec fn clean_up(s: RunState) -> RunState {
    if s.created.len() > 0 {
        at(s, Stage::Deleting(0))
    } else {
        at(s, Stage::Done)
    }
}

/// On to the next stage, where one is over.
pub open spec fn onward(s: RunState) -> RunState {
    match s.stage {
        Stage::Creating(i) => if i < s.probes {
            s
        } else if s.round.len() > 0 {
            at(s, Stage::Waiting)
        } else {
            clean_up(s)
        },
        Stage::Looking => if s.round.len() > 0 {
            s
        } else if s.later.len() > 0 {
            RunState { round: s.later, later: Seq::empty(), stage: Stage::Waiting, ..s }
        } else {
            clean_up(s)
        },
        Stage::Deleting(k) => if k < s.created.len() {
            s
        } else {
            at(s, Stage::Done)
        },
        _ => s,
    }
}

/// A run with an error.
pub open spec fn with_error(runs: Seq<RunView>, i: int, e: Seq<char>) -> Seq<RunView> {
    if 0 <= i < runs.len() {
        runs.update(i, RunView { error: Some(e), ..runs[i] })
    } else {
        runs
    }
}

/// A run with its results.
pub open spec fn with_results(runs: Seq<RunView>, i: int, r: Seq<ResultView>) -> Seq<RunView> {
    if 0 <= i < runs.len() {
        runs.update(i, RunView { results: r, ..runs[i] })
    } else {
        runs
    }
}

/// Why a pod could not be created.
pub open spec fn creation_error(ns: Seq<char>, e: Seq<char>) -> Seq<char> {
    if scan::contains(e, "403"@) || scan::contains(e, "forbidden"@) {
        "Your credentials can't create pods in "@ + ns
            + ", so the test couldn't run there. "@ + e
    } else {
        "Couldn't create the probe pod: "@ + e
    }
}

fn creation_error_text(ns: &str, e: &str) -> (r: String)
    ensures
        r@ == creation_error(ns@, e@),
{
    if has(e, "403") || has(e, "forbidden") {
        cat4("Your credentials can't create pods in ", ns, ", so the test couldn't run there. ", e)
    } else {
        cat2("Couldn't create the probe pod: ", e)
    }
}

/// The first container among the first `n` that says why it waits.
pub open spec fn first_reason(w: Seq<Waiting>, n: int) -> Option<int> {
    pick::first(n, |i: int| w[i].reason is Some)
}

fn find_reason(w: &Vec<Waiting>) -> (r: Option<usize>)
    ensures
        match r {
            Some(k) => k < w@.len() && first_reason(w@, w@.len() as int) == Some(k as int),
            None => first_reason(w@, w@.len() as int) is None,
        },
{
    let mut r: Option<usize> = None;
    let mut i: usize = 0;
    while i < w.len()
        invariant
            i <= w@.len(),
            match r {
                Some(k) => k < i && first_reason(w@, i as int) == Some(k as int),
                None => first_reason(w@, i as int) is None,
            },
        decreases w@.len() - i,
    {
        if r.is_none() && w[i].reason.is_some() {
            r = Some(i);
        }
        i = i + 1;
    }
    r
}

/// What the status of a probe pod means.
#[derive(Debug)]
pub enum Verdict {
    /// It has ended; its output can be read.
    Ended,
    /// It will not start, for this reason.
    Stuck(String),
    /// It has not ended yet.
    Wait,
}

/// Does a reason mean that the image cannot be pulled?
pub open spec fn image_reason(r: Seq<char>) -> bool {
    scan::contains(r, "ImagePull"@) || r == "ErrImagePull"@ || r == "InvalidImageName"@
}

/// The error for a probe whose image cannot be pulled, if that is why it
/// waits.
pub open spec fn image_error(image: Seq<char>, w: Seq<Waiting>) -> Option<Seq<char>> {
    match first_reason(w, w.len() as int) {
        Some(i) => {
            let r = text::or_empty(w[i].reason);
            if image_reason(r) {
                Some(
                    "The probe image "@ + image + " couldn't be pulled ("@ + r + ": "@
                        + text::or_empty(w[i].message)
                        + "). If your cluster can't reach Docker Hub, set a mirrored busybox image in Settings."@,
                )
            } else {
                None
            }
        },
        None => None,
    }
}

/// Has a pod in this phase ended?
pub open spec fn has_ended(phase: Seq<char>) -> bool {
    phase == "Succeeded"@ || phase == "Failed"@
}

/// Tell what the status of a probe pod means.
pub fn judge(image: &str, phase: &str, w: &Vec<Waiting>) -> (r: Verdict)
    ensures
        match r {
            Verdict::Ended => has_ended(phase@),
            Verdict::Stuck(e) => !has_ended(phase@) && image_error(image@, w@) == Some(e@),
            Verdict::Wait => !has_ended(phase@) && image_error(image@, w@) is None,
        },
{
    if same(phase, "Succeeded") || same(phase, "Failed") {
        return Verdict::Ended;
    }
    match find_reason(w) {
        Some(i) => {
            let reason: String = copy_or_empty(&w[i].reason);
            let r: &str = reason.as_str();
            if has(r, "ImagePull") || same(r, "ErrImagePull") || same(r, "InvalidImageName") {
                Verdict::Stuck(
                    cat7(
                        "The probe image ",
                        image,
                        " couldn't be pulled (",
                        r,
                        ": ",
                        copy_or_empty(&w[i].message).as_str(),
                        "). If your cluster can't reach Docker Hub, set a mirrored busybox image in Settings.",
                    ),
                )
            } else {
                Verdict::Wait
            }
        },
        None => Verdict::Wait,
    }
}

/// The runs with the first `n` of these pods marked as unfinished, where
/// nothing else was wrong with them.
pub open spec fn expired(runs: Seq<RunView>, late: Seq<(int, Seq<char>)>, n: int) -> Seq<RunView>
    decreases n,
{
    if n <= 0 {
        runs
    } else {
        let before = expired(runs, late, n - 1);
        let i = late[n - 1].0;
        if 0 <= i < before.len() && before[i].error is None {
            with_error(
                before,
                i,
                "The probe didn't finish within 80 seconds (it may not have been scheduled)."@,
            )
        } else {
            before
        }
    }
}

/// The first pod of the round is done with.
pub open spec fn dropped(s: RunState) -> RunState {
    RunState { round: s.round.skip(1), stage: Stage::Looking, ..s }
}

/// The first pod of the round is left for the next.
pub open spec fn postponed(s: RunState) -> RunState {
    RunState { later: s.later.push(s.round[0]), ..dropped(s) }
}

/// What an outcome changes. One that does not belong to the stage changes
/// nothing.
pub open spec fn step(s: RunState, e: Event) -> RunState {
    match s.stage {
        Stage::Creating(i) => if i >= s.probes {
            s
        } else {
            let on = at(s, Stage::Creating((i + 1) as usize));
            match e {
                Event::Created(name) => RunState {
                    created: s.created.push((i as int, name@)),
                    round: s.round.push((i as int, name@)),
                    ..on
                },
                Event::Refused(t) => RunState {
                    runs: with_error(s.runs, i as int, creation_error(s.source, t@)),
                    ..on
                },
                Event::Malformed(t) => RunState {
                    runs: with_error(s.runs, i as int, "Invalid probe manifest: "@ + t@),
                    ..on
                },
                _ => s,
            }
        },
        Stage::Waiting => match e {
            Event::Elapsed(ms) => if ms < TIME_LIMIT {
                at(s, Stage::Resting)
            } else {
                clean_up(
                    RunState {
                        runs: expired(s.runs, s.round, s.round.len() as int),
                        round: Seq::empty(),
                        ..s
                    },
                )
            },
            _ => s,
        },
        Stage::Resting => match e {
            Event::Rested => at(s, Stage::Looking),
            _ => s,
        },
        Stage::Looking => if s.round.len() == 0 {
            s
        } else {
            match e {
                Event::Unseen => postponed(s),
                Event::Seen(phase, w) => if has_ended(phase@) {
                    at(s, Stage::Reading)
                } else {
                    match image_error(s.image, w@) {
                        Some(t) => dropped(
                            RunState { runs: with_error(s.runs, s.round[0].0, t), ..s },
                        ),
                        None => postponed(s),
                    }
                },
                _ => s,
            }
        },
        Stage::Reading => if s.round.len() == 0 {
            s
        } else {
            let i = s.round[0].0;
            match e {
                Event::Output(out) => {
                    let runs = with_results(s.runs, i, script::results_of(out@));
                    dropped(
                        RunState {
                            runs: if scan::contains(out@, "DONE"@) {
                                runs
                            } else {
                                with_error(
                                    runs,
                                    i,
                                    "The probe stopped before finishing all checks."@,
                                )
                            },
                            ..s
                        },
                    )
                },
                Event::Unreadable(t) => dropped(
                    RunState {
                        runs: with_error(s.runs, i, "Couldn't read probe output: "@ + t@),
                        ..s
                    },
                ),
                _ => s,
            }
        },
        Stage::Deleting(k) => if k >= s.created.len() {
            s
        } else {
            match e {
                Event::Deleted => RunState {
                    deleted: s.deleted.push(s.created[k as int].1),
                    stage: Stage::Deleting((k + 1) as usize),
                    ..s
                },
                Event::NotDeleted => at(s, Stage::Deleting((k + 1) as usize)),
                _ => s,
            }
        },
        Stage::Done => s,
    }
}

/// The state after an outcome.
pub open spec fn next(s: RunState, e: Event) -> RunState {
    onward(step(s, e))
}

/// What has to be done in a state.
pub open spec fn action_in(s: RunState) -> ActionView {
    match s.stage {
        Stage::Creating(i) => ActionView::Create(i as int),
        Stage::Waiting => ActionView::Clock,
        Stage::Resting => ActionView::Rest,
        Stage::Looking => if s.round.len() > 0 {
            ActionView::Look(s.round[0].1)
        } else {
            ActionView::Finish
        },
        Stage::Reading => if s.round.len() > 0 {
            ActionView::Read(s.round[0].1)
        } else {
            ActionView::Finish
        },
        Stage::Deleting(k) => if k < s.created.len() {
            ActionView::Delete(s.created[k as int].1)
        } else {
            ActionView::Finish
        },
        Stage::Done => ActionView::Finish,
    }
}

/// The first `n` runs of a plan, before anything is known of them.
pub open spec fn blank_runs(plan: TestPlan, n: int) -> Seq<RunView> {
    pick::gather(
        n,
        |i: int|
            seq![
                RunView {
                    node: text::opt(plan.probes@[i].node),
                    placement: plan.probes@[i].placement@,
                    results: Seq::empty(),
                    error: None,
                },
            ],
    )
}

/// The state in which a test begins.
pub open spec fn beginning(plan: TestPlan) -> RunState {
    onward(
        RunState {
            probes: plan.probes@.len(),
            source: plan.source_namespace@,
            image: plan.image@,
            runs: blank_runs(plan, plan.probes@.len() as int),
            created: Seq::empty(),
            round: Seq::empty(),
            later: Seq::empty(),
            deleted: Seq::empty(),
            stage: Stage::Creating(0),
        },
    )
}

fn add_pod(v: &mut Vec<(usize, String)>, i: usize, name: String)
    ensures
        pods(final(v)@) == pods(old(v)@).push((i as int, name@)),
{
    let ghost was = v@;
    v.push((i, name));
    proof {
        assert(pods(v@) =~= pods(was).push((i as int, name@)));
    }
}

fn no_pods() -> (r: Vec<(usize, String)>)
    ensures
        pods(r@) == Seq::<(int, Seq<char>)>::empty(),
{
    let r: Vec<(usize, String)> = Vec::new();
    proof {
        assert(pods(r@) =~= Seq::empty());
    }
    r
}

fn set_error(runs: &mut Vec<ProbeRun>, i: usize, e: String)
    ensures
        check::run_views(final(runs)@) == with_error(
            check::run_views(old(runs)@),
            i as int,
            e@,
        ),
{
    let ghost was = runs@;
    if i < runs.len() {
        let u: ProbeRun = runs.remove(i);
        let v: ProbeRun = ProbeRun {
            node: u.node,
            placement: u.placement,
            results: u.results,
            error: Some(e),
        };
        runs.insert(i, v);
        proof {
            assert(check::run_views(runs@) =~= with_error(check::run_views(was), i as int, e@));
        }
    }
}

fn set_results(runs: &mut Vec<ProbeRun>, i: usize, out: &str)
    ensures
        check::run_views(final(runs)@) == with_results(
            check::run_views(old(runs)@),
            i as int,
            script::results_of(out@),
        ),
{
    let ghost was = runs@;
    if i < runs.len() {
        let u: ProbeRun = runs.remove(i);
        let v: ProbeRun = ProbeRun {
            node: u.node,
            placement: u.placement,
            results: parse_output(out),
            error: u.error,
        };
        runs.insert(i, v);
        proof {
            assert(check::run_views(runs@) =~= with_results(
                check::run_views(was),
                i as int,
                script::results_of(out@),
            ));
        }
    }
}

fn expire(runs: &mut Vec<ProbeRun>, late: &Vec<(usize, String)>)
    ensures
        check::run_views(final(runs)@) == expired(
            check::run_views(old(runs)@),
            pods(late@),
            late@.len() as int,
        ),
{
    let ghost before = check::run_views(runs@);
    let ghost l = pods(late@);
    let mut k: usize = 0;
    while k < late.len()
        invariant
            k <= late@.len(),
            l == pods(late@),
            check::run_views(runs@) == expired(before, l, k as int),
        decreases late@.len() - k,
    {
        let i: usize = late[k].0;
        proof {
            assert(l[k as int] == (i as int, late@[k as int].1@));
            assert(check::run_views(runs@).len() == runs@.len());
        }
        if i < runs.len() && runs[i].error.is_none() {
            set_error(
                runs,
                i,
                "The probe didn't finish within 80 seconds (it may not have been scheduled).".to_owned(),
            );
        }
        k = k + 1;
    }
}

fn new_runs(plan: &TestPlan) -> (r: Vec<ProbeRun>)
    ensures
        check::run_views(r@) == blank_runs(*plan, plan.probes@.len() as int),
{
    let mut r: Vec<ProbeRun> = Vec::new();
    let mut i: usize = 0;
    proof {
        assert(check::run_views(r@) =~= Seq::empty());
    }
    while i < plan.probes.len()
        invariant
            i <= plan.probes@.len(),
            check::run_views(r@) == blank_runs(*plan, i as int),
        decreases plan.probes@.len() - i,
    {
        let ghost was = r@;
        let u: ProbeRun = ProbeRun {
            node: opt_copy(&plan.probes[i].node),
            placement: plan.probes[i].placement.clone(),
            results: Vec::new(),
            error: None,
        };
        proof {
            assert(check::result_views(u.results@) =~= Seq::empty());
        }
        r.push(u);
        proof {
            assert(check::run_views(r@) =~= check::run_views(was) + seq![u@]);
        }
        i = i + 1;
    }
    r
}

impl TestRun {
    /// The plan that is carried out.
    pub closed spec fn of(self) -> TestPlan {
        self.plan
    }

    /// Begin to carry out a plan.
    pub fn begin(plan: TestPlan) -> (r: TestRun)
        ensures
            r@ == beginning(plan),
            r.of() == plan,
    {
        let runs: Vec<ProbeRun> = new_runs(&plan);
        let mut r: TestRun = TestRun {
            plan,
            runs,
            created: no_pods(),
            round: no_pods(),
            later: no_pods(),
            deleted: no_lines(),
            stage: Stage::Creating(0),
        };
        r.go_on();
        r
    }

    fn clean(&mut self)
        ensures
            final(self)@ == clean_up(old(self)@),
            final(self).of() == old(self).of(),
    {
        if self.created.len() > 0 {
            self.stage = Stage::Deleting(0);
        } else {
            self.stage = Stage::Done;
        }
    }

    fn go_on(&mut self)
        ensures
            final(self)@ == onward(old(self)@),
            final(self).of() == old(self).of(),
    {
        match self.stage {
            Stage::Creating(i) => {
                if i >= self.plan.probes.len() {
                    if self.round.len() > 0 {
                        self.stage = Stage::Waiting;
                    } else {
                        self.clean();
                    }
                }
            },
            Stage::Looking => {
                if self.round.len() == 0 {
                    if self.later.len() > 0 {
                        let mut swap: Vec<(usize, String)> = Vec::new();
                        swap.append(&mut self.later);
                        proof {
                            assert(swap@ =~= old(self).later@);
                            assert(pods(self.later@) =~= Seq::empty());
                        }
                        self.round = swap;
                        self.stage = Stage::Waiting;
                    } else {
                        self.clean();
                    }
                }
            },
            Stage::Deleting(k) => {
                if k >= self.created.len() {
                    self.stage = Stage::Done;
                }
            },
            _ => {},
        }
    }

    fn drop_first(&mut self) -> (r: (usize, String))
        requires
            old(self)@.round.len() > 0,
        ensures
            final(self)@ == dropped(old(self)@),
            final(self).of() == old(self).of(),
            (r.0 as int, r.1@) == old(self)@.round[0],
    {
        let ghost was = self.round@;
        let r: (usize, String) = self.round.remove(0);
        proof {
            assert(pods(self.round@) =~= pods(was).skip(1));
            assert(pods(was)[0] == (r.0 as int, r.1@));
        }
        self.stage = Stage::Looking;
        r
    }

    fn postpone(&mut self)
        requires
            old(self)@.round.len() > 0,
        ensures
            final(self)@ == postponed(old(self)@),
            final(self).of() == old(self).of(),
    {
        let p: (usize, String) = self.drop_first();
        add_pod(&mut self.later, p.0, p.1);
    }

    fn created_one(&mut self, i: usize, e: Event)
        requires
            old(self)@.stage == Stage::Creating(i),
            i < old(self)@.probes,
        ensures
            final(self)@ == step(old(self)@, e),
            final(self).of() == old(self).of(),
    {
        let many: usize = self.plan.probes.len();
        proof {
            assert(i < many);
        }
        match e {
            Event::Created(name) => {
                add_pod(&mut self.created, i, name.clone());
                add_pod(&mut self.round, i, name);
                self.stage = Stage::Creating(i + 1);
            },
            Event::Refused(t) => {
                let m: String = creation_error_text(
                    self.plan.source_namespace.as_str(),
                    t.as_str(),
                );
                set_error(&mut self.runs, i, m);
                self.stage = Stage::Creating(i + 1);
            },
            Event::Malformed(t) => {
                set_error(&mut self.runs, i, cat2("Invalid probe manifest: ", t.as_str()));
                self.stage = Stage::Creating(i + 1);
            },
            _ => {},
        }
    }

    fn looked(&mut self, e: Event)
        requires
            old(self)@.stage == Stage::Looking,
            old(self)@.round.len() > 0,
        ensures
            final(self)@ == step(old(self)@, e),
            final(self).of() == old(self).of(),
    {
        match e {
            Event::Unseen => self.postpone(),
            Event::Seen(phase, w) => {
                match judge(self.plan.image.as_str(), phase.as_str(), &w) {
                    Verdict::Ended => {
                        self.stage = Stage::Reading;
                    },
                    Verdict::Stuck(t) => {
                        proof {
                            assert(pods(self.round@)[0] == (
                                self.round@[0].0 as int,
                                self.round@[0].1@,
                            ));
                        }
                        set_error(&mut self.runs, self.round[0].0, t);
                        self.drop_first();
                    },
                    Verdict::Wait => self.postpone(),
                }
            },
            _ => {},
        }
    }

    fn read_one(&mut self, e: Event)
        requires
            old(self)@.stage == Stage::Reading,
            old(self)@.round.len() > 0,
        ensures
            final(self)@ == step(old(self)@, e),
            final(self).of() == old(self).of(),
    {
        let i: usize = self.round[0].0;
        proof {
            assert(pods(self.round@)[0] == (i as int, self.round@[0].1@));
        }
        match e {
            Event::Output(out) => {
                set_results(&mut self.runs, i, out.as_str());
                let done: bool = has(out.as_str(), "DONE");
                if !done {
                    set_error(
                        &mut self.runs,
                        i,
                        "The probe stopped before finishing all checks.".to_owned(),
                    );
                }
                self.drop_first();
            },
            Event::Unreadable(t) => {
                set_error(&mut self.runs, i, cat2("Couldn't read probe output: ", t.as_str()));
                self.drop_first();
            },
            _ => {},
        }
    }

    fn deleted_one(&mut self, k: usize, e: Event)
        requires
            old(self)@.stage == Stage::Deleting(k),
            k < old(self)@.created.len(),
        ensures
            final(self)@ == step(old(self)@, e),
            final(self).of() == old(self).of(),
    {
        let many: usize = self.created.len();
        proof {
            assert(k < many);
        }
        match e {
            Event::Deleted => {
                proof {
                    assert(pods(self.created@)[k as int].1 == self.created@[k as int].1@);
                }
                say(&mut self.deleted, self.created[k].1.clone());
                self.stage = Stage::Deleting(k + 1);
            },
            Event::NotDeleted => {
                self.stage = Stage::Deleting(k + 1);
            },
            _ => {},
        }
    }

    /// Take in what came of the last action.
    pub fn handle(&mut self, e: Event)
        ensures
            final(self)@ == next(old(self)@, e),
            final(self).of() == old(self).of(),
    {
        match self.stage {
            Stage::Creating(i) => {
                if i < self.plan.probes.len() {
                    self.created_one(i, e);
                }
            },
            Stage::Waiting => match e {
                Event::Elapsed(ms) => {
                    if ms < TIME_LIMIT {
                        self.stage = Stage::Resting;
                    } else {
                        proof {
                            assert(pods(self.round@).len() == self.round@.len());
                        }
                        expire(&mut self.runs, &self.round);
                        self.round = no_pods();
                        self.clean();
                    }
                },
                _ => {},
            },
            Stage::Resting => match e {
                Event::Rested => {
                    self.stage = Stage::Looking;
                },
                _ => {},
            },
            Stage::Looking => {
                if self.round.len() > 0 {
                    self.looked(e);
                }
            },
            Stage::Reading => {
                if self.round.len() > 0 {
                    self.read_one(e);
                }
            },
            Stage::Deleting(k) => {
                if k < self.created.len() {
                    self.deleted_one(k, e);
                }
            },
            Stage::Done => {},
        }
        self.go_on();
    }

    /// What has to be done next.
    pub fn action(&self) -> (r: Action)
        ensures
            r@ == action_in(self@),
    {
        match self.stage {
            Stage::Creating(i) => Action::Create(i),
            Stage::Waiting => Action::Clock,
            Stage::Resting => Action::Rest,
            Stage::Looking => if self.round.len() > 0 {
                proof {
                    assert(pods(self.round@)[0].1 == self.round@[0].1@);
                }
                Action::Look(self.round[0].1.clone())
            } else {
                Action::Finish
            },
            Stage::Reading => if self.round.len() > 0 {
                proof {
                    assert(pods(self.round@)[0].1 == self.round@[0].1@);
                }
                Action::Read(self.round[0].1.clone())
            } else {
                Action::Finish
            },
            Stage::Deleting(k) => if k < self.created.len() {
                proof {
                    assert(pods(self.created@)[k as int].1 == self.created@[k as int].1@);
                }
                Action::Delete(self.created[k].1.clone())
            } else {
                Action::Finish
            },
            Stage::Done => Action::Finish,
        }
    }

    /// The plan that is carried out.
    pub fn plan(&self) -> (r: &TestPlan)
        ensures
            *r == self.of(),
    {
        &self.plan
    }

    /// The report of the test.
    pub fn report(self) -> (r: NetworkTestReport)
        ensures
            r.plan == self.of(),
            check::run_views(r.runs@) == self@.runs,
            check::finding_views(r.findings@) == analysis::meaning(r.plan, r.runs@),
            text::strs(r.pods_created@) == names(self@.created),
            text::strs(r.pods_deleted@) == self@.deleted,
    {
        let findings: Vec<Finding> = analyze(&self.plan, self.runs.as_slice());
        let mut made: Vec<String> = no_lines();
        let mut k: usize = 0;
        let ghost all = names(pods(self.created@));
        proof {
            assert(all.take(0) =~= Seq::empty());
        }
        while k < self.created.len()
            invariant
                k <= self.created@.len(),
                all == names(pods(self.created@)),
                text::strs(made@) == all.take(k as int),
            decreases self.created@.len() - k,
        {
            say(&mut made, self.created[k].1.clone());
            proof {
                assert(all[k as int] == self.created@[k as int].1@);
                assert(all.take(k + 1) =~= all.take(k as int).push(all[k as int]));
            }
            k = k + 1;
        }
        proof {
            assert(all.take(k as int) =~= all);
        }
        NetworkTestReport {
            plan: self.plan,
            runs: self.runs,
            findings,
            pods_created: made,
            pods_deleted: self.deleted,
        }
    }
}

/// The state after the first `n` of these outcomes.
pub open spec fn after(s: RunState, events: Seq<Event>, n: int) -> RunState
    decreases n,
{
    if n <= 0 {
        s
    } else {
        next(after(s, events, n - 1), events[n - 1])
    }
}

/// The pods that were asked to be deleted on the way: those whose deletion
/// was the action when an outcome of a deletion came.
pub open spec fn asked(s: RunState, events: Seq<Event>, n: int) -> Seq<Seq<char>>
    decreases n,
{
    if n <= 0 {
        Seq::empty()
    } else {
        let before = after(s, events, n - 1);
        asked(s, events, n - 1) + (match (action_in(before), events[n - 1]) {
            (ActionView::Delete(name), Event::Deleted) => seq![name],
            (ActionView::Delete(name), Event::NotDeleted) => seq![name],
            _ => Seq::empty(),
        })
    }
}

/// What the stage says of the pods asked to be deleted so far.
spec fn tidy(s: RunState, asked_for: Seq<Seq<char>>) -> bool {
    s.created.len() <= usize::MAX && match s.stage {
        Stage::Deleting(k) => k < s.created.len() && asked_for == names(s.created).take(k as int),
        Stage::Done => asked_for == names(s.created),
        _ => asked_for.len() == 0,
    }
}

proof fn lemma_tidy(plan: TestPlan, events: Seq<Event>, n: int)
    requires
        0 <= n <= events.len(),
    ensures
        tidy(after(beginning(plan), events, n), asked(beginning(plan), events, n)),
        after(beginning(plan), events, n).probes == plan.probes@.len(),
        match after(beginning(plan), events, n).stage {
            Stage::Creating(i) => i < plan.probes@.len() && after(
                beginning(plan),
                events,
                n,
            ).created.len() <= i,
            _ => after(beginning(plan), events, n).created.len() <= plan.probes@.len(),
        },
    decreases n,
{
    let b = beginning(plan);
    assert(plan.probes@.len() == plan.probes.len());
    if n == 0 {
        assert(names(b.created) =~= Seq::empty());
        assert(asked(b, events, 0) =~= Seq::empty());
    } else {
        lemma_tidy(plan, events, n - 1);
        let s = after(b, events, n - 1);
        let e = events[n - 1];
        let a = asked(b, events, n - 1);
        let t = step(s, e);
        let u = next(s, e);
        let c = asked(b, events, n);
        match s.stage {
            Stage::Deleting(k) => {
                assert(names(s.created)[k as int] == s.created[k as int].1);
                assert(names(s.created).take(k + 1) =~= names(s.created).take(k as int).push(
                    names(s.created)[k as int],
                ));
                if k + 1 == s.created.len() {
                    assert(names(s.created).take(k + 1) =~= names(s.created));
                }
                assert(a + Seq::<Seq<char>>::empty() =~= a);
            },
            _ => {
                assert(c =~= a);
                assert(names(u.created).take(0) =~= Seq::empty());
                if u.created.len() == 0 {
                    assert(names(u.created) =~= Seq::empty());
                }
            },
        }
    }
}

/// Once the time is up, a test looks at no further pod: it is over, or only
/// deletions are left.
pub proof fn late_tests_only_clean_up(s: RunState, ms: u64)
    requires
        s.stage == Stage::Waiting,
        ms >= TIME_LIMIT,
    ensures
        match action_in(next(s, Event::Elapsed(ms))) {
            ActionView::Delete(name) => s.created.len() > 0 && name == s.created[0].1,
            ActionView::Finish => s.created.len() == 0,
            _ => false,
        },
{
}

/// Every probe pod that was created is asked to be deleted before the test is
/// over, once and in the order of creation, whatever came of any step.
pub proof fn every_created_pod_is_deleted(plan: TestPlan, events: Seq<Event>)
    requires
        after(beginning(plan), events, events.len() as int).stage == Stage::Done,
    ensures
        asked(beginning(plan), events, events.len() as int) == names(
            after(beginning(plan), events, events.len() as int).created,
        ),
{
    lemma_tidy(plan, events, events.len() as int);
}

/// What the stage says of the pods confirmed deleted so far.
spec fn confirmed(s: RunState) -> bool {
    let made = names(s.created);
    let k = match s.stage {
        Stage::Deleting(k) => k as int,
        Stage::Done => made.len() as int,
        _ => 0,
    };
    &&& 0 <= k <= made.len()
    &&& s.deleted.len() <= k
    &&& s.deleted.len() == k ==> s.deleted == made.take(k)
    &&& forall|i: int| 0 <= i < s.deleted.len() ==> made.contains(#[trigger] s.deleted[i])
}

proof fn lemma_confirmed(plan: TestPlan, events: Seq<Event>, n: int)
    requires
        0 <= n <= events.len(),
    ensures
        confirmed(after(beginning(plan), events, n)),
    decreases n,
{
    let b = beginning(plan);
    lemma_tidy(plan, events, n);
    if n == 0 {
        assert(names(b.created) =~= Seq::empty());
        assert(names(b.created).take(0) =~= Seq::empty());
    } else {
        lemma_tidy(plan, events, n - 1);
        lemma_confirmed(plan, events, n - 1);
        let s = after(b, events, n - 1);
        let u = next(s, events[n - 1]);
        let made = names(u.created);
        match s.stage {
            Stage::Deleting(k) => {
                assert(made[k as int] == s.created[k as int].1);
                assert(made.take(k + 1) =~= made.take(k as int).push(made[k as int]));
            },
            Stage::Done => {},
            _ => {
                assert(u.deleted.len() == 0);
                assert(u.deleted =~= made.take(0));
                if made.len() == 0 {
                    assert(made =~= made.take(0));
                }
            },
        }
    }
}

/// Only pods that were created are reported as deleted, and where as many are
/// reported as were created, they are the same pods in the same order.
pub proof fn reported_deletions_are_of_created_pods(plan: TestPlan, events: Seq<Event>)
    requires
        after(beginning(plan), events, events.len() as int).stage == Stage::Done,
    ensures
        ({
            let s = after(beginning(plan), events, events.len() as int);
            &&& s.deleted.len() <= s.created.len()
            &&& s.deleted.len() == s.created.len() ==> s.deleted == names(s.created)
            &&& forall|x: Seq<char>| #[trigger]
                s.deleted.contains(x) ==> names(s.created).contains(x)
        }),
{
    lemma_confirmed(plan, events, events.len() as int);
    let s = after(beginning(plan), events, events.len() as int);
    let made = names(s.created);
    assert(made.take(made.len() as int) =~= made);
}

} // verus!
