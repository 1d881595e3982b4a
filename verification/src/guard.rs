//! The guardrails around network tests: what may be planned, what may be run,
//! and what is recorded of it.

use crate::active::check::{Finding, NetworkTestReport, NetworkTestRequest, PlanView, TestPlan};
use crate::audit;
use crate::audit::{AuditEntry, EntryView};
use crate::collect::CollectOptions;
use crate::numeral;
use crate::numeral::dec_usize;
use crate::pick;
use crate::policy::rules;
use crate::policy::rules::{Environment, Policy, PolicyView};
use crate::text;
use crate::text::{cat2, cat3, copy_list, opt_copy, opt_is, same};
use vstd::prelude::*;

verus! {

/// The name of an environment.
pub open spec fn name_of(e: Environment) -> Seq<char> {
    match e {
        Environment::Production => "production"@,
        Environment::Staging => "staging"@,
        Environment::Development => "development"@,
        Environment::Other => "other"@,
    }
}

/// The name of an environment.
pub fn env_name(e: Environment) -> (r: &'static str)
    ensures
        r@ == name_of(e),
{
    match e {
        Environment::Production => "production",
        Environment::Staging => "staging",
        Environment::Development => "development",
        Environment::Other => "other",
    }
}

/// What to say of a context that the policy does not allow.
pub open spec fn not_allowed(context: Seq<char>) -> Seq<char> {
    "The context "@ + context + " isn't allowed by your Tessera policy."@
}

/// May the context be used?
pub fn check_context(policy: &Policy, context: &str) -> (r: Result<(), String>)
    ensures
        r is Ok <==> rules::allows(policy@, context@),
        r matches Err(e) ==> e@ == not_allowed(context@),
{
    if policy.context_allowed(context) {
        Ok(())
    } else {
        Err(cat3("The context ", context, " isn't allowed by your Tessera policy."))
    }
}

/// The options of a snapshot, as far as the policy allows them.
pub fn permitted(options: &CollectOptions, policy: &Policy) -> (r: CollectOptions)
    ensures
        r.cloud_checks == (options.cloud_checks && policy@.allow_cloud_checks),
        r.aws_profile == options.aws_profile,
        r.aws_region == options.aws_region,
{
    CollectOptions {
        cloud_checks: options.cloud_checks && policy.allow_cloud_checks,
        aws_profile: opt_copy(&options.aws_profile),
        aws_region: opt_copy(&options.aws_region),
    }
}

/// How many lines of a log to read: 500 unless something else is asked for, and
/// at least 10 and at most 5000.
pub fn tail_lines(tail: Option<i64>) -> (r: i64)
    ensures
        r == match tail {
            Some(n) => if n < 10 {
                10int
            } else if n > 5000 {
                5000
            } else {
                n as int
            },
            None => 500,
        },
{
    match tail {
        Some(n) => {
            if n < 10 {
                10
            } else if n > 5000 {
                5000
            } else {
                n
            }
        },
        None => 500,
    }
}

/// How many entries of the audit log to show: 100 unless something else is
/// asked for, and at most 1000.
pub fn audit_limit(limit: Option<usize>) -> (r: usize)
    ensures
        r == match limit {
            Some(n) => if n > 1000 {
                1000int
            } else {
                n as int
            },
            None => 100,
        },
{
    match limit {
        Some(n) => {
            if n > 1000 {
                1000
            } else {
                n
            }
        },
        None => 100,
    }
}

/// Must the run of a test be confirmed by typing the name of the context?
pub fn requires_confirmation(e: Environment) -> (r: bool)
    ensures
        r == (e == Environment::Production),
{
    e == Environment::Production
}

/// Why something was refused, and what to record of it.
#[derive(Debug, Clone)]
pub struct Refusal {
    pub reason: String,
    pub entry: Option<AuditEntry>,
}

/// The reason of a refusal, and what to record of it.
pub type RefusalView = (Seq<char>, Option<EntryView>);

/// The texts of a refusal.
pub open spec fn refusal_view(r: Refusal) -> RefusalView {
    (
        r.reason@,
        match r.entry {
            Some(e) => Some(e@),
            None => None,
        },
    )
}

/// Who asks, and when.
#[derive(Debug, Clone)]
pub struct Asker {
    pub time: u64,
    pub user: String,
}

/// The record of a test that the policy blocked.
pub open spec fn blocked_entry(
    asker: Asker,
    context: Seq<char>,
    e: Environment,
    namespace: Seq<char>,
    service: Seq<char>,
    reason: Seq<char>,
) -> EntryView {
    EntryView {
        namespace: Some(namespace),
        target: Some("service/"@ + service),
        ..audit::plain_entry(
            asker.time,
            asker.user@,
            context,
            name_of(e),
            "network_test_blocked"@,
            reason,
        )
    }
}

/// The refusal of a test that the policy blocks. It is recorded if the policy
/// wants a log.
pub open spec fn blocked(
    p: PolicyView,
    asker: Asker,
    context: Seq<char>,
    e: Environment,
    namespace: Seq<char>,
    service: Seq<char>,
    reason: Seq<char>,
) -> RefusalView {
    (
        reason,
        if p.audit_log {
            Some(blocked_entry(asker, context, e, namespace, service, reason))
        } else {
            None
        },
    )
}

fn block(
    policy: &Policy,
    asker: &Asker,
    context: &str,
    e: Environment,
    namespace: &str,
    service: &str,
    reason: String,
) -> (r: Refusal)
    ensures
        refusal_view(r) == blocked(
            policy@,
            *asker,
            context@,
            e,
            namespace@,
            service@,
            reason@,
        ),
{
    if policy.audit_log {
        let mut entry: AuditEntry = AuditEntry::at(
            asker.time,
            asker.user.as_str(),
            context,
            env_name(e),
            "network_test_blocked",
            reason.as_str(),
        );
        entry.namespace = Some(namespace.to_owned());
        entry.target = Some(cat2("service/", service));
        proof {
            assert(entry@ =~= blocked_entry(
                *asker,
                context@,
                e,
                namespace@,
                service@,
                reason@,
            ));
        }
        Refusal { reason, entry: Some(entry) }
    } else {
        Refusal { reason, entry: None }
    }
}

/// May a test be planned? Gives the environment, or the refusal.
pub open spec fn planning(
    p: PolicyView,
    asker: Asker,
    context: Seq<char>,
    namespace: Seq<char>,
    service: Seq<char>,
    wish: Option<Environment>,
) -> Result<Environment, RefusalView> {
    if !rules::allows(p, context) {
        Err((not_allowed(context), None))
    } else {
        let e = rules::raised(rules::environment_of(p, context), wish);
        match rules::block_reason(p, e) {
            Some(reason) => Err(blocked(p, asker, context, e, namespace, service, reason)),
            None => Ok(e),
        }
    }
}

/// May a test be planned? A wish can only raise the protection of the context.
pub fn may_plan(
    policy: &Policy,
    asker: &Asker,
    context: &str,
    request: &NetworkTestRequest,
    wish: Option<Environment>,
) -> (r: Result<Environment, Refusal>)
    ensures
        match (
            r,
            planning(
                policy@,
                *asker,
                context@,
                request.namespace@,
                request.service@,
                wish,
            ),
        ) {
            (Ok(e), Ok(f)) => e == f,
            (Err(x), Err(y)) => refusal_view(x) == y,
            _ => false,
        },
{
    match check_context(policy, context) {
        Err(reason) => Err(Refusal { reason, entry: None }),
        Ok(_) => {
            let e: Environment = policy.classify(context).stricter(wish);
            match policy.network_test_blocked(e) {
                Some(reason) => Err(
                    block(
                        policy,
                        asker,
                        context,
                        e,
                        request.namespace.as_str(),
                        request.service.as_str(),
                        reason,
                    ),
                ),
                None => Ok(e),
            }
        },
    }
}

/// A plan that was shown to the user.
#[derive(Debug)]
pub struct PlannedTest {
    pub context: String,
    pub environment: Environment,
    pub plan: TestPlan,
}

/// What a shown plan holds.
#[verifier::ext_equal]
pub struct PlannedView {
    pub context: Seq<char>,
    pub environment: Environment,
    pub plan: PlanView,
}

impl View for PlannedTest {
    type V = PlannedView;

    open spec fn view(&self) -> PlannedView {
        PlannedView {
            context: self.context@,
            environment: self.environment,
            plan: self.plan@,
        }
    }
}

/// Plans that were shown to the user, by id. A test is run by its id alone, so
/// only a plan made here can be run.
#[derive(Debug)]
pub struct PlanStore {
    plans: Vec<(String, PlannedTest)>,
}

/// Is the plan kept under this id?
pub open spec fn has_id(e: (String, PlannedTest), id: Seq<char>) -> bool {
    e.0@ == id
}

/// The plan with this id.
pub open spec fn find_plan(s: Seq<(String, PlannedTest)>, id: Seq<char>) -> Option<int> {
    pick::first(s.len() as int, |i: int| has_id(s[i], id))
}

/// The plans by id.
pub open spec fn plans_of(s: Seq<(String, PlannedTest)>) -> Map<Seq<char>, PlannedView> {
    Map::new(|id: Seq<char>| find_plan(s, id) is Some, |id: Seq<char>| s[find_plan(s, id)->0].1@)
}

/// Does each id occur once?
pub open spec fn ids_differ(s: Seq<(String, PlannedTest)>) -> bool {
    forall|i: int, j: int| 0 <= i < j < s.len() ==> #[trigger] s[i].0@ != #[trigger] s[j].0@
}

impl View for PlanStore {
    type V = Map<Seq<char>, PlannedView>;

    closed spec fn view(&self) -> Map<Seq<char>, PlannedView> {
        plans_of(self.plans@)
    }
}

proof fn lemma_find(s: Seq<(String, PlannedTest)>, id: Seq<char>)
    ensures
        match find_plan(s, id) {
            Some(i) => 0 <= i < s.len() && s[i].0@ == id,
            None => forall|j: int| 0 <= j < s.len() ==> (#[trigger] s[j]).0@ != id,
        },
{
    let q = |i: int| has_id(s[i], id);
    pick::lemma_first(s.len() as int, q);
    if find_plan(s, id) is None {
        assert forall|j: int| 0 <= j < s.len() implies (#[trigger] s[j]).0@ != id by {
            assert(!q(j));
        }
    }
}

proof fn lemma_found(s: Seq<(String, PlannedTest)>, k: int)
    requires
        ids_differ(s),
        0 <= k < s.len(),
    ensures
        find_plan(s, s[k].0@) == Some(k),
{
    lemma_find(s, s[k].0@);
    match find_plan(s, s[k].0@) {
        Some(i) => {
            if i < k {
                assert(s[i].0@ != s[k].0@);
            } else if i > k {
                assert(s[k].0@ != s[i].0@);
            }
        },
        None => {
            assert(s[k].0@ != s[k].0@);
        },
    }
}

/// Without the plan at an index, there is no plan with its id, and the others
/// stay.
proof fn lemma_without(s: Seq<(String, PlannedTest)>, k: int)
    requires
        ids_differ(s),
        0 <= k < s.len(),
    ensures
        ids_differ(s.remove(k)),
        plans_of(s.remove(k)) == plans_of(s).remove(s[k].0@),
{
    let t = s.remove(k);
    assert forall|i: int, j: int| 0 <= i < j < t.len() implies #[trigger] t[i].0@
        != #[trigger] t[j].0@ by {
        let a = if i < k {
            i
        } else {
            i + 1
        };
        let b = if j < k {
            j
        } else {
            j + 1
        };
        assert(t[i] == s[a] && t[j] == s[b]);
    }
    assert forall|id: Seq<char>| #[trigger] plans_of(t).dom().contains(id) <==> plans_of(s).remove(
        s[k].0@,
    ).dom().contains(id) by {
        lemma_same_plan(s, k, id);
    }
    assert forall|id: Seq<char>| #[trigger] plans_of(t).dom().contains(id) implies plans_of(t)[id]
        == plans_of(s).remove(s[k].0@)[id] by {
        lemma_same_plan(s, k, id);
    }
    assert(plans_of(t) =~= plans_of(s).remove(s[k].0@));
}

proof fn lemma_same_plan(s: Seq<(String, PlannedTest)>, k: int, id: Seq<char>)
    requires
        ids_differ(s),
        ids_differ(s.remove(k)),
        0 <= k < s.len(),
    ensures
        id == s[k].0@ ==> find_plan(s.remove(k), id) is None,
        id != s[k].0@ ==> (find_plan(s.remove(k), id) is Some <==> find_plan(s, id) is Some),
        id != s[k].0@ && find_plan(s, id) is Some ==> s.remove(k)[find_plan(s.remove(k), id)->0]
            == s[find_plan(s, id)->0],
{
    let t = s.remove(k);
    lemma_find(s, id);
    lemma_find(t, id);
    if find_plan(t, id) is Some {
        let i = find_plan(t, id)->0;
        let a = if i < k {
            i
        } else {
            i + 1
        };
        assert(t[i] == s[a]);
        lemma_found(s, a);
        if id == s[k].0@ {
            lemma_found(s, k);
        }
    } else if find_plan(s, id) is Some && id != s[k].0@ {
        let a = find_plan(s, id)->0;
        let i = if a < k {
            a
        } else {
            a - 1
        };
        assert(t[i] == s[a]);
        assert(t[i].0@ != id);
    }
}

/// With one more plan under a new id, the others stay.
proof fn lemma_with(s: Seq<(String, PlannedTest)>, e: (String, PlannedTest))
    requires
        ids_differ(s),
        find_plan(s, e.0@) is None,
    ensures
        ids_differ(s.push(e)),
        plans_of(s.push(e)) == plans_of(s).insert(e.0@, e.1@),
{
    let t = s.push(e);
    lemma_find(s, e.0@);
    assert forall|i: int, j: int| 0 <= i < j < t.len() implies #[trigger] t[i].0@
        != #[trigger] t[j].0@ by {
        assert(t[i] == s[i]);
        if j < s.len() {
            assert(t[j] == s[j]);
        }
    }
    assert forall|id: Seq<char>|
        (#[trigger] plans_of(t).dom().contains(id) <==> plans_of(s).insert(
            e.0@,
            e.1@,
        ).dom().contains(id)) && (plans_of(t).dom().contains(id) ==> plans_of(t)[id] == plans_of(
            s,
        ).insert(e.0@, e.1@)[id]) by {
        lemma_find(s, id);
        lemma_find(t, id);
        if id == e.0@ {
            lemma_found(t, s.len() as int);
        } else {
            if find_plan(s, id) is Some {
                let a = find_plan(s, id)->0;
                assert(t[a] == s[a]);
                lemma_found(t, a);
            }
            if find_plan(t, id) is Some {
                let a = find_plan(t, id)->0;
                assert(a < s.len());
                assert(t[a] == s[a]);
                lemma_found(s, a);
            }
        }
    }
    assert(plans_of(t) =~= plans_of(s).insert(e.0@, e.1@));
}

impl PlanStore {
    #[verifier::type_invariant]
    spec fn valid(self) -> bool {
        ids_differ(self.plans@)
    }

    /// No plans.
    pub fn new() -> (r: PlanStore)
        ensures
            r@ == Map::<Seq<char>, PlannedView>::empty(),
    {
        let r: PlanStore = PlanStore { plans: Vec::new() };
        proof {
            assert forall|id: Seq<char>| !(#[trigger] r@.dom().contains(id)) by {
                lemma_find(r.plans@, id);
            }
            assert(r@ =~= Map::<Seq<char>, PlannedView>::empty());
        }
        r
    }

    fn locate(&self, id: &str) -> (r: Option<usize>)
        ensures
            match r {
                Some(k) => find_plan(self.plans@, id@) == Some(k as int) && k < self.plans@.len(),
                None => find_plan(self.plans@, id@) is None,
            },
    {
        let ghost s = self.plans@;
        let ghost q = |i: int| has_id(s[i], id@);
        let mut i: usize = 0;
        while i < self.plans.len()
            invariant
                i <= self.plans@.len(),
                s == self.plans@,
                q == (|i: int| has_id(s[i], id@)),
                forall|j: int| 0 <= j < i ==> !#[trigger] q(j),
            decreases self.plans@.len() - i,
        {
            if same(self.plans[i].0.as_str(), id) {
                proof {
                    assert(q(i as int));
                    pick::lemma_first(s.len() as int, q);
                }
                return Some(i);
            }
            i = i + 1;
        }
        proof {
            pick::lemma_first(s.len() as int, q);
        }
        None
    }

    /// Take a plan out.
    pub fn take(&mut self, id: &str) -> (r: Option<PlannedTest>)
        ensures
            match r {
                Some(p) => old(self)@.dom().contains(id@) && p@ == old(self)@[id@],
                None => !old(self)@.dom().contains(id@),
            },
            final(self)@ == old(self)@.remove(id@),
    {
        proof {
            use_type_invariant(&*self);
        }
        let ghost s = self.plans@;
        match self.locate(id) {
            Some(k) => {
                proof {
                    lemma_find(s, id@);
                    lemma_without(s, k as int);
                }
                let mut plans: Vec<(String, PlannedTest)> = Vec::new();
                std::mem::swap(&mut plans, &mut self.plans);
                let e: (String, PlannedTest) = plans.remove(k);
                self.plans = plans;
                Some(e.1)
            },
            None => {
                proof {
                    assert(plans_of(s).remove(id@) =~= plans_of(s));
                }
                None
            },
        }
    }

    /// Keep a plan under an id, in place of the one that was there.
    pub fn insert(&mut self, id: String, planned: PlannedTest)
        ensures
            final(self)@ == old(self)@.insert(id@, planned@),
    {
        let ghost before = self@;
        let dropped: Option<PlannedTest> = self.take(id.as_str());
        proof {
            use_type_invariant(&*self);
            assert(!self@.dom().contains(id@));
            assert(before.remove(id@).insert(id@, planned@) =~= before.insert(id@, planned@));
            lemma_with(self.plans@, (id, planned));
        }
        let mut plans: Vec<(String, PlannedTest)> = Vec::new();
        std::mem::swap(&mut plans, &mut self.plans);
        plans.push((id, planned));
        self.plans = plans;
    }
}

/// May a plan be run? The policy is asked again, and a test in production needs
/// the exact name of the context.
pub open spec fn running(
    p: PolicyView,
    asker: Asker,
    planned: PlannedView,
    confirmation: Option<Seq<char>>,
) -> Option<RefusalView> {
    let service = planned.plan.service;
    if !rules::allows(p, planned.context) {
        Some((not_allowed(planned.context), None))
    } else if rules::block_reason(p, planned.environment) is Some {
        Some(
            blocked(
                p,
                asker,
                planned.context,
                planned.environment,
                service.namespace,
                service.name,
                rules::block_reason(p, planned.environment)->0,
            ),
        )
    } else if planned.environment == Environment::Production && confirmation != Some(
        planned.context,
    ) {
        Some(
            (
                "This is a production context. Type the context name exactly to confirm the test."@,
                None,
            ),
        )
    } else {
        None
    }
}

/// May this plan be run?
pub fn may_run(
    policy: &Policy,
    asker: &Asker,
    planned: &PlannedTest,
    confirmation: &Option<String>,
) -> (r: Result<(), Refusal>)
    ensures
        match (r, running(policy@, *asker, planned@, text::opt(*confirmation))) {
            (Ok(_), None) => true,
            (Err(x), Some(y)) => refusal_view(x) == y,
            _ => false,
        },
{
    match check_context(policy, planned.context.as_str()) {
        Err(reason) => {
            return Err(Refusal { reason, entry: None });
        },
        Ok(_) => {},
    }
    match policy.network_test_blocked(planned.environment) {
        Some(reason) => {
            return Err(
                block(
                    policy,
                    asker,
                    planned.context.as_str(),
                    planned.environment,
                    planned.plan.service.namespace.as_str(),
                    planned.plan.service.name.as_str(),
                    reason,
                ),
            );
        },
        None => {},
    }
    if planned.environment == Environment::Production && !opt_is(
        confirmation,
        planned.context.as_str(),
    ) {
        return Err(
            Refusal {
                reason: "This is a production context. Type the context name exactly to confirm the test.".to_owned(),
                entry: None,
            },
        );
    }
    Ok(())
}

/// What comes of asking to run the plan with an id: the plan, or the refusal.
pub open spec fn started(
    plans: Map<Seq<char>, PlannedView>,
    p: PolicyView,
    asker: Asker,
    id: Seq<char>,
    confirmation: Option<Seq<char>>,
) -> Result<PlannedView, RefusalView> {
    if !plans.dom().contains(id) {
        Err(("That test plan has expired. Plan the test again."@, None))
    } else {
        match running(p, asker, plans[id], confirmation) {
            Some(r) => Err(r),
            None => Ok(plans[id]),
        }
    }
}

/// Take the plan with an id, if it may be run. Whatever comes of it, the plan is
/// gone.
pub fn start_run(
    plans: &mut PlanStore,
    policy: &Policy,
    asker: &Asker,
    id: &str,
    confirmation: &Option<String>,
) -> (r: Result<PlannedTest, Refusal>)
    ensures
        final(plans)@ == old(plans)@.remove(id@),
        match (r, started(old(plans)@, policy@, *asker, id@, text::opt(*confirmation))) {
            (Ok(p), Ok(v)) => p@ == v,
            (Err(x), Err(y)) => refusal_view(x) == y,
            _ => false,
        },
{
    match plans.take(id) {
        None => Err(
            Refusal {
                reason: "That test plan has expired. Plan the test again.".to_owned(),
                entry: None,
            },
        ),
        Some(planned) => match may_run(policy, asker, &planned, confirmation) {
            Ok(_) => Ok(planned),
            Err(r) => Err(r),
        },
    }
}

/// How many of the first `n` findings are not all right.
pub open spec fn failing(fs: Seq<Finding>, n: int) -> nat {
    pick::tally(n, |i: int| fs[i].status@ != "ok"@)
}

fn count_failing(fs: &Vec<Finding>) -> (r: usize)
    ensures
        r == failing(fs@, fs@.len() as int),
{
    let mut r: usize = 0;
    let mut i: usize = 0;
    while i < fs.len()
        invariant
            i <= fs@.len(),
            r <= i,
            r == failing(fs@, i as int),
        decreases fs@.len() - i,
    {
        if !same(fs[i].status.as_str(), "ok") {
            r = r + 1;
        }
        i = i + 1;
    }
    r
}

/// How a test came out, in words.
pub open spec fn result_words(report: NetworkTestReport) -> Seq<char> {
    let n = failing(report.findings@, report.findings@.len() as int);
    (if n == 0 {
        "all checks passed"@
    } else {
        numeral::dec(n as int) + " findings"@
    }) + (if report.pods_created@.len() != report.pods_deleted@.len() {
        "; WARNING: not every probe pod was confirmed deleted"@
    } else {
        Seq::empty()
    })
}

/// The record of a test that was run.
pub open spec fn run_record(
    asker: Asker,
    context: Seq<char>,
    e: Environment,
    report: NetworkTestReport,
) -> EntryView {
    EntryView {
        namespace: Some(report.plan.service.namespace@),
        target: Some("service/"@ + report.plan.service.name@),
        pods_created: text::strs(report.pods_created@),
        pods_deleted: text::strs(report.pods_deleted@),
        ..audit::plain_entry(
            asker.time,
            asker.user@,
            context,
            name_of(e),
            "network_test_run"@,
            result_words(report),
        )
    }
}

/// Record a test that was run, if the policy wants a log.
pub fn record_run(
    policy: &Policy,
    asker: &Asker,
    context: &str,
    e: Environment,
    report: &NetworkTestReport,
) -> (r: Option<AuditEntry>)
    ensures
        match r {
            Some(x) => policy@.audit_log && x@ == run_record(*asker, context@, e, *report),
            None => !policy@.audit_log,
        },
{
    if !policy.audit_log {
        return None;
    }
    let n: usize = count_failing(&report.findings);
    let words: String = if n == 0 {
        "all checks passed".to_owned()
    } else {
        cat2(dec_usize(n).as_str(), " findings")
    };
    let outcome: String = if report.pods_created.len() != report.pods_deleted.len() {
        cat2(words.as_str(), "; WARNING: not every probe pod was confirmed deleted")
    } else {
        words
    };
    let mut entry: AuditEntry = AuditEntry::at(
        asker.time,
        asker.user.as_str(),
        context,
        env_name(e),
        "network_test_run",
        outcome.as_str(),
    );
    entry.namespace = Some(report.plan.service.namespace.clone());
    entry.target = Some(cat2("service/", report.plan.service.name.as_str()));
    entry.pods_created = copy_list(&report.pods_created);
    entry.pods_deleted = copy_list(&report.pods_deleted);
    proof {
        assert(outcome@ =~= result_words(*report));
        assert(entry@ =~= run_record(*asker, context@, e, *report));
    }
    Some(entry)
}

/// Only a plan that was made can be run, and only once: after asking to run it,
/// the same id is refused.
pub proof fn a_plan_runs_once(
    plans: Map<Seq<char>, PlannedView>,
    p: PolicyView,
    asker: Asker,
    id: Seq<char>,
    confirmation: Option<Seq<char>>,
)
    ensures
        started(plans, p, asker, id, confirmation) is Ok ==> plans.dom().contains(id),
        started(plans, p, asker, id, confirmation) matches Ok(v) ==> v == plans[id],
        started(plans.remove(id), p, asker, id, confirmation) is Err,
{
}

/// A test in production is planned and run only where the policy allows that,
/// and run only if the exact name of the context is given.
pub proof fn production_is_protected(
    plans: Map<Seq<char>, PlannedView>,
    p: PolicyView,
    asker: Asker,
    id: Seq<char>,
    confirmation: Option<Seq<char>>,
)
    requires
        plans.dom().contains(id),
        plans[id].environment == Environment::Production,
        started(plans, p, asker, id, confirmation) is Ok,
    ensures
        p.allow_network_tests,
        p.allow_network_tests_in_production,
        confirmation == Some(plans[id].context),
        rules::allows(p, plans[id].context),
{
}

/// The environment of a planned test is at least as protected as its name says,
/// whatever the user wishes.
pub proof fn plans_keep_the_protection(
    p: PolicyView,
    asker: Asker,
    context: Seq<char>,
    namespace: Seq<char>,
    service: Seq<char>,
    wish: Option<Environment>,
)
    ensures
        planning(p, asker, context, namespace, service, wish) matches Ok(e) ==> e.level()
            >= rules::environment_of(p, context).level() && rules::allows(p, context)
            && rules::block_reason(p, e) is None,
{
}

/// Every test that the policy blocks is recorded, unless the log is turned off.
pub proof fn blocked_tests_are_recorded(
    p: PolicyView,
    asker: Asker,
    planned: PlannedView,
    confirmation: Option<Seq<char>>,
)
    requires
        p.audit_log,
        rules::allows(p, planned.context),
        rules::block_reason(p, planned.environment) is Some,
    ensures
        running(p, asker, planned, confirmation) matches Some((reason, entry)) && entry is Some
            && entry->0.action == "network_test_blocked"@ && entry->0.outcome == reason
            && entry->0.context == planned.context,
{
}

} // verus!
