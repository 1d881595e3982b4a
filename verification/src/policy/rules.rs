//! The policy: built-in rules, the user's own file and the organisation's.

use crate::lettercase;
use crate::lettercase::lower;
use crate::policy::pattern;
use crate::policy::pattern::{any_glob, lower_all};
use crate::text;
use crate::text::{cat4, copy_list, listed, no_lines, say};
use vstd::prelude::*;

verus! {

/// What a cluster is used for.
#[derive(Debug, Clone, Copy, PartialEq, Eq, PartialOrd, Ord, Structural)]
pub enum Environment {
    Development,
    Other,
    Staging,
    Production,
}

impl Environment {
    /// The protection level.
    pub open spec fn level(self) -> int {
        match self {
            Environment::Development => 0,
            Environment::Other => 1,
            Environment::Staging => 2,
            Environment::Production => 3,
        }
    }

    /// The protection level: a user may raise the environment of a context,
    /// never lower it.
    fn rank(self) -> (r: u8)
        ensures
            r == self.level(),
    {
        match self {
            Environment::Development => 0,
            Environment::Other => 1,
            Environment::Staging => 2,
            Environment::Production => 3,
        }
    }

    /// The other environment, if it is more protected than this one.
    pub fn stricter(self, other: Option<Environment>) -> (r: Environment)
        ensures
            r == raised(self, other),
    {
        match other {
            Some(o) => {
                if o.rank() > self.rank() {
                    o
                } else {
                    self
                }
            },
            None => self,
        }
    }
}

/// The environment that a wish raises this one to.
pub open spec fn raised(e: Environment, wish: Option<Environment>) -> Environment {
    match wish {
        Some(o) => if o.level() > e.level() {
            o
        } else {
            e
        },
        None => e,
    }
}

/// A wish never lowers the protection, and production stays production.
pub proof fn wishes_only_raise_protection(e: Environment, wish: Option<Environment>)
    ensures
        raised(e, wish).level() >= e.level(),
        wish matches Some(o) ==> raised(e, wish).level() >= o.level(),
        raised(e, wish) == e || Some(raised(e, wish)) == wish,
        e == Environment::Production ==> raised(e, wish) == Environment::Production,
{
}

/// The rules that a policy file sets. Those it leaves out stay as they are.
#[derive(Debug, Clone, Default)]
pub struct PolicyFile {
    pub allow_network_tests: Option<bool>,
    pub allow_network_tests_in_production: Option<bool>,
    pub allow_cloud_checks: Option<bool>,
    pub production_context_patterns: Option<Vec<String>>,
    pub staging_context_patterns: Option<Vec<String>>,
    pub development_context_patterns: Option<Vec<String>>,
    /// If non-empty, only matching contexts are shown or usable.
    pub allowed_contexts: Option<Vec<String>>,
    pub hidden_contexts: Option<Vec<String>>,
    pub audit_log: Option<bool>,
}

/// The rules in force.
#[derive(Debug, Clone)]
pub struct Policy {
    pub allow_network_tests: bool,
    pub allow_network_tests_in_production: bool,
    pub allow_cloud_checks: bool,
    pub production_context_patterns: Vec<String>,
    pub staging_context_patterns: Vec<String>,
    pub development_context_patterns: Vec<String>,
    pub allowed_contexts: Vec<String>,
    pub hidden_contexts: Vec<String>,
    pub audit_log: bool,
    /// Files that were loaded, in order.
    pub sources: Vec<String>,
    /// Rules set by the system (organisation) file, which the user can't
    /// change.
    pub locked: Vec<String>,
    /// Problems reading policy files; the stricter reading applies then.
    pub errors: Vec<String>,
}

/// What a policy holds.
#[verifier::ext_equal]
pub struct PolicyView {
    pub allow_network_tests: bool,
    pub allow_network_tests_in_production: bool,
    pub allow_cloud_checks: bool,
    pub production_context_patterns: Seq<Seq<char>>,
    pub staging_context_patterns: Seq<Seq<char>>,
    pub development_context_patterns: Seq<Seq<char>>,
    pub allowed_contexts: Seq<Seq<char>>,
    pub hidden_contexts: Seq<Seq<char>>,
    pub audit_log: bool,
    pub sources: Seq<Seq<char>>,
    pub locked: Seq<Seq<char>>,
    pub errors: Seq<Seq<char>>,
}

impl View for Policy {
    type V = PolicyView;

    open spec fn view(&self) -> PolicyView {
        PolicyView {
            allow_network_tests: self.allow_network_tests,
            allow_network_tests_in_production: self.allow_network_tests_in_production,
            allow_cloud_checks: self.allow_cloud_checks,
            production_context_patterns: text::strs(self.production_context_patterns@),
            staging_context_patterns: text::strs(self.staging_context_patterns@),
            development_context_patterns: text::strs(self.development_context_patterns@),
            allowed_contexts: text::strs(self.allowed_contexts@),
            hidden_contexts: text::strs(self.hidden_contexts@),
            audit_log: self.audit_log,
            sources: text::strs(self.sources@),
            locked: text::strs(self.locked@),
            errors: text::strs(self.errors@),
        }
    }
}

/// The built-in rules.
pub open spec fn built_in() -> PolicyView {
    PolicyView {
        allow_network_tests: true,
        allow_network_tests_in_production: false,
        allow_cloud_checks: true,
        production_context_patterns: seq!["*prod*"@, "*prd*"@, "*production*"@, "*live*"@],
        staging_context_patterns: seq!["*stag*"@, "*stg*"@, "*uat*"@, "*preprod*"@, "*qa*"@],
        development_context_patterns: seq![
            "*dev*"@,
            "*test*"@,
            "*sandbox*"@,
            "*lab*"@,
            "kind-*"@,
            "minikube"@,
            "docker-desktop"@,
            "*local*"@,
        ],
        allowed_contexts: Seq::empty(),
        hidden_contexts: Seq::empty(),
        audit_log: true,
        sources: Seq::empty(),
        locked: Seq::empty(),
        errors: Seq::empty(),
    }
}

impl Default for Policy {
    fn default() -> (r: Policy)
        ensures
            r@ == built_in(),
    {
        let mut production: Vec<String> = no_lines();
        say(&mut production, "*prod*".to_owned());
        say(&mut production, "*prd*".to_owned());
        say(&mut production, "*production*".to_owned());
        say(&mut production, "*live*".to_owned());
        let mut staging: Vec<String> = no_lines();
        say(&mut staging, "*stag*".to_owned());
        say(&mut staging, "*stg*".to_owned());
        say(&mut staging, "*uat*".to_owned());
        say(&mut staging, "*preprod*".to_owned());
        say(&mut staging, "*qa*".to_owned());
        let mut development: Vec<String> = no_lines();
        say(&mut development, "*dev*".to_owned());
        say(&mut development, "*test*".to_owned());
        say(&mut development, "*sandbox*".to_owned());
        say(&mut development, "*lab*".to_owned());
        say(&mut development, "kind-*".to_owned());
        say(&mut development, "minikube".to_owned());
        say(&mut development, "docker-desktop".to_owned());
        say(&mut development, "*local*".to_owned());
        let r: Policy = Policy {
            allow_network_tests: true,
            allow_network_tests_in_production: false,
            allow_cloud_checks: true,
            production_context_patterns: production,
            staging_context_patterns: staging,
            development_context_patterns: development,
            allowed_contexts: no_lines(),
            hidden_contexts: no_lines(),
            audit_log: true,
            sources: no_lines(),
            locked: no_lines(),
            errors: no_lines(),
        };
        proof {
            assert(r@ =~= built_in());
        }
        r
    }
}

/// The names of locked rules with one more, which stays once.
pub open spec fn with_lock(locked: Seq<Seq<char>>, name: Seq<char>, add: bool) -> Seq<Seq<char>> {
    if add && !locked.contains(name) {
        locked.push(name)
    } else {
        locked
    }
}

/// The names of locked rules after a file that locks what it sets.
pub open spec fn locks(locked: Seq<Seq<char>>, f: PolicyFile, lock: bool) -> Seq<Seq<char>> {
    let l0 = with_lock(locked, "allowNetworkTests"@, lock && f.allow_network_tests is Some);
    let l1 = with_lock(l0, "allowNetworkTestsInProduction"@, lock && f.allow_network_tests_in_production is Some);
    let l2 = with_lock(l1, "allowCloudChecks"@, lock && f.allow_cloud_checks is Some);
    let l3 = with_lock(l2, "productionContextPatterns"@, lock && f.production_context_patterns is Some);
    let l4 = with_lock(l3, "stagingContextPatterns"@, lock && f.staging_context_patterns is Some);
    let l5 = with_lock(l4, "developmentContextPatterns"@, lock && f.development_context_patterns is Some);
    let l6 = with_lock(l5, "allowedContexts"@, lock && f.allowed_contexts is Some);
    let l7 = with_lock(l6, "hiddenContexts"@, lock && f.hidden_contexts is Some);
    let l8 = with_lock(l7, "auditLog"@, lock && f.audit_log is Some);
    l8
}

/// The value that a file sets, or the one there was.
pub open spec fn flag_or(x: Option<bool>, old: bool) -> bool {
    match x {
        Some(b) => b,
        None => old,
    }
}

/// The list that a file sets, or the one there was.
pub open spec fn list_or(x: Option<Vec<String>>, old: Seq<Seq<char>>) -> Seq<Seq<char>> {
    match x {
        Some(v) => text::strs(v@),
        None => old,
    }
}

/// The policy after the rules of a file.
pub open spec fn applied(p: PolicyView, f: PolicyFile, lock: bool) -> PolicyView {
    PolicyView {
        allow_network_tests: flag_or(f.allow_network_tests, p.allow_network_tests),
        allow_network_tests_in_production: flag_or(
            f.allow_network_tests_in_production,
            p.allow_network_tests_in_production,
        ),
        allow_cloud_checks: flag_or(f.allow_cloud_checks, p.allow_cloud_checks),
        production_context_patterns: list_or(
            f.production_context_patterns,
            p.production_context_patterns,
        ),
        staging_context_patterns: list_or(f.staging_context_patterns, p.staging_context_patterns),
        development_context_patterns: list_or(
            f.development_context_patterns,
            p.development_context_patterns,
        ),
        allowed_contexts: list_or(f.allowed_contexts, p.allowed_contexts),
        hidden_contexts: list_or(f.hidden_contexts, p.hidden_contexts),
        audit_log: flag_or(f.audit_log, p.audit_log),
        locked: locks(p.locked, f, lock),
        ..p
    }
}

/// A policy file that is there: what it says, or why it can't be read.
#[derive(Debug)]
pub struct PolicySource {
    pub path: String,
    pub content: Result<PolicyFile, String>,
}

/// The policy after a file. An organisation's file that can't be read turns
/// network tests and cloud checks off.
pub open spec fn after_file(p: PolicyView, s: Option<PolicySource>, lock: bool) -> PolicyView {
    match s {
        Some(s) => match s.content {
            Ok(f) => {
                let q = applied(p, f, lock);
                PolicyView { sources: q.sources.push(s.path@), ..q }
            },
            Err(e) => {
                let errors = p.errors.push("Couldn't read "@ + s.path@ + ": "@ + e@);
                if lock {
                    PolicyView {
                        errors,
                        allow_network_tests: false,
                        allow_cloud_checks: false,
                        locked: p.locked.push("allowNetworkTests"@).push("allowCloudChecks"@),
                        ..p
                    }
                } else {
                    PolicyView { errors, ..p }
                }
            },
        },
        None => p,
    }
}

/// The policy from the built-in rules, the user's file and then the system's.
pub open spec fn policy_of(user: Option<PolicySource>, system: Option<PolicySource>) -> PolicyView {
    after_file(after_file(built_in(), user, false), system, true)
}

fn pick_flag(x: &Option<bool>, old_flag: bool) -> (r: bool)
    ensures
        r == flag_or(*x, old_flag),
{
    match x {
        Some(b) => *b,
        None => old_flag,
    }
}

fn pick_list(x: &Option<Vec<String>>, old_list: &Vec<String>) -> (r: Vec<String>)
    ensures
        text::strs(r@) == list_or(*x, text::strs(old_list@)),
{
    match x {
        Some(v) => copy_list(v),
        None => copy_list(old_list),
    }
}

fn lock_name(locked: &mut Vec<String>, name: &str, add: bool)
    ensures
        text::strs(final(locked)@) == with_lock(text::strs(old(locked)@), name@, add),
{
    if add && !listed(locked, name) {
        say(locked, name.to_owned());
    }
}

impl Policy {
    fn apply(&mut self, f: &PolicyFile, lock: bool)
        ensures
            final(self)@ == applied(old(self)@, *f, lock),
    {
        let ghost was = self@;
        self.allow_network_tests = pick_flag(&f.allow_network_tests, self.allow_network_tests);
        lock_name(&mut self.locked, "allowNetworkTests", lock && f.allow_network_tests.is_some());
        self.allow_network_tests_in_production = pick_flag(
            &f.allow_network_tests_in_production,
            self.allow_network_tests_in_production,
        );
        lock_name(&mut self.locked, "allowNetworkTestsInProduction", lock && f.allow_network_tests_in_production.is_some());
        self.allow_cloud_checks = pick_flag(&f.allow_cloud_checks, self.allow_cloud_checks);
        lock_name(&mut self.locked, "allowCloudChecks", lock && f.allow_cloud_checks.is_some());
        self.production_context_patterns = pick_list(
            &f.production_context_patterns,
            &self.production_context_patterns,
        );
        lock_name(&mut self.locked, "productionContextPatterns", lock && f.production_context_patterns.is_some());
        self.staging_context_patterns = pick_list(
            &f.staging_context_patterns,
            &self.staging_context_patterns,
        );
        lock_name(&mut self.locked, "stagingContextPatterns", lock && f.staging_context_patterns.is_some());
        self.development_context_patterns = pick_list(
            &f.development_context_patterns,
            &self.development_context_patterns,
        );
        lock_name(&mut self.locked, "developmentContextPatterns", lock && f.development_context_patterns.is_some());
        self.allowed_contexts = pick_list(&f.allowed_contexts, &self.allowed_contexts);
        lock_name(&mut self.locked, "allowedContexts", lock && f.allowed_contexts.is_some());
        self.hidden_contexts = pick_list(&f.hidden_contexts, &self.hidden_contexts);
        lock_name(&mut self.locked, "hiddenContexts", lock && f.hidden_contexts.is_some());
        self.audit_log = pick_flag(&f.audit_log, self.audit_log);
        lock_name(&mut self.locked, "auditLog", lock && f.audit_log.is_some());
        proof {
            assert(self@ =~= applied(was, *f, lock));
        }
    }

    fn read(&mut self, s: &PolicySource, lock: bool)
        ensures
            final(self)@ == after_file(old(self)@, Some(*s), lock),
    {
        let ghost was = self@;
        match &s.content {
            Ok(f) => {
                self.apply(f, lock);
                say(&mut self.sources, s.path.clone());
            },
            Err(e) => {
                say(
                    &mut self.errors,
                    cat4("Couldn't read ", s.path.as_str(), ": ", e.as_str()),
                );
                if lock {
                    self.allow_network_tests = false;
                    self.allow_cloud_checks = false;
                    say(&mut self.locked, "allowNetworkTests".to_owned());
                    say(&mut self.locked, "allowCloudChecks".to_owned());
                }
            },
        }
        proof {
            assert(self@ =~= after_file(was, Some(*s), lock));
        }
    }

    /// Build a policy from explicit files: the user's first, then the
    /// system's.
    pub fn from_files(user: Option<&PolicySource>, system: Option<&PolicySource>) -> (r: Policy)
        ensures
            r@ == policy_of(
                match user {
                    Some(s) => Some(*s),
                    None => None,
                },
                match system {
                    Some(s) => Some(*s),
                    None => None,
                },
            ),
    {
        let mut p: Policy = Policy::default();
        match user {
            Some(s) => p.read(s, false),
            None => {},
        }
        match system {
            Some(s) => p.read(s, true),
            None => {},
        }
        p
    }

    /// The environment of a context, by its name.
    pub fn classify(&self, context: &str) -> (r: Environment)
        ensures
            r == environment_of(self@, context@),
    {
        let c: String = lower(context);
        environment_among(
            c.as_str(),
            &lower_all(&self.production_context_patterns),
            &lower_all(&self.staging_context_patterns),
            &lower_all(&self.development_context_patterns),
        )
    }

    /// May the context be shown and used?
    pub fn context_allowed(&self, context: &str) -> (r: bool)
        ensures
            r == allows(self@, context@),
    {
        let c: String = lower(context);
        allowed_among(
            c.as_str(),
            &lower_all(&self.allowed_contexts),
            &lower_all(&self.hidden_contexts),
        )
    }

    /// Why a network test may not run here, if it may not.
    pub fn network_test_blocked(&self, env: Environment) -> (r: Option<String>)
        ensures
            text::opt(r) == block_reason(self@, env),
    {
        if !self.allow_network_tests {
            return Some("Network tests are turned off by policy.".to_owned());
        }
        if env == Environment::Production && !self.allow_network_tests_in_production {
            return Some(
                "Network tests are turned off for production contexts. An administrator can allow them with allowNetworkTestsInProduction in the policy file.".to_owned(),
            );
        }
        None
    }
}

/// The environment of a name among patterns: production before staging before
/// development.
pub open spec fn environment_in(
    c: Seq<char>,
    production: Seq<Seq<char>>,
    staging: Seq<Seq<char>>,
    development: Seq<Seq<char>>,
) -> Environment {
    if pattern::one_matches(production, c, production.len() as int) {
        Environment::Production
    } else if pattern::one_matches(staging, c, staging.len() as int) {
        Environment::Staging
    } else if pattern::one_matches(development, c, development.len() as int) {
        Environment::Development
    } else {
        Environment::Other
    }
}

/// The environment of a name among patterns, all in one case. Production wins
/// over everything, so `prod-dev-copy` counts as production.
pub fn environment_among(
    context: &str,
    production: &Vec<String>,
    staging: &Vec<String>,
    development: &Vec<String>,
) -> (r: Environment)
    ensures
        r == environment_in(
            context@,
            text::strs(production@),
            text::strs(staging@),
            text::strs(development@),
        ),
{
    if any_glob(production, context) {
        Environment::Production
    } else if any_glob(staging, context) {
        Environment::Staging
    } else if any_glob(development, context) {
        Environment::Development
    } else {
        Environment::Other
    }
}

/// The environment of a context under a policy; upper and lower case count as
/// one.
pub open spec fn environment_of(p: PolicyView, context: Seq<char>) -> Environment {
    environment_in(
        lettercase::lowercase(context),
        pattern::lowered(p.production_context_patterns),
        pattern::lowered(p.staging_context_patterns),
        pattern::lowered(p.development_context_patterns),
    )
}

/// Is a name allowed among patterns? No allowed patterns allow everything, and
/// hiding wins over allowing.
pub open spec fn allows_in(
    c: Seq<char>,
    allowed: Seq<Seq<char>>,
    hidden: Seq<Seq<char>>,
) -> bool {
    (allowed.len() == 0 || pattern::one_matches(allowed, c, allowed.len() as int))
        && !pattern::one_matches(hidden, c, hidden.len() as int)
}

/// Is a name allowed among patterns, all in one case?
pub fn allowed_among(context: &str, allowed: &Vec<String>, hidden: &Vec<String>) -> (r: bool)
    ensures
        r == allows_in(context@, text::strs(allowed@), text::strs(hidden@)),
{
    (allowed.len() == 0 || any_glob(allowed, context)) && !any_glob(hidden, context)
}

/// Does a policy allow a context? Upper and lower case count as one.
pub open spec fn allows(p: PolicyView, context: Seq<char>) -> bool {
    allows_in(
        lettercase::lowercase(context),
        pattern::lowered(p.allowed_contexts),
        pattern::lowered(p.hidden_contexts),
    )
}

/// Why a network test may not run in an environment.
pub open spec fn block_reason(p: PolicyView, env: Environment) -> Option<Seq<char>> {
    if !p.allow_network_tests {
        Some("Network tests are turned off by policy."@)
    } else if env == Environment::Production && !p.allow_network_tests_in_production {
        Some(
            "Network tests are turned off for production contexts. An administrator can allow them with allowNetworkTestsInProduction in the policy file."@,
        )
    } else {
        None
    }
}

/// Whatever else a name matches, a production pattern makes it production.
pub proof fn production_wins(p: PolicyView, context: Seq<char>)
    ensures
        (environment_of(p, context) == Environment::Production) <==> pattern::one_matches(
            pattern::lowered(p.production_context_patterns),
            lettercase::lowercase(context),
            p.production_context_patterns.len() as int,
        ),
{
}

/// A context that a hidden pattern matches is refused, whatever is allowed.
pub proof fn hiding_wins(p: PolicyView, context: Seq<char>)
    requires
        pattern::one_matches(
            pattern::lowered(p.hidden_contexts),
            lettercase::lowercase(context),
            p.hidden_contexts.len() as int,
        ),
    ensures
        !allows(p, context),
{
}

/// The system's file has the last word on each rule that it sets, whatever the
/// user's file says, and each such rule is locked.
pub proof fn the_system_file_overrides(user: Option<PolicySource>, path: String, f: PolicyFile)
    ensures
        ({
            let system = Some(PolicySource { path, content: Ok(f) });
            let p = policy_of(user, system);
            let u = policy_of(user, None);
            &&& p.allow_network_tests == flag_or(f.allow_network_tests, u.allow_network_tests)
            &&& p.allow_network_tests_in_production == flag_or(
                f.allow_network_tests_in_production,
                u.allow_network_tests_in_production,
            )
            &&& p.allow_cloud_checks == flag_or(f.allow_cloud_checks, u.allow_cloud_checks)
            &&& p.production_context_patterns == list_or(
                f.production_context_patterns,
                u.production_context_patterns,
            )
            &&& p.staging_context_patterns == list_or(
                f.staging_context_patterns,
                u.staging_context_patterns,
            )
            &&& p.development_context_patterns == list_or(
                f.development_context_patterns,
                u.development_context_patterns,
            )
            &&& p.allowed_contexts == list_or(f.allowed_contexts, u.allowed_contexts)
            &&& p.hidden_contexts == list_or(f.hidden_contexts, u.hidden_contexts)
            &&& p.audit_log == flag_or(f.audit_log, u.audit_log)
            &&& f.allow_network_tests is Some ==> p.locked.contains("allowNetworkTests"@)
            &&& f.allow_network_tests_in_production is Some ==> p.locked.contains("allowNetworkTestsInProduction"@)
            &&& f.allow_cloud_checks is Some ==> p.locked.contains("allowCloudChecks"@)
            &&& f.production_context_patterns is Some ==> p.locked.contains("productionContextPatterns"@)
            &&& f.staging_context_patterns is Some ==> p.locked.contains("stagingContextPatterns"@)
            &&& f.development_context_patterns is Some ==> p.locked.contains("developmentContextPatterns"@)
            &&& f.allowed_contexts is Some ==> p.locked.contains("allowedContexts"@)
            &&& f.hidden_contexts is Some ==> p.locked.contains("hiddenContexts"@)
            &&& f.audit_log is Some ==> p.locked.contains("auditLog"@)
        }),
{
    let u = policy_of(user, None);
    let l0 = with_lock(u.locked, "allowNetworkTests"@, f.allow_network_tests is Some);
    lemma_lock(u.locked, "allowNetworkTests"@, f.allow_network_tests is Some);
    let l1 = with_lock(l0, "allowNetworkTestsInProduction"@, f.allow_network_tests_in_production is Some);
    lemma_lock(l0, "allowNetworkTestsInProduction"@, f.allow_network_tests_in_production is Some);
    let l2 = with_lock(l1, "allowCloudChecks"@, f.allow_cloud_checks is Some);
    lemma_lock(l1, "allowCloudChecks"@, f.allow_cloud_checks is Some);
    let l3 = with_lock(l2, "productionContextPatterns"@, f.production_context_patterns is Some);
    lemma_lock(l2, "productionContextPatterns"@, f.production_context_patterns is Some);
    let l4 = with_lock(l3, "stagingContextPatterns"@, f.staging_context_patterns is Some);
    lemma_lock(l3, "stagingContextPatterns"@, f.staging_context_patterns is Some);
    let l5 = with_lock(l4, "developmentContextPatterns"@, f.development_context_patterns is Some);
    lemma_lock(l4, "developmentContextPatterns"@, f.development_context_patterns is Some);
    let l6 = with_lock(l5, "allowedContexts"@, f.allowed_contexts is Some);
    lemma_lock(l5, "allowedContexts"@, f.allowed_contexts is Some);
    let l7 = with_lock(l6, "hiddenContexts"@, f.hidden_contexts is Some);
    lemma_lock(l6, "hiddenContexts"@, f.hidden_contexts is Some);
    let l8 = with_lock(l7, "auditLog"@, f.audit_log is Some);
    lemma_lock(l7, "auditLog"@, f.audit_log is Some);
}

proof fn lemma_lock(locked: Seq<Seq<char>>, name: Seq<char>, add: bool)
    ensures
        add ==> with_lock(locked, name, add).contains(name),
        forall|x: Seq<char>| #[trigger] locked.contains(x) ==> with_lock(locked, name, add).contains(x),
{
    let r = with_lock(locked, name, add);
    if add && !locked.contains(name) {
        assert(r[locked.len() as int] == name);
        assert forall|x: Seq<char>| #[trigger] locked.contains(x) implies r.contains(x) by {
            let k = choose|k: int| 0 <= k < locked.len() && locked[k] == x;
            assert(r[k] == x);
        }
    }
}

/// The user's file never locks a rule.
pub proof fn the_user_file_locks_nothing(user: Option<PolicySource>)
    ensures
        policy_of(user, None).locked == Seq::<Seq<char>>::empty(),
{
}

/// A system file that can't be read turns network tests and cloud checks off,
/// whatever the user's file says, and the problem is told.
pub proof fn an_unreadable_system_file_fails_safe(
    user: Option<PolicySource>,
    path: String,
    e: String,
    env: Environment,
)
    ensures
        ({
            let system = Some(PolicySource { path, content: Err(e) });
            let p = policy_of(user, system);
            &&& !p.allow_network_tests
            &&& !p.allow_cloud_checks
            &&& p.locked.contains("allowNetworkTests"@)
            &&& p.locked.contains("allowCloudChecks"@)
            &&& block_reason(p, env) is Some
            &&& p.errors == policy_of(user, None).errors.push(
                "Couldn't read "@ + path@ + ": "@ + e@,
            )
        }),
{
    let u = policy_of(user, None);
    let l = u.locked.push("allowNetworkTests"@).push("allowCloudChecks"@);
    assert(l[u.locked.len() as int] == "allowNetworkTests"@);
    assert(l[u.locked.len() as int + 1] == "allowCloudChecks"@);
}

/// Unless a file says otherwise, network tests are refused in production and
/// allowed elsewhere.
pub proof fn production_is_off_by_default(env: Environment)
    ensures
        block_reason(built_in(), env) is Some <==> env == Environment::Production,
{
}

} // verus!
