//! What a policy permits, and of which contexts.

use crate::guard;
use crate::guard::{Asker, PlannedView};
use crate::lettercase;
use crate::pick;
use crate::policy::pattern;
use crate::policy::rules;
use crate::policy::rules::{Environment, PolicyFile, PolicySource, PolicyView};
use crate::scan;
use crate::text;
use vstd::prelude::*;

verus! {

/// Does a pattern of the list match the context, whatever the case of letters?
pub open spec fn fits(patterns: Seq<Seq<char>>, context: Seq<char>) -> bool {
    exists|i: int|
        0 <= i < patterns.len() && pattern::matches(
            lettercase::lowercase(#[trigger] patterns[i]),
            lettercase::lowercase(context),
        )
}

proof fn lemma_fits(patterns: Seq<Seq<char>>, context: Seq<char>)
    ensures
        pattern::one_matches(
            pattern::lowered(patterns),
            lettercase::lowercase(context),
            patterns.len() as int,
        ) == fits(patterns, context),
{
    let ps = pattern::lowered(patterns);
    let t = lettercase::lowercase(context);
    let n = patterns.len() as int;
    let f = |i: int| pattern::matches(ps[i], t);
    pick::lemma_any(n, f);
    assert(pattern::one_matches(ps, t, n) == pick::any(n, f));
    if pick::any(n, f) {
        let i = choose|i: int| 0 <= i < n && #[trigger] f(i);
        assert(ps[i] == lettercase::lowercase(patterns[i]));
    }
    if fits(patterns, context) {
        let i = choose|i: int|
            0 <= i < patterns.len() && pattern::matches(
                lettercase::lowercase(#[trigger] patterns[i]),
                lettercase::lowercase(context),
            );
        assert(ps[i] == lettercase::lowercase(patterns[i]));
        assert(f(i));
    }
}

/// A context is production where a production pattern fits it; else staging, where
/// a staging pattern does; else development, where a development pattern does; and
/// else none of these.
pub proof fn contexts_are_what_their_name_says(p: PolicyView, context: Seq<char>)
    ensures
        ({
            let e = rules::environment_of(p, context);
            let production = fits(p.production_context_patterns, context);
            let staging = fits(p.staging_context_patterns, context);
            let development = fits(p.development_context_patterns, context);
            &&& e == Environment::Production <==> production
            &&& e == Environment::Staging <==> !production && staging
            &&& e == Environment::Development <==> !production && !staging && development
            &&& e == Environment::Other <==> !production && !staging && !development
        }),
{
    lemma_fits(p.production_context_patterns, context);
    lemma_fits(p.staging_context_patterns, context);
    lemma_fits(p.development_context_patterns, context);
}

/// A context is allowed exactly where the list of allowed ones is empty or fits it,
/// and the list of hidden ones does not.
pub proof fn contexts_are_allowed_unless_left_out_or_hidden(p: PolicyView, context: Seq<char>)
    ensures
        rules::allows(p, context) <==> (p.allowed_contexts.len() == 0 || fits(
            p.allowed_contexts,
            context,
        )) && !fits(p.hidden_contexts, context),
{
    lemma_fits(p.allowed_contexts, context);
    lemma_fits(p.hidden_contexts, context);
}

/// Network tests are blocked exactly where they are off, or where they are off in
/// production and the context is production.
pub proof fn tests_are_blocked_where_they_are_off(p: PolicyView, e: Environment)
    ensures
        rules::block_reason(p, e) is None <==> p.allow_network_tests && (e
            == Environment::Production ==> p.allow_network_tests_in_production),
{
}

/// A planned test starts exactly where its plan is there, its context is allowed,
/// tests are not off for it, and, in production, the exact name of the context is
/// given.
pub proof fn tests_start_where_all_agree(
    plans: Map<Seq<char>, PlannedView>,
    p: PolicyView,
    asker: Asker,
    id: Seq<char>,
    confirmation: Option<Seq<char>>,
)
    ensures
        guard::started(plans, p, asker, id, confirmation) is Ok <==> {
            &&& plans.dom().contains(id)
            &&& rules::allows(p, plans[id].context)
            &&& p.allow_network_tests
            &&& plans[id].environment == Environment::Production
                ==> p.allow_network_tests_in_production && confirmation == Some(plans[id].context)
        },
        guard::started(plans, p, asker, id, confirmation) matches Ok(v) ==> v == plans[id],
{
}

/// A test is planned exactly where its context is allowed and tests are not off for
/// the environment, which is the more protected of what the name says and what the
/// user wishes.
pub proof fn tests_are_planned_where_they_may_run(
    p: PolicyView,
    asker: Asker,
    context: Seq<char>,
    namespace: Seq<char>,
    service: Seq<char>,
    wish: Option<Environment>,
    e: Environment,
)
    requires
        e == rules::environment_of(p, context) || wish == Some(e),
        e.level() >= rules::environment_of(p, context).level(),
        wish matches Some(w) ==> e.level() >= w.level(),
    ensures
        guard::planning(p, asker, context, namespace, service, wish) is Ok <==> rules::allows(
            p,
            context,
        ) && p.allow_network_tests && (e == Environment::Production
            ==> p.allow_network_tests_in_production),
        guard::planning(p, asker, context, namespace, service, wish) matches Ok(r) ==> r == e,
{
    let n = rules::environment_of(p, context);
    assert(e.level() == rules::raised(n, wish).level());
}

/// A blocked test is recorded with who asked, the context and the service, exactly
/// where the log is on.
pub proof fn blocked_plans_are_recorded(
    p: PolicyView,
    asker: Asker,
    context: Seq<char>,
    namespace: Seq<char>,
    service: Seq<char>,
    wish: Option<Environment>,
)
    requires
        rules::allows(p, context),
        guard::planning(p, asker, context, namespace, service, wish) is Err,
    ensures
        guard::planning(p, asker, context, namespace, service, wish) matches Err((reason, entry))
            && (entry is Some <==> p.audit_log) && (entry matches Some(x) ==> {
            &&& x.context == context
            &&& x.user == asker.user@
            &&& x.action == "network_test_blocked"@
            &&& x.outcome == reason
            &&& x.namespace == Some(namespace)
            &&& x.target == Some("service/"@ + service)
        }),
{
}

/// A star at both ends matches every text that holds what is between them.
proof fn lemma_holds_word(w: Seq<char>, t: Seq<char>, i: int)
    requires
        !w.contains('*'),
        scan::occurs_at(t, w, i),
    ensures
        pattern::matches(seq!['*'] + w + seq!['*'], t),
    decreases i,
{
    let p = seq!['*'] + w + seq!['*'];
    assert(p[0] == '*');
    pattern::stars_match_any_run(p, t);
    let u = t.skip(i);
    assert(u.take(w.len() as int) =~= t.subrange(i, i + w.len()));
    lemma_word(w, u);
    assert(p.skip(1) =~= w + seq!['*']);
    assert(pattern::matches(p.skip(1), t.skip(i)));
}

proof fn lemma_word(w: Seq<char>, u: Seq<char>)
    requires
        !w.contains('*'),
        w.len() <= u.len(),
        u.take(w.len() as int) == w,
    ensures
        pattern::matches(w + seq!['*'], u),
    decreases w.len(),
{
    let p = w + seq!['*'];
    if w.len() == 0 {
        assert(p =~= seq!['*']);
        pattern::stars_match_any_run(p, u);
        assert(p.skip(1) =~= Seq::<char>::empty());
        assert(u.skip(u.len() as int) =~= Seq::<char>::empty());
        assert(pattern::matches(p.skip(1), u.skip(u.len() as int)));
    } else {
        assert(w.contains(w[0]));
        assert(p[0] == w[0]);
        assert(u.take(w.len() as int)[0] == u[0]);
        let v = w.skip(1);
        if v.contains('*') {
            let k = choose|k: int| 0 <= k < v.len() && v[k] == '*';
            assert(w[k + 1] == '*');
        }
        assert(u.skip(1).take(v.len() as int) =~= u.take(w.len() as int).skip(1));
        lemma_word(v, u.skip(1));
        assert(p.skip(1) =~= v + seq!['*']);
    }
}

/// Does the text hold a word that stands for production, unless a file says
/// otherwise?
pub open spec fn sounds_like_production(c: Seq<char>) -> bool {
    scan::contains(c, "prod"@) || scan::contains(c, "prd"@) || scan::contains(c, "live"@)
}

/// Unless a file says otherwise, a name in small letters that holds a word for
/// production is production.
pub proof fn names_that_sound_like_production_are_protected(c: Seq<char>)
    requires
        sounds_like_production(c),
    ensures
        rules::environment_in(
            c,
            rules::built_in().production_context_patterns,
            rules::built_in().staging_context_patterns,
            rules::built_in().development_context_patterns,
        ) == Environment::Production,
{
    let ps = rules::built_in().production_context_patterns;
    let n = ps.len() as int;
    reveal_strlit("prod");
    reveal_strlit("prd");
    reveal_strlit("live");
    reveal_strlit("*prod*");
    reveal_strlit("*prd*");
    reveal_strlit("*live*");
    let f = |i: int| pattern::matches(ps[i], c);
    pick::lemma_any(n, f);
    assert(pattern::one_matches(ps, c, n) == pick::any(n, f));
    if scan::contains(c, "prod"@) {
        let i = choose|i: int| scan::occurs_at(c, "prod"@, i);
        lemma_holds_word("prod"@, c, i);
        assert(seq!['*'] + "prod"@ + seq!['*'] =~= "*prod*"@);
        assert(f(0));
    } else if scan::contains(c, "prd"@) {
        let i = choose|i: int| scan::occurs_at(c, "prd"@, i);
        lemma_holds_word("prd"@, c, i);
        assert(seq!['*'] + "prd"@ + seq!['*'] =~= "*prd*"@);
        assert(f(1));
    } else {
        let i = choose|i: int| scan::occurs_at(c, "live"@, i);
        lemma_holds_word("live"@, c, i);
        assert(seq!['*'] + "live"@ + seq!['*'] =~= "*live*"@);
        assert(f(3));
    }
}

/// Without files, every context is allowed, tests may run outside production, cloud
/// checks may be made, and the log is kept.
pub proof fn without_files_the_policy_is_the_usual_one()
    ensures
        ({
            let p = rules::policy_of(None, None);
            &&& p.allow_network_tests
            &&& !p.allow_network_tests_in_production
            &&& p.allow_cloud_checks
            &&& p.audit_log
            &&& p.allowed_contexts.len() == 0
            &&& p.hidden_contexts.len() == 0
            &&& p.locked.len() == 0
            &&& p.errors.len() == 0
            &&& p.sources.len() == 0
        }),
{
}

/// What a user's file sets holds where the system's file is missing; what it does
/// not set stays as it was.
pub proof fn the_user_file_is_heard(path: String, f: PolicyFile)
    ensures
        ({
            let p = rules::policy_of(Some(PolicySource { path, content: Ok(f) }), None);
            &&& f.allow_network_tests matches Some(b) ==> p.allow_network_tests == b
            &&& f.allow_network_tests is None ==> p.allow_network_tests
            &&& f.allow_network_tests_in_production matches Some(b)
                ==> p.allow_network_tests_in_production == b
            &&& f.allow_network_tests_in_production is None ==> !p.allow_network_tests_in_production
            &&& f.allow_cloud_checks matches Some(b) ==> p.allow_cloud_checks == b
            &&& f.allow_cloud_checks is None ==> p.allow_cloud_checks
            &&& f.audit_log matches Some(b) ==> p.audit_log == b
            &&& f.audit_log is None ==> p.audit_log
            &&& f.allowed_contexts matches Some(v) ==> p.allowed_contexts == text::strs(v@)
            &&& f.hidden_contexts matches Some(v) ==> p.hidden_contexts == text::strs(v@)
            &&& f.production_context_patterns matches Some(v) ==> p.production_context_patterns
                == text::strs(v@)
            &&& f.staging_context_patterns matches Some(v) ==> p.staging_context_patterns
                == text::strs(v@)
            &&& f.development_context_patterns matches Some(v) ==> p.development_context_patterns
                == text::strs(v@)
            &&& p.sources == seq![path@]
        }),
{
    let p = rules::policy_of(Some(PolicySource { path, content: Ok(f) }), None);
    assert(p.sources =~= seq![path@]);
}

/// A system's file that can be read has the last word: what it sets holds, whatever
/// the user's file says.
pub proof fn the_system_file_is_heard_last(user: Option<PolicySource>, path: String, f: PolicyFile)
    ensures
        ({
            let p = rules::policy_of(user, Some(PolicySource { path, content: Ok(f) }));
            &&& f.allow_network_tests matches Some(b) ==> p.allow_network_tests == b
            &&& f.allow_network_tests_in_production matches Some(b)
                ==> p.allow_network_tests_in_production == b
            &&& f.allow_cloud_checks matches Some(b) ==> p.allow_cloud_checks == b
            &&& f.audit_log matches Some(b) ==> p.audit_log == b
            &&& f.allowed_contexts matches Some(v) ==> p.allowed_contexts == text::strs(v@)
            &&& f.hidden_contexts matches Some(v) ==> p.hidden_contexts == text::strs(v@)
            &&& f.production_context_patterns matches Some(v) ==> p.production_context_patterns
                == text::strs(v@)
            &&& f.staging_context_patterns matches Some(v) ==> p.staging_context_patterns
                == text::strs(v@)
            &&& f.development_context_patterns matches Some(v) ==> p.development_context_patterns
                == text::strs(v@)
        }),
{
}

/// A user's file that can't be read changes nothing but that it is told.
pub proof fn an_unreadable_user_file_changes_nothing(path: String, e: String)
    ensures
        ({
            let p = rules::policy_of(Some(PolicySource { path, content: Err(e) }), None);
            p == PolicyView {
                errors: seq!["Couldn't read "@ + path@ + ": "@ + e@],
                ..rules::policy_of(None, None)
            }
        }),
{
    let p = rules::policy_of(Some(PolicySource { path, content: Err(e) }), None);
    assert(p.errors =~= seq!["Couldn't read "@ + path@ + ": "@ + e@]);
}

} // verus!
