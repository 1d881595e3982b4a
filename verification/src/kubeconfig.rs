//! What a kubeconfig offers: its contexts, and the credential plugin of each.

use crate::pick;
use crate::policy::rules;
use crate::policy::rules::{Environment, Policy, PolicyView};
use crate::text;
use crate::text::{cat3, copy_or_empty, opt_copy, same};
use vstd::prelude::*;

verus! {

broadcast use crate::pick::lemma_add_nothing;

/// The parts of a kubeconfig that matter here, with all files merged.
#[derive(Debug, Clone, Default)]
pub struct KubeConfig {
    pub current: Option<String>,
    pub contexts: Vec<KubeContext>,
    pub users: Vec<KubeUser>,
}

#[derive(Debug, Clone, Default)]
pub struct KubeContext {
    pub name: String,
    pub cluster: Option<String>,
    pub user: Option<String>,
    pub namespace: Option<String>,
}

#[derive(Debug, Clone, Default)]
pub struct KubeUser {
    pub name: String,
    /// The command that gets credentials, if there is one.
    pub plugin: Option<ExecPlugin>,
}

/// A command that gets credentials.
#[derive(Debug, Clone, Default)]
pub struct ExecPlugin {
    pub args: Vec<String>,
    pub env: Vec<EnvVar>,
}

#[derive(Debug, Clone, Default)]
pub struct EnvVar {
    pub name: Option<String>,
    pub value: Option<String>,
}

/// A context the user may choose.
#[derive(Debug, Clone)]
pub struct ContextInfo {
    pub name: String,
    /// Detected from the context name using the policy's patterns.
    pub environment: Environment,
    pub cluster: String,
    pub user: Option<String>,
    pub namespace: Option<String>,
}

#[derive(Debug, Clone)]
pub struct Contexts {
    pub current: Option<String>,
    pub contexts: Vec<ContextInfo>,
}

/// What a context shows.
#[verifier::ext_equal]
pub struct ContextView {
    pub name: Seq<char>,
    pub environment: Environment,
    pub cluster: Seq<char>,
    pub user: Option<Seq<char>>,
    pub namespace: Option<Seq<char>>,
}

impl View for ContextInfo {
    type V = ContextView;

    open spec fn view(&self) -> ContextView {
        ContextView {
            name: self.name@,
            environment: self.environment,
            cluster: self.cluster@,
            user: text::opt(self.user),
            namespace: text::opt(self.namespace),
        }
    }
}

/// What contexts show.
pub open spec fn views(v: Seq<ContextInfo>) -> Seq<ContextView> {
    v.map_values(|c: ContextInfo| c@)
}

/// What a context of a kubeconfig shows under a policy.
pub open spec fn shown(p: PolicyView, c: KubeContext) -> ContextView {
    ContextView {
        name: c.name@,
        environment: rules::environment_of(p, c.name@),
        cluster: text::or_empty(c.cluster),
        user: text::opt(c.user),
        namespace: text::opt(c.namespace),
    }
}

/// Those of the first `n` contexts that a policy allows.
pub open spec fn allowed(p: PolicyView, cs: Seq<KubeContext>, n: int) -> Seq<ContextView> {
    pick::gather(
        n,
        |i: int|
            if rules::allows(p, cs[i].name@) {
                seq![shown(p, cs[i])]
            } else {
                Seq::empty()
            },
    )
}

/// Contexts that the policy allows, each labelled with its environment, or
/// why the kubeconfig can't be read.
pub fn list_contexts(policy: &Policy, config: &Result<KubeConfig, String>) -> (r: Result<
    Contexts,
    String,
>)
    ensures
        match (*config, r) {
            (Ok(kc), Ok(c)) => c.current == kc.current && views(c.contexts@) == allowed(
                policy@,
                kc.contexts@,
                kc.contexts@.len() as int,
            ),
            (Err(e), Err(m)) => m@
                == "Couldn't read a kubeconfig. Tessera looks at $KUBECONFIG, then ~/.kube/config. ("@
                + e@ + ")"@,
            _ => false,
        },
{
    match config {
        Ok(kc) => {
            let mut contexts: Vec<ContextInfo> = Vec::new();
            proof {
                assert(views(contexts@) =~= Seq::empty());
            }
            let mut i: usize = 0;
            while i < kc.contexts.len()
                invariant
                    i <= kc.contexts@.len(),
                    views(contexts@) == allowed(policy@, kc.contexts@, i as int),
                decreases kc.contexts@.len() - i,
            {
                let c: &KubeContext = &kc.contexts[i];
                if policy.context_allowed(c.name.as_str()) {
                    let info: ContextInfo = ContextInfo {
                        name: c.name.clone(),
                        environment: policy.classify(c.name.as_str()),
                        cluster: copy_or_empty(&c.cluster),
                        user: opt_copy(&c.user),
                        namespace: opt_copy(&c.namespace),
                    };
                    let ghost was = contexts@;
                    contexts.push(info);
                    proof {
                        assert(views(contexts@) =~= views(was) + seq![shown(policy@, *c)]);
                    }
                }
                i = i + 1;
            }
            Ok(Contexts { current: opt_copy(&kc.current), contexts })
        },
        Err(e) => Err(
            cat3(
                "Couldn't read a kubeconfig. Tessera looks at $KUBECONFIG, then ~/.kube/config. (",
                e.as_str(),
                ")",
            ),
        ),
    }
}

/// The entry of a context: the first of its name.
pub open spec fn context_in(kc: KubeConfig, name: Seq<char>) -> Option<KubeContext> {
    match pick::first(kc.contexts@.len() as int, |i: int| kc.contexts@[i].name@ == name) {
        Some(i) => Some(kc.contexts@[i]),
        None => None,
    }
}

/// The entry of a user: the first of its name.
pub open spec fn user_in(kc: KubeConfig, name: Seq<char>) -> Option<KubeUser> {
    match pick::first(kc.users@.len() as int, |j: int| kc.users@[j].name@ == name) {
        Some(j) => Some(kc.users@[j]),
        None => None,
    }
}

/// The entry of the user of a context.
pub open spec fn user_of(kc: KubeConfig, context: Seq<char>) -> Option<KubeUser> {
    match context_in(kc, context) {
        Some(c) => match c.user {
            Some(u) => user_in(kc, u@),
            None => None,
        },
        None => None,
    }
}

/// The credential plugin of the user of a context.
pub open spec fn plugin_of(kc: KubeConfig, context: Seq<char>) -> Option<ExecPlugin> {
    match user_of(kc, context) {
        Some(u) => u.plugin,
        None => None,
    }
}

fn find_context<'a>(kc: &'a KubeConfig, context: &str) -> (r: Option<&'a KubeContext>)
    ensures
        match (r, context_in(*kc, context@)) {
            (Some(c), Some(d)) => *c == d,
            (None, None) => true,
            _ => false,
        },
{
    let ghost q = |i: int| kc.contexts@[i].name@ == context@;
    let mut i: usize = 0;
    while i < kc.contexts.len()
        invariant
            i <= kc.contexts@.len(),
            q == (|i: int| kc.contexts@[i].name@ == context@),
            forall|j: int| 0 <= j < i ==> !#[trigger] q(j),
        decreases kc.contexts@.len() - i,
    {
        if same(kc.contexts[i].name.as_str(), context) {
            proof {
                assert(q(i as int));
                pick::lemma_first(kc.contexts@.len() as int, q);
            }
            return Some(&kc.contexts[i]);
        }
        i = i + 1;
    }
    proof {
        pick::lemma_first(kc.contexts@.len() as int, q);
    }
    None
}

fn find_user<'a>(kc: &'a KubeConfig, name: &str) -> (r: Option<&'a KubeUser>)
    ensures
        match (r, user_in(*kc, name@)) {
            (Some(u), Some(v)) => *u == v,
            (None, None) => true,
            _ => false,
        },
{
    let ghost q = |j: int| kc.users@[j].name@ == name@;
    let mut i: usize = 0;
    while i < kc.users.len()
        invariant
            i <= kc.users@.len(),
            q == (|j: int| kc.users@[j].name@ == name@),
            forall|j: int| 0 <= j < i ==> !#[trigger] q(j),
        decreases kc.users@.len() - i,
    {
        if same(kc.users[i].name.as_str(), name) {
            proof {
                assert(q(i as int));
                pick::lemma_first(kc.users@.len() as int, q);
            }
            return Some(&kc.users[i]);
        }
        i = i + 1;
    }
    proof {
        pick::lemma_first(kc.users@.len() as int, q);
    }
    None
}

/// Find the credential plugin of the user of a context.
pub fn find_plugin<'a>(kc: &'a KubeConfig, context: &str) -> (r: Option<&'a ExecPlugin>)
    ensures
        match (r, plugin_of(*kc, context@)) {
            (Some(p), Some(q)) => *p == q,
            (None, None) => true,
            _ => false,
        },
{
    match find_context(kc, context) {
        Some(c) => match &c.user {
            Some(u) => match find_user(kc, u.as_str()) {
                Some(user) => match &user.plugin {
                    Some(p) => Some(p),
                    None => None,
                },
                None => None,
            },
            None => None,
        },
        None => None,
    }
}

/// Only contexts that the policy allows are listed, and every one of them is.
pub proof fn only_allowed_contexts_are_listed(p: PolicyView, cs: Seq<KubeContext>, x: ContextView)
    ensures
        allowed(p, cs, cs.len() as int).contains(x) <==> exists|i: int|
            0 <= i < cs.len() && rules::allows(p, cs[i].name@) && x == #[trigger] shown(p, cs[i]),
        allowed(p, cs, cs.len() as int).contains(x) ==> rules::allows(p, x.name) && x.environment
            == rules::environment_of(p, x.name),
{
    let f = |i: int|
        if rules::allows(p, cs[i].name@) {
            seq![shown(p, cs[i])]
        } else {
            Seq::empty()
        };
    pick::lemma_gather_contains(cs.len() as int, f, x);
    assert forall|i: int| (#[trigger] f(i)).contains(x) implies rules::allows(p, cs[i].name@) && x
        == shown(p, cs[i]) by {
        let s = f(i);
        let k = choose|k: int| 0 <= k < s.len() && s[k] == x;
    }
    if exists|i: int|
        0 <= i < cs.len() && rules::allows(p, cs[i].name@) && x == #[trigger] shown(p, cs[i]) {
        let i = choose|i: int|
            0 <= i < cs.len() && rules::allows(p, cs[i].name@) && x == #[trigger] shown(p, cs[i]);
        assert(f(i)[0] == x);
        assert(f(i).contains(x));
    }
}

} // verus!
