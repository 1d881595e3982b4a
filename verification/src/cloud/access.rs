//! Which AWS identity and region to use for a context.

use crate::collect::CollectOptions;
use crate::kubeconfig;
use crate::kubeconfig::{find_plugin, EnvVar, ExecPlugin, KubeConfig};
use crate::pick;
use crate::text;
use crate::text::{opt_copy, opt_is, same};
use vstd::prelude::*;

verus! {

/// The AWS profile and region to use; without them the CLI's own apply.
#[derive(Debug, Clone, Default)]
pub struct AwsEnv {
    pub profile: Option<String>,
    pub region: Option<String>,
}

/// The argument behind the first occurrence of a flag.
pub open spec fn flag(args: Seq<String>, name: Seq<char>) -> Option<Seq<char>> {
    match pick::first(args.len() as int, |i: int| args[i]@ == name) {
        Some(i) => if i + 1 < args.len() {
            Some(args[i + 1]@)
        } else {
            None
        },
        None => None,
    }
}

fn flag_of(args: &Vec<String>, name: &str) -> (r: Option<String>)
    ensures
        text::opt(r) == flag(args@, name@),
{
    let ghost q = |i: int| args@[i]@ == name@;
    let mut i: usize = 0;
    while i < args.len()
        invariant
            i <= args@.len(),
            q == (|i: int| args@[i]@ == name@),
            forall|j: int| 0 <= j < i ==> !#[trigger] q(j),
        decreases args@.len() - i,
    {
        if same(args[i].as_str(), name) {
            proof {
                assert(q(i as int));
                pick::lemma_first(args@.len() as int, q);
            }
            if i + 1 < args.len() {
                return Some(args[i + 1].clone());
            } else {
                return None;
            }
        }
        i = i + 1;
    }
    proof {
        pick::lemma_first(args@.len() as int, q);
    }
    None
}

/// Does the variable have this name, and a value?
pub open spec fn sets(e: EnvVar, name: Seq<char>) -> bool {
    e.value is Some && text::opt(e.name) == Some(name)
}

/// Does the variable name a region?
pub open spec fn sets_region(e: EnvVar) -> bool {
    sets(e, "AWS_REGION"@) || sets(e, "AWS_DEFAULT_REGION"@)
}

/// The profile that a plugin uses: the last variable before the flag.
pub open spec fn plugin_profile(p: ExecPlugin, n: int) -> Option<Seq<char>> {
    match pick::last(n, |i: int| sets(p.env@[i], "AWS_PROFILE"@)) {
        Some(i) => text::opt(p.env@[i].value),
        None => flag(p.args@, "--profile"@),
    }
}

/// The region that a plugin uses: the flag before the first variable.
pub open spec fn plugin_region(p: ExecPlugin, n: int) -> Option<Seq<char>> {
    match flag(p.args@, "--region"@) {
        Some(r) => Some(r),
        None => match pick::first(n, |i: int| sets_region(p.env@[i])) {
            Some(i) => text::opt(p.env@[i].value),
            None => None,
        },
    }
}

/// A setting that says something, else what there is.
pub open spec fn preferred(setting: Option<String>, other: Option<Seq<char>>) -> Option<Seq<char>> {
    match setting {
        Some(s) => if s@.len() > 0 {
            Some(s@)
        } else {
            other
        },
        None => other,
    }
}

/// The plugin of a context, where there is a kubeconfig.
pub open spec fn plugin_in(config: Option<KubeConfig>, context: Seq<char>) -> Option<ExecPlugin> {
    match config {
        Some(kc) => kubeconfig::plugin_of(kc, context),
        None => None,
    }
}

/// The profile for a context.
pub open spec fn profile_for(
    config: Option<KubeConfig>,
    context: Seq<char>,
    opts: CollectOptions,
) -> Option<Seq<char>> {
    preferred(
        opts.aws_profile,
        match plugin_in(config, context) {
            Some(p) => plugin_profile(p, p.env@.len() as int),
            None => None,
        },
    )
}

/// The region for a context.
pub open spec fn region_for(
    config: Option<KubeConfig>,
    context: Seq<char>,
    opts: CollectOptions,
) -> Option<Seq<char>> {
    preferred(
        opts.aws_region,
        match plugin_in(config, context) {
            Some(p) => plugin_region(p, p.env@.len() as int),
            None => None,
        },
    )
}

fn prefer(setting: &Option<String>, other: Option<String>) -> (r: Option<String>)
    ensures
        text::opt(r) == preferred(*setting, text::opt(other)),
{
    match setting {
        Some(s) => {
            if s.as_str().unicode_len() > 0 {
                Some(s.clone())
            } else {
                other
            }
        },
        None => other,
    }
}

impl AwsEnv {
    fn of_plugin(p: &ExecPlugin) -> (r: AwsEnv)
        ensures
            text::opt(r.profile) == plugin_profile(*p, p.env@.len() as int),
            text::opt(r.region) == plugin_region(*p, p.env@.len() as int),
    {
        let mut profile: Option<String> = flag_of(&p.args, "--profile");
        let mut region: Option<String> = flag_of(&p.args, "--region");
        let mut i: usize = 0;
        while i < p.env.len()
            invariant
                i <= p.env@.len(),
                text::opt(profile) == plugin_profile(*p, i as int),
                text::opt(region) == plugin_region(*p, i as int),
                region is None ==> flag(p.args@, "--region"@) is None && pick::first(
                    i as int,
                    |i: int| sets_region(p.env@[i]),
                ) is None,
            decreases p.env@.len() - i,
        {
            let e: &EnvVar = &p.env[i];
            proof {
                pick::lemma_first(i as int, |i: int| sets_region(p.env@[i]));
            }
            if e.value.is_some() && opt_is(&e.name, "AWS_PROFILE") {
                profile = opt_copy(&e.value);
            }
            if region.is_none() && e.value.is_some() && (opt_is(&e.name, "AWS_REGION") || opt_is(
                &e.name,
                "AWS_DEFAULT_REGION",
            )) {
                region = opt_copy(&e.value);
            }
            i = i + 1;
        }
        AwsEnv { profile, region }
    }

    /// Explicit settings if given, otherwise the `--profile` and `--region` and
    /// the AWS variables of the context's credential plugin, so that the same
    /// identity that reaches the cluster is used.
    pub fn for_context(
        context: &str,
        opts: &CollectOptions,
        config: Option<&KubeConfig>,
    ) -> (r: AwsEnv)
        ensures
            ({
                let kc = match config {
                    Some(k) => Some(*k),
                    None => None,
                };
                text::opt(r.profile) == profile_for(kc, context@, *opts) && text::opt(r.region)
                    == region_for(kc, context@, *opts)
            }),
    {
        let found: AwsEnv = match config {
            Some(kc) => match find_plugin(kc, context) {
                Some(p) => AwsEnv::of_plugin(p),
                None => AwsEnv { profile: None, region: None },
            },
            None => AwsEnv { profile: None, region: None },
        };
        AwsEnv {
            profile: prefer(&opts.aws_profile, found.profile),
            region: prefer(&opts.aws_region, found.region),
        }
    }
}

/// Each context is checked with its own identity. What other contexts and users
/// say does not count: only the settings, and the user that the context names.
pub proof fn each_context_uses_its_own_identity(
    a: KubeConfig,
    b: KubeConfig,
    context: Seq<char>,
    opts: CollectOptions,
)
    requires
        kubeconfig::user_of(a, context) == kubeconfig::user_of(b, context),
    ensures
        profile_for(Some(a), context, opts) == profile_for(Some(b), context, opts),
        region_for(Some(a), context, opts) == region_for(Some(b), context, opts),
{
}

} // verus!
