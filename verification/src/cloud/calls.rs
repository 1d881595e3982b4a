//! The calls of the AWS CLI that the health checks make, and their replies.

use crate::cloud::access::AwsEnv;
use crate::cloud::names;
use crate::cloud::names::explain_aws_error;
use crate::json;
use crate::json::{parse_json, Json, JsonView};
use crate::pick;
use crate::text;
use crate::text::{cat2, lines2, same, say};
use vstd::prelude::*;

verus! {

/// A call of the AWS CLI in a region. Calls that are made for one load balancer
/// say for which, and for which of its target groups; the others are shared.
#[derive(Debug, Clone)]
pub struct AwsCall {
    pub region: String,
    pub args: Vec<String>,
    pub place: Option<(usize, usize)>,
}

/// What a call asks.
#[verifier::ext_equal]
pub struct CallView {
    pub region: Seq<char>,
    pub args: Seq<Seq<char>>,
    pub place: Option<(usize, usize)>,
}

impl View for AwsCall {
    type V = CallView;

    open spec fn view(&self) -> CallView {
        CallView { region: self.region@, args: text::strs(self.args@), place: self.place }
    }
}

/// The newer load balancers of a region.
pub open spec fn list_v2(region: Seq<char>) -> CallView {
    CallView { region, args: seq!["elbv2"@, "describe-load-balancers"@], place: None }
}

/// The target groups of a load balancer.
pub open spec fn list_groups(region: Seq<char>, i: usize, arn: Seq<char>) -> CallView {
    CallView {
        region,
        args: seq!["elbv2"@, "describe-target-groups"@, "--load-balancer-arn"@, arn],
        place: Some((i, 0)),
    }
}

/// The health of the targets of a group.
pub open spec fn list_health(region: Seq<char>, i: usize, k: usize, arn: Seq<char>) -> CallView {
    CallView {
        region,
        args: seq!["elbv2"@, "describe-target-health"@, "--target-group-arn"@, arn],
        place: Some((i, k)),
    }
}

/// The classic load balancers of a region.
pub open spec fn list_v1(region: Seq<char>) -> CallView {
    CallView { region, args: seq!["elb"@, "describe-load-balancers"@], place: None }
}

/// The health of the instances of a classic load balancer.
pub open spec fn list_instances(region: Seq<char>, i: usize, name: Seq<char>) -> CallView {
    CallView {
        region,
        args: seq!["elb"@, "describe-instance-health"@, "--load-balancer-name"@, name],
        place: Some((i, 0)),
    }
}

/// The only AWS commands there are. All are read-only.
pub open spec fn read_only(c: CallView) -> bool {
    c.args.len() >= 2 && {
        let verb = (c.args[0], c.args[1]);
        ||| verb == ("elbv2"@, "describe-load-balancers"@)
        ||| verb == ("elbv2"@, "describe-target-groups"@)
        ||| verb == ("elbv2"@, "describe-target-health"@)
        ||| verb == ("elb"@, "describe-load-balancers"@)
        ||| verb == ("elb"@, "describe-instance-health"@)
    }
}

fn call(region: &str, tool: &str, verb: &str, place: Option<(usize, usize)>) -> (r: AwsCall)
    ensures
        r@.region == region@,
        r@.args == seq![tool@, verb@],
        r@.place == place,
{
    AwsCall {
        region: region.to_owned(),
        args: lines2(tool.to_owned(), verb.to_owned()),
        place,
    }
}

fn call_with(
    region: &str,
    tool: &str,
    verb: &str,
    flag: &str,
    value: &str,
    place: Option<(usize, usize)>,
) -> (r: AwsCall)
    ensures
        r@.region == region@,
        r@.args == seq![tool@, verb@, flag@, value@],
        r@.place == place,
{
    let mut args: Vec<String> = lines2(tool.to_owned(), verb.to_owned());
    say(&mut args, flag.to_owned());
    say(&mut args, value.to_owned());
    proof {
        assert(text::strs(args@) =~= seq![tool@, verb@, flag@, value@]);
    }
    AwsCall { region: region.to_owned(), args, place }
}

/// Ask for the newer load balancers of a region.
pub fn call_list_v2(region: &str) -> (r: AwsCall)
    ensures
        r@ == list_v2(region@),
{
    call(region, "elbv2", "describe-load-balancers", None)
}

/// Ask for the target groups of a load balancer.
pub fn call_list_groups(region: &str, i: usize, arn: &str) -> (r: AwsCall)
    ensures
        r@ == list_groups(region@, i, arn@),
{
    call_with(
        region,
        "elbv2",
        "describe-target-groups",
        "--load-balancer-arn",
        arn,
        Some((i, 0)),
    )
}

/// Ask for the health of the targets of a group.
pub fn call_list_health(region: &str, i: usize, k: usize, arn: &str) -> (r: AwsCall)
    ensures
        r@ == list_health(region@, i, k, arn@),
{
    call_with(
        region,
        "elbv2",
        "describe-target-health",
        "--target-group-arn",
        arn,
        Some((i, k)),
    )
}

/// Ask for the classic load balancers of a region.
pub fn call_list_v1(region: &str) -> (r: AwsCall)
    ensures
        r@ == list_v1(region@),
{
    call(region, "elb", "describe-load-balancers", None)
}

/// Ask for the health of the instances of a classic load balancer.
pub fn call_list_instances(region: &str, i: usize, name: &str) -> (r: AwsCall)
    ensures
        r@ == list_instances(region@, i, name@),
{
    call_with(
        region,
        "elb",
        "describe-instance-health",
        "--load-balancer-name",
        name,
        Some((i, 0)),
    )
}

/// The arguments of the `aws` command for a call.
pub open spec fn command_args(c: CallView) -> Seq<Seq<char>> {
    c.args.push("--region"@).push(c.region).push("--output"@).push("json"@)
}

/// The variables that the `aws` command needs: no pager, and the profile where
/// there is one.
pub open spec fn command_env(env: AwsEnv) -> Seq<(Seq<char>, Seq<char>)> {
    match env.profile {
        Some(p) => seq![("AWS_PAGER"@, ""@), ("AWS_PROFILE"@, p@)],
        None => seq![("AWS_PAGER"@, ""@)],
    }
}

/// The texts of variables.
pub open spec fn env_texts(v: Seq<(String, String)>) -> Seq<(Seq<char>, Seq<char>)> {
    v.map_values(|e: (String, String)| (e.0@, e.1@))
}

impl AwsCall {
    /// Is it one of the five read-only commands?
    pub fn is_read_only(&self) -> (r: bool)
        ensures
            r == read_only(self@),
    {
        if self.args.len() < 2 {
            return false;
        }
        let tool: &str = self.args[0].as_str();
        let verb: &str = self.args[1].as_str();
        proof {
            assert(self@.args[0] == tool@ && self@.args[1] == verb@);
        }
        (same(tool, "elbv2") && (same(verb, "describe-load-balancers") || same(
            verb,
            "describe-target-groups",
        ) || same(verb, "describe-target-health"))) || (same(tool, "elb") && (same(
            verb,
            "describe-load-balancers",
        ) || same(verb, "describe-instance-health")))
    }

    /// The arguments of the `aws` command for this call.
    pub fn command_args(&self) -> (r: Vec<String>)
        ensures
            text::strs(r@) == command_args(self@),
    {
        let mut r: Vec<String> = text::copy_list(&self.args);
        say(&mut r, "--region".to_owned());
        say(&mut r, self.region.clone());
        say(&mut r, "--output".to_owned());
        say(&mut r, "json".to_owned());
        r
    }
}

impl AwsEnv {
    /// The variables that the `aws` command needs.
    pub fn command_env(&self) -> (r: Vec<(String, String)>)
        ensures
            env_texts(r@) == command_env(*self),
    {
        let mut r: Vec<(String, String)> = Vec::new();
        r.push(("AWS_PAGER".to_owned(), "".to_owned()));
        match &self.profile {
            Some(p) => {
                r.push(("AWS_PROFILE".to_owned(), p.clone()));
            },
            None => {},
        }
        proof {
            assert(env_texts(r@) =~= command_env(*self));
        }
        r
    }
}

/// How running the `aws` command ended.
#[derive(Debug, Clone)]
pub enum CliOutcome {
    /// It did not answer in time.
    TimedOut,
    /// There is no such command.
    NotInstalled,
    /// It could not be run, for this reason.
    Broken(String),
    /// It ended, and wrote this.
    Exited { success: bool, stdout: Vec<u8>, stderr: String },
}

/// The reply to a call, by how the command ended and by what its output reads
/// as.
pub open spec fn reply(o: CliOutcome, output: Result<JsonView, Seq<char>>) -> Result<
    JsonView,
    Seq<char>,
> {
    match o {
        CliOutcome::TimedOut => Err("The aws CLI didn't answer within 30 seconds."@),
        CliOutcome::NotInstalled => Err(
            "Cloud checks need the aws CLI, which isn't installed or isn't on PATH."@,
        ),
        CliOutcome::Broken(e) => Err("Couldn't run the aws CLI: "@ + e@),
        CliOutcome::Exited { success, stdout, stderr } => if success {
            match output {
                Ok(j) => Ok(j),
                Err(e) => Err("Unexpected aws CLI output: "@ + e),
            }
        } else {
            Err(names::aws_advice(stderr@))
        },
    }
}

/// What the command wrote, where it ended.
pub open spec fn written(o: CliOutcome) -> Seq<u8> {
    match o {
        CliOutcome::Exited { success, stdout, stderr } => stdout@,
        _ => Seq::empty(),
    }
}

/// The reply of a command that succeeded, by what its output reads as.
pub fn read_output(output: Result<Json, String>) -> (r: Result<Json, String>)
    ensures
        json::outcome(r) == match json::outcome(output) {
            Ok(j) => Ok::<JsonView, Seq<char>>(j),
            Err(e) => Err("Unexpected aws CLI output: "@ + e),
        },
{
    match output {
        Ok(j) => Ok(j),
        Err(e) => Err(cat2("Unexpected aws CLI output: ", e.as_str())),
    }
}

/// The reply to a call, by how the command ended.
pub fn read_reply(o: &CliOutcome) -> (r: Result<Json, String>)
    ensures
        json::outcome(r) == reply(*o, json::parsed(written(*o))),
{
    match o {
        CliOutcome::TimedOut => Err("The aws CLI didn't answer within 30 seconds.".to_owned()),
        CliOutcome::NotInstalled => Err(
            "Cloud checks need the aws CLI, which isn't installed or isn't on PATH.".to_owned(),
        ),
        CliOutcome::Broken(e) => Err(cat2("Couldn't run the aws CLI: ", e.as_str())),
        CliOutcome::Exited { success, stdout, stderr } => {
            if *success {
                read_output(parse_json(stdout))
            } else {
                Err(explain_aws_error(stderr.as_str()))
            }
        },
    }
}

/// A call with the reply to it.
#[derive(Debug)]
pub struct Answered {
    pub call: AwsCall,
    pub reply: Result<Json, String>,
}

/// Is it the reply to this call?
pub open spec fn replies_to(a: Answered, c: CallView) -> bool {
    a.call@ == c
}

/// The reply to a call, if there is one: the first.
pub open spec fn answer(known: Seq<Answered>, c: CallView) -> Option<Result<JsonView, Seq<char>>> {
    match pick::first(known.len() as int, |i: int| replies_to(known[i], c)) {
        Some(i) => Some(json::outcome(known[i].reply)),
        None => None,
    }
}

fn same_args(a: &Vec<String>, b: &Vec<String>) -> (r: bool)
    ensures
        r == (text::strs(a@) == text::strs(b@)),
{
    let ghost x = text::strs(a@);
    let ghost y = text::strs(b@);
    if a.len() != b.len() {
        proof {
            assert(x.len() != y.len());
        }
        return false;
    }
    let mut i: usize = 0;
    while i < a.len()
        invariant
            i <= a@.len(),
            a@.len() == b@.len(),
            x == text::strs(a@),
            y == text::strs(b@),
            forall|j: int| 0 <= j < i ==> x[j] == y[j],
        decreases a@.len() - i,
    {
        proof {
            assert(x[i as int] == a@[i as int]@);
            assert(y[i as int] == b@[i as int]@);
        }
        if !same(a[i].as_str(), b[i].as_str()) {
            return false;
        }
        i = i + 1;
    }
    proof {
        assert(x =~= y);
    }
    true
}

fn same_place(a: Option<(usize, usize)>, b: Option<(usize, usize)>) -> (r: bool)
    ensures
        r == (a == b),
{
    match (a, b) {
        (Some(x), Some(y)) => x.0 == y.0 && x.1 == y.1,
        (None, None) => true,
        _ => false,
    }
}

/// Look up the reply to a call.
pub fn find_answer<'a>(known: &'a Vec<Answered>, c: &AwsCall) -> (r: Option<
    &'a Result<Json, String>,
>)
    ensures
        match r {
            Some(x) => answer(known@, c@) == Some(json::outcome(*x)),
            None => answer(known@, c@) is None,
        },
{
    let ghost q = |i: int| replies_to(known@[i], c@);
    let mut i: usize = 0;
    while i < known.len()
        invariant
            i <= known@.len(),
            q == (|i: int| replies_to(known@[i], c@)),
            forall|j: int| 0 <= j < i ==> !#[trigger] q(j),
        decreases known@.len() - i,
    {
        let k: &AwsCall = &known[i].call;
        if same(k.region.as_str(), c.region.as_str()) && same_args(&k.args, &c.args) && same_place(
            k.place,
            c.place,
        ) {
            proof {
                assert(q(i as int));
                pick::lemma_first(known@.len() as int, q);
            }
            return Some(&known[i].reply);
        }
        proof {
            assert(!q(i as int));
        }
        i = i + 1;
    }
    proof {
        pick::lemma_first(known@.len() as int, q);
    }
    None
}

/// A call without a reply is not among those that have one.
pub proof fn lemma_unanswered(known: Seq<Answered>, c: CallView)
    requires
        answer(known, c) is None,
    ensures
        forall|i: int| 0 <= i < known.len() ==> (#[trigger] known[i]).call@ != c,
{
    let q = |i: int| replies_to(known[i], c);
    pick::lemma_first(known.len() as int, q);
    assert forall|i: int| 0 <= i < known.len() implies (#[trigger] known[i]).call@ != c by {
        assert(!q(i));
    }
}

} // verus!
