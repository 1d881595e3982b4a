//! The audit log: network tests with the pods they create and delete, and
//! actions that the policy blocked.

use crate::clock::seconds_since_epoch;
use crate::pick;
use crate::text;
use crate::text::no_lines;
use vstd::prelude::*;

verus! {

#[derive(Debug, Clone, PartialEq)]
pub struct AuditEntry {
    /// Unix seconds.
    pub time: u64,
    pub user: String,
    pub context: String,
    pub environment: String,
    /// network_test_run or network_test_blocked
    pub action: String,
    pub namespace: Option<String>,
    pub target: Option<String>,
    pub pods_created: Vec<String>,
    pub pods_deleted: Vec<String>,
    pub outcome: String,
}

/// What an entry says.
#[verifier::ext_equal]
pub struct EntryView {
    pub time: u64,
    pub user: Seq<char>,
    pub context: Seq<char>,
    pub environment: Seq<char>,
    pub action: Seq<char>,
    pub namespace: Option<Seq<char>>,
    pub target: Option<Seq<char>>,
    pub pods_created: Seq<Seq<char>>,
    pub pods_deleted: Seq<Seq<char>>,
    pub outcome: Seq<char>,
}

impl View for AuditEntry {
    type V = EntryView;

    open spec fn view(&self) -> EntryView {
        EntryView {
            time: self.time,
            user: self.user@,
            context: self.context@,
            environment: self.environment@,
            action: self.action@,
            namespace: text::opt(self.namespace),
            target: text::opt(self.target),
            pods_created: text::strs(self.pods_created@),
            pods_deleted: text::strs(self.pods_deleted@),
            outcome: self.outcome@,
        }
    }
}

/// An entry that concerns no pod.
pub open spec fn plain_entry(
    time: u64,
    user: Seq<char>,
    context: Seq<char>,
    environment: Seq<char>,
    action: Seq<char>,
    outcome: Seq<char>,
) -> EntryView {
    EntryView {
        time,
        user,
        context,
        environment,
        action,
        namespace: None,
        target: None,
        pods_created: Seq::empty(),
        pods_deleted: Seq::empty(),
        outcome,
    }
}

impl AuditEntry {
    /// An entry of a user at a time.
    pub fn at(
        time: u64,
        user: &str,
        context: &str,
        environment: &str,
        action: &str,
        outcome: &str,
    ) -> (r: AuditEntry)
        ensures
            r@ == plain_entry(time, user@, context@, environment@, action@, outcome@),
    {
        let r: AuditEntry = AuditEntry {
            time,
            user: user.to_owned(),
            context: context.to_owned(),
            environment: environment.to_owned(),
            action: action.to_owned(),
            namespace: None,
            target: None,
            pods_created: no_lines(),
            pods_deleted: no_lines(),
            outcome: outcome.to_owned(),
        };
        proof {
            assert(r@ =~= plain_entry(time, user@, context@, environment@, action@, outcome@));
        }
        r
    }

    /// An entry of a user now.
    pub fn new(context: &str, environment: &str, action: &str, outcome: &str, user: &str) -> (r:
        AuditEntry)
        ensures
            r@ == plain_entry(r.time, user@, context@, environment@, action@, outcome@),
    {
        AuditEntry::at(seconds_since_epoch(), user, context, environment, action, outcome)
    }
}

/// Who the user is, by the two variables that may say so.
pub open spec fn user_name(user: Option<String>, username: Option<String>) -> Seq<char> {
    match (user, username) {
        (Some(u), _) => u@,
        (None, Some(u)) => u@,
        (None, None) => "unknown"@,
    }
}

/// Who the user is, by the variables `USER` and `USERNAME`.
pub fn login_name(user: &Option<String>, username: &Option<String>) -> (r: String)
    ensures
        r@ == user_name(*user, *username),
{
    match (user, username) {
        (Some(u), _) => u.clone(),
        (None, Some(u)) => u.clone(),
        (None, None) => "unknown".to_owned(),
    }
}

/// The entries among the first `n` lines. A line that is no entry counts for
/// nothing.
pub open spec fn entries(lines: Seq<Option<AuditEntry>>, n: int) -> Seq<AuditEntry> {
    pick::gather(
        n,
        |i: int|
            match lines[i] {
                Some(e) => seq![e],
                None => Seq::empty(),
            },
    )
}

/// The most recent entries first, and no more than so many.
pub open spec fn recent(lines: Seq<Option<AuditEntry>>, limit: usize) -> Seq<AuditEntry> {
    let all = entries(lines, lines.len() as int).reverse();
    all.take(
        if limit < all.len() {
            limit as int
        } else {
            all.len() as int
        },
    )
}

/// Adding a line adds its entry.
proof fn lemma_entries(lines: Seq<Option<AuditEntry>>, more: Seq<Option<AuditEntry>>, n: int)
    requires
        forall|i: int| 0 <= i < n ==> lines[i] == more[i],
    ensures
        entries(lines, n) == entries(more, n),
    decreases n,
{
    if n > 0 {
        lemma_entries(lines, more, n - 1);
    }
}

/// Read the log: the most recent entries first.
pub fn read(lines: Vec<Option<AuditEntry>>, limit: usize) -> (r: Vec<AuditEntry>)
    ensures
        r@ == recent(lines@, limit),
{
    let ghost all = lines@;
    let ghost want = entries(all, all.len() as int).reverse();
    let mut rest: Vec<Option<AuditEntry>> = lines;
    let mut r: Vec<AuditEntry> = Vec::new();
    while r.len() < limit && rest.len() > 0
        invariant
            want == entries(all, all.len() as int).reverse(),
            rest@.len() <= all.len(),
            rest@ == all.take(rest@.len() as int),
            r@.len() <= limit,
            r@ + entries(all, rest@.len() as int).reverse() == want,
        decreases rest@.len(),
    {
        let ghost n = rest@.len() as int;
        let last: Option<Option<AuditEntry>> = rest.pop();
        proof {
            assert(all.take(n).drop_last() =~= all.take(n - 1));
        }
        match last {
            Some(Some(e)) => {
                let ghost was = r@;
                r.push(e);
                proof {
                    let before = entries(all, n - 1);
                    assert(entries(all, n) == before + seq![e]);
                    assert((before + seq![e]).reverse() =~= seq![e] + before.reverse());
                    assert(was + (seq![e] + before.reverse()) =~= r@ + before.reverse());
                }
            },
            _ => {
                proof {
                    assert(entries(all, n) =~= entries(all, n - 1));
                }
            },
        }
    }
    proof {
        let tail = entries(all, rest@.len() as int).reverse();
        if rest@.len() == 0 {
            assert(tail.len() == 0);
            assert(r@ =~= want);
            assert(want.take(want.len() as int) =~= want);
            assert(r@ =~= recent(all, limit));
        } else {
            assert(r@.len() == limit);
            assert(want.len() == r@.len() + tail.len());
            assert(want.take(limit as int) =~= r@);
            assert(want.take(want.len() as int) =~= want);
            assert(r@ =~= recent(all, limit));
        }
    }
    r
}

/// What is written last is read first, and what was read before follows it.
pub proof fn the_newest_entry_comes_first(
    lines: Seq<Option<AuditEntry>>,
    e: AuditEntry,
    limit: usize,
)
    requires
        limit > 0,
    ensures
        recent(lines.push(Some(e)), limit) == seq![e] + recent(lines, (limit - 1) as usize),
{
    let more = lines.push(Some(e));
    let n = lines.len() as int;
    lemma_entries(lines, more, n);
    let a = entries(lines, n);
    assert(entries(more, n + 1) == a + seq![e]);
    assert((a + seq![e]).reverse() =~= seq![e] + a.reverse());
    assert(recent(more, limit) =~= seq![e] + recent(lines, (limit - 1) as usize));
}

} // verus!
