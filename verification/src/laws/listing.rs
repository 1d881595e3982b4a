//! How issues, contexts and places are listed, and how names are taken apart.

use crate::diagnose;
use crate::kubeconfig;
use crate::kubeconfig::{KubeConfig, KubeContext};
use crate::laws::probing;
use crate::lettercase;
use crate::model;
use crate::model::{Category, ClusterGraph, Layer, Severity};
use crate::order;
use crate::pick;
use crate::rules::mesh;
use crate::scan;
use crate::shell_env;
use crate::split;
use crate::text;
use vstd::prelude::*;

verus! {

/// The place of a layer on the way of a request.
pub open spec fn steps_in(l: Layer) -> int {
    match l {
        Layer::Entry => 0,
        Layer::Service => 1,
        Layer::Workload => 2,
        Layer::Pod => 3,
        Layer::Node => 4,
    }
}

/// A diagnosis lists what is critical before what is a warning, and of each the
/// layers in the order in which a request travels through them, each namespace and
/// each name in the order of the alphabet.
pub proof fn what_is_critical_comes_first(g: ClusterGraph, i: int, j: int)
    requires
        0 <= i < j < diagnose::diagnosis(g).len(),
    ensures
        ({
            let a = diagnose::diagnosis(g)[i];
            let b = diagnose::diagnosis(g)[j];
            &&& a.severity == Severity::Warning ==> b.severity == Severity::Warning
            &&& a.severity == b.severity ==> steps_in(a.layer) <= steps_in(b.layer)
            &&& a.severity == b.severity && a.layer == b.layer ==> a.target.namespace
                == b.target.namespace || order::before(a.target.namespace, b.target.namespace)
            &&& a.severity == b.severity && a.layer == b.layer && a.target.namespace
                == b.target.namespace ==> a.target.name == b.target.name || order::before(
                a.target.name,
                b.target.name,
            )
        }),
{
    let s = diagnose::found(g);
    diagnose::issues_come_in_order(s);
    let a = diagnose::diagnosis(g)[i];
    let b = diagnose::diagnosis(g)[j];
    assert(!diagnose::ahead(b, a));
    order::lemma_before_total(a.target.namespace, b.target.namespace);
    order::lemma_before_total(a.target.name, b.target.name);
}

/// One text comes before another where it is a beginning of it, or where its
/// character is the smaller at the first place at which they differ.
pub proof fn texts_are_ordered_by_their_characters(a: Seq<char>, b: Seq<char>)
    ensures
        order::before(a, b) <==> exists|k: int| #[trigger] differs_at(a, b, k),
    decreases a.len(),
{
    if b.len() == 0 || a.len() == 0 {
        if a.len() == 0 && b.len() > 0 {
            assert(differs_at(a, b, 0));
        }
        if exists|k: int| #[trigger] differs_at(a, b, k) {
            let k = choose|k: int| #[trigger] differs_at(a, b, k);
        }
    } else if a[0] != b[0] {
        if (a[0] as int) < (b[0] as int) {
            assert(differs_at(a, b, 0));
        }
        if exists|k: int| #[trigger] differs_at(a, b, k) {
            let k = choose|k: int| #[trigger] differs_at(a, b, k);
            if k > 0 {
                assert(a[0] == b[0]);
            }
        }
    } else {
        let c = a.skip(1);
        let d = b.skip(1);
        texts_are_ordered_by_their_characters(c, d);
        if exists|k: int| #[trigger] differs_at(c, d, k) {
            let k = choose|k: int| #[trigger] differs_at(c, d, k);
            assert forall|j: int| 0 <= j < k + 1 implies #[trigger] a[j] == b[j] by {
                if j > 0 {
                    assert(c[j - 1] == d[j - 1]);
                }
            }
            assert(differs_at(a, b, k + 1));
        }
        if exists|k: int| #[trigger] differs_at(a, b, k) {
            let k = choose|k: int| #[trigger] differs_at(a, b, k);
            assert forall|j: int| 0 <= j < k - 1 implies #[trigger] c[j] == d[j] by {
                assert(a[j + 1] == b[j + 1]);
            }
            assert(differs_at(c, d, k - 1));
        }
    }
}

/// Do the texts agree up to a place, at which the first ends or has the smaller
/// character?
pub open spec fn differs_at(a: Seq<char>, b: Seq<char>, k: int) -> bool {
    &&& 0 <= k <= a.len()
    &&& k < b.len()
    &&& forall|j: int| 0 <= j < k ==> #[trigger] a[j] == b[j]
    &&& k == a.len() || (a[k] as int) < (b[k] as int)
}

/// Are two characters the same letter, whatever its case, or the same character?
pub open spec fn same_letter(a: char, b: char) -> bool {
    a == b || ('A' <= a <= 'Z' && b as int == a as int + 0x20) || ('A' <= b <= 'Z' && a as int
        == b as int + 0x20)
}

/// Two texts count as the same, whatever the case of their letters, exactly where
/// each character of one is that of the other.
pub proof fn letters_are_the_same_in_either_case(a: Seq<char>, b: Seq<char>)
    ensures
        lettercase::same_letters(a, b) <==> a.len() == b.len() && forall|i: int|
            0 <= i < a.len() ==> same_letter(#[trigger] a[i], b[i]),
{
    let x = lettercase::ascii_lowercase(a);
    let y = lettercase::ascii_lowercase(b);
    assert(x.len() == a.len() && y.len() == b.len());
    if x == y {
        assert forall|i: int| 0 <= i < a.len() implies same_letter(#[trigger] a[i], b[i]) by {
            assert(x[i] == y[i]);
            lemma_letter(a[i], b[i]);
        }
    }
    if a.len() == b.len() && forall|i: int|
        0 <= i < a.len() ==> same_letter(#[trigger] a[i], b[i]) {
        assert forall|i: int| 0 <= i < x.len() implies x[i] == y[i] by {
            assert(same_letter(a[i], b[i]));
            lemma_letter(a[i], b[i]);
        }
        assert(x =~= y);
    }
}

proof fn lemma_letter(a: char, b: char)
    ensures
        lettercase::ascii_lower(a) == lettercase::ascii_lower(b) <==> same_letter(a, b),
{
}

/// What is taken apart at a separator is what the parts are with the separator
/// between them.
pub proof fn parts_make_the_whole(s: Seq<char>, c: char, max: nat)
    requires
        max >= 1,
    ensures
        split::join(split::split_max(s, c, max), seq![c]) == s,
    decreases s.len(),
{
    let p = split::split_max(s, c, max);
    if s.len() == 0 {
        assert(p == seq![Seq::<char>::empty()]);
        assert(split::join(p, seq![c]) == p[0]);
        assert(s =~= Seq::<char>::empty());
    } else {
        let t = s.drop_last();
        parts_make_the_whole(t, c, max);
        split::lemma_split_len(t, c, max);
        let q = split::split_max(t, c, max);
        assert(t.push(s.last()) =~= s);
        if s.last() == c && q.len() < max {
            assert(p == q.push(Seq::empty()));
            assert(p.drop_last() =~= q);
            assert(split::join(p, seq![c]) == split::join(q, seq![c]) + seq![c] + Seq::<
                char,
            >::empty());
            assert(t + seq![c] + Seq::<char>::empty() =~= s);
        } else {
            let r = q.drop_last();
            assert(p == r.push(q.last().push(s.last())));
            assert(p.drop_last() =~= r);
            if q.len() == 1 {
                assert(split::join(q, seq![c]) == q[0]);
                assert(split::join(p, seq![c]) == p[0]);
                assert(p[0] == q[0].push(s.last()));
            } else {
                assert(split::join(q, seq![c]) == split::join(r, seq![c]) + seq![c] + q.last());
                assert(split::join(p, seq![c]) == split::join(r, seq![c]) + seq![c]
                    + q.last().push(s.last()));
                assert(split::join(r, seq![c]) + seq![c] + q.last().push(s.last())
                    =~= (split::join(r, seq![c]) + seq![c] + q.last()).push(s.last()));
            }
        }
    }
}

/// The id of a workload gives back its kind, its namespace and its name.
pub proof fn ids_give_back_their_parts(kind: Seq<char>, ns: Seq<char>, name: Seq<char>)
    requires
        !kind.contains('/'),
        !ns.contains('/'),
    ensures
        ({
            let id = model::workload_key(kind, ns, name);
            &&& split::id_part(id, 0) == kind
            &&& split::id_part(id, 1) == ns
            &&& split::id_part(id, 2) == name
            &&& split::owner_name(id) == kind + " "@ + name
        }),
{
    reveal_strlit("/");
    let id = model::workload_key(kind, ns, name);
    assert(id =~= kind.push('/') + (ns.push('/') + name));
    probing::lemma_split_off(kind, ns.push('/') + name, '/', 3);
    probing::lemma_split_off(ns, name, '/', 2);
    lemma_rest(name);
    let p = split::split_max(id, '/', 3);
    assert(p =~= seq![kind, ns, name]);
}

proof fn lemma_rest(s: Seq<char>)
    ensures
        split::split_max(s, '/', 1) == seq![s],
    decreases s.len(),
{
    if s.len() > 0 {
        lemma_rest(s.drop_last());
        assert(s.drop_last().push(s.last()) =~= s);
        assert(split::split_max(s, '/', 1) =~= seq![s]);
    } else {
        assert(s =~= Seq::<char>::empty());
    }
}

/// A host without a dot is a service of the namespace that it is named in; one with
/// a single dot is a service of the namespace behind the dot.
pub proof fn short_hosts_stand_for_services(svc: Seq<char>, ns: Seq<char>, own: Seq<char>)
    requires
        !svc.contains('.'),
        !ns.contains('.'),
        ns != "svc"@,
    ensures
        mesh::resolve_host(svc, own) == Some((own, svc)),
        mesh::resolve_host(svc.push('.') + ns, own) == Some((ns, svc)),
{
    reveal_strlit(".cluster.local");
    reveal_strlit(".svc");
    reveal_strlit("svc");
    lemma_no_dot(svc, ".cluster.local"@);
    lemma_no_dot(svc, ".svc"@);
    probing::lemma_split_off(svc, Seq::empty(), '.', svc.len() + 2);
    lemma_enough_parts(svc, svc.len() + 1, svc.len() + 2);
    let h = svc.push('.') + ns;
    lemma_one_dot(svc, ns);
    lemma_two(svc, ns);
}

/// A text without a dot ends with nothing that holds one.
proof fn lemma_no_dot(s: Seq<char>, p: Seq<char>)
    requires
        !s.contains('.'),
        p.len() > 0,
        p[0] == '.',
    ensures
        scan::strip_ends(s, p) == s,
{
    if scan::ends_with(s, p) {
        let k = s.len() - p.len();
        assert(s.subrange(k, s.len() as int)[0] == p[0]);
        assert(s[k] == '.');
    }
}

proof fn lemma_enough_parts(s: Seq<char>, a: nat, b: nat)
    requires
        s.len() < a,
        s.len() < b,
    ensures
        split::split_max(s, '.', a) == split::split_max(s, '.', b),
    decreases s.len(),
{
    if s.len() > 0 {
        lemma_enough_parts(s.drop_last(), a, b);
        split::lemma_split_len(s.drop_last(), '.', a);
        lemma_few(s.drop_last(), a);
    }
}

proof fn lemma_few(s: Seq<char>, max: nat)
    requires
        max >= 1,
    ensures
        split::split_max(s, '.', max).len() <= s.len() + 1,
    decreases s.len(),
{
    if s.len() > 0 {
        lemma_few(s.drop_last(), max);
    }
}

proof fn lemma_one_dot(svc: Seq<char>, ns: Seq<char>)
    requires
        !svc.contains('.'),
        !ns.contains('.'),
        ns != "svc"@,
    ensures
        scan::strip_ends(
            scan::strip_ends(svc.push('.') + ns, ".cluster.local"@),
            ".svc"@,
        ) == svc.push('.') + ns,
{
    reveal_strlit(".cluster.local");
    reveal_strlit(".svc");
    reveal_strlit("svc");
    let h = svc.push('.') + ns;
    let n = h.len() as int;
    let k = svc.len() as int;
    if scan::ends_with(h, ".cluster.local"@) {
        let e = h.subrange(n - 14, n);
        assert(e[0] == '.' && e[8] == '.');
        assert(h[n - 14] == '.' && h[n - 6] == '.');
        lemma_only_dot(svc, ns, n - 14);
        lemma_only_dot(svc, ns, n - 6);
    }
    if scan::ends_with(h, ".svc"@) {
        let e = h.subrange(n - 4, n);
        assert(e[0] == '.');
        assert(h[n - 4] == '.');
        lemma_only_dot(svc, ns, n - 4);
        assert(ns.len() == 3);
        assert(e[1] == ns[0] && e[2] == ns[1] && e[3] == ns[2]);
        assert(ns =~= "svc"@);
    }
}

proof fn lemma_only_dot(svc: Seq<char>, ns: Seq<char>, i: int)
    requires
        !svc.contains('.'),
        !ns.contains('.'),
        0 <= i < (svc.push('.') + ns).len(),
        (svc.push('.') + ns)[i] == '.',
    ensures
        i == svc.len(),
{
    if i < svc.len() {
        assert(svc[i] == '.');
    } else if i > svc.len() {
        assert(ns[i - svc.len() - 1] == '.');
    }
}

proof fn lemma_two(svc: Seq<char>, ns: Seq<char>)
    requires
        !svc.contains('.'),
        !ns.contains('.'),
    ensures
        split::split(svc.push('.') + ns, '.') == seq![svc, ns],
{
    let h = svc.push('.') + ns;
    probing::lemma_split_off(svc, ns, '.', h.len() + 1);
    probing::lemma_split_off(ns, Seq::empty(), '.', h.len() + 2);
    lemma_enough_parts(ns, h.len() as nat, h.len() + 2);
    assert(seq![svc] + seq![ns] =~= seq![svc, ns]);
}

/// Is this the first context with the name?
pub open spec fn is_context(kc: KubeConfig, name: Seq<char>, i: int) -> bool {
    0 <= i < kc.contexts@.len() && kc.contexts@[i].name@ == name && forall|j: int|
        0 <= j < i ==> (#[trigger] kc.contexts@[j]).name@ != name
}

/// Is this the first user with the name?
pub open spec fn is_user(kc: KubeConfig, name: Seq<char>, i: int) -> bool {
    0 <= i < kc.users@.len() && kc.users@[i].name@ == name && forall|j: int|
        0 <= j < i ==> (#[trigger] kc.users@[j]).name@ != name
}

/// The plugin of a context is that of the user that the context names.
pub proof fn contexts_use_the_plugin_of_their_user(kc: KubeConfig, name: &str, i: int, j: int)
    requires
        is_context(kc, name@, i),
        kc.contexts@[i].user is Some,
        is_user(kc, kc.contexts@[i].user->0@, j),
    ensures
        kubeconfig::plugin_of(kc, name@) == kc.users@[j].plugin,
{
    let f = |i: int| kc.contexts@[i].name@ == name@;
    pick::lemma_first(kc.contexts@.len() as int, f);
    assert(f(i));
    let m = pick::first(kc.contexts@.len() as int, f)->0;
    if m < i {
        assert(f(m));
        assert(kc.contexts@[m].name@ != name@);
    }
    assert(kubeconfig::context_in(kc, name@) == Some(kc.contexts@[i]));
    let u = kc.contexts@[i].user->0;
    let h = |j: int| kc.users@[j].name@ == u@;
    pick::lemma_first(kc.users@.len() as int, h);
    assert(h(j));
    let n = pick::first(kc.users@.len() as int, h)->0;
    if n < j {
        assert(h(n));
        assert(kc.users@[n].name@ != u@);
    }
    assert(kubeconfig::user_in(kc, u@) == Some(kc.users@[j]));
}

/// A context is shown under its name, with its cluster, its user and its namespace.
pub proof fn contexts_are_shown_as_they_are(p: crate::policy::rules::PolicyView, c: KubeContext)
    ensures
        ({
            let x = kubeconfig::shown(p, c);
            &&& x.name == c.name@
            &&& c.cluster matches Some(s) ==> x.cluster == s@
            &&& c.cluster is None ==> x.cluster.len() == 0
            &&& x.user == text::opt(c.user)
            &&& x.namespace == text::opt(c.namespace)
        }),
{
}

proof fn lemma_place_kept(s: Seq<Seq<char>>, p: Seq<char>)
    ensures
        p.len() > 0 ==> shell_env::with_place(s, p).contains(p),
        forall|x: Seq<char>| #[trigger] s.contains(x) ==> shell_env::with_place(s, p).contains(x),
{
    let t = shell_env::with_place(s, p);
    if p.len() > 0 && !s.contains(p) {
        assert(t[s.len() as int] == p);
        assert forall|x: Seq<char>| #[trigger] s.contains(x) implies t.contains(x) by {
            let k = choose|k: int| 0 <= k < s.len() && s[k] == x;
            assert(t[k] == x);
        }
    }
}

proof fn lemma_places_kept(s: Seq<Seq<char>>, more: Seq<Seq<char>>, n: int)
    requires
        0 <= n <= more.len(),
    ensures
        forall|x: Seq<char>| #[trigger]
            s.contains(x) ==> shell_env::with_places(s, more, n).contains(x),
        forall|k: int|
            0 <= k < n && (#[trigger] more[k]).len() > 0 ==> shell_env::with_places(
                s,
                more,
                n,
            ).contains(more[k]),
    decreases n,
{
    if n > 0 {
        lemma_places_kept(s, more, n - 1);
        lemma_place_kept(shell_env::with_places(s, more, n - 1), more[n - 1]);
    }
}

/// Every directory of the shell's path and of the current one is looked at, and so
/// are the usual ones.
pub proof fn every_place_is_looked_at(
    from_shell: Option<Seq<char>>,
    current: Seq<char>,
    home: Seq<char>,
    k: int,
)
    ensures
        ({
            let all = shell_env::places(from_shell, current, home);
            &&& from_shell matches Some(p) ==> (0 <= k < split::split(p, ':').len() && split::split(
                p,
                ':',
            )[k].len() > 0 ==> all.contains(split::split(p, ':')[k]))
            &&& 0 <= k < split::split(current, ':').len() && split::split(current, ':')[k].len() > 0
                ==> all.contains(split::split(current, ':')[k])
            &&& all.contains("/opt/homebrew/bin"@)
            &&& all.contains("/usr/local/bin"@)
            &&& all.contains("/snap/bin"@)
            &&& all.contains(home + "/.local/bin"@)
            &&& all.contains(home + "/google-cloud-sdk/bin"@)
        }),
{
    reveal_strlit("/opt/homebrew/bin");
    reveal_strlit("/usr/local/bin");
    reveal_strlit("/snap/bin");
    reveal_strlit("/.local/bin");
    reveal_strlit("/google-cloud-sdk/bin");
    let e = Seq::<Seq<char>>::empty();
    let a = match from_shell {
        Some(p) => shell_env::with_path(e, p),
        None => e,
    };
    if from_shell is Some {
        let p = split::split(from_shell->0, ':');
        lemma_places_kept(e, p, p.len() as int);
    }
    let cp = split::split(current, ':');
    lemma_places_kept(a, cp, cp.len() as int);
    let b = shell_env::with_path(a, current);
    let c1 = shell_env::with_place(b, "/opt/homebrew/bin"@);
    let c2 = shell_env::with_place(c1, "/usr/local/bin"@);
    let c3 = shell_env::with_place(c2, "/snap/bin"@);
    let c4 = shell_env::with_place(c3, home + "/.local/bin"@);
    lemma_place_kept(b, "/opt/homebrew/bin"@);
    lemma_place_kept(c1, "/usr/local/bin"@);
    lemma_place_kept(c2, "/snap/bin"@);
    lemma_place_kept(c3, home + "/.local/bin"@);
    lemma_place_kept(c4, home + "/google-cloud-sdk/bin"@);
}

/// A text that goes on from another begins with it; one that has another character
/// at some place does not.
proof fn lemma_begins(p: Seq<char>, x: Seq<char>)
    ensures
        scan::starts_with(p + x, p),
        forall|q: Seq<char>, k: int|
            #![trigger q[k], p[k]]
            0 <= k < p.len() && k < q.len() && q[k] != p[k] ==> !scan::starts_with(p + x, q),
{
    let s = p + x;
    assert(s.subrange(0, p.len() as int) =~= p);
    assert forall|q: Seq<char>, k: int|
        #![trigger q[k], p[k]]
        0 <= k < p.len() && k < q.len() && q[k] != p[k] implies !scan::starts_with(s, q) by {
        if scan::starts_with(s, q) {
            assert(s.subrange(0, q.len() as int)[k] == s[k]);
            assert(s[k] == p[k]);
        }
    }
}

/// Issues about policies and pod networking are filed under the network; those
/// about DNS and about the mesh, under these.
pub proof fn network_issues_are_filed_as_such(x: Seq<char>)
    ensures
        model::category_of("np-"@ + x) == Category::Network,
        model::category_of("cni-"@ + x) == Category::Network,
        model::category_of("kubeproxy-"@ + x) == Category::Network,
        model::category_of("dns-"@ + x) == Category::Dns,
        model::category_of("mesh-"@ + x) == Category::Mesh,
{
    reveal_strlit("np-");
    reveal_strlit("cni-");
    reveal_strlit("kubeproxy-");
    reveal_strlit("dns-");
    reveal_strlit("mesh-");
    lemma_begins("np-"@, x);
    lemma_begins("cni-"@, x);
    lemma_begins("kubeproxy-"@, x);
    lemma_begins("dns-"@, x);
    lemma_begins("mesh-"@, x);
    assert("np-"@[0] == 'n' && "cni-"@[0] == 'c' && "kubeproxy-"@[0] == 'k');
    assert("dns-"@[0] == 'd' && "mesh-"@[0] == 'm');
}

/// Issues about images are filed under images, those about settings and refusals
/// under configuration, those about volumes under storage.
pub proof fn supply_issues_are_filed_as_such(x: Seq<char>)
    ensures
        model::category_of("pod-imagepull:"@ + x) == Category::Images,
        model::category_of("pod-config:"@ + x) == Category::Config,
        model::category_of("config-missing"@ + x) == Category::Config,
        model::category_of("admission-denied"@ + x) == Category::Config,
        model::category_of("storage-"@ + x) == Category::Storage,
{
    assert(model::category_of("pod-imagepull:"@ + x) == Category::Images) by {
        lemma_words();
        reveal_strlit("pod-imagepull");
        reveal_strlit("pod-imagepull:");
        lemma_further("pod-imagepull:"@, x, "pod-imagepull"@);
        assert("pod-imagepull:"@[0] == 'p');
    }
    assert(model::category_of("pod-config:"@ + x) == Category::Config) by {
        lemma_words();
        reveal_strlit("pod-config");
        reveal_strlit("pod-config:");
        lemma_further("pod-config:"@, x, "pod-config"@);
        assert("pod-config:"@[0] == 'p' && "pod-config:"@[4] == 'c');
    }
    assert(model::category_of("config-missing"@ + x) == Category::Config) by {
        lemma_words();
        reveal_strlit("config-");
        reveal_strlit("config-missing");
        lemma_further("config-missing"@, x, "config-"@);
        assert("config-missing"@[0] == 'c' && "config-missing"@[1] == 'o');
    }
    assert(model::category_of("admission-denied"@ + x) == Category::Config) by {
        lemma_words();
        reveal_strlit("admission-");
        reveal_strlit("admission-denied");
        lemma_further("admission-denied"@, x, "admission-"@);
        assert("admission-denied"@[0] == 'a');
    }
    assert(model::category_of("storage-"@ + x) == Category::Storage) by {
        lemma_words();
        lemma_further("storage-"@, x, "storage-"@);
    }
}

/// Issues about placement, quotas, scaling and nodes are filed as such.
pub proof fn room_issues_are_filed_as_such(x: Seq<char>)
    ensures
        model::category_of("pod-unschedulable:"@ + x) == Category::Scheduling,
        model::category_of("quota-exceeded"@ + x) == Category::Capacity,
        model::category_of("hpa-"@ + x) == Category::Scaling,
        model::category_of("pod-evicted:"@ + x) == Category::Nodes,
        model::category_of("node-"@ + x) == Category::Nodes,
{
    lemma_words();
    reveal_strlit("pod-unschedulable");
    reveal_strlit("quota-");
    reveal_strlit("pod-evicted");
    reveal_strlit("pod-unschedulable:");
    reveal_strlit("quota-exceeded");
    reveal_strlit("pod-evicted:");
    lemma_further("pod-unschedulable:"@, x, "pod-unschedulable"@);
    lemma_further("quota-exceeded"@, x, "quota-"@);
    lemma_further("hpa-"@, x, "hpa-"@);
    lemma_further("pod-evicted:"@, x, "pod-evicted"@);
    lemma_further("node-"@, x, "node-"@);
    assert("pod-unschedulable:"@[0] == 'p' && "pod-unschedulable:"@[4] == 'u');
    assert("quota-exceeded"@[0] == 'q');
    assert("pod-evicted:"@[0] == 'p' && "pod-evicted:"@[4] == 'e');
}

/// Issues about pods that do not run well, their probes and their workloads are
/// filed under health.
pub proof fn health_issues_are_filed_as_such(x: Seq<char>)
    ensures
        model::category_of("pod-crashloop:"@ + x) == Category::Health,
        model::category_of("pod-oom:"@ + x) == Category::Health,
        model::category_of("pod-notready:"@ + x) == Category::Health,
        model::category_of("probe-"@ + x) == Category::Health,
        model::category_of("workload-"@ + x) == Category::Health,
{
    lemma_words();
    reveal_strlit("pod-");
    reveal_strlit("pod-crashloop:");
    reveal_strlit("pod-oom:");
    reveal_strlit("pod-notready:");
    lemma_further("pod-crashloop:"@, x, "pod-"@);
    lemma_further("pod-oom:"@, x, "pod-"@);
    lemma_further("pod-notready:"@, x, "pod-"@);
    lemma_further("probe-"@, x, "probe-"@);
    lemma_further("workload-"@, x, "workload-"@);
    assert("pod-crashloop:"@[0] == 'p' && "pod-crashloop:"@[4] == 'c' && "pod-crashloop:"@[5]
        == 'r');
    assert("pod-oom:"@[0] == 'p' && "pod-oom:"@[4] == 'o');
    assert("pod-notready:"@[0] == 'p' && "pod-notready:"@[4] == 'n');
}

/// Issues about routes, ingresses, load balancers and services are filed under
/// routing.
pub proof fn routing_issues_are_filed_as_such(x: Seq<char>)
    ensures
        model::category_of("entry-"@ + x) == Category::Routing,
        model::category_of("ingress-"@ + x) == Category::Routing,
        model::category_of("lb-"@ + x) == Category::Routing,
        model::category_of("svc-"@ + x) == Category::Routing,
{
    lemma_words();
    lemma_further("entry-"@, x, "entry-"@);
    lemma_further("ingress-"@, x, "ingress-"@);
    lemma_further("lb-"@, x, "lb-"@);
    lemma_further("svc-"@, x, "svc-"@);
}

/// The characters by which the beginnings of the ids differ.
proof fn lemma_words()
    ensures
        "np-"@.len() == 3 && "np-"@[0] == 'n' && "np-"@[1] == 'p',
        "cni-"@.len() == 4 && "cni-"@[0] == 'c' && "cni-"@[1] == 'n',
        "kubeproxy-"@.len() == 10 && "kubeproxy-"@[0] == 'k',
        "dns-"@.len() == 4 && "dns-"@[0] == 'd',
        "mesh-"@.len() == 5 && "mesh-"@[0] == 'm',
        "pod-imagepull"@.len() == 13 && "pod-imagepull"@[0] == 'p' && "pod-imagepull"@[1] == 'o'
            && "pod-imagepull"@[4] == 'i',
        "config-"@.len() == 7 && "config-"@[0] == 'c',
        "pod-config"@.len() == 10 && "pod-config"@[0] == 'p' && "pod-config"@[1] == 'o'
            && "pod-config"@[4] == 'c' && "pod-config"@[5] == 'o',
        "admission-"@.len() == 10 && "admission-"@[0] == 'a',
        "storage-"@.len() == 8 && "storage-"@[0] == 's' && "storage-"@[1] == 't',
        "pod-unschedulable"@.len() == 17 && "pod-unschedulable"@[0] == 'p'
            && "pod-unschedulable"@[1] == 'o' && "pod-unschedulable"@[4] == 'u',
        "quota-"@.len() == 6 && "quota-"@[0] == 'q',
        "hpa-"@.len() == 4 && "hpa-"@[0] == 'h',
        "pod-evicted"@.len() == 11 && "pod-evicted"@[0] == 'p' && "pod-evicted"@[1] == 'o'
            && "pod-evicted"@[4] == 'e',
        "node-"@.len() == 5 && "node-"@[0] == 'n' && "node-"@[1] == 'o',
        "pod-"@.len() == 4 && "pod-"@[0] == 'p' && "pod-"@[1] == 'o',
        "probe-"@.len() == 6 && "probe-"@[0] == 'p' && "probe-"@[1] == 'r',
        "workload-"@.len() == 9 && "workload-"@[0] == 'w',
        "entry-"@.len() == 6 && "entry-"@[0] == 'e',
        "ingress-"@.len() == 8 && "ingress-"@[0] == 'i',
        "lb-"@.len() == 3 && "lb-"@[0] == 'l',
        "svc-"@.len() == 4 && "svc-"@[0] == 's' && "svc-"@[1] == 'v',
{
    reveal_strlit("np-");
    reveal_strlit("cni-");
    reveal_strlit("kubeproxy-");
    reveal_strlit("dns-");
    reveal_strlit("mesh-");
    reveal_strlit("pod-imagepull");
    reveal_strlit("config-");
    reveal_strlit("pod-config");
    reveal_strlit("admission-");
    reveal_strlit("storage-");
    reveal_strlit("pod-unschedulable");
    reveal_strlit("quota-");
    reveal_strlit("hpa-");
    reveal_strlit("pod-evicted");
    reveal_strlit("node-");
    reveal_strlit("pod-");
    reveal_strlit("probe-");
    reveal_strlit("workload-");
    reveal_strlit("entry-");
    reveal_strlit("ingress-");
    reveal_strlit("lb-");
    reveal_strlit("svc-");
}

/// A text begins with every beginning of its beginning.
proof fn lemma_further(p: Seq<char>, x: Seq<char>, q: Seq<char>)
    requires
        q.len() <= p.len(),
        p.subrange(0, q.len() as int) =~= q,
    ensures
        scan::starts_with(p + x, q),
        forall|r: Seq<char>, k: int|
            #![trigger r[k], p[k]]
            0 <= k < p.len() && k < r.len() && r[k] != p[k] ==> !scan::starts_with(p + x, r),
{
    lemma_begins(p, x);
    assert((p + x).subrange(0, q.len() as int) =~= q);
}

} // verus!
