//! The script that a probe runs, the pod it runs in, and what it prints.

use crate::active::check;
use crate::active::check::{CheckResult, CheckView, PlannedCheck, ResultView};
use crate::json;
use crate::json::{list1, list3, no_fields, object, object1, object2, put, string, Json, JsonView};
use crate::numeral;
use crate::numeral::dec_i32;
use crate::pick;
use crate::scan;
use crate::scan::{begins, chars_of, cut, trimmed};
use crate::split;
use crate::split::{lines_of, parts, parts_max};
use crate::text;
use crate::text::{cat2, cat3, cat5, cat9, cat11, same};
use vstd::prelude::*;

verus! {

broadcast use crate::pick::lemma_add_nothing;

pub const DEFAULT_IMAGE: &'static str = "busybox:1.36.1";

pub const PROBE_LABEL: &'static str = "app.kubernetes.io/managed-by";

/// The functions of the script: each check prints one line with its outcome.
pub const FUNCTIONS: &'static str = "r(){ echo \"R|$1|$2|$3|$4|$5\"; }\ndns(){ o=$(nslookup \"$2\" 2>&1); if echo \"$o\" | grep -q '^Name:'; then r dns \"$1\" \"$2\" ok \"$(echo \"$o\" | grep -A1 '^Name:' | grep -m1 'Address' | awk '{print $NF}')\"; else r dns \"$1\" \"$2\" fail \"$(echo \"$o\" | grep -v '^$' | tail -1)\"; fi; }\ntcp(){ s=$(date +%s); if nc -z -w \"$4\" \"$2\" \"$3\" 2>/dev/null; then r tcp \"$1\" \"$2:$3\" ok \"$(( $(date +%s)-s ))s\"; else e=$(( $(date +%s)-s )); if [ \"$e\" -ge 2 ]; then r tcp \"$1\" \"$2:$3\" timeout \"${e}s\"; else r tcp \"$1\" \"$2:$3\" refused \"${e}s\"; fi; fi; }\nhttp(){ s=$(date +%s); c=$(wget -q -S -T \"$4\" -O /dev/null \"http://$2:$3$5\" 2>&1 | grep -o 'HTTP/[0-9.]* [0-9][0-9][0-9]' | tail -1 | awk '{print $2}'); e=$(( $(date +%s)-s )); r http \"$1\" \"$2:$3$5\" \"${c:-none}\" \"${e}s\"; }\n";

/// An ASCII letter or digit.
pub open spec fn alphanumeric(c: char) -> bool {
    'a' <= c <= 'z' || 'A' <= c <= 'Z' || '0' <= c <= '9'
}

/// A character that may stand in a host.
pub open spec fn host_char(c: char) -> bool {
    alphanumeric(c) || c == '.' || c == '-' || c == ':'
}

/// A character that may stand in a path.
pub open spec fn path_char(c: char) -> bool {
    alphanumeric(c) || c == '/' || c == '.' || c == '_' || c == '~' || c == '%' || c == '?' || c == '='
        || c == '&' || c == '+' || c == '-'
}

/// Can a host be put into a shell command as it is?
pub open spec fn is_safe_host(s: Seq<char>) -> bool {
    0 < s.len() < 254 && forall|i: int| 0 <= i < s.len() ==> host_char(#[trigger] s[i])
}

/// Can a path be put into a shell command as it is?
pub open spec fn is_safe_path(s: Seq<char>) -> bool {
    0 < s.len() < 512 && s[0] == '/' && forall|i: int|
        0 <= i < s.len() ==> path_char(#[trigger] s[i])
}

fn is_alphanumeric(c: char) -> (r: bool)
    ensures
        r == alphanumeric(c),
{
    ('a' <= c && c <= 'z') || ('A' <= c && c <= 'Z') || ('0' <= c && c <= '9')
}

/// Can a host be put into a shell command as it is?
pub fn safe_host(s: &str) -> (r: bool)
    ensures
        r == is_safe_host(s@),
{
    let v: Vec<char> = chars_of(s);
    if v.len() == 0 || v.len() >= 254 {
        return false;
    }
    let mut i: usize = 0;
    while i < v.len()
        invariant
            v@ == s@,
            i <= v@.len(),
            forall|j: int| 0 <= j < i ==> host_char(#[trigger] s@[j]),
        decreases v@.len() - i,
    {
        let c: char = v[i];
        if !(is_alphanumeric(c) || c == '.' || c == '-' || c == ':') {
            proof {
                assert(!host_char(s@[i as int]));
            }
            return false;
        }
        i = i + 1;
    }
    true
}

/// Can a path be put into a shell command as it is?
pub fn safe_path(s: &str) -> (r: bool)
    ensures
        r == is_safe_path(s@),
{
    let v: Vec<char> = chars_of(s);
    if v.len() == 0 || v.len() >= 512 || v[0] != '/' {
        return false;
    }
    let mut i: usize = 0;
    while i < v.len()
        invariant
            v@ == s@,
            i <= v@.len(),
            forall|j: int| 0 <= j < i ==> path_char(#[trigger] s@[j]),
        decreases v@.len() - i,
    {
        let c: char = v[i];
        if !(is_alphanumeric(c) || c == '/' || c == '.' || c == '_' || c == '~' || c == '%' || c
            == '?' || c == '=' || c == '&' || c == '+' || c == '-') {
            proof {
                assert(!path_char(s@[i as int]));
            }
            return false;
        }
        i = i + 1;
    }
    true
}

/// Is a word of a label safe in a shell command? Labels are made of hosts, paths
/// and plain words; between two spaces there may be nothing.
pub open spec fn is_safe_word(w: Seq<char>) -> bool {
    w.len() == 0 || is_safe_host(w) || is_safe_path(w)
}

/// Can a label be put into a shell command between quotes? Each of its words has
/// to be safe.
pub open spec fn is_safe_label(s: Seq<char>) -> bool {
    let words = split::split(s, ' ');
    forall|i: int| 0 <= i < words.len() ==> is_safe_word(#[trigger] words[i])
}

/// Can a label be put into a shell command between quotes?
pub fn safe_label(s: &str) -> (r: bool)
    ensures
        r == is_safe_label(s@),
{
    let words: Vec<String> = parts(s, ' ');
    let ghost v = text::strs(words@);
    let mut i: usize = 0;
    while i < words.len()
        invariant
            i <= words@.len(),
            v == text::strs(words@),
            v == split::split(s@, ' '),
            forall|j: int| 0 <= j < i ==> is_safe_word(#[trigger] v[j]),
        decreases words@.len() - i,
    {
        let w: &str = words[i].as_str();
        proof {
            assert(v[i as int] == w@);
        }
        if !(w.unicode_len() == 0 || safe_host(w) || safe_path(w)) {
            return false;
        }
        i = i + 1;
    }
    true
}

/// A value between single quotes.
pub open spec fn quoted(v: Seq<char>) -> Seq<char> {
    "'"@ + v + "'"@
}

fn quote(v: &str) -> (r: String)
    ensures
        r@ == quoted(v@),
{
    cat3("'", v, "'")
}

/// The port of a check in the script.
pub open spec fn port_text(c: CheckView) -> Seq<char> {
    numeral::dec(
        match c.port {
            Some(p) => p as int,
            None => 0,
        },
    )
}

/// The line of the script for a check.
pub open spec fn script_line(c: CheckView) -> Seq<char> {
    if c.kind == "dns"@ {
        "dns "@ + quoted(c.label) + " "@ + quoted(c.host) + "\n"@
    } else if c.kind == "tcp"@ {
        "tcp "@ + quoted(c.label) + " "@ + quoted(c.host) + " "@ + port_text(c) + " "@
            + numeral::dec(c.timeout as int) + "\n"@
    } else if c.kind == "http"@ {
        "http "@ + quoted(c.label) + " "@ + quoted(c.host) + " "@ + port_text(c) + " "@
            + numeral::dec(c.timeout as int) + " "@ + quoted(
            match c.path {
                Some(p) => p,
                None => "/"@,
            },
        ) + "\n"@
    } else {
        Seq::empty()
    }
}

fn line_of(c: &PlannedCheck) -> (r: String)
    ensures
        r@ == script_line(c@),
{
    let label: String = quote(c.label.as_str());
    let host: String = quote(c.host.as_str());
    let port: String = dec_i32(
        match c.port {
            Some(p) => p,
            None => 0,
        },
    );
    let timeout: String = dec_i32(c.timeout);
    if same(c.kind.as_str(), "dns") {
        cat5("dns ", label.as_str(), " ", host.as_str(), "\n")
    } else if same(c.kind.as_str(), "tcp") {
        cat9(
            "tcp ",
            label.as_str(),
            " ",
            host.as_str(),
            " ",
            port.as_str(),
            " ",
            timeout.as_str(),
            "\n",
        )
    } else if same(c.kind.as_str(), "http") {
        let path: String = match &c.path {
            Some(p) => quote(p.as_str()),
            None => quote("/"),
        };
        cat11(
            "http ",
            label.as_str(),
            " ",
            host.as_str(),
            " ",
            port.as_str(),
            " ",
            timeout.as_str(),
            " ",
            path.as_str(),
            "\n",
        )
    } else {
        String::new()
    }
}

/// The script up to the first `n` checks.
pub open spec fn script_upto(checks: Seq<CheckView>, n: int) -> Seq<char>
    decreases n,
{
    if n <= 0 {
        FUNCTIONS@
    } else {
        script_upto(checks, n - 1) + script_line(checks[n - 1])
    }
}

/// The busybox script for a list of checks. It ends by saying that it is done.
pub open spec fn script(checks: Seq<CheckView>) -> Seq<char> {
    script_upto(checks, checks.len() as int) + "echo DONE\n"@
}

/// The busybox script. Every value in it is single-quoted or a number; in a plan
/// all that comes from the cluster has passed [`safe_host`] or [`safe_path`].
pub fn script_for(checks: &[PlannedCheck]) -> (r: String)
    ensures
        r@ == script(check::check_views(checks@)),
{
    let ghost views = check::check_views(checks@);
    let mut s: String = FUNCTIONS.to_owned();
    let mut i: usize = 0;
    while i < checks.len()
        invariant
            i <= checks@.len(),
            views == check::check_views(checks@),
            s@ == script_upto(views, i as int),
        decreases checks@.len() - i,
    {
        proof {
            assert(views[i as int] == checks@[i as int]@);
        }
        s = cat2(s.as_str(), line_of(&checks[i]).as_str());
        i = i + 1;
    }
    cat2(s.as_str(), "echo DONE\n")
}

/// What a probe may do as a whole: nothing as root, and only the default
/// system calls.
pub open spec fn pod_security() -> JsonView {
    JsonView::Object(
        seq![
            ("runAsNonRoot"@, JsonView::Bool(true)),
            ("runAsUser"@, JsonView::Int(65534)),
            ("runAsGroup"@, JsonView::Int(65534)),
            (
                "seccompProfile"@,
                JsonView::Object(seq![("type"@, JsonView::Text("RuntimeDefault"@))]),
            ),
        ],
    )
}

fn pod_security_json() -> (r: Json)
    ensures
        r@ == pod_security(),
{
    let mut o: Vec<(String, Json)> = no_fields();
    put(&mut o, "runAsNonRoot", Json::Bool(true));
    put(&mut o, "runAsUser", Json::Int(65534));
    put(&mut o, "runAsGroup", Json::Int(65534));
    put(&mut o, "seccompProfile", object1("type", string("RuntimeDefault")));
    let r: Json = object(o);
    proof {
        assert(json::fields(o@) =~= pod_security()->Object_0);
    }
    r
}

/// What the container of a probe may do: no more rights, no capabilities, and
/// nothing written to its file system.
pub open spec fn container_security() -> JsonView {
    JsonView::Object(
        seq![
            ("allowPrivilegeEscalation"@, JsonView::Bool(false)),
            ("readOnlyRootFilesystem"@, JsonView::Bool(true)),
            (
                "capabilities"@,
                JsonView::Object(seq![("drop"@, JsonView::List(seq![JsonView::Text("ALL"@)]))]),
            ),
        ],
    )
}

fn container_security_json() -> (r: Json)
    ensures
        r@ == container_security(),
{
    let mut o: Vec<(String, Json)> = no_fields();
    put(&mut o, "allowPrivilegeEscalation", Json::Bool(false));
    put(&mut o, "readOnlyRootFilesystem", Json::Bool(true));
    put(&mut o, "capabilities", object1("drop", list1(string("ALL"))));
    let r: Json = object(o);
    proof {
        assert(json::fields(o@) =~= container_security()->Object_0);
    }
    r
}

/// An amount of CPU and memory.
pub open spec fn amount(cpu: Seq<char>, memory: Seq<char>) -> JsonView {
    JsonView::Object(
        seq![("cpu"@, JsonView::Text(cpu)), ("memory"@, JsonView::Text(memory))],
    )
}

/// The container of a probe.
pub open spec fn container(image: Seq<char>, script: Seq<char>) -> JsonView {
    JsonView::Object(
        seq![
            ("name"@, JsonView::Text("probe"@)),
            ("image"@, JsonView::Text(image)),
            (
                "command"@,
                JsonView::List(
                    seq![JsonView::Text("sh"@), JsonView::Text("-c"@), JsonView::Text(script)],
                ),
            ),
            (
                "resources"@,
                JsonView::Object(
                    seq![
                        ("requests"@, amount("10m"@, "16Mi"@)),
                        ("limits"@, amount("100m"@, "32Mi"@)),
                    ],
                ),
            ),
            ("securityContext"@, container_security()),
        ],
    )
}

fn container_json(image: &str, script: &str) -> (r: Json)
    ensures
        r@ == container(image@, script@),
{
    let requests: Json = object2("cpu", string("10m"), "memory", string("16Mi"));
    let limits: Json = object2("cpu", string("100m"), "memory", string("32Mi"));
    let mut o: Vec<(String, Json)> = no_fields();
    put(&mut o, "name", string("probe"));
    put(&mut o, "image", string(image));
    put(&mut o, "command", list3(string("sh"), string("-c"), string(script)));
    put(&mut o, "resources", object2("requests", requests, "limits", limits));
    put(&mut o, "securityContext", container_security_json());
    let r: Json = object(o);
    proof {
        assert(json::fields(o@) =~= container(image@, script@)->Object_0);
    }
    r
}

/// The fields of the spec of a probe pod.
pub open spec fn pod_spec(node: Option<Seq<char>>, image: Seq<char>, script: Seq<char>) -> Seq<
    (Seq<char>, JsonView),
> {
    seq![
        ("restartPolicy"@, JsonView::Text("Never"@)),
        ("activeDeadlineSeconds"@, JsonView::Int(90)),
        ("terminationGracePeriodSeconds"@, JsonView::Int(0)),
        ("automountServiceAccountToken"@, JsonView::Bool(false)),
        ("enableServiceLinks"@, JsonView::Bool(false)),
        (
            "tolerations"@,
            JsonView::List(
                seq![JsonView::Object(seq![("operator"@, JsonView::Text("Exists"@))])],
            ),
        ),
        ("securityContext"@, pod_security()),
        ("containers"@, JsonView::List(seq![container(image, script)])),
    ] + (match node {
        Some(n) => seq![("nodeName"@, JsonView::Text(n))],
        None => Seq::empty(),
    })
}

/// The manifest of a probe pod.
pub open spec fn manifest_of(
    namespace: Seq<char>,
    node: Option<Seq<char>>,
    image: Seq<char>,
    script: Seq<char>,
) -> JsonView {
    JsonView::Object(
        seq![
            ("apiVersion"@, JsonView::Text("v1"@)),
            ("kind"@, JsonView::Text("Pod"@)),
            (
                "metadata"@,
                JsonView::Object(
                    seq![
                        ("generateName"@, JsonView::Text("tessera-probe-"@)),
                        ("namespace"@, JsonView::Text(namespace)),
                        (
                            "labels"@,
                            JsonView::Object(
                                seq![
                                    (PROBE_LABEL@, JsonView::Text("tessera"@)),
                                    ("tessera.dev/probe"@, JsonView::Text("network"@)),
                                ],
                            ),
                        ),
                    ],
                ),
            ),
            ("spec"@, JsonView::Object(pod_spec(node, image, script))),
        ],
    )
}

/// A node, if one is given.
pub open spec fn opt_str(o: Option<&str>) -> Option<Seq<char>> {
    match o {
        Some(s) => Some(s@),
        None => None,
    }
}

/// The manifest of a probe pod: short-lived, without rights, on a node if one
/// is given.
pub fn manifest(namespace: &str, node: Option<&str>, image: &str, script: &str) -> (r: Json)
    ensures
        r@ == manifest_of(namespace@, opt_str(node), image@, script@),
{
    let mut spec_: Vec<(String, Json)> = no_fields();
    put(&mut spec_, "restartPolicy", string("Never"));
    put(&mut spec_, "activeDeadlineSeconds", Json::Int(90));
    put(&mut spec_, "terminationGracePeriodSeconds", Json::Int(0));
    put(&mut spec_, "automountServiceAccountToken", Json::Bool(false));
    put(&mut spec_, "enableServiceLinks", Json::Bool(false));
    put(&mut spec_, "tolerations", list1(object1("operator", string("Exists"))));
    put(&mut spec_, "securityContext", pod_security_json());
    put(&mut spec_, "containers", list1(container_json(image, script)));
    match node {
        Some(n) => put(&mut spec_, "nodeName", string(n)),
        None => {},
    }
    proof {
        assert(json::fields(spec_@) =~= pod_spec(opt_str(node), image@, script@));
    }
    let labels: Json = object2(PROBE_LABEL, string("tessera"), "tessera.dev/probe", string("network"));
    let mut meta: Vec<(String, Json)> = no_fields();
    put(&mut meta, "generateName", string("tessera-probe-"));
    put(&mut meta, "namespace", string(namespace));
    put(&mut meta, "labels", labels);
    let ghost m = json::fields(meta@);
    proof {
        assert(m =~= seq![
            ("generateName"@, JsonView::Text("tessera-probe-"@)),
            ("namespace"@, JsonView::Text(namespace@)),
            ("labels"@, labels@),
        ]);
    }
    let mut o: Vec<(String, Json)> = no_fields();
    put(&mut o, "apiVersion", string("v1"));
    put(&mut o, "kind", string("Pod"));
    put(&mut o, "metadata", object(meta));
    put(&mut o, "spec", object(spec_));
    let r: Json = object(o);
    proof {
        assert(json::fields(o@) =~= manifest_of(
            namespace@,
            opt_str(node),
            image@,
            script@,
        )->Object_0);
    }
    r
}

/// What one line of the output says, if it says anything.
pub open spec fn result_of_line(l: Seq<char>) -> Seq<ResultView> {
    if scan::starts_with(l, "R|"@) {
        let f = split::split_max(l.skip(2), '|', 5);
        if f.len() == 5 {
            seq![
                ResultView {
                    kind: f[0],
                    label: f[1],
                    target: f[2],
                    result: f[3],
                    detail: scan::trim(f[4]),
                },
            ]
        } else {
            Seq::empty()
        }
    } else {
        Seq::empty()
    }
}

/// What the first `n` lines of the output say.
pub open spec fn results_of_lines(ls: Seq<Seq<char>>, n: int) -> Seq<ResultView> {
    pick::gather(n, |i: int| result_of_line(ls[i]))
}

/// What the output of a probe says.
pub open spec fn results_of(out: Seq<char>) -> Seq<ResultView> {
    results_of_lines(split::lines(out), split::lines(out).len() as int)
}

fn read_line(l: &str) -> (r: Option<CheckResult>)
    ensures
        match r {
            Some(x) => result_of_line(l@) == seq![x@],
            None => result_of_line(l@) == Seq::<ResultView>::empty(),
        },
{
    if !begins(l, "R|") {
        return None;
    }
    proof {
        reveal_strlit("R|");
    }
    let n: usize = l.unicode_len();
    let rest: String = cut(l, 2, n);
    let f: Vec<String> = parts_max(rest.as_str(), '|', 5);
    proof {
        assert(rest@ =~= l@.skip(2));
        assert(text::strs(f@).len() == f@.len());
        assert(forall|i: int| 0 <= i < f@.len() ==> text::strs(f@)[i] == (#[trigger] f@[i])@);
    }
    if f.len() == 5 {
        Some(
            CheckResult {
                kind: f[0].clone(),
                label: f[1].clone(),
                target: f[2].clone(),
                result: f[3].clone(),
                detail: trimmed(f[4].as_str()),
            },
        )
    } else {
        None
    }
}

/// Read the output of a probe: one result for each line of the right form.
pub fn parse_output(out: &str) -> (r: Vec<CheckResult>)
    ensures
        check::result_views(r@) == results_of(out@),
{
    let ls: Vec<String> = lines_of(out);
    let ghost views = text::strs(ls@);
    let mut r: Vec<CheckResult> = Vec::new();
    let mut i: usize = 0;
    proof {
        assert(check::result_views(r@) =~= Seq::empty());
    }
    while i < ls.len()
        invariant
            i <= ls@.len(),
            views == text::strs(ls@),
            check::result_views(r@) == results_of_lines(views, i as int),
        decreases ls@.len() - i,
    {
        proof {
            assert(views[i as int] == ls@[i as int]@);
        }
        match read_line(ls[i].as_str()) {
            Some(x) => {
                let ghost was = r@;
                r.push(x);
                proof {
                    assert(check::result_views(r@) =~= check::result_views(was) + seq![x@]);
                }
            },
            None => {},
        }
        i = i + 1;
    }
    r
}

} // verus!
