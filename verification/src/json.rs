//! JSON as plain data.

use crate::pick;
use crate::text;
use crate::text::same;
use vstd::prelude::*;

verus! {

/// A JSON value. The fields of an object have an order; those of one that was
/// read come by their keys in rising order.
#[derive(Debug)]
pub enum Json {
    Null,
    Bool(bool),
    Int(i64),
    /// A number that is not a signed 64-bit integer, as text.
    Decimal(String),
    Text(String),
    List(Vec<Json>),
    Object(Vec<(String, Json)>),
}

/// What a JSON value holds.
pub enum JsonView {
    Null,
    Bool(bool),
    Int(int),
    Decimal(Seq<char>),
    Text(Seq<char>),
    List(Seq<JsonView>),
    Object(Seq<(Seq<char>, JsonView)>),
}

/// What a JSON value holds.
pub open spec fn content(j: Json) -> JsonView
    decreases j,
{
    match j {
        Json::Null => JsonView::Null,
        Json::Bool(b) => JsonView::Bool(b),
        Json::Int(n) => JsonView::Int(n as int),
        Json::Decimal(s) => JsonView::Decimal(s@),
        Json::Text(s) => JsonView::Text(s@),
        Json::List(v) => JsonView::List(items(v@)),
        Json::Object(v) => JsonView::Object(fields(v@)),
    }
}

/// What the values of a list hold.
pub open spec fn items(s: Seq<Json>) -> Seq<JsonView>
    decreases s,
{
    if s.len() == 0 {
        Seq::empty()
    } else {
        items(s.drop_last()).push(content(s.last()))
    }
}

/// What the fields of an object hold.
pub open spec fn fields(s: Seq<(String, Json)>) -> Seq<(Seq<char>, JsonView)>
    decreases s,
{
    if s.len() == 0 {
        Seq::empty()
    } else {
        fields(s.drop_last()).push((s.last().0@, content(s.last().1)))
    }
}

impl View for Json {
    type V = JsonView;

    open spec fn view(&self) -> JsonView {
        content(*self)
    }
}

/// Adding a value adds what it holds.
proof fn lemma_items_push(s: Seq<Json>, j: Json)
    ensures
        items(s.push(j)) == items(s).push(content(j)),
{
    assert(s.push(j).drop_last() =~= s);
}

/// The values of a list one by one.
pub proof fn lemma_items(s: Seq<Json>)
    ensures
        items(s).len() == s.len(),
        forall|i: int| 0 <= i < s.len() ==> items(s)[i] == #[trigger] content(s[i]),
    decreases s.len(),
{
    if s.len() > 0 {
        lemma_items(s.drop_last());
        assert forall|i: int| 0 <= i < s.len() implies items(s)[i] == #[trigger] content(s[i]) by {
            if i < s.len() - 1 {
                assert(s.drop_last()[i] == s[i]);
                assert(items(s.drop_last())[i] == content(s.drop_last()[i]));
            }
        }
    }
}

/// The fields of an object one by one.
pub proof fn lemma_fields(s: Seq<(String, Json)>)
    ensures
        fields(s).len() == s.len(),
        forall|i: int|
            0 <= i < s.len() ==> #[trigger] fields(s)[i] == (s[i].0@, content(s[i].1)),
    decreases s.len(),
{
    if s.len() > 0 {
        lemma_fields(s.drop_last());
        assert forall|i: int| 0 <= i < s.len() implies #[trigger] fields(s)[i] == (
            s[i].0@,
            content(s[i].1),
        ) by {
            if i < s.len() - 1 {
                assert(s.drop_last()[i] == s[i]);
                assert(fields(s.drop_last())[i] == (
                    s.drop_last()[i].0@,
                    content(s.drop_last()[i].1),
                ));
            }
        }
    }
}

/// A text as JSON.
pub fn string(s: &str) -> (r: Json)
    ensures
        r@ == JsonView::Text(s@),
{
    Json::Text(s.to_owned())
}

/// A list with one value.
pub fn list1(a: Json) -> (r: Json)
    ensures
        r@ == JsonView::List(seq![a@]),
{
    let mut v: Vec<Json> = Vec::new();
    v.push(a);
    proof {
        lemma_items_push(Seq::empty(), a);
        assert(v@ =~= Seq::<Json>::empty().push(a));
        assert(items(Seq::<Json>::empty()) =~= Seq::empty());
    }
    Json::List(v)
}

/// A list with three values.
pub fn list3(a: Json, b: Json, c: Json) -> (r: Json)
    ensures
        r@ == JsonView::List(seq![a@, b@, c@]),
{
    let mut v: Vec<Json> = Vec::new();
    v.push(a);
    v.push(b);
    v.push(c);
    proof {
        let e = Seq::<Json>::empty();
        lemma_items_push(e, a);
        lemma_items_push(e.push(a), b);
        lemma_items_push(e.push(a).push(b), c);
        assert(v@ =~= e.push(a).push(b).push(c));
        assert(items(e) =~= Seq::empty());
        assert(items(v@) =~= seq![a@, b@, c@]);
    }
    Json::List(v)
}

/// An object without fields.
pub fn no_fields() -> (r: Vec<(String, Json)>)
    ensures
        fields(r@) == Seq::<(Seq<char>, JsonView)>::empty(),
{
    let r: Vec<(String, Json)> = Vec::new();
    proof {
        assert(fields(r@) =~= Seq::empty());
    }
    r
}

/// Add a field to an object.
pub fn put(o: &mut Vec<(String, Json)>, k: &str, v: Json)
    ensures
        fields(final(o)@) == fields(old(o)@).push((k@, v@)),
{
    let ghost was = o@;
    o.push((k.to_owned(), v));
    proof {
        assert(o@.drop_last() =~= was);
    }
}

/// The object with these fields.
pub fn object(o: Vec<(String, Json)>) -> (r: Json)
    ensures
        r@ == JsonView::Object(fields(o@)),
{
    Json::Object(o)
}

/// The object with one field.
pub fn object1(k: &str, v: Json) -> (r: Json)
    ensures
        r@ == JsonView::Object(seq![(k@, v@)]),
{
    let mut o: Vec<(String, Json)> = no_fields();
    put(&mut o, k, v);
    object(o)
}

/// The object with two fields.
pub fn object2(k: &str, v: Json, l: &str, w: Json) -> (r: Json)
    ensures
        r@ == JsonView::Object(seq![(k@, v@), (l@, w@)]),
{
    let mut o: Vec<(String, Json)> = no_fields();
    put(&mut o, k, v);
    put(&mut o, l, w);
    proof {
        assert(fields(o@) =~= seq![(k@, v@), (l@, w@)]);
    }
    object(o)
}

/// Is it the field of this key?
pub open spec fn is_key(f: (Seq<char>, JsonView), k: Seq<char>) -> bool {
    f.0 == k
}

/// The field of an object under a key: the first, where there are several.
pub open spec fn field(j: JsonView, k: Seq<char>) -> Option<JsonView> {
    match j {
        JsonView::Object(s) => match pick::first(s.len() as int, |i: int| is_key(s[i], k)) {
            Some(i) => Some(s[i].1),
            None => None,
        },
        _ => None,
    }
}

/// The field at an index, where no field before it has its key.
pub proof fn lemma_field(s: Seq<(Seq<char>, JsonView)>, i: int)
    requires
        0 <= i < s.len(),
        forall|j: int| 0 <= j < i ==> (#[trigger] s[j]).0 != s[i].0,
    ensures
        field(JsonView::Object(s), s[i].0) == Some(s[i].1),
        index(JsonView::Object(s), s[i].0) == s[i].1,
{
    let q = |j: int| is_key(s[j], s[i].0);
    pick::lemma_first(s.len() as int, q);
    assert(q(i));
    let m = pick::first(s.len() as int, q)->0;
    if m < i {
        assert(q(m));
    }
}

impl Json {
    /// Look up a field of an object.
    pub fn get(&self, k: &str) -> (r: Option<&Json>)
        ensures
            match r {
                Some(v) => field(self@, k@) == Some(v@),
                None => field(self@, k@) is None,
            },
    {
        match self {
            Json::Object(v) => {
                let ghost s = fields(v@);
                let ghost p = |i: int| is_key(s[i], k@);
                proof {
                    lemma_fields(v@);
                }
                let mut r: Option<&Json> = None;
                let mut i: usize = 0;
                while i < v.len()
                    invariant
                        i <= v@.len(),
                        s == fields(v@),
                        s.len() == v@.len(),
                        forall|j: int|
                            0 <= j < v@.len() ==> #[trigger] s[j] == (v@[j].0@, content(v@[j].1)),
                        p == (|i: int| is_key(s[i], k@)),
                        match r {
                            Some(x) => pick::first(i as int, p) matches Some(m) && 0 <= m < i
                                && s[m].1 == x@,
                            None => pick::first(i as int, p) is None,
                        },
                    decreases v@.len() - i,
                {
                    proof {
                        assert(s[i as int] == (v@[i as int].0@, content(v@[i as int].1)));
                    }
                    if r.is_none() && same(v[i].0.as_str(), k) {
                        r = Some(&v[i].1);
                    }
                    i = i + 1;
                }
                r
            },
            _ => None,
        }
    }

    /// A copy of the value.
    pub fn copy(&self) -> (r: Json)
        ensures
            r@ == self@,
        decreases self,
    {
        match self {
            Json::Null => Json::Null,
            Json::Bool(b) => Json::Bool(*b),
            Json::Int(n) => Json::Int(*n),
            Json::Decimal(s) => Json::Decimal(s.clone()),
            Json::Text(s) => Json::Text(s.clone()),
            Json::List(v) => {
                let mut out: Vec<Json> = Vec::new();
                let mut i: usize = 0;
                proof {
                    assert(v@.take(0) =~= Seq::empty());
                    assert(out@ =~= Seq::empty());
                }
                while i < v.len()
                    invariant
                        i <= v@.len(),
                        self matches Json::List(w) && w == v,
                        items(out@) == items(v@.take(i as int)),
                    decreases v@.len() - i,
                {
                    let ghost was = out@;
                    let j: Json = v[i].copy();
                    proof {
                        lemma_items_push(was, j);
                        lemma_items_push(v@.take(i as int), v@[i as int]);
                        assert(v@.take(i as int).push(v@[i as int]) =~= v@.take(i + 1));
                    }
                    out.push(j);
                    i = i + 1;
                }
                proof {
                    assert(v@.take(i as int) =~= v@);
                }
                Json::List(out)
            },
            Json::Object(v) => {
                let mut out: Vec<(String, Json)> = no_fields();
                let mut i: usize = 0;
                proof {
                    assert(v@.take(0) =~= Seq::empty());
                    assert(fields(v@.take(0)) =~= Seq::empty());
                }
                while i < v.len()
                    invariant
                        i <= v@.len(),
                        self matches Json::Object(w) && w == v,
                        fields(out@) == fields(v@.take(i as int)),
                    decreases v@.len() - i,
                {
                    let j: Json = v[i].1.copy();
                    proof {
                        assert(v@.take(i + 1).drop_last() =~= v@.take(i as int));
                    }
                    put(&mut out, v[i].0.as_str(), j);
                    i = i + 1;
                }
                proof {
                    assert(v@.take(i as int) =~= v@);
                }
                Json::Object(out)
            },
        }
    }
}

/// What reading JSON gave: a value, or what is wrong.
pub open spec fn outcome(r: Result<Json, String>) -> Result<JsonView, Seq<char>> {
    match r {
        Ok(j) => Ok(j@),
        Err(e) => Err(e@),
    }
}

/// `serde_json::Value`, the outside form of a JSON value.
#[verifier::external_type_specification]
#[verifier::external_body]
pub struct OutsideValue(serde_json::Value);

/// What `serde_json` reads in the given bytes: the value they hold, or its
/// message about what is wrong with them.
pub uninterp spec fn parsed(bytes: Seq<u8>) -> Result<JsonView, Seq<char>>;

/// Calls `serde_json::from_slice` for a `serde_json::Value` and moves the value
/// into this module's own type; an error becomes its message. The result
/// depends on the bytes alone and is named `parsed`.
#[verifier::external_body]
pub(crate) fn parse_json(bytes: &Vec<u8>) -> (r: Result<Json, String>)
    ensures
        outcome(r) == parsed(bytes@),
{
    match serde_json::from_slice::<serde_json::Value>(bytes) {
        Ok(v) => Ok(to_json(v)),
        Err(e) => Err(e.to_string()),
    }
}

/// Moves a `serde_json::Value` into this module's own type, variant by variant.
/// Nothing is claimed of the result here; `parse_json` names it.
#[verifier::external_body]
fn to_json(v: serde_json::Value) -> (r: Json) {
    match v {
        serde_json::Value::Null => Json::Null,
        serde_json::Value::Bool(b) => Json::Bool(b),
        serde_json::Value::Number(n) => n.as_i64().map_or(Json::Decimal(n.to_string()), Json::Int),
        serde_json::Value::String(s) => Json::Text(s),
        serde_json::Value::Array(a) => Json::List(a.into_iter().map(to_json).collect()),
        serde_json::Value::Object(o) => {
            Json::Object(o.into_iter().map(|(k, v)| (k, to_json(v))).collect())
        },
    }
}

/// The field under a key; what is not there is null.
pub open spec fn index(j: JsonView, k: Seq<char>) -> JsonView {
    match field(j, k) {
        Some(v) => v,
        None => JsonView::Null,
    }
}

/// The text that a value is.
pub open spec fn as_text(j: JsonView) -> Option<Seq<char>> {
    match j {
        JsonView::Text(s) => Some(s),
        _ => None,
    }
}

/// The integer that a value is.
pub open spec fn as_int(j: JsonView) -> Option<int> {
    match j {
        JsonView::Int(n) => Some(n),
        _ => None,
    }
}

/// The list that a value is; what is no list is an empty one.
pub open spec fn as_list(j: JsonView) -> Seq<JsonView> {
    match j {
        JsonView::List(s) => s,
        _ => Seq::empty(),
    }
}

impl Json {
    /// The text under a key.
    pub fn text_at(&self, k: &str) -> (r: Option<String>)
        ensures
            text::opt(r) == as_text(index(self@, k@)),
    {
        match self.get(k) {
            Some(Json::Text(s)) => Some(s.clone()),
            _ => None,
        }
    }

    /// The text under a key of the object under a key.
    pub fn text_in(&self, k: &str, l: &str) -> (r: Option<String>)
        ensures
            text::opt(r) == as_text(index(index(self@, k@), l@)),
    {
        match self.get(k) {
            Some(j) => j.text_at(l),
            None => None,
        }
    }

    /// The integer under a key.
    pub fn int_at(&self, k: &str) -> (r: Option<i64>)
        ensures
            match r {
                Some(n) => as_int(index(self@, k@)) == Some(n as int),
                None => as_int(index(self@, k@)) is None,
            },
    {
        match self.get(k) {
            Some(Json::Int(n)) => Some(*n),
            _ => None,
        }
    }

    /// The integer under a key of the object under a key.
    pub fn int_in(&self, k: &str, l: &str) -> (r: Option<i64>)
        ensures
            match r {
                Some(n) => as_int(index(index(self@, k@), l@)) == Some(n as int),
                None => as_int(index(index(self@, k@), l@)) is None,
            },
    {
        match self.get(k) {
            Some(j) => j.int_at(l),
            None => None,
        }
    }

    /// The list under a key.
    pub fn list_at(&self, k: &str) -> (r: Option<&Vec<Json>>)
        ensures
            match r {
                Some(v) => as_list(index(self@, k@)) == items(v@),
                None => as_list(index(self@, k@)) == Seq::<JsonView>::empty(),
            },
    {
        match self.get(k) {
            Some(Json::List(v)) => Some(v),
            _ => None,
        }
    }
}

} // verus!
