//! A plain model of JSON values, read and written through `serde_json`.

use vstd::prelude::*;

verus! {

broadcast use vstd::std_specs::vec::group_vec_axioms;

/// A JSON value. Numbers keep their textual form; an object keeps its members
/// in order, each key at most once.
#[derive(Debug)]
pub enum JsonValue {
    Null,
    Bool(bool),
    Number(String),
    Str(String),
    Array(Vec<JsonValue>),
    Object(Vec<(String, JsonValue)>),
}

/// The mathematical form of a JSON value.
pub enum Json {
    Null,
    Bool(bool),
    Number(Seq<char>),
    Str(Seq<char>),
    Array(Seq<Json>),
    Object(Seq<(Seq<char>, Json)>),
}

/// The mathematical form of each value of `s`.
pub open spec fn json_views(s: Seq<JsonValue>) -> Seq<Json>
    decreases s,
{
    if s.len() == 0 {
        Seq::empty()
    } else {
        json_views(s.drop_last()).push(json_view(s.last()))
    }
}

/// The mathematical form of each member of `s`.
pub open spec fn member_views(s: Seq<(String, JsonValue)>) -> Seq<(Seq<char>, Json)>
    decreases s,
{
    if s.len() == 0 {
        Seq::empty()
    } else {
        member_views(s.drop_last()).push((s.last().0@, json_view(s.last().1)))
    }
}

/// The mathematical form of a value.
pub open spec fn json_view(v: JsonValue) -> Json
    decreases v,
{
    match v {
        JsonValue::Null => Json::Null,
        JsonValue::Bool(b) => Json::Bool(b),
        JsonValue::Number(n) => Json::Number(n@),
        JsonValue::Str(s) => Json::Str(s@),
        JsonValue::Array(items) => Json::Array(json_views(items@)),
        JsonValue::Object(pairs) => Json::Object(member_views(pairs@)),
    }
}

impl View for JsonValue {
    type V = Json;

    open spec fn view(&self) -> Json {
        json_view(*self)
    }
}

/// The JSON value type of `serde_json`, carried opaquely.
#[verifier::external_type_specification]
#[verifier::external_body]
pub struct ExSerdeValue(serde_json::Value);

/// What `serde_json::from_str::<serde_json::Value>` yields for a text (`None`
/// when the text is not JSON).
pub uninterp spec fn json_parse(text: Seq<char>) -> Option<Json>;

/// The text `serde_json::to_string` writes for a value.
pub uninterp spec fn json_text(v: Json) -> Seq<char>;

/// Converts a `serde_json::Value` into a `JsonValue`, member by member.
#[verifier::external_body]
fn from_serde(v: &serde_json::Value) -> JsonValue {
    match v {
        serde_json::Value::Null => JsonValue::Null,
        serde_json::Value::Bool(b) => JsonValue::Bool(*b),
        serde_json::Value::Number(n) => JsonValue::Number(n.to_string()),
        serde_json::Value::String(s) => JsonValue::Str(s.clone()),
        serde_json::Value::Array(a) => JsonValue::Array(a.iter().map(from_serde).collect()),
        serde_json::Value::Object(m) => JsonValue::Object(
            m.iter().map(|(k, x)| (k.clone(), from_serde(x))).collect(),
        ),
    }
}

/// Converts a `JsonValue` into a `serde_json::Value`, member by member.
#[verifier::external_body]
pub(crate) fn to_serde_value(v: &JsonValue) -> serde_json::Value {
    match v {
        JsonValue::Null => serde_json::Value::Null,
        JsonValue::Bool(b) => serde_json::Value::Bool(*b),
        JsonValue::Number(n) => n.parse().map(serde_json::Value::Number).unwrap_or(serde_json::Value::Null),
        JsonValue::Str(s) => serde_json::Value::String(s.clone()),
        JsonValue::Array(a) => serde_json::Value::Array(a.iter().map(to_serde_value).collect()),
        JsonValue::Object(m) => serde_json::Value::Object(
            m.iter().map(|(k, x)| (k.clone(), to_serde_value(x))).collect(),
        ),
    }
}

/// Calls `serde_json::from_str::<serde_json::Value>` on `text`; the value it
/// yields is named `json_parse` and not spelled out here.
#[verifier::external_body]
pub(crate) fn parse_json(text: &str) -> (r: Option<JsonValue>)
    ensures
        match r {
            Some(v) => json_parse(text@) == Some(v@),
            None => json_parse(text@) is None,
        },
{
    serde_json::from_str::<serde_json::Value>(text).ok().map(|v| from_serde(&v))
}

/// Calls `serde_json::to_string` on the value (an empty text if it fails, as
/// `unwrap_or_default` gives); the text is named `json_text` and not spelled out.
#[verifier::external_body]
pub(crate) fn to_json_text(v: &JsonValue) -> (r: String)
    ensures
        r@ == json_text(v@),
{
    serde_json::to_string(&to_serde_value(v)).unwrap_or_default()
}

/// The member `key` of an object (the first, should it occur twice).
pub open spec fn member(pairs: Seq<(Seq<char>, Json)>, key: Seq<char>) -> Option<Json>
    decreases pairs.len(),
{
    if pairs.len() == 0 {
        None
    } else if pairs[0].0 == key {
        Some(pairs[0].1)
    } else {
        member(pairs.drop_first(), key)
    }
}

/// `v[key]` for an object, `None` otherwise (`Value::get` with a key).
pub open spec fn get_key(v: Json, key: Seq<char>) -> Option<Json> {
    match v {
        Json::Object(pairs) => member(pairs, key),
        _ => None,
    }
}

/// `v[i]` for an array, `None` otherwise (`Value::get` with an index).
pub open spec fn get_index(v: Json, i: int) -> Option<Json> {
    match v {
        Json::Array(items) => if 0 <= i < items.len() {
            Some(items[i])
        } else {
            None
        },
        _ => None,
    }
}

/// The text of a string value (`Value::as_str`).
pub open spec fn as_text(v: Option<Json>) -> Option<Seq<char>> {
    match v {
        Some(Json::Str(s)) => Some(s),
        _ => None,
    }
}

/// `v[key]` on an optional value.
pub open spec fn opt_key(v: Option<Json>, key: Seq<char>) -> Option<Json> {
    match v {
        Some(x) => get_key(x, key),
        None => None,
    }
}

/// `v[i]` on an optional value.
pub open spec fn opt_index(v: Option<Json>, i: int) -> Option<Json> {
    match v {
        Some(x) => get_index(x, i),
        None => None,
    }
}

pub proof fn lemma_json_views(s: Seq<JsonValue>)
    ensures
        json_views(s).len() == s.len(),
        forall|i: int| 0 <= i < s.len() ==> #[trigger] json_views(s)[i] == s[i]@,
    decreases s.len(),
{
    if s.len() > 0 {
        lemma_json_views(s.drop_last());
    }
}

pub proof fn lemma_member_views(s: Seq<(String, JsonValue)>)
    ensures
        member_views(s).len() == s.len(),
        forall|i: int| 0 <= i < s.len() ==> #[trigger] member_views(s)[i] == (s[i].0@, s[i].1@),
    decreases s.len(),
{
    if s.len() > 0 {
        lemma_member_views(s.drop_last());
    }
}

fn member_exec<'a>(pairs: &'a Vec<(String, JsonValue)>, key: &str) -> (r: Option<&'a JsonValue>)
    ensures
        match member(member_views(pairs@), key@) {
            Some(x) => r is Some && r->0@ == x,
            None => r is None,
        },
{
    let ghost mv = member_views(pairs@);
    proof {
        lemma_member_views(pairs@);
    }
    let mut i: usize = 0;
    assert(mv.skip(0) =~= mv);
    while i < pairs.len()
        invariant
            i <= pairs.len(),
            mv == member_views(pairs@),
            mv.len() == pairs@.len(),
            forall|j: int| 0 <= j < pairs@.len() ==> #[trigger] mv[j] == (pairs@[j].0@, pairs@[j].1@),
            member(mv.skip(i as int), key@) == member(mv, key@),
        decreases pairs.len() - i,
    {
        assert(mv.skip(i as int)[0] == mv[i as int]);
        assert(mv.skip(i as int).drop_first() =~= mv.skip(i + 1));
        if crate::text::str_eq(pairs[i].0.as_str(), key) {
            return Some(&pairs[i].1);
        }
        i += 1;
    }
    None
}

impl JsonValue {
    /// `self[key]` (see `get_key`).
    pub fn get(&self, key: &str) -> (r: Option<&JsonValue>)
        ensures
            match get_key(self@, key@) {
                Some(x) => r is Some && r->0@ == x,
                None => r is None,
            },
    {
        match self {
            JsonValue::Object(pairs) => member_exec(pairs, key),
            _ => None,
        }
    }

    /// `self[i]` (see `get_index`).
    pub fn at(&self, i: usize) -> (r: Option<&JsonValue>)
        ensures
            match get_index(self@, i as int) {
                Some(x) => r is Some && r->0@ == x,
                None => r is None,
            },
    {
        match self {
            JsonValue::Array(items) => {
                proof {
                    lemma_json_views(items@);
                }
                if i < items.len() {
                    Some(&items[i])
                } else {
                    None
                }
            },
            _ => None,
        }
    }

    /// The number of items of an array (`None` for other values).
    pub fn array_len(&self) -> (r: Option<usize>)
        ensures
            match self@ {
                Json::Array(items) => r is Some && r->0 == items.len(),
                _ => r is None,
            },
    {
        match self {
            JsonValue::Array(items) => {
                proof {
                    lemma_json_views(items@);
                }
                Some(items.len())
            },
            _ => None,
        }
    }

    /// The text of a string value.
    pub fn as_str(&self) -> (r: Option<&str>)
        ensures
            match self@ {
                Json::Str(s) => r is Some && r->0@ == s,
                _ => r is None,
            },
    {
        match self {
            JsonValue::Str(s) => Some(s.as_str()),
            _ => None,
        }
    }

    /// A deep copy.
    pub fn duplicate(&self) -> (r: Self)
        ensures
            r@ == self@,
        decreases self,
    {
        match self {
            JsonValue::Null => JsonValue::Null,
            JsonValue::Bool(b) => JsonValue::Bool(*b),
            JsonValue::Number(n) => JsonValue::Number(n.clone()),
            JsonValue::Str(s) => JsonValue::Str(s.clone()),
            JsonValue::Array(items) => {
                let mut v: Vec<JsonValue> = Vec::new();
                let mut i: usize = 0;
                while i < items.len()
                    invariant
                        i <= items.len(),
                        v.len() == i,
                        *self == JsonValue::Array(*items),
                        json_views(v@) == json_views(items@.take(i as int)),
                    decreases items.len() - i,
                {
                    assert(decreases_to!(*self => self->Array_0));
                    assert(decreases_to!(self->Array_0 => self->Array_0[i as int]));
                    assert(decreases_to!(*self => items[i as int]));
                    let x = items[i].duplicate();
                    let ghost old_v = v@;
                    let ghost xv = x;
                    v.push(x);
                    assert(v@.drop_last() =~= old_v);
                    assert(v@.last() == xv);
                    assert(items@.take(i + 1).last() == items@[i as int]);
                    assert(items@.take(i + 1).drop_last() =~= items@.take(i as int));
                    assert(v@.drop_last() =~= v@.take(i as int));
                    assert(v@.take(i as int) =~= v@.drop_last());
                    assert(json_views(v@) == json_views(v@.drop_last()).push(json_view(v@.last())));
                    assert(json_views(items@.take(i + 1)) == json_views(items@.take(i + 1).drop_last()).push(json_view(items@.take(i + 1).last())));
                    i += 1;
                }
                assert(items@.take(items@.len() as int) =~= items@);
                JsonValue::Array(v)
            },
            JsonValue::Object(pairs) => {
                let mut v: Vec<(String, JsonValue)> = Vec::new();
                let mut i: usize = 0;
                while i < pairs.len()
                    invariant
                        i <= pairs.len(),
                        v.len() == i,
                        *self == JsonValue::Object(*pairs),
                        member_views(v@) == member_views(pairs@.take(i as int)),
                    decreases pairs.len() - i,
                {
                    assert(decreases_to!(*self => self->Object_0));
                    assert(decreases_to!(self->Object_0 => self->Object_0[i as int]));
                    assert(decreases_to!(pairs[i as int] => pairs[i as int].1));
                    assert(decreases_to!(*self => pairs[i as int].1));
                    let x = pairs[i].1.duplicate();
                    let k = pairs[i].0.clone();
                    let ghost old_v = v@;
                    let ghost xv = x;
                    v.push((k, x));
                    assert(v@.drop_last() =~= old_v);
                    assert(v@.last().1 == xv && v@.last().0@ == pairs@[i as int].0@);
                    assert(pairs@.take(i + 1).last() == pairs@[i as int]);
                    assert(pairs@.take(i + 1).drop_last() =~= pairs@.take(i as int));
                    assert(v@.drop_last() =~= v@.take(i as int));
                    assert(member_views(v@) == member_views(v@.drop_last()).push((v@.last().0@, json_view(v@.last().1))));
                    assert(member_views(pairs@.take(i + 1)) == member_views(pairs@.take(i + 1).drop_last()).push((pairs@.take(i + 1).last().0@, json_view(pairs@.take(i + 1).last().1))));
                    i += 1;
                }
                assert(pairs@.take(pairs@.len() as int) =~= pairs@);
                JsonValue::Object(v)
            },
        }
    }
}

/// A member whose value is a text.
pub fn text_member(key: &str, value: &str) -> (r: (String, JsonValue))
    ensures
        r.0@ == key@,
        r.1@ == Json::Str(value@),
{
    (key.to_owned(), JsonValue::Str(value.to_owned()))
}

} // verus!
