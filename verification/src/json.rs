//! A JSON value held as plain data, with its mathematical model.
use serde_json::Value;
use vstd::prelude::*;

verus! {

/// The mathematical model of a JSON value: numbers are kept as their text,
/// objects as their entries in order.
pub enum Json {
    Null,
    Bool(bool),
    Number(Seq<char>),
    Str(Seq<char>),
    Array(Seq<Json>),
    Object(Seq<(Seq<char>, Json)>),
}

/// A JSON value.
#[derive(Debug, PartialEq)]
pub enum JsonValue {
    Null,
    Bool(bool),
    Number(String),
    Str(String),
    Array(Vec<JsonValue>),
    Object(Vec<(String, JsonValue)>),
}

impl View for JsonValue {
    type V = Json;

    open spec fn view(&self) -> Json {
        json_view(*self)
    }
}

/// The model of a JSON value.
pub open spec fn json_view(v: JsonValue) -> Json
    decreases v, 1nat,
{
    match v {
        JsonValue::Null => Json::Null,
        JsonValue::Bool(b) => Json::Bool(b),
        JsonValue::Number(n) => Json::Number(n@),
        JsonValue::Str(s) => Json::Str(s@),
        JsonValue::Array(a) => Json::Array(json_views(a@)),
        JsonValue::Object(o) => Json::Object(json_entries(o@)),
    }
}

/// The models of the values `s`.
pub open spec fn json_views(s: Seq<JsonValue>) -> Seq<Json>
    decreases s, 0nat,
{
    if s.len() == 0 {
        Seq::empty()
    } else {
        json_views(s.drop_last()).push(json_view(s.last()))
    }
}

/// The models of the object entries `s`.
pub open spec fn json_entries(s: Seq<(String, JsonValue)>) -> Seq<(Seq<char>, Json)>
    decreases s, 0nat,
{
    if s.len() == 0 {
        Seq::empty()
    } else {
        json_entries(s.drop_last()).push((s.last().0@, json_view(s.last().1)))
    }
}

/// The value of the last entry of `e` named `key` (a parsed object holds each
/// name once; building an object twice with one name keeps the later value).
pub open spec fn entries_get(e: Seq<(Seq<char>, Json)>, key: Seq<char>) -> Option<Json>
    decreases e.len(),
{
    if e.len() == 0 {
        None
    } else if e.last().0 == key {
        Some(e.last().1)
    } else {
        entries_get(e.drop_last(), key)
    }
}

impl Json {
    /// The member `key` of an object; `None` for a missing member or a value
    /// that is not an object (`serde_json::Value::get` with a string index).
    pub open spec fn get(self, key: Seq<char>) -> Option<Json> {
        match self {
            Json::Object(e) => entries_get(e, key),
            _ => None,
        }
    }

    /// The text of a string value (`serde_json::Value::as_str`).
    pub open spec fn as_str(self) -> Option<Seq<char>> {
        match self {
            Json::Str(s) => Some(s),
            _ => None,
        }
    }

    /// The member `key` of an object if it is a string.
    pub open spec fn get_str(self, key: Seq<char>) -> Option<Seq<char>> {
        match self.get(key) {
            Some(v) => v.as_str(),
            None => None,
        }
    }
}

/// The JSON string holding `s`.
pub open spec fn jstr(s: Seq<char>) -> Json {
    Json::Str(s)
}

/// Facts about the model of a sequence of values.
pub proof fn lemma_json_views(s: Seq<JsonValue>)
    ensures
        json_views(s).len() == s.len(),
        forall|i: int| 0 <= i < s.len() ==> #[trigger] json_views(s)[i] == json_view(s[i]),
    decreases s.len(),
{
    if s.len() > 0 {
        lemma_json_views(s.drop_last());
    }
}

/// Facts about the model of a sequence of object entries.
pub proof fn lemma_json_entries(s: Seq<(String, JsonValue)>)
    ensures
        json_entries(s).len() == s.len(),
        forall|i: int|
            0 <= i < s.len() ==> #[trigger] json_entries(s)[i] == (s[i].0@, json_view(s[i].1)),
    decreases s.len(),
{
    if s.len() > 0 {
        lemma_json_entries(s.drop_last());
    }
}

/// The model of the values `s` pushed one after another.
pub proof fn lemma_json_views_push(s: Seq<JsonValue>, v: JsonValue)
    ensures
        json_views(s.push(v)) == json_views(s).push(json_view(v)),
{
    assert(s.push(v).drop_last() =~= s);
}

/// The model of the entries `s` pushed one after another.
pub proof fn lemma_json_entries_push(s: Seq<(String, JsonValue)>, e: (String, JsonValue))
    ensures
        json_entries(s.push(e)) == json_entries(s).push((e.0@, json_view(e.1))),
{
    assert(s.push(e).drop_last() =~= s);
}

impl JsonValue {
    /// The member `key` of an object (`None` when this is no object or has no
    /// such member).
    pub fn get(&self, key: &str) -> (r: Option<&JsonValue>)
        ensures
            match r {
                Some(v) => self@.get(key@) == Some(v@),
                None => self@.get(key@) is None,
            },
    {
        match self {
            JsonValue::Object(o) => {
                let ghost es = json_entries(o@);
                proof {
                    lemma_json_entries(o@);
                }
                let mut i: usize = o.len();
                assert(es.take(i as int) =~= es);
                assert(self@ == Json::Object(es));
                while i > 0
                    invariant
                        i <= o@.len(),
                        es == json_entries(o@),
                        self@ == Json::Object(es),
                        es.len() == o@.len(),
                        forall|k: int| 0 <= k < o@.len() ==> #[trigger] es[k] == (o@[k].0@, json_view(o@[k].1)),
                        entries_get(es, key@) == entries_get(es.take(i as int), key@),
                    decreases i,
                {
                    let ghost t = es.take(i as int);
                    assert(t.last() == es[i - 1]);
                    assert(t.drop_last() =~= es.take(i - 1));
                    if crate::text::str_eq(o[i - 1].0.as_str(), key) {
                        assert(entries_get(t, key@) == Some(json_view(o@[i - 1].1)));
                        assert(self@ == Json::Object(es));
                        assert(self@.get(key@) == Some(o@[i - 1].1@));
                        return Some(&o[i - 1].1);
                    }
                    i = i - 1;
                }
                None
            },
            _ => None,
        }
    }

    /// The text of a string value.
    pub fn as_str(&self) -> (r: Option<&str>)
        ensures
            match r {
                Some(s) => self@.as_str() == Some(s@),
                None => self@.as_str() is None,
            },
    {
        match self {
            JsonValue::Str(s) => Some(s.as_str()),
            _ => None,
        }
    }

    /// The member `key` of an object when it is a string.
    pub fn get_str(&self, key: &str) -> (r: Option<&str>)
        ensures
            match r {
                Some(s) => self@.get_str(key@) == Some(s@),
                None => self@.get_str(key@) is None,
            },
    {
        match self.get(key) {
            Some(v) => v.as_str(),
            None => None,
        }
    }

    /// Whether this value is an object.
    pub fn is_object(&self) -> (r: bool)
        ensures
            r == (self@ is Object),
    {
        match self {
            JsonValue::Object(_) => true,
            _ => false,
        }
    }

    /// A string value holding a copy of `s`.
    pub fn from_str(s: &str) -> (r: JsonValue)
        ensures
            r@ == Json::Str(s@),
    {
        JsonValue::Str(crate::text::owned(s))
    }
}

/// A deep copy of `v`.
pub fn clone_json(v: &JsonValue) -> (r: JsonValue)
    ensures
        r@ == v@,
    decreases v,
{
    match v {
        JsonValue::Null => JsonValue::Null,
        JsonValue::Bool(b) => JsonValue::Bool(*b),
        JsonValue::Number(n) => JsonValue::Number(crate::text::owned(n.as_str())),
        JsonValue::Str(s) => JsonValue::Str(crate::text::owned(s.as_str())),
        JsonValue::Array(a) => {
            let mut out: Vec<JsonValue> = Vec::new();
            let mut i: usize = 0;
            while i < a.len()
                invariant
                    *v == JsonValue::Array(*a),
                    i <= a@.len(),
                    json_views(out@) == json_views(a@.take(i as int)),
                decreases a@.len() - i,
            {
                assert(decreases_to!(*v => v->Array_0));
                assert(decreases_to!(v->Array_0 => v->Array_0@));
                assert(decreases_to!(v->Array_0@ => a@[i as int]));
                assert(decreases_to!(*v => a@[i as int]));
                let c = clone_json(&a[i]);
                proof {
                    lemma_json_views_push(out@, c);
                    lemma_json_views_push(a@.take(i as int), a@[i as int]);
                    assert(a@.take(i + 1 as int) =~= a@.take(i as int).push(a@[i as int]));
                }
                out.push(c);
                i = i + 1;
            }
            assert(a@.take(i as int) =~= a@);
            JsonValue::Array(out)
        },
        JsonValue::Object(o) => {
            let mut out: Vec<(String, JsonValue)> = Vec::new();
            let mut i: usize = 0;
            while i < o.len()
                invariant
                    *v == JsonValue::Object(*o),
                    i <= o@.len(),
                    json_entries(out@) == json_entries(o@.take(i as int)),
                decreases o@.len() - i,
            {
                assert(decreases_to!(*v => v->Object_0));
                assert(decreases_to!(v->Object_0 => v->Object_0@));
                assert(decreases_to!(o@ => o@[i as int]));
                assert(decreases_to!(o@[i as int] => o@[i as int].1));
                assert(decreases_to!(*v => o@[i as int].1));
                let k = crate::text::owned(o[i].0.as_str());
                let c = clone_json(&o[i].1);
                proof {
                    lemma_json_entries_push(out@, (k, c));
                    lemma_json_entries_push(o@.take(i as int), o@[i as int]);
                    assert(o@.take(i + 1 as int) =~= o@.take(i as int).push(o@[i as int]));
                }
                out.push((k, c));
                i = i + 1;
            }
            assert(o@.take(i as int) =~= o@);
            JsonValue::Object(out)
        },
    }
}

/// The JSON text `text` parsed by `serde_json` into a value, or the message
/// of the error `serde_json` reports for it.
pub uninterp spec fn parse_json_text(text: Seq<char>) -> Result<Json, Seq<char>>;

/// The compact JSON text that `serde_json` writes for a value.
pub uninterp spec fn render_json_text(v: Json) -> Seq<char>;

/// Parses `text` as JSON with `serde_json::from_str` and converts the value
/// one for one (numbers keep their text); on rejection, the error's message.
/// Nested values are converted by parsing the text that `serde_json` writes
/// for them, which gives the same value back.
#[verifier::external_body]
pub(crate) fn parse_json(text: &str) -> (r: Result<JsonValue, String>)
    ensures
        match r {
            Ok(v) => parse_json_text(text@) == Ok::<Json, Seq<char>>(v@),
            Err(e) => parse_json_text(text@) == Err::<Json, Seq<char>>(e@),
        },
{
    let conv = |x: &Value| parse_json(&x.to_string()).unwrap_or(JsonValue::Null);
    match serde_json::from_str::<Value>(text).map_err(|e| e.to_string())? {
        Value::Null => Ok(JsonValue::Null),
        Value::Bool(b) => Ok(JsonValue::Bool(b)),
        Value::Number(n) => Ok(JsonValue::Number(n.to_string())),
        Value::String(s) => Ok(JsonValue::Str(s)),
        Value::Array(a) => Ok(JsonValue::Array(a.iter().map(conv).collect())),
        Value::Object(o) => Ok(
            JsonValue::Object(o.iter().map(|(k, x)| (k.clone(), conv(x))).collect()),
        ),
    }
}

/// Writes `v` as compact JSON text with `serde_json::to_string` after
/// converting it one for one into a `serde_json::Value` (a number is read
/// back from its text; nested values are converted through their text).
#[verifier::external_body]
pub(crate) fn render_json(v: &JsonValue) -> (r: String)
    ensures
        r@ == render_json_text(v@),
{
    let back = |x: &JsonValue| serde_json::from_str(&render_json(x)).unwrap_or(Value::Null);
    match v {
        JsonValue::Null => Value::Null,
        JsonValue::Bool(b) => Value::Bool(*b),
        JsonValue::Number(n) => serde_json::from_str(n).unwrap_or(Value::Null),
        JsonValue::Str(s) => Value::String(s.clone()),
        JsonValue::Array(a) => Value::Array(a.iter().map(back).collect()),
        JsonValue::Object(o) => Value::Object(o.iter().map(|(k, x)| (k.clone(), back(x))).collect()),
    }.to_string()
}

} // verus!
