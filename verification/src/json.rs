//! A JSON document as plain values: what the renderers produce and what
//! the configuration reader takes apart.

use vstd::prelude::*;
use vstd::string::*;
use crate::keyed::{key_index, keyed_view, lookup};

verus! {

/// The mathematical value of a JSON document.
pub enum Json {
    Null,
    Bool(bool),
    /// A number, kept as the text that writes it.
    Number(Seq<char>),
    String(Seq<char>),
    Array(Seq<Json>),
    /// The members of an object, in order.
    Object(Seq<(Seq<char>, Json)>),
}

/// A JSON document.
#[derive(Debug, PartialEq, Eq)]
pub enum JsonValue {
    Null,
    Bool(bool),
    /// A number, kept as the text that writes it.
    Number(String),
    String(String),
    Array(Vec<JsonValue>),
    /// The members of an object, in order.
    Object(Vec<(String, JsonValue)>),
}

pub open spec fn json_view(v: JsonValue) -> Json
    decreases v,
{
    match v {
        JsonValue::Null => Json::Null,
        JsonValue::Bool(b) => Json::Bool(b),
        JsonValue::Number(n) => Json::Number(n@),
        JsonValue::String(s) => Json::String(s@),
        JsonValue::Array(items) => Json::Array(
            Seq::new(
                items.len() as nat,
                |i: int|
                    if 0 <= i < items.len() {
                        json_view(items[i])
                    } else {
                        Json::Null
                    },
            ),
        ),
        JsonValue::Object(members) => Json::Object(
            Seq::new(
                members.len() as nat,
                |i: int|
                    if 0 <= i < members.len() {
                        (members[i].0@, json_view(members[i].1))
                    } else {
                        (Seq::empty(), Json::Null)
                    },
            ),
        ),
    }
}

impl View for JsonValue {
    type V = Json;

    open spec fn view(&self) -> Json {
        json_view(*self)
    }
}

/// The views of the members of an object.
pub open spec fn members_view(m: Seq<(String, JsonValue)>) -> Seq<(Seq<char>, Json)> {
    keyed_view(m)
}

/// The views of the items of an array.
pub open spec fn items_view(m: Seq<JsonValue>) -> Seq<Json> {
    m.map_values(|e: JsonValue| json_view(e))
}

pub proof fn lemma_object_view(m: Vec<(String, JsonValue)>)
    ensures
        JsonValue::Object(m)@ == Json::Object(members_view(m@)),
{
    if let Json::Object(s) = JsonValue::Object(m)@ {
        assert(s =~= members_view(m@));
    }
}

pub proof fn lemma_array_view(m: Vec<JsonValue>)
    ensures
        JsonValue::Array(m)@ == Json::Array(items_view(m@)),
{
    if let Json::Array(s) = JsonValue::Array(m)@ {
        assert(s =~= items_view(m@));
    }
}

impl JsonValue {
    /// The members, if this is an object.
    pub fn as_object(&self) -> (r: Option<&Vec<(String, JsonValue)>>)
        ensures
            r matches Some(m) ==> self@ == Json::Object(members_view(m@)),
            r is None <==> !(self@ is Object),
    {
        match self {
            JsonValue::Object(m) => {
                proof {
                    lemma_object_view(*m);
                }
                Some(m)
            },
            _ => None,
        }
    }

    /// The items, if this is an array.
    pub fn as_array(&self) -> (r: Option<&Vec<JsonValue>>)
        ensures
            r matches Some(m) ==> self@ == Json::Array(items_view(m@)),
            r is None <==> !(self@ is Array),
    {
        match self {
            JsonValue::Array(m) => {
                proof {
                    lemma_array_view(*m);
                }
                Some(m)
            },
            _ => None,
        }
    }

    /// The text, if this is a string.
    pub fn as_str(&self) -> (r: Option<&String>)
        ensures
            r matches Some(s) ==> self@ == Json::String(s@),
            r is None <==> !(self@ is String),
    {
        match self {
            JsonValue::String(s) => Some(s),
            _ => None,
        }
    }

    pub fn is_null(&self) -> (r: bool)
        ensures
            r == (self@ is Null),
    {
        match self {
            JsonValue::Null => true,
            _ => false,
        }
    }

    /// The value of the member named `key`, if this is an object that has one.
    pub fn get(&self, key: &str) -> (r: Option<&JsonValue>)
        ensures
            r matches Some(v) ==> self@ matches Json::Object(m) && lookup(m, key@) == Some(v@),
            r is None ==> !(self@ matches Json::Object(m) && lookup(m, key@) is Some),
    {
        match self {
            JsonValue::Object(m) => {
                proof {
                    lemma_object_view(*m);
                }
                let k = String::from_str(key);
                match key_index(m, &k) {
                    Some(i) => Some(&m[i].1),
                    None => None,
                }
            },
            _ => None,
        }
    }
}

/// A copy of `v`.
pub fn json_clone(v: &JsonValue) -> (r: JsonValue)
    ensures
        r@ == v@,
    decreases v,
{
    match v {
        JsonValue::Null => JsonValue::Null,
        JsonValue::Bool(b) => JsonValue::Bool(*b),
        JsonValue::Number(n) => JsonValue::Number(n.clone()),
        JsonValue::String(s) => JsonValue::String(s.clone()),
        JsonValue::Array(items) => {
            let mut out: Vec<JsonValue> = Vec::new();
            let mut i: usize = 0;
            while i < items.len()
                invariant
                    i <= items@.len(),
                    *v == JsonValue::Array(*items),
                    out@.len() == i,
                    items_view(out@) == items_view(items@).subrange(0, i as int),
                decreases items@.len() - i,
            {
                proof {
                    vstd::std_specs::vec::axiom_vec_index_decreases(*items, i as int);
                    assert(decreases_to!(*v => (*v)->Array_0));
                }
                let c = json_clone(&items[i]);
                out.push(c);
                i = i + 1;
                assert(items_view(out@) =~= items_view(items@).subrange(0, i as int));
            }
            proof {
                lemma_array_view(out);
                lemma_array_view(*items);
                assert(items_view(items@).subrange(0, i as int) =~= items_view(items@));
            }
            JsonValue::Array(out)
        },
        JsonValue::Object(members) => {
            let mut out: Vec<(String, JsonValue)> = Vec::new();
            let mut i: usize = 0;
            while i < members.len()
                invariant
                    i <= members@.len(),
                    *v == JsonValue::Object(*members),
                    out@.len() == i,
                    members_view(out@) == members_view(members@).subrange(0, i as int),
                decreases members@.len() - i,
            {
                proof {
                    vstd::std_specs::vec::axiom_vec_index_decreases(*members, i as int);
                    assert(decreases_to!(*v => (*v)->Object_0));
                    assert(decreases_to!(members[i as int] => members[i as int].1));
                }
                let c = json_clone(&members[i].1);
                out.push((members[i].0.clone(), c));
                i = i + 1;
                assert(members_view(out@) =~= members_view(members@).subrange(0, i as int));
            }
            proof {
                lemma_object_view(out);
                lemma_object_view(*members);
                assert(members_view(members@).subrange(0, i as int) =~= members_view(members@));
            }
            JsonValue::Object(out)
        },
    }
}

/// The view of an optional document.
pub open spec fn opt_json(j: Option<JsonValue>) -> Option<Json> {
    match j {
        Some(v) => Some(v@),
        None => None,
    }
}

/// serde_json's dynamic JSON value, which the text conversions go through.
#[verifier::external_type_specification]
#[verifier::external_body]
pub struct ExSerdeValue(serde_json::Value);

/// The document that a text holds as serde_json reads it
/// (`serde_json::from_str::<serde_json::Value>`), or `None` when the text
/// is not JSON. It depends on the text alone.
pub uninterp spec fn json_of_text(text: Seq<char>) -> Option<Json>;

/// The text that serde_json prints for a document
/// (`serde_json::to_string_pretty`). It depends on the document alone.
pub uninterp spec fn pretty_text_of(doc: Json) -> Seq<char>;

/// A serde_json value as a document, member for member and item for item
/// (a number keeps the text serde_json writes for it).
#[verifier::external_body]
fn from_serde(v: serde_json::Value) -> JsonValue {
    match v {
        serde_json::Value::Null => JsonValue::Null,
        serde_json::Value::Bool(b) => JsonValue::Bool(b),
        serde_json::Value::Number(n) => JsonValue::Number(n.to_string()),
        serde_json::Value::String(s) => JsonValue::String(s),
        serde_json::Value::Array(a) => JsonValue::Array(a.into_iter().map(from_serde).collect()),
        serde_json::Value::Object(m) => JsonValue::Object(
            m.into_iter().map(|(k, v)| (k, from_serde(v))).collect(),
        ),
    }
}

/// A document as a serde_json value, member for member and item for item
/// (a number's text is read back as a serde_json number).
#[verifier::external_body]
fn to_serde(v: &JsonValue) -> serde_json::Value {
    match v {
        JsonValue::Null => serde_json::Value::Null,
        JsonValue::Bool(b) => serde_json::Value::Bool(*b),
        JsonValue::Number(t) => serde_json::from_str::<serde_json::Number>(t).map(
            serde_json::Value::Number,
        ).unwrap_or(serde_json::Value::Null),
        JsonValue::String(s) => serde_json::Value::String(s.clone()),
        JsonValue::Array(a) => serde_json::Value::Array(a.iter().map(to_serde).collect()),
        JsonValue::Object(m) => serde_json::Value::Object(
            m.iter().map(|(k, v)| (k.clone(), to_serde(v))).collect(),
        ),
    }
}

/// The document that `text` holds (`serde_json::from_str` into a
/// `serde_json::Value`), or `None` when it is not JSON; named
/// `json_of_text`.
#[verifier::external_body]
pub fn parse_json_text(text: &str) -> (r: Option<JsonValue>)
    ensures
        opt_json(r) == json_of_text(text@),
{
    serde_json::from_str::<serde_json::Value>(text).ok().map(from_serde)
}

/// The text of `doc` as `serde_json::to_string_pretty` prints it (which
/// cannot fail for a JSON value); named `pretty_text_of`.
#[verifier::external_body]
pub fn pretty_json_text(doc: &JsonValue) -> (r: String)
    ensures
        r@ == pretty_text_of(doc@),
{
    serde_json::to_string_pretty(&to_serde(doc)).unwrap_or_default()
}

} // verus!
