//! JSON documents as plain values.

use vstd::prelude::*;

use crate::text;

verus! {

/// What a JSON document says.
pub enum Json {
    /// `null`.
    Null,
    /// `true` or `false`.
    Bool(bool),
    /// A number, as it is written.
    Number(Seq<char>),
    /// A string.
    Text(Seq<char>),
    /// An array.
    Array(Seq<Json>),
    /// The entries of an object; no key occurs twice in a parsed document.
    Object(Seq<(Seq<char>, Json)>),
}

/// A JSON document.
#[derive(Debug)]
pub enum JsonValue {
    /// `null`.
    Null,
    /// `true` or `false`.
    Bool(bool),
    /// A number, as it is written.
    Number(String),
    /// A string.
    Text(String),
    /// An array.
    Array(Vec<JsonValue>),
    /// The entries of an object.
    Object(Vec<(String, JsonValue)>),
}

impl View for JsonValue {
    type V = Json;

    open spec fn view(&self) -> Json
        decreases self,
    {
        match self {
            JsonValue::Null => Json::Null,
            JsonValue::Bool(b) => Json::Bool(*b),
            JsonValue::Number(n) => Json::Number(n@),
            JsonValue::Text(s) => Json::Text(s@),
            JsonValue::Array(items) => Json::Array(
                Seq::new(
                    items@.len(),
                    |i: int|
                        if 0 <= i < items@.len() {
                            items@[i].view()
                        } else {
                            Json::Null
                        },
                ),
            ),
            JsonValue::Object(entries) => Json::Object(
                Seq::new(
                    entries@.len(),
                    |i: int|
                        if 0 <= i < entries@.len() {
                            (entries@[i].0@, entries@[i].1.view())
                        } else {
                            (Seq::empty(), Json::Null)
                        },
                ),
            ),
        }
    }
}

/// `serde_json::Value` as an opaque type.
#[verifier::external_type_specification]
#[verifier::external_body]
pub struct ExValue(serde_json::Value);

/// The document that a `serde_json::Value` holds.
pub uninterp spec fn value_contents(v: serde_json::Value) -> Json;

/// The outermost layer of a `serde_json::Value`.
enum Layer<'a> {
    /// A document without parts.
    Leaf(JsonValue),
    /// The items of an array.
    Array(&'a Vec<serde_json::Value>),
    /// The entries of an object.
    Object(Vec<(&'a String, &'a serde_json::Value)>),
}

impl<'a> Layer<'a> {
    /// Whether this is the outermost layer of `json`.
    spec fn is_layer_of(self, json: Json) -> bool {
        match self {
            Layer::Leaf(leaf) => leaf@ == json && !(json is Array) && !(json is Object),
            Layer::Array(items) => json == Json::Array(
                Seq::new(items@.len(), |i: int| value_contents(items@[i])),
            ),
            Layer::Object(entries) => json == Json::Object(
                Seq::new(
                    entries@.len(),
                    |i: int| (entries@[i].0@, value_contents(*entries@[i].1)),
                ),
            ),
        }
    }
}

/// Tells the variants of `serde_json::Value` apart. A number is carried as its `Display` writes it,
/// an object as its entries in the order in which its map is walked.
#[verifier::external_body]
fn outer_layer(v: &serde_json::Value) -> (r: Layer<'_>)
    ensures
        r.is_layer_of(value_contents(*v)),
{
    match v {
        serde_json::Value::Null => Layer::Leaf(JsonValue::Null),
        serde_json::Value::Bool(b) => Layer::Leaf(JsonValue::Bool(*b)),
        serde_json::Value::Number(n) => Layer::Leaf(JsonValue::Number(n.to_string())),
        serde_json::Value::String(s) => Layer::Leaf(JsonValue::Text(s.clone())),
        serde_json::Value::Array(items) => Layer::Array(items),
        serde_json::Value::Object(map) => Layer::Object(map.iter().collect()),
    }
}

/// A `serde_json::Value` as a document of this library.
fn from_value(v: &serde_json::Value) -> (r: JsonValue)
    ensures
        r@ == value_contents(*v),
    decreases value_contents(*v),
{
    match outer_layer(v) {
        Layer::Leaf(leaf) => leaf,
        Layer::Array(items) => {
            let ghost parts = value_contents(*v)->Array_0;
            let mut converted: Vec<JsonValue> = Vec::new();
            for i in 0..items.len()
                invariant
                    value_contents(*v) == Json::Array(parts),
                    parts == Seq::new(items@.len(), |i: int| value_contents(items@[i])),
                    converted@.len() == i,
                    forall|j: int| 0 <= j < i ==> (#[trigger] converted@[j])@ == parts[j],
            {
                assert(decreases_to!(value_contents(*v) => value_contents(*v)->Array_0[i as int]));
                let part = from_value(&items[i]);
                converted.push(part);
            }
            let r = JsonValue::Array(converted);
            assert(r@->Array_0 =~= parts);
            r
        },
        Layer::Object(entries) => {
            let ghost parts = value_contents(*v)->Object_0;
            let mut converted: Vec<(String, JsonValue)> = Vec::new();
            for i in 0..entries.len()
                invariant
                    value_contents(*v) == Json::Object(parts),
                    parts == Seq::new(
                        entries@.len(),
                        |i: int| (entries@[i].0@, value_contents(*entries@[i].1)),
                    ),
                    converted@.len() == i,
                    forall|j: int|
                        0 <= j < i ==> ((#[trigger] converted@[j]).0@, converted@[j].1@)
                            == parts[j],
            {
                assert(decreases_to!(value_contents(*v) => value_contents(*v)->Object_0[i as int].1));
                let part = from_value(entries[i].1);
                converted.push((entries[i].0.clone(), part));
            }
            let r = JsonValue::Object(converted);
            assert(r@->Object_0 =~= parts);
            r
        },
    }
}

/// The document that bytes spell, or what `serde_json` has to say against them.
pub uninterp spec fn document(bytes: Seq<u8>) -> Result<Json, Seq<char>>;

/// Calls `serde_json::from_slice` for a `serde_json::Value`. The document, or what is said against the
/// bytes, is a function of the bytes.
#[verifier::external_body]
fn value_from_slice(bytes: &[u8]) -> (r: Result<serde_json::Value, String>)
    ensures
        match r {
            Ok(v) => document(bytes@) == Ok::<Json, Seq<char>>(value_contents(v)),
            Err(fault) => document(bytes@) == Err::<Json, Seq<char>>(fault@),
        },
{
    match serde_json::from_slice::<serde_json::Value>(bytes) {
        Ok(v) => Ok(v),
        Err(e) => Err(e.to_string()),
    }
}

/// Parses a JSON document.
pub fn parse(bytes: &[u8]) -> (r: Result<JsonValue, String>)
    ensures
        match r {
            Ok(v) => document(bytes@) == Ok::<Json, Seq<char>>(v@),
            Err(fault) => document(bytes@) == Err::<Json, Seq<char>>(fault@),
        },
{
    match value_from_slice(bytes) {
        Ok(v) => Ok(from_value(&v)),
        Err(fault) => Err(fault),
    }
}

/// Where `key` first stands among the entries of an object.
pub open spec fn entry_index(entries: Seq<(Seq<char>, Json)>, key: Seq<char>) -> Option<int>
    decreases entries.len(),
{
    if entries.len() == 0 {
        None
    } else {
        match entry_index(entries.drop_last(), key) {
            Some(i) => Some(i),
            None => if entries.last().0 == key {
                Some(entries.len() - 1)
            } else {
                None
            },
        }
    }
}

/// An entry that is found is among the entries and has the key.
pub proof fn lemma_entry_index(entries: Seq<(Seq<char>, Json)>, key: Seq<char>)
    ensures
        entry_index(entries, key) matches Some(i) ==> 0 <= i < entries.len() && entries[i].0 == key,
    decreases entries.len(),
{
    if entries.len() > 0 {
        lemma_entry_index(entries.drop_last(), key);
    }
}

impl Json {
    /// What stands under `key`, if this is an object that has it.
    pub open spec fn field(self, key: Seq<char>) -> Option<Json> {
        match self {
            Json::Object(entries) => match entry_index(entries, key) {
                Some(i) => Some(entries[i].1),
                None => None,
            },
            _ => None,
        }
    }

    /// The text, if this is a string.
    pub open spec fn as_text(self) -> Option<Seq<char>> {
        match self {
            Json::Text(s) => Some(s),
            _ => None,
        }
    }
}

impl JsonValue {
    /// What stands under `key`, if this is an object that has it.
    pub fn get(&self, key: &str) -> (r: Option<&JsonValue>)
        ensures
            match r {
                Some(v) => self@.field(key@) == Some(v@),
                None => self@.field(key@) is None,
            },
    {
        match self {
            JsonValue::Object(entries) => {
                let ghost parts = self@->Object_0;
                reveal_with_fuel(<JsonValue as View>::view, 2);
                assert(parts.take(0) =~= Seq::empty());
                for i in 0..entries.len()
                    invariant
                        parts == self@->Object_0,
                        self@ is Object,
                        parts.len() == entries@.len(),
                        forall|j: int|
                            0 <= j < entries@.len() ==> ((#[trigger] entries@[j]).0@, entries@[j].1@)
                                == parts[j],
                        entry_index(parts.take(i as int), key@) is None,
                {
                    assert(parts.take(i + 1).drop_last() =~= parts.take(i as int));
                    assert((entries@[i as int].0@, entries@[i as int].1@) == parts[i as int]);
                    if text::same_text(entries[i].0.as_str(), key) {
                        proof {
                            lemma_entry_found_stays(parts, key@, i + 1);
                        }
                        return Some(&entries[i].1);
                    }
                }
                assert(parts.take(parts.len() as int) =~= parts);
                None
            },
            _ => None,
        }
    }

    /// The text, if this is a string.
    pub fn as_str(&self) -> (r: Option<&str>)
        ensures
            text::optional(r) == self@.as_text(),
    {
        match self {
            JsonValue::Text(s) => Some(s.as_str()),
            _ => None,
        }
    }
}

/// An entry found among the first entries is the one found among all of them.
pub proof fn lemma_entry_found_stays(entries: Seq<(Seq<char>, Json)>, key: Seq<char>, n: int)
    requires
        0 <= n <= entries.len(),
        entry_index(entries.take(n), key) is Some,
    ensures
        entry_index(entries, key) == entry_index(entries.take(n), key),
    decreases entries.len() - n,
{
    if n < entries.len() {
        assert(entries.take(n + 1).drop_last() =~= entries.take(n));
        lemma_entry_found_stays(entries, key, n + 1);
    } else {
        assert(entries.take(n) =~= entries);
    }
}

/// A key that stands among the entries is found.
pub proof fn lemma_key_is_found(entries: Seq<(Seq<char>, Json)>, key: Seq<char>, i: int)
    requires
        0 <= i < entries.len(),
        entries[i].0 == key,
    ensures
        entry_index(entries, key) is Some,
    decreases entries.len(),
{
    if i < entries.len() - 1 {
        assert(entries.drop_last()[i] == entries[i]);
        lemma_key_is_found(entries.drop_last(), key, i);
    }
}

/// A key is found exactly where an object has it, and what is found is what first stands under it;
/// nothing but an object has keys.
pub proof fn law_fields_are_found(json: Json, key: Seq<char>, i: int)
    ensures
        json !is Object ==> json.field(key) is None,
        json matches Json::Object(entries) ==> (json.field(key) is Some <==> exists|k: int|
            0 <= k < entries.len() && (#[trigger] entries[k]).0 == key),
        json matches Json::Object(entries) ==> 0 <= i < entries.len() && entries[i].0 == key && (
        forall|k: int| 0 <= k < i ==> (#[trigger] entries[k]).0 != key) ==> json.field(key)
            == Some(entries[i].1),
{
    if let Json::Object(entries) = json {
        lemma_entry_index(entries, key);
        if exists|k: int| 0 <= k < entries.len() && (#[trigger] entries[k]).0 == key {
            let k = choose|k: int| 0 <= k < entries.len() && (#[trigger] entries[k]).0 == key;
            lemma_key_is_found(entries, key, k);
        }
        if 0 <= i < entries.len() && entries[i].0 == key && (forall|k: int|
            0 <= k < i ==> (#[trigger] entries[k]).0 != key) {
            let first = entries.take(i + 1);
            assert(first[i].0 == key);
            lemma_key_is_found(first, key, i);
            lemma_entry_index(first, key);
            let found = entry_index(first, key)->0;
            assert(first[found] == entries[found]);
            lemma_entry_found_stays(entries, key, i + 1);
        }
    }
}

/// Only a string has a text, and its text is the string.
pub proof fn law_only_strings_are_texts(json: Json, s: Seq<char>)
    ensures
        json.as_text() == Some(s) <==> json == Json::Text(s),
        json !is Text ==> json.as_text() is None,
{
}

} // verus!
