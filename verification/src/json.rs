//! A JSON document model, and the parse and print operations that
//! `serde_json` performs on it.

use vstd::prelude::*;
use crate::text::opt_string_view;

verus! {

/// A JSON document. Object members are kept in the order in which
/// `serde_json` walks them (sorted by key); a number keeps its JSON text.
#[derive(Debug)]
pub enum JsonValue {
    Null,
    Bool(bool),
    Number(String),
    Str(String),
    Array(Vec<JsonValue>),
    Object(Vec<(String, JsonValue)>),
}

/// The mathematical view of a [`JsonValue`].
pub enum JsonView {
    Null,
    Bool(bool),
    Number(Seq<char>),
    Str(Seq<char>),
    Array(Seq<JsonView>),
    Object(Seq<(Seq<char>, JsonView)>),
}

pub open spec fn json_view(v: JsonValue) -> JsonView
    decreases v,
{
    match v {
        JsonValue::Null => JsonView::Null,
        JsonValue::Bool(b) => JsonView::Bool(b),
        JsonValue::Number(n) => JsonView::Number(n@),
        JsonValue::Str(s) => JsonView::Str(s@),
        JsonValue::Array(items) => JsonView::Array(json_items_view(items@)),
        JsonValue::Object(entries) => JsonView::Object(json_entries_view(entries@)),
    }
}

pub open spec fn json_items_view(items: Seq<JsonValue>) -> Seq<JsonView>
    decreases items,
{
    if items.len() == 0 {
        Seq::empty()
    } else {
        json_items_view(items.drop_last()).push(json_view(items.last()))
    }
}

pub open spec fn json_entries_view(entries: Seq<(String, JsonValue)>) -> Seq<(Seq<char>, JsonView)>
    decreases entries,
{
    if entries.len() == 0 {
        Seq::empty()
    } else {
        json_entries_view(entries.drop_last()).push(
            (entries.last().0@, json_view(entries.last().1)),
        )
    }
}

pub proof fn lemma_items_view(items: Seq<JsonValue>)
    ensures
        json_items_view(items).len() == items.len(),
        forall|i: int| 0 <= i < items.len() ==> #[trigger] json_items_view(items)[i] == json_view(items[i]),
    decreases items.len(),
{
    if items.len() > 0 {
        lemma_items_view(items.drop_last());
    }
}

pub proof fn lemma_entries_view(entries: Seq<(String, JsonValue)>)
    ensures
        json_entries_view(entries).len() == entries.len(),
        forall|i: int| 0 <= i < entries.len() ==> #[trigger] json_entries_view(entries)[i] == (entries[i].0@, json_view(entries[i].1)),
    decreases entries.len(),
{
    if entries.len() > 0 {
        lemma_entries_view(entries.drop_last());
    }
}

pub proof fn lemma_entries_view_push(entries: Seq<(String, JsonValue)>, key: String, value: JsonValue)
    ensures
        json_entries_view(entries.push((key, value))) == json_entries_view(entries).push((key@, json_view(value))),
{
    assert(entries.push((key, value)).drop_last() == entries);
}

impl View for JsonValue {
    type V = JsonView;

    open spec fn view(&self) -> JsonView {
        json_view(*self)
    }
}

pub open spec fn opt_json_view(v: Option<JsonValue>) -> Option<JsonView> {
    match v {
        Some(v) => Some(v@),
        None => None,
    }
}

/// A deep copy of a document.
pub fn copy_json(value: &JsonValue) -> (r: JsonValue)
    ensures
        r@ == value@,
    decreases value,
{
    match value {
        JsonValue::Null => JsonValue::Null,
        JsonValue::Bool(b) => JsonValue::Bool(*b),
        JsonValue::Number(n) => JsonValue::Number(n.clone()),
        JsonValue::Str(s) => JsonValue::Str(s.clone()),
        JsonValue::Array(items) => {
            let mut out: Vec<JsonValue> = Vec::new();
            let mut i: usize = 0;
            while i < items.len()
                invariant
                    i <= items@.len(),
                    *value == JsonValue::Array(*items),
                    json_items_view(out@) == json_items_view(items@.take(i as int)),
                decreases items@.len() - i,
            {
                proof {
                    assert(decreases_to!(*value => value->Array_0));
                    assert(decreases_to!(*items => items@));
                    assert(decreases_to!(items@ => items@[i as int]));
                }
                let item = copy_json(&items[i]);
                let ghost before = out@;
                out.push(item);
                proof {
                    assert(out@.drop_last() == before);
                    assert(items@.take(i + 1).drop_last() == items@.take(i as int));
                }
                i = i + 1;
            }
            assert(items@.take(items@.len() as int) == items@);
            JsonValue::Array(out)
        },
        JsonValue::Object(entries) => {
            let mut out: Vec<(String, JsonValue)> = Vec::new();
            let mut i: usize = 0;
            while i < entries.len()
                invariant
                    i <= entries@.len(),
                    *value == JsonValue::Object(*entries),
                    json_entries_view(out@) == json_entries_view(entries@.take(i as int)),
                decreases entries@.len() - i,
            {
                proof {
                    assert(decreases_to!(*value => value->Object_0));
                    assert(decreases_to!(*entries => entries@));
                    assert(decreases_to!(entries@ => entries@[i as int]));
                    assert(decreases_to!(entries@[i as int] => entries@[i as int].1));
                }
                let item = copy_json(&entries[i].1);
                let ghost before = out@;
                out.push((entries[i].0.clone(), item));
                proof {
                    assert(out@.drop_last() == before);
                    assert(entries@.take(i + 1).drop_last() == entries@.take(i as int));
                }
                i = i + 1;
            }
            assert(entries@.take(entries@.len() as int) == entries@);
            JsonValue::Object(out)
        },
    }
}

/// The value of the first member named `key` among `entries`.
pub open spec fn entries_get(entries: Seq<(Seq<char>, JsonView)>, key: Seq<char>) -> Option<JsonView>
    decreases entries.len(),
{
    if entries.len() == 0 {
        None
    } else if entries[0].0 == key {
        Some(entries[0].1)
    } else {
        entries_get(entries.drop_first(), key)
    }
}

/// `value.get(key)` on an object; `None` for any other value.
pub open spec fn json_get(value: JsonView, key: Seq<char>) -> Option<JsonView> {
    match value {
        JsonView::Object(entries) => entries_get(entries, key),
        _ => None,
    }
}

/// `value.as_str()`.
pub open spec fn json_as_str(value: Option<JsonView>) -> Option<Seq<char>> {
    match value {
        Some(JsonView::Str(s)) => Some(s),
        _ => None,
    }
}

/// The value of the first member named `key`, when `entries` is an object's
/// member list.
pub fn entries_get_exec<'a>(entries: &'a Vec<(String, JsonValue)>, key: &str) -> (r: Option<&'a JsonValue>)
    ensures
        r matches Some(v) ==> entries_get(json_entries_view(entries@), key@) == Some(v@),
        r is None ==> entries_get(json_entries_view(entries@), key@) is None,
{
    proof {
        lemma_entries_view(entries@);
    }
    let ghost es = json_entries_view(entries@);
    assert(es.skip(0) == es);
    let mut i: usize = 0;
    while i < entries.len()
        invariant
            i <= entries@.len(),
            es == json_entries_view(entries@),
            es.len() == entries@.len(),
            forall|j: int| 0 <= j < entries@.len() ==> #[trigger] es[j] == (entries@[j].0@, json_view(entries@[j].1)),
            entries_get(es, key@) == entries_get(es.skip(i as int), key@),
        decreases entries@.len() - i,
    {
        assert(es.skip(i as int)[0] == es[i as int]);
        assert(es.skip(i as int).drop_first() == es.skip(i + 1));
        if crate::text::str_eq(entries[i].0.as_str(), key) {
            return Some(&entries[i].1);
        }
        i = i + 1;
    }
    None
}

/// `value.get(key)`.
pub fn json_get_exec<'a>(value: &'a JsonValue, key: &str) -> (r: Option<&'a JsonValue>)
    ensures
        r matches Some(v) ==> json_get(value@, key@) == Some(v@),
        r is None ==> json_get(value@, key@) is None,
{
    match value {
        JsonValue::Object(entries) => entries_get_exec(entries, key),
        _ => None,
    }
}

/// `value.get(key).and_then(Value::as_str)`.
pub fn json_get_str<'a>(value: &'a JsonValue, key: &str) -> (r: Option<&'a str>)
    ensures
        match r {
            Some(s) => json_as_str(json_get(value@, key@)) == Some(s@),
            None => json_as_str(json_get(value@, key@)) is None,
        },
{
    match json_get_exec(value, key) {
        Some(JsonValue::Str(s)) => Some(s.as_str()),
        _ => None,
    }
}

#[verifier::external_type_specification]
#[verifier::external_body]
pub struct ExSerdeJsonValue(serde_json::Value);

/// What `serde_json::from_str::<serde_json::Value>` yields for a text, seen
/// through the library's model: `None` where serde_json rejects the text.
pub uninterp spec fn parsed_json(text: Seq<char>) -> Option<JsonView>;

/// What `serde_json::to_string` prints for a document, `None` where it fails.
pub uninterp spec fn json_text(value: JsonView) -> Option<Seq<char>>;

/// Moves a `serde_json::Value` into the library's model, node for node; a
/// number keeps the text that `Display` gives it.
#[verifier::external_body]
fn json_from_serde(value: serde_json::Value) -> JsonValue {
    match value {
        serde_json::Value::Null => JsonValue::Null,
        serde_json::Value::Bool(b) => JsonValue::Bool(b),
        serde_json::Value::Number(n) => JsonValue::Number(n.to_string()),
        serde_json::Value::String(s) => JsonValue::Str(s),
        serde_json::Value::Array(items) => JsonValue::Array(
            items.into_iter().map(json_from_serde).collect(),
        ),
        serde_json::Value::Object(map) => JsonValue::Object(
            map.into_iter().map(|(k, v)| (k, json_from_serde(v))).collect(),
        ),
    }
}

/// Builds the `serde_json::Value` for a document of the library's model,
/// node for node; a number is read back from its text, and becomes `null`
/// where that text is not a JSON number (no number that [`parse_json`]
/// yields is such).
#[verifier::external_body]
fn json_to_serde(value: &JsonValue) -> serde_json::Value {
    match value {
        JsonValue::Null => serde_json::Value::Null,
        JsonValue::Bool(b) => serde_json::Value::Bool(*b),
        JsonValue::Number(text) => text.parse::<serde_json::Number>().map(
            serde_json::Value::Number,
        ).unwrap_or(serde_json::Value::Null),
        JsonValue::Str(s) => serde_json::Value::String(s.clone()),
        JsonValue::Array(items) => serde_json::Value::Array(items.iter().map(json_to_serde).collect()),
        JsonValue::Object(entries) => serde_json::Value::Object(
            entries.iter().map(|(k, v)| (k.clone(), json_to_serde(v))).collect(),
        ),
    }
}

/// `serde_json::from_str::<serde_json::Value>(text).ok()`: the parsed
/// document is the one that [`parsed_json`] names for the text.
#[verifier::external_body]
pub fn parse_json(text: &str) -> (r: Option<JsonValue>)
    ensures
        opt_json_view(r) == parsed_json(text@),
{
    serde_json::from_str::<serde_json::Value>(text).ok().map(json_from_serde)
}

/// `serde_json::to_string(value).ok()`: the text that [`json_text`] names
/// for the document. serde_json documents two ways for it to fail, a
/// `Serialize` impl that fails and a map with keys that are not strings;
/// a `serde_json::Value` has neither, so the text is always there.
#[verifier::external_body]
pub fn print_json(value: &JsonValue) -> (r: Option<String>)
    ensures
        opt_string_view(r) == json_text(value@),
        r is Some,
{
    serde_json::to_string(&json_to_serde(value)).ok()
}

} // verus!
