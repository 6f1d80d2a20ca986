//! Typed reads of JSON values, as `serde_json::Value`'s accessors give them.

use vstd::prelude::*;
use crate::json::{entries_get, entries_get_exec, json_entries_view, json_items_view, JsonValue, JsonView};
use crate::text::chars_of;

verus! {

/// The character is a decimal digit.
pub open spec fn is_digit(c: char) -> bool {
    '0' <= c <= '9'
}

/// The value of a string of decimal digits.
pub open spec fn digits_value(t: Seq<char>) -> nat
    decreases t.len(),
{
    if t.len() == 0 {
        0
    } else {
        10 * digits_value(t.drop_last()) + ((t.last() as nat) - 48) as nat
    }
}

/// `Value::as_u64`: a number written with decimal digits alone (a
/// non-negative integer) that fits in 64 bits.
pub open spec fn number_as_u64(text: Seq<char>) -> Option<u64> {
    if text.len() > 0 && (forall|i: int| 0 <= i < text.len() ==> is_digit(#[trigger] text[i]))
        && digits_value(text) <= u64::MAX {
        Some(digits_value(text) as u64)
    } else {
        None
    }
}

/// `value.and_then(Value::as_u64)`.
pub open spec fn as_u64(value: Option<JsonView>) -> Option<u64> {
    match value {
        Some(JsonView::Number(text)) => number_as_u64(text),
        _ => None,
    }
}

/// `value.and_then(Value::as_object)`.
pub open spec fn as_object(value: Option<JsonView>) -> Option<Seq<(Seq<char>, JsonView)>> {
    match value {
        Some(JsonView::Object(entries)) => Some(entries),
        _ => None,
    }
}

/// `value.and_then(Value::as_array)`.
pub open spec fn as_array(value: Option<JsonView>) -> Option<Seq<JsonView>> {
    match value {
        Some(JsonView::Array(items)) => Some(items),
        _ => None,
    }
}

/// `value.and_then(Value::as_bool)`.
pub open spec fn as_bool(value: Option<JsonView>) -> Option<bool> {
    match value {
        Some(JsonView::Bool(b)) => Some(b),
        _ => None,
    }
}

pub proof fn lemma_digits_value_prefix(t: Seq<char>, i: int)
    requires
        0 <= i <= t.len(),
    ensures
        digits_value(t.take(i)) <= digits_value(t) || exists|k: int| 0 <= k < t.len() && !is_digit(#[trigger] t[k]),
    decreases t.len() - i,
{
    if i < t.len() {
        lemma_digits_value_prefix(t, i + 1);
        assert(t.take(i + 1).drop_last() == t.take(i));
        if is_digit(t[i]) {
            assert(t.take(i + 1).last() == t[i]);
        }
    } else {
        assert(t.take(i) == t);
    }
}

/// `Value::as_u64` on a number's text.
pub fn number_text_as_u64(text: &str) -> (r: Option<u64>)
    ensures
        r == number_as_u64(text@),
{
    let chars = chars_of(text);
    if chars.len() == 0 {
        return None;
    }
    let mut v: u64 = 0;
    let mut i: usize = 0;
    while i < chars.len()
        invariant
            chars@ == text@,
            i <= chars@.len(),
            forall|k: int| 0 <= k < i ==> is_digit(#[trigger] chars@[k]),
            v == digits_value(chars@.take(i as int)),
        decreases chars@.len() - i,
    {
        let c = chars[i];
        if !('0' <= c && c <= '9') {
            assert(!is_digit(text@[i as int]));
            return None;
        }
        let d: u64 = (c as u32 - 48) as u64;
        assert(chars@.take(i + 1).drop_last() == chars@.take(i as int));
        assert(chars@.take(i + 1).last() == c);
        match v.checked_mul(10) {
            Some(m) => match m.checked_add(d) {
                Some(n) => {
                    v = n;
                },
                None => {
                    proof {
                        lemma_digits_value_prefix(text@, i + 1);
                    }
                    return None;
                },
            },
            None => {
                proof {
                    lemma_digits_value_prefix(text@, i + 1);
                }
                return None;
            },
        }
        i = i + 1;
    }
    assert(chars@.take(chars@.len() as int) == chars@);
    Some(v)
}

/// `value.and_then(Value::as_u64)`.
pub fn value_as_u64(value: Option<&JsonValue>) -> (r: Option<u64>)
    ensures
        r == as_u64(match value { Some(v) => Some(v@), None => None }),
{
    match value {
        Some(JsonValue::Number(text)) => number_text_as_u64(text.as_str()),
        _ => None,
    }
}

/// `value.and_then(Value::as_object)`.
pub fn value_as_object<'a>(value: Option<&'a JsonValue>) -> (r: Option<&'a Vec<(String, JsonValue)>>)
    ensures
        match r {
            Some(entries) => as_object(match value { Some(v) => Some(v@), None => None }) == Some(json_entries_view(entries@)),
            None => as_object(match value { Some(v) => Some(v@), None => None }) is None,
        },
{
    match value {
        Some(JsonValue::Object(entries)) => Some(entries),
        _ => None,
    }
}

/// `value.and_then(Value::as_array)`.
pub fn value_as_array<'a>(value: Option<&'a JsonValue>) -> (r: Option<&'a Vec<JsonValue>>)
    ensures
        match r {
            Some(items) => as_array(match value { Some(v) => Some(v@), None => None }) == Some(json_items_view(items@)),
            None => as_array(match value { Some(v) => Some(v@), None => None }) is None,
        },
{
    match value {
        Some(JsonValue::Array(items)) => Some(items),
        _ => None,
    }
}

/// `value.and_then(Value::as_bool)`.
pub fn value_as_bool(value: Option<&JsonValue>) -> (r: Option<bool>)
    ensures
        r == as_bool(match value { Some(v) => Some(v@), None => None }),
{
    match value {
        Some(JsonValue::Bool(b)) => Some(*b),
        _ => None,
    }
}

/// `value.and_then(Value::as_str)`.
pub fn value_as_str<'a>(value: Option<&'a JsonValue>) -> (r: Option<&'a str>)
    ensures
        match r {
            Some(s) => crate::json::json_as_str(match value { Some(v) => Some(v@), None => None }) == Some(s@),
            None => crate::json::json_as_str(match value { Some(v) => Some(v@), None => None }) is None,
        },
{
    match value {
        Some(JsonValue::Str(s)) => Some(s.as_str()),
        _ => None,
    }
}

/// `arguments.get(name)` on an object's members.
pub fn get<'a>(arguments: &'a Vec<(String, JsonValue)>, name: &str) -> (r: Option<&'a JsonValue>)
    ensures
        match r {
            Some(v) => entries_get(json_entries_view(arguments@), name@) == Some(v@),
            None => entries_get(json_entries_view(arguments@), name@) is None,
        },
{
    entries_get_exec(arguments, name)
}

} // verus!
