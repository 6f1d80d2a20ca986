//! Redaction of credentials and local paths from text shown in bridge
//! diagnostics, and the bounded excerpt built from it.

use vstd::prelude::*;
use crate::scan::{find_from, find_from_exec, lemma_find_from_bounds, lemma_run_from_bounds, matches_at, matches_at_exec, run_from};
use crate::json::{json_entries_view, json_items_view, json_text, json_view, lemma_entries_view, lemma_items_view, parse_json, parsed_json, print_json, JsonValue, JsonView};
use crate::text::{chars_of, char_is_white_space, is_white_space, str_to_string, string_from_chars};

verus! {

/// Characters that end a bearer token value.
pub open spec fn is_value_delimiter(c: char) -> bool {
    is_white_space(c) || c == '"' || c == '\'' || c == ',' || c == ';' || c == ')' || c == ']'
        || c == '}'
}

/// Characters that end a local path.
pub open spec fn is_path_delimiter(c: char) -> bool {
    is_white_space(c) || c == '"' || c == '\'' || c == ',' || c == ';' || c == ')' || c == ']'
        || c == '}'
}

/// Characters that may make up an `sk-` key: ASCII letters and digits, `-`, `_`.
pub open spec fn is_token_char(c: char) -> bool {
    ('a' <= c && c <= 'z') || ('A' <= c && c <= 'Z') || ('0' <= c && c <= '9') || c == '-'
        || c == '_'
}

pub open spec fn in_token_value() -> spec_fn(char) -> bool {
    |c: char| !is_value_delimiter(c)
}

pub open spec fn in_path() -> spec_fn(char) -> bool {
    |c: char| !is_path_delimiter(c)
}

pub open spec fn in_key_token() -> spec_fn(char) -> bool {
    |c: char| is_token_char(c)
}

pub fn is_value_delimiter_exec(c: char) -> (b: bool)
    ensures
        b == is_value_delimiter(c),
{
    char_is_white_space(c) || c == '"' || c == '\'' || c == ',' || c == ';' || c == ')' || c
        == ']' || c == '}'
}

pub fn is_path_delimiter_exec(c: char) -> (b: bool)
    ensures
        b == is_path_delimiter(c),
{
    char_is_white_space(c) || c == '"' || c == '\'' || c == ',' || c == ';' || c == ')' || c
        == ']' || c == '}'
}

pub fn is_token_char_exec(c: char) -> (b: bool)
    ensures
        b == is_token_char(c),
{
    ('a' <= c && c <= 'z') || ('A' <= c && c <= 'Z') || ('0' <= c && c <= '9') || c == '-' || c
        == '_'
}

/// The text put in place of a secret value.
pub open spec fn redacted_marker() -> Seq<char> {
    "[redacted]"@
}

/// The text put in place of a local path.
pub open spec fn path_marker() -> Seq<char> {
    "[path]"@
}

pub open spec fn bearer_prefix() -> Seq<char> {
    "Bearer "@
}

pub open spec fn key_prefix() -> Seq<char> {
    "sk-"@
}

/// The text from position `i` on, with the value after each `Bearer ` replaced
/// by `[redacted]`.
pub open spec fn bearer_from(s: Seq<char>, i: nat) -> Seq<char>
    decreases s.len() + 1 - i,
{
    if i > s.len() {
        Seq::empty()
    } else {
        match find_from(s, bearer_prefix(), i) {
            None => s.subrange(i as int, s.len() as int),
            Some(k) => {
                let after = k + bearer_prefix().len();
                proof {
                    reveal_strlit("Bearer ");
                    lemma_find_from_bounds(s, bearer_prefix(), i);
                    lemma_run_from_bounds(s, after, in_token_value());
                }
                let end = after + run_from(s, after, in_token_value());
                s.subrange(i as int, after as int) + redacted_marker() + bearer_from(s, end)
            },
        }
    }
}

/// The text from position `i` on, with each `sk-` key that has at least one
/// character after the prefix replaced by `sk-[redacted]`.
pub open spec fn keys_from(s: Seq<char>, i: nat) -> Seq<char>
    decreases s.len() + 1 - i,
{
    if i > s.len() {
        Seq::empty()
    } else {
        match find_from(s, key_prefix(), i) {
            None => s.subrange(i as int, s.len() as int),
            Some(k) => {
                let run = run_from(s, k, in_key_token());
                proof {
                    reveal_strlit("sk-");
                    lemma_find_from_bounds(s, key_prefix(), i);
                    lemma_run_from_bounds(s, k, in_key_token());
                }
                if run > key_prefix().len() {
                    s.subrange(i as int, k as int) + key_prefix() + redacted_marker() + keys_from(
                        s,
                        k + run,
                    )
                } else {
                    s.subrange(i as int, k as int) + key_prefix() + keys_from(
                        s,
                        k + key_prefix().len(),
                    )
                }
            },
        }
    }
}

/// A local path whose contents must not be shown starts at position `i`.
pub open spec fn sensitive_path_at(s: Seq<char>, i: nat) -> bool {
    ||| matches_at(s, "/Users/"@, i)
    ||| matches_at(s, "/private/"@, i)
    ||| matches_at(s, "/var/folders/"@, i)
    ||| matches_at(s, "/tmp/"@, i)
    ||| matches_at(s, "/Volumes/"@, i)
}

/// The text from position `i` on, with each sensitive local path replaced by
/// `[path]`.
pub open spec fn paths_from(s: Seq<char>, i: nat) -> Seq<char>
    decreases s.len() - i,
{
    if i >= s.len() {
        Seq::empty()
    } else if s[i as int] == '/' && sensitive_path_at(s, i) {
        let run = run_from(s, i, in_path());
        proof {
            lemma_run_from_bounds(s, i, in_path());
        }
        if run > 0 {
            path_marker() + paths_from(s, i + run)
        } else {
            path_marker()
        }
    } else {
        seq![s[i as int]] + paths_from(s, i + 1)
    }
}

pub open spec fn redact_bearer_tokens(s: Seq<char>) -> Seq<char> {
    bearer_from(s, 0)
}

pub open spec fn redact_prefixed_tokens(s: Seq<char>) -> Seq<char> {
    keys_from(s, 0)
}

pub open spec fn redact_absolute_paths(s: Seq<char>) -> Seq<char> {
    paths_from(s, 0)
}

/// Bearer values, then `sk-` keys, then local paths are redacted.
pub open spec fn redact_sensitive_text(s: Seq<char>) -> Seq<char> {
    redact_absolute_paths(redact_prefixed_tokens(redact_bearer_tokens(s)))
}

/// `out` extended by `s[a..b]`.
pub fn push_range(out: &mut Vec<char>, s: &[char], a: usize, b: usize)
    requires
        a <= b <= s@.len(),
    ensures
        final(out)@ == old(out)@ + s@.subrange(a as int, b as int),
{
    let mut k: usize = a;
    while k < b
        invariant
            a <= k <= b <= s@.len(),
            out@ == old(out)@ + s@.subrange(a as int, k as int),
        decreases b - k,
    {
        out.push(s[k]);
        assert(s@.subrange(a as int, k + 1) == s@.subrange(a as int, k as int).push(s@[k as int]));
        k = k + 1;
    }
}

/// `out` extended by all of `s`.
pub fn push_all(out: &mut Vec<char>, s: &[char])
    ensures
        final(out)@ == old(out)@ + s@,
{
    push_range(out, s, 0, s.len());
    assert(s@.subrange(0, s@.len() as int) == s@);
}

fn run_of_token_value(s: &[char], i: usize) -> (n: usize)
    requires
        i <= s@.len(),
    ensures
        n == run_from(s@, i as nat, in_token_value()),
        i + n <= s@.len(),
{
    proof {
        lemma_run_from_bounds(s@, i as nat, in_token_value());
    }
    let mut k: usize = i;
    while k < s.len() && !is_value_delimiter_exec(s[k])
        invariant
            i <= k <= s@.len(),
            run_from(s@, i as nat, in_token_value()) == (k - i) + run_from(
                s@,
                k as nat,
                in_token_value(),
            ),
        decreases s@.len() - k,
    {
        k = k + 1;
    }
    k - i
}

fn run_of_key_token(s: &[char], i: usize) -> (n: usize)
    requires
        i <= s@.len(),
    ensures
        n == run_from(s@, i as nat, in_key_token()),
        i + n <= s@.len(),
{
    proof {
        lemma_run_from_bounds(s@, i as nat, in_key_token());
    }
    let mut k: usize = i;
    while k < s.len() && is_token_char_exec(s[k])
        invariant
            i <= k <= s@.len(),
            run_from(s@, i as nat, in_key_token()) == (k - i) + run_from(
                s@,
                k as nat,
                in_key_token(),
            ),
        decreases s@.len() - k,
    {
        k = k + 1;
    }
    k - i
}

fn run_of_path(s: &[char], i: usize) -> (n: usize)
    requires
        i <= s@.len(),
    ensures
        n == run_from(s@, i as nat, in_path()),
        i + n <= s@.len(),
{
    proof {
        lemma_run_from_bounds(s@, i as nat, in_path());
    }
    let mut k: usize = i;
    while k < s.len() && !is_path_delimiter_exec(s[k])
        invariant
            i <= k <= s@.len(),
            run_from(s@, i as nat, in_path()) == (k - i) + run_from(s@, k as nat, in_path()),
        decreases s@.len() - k,
    {
        k = k + 1;
    }
    k - i
}

/// Replaces the value that follows each `Bearer ` with `[redacted]`.
pub fn redact_bearer_chars(s: &[char]) -> (r: Vec<char>)
    ensures
        r@ == redact_bearer_tokens(s@),
{
    let pattern = chars_of("Bearer ");
    let marker = chars_of("[redacted]");
    let mut out: Vec<char> = Vec::new();
    let mut i: usize = 0;
    let n = s.len();
    loop
        invariant
            n == s@.len(),
            i <= s@.len(),
            pattern@ == bearer_prefix(),
            marker@ == redacted_marker(),
            out@ + bearer_from(s@, i as nat) == bearer_from(s@, 0),
        decreases s@.len() + 1 - i,
    {
        proof {
            reveal_strlit("Bearer ");
            lemma_find_from_bounds(s@, bearer_prefix(), i as nat);
        }
        match find_from_exec(s, pattern.as_slice(), i) {
            None => {
                push_range(&mut out, s, i, s.len());
                assert(out@ == bearer_from(s@, 0));
                return out;
            },
            Some(k) => {
                let after = k + pattern.len();
                let end = after + run_of_token_value(s, after);
                proof {
                    lemma_run_from_bounds(s@, after as nat, in_token_value());
                }
                let ghost before = out@;
                push_range(&mut out, s, i, after);
                push_all(&mut out, marker.as_slice());
                assert(out@ + bearer_from(s@, end as nat) == before + bearer_from(s@, i as nat));
                i = end;
            },
        }
    }
}

/// Replaces each `sk-` key that has characters after the prefix with
/// `sk-[redacted]`.
pub fn redact_key_chars(s: &[char]) -> (r: Vec<char>)
    ensures
        r@ == redact_prefixed_tokens(s@),
{
    let pattern = chars_of("sk-");
    let marker = chars_of("[redacted]");
    let mut out: Vec<char> = Vec::new();
    let mut i: usize = 0;
    let n = s.len();
    loop
        invariant
            n == s@.len(),
            i <= s@.len(),
            pattern@ == key_prefix(),
            marker@ == redacted_marker(),
            out@ + keys_from(s@, i as nat) == keys_from(s@, 0),
        decreases s@.len() + 1 - i,
    {
        proof {
            reveal_strlit("sk-");
            lemma_find_from_bounds(s@, key_prefix(), i as nat);
        }
        match find_from_exec(s, pattern.as_slice(), i) {
            None => {
                push_range(&mut out, s, i, s.len());
                assert(out@ == keys_from(s@, 0));
                return out;
            },
            Some(k) => {
                let run = run_of_key_token(s, k);
                proof {
                    lemma_run_from_bounds(s@, k as nat, in_key_token());
                }
                let ghost before = out@;
                push_range(&mut out, s, i, k);
                push_all(&mut out, pattern.as_slice());
                if run > pattern.len() {
                    push_all(&mut out, marker.as_slice());
                    assert(out@ + keys_from(s@, (k + run) as nat) == before + keys_from(
                        s@,
                        i as nat,
                    ));
                    i = k + run;
                } else {
                    assert(out@ + keys_from(s@, (k + pattern.len()) as nat) == before + keys_from(
                        s@,
                        i as nat,
                    ));
                    i = k + pattern.len();
                }
            },
        }
    }
}

fn sensitive_path_at_exec(
    s: &[char],
    i: usize,
    users: &[char],
    private: &[char],
    folders: &[char],
    tmp: &[char],
    volumes: &[char],
) -> (b: bool)
    requires
        users@ == "/Users/"@,
        private@ == "/private/"@,
        folders@ == "/var/folders/"@,
        tmp@ == "/tmp/"@,
        volumes@ == "/Volumes/"@,
    ensures
        b == sensitive_path_at(s@, i as nat),
{
    matches_at_exec(s, users, i) || matches_at_exec(s, private, i) || matches_at_exec(
        s,
        folders,
        i,
    ) || matches_at_exec(s, tmp, i) || matches_at_exec(s, volumes, i)
}

/// Replaces each sensitive local path with `[path]`.
pub fn redact_path_chars(s: &[char]) -> (r: Vec<char>)
    ensures
        r@ == redact_absolute_paths(s@),
{
    let users = chars_of("/Users/");
    let private = chars_of("/private/");
    let folders = chars_of("/var/folders/");
    let tmp = chars_of("/tmp/");
    let volumes = chars_of("/Volumes/");
    let marker = chars_of("[path]");
    let mut out: Vec<char> = Vec::new();
    let mut i: usize = 0;
    while i < s.len()
        invariant
            i <= s@.len(),
            users@ == "/Users/"@,
            private@ == "/private/"@,
            folders@ == "/var/folders/"@,
            tmp@ == "/tmp/"@,
            volumes@ == "/Volumes/"@,
            marker@ == path_marker(),
            out@ + paths_from(s@, i as nat) == paths_from(s@, 0),
        decreases s@.len() - i,
    {
        let ghost before = out@;
        let c = s[i];
        if c == '/' && sensitive_path_at_exec(
            s,
            i,
            users.as_slice(),
            private.as_slice(),
            folders.as_slice(),
            tmp.as_slice(),
            volumes.as_slice(),
        ) {
            let run = run_of_path(s, i);
            proof {
                lemma_run_from_bounds(s@, i as nat, in_path());
            }
            push_all(&mut out, marker.as_slice());
            if run > 0 {
                assert(out@ + paths_from(s@, (i + run) as nat) == before + paths_from(s@, i as nat));
                i = i + run;
            } else {
                assert(out@ == before + paths_from(s@, i as nat));
                assert(paths_from(s@, s@.len() as nat) == Seq::<char>::empty());
                i = s.len();
            }
        } else {
            out.push(c);
            assert(out@ + paths_from(s@, (i + 1) as nat) == before + paths_from(s@, i as nat));
            i = i + 1;
        }
    }
    assert(out@ == paths_from(s@, 0));
    out
}

} // verus!

verus! {

/// `k.to_ascii_lowercase() == l` for single characters.
pub open spec fn lowers_to(k: char, l: char) -> bool {
    if 'A' <= k && k <= 'Z' {
        (k as u32) + 32 == (l as u32)
    } else {
        k == l
    }
}

/// `key.to_ascii_lowercase() == lower`.
pub open spec fn ascii_lowercase_eq(key: Seq<char>, lower: Seq<char>) -> bool {
    key.len() == lower.len() && forall|i: int| 0 <= i < key.len() ==> lowers_to(#[trigger] key[i], lower[i])
}

/// A JSON member name whose value is a credential.
pub open spec fn is_sensitive_key(key: Seq<char>) -> bool {
    ||| ascii_lowercase_eq(key, "api_key"@)
    ||| ascii_lowercase_eq(key, "apikey"@)
    ||| ascii_lowercase_eq(key, "authorization"@)
    ||| ascii_lowercase_eq(key, "access_token"@)
    ||| ascii_lowercase_eq(key, "refresh_token"@)
    ||| ascii_lowercase_eq(key, "token"@)
    ||| ascii_lowercase_eq(key, "secret"@)
    ||| ascii_lowercase_eq(key, "client_secret"@)
    ||| ascii_lowercase_eq(key, "password"@)
}

pub fn lowers_to_exec(k: char, l: char) -> (b: bool)
    ensures
        b == lowers_to(k, l),
{
    if 'A' <= k && k <= 'Z' {
        (k as u32) + 32 == (l as u32)
    } else {
        k == l
    }
}

pub fn ascii_lowercase_eq_exec(key: &[char], lower: &str) -> (b: bool)
    ensures
        b == ascii_lowercase_eq(key@, lower@),
{
    let l = chars_of(lower);
    if key.len() != l.len() {
        return false;
    }
    let mut i: usize = 0;
    while i < key.len()
        invariant
            key@.len() == l@.len(),
            l@ == lower@,
            i <= key@.len(),
            forall|j: int| 0 <= j < i ==> lowers_to(#[trigger] key@[j], l@[j]),
        decreases key@.len() - i,
    {
        if !lowers_to_exec(key[i], l[i]) {
            return false;
        }
        i = i + 1;
    }
    true
}

/// Whether a JSON member name holds a credential.
pub fn is_sensitive_key_exec(key: &str) -> (b: bool)
    ensures
        b == is_sensitive_key(key@),
{
    let k = chars_of(key);
    let k = k.as_slice();
    ascii_lowercase_eq_exec(k, "api_key") || ascii_lowercase_eq_exec(k, "apikey")
        || ascii_lowercase_eq_exec(k, "authorization") || ascii_lowercase_eq_exec(k, "access_token")
        || ascii_lowercase_eq_exec(k, "refresh_token") || ascii_lowercase_eq_exec(k, "token")
        || ascii_lowercase_eq_exec(k, "secret") || ascii_lowercase_eq_exec(k, "client_secret")
        || ascii_lowercase_eq_exec(k, "password")
}

/// Redacts bearer values, `sk-` keys and sensitive local paths from a text.
pub fn redact_sensitive_string(value: &str) -> (r: String)
    ensures
        r@ == redact_sensitive_text(value@),
{
    let chars = chars_of(value);
    let a = redact_bearer_chars(chars.as_slice());
    let b = redact_key_chars(a.as_slice());
    let c = redact_path_chars(b.as_slice());
    string_from_chars(c.as_slice())
}

/// A document with every credential member replaced by `"[redacted]"` and
/// every other string redacted as text.
pub open spec fn redact_json(v: JsonView) -> JsonView
    decreases v,
{
    match v {
        JsonView::Object(entries) => JsonView::Object(redact_entries(entries)),
        JsonView::Array(items) => JsonView::Array(redact_items(items)),
        JsonView::Str(t) => JsonView::Str(redact_sensitive_text(t)),
        _ => v,
    }
}

pub open spec fn redact_items(items: Seq<JsonView>) -> Seq<JsonView>
    decreases items,
{
    if items.len() == 0 {
        Seq::empty()
    } else {
        redact_items(items.drop_last()).push(redact_json(items.last()))
    }
}

pub open spec fn redact_entries(entries: Seq<(Seq<char>, JsonView)>) -> Seq<(Seq<char>, JsonView)>
    decreases entries,
{
    if entries.len() == 0 {
        Seq::empty()
    } else {
        let (k, v) = entries.last();
        redact_entries(entries.drop_last()).push(
            if is_sensitive_key(k) {
                (k, JsonView::Str(redacted_marker()))
            } else {
                (k, redact_json(v))
            },
        )
    }
}

/// Redacts a document: credential members become `"[redacted]"`, strings
/// are redacted as text.
pub fn redact_json_value(v: &JsonValue) -> (r: JsonValue)
    ensures
        r@ == redact_json(v@),
    decreases v,
{
    match v {
        JsonValue::Object(entries) => {
            let mut out: Vec<(String, JsonValue)> = Vec::new();
            let mut i: usize = 0;
            proof {
                lemma_entries_view(entries@);
            }
            while i < entries.len()
                invariant
                    *v == JsonValue::Object(*entries),
                    i <= entries@.len(),
                    json_entries_view(entries@).len() == entries@.len(),
                    forall|j: int| 0 <= j < entries@.len() ==> #[trigger] json_entries_view(entries@)[j] == (entries@[j].0@, json_view(entries@[j].1)),
                    json_entries_view(out@) == redact_entries(json_entries_view(entries@).take(i as int)),
                decreases entries@.len() - i,
            {
                let ghost es = json_entries_view(entries@);
                assert(es.take(i + 1).drop_last() == es.take(i as int));
                let key = entries[i].0.clone();
                let value = if is_sensitive_key_exec(entries[i].0.as_str()) {
                    JsonValue::Str(str_to_string("[redacted]"))
                } else {
                    proof {
                        assert(*v == JsonValue::Object(*entries));
                        assert(decreases_to!(*v => v->Object_0));
                        assert(decreases_to!(*entries => entries@));
                        assert(decreases_to!(entries@ => entries@[i as int]));
                        assert(decreases_to!(entries@[i as int] => entries@[i as int].1));
                    }
                    redact_json_value(&entries[i].1)
                };
                let ghost before = out@;
                let ghost entry_view = (key@, json_view(value));
                out.push((key, value));
                assert(out@.drop_last() == before);
                assert(json_entries_view(out@) == json_entries_view(before).push(entry_view));
                assert(es.take(i + 1).last() == es[i as int]);
                assert(json_entries_view(out@) == redact_entries(es.take(i + 1)));
                i = i + 1;
            }
            assert(json_entries_view(entries@).take(entries@.len() as int) == json_entries_view(entries@));
            JsonValue::Object(out)
        },
        JsonValue::Array(items) => {
            let mut out: Vec<JsonValue> = Vec::new();
            let mut i: usize = 0;
            proof {
                lemma_items_view(items@);
            }
            while i < items.len()
                invariant
                    *v == JsonValue::Array(*items),
                    i <= items@.len(),
                    json_items_view(items@).len() == items@.len(),
                    forall|j: int| 0 <= j < items@.len() ==> #[trigger] json_items_view(items@)[j] == json_view(items@[j]),
                    json_items_view(out@) == redact_items(json_items_view(items@).take(i as int)),
                decreases items@.len() - i,
            {
                let ghost vs = json_items_view(items@);
                assert(vs.take(i + 1).drop_last() == vs.take(i as int));
                proof {
                    assert(*v == JsonValue::Array(*items));
                    assert(decreases_to!(*v => v->Array_0));
                    assert(decreases_to!(*items => items@));
                    assert(decreases_to!(items@ => items@[i as int]));
                }
                let value = redact_json_value(&items[i]);
                let ghost before = out@;
                out.push(value);
                assert(out@.drop_last() == before);
                i = i + 1;
            }
            assert(json_items_view(items@).take(items@.len() as int) == json_items_view(items@));
            JsonValue::Array(out)
        },
        JsonValue::Str(t) => JsonValue::Str(redact_sensitive_string(t.as_str())),
        JsonValue::Null => JsonValue::Null,
        JsonValue::Bool(b) => JsonValue::Bool(*b),
        JsonValue::Number(n) => JsonValue::Number(n.clone()),
    }
}

/// The public text of a bridge payload: a JSON document comes back redacted
/// and printed again, any other text is redacted as text.
pub open spec fn excerpt_source(value: Seq<char>) -> Seq<char> {
    match parsed_json(value) {
        Some(doc) => match json_text(redact_json(doc)) {
            Some(t) => t,
            None => redact_sensitive_text(value),
        },
        None => redact_sensitive_text(value),
    }
}

/// Longest excerpt, in characters, before the ellipsis.
pub const EXCERPT_CHAR_LIMIT: usize = 120;

/// The first 120 characters of the public text, with `...` when it is longer.
pub open spec fn spec_excerpt(value: Seq<char>) -> Seq<char> {
    let source = excerpt_source(value);
    if source.len() > 120 {
        source.take(120) + "..."@
    } else {
        source
    }
}

/// A short, redacted excerpt of a bridge payload for diagnostics.
pub fn excerpt(value: &str) -> (r: String)
    ensures
        r@ == spec_excerpt(value@),
{
    let source = match parse_json(value) {
        Some(doc) => {
            let redacted = redact_json_value(&doc);
            match print_json(&redacted) {
                Some(t) => t,
                None => redact_sensitive_string(value),
            }
        },
        None => redact_sensitive_string(value),
    };
    let chars = chars_of(source.as_str());
    if chars.len() > EXCERPT_CHAR_LIMIT {
        let mut head: Vec<char> = Vec::new();
        push_range(&mut head, chars.as_slice(), 0, EXCERPT_CHAR_LIMIT);
        let mut r = string_from_chars(head.as_slice());
        r.append("...");
        r
    } else {
        source
    }
}


/// Redaction keeps a document's members, in order, under their names, and
/// every credential member's value becomes `"[redacted]"`.
pub proof fn lemma_redacted_members(entries: Seq<(Seq<char>, JsonView)>)
    ensures
        redact_entries(entries).len() == entries.len(),
        forall|i: int| 0 <= i < entries.len() ==> (#[trigger] redact_entries(entries)[i]).0 == entries[i].0,
        forall|i: int| 0 <= i < entries.len() && is_sensitive_key(entries[i].0)
            ==> (#[trigger] redact_entries(entries)[i]).1 == JsonView::Str(redacted_marker()),
    decreases entries.len(),
{
    if entries.len() > 0 {
        lemma_redacted_members(entries.drop_last());
        let r = redact_entries(entries);
        let prev = redact_entries(entries.drop_last());
        assert forall|i: int| 0 <= i < entries.len() - 1 implies #[trigger] r[i] == prev[i] by {}
        assert forall|i: int| 0 <= i < entries.len() - 1 implies entries.drop_last()[i] == #[trigger] entries[i] by {}
    }
}

/// An excerpt is at most 120 characters and the ellipsis.
pub proof fn lemma_excerpt_bounded(value: Seq<char>)
    ensures
        spec_excerpt(value).len() <= 123,
{
    reveal_strlit("...");
}


/// The key prefix `sk-` stands at `k`.
pub open spec fn key_prefix_chars(t: Seq<char>, k: nat) -> bool {
    k + 3 <= t.len() && t[k as int] == 's' && t[(k + 1) as int] == 'k' && t[(k + 2) as int] == '-'
}

/// An `sk-` key that can still be read at `k`: the prefix, then a key
/// character.
pub open spec fn live_key_at(t: Seq<char>, k: nat) -> bool {
    &&& key_prefix_chars(t, k)
    &&& k + 3 < t.len()
    &&& is_token_char(t[(k + 3) as int])
}

/// No `sk-` key can be read in `t`.
pub open spec fn no_live_key(t: Seq<char>) -> bool {
    forall|k: nat| !#[trigger] live_key_at(t, k)
}

proof fn lemma_key_prefix_at(t: Seq<char>, k: nat)
    ensures
        matches_at(t, key_prefix(), k) <==> key_prefix_chars(t, k),
{
    reveal_strlit("sk-");
    if k + 3 <= t.len() && t[k as int] == 's' && t[(k + 1) as int] == 'k' && t[(k + 2) as int] == '-' {
        assert(t.subrange(k as int, (k + 3) as int) =~= key_prefix());
    }
    if matches_at(t, key_prefix(), k) {
        assert(t.subrange(k as int, (k + 3) as int)[0] == t[k as int]);
        assert(t.subrange(k as int, (k + 3) as int)[(1) as int] == t[(k + 1) as int]);
        assert(t.subrange(k as int, (k + 3) as int)[(2) as int] == t[(k + 2) as int]);
    }
}

/// At a key prefix, the key characters run on three past it exactly when
/// no key character follows the prefix.
proof fn lemma_key_run(t: Seq<char>, k: nat)
    requires
        matches_at(t, key_prefix(), k),
    ensures
        run_from(t, k, in_key_token()) >= 3,
        run_from(t, k, in_key_token()) == 3 <==> !(k + 3 < t.len() && is_token_char(t[((k + 3) as int) as int])),
{
    lemma_key_prefix_at(t, k);
    let tok = in_key_token();
    assert(tok(t[k as int]) && tok(t[(k + 1) as int]) && tok(t[(k + 2) as int]));
    assert(run_from(t, k, tok) == 1 + run_from(t, k + 1, tok));
    assert(run_from(t, k + 1, tok) == 1 + run_from(t, k + 2, tok));
    assert(run_from(t, k + 2, tok) == 1 + run_from(t, ((k + 3) as int) as nat, tok));
    if k + 3 < t.len() && is_token_char(t[((k + 3) as int) as int]) {
        assert(run_from(t, ((k + 3) as int) as nat, tok) == 1 + run_from(t, (k + 4) as nat, tok));
    } else {
        assert(run_from(t, ((k + 3) as int) as nat, tok) == 0);
    }
}

/// What is left of a text from `i` on starts with the text's character there.
proof fn lemma_keys_from_first(s: Seq<char>, i: nat)
    requires
        i <= s.len(),
    ensures
        i == s.len() ==> keys_from(s, i).len() == 0,
        i < s.len() ==> keys_from(s, i).len() > 0 && keys_from(s, i)[0] == s[i as int],
{
    reveal_strlit("sk-");
    lemma_find_from_bounds(s, key_prefix(), i);
    match find_from(s, key_prefix(), i) {
        None => {},
        Some(k) => {
            lemma_key_prefix_at(s, k);
            lemma_run_from_bounds(s, k, in_key_token());
        },
    }
}

/// Where no key can be read, redacting keys changes nothing.
proof fn lemma_keys_from_identity(t: Seq<char>, i: nat)
    requires
        no_live_key(t),
        i <= t.len(),
    ensures
        keys_from(t, i) == t.subrange(i as int, t.len() as int),
    decreases t.len() + 1 - i,
{
    reveal_strlit("sk-");
    lemma_find_from_bounds(t, key_prefix(), i);
    match find_from(t, key_prefix(), i) {
        None => {},
        Some(k) => {
            lemma_key_run(t, k);
            assert(!live_key_at(t, k));
            lemma_key_prefix_at(t, k);
            lemma_keys_from_identity(t, k + 3);
            assert(t.subrange(k as int, (k + 3) as int) =~= key_prefix());
            assert(t.subrange(i as int, k as int) + key_prefix() + t.subrange((k + 3) as int, t.len() as int)
                =~= t.subrange(i as int, t.len() as int));
        },
    }
}

/// A text with no key prefix of its own, joined in front of a part that
/// starts with `s` and has no readable key, has no readable key.
proof fn lemma_no_live_key_front(a: Seq<char>, u: Seq<char>)
    requires
        forall|j: nat| j + 3 <= a.len() ==> !#[trigger] key_prefix_chars(a, j),
        u.len() > 0,
        u[0] == 's',
        no_live_key(u),
    ensures
        no_live_key(a + u),
{
    let t = a + u;
    assert forall|p: nat| !#[trigger] live_key_at(t, p) by {
        if live_key_at(t, p) {
            if p + 3 <= a.len() {
                assert(key_prefix_chars(a, p));
            } else if p < a.len() {
                assert(t[a.len() as int] == 's');
            } else {
                let q = (p - a.len()) as nat;
                assert(t[p as int] == u[q as int] && t[(p + 1) as int] == u[(q + 1) as int]
                    && t[(p + 2) as int] == u[(q + 2) as int] && t[(p + 3) as int] == u[(q + 3) as int]);
                assert(live_key_at(u, q));
            }
        }
    }
}

/// `sk-[redacted]` in front of a text with no readable key.
proof fn lemma_no_live_key_marker(r: Seq<char>)
    requires
        no_live_key(r),
    ensures
        no_live_key(seq!['s', 'k', '-', '[', 'r', 'e', 'd', 'a', 'c', 't', 'e', 'd', ']'] + r),
{
    let m = seq!['s', 'k', '-', '[', 'r', 'e', 'd', 'a', 'c', 't', 'e', 'd', ']'];
    let t = m + r;
    assert forall|p: nat| !#[trigger] live_key_at(t, p) by {
        if live_key_at(t, p) {
            if p < 13 {
                assert(t[p as int] == m[p as int]);
                if p == 0 {
                    assert(t[3] == '[');
                } else {
                    assert(p == 1 || p == 2 || p == 3 || p == 4 || p == 5 || p == 6 || p == 7 || p == 8 || p == 9
                        || p == 10 || p == 11 || p == 12);
                }
            } else {
                let q = (p - 13) as nat;
                assert(t[p as int] == r[q as int] && t[(p + 1) as int] == r[(q + 1) as int]
                    && t[(p + 2) as int] == r[(q + 2) as int] && t[(p + 3) as int] == r[(q + 3) as int]);
                assert(live_key_at(r, q));
            }
        }
    }
}

/// A bare `sk-` in front of a text that does not start with a key character.
proof fn lemma_no_live_key_bare(r: Seq<char>)
    requires
        no_live_key(r),
        r.len() > 0 ==> !is_token_char(r[0]),
    ensures
        no_live_key(seq!['s', 'k', '-'] + r),
{
    let m = seq!['s', 'k', '-'];
    let t = m + r;
    assert forall|p: nat| !#[trigger] live_key_at(t, p) by {
        if live_key_at(t, p) {
            if p == 0 {
                assert(t[3] == r[0]);
            } else if p < 3 {
                assert(t[p as int] == m[p as int]);
            } else {
                let q = (p - 3) as nat;
                assert(t[p as int] == r[q as int] && t[(p + 1) as int] == r[(q + 1) as int]
                    && t[(p + 2) as int] == r[(q + 2) as int] && t[(p + 3) as int] == r[(q + 3) as int]);
                assert(live_key_at(r, q));
            }
        }
    }
}

/// After redaction no key can be read.
proof fn lemma_keys_from_no_live_key(s: Seq<char>, i: nat)
    requires
        i <= s.len(),
    ensures
        no_live_key(keys_from(s, i)),
    decreases s.len() + 1 - i,
{
    reveal_strlit("sk-");
    reveal_strlit("[redacted]");
    lemma_find_from_bounds(s, key_prefix(), i);
    let t = keys_from(s, i);
    match find_from(s, key_prefix(), i) {
        None => {
            assert forall|p: nat| !#[trigger] live_key_at(t, p) by {
                if live_key_at(t, p) {
                    assert(t[p as int] == s[(i + p) as int] && t[(p + 1) as int] == s[(i + p + 1) as int]
                        && t[(p + 2) as int] == s[(i + p + 2) as int]);
                    lemma_key_prefix_at(s, i + p);
                }
            }
        },
        Some(k) => {
            lemma_key_run(s, k);
            lemma_key_prefix_at(s, k);
            lemma_run_from_bounds(s, k, in_key_token());
            let run = run_from(s, k, in_key_token());
            let a = s.subrange(i as int, k as int);
            assert forall|j: nat| j + 3 <= a.len() implies !#[trigger] key_prefix_chars(a, j) by {
                lemma_key_prefix_at(s, i + j);
                if key_prefix_chars(a, j) {
                    assert(a[j as int] == s[(i + j) as int] && a[(j + 1) as int] == s[(i + j + 1) as int]
                        && a[(j + 2) as int] == s[(i + j + 2) as int]);
                }
            }
            if run > 3 {
                let m = key_prefix() + redacted_marker();
                assert(m =~= seq!['s', 'k', '-', '[', 'r', 'e', 'd', 'a', 'c', 't', 'e', 'd', ']']);
                let r = keys_from(s, k + run);
                lemma_keys_from_no_live_key(s, k + run);
                lemma_no_live_key_marker(r);
                assert(t == a + (m + r));
                lemma_no_live_key_front(a, m + r);
            } else {
                let r = keys_from(s, k + 3);
                lemma_keys_from_no_live_key(s, k + 3);
                lemma_keys_from_first(s, k + 3);
                assert(key_prefix() =~= seq!['s', 'k', '-']);
                lemma_no_live_key_bare(r);
                assert(t == a + (key_prefix() + r));
                lemma_no_live_key_front(a, key_prefix() + r);
            }
        },
    }
}

/// Redacting `sk-` keys leaves no key that can be read, and redacting again
/// changes nothing.
pub proof fn lemma_key_redaction_complete(s: Seq<char>)
    ensures
        no_live_key(redact_prefixed_tokens(s)),
        redact_prefixed_tokens(redact_prefixed_tokens(s)) == redact_prefixed_tokens(s),
{
    lemma_keys_from_no_live_key(s, 0);
    let t = redact_prefixed_tokens(s);
    lemma_keys_from_identity(t, 0);
    assert(t.subrange(0, t.len() as int) =~= t);
}

} // verus!
