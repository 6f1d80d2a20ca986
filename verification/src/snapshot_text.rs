//! UTF-8 lengths of text, and truncation of text to a byte budget at a
//! character boundary.

use vstd::prelude::*;
use crate::text::{chars_of, string_from_chars};

verus! {

/// The number of bytes of a character's UTF-8 encoding.
pub open spec fn char_width(c: char) -> nat {
    if (c as u32) < 0x80 {
        1
    } else if (c as u32) < 0x800 {
        2
    } else if (c as u32) < 0x10000 {
        3
    } else {
        4
    }
}

/// The number of bytes of a text's UTF-8 encoding.
pub open spec fn byte_len(s: Seq<char>) -> nat
    decreases s.len(),
{
    if s.len() == 0 {
        0
    } else {
        byte_len(s.drop_last()) + char_width(s.last())
    }
}

pub proof fn lemma_byte_len_push(s: Seq<char>, c: char)
    ensures
        byte_len(s.push(c)) == byte_len(s) + char_width(c),
{
    assert(s.push(c).drop_last() == s);
}

pub proof fn lemma_byte_len_prefix_monotone(s: Seq<char>, i: int, j: int)
    requires
        0 <= i <= j <= s.len(),
    ensures
        byte_len(s.take(i)) <= byte_len(s.take(j)),
    decreases j - i,
{
    if i < j {
        lemma_byte_len_prefix_monotone(s, i, j - 1);
        assert(s.take(j).drop_last() == s.take(j - 1));
    }
}

/// The number of leading characters, counting from `i`, that fit together
/// in `budget` bytes.
pub open spec fn fit_from(s: Seq<char>, budget: nat, i: nat) -> nat
    decreases s.len() - i,
{
    if i < s.len() && byte_len(s.take(i as int + 1)) <= budget {
        fit_from(s, budget, i + 1)
    } else {
        i
    }
}

/// The number of leading characters of `s` that fit in `budget` bytes.
pub open spec fn fit(s: Seq<char>, budget: nat) -> nat {
    fit_from(s, budget, 0)
}

pub proof fn lemma_fit_from(s: Seq<char>, budget: nat, i: nat)
    requires
        i <= s.len(),
        byte_len(s.take(i as int)) <= budget,
    ensures
        i <= fit_from(s, budget, i) <= s.len(),
        byte_len(s.take(fit_from(s, budget, i) as int)) <= budget,
        fit_from(s, budget, i) < s.len() ==> byte_len(s.take(fit_from(s, budget, i) as int + 1)) > budget,
    decreases s.len() - i,
{
    if i < s.len() && byte_len(s.take(i as int + 1)) <= budget {
        lemma_fit_from(s, budget, i + 1);
    }
}

/// `fit` is the longest prefix within the budget: the whole text exactly
/// when its length is within the budget.
pub proof fn lemma_fit(s: Seq<char>, budget: nat)
    ensures
        fit(s, budget) <= s.len(),
        byte_len(s.take(fit(s, budget) as int)) <= budget,
        forall|k: int| fit(s, budget) < k <= s.len() ==> byte_len(#[trigger] s.take(k)) > budget,
        (fit(s, budget) == s.len()) == (byte_len(s) <= budget),
{
    assert(s.take(0).len() == 0);
    lemma_fit_from(s, budget, 0);
    let k = fit(s, budget);
    assert forall|m: int| k < m <= s.len() implies byte_len(#[trigger] s.take(m)) > budget by {
        lemma_byte_len_prefix_monotone(s, k as int + 1, m);
    }
    assert(s.take(s.len() as int) == s);
}

/// The horizontal ellipsis that marks a cut.
pub open spec fn ellipsis() -> char {
    '\u{2026}'
}

/// `value` cut to at most `limit` bytes at a character boundary: unchanged
/// where it fits; otherwise, with room for it, the longest prefix that
/// leaves room for an ellipsis, then the ellipsis; with no room for it, the
/// prefix of exactly `limit` bytes, or nothing where `limit` falls inside a
/// character.
pub open spec fn truncated(value: Seq<char>, limit: nat) -> Seq<char> {
    if byte_len(value) <= limit {
        value
    } else if limit <= 3 {
        if byte_len(value.take(fit(value, limit) as int)) == limit {
            value.take(fit(value, limit) as int)
        } else {
            Seq::empty()
        }
    } else {
        value.take(fit(value, (limit - 3) as nat) as int).push(ellipsis())
    }
}

/// The UTF-8 width of a character.
pub fn char_width_exec(c: char) -> (w: usize)
    ensures
        w == char_width(c),
{
    let v = c as u32;
    if v < 0x80 {
        1
    } else if v < 0x800 {
        2
    } else if v < 0x10000 {
        3
    } else {
        4
    }
}

/// How many leading characters fit in `budget` bytes, and their length.
pub fn fit_exec(chars: &[char], budget: usize) -> (r: (usize, usize))
    ensures
        r.0 == fit(chars@, budget as nat),
        r.1 == byte_len(chars@.take(r.0 as int)),
{
    let mut i: usize = 0;
    let mut used: usize = 0;
    assert(chars@.take(0).len() == 0);
    while i < chars.len()
        invariant
            i <= chars@.len(),
            used == byte_len(chars@.take(i as int)),
            used <= budget,
            fit(chars@, budget as nat) == fit_from(chars@, budget as nat, i as nat),
        decreases chars@.len() - i,
    {
        let w = char_width_exec(chars[i]);
        proof {
            assert(chars@.take(i + 1) == chars@.take(i as int).push(chars@[i as int]));
            lemma_byte_len_push(chars@.take(i as int), chars@[i as int]);
        }
        if w > budget - used {
            return (i, used);
        }
        used = used + w;
        i = i + 1;
    }
    (i, used)
}

/// `truncate_utf8`: the text cut to at most `limit` bytes (see
/// [`truncated`]).
pub fn truncate_utf8(value: &str, limit: usize) -> (r: String)
    ensures
        r@ == truncated(value@, limit as nat),
        byte_len(r@) <= limit,
{
    let chars = chars_of(value);
    proof {
        lemma_fit(value@, limit as nat);
    }
    let (all, _) = fit_exec(chars.as_slice(), limit);
    if all == chars.len() {
        return string_from_chars(chars.as_slice());
    }
    if limit <= 3 {
        let (k, used) = fit_exec(chars.as_slice(), limit);
        if used == limit {
            let mut out: Vec<char> = Vec::new();
            crate::redaction::push_range(&mut out, chars.as_slice(), 0, k);
            assert(chars@.subrange(0, k as int) == chars@.take(k as int));
            return string_from_chars(out.as_slice());
        }
        return String::new();
    }
    let (k, used) = fit_exec(chars.as_slice(), limit - 3);
    proof {
        lemma_fit(value@, (limit - 3) as nat);
    }
    let mut out: Vec<char> = Vec::new();
    crate::redaction::push_range(&mut out, chars.as_slice(), 0, k);
    out.push('\u{2026}');
    proof {
        assert(chars@.subrange(0, k as int) == chars@.take(k as int));
        lemma_byte_len_push(chars@.take(k as int), '\u{2026}');
        assert(char_width('\u{2026}') == 3);
    }
    string_from_chars(out.as_slice())
}

/// The UTF-8 length of a text.
pub fn byte_len_exec(s: &str) -> (n: usize)
    requires
        byte_len(s@) <= usize::MAX,
    ensures
        n == byte_len(s@),
{
    let chars = chars_of(s);
    let mut n: usize = 0;
    let mut i: usize = 0;
    while i < chars.len()
        invariant
            chars@ == s@,
            i <= chars@.len(),
            n == byte_len(chars@.take(i as int)),
            byte_len(s@) <= usize::MAX,
        decreases chars@.len() - i,
    {
        proof {
            assert(chars@.take(i + 1) == chars@.take(i as int).push(chars@[i as int]));
            lemma_byte_len_push(chars@.take(i as int), chars@[i as int]);
            lemma_byte_len_prefix_monotone(chars@, i + 1, chars@.len() as int);
            assert(chars@.take(chars@.len() as int) == chars@);
        }
        n = n + char_width_exec(chars[i]);
        i = i + 1;
    }
    assert(chars@.take(chars@.len() as int) == chars@);
    n
}

} // verus!
