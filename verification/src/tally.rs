//! Counting occurrences of keys, and ordering the counts by key.

use vstd::prelude::*;
use crate::ordering::{
    lemma_lex_antisymmetric, lemma_lex_lt_not_le, lemma_lex_total, lemma_lex_transitive, lex_lt, str_le,
};
use crate::text::str_eq;

verus! {

/// The position of the first entry with key `k`.
pub open spec fn key_index(t: Seq<(Seq<char>, nat)>, k: Seq<char>) -> Option<nat>
    decreases t.len(),
{
    if t.len() == 0 {
        None
    } else if t[0].0 == k {
        Some(0)
    } else {
        match key_index(t.drop_first(), k) {
            Some(i) => Some(i + 1),
            None => None,
        }
    }
}

/// One more occurrence of `k`.
pub open spec fn tally_add(t: Seq<(Seq<char>, nat)>, k: Seq<char>) -> Seq<(Seq<char>, nat)> {
    match key_index(t, k) {
        Some(i) => t.update(i as int, (k, t[i as int].1 + 1)),
        None => t.push((k, 1)),
    }
}

/// Each distinct key with the number of its occurrences, keys in order of
/// first occurrence.
pub open spec fn tally(keys: Seq<Seq<char>>) -> Seq<(Seq<char>, nat)>
    decreases keys.len(),
{
    if keys.len() == 0 {
        Seq::empty()
    } else {
        tally_add(tally(keys.drop_last()), keys.last())
    }
}

/// The sum of the counts.
pub open spec fn tally_total(t: Seq<(Seq<char>, nat)>) -> nat
    decreases t.len(),
{
    if t.len() == 0 {
        0
    } else {
        tally_total(t.drop_last()) + t.last().1
    }
}

pub open spec fn count_views(v: Seq<(String, usize)>) -> Seq<(Seq<char>, nat)> {
    v.map_values(|p: (String, usize)| (p.0@, p.1 as nat))
}

pub proof fn lemma_key_index(t: Seq<(Seq<char>, nat)>, k: Seq<char>)
    ensures
        key_index(t, k) matches Some(i) ==> i < t.len() && t[i as int].0 == k && forall|j: int| 0 <= j < i ==> #[trigger] t[j].0 != k,
        key_index(t, k) is None ==> forall|j: int| 0 <= j < t.len() ==> #[trigger] t[j].0 != k,
    decreases t.len(),
{
    if t.len() > 0 {
        lemma_key_index(t.drop_first(), k);
        if t[0].0 != k {
            assert forall|j: int| 1 <= j < t.len() implies #[trigger] t[j].0 == t.drop_first()[j - 1].0 by {}
        }
    }
}

proof fn lemma_total_update(t: Seq<(Seq<char>, nat)>, i: int, k: Seq<char>)
    requires
        0 <= i < t.len(),
    ensures
        tally_total(t.update(i, (k, t[i].1 + 1))) == tally_total(t) + 1,
    decreases t.len(),
{
    let u = t.update(i, (k, t[i].1 + 1));
    if i == t.len() - 1 {
        assert(u.drop_last() == t.drop_last());
    } else {
        lemma_total_update(t.drop_last(), i, k);
        assert(u.drop_last() == t.drop_last().update(i, (k, t[i].1 + 1)));
    }
}

/// Every occurrence is counted once: the counts add up to the number of keys.
pub proof fn lemma_tally_total(keys: Seq<Seq<char>>)
    ensures
        tally_total(tally(keys)) == keys.len(),
    decreases keys.len(),
{
    if keys.len() > 0 {
        let prev = tally(keys.drop_last());
        lemma_tally_total(keys.drop_last());
        lemma_key_index(prev, keys.last());
        match key_index(prev, keys.last()) {
            Some(i) => {
                lemma_total_update(prev, i as int, keys.last());
            },
            None => {
                assert(prev.push((keys.last(), 1nat)).drop_last() == prev);
            },
        }
    }
}

pub proof fn lemma_entry_le_total(t: Seq<(Seq<char>, nat)>, j: int)
    requires
        0 <= j < t.len(),
    ensures
        t[j].1 <= tally_total(t),
    decreases t.len(),
{
    if j < t.len() - 1 {
        lemma_entry_le_total(t.drop_last(), j);
    }
}

/// Counts one more occurrence of `key`.
pub fn tally_push(counts: &mut Vec<(String, usize)>, key: &str)
    requires
        forall|j: int| 0 <= j < old(counts)@.len() ==> #[trigger] old(counts)@[j].1 < usize::MAX,
    ensures
        count_views(final(counts)@) == tally_add(count_views(old(counts)@), key@),
{
    let ghost t = count_views(counts@);
    proof {
        lemma_key_index(t, key@);
    }
    let mut i: usize = 0;
    while i < counts.len()
        invariant
            i <= counts@.len(),
            t == count_views(counts@),
            counts@ == old(counts)@,
            forall|j: int| 0 <= j < i ==> #[trigger] t[j].0 != key@,
            forall|j: int| 0 <= j < old(counts)@.len() ==> #[trigger] old(counts)@[j].1 < usize::MAX,
        decreases counts@.len() - i,
    {
        if str_eq(counts[i].0.as_str(), key) {
            proof {
                lemma_key_index(t, key@);
                assert(t[i as int].0 == key@);
                match key_index(t, key@) {
                    Some(m) => {
                        assert(m == i);
                    },
                    None => {
                        assert(t[i as int].0 == key@);
                    },
                }
            }
            let name = counts[i].0.clone();
            let n = counts[i].1;
            assert(old(counts)@[i as int].1 < usize::MAX);
            counts.set(i, (name, n + 1));
            assert(count_views(counts@) =~= t.update(i as int, (key@, t[i as int].1 + 1)));
            return;
        }
        i = i + 1;
    }
    proof {
        match key_index(t, key@) {
            Some(m) => {
                assert(t[m as int].0 == key@);
            },
            None => {},
        }
    }
    counts.push((crate::text::str_to_string(key), 1));
    assert(count_views(counts@) =~= t.push((key@, 1nat)));
}

/// The keys ascend strictly: each key once, in the order of strings.
pub open spec fn keys_ascending(t: Seq<(Seq<char>, nat)>) -> bool {
    forall|i: int, j: int| 0 <= i < j < t.len() ==> lex_lt(#[trigger] t[i].0, #[trigger] t[j].0)
}

/// `x` placed before the first entry whose key comes after its own.
pub open spec fn insert_by_key(t: Seq<(Seq<char>, nat)>, x: (Seq<char>, nat)) -> Seq<(Seq<char>, nat)>
    decreases t.len(),
{
    if t.len() == 0 {
        seq![x]
    } else if lex_lt(x.0, t[0].0) {
        seq![x] + t
    } else {
        seq![t[0]] + insert_by_key(t.drop_first(), x)
    }
}

/// The entries ordered by key, entries with equal keys in their order.
pub open spec fn sort_by_key(t: Seq<(Seq<char>, nat)>) -> Seq<(Seq<char>, nat)>
    decreases t.len(),
{
    if t.len() == 0 {
        Seq::empty()
    } else {
        insert_by_key(sort_by_key(t.drop_last()), t.last())
    }
}

/// Each distinct key with the number of its occurrences, in ascending order
/// of key.
pub open spec fn sorted_tally(keys: Seq<Seq<char>>) -> Seq<(Seq<char>, nat)> {
    sort_by_key(tally(keys))
}

proof fn lemma_lex_lt_transitive(a: Seq<char>, b: Seq<char>, c: Seq<char>)
    requires
        lex_lt(a, b),
        lex_lt(b, c),
    ensures
        lex_lt(a, c),
{
    lemma_lex_transitive(a, b, c);
    if a == c {
        lemma_lex_antisymmetric(a, b);
    }
}

/// Of two different strings, one comes first.
proof fn lemma_lex_lt_total(a: Seq<char>, b: Seq<char>)
    requires
        a != b,
    ensures
        lex_lt(a, b) || lex_lt(b, a),
{
    lemma_lex_total(a, b);
}

proof fn lemma_total_cons(y: (Seq<char>, nat), s: Seq<(Seq<char>, nat)>)
    ensures
        tally_total(seq![y] + s) == y.1 + tally_total(s),
    decreases s.len(),
{
    let ys = seq![y] + s;
    if s.len() > 0 {
        assert(ys.drop_last() == seq![y] + s.drop_last());
        assert(ys.last() == s.last());
        lemma_total_cons(y, s.drop_last());
        assert(tally_total(ys) == tally_total(ys.drop_last()) + ys.last().1);
        assert(tally_total(s) == tally_total(s.drop_last()) + s.last().1);
    } else {
        assert(ys.drop_last() == Seq::<(Seq<char>, nat)>::empty());
        assert(ys.last() == y);
        assert(tally_total(ys.drop_last()) == 0);
        assert(tally_total(ys) == tally_total(ys.drop_last()) + ys.last().1);
        assert(tally_total(s) == 0);
    }
}

proof fn lemma_insert_facts(t: Seq<(Seq<char>, nat)>, x: (Seq<char>, nat))
    ensures
        tally_total(insert_by_key(t, x)) == tally_total(t) + x.1,
        insert_by_key(t, x).len() == t.len() + 1,
        forall|e: (Seq<char>, nat)| #[trigger] insert_by_key(t, x).contains(e) <==> (t.contains(e) || e == x),
    decreases t.len(),
{
    if t.len() == 0 {
        lemma_total_cons(x, t);
        assert(seq![x] + t == seq![x]);
        assert(insert_by_key(t, x)[0] == x);
    } else {
        let rest = t.drop_first();
        assert(t == seq![t[0]] + rest);
        lemma_total_cons(t[0], rest);
        if lex_lt(x.0, t[0].0) {
            lemma_total_cons(x, t);
            assert forall|e: (Seq<char>, nat)| #[trigger] insert_by_key(t, x).contains(e) <==> (t.contains(e) || e == x) by {
                let r = seq![x] + t;
                if r.contains(e) {
                    let k = choose|k: int| 0 <= k < r.len() && r[k] == e;
                    if k > 0 {
                        assert(t[k - 1] == e);
                    }
                }
                if t.contains(e) {
                    let k = choose|k: int| 0 <= k < t.len() && t[k] == e;
                    assert(r[k + 1] == e);
                }
                if e == x {
                    assert(r[0] == e);
                }
            }
        } else {
            lemma_insert_facts(rest, x);
            let sub = insert_by_key(rest, x);
            lemma_total_cons(t[0], sub);
            assert forall|e: (Seq<char>, nat)| #[trigger] insert_by_key(t, x).contains(e) <==> (t.contains(e) || e == x) by {
                let r = seq![t[0]] + sub;
                if r.contains(e) {
                    let k = choose|k: int| 0 <= k < r.len() && r[k] == e;
                    if k > 0 {
                        assert(sub[k - 1] == e);
                        assert(sub.contains(e));
                        if rest.contains(e) {
                            let m = choose|m: int| 0 <= m < rest.len() && rest[m] == e;
                            assert(t[m + 1] == e);
                        }
                    } else {
                        assert(t[0] == e);
                    }
                }
                if t.contains(e) {
                    let k = choose|k: int| 0 <= k < t.len() && t[k] == e;
                    if k > 0 {
                        assert(rest[k - 1] == e);
                        assert(rest.contains(e));
                        assert(sub.contains(e));
                        let m = choose|m: int| 0 <= m < sub.len() && sub[m] == e;
                        assert(r[m + 1] == e);
                    } else {
                        assert(r[0] == e);
                    }
                }
                if e == x {
                    assert(sub.contains(e));
                    let m = choose|m: int| 0 <= m < sub.len() && sub[m] == e;
                    assert(r[m + 1] == e);
                }
            }
        }
    }
}

proof fn lemma_insert_ascending(t: Seq<(Seq<char>, nat)>, x: (Seq<char>, nat))
    requires
        keys_ascending(t),
        forall|i: int| 0 <= i < t.len() ==> (#[trigger] t[i]).0 != x.0,
    ensures
        keys_ascending(insert_by_key(t, x)),
    decreases t.len(),
{
    lemma_insert_facts(t, x);
    if t.len() > 0 {
        let rest = t.drop_first();
        if lex_lt(x.0, t[0].0) {
            let r = seq![x] + t;
            assert forall|i: int, j: int| 0 <= i < j < r.len() implies lex_lt(#[trigger] r[i].0, #[trigger] r[j].0) by {
                if i == 0 {
                    if j > 1 {
                        assert(lex_lt(t[0].0, t[j - 1].0));
                        lemma_lex_lt_transitive(x.0, t[0].0, t[j - 1].0);
                    }
                } else {
                    assert(r[i] == t[i - 1] && r[j] == t[j - 1]);
                }
            }
        } else {
            lemma_lex_lt_total(x.0, t[0].0);
            assert forall|i: int, j: int| 0 <= i < j < rest.len() implies lex_lt(#[trigger] rest[i].0, #[trigger] rest[j].0) by {
                assert(rest[i] == t[i + 1] && rest[j] == t[j + 1]);
            }
            assert forall|i: int| 0 <= i < rest.len() implies (#[trigger] rest[i]).0 != x.0 by {
                assert(rest[i] == t[i + 1]);
            }
            lemma_insert_ascending(rest, x);
            lemma_insert_facts(rest, x);
            let sub = insert_by_key(rest, x);
            let r = seq![t[0]] + sub;
            assert forall|j: int| 0 <= j < sub.len() implies lex_lt(t[0].0, (#[trigger] sub[j]).0) by {
                assert(sub.contains(sub[j]));
                if sub[j] != x {
                    assert(rest.contains(sub[j]));
                    let m = choose|m: int| 0 <= m < rest.len() && rest[m] == sub[j];
                    assert(rest[m] == t[m + 1]);
                }
            }
            assert forall|i: int, j: int| 0 <= i < j < r.len() implies lex_lt(#[trigger] r[i].0, #[trigger] r[j].0) by {
                if i == 0 {
                    assert(r[j] == sub[j - 1]);
                } else {
                    assert(r[i] == sub[i - 1] && r[j] == sub[j - 1]);
                }
            }
        }
    }
}

proof fn lemma_sort_facts(t: Seq<(Seq<char>, nat)>)
    ensures
        tally_total(sort_by_key(t)) == tally_total(t),
        sort_by_key(t).len() == t.len(),
        forall|e: (Seq<char>, nat)| #[trigger] sort_by_key(t).contains(e) <==> t.contains(e),
        (forall|i: int, j: int| 0 <= i < j < t.len() ==> #[trigger] t[i].0 != #[trigger] t[j].0)
            ==> keys_ascending(sort_by_key(t)),
    decreases t.len(),
{
    if t.len() > 0 {
        let prev = t.drop_last();
        lemma_sort_facts(prev);
        lemma_insert_facts(sort_by_key(prev), t.last());
        assert forall|e: (Seq<char>, nat)| #[trigger] sort_by_key(t).contains(e) <==> t.contains(e) by {
            if t.contains(e) {
                let k = choose|k: int| 0 <= k < t.len() && t[k] == e;
                if k < t.len() - 1 {
                    assert(prev[k] == e);
                    assert(prev.contains(e));
                }
            }
            if prev.contains(e) {
                let k = choose|k: int| 0 <= k < prev.len() && prev[k] == e;
                assert(t[k] == e);
            }
            if e == t.last() {
                assert(t[t.len() - 1] == e);
            }
        }
        if forall|i: int, j: int| 0 <= i < j < t.len() ==> #[trigger] t[i].0 != #[trigger] t[j].0 {
            let s = sort_by_key(prev);
            assert forall|i: int| 0 <= i < s.len() implies (#[trigger] s[i]).0 != t.last().0 by {
                assert(s.contains(s[i]));
                assert(prev.contains(s[i]));
                let k = choose|k: int| 0 <= k < prev.len() && prev[k] == s[i];
                assert(prev[k] == t[k]);
                assert(t[k].0 != t[t.len() - 1].0);
            }
            assert forall|i: int, j: int| 0 <= i < j < prev.len() implies #[trigger] prev[i].0 != #[trigger] prev[j].0 by {
                assert(prev[i] == t[i] && prev[j] == t[j]);
            }
            lemma_insert_ascending(s, t.last());
        }
    }
}

pub proof fn lemma_tally_distinct(keys: Seq<Seq<char>>)
    ensures
        forall|i: int, j: int| 0 <= i < j < tally(keys).len() ==> #[trigger] tally(keys)[i].0 != #[trigger] tally(keys)[j].0,
    decreases keys.len(),
{
    if keys.len() > 0 {
        let prev = tally(keys.drop_last());
        lemma_tally_distinct(keys.drop_last());
        lemma_key_index(prev, keys.last());
        let t = tally(keys);
        match key_index(prev, keys.last()) {
            Some(m) => {
                assert forall|i: int, j: int| 0 <= i < j < t.len() implies #[trigger] t[i].0 != #[trigger] t[j].0 by {
                    assert(t[i].0 == prev[i].0);
                    assert(t[j].0 == prev[j].0);
                }
            },
            None => {
                assert forall|i: int, j: int| 0 <= i < j < t.len() implies #[trigger] t[i].0 != #[trigger] t[j].0 by {
                    assert(t[i] == prev[i]);
                    if j < prev.len() {
                        assert(t[j] == prev[j]);
                    }
                }
            },
        }
    }
}

/// The counts name each key once, in ascending order of key, and add up to
/// the number of keys counted.
pub proof fn lemma_sorted_tally(keys: Seq<Seq<char>>)
    ensures
        keys_ascending(sorted_tally(keys)),
        tally_total(sorted_tally(keys)) == keys.len(),
{
    lemma_tally_distinct(keys);
    lemma_sort_facts(tally(keys));
    lemma_tally_total(keys);
}

/// Lemma: `insert_by_key` puts `x` at the first position `p` whose key comes
/// after `x`'s.
proof fn lemma_insert_at(t: Seq<(Seq<char>, nat)>, x: (Seq<char>, nat), p: int)
    requires
        0 <= p <= t.len(),
        forall|j: int| 0 <= j < p ==> !lex_lt(x.0, (#[trigger] t[j]).0),
        p < t.len() ==> lex_lt(x.0, t[p].0),
    ensures
        insert_by_key(t, x) == t.take(p).push(x) + t.skip(p),
    decreases t.len(),
{
    if t.len() == 0 {
        assert(t.take(p).push(x) + t.skip(p) == seq![x]);
    } else if p == 0 {
        assert(t.take(0).push(x) + t.skip(0) == seq![x] + t);
    } else {
        let rest = t.drop_first();
        assert forall|j: int| 0 <= j < p - 1 implies !lex_lt(x.0, (#[trigger] rest[j]).0) by {
            assert(rest[j] == t[j + 1]);
        }
        if p < t.len() {
            assert(rest[p - 1] == t[p]);
        }
        lemma_insert_at(rest, x, p - 1);
        assert(seq![t[0]] + (rest.take(p - 1).push(x) + rest.skip(p - 1)) == t.take(p).push(x) + t.skip(p));
    }
}

/// The counts ordered by key.
pub fn sort_counts_by_key(counts: Vec<(String, usize)>) -> (r: Vec<(String, usize)>)
    ensures
        count_views(r@) == sort_by_key(count_views(counts@)),
{
    let ghost t = count_views(counts@);
    let mut out: Vec<(String, usize)> = Vec::new();
    let mut i: usize = 0;
    while i < counts.len()
        invariant
            i <= counts@.len(),
            t == count_views(counts@),
            count_views(out@) == sort_by_key(t.take(i as int)),
        decreases counts@.len() - i,
    {
        let ghost s = count_views(out@);
        let ghost x = t[i as int];
        proof {
            assert(t.take(i + 1).drop_last() == t.take(i as int));
            assert(t.take(i + 1).last() == x);
        }
        let mut p: usize = 0;
        while p < out.len() && str_le(out[p].0.as_str(), counts[i].0.as_str())
            invariant
                p <= out@.len(),
                s == count_views(out@),
                x == t[i as int],
                i < counts@.len(),
                t == count_views(counts@),
                forall|j: int| 0 <= j < p ==> !lex_lt(x.0, (#[trigger] s[j]).0),
            decreases out@.len() - p,
        {
            proof {
                lemma_lex_lt_not_le(x.0, s[p as int].0);
            }
            p = p + 1;
        }
        proof {
            if p < out@.len() {
                lemma_lex_lt_not_le(x.0, s[p as int].0);
            }
            lemma_insert_at(s, x, p as int);
        }
        let entry = (counts[i].0.clone(), counts[i].1);
        out.insert(p, entry);
        assert(count_views(out@) =~= s.take(p as int).push(x) + s.skip(p as int));
        i = i + 1;
    }
    assert(t.take(counts@.len() as int) == t);
    out
}

} // verus!
