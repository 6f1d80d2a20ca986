//! The order of strings (`Ord for str`: by code point, a prefix first), and
//! sorting by it.

use vstd::prelude::*;
use crate::text::chars_of;

verus! {

/// `a <= b` in the order of strings.
pub open spec fn lex_le(a: Seq<char>, b: Seq<char>) -> bool
    decreases a.len(),
{
    if a.len() == 0 {
        true
    } else if b.len() == 0 {
        false
    } else if a[0] != b[0] {
        a[0] < b[0]
    } else {
        lex_le(a.drop_first(), b.drop_first())
    }
}

/// `a < b` in the order of strings.
pub open spec fn lex_lt(a: Seq<char>, b: Seq<char>) -> bool {
    lex_le(a, b) && a != b
}

pub proof fn lemma_lex_total(a: Seq<char>, b: Seq<char>)
    ensures
        lex_le(a, b) || lex_le(b, a),
    decreases a.len(),
{
    if a.len() > 0 && b.len() > 0 && a[0] == b[0] {
        lemma_lex_total(a.drop_first(), b.drop_first());
    }
}

pub proof fn lemma_lex_antisymmetric(a: Seq<char>, b: Seq<char>)
    requires
        lex_le(a, b),
        lex_le(b, a),
    ensures
        a == b,
    decreases a.len(),
{
    if a.len() == 0 {
        assert(b.len() == 0);
        assert(a =~= b);
    } else {
        assert(b.len() > 0);
        assert(a[0] == b[0]);
        lemma_lex_antisymmetric(a.drop_first(), b.drop_first());
        assert(a =~= seq![a[0]] + a.drop_first());
        assert(b =~= seq![b[0]] + b.drop_first());
    }
}

pub proof fn lemma_lex_transitive(a: Seq<char>, b: Seq<char>, c: Seq<char>)
    requires
        lex_le(a, b),
        lex_le(b, c),
    ensures
        lex_le(a, c),
    decreases a.len(),
{
    if a.len() > 0 && b.len() > 0 && c.len() > 0 && a[0] == b[0] && b[0] == c[0] {
        lemma_lex_transitive(a.drop_first(), b.drop_first(), c.drop_first());
    }
}

pub proof fn lemma_lex_reflexive(a: Seq<char>)
    ensures
        lex_le(a, a),
    decreases a.len(),
{
    if a.len() > 0 {
        lemma_lex_reflexive(a.drop_first());
    }
}

/// `a <= b` for strings.
pub fn str_le(a: &str, b: &str) -> (r: bool)
    ensures
        r == lex_le(a@, b@),
{
    let x = chars_of(a);
    let y = chars_of(b);
    let mut i: usize = 0;
    assert(a@.skip(0) == a@ && b@.skip(0) == b@);
    while i < x.len() && i < y.len()
        invariant
            x@ == a@,
            y@ == b@,
            i <= x@.len(),
            i <= y@.len(),
            x@.take(i as int) == y@.take(i as int),
            lex_le(a@, b@) == lex_le(a@.skip(i as int), b@.skip(i as int)),
        decreases x@.len() - i,
    {
        assert(a@.skip(i as int)[0] == a@[i as int]);
        assert(b@.skip(i as int)[0] == b@[i as int]);
        if x[i] != y[i] {
            return x[i] < y[i];
        }
        assert(a@.skip(i as int).drop_first() == a@.skip(i + 1));
        assert(b@.skip(i as int).drop_first() == b@.skip(i + 1));
        assert(x@.take(i + 1) == x@.take(i as int).push(x@[i as int]));
        assert(y@.take(i + 1) == y@.take(i as int).push(y@[i as int]));
        i = i + 1;
    }
    i == x.len()
}

pub proof fn lemma_take_push_set<A>(s: Seq<A>, k: int)
    requires
        0 <= k < s.len(),
    ensures
        s.take(k + 1).to_set() == s.take(k).to_set().insert(s[k]),
{
    assert(s.take(k + 1) == s.take(k).push(s[k]));
    s.take(k).lemma_push_to_set_commute(s[k]);
}

/// Strictly ascending: sorted, no item twice.
pub open spec fn strictly_sorted(v: Seq<Seq<char>>) -> bool {
    forall|i: int, j: int| 0 <= i < j < v.len() ==> lex_lt(#[trigger] v[i], #[trigger] v[j])
}

/// Ascending.
pub open spec fn sorted(v: Seq<Seq<char>>) -> bool {
    forall|i: int, j: int| 0 <= i < j < v.len() ==> lex_le(#[trigger] v[i], #[trigger] v[j])
}

pub open spec fn views(v: Seq<String>) -> Seq<Seq<char>> {
    v.map_values(|s: String| s@)
}

/// The strings of `items`, sorted, each once (`sort` then `dedup`).
pub fn sorted_unique(items: Vec<String>) -> (r: Vec<String>)
    ensures
        strictly_sorted(views(r@)),
        views(r@).to_set() == views(items@).to_set(),
{
    let mut out: Vec<String> = Vec::new();
    let mut k: usize = 0;
    let mut rest = items;
    let ghost all = views(rest@);
    let n = rest.len();
    assert(all.len() == n);
    assert(all.take(0).to_set() =~= Set::<Seq<char>>::empty());
    assert(views(out@).to_set() =~= Set::<Seq<char>>::empty());
    while rest.len() > 0
        invariant
            k + rest@.len() == all.len(),
            all.len() <= usize::MAX,
            views(rest@) == all.skip(k as int),
            strictly_sorted(views(out@)),
            views(out@).to_set() == all.take(k as int).to_set(),
        decreases rest@.len(),
    {
        let ghost old_rest = rest@;
        let x = rest.remove(0);
        proof {
            assert(views(old_rest)[0] == all.skip(k as int)[0]);
            assert(x@ == all[k as int]);
            assert forall|j: int| 0 <= j < rest@.len() implies #[trigger] views(rest@)[j] == all.skip(k + 1)[j] by {
                assert(rest@[j] == old_rest[j + 1]);
                assert(views(old_rest)[j + 1] == all.skip(k as int)[j + 1]);
            }
            assert(views(rest@) =~= all.skip(k + 1));
            assert(all.take(k + 1) == all.take(k as int).push(x@));
        }
        let ghost before = views(out@);
        let mut pos: usize = 0;
        while pos < out.len() && !str_le(x.as_str(), out[pos].as_str())
            invariant
                pos <= out@.len(),
                before == views(out@),
                forall|j: int| 0 <= j < pos ==> lex_lt(#[trigger] before[j], x@),
            decreases out@.len() - pos,
        {
            proof {
                lemma_lex_total(x@, out@[pos as int]@);
                assert(before[pos as int] == out@[pos as int]@);
                if out@[pos as int]@ == x@ {
                    lemma_lex_reflexive(x@);
                }
            }
            pos = pos + 1;
        }
        let duplicate = pos < out.len() && crate::text::str_eq(x.as_str(), out[pos].as_str());
        if !duplicate {
            out.insert(pos, x);
            proof {
                let after = views(out@);
                assert(after =~= before.insert(pos as int, x@));
                assert forall|i: int, j: int| 0 <= i < j < after.len() implies lex_lt(#[trigger] after[i], #[trigger] after[j]) by {
                    if j < pos {
                        assert(after[i] == before[i] && after[j] == before[j]);
                    } else if j == pos {
                        assert(after[i] == before[i]);
                    } else if i < pos {
                        assert(after[i] == before[i] && after[j] == before[j - 1]);
                        assert(lex_lt(before[i], x@));
                        assert(lex_le(x@, before[pos as int]));
                        lemma_lex_transitive(before[i], x@, before[pos as int]);
                        if pos < j - 1 {
                            lemma_lex_transitive(before[i], before[pos as int], before[j - 1]);
                        }
                        if before[i] == before[j - 1] {
                            if pos < j - 1 {
                                assert(lex_lt(before[pos as int], before[j - 1]));
                                lemma_lex_antisymmetric(before[pos as int], before[i]);
                            } else {
                                lemma_lex_antisymmetric(x@, before[i]);
                            }
                        }
                    } else if i == pos {
                        assert(after[j] == before[j - 1]);
                        assert(lex_le(x@, before[pos as int]));
                        assert(x@ != before[pos as int]);
                        if pos < j - 1 {
                            lemma_lex_transitive(x@, before[pos as int], before[j - 1]);
                            if x@ == before[j - 1] {
                                lemma_lex_antisymmetric(x@, before[pos as int]);
                            }
                        }
                    } else {
                        assert(after[i] == before[i - 1] && after[j] == before[j - 1]);
                    }
                }
                assert(after.to_set() =~= before.to_set().insert(x@)) by {
                    assert forall|e: Seq<char>| after.to_set().contains(e) implies before.to_set().insert(x@).contains(e) by {
                        let i = choose|i: int| 0 <= i < after.len() && after[i] == e;
                        if i < pos {
                            assert(before[i] == e);
                        } else if i > pos {
                            assert(before[i - 1] == e);
                        }
                    }
                    assert forall|e: Seq<char>| before.to_set().insert(x@).contains(e) implies after.to_set().contains(e) by {
                        if e == x@ {
                            assert(after[pos as int] == e);
                        } else {
                            let i = choose|i: int| 0 <= i < before.len() && before[i] == e;
                            if i < pos {
                                assert(after[i] == e);
                            } else {
                                assert(after[i + 1] == e);
                            }
                        }
                    }
                }
                lemma_take_push_set(all, k as int);
            }
        } else {
            proof {
                assert(before[pos as int] == x@);
                lemma_take_push_set(all, k as int);
                assert(before.to_set().contains(x@));
                assert(before.to_set().insert(x@) =~= before.to_set());
            }
        }
        k = k + 1;
    }
    assert(all.take(k as int) == all);
    out
}

/// `a < b` exactly when not `b <= a`.
pub proof fn lemma_lex_lt_not_le(a: Seq<char>, b: Seq<char>)
    ensures
        lex_lt(a, b) == !lex_le(b, a),
{
    lemma_lex_total(a, b);
    lemma_lex_reflexive(a);
    if lex_le(a, b) && lex_le(b, a) {
        lemma_lex_antisymmetric(a, b);
    }
}

/// `t` with `x` placed after its last entry `e` with `le(e, x)`: where a
/// stable insertion sort by `le` puts it.
pub open spec fn insert_stable<A>(t: Seq<A>, x: A, le: spec_fn(A, A) -> bool) -> Seq<A>
    decreases t.len(),
{
    if t.len() == 0 {
        seq![x]
    } else if le(t.last(), x) {
        t.push(x)
    } else {
        insert_stable(t.drop_last(), x, le).push(t.last())
    }
}

/// `t` sorted by `le`, entries that `le` does not tell apart in their order
/// in `t`: what a stable sort by `le` gives.
pub open spec fn stable_sort_by<A>(t: Seq<A>, le: spec_fn(A, A) -> bool) -> Seq<A>
    decreases t.len(),
{
    if t.len() == 0 {
        Seq::empty()
    } else {
        insert_stable(stable_sort_by(t.drop_last(), le), t.last(), le)
    }
}

/// Lemma: `insert_stable` puts `x` at `pos` where the entry before `pos`, if
/// any, is `le` it, and no entry from `pos` on is.
pub proof fn lemma_insert_stable_at<A>(t: Seq<A>, x: A, le: spec_fn(A, A) -> bool, pos: int)
    requires
        0 <= pos <= t.len(),
        pos > 0 ==> le(t[pos - 1], x),
        forall|j: int| pos <= j < t.len() ==> !le(#[trigger] t[j], x),
    ensures
        insert_stable(t, x, le) == t.insert(pos, x),
    decreases t.len(),
{
    if pos == t.len() {
        if t.len() == 0 {
            assert(t.insert(0, x) =~= seq![x]);
        } else {
            assert(t.insert(pos, x) =~= t.push(x));
        }
    } else {
        let last = t.last();
        assert(!le(t[t.len() - 1], x));
        assert forall|j: int| pos <= j < t.drop_last().len() implies !le(#[trigger] t.drop_last()[j], x) by {
            assert(t.drop_last()[j] == t[j]);
        }
        lemma_insert_stable_at(t.drop_last(), x, le, pos);
        assert(t.drop_last().insert(pos, x).push(last) =~= t.insert(pos, x));
    }
}

} // verus!
