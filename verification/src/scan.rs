//! Searching and matching over character sequences.

use vstd::prelude::*;

verus! {

/// `p` occurs in `s` at position `i`.
pub open spec fn matches_at(s: Seq<char>, p: Seq<char>, i: nat) -> bool {
    i + p.len() <= s.len() && s.subrange(i as int, (i + p.len()) as int) == p
}

/// The first position at or after `i` where `p` occurs in `s` (`str::find` on
/// the suffix that starts at `i`).
pub open spec fn find_from(s: Seq<char>, p: Seq<char>, i: nat) -> Option<nat>
    decreases s.len() + 1 - i,
{
    if i + p.len() > s.len() {
        None
    } else if matches_at(s, p, i) {
        Some(i)
    } else {
        find_from(s, p, i + 1)
    }
}

pub proof fn lemma_find_from_bounds(s: Seq<char>, p: Seq<char>, i: nat)
    ensures
        find_from(s, p, i) matches Some(k) ==> i <= k && k + p.len() <= s.len() && matches_at(s, p, k),
        find_from(s, p, i) is None ==> forall|k: nat| i <= k ==> !#[trigger] matches_at(s, p, k),
        find_from(s, p, i) matches Some(k) ==> forall|j: nat| i <= j < k ==> !#[trigger] matches_at(s, p, j),
    decreases s.len() + 1 - i,
{
    if i + p.len() > s.len() {
    } else if matches_at(s, p, i) {
    } else {
        lemma_find_from_bounds(s, p, i + 1);
        assert(find_from(s, p, i) == find_from(s, p, i + 1));
    }
}

/// The number of characters, from position `i` on, that all satisfy `keep`.
pub open spec fn run_from(s: Seq<char>, i: nat, keep: spec_fn(char) -> bool) -> nat
    decreases s.len() - i,
{
    if i < s.len() && keep(s[i as int]) {
        1 + run_from(s, i + 1, keep)
    } else {
        0
    }
}

pub proof fn lemma_run_from_bounds(s: Seq<char>, i: nat, keep: spec_fn(char) -> bool)
    ensures
        i <= s.len() ==> i + run_from(s, i, keep) <= s.len(),
        forall|k: int| i <= k < i + run_from(s, i, keep) ==> keep(#[trigger] s[k]),
        i + run_from(s, i, keep) < s.len() ==> !keep(s[(i + run_from(s, i, keep)) as int]),
    decreases s.len() - i,
{
    if i < s.len() && keep(s[i as int]) {
        lemma_run_from_bounds(s, i + 1, keep);
    }
}

/// Whether `p` occurs in `s` at position `i`.
pub fn matches_at_exec(s: &[char], p: &[char], i: usize) -> (r: bool)
    ensures
        r == matches_at(s@, p@, i as nat),
{
    if i > s.len() || p.len() > s.len() - i {
        return false;
    }
    let mut k: usize = 0;
    while k < p.len()
        invariant
            i + p@.len() <= s@.len(),
            s@.len() <= usize::MAX,
            k <= p@.len(),
            forall|j: int| 0 <= j < k ==> s@[i + j] == p@[j],
        decreases p@.len() - k,
    {
        if s[i + k] != p[k] {
            assert(s@.subrange(i as int, i + p@.len())[k as int] != p@[k as int]);
            return false;
        }
        k = k + 1;
    }
    assert(s@.subrange(i as int, i + p@.len()) =~= p@);
    true
}

/// The first position at or after `i` where `p` occurs in `s`.
pub fn find_from_exec(s: &[char], p: &[char], i: usize) -> (r: Option<usize>)
    requires
        i <= s@.len(),
    ensures
        r matches Some(k) ==> find_from(s@, p@, i as nat) == Some(k as nat),
        r matches Some(k) ==> i <= k && k + p@.len() <= s@.len(),
        r is None ==> find_from(s@, p@, i as nat) is None,
{
    proof {
        lemma_find_from_bounds(s@, p@, i as nat);
    }
    if p.len() > s.len() || i > s.len() - p.len() {
        return None;
    }
    let last = s.len() - p.len();
    let mut k: usize = i;
    while k < last
        invariant
            i <= k <= last,
            last + p@.len() == s@.len(),
            find_from(s@, p@, i as nat) == find_from(s@, p@, k as nat),
        decreases last - k,
    {
        if matches_at_exec(s, p, k) {
            return Some(k);
        }
        k = k + 1;
    }
    if matches_at_exec(s, p, k) {
        Some(k)
    } else {
        assert(find_from(s@, p@, (k + 1) as nat) is None);
        None
    }
}

} // verus!
