//! The compact page snapshot handed to the model: which elements of the
//! page make it in, in which order, and how much of their text.

use vstd::prelude::*;
use crate::json::{JsonValue, JsonView};
use crate::snapshot_text::{byte_len, truncate_utf8, truncated};
use crate::text::{decimal, opt_string_view, str_eq, str_to_string, u64_to_decimal};

verus! {

/// A node of the page's accessibility snapshot.
#[derive(Debug)]
pub struct BrowserSnapshotNode {
    pub element_ref: String,
    pub role: Option<String>,
    pub name: Option<String>,
    pub value: Option<String>,
    pub description: Option<String>,
    pub disabled: bool,
    pub focused: bool,
    pub editable: bool,
    pub sensitive_input_kind: Option<String>,
    pub children: Vec<BrowserSnapshotNode>,
}

/// A snapshot node without its children.
#[derive(Debug)]
pub struct SnapshotElement {
    pub element_ref: String,
    pub role: Option<String>,
    pub name: Option<String>,
    pub value: Option<String>,
    pub description: Option<String>,
    pub disabled: bool,
    pub focused: bool,
    pub editable: bool,
    pub sensitive_input_kind: Option<String>,
}

/// A page snapshot as the browser host reports it.
#[derive(Debug)]
pub struct BrowserHostSnapshot {
    pub root: BrowserSnapshotNode,
    pub navigation_revision: u64,
    pub snapshot_revision: u64,
    pub accessibility_tree: Vec<JsonValue>,
}

pub open spec fn element_of(node: BrowserSnapshotNode) -> SnapshotElement {
    SnapshotElement {
        element_ref: node.element_ref,
        role: node.role,
        name: node.name,
        value: node.value,
        description: node.description,
        disabled: node.disabled,
        focused: node.focused,
        editable: node.editable,
        sensitive_input_kind: node.sensitive_input_kind,
    }
}

/// The descendants of a node, each before its own descendants, siblings in
/// order (the root itself excluded).
pub open spec fn descendants(node: BrowserSnapshotNode) -> Seq<SnapshotElement>
    decreases node,
{
    descendants_of(node.children@, node)
}

pub open spec fn descendants_of(children: Seq<BrowserSnapshotNode>, parent: BrowserSnapshotNode) -> Seq<SnapshotElement>
    decreases parent, children.len(),
{
    if children.len() == 0 {
        Seq::empty()
    } else if decreases_to!(parent => children.last()) {
        descendants_of(children.drop_last(), parent) + seq![element_of(children.last())]
            + descendants(children.last())
    } else {
        Seq::empty()
    }
}

fn element_copy(node: &BrowserSnapshotNode) -> (r: SnapshotElement)
    ensures
        r == element_of(*node),
{
    SnapshotElement {
        element_ref: node.element_ref.clone(),
        role: crate::text::copy_opt_string(&node.role),
        name: crate::text::copy_opt_string(&node.name),
        value: crate::text::copy_opt_string(&node.value),
        description: crate::text::copy_opt_string(&node.description),
        disabled: node.disabled,
        focused: node.focused,
        editable: node.editable,
        sensitive_input_kind: crate::text::copy_opt_string(&node.sensitive_input_kind),
    }
}

/// Appends the descendants of `node` to `out`.
pub fn collect_snapshot_nodes(node: &BrowserSnapshotNode, out: &mut Vec<SnapshotElement>)
    ensures
        final(out)@ == old(out)@ + descendants(*node),
    decreases node,
{
    let ghost start = out@;
    let mut i: usize = 0;
    while i < node.children.len()
        invariant
            i <= node.children@.len(),
            out@ == start + descendants_of(node.children@.take(i as int), *node),
        decreases node.children@.len() - i,
    {
        let child = &node.children[i];
        proof {
            assert(node.children@.take(i + 1).drop_last() == node.children@.take(i as int));
            assert(node.children@.take(i + 1).last() == node.children@[i as int]);
            assert(decreases_to!(*node => node.children@[i as int]));
        }
        out.push(element_copy(child));
        collect_snapshot_nodes(child, out);
        i = i + 1;
    }
    assert(node.children@.take(node.children@.len() as int) == node.children@);
}

/// The most elements a model snapshot holds.
pub const MODEL_SNAPSHOT_ELEMENT_LIMIT: usize = 96;
/// The bytes of text a model snapshot holds, over all its fields.
pub const MODEL_SNAPSHOT_TEXT_LIMIT_BYTES: usize = 10240;
/// The bytes of text one field holds.
pub const FIELD_LIMIT_BYTES: usize = 160;
/// The number of priority classes.
pub const PRIORITY_COUNT: usize = 7;

/// The priority class of an element: the focused one, editable ones, text
/// inputs, other controls, links, headings, and the rest.
pub open spec fn node_priority(e: SnapshotElement) -> nat {
    if e.focused {
        0
    } else if e.editable {
        1
    } else {
        match opt_string_view(e.role) {
            Some(r) => if r == "searchbox"@ || r == "textbox"@ || r == "combobox"@ {
                2
            } else if r == "button"@ || r == "checkbox"@ || r == "radio"@ || r == "switch"@ {
                3
            } else if r == "link"@ {
                4
            } else if r == "heading"@ {
                5
            } else {
                6
            },
            None => 6,
        }
    }
}

/// The priority class of a snapshot element.
pub fn snapshot_node_priority(e: &SnapshotElement) -> (r: u8)
    ensures
        r == node_priority(*e),
{
    if e.focused {
        return 0;
    }
    if e.editable {
        return 1;
    }
    match &e.role {
        Some(r) => {
            let r = r.as_str();
            if str_eq(r, "searchbox") || str_eq(r, "textbox") || str_eq(r, "combobox") {
                2
            } else if str_eq(r, "button") || str_eq(r, "checkbox") || str_eq(r, "radio") || str_eq(r, "switch") {
                3
            } else if str_eq(r, "link") {
                4
            } else if str_eq(r, "heading") {
                5
            } else {
                6
            }
        },
        None => 6,
    }
}

/// How many elements of each priority class are taken first.
pub open spec fn priority_budget(p: nat) -> nat {
    if p == 0 {
        4
    } else if p == 1 {
        16
    } else if p == 2 {
        20
    } else if p == 3 {
        28
    } else if p == 4 {
        12
    } else if p == 5 {
        12
    } else {
        4
    }
}

fn priority_budget_exec(p: usize) -> (r: usize)
    ensures
        r == priority_budget(p as nat),
{
    if p == 0 {
        4
    } else if p == 1 {
        16
    } else if p == 2 {
        20
    } else if p == 3 {
        28
    } else if p == 4 {
        12
    } else if p == 5 {
        12
    } else {
        4
    }
}

/// The positions, in order, of the elements of priority class `p`.
pub open spec fn priority_indices(nodes: Seq<SnapshotElement>, p: nat) -> Seq<int>
    decreases nodes.len(),
{
    if nodes.len() == 0 {
        Seq::empty()
    } else if node_priority(nodes.last()) == p {
        priority_indices(nodes.drop_last(), p).push(nodes.len() - 1)
    } else {
        priority_indices(nodes.drop_last(), p)
    }
}

/// The first `n` items of `s`, or all of them where there are fewer.
pub open spec fn take_at_most<A>(s: Seq<A>, n: nat) -> Seq<A> {
    if n <= s.len() {
        s.take(n as int)
    } else {
        s
    }
}

/// The first pick: for each priority class in turn, its first elements up to
/// the class's budget.
pub open spec fn priority_picks(nodes: Seq<SnapshotElement>, classes: nat) -> Seq<int>
    decreases classes,
{
    if classes == 0 {
        Seq::empty()
    } else {
        priority_picks(nodes, (classes - 1) as nat) + take_at_most(
            priority_indices(nodes, (classes - 1) as nat),
            priority_budget((classes - 1) as nat),
        )
    }
}

/// The element references of the picked positions.
pub open spec fn picked_refs(nodes: Seq<SnapshotElement>, picks: Seq<int>) -> Set<Seq<char>> {
    Set::new(|r: Seq<char>| exists|k: int| 0 <= k < picks.len() && nodes[#[trigger] picks[k]].element_ref@ == r)
}

/// The second pick: from position `i` on, in document order, elements whose
/// reference was not picked yet, until the snapshot is full.
pub open spec fn fill_picks(nodes: Seq<SnapshotElement>, i: nat, picks: Seq<int>, refs: Set<Seq<char>>) -> Seq<int>
    decreases nodes.len() - i,
{
    if i >= nodes.len() || picks.len() >= MODEL_SNAPSHOT_ELEMENT_LIMIT {
        picks
    } else if refs.contains(nodes[i as int].element_ref@) {
        fill_picks(nodes, i + 1, picks, refs)
    } else {
        fill_picks(nodes, i + 1, picks.push(i as int), refs.insert(nodes[i as int].element_ref@))
    }
}

/// The positions of the elements a model snapshot shows, in the order shown.
pub open spec fn selected_positions(nodes: Seq<SnapshotElement>) -> Seq<int> {
    let first = priority_picks(nodes, PRIORITY_COUNT as nat);
    fill_picks(nodes, 0, first, picked_refs(nodes, first))
}

pub proof fn lemma_priority_indices(nodes: Seq<SnapshotElement>, p: nat)
    ensures
        priority_indices(nodes, p).len() <= nodes.len(),
        forall|k: int| 0 <= k < priority_indices(nodes, p).len() ==> 0 <= #[trigger] priority_indices(nodes, p)[k] < nodes.len(),
    decreases nodes.len(),
{
    if nodes.len() > 0 {
        lemma_priority_indices(nodes.drop_last(), p);
    }
}

pub proof fn lemma_priority_picks(nodes: Seq<SnapshotElement>, classes: nat)
    ensures
        priority_picks(nodes, classes).len() <= priority_picks_bound(classes),
        forall|k: int| 0 <= k < priority_picks(nodes, classes).len() ==> 0 <= #[trigger] priority_picks(nodes, classes)[k] < nodes.len(),
    decreases classes,
{
    if classes > 0 {
        lemma_priority_picks(nodes, (classes - 1) as nat);
        lemma_priority_indices(nodes, (classes - 1) as nat);
        let prev = priority_picks(nodes, (classes - 1) as nat);
        let add = take_at_most(priority_indices(nodes, (classes - 1) as nat), priority_budget((classes - 1) as nat));
        assert forall|k: int| 0 <= k < priority_picks(nodes, classes).len() implies 0 <= #[trigger] priority_picks(nodes, classes)[k] < nodes.len() by {
            if k >= prev.len() {
                assert(priority_picks(nodes, classes)[k] == add[k - prev.len()]);
                assert(add[k - prev.len()] == priority_indices(nodes, (classes - 1) as nat)[k - prev.len()]);
            } else {
                assert(priority_picks(nodes, classes)[k] == prev[k]);
            }
        }
    }
}

/// The most positions the first `classes` priority classes can pick.
pub open spec fn priority_picks_bound(classes: nat) -> nat
    decreases classes,
{
    if classes == 0 {
        0
    } else {
        priority_picks_bound((classes - 1) as nat) + priority_budget((classes - 1) as nat)
    }
}

pub proof fn lemma_fill_picks(nodes: Seq<SnapshotElement>, i: nat, picks: Seq<int>, refs: Set<Seq<char>>)
    requires
        picks.len() <= MODEL_SNAPSHOT_ELEMENT_LIMIT,
        forall|k: int| 0 <= k < picks.len() ==> 0 <= #[trigger] picks[k] < nodes.len(),
    ensures
        fill_picks(nodes, i, picks, refs).len() <= MODEL_SNAPSHOT_ELEMENT_LIMIT,
        forall|k: int| 0 <= k < fill_picks(nodes, i, picks, refs).len()
            ==> 0 <= #[trigger] fill_picks(nodes, i, picks, refs)[k] < nodes.len(),
    decreases nodes.len() - i,
{
    if i >= nodes.len() || picks.len() >= MODEL_SNAPSHOT_ELEMENT_LIMIT {
    } else if refs.contains(nodes[i as int].element_ref@) {
        lemma_fill_picks(nodes, i + 1, picks, refs);
    } else {
        let next = picks.push(i as int);
        assert forall|k: int| 0 <= k < next.len() implies 0 <= #[trigger] next[k] < nodes.len() by {
            if k < picks.len() {
                assert(next[k] == picks[k]);
            }
        }
        lemma_fill_picks(nodes, i + 1, next, refs.insert(nodes[i as int].element_ref@));
    }
}

/// A model snapshot shows at most its element limit of elements, each an
/// element of the page.
pub proof fn lemma_selected_positions(nodes: Seq<SnapshotElement>)
    ensures
        selected_positions(nodes).len() <= MODEL_SNAPSHOT_ELEMENT_LIMIT,
        forall|k: int| 0 <= k < selected_positions(nodes).len()
            ==> 0 <= #[trigger] selected_positions(nodes)[k] < nodes.len(),
{
    lemma_priority_picks(nodes, PRIORITY_COUNT as nat);
    assert(priority_picks_bound(PRIORITY_COUNT as nat) == 96) by {
        reveal_with_fuel(priority_picks_bound, 8);
    }
    let first = priority_picks(nodes, PRIORITY_COUNT as nat);
    lemma_fill_picks(nodes, 0, first, picked_refs(nodes, first));
}

/// The texts held in a list of strings.
pub open spec fn string_set(v: Seq<String>) -> Set<Seq<char>> {
    Set::new(|r: Seq<char>| exists|k: int| 0 <= k < v.len() && (#[trigger] v[k])@ == r)
}

pub open spec fn positions(v: Seq<usize>) -> Seq<int> {
    v.map_values(|i: usize| i as int)
}

fn strings_contain(v: &Vec<String>, s: &str) -> (r: bool)
    ensures
        r == string_set(v@).contains(s@),
{
    let mut k: usize = 0;
    while k < v.len()
        invariant
            k <= v@.len(),
            forall|j: int| 0 <= j < k ==> (#[trigger] v@[j])@ != s@,
        decreases v@.len() - k,
    {
        if str_eq(v[k].as_str(), s) {
            assert(string_set(v@).contains(s@)) by {
                assert(v@[k as int]@ == s@);
            }
            return true;
        }
        k = k + 1;
    }
    false
}

/// The positions of the elements that a model snapshot shows, in the order
/// shown: the priority picks, then the others in document order whose
/// reference is new, up to the element limit.
pub fn select_snapshot_elements(nodes: &Vec<SnapshotElement>) -> (r: Vec<usize>)
    ensures
        positions(r@) == selected_positions(nodes@),
{
    let n = nodes.len();
    let mut picks: Vec<usize> = Vec::new();
    let mut p: usize = 0;
    while p < PRIORITY_COUNT
        invariant
            n == nodes@.len(),
            p <= PRIORITY_COUNT,
            positions(picks@) == priority_picks(nodes@, p as nat),
        decreases PRIORITY_COUNT - p,
    {
        let budget = priority_budget_exec(p);
        let ghost before = positions(picks@);
        let mut taken: usize = 0;
        let mut i: usize = 0;
        assert(nodes@.take(0).len() == 0);
        assert(priority_indices(nodes@.take(0), p as nat).len() == 0);
        assert(take_at_most(priority_indices(nodes@.take(0), p as nat), budget as nat) =~= Seq::<int>::empty());
        assert(positions(picks@) =~= before + Seq::<int>::empty());
        while i < n
            invariant
                n == nodes@.len(),
                i <= n,
                p < PRIORITY_COUNT,
                budget == priority_budget(p as nat),
                before == priority_picks(nodes@, p as nat),
                positions(picks@) == before + take_at_most(priority_indices(nodes@.take(i as int), p as nat), budget as nat),
                taken == take_at_most(priority_indices(nodes@.take(i as int), p as nat), budget as nat).len(),
                taken <= budget,
            decreases n - i,
        {
            let ghost old_ix = priority_indices(nodes@.take(i as int), p as nat);
            proof {
                assert(nodes@.take(i + 1).drop_last() == nodes@.take(i as int));
                assert(nodes@.take(i + 1).last() == nodes@[i as int]);
            }
            let prio = snapshot_node_priority(&nodes[i]);
            if prio as usize == p {
                let ghost new_ix = old_ix.push(i as int);
                assert(priority_indices(nodes@.take(i + 1), p as nat) == new_ix);
                if taken < budget {
                    let ghost old_picks = picks@;
                    picks.push(i);
                    assert(positions(picks@) =~= positions(old_picks).push(i as int));
                    taken = taken + 1;
                    proof {
                        assert(take_at_most(old_ix, budget as nat) == old_ix);
                        assert(take_at_most(new_ix, budget as nat) == new_ix);
                        assert(positions(picks@) =~= before + new_ix);
                    }
                } else {
                    assert(take_at_most(new_ix, budget as nat) =~= take_at_most(old_ix, budget as nat));
                }
            } else {
                assert(priority_indices(nodes@.take(i + 1), p as nat) == old_ix);
            }
            i = i + 1;
        }
        assert(nodes@.take(n as int) == nodes@);
        p = p + 1;
    }
    let ghost first = positions(picks@);
    proof {
        lemma_priority_picks(nodes@, PRIORITY_COUNT as nat);
        assert forall|j: int| 0 <= j < picks@.len() implies #[trigger] picks@[j] < nodes@.len() by {
            assert(first[j] == picks@[j] as int);
        }
    }
    let mut refs: Vec<String> = Vec::new();
    let mut k: usize = 0;
    while k < picks.len()
        invariant
            k <= picks@.len(),
            first == positions(picks@),
            forall|j: int| 0 <= j < picks@.len() ==> #[trigger] picks@[j] < nodes@.len(),
            string_set(refs@) == picked_refs(nodes@, first.take(k as int)),
        decreases picks@.len() - k,
    {
        let ghost before = refs@;
        refs.push(nodes[picks[k]].element_ref.clone());
        proof {
            assert(first.take(k + 1) == first.take(k as int).push(first[k as int]));
            assert(string_set(refs@) =~= string_set(before).insert(nodes@[picks@[k as int] as int].element_ref@)) by {
                assert forall|r: Seq<char>| string_set(refs@).contains(r) implies string_set(before).insert(nodes@[picks@[k as int] as int].element_ref@).contains(r) by {
                    let j = choose|j: int| 0 <= j < refs@.len() && (#[trigger] refs@[j])@ == r;
                    if j < before.len() {
                        assert(refs@[j] == before[j]);
                    }
                }
                assert forall|r: Seq<char>| string_set(before).insert(nodes@[picks@[k as int] as int].element_ref@).contains(r) implies string_set(refs@).contains(r) by {
                    if r == nodes@[picks@[k as int] as int].element_ref@ {
                        assert(refs@[before.len() as int]@ == r);
                    } else {
                        let j = choose|j: int| 0 <= j < before.len() && (#[trigger] before[j])@ == r;
                        assert(refs@[j] == before[j]);
                    }
                }
            }
            let t = first.take(k as int);
            let t1 = first.take(k + 1);
            assert(picked_refs(nodes@, t1) =~= picked_refs(nodes@, t).insert(nodes@[first[k as int]].element_ref@)) by {
                assert forall|r: Seq<char>| picked_refs(nodes@, t1).contains(r) implies picked_refs(nodes@, t).insert(nodes@[first[k as int]].element_ref@).contains(r) by {
                    let j = choose|j: int| 0 <= j < t1.len() && nodes@[#[trigger] t1[j]].element_ref@ == r;
                    if j < t.len() {
                        assert(t1[j] == t[j]);
                    }
                }
                assert forall|r: Seq<char>| picked_refs(nodes@, t).insert(nodes@[first[k as int]].element_ref@).contains(r) implies picked_refs(nodes@, t1).contains(r) by {
                    if r == nodes@[first[k as int]].element_ref@ {
                        assert(nodes@[t1[k as int]].element_ref@ == r);
                    } else {
                        let j = choose|j: int| 0 <= j < t.len() && nodes@[#[trigger] t[j]].element_ref@ == r;
                        assert(t1[j] == t[j]);
                    }
                }
            }
        }
        k = k + 1;
    }
    assert(first.take(picks@.len() as int) == first);
    let mut i: usize = 0;
    while i < n
        invariant
            n == nodes@.len(),
            i <= n,
            selected_positions(nodes@) == fill_picks(nodes@, i as nat, positions(picks@), string_set(refs@)),
        decreases n - i,
    {
        if picks.len() >= MODEL_SNAPSHOT_ELEMENT_LIMIT {
            return picks;
        }
        let r = nodes[i].element_ref.as_str();
        if !strings_contain(&refs, r) {
            let ghost before_refs = refs@;
            let ghost before_picks = picks@;
            picks.push(i);
            refs.push(nodes[i].element_ref.clone());
            proof {
                assert(positions(picks@) =~= positions(before_picks).push(i as int));
                assert(string_set(refs@) =~= string_set(before_refs).insert(nodes@[i as int].element_ref@)) by {
                    assert forall|x: Seq<char>| string_set(refs@).contains(x) implies string_set(before_refs).insert(nodes@[i as int].element_ref@).contains(x) by {
                        let j = choose|j: int| 0 <= j < refs@.len() && (#[trigger] refs@[j])@ == x;
                        if j < before_refs.len() {
                            assert(refs@[j] == before_refs[j]);
                        }
                    }
                    assert forall|x: Seq<char>| string_set(before_refs).insert(nodes@[i as int].element_ref@).contains(x) implies string_set(refs@).contains(x) by {
                        if x == nodes@[i as int].element_ref@ {
                            assert(refs@[before_refs.len() as int]@ == x);
                        } else {
                            let j = choose|j: int| 0 <= j < before_refs.len() && (#[trigger] before_refs[j])@ == x;
                            assert(refs@[j] == before_refs[j]);
                        }
                    }
                }
            }
        }
        i = i + 1;
    }
    picks
}

/// A text field as the model snapshot shows it, and the text budget left:
/// a field that is absent or empty, or for which no budget is left, is left
/// out; otherwise it is cut to the smaller of the field limit and the
/// budget, and its bytes are taken from the budget.
pub open spec fn clip_field(value: Option<Seq<char>>, remaining: nat) -> (Option<Seq<char>>, nat) {
    match value {
        Some(v) => {
            let limit = if FIELD_LIMIT_BYTES <= remaining { FIELD_LIMIT_BYTES as nat } else { remaining };
            if v.len() == 0 || limit == 0 {
                (None, remaining)
            } else if truncated(v, limit).len() == 0 {
                (None, remaining)
            } else {
                (Some(truncated(v, limit)), (remaining - byte_len(truncated(v, limit))) as nat)
            }
        },
        None => (None, remaining),
    }
}

/// The member `key` holding a text, where there is one.
pub open spec fn text_entry(key: Seq<char>, value: Option<Seq<char>>) -> Seq<(Seq<char>, JsonView)> {
    match value {
        Some(v) => seq![(key, JsonView::Str(v))],
        None => Seq::empty(),
    }
}

/// The member `key` set to `true`, where the flag is set.
pub open spec fn flag_entry(key: Seq<char>, flag: bool) -> Seq<(Seq<char>, JsonView)> {
    if flag {
        seq![(key, JsonView::Bool(true))]
    } else {
        Seq::empty()
    }
}

/// One element of the model snapshot, its members in key order, and the
/// text budget left after it. Its text fields are clipped in the order role,
/// name, value, description.
pub open spec fn render_element(e: SnapshotElement, remaining: nat) -> (JsonView, nat) {
    let (role, r1) = clip_field(opt_string_view(e.role), remaining);
    let (name, r2) = clip_field(opt_string_view(e.name), r1);
    let (value, r3) = clip_field(opt_string_view(e.value), r2);
    let (description, r4) = clip_field(opt_string_view(e.description), r3);
    (
        JsonView::Object(
            text_entry("description"@, description) + flag_entry("disabled"@, e.disabled)
                + flag_entry("editable"@, e.editable) + seq![("element_ref"@, JsonView::Str(e.element_ref@))]
                + flag_entry("focused"@, e.focused) + text_entry("name"@, name) + text_entry("role"@, role)
                + text_entry("sensitive_input_kind"@, opt_string_view(e.sensitive_input_kind))
                + text_entry("value"@, value),
        ),
        r4,
    )
}

/// The elements at the selected positions, in order, and the budget left.
pub open spec fn render_elements(nodes: Seq<SnapshotElement>, selected: Seq<int>, remaining: nat) -> (Seq<JsonView>, nat)
    decreases selected.len(),
{
    if selected.len() == 0 {
        (Seq::empty(), remaining)
    } else {
        let (prev, r) = render_elements(nodes, selected.drop_last(), remaining);
        let (e, r2) = render_element(nodes[selected.last()], r);
        (prev.push(e), r2)
    }
}

/// The model snapshot of a page: the logical tab, the revisions, the page
/// title, the selected elements and the accessibility tree where there is
/// one; members in key order.
pub open spec fn model_snapshot(snapshot: BrowserHostSnapshot, tab_id: Seq<char>) -> JsonView {
    let nodes = descendants(snapshot.root);
    let (title, r0) = clip_field(opt_string_view(snapshot.root.name), MODEL_SNAPSHOT_TEXT_LIMIT_BYTES as nat);
    let (elements, _) = render_elements(nodes, selected_positions(nodes), r0);
    JsonView::Object(
        (if snapshot.accessibility_tree@.len() > 0 {
            seq![("accessibility_tree"@, JsonView::Array(crate::json::json_items_view(snapshot.accessibility_tree@)))]
        } else {
            Seq::empty()
        }) + seq![("elements"@, JsonView::Array(elements))]
            + seq![("navigation_revision"@, JsonView::Number(decimal(snapshot.navigation_revision as nat)))]
            + seq![("snapshot_revision"@, JsonView::Number(decimal(snapshot.snapshot_revision as nat)))]
            + seq![("tab_id"@, JsonView::Str(tab_id))] + text_entry("title"@, title),
    )
}

/// Clips a text field to the budget (see [`clip_field`]).
pub fn insert_model_snapshot_string(value: &Option<String>, remaining: usize) -> (r: (Option<String>, usize))
    ensures
        (opt_string_view(r.0), r.1 as nat) == clip_field(opt_string_view(*value), remaining as nat),
{
    match value {
        Some(v) => {
            let limit = if FIELD_LIMIT_BYTES <= remaining { FIELD_LIMIT_BYTES } else { remaining };
            if v.as_str().is_empty() || limit == 0 {
                return (None, remaining);
            }
            let clipped = truncate_utf8(v.as_str(), limit);
            if clipped.as_str().is_empty() {
                return (None, remaining);
            }
            let used = crate::snapshot_text::byte_len_exec(clipped.as_str());
            (Some(clipped), remaining - used)
        },
        None => (None, remaining),
    }
}

fn push_text(entries: &mut Vec<(String, JsonValue)>, key: &str, value: Option<String>)
    ensures
        crate::json::json_entries_view(final(entries)@) == crate::json::json_entries_view(old(entries)@) + text_entry(key@, opt_string_view(value)),
{
    let ghost before = entries@;
    match value {
        Some(v) => {
            let k = str_to_string(key);
            proof {
                crate::json::lemma_entries_view_push(before, k, JsonValue::Str(v));
            }
            entries.push((k, JsonValue::Str(v)));
            assert(crate::json::json_entries_view(entries@) =~= crate::json::json_entries_view(before) + text_entry(key@, opt_string_view(value)));
        },
        None => {
            assert(text_entry(key@, opt_string_view(value)) =~= Seq::<(Seq<char>, JsonView)>::empty());
            assert(crate::json::json_entries_view(before) + Seq::<(Seq<char>, JsonView)>::empty() =~= crate::json::json_entries_view(before));
        },
    }
}

fn push_flag(entries: &mut Vec<(String, JsonValue)>, key: &str, flag: bool)
    ensures
        crate::json::json_entries_view(final(entries)@) == crate::json::json_entries_view(old(entries)@) + flag_entry(key@, flag),
{
    let ghost before = entries@;
    if flag {
        let k = str_to_string(key);
        proof {
            crate::json::lemma_entries_view_push(before, k, JsonValue::Bool(true));
        }
        entries.push((k, JsonValue::Bool(true)));
        assert(crate::json::json_entries_view(entries@) =~= crate::json::json_entries_view(before) + flag_entry(key@, flag));
    } else {
        assert(crate::json::json_entries_view(before) + Seq::<(Seq<char>, JsonView)>::empty() =~= crate::json::json_entries_view(before));
    }
}

/// One element of the model snapshot, and the text budget left.
pub fn model_snapshot_element(e: &SnapshotElement, remaining: usize) -> (r: (JsonValue, usize))
    ensures
        (r.0@, r.1 as nat) == render_element(*e, remaining as nat),
{
    let (role, r1) = insert_model_snapshot_string(&e.role, remaining);
    let (name, r2) = insert_model_snapshot_string(&e.name, r1);
    let (value, r3) = insert_model_snapshot_string(&e.value, r2);
    let (description, r4) = insert_model_snapshot_string(&e.description, r3);
    let ghost role_v = opt_string_view(role);
    let ghost name_v = opt_string_view(name);
    let ghost value_v = opt_string_view(value);
    let ghost description_v = opt_string_view(description);
    let mut entries: Vec<(String, JsonValue)> = Vec::new();
    push_text(&mut entries, "description", description);
    push_flag(&mut entries, "disabled", e.disabled);
    push_flag(&mut entries, "editable", e.editable);
    let ghost before = entries@;
    let k = str_to_string("element_ref");
    let element_ref = e.element_ref.clone();
    proof {
        crate::json::lemma_entries_view_push(before, k, JsonValue::Str(element_ref));
    }
    entries.push((k, JsonValue::Str(element_ref)));
    assert(crate::json::json_entries_view(entries@) =~= crate::json::json_entries_view(before) + seq![("element_ref"@, JsonView::Str(e.element_ref@))]);
    push_flag(&mut entries, "focused", e.focused);
    push_text(&mut entries, "name", name);
    push_text(&mut entries, "role", role);
    push_text(&mut entries, "sensitive_input_kind", crate::text::copy_opt_string(&e.sensitive_input_kind));
    push_text(&mut entries, "value", value);
    let ghost expected = text_entry("description"@, description_v) + flag_entry("disabled"@, e.disabled)
        + flag_entry("editable"@, e.editable) + seq![("element_ref"@, JsonView::Str(e.element_ref@))]
        + flag_entry("focused"@, e.focused) + text_entry("name"@, name_v) + text_entry("role"@, role_v)
        + text_entry("sensitive_input_kind"@, opt_string_view(e.sensitive_input_kind))
        + text_entry("value"@, value_v);
    assert(crate::json::json_entries_view(entries@) =~= expected);
    (JsonValue::Object(entries), r4)
}

/// The model snapshot of a page, for the tab the model knows it by.
pub fn browser_tool_snapshot_value(snapshot: &BrowserHostSnapshot, logical_tab_id: &str) -> (r: JsonValue)
    ensures
        r@ == model_snapshot(*snapshot, logical_tab_id@),
{
    let mut nodes: Vec<SnapshotElement> = Vec::new();
    collect_snapshot_nodes(&snapshot.root, &mut nodes);
    assert(nodes@ =~= descendants(snapshot.root));
    let (title, r0) = insert_model_snapshot_string(&snapshot.root.name, MODEL_SNAPSHOT_TEXT_LIMIT_BYTES);
    let selected = select_snapshot_elements(&nodes);
    let ghost sel = positions(selected@);
    proof {
        lemma_selected_positions(nodes@);
    }
    let mut elements: Vec<JsonValue> = Vec::new();
    let mut remaining = r0;
    let mut i: usize = 0;
    assert(sel.take(0) =~= Seq::<int>::empty());
    while i < selected.len()
        invariant
            i <= selected@.len(),
            sel == positions(selected@),
            sel == selected_positions(nodes@),
            forall|k: int| 0 <= k < sel.len() ==> 0 <= #[trigger] sel[k] < nodes@.len(),
            (crate::json::json_items_view(elements@), remaining as nat) == render_elements(nodes@, sel.take(i as int), r0 as nat),
        decreases selected@.len() - i,
    {
        assert(sel[i as int] == selected@[i as int] as int);
        let (element, rest) = model_snapshot_element(&nodes[selected[i]], remaining);
        let ghost before = elements@;
        elements.push(element);
        proof {
            assert(sel.take(i + 1).drop_last() == sel.take(i as int));
            assert(sel.take(i + 1).last() == sel[i as int]);
            assert(elements@.drop_last() == before);
        }
        remaining = rest;
        i = i + 1;
    }
    assert(sel.take(selected@.len() as int) == sel);
    let mut entries: Vec<(String, JsonValue)> = Vec::new();
    let ghost tree_part: Seq<(Seq<char>, JsonView)> = if snapshot.accessibility_tree@.len() > 0 {
        seq![("accessibility_tree"@, JsonView::Array(crate::json::json_items_view(snapshot.accessibility_tree@)))]
    } else {
        Seq::empty()
    };
    if snapshot.accessibility_tree.len() > 0 {
        let mut tree: Vec<JsonValue> = Vec::new();
        let mut k: usize = 0;
        while k < snapshot.accessibility_tree.len()
            invariant
                k <= snapshot.accessibility_tree@.len(),
                crate::json::json_items_view(tree@) == crate::json::json_items_view(snapshot.accessibility_tree@.take(k as int)),
            decreases snapshot.accessibility_tree@.len() - k,
        {
            let item = crate::json::copy_json(&snapshot.accessibility_tree[k]);
            let ghost before = tree@;
            tree.push(item);
            proof {
                assert(tree@.drop_last() == before);
                assert(snapshot.accessibility_tree@.take(k + 1).drop_last() == snapshot.accessibility_tree@.take(k as int));
            }
            k = k + 1;
        }
        assert(snapshot.accessibility_tree@.take(snapshot.accessibility_tree@.len() as int) == snapshot.accessibility_tree@);
        let key = str_to_string("accessibility_tree");
        proof {
            crate::json::lemma_entries_view_push(entries@, key, JsonValue::Array(tree));
        }
        entries.push((key, JsonValue::Array(tree)));
    }
    assert(crate::json::json_entries_view(entries@) =~= tree_part);
    let key = str_to_string("elements");
    proof {
        crate::json::lemma_entries_view_push(entries@, key, JsonValue::Array(elements));
    }
    entries.push((key, JsonValue::Array(elements)));
    let key = str_to_string("navigation_revision");
    let nav = JsonValue::Number(u64_to_decimal(snapshot.navigation_revision));
    proof {
        crate::json::lemma_entries_view_push(entries@, key, nav);
    }
    entries.push((key, nav));
    let key = str_to_string("snapshot_revision");
    let snap = JsonValue::Number(u64_to_decimal(snapshot.snapshot_revision));
    proof {
        crate::json::lemma_entries_view_push(entries@, key, snap);
    }
    entries.push((key, snap));
    let key = str_to_string("tab_id");
    let tab = JsonValue::Str(str_to_string(logical_tab_id));
    proof {
        crate::json::lemma_entries_view_push(entries@, key, tab);
    }
    entries.push((key, tab));
    push_text(&mut entries, "title", title);
    assert(crate::json::json_entries_view(entries@) =~= match model_snapshot(*snapshot, logical_tab_id@) {
        JsonView::Object(m) => m,
        _ => Seq::empty(),
    });
    JsonValue::Object(entries)
}

} // verus!
