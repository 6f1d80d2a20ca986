//! The items of a session's current turn, as a runtime summary shows them:
//! each item's fields, its role, and its tool texts in public form, the
//! items ordered by sequence, then id.

use vstd::prelude::*;
use crate::ordering::{lemma_insert_stable_at, lex_le, stable_sort_by, str_le};
use crate::text::{copy_opt_string, opt_string_view, trim, trimmed};

verus! {

/// A tool text of a turn item, with its public form: the trimmed text with
/// paths and secrets taken out, made where the trimmed text is not empty.
#[derive(Clone, Debug)]
pub struct ToolText {
    pub text: Option<String>,
    pub public: Option<String>,
}

/// One item of a session's current turn, as exported.
#[derive(Clone, Debug)]
pub struct TurnItemExport {
    pub item_id: String,
    pub item_seq: u64,
    pub kind: String,
    pub status: String,
    pub source: String,
    pub title: Option<String>,
    pub content: Option<String>,
    pub task_id: Option<String>,
    pub worker_id: Option<String>,
    pub role_id: Option<String>,
    /// The role that the task store binds the item's task to, where it
    /// knows the task and the task has one.
    pub task_role_id: Option<String>,
    pub tool_call_id: Option<String>,
    pub tool_name: Option<String>,
    pub tool_status: Option<String>,
    pub tool_arguments: ToolText,
    pub tool_result: ToolText,
    pub tool_error: ToolText,
    pub request_id: Option<String>,
    pub user_message_id: Option<String>,
    pub placeholder_message_id: Option<String>,
    pub timeline_entry_id: Option<String>,
    pub source_thread_id: String,
}

/// One item of a session's current turn, as its summary shows it.
#[derive(Clone, Debug)]
pub struct TurnItemSummary {
    pub item_id: String,
    pub item_seq: u64,
    pub kind: String,
    pub status: String,
    pub source: String,
    pub title: Option<String>,
    pub content: Option<String>,
    pub task_id: Option<String>,
    pub worker_id: Option<String>,
    pub role_id: Option<String>,
    pub tool_call_id: Option<String>,
    pub tool_name: Option<String>,
    pub tool_status: Option<String>,
    pub tool_arguments: Option<String>,
    pub tool_result: Option<String>,
    pub tool_error: Option<String>,
    pub request_id: Option<String>,
    pub user_message_id: Option<String>,
    pub placeholder_message_id: Option<String>,
    pub timeline_entry_id: Option<String>,
    pub source_thread_id: String,
}

pub ghost struct TurnItemView {
    pub item_id: Seq<char>,
    pub item_seq: u64,
    pub kind: Seq<char>,
    pub status: Seq<char>,
    pub source: Seq<char>,
    pub title: Option<Seq<char>>,
    pub content: Option<Seq<char>>,
    pub task_id: Option<Seq<char>>,
    pub worker_id: Option<Seq<char>>,
    pub role_id: Option<Seq<char>>,
    pub tool_call_id: Option<Seq<char>>,
    pub tool_name: Option<Seq<char>>,
    pub tool_status: Option<Seq<char>>,
    pub tool_arguments: Option<Seq<char>>,
    pub tool_result: Option<Seq<char>>,
    pub tool_error: Option<Seq<char>>,
    pub request_id: Option<Seq<char>>,
    pub user_message_id: Option<Seq<char>>,
    pub placeholder_message_id: Option<Seq<char>>,
    pub timeline_entry_id: Option<Seq<char>>,
    pub source_thread_id: Seq<char>,
}

impl View for TurnItemSummary {
    type V = TurnItemView;

    open spec fn view(&self) -> TurnItemView {
        TurnItemView {
            item_id: self.item_id@,
            item_seq: self.item_seq,
            kind: self.kind@,
            status: self.status@,
            source: self.source@,
            title: opt_string_view(self.title),
            content: opt_string_view(self.content),
            task_id: opt_string_view(self.task_id),
            worker_id: opt_string_view(self.worker_id),
            role_id: opt_string_view(self.role_id),
            tool_call_id: opt_string_view(self.tool_call_id),
            tool_name: opt_string_view(self.tool_name),
            tool_status: opt_string_view(self.tool_status),
            tool_arguments: opt_string_view(self.tool_arguments),
            tool_result: opt_string_view(self.tool_result),
            tool_error: opt_string_view(self.tool_error),
            request_id: opt_string_view(self.request_id),
            user_message_id: opt_string_view(self.user_message_id),
            placeholder_message_id: opt_string_view(self.placeholder_message_id),
            timeline_entry_id: opt_string_view(self.timeline_entry_id),
            source_thread_id: self.source_thread_id@,
        }
    }
}

/// A tool text as the summary shows it: its public form, none where the
/// trimmed text or its public form is empty.
pub open spec fn public_tool_text(t: ToolText) -> Option<Seq<char>> {
    match t.text {
        None => None,
        Some(x) => if trim(x@).len() == 0 {
            None
        } else {
            match t.public {
                Some(p) => if p@.len() > 0 { Some(p@) } else { None },
                None => None,
            }
        },
    }
}

/// The item's role: its own, else that of its task.
pub open spec fn item_role(e: TurnItemExport) -> Option<Seq<char>> {
    match e.role_id {
        Some(r) => Some(r@),
        None => match e.task_id {
            Some(_) => opt_string_view(e.task_role_id),
            None => None,
        },
    }
}

/// What the summary shows of an item.
pub open spec fn item_view_of(e: TurnItemExport) -> TurnItemView {
    TurnItemView {
        item_id: e.item_id@,
        item_seq: e.item_seq,
        kind: e.kind@,
        status: e.status@,
        source: e.source@,
        title: opt_string_view(e.title),
        content: opt_string_view(e.content),
        task_id: opt_string_view(e.task_id),
        worker_id: opt_string_view(e.worker_id),
        role_id: item_role(e),
        tool_call_id: opt_string_view(e.tool_call_id),
        tool_name: opt_string_view(e.tool_name),
        tool_status: opt_string_view(e.tool_status),
        tool_arguments: public_tool_text(e.tool_arguments),
        tool_result: public_tool_text(e.tool_result),
        tool_error: public_tool_text(e.tool_error),
        request_id: opt_string_view(e.request_id),
        user_message_id: opt_string_view(e.user_message_id),
        placeholder_message_id: opt_string_view(e.placeholder_message_id),
        timeline_entry_id: opt_string_view(e.timeline_entry_id),
        source_thread_id: e.source_thread_id@,
    }
}

/// The order of turn items: by sequence, then id.
pub open spec fn item_le(a: TurnItemView, b: TurnItemView) -> bool {
    a.item_seq < b.item_seq || (a.item_seq == b.item_seq && lex_le(a.item_id, b.item_id))
}

pub open spec fn by_seq_then_id() -> spec_fn(TurnItemView, TurnItemView) -> bool {
    |a: TurnItemView, b: TurnItemView| item_le(a, b)
}

pub open spec fn item_views(v: Seq<TurnItemSummary>) -> Seq<TurnItemView> {
    v.map_values(|s: TurnItemSummary| s@)
}

/// What the summary shows of the items: each item's view, stably sorted
/// by sequence, then id.
pub open spec fn turn_item_views(items: Seq<TurnItemExport>) -> Seq<TurnItemView> {
    stable_sort_by(items.map_values(|e: TurnItemExport| item_view_of(e)), by_seq_then_id())
}

/// The public form of a tool text (see [`public_tool_text`]).
pub fn public_turn_tool_text(t: &ToolText) -> (r: Option<String>)
    ensures
        opt_string_view(r) == public_tool_text(*t),
{
    match &t.text {
        None => None,
        Some(x) => {
            let trimmed_text = trimmed(x.as_str());
            if trimmed_text.as_str().is_empty() {
                return None;
            }
            match &t.public {
                Some(p) => if p.as_str().is_empty() { None } else { Some(p.clone()) },
                None => None,
            }
        },
    }
}

/// The summary of one item.
pub fn turn_item_summary(e: &TurnItemExport) -> (r: TurnItemSummary)
    ensures
        r@ == item_view_of(*e),
{
    let role_id = match &e.role_id {
        Some(r) => Some(r.clone()),
        None => match &e.task_id {
            Some(_) => copy_opt_string(&e.task_role_id),
            None => None,
        },
    };
    TurnItemSummary {
        item_id: e.item_id.clone(),
        item_seq: e.item_seq,
        kind: e.kind.clone(),
        status: e.status.clone(),
        source: e.source.clone(),
        title: copy_opt_string(&e.title),
        content: copy_opt_string(&e.content),
        task_id: copy_opt_string(&e.task_id),
        worker_id: copy_opt_string(&e.worker_id),
        role_id,
        tool_call_id: copy_opt_string(&e.tool_call_id),
        tool_name: copy_opt_string(&e.tool_name),
        tool_status: copy_opt_string(&e.tool_status),
        tool_arguments: public_turn_tool_text(&e.tool_arguments),
        tool_result: public_turn_tool_text(&e.tool_result),
        tool_error: public_turn_tool_text(&e.tool_error),
        request_id: copy_opt_string(&e.request_id),
        user_message_id: copy_opt_string(&e.user_message_id),
        placeholder_message_id: copy_opt_string(&e.placeholder_message_id),
        timeline_entry_id: copy_opt_string(&e.timeline_entry_id),
        source_thread_id: e.source_thread_id.clone(),
    }
}

fn item_le_exec(a: &TurnItemSummary, b: &TurnItemSummary) -> (r: bool)
    ensures
        r == item_le(a@, b@),
{
    if a.item_seq != b.item_seq {
        a.item_seq < b.item_seq
    } else {
        str_le(a.item_id.as_str(), b.item_id.as_str())
    }
}

/// The summaries of a turn's items, ordered by sequence, then id; items
/// that tie keep their order.
pub fn turn_item_summaries(items: &Vec<TurnItemExport>) -> (r: Vec<TurnItemSummary>)
    ensures
        item_views(r@) == turn_item_views(items@),
{
    let ghost all = items@.map_values(|e: TurnItemExport| item_view_of(e));
    let mut out: Vec<TurnItemSummary> = Vec::new();
    let mut k: usize = 0;
    assert(all.take(0) =~= item_views(out@));
    while k < items.len()
        invariant
            k <= items@.len(),
            all == items@.map_values(|e: TurnItemExport| item_view_of(e)),
            item_views(out@) == stable_sort_by(all.take(k as int), by_seq_then_id()),
        decreases items@.len() - k,
    {
        let x = turn_item_summary(&items[k]);
        proof {
            assert(all.take(k + 1).drop_last() == all.take(k as int));
            assert(all.take(k + 1).last() == x@);
        }
        let ghost before = out@;
        let ghost vb = item_views(before);
        let mut pos: usize = out.len();
        while pos > 0 && !item_le_exec(&out[pos - 1], &x)
            invariant
                pos <= out@.len(),
                before == out@,
                vb == item_views(before),
                forall|j: int| pos <= j < vb.len() ==> !item_le(#[trigger] vb[j], x@),
            decreases pos,
        {
            pos = pos - 1;
        }
        out.insert(pos, x);
        proof {
            assert(item_views(out@) =~= vb.insert(pos as int, x@));
            assert forall|j: int| pos <= j < vb.len() implies !(by_seq_then_id())(#[trigger] vb[j], x@) by {}
            lemma_insert_stable_at(vb, x@, by_seq_then_id(), pos as int);
        }
        k = k + 1;
    }
    assert(all.take(items@.len() as int) == all);
    out
}

} // verus!
