//! The runtime read model's rules: which task and branch states are final,
//! which branches can be continued, and which live ids a summary keeps.

use vstd::prelude::*;
use crate::redaction::{ascii_lowercase_eq, ascii_lowercase_eq_exec};
use crate::text::{chars_of, opt_str_view, opt_string_view, str_eq, str_to_string, trim, trim_chars};

verus! {

/// The state of a task.
#[derive(Clone, Copy, Debug, PartialEq, Eq, Structural)]
pub enum TaskStatus {
    Pending,
    Running,
    Completed,
    Failed,
    Killed,
}

pub open spec fn task_status_name(status: TaskStatus) -> Seq<char> {
    match status {
        TaskStatus::Pending => "pending"@,
        TaskStatus::Running => "running"@,
        TaskStatus::Completed => "completed"@,
        TaskStatus::Failed => "failed"@,
        TaskStatus::Killed => "killed"@,
    }
}

/// The label of a task status in the read model.
pub fn task_status_label(status: TaskStatus) -> (r: String)
    ensures
        r@ == task_status_name(status),
{
    str_to_string(match status {
        TaskStatus::Pending => "pending",
        TaskStatus::Running => "running",
        TaskStatus::Completed => "completed",
        TaskStatus::Failed => "failed",
        TaskStatus::Killed => "killed",
    })
}

/// A task in a state it does not leave.
pub open spec fn task_terminal(status: TaskStatus) -> bool {
    status == TaskStatus::Completed || status == TaskStatus::Failed || status == TaskStatus::Killed
}

/// Whether a task has finished, for good or not.
pub fn task_status_is_terminal(status: TaskStatus) -> (r: bool)
    ensures
        r == task_terminal(status),
{
    match status {
        TaskStatus::Completed | TaskStatus::Failed | TaskStatus::Killed => true,
        TaskStatus::Pending | TaskStatus::Running => false,
    }
}

/// A branch stage that ends the branch: `finish` or `finished`, in any case
/// of ASCII letters, around white space.
pub open spec fn stage_terminal(stage: Seq<char>) -> bool {
    ascii_lowercase_eq(trim(stage), "finish"@) || ascii_lowercase_eq(trim(stage), "finished"@)
}

/// Whether a branch stage ends the branch.
pub fn branch_stage_is_terminal(stage: &str) -> (r: bool)
    ensures
        r == stage_terminal(stage@),
{
    let chars = chars_of(stage);
    let t = trim_chars(chars.as_slice());
    ascii_lowercase_eq_exec(t.as_slice(), "finish") || ascii_lowercase_eq_exec(t.as_slice(), "finished")
}

/// A branch that can be continued: it failed, and its stage did not end it.
pub open spec fn recoverable(status: Seq<char>, stage: Seq<char>) -> bool {
    status == "failed"@ && !stage_terminal(stage)
}

/// Whether a branch of this status and stage can be continued.
pub fn branch_is_recoverable(status: &str, stage: &str) -> (r: bool)
    ensures
        r == recoverable(status@, stage@),
{
    str_eq(status, "failed") && !branch_stage_is_terminal(stage)
}

/// A session's root task lets its chain continue unless it completed or
/// was killed.
pub open spec fn root_allows_continue(status: Option<Seq<char>>) -> bool {
    !(status == Some("completed"@) || status == Some("killed"@))
}

/// Whether a session's root task lets its chain continue.
pub fn session_root_task_allows_continue(status: Option<&str>) -> (r: bool)
    ensures
        r == root_allows_continue(opt_str_view(status)),
{
    match status {
        Some(s) => !(str_eq(s, "completed") || str_eq(s, "killed")),
        None => true,
    }
}

/// A session's root task that completed, failed or was killed.
pub open spec fn root_terminal(status: Option<Seq<char>>) -> bool {
    status == Some("completed"@) || status == Some("failed"@) || status == Some("killed"@)
}

/// Whether a session's root task has ended.
pub fn session_root_task_is_terminal(status: Option<&str>) -> (r: bool)
    ensures
        r == root_terminal(opt_str_view(status)),
{
    match status {
        Some(s) => str_eq(s, "completed") || str_eq(s, "failed") || str_eq(s, "killed"),
        None => false,
    }
}

/// A runtime status after which nothing runs.
pub open spec fn runtime_terminal(status: Option<Seq<char>>) -> bool {
    status == Some("completed"@) || status == Some("failed"@) || status == Some("killed"@)
        || status == Some("cancelled"@) || status == Some("canceled"@)
}

/// Whether a runtime status is final.
pub fn runtime_status_is_terminal(status: Option<&str>) -> (r: bool)
    ensures
        r == runtime_terminal(opt_str_view(status)),
{
    match status {
        Some(s) => str_eq(s, "completed") || str_eq(s, "failed") || str_eq(s, "killed")
            || str_eq(s, "cancelled") || str_eq(s, "canceled"),
        None => false,
    }
}

/// The status recorded for `id`: the last entry for it, as a map built from
/// the entries in order keeps it.
pub open spec fn status_of(status_by_id: Seq<(String, String)>, id: Seq<char>) -> Option<Seq<char>>
    decreases status_by_id.len(),
{
    if status_by_id.len() == 0 {
        None
    } else if status_by_id.last().0@ == id {
        Some(status_by_id.last().1@)
    } else {
        status_of(status_by_id.drop_last(), id)
    }
}

/// The status recorded for `id`.
pub fn lookup_status<'a>(status_by_id: &'a Vec<(String, String)>, id: &str) -> (r: Option<&'a str>)
    ensures
        opt_str_view(r) == status_of(status_by_id@, id@),
{
    let mut i: usize = status_by_id.len();
    assert(status_by_id@.take(i as int) == status_by_id@);
    while i > 0
        invariant
            i <= status_by_id@.len(),
            status_of(status_by_id@, id@) == status_of(status_by_id@.take(i as int), id@),
        decreases i,
    {
        assert(status_by_id@.take(i as int).drop_last() == status_by_id@.take(i - 1));
        assert(status_by_id@.take(i as int).last() == status_by_id@[i - 1]);
        if str_eq(status_by_id[i - 1].0.as_str(), id) {
            return Some(status_by_id[i - 1].1.as_str());
        }
        i = i - 1;
    }
    None
}

/// A live id stays unless its recorded status is final.
pub open spec fn keeps_live_id(id: Seq<char>, status_by_id: Seq<(String, String)>) -> bool {
    !runtime_terminal(status_of(status_by_id, id))
}

/// Whether a live id stays in the summary.
pub fn keep_runtime_live_id(id: &str, status_by_id: &Vec<(String, String)>) -> (r: bool)
    ensures
        r == keeps_live_id(id@, status_by_id@),
{
    !runtime_status_is_terminal(lookup_status(status_by_id, id))
}

pub open spec fn id_views(v: Seq<String>) -> Seq<Seq<char>> {
    v.map_values(|s: String| s@)
}

/// The live ids whose status is not final, in order.
pub fn prune_live_ids(ids: Vec<String>, status_by_id: &Vec<(String, String)>) -> (r: Vec<String>)
    ensures
        id_views(r@) == id_views(ids@).filter(|id: Seq<char>| keeps_live_id(id, status_by_id@)),
{
    let ghost keep = |id: Seq<char>| keeps_live_id(id, status_by_id@);
    let ghost all = id_views(ids@);
    let mut out: Vec<String> = Vec::new();
    let mut i: usize = 0;
    assert(all.take(0).filter(keep) =~= Seq::<Seq<char>>::empty()) by {
        reveal(Seq::filter);
    }
    while i < ids.len()
        invariant
            i <= ids@.len(),
            all == id_views(ids@),
            forall|id: Seq<char>| #[trigger] keep(id) == keeps_live_id(id, status_by_id@),
            id_views(out@) == all.take(i as int).filter(keep),
        decreases ids@.len() - i,
    {
        let ghost before = id_views(out@);
        proof {
            reveal(Seq::filter);
            assert(all.take(i + 1).drop_last() == all.take(i as int));
            assert(all.take(i + 1).last() == ids@[i as int]@);
        }
        if keep_runtime_live_id(ids[i].as_str(), status_by_id) {
            out.push(ids[i].clone());
            assert(id_views(out@) =~= before.push(ids@[i as int]@));
        }
        i = i + 1;
    }
    assert(all.take(ids@.len() as int) == all);
    out
}

/// `values` with `value` added at the end, unless it is absent or already
/// there.
pub open spec fn pushed_unique(values: Seq<Seq<char>>, value: Option<Seq<char>>) -> Seq<Seq<char>> {
    match value {
        Some(v) => if values.contains(v) {
            values
        } else {
            values.push(v)
        },
        None => values,
    }
}

/// Adds a value to a list that holds each value once.
pub fn push_unique(values: &mut Vec<String>, value: Option<String>)
    ensures
        id_views(final(values)@) == pushed_unique(id_views(old(values)@), opt_string_view(value)),
{
    match value {
        Some(v) => {
            let ghost before = id_views(values@);
            let mut i: usize = 0;
            while i < values.len()
                invariant
                    i <= values@.len(),
                    before == id_views(values@),
                    before == id_views(old(values)@),
                    opt_string_view(value) == Some(v@),
                    forall|k: int| 0 <= k < i ==> (#[trigger] values@[k])@ != v@,
                decreases values@.len() - i,
            {
                if str_eq(values[i].as_str(), v.as_str()) {
                    assert(before[i as int] == v@);
                    assert(before.contains(v@));
                    return;
                }
                i = i + 1;
            }
            assert(!before.contains(v@)) by {
                if before.contains(v@) {
                    let k = choose|k: int| 0 <= k < before.len() && before[k] == v@;
                    assert(values@[k]@ == v@);
                }
            }
            values.push(v);
            assert(id_views(values@) =~= before.push(v@));
        },
        None => {},
    }
}

/// The label of every task that has ended is a final runtime status, and
/// the label of a task still pending or running is not: so a live id whose
/// latest recorded status is the label of an ended task (`completed`,
/// `failed` or `killed`) is dropped, and one whose task still runs stays.
pub proof fn lemma_ended_task_labels_are_final(
    status: TaskStatus,
    id: Seq<char>,
    status_by_id: Seq<(String, String)>,
)
    ensures
        runtime_terminal(Some(task_status_name(status))) == task_terminal(status),
        status_of(status_by_id, id) == Some(task_status_name(status))
            ==> keeps_live_id(id, status_by_id) == !task_terminal(status),
{
    reveal_strlit("pending");
    reveal_strlit("running");
    reveal_strlit("completed");
    reveal_strlit("failed");
    reveal_strlit("killed");
    reveal_strlit("cancelled");
    reveal_strlit("canceled");
    let n = task_status_name(status);
    assert(n.len() > 0);
    assert(!task_terminal(status) ==> (n.len(), n[0]) != ("completed"@.len(), 'c') && (n.len(), n[0]) != ("failed"@.len(), 'f')
        && (n.len(), n[0]) != ("killed"@.len(), 'k') && (n.len(), n[0]) != ("cancelled"@.len(), 'c')
        && (n.len(), n[0]) != ("canceled"@.len(), 'c'));
}

} // verus!
