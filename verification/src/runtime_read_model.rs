//! The sessions' side of the runtime read model: each session sidecar's
//! export replaces its session's summary and brings in its chain's task
//! projection; the model is then published in order.

use vstd::prelude::*;
use crate::activity_read_model::{
    group_status_pairs, group_views, groups_pruned, groups_with_aggregates, live_kept, merge_mission_aggregates,
    merge_task_store_projection, prune_terminal_runtime_live_ids, sessions_pruned, task_status_pairs, task_views,
    with_projection, workspaces_pruned, ActivityReadModel, ActivityView, ExecutionGroupEntry, GroupView,
    MissionAggregateExport, TaskEntry, TaskProjection, TaskView,
};
use crate::ordering::{lemma_insert_stable_at, lemma_lex_lt_not_le, lex_le, lex_lt, stable_sort_by};
use crate::read_model::id_views;
use crate::recovery_read_model::{first_index, merge_workspace_sidecars, merged, published, tidy, RecoveryReadModel, WorkspaceRecoveryExport};
use crate::session_summary::{is_session_summary_of, session_runtime_summary, SessionRuntimeSummary, SessionSidecarExport};

verus! {

/// A session sidecar's export, with the task store's projection of its
/// chain's root task where the store has one.
#[derive(Clone, Debug)]
pub struct SessionSidecarInput {
    pub export: SessionSidecarExport,
    pub projection: Option<TaskProjection>,
}

pub open spec fn session_keys(v: Seq<SessionRuntimeSummary>) -> Seq<Seq<char>> {
    v.map_values(|s: SessionRuntimeSummary| s.session_id@)
}

/// The sessions after one export: the first summary of its session is
/// replaced by `r`, or `r` is added at the end.
pub open spec fn sessions_with(before: Seq<SessionRuntimeSummary>, r: SessionRuntimeSummary) -> Seq<SessionRuntimeSummary> {
    let i = first_index(session_keys(before), r.session_id@);
    if i < before.len() {
        before.update(i, r)
    } else {
        before.push(r)
    }
}

/// `summaries[k]` is the summary of the `k`-th export, and `after` is
/// `before` with them put in, in order.
pub open spec fn sessions_merged(before: Seq<SessionRuntimeSummary>, summaries: Seq<SessionRuntimeSummary>) -> Seq<SessionRuntimeSummary>
    decreases summaries.len(),
{
    if summaries.len() == 0 {
        before
    } else {
        sessions_with(sessions_merged(before, summaries.drop_last()), summaries.last())
    }
}

/// `summaries` are the summaries of the exports, one each, in order.
pub open spec fn summaries_of(summaries: Seq<SessionRuntimeSummary>, inputs: Seq<SessionSidecarInput>) -> bool {
    &&& summaries.len() == inputs.len()
    &&& forall|k: int| 0 <= k < inputs.len() ==> is_session_summary_of(#[trigger] summaries[k], inputs[k].export)
}

/// The activity side after the exports: each chain with a projection
/// brings it in.
pub open spec fn activity_merged(m: ActivityView, inputs: Seq<SessionSidecarInput>) -> ActivityView
    decreases inputs.len(),
{
    if inputs.len() == 0 {
        m
    } else {
        let rest = activity_merged(m, inputs.drop_last());
        let input = inputs.last();
        match input.projection {
            Some(p) => if input.export.chain is Some {
                with_projection(rest, p)
            } else {
                rest
            },
            None => rest,
        }
    }
}

/// The activity side in published form: groups stably sorted by mission,
/// tasks stably sorted by id, the overview's ids and each group's tasks
/// ascending, each once.
pub open spec fn activity_published(after: ActivityView, before: ActivityView) -> bool {
    let mid = stable_sort_by(before.groups, by_mission());
    &&& forall|i: int, j: int| 0 <= i < j < after.groups.len()
        ==> lex_le(#[trigger] after.groups[i].mission_id, #[trigger] after.groups[j].mission_id)
    &&& after.groups.len() == before.groups.len()
    &&& forall|i: int| 0 <= i < after.groups.len() ==> {
            let a = #[trigger] after.groups[i];
            &&& a == GroupView { active_task_ids: a.active_task_ids, ..mid[i] }
            &&& tidy(a.active_task_ids, mid[i].active_task_ids)
        }
    &&& after.tasks == stable_sort_by(before.tasks, by_task_id())
    &&& forall|i: int, j: int| 0 <= i < j < after.tasks.len()
        ==> lex_le(#[trigger] after.tasks[i].task_id, #[trigger] after.tasks[j].task_id)
    &&& tidy(after.group_ids, before.group_ids)
    &&& tidy(after.task_ids, before.task_ids)
}

/// The order of sessions: by session id.
pub open spec fn by_session_id() -> spec_fn(SessionRuntimeSummary, SessionRuntimeSummary) -> bool {
    |a: SessionRuntimeSummary, b: SessionRuntimeSummary| lex_le(a.session_id@, b.session_id@)
}

/// The order of execution groups: by mission.
pub open spec fn by_mission() -> spec_fn(GroupView, GroupView) -> bool {
    |a: GroupView, b: GroupView| lex_le(a.mission_id, b.mission_id)
}

/// The order of tasks: by task id.
pub open spec fn by_task_id() -> spec_fn(TaskView, TaskView) -> bool {
    |a: TaskView, b: TaskView| lex_le(a.task_id, b.task_id)
}

/// The sessions in published form: stably sorted by session id.
pub open spec fn sessions_published(after: Seq<SessionRuntimeSummary>, before: Seq<SessionRuntimeSummary>) -> bool {
    &&& after == stable_sort_by(before, by_session_id())
    &&& forall|i: int, j: int| 0 <= i < j < after.len() ==> lex_le(#[trigger] after[i].session_id@, #[trigger] after[j].session_id@)
    &&& after.to_multiset() == before.to_multiset()
}

fn sort_sessions(items: Vec<SessionRuntimeSummary>) -> (r: Vec<SessionRuntimeSummary>)
    ensures
        sessions_published(r@, items@),
{
    let mut out: Vec<SessionRuntimeSummary> = Vec::new();
    let mut rest = items;
    let ghost all = rest@;
    let n = rest.len();
    let mut k: usize = 0;
    assert(all.take(0) =~= out@);
    assert(all.skip(0) =~= all);
    while rest.len() > 0
        invariant
            k + rest@.len() == all.len(),
            all.len() == n,
            rest@ == all.skip(k as int),
            sessions_published(out@, all.take(k as int)),
        decreases rest@.len(),
    {
        let x = rest.remove(0);
        proof {
            assert(x == all[k as int]);
            assert(rest@ =~= all.skip(k + 1));
            assert(all.take(k + 1) == all.take(k as int).push(x));
            assert(all.take(k + 1).drop_last() == all.take(k as int));
        }
        let ghost before = out@;
        let mut pos: usize = out.len();
        while pos > 0 && !crate::ordering::str_le(out[pos - 1].session_id.as_str(), x.session_id.as_str())
            invariant
                pos <= out@.len(),
                before == out@,
                forall|j: int| pos <= j < out@.len() ==> lex_lt(x.session_id@, #[trigger] out@[j].session_id@),
            decreases pos,
        {
            proof {
                crate::ordering::lemma_lex_total(x.session_id@, out@[pos - 1].session_id@);
                if x.session_id@ == out@[pos - 1].session_id@ {
                    crate::ordering::lemma_lex_reflexive(x.session_id@);
                }
            }
            pos = pos - 1;
        }
        out.insert(pos, x);
        proof {
            let after = out@;
            assert(after =~= before.insert(pos as int, x));
            assert forall|j: int| pos <= j < before.len() implies !(by_session_id())(#[trigger] before[j], x) by {
                lemma_lex_lt_not_le(x.session_id@, before[j].session_id@);
            }
            lemma_insert_stable_at(before, x, by_session_id(), pos as int);
            assert forall|i: int, j: int| 0 <= i < j < after.len() implies lex_le(#[trigger] after[i].session_id@, #[trigger] after[j].session_id@) by {
                if j < pos {
                    assert(after[i] == before[i] && after[j] == before[j]);
                } else if j == pos {
                    assert(after[i] == before[i]);
                    if i < pos - 1 {
                        crate::ordering::lemma_lex_transitive(before[i].session_id@, before[pos - 1].session_id@, x.session_id@);
                    }
                } else if i < pos {
                    assert(after[i] == before[i] && after[j] == before[j - 1]);
                    if i < pos - 1 {
                        crate::ordering::lemma_lex_transitive(before[i].session_id@, before[pos - 1].session_id@, x.session_id@);
                    }
                    crate::ordering::lemma_lex_transitive(before[i].session_id@, x.session_id@, before[j - 1].session_id@);
                } else if i == pos {
                    assert(after[j] == before[j - 1]);
                } else {
                    assert(after[i] == before[i - 1] && after[j] == before[j - 1]);
                }
            }
            vstd::seq_lib::to_multiset_insert(before, pos as int, x);
            all.take(k as int).to_multiset_ensures();
        }
        k = k + 1;
    }
    assert(all.take(k as int) == all);
    out
}

fn sort_groups(items: Vec<ExecutionGroupEntry>) -> (r: Vec<ExecutionGroupEntry>)
    ensures
        group_views(r@) == stable_sort_by(group_views(items@), by_mission()),
        forall|i: int, j: int| 0 <= i < j < r@.len() ==> lex_le(#[trigger] r@[i].mission_id@, #[trigger] r@[j].mission_id@),
        group_views(r@).to_multiset() == group_views(items@).to_multiset(),
        r@.len() == items@.len(),
{
    let mut out: Vec<ExecutionGroupEntry> = Vec::new();
    let mut rest = items;
    let ghost all = rest@;
    let n = rest.len();
    let mut k: usize = 0;
    assert(group_views(all.take(0)) =~= group_views(out@));
    assert(all.skip(0) =~= all);
    while rest.len() > 0
        invariant
            k + rest@.len() == all.len(),
            all.len() == n,
            out@.len() == k,
            rest@ == all.skip(k as int),
            group_views(out@) == stable_sort_by(group_views(all.take(k as int)), by_mission()),
            forall|i: int, j: int| 0 <= i < j < out@.len() ==> lex_le(#[trigger] out@[i].mission_id@, #[trigger] out@[j].mission_id@),
            group_views(out@).to_multiset() == group_views(all.take(k as int)).to_multiset(),
        decreases rest@.len(),
    {
        let x = rest.remove(0);
        proof {
            assert(x == all[k as int]);
            assert(rest@ =~= all.skip(k + 1));
            assert(group_views(all.take(k + 1)) =~= group_views(all.take(k as int)).push(x@));
        }
        let ghost before = out@;
        let mut pos: usize = out.len();
        while pos > 0 && !crate::ordering::str_le(out[pos - 1].mission_id.as_str(), x.mission_id.as_str())
            invariant
                pos <= out@.len(),
                before == out@,
                forall|j: int| pos <= j < out@.len() ==> lex_lt(x.mission_id@, #[trigger] out@[j].mission_id@),
            decreases pos,
        {
            proof {
                crate::ordering::lemma_lex_total(x.mission_id@, out@[pos - 1].mission_id@);
                if x.mission_id@ == out@[pos - 1].mission_id@ {
                    crate::ordering::lemma_lex_reflexive(x.mission_id@);
                }
            }
            pos = pos - 1;
        }
        out.insert(pos, x);
        proof {
            let after = out@;
            assert(after =~= before.insert(pos as int, x));
            assert forall|i: int, j: int| 0 <= i < j < after.len() implies lex_le(#[trigger] after[i].mission_id@, #[trigger] after[j].mission_id@) by {
                if j < pos {
                    assert(after[i] == before[i] && after[j] == before[j]);
                } else if j == pos {
                    assert(after[i] == before[i]);
                    if i < pos - 1 {
                        crate::ordering::lemma_lex_transitive(before[i].mission_id@, before[pos - 1].mission_id@, x.mission_id@);
                    }
                } else if i < pos {
                    assert(after[i] == before[i] && after[j] == before[j - 1]);
                    if i < pos - 1 {
                        crate::ordering::lemma_lex_transitive(before[i].mission_id@, before[pos - 1].mission_id@, x.mission_id@);
                    }
                    crate::ordering::lemma_lex_transitive(before[i].mission_id@, x.mission_id@, before[j - 1].mission_id@);
                } else if i == pos {
                    assert(after[j] == before[j - 1]);
                } else {
                    assert(after[i] == before[i - 1] && after[j] == before[j - 1]);
                }
            }
            assert(group_views(after) =~= group_views(before).insert(pos as int, x@));
            let gb = group_views(before);
            assert forall|j: int| pos <= j < gb.len() implies !(by_mission())(#[trigger] gb[j], x@) by {
                lemma_lex_lt_not_le(x.mission_id@, before[j].mission_id@);
            }
            assert(group_views(all.take(k + 1)).drop_last() == group_views(all.take(k as int)));
            lemma_insert_stable_at(gb, x@, by_mission(), pos as int);
            vstd::seq_lib::to_multiset_insert(group_views(before), pos as int, x@);
            group_views(all.take(k as int)).to_multiset_ensures();
        }
        k = k + 1;
    }
    assert(all.take(k as int) == all);
    out
}

fn sort_tasks(items: Vec<TaskEntry>) -> (r: Vec<TaskEntry>)
    ensures
        task_views(r@) == stable_sort_by(task_views(items@), by_task_id()),
        forall|i: int, j: int| 0 <= i < j < r@.len() ==> lex_le(#[trigger] r@[i].task_id@, #[trigger] r@[j].task_id@),
        task_views(r@).to_multiset() == task_views(items@).to_multiset(),
{
    let mut out: Vec<TaskEntry> = Vec::new();
    let mut rest = items;
    let ghost all = rest@;
    let n = rest.len();
    let mut k: usize = 0;
    assert(task_views(all.take(0)) =~= task_views(out@));
    assert(all.skip(0) =~= all);
    while rest.len() > 0
        invariant
            k + rest@.len() == all.len(),
            all.len() == n,
            rest@ == all.skip(k as int),
            task_views(out@) == stable_sort_by(task_views(all.take(k as int)), by_task_id()),
            forall|i: int, j: int| 0 <= i < j < out@.len() ==> lex_le(#[trigger] out@[i].task_id@, #[trigger] out@[j].task_id@),
            task_views(out@).to_multiset() == task_views(all.take(k as int)).to_multiset(),
        decreases rest@.len(),
    {
        let x = rest.remove(0);
        proof {
            assert(x == all[k as int]);
            assert(rest@ =~= all.skip(k + 1));
            assert(task_views(all.take(k + 1)) =~= task_views(all.take(k as int)).push(x@));
        }
        let ghost before = out@;
        let mut pos: usize = out.len();
        while pos > 0 && !crate::ordering::str_le(out[pos - 1].task_id.as_str(), x.task_id.as_str())
            invariant
                pos <= out@.len(),
                before == out@,
                forall|j: int| pos <= j < out@.len() ==> lex_lt(x.task_id@, #[trigger] out@[j].task_id@),
            decreases pos,
        {
            proof {
                crate::ordering::lemma_lex_total(x.task_id@, out@[pos - 1].task_id@);
                if x.task_id@ == out@[pos - 1].task_id@ {
                    crate::ordering::lemma_lex_reflexive(x.task_id@);
                }
            }
            pos = pos - 1;
        }
        out.insert(pos, x);
        proof {
            let after = out@;
            assert(after =~= before.insert(pos as int, x));
            assert forall|i: int, j: int| 0 <= i < j < after.len() implies lex_le(#[trigger] after[i].task_id@, #[trigger] after[j].task_id@) by {
                if j < pos {
                    assert(after[i] == before[i] && after[j] == before[j]);
                } else if j == pos {
                    assert(after[i] == before[i]);
                    if i < pos - 1 {
                        crate::ordering::lemma_lex_transitive(before[i].task_id@, before[pos - 1].task_id@, x.task_id@);
                    }
                } else if i < pos {
                    assert(after[i] == before[i] && after[j] == before[j - 1]);
                    if i < pos - 1 {
                        crate::ordering::lemma_lex_transitive(before[i].task_id@, before[pos - 1].task_id@, x.task_id@);
                    }
                    crate::ordering::lemma_lex_transitive(before[i].task_id@, x.task_id@, before[j - 1].task_id@);
                } else if i == pos {
                    assert(after[j] == before[j - 1]);
                } else {
                    assert(after[i] == before[i - 1] && after[j] == before[j - 1]);
                }
            }
            assert(task_views(after) =~= task_views(before).insert(pos as int, x@));
            let tb = task_views(before);
            assert forall|j: int| pos <= j < tb.len() implies !(by_task_id())(#[trigger] tb[j], x@) by {
                lemma_lex_lt_not_le(x.task_id@, before[j].task_id@);
            }
            assert(task_views(all.take(k + 1)).drop_last() == task_views(all.take(k as int)));
            lemma_insert_stable_at(tb, x@, by_task_id(), pos as int);
            vstd::seq_lib::to_multiset_insert(task_views(before), pos as int, x@);
            task_views(all.take(k as int)).to_multiset_ensures();
        }
        k = k + 1;
    }
    assert(all.take(k as int) == all);
    out
}

fn tidy_ids(v: Vec<String>) -> (r: Vec<String>)
    ensures
        tidy(id_views(r@), id_views(v@)),
{
    let r = crate::ordering::sorted_unique(v);
    assert(crate::ordering::views(r@) =~= id_views(r@));
    assert(crate::ordering::views(v@) =~= id_views(v@));
    r
}

/// Puts the activity side in its published form.
pub fn publish_activity(model: &mut ActivityReadModel)
    ensures
        activity_published(final(model)@, old(model)@),
{
    let ghost before = model@;
    let mut gs: Vec<ExecutionGroupEntry> = Vec::new();
    std::mem::swap(&mut gs, &mut model.execution_groups);
    let mut sorted = sort_groups(gs);
    let ghost mid = group_views(sorted@);
    let ghost sorted0 = sorted@;
    let mut tidied: Vec<ExecutionGroupEntry> = Vec::new();
    let mut k: usize = 0;
    let n = sorted.len();
    assert(sorted0.skip(0) =~= sorted0);
    while sorted.len() > 0
        invariant
            k + sorted@.len() == n,
            n == sorted0.len(),
            sorted@ == sorted0.skip(k as int),
            mid == group_views(sorted0),
            tidied@.len() == k,
            forall|i: int| 0 <= i < k ==> {
                let a = (#[trigger] tidied@[i])@;
                &&& a == GroupView { active_task_ids: a.active_task_ids, ..mid[i] }
                &&& tidy(a.active_task_ids, mid[i].active_task_ids)
            },
        decreases sorted@.len(),
    {
        let mut x = sorted.remove(0);
        proof {
            assert(x == sorted0[k as int]);
            assert(sorted@ =~= sorted0.skip(k + 1));
        }
        let mut ids: Vec<String> = Vec::new();
        std::mem::swap(&mut ids, &mut x.active_task_ids);
        x.active_task_ids = tidy_ids(ids);
        tidied.push(x);
        k = k + 1;
    }
    model.execution_groups = tidied;
    proof {
        let ga = group_views(model.execution_groups@);
        assert forall|i: int| 0 <= i < mid.len() implies {
            let a = #[trigger] ga[i];
            &&& a == GroupView { active_task_ids: a.active_task_ids, ..mid[i] }
            &&& tidy(a.active_task_ids, mid[i].active_task_ids)
        } by {
            assert(ga[i] == model.execution_groups@[i]@);
        }
        assert forall|i: int, j: int| 0 <= i < j < ga.len() implies lex_le(#[trigger] ga[i].mission_id, #[trigger] ga[j].mission_id) by {
            assert(ga[i] == model.execution_groups@[i]@);
            assert(ga[j] == model.execution_groups@[j]@);
            assert(mid[i] == sorted0[i]@ && mid[j] == sorted0[j]@);
        }
        assert(mid.to_multiset() == before.groups.to_multiset());
    }

    let mut ts: Vec<TaskEntry> = Vec::new();
    std::mem::swap(&mut ts, &mut model.tasks);
    model.tasks = sort_tasks(ts);
    proof {
        let ta = task_views(model.tasks@);
        assert forall|i: int, j: int| 0 <= i < j < ta.len() implies lex_le(#[trigger] ta[i].task_id, #[trigger] ta[j].task_id) by {
            assert(ta[i] == model.tasks@[i]@);
            assert(ta[j] == model.tasks@[j]@);
        }
    }
    let mut gids: Vec<String> = Vec::new();
    std::mem::swap(&mut gids, &mut model.active_execution_group_ids);
    model.active_execution_group_ids = tidy_ids(gids);
    let mut tids: Vec<String> = Vec::new();
    std::mem::swap(&mut tids, &mut model.active_task_ids);
    model.active_task_ids = tidy_ids(tids);
    proof {
        let after = model@;
        assert(after.groups.len() == before.groups.len());
        assert(mid.to_multiset() == before.groups.to_multiset() && mid.len() == after.groups.len()
            && forall|i: int| 0 <= i < mid.len() ==> {
                let a = #[trigger] after.groups[i];
                &&& a == GroupView { active_task_ids: a.active_task_ids, ..mid[i] }
                &&& tidy(a.active_task_ids, mid[i].active_task_ids)
            });
    }
}

fn find_session(sessions: &Vec<SessionRuntimeSummary>, session_id: &str) -> (r: usize)
    ensures
        r == first_index(session_keys(sessions@), session_id@),
        r <= sessions@.len(),
{
    let ghost keys = session_keys(sessions@);
    let mut i: usize = 0;
    while i < sessions.len()
        invariant
            i <= sessions@.len(),
            keys == session_keys(sessions@),
            forall|k: int| 0 <= k < i ==> #[trigger] keys[k] != session_id@,
        decreases sessions@.len() - i,
    {
        assert(keys[i as int] == sessions@[i as int].session_id@);
        if crate::text::str_eq(sessions[i].session_id.as_str(), session_id) {
            proof {
                crate::recovery_read_model::lemma_first_index(keys, session_id@, i as int);
            }
            return i;
        }
        i = i + 1;
    }
    proof {
        crate::recovery_read_model::lemma_first_index(keys, session_id@, i as int);
    }
    i
}

/// Merges the session sidecars' exports, in order, into the read model and
/// publishes its session and activity sides: each export's summary
/// replaces its session's, and each chain's projection comes in.
pub fn merge_session_sidecars(
    sessions: &mut Vec<SessionRuntimeSummary>,
    activity: &mut ActivityReadModel,
    inputs: &Vec<SessionSidecarInput>,
)
    ensures
        exists|summaries: Seq<SessionRuntimeSummary>| #[trigger] summaries_of(summaries, inputs@)
            && sessions_published(final(sessions)@, sessions_merged(old(sessions)@, summaries)),
        activity_published(final(activity)@, activity_merged(old(activity)@, inputs@)),
{
    let ghost start = sessions@;
    let ghost astart = activity@;
    let ghost mut summaries: Seq<SessionRuntimeSummary> = Seq::empty();
    let mut k: usize = 0;
    while k < inputs.len()
        invariant
            k <= inputs@.len(),
            summaries_of(summaries, inputs@.take(k as int)),
            sessions@ == sessions_merged(start, summaries),
            activity@ == activity_merged(astart, inputs@.take(k as int)),
        decreases inputs@.len() - k,
    {
        let input = &inputs[k];
        proof {
            assert(inputs@.take(k + 1).drop_last() == inputs@.take(k as int));
            assert(inputs@.take(k + 1).last() == inputs@[k as int]);
        }
        let r = session_runtime_summary(&input.export);
        let ghost before = sessions@;
        let i = find_session(sessions, r.session_id.as_str());
        let ghost rv = r;
        if i < sessions.len() {
            sessions.remove(i);
            sessions.insert(i, r);
            assert(sessions@ =~= before.update(i as int, rv));
        } else {
            sessions.push(r);
        }
        proof {
            let ns = summaries.push(rv);
            assert(ns.drop_last() =~= summaries);
            assert forall|j: int| 0 <= j < k + 1 implies is_session_summary_of(#[trigger] ns[j], inputs@.take(k + 1)[j].export) by {
                if j < k {
                    assert(ns[j] == summaries[j]);
                    assert(inputs@.take(k + 1)[j] == inputs@.take(k as int)[j]);
                }
            }
            summaries = ns;
        }
        match &input.projection {
            Some(p) => {
                if input.export.chain.is_some() {
                    merge_task_store_projection(activity, p);
                }
            },
            None => {},
        }
        k = k + 1;
    }
    assert(inputs@.take(inputs@.len() as int) == inputs@);
    let ghost merged = sessions@;
    let mut ss: Vec<SessionRuntimeSummary> = Vec::new();
    std::mem::swap(&mut ss, sessions);
    *sessions = sort_sessions(ss);
    publish_activity(activity);
    assert(summaries_of(summaries, inputs@) && sessions_published(sessions@, sessions_merged(start, summaries)));
}

/// The runtime read model: the sessions, the execution groups and tasks,
/// the recoveries, and the audit and usage ledger's summary, which the
/// library carries without reading it.
#[derive(Clone, Debug)]
pub struct RuntimeReadModel<L> {
    pub sessions: Vec<SessionRuntimeSummary>,
    pub activity: ActivityReadModel,
    pub recovery: RecoveryReadModel,
    pub ledger: L,
}

/// The read model `r` comes out of `model` through the four steps, with
/// `sessions1`/`activity1` after the session sidecars, `recovery1` after
/// the workspace sidecars and `activity2` after the missions' aggregates;
/// the last step drops the live ids whose status is final.
pub open spec fn dto_steps<L>(
    model: RuntimeReadModel<L>,
    session_inputs: Seq<SessionSidecarInput>,
    workspace_exports: Seq<WorkspaceRecoveryExport>,
    mission_exports: Seq<MissionAggregateExport>,
    sessions1: Seq<SessionRuntimeSummary>,
    activity1: ActivityReadModel,
    recovery1: RecoveryReadModel,
    activity2: ActivityReadModel,
    r: RuntimeReadModel<L>,
) -> bool {
    let tp = task_status_pairs(activity2.tasks@);
    let gp = group_status_pairs(activity2.execution_groups@);
    &&& exists|summaries: Seq<SessionRuntimeSummary>| #[trigger] summaries_of(summaries, session_inputs)
        && sessions_published(sessions1, sessions_merged(model.sessions@, summaries))
    &&& activity_published(activity1@, activity_merged(model.activity@, session_inputs))
    &&& published(recovery1@, merged(model.recovery@, workspace_exports))
    &&& group_views(activity2.execution_groups@) == groups_with_aggregates(group_views(activity1.execution_groups@), mission_exports)
    &&& activity2.tasks == activity1.tasks
    &&& activity2.active_execution_group_ids == activity1.active_execution_group_ids
    &&& activity2.active_task_ids == activity1.active_task_ids
    &&& r.activity.tasks == activity2.tasks
    &&& id_views(r.activity.active_task_ids@) == live_kept(activity2.active_task_ids@, tp)
    &&& id_views(r.activity.active_execution_group_ids@) == live_kept(activity2.active_execution_group_ids@, gp)
    &&& groups_pruned(r.activity.execution_groups@, activity2.execution_groups@, tp)
    &&& sessions_pruned(r.sessions@, sessions1, tp, gp)
    &&& workspaces_pruned(r.recovery.workspaces@, recovery1.workspaces@, tp, gp)
    &&& r.recovery.summaries == recovery1.summaries
    &&& r.recovery.active_recovery_ids == recovery1.active_recovery_ids
}

/// The runtime read model with the sidecars' exports and the missions'
/// aggregates merged in, the live ids whose status is final dropped, and
/// the ledger's summary replaced by `ledger`.
pub fn runtime_read_model_dto<L>(
    model: RuntimeReadModel<L>,
    session_inputs: &Vec<SessionSidecarInput>,
    workspace_exports: &Vec<WorkspaceRecoveryExport>,
    ledger: L,
    mission_exports: &Vec<MissionAggregateExport>,
) -> (r: RuntimeReadModel<L>)
    ensures
        exists|sessions1: Seq<SessionRuntimeSummary>, activity1: ActivityReadModel, recovery1: RecoveryReadModel, activity2: ActivityReadModel|
            #[trigger] dto_steps(model, session_inputs@, workspace_exports@, mission_exports@, sessions1, activity1, recovery1, activity2, r),
        r.ledger == ledger,
{
    let ghost model0 = model;
    let RuntimeReadModel { mut sessions, mut activity, mut recovery, ledger: _ } = model;
    merge_session_sidecars(&mut sessions, &mut activity, session_inputs);
    let ghost sessions1 = sessions@;
    let ghost activity1 = activity;
    merge_workspace_sidecars(&mut recovery, workspace_exports);
    let ghost recovery1 = recovery;
    merge_mission_aggregates(&mut activity, mission_exports);
    let ghost activity2 = activity;
    prune_terminal_runtime_live_ids(&mut activity, &mut sessions, &mut recovery.workspaces);
    let r = RuntimeReadModel { sessions, activity, recovery, ledger };
    assert(dto_steps(model0, session_inputs@, workspace_exports@, mission_exports@, sessions1, activity1, recovery1, activity2, r));
    r
}

} // verus!
