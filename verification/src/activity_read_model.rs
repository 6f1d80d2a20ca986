//! The execution-group and task side of the runtime read model: what a
//! chain's task projection and the missions' aggregates add to it, and the
//! live ids that the tasks' and groups' final statuses remove.

use vstd::prelude::*;
use crate::read_model::{id_views, pushed_unique, task_status_name, task_terminal, TaskStatus};
use crate::recovery_read_model::{first_index, WorkspaceRuntimeEntry};
use crate::session_summary::SessionRuntimeSummary;
use crate::read_model::keeps_live_id;
use crate::text::{opt_string_view, str_to_string};

verus! {

/// A mission's metrics, as the read model reports them.
#[derive(Clone, Debug, PartialEq, Eq)]
pub struct MissionMetricsSummary {
    pub turn_count: u64,
    pub total_prompt_tokens: u64,
    pub total_completion_tokens: u64,
    pub total_tokens: u64,
    pub wall_clock_millis: u64,
    pub first_turn_started_at: Option<u64>,
    pub last_turn_finished_at: Option<u64>,
    pub last_lifecycle_phase: Option<String>,
}

fn copy_metrics(m: &MissionMetricsSummary) -> (r: MissionMetricsSummary)
    ensures
        r == *m,
{
    MissionMetricsSummary {
        turn_count: m.turn_count,
        total_prompt_tokens: m.total_prompt_tokens,
        total_completion_tokens: m.total_completion_tokens,
        total_tokens: m.total_tokens,
        wall_clock_millis: m.wall_clock_millis,
        first_turn_started_at: m.first_turn_started_at,
        last_turn_finished_at: m.last_turn_finished_at,
        last_lifecycle_phase: crate::text::copy_opt_string(&m.last_lifecycle_phase),
    }
}

/// An execution group's runtime summary.
#[derive(Clone, Debug)]
pub struct ExecutionGroupEntry {
    pub mission_id: String,
    pub event_count: u64,
    pub current_status: Option<String>,
    pub active_task_ids: Vec<String>,
    pub lifecycle_phase: Option<String>,
    pub metrics: Option<MissionMetricsSummary>,
}

pub struct GroupView {
    pub mission_id: Seq<char>,
    pub event_count: u64,
    pub current_status: Option<Seq<char>>,
    pub active_task_ids: Seq<Seq<char>>,
    pub lifecycle_phase: Option<Seq<char>>,
    pub metrics: Option<MissionMetricsSummary>,
}

impl View for ExecutionGroupEntry {
    type V = GroupView;

    open spec fn view(&self) -> GroupView {
        GroupView {
            mission_id: self.mission_id@,
            event_count: self.event_count,
            current_status: opt_string_view(self.current_status),
            active_task_ids: id_views(self.active_task_ids@),
            lifecycle_phase: opt_string_view(self.lifecycle_phase),
            metrics: self.metrics,
        }
    }
}

/// A task's runtime summary.
#[derive(Clone, Debug)]
pub struct TaskEntry {
    pub task_id: String,
    pub mission_id: Option<String>,
    pub title: Option<String>,
    pub current_status: Option<String>,
}

pub struct TaskView {
    pub task_id: Seq<char>,
    pub mission_id: Option<Seq<char>>,
    pub title: Option<Seq<char>>,
    pub current_status: Option<Seq<char>>,
}

impl View for TaskEntry {
    type V = TaskView;

    open spec fn view(&self) -> TaskView {
        TaskView {
            task_id: self.task_id@,
            mission_id: opt_string_view(self.mission_id),
            title: opt_string_view(self.title),
            current_status: opt_string_view(self.current_status),
        }
    }
}

/// The execution groups, the tasks, and the ids the overview reports as
/// live.
#[derive(Clone, Debug)]
pub struct ActivityReadModel {
    pub execution_groups: Vec<ExecutionGroupEntry>,
    pub tasks: Vec<TaskEntry>,
    pub active_execution_group_ids: Vec<String>,
    pub active_task_ids: Vec<String>,
}

pub struct ActivityView {
    pub groups: Seq<GroupView>,
    pub tasks: Seq<TaskView>,
    pub group_ids: Seq<Seq<char>>,
    pub task_ids: Seq<Seq<char>>,
}

pub open spec fn group_views(v: Seq<ExecutionGroupEntry>) -> Seq<GroupView> {
    v.map_values(|g: ExecutionGroupEntry| g@)
}

pub open spec fn task_views(v: Seq<TaskEntry>) -> Seq<TaskView> {
    v.map_values(|t: TaskEntry| t@)
}

impl View for ActivityReadModel {
    type V = ActivityView;

    open spec fn view(&self) -> ActivityView {
        ActivityView {
            groups: group_views(self.execution_groups@),
            tasks: task_views(self.tasks@),
            group_ids: id_views(self.active_execution_group_ids@),
            task_ids: id_views(self.active_task_ids@),
        }
    }
}

pub open spec fn group_keys(groups: Seq<GroupView>) -> Seq<Seq<char>> {
    groups.map_values(|g: GroupView| g.mission_id)
}

pub open spec fn task_keys(tasks: Seq<TaskView>) -> Seq<Seq<char>> {
    tasks.map_values(|t: TaskView| t.task_id)
}

/// A group summary that holds nothing yet.
pub open spec fn empty_group(mission_id: Seq<char>) -> GroupView {
    GroupView {
        mission_id,
        event_count: 0,
        current_status: None,
        active_task_ids: Seq::empty(),
        lifecycle_phase: None,
        metrics: None,
    }
}

/// The groups with the first group of `mission_id` (added at the end when
/// there is none) changed by `f`.
pub open spec fn with_group(groups: Seq<GroupView>, mission_id: Seq<char>, f: spec_fn(GroupView) -> GroupView) -> Seq<GroupView> {
    let i = first_index(group_keys(groups), mission_id);
    if i < groups.len() {
        groups.update(i, f(groups[i]))
    } else {
        groups.push(f(empty_group(mission_id)))
    }
}

/// What a mission's aggregate exports.
#[derive(Clone, Debug)]
pub struct MissionAggregateExport {
    pub mission_id: String,
    /// The name of its lifecycle phase.
    pub lifecycle_phase: String,
    pub metrics: Option<MissionMetricsSummary>,
}

/// The groups after the missions' aggregates, in order: each sets its
/// group's lifecycle phase and metrics.
pub open spec fn groups_with_aggregates(groups: Seq<GroupView>, exports: Seq<MissionAggregateExport>) -> Seq<GroupView>
    decreases exports.len(),
{
    if exports.len() == 0 {
        groups
    } else {
        let e = exports.last();
        with_group(
            groups_with_aggregates(groups, exports.drop_last()),
            e.mission_id@,
            |g: GroupView| GroupView { lifecycle_phase: Some(e.lifecycle_phase@), metrics: e.metrics, ..g },
        )
    }
}

fn find_group(groups: &Vec<ExecutionGroupEntry>, mission_id: &str) -> (r: usize)
    ensures
        r == first_index(group_keys(group_views(groups@)), mission_id@),
        r <= groups@.len(),
{
    let ghost keys = group_keys(group_views(groups@));
    let mut i: usize = 0;
    while i < groups.len()
        invariant
            i <= groups@.len(),
            keys == group_keys(group_views(groups@)),
            forall|k: int| 0 <= k < i ==> #[trigger] keys[k] != mission_id@,
        decreases groups@.len() - i,
    {
        assert(keys[i as int] == groups@[i as int].mission_id@);
        if crate::text::str_eq(groups[i].mission_id.as_str(), mission_id) {
            proof {
                crate::recovery_read_model::lemma_first_index(keys, mission_id@, i as int);
            }
            return i;
        }
        i = i + 1;
    }
    proof {
        crate::recovery_read_model::lemma_first_index(keys, mission_id@, i as int);
    }
    i
}

/// Takes out the first group of `mission_id`, or a new one when there is
/// none; it goes back at `r.1`.
fn take_group(groups: &mut Vec<ExecutionGroupEntry>, mission_id: &str) -> (r: (ExecutionGroupEntry, usize, bool))
    ensures
        ({
            let i = first_index(group_keys(group_views(old(groups)@)), mission_id@);
            &&& r.1 == i
            &&& r.2 == (i < old(groups)@.len())
            &&& if i < old(groups)@.len() {
                &&& r.0 == old(groups)@[i]
                &&& final(groups)@ == old(groups)@.remove(i)
            } else {
                &&& r.0@ == empty_group(mission_id@)
                &&& final(groups)@ == old(groups)@
            }
        }),
{
    let i = find_group(groups, mission_id);
    if i < groups.len() {
        let g = groups.remove(i);
        (g, i, true)
    } else {
        let g = ExecutionGroupEntry {
            mission_id: str_to_string(mission_id),
            event_count: 0,
            current_status: None,
            active_task_ids: Vec::new(),
            lifecycle_phase: None,
            metrics: None,
        };
        assert(id_views(g.active_task_ids@) =~= Seq::empty());
        (g, i, false)
    }
}

/// Merges the missions' aggregates into the execution groups: each sets
/// its group's lifecycle phase and metrics, adding the group where it is
/// missing; everything else of a group stays.
pub fn merge_mission_aggregates(model: &mut ActivityReadModel, exports: &Vec<MissionAggregateExport>)
    ensures
        group_views(final(model).execution_groups@) == groups_with_aggregates(group_views(old(model).execution_groups@), exports@),
        final(model).tasks == old(model).tasks,
        final(model).active_execution_group_ids == old(model).active_execution_group_ids,
        final(model).active_task_ids == old(model).active_task_ids,
{
    let ghost start = group_views(model.execution_groups@);
    let mut k: usize = 0;
    while k < exports.len()
        invariant
            k <= exports@.len(),
            group_views(model.execution_groups@) == groups_with_aggregates(start, exports@.take(k as int)),
            model.tasks == old(model).tasks,
            model.active_execution_group_ids == old(model).active_execution_group_ids,
            model.active_task_ids == old(model).active_task_ids,
        decreases exports@.len() - k,
    {
        let e = &exports[k];
        proof {
            assert(exports@.take(k + 1).drop_last() == exports@.take(k as int));
            assert(exports@.take(k + 1).last() == exports@[k as int]);
        }
        let ghost before = model.execution_groups@;
        let (mut g, i, found) = take_group(&mut model.execution_groups, e.mission_id.as_str());
        let ghost g0 = g@;
        g.lifecycle_phase = Some(e.lifecycle_phase.clone());
        g.metrics = match &e.metrics {
            Some(m) => Some(copy_metrics(m)),
            None => None,
        };
        let ghost f = |x: GroupView| GroupView { lifecycle_phase: Some(e.lifecycle_phase@), metrics: e.metrics, ..x };
        assert(g@ == f(g0));
        if found {
            model.execution_groups.insert(i, g);
            assert(model.execution_groups@ =~= before.update(i as int, model.execution_groups@[i as int]));
            assert(group_views(model.execution_groups@) =~= group_views(before).update(i as int, f(group_views(before)[i as int])));
        } else {
            model.execution_groups.push(g);
            assert(group_views(model.execution_groups@) =~= group_views(before).push(f(empty_group(e.mission_id@))));
        }
        k = k + 1;
    }
    assert(exports@.take(exports@.len() as int) == exports@);
}

/// A task of a chain's projection in the task store.
#[derive(Clone, Debug)]
pub struct ProjectedTask {
    pub task_id: String,
    pub title: String,
    pub status: TaskStatus,
}

/// The task store's projection of a chain: its mission, its root task's
/// status, and its tasks.
#[derive(Clone, Debug)]
pub struct TaskProjection {
    pub mission_id: String,
    pub root_status: TaskStatus,
    pub tasks: Vec<ProjectedTask>,
}

/// The ids of the tasks that have not finished, in order.
pub open spec fn live_task_ids(tasks: Seq<ProjectedTask>) -> Seq<Seq<char>>
    decreases tasks.len(),
{
    if tasks.len() == 0 {
        Seq::empty()
    } else if task_terminal(tasks.last().status) {
        live_task_ids(tasks.drop_last())
    } else {
        live_task_ids(tasks.drop_last()).push(tasks.last().task_id@)
    }
}

/// `values` with each of `adds` added in turn, unless already there.
pub open spec fn pushed_all(values: Seq<Seq<char>>, adds: Seq<Seq<char>>) -> Seq<Seq<char>>
    decreases adds.len(),
{
    if adds.len() == 0 {
        values
    } else {
        pushed_unique(pushed_all(values, adds.drop_last()), Some(adds.last()))
    }
}

/// The task summaries after one projected task: its summary (the first of
/// its id, added at the end when there is none) takes its title, mission
/// and status.
pub open spec fn with_task(ts: Seq<TaskView>, p: ProjectedTask, mission_id: Seq<char>) -> Seq<TaskView> {
    let full = TaskView {
        task_id: p.task_id@,
        mission_id: Some(mission_id),
        title: Some(p.title@),
        current_status: Some(task_status_name(p.status)),
    };
    let i = first_index(task_keys(ts), p.task_id@);
    if i < ts.len() {
        ts.update(i, full)
    } else {
        ts.push(full)
    }
}

pub open spec fn tasks_with_projection(ts: Seq<TaskView>, tasks: Seq<ProjectedTask>, mission_id: Seq<char>) -> Seq<TaskView>
    decreases tasks.len(),
{
    if tasks.len() == 0 {
        ts
    } else {
        with_task(tasks_with_projection(ts, tasks.drop_last(), mission_id), tasks.last(), mission_id)
    }
}

/// The read model after a chain's projection: its group (added where
/// missing) takes the root task's status and the live tasks; the overview
/// gains the group while the root task runs, and the live tasks; each
/// task's summary takes its title, mission and status.
pub open spec fn with_projection(m: ActivityView, p: TaskProjection) -> ActivityView {
    let live = live_task_ids(p.tasks@);
    ActivityView {
        groups: with_group(
            m.groups,
            p.mission_id@,
            |g: GroupView| GroupView {
                current_status: Some(task_status_name(p.root_status)),
                active_task_ids: pushed_all(Seq::empty(), live),
                ..g
            },
        ),
        tasks: tasks_with_projection(m.tasks, p.tasks@, p.mission_id@),
        group_ids: if task_terminal(p.root_status) {
            m.group_ids
        } else {
            pushed_unique(m.group_ids, Some(p.mission_id@))
        },
        task_ids: pushed_all(m.task_ids, live),
    }
}

fn live_ids(tasks: &Vec<ProjectedTask>) -> (r: Vec<String>)
    ensures
        id_views(r@) == live_task_ids(tasks@),
{
    let mut out: Vec<String> = Vec::new();
    let mut i: usize = 0;
    while i < tasks.len()
        invariant
            i <= tasks@.len(),
            id_views(out@) == live_task_ids(tasks@.take(i as int)),
        decreases tasks@.len() - i,
    {
        proof {
            assert(tasks@.take(i + 1).drop_last() == tasks@.take(i as int));
            assert(tasks@.take(i + 1).last() == tasks@[i as int]);
        }
        if !crate::read_model::task_status_is_terminal(tasks[i].status) {
            let ghost before = id_views(out@);
            out.push(tasks[i].task_id.clone());
            assert(id_views(out@) =~= before.push(tasks@[i as int].task_id@));
        }
        i = i + 1;
    }
    assert(tasks@.take(tasks@.len() as int) == tasks@);
    out
}

fn push_all(values: &mut Vec<String>, adds: &Vec<String>)
    ensures
        id_views(final(values)@) == pushed_all(id_views(old(values)@), id_views(adds@)),
{
    let ghost start = id_views(values@);
    let mut i: usize = 0;
    while i < adds.len()
        invariant
            i <= adds@.len(),
            id_views(values@) == pushed_all(start, id_views(adds@.take(i as int))),
        decreases adds@.len() - i,
    {
        proof {
            assert(id_views(adds@.take(i + 1)).drop_last() == id_views(adds@.take(i as int)));
            assert(id_views(adds@.take(i + 1)).last() == adds@[i as int]@);
        }
        crate::read_model::push_unique(values, Some(adds[i].clone()));
        i = i + 1;
    }
    assert(adds@.take(adds@.len() as int) == adds@);
}

fn find_task(tasks: &Vec<TaskEntry>, task_id: &str) -> (r: usize)
    ensures
        r == first_index(task_keys(task_views(tasks@)), task_id@),
        r <= tasks@.len(),
{
    let ghost keys = task_keys(task_views(tasks@));
    let mut i: usize = 0;
    while i < tasks.len()
        invariant
            i <= tasks@.len(),
            keys == task_keys(task_views(tasks@)),
            forall|k: int| 0 <= k < i ==> #[trigger] keys[k] != task_id@,
        decreases tasks@.len() - i,
    {
        assert(keys[i as int] == tasks@[i as int].task_id@);
        if crate::text::str_eq(tasks[i].task_id.as_str(), task_id) {
            proof {
                crate::recovery_read_model::lemma_first_index(keys, task_id@, i as int);
            }
            return i;
        }
        i = i + 1;
    }
    proof {
        crate::recovery_read_model::lemma_first_index(keys, task_id@, i as int);
    }
    i
}

/// Merges a chain's task projection into the read model.
pub fn merge_task_store_projection(model: &mut ActivityReadModel, projection: &TaskProjection)
    ensures
        final(model)@ == with_projection(old(model)@, *projection),
{
    let ghost m0 = model@;
    let live = live_ids(&projection.tasks);

    let ghost before = model.execution_groups@;
    let (mut g, i, found) = take_group(&mut model.execution_groups, projection.mission_id.as_str());
    let ghost g0 = g@;
    g.current_status = Some(crate::read_model::task_status_label(projection.root_status));
    let mut ids: Vec<String> = Vec::new();
    assert(id_views(ids@) =~= Seq::<Seq<char>>::empty());
    push_all(&mut ids, &live);
    g.active_task_ids = ids;
    let ghost f = |x: GroupView| GroupView {
        current_status: Some(task_status_name(projection.root_status)),
        active_task_ids: pushed_all(Seq::empty(), live_task_ids(projection.tasks@)),
        ..x
    };
    assert(g@ == f(g0));
    if found {
        model.execution_groups.insert(i, g);
        assert(model.execution_groups@ =~= before.update(i as int, model.execution_groups@[i as int]));
        assert(group_views(model.execution_groups@) =~= group_views(before).update(i as int, f(group_views(before)[i as int])));
    } else {
        model.execution_groups.push(g);
        assert(group_views(model.execution_groups@) =~= group_views(before).push(f(empty_group(projection.mission_id@))));
    }

    if !crate::read_model::task_status_is_terminal(projection.root_status) {
        crate::read_model::push_unique(&mut model.active_execution_group_ids, Some(projection.mission_id.clone()));
    }
    push_all(&mut model.active_task_ids, &live);

    let ghost t0 = task_views(model.tasks@);
    let mut k: usize = 0;
    while k < projection.tasks.len()
        invariant
            k <= projection.tasks@.len(),
            task_views(model.tasks@) == tasks_with_projection(t0, projection.tasks@.take(k as int), projection.mission_id@),
            group_views(model.execution_groups@) == with_projection(m0, *projection).groups,
            id_views(model.active_execution_group_ids@) == with_projection(m0, *projection).group_ids,
            id_views(model.active_task_ids@) == with_projection(m0, *projection).task_ids,
        decreases projection.tasks@.len() - k,
    {
        let p = &projection.tasks[k];
        proof {
            assert(projection.tasks@.take(k + 1).drop_last() == projection.tasks@.take(k as int));
            assert(projection.tasks@.take(k + 1).last() == projection.tasks@[k as int]);
        }
        let full = TaskEntry {
            task_id: p.task_id.clone(),
            mission_id: Some(projection.mission_id.clone()),
            title: Some(p.title.clone()),
            current_status: Some(crate::read_model::task_status_label(p.status)),
        };
        let ghost before_tasks = model.tasks@;
        let j = find_task(&model.tasks, p.task_id.as_str());
        if j < model.tasks.len() {
            model.tasks.remove(j);
            model.tasks.insert(j, full);
            assert(model.tasks@ =~= before_tasks.update(j as int, full));
            assert(task_views(model.tasks@) =~= task_views(before_tasks).update(j as int, full@));
        } else {
            model.tasks.push(full);
            assert(task_views(model.tasks@) =~= task_views(before_tasks).push(full@));
        }
        k = k + 1;
    }
    assert(projection.tasks@.take(projection.tasks@.len() as int) == projection.tasks@);
}

/// The recorded status of each task that has one, in order.
pub open spec fn task_status_pairs(tasks: Seq<TaskEntry>) -> Seq<(String, String)>
    decreases tasks.len(),
{
    if tasks.len() == 0 {
        Seq::empty()
    } else {
        let rest = task_status_pairs(tasks.drop_last());
        match tasks.last().current_status {
            Some(s) => rest.push((tasks.last().task_id, s)),
            None => rest,
        }
    }
}

/// The recorded status of each execution group that has one, in order.
pub open spec fn group_status_pairs(groups: Seq<ExecutionGroupEntry>) -> Seq<(String, String)>
    decreases groups.len(),
{
    if groups.len() == 0 {
        Seq::empty()
    } else {
        let rest = group_status_pairs(groups.drop_last());
        match groups.last().current_status {
            Some(s) => rest.push((groups.last().mission_id, s)),
            None => rest,
        }
    }
}

fn task_pairs(tasks: &Vec<TaskEntry>) -> (r: Vec<(String, String)>)
    ensures
        r@ == task_status_pairs(tasks@),
{
    let mut out: Vec<(String, String)> = Vec::new();
    let mut i: usize = 0;
    while i < tasks.len()
        invariant
            i <= tasks@.len(),
            out@ == task_status_pairs(tasks@.take(i as int)),
        decreases tasks@.len() - i,
    {
        proof {
            assert(tasks@.take(i + 1).drop_last() == tasks@.take(i as int));
            assert(tasks@.take(i + 1).last() == tasks@[i as int]);
        }
        match &tasks[i].current_status {
            Some(st) => {
                out.push((tasks[i].task_id.clone(), st.clone()));
            },
            None => {},
        }
        i = i + 1;
    }
    assert(tasks@.take(tasks@.len() as int) == tasks@);
    out
}

fn group_pairs(groups: &Vec<ExecutionGroupEntry>) -> (r: Vec<(String, String)>)
    ensures
        r@ == group_status_pairs(groups@),
{
    let mut out: Vec<(String, String)> = Vec::new();
    let mut i: usize = 0;
    while i < groups.len()
        invariant
            i <= groups@.len(),
            out@ == group_status_pairs(groups@.take(i as int)),
        decreases groups@.len() - i,
    {
        proof {
            assert(groups@.take(i + 1).drop_last() == groups@.take(i as int));
            assert(groups@.take(i + 1).last() == groups@[i as int]);
        }
        match &groups[i].current_status {
            Some(st) => {
                out.push((groups[i].mission_id.clone(), st.clone()));
            },
            None => {},
        }
        i = i + 1;
    }
    assert(groups@.take(groups@.len() as int) == groups@);
    out
}

/// The live ids that stay against the recorded statuses.
pub open spec fn live_kept(ids: Seq<String>, pairs: Seq<(String, String)>) -> Seq<Seq<char>> {
    id_views(ids).filter(|id: Seq<char>| keeps_live_id(id, pairs))
}

fn prune_field(ids: &mut Vec<String>, pairs: &Vec<(String, String)>)
    ensures
        id_views(final(ids)@) == live_kept(old(ids)@, pairs@),
{
    let mut taken: Vec<String> = Vec::new();
    std::mem::swap(&mut taken, ids);
    *ids = crate::read_model::prune_live_ids(taken, pairs);
}

/// The sessions with their live tasks and groups pruned.
pub open spec fn sessions_pruned(after: Seq<SessionRuntimeSummary>, before: Seq<SessionRuntimeSummary>, tp: Seq<(String, String)>, gp: Seq<(String, String)>) -> bool {
    &&& after.len() == before.len()
    &&& forall|i: int| 0 <= i < before.len() ==> {
        let a = #[trigger] after[i];
        &&& a == SessionRuntimeSummary {
            active_task_ids: a.active_task_ids,
            active_execution_group_ids: a.active_execution_group_ids,
            ..before[i]
        }
        &&& id_views(a.active_task_ids@) == live_kept(before[i].active_task_ids@, tp)
        &&& id_views(a.active_execution_group_ids@) == live_kept(before[i].active_execution_group_ids@, gp)
    }
}

/// The workspaces with their live tasks and groups pruned.
pub open spec fn workspaces_pruned(after: Seq<WorkspaceRuntimeEntry>, before: Seq<WorkspaceRuntimeEntry>, tp: Seq<(String, String)>, gp: Seq<(String, String)>) -> bool {
    &&& after.len() == before.len()
    &&& forall|i: int| 0 <= i < before.len() ==> {
        let a = #[trigger] after[i];
        &&& a == WorkspaceRuntimeEntry {
            active_task_ids: a.active_task_ids,
            active_execution_group_ids: a.active_execution_group_ids,
            ..before[i]
        }
        &&& id_views(a.active_task_ids@) == live_kept(before[i].active_task_ids@, tp)
        &&& id_views(a.active_execution_group_ids@) == live_kept(before[i].active_execution_group_ids@, gp)
    }
}

/// The groups with their live tasks pruned.
pub open spec fn groups_pruned(after: Seq<ExecutionGroupEntry>, before: Seq<ExecutionGroupEntry>, tp: Seq<(String, String)>) -> bool {
    &&& after.len() == before.len()
    &&& forall|i: int| 0 <= i < before.len() ==> {
        let a = #[trigger] after[i];
        &&& a == ExecutionGroupEntry { active_task_ids: a.active_task_ids, ..before[i] }
        &&& id_views(a.active_task_ids@) == live_kept(before[i].active_task_ids@, tp)
    }
}

fn prune_sessions(sessions: &mut Vec<SessionRuntimeSummary>, tp: &Vec<(String, String)>, gp: &Vec<(String, String)>)
    ensures
        sessions_pruned(final(sessions)@, old(sessions)@, tp@, gp@),
{
    let mut rest: Vec<SessionRuntimeSummary> = Vec::new();
    std::mem::swap(&mut rest, sessions);
    let ghost all = rest@;
    let n = rest.len();
    let mut k: usize = 0;
    assert(all.skip(0) =~= all);
    while rest.len() > 0
        invariant
            k + rest@.len() == all.len(),
            all.len() == n,
            rest@ == all.skip(k as int),
            sessions_pruned(sessions@, all.take(k as int), tp@, gp@),
        decreases rest@.len(),
    {
        let mut s = rest.remove(0);
        proof {
            assert(s == all[k as int]);
            assert(rest@ =~= all.skip(k + 1));
        }
        let ghost s0 = s;
        prune_field(&mut s.active_task_ids, tp);
        prune_field(&mut s.active_execution_group_ids, gp);
        let ghost before = sessions@;
        sessions.push(s);
        proof {
            assert forall|i: int| 0 <= i < k + 1 implies {
                let a = #[trigger] sessions@[i];
                &&& a == SessionRuntimeSummary {
                    active_task_ids: a.active_task_ids,
                    active_execution_group_ids: a.active_execution_group_ids,
                    ..all.take(k + 1)[i]
                }
                &&& id_views(a.active_task_ids@) == live_kept(all.take(k + 1)[i].active_task_ids@, tp@)
                &&& id_views(a.active_execution_group_ids@) == live_kept(all.take(k + 1)[i].active_execution_group_ids@, gp@)
            } by {
                if i < k {
                    assert(sessions@[i] == before[i]);
                    assert(all.take(k + 1)[i] == all.take(k as int)[i]);
                }
            }
        }
        k = k + 1;
    }
    assert(all.take(k as int) == all);
}

fn prune_workspaces(workspaces: &mut Vec<WorkspaceRuntimeEntry>, tp: &Vec<(String, String)>, gp: &Vec<(String, String)>)
    ensures
        workspaces_pruned(final(workspaces)@, old(workspaces)@, tp@, gp@),
{
    let mut rest: Vec<WorkspaceRuntimeEntry> = Vec::new();
    std::mem::swap(&mut rest, workspaces);
    let ghost all = rest@;
    let n = rest.len();
    let mut k: usize = 0;
    assert(all.skip(0) =~= all);
    while rest.len() > 0
        invariant
            k + rest@.len() == all.len(),
            all.len() == n,
            rest@ == all.skip(k as int),
            workspaces_pruned(workspaces@, all.take(k as int), tp@, gp@),
        decreases rest@.len(),
    {
        let mut w = rest.remove(0);
        proof {
            assert(w == all[k as int]);
            assert(rest@ =~= all.skip(k + 1));
        }
        prune_field(&mut w.active_task_ids, tp);
        prune_field(&mut w.active_execution_group_ids, gp);
        let ghost before = workspaces@;
        workspaces.push(w);
        proof {
            assert forall|i: int| 0 <= i < k + 1 implies {
                let a = #[trigger] workspaces@[i];
                &&& a == WorkspaceRuntimeEntry {
                    active_task_ids: a.active_task_ids,
                    active_execution_group_ids: a.active_execution_group_ids,
                    ..all.take(k + 1)[i]
                }
                &&& id_views(a.active_task_ids@) == live_kept(all.take(k + 1)[i].active_task_ids@, tp@)
                &&& id_views(a.active_execution_group_ids@) == live_kept(all.take(k + 1)[i].active_execution_group_ids@, gp@)
            } by {
                if i < k {
                    assert(workspaces@[i] == before[i]);
                    assert(all.take(k + 1)[i] == all.take(k as int)[i]);
                }
            }
        }
        k = k + 1;
    }
    assert(all.take(k as int) == all);
}

fn prune_groups(groups: &mut Vec<ExecutionGroupEntry>, tp: &Vec<(String, String)>)
    ensures
        groups_pruned(final(groups)@, old(groups)@, tp@),
{
    let mut rest: Vec<ExecutionGroupEntry> = Vec::new();
    std::mem::swap(&mut rest, groups);
    let ghost all = rest@;
    let n = rest.len();
    let mut k: usize = 0;
    assert(all.skip(0) =~= all);
    while rest.len() > 0
        invariant
            k + rest@.len() == all.len(),
            all.len() == n,
            rest@ == all.skip(k as int),
            groups_pruned(groups@, all.take(k as int), tp@),
        decreases rest@.len(),
    {
        let mut g = rest.remove(0);
        proof {
            assert(g == all[k as int]);
            assert(rest@ =~= all.skip(k + 1));
        }
        prune_field(&mut g.active_task_ids, tp);
        let ghost before = groups@;
        groups.push(g);
        proof {
            assert forall|i: int| 0 <= i < k + 1 implies {
                let a = #[trigger] groups@[i];
                &&& a == ExecutionGroupEntry { active_task_ids: a.active_task_ids, ..all.take(k + 1)[i] }
                &&& id_views(a.active_task_ids@) == live_kept(all.take(k + 1)[i].active_task_ids@, tp@)
            } by {
                if i < k {
                    assert(groups@[i] == before[i]);
                    assert(all.take(k + 1)[i] == all.take(k as int)[i]);
                }
            }
        }
        k = k + 1;
    }
    assert(all.take(k as int) == all);
}

/// Drops, everywhere in the read model, the live task and group ids whose
/// recorded status is final.
pub fn prune_terminal_runtime_live_ids(
    model: &mut ActivityReadModel,
    sessions: &mut Vec<SessionRuntimeSummary>,
    workspaces: &mut Vec<WorkspaceRuntimeEntry>,
)
    ensures
        ({
            let tp = task_status_pairs(old(model).tasks@);
            let gp = group_status_pairs(old(model).execution_groups@);
            &&& final(model).tasks == old(model).tasks
            &&& id_views(final(model).active_task_ids@) == live_kept(old(model).active_task_ids@, tp)
            &&& id_views(final(model).active_execution_group_ids@) == live_kept(old(model).active_execution_group_ids@, gp)
            &&& groups_pruned(final(model).execution_groups@, old(model).execution_groups@, tp)
            &&& sessions_pruned(final(sessions)@, old(sessions)@, tp, gp)
            &&& workspaces_pruned(final(workspaces)@, old(workspaces)@, tp, gp)
        }),
{
    let tp = task_pairs(&model.tasks);
    let gp = group_pairs(&model.execution_groups);
    prune_field(&mut model.active_task_ids, &tp);
    prune_field(&mut model.active_execution_group_ids, &gp);
    prune_sessions(sessions, &tp, &gp);
    prune_workspaces(workspaces, &tp, &gp);
    prune_groups(&mut model.execution_groups, &tp);
}

/// No live id that stays has a final recorded status.
pub proof fn lemma_kept_live_ids_not_final(ids: Seq<String>, pairs: Seq<(String, String)>)
    ensures
        forall|i: int| 0 <= i < live_kept(ids, pairs).len()
            ==> !crate::read_model::runtime_terminal(crate::read_model::status_of(pairs, #[trigger] live_kept(ids, pairs)[i])),
{
    let keep = |id: Seq<char>| keeps_live_id(id, pairs);
    broadcast use vstd::seq_lib::group_filter_ensures;
    assert forall|i: int| 0 <= i < live_kept(ids, pairs).len()
        implies !crate::read_model::runtime_terminal(crate::read_model::status_of(pairs, #[trigger] live_kept(ids, pairs)[i])) by {
        assert(keep(live_kept(ids, pairs)[i]));
    }
}

} // verus!
