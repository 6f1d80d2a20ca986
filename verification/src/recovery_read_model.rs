//! The recovery side of the runtime read model: what the workspaces'
//! recovery sidecars add to the workspace summaries, to the recovery
//! summaries and to the ids of the recoveries that are still active.

use vstd::prelude::*;
use crate::ordering::{lemma_insert_stable_at, lemma_lex_lt_not_le, lex_le, lex_lt, stable_sort_by, strictly_sorted};
use crate::read_model::{id_views, pushed_unique};
use crate::text::{opt_string_view, str_to_string};

verus! {

/// Where a workspace recovery stands.
#[derive(Clone, Copy, Debug, PartialEq, Eq, Structural)]
pub enum RecoveryStatus {
    Prepared,
    Ready,
    Consumed,
}

pub open spec fn recovery_status_name(status: RecoveryStatus) -> Seq<char> {
    match status {
        RecoveryStatus::Prepared => "prepared"@,
        RecoveryStatus::Ready => "ready"@,
        RecoveryStatus::Consumed => "consumed"@,
    }
}

/// The last step a recovery reached.
#[derive(Clone, Debug)]
pub enum RecoveryActivityStage {
    ResumeCommandCreated,
    ResumeDispatchCreated,
    WorkerResumed,
    /// A step that the event stream recorded, by its name.
    Recorded(String),
}

/// The step a recovery sidecar's status stands for.
pub open spec fn stage_of_status(status: RecoveryStatus) -> RecoveryActivityStage {
    match status {
        RecoveryStatus::Prepared => RecoveryActivityStage::ResumeCommandCreated,
        RecoveryStatus::Ready => RecoveryActivityStage::ResumeDispatchCreated,
        RecoveryStatus::Consumed => RecoveryActivityStage::WorkerResumed,
    }
}

/// What a workspace's recovery sidecar exports. The diagnostic summary is
/// given in its public form.
#[derive(Clone, Debug)]
pub struct WorkspaceRecoveryExport {
    pub recovery_ref: String,
    pub workspace_id: String,
    pub status: RecoveryStatus,
    pub last_update: u64,
    pub session_id: Option<String>,
    pub mission_id: Option<String>,
    pub task_id: Option<String>,
    pub worker_id: Option<String>,
    pub execution_chain_ref: Option<String>,
    pub public_diagnostic_summary: Option<String>,
}

/// A workspace's runtime summary.
#[derive(Clone, Debug)]
pub struct WorkspaceRuntimeEntry {
    pub workspace_id: String,
    pub current_status: Option<String>,
    pub last_update: Option<u64>,
    pub execution_chain_ref: Option<String>,
    pub recovery_ref: Option<String>,
    pub active_execution_group_ids: Vec<String>,
    pub active_task_ids: Vec<String>,
    pub recovery_ids: Vec<String>,
    pub execution_chain_refs: Vec<String>,
}

pub struct WorkspaceEntryView {
    pub workspace_id: Seq<char>,
    pub current_status: Option<Seq<char>>,
    pub last_update: Option<u64>,
    pub execution_chain_ref: Option<Seq<char>>,
    pub recovery_ref: Option<Seq<char>>,
    pub group_ids: Seq<Seq<char>>,
    pub task_ids: Seq<Seq<char>>,
    pub recovery_ids: Seq<Seq<char>>,
    pub chain_refs: Seq<Seq<char>>,
}

impl View for WorkspaceRuntimeEntry {
    type V = WorkspaceEntryView;

    open spec fn view(&self) -> WorkspaceEntryView {
        WorkspaceEntryView {
            workspace_id: self.workspace_id@,
            current_status: opt_string_view(self.current_status),
            last_update: self.last_update,
            execution_chain_ref: opt_string_view(self.execution_chain_ref),
            recovery_ref: opt_string_view(self.recovery_ref),
            group_ids: id_views(self.active_execution_group_ids@),
            task_ids: id_views(self.active_task_ids@),
            recovery_ids: id_views(self.recovery_ids@),
            chain_refs: id_views(self.execution_chain_refs@),
        }
    }
}

/// A recovery's diagnostic summary.
#[derive(Clone, Debug)]
pub struct RecoverySummaryEntry {
    pub recovery_id: String,
    pub event_count: u64,
    pub latest_stage: RecoveryActivityStage,
    pub latest_event_type: String,
    pub latest_sequence: u64,
    pub latest_occurred_at: u64,
    pub workspace_id: Option<String>,
    pub session_id: Option<String>,
    pub mission_id: Option<String>,
    pub assignment_id: Option<String>,
    pub task_id: Option<String>,
    pub worker_id: Option<String>,
    pub execution_chain_ref: Option<String>,
    pub diagnostic_summary: Option<String>,
    pub current_status: String,
}

pub struct RecoverySummaryView {
    pub recovery_id: Seq<char>,
    pub event_count: u64,
    pub latest_stage: RecoveryActivityStage,
    pub latest_event_type: Seq<char>,
    pub latest_sequence: u64,
    pub latest_occurred_at: u64,
    pub workspace_id: Option<Seq<char>>,
    pub session_id: Option<Seq<char>>,
    pub mission_id: Option<Seq<char>>,
    pub assignment_id: Option<Seq<char>>,
    pub task_id: Option<Seq<char>>,
    pub worker_id: Option<Seq<char>>,
    pub execution_chain_ref: Option<Seq<char>>,
    pub diagnostic_summary: Option<Seq<char>>,
    pub current_status: Seq<char>,
}

impl View for RecoverySummaryEntry {
    type V = RecoverySummaryView;

    open spec fn view(&self) -> RecoverySummaryView {
        RecoverySummaryView {
            recovery_id: self.recovery_id@,
            event_count: self.event_count,
            latest_stage: self.latest_stage,
            latest_event_type: self.latest_event_type@,
            latest_sequence: self.latest_sequence,
            latest_occurred_at: self.latest_occurred_at,
            workspace_id: opt_string_view(self.workspace_id),
            session_id: opt_string_view(self.session_id),
            mission_id: opt_string_view(self.mission_id),
            assignment_id: opt_string_view(self.assignment_id),
            task_id: opt_string_view(self.task_id),
            worker_id: opt_string_view(self.worker_id),
            execution_chain_ref: opt_string_view(self.execution_chain_ref),
            diagnostic_summary: opt_string_view(self.diagnostic_summary),
            current_status: self.current_status@,
        }
    }
}

/// The recovery part of the runtime read model.
#[derive(Clone, Debug)]
pub struct RecoveryReadModel {
    pub workspaces: Vec<WorkspaceRuntimeEntry>,
    pub summaries: Vec<RecoverySummaryEntry>,
    pub active_recovery_ids: Vec<String>,
}

pub struct RecoveryReadModelView {
    pub workspaces: Seq<WorkspaceEntryView>,
    pub summaries: Seq<RecoverySummaryView>,
    pub active_recovery_ids: Seq<Seq<char>>,
}

pub open spec fn workspace_views(v: Seq<WorkspaceRuntimeEntry>) -> Seq<WorkspaceEntryView> {
    v.map_values(|e: WorkspaceRuntimeEntry| e@)
}

pub open spec fn summary_views(v: Seq<RecoverySummaryEntry>) -> Seq<RecoverySummaryView> {
    v.map_values(|e: RecoverySummaryEntry| e@)
}

impl View for RecoveryReadModel {
    type V = RecoveryReadModelView;

    open spec fn view(&self) -> RecoveryReadModelView {
        RecoveryReadModelView {
            workspaces: workspace_views(self.workspaces@),
            summaries: summary_views(self.summaries@),
            active_recovery_ids: id_views(self.active_recovery_ids@),
        }
    }
}

/// The position of the first key equal to `key`, or the length when there
/// is none.
pub open spec fn first_index(keys: Seq<Seq<char>>, key: Seq<char>) -> int
    decreases keys.len(),
{
    if keys.len() == 0 {
        0
    } else if keys[0] == key {
        0
    } else {
        1 + first_index(keys.drop_first(), key)
    }
}

pub proof fn lemma_first_index(keys: Seq<Seq<char>>, key: Seq<char>, i: int)
    requires
        0 <= i <= keys.len(),
        forall|k: int| 0 <= k < i ==> keys[k] != key,
        i == keys.len() || keys[i] == key,
    ensures
        first_index(keys, key) == i,
    decreases keys.len(),
{
    if keys.len() > 0 && i > 0 {
        assert forall|k: int| 0 <= k < i - 1 implies keys.drop_first()[k] != key by {
            assert(keys.drop_first()[k] == keys[k + 1]);
        }
        lemma_first_index(keys.drop_first(), key, i - 1);
    }
}

pub open spec fn workspace_keys(ws: Seq<WorkspaceEntryView>) -> Seq<Seq<char>> {
    ws.map_values(|w: WorkspaceEntryView| w.workspace_id)
}

pub open spec fn summary_keys(ss: Seq<RecoverySummaryView>) -> Seq<Seq<char>> {
    ss.map_values(|s: RecoverySummaryView| s.recovery_id)
}

/// A workspace summary that holds nothing yet.
pub open spec fn empty_workspace(workspace_id: Seq<char>) -> WorkspaceEntryView {
    WorkspaceEntryView {
        workspace_id,
        current_status: None,
        last_update: None,
        execution_chain_ref: None,
        recovery_ref: None,
        group_ids: Seq::empty(),
        task_ids: Seq::empty(),
        recovery_ids: Seq::empty(),
        chain_refs: Seq::empty(),
    }
}

/// A workspace summary after its sidecar's export: status, update time,
/// chain and recovery are the export's; the export's ids join the lists.
pub open spec fn workspace_with(entry: WorkspaceEntryView, e: WorkspaceRecoveryExport) -> WorkspaceEntryView {
    WorkspaceEntryView {
        workspace_id: entry.workspace_id,
        current_status: Some(recovery_status_name(e.status)),
        last_update: Some(e.last_update),
        execution_chain_ref: opt_string_view(e.execution_chain_ref),
        recovery_ref: Some(e.recovery_ref@),
        group_ids: pushed_unique(entry.group_ids, opt_string_view(e.mission_id)),
        task_ids: pushed_unique(entry.task_ids, opt_string_view(e.task_id)),
        recovery_ids: pushed_unique(entry.recovery_ids, Some(e.recovery_ref@)),
        chain_refs: pushed_unique(entry.chain_refs, opt_string_view(e.execution_chain_ref)),
    }
}

/// The workspace summaries after an export: the first summary of its
/// workspace is updated, or a new one is added at the end.
pub open spec fn workspaces_after(ws: Seq<WorkspaceEntryView>, e: WorkspaceRecoveryExport) -> Seq<WorkspaceEntryView> {
    let i = first_index(workspace_keys(ws), e.workspace_id@);
    if i < ws.len() {
        ws.update(i, workspace_with(ws[i], e))
    } else {
        ws.push(workspace_with(empty_workspace(e.workspace_id@), e))
    }
}

/// The recovery summary an export starts when none exists for it.
pub open spec fn summary_from_export(e: WorkspaceRecoveryExport) -> RecoverySummaryView {
    RecoverySummaryView {
        recovery_id: e.recovery_ref@,
        event_count: 0,
        latest_stage: stage_of_status(e.status),
        latest_event_type: "workspace.recovery.sidecar"@,
        latest_sequence: 0,
        latest_occurred_at: e.last_update,
        workspace_id: Some(e.workspace_id@),
        session_id: opt_string_view(e.session_id),
        mission_id: opt_string_view(e.mission_id),
        assignment_id: None,
        task_id: opt_string_view(e.task_id),
        worker_id: opt_string_view(e.worker_id),
        execution_chain_ref: opt_string_view(e.execution_chain_ref),
        diagnostic_summary: opt_string_view(e.public_diagnostic_summary),
        current_status: recovery_status_name(e.status),
    }
}

pub open spec fn or_else(a: Option<Seq<char>>, b: Option<Seq<char>>) -> Option<Seq<char>> {
    if a is Some {
        a
    } else {
        b
    }
}

/// An existing recovery summary after an export: what it lacks comes from
/// the export; while no event was recorded for it, the export's time and
/// status are its latest.
pub open spec fn summary_with(s: RecoverySummaryView, e: WorkspaceRecoveryExport) -> RecoverySummaryView {
    RecoverySummaryView {
        workspace_id: or_else(s.workspace_id, Some(e.workspace_id@)),
        session_id: or_else(s.session_id, opt_string_view(e.session_id)),
        mission_id: or_else(s.mission_id, opt_string_view(e.mission_id)),
        task_id: or_else(s.task_id, opt_string_view(e.task_id)),
        worker_id: or_else(s.worker_id, opt_string_view(e.worker_id)),
        execution_chain_ref: or_else(s.execution_chain_ref, opt_string_view(e.execution_chain_ref)),
        diagnostic_summary: or_else(s.diagnostic_summary, opt_string_view(e.public_diagnostic_summary)),
        latest_occurred_at: if s.event_count == 0 { e.last_update } else { s.latest_occurred_at },
        current_status: if s.event_count == 0 { recovery_status_name(e.status) } else { s.current_status },
        ..s
    }
}

/// The recovery summaries after an export.
pub open spec fn summaries_after(ss: Seq<RecoverySummaryView>, e: WorkspaceRecoveryExport) -> Seq<RecoverySummaryView> {
    let i = first_index(summary_keys(ss), e.recovery_ref@);
    if i < ss.len() {
        ss.update(i, summary_with(ss[i], e))
    } else {
        ss.push(summary_from_export(e))
    }
}

/// The read model after one export: a recovery that was not consumed is
/// active.
pub open spec fn model_after(m: RecoveryReadModelView, e: WorkspaceRecoveryExport) -> RecoveryReadModelView {
    RecoveryReadModelView {
        workspaces: workspaces_after(m.workspaces, e),
        summaries: summaries_after(m.summaries, e),
        active_recovery_ids: if e.status == RecoveryStatus::Consumed {
            m.active_recovery_ids
        } else {
            pushed_unique(m.active_recovery_ids, Some(e.recovery_ref@))
        },
    }
}

/// The read model after the exports, in order.
pub open spec fn merged(m: RecoveryReadModelView, exports: Seq<WorkspaceRecoveryExport>) -> RecoveryReadModelView
    decreases exports.len(),
{
    if exports.len() == 0 {
        m
    } else {
        model_after(merged(m, exports.drop_last()), exports.last())
    }
}

/// The order of workspace summaries: by workspace id.
pub open spec fn by_workspace_id() -> spec_fn(WorkspaceEntryView, WorkspaceEntryView) -> bool {
    |a: WorkspaceEntryView, b: WorkspaceEntryView| lex_le(a.workspace_id, b.workspace_id)
}

/// The order of recovery summaries: by recovery id.
pub open spec fn by_recovery_id() -> spec_fn(RecoverySummaryView, RecoverySummaryView) -> bool {
    |a: RecoverySummaryView, b: RecoverySummaryView| lex_le(a.recovery_id, b.recovery_id)
}

/// A list in its published form: ascending, each item once, the same items.
pub open spec fn tidy(after: Seq<Seq<char>>, before: Seq<Seq<char>>) -> bool {
    strictly_sorted(after) && after.to_set() == before.to_set()
}

/// A workspace summary with its lists in published form.
pub open spec fn workspace_tidy(after: WorkspaceEntryView, before: WorkspaceEntryView) -> bool {
    &&& after.workspace_id == before.workspace_id
    &&& after.current_status == before.current_status
    &&& after.last_update == before.last_update
    &&& after.execution_chain_ref == before.execution_chain_ref
    &&& after.recovery_ref == before.recovery_ref
    &&& tidy(after.group_ids, before.group_ids)
    &&& tidy(after.task_ids, before.task_ids)
    &&& tidy(after.recovery_ids, before.recovery_ids)
    &&& tidy(after.chain_refs, before.chain_refs)
}

/// The read model in its published form: workspace summaries stably sorted
/// by workspace id, recovery summaries stably sorted by recovery id; every
/// id list ascending with each item once.
pub open spec fn published(after: RecoveryReadModelView, before: RecoveryReadModelView) -> bool {
    let mid = stable_sort_by(before.workspaces, by_workspace_id());
    &&& forall|i: int, j: int| 0 <= i < j < after.workspaces.len()
        ==> lex_le(#[trigger] after.workspaces[i].workspace_id, #[trigger] after.workspaces[j].workspace_id)
    &&& after.workspaces.len() == before.workspaces.len()
    &&& forall|i: int| 0 <= i < after.workspaces.len() ==> workspace_tidy(#[trigger] after.workspaces[i], mid[i])
    &&& after.summaries == stable_sort_by(before.summaries, by_recovery_id())
    &&& forall|i: int, j: int| 0 <= i < j < after.summaries.len()
        ==> lex_le(#[trigger] after.summaries[i].recovery_id, #[trigger] after.summaries[j].recovery_id)
    &&& after.summaries.to_multiset() == before.summaries.to_multiset()
    &&& tidy(after.active_recovery_ids, before.active_recovery_ids)
}

fn status_label(status: RecoveryStatus) -> (r: String)
    ensures
        r@ == recovery_status_name(status),
{
    str_to_string(match status {
        RecoveryStatus::Prepared => "prepared",
        RecoveryStatus::Ready => "ready",
        RecoveryStatus::Consumed => "consumed",
    })
}

fn find_workspace(ws: &Vec<WorkspaceRuntimeEntry>, id: &str) -> (r: usize)
    ensures
        r == first_index(workspace_keys(workspace_views(ws@)), id@),
        r <= ws@.len(),
{
    let ghost keys = workspace_keys(workspace_views(ws@));
    let mut i: usize = 0;
    while i < ws.len()
        invariant
            i <= ws@.len(),
            keys == workspace_keys(workspace_views(ws@)),
            forall|k: int| 0 <= k < i ==> #[trigger] keys[k] != id@,
        decreases ws@.len() - i,
    {
        assert(keys[i as int] == ws@[i as int].workspace_id@);
        if crate::text::str_eq(ws[i].workspace_id.as_str(), id) {
            proof {
                lemma_first_index(keys, id@, i as int);
            }
            return i;
        }
        i = i + 1;
    }
    proof {
        lemma_first_index(keys, id@, i as int);
    }
    i
}

fn find_summary(ss: &Vec<RecoverySummaryEntry>, id: &str) -> (r: usize)
    ensures
        r == first_index(summary_keys(summary_views(ss@)), id@),
        r <= ss@.len(),
{
    let ghost keys = summary_keys(summary_views(ss@));
    let mut i: usize = 0;
    while i < ss.len()
        invariant
            i <= ss@.len(),
            keys == summary_keys(summary_views(ss@)),
            forall|k: int| 0 <= k < i ==> #[trigger] keys[k] != id@,
        decreases ss@.len() - i,
    {
        assert(keys[i as int] == ss@[i as int].recovery_id@);
        if crate::text::str_eq(ss[i].recovery_id.as_str(), id) {
            proof {
                lemma_first_index(keys, id@, i as int);
            }
            return i;
        }
        i = i + 1;
    }
    proof {
        lemma_first_index(keys, id@, i as int);
    }
    i
}

fn workspace_updated(entry: WorkspaceRuntimeEntry, e: &WorkspaceRecoveryExport) -> (r: WorkspaceRuntimeEntry)
    ensures
        r@ == workspace_with(entry@, *e),
{
    let mut entry = entry;
    entry.current_status = Some(status_label(e.status));
    entry.last_update = Some(e.last_update);
    entry.execution_chain_ref = crate::text::copy_opt_string(&e.execution_chain_ref);
    entry.recovery_ref = Some(e.recovery_ref.clone());
    crate::read_model::push_unique(&mut entry.active_execution_group_ids, crate::text::copy_opt_string(&e.mission_id));
    crate::read_model::push_unique(&mut entry.active_task_ids, crate::text::copy_opt_string(&e.task_id));
    crate::read_model::push_unique(&mut entry.recovery_ids, Some(e.recovery_ref.clone()));
    crate::read_model::push_unique(&mut entry.execution_chain_refs, crate::text::copy_opt_string(&e.execution_chain_ref));
    entry
}

fn summary_updated(s: RecoverySummaryEntry, e: &WorkspaceRecoveryExport) -> (r: RecoverySummaryEntry)
    ensures
        r@ == summary_with(s@, *e),
{
    let mut s = s;
    if s.workspace_id.is_none() {
        s.workspace_id = Some(e.workspace_id.clone());
    }
    if s.session_id.is_none() {
        s.session_id = crate::text::copy_opt_string(&e.session_id);
    }
    if s.mission_id.is_none() {
        s.mission_id = crate::text::copy_opt_string(&e.mission_id);
    }
    if s.task_id.is_none() {
        s.task_id = crate::text::copy_opt_string(&e.task_id);
    }
    if s.worker_id.is_none() {
        s.worker_id = crate::text::copy_opt_string(&e.worker_id);
    }
    if s.execution_chain_ref.is_none() {
        s.execution_chain_ref = crate::text::copy_opt_string(&e.execution_chain_ref);
    }
    if s.diagnostic_summary.is_none() {
        s.diagnostic_summary = crate::text::copy_opt_string(&e.public_diagnostic_summary);
    }
    if s.event_count == 0 {
        s.latest_occurred_at = e.last_update;
        s.current_status = status_label(e.status);
    }
    s
}

fn summary_started(e: &WorkspaceRecoveryExport) -> (r: RecoverySummaryEntry)
    ensures
        r@ == summary_from_export(*e),
{
    RecoverySummaryEntry {
        recovery_id: e.recovery_ref.clone(),
        event_count: 0,
        latest_stage: recovery_stage_from_status(e.status),
        latest_event_type: str_to_string("workspace.recovery.sidecar"),
        latest_sequence: 0,
        latest_occurred_at: e.last_update,
        workspace_id: Some(e.workspace_id.clone()),
        session_id: crate::text::copy_opt_string(&e.session_id),
        mission_id: crate::text::copy_opt_string(&e.mission_id),
        assignment_id: None,
        task_id: crate::text::copy_opt_string(&e.task_id),
        worker_id: crate::text::copy_opt_string(&e.worker_id),
        execution_chain_ref: crate::text::copy_opt_string(&e.execution_chain_ref),
        diagnostic_summary: crate::text::copy_opt_string(&e.public_diagnostic_summary),
        current_status: status_label(e.status),
    }
}

/// Applies one workspace recovery sidecar's export to the read model.
pub fn apply_workspace_sidecar(model: &mut RecoveryReadModel, e: &WorkspaceRecoveryExport)
    ensures
        final(model)@ == model_after(old(model)@, *e),
{
    let ghost before = old(model)@;
    let i = find_workspace(&model.workspaces, e.workspace_id.as_str());
    if i < model.workspaces.len() {
        let ghost ws0 = model.workspaces@;
        let entry = model.workspaces.remove(i);
        let updated = workspace_updated(entry, e);
        model.workspaces.insert(i, updated);
        proof {
            assert(model.workspaces@ =~= ws0.update(i as int, updated));
            assert(workspace_views(model.workspaces@) =~= workspace_views(ws0).update(i as int, workspace_with(workspace_views(ws0)[i as int], *e)));
        }
    } else {
        let entry = WorkspaceRuntimeEntry {
            workspace_id: e.workspace_id.clone(),
            current_status: None,
            last_update: None,
            execution_chain_ref: None,
            recovery_ref: None,
            active_execution_group_ids: Vec::new(),
            active_task_ids: Vec::new(),
            recovery_ids: Vec::new(),
            execution_chain_refs: Vec::new(),
        };
        assert(entry@ =~= empty_workspace(e.workspace_id@)) by {
            assert(id_views(entry.active_execution_group_ids@) =~= Seq::empty());
            assert(id_views(entry.active_task_ids@) =~= Seq::empty());
            assert(id_views(entry.recovery_ids@) =~= Seq::empty());
            assert(id_views(entry.execution_chain_refs@) =~= Seq::empty());
        }
        let ghost ws0 = model.workspaces@;
        let updated = workspace_updated(entry, e);
        model.workspaces.push(updated);
        assert(workspace_views(model.workspaces@) =~= workspace_views(ws0).push(updated@));
    }
    assert(workspace_views(model.workspaces@) == workspaces_after(before.workspaces, *e));

    let j = find_summary(&model.summaries, e.recovery_ref.as_str());
    if j < model.summaries.len() {
        let ghost ss0 = model.summaries@;
        let s = model.summaries.remove(j);
        let updated = summary_updated(s, e);
        model.summaries.insert(j, updated);
        proof {
            assert(model.summaries@ =~= ss0.update(j as int, updated));
            assert(summary_views(model.summaries@) =~= summary_views(ss0).update(j as int, summary_with(summary_views(ss0)[j as int], *e)));
        }
    } else {
        let ghost ss0 = model.summaries@;
        let started = summary_started(e);
        model.summaries.push(started);
        assert(summary_views(model.summaries@) =~= summary_views(ss0).push(started@));
    }
    assert(summary_views(model.summaries@) == summaries_after(before.summaries, *e));

    match e.status {
        RecoveryStatus::Consumed => {},
        _ => {
            crate::read_model::push_unique(&mut model.active_recovery_ids, Some(e.recovery_ref.clone()));
        },
    }
    assert(model@.workspaces == model_after(before, *e).workspaces);
    assert(model@.summaries == model_after(before, *e).summaries);
    assert(model@.active_recovery_ids == model_after(before, *e).active_recovery_ids);
}

fn sort_workspaces(items: Vec<WorkspaceRuntimeEntry>) -> (r: Vec<WorkspaceRuntimeEntry>)
    ensures
        workspace_views(r@) == stable_sort_by(workspace_views(items@), by_workspace_id()),
        forall|i: int, j: int| 0 <= i < j < r@.len() ==> lex_le(#[trigger] r@[i].workspace_id@, #[trigger] r@[j].workspace_id@),
        workspace_views(r@).to_multiset() == workspace_views(items@).to_multiset(),
        r@.len() == items@.len(),
{
    let mut out: Vec<WorkspaceRuntimeEntry> = Vec::new();
    let mut rest = items;
    let ghost all = rest@;
    let n = rest.len();
    let mut k: usize = 0;
    assert(workspace_views(all.take(0)) =~= workspace_views(out@));
    assert(all.skip(0) =~= all);
    while rest.len() > 0
        invariant
            k + rest@.len() == all.len(),
            all.len() == n,
            out@.len() == k,
            rest@ == all.skip(k as int),
            workspace_views(out@) == stable_sort_by(workspace_views(all.take(k as int)), by_workspace_id()),
            forall|i: int, j: int| 0 <= i < j < out@.len() ==> lex_le(#[trigger] out@[i].workspace_id@, #[trigger] out@[j].workspace_id@),
            workspace_views(out@).to_multiset() == workspace_views(all.take(k as int)).to_multiset(),
        decreases rest@.len(),
    {
        let x = rest.remove(0);
        proof {
            assert(x == all[k as int]);
            assert(rest@ =~= all.skip(k + 1));
            assert(workspace_views(all.take(k + 1)) =~= workspace_views(all.take(k as int)).push(x@));
        }
        let ghost before = out@;
        let mut pos: usize = out.len();
        while pos > 0 && !crate::ordering::str_le(out[pos - 1].workspace_id.as_str(), x.workspace_id.as_str())
            invariant
                pos <= out@.len(),
                before == out@,
                forall|j: int| pos <= j < out@.len() ==> lex_lt(x.workspace_id@, #[trigger] out@[j].workspace_id@),
            decreases pos,
        {
            proof {
                crate::ordering::lemma_lex_total(x.workspace_id@, out@[pos - 1].workspace_id@);
                if x.workspace_id@ == out@[pos - 1].workspace_id@ {
                    crate::ordering::lemma_lex_reflexive(x.workspace_id@);
                }
            }
            pos = pos - 1;
        }
        out.insert(pos, x);
        proof {
            let after = out@;
            assert(after =~= before.insert(pos as int, x));
            assert forall|i: int, j: int| 0 <= i < j < after.len() implies lex_le(#[trigger] after[i].workspace_id@, #[trigger] after[j].workspace_id@) by {
                if j < pos {
                    assert(after[i] == before[i] && after[j] == before[j]);
                } else if j == pos {
                    assert(after[i] == before[i]);
                    if i < pos - 1 {
                        crate::ordering::lemma_lex_transitive(before[i].workspace_id@, before[pos - 1].workspace_id@, x.workspace_id@);
                    }
                } else if i < pos {
                    assert(after[i] == before[i] && after[j] == before[j - 1]);
                    if pos < before.len() {
                        assert(lex_lt(x.workspace_id@, before[j - 1].workspace_id@));
                        if i < pos - 1 {
                            crate::ordering::lemma_lex_transitive(before[i].workspace_id@, before[pos - 1].workspace_id@, x.workspace_id@);
                        }
                        crate::ordering::lemma_lex_transitive(before[i].workspace_id@, x.workspace_id@, before[j - 1].workspace_id@);
                    }
                } else if i == pos {
                    assert(after[j] == before[j - 1]);
                } else {
                    assert(after[i] == before[i - 1] && after[j] == before[j - 1]);
                }
            }
            assert(workspace_views(after) =~= workspace_views(before).insert(pos as int, x@));
            let vb = workspace_views(before);
            assert forall|j: int| pos <= j < vb.len() implies !(by_workspace_id())(#[trigger] vb[j], x@) by {
                lemma_lex_lt_not_le(x.workspace_id@, before[j].workspace_id@);
            }
            assert(workspace_views(all.take(k + 1)).drop_last() == workspace_views(all.take(k as int)));
            lemma_insert_stable_at(vb, x@, by_workspace_id(), pos as int);
            vstd::seq_lib::to_multiset_insert(workspace_views(before), pos as int, x@);
            workspace_views(all.take(k as int)).to_multiset_ensures();
        }
        k = k + 1;
    }
    assert(all.take(k as int) == all);
    out
}

fn sort_summaries(items: Vec<RecoverySummaryEntry>) -> (r: Vec<RecoverySummaryEntry>)
    ensures
        summary_views(r@) == stable_sort_by(summary_views(items@), by_recovery_id()),
        forall|i: int, j: int| 0 <= i < j < r@.len() ==> lex_le(#[trigger] r@[i].recovery_id@, #[trigger] r@[j].recovery_id@),
        summary_views(r@).to_multiset() == summary_views(items@).to_multiset(),
        r@.len() == items@.len(),
{
    let mut out: Vec<RecoverySummaryEntry> = Vec::new();
    let mut rest = items;
    let ghost all = rest@;
    let n = rest.len();
    let mut k: usize = 0;
    assert(summary_views(all.take(0)) =~= summary_views(out@));
    assert(all.skip(0) =~= all);
    while rest.len() > 0
        invariant
            k + rest@.len() == all.len(),
            all.len() == n,
            out@.len() == k,
            rest@ == all.skip(k as int),
            summary_views(out@) == stable_sort_by(summary_views(all.take(k as int)), by_recovery_id()),
            forall|i: int, j: int| 0 <= i < j < out@.len() ==> lex_le(#[trigger] out@[i].recovery_id@, #[trigger] out@[j].recovery_id@),
            summary_views(out@).to_multiset() == summary_views(all.take(k as int)).to_multiset(),
        decreases rest@.len(),
    {
        let x = rest.remove(0);
        proof {
            assert(x == all[k as int]);
            assert(rest@ =~= all.skip(k + 1));
            assert(summary_views(all.take(k + 1)) =~= summary_views(all.take(k as int)).push(x@));
        }
        let ghost before = out@;
        let mut pos: usize = out.len();
        while pos > 0 && !crate::ordering::str_le(out[pos - 1].recovery_id.as_str(), x.recovery_id.as_str())
            invariant
                pos <= out@.len(),
                before == out@,
                forall|j: int| pos <= j < out@.len() ==> lex_lt(x.recovery_id@, #[trigger] out@[j].recovery_id@),
            decreases pos,
        {
            proof {
                crate::ordering::lemma_lex_total(x.recovery_id@, out@[pos - 1].recovery_id@);
                if x.recovery_id@ == out@[pos - 1].recovery_id@ {
                    crate::ordering::lemma_lex_reflexive(x.recovery_id@);
                }
            }
            pos = pos - 1;
        }
        out.insert(pos, x);
        proof {
            let after = out@;
            assert(after =~= before.insert(pos as int, x));
            assert forall|i: int, j: int| 0 <= i < j < after.len() implies lex_le(#[trigger] after[i].recovery_id@, #[trigger] after[j].recovery_id@) by {
                if j < pos {
                    assert(after[i] == before[i] && after[j] == before[j]);
                } else if j == pos {
                    assert(after[i] == before[i]);
                    if i < pos - 1 {
                        crate::ordering::lemma_lex_transitive(before[i].recovery_id@, before[pos - 1].recovery_id@, x.recovery_id@);
                    }
                } else if i < pos {
                    assert(after[i] == before[i] && after[j] == before[j - 1]);
                    if pos < before.len() {
                        assert(lex_lt(x.recovery_id@, before[j - 1].recovery_id@));
                        if i < pos - 1 {
                            crate::ordering::lemma_lex_transitive(before[i].recovery_id@, before[pos - 1].recovery_id@, x.recovery_id@);
                        }
                        crate::ordering::lemma_lex_transitive(before[i].recovery_id@, x.recovery_id@, before[j - 1].recovery_id@);
                    }
                } else if i == pos {
                    assert(after[j] == before[j - 1]);
                } else {
                    assert(after[i] == before[i - 1] && after[j] == before[j - 1]);
                }
            }
            assert(summary_views(after) =~= summary_views(before).insert(pos as int, x@));
            let vb = summary_views(before);
            assert forall|j: int| pos <= j < vb.len() implies !(by_recovery_id())(#[trigger] vb[j], x@) by {
                lemma_lex_lt_not_le(x.recovery_id@, before[j].recovery_id@);
            }
            assert(summary_views(all.take(k + 1)).drop_last() == summary_views(all.take(k as int)));
            lemma_insert_stable_at(vb, x@, by_recovery_id(), pos as int);
            vstd::seq_lib::to_multiset_insert(summary_views(before), pos as int, x@);
            summary_views(all.take(k as int)).to_multiset_ensures();
        }
        k = k + 1;
    }
    assert(all.take(k as int) == all);
    out
}

fn tidy_ids(v: Vec<String>) -> (r: Vec<String>)
    ensures
        tidy(id_views(r@), id_views(v@)),
{
    let r = crate::ordering::sorted_unique(v);
    assert(crate::ordering::views(r@) =~= id_views(r@));
    assert(crate::ordering::views(v@) =~= id_views(v@));
    r
}

fn workspace_tidied(entry: WorkspaceRuntimeEntry) -> (r: WorkspaceRuntimeEntry)
    ensures
        workspace_tidy(r@, entry@),
{
    WorkspaceRuntimeEntry {
        active_execution_group_ids: tidy_ids(entry.active_execution_group_ids),
        active_task_ids: tidy_ids(entry.active_task_ids),
        recovery_ids: tidy_ids(entry.recovery_ids),
        execution_chain_refs: tidy_ids(entry.execution_chain_refs),
        ..entry
    }
}

/// Puts the read model in its published form.
pub fn publish_recovery_read_model(model: &mut RecoveryReadModel)
    ensures
        published(final(model)@, old(model)@),
{
    let ghost before = model@;
    let mut ws: Vec<WorkspaceRuntimeEntry> = Vec::new();
    std::mem::swap(&mut ws, &mut model.workspaces);
    let mut sorted = sort_workspaces(ws);
    let ghost mid = workspace_views(sorted@);
    let ghost sorted0 = sorted@;
    let mut tidied: Vec<WorkspaceRuntimeEntry> = Vec::new();
    let mut k: usize = 0;
    let n = sorted.len();
    assert(sorted0.skip(0) =~= sorted0);
    while sorted.len() > 0
        invariant
            k + sorted@.len() == n,
            n == sorted0.len(),
            sorted@ == sorted0.skip(k as int),
            mid == workspace_views(sorted0),
            tidied@.len() == k,
            forall|i: int| 0 <= i < k ==> workspace_tidy(#[trigger] tidied@[i]@, mid[i]),
        decreases sorted@.len(),
    {
        let x = sorted.remove(0);
        proof {
            assert(x == sorted0[k as int]);
            assert(sorted@ =~= sorted0.skip(k + 1));
        }
        let t = workspace_tidied(x);
        tidied.push(t);
        k = k + 1;
    }
    model.workspaces = tidied;
    proof {
        let wa = workspace_views(model.workspaces@);
        assert forall|i: int| 0 <= i < mid.len() implies workspace_tidy(#[trigger] wa[i], mid[i]) by {
            assert(wa[i] == model.workspaces@[i]@);
        }
        assert forall|i: int, j: int| 0 <= i < j < wa.len() implies lex_le(#[trigger] wa[i].workspace_id, #[trigger] wa[j].workspace_id) by {
            assert(wa[i] == model.workspaces@[i]@);
            assert(wa[j] == model.workspaces@[j]@);
            assert(workspace_tidy(model.workspaces@[i]@, mid[i]));
            assert(workspace_tidy(model.workspaces@[j]@, mid[j]));
            assert(mid[i] == sorted0[i]@ && mid[j] == sorted0[j]@);
        }
        assert(mid.to_multiset() == before.workspaces.to_multiset());
    }

    let mut ss: Vec<RecoverySummaryEntry> = Vec::new();
    std::mem::swap(&mut ss, &mut model.summaries);
    model.summaries = sort_summaries(ss);
    proof {
        let sa = summary_views(model.summaries@);
        assert forall|i: int, j: int| 0 <= i < j < sa.len() implies lex_le(#[trigger] sa[i].recovery_id, #[trigger] sa[j].recovery_id) by {
            assert(sa[i] == model.summaries@[i]@);
            assert(sa[j] == model.summaries@[j]@);
        }
    }

    let mut ids: Vec<String> = Vec::new();
    std::mem::swap(&mut ids, &mut model.active_recovery_ids);
    model.active_recovery_ids = tidy_ids(ids);
    proof {
        let after = model@;
        assert(after.workspaces.len() == before.workspaces.len());
        assert(mid.to_multiset() == before.workspaces.to_multiset() && mid.len() == after.workspaces.len()
            && forall|i: int| 0 <= i < mid.len() ==> workspace_tidy(#[trigger] after.workspaces[i], mid[i]));
        assert(after.summaries.to_multiset() == before.summaries.to_multiset());
        assert(tidy(after.active_recovery_ids, before.active_recovery_ids));
    }
}

/// Merges the workspaces' recovery sidecar exports into the read model, in
/// order, and publishes it.
pub fn merge_workspace_sidecars(model: &mut RecoveryReadModel, exports: &Vec<WorkspaceRecoveryExport>)
    ensures
        published(final(model)@, merged(old(model)@, exports@)),
{
    let ghost start = model@;
    let mut i: usize = 0;
    while i < exports.len()
        invariant
            i <= exports@.len(),
            model@ == merged(start, exports@.take(i as int)),
        decreases exports@.len() - i,
    {
        proof {
            assert(exports@.take(i + 1).drop_last() == exports@.take(i as int));
            assert(exports@.take(i + 1).last() == exports@[i as int]);
        }
        apply_workspace_sidecar(model, &exports[i]);
        i = i + 1;
    }
    assert(exports@.take(exports@.len() as int) == exports@);
    publish_recovery_read_model(model);
}

/// The recoveries that some export reports as not consumed.
pub open spec fn unconsumed_refs(exports: Seq<WorkspaceRecoveryExport>) -> Set<Seq<char>> {
    Set::new(|r: Seq<char>| exists|i: int| 0 <= i < exports.len()
        && (#[trigger] exports[i]).status != RecoveryStatus::Consumed && exports[i].recovery_ref@ == r)
}

pub proof fn lemma_pushed_unique_set(values: Seq<Seq<char>>, v: Seq<char>)
    ensures
        pushed_unique(values, Some(v)).to_set() == values.to_set().insert(v),
{
    if values.contains(v) {
        assert(values.to_set().insert(v) =~= values.to_set());
    } else {
        values.lemma_push_to_set_commute(v);
    }
}

/// The active recoveries after a merge are those active before, and those
/// that some export reports as not consumed.
pub proof fn lemma_merged_active_recoveries(m: RecoveryReadModelView, exports: Seq<WorkspaceRecoveryExport>)
    ensures
        merged(m, exports).active_recovery_ids.to_set() == m.active_recovery_ids.to_set().union(unconsumed_refs(exports)),
    decreases exports.len(),
{
    if exports.len() == 0 {
        assert(unconsumed_refs(exports) =~= Set::empty());
        assert(m.active_recovery_ids.to_set().union(Set::empty()) =~= m.active_recovery_ids.to_set());
    } else {
        let rest = exports.drop_last();
        let e = exports.last();
        lemma_merged_active_recoveries(m, rest);
        let before = merged(m, rest).active_recovery_ids;
        if e.status == RecoveryStatus::Consumed {
            assert forall|r: Seq<char>| unconsumed_refs(exports).contains(r) <==> unconsumed_refs(rest).contains(r) by {
                if unconsumed_refs(exports).contains(r) {
                    let i = choose|i: int| 0 <= i < exports.len()
                        && (#[trigger] exports[i]).status != RecoveryStatus::Consumed && exports[i].recovery_ref@ == r;
                    assert(i < rest.len());
                    assert(rest[i] == exports[i]);
                }
                if unconsumed_refs(rest).contains(r) {
                    let i = choose|i: int| 0 <= i < rest.len()
                        && (#[trigger] rest[i]).status != RecoveryStatus::Consumed && rest[i].recovery_ref@ == r;
                    assert(exports[i] == rest[i]);
                }
            }
            assert(unconsumed_refs(exports) =~= unconsumed_refs(rest));
        } else {
            lemma_pushed_unique_set(before, e.recovery_ref@);
            assert forall|r: Seq<char>| unconsumed_refs(exports).contains(r) <==> (unconsumed_refs(rest).contains(r) || r == e.recovery_ref@) by {
                if unconsumed_refs(exports).contains(r) {
                    let i = choose|i: int| 0 <= i < exports.len()
                        && (#[trigger] exports[i]).status != RecoveryStatus::Consumed && exports[i].recovery_ref@ == r;
                    if i < rest.len() {
                        assert(rest[i] == exports[i]);
                    }
                }
                if unconsumed_refs(rest).contains(r) {
                    let i = choose|i: int| 0 <= i < rest.len()
                        && (#[trigger] rest[i]).status != RecoveryStatus::Consumed && rest[i].recovery_ref@ == r;
                    assert(exports[i] == rest[i]);
                }
                if r == e.recovery_ref@ {
                    assert(exports[exports.len() - 1] == e);
                }
            }
            assert(unconsumed_refs(exports) =~= unconsumed_refs(rest).insert(e.recovery_ref@));
            assert(m.active_recovery_ids.to_set().union(unconsumed_refs(exports))
                =~= m.active_recovery_ids.to_set().union(unconsumed_refs(rest)).insert(e.recovery_ref@));
        }
    }
}

/// What the read model reports as active after the recovery sidecars'
/// exports are merged and published: the recoveries active before, and
/// those that some export reports as not consumed — a recovery that every
/// export reports consumed does not become active.
pub proof fn lemma_published_active_recoveries(
    after: RecoveryReadModelView,
    before: RecoveryReadModelView,
    exports: Seq<WorkspaceRecoveryExport>,
)
    requires
        published(after, merged(before, exports)),
    ensures
        after.active_recovery_ids.to_set() == before.active_recovery_ids.to_set().union(unconsumed_refs(exports)),
        strictly_sorted(after.active_recovery_ids),
{
    lemma_merged_active_recoveries(before, exports);
}

/// A sidecar's export never overrides what a recovery summary already
/// holds: its recorded stage and counts stay, each field it has keeps its
/// value, and once events were recorded for it, so do its time and status.
pub proof fn lemma_sidecar_keeps_recorded_summary(s: RecoverySummaryView, e: WorkspaceRecoveryExport)
    ensures
        ({
            let r = summary_with(s, e);
            &&& r.recovery_id == s.recovery_id && r.event_count == s.event_count
            &&& r.latest_stage == s.latest_stage && r.latest_event_type == s.latest_event_type
            &&& r.latest_sequence == s.latest_sequence && r.assignment_id == s.assignment_id
            &&& s.workspace_id is Some ==> r.workspace_id == s.workspace_id
            &&& s.session_id is Some ==> r.session_id == s.session_id
            &&& s.mission_id is Some ==> r.mission_id == s.mission_id
            &&& s.task_id is Some ==> r.task_id == s.task_id
            &&& s.worker_id is Some ==> r.worker_id == s.worker_id
            &&& s.execution_chain_ref is Some ==> r.execution_chain_ref == s.execution_chain_ref
            &&& s.diagnostic_summary is Some ==> r.diagnostic_summary == s.diagnostic_summary
            &&& s.event_count > 0 ==> r.latest_occurred_at == s.latest_occurred_at && r.current_status == s.current_status
        }),
{
}

/// The step a recovery sidecar's status stands for.
pub fn recovery_stage_from_status(status: RecoveryStatus) -> (r: RecoveryActivityStage)
    ensures
        r == stage_of_status(status),
{
    match status {
        RecoveryStatus::Prepared => RecoveryActivityStage::ResumeCommandCreated,
        RecoveryStatus::Ready => RecoveryActivityStage::ResumeDispatchCreated,
        RecoveryStatus::Consumed => RecoveryActivityStage::WorkerResumed,
    }
}

} // verus!
