use magi_api::recovery_read_model::{
    apply_workspace_sidecar, merge_workspace_sidecars, publish_recovery_read_model, RecoveryActivityStage,
    RecoveryReadModel, RecoveryStatus, RecoverySummaryEntry, WorkspaceRecoveryExport, WorkspaceRuntimeEntry,
};

fn empty_model() -> RecoveryReadModel {
    RecoveryReadModel { workspaces: Vec::new(), summaries: Vec::new(), active_recovery_ids: Vec::new() }
}

fn export(recovery_ref: &str, workspace_id: &str, status: RecoveryStatus, last_update: u64) -> WorkspaceRecoveryExport {
    WorkspaceRecoveryExport {
        recovery_ref: recovery_ref.to_string(),
        workspace_id: workspace_id.to_string(),
        status,
        last_update,
        session_id: None,
        mission_id: None,
        task_id: None,
        worker_id: None,
        execution_chain_ref: None,
        public_diagnostic_summary: None,
    }
}

fn event_sourced(recovery_id: &str, workspace_id: Option<&str>, diagnostic: Option<&str>) -> RecoverySummaryEntry {
    RecoverySummaryEntry {
        recovery_id: recovery_id.to_string(),
        event_count: 2,
        latest_stage: RecoveryActivityStage::WorkerResumed,
        latest_event_type: "worker.resumed.from_recovery".to_string(),
        latest_sequence: 7,
        latest_occurred_at: 50,
        workspace_id: workspace_id.map(str::to_string),
        session_id: Some("session-outcome-1".to_string()),
        mission_id: Some("mission-outcome-1".to_string()),
        assignment_id: None,
        task_id: Some("todo-outcome-1".to_string()),
        worker_id: Some("worker-outcome-1".to_string()),
        execution_chain_ref: Some("chain-outcome-1".to_string()),
        diagnostic_summary: diagnostic.map(str::to_string),
        current_status: "worker_resumed".to_string(),
    }
}

#[test]
fn runtime_read_model_excludes_consumed_recoveries_from_active_ids() {
    let mut model = empty_model();
    let mut consumed = export("recovery-consumed", "workspace-1", RecoveryStatus::Consumed, 2);
    consumed.public_diagnostic_summary = Some("done".to_string());
    merge_workspace_sidecars(
        &mut model,
        &vec![export("recovery-ready", "workspace-1", RecoveryStatus::Ready, 1), consumed],
    );
    assert_eq!(model.active_recovery_ids, vec!["recovery-ready".to_string()]);
    assert_eq!(model.summaries.len(), 2);
    assert_eq!(model.summaries[0].current_status, "consumed");
    assert_eq!(model.summaries[1].current_status, "ready");
    assert!(matches!(model.summaries[0].latest_stage, RecoveryActivityStage::WorkerResumed));
    assert!(matches!(model.summaries[1].latest_stage, RecoveryActivityStage::ResumeDispatchCreated));
    assert_eq!(model.summaries[0].latest_event_type, "workspace.recovery.sidecar");
    assert_eq!(model.workspaces.len(), 1);
    assert_eq!(model.workspaces[0].current_status.as_deref(), Some("consumed"));
    assert_eq!(
        model.workspaces[0].recovery_ids,
        vec!["recovery-consumed".to_string(), "recovery-ready".to_string()]
    );
    assert_eq!(model.workspaces[0].recovery_ref.as_deref(), Some("recovery-consumed"));
}

#[test]
fn runtime_read_model_keeps_event_sourced_recovery_worker_when_workspace_sidecar_is_stale() {
    let mut model = empty_model();
    let mut stored = event_sourced("recovery-worker-1", Some("workspace-1"), Some("resume"));
    stored.worker_id = Some("worker-actual".to_string());
    model.summaries.push(stored);
    let mut stale = export("recovery-worker-1", "workspace-1", RecoveryStatus::Consumed, 9);
    stale.worker_id = Some("worker-stale".to_string());
    stale.execution_chain_ref = Some("chain-1".to_string());
    stale.public_diagnostic_summary = Some("resume".to_string());
    merge_workspace_sidecars(&mut model, &vec![stale]);
    assert_eq!(model.summaries.len(), 1);
    assert_eq!(model.summaries[0].worker_id.as_deref(), Some("worker-actual"));
    assert!(model.active_recovery_ids.is_empty());
}

#[test]
fn runtime_read_model_preserves_event_sourced_recovery_outcome_when_workspace_sidecar_is_consumed_snapshot() {
    let mut model = empty_model();
    model.summaries.push(event_sourced("recovery-outcome-1", None, None));
    let mut snapshot = export("recovery-outcome-1", "workspace-outcome-1", RecoveryStatus::Consumed, 99);
    snapshot.session_id = Some("session-outcome-1".to_string());
    snapshot.mission_id = Some("mission-stale".to_string());
    snapshot.task_id = Some("todo-stale".to_string());
    snapshot.worker_id = Some("worker-stale".to_string());
    snapshot.execution_chain_ref = Some("chain-stale".to_string());
    snapshot.public_diagnostic_summary = Some("resume detail".to_string());
    merge_workspace_sidecars(&mut model, &vec![snapshot]);

    assert_eq!(model.summaries.len(), 1);
    let summary = &model.summaries[0];
    assert!(matches!(summary.latest_stage, RecoveryActivityStage::WorkerResumed));
    assert_eq!(summary.current_status, "worker_resumed");
    assert_eq!(summary.latest_occurred_at, 50);
    assert_eq!(summary.workspace_id.as_deref(), Some("workspace-outcome-1"));
    assert_eq!(summary.diagnostic_summary.as_deref(), Some("resume detail"));
    assert_eq!(summary.worker_id.as_deref(), Some("worker-outcome-1"));
    assert_eq!(summary.execution_chain_ref.as_deref(), Some("chain-outcome-1"));
}

#[test]
fn workspace_sidecars_collect_ids_per_workspace_sorted_and_once() {
    let mut model = empty_model();
    let mut a = export("recovery-b", "workspace-2", RecoveryStatus::Prepared, 5);
    a.mission_id = Some("mission-2".to_string());
    a.task_id = Some("task-2".to_string());
    a.execution_chain_ref = Some("chain-2".to_string());
    let mut b = export("recovery-a", "workspace-2", RecoveryStatus::Ready, 6);
    b.mission_id = Some("mission-1".to_string());
    b.task_id = Some("task-2".to_string());
    let c = export("recovery-c", "workspace-1", RecoveryStatus::Ready, 7);
    merge_workspace_sidecars(&mut model, &vec![a, b, c]);

    let ids: Vec<&str> = model.workspaces.iter().map(|w| w.workspace_id.as_str()).collect();
    assert_eq!(ids, vec!["workspace-1", "workspace-2"]);
    let second = &model.workspaces[1];
    assert_eq!(second.current_status.as_deref(), Some("ready"));
    assert_eq!(second.last_update, Some(6));
    assert_eq!(second.execution_chain_ref, None);
    assert_eq!(second.active_execution_group_ids, vec!["mission-1".to_string(), "mission-2".to_string()]);
    assert_eq!(second.active_task_ids, vec!["task-2".to_string()]);
    assert_eq!(second.recovery_ids, vec!["recovery-a".to_string(), "recovery-b".to_string()]);
    assert_eq!(second.execution_chain_refs, vec!["chain-2".to_string()]);
    assert_eq!(
        model.active_recovery_ids,
        vec!["recovery-a".to_string(), "recovery-b".to_string(), "recovery-c".to_string()]
    );
    let summary_ids: Vec<&str> = model.summaries.iter().map(|s| s.recovery_id.as_str()).collect();
    assert_eq!(summary_ids, vec!["recovery-a", "recovery-b", "recovery-c"]);
    assert!(matches!(model.summaries[1].latest_stage, RecoveryActivityStage::ResumeCommandCreated));
    assert_eq!(model.summaries[1].current_status, "prepared");
}

#[test]
fn one_sidecar_step_updates_in_place_and_publishing_sorts() {
    let mut model = empty_model();
    model.workspaces.push(WorkspaceRuntimeEntry {
        workspace_id: "workspace-9".to_string(),
        current_status: None,
        last_update: None,
        execution_chain_ref: Some("old".to_string()),
        recovery_ref: None,
        active_execution_group_ids: vec!["z".to_string(), "a".to_string(), "z".to_string()],
        active_task_ids: Vec::new(),
        recovery_ids: Vec::new(),
        execution_chain_refs: Vec::new(),
    });
    model.active_recovery_ids = vec!["r2".to_string(), "r1".to_string(), "r2".to_string()];
    apply_workspace_sidecar(&mut model, &export("r3", "workspace-9", RecoveryStatus::Ready, 3));
    assert_eq!(model.workspaces.len(), 1);
    assert_eq!(model.workspaces[0].execution_chain_ref, None);
    assert_eq!(model.workspaces[0].recovery_ids, vec!["r3".to_string()]);
    assert_eq!(model.active_recovery_ids, vec!["r2".to_string(), "r1".to_string(), "r2".to_string(), "r3".to_string()]);
    publish_recovery_read_model(&mut model);
    assert_eq!(model.workspaces[0].active_execution_group_ids, vec!["a".to_string(), "z".to_string()]);
    assert_eq!(model.active_recovery_ids, vec!["r1".to_string(), "r2".to_string(), "r3".to_string()]);
}
