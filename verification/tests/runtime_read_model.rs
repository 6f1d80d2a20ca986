use magi_api::activity_read_model::{ActivityReadModel, ProjectedTask, TaskProjection};
use magi_api::read_model::TaskStatus;
use magi_api::recovery::{RecoveryExecutionFacts, RecoveryResumeResponseDto};
use magi_api::recovery_read_model::{RecoveryReadModel, RecoveryStatus, WorkspaceRecoveryExport};
use magi_api::runtime_read_model::{runtime_read_model_dto, RuntimeReadModel, SessionSidecarInput};
use magi_api::session_summary::{BranchState, ChainExport, SessionSidecarExport, SessionSidecarStatus};

#[derive(Clone, Debug, PartialEq)]
struct LedgerSummary {
    next_sequence: u64,
    usage_count: u64,
}

fn ledger(next_sequence: u64, usage_count: u64) -> LedgerSummary {
    LedgerSummary { next_sequence, usage_count }
}

fn empty_model() -> RuntimeReadModel<LedgerSummary> {
    RuntimeReadModel {
        sessions: Vec::new(),
        activity: ActivityReadModel {
            execution_groups: Vec::new(),
            tasks: Vec::new(),
            active_execution_group_ids: Vec::new(),
            active_task_ids: Vec::new(),
        },
        recovery: RecoveryReadModel { workspaces: Vec::new(), summaries: Vec::new(), active_recovery_ids: Vec::new() },
        ledger: ledger(0, 0),
    }
}

#[test]
fn runtime_read_model_merges_sidecars_and_ledger_summary() {
    let session = SessionSidecarInput {
        export: SessionSidecarExport {
            session_id: "session-1".to_string(),
            status: SessionSidecarStatus::Resumed,
            last_update: 1,
            execution_chain_ref: Some("chain-1".to_string()),
            recovery_ref: Some("recovery-1".to_string()),
            chain: None,
            ownership_mission_id: Some("mission-1".to_string()),
            ownership_task_id: Some("todo-1".to_string()),
            current_turn: None,
        },
        projection: None,
    };
    let workspace = WorkspaceRecoveryExport {
        recovery_ref: "recovery-1".to_string(),
        workspace_id: "workspace-1".to_string(),
        status: RecoveryStatus::Ready,
        last_update: 2,
        session_id: Some("session-1".to_string()),
        mission_id: Some("mission-1".to_string()),
        task_id: Some("todo-1".to_string()),
        worker_id: None,
        execution_chain_ref: Some("chain-1".to_string()),
        public_diagnostic_summary: Some("resume".to_string()),
    };
    let model = runtime_read_model_dto(empty_model(), &vec![session], &vec![workspace], ledger(12, 7), &Vec::new());
    assert_eq!(model.sessions.len(), 1);
    assert_eq!(model.sessions[0].recovery_ref.as_deref(), Some("recovery-1"));
    assert_eq!(model.recovery.workspaces[0].recovery_ref.as_deref(), Some("recovery-1"));
    assert_eq!(model.recovery.active_recovery_ids, vec!["recovery-1".to_string()]);
    assert_eq!(model.sessions[0].active_task_ids, vec!["todo-1".to_string()]);
    assert_eq!(model.ledger.next_sequence, 12);
    assert_eq!(model.ledger.usage_count, 7);
}

#[test]
fn runtime_read_model_uses_task_store_projection_for_active_execution_group() {
    let chain = ChainExport {
        mission_id: "mission-projection-authority".to_string(),
        root_task_id: "task-root-projection".to_string(),
        execution_chain_ref: "chain-projection-authority".to_string(),
        recovery_ref: None,
        root_task: Some((TaskStatus::Running, 1)),
        branches: vec![BranchState {
            task_id: "task-running-projection".to_string(),
            worker_id: "worker-projection".to_string(),
            status: "running".to_string(),
            stage: "execute".to_string(),
            is_primary: true,
        }],
        active_branch_task_ids: vec!["task-running-projection".to_string()],
    };
    let projection = TaskProjection {
        mission_id: "mission-projection-authority".to_string(),
        root_status: TaskStatus::Running,
        tasks: vec![
            ProjectedTask { task_id: "task-root-projection".to_string(), title: "task-root-projection".to_string(), status: TaskStatus::Running },
            ProjectedTask { task_id: "task-running-projection".to_string(), title: "task-running-projection".to_string(), status: TaskStatus::Running },
            ProjectedTask { task_id: "task-pending-projection".to_string(), title: "task-pending-projection".to_string(), status: TaskStatus::Pending },
            ProjectedTask { task_id: "task-completed-projection".to_string(), title: "task-completed-projection".to_string(), status: TaskStatus::Completed },
        ],
    };
    let input = SessionSidecarInput {
        export: SessionSidecarExport {
            session_id: "session-projection-authority".to_string(),
            status: SessionSidecarStatus::Bound,
            last_update: 1,
            execution_chain_ref: Some("chain-projection-authority".to_string()),
            recovery_ref: None,
            chain: Some(chain),
            ownership_mission_id: Some("mission-projection-authority".to_string()),
            ownership_task_id: Some("task-running-projection".to_string()),
            current_turn: None,
        },
        projection: Some(projection),
    };
    let model = runtime_read_model_dto(empty_model(), &vec![input], &Vec::new(), ledger(0, 0), &Vec::new());
    let group = model
        .activity
        .execution_groups
        .iter()
        .find(|entry| entry.mission_id == "mission-projection-authority")
        .expect("TaskStore projection should create execution group entry");
    assert_eq!(group.current_status.as_deref(), Some("running"));
    assert!(group.active_task_ids.contains(&"task-root-projection".to_string()));
    assert!(group.active_task_ids.contains(&"task-pending-projection".to_string()));
    assert!(group.active_task_ids.contains(&"task-running-projection".to_string()));
    assert!(!group.active_task_ids.contains(&"task-completed-projection".to_string()));
    let status = |id: &str| {
        model.activity.tasks.iter().find(|t| t.task_id == id).and_then(|t| t.current_status.clone())
    };
    assert_eq!(status("task-pending-projection").as_deref(), Some("pending"));
    assert_eq!(status("task-completed-projection").as_deref(), Some("completed"));
    let ids: Vec<&str> = model.activity.tasks.iter().map(|t| t.task_id.as_str()).collect();
    assert_eq!(
        ids,
        vec!["task-completed-projection", "task-pending-projection", "task-root-projection", "task-running-projection"]
    );
    assert_eq!(model.activity.active_execution_group_ids, vec!["mission-projection-authority".to_string()]);
    assert_eq!(
        model.activity.active_task_ids,
        vec![
            "task-pending-projection".to_string(),
            "task-root-projection".to_string(),
            "task-running-projection".to_string()
        ]
    );
}

#[test]
fn later_session_sidecar_replaces_the_earlier_summary_and_sessions_are_sorted() {
    let export = |session_id: &str, status: SessionSidecarStatus| SessionSidecarInput {
        export: SessionSidecarExport {
            session_id: session_id.to_string(),
            status,
            last_update: 3,
            execution_chain_ref: None,
            recovery_ref: None,
            chain: None,
            ownership_mission_id: None,
            ownership_task_id: None,
            current_turn: None,
        },
        projection: None,
    };
    let model = runtime_read_model_dto(
        empty_model(),
        &vec![
            export("session-b", SessionSidecarStatus::Bound),
            export("session-a", SessionSidecarStatus::Detached),
            export("session-b", SessionSidecarStatus::Resumed),
        ],
        &Vec::new(),
        ledger(0, 0),
        &Vec::new(),
    );
    let ids: Vec<&str> = model.sessions.iter().map(|s| s.session_id.as_str()).collect();
    assert_eq!(ids, vec!["session-a", "session-b"]);
    assert_eq!(model.sessions[1].current_status, "resumed");
}

#[test]
fn recovery_resume_response_takes_decided_worker_then_owner() {
    let mut facts = RecoveryExecutionFacts {
        recovery_id: "recovery-1".to_string(),
        snapshot_id: "snapshot-1".to_string(),
        session_id: Some("session-1".to_string()),
        workspace_id: None,
        owner_worker_id: Some("worker-owner".to_string()),
        mission_id: "mission-1".to_string(),
        assignment_id: "assignment-1".to_string(),
        task_id: "task-1".to_string(),
        decided_worker_id: Some("worker-decided".to_string()),
    };
    let response = RecoveryResumeResponseDto::new(&facts, "event-1", 99, true);
    assert_eq!(response.worker_id, "worker-decided");
    assert_eq!(response.event_id, "event-1");
    assert_eq!(response.resumed_at, 99);
    assert!(response.memory_writeback_applied);
    assert_eq!(response.session_id.as_deref(), Some("session-1"));
    facts.decided_worker_id = None;
    assert_eq!(RecoveryResumeResponseDto::new(&facts, "event-2", 1, false).worker_id, "worker-owner");
}
